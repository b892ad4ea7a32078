//! The metadata cache: driver versions resolved earlier, each kept for a
//! time-to-live. Entries are appended, never edited; an expired entry counts
//! as absent.
use vstd::prelude::*;

verus! {

pub struct DriverMetadata {
    pub browser_version: String,
    pub driver_name: String,
    pub driver_version: String,
    /// Seconds since the Unix epoch at which the entry was written.
    pub created: u64,
    /// Seconds the entry stays valid.
    pub ttl: u64,
}

impl DriverMetadata {
    /// The entry is still valid at `now`: `now < created + ttl`.
    pub open spec fn is_live(&self, now: u64) -> bool {
        (now as int) < self.created as int + self.ttl as int
    }

    pub open spec fn is_for(&self, driver_name: Seq<char>, browser_version: Seq<char>) -> bool {
        self.driver_name@ == driver_name && self.browser_version@ == browser_version
    }

    pub fn live_at(&self, now: u64) -> (r: bool)
        ensures
            r == self.is_live(now),
    {
        now < self.created || now - self.created < self.ttl
    }
}

/// The driver version of the first valid entry for the pair, in order.
pub open spec fn first_live(
    entries: Seq<DriverMetadata>,
    driver_name: Seq<char>,
    browser_version: Seq<char>,
    now: u64,
) -> Option<Seq<char>>
    decreases entries.len(),
{
    if entries.len() == 0 {
        None
    } else if entries[0].is_for(driver_name, browser_version) && entries[0].is_live(now) {
        Some(entries[0].driver_version@)
    } else {
        first_live(entries.drop_first(), driver_name, browser_version, now)
    }
}

/// What the cache answers for a driver and a browser version; an empty browser
/// version stands for "latest" and is never answered from the cache.
pub open spec fn cached_driver_version(
    entries: Seq<DriverMetadata>,
    driver_name: Seq<char>,
    browser_version: Seq<char>,
    now: u64,
) -> Option<Seq<char>> {
    if browser_version.len() == 0 {
        None
    } else {
        first_live(entries, driver_name, browser_version, now)
    }
}

pub fn get_driver_version_from_metadata(
    drivers: &Vec<DriverMetadata>,
    driver_name: &str,
    browser_version: &str,
    now: u64,
) -> (r: Option<String>)
    ensures
        r is Some == cached_driver_version(drivers@, driver_name@, browser_version@, now) is Some,
        r is Some ==> r->0@ == cached_driver_version(
            drivers@,
            driver_name@,
            browser_version@,
            now,
        )->0,
{
    if browser_version.unicode_len() == 0 {
        return None;
    }
    let n = drivers.len();
    let mut i: usize = 0;
    proof {
        assert(drivers@.subrange(0, n as int) =~= drivers@);
    }
    while i < n
        invariant
            n == drivers@.len(),
            i <= n,
            browser_version@.len() > 0,
            first_live(drivers@, driver_name@, browser_version@, now) == first_live(
                drivers@.subrange(i as int, n as int),
                driver_name@,
                browser_version@,
                now,
            ),
        decreases n - i,
    {
        proof {
            assert(drivers@.subrange(i as int, n as int).drop_first() =~= drivers@.subrange(
                i + 1,
                n as int,
            ));
        }
        let d = &drivers[i];
        if d.driver_name == driver_name.to_owned() && d.browser_version == browser_version.to_owned()
            && d.live_at(now) {
            return Some(d.driver_version.clone());
        }
        i = i + 1;
    }
    None
}

pub fn create_driver_metadata(
    browser_version: &str,
    driver_name: &str,
    driver_version: &str,
    driver_ttl: u64,
    now: u64,
) -> (r: DriverMetadata)
    ensures
        r.browser_version@ == browser_version@,
        r.driver_name@ == driver_name@,
        r.driver_version@ == driver_version@,
        r.created == now,
        r.ttl == driver_ttl,
{
    DriverMetadata {
        browser_version: browser_version.to_owned(),
        driver_name: driver_name.to_owned(),
        driver_version: driver_version.to_owned(),
        created: now,
        ttl: driver_ttl,
    }
}

/// The whole cache, as it is persisted.
pub struct Metadata {
    pub drivers: Vec<DriverMetadata>,
}

impl Metadata {
    pub fn new() -> (r: Metadata)
        ensures
            r.drivers@.len() == 0,
    {
        Metadata { drivers: Vec::new() }
    }

    /// Records a freshly resolved driver version, unless the browser version is
    /// empty ("latest"), which is never cached. Returns whether the cache
    /// changed and so needs writing back.
    pub fn record_driver_version(
        &mut self,
        browser_version: &str,
        driver_name: &str,
        driver_version: &str,
        driver_ttl: u64,
        now: u64,
    ) -> (changed: bool)
        ensures
            changed == (browser_version@.len() > 0),
            !changed ==> final(self).drivers@ == old(self).drivers@,
            changed ==> final(self).drivers@.len() == old(self).drivers@.len() + 1,
            changed ==> final(self).drivers@.drop_last() == old(self).drivers@,
            changed ==> ({
                let e = final(self).drivers@.last();
                e.browser_version@ == browser_version@ && e.driver_name@ == driver_name@
                    && e.driver_version@ == driver_version@ && e.created == now && e.ttl
                    == driver_ttl
            }),
    {
        if browser_version.unicode_len() == 0 {
            return false;
        }
        let entry = create_driver_metadata(
            browser_version,
            driver_name,
            driver_version,
            driver_ttl,
            now,
        );
        self.drivers.push(entry);
        proof {
            assert(final(self).drivers@.drop_last() =~= old(self).drivers@);
        }
        true
    }
}

/// What the cache answers is the driver version of an entry for that driver
/// and browser version that is still valid: an entry with
/// `now >= created + ttl` is never returned.
pub proof fn lemma_answer_is_live_entry(
    entries: Seq<DriverMetadata>,
    driver_name: Seq<char>,
    browser_version: Seq<char>,
    now: u64,
)
    ensures
        cached_driver_version(entries, driver_name, browser_version, now) is Some ==> exists|i: int|
            0 <= i < entries.len() && (#[trigger] entries[i]).is_for(driver_name, browser_version)
                && entries[i].is_live(now) && entries[i].driver_version@
                == cached_driver_version(entries, driver_name, browser_version, now)->0,
    decreases entries.len(),
{
    if entries.len() > 0 && browser_version.len() > 0 {
        if !(entries[0].is_for(driver_name, browser_version) && entries[0].is_live(now)) {
            lemma_answer_is_live_entry(entries.drop_first(), driver_name, browser_version, now);
            if cached_driver_version(entries, driver_name, browser_version, now) is Some {
                let i = choose|i: int|
                    0 <= i < entries.drop_first().len() && (#[trigger] entries.drop_first()[i]).is_for(
                        driver_name,
                        browser_version,
                    ) && entries.drop_first()[i].is_live(now)
                        && entries.drop_first()[i].driver_version@ == cached_driver_version(
                        entries.drop_first(),
                        driver_name,
                        browser_version,
                        now,
                    )->0;
                assert(entries[i + 1] == entries.drop_first()[i]);
            }
        } else {
            assert(entries[0].is_for(driver_name, browser_version));
        }
    }
}

/// A lookup with an empty browser version never answers from the cache,
/// whatever the cache holds.
pub proof fn lemma_latest_is_never_cached(
    entries: Seq<DriverMetadata>,
    driver_name: Seq<char>,
    now: u64,
)
    ensures
        cached_driver_version(entries, driver_name, Seq::empty(), now) is None,
{
}

} // verus!
