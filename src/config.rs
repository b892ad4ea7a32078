//! Platform names and the layered settings resolver.
//!
//! A setting is taken from the first source that has a value for it: an
//! explicit value, the config file, the environment, then a built-in default.
use crate::text::{
    contains_in_lowered, dash_to_underscore, eq_ignore_ascii_case, is_lowering_of, lower_seq,
    parse_u64, replace_dash, seq_contains, spec_parse_u64, to_upper, upper_of,
};
use vstd::prelude::*;

verus! {

pub const ARM64_ARCH: &'static str = "arm64";
pub const CONFIG_FILE: &'static str = "selenium-manager-config.toml";
pub const ENV_PREFIX: &'static str = "SE_";
pub const VERSION_PREFIX: &'static str = "-version";
pub const PATH_PREFIX: &'static str = "-path";
pub const ENV_PROCESSOR_ARCHITECTURE: &'static str = "PROCESSOR_ARCHITECTURE";
pub const REQUEST_TIMEOUT_SEC: u64 = 120;
pub const TTL_BROWSERS_SEC: u64 = 0;
pub const TTL_DRIVERS_SEC: u64 = 86400;

#[allow(non_camel_case_types, clippy::upper_case_acronyms)]
#[derive(PartialEq, Eq, Structural, Hash, Debug, Clone, Copy)]
pub enum OS {
    WINDOWS,
    MACOS,
    LINUX,
}

impl OS {
    /// The canonical lower-case name of the OS family.
    pub open spec fn name(self) -> Seq<char> {
        match self {
            OS::WINDOWS => "windows"@,
            OS::MACOS => "macos"@,
            OS::LINUX => "linux"@,
        }
    }

    /// `s` names this OS family, up to ASCII case.
    pub open spec fn matches(self, s: Seq<char>) -> bool {
        lower_seq(self.name()) == lower_seq(s)
    }

    pub fn to_str(&self) -> (r: &'static str)
        ensures
            r@ == self.name(),
    {
        match self {
            OS::WINDOWS => "windows",
            OS::MACOS => "macos",
            OS::LINUX => "linux",
        }
    }

    pub fn is(&self, os: &str) -> (r: bool)
        ensures
            r == self.matches(os@),
    {
        eq_ignore_ascii_case(self.to_str(), os)
    }
}

/// The OS family that a name stands for; anything unrecognised counts as Linux.
pub open spec fn spec_str_to_os(os: Seq<char>) -> OS {
    if OS::WINDOWS.matches(os) {
        OS::WINDOWS
    } else if OS::MACOS.matches(os) {
        OS::MACOS
    } else {
        OS::LINUX
    }
}

pub fn str_to_os(os: &str) -> (r: OS)
    ensures
        r == spec_str_to_os(os@),
{
    if OS::WINDOWS.is(os) {
        OS::WINDOWS
    } else if OS::MACOS.is(os) {
        OS::MACOS
    } else {
        OS::LINUX
    }
}

#[allow(non_camel_case_types, clippy::upper_case_acronyms)]
#[derive(PartialEq, Eq, Structural, Hash, Debug, Clone, Copy)]
pub enum ARCH {
    X32,
    X64,
    ARM64,
}

impl ARCH {
    /// The lower-case spellings under which the architecture is reported.
    pub open spec fn aliases(self) -> Seq<Seq<char>> {
        match self {
            ARCH::X32 => seq!["x86"@, "i386"@],
            ARCH::X64 => seq!["x86_64"@, "x64"@, "i686"@, "amd64"@, "ia64"@],
            ARCH::ARM64 => seq!["arm64"@, "aarch64"@, "arm"@],
        }
    }

    /// The ASCII lower-casing of `s` is one of the architecture's spellings.
    pub open spec fn matches(self, s: Seq<char>) -> bool {
        self.aliases().contains(lower_seq(s))
    }

    pub fn to_str_vector(&self) -> (r: Vec<&'static str>)
        ensures
            r@.len() == self.aliases().len(),
            forall|i: int| 0 <= i < r@.len() ==> (#[trigger] r@[i])@ == self.aliases()[i],
    {
        match self {
            ARCH::X32 => vec!["x86", "i386"],
            ARCH::X64 => vec!["x86_64", "x64", "i686", "amd64", "ia64"],
            ARCH::ARM64 => vec![ARM64_ARCH, "aarch64", "arm"],
        }
    }

    pub fn is(&self, arch: &str) -> (r: bool)
        ensures
            r == self.matches(arch@),
    {
        let names = self.to_str_vector();
        let mut i: usize = 0;
        while i < names.len()
            invariant
                names@.len() == self.aliases().len(),
                forall|j: int| 0 <= j < names@.len() ==> (#[trigger] names@[j])@ == self.aliases()[j],
                i <= names@.len(),
                forall|j: int| 0 <= j < i ==> self.aliases()[j] != lower_seq(arch@),
            decreases names@.len() - i,
        {
            if is_lowering_of(names[i], arch) {
                return true;
            }
            i = i + 1;
        }
        false
    }
}

/// Platform matching ignores ASCII case: two spellings that differ only in
/// case match the same OS families and the same architectures.
pub proof fn lemma_platform_matching_ignores_case(s: Seq<char>, t: Seq<char>)
    requires
        lower_seq(s) == lower_seq(t),
    ensures
        forall|os: OS| #[trigger] os.matches(s) == os.matches(t),
        forall|arch: ARCH| #[trigger] arch.matches(s) == arch.matches(t),
        spec_str_to_os(s) == spec_str_to_os(t),
{
}

/// Every documented spelling of an architecture, and every OS family's own
/// name, is matched by it.
pub proof fn lemma_documented_names_match(arch: ARCH, i: int, os: OS)
    requires
        0 <= i < arch.aliases().len(),
    ensures
        arch.matches(arch.aliases()[i]),
        os.matches(os.name()),
{
    reveal_strlit("x86");
    reveal_strlit("i386");
    reveal_strlit("x86_64");
    reveal_strlit("x64");
    reveal_strlit("i686");
    reveal_strlit("amd64");
    reveal_strlit("ia64");
    reveal_strlit("arm64");
    reveal_strlit("aarch64");
    reveal_strlit("arm");
    let a = arch.aliases()[i];
    assert(lower_seq(a) =~= a);
    assert(arch.aliases()[i] == a);
}

/// What the platform probe reports as the architecture: on Windows the
/// processor-architecture variable; elsewhere `arm64` when `uname -a` mentions
/// it, else what `uname -m` printed.
pub open spec fn detected_arch(
    os: Seq<char>,
    processor_architecture: Seq<char>,
    uname_a: Seq<char>,
    uname_m: Seq<char>,
) -> Seq<char> {
    if OS::WINDOWS.matches(os) {
        processor_architecture
    } else if seq_contains(lower_seq(uname_a), "arm64"@) {
        "arm64"@
    } else {
        uname_m
    }
}

/// Picks the architecture out of the probe results; a failed probe is an
/// empty string and stays one.
pub fn detect_arch(os: &str, processor_architecture: &str, uname_a: &str, uname_m: &str) -> (r:
    String)
    ensures
        r@ == detected_arch(os@, processor_architecture@, uname_a@, uname_m@),
{
    if OS::WINDOWS.is(os) {
        processor_architecture.to_owned()
    } else if contains_in_lowered(uname_a, ARM64_ARCH) {
        ARM64_ARCH.to_owned()
    } else {
        uname_m.to_owned()
    }
}


#[verifier::external_type_specification]
#[verifier::external_body]
pub struct ExTomlValue(toml::Value);

#[verifier::external_type_specification]
#[verifier::external_body]
#[verifier::reject_recursive_types(K)]
#[verifier::reject_recursive_types(V)]
pub struct ExTomlMap<K, V>(toml::map::Map<K, V>);

/// The keys of a TOML table that hold a string, with those strings.
pub uninterp spec fn toml_texts(t: toml::map::Map<String, toml::Value>) -> Map<Seq<char>, Seq<char>>;

/// The keys of a TOML table that hold an integer, with those integers.
pub uninterp spec fn toml_integers(t: toml::map::Map<String, toml::Value>) -> Map<Seq<char>, int>;

/// Relies on `<toml::Table as FromStr>::from_str`: `None` where the text is not
/// a TOML document.
#[verifier::external_body]
fn parse_toml_table(text: &str) -> (r: Option<toml::map::Map<String, toml::Value>>) {
    text.parse::<toml::Table>().ok()
}

/// Relies on `toml::Table::get` and `toml::Value::as_str`: the string under
/// `key`, if the table holds one there.
#[verifier::external_body]
fn toml_text(t: &toml::map::Map<String, toml::Value>, key: &str) -> (r: Option<String>)
    ensures
        r is Some == toml_texts(*t).contains_key(key@),
        r is Some ==> r->0@ == toml_texts(*t)[key@],
{
    t.get(key).and_then(|v| v.as_str()).map(|s| s.to_string())
}

/// Relies on `toml::Table::get` and `toml::Value::as_integer`: the integer under
/// `key`, if the table holds one there.
#[verifier::external_body]
fn toml_integer(t: &toml::map::Map<String, toml::Value>, key: &str) -> (r: Option<i64>)
    ensures
        r is Some == toml_integers(*t).contains_key(key@),
        r is Some ==> r->0 as int == toml_integers(*t)[key@],
{
    t.get(key).and_then(|v| v.as_integer())
}

/// The persisted config file: a flat TOML table, or nothing where the file is
/// missing or malformed.
pub struct ConfigFile {
    pub table: Option<toml::map::Map<String, toml::Value>>,
}

impl ConfigFile {
    /// The string the file holds under `key`.
    pub open spec fn text_value(&self, key: Seq<char>) -> Option<Seq<char>> {
        match self.table {
            Some(t) => if toml_texts(t).contains_key(key) {
                Some(toml_texts(t)[key])
            } else {
                None
            },
            None => None,
        }
    }

    /// The integer the file holds under `key`.
    pub open spec fn integer_value(&self, key: Seq<char>) -> Option<int> {
        match self.table {
            Some(t) => if toml_integers(t).contains_key(key) {
                Some(toml_integers(t)[key])
            } else {
                None
            },
            None => None,
        }
    }

    /// A config file that holds nothing.
    pub fn empty() -> (r: ConfigFile)
        ensures
            forall|k: Seq<char>| r.text_value(k) is None && r.integer_value(k) is None,
    {
        ConfigFile { table: None }
    }

    /// Reads the text of a config file; a malformed file counts as empty.
    pub fn parse(text: &str) -> (r: ConfigFile) {
        ConfigFile { table: parse_toml_table(text) }
    }

    pub fn text(&self, key: &str) -> (r: Option<String>)
        ensures
            r is Some == self.text_value(key@) is Some,
            r is Some ==> r->0@ == self.text_value(key@)->0,
    {
        match &self.table {
            Some(t) => toml_text(t, key),
            None => None,
        }
    }

    pub fn integer(&self, key: &str) -> (r: Option<i64>)
        ensures
            r is Some == self.integer_value(key@) is Some,
            r is Some ==> r->0 as int == self.integer_value(key@)->0,
    {
        match &self.table {
            Some(t) => toml_integer(t, key),
            None => None,
        }
    }
}

/// The first value bound to `name` in a list of environment pairs.
pub open spec fn env_lookup(vars: Seq<(String, String)>, name: Seq<char>) -> Option<Seq<char>>
    decreases vars.len(),
{
    if vars.len() == 0 {
        None
    } else if vars[0].0@ == name {
        Some(vars[0].1@)
    } else {
        env_lookup(vars.drop_first(), name)
    }
}

/// A snapshot of the process environment, as (name, value) pairs.
pub struct EnvVars {
    pub vars: Vec<(String, String)>,
}

impl EnvVars {
    pub open spec fn value(&self, name: Seq<char>) -> Option<Seq<char>> {
        env_lookup(self.vars@, name)
    }

    pub fn new(vars: Vec<(String, String)>) -> (r: EnvVars)
        ensures
            r.vars@ == vars@,
    {
        EnvVars { vars }
    }

    pub fn get(&self, name: &str) -> (r: Option<String>)
        ensures
            r is Some == self.value(name@) is Some,
            r is Some ==> r->0@ == self.value(name@)->0,
    {
        let n = self.vars.len();
        let mut i: usize = 0;
        proof {
            assert(self.vars@.subrange(0, n as int) =~= self.vars@);
        }
        while i < n
            invariant
                n == self.vars@.len(),
                i <= n,
                env_lookup(self.vars@, name@) == env_lookup(self.vars@.subrange(i as int, n as int), name@),
            decreases n - i,
        {
            proof {
                assert(self.vars@.subrange(i as int, n as int).drop_first() =~= self.vars@.subrange(
                    i + 1,
                    n as int,
                ));
            }
            if self.vars[i].0 == name.to_owned() {
                return Some(self.vars[i].1.clone());
            }
            i = i + 1;
        }
        None
    }
}

/// The environment variable that stands for a config key.
pub open spec fn env_name(key: Seq<char>) -> Seq<char> {
    "SE_"@ + upper_of(dash_to_underscore(key))
}

pub fn get_env_name(key: &str) -> (r: String)
    ensures
        r@ == env_name(key@),
{
    let mut env_name: String = ENV_PREFIX.to_owned();
    let key_uppercase: String = to_upper(replace_dash(key).as_str());
    env_name.append(key_uppercase.as_str());
    env_name
}

pub fn concat(prefix: &str, suffix: &str) -> (r: String)
    ensures
        r@ == prefix@ + suffix@,
{
    let mut label: String = prefix.to_owned();
    label.append(suffix);
    label
}

pub open spec fn key_views(keys: Seq<&str>) -> Seq<Seq<char>> {
    Seq::new(keys.len(), |i: int| keys[i]@)
}

/// The first key, in order, under which the file holds a non-empty string.
pub open spec fn first_file_text(file: ConfigFile, keys: Seq<Seq<char>>) -> Option<Seq<char>>
    decreases keys.len(),
{
    if keys.len() == 0 {
        None
    } else {
        match file.text_value(keys[0]) {
            Some(v) => if v.len() > 0 {
                Some(v)
            } else {
                first_file_text(file, keys.drop_first())
            },
            None => first_file_text(file, keys.drop_first()),
        }
    }
}

/// The first key, in order, whose environment variable is set and non-empty.
pub open spec fn first_env_text(env: EnvVars, keys: Seq<Seq<char>>) -> Option<Seq<char>>
    decreases keys.len(),
{
    if keys.len() == 0 {
        None
    } else {
        match env.value(env_name(keys[0])) {
            Some(v) => if v.len() > 0 {
                Some(v)
            } else {
                first_env_text(env, keys.drop_first())
            },
            None => first_env_text(env, keys.drop_first()),
        }
    }
}

/// A string setting: a non-empty explicit value, else the config file, else the
/// environment, else the default.
pub open spec fn resolved_text(
    explicit: Seq<char>,
    file: ConfigFile,
    env: EnvVars,
    keys: Seq<Seq<char>>,
    default: Seq<char>,
) -> Seq<char> {
    if explicit.len() > 0 {
        explicit
    } else {
        match first_file_text(file, keys) {
            Some(v) => v,
            None => match first_env_text(env, keys) {
                Some(v) => v,
                None => default,
            },
        }
    }
}

/// An integer setting: an explicit value, else a non-negative integer in the
/// config file, else an environment value that parses as one, else the default.
pub open spec fn resolved_integer(
    explicit: Option<u64>,
    file: ConfigFile,
    env: EnvVars,
    key: Seq<char>,
    default: u64,
) -> u64 {
    match explicit {
        Some(v) => v,
        None => match file.integer_value(key) {
            Some(i) if 0 <= i <= u64::MAX => i as u64,
            _ => match env.value(env_name(key)) {
                Some(s) => match spec_parse_u64(s) {
                    Some(v) => v,
                    None => default,
                },
                None => default,
            },
        },
    }
}

/// A string setting: the config keys to try, in order, and its default.
pub struct StringKey<'a>(pub Vec<&'a str>, pub &'a str);

impl StringKey<'_> {
    pub fn get_value(&self, explicit: &str, file: &ConfigFile, env: &EnvVars) -> (r: String)
        ensures
            r@ == resolved_text(explicit@, *file, *env, key_views(self.0@), self.1@),
    {
        if explicit.unicode_len() > 0 {
            return explicit.to_owned();
        }
        let ghost keys = key_views(self.0@);
        let n = self.0.len();
        let mut i: usize = 0;
        proof {
            assert(keys.subrange(0, n as int) =~= keys);
        }
        while i < n
            invariant
                n == self.0@.len(),
                explicit@.len() == 0,
                keys == key_views(self.0@),
                i <= n,
                first_file_text(*file, keys) == first_file_text(
                    *file,
                    keys.subrange(i as int, n as int),
                ),
            decreases n - i,
        {
            proof {
                assert(keys.subrange(i as int, n as int).drop_first() =~= keys.subrange(
                    i + 1,
                    n as int,
                ));
                assert(keys.subrange(i as int, n as int)[0] == self.0@[i as int]@);
            }
            match file.text(self.0[i]) {
                Some(v) => {
                    if v.unicode_len() > 0 {
                        return v;
                    }
                },
                None => {},
            }
            i = i + 1;
        }
        i = 0;
        proof {
            assert(keys.subrange(0, n as int) =~= keys);
        }
        while i < n
            invariant
                n == self.0@.len(),
                explicit@.len() == 0,
                keys == key_views(self.0@),
                i <= n,
                first_file_text(*file, keys) is None,
                first_env_text(*env, keys) == first_env_text(
                    *env,
                    keys.subrange(i as int, n as int),
                ),
            decreases n - i,
        {
            proof {
                assert(keys.subrange(i as int, n as int).drop_first() =~= keys.subrange(
                    i + 1,
                    n as int,
                ));
                assert(keys.subrange(i as int, n as int)[0] == self.0@[i as int]@);
            }
            let name = get_env_name(self.0[i]);
            match env.get(name.as_str()) {
                Some(v) => {
                    if v.unicode_len() > 0 {
                        return v;
                    }
                },
                None => {},
            }
            i = i + 1;
        }
        self.1.to_owned()
    }
}

/// An integer setting: its config key and its default.
pub struct IntegerKey<'a>(pub &'a str, pub u64);

impl IntegerKey<'_> {
    pub fn get_value(&self, explicit: Option<u64>, file: &ConfigFile, env: &EnvVars) -> (r: u64)
        ensures
            r == resolved_integer(explicit, *file, *env, self.0@, self.1),
    {
        if let Some(v) = explicit {
            return v;
        }
        if let Some(i) = file.integer(self.0) {
            if i >= 0 {
                return i as u64;
            }
        }
        let name = get_env_name(self.0);
        match env.get(name.as_str()) {
            Some(s) => match parse_u64(s.as_str()) {
                Some(v) => v,
                None => self.1,
            },
            None => self.1,
        }
    }
}


/// Values given explicitly for this run (on the command line); an empty string
/// or `None` leaves the setting to the lower sources.
pub struct Overrides {
    pub browser_version: String,
    pub driver_version: String,
    pub browser_path: String,
    pub os: String,
    pub arch: String,
    pub proxy: String,
    pub timeout: Option<u64>,
    pub browser_ttl: Option<u64>,
    pub driver_ttl: Option<u64>,
}

impl Overrides {
    /// No explicit value for any setting.
    pub fn none() -> (r: Overrides)
        ensures
            r.browser_version@.len() == 0,
            r.driver_version@.len() == 0,
            r.browser_path@.len() == 0,
            r.os@.len() == 0,
            r.arch@.len() == 0,
            r.proxy@.len() == 0,
            r.timeout is None,
            r.browser_ttl is None,
            r.driver_ttl is None,
    {
        Overrides {
            browser_version: String::new(),
            driver_version: String::new(),
            browser_path: String::new(),
            os: String::new(),
            arch: String::new(),
            proxy: String::new(),
            timeout: None,
            browser_ttl: None,
            driver_ttl: None,
        }
    }
}

pub struct ManagerConfig {
    pub browser_version: String,
    pub driver_version: String,
    pub browser_path: String,
    pub os: String,
    pub arch: String,
    pub proxy: String,
    pub timeout: u64,
    pub browser_ttl: u64,
    pub driver_ttl: u64,
}

/// The config keys of a per-browser or per-driver setting: the specific key
/// (`firefox-version`) before the generic one (`browser-version`).
pub open spec fn labelled_keys(name: Seq<char>, suffix: Seq<char>, generic: Seq<char>) -> Seq<
    Seq<char>,
> {
    seq![name + suffix, generic]
}

impl ManagerConfig {
    /// The settings of one run, each resolved from the explicit values, the
    /// config file, the environment and the defaults, in that order.
    /// `self_os` and `self_arch` are what the platform probe reported.
    pub fn default(
        browser_name: &str,
        driver_name: &str,
        explicit: &Overrides,
        file: &ConfigFile,
        env: &EnvVars,
        self_os: &str,
        self_arch: &str,
    ) -> (r: ManagerConfig)
        ensures
            r.browser_version@ == resolved_text(
                explicit.browser_version@,
                *file,
                *env,
                labelled_keys(browser_name@, "-version"@, "browser-version"@),
                Seq::empty(),
            ),
            r.driver_version@ == resolved_text(
                explicit.driver_version@,
                *file,
                *env,
                labelled_keys(driver_name@, "-version"@, "driver-version"@),
                Seq::empty(),
            ),
            r.browser_path@ == resolved_text(
                explicit.browser_path@,
                *file,
                *env,
                labelled_keys(browser_name@, "-path"@, "browser-path"@),
                Seq::empty(),
            ),
            r.os@ == resolved_text(explicit.os@, *file, *env, seq!["os"@], self_os@),
            r.arch@ == resolved_text(explicit.arch@, *file, *env, seq!["arch"@], self_arch@),
            r.proxy@ == resolved_text(explicit.proxy@, *file, *env, seq!["proxy"@], Seq::empty()),
            r.timeout == resolved_integer(
                explicit.timeout,
                *file,
                *env,
                "timeout"@,
                REQUEST_TIMEOUT_SEC,
            ),
            r.browser_ttl == resolved_integer(
                explicit.browser_ttl,
                *file,
                *env,
                "browser-ttl"@,
                TTL_BROWSERS_SEC,
            ),
            r.driver_ttl == resolved_integer(
                explicit.driver_ttl,
                *file,
                *env,
                "driver-ttl"@,
                TTL_DRIVERS_SEC,
            ),
    {
        let browser_version_label = concat(browser_name, VERSION_PREFIX);
        let driver_version_label = concat(driver_name, VERSION_PREFIX);
        let browser_path_label = concat(browser_name, PATH_PREFIX);
        let browser_version_key = StringKey(
            vec![browser_version_label.as_str(), "browser-version"],
            "",
        );
        let driver_version_key = StringKey(
            vec![driver_version_label.as_str(), "driver-version"],
            "",
        );
        let browser_path_key = StringKey(vec![browser_path_label.as_str(), "browser-path"], "");
        let os_key = StringKey(vec!["os"], self_os);
        let arch_key = StringKey(vec!["arch"], self_arch);
        let proxy_key = StringKey(vec!["proxy"], "");
        proof {
            assert(key_views(browser_version_key.0@) =~= labelled_keys(
                browser_name@,
                "-version"@,
                "browser-version"@,
            ));
            assert(key_views(driver_version_key.0@) =~= labelled_keys(
                driver_name@,
                "-version"@,
                "driver-version"@,
            ));
            assert(key_views(browser_path_key.0@) =~= labelled_keys(
                browser_name@,
                "-path"@,
                "browser-path"@,
            ));
            assert(key_views(os_key.0@) =~= seq!["os"@]);
            assert(key_views(arch_key.0@) =~= seq!["arch"@]);
            assert(key_views(proxy_key.0@) =~= seq!["proxy"@]);
            reveal_strlit("");
            assert(""@ =~= Seq::<char>::empty());
        }
        ManagerConfig {
            browser_version: browser_version_key.get_value(
                explicit.browser_version.as_str(),
                file,
                env,
            ),
            driver_version: driver_version_key.get_value(
                explicit.driver_version.as_str(),
                file,
                env,
            ),
            browser_path: browser_path_key.get_value(explicit.browser_path.as_str(), file, env),
            os: os_key.get_value(explicit.os.as_str(), file, env),
            arch: arch_key.get_value(explicit.arch.as_str(), file, env),
            proxy: proxy_key.get_value(explicit.proxy.as_str(), file, env),
            timeout: IntegerKey("timeout", REQUEST_TIMEOUT_SEC).get_value(
                explicit.timeout,
                file,
                env,
            ),
            browser_ttl: IntegerKey("browser-ttl", TTL_BROWSERS_SEC).get_value(
                explicit.browser_ttl,
                file,
                env,
            ),
            driver_ttl: IntegerKey("driver-ttl", TTL_DRIVERS_SEC).get_value(
                explicit.driver_ttl,
                file,
                env,
            ),
        }
    }

    /// A copy that shares nothing with `config`.
    #[allow(clippy::should_implement_trait)]
    pub fn clone(config: &ManagerConfig) -> (r: ManagerConfig)
        ensures
            r == *config,
    {
        ManagerConfig {
            browser_version: config.browser_version.clone(),
            driver_version: config.driver_version.clone(),
            os: config.os.clone(),
            arch: config.arch.clone(),
            browser_path: config.browser_path.clone(),
            proxy: config.proxy.clone(),
            timeout: config.timeout,
            browser_ttl: config.browser_ttl,
            driver_ttl: config.driver_ttl,
        }
    }
}

/// Precedence of a string setting: a non-empty explicit value is taken whatever
/// the other sources hold; a value in the config file is taken whatever the
/// environment and the default are; a value in the environment is taken
/// whatever the default is; with none of them the default is taken.
pub proof fn lemma_text_precedence(
    explicit: Seq<char>,
    file: ConfigFile,
    env: EnvVars,
    other_env: EnvVars,
    keys: Seq<Seq<char>>,
    default: Seq<char>,
    other_default: Seq<char>,
)
    ensures
        explicit.len() > 0 ==> resolved_text(explicit, file, env, keys, default) == explicit,
        explicit.len() == 0 && first_file_text(file, keys) is Some ==> resolved_text(
            explicit,
            file,
            env,
            keys,
            default,
        ) == first_file_text(file, keys)->0 && resolved_text(explicit, file, env, keys, default)
            == resolved_text(explicit, file, other_env, keys, other_default),
        explicit.len() == 0 && first_file_text(file, keys) is None && first_env_text(env, keys) is Some
            ==> resolved_text(explicit, file, env, keys, default) == first_env_text(env, keys)->0
            && resolved_text(explicit, file, env, keys, default) == resolved_text(
            explicit,
            file,
            env,
            keys,
            other_default,
        ),
        explicit.len() == 0 && first_file_text(file, keys) is None && first_env_text(env, keys) is None
            ==> resolved_text(explicit, file, env, keys, default) == default,
{
}

/// Precedence of an integer setting: an explicit value is taken whatever the
/// other sources hold; a non-negative integer in the config file is taken
/// whatever the environment and the default are; an environment value that
/// parses is taken whatever the default is.
pub proof fn lemma_integer_precedence(
    explicit: Option<u64>,
    file: ConfigFile,
    env: EnvVars,
    other_env: EnvVars,
    key: Seq<char>,
    default: u64,
    other_default: u64,
)
    ensures
        explicit is Some ==> resolved_integer(explicit, file, env, key, default) == explicit->0,
        explicit is None && file.integer_value(key) is Some && 0 <= file.integer_value(key)->0
            <= u64::MAX ==> resolved_integer(explicit, file, env, key, default)
            == file.integer_value(key)->0 && resolved_integer(explicit, file, env, key, default)
            == resolved_integer(explicit, file, other_env, key, other_default),
        explicit is None && file.integer_value(key) is None && env.value(env_name(key)) is Some
            && spec_parse_u64(env.value(env_name(key))->0) is Some ==> resolved_integer(
            explicit,
            file,
            env,
            key,
            default,
        ) == spec_parse_u64(env.value(env_name(key))->0)->0,
{
}

/// A value in the config file that is not a usable integer (text, a negative
/// number, or no value at all) never stops resolution: with nothing usable in
/// the environment either, the default is taken.
pub proof fn lemma_bad_integer_uses_default(
    file: ConfigFile,
    env: EnvVars,
    key: Seq<char>,
    default: u64,
)
    requires
        file.integer_value(key) is None || file.integer_value(key)->0 < 0,
        env.value(env_name(key)) is None || spec_parse_u64(env.value(env_name(key))->0) is None,
    ensures
        resolved_integer(None, file, env, key, default) == default,
{
}

} // verus!
