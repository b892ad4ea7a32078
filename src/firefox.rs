//! The Firefox strategy: where Firefox is installed, how its version is
//! probed, and where geckodriver releases are found and cached.
use crate::config::{ManagerConfig, ARCH, OS};
use crate::metadata::{cached_driver_version, get_driver_version_from_metadata, Metadata};
use crate::text::{
    after_last_slash, eq_ignore_ascii_case, last_segment, lower_seq, parse_i32_or_zero,
    parse_version, spec_i32_or_zero, version_chars,
};
use vstd::prelude::*;

verus! {

pub const FIREFOX_NAME: &'static str = "firefox";
pub const GECKODRIVER_NAME: &'static str = "geckodriver";
pub const DRIVER_URL: &'static str = "https://github.com/mozilla/geckodriver/releases/";
pub const LATEST_RELEASE: &'static str = "latest";
pub const ENV_PROGRAM_FILES: &'static str = "PROGRAMFILES";
pub const ENV_PROGRAM_FILES_X86: &'static str = "PROGRAMFILES(X86)";

/// Release track of a browser.
#[derive(PartialEq, Eq, Structural, Hash, Debug, Clone, Copy)]
pub enum Channel {
    Stable,
    Beta,
    Dev,
    Nightly,
}

/// Key of the install-location table: an OS family and a channel.
#[derive(PartialEq, Eq, Structural, Hash, Debug, Clone, Copy)]
pub struct BrowserPath {
    pub os: OS,
    pub channel: Channel,
}

impl BrowserPath {
    pub fn new(os: OS, channel: Channel) -> (r: BrowserPath)
        ensures
            r.os == os,
            r.channel == channel,
    {
        BrowserPath { os, channel }
    }
}

pub open spec fn path_key(os: OS, channel: Channel) -> BrowserPath {
    BrowserPath { os, channel }
}

/// The table holds an entry under `key`.
pub open spec fn has_key(table: Seq<(BrowserPath, &'static str)>, key: BrowserPath) -> bool {
    exists|i: int| 0 <= i < table.len() && #[trigger] table[i].0 == key
}

/// Where Firefox is installed by default, for each OS family and channel.
pub open spec fn firefox_path(os: OS, channel: Channel) -> Seq<char> {
    match os {
        OS::WINDOWS => match channel {
            Channel::Stable | Channel::Beta => "\\\\Mozilla Firefox\\\\firefox.exe"@,
            Channel::Dev => "\\\\Firefox Developer Edition\\\\firefox.exe"@,
            Channel::Nightly => "\\\\Firefox Nightly\\\\firefox.exe"@,
        },
        OS::MACOS => match channel {
            Channel::Stable | Channel::Beta => "/Applications/Firefox.app/Contents/MacOS/firefox"@,
            Channel::Dev => "/Applications/Firefox\\ Developer\\ Edition.app/Contents/MacOS/firefox"@,
            Channel::Nightly => "/Applications/Firefox\\ Nightly.app/Contents/MacOS/firefox"@,
        },
        OS::LINUX => match channel {
            Channel::Nightly => "firefox-trunk"@,
            _ => "firefox"@,
        },
    }
}

pub fn browser_path_for(os: OS, channel: Channel) -> (r: &'static str)
    ensures
        r@ == firefox_path(os, channel),
{
    match os {
        OS::WINDOWS => match channel {
            Channel::Stable | Channel::Beta => "\\\\Mozilla Firefox\\\\firefox.exe",
            Channel::Dev => "\\\\Firefox Developer Edition\\\\firefox.exe",
            Channel::Nightly => "\\\\Firefox Nightly\\\\firefox.exe",
        },
        OS::MACOS => match channel {
            Channel::Stable | Channel::Beta => "/Applications/Firefox.app/Contents/MacOS/firefox",
            Channel::Dev => "/Applications/Firefox\\ Developer\\ Edition.app/Contents/MacOS/firefox",
            Channel::Nightly => "/Applications/Firefox\\ Nightly.app/Contents/MacOS/firefox",
        },
        OS::LINUX => match channel {
            Channel::Nightly => "firefox-trunk",
            _ => "firefox",
        },
    }
}

/// The channel that a browser-version setting asks for: `beta`, `dev` and
/// `nightly` name theirs (`canary` counts as nightly), anything else is stable.
pub open spec fn channel_of(browser_version: Seq<char>) -> Channel {
    let v = lower_seq(browser_version);
    if v == lower_seq("beta"@) {
        Channel::Beta
    } else if v == lower_seq("dev"@) {
        Channel::Dev
    } else if v == lower_seq("nightly"@) || v == lower_seq("canary"@) {
        Channel::Nightly
    } else {
        Channel::Stable
    }
}

pub fn channel_from_version(browser_version: &str) -> (r: Channel)
    ensures
        r == channel_of(browser_version@),
{
    if eq_ignore_ascii_case(browser_version, "beta") {
        Channel::Beta
    } else if eq_ignore_ascii_case(browser_version, "dev") {
        Channel::Dev
    } else if eq_ignore_ascii_case(browser_version, "nightly") || eq_ignore_ascii_case(
        browser_version,
        "canary",
    ) {
        Channel::Nightly
    } else {
        Channel::Stable
    }
}

/// Position of the first `.` at or after `from`, or the length when none.
pub open spec fn next_dot(s: Seq<char>, from: int) -> int
    decreases s.len() - from,
{
    if from < 0 || from >= s.len() {
        s.len() as int
    } else if s[from] == '.' {
        from
    } else {
        next_dot(s, from + 1)
    }
}

/// The second dot-separated component of a version, if it has one.
pub open spec fn minor_field(v: Seq<char>) -> Option<Seq<char>> {
    let a = next_dot(v, 0);
    if a >= v.len() {
        None
    } else {
        Some(v.subrange(a + 1, next_dot(v, a + 1)))
    }
}

/// The minor version as a number; zero where it is missing or not a number.
pub open spec fn minor_number(v: Seq<char>) -> i32 {
    match minor_field(v) {
        Some(m) => spec_i32_or_zero(m),
        None => 0,
    }
}

fn find_dot(s: &str, from: usize) -> (r: usize)
    requires
        from <= s@.len(),
    ensures
        r as int == next_dot(s@, from as int),
        from <= r <= s@.len(),
{
    let n = s.unicode_len();
    let mut i = from;
    while i < n
        invariant
            n == s@.len(),
            from <= i <= n,
            next_dot(s@, from as int) == next_dot(s@, i as int),
        decreases n - i,
    {
        if s.get_char(i) == '.' {
            return i;
        }
        i = i + 1;
    }
    i
}

/// The second dot-separated component of `full_version`, or an error naming
/// the version where it has none.
pub fn get_minor_version(full_version: &str) -> (r: Result<String, String>)
    ensures
        r is Ok == minor_field(full_version@) is Some,
        r is Ok ==> r->Ok_0@ == minor_field(full_version@)->0,
        r is Err ==> r->Err_0@ == "Wrong version: "@ + full_version@,
{
    let n = full_version.unicode_len();
    let a = find_dot(full_version, 0);
    if a >= n {
        let mut message = "Wrong version: ".to_owned();
        message.append(full_version);
        return Err(message);
    }
    let b = find_dot(full_version, a + 1);
    Ok(full_version.substring_char(a + 1, b).to_owned())
}

/// Name of the release archive for a platform. geckodriver ships ARM64
/// builds for Linux and Windows from minor version 32 on; older releases fall
/// back to the 64-bit build.
pub open spec fn driver_label(os: Seq<char>, arch: Seq<char>, minor: i32) -> Seq<char> {
    if OS::WINDOWS.matches(os) {
        if ARCH::X32.matches(arch) {
            "win32.zip"@
        } else if ARCH::ARM64.matches(arch) && minor > 31 {
            "win-aarch64.zip"@
        } else {
            "win64.zip"@
        }
    } else if OS::MACOS.matches(os) {
        if ARCH::ARM64.matches(arch) {
            "macos-aarch64.tar.gz"@
        } else {
            "macos.tar.gz"@
        }
    } else if ARCH::X32.matches(arch) {
        "linux32.tar.gz"@
    } else if ARCH::ARM64.matches(arch) && minor > 31 {
        "linux-aarch64.tar.gz"@
    } else {
        "linux64.tar.gz"@
    }
}

/// Name of the cache folder for a platform, by the same rules as the archive.
pub open spec fn arch_folder(os: Seq<char>, arch: Seq<char>, minor: i32) -> Seq<char> {
    if OS::WINDOWS.matches(os) {
        if ARCH::X32.matches(arch) {
            "win32"@
        } else if ARCH::ARM64.matches(arch) && minor > 31 {
            "win-arm64"@
        } else {
            "win64"@
        }
    } else if OS::MACOS.matches(os) {
        if ARCH::ARM64.matches(arch) {
            "mac-arm64"@
        } else {
            "mac64"@
        }
    } else if ARCH::X32.matches(arch) {
        "linux32"@
    } else if ARCH::ARM64.matches(arch) && minor > 31 {
        "linux-arm64"@
    } else {
        "linux64"@
    }
}

/// The download URL of a driver release.
pub open spec fn driver_url(driver_name: Seq<char>, version: Seq<char>, label: Seq<char>) -> Seq<
    char,
> {
    DRIVER_URL@ + "download/v"@ + version + "/"@
        + driver_name + "-v"@ + version + "-"@ + label
}

fn select_driver_label(os: &str, arch: &str, minor: i32) -> (r: &'static str)
    ensures
        r@ == driver_label(os@, arch@, minor),
{
    if OS::WINDOWS.is(os) {
        if ARCH::X32.is(arch) {
            "win32.zip"
        } else if ARCH::ARM64.is(arch) && minor > 31 {
            "win-aarch64.zip"
        } else {
            "win64.zip"
        }
    } else if OS::MACOS.is(os) {
        if ARCH::ARM64.is(arch) {
            "macos-aarch64.tar.gz"
        } else {
            "macos.tar.gz"
        }
    } else if ARCH::X32.is(arch) {
        "linux32.tar.gz"
    } else if ARCH::ARM64.is(arch) && minor > 31 {
        "linux-aarch64.tar.gz"
    } else {
        "linux64.tar.gz"
    }
}

fn select_arch_folder(os: &str, arch: &str, minor: i32) -> (r: &'static str)
    ensures
        r@ == arch_folder(os@, arch@, minor),
{
    if OS::WINDOWS.is(os) {
        if ARCH::X32.is(arch) {
            "win32"
        } else if ARCH::ARM64.is(arch) && minor > 31 {
            "win-arm64"
        } else {
            "win64"
        }
    } else if OS::MACOS.is(os) {
        if ARCH::ARM64.is(arch) {
            "mac-arm64"
        } else {
            "mac64"
        }
    } else if ARCH::X32.is(arch) {
        "linux32"
    } else if ARCH::ARM64.is(arch) && minor > 31 {
        "linux-arm64"
    } else {
        "linux64"
    }
}

/// File name of the driver binary on an OS.
pub open spec fn driver_filename(driver_name: Seq<char>, os: Seq<char>) -> Seq<char> {
    if OS::WINDOWS.matches(os) {
        driver_name + ".exe"@
    } else {
        driver_name
    }
}

pub open spec fn wmic_command(path: Seq<char>) -> Seq<char> {
    "wmic datafile where name='"@ + path + "' get Version /value"@
}

pub open spec fn wmic_env_command(env: Seq<char>, path: Seq<char>) -> Seq<char> {
    "set PFILES=%"@ + env + "%&& wmic datafile where name='!PFILES:\\=\\\\!"@ + path
        + "' get Version /value"@
}

/// The shell commands that print the browser's version: with an explicit
/// browser path, that path; else the default install location (on Windows
/// tried under both program-files folders).
pub open spec fn version_commands(os: Seq<char>, browser_path: Seq<char>, detected: Seq<char>) -> Seq<
    Seq<char>,
> {
    let path = if browser_path.len() > 0 {
        browser_path
    } else {
        detected
    };
    if !OS::WINDOWS.matches(os) {
        seq![path + " -v"@]
    } else if browser_path.len() > 0 {
        seq![wmic_command(path)]
    } else {
        seq![
            wmic_env_command("PROGRAMFILES"@, path),
            wmic_env_command("PROGRAMFILES(X86)"@, path),
        ]
    }
}

/// The version found in the first command output that holds one.
pub open spec fn first_version(outputs: Seq<Seq<char>>) -> Option<Seq<char>>
    decreases outputs.len(),
{
    if outputs.len() == 0 {
        None
    } else if version_chars(outputs[0]).len() > 0 {
        Some(version_chars(outputs[0]))
    } else {
        first_version(outputs.drop_first())
    }
}

pub open spec fn string_views(v: Seq<String>) -> Seq<Seq<char>> {
    Seq::new(v.len(), |i: int| v[i]@)
}

/// The next step of driver-version resolution: an answer from the cache, or
/// a request to the release index at the given URL.
pub enum VersionLookup {
    Cached(String),
    Fetch(String),
}

pub struct FirefoxManager {
    pub browser_name: &'static str,
    pub driver_name: &'static str,
    pub config: ManagerConfig,
}

impl FirefoxManager {
    pub fn new(config: ManagerConfig) -> (r: FirefoxManager)
        ensures
            r.browser_name@ == FIREFOX_NAME@,
            r.driver_name@ == GECKODRIVER_NAME@,
            r.config == config,
    {
        FirefoxManager { browser_name: FIREFOX_NAME, driver_name: GECKODRIVER_NAME, config }
    }

    pub fn get_browser_name(&self) -> (r: &str)
        ensures
            r@ == self.browser_name@,
    {
        self.browser_name
    }

    pub fn get_driver_name(&self) -> (r: &str)
        ensures
            r@ == self.driver_name@,
    {
        self.driver_name
    }

    pub fn get_config(&self) -> (r: &ManagerConfig)
        ensures
            *r == self.config,
    {
        &self.config
    }

    pub fn set_config(&mut self, config: ManagerConfig)
        ensures
            final(self).config == config,
            final(self).browser_name == old(self).browser_name,
            final(self).driver_name == old(self).driver_name,
    {
        self.config = config;
    }

    pub fn get_os(&self) -> (r: &str)
        ensures
            r@ == self.config.os@,
    {
        self.config.os.as_str()
    }

    pub fn get_arch(&self) -> (r: &str)
        ensures
            r@ == self.config.arch@,
    {
        self.config.arch.as_str()
    }

    pub fn get_driver_version(&self) -> (r: &str)
        ensures
            r@ == self.config.driver_version@,
    {
        self.config.driver_version.as_str()
    }

    pub fn get_browser_version(&self) -> (r: &str)
        ensures
            r@ == self.config.browser_version@,
    {
        self.config.browser_version.as_str()
    }

    pub fn get_browser_path(&self) -> (r: &str)
        ensures
            r@ == self.config.browser_path@,
    {
        self.config.browser_path.as_str()
    }

    /// Sets the OS name; an empty value leaves it as it was.
    pub fn set_os(&mut self, os: String)
        ensures
            final(self).config.os@ == if os@.len() > 0 {
                os@
            } else {
                old(self).config.os@
            },
            final(self).config.arch == old(self).config.arch,
            final(self).config.driver_version == old(self).config.driver_version,
            final(self).config.browser_version == old(self).config.browser_version,
            final(self).config.browser_path == old(self).config.browser_path,
            final(self).driver_name == old(self).driver_name,
    {
        if os.unicode_len() > 0 {
            let mut config = ManagerConfig::clone(&self.config);
            config.os = os;
            self.config = config;
        }
    }

    /// Sets the architecture; an empty value leaves it as it was.
    pub fn set_arch(&mut self, arch: String)
        ensures
            final(self).config.arch@ == if arch@.len() > 0 {
                arch@
            } else {
                old(self).config.arch@
            },
            final(self).config.os == old(self).config.os,
            final(self).config.driver_version == old(self).config.driver_version,
            final(self).config.browser_version == old(self).config.browser_version,
            final(self).config.browser_path == old(self).config.browser_path,
            final(self).driver_name == old(self).driver_name,
    {
        if arch.unicode_len() > 0 {
            let mut config = ManagerConfig::clone(&self.config);
            config.arch = arch;
            self.config = config;
        }
    }

    /// Sets the driver version; an empty value leaves it as it was.
    pub fn set_driver_version(&mut self, driver_version: String)
        ensures
            final(self).config.driver_version@ == if driver_version@.len() > 0 {
                driver_version@
            } else {
                old(self).config.driver_version@
            },
            final(self).config.os == old(self).config.os,
            final(self).config.arch == old(self).config.arch,
            final(self).config.browser_version == old(self).config.browser_version,
            final(self).config.browser_path == old(self).config.browser_path,
            final(self).driver_name == old(self).driver_name,
    {
        if driver_version.unicode_len() > 0 {
            let mut config = ManagerConfig::clone(&self.config);
            config.driver_version = driver_version;
            self.config = config;
        }
    }

    /// Sets the browser version; an empty value leaves it as it was.
    pub fn set_browser_version(&mut self, browser_version: String)
        ensures
            final(self).config.browser_version@ == if browser_version@.len() > 0 {
                browser_version@
            } else {
                old(self).config.browser_version@
            },
            final(self).config.os == old(self).config.os,
            final(self).config.arch == old(self).config.arch,
            final(self).config.driver_version == old(self).config.driver_version,
            final(self).config.browser_path == old(self).config.browser_path,
            final(self).driver_name == old(self).driver_name,
    {
        if browser_version.unicode_len() > 0 {
            let mut config = ManagerConfig::clone(&self.config);
            config.browser_version = browser_version;
            self.config = config;
        }
    }

    /// The install-location table, one entry for each OS family and channel.
    pub fn get_browser_path_map(&self) -> (r: Vec<(BrowserPath, &'static str)>)
        ensures
            r@.len() == 12,
            forall|i: int| 0 <= i < r@.len() ==> (#[trigger] r@[i]).1@ == firefox_path(r@[i].0.os, r@[i].0.channel),
            forall|key: BrowserPath| #[trigger] has_key(r@, key),
    {
        let oses = [OS::WINDOWS, OS::MACOS, OS::LINUX];
        let channels = [Channel::Stable, Channel::Beta, Channel::Dev, Channel::Nightly];
        let mut r: Vec<(BrowserPath, &'static str)> = Vec::new();
        let mut a: usize = 0;
        while a < 3
            invariant
                a <= 3,
                oses@ == seq![OS::WINDOWS, OS::MACOS, OS::LINUX],
                channels@ == seq![Channel::Stable, Channel::Beta, Channel::Dev, Channel::Nightly],
                r@.len() == 4 * a,
                forall|i: int| 0 <= i < r@.len() ==> (#[trigger] r@[i]).1@ == firefox_path(r@[i].0.os, r@[i].0.channel),
                forall|x: int, y: int| 0 <= x < a && 0 <= y < 4 ==> (#[trigger] r@[4 * x + y]).0 == path_key(oses@[x], channels@[y]),
            decreases 3 - a,
        {
            let mut b: usize = 0;
            while b < 4
                invariant
                    a < 3,
                    b <= 4,
                    oses@ == seq![OS::WINDOWS, OS::MACOS, OS::LINUX],
                    channels@ == seq![Channel::Stable, Channel::Beta, Channel::Dev, Channel::Nightly],
                    r@.len() == 4 * a + b,
                    forall|i: int| 0 <= i < r@.len() ==> (#[trigger] r@[i]).1@ == firefox_path(r@[i].0.os, r@[i].0.channel),
                    forall|x: int, y: int| 0 <= x < a && 0 <= y < 4 ==> (#[trigger] r@[4 * x + y]).0 == path_key(oses@[x], channels@[y]),
                    forall|y: int| 0 <= y < b ==> (#[trigger] r@[4 * a + y]).0 == path_key(oses@[a as int], channels@[y]),
                decreases 4 - b,
            {
                let key = BrowserPath::new(oses[a], channels[b]);
                r.push((key, browser_path_for(oses[a], channels[b])));
                b = b + 1;
            }
            a = a + 1;
        }
        proof {
            assert forall|key: BrowserPath| #[trigger] has_key(r@, key) by {
                let x: int = match key.os {
                    OS::WINDOWS => 0,
                    OS::MACOS => 1,
                    OS::LINUX => 2,
                };
                let y: int = match key.channel {
                    Channel::Stable => 0,
                    Channel::Beta => 1,
                    Channel::Dev => 2,
                    Channel::Nightly => 3,
                };
                assert(r@[4 * x + y].0 == key);
            }
        }
        r
    }

    /// The default install location for the configured OS and the channel
    /// that the browser-version setting asks for.
    pub fn detect_browser_path(&self) -> (r: &'static str)
        ensures
            r@ == firefox_path(
                crate::config::spec_str_to_os(self.config.os@),
                channel_of(self.config.browser_version@),
            ),
    {
        let os = crate::config::str_to_os(self.get_os());
        let channel = channel_from_version(self.get_browser_version());
        browser_path_for(os, channel)
    }
}


impl FirefoxManager {
    /// The download URL of the configured driver version for the configured
    /// OS and architecture; an error where the version has no minor part.
    pub fn get_driver_url(&self) -> (r: Result<String, String>)
        ensures
            ({
                let v = self.config.driver_version@;
                match minor_field(v) {
                    Some(m) => r is Ok && r->Ok_0@ == driver_url(
                        self.driver_name@,
                        v,
                        driver_label(self.config.os@, self.config.arch@, spec_i32_or_zero(m)),
                    ),
                    None => r is Err && r->Err_0@ == "Wrong version: "@ + v,
                }
            }),
    {
        let driver_version = self.get_driver_version();
        let os = self.get_os();
        let arch = self.get_arch();
        let minor = match get_minor_version(driver_version) {
            Ok(m) => m,
            Err(e) => {
                return Err(e);
            },
        };
        let minor_driver_version = parse_i32_or_zero(minor.as_str());
        let driver_label = select_driver_label(os, arch, minor_driver_version);
        let mut url = DRIVER_URL.to_owned();
        url.append("download/v");
        url.append(driver_version);
        url.append("/");
        url.append(self.driver_name);
        url.append("-v");
        url.append(driver_version);
        url.append("-");
        url.append(driver_label);
        Ok(url)
    }

    /// Where the configured driver lives in the cache, relative to the cache
    /// folder: driver name, platform folder, version, binary name.
    pub fn get_driver_path_in_cache(&self) -> (r: Vec<String>)
        ensures
            r@.len() == 4,
            r@[0]@ == self.driver_name@,
            r@[1]@ == arch_folder(
                self.config.os@,
                self.config.arch@,
                minor_number(self.config.driver_version@),
            ),
            r@[2]@ == self.config.driver_version@,
            r@[3]@ == driver_filename(self.driver_name@, self.config.os@),
    {
        let driver_version = self.get_driver_version();
        let os = self.get_os();
        let arch = self.get_arch();
        let minor_driver_version = match get_minor_version(driver_version) {
            Ok(m) => parse_i32_or_zero(m.as_str()),
            Err(_) => 0,
        };
        let folder = select_arch_folder(os, arch, minor_driver_version);
        let mut filename = self.driver_name.to_owned();
        if OS::WINDOWS.is(os) {
            filename.append(".exe");
        }
        let mut r: Vec<String> = Vec::new();
        r.push(self.driver_name.to_owned());
        r.push(folder.to_owned());
        r.push(driver_version.to_owned());
        r.push(filename);
        r
    }

    /// Whether the browser version still has to be probed: it is unset or
    /// names a channel rather than a version.
    pub fn needs_browser_discovery(&self) -> (r: bool)
        ensures
            r == (self.config.browser_version@.len() == 0 || lower_seq(self.config.browser_version@)
                == lower_seq("stable"@) || channel_of(self.config.browser_version@) != Channel::Stable),
    {
        let v = self.get_browser_version();
        v.unicode_len() == 0 || eq_ignore_ascii_case(v, "stable") || channel_from_version(v)
            != Channel::Stable
    }

    /// The commands whose output gives the browser version.
    pub fn browser_version_commands(&self) -> (r: Vec<String>)
        ensures
            string_views(r@) == version_commands(
                self.config.os@,
                self.config.browser_path@,
                firefox_path(
                    crate::config::spec_str_to_os(self.config.os@),
                    channel_of(self.config.browser_version@),
                ),
            ),
    {
        let given = self.get_browser_path();
        let detected = self.detect_browser_path();
        let path = if given.unicode_len() > 0 {
            given
        } else {
            detected
        };
        let mut r: Vec<String> = Vec::new();
        if !OS::WINDOWS.is(self.get_os()) {
            let mut c = path.to_owned();
            c.append(" -v");
            r.push(c);
        } else if given.unicode_len() > 0 {
            let mut c = "wmic datafile where name='".to_owned();
            c.append(path);
            c.append("' get Version /value");
            r.push(c);
        } else {
            let mut c = "set PFILES=%".to_owned();
            c.append(ENV_PROGRAM_FILES);
            c.append("%&& wmic datafile where name='!PFILES:\\=\\\\!");
            c.append(path);
            c.append("' get Version /value");
            r.push(c);
            let mut d = "set PFILES=%".to_owned();
            d.append(ENV_PROGRAM_FILES_X86);
            d.append("%&& wmic datafile where name='!PFILES:\\=\\\\!");
            d.append(path);
            d.append("' get Version /value");
            r.push(d);
        }
        proof {
            assert(string_views(r@) =~= version_commands(
                self.config.os@,
                self.config.browser_path@,
                firefox_path(
                    crate::config::spec_str_to_os(self.config.os@),
                    channel_of(self.config.browser_version@),
                ),
            ));
        }
        r
    }

    /// The browser version out of the outputs of the version commands: the
    /// first output that holds one; a failed command is an empty output.
    pub fn discover_browser_version(&self, outputs: &Vec<String>) -> (r: Option<String>)
        ensures
            r is Some == first_version(string_views(outputs@)) is Some,
            r is Some ==> r->0@ == first_version(string_views(outputs@))->0,
    {
        let ghost outs = string_views(outputs@);
        let n = outputs.len();
        let mut i: usize = 0;
        proof {
            assert(outs.subrange(0, n as int) =~= outs);
        }
        while i < n
            invariant
                n == outputs@.len(),
                outs == string_views(outputs@),
                i <= n,
                first_version(outs) == first_version(outs.subrange(i as int, n as int)),
            decreases n - i,
        {
            proof {
                assert(outs.subrange(i as int, n as int).drop_first() =~= outs.subrange(
                    i + 1,
                    n as int,
                ));
                assert(outs.subrange(i as int, n as int)[0] == outputs@[i as int]@);
            }
            let v = parse_version(outputs[i].as_str());
            if v.unicode_len() > 0 {
                return Some(v);
            }
            i = i + 1;
        }
        None
    }

    /// First step of driver-version resolution: the cached answer for the
    /// configured browser version, or else the release-index URL to query.
    pub fn request_driver_version(&self, metadata: &Metadata, now: u64) -> (r: VersionLookup)
        ensures
            match cached_driver_version(
                metadata.drivers@,
                self.driver_name@,
                self.config.browser_version@,
                now,
            ) {
                Some(v) => r is Cached && r->Cached_0@ == v,
                None => r is Fetch && r->Fetch_0@ == DRIVER_URL@ + LATEST_RELEASE@,
            },
    {
        match get_driver_version_from_metadata(
            &metadata.drivers,
            self.driver_name,
            self.get_browser_version(),
            now,
        ) {
            Some(driver_version) => VersionLookup::Cached(driver_version),
            None => {
                let mut url = DRIVER_URL.to_owned();
                url.append(LATEST_RELEASE);
                VersionLookup::Fetch(url)
            },
        }
    }

    /// Second step, after the release index answered with the URL it redirects
    /// to: the driver version is the digits and dots of that URL's last
    /// segment. It is recorded in the cache for a non-empty browser version;
    /// an answer without a version is an error and changes nothing.
    pub fn accept_driver_version(&self, metadata: &mut Metadata, release_url: &str, now: u64) -> (r:
        Result<String, String>)
        ensures
            ({
                let v = version_chars(after_last_slash(release_url@));
                let bv = self.config.browser_version@;
                if v.len() == 0 {
                    r is Err && r->Err_0@ == "No driver version in "@ + release_url@
                        && final(metadata).drivers@ == old(metadata).drivers@
                } else {
                    r is Ok && r->Ok_0@ == v && (bv.len() == 0 ==> final(metadata).drivers@
                        == old(metadata).drivers@) && (bv.len() > 0 ==> final(metadata).drivers@.drop_last()
                        == old(metadata).drivers@ && ({
                        let e = final(metadata).drivers@.last();
                        e.browser_version@ == bv && e.driver_name@ == self.driver_name@
                            && e.driver_version@ == v && e.created == now && e.ttl
                            == self.config.driver_ttl
                    }))
                }
            }),
    {
        let driver_version = parse_version(last_segment(release_url));
        if driver_version.unicode_len() == 0 {
            let mut message = "No driver version in ".to_owned();
            message.append(release_url);
            return Err(message);
        }
        metadata.record_driver_version(
            self.get_browser_version(),
            self.driver_name,
            driver_version.as_str(),
            self.config.driver_ttl,
            now,
        );
        Ok(driver_version)
    }
}

} // verus!
