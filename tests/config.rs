use selenium_resolver::config::{
    detect_arch, get_env_name, str_to_os, ConfigFile, EnvVars, IntegerKey, ManagerConfig,
    Overrides, StringKey, ARCH, OS, REQUEST_TIMEOUT_SEC, TTL_DRIVERS_SEC,
};

fn env(pairs: &[(&str, &str)]) -> EnvVars {
    EnvVars::new(pairs.iter().map(|(k, v)| (k.to_string(), v.to_string())).collect())
}

fn resolve(explicit: &Overrides, file: &ConfigFile, vars: &EnvVars) -> ManagerConfig {
    ManagerConfig::default("firefox", "geckodriver", explicit, file, vars, "linux", "x86_64")
}

#[test]
fn arch_matching_accepts_every_alias_in_any_case() {
    for a in ["AARCH64", "arm64", "ARM", "Arm64", "aarch64"] {
        assert!(ARCH::ARM64.is(a), "{}", a);
    }
    for a in ["x86", "I386"] {
        assert!(ARCH::X32.is(a));
    }
    for a in ["X86_64", "x64", "i686", "AMD64", "ia64"] {
        assert!(ARCH::X64.is(a));
    }
    assert!(!ARCH::ARM64.is("x86_64"));
    assert!(!ARCH::X32.is("x86_64"));
    assert!(!ARCH::ARM64.is("armv7"));
    assert!(!ARCH::X64.is(""));
    assert_eq!(ARCH::ARM64.to_str_vector(), vec!["arm64", "aarch64", "arm"]);
}

#[test]
fn os_matching_is_case_insensitive_and_exact() {
    assert!(OS::WINDOWS.is("WINDOWS"));
    assert!(OS::MACOS.is("MacOS"));
    assert!(OS::LINUX.is("linux"));
    assert!(!OS::LINUX.is("linux64"));
    assert!(!OS::WINDOWS.is("win"));
    assert_eq!(OS::MACOS.to_str(), "macos");
    assert_eq!(str_to_os("Windows"), OS::WINDOWS);
    assert_eq!(str_to_os("MACOS"), OS::MACOS);
    assert_eq!(str_to_os("freebsd"), OS::LINUX);
}

#[test]
fn env_names_are_prefixed_and_upper_cased() {
    assert_eq!(get_env_name("browser-version"), "SE_BROWSER_VERSION");
    assert_eq!(get_env_name("timeout"), "SE_TIMEOUT");
    assert_eq!(get_env_name("driver-ttl"), "SE_DRIVER_TTL");
    assert_eq!(selenium_resolver::config::concat("firefox", "-version"), "firefox-version");
}

#[test]
fn arch_probe_results() {
    assert_eq!(detect_arch("windows", "AMD64", "", ""), "AMD64");
    assert_eq!(detect_arch("linux", "", "Linux host 5.15 ARM64 GNU/Linux", "aarch64"), "arm64");
    assert_eq!(detect_arch("linux", "", "Linux host 5.15 x86_64 GNU/Linux", "x86_64"), "x86_64");
    assert_eq!(detect_arch("macos", "", "", ""), "");
}

#[test]
fn explicit_beats_file_beats_env_beats_default() {
    let file = ConfigFile::parse("proxy = \"http://file:1\"\ntimeout = 30\n");
    let vars = env(&[("SE_PROXY", "http://env:2"), ("SE_TIMEOUT", "40"), ("SE_DRIVER_TTL", "50")]);
    let mut explicit = Overrides::none();

    let c = resolve(&explicit, &file, &vars);
    assert_eq!(c.proxy, "http://file:1");
    assert_eq!(c.timeout, 30);
    assert_eq!(c.driver_ttl, 50);

    let c = resolve(&explicit, &ConfigFile::empty(), &vars);
    assert_eq!(c.proxy, "http://env:2");
    assert_eq!(c.timeout, 40);

    let c = resolve(&explicit, &ConfigFile::empty(), &env(&[]));
    assert_eq!(c.proxy, "");
    assert_eq!(c.timeout, REQUEST_TIMEOUT_SEC);
    assert_eq!(c.driver_ttl, TTL_DRIVERS_SEC);
    assert_eq!(c.os, "linux");
    assert_eq!(c.arch, "x86_64");

    explicit.proxy = "http://cli:3".to_string();
    explicit.timeout = Some(5);
    let c = resolve(&explicit, &file, &vars);
    assert_eq!(c.proxy, "http://cli:3");
    assert_eq!(c.timeout, 5);
}

#[test]
fn specific_file_key_beats_generic_one() {
    let file = ConfigFile::parse("browser-version = \"100\"\nfirefox-version = \"108\"\n");
    let c = resolve(&Overrides::none(), &file, &env(&[]));
    assert_eq!(c.browser_version, "108");
    let file = ConfigFile::parse("browser-version = \"100\"\nfirefox-version = \"\"\n");
    let c = resolve(&Overrides::none(), &file, &env(&[("SE_FIREFOX_VERSION", "99")]));
    assert_eq!(c.browser_version, "100");
    let c = resolve(&Overrides::none(), &ConfigFile::empty(), &env(&[("SE_BROWSER_VERSION", "97")]));
    assert_eq!(c.browser_version, "97");
    let c = resolve(&Overrides::none(), &ConfigFile::empty(), &env(&[("SE_GECKODRIVER_VERSION", "0.30.0")]));
    assert_eq!(c.driver_version, "0.30.0");
}

#[test]
fn invalid_timeout_in_file_falls_back_to_default() {
    let c = resolve(&Overrides::none(), &ConfigFile::parse("timeout = \"abc\"\n"), &env(&[]));
    assert_eq!(c.timeout, REQUEST_TIMEOUT_SEC);
    let c = resolve(&Overrides::none(), &ConfigFile::parse("timeout = -5\n"), &env(&[]));
    assert_eq!(c.timeout, REQUEST_TIMEOUT_SEC);
    let c = resolve(&Overrides::none(), &ConfigFile::parse("timeout = = =\n"), &env(&[]));
    assert_eq!(c.timeout, REQUEST_TIMEOUT_SEC);
    let c = resolve(&Overrides::none(), &ConfigFile::parse("timeout = \"abc\"\n"), &env(&[("SE_TIMEOUT", "+7")]));
    assert_eq!(c.timeout, 7);
    let c = resolve(&Overrides::none(), &ConfigFile::empty(), &env(&[("SE_TIMEOUT", "seven")]));
    assert_eq!(c.timeout, REQUEST_TIMEOUT_SEC);
}

#[test]
fn config_file_values_by_type() {
    let file = ConfigFile::parse("proxy = \"p\"\ntimeout = 3\n");
    assert_eq!(file.text("proxy"), Some("p".to_string()));
    assert_eq!(file.text("timeout"), None);
    assert_eq!(file.integer("timeout"), Some(3));
    assert_eq!(file.integer("proxy"), None);
    assert_eq!(ConfigFile::parse("not toml at all =").text("proxy"), None);
}

#[test]
fn keys_resolve_on_their_own() {
    let vars = env(&[("SE_ARCH", "arm64"), ("SE_ARCH", "x86")]);
    assert_eq!(vars.get("SE_ARCH"), Some("arm64".to_string()));
    assert_eq!(StringKey(vec!["arch"], "none").get_value("", &ConfigFile::empty(), &vars), "arm64");
    assert_eq!(StringKey(vec!["os"], "none").get_value("", &ConfigFile::empty(), &vars), "none");
    assert_eq!(IntegerKey("browser-ttl", 9).get_value(None, &ConfigFile::empty(), &vars), 9);
}

#[test]
fn clone_is_independent_of_the_original() {
    let original = resolve(&Overrides::none(), &ConfigFile::parse("proxy = \"a\"\n"), &env(&[]));
    let mut copy = ManagerConfig::clone(&original);
    copy.proxy = "b".to_string();
    assert_eq!(original.proxy, "a");
    assert_eq!(copy.proxy, "b");
    assert_eq!(copy.timeout, original.timeout);
}
