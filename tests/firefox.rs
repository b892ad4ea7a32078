use selenium_resolver::config::{ConfigFile, EnvVars, ManagerConfig, Overrides};
use selenium_resolver::firefox::{
    get_minor_version, BrowserPath, Channel, FirefoxManager, VersionLookup, FIREFOX_NAME,
    GECKODRIVER_NAME,
};
use selenium_resolver::config::OS;
use selenium_resolver::metadata::{create_driver_metadata, Metadata};

fn manager_with(os: &str, arch: &str) -> FirefoxManager {
    let config = ManagerConfig::default(
        FIREFOX_NAME,
        GECKODRIVER_NAME,
        &Overrides::none(),
        &ConfigFile::empty(),
        &EnvVars::new(vec![]),
        os,
        arch,
    );
    FirefoxManager::new(config)
}

#[test]
fn test_driver_url() {
    let mut firefox_manager = manager_with("linux", "x86_64");

    let data = vec!(
        vec!("0.32.0", "linux", "x86", "https://github.com/mozilla/geckodriver/releases/download/v0.32.0/geckodriver-v0.32.0-linux32.tar.gz"),
        vec!("0.32.0", "linux", "x86_64", "https://github.com/mozilla/geckodriver/releases/download/v0.32.0/geckodriver-v0.32.0-linux64.tar.gz"),
        vec!("0.32.0", "linux", "aarch64", "https://github.com/mozilla/geckodriver/releases/download/v0.32.0/geckodriver-v0.32.0-linux-aarch64.tar.gz"),
        vec!("0.32.0", "windows", "x86", "https://github.com/mozilla/geckodriver/releases/download/v0.32.0/geckodriver-v0.32.0-win32.zip"),
        vec!("0.32.0", "windows", "x86_64", "https://github.com/mozilla/geckodriver/releases/download/v0.32.0/geckodriver-v0.32.0-win64.zip"),
        vec!("0.32.0", "windows", "aarch64", "https://github.com/mozilla/geckodriver/releases/download/v0.32.0/geckodriver-v0.32.0-win-aarch64.zip"),
        vec!("0.32.0", "macos", "x86", "https://github.com/mozilla/geckodriver/releases/download/v0.32.0/geckodriver-v0.32.0-macos.tar.gz"),
        vec!("0.32.0", "macos", "x86_64", "https://github.com/mozilla/geckodriver/releases/download/v0.32.0/geckodriver-v0.32.0-macos.tar.gz"),
        vec!("0.32.0", "macos", "aarch64", "https://github.com/mozilla/geckodriver/releases/download/v0.32.0/geckodriver-v0.32.0-macos-aarch64.tar.gz"),
        vec!("0.31.0", "linux", "x86", "https://github.com/mozilla/geckodriver/releases/download/v0.31.0/geckodriver-v0.31.0-linux32.tar.gz"),
        vec!("0.31.0", "linux", "x86_64", "https://github.com/mozilla/geckodriver/releases/download/v0.31.0/geckodriver-v0.31.0-linux64.tar.gz"),
        vec!("0.31.0", "linux", "aarch64", "https://github.com/mozilla/geckodriver/releases/download/v0.31.0/geckodriver-v0.31.0-linux64.tar.gz"),
        vec!("0.31.0", "windows", "x86", "https://github.com/mozilla/geckodriver/releases/download/v0.31.0/geckodriver-v0.31.0-win32.zip"),
        vec!("0.31.0", "windows", "x86_64", "https://github.com/mozilla/geckodriver/releases/download/v0.31.0/geckodriver-v0.31.0-win64.zip"),
        vec!("0.31.0", "windows", "aarch64", "https://github.com/mozilla/geckodriver/releases/download/v0.31.0/geckodriver-v0.31.0-win64.zip"),
        vec!("0.31.0", "macos", "x86", "https://github.com/mozilla/geckodriver/releases/download/v0.31.0/geckodriver-v0.31.0-macos.tar.gz"),
        vec!("0.31.0", "macos", "x86_64", "https://github.com/mozilla/geckodriver/releases/download/v0.31.0/geckodriver-v0.31.0-macos.tar.gz"),
        vec!("0.31.0", "macos", "aarch64", "https://github.com/mozilla/geckodriver/releases/download/v0.31.0/geckodriver-v0.31.0-macos-aarch64.tar.gz"),
    );

    data.iter().for_each(|d| {
        firefox_manager.set_driver_version(d.first().unwrap().to_string());
        firefox_manager.set_os(d.get(1).unwrap().to_string());
        firefox_manager.set_arch(d.get(2).unwrap().to_string());
        let driver_url = firefox_manager.get_driver_url().unwrap();
        assert_eq!(d.get(3).unwrap().to_string(), driver_url);
    });
}

#[test]
fn driver_url_is_case_insensitive_on_platform_names() {
    let mut m = manager_with("LINUX", "AARCH64");
    m.set_driver_version("0.32.0".to_string());
    assert!(m.get_driver_url().unwrap().ends_with("geckodriver-v0.32.0-linux-aarch64.tar.gz"));
    m.set_os("Windows".to_string());
    m.set_arch("I386".to_string());
    assert!(m.get_driver_url().unwrap().ends_with("win32.zip"));
}

#[test]
fn driver_url_without_minor_version_is_an_error() {
    let mut m = manager_with("linux", "x86_64");
    m.set_driver_version("1".to_string());
    assert_eq!(m.get_driver_url(), Err("Wrong version: 1".to_string()));
}

#[test]
fn unknown_platform_gets_the_64_bit_linux_build() {
    let mut m = manager_with("", "");
    m.set_driver_version("0.33.0".to_string());
    assert!(m.get_driver_url().unwrap().ends_with("geckodriver-v0.33.0-linux64.tar.gz"));
}

#[test]
fn minor_version_is_the_second_component() {
    assert_eq!(get_minor_version("0.32.0"), Ok("32".to_string()));
    assert_eq!(get_minor_version("108.0"), Ok("0".to_string()));
    assert_eq!(get_minor_version("1."), Ok("".to_string()));
    assert_eq!(get_minor_version(""), Err("Wrong version: ".to_string()));
}

#[test]
fn driver_path_in_cache_per_platform() {
    let mut m = manager_with("windows", "aarch64");
    m.set_driver_version("0.32.0".to_string());
    assert_eq!(
        m.get_driver_path_in_cache(),
        vec!["geckodriver", "win-arm64", "0.32.0", "geckodriver.exe"]
    );
    m.set_driver_version("0.31.0".to_string());
    assert_eq!(m.get_driver_path_in_cache()[1], "win64");
    m.set_os("macos".to_string());
    assert_eq!(
        m.get_driver_path_in_cache(),
        vec!["geckodriver", "mac-arm64", "0.31.0", "geckodriver"]
    );
    m.set_os("linux".to_string());
    m.set_arch("x86".to_string());
    assert_eq!(m.get_driver_path_in_cache()[1], "linux32");
}

#[test]
fn browser_path_map_covers_every_os_and_channel() {
    let m = manager_with("linux", "x86_64");
    let map = m.get_browser_path_map();
    assert_eq!(map.len(), 12);
    let find = |os: OS, channel: Channel| {
        map.iter()
            .find(|(k, _)| *k == BrowserPath::new(os, channel))
            .map(|(_, v)| *v)
            .unwrap()
    };
    assert_eq!(find(OS::LINUX, Channel::Nightly), "firefox-trunk");
    assert_eq!(find(OS::LINUX, Channel::Stable), "firefox");
    assert_eq!(
        find(OS::MACOS, Channel::Dev),
        r#"/Applications/Firefox\ Developer\ Edition.app/Contents/MacOS/firefox"#
    );
    assert_eq!(find(OS::WINDOWS, Channel::Beta), r#"\\Mozilla Firefox\\firefox.exe"#);
}

#[test]
fn version_commands_follow_the_os() {
    let mut m = manager_with("linux", "x86_64");
    assert_eq!(m.browser_version_commands(), vec!["firefox -v"]);
    m.set_browser_version("Nightly".to_string());
    assert_eq!(m.browser_version_commands(), vec!["firefox-trunk -v"]);

    let mut w = manager_with("windows", "x86_64");
    let cmds = w.browser_version_commands();
    assert_eq!(cmds.len(), 2);
    assert_eq!(
        cmds[0],
        r#"set PFILES=%PROGRAMFILES%&& wmic datafile where name='!PFILES:\=\\!\\Mozilla Firefox\\firefox.exe' get Version /value"#
    );
    assert!(cmds[1].starts_with("set PFILES=%PROGRAMFILES(X86)%&&"));
    let mut config = ManagerConfig::clone(w.get_config());
    config.browser_path = r#"C:\ff\firefox.exe"#.to_string();
    w.set_config(config);
    assert_eq!(
        w.browser_version_commands(),
        vec![r#"wmic datafile where name='C:\ff\firefox.exe' get Version /value"#]
    );
}

#[test]
fn browser_version_from_command_outputs() {
    let m = manager_with("linux", "x86_64");
    let outputs = vec!["".to_string(), "Mozilla Firefox 108.0.1".to_string(), "Firefox 1".to_string()];
    assert_eq!(m.discover_browser_version(&outputs), Some("108.0.1".to_string()));
    assert_eq!(m.discover_browser_version(&vec!["no version".to_string()]), None);
}

#[test]
fn browser_discovery_needed_for_channels_only() {
    let mut m = manager_with("linux", "x86_64");
    assert!(m.needs_browser_discovery());
    m.set_browser_version("108".to_string());
    assert!(!m.needs_browser_discovery());
    m.set_browser_version("beta".to_string());
    assert!(m.needs_browser_discovery());
}

#[test]
fn driver_version_from_cache_or_network() {
    let mut m = manager_with("linux", "x86_64");
    let mut metadata = Metadata::new();
    assert!(matches!(
        m.request_driver_version(&metadata, 1000),
        VersionLookup::Fetch(url) if url == "https://github.com/mozilla/geckodriver/releases/latest"
    ));
    // "latest" answers are never cached
    let v = m
        .accept_driver_version(&mut metadata, "https://github.com/mozilla/geckodriver/releases/tag/v0.32.0", 1000)
        .unwrap();
    assert_eq!(v, "0.32.0");
    assert!(metadata.drivers.is_empty());

    m.set_browser_version("108".to_string());
    let v = m
        .accept_driver_version(&mut metadata, "https://github.com/mozilla/geckodriver/releases/tag/v0.32.1", 1000)
        .unwrap();
    assert_eq!(v, "0.32.1");
    assert_eq!(metadata.drivers.len(), 1);
    assert_eq!(metadata.drivers[0].ttl, 86400);
    assert!(matches!(
        m.request_driver_version(&metadata, 2000),
        VersionLookup::Cached(v) if v == "0.32.1"
    ));
    assert!(matches!(
        m.request_driver_version(&metadata, 1000 + 86400),
        VersionLookup::Fetch(_)
    ));
}

#[test]
fn redirect_without_version_is_an_error() {
    let m = manager_with("linux", "x86_64");
    let mut metadata = Metadata::new();
    metadata.drivers.push(create_driver_metadata("1", "geckodriver", "0.1.0", 5, 0));
    assert_eq!(
        m.accept_driver_version(&mut metadata, "https://example.org/9/latest", 1),
        Err("No driver version in https://example.org/9/latest".to_string())
    );
    assert_eq!(metadata.drivers.len(), 1);
}
