use website::assets::AssetManager;
use website::config::{
    child_path, config_file_path, Config, ConfigLogLevel, ConfigParsed, DEFAULT_PORT,
    DEFAULT_REINDEX_INTERVAL_MS,
};

#[test]
fn a_missing_file_gives_the_defaults() {
    let config = Config::fallback(Some("/home/u/.local/share".to_string()));
    assert_eq!(config.title(), "Welcome");
    assert_eq!(*config.port(), 4000);
    assert_eq!(config.data_path(), "/home/u/.local/share/website/");
    assert_eq!(*config.log_level(), ConfigLogLevel::Info);
    assert_eq!(*config.search_reindex_interval(), 30 * 60 * 1000);
    assert_eq!(DEFAULT_REINDEX_INTERVAL_MS, 1_800_000);
    assert_eq!(DEFAULT_PORT, 4000);
    assert_eq!(config, Config::from_parsed(ConfigParsed::default(), Some("/home/u/.local/share".to_string())));
}

#[test]
fn without_a_local_data_directory_the_data_is_below_the_working_directory() {
    let config = Config::fallback(None);
    assert_eq!(config.data_path(), "./data/website/");
    assert_eq!(config.search_path(), "./data/website/search");
}

#[test]
fn what_the_file_names_is_taken_but_for_the_port() {
    let parsed = ConfigParsed {
        title: Some("Notes".to_string()),
        port: Some(8080),
        data_path: Some("/srv/site".to_string()),
        log_level: Some(ConfigLogLevel::Trace),
        search_reindex_interval: Some(90_000),
    };
    let config = Config::from_parsed(parsed, Some("/ignored".to_string()));
    assert_eq!(config.title(), "Notes");
    assert_eq!(*config.port(), 4000);
    assert_eq!(config.data_path(), "/srv/site");
    assert_eq!(*config.log_level(), ConfigLogLevel::Trace);
    assert_eq!(*config.search_reindex_interval(), 90_000);
}

#[test]
fn directories_below_the_data_directory() {
    let parsed = ConfigParsed { data_path: Some("/srv/site".to_string()), ..ConfigParsed::default() };
    let config = Config::from_parsed(parsed, None);
    assert_eq!(config.log_path(), "/srv/site/logs");
    assert_eq!(config.pages_path(), "/srv/site/pages");
    assert_eq!(config.search_path(), "/srv/site/search");
    let parsed = ConfigParsed { data_path: Some("/srv/site/".to_string()), ..ConfigParsed::default() };
    let config = Config::from_parsed(parsed, None);
    assert_eq!(config.log_path(), "/srv/site/logs");
    assert_eq!(config.pages_path(), "/srv/site/pages");
    assert_eq!(config.search_path(), "/srv/site/search");
}

#[test]
fn joined_paths_agree_with_the_platform() {
    for base in ["", "/", "/srv/site", "/srv/site/", "rel", "./data", "a b/ü"] {
        for name in ["logs", "website/", "website/config.toml"] {
            let expected = std::path::Path::new(base).join(name);
            assert_eq!(std::path::PathBuf::from(child_path(base, name)), expected);
        }
    }
    assert_eq!(child_path("", "logs"), "logs");
    assert_eq!(child_path("/", "logs"), "/logs");
    assert_eq!(child_path("a", "logs"), "a/logs");
    assert_eq!(child_path("a/", "logs"), "a/logs");
}

#[test]
fn the_configuration_file() {
    assert_eq!(
        config_file_path(Some("/home/u/.config".to_string())),
        "/home/u/.config/website/config.toml"
    );
    assert_eq!(config_file_path(None), "./config/website/config.toml");
}

#[test]
fn the_default_log_level_is_error() {
    assert_eq!(ConfigLogLevel::default(), ConfigLogLevel::Error);
    let parsed = ConfigParsed::default();
    assert_eq!(parsed.title, None);
    assert_eq!(parsed.port, None);
    assert_eq!(parsed.data_path, None);
    assert_eq!(parsed.log_level, None);
    assert_eq!(parsed.search_reindex_interval, None);
}

#[test]
fn an_asset_is_served_under_its_hashed_name() {
    let manager = AssetManager::new(vec![
        ("styles.css".to_string(), "styles.1a2b.css".to_string()),
        ("script.js".to_string(), "script.ff00.js".to_string()),
    ]);
    assert_eq!(manager.hashed_route("styles.css"), Some("/assets/styles.1a2b.css".to_string()));
    assert_eq!(manager.hashed_route("script.js"), Some("/assets/script.ff00.js".to_string()));
    assert_eq!(manager.hashed_route("missing.png"), None);
    assert_eq!(manager.hashed_route(""), None);
}

#[test]
fn a_later_manifest_entry_replaces_an_earlier_one() {
    let manager = AssetManager::new(vec![
        ("a.css".to_string(), "a.1.css".to_string()),
        ("a.css".to_string(), "a.2.css".to_string()),
    ]);
    assert_eq!(manager.hashed_route("a.css"), Some("/assets/a.2.css".to_string()));
    assert_eq!(AssetManager::new(Vec::new()).hashed_route("a.css"), None);
}

#[test]
fn numbers_in_base_sixteen() {
    for value in [0u64, 1, 9, 10, 15, 16, 17, 255, 256, 4095, 0xdead_beef, u64::MAX - 1, u64::MAX] {
        assert_eq!(website::assets::hex(value), format!("{value:x}"));
    }
    assert_eq!(website::assets::hex(0), "0");
    assert_eq!(website::assets::hex(0xabc), "abc");
    assert_eq!(website::assets::hex(u64::MAX), "ffffffffffffffff");
}

#[test]
fn an_asset_is_named_by_stem_hash_and_extension() {
    assert_eq!(website::assets::hashed_name("styles", 0x1a2b, "css"), "styles.1a2b.css");
    assert_eq!(website::assets::hashed_name("", 0, ""), ".0.");
    assert_eq!(
        website::assets::hashed_name("script", u64::MAX, "js"),
        "script.ffffffffffffffff.js"
    );
}
