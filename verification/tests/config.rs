use waltzgps::config::{
    cache_home, config_home, default_max_age_days, default_max_size_mb, default_max_zoom,
    default_pinch_zoom_enabled, default_pinch_zoom_sensitivity, default_scroll_sensitivity,
    state_home, ApiKeySource, CachePolicy, Config, ConfigError, Provider,
};
use waltzgps::paths::{Environment, FsPath};
use waltzgps::persist::MapPersist;

fn env(home: Option<&str>) -> Environment {
    Environment {
        home: home.map(FsPath::from_text),
        xdg_config_home: None,
        xdg_cache_home: None,
        xdg_state_home: None,
    }
}

fn with_source(name: &str, source: Option<ApiKeySource>) -> Provider {
    Provider {
        name: name.into(),
        url: "https://s/{z}/{x}/{y}.png".into(),
        api_key_source: source,
        ..Provider::default()
    }
}

fn with_providers(providers: Vec<Provider>) -> Config {
    Config { providers, ..Config::default() }
}

#[test]
fn defaults_are_exact() {
    assert_eq!(default_max_zoom(), 19);
    assert_eq!(f64::from_bits(default_scroll_sensitivity().bits), 0.1);
    assert!(default_pinch_zoom_enabled());
    assert_eq!(f64::from_bits(default_pinch_zoom_sensitivity().bits), 1.0);
    assert_eq!(default_max_size_mb(), 500);
    assert_eq!(default_max_age_days(), 30);

    let p = Provider::default();
    assert_eq!((p.name.as_str(), p.url.as_str(), p.tms, p.max_zoom), ("", "", false, 19));
    assert!(p.api_key_source.is_none());
    assert!(p.headers.is_empty());

    let policy = CachePolicy::default();
    assert_eq!((policy.directory, policy.max_size_mb, policy.max_age_days), (None, 500, 30));
}

#[test]
fn default_document_is_exact() {
    let c = Config::default();
    assert_eq!(f64::from_bits(c.general.scroll_sensitivity.bits), 1.0);
    assert!(c.general.pinch_zoom_enabled);
    assert_eq!(f64::from_bits(c.general.pinch_zoom_sensitivity.bits), 1.0);
    let shown: Vec<_> = c
        .providers
        .iter()
        .map(|p| (p.name.as_str(), p.url.as_str(), p.tms, p.max_zoom))
        .collect();
    assert_eq!(
        shown,
        vec![
            ("OpenStreetMap", "https://tile.openstreetmap.org/{z}/{x}/{y}.png", false, 19),
            ("OpenTopoMap", "https://a.tile.opentopomap.org/{z}/{x}/{y}.png", false, 17),
        ]
    );
}

#[test]
fn missing_document_gives_the_default_one() {
    let c = Config::load(None).unwrap();
    assert_eq!(c.providers.len(), 2);
    // What the first run writes is what the second run loads.
    let again = Config::load(Some(c)).unwrap();
    assert_eq!(again.providers[1].name, "OpenTopoMap");
}

#[test]
fn document_without_providers_is_refused() {
    let e = Config::load(Some(with_providers(vec![]))).unwrap_err();
    assert!(matches!(e, ConfigError::NoProviders));
    assert_eq!(e.message(), "config has no providers");
}

#[test]
fn first_blank_key_source_is_named() {
    for source in [
        ApiKeySource::Literal(" \t".into()),
        ApiKeySource::Literal("".into()),
        ApiKeySource::File("".into()),
        ApiKeySource::Command("\n".into()),
    ] {
        let c = with_providers(vec![
            with_source("a", None),
            with_source("b", Some(source)),
            with_source("c", Some(ApiKeySource::File("".into()))),
        ]);
        let e = Config::load(Some(c)).unwrap_err();
        assert!(matches!(&e, ConfigError::EmptyKeySource(name) if name == "b"));
        assert_eq!(e.message(), "provider 'b' has an empty api_key_source value");
    }
}

#[test]
fn key_sources_with_a_value_are_accepted() {
    let c = with_providers(vec![
        with_source("a", Some(ApiKeySource::Literal(" k ".into()))),
        // A file name of blanks is a file name.
        with_source("b", Some(ApiKeySource::File(" ".into()))),
        with_source("c", Some(ApiKeySource::Command("echo k".into()))),
    ]);
    assert_eq!(Config::load(Some(c)).unwrap().providers.len(), 3);
}

#[test]
fn providers_are_found_by_name() {
    let c = with_providers(vec![
        with_source("a", None),
        with_source("b", None),
        with_source("b", None),
    ]);
    assert_eq!(c.provider_index("b".to_string()), 1);
    assert_eq!(c.provider_index("a".to_string()), 0);
    assert_eq!(c.provider_index("z".to_string()), 0);
    assert_eq!(with_providers(vec![]).provider_index("a".to_string()), 0);
}

#[test]
fn clones_keep_everything() {
    let p = with_source("a", Some(ApiKeySource::Command("echo k".into())));
    let q = p.clone();
    assert_eq!((q.name.as_str(), q.url.as_str()), ("a", "https://s/{z}/{x}/{y}.png"));
    assert!(matches!(q.api_key_source, Some(ApiKeySource::Command(c)) if c == "echo k"));
}

#[test]
fn directories_follow_the_environment() {
    let e = env(Some("/home/w"));
    assert_eq!(config_home(&e), FsPath::from_text("/home/w/.config"));
    assert_eq!(cache_home(&e), FsPath::from_text("/home/w/.cache"));
    assert_eq!(state_home(&e), FsPath::from_text("/home/w/.local/state"));
    assert_eq!(
        Config::default_path(&e),
        FsPath::from_text("/home/w/.config/waltzgps/config.toml")
    );
    assert_eq!(
        MapPersist::path(&e),
        FsPath::from_text("/home/w/.local/state/waltzgps/state.toml")
    );
    assert_eq!(config_home(&env(None)), FsPath::from_text("./.config"));

    let x = Environment {
        home: None,
        xdg_config_home: Some(FsPath::from_text("/c")),
        xdg_cache_home: Some(FsPath::from_text("/d/")),
        xdg_state_home: Some(FsPath::from_text("/s")),
    };
    assert_eq!(Config::default_path(&x), FsPath::from_text("/c/waltzgps/config.toml"));
    assert_eq!(cache_home(&x), FsPath::from_text("/d/"));
    assert_eq!(MapPersist::path(&x), FsPath::from_text("/s/waltzgps/state.toml"));
}
