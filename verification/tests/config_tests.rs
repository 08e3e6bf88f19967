use tspring::config::TsbConfig;
use tspring::paths::ConfigRoot;

#[test]
fn default_config_is_empty() {
    let cfg = TsbConfig::default();
    assert!(cfg.apps.is_empty());
    assert_eq!(cfg.active_app_url, None);
}

#[test]
fn add_app_to_empty_config() {
    let mut cfg = TsbConfig::default();
    cfg.add_app("my-app".into(), "http://localhost:8080".into());
    assert_eq!(cfg.apps.len(), 1);
    assert_eq!(cfg.apps[0].name, "my-app");
    assert_eq!(cfg.apps[0].url, "http://localhost:8080");
}

#[test]
fn add_two_distinct_apps() {
    let mut cfg = TsbConfig::default();
    cfg.add_app("app1".into(), "http://localhost:8080".into());
    cfg.add_app("app2".into(), "http://localhost:9090".into());
    assert_eq!(cfg.apps.len(), 2);
}

#[test]
fn add_app_same_url_updates_name() {
    let mut cfg = TsbConfig::default();
    cfg.add_app("old-name".into(), "http://localhost:8080".into());
    cfg.add_app("new-name".into(), "http://localhost:8080".into());
    assert_eq!(cfg.apps.len(), 1);
    assert_eq!(cfg.apps[0].name, "new-name");
}

#[test]
fn remove_existing_app() {
    let mut cfg = TsbConfig::default();
    cfg.add_app("app1".into(), "http://localhost:8080".into());
    cfg.add_app("app2".into(), "http://localhost:9090".into());
    cfg.remove_app("http://localhost:8080");
    assert_eq!(cfg.apps.len(), 1);
    assert_eq!(cfg.apps[0].url, "http://localhost:9090");
}

#[test]
fn remove_nonexistent_url_is_noop() {
    let mut cfg = TsbConfig::default();
    cfg.add_app("app1".into(), "http://localhost:8080".into());
    cfg.remove_app("http://localhost:9999");
    assert_eq!(cfg.apps.len(), 1);
}

#[test]
fn remove_active_app_clears_active_url() {
    let mut cfg = TsbConfig::default();
    cfg.add_app("app1".into(), "http://localhost:8080".into());
    cfg.active_app_url = Some("http://localhost:8080".into());
    cfg.remove_app("http://localhost:8080");
    assert_eq!(cfg.active_app_url, None);
}

#[test]
fn remove_non_active_app_preserves_active_url() {
    let mut cfg = TsbConfig::default();
    cfg.add_app("app1".into(), "http://localhost:8080".into());
    cfg.add_app("app2".into(), "http://localhost:9090".into());
    cfg.active_app_url = Some("http://localhost:8080".into());
    cfg.remove_app("http://localhost:9090");
    assert_eq!(cfg.active_app_url, Some("http://localhost:8080".into()));
}

#[test]
fn config_dir_exists() {
    let dir = TsbConfig::config_dir(&Some(ConfigRoot::Home("/home/user".to_string())));
    assert!(dir.is_some());
    let path = dir.unwrap();
    assert!(path.contains("tsb"));
}

#[test]
fn add_app_then_remove_all() {
    let mut cfg = TsbConfig::default();
    cfg.add_app("a".into(), "http://a".into());
    cfg.add_app("b".into(), "http://b".into());
    cfg.remove_app("http://a");
    cfg.remove_app("http://b");
    assert!(cfg.apps.is_empty());
}

// Laws of the configuration, on concrete values.

#[test]
fn adding_an_app_twice_keeps_one_entry() {
    let mut cfg = TsbConfig::default();
    cfg.add_app("x".into(), "http://x".into());
    cfg.add_app("x".into(), "http://x".into());
    assert_eq!(cfg.apps.len(), 1);
}

#[test]
fn remove_is_idempotent() {
    let mut cfg = TsbConfig::default();
    cfg.add_app("a".into(), "http://a".into());
    cfg.add_app("b".into(), "http://b".into());
    cfg.remove_app("http://a");
    let after_once: Vec<String> = cfg.apps.iter().map(|a| a.url.clone()).collect();
    cfg.remove_app("http://a");
    let after_twice: Vec<String> = cfg.apps.iter().map(|a| a.url.clone()).collect();
    assert_eq!(after_once, after_twice);
    assert_eq!(after_twice, vec!["http://b".to_string()]);
}

#[test]
fn add_then_remove_leaves_other_apps() {
    let mut cfg = TsbConfig::default();
    cfg.add_app("a".into(), "http://a".into());
    cfg.add_app("b".into(), "http://b".into());
    cfg.remove_app("http://b");
    assert_eq!(cfg.apps.len(), 1);
    assert_eq!(cfg.apps[0].name, "a");
}

#[test]
fn config_path_is_yaml_file_in_config_dir() {
    let p = TsbConfig::config_path(&Some(ConfigRoot::Home("/home/user".to_string()))).unwrap();
    assert_eq!(p, "/home/user/.config/tsb/config.yaml");
    let p2 = TsbConfig::config_path(&Some(ConfigRoot::Home("/root/".to_string()))).unwrap();
    assert_eq!(p2, "/root/.config/tsb/config.yaml");
    assert!(TsbConfig::config_path(&None).is_none());
}

#[test]
fn config_lives_under_appdata_on_windows() {
    let root = Some(ConfigRoot::AppData("C:\\Users\\u\\AppData\\Roaming".to_string()));
    assert_eq!(
        TsbConfig::config_dir(&root),
        Some("C:\\Users\\u\\AppData\\Roaming/tsb".to_string())
    );
    assert_eq!(
        TsbConfig::config_path(&root),
        Some("C:\\Users\\u\\AppData\\Roaming/tsb/config.yaml".to_string())
    );
    assert_eq!(TsbConfig::config_dir(&None), None);
}
