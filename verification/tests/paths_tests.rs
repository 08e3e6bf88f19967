use tspring::paths::{
    app_dumps_dir, dump_dir_name, dumps_dir, initializr_dependencies_path,
    initializr_metadata_path, path_join, ConfigRoot,
};

#[test]
fn join_adds_one_separator() {
    assert_eq!(path_join("/a", "b"), "/a/b");
    assert_eq!(path_join("/a/", "b"), "/a/b");
    assert_eq!(path_join("", "b"), "b");
}

#[test]
fn catalog_paths() {
    let home = Some(ConfigRoot::Home("/home/u".to_string()));
    assert_eq!(initializr_metadata_path(&home), "/home/u/.config/tsb/initializr-metadata.json");
    assert_eq!(initializr_dependencies_path(&home), "/home/u/.config/tsb/dependencies.json");
    assert_eq!(initializr_metadata_path(&None), "./initializr-metadata.json");
    let appdata = Some(ConfigRoot::AppData("C:/Users/u/AppData/Roaming".to_string()));
    assert_eq!(initializr_dependencies_path(&appdata), "C:/Users/u/AppData/Roaming/tsb/dependencies.json");
}

#[test]
fn dump_directories() {
    let home = Some("/home/u".to_string());
    assert_eq!(dumps_dir(&home), Some("/home/u/.config/tsb/dumps".to_string()));
    assert_eq!(dumps_dir(&None), None);
    assert_eq!(
        app_dumps_dir(&home, "my app/v1"),
        Some("/home/u/.config/tsb/dumps/my_app_v1".to_string())
    );
}

#[test]
fn dump_dir_names() {
    assert_eq!(dump_dir_name(""), "unknown");
    assert_eq!(dump_dir_name("orders-service_2"), "orders-service_2");
    assert_eq!(dump_dir_name("a.b:c"), "a_b_c");
    assert_eq!(dump_dir_name("café"), "café");
}
