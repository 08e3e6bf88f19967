use tspring::initializr::{
    flat_dep_count, flat_dep_id_at, flat_dep_is_selectable, flatten_all_deps_for_render,
    metadata_from_text, parse_initializr_metadata, position_of_option, FlatDepEntry,
};
use tspring::json::JsonValue;
use tspring::model::{InitializrDependency, InitializrDependencyGroup, InitializrMetadata, InitializrOption};

fn s(x: &str) -> JsonValue {
    JsonValue::Str(x.to_string())
}

fn obj(members: Vec<(&str, JsonValue)>) -> JsonValue {
    JsonValue::Object(
        members.into_iter().map(|(k, v)| (k.to_string(), v)).collect(),
        "{...}".to_string(),
    )
}

fn arr(items: Vec<JsonValue>) -> JsonValue {
    JsonValue::Array(items, "[...]".to_string())
}

fn opt(id: &str, name: &str) -> InitializrOption {
    InitializrOption { id: id.into(), name: name.into() }
}

fn dep(id: &str, name: &str, description: &str) -> InitializrDependency {
    InitializrDependency { id: id.into(), name: name.into(), description: description.into() }
}

pub fn sample_meta() -> InitializrMetadata {
    InitializrMetadata {
        boot_versions: vec![opt("3.3.0", "3.3.0"), opt("3.4.5", "3.4.5")],
        boot_version_default: "3.4.5".into(),
        languages: vec![opt("java", "Java"), opt("kotlin", "Kotlin")],
        language_default: "java".into(),
        packagings: vec![opt("jar", "Jar")],
        packaging_default: "war".into(),
        java_versions: vec![opt("17", "17"), opt("21", "21")],
        java_version_default: "21".into(),
        project_types: vec![opt("maven-project", "Maven"), opt("gradle-project", "Gradle")],
        project_type_default: "gradle-project".into(),
        dependency_groups: vec![
            InitializrDependencyGroup {
                name: "Web".into(),
                values: vec![dep("web", "Spring Web", "Build web apps"), dep("webflux", "Spring Reactive Web", "Reactive")],
            },
            InitializrDependencyGroup {
                name: "SQL".into(),
                values: vec![dep("data-jpa", "Spring Data JPA", "Persist data"), dep("h2", "H2 Database", "In-memory")],
            },
        ],
        group_id_default: "com.example".into(),
        artifact_id_default: "demo".into(),
        version_default: "0.0.1-SNAPSHOT".into(),
        name_default: "demo".into(),
        description_default: "Demo project".into(),
        package_name_default: "com.example.demo".into(),
    }
}

#[test]
fn metadata_is_read_with_defaults() {
    let body = obj(vec![
        (
            "bootVersion",
            obj(vec![("default", s("3.4.5")), ("values", arr(vec![obj(vec![("id", s("3.4.5")), ("name", s("3.4.5"))])]))]),
        ),
        ("groupId", obj(vec![("default", s("com.example"))])),
        (
            "dependencies",
            obj(vec![(
                "values",
                arr(vec![obj(vec![
                    ("name", s("Web")),
                    ("values", arr(vec![obj(vec![("id", s("web")), ("name", s("Spring Web"))])])),
                ])]),
            )]),
        ),
    ]);
    let m = parse_initializr_metadata(&body);
    assert_eq!(m.boot_versions.len(), 1);
    assert_eq!(m.boot_version_default, "3.4.5");
    assert!(m.languages.is_empty());
    assert_eq!(m.language_default, "");
    assert_eq!(m.group_id_default, "com.example");
    assert_eq!(m.artifact_id_default, "");
    assert_eq!(m.dependency_groups.len(), 1);
    assert_eq!(m.dependency_groups[0].values[0].id, "web");
    assert_eq!(m.dependency_groups[0].values[0].description, "");
}

#[test]
fn option_position_or_first() {
    let m = sample_meta();
    assert_eq!(position_of_option(&m.boot_versions, "3.4.5"), 1);
    assert_eq!(position_of_option(&m.packagings, "war"), 0);
}

#[test]
fn flat_list_with_and_without_filter() {
    let m = sample_meta();
    let all = flatten_all_deps_for_render(&m, "");
    assert_eq!(all.len(), 6);
    assert_eq!(all[0], FlatDepEntry::GroupHeader(0));
    assert_eq!(all[1], FlatDepEntry::Dep(0, 0));
    assert_eq!(all[3], FlatDepEntry::GroupHeader(1));
    let filtered = flatten_all_deps_for_render(&m, "JPA");
    assert_eq!(filtered, vec![FlatDepEntry::GroupHeader(1), FlatDepEntry::Dep(1, 0)]);
    assert_eq!(flat_dep_count(&m, "reactive"), 2);
    assert_eq!(flat_dep_count(&m, "nothing-matches"), 0);
}

#[test]
fn flat_list_lookups() {
    let m = sample_meta();
    assert!(!flat_dep_is_selectable(&m, "", 0));
    assert!(flat_dep_is_selectable(&m, "", 1));
    assert!(!flat_dep_is_selectable(&m, "", 99));
    assert_eq!(flat_dep_id_at(&m, "", 5), Some("h2".to_string()));
    assert_eq!(flat_dep_id_at(&m, "", 3), None);
    assert_eq!(flat_dep_id_at(&m, "", 6), None);
}

#[test]
fn flat_list_ids_in_group_order_with_one_header_each() {
    let m = sample_meta();
    for filter in ["", "reactive", "JPA", "nothing-matches"] {
        let count = flat_dep_count(&m, filter);
        let ids: Vec<String> = (0..count).filter_map(|i| flat_dep_id_at(&m, filter, i)).collect();
        let expected: Vec<String> = m
            .dependency_groups
            .iter()
            .flat_map(|g| {
                g.values.iter().filter(|d| {
                    let f = filter.to_lowercase();
                    filter.is_empty()
                        || d.name.to_lowercase().contains(&f)
                        || d.id.to_lowercase().contains(&f)
                        || d.description.to_lowercase().contains(&f)
                })
            })
            .map(|d| d.id.clone())
            .collect();
        assert_eq!(ids, expected);
        let headers = (0..count).filter(|&i| flat_dep_id_at(&m, filter, i).is_none()).count();
        let groups_with_match = m
            .dependency_groups
            .iter()
            .filter(|g| g.values.iter().any(|d| expected.contains(&d.id)))
            .count();
        assert_eq!(headers, groups_with_match);
        assert_eq!(flat_dep_id_at(&m, filter, count), None);
    }
}

#[test]
fn metadata_is_read_from_its_file_text() {
    let text = r#"{"bootVersion":{"default":"3.4.5","values":[{"id":"3.4.5","name":"3.4.5"}]},
        "dependencies":{"values":[{"name":"Web","values":[{"id":"web","name":"Spring Web"}]}]}}"#;
    let m = metadata_from_text(text).unwrap();
    assert_eq!(m.boot_version_default, "3.4.5");
    assert_eq!(m.boot_versions[0].id, "3.4.5");
    assert_eq!(m.dependency_groups[0].values[0].id, "web");
    assert_eq!(m.dependency_groups[0].values[0].description, "");
    assert_eq!(metadata_from_text("{broken").unwrap_err(), "failed to parse local metadata JSON");
}
