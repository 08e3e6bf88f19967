use tspring::actuator::{
    active_profiles, actuator_url, apply_logger_level, app_name_from_property, find_logger,
    health_outcome, health_status, info_versions, parse_beans, parse_endpoints, parse_env,
    parse_health_components, parse_loggers, parse_mappings, pid_from_property, requested_level,
};
use tspring::json::JsonValue;
use tspring::model::{AppStatus, Logger};

fn s(x: &str) -> JsonValue {
    JsonValue::Str(x.to_string())
}

fn obj(members: Vec<(&str, JsonValue)>) -> JsonValue {
    JsonValue::Object(
        members.into_iter().map(|(k, v)| (k.to_string(), v)).collect(),
        "{...}".to_string(),
    )
}

fn arr(items: Vec<JsonValue>) -> JsonValue {
    JsonValue::Array(items, "[...]".to_string())
}

#[test]
fn actuator_url_trims_trailing_slashes() {
    assert_eq!(actuator_url("http://localhost:8080/", "/health"), "http://localhost:8080/actuator/health");
    assert_eq!(actuator_url("http://localhost:8080//", ""), "http://localhost:8080/actuator");
    assert_eq!(actuator_url("http://h", "/env"), "http://h/actuator/env");
}

#[test]
fn health_status_reads_status_field() {
    assert_eq!(health_status(&obj(vec![("status", s("UP"))])), AppStatus::Up);
    assert_eq!(health_status(&obj(vec![("status", s("DOWN"))])), AppStatus::Down);
    assert_eq!(health_status(&obj(vec![("status", s("OUT_OF_SERVICE"))])), AppStatus::Unknown);
    assert_eq!(health_status(&obj(vec![])), AppStatus::Unknown);
}

#[test]
fn health_outcome_cases() {
    let up = obj(vec![("status", s("UP"))]);
    assert_eq!(health_outcome(false, false, None), AppStatus::Down);
    assert_eq!(health_outcome(true, false, Some(&up)), AppStatus::Down);
    assert_eq!(health_outcome(true, true, None), AppStatus::Unknown);
    assert_eq!(health_outcome(true, true, Some(&up)), AppStatus::Up);
}

#[test]
fn app_name_from_property_rejects_masked_or_empty() {
    let named = obj(vec![("property", obj(vec![("value", s("orders"))]))]);
    assert_eq!(app_name_from_property(&named), Some("orders".to_string()));
    let masked = obj(vec![("property", obj(vec![("value", s("******"))]))]);
    assert_eq!(app_name_from_property(&masked), None);
    let empty = obj(vec![("property", obj(vec![("value", s(""))]))]);
    assert_eq!(app_name_from_property(&empty), None);
    assert_eq!(app_name_from_property(&obj(vec![])), None);
}

#[test]
fn endpoints_from_links() {
    let body = obj(vec![(
        "_links",
        obj(vec![
            ("self", obj(vec![("href", s("http://h/actuator"))])),
            ("health", obj(vec![("href", s("http://h/actuator/health"))])),
            ("nohref", obj(vec![])),
        ]),
    )]);
    let eps = parse_endpoints(&body);
    assert_eq!(eps.len(), 3);
    assert_eq!(eps[1].name, "health");
    assert_eq!(eps[1].url, "http://h/actuator/health");
    assert_eq!(eps[2].url, "");
}

#[test]
fn beans_from_contexts() {
    let body = obj(vec![(
        "contexts",
        obj(vec![(
            "application",
            obj(vec![(
                "beans",
                obj(vec![
                    ("myBean", obj(vec![("scope", s("singleton")), ("type", s("com.example.MyBean"))])),
                    ("bare", obj(vec![])),
                ]),
            )]),
        )]),
    )]);
    let beans = parse_beans(&body);
    assert_eq!(beans.len(), 2);
    assert_eq!(beans[0].bean_type, "com.example.MyBean");
    assert_eq!(beans[1].scope, "unknown");
    assert_eq!(beans[1].bean_type, "unknown");
}

#[test]
fn loggers_and_level_change() {
    let body = obj(vec![(
        "loggers",
        obj(vec![
            ("ROOT", obj(vec![("configuredLevel", s("INFO")), ("effectiveLevel", s("INFO"))])),
            ("com.example", obj(vec![("configuredLevel", JsonValue::Null)])),
        ]),
    )]);
    let mut loggers = parse_loggers(&body);
    assert_eq!(loggers.len(), 2);
    assert_eq!(loggers[0].configured_level, Some("INFO".to_string()));
    assert_eq!(loggers[1].configured_level, None);
    assert_eq!(loggers[1].effective_level, "OFF");
    assert_eq!(find_logger(&loggers, "com.example"), Some(1));
    assert_eq!(find_logger(&loggers, "missing"), None);
    apply_logger_level(&mut loggers, "com.example", "DEBUG");
    assert_eq!(loggers[1].configured_level, Some("DEBUG".to_string()));
    assert_eq!(loggers[1].effective_level, "DEBUG");
    apply_logger_level(&mut loggers, "ROOT", "OFF");
    assert_eq!(loggers[0].configured_level, None);
    assert_eq!(loggers[0].effective_level, "OFF");
}

#[test]
fn requested_level_off_resets() {
    assert_eq!(requested_level("OFF"), None);
    assert_eq!(requested_level("WARN"), Some("WARN".to_string()));
}

#[test]
fn apply_level_to_unknown_logger_changes_nothing() {
    let mut loggers = vec![Logger {
        name: "a".into(),
        configured_level: None,
        effective_level: "INFO".into(),
    }];
    apply_logger_level(&mut loggers, "b", "DEBUG");
    assert_eq!(loggers[0].effective_level, "INFO");
}

#[test]
fn mappings_from_dispatcher_servlets_and_filters() {
    let body = obj(vec![(
        "contexts",
        obj(vec![(
            "application",
            obj(vec![(
                "mappings",
                obj(vec![
                    (
                        "dispatcherServlets",
                        obj(vec![(
                            "dispatcherServlet",
                            arr(vec![
                                obj(vec![("predicate", s("{GET /users}")), ("handler", s("UserController#list()"))]),
                                obj(vec![(
                                    "details",
                                    obj(vec![(
                                        "requestMappingConditions",
                                        obj(vec![("patterns", arr(vec![s("/a"), s("/b")]))]),
                                    )]),
                                )]),
                            ]),
                        )]),
                    ),
                    ("servletFilters", arr(vec![obj(vec![("name", s("corsFilter"))])])),
                    ("other", s("not a list")),
                ]),
            )]),
        )]),
    )]);
    let m = parse_mappings(&body);
    assert_eq!(m.len(), 3);
    assert_eq!(m[0].pattern, "{GET /users}");
    assert_eq!(m[0].handler, "UserController#list()");
    assert_eq!(m[1].pattern, "/a");
    assert_eq!(m[1].handler, "unknown");
    assert_eq!(m[2].pattern, "unknown");
    assert_eq!(m[2].handler, "corsFilter");
}

#[test]
fn env_properties_from_sources() {
    let body = obj(vec![(
        "propertySources",
        arr(vec![obj(vec![
            ("name", s("application.properties")),
            (
                "properties",
                obj(vec![
                    ("server.port", obj(vec![("value", JsonValue::Number(Some(8080), "8080".into()))])),
                    ("app.title", obj(vec![("value", s("Demo"))])),
                    ("no.value", obj(vec![])),
                ]),
            ),
        ])]),
    )]);
    let props = parse_env(&body);
    assert_eq!(props.len(), 3);
    assert_eq!(props[0].name, "server.port");
    assert_eq!(props[0].value, "8080");
    assert_eq!(props[0].source, "application.properties");
    assert_eq!(props[1].value, "Demo");
    assert_eq!(props[2].value, "");
}

#[test]
fn last_level_change_wins() {
    let logger = |name: &str| Logger {
        name: name.to_string(),
        configured_level: None,
        effective_level: "INFO".to_string(),
    };
    let mut loggers = vec![logger("ROOT"), logger("com.example")];
    apply_logger_level(&mut loggers, "com.example", "DEBUG");
    apply_logger_level(&mut loggers, "com.example", "WARN");
    assert_eq!(loggers[1].effective_level, "WARN");
    assert_eq!(loggers[1].configured_level, Some("WARN".to_string()));
    assert_eq!(loggers[0].effective_level, "INFO");
    assert_eq!(loggers[0].configured_level, None);
}

#[test]
fn process_id_from_property() {
    let body = obj(vec![("property", obj(vec![("source", s("systemProperties")), ("value", s("4242"))]))]);
    assert_eq!(pid_from_property(&body), Some("4242".to_string()));
    let numeric = obj(vec![("property", obj(vec![("value", JsonValue::Number(Some(7), "7".to_string()))]))]);
    assert_eq!(pid_from_property(&numeric), Some("7".to_string()));
    assert_eq!(pid_from_property(&obj(vec![])), None);
}

#[test]
fn health_components_in_order() {
    let body = obj(vec![
        ("status", s("UP")),
        (
            "components",
            obj(vec![
                ("db", obj(vec![("status", s("UP")), ("details", obj(vec![("database", s("H2"))]))])),
                ("ping", obj(vec![("status", s("DOWN"))])),
            ]),
        ),
    ]);
    let cs = parse_health_components(&body);
    assert_eq!(cs.len(), 2);
    assert_eq!((cs[0].name.as_str(), cs[0].status.as_str(), cs[0].details.as_str()), ("db", "UP", "{...}"));
    assert_eq!((cs[1].name.as_str(), cs[1].status.as_str(), cs[1].details.as_str()), ("ping", "DOWN", ""));
    assert!(parse_health_components(&obj(vec![("status", s("UP"))])).is_empty());
}

#[test]
fn profiles_and_versions() {
    let env = obj(vec![("activeProfiles", arr(vec![s("dev"), JsonValue::Null, s("local")]))]);
    assert_eq!(active_profiles(&env), vec!["dev".to_string(), "local".to_string()]);
    assert!(active_profiles(&obj(vec![])).is_empty());
    let info = obj(vec![
        ("java", obj(vec![("version", s("21.0.2"))])),
        ("build", obj(vec![("version", s("1.2.3"))])),
    ]);
    assert_eq!(info_versions(&info), ("21.0.2".to_string(), "1.2.3".to_string()));
    assert_eq!(info_versions(&obj(vec![])), (String::new(), String::new()));
}
