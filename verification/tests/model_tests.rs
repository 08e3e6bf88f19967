use tspring::model::AppStatus;

#[test]
fn app_status_display() {
    assert_eq!(AppStatus::Up.to_string(), "UP");
    assert_eq!(AppStatus::Down.to_string(), "DOWN");
    assert_eq!(AppStatus::Unknown.to_string(), "UNKNOWN");
}

#[test]
fn app_status_default_is_unknown() {
    assert_eq!(AppStatus::default(), AppStatus::Unknown);
}
