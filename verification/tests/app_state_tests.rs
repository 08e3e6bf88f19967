use tspring::app_state::{
    command_resource, ghost_suffix, level_index, log_level, palette, AppState, EditLoggerState, Mode,
    NewProjectWizardState, Resource, ServerDialogPhase, ServerDialogState, SplashState,
    WizardStep,
};
use tspring::config::TsbConfig;
use tspring::model::{AppStatus, Endpoint, InitializrMetadata, InitializrOption, SpringApp};

fn state_with_apps(names: &[(&str, &str)]) -> AppState {
    let mut cfg = TsbConfig::default();
    for (n, u) in names {
        cfg.add_app(n.to_string(), u.to_string());
    }
    AppState::new(cfg)
}

#[test]
fn new_state_from_config() {
    let s = state_with_apps(&[("orders", "http://localhost:8080"), ("billing", "http://localhost:9090")]);
    assert_eq!(s.mode, Mode::Splash);
    assert_eq!(s.active_resource, Resource::Apps);
    assert_eq!(s.apps.len(), 2);
    assert_eq!(s.apps[1].name, "billing");
    assert_eq!(s.apps[1].status, AppStatus::Unknown);
    assert_eq!(s.resources.len(), 9);
    assert_eq!(s.command_suggestions, (0..9).collect::<Vec<usize>>());
    assert_eq!(s.splash_state.total_steps, 5);
    assert_eq!(s.splash_state.current_message, "Initializing TSB...");
}

#[test]
fn defaults_of_dialogs() {
    let d = ServerDialogState::default();
    assert_eq!(d.phase, ServerDialogPhase::ChooseMethod);
    assert_eq!(d.method_selected, 0);
    let w = NewProjectWizardState::default();
    assert_eq!(w.step, WizardStep::ProjectInfo);
    assert_eq!(w.group_id, "com.example");
    assert_eq!(w.dep_item_idx, 1);
    assert_eq!(w.output_dir, ".");
    let e = EditLoggerState::default();
    assert_eq!(e.selected_level_index, 0);
    let sp = SplashState::default();
    assert!(!sp.done);
}

#[test]
fn palette_and_commands() {
    let p = palette();
    assert_eq!(p[0].command, ":apps");
    assert_eq!(p[8].name, "New Project");
    assert_eq!(command_resource(":beans"), Resource::Beans);
    assert_eq!(command_resource(":threaddump"), Resource::ThreadDump);
    assert_eq!(command_resource(":bogus"), Resource::Apps);
    assert_eq!(Resource::HeapDump.key(), "heapdump");
}

#[test]
fn log_levels() {
    assert_eq!(log_level(0), "TRACE");
    assert_eq!(log_level(5), "OFF");
    assert_eq!(level_index("WARN"), 3);
    assert_eq!(level_index("NOPE"), 2);
}

#[test]
fn filter_is_case_insensitive_and_covers_status() {
    let mut s = state_with_apps(&[("Orders", "http://a"), ("billing", "http://b"), ("misc", "http://c")]);
    s.apps[2].status = AppStatus::Down;
    s.filter_text = "ORD".into();
    assert_eq!(s.filtered_indices(), vec![0]);
    s.filter_text = "down".into();
    assert_eq!(s.filtered_indices(), vec![2]);
    s.filter_text = "".into();
    assert_eq!(s.filtered_indices(), vec![0, 1, 2]);
    s.active_resource = Resource::Dashboard;
    assert!(s.filtered_indices().is_empty());
}

#[test]
fn navigation_moves_within_filtered_list() {
    let mut s = state_with_apps(&[("a1", "http://1"), ("b", "http://2"), ("a2", "http://3"), ("a3", "http://4")]);
    s.filter_text = "a".into();
    assert_eq!(s.filtered_indices(), vec![0, 2, 3]);
    s.next();
    assert_eq!(s.selected_app_index, 2);
    s.next();
    assert_eq!(s.selected_app_index, 3);
    s.next();
    assert_eq!(s.selected_app_index, 3);
    s.previous();
    assert_eq!(s.selected_app_index, 2);
    s.go_to_top();
    assert_eq!(s.selected_app_index, 0);
    s.previous();
    assert_eq!(s.selected_app_index, 0);
    s.go_to_bottom();
    assert_eq!(s.selected_app_index, 3);
    // A selection outside the filtered list jumps to its first entry.
    s.selected_app_index = 1;
    s.next();
    assert_eq!(s.selected_app_index, 0);
}

#[test]
fn navigation_on_other_resources_uses_their_index() {
    let mut s = state_with_apps(&[]);
    s.active_resource = Resource::Endpoints;
    s.endpoints = vec![
        Endpoint { name: "health".into(), url: "u1".into() },
        Endpoint { name: "info".into(), url: "u2".into() },
    ];
    s.next();
    assert_eq!(s.selected_endpoint_index, 1);
    assert_eq!(s.selected_app_index, 0);
    assert_eq!(s.active_index(), 1);
}

#[test]
fn active_url_and_server_name() {
    let mut s = state_with_apps(&[("orders", "http://a"), ("billing", "http://b")]);
    assert_eq!(s.active_app_url(), Some("http://a".to_string()));
    assert_eq!(s.current_server_name(), "orders");
    s.config.active_app_url = Some("http://b".into());
    assert_eq!(s.active_app_url(), Some("http://b".to_string()));
    assert_eq!(s.current_server_name(), "billing");
    s.config.active_app_url = Some("http://zzz".into());
    assert_eq!(s.current_server_name(), "orders");
    let empty = state_with_apps(&[]);
    assert_eq!(empty.active_app_url(), None);
    assert_eq!(empty.current_server_name(), "No server");
}

#[test]
fn command_suggestions_follow_typed_text() {
    let mut s = state_with_apps(&[]);
    s.command_text = "DUMP".into();
    s.command_suggestion_selected = 3;
    s.update_command_suggestions();
    assert_eq!(s.command_suggestions, vec![6, 7]);
    assert_eq!(s.command_suggestion_selected, 0);
    assert_eq!(s.get_selected_command().unwrap().command, ":threaddump");
    s.command_text = "zzz".into();
    s.update_command_suggestions();
    assert!(s.get_selected_command().is_none());
}

#[test]
fn tick_wraps_and_error_modal_remembers_mode() {
    let mut s = state_with_apps(&[]);
    s.spinner_frame = usize::MAX;
    s.on_tick();
    assert_eq!(s.spinner_frame, 0);
    s.mode = Mode::Describe;
    s.show_error("boom".into());
    assert_eq!(s.mode, Mode::ErrorModal);
    assert_eq!(s.error_prev_mode, Some(Mode::Describe));
    s.show_error("again".into());
    assert_eq!(s.error_prev_mode, Some(Mode::Describe));
    assert_eq!(s.error_message, Some("again".to_string()));
}

#[test]
fn apply_metadata_defaults_positions() {
    let opt = |id: &str| InitializrOption { id: id.into(), name: id.into() };
    let meta = InitializrMetadata {
        boot_versions: vec![opt("a"), opt("b")],
        boot_version_default: "b".into(),
        languages: vec![opt("java")],
        language_default: "kotlin".into(),
        packagings: vec![],
        packaging_default: "jar".into(),
        java_versions: vec![opt("17"), opt("21")],
        java_version_default: "21".into(),
        project_types: vec![opt("maven-project")],
        project_type_default: "maven-project".into(),
        dependency_groups: vec![],
        group_id_default: "org.acme".into(),
        artifact_id_default: "shop".into(),
        version_default: "1".into(),
        name_default: "shop".into(),
        description_default: "Shop".into(),
        package_name_default: "org.acme.shop".into(),
    };
    let mut w = NewProjectWizardState::default();
    w.apply_metadata_defaults(&meta);
    assert_eq!(w.boot_version_idx, 1);
    assert_eq!(w.language_idx, 0);
    assert_eq!(w.packaging_idx, 0);
    assert_eq!(w.java_version_idx, 1);
    assert_eq!(w.group_id, "org.acme");
    assert_eq!(w.package_name, "org.acme.shop");
    assert_eq!(w.output_dir, ".");
}

#[test]
fn spring_app_clone_keeps_fields() {
    let a = SpringApp { name: "n".into(), url: "u".into(), status: AppStatus::Up };
    let b = a.clone();
    assert_eq!(b.name, "n");
    assert_eq!(b.status, AppStatus::Up);
}

#[test]
fn palette_hint_completes_typed_prefix() {
    assert_eq!(ghost_suffix(":threaddump", ":th"), "readdump");
    assert_eq!(ghost_suffix(":threaddump", ":TH"), "readdump");
    assert_eq!(ghost_suffix(":beans", ":beans"), "");
}

#[test]
fn palette_hint_is_empty_without_prefix() {
    assert_eq!(ghost_suffix(":beans", ""), "");
    assert_eq!(ghost_suffix(":beans", ":env"), "");
}
