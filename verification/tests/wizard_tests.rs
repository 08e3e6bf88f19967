use tspring::app_state::{NewProjectWizardState, WizardStep};
use tspring::input::Key;
use tspring::model::{InitializrDependency, InitializrDependencyGroup, InitializrMetadata, InitializrOption};
use tspring::wizard::{
    handle_new_project_key, is_dependency_selected, option_name_at, selection_line, WizardAction,
};

fn opt(id: &str, name: &str) -> InitializrOption {
    InitializrOption { id: id.into(), name: name.into() }
}

fn dep(id: &str, name: &str) -> InitializrDependency {
    InitializrDependency { id: id.into(), name: name.into(), description: "".into() }
}

fn meta() -> InitializrMetadata {
    InitializrMetadata {
        boot_versions: vec![opt("3.3.0", "3.3.0"), opt("3.4.5", "3.4.5")],
        boot_version_default: "3.4.5".into(),
        languages: vec![opt("java", "Java"), opt("kotlin", "Kotlin")],
        language_default: "java".into(),
        packagings: vec![opt("jar", "Jar")],
        packaging_default: "jar".into(),
        java_versions: vec![opt("21", "21")],
        java_version_default: "21".into(),
        project_types: vec![opt("maven-project", "Maven")],
        project_type_default: "maven-project".into(),
        dependency_groups: vec![
            InitializrDependencyGroup { name: "Web".into(), values: vec![dep("web", "Spring Web"), dep("webflux", "Reactive Web")] },
            InitializrDependencyGroup { name: "SQL".into(), values: vec![dep("h2", "H2 Database")] },
        ],
        group_id_default: "com.example".into(),
        artifact_id_default: "demo".into(),
        version_default: "0.0.1-SNAPSHOT".into(),
        name_default: "demo".into(),
        description_default: "Demo".into(),
        package_name_default: "com.example.demo".into(),
    }
}

fn loaded() -> NewProjectWizardState {
    let mut w = NewProjectWizardState::default();
    w.metadata = Some(meta());
    w
}

#[test]
fn esc_while_loading_closes_and_resets() {
    let mut w = NewProjectWizardState::default();
    w.loading_metadata = true;
    w.group_id = "x".into();
    assert!(matches!(handle_new_project_key(&mut w, Key::Char('a')), WizardAction::Stay));
    assert_eq!(w.group_id, "x");
    assert!(matches!(handle_new_project_key(&mut w, Key::Esc), WizardAction::Exit));
    assert_eq!(w.group_id, "com.example");
    assert!(!w.loading_metadata);
}

#[test]
fn esc_without_metadata_closes_without_reset() {
    let mut w = NewProjectWizardState::default();
    w.error = Some("Failed to load metadata: x".into());
    assert!(matches!(handle_new_project_key(&mut w, Key::Esc), WizardAction::Exit));
    assert!(w.error.is_some());
}

#[test]
fn fields_cycle_and_choices_wrap() {
    let mut w = loaded();
    handle_new_project_key(&mut w, Key::Up);
    assert_eq!(w.active_field, 9);
    handle_new_project_key(&mut w, Key::Tab);
    assert_eq!(w.active_field, 0);
    handle_new_project_key(&mut w, Key::Left);
    assert_eq!(w.boot_version_idx, 1);
    handle_new_project_key(&mut w, Key::Right);
    assert_eq!(w.boot_version_idx, 0);
    // Typing into a choice does nothing.
    handle_new_project_key(&mut w, Key::Char('z'));
    assert_eq!(w.boot_version_idx, 0);
    // The packaging list has one option.
    w.active_field = 2;
    handle_new_project_key(&mut w, Key::Right);
    assert_eq!(w.packaging_idx, 0);
}

#[test]
fn text_fields_edit() {
    let mut w = loaded();
    w.active_field = 6;
    handle_new_project_key(&mut w, Key::Backspace);
    handle_new_project_key(&mut w, Key::Char('x'));
    assert_eq!(w.artifact_id, "demx");
    // Left on a text field does nothing.
    handle_new_project_key(&mut w, Key::Left);
    assert_eq!(w.artifact_id, "demx");
}

#[test]
fn dependencies_navigation_and_selection() {
    let mut w = loaded();
    handle_new_project_key(&mut w, Key::Enter);
    assert_eq!(w.step, WizardStep::Dependencies);
    assert_eq!(w.dep_item_idx, 0);
    handle_new_project_key(&mut w, Key::Down);
    assert_eq!(w.dep_item_idx, 1);
    handle_new_project_key(&mut w, Key::Down);
    assert_eq!(w.dep_item_idx, 2);
    // The group header at 3 is skipped.
    handle_new_project_key(&mut w, Key::Down);
    assert_eq!(w.dep_item_idx, 4);
    handle_new_project_key(&mut w, Key::Down);
    assert_eq!(w.dep_item_idx, 4);
    handle_new_project_key(&mut w, Key::Char(' '));
    assert_eq!(w.selected_deps, vec!["h2".to_string()]);
    handle_new_project_key(&mut w, Key::Up);
    assert_eq!(w.dep_item_idx, 2);
    handle_new_project_key(&mut w, Key::Char(' '));
    handle_new_project_key(&mut w, Key::Up);
    handle_new_project_key(&mut w, Key::Up);
    assert_eq!(w.dep_item_idx, 1);
    handle_new_project_key(&mut w, Key::Down);
    handle_new_project_key(&mut w, Key::Char(' '));
    assert_eq!(w.selected_deps, vec!["h2".to_string()]);
}

#[test]
fn dependency_filter_moves_cursor_to_first_match() {
    let mut w = loaded();
    handle_new_project_key(&mut w, Key::Enter);
    handle_new_project_key(&mut w, Key::Char('/'));
    assert!(w.dep_filter_active);
    handle_new_project_key(&mut w, Key::Char('h'));
    handle_new_project_key(&mut w, Key::Char('2'));
    assert_eq!(w.dep_filter, "h2");
    assert_eq!(w.dep_item_idx, 1);
    handle_new_project_key(&mut w, Key::Enter);
    assert!(!w.dep_filter_active);
    handle_new_project_key(&mut w, Key::Char(' '));
    assert_eq!(w.selected_deps, vec!["h2".to_string()]);
    handle_new_project_key(&mut w, Key::Char('/'));
    handle_new_project_key(&mut w, Key::Esc);
    assert_eq!(w.dep_filter, "");
    assert_eq!(w.dep_item_idx, 1);
}

#[test]
fn confirm_generates_with_chosen_ids() {
    let mut w = loaded();
    w.boot_version_idx = 1;
    w.language_idx = 1;
    w.step = WizardStep::Confirm;
    w.selected_deps = vec!["web".into()];
    handle_new_project_key(&mut w, Key::Backspace);
    handle_new_project_key(&mut w, Key::Char('o'));
    handle_new_project_key(&mut w, Key::Char('u'));
    handle_new_project_key(&mut w, Key::Char('t'));
    assert_eq!(w.output_dir, "out");
    match handle_new_project_key(&mut w, Key::Enter) {
        WizardAction::Generate(p) => {
            assert_eq!(p.boot_version, "3.4.5");
            assert_eq!(p.language, "kotlin");
            assert_eq!(p.packaging, "jar");
            assert_eq!(p.version, "0.0.1-SNAPSHOT");
            assert_eq!(p.dependencies, vec!["web".to_string()]);
            assert_eq!(p.output_dir, "out");
            assert_eq!(p.artifact_id, "demo");
        }
        _ => panic!("expected generation"),
    }
    assert_eq!(w.step, WizardStep::Generating);
    assert_eq!(w.gen_progress, "Generating project...");
    // Keys are ignored until generation is done.
    assert!(matches!(handle_new_project_key(&mut w, Key::Enter), WizardAction::Stay));
    w.gen_done = true;
    assert!(matches!(handle_new_project_key(&mut w, Key::Esc), WizardAction::Exit));
    assert_eq!(w.step, WizardStep::ProjectInfo);
}

#[test]
fn choice_past_list_gives_empty_id() {
    let mut w = loaded();
    w.java_version_idx = 7;
    w.step = WizardStep::Confirm;
    match handle_new_project_key(&mut w, Key::Enter) {
        WizardAction::Generate(p) => assert_eq!(p.java_version, ""),
        _ => panic!("expected generation"),
    }
}

#[test]
fn toggling_a_dependency_twice_unselects_it() {
    let mut w = loaded();
    handle_new_project_key(&mut w, Key::Enter);
    handle_new_project_key(&mut w, Key::Down);
    handle_new_project_key(&mut w, Key::Char(' '));
    let first = w.selected_deps.clone();
    assert_eq!(first.len(), 1);
    handle_new_project_key(&mut w, Key::Char(' '));
    assert!(w.selected_deps.is_empty());
    handle_new_project_key(&mut w, Key::Char(' '));
    assert_eq!(w.selected_deps, first);
}

#[test]
fn shown_option_names_and_selection() {
    let opts = vec![opt("3.5.0", "3.5.0"), opt("3.4.1", "3.4.1 (stable)")];
    assert_eq!(option_name_at(&opts, 1), "3.4.1 (stable)");
    assert_eq!(option_name_at(&opts, 2), "?");
    let ids: Vec<String> = (1..=10).map(|i| format!("d{}", i)).collect();
    assert!(is_dependency_selected(&ids, "d3"));
    assert!(!is_dependency_selected(&ids, "web"));
    assert_eq!(selection_line(&ids), "d1, d2, d3, d4, d5, d6, d7, d8 +2 more");
    assert_eq!(selection_line(&ids[..2].to_vec()), "d1, d2");
    assert_eq!(selection_line(&Vec::new()), "");
}
