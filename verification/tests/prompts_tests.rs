use tspring::input::Key;
use tspring::model::{InitializrDependency, InitializrDependencyGroup, InitializrOption};
use tspring::prompts::{
    cli_params, confirm_key, dep_line_texts, padded, picked_display, select_key, select_result,
    select_start, summary_deps, text_key, visible_window, DependencyPicker, PromptStep,
};

fn opt(id: &str, name: &str) -> InitializrOption {
    InitializrOption { id: id.into(), name: name.into() }
}

#[test]
fn option_choice() {
    let opts = vec![opt("java", "Java"), opt("kotlin", "Kotlin"), opt("groovy", "Groovy")];
    let start = select_start(&opts, "kotlin");
    assert_eq!(start, 1);
    assert_eq!(select_key(0, 3, Key::Left, false), (2, PromptStep::Asking));
    assert_eq!(select_key(2, 3, Key::Char('l'), false), (0, PromptStep::Asking));
    assert_eq!(select_key(1, 3, Key::Enter, false), (1, PromptStep::Answered));
    assert_eq!(select_key(1, 3, Key::Char('c'), true), (1, PromptStep::Interrupted));
    assert_eq!(select_result(&opts, "x", 2), ("groovy".to_string(), "Groovy".to_string()));
    assert_eq!(select_result(&vec![], "x", 0), ("x".to_string(), "x".to_string()));
}

#[test]
fn text_prompt_keys() {
    let mut v = "demo".to_string();
    assert_eq!(text_key(&mut v, Key::Backspace, false), PromptStep::Asking);
    assert_eq!(v, "dem");
    text_key(&mut v, Key::Char('u'), true);
    assert_eq!(v, "");
    text_key(&mut v, Key::Char('a'), false);
    assert_eq!(v, "a");
    assert_eq!(text_key(&mut v, Key::Char('c'), true), PromptStep::Interrupted);
    assert_eq!(text_key(&mut v, Key::Enter, false), PromptStep::Answered);
    assert_eq!(v, "a");
}

#[test]
fn confirm_prompt_keys() {
    assert_eq!(confirm_key(Key::Enter, false), (true, PromptStep::Answered));
    assert_eq!(confirm_key(Key::Char('N'), false), (false, PromptStep::Answered));
    assert_eq!(confirm_key(Key::Char('q'), false).1, PromptStep::Asking);
    assert_eq!(confirm_key(Key::Char('c'), true).1, PromptStep::Interrupted);
}

fn groups() -> Vec<InitializrDependencyGroup> {
    let d = |id: &str, name: &str, desc: &str| InitializrDependency {
        id: id.into(),
        name: name.into(),
        description: desc.into(),
    };
    vec![
        InitializrDependencyGroup { name: "Web".into(), values: vec![d("web", "Spring Web", "MVC"), d("webflux", "Reactive Web", "Netty")] },
        InitializrDependencyGroup { name: "SQL".into(), values: vec![d("h2", "H2 Database", "In-memory")] },
    ]
}

#[test]
fn picker_selects_and_filters() {
    let mut p = DependencyPicker::new(&groups());
    assert_eq!(p.entries.len(), 3);
    assert_eq!(p.entries[2].group, "SQL");
    p.key(Key::Down, false);
    p.key(Key::Char(' '), false);
    assert_eq!(p.selected_count(), 1);
    p.key(Key::Char('/'), false);
    p.key(Key::Char('s'), false);
    p.key(Key::Char('q'), false);
    p.key(Key::Char('l'), false);
    assert_eq!(p.filtered(), vec![2]);
    assert_eq!(p.cursor, 0);
    p.key(Key::Enter, false);
    assert!(!p.filter_active);
    p.key(Key::Char(' '), false);
    assert_eq!(p.picked(false), vec!["webflux".to_string(), "h2".to_string()]);
    assert_eq!(p.picked(true), vec!["Reactive Web".to_string(), "H2 Database".to_string()]);
    assert_eq!(p.key(Key::Esc, false), PromptStep::Answered);
    assert_eq!(p.key(Key::Char('c'), true), PromptStep::Interrupted);
}

#[test]
fn picker_cursor_is_clamped() {
    let mut p = DependencyPicker::new(&groups());
    p.cursor = 9;
    let shown = p.clamp();
    assert_eq!(shown.len(), 3);
    assert_eq!(p.cursor, 2);
}

#[test]
fn window_around_cursor() {
    assert_eq!(visible_window(0, 0, 12), (0, 0));
    assert_eq!(visible_window(5, 3, 12), (0, 5));
    assert_eq!(visible_window(30, 20, 12), (14, 26));
    assert_eq!(visible_window(30, 29, 12), (18, 30));
}

#[test]
fn display_texts() {
    assert_eq!(picked_display(&vec![]), "(none)");
    let names: Vec<String> = (1..=7).map(|i| format!("d{}", i)).collect();
    assert_eq!(picked_display(&names), "d1, d2, d3, d4, d5, +2 more");
    assert_eq!(picked_display(&names[..2].to_vec()), "d1, d2");
    assert_eq!(summary_deps(&vec![]), "(none)");
    assert_eq!(summary_deps(&vec!["web".into(), "h2".into()]), "web, h2");
    assert_eq!(padded("Group", 16), "Group           ");
    assert_eq!(padded("A very long label here", 16), "A very long label here");
    let (g, d) = dep_line_texts("Developer Tools Extra", "short");
    assert_eq!(g, "Developer Too…");
    assert_eq!(d, "short");
}

#[test]
fn params_from_answers() {
    let p = cli_params(
        ("3.4.5".into(), "java".into(), "jar".into(), "21".into(), "maven-project".into()),
        ("com.example".into(), "demo".into(), "demo".into(), "Demo".into(), "com.example.demo".into()),
        vec!["web".into()],
        ".".into(),
    );
    assert_eq!(p.version, "0.0.1-SNAPSHOT");
    assert_eq!(p.project_type, "maven-project");
    assert_eq!(p.package_name, "com.example.demo");
}
