use tspring::app_state::{AppState, Mode, Resource, ServerDialogPhase};
use tspring::config::TsbConfig;
use tspring::input::Key;
use tspring::model::{AppStatus, Logger, SavedDump};
use tspring::tui::{
    dump_taken, fetch_failed, handle_key, health_progress_message, health_result, local_url,
    logger_level_set, rescan_active, scan_done, scan_found, scan_ports, scan_progress, scan_progress_message, server_saved,
    saved_thread_dump_read, splash_done, splash_progress, splash_start, thread_dump_read, tick, Effect, FetchReason,
    ThreadDumpRead,
};

fn state(apps: &[(&str, &str)]) -> AppState {
    let mut cfg = TsbConfig::default();
    for (n, u) in apps {
        cfg.add_app(n.to_string(), u.to_string());
    }
    let mut s = AppState::new(cfg);
    s.mode = Mode::Normal;
    s
}

fn press(s: &mut AppState, k: Key) -> Effect {
    handle_key(s, k, false, false)
}

#[test]
fn ctrl_c_quits_from_any_mode() {
    let mut s = state(&[]);
    s.mode = Mode::Splash;
    let e = handle_key(&mut s, Key::Char('c'), true, false);
    assert!(s.should_quit);
    assert!(matches!(e, Effect::Done));
}

#[test]
fn filter_typing_and_clearing() {
    let mut s = state(&[("a", "http://a")]);
    press(&mut s, Key::Char('/'));
    assert!(s.filter_active);
    press(&mut s, Key::Char('x'));
    press(&mut s, Key::Char('y'));
    press(&mut s, Key::Backspace);
    assert_eq!(s.filter_text, "x");
    press(&mut s, Key::Enter);
    assert!(!s.filter_active);
    assert_eq!(s.filter_text, "x");
    press(&mut s, Key::Esc);
    assert_eq!(s.filter_text, "");
}

#[test]
fn esc_returns_to_apps_view() {
    let mut s = state(&[]);
    s.active_resource = Resource::Beans;
    press(&mut s, Key::Esc);
    assert_eq!(s.active_resource, Resource::Apps);
}

#[test]
fn double_g_goes_to_top_only_when_recent() {
    let mut s = state(&[("a", "http://1"), ("b", "http://2"), ("c", "http://3")]);
    press(&mut s, Key::Char('G'));
    assert_eq!(s.selected_app_index, 2);
    handle_key(&mut s, Key::Char('g'), false, false);
    assert!(s.last_key_g);
    handle_key(&mut s, Key::Char('g'), false, false);
    assert_eq!(s.selected_app_index, 2);
    assert!(s.last_key_g);
    handle_key(&mut s, Key::Char('g'), false, true);
    assert_eq!(s.selected_app_index, 0);
    assert!(!s.last_key_g);
    press(&mut s, Key::Char('g'));
    press(&mut s, Key::Char('j'));
    assert!(!s.last_key_g);
}

#[test]
fn palette_switch_fetches_resource() {
    let mut s = state(&[("a", "http://1")]);
    press(&mut s, Key::Char(':'));
    assert_eq!(s.mode, Mode::Resources);
    for c in "beans".chars() {
        press(&mut s, Key::Char(c));
    }
    assert_eq!(s.command_suggestions, vec![2]);
    let e = press(&mut s, Key::Enter);
    assert_eq!(s.mode, Mode::Normal);
    assert_eq!(s.active_resource, Resource::Beans);
    assert_eq!(s.command_text, "");
    assert!(matches!(e, Effect::Fetch(Resource::Beans, FetchReason::Switch)));
}

#[test]
fn palette_new_opens_wizard() {
    let mut s = state(&[]);
    press(&mut s, Key::Char(':'));
    for c in ":new".chars() {
        press(&mut s, Key::Char(c));
    }
    let e = press(&mut s, Key::Enter);
    assert!(matches!(e, Effect::LoadMetadata));
    assert_eq!(s.mode, Mode::NewProject);
    assert!(s.new_project_state.loading_metadata);
    press(&mut s, Key::Esc);
    assert_eq!(s.mode, Mode::Normal);
    assert!(!s.new_project_state.loading_metadata);
}

#[test]
fn palette_navigation_wraps() {
    let mut s = state(&[]);
    press(&mut s, Key::Char(':'));
    press(&mut s, Key::Up);
    assert_eq!(s.command_suggestion_selected, 8);
    press(&mut s, Key::Down);
    assert_eq!(s.command_suggestion_selected, 0);
    press(&mut s, Key::Tab);
    assert_eq!(s.command_text, ":apps");
}

#[test]
fn delete_app_flow() {
    let mut s = state(&[("a", "http://1"), ("b", "http://2")]);
    s.selected_app_index = 1;
    s.config.active_app_url = Some("http://2".into());
    handle_key(&mut s, Key::Char('d'), true, false);
    assert_eq!(s.mode, Mode::Confirm);
    assert_eq!(s.modal_title, "Confirm Delete");
    assert_eq!(s.modal_msg, "Delete 'b' (http://2)?");
    let e = press(&mut s, Key::Char('y'));
    assert!(matches!(e, Effect::SaveConfig));
    assert_eq!(s.mode, Mode::Normal);
    assert_eq!(s.apps.len(), 1);
    assert_eq!(s.selected_app_index, 0);
    assert_eq!(s.config.apps.len(), 1);
    assert_eq!(s.config.active_app_url, None);
}

#[test]
fn connecting_to_down_app_shows_error() {
    let mut s = state(&[("orders", "http://1")]);
    s.apps[0].status = AppStatus::Down;
    press(&mut s, Key::Enter);
    assert_eq!(s.mode, Mode::ErrorModal);
    assert_eq!(
        s.error_message.clone().unwrap(),
        "Cannot connect to 'orders'\n\nThe application is DOWN or unreachable.\nCheck that the server is running and try again."
    );
    press(&mut s, Key::Esc);
    assert_eq!(s.mode, Mode::Normal);
}

#[test]
fn connecting_to_app_opens_dashboard() {
    let mut s = state(&[("orders", "http://1")]);
    let e = press(&mut s, Key::Enter);
    assert!(matches!(e, Effect::Fetch(Resource::Dashboard, FetchReason::Switch)));
    assert_eq!(s.active_resource, Resource::Dashboard);
    assert_eq!(s.config.active_app_url, Some("http://1".to_string()));
    let e2 = press(&mut s, Key::Char('V'));
    assert!(matches!(e2, Effect::AttachVisualVm));
}

#[test]
fn describe_and_scroll() {
    let mut s = state(&[("orders", "http://1")]);
    press(&mut s, Key::Char('d'));
    assert_eq!(s.mode, Mode::Describe);
    assert_eq!(s.describe_title, "App: orders");
    assert_eq!(s.describe_content, "Name:    orders\nURL:     http://1\nStatus:  UNKNOWN");
    press(&mut s, Key::Down);
    press(&mut s, Key::Down);
    assert_eq!(s.describe_scroll, 2);
    press(&mut s, Key::End);
    assert_eq!(s.describe_scroll, 32767);
    press(&mut s, Key::Home);
    assert_eq!(s.describe_scroll, 0);
    press(&mut s, Key::Char('q'));
    assert_eq!(s.mode, Mode::Normal);
}

#[test]
fn heap_dump_describe_shows_size() {
    let mut s = state(&[]);
    s.active_resource = Resource::HeapDump;
    s.saved_heap_dumps = vec![SavedDump {
        app_url: "http://1".into(),
        app_name: "".into(),
        path: "/d/heapdump_1.hprof".into(),
        timestamp: "1".into(),
        size_bytes: 3 * 1_048_576 + 524_288,
    }];
    press(&mut s, Key::Char('d'));
    assert_eq!(s.describe_title, "Heap Dump: 1");
    assert_eq!(
        s.describe_content,
        "Path:       /d/heapdump_1.hprof\nSize:       3.5 MB\nTimestamp:  1\nApp:        —\n\nAnalyze with:\n  VisualVM     [v]\n  Eclipse MAT  [m]"
    );
    press(&mut s, Key::Esc);
    assert_eq!(s.mode, Mode::Normal);
    let e = press(&mut s, Key::Char('m'));
    assert!(matches!(e, Effect::OpenInMat(ref p) if p == "/d/heapdump_1.hprof"));
}

#[test]
fn thread_dump_from_apps_view() {
    let mut s = state(&[("orders", "http://1"), ("billing", "http://2")]);
    s.selected_app_index = 1;
    let e = press(&mut s, Key::Char('t'));
    match e {
        Effect::TakeThreadDump { base_url, app_name, from_apps } => {
            assert_eq!(base_url, "http://2");
            assert_eq!(app_name, "billing");
            assert!(from_apps);
        }
        _ => panic!("expected a thread dump request"),
    }
    let e2 = dump_taken(&mut s, false, true, "http://2".into(), "billing".into(), Ok(()));
    assert!(matches!(e2, Effect::RescanDumps { ref app_url, ref app_name } if app_url == "http://2" && app_name == "billing"));
    assert_eq!(s.active_resource, Resource::ThreadDump);
    assert_eq!(s.selected_thread_dump_index, 0);
    let e3 = dump_taken(
        &mut s,
        false,
        false,
        "http://2".into(),
        "billing".into(),
        Err("failed to connect to the application".into()),
    );
    assert!(matches!(e3, Effect::Done));
    assert_eq!(s.mode, Mode::Describe);
    assert_eq!(s.describe_title, "Thread Dump — Error");
}

#[test]
fn heap_dump_without_active_app_is_an_error() {
    let mut s = state(&[]);
    s.active_resource = Resource::HeapDump;
    let e = press(&mut s, Key::Char('h'));
    assert!(matches!(e, Effect::Done));
    assert_eq!(s.describe_title, "Heap Dump — Error");
    assert_eq!(s.describe_content, "no active app selected");
}

#[test]
fn thread_dump_read_outcomes() {
    let mut s = state(&[]);
    s.active_resource = Resource::ThreadDump;
    thread_dump_read(&mut s, "/d/t.json", "orders", "20260101_000000", ThreadDumpRead::Parsed(vec![]));
    assert_eq!(s.mode, Mode::ThreadViz);
    assert_eq!(s.thread_viz_title, "Thread Dump: orders — 20260101_000000");
    thread_dump_read(&mut s, "/d/t.txt", "orders", "old", ThreadDumpRead::Text("raw".into()));
    assert_eq!(s.describe_title, "Thread Dump: old");
    assert_eq!(s.describe_content, "raw");
    thread_dump_read(&mut s, "/d/x", "orders", "old", ThreadDumpRead::Failed("gone".into()));
    assert_eq!(s.describe_content, "Failed to read /d/x: gone");
}

#[test]
fn refresh_effects() {
    let mut s = state(&[("a", "http://1")]);
    assert!(matches!(press(&mut s, Key::Char('R')), Effect::CheckAllApps));
    s.active_resource = Resource::Env;
    assert!(matches!(press(&mut s, Key::Char('R')), Effect::Fetch(Resource::Env, FetchReason::Refresh)));
    s.active_resource = Resource::ThreadDump;
    assert!(matches!(press(&mut s, Key::Char('R')), Effect::Done));
}

#[test]
fn fetch_failure_messages() {
    let mut s = state(&[]);
    fetch_failed(&mut s, Resource::Loggers, FetchReason::Switch, "timeout");
    assert_eq!(s.error_message, Some("Failed to fetch loggers: timeout".to_string()));
    fetch_failed(&mut s, Resource::Loggers, FetchReason::Refresh, "timeout");
    assert_eq!(s.error_message, Some("Refresh failed: timeout".to_string()));
}

#[test]
fn edit_logger_flow() {
    let mut s = state(&[]);
    s.active_resource = Resource::Loggers;
    s.loggers = vec![Logger { name: "ROOT".into(), configured_level: None, effective_level: "WARN".into() }];
    press(&mut s, Key::Char('e'));
    assert_eq!(s.mode, Mode::EditLogger);
    assert_eq!(s.edit_logger_state.selected_level_index, 3);
    press(&mut s, Key::Down);
    press(&mut s, Key::Down);
    press(&mut s, Key::Down);
    assert_eq!(s.edit_logger_state.selected_level_index, 5);
    let e = press(&mut s, Key::Enter);
    match e {
        Effect::SetLoggerLevel { name, level } => {
            assert_eq!(name, "ROOT");
            assert_eq!(level, "OFF");
        }
        _ => panic!("expected a level change"),
    }
    logger_level_set(&mut s, "ROOT", "ERROR", Err("status 500".into()));
    assert_eq!(s.edit_logger_state.error, Some("Failed: status 500".to_string()));
    logger_level_set(&mut s, "ROOT", "ERROR", Ok(()));
    assert_eq!(s.mode, Mode::Normal);
    assert_eq!(s.loggers[0].configured_level, Some("ERROR".to_string()));
}

#[test]
fn server_dialog_manual_entry() {
    let mut s = state(&[]);
    s.mode = Mode::ServerDialog;
    press(&mut s, Key::Enter);
    assert_eq!(s.server_dialog_state.phase, ServerDialogPhase::ManualEntry);
    press(&mut s, Key::Enter);
    assert_eq!(s.server_dialog_state.error, Some("Please fill in all fields".to_string()));
    for c in " orders ".chars() {
        press(&mut s, Key::Char(c));
    }
    press(&mut s, Key::Tab);
    for c in "localhost:8080".chars() {
        press(&mut s, Key::Char(c));
    }
    press(&mut s, Key::Enter);
    assert_eq!(
        s.server_dialog_state.error,
        Some("URL must start with http:// or https://".to_string())
    );
    for _ in 0.."localhost:8080".len() {
        press(&mut s, Key::Backspace);
    }
    for c in "http://localhost:8080".chars() {
        press(&mut s, Key::Char(c));
    }
    let e = press(&mut s, Key::Enter);
    match e {
        Effect::SaveNewServer { name, url, status } => {
            assert_eq!(name, "orders");
            assert_eq!(url, "http://localhost:8080");
            assert_eq!(status, AppStatus::Unknown);
            let e2 = server_saved(&mut s, name, url, status, Ok(()));
            assert!(matches!(e2, Effect::CheckApp(0)));
        }
        _ => panic!("expected a save"),
    }
    assert_eq!(s.apps.len(), 1);
    assert_eq!(s.config.apps.len(), 1);
    assert_eq!(s.mode, Mode::Normal);
}

#[test]
fn server_dialog_scan_flow() {
    let mut s = state(&[]);
    s.mode = Mode::ServerDialog;
    press(&mut s, Key::Down);
    let e = press(&mut s, Key::Enter);
    assert!(matches!(e, Effect::StartScan));
    assert_eq!(s.server_dialog_state.scan_progress, "Starting scan...");
    scan_progress(&mut s, "Scanning port 1/16 (:8080)...".into());
    scan_found(&mut s, "http://localhost:8081".into(), 8081, AppStatus::Up);
    scan_done(&mut s);
    assert_eq!(s.server_dialog_state.phase, ServerDialogPhase::ScanResults);
    assert_eq!(s.server_dialog_state.scan_progress, "Scan complete.");
    let e2 = press(&mut s, Key::Enter);
    match e2 {
        Effect::SaveNewServer { name, url, status } => {
            assert_eq!(name, "localhost:8081");
            assert_eq!(url, "http://localhost:8081");
            assert_eq!(status, AppStatus::Up);
            server_saved(&mut s, name, url, status, Err("disk full".into()));
            assert_eq!(s.server_dialog_state.error, Some("Failed to save: disk full".to_string()));
        }
        _ => panic!("expected a save"),
    }
    press(&mut s, Key::Esc);
    assert_eq!(s.server_dialog_state.phase, ServerDialogPhase::ChooseMethod);
    press(&mut s, Key::Esc);
    assert!(s.should_quit);
}

#[test]
fn splash_and_health_events() {
    let mut s = state(&[("a", "http://1")]);
    splash_start(&mut s);
    assert_eq!(s.mode, Mode::Splash);
    assert_eq!(s.splash_state.current_message, "Checking application health...");
    splash_progress(&mut s, "step".into());
    assert_eq!(s.splash_state.current_step, 1);
    for _ in 0..10 {
        splash_progress(&mut s, "more".into());
    }
    assert_eq!(s.splash_state.current_step, 5);
    tick(&mut s);
    assert_eq!(s.splash_state.spinner_frame, 1);
    assert_eq!(s.spinner_frame, 1);
    let e = health_result(&mut s, 0, AppStatus::Up, Some("orders".into()));
    assert!(matches!(e, Effect::SaveConfig));
    assert_eq!(s.apps[0].name, "orders");
    assert_eq!(s.apps[0].status, AppStatus::Up);
    assert_eq!(s.config.apps[0].name, "orders");
    let e2 = health_result(&mut s, 7, AppStatus::Down, None);
    assert!(matches!(e2, Effect::Done));
    splash_done(&mut s);
    assert_eq!(s.mode, Mode::Normal);
    assert!(s.splash_state.done);
    let mut empty = state(&[]);
    splash_done(&mut empty);
    assert_eq!(empty.mode, Mode::ServerDialog);
}

#[test]
fn scan_helpers() {
    let ports = scan_ports();
    assert_eq!(ports.len(), 16);
    assert_eq!(ports[0], 8080);
    assert_eq!(ports[11], 8443);
    assert_eq!(ports[15], 5000);
    assert_eq!(scan_progress_message(0, 16, 8080), "Scanning port 1/16 (:8080)...");
    assert_eq!(local_url(9090), "http://localhost:9090");
    assert_eq!(health_progress_message(1, 3, "http://x"), "Checking health 2/3  http://x");
}

#[test]
fn dumps_are_read_for_the_active_application() {
    let mut s = state(&[("orders", "http://1"), ("billing", "http://2")]);
    s.selected_app_index = 1;
    assert!(matches!(rescan_active(&s), Effect::RescanDumps { ref app_url, ref app_name }
        if app_url == "http://2" && app_name == "billing"));
    s.config.active_app_url = Some("http://1".into());
    assert!(matches!(rescan_active(&s), Effect::RescanDumps { ref app_url, ref app_name }
        if app_url == "http://1" && app_name == "orders"));
    let empty = state(&[]);
    assert!(matches!(rescan_active(&empty), Effect::RescanDumps { ref app_url, ref app_name }
        if app_url.is_empty() && app_name == "No server"));
}

#[test]
fn palette_switch_to_dumps_reads_the_active_dumps() {
    let mut s = state(&[("orders", "http://1")]);
    press(&mut s, Key::Char(':'));
    for c in "threaddump".chars() {
        press(&mut s, Key::Char(c));
    }
    let e = press(&mut s, Key::Enter);
    assert_eq!(s.active_resource, Resource::ThreadDump);
    assert!(matches!(e, Effect::RescanDumps { ref app_url, ref app_name }
        if app_url == "http://1" && app_name == "orders"));
}

#[test]
fn q_quits_from_the_main_view() {
    let mut s = state(&[("a", "http://a")]);
    let e = press(&mut s, Key::Char('q'));
    assert!(s.should_quit);
    assert!(matches!(e, Effect::Done));
    // While the filter is typed, `q` is a letter of it.
    let mut t = state(&[("a", "http://a")]);
    press(&mut t, Key::Char('/'));
    press(&mut t, Key::Char('q'));
    assert!(!t.should_quit);
    assert_eq!(t.filter_text, "q");
}

#[test]
fn backspace_goes_back() {
    let mut s = state(&[("orders", "http://1")]);
    s.active_resource = Resource::Beans;
    press(&mut s, Key::Backspace);
    assert_eq!(s.active_resource, Resource::Apps);
    press(&mut s, Key::Char('d'));
    assert_eq!(s.mode, Mode::Describe);
    press(&mut s, Key::Backspace);
    assert_eq!(s.mode, Mode::Normal);
}

#[test]
fn plain_d_past_the_end_does_nothing() {
    let mut s = state(&[("orders", "http://1")]);
    s.selected_app_index = 5;
    press(&mut s, Key::Char('d'));
    assert_eq!(s.mode, Mode::Normal);
}

#[test]
fn saved_thread_dump_text_is_decoded() {
    let mut s = state(&[]);
    s.active_resource = Resource::ThreadDump;
    let json = r#"{"threads":[{"threadName":"worker","threadId":2,"threadState":"WAITING","stackTrace":[]},
        {"threadName":"main","threadId":1,"threadState":"RUNNABLE","stackTrace":[]}]}"#;
    saved_thread_dump_read(&mut s, "/d/t.json", "orders", "ts", Ok(json.to_string()));
    assert_eq!(s.mode, Mode::ThreadViz);
    assert_eq!(s.parsed_threads.len(), 2);
    assert_eq!(s.parsed_threads[0].name, "main");
    assert_eq!(s.thread_viz_title, "Thread Dump: orders — ts");
    saved_thread_dump_read(&mut s, "/d/t.txt", "orders", "old", Ok("plain text".to_string()));
    assert_eq!(s.mode, Mode::Describe);
    assert_eq!(s.describe_content, "plain text");
    saved_thread_dump_read(&mut s, "/d/x", "orders", "old", Err("gone".to_string()));
    assert_eq!(s.describe_content, "Failed to read /d/x: gone");
}
