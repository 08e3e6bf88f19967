//! The decisions of the full-screen front end: what each key does in each
//! mode, what each finished background task changes, and what outside work
//! the front end has to do next.

use vstd::prelude::*;

use crate::actuator::{apply_logger_level, bean_views, endpoint_views, env_views, logger_views, mapping_views, with_level};
use crate::app_state::{
    active_app_url_spec, active_index_spec, app_with_url, filtered_spec, level_index, level_position,
    next_target, previous_target, server_dialog_default_spec, server_name_spec, suggestions_spec,
    with_active_index, AppState, DiscoveredApp, EditLoggerState, Mode, Resource, ServerDialogState,
};
use crate::config::{has_url, law_remove_removes, saved_views, with_app, without_url, TsbConfig};
use crate::app_state::{
    SplashState, WizardStep, app_views, resource_key_spec, command_resource, command_resource_spec, log_level, log_levels, selected_command_spec,
    wizard_default_spec, NewProjectWizardState, ServerDialogPhase, ResourceItem, LOG_LEVEL_COUNT,
};
use crate::wizard::{handle_new_project_key, wizard_key_spec, WizardAction};
use crate::dumps::{dump_views, replace_spec, thread_dump_text_path};
use crate::input::Key;
use crate::display::{push_tenths, rounded_tenths, tenths_text};
use crate::model::{
    Bean, Endpoint, EnvProperty, Logger, Mapping,
    opt_view, status_label, AppStatus, InitializrMetadata, NewProjectParams, SavedDump, SpringApp,
    ThreadInfo,
};
use crate::text::{
    decimal, owned, pop_char, push_char, push_decimal, push_str, starts_with_seq, str_eq,
    str_starts_with, trim, trimmed, without_last,
};
use crate::thread_dump::{
    parse_thread_dump, thread_detail, thread_detail_spec, thread_title, thread_title_spec, thread_views, threads_spec,
};
use crate::json::{parse_json, parsed_json};

verus! {

/// Why a resource is fetched; it decides the message of a failure.
#[derive(Debug, Clone, Copy, PartialEq, Eq, Structural)]
pub enum FetchReason {
    /// `R` pressed on the resource.
    Refresh,
    /// The resource was chosen in the palette, or an app was connected.
    Switch,
}

/// Outside work the front end has to do after a key or an event.
#[derive(Debug)]
pub enum Effect {
    /// Nothing.
    Done,
    /// Check the health (and name) of every listed application.
    CheckAllApps,
    /// Check the health (and name) of the application at this position.
    CheckApp(usize),
    /// Fetch a resource of the active application.
    Fetch(Resource, FetchReason),
    /// Take a thread dump of the application at `base_url`, recorded under
    /// `app_name`; `from_apps` when asked from the apps view.
    TakeThreadDump { base_url: String, app_name: String, from_apps: bool },
    /// Download a heap dump, as for thread dumps.
    TakeHeapDump { base_url: String, app_name: String, from_apps: bool },
    /// Read a saved thread dump to show it.
    ReadThreadDump { path: String, app_name: String, timestamp: String },
    /// Read the dump directory of the application at `app_url`, recorded
    /// under `app_name`, again.
    RescanDumps { app_url: String, app_name: String },
    /// Open a heap dump in VisualVM.
    OpenInVisualVm(String),
    /// Open a thread dump's JVM text file in VisualVM, if it exists.
    OpenThreadDumpInVisualVm(String),
    /// Open a heap dump in Eclipse Memory Analyzer.
    OpenInMat(String),
    /// Attach VisualVM to the active application's process.
    AttachVisualVm,
    /// Scan local ports for applications.
    StartScan,
    /// Save the configuration after adding an application, then report.
    SaveNewServer { name: String, url: String, status: AppStatus },
    /// Save the configuration.
    SaveConfig,
    /// Ask the active application to set a logger's level.
    SetLoggerLevel { name: String, level: String },
    /// Load the Initializr metadata.
    LoadMetadata,
    /// Generate a project.
    Generate(NewProjectParams),
}

/// `e` reads again the dump directory of the active application: its URL
/// (empty when there is none) and its name.
pub open spec fn rescans_active(s: AppState, e: Effect) -> bool {
    e matches Effect::RescanDumps { app_url, app_name } && app_url@ == (match active_app_url_spec(s) {
        Some(u) => u,
        None => Seq::empty(),
    }) && app_name@ == server_name_spec(s)
}

/// The effect that reads the active application's dump directory again.
pub fn rescan_active(s: &AppState) -> (e: Effect)
    ensures
        rescans_active(*s, e),
{
    let app_url = match s.active_app_url() {
        Some(u) => u,
        None => String::new(),
    };
    Effect::RescanDumps { app_url, app_name: s.current_server_name() }
}

// ---------------------------------------------------------------------------
// Describing the selected entry
// ---------------------------------------------------------------------------

/// The describe panel's title and text for the selected entry of the
/// active list, when it exists (dumps of threads are shown otherwise).
pub open spec fn describe_text(s: AppState) -> Option<(Seq<char>, Seq<char>)> {
    match s.active_resource {
        Resource::Apps => if s.selected_app_index < s.apps@.len() {
            let a = s.apps@[s.selected_app_index as int];
            Some(
                (
                    "App: "@ + a.name@,
                    "Name:    "@ + a.name@ + "\nURL:     "@ + a.url@ + "\nStatus:  "@ + status_label(
                        a.status,
                    ),
                ),
            )
        } else {
            None
        },
        Resource::Endpoints => if s.selected_endpoint_index < s.endpoints@.len() {
            let e = s.endpoints@[s.selected_endpoint_index as int];
            Some(("Endpoint: "@ + e.name@, "Name:  "@ + e.name@ + "\nURL:   "@ + e.url@))
        } else {
            None
        },
        Resource::Beans => if s.selected_bean_index < s.beans@.len() {
            let b = s.beans@[s.selected_bean_index as int];
            Some(
                (
                    "Bean: "@ + b.name@,
                    "Name:   "@ + b.name@ + "\nType:   "@ + b.bean_type@ + "\nScope:  "@ + b.scope@,
                ),
            )
        } else {
            None
        },
        Resource::Loggers => if s.selected_logger_index < s.loggers@.len() {
            let l = s.loggers@[s.selected_logger_index as int];
            let configured = match l.configured_level {
                Some(c) => c@,
                None => "(not set)"@,
            };
            Some(
                (
                    "Logger: "@ + l.name@,
                    "Name:              "@ + l.name@ + "\nConfigured Level:  "@ + configured
                        + "\nEffective Level:   "@ + l.effective_level@,
                ),
            )
        } else {
            None
        },
        Resource::Mappings => if s.selected_mapping_index < s.mappings@.len() {
            let m = s.mappings@[s.selected_mapping_index as int];
            Some(("Mapping"@, "Pattern:  "@ + m.pattern@ + "\nHandler:  "@ + m.handler@))
        } else {
            None
        },
        Resource::Env => if s.selected_env_index < s.env_props@.len() {
            let e = s.env_props@[s.selected_env_index as int];
            Some(
                (
                    "Env: "@ + e.name@,
                    "Name:    "@ + e.name@ + "\nValue:   "@ + e.value@ + "\nSource:  "@ + e.source@,
                ),
            )
        } else {
            None
        },
        Resource::HeapDump => if s.selected_heap_dump_index < s.saved_heap_dumps@.len() {
            let d = s.saved_heap_dumps@[s.selected_heap_dump_index as int];
            Some(
                (
                    "Heap Dump: "@ + d.timestamp@,
                    "Path:       "@ + d.path@ + "\nSize:       "@ + tenths_text(
                        rounded_tenths(d.size_bytes as nat, 1048576),
                    ) + " MB\nTimestamp:  "@ + d.timestamp@ + "\nApp:        "@ + (if d.app_name@.len()
                        == 0 {
                        "—"@
                    } else {
                        d.app_name@
                    }) + "\n\nAnalyze with:\n  VisualVM     [v]\n  Eclipse MAT  [m]"@,
                ),
            )
        } else {
            None
        },
        Resource::ThreadDump | Resource::Dashboard => None,
    }
}

/// The state showing a text in the describe panel, scrolled to the top.
pub open spec fn describing(s: AppState, title: Seq<char>, content: Seq<char>, n: AppState) -> bool {
    &&& n == AppState {
        describe_title: n.describe_title,
        describe_content: n.describe_content,
        describe_scroll: 0,
        mode: Mode::Describe,
        ..s
    }
    &&& n.describe_title@ == title
    &&& n.describe_content@ == content
}

/// What describing the selected entry does: a saved thread dump is read to
/// be shown; any other existing entry is shown in the describe panel.
pub open spec fn describe_spec(s: AppState, n: AppState, e: Effect) -> bool {
    if s.active_resource == Resource::ThreadDump {
        n == s && if s.selected_thread_dump_index < s.saved_thread_dumps@.len() {
            let d = s.saved_thread_dumps@[s.selected_thread_dump_index as int];
            e matches Effect::ReadThreadDump { path, app_name, timestamp } && path@ == d.path@
                && app_name@ == d.app_name@ && timestamp@ == d.timestamp@
        } else {
            e is Done
        }
    } else {
        e is Done && match describe_text(s) {
            Some((t, c)) => describing(s, t, c, n),
            None => n == s,
        }
    }
}

fn show_text(s: &mut AppState, title: String, content: String)
    ensures
        describing(*old(s), title@, content@, *final(s)),
{
    s.describe_title = title;
    s.describe_content = content;
    s.describe_scroll = 0;
    s.mode = Mode::Describe;
}

fn cat(parts: &[&str]) -> (r: String)
    ensures
        r@ == concat_strs(parts@),
{
    let mut out = String::new();
    let mut i: usize = 0;
    while i < parts.len()
        invariant
            i <= parts@.len(),
            out@ == concat_strs(parts@.take(i as int)),
        decreases parts@.len() - i,
    {
        let ghost before = out@;
        push_str(&mut out, parts[i]);
        proof {
            assert(parts@.take(i + 1).drop_last() =~= parts@.take(i as int));
            if i == 0 {
                assert(before =~= Seq::<char>::empty());
                assert(out@ =~= parts@[0]@);
            }
        }
        i += 1;
    }
    proof {
        assert(parts@.take(i as int) =~= parts@);
    }
    out
}

/// The texts of a list of string slices, joined.
pub open spec fn concat_strs(parts: Seq<&str>) -> Seq<char>
    decreases parts.len(),
{
    if parts.len() == 0 {
        Seq::empty()
    } else if parts.len() == 1 {
        parts[0]@
    } else {
        concat_strs(parts.drop_last()) + parts.last()@
    }
}

fn status_str(st: AppStatus) -> (r: &'static str)
    ensures
        r@ == status_label(st),
{
    match st {
        AppStatus::Up => "UP",
        AppStatus::Down => "DOWN",
        AppStatus::Unknown => "UNKNOWN",
    }
}

/// Describes the selected entry of the active list.
pub fn handle_describe(s: &mut AppState) -> (e: Effect)
    ensures
        describe_spec(*old(s), *final(s), e),
{
    match s.active_resource {
        Resource::ThreadDump => {
            if s.selected_thread_dump_index < s.saved_thread_dumps.len() {
                let d = &s.saved_thread_dumps[s.selected_thread_dump_index];
                return Effect::ReadThreadDump {
                    path: d.path.clone(),
                    app_name: d.app_name.clone(),
                    timestamp: d.timestamp.clone(),
                };
            }
            Effect::Done
        },
        Resource::Apps => {
            if s.selected_app_index < s.apps.len() {
                let a = &s.apps[s.selected_app_index];
                let t = cat(&["App: ", a.name.as_str()]);
                let c = cat(
                    &[
                        "Name:    ",
                        a.name.as_str(),
                        "\nURL:     ",
                        a.url.as_str(),
                        "\nStatus:  ",
                        status_str(a.status),
                    ],
                );
                proof {
                    reveal_with_fuel(concat_strs, 7);
                }
                show_text(s, t, c);
            }
            Effect::Done
        },
        Resource::Endpoints => {
            if s.selected_endpoint_index < s.endpoints.len() {
                let e = &s.endpoints[s.selected_endpoint_index];
                let t = cat(&["Endpoint: ", e.name.as_str()]);
                let c = cat(&["Name:  ", e.name.as_str(), "\nURL:   ", e.url.as_str()]);
                proof {
                    reveal_with_fuel(concat_strs, 5);
                }
                show_text(s, t, c);
            }
            Effect::Done
        },
        Resource::Beans => {
            if s.selected_bean_index < s.beans.len() {
                let b = &s.beans[s.selected_bean_index];
                let t = cat(&["Bean: ", b.name.as_str()]);
                let c = cat(
                    &[
                        "Name:   ",
                        b.name.as_str(),
                        "\nType:   ",
                        b.bean_type.as_str(),
                        "\nScope:  ",
                        b.scope.as_str(),
                    ],
                );
                proof {
                    reveal_with_fuel(concat_strs, 7);
                }
                show_text(s, t, c);
            }
            Effect::Done
        },
        Resource::Loggers => {
            if s.selected_logger_index < s.loggers.len() {
                let l = &s.loggers[s.selected_logger_index];
                let configured = match &l.configured_level {
                    Some(c) => c.as_str(),
                    None => "(not set)",
                };
                let t = cat(&["Logger: ", l.name.as_str()]);
                let c = cat(
                    &[
                        "Name:              ",
                        l.name.as_str(),
                        "\nConfigured Level:  ",
                        configured,
                        "\nEffective Level:   ",
                        l.effective_level.as_str(),
                    ],
                );
                proof {
                    reveal_with_fuel(concat_strs, 7);
                }
                show_text(s, t, c);
            }
            Effect::Done
        },
        Resource::Mappings => {
            if s.selected_mapping_index < s.mappings.len() {
                let m = &s.mappings[s.selected_mapping_index];
                let t = owned("Mapping");
                let c = cat(&["Pattern:  ", m.pattern.as_str(), "\nHandler:  ", m.handler.as_str()]);
                proof {
                    reveal_with_fuel(concat_strs, 5);
                }
                show_text(s, t, c);
            }
            Effect::Done
        },
        Resource::Env => {
            if s.selected_env_index < s.env_props.len() {
                let e = &s.env_props[s.selected_env_index];
                let t = cat(&["Env: ", e.name.as_str()]);
                let c = cat(
                    &[
                        "Name:    ",
                        e.name.as_str(),
                        "\nValue:   ",
                        e.value.as_str(),
                        "\nSource:  ",
                        e.source.as_str(),
                    ],
                );
                proof {
                    reveal_with_fuel(concat_strs, 7);
                }
                show_text(s, t, c);
            }
            Effect::Done
        },
        Resource::HeapDump => {
            if s.selected_heap_dump_index < s.saved_heap_dumps.len() {
                let d = &s.saved_heap_dumps[s.selected_heap_dump_index];
                let t = cat(&["Heap Dump: ", d.timestamp.as_str()]);
                let mut c = cat(&["Path:       ", d.path.as_str(), "\nSize:       "]);
                push_tenths(&mut c, d.size_bytes, 1048576);
                let app = if d.app_name.as_str().is_empty() {
                    "—"
                } else {
                    d.app_name.as_str()
                };
                let rest = cat(
                    &[
                        " MB\nTimestamp:  ",
                        d.timestamp.as_str(),
                        "\nApp:        ",
                        app,
                        "\n\nAnalyze with:\n  VisualVM     [v]\n  Eclipse MAT  [m]",
                    ],
                );
                push_str(&mut c, rest.as_str());
                proof {
                    reveal_with_fuel(concat_strs, 6);
                    let ap = if d.app_name@.len() == 0 {
                        "—"@
                    } else {
                        d.app_name@
                    };
                    assert(c@ =~= "Path:       "@ + d.path@ + "\nSize:       "@ + tenths_text(
                        rounded_tenths(d.size_bytes as nat, 1048576),
                    ) + " MB\nTimestamp:  "@ + d.timestamp@ + "\nApp:        "@ + ap
                        + "\n\nAnalyze with:\n  VisualVM     [v]\n  Eclipse MAT  [m]"@);
                }
                show_text(s, t, c);
            }
            Effect::Done
        },
        Resource::Dashboard => Effect::Done,
    }
}

// ---------------------------------------------------------------------------
// Errors and names
// ---------------------------------------------------------------------------

/// The state showing an error in the error modal (see `show_error`).
pub open spec fn with_error(s: AppState, msg: Seq<char>, n: AppState) -> bool {
    &&& n == AppState {
        mode: Mode::ErrorModal,
        error_message: n.error_message,
        error_prev_mode: if s.mode == Mode::ErrorModal {
            s.error_prev_mode
        } else {
            Some(s.mode)
        },
        ..s
    }
    &&& n.error_message matches Some(m) && m@ == msg
}

/// The name dumps of the application at `url` are recorded under: that of
/// the first application with the URL, else that of the selected one, else
/// `No server`.
pub open spec fn name_for_url(s: AppState, url: Seq<char>) -> Seq<char> {
    match app_with_url(s.apps@, url, 0) {
        Some(k) => s.apps@[k].name@,
        None => if s.selected_app_index < s.apps@.len() {
            s.apps@[s.selected_app_index as int].name@
        } else {
            "No server"@
        },
    }
}

fn name_for_url_exec(s: &AppState, url: &str) -> (r: String)
    ensures
        r@ == name_for_url(*s, url@),
{
    let mut i: usize = 0;
    while i < s.apps.len()
        invariant
            i <= s.apps@.len(),
            app_with_url(s.apps@, url@, 0) == app_with_url(s.apps@, url@, i as int),
        decreases s.apps@.len() - i,
    {
        if str_eq(s.apps[i].url.as_str(), url) {
            proof {
                assert(app_with_url(s.apps@, url@, i as int) == Some(i as int));
            }
            return s.apps[i].name.clone();
        }
        i += 1;
    }
    if s.selected_app_index < s.apps.len() {
        s.apps[s.selected_app_index].name.clone()
    } else {
        owned("No server")
    }
}

// ---------------------------------------------------------------------------
// The main view's keys
// ---------------------------------------------------------------------------

/// The message for connecting to an application that is down.
pub open spec fn down_message(name: Seq<char>) -> Seq<char> {
    "Cannot connect to '"@ + name
        + "'\n\nThe application is DOWN or unreachable.\nCheck that the server is running and try again."@
}

/// What `R` refreshes: the applications' health, or the active resource
/// (nothing for saved dumps).
pub open spec fn refresh_effect(r: Resource, e: Effect) -> bool {
    match r {
        Resource::Apps => e is CheckAllApps,
        Resource::ThreadDump | Resource::HeapDump => e is Done,
        _ => e matches Effect::Fetch(x, why) && x == r && why == FetchReason::Refresh,
    }
}

/// What asking for a dump does in the main view: from the apps view, the
/// hovered application's dump; from the dump's own view, the active
/// application's (an error shown when there is none).
pub open spec fn dump_key(s: AppState, heap: bool, n: AppState, e: Effect) -> bool {
    let own = if heap {
        Resource::HeapDump
    } else {
        Resource::ThreadDump
    };
    if s.active_resource == Resource::Apps && s.apps@.len() > 0 {
        let url = s.apps@[s.selected_app_index as int].url@;
        n == s && if heap {
            e matches Effect::TakeHeapDump { base_url, app_name, from_apps } && base_url@ == url
                && app_name@ == name_for_url(s, url) && from_apps
        } else {
            e matches Effect::TakeThreadDump { base_url, app_name, from_apps } && base_url@ == url
                && app_name@ == name_for_url(s, url) && from_apps
        }
    } else if s.active_resource == own {
        match active_app_url_spec(s) {
            Some(url) => n == s && if heap {
                e matches Effect::TakeHeapDump { base_url, app_name, from_apps } && base_url@
                    == url && app_name@ == server_name_spec(s) && !from_apps
            } else {
                e matches Effect::TakeThreadDump { base_url, app_name, from_apps } && base_url@
                    == url && app_name@ == server_name_spec(s) && !from_apps
            },
            None => e is Done && describing(
                s,
                if heap {
                    "Heap Dump — Error"@
                } else {
                    "Thread Dump — Error"@
                },
                "no active app selected"@,
                n,
            ),
        }
    } else {
        n == s && e is Done
    }
}

/// What a key does in the main view while the filter is typed.
pub open spec fn filter_typing_key(s: AppState, key: Key, n: AppState) -> bool {
    match key {
        Key::Enter => n == AppState { filter_active: false, ..s },
        Key::Esc => n == AppState { filter_active: false, filter_text: n.filter_text, ..s }
            && n.filter_text@.len() == 0,
        Key::Backspace => n == AppState { filter_text: n.filter_text, ..s } && n.filter_text@
            == without_last(s.filter_text@),
        Key::Char(c) => n == AppState { filter_text: n.filter_text, ..s } && n.filter_text@
            == s.filter_text@.push(c),
        _ => n == s,
    }
}

/// The state after a move of the selection to `target`, if any.
pub open spec fn moved(s: AppState, target: Option<usize>) -> AppState {
    match target {
        Some(t) => with_active_index(s, t),
        None => s,
    }
}

/// The first entry of the filtered list, if any.
pub open spec fn top_target(s: AppState) -> Option<usize> {
    if filtered_spec(s).len() > 0 {
        Some(filtered_spec(s)[0])
    } else {
        None
    }
}

/// The last entry of the filtered list, if any.
pub open spec fn bottom_target(s: AppState) -> Option<usize> {
    if filtered_spec(s).len() > 0 {
        Some(filtered_spec(s).last())
    } else {
        None
    }
}

/// What a key does in the main view, apart from remembering a `g`: Esc
/// and Backspace clear the filter or go back to the applications, `q`
/// quits, and the other keys act on the list.
pub open spec fn normal_core(s: AppState, key: Key, ctrl: bool, g_recent: bool, n: AppState, e: Effect) -> bool {
    let apps_view = s.active_resource == Resource::Apps;
    match key {
        Key::Esc | Key::Backspace => e is Done && if s.filter_text@.len() > 0 {
            n == AppState { filter_text: n.filter_text, ..s } && n.filter_text@.len() == 0
        } else if !apps_view {
            n == AppState {
                active_resource: Resource::Apps,
                filter_text: n.filter_text,
                filter_active: false,
                ..s
            } && n.filter_text@.len() == 0
        } else {
            n == s
        },
        Key::Char('q') => e is Done && n == AppState { should_quit: true, ..s },
        Key::Char('j') | Key::Down => e is Done && n == moved(s, next_target(s)),
        Key::Char('k') | Key::Up => e is Done && n == moved(s, previous_target(s)),
        Key::Char('g') => e is Done && n == (if s.last_key_g && g_recent {
            moved(s, top_target(s))
        } else {
            s
        }),
        Key::Char('G') | Key::End => e is Done && n == moved(s, bottom_target(s)),
        Key::Home => e is Done && n == moved(s, top_target(s)),
        Key::Char(':') => e is Done && n == AppState {
            mode: Mode::Resources,
            command_text: n.command_text,
            command_suggestions: n.command_suggestions,
            command_suggestion_selected: 0,
            ..s
        } && n.command_text@.len() == 0 && n.command_suggestions@ == suggestions_spec(
            AppState { command_text: n.command_text, ..s },
        ),
        Key::Char('/') => e is Done && n == AppState {
            filter_active: true,
            filter_text: n.filter_text,
            ..s
        } && n.filter_text@.len() == 0,
        Key::Char('a') => e is Done && if apps_view {
            n == AppState {
                server_dialog_state: n.server_dialog_state,
                mode: Mode::ServerDialog,
                ..s
            } && server_dialog_default_spec(n.server_dialog_state)
        } else {
            n == s
        },
        Key::Char('d') => if ctrl {
            e is Done && if apps_view && s.apps@.len() > 0 {
                let a = s.apps@[s.selected_app_index as int];
                n == AppState {
                    modal_title: n.modal_title,
                    modal_msg: n.modal_msg,
                    mode: Mode::Confirm,
                    ..s
                } && n.modal_title@ == "Confirm Delete"@ && n.modal_msg@ == "Delete '"@ + a.name@
                    + "' ("@ + a.url@ + ")?"@
            } else {
                n == s
            }
        } else {
            describe_spec(s, n, e)
        },
        Key::Char('R') => n == s && refresh_effect(s.active_resource, e),
        Key::Char('e') => e is Done && if s.active_resource == Resource::Loggers && s.loggers@.len()
            > 0 {
            let l = s.loggers@[s.selected_logger_index as int];
            n == AppState { edit_logger_state: n.edit_logger_state, mode: Mode::EditLogger, ..s }
                && n.edit_logger_state.logger_name@ == l.name@
                && n.edit_logger_state.current_level@ == l.effective_level@
                && n.edit_logger_state.selected_level_index == level_position(l.effective_level@)
                && n.edit_logger_state.error is None
        } else {
            n == s
        },
        Key::Char('t') => dump_key(s, false, n, e),
        Key::Char('h') => dump_key(s, true, n, e),
        Key::Enter => if apps_view && s.apps@.len() > 0 {
            let a = s.apps@[s.selected_app_index as int];
            if a.status == AppStatus::Down {
                e is Done && with_error(s, down_message(a.name@), n)
            } else {
                (e matches Effect::Fetch(r, why) && r == Resource::Dashboard && why
                    == FetchReason::Switch) && n == AppState {
                    config: TsbConfig { active_app_url: n.config.active_app_url, ..s.config },
                    active_resource: Resource::Dashboard,
                    filter_text: n.filter_text,
                    filter_active: false,
                    ..s
                } && opt_view(n.config.active_app_url) == Some(a.url@) && n.filter_text@.len()
                    == 0
            }
        } else {
            describe_spec(s, n, e)
        },
        Key::Char('v') => n == s && if s.active_resource == Resource::HeapDump
            && s.saved_heap_dumps@.len() > 0 {
            e matches Effect::OpenInVisualVm(p) && p@ == s.saved_heap_dumps@[s.selected_heap_dump_index as int].path@
        } else if s.active_resource == Resource::ThreadDump && s.saved_thread_dumps@.len() > 0 {
            e matches Effect::OpenThreadDumpInVisualVm(p) && p@ == replace_spec(
                replace_spec(
                    s.saved_thread_dumps@[s.selected_thread_dump_index as int].path@,
                    ".json"@,
                    ".tdump"@,
                ),
                ".txt"@,
                ".tdump"@,
            )
        } else {
            e is Done
        },
        Key::Char('m') => n == s && if s.active_resource == Resource::HeapDump
            && s.saved_heap_dumps@.len() > 0 {
            e matches Effect::OpenInMat(p) && p@ == s.saved_heap_dumps@[s.selected_heap_dump_index as int].path@
        } else {
            e is Done
        },
        Key::Char('V') => n == s && if s.active_resource == Resource::Dashboard {
            e is AttachVisualVm
        } else {
            e is Done
        },
        _ => n == s && e is Done,
    }
}

/// What a key does in the main view. While the filter is typed, keys edit
/// it; otherwise `g` twice in a row (the second soon enough) goes to the
/// top, and any other key forgets a pending `g`.
pub open spec fn normal_key_spec(s: AppState, key: Key, ctrl: bool, g_recent: bool, n: AppState, e: Effect) -> bool {
    if s.filter_active {
        e is Done && filter_typing_key(s, key, n)
    } else {
        &&& n.last_key_g == (key == Key::Char('g') && !(s.last_key_g && g_recent))
        &&& normal_core(s, key, ctrl, g_recent, AppState { last_key_g: s.last_key_g, ..n }, e)
    }
}

/// Whether the entries a key in the main view reads are in range.
pub open spec fn normal_key_safe(s: AppState, key: Key, ctrl: bool) -> bool {
    !s.filter_active ==> match key {
        Key::Char('d') => ctrl && s.active_resource == Resource::Apps && s.apps@.len() > 0
            ==> s.selected_app_index < s.apps@.len(),
        Key::Char('t') | Key::Char('h') | Key::Enter => s.active_resource == Resource::Apps
            && s.apps@.len() > 0 ==> s.selected_app_index < s.apps@.len(),
        Key::Char('e') => s.active_resource == Resource::Loggers && s.loggers@.len() > 0
            ==> s.selected_logger_index < s.loggers@.len(),
        Key::Char('v') => (s.active_resource == Resource::HeapDump && s.saved_heap_dumps@.len() > 0
            ==> s.selected_heap_dump_index < s.saved_heap_dumps@.len()) && (s.active_resource
            == Resource::ThreadDump && s.saved_thread_dumps@.len() > 0
            ==> s.selected_thread_dump_index < s.saved_thread_dumps@.len()),
        Key::Char('m') => s.active_resource == Resource::HeapDump && s.saved_heap_dumps@.len() > 0
            ==> s.selected_heap_dump_index < s.saved_heap_dumps@.len(),
        _ => true,
    }
}

fn dump_request(s: &mut AppState, heap: bool) -> (e: Effect)
    requires
        old(s).active_resource == Resource::Apps && old(s).apps@.len() > 0
            ==> old(s).selected_app_index < old(s).apps@.len(),
    ensures
        dump_key(*old(s), heap, *final(s), e),
{
    let own = if heap {
        Resource::HeapDump
    } else {
        Resource::ThreadDump
    };
    if s.active_resource == Resource::Apps && s.apps.len() > 0 {
        let url = s.apps[s.selected_app_index].url.clone();
        let app_name = name_for_url_exec(s, url.as_str());
        if heap {
            Effect::TakeHeapDump { base_url: url, app_name, from_apps: true }
        } else {
            Effect::TakeThreadDump { base_url: url, app_name, from_apps: true }
        }
    } else if s.active_resource == own {
        match s.active_app_url() {
            Some(base_url) => {
                let app_name = s.current_server_name();
                if heap {
                    Effect::TakeHeapDump { base_url, app_name, from_apps: false }
                } else {
                    Effect::TakeThreadDump { base_url, app_name, from_apps: false }
                }
            },
            None => {
                let title = if heap {
                    owned("Heap Dump — Error")
                } else {
                    owned("Thread Dump — Error")
                };
                show_text(s, title, owned("no active app selected"));
                Effect::Done
            },
        }
    } else {
        Effect::Done
    }
}

fn core_key(s: &mut AppState, key: Key, ctrl: bool, g_recent: bool) -> (e: Effect)
    requires
        normal_key_safe(*old(s), key, ctrl),
        !old(s).filter_active,
    ensures
        normal_core(*old(s), key, ctrl, g_recent, *final(s), e),
{
    let apps_view = s.active_resource == Resource::Apps;
    match key {
        Key::Esc | Key::Backspace => {
            if !s.filter_text.as_str().is_empty() {
                s.filter_text = String::new();
            } else if !apps_view {
                s.active_resource = Resource::Apps;
                s.filter_text = String::new();
                s.filter_active = false;
            }
            Effect::Done
        },
        Key::Char('q') => {
            s.should_quit = true;
            Effect::Done
        },
        Key::Char('j') | Key::Down => {
            s.next();
            Effect::Done
        },
        Key::Char('k') | Key::Up => {
            s.previous();
            Effect::Done
        },
        Key::Char('g') => {
            if s.last_key_g && g_recent {
                s.go_to_top();
            }
            Effect::Done
        },
        Key::Char('G') | Key::End => {
            s.go_to_bottom();
            Effect::Done
        },
        Key::Home => {
            s.go_to_top();
            Effect::Done
        },
        Key::Char(':') => {
            s.mode = Mode::Resources;
            s.command_text = String::new();
            s.command_suggestion_selected = 0;
            s.update_command_suggestions();
            Effect::Done
        },
        Key::Char('/') => {
            s.filter_active = true;
            s.filter_text = String::new();
            Effect::Done
        },
        Key::Char('a') => {
            if apps_view {
                s.server_dialog_state = ServerDialogState::default();
                s.mode = Mode::ServerDialog;
            }
            Effect::Done
        },
        Key::Char('d') => {
            if ctrl {
                if apps_view && s.apps.len() > 0 {
                    let a = &s.apps[s.selected_app_index];
                    let msg = cat(&["Delete '", a.name.as_str(), "' (", a.url.as_str(), ")?"]);
                    proof {
                        reveal_with_fuel(concat_strs, 6);
                    }
                    s.modal_title = owned("Confirm Delete");
                    s.modal_msg = msg;
                    s.mode = Mode::Confirm;
                }
                Effect::Done
            } else {
                handle_describe(s)
            }
        },
        Key::Char('R') => match s.active_resource {
            Resource::Apps => Effect::CheckAllApps,
            Resource::ThreadDump | Resource::HeapDump => Effect::Done,
            r => Effect::Fetch(r, FetchReason::Refresh),
        },
        Key::Char('e') => {
            if s.active_resource == Resource::Loggers && s.loggers.len() > 0 {
                let l = &s.loggers[s.selected_logger_index];
                let st = EditLoggerState {
                    logger_name: l.name.clone(),
                    current_level: l.effective_level.clone(),
                    selected_level_index: level_index(l.effective_level.as_str()),
                    error: None,
                };
                s.edit_logger_state = st;
                s.mode = Mode::EditLogger;
            }
            Effect::Done
        },
        Key::Char('t') => dump_request(s, false),
        Key::Char('h') => dump_request(s, true),
        Key::Enter => {
            if apps_view && s.apps.len() > 0 {
                let a = &s.apps[s.selected_app_index];
                if a.status == AppStatus::Down {
                    let msg = cat(
                        &[
                            "Cannot connect to '",
                            a.name.as_str(),
                            "'\n\nThe application is DOWN or unreachable.\nCheck that the server is running and try again.",
                        ],
                    );
                    proof {
                        reveal_with_fuel(concat_strs, 4);
                    }
                    s.show_error(msg);
                    Effect::Done
                } else {
                    let url = a.url.clone();
                    s.config.active_app_url = Some(url);
                    s.active_resource = Resource::Dashboard;
                    s.filter_text = String::new();
                    s.filter_active = false;
                    Effect::Fetch(Resource::Dashboard, FetchReason::Switch)
                }
            } else {
                handle_describe(s)
            }
        },
        Key::Char('v') => {
            if s.active_resource == Resource::HeapDump && s.saved_heap_dumps.len() > 0 {
                Effect::OpenInVisualVm(s.saved_heap_dumps[s.selected_heap_dump_index].path.clone())
            } else if s.active_resource == Resource::ThreadDump && s.saved_thread_dumps.len() > 0 {
                Effect::OpenThreadDumpInVisualVm(
                    thread_dump_text_path(s.saved_thread_dumps[s.selected_thread_dump_index].path.as_str()),
                )
            } else {
                Effect::Done
            }
        },
        Key::Char('m') => {
            if s.active_resource == Resource::HeapDump && s.saved_heap_dumps.len() > 0 {
                Effect::OpenInMat(s.saved_heap_dumps[s.selected_heap_dump_index].path.clone())
            } else {
                Effect::Done
            }
        },
        Key::Char('V') => {
            if s.active_resource == Resource::Dashboard {
                Effect::AttachVisualVm
            } else {
                Effect::Done
            }
        },
        _ => Effect::Done,
    }
}

/// Handles a key in the main view; `g_recent` says whether a pending `g`
/// was pressed soon enough before this key to make `gg`.
pub fn normal_key(s: &mut AppState, key: Key, ctrl: bool, g_recent: bool) -> (e: Effect)
    requires
        normal_key_safe(*old(s), key, ctrl),
    ensures
        normal_key_spec(*old(s), key, ctrl, g_recent, *final(s), e),
{
    if s.filter_active {
        match key {
            Key::Enter => {
                s.filter_active = false;
            },
            Key::Esc => {
                s.filter_text = String::new();
                s.filter_active = false;
            },
            Key::Backspace => {
                pop_char(&mut s.filter_text);
            },
            Key::Char(c) => {
                push_char(&mut s.filter_text, c);
            },
            _ => {},
        }
        return Effect::Done;
    }
    let was_g = s.last_key_g;
    let e = core_key(s, key, ctrl, g_recent);
    let is_g = match key {
        Key::Char('g') => true,
        _ => false,
    };
    s.last_key_g = is_g && !(was_g && g_recent);
    e
}

// ---------------------------------------------------------------------------
// The describe panel and the thread view
// ---------------------------------------------------------------------------

/// What a key does in the describe panel: Esc, Backspace or `q` go back
/// (to the thread view when a thread dump's threads are shown), the arrows and
/// `j`/`k` scroll, `gg` and Home go to the top, `G` and End far down.
pub open spec fn describe_key_spec(s: AppState, key: Key, g_recent: bool, n: AppState) -> bool {
    let core = match key {
        Key::Esc | Key::Backspace | Key::Char('q') => AppState {
            mode: if s.parsed_threads@.len() > 0 && s.active_resource == Resource::ThreadDump {
                Mode::ThreadViz
            } else {
                Mode::Normal
            },
            ..s
        },
        Key::Char('j') | Key::Down => AppState {
            describe_scroll: if s.describe_scroll == u16::MAX {
                u16::MAX
            } else {
                (s.describe_scroll + 1) as u16
            },
            ..s
        },
        Key::Char('k') | Key::Up => AppState {
            describe_scroll: if s.describe_scroll == 0 {
                0
            } else {
                (s.describe_scroll - 1) as u16
            },
            ..s
        },
        Key::Char('g') => if s.last_key_g && g_recent {
            AppState { describe_scroll: 0, ..s }
        } else {
            s
        },
        Key::Char('G') | Key::End => AppState { describe_scroll: 32767, ..s },
        Key::Home => AppState { describe_scroll: 0, ..s },
        _ => s,
    };
    n == AppState { last_key_g: key == Key::Char('g') && !(s.last_key_g && g_recent), ..core }
}

fn describe_key(s: &mut AppState, key: Key, g_recent: bool)
    ensures
        describe_key_spec(*old(s), key, g_recent, *final(s)),
{
    let was_g = s.last_key_g;
    match key {
        Key::Esc | Key::Backspace | Key::Char('q') => {
            s.mode = if s.parsed_threads.len() > 0 && s.active_resource == Resource::ThreadDump {
                Mode::ThreadViz
            } else {
                Mode::Normal
            };
        },
        Key::Char('j') | Key::Down => {
            s.describe_scroll = if s.describe_scroll == u16::MAX {
                u16::MAX
            } else {
                s.describe_scroll + 1
            };
        },
        Key::Char('k') | Key::Up => {
            s.describe_scroll = if s.describe_scroll == 0 {
                0
            } else {
                s.describe_scroll - 1
            };
        },
        Key::Char('g') => {
            if was_g && g_recent {
                s.describe_scroll = 0;
            }
        },
        Key::Char('G') | Key::End => {
            s.describe_scroll = 32767;
        },
        Key::Home => {
            s.describe_scroll = 0;
        },
        _ => {},
    }
    let is_g = match key {
        Key::Char('g') => true,
        _ => false,
    };
    s.last_key_g = is_g && !(was_g && g_recent);
}

/// What a key does in the thread view: Esc, Backspace or `q` leave it, the arrows and
/// `j`/`k` move within the threads, `G`/End and Home go to the last and
/// first, and Enter or `d` show the selected thread's stack.
pub open spec fn thread_viz_key_spec(s: AppState, key: Key, n: AppState) -> bool {
    let len = s.parsed_threads@.len();
    match key {
        Key::Esc | Key::Backspace | Key::Char('q') => n == AppState { mode: Mode::Normal, ..s },
        Key::Char('j') | Key::Down => n == AppState {
            thread_viz_scroll: if s.thread_viz_scroll + 1 < len {
                (s.thread_viz_scroll + 1) as usize
            } else {
                s.thread_viz_scroll
            },
            ..s
        },
        Key::Char('k') | Key::Up => n == AppState {
            thread_viz_scroll: if s.thread_viz_scroll == 0 {
                0
            } else {
                (s.thread_viz_scroll - 1) as usize
            },
            ..s
        },
        Key::Char('G') | Key::End => n == AppState {
            thread_viz_scroll: if len == 0 {
                0
            } else {
                (len - 1) as usize
            },
            ..s
        },
        Key::Home => n == AppState { thread_viz_scroll: 0, ..s },
        Key::Enter | Key::Char('d') => if s.thread_viz_scroll < len {
            let t = s.parsed_threads@[s.thread_viz_scroll as int]@;
            describing(s, thread_title_spec(t), thread_detail_spec(t), n)
        } else {
            n == s
        },
        _ => n == s,
    }
}

fn thread_viz_key(s: &mut AppState, key: Key)
    ensures
        thread_viz_key_spec(*old(s), key, *final(s)),
{
    let len = s.parsed_threads.len();
    match key {
        Key::Esc | Key::Backspace | Key::Char('q') => {
            s.mode = Mode::Normal;
        },
        Key::Char('j') | Key::Down => {
            if s.thread_viz_scroll < len && s.thread_viz_scroll + 1 < len {
                s.thread_viz_scroll = s.thread_viz_scroll + 1;
            }
        },
        Key::Char('k') | Key::Up => {
            if s.thread_viz_scroll > 0 {
                s.thread_viz_scroll = s.thread_viz_scroll - 1;
            }
        },
        Key::Char('G') | Key::End => {
            s.thread_viz_scroll = if len == 0 {
                0
            } else {
                len - 1
            };
        },
        Key::Home => {
            s.thread_viz_scroll = 0;
        },
        Key::Enter | Key::Char('d') => {
            if s.thread_viz_scroll < len {
                let t = &s.parsed_threads[s.thread_viz_scroll];
                let title = thread_title(t);
                let content = thread_detail(t);
                show_text(s, title, content);
            }
        },
        _ => {},
    }
}

// ---------------------------------------------------------------------------
// Confirmation and error modals
// ---------------------------------------------------------------------------

/// What confirming in the delete dialog does: in the apps view, the
/// selected application leaves the configuration and the list, and the
/// selection steps back when it was past the new end; the configuration is
/// then saved.
pub open spec fn confirm_action_spec(s: AppState, n: AppState, e: Effect) -> bool {
    if s.active_resource == Resource::Apps && s.apps@.len() > 0 {
        let i = s.selected_app_index as int;
        let url = s.apps@[i].url@;
        &&& e is SaveConfig
        &&& n == AppState {
            config: n.config,
            apps: n.apps,
            selected_app_index: if s.selected_app_index >= s.apps@.len() - 1
                && s.selected_app_index > 0 {
                (s.selected_app_index - 1) as usize
            } else {
                s.selected_app_index
            },
            ..s
        }
        &&& n.config@.apps == without_url(s.config@.apps, url)
        &&& n.config@.active_app_url == (if s.config@.active_app_url == Some(url) {
            None::<Seq<char>>
        } else {
            s.config@.active_app_url
        })
        &&& n.apps@ == s.apps@.remove(i)
    } else {
        e is Done && n == s
    }
}

/// What a key does in the delete dialog: `n` or Esc cancel, `y` or Enter
/// confirm; either way the main view comes back.
pub open spec fn confirm_key_spec(s: AppState, key: Key, n: AppState, e: Effect) -> bool {
    match key {
        Key::Esc | Key::Char('n') | Key::Char('N') => e is Done && n == AppState {
            mode: Mode::Normal,
            ..s
        },
        Key::Enter | Key::Char('y') | Key::Char('Y') => confirm_action_spec(
            s,
            AppState { mode: s.mode, ..n },
            e,
        ) && n.mode == Mode::Normal,
        _ => e is Done && n == s,
    }
}

fn confirm_action(s: &mut AppState) -> (e: Effect)
    requires
        old(s).active_resource == Resource::Apps && old(s).apps@.len() > 0
            ==> old(s).selected_app_index < old(s).apps@.len(),
    ensures
        confirm_action_spec(*old(s), *final(s), e),
{
    if s.active_resource == Resource::Apps && s.apps.len() > 0 {
        let i = s.selected_app_index;
        let url = s.apps[i].url.clone();
        s.config.remove_app(url.as_str());
        s.apps.remove(i);
        if s.selected_app_index >= s.apps.len() && s.selected_app_index > 0 {
            s.selected_app_index = s.selected_app_index - 1;
        }
        Effect::SaveConfig
    } else {
        Effect::Done
    }
}

fn confirm_key(s: &mut AppState, key: Key) -> (e: Effect)
    requires
        confirm_key_safe(*old(s), key),
    ensures
        confirm_key_spec(*old(s), key, *final(s), e),
{
    match key {
        Key::Esc | Key::Char('n') | Key::Char('N') => {
            s.mode = Mode::Normal;
            Effect::Done
        },
        Key::Enter | Key::Char('y') | Key::Char('Y') => {
            let e = confirm_action(s);
            s.mode = Mode::Normal;
            e
        },
        _ => Effect::Done,
    }
}

/// What a key does in the error modal: Enter or Esc return to the mode it
/// covered (the main view when none is remembered).
pub open spec fn error_modal_key_spec(s: AppState, key: Key, n: AppState) -> bool {
    if key == Key::Enter || key == Key::Esc {
        n == AppState {
            mode: match s.error_prev_mode {
                Some(m) => m,
                None => Mode::Normal,
            },
            error_prev_mode: None,
            ..s
        }
    } else {
        n == s
    }
}

fn error_modal_key(s: &mut AppState, key: Key)
    ensures
        error_modal_key_spec(*old(s), key, *final(s)),
{
    if key == Key::Enter || key == Key::Esc {
        s.mode = match s.error_prev_mode {
            Some(m) => m,
            None => Mode::Normal,
        };
        s.error_prev_mode = None;
    }
}

// ---------------------------------------------------------------------------
// The command palette
// ---------------------------------------------------------------------------

/// `n` is `s` with the typed command replaced (its text being `text`) and
/// the suggestions recomputed, the first highlighted.
pub open spec fn command_retyped(s: AppState, text: Seq<char>, n: AppState) -> bool {
    &&& n == AppState {
        command_text: n.command_text,
        command_suggestions: n.command_suggestions,
        command_suggestion_selected: 0,
        ..s
    }
    &&& n.command_text@ == text
    &&& n.command_suggestions@ == suggestions_spec(AppState { command_text: n.command_text, ..s })
}

/// What choosing a palette entry does: `:new` opens the wizard, which
/// starts loading the metadata; any other command switches the main view
/// to its resource and fetches it (rescans the dumps for the dump views);
/// the typed command is cleared either way.
pub open spec fn switch_spec(s: AppState, command: Seq<char>, n: AppState, e: Effect) -> bool {
    if command == ":new"@ {
        &&& e is LoadMetadata
        &&& command_retyped(
            AppState {
                mode: Mode::NewProject,
                new_project_state: n.new_project_state,
                ..s
            },
            Seq::empty(),
            n,
        )
        &&& wizard_default_spec(NewProjectWizardState {
            loading_metadata: false,
            ..n.new_project_state
        })
        &&& n.new_project_state.loading_metadata
    } else {
        let r = command_resource_spec(command);
        &&& command_retyped(AppState { active_resource: r, mode: Mode::Normal, ..s }, Seq::empty(), n)
        &&& match r {
            Resource::Apps => e is Done,
            Resource::ThreadDump | Resource::HeapDump => rescans_active(n, e),
            _ => e matches Effect::Fetch(x, why) && x == r && why == FetchReason::Switch,
        }
    }
}

/// What a key does in the command palette.
pub open spec fn resources_key_spec(s: AppState, key: Key, n: AppState, e: Effect) -> bool {
    let len = s.command_suggestions@.len();
    let sel = s.command_suggestion_selected;
    match key {
        Key::Esc => e is Done && command_retyped(AppState { mode: Mode::Normal, ..s }, Seq::empty(), n),
        Key::Backspace => e is Done && command_retyped(s, without_last(s.command_text@), n),
        Key::Down => e is Done && n == (if len > 0 {
            AppState { command_suggestion_selected: ((sel + 1) % (len as int)) as usize, ..s }
        } else {
            s
        }),
        Key::Up => e is Done && n == (if len > 0 {
            AppState {
                command_suggestion_selected: if sel > 0 {
                    (sel - 1) as usize
                } else {
                    (len - 1) as usize
                },
                ..s
            }
        } else {
            s
        }),
        Key::Right | Key::Tab => e is Done && match selected_command_spec(s) {
            Some(item) => command_retyped(s, item.command@, n),
            None => n == s,
        },
        Key::Char(c) => e is Done && command_retyped(s, s.command_text@.push(c), n),
        Key::Enter => match selected_command_spec(s) {
            Some(item) => switch_spec(s, item.command@, n, e),
            None => e is Done && n == s,
        },
        _ => e is Done && n == s,
    }
}

fn switch_resource(s: &mut AppState, command: &str) -> (e: Effect)
    ensures
        switch_spec(*old(s), command@, *final(s), e),
{
    if str_eq(command, ":new") {
        s.mode = Mode::NewProject;
        s.new_project_state = NewProjectWizardState::default();
        s.new_project_state.loading_metadata = true;
        s.command_text = String::new();
        s.update_command_suggestions();
        return Effect::LoadMetadata;
    }
    let r = command_resource(command);
    s.active_resource = r;
    s.mode = Mode::Normal;
    s.command_text = String::new();
    s.update_command_suggestions();
    match r {
        Resource::Apps => Effect::Done,
        Resource::ThreadDump | Resource::HeapDump => rescan_active(s),
        r => Effect::Fetch(r, FetchReason::Switch),
    }
}

fn resources_key(s: &mut AppState, key: Key) -> (e: Effect)
    ensures
        resources_key_spec(*old(s), key, *final(s), e),
{
    let len = s.command_suggestions.len();
    match key {
        Key::Esc => {
            s.mode = Mode::Normal;
            s.command_text = String::new();
            s.update_command_suggestions();
            Effect::Done
        },
        Key::Backspace => {
            pop_char(&mut s.command_text);
            s.update_command_suggestions();
            Effect::Done
        },
        Key::Down => {
            if len > 0 {
                proof {
                    vstd::arithmetic::div_mod::lemma_add_mod_noop(
                        s.command_suggestion_selected as int,
                        1,
                        len as int,
                    );
                    if len > 1 {
                        vstd::arithmetic::div_mod::lemma_small_mod(1, len as nat);
                    }
                    vstd::arithmetic::div_mod::lemma_mod_pos_bound(
                        s.command_suggestion_selected as int,
                        len as int,
                    );
                }
                s.command_suggestion_selected = ((s.command_suggestion_selected % len) + 1) % len;
            }
            Effect::Done
        },
        Key::Up => {
            if len > 0 {
                s.command_suggestion_selected = if s.command_suggestion_selected > 0 {
                    s.command_suggestion_selected - 1
                } else {
                    len - 1
                };
            }
            Effect::Done
        },
        Key::Right | Key::Tab => {
            let cmd = match s.get_selected_command() {
                Some(item) => Some(item.command.clone()),
                None => None,
            };
            if let Some(c) = cmd {
                s.command_text = c;
                s.update_command_suggestions();
            }
            Effect::Done
        },
        Key::Char(c) => {
            push_char(&mut s.command_text, c);
            s.update_command_suggestions();
            Effect::Done
        },
        Key::Enter => {
            let cmd = match s.get_selected_command() {
                Some(item) => Some(item.command.clone()),
                None => None,
            };
            match cmd {
                Some(c) => switch_resource(s, c.as_str()),
                None => Effect::Done,
            }
        },
        _ => Effect::Done,
    }
}

// ---------------------------------------------------------------------------
// The add-server dialog
// ---------------------------------------------------------------------------

/// `n` is `s` with the dialog's error set to `msg`.
pub open spec fn dialog_error(s: AppState, msg: Seq<char>, n: AppState) -> bool {
    &&& n == AppState {
        server_dialog_state: ServerDialogState { error: n.server_dialog_state.error, ..s.server_dialog_state },
        ..s
    }
    &&& n.server_dialog_state.error matches Some(m) && m@ == msg
}

/// `n` is `s` with the application added to the configuration (by URL), to
/// be saved with `name`, `url` and `status`.
pub open spec fn server_added(s: AppState, name: Seq<char>, url: Seq<char>, status: AppStatus, n: AppState, e: Effect) -> bool {
    &&& n == AppState { config: n.config, ..s }
    &&& n.config@.apps == with_app(s.config@.apps, name, url)
    &&& n.config@.active_app_url == s.config@.active_app_url
    &&& e matches Effect::SaveNewServer { name: en, url: eu, status: es } && en@ == name && eu@
        == url && es == status
}

/// What submitting the manual form does: both fields are needed (trimmed),
/// and the URL must start with `http://` or `https://`; then the
/// application is added.
pub open spec fn submit_spec(s: AppState, n: AppState, e: Effect) -> bool {
    let name = trimmed(s.server_dialog_state.name@);
    let url = trimmed(s.server_dialog_state.url@);
    if name.len() == 0 || url.len() == 0 {
        e is Done && dialog_error(s, "Please fill in all fields"@, n)
    } else if !starts_with_seq(url, "http://"@) && !starts_with_seq(url, "https://"@) {
        e is Done && dialog_error(s, "URL must start with http:// or https://"@, n)
    } else {
        server_added(s, name, url, AppStatus::Unknown, n, e)
    }
}

/// What choosing a scan result does: the application found is added as
/// `localhost:<port>` with the status the scan saw.
pub open spec fn scan_select_spec(s: AppState, n: AppState, e: Effect) -> bool {
    let d = s.server_dialog_state;
    if d.discovered_apps@.len() == 0 {
        e is Done && n == s
    } else {
        let a = d.discovered_apps@[d.scan_selected_index as int];
        server_added(s, "localhost:"@ + decimal(a.port as nat), a.url@, a.status, n, e)
    }
}

/// The state with the dialog's fields changed as given.
pub open spec fn with_dialog(s: AppState, d: ServerDialogState) -> AppState {
    AppState { server_dialog_state: d, ..s }
}

/// What a key does in the add-server dialog.
pub open spec fn server_dialog_key_spec(s: AppState, key: Key, n: AppState, e: Effect) -> bool {
    let d = s.server_dialog_state;
    match d.phase {
        ServerDialogPhase::ChooseMethod => match key {
            Key::Esc => e is Done && n == (if s.apps@.len() == 0 {
                AppState { should_quit: true, ..s }
            } else {
                AppState { mode: Mode::Normal, ..s }
            }),
            Key::Char('j') | Key::Down | Key::Tab => e is Done && n == with_dialog(
                s,
                ServerDialogState { method_selected: ((d.method_selected + 1) % 2) as usize, ..d },
            ),
            Key::Char('k') | Key::Up => e is Done && n == with_dialog(
                s,
                ServerDialogState {
                    method_selected: if d.method_selected == 0 {
                        1
                    } else {
                        0
                    },
                    ..d
                },
            ),
            Key::Enter => if d.method_selected == 0 {
                e is Done && n == with_dialog(
                    s,
                    ServerDialogState {
                        phase: ServerDialogPhase::ManualEntry,
                        active_field: 0,
                        name: n.server_dialog_state.name,
                        url: n.server_dialog_state.url,
                        error: None,
                        ..d
                    },
                ) && n.server_dialog_state.name@.len() == 0 && n.server_dialog_state.url@.len() == 0
            } else {
                e is StartScan && n == with_dialog(
                    s,
                    ServerDialogState {
                        phase: ServerDialogPhase::Scanning,
                        discovered_apps: n.server_dialog_state.discovered_apps,
                        scan_done: false,
                        scan_progress: n.server_dialog_state.scan_progress,
                        ..d
                    },
                ) && n.server_dialog_state.discovered_apps@.len() == 0
                    && n.server_dialog_state.scan_progress@ == "Starting scan..."@
            },
            _ => e is Done && n == s,
        },
        ServerDialogPhase::ManualEntry => match key {
            Key::Esc => e is Done && n == with_dialog(
                s,
                ServerDialogState { phase: ServerDialogPhase::ChooseMethod, error: None, ..d },
            ),
            Key::Tab | Key::Down | Key::Up => e is Done && n == with_dialog(
                s,
                ServerDialogState {
                    active_field: if d.active_field == 0 {
                        1
                    } else {
                        0
                    },
                    ..d
                },
            ),
            Key::Backspace => e is Done && if d.active_field == 0 {
                n == with_dialog(s, ServerDialogState { name: n.server_dialog_state.name, ..d })
                    && n.server_dialog_state.name@ == without_last(d.name@)
            } else {
                n == with_dialog(s, ServerDialogState { url: n.server_dialog_state.url, ..d })
                    && n.server_dialog_state.url@ == without_last(d.url@)
            },
            Key::Char(c) => e is Done && if d.active_field == 0 {
                n == with_dialog(s, ServerDialogState { name: n.server_dialog_state.name, ..d })
                    && n.server_dialog_state.name@ == d.name@.push(c)
            } else {
                n == with_dialog(s, ServerDialogState { url: n.server_dialog_state.url, ..d })
                    && n.server_dialog_state.url@ == d.url@.push(c)
            },
            Key::Enter => submit_spec(s, n, e),
            _ => e is Done && n == s,
        },
        ServerDialogPhase::Scanning => if key == Key::Esc {
            e is Done && n == with_dialog(
                s,
                ServerDialogState {
                    phase: ServerDialogPhase::ChooseMethod,
                    discovered_apps: n.server_dialog_state.discovered_apps,
                    ..d
                },
            ) && n.server_dialog_state.discovered_apps@.len() == 0
        } else {
            e is Done && n == s
        },
        ServerDialogPhase::ScanResults => match key {
            Key::Esc => e is Done && n == with_dialog(
                s,
                ServerDialogState {
                    phase: ServerDialogPhase::ChooseMethod,
                    discovered_apps: n.server_dialog_state.discovered_apps,
                    ..d
                },
            ) && n.server_dialog_state.discovered_apps@.len() == 0,
            Key::Char('j') | Key::Down => e is Done && n == (if d.discovered_apps@.len() > 0 {
                with_dialog(
                    s,
                    ServerDialogState {
                        scan_selected_index: if d.scan_selected_index + 1 < d.discovered_apps@.len() {
                            (d.scan_selected_index + 1) as usize
                        } else {
                            (d.discovered_apps@.len() - 1) as usize
                        },
                        ..d
                    },
                )
            } else {
                s
            }),
            Key::Char('k') | Key::Up => e is Done && n == with_dialog(
                s,
                ServerDialogState {
                    scan_selected_index: if d.scan_selected_index == 0 {
                        0
                    } else {
                        (d.scan_selected_index - 1) as usize
                    },
                    ..d
                },
            ),
            Key::Enter => scan_select_spec(s, n, e),
            _ => e is Done && n == s,
        },
    }
}

fn submit_server(s: &mut AppState) -> (e: Effect)
    ensures
        submit_spec(*old(s), *final(s), e),
{
    let name = trim(s.server_dialog_state.name.as_str());
    let url = trim(s.server_dialog_state.url.as_str());
    if name.as_str().is_empty() || url.as_str().is_empty() {
        s.server_dialog_state.error = Some(owned("Please fill in all fields"));
        return Effect::Done;
    }
    if !str_starts_with(url.as_str(), "http://") && !str_starts_with(url.as_str(), "https://") {
        s.server_dialog_state.error = Some(owned("URL must start with http:// or https://"));
        return Effect::Done;
    }
    s.config.add_app(name.clone(), url.clone());
    Effect::SaveNewServer { name, url, status: AppStatus::Unknown }
}

fn select_scan_result(s: &mut AppState) -> (e: Effect)
    requires
        old(s).server_dialog_state.discovered_apps@.len() > 0
            ==> old(s).server_dialog_state.scan_selected_index
            < old(s).server_dialog_state.discovered_apps@.len(),
    ensures
        scan_select_spec(*old(s), *final(s), e),
{
    if s.server_dialog_state.discovered_apps.len() == 0 {
        return Effect::Done;
    }
    let d = &s.server_dialog_state.discovered_apps[s.server_dialog_state.scan_selected_index];
    let url = d.url.clone();
    let status = d.status;
    let mut name = owned("localhost:");
    push_decimal(&mut name, d.port as u64);
    s.config.add_app(name.clone(), url.clone());
    Effect::SaveNewServer { name, url, status }
}

fn server_dialog_key(s: &mut AppState, key: Key) -> (e: Effect)
    requires
        server_dialog_key_safe(*old(s), key),
    ensures
        server_dialog_key_spec(*old(s), key, *final(s), e),
{
    match s.server_dialog_state.phase {
        ServerDialogPhase::ChooseMethod => match key {
            Key::Esc => {
                if s.apps.len() == 0 {
                    s.should_quit = true;
                } else {
                    s.mode = Mode::Normal;
                }
                Effect::Done
            },
            Key::Char('j') | Key::Down | Key::Tab => {
                proof {
                    vstd::arithmetic::div_mod::lemma_add_mod_noop(
                        s.server_dialog_state.method_selected as int,
                        1,
                        2,
                    );
                }
                s.server_dialog_state.method_selected = ((s.server_dialog_state.method_selected % 2) + 1) % 2;
                Effect::Done
            },
            Key::Char('k') | Key::Up => {
                s.server_dialog_state.method_selected = if s.server_dialog_state.method_selected == 0 {
                    1
                } else {
                    0
                };
                Effect::Done
            },
            Key::Enter => {
                if s.server_dialog_state.method_selected == 0 {
                    s.server_dialog_state.phase = ServerDialogPhase::ManualEntry;
                    s.server_dialog_state.active_field = 0;
                    s.server_dialog_state.name = String::new();
                    s.server_dialog_state.url = String::new();
                    s.server_dialog_state.error = None;
                    Effect::Done
                } else {
                    s.server_dialog_state.phase = ServerDialogPhase::Scanning;
                    s.server_dialog_state.discovered_apps = Vec::new();
                    s.server_dialog_state.scan_done = false;
                    s.server_dialog_state.scan_progress = owned("Starting scan...");
                    Effect::StartScan
                }
            },
            _ => Effect::Done,
        },
        ServerDialogPhase::ManualEntry => match key {
            Key::Esc => {
                s.server_dialog_state.phase = ServerDialogPhase::ChooseMethod;
                s.server_dialog_state.error = None;
                Effect::Done
            },
            Key::Tab | Key::Down | Key::Up => {
                s.server_dialog_state.active_field = if s.server_dialog_state.active_field == 0 {
                    1
                } else {
                    0
                };
                Effect::Done
            },
            Key::Backspace => {
                if s.server_dialog_state.active_field == 0 {
                    pop_char(&mut s.server_dialog_state.name);
                } else {
                    pop_char(&mut s.server_dialog_state.url);
                }
                Effect::Done
            },
            Key::Char(c) => {
                if s.server_dialog_state.active_field == 0 {
                    push_char(&mut s.server_dialog_state.name, c);
                } else {
                    push_char(&mut s.server_dialog_state.url, c);
                }
                Effect::Done
            },
            Key::Enter => submit_server(s),
            _ => Effect::Done,
        },
        ServerDialogPhase::Scanning => {
            if key == Key::Esc {
                s.server_dialog_state.phase = ServerDialogPhase::ChooseMethod;
                s.server_dialog_state.discovered_apps = Vec::new();
            }
            Effect::Done
        },
        ServerDialogPhase::ScanResults => match key {
            Key::Esc => {
                s.server_dialog_state.phase = ServerDialogPhase::ChooseMethod;
                s.server_dialog_state.discovered_apps = Vec::new();
                Effect::Done
            },
            Key::Char('j') | Key::Down => {
                let len = s.server_dialog_state.discovered_apps.len();
                if len > 0 {
                    let i = s.server_dialog_state.scan_selected_index;
                    s.server_dialog_state.scan_selected_index = if i < len - 1 {
                        i + 1
                    } else {
                        len - 1
                    };
                }
                Effect::Done
            },
            Key::Char('k') | Key::Up => {
                if s.server_dialog_state.scan_selected_index > 0 {
                    s.server_dialog_state.scan_selected_index = s.server_dialog_state.scan_selected_index - 1;
                }
                Effect::Done
            },
            Key::Enter => select_scan_result(s),
            _ => Effect::Done,
        },
    }
}

// ---------------------------------------------------------------------------
// The logger level editor and the wizard
// ---------------------------------------------------------------------------

/// What a key does in the logger level editor: Esc closes it, the arrows
/// and `j`/`k` move within the levels, Enter asks for the chosen level.
pub open spec fn edit_logger_key_spec(s: AppState, key: Key, n: AppState, e: Effect) -> bool {
    let st = s.edit_logger_state;
    match key {
        Key::Esc => e is Done && n == AppState { mode: Mode::Normal, ..s },
        Key::Char('j') | Key::Down => e is Done && n == AppState {
            edit_logger_state: EditLoggerState {
                selected_level_index: if st.selected_level_index + 1 < 6 {
                    (st.selected_level_index + 1) as usize
                } else {
                    5
                },
                ..st
            },
            ..s
        },
        Key::Char('k') | Key::Up => e is Done && n == AppState {
            edit_logger_state: EditLoggerState {
                selected_level_index: if st.selected_level_index == 0 {
                    0
                } else {
                    (st.selected_level_index - 1) as usize
                },
                ..st
            },
            ..s
        },
        Key::Enter => n == s && (e matches Effect::SetLoggerLevel { name, level } && name@
            == st.logger_name@ && level@ == log_levels()[st.selected_level_index as int]),
        _ => e is Done && n == s,
    }
}

fn edit_logger_key(s: &mut AppState, key: Key) -> (e: Effect)
    requires
        key == Key::Enter ==> old(s).edit_logger_state.selected_level_index < LOG_LEVEL_COUNT,
    ensures
        edit_logger_key_spec(*old(s), key, *final(s), e),
{
    match key {
        Key::Esc => {
            s.mode = Mode::Normal;
            Effect::Done
        },
        Key::Char('j') | Key::Down => {
            let i = s.edit_logger_state.selected_level_index;
            s.edit_logger_state.selected_level_index = if i < 5 {
                i + 1
            } else {
                5
            };
            Effect::Done
        },
        Key::Char('k') | Key::Up => {
            if s.edit_logger_state.selected_level_index > 0 {
                s.edit_logger_state.selected_level_index = s.edit_logger_state.selected_level_index - 1;
            }
            Effect::Done
        },
        Key::Enter => {
            let level = owned(log_level(s.edit_logger_state.selected_level_index));
            Effect::SetLoggerLevel { name: s.edit_logger_state.logger_name.clone(), level }
        },
        _ => Effect::Done,
    }
}

/// What a key does while the wizard is open: the wizard handles it; when it
/// closes, the main view comes back; when it generates, so does the front
/// end.
pub open spec fn new_project_key_spec(s: AppState, key: Key, n: AppState, e: Effect) -> bool {
    exists|a: WizardAction| #![trigger wizard_key_spec(s.new_project_state, key, n.new_project_state, a)]
        wizard_key_spec(s.new_project_state, key, n.new_project_state, a) && match a {
            WizardAction::Stay => e is Done && n == AppState { new_project_state: n.new_project_state, ..s },
            WizardAction::Exit => e is Done && n == AppState {
                new_project_state: n.new_project_state,
                mode: Mode::Normal,
                ..s
            },
            WizardAction::Generate(p) => e == Effect::Generate(p) && n == AppState {
                new_project_state: n.new_project_state,
                ..s
            },
        }
}

fn new_project_key(s: &mut AppState, key: Key) -> (e: Effect)
    ensures
        new_project_key_spec(*old(s), key, *final(s), e),
{
    let a = handle_new_project_key(&mut s.new_project_state, key);
    let ghost ga = a;
    match a {
        WizardAction::Stay => Effect::Done,
        WizardAction::Exit => {
            s.mode = Mode::Normal;
            Effect::Done
        },
        WizardAction::Generate(p) => Effect::Generate(p),
    }
}

// ---------------------------------------------------------------------------
// All keys
// ---------------------------------------------------------------------------

/// In the delete dialog, a confirming key (Enter, `y`, `Y`) reads the
/// selected application: it must be in range when the list is not empty.
pub open spec fn confirm_key_safe(s: AppState, key: Key) -> bool {
    (key == Key::Enter || key == Key::Char('y') || key == Key::Char('Y')) && s.active_resource
        == Resource::Apps && s.apps@.len() > 0 ==> s.selected_app_index < s.apps@.len()
}

/// In the scan results, Enter reads the selected application found: it
/// must be in range when any was found.
pub open spec fn server_dialog_key_safe(s: AppState, key: Key) -> bool {
    s.server_dialog_state.phase == ServerDialogPhase::ScanResults && key == Key::Enter
        && s.server_dialog_state.discovered_apps@.len() > 0 ==> s.server_dialog_state.scan_selected_index
        < s.server_dialog_state.discovered_apps@.len()
}

/// Whether the entries a key reads in the current mode are in range (the
/// selections are kept in range by the front end; a list shrunk by a new
/// fetch or scan can leave one past its end).
pub open spec fn key_safe(s: AppState, key: Key, ctrl: bool) -> bool {
    match s.mode {
        Mode::Normal => normal_key_safe(s, key, ctrl),
        Mode::Confirm => confirm_key_safe(s, key),
        Mode::ServerDialog => server_dialog_key_safe(s, key),
        Mode::EditLogger => key == Key::Enter ==> s.edit_logger_state.selected_level_index
            < LOG_LEVEL_COUNT,
        _ => true,
    }
}

/// What a key does: Ctrl-C asks to quit, and the key then goes to the
/// current mode's handler (the splash screen ignores keys).
pub open spec fn handle_key_spec(s: AppState, key: Key, ctrl: bool, g_recent: bool, n: AppState, e: Effect) -> bool {
    let s1 = if key == Key::Char('c') && ctrl {
        AppState { should_quit: true, ..s }
    } else {
        s
    };
    match s.mode {
        Mode::Normal => normal_key_spec(s1, key, ctrl, g_recent, n, e),
        Mode::Describe => e is Done && describe_key_spec(s1, key, g_recent, n),
        Mode::ThreadViz => e is Done && thread_viz_key_spec(s1, key, n),
        Mode::Confirm => confirm_key_spec(s1, key, n, e),
        Mode::ErrorModal => e is Done && error_modal_key_spec(s1, key, n),
        Mode::Resources => resources_key_spec(s1, key, n, e),
        Mode::ServerDialog => server_dialog_key_spec(s1, key, n, e),
        Mode::EditLogger => edit_logger_key_spec(s1, key, n, e),
        Mode::NewProject => new_project_key_spec(s1, key, n, e),
        Mode::Splash => e is Done && n == s1,
    }
}

/// Handles a key press; `ctrl` says whether Control was held, `g_recent`
/// whether a pending `g` was pressed soon enough before to make `gg`.
pub fn handle_key(s: &mut AppState, key: Key, ctrl: bool, g_recent: bool) -> (e: Effect)
    requires
        key_safe(*old(s), key, ctrl),
    ensures
        handle_key_spec(*old(s), key, ctrl, g_recent, *final(s), e),
{
    if key == Key::Char('c') && ctrl {
        s.should_quit = true;
    }
    match s.mode {
        Mode::Normal => normal_key(s, key, ctrl, g_recent),
        Mode::Describe => {
            describe_key(s, key, g_recent);
            Effect::Done
        },
        Mode::ThreadViz => {
            thread_viz_key(s, key);
            Effect::Done
        },
        Mode::Confirm => confirm_key(s, key),
        Mode::ErrorModal => {
            error_modal_key(s, key);
            Effect::Done
        },
        Mode::Resources => resources_key(s, key),
        Mode::ServerDialog => server_dialog_key(s, key),
        Mode::EditLogger => edit_logger_key(s, key),
        Mode::NewProject => new_project_key(s, key),
        Mode::Splash => Effect::Done,
    }
}

/// Confirming the deletion of the selected application removes it from the
/// list and every entry with its URL from the configuration, and leaves
/// the selection on an application when any is left.
pub proof fn law_delete_removes_selected(s: AppState, key: Key, ctrl: bool, g_recent: bool, n: AppState, e: Effect)
    requires
        s.mode == Mode::Confirm,
        s.active_resource == Resource::Apps,
        s.selected_app_index < s.apps@.len(),
        key == Key::Enter || key == Key::Char('y') || key == Key::Char('Y'),
        handle_key_spec(s, key, ctrl, g_recent, n, e),
    ensures
        n.apps@ == s.apps@.remove(s.selected_app_index as int),
        !has_url(n.config@.apps, s.apps@[s.selected_app_index as int].url@),
        n.apps@.len() > 0 ==> n.selected_app_index < n.apps@.len(),
        n.mode == Mode::Normal,
        e is SaveConfig,
{
    law_remove_removes(s.config@.apps, s.apps@[s.selected_app_index as int].url@);
}

/// A server typed in by hand is added only with a name and a URL, both
/// trimmed, the URL starting with `http://` or `https://`.
pub proof fn law_typed_server_is_valid(s: AppState, key: Key, ctrl: bool, g_recent: bool, n: AppState, e: Effect)
    requires
        s.mode == Mode::ServerDialog,
        s.server_dialog_state.phase == ServerDialogPhase::ManualEntry,
        handle_key_spec(s, key, ctrl, g_recent, n, e),
    ensures
        match e {
            Effect::SaveNewServer { name, url, status } => {
                &&& name@ == trimmed(s.server_dialog_state.name@)
                &&& url@ == trimmed(s.server_dialog_state.url@)
                &&& name@.len() > 0
                &&& starts_with_seq(url@, "http://"@) || starts_with_seq(url@, "https://"@)
                &&& status == AppStatus::Unknown
            },
            _ => true,
        },
{
}

// ---------------------------------------------------------------------------
// Finished outside work
// ---------------------------------------------------------------------------

/// The message for a failed fetch: after `R`, `Refresh failed: <error>`;
/// otherwise `Failed to fetch <resource>: <error>`.
pub open spec fn fetch_failure_spec(r: Resource, why: FetchReason, err: Seq<char>) -> Seq<char> {
    match why {
        FetchReason::Refresh => "Refresh failed: "@ + err,
        FetchReason::Switch => "Failed to fetch "@ + resource_key_spec(r) + ": "@ + err,
    }
}

/// Shows the failure of a fetch in the error modal.
pub fn fetch_failed(s: &mut AppState, r: Resource, why: FetchReason, err: &str)
    ensures
        with_error(*old(s), fetch_failure_spec(r, why, err@), *final(s)),
{
    let msg = match why {
        FetchReason::Refresh => cat(&["Refresh failed: ", err]),
        FetchReason::Switch => cat(&["Failed to fetch ", r.key(), ": ", err]),
    };
    proof {
        reveal_with_fuel(concat_strs, 5);
    }
    s.show_error(msg);
}

/// A fetched resource's entries.
#[derive(Debug)]
pub enum ResourceData {
    Endpoints(Vec<Endpoint>),
    Beans(Vec<Bean>),
    Loggers(Vec<Logger>),
    Mappings(Vec<Mapping>),
    Env(Vec<EnvProperty>),
}

/// The state holding freshly fetched entries, the first selected.
pub open spec fn received_spec(s: AppState, d: ResourceData) -> AppState {
    match d {
        ResourceData::Endpoints(v) => AppState { endpoints: v, selected_endpoint_index: 0, ..s },
        ResourceData::Beans(v) => AppState { beans: v, selected_bean_index: 0, ..s },
        ResourceData::Loggers(v) => AppState { loggers: v, selected_logger_index: 0, ..s },
        ResourceData::Mappings(v) => AppState { mappings: v, selected_mapping_index: 0, ..s },
        ResourceData::Env(v) => AppState { env_props: v, selected_env_index: 0, ..s },
    }
}

/// Takes freshly fetched entries; the first is selected.
pub fn receive_data(s: &mut AppState, d: ResourceData)
    ensures
        *final(s) == received_spec(*old(s), d),
{
    match d {
        ResourceData::Endpoints(v) => {
            s.endpoints = v;
            s.selected_endpoint_index = 0;
        },
        ResourceData::Beans(v) => {
            s.beans = v;
            s.selected_bean_index = 0;
        },
        ResourceData::Loggers(v) => {
            s.loggers = v;
            s.selected_logger_index = 0;
        },
        ResourceData::Mappings(v) => {
            s.mappings = v;
            s.selected_mapping_index = 0;
        },
        ResourceData::Env(v) => {
            s.env_props = v;
            s.selected_env_index = 0;
        },
    }
}

/// What a finished dump request of the application at `base_url`,
/// recorded under `app_name`, does: on success, a dump asked from the apps
/// view switches to the dump's view (filter cleared), the newest dump is
/// selected and that application's dumps are read again; on failure, the
/// error is shown in the describe panel.
pub open spec fn dump_taken_spec(
    s: AppState,
    heap: bool,
    from_apps: bool,
    base_url: Seq<char>,
    app_name: Seq<char>,
    result: Result<(), String>,
    n: AppState,
    e: Effect,
) -> bool {
    match result {
        Ok(_) => {
            let s1 = if from_apps {
                AppState {
                    active_resource: if heap {
                        Resource::HeapDump
                    } else {
                        Resource::ThreadDump
                    },
                    filter_text: n.filter_text,
                    filter_active: false,
                    ..s
                }
            } else {
                s
            };
            &&& e matches Effect::RescanDumps { app_url: u, app_name: a } && u@ == base_url && a@
                == app_name
            &&& n == (if heap {
                AppState { selected_heap_dump_index: 0, ..s1 }
            } else {
                AppState { selected_thread_dump_index: 0, ..s1 }
            })
            &&& from_apps ==> n.filter_text@.len() == 0
        },
        Err(msg) => e is Done && describing(
            s,
            if heap {
                "Heap Dump — Error"@
            } else {
                "Thread Dump — Error"@
            },
            msg@,
            n,
        ),
    }
}

/// Records the end of a dump request of the application at `base_url`,
/// recorded under `app_name`.
pub fn dump_taken(
    s: &mut AppState,
    heap: bool,
    from_apps: bool,
    base_url: String,
    app_name: String,
    result: Result<(), String>,
) -> (e: Effect)
    ensures
        dump_taken_spec(*old(s), heap, from_apps, base_url@, app_name@, result, *final(s), e),
{
    match result {
        Ok(()) => {
            if from_apps {
                s.active_resource = if heap {
                    Resource::HeapDump
                } else {
                    Resource::ThreadDump
                };
                s.filter_text = String::new();
                s.filter_active = false;
            }
            if heap {
                s.selected_heap_dump_index = 0;
            } else {
                s.selected_thread_dump_index = 0;
            }
            Effect::RescanDumps { app_url: base_url, app_name }
        },
        Err(msg) => {
            let title = if heap {
                owned("Heap Dump — Error")
            } else {
                owned("Thread Dump — Error")
            };
            show_text(s, title, msg);
            Effect::Done
        },
    }
}

/// Takes the saved dumps read from the dump directory.
pub fn set_saved_dumps(s: &mut AppState, threads: Vec<SavedDump>, heaps: Vec<SavedDump>)
    ensures
        *final(s) == (AppState { saved_thread_dumps: threads, saved_heap_dumps: heaps, ..*old(s) }),
{
    s.saved_thread_dumps = threads;
    s.saved_heap_dumps = heaps;
}

/// What reading a saved thread dump gave.
#[derive(Debug)]
pub enum ThreadDumpRead {
    /// The file held JSON: its threads, in view order.
    Parsed(Vec<ThreadInfo>),
    /// The file held other text.
    Text(String),
    /// The file could not be read; the reason.
    Failed(String),
}

/// What a read thread dump shows: its threads in the thread view, its text
/// in the describe panel, or the failure.
pub open spec fn thread_dump_read_spec(
    s: AppState,
    path: Seq<char>,
    app_name: Seq<char>,
    timestamp: Seq<char>,
    r: ThreadDumpRead,
    n: AppState,
) -> bool {
    match r {
        ThreadDumpRead::Parsed(ts) => n == AppState {
            parsed_threads: ts,
            thread_viz_scroll: 0,
            thread_viz_title: n.thread_viz_title,
            mode: Mode::ThreadViz,
            ..s
        } && n.thread_viz_title@ == "Thread Dump: "@ + app_name + " — "@ + timestamp,
        ThreadDumpRead::Text(t) => describing(s, "Thread Dump: "@ + timestamp, t@, n),
        ThreadDumpRead::Failed(m) => describing(
            s,
            "Thread Dump — Error"@,
            "Failed to read "@ + path + ": "@ + m@,
            n,
        ),
    }
}

/// Shows a saved thread dump that was read.
pub fn thread_dump_read(s: &mut AppState, path: &str, app_name: &str, timestamp: &str, r: ThreadDumpRead)
    ensures
        thread_dump_read_spec(*old(s), path@, app_name@, timestamp@, r, *final(s)),
{
    match r {
        ThreadDumpRead::Parsed(ts) => {
            s.parsed_threads = ts;
            s.thread_viz_scroll = 0;
            s.thread_viz_title = cat(&["Thread Dump: ", app_name, " — ", timestamp]);
            proof {
                reveal_with_fuel(concat_strs, 5);
            }
            s.mode = Mode::ThreadViz;
        },
        ThreadDumpRead::Text(t) => {
            let title = cat(&["Thread Dump: ", timestamp]);
            proof {
                reveal_with_fuel(concat_strs, 3);
            }
            show_text(s, title, t);
        },
        ThreadDumpRead::Failed(m) => {
            let content = cat(&["Failed to read ", path, ": ", m.as_str()]);
            proof {
                reveal_with_fuel(concat_strs, 5);
            }
            show_text(s, owned("Thread Dump — Error"), content);
        },
    }
}

/// Shows a saved thread dump from the text of its file (or the reason it
/// could not be read): the threads of the decoded document, in view order,
/// in the thread view; the text itself when it is not JSON; the failure
/// otherwise.
pub fn saved_thread_dump_read(
    s: &mut AppState,
    path: &str,
    app_name: &str,
    timestamp: &str,
    content: Result<String, String>,
)
    ensures
        match content {
            Err(m) => thread_dump_read_spec(*old(s), path@, app_name@, timestamp@, ThreadDumpRead::Failed(m), *final(s)),
            Ok(c) => match parsed_json(c@) {
                Some(v) => thread_views(final(s).parsed_threads@) == threads_spec(v) && *final(s) == AppState {
                    parsed_threads: final(s).parsed_threads,
                    thread_viz_scroll: 0,
                    thread_viz_title: final(s).thread_viz_title,
                    mode: Mode::ThreadViz,
                    ..*old(s)
                } && final(s).thread_viz_title@ == "Thread Dump: "@ + app_name@ + " — "@ + timestamp@,
                None => thread_dump_read_spec(*old(s), path@, app_name@, timestamp@, ThreadDumpRead::Text(c), *final(s)),
            },
        },
{
    match content {
        Err(m) => thread_dump_read(s, path, app_name, timestamp, ThreadDumpRead::Failed(m)),
        Ok(c) => match parse_json(c.as_str()) {
            Some(v) => thread_dump_read(s, path, app_name, timestamp, ThreadDumpRead::Parsed(parse_thread_dump(&v))),
            None => thread_dump_read(s, path, app_name, timestamp, ThreadDumpRead::Text(c)),
        },
    }
}

/// What saving a newly added application gives: on failure the dialog
/// shows it; on success the application joins the list (its health to be
/// checked), the dialog is reset and the main view comes back.
pub open spec fn server_saved_spec(
    s: AppState,
    name: Seq<char>,
    url: Seq<char>,
    status: AppStatus,
    result: Result<(), String>,
    n: AppState,
    e: Effect,
) -> bool {
    match result {
        Err(m) => e is Done && dialog_error(s, "Failed to save: "@ + m@, n),
        Ok(_) => {
            &&& n == AppState {
                apps: n.apps,
                server_dialog_state: n.server_dialog_state,
                mode: Mode::Normal,
                ..s
            }
            &&& app_views(n.apps@) == app_views(s.apps@).push(
                crate::model::SpringAppView { name, url, status },
            )
            &&& server_dialog_default_spec(n.server_dialog_state)
            &&& e == Effect::CheckApp(s.apps@.len() as usize)
        },
    }
}

/// Records the end of saving a newly added application.
pub fn server_saved(s: &mut AppState, name: String, url: String, status: AppStatus, result: Result<(), String>) -> (e: Effect)
    requires
        old(s).apps@.len() < usize::MAX,
    ensures
        server_saved_spec(*old(s), name@, url@, status, result, *final(s), e),
{
    match result {
        Err(m) => {
            s.server_dialog_state.error = Some(cat(&["Failed to save: ", m.as_str()]));
            proof {
                reveal_with_fuel(concat_strs, 3);
            }
            Effect::Done
        },
        Ok(()) => {
            let ghost before = s.apps@;
            let a = SpringApp { name, url, status };
            let ghost av = a@;
            s.apps.push(a);
            proof {
                assert(app_views(s.apps@) =~= app_views(before).push(av));
            }
            s.server_dialog_state = ServerDialogState::default();
            s.mode = Mode::Normal;
            Effect::CheckApp(s.apps.len() - 1)
        },
    }
}

/// What the end of a level change does: on success, the logger's levels
/// are updated locally and the editor closes; on failure the editor shows
/// it.
pub open spec fn logger_level_spec(s: AppState, name: Seq<char>, level: Seq<char>, result: Result<(), String>, n: AppState) -> bool {
    match result {
        Ok(_) => n == AppState { loggers: n.loggers, mode: Mode::Normal, ..s } && logger_views(
            n.loggers@,
        ) == with_level(logger_views(s.loggers@), name, level),
        Err(m) => n == AppState {
            edit_logger_state: EditLoggerState {
                error: n.edit_logger_state.error,
                ..s.edit_logger_state
            },
            ..s
        } && (n.edit_logger_state.error matches Some(x) && x@ == "Failed: "@ + m@),
    }
}

/// Records the end of a level change.
pub fn logger_level_set(s: &mut AppState, name: &str, level: &str, result: Result<(), String>)
    ensures
        logger_level_spec(*old(s), name@, level@, result, *final(s)),
{
    match result {
        Ok(()) => {
            apply_logger_level(&mut s.loggers, name, level);
            s.mode = Mode::Normal;
        },
        Err(m) => {
            s.edit_logger_state.error = Some(cat(&["Failed: ", m.as_str()]));
            proof {
                reveal_with_fuel(concat_strs, 3);
            }
        },
    }
}

// ---------------------------------------------------------------------------
// Background events
// ---------------------------------------------------------------------------

/// A progress message of the start-up checks: shown, and the splash's step
/// advanced, up to its last.
pub fn splash_progress(s: &mut AppState, msg: String)
    ensures
        *final(s) == (AppState {
            splash_state: SplashState {
                current_message: msg,
                current_step: if old(s).splash_state.current_step < old(s).splash_state.total_steps {
                    (old(s).splash_state.current_step + 1) as usize
                } else {
                    if old(s).splash_state.current_step == usize::MAX {
                        if usize::MAX < old(s).splash_state.total_steps {
                            usize::MAX
                        } else {
                            old(s).splash_state.total_steps
                        }
                    } else {
                        old(s).splash_state.total_steps
                    }
                },
                ..old(s).splash_state
            },
            ..*old(s)
        }),
{
    let step = s.splash_state.current_step;
    let next = if step == usize::MAX {
        step
    } else {
        step + 1
    };
    let total = s.splash_state.total_steps;
    s.splash_state.current_message = msg;
    s.splash_state.current_step = if next < total {
        next
    } else {
        total
    };
}

/// The start-up checks are over: the splash is done, and the main view (or,
/// with no application saved, the add-server dialog) comes up.
pub fn splash_done(s: &mut AppState)
    ensures
        *final(s) == (AppState {
            splash_state: SplashState {
                done: true,
                current_step: old(s).splash_state.total_steps,
                ..old(s).splash_state
            },
            mode: if old(s).apps@.len() == 0 {
                Mode::ServerDialog
            } else {
                Mode::Normal
            },
            ..*old(s)
        }),
{
    s.splash_state.done = true;
    s.splash_state.current_step = s.splash_state.total_steps;
    s.mode = if s.apps.len() == 0 {
        Mode::ServerDialog
    } else {
        Mode::Normal
    };
}

/// What a health check's result does: the application at the position
/// (if still listed) gets the status, and, when the check learned its
/// name, that name, which the configuration records too (to be saved).
pub open spec fn health_result_spec(
    s: AppState,
    i: usize,
    status: AppStatus,
    name: Option<String>,
    n: AppState,
    e: Effect,
) -> bool {
    if i < s.apps@.len() {
        let a = s.apps@[i as int];
        match name {
            Some(nm) => {
                &&& e is SaveConfig
                &&& n == AppState { apps: n.apps, config: n.config, ..s }
                &&& app_views(n.apps@) == app_views(s.apps@).update(
                    i as int,
                    crate::model::SpringAppView { name: nm@, url: a.url@, status },
                )
                &&& n.config@.apps == with_app(s.config@.apps, nm@, a.url@)
                &&& n.config@.active_app_url == s.config@.active_app_url
            },
            None => e is Done && n == AppState { apps: n.apps, ..s } && app_views(n.apps@)
                == app_views(s.apps@).update(
                i as int,
                crate::model::SpringAppView { name: a.name@, url: a.url@, status },
            ),
        }
    } else {
        e is Done && n == s
    }
}

/// Records a health check's result.
pub fn health_result(s: &mut AppState, i: usize, status: AppStatus, name: Option<String>) -> (e: Effect)
    ensures
        health_result_spec(*old(s), i, status, name, *final(s), e),
{
    if i >= s.apps.len() {
        return Effect::Done;
    }
    let url = s.apps[i].url.clone();
    let ghost before = s.apps@;
    match name {
        Some(nm) => {
            let a = SpringApp { name: nm.clone(), url: url.clone(), status };
            let ghost av = a@;
            s.apps.set(i, a);
            proof {
                assert(app_views(s.apps@) =~= app_views(before).update(i as int, av));
            }
            s.config.add_app(nm, url);
            Effect::SaveConfig
        },
        None => {
            let a = SpringApp { name: s.apps[i].name.clone(), url, status };
            let ghost av = a@;
            s.apps.set(i, a);
            proof {
                assert(app_views(s.apps@) =~= app_views(before).update(i as int, av));
            }
            Effect::Done
        },
    }
}

/// A progress message of the port scan.
pub fn scan_progress(s: &mut AppState, msg: String)
    ensures
        *final(s) == (AppState {
            server_dialog_state: ServerDialogState { scan_progress: msg, ..old(s).server_dialog_state },
            ..*old(s)
        }),
{
    s.server_dialog_state.scan_progress = msg;
}

/// An application the port scan found joins the results.
pub fn scan_found(s: &mut AppState, url: String, port: u16, status: AppStatus)
    ensures
        *final(s) == (AppState {
            server_dialog_state: ServerDialogState {
                discovered_apps: final(s).server_dialog_state.discovered_apps,
                ..old(s).server_dialog_state
            },
            ..*old(s)
        }),
        final(s).server_dialog_state.discovered_apps@ == old(s).server_dialog_state.discovered_apps@.push(
            DiscoveredApp { url, port, status },
        ),
{
    s.server_dialog_state.discovered_apps.push(DiscoveredApp { url, port, status });
}

/// The port scan is over: its results are shown, the first highlighted.
pub fn scan_done(s: &mut AppState)
    ensures
        *final(s) == (AppState {
            server_dialog_state: ServerDialogState {
                scan_done: true,
                scan_progress: final(s).server_dialog_state.scan_progress,
                phase: ServerDialogPhase::ScanResults,
                scan_selected_index: 0,
                ..old(s).server_dialog_state
            },
            ..*old(s)
        }),
        final(s).server_dialog_state.scan_progress@ == "Scan complete."@,
{
    s.server_dialog_state.scan_done = true;
    s.server_dialog_state.scan_progress = owned("Scan complete.");
    s.server_dialog_state.phase = ServerDialogPhase::ScanResults;
    s.server_dialog_state.scan_selected_index = 0;
}

/// The Initializr metadata arrived: the wizard takes its defaults and keeps
/// it.
pub fn metadata_loaded(s: &mut AppState, meta: InitializrMetadata)
    ensures
        *final(s) == (AppState { new_project_state: final(s).new_project_state, ..*old(s) }),
        final(s).new_project_state.metadata == Some(meta),
        !final(s).new_project_state.loading_metadata,
        final(s).new_project_state.error is None,
        exists|w: NewProjectWizardState|
            crate::app_state::defaults_applied(
                NewProjectWizardState { loading_metadata: false, ..old(s).new_project_state },
                meta,
                w,
            ) && final(s).new_project_state == (NewProjectWizardState {
                metadata: Some(meta),
                error: None,
                ..w
            }),
{
    s.new_project_state.loading_metadata = false;
    let ghost w0 = s.new_project_state;
    s.new_project_state.apply_metadata_defaults(&meta);
    let ghost w1 = s.new_project_state;
    s.new_project_state.metadata = Some(meta);
    s.new_project_state.error = None;
    proof {
        assert(crate::app_state::defaults_applied(w0, meta, w1));
    }
}

/// The Initializr metadata could not be loaded: the wizard shows why.
pub fn metadata_failed(s: &mut AppState, err: &str)
    ensures
        *final(s) == (AppState {
            new_project_state: NewProjectWizardState {
                loading_metadata: false,
                error: final(s).new_project_state.error,
                ..old(s).new_project_state
            },
            ..*old(s)
        }),
        final(s).new_project_state.error matches Some(m) && m@ == "Failed to load metadata: "@ + err@,
{
    s.new_project_state.loading_metadata = false;
    let m = cat(&["Failed to load metadata: ", err]);
    proof {
        reveal_with_fuel(concat_strs, 3);
    }
    s.new_project_state.error = Some(m);
}

/// The end of a project generation: on success the wizard shows where the
/// project is; on failure it goes back to the confirmation step with the
/// error.
pub fn generate_result(s: &mut AppState, result: Result<String, String>)
    ensures
        match result {
            Ok(path) => *final(s) == (AppState {
                new_project_state: NewProjectWizardState {
                    gen_done: true,
                    gen_progress: final(s).new_project_state.gen_progress,
                    gen_result_path: Some(path),
                    ..old(s).new_project_state
                },
                ..*old(s)
            }) && final(s).new_project_state.gen_progress@ == "Project created at: "@ + path@,
            Err(m) => *final(s) == (AppState {
                new_project_state: NewProjectWizardState {
                    step: WizardStep::Confirm,
                    error: final(s).new_project_state.error,
                    ..old(s).new_project_state
                },
                ..*old(s)
            }) && (final(s).new_project_state.error matches Some(x) && x@ == "Generation failed: "@
                + m@),
        },
{
    match result {
        Ok(path) => {
            s.new_project_state.gen_done = true;
            s.new_project_state.gen_progress = cat(&["Project created at: ", path.as_str()]);
            proof {
                reveal_with_fuel(concat_strs, 3);
            }
            s.new_project_state.gen_result_path = Some(path);
        },
        Err(m) => {
            s.new_project_state.step = WizardStep::Confirm;
            s.new_project_state.error = Some(cat(&["Generation failed: ", m.as_str()]));
            proof {
                reveal_with_fuel(concat_strs, 3);
            }
        },
    }
}

/// A tick of the main loop: the spinner advances, and on the splash screen
/// its own spinner too, both wrapping around.
pub fn tick(s: &mut AppState)
    ensures
        *final(s) == (AppState {
            spinner_frame: if old(s).spinner_frame == usize::MAX {
                0
            } else {
                (old(s).spinner_frame + 1) as usize
            },
            splash_state: if old(s).mode == Mode::Splash {
                SplashState {
                    spinner_frame: if old(s).splash_state.spinner_frame == usize::MAX {
                        0
                    } else {
                        (old(s).splash_state.spinner_frame + 1) as usize
                    },
                    ..old(s).splash_state
                }
            } else {
                old(s).splash_state
            },
            ..*old(s)
        }),
{
    s.on_tick();
    if s.mode == Mode::Splash {
        s.splash_state.spinner_frame = if s.splash_state.spinner_frame == usize::MAX {
            0
        } else {
            s.splash_state.spinner_frame + 1
        };
    }
}

// ---------------------------------------------------------------------------
// Start-up checks and the local scan
// ---------------------------------------------------------------------------

/// The splash as the start-up checks begin: the first step, with a message
/// saying whether there are applications to check.
pub fn splash_start(s: &mut AppState)
    ensures
        *final(s) == (AppState {
            mode: Mode::Splash,
            splash_state: SplashState {
                current_step: 0,
                current_message: final(s).splash_state.current_message,
                ..old(s).splash_state
            },
            ..*old(s)
        }),
        final(s).splash_state.current_message@ == (if old(s).apps@.len() == 0 {
            "Starting up..."@
        } else {
            "Checking application health..."@
        }),
{
    s.mode = Mode::Splash;
    s.splash_state.current_step = 0;
    s.splash_state.current_message = if s.apps.len() == 0 {
        owned("Starting up...")
    } else {
        owned("Checking application health...")
    };
}

/// The progress message while checking application `i` (from 0) of
/// `total`: `Checking health <i+1>/<total>  <url>`.
pub fn health_progress_message(i: usize, total: usize, url: &str) -> (r: String)
    requires
        i < total,
    ensures
        r@ == "Checking health "@ + decimal((i + 1) as nat) + "/"@ + decimal(total as nat) + "  "@
            + url@,
{
    let mut r = owned("Checking health ");
    push_decimal(&mut r, (i + 1) as u64);
    push_str(&mut r, "/");
    push_decimal(&mut r, total as u64);
    push_str(&mut r, "  ");
    push_str(&mut r, url);
    r
}

/// The ports the local scan tries, in order: those Spring Boot
/// applications commonly use.
pub open spec fn scan_ports_spec() -> Seq<u16> {
    seq![8080u16, 8081, 8082, 8083, 8084, 8085, 8086, 8087, 8088, 8089, 8090, 8443, 9090, 9091, 3000, 5000]
}

/// The ports the local scan tries.
pub fn scan_ports() -> (r: Vec<u16>)
    ensures
        r@ == scan_ports_spec(),
{
    let mut v: Vec<u16> = Vec::new();
    let mut p: u16 = 8080;
    while p <= 8090
        invariant
            8080 <= p <= 8091,
            v@ == Seq::new((p - 8080) as nat, |i: int| (8080 + i) as u16),
        decreases 8091 - p,
    {
        v.push(p);
        proof {
            assert(v@ =~= Seq::new((p + 1 - 8080) as nat, |i: int| (8080 + i) as u16));
        }
        p += 1;
    }
    v.push(8443);
    v.push(9090);
    v.push(9091);
    v.push(3000);
    v.push(5000);
    proof {
        assert(v@ =~= scan_ports_spec());
    }
    v
}

/// The scan's progress message for port `port`, the `i`-th (from 0) of
/// `total`: `Scanning port <i+1>/<total> (:<port>)...`.
pub fn scan_progress_message(i: usize, total: usize, port: u16) -> (r: String)
    requires
        i < total,
    ensures
        r@ == "Scanning port "@ + decimal((i + 1) as nat) + "/"@ + decimal(total as nat) + " (:"@
            + decimal(port as nat) + ")..."@,
{
    let mut r = owned("Scanning port ");
    push_decimal(&mut r, (i + 1) as u64);
    push_str(&mut r, "/");
    push_decimal(&mut r, total as u64);
    push_str(&mut r, " (:");
    push_decimal(&mut r, port as u64);
    push_str(&mut r, ")...");
    r
}

/// The base URL of a local port: `http://localhost:<port>`.
pub fn local_url(port: u16) -> (r: String)
    ensures
        r@ == "http://localhost:"@ + decimal(port as nat),
{
    let mut r = owned("http://localhost:");
    push_decimal(&mut r, port as u64);
    r
}

} // verus!
