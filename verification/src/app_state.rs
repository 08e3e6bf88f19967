//! The state of the terminal front end: modes, dialogs, the wizard, the
//! lists of Actuator resources with their selections and filter, and the
//! command palette.

use vstd::prelude::*;

use crate::config::{saved_views, SavedApp, SavedAppView, TsbConfig};
use crate::initializr::{position_of_option, position_or_first};
use crate::model::{
    clone_opt_string, opt_view, option_views, AppStatus, Bean, Endpoint, EnvProperty,
    InitializrMetadata, Logger, Mapping, SavedDump, SpringApp, ThreadInfo,
};
use crate::display::{byte_range, byte_range_text};
use crate::text::{
    contains_seq, lowercase, owned, starts_with_seq, str_contains, str_eq, str_starts_with,
    to_lowercase,
};
use vstd::string::StringSliceAdditionalSpecFns;
use vstd::utf8::{
    encode_utf8, encode_utf8_valid_utf8, is_char_boundary, is_char_boundary_start_end_of_seq,
};

verus! {

// ---------------------------------------------------------------------------
// Modes and resources
// ---------------------------------------------------------------------------

/// The active UI mode: which panel or overlay is shown and gets the keys.
#[derive(Debug, Clone, Copy, PartialEq, Eq, Structural)]
pub enum Mode {
    Splash,
    Normal,
    Describe,
    Confirm,
    Resources,
    ServerDialog,
    EditLogger,
    NewProject,
    ThreadViz,
    ErrorModal,
}

/// The resource whose list the main view shows.
#[derive(Debug, Clone, Copy, PartialEq, Eq, Structural)]
pub enum Resource {
    Apps,
    Dashboard,
    Endpoints,
    Beans,
    Loggers,
    Mappings,
    Env,
    ThreadDump,
    HeapDump,
}

/// The key of a resource as the views name it (`apps`, `threaddump`, ...).
pub open spec fn resource_key_spec(r: Resource) -> Seq<char> {
    match r {
        Resource::Apps => "apps"@,
        Resource::Dashboard => "dashboard"@,
        Resource::Endpoints => "endpoints"@,
        Resource::Beans => "beans"@,
        Resource::Loggers => "loggers"@,
        Resource::Mappings => "mappings"@,
        Resource::Env => "env"@,
        Resource::ThreadDump => "threaddump"@,
        Resource::HeapDump => "heapdump"@,
    }
}

impl Resource {
    /// The key of this resource (`apps`, `threaddump`, ...).
    pub fn key(&self) -> (r: &'static str)
        ensures
            r@ == resource_key_spec(*self),
    {
        match self {
            Resource::Apps => "apps",
            Resource::Dashboard => "dashboard",
            Resource::Endpoints => "endpoints",
            Resource::Beans => "beans",
            Resource::Loggers => "loggers",
            Resource::Mappings => "mappings",
            Resource::Env => "env",
            Resource::ThreadDump => "threaddump",
            Resource::HeapDump => "heapdump",
        }
    }
}

/// The resource a palette command switches to: `:apps`, `:dashboard`,
/// `:endpoints`, `:beans`, `:loggers`, `:mappings`, `:env`, `:threaddump`
/// and `:heapdump` name theirs; any other command means the apps.
pub open spec fn command_resource_spec(command: Seq<char>) -> Resource {
    if command == ":dashboard"@ {
        Resource::Dashboard
    } else if command == ":endpoints"@ {
        Resource::Endpoints
    } else if command == ":beans"@ {
        Resource::Beans
    } else if command == ":loggers"@ {
        Resource::Loggers
    } else if command == ":mappings"@ {
        Resource::Mappings
    } else if command == ":env"@ {
        Resource::Env
    } else if command == ":threaddump"@ {
        Resource::ThreadDump
    } else if command == ":heapdump"@ {
        Resource::HeapDump
    } else {
        Resource::Apps
    }
}

/// The resource a palette command switches to.
pub fn command_resource(command: &str) -> (r: Resource)
    ensures
        r == command_resource_spec(command@),
{
    if str_eq(command, ":dashboard") {
        Resource::Dashboard
    } else if str_eq(command, ":endpoints") {
        Resource::Endpoints
    } else if str_eq(command, ":beans") {
        Resource::Beans
    } else if str_eq(command, ":loggers") {
        Resource::Loggers
    } else if str_eq(command, ":mappings") {
        Resource::Mappings
    } else if str_eq(command, ":env") {
        Resource::Env
    } else if str_eq(command, ":threaddump") {
        Resource::ThreadDump
    } else if str_eq(command, ":heapdump") {
        Resource::HeapDump
    } else {
        Resource::Apps
    }
}

// ---------------------------------------------------------------------------
// Command palette entries
// ---------------------------------------------------------------------------

/// An entry of the command palette.
#[derive(Debug)]
pub struct ResourceItem {
    pub name: String,
    pub command: String,
    pub description: String,
}

pub struct ResourceItemView {
    pub name: Seq<char>,
    pub command: Seq<char>,
    pub description: Seq<char>,
}

impl View for ResourceItem {
    type V = ResourceItemView;

    open spec fn view(&self) -> ResourceItemView {
        ResourceItemView { name: self.name@, command: self.command@, description: self.description@ }
    }
}

impl Clone for ResourceItem {
    fn clone(&self) -> (r: Self)
        ensures
            r == *self,
    {
        ResourceItem {
            name: self.name.clone(),
            command: self.command.clone(),
            description: self.description.clone(),
        }
    }
}

/// The views of palette entries.
pub open spec fn item_views(s: Seq<ResourceItem>) -> Seq<ResourceItemView> {
    s.map_values(|r: ResourceItem| r@)
}

/// A palette entry's view from its three texts.
pub open spec fn item(name: Seq<char>, command: Seq<char>, description: Seq<char>) -> ResourceItemView {
    ResourceItemView { name, command, description }
}

/// The entries of the command palette, in the order shown.
pub open spec fn palette_spec() -> Seq<ResourceItemView> {
    seq![
        item("Apps"@, ":apps"@, "List connected Spring Boot applications"@),
        item("Endpoints"@, ":endpoints"@, "Browse actuator endpoints"@),
        item("Beans"@, ":beans"@, "View registered Spring beans"@),
        item("Loggers"@, ":loggers"@, "View and manage logger levels"@),
        item("Mappings"@, ":mappings"@, "List HTTP request mappings"@),
        item("Env"@, ":env"@, "Inspect environment properties"@),
        item("ThreadDumps"@, ":threaddump"@, "List saved thread dumps"@),
        item("HeapDumps"@, ":heapdump"@, "List saved heap dumps"@),
        item("New Project"@, ":new"@, "Generate a new Spring Boot project via Initializr"@),
    ]
}

fn push_item(items: &mut Vec<ResourceItem>, name: &str, command: &str, description: &str)
    ensures
        item_views(final(items)@) == item_views(old(items)@).push(item(name@, command@, description@)),
{
    items.push(ResourceItem { name: owned(name), command: owned(command), description: owned(description) });
    proof {
        assert(item_views(items@) =~= item_views(old(items)@).push(item(name@, command@, description@)));
    }
}

/// The entries of the command palette.
pub fn palette() -> (r: Vec<ResourceItem>)
    ensures
        item_views(r@) == palette_spec(),
{
    let mut v: Vec<ResourceItem> = Vec::new();
    push_item(&mut v, "Apps", ":apps", "List connected Spring Boot applications");
    push_item(&mut v, "Endpoints", ":endpoints", "Browse actuator endpoints");
    push_item(&mut v, "Beans", ":beans", "View registered Spring beans");
    push_item(&mut v, "Loggers", ":loggers", "View and manage logger levels");
    push_item(&mut v, "Mappings", ":mappings", "List HTTP request mappings");
    push_item(&mut v, "Env", ":env", "Inspect environment properties");
    push_item(&mut v, "ThreadDumps", ":threaddump", "List saved thread dumps");
    push_item(&mut v, "HeapDumps", ":heapdump", "List saved heap dumps");
    push_item(&mut v, "New Project", ":new", "Generate a new Spring Boot project via Initializr");
    proof {
        assert(item_views(v@) =~= palette_spec());
    }
    v
}

// ---------------------------------------------------------------------------
// Logger levels
// ---------------------------------------------------------------------------

/// The number of log levels a logger can be set to.
pub const LOG_LEVEL_COUNT: usize = 6;

/// The log levels a logger can be set to, in the order offered.
pub open spec fn log_levels() -> Seq<Seq<char>> {
    seq!["TRACE"@, "DEBUG"@, "INFO"@, "WARN"@, "ERROR"@, "OFF"@]
}

/// The log level at a position of the list offered.
pub fn log_level(i: usize) -> (r: &'static str)
    requires
        i < LOG_LEVEL_COUNT,
    ensures
        r@ == log_levels()[i as int],
{
    if i == 0 {
        "TRACE"
    } else if i == 1 {
        "DEBUG"
    } else if i == 2 {
        "INFO"
    } else if i == 3 {
        "WARN"
    } else if i == 4 {
        "ERROR"
    } else {
        "OFF"
    }
}

/// The first position from `i` on of a level in the list offered, or that
/// of `INFO` (2) when the level is not offered.
pub open spec fn level_position_from(level: Seq<char>, i: int) -> int
    decreases 6 - i,
{
    if i < 0 || i >= 6 {
        2
    } else if log_levels()[i] == level {
        i
    } else {
        level_position_from(level, i + 1)
    }
}

/// The position of a level in the list offered, or that of `INFO`.
pub open spec fn level_position(level: Seq<char>) -> int {
    level_position_from(level, 0)
}

/// The position of a level in the list offered, or that of `INFO` (2).
pub fn level_index(level: &str) -> (r: usize)
    ensures
        r < LOG_LEVEL_COUNT,
        r == level_position(level@),
{
    let mut i: usize = 0;
    while i < LOG_LEVEL_COUNT
        invariant
            i <= LOG_LEVEL_COUNT,
            level_position(level@) == level_position_from(level@, i as int),
        decreases LOG_LEVEL_COUNT - i,
    {
        if str_eq(log_level(i), level) {
            return i;
        }
        i += 1;
    }
    2
}

/// The state of the logger level editor.
#[derive(Debug)]
pub struct EditLoggerState {
    pub logger_name: String,
    pub current_level: String,
    pub selected_level_index: usize,
    pub error: Option<String>,
}

impl Default for EditLoggerState {
    fn default() -> (r: Self)
        ensures
            r.logger_name@.len() == 0,
            r.current_level@.len() == 0,
            r.selected_level_index == 0,
            r.error is None,
    {
        EditLoggerState {
            logger_name: String::new(),
            current_level: String::new(),
            selected_level_index: 0,
            error: None,
        }
    }
}

// ---------------------------------------------------------------------------
// The new-project wizard
// ---------------------------------------------------------------------------

/// The step of the new-project wizard.
#[derive(Debug, Clone, Copy, PartialEq, Eq, Structural)]
pub enum WizardStep {
    /// Editing the project's fields and choosing its options.
    ProjectInfo,
    /// Choosing dependencies from the grouped list.
    Dependencies,
    /// Reviewing and choosing the output directory.
    Confirm,
    /// Generating the project.
    Generating,
}

/// The number of fields on the wizard's first step: five choices (boot
/// version, language, packaging, Java version, project type) then five
/// texts (group, artifact, name, description, package).
pub const WIZARD_FIELD_COUNT: usize = 10;

/// The state of the new-project wizard.
#[derive(Debug)]
pub struct NewProjectWizardState {
    pub step: WizardStep,
    pub metadata: Option<InitializrMetadata>,
    pub loading_metadata: bool,
    pub error: Option<String>,
    pub active_field: usize,
    pub boot_version_idx: usize,
    pub language_idx: usize,
    pub packaging_idx: usize,
    pub java_version_idx: usize,
    pub project_type_idx: usize,
    pub group_id: String,
    pub artifact_id: String,
    pub name: String,
    pub description: String,
    pub package_name: String,
    pub dep_group_idx: usize,
    pub dep_item_idx: usize,
    pub selected_deps: Vec<String>,
    pub dep_filter: String,
    pub dep_filter_active: bool,
    pub output_dir: String,
    pub gen_progress: String,
    pub gen_done: bool,
    pub gen_result_path: Option<String>,
}

/// The wizard as it opens: on the first step with the usual Spring Boot
/// defaults (`com.example`, `demo`, ...), the output in `.`, and the
/// dependency cursor past the first group header.
pub open spec fn wizard_default_spec(w: NewProjectWizardState) -> bool {
    &&& w.step == WizardStep::ProjectInfo
    &&& w.metadata is None
    &&& !w.loading_metadata
    &&& w.error is None
    &&& w.active_field == 0
    &&& w.boot_version_idx == 0
    &&& w.language_idx == 0
    &&& w.packaging_idx == 0
    &&& w.java_version_idx == 0
    &&& w.project_type_idx == 0
    &&& w.group_id@ == "com.example"@
    &&& w.artifact_id@ == "demo"@
    &&& w.name@ == "demo"@
    &&& w.description@ == "Demo project for Spring Boot"@
    &&& w.package_name@ == "com.example.demo"@
    &&& w.dep_group_idx == 0
    &&& w.dep_item_idx == 1
    &&& w.selected_deps@.len() == 0
    &&& w.dep_filter@.len() == 0
    &&& !w.dep_filter_active
    &&& w.output_dir@ == "."@
    &&& w.gen_progress@.len() == 0
    &&& !w.gen_done
    &&& w.gen_result_path is None
}

impl Default for NewProjectWizardState {
    fn default() -> (r: Self)
        ensures
            wizard_default_spec(r),
    {
        NewProjectWizardState {
            step: WizardStep::ProjectInfo,
            metadata: None,
            loading_metadata: false,
            error: None,
            active_field: 0,
            boot_version_idx: 0,
            language_idx: 0,
            packaging_idx: 0,
            java_version_idx: 0,
            project_type_idx: 0,
            group_id: owned("com.example"),
            artifact_id: owned("demo"),
            name: owned("demo"),
            description: owned("Demo project for Spring Boot"),
            package_name: owned("com.example.demo"),
            dep_group_idx: 0,
            dep_item_idx: 1,
            selected_deps: Vec::new(),
            dep_filter: String::new(),
            dep_filter_active: false,
            output_dir: owned("."),
            gen_progress: String::new(),
            gen_done: false,
            gen_result_path: None,
        }
    }
}

/// `n` is `w` with the metadata's defaults taken: the text fields get its
/// default texts, and each choice the position of its default option (the
/// first position when no option has the default's id).
pub open spec fn defaults_applied(w: NewProjectWizardState, meta: InitializrMetadata, n: NewProjectWizardState) -> bool {
    &&& n.group_id@ == meta.group_id_default@
    &&& n.artifact_id@ == meta.artifact_id_default@
    &&& n.name@ == meta.name_default@
    &&& n.description@ == meta.description_default@
    &&& n.package_name@ == meta.package_name_default@
    &&& n.boot_version_idx == position_or_first(
        option_views(meta.boot_versions@),
        meta.boot_version_default@,
    )
    &&& n.language_idx == position_or_first(option_views(meta.languages@), meta.language_default@)
    &&& n.packaging_idx == position_or_first(option_views(meta.packagings@), meta.packaging_default@)
    &&& n.java_version_idx == position_or_first(
        option_views(meta.java_versions@),
        meta.java_version_default@,
    )
    &&& n.project_type_idx == position_or_first(
        option_views(meta.project_types@),
        meta.project_type_default@,
    )
    &&& (NewProjectWizardState {
        group_id: w.group_id,
        artifact_id: w.artifact_id,
        name: w.name,
        description: w.description,
        package_name: w.package_name,
        boot_version_idx: w.boot_version_idx,
        language_idx: w.language_idx,
        packaging_idx: w.packaging_idx,
        java_version_idx: w.java_version_idx,
        project_type_idx: w.project_type_idx,
        ..n
    }) == w
}

impl NewProjectWizardState {
    /// Takes the metadata's defaults: the text fields get its default
    /// texts, and each choice the position of its default option (the
    /// first position when no option has the default's id).
    pub fn apply_metadata_defaults(&mut self, meta: &InitializrMetadata)
        ensures
            defaults_applied(*old(self), *meta, *final(self)),
    {
        self.group_id = meta.group_id_default.clone();
        self.artifact_id = meta.artifact_id_default.clone();
        self.name = meta.name_default.clone();
        self.description = meta.description_default.clone();
        self.package_name = meta.package_name_default.clone();
        self.boot_version_idx = position_of_option(&meta.boot_versions, meta.boot_version_default.as_str());
        self.language_idx = position_of_option(&meta.languages, meta.language_default.as_str());
        self.packaging_idx = position_of_option(&meta.packagings, meta.packaging_default.as_str());
        self.java_version_idx = position_of_option(&meta.java_versions, meta.java_version_default.as_str());
        self.project_type_idx = position_of_option(&meta.project_types, meta.project_type_default.as_str());
    }
}

// ---------------------------------------------------------------------------
// The add-server dialog
// ---------------------------------------------------------------------------

/// The phase of the add-server dialog.
#[derive(Debug, Clone, Copy, PartialEq, Eq, Structural)]
pub enum ServerDialogPhase {
    /// Choosing between manual entry and a local scan.
    ChooseMethod,
    /// The manual form: name and URL.
    ManualEntry,
    /// Scanning local ports.
    Scanning,
    /// Choosing among the applications the scan found.
    ScanResults,
}

/// An application found by the local port scan.
#[derive(Debug)]
pub struct DiscoveredApp {
    pub url: String,
    pub port: u16,
    pub status: AppStatus,
}

impl Clone for DiscoveredApp {
    fn clone(&self) -> (r: Self)
        ensures
            r == *self,
    {
        DiscoveredApp { url: self.url.clone(), port: self.port, status: self.status }
    }
}

/// The state of the add-server dialog.
#[derive(Debug)]
pub struct ServerDialogState {
    pub phase: ServerDialogPhase,
    /// The highlighted method: 0 is manual entry, 1 is the scan.
    pub method_selected: usize,
    pub name: String,
    pub url: String,
    /// The focused field of the manual form: 0 is the name, 1 the URL.
    pub active_field: usize,
    pub error: Option<String>,
    pub scan_progress: String,
    pub scan_done: bool,
    pub discovered_apps: Vec<DiscoveredApp>,
    pub scan_selected_index: usize,
}

/// The dialog as it opens: choosing the method, manual entry highlighted,
/// everything empty.
pub open spec fn server_dialog_default_spec(d: ServerDialogState) -> bool {
    &&& d.phase == ServerDialogPhase::ChooseMethod
    &&& d.method_selected == 0
    &&& d.name@.len() == 0
    &&& d.url@.len() == 0
    &&& d.active_field == 0
    &&& d.error is None
    &&& d.scan_progress@.len() == 0
    &&& !d.scan_done
    &&& d.discovered_apps@.len() == 0
    &&& d.scan_selected_index == 0
}

impl Default for ServerDialogState {
    fn default() -> (r: Self)
        ensures
            server_dialog_default_spec(r),
    {
        ServerDialogState {
            phase: ServerDialogPhase::ChooseMethod,
            method_selected: 0,
            name: String::new(),
            url: String::new(),
            active_field: 0,
            error: None,
            scan_progress: String::new(),
            scan_done: false,
            discovered_apps: Vec::new(),
            scan_selected_index: 0,
        }
    }
}

// ---------------------------------------------------------------------------
// The splash screen
// ---------------------------------------------------------------------------

/// The state of the splash screen shown while the saved applications are
/// checked.
#[derive(Debug)]
pub struct SplashState {
    pub current_step: usize,
    pub total_steps: usize,
    pub current_message: String,
    pub spinner_frame: usize,
    pub done: bool,
}

impl Default for SplashState {
    fn default() -> (r: Self)
        ensures
            r.current_step == 0,
            r.total_steps == 5,
            r.current_message@ == "Initializing TSB..."@,
            r.spinner_frame == 0,
            !r.done,
    {
        SplashState {
            current_step: 0,
            total_steps: 5,
            current_message: owned("Initializing TSB..."),
            spinner_frame: 0,
            done: false,
        }
    }
}

// ---------------------------------------------------------------------------
// The whole state
// ---------------------------------------------------------------------------

/// Everything the front end shows and edits.
#[derive(Debug)]
pub struct AppState {
    pub mode: Mode,
    pub should_quit: bool,
    pub active_resource: Resource,
    pub apps: Vec<SpringApp>,
    pub endpoints: Vec<Endpoint>,
    pub beans: Vec<Bean>,
    pub loggers: Vec<Logger>,
    pub mappings: Vec<Mapping>,
    pub env_props: Vec<EnvProperty>,
    pub selected_app_index: usize,
    pub selected_endpoint_index: usize,
    pub selected_bean_index: usize,
    pub selected_logger_index: usize,
    pub selected_mapping_index: usize,
    pub selected_env_index: usize,
    pub describe_scroll: u16,
    pub describe_content: String,
    pub describe_title: String,
    pub filter_text: String,
    pub filter_active: bool,
    pub resources: Vec<ResourceItem>,
    pub command_text: String,
    pub command_suggestions: Vec<usize>,
    pub command_suggestion_selected: usize,
    pub splash_state: SplashState,
    pub server_dialog_state: ServerDialogState,
    pub edit_logger_state: EditLoggerState,
    pub new_project_state: NewProjectWizardState,
    pub config: TsbConfig,
    pub error_message: Option<String>,
    pub error_prev_mode: Option<Mode>,
    pub modal_title: String,
    pub modal_msg: String,
    pub spinner_frame: usize,
    /// Whether the previous key was a `g` (the first half of `gg`).
    pub last_key_g: bool,
    pub saved_thread_dumps: Vec<SavedDump>,
    pub saved_heap_dumps: Vec<SavedDump>,
    pub selected_thread_dump_index: usize,
    pub selected_heap_dump_index: usize,
    pub parsed_threads: Vec<ThreadInfo>,
    pub thread_viz_scroll: usize,
    pub thread_viz_title: String,
}

/// The list of applications for a configuration: each saved one, by name
/// and URL, its status not yet known.
pub open spec fn apps_of_config(apps: Seq<SavedAppView>) -> Seq<crate::model::SpringAppView> {
    apps.map_values(
        |a: SavedAppView| crate::model::SpringAppView { name: a.name, url: a.url, status: AppStatus::Unknown },
    )
}

/// The views of applications.
pub open spec fn app_views(s: Seq<SpringApp>) -> Seq<crate::model::SpringAppView> {
    s.map_values(|a: SpringApp| a@)
}

/// The indices `0..n` in order.
pub open spec fn all_indices(n: nat) -> Seq<usize> {
    Seq::new(n, |i: int| i as usize)
}

impl AppState {
    /// The state on start: the splash screen, the applications of the
    /// configuration (status unknown), the apps view, the palette with all
    /// entries suggested, everything else empty.
    pub fn new(config: TsbConfig) -> (r: Self)
        ensures
            r.mode == Mode::Splash,
            !r.should_quit,
            r.active_resource == Resource::Apps,
            app_views(r.apps@) == apps_of_config(saved_views(config.apps@)),
            r.config == config,
            r.endpoints@.len() == 0 && r.beans@.len() == 0 && r.loggers@.len() == 0,
            r.mappings@.len() == 0 && r.env_props@.len() == 0,
            r.selected_app_index == 0 && r.selected_endpoint_index == 0,
            r.selected_bean_index == 0 && r.selected_logger_index == 0,
            r.selected_mapping_index == 0 && r.selected_env_index == 0,
            r.describe_scroll == 0 && r.describe_content@.len() == 0 && r.describe_title@.len() == 0,
            r.filter_text@.len() == 0 && !r.filter_active,
            item_views(r.resources@) == palette_spec(),
            r.command_text@.len() == 0,
            r.command_suggestions@ == all_indices(9),
            r.command_suggestion_selected == 0,
            r.splash_state.current_step == 0 && r.splash_state.total_steps == 5,
            r.splash_state.current_message@ == "Initializing TSB..."@,
            r.splash_state.spinner_frame == 0 && !r.splash_state.done,
            server_dialog_default_spec(r.server_dialog_state),
            r.edit_logger_state.logger_name@.len() == 0,
            r.edit_logger_state.current_level@.len() == 0,
            r.edit_logger_state.selected_level_index == 0,
            r.edit_logger_state.error is None,
            wizard_default_spec(r.new_project_state),
            r.error_message is None && r.error_prev_mode is None,
            r.modal_title@.len() == 0 && r.modal_msg@.len() == 0,
            r.spinner_frame == 0 && !r.last_key_g,
            r.saved_thread_dumps@.len() == 0 && r.saved_heap_dumps@.len() == 0,
            r.selected_thread_dump_index == 0 && r.selected_heap_dump_index == 0,
            r.parsed_threads@.len() == 0 && r.thread_viz_scroll == 0,
            r.thread_viz_title@.len() == 0,
    {
        let mut apps: Vec<SpringApp> = Vec::new();
        let mut i: usize = 0;
        while i < config.apps.len()
            invariant
                i <= config.apps@.len(),
                app_views(apps@) == apps_of_config(saved_views(config.apps@.take(i as int))),
            decreases config.apps@.len() - i,
        {
            let saved = &config.apps[i];
            let ghost before = apps@;
            let a = SpringApp { name: saved.name.clone(), url: saved.url.clone(), status: AppStatus::Unknown };
            let ghost av = a@;
            apps.push(a);
            proof {
                assert(app_views(apps@) =~= app_views(before).push(av));
                assert(av == (crate::model::SpringAppView {
                    name: config.apps@[i as int]@.name,
                    url: config.apps@[i as int]@.url,
                    status: AppStatus::Unknown,
                }));
                assert(saved_views(config.apps@.take(i + 1)) =~= saved_views(config.apps@.take(i as int)).push(
                    config.apps@[i as int]@,
                ));
                assert(app_views(apps@) =~= apps_of_config(saved_views(config.apps@.take(i + 1))));
            }
            i += 1;
        }
        proof {
            assert(config.apps@.take(i as int) =~= config.apps@);
        }
        let resources = palette();
        let mut suggestions: Vec<usize> = Vec::new();
        let mut k: usize = 0;
        while k < 9
            invariant
                k <= 9,
                suggestions@ == all_indices(k as nat),
            decreases 9 - k,
        {
            suggestions.push(k);
            proof {
                assert(suggestions@ =~= all_indices((k + 1) as nat));
            }
            k += 1;
        }
        AppState {
            mode: Mode::Splash,
            should_quit: false,
            active_resource: Resource::Apps,
            apps,
            endpoints: Vec::new(),
            beans: Vec::new(),
            loggers: Vec::new(),
            mappings: Vec::new(),
            env_props: Vec::new(),
            selected_app_index: 0,
            selected_endpoint_index: 0,
            selected_bean_index: 0,
            selected_logger_index: 0,
            selected_mapping_index: 0,
            selected_env_index: 0,
            describe_scroll: 0,
            describe_content: String::new(),
            describe_title: String::new(),
            filter_text: String::new(),
            filter_active: false,
            resources,
            command_text: String::new(),
            command_suggestions: suggestions,
            command_suggestion_selected: 0,
            splash_state: SplashState::default(),
            server_dialog_state: ServerDialogState::default(),
            edit_logger_state: EditLoggerState::default(),
            new_project_state: NewProjectWizardState::default(),
            config,
            error_message: None,
            error_prev_mode: None,
            modal_title: String::new(),
            modal_msg: String::new(),
            spinner_frame: 0,
            last_key_g: false,
            saved_thread_dumps: Vec::new(),
            saved_heap_dumps: Vec::new(),
            selected_thread_dump_index: 0,
            selected_heap_dump_index: 0,
            parsed_threads: Vec::new(),
            thread_viz_scroll: 0,
            thread_viz_title: String::new(),
        }
    }
}

// ---------------------------------------------------------------------------
// Filtering the active list
// ---------------------------------------------------------------------------

/// The indices below `n` that `keep` holds of, in increasing order.
pub open spec fn indices_where(n: int, keep: spec_fn(int) -> bool) -> Seq<usize>
    decreases n,
{
    if n <= 0 {
        Seq::empty()
    } else {
        let r = indices_where(n - 1, keep);
        if keep(n - 1) {
            r.push((n - 1) as usize)
        } else {
            r
        }
    }
}

/// Whether a field's lower-case text holds the (lower-case) filter.
#[verifier::opaque]
pub open spec fn field_has(field: Seq<char>, f: Seq<char>) -> bool {
    contains_seq(lowercase(field), f)
}

/// The number of entries of the active resource's list (none for the
/// dashboard).
pub open spec fn resource_len(s: AppState) -> usize {
    match s.active_resource {
        Resource::Apps => s.apps.len(),
        Resource::Endpoints => s.endpoints.len(),
        Resource::Beans => s.beans.len(),
        Resource::Loggers => s.loggers.len(),
        Resource::Mappings => s.mappings.len(),
        Resource::Env => s.env_props.len(),
        Resource::ThreadDump => s.saved_thread_dumps.len(),
        Resource::HeapDump => s.saved_heap_dumps.len(),
        Resource::Dashboard => 0,
    }
}

/// Whether entry `i` of the active list passes the lower-case filter `f`:
/// `f` is empty or one of the entry's shown fields holds it (for an app
/// its name, URL and status; for a logger its name, effective level and
/// configured level; for a dump its path, timestamp and app name; for the
/// others all their fields).
pub open spec fn entry_matches(s: AppState, f: Seq<char>, i: int) -> bool {
    f.len() == 0 || match s.active_resource {
        Resource::Apps => {
            let a = s.apps@[i];
            field_has(a.name@, f) || field_has(a.url@, f) || field_has(
                crate::model::status_label(a.status),
                f,
            )
        },
        Resource::Endpoints => {
            let e = s.endpoints@[i];
            field_has(e.name@, f) || field_has(e.url@, f)
        },
        Resource::Beans => {
            let b = s.beans@[i];
            field_has(b.name@, f) || field_has(b.scope@, f) || field_has(b.bean_type@, f)
        },
        Resource::Loggers => {
            let l = s.loggers@[i];
            field_has(l.name@, f) || field_has(l.effective_level@, f) || field_has(
                match l.configured_level {
                    Some(c) => c@,
                    None => Seq::empty(),
                },
                f,
            )
        },
        Resource::Mappings => {
            let m = s.mappings@[i];
            field_has(m.pattern@, f) || field_has(m.handler@, f)
        },
        Resource::Env => {
            let e = s.env_props@[i];
            field_has(e.name@, f) || field_has(e.value@, f) || field_has(e.source@, f)
        },
        Resource::ThreadDump => {
            let d = s.saved_thread_dumps@[i];
            field_has(d.path@, f) || field_has(d.timestamp@, f) || field_has(d.app_name@, f)
        },
        Resource::HeapDump => {
            let d = s.saved_heap_dumps@[i];
            field_has(d.path@, f) || field_has(d.timestamp@, f) || field_has(d.app_name@, f)
        },
        Resource::Dashboard => false,
    }
}

/// The indices of the active list's entries that pass the filter (its
/// text taken in lower case), in order.
pub open spec fn filtered_spec(s: AppState) -> Seq<usize> {
    indices_where(resource_len(s) as int, |i: int| entry_matches(s, lowercase(s.filter_text@), i))
}

/// The selection of the active list (the first entry's index for the
/// dashboard).
pub open spec fn active_index_spec(s: AppState) -> usize {
    match s.active_resource {
        Resource::Apps => s.selected_app_index,
        Resource::Endpoints => s.selected_endpoint_index,
        Resource::Beans => s.selected_bean_index,
        Resource::Loggers => s.selected_logger_index,
        Resource::Mappings => s.selected_mapping_index,
        Resource::Env => s.selected_env_index,
        Resource::ThreadDump => s.selected_thread_dump_index,
        Resource::HeapDump => s.selected_heap_dump_index,
        Resource::Dashboard => 0,
    }
}

/// The state with the active list's selection set to `v` (for the
/// dashboard, the applications' selection is the one set).
pub open spec fn with_active_index(s: AppState, v: usize) -> AppState {
    match s.active_resource {
        Resource::Apps | Resource::Dashboard => AppState { selected_app_index: v, ..s },
        Resource::Endpoints => AppState { selected_endpoint_index: v, ..s },
        Resource::Beans => AppState { selected_bean_index: v, ..s },
        Resource::Loggers => AppState { selected_logger_index: v, ..s },
        Resource::Mappings => AppState { selected_mapping_index: v, ..s },
        Resource::Env => AppState { selected_env_index: v, ..s },
        Resource::ThreadDump => AppState { selected_thread_dump_index: v, ..s },
        Resource::HeapDump => AppState { selected_heap_dump_index: v, ..s },
    }
}

/// The first position of `x` in `s` from `i` on.
pub open spec fn first_pos(s: Seq<usize>, x: usize, i: int) -> Option<int>
    decreases s.len() - i,
{
    if i < 0 || i >= s.len() {
        None
    } else if s[i] == x {
        Some(i)
    } else {
        first_pos(s, x, i + 1)
    }
}

/// Where `next` moves the selection: one entry down the filtered list,
/// staying on the last; to the first entry when the selection is not in
/// the list; nowhere when the list is empty.
pub open spec fn next_target(s: AppState) -> Option<usize> {
    let ix = filtered_spec(s);
    if ix.len() == 0 {
        None
    } else {
        let p = match first_pos(ix, active_index_spec(s), 0) {
            Some(p) => if p + 1 < ix.len() {
                p + 1
            } else {
                ix.len() - 1
            },
            None => 0,
        };
        Some(ix[p])
    }
}

/// Where `previous` moves the selection: one entry up the filtered list,
/// staying on the first; to the first entry when the selection is not in
/// the list; nowhere when the list is empty.
pub open spec fn previous_target(s: AppState) -> Option<usize> {
    let ix = filtered_spec(s);
    if ix.len() == 0 {
        None
    } else {
        let p = match first_pos(ix, active_index_spec(s), 0) {
            Some(p) => if p > 0 {
                p - 1
            } else {
                0
            },
            None => 0,
        };
        Some(ix[p])
    }
}

proof fn lemma_first_pos(s: Seq<usize>, x: usize, i: int)
    ensures
        first_pos(s, x, i) matches Some(p) ==> i <= p < s.len() && s[p] == x,
    decreases s.len() - i,
{
    if 0 <= i < s.len() && s[i] != x {
        lemma_first_pos(s, x, i + 1);
    }
}

impl AppState {
    fn resource_len_exec(&self) -> (r: usize)
        ensures
            r == resource_len(*self),
    {
        match self.active_resource {
            Resource::Apps => self.apps.len(),
            Resource::Endpoints => self.endpoints.len(),
            Resource::Beans => self.beans.len(),
            Resource::Loggers => self.loggers.len(),
            Resource::Mappings => self.mappings.len(),
            Resource::Env => self.env_props.len(),
            Resource::ThreadDump => self.saved_thread_dumps.len(),
            Resource::HeapDump => self.saved_heap_dumps.len(),
            Resource::Dashboard => 0,
        }
    }

    fn entry_matches_exec(&self, f: &str, i: usize) -> (r: bool)
        requires
            i < resource_len(*self),
        ensures
            r == entry_matches(*self, f@, i as int),
    {
        if f.is_empty() {
            return true;
        }
        let r = match self.active_resource {
            Resource::Apps => {
                let a = &self.apps[i];
                field_has_exec(a.name.as_str(), f) || field_has_exec(a.url.as_str(), f)
                    || field_has_exec(status_text(a.status), f)
            },
            Resource::Endpoints => {
                let e = &self.endpoints[i];
                field_has_exec(e.name.as_str(), f) || field_has_exec(e.url.as_str(), f)
            },
            Resource::Beans => {
                let b = &self.beans[i];
                field_has_exec(b.name.as_str(), f) || field_has_exec(b.scope.as_str(), f)
                    || field_has_exec(b.bean_type.as_str(), f)
            },
            Resource::Loggers => {
                let l = &self.loggers[i];
                let by_configured = match &l.configured_level {
                    Some(c) => field_has_exec(c.as_str(), f),
                    None => {
                        proof {
                            reveal_strlit("");
                            assert(""@ =~= Seq::<char>::empty());
                        }
                        field_has_exec("", f)
                    },
                };
                field_has_exec(l.name.as_str(), f) || field_has_exec(l.effective_level.as_str(), f)
                    || by_configured
            },
            Resource::Mappings => {
                let m = &self.mappings[i];
                field_has_exec(m.pattern.as_str(), f) || field_has_exec(m.handler.as_str(), f)
            },
            Resource::Env => {
                let e = &self.env_props[i];
                field_has_exec(e.name.as_str(), f) || field_has_exec(e.value.as_str(), f)
                    || field_has_exec(e.source.as_str(), f)
            },
            Resource::ThreadDump => {
                let d = &self.saved_thread_dumps[i];
                field_has_exec(d.path.as_str(), f) || field_has_exec(d.timestamp.as_str(), f)
                    || field_has_exec(d.app_name.as_str(), f)
            },
            Resource::HeapDump => {
                let d = &self.saved_heap_dumps[i];
                field_has_exec(d.path.as_str(), f) || field_has_exec(d.timestamp.as_str(), f)
                    || field_has_exec(d.app_name.as_str(), f)
            },
            Resource::Dashboard => false,
        };
        r
    }

    /// The indices of the active list's entries that pass the filter.
    pub fn filtered_indices(&self) -> (r: Vec<usize>)
        ensures
            r@ == filtered_spec(*self),
            self.filter_text@.len() == 0 ==> r@ == Seq::new(
                resource_len(*self) as nat,
                |i: int| i as usize,
            ),
    {
        let f = to_lowercase(self.filter_text.as_str());
        let n = self.resource_len_exec();
        let ghost keep = |i: int| entry_matches(*self, lowercase(self.filter_text@), i);
        let mut out: Vec<usize> = Vec::new();
        let mut i: usize = 0;
        while i < n
            invariant
                i <= n,
                n == resource_len(*self),
                f@ == lowercase(self.filter_text@),
                keep == (|i: int| entry_matches(*self, lowercase(self.filter_text@), i)),
                out@ == indices_where(i as int, keep),
            decreases n - i,
        {
            if self.entry_matches_exec(f.as_str(), i) {
                out.push(i);
            }
            i += 1;
        }
        proof {
            if self.filter_text@.len() == 0 {
                lemma_indices_where_all(n as int, keep);
            }
        }
        out
    }

    /// The selection of the active list.
    pub fn active_index(&self) -> (r: usize)
        ensures
            r == active_index_spec(*self),
    {
        match self.active_resource {
            Resource::Apps => self.selected_app_index,
            Resource::Endpoints => self.selected_endpoint_index,
            Resource::Beans => self.selected_bean_index,
            Resource::Loggers => self.selected_logger_index,
            Resource::Mappings => self.selected_mapping_index,
            Resource::Env => self.selected_env_index,
            Resource::ThreadDump => self.selected_thread_dump_index,
            Resource::HeapDump => self.selected_heap_dump_index,
            Resource::Dashboard => 0,
        }
    }

    /// Sets the selection of the active list.
    pub fn set_active_index(&mut self, v: usize)
        ensures
            *final(self) == with_active_index(*old(self), v),
    {
        match self.active_resource {
            Resource::Apps | Resource::Dashboard => self.selected_app_index = v,
            Resource::Endpoints => self.selected_endpoint_index = v,
            Resource::Beans => self.selected_bean_index = v,
            Resource::Loggers => self.selected_logger_index = v,
            Resource::Mappings => self.selected_mapping_index = v,
            Resource::Env => self.selected_env_index = v,
            Resource::ThreadDump => self.selected_thread_dump_index = v,
            Resource::HeapDump => self.selected_heap_dump_index = v,
        }
    }

    /// Moves the selection one entry down the filtered list.
    pub fn next(&mut self)
        ensures
            match next_target(*old(self)) {
                Some(t) => *final(self) == with_active_index(*old(self), t),
                None => *final(self) == *old(self),
            },
    {
        let indices = self.filtered_indices();
        if indices.len() == 0 {
            return;
        }
        let current = self.active_index();
        let p = position_in(&indices, current);
        proof {
            lemma_first_pos(indices@, current, 0);
        }
        let next_pos = match p {
            Some(p) => if p + 1 < indices.len() {
                p + 1
            } else {
                indices.len() - 1
            },
            None => 0,
        };
        self.set_active_index(indices[next_pos]);
    }

    /// Moves the selection one entry up the filtered list.
    pub fn previous(&mut self)
        ensures
            match previous_target(*old(self)) {
                Some(t) => *final(self) == with_active_index(*old(self), t),
                None => *final(self) == *old(self),
            },
    {
        let indices = self.filtered_indices();
        if indices.len() == 0 {
            return;
        }
        let current = self.active_index();
        let p = position_in(&indices, current);
        proof {
            lemma_first_pos(indices@, current, 0);
        }
        let prev_pos = match p {
            Some(p) => if p > 0 {
                p - 1
            } else {
                0
            },
            None => 0,
        };
        self.set_active_index(indices[prev_pos]);
    }

    /// Selects the first entry of the filtered list, if any.
    pub fn go_to_top(&mut self)
        ensures
            filtered_spec(*old(self)).len() == 0 ==> *final(self) == *old(self),
            filtered_spec(*old(self)).len() > 0 ==> *final(self) == with_active_index(
                *old(self),
                filtered_spec(*old(self))[0],
            ),
    {
        let indices = self.filtered_indices();
        if indices.len() == 0 {
            return;
        }
        self.set_active_index(indices[0]);
    }

    /// Selects the last entry of the filtered list, if any.
    pub fn go_to_bottom(&mut self)
        ensures
            filtered_spec(*old(self)).len() == 0 ==> *final(self) == *old(self),
            filtered_spec(*old(self)).len() > 0 ==> *final(self) == with_active_index(
                *old(self),
                filtered_spec(*old(self)).last(),
            ),
    {
        let indices = self.filtered_indices();
        if indices.len() == 0 {
            return;
        }
        let last = indices[indices.len() - 1];
        self.set_active_index(last);
    }
}

fn status_text(st: AppStatus) -> (r: &'static str)
    ensures
        r@ == crate::model::status_label(st),
{
    match st {
        AppStatus::Up => "UP",
        AppStatus::Down => "DOWN",
        AppStatus::Unknown => "UNKNOWN",
    }
}

fn field_has_exec(field: &str, f: &str) -> (r: bool)
    ensures
        r == field_has(field@, f@),
{
    let lower = to_lowercase(field);
    let r = str_contains(lower.as_str(), f);
    proof {
        reveal(field_has);
    }
    r
}

/// The position of `x` in `v`, if it occurs.
pub fn position_in(v: &Vec<usize>, x: usize) -> (r: Option<usize>)
    ensures
        match r {
            Some(p) => first_pos(v@, x, 0) == Some(p as int),
            None => first_pos(v@, x, 0) is None,
        },
{
    let mut i: usize = 0;
    while i < v.len()
        invariant
            i <= v.len(),
            first_pos(v@, x, 0) == first_pos(v@, x, i as int),
        decreases v.len() - i,
    {
        if v[i] == x {
            return Some(i);
        }
        i += 1;
    }
    None
}

// ---------------------------------------------------------------------------
// The active application
// ---------------------------------------------------------------------------

/// The URL of the active application: the configuration's active URL when
/// it has one, else that of the selected application, if any.
pub open spec fn active_app_url_spec(s: AppState) -> Option<Seq<char>> {
    match s.config.active_app_url {
        Some(u) => Some(u@),
        None => if s.selected_app_index < s.apps@.len() {
            Some(s.apps@[s.selected_app_index as int].url@)
        } else {
            None
        },
    }
}

/// The first application with the URL, from position `i` on.
pub open spec fn app_with_url(apps: Seq<SpringApp>, url: Seq<char>, i: int) -> Option<int>
    decreases apps.len() - i,
{
    if i < 0 || i >= apps.len() {
        None
    } else if apps[i].url@ == url {
        Some(i)
    } else {
        app_with_url(apps, url, i + 1)
    }
}

/// The name of the active application: that of the first application with
/// the configuration's active URL, else that of the selected application,
/// else `No server`.
pub open spec fn server_name_spec(s: AppState) -> Seq<char> {
    let by_url = match s.config.active_app_url {
        Some(u) => app_with_url(s.apps@, u@, 0),
        None => None,
    };
    match by_url {
        Some(k) => s.apps@[k].name@,
        None => if s.selected_app_index < s.apps@.len() {
            s.apps@[s.selected_app_index as int].name@
        } else {
            "No server"@
        },
    }
}

proof fn lemma_app_with_url(apps: Seq<SpringApp>, url: Seq<char>, i: int)
    ensures
        app_with_url(apps, url, i) matches Some(k) ==> i <= k < apps.len(),
    decreases apps.len() - i,
{
    if 0 <= i < apps.len() && apps[i].url@ != url {
        lemma_app_with_url(apps, url, i + 1);
    }
}

impl AppState {
    /// The URL of the active application.
    pub fn active_app_url(&self) -> (r: Option<String>)
        ensures
            opt_view(r) == active_app_url_spec(*self),
    {
        if let Some(url) = &self.config.active_app_url {
            return Some(url.clone());
        }
        if self.selected_app_index < self.apps.len() {
            Some(self.apps[self.selected_app_index].url.clone())
        } else {
            None
        }
    }

    /// The name of the active application.
    pub fn current_server_name(&self) -> (r: String)
        ensures
            r@ == server_name_spec(*self),
    {
        if let Some(active) = &self.config.active_app_url {
            let mut i: usize = 0;
            while i < self.apps.len()
                invariant
                    i <= self.apps@.len(),
                    self.config.active_app_url == Some(*active),
                    app_with_url(self.apps@, active@, 0) == app_with_url(self.apps@, active@, i as int),
                decreases self.apps@.len() - i,
            {
                if str_eq(self.apps[i].url.as_str(), active.as_str()) {
                    proof {
                        assert(app_with_url(self.apps@, active@, i as int) == Some(i as int));
                    }
                    return self.apps[i].name.clone();
                }
                i += 1;
            }
        }
        if self.selected_app_index < self.apps.len() {
            self.apps[self.selected_app_index].name.clone()
        } else {
            owned("No server")
        }
    }
}

// ---------------------------------------------------------------------------
// The command palette
// ---------------------------------------------------------------------------

/// Whether a palette entry matches the lower-case query: the query is
/// empty, or the entry's lower-case name, command or description holds it.
pub open spec fn item_matches(r: ResourceItemView, q: Seq<char>) -> bool {
    q.len() == 0 || contains_seq(lowercase(r.name), q) || contains_seq(lowercase(r.command), q)
        || contains_seq(lowercase(r.description), q)
}

/// The palette entries the typed command suggests, by position.
pub open spec fn suggestions_spec(s: AppState) -> Seq<usize> {
    indices_where(
        s.resources@.len() as int,
        |i: int| item_matches(s.resources@[i]@, lowercase(s.command_text@)),
    )
}

/// The highlighted suggestion's entry, if the highlight and the entry it
/// names exist.
pub open spec fn selected_command_spec(s: AppState) -> Option<ResourceItem> {
    if s.command_suggestion_selected < s.command_suggestions@.len() {
        let k = s.command_suggestions@[s.command_suggestion_selected as int];
        if k < s.resources@.len() {
            Some(s.resources@[k as int])
        } else {
            None
        }
    } else {
        None
    }
}

impl AppState {
    /// Recomputes the suggestions from the typed command and highlights
    /// the first.
    pub fn update_command_suggestions(&mut self)
        ensures
            *final(self) == (AppState {
                command_suggestions: final(self).command_suggestions,
                command_suggestion_selected: 0,
                ..*old(self)
            }),
            final(self).command_suggestions@ == suggestions_spec(*old(self)),
            old(self).command_text@.len() == 0 ==> final(self).command_suggestions@ == Seq::new(
                old(self).resources@.len(),
                |i: int| i as usize,
            ),
    {
        let q = to_lowercase(self.command_text.as_str());
        let ghost keep = |i: int| item_matches(self.resources@[i]@, lowercase(self.command_text@));
        let mut out: Vec<usize> = Vec::new();
        let mut i: usize = 0;
        while i < self.resources.len()
            invariant
                i <= self.resources@.len(),
                q@ == lowercase(self.command_text@),
                keep == (|i: int| item_matches(self.resources@[i]@, lowercase(self.command_text@))),
                out@ == indices_where(i as int, keep),
            decreases self.resources@.len() - i,
        {
            let r = &self.resources[i];
            let hit = q.as_str().is_empty() || field_has_exec(r.name.as_str(), q.as_str())
                || field_has_exec(r.command.as_str(), q.as_str()) || field_has_exec(
                r.description.as_str(),
                q.as_str(),
            );
            proof {
                reveal(field_has);
            }
            if hit {
                out.push(i);
            }
            i += 1;
        }
        proof {
            if self.command_text@.len() == 0 {
                lemma_indices_where_all(self.resources@.len() as int, keep);
            }
        }
        self.command_suggestions = out;
        self.command_suggestion_selected = 0;
    }

    /// The highlighted palette entry, if any.
    pub fn get_selected_command(&self) -> (r: Option<&ResourceItem>)
        ensures
            match r {
                Some(item) => selected_command_spec(*self) == Some(*item),
                None => selected_command_spec(*self) is None,
            },
    {
        if self.command_suggestion_selected < self.command_suggestions.len() {
            let k = self.command_suggestions[self.command_suggestion_selected];
            if k < self.resources.len() {
                return Some(&self.resources[k]);
            }
        }
        None
    }

    /// Advances the spinner by one frame, wrapping around.
    pub fn on_tick(&mut self)
        ensures
            *final(self) == (AppState {
                spinner_frame: if old(self).spinner_frame == usize::MAX {
                    0
                } else {
                    (old(self).spinner_frame + 1) as usize
                },
                ..*old(self)
            }),
    {
        self.spinner_frame = if self.spinner_frame == usize::MAX {
            0
        } else {
            self.spinner_frame + 1
        };
    }

    /// Shows an error in the error modal, remembering the mode to return to
    /// (the modal's own mode is not remembered over the one it covers).
    pub fn show_error(&mut self, msg: String)
        ensures
            *final(self) == (AppState {
                mode: Mode::ErrorModal,
                error_message: Some(msg),
                error_prev_mode: if old(self).mode == Mode::ErrorModal {
                    old(self).error_prev_mode
                } else {
                    Some(old(self).mode)
                },
                ..*old(self)
            }),
    {
        if self.mode != Mode::ErrorModal {
            self.error_prev_mode = Some(self.mode);
        }
        self.error_message = Some(msg);
        self.mode = Mode::ErrorModal;
    }
}

// ---------------------------------------------------------------------------
// Completion hint of the command palette
// ---------------------------------------------------------------------------

/// What the palette shows dimmed after the typed text: when something was
/// typed and the lower-case command starts with the lower-case text, the
/// command from the typed text's byte length on; otherwise nothing.
pub open spec fn ghost_spec(command: Seq<char>, typed: Seq<char>) -> Seq<char> {
    if typed.len() > 0 && starts_with_seq(lowercase(command), lowercase(typed)) {
        byte_range_text(command, encode_utf8(typed).len() as int, encode_utf8(command).len() as int)
    } else {
        Seq::empty()
    }
}

/// Whether the command can be cut where the typed text ends, when the hint
/// is shown.
pub open spec fn ghost_cut_ok(command: Seq<char>, typed: Seq<char>) -> bool {
    typed.len() > 0 && starts_with_seq(lowercase(command), lowercase(typed)) ==> {
        &&& encode_utf8(typed).len() <= encode_utf8(command).len()
        &&& is_char_boundary(encode_utf8(command), encode_utf8(typed).len() as int)
    }
}

/// The completion hint for a palette command after the typed text.
pub fn ghost_suffix(command: &str, typed: &str) -> (r: String)
    requires
        ghost_cut_ok(command@, typed@),
    ensures
        r@ == ghost_spec(command@, typed@),
{
    if typed.is_empty() {
        return String::new();
    }
    let lower_command = to_lowercase(command);
    let lower_typed = to_lowercase(typed);
    if !str_starts_with(lower_command.as_str(), lower_typed.as_str()) {
        return String::new();
    }
    let from = typed.as_bytes().len();
    let to = command.as_bytes().len();
    proof {
        encode_utf8_valid_utf8(command@);
        is_char_boundary_start_end_of_seq(command.spec_bytes());
    }
    byte_range(command, from, to)
}

// ---------------------------------------------------------------------------
// Laws of list navigation
// ---------------------------------------------------------------------------

/// When every index is kept, all indices below `n` are, in order.
pub proof fn lemma_indices_where_all(n: int, keep: spec_fn(int) -> bool)
    requires
        0 <= n <= usize::MAX,
        forall|i: int| 0 <= i < n ==> #[trigger] keep(i),
    ensures
        indices_where(n, keep) == Seq::new(n as nat, |i: int| i as usize),
    decreases n,
{
    if n > 0 {
        lemma_indices_where_all(n - 1, keep);
        assert(indices_where(n, keep) =~= Seq::new(n as nat, |i: int| i as usize));
    }
}

/// The indices kept are in increasing order, below `n`, and kept.
proof fn lemma_indices_where_has(n: int, keep: spec_fn(int) -> bool, i: int)
    requires
        0 <= i < n <= usize::MAX,
    ensures
        indices_where(n, keep).contains(i as usize) <==> keep(i),
    decreases n,
{
    lemma_indices_where(n, keep);
    let r = indices_where(n - 1, keep);
    if i < n - 1 {
        lemma_indices_where_has(n - 1, keep, i);
        lemma_indices_where(n - 1, keep);
        if keep(n - 1) {
            assert(indices_where(n, keep) == r.push((n - 1) as usize));
            if indices_where(n, keep).contains(i as usize) {
                let k = choose|k: int| 0 <= k < indices_where(n, keep).len() && indices_where(n, keep)[k] == i as usize;
                if k < r.len() {
                    assert(r[k] == i as usize);
                }
            }
            if r.contains(i as usize) {
                let k = choose|k: int| 0 <= k < r.len() && r[k] == i as usize;
                assert(indices_where(n, keep)[k] == i as usize);
            }
        }
    } else {
        if keep(n - 1) {
            assert(indices_where(n, keep)[r.len() as int] == i as usize);
        } else if indices_where(n, keep).contains(i as usize) {
            let k = choose|k: int| 0 <= k < r.len() && r[k] == i as usize;
            assert(r[k] < n - 1);
        }
    }
}

/// Whether a column's lower-case text holds a lower-case filter.
pub open spec fn column_shows(column: Seq<char>, f: Seq<char>) -> bool {
    contains_seq(lowercase(column), f)
}

/// The filter keeps exactly the entries of the active list that one of
/// their shown columns matches, compared in lower case (every entry for an
/// empty filter): an app by its name, URL or status; an endpoint by its
/// name or URL; a bean by its name, scope or type; a logger by its name,
/// effective level or configured level; a mapping by its pattern or
/// handler; a property by its name, value or source; a saved dump by its
/// path, timestamp or application name.
pub proof fn law_filter_keeps_matching_entries(s: AppState, i: int)
    requires
        0 <= i < resource_len(s),
    ensures
        ({
            let f = lowercase(s.filter_text@);
            filtered_spec(s).contains(i as usize) <==> (f.len() == 0 || match s.active_resource {
                Resource::Apps => column_shows(s.apps@[i].name@, f) || column_shows(s.apps@[i].url@, f)
                    || column_shows(crate::model::status_label(s.apps@[i].status), f),
                Resource::Endpoints => column_shows(s.endpoints@[i].name@, f) || column_shows(
                    s.endpoints@[i].url@,
                    f,
                ),
                Resource::Beans => column_shows(s.beans@[i].name@, f) || column_shows(s.beans@[i].scope@, f)
                    || column_shows(s.beans@[i].bean_type@, f),
                Resource::Loggers => column_shows(s.loggers@[i].name@, f) || column_shows(
                    s.loggers@[i].effective_level@,
                    f,
                ) || (s.loggers@[i].configured_level matches Some(c) && column_shows(c@, f)) || (
                s.loggers@[i].configured_level is None && column_shows(Seq::empty(), f)),
                Resource::Mappings => column_shows(s.mappings@[i].pattern@, f) || column_shows(
                    s.mappings@[i].handler@,
                    f,
                ),
                Resource::Env => column_shows(s.env_props@[i].name@, f) || column_shows(s.env_props@[i].value@, f)
                    || column_shows(s.env_props@[i].source@, f),
                Resource::ThreadDump => column_shows(s.saved_thread_dumps@[i].path@, f) || column_shows(
                    s.saved_thread_dumps@[i].timestamp@,
                    f,
                ) || column_shows(s.saved_thread_dumps@[i].app_name@, f),
                Resource::HeapDump => column_shows(s.saved_heap_dumps@[i].path@, f) || column_shows(
                    s.saved_heap_dumps@[i].timestamp@,
                    f,
                ) || column_shows(s.saved_heap_dumps@[i].app_name@, f),
                Resource::Dashboard => false,
            })
        }),
{
    reveal(field_has);
    let f = lowercase(s.filter_text@);
    lemma_indices_where_has(resource_len(s) as int, |k: int| entry_matches(s, f, k), i);
}

pub proof fn lemma_indices_where(n: int, keep: spec_fn(int) -> bool)
    requires
        n <= usize::MAX,
    ensures
        forall|a: int, b: int|
            0 <= a < b < indices_where(n, keep).len() ==> (#[trigger] indices_where(n, keep)[a])
                < (#[trigger] indices_where(n, keep)[b]),
        forall|a: int|
            0 <= a < indices_where(n, keep).len() ==> (#[trigger] indices_where(n, keep)[a]) < n
                && keep(indices_where(n, keep)[a] as int),
    decreases n,
{
    if n > 0 {
        lemma_indices_where(n - 1, keep);
        let r = indices_where(n - 1, keep);
        if keep(n - 1) {
            assert(indices_where(n, keep) == r.push((n - 1) as usize));
            assert(((n - 1) as usize) as int == n - 1);
        }
    }
}

proof fn lemma_first_pos_increasing(s: Seq<usize>, q: int, i: int)
    requires
        forall|a: int, b: int| 0 <= a < b < s.len() ==> (#[trigger] s[a]) < (#[trigger] s[b]),
        0 <= i <= q < s.len(),
    ensures
        first_pos(s, s[q], i) == Some(q),
    decreases q - i,
{
    if i < q {
        assert(s[i] < s[q]);
        lemma_first_pos_increasing(s, q, i + 1);
    }
}

/// Changing the selection leaves the filtered list as it is.
pub proof fn law_selection_keeps_filter(s: AppState, v: usize)
    ensures
        filtered_spec(with_active_index(s, v)) == filtered_spec(s),
        s.active_resource != Resource::Dashboard ==> active_index_spec(with_active_index(s, v))
            == v,
{
    let t = with_active_index(s, v);
    assert(resource_len(t) == resource_len(s));
    assert forall|i: int| #![auto]
        entry_matches(t, lowercase(t.filter_text@), i) == entry_matches(
            s,
            lowercase(s.filter_text@),
            i,
        ) by {}
    assert((|i: int| entry_matches(t, lowercase(t.filter_text@), i)) =~= (|i: int|
        entry_matches(s, lowercase(s.filter_text@), i)));
}

/// Moving up, moving down, going to the top and going to the bottom always
/// select an entry of the filtered list.
pub proof fn law_navigation_stays_in_list(s: AppState)
    ensures
        next_target(s) matches Some(t) ==> filtered_spec(s).contains(t),
        previous_target(s) matches Some(t) ==> filtered_spec(s).contains(t),
        filtered_spec(s).len() > 0 ==> filtered_spec(s).contains(filtered_spec(s)[0])
            && filtered_spec(s).contains(filtered_spec(s).last()),
{
    let ix = filtered_spec(s);
    lemma_first_pos(ix, active_index_spec(s), 0);
    if let Some(t) = next_target(s) {
        let p = match first_pos(ix, active_index_spec(s), 0) {
            Some(p) => if p + 1 < ix.len() {
                p + 1
            } else {
                ix.len() - 1
            },
            None => 0,
        };
        assert(ix[p] == t);
    }
    if let Some(t) = previous_target(s) {
        let p = match first_pos(ix, active_index_spec(s), 0) {
            Some(p) => if p > 0 {
                p - 1
            } else {
                0
            },
            None => 0,
        };
        assert(ix[p] == t);
    }
    if ix.len() > 0 {
        assert(ix[ix.len() - 1] == ix.last());
    }
}

/// Moving down and then up returns to the entry selected before, when
/// that entry is in the filtered list and not its last.
pub proof fn law_next_then_previous(s: AppState)
    requires
        s.active_resource != Resource::Dashboard,
        filtered_spec(s).contains(active_index_spec(s)),
        active_index_spec(s) != filtered_spec(s).last(),
    ensures
        next_target(s) matches Some(t) && previous_target(with_active_index(s, t)) == Some(
            active_index_spec(s),
        ),
{
    let ix = filtered_spec(s);
    lemma_indices_where(
        resource_len(s) as int,
        |i: int| entry_matches(s, lowercase(s.filter_text@), i),
    );
    let q = choose|q: int| 0 <= q < ix.len() && ix[q] == active_index_spec(s);
    lemma_first_pos_increasing(ix, q, 0);
    assert(q + 1 < ix.len());
    let t = ix[q + 1];
    assert(next_target(s) == Some(t));
    let s2 = with_active_index(s, t);
    law_selection_keeps_filter(s, t);
    lemma_first_pos_increasing(ix, q + 1, 0);
    assert(first_pos(filtered_spec(s2), active_index_spec(s2), 0) == Some(q + 1));
}

/// Moving down from the last entry of the filtered list stays there, and
/// moving up from the first stays there.
pub proof fn law_ends_are_sticky(s: AppState)
    requires
        filtered_spec(s).len() > 0,
    ensures
        active_index_spec(s) == filtered_spec(s).last() ==> next_target(s) == Some(
            active_index_spec(s),
        ),
        active_index_spec(s) == filtered_spec(s)[0] ==> previous_target(s) == Some(
            active_index_spec(s),
        ),
{
    let ix = filtered_spec(s);
    lemma_indices_where(
        resource_len(s) as int,
        |i: int| entry_matches(s, lowercase(s.filter_text@), i),
    );
    if active_index_spec(s) == ix.last() {
        lemma_first_pos_increasing(ix, ix.len() - 1, 0);
    }
    if active_index_spec(s) == ix[0] {
        lemma_first_pos_increasing(ix, 0, 0);
    }
}

} // verus!
