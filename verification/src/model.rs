//! Data read from a Spring Boot application's Actuator endpoints and from
//! the Spring Initializr metadata, with a mathematical view of each type.

use vstd::prelude::*;

use crate::text::{owned, str_eq};

verus! {

// ---------------------------------------------------------------------------
// Shared helpers
// ---------------------------------------------------------------------------

/// A copy of an optional string.
pub fn clone_opt_string(o: &Option<String>) -> (r: Option<String>)
    ensures
        r == *o,
{
    match o {
        Some(s) => Some(s.clone()),
        None => None,
    }
}

/// The view of an optional string.
pub open spec fn opt_view(o: Option<String>) -> Option<Seq<char>> {
    match o {
        Some(s) => Some(s@),
        None => None,
    }
}

// ---------------------------------------------------------------------------
// Application status
// ---------------------------------------------------------------------------

/// Health status of a Spring Boot application.
#[derive(Debug, Clone, Copy, PartialEq, Eq, Structural)]
pub enum AppStatus {
    Up,
    Down,
    Unknown,
}

impl Default for AppStatus {
    fn default() -> (r: Self)
        ensures
            r == AppStatus::Unknown,
    {
        AppStatus::Unknown
    }
}

/// The label shown for a status.
pub open spec fn status_label(s: AppStatus) -> Seq<char> {
    match s {
        AppStatus::Up => "UP"@,
        AppStatus::Down => "DOWN"@,
        AppStatus::Unknown => "UNKNOWN"@,
    }
}

impl AppStatus {
    /// The label shown for this status: `UP`, `DOWN` or `UNKNOWN`.
    pub fn to_string(&self) -> (r: String)
        ensures
            r@ == status_label(*self),
    {
        match self {
            AppStatus::Up => owned("UP"),
            AppStatus::Down => owned("DOWN"),
            AppStatus::Unknown => owned("UNKNOWN"),
        }
    }
}

// ---------------------------------------------------------------------------
// Connected applications and Actuator resources
// ---------------------------------------------------------------------------

/// A Spring Boot application connected via Actuator.
#[derive(Debug)]
pub struct SpringApp {
    pub name: String,
    pub url: String,
    pub status: AppStatus,
}

pub struct SpringAppView {
    pub name: Seq<char>,
    pub url: Seq<char>,
    pub status: AppStatus,
}

impl View for SpringApp {
    type V = SpringAppView;

    open spec fn view(&self) -> SpringAppView {
        SpringAppView { name: self.name@, url: self.url@, status: self.status }
    }
}

impl Clone for SpringApp {
    fn clone(&self) -> (r: Self)
        ensures
            r == *self,
    {
        SpringApp { name: self.name.clone(), url: self.url.clone(), status: self.status }
    }
}

/// An Actuator endpoint (e.g. `health`, `beans`) and its link.
#[derive(Debug)]
pub struct Endpoint {
    pub name: String,
    pub url: String,
}

pub struct EndpointView {
    pub name: Seq<char>,
    pub url: Seq<char>,
}

impl View for Endpoint {
    type V = EndpointView;

    open spec fn view(&self) -> EndpointView {
        EndpointView { name: self.name@, url: self.url@ }
    }
}

/// A Spring bean registered in the application context.
#[derive(Debug)]
pub struct Bean {
    pub name: String,
    pub scope: String,
    pub bean_type: String,
}

pub struct BeanView {
    pub name: Seq<char>,
    pub scope: Seq<char>,
    pub bean_type: Seq<char>,
}

impl View for Bean {
    type V = BeanView;

    open spec fn view(&self) -> BeanView {
        BeanView { name: self.name@, scope: self.scope@, bean_type: self.bean_type@ }
    }
}

/// A logger with its configured and effective levels.
#[derive(Debug)]
pub struct Logger {
    pub name: String,
    pub configured_level: Option<String>,
    pub effective_level: String,
}

pub struct LoggerView {
    pub name: Seq<char>,
    pub configured_level: Option<Seq<char>>,
    pub effective_level: Seq<char>,
}

impl View for Logger {
    type V = LoggerView;

    open spec fn view(&self) -> LoggerView {
        LoggerView {
            name: self.name@,
            configured_level: opt_view(self.configured_level),
            effective_level: self.effective_level@,
        }
    }
}

/// An HTTP request mapping from Spring MVC/WebFlux.
#[derive(Debug)]
pub struct Mapping {
    pub pattern: String,
    pub handler: String,
}

pub struct MappingView {
    pub pattern: Seq<char>,
    pub handler: Seq<char>,
}

impl View for Mapping {
    type V = MappingView;

    open spec fn view(&self) -> MappingView {
        MappingView { pattern: self.pattern@, handler: self.handler@ }
    }
}

/// An environment property with the name of its property source.
#[derive(Debug)]
pub struct EnvProperty {
    pub name: String,
    pub value: String,
    pub source: String,
}

pub struct EnvPropertyView {
    pub name: Seq<char>,
    pub value: Seq<char>,
    pub source: Seq<char>,
}

impl View for EnvProperty {
    type V = EnvPropertyView;

    open spec fn view(&self) -> EnvPropertyView {
        EnvPropertyView { name: self.name@, value: self.value@, source: self.source@ }
    }
}

/// Basic server/runtime information.
#[derive(Debug)]
pub struct ServerInfo {
    pub spring_boot_version: Option<String>,
    pub java_version: Option<String>,
}

/// A locally saved dump file (thread dump or heap dump).
#[derive(Debug)]
pub struct SavedDump {
    pub app_url: String,
    pub app_name: String,
    pub path: String,
    pub timestamp: String,
    pub size_bytes: u64,
}

pub struct SavedDumpView {
    pub app_url: Seq<char>,
    pub app_name: Seq<char>,
    pub path: Seq<char>,
    pub timestamp: Seq<char>,
    pub size_bytes: u64,
}

impl View for SavedDump {
    type V = SavedDumpView;

    open spec fn view(&self) -> SavedDumpView {
        SavedDumpView {
            app_url: self.app_url@,
            app_name: self.app_name@,
            path: self.path@,
            timestamp: self.timestamp@,
            size_bytes: self.size_bytes,
        }
    }
}

impl Clone for SavedDump {
    fn clone(&self) -> (r: Self)
        ensures
            r == *self,
    {
        SavedDump {
            app_url: self.app_url.clone(),
            app_name: self.app_name.clone(),
            path: self.path.clone(),
            timestamp: self.timestamp.clone(),
            size_bytes: self.size_bytes,
        }
    }
}

// ---------------------------------------------------------------------------
// Thread dumps
// ---------------------------------------------------------------------------

/// A single thread parsed from a thread dump.
#[derive(Debug)]
pub struct ThreadInfo {
    pub name: String,
    pub id: i64,
    pub state: String,
    pub daemon: bool,
    pub stack_trace: Vec<StackFrame>,
}

/// A single stack frame.
#[derive(Debug)]
pub struct StackFrame {
    pub class_name: String,
    pub method_name: String,
    pub file_name: String,
    pub line_number: i64,
    pub native_method: bool,
}

pub struct StackFrameView {
    pub class_name: Seq<char>,
    pub method_name: Seq<char>,
    pub file_name: Seq<char>,
    pub line_number: i64,
    pub native_method: bool,
}

impl View for StackFrame {
    type V = StackFrameView;

    open spec fn view(&self) -> StackFrameView {
        StackFrameView {
            class_name: self.class_name@,
            method_name: self.method_name@,
            file_name: self.file_name@,
            line_number: self.line_number,
            native_method: self.native_method,
        }
    }
}

pub struct ThreadInfoView {
    pub name: Seq<char>,
    pub id: i64,
    pub state: Seq<char>,
    pub daemon: bool,
    pub stack_trace: Seq<StackFrameView>,
}

/// The views of a sequence of stack frames.
pub open spec fn frame_views(s: Seq<StackFrame>) -> Seq<StackFrameView> {
    s.map_values(|f: StackFrame| f@)
}

impl View for ThreadInfo {
    type V = ThreadInfoView;

    open spec fn view(&self) -> ThreadInfoView {
        ThreadInfoView {
            name: self.name@,
            id: self.id,
            state: self.state@,
            daemon: self.daemon,
            stack_trace: frame_views(self.stack_trace@),
        }
    }
}

// ---------------------------------------------------------------------------
// Dashboard
// ---------------------------------------------------------------------------

/// Health component status (e.g. db, diskSpace, redis).
#[derive(Debug)]
pub struct HealthComponent {
    pub name: String,
    pub status: String,
    pub details: String,
}

impl Default for HealthComponent {
    fn default() -> (r: Self)
        ensures
            r.name@ == Seq::<char>::empty(),
            r.status@ == Seq::<char>::empty(),
            r.details@ == Seq::<char>::empty(),
    {
        HealthComponent { name: String::new(), status: String::new(), details: String::new() }
    }
}

// ---------------------------------------------------------------------------
// Spring Initializr metadata
// ---------------------------------------------------------------------------

/// A selectable option (boot version, language, packaging, java version,
/// project type).
#[derive(Debug)]
pub struct InitializrOption {
    pub id: String,
    pub name: String,
}

pub struct InitializrOptionView {
    pub id: Seq<char>,
    pub name: Seq<char>,
}

impl View for InitializrOption {
    type V = InitializrOptionView;

    open spec fn view(&self) -> InitializrOptionView {
        InitializrOptionView { id: self.id@, name: self.name@ }
    }
}

impl Clone for InitializrOption {
    fn clone(&self) -> (r: Self)
        ensures
            r == *self,
    {
        InitializrOption { id: self.id.clone(), name: self.name.clone() }
    }
}

/// A single dependency within a dependency group.
#[derive(Debug)]
pub struct InitializrDependency {
    pub id: String,
    pub name: String,
    pub description: String,
}

pub struct InitializrDependencyView {
    pub id: Seq<char>,
    pub name: Seq<char>,
    pub description: Seq<char>,
}

impl View for InitializrDependency {
    type V = InitializrDependencyView;

    open spec fn view(&self) -> InitializrDependencyView {
        InitializrDependencyView { id: self.id@, name: self.name@, description: self.description@ }
    }
}

impl Clone for InitializrDependency {
    fn clone(&self) -> (r: Self)
        ensures
            r == *self,
    {
        InitializrDependency {
            id: self.id.clone(),
            name: self.name.clone(),
            description: self.description.clone(),
        }
    }
}

/// A group of related dependencies (e.g. "Web", "SQL", "Security").
#[derive(Debug)]
pub struct InitializrDependencyGroup {
    pub name: String,
    pub values: Vec<InitializrDependency>,
}

pub struct InitializrDependencyGroupView {
    pub name: Seq<char>,
    pub values: Seq<InitializrDependencyView>,
}

/// The views of a sequence of dependencies.
pub open spec fn dependency_views(s: Seq<InitializrDependency>) -> Seq<InitializrDependencyView> {
    s.map_values(|d: InitializrDependency| d@)
}

impl View for InitializrDependencyGroup {
    type V = InitializrDependencyGroupView;

    open spec fn view(&self) -> InitializrDependencyGroupView {
        InitializrDependencyGroupView { name: self.name@, values: dependency_views(self.values@) }
    }
}

/// A text field with a default value (groupId, artifactId, ...).
#[derive(Debug)]
pub struct InitializrTextField {
    pub default: String,
}

/// Parsed metadata of the Spring Initializr.
#[derive(Debug)]
pub struct InitializrMetadata {
    pub boot_versions: Vec<InitializrOption>,
    pub boot_version_default: String,
    pub languages: Vec<InitializrOption>,
    pub language_default: String,
    pub packagings: Vec<InitializrOption>,
    pub packaging_default: String,
    pub java_versions: Vec<InitializrOption>,
    pub java_version_default: String,
    pub project_types: Vec<InitializrOption>,
    pub project_type_default: String,
    pub dependency_groups: Vec<InitializrDependencyGroup>,
    pub group_id_default: String,
    pub artifact_id_default: String,
    pub version_default: String,
    pub name_default: String,
    pub description_default: String,
    pub package_name_default: String,
}

/// The views of a sequence of options.
pub open spec fn option_views(s: Seq<InitializrOption>) -> Seq<InitializrOptionView> {
    s.map_values(|o: InitializrOption| o@)
}

/// The views of a sequence of dependency groups.
pub open spec fn group_views(s: Seq<InitializrDependencyGroup>) -> Seq<
    InitializrDependencyGroupView,
> {
    s.map_values(|g: InitializrDependencyGroup| g@)
}

pub struct InitializrMetadataView {
    pub boot_versions: Seq<InitializrOptionView>,
    pub boot_version_default: Seq<char>,
    pub languages: Seq<InitializrOptionView>,
    pub language_default: Seq<char>,
    pub packagings: Seq<InitializrOptionView>,
    pub packaging_default: Seq<char>,
    pub java_versions: Seq<InitializrOptionView>,
    pub java_version_default: Seq<char>,
    pub project_types: Seq<InitializrOptionView>,
    pub project_type_default: Seq<char>,
    pub dependency_groups: Seq<InitializrDependencyGroupView>,
    pub group_id_default: Seq<char>,
    pub artifact_id_default: Seq<char>,
    pub version_default: Seq<char>,
    pub name_default: Seq<char>,
    pub description_default: Seq<char>,
    pub package_name_default: Seq<char>,
}

impl View for InitializrMetadata {
    type V = InitializrMetadataView;

    open spec fn view(&self) -> InitializrMetadataView {
        InitializrMetadataView {
            boot_versions: option_views(self.boot_versions@),
            boot_version_default: self.boot_version_default@,
            languages: option_views(self.languages@),
            language_default: self.language_default@,
            packagings: option_views(self.packagings@),
            packaging_default: self.packaging_default@,
            java_versions: option_views(self.java_versions@),
            java_version_default: self.java_version_default@,
            project_types: option_views(self.project_types@),
            project_type_default: self.project_type_default@,
            dependency_groups: group_views(self.dependency_groups@),
            group_id_default: self.group_id_default@,
            artifact_id_default: self.artifact_id_default@,
            version_default: self.version_default@,
            name_default: self.name_default@,
            description_default: self.description_default@,
            package_name_default: self.package_name_default@,
        }
    }
}

/// Parameters for generating a new Spring Boot project.
#[derive(Debug)]
pub struct NewProjectParams {
    pub boot_version: String,
    pub language: String,
    pub packaging: String,
    pub java_version: String,
    pub project_type: String,
    pub group_id: String,
    pub artifact_id: String,
    pub version: String,
    pub name: String,
    pub description: String,
    pub package_name: String,
    pub dependencies: Vec<String>,
    pub output_dir: String,
}

} // verus!
