//! Racing Profile, Launch Recipe, Process and Session data shared by every module.
//!
//! Types whose values hold a `Vec` carry a `View` whose `Vec` fields are
//! sequences of the element views, so that copies can be stated equal.
use vstd::prelude::*;

verus! {

/// Whether a Supporting Application must start before the Session continues.
#[derive(Clone, Copy, Debug, PartialEq, Eq, Structural)]
pub enum ApplicationRequirement {
    Required,
    Optional,
}

/// Whether a launched console application shows its console window.
#[derive(Clone, Copy, Debug, PartialEq, Eq, Structural)]
pub enum ConsoleVisibility {
    Visible,
    Hidden,
}

/// How a Steam launch chooses between a title's launch options.
#[derive(Clone, Copy, Debug, PartialEq, Eq, Structural)]
pub enum SteamLaunchSelector {
    Default,
    OpenVr,
    Oculus,
    Numbered { index: u32 },
}

/// Which VR runtime a VR-enabled Racing Profile prefers.
#[derive(Clone, Copy, Debug, PartialEq, Eq, Structural)]
pub enum VrLaunchMode {
    OpenVr,
    Oculus,
}

/// Where a Launch Recipe starts its application from.
#[derive(Debug)]
pub enum LaunchSource {
    DirectExecutable { executable_path: String },
    Steam { app_id: u32, selector: Option<SteamLaunchSelector> },
}

impl Clone for LaunchSource {
    fn clone(&self) -> (res: Self)
        ensures
            res == *self,
    {
        match self {
            LaunchSource::DirectExecutable { executable_path } => LaunchSource::DirectExecutable {
                executable_path: executable_path.clone(),
            },
            LaunchSource::Steam { app_id, selector } => LaunchSource::Steam {
                app_id: *app_id,
                selector: *selector,
            },
        }
    }
}

/// The abstract value of a `ShutdownStrategy`.
pub enum ShutdownStrategyView {
    CloseWindows,
    ConsoleInterrupt,
    CustomStop { executable_path: String, arguments: Seq<String> },
    ForceOnly,
}

/// How Formation Lap asks an application to close.
#[derive(Debug)]
pub enum ShutdownStrategy {
    CloseWindows,
    ConsoleInterrupt,
    CustomStop { executable_path: String, arguments: Vec<String> },
    ForceOnly,
}

impl View for ShutdownStrategy {
    type V = ShutdownStrategyView;

    open spec fn view(&self) -> ShutdownStrategyView {
        match self {
            ShutdownStrategy::CloseWindows => ShutdownStrategyView::CloseWindows,
            ShutdownStrategy::ConsoleInterrupt => ShutdownStrategyView::ConsoleInterrupt,
            ShutdownStrategy::CustomStop { executable_path, arguments } => {
                ShutdownStrategyView::CustomStop {
                    executable_path: *executable_path,
                    arguments: arguments@,
                }
            },
            ShutdownStrategy::ForceOnly => ShutdownStrategyView::ForceOnly,
        }
    }
}

/// Copies a list of strings.
pub fn clone_strings(values: &Vec<String>) -> (res: Vec<String>)
    ensures
        res@ == values@,
{
    let res = values.clone();
    assert(res@ =~= values@);
    res
}

impl Clone for ShutdownStrategy {
    fn clone(&self) -> (res: Self)
        ensures
            res@ == self@,
    {
        match self {
            ShutdownStrategy::CloseWindows => ShutdownStrategy::CloseWindows,
            ShutdownStrategy::ConsoleInterrupt => ShutdownStrategy::ConsoleInterrupt,
            ShutdownStrategy::CustomStop { executable_path, arguments } => {
                ShutdownStrategy::CustomStop {
                    executable_path: executable_path.clone(),
                    arguments: clone_strings(arguments),
                }
            },
            ShutdownStrategy::ForceOnly => ShutdownStrategy::ForceOnly,
        }
    }
}

/// The abstract value of a `LaunchRecipe`.
pub struct LaunchRecipeView {
    pub source: LaunchSource,
    pub arguments: Seq<String>,
    pub working_directory: Option<String>,
    pub monitored_process: Option<String>,
    pub monitored_executable_path: Option<String>,
    pub shutdown_strategy: ShutdownStrategyView,
    pub console_visibility: ConsoleVisibility,
    pub elevated: bool,
    pub startup_timeout_seconds: u32,
    pub post_start_delay_milliseconds: u32,
}

/// Everything needed to start, recognize and close one application.
#[derive(Debug)]
pub struct LaunchRecipe {
    pub source: LaunchSource,
    pub arguments: Vec<String>,
    pub working_directory: Option<String>,
    pub monitored_process: Option<String>,
    pub monitored_executable_path: Option<String>,
    pub shutdown_strategy: ShutdownStrategy,
    pub console_visibility: ConsoleVisibility,
    pub elevated: bool,
    pub startup_timeout_seconds: u32,
    pub post_start_delay_milliseconds: u32,
}

impl View for LaunchRecipe {
    type V = LaunchRecipeView;

    open spec fn view(&self) -> LaunchRecipeView {
        LaunchRecipeView {
            source: self.source,
            arguments: self.arguments@,
            working_directory: self.working_directory,
            monitored_process: self.monitored_process,
            monitored_executable_path: self.monitored_executable_path,
            shutdown_strategy: self.shutdown_strategy@,
            console_visibility: self.console_visibility,
            elevated: self.elevated,
            startup_timeout_seconds: self.startup_timeout_seconds,
            post_start_delay_milliseconds: self.post_start_delay_milliseconds,
        }
    }
}

/// Copies an optional string.
pub fn clone_optional_string(value: &Option<String>) -> (res: Option<String>)
    ensures
        res == *value,
{
    match value {
        Some(text) => Some(text.clone()),
        None => None,
    }
}

impl Clone for LaunchRecipe {
    fn clone(&self) -> (res: Self)
        ensures
            res@ == self@,
    {
        LaunchRecipe {
            source: self.source.clone(),
            arguments: clone_strings(&self.arguments),
            working_directory: clone_optional_string(&self.working_directory),
            monitored_process: clone_optional_string(&self.monitored_process),
            monitored_executable_path: clone_optional_string(&self.monitored_executable_path),
            shutdown_strategy: self.shutdown_strategy.clone(),
            console_visibility: self.console_visibility,
            elevated: self.elevated,
            startup_timeout_seconds: self.startup_timeout_seconds,
            post_start_delay_milliseconds: self.post_start_delay_milliseconds,
        }
    }
}

impl Default for LaunchRecipe {
    /// The recipe of a newly created application: an empty direct executable path.
    fn default() -> (res: Self)
        ensures
            res.source matches LaunchSource::DirectExecutable { executable_path }
                && executable_path@.len() == 0,
            res.arguments@.len() == 0,
            res.working_directory is None,
            res.monitored_process is None,
            res.monitored_executable_path is None,
            res.shutdown_strategy@ == ShutdownStrategyView::CloseWindows,
            res.console_visibility == ConsoleVisibility::Visible,
            !res.elevated,
            res.startup_timeout_seconds == 30,
            res.post_start_delay_milliseconds == 0,
    {
        LaunchRecipe {
            source: LaunchSource::DirectExecutable { executable_path: String::new() },
            arguments: Vec::new(),
            working_directory: None,
            monitored_process: None,
            monitored_executable_path: None,
            shutdown_strategy: ShutdownStrategy::CloseWindows,
            console_visibility: ConsoleVisibility::Visible,
            elevated: false,
            startup_timeout_seconds: 30,
            post_start_delay_milliseconds: 0,
        }
    }
}


/// The abstract value of a `ProfileApplication`.
pub struct ProfileApplicationView {
    pub id: String,
    pub name: String,
    pub launch_recipe: LaunchRecipeView,
    pub path_needs_repair: bool,
}

/// One application of a Racing Profile: the Primary Sim or a Supporting Application.
#[derive(Debug)]
pub struct ProfileApplication {
    pub id: String,
    pub name: String,
    pub launch_recipe: LaunchRecipe,
    pub path_needs_repair: bool,
}

impl View for ProfileApplication {
    type V = ProfileApplicationView;

    open spec fn view(&self) -> ProfileApplicationView {
        ProfileApplicationView {
            id: self.id,
            name: self.name,
            launch_recipe: self.launch_recipe@,
            path_needs_repair: self.path_needs_repair,
        }
    }
}

impl Clone for ProfileApplication {
    fn clone(&self) -> (res: Self)
        ensures
            res@ == self@,
    {
        ProfileApplication {
            id: self.id.clone(),
            name: self.name.clone(),
            launch_recipe: self.launch_recipe.clone(),
            path_needs_repair: self.path_needs_repair,
        }
    }
}

/// The abstract value of a `SupportingApplication`.
pub struct SupportingApplicationView {
    pub application: ProfileApplicationView,
    pub requirement: ApplicationRequirement,
    pub keep_running: bool,
}

/// An application that runs beside the Primary Sim during a Session.
#[derive(Debug)]
pub struct SupportingApplication {
    pub application: ProfileApplication,
    pub requirement: ApplicationRequirement,
    pub keep_running: bool,
}

impl View for SupportingApplication {
    type V = SupportingApplicationView;

    open spec fn view(&self) -> SupportingApplicationView {
        SupportingApplicationView {
            application: self.application@,
            requirement: self.requirement,
            keep_running: self.keep_running,
        }
    }
}

impl Clone for SupportingApplication {
    fn clone(&self) -> (res: Self)
        ensures
            res@ == self@,
    {
        SupportingApplication {
            application: self.application.clone(),
            requirement: self.requirement,
            keep_running: self.keep_running,
        }
    }
}

/// The views of a list of Supporting Applications.
pub open spec fn supporting_views(applications: Seq<SupportingApplication>) -> Seq<SupportingApplicationView> {
    applications.map_values(|application: SupportingApplication| application@)
}

/// Copies a list of Supporting Applications.
pub fn clone_supporting_applications(applications: &Vec<SupportingApplication>) -> (res: Vec<SupportingApplication>)
    ensures
        supporting_views(res@) == supporting_views(applications@),
{
    let mut res: Vec<SupportingApplication> = Vec::new();
    let mut index: usize = 0;
    while index < applications.len()
        invariant
            index <= applications@.len(),
            res@.len() == index,
            forall|i: int| 0 <= i < index ==> #[trigger] res@[i]@ == applications@[i]@,
        decreases applications@.len() - index,
    {
        res.push(applications[index].clone());
        index = index + 1;
    }
    assert(supporting_views(res@) =~= supporting_views(applications@));
    res
}

/// What closing a Session does to SteamVR.
#[derive(Clone, Copy, Debug, PartialEq, Eq, Structural)]
pub struct CloseSessionSettings {
    pub stop_steam_vr: bool,
}

/// The abstract value of a `RacingProfile`.
pub struct RacingProfileView {
    pub id: String,
    pub name: String,
    pub primary_sim: ProfileApplicationView,
    pub supporting_applications: Seq<SupportingApplicationView>,
    pub vr_enabled: bool,
    pub preferred_vr_launch_mode: Option<VrLaunchMode>,
    pub close_session: CloseSessionSettings,
}

/// One Primary Sim with its ordered Supporting Applications.
#[derive(Debug)]
pub struct RacingProfile {
    pub id: String,
    pub name: String,
    pub primary_sim: ProfileApplication,
    pub supporting_applications: Vec<SupportingApplication>,
    pub vr_enabled: bool,
    pub preferred_vr_launch_mode: Option<VrLaunchMode>,
    pub close_session: CloseSessionSettings,
}

impl View for RacingProfile {
    type V = RacingProfileView;

    open spec fn view(&self) -> RacingProfileView {
        RacingProfileView {
            id: self.id,
            name: self.name,
            primary_sim: self.primary_sim@,
            supporting_applications: supporting_views(self.supporting_applications@),
            vr_enabled: self.vr_enabled,
            preferred_vr_launch_mode: self.preferred_vr_launch_mode,
            close_session: self.close_session,
        }
    }
}

impl Clone for RacingProfile {
    fn clone(&self) -> (res: Self)
        ensures
            res@ == self@,
    {
        RacingProfile {
            id: self.id.clone(),
            name: self.name.clone(),
            primary_sim: self.primary_sim.clone(),
            supporting_applications: clone_supporting_applications(&self.supporting_applications),
            vr_enabled: self.vr_enabled,
            preferred_vr_launch_mode: self.preferred_vr_launch_mode,
            close_session: self.close_session,
        }
    }
}

/// A compact Racing Profile representation for snapshots and selection.
#[derive(Debug)]
pub struct ProfileSummary {
    pub id: String,
    pub name: String,
    pub primary_sim_name: String,
}

impl Clone for ProfileSummary {
    fn clone(&self) -> (res: Self)
        ensures
            res == *self,
    {
        ProfileSummary {
            id: self.id.clone(),
            name: self.name.clone(),
            primary_sim_name: self.primary_sim_name.clone(),
        }
    }
}

/// A stable identity of one running Process: PID, creation time and executable.
#[derive(Debug)]
pub struct ProcessIdentity {
    pub pid: u32,
    pub creation_time: u64,
    pub canonical_executable_path: String,
}

impl Clone for ProcessIdentity {
    fn clone(&self) -> (res: Self)
        ensures
            res == *self,
    {
        ProcessIdentity {
            pid: self.pid,
            creation_time: self.creation_time,
            canonical_executable_path: self.canonical_executable_path.clone(),
        }
    }
}

/// Whether two identities name the same Process.
pub open spec fn same_identity(left: ProcessIdentity, right: ProcessIdentity) -> bool {
    &&& left.pid == right.pid
    &&& left.creation_time == right.creation_time
    &&& left.canonical_executable_path@ == right.canonical_executable_path@
}

impl ProcessIdentity {
    /// Whether two identities name the same Process.
    pub fn same_as(&self, other: &ProcessIdentity) -> (res: bool)
        ensures
            res == same_identity(*self, *other),
    {
        self.pid == other.pid && self.creation_time == other.creation_time
            && self.canonical_executable_path == other.canonical_executable_path
    }
}

/// Whether Formation Lap started a Process for the Session or found it running.
#[derive(Clone, Copy, Debug, PartialEq, Eq, Structural)]
pub enum ProcessOwnership {
    SessionOwned,
    PreExisting,
}

/// The observed lifecycle state of one application Process.
#[derive(Clone, Copy, Debug, PartialEq, Eq, Structural)]
pub enum ProcessStatus {
    Starting,
    Running,
    RunningPreExisting,
    NotResponding,
    Stopping,
    Stopped,
    Failed,
}

/// Bounded console output captured from a launched Process.
#[derive(Debug)]
pub struct ProcessOutput {
    pub stdout: String,
    pub stderr: String,
    pub truncated: bool,
}

impl Clone for ProcessOutput {
    fn clone(&self) -> (res: Self)
        ensures
            res == *self,
    {
        ProcessOutput {
            stdout: self.stdout.clone(),
            stderr: self.stderr.clone(),
            truncated: self.truncated,
        }
    }
}

/// The tracked Process of one configured application.
#[derive(Debug)]
pub struct ApplicationProcessSnapshot {
    pub application_id: String,
    pub status: ProcessStatus,
    pub ownership: Option<ProcessOwnership>,
    pub identity: Option<ProcessIdentity>,
    pub output: Option<ProcessOutput>,
}

impl Clone for ApplicationProcessSnapshot {
    fn clone(&self) -> (res: Self)
        ensures
            res == *self,
    {
        ApplicationProcessSnapshot {
            application_id: self.application_id.clone(),
            status: self.status,
            ownership: self.ownership,
            identity: match &self.identity {
                Some(identity) => Some(identity.clone()),
                None => None,
            },
            output: match &self.output {
                Some(output) => Some(output.clone()),
                None => None,
            },
        }
    }
}

/// What a pending Process confirmation will do once confirmed.
#[derive(Clone, Copy, Debug, PartialEq, Eq, Structural)]
pub enum ProcessConfirmationAction {
    Exit,
    Restart,
    SessionClose,
}

/// A force-stop request that waits for the user's explicit confirmation.
#[derive(Debug)]
pub struct ProcessConfirmationSnapshot {
    pub token: String,
    pub application_id: String,
    pub action: ProcessConfirmationAction,
    pub identity: ProcessIdentity,
}

impl Clone for ProcessConfirmationSnapshot {
    fn clone(&self) -> (res: Self)
        ensures
            res == *self,
    {
        ProcessConfirmationSnapshot {
            token: self.token.clone(),
            application_id: self.application_id.clone(),
            action: self.action,
            identity: self.identity.clone(),
        }
    }
}

/// The lifecycle of the one Session Formation Lap manages.
#[derive(Clone, Copy, Debug, PartialEq, Eq, Structural)]
pub enum SessionState {
    Idle,
    Starting,
    Cancelling,
    Active,
    Closing,
    RecoveryAvailable,
}

/// Whether a Session application is the Primary Sim.
#[derive(Clone, Copy, Debug, PartialEq, Eq, Structural)]
pub enum SessionApplicationRole {
    PrimarySim,
    Supporting,
}

/// The state of one application within the Session.
#[derive(Clone, Copy, Debug, PartialEq, Eq, Structural)]
pub enum SessionApplicationState {
    Pending,
    Starting,
    Running,
    RunningPreExisting,
    Stopping,
    Stopped,
    Failed,
    Detached,
}

/// A notable Session event kept for the Session summary.
#[derive(Clone, Copy, Debug, PartialEq, Eq, Structural)]
pub enum SessionEventKind {
    LaunchFailed,
    ApplicationExited,
}

/// One recorded Session event.
#[derive(Debug)]
pub struct SessionEvent {
    pub application_id: String,
    pub name: String,
    pub kind: SessionEventKind,
}

impl Clone for SessionEvent {
    fn clone(&self) -> (res: Self)
        ensures
            res == *self,
    {
        SessionEvent {
            application_id: self.application_id.clone(),
            name: self.name.clone(),
            kind: self.kind,
        }
    }
}

/// The abstract value of a `SessionSummary`.
pub struct SessionSummaryView {
    pub profile_id: String,
    pub events: Seq<SessionEvent>,
}

/// The events of a finished Session.
#[derive(Debug)]
pub struct SessionSummary {
    pub profile_id: String,
    pub events: Vec<SessionEvent>,
}

impl View for SessionSummary {
    type V = SessionSummaryView;

    open spec fn view(&self) -> SessionSummaryView {
        SessionSummaryView { profile_id: self.profile_id, events: self.events@ }
    }
}

/// Copies a list of Session events.
pub fn clone_events(events: &Vec<SessionEvent>) -> (res: Vec<SessionEvent>)
    ensures
        res@ == events@,
{
    let res = events.clone();
    assert(res@ =~= events@);
    res
}

impl Clone for SessionSummary {
    fn clone(&self) -> (res: Self)
        ensures
            res@ == self@,
    {
        SessionSummary { profile_id: self.profile_id.clone(), events: clone_events(&self.events) }
    }
}

/// One application of the Session with its role and state.
#[derive(Debug)]
pub struct SessionApplicationSnapshot {
    pub application_id: String,
    pub name: String,
    pub role: SessionApplicationRole,
    pub requirement: Option<ApplicationRequirement>,
    pub state: SessionApplicationState,
}

impl Clone for SessionApplicationSnapshot {
    fn clone(&self) -> (res: Self)
        ensures
            res == *self,
    {
        SessionApplicationSnapshot {
            application_id: self.application_id.clone(),
            name: self.name.clone(),
            role: self.role,
            requirement: self.requirement,
            state: self.state,
        }
    }
}

/// The abstract value of a `SessionSnapshot`.
pub struct SessionSnapshotView {
    pub state: SessionState,
    pub active_profile_id: Option<String>,
    pub applications: Seq<SessionApplicationSnapshot>,
    pub summary: Option<SessionSummaryView>,
}

/// The authoritative Session state.
#[derive(Debug)]
pub struct SessionSnapshot {
    pub state: SessionState,
    pub active_profile_id: Option<String>,
    pub applications: Vec<SessionApplicationSnapshot>,
    pub summary: Option<SessionSummary>,
}

impl View for SessionSnapshot {
    type V = SessionSnapshotView;

    open spec fn view(&self) -> SessionSnapshotView {
        SessionSnapshotView {
            state: self.state,
            active_profile_id: self.active_profile_id,
            applications: self.applications@,
            summary: match self.summary {
                Some(summary) => Some(summary@),
                None => None,
            },
        }
    }
}

impl Clone for SessionSnapshot {
    fn clone(&self) -> (res: Self)
        ensures
            res@ == self@,
    {
        let applications = self.applications.clone();
        assert(applications@ =~= self.applications@);
        SessionSnapshot {
            state: self.state,
            active_profile_id: clone_optional_string(&self.active_profile_id),
            applications,
            summary: match &self.summary {
                Some(summary) => Some(summary.clone()),
                None => None,
            },
        }
    }
}

impl SessionSnapshot {
    /// An idle Session without applications or summary.
    pub fn idle() -> (res: Self)
        ensures
            res.state == SessionState::Idle,
            res.active_profile_id is None,
            res.applications@.len() == 0,
            res.summary is None,
    {
        SessionSnapshot {
            state: SessionState::Idle,
            active_profile_id: None,
            applications: Vec::new(),
            summary: None,
        }
    }
}


/// The colour theme the desktop window uses.
#[derive(Clone, Copy, Debug, PartialEq, Eq, Structural)]
pub enum ThemePreference {
    System,
    Light,
    Dark,
}

/// Which release line Formation Lap checks for updates.
#[derive(Clone, Copy, Debug, PartialEq, Eq, Structural)]
pub enum UpdateChannel {
    Stable,
    Beta,
}

/// Local desktop preferences.
#[derive(Clone, Copy, Debug, PartialEq, Eq, Structural)]
pub struct DesktopSettings {
    pub theme: ThemePreference,
    pub start_with_windows: bool,
    pub automatic_update_checks: bool,
    pub update_channel: UpdateChannel,
}

impl DesktopSettings {
    /// The settings of a fresh installation.
    pub fn defaults() -> (res: Self)
        ensures
            res == default_desktop_settings(),
    {
        DesktopSettings {
            theme: ThemePreference::System,
            start_with_windows: false,
            automatic_update_checks: false,
            update_channel: UpdateChannel::Stable,
        }
    }
}

/// The settings of a fresh installation.
pub open spec fn default_desktop_settings() -> DesktopSettings {
    DesktopSettings {
        theme: ThemePreference::System,
        start_with_windows: false,
        automatic_update_checks: false,
        update_channel: UpdateChannel::Stable,
    }
}

/// The abstract value of an `UpdateStatus`.
pub enum UpdateStatusView {
    Current { current_version: Seq<char> },
    UpdateAvailable { current_version: Seq<char>, latest_version: Seq<char> },
    Unknown { reason: Seq<char> },
}

/// What an update check learned about one installed program.
#[derive(Debug, PartialEq, Eq)]
pub enum UpdateStatus {
    Current { current_version: String },
    UpdateAvailable { current_version: String, latest_version: String },
    Unknown { reason: String },
}

impl View for UpdateStatus {
    type V = UpdateStatusView;

    open spec fn view(&self) -> UpdateStatusView {
        match self {
            UpdateStatus::Current { current_version } => UpdateStatusView::Current {
                current_version: current_version@,
            },
            UpdateStatus::UpdateAvailable { current_version, latest_version } => {
                UpdateStatusView::UpdateAvailable {
                    current_version: current_version@,
                    latest_version: latest_version@,
                }
            },
            UpdateStatus::Unknown { reason } => UpdateStatusView::Unknown { reason: reason@ },
        }
    }
}

impl Clone for UpdateStatus {
    fn clone(&self) -> (res: Self)
        ensures
            res == *self,
    {
        match self {
            UpdateStatus::Current { current_version } => UpdateStatus::Current {
                current_version: current_version.clone(),
            },
            UpdateStatus::UpdateAvailable { current_version, latest_version } => {
                UpdateStatus::UpdateAvailable {
                    current_version: current_version.clone(),
                    latest_version: latest_version.clone(),
                }
            },
            UpdateStatus::Unknown { reason } => UpdateStatus::Unknown { reason: reason.clone() },
        }
    }
}

/// The update advice shown for one Supporting Application.
#[derive(Debug)]
pub struct ApplicationUpdateSnapshot {
    pub application_id: String,
    pub name: String,
    pub status: UpdateStatus,
    pub information_url: Option<String>,
}

impl Clone for ApplicationUpdateSnapshot {
    fn clone(&self) -> (res: Self)
        ensures
            res == *self,
    {
        ApplicationUpdateSnapshot {
            application_id: self.application_id.clone(),
            name: self.name.clone(),
            status: self.status.clone(),
            information_url: clone_optional_string(&self.information_url),
        }
    }
}

/// Copies a list of application update snapshots.
pub fn clone_application_updates(values: &Vec<ApplicationUpdateSnapshot>) -> (res: Vec<
    ApplicationUpdateSnapshot,
>)
    ensures
        res@ == values@,
{
    let mut copies: Vec<ApplicationUpdateSnapshot> = Vec::new();
    let mut index: usize = 0;
    while index < values.len()
        invariant
            index <= values@.len(),
            copies@ == values@.subrange(0, index as int),
        decreases values@.len() - index,
    {
        copies.push(values[index].clone());
        index = index + 1;
        assert(copies@ =~= values@.subrange(0, index as int));
    }
    assert(values@.subrange(0, index as int) =~= values@);
    copies
}

/// The abstract value of an `UpdateSnapshot`.
pub struct UpdateSnapshotView {
    pub formation_lap: UpdateStatus,
    pub applications: Seq<ApplicationUpdateSnapshot>,
    pub last_automatic_check_unix_seconds: Option<u64>,
    pub result_deferred: bool,
}

/// What the update area of the window shows.
#[derive(Debug)]
pub struct UpdateSnapshot {
    pub formation_lap: UpdateStatus,
    pub applications: Vec<ApplicationUpdateSnapshot>,
    pub last_automatic_check_unix_seconds: Option<u64>,
    pub result_deferred: bool,
}

impl View for UpdateSnapshot {
    type V = UpdateSnapshotView;

    open spec fn view(&self) -> UpdateSnapshotView {
        UpdateSnapshotView {
            formation_lap: self.formation_lap,
            applications: self.applications@,
            last_automatic_check_unix_seconds: self.last_automatic_check_unix_seconds,
            result_deferred: self.result_deferred,
        }
    }
}

impl Clone for UpdateSnapshot {
    fn clone(&self) -> (res: Self)
        ensures
            res@ == self@,
    {
        UpdateSnapshot {
            formation_lap: self.formation_lap.clone(),
            applications: clone_application_updates(&self.applications),
            last_automatic_check_unix_seconds: self.last_automatic_check_unix_seconds,
            result_deferred: self.result_deferred,
        }
    }
}

/// Why an update check runs.
#[derive(Clone, Copy, Debug, PartialEq, Eq, Structural)]
pub enum UpdateCheckTrigger {
    Automatic,
    Manual,
}

/// Where the Curated Catalog says an application's updates are published.
#[derive(Debug)]
pub enum CatalogUpdateProvider {
    GitHubReleases { repository: String },
    Winget { package_id: String },
    OfficialPage { url: String },
}

impl Clone for CatalogUpdateProvider {
    fn clone(&self) -> (res: Self)
        ensures
            res == *self,
    {
        match self {
            CatalogUpdateProvider::GitHubReleases { repository } => {
                CatalogUpdateProvider::GitHubReleases { repository: repository.clone() }
            },
            CatalogUpdateProvider::Winget { package_id } => CatalogUpdateProvider::Winget {
                package_id: package_id.clone(),
            },
            CatalogUpdateProvider::OfficialPage { url } => CatalogUpdateProvider::OfficialPage {
                url: url.clone(),
            },
        }
    }
}

/// One Supporting Application an update check asks about.
#[derive(Debug)]
pub struct ApplicationUpdateTarget {
    pub application_id: String,
    pub name: String,
    pub executable_path: Option<String>,
    pub provider: Option<CatalogUpdateProvider>,
}

/// A planned update check, identified by its request id.
#[derive(Debug)]
pub struct UpdateCheckPlan {
    pub request_id: String,
    pub channel: UpdateChannel,
    pub trigger: UpdateCheckTrigger,
    pub applications: Vec<ApplicationUpdateTarget>,
}

/// Whether an update check may run now.
#[derive(Debug)]
pub enum UpdateCheckDecision {
    Planned(UpdateCheckPlan),
    Deferred,
    InProgress,
    Disabled,
    NotDue,
}

/// The answer to a planned update check.
#[derive(Debug)]
pub struct UpdateCheckResult {
    pub request_id: String,
    pub formation_lap: UpdateStatus,
    pub applications: Vec<ApplicationUpdateSnapshot>,
}

/// Whether a checked Formation Lap update may be installed now.
#[derive(Debug)]
pub enum FormationLapInstallDecision {
    Ready { latest_version: String },
    Deferred,
    NoUpdate,
}

/// What closing the main window does.
#[derive(Clone, Copy, Debug, PartialEq, Eq, Structural)]
pub enum WindowCloseAction {
    HideToTray,
    Exit,
}

/// What the user chose to do with running applications when quitting.
#[derive(Clone, Copy, Debug, PartialEq, Eq, Structural)]
pub enum QuitDisposition {
    LeaveApplicationsRunning,
    CloseSession,
}

/// What the desktop host does after a Quit request.
#[derive(Clone, Copy, Debug, PartialEq, Eq, Structural)]
pub enum QuitAction {
    ExitNow,
    WaitForSessionClose,
}

/// One recorded command outcome in the local diagnostic log.
#[derive(Debug)]
pub struct DiagnosticEntry {
    pub timestamp_unix_seconds: u64,
    pub event: String,
    pub outcome: String,
}

impl Clone for DiagnosticEntry {
    fn clone(&self) -> (res: Self)
        ensures
            res == *self,
    {
        DiagnosticEntry {
            timestamp_unix_seconds: self.timestamp_unix_seconds,
            event: self.event.clone(),
            outcome: self.outcome.clone(),
        }
    }
}

/// The local diagnostics a user may export; nothing is uploaded.
#[derive(Debug)]
pub struct DiagnosticExport {
    pub schema_version: u32,
    pub application_version: String,
    pub platform: String,
    pub settings: DesktopSettings,
    pub session_state: SessionState,
    pub profile_count: usize,
    pub configured_application_count: usize,
    pub recent_events: Vec<DiagnosticEntry>,
    pub telemetry_upload: bool,
}

} // verus!
