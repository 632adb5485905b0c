//! The authoritative Racing Profile and Session state, and the commands that
//! change it.
//!
//! Processes are observed and controlled through a `ProcessRuntime`, privileged
//! work goes through a `PrivilegeBroker`, and storage, clock and catalog answers
//! come from the `CoreHost`. The core decides; they act.
use crate::contracts::AppSnapshot;
use crate::errors::CoreError;
use crate::host::{CoreHost, SettingsDocument};
use crate::identifiers::new_uuid;
use crate::keyed::KeyedList;
use crate::launch_recipe::{sanitized_target, GameLaunchDiagnostic};
use crate::model::{
    clone_optional_string, ApplicationProcessSnapshot, ApplicationRequirement, ApplicationUpdateTarget,
    DesktopSettings, DiagnosticExport, FormationLapInstallDecision, LaunchRecipe, LaunchRecipeView, LaunchSource,
    ProcessConfirmationAction, ProcessConfirmationSnapshot, ProcessIdentity, ProcessOwnership,
    ProcessStatus, ProfileApplication, QuitAction, QuitDisposition, RacingProfile,
    SessionApplicationRole, SessionApplicationSnapshot, SessionApplicationState, SessionEvent,
    SessionEventKind, SessionSnapshot, SessionSnapshotView, SessionState, SessionSummary,
    ShutdownStrategy, UpdateCheckDecision, UpdateCheckResult, UpdateCheckTrigger, WindowCloseAction,
};
use crate::privilege_broker::{DevelopmentPrivilegeBroker, LaunchAcknowledgement, PrivilegeBroker, PrivilegeBrokerError};
use crate::privilege_protocol::{ElevatedOperation, ElevatedOperationResult};
use crate::process_runtime::{
    GracefulStopResult, ProcessObservation, ProcessResponsiveness, ProcessRuntime,
};
use crate::profile_library::{
    created_profile, is_name_error, lemma_position_has_id, lemma_sorted_insert_contains, is_not_found, names_failure, portable_view, position_of, saved_from, sorted_insert,
    storage_error, PortableView, ProfileLibrary,
};
use crate::identifiers::is_canonical_uuid;
use crate::model::{
    CloseSessionSettings, ProfileApplicationView, RacingProfileView, SupportingApplication, SupportingApplicationView,
};
use crate::settings::SettingsStore;
use crate::text::{
    eq_ignore_ascii_case, file_name, is_blank, path_file_name, same_text, string_from_chars, text_eq_ignore_ascii_case,
    text_is_blank,
};
use crate::update_advisor::UpdateAdvisor;
use vstd::prelude::*;

verus! {

/// The version of this release, reported in exported diagnostics.
pub const APPLICATION_VERSION: &'static str = "0.9.0";

/// How long a graceful stop may take before a force stop is offered.
pub const GRACEFUL_STOP_WAIT_MILLISECONDS: u64 = 5000;

/// User intent accepted by the core.
#[derive(Debug)]
pub enum AppCommand {
    CreateProfile { name: String, primary_sim_name: String },
    EditProfile { profile_id: String, name: String, primary_sim_name: String },
    DeleteProfile { profile_id: String },
    DuplicateProfile { source_profile_id: String, name: String },
    SaveProfile { profile: Box<RacingProfile> },
    SelectProfile { profile_id: String },
    ExportProfile { profile_id: String },
    ImportProfile { document: String },
    ApproveProfile {
        profile_id: String,
        configuration_reviewed: bool,
        approved_privileged_application_ids: Vec<String>,
    },
    StartApplication { profile_id: String, application_id: String },
    ExitApplication { application_id: String, pre_existing_confirmed: bool },
    ForceStopApplication { application_id: String, pre_existing_confirmed: bool, force_confirmed: bool },
    ConfirmProcessAction { token: String },
    CancelProcessAction { token: String },
    RestartApplication { profile_id: String, application_id: String, pre_existing_confirmed: bool },
    StartSession { profile_id: String },
    CancelStartup,
    CloseSession,
    AcceptRecovery,
    DismissRecovery,
    TestGameLaunch { profile_id: String },
    RequestWindowClose,
    RequestQuit { disposition: QuitDisposition },
    UpdateSettings { settings: DesktopSettings },
    ExportDiagnostics,
    PrepareUpdateCheck { trigger: UpdateCheckTrigger, now_unix_seconds: u64 },
    CompleteUpdateCheck { result: UpdateCheckResult },
    CancelUpdateCheck { request_id: String },
    PrepareFormationLapInstall,
    CancelFormationLapInstall { expected_version: String },
    RefreshProcesses,
}

/// The label of a command in the diagnostic log.
pub open spec fn command_label(command: AppCommand) -> Seq<char> {
    match command {
        AppCommand::CreateProfile { .. } => "profile.create"@,
        AppCommand::EditProfile { .. } => "profile.edit"@,
        AppCommand::DeleteProfile { .. } => "profile.delete"@,
        AppCommand::DuplicateProfile { .. } => "profile.duplicate"@,
        AppCommand::SaveProfile { .. } => "profile.save"@,
        AppCommand::SelectProfile { .. } => "profile.select"@,
        AppCommand::ExportProfile { .. } => "profile.export"@,
        AppCommand::ImportProfile { .. } => "profile.import"@,
        AppCommand::ApproveProfile { .. } => "profile.approve"@,
        AppCommand::StartApplication { .. } => "application.start"@,
        AppCommand::ExitApplication { .. } => "application.exit"@,
        AppCommand::ForceStopApplication { .. } => "application.force_stop"@,
        AppCommand::ConfirmProcessAction { .. } => "application.confirm"@,
        AppCommand::CancelProcessAction { .. } => "application.cancel"@,
        AppCommand::RestartApplication { .. } => "application.restart"@,
        AppCommand::StartSession { .. } => "session.start"@,
        AppCommand::CancelStartup => "session.cancel_startup"@,
        AppCommand::CloseSession => "session.close"@,
        AppCommand::AcceptRecovery => "recovery.accept"@,
        AppCommand::DismissRecovery => "recovery.dismiss"@,
        AppCommand::TestGameLaunch { .. } => "game.test_launch"@,
        AppCommand::RequestWindowClose => "desktop.window_close"@,
        AppCommand::RequestQuit { .. } => "desktop.quit"@,
        AppCommand::UpdateSettings { .. } => "settings.update"@,
        AppCommand::ExportDiagnostics => "diagnostics.export"@,
        AppCommand::PrepareUpdateCheck { .. } => "updates.prepare_check"@,
        AppCommand::CompleteUpdateCheck { .. } => "updates.complete_check"@,
        AppCommand::CancelUpdateCheck { .. } => "updates.cancel_check"@,
        AppCommand::PrepareFormationLapInstall => "updates.prepare_install"@,
        AppCommand::CancelFormationLapInstall { .. } => "updates.cancel_install"@,
        AppCommand::RefreshProcesses => "process.refresh"@,
    }
}

/// The label a command's outcome carries in the diagnostic log.
pub fn diagnostic_label(command: &AppCommand) -> (res: &'static str)
    ensures
        res@ == command_label(*command),
{
    match command {
        AppCommand::CreateProfile { .. } => "profile.create",
        AppCommand::EditProfile { .. } => "profile.edit",
        AppCommand::DeleteProfile { .. } => "profile.delete",
        AppCommand::DuplicateProfile { .. } => "profile.duplicate",
        AppCommand::SaveProfile { .. } => "profile.save",
        AppCommand::SelectProfile { .. } => "profile.select",
        AppCommand::ExportProfile { .. } => "profile.export",
        AppCommand::ImportProfile { .. } => "profile.import",
        AppCommand::ApproveProfile { .. } => "profile.approve",
        AppCommand::StartApplication { .. } => "application.start",
        AppCommand::ExitApplication { .. } => "application.exit",
        AppCommand::ForceStopApplication { .. } => "application.force_stop",
        AppCommand::ConfirmProcessAction { .. } => "application.confirm",
        AppCommand::CancelProcessAction { .. } => "application.cancel",
        AppCommand::RestartApplication { .. } => "application.restart",
        AppCommand::StartSession { .. } => "session.start",
        AppCommand::CancelStartup => "session.cancel_startup",
        AppCommand::CloseSession => "session.close",
        AppCommand::AcceptRecovery => "recovery.accept",
        AppCommand::DismissRecovery => "recovery.dismiss",
        AppCommand::TestGameLaunch { .. } => "game.test_launch",
        AppCommand::RequestWindowClose => "desktop.window_close",
        AppCommand::RequestQuit { .. } => "desktop.quit",
        AppCommand::UpdateSettings { .. } => "settings.update",
        AppCommand::ExportDiagnostics => "diagnostics.export",
        AppCommand::PrepareUpdateCheck { .. } => "updates.prepare_check",
        AppCommand::CompleteUpdateCheck { .. } => "updates.complete_check",
        AppCommand::CancelUpdateCheck { .. } => "updates.cancel_check",
        AppCommand::PrepareFormationLapInstall => "updates.prepare_install",
        AppCommand::CancelFormationLapInstall { .. } => "updates.cancel_install",
        AppCommand::RefreshProcesses => "process.refresh",
    }
}

/// Observable result of a completed command.
#[derive(Debug)]
#[allow(inconsistent_fields)]
pub enum CommandOutcome {
    ProfileCreated { profile_id: String },
    ProfileUpdated { profile_id: String },
    ProfileDeleted { profile_id: String },
    ProfileSelected { profile_id: String },
    ProfileExported { document: String },
    ApplicationStartRequested { application_id: String },
    ApplicationAlreadyRunning { application_id: String },
    ApplicationStopped { application_id: String },
    ApplicationRestarted { application_id: String },
    SessionStartRequested { profile_id: String },
    SessionStartFailed { application_id: String },
    SessionCancellationRequested,
    SessionCloseRequested,
    RecoveryAccepted,
    RecoveryDismissed,
    PreExistingControlConfirmationRequired { application_id: String },
    ForceStopConfirmationRequired { application_id: String },
    GameLaunchTested { diagnostic: GameLaunchDiagnostic },
    WindowCloseRequested { action: WindowCloseAction },
    QuitRequested { action: QuitAction },
    SettingsUpdated,
    DiagnosticsExported { diagnostics: DiagnosticExport },
    UpdateCheckPrepared { decision: UpdateCheckDecision },
    UpdateCheckCompleted,
    UpdateCheckCancelled,
    FormationLapInstallPrepared { decision: FormationLapInstallDecision },
    FormationLapInstallCancelled,
    ProcessesRefreshed,
}

/// The Session and processes a journal recorded before Formation Lap stopped.
#[derive(Debug)]
pub struct RecoveredSession {
    pub session: SessionSnapshot,
    pub application_processes: Vec<ApplicationProcessSnapshot>,
}

/// What the host read from local storage when Formation Lap started.
#[derive(Debug)]
pub struct StoredState {
    pub profiles: Vec<RacingProfile>,
    pub settings: Option<SettingsDocument>,
    pub recovered: Option<RecoveredSession>,
}

/// What closing the main window does in a Session state: the window hides to
/// the tray while a Session runs or changes, and the application exits otherwise.
pub open spec fn window_close_action(state: SessionState) -> WindowCloseAction {
    match state {
        SessionState::Starting | SessionState::Cancelling | SessionState::Active | SessionState::Closing => {
            WindowCloseAction::HideToTray
        },
        SessionState::Idle | SessionState::RecoveryAvailable => WindowCloseAction::Exit,
    }
}

/// What a Quit that closes the Session does, and the Session state it leaves.
pub open spec fn quit_closing_session(state: SessionState) -> (QuitAction, SessionState) {
    match state {
        SessionState::Idle => (QuitAction::ExitNow, SessionState::Idle),
        SessionState::Starting => (QuitAction::WaitForSessionClose, SessionState::Cancelling),
        SessionState::Active | SessionState::RecoveryAvailable => (QuitAction::WaitForSessionClose, SessionState::Closing),
        SessionState::Cancelling => (QuitAction::WaitForSessionClose, SessionState::Cancelling),
        SessionState::Closing => (QuitAction::WaitForSessionClose, SessionState::Closing),
    }
}

/// A Session is Idle exactly when it has no active profile.
pub open spec fn session_consistent(session: SessionSnapshotView) -> bool {
    (session.state == SessionState::Idle) == (session.active_profile_id is None)
}

/// Whether an application lets the Startup Sequence go on past it: it runs,
/// or it is optional and failed.
pub open spec fn startup_settled(application: SessionApplicationSnapshot) -> bool {
    ||| application.state == SessionApplicationState::Running
    ||| application.state == SessionApplicationState::RunningPreExisting
    ||| application.state == SessionApplicationState::Failed && application.requirement == Some(
        ApplicationRequirement::Optional,
    )
}

/// Whether every application of the Startup Sequence is running or is
/// optional and has failed.
pub open spec fn all_started(applications: Seq<SessionApplicationSnapshot>) -> bool {
    forall|j: int| 0 <= j < applications.len() ==> startup_settled(#[trigger] applications[j])
}

/// Whether the Startup Sequence kept its order from `before` to `after`: an
/// application left Pending only while every application before it (the
/// Supporting Applications in saved order, the Primary Sim last) was running
/// or was optional and had failed.
pub open spec fn launched_in_order(before: Seq<SessionApplicationSnapshot>, after: Seq<SessionApplicationSnapshot>) -> bool {
    &&& after.len() == before.len()
    &&& forall|i: int|
        0 <= i < after.len() && before[i].state == SessionApplicationState::Pending && #[trigger] after[i].state
            != SessionApplicationState::Pending ==> forall|j: int| 0 <= j < i ==> startup_settled(#[trigger] after[j])
}

/// Whether every application that left Pending did so only after every
/// application before it was running or was optional and had failed.
pub open spec fn startup_in_order(applications: Seq<SessionApplicationSnapshot>) -> bool {
    forall|i: int|
        0 <= i < applications.len() && #[trigger] applications[i].state != SessionApplicationState::Pending ==> forall|
            j: int,
        | 0 <= j < i ==> startup_settled(#[trigger] applications[j])
}

/// Whether Close Session leaves a Supporting Application running: its own
/// keep-running choice, or SteamVR while the profile keeps SteamVR open.
pub open spec fn keeps_running(close_session: CloseSessionSettings, supporting: SupportingApplicationView) -> bool {
    supporting.keep_running || (eq_ignore_ascii_case(supporting.application.name@, "SteamVR"@)
        && !close_session.stop_steam_vr)
}

/// The Close Session order, the reverse of the Startup Sequence: the Primary
/// Sim first, then the Supporting Applications from last to first, each with
/// whether it keeps running.
pub open spec fn cleanup_order(profile: RacingProfileView) -> Seq<(Seq<char>, bool)> {
    let count = profile.supporting_applications.len();
    seq![(profile.primary_sim.id@, false)] + Seq::new(
        count,
        |k: int|
            (
                profile.supporting_applications[count - 1 - k].application.id@,
                keeps_running(profile.close_session, profile.supporting_applications[count - 1 - k]),
            ),
    )
}

/// Whether every entry of the close order for an application keeps it running.
pub open spec fn always_kept(order: Seq<(Seq<char>, bool)>, application_id: Seq<char>) -> bool {
    forall|index: int| 0 <= index < order.len() && (#[trigger] order[index]).0 == application_id ==> order[index].1
}

/// Whether an application's recorded Process is as it was, or was detached:
/// recorded as found running with the same identity, never asked to stop.
pub open spec fn detached_or_unchanged(
    before: Map<Seq<char>, ApplicationProcessSnapshot>,
    after: Map<Seq<char>, ApplicationProcessSnapshot>,
    application_id: Seq<char>,
) -> bool {
    before.contains_key(application_id) ==> after.contains_key(application_id) && (after[application_id]
        == before[application_id] || (after[application_id].status == ProcessStatus::RunningPreExisting
        && after[application_id].ownership == Some(ProcessOwnership::PreExisting) && after[application_id].identity
        == before[application_id].identity))
}

/// A change to one application's Process keeps the close facts of every other
/// application, and of that one when it is kept running and was detached.
proof fn lemma_close_frame(
    before: Map<Seq<char>, ApplicationProcessSnapshot>,
    middle: Map<Seq<char>, ApplicationProcessSnapshot>,
    after: Map<Seq<char>, ApplicationProcessSnapshot>,
    order: Seq<(Seq<char>, bool)>,
    application_id: Seq<char>,
)
    requires
        forall|id: Seq<char>| always_kept(order, id) ==> #[trigger] detached_or_unchanged(before, middle, id),
        always_kept(order, application_id) ==> detached_or_unchanged(before, after, application_id),
        forall|key: Seq<char>| key != application_id ==> (#[trigger] after.contains_key(key) == middle.contains_key(key)
            && (middle.contains_key(key) ==> after[key] == middle[key])),
    ensures
        forall|id: Seq<char>| always_kept(order, id) ==> #[trigger] detached_or_unchanged(before, after, id),
{
    assert forall|id: Seq<char>| always_kept(order, id) implies #[trigger] detached_or_unchanged(before, after, id) by {
        if id != application_id {
            assert(detached_or_unchanged(before, middle, id));
            if before.contains_key(id) {
                assert(middle.contains_key(id));
                assert(after.contains_key(id));
            }
        }
    }
}

/// The Close Session order of a Racing Profile: the Primary Sim first, then its
/// Supporting Applications in reverse startup order, each with whether it keeps
/// running.
pub fn cleanup_plan(profile: &RacingProfile) -> (res: Vec<(String, bool)>)
    ensures
        res@.len() == cleanup_order(profile@).len(),
        forall|index: int| 0 <= index < res@.len() ==> (#[trigger] res@[index].0@, res@[index].1) == cleanup_order(profile@)[index],
{
    let ghost order = cleanup_order(profile@);
    let mut cleanup: Vec<(String, bool)> = Vec::new();
    cleanup.push((profile.primary_sim.id.clone(), false));
    let count = profile.supporting_applications.len();
    let mut index: usize = count;
    while index > 0
        invariant
            count == profile.supporting_applications@.len(),
            order == cleanup_order(profile@),
            index <= count,
            cleanup@.len() == count - index + 1,
            forall|k: int| 0 <= k < cleanup@.len() ==> (#[trigger] cleanup@[k].0@, cleanup@[k].1) == order[k],
        decreases index,
    {
        index = index - 1;
        let supporting = &profile.supporting_applications[index];
        let preserve_steam_vr = text_eq_ignore_ascii_case(supporting.application.name.as_str(), "SteamVR")
            && !profile.close_session.stop_steam_vr;
        proof {
            assert(profile@.supporting_applications[index as int] == supporting@);
        }
        let ghost before = cleanup@;
        cleanup.push((supporting.application.id.clone(), supporting.keep_running || preserve_steam_vr));
        proof {
            assert forall|k: int| 0 <= k < cleanup@.len() implies (#[trigger] cleanup@[k].0@, cleanup@[k].1) == order[k] by {
                if k < before.len() {
                    assert(cleanup@[k] == before[k]);
                }
            }
        }
    }
    cleanup
}

/// What a Close Session step does to the applications that keep running: for
/// the Racing Profile of a Closing Session, the Process of every application
/// that each entry of the close order keeps running is left as it was or
/// detached, never asked to stop.
pub open spec fn closing_keeps_running(
    session: SessionSnapshotView,
    profiles: Seq<RacingProfileView>,
    before: Map<Seq<char>, ApplicationProcessSnapshot>,
    after: Map<Seq<char>, ApplicationProcessSnapshot>,
) -> bool {
    session.state == SessionState::Closing ==> match session.active_profile_id {
        Some(profile_id) => match position_of(profiles, profile_id@, 0) {
            Some(index) => forall|id: Seq<char>|
                always_kept(cleanup_order(profiles[index as int]), id) ==> #[trigger] detached_or_unchanged(before, after, id),
            None => true,
        },
        None => true,
    }
}

/// Whether position `index` holds the first Session application with this id.
pub open spec fn first_listed(applications: Seq<SessionApplicationSnapshot>, application_id: Seq<char>, index: int) -> bool {
    &&& applications[index].application_id@ == application_id
    &&& forall|earlier: int| 0 <= earlier < index ==> (#[trigger] applications[earlier]).application_id@ != application_id
}

/// The position of the first Supporting Application with this id.
pub open spec fn first_supporting_with_id(applications: Seq<SupportingApplication>, application_id: Seq<char>) -> Option<int> {
    if exists|index: int| 0 <= index < applications.len() && (#[trigger] applications[index]).application.id@ == application_id {
        Some(
            choose|index: int|
                0 <= index < applications.len() && (#[trigger] applications[index]).application.id@ == application_id && forall|
                    earlier: int,
                | 0 <= earlier < index ==> (#[trigger] applications[earlier]).application.id@ != application_id,
        )
    } else {
        None
    }
}

proof fn lemma_first_supporting_with_id(applications: Seq<SupportingApplication>, application_id: Seq<char>, index: int)
    requires
        0 <= index < applications.len(),
        applications[index].application.id@ == application_id,
        forall|earlier: int| 0 <= earlier < index ==> (#[trigger] applications[earlier]).application.id@ != application_id,
    ensures
        first_supporting_with_id(applications, application_id) == Some(index),
{
    let chosen = first_supporting_with_id(applications, application_id)->0;
    assert(0 <= chosen < applications.len() && applications[chosen].application.id@ == application_id && forall|earlier: int|
        0 <= earlier < chosen ==> (#[trigger] applications[earlier]).application.id@ != application_id);
    if chosen < index {
        assert(applications[chosen].application.id@ != application_id);
    } else if chosen > index {
        assert(applications[index].application.id@ != application_id);
    }
}

proof fn lemma_no_supporting_with_id(applications: Seq<SupportingApplication>, application_id: Seq<char>)
    requires
        forall|earlier: int| 0 <= earlier < applications.len() ==> (#[trigger] applications[earlier]).application.id@ != application_id,
    ensures
        first_supporting_with_id(applications, application_id) is None,
{
}

/// Whether a Process the Session owns is still stopping.
pub open spec fn owned_process_stopping(processes: Map<Seq<char>, ApplicationProcessSnapshot>) -> bool {
    exists|key: Seq<char>|
        #[trigger] processes.contains_key(key) && processes[key].status == ProcessStatus::Stopping && processes[key].ownership
            == Some(ProcessOwnership::SessionOwned)
}

/// Whether the Session owns a running Process recorded for an application.
pub open spec fn owned_running(processes: Map<Seq<char>, ApplicationProcessSnapshot>, application_id: Seq<char>) -> bool {
    &&& processes.contains_key(application_id)
    &&& processes[application_id].ownership == Some(ProcessOwnership::SessionOwned)
    &&& processes[application_id].identity is Some
}

/// Whether an application of the Session runs elevated and its Process, owned
/// by the Session, is still recorded as running.
pub open spec fn owned_elevated_running(
    applications: Seq<SessionApplicationSnapshot>,
    recipes: Map<Seq<char>, LaunchRecipe>,
    processes: Map<Seq<char>, ApplicationProcessSnapshot>,
) -> bool {
    exists|j: int|
        0 <= j < applications.len() && recipes.contains_key(#[trigger] applications[j].application_id@)
            && recipes[applications[j].application_id@].elevated && owned_running(processes, applications[j].application_id@)
}

/// Whether an application of the Session still has a running Process the
/// Session owns.
pub open spec fn owns_running_application(
    applications: Seq<SessionApplicationSnapshot>,
    processes: Map<Seq<char>, ApplicationProcessSnapshot>,
) -> bool {
    exists|j: int| 0 <= j < applications.len() && owned_running(processes, #[trigger] applications[j].application_id@)
}

/// Whether every application from `start` through `index` runs elevated.
pub open spec fn elevated_run(applications: Seq<ProfileApplication>, start: int, index: int) -> bool {
    forall|m: int| start <= m <= index ==> (#[trigger] applications[m]).launch_recipe.elevated
}

/// Whether summaries list the profiles in order: one per profile, with its id,
/// name and Primary Sim name.
pub open spec fn summaries_of(summaries: Seq<crate::model::ProfileSummary>, profiles: Seq<RacingProfileView>) -> bool {
    &&& summaries.len() == profiles.len()
    &&& forall|i: int|
        0 <= i < summaries.len() ==> (#[trigger] summaries[i]).id@ == profiles[i].id@ && summaries[i].name@
            == profiles[i].name@ && summaries[i].primary_sim_name@ == profiles[i].primary_sim.name@
}

/// The profile the window shows as selected: the stored selection while it
/// exists, else the first profile, else none.
pub open spec fn selected_profile_view(profiles: Seq<RacingProfileView>, selected: Option<Seq<char>>) -> Option<RacingProfileView> {
    match selected {
        Some(profile_id) if position_of(profiles, profile_id, 0) is Some => Some(
            profiles[position_of(profiles, profile_id, 0)->0 as int],
        ),
        _ => if profiles.len() == 0 {
            None
        } else {
            Some(profiles[0])
        },
    }
}

/// Whether an elevated application of the Session has a prepared launch whose
/// Process the Session owns.
pub open spec fn owned_elevated_prepared(
    applications: Seq<SessionApplicationSnapshot>,
    recipes: Map<Seq<char>, LaunchRecipe>,
    prepared: Map<Seq<char>, PreparedElevatedLaunch>,
) -> bool {
    exists|j: int|
        0 <= j < applications.len() && recipes.contains_key(#[trigger] applications[j].application_id@)
            && recipes[applications[j].application_id@].elevated && prepared.contains_key(applications[j].application_id@)
            && prepared[applications[j].application_id@] is SessionOwned
}

/// Whether the Session owns any recorded Process.
pub open spec fn owns_any_process(processes: Map<Seq<char>, ApplicationProcessSnapshot>) -> bool {
    exists|key: Seq<char>|
        #[trigger] processes.contains_key(key) && processes[key].ownership == Some(ProcessOwnership::SessionOwned)
}

/// Whether every Process that was found running, with its identity, is still
/// recorded as found running with the same identity.
pub open spec fn found_processes_kept(
    before: Map<Seq<char>, ApplicationProcessSnapshot>,
    after: Map<Seq<char>, ApplicationProcessSnapshot>,
) -> bool {
    forall|key: Seq<char>|
        #[trigger] before.contains_key(key) && before[key].ownership == Some(ProcessOwnership::PreExisting)
            && before[key].identity is Some ==> after.contains_key(key) && after[key].ownership == Some(
            ProcessOwnership::PreExisting,
        ) && after[key].identity == before[key].identity
}

/// Whether any Process is recorded.
pub open spec fn has_processes(processes: Map<Seq<char>, ApplicationProcessSnapshot>) -> bool {
    exists|key: Seq<char>| #[trigger] processes.contains_key(key)
}

/// Whether every recorded Process is marked as found running, not owned.
pub open spec fn all_pre_existing(processes: Map<Seq<char>, ApplicationProcessSnapshot>) -> bool {
    forall|key: Seq<char>|
        #[trigger] processes.contains_key(key) ==> processes[key].ownership == Some(ProcessOwnership::PreExisting)
            && processes[key].status == ProcessStatus::RunningPreExisting
}

/// Whether every recorded Process with an identity is marked as found running.
pub open spec fn identified_pre_existing(processes: Map<Seq<char>, ApplicationProcessSnapshot>) -> bool {
    forall|key: Seq<char>|
        #[trigger] processes.contains_key(key) && processes[key].identity is Some ==> processes[key].ownership
            == Some(ProcessOwnership::PreExisting) && processes[key].status == ProcessStatus::RunningPreExisting
}

/// Whether an error is the invalid-transition error for a state and command.
pub open spec fn is_transition_error(error: CoreError, state: SessionState, command: Seq<char>) -> bool {
    error matches CoreError::InvalidSessionTransition { current, command: text } && current == state && text@ == command
}

#[derive(Debug)]
enum PreparedElevatedLaunch {
    SessionOwned(ProcessIdentity),
    PreExisting(ProcessIdentity),
    Failed(String),
}

/// A request the core made to start, adopt or stop a Process, with the answer
/// it acted on. Each `Match` and `Launch` is a call of the process runtime; each
/// `GracefulStop` and `ForceStop` is a stop request, made through the runtime or,
/// for an elevated application, through the elevated helper.
pub enum ProcessRequest {
    /// Looked for running Processes that match a recipe; the first one found.
    Match { recipe: LaunchRecipe, first: Option<ProcessIdentity> },
    /// Started a recipe; the identity of the started Process, if it started.
    Launch { recipe: LaunchRecipe, identity: Option<ProcessIdentity> },
    /// Asked a Process to close; whether the request was made and the Process exited.
    GracefulStop { identity: ProcessIdentity, exited: bool },
    /// Terminated a Process.
    ForceStop { identity: ProcessIdentity },
    /// Looked at a recovered Process; whether it was running.
    Observe { identity: ProcessIdentity, running: bool },
}

/// Whether every request from `start` on only looked at a Process.
pub open spec fn only_observations(requests: Seq<ProcessRequest>, start: int) -> bool {
    forall|i: int| start <= i < requests.len() ==> #[trigger] requests[i] is Observe
}

/// Whether a Process with this identity was seen running.
pub open spec fn observed_running(requests: Seq<ProcessRequest>, identity: Option<ProcessIdentity>) -> bool {
    identity is Some && exists|i: int|
        0 <= i < requests.len() && #[trigger] requests[i] == (ProcessRequest::Observe { identity: identity->0, running: true })
}

/// Whether every request from `start` on is a graceful stop.
pub open spec fn only_graceful_stops(requests: Seq<ProcessRequest>, start: int) -> bool {
    forall|i: int| start <= i < requests.len() ==> #[trigger] requests[i] is GracefulStop
}

/// Whether the Session owns a recorded Process with this identity.
pub open spec fn owned_identity(processes: Map<Seq<char>, ApplicationProcessSnapshot>, identity: ProcessIdentity) -> bool {
    exists|key: Seq<char>|
        #[trigger] processes.contains_key(key) && processes[key].ownership == Some(ProcessOwnership::SessionOwned)
            && processes[key].identity == Some(identity)
}

/// Whether every graceful stop from `start` on asks a Process the Session owns to close.
pub open spec fn stops_owned_processes(
    requests: Seq<ProcessRequest>,
    start: int,
    processes: Map<Seq<char>, ApplicationProcessSnapshot>,
) -> bool {
    forall|i: int|
        start <= i < requests.len() && (#[trigger] requests[i]) is GracefulStop ==> owned_identity(
            processes,
            requests[i]->GracefulStop_identity,
        )
}

/// Whether every Process the Session owns after a change was owned, with the
/// same identity, before it.
pub open spec fn owned_from(
    before: Map<Seq<char>, ApplicationProcessSnapshot>,
    after: Map<Seq<char>, ApplicationProcessSnapshot>,
) -> bool {
    forall|key: Seq<char>|
        #[trigger] after.contains_key(key) && after[key].ownership == Some(ProcessOwnership::SessionOwned) ==> before.contains_key(
            key,
        ) && before[key].ownership == Some(ProcessOwnership::SessionOwned) && before[key].identity == after[key].identity
}

/// Whether every request from `start` on looks for or starts a Process.
pub open spec fn only_starts(requests: Seq<ProcessRequest>, start: int) -> bool {
    forall|i: int| start <= i < requests.len() ==> (#[trigger] requests[i] is Match || requests[i] is Launch)
}

/// Whether the requests from `start` on are graceful stops at these places of
/// a cleanup order, strictly later each time: each asks the Process the Session
/// owned for an application of the order that is not kept running.
pub open spec fn stops_at_places(
    requests: Seq<ProcessRequest>,
    start: int,
    order: Seq<(Seq<char>, bool)>,
    processes: Map<Seq<char>, ApplicationProcessSnapshot>,
    places: Seq<int>,
) -> bool {
    &&& places.len() == requests.len() - start
    &&& forall|i: int, j: int| 0 <= i < j < places.len() ==> #[trigger] places[i] < #[trigger] places[j]
    &&& forall|i: int|
        0 <= i < places.len() ==> {
            &&& 0 <= #[trigger] places[i] < order.len()
            &&& !order[places[i]].1
            &&& processes.contains_key(order[places[i]].0)
            &&& processes[order[places[i]].0].ownership == Some(ProcessOwnership::SessionOwned)
            &&& requests[start + i] is GracefulStop
            &&& processes[order[places[i]].0].identity == Some(requests[start + i]->GracefulStop_identity)
        }
}

/// Whether the requests from `start` on are graceful stops that follow a
/// cleanup order.
pub open spec fn stops_follow_order(
    requests: Seq<ProcessRequest>,
    start: int,
    order: Seq<(Seq<char>, bool)>,
    processes: Map<Seq<char>, ApplicationProcessSnapshot>,
) -> bool {
    exists|places: Seq<int>| #[trigger] stops_at_places(requests, start, order, processes, places)
}

/// Whether an application that is not optional has failed to start.
pub open spec fn required_application_failed(applications: Seq<SessionApplicationSnapshot>) -> bool {
    exists|j: int|
        0 <= j < applications.len() && (#[trigger] applications[j]).state == SessionApplicationState::Failed
            && applications[j].requirement != Some(ApplicationRequirement::Optional)
}

/// How many applications have not left Pending.
pub open spec fn pending_count(applications: Seq<SessionApplicationSnapshot>) -> nat
    decreases applications.len(),
{
    if applications.len() == 0 {
        0
    } else {
        pending_count(applications.drop_last()) + if applications.last().state == SessionApplicationState::Pending {
            1nat
        } else {
            0nat
        }
    }
}

proof fn lemma_pending_count_bounded(applications: Seq<SessionApplicationSnapshot>)
    ensures
        pending_count(applications) <= applications.len(),
    decreases applications.len(),
{
    if applications.len() > 0 {
        lemma_pending_count_bounded(applications.drop_last());
    }
}

proof fn lemma_pending_count_leaves(
    applications: Seq<SessionApplicationSnapshot>,
    index: int,
    application: SessionApplicationSnapshot,
)
    requires
        0 <= index < applications.len(),
        applications[index].state == SessionApplicationState::Pending,
        application.state != SessionApplicationState::Pending,
    ensures
        pending_count(applications.update(index, application)) + 1 == pending_count(applications),
    decreases applications.len(),
{
    let updated = applications.update(index, application);
    if index == applications.len() - 1 {
        assert(updated.drop_last() =~= applications.drop_last());
    } else {
        lemma_pending_count_leaves(applications.drop_last(), index, application);
        assert(updated.drop_last() =~= applications.drop_last().update(index, application));
    }
}

/// Whether a startup that is still Starting waits on something: every
/// application has settled, or one has left Pending without settling (it is
/// still starting, or it stopped).
pub open spec fn startup_waits(applications: Seq<SessionApplicationSnapshot>) -> bool {
    ||| all_started(applications)
    ||| exists|j: int|
        0 <= j < applications.len() && (#[trigger] applications[j]).state != SessionApplicationState::Pending
            && !startup_settled(applications[j])
}

/// Whether a Startup Sequence got going: an application was started or found
/// running, or every application has settled.
pub open spec fn started_or_settled(applications: Seq<SessionApplicationSnapshot>) -> bool {
    ||| all_started(applications)
    ||| exists|j: int|
        0 <= j < applications.len() && ((#[trigger] applications[j]).state == SessionApplicationState::Starting
            || applications[j].state == SessionApplicationState::RunningPreExisting)
}

/// Whether every graceful stop from `start` on saw its Process exit.
pub open spec fn all_stops_exited(requests: Seq<ProcessRequest>, start: int) -> bool {
    forall|i: int| start <= i < requests.len() && (#[trigger] requests[i]) is GracefulStop ==> requests[i]->exited
}

struct PendingProcessConfirmation {
    snapshot: ProcessConfirmationSnapshot,
    restart_recipe: Option<LaunchRecipe>,
}

/// Owns authoritative Racing Profile and Session state.
pub struct FormationLapCore<R, B, H> {
    profile_library: ProfileLibrary,
    settings_store: SettingsStore,
    process_runtime: R,
    privilege_broker: B,
    host: H,
    application_processes: KeyedList<ApplicationProcessSnapshot>,
    failed_responsiveness_checks: KeyedList<u8>,
    application_recipes: KeyedList<LaunchRecipe>,
    pending_process_confirmation: Option<PendingProcessConfirmation>,
    prepared_elevated_launches: KeyedList<PreparedElevatedLaunch>,
    startup_started_at: KeyedList<u64>,
    post_start_ready_at: KeyedList<u64>,
    session_events: Vec<SessionEvent>,
    update_advisor: UpdateAdvisor,
    formation_lap_installing: Option<String>,
    session: SessionSnapshot,
    requests: Ghost<Seq<ProcessRequest>>,
    startup_cancelled_with: Ghost<Seq<SessionApplicationSnapshot>>,
}

/// The configured executable a recovered Process must match: the monitored
/// executable, else the direct executable, else none.
pub open spec fn configured_executable(recipe: LaunchRecipe) -> Option<String> {
    match recipe.monitored_executable_path {
        Some(path) => Some(path),
        None => match recipe.source {
            LaunchSource::DirectExecutable { executable_path } => Some(executable_path),
            LaunchSource::Steam { .. } => None,
        },
    }
}

/// The configured executable a recovered Process must match.
fn configured_path(recipe: &LaunchRecipe) -> (res: Option<String>)
    ensures
        res == configured_executable(*recipe),
{
    match &recipe.monitored_executable_path {
        Some(path) => Some(path.clone()),
        None => match &recipe.source {
            LaunchSource::DirectExecutable { executable_path } => Some(executable_path.clone()),
            LaunchSource::Steam { .. } => None,
        },
    }
}

/// Whether an identity's recipe leaves no doubt which Process it started.
pub open spec fn identity_is_unambiguous(recipe: LaunchRecipe) -> bool {
    recipe.monitored_process is None || recipe.monitored_executable_path is Some
}

fn launch_identity_is_unambiguous(recipe: &LaunchRecipe) -> (res: bool)
    ensures
        res == identity_is_unambiguous(*recipe),
{
    recipe.monitored_process.is_none() || recipe.monitored_executable_path.is_some()
}

impl<R: ProcessRuntime, B: PrivilegeBroker, H: CoreHost> FormationLapCore<R, B, H> {
    /// The Session as the window shows it.
    pub closed spec fn session_view(&self) -> SessionSnapshotView {
        self.session@
    }

    /// The recorded application Processes, by application id.
    pub closed spec fn process_map(&self) -> Map<Seq<char>, ApplicationProcessSnapshot> {
        self.application_processes@
    }

    /// The Racing Profiles, in order.
    pub closed spec fn profiles_view(&self) -> Seq<crate::model::RacingProfileView> {
        self.profile_library@
    }

    /// The local settings.
    pub closed spec fn settings_view(&self) -> crate::settings::SettingsView {
        self.settings_store@
    }

    /// The number of recorded Processes.
    pub closed spec fn process_count(&self) -> nat {
        self.application_processes.key_order().len()
    }

    /// The version being installed, if an installation holds the lease.
    /// Whether a stored profile waits for review because an elevated
    /// application of it is not approved.
    pub closed spec fn needs_review(&self, profile_id: Seq<char>) -> bool {
        is_canonical_uuid(profile_id) && position_of(self.profile_library@, profile_id, 0) is Some
            && self.profile_library.in_review(profile_id)
    }

    pub closed spec fn installing(&self) -> Option<Seq<char>> {
        match self.formation_lap_installing {
            Some(version) => Some(version@),
            None => None,
        }
    }

    /// Whether a process confirmation is pending.
    pub closed spec fn confirmation_pending(&self) -> bool {
        self.pending_process_confirmation is Some
    }

    /// The core's own consistency: an Idle Session has no active profile and a
    /// Session in any other state has one.
    pub closed spec fn wf(&self) -> bool {
        session_consistent(self.session@)
    }

    fn recovery_identity_matches_recipe(host: &mut H, identity: &ProcessIdentity, recipe: &LaunchRecipe) -> (res: bool)
        ensures
            configured_executable(*recipe) is None ==> !res,
    {
        match configured_path(recipe) {
            Some(path) => match host.canonical_path(path.as_str()) {
                Some(canonical) => text_eq_ignore_ascii_case(canonical.as_str(), identity.canonical_executable_path.as_str()),
                None => false,
            },
            None => false,
        }
    }

    /// Opens the core over stored state, a Process runtime, a privilege broker
    /// and a host.
    ///
    /// A recovered Session is offered only when its journal is consistent with
    /// the stored profile and at least one of its Processes still runs and
    /// matches its recipe. Liveness and recipe matching cannot prove that
    /// Formation Lap created a Process, so recovery never restores automatic
    /// cleanup ownership: every recovered Process is marked as found running.
    pub fn open_with_runtime_and_privilege_broker(
        stored: StoredState,
        process_runtime: R,
        privilege_broker: B,
        host: H,
    ) -> (res: Result<Self, CoreError>)
        ensures
            res is Ok ==> res->Ok_0.wf(),
            res is Ok ==> all_pre_existing(res->Ok_0.process_map()),
            res is Ok ==> (res->Ok_0.session_view().state == SessionState::RecoveryAvailable
                <==> has_processes(res->Ok_0.process_map())),
            res is Ok ==> (res->Ok_0.session_view().state == SessionState::Idle
                || res->Ok_0.session_view().state == SessionState::RecoveryAvailable),
            res is Ok ==> res->Ok_0.installing() is None && !res->Ok_0.confirmation_pending(),
            stored.settings matches Some(document) && document.schema_version != crate::settings::SETTINGS_SCHEMA_VERSION
                ==> res is Err && res->Err_0 == CoreError::UnsupportedSettingsSchema(stored.settings->0.schema_version),
            res is Err && !(stored.settings matches Some(document) && document.schema_version
                != crate::settings::SETTINGS_SCHEMA_VERSION) ==> res->Err_0 is Storage,
            !(stored.settings matches Some(document) && document.schema_version != crate::settings::SETTINGS_SCHEMA_VERSION)
                && stored.recovered is None ==> res is Ok && res->Ok_0.session_view().state == SessionState::Idle
                && res->Ok_0.process_map() == Map::<Seq<char>, ApplicationProcessSnapshot>::empty(),
            res is Ok ==> res->Ok_0.settings_view() == match stored.settings {
                Some(document) => crate::settings::document_settings(document),
                None => crate::settings::SettingsView {
                    selected_profile_id: None,
                    desktop: crate::model::default_desktop_settings(),
                    last_automatic_update_check_unix_seconds: None,
                },
            },
            res is Ok ==> res->Ok_0.profiles_view().len() == stored.profiles@.len() && crate::profile_library::profiles_sorted(
                res->Ok_0.profiles_view(),
            ) && res->Ok_0.profiles_view().to_multiset() == crate::profile_library::profile_views(
                stored.profiles@,
            ).to_multiset(),
            res is Ok && stored.recovered is Some ==> recovered_from_journal(
                stored.recovered->0.application_processes@,
                res->Ok_0.process_map(),
            ),
            res is Ok ==> only_observations(res->Ok_0.requests(), 0),
            res is Ok ==> forall|key: Seq<char>| #[trigger] res->Ok_0.process_map().contains_key(key) ==> observed_running(
                res->Ok_0.requests(),
                res->Ok_0.process_map()[key].identity,
            ),
    {
        let StoredState { profiles, settings, recovered } = stored;
        let settings_store = match settings {
            Some(document) => SettingsStore::from_document(document)?,
            None => SettingsStore::fresh(),
        };
        let update_advisor = UpdateAdvisor::new(settings_store.last_automatic_update_check_unix_seconds());
        let mut core = FormationLapCore {
            profile_library: ProfileLibrary::from_profiles(profiles),
            settings_store,
            process_runtime,
            privilege_broker,
            host,
            application_processes: KeyedList::new(),
            failed_responsiveness_checks: KeyedList::new(),
            application_recipes: KeyedList::new(),
            pending_process_confirmation: None,
            prepared_elevated_launches: KeyedList::new(),
            startup_started_at: KeyedList::new(),
            post_start_ready_at: KeyedList::new(),
            session_events: Vec::new(),
            update_advisor,
            formation_lap_installing: None,
            session: SessionSnapshot::idle(),
            requests: Ghost(Seq::empty()),
            startup_cancelled_with: Ghost(Seq::empty()),
        };
        match recovered {
            Some(journal) => core.recover(journal)?,
            None => {},
        }
        Ok(core)
    }

    fn recover(&mut self, journal: RecoveredSession) -> (res: Result<(), CoreError>)
        requires
            old(self).session@.state == SessionState::Idle,
            old(self).session@.active_profile_id is None,
            old(self).application_processes@ == Map::<Seq<char>, ApplicationProcessSnapshot>::empty(),
            old(self).formation_lap_installing is None,
            old(self).pending_process_confirmation is None,
        ensures
            final(self).formation_lap_installing is None,
            final(self).pending_process_confirmation is None,
            res is Ok ==> session_consistent(final(self).session@),
            res is Ok ==> all_pre_existing(final(self).application_processes@),
            res is Ok ==> (final(self).session@.state == SessionState::RecoveryAvailable <==> has_processes(final(self).application_processes@)),
            res is Ok ==> (final(self).session@.state == SessionState::Idle || final(self).session@.state == SessionState::RecoveryAvailable),
            res is Err ==> res->Err_0 is Storage,
            final(self).profile_library@ == old(self).profile_library@,
            final(self).settings_store@ == old(self).settings_store@,
            final(self).update_advisor@ == old(self).update_advisor@,
            recovered_from_journal(journal.application_processes@, final(self).application_processes@),
            final(self).session@.state == SessionState::RecoveryAvailable ==> final(self).session@.active_profile_id
                == journal.session.active_profile_id && journal.session.active_profile_id is Some && position_of(
                old(self).profile_library@,
                journal.session.active_profile_id->0@,
                0,
            ) is Some,
            final(self).session@.state != SessionState::RecoveryAvailable ==> final(self).session@ == old(self).session@,
            old(self).requests@.is_prefix_of(final(self).requests@),
            only_observations(final(self).requests@, old(self).requests@.len() as int),
            forall|key: Seq<char>| #[trigger] final(self).application_processes@.contains_key(key) ==> observed_running(
                final(self).requests@,
                final(self).application_processes@[key].identity,
            ),
    {
        let ghost journal_processes = journal.application_processes@;
        let ghost journal_profile_id = journal.session.active_profile_id;
        let RecoveredSession { session: recovered_session, application_processes: recovered_processes } = journal;
        let profile = match &recovered_session.active_profile_id {
            Some(profile_id) => self.profile_library.profile(profile_id.as_str()),
            None => None,
        };
        let mut recovered_recipes: KeyedList<LaunchRecipe> = KeyedList::new();
        match &profile {
            Some(profile) => {
                let mut index: usize = 0;
                while index < profile.supporting_applications.len()
                    invariant
                        index <= profile.supporting_applications@.len(),
                    decreases profile.supporting_applications@.len() - index,
                {
                    let application = &profile.supporting_applications[index].application;
                    recovered_recipes.insert(application.id.clone(), application.launch_recipe.clone());
                    index = index + 1;
                }
                recovered_recipes.insert(profile.primary_sim.id.clone(), profile.primary_sim.launch_recipe.clone());
            },
            None => {},
        }
        let mut consistent = profile.is_some();
        let mut index: usize = 0;
        while index < recovered_processes.len() && consistent
            invariant
                index <= recovered_processes@.len(),
                recovered_processes@ == journal_processes,
                self.profile_library@ == old(self).profile_library@,
                self.settings_store@ == old(self).settings_store@,
                self.update_advisor@ == old(self).update_advisor@,
                self.session@ == old(self).session@,
                self.application_processes@ == old(self).application_processes@,
                self.formation_lap_installing is None,
                self.pending_process_confirmation is None,
                self.requests@ == old(self).requests@,
            decreases recovered_processes@.len() - index,
        {
            let process = &recovered_processes[index];
            match &process.identity {
                Some(identity) => {
                    let mut listed = false;
                    let mut position: usize = 0;
                    while position < recovered_session.applications.len()
                        invariant
                            position <= recovered_session.applications@.len(),
                        decreases recovered_session.applications@.len() - position,
                    {
                        if same_text(
                            recovered_session.applications[position].application_id.as_str(),
                            process.application_id.as_str(),
                        ) {
                            listed = true;
                        }
                        position = position + 1;
                    }
                    let matches = match recovered_recipes.get(process.application_id.as_str()) {
                        Some(recipe) => {
                            let recipe = recipe.clone();
                            Self::recovery_identity_matches_recipe(&mut self.host, identity, &recipe)
                        },
                        None => false,
                    };
                    if !(listed && matches) {
                        consistent = false;
                    }
                },
                None => {},
            }
            index = index + 1;
        }
        if consistent {
            let mut remaining = recovered_processes;
            while remaining.len() > 0
                invariant
                    all_pre_existing(self.application_processes@),
                    self.session@ == old(self).session@,
                    self.formation_lap_installing is None,
                    self.pending_process_confirmation is None,
                    self.profile_library@ == old(self).profile_library@,
                    self.settings_store@ == old(self).settings_store@,
                    self.update_advisor@ == old(self).update_advisor@,
                    remaining@.len() <= journal_processes.len(),
                    remaining@ == journal_processes.subrange(0, remaining@.len() as int),
                    recovered_from_journal(journal_processes, self.application_processes@),
                    old(self).requests@.is_prefix_of(self.requests@),
                    only_observations(self.requests@, old(self).requests@.len() as int),
                    forall|key: Seq<char>| #[trigger] self.application_processes@.contains_key(key) ==> observed_running(
                        self.requests@,
                        self.application_processes@[key].identity,
                    ),
                decreases remaining@.len(),
            {
                let ghost last = remaining@.len() - 1;
                let mut process = remaining.pop().unwrap();
                assert(process == journal_processes[last]);
                assert(remaining@ =~= journal_processes.subrange(0, remaining@.len() as int));
                let ghost before_requests = self.requests@;
                let running = match &process.identity {
                    Some(identity) => {
                        let running = match self.process_runtime.observe(identity) {
                            Ok(ProcessObservation::Running { .. }) => true,
                            _ => false,
                        };
                        self.requests = Ghost(self.requests@.push(ProcessRequest::Observe { identity: *identity, running }));
                        running
                    },
                    None => false,
                };
                proof {
                    assert forall|key: Seq<char>| #[trigger] self.application_processes@.contains_key(key) implies observed_running(
                        self.requests@,
                        self.application_processes@[key].identity,
                    ) by {
                        let i = choose|i: int| 0 <= i < before_requests.len() && #[trigger] before_requests[i] == (
                        ProcessRequest::Observe { identity: self.application_processes@[key].identity->0, running: true });
                        assert(self.requests@[i] == before_requests[i]);
                    }
                    if running {
                        assert(self.requests@[self.requests@.len() - 1] == (ProcessRequest::Observe {
                            identity: process.identity->0,
                            running: true,
                        }));
                    }
                }
                if running {
                    process.ownership = Some(ProcessOwnership::PreExisting);
                    process.status = ProcessStatus::RunningPreExisting;
                    let key = process.application_id.clone();
                    self.application_processes.insert(key, process);
                }
            }
        }
        let count = self.application_processes.len();
        proof {
            if count > 0 {
                let first = self.application_processes.key_order()[0];
                assert(self.application_processes@.contains_key(first));
            }
        }
        if count > 0 && profile.is_some() {
            assert(position_of(old(self).profile_library@, journal_profile_id->0@, 0) is Some);
            let mut session = recovered_session;
            session.state = SessionState::RecoveryAvailable;
            session.summary = None;
            let mut position: usize = 0;
            while position < session.applications.len()
                invariant
                    position <= session.applications@.len(),
                    session.state == SessionState::RecoveryAvailable,
                    session.active_profile_id is Some,
                    session.active_profile_id == journal_profile_id,
                decreases session.applications@.len() - position,
            {
                let application_id = session.applications[position].application_id.clone();
                if self.application_processes.contains(application_id.as_str()) {
                    let mut application = session.applications[position].clone();
                    application.state = SessionApplicationState::RunningPreExisting;
                    session.applications.set(position, application);
                }
                position = position + 1;
            }
            self.session = session;
            self.application_recipes = recovered_recipes;
        } else {
            self.application_processes.clear();
            match self.host.clear_session_journal() {
                Ok(()) => {},
                Err(failure) => return Err(CoreError::Storage { message: failure.message, invalid_data: failure.invalid_data }),
            }
        }
        Ok(())
    }
}


/// Whether every recovered Process was listed in the journal under its
/// application, with the identity the journal recorded.
pub open spec fn recovered_from_journal(
    journal: Seq<ApplicationProcessSnapshot>,
    processes: Map<Seq<char>, ApplicationProcessSnapshot>,
) -> bool {
    forall|key: Seq<char>|
        #[trigger] processes.contains_key(key) ==> processes[key].identity is Some && exists|i: int|
            0 <= i < journal.len() && (#[trigger] journal[i]).application_id@ == key && journal[i].identity
                == processes[key].identity
}

/// Records which launched Processes a helper batch produced, and journals
/// their ownership before the helper continues.
pub struct OwnershipJournal<'a, H> {
    host: &'a mut H,
    session: &'a SessionSnapshot,
    processes: &'a mut KeyedList<ApplicationProcessSnapshot>,
    applications: &'a Vec<(String, bool)>,
    journal_when_idle: bool,
}

/// The texts of a list of keys.
pub open spec fn key_views(keys: Seq<String>) -> Seq<Seq<char>> {
    keys.map_values(|key: String| key@)
}

/// Whether texts are in strictly ascending order.
pub open spec fn texts_ascending(texts: Seq<Seq<char>>) -> bool {
    forall|i: int, j: int| 0 <= i < j < texts.len() ==> crate::profile_library::text_less(#[trigger] texts[i], #[trigger] texts[j])
}

/// Whether keys list every recorded application id once, in ascending order.
pub open spec fn ordered_keys_of(keys: Seq<Seq<char>>, processes: Map<Seq<char>, ApplicationProcessSnapshot>) -> bool {
    &&& texts_ascending(keys)
    &&& forall|key: Seq<char>| #[trigger] processes.contains_key(key) <==> keys.contains(key)
}

/// The recorded application ids in ascending order.
fn ordered_process_keys(processes: &KeyedList<ApplicationProcessSnapshot>) -> (res: Vec<String>)
    ensures
        ordered_keys_of(key_views(res@), processes@),
        res@.len() == processes.key_order().len(),
{
    let count = processes.len();
    let mut sorted: Vec<String> = Vec::new();
    let mut index: usize = 0;
    while index < count
        invariant
            count == processes.key_order().len(),
            index <= count,
            sorted@.len() == index,
            texts_ascending(key_views(sorted@)),
            forall|key: Seq<char>| #[trigger] key_views(sorted@).contains(key) <==> exists|i: int|
                0 <= i < index && processes.key_order()[i] == key,
            forall|i: int, j: int| 0 <= i < j < count ==> #[trigger] processes.key_order()[i] != #[trigger] processes.key_order()[j],
            forall|key: Seq<char>| #[trigger] processes@.contains_key(key) <==> exists|i: int|
                0 <= i < count && processes.key_order()[i] == key,
        decreases count - index,
    {
        let key = processes.key_at(index);
        let ghost views = key_views(sorted@);
        let mut at: usize = 0;
        while at < sorted.len() && !crate::profile_library::text_is_less(key.as_str(), sorted[at].as_str())
            invariant
                at <= sorted@.len(),
                views == key_views(sorted@),
                forall|j: int| 0 <= j < at ==> !crate::profile_library::text_less(key@, #[trigger] views[j]),
            decreases sorted@.len() - at,
        {
            at = at + 1;
        }
        proof {
            assert(!views.contains(key@)) by {
                if views.contains(key@) {
                    let j = choose|j: int| 0 <= j < views.len() && views[j] == key@;
                    assert(exists|i: int| 0 <= i < index && processes.key_order()[i] == key@);
                    let i = choose|i: int| 0 <= i < index && processes.key_order()[i] == key@;
                    assert(processes.key_order()[i] != processes.key_order()[index as int]);
                }
            }
        }
        sorted.insert(at, key.clone());
        proof {
            let next = key_views(sorted@);
            assert(next =~= views.insert(at as int, key@));
            assert forall|i: int, j: int| 0 <= i < j < next.len() implies crate::profile_library::text_less(
                #[trigger] next[i],
                #[trigger] next[j],
            ) by {
                if j < at {
                } else if i < at && j == at {
                    assert(views[i] != key@);
                    crate::profile_library::lemma_text_less_total(views[i], key@);
                } else if i < at && j > at {
                    assert(next[j] == views[j - 1]);
                } else if i == at {
                    assert(next[j] == views[j - 1]);
                    if j - 1 > at {
                        assert(crate::profile_library::text_less(key@, views[at as int]));
                        crate::profile_library::lemma_text_less_transitive(key@, views[at as int], views[j - 1]);
                    }
                } else {
                    assert(next[i] == views[i - 1] && next[j] == views[j - 1]);
                }
            }
            assert forall|probe: Seq<char>| #[trigger] next.contains(probe) <==> exists|i: int|
                0 <= i < index + 1 && processes.key_order()[i] == probe by {
                if next.contains(probe) {
                    let k = choose|k: int| 0 <= k < next.len() && next[k] == probe;
                    if k < at {
                        assert(views[k] == probe);
                        assert(views.contains(probe));
                    } else if k > at {
                        assert(views[k - 1] == probe);
                        assert(views.contains(probe));
                    }
                }
                if exists|i: int| 0 <= i < index + 1 && processes.key_order()[i] == probe {
                    let i = choose|i: int| 0 <= i < index + 1 && processes.key_order()[i] == probe;
                    if i < index {
                        assert(views.contains(probe));
                        let k = choose|k: int| 0 <= k < views.len() && views[k] == probe;
                        if k < at {
                            assert(next[k] == probe);
                        } else {
                            assert(next[k + 1] == probe);
                        }
                    } else {
                        assert(next[at as int] == probe);
                    }
                }
            }
        }
        index = index + 1;
    }
    sorted
}

/// Whether a list holds every recorded Process once, by ascending application id.
pub open spec fn listed_in_order(list: Seq<ApplicationProcessSnapshot>, processes: Map<Seq<char>, ApplicationProcessSnapshot>) -> bool {
    exists|keys: Seq<Seq<char>>|
        #[trigger] ordered_keys_of(keys, processes) && keys.len() == list.len() && forall|i: int|
            0 <= i < list.len() ==> #[trigger] list[i] == processes[keys[i]]
}

/// The recorded Processes with an identity, in the order their keys were
/// first recorded.
pub open spec fn identified_in_order(
    order: Seq<Seq<char>>,
    processes: Map<Seq<char>, ApplicationProcessSnapshot>,
) -> Seq<ApplicationProcessSnapshot>
    decreases order.len(),
{
    if order.len() == 0 {
        Seq::empty()
    } else {
        let earlier = identified_in_order(order.drop_last(), processes);
        if processes[order.last()].identity is Some {
            earlier.push(processes[order.last()])
        } else {
            earlier
        }
    }
}

/// The recorded Processes that have an identity, for the journal, by
/// ascending application id.
fn journaled_processes(processes: &KeyedList<ApplicationProcessSnapshot>) -> (res: Vec<ApplicationProcessSnapshot>)
    ensures
        exists|keys: Seq<Seq<char>>|
            #[trigger] ordered_keys_of(keys, processes@) && res@ == identified_in_order(keys, processes@),
{
    let keys = ordered_process_keys(processes);
    let ghost order = key_views(keys@);
    let mut listed: Vec<ApplicationProcessSnapshot> = Vec::new();
    let mut index: usize = 0;
    while index < keys.len()
        invariant
            index <= keys@.len(),
            order == key_views(keys@),
            ordered_keys_of(order, processes@),
            listed@ == identified_in_order(order.subrange(0, index as int), processes@),
        decreases keys@.len() - index,
    {
        proof {
            let next = order.subrange(0, index + 1);
            assert(next.drop_last() =~= order.subrange(0, index as int));
            assert(next.last() == order[index as int]);
            assert(order.contains(order[index as int]));
        }
        match processes.get(keys[index].as_str()) {
            Some(process) => {
                if process.identity.is_some() {
                    listed.push(process.clone());
                }
            },
            None => {},
        }
        index = index + 1;
    }
    assert(order.subrange(0, keys@.len() as int) =~= order);
    listed
}

/// The record of a Process whose ownership a helper offered: owned by the
/// Session and still starting when its launch named it unambiguously,
/// otherwise found running.
pub open spec fn acknowledged_process(application_id: String, unambiguous: bool, identity: ProcessIdentity) -> ApplicationProcessSnapshot {
    ApplicationProcessSnapshot {
        application_id: application_id,
        status: if unambiguous {
            ProcessStatus::Starting
        } else {
            ProcessStatus::RunningPreExisting
        },
        ownership: Some(
            if unambiguous {
                ProcessOwnership::SessionOwned
            } else {
                ProcessOwnership::PreExisting
            },
        ),
        identity: Some(identity),
        output: None,
    }
}

impl<'a, H> OwnershipJournal<'a, H> {
    /// The launched applications of the batch, by operation index, with
    /// whether each launch names its Process unambiguously.
    pub closed spec fn launches(&self) -> Seq<(String, bool)> {
        self.applications@
    }

    /// The recorded Processes, by application id.
    pub closed spec fn recorded(&self) -> Map<Seq<char>, ApplicationProcessSnapshot> {
        self.processes@
    }

    /// Whether an acknowledgement is recorded without writing the journal:
    /// while the Session is Idle and the batch asked for no journal then.
    pub closed spec fn skips_journal(&self) -> bool {
        self.session.state == SessionState::Idle && !self.journal_when_idle
    }
}

impl<'a, H: CoreHost> LaunchAcknowledgement for OwnershipJournal<'a, H> {
    fn acknowledge(&mut self, operation_index: usize, identity: &ProcessIdentity) -> (res: Result<(), PrivilegeBrokerError>)
        ensures
            operation_index >= old(self).launches().len() ==> res is Err,
            res is Err ==> final(self).recorded() == old(self).recorded(),
            res is Ok ==> operation_index < old(self).launches().len() && final(self).recorded() == old(self).recorded().insert(
                old(self).launches()[operation_index as int].0@,
                acknowledged_process(
                    old(self).launches()[operation_index as int].0,
                    old(self).launches()[operation_index as int].1,
                    *identity,
                ),
            ),
            operation_index < old(self).launches().len() && old(self).skips_journal() ==> res is Ok,
    {
        if operation_index >= self.applications.len() {
            return Err(PrivilegeBrokerError::new("helper acknowledged an unknown elevated launch"));
        }
        let (application_id, unambiguous) = &self.applications[operation_index];
        let ownership = if *unambiguous {
            ProcessOwnership::SessionOwned
        } else {
            ProcessOwnership::PreExisting
        };
        let previous = self.processes.remove(application_id.as_str());
        self.processes.insert(
            application_id.clone(),
            ApplicationProcessSnapshot {
                application_id: application_id.clone(),
                status: if *unambiguous {
                    ProcessStatus::Starting
                } else {
                    ProcessStatus::RunningPreExisting
                },
                ownership: Some(ownership),
                identity: Some(identity.clone()),
                output: None,
            },
        );
        if self.session.state == SessionState::Idle && !self.journal_when_idle {
            return Ok(());
        }
        let listed = journaled_processes(self.processes);
        match self.host.persist_session_journal(self.session, &listed) {
            Ok(()) => Ok(()),
            Err(failure) => {
                let _ = self.processes.remove(application_id.as_str());
                match previous {
                    Some(previous) => self.processes.insert(application_id.clone(), previous),
                    None => {},
                }
                assert(self.processes@ =~= old(self).processes@);
                let mut message = crate::text::chars_of("elevated Process ownership could not be journaled: ");
                let mut detail = crate::text::chars_of(failure.message.as_str());
                message.append(&mut detail);
                Err(PrivilegeBrokerError { message: string_from_chars(&message) })
            },
        }
    }
}

/// The privileged launch of a direct-executable recipe, with canonical paths.
fn elevated_launch_operation<H: CoreHost>(recipe: &LaunchRecipe, host: &mut H) -> (res: Result<ElevatedOperation, CoreError>)
    ensures
        recipe.source is Steam ==> res is Err && (res->Err_0 matches CoreError::InvalidLaunchRecipe(message)
            && message@ == "Steam launches cannot request elevation"@),
        res is Err ==> res->Err_0 is InvalidLaunchRecipe,
        res is Ok ==> recipe.source is DirectExecutable && (res->Ok_0 matches ElevatedOperation::Launch {
            arguments,
            working_directory,
            monitored_process,
            monitored_executable_path,
            console_visibility,
            startup_timeout_seconds,
            ..
        } && arguments@ == recipe.arguments@ && (working_directory is Some <==> recipe.working_directory is Some)
            && monitored_process == recipe.monitored_process && monitored_executable_path
            == recipe.monitored_executable_path && console_visibility == recipe.console_visibility
            && startup_timeout_seconds == recipe.startup_timeout_seconds),
{
    let executable_path = match &recipe.source {
        LaunchSource::DirectExecutable { executable_path } => executable_path,
        LaunchSource::Steam { .. } => {
            return Err(CoreError::InvalidLaunchRecipe(String::from_str("Steam launches cannot request elevation")));
        },
    };
    let canonical = match host.canonical_path(executable_path.as_str()) {
        Some(canonical) => canonical,
        None => {
            let mut message = crate::text::chars_of("helper target is not canonical: ");
            let mut detail = crate::text::chars_of(executable_path.as_str());
            message.append(&mut detail);
            return Err(CoreError::InvalidLaunchRecipe(string_from_chars(&message)));
        },
    };
    let working_directory = match &recipe.working_directory {
        Some(directory) => match host.canonical_path(directory.as_str()) {
            Some(canonical) => Some(canonical),
            None => {
                return Err(
                    CoreError::InvalidLaunchRecipe(
                        String::from_str("elevated working directory is not accessible"),
                    ),
                );
            },
        },
        None => None,
    };
    Ok(
        ElevatedOperation::Launch {
            executable_path: canonical,
            arguments: crate::model::clone_strings(&recipe.arguments),
            working_directory,
            monitored_process: clone_optional_string(&recipe.monitored_process),
            monitored_executable_path: clone_optional_string(&recipe.monitored_executable_path),
            console_visibility: recipe.console_visibility,
            startup_timeout_seconds: recipe.startup_timeout_seconds,
        },
    )
}

/// The Session application state that follows a Process status.
pub open spec fn application_state_of(status: ProcessStatus) -> SessionApplicationState {
    match status {
        ProcessStatus::Starting => SessionApplicationState::Starting,
        ProcessStatus::Running => SessionApplicationState::Running,
        ProcessStatus::RunningPreExisting => SessionApplicationState::RunningPreExisting,
        ProcessStatus::NotResponding => SessionApplicationState::Running,
        ProcessStatus::Stopping => SessionApplicationState::Stopping,
        ProcessStatus::Stopped => SessionApplicationState::Stopped,
        ProcessStatus::Failed => SessionApplicationState::Failed,
    }
}

/// A Session application after its recorded Process is read: the state its
/// Process shows, unless it has none recorded or is still pending without an
/// identified Process.
pub open spec fn synced_application(
    application: SessionApplicationSnapshot,
    processes: Map<Seq<char>, ApplicationProcessSnapshot>,
) -> SessionApplicationSnapshot {
    let key = application.application_id@;
    if processes.contains_key(key) && !(application.state == SessionApplicationState::Pending
        && processes[key].identity is None) {
        SessionApplicationSnapshot { state: application_state_of(processes[key].status), ..application }
    } else {
        application
    }
}

/// Whether position `index` holds the first Primary Sim of the Session.
pub open spec fn first_primary(applications: Seq<SessionApplicationSnapshot>, index: int) -> bool {
    &&& 0 <= index < applications.len()
    &&& applications[index].role == SessionApplicationRole::PrimarySim
    &&& forall|earlier: int| 0 <= earlier < index ==> (#[trigger] applications[earlier]).role != SessionApplicationRole::PrimarySim
}

/// Whether the Session's Primary Sim has stopped or failed.
pub open spec fn primary_has_exited(applications: Seq<SessionApplicationSnapshot>) -> bool {
    exists|index: int|
        #[trigger] first_primary(applications, index) && (applications[index].state == SessionApplicationState::Stopped
            || applications[index].state == SessionApplicationState::Failed)
}

fn state_of_status(status: ProcessStatus) -> (res: SessionApplicationState)
    ensures
        res == application_state_of(status),
{
    match status {
        ProcessStatus::Starting => SessionApplicationState::Starting,
        ProcessStatus::Running => SessionApplicationState::Running,
        ProcessStatus::RunningPreExisting => SessionApplicationState::RunningPreExisting,
        ProcessStatus::NotResponding => SessionApplicationState::Running,
        ProcessStatus::Stopping => SessionApplicationState::Stopping,
        ProcessStatus::Stopped => SessionApplicationState::Stopped,
        ProcessStatus::Failed => SessionApplicationState::Failed,
    }
}

fn transition_error(current: SessionState, command: &str) -> (res: CoreError)
    ensures
        is_transition_error(res, current, command@),
{
    CoreError::InvalidSessionTransition { current, command: command.to_string() }
}

impl<R: ProcessRuntime, B: PrivilegeBroker, H: CoreHost> FormationLapCore<R, B, H> {
    /// The authoritative snapshot: profiles, the selected profile, settings,
    /// update state, Processes, a pending confirmation and the Session.
    /// The process confirmation the window is asked for, if one is pending.
    pub closed spec fn pending_confirmation(&self) -> Option<ProcessConfirmationSnapshot> {
        match self.pending_process_confirmation {
            Some(pending) => Some(pending.snapshot),
            None => None,
        }
    }

    /// What the update area shows.
    /// Whether an update check is pending.
    pub closed spec fn update_check_pending(&self) -> bool {
        self.update_advisor@.pending_request_id is Some
    }

    pub closed spec fn updates_view(&self) -> crate::model::UpdateSnapshotView {
        crate::model::UpdateSnapshotView {
            last_automatic_check_unix_seconds: self.settings_store@.last_automatic_update_check_unix_seconds,
            result_deferred: self.update_advisor@.deferred_result is Some,
            ..self.update_advisor@.visible
        }
    }

    /// Whether a snapshot shows this core: one summary per profile in library
    /// order, the selected profile, the settings, the update area, the
    /// recorded Processes, the pending confirmation and the Session.
    pub open spec fn shows(&self, snapshot: AppSnapshot) -> bool {
        &&& snapshot.session@ == self.session_view()
        &&& snapshot.settings == self.settings_view().desktop
        &&& snapshot.updates@ == self.updates_view()
        &&& summaries_of(snapshot.profiles@, self.profiles_view())
        &&& match selected_profile_view(self.profiles_view(), self.settings_view().selected_profile_id) {
            Some(profile) => snapshot.selected_profile is Some && snapshot.selected_profile->0@ == profile,
            None => snapshot.selected_profile is None,
        }
        &&& listed_in_order(snapshot.application_processes@, self.process_map())
        &&& snapshot.pending_process_confirmation == self.pending_confirmation()
    }

    pub fn snapshot(&self) -> (res: AppSnapshot)
        ensures
            self.shows(res),
            res.session@ == self.session_view(),
            res.settings == self.settings_view().desktop,
            res.profiles@.len() == self.profiles_view().len(),
    {
        let mut snapshot = AppSnapshot::foundation();
        snapshot.profiles = self.profile_library.summaries();
        snapshot.selected_profile = match self.settings_store.selected_profile_id() {
            Some(profile_id) => match self.profile_library.profile(profile_id.as_str()) {
                Some(profile) => Some(profile),
                None => self.profile_library.selected_profile(),
            },
            None => self.profile_library.selected_profile(),
        };
        snapshot.settings = self.settings_store.desktop();
        snapshot.updates = self.update_advisor.snapshot(self.settings_store.last_automatic_update_check_unix_seconds());
        let keys = ordered_process_keys(&self.application_processes);
        let mut processes: Vec<ApplicationProcessSnapshot> = Vec::new();
        let mut index: usize = 0;
        while index < keys.len()
            invariant
                index <= keys@.len(),
                processes@.len() == index,
                ordered_keys_of(key_views(keys@), self.application_processes@),
                forall|i: int| 0 <= i < index ==> #[trigger] processes@[i] == self.application_processes@[key_views(keys@)[i]],
            decreases keys@.len() - index,
        {
            proof {
                assert(key_views(keys@).contains(key_views(keys@)[index as int]));
            }
            match self.application_processes.get(keys[index].as_str()) {
                Some(process) => processes.push(process.clone()),
                None => {},
            }
            index = index + 1;
        }
        assert(listed_in_order(processes@, self.application_processes@));
        snapshot.application_processes = processes;
        snapshot.pending_process_confirmation = match &self.pending_process_confirmation {
            Some(pending) => Some(pending.snapshot.clone()),
            None => None,
        };
        snapshot.session = self.session.clone();
        snapshot
    }

    fn ensure_active_profile_is_editable(&self, profile_id: &str) -> (res: Result<(), CoreError>)
        ensures
            res is Err <==> (self.session@.state != SessionState::Idle && self.session@.active_profile_id is Some
                && self.session@.active_profile_id->0@ == profile_id@),
            res is Err ==> is_transition_error(res->Err_0, self.session@.state, "Edit Active Profile"@),
    {
        if self.session.state != SessionState::Idle {
            match &self.session.active_profile_id {
                Some(active) => {
                    if same_text(active.as_str(), profile_id) {
                        return Err(transition_error(self.session.state, "Edit Active Profile"));
                    }
                },
                None => {},
            }
        }
        Ok(())
    }

    fn ensure_manual_lifecycle_is_available(&self, command: &str) -> (res: Result<(), CoreError>)
        ensures
            res is Err <==> !(self.session@.state == SessionState::Idle || self.session@.state == SessionState::Active),
            res is Err ==> is_transition_error(res->Err_0, self.session@.state, command@),
    {
        if !(self.session.state == SessionState::Idle || self.session.state == SessionState::Active) {
            return Err(transition_error(self.session.state, command));
        }
        Ok(())
    }

    fn ensure_force_stop_is_available(&self) -> (res: Result<(), CoreError>)
        ensures
            res is Err ==> is_transition_error(res->Err_0, self.session@.state, "Force Stop Application"@),
            res is Err <==> !(self.session@.state == SessionState::Idle || self.session@.state == SessionState::Active
                || self.session@.state == SessionState::Closing),
    {
        if !(self.session.state == SessionState::Idle || self.session.state == SessionState::Active || self.session.state
            == SessionState::Closing) {
            return Err(transition_error(self.session.state, "Force Stop Application"));
        }
        Ok(())
    }

    fn record_session_event(&mut self, application_id: &str, kind: SessionEventKind)
        ensures
            final(self).requests@ == old(self).requests@,
            (exists|i: int| 0 <= i < old(self).session_events@.len() && (#[trigger] old(self).session_events@[i]).application_id@
                == application_id@ && old(self).session_events@[i].kind == kind) ==> final(self).session_events@
                == old(self).session_events@,
            !(exists|j: int| 0 <= j < old(self).session@.applications.len() && (#[trigger] old(self).session@.applications[j]).application_id@
                == application_id@) ==> final(self).session_events@ == old(self).session_events@,
            !(exists|i: int| 0 <= i < old(self).session_events@.len() && (#[trigger] old(self).session_events@[i]).application_id@
                == application_id@ && old(self).session_events@[i].kind == kind) && (exists|j: int|
                0 <= j < old(self).session@.applications.len() && (#[trigger] old(self).session@.applications[j]).application_id@
                    == application_id@) ==> exists|j: int|
                first_listed(old(self).session@.applications, application_id@, j) && final(self).session_events@
                    == old(self).session_events@.push(
                    SessionEvent {
                        application_id: final(self).session_events@.last().application_id,
                        name: old(self).session@.applications[j].name,
                        kind: kind,
                    },
                ) && final(self).session_events@.last().application_id@ == application_id@,
            final(self).pending_process_confirmation == old(self).pending_process_confirmation,
            final(self).session@ == old(self).session@,
            final(self).application_processes@ == old(self).application_processes@,
            final(self).profile_library@ == old(self).profile_library@,
            final(self).formation_lap_installing == old(self).formation_lap_installing,
            final(self).update_advisor@ == old(self).update_advisor@,
            final(self).settings_store@ == old(self).settings_store@,
    {
        let mut index: usize = 0;
        while index < self.session_events.len()
            invariant
                index <= self.session_events@.len(),
                forall|i: int| 0 <= i < index ==> !((#[trigger] self.session_events@[i]).application_id@ == application_id@
                    && self.session_events@[i].kind == kind),
            decreases self.session_events@.len() - index,
        {
            let event = &self.session_events[index];
            if same_text(event.application_id.as_str(), application_id) && event.kind == kind {
                return;
            }
            index = index + 1;
        }
        let mut name: Option<String> = None;
        let ghost mut at: int = 0;
        let mut position: usize = 0;
        while position < self.session.applications.len() && name.is_none()
            invariant
                position <= self.session.applications@.len(),
                name is None ==> forall|j: int| 0 <= j < position ==> (#[trigger] self.session.applications@[j]).application_id@
                    != application_id@,
                name matches Some(found) ==> 0 <= at < self.session.applications@.len() && first_listed(
                    self.session.applications@,
                    application_id@,
                    at,
                ) && found == self.session.applications@[at].name,
            decreases self.session.applications@.len() - position,
        {
            let application = &self.session.applications[position];
            if same_text(application.application_id.as_str(), application_id) {
                name = Some(application.name.clone());
                proof {
                    at = position as int;
                }
            }
            position = position + 1;
        }
        match name {
            Some(name) => {
                self.session_events.push(SessionEvent { application_id: application_id.to_string(), name, kind });
            },
            None => {},
        }
    }

    fn finish_session(&mut self)
        ensures
            final(self).requests@ == old(self).requests@,
            final(self).session@.state == SessionState::Idle,
            final(self).session@.active_profile_id is None,
            final(self).session@.applications == old(self).session@.applications,
            final(self).application_processes@ == old(self).application_processes@,
            final(self).profile_library@ == old(self).profile_library@,
            final(self).formation_lap_installing == old(self).formation_lap_installing,
            final(self).update_advisor@ == old(self).update_advisor@,
            final(self).settings_store@ == old(self).settings_store@,
    {
        let summary = match &self.session.active_profile_id {
            Some(profile_id) => if self.session_events.len() > 0 {
                Some(SessionSummary { profile_id: profile_id.clone(), events: crate::model::clone_events(&self.session_events) })
            } else {
                None
            },
            None => None,
        };
        self.session.summary = summary;
        self.session.state = SessionState::Idle;
        self.session.active_profile_id = None;
        self.prepared_elevated_launches.clear();
    }

    fn sync_session_application_states(&mut self)
        ensures
            final(self).requests@ == old(self).requests@,
            final(self).session@.state == old(self).session@.state,
            final(self).session@.active_profile_id == old(self).session@.active_profile_id,
            final(self).session@.applications.len() == old(self).session@.applications.len(),
            final(self).session@.summary == old(self).session@.summary,
            forall|i: int| 0 <= i < old(self).session@.applications.len() ==> #[trigger] final(self).session@.applications[i]
                == synced_application(old(self).session@.applications[i], old(self).application_processes@),
            final(self).application_processes@ == old(self).application_processes@,
            final(self).profile_library@ == old(self).profile_library@,
            final(self).formation_lap_installing == old(self).formation_lap_installing,
            final(self).update_advisor@ == old(self).update_advisor@,
            final(self).settings_store@ == old(self).settings_store@,
    {
        let mut position: usize = 0;
        while position < self.session.applications.len()
            invariant
                self.requests@ == old(self).requests@,
                position <= self.session.applications@.len(),
                self.session@.summary == old(self).session@.summary,
                forall|i: int| 0 <= i < position ==> #[trigger] self.session@.applications[i] == synced_application(
                    old(self).session@.applications[i],
                    old(self).application_processes@,
                ),
                forall|i: int| position <= i < self.session@.applications.len() ==> #[trigger] self.session@.applications[i]
                    == old(self).session@.applications[i],
                self.session@.state == old(self).session@.state,
                self.session@.active_profile_id == old(self).session@.active_profile_id,
                self.session@.applications.len() == old(self).session@.applications.len(),
                self.application_processes@ == old(self).application_processes@,
                self.profile_library@ == old(self).profile_library@,
                self.formation_lap_installing == old(self).formation_lap_installing,
                self.update_advisor@ == old(self).update_advisor@,
                self.settings_store@ == old(self).settings_store@,
            decreases self.session.applications@.len() - position,
        {
            let application_id = self.session.applications[position].application_id.clone();
            let next = match self.application_processes.get(application_id.as_str()) {
                Some(process) => {
                    if self.session.applications[position].state == SessionApplicationState::Pending && process.identity.is_none() {
                        None
                    } else {
                        Some(state_of_status(process.status))
                    }
                },
                None => None,
            };
            match next {
                Some(state) => {
                    let mut application = self.session.applications[position].clone();
                    application.state = state;
                    self.session.applications.set(position, application);
                },
                None => {},
            }
            position = position + 1;
        }
    }

    fn set_process(&mut self, application_id: &str, status: ProcessStatus, ownership: Option<ProcessOwnership>, identity: Option<ProcessIdentity>)
        ensures
            final(self).requests@ == old(self).requests@,
            final(self).pending_process_confirmation == old(self).pending_process_confirmation,
            final(self).session@ == old(self).session@,
            final(self).application_processes@.contains_key(application_id@),
            final(self).application_processes@[application_id@].status == status,
            final(self).application_processes@[application_id@].ownership == ownership,
            final(self).application_processes@[application_id@].identity == identity,
            forall|key: Seq<char>| key != application_id@ ==> (#[trigger] final(self).application_processes@.contains_key(key)
                == old(self).application_processes@.contains_key(key) && (old(self).application_processes@.contains_key(key)
                ==> final(self).application_processes@[key] == old(self).application_processes@[key])),
            final(self).profile_library@ == old(self).profile_library@,
            final(self).formation_lap_installing == old(self).formation_lap_installing,
            final(self).update_advisor@ == old(self).update_advisor@,
            final(self).settings_store@ == old(self).settings_store@,
    {
        let output = match self.application_processes.get(application_id) {
            Some(process) => match &process.output {
                Some(output) => Some(output.clone()),
                None => None,
            },
            None => None,
        };
        self.application_processes.insert(
            application_id.to_string(),
            ApplicationProcessSnapshot { application_id: application_id.to_string(), status, ownership, identity, output },
        );
    }

    fn mark_stopped(&mut self, application_id: &str)
        ensures
            final(self).requests@ == old(self).requests@,
            final(self).pending_process_confirmation == old(self).pending_process_confirmation,
            final(self).session@ == old(self).session@,
            final(self).application_processes@.contains_key(application_id@),
            final(self).application_processes@[application_id@].status == ProcessStatus::Stopped,
            final(self).application_processes@[application_id@].ownership is None,
            final(self).application_processes@[application_id@].identity is None,
            forall|key: Seq<char>| key != application_id@ ==> (#[trigger] final(self).application_processes@.contains_key(key)
                == old(self).application_processes@.contains_key(key) && (old(self).application_processes@.contains_key(key)
                ==> final(self).application_processes@[key] == old(self).application_processes@[key])),
            final(self).profile_library@ == old(self).profile_library@,
            final(self).formation_lap_installing == old(self).formation_lap_installing,
            final(self).update_advisor@ == old(self).update_advisor@,
            final(self).settings_store@ == old(self).settings_store@,
    {
        self.set_process(application_id, ProcessStatus::Stopped, None, None);
        let _ = self.failed_responsiveness_checks.remove(application_id);
    }

    fn mark_stopping(&mut self, application_id: &str)
        ensures
            final(self).requests@ == old(self).requests@,
            forall|key: Seq<char>| #[trigger] final(self).application_processes@.contains_key(key)
                == old(self).application_processes@.contains_key(key),
            forall|key: Seq<char>| key != application_id@ ==> (#[trigger] final(self).application_processes@.contains_key(key)
                == old(self).application_processes@.contains_key(key) && (old(self).application_processes@.contains_key(key)
                ==> final(self).application_processes@[key] == old(self).application_processes@[key])),
            old(self).application_processes@.contains_key(application_id@) ==> final(self).application_processes@[application_id@].ownership
                == old(self).application_processes@[application_id@].ownership && final(self).application_processes@[application_id@].identity
                == old(self).application_processes@[application_id@].identity,
            old(self).application_processes@.contains_key(application_id@) ==> final(self).application_processes@[application_id@].status
                == ProcessStatus::Stopping,
            final(self).pending_process_confirmation == old(self).pending_process_confirmation,
            final(self).session@ == old(self).session@,
            final(self).profile_library@ == old(self).profile_library@,
            final(self).formation_lap_installing == old(self).formation_lap_installing,
            final(self).update_advisor@ == old(self).update_advisor@,
            final(self).settings_store@ == old(self).settings_store@,
    {
        let current = match self.application_processes.get(application_id) {
            Some(process) => Some((process.ownership, match &process.identity {
                Some(identity) => Some(identity.clone()),
                None => None,
            })),
            None => None,
        };
        match current {
            Some((ownership, identity)) => self.set_process(application_id, ProcessStatus::Stopping, ownership, identity),
            None => {},
        }
    }

    fn request_process_confirmation(
        &mut self,
        application_id: String,
        action: ProcessConfirmationAction,
        identity: ProcessIdentity,
        restart_recipe: Option<LaunchRecipe>,
    )
        ensures
            final(self).requests@ == old(self).requests@,
            final(self).session@ == old(self).session@,
            final(self).application_processes@ == old(self).application_processes@,
            final(self).profile_library@ == old(self).profile_library@,
            final(self).formation_lap_installing == old(self).formation_lap_installing,
            final(self).update_advisor@ == old(self).update_advisor@,
            final(self).settings_store@ == old(self).settings_store@,
            final(self).pending_process_confirmation is Some,
    {
        self.pending_process_confirmation = Some(
            PendingProcessConfirmation {
                snapshot: ProcessConfirmationSnapshot { token: new_uuid(), application_id, action, identity },
                restart_recipe,
            },
        );
    }

    /// Asks a Process to close, directly or through the elevated helper, and
    /// records the request; whether the request was made and whether the Process exited.
    fn request_graceful_stop(&mut self, identity: &ProcessIdentity, strategy: &ShutdownStrategy, elevated: bool) -> (res: Result<(GracefulStopResult, bool), CoreError>)
        ensures
            final(self).session@ == old(self).session@,
            final(self).application_processes@ == old(self).application_processes@,
            final(self).profile_library@ == old(self).profile_library@,
            final(self).formation_lap_installing == old(self).formation_lap_installing,
            final(self).update_advisor@ == old(self).update_advisor@,
            final(self).settings_store@ == old(self).settings_store@,
            final(self).pending_process_confirmation == old(self).pending_process_confirmation,
            final(self).requests@ == old(self).requests@.push(ProcessRequest::GracefulStop {
                identity: *identity,
                exited: res matches Ok((requested, exited)) && requested == GracefulStopResult::Requested && exited,
            }),
            res is Err && !elevated ==> res->Err_0 is ProcessRuntime,
            res is Err && elevated ==> res->Err_0 is PrivilegeBroker,
            res is Ok && !elevated && res->Ok_0.0 != GracefulStopResult::Requested ==> !res->Ok_0.1,
    {
        let res = self.graceful_stop_call(identity, strategy, elevated);
        self.requests = Ghost(self.requests@.push(ProcessRequest::GracefulStop {
            identity: *identity,
            exited: res matches Ok((requested, exited)) && requested == GracefulStopResult::Requested && exited,
        }));
        res
    }

    fn graceful_stop_call(&mut self, identity: &ProcessIdentity, strategy: &ShutdownStrategy, elevated: bool) -> (res: Result<(GracefulStopResult, bool), CoreError>)
        ensures
            final(self).requests@ == old(self).requests@,
            final(self).session@ == old(self).session@,
            final(self).application_processes@ == old(self).application_processes@,
            final(self).profile_library@ == old(self).profile_library@,
            final(self).formation_lap_installing == old(self).formation_lap_installing,
            final(self).update_advisor@ == old(self).update_advisor@,
            final(self).settings_store@ == old(self).settings_store@,
            final(self).pending_process_confirmation == old(self).pending_process_confirmation,
            res is Err && !elevated ==> res->Err_0 is ProcessRuntime,
            res is Err && elevated ==> res->Err_0 is PrivilegeBroker,
            res is Ok && !elevated && res->Ok_0.0 != GracefulStopResult::Requested ==> !res->Ok_0.1,
    {
        if !elevated {
            let requested = match self.process_runtime.request_graceful_stop(identity, strategy) {
                Ok(requested) => requested,
                Err(error) => return Err(CoreError::ProcessRuntime(error)),
            };
            let exited = if requested == GracefulStopResult::Requested {
                match self.process_runtime.wait_for_exit(identity, GRACEFUL_STOP_WAIT_MILLISECONDS) {
                    Ok(exited) => exited,
                    Err(error) => return Err(CoreError::ProcessRuntime(error)),
                }
            } else {
                false
            };
            return Ok((requested, exited));
        }
        let mut operations: Vec<ElevatedOperation> = Vec::new();
        operations.push(ElevatedOperation::GracefulStop { process_identity: identity.clone(), strategy: strategy.clone() });
        let response = match self.privilege_broker.execute(operations.as_slice()) {
            Ok(response) => response,
            Err(error) => return Err(CoreError::PrivilegeBroker(error)),
        };
        let mut results = response.results;
        if results.len() == 0 {
            return Err(CoreError::PrivilegeBroker(PrivilegeBrokerError::new("elevated close returned an unexpected result")));
        }
        match results.remove(0) {
            ElevatedOperationResult::GracefulStopRequested { requested, exited } => Ok((
                if requested {
                    GracefulStopResult::Requested
                } else {
                    GracefulStopResult::Unavailable
                },
                exited,
            )),
            ElevatedOperationResult::Failed { message } => Err(CoreError::PrivilegeBroker(PrivilegeBrokerError { message })),
            _ => Err(CoreError::PrivilegeBroker(PrivilegeBrokerError::new("elevated close returned an unexpected result"))),
        }
    }

    fn force_stop_process(&mut self, identity: &ProcessIdentity, elevated: bool) -> (res: Result<(), CoreError>)
        ensures
            final(self).requests@ == old(self).requests@.push(ProcessRequest::ForceStop { identity: *identity }),
            final(self).session@ == old(self).session@,
            final(self).application_processes@ == old(self).application_processes@,
            final(self).profile_library@ == old(self).profile_library@,
            final(self).formation_lap_installing == old(self).formation_lap_installing,
            final(self).update_advisor@ == old(self).update_advisor@,
            final(self).settings_store@ == old(self).settings_store@,
            final(self).pending_process_confirmation == old(self).pending_process_confirmation,
            res is Err && !elevated ==> res->Err_0 is ProcessRuntime,
            res is Err && elevated ==> res->Err_0 is PrivilegeBroker,
    {
        self.requests = Ghost(self.requests@.push(ProcessRequest::ForceStop { identity: *identity }));
        if !elevated {
            return match self.process_runtime.force_stop(identity) {
                Ok(()) => Ok(()),
                Err(error) => Err(CoreError::ProcessRuntime(error)),
            };
        }
        let mut operations: Vec<ElevatedOperation> = Vec::new();
        operations.push(ElevatedOperation::ForceTerminate { process_identity: identity.clone() });
        let response = match self.privilege_broker.execute(operations.as_slice()) {
            Ok(response) => response,
            Err(error) => return Err(CoreError::PrivilegeBroker(error)),
        };
        let mut results = response.results;
        if results.len() == 0 {
            return Err(CoreError::PrivilegeBroker(PrivilegeBrokerError::new("elevated termination returned an unexpected result")));
        }
        match results.remove(0) {
            ElevatedOperationResult::ForceTerminated => Ok(()),
            ElevatedOperationResult::Failed { message } => Err(CoreError::PrivilegeBroker(PrivilegeBrokerError { message })),
            _ => Err(CoreError::PrivilegeBroker(PrivilegeBrokerError::new("elevated termination returned an unexpected result"))),
        }
    }

    fn recipe_of(&self, application_id: &str) -> (res: Option<LaunchRecipe>)
        ensures
            self.application_recipes@.contains_key(application_id@) ==> res is Some && res->0@
                == self.application_recipes@[application_id@]@,
            !self.application_recipes@.contains_key(application_id@) ==> res is None,
    {
        match self.application_recipes.get(application_id) {
            Some(recipe) => Some(recipe.clone()),
            None => None,
        }
    }

    fn is_elevated(&self, application_id: &str) -> (res: bool)
        ensures
            res == (self.application_recipes@.contains_key(application_id@)
                && self.application_recipes@[application_id@].elevated),
    {
        match self.application_recipes.get(application_id) {
            Some(recipe) => recipe.elevated,
            None => false,
        }
    }
}


impl<R: ProcessRuntime, B: PrivilegeBroker, H: CoreHost> FormationLapCore<R, B, H> {
    /// The requests made so far to start, adopt or stop Processes, oldest first.
    pub closed spec fn requests(&self) -> Seq<ProcessRequest> {
        self.requests@
    }

    /// The Session applications as they stood when a startup was last cancelled.
    pub closed spec fn startup_cancelled_with(&self) -> Seq<SessionApplicationSnapshot> {
        self.startup_cancelled_with@
    }

    /// The profiles, settings, update state and installation lease are the same.
    pub closed spec fn same_records(&self, other: &Self) -> bool {
        &&& self.profile_library@ == other.profile_library@
        &&& self.settings_store@ == other.settings_store@
        &&& self.update_advisor@ == other.update_advisor@
        &&& self.formation_lap_installing == other.formation_lap_installing
    }

    /// Starts an application, or adopts it when a matching Process already runs.
    fn launch_or_adopt(&mut self, application_id: &str, launch_recipe: LaunchRecipe) -> (res: Result<ProcessOwnership, CoreError>)
        ensures
            final(self).session@ == old(self).session@,
            final(self).same_records(old(self)),
            final(self).pending_process_confirmation == old(self).pending_process_confirmation,
            res is Ok ==> final(self).application_processes@.contains_key(application_id@)
                && final(self).application_processes@[application_id@].ownership == Some(res->Ok_0)
                && final(self).application_processes@[application_id@].identity is Some,
            res is Ok ==> final(self).application_processes@[application_id@].status == (if res->Ok_0
                == ProcessOwnership::SessionOwned {
                ProcessStatus::Starting
            } else {
                ProcessStatus::RunningPreExisting
            }) && final(self).application_recipes@.contains_key(application_id@) && final(self).application_recipes@[application_id@]@
                == launch_recipe@,
            res is Ok && !launch_recipe.elevated ==> forall|key: Seq<char>| key != application_id@ ==> (
                #[trigger] final(self).application_processes@.contains_key(key) == old(self).application_processes@.contains_key(key)
                    && (old(self).application_processes@.contains_key(key) ==> final(self).application_processes@[key]
                    == old(self).application_processes@[key])),
            !launch_recipe.elevated && res == Ok::<ProcessOwnership, CoreError>(ProcessOwnership::SessionOwned)
                ==> identity_is_unambiguous(launch_recipe),
            !launch_recipe.elevated && res is Err ==> res->Err_0 is ProcessRuntime && final(self).application_processes@
                == old(self).application_processes@,
            !launch_recipe.elevated && res is Ok ==> (final(self).requests@ == old(self).requests@.push(ProcessRequest::Match {
                recipe: launch_recipe,
                first: final(self).application_processes@[application_id@].identity,
            }) && res->Ok_0 == ProcessOwnership::PreExisting) || (final(self).requests@ == old(self).requests@.push(
                ProcessRequest::Match { recipe: launch_recipe, first: None },
            ).push(ProcessRequest::Launch {
                recipe: launch_recipe,
                identity: final(self).application_processes@[application_id@].identity,
            }) && (res->Ok_0 == ProcessOwnership::SessionOwned <==> identity_is_unambiguous(launch_recipe))),
            old(self).requests@.is_prefix_of(final(self).requests@),
            only_starts(final(self).requests@, old(self).requests@.len() as int),
            !launch_recipe.elevated && res is Err ==> final(self).requests@ == old(self).requests@
                || final(self).requests@ == old(self).requests@.push(ProcessRequest::Match { recipe: launch_recipe, first: None }).push(
                ProcessRequest::Launch { recipe: launch_recipe, identity: None },
            ),
            res is Err ==> res->Err_0 is ProcessRuntime || res->Err_0 is PrivilegeBroker || res->Err_0 is InvalidLaunchRecipe,
    {
        let unambiguous = launch_identity_is_unambiguous(&launch_recipe);
        let (status, ownership, identity) = if launch_recipe.elevated {
            match self.prepared_elevated_launches.remove(application_id) {
                Some(PreparedElevatedLaunch::SessionOwned(identity)) => (ProcessStatus::Starting, ProcessOwnership::SessionOwned, identity),
                Some(PreparedElevatedLaunch::PreExisting(identity)) => (
                    ProcessStatus::RunningPreExisting,
                    ProcessOwnership::PreExisting,
                    identity,
                ),
                Some(PreparedElevatedLaunch::Failed(message)) => {
                    return Err(CoreError::PrivilegeBroker(PrivilegeBrokerError { message }));
                },
                None => {
                    let matches = match self.process_runtime.matching_processes(&launch_recipe) {
                        Ok(matches) => matches,
                        Err(error) => return Err(CoreError::ProcessRuntime(error)),
                    };
                    self.requests = Ghost(self.requests@.push(ProcessRequest::Match {
                        recipe: launch_recipe,
                        first: if matches@.len() > 0 { Some(matches@[0]) } else { None },
                    }));
                    if matches.len() > 0 {
                        let mut matches = matches;
                        (ProcessStatus::RunningPreExisting, ProcessOwnership::PreExisting, matches.remove(0))
                    } else {
                        let ownership = if unambiguous {
                            ProcessOwnership::SessionOwned
                        } else {
                            ProcessOwnership::PreExisting
                        };
                        let identity = self.execute_elevated_launch(application_id, &launch_recipe, ownership)?;
                        (
                            if unambiguous {
                                ProcessStatus::Starting
                            } else {
                                ProcessStatus::RunningPreExisting
                            },
                            ownership,
                            identity,
                        )
                    }
                },
            }
        } else {
            let matches = match self.process_runtime.matching_processes(&launch_recipe) {
                Ok(matches) => matches,
                Err(error) => return Err(CoreError::ProcessRuntime(error)),
            };
            self.requests = Ghost(self.requests@.push(ProcessRequest::Match {
                recipe: launch_recipe,
                first: if matches@.len() > 0 { Some(matches@[0]) } else { None },
            }));
            if matches.len() > 0 {
                let mut matches = matches;
                (ProcessStatus::RunningPreExisting, ProcessOwnership::PreExisting, matches.remove(0))
            } else {
                let launched = self.process_runtime.launch(&launch_recipe);
                self.requests = Ghost(self.requests@.push(ProcessRequest::Launch {
                    recipe: launch_recipe,
                    identity: if launched is Ok { Some(launched->Ok_0) } else { None },
                }));
                let identity = match launched {
                    Ok(identity) => identity,
                    Err(error) => return Err(CoreError::ProcessRuntime(error)),
                };
                let ownership = if unambiguous {
                    ProcessOwnership::SessionOwned
                } else {
                    ProcessOwnership::PreExisting
                };
                (
                    if unambiguous {
                        ProcessStatus::Starting
                    } else {
                        ProcessStatus::RunningPreExisting
                    },
                    ownership,
                    identity,
                )
            }
        };
        self.application_processes.insert(
            application_id.to_string(),
            ApplicationProcessSnapshot {
                application_id: application_id.to_string(),
                status,
                ownership: Some(ownership),
                identity: Some(identity),
                output: None,
            },
        );
        self.failed_responsiveness_checks.insert(application_id.to_string(), 0);
        self.application_recipes.insert(application_id.to_string(), launch_recipe);
        if ownership == ProcessOwnership::SessionOwned {
            let now = self.host.now_milliseconds();
            self.startup_started_at.insert(application_id.to_string(), now);
            let _ = self.post_start_ready_at.remove(application_id);
        }
        Ok(ownership)
    }

    /// Launches one application through the elevated helper, journaling its
    /// ownership before the helper continues.
    fn execute_elevated_launch(&mut self, application_id: &str, recipe: &LaunchRecipe, ownership: ProcessOwnership) -> (res: Result<ProcessIdentity, CoreError>)
        ensures
            final(self).requests@ == old(self).requests@,
            final(self).session@ == old(self).session@,
            final(self).same_records(old(self)),
            final(self).pending_process_confirmation == old(self).pending_process_confirmation,
            recipe.source is Steam ==> res is Err && (res->Err_0 matches CoreError::InvalidLaunchRecipe(message)
                && message@ == "Steam launches cannot request elevation"@) && final(self).application_processes@
                == old(self).application_processes@,
            res is Err ==> res->Err_0 is InvalidLaunchRecipe || res->Err_0 is PrivilegeBroker,
    {
        let operation = elevated_launch_operation(recipe, &mut self.host)?;
        let mut operations: Vec<ElevatedOperation> = Vec::new();
        operations.push(operation);
        let mut applications: Vec<(String, bool)> = Vec::new();
        applications.push((application_id.to_string(), ownership == ProcessOwnership::SessionOwned));
        let response = {
            let mut journal = OwnershipJournal {
                host: &mut self.host,
                session: &self.session,
                processes: &mut self.application_processes,
                applications: &applications,
                journal_when_idle: false,
            };
            self.privilege_broker.execute_launch_batch(operations.as_slice(), &mut journal)
        };
        let response = match response {
            Ok(response) => response,
            Err(error) => return Err(CoreError::PrivilegeBroker(error)),
        };
        let mut results = response.results;
        if results.len() == 0 {
            return Err(CoreError::PrivilegeBroker(PrivilegeBrokerError::new("elevated launch returned an unexpected result")));
        }
        match results.remove(0) {
            ElevatedOperationResult::Launched { process_identity } => Ok(process_identity),
            ElevatedOperationResult::Failed { message } => Err(CoreError::PrivilegeBroker(PrivilegeBrokerError { message })),
            _ => Err(CoreError::PrivilegeBroker(PrivilegeBrokerError::new("elevated launch returned an unexpected result"))),
        }
    }

    /// Launches the run of consecutive elevated applications from `start_index`
    /// in one helper batch, so that Windows asks for elevation once.
    fn prepare_elevated_session_launches(&mut self, applications: &Vec<ProfileApplication>, start_index: usize) -> (res: Result<(), CoreError>)
        ensures
            final(self).session@ == old(self).session@,
            final(self).same_records(old(self)),
            final(self).pending_process_confirmation == old(self).pending_process_confirmation,
            !(start_index < applications@.len() && applications@[start_index as int].launch_recipe.elevated
                && !old(self).prepared_elevated_launches@.contains_key(applications@[start_index as int].id@)) ==> res is Ok
                && final(self).prepared_elevated_launches@ == old(self).prepared_elevated_launches@
                && final(self).application_processes@ == old(self).application_processes@
                && final(self).requests@ == old(self).requests@,
            res is Ok && start_index < applications@.len() && !old(self).prepared_elevated_launches@.contains_key(
                applications@[start_index as int].id@,
            ) ==> forall|k: int|
                start_index <= k < applications@.len() && elevated_run(applications@, start_index as int, k)
                    ==> #[trigger] final(self).prepared_elevated_launches@.contains_key(applications@[k].id@),
            res is Err ==> res->Err_0 is ProcessRuntime || res->Err_0 is InvalidLaunchRecipe || res->Err_0 is PrivilegeBroker,
    {
        if start_index >= applications.len() {
            return Ok(());
        }
        let first = &applications[start_index];
        if !first.launch_recipe.elevated || self.prepared_elevated_launches.contains(first.id.as_str()) {
            proof {
                if !applications@[start_index as int].launch_recipe.elevated {
                    assert forall|k: int|
                        start_index <= k < applications@.len() && elevated_run(applications@, start_index as int, k)
                            implies #[trigger] self.prepared_elevated_launches@.contains_key(applications@[k].id@) by {
                        assert(applications@[start_index as int].launch_recipe.elevated);
                    }
                }
            }
            return Ok(());
        }
        let mut targets: Vec<(String, bool)> = Vec::new();
        let mut operations: Vec<ElevatedOperation> = Vec::new();
        let mut index = start_index;
        while index < applications.len() && applications[index].launch_recipe.elevated
            invariant
                start_index <= index <= applications@.len(),
                self.session@ == old(self).session@,
                self.same_records(old(self)),
                self.pending_process_confirmation == old(self).pending_process_confirmation,
                operations@.len() == targets@.len(),
                start_index < applications@.len() && applications@[start_index as int].launch_recipe.elevated
                    && !old(self).prepared_elevated_launches@.contains_key(applications@[start_index as int].id@),
                forall|k: int| start_index <= k < index ==> applications@[k].launch_recipe.elevated,
                forall|k: int|
                    start_index <= k < index ==> #[trigger] self.prepared_elevated_launches@.contains_key(applications@[k].id@)
                        || exists|t: int| 0 <= t < targets@.len() && (#[trigger] targets@[t]).0@ == applications@[k].id@,
            decreases applications@.len() - index,
        {
            let ghost before_prepared = self.prepared_elevated_launches@;
            let ghost before_targets = targets@;
            let application = &applications[index];
            self.application_recipes.insert(application.id.clone(), application.launch_recipe.clone());
            let matches = match self.process_runtime.matching_processes(&application.launch_recipe) {
                Ok(matches) => matches,
                Err(error) => return Err(CoreError::ProcessRuntime(error)),
            };
            if matches.len() > 0 {
                let mut matches = matches;
                let identity = matches.remove(0);
                self.prepared_elevated_launches.insert(application.id.clone(), PreparedElevatedLaunch::PreExisting(identity));
            } else {
                targets.push((application.id.clone(), launch_identity_is_unambiguous(&application.launch_recipe)));
                let operation = elevated_launch_operation(&application.launch_recipe, &mut self.host)?;
                operations.push(operation);
            }
            proof {
                assert forall|k: int|
                    start_index <= k < index + 1 implies #[trigger] self.prepared_elevated_launches@.contains_key(
                        applications@[k].id@,
                    ) || exists|t: int| 0 <= t < targets@.len() && (#[trigger] targets@[t]).0@ == applications@[k].id@ by {
                    if k < index {
                        if !before_prepared.contains_key(applications@[k].id@) {
                            let t = choose|t: int| 0 <= t < before_targets.len() && (#[trigger] before_targets[t]).0@
                                == applications@[k].id@;
                            assert(targets@[t] == before_targets[t]);
                        }
                    } else if targets@.len() > before_targets.len() {
                        assert(targets@[before_targets.len() as int].0@ == applications@[k].id@);
                    }
                }
            }
            index = index + 1;
        }
        if operations.len() == 0 {
            proof {
                assert forall|k: int|
                    start_index <= k < applications@.len() && elevated_run(applications@, start_index as int, k)
                        implies #[trigger] self.prepared_elevated_launches@.contains_key(applications@[k].id@) by {
                    if k >= index {
                        assert(applications@[index as int].launch_recipe.elevated);
                    }
                }
            }
            return Ok(());
        }
        let ghost targeted = targets@;
        let ghost ran = index;
        let ghost prepared_before = self.prepared_elevated_launches@;
        proof {
            assert forall|k: int| start_index <= k < applications@.len() && elevated_run(applications@, start_index as int, k)
                implies k < ran by {
                if k >= ran {
                    assert(ran < applications@.len() ==> applications@[ran as int].launch_recipe.elevated);
                }
            }
        }
        let response = {
            let mut journal = OwnershipJournal {
                host: &mut self.host,
                session: &self.session,
                processes: &mut self.application_processes,
                applications: &targets,
                journal_when_idle: true,
            };
            self.privilege_broker.execute_launch_batch(operations.as_slice(), &mut journal)
        };
        let response = match response {
            Ok(response) => response,
            Err(error) => return Err(CoreError::PrivilegeBroker(error)),
        };
        if !response.accepted {
            let message = match response.error {
                Some(message) => message,
                None => String::from_str("elevated helper rejected the launch batch"),
            };
            return Err(CoreError::PrivilegeBroker(PrivilegeBrokerError { message }));
        }
        if response.results.len() != targets.len() {
            return Err(
                CoreError::PrivilegeBroker(
                    PrivilegeBrokerError::new("elevated launch batch returned the wrong number of results"),
                ),
            );
        }
        let mut results = response.results;
        let mut position: usize = 0;
        while results.len() > 0
            invariant
                self.session@ == old(self).session@,
                self.same_records(old(self)),
                self.pending_process_confirmation == old(self).pending_process_confirmation,
                targets@ == targeted,
                position <= targeted.len(),
                results@.len() == targeted.len() - position,
                forall|key: Seq<char>| #[trigger] prepared_before.contains_key(key) ==> self.prepared_elevated_launches@.contains_key(key),
                forall|t: int| 0 <= t < position ==> self.prepared_elevated_launches@.contains_key(#[trigger] targeted[t].0@),
            decreases results@.len(),
        {
            let ghost before_prepared = self.prepared_elevated_launches@;
            let result = results.remove(0);
            if position < targets.len() {
                let (application_id, unambiguous) = &targets[position];
                let prepared = match result {
                    ElevatedOperationResult::Launched { process_identity } => if *unambiguous {
                        PreparedElevatedLaunch::SessionOwned(process_identity)
                    } else {
                        PreparedElevatedLaunch::PreExisting(process_identity)
                    },
                    ElevatedOperationResult::Failed { message } => PreparedElevatedLaunch::Failed(message),
                    _ => PreparedElevatedLaunch::Failed(String::from_str("elevated launch returned an unexpected result")),
                };
                self.prepared_elevated_launches.insert(application_id.clone(), prepared);
            }
            proof {
                assert forall|t: int| 0 <= t < position + 1 implies self.prepared_elevated_launches@.contains_key(
                    #[trigger] targeted[t].0@,
                ) by {
                    if t < position {
                        assert(before_prepared.contains_key(targeted[t].0@));
                    }
                }
            }
            if position < usize::MAX {
                position = position + 1;
            }
        }
        proof {
            assert forall|k: int|
                start_index <= k < applications@.len() && elevated_run(applications@, start_index as int, k)
                    implies #[trigger] self.prepared_elevated_launches@.contains_key(applications@[k].id@) by {
                assert(k < ran);
                if !prepared_before.contains_key(applications@[k].id@) {
                    let t = choose|t: int| 0 <= t < targeted.len() && (#[trigger] targeted[t]).0@ == applications@[k].id@;
                    assert(self.prepared_elevated_launches@.contains_key(targeted[t].0@));
                }
            }
        }
        Ok(())
    }

    fn resolved_primary_sim(&mut self, profile: &RacingProfile) -> (res: Result<ProfileApplication, CoreError>)
        ensures
            final(self).requests@ == old(self).requests@,
            final(self).session@ == old(self).session@,
            final(self).same_records(old(self)),
            final(self).application_processes@ == old(self).application_processes@,
            final(self).pending_process_confirmation == old(self).pending_process_confirmation,
            res is Ok ==> res->Ok_0.id == profile.primary_sim.id && res->Ok_0.name == profile.primary_sim.name
                && res->Ok_0.path_needs_repair == profile.primary_sim.path_needs_repair,
            res is Err ==> res->Err_0 is InvalidLaunchRecipe,
    {
        let mut primary_sim = profile.primary_sim.clone();
        match self.host.resolve_primary_launch_recipe(&primary_sim.launch_recipe, profile.vr_enabled, profile.preferred_vr_launch_mode) {
            Ok(recipe) => {
                primary_sim.launch_recipe = recipe;
                Ok(primary_sim)
            },
            Err(message) => Err(CoreError::InvalidLaunchRecipe(message)),
        }
    }

    fn ordered_session_applications(&mut self, profile: &RacingProfile) -> (res: Result<Vec<ProfileApplication>, CoreError>)
        ensures
            final(self).session@ == old(self).session@,
            final(self).same_records(old(self)),
            final(self).application_processes@ == old(self).application_processes@,
            final(self).pending_process_confirmation == old(self).pending_process_confirmation,
            res is Ok ==> res->Ok_0@.len() == profile.supporting_applications@.len() + 1,
            res is Ok ==> forall|i: int| 0 <= i < profile.supporting_applications@.len() ==> (#[trigger] res->Ok_0@[i])@
                == profile.supporting_applications@[i].application@,
            res is Ok ==> res->Ok_0@.last().id == profile.primary_sim.id && res->Ok_0@.last().name
                == profile.primary_sim.name,
            res is Err ==> res->Err_0 is InvalidLaunchRecipe,
    {
        let primary_sim = self.resolved_primary_sim(profile)?;
        let mut ordered: Vec<ProfileApplication> = Vec::new();
        let mut index: usize = 0;
        while index < profile.supporting_applications.len()
            invariant
                index <= profile.supporting_applications@.len(),
                ordered@.len() == index,
                forall|i: int| 0 <= i < index ==> (#[trigger] ordered@[i])@ == profile.supporting_applications@[i].application@,
            decreases profile.supporting_applications@.len() - index,
        {
            ordered.push(profile.supporting_applications[index].application.clone());
            index = index + 1;
        }
        ordered.push(primary_sim);
        Ok(ordered)
    }

    fn abort_session_startup(&mut self) -> (res: Result<(), CoreError>)
        requires
            old(self).session@.active_profile_id is Some,
        ensures
            session_consistent(final(self).session@),
            final(self).session@.state == SessionState::Cancelling || final(self).session@.state == SessionState::Idle,
            final(self).same_records(old(self)),
            final(self).startup_cancelled_with@ == old(self).session@.applications,
    {
        let ghost roster = self.session@.applications;
        self.session.state = SessionState::Cancelling;
        let res = self.advance_session_cancellation();
        self.startup_cancelled_with = Ghost(roster);
        res
    }

    /// Stops the Session's elevated Processes in one helper batch; whether all stopped.
    fn cleanup_elevated_session_processes(&mut self) -> (res: Result<bool, CoreError>)
        ensures
            final(self).session@.state == old(self).session@.state,
            final(self).session@.active_profile_id == old(self).session@.active_profile_id,
            final(self).same_records(old(self)),
            res is Err ==> res->Err_0 is ApplicationNotFound || res->Err_0 is PrivilegeBroker,
            res == Ok::<bool, CoreError>(true) ==> !owned_elevated_running(
                old(self).session@.applications,
                old(self).application_recipes@,
                final(self).application_processes@,
            ),
            !owned_elevated_running(old(self).session@.applications, old(self).application_recipes@, old(self).application_processes@)
                && !owned_elevated_prepared(
                old(self).session@.applications,
                old(self).application_recipes@,
                old(self).prepared_elevated_launches@,
            ) ==> res == Ok::<bool, CoreError>(true) && final(self).application_processes@ == old(self).application_processes@
                && final(self).requests@ == old(self).requests@,
            old(self).requests@.is_prefix_of(final(self).requests@),
            only_graceful_stops(final(self).requests@, old(self).requests@.len() as int),
    {
        let ghost applications = self.session@.applications;
        let ghost recipes = self.application_recipes@;
        let ghost processes = self.application_processes@;
        let mut targets: Vec<(String, ProcessIdentity)> = Vec::new();
        let mut settled: Vec<(String, SessionApplicationState)> = Vec::new();
        let mut position = self.session.applications.len();
        while position > 0
            invariant
                self.requests@ == old(self).requests@,
                position <= self.session.applications@.len(),
                self.session@ == old(self).session@,
                self.same_records(old(self)),
                applications == old(self).session@.applications,
                self.application_recipes@ == recipes,
                self.application_processes@ == processes,
                recipes == old(self).application_recipes@,
                processes == old(self).application_processes@,
                self.prepared_elevated_launches@ == old(self).prepared_elevated_launches@,
                !owned_elevated_running(applications, recipes, processes) && !owned_elevated_prepared(
                    applications,
                    recipes,
                    old(self).prepared_elevated_launches@,
                ) ==> targets@.len() == 0,
                forall|j: int|
                    position <= j < applications.len() && recipes.contains_key(#[trigger] applications[j].application_id@)
                        && recipes[applications[j].application_id@].elevated && owned_running(
                        processes,
                        applications[j].application_id@,
                    ) ==> exists|t: int| 0 <= t < targets@.len() && (#[trigger] targets@[t]).0@ == applications[j].application_id@,
            decreases position,
        {
            position = position - 1;
            let application_id = self.session.applications[position].application_id.clone();
            if self.is_elevated(application_id.as_str()) {
                let owned_identity = match self.application_processes.get(application_id.as_str()) {
                    Some(process) => if process.ownership == Some(ProcessOwnership::SessionOwned) {
                        match &process.identity {
                            Some(identity) => Some(identity.clone()),
                            None => None,
                        }
                    } else {
                        None
                    },
                    None => None,
                };
                let ghost before_targets = targets@;
                proof {
                    let k = position as int;
                    if owned_identity is Some {
                        assert(recipes.contains_key(applications[k].application_id@));
                        assert(owned_running(processes, applications[k].application_id@));
                    }
                    if owned_identity is None && self.prepared_elevated_launches@.contains_key(applications[k].application_id@)
                        && self.prepared_elevated_launches@[applications[k].application_id@] is SessionOwned {
                        assert(recipes.contains_key(applications[k].application_id@));
                    }
                }
                match owned_identity {
                    Some(identity) => {
                        targets.push((application_id, identity));
                        proof {
                            assert(targets@[before_targets.len() as int].0@ == applications[position as int].application_id@);
                        }
                    },
                    None => match self.prepared_elevated_launches.get(application_id.as_str()) {
                        Some(PreparedElevatedLaunch::SessionOwned(identity)) => {
                            let identity = identity.clone();
                            targets.push((application_id, identity));
                        },
                        Some(PreparedElevatedLaunch::PreExisting(_)) => {
                            settled.push((application_id, SessionApplicationState::Detached));
                        },
                        Some(PreparedElevatedLaunch::Failed(_)) => {
                            settled.push((application_id, SessionApplicationState::Failed));
                        },
                        None => {},
                    },
                }
                proof {
                    assert forall|j: int|
                        position <= j < applications.len() && recipes.contains_key(#[trigger] applications[j].application_id@)
                            && recipes[applications[j].application_id@].elevated && owned_running(
                            processes,
                            applications[j].application_id@,
                        ) implies exists|t: int| 0 <= t < targets@.len() && (#[trigger] targets@[t]).0@
                        == applications[j].application_id@ by {
                        if j == position {
                            assert(targets@.len() == before_targets.len() + 1);
                            assert(targets@[before_targets.len() as int].0@ == applications[j].application_id@);
                        } else {
                            let t = choose|t: int| 0 <= t < before_targets.len() && (#[trigger] before_targets[t]).0@
                                == applications[j].application_id@;
                            assert(targets@[t] == before_targets[t]);
                        }
                    }
                }
            }
        }
        let ghost targeted = targets@;
        while settled.len() > 0
            invariant
                self.requests@ == old(self).requests@,
                self.session@.state == old(self).session@.state,
                self.session@.active_profile_id == old(self).session@.active_profile_id,
                self.same_records(old(self)),
                self.application_processes@ == processes,
                targets@ == targeted,
                applications == old(self).session@.applications,
                recipes == old(self).application_recipes@,
                processes == old(self).application_processes@,
            decreases settled@.len(),
        {
            let (application_id, state) = settled.pop().unwrap();
            let _ = self.prepared_elevated_launches.remove(application_id.as_str());
            self.set_session_application_state(application_id.as_str(), state);
        }
        if targets.len() == 0 {
            proof {
                if owned_elevated_running(applications, recipes, processes) {
                    let j = choose|j: int|
                        0 <= j < applications.len() && recipes.contains_key(#[trigger] applications[j].application_id@)
                            && recipes[applications[j].application_id@].elevated && owned_running(
                            processes,
                            applications[j].application_id@,
                        );
                    assert(exists|t: int| 0 <= t < targets@.len() && (#[trigger] targets@[t]).0@ == applications[j].application_id@);
                }
            }
            return Ok(true);
        }
        assert(owned_elevated_running(applications, recipes, processes) || owned_elevated_prepared(
            applications,
            recipes,
            old(self).prepared_elevated_launches@,
        ));
        let mut operations: Vec<ElevatedOperation> = Vec::new();
        let mut index: usize = 0;
        while index < targets.len()
            invariant
                self.requests@ == old(self).requests@,
                index <= targets@.len(),
                self.session@.state == old(self).session@.state,
                self.session@.active_profile_id == old(self).session@.active_profile_id,
                self.same_records(old(self)),
                self.application_processes@ == processes,
                applications == old(self).session@.applications,
                recipes == old(self).application_recipes@,
                processes == old(self).application_processes@,
                owned_elevated_running(applications, recipes, processes) || owned_elevated_prepared(
                    applications,
                    recipes,
                    old(self).prepared_elevated_launches@,
                ),
            decreases targets@.len() - index,
        {
            let (application_id, identity) = &targets[index];
            let strategy = match self.application_recipes.get(application_id.as_str()) {
                Some(recipe) => recipe.shutdown_strategy.clone(),
                None => return Err(CoreError::ApplicationNotFound(application_id.clone())),
            };
            operations.push(ElevatedOperation::GracefulStop { process_identity: identity.clone(), strategy });
            index = index + 1;
        }
        let response = match self.privilege_broker.execute(operations.as_slice()) {
            Ok(response) => response,
            Err(error) => return Err(CoreError::PrivilegeBroker(error)),
        };
        if response.results.len() != targets.len() {
            return Err(
                CoreError::PrivilegeBroker(
                    PrivilegeBrokerError::new("elevated cancellation returned the wrong number of results"),
                ),
            );
        }
        let mut all_stopped = true;
        let mut results = response.results;
        let mut position: usize = 0;
        while results.len() > 0 && position < targets.len()
            invariant
                old(self).requests@.is_prefix_of(self.requests@),
                only_graceful_stops(self.requests@, old(self).requests@.len() as int),
                position <= targets@.len(),
                results@.len() == targets@.len() - position,
                targets@ == targeted,
                self.session@.state == old(self).session@.state,
                self.session@.active_profile_id == old(self).session@.active_profile_id,
                self.same_records(old(self)),
                all_stopped ==> forall|t: int| 0 <= t < position ==> !owned_running(
                    self.application_processes@,
                    #[trigger] targeted[t].0@,
                ),
                all_stopped ==> forall|key: Seq<char>| #[trigger] owned_running(self.application_processes@, key)
                    ==> owned_running(processes, key),
                forall|j: int|
                    0 <= j < applications.len() && recipes.contains_key(#[trigger] applications[j].application_id@)
                        && recipes[applications[j].application_id@].elevated && owned_running(
                        processes,
                        applications[j].application_id@,
                    ) ==> exists|t: int| 0 <= t < targeted.len() && (#[trigger] targeted[t]).0@ == applications[j].application_id@,
            decreases results@.len(),
        {
            let ghost before = self.application_processes@;
            let result = results.remove(0);
            let (application_id, identity) = &targets[position];
            let stopped = match result {
                ElevatedOperationResult::GracefulStopRequested { requested, exited } => requested && exited,
                _ => false,
            };
            let _ = self.prepared_elevated_launches.remove(application_id.as_str());
            self.requests = Ghost(self.requests@.push(ProcessRequest::GracefulStop { identity: *identity, exited: stopped }));
            if stopped {
                if self.application_processes.contains(application_id.as_str()) {
                    self.mark_stopped(application_id.as_str());
                }
                self.set_session_application_state(application_id.as_str(), SessionApplicationState::Stopped);
                proof {
                    if all_stopped {
                        assert forall|key: Seq<char>| #[trigger] owned_running(self.application_processes@, key) implies owned_running(
                            processes,
                            key,
                        ) by {
                            if key != application_id@ {
                                assert(owned_running(before, key));
                            }
                        }
                        assert forall|t: int| 0 <= t < position + 1 implies !owned_running(
                            self.application_processes@,
                            #[trigger] targeted[t].0@,
                        ) by {
                            if targeted[t].0@ != application_id@ {
                                assert(!owned_running(before, targeted[t].0@));
                            }
                        }
                    }
                }
            } else {
                self.set_process(
                    application_id.as_str(),
                    ProcessStatus::Stopping,
                    Some(ProcessOwnership::SessionOwned),
                    Some(identity.clone()),
                );
                self.set_session_application_state(application_id.as_str(), SessionApplicationState::Stopping);
                all_stopped = false;
            }
            position = position + 1;
        }
        proof {
            if all_stopped && owned_elevated_running(applications, recipes, self.application_processes@) {
                let j = choose|j: int|
                    0 <= j < applications.len() && recipes.contains_key(#[trigger] applications[j].application_id@)
                        && recipes[applications[j].application_id@].elevated && owned_running(
                        self.application_processes@,
                        applications[j].application_id@,
                    );
                assert(owned_running(processes, applications[j].application_id@));
                let t = choose|t: int| 0 <= t < targeted.len() && (#[trigger] targeted[t]).0@ == applications[j].application_id@;
                assert(!owned_running(self.application_processes@, targeted[t].0@));
            }
        }
        Ok(all_stopped)
    }

    fn set_session_application_state(&mut self, application_id: &str, state: SessionApplicationState)
        ensures
            final(self).requests@ == old(self).requests@,
            final(self).session@.state == old(self).session@.state,
            final(self).session@.active_profile_id == old(self).session@.active_profile_id,
            final(self).session@.summary == old(self).session@.summary,
            final(self).session@.applications.len() == old(self).session@.applications.len(),
            forall|i: int|
                0 <= i < old(self).session@.applications.len() ==> #[trigger] final(self).session@.applications[i] == (if first_listed(
                    old(self).session@.applications,
                    application_id@,
                    i,
                ) {
                    SessionApplicationSnapshot { state: state, ..old(self).session@.applications[i] }
                } else {
                    old(self).session@.applications[i]
                }),
            final(self).application_processes@ == old(self).application_processes@,
            final(self).same_records(old(self)),
            final(self).pending_process_confirmation == old(self).pending_process_confirmation,
    {
        let mut found: Option<usize> = None;
        let mut position: usize = 0;
        while position < self.session.applications.len() && found.is_none()
            invariant
                position <= self.session.applications@.len(),
                found matches Some(at) ==> at < self.session.applications@.len() && first_listed(
                    self.session.applications@,
                    application_id@,
                    at as int,
                ),
                found is None ==> forall|j: int| 0 <= j < position ==> (#[trigger] self.session.applications@[j]).application_id@
                    != application_id@,
            decreases self.session.applications@.len() - position,
        {
            if same_text(self.session.applications[position].application_id.as_str(), application_id) {
                found = Some(position);
            }
            position = position + 1;
        }
        let ghost before = self.session.applications@;
        match found {
            Some(at) => {
                let mut application = self.session.applications[at].clone();
                application.state = state;
                self.session.applications.set(at, application);
                proof {
                    assert forall|i: int| 0 <= i < before.len() && i != at implies !first_listed(before, application_id@, i) by {
                        if i > at {
                            assert(before[at as int].application_id@ == application_id@);
                        }
                    }
                }
            },
            None => {},
        }
    }

    /// Stops the Session's Processes in reverse order, detaching those found running.
    fn advance_session_cancellation(&mut self) -> (res: Result<(), CoreError>)
        requires
            old(self).session@.state == SessionState::Cancelling ==> old(self).session@.active_profile_id is Some,
            session_consistent(old(self).session@) || old(self).session@.state == SessionState::Cancelling,
        ensures
            old(self).session@.state != SessionState::Cancelling ==> final(self).session@.state == old(self).session@.state
                && final(self).session@.active_profile_id == old(self).session@.active_profile_id,
            old(self).session@.state == SessionState::Cancelling ==> (final(self).session@.state == SessionState::Cancelling
                && final(self).session@.active_profile_id == old(self).session@.active_profile_id)
                || (final(self).session@.state == SessionState::Idle && final(self).session@.active_profile_id is None),
            final(self).same_records(old(self)),
            old(self).session@.state == SessionState::Cancelling && final(self).session@.state == SessionState::Idle
                ==> !owns_running_application(final(self).session@.applications, final(self).application_processes@),
            res is Err ==> res->Err_0 is ApplicationNotFound || res->Err_0 is PrivilegeBroker || res->Err_0 is ProcessRuntime,
    {
        if self.session.state != SessionState::Cancelling {
            return Ok(());
        }
        if !self.cleanup_elevated_session_processes()? {
            return Ok(());
        }
        let mut index = self.session.applications.len();
        while index > 0
            invariant
                index <= self.session.applications@.len(),
                self.session@.state == SessionState::Cancelling,
                old(self).session@.state == SessionState::Cancelling,
                self.session@.active_profile_id == old(self).session@.active_profile_id,
                self.same_records(old(self)),
                forall|j: int| index <= j < self.session@.applications.len() ==> !owned_running(
                    self.application_processes@,
                    #[trigger] self.session@.applications[j].application_id@,
                ),
            decreases index,
        {
            let ghost before_apps = self.session@.applications;
            let ghost before_processes = self.application_processes@;
            index = index - 1;
            let application_id = self.session.applications[index].application_id.clone();
            let process = match self.application_processes.get(application_id.as_str()) {
                Some(process) => Some(process.clone()),
                None => None,
            };
            match process {
                Some(process) => match process.ownership {
                    Some(ProcessOwnership::PreExisting) => {
                        self.set_session_application_state(application_id.as_str(), SessionApplicationState::Detached);
                    },
                    Some(ProcessOwnership::SessionOwned) => match process.identity {
                        None => {
                            self.set_session_application_state(application_id.as_str(), SessionApplicationState::Stopped);
                        },
                        Some(identity) => {
                            let recipe = match self.recipe_of(application_id.as_str()) {
                                Some(recipe) => recipe,
                                None => return Err(CoreError::ApplicationNotFound(application_id)),
                            };
                            let (graceful, exited) = self.request_graceful_stop(&identity, &recipe.shutdown_strategy, recipe.elevated)?;
                            if graceful == GracefulStopResult::Requested && exited {
                                self.mark_stopped(application_id.as_str());
                                self.set_session_application_state(application_id.as_str(), SessionApplicationState::Stopped);
                            } else {
                                self.mark_stopping(application_id.as_str());
                                self.set_session_application_state(application_id.as_str(), SessionApplicationState::Stopping);
                                return Ok(());
                            }
                        },
                    },
                    None => {},
                },
                None => {},
            }
            proof {
                assert forall|j: int| index <= j < self.session@.applications.len() implies !owned_running(
                    self.application_processes@,
                    #[trigger] self.session@.applications[j].application_id@,
                ) by {
                    assert(self.session@.applications[j].application_id == before_apps[j].application_id);
                    if j > index {
                        assert(!owned_running(before_processes, before_apps[j].application_id@));
                    }
                }
            }
        }
        self.finish_session();
        Ok(())
    }

    /// Closes the Session: the Primary Sim first, then Supporting Applications
    /// in reverse order; Processes found running, and those to keep, are detached.
    #[verifier::spinoff_prover]
    #[verifier::rlimit(60)]
    fn advance_session_close(&mut self) -> (res: Result<(), CoreError>)
        requires
            session_consistent(old(self).session@),
        ensures
            session_consistent(final(self).session@),
            old(self).session@.state != SessionState::Closing ==> final(self).session@.state == old(self).session@.state,
            old(self).session@.state == SessionState::Closing ==> final(self).session@.state == SessionState::Closing
                || final(self).session@.state == SessionState::Idle,
            final(self).same_records(old(self)),
            found_processes_kept(old(self).application_processes@, final(self).application_processes@),
            closing_keeps_running(old(self).session@, old(self).profile_library@, old(self).application_processes@, final(self).application_processes@),
            old(self).session@.state == SessionState::Closing && res is Ok ==> final(self).session@.state == SessionState::Idle
                || owned_process_stopping(final(self).application_processes@),
            res is Err ==> res->Err_0 is ProfileNotFound || res->Err_0 is ApplicationNotFound || res->Err_0 is ProcessRuntime
                || res->Err_0 is PrivilegeBroker,
            old(self).session@.state == SessionState::Closing && position_of(
                old(self).profile_library@,
                old(self).session@.active_profile_id->0@,
                0,
            ) is Some && !owns_any_process(old(self).application_processes@) ==> res is Ok && final(self).session@.state
                == SessionState::Idle,
            old(self).requests@.is_prefix_of(final(self).requests@),
            only_graceful_stops(final(self).requests@, old(self).requests@.len() as int),
            stops_owned_processes(final(self).requests@, old(self).requests@.len() as int, old(self).application_processes@),
            old(self).session@.state == SessionState::Closing && position_of(
                old(self).profile_library@,
                old(self).session@.active_profile_id->0@,
                0,
            ) is Some ==> stops_follow_order(
                final(self).requests@,
                old(self).requests@.len() as int,
                cleanup_order(
                    old(self).profile_library@[position_of(
                        old(self).profile_library@,
                        old(self).session@.active_profile_id->0@,
                        0,
                    )->0 as int],
                ),
                old(self).application_processes@,
            ),
            old(self).session@.state == SessionState::Closing && res is Ok && !owned_process_stopping(old(self).application_processes@)
                && all_stops_exited(final(self).requests@, old(self).requests@.len() as int) ==> final(self).session@.state
                == SessionState::Idle,
    {
        if self.session.state != SessionState::Closing {
            return Ok(());
        }
        let profile_id = match &self.session.active_profile_id {
            Some(profile_id) => profile_id.clone(),
            None => return Ok(()),
        };
        let profile = match self.profile_library.profile(profile_id.as_str()) {
            Some(profile) => profile,
            None => return Err(CoreError::ProfileNotFound(profile_id)),
        };
        let cleanup = cleanup_plan(&profile);
        let ghost order = cleanup_order(profile@);
        let ghost profile_index = position_of(old(self).profile_library@, profile_id@, 0)->0;
        proof {
            assert(profile_id@ == old(self).session@.active_profile_id->0@);
            assert(order == cleanup_order(old(self).profile_library@[profile_index as int]));
        }
        let mut position: usize = 0;
        let ghost mut places: Seq<int> = Seq::empty();
        while position < cleanup.len()
            invariant
                position <= cleanup@.len(),
                stops_at_places(self.requests@, old(self).requests@.len() as int, order, old(self).application_processes@, places),
                forall|i: int| 0 <= i < places.len() ==> #[trigger] places[i] < position,
                cleanup@.len() == order.len(),
                forall|k: int| 0 <= k < cleanup@.len() ==> (#[trigger] cleanup@[k].0@, cleanup@[k].1) == order[k],
                old(self).session@.active_profile_id is Some,
                position_of(old(self).profile_library@, old(self).session@.active_profile_id->0@, 0) == Some(profile_index),
                order == cleanup_order(old(self).profile_library@[profile_index as int]),
                self.session@.state == SessionState::Closing,
                old(self).session@.state == SessionState::Closing,
                self.session@.active_profile_id is Some,
                self.same_records(old(self)),
                found_processes_kept(old(self).application_processes@, self.application_processes@),
                forall|id: Seq<char>| always_kept(order, id) ==> #[trigger] detached_or_unchanged(
                    old(self).application_processes@,
                    self.application_processes@,
                    id,
                ),
                !owns_any_process(old(self).application_processes@) ==> !owns_any_process(self.application_processes@),
                !owned_process_stopping(old(self).application_processes@) ==> !owned_process_stopping(self.application_processes@),
                old(self).requests@.is_prefix_of(self.requests@),
                only_graceful_stops(self.requests@, old(self).requests@.len() as int),
                all_stops_exited(self.requests@, old(self).requests@.len() as int),
                stops_owned_processes(self.requests@, old(self).requests@.len() as int, old(self).application_processes@),
                owned_from(old(self).application_processes@, self.application_processes@),
            decreases cleanup@.len() - position,
        {
            let (application_id, keep_running) = &cleanup[position];
            proof {
                assert((cleanup@[position as int].0@, cleanup@[position as int].1) == order[position as int]);
                if !*keep_running {
                    assert(order[position as int].0 == application_id@ && !order[position as int].1);
                    assert(!always_kept(order, application_id@));
                }
            }
            let ghost entry = position as int;
            position = position + 1;
            let mut in_session = false;
            let mut at: usize = 0;
            while at < self.session.applications.len()
                invariant
                    at <= self.session.applications@.len(),
                decreases self.session.applications@.len() - at,
            {
                if same_text(self.session.applications[at].application_id.as_str(), application_id.as_str()) {
                    in_session = true;
                }
                at = at + 1;
            }
            if !in_session {
                continue;
            }
            let process = match self.application_processes.get(application_id.as_str()) {
                Some(process) => process.clone(),
                None => continue,
            };
            let ghost middle = self.application_processes@;
            proof {
                assert(middle.contains_key(application_id@) && process == middle[application_id@]);
            }
            if process.ownership == Some(ProcessOwnership::PreExisting) || *keep_running {
                if process.identity.is_some() || process.ownership.is_some() {
                    self.set_process(
                        application_id.as_str(),
                        ProcessStatus::RunningPreExisting,
                        Some(ProcessOwnership::PreExisting),
                        process.identity,
                    );
                    proof {
                        if always_kept(order, application_id@) {
                            assert(detached_or_unchanged(old(self).application_processes@, middle, application_id@));
                        }
                        lemma_close_frame(
                            old(self).application_processes@,
                            middle,
                            self.application_processes@,
                            order,
                            application_id@,
                        );
                    }
                }
                self.set_session_application_state(application_id.as_str(), SessionApplicationState::Detached);
                continue;
            }
            if process.ownership != Some(ProcessOwnership::SessionOwned) {
                continue;
            }
            if process.status == ProcessStatus::Stopping {
                if self.pending_process_confirmation.is_none() {
                    match process.identity {
                        Some(identity) => self.request_process_confirmation(
                            application_id.clone(),
                            ProcessConfirmationAction::SessionClose,
                            identity,
                            None,
                        ),
                        None => {},
                    }
                }
                assert(self.application_processes@.contains_key(application_id@));
                assert(owned_process_stopping(self.application_processes@));
                return Ok(());
            }
            let identity = match process.identity {
                Some(identity) => identity,
                None => continue,
            };
            let recipe = match self.recipe_of(application_id.as_str()) {
                Some(recipe) => recipe,
                None => return Err(CoreError::ApplicationNotFound(application_id.clone())),
            };
            proof {
                assert(self.application_processes@.contains_key(application_id@));
                assert(owned_identity(old(self).application_processes@, identity));
            }
            let ghost places_before = places;
            let ghost requests_before = self.requests@;
            let stop = self.request_graceful_stop(&identity, &recipe.shutdown_strategy, recipe.elevated);
            let ghost stop_at = self.requests@.len() - 1;
            proof {
                places = places.push(entry);
                assert(order[entry].0 == application_id@ && !order[entry].1);
                assert(old(self).application_processes@.contains_key(application_id@));
                assert forall|i: int| 0 <= i < places.len() implies {
                    &&& 0 <= #[trigger] places[i] < order.len()
                    &&& !order[places[i]].1
                    &&& old(self).application_processes@.contains_key(order[places[i]].0)
                    &&& old(self).application_processes@[order[places[i]].0].ownership == Some(ProcessOwnership::SessionOwned)
                    &&& self.requests@[old(self).requests@.len() + i] is GracefulStop
                    &&& old(self).application_processes@[order[places[i]].0].identity == Some(
                        self.requests@[old(self).requests@.len() + i]->GracefulStop_identity,
                    )
                } by {
                    if i < places_before.len() {
                        assert(places[i] == places_before[i]);
                        assert(self.requests@[old(self).requests@.len() + i] == requests_before[old(self).requests@.len() + i]);
                    }
                }
                assert forall|i: int, j: int| 0 <= i < j < places.len() implies #[trigger] places[i] < #[trigger] places[j] by {
                    if j == places.len() - 1 {
                        assert(places_before[i] < entry + 1);
                    } else {
                        assert(places_before[i] < places_before[j]);
                    }
                }
                assert(stops_at_places(self.requests@, old(self).requests@.len() as int, order, old(self).application_processes@, places));
            }
            let (graceful, exited) = match stop {
                Ok(result) => result,
                Err(error) => {
                    assert(self.application_processes@ == middle);
                    self.mark_stopping(application_id.as_str());
                    proof {
                        assert forall|key: Seq<char>| key != application_id@ implies (#[trigger] self.application_processes@.contains_key(key)
                            == middle.contains_key(key) && (middle.contains_key(key) ==> self.application_processes@[key] == middle[key])) by {
                            assert(self.application_processes@.contains_key(key) == middle.contains_key(key));
                        }
                        lemma_close_frame(
                            old(self).application_processes@,
                            middle,
                            self.application_processes@,
                            order,
                            application_id@,
                        );
                    }
                    self.set_session_application_state(application_id.as_str(), SessionApplicationState::Stopping);
                    return Err(error);
                },
            };
            if graceful == GracefulStopResult::Requested && exited {
                self.mark_stopped(application_id.as_str());
                proof {
                    lemma_close_frame(
                        old(self).application_processes@,
                        middle,
                        self.application_processes@,
                        order,
                        application_id@,
                    );
                }
                self.set_session_application_state(application_id.as_str(), SessionApplicationState::Stopped);
            } else {
                let ghost before_mark = self.application_processes@;
                self.mark_stopping(application_id.as_str());
                proof {
                    assert(before_mark == middle);
                    assert forall|key: Seq<char>| key != application_id@ implies (#[trigger] self.application_processes@.contains_key(key)
                        == middle.contains_key(key) && (middle.contains_key(key) ==> self.application_processes@[key] == middle[key])) by {
                        assert(self.application_processes@.contains_key(key) == before_mark.contains_key(key));
                    }
                    lemma_close_frame(
                        old(self).application_processes@,
                        middle,
                        self.application_processes@,
                        order,
                        application_id@,
                    );
                }
                assert(self.application_processes@.contains_key(application_id@)
                    && self.application_processes@[application_id@].status == ProcessStatus::Stopping
                    && self.application_processes@[application_id@].ownership == Some(ProcessOwnership::SessionOwned));
                self.set_session_application_state(application_id.as_str(), SessionApplicationState::Stopping);
                self.request_process_confirmation(
                    application_id.clone(),
                    ProcessConfirmationAction::SessionClose,
                    identity,
                    None,
                );
                assert(owned_process_stopping(self.application_processes@));
                assert(found_processes_kept(old(self).application_processes@, self.application_processes@));
                assert(!all_stops_exited(self.requests@, old(self).requests@.len() as int)) by {
                    assert(!self.requests@[stop_at]->exited);
                }
                return Ok(());
            }
        }
        self.finish_session();
        Ok(())
    }

    /// An Active Session begins closing once its Primary Sim has stopped or failed.
    fn begin_close_if_primary_exited(&mut self)
        requires
            session_consistent(old(self).session@),
        ensures
            session_consistent(final(self).session@),
            old(self).session@.state != SessionState::Active ==> final(self).session@ == old(self).session@,
            old(self).session@.state == SessionState::Active ==> final(self).session@ == (SessionSnapshotView {
                state: if primary_has_exited(old(self).session@.applications) {
                    SessionState::Closing
                } else {
                    SessionState::Active
                },
                ..old(self).session@
            }),
            final(self).same_records(old(self)),
            final(self).application_processes@ == old(self).application_processes@,
    {
        if self.session.state != SessionState::Active {
            return;
        }
        let mut primary_exited = false;
        let mut found = false;
        let mut position: usize = 0;
        while position < self.session.applications.len() && !found
            invariant
                position <= self.session.applications@.len(),
                !found ==> !primary_exited && forall|j: int| 0 <= j < position ==> (#[trigger] self.session@.applications[j]).role
                    != SessionApplicationRole::PrimarySim,
                found ==> primary_exited == primary_has_exited(self.session@.applications),
            decreases self.session.applications@.len() - position,
        {
            let application = &self.session.applications[position];
            if application.role == SessionApplicationRole::PrimarySim {
                found = true;
                primary_exited = application.state == SessionApplicationState::Stopped || application.state
                    == SessionApplicationState::Failed;
                proof {
                    let k = position as int;
                    assert(first_primary(self.session@.applications, k));
                    if primary_has_exited(self.session@.applications) {
                        let other = choose|m: int| first_primary(self.session@.applications, m) && (
                            self.session@.applications[m].state == SessionApplicationState::Stopped
                                || self.session@.applications[m].state == SessionApplicationState::Failed);
                        if other < k {
                            assert(self.session@.applications[other].role != SessionApplicationRole::PrimarySim);
                        } else if other > k {
                            assert(self.session@.applications[k].role == SessionApplicationRole::PrimarySim);
                        }
                    }
                }
            }
            position = position + 1;
        }
        if primary_exited {
            self.session.state = SessionState::Closing;
        }
    }

    /// Starts the next pending application once those before it are ready; an
    /// optional failure is skipped, a required failure cancels the startup.
    fn advance_session_startup(&mut self) -> (res: Result<(), CoreError>)
        requires
            session_consistent(old(self).session@),
        ensures
            session_consistent(final(self).session@),
            old(self).session@.state != SessionState::Starting ==> final(self).session@.state == old(self).session@.state,
            old(self).session@.state == SessionState::Starting ==> final(self).session@.state == SessionState::Starting
                || final(self).session@.state == SessionState::Active || final(self).session@.state == SessionState::Cancelling
                || final(self).session@.state == SessionState::Idle,
            final(self).same_records(old(self)),
            final(self).session@.state == SessionState::Starting || final(self).session@.state == SessionState::Active
                ==> launched_in_order(old(self).session@.applications, final(self).session@.applications),
            old(self).session@.state == SessionState::Starting && final(self).session@.state == SessionState::Active
                ==> all_started(final(self).session@.applications),
            old(self).session@.state == SessionState::Starting && all_started(old(self).session@.applications) && res is Ok
                ==> final(self).session@.state == SessionState::Active && final(self).session@.applications
                == old(self).session@.applications,
            old(self).session@.state == SessionState::Starting && (final(self).session@.state == SessionState::Cancelling
                || final(self).session@.state == SessionState::Idle) ==> required_application_failed(
                final(self).startup_cancelled_with@,
            ),
            old(self).session@.state == SessionState::Starting && res is Ok && final(self).session@.state
                == SessionState::Starting && position_of(old(self).profile_library@, old(self).session@.active_profile_id->0@, 0)
                is Some && old(self).session@.applications.len() == old(self).profile_library@[position_of(
                old(self).profile_library@,
                old(self).session@.active_profile_id->0@,
                0,
            )->0 as int].supporting_applications.len() + 1 ==> startup_waits(final(self).session@.applications),
    {
        if self.session.state != SessionState::Starting {
            return Ok(());
        }
        let profile_id = match &self.session.active_profile_id {
            Some(profile_id) => profile_id.clone(),
            None => return Ok(()),
        };
        let profile = match self.profile_library.profile(profile_id.as_str()) {
            Some(profile) => profile,
            None => return Err(CoreError::ProfileNotFound(profile_id)),
        };
        let ordered = self.ordered_session_applications(&profile)?;
        let mut budget: usize = self.session.applications.len();
        let ghost mut first = true;
        let ghost matches_profile = self.session@.applications.len() == ordered@.len();
        proof {
            lemma_pending_count_bounded(self.session@.applications);
            if position_of(old(self).profile_library@, old(self).session@.active_profile_id->0@, 0) is Some
                && old(self).session@.applications.len() == old(self).profile_library@[position_of(
                old(self).profile_library@,
                old(self).session@.active_profile_id->0@,
                0,
            )->0 as int].supporting_applications.len() + 1 {
                assert(profile@.supporting_applications.len() == profile.supporting_applications@.len());
                assert(matches_profile);
            }
        }
        loop
            invariant
                pending_count(self.session@.applications) <= budget,
                matches_profile ==> self.session@.applications.len() == ordered@.len(),
                !matches_profile ==> !(position_of(old(self).profile_library@, old(self).session@.active_profile_id->0@, 0)
                    is Some && old(self).session@.applications.len() == old(self).profile_library@[position_of(
                    old(self).profile_library@,
                    old(self).session@.active_profile_id->0@,
                    0,
                )->0 as int].supporting_applications.len() + 1),
                self.session@.state == SessionState::Starting,
                old(self).session@.state == SessionState::Starting,
                self.session@.active_profile_id is Some,
                self.same_records(old(self)),
                launched_in_order(old(self).session@.applications, self.session@.applications),
                first ==> self.session@.applications == old(self).session@.applications,
                !first ==> !all_started(old(self).session@.applications),
            decreases budget,
        {
            let count = self.session.applications.len();
            let mut blocking: Option<String> = None;
            let mut pending: Option<usize> = None;
            let mut all_settled = true;
            let mut position: usize = 0;
            while position < count
                invariant
                    count == self.session.applications@.len(),
                    position <= count,
                    pending matches Some(at) ==> at < count && self.session.applications@[at as int].state
                        == SessionApplicationState::Pending,
                    pending is None ==> forall|j: int| 0 <= j < position ==> (#[trigger] self.session.applications@[j]).state
                        != SessionApplicationState::Pending,
                    pending matches Some(at) ==> forall|j: int| 0 <= j < at ==> (#[trigger] self.session.applications@[j]).state
                        != SessionApplicationState::Pending,
                    blocking is None ==> forall|j: int| 0 <= j < position ==> !((#[trigger] self.session.applications@[j]).state
                        == SessionApplicationState::Failed && self.session.applications@[j].requirement != Some(
                        ApplicationRequirement::Optional,
                    )),
                    blocking is Some ==> exists|j: int| 0 <= j < position && !startup_settled(
                        #[trigger] self.session.applications@[j],
                    ),
                    blocking is Some ==> exists|j: int|
                        0 <= j < position && (#[trigger] self.session.applications@[j]).state == SessionApplicationState::Failed
                            && self.session.applications@[j].requirement != Some(ApplicationRequirement::Optional),
                    all_settled == forall|j: int| 0 <= j < position ==> ((#[trigger] self.session.applications@[j]).state
                        == SessionApplicationState::Running || self.session.applications@[j].state
                        == SessionApplicationState::RunningPreExisting || self.session.applications@[j].state
                        == SessionApplicationState::Failed),
                decreases count - position,
            {
                let application = &self.session.applications[position];
                if blocking.is_none() && application.state == SessionApplicationState::Failed && application.requirement
                    != Some(ApplicationRequirement::Optional) {
                    blocking = Some(application.application_id.clone());
                }
                if pending.is_none() && application.state == SessionApplicationState::Pending {
                    pending = Some(position);
                }
                if !(application.state == SessionApplicationState::Running || application.state
                    == SessionApplicationState::RunningPreExisting || application.state == SessionApplicationState::Failed) {
                    all_settled = false;
                }
                position = position + 1;
            }
            match blocking {
                Some(application_id) => {
                    proof {
                        if first {
                            assert(!all_started(old(self).session@.applications));
                        }
                    }
                    self.record_session_event(application_id.as_str(), SessionEventKind::LaunchFailed);
                    self.abort_session_startup()?;
                    return Ok(());
                },
                None => {},
            }
            let next_index = match pending {
                Some(next_index) => next_index,
                None => {
                    if all_settled {
                        self.session.state = SessionState::Active;
                        assert(all_started(self.session@.applications));
                    } else {
                        proof {
                            if first && all_started(old(self).session@.applications) {
                                assert forall|j: int| 0 <= j < count implies ((#[trigger] self.session.applications@[j]).state
                                    == SessionApplicationState::Running || self.session.applications@[j].state
                                    == SessionApplicationState::RunningPreExisting || self.session.applications@[j].state
                                    == SessionApplicationState::Failed) by {
                                    assert(startup_settled(old(self).session@.applications[j]));
                                }
                            }
                        }
                    }
                    return Ok(());
                },
            };
            proof {
                if first && all_started(old(self).session@.applications) {
                    assert(startup_settled(old(self).session@.applications[next_index as int]));
                }
            }
            let mut ready = true;
            let mut earlier: usize = 0;
            while earlier < next_index
                invariant
                    next_index < self.session.applications@.len(),
                    earlier <= next_index,
                    ready ==> forall|j: int| 0 <= j < earlier ==> startup_settled(self.session.applications@[j]),
                    !ready ==> exists|j: int| 0 <= j < earlier && !startup_settled(#[trigger] self.session.applications@[j]),
                decreases next_index - earlier,
            {
                let application = &self.session.applications[earlier];
                let settled = application.state == SessionApplicationState::Running || application.state
                    == SessionApplicationState::RunningPreExisting || (application.state == SessionApplicationState::Failed
                    && application.requirement == Some(ApplicationRequirement::Optional));
                if !settled {
                    ready = false;
                }
                earlier = earlier + 1;
            }
            if !ready || next_index >= ordered.len() {
                return Ok(());
            }
            let application = ordered[next_index].clone();
            self.prepare_elevated_session_launches(&ordered, next_index)?;
            let optional = self.session.applications[next_index].requirement == Some(ApplicationRequirement::Optional);
            proof {
                assert(optional == (self.session@.applications[next_index as int].requirement == Some(
                    ApplicationRequirement::Optional,
                )));
            }
            let ghost apps_before = self.session@.applications;
            match self.launch_or_adopt(application.id.as_str(), application.launch_recipe.clone()) {
                Ok(ownership) => {
                    let state = match ownership {
                        ProcessOwnership::SessionOwned => SessionApplicationState::Starting,
                        ProcessOwnership::PreExisting => SessionApplicationState::RunningPreExisting,
                    };
                    self.set_application_state_at(next_index, state);
                    if ownership == ProcessOwnership::SessionOwned {
                        assert(self.session@.applications[next_index as int].state == SessionApplicationState::Starting);
                        assert(!startup_settled(self.session@.applications[next_index as int]));
                        return Ok(());
                    }
                },
                Err(CoreError::ProcessRuntime(error)) => {
                    self.set_application_state_at(next_index, SessionApplicationState::Failed);
                    self.record_session_event(application.id.as_str(), SessionEventKind::LaunchFailed);
                    if !optional {
                        self.abort_session_startup()?;
                        return Ok(());
                    }
                },
                Err(error) => return Err(error),
            }
            proof {
                lemma_pending_count_leaves(apps_before, next_index as int, self.session@.applications[next_index as int]);
                assert(self.session@.applications =~= apps_before.update(
                    next_index as int,
                    self.session@.applications[next_index as int],
                ));
            }
            if budget == 0 {
                return Ok(());
            }
            budget = budget - 1;
            proof {
                first = false;
            }
        }
    }

    fn set_application_state_at(&mut self, index: usize, state: SessionApplicationState)
        ensures
            index < old(self).session@.applications.len() && state == SessionApplicationState::Failed
                && old(self).session@.applications[index as int].requirement != Some(ApplicationRequirement::Optional)
                ==> required_application_failed(final(self).session@.applications),
            final(self).requests@ == old(self).requests@,
            index < old(self).session@.applications.len() ==> final(self).session@.applications
                == old(self).session@.applications.update(
                index as int,
                SessionApplicationSnapshot { state, ..old(self).session@.applications[index as int] },
            ),
            index >= old(self).session@.applications.len() ==> final(self).session@.applications
                == old(self).session@.applications,
            final(self).session@.state == old(self).session@.state,
            final(self).session@.active_profile_id == old(self).session@.active_profile_id,
            final(self).session@.applications.len() == old(self).session@.applications.len(),
            final(self).application_processes@ == old(self).application_processes@,
            final(self).same_records(old(self)),
            final(self).pending_process_confirmation == old(self).pending_process_confirmation,
    {
        if index < self.session.applications.len() {
            let mut application = self.session.applications[index].clone();
            application.state = state;
            self.session.applications.set(index, application);
            assert(self.session@.applications[index as int].state == state);
        }
    }
}


/// Whether a result is a storage failure, the one error a journal update adds.
pub open spec fn storage_failure(result: Result<CommandOutcome, CoreError>) -> bool {
    result is Err && result->Err_0 is Storage
}

/// What `execute` promises of one command, given the Session before and after
/// and the Processes after: the transitions each command allows and what is
/// refused. A command that changed state may still fail to store the journal.
pub open spec fn command_effect(
    command: AppCommand,
    before: SessionSnapshotView,
    after: SessionSnapshotView,
    processes_after: Map<Seq<char>, ApplicationProcessSnapshot>,
    result: Result<CommandOutcome, CoreError>,
) -> bool {
    match command {
        AppCommand::RequestWindowClose => {
            &&& after.state == before.state
            &&& result is Ok ==> result->Ok_0 == (CommandOutcome::WindowCloseRequested { action: window_close_action(before.state) })
            &&& result is Err ==> storage_failure(result)
        },
        AppCommand::CloseSession => if before.state == SessionState::Active {
            &&& after.state == SessionState::Closing
            &&& result is Ok ==> result->Ok_0 is SessionCloseRequested
            &&& result is Err ==> storage_failure(result)
        } else {
            result is Err && is_transition_error(result->Err_0, before.state, "Close Session"@) && after.state == before.state
        },
        AppCommand::AcceptRecovery => if before.state == SessionState::RecoveryAvailable {
            &&& after.state == SessionState::Active
            &&& result is Ok ==> result->Ok_0 is RecoveryAccepted
            &&& result is Err ==> storage_failure(result)
        } else {
            result is Err && is_transition_error(result->Err_0, before.state, "Resume Recovery"@) && after.state == before.state
        },
        AppCommand::DismissRecovery => if before.state == SessionState::RecoveryAvailable {
            &&& after.state == SessionState::Idle
            &&& all_pre_existing(processes_after)
            &&& result is Ok ==> result->Ok_0 is RecoveryDismissed
            &&& result is Err ==> storage_failure(result)
        } else {
            result is Err && is_transition_error(result->Err_0, before.state, "Dismiss Recovery"@) && after.state == before.state
        },
        AppCommand::CancelStartup => if before.state == SessionState::Starting {
            after.state == SessionState::Cancelling || after.state == SessionState::Idle
        } else {
            result is Err && is_transition_error(result->Err_0, before.state, "Cancel Startup"@) && after.state == before.state
        },
        AppCommand::StartSession { profile_id } => {
            &&& before.state != SessionState::Idle ==> result is Err && is_transition_error(
                result->Err_0,
                before.state,
                "Start Session"@,
            ) && after == before
            &&& result is Ok ==> result->Ok_0 is SessionStartRequested || result->Ok_0 is SessionStartFailed
            &&& result matches Ok(CommandOutcome::SessionStartRequested { profile_id: started }) ==> started == profile_id
                && after.state == SessionState::Starting && after.active_profile_id == Some(profile_id)
                && startup_in_order(after.applications)
            &&& result matches Ok(CommandOutcome::SessionStartFailed { .. }) ==> after.state == SessionState::Cancelling
                || after.state == SessionState::Idle
        },
        AppCommand::TestGameLaunch { .. } => {
            &&& after == before
            &&& before.state != SessionState::Idle ==> result is Err && is_transition_error(
                result->Err_0,
                before.state,
                "Test Game Launch"@,
            )
            &&& result is Ok ==> result->Ok_0 is GameLaunchTested
        },
        AppCommand::CancelUpdateCheck { .. } => after == before && (result is Ok ==> result->Ok_0 is UpdateCheckCancelled),
        AppCommand::CancelFormationLapInstall { .. } => after == before && (result is Ok ==> result->Ok_0
            is FormationLapInstallCancelled),
        AppCommand::ExportProfile { .. } => after == before && (result is Ok ==> result->Ok_0 is ProfileExported),
        AppCommand::ExportDiagnostics => {
            &&& after == before
            &&& result is Ok ==> (result->Ok_0 matches CommandOutcome::DiagnosticsExported { diagnostics }
                && diagnostics.schema_version == 1 && diagnostics.session_state == before.state
                && !diagnostics.telemetry_upload)
        },
        AppCommand::PrepareUpdateCheck { .. } => {
            &&& after == before
            &&& result is Ok ==> (result->Ok_0 matches CommandOutcome::UpdateCheckPrepared { decision }
                && (before.state != SessionState::Idle ==> decision is Deferred))
        },
        AppCommand::PrepareFormationLapInstall => {
            &&& after == before
            &&& result is Ok ==> (result->Ok_0 matches CommandOutcome::FormationLapInstallPrepared { decision }
                && (before.state != SessionState::Idle ==> decision is Deferred))
        },
        AppCommand::RequestQuit { disposition } => match disposition {
            QuitDisposition::LeaveApplicationsRunning => {
                &&& after.state == SessionState::Idle
                &&& identified_pre_existing(processes_after)
                &&& result is Ok ==> result->Ok_0 == (CommandOutcome::QuitRequested { action: QuitAction::ExitNow })
                &&& result is Err ==> storage_failure(result)
            },
            QuitDisposition::CloseSession => {
                &&& after.state == quit_closing_session(before.state).1
                &&& result is Ok ==> result->Ok_0 == (CommandOutcome::QuitRequested { action: quit_closing_session(before.state).0 })
                &&& result is Err ==> storage_failure(result)
            },
        },
        AppCommand::CreateProfile { .. } | AppCommand::DuplicateProfile { .. } | AppCommand::SelectProfile { .. }
        | AppCommand::ImportProfile { .. } => after == before,
        AppCommand::EditProfile { profile_id, .. } => after == before && (editing_active_profile(before, profile_id@)
            ==> result is Err && is_transition_error(result->Err_0, before.state, "Edit Active Profile"@)),
        AppCommand::DeleteProfile { profile_id } => after == before && (editing_active_profile(before, profile_id@)
            ==> result is Err && is_transition_error(result->Err_0, before.state, "Edit Active Profile"@)),
        AppCommand::ApproveProfile { profile_id, .. } => after == before && (editing_active_profile(before, profile_id@)
            ==> result is Err && is_transition_error(result->Err_0, before.state, "Edit Active Profile"@)),
        AppCommand::SaveProfile { profile } => after == before && (editing_active_profile(before, profile.id@)
            ==> result is Err && is_transition_error(result->Err_0, before.state, "Edit Active Profile"@)),
        AppCommand::UpdateSettings { .. } => {
            &&& after == before
            &&& result is Ok ==> result->Ok_0 is SettingsUpdated
            &&& result is Err ==> result->Err_0 is Storage
        },
        AppCommand::CompleteUpdateCheck { .. } => {
            &&& after == before
            &&& result is Ok ==> result->Ok_0 is UpdateCheckCompleted
            &&& result is Err ==> result->Err_0 is InvalidUpdateCheck || storage_failure(result)
        },
        AppCommand::CancelProcessAction { .. } => {
            &&& after == before
            &&& result is Ok ==> result->Ok_0 is ProcessesRefreshed
            &&& result is Err ==> storage_failure(result)
        },
        AppCommand::StartApplication { application_id, .. } => {
            &&& after == before
            &&& !manual_lifecycle_available(before.state) ==> result is Err && is_transition_error(
                result->Err_0,
                before.state,
                "Start Application"@,
            )
            &&& result is Ok ==> is_start_outcome(result->Ok_0, application_id) && processes_after.contains_key(
                application_id@,
            ) && processes_after[application_id@].identity is Some && (processes_after[application_id@].ownership
                == Some(ProcessOwnership::PreExisting) <==> result->Ok_0 == (CommandOutcome::ApplicationAlreadyRunning {
                application_id,
            }))
        },
        AppCommand::ExitApplication { application_id, .. } => {
            &&& after == before
            &&& !manual_lifecycle_available(before.state) ==> result is Err && is_transition_error(
                result->Err_0,
                before.state,
                "Exit Application"@,
            )
            &&& result matches Ok(CommandOutcome::ApplicationStopped { .. }) ==> processes_after.contains_key(
                application_id@,
            ) && processes_after[application_id@].identity is None
            &&& result matches Ok(CommandOutcome::ForceStopConfirmationRequired { .. })
                ==> processes_after[application_id@].status == ProcessStatus::Stopping
        },
        AppCommand::RestartApplication { application_id, .. } => {
            &&& after == before
            &&& !manual_lifecycle_available(before.state) ==> result is Err && is_transition_error(
                result->Err_0,
                before.state,
                "Restart Application"@,
            )
            &&& result matches Ok(CommandOutcome::ApplicationRestarted { .. })
                ==> processes_after[application_id@].identity is Some
        },
        AppCommand::ForceStopApplication { .. } | AppCommand::ConfirmProcessAction { .. } => {
            &&& !(before.state == SessionState::Idle || before.state == SessionState::Active || before.state
                == SessionState::Closing) ==> result is Err && is_transition_error(
                result->Err_0,
                before.state,
                "Force Stop Application"@,
            ) && after == before
            &&& before.state != SessionState::Closing ==> after.state == before.state
        },
        AppCommand::RefreshProcesses => {
            &&& result is Ok ==> result->Ok_0 is ProcessesRefreshed
            &&& before.state == SessionState::Idle ==> after.state == SessionState::Idle
            &&& before.state == SessionState::RecoveryAvailable ==> after.state == SessionState::RecoveryAvailable
        },
    }
}

/// What `execute` promises of one command for the Racing Profiles and the
/// selection, given the Session before, the profiles before and after, and the
/// selection after: which commands add, replace or remove a profile, which
/// inputs are refused, and that no other command changes a profile.
pub open spec fn profile_effect(
    command: AppCommand,
    session: SessionSnapshotView,
    before: Seq<RacingProfileView>,
    after: Seq<RacingProfileView>,
    selected_after: Option<Seq<char>>,
    result: Result<CommandOutcome, CoreError>,
) -> bool {
    match command {
        AppCommand::CreateProfile { name, primary_sim_name } => {
            &&& names_failure(name@, primary_sim_name@) is Some ==> result is Err && is_name_error(
                result->Err_0,
                names_failure(name@, primary_sim_name@)->0,
            ) && after == before
            &&& result is Ok ==> (result->Ok_0 matches CommandOutcome::ProfileCreated { profile_id } && selected_after
                == Some(profile_id@) && exists|profile: RacingProfileView|
                created_profile(profile, name@, primary_sim_name@) && profile.id@ == profile_id@ && after
                    == #[trigger] sorted_insert(before, profile))
        },
        AppCommand::EditProfile { profile_id, name, primary_sim_name } => result is Ok ==> names_failure(
            name@,
            primary_sim_name@,
        ) is None && position_of(before, profile_id@, 0) is Some,
        AppCommand::DeleteProfile { profile_id } => {
            &&& !editing_active_profile(session, profile_id@) && !(is_canonical_uuid(profile_id@) && position_of(
                before,
                profile_id@,
                0,
            ) is Some) ==> result is Err && is_not_found(result->Err_0, profile_id@) && after == before
            &&& result is Ok ==> after == before.remove(position_of(before, profile_id@, 0)->0 as int)
        },
        AppCommand::DuplicateProfile { source_profile_id, name } => {
            &&& !(is_canonical_uuid(source_profile_id@) && position_of(before, source_profile_id@, 0) is Some) ==> result
                is Err && is_not_found(result->Err_0, source_profile_id@) && after == before
            &&& result is Ok ==> (result->Ok_0 matches CommandOutcome::ProfileCreated { profile_id } && position_of(
                before,
                source_profile_id@,
                0,
            ) is Some && exists|copy: RacingProfileView|
                #[trigger] sorted_insert(before, copy) == after && copy.id@ == profile_id@ && copy.name@ == name@
                    && portable_view(copy) == PortableView {
                    name: name@,
                    ..portable_view(before[position_of(before, source_profile_id@, 0)->0 as int])
                })
        },
        AppCommand::SaveProfile { profile } => {
            &&& names_failure(profile.name@, profile.primary_sim.name@) is Some ==> result is Err
            &&& result is Ok ==> position_of(before, profile.id@, 0) is Some && (exists|saved: RacingProfileView| {
                &&& saved_from(saved, profile@, before[position_of(before, profile.id@, 0)->0 as int])
                &&& #[trigger] sorted_insert(before.remove(position_of(before, profile.id@, 0)->0 as int), saved)
                    == after
            })
        },
        AppCommand::SelectProfile { profile_id } => {
            &&& after == before
            &&& !(is_canonical_uuid(profile_id@) && position_of(before, profile_id@, 0) is Some) ==> result == Err::<
                CommandOutcome,
                CoreError,
            >(CoreError::ProfileNotFound(profile_id))
            &&& result is Ok ==> selected_after == Some(profile_id@)
        },
        AppCommand::ImportProfile { .. } => result is Ok ==> (result->Ok_0 matches CommandOutcome::ProfileCreated {
            profile_id,
        } && exists|profile: RacingProfileView|
            #[trigger] sorted_insert(before, profile) == after && profile.id@ == profile_id@),
        AppCommand::TestGameLaunch { .. } => true,
        _ => after == before,
    }
}

/// What `execute` promises of one command for the installation lease, given
/// the Session state before and the version the lease held before and after:
/// a Ready install decision takes the lease in an Idle Session, only the
/// checked version releases it, no Session starts while it is held, and no
/// other command touches it.
pub open spec fn lease_effect(
    command: AppCommand,
    state: SessionState,
    installing_before: Option<Seq<char>>,
    installing_after: Option<Seq<char>>,
    result: Result<CommandOutcome, CoreError>,
) -> bool {
    match command {
        AppCommand::StartSession { .. } => {
            &&& installing_after == installing_before
            &&& state == SessionState::Idle && installing_before is Some ==> result is Err && result->Err_0
                is ActivityConflict
        },
        AppCommand::PrepareFormationLapInstall => {
            &&& installing_before is Some ==> installing_after == installing_before
            &&& installing_before is None && installing_after is Some ==> state == SessionState::Idle
            &&& result matches Ok(CommandOutcome::FormationLapInstallPrepared { decision }) ==> ((decision is Ready)
                <==> (installing_before is None && installing_after is Some)) && (decision matches FormationLapInstallDecision::Ready {
                latest_version,
            } ==> installing_after == Some(latest_version@))
        },
        AppCommand::CancelFormationLapInstall { expected_version } => if installing_before == Some(expected_version@) {
            installing_after is None
        } else {
            result is Err && result->Err_0 is InvalidUpdateCheck && installing_after == installing_before
        },
        _ => installing_after == installing_before,
    }
}

/// Whether a command would change the profile of a running Session.
pub open spec fn editing_active_profile(session: SessionSnapshotView, profile_id: Seq<char>) -> bool {
    session.state != SessionState::Idle && session.active_profile_id is Some && session.active_profile_id->0@ == profile_id
}

/// Whether applications may be started, stopped or restarted by hand.
pub open spec fn manual_lifecycle_available(state: SessionState) -> bool {
    state == SessionState::Idle || state == SessionState::Active
}

impl<R: ProcessRuntime, B: PrivilegeBroker, H: CoreHost> FormationLapCore<R, B, H> {
    /// Creates a Racing Profile and selects it; a failed selection discards it.
    fn create_profile(&mut self, name: String, primary_sim_name: String) -> (res: Result<CommandOutcome, CoreError>)
        ensures
            final(self).formation_lap_installing == old(self).formation_lap_installing,
            final(self).session@ == old(self).session@,
            final(self).application_processes@ == old(self).application_processes@,
            names_failure(name@, primary_sim_name@) is Some ==> res is Err && is_name_error(
                res->Err_0,
                names_failure(name@, primary_sim_name@)->0,
            ) && final(self).profile_library@ == old(self).profile_library@,
            res is Ok ==> (res->Ok_0 matches CommandOutcome::ProfileCreated { profile_id } && exists|profile: RacingProfileView|
                created_profile(profile, name@, primary_sim_name@) && profile.id@ == profile_id@
                    && final(self).profile_library@ == #[trigger] sorted_insert(old(self).profile_library@, profile)
                    && final(self).settings_store@.selected_profile_id == Some(profile_id@)),
    {
        let profile_id = self.profile_library.create(name, primary_sim_name, &mut self.host)?;
        match self.settings_store.select_profile(profile_id.clone(), &mut self.host) {
            Ok(()) => Ok(CommandOutcome::ProfileCreated { profile_id }),
            Err(error) => {
                let _ = self.profile_library.delete(profile_id.as_str(), &mut self.host);
                Err(error)
            },
        }
    }

    /// Renames a Racing Profile and its Primary Sim.
    fn edit_profile(&mut self, profile_id: String, name: String, primary_sim_name: String) -> (res: Result<CommandOutcome, CoreError>)
        ensures
            final(self).formation_lap_installing == old(self).formation_lap_installing,
            final(self).session@ == old(self).session@,
            final(self).application_processes@ == old(self).application_processes@,
            editing_active_profile(old(self).session@, profile_id@) ==> res is Err && is_transition_error(
                res->Err_0,
                old(self).session@.state,
                "Edit Active Profile"@,
            ) && final(self).profile_library@ == old(self).profile_library@,
            res is Err ==> final(self).profile_library@ == old(self).profile_library@,
            res is Ok ==> res->Ok_0 == (CommandOutcome::ProfileUpdated { profile_id }) && position_of(
                old(self).profile_library@,
                profile_id@,
                0,
            ) is Some && names_failure(name@, primary_sim_name@) is None,
    {
        self.ensure_active_profile_is_editable(profile_id.as_str())?;
        self.profile_library.edit(profile_id.as_str(), name, primary_sim_name, &mut self.host)?;
        Ok(CommandOutcome::ProfileUpdated { profile_id })
    }

    /// Deletes a Racing Profile that no running Session uses.
    fn delete_profile(&mut self, profile_id: String) -> (res: Result<CommandOutcome, CoreError>)
        ensures
            final(self).formation_lap_installing == old(self).formation_lap_installing,
            final(self).session@ == old(self).session@,
            final(self).application_processes@ == old(self).application_processes@,
            editing_active_profile(old(self).session@, profile_id@) ==> res is Err && is_transition_error(
                res->Err_0,
                old(self).session@.state,
                "Edit Active Profile"@,
            ),
            res is Err ==> final(self).profile_library@ == old(self).profile_library@,
            !editing_active_profile(old(self).session@, profile_id@) && !(is_canonical_uuid(profile_id@)
                && position_of(old(self).profile_library@, profile_id@, 0) is Some) ==> res is Err && is_not_found(
                res->Err_0,
                profile_id@,
            ),
            res is Ok ==> res->Ok_0 == (CommandOutcome::ProfileDeleted { profile_id }) && final(self).profile_library@
                == old(self).profile_library@.remove(position_of(old(self).profile_library@, profile_id@, 0)->0 as int),
    {
        self.ensure_active_profile_is_editable(profile_id.as_str())?;
        self.profile_library.delete(profile_id.as_str(), &mut self.host)?;
        Ok(CommandOutcome::ProfileDeleted { profile_id })
    }

    /// Copies a Racing Profile under a new name.
    fn duplicate_profile(&mut self, source_profile_id: String, name: String) -> (res: Result<CommandOutcome, CoreError>)
        ensures
            final(self).formation_lap_installing == old(self).formation_lap_installing,
            final(self).session@ == old(self).session@,
            final(self).application_processes@ == old(self).application_processes@,
            res is Err ==> final(self).profile_library@ == old(self).profile_library@,
            !(is_canonical_uuid(source_profile_id@) && position_of(old(self).profile_library@, source_profile_id@, 0) is Some)
                ==> res is Err && is_not_found(res->Err_0, source_profile_id@),
            res is Ok ==> (res->Ok_0 matches CommandOutcome::ProfileCreated { profile_id } && position_of(
                old(self).profile_library@,
                source_profile_id@,
                0,
            ) is Some && ({
                let source = old(self).profile_library@[position_of(old(self).profile_library@, source_profile_id@, 0)->0 as int];
                exists|copy: RacingProfileView| {
                    &&& #[trigger] sorted_insert(old(self).profile_library@, copy) == final(self).profile_library@
                    &&& copy.id@ == profile_id@
                    &&& copy.name@ == name@
                    &&& portable_view(copy) == PortableView { name: name@, ..portable_view(source) }
                }
            })),
    {
        let profile_id = self.profile_library.duplicate(source_profile_id.as_str(), name, &mut self.host)?;
        Ok(CommandOutcome::ProfileCreated { profile_id })
    }

    /// Saves an edited Racing Profile that no running Session uses.
    fn save_profile(&mut self, profile: RacingProfile) -> (res: Result<CommandOutcome, CoreError>)
        ensures
            final(self).formation_lap_installing == old(self).formation_lap_installing,
            names_failure(profile.name@, profile.primary_sim.name@) is Some ==> res is Err,
            final(self).session@ == old(self).session@,
            final(self).application_processes@ == old(self).application_processes@,
            editing_active_profile(old(self).session@, profile.id@) ==> res is Err && is_transition_error(
                res->Err_0,
                old(self).session@.state,
                "Edit Active Profile"@,
            ),
            res is Err ==> final(self).profile_library@ == old(self).profile_library@,
            res is Ok ==> res->Ok_0 == (CommandOutcome::ProfileUpdated { profile_id: profile.id }) && position_of(
                old(self).profile_library@,
                profile.id@,
                0,
            ) is Some && (exists|saved: RacingProfileView| {
                &&& saved_from(saved, profile@, old(self).profile_library@[position_of(old(self).profile_library@, profile.id@, 0)->0 as int])
                &&& #[trigger] sorted_insert(
                    old(self).profile_library@.remove(position_of(old(self).profile_library@, profile.id@, 0)->0 as int),
                    saved,
                ) == final(self).profile_library@
            }),
    {
        let profile_id = profile.id.clone();
        self.ensure_active_profile_is_editable(profile_id.as_str())?;
        self.profile_library.save(profile, &mut self.host)?;
        Ok(CommandOutcome::ProfileUpdated { profile_id })
    }

    /// Selects a stored Racing Profile.
    fn select_profile(&mut self, profile_id: String) -> (res: Result<CommandOutcome, CoreError>)
        ensures
            final(self).formation_lap_installing == old(self).formation_lap_installing,
            final(self).session@ == old(self).session@,
            final(self).application_processes@ == old(self).application_processes@,
            final(self).profile_library@ == old(self).profile_library@,
            !(is_canonical_uuid(profile_id@) && position_of(old(self).profile_library@, profile_id@, 0) is Some)
                ==> res == Err::<CommandOutcome, CoreError>(CoreError::ProfileNotFound(profile_id)),
            res is Err ==> final(self).settings_store@ == old(self).settings_store@,
            res is Ok ==> res->Ok_0 == (CommandOutcome::ProfileSelected { profile_id })
                && final(self).settings_store@.selected_profile_id == Some(profile_id@),
            is_canonical_uuid(profile_id@) && position_of(old(self).profile_library@, profile_id@, 0) is Some
                ==> res is Ok || res->Err_0 is Storage,
    {
        if !self.profile_library.contains(profile_id.as_str()) {
            return Err(CoreError::ProfileNotFound(profile_id));
        }
        self.settings_store.select_profile(profile_id.clone(), &mut self.host)?;
        Ok(CommandOutcome::ProfileSelected { profile_id })
    }

    /// The portable document of a Racing Profile.
    fn export_profile(&mut self, profile_id: String) -> (res: Result<CommandOutcome, CoreError>)
        ensures
            final(self).formation_lap_installing == old(self).formation_lap_installing,
            final(self).session@ == old(self).session@,
            final(self).application_processes@ == old(self).application_processes@,
            final(self).profile_library@ == old(self).profile_library@,
            final(self).settings_store@ == old(self).settings_store@,
            position_of(old(self).profile_library@, profile_id@, 0) is None ==> res is Err && is_not_found(
                res->Err_0,
                profile_id@,
            ),
            res is Ok ==> res->Ok_0 is ProfileExported,
    {
        let portable = self.profile_library.portable(profile_id.as_str())?;
        match self.host.encode_portable_profile(&portable) {
            Ok(document) => Ok(CommandOutcome::ProfileExported { document }),
            Err(message) => Err(CoreError::InvalidProfileDocument(message)),
        }
    }

    /// Imports a portable Racing Profile document as a new profile.
    fn import_profile(&mut self, document: String) -> (res: Result<CommandOutcome, CoreError>)
        ensures
            final(self).formation_lap_installing == old(self).formation_lap_installing,
            final(self).session@ == old(self).session@,
            final(self).application_processes@ == old(self).application_processes@,
            final(self).settings_store@ == old(self).settings_store@,
            res is Err ==> final(self).profile_library@ == old(self).profile_library@,
            res is Err ==> res->Err_0 is InvalidProfileDocument || res->Err_0 is UnsupportedProfileSchema
                || res->Err_0 is InvalidProfileName || res->Err_0 is Storage,
            res is Ok ==> (res->Ok_0 matches CommandOutcome::ProfileCreated { profile_id } && exists|profile: RacingProfileView|
                #[trigger] sorted_insert(old(self).profile_library@, profile) == final(self).profile_library@
                    && profile.id@ == profile_id@),
            res matches Ok(CommandOutcome::ProfileCreated { profile_id }) ==> final(self).needs_review(profile_id@),
    {
        let portable = match self.host.decode_portable_profile(document.as_str()) {
            Ok(portable) => portable,
            Err(message) => return Err(CoreError::InvalidProfileDocument(message)),
        };
        let ghost document = crate::profile_library::portable_document_view(portable);
        let ghost before = self.profile_library@;
        let profile_id = self.profile_library.import(portable, &mut self.host)?;
        proof {
            let profile = choose|profile: RacingProfileView| {
                &&& crate::profile_library::imported_from(profile, document)
                &&& profile.id@ == profile_id@
                &&& #[trigger] sorted_insert(before, profile) == self.profile_library@
            };
            crate::profile_library::lemma_sorted_insert_found(before, profile);
        }
        Ok(CommandOutcome::ProfileCreated { profile_id })
    }

    /// Records the user's review and approval of a Racing Profile.
    fn approve_profile(
        &mut self,
        profile_id: String,
        configuration_reviewed: bool,
        approved_privileged_application_ids: Vec<String>,
    ) -> (res: Result<CommandOutcome, CoreError>)
        ensures
            final(self).formation_lap_installing == old(self).formation_lap_installing,
            final(self).session@ == old(self).session@,
            final(self).application_processes@ == old(self).application_processes@,
            final(self).profile_library@ == old(self).profile_library@,
            final(self).settings_store@ == old(self).settings_store@,
            editing_active_profile(old(self).session@, profile_id@) ==> res is Err && is_transition_error(
                res->Err_0,
                old(self).session@.state,
                "Edit Active Profile"@,
            ),
            !editing_active_profile(old(self).session@, profile_id@) && !(is_canonical_uuid(profile_id@)
                && position_of(old(self).profile_library@, profile_id@, 0) is Some) ==> res is Err && is_not_found(
                res->Err_0,
                profile_id@,
            ),
            !editing_active_profile(old(self).session@, profile_id@) && is_canonical_uuid(profile_id@) && position_of(
                old(self).profile_library@,
                profile_id@,
                0,
            ) is Some && !configuration_reviewed ==> res is Err && res->Err_0 is InvalidProfileApproval,
            res is Ok ==> res->Ok_0 == (CommandOutcome::ProfileUpdated { profile_id }) && configuration_reviewed
                && forall|i: int| 0 <= i < approved_privileged_application_ids@.len()
                    ==> final(self).profile_library.approved(profile_id@, (#[trigger] approved_privileged_application_ids@[i])@),
    {
        self.ensure_active_profile_is_editable(profile_id.as_str())?;
        self.profile_library.approve(profile_id.as_str(), configuration_reviewed, &approved_privileged_application_ids)?;
        Ok(CommandOutcome::ProfileUpdated { profile_id })
    }

    /// Replaces the desktop preferences.
    fn update_settings(&mut self, settings: DesktopSettings) -> (res: Result<CommandOutcome, CoreError>)
        ensures
            final(self).formation_lap_installing == old(self).formation_lap_installing,
            final(self).session@ == old(self).session@,
            final(self).application_processes@ == old(self).application_processes@,
            final(self).profile_library@ == old(self).profile_library@,
            res is Ok ==> res->Ok_0 is SettingsUpdated && final(self).settings_store@.desktop == settings,
            res is Err ==> res->Err_0 is Storage && final(self).settings_store@ == old(self).settings_store@,
    {
        self.settings_store.update_desktop(settings, &mut self.host)?;
        Ok(CommandOutcome::SettingsUpdated)
    }
}

/// Whether a Process has been detached, or is left alone for want of an identity.
pub open spec fn detached(process: ApplicationProcessSnapshot, only_identified: bool) -> bool {
    (only_identified && process.identity is None) || (process.ownership == Some(ProcessOwnership::PreExisting)
        && process.status == ProcessStatus::RunningPreExisting)
}

/// Whether a key occurs among the first `count` keys of an order.
pub open spec fn listed_before(order: Seq<Seq<char>>, key: Seq<char>, count: int) -> bool {
    exists|i: int| 0 <= i < count && #[trigger] order[i] == key
}

impl<R: ProcessRuntime, B: PrivilegeBroker, H: CoreHost> FormationLapCore<R, B, H> {
    /// Marks recorded Processes as found running, all of them or only those
    /// with an identity, so that nothing stops them later.
    fn detach_processes(&mut self, only_identified: bool)
        ensures
            final(self).requests@ == old(self).requests@,
            final(self).session@ == old(self).session@,
            final(self).same_records(old(self)),
            final(self).pending_process_confirmation == old(self).pending_process_confirmation,
            final(self).application_processes@.dom() == old(self).application_processes@.dom(),
            only_identified ==> identified_pre_existing(final(self).application_processes@),
            !only_identified ==> all_pre_existing(final(self).application_processes@),
    {
        let count = self.application_processes.len();
        let mut index: usize = 0;
        while index < count
            invariant
                self.requests@ == old(self).requests@,
                count == self.application_processes.key_order().len(),
                index <= count,
                self.application_processes.key_order() == old(self).application_processes.key_order(),
                self.application_processes@.dom() == old(self).application_processes@.dom(),
                forall|key: Seq<char>| #[trigger] old(self).application_processes@.contains_key(key) <==> listed_before(
                    old(self).application_processes.key_order(),
                    key,
                    count as int,
                ),
                forall|key: Seq<char>| #[trigger] self.application_processes@.contains_key(key) && listed_before(
                    self.application_processes.key_order(),
                    key,
                    index as int,
                ) ==> detached(self.application_processes@[key], only_identified),
                self.session@ == old(self).session@,
                self.same_records(old(self)),
                self.pending_process_confirmation == old(self).pending_process_confirmation,
            decreases count - index,
        {
            let ghost before = self.application_processes@;
            let ghost order = self.application_processes.key_order();
            let current = self.application_processes.value_at(index);
            if !only_identified || current.identity.is_some() {
                let mut process = current.clone();
                process.ownership = Some(ProcessOwnership::PreExisting);
                process.status = ProcessStatus::RunningPreExisting;
                self.application_processes.set_at(index, process);
            }
            proof {
                assert forall|key: Seq<char>| #[trigger] self.application_processes@.contains_key(key) && listed_before(
                    order,
                    key,
                    index + 1,
                ) implies detached(self.application_processes@[key], only_identified) by {
                    if key != order[index as int] {
                        let i = choose|i: int| 0 <= i < index + 1 && #[trigger] order[i] == key;
                        assert(i != index);
                        assert(listed_before(order, key, index as int));
                        assert(before.contains_key(key));
                    }
                }
            }
            index = index + 1;
        }
        proof {
            assert forall|key: Seq<char>| #[trigger] self.application_processes@.contains_key(key) implies detached(
                self.application_processes@[key],
                only_identified,
            ) by {
                assert(old(self).application_processes@.contains_key(key));
                assert(listed_before(self.application_processes.key_order(), key, count as int));
            }
        }
    }

    /// Every Session application is left running without Formation Lap.
    fn detach_session_applications(&mut self)
        ensures
            final(self).requests@ == old(self).requests@,
            final(self).session@.state == old(self).session@.state,
            final(self).session@.active_profile_id == old(self).session@.active_profile_id,
            final(self).session@.applications.len() == old(self).session@.applications.len(),
            forall|i: int| 0 <= i < old(self).session@.applications.len() ==> #[trigger] final(self).session@.applications[i]
                == (SessionApplicationSnapshot { state: SessionApplicationState::Detached, ..old(self).session@.applications[i] }),
            final(self).application_processes@ == old(self).application_processes@,
            final(self).same_records(old(self)),
            final(self).pending_process_confirmation == old(self).pending_process_confirmation,
    {
        let mut position: usize = 0;
        while position < self.session.applications.len()
            invariant
                self.requests@ == old(self).requests@,
                position <= self.session.applications@.len(),
                self.session@.state == old(self).session@.state,
                self.session@.active_profile_id == old(self).session@.active_profile_id,
                self.session@.applications.len() == old(self).session@.applications.len(),
                forall|i: int| 0 <= i < position ==> #[trigger] self.session@.applications[i] == (SessionApplicationSnapshot {
                    state: SessionApplicationState::Detached,
                    ..old(self).session@.applications[i]
                }),
                forall|i: int| position <= i < self.session@.applications.len() ==> #[trigger] self.session@.applications[i]
                    == old(self).session@.applications[i],
                self.application_processes@ == old(self).application_processes@,
                self.same_records(old(self)),
                self.pending_process_confirmation == old(self).pending_process_confirmation,
            decreases self.session.applications@.len() - position,
        {
            self.set_application_state_at(position, SessionApplicationState::Detached);
            position = position + 1;
        }
    }

    /// Begins closing an Active Session.
    fn close_session(&mut self) -> (res: Result<CommandOutcome, CoreError>)
        requires
            session_consistent(old(self).session@),
        ensures
            session_consistent(final(self).session@),
            final(self).application_processes@ == old(self).application_processes@,
            final(self).same_records(old(self)),
            old(self).session@.state == SessionState::Active ==> final(self).session@.state == SessionState::Closing
                && res == Ok::<CommandOutcome, CoreError>(CommandOutcome::SessionCloseRequested),
            old(self).session@.state != SessionState::Active ==> res is Err && is_transition_error(
                res->Err_0,
                old(self).session@.state,
                "Close Session"@,
            ) && final(self).session@ == old(self).session@,
    {
        self.pending_process_confirmation = None;
        if self.session.state != SessionState::Active {
            return Err(transition_error(self.session.state, "Close Session"));
        }
        self.session.state = SessionState::Closing;
        Ok(CommandOutcome::SessionCloseRequested)
    }

    /// Resumes a recovered Session.
    fn accept_recovery(&mut self) -> (res: Result<CommandOutcome, CoreError>)
        requires
            session_consistent(old(self).session@),
        ensures
            final(self).requests@ == old(self).requests@,
            session_consistent(final(self).session@),
            final(self).application_processes@ == old(self).application_processes@,
            final(self).same_records(old(self)),
            old(self).session@.state == SessionState::RecoveryAvailable ==> final(self).session@.state
                == SessionState::Active && res == Ok::<CommandOutcome, CoreError>(CommandOutcome::RecoveryAccepted),
            old(self).session@.state != SessionState::RecoveryAvailable ==> res is Err && is_transition_error(
                res->Err_0,
                old(self).session@.state,
                "Resume Recovery"@,
            ) && final(self).session@ == old(self).session@,
    {
        if self.session.state != SessionState::RecoveryAvailable {
            return Err(transition_error(self.session.state, "Resume Recovery"));
        }
        self.session.state = SessionState::Active;
        Ok(CommandOutcome::RecoveryAccepted)
    }

    /// Leaves a recovered Session's Processes running and ends the Session.
    fn dismiss_recovery(&mut self) -> (res: Result<CommandOutcome, CoreError>)
        requires
            session_consistent(old(self).session@),
        ensures
            final(self).requests@ == old(self).requests@,
            session_consistent(final(self).session@),
            final(self).same_records(old(self)),
            old(self).session@.state == SessionState::RecoveryAvailable ==> final(self).session@.state
                == SessionState::Idle && all_pre_existing(final(self).application_processes@)
                && final(self).application_processes@.dom() == old(self).application_processes@.dom()
                && res == Ok::<CommandOutcome, CoreError>(CommandOutcome::RecoveryDismissed),
            old(self).session@.state != SessionState::RecoveryAvailable ==> res is Err && is_transition_error(
                res->Err_0,
                old(self).session@.state,
                "Dismiss Recovery"@,
            ) && final(self).session@ == old(self).session@ && final(self).application_processes@
                == old(self).application_processes@,
    {
        if self.session.state != SessionState::RecoveryAvailable {
            return Err(transition_error(self.session.state, "Dismiss Recovery"));
        }
        self.detach_processes(false);
        self.detach_session_applications();
        self.finish_session();
        Ok(CommandOutcome::RecoveryDismissed)
    }

    /// Cancels a Session that is starting.
    fn cancel_startup(&mut self) -> (res: Result<CommandOutcome, CoreError>)
        requires
            session_consistent(old(self).session@),
        ensures
            session_consistent(final(self).session@),
            final(self).same_records(old(self)),
            old(self).session@.state == SessionState::Starting ==> final(self).session@.state
                == SessionState::Cancelling || final(self).session@.state == SessionState::Idle,
            old(self).session@.state == SessionState::Starting && res is Ok ==> res->Ok_0
                is SessionCancellationRequested,
            old(self).session@.state != SessionState::Starting ==> res is Err && is_transition_error(
                res->Err_0,
                old(self).session@.state,
                "Cancel Startup"@,
            ) && final(self).session@ == old(self).session@ && final(self).application_processes@
                == old(self).application_processes@,
    {
        self.pending_process_confirmation = None;
        if self.session.state != SessionState::Starting {
            return Err(transition_error(self.session.state, "Cancel Startup"));
        }
        self.session.state = SessionState::Cancelling;
        self.advance_session_cancellation()?;
        Ok(CommandOutcome::SessionCancellationRequested)
    }

    /// Applies the Quit disposition the user chose.
    fn request_quit(&mut self, disposition: QuitDisposition) -> (res: Result<CommandOutcome, CoreError>)
        requires
            session_consistent(old(self).session@),
        ensures
            session_consistent(final(self).session@),
            final(self).same_records(old(self)),
            disposition == QuitDisposition::LeaveApplicationsRunning ==> final(self).session@.state
                == SessionState::Idle && identified_pre_existing(final(self).application_processes@)
                && final(self).application_processes@.dom() == old(self).application_processes@.dom()
                && res == Ok::<CommandOutcome, CoreError>(CommandOutcome::QuitRequested { action: QuitAction::ExitNow }),
            disposition == QuitDisposition::CloseSession ==> final(self).session@.state == quit_closing_session(
                old(self).session@.state,
            ).1 && final(self).application_processes@ == old(self).application_processes@ && res == Ok::<
                CommandOutcome,
                CoreError,
            >(CommandOutcome::QuitRequested { action: quit_closing_session(old(self).session@.state).0 }),
    {
        let action = match disposition {
            QuitDisposition::LeaveApplicationsRunning => {
                self.detach_processes(true);
                self.detach_session_applications();
                self.finish_session();
                QuitAction::ExitNow
            },
            QuitDisposition::CloseSession => match self.session.state {
                SessionState::Idle => QuitAction::ExitNow,
                SessionState::Starting => {
                    self.session.state = SessionState::Cancelling;
                    QuitAction::WaitForSessionClose
                },
                SessionState::Active | SessionState::RecoveryAvailable => {
                    self.session.state = SessionState::Closing;
                    QuitAction::WaitForSessionClose
                },
                SessionState::Cancelling | SessionState::Closing => QuitAction::WaitForSessionClose,
            },
        };
        Ok(CommandOutcome::QuitRequested { action })
    }

    /// What closing the main window does now.
    fn request_window_close(&self) -> (res: CommandOutcome)
        ensures
            res == (CommandOutcome::WindowCloseRequested { action: window_close_action(self.session@.state) }),
    {
        let action = match self.session.state {
            SessionState::Starting | SessionState::Cancelling | SessionState::Active | SessionState::Closing => {
                WindowCloseAction::HideToTray
            },
            SessionState::Idle | SessionState::RecoveryAvailable => WindowCloseAction::Exit,
        };
        CommandOutcome::WindowCloseRequested { action }
    }

    /// Accepts the result of the pending update check.
    fn complete_update_check(&mut self, result: UpdateCheckResult) -> (res: Result<CommandOutcome, CoreError>)
        ensures
            final(self).session@ == old(self).session@,
            final(self).application_processes@ == old(self).application_processes@,
            final(self).profile_library@ == old(self).profile_library@,
            final(self).settings_store@ == old(self).settings_store@,
            final(self).formation_lap_installing == old(self).formation_lap_installing,
            res is Ok <==> old(self).update_advisor@.pending_request_id == Some(result.request_id@),
            res is Ok ==> res->Ok_0 is UpdateCheckCompleted,
            res is Err ==> res->Err_0 is InvalidUpdateCheck && final(self).update_advisor@ == old(self).update_advisor@,
    {
        match self.update_advisor.complete_check(result, self.session.state) {
            Ok(()) => Ok(CommandOutcome::UpdateCheckCompleted),
            Err(message) => Err(CoreError::InvalidUpdateCheck(message)),
        }
    }

    /// Forgets the pending update check with this id.
    fn cancel_update_check(&mut self, request_id: String) -> (res: Result<CommandOutcome, CoreError>)
        ensures
            final(self).session@ == old(self).session@,
            final(self).application_processes@ == old(self).application_processes@,
            final(self).profile_library@ == old(self).profile_library@,
            final(self).settings_store@ == old(self).settings_store@,
            final(self).formation_lap_installing == old(self).formation_lap_installing,
            res is Ok <==> old(self).update_advisor@.pending_request_id == Some(request_id@),
            res is Ok ==> res->Ok_0 is UpdateCheckCancelled && final(self).update_advisor@.pending_request_id is None,
            res is Err ==> res->Err_0 is InvalidUpdateCheck && final(self).update_advisor@ == old(self).update_advisor@,
    {
        if !self.update_advisor.cancel_check(request_id.as_str()) {
            return Err(CoreError::InvalidUpdateCheck(
                String::from_str("the cancelled update check does not match the pending request"),
            ));
        }
        Ok(CommandOutcome::UpdateCheckCancelled)
    }

    /// Takes the installation lease when a checked update may be installed.
    fn prepare_formation_lap_install(&mut self) -> (res: Result<CommandOutcome, CoreError>)
        ensures
            final(self).session@ == old(self).session@,
            final(self).application_processes@ == old(self).application_processes@,
            final(self).profile_library@ == old(self).profile_library@,
            final(self).settings_store@ == old(self).settings_store@,
            final(self).update_advisor@ == old(self).update_advisor@,
            res matches Ok(CommandOutcome::FormationLapInstallPrepared { decision }) && (old(self).formation_lap_installing
                is Some ==> decision is Deferred && final(self).formation_lap_installing == old(self).formation_lap_installing)
                && (old(self).formation_lap_installing is None && old(self).session@.state != SessionState::Idle
                ==> decision is Deferred && final(self).formation_lap_installing is None)
                && (decision matches FormationLapInstallDecision::Ready { latest_version } ==> old(self).formation_lap_installing
                is None && final(self).formation_lap_installing == Some(latest_version))
                && (!(decision is Ready) ==> final(self).formation_lap_installing == old(self).formation_lap_installing)
                && (old(self).formation_lap_installing is None && old(self).session@.state == SessionState::Idle ==> match old(self).update_advisor@.visible.formation_lap {
                crate::model::UpdateStatus::UpdateAvailable { latest_version, .. } => decision matches FormationLapInstallDecision::Ready {
                    latest_version: ready,
                } && ready@ == latest_version@,
                _ => decision is NoUpdate,
            }),
    {
        let decision = if self.formation_lap_installing.is_some() {
            FormationLapInstallDecision::Deferred
        } else {
            self.update_advisor.prepare_formation_lap_install(self.session.state)
        };
        match &decision {
            FormationLapInstallDecision::Ready { latest_version } => {
                self.formation_lap_installing = Some(latest_version.clone());
            },
            _ => {},
        }
        Ok(CommandOutcome::FormationLapInstallPrepared { decision })
    }

    /// Releases the installation lease of the checked version.
    fn cancel_formation_lap_install(&mut self, expected_version: String) -> (res: Result<CommandOutcome, CoreError>)
        ensures
            final(self).session@ == old(self).session@,
            final(self).application_processes@ == old(self).application_processes@,
            final(self).profile_library@ == old(self).profile_library@,
            final(self).settings_store@ == old(self).settings_store@,
            final(self).update_advisor@ == old(self).update_advisor@,
            res is Ok <==> old(self).installing() == Some(expected_version@),
            res is Ok ==> res->Ok_0 is FormationLapInstallCancelled && final(self).formation_lap_installing is None,
            res is Err ==> res->Err_0 is InvalidUpdateCheck && final(self).formation_lap_installing
                == old(self).formation_lap_installing,
    {
        let matches = match &self.formation_lap_installing {
            Some(version) => same_text(version.as_str(), expected_version.as_str()),
            None => false,
        };
        if !matches {
            return Err(CoreError::InvalidUpdateCheck(
                String::from_str("the update install lease does not match the checked version"),
            ));
        }
        self.formation_lap_installing = None;
        Ok(CommandOutcome::FormationLapInstallCancelled)
    }
}

/// Whether a command's outcome reports one of two outcomes for an application.
pub open spec fn is_start_outcome(outcome: CommandOutcome, application_id: String) -> bool {
    outcome == (CommandOutcome::ApplicationStartRequested { application_id }) || outcome
        == (CommandOutcome::ApplicationAlreadyRunning { application_id })
}

impl<R: ProcessRuntime, B: PrivilegeBroker, H: CoreHost> FormationLapCore<R, B, H> {
    /// The profile application with this id; the Primary Sim with its
    /// Curated Catalog recipe.
    fn profile_application(&mut self, profile: &RacingProfile, application_id: &str) -> (res: Result<ProfileApplication, CoreError>)
        ensures
            final(self).session@ == old(self).session@,
            final(self).same_records(old(self)),
            final(self).application_processes@ == old(self).application_processes@,
            final(self).pending_process_confirmation == old(self).pending_process_confirmation,
            res is Ok ==> res->Ok_0.id@ == application_id@,
            profile.primary_sim.id@ == application_id@ ==> (res is Err ==> res->Err_0 is InvalidLaunchRecipe),
            profile.primary_sim.id@ != application_id@ ==> match first_supporting_with_id(
                profile.supporting_applications@,
                application_id@,
            ) {
                Some(index) => res is Ok && res->Ok_0@ == profile.supporting_applications@[index].application@,
                None => res is Err && (res->Err_0 matches CoreError::ApplicationNotFound(id) && id@ == application_id@),
            },
    {
        if same_text(profile.primary_sim.id.as_str(), application_id) {
            return self.resolved_primary_sim(profile);
        }
        let mut index: usize = 0;
        while index < profile.supporting_applications.len()
            invariant
                index <= profile.supporting_applications@.len(),
                forall|earlier: int| 0 <= earlier < index ==> (#[trigger] profile.supporting_applications@[earlier]).application.id@
                    != application_id@,
                self.session@ == old(self).session@,
                self.same_records(old(self)),
                self.application_processes@ == old(self).application_processes@,
                self.pending_process_confirmation == old(self).pending_process_confirmation,
            decreases profile.supporting_applications@.len() - index,
        {
            let application = &profile.supporting_applications[index].application;
            if same_text(application.id.as_str(), application_id) {
                proof {
                    lemma_first_supporting_with_id(profile.supporting_applications@, application_id@, index as int);
                }
                return Ok(application.clone());
            }
            index = index + 1;
        }
        proof {
            lemma_no_supporting_with_id(profile.supporting_applications@, application_id@);
        }
        Err(CoreError::ApplicationNotFound(application_id.to_string()))
    }

    /// Starts one application of a profile by hand, or adopts its running Process.
    fn start_application(&mut self, profile_id: String, application_id: String) -> (res: Result<CommandOutcome, CoreError>)
        ensures
            final(self).session@ == old(self).session@,
            final(self).same_records(old(self)),
            !manual_lifecycle_available(old(self).session@.state) ==> res is Err && is_transition_error(
                res->Err_0,
                old(self).session@.state,
                "Start Application"@,
            ) && final(self).application_processes@ == old(self).application_processes@,
            manual_lifecycle_available(old(self).session@.state) && position_of(old(self).profile_library@, profile_id@, 0)
                is None ==> res == Err::<CommandOutcome, CoreError>(CoreError::ProfileNotFound(profile_id)),
            res is Ok ==> is_start_outcome(res->Ok_0, application_id) && final(self).application_processes@.contains_key(
                application_id@,
            ) && final(self).application_processes@[application_id@].identity is Some && (final(self).application_processes@[application_id@].ownership == Some(ProcessOwnership::PreExisting) <==> res->Ok_0
                == (CommandOutcome::ApplicationAlreadyRunning { application_id })),
    {
        self.ensure_manual_lifecycle_is_available("Start Application")?;
        let profile = match self.profile_library.profile(profile_id.as_str()) {
            Some(profile) => profile,
            None => return Err(CoreError::ProfileNotFound(profile_id)),
        };
        let application = self.profile_application(&profile, application_id.as_str())?;
        let ownership = self.launch_or_adopt(application_id.as_str(), application.launch_recipe)?;
        Ok(
            if ownership == ProcessOwnership::PreExisting {
                CommandOutcome::ApplicationAlreadyRunning { application_id }
            } else {
                CommandOutcome::ApplicationStartRequested { application_id }
            },
        )
    }

    /// Asks an application to exit; asks for confirmation first when it was
    /// found running, and before a force stop when it does not exit.
    fn exit_application(&mut self, application_id: String, pre_existing_confirmed: bool) -> (res: Result<CommandOutcome, CoreError>)
        ensures
            final(self).session@ == old(self).session@,
            final(self).same_records(old(self)),
            !manual_lifecycle_available(old(self).session@.state) ==> res is Err && is_transition_error(
                res->Err_0,
                old(self).session@.state,
                "Exit Application"@,
            ) && final(self).application_processes@ == old(self).application_processes@,
            manual_lifecycle_available(old(self).session@.state) && !old(self).application_processes@.contains_key(
                application_id@,
            ) ==> res == Err::<CommandOutcome, CoreError>(CoreError::ApplicationNotFound(application_id))
                && final(self).application_processes@ == old(self).application_processes@,
            manual_lifecycle_available(old(self).session@.state) && old(self).application_processes@.contains_key(
                application_id@,
            ) && old(self).application_processes@[application_id@].ownership == Some(ProcessOwnership::PreExisting)
                && !pre_existing_confirmed ==> res == Ok::<CommandOutcome, CoreError>(
                CommandOutcome::PreExistingControlConfirmationRequired { application_id },
            ) && final(self).application_processes@ == old(self).application_processes@,
            res matches Ok(CommandOutcome::ApplicationStopped { .. }) ==> final(self).application_processes@.contains_key(
                application_id@,
            ) && final(self).application_processes@[application_id@].identity is None,
            res matches Ok(CommandOutcome::ForceStopConfirmationRequired { .. }) ==> final(self).confirmation_pending()
                && final(self).application_processes@[application_id@].status == ProcessStatus::Stopping,
            old(self).requests@.is_prefix_of(final(self).requests@),
            final(self).requests@.len() <= old(self).requests@.len() + 1,
            final(self).requests@.len() == old(self).requests@.len() + 1 ==> final(self).requests@.last() is GracefulStop
                && final(self).requests@.last()->GracefulStop_identity == old(self).application_processes@[application_id@].identity->0
                && (res is Ok ==> (final(self).requests@.last()->exited <==> res->Ok_0 is ApplicationStopped)),
            manual_lifecycle_available(old(self).session@.state) && old(self).application_processes@.contains_key(application_id@)
                && !(old(self).application_processes@[application_id@].ownership == Some(ProcessOwnership::PreExisting)
                && !pre_existing_confirmed) && old(self).application_processes@[application_id@].identity is Some
                && old(self).application_recipes@.contains_key(application_id@) ==> final(self).requests@.len()
                == old(self).requests@.len() + 1,
    {
        self.ensure_manual_lifecycle_is_available("Exit Application")?;
        let process = match self.application_processes.get(application_id.as_str()) {
            Some(process) => process.clone(),
            None => return Err(CoreError::ApplicationNotFound(application_id)),
        };
        if process.ownership == Some(ProcessOwnership::PreExisting) && !pre_existing_confirmed {
            return Ok(CommandOutcome::PreExistingControlConfirmationRequired { application_id });
        }
        let identity = match process.identity {
            Some(identity) => identity,
            None => return Ok(CommandOutcome::ApplicationStopped { application_id }),
        };
        let recipe = match self.recipe_of(application_id.as_str()) {
            Some(recipe) => recipe,
            None => return Err(CoreError::ApplicationNotFound(application_id)),
        };
        let (graceful, exited) = self.request_graceful_stop(&identity, &recipe.shutdown_strategy, recipe.elevated)?;
        if graceful == GracefulStopResult::Requested && exited {
            self.mark_stopped(application_id.as_str());
            Ok(CommandOutcome::ApplicationStopped { application_id })
        } else {
            self.set_process(application_id.as_str(), ProcessStatus::Stopping, process.ownership, Some(identity.clone()));
            self.request_process_confirmation(application_id.clone(), ProcessConfirmationAction::Exit, identity, None);
            Ok(CommandOutcome::ForceStopConfirmationRequired { application_id })
        }
    }

    /// Stops a Process now and settles the Session around it.
    fn stop_now(&mut self, application_id: &str, identity: &ProcessIdentity) -> (res: Result<(), CoreError>)
        requires
            session_consistent(old(self).session@),
        ensures
            session_consistent(final(self).session@),
            final(self).same_records(old(self)),
            old(self).session@.state != SessionState::Closing ==> final(self).session@.state == old(self).session@.state,
            old(self).session@.state == SessionState::Closing ==> final(self).session@.state == SessionState::Closing
                || final(self).session@.state == SessionState::Idle,
            res is Ok && old(self).session@.state != SessionState::Closing ==> final(self).application_processes@.contains_key(
                application_id@,
            ) && final(self).application_processes@[application_id@].status == ProcessStatus::Stopped
                && final(self).application_processes@[application_id@].identity is None,
            res is Err && old(self).session@.state != SessionState::Closing ==> (res->Err_0 is ProcessRuntime
                || res->Err_0 is PrivilegeBroker) && final(self).application_processes@ == old(self).application_processes@
                && final(self).session@ == old(self).session@,
            res is Err && old(self).session@.state != SessionState::Closing ==> (old(self).application_recipes@.contains_key(
                application_id@,
            ) && old(self).application_recipes@[application_id@].elevated <==> res->Err_0 is PrivilegeBroker),
    {
        let elevated = self.is_elevated(application_id);
        self.force_stop_process(identity, elevated)?;
        self.mark_stopped(application_id);
        self.sync_session_application_states();
        if self.session.state == SessionState::Closing {
            self.advance_session_close()?;
        }
        Ok(())
    }

    /// Force-stops an application once both confirmations are given.
    fn force_stop_application(
        &mut self,
        application_id: String,
        pre_existing_confirmed: bool,
        force_confirmed: bool,
    ) -> (res: Result<CommandOutcome, CoreError>)
        requires
            session_consistent(old(self).session@),
        ensures
            !force_confirmed || (old(self).application_processes@.contains_key(application_id@)
                && old(self).application_processes@[application_id@].ownership == Some(ProcessOwnership::PreExisting)
                && !pre_existing_confirmed) ==> final(self).requests@ == old(self).requests@,
            session_consistent(final(self).session@),
            final(self).same_records(old(self)),
            !(old(self).session@.state == SessionState::Idle || old(self).session@.state == SessionState::Active
                || old(self).session@.state == SessionState::Closing) ==> res is Err && is_transition_error(
                res->Err_0,
                old(self).session@.state,
                "Force Stop Application"@,
            ) && final(self).session@ == old(self).session@,
            old(self).session@.state != SessionState::Closing ==> final(self).session@.state == old(self).session@.state,
            !force_stop_available(old(self).session@.state) ==> final(self).application_processes@
                == old(self).application_processes@,
            force_stop_available(old(self).session@.state) && !old(self).application_processes@.contains_key(
                application_id@,
            ) ==> res == Err::<CommandOutcome, CoreError>(CoreError::ApplicationNotFound(application_id))
                && final(self).application_processes@ == old(self).application_processes@,
            force_stop_available(old(self).session@.state) && old(self).application_processes@.contains_key(
                application_id@,
            ) && old(self).application_processes@[application_id@].ownership == Some(ProcessOwnership::PreExisting)
                && !pre_existing_confirmed ==> res == Ok::<CommandOutcome, CoreError>(
                CommandOutcome::PreExistingControlConfirmationRequired { application_id },
            ) && final(self).application_processes@ == old(self).application_processes@,
            force_stop_available(old(self).session@.state) && old(self).application_processes@.contains_key(
                application_id@,
            ) && !(old(self).application_processes@[application_id@].ownership == Some(ProcessOwnership::PreExisting)
                && !pre_existing_confirmed) && !force_confirmed ==> res == Ok::<CommandOutcome, CoreError>(
                CommandOutcome::ForceStopConfirmationRequired { application_id },
            ) && final(self).application_processes@ == old(self).application_processes@,
            res is Ok ==> old(self).application_processes@.contains_key(application_id@),
            res matches Ok(CommandOutcome::PreExistingControlConfirmationRequired { .. }) ==> !pre_existing_confirmed
                && final(self).application_processes@ == old(self).application_processes@,
            res matches Ok(CommandOutcome::ForceStopConfirmationRequired { .. }) ==> !force_confirmed
                && final(self).application_processes@ == old(self).application_processes@,
            res matches Ok(CommandOutcome::ApplicationStopped { .. }) && old(self).session@.state != SessionState::Closing
                ==> final(self).application_processes@[application_id@].identity is None,
    {
        self.ensure_force_stop_is_available()?;
        let process = match self.application_processes.get(application_id.as_str()) {
            Some(process) => process.clone(),
            None => return Err(CoreError::ApplicationNotFound(application_id)),
        };
        if process.ownership == Some(ProcessOwnership::PreExisting) && !pre_existing_confirmed {
            return Ok(CommandOutcome::PreExistingControlConfirmationRequired { application_id });
        }
        if !force_confirmed {
            return Ok(CommandOutcome::ForceStopConfirmationRequired { application_id });
        }
        let identity = match process.identity {
            Some(identity) => identity,
            None => return Ok(CommandOutcome::ApplicationStopped { application_id }),
        };
        self.pending_process_confirmation = None;
        self.stop_now(application_id.as_str(), &identity)?;
        Ok(CommandOutcome::ApplicationStopped { application_id })
    }

    /// Carries out a pending force stop the user confirmed with its token.
    fn confirm_process_action(&mut self, token: String) -> (res: Result<CommandOutcome, CoreError>)
        requires
            session_consistent(old(self).session@),
        ensures
            session_consistent(final(self).session@),
            final(self).same_records(old(self)),
            !(old(self).session@.state == SessionState::Idle || old(self).session@.state == SessionState::Active
                || old(self).session@.state == SessionState::Closing) ==> res is Err && is_transition_error(
                res->Err_0,
                old(self).session@.state,
                "Force Stop Application"@,
            ) && final(self).session@ == old(self).session@,
            old(self).session@.state != SessionState::Closing ==> final(self).session@.state == old(self).session@.state,
            !(old(self).pending_process_confirmation matches Some(pending) && pending.snapshot.token@ == token@)
                && (old(self).session@.state == SessionState::Idle || old(self).session@.state == SessionState::Active
                || old(self).session@.state == SessionState::Closing) ==> res == Err::<CommandOutcome, CoreError>(
                CoreError::InvalidProcessConfirmation,
            ) && final(self).session@ == old(self).session@ && final(self).application_processes@
                == old(self).application_processes@ && final(self).pending_process_confirmation
                == old(self).pending_process_confirmation && final(self).requests@ == old(self).requests@,
    {
        self.ensure_force_stop_is_available()?;
        let matches = match &self.pending_process_confirmation {
            Some(pending) => same_text(pending.snapshot.token.as_str(), token.as_str()),
            None => false,
        };
        if !matches {
            return Err(CoreError::InvalidProcessConfirmation);
        }
        let pending = match self.pending_process_confirmation.take() {
            Some(pending) => pending,
            None => return Err(CoreError::InvalidProcessConfirmation),
        };
        let application_id = pending.snapshot.application_id.clone();
        let process_identity = match self.application_processes.get(application_id.as_str()) {
            Some(process) => match &process.identity {
                Some(identity) => Some(identity.clone()),
                None => None,
            },
            None => return Err(CoreError::InvalidProcessConfirmation),
        };
        let same = match &process_identity {
            Some(identity) => identity.same_as(&pending.snapshot.identity),
            None => false,
        };
        if !same {
            return Err(CoreError::InvalidProcessConfirmation);
        }
        self.stop_now(application_id.as_str(), &pending.snapshot.identity)?;
        if pending.snapshot.action == ProcessConfirmationAction::Restart {
            let recipe = match pending.restart_recipe {
                Some(recipe) => recipe,
                None => return Err(CoreError::InvalidProcessConfirmation),
            };
            let ownership = self.launch_or_adopt(application_id.as_str(), recipe)?;
            return Ok(
                if ownership == ProcessOwnership::PreExisting {
                    CommandOutcome::ApplicationAlreadyRunning { application_id }
                } else {
                    CommandOutcome::ApplicationRestarted { application_id }
                },
            );
        }
        Ok(CommandOutcome::ApplicationStopped { application_id })
    }

    /// Forgets a pending force stop with this token.
    fn cancel_process_action(&mut self, token: String) -> (res: CommandOutcome)
        ensures
            final(self).session@ == old(self).session@,
            final(self).application_processes@ == old(self).application_processes@,
            final(self).same_records(old(self)),
            res is ProcessesRefreshed,
            (old(self).pending_process_confirmation matches Some(pending) && pending.snapshot.token@ == token@)
                ==> !final(self).confirmation_pending(),
            !(old(self).pending_process_confirmation matches Some(pending) && pending.snapshot.token@ == token@)
                ==> final(self).pending_process_confirmation == old(self).pending_process_confirmation,
    {
        let matches = match &self.pending_process_confirmation {
            Some(pending) => same_text(pending.snapshot.token.as_str(), token.as_str()),
            None => false,
        };
        if matches {
            self.pending_process_confirmation = None;
        }
        CommandOutcome::ProcessesRefreshed
    }

    /// Restarts an application: stops it, asking first where needed, then
    /// starts it again.
    fn restart_application(&mut self, profile_id: String, application_id: String, pre_existing_confirmed: bool) -> (res: Result<CommandOutcome, CoreError>)
        ensures
            final(self).session@ == old(self).session@,
            final(self).same_records(old(self)),
            !manual_lifecycle_available(old(self).session@.state) ==> res is Err && is_transition_error(
                res->Err_0,
                old(self).session@.state,
                "Restart Application"@,
            ) && final(self).application_processes@ == old(self).application_processes@,
            manual_lifecycle_available(old(self).session@.state) && position_of(old(self).profile_library@, profile_id@, 0)
                is None ==> res == Err::<CommandOutcome, CoreError>(CoreError::ProfileNotFound(profile_id)),
            res matches Ok(CommandOutcome::ApplicationRestarted { .. }) ==> final(self).application_processes@[application_id@].identity is Some,
            res matches Ok(CommandOutcome::ForceStopConfirmationRequired { .. }) ==> final(self).confirmation_pending(),
    {
        self.ensure_manual_lifecycle_is_available("Restart Application")?;
        let profile = match self.profile_library.profile(profile_id.as_str()) {
            Some(profile) => profile,
            None => return Err(CoreError::ProfileNotFound(profile_id)),
        };
        let application = self.profile_application(&profile, application_id.as_str())?;
        let recipe = application.launch_recipe;
        let process = match self.application_processes.get(application_id.as_str()) {
            Some(process) => process.clone(),
            None => return Err(CoreError::ApplicationNotFound(application_id)),
        };
        if process.ownership == Some(ProcessOwnership::PreExisting) && !pre_existing_confirmed {
            return Ok(CommandOutcome::PreExistingControlConfirmationRequired { application_id });
        }
        let identity = match process.identity {
            Some(identity) => identity,
            None => {
                let ownership = self.launch_or_adopt(application_id.as_str(), recipe)?;
                return Ok(
                    if ownership == ProcessOwnership::PreExisting {
                        CommandOutcome::ApplicationAlreadyRunning { application_id }
                    } else {
                        CommandOutcome::ApplicationRestarted { application_id }
                    },
                );
            },
        };
        let (graceful, exited) = self.request_graceful_stop(&identity, &recipe.shutdown_strategy, recipe.elevated)?;
        self.set_process(application_id.as_str(), ProcessStatus::Stopping, process.ownership, Some(identity.clone()));
        if graceful == GracefulStopResult::Requested && exited {
            let ownership = self.launch_or_adopt(application_id.as_str(), recipe)?;
            Ok(
                if ownership == ProcessOwnership::PreExisting {
                    CommandOutcome::ApplicationAlreadyRunning { application_id }
                } else {
                    CommandOutcome::ApplicationRestarted { application_id }
                },
            )
        } else {
            self.request_process_confirmation(application_id.clone(), ProcessConfirmationAction::Restart, identity, Some(recipe));
            Ok(CommandOutcome::ForceStopConfirmationRequired { application_id })
        }
    }
}

/// The executable name of a path when it has a non-blank one.
pub open spec fn named_file(path: Seq<char>) -> Option<Seq<char>> {
    match file_name(path) {
        Some(name) => if is_blank(name) {
            None
        } else {
            Some(name)
        },
        None => None,
    }
}

fn executable_name(path: &str) -> (res: Option<String>)
    ensures
        match named_file(path@) {
            Some(name) => res is Some && res->0@ == name,
            None => res is None,
        },
{
    match path_file_name(path) {
        Some(name) => {
            let name = string_from_chars(&name);
            if text_is_blank(name.as_str()) {
                None
            } else {
                Some(name)
            }
        },
        None => None,
    }
}

/// Whether the Session applications are the roster's applications, in its
/// order, with their ids, names, roles and requirements; only their states
/// may differ.
pub open spec fn same_roster(
    applications: Seq<SessionApplicationSnapshot>,
    roster: Seq<SessionApplicationSnapshot>,
) -> bool {
    &&& applications.len() == roster.len()
    &&& forall|j: int|
        0 <= j < applications.len() ==> #[trigger] applications[j] == (SessionApplicationSnapshot {
            state: applications[j].state,
            ..roster[j]
        })
}

/// Whether an application of the roster is not optional.
pub open spec fn required_in_roster(roster: Seq<SessionApplicationSnapshot>, application_id: Seq<char>) -> bool {
    exists|j: int|
        0 <= j < roster.len() && (#[trigger] roster[j]).application_id@ == application_id && roster[j].requirement != Some(
            ApplicationRequirement::Optional,
        )
}

/// What Start Session promises beyond the Session state: a refused start keeps
/// the Process records and clears any pending confirmation, a started Session
/// lists the profile's Supporting Applications in saved order, then its
/// Primary Sim, with their roles and requirements, and has started or found an
/// application unless every one has settled, and a failed start names a
/// required application of the profile.
pub open spec fn start_session_effect(
    command: AppCommand,
    before: SessionSnapshotView,
    profiles: Seq<RacingProfileView>,
    after: SessionSnapshotView,
    processes_before: Map<Seq<char>, ApplicationProcessSnapshot>,
    processes_after: Map<Seq<char>, ApplicationProcessSnapshot>,
    confirmation_pending: bool,
    result: Result<CommandOutcome, CoreError>,
) -> bool {
    command matches AppCommand::StartSession { profile_id } ==> {
        &&& before.state != SessionState::Idle ==> processes_after == processes_before && !confirmation_pending
        &&& result matches Ok(CommandOutcome::SessionStartRequested { .. }) ==> position_of(profiles, profile_id@, 0) is Some
            && same_roster(after.applications, session_applications_of(profiles[position_of(profiles, profile_id@, 0)->0 as int]))
            && started_or_settled(after.applications)
        &&& result matches Ok(CommandOutcome::SessionStartFailed { application_id }) ==> position_of(profiles, profile_id@, 0)
            is Some && required_in_roster(
            session_applications_of(profiles[position_of(profiles, profile_id@, 0)->0 as int]),
            application_id@,
        )
    }
}

/// What a confirmation with a token that is not the pending one does: it is
/// refused and changes no Process record, no Session and no pending
/// confirmation.
pub open spec fn stale_confirmation_effect(
    command: AppCommand,
    before: SessionSnapshotView,
    after: SessionSnapshotView,
    processes_before: Map<Seq<char>, ApplicationProcessSnapshot>,
    processes_after: Map<Seq<char>, ApplicationProcessSnapshot>,
    pending_before: Option<ProcessConfirmationSnapshot>,
    pending_after: Option<ProcessConfirmationSnapshot>,
    result: Result<CommandOutcome, CoreError>,
) -> bool {
    command matches AppCommand::ConfirmProcessAction { token } && force_stop_available(before.state) && !(
    pending_before matches Some(pending) && pending.token@ == token@) ==> result == Err::<CommandOutcome, CoreError>(
        CoreError::InvalidProcessConfirmation,
    ) && after == before && processes_after == processes_before && pending_after == pending_before
}

/// Whether a command hands nothing to the process runtime or the elevated
/// helper: a window-close request, accepting or dismissing a Recovery Offer, a
/// Start Session refused outside Idle, a force stop not yet confirmed, and a
/// confirmation with a stale token.
pub open spec fn requests_nothing(
    command: AppCommand,
    before: SessionSnapshotView,
    pending_before: Option<ProcessConfirmationSnapshot>,
) -> bool {
    ||| command is RequestWindowClose
    ||| command is AcceptRecovery
    ||| command is DismissRecovery
    ||| command is StartSession && before.state != SessionState::Idle
    ||| command matches AppCommand::ForceStopApplication { force_confirmed, .. } && !force_confirmed
    ||| command matches AppCommand::ConfirmProcessAction { token } && force_stop_available(before.state) && !(
    pending_before matches Some(pending) && pending.token@ == token@)
}

/// What Exit Application hands to the process runtime or the elevated helper:
/// at most one graceful stop, of the application's recorded Process, and never
/// a termination; a stop that does not see the Process exit asks for
/// confirmation.
pub open spec fn exit_requests_effect(
    command: AppCommand,
    processes_before: Map<Seq<char>, ApplicationProcessSnapshot>,
    requests_before: Seq<ProcessRequest>,
    requests_after: Seq<ProcessRequest>,
    confirmation_pending: bool,
    result: Result<CommandOutcome, CoreError>,
) -> bool {
    command matches AppCommand::ExitApplication { application_id, .. } ==> {
        &&& requests_before.is_prefix_of(requests_after)
        &&& requests_after.len() <= requests_before.len() + 1
        &&& requests_after.len() == requests_before.len() + 1 ==> requests_after.last() is GracefulStop
            && requests_after.last()->GracefulStop_identity == processes_before[application_id@].identity->0 && (result is Ok
            ==> (requests_after.last()->exited <==> result->Ok_0 is ApplicationStopped))
        &&& result matches Ok(CommandOutcome::ForceStopConfirmationRequired { .. }) ==> confirmation_pending
    }
}

/// How a request to check for updates is planned when it is answered: deferred
/// outside Idle, in progress while another check is pending, disabled or not
/// due for an automatic check that is switched off or not yet due, and
/// otherwise planned on the configured channel for its trigger.
pub open spec fn update_check_effect(
    command: AppCommand,
    state: SessionState,
    check_pending: bool,
    settings: crate::settings::SettingsView,
    result: Result<CommandOutcome, CoreError>,
) -> bool {
    command matches AppCommand::PrepareUpdateCheck { trigger, now_unix_seconds } ==> (result is Ok ==> (result matches Ok(
        CommandOutcome::UpdateCheckPrepared { decision },
    ) && if state != SessionState::Idle {
        decision is Deferred
    } else if check_pending {
        decision is InProgress
    } else if trigger == UpdateCheckTrigger::Automatic && !settings.desktop.automatic_update_checks {
        decision is Disabled
    } else if trigger == UpdateCheckTrigger::Automatic && !crate::update_advisor::automatic_check_is_due(
        now_unix_seconds,
        settings.last_automatic_update_check_unix_seconds,
    ) {
        decision is NotDue
    } else {
        decision matches UpdateCheckDecision::Planned(plan) && plan.channel == settings.desktop.update_channel && plan.trigger
            == trigger
    }))
}

/// What a refresh does to an Active Session: it begins closing once its
/// Primary Sim has stopped or failed, and stays Active otherwise.
pub open spec fn refresh_effect(
    command: AppCommand,
    before: SessionSnapshotView,
    after: SessionSnapshotView,
    result: Result<CommandOutcome, CoreError>,
) -> bool {
    command is RefreshProcesses && before.state == SessionState::Active && result is Ok ==> after.state == (if primary_has_exited(
        after.applications,
    ) {
        SessionState::Closing
    } else {
        SessionState::Active
    })
}

/// What a refresh of a closing Session hands to the process runtime or the
/// elevated helper: graceful stops only, never a termination or a launch.
pub open spec fn closing_refresh_requests(
    command: AppCommand,
    before: SessionSnapshotView,
    requests_before: Seq<ProcessRequest>,
    requests_after: Seq<ProcessRequest>,
) -> bool {
    command is RefreshProcesses && before.state == SessionState::Closing ==> requests_before.is_prefix_of(requests_after)
        && only_graceful_stops(requests_after, requests_before.len() as int)
}

/// A recipe after Test Game Launch: a monitored process name or executable path
/// it lacked is taken from the observed Process; one it had is kept.
pub open spec fn learned_recipe(recipe: LaunchRecipeView, process_name: String, executable_path: String) -> LaunchRecipeView {
    LaunchRecipeView {
        monitored_process: if recipe.monitored_process is Some {
            recipe.monitored_process
        } else {
            Some(process_name)
        },
        monitored_executable_path: if recipe.monitored_executable_path is Some {
            recipe.monitored_executable_path
        } else {
            Some(executable_path)
        },
        ..recipe
    }
}

/// What Test Game Launch keeps: the profile's Primary Sim recipe takes a
/// monitored process name or executable path it lacked from the observed
/// Process, and keeps one it had.
pub open spec fn game_launch_effect(
    command: AppCommand,
    profiles_before: Seq<RacingProfileView>,
    profiles_after: Seq<RacingProfileView>,
    processes_after: Map<Seq<char>, ApplicationProcessSnapshot>,
    result: Result<CommandOutcome, CoreError>,
) -> bool {
    command matches AppCommand::TestGameLaunch { profile_id } ==> (result matches Ok(
        CommandOutcome::GameLaunchTested { diagnostic },
    ) ==> exists|k: int|
        0 <= k < profiles_after.len() && (#[trigger] profiles_after[k]).id@ == profile_id@
            && profiles_after[k].primary_sim.launch_recipe == learned_recipe(
            profiles_before[position_of(profiles_before, profile_id@, 0)->0 as int].primary_sim.launch_recipe,
            diagnostic.observed_process,
            processes_after[profiles_before[position_of(profiles_before, profile_id@, 0)->0 as int].primary_sim.id@].identity->0.canonical_executable_path,
        ))
}

/// When a startup is cancelled: only after an application that is not optional
/// failed to start. An optional application that fails is skipped and the
/// startup goes on.
pub open spec fn startup_cancel_effect(
    command: AppCommand,
    before: SessionSnapshotView,
    after: SessionSnapshotView,
    cancelled_with: Seq<SessionApplicationSnapshot>,
    result: Result<CommandOutcome, CoreError>,
) -> bool {
    &&& command is StartSession && before.state == SessionState::Idle && result is Ok && after.state
        != SessionState::Starting ==> required_application_failed(cancelled_with)
    &&& command is RefreshProcesses && before.state == SessionState::Starting && (after.state == SessionState::Cancelling
        || after.state == SessionState::Idle) ==> required_application_failed(cancelled_with)
}

/// What a window-close request answers: the action for the Session's state,
/// with the Session and the Process records unchanged.
pub open spec fn window_close_effect(
    command: AppCommand,
    before: SessionSnapshotView,
    after: SessionSnapshotView,
    processes_before: Map<Seq<char>, ApplicationProcessSnapshot>,
    processes_after: Map<Seq<char>, ApplicationProcessSnapshot>,
    result: Result<CommandOutcome, CoreError>,
) -> bool {
    command is RequestWindowClose ==> result == Ok::<CommandOutcome, CoreError>(
        CommandOutcome::WindowCloseRequested { action: window_close_action(before.state) },
    ) && after == before && processes_after == processes_before
}

/// The Session applications of a profile, Supporting Applications first and
/// the Primary Sim last, all pending.
pub open spec fn session_applications_of(profile: RacingProfileView) -> Seq<SessionApplicationSnapshot> {
    Seq::new(
        profile.supporting_applications.len(),
        |i: int| SessionApplicationSnapshot {
            application_id: profile.supporting_applications[i].application.id,
            name: profile.supporting_applications[i].application.name,
            role: SessionApplicationRole::Supporting,
            requirement: Some(profile.supporting_applications[i].requirement),
            state: SessionApplicationState::Pending,
        },
    ).push(
        SessionApplicationSnapshot {
            application_id: profile.primary_sim.id,
            name: profile.primary_sim.name,
            role: SessionApplicationRole::PrimarySim,
            requirement: None,
            state: SessionApplicationState::Pending,
        },
    )
}

fn session_applications(profile: &RacingProfile) -> (res: Vec<SessionApplicationSnapshot>)
    ensures
        res@ == session_applications_of(profile@),
{
    let mut applications: Vec<SessionApplicationSnapshot> = Vec::new();
    let mut index: usize = 0;
    while index < profile.supporting_applications.len()
        invariant
            index <= profile.supporting_applications@.len(),
            applications@ == session_applications_of(profile@).subrange(0, index as int),
        decreases profile.supporting_applications@.len() - index,
    {
        let supporting = &profile.supporting_applications[index];
        applications.push(
            SessionApplicationSnapshot {
                application_id: supporting.application.id.clone(),
                name: supporting.application.name.clone(),
                role: SessionApplicationRole::Supporting,
                requirement: Some(supporting.requirement),
                state: SessionApplicationState::Pending,
            },
        );
        index = index + 1;
        assert(applications@ =~= session_applications_of(profile@).subrange(0, index as int));
    }
    applications.push(
        SessionApplicationSnapshot {
            application_id: profile.primary_sim.id.clone(),
            name: profile.primary_sim.name.clone(),
            role: SessionApplicationRole::PrimarySim,
            requirement: None,
            state: SessionApplicationState::Pending,
        },
    );
    assert(applications@ =~= session_applications_of(profile@));
    applications
}

impl<R: ProcessRuntime, B: PrivilegeBroker, H: CoreHost> FormationLapCore<R, B, H> {
    /// Starts a Session of an approved profile: Supporting Applications in
    /// order, then the Primary Sim, each once those before it are ready.
    fn start_session(&mut self, profile_id: String) -> (res: Result<CommandOutcome, CoreError>)
        requires
            session_consistent(old(self).session@),
        ensures
            session_consistent(final(self).session@),
            final(self).same_records(old(self)),
            old(self).session@.state != SessionState::Idle ==> res is Err && is_transition_error(
                res->Err_0,
                old(self).session@.state,
                "Start Session"@,
            ) && final(self).session@ == old(self).session@ && final(self).application_processes@
                == old(self).application_processes@ && final(self).requests@ == old(self).requests@,
            old(self).session@.state == SessionState::Idle && old(self).formation_lap_installing is Some ==> res
                is Err && (res->Err_0 matches CoreError::ActivityConflict { activity, command } && activity@
                == "Formation Lap update installation"@ && command@ == "Start Session"@) && final(self).session@
                == old(self).session@,
            old(self).session@.state == SessionState::Idle && old(self).formation_lap_installing is None && !(
            is_canonical_uuid(profile_id@) && position_of(old(self).profile_library@, profile_id@, 0) is Some) ==> res
                is Err && is_not_found(res->Err_0, profile_id@) && final(self).session@ == old(self).session@,
            old(self).session@.state == SessionState::Idle && old(self).formation_lap_installing is None
                && old(self).needs_review(profile_id@) ==> res == Err::<CommandOutcome, CoreError>(
                CoreError::ProfileNeedsReview(profile_id),
            ) && final(self).session@ == old(self).session@,
            res matches Ok(CommandOutcome::SessionStartRequested { profile_id: started }) ==> started == profile_id
                && final(self).session@.state == SessionState::Starting && final(self).session@.active_profile_id
                == Some(profile_id),
            res matches Ok(CommandOutcome::SessionStartFailed { .. }) ==> final(self).session@.state
                == SessionState::Cancelling || final(self).session@.state == SessionState::Idle,
            res is Ok ==> res->Ok_0 is SessionStartRequested || res->Ok_0 is SessionStartFailed,
            res matches Ok(CommandOutcome::SessionStartRequested { .. }) ==> startup_in_order(
                final(self).session@.applications,
            ),
            old(self).session@.state != SessionState::Idle ==> final(self).pending_process_confirmation is None,
            res is Ok && final(self).session@.state != SessionState::Starting ==> required_application_failed(
                final(self).startup_cancelled_with@,
            ),
            res matches Ok(CommandOutcome::SessionStartRequested { .. }) ==> started_or_settled(final(self).session@.applications),
            res matches Ok(CommandOutcome::SessionStartFailed { application_id }) ==> position_of(
                old(self).profile_library@,
                profile_id@,
                0,
            ) is Some && required_in_roster(
                session_applications_of(
                    old(self).profile_library@[position_of(old(self).profile_library@, profile_id@, 0)->0 as int],
                ),
                application_id@,
            ),
            res matches Ok(CommandOutcome::SessionStartRequested { .. }) ==> position_of(
                old(self).profile_library@,
                profile_id@,
                0,
            ) is Some && same_roster(
                final(self).session@.applications,
                session_applications_of(
                    old(self).profile_library@[position_of(old(self).profile_library@, profile_id@, 0)->0 as int],
                ),
            ),
    {
        self.pending_process_confirmation = None;
        if self.session.state != SessionState::Idle {
            return Err(transition_error(self.session.state, "Start Session"));
        }
        if self.formation_lap_installing.is_some() {
            return Err(
                CoreError::ActivityConflict {
                    activity: String::from_str("Formation Lap update installation"),
                    command: String::from_str("Start Session"),
                },
            );
        }
        if self.profile_library.requires_review(profile_id.as_str())? {
            return Err(CoreError::ProfileNeedsReview(profile_id));
        }
        let profile = match self.profile_library.profile(profile_id.as_str()) {
            Some(profile) => profile,
            None => return Err(CoreError::ProfileNotFound(profile_id)),
        };
        let applications = session_applications(&profile);
        let ghost roster = applications@;
        proof {
            assert(roster == session_applications_of(
                old(self).profile_library@[position_of(old(self).profile_library@, profile_id@, 0)->0 as int],
            ));
            assert forall|j: int| 0 <= j < roster.len() implies #[trigger] roster[j] == (SessionApplicationSnapshot {
                state: roster[j].state,
                ..roster[j]
            }) by {}
        }
        let ordered = self.ordered_session_applications(&profile)?;
        proof {
            assert forall|i: int| 0 <= i < ordered@.len() implies (#[trigger] ordered@[i]).id == roster[i].application_id by {
                if i < profile@.supporting_applications.len() {
                    assert(ordered@[i]@ == profile.supporting_applications@[i].application@);
                } else {
                    assert(ordered@[i] == ordered@.last());
                }
            }
        }
        self.session = SessionSnapshot {
            state: SessionState::Starting,
            active_profile_id: Some(profile_id.clone()),
            applications,
            summary: None,
        };
        self.session_events.clear();
        proof {
            assert forall|j: int| 0 <= j < self.session@.applications.len() implies (#[trigger] self.session@.applications[j]).state
                == SessionApplicationState::Pending by {
                if j < profile@.supporting_applications.len() {
                } else {
                }
            }
        }
        let mut index: usize = 0;
        while index < ordered.len()
            invariant
                index <= ordered@.len(),
                ordered@.len() == self.session@.applications.len(),
                self.session@.state == SessionState::Starting,
                self.session@.active_profile_id == Some(profile_id),
                self.same_records(old(self)),
                old(self).session@.state == SessionState::Idle,
                old(self).formation_lap_installing is None,
                is_canonical_uuid(profile_id@) && position_of(old(self).profile_library@, profile_id@, 0) is Some,
                !old(self).needs_review(profile_id@),
                startup_in_order(self.session@.applications),
                forall|j: int| 0 <= j < index ==> startup_settled(#[trigger] self.session@.applications[j]),
                forall|j: int|
                    index < j < self.session@.applications.len() ==> (#[trigger] self.session@.applications[j]).state
                        == SessionApplicationState::Pending,
                roster == session_applications_of(
                    old(self).profile_library@[position_of(old(self).profile_library@, profile_id@, 0)->0 as int],
                ),
                same_roster(self.session@.applications, roster),
                forall|i: int| 0 <= i < ordered@.len() ==> (#[trigger] ordered@[i]).id == roster[i].application_id,
            ensures
                started_or_settled(self.session@.applications),
                self.session@.state == SessionState::Starting,
                self.session@.active_profile_id == Some(profile_id),
                self.same_records(old(self)),
                startup_in_order(self.session@.applications),
                same_roster(self.session@.applications, roster),
                roster == session_applications_of(
                    old(self).profile_library@[position_of(old(self).profile_library@, profile_id@, 0)->0 as int],
                ),
                is_canonical_uuid(profile_id@) && position_of(old(self).profile_library@, profile_id@, 0) is Some,
            decreases ordered@.len() - index,
        {
            let application = &ordered[index];
            self.prepare_elevated_session_launches(&ordered, index)?;
            match self.launch_or_adopt(application.id.as_str(), application.launch_recipe.clone()) {
                Ok(ownership) => {
                    let state = if ownership == ProcessOwnership::SessionOwned {
                        SessionApplicationState::Starting
                    } else {
                        SessionApplicationState::RunningPreExisting
                    };
                    self.set_application_state_at(index, state);
                    assert(self.session@.applications[index as int].state == state);
                    break;
                },
                Err(CoreError::ProcessRuntime(error)) => {
                    let optional = self.session.applications[index].requirement == Some(ApplicationRequirement::Optional);
                    self.set_application_state_at(index, SessionApplicationState::Failed);
                    self.record_session_event(application.id.as_str(), SessionEventKind::LaunchFailed);
                    if !optional {
                        proof {
                            assert(roster[index as int].application_id@ == application.id@);
                            assert(required_in_roster(roster, application.id@));
                        }
                        self.abort_session_startup()?;
                        return Ok(CommandOutcome::SessionStartFailed { application_id: application.id.clone() });
                    }
                },
                Err(error) => return Err(error),
            }
            index = index + 1;
        }
        Ok(CommandOutcome::SessionStartRequested { profile_id })
    }

    /// Launches the Primary Sim alone, learns its Process identity when the
    /// recipe lacks one, and records a sanitized diagnostic.
    fn test_game_launch(&mut self, profile_id: String) -> (res: Result<CommandOutcome, CoreError>)
        requires
            session_consistent(old(self).session@),
        ensures
            final(self).session@ == old(self).session@,
            final(self).settings_store@ == old(self).settings_store@,
            final(self).update_advisor@ == old(self).update_advisor@,
            final(self).formation_lap_installing == old(self).formation_lap_installing,
            old(self).session@.state != SessionState::Idle ==> res is Err && is_transition_error(
                res->Err_0,
                old(self).session@.state,
                "Test Game Launch"@,
            ) && final(self).application_processes@ == old(self).application_processes@,
            old(self).session@.state == SessionState::Idle && position_of(old(self).profile_library@, profile_id@, 0)
                is None ==> res == Err::<CommandOutcome, CoreError>(CoreError::ProfileNotFound(profile_id)),
            res matches Ok(CommandOutcome::GameLaunchTested { diagnostic }) ==> diagnostic.schema_version == 1
                && final(self).application_processes@.contains_key(old(self).profile_library@[position_of(
                old(self).profile_library@,
                profile_id@,
                0,
            )->0 as int].primary_sim.id@) && named_file(
                final(self).application_processes@[old(self).profile_library@[position_of(
                    old(self).profile_library@,
                    profile_id@,
                    0,
                )->0 as int].primary_sim.id@].identity->0.canonical_executable_path@,
            ) == Some(diagnostic.observed_process@),
            res is Ok ==> res->Ok_0 is GameLaunchTested,
            old(self).requests@.is_prefix_of(final(self).requests@),
            only_starts(final(self).requests@, old(self).requests@.len() as int),
            res matches Ok(CommandOutcome::GameLaunchTested { diagnostic }) ==> exists|k: int|
                0 <= k < final(self).profile_library@.len() && (#[trigger] final(self).profile_library@[k]).id@ == profile_id@
                    && final(self).profile_library@[k].primary_sim.launch_recipe == learned_recipe(
                    old(self).profile_library@[position_of(old(self).profile_library@, profile_id@, 0)->0 as int].primary_sim.launch_recipe,
                    diagnostic.observed_process,
                    final(self).application_processes@[old(self).profile_library@[position_of(
                        old(self).profile_library@,
                        profile_id@,
                        0,
                    )->0 as int].primary_sim.id@].identity->0.canonical_executable_path,
                ),
    {
        if self.session.state != SessionState::Idle {
            return Err(transition_error(self.session.state, "Test Game Launch"));
        }
        let mut profile = match self.profile_library.profile(profile_id.as_str()) {
            Some(profile) => profile,
            None => return Err(CoreError::ProfileNotFound(profile_id)),
        };
        let primary_sim = self.resolved_primary_sim(&profile)?;
        let target = match sanitized_target(&primary_sim.launch_recipe) {
            Ok(target) => target,
            Err(message) => return Err(CoreError::InvalidLaunchRecipe(message)),
        };
        self.launch_or_adopt(primary_sim.id.as_str(), primary_sim.launch_recipe.clone())?;
        let observed_identity = match self.application_processes.get(primary_sim.id.as_str()) {
            Some(process) => match &process.identity {
                Some(identity) => identity.clone(),
                None => {
                    return Err(CoreError::InvalidLaunchRecipe(
                        String::from_str("Test Game Launch did not observe a stable Process identity"),
                    ))
                },
            },
            None => {
                return Err(CoreError::InvalidLaunchRecipe(
                    String::from_str("Test Game Launch did not observe a stable Process identity"),
                ))
            },
        };
        let observed_process = match executable_name(observed_identity.canonical_executable_path.as_str()) {
            Some(name) => name,
            None => {
                return Err(CoreError::InvalidLaunchRecipe(
                    String::from_str("observed Process does not have a valid executable name"),
                ))
            },
        };
        let monitored_process = match &primary_sim.launch_recipe.monitored_process {
            Some(name) => executable_name(name.as_str()),
            None => None,
        };
        let ghost stored_recipe = profile@.primary_sim.launch_recipe;
        let mut learned_identity = false;
        if profile.primary_sim.launch_recipe.monitored_process.is_none() {
            profile.primary_sim.launch_recipe.monitored_process = Some(observed_process.clone());
            learned_identity = true;
        }
        if profile.primary_sim.launch_recipe.monitored_executable_path.is_none() {
            profile.primary_sim.launch_recipe.monitored_executable_path = Some(
                observed_identity.canonical_executable_path.clone(),
            );
            learned_identity = true;
        }
        let profile_name = profile.name.clone();
        let vr_enabled = profile.vr_enabled;
        let vr_launch_mode = if profile.vr_enabled {
            profile.preferred_vr_launch_mode
        } else {
            None
        };
        let ghost learned = profile@;
        let ghost library_before = self.profile_library@;
        let ghost mut witness: int = 0;
        proof {
            assert(learned.primary_sim.launch_recipe == learned_recipe(
                stored_recipe,
                observed_process,
                observed_identity.canonical_executable_path,
            ));
            lemma_position_has_id(library_before, profile_id@, 0);
        }
        if learned_identity {
            self.profile_library.save(profile, &mut self.host)?;
            proof {
                let at = position_of(library_before, learned.id@, 0)->0 as int;
                let saved = choose|saved: RacingProfileView| {
                    &&& saved_from(saved, learned, library_before[at])
                    &&& #[trigger] sorted_insert(library_before.remove(at), saved) == self.profile_library@
                };
                lemma_sorted_insert_contains(library_before.remove(at), saved);
                let k = choose|k: int| 0 <= k < self.profile_library@.len() && self.profile_library@[k] == saved;
                assert(self.profile_library@[k].id@ == profile_id@);
                witness = k;
            }
        } else {
            proof {
                let k = position_of(library_before, profile_id@, 0)->0 as int;
                assert(self.profile_library@[k].id@ == profile_id@);
                witness = k;
            }
        }
        let diagnostic = GameLaunchDiagnostic {
            schema_version: 1,
            profile_name,
            vr_enabled,
            vr_launch_mode,
            target,
            arguments: primary_sim.launch_recipe.arguments,
            monitored_process,
            observed_process,
        };
        match self.host.persist_game_launch_diagnostic(&diagnostic) {
            Ok(()) => {},
            Err(failure) => return Err(CoreError::Storage { message: failure.message, invalid_data: failure.invalid_data }),
        }
        proof {
            assert(library_before == old(self).profile_library@);
            assert(stored_recipe == old(self).profile_library@[position_of(old(self).profile_library@, profile_id@, 0)->0 as int].primary_sim.launch_recipe);
            assert(observed_identity == self.application_processes@[old(self).profile_library@[position_of(
                old(self).profile_library@,
                profile_id@,
                0,
            )->0 as int].primary_sim.id@].identity->0);
            assert(diagnostic.observed_process == observed_process);
            assert(0 <= witness < self.profile_library@.len() && self.profile_library@[witness].id@ == profile_id@);
            assert(self.profile_library@[witness].primary_sim.launch_recipe == learned.primary_sim.launch_recipe);
        }
        Ok(CommandOutcome::GameLaunchTested { diagnostic })
    }

    /// The profile the window shows as selected: the stored selection, or the first profile.
    fn selected_profile(&self) -> (res: Option<RacingProfile>)
        ensures
            match self.settings_store@.selected_profile_id {
                Some(profile_id) if position_of(self.profile_library@, profile_id, 0) is Some => res is Some
                    && res->0@ == self.profile_library@[position_of(self.profile_library@, profile_id, 0)->0 as int],
                _ => if self.profile_library@.len() == 0 {
                    res is None
                } else {
                    res is Some && res->0@ == self.profile_library@[0]
                },
            },
    {
        match self.settings_store.selected_profile_id() {
            Some(profile_id) => match self.profile_library.profile(profile_id.as_str()) {
                Some(profile) => Some(profile),
                None => self.profile_library.selected_profile(),
            },
            None => self.profile_library.selected_profile(),
        }
    }

    /// The local diagnostics a user may export.
    fn export_diagnostics(&mut self) -> (res: CommandOutcome)
        ensures
            final(self).session@ == old(self).session@,
            final(self).application_processes@ == old(self).application_processes@,
            final(self).same_records(old(self)),
            res matches CommandOutcome::DiagnosticsExported { diagnostics } && diagnostics.schema_version == 1
                && diagnostics.application_version@ == APPLICATION_VERSION@ && diagnostics.settings
                == old(self).settings_store@.desktop && diagnostics.session_state == old(self).session@.state
                && diagnostics.profile_count == old(self).profile_library@.len() && !diagnostics.telemetry_upload
                && diagnostics.configured_application_count == (if crate::profile_library::application_count(
                old(self).profile_library@,
            ) > usize::MAX {
                usize::MAX as int
            } else {
                crate::profile_library::application_count(old(self).profile_library@)
            }),
    {
        let platform = self.host.platform();
        let recent_events = self.host.recent_diagnostics();
        let diagnostics = DiagnosticExport {
            schema_version: 1,
            application_version: APPLICATION_VERSION.to_string(),
            platform,
            settings: self.settings_store.desktop(),
            session_state: self.session.state,
            profile_count: self.profile_library.summaries().len(),
            configured_application_count: self.profile_library.configured_application_count(),
            recent_events,
            telemetry_upload: false,
        };
        CommandOutcome::DiagnosticsExported { diagnostics }
    }
}

/// The update target of a Supporting Application: its executable when its path
/// is a direct one that needs no repair.
pub open spec fn update_target_path(application: ProfileApplicationView) -> Option<Seq<char>> {
    match application.launch_recipe.source {
        LaunchSource::DirectExecutable { executable_path } => if !application.path_needs_repair {
            Some(executable_path@)
        } else {
            None
        },
        _ => None,
    }
}

impl<R: ProcessRuntime, B: PrivilegeBroker, H: CoreHost> FormationLapCore<R, B, H> {
    /// The update targets of a profile's Supporting Applications, in order.
    fn update_targets(&mut self, profile: &RacingProfile) -> (res: Vec<ApplicationUpdateTarget>)
        ensures
            final(self).session@ == old(self).session@,
            final(self).application_processes@ == old(self).application_processes@,
            final(self).same_records(old(self)),
            res@.len() == profile.supporting_applications@.len(),
            forall|i: int| 0 <= i < res@.len() ==> {
                &&& (#[trigger] res@[i]).application_id@ == profile.supporting_applications@[i].application.id@
                &&& res@[i].name@ == profile.supporting_applications@[i].application.name@
                &&& match res@[i].executable_path {
                    Some(path) => update_target_path(profile.supporting_applications@[i].application@) == Some(path@),
                    None => update_target_path(profile.supporting_applications@[i].application@) is None,
                }
            },
    {
        let mut targets: Vec<ApplicationUpdateTarget> = Vec::new();
        let mut index: usize = 0;
        while index < profile.supporting_applications.len()
            invariant
                index <= profile.supporting_applications@.len(),
                targets@.len() == index,
                self.session@ == old(self).session@,
                self.application_processes@ == old(self).application_processes@,
                self.same_records(old(self)),
                forall|i: int| 0 <= i < index ==> {
                    &&& (#[trigger] targets@[i]).application_id@ == profile.supporting_applications@[i].application.id@
                    &&& targets@[i].name@ == profile.supporting_applications@[i].application.name@
                    &&& match targets@[i].executable_path {
                        Some(path) => update_target_path(profile.supporting_applications@[i].application@) == Some(path@),
                        None => update_target_path(profile.supporting_applications@[i].application@) is None,
                    }
                },
            decreases profile.supporting_applications@.len() - index,
        {
            let application = &profile.supporting_applications[index].application;
            let executable_path = match &application.launch_recipe.source {
                LaunchSource::DirectExecutable { executable_path } => if !application.path_needs_repair {
                    Some(executable_path.clone())
                } else {
                    None
                },
                _ => None,
            };
            let provider = self.host.update_provider_for_name(application.name.as_str());
            targets.push(
                ApplicationUpdateTarget {
                    application_id: application.id.clone(),
                    name: application.name.clone(),
                    executable_path,
                    provider,
                },
            );
            index = index + 1;
        }
        targets
    }

    /// Plans an update check for the selected profile's Supporting
    /// Applications, or says why none may run; a planned automatic check is
    /// recorded, and forgotten again when that fails.
    fn prepare_update_check(&mut self, trigger: UpdateCheckTrigger, now_unix_seconds: u64) -> (res: Result<CommandOutcome, CoreError>)
        ensures
            final(self).session@ == old(self).session@,
            final(self).application_processes@ == old(self).application_processes@,
            final(self).profile_library@ == old(self).profile_library@,
            final(self).formation_lap_installing == old(self).formation_lap_installing,
            old(self).session@.state != SessionState::Idle ==> (res matches Ok(
                CommandOutcome::UpdateCheckPrepared { decision },
            ) && decision is Deferred && final(self).update_advisor@ == old(self).update_advisor@),
            old(self).session@.state == SessionState::Idle && old(self).update_advisor@.pending_request_id is Some ==> (res
                matches Ok(CommandOutcome::UpdateCheckPrepared { decision }) && decision is InProgress),
            res is Err ==> res->Err_0 is Storage && final(self).update_advisor@ == old(self).update_advisor@
                && final(self).settings_store@ == old(self).settings_store@,
            res is Ok ==> res->Ok_0 is UpdateCheckPrepared,
            res matches Ok(CommandOutcome::UpdateCheckPrepared { decision }) && decision is Planned && trigger
                == UpdateCheckTrigger::Automatic ==> final(self).settings_store@.last_automatic_update_check_unix_seconds
                == Some(now_unix_seconds),
            old(self).session@.state == SessionState::Idle && old(self).update_advisor@.pending_request_id is None && trigger
                == UpdateCheckTrigger::Automatic && !old(self).settings_store@.desktop.automatic_update_checks ==> (res
                matches Ok(CommandOutcome::UpdateCheckPrepared { decision }) && decision is Disabled),
            old(self).session@.state == SessionState::Idle && old(self).update_advisor@.pending_request_id is None && trigger
                == UpdateCheckTrigger::Automatic && old(self).settings_store@.desktop.automatic_update_checks
                && !crate::update_advisor::automatic_check_is_due(
                now_unix_seconds,
                old(self).settings_store@.last_automatic_update_check_unix_seconds,
            ) ==> (res matches Ok(CommandOutcome::UpdateCheckPrepared { decision }) && decision is NotDue),
            old(self).session@.state == SessionState::Idle && old(self).update_advisor@.pending_request_id is None && (trigger
                == UpdateCheckTrigger::Manual || (old(self).settings_store@.desktop.automatic_update_checks
                && crate::update_advisor::automatic_check_is_due(
                now_unix_seconds,
                old(self).settings_store@.last_automatic_update_check_unix_seconds,
            ))) && res is Ok ==> (res matches Ok(CommandOutcome::UpdateCheckPrepared { decision }) && decision matches UpdateCheckDecision::Planned(
                plan,
            ) && plan.channel == old(self).settings_store@.desktop.update_channel && plan.trigger == trigger),
    {
        let automatic = trigger == UpdateCheckTrigger::Automatic;
        let desktop = self.settings_store.desktop();
        let last = self.settings_store.last_automatic_update_check_unix_seconds();
        let decision = self.update_advisor.prepare_check(trigger, now_unix_seconds, self.session.state, &desktop, last);
        let decision = match decision {
            UpdateCheckDecision::Planned(plan) => {
                let mut plan = plan;
                match self.selected_profile() {
                    Some(profile) => {
                        plan.applications = self.update_targets(&profile);
                    },
                    None => {},
                }
                if automatic {
                    match self.settings_store.record_automatic_update_check(now_unix_seconds, &mut self.host) {
                        Ok(()) => {},
                        Err(error) => {
                            let _ = self.update_advisor.cancel_check(plan.request_id.as_str());
                            return Err(error);
                        },
                    }
                }
                UpdateCheckDecision::Planned(plan)
            },
            other => other,
        };
        Ok(CommandOutcome::UpdateCheckPrepared { decision })
    }
}

/// The status a running Process gets on refresh: a stop in progress stays,
/// a Process still within its post-start delay is starting, two failed
/// responsiveness checks in a row mean it does not respond.
pub open spec fn running_status(
    previous: ProcessStatus,
    now: u64,
    ready_at: u64,
    failed_checks: u8,
    ownership: Option<ProcessOwnership>,
) -> ProcessStatus {
    if previous == ProcessStatus::Stopping {
        ProcessStatus::Stopping
    } else if now < ready_at {
        ProcessStatus::Starting
    } else if failed_checks >= 2 {
        ProcessStatus::NotResponding
    } else if ownership == Some(ProcessOwnership::PreExisting) {
        ProcessStatus::RunningPreExisting
    } else {
        ProcessStatus::Running
    }
}

/// What a refresh may record of a Process, whatever the runtime observed: a
/// Process without an identity stays as it was; a starting Process past its
/// timeout fails; a running one keeps its identity and ownership with the
/// status of a running Process; an exited one loses both and is stopped, or
/// failed when it was still starting.
pub open spec fn refreshed(before: ApplicationProcessSnapshot, after: ApplicationProcessSnapshot) -> bool {
    if before.identity is None {
        after == before
    } else {
        ||| before.status == ProcessStatus::Starting && after.status == ProcessStatus::Failed && after.identity
            == before.identity && after.ownership == before.ownership
        ||| after.identity == before.identity && after.ownership == before.ownership && running_status_possible(
            before.status,
            before.ownership,
            after.status,
        )
        ||| after.identity is None && after.ownership is None && after.status == (if before.status
            == ProcessStatus::Starting {
            ProcessStatus::Failed
        } else {
            ProcessStatus::Stopped
        })
    }
}

/// Whether a status is one a running Process can get on refresh.
pub open spec fn running_status_possible(
    previous: ProcessStatus,
    ownership: Option<ProcessOwnership>,
    status: ProcessStatus,
) -> bool {
    exists|now: u64, ready_at: u64, failed_checks: u8| status == #[trigger] running_status(
        previous,
        now,
        ready_at,
        failed_checks,
        ownership,
    )
}

/// Whether no recorded Process has an identity.
pub open spec fn no_identified_process(processes: Map<Seq<char>, ApplicationProcessSnapshot>) -> bool {
    forall|key: Seq<char>| #[trigger] processes.contains_key(key) ==> processes[key].identity is None
}

fn running_status_of(
    previous: ProcessStatus,
    now: u64,
    ready_at: u64,
    failed_checks: u8,
    ownership: Option<ProcessOwnership>,
) -> (res: ProcessStatus)
    ensures
        res == running_status(previous, now, ready_at, failed_checks, ownership),
{
    if previous == ProcessStatus::Stopping {
        ProcessStatus::Stopping
    } else if now < ready_at {
        ProcessStatus::Starting
    } else if failed_checks >= 2 {
        ProcessStatus::NotResponding
    } else if ownership == Some(ProcessOwnership::PreExisting) {
        ProcessStatus::RunningPreExisting
    } else {
        ProcessStatus::Running
    }
}

/// The default startup timeout, in milliseconds, of a Process without a recipe.
pub const DEFAULT_STARTUP_TIMEOUT_MILLISECONDS: u64 = 30000;

impl<R: ProcessRuntime, B: PrivilegeBroker, H: CoreHost> FormationLapCore<R, B, H> {
    /// Observes one recorded Process and updates its status, output and
    /// responsiveness count.
    fn refresh_process(&mut self, application_id: &str) -> (res: Result<(), CoreError>)
        ensures
            final(self).requests@ == old(self).requests@,
            final(self).session@.state == old(self).session@.state,
            final(self).session@.active_profile_id == old(self).session@.active_profile_id,
            final(self).session@.applications == old(self).session@.applications,
            final(self).same_records(old(self)),
            final(self).pending_process_confirmation == old(self).pending_process_confirmation,
            final(self).application_processes@.dom() == old(self).application_processes@.dom(),
            old(self).application_processes@.contains_key(application_id@) && old(self).application_processes@[application_id@].identity is None
                ==> final(self).application_processes@ == old(self).application_processes@,
            !old(self).application_processes@.contains_key(application_id@) ==> final(self).application_processes@
                == old(self).application_processes@,
            forall|key: Seq<char>| key != application_id@ && #[trigger] old(self).application_processes@.contains_key(key)
                ==> final(self).application_processes@[key] == old(self).application_processes@[key],
            res is Ok && old(self).application_processes@.contains_key(application_id@) ==> refreshed(
                old(self).application_processes@[application_id@],
                final(self).application_processes@[application_id@],
            ),
            res is Err ==> res->Err_0 is ProcessRuntime && final(self).application_processes@
                == old(self).application_processes@,
            !(old(self).application_processes@.contains_key(application_id@)
                && old(self).application_processes@[application_id@].identity is Some) ==> res is Ok,
    {
        let (identity, previous_status, ownership) = match self.application_processes.get(application_id) {
            Some(process) => match &process.identity {
                Some(identity) => (identity.clone(), process.status, process.ownership),
                None => return Ok(()),
            },
            None => return Ok(()),
        };
        if previous_status == ProcessStatus::Starting && !self.post_start_ready_at.contains(application_id) {
            let timeout = match self.application_recipes.get(application_id) {
                Some(recipe) => (recipe.startup_timeout_seconds as u64) * 1000,
                None => DEFAULT_STARTUP_TIMEOUT_MILLISECONDS,
            };
            let timed_out = match self.startup_started_at.get(application_id) {
                Some(started_at) => {
                    let started_at = *started_at;
                    self.host.now_milliseconds().saturating_sub(started_at) >= timeout
                },
                None => false,
            };
            if timed_out {
                let ghost before = self.application_processes@;
                self.set_process(application_id, ProcessStatus::Failed, ownership, Some(identity));
                proof {
                    assert forall|key: Seq<char>| key != application_id@ && #[trigger] before.contains_key(key) implies self.application_processes@[key]
                        == before[key] by {
                        assert(self.application_processes@.contains_key(key) == before.contains_key(key));
                    }
                }
                self.record_session_event(application_id, SessionEventKind::LaunchFailed);
                return Ok(());
            }
        }
        let observation = match self.process_runtime.observe(&identity) {
            Ok(observation) => observation,
            Err(error) => return Err(CoreError::ProcessRuntime(error)),
        };
        let session_was_active = self.session.state == SessionState::Active;
        let output = match self.process_runtime.read_output(&identity) {
            Ok(output) => output,
            Err(error) => return Err(CoreError::ProcessRuntime(error)),
        };
        let output = if output.stdout.as_str().unicode_len() == 0 && output.stderr.as_str().unicode_len() == 0 && !output.truncated {
            None
        } else {
            Some(output)
        };
        match observation {
            ProcessObservation::Running { responsiveness } => {
                let previous_checks = match self.failed_responsiveness_checks.get(application_id) {
                    Some(count) => *count,
                    None => 0,
                };
                let failed_checks = if responsiveness == ProcessResponsiveness::NotResponsive {
                    previous_checks.saturating_add(1)
                } else {
                    0
                };
                self.failed_responsiveness_checks.insert(application_id.to_string(), failed_checks);
                let delay = match self.application_recipes.get(application_id) {
                    Some(recipe) => recipe.post_start_delay_milliseconds as u64,
                    None => 0,
                };
                let now = self.host.now_milliseconds();
                let ready_at = match self.post_start_ready_at.get(application_id) {
                    Some(ready_at) => *ready_at,
                    None => {
                        let ready_at = now.saturating_add(delay);
                        self.post_start_ready_at.insert(application_id.to_string(), ready_at);
                        ready_at
                    },
                };
                let status = running_status_of(previous_status, now, ready_at, failed_checks, ownership);
                self.application_processes.insert(
                    application_id.to_string(),
                    ApplicationProcessSnapshot {
                        application_id: application_id.to_string(),
                        status,
                        ownership,
                        identity: Some(identity),
                        output,
                    },
                );
                if status != ProcessStatus::Starting {
                    let _ = self.startup_started_at.remove(application_id);
                    let _ = self.post_start_ready_at.remove(application_id);
                }
            },
            _ => {
                self.application_processes.insert(
                    application_id.to_string(),
                    ApplicationProcessSnapshot {
                        application_id: application_id.to_string(),
                        status: if previous_status == ProcessStatus::Starting {
                            ProcessStatus::Failed
                        } else {
                            ProcessStatus::Stopped
                        },
                        ownership: None,
                        identity: None,
                        output,
                    },
                );
                let _ = self.failed_responsiveness_checks.remove(application_id);
                let _ = self.startup_started_at.remove(application_id);
                let _ = self.post_start_ready_at.remove(application_id);
                if session_was_active {
                    self.record_session_event(application_id, SessionEventKind::ApplicationExited);
                }
            },
        }
        Ok(())
    }

    /// Refreshes every recorded Process, then moves the Session on.
    fn refresh_processes(&mut self) -> (res: Result<CommandOutcome, CoreError>)
        requires
            session_consistent(old(self).session@),
        ensures
            session_consistent(final(self).session@),
            final(self).same_records(old(self)),
            res is Ok ==> res->Ok_0 is ProcessesRefreshed,
            old(self).session@.state == SessionState::Idle ==> final(self).session@.state == SessionState::Idle,
            old(self).session@.state == SessionState::RecoveryAvailable ==> final(self).session@.state
                == SessionState::RecoveryAvailable,
            (old(self).session@.state == SessionState::Idle || old(self).session@.state == SessionState::Active
                || old(self).session@.state == SessionState::RecoveryAvailable) && no_identified_process(
                old(self).application_processes@,
            ) ==> res is Ok && final(self).application_processes@ == old(self).application_processes@,
            res is Err && (old(self).session@.state == SessionState::Idle || old(self).session@.state == SessionState::Active
                || old(self).session@.state == SessionState::RecoveryAvailable) ==> res->Err_0 is ProcessRuntime,
            old(self).session@.state == SessionState::Closing ==> old(self).requests@.is_prefix_of(final(self).requests@)
                && only_graceful_stops(final(self).requests@, old(self).requests@.len() as int),
            old(self).session@.state == SessionState::Starting && (final(self).session@.state == SessionState::Cancelling
                || final(self).session@.state == SessionState::Idle) ==> required_application_failed(
                final(self).startup_cancelled_with@,
            ),
            old(self).session@.state == SessionState::Active && res is Ok ==> final(self).session@.state == (if primary_has_exited(
                final(self).session@.applications,
            ) {
                SessionState::Closing
            } else {
                SessionState::Active
            }),
    {
        let count = self.application_processes.len();
        let mut application_ids: Vec<String> = Vec::new();
        let mut index: usize = 0;
        while index < count
            invariant
                count == self.application_processes.key_order().len(),
                index <= count,
            decreases count - index,
        {
            application_ids.push(self.application_processes.key_at(index).clone());
            index = index + 1;
        }
        let mut position: usize = 0;
        while position < application_ids.len()
            invariant
                position <= application_ids@.len(),
                self.session@.state == old(self).session@.state,
                self.session@.active_profile_id == old(self).session@.active_profile_id,
                self.session@.applications == old(self).session@.applications,
                self.same_records(old(self)),
                session_consistent(self.session@),
                no_identified_process(old(self).application_processes@) ==> self.application_processes@
                    == old(self).application_processes@,
                self.requests@ == old(self).requests@,
            decreases application_ids@.len() - position,
        {
            self.refresh_process(application_ids[position].as_str())?;
            position = position + 1;
        }
        self.sync_session_application_states();
        match self.session.state {
            SessionState::Starting => self.advance_session_startup()?,
            SessionState::Cancelling => self.advance_session_cancellation()?,
            SessionState::Active => self.begin_close_if_primary_exited(),
            SessionState::Closing => self.advance_session_close()?,
            _ => {},
        }
        Ok(CommandOutcome::ProcessesRefreshed)
    }
}


/// A command whose state change stands may still fail to store the journal.
proof fn storage_failure_keeps_effect(
    command: AppCommand,
    before: SessionSnapshotView,
    after: SessionSnapshotView,
    processes: Map<Seq<char>, ApplicationProcessSnapshot>,
    outcome: CommandOutcome,
    error: CoreError,
)
    requires
        command_effect(command, before, after, processes, Ok(outcome)),
        error is Storage,
    ensures
        command_effect(command, before, after, processes, Err(error)),
{
}

/// A profile change that stands may still fail to store the journal.
proof fn storage_failure_keeps_profile_effect(
    command: AppCommand,
    session: SessionSnapshotView,
    before: Seq<RacingProfileView>,
    after: Seq<RacingProfileView>,
    selected_after: Option<Seq<char>>,
    outcome: CommandOutcome,
    error: CoreError,
)
    requires
        profile_effect(command, session, before, after, selected_after, Ok(outcome)),
        error is Storage,
    ensures
        profile_effect(command, session, before, after, selected_after, Err(error)),
{
}

/// A lease change that stands may still fail to store the journal.
proof fn storage_failure_keeps_lease_effect(
    command: AppCommand,
    state: SessionState,
    installing_before: Option<Seq<char>>,
    installing_after: Option<Seq<char>>,
    outcome: CommandOutcome,
    error: CoreError,
)
    requires
        lease_effect(command, state, installing_before, installing_after, Ok(outcome)),
        error is Storage,
    ensures
        lease_effect(command, state, installing_before, installing_after, Err(error)),
{
}

/// Whether a Session state lets an application be force-stopped.
pub open spec fn force_stop_available(state: SessionState) -> bool {
    state == SessionState::Idle || state == SessionState::Active || state == SessionState::Closing
}

/// What `execute` promises of the application Processes for the commands that
/// stop one, given the Session state and the Processes before and after: a
/// missing application is reported, and a Process that was found running is
/// left alone until the user confirms control of it, as is any Process whose
/// force stop the user has not confirmed.
pub open spec fn process_effect(
    command: AppCommand,
    state: SessionState,
    before: Map<Seq<char>, ApplicationProcessSnapshot>,
    after: Map<Seq<char>, ApplicationProcessSnapshot>,
    result: Result<CommandOutcome, CoreError>,
) -> bool {
    match command {
        AppCommand::ExitApplication { application_id, pre_existing_confirmed } => {
            &&& !manual_lifecycle_available(state) ==> after == before
            &&& manual_lifecycle_available(state) && !before.contains_key(application_id@) ==> result == Err::<
                CommandOutcome,
                CoreError,
            >(CoreError::ApplicationNotFound(application_id)) && after == before
            &&& manual_lifecycle_available(state) && before.contains_key(application_id@)
                && before[application_id@].ownership == Some(ProcessOwnership::PreExisting) && !pre_existing_confirmed
                ==> (result == Ok::<CommandOutcome, CoreError>(
                CommandOutcome::PreExistingControlConfirmationRequired { application_id },
            ) || storage_failure(result)) && after == before
        },
        AppCommand::ForceStopApplication { application_id, pre_existing_confirmed, force_confirmed } => {
            &&& !force_stop_available(state) ==> after == before
            &&& force_stop_available(state) && !before.contains_key(application_id@) ==> result == Err::<
                CommandOutcome,
                CoreError,
            >(CoreError::ApplicationNotFound(application_id)) && after == before
            &&& force_stop_available(state) && before.contains_key(application_id@)
                && before[application_id@].ownership == Some(ProcessOwnership::PreExisting) && !pre_existing_confirmed
                ==> (result == Ok::<CommandOutcome, CoreError>(
                CommandOutcome::PreExistingControlConfirmationRequired { application_id },
            ) || storage_failure(result)) && after == before
            &&& force_stop_available(state) && before.contains_key(application_id@) && !(
            before[application_id@].ownership == Some(ProcessOwnership::PreExisting) && !pre_existing_confirmed)
                && !force_confirmed ==> (result == Ok::<CommandOutcome, CoreError>(
                CommandOutcome::ForceStopConfirmationRequired { application_id },
            ) || storage_failure(result)) && after == before
        },
        _ => true,
    }
}

/// A Process that Formation Lap found running is never stopped, by Exit or by
/// Force Stop, before the user confirms control of it: until then every
/// recorded Process stays as it was.
pub proof fn found_processes_stay_until_control_is_confirmed(
    command: AppCommand,
    state: SessionState,
    before: Map<Seq<char>, ApplicationProcessSnapshot>,
    after: Map<Seq<char>, ApplicationProcessSnapshot>,
    result: Result<CommandOutcome, CoreError>,
)
    requires
        process_effect(command, state, before, after, result),
        match command {
            AppCommand::ExitApplication { application_id, pre_existing_confirmed } => !pre_existing_confirmed
                && before.contains_key(application_id@) && before[application_id@].ownership == Some(
                ProcessOwnership::PreExisting,
            ),
            AppCommand::ForceStopApplication { application_id, pre_existing_confirmed, .. } => !pre_existing_confirmed
                && before.contains_key(application_id@) && before[application_id@].ownership == Some(
                ProcessOwnership::PreExisting,
            ),
            _ => false,
        },
    ensures
        after == before,
{
}

/// A Force Stop the user has not confirmed changes no recorded Process.
pub proof fn force_stop_waits_for_confirmation(
    command: AppCommand,
    state: SessionState,
    before: Map<Seq<char>, ApplicationProcessSnapshot>,
    after: Map<Seq<char>, ApplicationProcessSnapshot>,
    result: Result<CommandOutcome, CoreError>,
)
    requires
        process_effect(command, state, before, after, result),
        command matches AppCommand::ForceStopApplication { force_confirmed, .. } && !force_confirmed,
    ensures
        after == before,
{
}

/// A Process change that stands may still fail to store the journal.
proof fn storage_failure_keeps_process_effect(
    command: AppCommand,
    state: SessionState,
    before: Map<Seq<char>, ApplicationProcessSnapshot>,
    after: Map<Seq<char>, ApplicationProcessSnapshot>,
    outcome: CommandOutcome,
    error: CoreError,
)
    requires
        process_effect(command, state, before, after, Ok(outcome)),
        error is Storage,
    ensures
        process_effect(command, state, before, after, Err(error)),
{
}

impl<R: ProcessRuntime, B: PrivilegeBroker, H: CoreHost> FormationLapCore<R, B, H> {
    fn execute_inner(&mut self, command: AppCommand) -> (res: Result<CommandOutcome, CoreError>)
        requires
            session_consistent(old(self).session@),
        ensures
            session_consistent(final(self).session@),
            command_effect(command, old(self).session@, final(self).session@, final(self).application_processes@, res),
            profile_effect(
                command,
                old(self).session@,
                old(self).profile_library@,
                final(self).profile_library@,
                final(self).settings_store@.selected_profile_id,
                res,
            ),
            lease_effect(command, old(self).session@.state, old(self).installing(), final(self).installing(), res),
            process_effect(
                command,
                old(self).session@.state,
                old(self).application_processes@,
                final(self).application_processes@,
                res,
            ),
            command matches AppCommand::StartSession { profile_id } ==> (old(self).session@.state == SessionState::Idle
                && old(self).formation_lap_installing is None && old(self).needs_review(profile_id@) ==> res
                == Err::<CommandOutcome, CoreError>(CoreError::ProfileNeedsReview(profile_id)) && final(self).session@
                == old(self).session@),
            start_session_effect(
                command,
                old(self).session@,
                old(self).profile_library@,
                final(self).session@,
                old(self).application_processes@,
                final(self).application_processes@,
                final(self).pending_process_confirmation is Some,
                res,
            ),
            command is ImportProfile ==> (res matches Ok(CommandOutcome::ProfileCreated { profile_id }) ==> final(self).needs_review(
                profile_id@,
            )),
            window_close_effect(
                command,
                old(self).session@,
                final(self).session@,
                old(self).application_processes@,
                final(self).application_processes@,
                res,
            ),
            stale_confirmation_effect(
                command,
                old(self).session@,
                final(self).session@,
                old(self).application_processes@,
                final(self).application_processes@,
                old(self).pending_confirmation(),
                final(self).pending_confirmation(),
                res,
            ),
            requests_nothing(command, old(self).session@, old(self).pending_confirmation()) ==> final(self).requests()
                == old(self).requests(),
            update_check_effect(command, old(self).session@.state, old(self).update_check_pending(), old(self).settings_store@, res),
            refresh_effect(command, old(self).session@, final(self).session@, res),
            startup_cancel_effect(command, old(self).session@, final(self).session@, final(self).startup_cancelled_with(), res),
            game_launch_effect(command, old(self).profile_library@, final(self).profile_library@, final(self).application_processes@, res),
            closing_refresh_requests(command, old(self).session@, old(self).requests(), final(self).requests()),
            exit_requests_effect(
                command,
                old(self).application_processes@,
                old(self).requests(),
                final(self).requests(),
                final(self).confirmation_pending(),
                res,
            ),
    {
        match command {
            AppCommand::CreateProfile { name, primary_sim_name } => self.create_profile(name, primary_sim_name),
            AppCommand::EditProfile { profile_id, name, primary_sim_name } => self.edit_profile(profile_id, name, primary_sim_name),
            AppCommand::DeleteProfile { profile_id } => self.delete_profile(profile_id),
            AppCommand::DuplicateProfile { source_profile_id, name } => self.duplicate_profile(source_profile_id, name),
            AppCommand::SaveProfile { profile } => self.save_profile(*profile),
            AppCommand::SelectProfile { profile_id } => self.select_profile(profile_id),
            AppCommand::ExportProfile { profile_id } => self.export_profile(profile_id),
            AppCommand::ImportProfile { document } => self.import_profile(document),
            AppCommand::ApproveProfile { profile_id, configuration_reviewed, approved_privileged_application_ids } => {
                self.approve_profile(profile_id, configuration_reviewed, approved_privileged_application_ids)
            },
            AppCommand::StartApplication { profile_id, application_id } => self.start_application(profile_id, application_id),
            AppCommand::ExitApplication { application_id, pre_existing_confirmed } => {
                self.exit_application(application_id, pre_existing_confirmed)
            },
            AppCommand::ForceStopApplication { application_id, pre_existing_confirmed, force_confirmed } => {
                self.force_stop_application(application_id, pre_existing_confirmed, force_confirmed)
            },
            AppCommand::ConfirmProcessAction { token } => self.confirm_process_action(token),
            AppCommand::CancelProcessAction { token } => Ok(self.cancel_process_action(token)),
            AppCommand::RestartApplication { profile_id, application_id, pre_existing_confirmed } => {
                self.restart_application(profile_id, application_id, pre_existing_confirmed)
            },
            AppCommand::StartSession { profile_id } => self.start_session(profile_id),
            AppCommand::CancelStartup => self.cancel_startup(),
            AppCommand::CloseSession => self.close_session(),
            AppCommand::AcceptRecovery => self.accept_recovery(),
            AppCommand::DismissRecovery => self.dismiss_recovery(),
            AppCommand::TestGameLaunch { profile_id } => self.test_game_launch(profile_id),
            AppCommand::RequestWindowClose => Ok(self.request_window_close()),
            AppCommand::RequestQuit { disposition } => self.request_quit(disposition),
            AppCommand::UpdateSettings { settings } => self.update_settings(settings),
            AppCommand::ExportDiagnostics => Ok(self.export_diagnostics()),
            AppCommand::PrepareUpdateCheck { trigger, now_unix_seconds } => self.prepare_update_check(trigger, now_unix_seconds),
            AppCommand::CompleteUpdateCheck { result } => self.complete_update_check(result),
            AppCommand::CancelUpdateCheck { request_id } => self.cancel_update_check(request_id),
            AppCommand::PrepareFormationLapInstall => self.prepare_formation_lap_install(),
            AppCommand::CancelFormationLapInstall { expected_version } => self.cancel_formation_lap_install(expected_version),
            AppCommand::RefreshProcesses => self.refresh_processes(),
        }
    }
}

impl<R: ProcessRuntime, B: PrivilegeBroker, H: CoreHost> FormationLapCore<R, B, H> {
    fn sync_session_journal(&mut self) -> (res: Result<(), CoreError>)
        ensures
            final(self).startup_cancelled_with@ == old(self).startup_cancelled_with@,
            final(self).requests@ == old(self).requests@,
            final(self).profile_library == old(self).profile_library,
            final(self).pending_process_confirmation == old(self).pending_process_confirmation,
            final(self).session@ == old(self).session@,
            final(self).application_processes@ == old(self).application_processes@,
            final(self).same_records(old(self)),
            res is Err ==> res->Err_0 is Storage,
    {
        let result = if self.session.state == SessionState::Idle {
            self.host.clear_session_journal()
        } else {
            let listed = journaled_processes(&self.application_processes);
            self.host.persist_session_journal(&self.session, &listed)
        };
        match result {
            Ok(()) => Ok(()),
            Err(failure) => Err(CoreError::Storage { message: failure.message, invalid_data: failure.invalid_data }),
        }
    }

    /// Executes one command; on success the journal is brought up to date, a
    /// held update result is released once the Session is Idle, and the outcome
    /// goes to the diagnostic log.
    pub fn execute(&mut self, command: AppCommand) -> (res: Result<CommandOutcome, CoreError>)
        requires
            old(self).wf(),
        ensures
            final(self).wf(),
            command_effect(command, old(self).session_view(), final(self).session_view(), final(self).process_map(), res),
            profile_effect(
                command,
                old(self).session_view(),
                old(self).profiles_view(),
                final(self).profiles_view(),
                final(self).settings_view().selected_profile_id,
                res,
            ),
            lease_effect(command, old(self).session_view().state, old(self).installing(), final(self).installing(), res),
            process_effect(command, old(self).session_view().state, old(self).process_map(), final(self).process_map(), res),
            command matches AppCommand::StartSession { profile_id } ==> (old(self).session_view().state
                == SessionState::Idle && old(self).installing() is None && old(self).needs_review(profile_id@) ==> res
                == Err::<CommandOutcome, CoreError>(CoreError::ProfileNeedsReview(profile_id)) && final(self).session_view()
                == old(self).session_view()),
            start_session_effect(
                command,
                old(self).session_view(),
                old(self).profiles_view(),
                final(self).session_view(),
                old(self).process_map(),
                final(self).process_map(),
                final(self).confirmation_pending(),
                res,
            ),
            stale_confirmation_effect(
                command,
                old(self).session_view(),
                final(self).session_view(),
                old(self).process_map(),
                final(self).process_map(),
                old(self).pending_confirmation(),
                final(self).pending_confirmation(),
                res,
            ),
            window_close_effect(
                command,
                old(self).session_view(),
                final(self).session_view(),
                old(self).process_map(),
                final(self).process_map(),
                res,
            ) || res is Err && res->Err_0 is Storage,
            command is ImportProfile ==> (res matches Ok(CommandOutcome::ProfileCreated { profile_id }) ==> final(self).needs_review(
                profile_id@,
            )),
            requests_nothing(command, old(self).session_view(), old(self).pending_confirmation()) ==> final(self).requests()
                == old(self).requests(),
            update_check_effect(command, old(self).session_view().state, old(self).update_check_pending(), old(self).settings_view(), res),
            refresh_effect(command, old(self).session_view(), final(self).session_view(), res),
            startup_cancel_effect(command, old(self).session_view(), final(self).session_view(), final(self).startup_cancelled_with(), res),
            game_launch_effect(command, old(self).profiles_view(), final(self).profiles_view(), final(self).process_map(), res),
            closing_refresh_requests(command, old(self).session_view(), old(self).requests(), final(self).requests()),
            exit_requests_effect(
                command,
                old(self).process_map(),
                old(self).requests(),
                final(self).requests(),
                final(self).confirmation_pending(),
                res,
            ),
    {
        let label = diagnostic_label(&command);
        let record_success = match &command {
            AppCommand::RefreshProcesses => false,
            AppCommand::PrepareUpdateCheck { trigger, .. } => *trigger != UpdateCheckTrigger::Automatic,
            _ => true,
        };
        let ghost before = self.session@;
        let ghost profiles_before = self.profile_library@;
        let ghost installing_before = self.installing();
        let ghost processes_before = self.application_processes@;
        let ghost spec_command = command;
        match self.execute_inner(command) {
            Ok(outcome) => {
                self.update_advisor.release_deferred_if_safe(self.session.state);
                match self.sync_session_journal() {
                    Ok(()) => {},
                    Err(error) => {
                        self.host.record_diagnostic(label, "failed");
                        proof {
                            storage_failure_keeps_effect(spec_command, before, self.session@, self.application_processes@, outcome, error);
                            storage_failure_keeps_profile_effect(
                                spec_command,
                                before,
                                profiles_before,
                                self.profile_library@,
                                self.settings_store@.selected_profile_id,
                                outcome,
                                error,
                            );
                            storage_failure_keeps_lease_effect(
                                spec_command,
                                before.state,
                                installing_before,
                                self.installing(),
                                outcome,
                                error,
                            );
                            storage_failure_keeps_process_effect(
                                spec_command,
                                before.state,
                                processes_before,
                                self.application_processes@,
                                outcome,
                                error,
                            );
                        }
                        return Err(error);
                    },
                }
                if record_success {
                    self.host.record_diagnostic(label, "succeeded");
                }
                Ok(outcome)
            },
            Err(error) => {
                self.host.record_diagnostic(label, "failed");
                Err(error)
            },
        }
    }
}

impl<R: ProcessRuntime, H: CoreHost> FormationLapCore<R, DevelopmentPrivilegeBroker, H> {
    /// Opens the core with a Process runtime and a privilege broker that
    /// performs no elevated work, as development and tests use it.
    pub fn open_with_runtime(stored: StoredState, process_runtime: R, host: H) -> (res: Result<Self, CoreError>)
        ensures
            res is Ok ==> res->Ok_0.wf(),
            res is Ok ==> all_pre_existing(res->Ok_0.process_map()),
            res is Ok ==> (res->Ok_0.session_view().state == SessionState::RecoveryAvailable
                <==> has_processes(res->Ok_0.process_map())),
            res is Ok ==> (res->Ok_0.session_view().state == SessionState::Idle
                || res->Ok_0.session_view().state == SessionState::RecoveryAvailable),
            res is Ok ==> res->Ok_0.installing() is None && !res->Ok_0.confirmation_pending(),
            stored.settings matches Some(document) && document.schema_version != crate::settings::SETTINGS_SCHEMA_VERSION
                ==> res is Err && res->Err_0 == CoreError::UnsupportedSettingsSchema(stored.settings->0.schema_version),
            res is Err && !(stored.settings matches Some(document) && document.schema_version
                != crate::settings::SETTINGS_SCHEMA_VERSION) ==> res->Err_0 is Storage,
            !(stored.settings matches Some(document) && document.schema_version != crate::settings::SETTINGS_SCHEMA_VERSION)
                && stored.recovered is None ==> res is Ok && res->Ok_0.session_view().state == SessionState::Idle
                && res->Ok_0.process_map() == Map::<Seq<char>, ApplicationProcessSnapshot>::empty(),
            res is Ok ==> res->Ok_0.settings_view() == match stored.settings {
                Some(document) => crate::settings::document_settings(document),
                None => crate::settings::SettingsView {
                    selected_profile_id: None,
                    desktop: crate::model::default_desktop_settings(),
                    last_automatic_update_check_unix_seconds: None,
                },
            },
            res is Ok ==> res->Ok_0.profiles_view().len() == stored.profiles@.len() && crate::profile_library::profiles_sorted(
                res->Ok_0.profiles_view(),
            ) && res->Ok_0.profiles_view().to_multiset() == crate::profile_library::profile_views(
                stored.profiles@,
            ).to_multiset(),
            res is Ok && stored.recovered is Some ==> recovered_from_journal(
                stored.recovered->0.application_processes@,
                res->Ok_0.process_map(),
            ),
    {
        Self::open_with_runtime_and_privilege_broker(stored, process_runtime, DevelopmentPrivilegeBroker::new(), host)
    }
}

} // verus!
