//! The narrow native command surface the window calls: typed payloads in,
//! the authoritative snapshot or a structured error out.
use crate::contracts::AppSnapshot;
use crate::errors::{error_message, CoreError};
use crate::formation_core::{
    command_effect, lease_effect, process_effect, profile_effect, quit_closing_session, window_close_action, AppCommand, CommandOutcome,
    FormationLapCore, StoredState,
};
use crate::host::CoreHost;
use crate::launch_recipe::GameLaunchDiagnostic;
use crate::model::{
    ApplicationProcessSnapshot, DesktopSettings, DiagnosticExport, FormationLapInstallDecision, QuitAction,
    QuitDisposition, RacingProfile, RacingProfileView, SessionSnapshotView, SessionState, UpdateCheckDecision, UpdateCheckResult,
    UpdateCheckTrigger, WindowCloseAction,
};
use crate::privilege_broker::{DevelopmentPrivilegeBroker, PrivilegeBroker};
use crate::process_runtime::ProcessRuntime;
use vstd::prelude::*;

verus! {

/// Typed input accepted by the narrow create-profile command.
#[derive(Debug)]
pub struct CreateProfilePayload {
    pub name: String,
    pub primary_sim_name: String,
}

/// Complete editable Racing Profile accepted by the save command.
#[derive(Debug)]
pub struct SaveProfilePayload {
    pub profile: RacingProfile,
}

/// Stable Racing Profile target accepted by selection and destructive commands.
#[derive(Debug)]
pub struct ProfileIdPayload {
    pub profile_id: String,
}

/// Source and new name accepted by the duplicate-profile command.
#[derive(Debug)]
pub struct DuplicateProfilePayload {
    pub source_profile_id: String,
    pub name: String,
}

/// Portable JSON accepted by the import-profile command.
#[derive(Debug)]
pub struct ImportProfilePayload {
    pub document: String,
}

/// Explicit executable-configuration approval for one reviewed Racing Profile.
#[derive(Debug)]
pub struct ApproveProfilePayload {
    pub profile_id: String,
    pub configuration_reviewed: bool,
    pub approved_privileged_application_ids: Vec<String>,
}

/// Racing Profile and configured application accepted by start commands.
#[derive(Debug)]
pub struct ApplicationTargetPayload {
    pub profile_id: String,
    pub application_id: String,
}

/// Explicit application exit request plus Pre-existing Process confirmation.
#[derive(Debug)]
pub struct ExitApplicationPayload {
    pub application_id: String,
    pub pre_existing_confirmed: bool,
}

/// Explicit force-stop request with both required ownership confirmations.
#[derive(Debug)]
pub struct ForceStopApplicationPayload {
    pub application_id: String,
    pub pre_existing_confirmed: bool,
    pub force_confirmed: bool,
}

/// Explicit restart request plus Pre-existing Process confirmation.
#[derive(Debug)]
pub struct RestartApplicationPayload {
    pub profile_id: String,
    pub application_id: String,
    pub pre_existing_confirmed: bool,
}

/// Curated Primary Sim target accepted by recommendation commands.
#[derive(Debug)]
pub struct PrimarySimIdPayload {
    pub primary_sim_id: String,
}

/// Complete local desktop settings accepted by the update command.
#[derive(Debug)]
pub struct UpdateSettingsPayload {
    pub settings: DesktopSettings,
}

/// Explicit application disposition accepted by the native Quit command.
#[derive(Debug)]
pub struct QuitPayload {
    pub disposition: QuitDisposition,
}

/// Structured error returned across the window seam.
#[derive(Debug, PartialEq, Eq)]
pub struct CommandError {
    pub code: String,
    pub message: String,
    pub recovery: Option<String>,
    pub diagnostic_id: Option<String>,
}

/// The stable code the window receives for a core error.
pub open spec fn error_code(error: CoreError) -> Seq<char> {
    match error {
        CoreError::InvalidProfileName(_) => "invalid_profile"@,
        CoreError::ProfileNotFound(_) => "profile_not_found"@,
        CoreError::ProfileNeedsReview(_) | CoreError::InvalidProfileApproval(_) => "profile_needs_review"@,
        CoreError::InvalidProcessConfirmation => "invalid_process_confirmation"@,
        CoreError::ApplicationNotFound(_) => "application_not_found"@,
        CoreError::ProcessRuntime(_) => "process_runtime_failed"@,
        CoreError::PrivilegeBroker(_) => "privileged_operation_failed"@,
        CoreError::DiscoveryCatalog(_) => "invalid_curated_catalog"@,
        CoreError::InvalidLaunchRecipe(_) => "invalid_launch_recipe"@,
        CoreError::InvalidSessionTransition { .. } => "invalid_session_transition"@,
        CoreError::InvalidUpdateCheck(_) => "invalid_update_check"@,
        CoreError::ActivityConflict { .. } => "activity_conflict"@,
        CoreError::Storage { invalid_data, .. } => if invalid_data {
            "invalid_local_state"@
        } else {
            "storage_failed"@
        },
        _ => "invalid_local_state"@,
    }
}

/// The recovery advice the window shows with a core error.
pub open spec fn error_recovery(error: CoreError) -> Seq<char> {
    match error {
        CoreError::InvalidProfileName(_) => "Enter a name and try again."@,
        CoreError::ProfileNotFound(_) => "Refresh the profile list and try again."@,
        CoreError::ProfileNeedsReview(_) | CoreError::InvalidProfileApproval(_) => {
            "Review every executable setting and approve privileged entries."@
        },
        CoreError::InvalidProcessConfirmation => "Refresh the application list and try again."@,
        CoreError::ApplicationNotFound(_) => "Refresh the Racing Profile and try again."@,
        CoreError::ProcessRuntime(_) => "Check the application path and try again."@,
        CoreError::PrivilegeBroker(_) => "Approve the Windows prompt and verify the application path."@,
        CoreError::DiscoveryCatalog(_) => "Reinstall Formation Lap from an official signed release."@,
        CoreError::InvalidLaunchRecipe(_) => "Review the Primary Sim Launch Recipe and try again."@,
        CoreError::InvalidSessionTransition { .. } => "Wait for the current Session action to finish."@,
        CoreError::InvalidUpdateCheck(_) => "Start a fresh update check and try again."@,
        CoreError::ActivityConflict { .. } => "Wait for the current native activity to finish."@,
        CoreError::Storage { invalid_data, .. } => if invalid_data {
            "Restore a valid backup or export diagnostics."@
        } else {
            "Check local storage access and try again."@
        },
        _ => "Restore a valid backup or export diagnostics."@,
    }
}

/// The fixed message of errors whose details stay local, if the error has one.
pub open spec fn fixed_error_message(error: CoreError) -> Option<Seq<char>> {
    match error {
        CoreError::DiscoveryCatalog(_) => Some("Formation Lap could not open its bundled Curated Catalog."@),
        CoreError::Storage { invalid_data, .. } => if invalid_data {
            Some("Formation Lap found local profile data it cannot safely open."@)
        } else {
            Some("Formation Lap could not update local profile storage."@)
        },
        CoreError::InvalidProfileDocument(_) | CoreError::UnsupportedProfileSchema(_)
        | CoreError::InvalidSettingsDocument(_) | CoreError::UnsupportedSettingsSchema(_)
        | CoreError::InvalidSessionJournal(_) | CoreError::InvalidGameLaunchDiagnostic(_)
        | CoreError::UnsupportedSessionJournalSchema(_) => {
            Some("Formation Lap found local profile data it cannot safely open."@)
        },
        _ => None,
    }
}

/// Whether a window error is the structured form of a core error.
pub open spec fn reports(command_error: CommandError, error: CoreError) -> bool {
    &&& command_error.code@ == error_code(error)
    &&& command_error.recovery matches Some(recovery) && recovery@ == error_recovery(error)
    &&& command_error.diagnostic_id is None
    &&& command_error.message@ == match fixed_error_message(error) {
        Some(message) => message,
        None => error_message(error),
    }
}

/// The structured error the window receives for a core error: a stable code,
/// the message, and what the user can do about it.
pub fn command_error(error: CoreError) -> (res: CommandError)
    ensures
        reports(res, error),
{
    let (code, fixed, recovery) = match &error {
        CoreError::InvalidProfileName(_) => ("invalid_profile", None, "Enter a name and try again."),
        CoreError::ProfileNotFound(_) => ("profile_not_found", None, "Refresh the profile list and try again."),
        CoreError::ProfileNeedsReview(_) | CoreError::InvalidProfileApproval(_) => (
            "profile_needs_review",
            None,
            "Review every executable setting and approve privileged entries.",
        ),
        CoreError::InvalidProcessConfirmation => (
            "invalid_process_confirmation",
            None,
            "Refresh the application list and try again.",
        ),
        CoreError::ApplicationNotFound(_) => ("application_not_found", None, "Refresh the Racing Profile and try again."),
        CoreError::ProcessRuntime(_) => ("process_runtime_failed", None, "Check the application path and try again."),
        CoreError::PrivilegeBroker(_) => (
            "privileged_operation_failed",
            None,
            "Approve the Windows prompt and verify the application path.",
        ),
        CoreError::DiscoveryCatalog(_) => (
            "invalid_curated_catalog",
            Some("Formation Lap could not open its bundled Curated Catalog."),
            "Reinstall Formation Lap from an official signed release.",
        ),
        CoreError::InvalidLaunchRecipe(_) => (
            "invalid_launch_recipe",
            None,
            "Review the Primary Sim Launch Recipe and try again.",
        ),
        CoreError::InvalidSessionTransition { .. } => (
            "invalid_session_transition",
            None,
            "Wait for the current Session action to finish.",
        ),
        CoreError::InvalidUpdateCheck(_) => ("invalid_update_check", None, "Start a fresh update check and try again."),
        CoreError::ActivityConflict { .. } => ("activity_conflict", None, "Wait for the current native activity to finish."),
        CoreError::Storage { invalid_data, .. } => if *invalid_data {
            (
                "invalid_local_state",
                Some("Formation Lap found local profile data it cannot safely open."),
                "Restore a valid backup or export diagnostics.",
            )
        } else {
            (
                "storage_failed",
                Some("Formation Lap could not update local profile storage."),
                "Check local storage access and try again.",
            )
        },
        _ => (
            "invalid_local_state",
            Some("Formation Lap found local profile data it cannot safely open."),
            "Restore a valid backup or export diagnostics.",
        ),
    };
    let message = match fixed {
        Some(text) => text.to_string(),
        None => error.message(),
    };
    CommandError {
        code: code.to_string(),
        message,
        recovery: Some(recovery.to_string()),
        diagnostic_id: None,
    }
}

/// An error for a command whose outcome the window did not expect.
fn unexpected_outcome(message: &str) -> (res: CommandError)
    ensures
        res.code@ == "unexpected_outcome"@,
        res.message@ == message@,
{
    CommandError {
        code: String::from_str("unexpected_outcome"),
        message: message.to_string(),
        recovery: Some(String::from_str("Try the action again.")),
        diagnostic_id: None,
    }
}

/// Whether a window result reports some result of a command that the core's
/// command contract allows: the same success or failure, a failure with the
/// structured form of the core error.
pub open spec fn reported<T>(
    command: AppCommand,
    before: SessionSnapshotView,
    after: SessionSnapshotView,
    processes_before: Map<Seq<char>, ApplicationProcessSnapshot>,
    processes: Map<Seq<char>, ApplicationProcessSnapshot>,
    profiles_before: Seq<RacingProfileView>,
    profiles_after: Seq<RacingProfileView>,
    selected_after: Option<Seq<char>>,
    installing_before: Option<Seq<char>>,
    installing_after: Option<Seq<char>>,
    res: Result<T, CommandError>,
) -> bool {
    exists|result: Result<CommandOutcome, CoreError>| #[trigger] command_effect(command, before, after, processes, result)
        && profile_effect(command, before, profiles_before, profiles_after, selected_after, result) && lease_effect(
        command,
        before.state,
        installing_before,
        installing_after,
        result,
    ) && process_effect(command, before.state, processes_before, processes, result) && (result is Ok <==> res is Ok)
        && (result is Err ==> reports(res->Err_0, result->Err_0))
}

/// Runs every native request through one Formation Lap core.
pub struct NativeCommandHost<R, B, H> {
    core: FormationLapCore<R, B, H>,
}

impl<R: ProcessRuntime, B: PrivilegeBroker, H: CoreHost> NativeCommandHost<R, B, H> {
    /// The host's consistency: its core's.
    pub closed spec fn wf(&self) -> bool {
        self.core.wf()
    }

    /// The Session as the window shows it.
    pub closed spec fn session_view(&self) -> SessionSnapshotView {
        self.core.session_view()
    }

    /// The core the host serves.
    pub closed spec fn served(&self) -> FormationLapCore<R, B, H> {
        self.core
    }

    /// Whether a stored profile waits for review of an unapproved elevated application.
    pub closed spec fn needs_review(&self, profile_id: Seq<char>) -> bool {
        self.core.needs_review(profile_id)
    }

    /// The recorded Processes.
    pub closed spec fn process_map(&self) -> Map<Seq<char>, ApplicationProcessSnapshot> {
        self.core.process_map()
    }

    /// The Racing Profiles, in order.
    pub closed spec fn profiles_view(&self) -> Seq<RacingProfileView> {
        self.core.profiles_view()
    }

    /// The version whose installation holds the lease, if one does.
    pub closed spec fn installing(&self) -> Option<Seq<char>> {
        self.core.installing()
    }

    /// The id of the selected Racing Profile, if one is selected.
    pub closed spec fn selected_profile_id(&self) -> Option<Seq<char>> {
        self.core.settings_view().selected_profile_id
    }

    /// Opens the host over stored state and the platform's Process runtime,
    /// privilege broker and host adapter.
    pub fn open(stored: StoredState, process_runtime: R, privilege_broker: B, host: H) -> (res: Result<Self, CommandError>)
        ensures
            res is Ok ==> res->Ok_0.wf() && (res->Ok_0.session_view().state == SessionState::Idle
                || res->Ok_0.session_view().state == SessionState::RecoveryAvailable),
            stored.settings matches Some(document) && document.schema_version != crate::settings::SETTINGS_SCHEMA_VERSION
                ==> res is Err && reports(res->Err_0, CoreError::UnsupportedSettingsSchema(stored.settings->0.schema_version)),
            !(stored.settings matches Some(document) && document.schema_version != crate::settings::SETTINGS_SCHEMA_VERSION)
                && stored.recovered is None ==> res is Ok && res->Ok_0.session_view().state == SessionState::Idle
                && res->Ok_0.process_map() == Map::<Seq<char>, ApplicationProcessSnapshot>::empty(),
            res is Ok ==> res->Ok_0.profiles_view().len() == stored.profiles@.len() && res->Ok_0.profiles_view().to_multiset()
                == crate::profile_library::profile_views(stored.profiles@).to_multiset(),
    {
        match FormationLapCore::open_with_runtime_and_privilege_broker(stored, process_runtime, privilege_broker, host) {
            Ok(core) => Ok(NativeCommandHost { core }),
            Err(error) => Err(command_error(error)),
        }
    }

    fn run(&mut self, command: AppCommand) -> (res: Result<AppSnapshot, CommandError>)
        requires
            old(self).wf(),
        ensures
            final(self).wf(),
            reported(
                command,
                old(self).session_view(),
                final(self).session_view(),
                old(self).process_map(),
                final(self).process_map(),
                old(self).profiles_view(),
                final(self).profiles_view(),
                final(self).selected_profile_id(),
                old(self).installing(),
                final(self).installing(),
                res,
            ),
            res is Ok ==> res->Ok_0.session@ == final(self).session_view() && final(self).served().shows(res->Ok_0),
            command matches AppCommand::StartSession { profile_id } ==> (old(self).session_view().state
                == SessionState::Idle && old(self).installing() is None && old(self).needs_review(profile_id@) ==> res
                is Err && reports(res->Err_0, CoreError::ProfileNeedsReview(profile_id)) && final(self).session_view()
                == old(self).session_view()),
    {
        let result = self.core.execute(command);
        match result {
            Ok(_) => Ok(self.core.snapshot()),
            Err(error) => Err(command_error(error)),
        }
    }

    /// Creates a Racing Profile and selects it.
    pub fn create_profile(&mut self, payload: CreateProfilePayload) -> (res: Result<AppSnapshot, CommandError>)
        requires
            old(self).wf(),
        ensures
            final(self).wf(),
            reported(
                (AppCommand::CreateProfile { name: payload.name, primary_sim_name: payload.primary_sim_name }),
                old(self).session_view(),
                final(self).session_view(),
                old(self).process_map(),
                final(self).process_map(),
                old(self).profiles_view(),
                final(self).profiles_view(),
                final(self).selected_profile_id(),
                old(self).installing(),
                final(self).installing(),
                res,
            ),
            res is Ok ==> res->Ok_0.session@ == final(self).session_view() && final(self).served().shows(res->Ok_0),
    {
        self.run(AppCommand::CreateProfile { name: payload.name, primary_sim_name: payload.primary_sim_name })
    }

    /// Saves an edited Racing Profile.
    pub fn save_profile(&mut self, payload: SaveProfilePayload) -> (res: Result<AppSnapshot, CommandError>)
        requires
            old(self).wf(),
        ensures
            final(self).wf(),
            reported(
                (AppCommand::SaveProfile { profile: Box::new(payload.profile) }),
                old(self).session_view(),
                final(self).session_view(),
                old(self).process_map(),
                final(self).process_map(),
                old(self).profiles_view(),
                final(self).profiles_view(),
                final(self).selected_profile_id(),
                old(self).installing(),
                final(self).installing(),
                res,
            ),
            res is Ok ==> res->Ok_0.session@ == final(self).session_view() && final(self).served().shows(res->Ok_0),
    {
        self.run(AppCommand::SaveProfile { profile: Box::new(payload.profile) })
    }

    /// Selects a Racing Profile.
    pub fn select_profile(&mut self, payload: ProfileIdPayload) -> (res: Result<AppSnapshot, CommandError>)
        requires
            old(self).wf(),
        ensures
            final(self).wf(),
            reported(
                (AppCommand::SelectProfile { profile_id: payload.profile_id }),
                old(self).session_view(),
                final(self).session_view(),
                old(self).process_map(),
                final(self).process_map(),
                old(self).profiles_view(),
                final(self).profiles_view(),
                final(self).selected_profile_id(),
                old(self).installing(),
                final(self).installing(),
                res,
            ),
            res is Ok ==> res->Ok_0.session@ == final(self).session_view() && final(self).served().shows(res->Ok_0),
    {
        self.run(AppCommand::SelectProfile { profile_id: payload.profile_id })
    }

    /// Copies a Racing Profile under a new name.
    pub fn duplicate_profile(&mut self, payload: DuplicateProfilePayload) -> (res: Result<AppSnapshot, CommandError>)
        requires
            old(self).wf(),
        ensures
            final(self).wf(),
            reported(
                (AppCommand::DuplicateProfile { source_profile_id: payload.source_profile_id, name: payload.name }),
                old(self).session_view(),
                final(self).session_view(),
                old(self).process_map(),
                final(self).process_map(),
                old(self).profiles_view(),
                final(self).profiles_view(),
                final(self).selected_profile_id(),
                old(self).installing(),
                final(self).installing(),
                res,
            ),
            res is Ok ==> res->Ok_0.session@ == final(self).session_view() && final(self).served().shows(res->Ok_0),
    {
        self.run(AppCommand::DuplicateProfile { source_profile_id: payload.source_profile_id, name: payload.name })
    }

    /// Deletes a Racing Profile.
    pub fn delete_profile(&mut self, payload: ProfileIdPayload) -> (res: Result<AppSnapshot, CommandError>)
        requires
            old(self).wf(),
        ensures
            final(self).wf(),
            reported(
                (AppCommand::DeleteProfile { profile_id: payload.profile_id }),
                old(self).session_view(),
                final(self).session_view(),
                old(self).process_map(),
                final(self).process_map(),
                old(self).profiles_view(),
                final(self).profiles_view(),
                final(self).selected_profile_id(),
                old(self).installing(),
                final(self).installing(),
                res,
            ),
            res is Ok ==> res->Ok_0.session@ == final(self).session_view() && final(self).served().shows(res->Ok_0),
    {
        self.run(AppCommand::DeleteProfile { profile_id: payload.profile_id })
    }

    /// Imports a portable Racing Profile document.
    pub fn import_profile(&mut self, payload: ImportProfilePayload) -> (res: Result<AppSnapshot, CommandError>)
        requires
            old(self).wf(),
        ensures
            final(self).wf(),
            reported(
                (AppCommand::ImportProfile { document: payload.document }),
                old(self).session_view(),
                final(self).session_view(),
                old(self).process_map(),
                final(self).process_map(),
                old(self).profiles_view(),
                final(self).profiles_view(),
                final(self).selected_profile_id(),
                old(self).installing(),
                final(self).installing(),
                res,
            ),
            res is Ok ==> res->Ok_0.session@ == final(self).session_view() && final(self).served().shows(res->Ok_0),
    {
        self.run(AppCommand::ImportProfile { document: payload.document })
    }

    /// Records the review and approval of a Racing Profile.
    pub fn approve_profile(&mut self, payload: ApproveProfilePayload) -> (res: Result<AppSnapshot, CommandError>)
        requires
            old(self).wf(),
        ensures
            final(self).wf(),
            reported((AppCommand::ApproveProfile {
            profile_id: payload.profile_id,
            configuration_reviewed: payload.configuration_reviewed,
            approved_privileged_application_ids: payload.approved_privileged_application_ids,
        }), old(self).session_view(), final(self).session_view(), old(self).process_map(), final(self).process_map(), old(self).profiles_view(), final(self).profiles_view(), final(self).selected_profile_id(), old(self).installing(), final(self).installing(), res),
            res is Ok ==> res->Ok_0.session@ == final(self).session_view() && final(self).served().shows(res->Ok_0),
    {
        self.run(AppCommand::ApproveProfile {
            profile_id: payload.profile_id,
            configuration_reviewed: payload.configuration_reviewed,
            approved_privileged_application_ids: payload.approved_privileged_application_ids,
        })
    }

    /// Starts one configured application by hand.
    pub fn start_application(&mut self, payload: ApplicationTargetPayload) -> (res: Result<AppSnapshot, CommandError>)
        requires
            old(self).wf(),
        ensures
            final(self).wf(),
            reported(
                (AppCommand::StartApplication { profile_id: payload.profile_id, application_id: payload.application_id }),
                old(self).session_view(),
                final(self).session_view(),
                old(self).process_map(),
                final(self).process_map(),
                old(self).profiles_view(),
                final(self).profiles_view(),
                final(self).selected_profile_id(),
                old(self).installing(),
                final(self).installing(),
                res,
            ),
            res is Ok ==> res->Ok_0.session@ == final(self).session_view() && final(self).served().shows(res->Ok_0),
    {
        self.run(AppCommand::StartApplication { profile_id: payload.profile_id, application_id: payload.application_id })
    }

    /// Refreshes every recorded Process and moves the Session on.
    pub fn refresh_processes(&mut self) -> (res: Result<AppSnapshot, CommandError>)
        requires
            old(self).wf(),
        ensures
            final(self).wf(),
            reported(
                (AppCommand::RefreshProcesses),
                old(self).session_view(),
                final(self).session_view(),
                old(self).process_map(),
                final(self).process_map(),
                old(self).profiles_view(),
                final(self).profiles_view(),
                final(self).selected_profile_id(),
                old(self).installing(),
                final(self).installing(),
                res,
            ),
            res is Ok ==> res->Ok_0.session@ == final(self).session_view() && final(self).served().shows(res->Ok_0),
    {
        self.run(AppCommand::RefreshProcesses)
    }

    /// Asks an application to exit.
    pub fn exit_application(&mut self, payload: ExitApplicationPayload) -> (res: Result<AppSnapshot, CommandError>)
        requires
            old(self).wf(),
        ensures
            final(self).wf(),
            reported((AppCommand::ExitApplication {
            application_id: payload.application_id,
            pre_existing_confirmed: payload.pre_existing_confirmed,
        }), old(self).session_view(), final(self).session_view(), old(self).process_map(), final(self).process_map(), old(self).profiles_view(), final(self).profiles_view(), final(self).selected_profile_id(), old(self).installing(), final(self).installing(), res),
            res is Ok ==> res->Ok_0.session@ == final(self).session_view() && final(self).served().shows(res->Ok_0),
    {
        self.run(AppCommand::ExitApplication {
            application_id: payload.application_id,
            pre_existing_confirmed: payload.pre_existing_confirmed,
        })
    }

    /// Force-stops an application once both confirmations are given.
    pub fn force_stop_application(&mut self, payload: ForceStopApplicationPayload) -> (res: Result<AppSnapshot, CommandError>)
        requires
            old(self).wf(),
        ensures
            final(self).wf(),
            reported((AppCommand::ForceStopApplication {
            application_id: payload.application_id,
            pre_existing_confirmed: payload.pre_existing_confirmed,
            force_confirmed: payload.force_confirmed,
        }), old(self).session_view(), final(self).session_view(), old(self).process_map(), final(self).process_map(), old(self).profiles_view(), final(self).profiles_view(), final(self).selected_profile_id(), old(self).installing(), final(self).installing(), res),
            res is Ok ==> res->Ok_0.session@ == final(self).session_view() && final(self).served().shows(res->Ok_0),
    {
        self.run(AppCommand::ForceStopApplication {
            application_id: payload.application_id,
            pre_existing_confirmed: payload.pre_existing_confirmed,
            force_confirmed: payload.force_confirmed,
        })
    }

    /// Restarts an application.
    pub fn restart_application(&mut self, payload: RestartApplicationPayload) -> (res: Result<AppSnapshot, CommandError>)
        requires
            old(self).wf(),
        ensures
            final(self).wf(),
            reported((AppCommand::RestartApplication {
            profile_id: payload.profile_id,
            application_id: payload.application_id,
            pre_existing_confirmed: payload.pre_existing_confirmed,
        }), old(self).session_view(), final(self).session_view(), old(self).process_map(), final(self).process_map(), old(self).profiles_view(), final(self).profiles_view(), final(self).selected_profile_id(), old(self).installing(), final(self).installing(), res),
            res is Ok ==> res->Ok_0.session@ == final(self).session_view() && final(self).served().shows(res->Ok_0),
    {
        self.run(AppCommand::RestartApplication {
            profile_id: payload.profile_id,
            application_id: payload.application_id,
            pre_existing_confirmed: payload.pre_existing_confirmed,
        })
    }

    /// Starts a Session of a Racing Profile.
    pub fn start_session(&mut self, payload: ProfileIdPayload) -> (res: Result<AppSnapshot, CommandError>)
        requires
            old(self).wf(),
        ensures
            final(self).wf(),
            reported(
                (AppCommand::StartSession { profile_id: payload.profile_id }),
                old(self).session_view(),
                final(self).session_view(),
                old(self).process_map(),
                final(self).process_map(),
                old(self).profiles_view(),
                final(self).profiles_view(),
                final(self).selected_profile_id(),
                old(self).installing(),
                final(self).installing(),
                res,
            ),
            res is Ok ==> res->Ok_0.session@ == final(self).session_view() && final(self).served().shows(res->Ok_0),
            old(self).session_view().state == SessionState::Idle && old(self).installing() is None && old(self).needs_review(
                payload.profile_id@,
            ) ==> res is Err && res->Err_0.code@ == "profile_needs_review"@ && final(self).session_view()
                == old(self).session_view(),
    {
        self.run(AppCommand::StartSession { profile_id: payload.profile_id })
    }

    /// Cancels a Session that is starting.
    pub fn cancel_startup(&mut self) -> (res: Result<AppSnapshot, CommandError>)
        requires
            old(self).wf(),
        ensures
            final(self).wf(),
            reported(
                (AppCommand::CancelStartup),
                old(self).session_view(),
                final(self).session_view(),
                old(self).process_map(),
                final(self).process_map(),
                old(self).profiles_view(),
                final(self).profiles_view(),
                final(self).selected_profile_id(),
                old(self).installing(),
                final(self).installing(),
                res,
            ),
            res is Ok ==> res->Ok_0.session@ == final(self).session_view() && final(self).served().shows(res->Ok_0),
    {
        self.run(AppCommand::CancelStartup)
    }

    /// Begins closing the Active Session.
    pub fn close_session(&mut self) -> (res: Result<AppSnapshot, CommandError>)
        requires
            old(self).wf(),
        ensures
            final(self).wf(),
            reported(
                (AppCommand::CloseSession),
                old(self).session_view(),
                final(self).session_view(),
                old(self).process_map(),
                final(self).process_map(),
                old(self).profiles_view(),
                final(self).profiles_view(),
                final(self).selected_profile_id(),
                old(self).installing(),
                final(self).installing(),
                res,
            ),
            res is Ok ==> res->Ok_0.session@ == final(self).session_view() && final(self).served().shows(res->Ok_0),
    {
        self.run(AppCommand::CloseSession)
    }

    /// Replaces the desktop preferences.
    pub fn update_settings(&mut self, payload: UpdateSettingsPayload) -> (res: Result<AppSnapshot, CommandError>)
        requires
            old(self).wf(),
        ensures
            final(self).wf(),
            reported(
                (AppCommand::UpdateSettings { settings: payload.settings }),
                old(self).session_view(),
                final(self).session_view(),
                old(self).process_map(),
                final(self).process_map(),
                old(self).profiles_view(),
                final(self).profiles_view(),
                final(self).selected_profile_id(),
                old(self).installing(),
                final(self).installing(),
                res,
            ),
            res is Ok ==> res->Ok_0.session@ == final(self).session_view() && final(self).served().shows(res->Ok_0),
    {
        self.run(AppCommand::UpdateSettings { settings: payload.settings })
    }

    /// Accepts the result of the pending update check.
    pub fn complete_update_check(&mut self, result: UpdateCheckResult) -> (res: Result<AppSnapshot, CommandError>)
        requires
            old(self).wf(),
        ensures
            final(self).wf(),
            reported(
                (AppCommand::CompleteUpdateCheck { result }),
                old(self).session_view(),
                final(self).session_view(),
                old(self).process_map(),
                final(self).process_map(),
                old(self).profiles_view(),
                final(self).profiles_view(),
                final(self).selected_profile_id(),
                old(self).installing(),
                final(self).installing(),
                res,
            ),
            res is Ok ==> res->Ok_0.session@ == final(self).session_view() && final(self).served().shows(res->Ok_0),
    {
        self.run(AppCommand::CompleteUpdateCheck { result })
    }

    /// Resumes a recovered Session.
    pub fn accept_recovery(&mut self) -> (res: Result<AppSnapshot, CommandError>)
        requires
            old(self).wf(),
        ensures
            final(self).wf(),
            reported(
                (AppCommand::AcceptRecovery),
                old(self).session_view(),
                final(self).session_view(),
                old(self).process_map(),
                final(self).process_map(),
                old(self).profiles_view(),
                final(self).profiles_view(),
                final(self).selected_profile_id(),
                old(self).installing(),
                final(self).installing(),
                res,
            ),
            res is Ok ==> res->Ok_0.session@ == final(self).session_view() && final(self).served().shows(res->Ok_0),
    {
        self.run(AppCommand::AcceptRecovery)
    }

    /// Leaves a recovered Session's Processes running and ends it.
    pub fn dismiss_recovery(&mut self) -> (res: Result<AppSnapshot, CommandError>)
        requires
            old(self).wf(),
        ensures
            final(self).wf(),
            reported(
                (AppCommand::DismissRecovery),
                old(self).session_view(),
                final(self).session_view(),
                old(self).process_map(),
                final(self).process_map(),
                old(self).profiles_view(),
                final(self).profiles_view(),
                final(self).selected_profile_id(),
                old(self).installing(),
                final(self).installing(),
                res,
            ),
            res is Ok ==> res->Ok_0.session@ == final(self).session_view() && final(self).served().shows(res->Ok_0),
    {
        self.run(AppCommand::DismissRecovery)
    }

    /// Carries out a pending force stop confirmed with its token.
    pub fn confirm_process_action(&mut self, token: String) -> (res: Result<AppSnapshot, CommandError>)
        requires
            old(self).wf(),
        ensures
            final(self).wf(),
            reported(
                (AppCommand::ConfirmProcessAction { token }),
                old(self).session_view(),
                final(self).session_view(),
                old(self).process_map(),
                final(self).process_map(),
                old(self).profiles_view(),
                final(self).profiles_view(),
                final(self).selected_profile_id(),
                old(self).installing(),
                final(self).installing(),
                res,
            ),
            res is Ok ==> res->Ok_0.session@ == final(self).session_view() && final(self).served().shows(res->Ok_0),
    {
        self.run(AppCommand::ConfirmProcessAction { token })
    }

    /// Forgets a pending force stop.
    pub fn cancel_process_action(&mut self, token: String) -> (res: Result<AppSnapshot, CommandError>)
        requires
            old(self).wf(),
        ensures
            final(self).wf(),
            reported(
                (AppCommand::CancelProcessAction { token }),
                old(self).session_view(),
                final(self).session_view(),
                old(self).process_map(),
                final(self).process_map(),
                old(self).profiles_view(),
                final(self).profiles_view(),
                final(self).selected_profile_id(),
                old(self).installing(),
                final(self).installing(),
                res,
            ),
            res is Ok ==> res->Ok_0.session@ == final(self).session_view() && final(self).served().shows(res->Ok_0),
    {
        self.run(AppCommand::CancelProcessAction { token })
    }

    /// The portable document of a Racing Profile.
    pub fn export_profile(&mut self, payload: ProfileIdPayload) -> (res: Result<String, CommandError>)
        requires
            old(self).wf(),
        ensures
            final(self).wf(),
            reported(
                (AppCommand::ExportProfile { profile_id: payload.profile_id }),
                old(self).session_view(),
                final(self).session_view(),
                old(self).process_map(),
                final(self).process_map(),
                old(self).profiles_view(),
                final(self).profiles_view(),
                final(self).selected_profile_id(),
                old(self).installing(),
                final(self).installing(),
                res,
            ),
    {
        match self.core.execute(AppCommand::ExportProfile { profile_id: payload.profile_id }) {
            Ok(CommandOutcome::ProfileExported { document }) => Ok(document),
            Ok(_) => Err(unexpected_outcome("Formation Lap could not complete the profile export.")),
            Err(error) => Err(command_error(error)),
        }
    }

    /// Launches the Primary Sim alone and returns the sanitized diagnostic.
    pub fn test_game_launch(&mut self, payload: ProfileIdPayload) -> (res: Result<GameLaunchDiagnostic, CommandError>)
        requires
            old(self).wf(),
        ensures
            final(self).wf(),
            reported(
                (AppCommand::TestGameLaunch { profile_id: payload.profile_id }),
                old(self).session_view(),
                final(self).session_view(),
                old(self).process_map(),
                final(self).process_map(),
                old(self).profiles_view(),
                final(self).profiles_view(),
                final(self).selected_profile_id(),
                old(self).installing(),
                final(self).installing(),
                res,
            ),
    {
        match self.core.execute(AppCommand::TestGameLaunch { profile_id: payload.profile_id }) {
            Ok(CommandOutcome::GameLaunchTested { diagnostic }) => Ok(diagnostic),
            Ok(_) => Err(unexpected_outcome("Formation Lap could not complete Test Game Launch.")),
            Err(error) => Err(command_error(error)),
        }
    }

    /// What closing the main window does now: hide to the tray while a Session
    /// runs or changes, exit otherwise.
    pub fn request_window_close(&mut self) -> (res: Result<WindowCloseAction, CommandError>)
        requires
            old(self).wf(),
        ensures
            final(self).wf(),
            reported(
                AppCommand::RequestWindowClose,
                old(self).session_view(),
                final(self).session_view(),
                old(self).process_map(),
                final(self).process_map(),
                old(self).profiles_view(),
                final(self).profiles_view(),
                final(self).selected_profile_id(),
                old(self).installing(),
                final(self).installing(),
                res,
            ),
            final(self).session_view().state == old(self).session_view().state,
            res is Ok ==> res->Ok_0 == window_close_action(old(self).session_view().state),
    {
        match self.core.execute(AppCommand::RequestWindowClose) {
            Ok(CommandOutcome::WindowCloseRequested { action }) => Ok(action),
            Ok(_) => Err(unexpected_outcome("Formation Lap could not apply its window-close policy.")),
            Err(error) => Err(command_error(error)),
        }
    }

    /// Applies the Quit disposition: leave applications running and exit now,
    /// or close the Session first.
    pub fn request_quit(&mut self, payload: QuitPayload) -> (res: Result<(QuitAction, AppSnapshot), CommandError>)
        requires
            old(self).wf(),
        ensures
            final(self).wf(),
            reported(
                (AppCommand::RequestQuit { disposition: payload.disposition }),
                old(self).session_view(),
                final(self).session_view(),
                old(self).process_map(),
                final(self).process_map(),
                old(self).profiles_view(),
                final(self).profiles_view(),
                final(self).selected_profile_id(),
                old(self).installing(),
                final(self).installing(),
                res,
            ),
            payload.disposition == QuitDisposition::LeaveApplicationsRunning ==> final(self).session_view().state
                == SessionState::Idle && (res is Ok ==> res->Ok_0.0 == QuitAction::ExitNow),
            payload.disposition == QuitDisposition::CloseSession ==> final(self).session_view().state
                == quit_closing_session(old(self).session_view().state).1 && (res is Ok ==> res->Ok_0.0
                == quit_closing_session(old(self).session_view().state).0),
            res is Ok ==> res->Ok_0.1.session@ == final(self).session_view(),
    {
        match self.core.execute(AppCommand::RequestQuit { disposition: payload.disposition }) {
            Ok(CommandOutcome::QuitRequested { action }) => Ok((action, self.core.snapshot())),
            Ok(_) => Err(unexpected_outcome("Formation Lap could not apply its Quit policy.")),
            Err(error) => Err(command_error(error)),
        }
    }

    /// The local diagnostics a user may export; nothing is uploaded.
    pub fn export_diagnostics(&mut self) -> (res: Result<DiagnosticExport, CommandError>)
        requires
            old(self).wf(),
        ensures
            final(self).wf(),
            reported(
                AppCommand::ExportDiagnostics,
                old(self).session_view(),
                final(self).session_view(),
                old(self).process_map(),
                final(self).process_map(),
                old(self).profiles_view(),
                final(self).profiles_view(),
                final(self).selected_profile_id(),
                old(self).installing(),
                final(self).installing(),
                res,
            ),
            res is Ok ==> res->Ok_0.schema_version == 1 && res->Ok_0.session_state == old(self).session_view().state
                && !res->Ok_0.telemetry_upload,
    {
        match self.core.execute(AppCommand::ExportDiagnostics) {
            Ok(CommandOutcome::DiagnosticsExported { diagnostics }) => Ok(diagnostics),
            Ok(_) => Err(unexpected_outcome("Formation Lap could not export local diagnostics.")),
            Err(error) => Err(command_error(error)),
        }
    }

    /// Plans an update check at the given time, or says why none may run.
    pub fn prepare_update_check(&mut self, trigger: UpdateCheckTrigger, now_unix_seconds: u64) -> (res: Result<UpdateCheckDecision, CommandError>)
        requires
            old(self).wf(),
        ensures
            final(self).wf(),
            reported(
                (AppCommand::PrepareUpdateCheck { trigger, now_unix_seconds }),
                old(self).session_view(),
                final(self).session_view(),
                old(self).process_map(),
                final(self).process_map(),
                old(self).profiles_view(),
                final(self).profiles_view(),
                final(self).selected_profile_id(),
                old(self).installing(),
                final(self).installing(),
                res,
            ),
            res is Ok && old(self).session_view().state != SessionState::Idle ==> res->Ok_0 is Deferred,
    {
        match self.core.execute(AppCommand::PrepareUpdateCheck { trigger, now_unix_seconds }) {
            Ok(CommandOutcome::UpdateCheckPrepared { decision }) => Ok(decision),
            Ok(_) => Err(unexpected_outcome("Formation Lap could not prepare the update check.")),
            Err(error) => Err(command_error(error)),
        }
    }

    /// Forgets the pending update check with this id.
    pub fn cancel_update_check(&mut self, request_id: String) -> (res: Result<AppSnapshot, CommandError>)
        requires
            old(self).wf(),
        ensures
            final(self).wf(),
            reported(
                (AppCommand::CancelUpdateCheck { request_id }),
                old(self).session_view(),
                final(self).session_view(),
                old(self).process_map(),
                final(self).process_map(),
                old(self).profiles_view(),
                final(self).profiles_view(),
                final(self).selected_profile_id(),
                old(self).installing(),
                final(self).installing(),
                res,
            ),
            res is Ok ==> res->Ok_0.session@ == final(self).session_view() && final(self).served().shows(res->Ok_0),
    {
        match self.core.execute(AppCommand::CancelUpdateCheck { request_id }) {
            Ok(CommandOutcome::UpdateCheckCancelled) => self.get_app_snapshot(),
            Ok(_) => Err(unexpected_outcome("Formation Lap could not cancel the update check.")),
            Err(error) => Err(command_error(error)),
        }
    }

    /// Takes the installation lease when a checked update may be installed now.
    pub fn prepare_formation_lap_install(&mut self) -> (res: Result<FormationLapInstallDecision, CommandError>)
        requires
            old(self).wf(),
        ensures
            final(self).wf(),
            reported(
                AppCommand::PrepareFormationLapInstall,
                old(self).session_view(),
                final(self).session_view(),
                old(self).process_map(),
                final(self).process_map(),
                old(self).profiles_view(),
                final(self).profiles_view(),
                final(self).selected_profile_id(),
                old(self).installing(),
                final(self).installing(),
                res,
            ),
            res is Ok && old(self).session_view().state != SessionState::Idle ==> res->Ok_0 is Deferred,
    {
        match self.core.execute(AppCommand::PrepareFormationLapInstall) {
            Ok(CommandOutcome::FormationLapInstallPrepared { decision }) => Ok(decision),
            Ok(_) => Err(unexpected_outcome("Formation Lap could not prepare the signed update.")),
            Err(error) => Err(command_error(error)),
        }
    }

    /// Releases the installation lease of the checked version.
    pub fn cancel_formation_lap_install(&mut self, expected_version: String) -> (res: Result<(), CommandError>)
        requires
            old(self).wf(),
        ensures
            final(self).wf(),
            reported(
                (AppCommand::CancelFormationLapInstall { expected_version }),
                old(self).session_view(),
                final(self).session_view(),
                old(self).process_map(),
                final(self).process_map(),
                old(self).profiles_view(),
                final(self).profiles_view(),
                final(self).selected_profile_id(),
                old(self).installing(),
                final(self).installing(),
                res,
            ),
    {
        match self.core.execute(AppCommand::CancelFormationLapInstall { expected_version }) {
            Ok(CommandOutcome::FormationLapInstallCancelled) => Ok(()),
            Ok(_) => Err(unexpected_outcome("Formation Lap could not release the update installation lease.")),
            Err(error) => Err(command_error(error)),
        }
    }

    /// The authoritative snapshot.
    pub fn get_app_snapshot(&self) -> (res: Result<AppSnapshot, CommandError>)
        ensures
            res is Ok && res->Ok_0.session@ == self.session_view() && self.served().shows(res->Ok_0),
    {
        Ok(self.core.snapshot())
    }
}

impl<R: ProcessRuntime, H: CoreHost> NativeCommandHost<R, DevelopmentPrivilegeBroker, H> {
    /// Opens the host with a Process runtime and no elevated work.
    pub fn open_with_runtime(stored: StoredState, process_runtime: R, host: H) -> (res: Result<Self, CommandError>)
        ensures
            res is Ok ==> res->Ok_0.wf() && (res->Ok_0.session_view().state == SessionState::Idle
                || res->Ok_0.session_view().state == SessionState::RecoveryAvailable),
            stored.settings matches Some(document) && document.schema_version != crate::settings::SETTINGS_SCHEMA_VERSION
                ==> res is Err && reports(res->Err_0, CoreError::UnsupportedSettingsSchema(stored.settings->0.schema_version)),
            !(stored.settings matches Some(document) && document.schema_version != crate::settings::SETTINGS_SCHEMA_VERSION)
                && stored.recovered is None ==> res is Ok && res->Ok_0.session_view().state == SessionState::Idle
                && res->Ok_0.process_map() == Map::<Seq<char>, ApplicationProcessSnapshot>::empty(),
            res is Ok ==> res->Ok_0.profiles_view().len() == stored.profiles@.len() && res->Ok_0.profiles_view().to_multiset()
                == crate::profile_library::profile_views(stored.profiles@).to_multiset(),
    {
        match FormationLapCore::open_with_runtime(stored, process_runtime, host) {
            Ok(core) => Ok(NativeCommandHost { core }),
            Err(error) => Err(command_error(error)),
        }
    }
}

} // verus!
