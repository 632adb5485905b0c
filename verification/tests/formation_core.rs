use formation_lap::commands::{
    CreateProfilePayload, NativeCommandHost, ProfileIdPayload, QuitPayload, SaveProfilePayload,
};
use formation_lap::formation_core::{
    cleanup_plan, AppCommand, CommandOutcome, FormationLapCore, RecoveredSession, StoredState,
};
use formation_lap::host::{CoreHost, PortableRacingProfile, SettingsDocument, StorageFailure};
use formation_lap::launch_recipe::GameLaunchDiagnostic;
use formation_lap::model::{
    ApplicationProcessSnapshot, ApplicationRequirement, CatalogUpdateProvider, ProfileApplication,
    SupportingApplication, DiagnosticEntry, FormationLapInstallDecision,
    LaunchRecipe, LaunchSource, ProcessIdentity, ProcessOutput, ProcessOwnership, ProcessStatus,
    QuitAction, QuitDisposition, RacingProfile, SessionApplicationRole, SessionApplicationSnapshot,
    SessionApplicationState, SessionSnapshot, SessionState, ShutdownStrategy, UpdateCheckDecision,
    UpdateCheckResult, UpdateCheckTrigger, UpdateStatus, VrLaunchMode, WindowCloseAction,
};
use formation_lap::privilege_broker::DevelopmentPrivilegeBroker;
use formation_lap::process_runtime::{
    GracefulStopResult, ProcessObservation, ProcessResponsiveness, ProcessRuntime, ProcessRuntimeError,
};
use formation_lap::errors::CoreError;

const SIM_PATH: &str = "C:\\Games\\Sim\\sim.exe";

#[derive(Default)]
struct FakeHost {
    clock: u64,
    portable: Option<PortableRacingProfile>,
    diagnostics: Vec<(String, String)>,
    journal_writes: usize,
    journal_cleared: usize,
}

impl CoreHost for FakeHost {
    fn write_profile(&mut self, _profile: &RacingProfile) -> Result<(), StorageFailure> {
        Ok(())
    }
    fn remove_profile(&mut self, _profile_id: &str) -> Result<(), StorageFailure> {
        Ok(())
    }
    fn executable_exists(&mut self, _path: &str) -> bool {
        true
    }
    fn canonical_path(&mut self, path: &str) -> Option<String> {
        Some(path.to_owned())
    }
    fn write_settings(&mut self, _settings: &SettingsDocument) -> Result<(), StorageFailure> {
        Ok(())
    }
    fn persist_session_journal(
        &mut self,
        _session: &SessionSnapshot,
        _processes: &Vec<ApplicationProcessSnapshot>,
    ) -> Result<(), StorageFailure> {
        self.journal_writes += 1;
        Ok(())
    }
    fn clear_session_journal(&mut self) -> Result<(), StorageFailure> {
        self.journal_cleared += 1;
        Ok(())
    }
    fn record_diagnostic(&mut self, event: &str, outcome: &str) {
        self.diagnostics.push((event.to_owned(), outcome.to_owned()));
    }
    fn recent_diagnostics(&mut self) -> Vec<DiagnosticEntry> {
        self.diagnostics
            .iter()
            .map(|(event, outcome)| DiagnosticEntry {
                timestamp_unix_seconds: 0,
                event: event.clone(),
                outcome: outcome.clone(),
            })
            .collect()
    }
    fn persist_game_launch_diagnostic(&mut self, _diagnostic: &GameLaunchDiagnostic) -> Result<(), StorageFailure> {
        Ok(())
    }
    fn encode_portable_profile(&mut self, profile: &PortableRacingProfile) -> Result<String, String> {
        self.portable = Some(profile.clone());
        Ok(format!("portable:{}", profile.name))
    }
    fn decode_portable_profile(&mut self, _document: &str) -> Result<PortableRacingProfile, String> {
        self.portable.take().ok_or_else(|| "no document".to_owned())
    }
    fn now_milliseconds(&mut self) -> u64 {
        self.clock += 10;
        self.clock
    }
    fn platform(&mut self) -> String {
        "test".to_owned()
    }
    fn resolve_primary_launch_recipe(
        &mut self,
        recipe: &LaunchRecipe,
        _vr_enabled: bool,
        _preferred_vr_launch_mode: Option<VrLaunchMode>,
    ) -> Result<LaunchRecipe, String> {
        Ok(recipe.clone())
    }
    fn update_provider_for_name(&mut self, _name: &str) -> Option<CatalogUpdateProvider> {
        None
    }
}

#[derive(Default)]
struct FakeRuntime {
    running: Vec<ProcessIdentity>,
    next_pid: u32,
    launches: usize,
    stop_requests: usize,
}

impl ProcessRuntime for FakeRuntime {
    fn matching_processes(&mut self, recipe: &LaunchRecipe) -> Result<Vec<ProcessIdentity>, ProcessRuntimeError> {
        let path = match &recipe.source {
            LaunchSource::DirectExecutable { executable_path } => executable_path.clone(),
            LaunchSource::Steam { .. } => String::new(),
        };
        Ok(self.running.iter().filter(|identity| identity.canonical_executable_path == path).cloned().collect())
    }
    fn launch(&mut self, recipe: &LaunchRecipe) -> Result<ProcessIdentity, ProcessRuntimeError> {
        let path = match &recipe.source {
            LaunchSource::DirectExecutable { executable_path } => executable_path.clone(),
            LaunchSource::Steam { .. } => return Err(ProcessRuntimeError::new("steam is unavailable")),
        };
        if path.is_empty() {
            return Err(ProcessRuntimeError::new("the executable path is empty"));
        }
        self.next_pid += 1;
        self.launches += 1;
        let identity = ProcessIdentity { pid: 100 + self.next_pid, creation_time: 7, canonical_executable_path: path };
        self.running.push(identity.clone());
        Ok(identity)
    }
    fn observe(&mut self, identity: &ProcessIdentity) -> Result<ProcessObservation, ProcessRuntimeError> {
        if self.running.iter().any(|running| running.pid == identity.pid) {
            Ok(ProcessObservation::Running { responsiveness: ProcessResponsiveness::Responsive })
        } else {
            Ok(ProcessObservation::Exited)
        }
    }
    fn request_graceful_stop(
        &mut self,
        identity: &ProcessIdentity,
        _strategy: &ShutdownStrategy,
    ) -> Result<GracefulStopResult, ProcessRuntimeError> {
        self.stop_requests += 1;
        self.running.retain(|running| running.pid != identity.pid);
        Ok(GracefulStopResult::Requested)
    }
    fn wait_for_exit(&mut self, identity: &ProcessIdentity, _timeout_milliseconds: u64) -> Result<bool, ProcessRuntimeError> {
        Ok(!self.running.iter().any(|running| running.pid == identity.pid))
    }
    fn force_stop(&mut self, identity: &ProcessIdentity) -> Result<(), ProcessRuntimeError> {
        self.running.retain(|running| running.pid != identity.pid);
        Ok(())
    }
    fn read_output(&mut self, _identity: &ProcessIdentity) -> Result<ProcessOutput, ProcessRuntimeError> {
        Ok(ProcessOutput { stdout: String::new(), stderr: String::new(), truncated: false })
    }
}

fn empty_store() -> StoredState {
    StoredState { profiles: Vec::new(), settings: None, recovered: None }
}

fn open_core(runtime: FakeRuntime) -> FormationLapCore<FakeRuntime, DevelopmentPrivilegeBroker, FakeHost> {
    FormationLapCore::open_with_runtime(empty_store(), runtime, FakeHost::default()).expect("an empty store should open")
}

fn created_profile_id(core: &mut FormationLapCore<FakeRuntime, DevelopmentPrivilegeBroker, FakeHost>) -> String {
    match core
        .execute(AppCommand::CreateProfile { name: "Endurance".to_owned(), primary_sim_name: "Sim".to_owned() })
        .expect("a named profile should be created")
    {
        CommandOutcome::ProfileCreated { profile_id } => profile_id,
        other => panic!("unexpected outcome {other:?}"),
    }
}

fn configure_primary_sim(core: &mut FormationLapCore<FakeRuntime, DevelopmentPrivilegeBroker, FakeHost>) -> String {
    let profile_id = created_profile_id(core);
    let mut profile = core.snapshot().selected_profile.expect("the new profile should be selected");
    profile.primary_sim.launch_recipe.source = LaunchSource::DirectExecutable { executable_path: SIM_PATH.to_owned() };
    profile.primary_sim.path_needs_repair = false;
    core.execute(AppCommand::SaveProfile { profile: Box::new(profile) }).expect("the edited profile should save");
    profile_id
}

#[test]
fn created_profile_is_stored_and_selected() {
    let mut core = open_core(FakeRuntime::default());
    let profile_id = created_profile_id(&mut core);
    let snapshot = core.snapshot();
    assert_eq!(snapshot.profiles.len(), 1);
    assert_eq!(snapshot.profiles[0].id, profile_id);
    assert_eq!(snapshot.profiles[0].name, "Endurance");
    assert_eq!(snapshot.selected_profile.map(|profile| profile.id), Some(profile_id));
}

#[test]
fn blank_profile_names_are_refused() {
    let mut core = open_core(FakeRuntime::default());
    let error = core
        .execute(AppCommand::CreateProfile { name: "  ".to_owned(), primary_sim_name: "Sim".to_owned() })
        .expect_err("a blank name must be refused");
    assert_eq!(error, CoreError::InvalidProfileName("Racing Profile name".to_owned()));
    assert!(core.snapshot().profiles.is_empty());
}

#[test]
fn window_close_exits_when_idle_and_hides_while_a_session_runs() {
    let mut core = open_core(FakeRuntime::default());
    let profile_id = configure_primary_sim(&mut core);
    assert!(matches!(
        core.execute(AppCommand::RequestWindowClose),
        Ok(CommandOutcome::WindowCloseRequested { action: WindowCloseAction::Exit })
    ));
    assert!(matches!(
        core.execute(AppCommand::StartSession { profile_id: profile_id.clone() }),
        Ok(CommandOutcome::SessionStartRequested { .. })
    ));
    assert_eq!(core.snapshot().session.state, SessionState::Starting);
    assert!(matches!(
        core.execute(AppCommand::RequestWindowClose),
        Ok(CommandOutcome::WindowCloseRequested { action: WindowCloseAction::HideToTray })
    ));
}

#[test]
fn session_starts_becomes_active_and_closes_its_owned_processes() {
    let mut core = open_core(FakeRuntime::default());
    let profile_id = configure_primary_sim(&mut core);
    core.execute(AppCommand::StartSession { profile_id: profile_id.clone() }).expect("the Session should start");
    let snapshot = core.snapshot();
    assert_eq!(snapshot.session.active_profile_id, Some(profile_id.clone()));
    assert_eq!(snapshot.application_processes.len(), 1);
    assert_eq!(snapshot.application_processes[0].ownership, Some(ProcessOwnership::SessionOwned));

    core.execute(AppCommand::RefreshProcesses).expect("refresh should succeed");
    let snapshot = core.snapshot();
    assert_eq!(snapshot.session.state, SessionState::Active);
    assert_eq!(snapshot.application_processes[0].status, ProcessStatus::Running);

    let error = core
        .execute(AppCommand::DeleteProfile { profile_id: profile_id.clone() })
        .expect_err("the active profile must not be deleted");
    assert_eq!(
        error,
        CoreError::InvalidSessionTransition { current: SessionState::Active, command: "Edit Active Profile".to_owned() }
    );

    assert!(matches!(core.execute(AppCommand::CloseSession), Ok(CommandOutcome::SessionCloseRequested)));
    assert_eq!(core.snapshot().session.state, SessionState::Closing);
    core.execute(AppCommand::RefreshProcesses).expect("refresh should close the Session");
    let snapshot = core.snapshot();
    assert_eq!(snapshot.session.state, SessionState::Idle);
    assert_eq!(snapshot.session.active_profile_id, None);
    assert_eq!(snapshot.application_processes[0].status, ProcessStatus::Stopped);
    assert!(snapshot.application_processes[0].identity.is_none());
}

#[test]
fn closing_an_idle_session_is_an_invalid_transition() {
    let mut core = open_core(FakeRuntime::default());
    assert_eq!(
        core.execute(AppCommand::CloseSession).expect_err("an Idle Session cannot close"),
        CoreError::InvalidSessionTransition { current: SessionState::Idle, command: "Close Session".to_owned() }
    );
}

#[test]
fn quitting_while_starting_cancels_and_waits() {
    let mut core = open_core(FakeRuntime::default());
    let profile_id = configure_primary_sim(&mut core);
    core.execute(AppCommand::StartSession { profile_id }).expect("the Session should start");
    assert!(matches!(
        core.execute(AppCommand::RequestQuit { disposition: QuitDisposition::CloseSession }),
        Ok(CommandOutcome::QuitRequested { action: QuitAction::WaitForSessionClose })
    ));
    assert_eq!(core.snapshot().session.state, SessionState::Cancelling);
}

#[test]
fn leaving_applications_running_detaches_them_and_ends_the_session() {
    let mut core = open_core(FakeRuntime::default());
    let profile_id = configure_primary_sim(&mut core);
    core.execute(AppCommand::StartSession { profile_id }).expect("the Session should start");
    assert!(matches!(
        core.execute(AppCommand::RequestQuit { disposition: QuitDisposition::LeaveApplicationsRunning }),
        Ok(CommandOutcome::QuitRequested { action: QuitAction::ExitNow })
    ));
    let snapshot = core.snapshot();
    assert_eq!(snapshot.session.state, SessionState::Idle);
    assert_eq!(snapshot.application_processes[0].ownership, Some(ProcessOwnership::PreExisting));
    assert_eq!(snapshot.application_processes[0].status, ProcessStatus::RunningPreExisting);
}

#[test]
fn an_already_running_sim_is_adopted_not_owned() {
    let runtime = FakeRuntime {
        running: vec![ProcessIdentity { pid: 9, creation_time: 1, canonical_executable_path: SIM_PATH.to_owned() }],
        ..FakeRuntime::default()
    };
    let mut core = open_core(runtime);
    let profile_id = configure_primary_sim(&mut core);
    let sim_id = core.snapshot().selected_profile.expect("selected").primary_sim.id;
    match core
        .execute(AppCommand::StartApplication { profile_id, application_id: sim_id.clone() })
        .expect("the running sim should be adopted")
    {
        CommandOutcome::ApplicationAlreadyRunning { application_id } => assert_eq!(application_id, sim_id),
        other => panic!("unexpected outcome {other:?}"),
    }
    match core
        .execute(AppCommand::ExitApplication { application_id: sim_id.clone(), pre_existing_confirmed: false })
        .expect("exit should ask first")
    {
        CommandOutcome::PreExistingControlConfirmationRequired { application_id } => assert_eq!(application_id, sim_id),
        other => panic!("unexpected outcome {other:?}"),
    }
}

#[test]
fn update_installation_and_session_start_exclude_each_other() {
    let mut core = open_core(FakeRuntime::default());
    let profile_id = configure_primary_sim(&mut core);
    let request_id = match core
        .execute(AppCommand::PrepareUpdateCheck { trigger: UpdateCheckTrigger::Manual, now_unix_seconds: 1000 })
        .expect("a manual check should be planned")
    {
        CommandOutcome::UpdateCheckPrepared { decision: UpdateCheckDecision::Planned(plan) } => plan.request_id,
        other => panic!("unexpected outcome {other:?}"),
    };
    core.execute(AppCommand::CompleteUpdateCheck {
        result: UpdateCheckResult {
            request_id,
            formation_lap: UpdateStatus::UpdateAvailable {
                current_version: "0.9.0".to_owned(),
                latest_version: "1.0.0".to_owned(),
            },
            applications: Vec::new(),
        },
    })
    .expect("the matching result should be accepted");
    assert!(matches!(
        core.execute(AppCommand::PrepareFormationLapInstall),
        Ok(CommandOutcome::FormationLapInstallPrepared { decision: FormationLapInstallDecision::Ready { .. } })
    ));
    assert_eq!(
        core.execute(AppCommand::StartSession { profile_id: profile_id.clone() })
            .expect_err("a Session must not start during installation"),
        CoreError::ActivityConflict {
            activity: "Formation Lap update installation".to_owned(),
            command: "Start Session".to_owned()
        }
    );
    assert!(matches!(
        core.execute(AppCommand::CancelFormationLapInstall { expected_version: "1.0.0".to_owned() }),
        Ok(CommandOutcome::FormationLapInstallCancelled)
    ));
    assert!(core.execute(AppCommand::StartSession { profile_id }).is_ok());
    assert!(matches!(
        core.execute(AppCommand::PrepareFormationLapInstall),
        Ok(CommandOutcome::FormationLapInstallPrepared { decision: FormationLapInstallDecision::Deferred })
    ));
}

#[test]
fn mismatched_update_results_are_refused() {
    let mut core = open_core(FakeRuntime::default());
    let error = core
        .execute(AppCommand::CompleteUpdateCheck {
            result: UpdateCheckResult {
                request_id: "not-requested".to_owned(),
                formation_lap: UpdateStatus::Current { current_version: "0.9.0".to_owned() },
                applications: Vec::new(),
            },
        })
        .expect_err("an unrequested result must be refused");
    assert!(matches!(error, CoreError::InvalidUpdateCheck(_)));
}

fn recovered_store(profile: RacingProfile, identity: ProcessIdentity) -> StoredState {
    let sim = &profile.primary_sim;
    StoredState {
        recovered: Some(RecoveredSession {
            session: SessionSnapshot {
                state: SessionState::Active,
                active_profile_id: Some(profile.id.clone()),
                applications: vec![SessionApplicationSnapshot {
                    application_id: sim.id.clone(),
                    name: sim.name.clone(),
                    role: SessionApplicationRole::PrimarySim,
                    requirement: None,
                    state: SessionApplicationState::Running,
                }],
                summary: None,
            },
            application_processes: vec![ApplicationProcessSnapshot {
                application_id: sim.id.clone(),
                status: ProcessStatus::Running,
                ownership: Some(ProcessOwnership::SessionOwned),
                identity: Some(identity),
                output: None,
            }],
        }),
        profiles: vec![profile],
        settings: None,
    }
}

#[test]
fn recovery_never_restores_cleanup_ownership_and_can_be_dismissed() {
    let mut core = open_core(FakeRuntime::default());
    configure_primary_sim(&mut core);
    let profile = core.snapshot().selected_profile.expect("selected");
    let identity = ProcessIdentity { pid: 55, creation_time: 3, canonical_executable_path: SIM_PATH.to_owned() };
    let runtime = FakeRuntime { running: vec![identity.clone()], ..FakeRuntime::default() };
    let mut recovered = FormationLapCore::open_with_runtime(recovered_store(profile, identity), runtime, FakeHost::default())
        .expect("the journal should be recovered");
    let snapshot = recovered.snapshot();
    assert_eq!(snapshot.session.state, SessionState::RecoveryAvailable);
    assert_eq!(snapshot.application_processes[0].ownership, Some(ProcessOwnership::PreExisting));
    assert_eq!(snapshot.application_processes[0].status, ProcessStatus::RunningPreExisting);
    assert!(matches!(recovered.execute(AppCommand::DismissRecovery), Ok(CommandOutcome::RecoveryDismissed)));
    assert_eq!(recovered.snapshot().session.state, SessionState::Idle);
}

#[test]
fn a_recovered_process_that_exited_is_not_offered() {
    let mut core = open_core(FakeRuntime::default());
    configure_primary_sim(&mut core);
    let profile = core.snapshot().selected_profile.expect("selected");
    let identity = ProcessIdentity { pid: 56, creation_time: 3, canonical_executable_path: SIM_PATH.to_owned() };
    let recovered = FormationLapCore::open_with_runtime(recovered_store(profile, identity), FakeRuntime::default(), FakeHost::default())
        .expect("the store should open");
    let snapshot = recovered.snapshot();
    assert_eq!(snapshot.session.state, SessionState::Idle);
    assert!(snapshot.application_processes.is_empty());
}

#[test]
fn diagnostics_export_reports_local_state_without_upload() {
    let mut core = open_core(FakeRuntime::default());
    created_profile_id(&mut core);
    match core.execute(AppCommand::ExportDiagnostics).expect("diagnostics should export") {
        CommandOutcome::DiagnosticsExported { diagnostics } => {
            assert_eq!(diagnostics.schema_version, 1);
            assert_eq!(diagnostics.application_version, "0.9.0");
            assert_eq!(diagnostics.platform, "test");
            assert_eq!(diagnostics.session_state, SessionState::Idle);
            assert_eq!(diagnostics.profile_count, 1);
            assert_eq!(diagnostics.configured_application_count, 1);
            assert!(!diagnostics.telemetry_upload);
            assert!(diagnostics.recent_events.iter().any(|entry| entry.event == "profile.create"));
        }
        other => panic!("unexpected outcome {other:?}"),
    }
}

#[test]
fn export_then_import_copies_a_profile() {
    let mut core = open_core(FakeRuntime::default());
    let profile_id = configure_primary_sim(&mut core);
    match core.execute(AppCommand::ExportProfile { profile_id }).expect("the profile should export") {
        CommandOutcome::ProfileExported { document } => assert_eq!(document, "portable:Endurance"),
        other => panic!("unexpected outcome {other:?}"),
    }
}

#[test]
fn native_host_reports_structured_errors_and_snapshots() {
    let mut host = NativeCommandHost::open_with_runtime(empty_store(), FakeRuntime::default(), FakeHost::default())
        .expect("an empty store should open");
    let snapshot = host
        .create_profile(CreateProfilePayload { name: "Sprint".to_owned(), primary_sim_name: "Sim".to_owned() })
        .expect("the profile should be created");
    assert_eq!(snapshot.profiles.len(), 1);
    let error = host.close_session().expect_err("an Idle Session cannot close");
    assert_eq!(error.code, "invalid_session_transition");
    assert_eq!(error.recovery.as_deref(), Some("Wait for the current Session action to finish."));
    assert_eq!(error.diagnostic_id, None);
    let error = host
        .select_profile(ProfileIdPayload { profile_id: "missing".to_owned() })
        .expect_err("an unknown profile cannot be selected");
    assert_eq!(error.code, "profile_not_found");
    assert_eq!(host.request_window_close().expect("policy should apply"), WindowCloseAction::Exit);
    let (action, snapshot) = host
        .request_quit(QuitPayload { disposition: QuitDisposition::CloseSession })
        .expect("quit should apply");
    assert_eq!(action, QuitAction::ExitNow);
    assert_eq!(snapshot.session.state, SessionState::Idle);
    let mut profile = snapshot.selected_profile.expect("selected");
    profile.name = String::new();
    let error = host.save_profile(SaveProfilePayload { profile }).expect_err("a blank name must be refused");
    assert_eq!(error.code, "invalid_profile");
    assert_eq!(error.message, "Racing Profile name must not be blank");
}

#[test]
fn force_stop_of_a_found_process_needs_both_confirmations() {
    let runtime = FakeRuntime {
        running: vec![ProcessIdentity { pid: 9, creation_time: 1, canonical_executable_path: SIM_PATH.to_owned() }],
        ..FakeRuntime::default()
    };
    let mut core = open_core(runtime);
    let profile_id = configure_primary_sim(&mut core);
    let sim_id = core.snapshot().selected_profile.expect("selected").primary_sim.id;
    core.execute(AppCommand::StartApplication { profile_id, application_id: sim_id.clone() })
        .expect("the running sim should be adopted");
    let force = |pre_existing_confirmed, force_confirmed| AppCommand::ForceStopApplication {
        application_id: sim_id.clone(),
        pre_existing_confirmed,
        force_confirmed,
    };
    assert!(matches!(
        core.execute(force(false, true)),
        Ok(CommandOutcome::PreExistingControlConfirmationRequired { .. })
    ));
    assert!(matches!(core.execute(force(true, false)), Ok(CommandOutcome::ForceStopConfirmationRequired { .. })));
    let still_running = core.snapshot().application_processes;
    assert_eq!(still_running.len(), 1);
    assert_eq!(still_running[0].status, ProcessStatus::RunningPreExisting);
    assert!(matches!(core.execute(force(true, true)), Ok(CommandOutcome::ApplicationStopped { .. })));
    let stopped = core.snapshot().application_processes;
    assert_eq!(stopped[0].status, ProcessStatus::Stopped);
    assert!(stopped[0].identity.is_none());
    assert!(matches!(
        core.execute(AppCommand::ForceStopApplication {
            application_id: "missing".to_owned(),
            pre_existing_confirmed: true,
            force_confirmed: true,
        }),
        Err(CoreError::ApplicationNotFound(_))
    ));
}

#[test]
fn a_fresh_installation_makes_no_automatic_update_check() {
    let mut core = open_core(FakeRuntime::default());
    assert!(!core.snapshot().settings.automatic_update_checks);
    match core
        .execute(AppCommand::PrepareUpdateCheck { trigger: UpdateCheckTrigger::Automatic, now_unix_seconds: 1_000_000 })
        .expect("preparing a check should succeed")
    {
        CommandOutcome::UpdateCheckPrepared { decision } => assert!(matches!(decision, UpdateCheckDecision::Disabled)),
        other => panic!("unexpected outcome {other:?}"),
    }
}

#[test]
fn an_unapproved_elevated_application_keeps_the_profile_in_review() {
    let mut core = open_core(FakeRuntime::default());
    let profile_id = configure_primary_sim(&mut core);
    let mut profile = core.snapshot().selected_profile.expect("the profile should be selected");
    profile.primary_sim.launch_recipe.elevated = true;
    let sim_id = profile.primary_sim.id.clone();
    core.execute(AppCommand::SaveProfile { profile: Box::new(profile) }).expect("the edited profile should save");
    match core.execute(AppCommand::StartSession { profile_id: profile_id.clone() }) {
        Err(CoreError::ProfileNeedsReview(id)) => assert_eq!(id, profile_id),
        other => panic!("unexpected result {other:?}"),
    }
    assert_eq!(core.snapshot().session.state, SessionState::Idle);
    core.execute(AppCommand::ApproveProfile {
        profile_id: profile_id.clone(),
        configuration_reviewed: true,
        approved_privileged_application_ids: vec![sim_id],
    })
    .expect("the reviewed profile should be approved");
    assert!(!matches!(
        core.execute(AppCommand::StartSession { profile_id }),
        Err(CoreError::ProfileNeedsReview(_))
    ));
}

#[test]
fn close_session_runs_in_reverse_startup_order_and_keeps_chosen_applications() {
    let mut core = open_core(FakeRuntime::default());
    configure_primary_sim(&mut core);
    let mut profile = core.snapshot().selected_profile.expect("the profile should be selected");
    let supporting = |id: &str, name: &str, keep_running: bool| SupportingApplication {
        application: ProfileApplication {
            id: id.to_owned(),
            name: name.to_owned(),
            launch_recipe: profile.primary_sim.launch_recipe.clone(),
            path_needs_repair: false,
        },
        requirement: ApplicationRequirement::Optional,
        keep_running,
    };
    let applications = vec![
        supporting("wheel", "Wheel Software", false),
        supporting("vr", "SteamVR", false),
        supporting("overlay", "Overlay", true),
    ];
    profile.supporting_applications = applications;
    profile.close_session.stop_steam_vr = false;
    let sim_id = profile.primary_sim.id.clone();
    assert_eq!(
        cleanup_plan(&profile),
        vec![
            (sim_id.clone(), false),
            ("overlay".to_owned(), true),
            ("vr".to_owned(), true),
            ("wheel".to_owned(), false),
        ]
    );
    profile.close_session.stop_steam_vr = true;
    assert_eq!(cleanup_plan(&profile)[2], ("vr".to_owned(), false));
}

#[test]
fn an_imported_profile_stays_in_quarantine_until_approved() {
    let mut core = open_core(FakeRuntime::default());
    let profile_id = configure_primary_sim(&mut core);
    core.execute(AppCommand::ExportProfile { profile_id }).expect("the profile should export");
    let imported = match core.execute(AppCommand::ImportProfile { document: "portable:Endurance".to_owned() }) {
        Ok(CommandOutcome::ProfileCreated { profile_id }) => profile_id,
        other => panic!("unexpected outcome {other:?}"),
    };
    match core.execute(AppCommand::StartSession { profile_id: imported.clone() }) {
        Err(CoreError::ProfileNeedsReview(id)) => assert_eq!(id, imported),
        other => panic!("unexpected result {other:?}"),
    }
    core.execute(AppCommand::ApproveProfile {
        profile_id: imported.clone(),
        configuration_reviewed: true,
        approved_privileged_application_ids: Vec::new(),
    })
    .expect("the reviewed profile should be approved");
    assert!(!matches!(
        core.execute(AppCommand::StartSession { profile_id: imported }),
        Err(CoreError::ProfileNeedsReview(_))
    ));
}
