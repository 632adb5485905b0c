use formation_lap::commands::command_error;
use formation_lap::model::SessionState;
use formation_lap::discovery_catalog::{manifest_install_directory, DiscoveryCatalogError};
use formation_lap::document_recovery::{
    backup_document_choice, corrupt_artifact_slot, live_document_choice, BackupDocumentChoice, DocumentLoad,
    LiveDocumentChoice,
};
use formation_lap::errors::CoreError;
use formation_lap::model::{CloseSessionSettings, LaunchRecipe, ProcessIdentity, ProfileApplication, RacingProfile};
use formation_lap::process_runtime::{combined_observation, ProcessObservation, ProcessResponsiveness};
use formation_lap::process_tree::{same_executable_descendants, ProcessListEntry};
use formation_lap::update_providers::is_safe_provider_identifier;
use formation_lap::profile_library::{
    backup_may_replace, stored_profile_action, StoredProfileAction, LEGACY_PROFILE_SCHEMA_VERSION,
    PROFILE_SCHEMA_VERSION,
};

const PROFILE_ID: &str = "3f2504e0-4f89-41d3-9a0c-0305e82c3301";

fn profile(id: &str, name: &str, primary_sim_name: &str) -> RacingProfile {
    RacingProfile {
        id: id.to_owned(),
        name: name.to_owned(),
        primary_sim: ProfileApplication {
            id: "a1b2c3d4-0000-4000-8000-000000000001".to_owned(),
            name: primary_sim_name.to_owned(),
            launch_recipe: LaunchRecipe::default(),
            path_needs_repair: false,
        },
        supporting_applications: Vec::new(),
        vr_enabled: false,
        preferred_vr_launch_mode: None,
        close_session: CloseSessionSettings { stop_steam_vr: false },
    }
}

fn identity(pid: u32, creation_time: u64, path: &str) -> ProcessIdentity {
    ProcessIdentity { pid, creation_time, canonical_executable_path: path.to_owned() }
}

fn entry(parent_pid: u32, pid: u32, creation_time: u64, path: &str) -> ProcessListEntry {
    ProcessListEntry { parent_pid, identity: identity(pid, creation_time, path) }
}

#[test]
fn current_profiles_stored_under_their_id_are_kept() {
    let stored = profile(PROFILE_ID, "Endurance", "Sim");
    assert_eq!(stored_profile_action(PROFILE_SCHEMA_VERSION, &stored, Some(PROFILE_ID)), Ok(StoredProfileAction::Keep));
}

#[test]
fn legacy_profiles_are_upgraded_in_place() {
    let stored = profile(PROFILE_ID, "Endurance", "Sim");
    assert_eq!(
        stored_profile_action(LEGACY_PROFILE_SCHEMA_VERSION, &stored, Some(PROFILE_ID)),
        Ok(StoredProfileAction::UpgradeSchema)
    );
}

#[test]
fn profiles_whose_identity_does_not_name_their_file_get_a_new_identity() {
    let legacy_id = profile("endurance", "Endurance", "Sim");
    assert_eq!(
        stored_profile_action(LEGACY_PROFILE_SCHEMA_VERSION, &legacy_id, Some("endurance")),
        Ok(StoredProfileAction::AssignNewIdentity)
    );
    let moved = profile(PROFILE_ID, "Endurance", "Sim");
    assert_eq!(
        stored_profile_action(PROFILE_SCHEMA_VERSION, &moved, Some("renamed")),
        Ok(StoredProfileAction::AssignNewIdentity)
    );
    let upper = profile("3F2504E0-4F89-41D3-9A0C-0305E82C3301", "Endurance", "Sim");
    assert_eq!(
        stored_profile_action(PROFILE_SCHEMA_VERSION, &upper, Some("3F2504E0-4F89-41D3-9A0C-0305E82C3301")),
        Ok(StoredProfileAction::AssignNewIdentity)
    );
}

#[test]
fn stored_profiles_of_other_schemas_or_blank_names_are_refused() {
    let stored = profile(PROFILE_ID, "Endurance", "Sim");
    assert_eq!(stored_profile_action(3, &stored, Some(PROFILE_ID)), Err(CoreError::UnsupportedProfileSchema(3)));
    let blank = profile(PROFILE_ID, "  ", "Sim");
    assert_eq!(
        stored_profile_action(PROFILE_SCHEMA_VERSION, &blank, Some(PROFILE_ID)),
        Err(CoreError::InvalidProfileName("Racing Profile name".to_owned()))
    );
    let blank_sim = profile(PROFILE_ID, "Endurance", "");
    assert_eq!(
        stored_profile_action(PROFILE_SCHEMA_VERSION, &blank_sim, Some(PROFILE_ID)),
        Err(CoreError::InvalidProfileName("Primary Sim name".to_owned()))
    );
    assert!(backup_may_replace(&CoreError::InvalidProfileName("Primary Sim name".to_owned())));
    assert!(backup_may_replace(&CoreError::InvalidProfileDocument("eof".to_owned())));
    assert!(!backup_may_replace(&CoreError::UnsupportedProfileSchema(3)));
}

#[test]
fn unreadable_live_documents_fall_back_to_their_backup() {
    assert_eq!(live_document_choice(DocumentLoad::Loaded, true), LiveDocumentChoice::UseLive);
    assert_eq!(live_document_choice(DocumentLoad::UnsupportedSchema, true), LiveDocumentChoice::ReportLiveFailure);
    assert_eq!(live_document_choice(DocumentLoad::Unreadable, false), LiveDocumentChoice::ReportLiveFailure);
    assert_eq!(live_document_choice(DocumentLoad::Unreadable, true), LiveDocumentChoice::ReadBackup);
    assert_eq!(backup_document_choice(DocumentLoad::Loaded), BackupDocumentChoice::RestoreBackup);
    assert_eq!(backup_document_choice(DocumentLoad::UnsupportedSchema), BackupDocumentChoice::ReportBackupFailure);
    assert_eq!(backup_document_choice(DocumentLoad::Unreadable), BackupDocumentChoice::ReportLiveFailure);
}

#[test]
fn corrupt_copies_use_the_first_free_slot() {
    assert_eq!(corrupt_artifact_slot(&vec![false, false]), 0);
    assert_eq!(corrupt_artifact_slot(&vec![true, false]), 1);
    assert_eq!(corrupt_artifact_slot(&vec![true, true]), 0);
}

#[test]
fn steam_manifests_declare_their_install_directory() {
    let manifest = "\"AppState\" { \"appid\" \"244210\" \"installdir\" \"assettocorsa\" \"installdir\" \"other\" }";
    assert_eq!(manifest_install_directory(manifest), Some("assettocorsa".to_owned()));
    assert_eq!(manifest_install_directory("\"AppState\" { \"appid\" \"1\" }"), None);
}

#[test]
fn descendants_follow_parent_links_through_the_same_executable() {
    let launcher = identity(100, 50, "C:\\Games\\Sim\\sim.exe");
    let entries = vec![
        entry(300, 400, 70, "C:\\Games\\Sim\\SIM.EXE"),
        entry(100, 300, 60, "c:\\games\\sim\\sim.exe"),
        entry(100, 200, 60, "C:\\Games\\Sim\\helper.exe"),
        entry(200, 250, 61, "C:\\Games\\Sim\\sim.exe"),
        entry(100, 150, 40, "C:\\Games\\Sim\\sim.exe"),
        entry(1, 500, 80, "C:\\Games\\Sim\\sim.exe"),
    ];
    let found = same_executable_descendants(&launcher, &Some(launcher.clone()), &entries);
    let pids: Vec<u32> = found.iter().map(|process| process.pid).collect();
    assert_eq!(pids, vec![300, 400]);
    assert_eq!(found[1].canonical_executable_path, "C:\\Games\\Sim\\SIM.EXE");
}

#[test]
fn a_replaced_launcher_has_no_descendants() {
    let launcher = identity(100, 50, "C:\\Games\\Sim\\sim.exe");
    let entries = vec![entry(100, 300, 60, "C:\\Games\\Sim\\sim.exe")];
    let replaced = identity(100, 55, "C:\\Games\\Sim\\sim.exe");
    assert!(same_executable_descendants(&launcher, &Some(replaced), &entries).is_empty());
    assert!(same_executable_descendants(&launcher, &None, &entries).is_empty());
}

#[test]
fn catalog_refusals_read_as_sentences() {
    assert_eq!(DiscoveryCatalogError::UnsupportedSchema(2).message(), "sim catalog schema version 2 is unsupported");
    assert_eq!(
        DiscoveryCatalogError::DuplicateSimId { id: "acc".to_owned(), first_index: 0, duplicate_index: 3 }.message(),
        "duplicate sim id 'acc' at sims[3].id; first declared at sims[0].id"
    );
    assert_eq!(
        DiscoveryCatalogError::DuplicateSteamAppId {
            app_id: 805550,
            first_location: "sims[0].steamAppId".to_owned(),
            duplicate_location: "sims[2].steamAppId".to_owned(),
        }
        .message(),
        "duplicate Steam App ID 805550 at sims[2].steamAppId; first declared at sims[0].steamAppId"
    );
    assert_eq!(
        DiscoveryCatalogError::InvalidSupportingApplicationDocument("eof".to_owned()).message(),
        "Supporting Application catalog is invalid: eof"
    );
}

#[test]
fn package_identifiers_handed_to_winget_are_plain() {
    assert!(is_safe_provider_identifier("SimHub.SimHub"));
    assert!(is_safe_provider_identifier("Crew_Chief-4"));
    assert!(!is_safe_provider_identifier(""));
    assert!(!is_safe_provider_identifier("id; rm"));
    assert!(!is_safe_provider_identifier("Ünïcode"));
}

#[test]
fn an_application_runs_while_any_of_its_processes_runs() {
    let running = |responsiveness| ProcessObservation::Running { responsiveness };
    let (observation, kept) = combined_observation(
        &ProcessObservation::Exited,
        &vec![running(ProcessResponsiveness::Responsive), ProcessObservation::Exited],
    );
    assert!(matches!(observation, ProcessObservation::Running { responsiveness: ProcessResponsiveness::Responsive }));
    assert_eq!(kept, vec![true, false]);

    let (observation, kept) = combined_observation(
        &running(ProcessResponsiveness::Responsive),
        &vec![running(ProcessResponsiveness::NotResponsive)],
    );
    assert!(matches!(observation, ProcessObservation::Running { responsiveness: ProcessResponsiveness::NotResponsive }));
    assert_eq!(kept, vec![true]);

    let (observation, kept) = combined_observation(&ProcessObservation::Exited, &vec![ProcessObservation::Exited]);
    assert!(matches!(observation, ProcessObservation::Exited));
    assert_eq!(kept, vec![false]);

    let replaced = ProcessObservation::Replaced { current_identity: identity(7, 9, "C:\\Other\\other.exe") };
    let (observation, kept) = combined_observation(&replaced, &vec![running(ProcessResponsiveness::Responsive)]);
    assert!(matches!(observation, ProcessObservation::Replaced { current_identity } if current_identity.pid == 7));
    assert_eq!(kept, vec![false]);
}

#[test]
fn core_errors_read_as_sentences_and_keep_local_details_private() {
    assert_eq!(
        CoreError::InvalidSessionTransition { current: SessionState::Active, command: "Delete Profile".to_owned() }.message(),
        "Delete Profile is not available while the Session is Active"
    );
    assert_eq!(CoreError::UnsupportedSettingsSchema(7).message(), "settings schema version 7 is not supported");
    let missing = command_error(CoreError::ProfileNotFound("endurance".to_owned()));
    assert_eq!(missing.code, "profile_not_found");
    assert_eq!(missing.message, "Racing Profile endurance was not found");
    let unreadable = command_error(CoreError::InvalidSettingsDocument("expected value at line 1".to_owned()));
    assert_eq!(unreadable.code, "invalid_local_state");
    assert_eq!(unreadable.message, "Formation Lap found local profile data it cannot safely open.");
}
