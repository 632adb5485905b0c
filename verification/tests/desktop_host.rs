use formation_lap::desktop_host::{
    main_application_execution_level, navigation_is_allowed, windows_app_manifest,
    owned_startup_commands, plan_startup_registration, started_minimized, startup_command,
    tray_status, RequestedExecutionLevel, StartupRegistrationPlan,
};
use formation_lap::model::SessionState;

#[test]
fn windows_startup_command_opens_only_formation_lap_minimized() {
    let command = startup_command(r"C:\Program Files\Formation Lap\Formation Lap.exe");

    assert_eq!(
        command,
        r#""C:\Program Files\Formation Lap\Formation Lap.exe" --minimized"#
    );
    assert!(!command.contains("profile"));
    assert!(!command.contains("session"));
}

#[test]
fn startup_registration_migrates_only_the_exact_legacy_command() {
    let expected = r#""C:\Program Files\Formation Lap\formation-lap.exe" --minimized"#;

    assert_eq!(
        plan_startup_registration(true, &[expected], None, Some(expected))
            .expect("the exact legacy value should be migratable"),
        StartupRegistrationPlan {
            write_namespaced: true,
            delete_namespaced: false,
            delete_legacy: true,
        }
    );
    assert_eq!(
        plan_startup_registration(
            true,
            &[expected],
            None,
            Some(r#""C:\Other App\other.exe" --minimized"#),
        )
        .expect("an unrelated legacy value should be preserved"),
        StartupRegistrationPlan {
            write_namespaced: true,
            delete_namespaced: false,
            delete_legacy: false,
        }
    );
}

#[test]
fn startup_registration_never_overwrites_or_deletes_a_foreign_namespaced_value() {
    let expected = r#""C:\Program Files\Formation Lap\formation-lap.exe" --minimized"#;
    let foreign = r#""C:\Other App\other.exe" --minimized"#;

    assert!(
        plan_startup_registration(true, &[expected], Some(foreign), None).is_err(),
        "enable must not overwrite a foreign namespaced value"
    );
    assert!(
        plan_startup_registration(false, &[expected], Some(foreign), None).is_err(),
        "disable must not delete a foreign namespaced value"
    );
}

#[test]
fn disabling_startup_deletes_only_exact_owned_values() {
    let expected = r#""C:\Program Files\Formation Lap\formation-lap.exe" --minimized"#;
    let foreign = r#""C:\Other App\other.exe" --minimized"#;

    assert_eq!(
        plan_startup_registration(false, &[expected], Some(expected), Some(expected),)
            .expect("exact owned values should be removable"),
        StartupRegistrationPlan {
            write_namespaced: false,
            delete_namespaced: true,
            delete_legacy: true,
        }
    );
    assert_eq!(
        plan_startup_registration(false, &[expected], None, Some(foreign))
            .expect("a foreign legacy value should be left alone"),
        StartupRegistrationPlan::default()
    );
}

#[test]
fn startup_registration_accepts_the_previous_canonical_path_form() {
    let expected = r#""C:\Program Files\Formation Lap\formation-lap.exe" --minimized"#;
    let previous = r#""\\?\C:\Program Files\Formation Lap\formation-lap.exe" --minimized"#;

    assert_eq!(
        plan_startup_registration(true, &[expected, previous], None, Some(previous))
            .expect("the exact previous canonical command should be migratable"),
        StartupRegistrationPlan {
            write_namespaced: true,
            delete_namespaced: false,
            delete_legacy: true,
        }
    );
}

#[test]
fn enabling_keeps_an_owned_namespaced_value_without_rewriting_it() {
    let expected = r#""C:\Formation Lap\formation-lap.exe" --minimized"#;
    assert_eq!(
        plan_startup_registration(true, &[expected], Some(expected), None)
            .expect("an owned value may stay"),
        StartupRegistrationPlan::default()
    );
}

#[test]
fn owned_commands_add_the_canonical_form_only_when_it_differs() {
    let expected = "\"C:\\A\\a.exe\" --minimized".to_owned();
    let canonical = "\"\\\\?\\C:\\A\\a.exe\" --minimized".to_owned();
    assert_eq!(
        owned_startup_commands(expected.clone(), Some(canonical.clone())),
        vec![expected.clone(), canonical]
    );
    assert_eq!(
        owned_startup_commands(expected.clone(), Some(expected.clone())),
        vec![expected.clone()]
    );
    assert_eq!(owned_startup_commands(expected.clone(), None), vec![expected]);
}

#[test]
fn the_minimized_flag_must_match_exactly() {
    assert!(started_minimized(&vec!["app.exe".to_owned(), "--minimized".to_owned()]));
    assert!(!started_minimized(&vec!["app.exe".to_owned(), "--minimized=1".to_owned()]));
    assert!(!started_minimized(&vec![]));
}

#[test]
fn the_tray_names_the_session_action_for_each_state() {
    assert_eq!(tray_status(SessionState::Idle), ("Ready", "No Active Session", false));
    assert_eq!(tray_status(SessionState::Starting), ("Starting Session", "Cancel Startup", true));
    assert_eq!(tray_status(SessionState::Active), ("Session active", "Close Session", true));
    assert_eq!(
        tray_status(SessionState::RecoveryAvailable),
        ("Recovery available", "Review Recovery", true)
    );
    assert_eq!(tray_status(SessionState::Closing), ("Closing Session", "Closing…", false));
    assert_eq!(tray_status(SessionState::Cancelling), ("Cancelling Startup", "Cancelling…", false));
}

// Test builds carry debug assertions, so the development server is allowed here.
const TEST_BUILD_IS_DEVELOPMENT: bool = true;

#[test]
fn remote_navigation_is_denied() {
    assert!(!navigation_is_allowed("https://example.com", TEST_BUILD_IS_DEVELOPMENT));
}

#[test]
fn bundled_windows_origin_is_allowed() {
    assert!(navigation_is_allowed("http://tauri.localhost", TEST_BUILD_IS_DEVELOPMENT));
}

#[test]
fn only_development_builds_may_open_the_local_development_server() {
    assert!(navigation_is_allowed("http://localhost:1420/", true));
    assert!(navigation_is_allowed("http://127.0.0.1:1420/", true));
    assert!(!navigation_is_allowed("http://localhost:1420/", false));
    assert!(!navigation_is_allowed("https://localhost:1420/", true));
    assert!(navigation_is_allowed("tauri://localhost/index.html", false));
    assert!(navigation_is_allowed("https://tauri.localhost/", false));
    assert!(!navigation_is_allowed("not a url", true));
}

#[test]
fn main_application_manifest_explicitly_remains_non_administrative() {
    let manifest = windows_app_manifest();

    assert!(manifest.contains(r#"requestedExecutionLevel level="asInvoker""#));
    assert!(!manifest.contains("requireAdministrator"));
    assert_eq!(main_application_execution_level(), RequestedExecutionLevel::AsInvoker);
}
