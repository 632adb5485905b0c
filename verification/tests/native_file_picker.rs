use formation_lap::native_file_picker::{initial_directory_for, initial_directory_from_executable_path};

#[test]
fn ignores_a_missing_executable_path() {
    assert_eq!(initial_directory_from_executable_path(Some("C:\\missing\\application.exe")), None);
}

#[test]
fn an_existing_executable_opens_its_folder() {
    assert_eq!(
        initial_directory_for("C:\\Games\\Sim\\sim.exe", true),
        Some("C:\\Games\\Sim".to_owned())
    );
    assert_eq!(initial_directory_for("C:\\Games\\Sim\\sim.exe", false), None);
    assert_eq!(initial_directory_from_executable_path(None), None);
}
