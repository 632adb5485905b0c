use formation_lap::update_coordinator::{SessionStartGate, UpdateCoordinator};

#[test]
fn install_and_session_start_are_mutually_exclusive() {
    let mut coordinator = UpdateCoordinator::new();
    let install = coordinator
        .install("1.2.3")
        .expect("the checked version should own the install lease");

    assert!(
        coordinator.cancel_for_session_start().is_err(),
        "Session start must not overlap installation"
    );
    coordinator.release_install(install);
    assert!(
        coordinator.cancel_for_session_start().is_ok(),
        "Session start may proceed after installer failure releases the lease"
    );
}

#[test]
fn session_start_cancels_the_active_check_and_waits_for_its_release() {
    let mut coordinator = UpdateCoordinator::new();
    let check = coordinator.check("request-1").expect("the first check should own the coordinator");
    assert!(!coordinator.is_cancelled(&check));

    let gate = coordinator.cancel_for_session_start().expect("Session start should be accepted");
    assert!(matches!(gate, SessionStartGate::AwaitingCheck));
    assert!(coordinator.is_cancelled(&check));
    assert!(coordinator.session_start_barrier().is_none());

    coordinator.release_check(check);
    let barrier = coordinator.session_start_barrier().expect("the barrier follows the release");
    assert!(coordinator.check("request-2").is_err(), "new checks must not cross the barrier");
    assert!(coordinator.install("1.0.0").is_err());
    coordinator.release_session_start(barrier);
    assert!(coordinator.check("request-3").is_ok());
}

#[test]
fn a_second_session_start_or_check_is_refused() {
    let mut coordinator = UpdateCoordinator::new();
    assert!(matches!(coordinator.cancel_for_session_start(), Ok(SessionStartGate::Ready(_))));
    assert!(coordinator.cancel_for_session_start().is_err());

    let mut other = UpdateCoordinator::new();
    let _check = other.check("a").expect("first check");
    assert!(other.check("b").is_err());
    assert!(other.install("2.0.0").is_err());
}

#[test]
fn refused_update_work_says_why() {
    let mut coordinator = UpdateCoordinator::new();
    let _check = coordinator.check("request-1").expect("the first check should own the coordinator");
    assert_eq!(
        coordinator.check("request-2").err().as_deref(),
        Some("Update work cannot start during another native activity.")
    );
    assert_eq!(
        coordinator.install("1.2.3").err().as_deref(),
        Some("Installation cannot overlap a Session or update check.")
    );
}

#[test]
fn a_session_start_is_refused_during_an_installation() {
    let mut coordinator = UpdateCoordinator::new();
    let _install = coordinator.install("1.2.3").expect("the checked version should own the install lease");
    assert_eq!(
        coordinator.cancel_for_session_start().err().as_deref(),
        Some("A Formation Lap update is being installed.")
    );
}
