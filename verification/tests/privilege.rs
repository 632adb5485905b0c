use formation_lap::model::ProcessIdentity;
use formation_lap::privilege_broker::{
    accept_ownership_offer, check_acknowledgement, check_helper_response, check_request_nonce, validate_pipe_name,
    DevelopmentPrivilegeBroker, PrivilegeBroker, HELPER_PIPE_PREFIX,
};
use formation_lap::privilege_protocol::{
    ElevatedHelperRequest, ElevatedHelperResponse, ElevatedOperation, ElevatedOperationResult,
    ElevatedOwnershipAcknowledgement, ElevatedOwnershipOffer, ElevatedRequestValidator, HelperProtocolError,
    HelperValidationContext, ELEVATED_HELPER_PROTOCOL_VERSION, MAX_HELPER_MESSAGE_BYTES, check_helper_message_size,
};
use formation_lap::model::ConsoleVisibility;

const NONCE: &str = "3f2504e0-4f89-41d3-9a0c-0305e82c3301";

fn identity(pid: u32, path: &str) -> ProcessIdentity {
    ProcessIdentity { pid, creation_time: 11, canonical_executable_path: path.to_owned() }
}

fn context() -> HelperValidationContext {
    HelperValidationContext {
        current_user_id: "S-1-5-21-1".to_owned(),
        parent_identity: identity(10, "C:\\Program Files\\Formation Lap\\formation-lap.exe"),
        helper_process_id: 20,
        operation_process_identities: vec![identity(30, "C:\\Games\\sim.exe")],
        same_interactive_session: true,
        expected_application_path: true,
        release_identity_verified: true,
        canonical_files: vec!["C:\\Games\\sim.exe".to_owned()],
        canonical_directories: Vec::new(),
    }
}

fn terminate_request(nonce: &str, pid: u32) -> ElevatedHelperRequest {
    ElevatedHelperRequest {
        protocol_version: ELEVATED_HELPER_PROTOCOL_VERSION,
        parent_identity: identity(10, "C:\\Program Files\\Formation Lap\\formation-lap.exe"),
        nonce: nonce.to_owned(),
        current_user_id: "S-1-5-21-1".to_owned(),
        operations: vec![ElevatedOperation::ForceTerminate { process_identity: identity(pid, "C:\\Games\\sim.exe") }],
    }
}

#[test]
fn an_accepted_nonce_is_never_accepted_again() {
    let mut validator = ElevatedRequestValidator::new();
    assert_eq!(validator.validate(&terminate_request(NONCE, 30), &context()), Ok(()));
    assert_eq!(
        validator.validate(&terminate_request(NONCE, 30), &context()),
        Err(HelperProtocolError::ReplayedNonce)
    );
}

#[test]
fn requests_are_refused_in_order_of_their_checks() {
    let mut validator = ElevatedRequestValidator::new();
    let mut old_protocol = terminate_request(NONCE, 30);
    old_protocol.protocol_version = 1;
    assert_eq!(
        validator.validate(&old_protocol, &context()),
        Err(HelperProtocolError::VersionMismatch { expected: ELEVATED_HELPER_PROTOCOL_VERSION, received: 1 })
    );
    assert_eq!(
        validator.validate(&terminate_request("not-a-uuid", 30), &context()),
        Err(HelperProtocolError::InvalidNonce)
    );
    let mut other_user = context();
    other_user.current_user_id = "S-1-5-21-2".to_owned();
    assert_eq!(validator.validate(&terminate_request(NONCE, 30), &other_user), Err(HelperProtocolError::WrongUser));
    assert_eq!(
        validator.validate(&terminate_request(NONCE, 10), &context()),
        Err(HelperProtocolError::ProtectedProcess(10))
    );
    assert_eq!(
        validator.validate(&terminate_request(NONCE, 31), &context()),
        Err(HelperProtocolError::WrongProcessIdentity(31))
    );
    let mut empty = terminate_request(NONCE, 30);
    empty.operations.clear();
    assert_eq!(validator.validate(&empty, &context()), Err(HelperProtocolError::EmptyBatch));
    assert_eq!(validator.validate(&terminate_request(NONCE, 30), &context()), Ok(()));
}

fn launch_operation() -> ElevatedOperation {
    ElevatedOperation::Launch {
        executable_path: "C:\\Games\\sim.exe".to_owned(),
        arguments: Vec::new(),
        working_directory: None,
        monitored_process: None,
        monitored_executable_path: None,
        console_visibility: ConsoleVisibility::Visible,
        startup_timeout_seconds: 30,
    }
}

#[test]
fn ownership_offers_are_accepted_once_for_launches_of_this_request() {
    let operations = vec![launch_operation(), ElevatedOperation::ForceTerminate { process_identity: identity(30, "x") }];
    let offer = |index: usize, nonce: &str| ElevatedOwnershipOffer {
        protocol_version: ELEVATED_HELPER_PROTOCOL_VERSION,
        nonce: nonce.to_owned(),
        operation_index: index,
        process_identity: identity(40, "C:\\Games\\sim.exe"),
    };
    let mut acknowledged = Vec::new();
    assert!(accept_ownership_offer(&offer(0, NONCE), NONCE, &operations, &mut acknowledged));
    assert_eq!(acknowledged, vec![0]);
    assert!(!accept_ownership_offer(&offer(0, NONCE), NONCE, &operations, &mut acknowledged));
    assert!(!accept_ownership_offer(&offer(1, NONCE), NONCE, &operations, &mut acknowledged));
    assert!(!accept_ownership_offer(&offer(0, "other"), NONCE, &operations, &mut acknowledged));
    assert!(!accept_ownership_offer(&offer(5, NONCE), NONCE, &operations, &mut acknowledged));
    assert_eq!(acknowledged, vec![0]);
}

#[test]
fn helper_responses_must_answer_the_request_in_full() {
    let launched = |acknowledged: &Vec<usize>| {
        check_helper_response(
            &ElevatedHelperResponse {
                protocol_version: ELEVATED_HELPER_PROTOCOL_VERSION,
                nonce: NONCE.to_owned(),
                accepted: true,
                error: None,
                results: vec![ElevatedOperationResult::Launched { process_identity: identity(40, "x") }],
            },
            NONCE,
            1,
            acknowledged,
        )
    };
    assert!(launched(&vec![0]).is_ok());
    assert_eq!(
        launched(&Vec::new()).expect_err("an unacknowledged launch must be refused").message,
        "helper returned an unacknowledged launched Process"
    );
    let rejected = ElevatedHelperResponse {
        protocol_version: ELEVATED_HELPER_PROTOCOL_VERSION,
        nonce: NONCE.to_owned(),
        accepted: false,
        error: Some("wrong user".to_owned()),
        results: Vec::new(),
    };
    assert_eq!(check_helper_response(&rejected, NONCE, 1, &Vec::new()).expect_err("refused").message, "wrong user");
    let short = ElevatedHelperResponse {
        protocol_version: ELEVATED_HELPER_PROTOCOL_VERSION,
        nonce: NONCE.to_owned(),
        accepted: true,
        error: None,
        results: Vec::new(),
    };
    assert_eq!(
        check_helper_response(&short, NONCE, 1, &Vec::new()).expect_err("one result is missing").message,
        "helper response does not contain one result per operation"
    );
    assert_eq!(
        check_helper_response(&short, "other", 0, &Vec::new()).expect_err("another nonce").message,
        "helper response nonce does not match"
    );
}

#[test]
fn acknowledgements_must_name_the_exact_launch() {
    let acknowledgement = ElevatedOwnershipAcknowledgement {
        protocol_version: ELEVATED_HELPER_PROTOCOL_VERSION,
        nonce: NONCE.to_owned(),
        operation_index: 2,
        process_identity: identity(40, "C:\\Games\\sim.exe"),
    };
    assert!(check_acknowledgement(&acknowledgement, NONCE, 2, &identity(40, "C:\\Games\\sim.exe")).is_ok());
    assert!(check_acknowledgement(&acknowledgement, NONCE, 1, &identity(40, "C:\\Games\\sim.exe")).is_err());
    assert!(check_acknowledgement(&acknowledgement, NONCE, 2, &identity(41, "C:\\Games\\sim.exe")).is_err());
}

#[test]
fn the_development_broker_records_batches_and_answers_from_its_queue() {
    let mut broker = DevelopmentPrivilegeBroker::new();
    assert!(broker.execute(&[launch_operation()]).is_err());
    assert_eq!(broker.recorded_batches().len(), 1);
}

#[test]
fn helper_pipe_names_carry_a_version_four_nonce() {
    let name = format!("{HELPER_PIPE_PREFIX}{NONCE}");
    assert_eq!(HELPER_PIPE_PREFIX, r"\\.\pipe\FormationLap-");
    assert_eq!(validate_pipe_name(&name).unwrap(), NONCE);
    assert_eq!(
        validate_pipe_name(r"\\.\pipe\Other-3f2504e0-4f89-41d3-9a0c-0305e82c3301").unwrap_err().message,
        "helper pipe name has an invalid prefix"
    );
    for nonce in ["6ba7b810-9dad-11d1-80b4-00c04fd430c8", "not-a-uuid", "3f2504e0/4f89-41d3-9a0c-0305e82c3301"] {
        assert_eq!(
            validate_pipe_name(&format!("{HELPER_PIPE_PREFIX}{nonce}")).unwrap_err().message,
            "helper pipe name does not contain a version-four nonce"
        );
    }
}

#[test]
fn helper_messages_over_the_limit_are_refused() {
    assert_eq!(check_helper_message_size(&vec![0u8; MAX_HELPER_MESSAGE_BYTES]), Ok(()));
    assert_eq!(
        check_helper_message_size(&vec![0u8; MAX_HELPER_MESSAGE_BYTES + 1]),
        Err(HelperProtocolError::MessageTooLarge { maximum: MAX_HELPER_MESSAGE_BYTES, received: MAX_HELPER_MESSAGE_BYTES + 1 })
    );
}

#[test]
fn a_request_must_carry_the_pipe_nonce() {
    let request = terminate_request(NONCE, 41);
    assert_eq!(check_request_nonce(&request, NONCE), Ok(()));
    assert_eq!(
        check_request_nonce(&request, "6ba7b810-9dad-41d1-80b4-00c04fd430c8").unwrap_err().message,
        "helper pipe nonce does not match the request"
    );
}
