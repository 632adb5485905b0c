//! Why a command of the core failed.
use crate::model::SessionState;
use crate::privilege_broker::PrivilegeBrokerError;
use crate::process_runtime::ProcessRuntimeError;
use crate::text::{chars_of, decimal, decimal_chars, string_from_chars};
use vstd::prelude::*;

verus! {

/// Why a command of the core failed.
#[derive(Debug, PartialEq, Eq)]
pub enum CoreError {
    /// Local storage failed; `invalid_data` when stored data could not be read.
    Storage { message: String, invalid_data: bool },
    InvalidProfileDocument(String),
    InvalidSettingsDocument(String),
    InvalidSessionJournal(String),
    InvalidGameLaunchDiagnostic(String),
    InvalidLaunchRecipe(String),
    InvalidProfileName(String),
    ProfileNotFound(String),
    ProfileNeedsReview(String),
    InvalidProfileApproval(String),
    InvalidProcessConfirmation,
    ApplicationNotFound(String),
    ProcessRuntime(ProcessRuntimeError),
    PrivilegeBroker(PrivilegeBrokerError),
    DiscoveryCatalog(String),
    InvalidUpdateCheck(String),
    ActivityConflict { activity: String, command: String },
    InvalidSessionTransition { current: SessionState, command: String },
    UnsupportedProfileSchema(u32),
    UnsupportedSettingsSchema(u32),
    UnsupportedSessionJournalSchema(u32),
}

/// The texts written one after another.
pub open spec fn concatenation(parts: Seq<&str>) -> Seq<char> {
    parts.fold_left(Seq::<char>::empty(), |acc: Seq<char>, part: &str| acc + part@)
}

fn joined(parts: &[&str]) -> (res: String)
    ensures
        res@ == concatenation(parts@),
{
    let mut characters: Vec<char> = Vec::new();
    let mut index: usize = 0;
    while index < parts.len()
        invariant
            index <= parts@.len(),
            characters@ == concatenation(parts@.subrange(0, index as int)),
        decreases parts@.len() - index,
    {
        proof {
            assert(parts@.subrange(0, index + 1).drop_last() =~= parts@.subrange(0, index as int));
        }
        let mut part = chars_of(parts[index]);
        characters.append(&mut part);
        index = index + 1;
    }
    proof {
        assert(parts@.subrange(0, parts@.len() as int) =~= parts@);
    }
    string_from_chars(&characters)
}

fn with_number(prefix: &str, number: u32, suffix: &str) -> (res: String)
    ensures
        res@ == prefix@ + decimal(number as nat) + suffix@,
{
    let mut characters = chars_of(prefix);
    let mut digits = decimal_chars(number as u128);
    let mut tail = chars_of(suffix);
    characters.append(&mut digits);
    characters.append(&mut tail);
    string_from_chars(&characters)
}

/// The name of a Session state as it appears in messages.
pub open spec fn state_name(state: SessionState) -> Seq<char> {
    match state {
        SessionState::Idle => "Idle"@,
        SessionState::Starting => "Starting"@,
        SessionState::Cancelling => "Cancelling"@,
        SessionState::Active => "Active"@,
        SessionState::Closing => "Closing"@,
        SessionState::RecoveryAvailable => "RecoveryAvailable"@,
    }
}

/// The name of a Session state as it appears in messages.
pub fn session_state_name(state: SessionState) -> (res: &'static str)
    ensures
        res@ == state_name(state),
{
    match state {
        SessionState::Idle => "Idle",
        SessionState::Starting => "Starting",
        SessionState::Cancelling => "Cancelling",
        SessionState::Active => "Active",
        SessionState::Closing => "Closing",
        SessionState::RecoveryAvailable => "RecoveryAvailable",
    }
}

/// The sentence shown to the user for an error.
pub open spec fn error_message(error: CoreError) -> Seq<char> {
    match error {
        CoreError::Storage { message, .. } => "profile storage failed: "@ + message@,
        CoreError::InvalidProfileDocument(message) => "profile document is invalid: "@ + message@,
        CoreError::InvalidSettingsDocument(message) => "settings document is invalid: "@ + message@,
        CoreError::InvalidSessionJournal(message) => "active Session journal is invalid: "@ + message@,
        CoreError::InvalidGameLaunchDiagnostic(message) => "Test Game Launch diagnostic is invalid: "@ + message@,
        CoreError::InvalidLaunchRecipe(message) => "Launch Recipe is invalid: "@ + message@,
        CoreError::InvalidProfileName(field) => field@ + " must not be blank"@,
        CoreError::ProfileNotFound(profile_id) => "Racing Profile "@ + profile_id@ + " was not found"@,
        CoreError::ProfileNeedsReview(profile_id) => "Racing Profile "@ + profile_id@
            + " must be reviewed before starting a Session"@,
        CoreError::InvalidProfileApproval(message) => "Racing Profile approval is invalid: "@ + message@,
        CoreError::InvalidProcessConfirmation => "process confirmation is no longer valid"@,
        CoreError::ApplicationNotFound(application_id) => "application "@ + application_id@ + " was not found"@,
        CoreError::ProcessRuntime(error) => "process runtime failed: "@ + error.message@,
        CoreError::PrivilegeBroker(error) => "privileged operation failed: "@ + error.message@,
        CoreError::DiscoveryCatalog(message) => "catalog discovery failed: "@ + message@,
        CoreError::InvalidUpdateCheck(message) => "update check is invalid: "@ + message@,
        CoreError::ActivityConflict { activity, command } => command@ + " cannot overlap "@ + activity@,
        CoreError::InvalidSessionTransition { current, command } => command@ + " is not available while the Session is "@
            + state_name(current),
        CoreError::UnsupportedProfileSchema(version) => "profile schema version "@ + decimal(version as nat)
            + " is not supported"@,
        CoreError::UnsupportedSettingsSchema(version) => "settings schema version "@ + decimal(version as nat)
            + " is not supported"@,
        CoreError::UnsupportedSessionJournalSchema(version) => "active Session journal schema version "@ + decimal(
            version as nat,
        ) + " is not supported"@,
    }
}

impl CoreError {
    /// The sentence shown to the user for this error.
    pub fn message(&self) -> (res: String)
        ensures
            res@ == error_message(*self),
    {
        proof {
            reveal_with_fuel(Seq::fold_left, 4);
        }
        match self {
            CoreError::Storage { message, .. } => joined(&["profile storage failed: ", message.as_str()]),
            CoreError::InvalidProfileDocument(message) => joined(&["profile document is invalid: ", message.as_str()]),
            CoreError::InvalidSettingsDocument(message) => joined(&["settings document is invalid: ", message.as_str()]),
            CoreError::InvalidSessionJournal(message) => joined(&["active Session journal is invalid: ", message.as_str()]),
            CoreError::InvalidGameLaunchDiagnostic(message) => joined(
                &["Test Game Launch diagnostic is invalid: ", message.as_str()],
            ),
            CoreError::InvalidLaunchRecipe(message) => joined(&["Launch Recipe is invalid: ", message.as_str()]),
            CoreError::InvalidProfileName(field) => joined(&[field.as_str(), " must not be blank"]),
            CoreError::ProfileNotFound(profile_id) => joined(&["Racing Profile ", profile_id.as_str(), " was not found"]),
            CoreError::ProfileNeedsReview(profile_id) => joined(
                &["Racing Profile ", profile_id.as_str(), " must be reviewed before starting a Session"],
            ),
            CoreError::InvalidProfileApproval(message) => joined(
                &["Racing Profile approval is invalid: ", message.as_str()],
            ),
            CoreError::InvalidProcessConfirmation => String::from_str("process confirmation is no longer valid"),
            CoreError::ApplicationNotFound(application_id) => joined(
                &["application ", application_id.as_str(), " was not found"],
            ),
            CoreError::ProcessRuntime(error) => joined(&["process runtime failed: ", error.message.as_str()]),
            CoreError::PrivilegeBroker(error) => joined(&["privileged operation failed: ", error.message.as_str()]),
            CoreError::DiscoveryCatalog(message) => joined(&["catalog discovery failed: ", message.as_str()]),
            CoreError::InvalidUpdateCheck(message) => joined(&["update check is invalid: ", message.as_str()]),
            CoreError::ActivityConflict { activity, command } => joined(
                &[command.as_str(), " cannot overlap ", activity.as_str()],
            ),
            CoreError::InvalidSessionTransition { current, command } => joined(
                &[command.as_str(), " is not available while the Session is ", session_state_name(*current)],
            ),
            CoreError::UnsupportedProfileSchema(version) => with_number(
                "profile schema version ",
                *version,
                " is not supported",
            ),
            CoreError::UnsupportedSettingsSchema(version) => with_number(
                "settings schema version ",
                *version,
                " is not supported",
            ),
            CoreError::UnsupportedSessionJournalSchema(version) => with_number(
                "active Session journal schema version ",
                *version,
                " is not supported",
            ),
        }
    }
}

} // verus!
