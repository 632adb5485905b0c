//! The typed protocol between Formation Lap and its one-shot elevated helper,
//! and the helper's validation of each request before anything runs.
//!
//! Every file-system fact the validation needs (which paths are canonical files
//! or directories) is observed by the helper beforehand and handed over in the
//! `HelperValidationContext`, so that validation itself is a pure decision.
use crate::launch_recipe::total_bytes;
use crate::model::{ConsoleVisibility, ProcessIdentity, ShutdownStrategy, same_identity};
use crate::text::{
    ascii_lowercase, chars_end_with, chars_of, chars_to_ascii_lowercase, decimal, decimal_chars,
    ends_with, file_name, is_blank, path_file_name, same_text, string_from_chars, text_is_blank,
};
use vstd::prelude::*;
use vstd::utf8::encode_utf8;

verus! {

/// The protocol version both sides must speak.
pub const ELEVATED_HELPER_PROTOCOL_VERSION: u16 = 2;

/// The most operations one request may carry.
pub const MAX_ELEVATED_OPERATIONS: usize = 32;

/// The most arguments one operation may carry.
pub const MAX_ELEVATED_ARGUMENTS: usize = 32;

/// The largest total size of one operation's arguments, in bytes.
pub const MAX_ELEVATED_ARGUMENT_BYTES: usize = 16384;

/// The largest helper message, in bytes.
pub const MAX_HELPER_MESSAGE_BYTES: usize = 65536;

/// One privileged operation.
#[derive(Debug)]
pub enum ElevatedOperation {
    Launch {
        executable_path: String,
        arguments: Vec<String>,
        working_directory: Option<String>,
        monitored_process: Option<String>,
        monitored_executable_path: Option<String>,
        console_visibility: ConsoleVisibility,
        startup_timeout_seconds: u32,
    },
    GracefulStop { process_identity: ProcessIdentity, strategy: ShutdownStrategy },
    ForceTerminate { process_identity: ProcessIdentity },
}

/// A batch of privileged operations sent to the helper.
#[derive(Debug)]
pub struct ElevatedHelperRequest {
    pub protocol_version: u16,
    pub parent_identity: ProcessIdentity,
    pub nonce: String,
    pub current_user_id: String,
    pub operations: Vec<ElevatedOperation>,
}

/// The result of one privileged operation.
#[derive(Debug)]
pub enum ElevatedOperationResult {
    Launched { process_identity: ProcessIdentity },
    GracefulStopRequested { requested: bool, exited: bool },
    ForceTerminated,
    Failed { message: String },
}

/// The helper's answer to a request.
#[derive(Debug)]
pub struct ElevatedHelperResponse {
    pub protocol_version: u16,
    pub nonce: String,
    pub accepted: bool,
    pub error: Option<String>,
    pub results: Vec<ElevatedOperationResult>,
}

/// The helper offers ownership of a launched Process before it continues.
#[derive(Debug)]
pub struct ElevatedOwnershipOffer {
    pub protocol_version: u16,
    pub nonce: String,
    pub operation_index: usize,
    pub process_identity: ProcessIdentity,
}

/// Formation Lap confirms that it recorded ownership of a launched Process.
#[derive(Debug)]
pub struct ElevatedOwnershipAcknowledgement {
    pub protocol_version: u16,
    pub nonce: String,
    pub operation_index: usize,
    pub process_identity: ProcessIdentity,
}

/// Facts observed independently by the elevated helper before request validation.
#[derive(Debug)]
pub struct HelperValidationContext {
    pub current_user_id: String,
    pub parent_identity: ProcessIdentity,
    pub helper_process_id: u32,
    pub operation_process_identities: Vec<ProcessIdentity>,
    pub same_interactive_session: bool,
    pub expected_application_path: bool,
    pub release_identity_verified: bool,
    /// The request's paths that are existing files written in canonical form.
    pub canonical_files: Vec<String>,
    /// The request's paths that are existing directories written in canonical form.
    pub canonical_directories: Vec<String>,
}

/// Why the helper refuses a request.
#[derive(Debug, PartialEq, Eq)]
#[allow(inconsistent_fields)]
pub enum HelperProtocolError {
    MessageTooLarge { maximum: usize, received: usize },
    InvalidDocument(String),
    VersionMismatch { expected: u16, received: u16 },
    InvalidNonce,
    ReplayedNonce,
    WrongUser,
    WrongParentIdentity,
    WrongInteractiveSession,
    UnexpectedApplicationPath,
    UnverifiedReleaseIdentity,
    EmptyBatch,
    BatchTooLarge { maximum: usize, received: usize },
    NonCanonicalPath(String),
    InvalidExecutable(String),
    InvalidArguments(String),
    WrongProcessIdentity(u32),
    ProtectedProcess(u32),
}

/// The abstract value of a `HelperProtocolError`.
#[allow(inconsistent_fields)]
pub enum ProtocolFailure {
    MessageTooLarge { maximum: usize, received: usize },
    InvalidDocument(Seq<char>),
    VersionMismatch { expected: u16, received: u16 },
    InvalidNonce,
    ReplayedNonce,
    WrongUser,
    WrongParentIdentity,
    WrongInteractiveSession,
    UnexpectedApplicationPath,
    UnverifiedReleaseIdentity,
    EmptyBatch,
    BatchTooLarge { maximum: usize, received: usize },
    NonCanonicalPath(Seq<char>),
    InvalidExecutable(Seq<char>),
    InvalidArguments(Seq<char>),
    WrongProcessIdentity(u32),
    ProtectedProcess(u32),
}

impl View for HelperProtocolError {
    type V = ProtocolFailure;

    open spec fn view(&self) -> ProtocolFailure {
        match self {
            HelperProtocolError::MessageTooLarge { maximum, received } => ProtocolFailure::MessageTooLarge {
                maximum: *maximum,
                received: *received,
            },
            HelperProtocolError::InvalidDocument(message) => ProtocolFailure::InvalidDocument(message@),
            HelperProtocolError::VersionMismatch { expected, received } => ProtocolFailure::VersionMismatch {
                expected: *expected,
                received: *received,
            },
            HelperProtocolError::InvalidNonce => ProtocolFailure::InvalidNonce,
            HelperProtocolError::ReplayedNonce => ProtocolFailure::ReplayedNonce,
            HelperProtocolError::WrongUser => ProtocolFailure::WrongUser,
            HelperProtocolError::WrongParentIdentity => ProtocolFailure::WrongParentIdentity,
            HelperProtocolError::WrongInteractiveSession => ProtocolFailure::WrongInteractiveSession,
            HelperProtocolError::UnexpectedApplicationPath => ProtocolFailure::UnexpectedApplicationPath,
            HelperProtocolError::UnverifiedReleaseIdentity => ProtocolFailure::UnverifiedReleaseIdentity,
            HelperProtocolError::EmptyBatch => ProtocolFailure::EmptyBatch,
            HelperProtocolError::BatchTooLarge { maximum, received } => ProtocolFailure::BatchTooLarge {
                maximum: *maximum,
                received: *received,
            },
            HelperProtocolError::NonCanonicalPath(path) => ProtocolFailure::NonCanonicalPath(path@),
            HelperProtocolError::InvalidExecutable(message) => ProtocolFailure::InvalidExecutable(message@),
            HelperProtocolError::InvalidArguments(message) => ProtocolFailure::InvalidArguments(message@),
            HelperProtocolError::WrongProcessIdentity(pid) => ProtocolFailure::WrongProcessIdentity(*pid),
            HelperProtocolError::ProtectedProcess(pid) => ProtocolFailure::ProtectedProcess(*pid),
        }
    }
}

/// Whether a text is one of the listed texts.
pub open spec fn listed(texts: Seq<String>, text: Seq<char>) -> bool {
    exists|index: int| 0 <= index < texts.len() && #[trigger] texts[index]@ == text
}

fn is_listed(texts: &Vec<String>, text: &str) -> (res: bool)
    ensures
        res == listed(texts@, text@),
{
    let mut index: usize = 0;
    while index < texts.len()
        invariant
            index <= texts@.len(),
            forall|earlier: int| 0 <= earlier < index ==> (#[trigger] texts@[earlier])@ != text@,
        decreases texts@.len() - index,
    {
        if same_text(texts[index].as_str(), text) {
            return true;
        }
        index = index + 1;
    }
    false
}

/// The script and shell hosts the helper never starts.
pub open spec fn is_script_host(name: Seq<char>) -> bool {
    ||| name == "cmd.exe"@
    ||| name == "powershell.exe"@
    ||| name == "pwsh.exe"@
    ||| name == "wscript.exe"@
    ||| name == "cscript.exe"@
    ||| name == "mshta.exe"@
    ||| name == "rundll32.exe"@
    ||| name == "regsvr32.exe"@
}

/// Why an executable path may not be started, if it may not.
pub open spec fn executable_failure(path: Seq<char>, context: HelperValidationContext) -> Option<ProtocolFailure> {
    if !listed(context.canonical_files@, path) {
        Some(ProtocolFailure::NonCanonicalPath(path))
    } else {
        match file_name(path) {
            None => Some(ProtocolFailure::InvalidExecutable("target has no executable name"@)),
            Some(name) => if !ends_with(ascii_lowercase(name), ".exe"@) {
                Some(ProtocolFailure::InvalidExecutable("target is not an .exe file"@))
            } else if is_script_host(ascii_lowercase(name)) {
                Some(
                    ProtocolFailure::InvalidExecutable(
                        "shell and script hosts are outside the helper protocol"@,
                    ),
                )
            } else {
                None
            },
        }
    }
}

fn check_executable(path: &str, context: &HelperValidationContext) -> (res: Result<(), HelperProtocolError>)
    ensures
        match res {
            Ok(()) => executable_failure(path@, *context) is None,
            Err(error) => executable_failure(path@, *context) == Some(error@),
        },
{
    if !is_listed(&context.canonical_files, path) {
        return Err(HelperProtocolError::NonCanonicalPath(path.to_string()));
    }
    let name = match path_file_name(path) {
        Some(name) => chars_to_ascii_lowercase(&name),
        None => {
            return Err(HelperProtocolError::InvalidExecutable(String::from_str("target has no executable name")));
        },
    };
    let suffix = chars_of(".exe");
    if !chars_end_with(&name, &suffix) {
        return Err(HelperProtocolError::InvalidExecutable(String::from_str("target is not an .exe file")));
    }
    let text = string_from_chars(&name);
    let host = same_text(text.as_str(), "cmd.exe") || same_text(text.as_str(), "powershell.exe")
        || same_text(text.as_str(), "pwsh.exe") || same_text(text.as_str(), "wscript.exe")
        || same_text(text.as_str(), "cscript.exe") || same_text(text.as_str(), "mshta.exe")
        || same_text(text.as_str(), "rundll32.exe") || same_text(text.as_str(), "regsvr32.exe");
    if host {
        return Err(
            HelperProtocolError::InvalidExecutable(
                String::from_str("shell and script hosts are outside the helper protocol"),
            ),
        );
    }
    Ok(())
}

/// Whether a text holds a NUL, carriage return or line feed.
pub open spec fn has_line_control(text: Seq<char>) -> bool {
    exists|index: int|
        0 <= index < text.len() && (#[trigger] text[index] == '\0' || text[index] == '\r' || text[index]
            == '\n')
}

/// Why a list of arguments may not be passed, if it may not.
pub open spec fn arguments_failure(arguments: Seq<String>) -> Option<ProtocolFailure> {
    if arguments.len() > MAX_ELEVATED_ARGUMENTS {
        Some(
            ProtocolFailure::InvalidArguments(
                "operation contains "@ + decimal(arguments.len()) + " arguments; the maximum is 32"@,
            ),
        )
    } else if total_bytes(arguments) > MAX_ELEVATED_ARGUMENT_BYTES {
        Some(
            ProtocolFailure::InvalidArguments(
                "operation arguments contain "@ + decimal(total_bytes(arguments))
                    + " bytes; the maximum is 16384"@,
            ),
        )
    } else if exists|index: int| 0 <= index < arguments.len() && has_line_control(#[trigger] arguments[index]@) {
        Some(ProtocolFailure::InvalidArguments("arguments cannot contain NUL or line separators"@))
    } else {
        None
    }
}

fn text_has_line_control(text: &str) -> (res: bool)
    ensures
        res == has_line_control(text@),
{
    let characters = chars_of(text);
    let mut index: usize = 0;
    while index < characters.len()
        invariant
            characters@ == text@,
            index <= characters@.len(),
            forall|earlier: int| 0 <= earlier < index ==> !(#[trigger] text@[earlier] == '\0' || text@[earlier] == '\r' || text@[earlier] == '\n'),
        decreases characters@.len() - index,
    {
        let c = characters[index];
        if c == '\0' || c == '\r' || c == '\n' {
            assert(text@[index as int] == c);
            return true;
        }
        index = index + 1;
    }
    false
}

fn argument_bytes(arguments: &Vec<String>) -> (res: u128)
    requires
        arguments@.len() <= MAX_ELEVATED_ARGUMENTS,
    ensures
        res as nat == total_bytes(arguments@),
{
    let mut total: u128 = 0;
    let mut index: usize = 0;
    while index < arguments.len()
        invariant
            index <= arguments@.len(),
            arguments@.len() <= MAX_ELEVATED_ARGUMENTS,
            total as nat == total_bytes(arguments@.subrange(0, index as int)),
            total <= index * (usize::MAX as u128),
        decreases arguments@.len() - index,
    {
        let argument = arguments[index].as_str();
        let length = argument.as_bytes().len();
        proof {
            let prefix = arguments@.subrange(0, index + 1);
            assert(prefix.drop_last() =~= arguments@.subrange(0, index as int));
            assert(prefix.last() == arguments@[index as int]);
            assert(argument@ == arguments@[index as int]@);
            assert(length == encode_utf8(prefix.last()@).len());
            assert((index + 1) * (usize::MAX as u128) == index * (usize::MAX as u128) + usize::MAX) by (nonlinear_arith);
            assert((index + 1) * (usize::MAX as u128) <= 33 * (usize::MAX as u128)) by (nonlinear_arith)
                requires index + 1 <= 33;
        }
        total = total + length as u128;
        index = index + 1;
    }
    assert(arguments@.subrange(0, index as int) =~= arguments@);
    total
}

fn check_arguments(arguments: &Vec<String>) -> (res: Result<(), HelperProtocolError>)
    ensures
        match res {
            Ok(()) => arguments_failure(arguments@) is None,
            Err(error) => arguments_failure(arguments@) == Some(error@),
        },
{
    if arguments.len() > MAX_ELEVATED_ARGUMENTS {
        let mut message = chars_of("operation contains ");
        let mut count = decimal_chars(arguments.len() as u128);
        let mut tail = chars_of(" arguments; the maximum is 32");
        message.append(&mut count);
        message.append(&mut tail);
        return Err(HelperProtocolError::InvalidArguments(string_from_chars(&message)));
    }
    let total = argument_bytes(arguments);
    if total > MAX_ELEVATED_ARGUMENT_BYTES as u128 {
        let mut message = chars_of("operation arguments contain ");
        let mut count = decimal_chars(total);
        let mut tail = chars_of(" bytes; the maximum is 16384");
        message.append(&mut count);
        message.append(&mut tail);
        return Err(HelperProtocolError::InvalidArguments(string_from_chars(&message)));
    }
    let mut index: usize = 0;
    while index < arguments.len()
        invariant
            index <= arguments@.len(),
            forall|earlier: int| 0 <= earlier < index ==> !has_line_control(#[trigger] arguments@[earlier]@),
            arguments@.len() <= MAX_ELEVATED_ARGUMENTS,
            total_bytes(arguments@) <= MAX_ELEVATED_ARGUMENT_BYTES,
        decreases arguments@.len() - index,
    {
        if text_has_line_control(arguments[index].as_str()) {
            assert(has_line_control(arguments@[index as int]@));
            return Err(
                HelperProtocolError::InvalidArguments(
                    String::from_str("arguments cannot contain NUL or line separators"),
                ),
            );
        }
        index = index + 1;
    }
    Ok(())
}

/// The extension of a file name, as `Path::extension` reads it: the text after
/// the last dot, unless that dot begins the name.
pub open spec fn extension_of(name: Seq<char>) -> Option<Seq<char>> {
    match last_dot(name, name.len() as int) {
        Some(dot) => if dot == 0 {
            None
        } else {
            Some(name.subrange(dot + 1, name.len() as int))
        },
        None => None,
    }
}

/// The position of the last dot before `end`.
pub open spec fn last_dot(name: Seq<char>, end: int) -> Option<int>
    decreases end,
{
    if end <= 0 {
        None
    } else if name[end - 1] == '.' {
        Some(end - 1)
    } else {
        last_dot(name, end - 1)
    }
}

fn find_last_dot(name: &Vec<char>) -> (res: Option<usize>)
    ensures
        match res {
            Some(dot) => last_dot(name@, name@.len() as int) == Some(dot as int) && dot < name@.len(),
            None => last_dot(name@, name@.len() as int) is None,
        },
{
    let mut end = name.len();
    while end > 0
        invariant
            end <= name@.len(),
            last_dot(name@, name@.len() as int) == last_dot(name@, end as int),
        decreases end,
    {
        if name[end - 1] == '.' {
            return Some(end - 1);
        }
        end = end - 1;
    }
    None
}

/// Whether a monitored Process entry is a bare `.exe` file name.
pub open spec fn is_monitored_process_name(value: Seq<char>) -> bool {
    !is_blank(value) && ends_with(ascii_lowercase(value), ".exe"@) && file_name(value) == Some(value)
}

/// Why a launch operation may not run, if it may not.
pub open spec fn launch_failure(
    executable_path: Seq<char>,
    arguments: Seq<String>,
    working_directory: Option<String>,
    monitored_process: Option<String>,
    monitored_executable_path: Option<String>,
    startup_timeout_seconds: u32,
    context: HelperValidationContext,
) -> Option<ProtocolFailure> {
    if executable_failure(executable_path, context) is Some {
        executable_failure(executable_path, context)
    } else if arguments_failure(arguments) is Some {
        arguments_failure(arguments)
    } else if working_directory matches Some(directory) && !listed(context.canonical_directories@, directory@) {
        Some(ProtocolFailure::NonCanonicalPath(working_directory->0@))
    } else if monitored_process matches Some(name) && !is_monitored_process_name(name@) {
        Some(ProtocolFailure::InvalidExecutable("monitored Process must be an executable file name"@))
    } else if monitored_executable_path matches Some(path) && !listed(context.canonical_files@, path@) {
        Some(ProtocolFailure::NonCanonicalPath(monitored_executable_path->0@))
    } else if monitored_executable_path matches Some(path) && !(file_name(path@) matches Some(name)
        && extension_of(name) matches Some(extension) && ascii_lowercase(extension) == "exe"@) {
        Some(ProtocolFailure::InvalidExecutable("monitored executable path must identify an .exe file"@))
    } else if !(1 <= startup_timeout_seconds <= 300) {
        Some(ProtocolFailure::InvalidArguments("startup timeout must be between 1 and 300 seconds"@))
    } else {
        None
    }
}

/// Whether an identity is among the observed identities.
pub open spec fn identity_observed(observed: Seq<ProcessIdentity>, identity: ProcessIdentity) -> bool {
    exists|index: int| 0 <= index < observed.len() && same_identity(#[trigger] observed[index], identity)
}

/// Why a Process may not be controlled, if it may not.
pub open spec fn control_failure(
    identity: ProcessIdentity,
    request: ElevatedHelperRequest,
    context: HelperValidationContext,
) -> Option<ProtocolFailure> {
    if identity.pid == 0 || identity.pid == context.helper_process_id || identity.pid == request.parent_identity.pid {
        Some(ProtocolFailure::ProtectedProcess(identity.pid))
    } else if !identity_observed(context.operation_process_identities@, identity) {
        Some(ProtocolFailure::WrongProcessIdentity(identity.pid))
    } else if !listed(context.canonical_files@, identity.canonical_executable_path@) {
        Some(ProtocolFailure::NonCanonicalPath(identity.canonical_executable_path@))
    } else {
        None
    }
}

/// Why an operation may not run, if it may not.
pub open spec fn operation_failure(
    operation: ElevatedOperation,
    request: ElevatedHelperRequest,
    context: HelperValidationContext,
) -> Option<ProtocolFailure> {
    match operation {
        ElevatedOperation::Launch {
            executable_path,
            arguments,
            working_directory,
            monitored_process,
            monitored_executable_path,
            startup_timeout_seconds,
            ..
        } => launch_failure(
            executable_path@,
            arguments@,
            working_directory,
            monitored_process,
            monitored_executable_path,
            startup_timeout_seconds,
            context,
        ),
        ElevatedOperation::GracefulStop { process_identity, strategy } => {
            if control_failure(process_identity, request, context) is Some {
                control_failure(process_identity, request, context)
            } else {
                match strategy {
                    ShutdownStrategy::CustomStop { executable_path, arguments } => {
                        if executable_failure(executable_path@, context) is Some {
                            executable_failure(executable_path@, context)
                        } else {
                            arguments_failure(arguments@)
                        }
                    },
                    _ => None,
                }
            }
        },
        ElevatedOperation::ForceTerminate { process_identity } => control_failure(
            process_identity,
            request,
            context,
        ),
    }
}

/// The first failing operation from `index` on.
pub open spec fn operations_failure(
    request: ElevatedHelperRequest,
    context: HelperValidationContext,
    index: nat,
) -> Option<ProtocolFailure>
    decreases request.operations@.len() - index,
{
    if index >= request.operations@.len() {
        None
    } else if operation_failure(request.operations@[index as int], request, context) is Some {
        operation_failure(request.operations@[index as int], request, context)
    } else {
        operations_failure(request, context, index + 1)
    }
}

/// What `uuid` reads from a nonce: its version number and whether it is nil;
/// `None` when the text does not parse.
pub uninterp spec fn parsed_nonce(text: Seq<char>) -> Option<(usize, bool)>;

/// Parses a nonce with `uuid::Uuid::parse_str` and reads `get_version_num` and
/// `is_nil`. The contract names the result (`parsed_nonce`) and claims nothing more.
#[verifier::external_body]
pub(crate) fn nonce_parts(text: &str) -> (res: Option<(usize, bool)>)
    ensures
        res == parsed_nonce(text@),
{
    uuid::Uuid::parse_str(text).ok().map(|nonce| (nonce.get_version_num(), nonce.is_nil()))
}

/// Whether a nonce is a random, non-nil UUID.
pub open spec fn nonce_is_valid(nonce: Seq<char>) -> bool {
    parsed_nonce(nonce) matches Some((version, nil)) && version == 4 && !nil
}

/// Why the helper refuses a request, if it does; checks run in this order.
pub open spec fn request_failure(
    request: ElevatedHelperRequest,
    context: HelperValidationContext,
    consumed: Seq<Seq<char>>,
) -> Option<ProtocolFailure> {
    if request.protocol_version != ELEVATED_HELPER_PROTOCOL_VERSION {
        Some(
            ProtocolFailure::VersionMismatch {
                expected: ELEVATED_HELPER_PROTOCOL_VERSION,
                received: request.protocol_version,
            },
        )
    } else if !nonce_is_valid(request.nonce@) {
        Some(ProtocolFailure::InvalidNonce)
    } else if consumed.contains(request.nonce@) {
        Some(ProtocolFailure::ReplayedNonce)
    } else if request.current_user_id@ != context.current_user_id@ {
        Some(ProtocolFailure::WrongUser)
    } else if !same_identity(request.parent_identity, context.parent_identity) {
        Some(ProtocolFailure::WrongParentIdentity)
    } else if !context.same_interactive_session {
        Some(ProtocolFailure::WrongInteractiveSession)
    } else if !context.expected_application_path {
        Some(ProtocolFailure::UnexpectedApplicationPath)
    } else if !context.release_identity_verified {
        Some(ProtocolFailure::UnverifiedReleaseIdentity)
    } else if request.operations@.len() == 0 {
        Some(ProtocolFailure::EmptyBatch)
    } else if request.operations@.len() > MAX_ELEVATED_OPERATIONS {
        Some(
            ProtocolFailure::BatchTooLarge {
                maximum: MAX_ELEVATED_OPERATIONS,
                received: request.operations@.len() as usize,
            },
        )
    } else {
        operations_failure(request, context, 0)
    }
}

/// Checks each request once; a nonce is consumed only by an accepted request.
pub struct ElevatedRequestValidator {
    consumed_nonces: Vec<String>,
}

impl ElevatedRequestValidator {
    /// The nonces of the requests accepted so far.
    pub closed spec fn consumed(&self) -> Seq<Seq<char>> {
        self.consumed_nonces@.map_values(|nonce: String| nonce@)
    }

    /// A validator that has accepted nothing.
    pub fn new() -> (res: Self)
        ensures
            res.consumed() == Seq::<Seq<char>>::empty(),
    {
        let res = ElevatedRequestValidator { consumed_nonces: Vec::new() };
        assert(res.consumed() =~= Seq::<Seq<char>>::empty());
        res
    }

    fn check_nonce_unused(&self, nonce: &str) -> (res: bool)
        ensures
            res == !self.consumed().contains(nonce@),
    {
        let mut index: usize = 0;
        while index < self.consumed_nonces.len()
            invariant
                index <= self.consumed_nonces@.len(),
                forall|earlier: int| 0 <= earlier < index ==> (#[trigger] self.consumed_nonces@[earlier])@ != nonce@,
            decreases self.consumed_nonces@.len() - index,
        {
            if same_text(self.consumed_nonces[index].as_str(), nonce) {
                assert(self.consumed()[index as int] == nonce@);
                return false;
            }
            index = index + 1;
        }
        proof {
            if self.consumed().contains(nonce@) {
                let at = choose|at: int| 0 <= at < self.consumed().len() && self.consumed()[at] == nonce@;
                assert(self.consumed_nonces@[at]@ == nonce@);
            }
        }
        true
    }

    /// Accepts a request only when every check passes; the first failing check
    /// is the error. An accepted request's nonce can never be accepted again.
    pub fn validate(&mut self, request: &ElevatedHelperRequest, context: &HelperValidationContext) -> (res: Result<(), HelperProtocolError>)
        ensures
            match res {
                Ok(()) => request_failure(*request, *context, old(self).consumed()) is None
                    && final(self).consumed() == old(self).consumed().push(request.nonce@),
                Err(error) => request_failure(*request, *context, old(self).consumed()) == Some(error@)
                    && final(self).consumed() == old(self).consumed(),
            },
    {
        if request.protocol_version != ELEVATED_HELPER_PROTOCOL_VERSION {
            return Err(
                HelperProtocolError::VersionMismatch {
                    expected: ELEVATED_HELPER_PROTOCOL_VERSION,
                    received: request.protocol_version,
                },
            );
        }
        match nonce_parts(request.nonce.as_str()) {
            Some((version, nil)) => {
                if version != 4 || nil {
                    return Err(HelperProtocolError::InvalidNonce);
                }
            },
            None => return Err(HelperProtocolError::InvalidNonce),
        }
        if !self.check_nonce_unused(request.nonce.as_str()) {
            return Err(HelperProtocolError::ReplayedNonce);
        }
        if !same_text(request.current_user_id.as_str(), context.current_user_id.as_str()) {
            return Err(HelperProtocolError::WrongUser);
        }
        if !request.parent_identity.same_as(&context.parent_identity) {
            return Err(HelperProtocolError::WrongParentIdentity);
        }
        if !context.same_interactive_session {
            return Err(HelperProtocolError::WrongInteractiveSession);
        }
        if !context.expected_application_path {
            return Err(HelperProtocolError::UnexpectedApplicationPath);
        }
        if !context.release_identity_verified {
            return Err(HelperProtocolError::UnverifiedReleaseIdentity);
        }
        if request.operations.len() == 0 {
            return Err(HelperProtocolError::EmptyBatch);
        }
        if request.operations.len() > MAX_ELEVATED_OPERATIONS {
            return Err(
                HelperProtocolError::BatchTooLarge {
                    maximum: MAX_ELEVATED_OPERATIONS,
                    received: request.operations.len(),
                },
            );
        }
        let mut index: usize = 0;
        while index < request.operations.len()
            invariant
                index <= request.operations@.len(),
                operations_failure(*request, *context, 0) == operations_failure(*request, *context, index as nat),
                request_failure(*request, *context, old(self).consumed()) == operations_failure(*request, *context, 0),
                self.consumed() == old(self).consumed(),
            decreases request.operations@.len() - index,
        {
            match check_operation(&request.operations[index], request, context) {
                Ok(()) => {},
                Err(error) => return Err(error),
            }
            index = index + 1;
        }
        let ghost before = self.consumed();
        self.consumed_nonces.push(request.nonce.clone());
        assert(self.consumed() =~= before.push(request.nonce@));
        Ok(())
    }
}

/// An accepted nonce is refused as a replay by every later request that carries it.
pub proof fn accepted_nonce_is_never_accepted_again(
    first: ElevatedHelperRequest,
    later: ElevatedHelperRequest,
    first_context: HelperValidationContext,
    later_context: HelperValidationContext,
    consumed: Seq<Seq<char>>,
)
    requires
        request_failure(first, first_context, consumed) is None,
        later.nonce@ == first.nonce@,
    ensures
        request_failure(later, later_context, consumed.push(first.nonce@)) is Some,
        later.protocol_version == ELEVATED_HELPER_PROTOCOL_VERSION ==> request_failure(
            later,
            later_context,
            consumed.push(first.nonce@),
        ) == Some(ProtocolFailure::ReplayedNonce),
{
    assert(consumed.push(first.nonce@)[consumed.len() as int] == first.nonce@);
}

fn check_control(identity: &ProcessIdentity, request: &ElevatedHelperRequest, context: &HelperValidationContext) -> (res: Result<(), HelperProtocolError>)
    ensures
        match res {
            Ok(()) => control_failure(*identity, *request, *context) is None,
            Err(error) => control_failure(*identity, *request, *context) == Some(error@),
        },
{
    if identity.pid == 0 || identity.pid == context.helper_process_id || identity.pid == request.parent_identity.pid {
        return Err(HelperProtocolError::ProtectedProcess(identity.pid));
    }
    let mut observed = false;
    let mut index: usize = 0;
    while index < context.operation_process_identities.len()
        invariant
            index <= context.operation_process_identities@.len(),
            observed ==> identity_observed(context.operation_process_identities@, *identity),
            !observed ==> forall|earlier: int| 0 <= earlier < index ==> !same_identity(#[trigger] context.operation_process_identities@[earlier], *identity),
        decreases context.operation_process_identities@.len() - index,
    {
        if context.operation_process_identities[index].same_as(identity) {
            observed = true;
        }
        index = index + 1;
    }
    if !observed {
        return Err(HelperProtocolError::WrongProcessIdentity(identity.pid));
    }
    if !is_listed(&context.canonical_files, identity.canonical_executable_path.as_str()) {
        return Err(HelperProtocolError::NonCanonicalPath(identity.canonical_executable_path.clone()));
    }
    Ok(())
}

fn check_monitored_process(name: &str) -> (res: bool)
    ensures
        res == is_monitored_process_name(name@),
{
    if text_is_blank(name) {
        return false;
    }
    let lowered = chars_to_ascii_lowercase(&chars_of(name));
    let suffix = chars_of(".exe");
    if !chars_end_with(&lowered, &suffix) {
        return false;
    }
    match path_file_name(name) {
        Some(file) => same_text(string_from_chars(&file).as_str(), name),
        None => false,
    }
}

fn has_exe_extension(path: &str) -> (res: bool)
    ensures
        res == (file_name(path@) matches Some(name) && extension_of(name) matches Some(extension)
            && ascii_lowercase(extension) == "exe"@),
{
    let name = match path_file_name(path) {
        Some(name) => name,
        None => return false,
    };
    let dot = match find_last_dot(&name) {
        Some(dot) => dot,
        None => return false,
    };
    if dot == 0 {
        return false;
    }
    let length = name.len();
    assert(dot < length);
    let extension = crate::text::chars_between(&name, dot + 1, length);
    let lowered = chars_to_ascii_lowercase(&extension);
    let exe = chars_of("exe");
    crate::text::chars_equal(&lowered, &exe)
}

fn check_launch(
    executable_path: &String,
    arguments: &Vec<String>,
    working_directory: &Option<String>,
    monitored_process: &Option<String>,
    monitored_executable_path: &Option<String>,
    startup_timeout_seconds: u32,
    context: &HelperValidationContext,
) -> (res: Result<(), HelperProtocolError>)
    ensures
        match res {
            Ok(()) => launch_failure(
                executable_path@,
                arguments@,
                *working_directory,
                *monitored_process,
                *monitored_executable_path,
                startup_timeout_seconds,
                *context,
            ) is None,
            Err(error) => launch_failure(
                executable_path@,
                arguments@,
                *working_directory,
                *monitored_process,
                *monitored_executable_path,
                startup_timeout_seconds,
                *context,
            ) == Some(error@),
        },
{
    check_executable(executable_path.as_str(), context)?;
    check_arguments(arguments)?;
    match working_directory {
        Some(directory) => {
            if !is_listed(&context.canonical_directories, directory.as_str()) {
                return Err(HelperProtocolError::NonCanonicalPath(directory.clone()));
            }
        },
        None => {},
    }
    match monitored_process {
        Some(name) => {
            if !check_monitored_process(name.as_str()) {
                return Err(
                    HelperProtocolError::InvalidExecutable(
                        String::from_str("monitored Process must be an executable file name"),
                    ),
                );
            }
        },
        None => {},
    }
    match monitored_executable_path {
        Some(path) => {
            if !is_listed(&context.canonical_files, path.as_str()) {
                return Err(HelperProtocolError::NonCanonicalPath(path.clone()));
            }
            if !has_exe_extension(path.as_str()) {
                return Err(
                    HelperProtocolError::InvalidExecutable(
                        String::from_str("monitored executable path must identify an .exe file"),
                    ),
                );
            }
        },
        None => {},
    }
    if !(1 <= startup_timeout_seconds && startup_timeout_seconds <= 300) {
        return Err(
            HelperProtocolError::InvalidArguments(
                String::from_str("startup timeout must be between 1 and 300 seconds"),
            ),
        );
    }
    Ok(())
}

fn check_operation(operation: &ElevatedOperation, request: &ElevatedHelperRequest, context: &HelperValidationContext) -> (res: Result<(), HelperProtocolError>)
    ensures
        match res {
            Ok(()) => operation_failure(*operation, *request, *context) is None,
            Err(error) => operation_failure(*operation, *request, *context) == Some(error@),
        },
{
    match operation {
        ElevatedOperation::Launch {
            executable_path,
            arguments,
            working_directory,
            monitored_process,
            monitored_executable_path,
            startup_timeout_seconds,
            ..
        } => check_launch(
            executable_path,
            arguments,
            working_directory,
            monitored_process,
            monitored_executable_path,
            *startup_timeout_seconds,
            context,
        ),
        ElevatedOperation::GracefulStop { process_identity, strategy } => {
            check_control(process_identity, request, context)?;
            match strategy {
                ShutdownStrategy::CustomStop { executable_path, arguments } => {
                    check_executable(executable_path.as_str(), context)?;
                    check_arguments(arguments)
                },
                _ => Ok(()),
            }
        },
        ElevatedOperation::ForceTerminate { process_identity } => check_control(process_identity, request, context),
    }
}

/// Accepts a helper message only within the size limit, before it is read or
/// after it is written.
pub fn check_helper_message_size(bytes: &[u8]) -> (res: Result<(), HelperProtocolError>)
    ensures
        bytes@.len() <= MAX_HELPER_MESSAGE_BYTES ==> res is Ok,
        bytes@.len() > MAX_HELPER_MESSAGE_BYTES ==> res == Err::<(), HelperProtocolError>(
            HelperProtocolError::MessageTooLarge { maximum: MAX_HELPER_MESSAGE_BYTES, received: bytes@.len() as usize },
        ),
{
    if bytes.len() > MAX_HELPER_MESSAGE_BYTES {
        return Err(HelperProtocolError::MessageTooLarge { maximum: MAX_HELPER_MESSAGE_BYTES, received: bytes.len() });
    }
    Ok(())
}

} // verus!
