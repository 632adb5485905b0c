//! The seam through which privileged batches reach the elevated helper, and an
//! in-process broker that records batches and answers from a queue.
use crate::model::{same_identity, ProcessIdentity};
use crate::privilege_protocol::{
    nonce_parts, parsed_nonce, ElevatedHelperRequest, ElevatedHelperResponse, ElevatedOperation,
    ElevatedOperationResult, ElevatedOwnershipAcknowledgement, ElevatedOwnershipOffer, ELEVATED_HELPER_PROTOCOL_VERSION,
};
use crate::text::{
    chars_between, chars_of, chars_start_with, same_text, starts_with, string_from_chars, text_eq_ignore_ascii_case,
};
use vstd::prelude::*;

verus! {

/// Failure of a privileged operation.
#[derive(Debug, PartialEq, Eq)]
pub struct PrivilegeBrokerError {
    pub message: String,
}

impl PrivilegeBrokerError {
    /// An error with the given message.
    pub fn new(message: &str) -> (res: Self)
        ensures
            res.message@ == message@,
    {
        PrivilegeBrokerError { message: message.to_string() }
    }
}

/// Records ownership of a Process the helper launched, before the helper
/// continues; an error makes the helper stop the batch.
pub trait LaunchAcknowledgement {
    fn acknowledge(&mut self, operation_index: usize, identity: &ProcessIdentity) -> Result<(), PrivilegeBrokerError>;
}

/// Executes one fully typed privileged batch and returns one result per operation.
pub trait PrivilegeBroker {
    fn execute(&mut self, operations: &[ElevatedOperation]) -> Result<ElevatedHelperResponse, PrivilegeBrokerError>;

    fn execute_launch_batch<A: LaunchAcknowledgement>(
        &mut self,
        operations: &[ElevatedOperation],
        acknowledge: &mut A,
    ) -> Result<ElevatedHelperResponse, PrivilegeBrokerError>;
}

/// In-process broker that records every batch and answers from a queue, so that
/// batching can be exercised without a Windows elevation prompt.
pub struct DevelopmentPrivilegeBroker {
    batches: Vec<Vec<ElevatedOperation>>,
    responses: Vec<Result<ElevatedHelperResponse, PrivilegeBrokerError>>,
}

impl DevelopmentPrivilegeBroker {
    /// The sizes of the recorded batches, in order.
    pub closed spec fn batch_sizes(&self) -> Seq<nat> {
        self.batches@.map_values(|batch: Vec<ElevatedOperation>| batch@.len())
    }

    /// The recorded batches, in order.
    pub closed spec fn recorded(&self) -> Seq<Seq<ElevatedOperation>> {
        self.batches@.map_values(|batch: Vec<ElevatedOperation>| batch@)
    }

    /// The queued answers, first to last.
    pub closed spec fn queued(&self) -> Seq<Result<ElevatedHelperResponse, PrivilegeBrokerError>> {
        self.responses@
    }

    /// A broker with nothing recorded and nothing queued.
    pub fn new() -> (res: Self)
        ensures
            res.batch_sizes() == Seq::<nat>::empty(),
            res.queued() == Seq::<Result<ElevatedHelperResponse, PrivilegeBrokerError>>::empty(),
    {
        let res = DevelopmentPrivilegeBroker { batches: Vec::new(), responses: Vec::new() };
        assert(res.batch_sizes() =~= Seq::<nat>::empty());
        res
    }

    /// Queues the answer to a later batch.
    pub fn queue_response(&mut self, response: Result<ElevatedHelperResponse, PrivilegeBrokerError>)
        ensures
            final(self).queued() == old(self).queued().push(response),
            final(self).batch_sizes() == old(self).batch_sizes(),
    {
        self.responses.push(response);
    }

    /// Copies of the recorded batches, in order.
    pub fn recorded_batches(&self) -> (res: Vec<Vec<ElevatedOperation>>)
        ensures
            res@.map_values(|batch: Vec<ElevatedOperation>| batch@.len()) == self.batch_sizes(),
            res@.len() == self.recorded().len(),
            forall|i: int| 0 <= i < res@.len() ==> same_batch(#[trigger] res@[i]@, self.recorded()[i]),
    {
        let mut copies: Vec<Vec<ElevatedOperation>> = Vec::new();
        let mut index: usize = 0;
        while index < self.batches.len()
            invariant
                index <= self.batches@.len(),
                copies@.len() == index,
                forall|i: int| 0 <= i < index ==> (#[trigger] copies@[i])@.len() == self.batches@[i]@.len(),
                forall|i: int| 0 <= i < index ==> same_batch(#[trigger] copies@[i]@, self.batches@[i]@),
            decreases self.batches@.len() - index,
        {
            copies.push(copy_operations(self.batches[index].as_slice()));
            index = index + 1;
        }
        assert(copies@.map_values(|batch: Vec<ElevatedOperation>| batch@.len()) =~= self.batch_sizes());
        copies
    }
}

/// Whether two privileged operations ask for the same thing, field by field.
pub open spec fn same_operation(left: ElevatedOperation, right: ElevatedOperation) -> bool {
    match (left, right) {
        (
            ElevatedOperation::Launch {
                executable_path: p1,
                arguments: a1,
                working_directory: w1,
                monitored_process: m1,
                monitored_executable_path: e1,
                console_visibility: c1,
                startup_timeout_seconds: s1,
            },
            ElevatedOperation::Launch {
                executable_path: p2,
                arguments: a2,
                working_directory: w2,
                monitored_process: m2,
                monitored_executable_path: e2,
                console_visibility: c2,
                startup_timeout_seconds: s2,
            },
        ) => p1 == p2 && a1@ == a2@ && w1 == w2 && m1 == m2 && e1 == e2 && c1 == c2 && s1 == s2,
        (
            ElevatedOperation::GracefulStop { process_identity: i1, strategy: g1 },
            ElevatedOperation::GracefulStop { process_identity: i2, strategy: g2 },
        ) => i1 == i2 && g1@ == g2@,
        (
            ElevatedOperation::ForceTerminate { process_identity: i1 },
            ElevatedOperation::ForceTerminate { process_identity: i2 },
        ) => i1 == i2,
        _ => false,
    }
}

/// A copy of a privileged operation.
pub fn copy_operation(operation: &ElevatedOperation) -> (res: ElevatedOperation)
    ensures
        same_operation(res, *operation),
{
    match operation {
        ElevatedOperation::Launch {
            executable_path,
            arguments,
            working_directory,
            monitored_process,
            monitored_executable_path,
            console_visibility,
            startup_timeout_seconds,
        } => ElevatedOperation::Launch {
            executable_path: executable_path.clone(),
            arguments: crate::model::clone_strings(arguments),
            working_directory: crate::model::clone_optional_string(working_directory),
            monitored_process: crate::model::clone_optional_string(monitored_process),
            monitored_executable_path: crate::model::clone_optional_string(monitored_executable_path),
            console_visibility: *console_visibility,
            startup_timeout_seconds: *startup_timeout_seconds,
        },
        ElevatedOperation::GracefulStop { process_identity, strategy } => ElevatedOperation::GracefulStop {
            process_identity: process_identity.clone(),
            strategy: strategy.clone(),
        },
        ElevatedOperation::ForceTerminate { process_identity } => ElevatedOperation::ForceTerminate {
            process_identity: process_identity.clone(),
        },
    }
}

/// Copies of a list of privileged operations.
pub fn copy_operations(operations: &[ElevatedOperation]) -> (res: Vec<ElevatedOperation>)
    ensures
        res@.len() == operations@.len(),
        forall|index: int| 0 <= index < operations@.len() ==> same_operation(#[trigger] res@[index], operations@[index]),
{
    let mut copies: Vec<ElevatedOperation> = Vec::new();
    let mut index: usize = 0;
    while index < operations.len()
        invariant
            index <= operations@.len(),
            copies@.len() == index,
            forall|k: int| 0 <= k < index ==> same_operation(#[trigger] copies@[k], operations@[k]),
        decreases operations@.len() - index,
    {
        copies.push(copy_operation(&operations[index]));
        index = index + 1;
    }
    copies
}

/// Whether two batches ask for the same operations, in order.
pub open spec fn same_batch(left: Seq<ElevatedOperation>, right: Seq<ElevatedOperation>) -> bool {
    left.len() == right.len() && forall|index: int| 0 <= index < left.len() ==> same_operation(#[trigger] left[index], right[index])
}

/// Whether every operation of a batch is a launch.
pub open spec fn only_launches(operations: Seq<ElevatedOperation>) -> bool {
    forall|index: int| 0 <= index < operations.len() ==> #[trigger] operations[index] is Launch
}

impl PrivilegeBroker for DevelopmentPrivilegeBroker {
    /// Records the batch and answers with the first queued response; with none
    /// queued, an error.
    fn execute(&mut self, operations: &[ElevatedOperation]) -> (res: Result<ElevatedHelperResponse, PrivilegeBrokerError>)
        ensures
            final(self).batch_sizes() == old(self).batch_sizes().push(operations@.len()),
            final(self).recorded().len() == old(self).recorded().len() + 1,
            final(self).recorded().take(old(self).recorded().len() as int) == old(self).recorded(),
            same_batch(final(self).recorded().last(), operations@),
            old(self).queued().len() > 0 ==> res == old(self).queued()[0] && final(self).queued()
                == old(self).queued().drop_first(),
            old(self).queued().len() == 0 ==> res is Err && final(self).queued() == old(self).queued(),
    {
        let ghost before = self.batch_sizes();
        let ghost recorded_before = self.recorded();
        let batch = copy_operations(operations);
        self.batches.push(batch);
        assert(self.batch_sizes() =~= before.push(operations@.len()));
        assert(self.recorded().take(recorded_before.len() as int) =~= recorded_before);
        if self.responses.len() == 0 {
            return Err(PrivilegeBrokerError::new("development PrivilegeBroker does not have a queued response"));
        }
        let ghost queued = self.responses@;
        let response = self.responses.remove(0);
        assert(self.responses@ =~= queued.drop_first());
        response
    }

    /// Refuses batches with anything but launches; otherwise executes the batch
    /// and acknowledges each launched Process in order, stopping at the first
    /// refused acknowledgement.
    fn execute_launch_batch<A: LaunchAcknowledgement>(
        &mut self,
        operations: &[ElevatedOperation],
        acknowledge: &mut A,
    ) -> (res: Result<ElevatedHelperResponse, PrivilegeBrokerError>)
        ensures
            !only_launches(operations@) ==> res is Err && final(self).batch_sizes() == old(self).batch_sizes()
                && final(self).queued() == old(self).queued(),
            only_launches(operations@) ==> final(self).batch_sizes() == old(self).batch_sizes().push(
                operations@.len(),
            ) && final(self).recorded().len() == old(self).recorded().len() + 1 && final(self).recorded().take(
                old(self).recorded().len() as int,
            ) == old(self).recorded() && same_batch(final(self).recorded().last(), operations@),
            !only_launches(operations@) ==> final(self).recorded() == old(self).recorded(),
            only_launches(operations@) && old(self).queued().len() == 0 ==> res is Err,
            only_launches(operations@) && old(self).queued().len() > 0 ==> final(self).queued()
                == old(self).queued().drop_first(),
            only_launches(operations@) && res is Ok ==> old(self).queued().len() > 0 && old(self).queued()[0] == res,
    {
        let mut index: usize = 0;
        while index < operations.len()
            invariant
                index <= operations@.len(),
                forall|earlier: int| 0 <= earlier < index ==> #[trigger] operations@[earlier] is Launch,
            decreases operations@.len() - index,
        {
            match &operations[index] {
                ElevatedOperation::Launch { .. } => {},
                _ => {
                    return Err(PrivilegeBrokerError::new("ownership acknowledgement accepts only launch operations"));
                },
            }
            index = index + 1;
        }
        assert(only_launches(operations@));
        let response = self.execute(operations)?;
        let mut result_index: usize = 0;
        while result_index < response.results.len()
            invariant
                result_index <= response.results@.len(),
                only_launches(operations@),
                self.batch_sizes() == old(self).batch_sizes().push(operations@.len()),
                self.recorded().len() == old(self).recorded().len() + 1,
                self.recorded().take(old(self).recorded().len() as int) == old(self).recorded(),
                same_batch(self.recorded().last(), operations@),
                old(self).queued().len() > 0,
                self.queued() == old(self).queued().drop_first(),
                old(self).queued()[0] == Ok::<ElevatedHelperResponse, PrivilegeBrokerError>(response),
            decreases response.results@.len() - result_index,
        {
            match &response.results[result_index] {
                ElevatedOperationResult::Launched { process_identity } => {
                    acknowledge.acknowledge(result_index, process_identity)?;
                },
                _ => {},
            }
            result_index = result_index + 1;
        }
        Ok(response)
    }
}

/// The file name the elevated helper must have.
pub const ELEVATED_HELPER_FILE_NAME: &'static str = "formation-lap-elevated-helper.exe";

/// Whether a canonical helper path names the expected helper executable,
/// ignoring ASCII case.
pub fn helper_name_is_expected(file_name: &str) -> (res: bool)
    ensures
        res == crate::text::eq_ignore_ascii_case(file_name@, "formation-lap-elevated-helper.exe"@),
{
    text_eq_ignore_ascii_case(file_name, ELEVATED_HELPER_FILE_NAME)
}

/// Whether a helper's ownership offer belongs to this request: the protocol
/// version, the request nonce, a launch operation of the batch, offered once.
pub open spec fn offer_is_valid(
    offer: ElevatedOwnershipOffer,
    nonce: Seq<char>,
    operations: Seq<ElevatedOperation>,
    acknowledged: Seq<usize>,
) -> bool {
    &&& offer.protocol_version == ELEVATED_HELPER_PROTOCOL_VERSION
    &&& offer.nonce@ == nonce
    &&& offer.operation_index < operations.len()
    &&& operations[offer.operation_index as int] is Launch
    &&& !acknowledged.contains(offer.operation_index)
}

/// Accepts a helper's ownership offer for this request, recording its launch
/// as acknowledged; an offer for anything else is refused.
pub fn accept_ownership_offer(
    offer: &ElevatedOwnershipOffer,
    nonce: &str,
    operations: &[ElevatedOperation],
    acknowledged: &mut Vec<usize>,
) -> (res: bool)
    ensures
        res == offer_is_valid(*offer, nonce@, operations@, old(acknowledged)@),
        res ==> final(acknowledged)@ == old(acknowledged)@.push(offer.operation_index),
        !res ==> final(acknowledged)@ == old(acknowledged)@,
{
    if offer.protocol_version != ELEVATED_HELPER_PROTOCOL_VERSION || !same_text(offer.nonce.as_str(), nonce)
        || offer.operation_index >= operations.len() {
        return false;
    }
    let is_launch = match &operations[offer.operation_index] {
        ElevatedOperation::Launch { .. } => true,
        _ => false,
    };
    if !is_launch {
        return false;
    }
    let mut index: usize = 0;
    while index < acknowledged.len()
        invariant
            index <= acknowledged@.len(),
            acknowledged@ == old(acknowledged)@,
            forall|i: int| 0 <= i < index ==> acknowledged@[i] != offer.operation_index,
        decreases acknowledged@.len() - index,
    {
        if acknowledged[index] == offer.operation_index {
            assert(acknowledged@.contains(offer.operation_index));
            return false;
        }
        index = index + 1;
    }
    acknowledged.push(offer.operation_index);
    true
}

/// Why a helper's final response is refused, if it is: protocol version,
/// nonce, refusal, one result per operation, and no launched Process whose
/// ownership was not acknowledged.
pub open spec fn response_failure(
    response: ElevatedHelperResponse,
    nonce: Seq<char>,
    operation_count: nat,
    acknowledged: Seq<usize>,
) -> Option<Seq<char>> {
    if response.protocol_version != ELEVATED_HELPER_PROTOCOL_VERSION {
        Some("helper response protocol version does not match"@)
    } else if response.nonce@ != nonce {
        Some("helper response nonce does not match"@)
    } else if !response.accepted {
        Some(
            match response.error {
                Some(message) => message@,
                None => "elevated helper rejected the request"@,
            },
        )
    } else if response.results@.len() != operation_count {
        Some("helper response does not contain one result per operation"@)
    } else if exists|index: int|
        0 <= index < response.results@.len() && (#[trigger] response.results@[index]) is Launched
            && !acknowledged.contains(index as usize) {
        Some("helper returned an unacknowledged launched Process"@)
    } else {
        None
    }
}

/// Accepts a helper's final response only when it answers this request in full.
pub fn check_helper_response(
    response: &ElevatedHelperResponse,
    nonce: &str,
    operation_count: usize,
    acknowledged: &Vec<usize>,
) -> (res: Result<(), PrivilegeBrokerError>)
    ensures
        match response_failure(*response, nonce@, operation_count as nat, acknowledged@) {
            Some(message) => res is Err && res->Err_0.message@ == message,
            None => res is Ok,
        },
{
    if response.protocol_version != ELEVATED_HELPER_PROTOCOL_VERSION {
        return Err(PrivilegeBrokerError::new("helper response protocol version does not match"));
    }
    if !same_text(response.nonce.as_str(), nonce) {
        return Err(PrivilegeBrokerError::new("helper response nonce does not match"));
    }
    if !response.accepted {
        return Err(
            match &response.error {
                Some(message) => PrivilegeBrokerError { message: message.clone() },
                None => PrivilegeBrokerError::new("elevated helper rejected the request"),
            },
        );
    }
    if response.results.len() != operation_count {
        return Err(PrivilegeBrokerError::new("helper response does not contain one result per operation"));
    }
    let mut index: usize = 0;
    while index < response.results.len()
        invariant
            index <= response.results@.len(),
            response.protocol_version == ELEVATED_HELPER_PROTOCOL_VERSION,
            response.nonce@ == nonce@,
            response.accepted,
            response.results@.len() == operation_count,
            forall|i: int|
                0 <= i < index ==> !((#[trigger] response.results@[i]) is Launched && !acknowledged@.contains(i as usize)),
        decreases response.results@.len() - index,
    {
        let launched = match &response.results[index] {
            ElevatedOperationResult::Launched { .. } => true,
            _ => false,
        };
        if launched {
            let mut found = false;
            let mut position: usize = 0;
            while position < acknowledged.len()
                invariant
                    position <= acknowledged@.len(),
                    found ==> acknowledged@.contains(index),
                    !found ==> forall|k: int| 0 <= k < position ==> acknowledged@[k] != index,
                decreases acknowledged@.len() - position,
            {
                if acknowledged[position] == index {
                    found = true;
                }
                position = position + 1;
            }
            if !found {
                assert(response.results@[index as int] is Launched && !acknowledged@.contains(index));
                return Err(PrivilegeBrokerError::new("helper returned an unacknowledged launched Process"));
            }
        }
        index = index + 1;
    }
    Ok(())
}

/// Whether an ownership acknowledgement answers this launch: protocol version,
/// nonce, operation and the exact Process.
pub open spec fn acknowledgement_is_valid(
    acknowledgement: ElevatedOwnershipAcknowledgement,
    nonce: Seq<char>,
    operation_index: usize,
    identity: ProcessIdentity,
) -> bool {
    &&& acknowledgement.protocol_version == ELEVATED_HELPER_PROTOCOL_VERSION
    &&& acknowledgement.nonce@ == nonce
    &&& acknowledgement.operation_index == operation_index
    &&& same_identity(acknowledgement.process_identity, identity)
}

/// Checks the acknowledgement the helper received for a launch it offered.
pub fn check_acknowledgement(
    acknowledgement: &ElevatedOwnershipAcknowledgement,
    nonce: &str,
    operation_index: usize,
    identity: &ProcessIdentity,
) -> (res: Result<(), PrivilegeBrokerError>)
    ensures
        res is Ok <==> acknowledgement_is_valid(*acknowledgement, nonce@, operation_index, *identity),
        res is Err ==> res->Err_0.message@ == "ownership acknowledgement does not match the launched Process"@,
{
    if acknowledgement.protocol_version == ELEVATED_HELPER_PROTOCOL_VERSION && same_text(
        acknowledgement.nonce.as_str(),
        nonce,
    ) && acknowledgement.operation_index == operation_index && acknowledgement.process_identity.same_as(identity) {
        Ok(())
    } else {
        Err(PrivilegeBrokerError::new("ownership acknowledgement does not match the launched Process"))
    }
}

/// The prefix of the named pipe the elevated helper is started with; the rest
/// of the name is the request's nonce.
pub const HELPER_PIPE_PREFIX: &'static str = "\\\\.\\pipe\\FormationLap-";

/// The nonce a pipe name carries after the helper prefix, if it has the prefix.
pub open spec fn pipe_nonce(pipe_name: Seq<char>) -> Option<Seq<char>> {
    if starts_with(pipe_name, HELPER_PIPE_PREFIX@) {
        Some(pipe_name.subrange(HELPER_PIPE_PREFIX@.len() as int, pipe_name.len() as int))
    } else {
        None
    }
}

/// Why the helper refuses the pipe name it was started with, if it does: a
/// name without the helper prefix, or a rest that holds a path separator or is
/// not a version-four UUID.
pub open spec fn pipe_name_failure(pipe_name: Seq<char>) -> Option<Seq<char>> {
    match pipe_nonce(pipe_name) {
        None => Some("helper pipe name has an invalid prefix"@),
        Some(nonce) => if nonce.contains('\\') || nonce.contains('/') || !(parsed_nonce(nonce) matches Some((version, _))
            && version == 4) {
            Some("helper pipe name does not contain a version-four nonce"@)
        } else {
            None
        },
    }
}

fn has_separator(characters: &Vec<char>) -> (res: bool)
    ensures
        res == (characters@.contains('\\') || characters@.contains('/')),
{
    let mut index: usize = 0;
    while index < characters.len()
        invariant
            index <= characters@.len(),
            forall|earlier: int| 0 <= earlier < index ==> characters@[earlier] != '\\' && characters@[earlier] != '/',
        decreases characters@.len() - index,
    {
        if characters[index] == '\\' || characters[index] == '/' {
            return true;
        }
        index = index + 1;
    }
    false
}

/// Reads the nonce from the pipe name the elevated helper was started with,
/// refusing a name that is not the helper prefix and a version-four UUID.
pub fn validate_pipe_name(pipe_name: &str) -> (res: Result<String, PrivilegeBrokerError>)
    ensures
        match pipe_name_failure(pipe_name@) {
            Some(message) => res is Err && res->Err_0.message@ == message,
            None => res is Ok && Some(res->Ok_0@) == pipe_nonce(pipe_name@),
        },
{
    let characters = chars_of(pipe_name);
    let prefix = chars_of(HELPER_PIPE_PREFIX);
    if !chars_start_with(&characters, &prefix) {
        return Err(PrivilegeBrokerError::new("helper pipe name has an invalid prefix"));
    }
    let rest = chars_between(&characters, prefix.len(), characters.len());
    if has_separator(&rest) {
        return Err(PrivilegeBrokerError::new("helper pipe name does not contain a version-four nonce"));
    }
    let nonce = string_from_chars(&rest);
    let version_four = match nonce_parts(nonce.as_str()) {
        Some((version, _)) => version == 4,
        None => false,
    };
    if !version_four {
        return Err(PrivilegeBrokerError::new("helper pipe name does not contain a version-four nonce"));
    }
    Ok(nonce)
}

/// Accepts a request only when it carries the nonce of the helper's pipe.
pub fn check_request_nonce(request: &ElevatedHelperRequest, pipe_nonce: &str) -> (res: Result<(), PrivilegeBrokerError>)
    ensures
        res is Ok <==> request.nonce@ == pipe_nonce@,
        res is Err ==> res->Err_0.message@ == "helper pipe nonce does not match the request"@,
{
    if same_text(request.nonce.as_str(), pipe_nonce) {
        Ok(())
    } else {
        Err(PrivilegeBrokerError::new("helper pipe nonce does not match the request"))
    }
}

} // verus!
