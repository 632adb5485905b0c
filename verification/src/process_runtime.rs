//! The seam between Session policy and the operating system's processes.
use crate::model::{LaunchRecipe, LaunchSource, ProcessIdentity, ProcessOutput, ShutdownStrategy};
use crate::release_identity::canonicalize_path;
use crate::text::{
    chars_of, eq_ignore_ascii_case, file_name, is_blank, path_file_name, same_text, string_from_chars,
    text_eq_ignore_ascii_case, text_is_blank,
};
use vstd::prelude::*;

verus! {

/// Failure reported by a `ProcessRuntime` adapter.
#[derive(Debug, PartialEq, Eq)]
pub struct ProcessRuntimeError {
    pub message: String,
}

impl ProcessRuntimeError {
    /// An error with the given message.
    pub fn new(message: &str) -> (res: Self)
        ensures
            res.message@ == message@,
    {
        ProcessRuntimeError { message: message.to_string() }
    }
}

/// Whether a Process has a responsive top-level window.
#[derive(Clone, Copy, Debug, PartialEq, Eq, Structural)]
pub enum ProcessResponsiveness {
    NotApplicable,
    Responsive,
    NotResponsive,
}

/// Result of checking one exact stable Process identity.
#[derive(Debug)]
pub enum ProcessObservation {
    Running { responsiveness: ProcessResponsiveness },
    Exited,
    Replaced { current_identity: ProcessIdentity },
}

/// Whether a graceful shutdown request was available for a Process.
#[derive(Clone, Copy, Debug, PartialEq, Eq, Structural)]
pub enum GracefulStopResult {
    Requested,
    Unavailable,
}

/// Observes and controls local processes without deciding Session policy.
pub trait ProcessRuntime {
    /// Running processes that a recipe would start.
    fn matching_processes(&mut self, recipe: &LaunchRecipe) -> Result<Vec<ProcessIdentity>, ProcessRuntimeError>;

    /// Starts the recipe's program.
    fn launch(&mut self, recipe: &LaunchRecipe) -> Result<ProcessIdentity, ProcessRuntimeError>;

    /// Checks one exact Process identity.
    fn observe(&mut self, identity: &ProcessIdentity) -> Result<ProcessObservation, ProcessRuntimeError>;

    /// Asks a Process to close the way its recipe says.
    fn request_graceful_stop(
        &mut self,
        identity: &ProcessIdentity,
        strategy: &ShutdownStrategy,
    ) -> Result<GracefulStopResult, ProcessRuntimeError>;

    /// Waits up to the timeout for a Process to exit; whether it did.
    fn wait_for_exit(&mut self, identity: &ProcessIdentity, timeout_milliseconds: u64) -> Result<bool, ProcessRuntimeError>;

    /// Terminates a Process.
    fn force_stop(&mut self, identity: &ProcessIdentity) -> Result<(), ProcessRuntimeError>;

    /// The captured output of a Process.
    fn read_output(&mut self, identity: &ProcessIdentity) -> Result<ProcessOutput, ProcessRuntimeError>;
}

/// The most output, in bytes, kept of each stream of a launched Process.
pub const OUTPUT_LIMIT_BYTES: usize = 65536;

/// The newest bytes of a stream, at most the output limit.
pub open spec fn kept_output(bytes: Seq<u8>) -> Seq<u8> {
    if bytes.len() > OUTPUT_LIMIT_BYTES {
        bytes.subrange(bytes.len() - OUTPUT_LIMIT_BYTES, bytes.len() as int)
    } else {
        bytes
    }
}

/// The captured output of a launched Process: the newest bytes of each stream,
/// and whether older bytes were dropped.
#[derive(Debug)]
pub struct OutputBuffer {
    pub stdout: Vec<u8>,
    pub stderr: Vec<u8>,
    pub truncated: bool,
}

/// Keeps the newest bytes of `current` followed by `bytes`; whether bytes were
/// dropped, counting a chunk as large as the limit as dropping.
fn append_bounded(current: &mut Vec<u8>, bytes: &[u8]) -> (dropped: bool)
    requires
        old(current)@.len() <= OUTPUT_LIMIT_BYTES,
    ensures
        final(current)@ == kept_output(old(current)@ + bytes@),
        dropped == (bytes@.len() >= OUTPUT_LIMIT_BYTES || old(current)@.len() + bytes@.len() > OUTPUT_LIMIT_BYTES),
{
    let ghost joined = old(current)@ + bytes@;
    if bytes.len() >= OUTPUT_LIMIT_BYTES {
        let mut kept: Vec<u8> = Vec::new();
        let mut index = bytes.len() - OUTPUT_LIMIT_BYTES;
        let start = index;
        while index < bytes.len()
            invariant
                start <= index <= bytes@.len(),
                start == bytes@.len() - OUTPUT_LIMIT_BYTES,
                kept@ == bytes@.subrange(start as int, index as int),
            decreases bytes@.len() - index,
        {
            kept.push(bytes[index]);
            index = index + 1;
            assert(kept@ =~= bytes@.subrange(start as int, index as int));
        }
        assert(joined.subrange(joined.len() - OUTPUT_LIMIT_BYTES, joined.len() as int) =~= bytes@.subrange(
            start as int,
            bytes@.len() as int,
        ));
        *current = kept;
        return true;
    }
    let overflow = if current.len() + bytes.len() > OUTPUT_LIMIT_BYTES {
        current.len() + bytes.len() - OUTPUT_LIMIT_BYTES
    } else {
        0
    };
    let mut kept: Vec<u8> = Vec::new();
    let mut index = overflow;
    while index < current.len()
        invariant
            overflow <= index <= current@.len(),
            current@ == old(current)@,
            kept@ == current@.subrange(overflow as int, index as int),
        decreases current@.len() - index,
    {
        kept.push(current[index]);
        index = index + 1;
        assert(kept@ =~= current@.subrange(overflow as int, index as int));
    }
    let mut position: usize = 0;
    while position < bytes.len()
        invariant
            position <= bytes@.len(),
            kept@ == old(current)@.subrange(overflow as int, old(current)@.len() as int) + bytes@.subrange(0, position as int),
        decreases bytes@.len() - position,
    {
        kept.push(bytes[position]);
        position = position + 1;
        assert(kept@ =~= old(current)@.subrange(overflow as int, old(current)@.len() as int) + bytes@.subrange(
            0,
            position as int,
        ));
    }
    assert(kept@ =~= kept_output(joined));
    *current = kept;
    overflow > 0
}

impl OutputBuffer {
    /// An empty buffer.
    pub fn new() -> (res: Self)
        ensures
            res.stdout@.len() == 0 && res.stderr@.len() == 0 && !res.truncated,
    {
        OutputBuffer { stdout: Vec::new(), stderr: Vec::new(), truncated: false }
    }

    /// Appends a chunk to one stream, keeping only its newest bytes.
    pub fn append(&mut self, stdout: bool, bytes: &[u8])
        requires
            old(self).stdout@.len() <= OUTPUT_LIMIT_BYTES,
            old(self).stderr@.len() <= OUTPUT_LIMIT_BYTES,
        ensures
            stdout ==> final(self).stdout@ == kept_output(old(self).stdout@ + bytes@) && final(self).stderr@
                == old(self).stderr@,
            !stdout ==> final(self).stderr@ == kept_output(old(self).stderr@ + bytes@) && final(self).stdout@
                == old(self).stdout@,
            final(self).truncated == (old(self).truncated || bytes@.len() >= OUTPUT_LIMIT_BYTES || (if stdout {
                old(self).stdout@.len()
            } else {
                old(self).stderr@.len()
            }) + bytes@.len() > OUTPUT_LIMIT_BYTES),
            final(self).stdout@.len() <= OUTPUT_LIMIT_BYTES,
            final(self).stderr@.len() <= OUTPUT_LIMIT_BYTES,
    {
        let dropped = if stdout {
            append_bounded(&mut self.stdout, bytes)
        } else {
            append_bounded(&mut self.stderr, bytes)
        };
        if dropped {
            self.truncated = true;
        }
    }
}

/// What identifies the Process a recipe starts: its canonical executable, its
/// executable file name, or both.
#[derive(Debug)]
pub struct ExpectedProcess {
    pub canonical_executable_path: Option<String>,
    pub executable_name: Option<String>,
}

/// Whether an observed Process is the expected one: the same canonical
/// executable when that is known, otherwise the same executable file name,
/// ignoring ASCII case.
pub open spec fn matches_expected(identity: ProcessIdentity, expected: ExpectedProcess) -> bool {
    match expected.canonical_executable_path {
        Some(path) => eq_ignore_ascii_case(identity.canonical_executable_path@, path@),
        None => match expected.executable_name {
            Some(name) => file_name(identity.canonical_executable_path@) matches Some(candidate) && eq_ignore_ascii_case(
                candidate,
                name@,
            ),
            None => false,
        },
    }
}

/// Whether an observed Process is the expected one.
pub fn expected_process_matches(identity: &ProcessIdentity, expected: &ExpectedProcess) -> (res: bool)
    ensures
        res == matches_expected(*identity, *expected),
{
    match &expected.canonical_executable_path {
        Some(path) => text_eq_ignore_ascii_case(identity.canonical_executable_path.as_str(), path.as_str()),
        None => match &expected.executable_name {
            Some(name) => match path_file_name(identity.canonical_executable_path.as_str()) {
                Some(candidate) => {
                    let candidate = string_from_chars(&candidate);
                    text_eq_ignore_ascii_case(candidate.as_str(), name.as_str())
                },
                None => false,
            },
            None => false,
        },
    }
}

/// Whether a monitored process setting is a bare executable file name.
pub open spec fn is_executable_file_name(name: Seq<char>) -> bool {
    !is_blank(name) && file_name(name) == Some(name)
}

fn runtime_error(context: &str, detail: &str) -> (res: ProcessRuntimeError)
    ensures
        res.message@ == context@ + ": "@ + detail@,
{
    let mut message = chars_of(context);
    let mut part = chars_of(": ");
    message.append(&mut part);
    let mut part = chars_of(detail);
    message.append(&mut part);
    ProcessRuntimeError { message: string_from_chars(&message) }
}

/// What identifies the Process a recipe starts. A monitored process must be a
/// bare file name, and a monitored executable must carry that name; otherwise
/// a direct executable is identified by its canonical path, and a Steam launch
/// cannot be identified.
pub fn expected_process(recipe: &LaunchRecipe) -> (res: Result<ExpectedProcess, ProcessRuntimeError>)
    ensures
        recipe.monitored_process matches Some(name) && !is_executable_file_name(name@) ==> res is Err
            && res->Err_0.message@ == "monitored process must be an executable file name"@,
        recipe.monitored_process is None && recipe.monitored_executable_path is Some ==> res is Err
            && res->Err_0.message@ == "monitored executable path requires a monitored process name"@,
        recipe.monitored_process is None && recipe.monitored_executable_path is None && recipe.source is Steam
            ==> res is Err && res->Err_0.message@ == "Steam launch requires a monitored process executable name"@,
        res is Ok ==> match recipe.monitored_process {
            Some(name) => res->Ok_0.executable_name == Some(name) && (recipe.monitored_executable_path is None
                <==> res->Ok_0.canonical_executable_path is None) && (res->Ok_0.canonical_executable_path matches Some(
                path,
            ) ==> (file_name(path@) matches Some(file) ==> eq_ignore_ascii_case(file, name@))),
            None => res->Ok_0.executable_name is None && res->Ok_0.canonical_executable_path is Some
                && recipe.source is DirectExecutable,
        },
{
    match &recipe.monitored_process {
        Some(monitored_process) => {
            let name_is_bare = match path_file_name(monitored_process.as_str()) {
                Some(name) => {
                    let name = string_from_chars(&name);
                    same_text(name.as_str(), monitored_process.as_str())
                },
                None => false,
            };
            if text_is_blank(monitored_process.as_str()) || !name_is_bare {
                return Err(ProcessRuntimeError::new("monitored process must be an executable file name"));
            }
            let canonical_executable_path = match &recipe.monitored_executable_path {
                Some(path) => match canonicalize_path(path.as_str()) {
                    Ok(canonical) => Some(canonical),
                    Err(error) => return Err(runtime_error("monitored executable path is not accessible", error.as_str())),
                },
                None => None,
            };
            let mismatched = match &canonical_executable_path {
                Some(path) => match path_file_name(path.as_str()) {
                    Some(file) => {
                        let file = string_from_chars(&file);
                        !text_eq_ignore_ascii_case(file.as_str(), monitored_process.as_str())
                    },
                    None => false,
                },
                None => false,
            };
            if mismatched {
                return Err(
                    ProcessRuntimeError::new("monitored executable path does not match the monitored process name"),
                );
            }
            Ok(ExpectedProcess { canonical_executable_path, executable_name: Some(monitored_process.clone()) })
        },
        None => {
            if recipe.monitored_executable_path.is_some() {
                return Err(ProcessRuntimeError::new("monitored executable path requires a monitored process name"));
            }
            match &recipe.source {
                LaunchSource::DirectExecutable { executable_path } => match canonicalize_path(executable_path.as_str()) {
                    Ok(canonical) => Ok(ExpectedProcess { canonical_executable_path: Some(canonical), executable_name: None }),
                    Err(error) => Err(runtime_error("executable path is not launchable", error.as_str())),
                },
                LaunchSource::Steam { .. } => {
                    Err(ProcessRuntimeError::new("Steam launch requires a monitored process executable name"))
                },
            }
        },
    }
}

/// Whether some observation is of a running Process.
pub open spec fn any_running(observations: Seq<ProcessObservation>) -> bool {
    exists|i: int| 0 <= i < observations.len() && #[trigger] observations[i] is Running
}

/// Whether some running Process was observed with this responsiveness.
pub open spec fn any_responsiveness(observations: Seq<ProcessObservation>, wanted: ProcessResponsiveness) -> bool {
    exists|i: int|
        0 <= i < observations.len() && (#[trigger] observations[i] matches ProcessObservation::Running {
            responsiveness,
        } && responsiveness == wanted)
}

/// The responsiveness of a group of Processes: not responsive when any window
/// hangs, responsive when any window answers, otherwise not applicable.
pub open spec fn group_responsiveness(observations: Seq<ProcessObservation>) -> ProcessResponsiveness {
    if any_responsiveness(observations, ProcessResponsiveness::NotResponsive) {
        ProcessResponsiveness::NotResponsive
    } else if any_responsiveness(observations, ProcessResponsiveness::Responsive) {
        ProcessResponsiveness::Responsive
    } else {
        ProcessResponsiveness::NotApplicable
    }
}

/// One observation of an application that a launcher Process started
/// together with the companion Processes it left behind: a replaced launcher
/// is reported as replaced and its companions are forgotten; otherwise the
/// application runs while any of its Processes runs, with the group's
/// responsiveness, and the companions still running are kept.
pub fn combined_observation(
    primary: &ProcessObservation,
    companions: &Vec<ProcessObservation>,
) -> (res: (ProcessObservation, Vec<bool>))
    ensures
        res.1@.len() == companions@.len(),
        primary matches ProcessObservation::Replaced { current_identity } ==> (res.0 matches ProcessObservation::Replaced {
            current_identity: reported,
        } && reported == current_identity) && forall|i: int| 0 <= i < companions@.len() ==> !res.1@[i],
        !(primary is Replaced) ==> {
            let all = seq![*primary] + companions@;
            &&& forall|i: int| 0 <= i < companions@.len() ==> res.1@[i] == (companions@[i] is Running)
            &&& !any_running(all) ==> res.0 is Exited
            &&& any_running(all) ==> res.0 == (ProcessObservation::Running {
                responsiveness: group_responsiveness(all),
            })
        },
{
    let mut retained: Vec<bool> = Vec::new();
    if let ProcessObservation::Replaced { current_identity } = primary {
        let mut index: usize = 0;
        while index < companions.len()
            invariant
                index <= companions@.len(),
                retained@.len() == index,
                forall|i: int| 0 <= i < index ==> !retained@[i],
            decreases companions@.len() - index,
        {
            retained.push(false);
            index = index + 1;
        }
        return (ProcessObservation::Replaced { current_identity: current_identity.clone() }, retained);
    }
    let ghost all = seq![*primary] + companions@;
    let mut running = false;
    let mut hung = false;
    let mut responsive = false;
    if let ProcessObservation::Running { responsiveness } = primary {
        running = true;
        match responsiveness {
            ProcessResponsiveness::NotResponsive => hung = true,
            ProcessResponsiveness::Responsive => responsive = true,
            ProcessResponsiveness::NotApplicable => {},
        }
    }
    proof {
        let first = all.subrange(0, 1);
        assert(first.len() == 1 && first[0] == *primary);
        if any_running(first) {
            let i = choose|i: int| 0 <= i < first.len() && #[trigger] first[i] is Running;
            assert(i == 0);
        }
        if any_responsiveness(first, ProcessResponsiveness::Responsive) {
            let i = choose|i: int|
                0 <= i < first.len() && (#[trigger] first[i] matches ProcessObservation::Running { responsiveness }
                    && responsiveness == ProcessResponsiveness::Responsive);
            assert(i == 0);
        }
        if any_responsiveness(first, ProcessResponsiveness::NotResponsive) {
            let i = choose|i: int|
                0 <= i < first.len() && (#[trigger] first[i] matches ProcessObservation::Running { responsiveness }
                    && responsiveness == ProcessResponsiveness::NotResponsive);
            assert(i == 0);
        }
    }
    let mut index: usize = 0;
    while index < companions.len()
        invariant
            index <= companions@.len(),
            all == seq![*primary] + companions@,
            retained@.len() == index,
            forall|i: int| 0 <= i < index ==> retained@[i] == (companions@[i] is Running),
            running == any_running(all.subrange(0, index + 1)),
            hung == any_responsiveness(all.subrange(0, index + 1), ProcessResponsiveness::NotResponsive),
            responsive == any_responsiveness(all.subrange(0, index + 1), ProcessResponsiveness::Responsive),
        decreases companions@.len() - index,
    {
        let ghost before = all.subrange(0, index + 1);
        let ghost after = all.subrange(0, index + 2);
        proof {
            assert(after == before.push(companions@[index as int]));
            assert(all[index + 1] == companions@[index as int]);
        }
        match &companions[index] {
            ProcessObservation::Running { responsiveness } => {
                running = true;
                retained.push(true);
                match responsiveness {
                    ProcessResponsiveness::NotResponsive => hung = true,
                    ProcessResponsiveness::Responsive => responsive = true,
                    ProcessResponsiveness::NotApplicable => {},
                }
            },
            _ => {
                retained.push(false);
            },
        }
        proof {
            let last = after.len() - 1;
            assert(after[last] == companions@[index as int]);
            assert(forall|i: int| 0 <= i < before.len() ==> after[i] == before[i]);
            if any_running(after) {
                let i = choose|i: int| 0 <= i < after.len() && #[trigger] after[i] is Running;
                if i < before.len() {
                    assert(before[i] is Running);
                }
            }
            if any_running(before) {
                let i = choose|i: int| 0 <= i < before.len() && #[trigger] before[i] is Running;
                assert(after[i] is Running);
            }
            if any_responsiveness(after, ProcessResponsiveness::NotResponsive) {
                let i = choose|i: int|
                    0 <= i < after.len() && (#[trigger] after[i] matches ProcessObservation::Running { responsiveness }
                        && responsiveness == ProcessResponsiveness::NotResponsive);
                if i < before.len() {
                    assert(before[i] == after[i]);
                }
            }
            if any_responsiveness(before, ProcessResponsiveness::NotResponsive) {
                let i = choose|i: int|
                    0 <= i < before.len() && (#[trigger] before[i] matches ProcessObservation::Running { responsiveness }
                        && responsiveness == ProcessResponsiveness::NotResponsive);
                assert(after[i] == before[i]);
            }
            if any_responsiveness(after, ProcessResponsiveness::Responsive) {
                let i = choose|i: int|
                    0 <= i < after.len() && (#[trigger] after[i] matches ProcessObservation::Running { responsiveness }
                        && responsiveness == ProcessResponsiveness::Responsive);
                if i < before.len() {
                    assert(before[i] == after[i]);
                }
            }
            if any_responsiveness(before, ProcessResponsiveness::Responsive) {
                let i = choose|i: int|
                    0 <= i < before.len() && (#[trigger] before[i] matches ProcessObservation::Running { responsiveness }
                        && responsiveness == ProcessResponsiveness::Responsive);
                assert(after[i] == before[i]);
            }
        }
        index = index + 1;
    }
    proof {
        assert(all.subrange(0, companions@.len() as int + 1) =~= all);
    }
    if !running {
        (ProcessObservation::Exited, retained)
    } else if hung {
        (ProcessObservation::Running { responsiveness: ProcessResponsiveness::NotResponsive }, retained)
    } else if responsive {
        (ProcessObservation::Running { responsiveness: ProcessResponsiveness::Responsive }, retained)
    } else {
        (ProcessObservation::Running { responsiveness: ProcessResponsiveness::NotApplicable }, retained)
    }
}

} // verus!
