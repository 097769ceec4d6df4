//! The process that a task targets.
use vstd::prelude::*;

verus! {

/// Resolved process information.
#[derive(Clone, Debug, PartialEq)]
pub struct ResolvedProcess {
    /// PID
    pub pid: i32,
    /// UID
    pub uid: i32,
    /// Process name
    pub name: String,
}

/// Implementations find the process that a task targets on the device.
///
/// What they report depends on the state of the device. `process_answer` ties an answer to
/// the question asked: it is one that the resolver may give for that name, selection and
/// timeout, and nothing more is promised.
pub trait ProcessResolver {
    /// Whether `r` is an answer the resolver may give for the question. A resolver that
    /// does not define it may give any answer.
    closed spec fn process_answer(
        &self,
        process_name: Option<Seq<char>>,
        target_process_selection: i32,
        timeout_secs: u64,
        r: Result<ResolvedProcess, String>,
    ) -> bool {
        true
    }

    /// Resolves the process metadata to a `ResolvedProcess`, or reports why it could not.
    fn resolve_process(
        &self,
        process_name: Option<&str>,
        target_process_selection: i32,
        timeout_secs: u64,
    ) -> (r: Result<ResolvedProcess, String>)
        ensures
            self.process_answer(
                match process_name {
                    Some(n) => Some(n@),
                    None => None,
                },
                target_process_selection,
                timeout_secs,
                r,
            ),
    ;
}

} // verus!
