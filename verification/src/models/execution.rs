//! Request and result of one playground run.

use vstd::prelude::*;

verus! {

/// A playground submission: the source text exactly as the caller sent it.
#[derive(Debug)]
pub struct ExecutionRequest {
    pub code: String,
}

/// Outcome of one playground run.
///
/// Either the run reached the compiler (and possibly the program), in which
/// case `error` is `None` and the streams hold what was captured, or the
/// sandbox itself failed, in which case `error` holds the message, the
/// streams are empty and `success` is false. `execution_time_ms` is the
/// time from the start of the run to its result; it is 0 where the run
/// failed before it had a workspace.
#[derive(Debug)]
pub struct ExecutionResult {
    pub stdout: String,
    pub stderr: String,
    pub success: bool,
    pub execution_time_ms: u64,
    pub error: Option<String>,
}

/// Mathematical value of an [`ExecutionResult`]: its texts as sequences of
/// characters.
pub struct ResultView {
    pub stdout: Seq<char>,
    pub stderr: Seq<char>,
    pub success: bool,
    pub execution_time_ms: u64,
    pub error: Option<Seq<char>>,
}

impl ResultView {
    /// The result that reports a sandbox failure described by `msg` that
    /// came before any time was taken: the message, no output, no success,
    /// no elapsed time.
    pub open spec fn infrastructure_error(msg: Seq<char>) -> ResultView {
        ResultView {
            stdout: Seq::empty(),
            stderr: Seq::empty(),
            success: false,
            execution_time_ms: 0,
            error: Some(msg),
        }
    }

    /// The result that reports a sandbox failure described by `msg`,
    /// `execution_time_ms` milliseconds into the run: the message, the
    /// time, no output, no success.
    pub open spec fn failure(msg: Seq<char>, execution_time_ms: u64) -> ResultView {
        ResultView {
            stdout: Seq::empty(),
            stderr: Seq::empty(),
            success: false,
            execution_time_ms,
            error: Some(msg),
        }
    }

    /// The result of a run that reached the compiler or the program.
    pub open spec fn outcome(
        stdout: Seq<char>,
        stderr: Seq<char>,
        success: bool,
        execution_time_ms: u64,
    ) -> ResultView {
        ResultView { stdout, stderr, success, execution_time_ms, error: None }
    }

    /// The shape every result has: a sandbox failure excludes captured
    /// output and success.
    pub open spec fn well_formed(self) -> bool {
        self.error is Some ==> self.stdout.len() == 0 && self.stderr.len() == 0 && !self.success
    }
}

impl View for ExecutionResult {
    type V = ResultView;

    open spec fn view(&self) -> ResultView {
        ResultView {
            stdout: self.stdout@,
            stderr: self.stderr@,
            success: self.success,
            execution_time_ms: self.execution_time_ms,
            error: match self.error {
                Some(m) => Some(m@),
                None => None,
            },
        }
    }
}

impl ExecutionResult {
    /// Builds the result for a sandbox failure described by `msg`, with no
    /// elapsed time.
    pub fn error(msg: String) -> (r: Self)
        ensures
            r@ == ResultView::infrastructure_error(msg@),
    {
        Self {
            stdout: String::new(),
            stderr: String::new(),
            success: false,
            execution_time_ms: 0,
            error: Some(msg),
        }
    }
}

} // verus!
