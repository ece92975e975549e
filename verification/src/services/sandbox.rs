//! The playground pipeline as a state machine.
//!
//! One submission is compiled and, if that worked, run. Creating the working
//! directory, writing the source and waiting for the two processes happen
//! outside this module: the machine hands out an [`Action`], the caller
//! performs it and reports back an [`Event`], and [`Pipeline::step`] decides
//! what comes next. Every path ends in [`Action::Finish`] with a complete
//! [`ExecutionResult`].

use vstd::prelude::*;
use vstd::utf8::{decode_utf8, valid_utf8};
use crate::models::execution::{ExecutionResult, ResultView};

verus! {

/// Seconds the compiler may take.
pub const COMPILE_TIMEOUT_SECS: u64 = 10;

/// Seconds the compiled program may take.
pub const RUN_TIMEOUT_SECS: u64 = 5;

/// Name of the compiler, resolved through the host's search path.
pub open spec fn compiler_name() -> Seq<char> {
    "rustc"@
}

/// Language edition handed to the compiler.
pub open spec fn edition_name() -> Seq<char> {
    "2021"@
}

/// Name of the source file inside the workspace.
pub open spec fn source_file_name() -> Seq<char> {
    "main.rs"@
}

/// Name of the compiled program inside the workspace.
pub open spec fn artifact_file_name() -> Seq<char> {
    "main"@
}

/// Message for a workspace that could not be created; `detail` is the
/// system's description of the failure.
pub open spec fn workspace_failure(detail: Seq<char>) -> Seq<char> {
    "Failed to create temp dir: "@ + detail
}

/// Message for a source file that could not be written.
pub open spec fn write_failure(detail: Seq<char>) -> Seq<char> {
    "Failed to write source: "@ + detail
}

/// Message for a compiler that could not be started.
pub open spec fn compiler_spawn_failure(detail: Seq<char>) -> Seq<char> {
    "Failed to run rustc: "@ + detail
}

/// Message for a compiled program that could not be started.
pub open spec fn program_spawn_failure(detail: Seq<char>) -> Seq<char> {
    "Failed to run binary: "@ + detail
}

/// Message for a compiler that did not finish in time.
pub open spec fn compile_timeout_message() -> Seq<char> {
    "Compilation timed out (10s limit)"@
}

/// Message for a program that did not finish in time.
pub open spec fn run_timeout_message() -> Seq<char> {
    "Execution timed out (5s limit)"@
}

/// The text that lossy UTF-8 decoding makes of `bytes`.
pub uninterp spec fn lossy_text(bytes: Seq<u8>) -> Seq<char>;

/// Whether lossy decoding leaves `bytes` as they are where they are valid
/// UTF-8: the text is then the one they encode.
pub open spec fn keeps_valid_text(bytes: Seq<u8>) -> bool {
    valid_utf8(bytes) ==> lossy_text(bytes) == decode_utf8(bytes)
}

/// Milliseconds as reported in a result: the low 64 bits of the elapsed
/// count.
pub open spec fn reported_millis(elapsed_ms: u128) -> u64 {
    (elapsed_ms % 0x1_0000_0000_0000_0000) as u64
}

/// What a finished child process left behind.
#[derive(Debug)]
pub struct ProcessOutput {
    /// Whether the exit status indicates success.
    pub success: bool,
    /// Everything written to standard output.
    pub stdout: Vec<u8>,
    /// Everything written to standard error.
    pub stderr: Vec<u8>,
}

/// What the outside world reports after performing an [`Action`].
#[derive(Debug)]
pub enum Event {
    /// The workspace exists and is empty.
    WorkspaceReady,
    /// The workspace could not be created.
    WorkspaceFailed(String),
    /// The source file is in the workspace.
    SourceWritten,
    /// The source file could not be written.
    WriteFailed(String),
    /// The child process ran to its end.
    Exited(ProcessOutput),
    /// The child process could not be started.
    SpawnFailed(String),
    /// The time limit passed before the child process ended.
    TimedOut,
}

/// Where a pipeline stands: what it is waiting for.
#[derive(Debug, Clone, Copy, PartialEq, Eq, Structural)]
pub enum Stage {
    /// Waiting for the workspace.
    AcquiringWorkspace,
    /// Waiting for the source file to be written.
    WritingSource,
    /// Waiting for the compiler.
    Compiling,
    /// Waiting for the compiled program.
    Running,
    /// The result has been handed out; the workspace is to be released.
    Finished,
}

/// What the caller is asked to do next.
#[derive(Debug)]
pub enum Action {
    /// Create a fresh, uniquely named workspace directory.
    AcquireWorkspace,
    /// Write `contents` to `file_name` inside the workspace.
    WriteSource { file_name: String, contents: String },
    /// Start `compiler` on `source_file` with the given `edition`, asking
    /// for `artifact_file` as output, and wait at most `timeout_secs`.
    Compile {
        compiler: String,
        edition: String,
        source_file: String,
        artifact_file: String,
        timeout_secs: u64,
    },
    /// Start `artifact_file` from the workspace without arguments and wait
    /// at most `timeout_secs`.
    Run { artifact_file: String, timeout_secs: u64 },
    /// Release the workspace and return the result.
    Finish(ExecutionResult),
}

/// Mathematical value of an [`Action`].
pub enum ActionView {
    AcquireWorkspace,
    WriteSource { file_name: Seq<char>, contents: Seq<char> },
    Compile {
        compiler: Seq<char>,
        edition: Seq<char>,
        source_file: Seq<char>,
        artifact_file: Seq<char>,
        timeout_secs: u64,
    },
    Run { artifact_file: Seq<char>, timeout_secs: u64 },
    Finish(ResultView),
}

impl View for Action {
    type V = ActionView;

    open spec fn view(&self) -> ActionView {
        match *self {
            Action::AcquireWorkspace => ActionView::AcquireWorkspace,
            Action::WriteSource { file_name, contents } => ActionView::WriteSource {
                file_name: file_name@,
                contents: contents@,
            },
            Action::Compile { compiler, edition, source_file, artifact_file, timeout_secs } =>
                ActionView::Compile {
                    compiler: compiler@,
                    edition: edition@,
                    source_file: source_file@,
                    artifact_file: artifact_file@,
                    timeout_secs,
                },
            Action::Run { artifact_file, timeout_secs } => ActionView::Run {
                artifact_file: artifact_file@,
                timeout_secs,
            },
            Action::Finish(result) => ActionView::Finish(result@),
        }
    }
}

impl ActionView {
    /// Seconds the caller may wait while performing the action.
    pub open spec fn time_limit_secs(self) -> nat {
        match self {
            ActionView::Compile { timeout_secs, .. } => timeout_secs as nat,
            ActionView::Run { timeout_secs, .. } => timeout_secs as nat,
            _ => 0,
        }
    }
}

impl Stage {
    /// Whether `event` answers the action that a pipeline at this stage has
    /// handed out.
    pub open spec fn awaits(self, event: Event) -> bool {
        match self {
            Stage::AcquiringWorkspace => event is WorkspaceReady || event is WorkspaceFailed,
            Stage::WritingSource => event is SourceWritten || event is WriteFailed,
            Stage::Compiling | Stage::Running => event is Exited || event is SpawnFailed
                || event is TimedOut,
            Stage::Finished => false,
        }
    }

    /// Number of events a pipeline at this stage can still take.
    pub open spec fn events_left(self) -> nat {
        match self {
            Stage::AcquiringWorkspace => 4,
            Stage::WritingSource => 3,
            Stage::Compiling => 2,
            Stage::Running => 1,
            Stage::Finished => 0,
        }
    }

    /// Seconds that actions still to be handed out from this stage on may
    /// wait, all together.
    pub open spec fn wait_budget_secs(self) -> nat {
        match self {
            Stage::AcquiringWorkspace | Stage::WritingSource => (COMPILE_TIMEOUT_SECS
                + RUN_TIMEOUT_SECS) as nat,
            Stage::Compiling => RUN_TIMEOUT_SECS as nat,
            Stage::Running | Stage::Finished => 0,
        }
    }

    /// The stage that follows when `event` arrives at this stage.
    pub open spec fn after(self, event: Event) -> Stage {
        match (self, event) {
            (Stage::AcquiringWorkspace, Event::WorkspaceReady) => Stage::WritingSource,
            (Stage::WritingSource, Event::SourceWritten) => Stage::Compiling,
            (Stage::Compiling, Event::Exited(output)) => if output.success {
                Stage::Running
            } else {
                Stage::Finished
            },
            _ => Stage::Finished,
        }
    }

    /// The action that a pipeline for `source` hands out when `event`
    /// arrives at this stage, `elapsed_ms` milliseconds after its start.
    pub open spec fn reaction(self, source: Seq<char>, event: Event, elapsed_ms: u128) -> ActionView {
        match (self, event) {
            (Stage::AcquiringWorkspace, Event::WorkspaceReady) => ActionView::WriteSource {
                file_name: source_file_name(),
                contents: source,
            },
            (Stage::AcquiringWorkspace, Event::WorkspaceFailed(detail)) => ActionView::Finish(
                ResultView::infrastructure_error(workspace_failure(detail@)),
            ),
            (Stage::WritingSource, Event::SourceWritten) => ActionView::Compile {
                compiler: compiler_name(),
                edition: edition_name(),
                source_file: source_file_name(),
                artifact_file: artifact_file_name(),
                timeout_secs: COMPILE_TIMEOUT_SECS,
            },
            (Stage::WritingSource, Event::WriteFailed(detail)) => ActionView::Finish(
                ResultView::failure(write_failure(detail@), reported_millis(elapsed_ms)),
            ),
            (Stage::Compiling, Event::Exited(output)) => if output.success {
                ActionView::Run {
                    artifact_file: artifact_file_name(),
                    timeout_secs: RUN_TIMEOUT_SECS,
                }
            } else {
                ActionView::Finish(
                    ResultView::outcome(
                        Seq::empty(),
                        lossy_text(output.stderr@),
                        false,
                        reported_millis(elapsed_ms),
                    ),
                )
            },
            (Stage::Compiling, Event::SpawnFailed(detail)) => ActionView::Finish(
                ResultView::failure(compiler_spawn_failure(detail@), reported_millis(elapsed_ms)),
            ),
            (Stage::Compiling, Event::TimedOut) => ActionView::Finish(
                ResultView::failure(compile_timeout_message(), reported_millis(elapsed_ms)),
            ),
            (Stage::Running, Event::Exited(output)) => ActionView::Finish(
                ResultView::outcome(
                    lossy_text(output.stdout@),
                    lossy_text(output.stderr@),
                    output.success,
                    reported_millis(elapsed_ms),
                ),
            ),
            (Stage::Running, Event::SpawnFailed(detail)) => ActionView::Finish(
                ResultView::failure(program_spawn_failure(detail@), reported_millis(elapsed_ms)),
            ),
            (Stage::Running, Event::TimedOut) => ActionView::Finish(
                ResultView::failure(run_timeout_message(), reported_millis(elapsed_ms)),
            ),
            _ => arbitrary(),
        }
    }
}

/// Decodes captured output with `String::from_utf8_lossy`: the bytes read as
/// UTF-8, each invalid sequence replaced by U+FFFD. The contract names the
/// text and states the one case the documentation spells out: valid UTF-8
/// decodes to itself.
#[verifier::external_body]
fn decode_lossy(bytes: &Vec<u8>) -> (text: String)
    ensures
        text@ == lossy_text(bytes@),
        valid_utf8(bytes@) ==> text@ == decode_utf8(bytes@),
{
    String::from_utf8_lossy(bytes).into_owned()
}

/// Cuts an elapsed count of milliseconds down to the 64 bits a result holds.
fn millis_of(elapsed_ms: u128) -> (ms: u64)
    ensures
        ms == reported_millis(elapsed_ms),
{
    (elapsed_ms % 0x1_0000_0000_0000_0000) as u64
}

/// Builds the sandbox failure, `elapsed_ms` milliseconds into the run,
/// whose message is `prefix` followed by `detail`.
fn failure(prefix: &str, detail: &String, elapsed_ms: u128) -> (action: Action)
    ensures
        action@ == ActionView::Finish(
            ResultView::failure(prefix@ + detail@, reported_millis(elapsed_ms)),
        ),
{
    let mut msg = String::from_str(prefix);
    msg.append(detail.as_str());
    let mut result = ExecutionResult::error(msg);
    result.execution_time_ms = millis_of(elapsed_ms);
    Action::Finish(result)
}

/// Builds the sandbox failure, `elapsed_ms` milliseconds into the run,
/// whose message is `msg`.
fn timeout(msg: &str, elapsed_ms: u128) -> (action: Action)
    ensures
        action@ == ActionView::Finish(ResultView::failure(msg@, reported_millis(elapsed_ms))),
{
    let mut result = ExecutionResult::error(String::from_str(msg));
    result.execution_time_ms = millis_of(elapsed_ms);
    Action::Finish(result)
}

/// One submission on its way through the pipeline.
#[derive(Debug)]
pub struct Pipeline {
    stage: Stage,
    source: String,
}

impl Pipeline {
    /// The stage the pipeline is at.
    pub closed spec fn spec_stage(&self) -> Stage {
        self.stage
    }

    /// The submitted source text.
    pub closed spec fn spec_source(&self) -> Seq<char> {
        self.source@
    }

    /// Starts a pipeline for `source` and asks for its workspace.
    pub fn new(source: String) -> (started: (Pipeline, Action))
        ensures
            started.0.spec_stage() == Stage::AcquiringWorkspace,
            started.0.spec_source() == source@,
            started.1@ == ActionView::AcquireWorkspace,
    {
        (Pipeline { stage: Stage::AcquiringWorkspace, source }, Action::AcquireWorkspace)
    }

    /// The stage the pipeline is at.
    #[verifier::when_used_as_spec(spec_stage)]
    pub fn stage(&self) -> (stage: Stage)
        ensures
            stage == self.spec_stage(),
    {
        self.stage
    }

    /// Whether `event` answers the action the pipeline last handed out.
    pub fn awaits(&self, event: &Event) -> (b: bool)
        ensures
            b == self.spec_stage().awaits(*event),
    {
        match self.stage {
            Stage::AcquiringWorkspace => match event {
                Event::WorkspaceReady | Event::WorkspaceFailed(_) => true,
                _ => false,
            },
            Stage::WritingSource => match event {
                Event::SourceWritten | Event::WriteFailed(_) => true,
                _ => false,
            },
            Stage::Compiling | Stage::Running => match event {
                Event::Exited(_) | Event::SpawnFailed(_) | Event::TimedOut => true,
                _ => false,
            },
            Stage::Finished => false,
        }
    }

    /// Takes the report on the last action, `elapsed_ms` milliseconds after
    /// the pipeline started, and decides what comes next.
    ///
    /// The pipeline moves strictly towards [`Stage::Finished`], which it
    /// reaches exactly when the action is [`Action::Finish`], and the action
    /// never waits longer than the budget that the move uses up. Output that
    /// is valid UTF-8 comes back as the text it encodes.
    pub fn step(&mut self, event: Event, elapsed_ms: u128) -> (action: Action)
        requires
            old(self).spec_stage().awaits(event),
        ensures
            final(self).spec_source() == old(self).spec_source(),
            final(self).spec_stage() == old(self).spec_stage().after(event),
            action@ == old(self).spec_stage().reaction(old(self).spec_source(), event, elapsed_ms),
            final(self).spec_stage().events_left() < old(self).spec_stage().events_left(),
            action@ is Finish <==> final(self).spec_stage() == Stage::Finished,
            action@ matches ActionView::Finish(result) ==> result.well_formed(),
            action@.time_limit_secs() + final(self).spec_stage().wait_budget_secs() <= old(
                self,
            ).spec_stage().wait_budget_secs(),
            old(self).spec_stage() == Stage::Running ==> (event matches Event::Exited(output)
                ==> keeps_valid_text(output.stdout@) && keeps_valid_text(output.stderr@)),
            old(self).spec_stage() == Stage::Compiling ==> (event matches Event::Exited(output)
                ==> !output.success ==> keeps_valid_text(output.stderr@)),
    {
        match (self.stage, event) {
            (Stage::AcquiringWorkspace, Event::WorkspaceReady) => {
                self.stage = Stage::WritingSource;
                Action::WriteSource {
                    file_name: String::from_str("main.rs"),
                    contents: self.source.clone(),
                }
            },
            (Stage::AcquiringWorkspace, Event::WorkspaceFailed(detail)) => {
                self.stage = Stage::Finished;
                let mut msg = String::from_str("Failed to create temp dir: ");
                msg.append(detail.as_str());
                Action::Finish(ExecutionResult::error(msg))
            },
            (Stage::WritingSource, Event::SourceWritten) => {
                self.stage = Stage::Compiling;
                Action::Compile {
                    compiler: String::from_str("rustc"),
                    edition: String::from_str("2021"),
                    source_file: String::from_str("main.rs"),
                    artifact_file: String::from_str("main"),
                    timeout_secs: COMPILE_TIMEOUT_SECS,
                }
            },
            (Stage::WritingSource, Event::WriteFailed(detail)) => {
                self.stage = Stage::Finished;
                failure("Failed to write source: ", &detail, elapsed_ms)
            },
            (Stage::Compiling, Event::Exited(output)) => {
                if output.success {
                    self.stage = Stage::Running;
                    Action::Run {
                        artifact_file: String::from_str("main"),
                        timeout_secs: RUN_TIMEOUT_SECS,
                    }
                } else {
                    self.stage = Stage::Finished;
                    Action::Finish(
                        ExecutionResult {
                            stdout: String::new(),
                            stderr: decode_lossy(&output.stderr),
                            success: false,
                            execution_time_ms: millis_of(elapsed_ms),
                            error: None,
                        },
                    )
                }
            },
            (Stage::Compiling, Event::SpawnFailed(detail)) => {
                self.stage = Stage::Finished;
                failure("Failed to run rustc: ", &detail, elapsed_ms)
            },
            (Stage::Compiling, Event::TimedOut) => {
                self.stage = Stage::Finished;
                timeout("Compilation timed out (10s limit)", elapsed_ms)
            },
            (Stage::Running, Event::Exited(output)) => {
                self.stage = Stage::Finished;
                Action::Finish(
                    ExecutionResult {
                        stdout: decode_lossy(&output.stdout),
                        stderr: decode_lossy(&output.stderr),
                        success: output.success,
                        execution_time_ms: millis_of(elapsed_ms),
                        error: None,
                    },
                )
            },
            (Stage::Running, Event::SpawnFailed(detail)) => {
                self.stage = Stage::Finished;
                failure("Failed to run binary: ", &detail, elapsed_ms)
            },
            (Stage::Running, Event::TimedOut) => {
                self.stage = Stage::Finished;
                timeout("Execution timed out (5s limit)", elapsed_ms)
            },
            _ => unreached(),
        }
    }
}

/// A report on one action: the event, and the milliseconds since the
/// pipeline started at which it was observed.
pub struct Report {
    pub event: Event,
    pub elapsed_ms: u128,
}

/// Whether `reports` carries a pipeline from `stage` to its end: each
/// report answers the action handed out before it.
pub open spec fn completes(stage: Stage, reports: Seq<Report>) -> bool
    decreases reports.len(),
{
    if stage == Stage::Finished {
        true
    } else if reports.len() == 0 {
        false
    } else {
        stage.awaits(reports[0].event) && completes(
            stage.after(reports[0].event),
            reports.drop_first(),
        )
    }
}

/// Number of reports a pipeline at `stage` takes from `reports` before it
/// is finished.
pub open spec fn reports_taken(stage: Stage, reports: Seq<Report>) -> nat
    decreases reports.len(),
{
    if stage == Stage::Finished || reports.len() == 0 {
        0
    } else {
        1 + reports_taken(stage.after(reports[0].event), reports.drop_first())
    }
}

/// Seconds that the actions handed out in answer to `reports` may wait, all
/// together.
pub open spec fn seconds_waited(stage: Stage, source: Seq<char>, reports: Seq<Report>) -> nat
    decreases reports.len(),
{
    if stage == Stage::Finished || reports.len() == 0 {
        0
    } else {
        stage.reaction(source, reports[0].event, reports[0].elapsed_ms).time_limit_secs()
            + seconds_waited(stage.after(reports[0].event), source, reports.drop_first())
    }
}

/// The result of the pipeline for `source` that `reports` carries from
/// `stage` to its end.
pub open spec fn final_result(stage: Stage, source: Seq<char>, reports: Seq<Report>) -> ResultView
    decreases reports.len(),
{
    if stage == Stage::Finished || reports.len() == 0 {
        arbitrary()
    } else {
        match stage.reaction(source, reports[0].event, reports[0].elapsed_ms) {
            ActionView::Finish(result) => result,
            _ => final_result(stage.after(reports[0].event), source, reports.drop_first()),
        }
    }
}

/// Every run ends: however the outside world answers, a pipeline takes no
/// more reports than its stage has left, waits no longer than its stage's
/// budget, and ends in a well-formed result.
pub proof fn law_every_run_ends(stage: Stage, source: Seq<char>, reports: Seq<Report>)
    requires
        stage != Stage::Finished,
        completes(stage, reports),
    ensures
        1 <= reports_taken(stage, reports) <= stage.events_left(),
        seconds_waited(stage, source, reports) <= stage.wait_budget_secs(),
        final_result(stage, source, reports).well_formed(),
    decreases reports.len(),
{
    let next = stage.after(reports[0].event);
    let rest = reports.drop_first();
    assert(reports_taken(stage, reports) == 1 + reports_taken(next, rest));
    assert(seconds_waited(stage, source, reports) == stage.reaction(
        source,
        reports[0].event,
        reports[0].elapsed_ms,
    ).time_limit_secs() + seconds_waited(next, source, rest));
    if next != Stage::Finished {
        law_every_run_ends(next, source, rest);
    } else {
        assert(reports_taken(next, rest) == 0);
        assert(seconds_waited(next, source, rest) == 0);
    }
}

/// A run from the start takes at most four reports and waits at most the
/// compile limit and the run limit together, the compile limit being the
/// longer of the two.
pub proof fn law_run_is_bounded(source: Seq<char>, reports: Seq<Report>)
    requires
        completes(Stage::AcquiringWorkspace, reports),
    ensures
        reports_taken(Stage::AcquiringWorkspace, reports) <= 4,
        seconds_waited(Stage::AcquiringWorkspace, source, reports) <= COMPILE_TIMEOUT_SECS
            + RUN_TIMEOUT_SECS,
        RUN_TIMEOUT_SECS < COMPILE_TIMEOUT_SECS,
        final_result(Stage::AcquiringWorkspace, source, reports).well_formed(),
{
    law_every_run_ends(Stage::AcquiringWorkspace, source, reports);
}

/// A compiler that does not finish in time ends the run with the compile
/// timeout as its error, the time that has passed, no output and no
/// success.
pub proof fn law_compile_timeout(source: Seq<char>, elapsed_ms: u128)
    ensures
        Stage::Compiling.after(Event::TimedOut) == Stage::Finished,
        Stage::Compiling.reaction(source, Event::TimedOut, elapsed_ms) == ActionView::Finish(
            ResultView {
                stdout: Seq::empty(),
                stderr: Seq::empty(),
                success: false,
                execution_time_ms: reported_millis(elapsed_ms),
                error: Some(compile_timeout_message()),
            },
        ),
{
}

/// A program that does not finish in time ends the run with the run
/// timeout as its error, the time that has passed, no output and no
/// success; the message differs from that of a compile timeout.
pub proof fn law_run_timeout(source: Seq<char>, elapsed_ms: u128)
    ensures
        Stage::Running.after(Event::TimedOut) == Stage::Finished,
        Stage::Running.reaction(source, Event::TimedOut, elapsed_ms) == ActionView::Finish(
            ResultView {
                stdout: Seq::empty(),
                stderr: Seq::empty(),
                success: false,
                execution_time_ms: reported_millis(elapsed_ms),
                error: Some(run_timeout_message()),
            },
        ),
        run_timeout_message() != compile_timeout_message(),
{
    reveal_strlit("Compilation timed out (10s limit)");
    reveal_strlit("Execution timed out (5s limit)");
    assert(compile_timeout_message().len() == 33);
    assert(run_timeout_message().len() == 30);
}

/// A compiler that exits with a failure ends the run without starting the
/// program: no success, no error, the diagnostics as standard error and an
/// empty standard output.
pub proof fn law_compile_failure(source: Seq<char>, output: ProcessOutput, elapsed_ms: u128)
    requires
        !output.success,
    ensures
        Stage::Compiling.after(Event::Exited(output)) == Stage::Finished,
        Stage::Compiling.reaction(source, Event::Exited(output), elapsed_ms) == ActionView::Finish(
            ResultView {
                stdout: Seq::empty(),
                stderr: lossy_text(output.stderr@),
                success: false,
                execution_time_ms: reported_millis(elapsed_ms),
                error: None,
            },
        ),
{
}

/// A program that runs to its end gives a result without error that
/// carries what the program wrote and succeeds exactly when the program's
/// exit status does.
pub proof fn law_run_outcome(source: Seq<char>, output: ProcessOutput, elapsed_ms: u128)
    ensures
        Stage::Running.after(Event::Exited(output)) == Stage::Finished,
        Stage::Running.reaction(source, Event::Exited(output), elapsed_ms) == ActionView::Finish(
            ResultView {
                stdout: lossy_text(output.stdout@),
                stderr: lossy_text(output.stderr@),
                success: output.success,
                execution_time_ms: reported_millis(elapsed_ms),
                error: None,
            },
        ),
{
}

/// A result carries the time that had passed when the run ended; it
/// carries none only where the run ended for want of a workspace. A time
/// that fits in 64 bits is carried as it is.
pub proof fn law_elapsed_time(stage: Stage, source: Seq<char>, event: Event, elapsed_ms: u128)
    requires
        stage.awaits(event),
        stage.reaction(source, event, elapsed_ms) is Finish,
    ensures
        stage.reaction(source, event, elapsed_ms)->Finish_0.execution_time_ms == if stage
            == Stage::AcquiringWorkspace {
            0
        } else {
            reported_millis(elapsed_ms)
        },
        elapsed_ms <= u64::MAX ==> reported_millis(elapsed_ms) == elapsed_ms,
{
}

/// A result reports success only for a program that was run and exited
/// with success, and a result with an error only for a failure of the
/// sandbox: a compiler or program that exits on its own never sets it.
pub proof fn law_success_and_error(
    stage: Stage,
    source: Seq<char>,
    event: Event,
    elapsed_ms: u128,
)
    requires
        stage.awaits(event),
        stage.reaction(source, event, elapsed_ms) is Finish,
    ensures
        ({
            let result = stage.reaction(source, event, elapsed_ms)->Finish_0;
            &&& result.well_formed()
            &&& result.success <==> stage == Stage::Running && (event matches Event::Exited(output)
                && output.success)
            &&& result.error is None <==> event is Exited
        }),
{
}

} // verus!
