//! The decisions of one running operation.
//!
//! The supervisor owns the state of one privileged package operation while
//! its process runs: the fraction shown, the pulse animation, the captured
//! error output, which output streams are still open, and how the process
//! ended. Whoever drives the process hands it each happening as a
//! [`SupervisorInput`] and carries out the [`Step`] that comes back: an event
//! for the progress feed and, exactly once, the operation's result.

use vstd::prelude::*;

use crate::operation::OperationKind;
use crate::progress::{
    match_progress, percent_label, percent_text, regex_first_group, spec_progress_of,
    BRACKET_PATTERN, DOWNLOAD_PATTERN,
};

verus! {

/// Number of pulse ticks after which the animation repeats: the label
/// changes every five ticks and cycles through four lengths of ellipsis.
pub const PULSE_CYCLE: u8 = 20;

/// Which output stream of the process a line came from.
#[derive(Clone, Copy, Debug, PartialEq, Eq, Structural)]
pub enum StreamOrigin {
    Stdout,
    Stderr,
}

/// What can go wrong around the process itself.
#[derive(Clone, Copy, Debug, PartialEq, Eq, Structural)]
pub enum Fault {
    /// The process could not be launched.
    Spawn,
    /// Its standard output could not be captured.
    CaptureStdout,
    /// Its standard error could not be captured.
    CaptureStderr,
    /// Its exit could not be observed.
    Wait,
}

/// One item of the progress feed.
#[derive(Debug)]
#[allow(inconsistent_fields)]
pub enum ProgressEvent {
    /// The fraction done, in percent from 0 to 100, with the status text.
    Fraction { percent: u8, label: String },
    /// A liveness pulse while no progress is known; the status text changes
    /// only when a label comes with it.
    Pulse { label: Option<String> },
}

/// The terminal outcome of an operation.
#[derive(Debug)]
pub enum OperationResult {
    Success,
    Failure { exit_code: Option<i32>, diagnostic: String },
}

/// A happening that the driver of the process reports.
#[derive(Debug)]
pub enum SupervisorInput {
    /// A line read from one output stream.
    Line { origin: StreamOrigin, text: String },
    /// One output stream reached its end, or failed to read and is over.
    StreamClosed { origin: StreamOrigin },
    /// The pulse interval elapsed.
    Tick,
    /// The process exited; `success` is what its exit status says.
    Exited { success: bool, code: Option<i32> },
    /// The process could not be run or watched; `detail` says why.
    Failed { fault: Fault, detail: String },
}

/// What the driver does in answer to one input.
#[derive(Debug)]
pub struct Step {
    pub event: Option<ProgressEvent>,
    pub result: Option<OperationResult>,
}

#[allow(inconsistent_fields)]
pub enum EventView {
    Fraction { percent: u8, label: Seq<char> },
    Pulse { label: Option<Seq<char>> },
}

pub enum ResultView {
    Success,
    Failure { exit_code: Option<i32>, diagnostic: Seq<char> },
}

pub enum InputView {
    Line { origin: StreamOrigin, text: Seq<char> },
    StreamClosed { origin: StreamOrigin },
    Tick,
    Exited { success: bool, code: Option<i32> },
    Failed { fault: Fault, detail: Seq<char> },
}

pub struct StepView {
    pub event: Option<EventView>,
    pub result: Option<ResultView>,
}

impl View for ProgressEvent {
    type V = EventView;

    open spec fn view(&self) -> EventView {
        match self {
            ProgressEvent::Fraction { percent, label } => EventView::Fraction {
                percent: *percent,
                label: label@,
            },
            ProgressEvent::Pulse { label } => EventView::Pulse {
                label: match label {
                    Some(l) => Some(l@),
                    None => None,
                },
            },
        }
    }
}

impl View for OperationResult {
    type V = ResultView;

    open spec fn view(&self) -> ResultView {
        match self {
            OperationResult::Success => ResultView::Success,
            OperationResult::Failure { exit_code, diagnostic } => ResultView::Failure {
                exit_code: *exit_code,
                diagnostic: diagnostic@,
            },
        }
    }
}

impl View for SupervisorInput {
    type V = InputView;

    open spec fn view(&self) -> InputView {
        match self {
            SupervisorInput::Line { origin, text } => InputView::Line {
                origin: *origin,
                text: text@,
            },
            SupervisorInput::StreamClosed { origin } => InputView::StreamClosed { origin: *origin },
            SupervisorInput::Tick => InputView::Tick,
            SupervisorInput::Exited { success, code } => InputView::Exited {
                success: *success,
                code: *code,
            },
            SupervisorInput::Failed { fault, detail } => InputView::Failed {
                fault: *fault,
                detail: detail@,
            },
        }
    }
}

impl View for Step {
    type V = StepView;

    open spec fn view(&self) -> StepView {
        StepView {
            event: match self.event {
                Some(e) => Some(e@),
                None => None,
            },
            result: match self.result {
                Some(r) => Some(r@),
                None => None,
            },
        }
    }
}

/// The state of one running operation.
pub struct Supervisor {
    kind: OperationKind,
    shown: u8,
    pulse_phase: u8,
    log: Vec<String>,
    stdout_open: bool,
    stderr_open: bool,
    exit: Option<(bool, Option<i32>)>,
    shutdown: bool,
    finished: bool,
}

pub struct SupervisorView {
    pub kind: OperationKind,
    /// Percentage most recently shown.
    pub shown: u8,
    /// Position in the pulse animation.
    pub pulse_phase: u8,
    /// Lines captured from standard error, in the order received.
    pub log: Seq<Seq<char>>,
    pub stdout_open: bool,
    pub stderr_open: bool,
    /// Exit status, once the process exited.
    pub exit: Option<(bool, Option<i32>)>,
    /// Set once the process exited or the operation ended: no more pulses.
    pub shutdown: bool,
    /// Set once the result was produced.
    pub finished: bool,
}

impl View for Supervisor {
    type V = SupervisorView;

    closed spec fn view(&self) -> SupervisorView {
        SupervisorView {
            kind: self.kind,
            shown: self.shown,
            pulse_phase: self.pulse_phase,
            log: self.log@.map_values(|s: String| s@),
            stdout_open: self.stdout_open,
            stderr_open: self.stderr_open,
            exit: self.exit,
            shutdown: self.shutdown,
            finished: self.finished,
        }
    }
}

/// A run of `n` dots.
pub open spec fn dots(n: nat) -> Seq<char> {
    Seq::new(n, |i: int| '.')
}

/// Status text shown when an operation of this kind starts.
pub open spec fn starting_text(kind: OperationKind) -> Seq<char> {
    if kind == OperationKind::Uninstall {
        "Starting uninstallation..."@
    } else {
        "Starting installation..."@
    }
}

/// The verb of the pulse animation.
pub open spec fn pulse_verb(kind: OperationKind) -> Seq<char> {
    if kind == OperationKind::Uninstall {
        "Uninstalling"@
    } else {
        "Installing"@
    }
}

/// Status text of a pulse at the given animation phase, if the text changes
/// there: every fifth phase, the verb followed by one to three dots or none.
pub open spec fn pulse_label(kind: OperationKind, phase: nat) -> Option<Seq<char>> {
    if phase % 5 == 0 {
        Some(pulse_verb(kind) + dots(phase / 5))
    } else {
        None
    }
}

/// What a fault's diagnostic starts with.
pub open spec fn fault_text(kind: OperationKind, fault: Fault) -> Seq<char> {
    match fault {
        Fault::Spawn => "Failed to spawn pacman: "@,
        Fault::CaptureStdout => "Failed to capture stdout"@,
        Fault::CaptureStderr => "Failed to capture stderr"@,
        Fault::Wait => if kind == OperationKind::Uninstall {
            "Uninstallation failed: "@
        } else {
            "Installation failed: "@
        },
    }
}

/// Lines joined by newlines.
pub open spec fn join_lines(lines: Seq<Seq<char>>) -> Seq<char>
    decreases lines.len(),
{
    if lines.len() == 0 {
        Seq::empty()
    } else if lines.len() == 1 {
        lines[0]
    } else {
        join_lines(lines.drop_last()) + seq!['\n'] + lines.last()
    }
}

/// The result owed for a process that exited with the given status, after
/// the given lines were captured from its standard error.
pub open spec fn exit_result(success: bool, code: Option<i32>, log: Seq<Seq<char>>) -> ResultView {
    if success {
        ResultView::Success
    } else {
        ResultView::Failure { exit_code: code, diagnostic: join_lines(log) }
    }
}

/// The event that closes every operation.
pub open spec fn final_event() -> EventView {
    EventView::Fraction { percent: 100, label: percent_text(100) }
}

pub open spec fn quiet() -> StepView {
    StepView { event: None, result: None }
}

/// The supervisor state when an operation of this kind starts.
pub open spec fn initial(kind: OperationKind) -> SupervisorView {
    SupervisorView {
        kind,
        shown: 0,
        pulse_phase: 0,
        log: Seq::empty(),
        stdout_open: true,
        stderr_open: true,
        exit: None,
        shutdown: false,
        finished: false,
    }
}

impl SupervisorView {
    pub open spec fn wf(self) -> bool {
        &&& self.kind != OperationKind::QueryInstalled
        &&& self.shown <= 100
        &&& self.pulse_phase < PULSE_CYCLE
        &&& self.finished ==> self.shutdown
        &&& self.exit is Some ==> self.shutdown
        &&& (self.exit is Some && !self.stdout_open && !self.stderr_open) ==> self.finished
    }

    /// Ends the operation with the given result.
    pub open spec fn complete(self, r: ResultView) -> (SupervisorView, StepView) {
        (
            SupervisorView { shown: 100, shutdown: true, finished: true, ..self },
            StepView { event: Some(final_event()), result: Some(r) },
        )
    }

    /// Ends the operation once the process exited and both streams ended.
    pub open spec fn settle(self) -> (SupervisorView, StepView) {
        match self.exit {
            Some((success, code)) => if !self.stdout_open && !self.stderr_open {
                self.complete(exit_result(success, code, self.log))
            } else {
                (self, quiet())
            },
            None => (self, quiet()),
        }
    }

    /// What one input does to the state, and the step it asks for.
    pub open spec fn next(self, input: InputView) -> (SupervisorView, StepView) {
        if self.finished {
            (self, quiet())
        } else {
            match input {
                InputView::Line { origin, text } => {
                    let s = if origin == StreamOrigin::Stderr {
                        SupervisorView { log: self.log.push(text), ..self }
                    } else {
                        self
                    };
                    match spec_progress_of(
                        regex_first_group(BRACKET_PATTERN@, text),
                        regex_first_group(DOWNLOAD_PATTERN@, text),
                    ) {
                        Some(p) => (
                            SupervisorView { shown: p, ..s },
                            StepView {
                                event: Some(EventView::Fraction { percent: p, label: percent_text(p as nat) }),
                                result: None,
                            },
                        ),
                        None => (s, quiet()),
                    }
                },
                InputView::StreamClosed { origin } => {
                    if origin == StreamOrigin::Stdout {
                        SupervisorView { stdout_open: false, ..self }.settle()
                    } else {
                        SupervisorView { stderr_open: false, ..self }.settle()
                    }
                },
                InputView::Tick => {
                    if self.shutdown || self.shown != 0 {
                        (self, quiet())
                    } else {
                        let phase = ((self.pulse_phase + 1) % (PULSE_CYCLE as int)) as u8;
                        (
                            SupervisorView { pulse_phase: phase, ..self },
                            StepView {
                                event: Some(EventView::Pulse { label: pulse_label(self.kind, phase as nat) }),
                                result: None,
                            },
                        )
                    }
                },
                InputView::Exited { success, code } => {
                    if self.exit is Some {
                        (self, quiet())
                    } else {
                        SupervisorView { exit: Some((success, code)), shutdown: true, ..self }.settle()
                    }
                },
                InputView::Failed { fault, detail } => self.complete(
                    ResultView::Failure { exit_code: None, diagnostic: fault_text(self.kind, fault) + detail },
                ),
            }
        }
    }
}

/// Joins lines with newlines.
pub fn join_diagnostic(lines: &Vec<String>) -> (r: String)
    ensures
        r@ == join_lines(lines@.map_values(|s: String| s@)),
{
    let ghost views = lines@.map_values(|s: String| s@);
    let n = lines.len();
    if n == 0 {
        return String::new();
    }
    let mut r = lines[0].clone();
    proof {
        reveal_strlit("\n");
        assert(views.take(1) =~= seq![views[0]]);
    }
    let mut i: usize = 1;
    while i < n
        invariant
            1 <= i <= n,
            n == lines@.len(),
            views == lines@.map_values(|s: String| s@),
            r@ == join_lines(views.take(i as int)),
        decreases n - i,
    {
        r.append("\n");
        r.append(lines[i].as_str());
        proof {
            reveal_strlit("\n");
            let next = views.take(i as int + 1);
            assert(next.drop_last() =~= views.take(i as int));
            assert(next.last() == lines@[i as int]@);
            assert(r@ =~= join_lines(next.drop_last()) + seq!['\n'] + next.last());
        }
        i += 1;
    }
    assert(views.take(n as int) =~= views);
    r
}

/// Status text shown when an operation of this kind starts.
fn starting_label(kind: OperationKind) -> (r: String)
    ensures
        r@ == starting_text(kind),
{
    match kind {
        OperationKind::Uninstall => String::from_str("Starting uninstallation..."),
        _ => String::from_str("Starting installation..."),
    }
}

/// Status text of a pulse at the given phase of the animation, if it changes there.
fn pulse_label_at(kind: OperationKind, phase: u8) -> (r: Option<String>)
    ensures
        match r {
            Some(l) => pulse_label(kind, phase as nat) == Some(l@),
            None => pulse_label(kind, phase as nat) is None,
        },
{
    if phase % 5 != 0 {
        return None;
    }
    let mut label = match kind {
        OperationKind::Uninstall => String::from_str("Uninstalling"),
        _ => String::from_str("Installing"),
    };
    let n = phase / 5;
    let mut i: u8 = 0;
    proof {
        reveal_strlit(".");
    }
    while i < n
        invariant
            i <= n,
            n == phase / 5,
            label@ == pulse_verb(kind) + dots(i as nat),
        decreases n - i,
    {
        label.append(".");
        proof {
            reveal_strlit(".");
        }
        assert(label@ =~= pulse_verb(kind) + dots(i as nat + 1));
        i += 1;
    }
    Some(label)
}

/// What a fault's diagnostic starts with.
fn fault_prefix(kind: OperationKind, fault: Fault) -> (r: &'static str)
    ensures
        r@ == fault_text(kind, fault),
{
    match fault {
        Fault::Spawn => "Failed to spawn pacman: ",
        Fault::CaptureStdout => "Failed to capture stdout",
        Fault::CaptureStderr => "Failed to capture stderr",
        Fault::Wait => match kind {
            OperationKind::Uninstall => "Uninstallation failed: ",
            _ => "Installation failed: ",
        },
    }
}

fn quiet_step() -> (r: Step)
    ensures
        r@ == quiet(),
{
    Step { event: None, result: None }
}

impl Supervisor {
    /// The supervisor's state is consistent; every supervisor that `start`
    /// made and `handle` stepped is.
    pub closed spec fn wf(&self) -> bool {
        self@.wf()
    }

    /// Starts supervising an operation of the given kind, with the event that
    /// opens its progress feed: no progress yet, and a starting text.
    pub fn start(kind: OperationKind) -> (r: (Supervisor, ProgressEvent))
        requires
            kind != OperationKind::QueryInstalled,
        ensures
            r.0.wf(),
            r.0@ == initial(kind),
            r.1@ == (EventView::Fraction { percent: 0, label: starting_text(kind) }),
    {
        let s = Supervisor {
            kind,
            shown: 0,
            pulse_phase: 0,
            log: Vec::new(),
            stdout_open: true,
            stderr_open: true,
            exit: None,
            shutdown: false,
            finished: false,
        };
        assert(s@.log =~= Seq::<Seq<char>>::empty());
        (s, ProgressEvent::Fraction { percent: 0, label: starting_label(kind) })
    }

    /// The kind of operation supervised.
    pub fn kind(&self) -> (r: OperationKind)
        ensures
            r == self@.kind,
    {
        self.kind
    }

    /// Whether pulses have stopped for good: the process exited or the
    /// operation ended.
    pub fn is_shut_down(&self) -> (r: bool)
        ensures
            r == self@.shutdown,
    {
        self.shutdown
    }

    /// Whether the result was produced.
    pub fn is_finished(&self) -> (r: bool)
        ensures
            r == self@.finished,
    {
        self.finished
    }

    /// The lines captured from standard error so far, in the order received.
    pub fn diagnostics(&self) -> (r: &Vec<String>)
        ensures
            r@.map_values(|s: String| s@) == self@.log,
    {
        &self.log
    }

    fn complete(&mut self, result: OperationResult) -> (r: Step)
        ensures
            (final(self)@, r@) == old(self)@.complete(result@),
    {
        self.shown = 100;
        self.shutdown = true;
        self.finished = true;
        Step {
            event: Some(ProgressEvent::Fraction { percent: 100, label: percent_label(100) }),
            result: Some(result),
        }
    }

    fn settle(&mut self) -> (r: Step)
        ensures
            (final(self)@, r@) == old(self)@.settle(),
    {
        match self.exit {
            Some((success, code)) => {
                if !self.stdout_open && !self.stderr_open {
                    let result = if success {
                        OperationResult::Success
                    } else {
                        OperationResult::Failure {
                            exit_code: code,
                            diagnostic: join_diagnostic(&self.log),
                        }
                    };
                    self.complete(result)
                } else {
                    quiet_step()
                }
            },
            None => quiet_step(),
        }
    }

    /// Takes in one happening of the running operation and answers with what
    /// to emit: a progress event for the feed and, on the one input that ends
    /// the operation, the final full-progress event and the result.
    pub fn handle(&mut self, input: SupervisorInput) -> (r: Step)
        requires
            old(self).wf(),
        ensures
            final(self).wf(),
            (final(self)@, r@) == old(self)@.next(input@),
    {
        if self.finished {
            return quiet_step();
        }
        match input {
            SupervisorInput::Line { origin, text } => {
                let found = match_progress(text.as_str());
                if origin == StreamOrigin::Stderr {
                    let ghost before = self@.log;
                    self.log.push(text);
                    assert(self@.log =~= before.push(input@->text));
                }
                match found {
                    Some(p) => {
                        self.shown = p;
                        Step {
                            event: Some(ProgressEvent::Fraction { percent: p, label: percent_label(p) }),
                            result: None,
                        }
                    },
                    None => quiet_step(),
                }
            },
            SupervisorInput::StreamClosed { origin } => {
                if origin == StreamOrigin::Stdout {
                    self.stdout_open = false;
                } else {
                    self.stderr_open = false;
                }
                self.settle()
            },
            SupervisorInput::Tick => {
                if self.shutdown || self.shown != 0 {
                    quiet_step()
                } else {
                    let phase = (self.pulse_phase + 1) % PULSE_CYCLE;
                    self.pulse_phase = phase;
                    Step {
                        event: Some(ProgressEvent::Pulse { label: pulse_label_at(self.kind, phase) }),
                        result: None,
                    }
                }
            },
            SupervisorInput::Exited { success, code } => {
                if self.exit.is_some() {
                    quiet_step()
                } else {
                    self.exit = Some((success, code));
                    self.shutdown = true;
                    self.settle()
                }
            },
            SupervisorInput::Failed { fault, detail } => {
                let mut diagnostic = String::from_str(fault_prefix(self.kind, fault));
                diagnostic.append(detail.as_str());
                self.complete(OperationResult::Failure { exit_code: None, diagnostic })
            },
        }
    }
}

/// The state after feeding `inputs` in order, and the steps answered.
pub open spec fn run(s: SupervisorView, inputs: Seq<InputView>) -> (SupervisorView, Seq<StepView>)
    decreases inputs.len(),
{
    if inputs.len() == 0 {
        (s, Seq::empty())
    } else {
        let (u, steps) = run(s, inputs.drop_last());
        let (t, step) = u.next(inputs.last());
        (t, steps.push(step))
    }
}

/// How many of the steps carry a result.
pub open spec fn result_count(steps: Seq<StepView>) -> nat
    decreases steps.len(),
{
    if steps.len() == 0 {
        0
    } else {
        result_count(steps.drop_last()) + if steps.last().result is Some {
            1nat
        } else {
            0nat
        }
    }
}

/// The lines among `inputs` that came from standard error, in order.
pub open spec fn stderr_lines(inputs: Seq<InputView>) -> Seq<Seq<char>>
    decreases inputs.len(),
{
    if inputs.len() == 0 {
        Seq::empty()
    } else {
        let earlier = stderr_lines(inputs.drop_last());
        match inputs.last() {
            InputView::Line { origin: StreamOrigin::Stderr, text } => earlier.push(text),
            _ => earlier,
        }
    }
}

/// The status of the first exit among `inputs`.
pub open spec fn first_exit(inputs: Seq<InputView>) -> Option<(bool, Option<i32>)>
    decreases inputs.len(),
{
    if inputs.len() == 0 {
        None
    } else {
        match first_exit(inputs.drop_last()) {
            Some(e) => Some(e),
            None => match inputs.last() {
                InputView::Exited { success, code } => Some((success, code)),
                _ => None,
            },
        }
    }
}

/// Whether no input reports a fault.
pub open spec fn no_faults(inputs: Seq<InputView>) -> bool {
    forall|i: int| 0 <= i < inputs.len() ==> !(inputs[i] is Failed)
}

/// One input keeps the state consistent; a finished operation ignores it;
/// an input that yields a result finishes the operation and comes with the
/// full-progress event; any other leaves the operation as finished as it was.
proof fn lemma_next(s: SupervisorView, input: InputView)
    requires
        s.wf(),
    ensures
        s.next(input).0.wf(),
        s.finished ==> s.next(input) == (s, quiet()),
        !s.finished && s.next(input).1.result is Some ==> s.next(input).0.finished
            && s.next(input).1.event == Some(final_event()),
        s.next(input).1.result is None ==> s.next(input).0.finished == s.finished,
{
}

/// Steps that count no result carry none.
proof fn lemma_no_results(steps: Seq<StepView>, i: int)
    requires
        result_count(steps) == 0,
        0 <= i < steps.len(),
    ensures
        steps[i].result is None,
    decreases steps.len(),
{
    if i < steps.len() - 1 {
        assert(steps.drop_last()[i] == steps[i]);
        lemma_no_results(steps.drop_last(), i);
    }
}

/// Once the operation is finished, every later input is ignored.
pub proof fn lemma_finished_is_quiet(s: SupervisorView, inputs: Seq<InputView>)
    requires
        s.wf(),
        s.finished,
    ensures
        run(s, inputs).0 == s,
        forall|i: int| 0 <= i < inputs.len() ==> #[trigger] run(s, inputs).1[i] == quiet(),
        run(s, inputs).1.len() == inputs.len(),
        result_count(run(s, inputs).1) == 0,
    decreases inputs.len(),
{
    if inputs.len() > 0 {
        lemma_finished_is_quiet(s, inputs.drop_last());
        lemma_next(s, inputs.last());
        assert(run(s, inputs).1.drop_last() =~= run(s, inputs.drop_last()).1);
    }
}

/// Whatever the inputs, an operation produces at most one result: exactly
/// one once it is finished, which it is as soon as the process exited and
/// both streams ended. The step that carries the result also carries the
/// final event, at full progress, and no step after it emits anything.
pub proof fn lemma_one_terminal_result(s: SupervisorView, inputs: Seq<InputView>)
    requires
        s.wf(),
        !s.finished,
    ensures
        run(s, inputs).0.wf(),
        run(s, inputs).1.len() == inputs.len(),
        result_count(run(s, inputs).1) == if run(s, inputs).0.finished {
            1nat
        } else {
            0nat
        },
        (run(s, inputs).0.exit is Some && !run(s, inputs).0.stdout_open && !run(
            s,
            inputs,
        ).0.stderr_open) ==> run(s, inputs).0.finished,
        forall|i: int|
            0 <= i < inputs.len() && (#[trigger] run(s, inputs).1[i]).result is Some ==> {
                &&& run(s, inputs).1[i].event == Some(final_event())
                &&& forall|j: int| i < j < inputs.len() ==> #[trigger] run(s, inputs).1[j] == quiet()
            },
    decreases inputs.len(),
{
    if inputs.len() > 0 {
        let prefix = inputs.drop_last();
        lemma_one_terminal_result(s, prefix);
        let (u, steps) = run(s, prefix);
        lemma_next(u, inputs.last());
        let (t, all) = run(s, inputs);
        assert(all.drop_last() =~= steps);
        if u.finished {
            assert forall|i: int|
                0 <= i < inputs.len() && (#[trigger] all[i]).result is Some implies {
                &&& all[i].event == Some(final_event())
                &&& forall|j: int| i < j < inputs.len() ==> #[trigger] all[j] == quiet()
            } by {
                assert(i < prefix.len());
                assert(steps[i] == all[i]);
                assert forall|j: int| i < j < inputs.len() implies #[trigger] all[j] == quiet() by {
                    if j < prefix.len() {
                        assert(steps[j] == all[j]);
                    }
                }
            }
        } else {
            assert forall|i: int|
                0 <= i < inputs.len() && (#[trigger] all[i]).result is Some implies {
                &&& all[i].event == Some(final_event())
                &&& forall|j: int| i < j < inputs.len() ==> #[trigger] all[j] == quiet()
            } by {
                if i < prefix.len() {
                    assert(steps[i] == all[i]);
                    lemma_no_results(steps, i);
                }
            }
        }
    }
}

/// A run from the start that reported no fault, as long as it is not
/// finished, holds every standard-error line received, in order, and the
/// first exit status reported.
proof fn lemma_log_and_exit(kind: OperationKind, inputs: Seq<InputView>)
    requires
        initial(kind).wf(),
        no_faults(inputs),
    ensures
        !run(initial(kind), inputs).0.finished ==> run(initial(kind), inputs).0.log == stderr_lines(
            inputs,
        ) && run(initial(kind), inputs).0.exit == first_exit(inputs),
        run(initial(kind), inputs).0.wf(),
    decreases inputs.len(),
{
    if inputs.len() > 0 {
        let prefix = inputs.drop_last();
        assert(no_faults(prefix)) by {
            assert forall|i: int| 0 <= i < prefix.len() implies !(prefix[i] is Failed) by {
                assert(prefix[i] == inputs[i]);
            }
        }
        lemma_log_and_exit(kind, prefix);
        let u = run(initial(kind), prefix).0;
        lemma_next(u, inputs.last());
        assert(!(inputs[inputs.len() - 1] is Failed));
        if !u.finished && !run(initial(kind), inputs).0.finished {
            assert(u.exit is Some ==> first_exit(inputs) == first_exit(prefix));
        }
    }
}

/// When a process that ran without faults ends the operation, the result is
/// success exactly when its exit status says so; otherwise it is a failure
/// with its exit code and with every line received on standard error, in
/// order, joined by newlines.
pub proof fn lemma_exit_decides_result(kind: OperationKind, inputs: Seq<InputView>)
    requires
        initial(kind).wf(),
        no_faults(inputs),
        inputs.len() > 0,
        run(initial(kind), inputs).1.last().result is Some,
    ensures
        first_exit(inputs) is Some,
        run(initial(kind), inputs).1.last().result == Some(
            match first_exit(inputs) {
                Some((success, code)) => exit_result(success, code, stderr_lines(inputs)),
                None => ResultView::Success,
            },
        ),
{
    let prefix = inputs.drop_last();
    assert(no_faults(prefix)) by {
        assert forall|i: int| 0 <= i < prefix.len() implies !(prefix[i] is Failed) by {
            assert(prefix[i] == inputs[i]);
        }
    }
    lemma_log_and_exit(kind, prefix);
    let u = run(initial(kind), prefix).0;
    lemma_next(u, inputs.last());
    assert(!(inputs[inputs.len() - 1] is Failed));
}

/// A process that cannot be launched ends the operation at once with a
/// failure that carries no exit code and says why; pulses stop, and nothing
/// is emitted afterwards whatever comes in.
pub proof fn lemma_spawn_failure(s: SupervisorView, detail: Seq<char>, inputs: Seq<InputView>)
    requires
        s.wf(),
        !s.finished,
    ensures
        s.next(InputView::Failed { fault: Fault::Spawn, detail }).1.result == Some(
            ResultView::Failure { exit_code: None, diagnostic: "Failed to spawn pacman: "@ + detail },
        ),
        s.next(InputView::Failed { fault: Fault::Spawn, detail }).0.shutdown,
        forall|i: int|
            0 <= i < inputs.len() ==> #[trigger] run(
                s.next(InputView::Failed { fault: Fault::Spawn, detail }).0,
                inputs,
            ).1[i] == quiet(),
{
    let t = s.next(InputView::Failed { fault: Fault::Spawn, detail }).0;
    lemma_next(s, InputView::Failed { fault: Fault::Spawn, detail });
    lemma_finished_is_quiet(t, inputs);
}

} // verus!
