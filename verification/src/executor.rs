//! The pipeline executor, as a state machine.
//!
//! The executor performs nothing itself. It is handed the outcome of the last
//! action as an [`Event`] and answers with the next [`Action`]: a program to
//! spawn and how to wire its standard streams, a built-in command to perform,
//! a text to write, the final wait, or the end of the line. The caller
//! performs the action and comes back with what happened.
//!
//! Between two steps the executor remembers two things beside the pipeline:
//! which segment comes next, and whether a previous stage is held whose output
//! the next stage may read. At most one previous stage is held at a time.

use vstd::prelude::*;
use vstd::string::*;
use crate::builtin::{cd_target, classify, spec_cd_target, spec_classify, Kind};
use crate::config::Config;
use crate::parser::{parse_line, spec_parse, CommandSpec, CommandView};
use crate::status::{spec_status_report, status_report};

verus! {

/// The status with which `exit` ends the interpreter.
pub const EXIT_STATUS: i32 = 0;

/// Where a spawned stage reads its standard input from.
#[derive(Clone, Copy, Debug, PartialEq, Eq, Structural)]
pub enum StdinSource {
    /// The interpreter's own input.
    Inherit,
    /// The captured output of the previous stage, which passes to this stage.
    PreviousStage,
}

/// Where a spawned stage writes its standard output to.
#[derive(Clone, Copy, Debug, PartialEq, Eq, Structural)]
pub enum StdoutSink {
    /// The interpreter's own output.
    Inherit,
    /// A new pipe, kept for the next stage.
    Pipe,
}

/// What the caller has to do next.
#[derive(Debug, PartialEq, Eq)]
pub enum Action {
    /// Spawn `program` with `arguments` and the given streams. The previous
    /// stage is let go of, its output passing to the new stage where `stdin`
    /// says so. If the program starts, its handle becomes the previous stage.
    Spawn { program: String, arguments: Vec<String>, stdin: StdinSource, stdout: StdoutSink },
    /// Change the interpreter's working directory, and let go of the previous
    /// stage without waiting for it.
    ChangeDir { path: String },
    /// Write `text` to the interpreter's output.
    Print { text: String },
    /// Write `text` to the error stream.
    Report { text: String },
    /// Wait until the previous stage has ended.
    Wait,
    /// End the interpreter at once with `status`.
    Exit { status: i32 },
    /// The line is done: let go of the previous stage, if one is left, and
    /// read the next line.
    Done,
}

/// The mathematical value of an [`Action`].
pub enum ActionView {
    Spawn { program: Seq<char>, arguments: Seq<Seq<char>>, stdin: StdinSource, stdout: StdoutSink },
    ChangeDir { path: Seq<char> },
    Print { text: Seq<char> },
    Report { text: Seq<char> },
    Wait,
    Exit { status: i32 },
    Done,
}

impl View for Action {
    type V = ActionView;

    open spec fn view(&self) -> ActionView {
        match *self {
            Action::Spawn { program, arguments, stdin, stdout } => ActionView::Spawn {
                program: program@,
                arguments: arguments.deep_view(),
                stdin,
                stdout,
            },
            Action::ChangeDir { path } => ActionView::ChangeDir { path: path@ },
            Action::Print { text } => ActionView::Print { text: text@ },
            Action::Report { text } => ActionView::Report { text: text@ },
            Action::Wait => ActionView::Wait,
            Action::Exit { status } => ActionView::Exit { status },
            Action::Done => ActionView::Done,
        }
    }
}

impl DeepView for Action {
    type V = ActionView;

    open spec fn deep_view(&self) -> ActionView {
        self.view()
    }
}

/// What happened when the caller performed the last action.
#[derive(Debug, PartialEq, Eq)]
pub enum Event {
    /// Nothing yet: the line is about to be executed.
    Begin,
    /// The action was performed.
    Completed,
    /// The action could not be performed; `message` says why.
    Failed { message: String },
    /// The process that was waited for has ended, with `code` if the system
    /// gives one.
    Exited { code: Option<i32> },
}

/// The mathematical value of an [`Event`].
pub enum EventView {
    Begin,
    Completed,
    Failed { message: Seq<char> },
    Exited { code: Option<i32> },
}

impl View for Event {
    type V = EventView;

    open spec fn view(&self) -> EventView {
        match *self {
            Event::Begin => EventView::Begin,
            Event::Completed => EventView::Completed,
            Event::Failed { message } => EventView::Failed { message: message@ },
            Event::Exited { code } => EventView::Exited { code },
        }
    }
}

impl DeepView for Event {
    type V = EventView;

    open spec fn deep_view(&self) -> EventView {
        self.view()
    }
}

/// The action whose outcome the executor is waiting for.
#[derive(Clone, Copy, Debug, PartialEq, Eq, Structural)]
pub enum Pending {
    /// None: no action was handed out yet.
    Start,
    /// A spawn, of a stage that writes to `stdout`.
    Spawn { stdout: StdoutSink },
    /// A change of directory.
    ChangeDir,
    /// A text to write.
    Output,
    /// The final wait.
    Wait,
    /// None: the last action ended the line.
    Finished,
}

/// The state of an executor.
pub struct ExecutorView {
    /// The commands of the line.
    pub pipeline: Seq<CommandView>,
    /// The configured version.
    pub version: Seq<char>,
    /// The home directory, if one is known.
    pub home: Option<Seq<char>>,
    /// The index of the next segment.
    pub cursor: nat,
    /// The previous stage, if one is held, by where its output goes.
    pub previous: Option<StdoutSink>,
    /// The action that was handed out last.
    pub pending: Pending,
}

/// The state in which the execution of a pipeline starts.
pub open spec fn initial(
    pipeline: Seq<CommandView>,
    version: Seq<char>,
    home: Option<Seq<char>>,
) -> ExecutorView {
    ExecutorView { pipeline, version, home, cursor: 0, previous: None, pending: Pending::Start }
}

/// Whether `event` is an outcome that the pending action can have.
pub open spec fn accepts(pending: Pending, event: EventView) -> bool {
    match pending {
        Pending::Start => event is Begin,
        Pending::Spawn { .. } => event is Completed || event is Failed,
        Pending::ChangeDir => event is Completed || event is Failed,
        Pending::Output => event is Completed,
        Pending::Wait => event is Exited || event is Failed,
        Pending::Finished => false,
    }
}

/// A message as a line of its own.
pub open spec fn spec_line(message: Seq<char>) -> Seq<char> {
    message.push('\n')
}

/// What an accepted event changes, and the text to report for it, if any.
///
/// A stage that started becomes the previous stage. One that did not start
/// leaves no previous stage behind, and the reason is reported. A failed
/// change of directory and a failed wait are reported too, and so is the
/// status of the last process unless it is zero.
pub open spec fn settle(state: ExecutorView, event: EventView) -> (ExecutorView, Option<Seq<char>>) {
    match (state.pending, event) {
        (Pending::Spawn { stdout }, EventView::Completed) => (
            ExecutorView { previous: Some(stdout), ..state },
            None,
        ),
        (Pending::Spawn { .. }, EventView::Failed { message }) => (
            ExecutorView { previous: None, ..state },
            Some(spec_line(message)),
        ),
        (Pending::ChangeDir, EventView::Failed { message }) => (state, Some(spec_line(message))),
        (Pending::Wait, EventView::Failed { message }) => (state, Some(spec_line(message))),
        (Pending::Wait, EventView::Exited { code }) => (state, spec_status_report(code)),
        _ => (state, None),
    }
}

/// The next action in a state that has nothing to report, and the state
/// after it was handed out.
///
/// While segments are left, the next one decides. An empty segment ends the
/// line and lets go of the previous stage. `exit` ends the interpreter.
/// `version` prints and leaves the previous stage as it is. `cd` lets go of
/// the previous stage. Any other program is spawned: it reads from the
/// previous stage if one is held, else from the interpreter's input, and it
/// writes to a new pipe if a segment follows, else to the interpreter's
/// output. When no segment is left, a previous stage that is still held is
/// waited for, and then the line is done.
pub open spec fn dispatch(state: ExecutorView) -> (ExecutorView, ActionView) {
    if state.cursor < state.pipeline.len() {
        let command = state.pipeline[state.cursor as int];
        let next: nat = (state.cursor + 1) as nat;
        match spec_classify(command.program) {
            Kind::Empty => (
                ExecutorView { previous: None, pending: Pending::Finished, ..state },
                ActionView::Done,
            ),
            Kind::Exit => (
                ExecutorView { pending: Pending::Finished, ..state },
                ActionView::Exit { status: EXIT_STATUS },
            ),
            Kind::Version => (
                ExecutorView { cursor: next, pending: Pending::Output, ..state },
                ActionView::Print { text: spec_line(state.version) },
            ),
            Kind::ChangeDir => (
                ExecutorView { cursor: next, previous: None, pending: Pending::ChangeDir, ..state },
                ActionView::ChangeDir { path: spec_cd_target(command.arguments, state.home) },
            ),
            Kind::External => {
                let stdin = if state.previous is Some {
                    StdinSource::PreviousStage
                } else {
                    StdinSource::Inherit
                };
                let stdout = if next < state.pipeline.len() {
                    StdoutSink::Pipe
                } else {
                    StdoutSink::Inherit
                };
                (
                    ExecutorView {
                        cursor: next,
                        previous: None,
                        pending: Pending::Spawn { stdout },
                        ..state
                    },
                    ActionView::Spawn {
                        program: command.program,
                        arguments: command.arguments,
                        stdin,
                        stdout,
                    },
                )
            },
        }
    } else if state.previous is Some {
        (ExecutorView { previous: None, pending: Pending::Wait, ..state }, ActionView::Wait)
    } else {
        (ExecutorView { pending: Pending::Finished, ..state }, ActionView::Done)
    }
}

/// One step of the executor: the state after `event` and the action that
/// answers it. An event that the pending action cannot have changes nothing
/// and is answered with no action.
pub open spec fn spec_step(state: ExecutorView, event: EventView) -> (ExecutorView, Option<ActionView>) {
    if !accepts(state.pending, event) {
        (state, None)
    } else {
        let (settled, report) = settle(state, event);
        match report {
            Some(text) => (
                ExecutorView { pending: Pending::Output, ..settled },
                Some(ActionView::Report { text }),
            ),
            None => {
                let (next, action) = dispatch(settled);
                (next, Some(action))
            },
        }
    }
}

/// The executor of one line. It is made for the line and dropped after it.
pub struct Executor {
    pipeline: Vec<CommandSpec>,
    version: String,
    home: Option<String>,
    cursor: usize,
    previous: Option<StdoutSink>,
    pending: Pending,
}

impl View for Executor {
    type V = ExecutorView;

    closed spec fn view(&self) -> ExecutorView {
        ExecutorView {
            pipeline: self.pipeline.deep_view(),
            version: self.version@,
            home: self.home.deep_view(),
            cursor: self.cursor as nat,
            previous: self.previous,
            pending: self.pending,
        }
    }
}

/// `message` and a line feed.
fn line(message: String) -> (text: String)
    ensures
        text@ == spec_line(message@),
{
    let mut text = message;
    text.append("\n");
    proof {
        reveal_strlit("\n");
    }
    text
}

/// A copy of `strings`.
fn copy_strings(strings: &Vec<String>) -> (copy: Vec<String>)
    ensures
        copy.deep_view() == strings.deep_view(),
{
    let mut copy: Vec<String> = Vec::new();
    let n: usize = strings.len();
    let mut i: usize = 0;
    while i < n
        invariant
            i <= n,
            n == strings@.len(),
            copy@.len() == i,
            forall|k: int| 0 <= k < i ==> (#[trigger] copy@[k])@ == strings@[k]@,
        decreases n - i,
    {
        copy.push(strings[i].clone());
        i += 1;
    }
    copy
}

impl Executor {
    /// An executor for `line`, which has handed out no action yet.
    ///
    /// `home` is the value of the home directory, if there is one; `cd`
    /// without an argument goes there.
    pub fn new(line: &str, config: &Config, home: Option<String>) -> (executor: Executor)
        ensures
            executor@ == initial(spec_parse(line@), config.version@, home.deep_view()),
    {
        Executor {
            pipeline: parse_line(line),
            version: config.version.clone(),
            home,
            cursor: 0,
            previous: None,
            pending: Pending::Start,
        }
    }

    /// Whether the line is over: no event is accepted any more.
    pub fn finished(&self) -> (over: bool)
        ensures
            over == (self@.pending == Pending::Finished),
    {
        match self.pending {
            Pending::Finished => true,
            _ => false,
        }
    }

    /// Hands out the next action in a state that has nothing to report.
    fn advance(&mut self) -> (action: Action)
        ensures
            (final(self)@, action@) == dispatch(old(self)@),
    {
        if self.cursor < self.pipeline.len() {
            let command = &self.pipeline[self.cursor];
            let next: usize = self.cursor + 1;
            match classify(&command.program) {
                Kind::Empty => {
                    self.previous = None;
                    self.pending = Pending::Finished;
                    Action::Done
                },
                Kind::Exit => {
                    self.pending = Pending::Finished;
                    Action::Exit { status: EXIT_STATUS }
                },
                Kind::Version => {
                    let text = line(self.version.clone());
                    self.cursor = next;
                    self.pending = Pending::Output;
                    Action::Print { text }
                },
                Kind::ChangeDir => {
                    let path = cd_target(&command.arguments, &self.home);
                    self.cursor = next;
                    self.previous = None;
                    self.pending = Pending::ChangeDir;
                    Action::ChangeDir { path }
                },
                Kind::External => {
                    let stdin = if self.previous.is_some() {
                        StdinSource::PreviousStage
                    } else {
                        StdinSource::Inherit
                    };
                    let stdout = if next < self.pipeline.len() {
                        StdoutSink::Pipe
                    } else {
                        StdoutSink::Inherit
                    };
                    let program = command.program.clone();
                    let arguments = copy_strings(&command.arguments);
                    self.cursor = next;
                    self.previous = None;
                    self.pending = Pending::Spawn { stdout };
                    Action::Spawn { program, arguments, stdin, stdout }
                },
            }
        } else if self.previous.is_some() {
            self.previous = None;
            self.pending = Pending::Wait;
            Action::Wait
        } else {
            self.pending = Pending::Finished;
            Action::Done
        }
    }

    /// Takes the outcome of the last action and answers with the next one.
    ///
    /// The first event of a line is [`Event::Begin`]. Where `event` is not an
    /// outcome that the last action can have, the executor stays as it is and
    /// the answer is `None`; that is so for every event once [`Action::Done`]
    /// or [`Action::Exit`] was handed out.
    pub fn step(&mut self, event: Event) -> (action: Option<Action>)
        ensures
            final(self)@ == spec_step(old(self)@, event@).0,
            action.deep_view() == spec_step(old(self)@, event@).1,
    {
        let report: Option<String> = match self.pending {
            Pending::Start => match event {
                Event::Begin => None,
                _ => {
                    return None;
                },
            },
            Pending::Spawn { stdout } => match event {
                Event::Completed => {
                    self.previous = Some(stdout);
                    None
                },
                Event::Failed { message } => {
                    self.previous = None;
                    Some(line(message))
                },
                _ => {
                    return None;
                },
            },
            Pending::ChangeDir => match event {
                Event::Completed => None,
                Event::Failed { message } => Some(line(message)),
                _ => {
                    return None;
                },
            },
            Pending::Output => match event {
                Event::Completed => None,
                _ => {
                    return None;
                },
            },
            Pending::Wait => match event {
                Event::Exited { code } => status_report(code),
                Event::Failed { message } => Some(line(message)),
                _ => {
                    return None;
                },
            },
            Pending::Finished => {
                return None;
            },
        };
        match report {
            Some(text) => {
                self.pending = Pending::Output;
                Some(Action::Report { text })
            },
            None => Some(self.advance()),
        }
    }
}

} // verus!
