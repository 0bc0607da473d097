//! The execution engine: a session with the line sequences it is running,
//! taken one step at a time. Between two steps the host does what the
//! last step asked for and reports back.

use crate::script::{advance, Action, Effect, Program, Script};
use crate::session::{Session, Shell};
use crate::text::{texts, trim, trimmed};
use vstd::prelude::*;
use vstd::string::*;

verus! {

/// The mathematical value of an engine.
pub struct Machine {
    /// The state that all line sequences share.
    pub session: Session,
    /// The line sequences under execution; the last one runs, each of the
    /// others waits for the one after it to end.
    pub scripts: Seq<Program>,
}

impl Machine {
    /// Every label table is the one built from its lines.
    pub open spec fn well_formed(self) -> bool {
        forall|i: int| 0 <= i < self.scripts.len() ==> (#[trigger] self.scripts[i]).well_formed()
    }

    /// Nothing is left to run.
    pub open spec fn idle(self) -> bool {
        self.scripts.len() == 0
    }

    /// The engine with one more line sequence, which runs first.
    pub open spec fn load(self, lines: Seq<Seq<char>>) -> Machine {
        Machine { scripts: self.scripts.push(Program::start(lines)), ..self }
    }
}

/// One step of the engine: one step of the line sequence that runs.
///
/// A line sequence that has run to its end is dropped, and the one that
/// waited for it goes on. An exit drops them all: nothing returns to any
/// caller. An idle engine stays as it is.
pub open spec fn step(machine: Machine) -> (Machine, Effect) {
    if machine.scripts.len() == 0 {
        (machine, Effect::Continue)
    } else {
        let waiting = machine.scripts.drop_last();
        let (session, program, effect) = advance(machine.session, machine.scripts.last());
        if effect is Exit {
            (Machine { session, scripts: Seq::empty() }, effect)
        } else {
            match program {
                Some(p) => (Machine { session, scripts: waiting.push(p) }, effect),
                None => (Machine { session, scripts: waiting }, effect),
            }
        }
    }
}

/// What the line source delivered.
#[derive(Debug, PartialEq, Eq)]
pub enum Input {
    /// One line of text.
    Line(String),
    /// The read was interrupted.
    Interrupted,
    /// The input has ended.
    Eof,
    /// The read failed; the text describes how.
    Failed(String),
}

/// The mathematical value of an input.
pub enum Event {
    Line(Seq<char>),
    Interrupted,
    Eof,
    Failed(Seq<char>),
}

impl View for Input {
    type V = Event;

    open spec fn view(&self) -> Event {
        match self {
            Input::Line(line) => Event::Line(line@),
            Input::Interrupted => Event::Interrupted,
            Input::Eof => Event::Eof,
            Input::Failed(reason) => Event::Failed(reason@),
        }
    }
}

/// What an interactive read leads to. A line, stripped of surrounding
/// whitespace, becomes a line sequence of its own. An interrupt is
/// answered with a hint and reading goes on. The end of the input, and a
/// failed read, end the process.
pub open spec fn receive(machine: Machine, event: Event) -> (Machine, Effect) {
    match event {
        Event::Line(line) => (machine.load(seq![trim(line)]), Effect::Continue),
        Event::Interrupted => (
            machine,
            Effect::Print("CTRL+C pressed. Use 'exit' command to quit."@),
        ),
        Event::Eof => (machine, Effect::Exit("Exiting shell."@)),
        Event::Failed(reason) => (machine, Effect::Exit("Error reading line: "@ + reason)),
    }
}

/// The line that confirms a change of directory.
pub open spec fn directory_changed(path: Seq<char>) -> Seq<char> {
    "Changed directory to: "@ + path
}

/// The line that reports a directory that could not be entered.
pub open spec fn directory_not_found(path: Seq<char>) -> Seq<char> {
    "Directory not found: "@ + path
}

/// The line that reports a process that could not be launched.
pub open spec fn launch_failed(reason: Seq<char>) -> Seq<char> {
    "Command not found or failed to execute: "@ + reason
}

/// The line that reports a script file that could not be read.
pub open spec fn script_unreadable(path: Seq<char>) -> Seq<char> {
    "Failed to read the batch file: "@ + path
}

/// `prefix` followed by `rest`.
fn prefixed(prefix: &str, rest: &str) -> (line: String)
    ensures
        line@ == prefix@ + rest@,
{
    let mut line = String::from_str(prefix);
    line.append(rest);
    line
}

/// The views of a stack of line sequences.
pub open spec fn programs(v: Seq<Script>) -> Seq<Program> {
    Seq::new(v.len(), |i: int| v[i]@)
}

/// The execution engine.
pub struct Interpreter {
    shell: Shell,
    scripts: Vec<Script>,
}

impl View for Interpreter {
    type V = Machine;

    closed spec fn view(&self) -> Machine {
        Machine { session: self.shell@, scripts: programs(self.scripts@) }
    }
}

impl Interpreter {
    /// An idle engine around `shell`.
    pub fn new(shell: Shell) -> (engine: Interpreter)
        ensures
            engine@ == (Machine { session: shell@, scripts: Seq::empty() }),
            engine@.well_formed(),
    {
        let engine = Interpreter { shell, scripts: Vec::new() };
        assert(programs(engine.scripts@) =~= Seq::<Program>::empty());
        engine
    }

    /// The session.
    pub fn shell(&self) -> (shell: &Shell)
        ensures
            shell@ == self@.session,
    {
        &self.shell
    }

    /// Whether nothing is left to run.
    pub fn is_idle(&self) -> (idle: bool)
        ensures
            idle == self@.idle(),
    {
        self.scripts.len() == 0
    }

    /// Takes the lines of a script into execution. They run before
    /// whatever was running goes on.
    pub fn run_batch_file(&mut self, command_lines: Vec<String>)
        ensures
            final(self)@ == old(self)@.load(texts(command_lines@)),
            old(self)@.well_formed() ==> final(self)@.well_formed(),
    {
        let script = Script::new(command_lines);
        self.scripts.push(script);
        assert(programs(self.scripts@) =~= programs(old(self).scripts@).push(script@));
    }

    /// Takes the outcome of an interactive read.
    pub fn receive(&mut self, input: Input) -> (action: Action)
        ensures
            (final(self)@, action@) == receive(old(self)@, input@),
            old(self)@.well_formed() ==> final(self)@.well_formed(),
    {
        match input {
            Input::Line(line) => {
                let mut lines: Vec<String> = Vec::new();
                lines.push(trimmed(line.as_str()));
                assert(texts(lines@) =~= seq![trim(line@)]);
                self.run_batch_file(lines);
                Action::Continue
            },
            Input::Interrupted => Action::Print(
                String::from_str("CTRL+C pressed. Use 'exit' command to quit."),
            ),
            Input::Eof => Action::Exit(String::from_str("Exiting shell.")),
            Input::Failed(reason) => Action::Exit(prefixed("Error reading line: ", reason.as_str())),
        }
    }

    /// Takes one step and says what the host is asked to do before the
    /// next.
    pub fn step(&mut self) -> (action: Action)
        ensures
            (final(self)@, action@) == step(old(self)@),
            old(self)@.well_formed() ==> final(self)@.well_formed(),
            action@ matches Effect::Invoke(argv) ==> argv.len() > 0,
    {
        proof {
            crate::laws::law_invocations_name_a_program(self@);
            if self@.well_formed() {
                crate::laws::law_step_keeps_well_formed(self@);
            }
        }
        match self.scripts.pop() {
            None => {
                assert(programs(self.scripts@) =~= programs(old(self).scripts@));
                Action::Continue
            },
            Some(script) => {
                let ghost waiting = programs(self.scripts@);
                assert(waiting =~= programs(old(self).scripts@).drop_last());
                let (action, rest) = self.shell.advance(script);
                match action {
                    Action::Exit(_) => {
                        self.scripts = Vec::new();
                        assert(programs(self.scripts@) =~= Seq::<Program>::empty());
                    },
                    _ => {
                        match rest {
                            Some(s) => {
                                self.scripts.push(s);
                                assert(programs(self.scripts@) =~= waiting.push(s@));
                            },
                            None => {},
                        }
                    },
                }
                action
            },
        }
    }

    /// Records that the host has entered the directory `path`; returns the
    /// line that confirms it.
    pub fn directory_changed(&mut self, path: String) -> (line: String)
        ensures
            final(self)@ == (Machine {
                session: Session { current_path: path@, ..old(self)@.session },
                ..old(self)@
            }),
            line@ == directory_changed(path@),
    {
        let line = prefixed("Changed directory to: ", path.as_str());
        self.shell.enter(path);
        line
    }

    /// The line that reports that `path` could not be entered.
    pub fn directory_not_found(path: &str) -> (line: String)
        ensures
            line@ == directory_not_found(path@),
    {
        prefixed("Directory not found: ", path)
    }

    /// The line that reports that a process could not be launched.
    pub fn launch_failed(reason: &str) -> (line: String)
        ensures
            line@ == launch_failed(reason@),
    {
        prefixed("Command not found or failed to execute: ", reason)
    }

    /// The line that reports that the script file `path` could not be
    /// read.
    pub fn script_unreadable(path: &str) -> (line: String)
        ensures
            line@ == script_unreadable(path@),
    {
        prefixed("Failed to read the batch file: ", path)
    }
}

} // verus!
