//! A line sequence under execution — its label table, instruction pointer
//! and pending loops — and the meaning of each command against it.

use crate::command::{parse, parse_line, Command, CommandType};
use crate::session::{holds, substitute, Session, Shell};
use crate::text::texts;
use vstd::hash_map::StringHashMap;
use vstd::prelude::*;
use vstd::string::*;

verus! {

/// A loop whose body is still to run: what a FOR or a WHILE leaves behind
/// between two runs of its body.
pub enum LoopFrame {
    /// The variable, its values, and the position of the next value.
    For { var: String, values: Vec<String>, next: usize },
    /// The variable, the operator and the value it is compared with.
    While { var: String, op: String, value: String },
}

/// The mathematical value of a pending loop.
pub enum LoopState {
    For { var: Seq<char>, values: Seq<Seq<char>>, next: usize },
    While { var: Seq<char>, op: Seq<char>, value: Seq<char> },
}

impl View for LoopFrame {
    type V = LoopState;

    open spec fn view(&self) -> LoopState {
        match self {
            LoopFrame::For { var, values, next } => LoopState::For {
                var: var@,
                values: texts(values@),
                next: *next,
            },
            LoopFrame::While { var, op, value } => LoopState::While {
                var: var@,
                op: op@,
                value: value@,
            },
        }
    }
}

/// The views of a stack of pending loops, innermost last.
pub open spec fn frames(v: Seq<LoopFrame>) -> Seq<LoopState> {
    Seq::new(v.len(), |i: int| v[i]@)
}

/// What the host is asked to do after a step.
#[derive(Debug, PartialEq, Eq)]
pub enum Action {
    /// Nothing.
    Continue,
    /// Write this line to the output.
    Print(String),
    /// Resolve this path against the working directory, enter the result,
    /// and report how it went.
    ChangeDir(String),
    /// Run what this argument vector names: a nested script or a process.
    Invoke(Vec<String>),
    /// Write this line to the output and end the process.
    Exit(String),
}

/// The mathematical value of an action.
pub enum Effect {
    Continue,
    Print(Seq<char>),
    ChangeDir(Seq<char>),
    Invoke(Seq<Seq<char>>),
    Exit(Seq<char>),
}

impl View for Action {
    type V = Effect;

    open spec fn view(&self) -> Effect {
        match self {
            Action::Continue => Effect::Continue,
            Action::Print(line) => Effect::Print(line@),
            Action::ChangeDir(path) => Effect::ChangeDir(path@),
            Action::Invoke(argv) => Effect::Invoke(texts(argv@)),
            Action::Exit(line) => Effect::Exit(line@),
        }
    }
}

/// The mathematical value of a line sequence under execution.
pub struct Program {
    /// The lines, fixed for the whole run.
    pub lines: Seq<Seq<char>>,
    /// Label name to line index.
    pub labels: Map<Seq<char>, usize>,
    /// The instruction pointer.
    pub index: usize,
    /// Whether a command has been dispatched at `index`, so that the
    /// pointer moves on before the next one is.
    pub started: bool,
    /// The pending loops, innermost last.
    pub loops: Seq<LoopState>,
}

/// The label table of a line sequence: each declared label with the index
/// of its line; of two declarations of one label the later counts.
pub open spec fn label_table(lines: Seq<Seq<char>>) -> Map<Seq<char>, usize>
    decreases lines.len(),
{
    if lines.len() == 0 {
        Map::empty()
    } else {
        let earlier = label_table(lines.drop_last());
        match parse(lines.last()) {
            Command::Label(label) => earlier.insert(label, (lines.len() - 1) as usize),
            _ => earlier,
        }
    }
}

impl Program {
    /// A line sequence before its first step.
    pub open spec fn start(lines: Seq<Seq<char>>) -> Program {
        Program {
            lines,
            labels: label_table(lines),
            index: 0,
            started: false,
            loops: Seq::empty(),
        }
    }

    /// The label table is the one built from the lines.
    pub open spec fn well_formed(self) -> bool {
        self.labels == label_table(self.lines)
    }
}

/// The pointer one line further. It stops at the largest index, which no
/// line sequence reaches.
pub open spec fn bump(index: usize) -> usize {
    if index < usize::MAX {
        (index + 1) as usize
    } else {
        index
    }
}

/// The line that reports a jump to an unknown label.
pub open spec fn label_not_found(label: Seq<char>) -> Seq<char> {
    "Label '"@ + label + "' not found"@
}

/// The meaning of one command: the session and the line sequence after
/// it, and what the host is asked to do.
pub open spec fn execute(session: Session, program: Program, command: Command) -> (
    Session,
    Program,
    Effect,
) {
    match command {
        Command::Echo(text) => (
            session,
            program,
            Effect::Print(substitute(text, session.variables)),
        ),
        Command::SetVar(name, value) => (
            Session { variables: session.variables.insert(name, value), ..session },
            program,
            Effect::Continue,
        ),
        Command::Cd(path) => (session, program, Effect::ChangeDir(path)),
        Command::If(name, op, value) => {
            if session.variables.contains_key(name) && !holds(
                op,
                session.variables[name],
                value,
            ) {
                (session, Program { index: bump(program.index), ..program }, Effect::Continue)
            } else {
                (session, program, Effect::Continue)
            }
        },
        Command::For(name, values) => (
            session,
            Program {
                loops: program.loops.push(LoopState::For { var: name, values, next: 0 }),
                ..program
            },
            Effect::Continue,
        ),
        Command::While(name, op, value) => (
            session,
            Program {
                loops: program.loops.push(LoopState::While { var: name, op, value }),
                ..program
            },
            Effect::Continue,
        ),
        Command::Shift => (session, program, Effect::Continue),
        Command::Goto(label) => {
            if program.labels.contains_key(label) {
                (session, Program { index: program.labels[label], ..program }, Effect::Continue)
            } else {
                (session, program, Effect::Print(label_not_found(label)))
            }
        },
        Command::Label(_) => (session, program, Effect::Continue),
        Command::Exit => (session, program, Effect::Exit("Exiting shell."@)),
        Command::External(argv) => (session, program, Effect::Invoke(argv)),
        Command::Invalid => (session, program, Effect::Print("Invalid command"@)),
    }
}

/// The command at the pointer, executed.
pub open spec fn dispatch(session: Session, program: Program) -> (Session, Program, Effect) {
    execute(session, program, parse(program.lines[program.index as int]))
}

/// One run of a loop body: the pointer moves one line on and, if it is
/// still within the lines, the command there is executed.
pub open spec fn enter_body(session: Session, program: Program) -> (Session, Program, Effect) {
    let moved = Program { index: bump(program.index), ..program };
    if moved.index < moved.lines.len() {
        dispatch(session, moved)
    } else {
        (session, moved, Effect::Continue)
    }
}

/// One step of a line sequence. `None` in place of the line sequence
/// means that it has run to its end.
///
/// With a loop pending, the innermost one goes on: a FOR binds its next
/// value and runs its body, or is dropped when no value is left; a WHILE
/// runs its body if its variable is bound and the comparison holds, or is
/// dropped. With no loop pending, the pointer moves past the command last
/// dispatched, if any, and the command now under it is dispatched; past
/// the last line the sequence ends.
pub open spec fn advance(session: Session, program: Program) -> (
    Session,
    Option<Program>,
    Effect,
) {
    if program.loops.len() > 0 {
        let outer = Program { loops: program.loops.drop_last(), ..program };
        match program.loops.last() {
            LoopState::For { var, values, next } => {
                if next < values.len() {
                    let bound = Session {
                        variables: session.variables.insert(var, values[next as int]),
                        ..session
                    };
                    let resumed = Program {
                        loops: outer.loops.push(
                            LoopState::For { var, values, next: (next + 1) as usize },
                        ),
                        ..program
                    };
                    let (s, p, e) = enter_body(bound, resumed);
                    (s, Some(p), e)
                } else {
                    (session, Some(outer), Effect::Continue)
                }
            },
            LoopState::While { var, op, value } => {
                if session.variables.contains_key(var) && holds(
                    op,
                    session.variables[var],
                    value,
                ) {
                    let (s, p, e) = enter_body(session, program);
                    (s, Some(p), e)
                } else {
                    (session, Some(outer), Effect::Continue)
                }
            },
        }
    } else {
        let next = if program.started {
            bump(program.index)
        } else {
            program.index
        };
        if next < program.lines.len() {
            let (s, p, e) = dispatch(session, Program { index: next, started: true, ..program });
            (s, Some(p), e)
        } else {
            (session, None, Effect::Continue)
        }
    }
}

/// A line sequence under execution.
pub struct Script {
    lines: Vec<String>,
    labels: StringHashMap<usize>,
    index: usize,
    started: bool,
    loops: Vec<LoopFrame>,
}

impl View for Script {
    type V = Program;

    closed spec fn view(&self) -> Program {
        Program {
            lines: texts(self.lines@),
            labels: self.labels@,
            index: self.index,
            started: self.started,
            loops: frames(self.loops@),
        }
    }
}

/// The line `Label '<label>' not found`.
fn label_not_found_line(label: &str) -> (line: String)
    ensures
        line@ == label_not_found(label@),
{
    let mut line = String::from_str("Label '");
    line.append(label);
    line.append("' not found");
    line
}

impl Script {
    /// Takes a line sequence into execution: scans it for label
    /// declarations and sets the pointer to its first line.
    pub fn new(lines: Vec<String>) -> (script: Script)
        ensures
            script@ == Program::start(texts(lines@)),
            script@.well_formed(),
    {
        let mut labels: StringHashMap<usize> = StringHashMap::new();
        let mut k: usize = 0;
        let ghost all = texts(lines@);
        assert(all.take(0) =~= Seq::<Seq<char>>::empty());
        while k < lines.len()
            invariant
                k <= lines.len(),
                all == texts(lines@),
                labels@ == label_table(all.take(k as int)),
            decreases lines.len() - k,
        {
            assert(all.take(k + 1).drop_last() =~= all.take(k as int));
            assert(all.take(k + 1).last() == lines@[k as int]@);
            match parse_line(lines[k].as_str()) {
                CommandType::Label(label) => {
                    labels.insert(label, k);
                },
                _ => {},
            }
            k += 1;
        }
        assert(all.take(k as int) =~= all);
        let script = Script { lines, labels, index: 0, started: false, loops: Vec::new() };
        assert(frames(script.loops@) =~= Seq::<LoopState>::empty());
        script
    }

    /// The instruction pointer.
    pub fn index(&self) -> (index: usize)
        ensures
            index == self@.index,
    {
        self.index
    }

    /// The number of lines.
    pub fn len(&self) -> (n: usize)
        ensures
            n == self@.lines.len(),
    {
        self.lines.len()
    }

    /// The number of pending loops.
    pub fn depth(&self) -> (n: usize)
        ensures
            n == self@.loops.len(),
    {
        self.loops.len()
    }

    /// The line index recorded for `label`, if it is declared.
    pub fn label(&self, label: &str) -> (index: Option<usize>)
        ensures
            match index {
                Some(i) => self@.labels.contains_key(label@) && i == self@.labels[label@],
                None => !self@.labels.contains_key(label@),
            },
    {
        match self.labels.get(label) {
            Some(i) => Some(*i),
            None => None,
        }
    }

    /// Moves the pointer one line on.
    fn bump(&mut self)
        ensures
            final(self)@ == (Program { index: bump(old(self)@.index), ..old(self)@ }),
    {
        if self.index < usize::MAX {
            self.index = self.index + 1;
        }
    }

    /// Adds a pending loop as the innermost.
    fn push_loop(&mut self, frame: LoopFrame)
        ensures
            final(self)@ == (Program { loops: old(self)@.loops.push(frame@), ..old(self)@ }),
    {
        self.loops.push(frame);
        assert(frames(self.loops@) =~= frames(old(self).loops@).push(frame@));
    }

    /// Removes the innermost pending loop.
    fn pop_loop(&mut self) -> (frame: LoopFrame)
        requires
            old(self)@.loops.len() > 0,
        ensures
            frame@ == old(self)@.loops.last(),
            final(self)@ == (Program { loops: old(self)@.loops.drop_last(), ..old(self)@ }),
    {
        let frame = self.loops.pop().unwrap();
        assert(frames(self.loops@) =~= frames(old(self).loops@).drop_last());
        frame
    }
}

impl Shell {
    /// Executes one command against the session and a line sequence, and
    /// says what the host is asked to do.
    pub fn execute_command(&mut self, command: CommandType, script: &mut Script) -> (action: Action)
        ensures
            (final(self)@, final(script)@, action@) == execute(old(self)@, old(script)@, command@),
    {
        match command {
            CommandType::Echo(text) => Action::Print(self.substitute(text.as_str())),
            CommandType::SetVar(name, value) => {
                self.bind(name, value);
                Action::Continue
            },
            CommandType::Cd(path) => Action::ChangeDir(path),
            CommandType::If(name, op, value) => {
                match self.variable(name.as_str()) {
                    Some(bound) => {
                        if !crate::session::compare(op.as_str(), bound.as_str(), value.as_str()) {
                            script.bump();
                        }
                    },
                    None => {},
                }
                Action::Continue
            },
            CommandType::For(name, values) => {
                script.push_loop(LoopFrame::For { var: name, values, next: 0 });
                Action::Continue
            },
            CommandType::While(name, op, value) => {
                script.push_loop(LoopFrame::While { var: name, op, value });
                Action::Continue
            },
            CommandType::Shift => Action::Continue,
            CommandType::Goto(label) => {
                match script.label(label.as_str()) {
                    Some(target) => {
                        script.index = target;
                        Action::Continue
                    },
                    None => Action::Print(label_not_found_line(label.as_str())),
                }
            },
            CommandType::Label(_) => Action::Continue,
            CommandType::Exit => Action::Exit(String::from_str("Exiting shell.")),
            CommandType::External(argv) => Action::Invoke(argv),
            CommandType::Invalid => Action::Print(String::from_str("Invalid command")),
        }
    }

    /// Executes the command under the pointer of `script`.
    fn dispatch(&mut self, script: &mut Script) -> (action: Action)
        requires
            old(script)@.index < old(script)@.lines.len(),
        ensures
            (final(self)@, final(script)@, action@) == dispatch(old(self)@, old(script)@),
    {
        let command = parse_line(script.lines[script.index].as_str());
        self.execute_command(command, script)
    }

    /// Runs a loop body once.
    fn enter_body(&mut self, script: &mut Script) -> (action: Action)
        ensures
            (final(self)@, final(script)@, action@) == enter_body(old(self)@, old(script)@),
    {
        script.bump();
        if script.index < script.lines.len() {
            self.dispatch(script)
        } else {
            Action::Continue
        }
    }

    /// Takes `script` one step further. Returns what the host is asked to
    /// do, and the line sequence unless it has run to its end.
    pub fn advance(&mut self, script: Script) -> (next: (Action, Option<Script>))
        ensures
            (
                final(self)@,
                match next.1 {
                    Some(s) => Some(s@),
                    None => None,
                },
                next.0@,
            ) == advance(old(self)@, script@),
    {
        let mut script = script;
        let ghost old_program = script@;
        if script.loops.len() > 0 {
            match script.pop_loop() {
                LoopFrame::For { var, values, next } => {
                    if next < values.len() {
                        self.bind(var.clone(), values[next].clone());
                        script.push_loop(LoopFrame::For { var, values, next: next + 1 });
                        let action = self.enter_body(&mut script);
                        (action, Some(script))
                    } else {
                        (Action::Continue, Some(script))
                    }
                },
                LoopFrame::While { var, op, value } => {
                    if self.test(var.as_str(), op.as_str(), value.as_str()) {
                        script.push_loop(LoopFrame::While { var, op, value });
                        assert(script@.loops =~= old_program.loops);
                        let action = self.enter_body(&mut script);
                        (action, Some(script))
                    } else {
                        (Action::Continue, Some(script))
                    }
                },
            }
        } else {
            if script.started {
                script.bump();
            }
            if script.index < script.lines.len() {
                script.started = true;
                let action = self.dispatch(&mut script);
                (action, Some(script))
            } else {
                (Action::Continue, None)
            }
        }
    }
}

} // verus!
