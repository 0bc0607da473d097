//! The command forms of the language and the classifier that maps a line of
//! text to one of them.

use crate::session::Shell;
use crate::text::{join, join_from, same_text, split_whitespace, texts, tokens};
use vstd::prelude::*;
use vstd::string::*;

verus! {

/// The upper-case form of a text as the standard library computes it: the
/// Unicode upper-case mapping, which may change the number of characters.
/// Its value is whatever `str::to_uppercase` returns; nothing more is
/// assumed about it.
pub uninterp spec fn uppercase_of(s: Seq<char>) -> Seq<char>;

/// `str::to_uppercase` returns a new string that depends on the characters
/// of its argument alone; that result is given the name `uppercase_of`.
pub assume_specification[ str::to_uppercase ](s: &str) -> (r: String)
    ensures
        r@ == uppercase_of(s@),
;

/// One classified line.
#[derive(Debug, PartialEq, Eq)]
pub enum CommandType {
    /// Write the text, after substitution.
    Echo(String),
    /// Bind a variable to a value.
    SetVar(String, String),
    /// Change the working directory.
    Cd(String),
    /// Variable, operator, value: skip the next line unless the comparison
    /// holds.
    If(String, String, String),
    /// Variable and the values it takes in turn.
    For(String, Vec<String>),
    /// Variable, operator, value: repeat while the comparison holds.
    While(String, String, String),
    /// Reserved; does nothing.
    Shift,
    /// Jump to a label.
    Goto(String),
    /// Declare a label.
    Label(String),
    /// End the process.
    Exit,
    /// Anything else: program name and arguments.
    External(Vec<String>),
    /// A line that is empty or breaks the shape its keyword asks for.
    Invalid,
}

/// The mathematical value of a command.
pub enum Command {
    Echo(Seq<char>),
    SetVar(Seq<char>, Seq<char>),
    Cd(Seq<char>),
    If(Seq<char>, Seq<char>, Seq<char>),
    For(Seq<char>, Seq<Seq<char>>),
    While(Seq<char>, Seq<char>, Seq<char>),
    Shift,
    Goto(Seq<char>),
    Label(Seq<char>),
    Exit,
    External(Seq<Seq<char>>),
    Invalid,
}

impl View for CommandType {
    type V = Command;

    open spec fn view(&self) -> Command {
        match self {
            CommandType::Echo(text) => Command::Echo(text@),
            CommandType::SetVar(name, value) => Command::SetVar(name@, value@),
            CommandType::Cd(path) => Command::Cd(path@),
            CommandType::If(name, op, value) => Command::If(name@, op@, value@),
            CommandType::For(name, values) => Command::For(name@, texts(values@)),
            CommandType::While(name, op, value) => Command::While(name@, op@, value@),
            CommandType::Shift => Command::Shift,
            CommandType::Goto(label) => Command::Goto(label@),
            CommandType::Label(label) => Command::Label(label@),
            CommandType::Exit => Command::Exit,
            CommandType::External(argv) => Command::External(texts(argv@)),
            CommandType::Invalid => Command::Invalid,
        }
    }
}

impl Command {
    /// An external invocation names a program: its argument vector is not
    /// empty. Every other form is well formed as it stands.
    pub open spec fn well_formed(self) -> bool {
        self matches Command::External(argv) ==> argv.len() > 0
    }
}

/// The command that a token list stands for, given the upper-case form of
/// its first token.
///
/// An empty list is invalid. Each keyword fixes how many tokens it takes;
/// a list of another length is invalid. A first token that is no keyword
/// makes the whole list an external invocation.
pub open spec fn command_of(keyword: Seq<char>, parts: Seq<Seq<char>>) -> Command {
    if parts.len() == 0 {
        Command::Invalid
    } else if keyword == "ECHO"@ {
        Command::Echo(join(parts.skip(1)))
    } else if keyword == "SET"@ {
        if parts.len() == 3 {
            Command::SetVar(parts[1], parts[2])
        } else {
            Command::Invalid
        }
    } else if keyword == "CD"@ {
        if parts.len() == 2 {
            Command::Cd(parts[1])
        } else {
            Command::Invalid
        }
    } else if keyword == "IF"@ {
        if parts.len() >= 4 {
            Command::If(parts[1], parts[2], join(parts.skip(3)))
        } else {
            Command::Invalid
        }
    } else if keyword == "FOR"@ {
        if parts.len() >= 3 {
            Command::For(parts[1], parts.skip(2))
        } else {
            Command::Invalid
        }
    } else if keyword == "WHILE"@ {
        if parts.len() >= 4 {
            Command::While(parts[1], parts[2], parts[3])
        } else {
            Command::Invalid
        }
    } else if keyword == "SHIFT"@ {
        Command::Shift
    } else if keyword == "GOTO"@ {
        if parts.len() == 2 {
            Command::Goto(parts[1])
        } else {
            Command::Invalid
        }
    } else if keyword == ":"@ {
        if parts.len() == 2 {
            Command::Label(parts[1])
        } else {
            Command::Invalid
        }
    } else if keyword == "EXIT"@ {
        Command::Exit
    } else {
        Command::External(parts)
    }
}

/// The command that a line of text stands for: its tokens, classified by
/// the upper-case form of the first.
pub open spec fn parse(line: Seq<char>) -> Command {
    let parts = tokens(line);
    if parts.len() == 0 {
        Command::Invalid
    } else {
        command_of(uppercase_of(parts[0]), parts)
    }
}

/// Copies of `parts[from..]`.
fn tail(parts: &Vec<String>, from: usize) -> (rest: Vec<String>)
    requires
        from <= parts.len(),
    ensures
        texts(rest@) == texts(parts@).skip(from as int),
{
    let mut rest: Vec<String> = Vec::new();
    let mut k: usize = from;
    while k < parts.len()
        invariant
            from <= k <= parts.len(),
            rest.len() == k - from,
            texts(rest@) == texts(parts@).subrange(from as int, k as int),
        decreases parts.len() - k,
    {
        let ghost before = rest@;
        let item = parts[k].clone();
        assert(item@ == parts@[k as int]@);
        rest.push(item);
        k += 1;
        assert forall|i: int| 0 <= i < rest@.len() implies texts(rest@)[i] == texts(
            parts@,
        ).subrange(from as int, k as int)[i] by {
            if i < before.len() {
                assert(texts(before)[i] == texts(parts@).subrange(from as int, k - 1)[i]);
            }
        }
        assert(texts(rest@) =~= texts(parts@).subrange(from as int, k as int));
    }
    assert(texts(parts@).subrange(from as int, k as int) =~= texts(parts@).skip(from as int));
    rest
}

/// Classifies a token list, given the upper-case form of its first token.
pub fn classify(keyword: &str, parts: Vec<String>) -> (command: CommandType)
    ensures
        command@ == command_of(keyword@, texts(parts@)),
{
    let n = parts.len();
    if n == 0 {
        CommandType::Invalid
    } else if same_text(keyword, "ECHO") {
        CommandType::Echo(join_from(&parts, 1))
    } else if same_text(keyword, "SET") {
        if n == 3 {
            CommandType::SetVar(parts[1].clone(), parts[2].clone())
        } else {
            CommandType::Invalid
        }
    } else if same_text(keyword, "CD") {
        if n == 2 {
            CommandType::Cd(parts[1].clone())
        } else {
            CommandType::Invalid
        }
    } else if same_text(keyword, "IF") {
        if n >= 4 {
            CommandType::If(parts[1].clone(), parts[2].clone(), join_from(&parts, 3))
        } else {
            CommandType::Invalid
        }
    } else if same_text(keyword, "FOR") {
        if n >= 3 {
            CommandType::For(parts[1].clone(), tail(&parts, 2))
        } else {
            CommandType::Invalid
        }
    } else if same_text(keyword, "WHILE") {
        if n >= 4 {
            CommandType::While(parts[1].clone(), parts[2].clone(), parts[3].clone())
        } else {
            CommandType::Invalid
        }
    } else if same_text(keyword, "SHIFT") {
        CommandType::Shift
    } else if same_text(keyword, "GOTO") {
        if n == 2 {
            CommandType::Goto(parts[1].clone())
        } else {
            CommandType::Invalid
        }
    } else if same_text(keyword, ":") {
        if n == 2 {
            CommandType::Label(parts[1].clone())
        } else {
            CommandType::Invalid
        }
    } else if same_text(keyword, "EXIT") {
        CommandType::Exit
    } else {
        CommandType::External(parts)
    }
}

/// Classifies one line of text.
pub fn parse_line(input: &str) -> (command: CommandType)
    ensures
        command@ == parse(input@),
        command@.well_formed(),
{
    let parts = split_whitespace(input);
    if parts.len() == 0 {
        CommandType::Invalid
    } else {
        let keyword = parts[0].as_str().to_uppercase();
        classify(keyword.as_str(), parts)
    }
}

impl Shell {
    /// Classifies one line of text. The session plays no part in it.
    pub fn parse_command(&self, input: &str) -> (command: CommandType)
        ensures
            command@ == parse(input@),
            command@.well_formed(),
    {
        parse_line(input)
    }
}

} // verus!
