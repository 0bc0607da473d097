//! The session state — variable bindings and working directory — with the
//! two computations that read it: substitution and comparison.

use crate::text::{from_chars, is_space, is_whitespace, less_than, lex_less, lemma_word_len, same_text, to_chars, word_end, word_len};
use vstd::hash_map::StringHashMap;
use vstd::prelude::*;
use vstd::string::*;

verus! {

/// The character that marks a variable reference.
pub const SIGIL: char = '$';

/// The mathematical value of a session.
pub struct Session {
    /// Variable name to bound text.
    pub variables: Map<Seq<char>, Seq<char>>,
    /// The working directory, an absolute path.
    pub current_path: Seq<char>,
}

/// A map of strings read as a map of texts.
pub open spec fn bindings(m: Map<Seq<char>, String>) -> Map<Seq<char>, Seq<char>> {
    Map::new(|k: Seq<char>| m.contains_key(k), |k: Seq<char>| m[k]@)
}

/// What a word becomes under substitution: a word that begins with the
/// sigil is a reference, replaced by the value bound to the rest of the
/// word, or by nothing if that name is unbound; any other word stays.
pub open spec fn expand(word: Seq<char>, variables: Map<Seq<char>, Seq<char>>) -> Seq<char> {
    if word.len() > 0 && word[0] == SIGIL {
        if variables.contains_key(word.skip(1)) {
            variables[word.skip(1)]
        } else {
            Seq::empty()
        }
    } else {
        word
    }
}

/// One substitution pass over `text`: every word is expanded, every
/// separator stays where it is. What a reference expands to is not scanned
/// again.
pub open spec fn substitute(text: Seq<char>, variables: Map<Seq<char>, Seq<char>>) -> Seq<char>
    decreases text.len(),
{
    if text.len() == 0 {
        Seq::empty()
    } else if is_space(text[0]) {
        seq![text[0]] + substitute(text.skip(1), variables)
    } else {
        proof {
            lemma_word_len(text);
        }
        expand(text.take(word_len(text) as int), variables) + substitute(
            text.skip(word_len(text) as int),
            variables,
        )
    }
}

/// Whether `lhs op rhs` holds. The six operators compare text in
/// lexicographic order; anything else is no operator and never holds.
pub open spec fn holds(op: Seq<char>, lhs: Seq<char>, rhs: Seq<char>) -> bool {
    if op == "=="@ {
        lhs == rhs
    } else if op == "!="@ {
        lhs != rhs
    } else if op == "<"@ {
        lex_less(lhs, rhs)
    } else if op == ">"@ {
        lex_less(rhs, lhs)
    } else if op == "<="@ {
        !lex_less(rhs, lhs)
    } else if op == ">="@ {
        !lex_less(lhs, rhs)
    } else {
        false
    }
}

/// Decides whether `lhs op rhs` holds.
pub fn compare(op: &str, lhs: &str, rhs: &str) -> (r: bool)
    ensures
        r == holds(op@, lhs@, rhs@),
{
    if same_text(op, "==") {
        same_text(lhs, rhs)
    } else if same_text(op, "!=") {
        !same_text(lhs, rhs)
    } else if same_text(op, "<") {
        less_than(lhs, rhs)
    } else if same_text(op, ">") {
        less_than(rhs, lhs)
    } else if same_text(op, "<=") {
        !less_than(rhs, lhs)
    } else if same_text(op, ">=") {
        !less_than(lhs, rhs)
    } else {
        false
    }
}

/// The state that every command of a run shares.
pub struct Shell {
    variables: StringHashMap<String>,
    current_path: String,
}

impl View for Shell {
    type V = Session;

    closed spec fn view(&self) -> Session {
        Session { variables: bindings(self.variables@), current_path: self.current_path@ }
    }
}

impl Shell {
    /// A session without bindings, in the given working directory.
    pub fn new(current_path: String) -> (shell: Shell)
        ensures
            shell@.variables == Map::<Seq<char>, Seq<char>>::empty(),
            shell@.current_path == current_path@,
    {
        let shell = Shell { variables: StringHashMap::new(), current_path };
        assert(bindings(shell.variables@) =~= Map::<Seq<char>, Seq<char>>::empty());
        shell
    }

    /// The working directory.
    pub fn current_path(&self) -> (path: &str)
        ensures
            path@ == self@.current_path,
    {
        self.current_path.as_str()
    }

    /// The value bound to `name`, if any.
    pub fn variable(&self, name: &str) -> (value: Option<String>)
        ensures
            match value {
                Some(v) => self@.variables.contains_key(name@) && v@ == self@.variables[name@],
                None => !self@.variables.contains_key(name@),
            },
    {
        match self.variables.get(name) {
            Some(v) => Some(v.clone()),
            None => None,
        }
    }

    /// Binds `name` to `value`, replacing an earlier binding.
    pub fn bind(&mut self, name: String, value: String)
        ensures
            final(self)@ == (Session {
                variables: old(self)@.variables.insert(name@, value@),
                ..old(self)@
            }),
    {
        let ghost before = self.variables@;
        self.variables.insert(name, value);
        assert(bindings(before.insert(name@, value)) =~= bindings(before).insert(name@, value@));
    }

    /// Records that the working directory is now `path`.
    pub fn enter(&mut self, path: String)
        ensures
            final(self)@ == (Session { current_path: path@, ..old(self)@ }),
    {
        self.current_path = path;
    }

    /// Whether `name` is bound and `value-of-name op value` holds.
    pub fn test(&self, name: &str, op: &str, value: &str) -> (r: bool)
        ensures
            r == (self@.variables.contains_key(name@) && holds(
                op@,
                self@.variables[name@],
                value@,
            )),
    {
        match self.variables.get(name) {
            Some(bound) => compare(op, bound.as_str(), value),
            None => false,
        }
    }

    /// One substitution pass over `text`.
    pub fn substitute(&self, text: &str) -> (out: String)
        ensures
            out@ == substitute(text@, self@.variables),
    {
        let chars = to_chars(text);
        let n = chars.len();
        let mut out = String::new();
        let mut i: usize = 0;
        let ghost vars = self@.variables;
        assert(chars@.skip(0) =~= chars@);
        while i < n
            invariant
                i <= n == chars.len(),
                vars == self@.variables,
                out@ + substitute(chars@.skip(i as int), vars) == substitute(chars@, vars),
            decreases n - i,
        {
            let ghost rest = chars@.skip(i as int);
            let ghost done = out@;
            if is_whitespace(chars[i]) {
                out.push(chars[i]);
                assert(rest.skip(1) =~= chars@.skip(i + 1));
                assert(out@ =~= done + seq![rest[0]]);
                assert(out@ + substitute(chars@.skip(i + 1), vars) =~= done + (seq![rest[0]]
                    + substitute(rest.skip(1), vars)));
                i += 1;
            } else {
                let j = word_end(&chars, i);
                proof {
                    lemma_word_len(rest);
                    assert(rest.take(word_len(rest) as int) =~= chars@.subrange(i as int, j as int));
                    assert(rest.skip(word_len(rest) as int) =~= chars@.skip(j as int));
                }
                let ghost word = chars@.subrange(i as int, j as int);
                if chars[i] == SIGIL {
                    let name = from_chars(&chars, i + 1, j);
                    assert(name@ =~= word.skip(1));
                    match self.variables.get(name.as_str()) {
                        Some(value) => {
                            out.append(value.as_str());
                        },
                        None => {
                            assert(out@ =~= done + Seq::<char>::empty());
                        },
                    }
                } else {
                    let plain = from_chars(&chars, i, j);
                    out.append(plain.as_str());
                }
                assert(out@ == done + expand(word, vars));
                assert(out@ + substitute(chars@.skip(j as int), vars) =~= done + (expand(word, vars)
                    + substitute(chars@.skip(j as int), vars)));
                i = j;
            }
        }
        assert(out@ + Seq::<char>::empty() =~= out@);
        out
    }
}

} // verus!
