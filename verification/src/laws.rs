//! What holds of the interpreter whatever the script.

use crate::command::{parse, Command};
use crate::engine::{step, Machine};
use crate::script::{advance, bump, dispatch, execute, label_table, Effect, LoopState, Program};
use crate::session::{expand, holds, substitute, Session, SIGIL};
use crate::text::{is_space, is_word, lemma_tokens_are_words, lemma_word_len, tokens, word_len};
use vstd::prelude::*;

verus! {

/// A text without separators; it may be empty.
pub open spec fn unbroken(s: Seq<char>) -> bool {
    forall|i: int| 0 <= i < s.len() ==> !is_space(#[trigger] s[i])
}

/// The reference to the variable `name`: the sigil and the name.
pub open spec fn reference(name: Seq<char>) -> Seq<char> {
    seq![SIGIL] + name
}

/// Line `i` of `lines` declares `label`.
pub open spec fn declares(lines: Seq<Seq<char>>, i: int, label: Seq<char>) -> bool {
    0 <= i < lines.len() && parse(lines[i]) == Command::Label(label)
}

/// No command touches the lines or the label table: executing one changes
/// at most the pointer and the pending loops of the line sequence.
pub proof fn lemma_execute_keeps_lines(session: Session, program: Program, command: Command)
    ensures
        execute(session, program, command).1.lines == program.lines,
        execute(session, program, command).1.labels == program.labels,
        execute(session, program, command).1.started == program.started,
{
}

/// A step of a line sequence leaves its lines and its label table as
/// they are, so a well-formed one stays well formed.
pub proof fn lemma_advance_keeps_lines(session: Session, program: Program)
    ensures
        advance(session, program).1 matches Some(p) ==> p.lines == program.lines && p.labels
            == program.labels,
{
}

/// Substitution on a single word is the expansion of that word.
pub proof fn lemma_substitute_word(word: Seq<char>, variables: Map<Seq<char>, Seq<char>>)
    requires
        word.len() > 0,
        unbroken(word),
    ensures
        substitute(word, variables) == expand(word, variables),
{
    lemma_word_len(word);
    assert(word_len(word) == word.len()) by {
        if word_len(word) < word.len() {
            assert(!is_space(word[word_len(word) as int]));
        }
    }
    assert(word.take(word.len() as int) =~= word);
    assert(word.skip(word.len() as int) =~= Seq::<char>::empty());
    assert(substitute(Seq::<char>::empty(), variables) =~= Seq::<char>::empty());
    assert(expand(word, variables) + Seq::<char>::empty() =~= expand(word, variables));
}

/// A reference is one word, and expands to the value bound to its name,
/// or to nothing.
pub proof fn lemma_substitute_reference(name: Seq<char>, variables: Map<Seq<char>, Seq<char>>)
    requires
        unbroken(name),
    ensures
        substitute(reference(name), variables) == if variables.contains_key(name) {
            variables[name]
        } else {
            Seq::empty()
        },
{
    let word = reference(name);
    assert(word[0] == SIGIL);
    assert(!is_space(SIGIL));
    assert forall|i: int| 0 <= i < word.len() implies !is_space(#[trigger] word[i]) by {
        if i > 0 {
            assert(word[i] == name[i - 1]);
        }
    }
    assert(word.skip(1) =~= name);
    lemma_substitute_word(word, variables);
}

/// Binding a variable and then echoing a reference to it writes exactly
/// the bound value, whatever was bound before and whatever the value
/// holds.
pub proof fn law_set_then_echo(
    session: Session,
    program: Program,
    name: Seq<char>,
    value: Seq<char>,
)
    requires
        unbroken(name),
    ensures
        ({
            let (sess_b, prog_b, eff_a) = execute(session, program, Command::SetVar(name, value));
            let (sess_c, prog_c, eff_b) = execute(sess_b, prog_b, Command::Echo(reference(name)));
            &&& eff_a == Effect::Continue
            &&& eff_b == Effect::Print(value)
            &&& sess_c == sess_b
            &&& prog_c == program
        }),
{
    let bound = session.variables.insert(name, value);
    lemma_substitute_reference(name, bound);
}

/// Echoing a reference to an unbound variable writes the empty line: the
/// sigil and the name vanish. Nothing else changes.
pub proof fn law_echo_unbound(session: Session, program: Program, name: Seq<char>)
    requires
        unbroken(name),
        !session.variables.contains_key(name),
    ensures
        execute(session, program, Command::Echo(reference(name))) == (
            session,
            program,
            Effect::Print(Seq::empty()),
        ),
{
    lemma_substitute_reference(name, session.variables);
}

/// A conditional on a bound variable leaves the pointer alone when the
/// comparison holds, and moves it one line on when it does not. It
/// changes nothing else and asks nothing of the host.
pub proof fn law_conditional(
    session: Session,
    program: Program,
    name: Seq<char>,
    op: Seq<char>,
    value: Seq<char>,
)
    requires
        session.variables.contains_key(name),
    ensures
        execute(session, program, Command::If(name, op, value)) == (
            session,
            Program {
                index: if holds(op, session.variables[name], value) {
                    program.index
                } else {
                    bump(program.index)
                },
                ..program
            },
            Effect::Continue,
        ),
{
}

/// With the equality operator the comparison holds exactly when the bound
/// value and the given one are the same text.
pub proof fn law_equality_operator(lhs: Seq<char>, rhs: Seq<char>)
    ensures
        holds("=="@, lhs, rhs) == (lhs == rhs),
{
}

/// With no loop pending, the line sequence goes on with the line after
/// the pointer: after a conditional that held this is the next line,
/// after one that did not it is the line after the next, so that exactly
/// one line is skipped.
pub proof fn law_sequential_flow(session: Session, program: Program)
    requires
        program.loops.len() == 0,
        program.started,
        program.index + 1 < program.lines.len() <= usize::MAX,
    ensures
        ({
            let (s, p, e) = dispatch(
                session,
                Program { index: (program.index + 1) as usize, ..program },
            );
            advance(session, program) == (s, Some(p), e)
        }),
{
}

/// A conditional on an unbound variable has no effect at all, whatever
/// its operator and value.
pub proof fn law_conditional_unbound(
    session: Session,
    program: Program,
    name: Seq<char>,
    op: Seq<char>,
    value: Seq<char>,
)
    requires
        !session.variables.contains_key(name),
    ensures
        execute(session, program, Command::If(name, op, value)) == (
            session,
            program,
            Effect::Continue,
        ),
{
}

/// The session while a FOR over `values` is pending and `done` of its
/// values have been bound.
pub open spec fn for_session(
    session: Session,
    var: Seq<char>,
    values: Seq<Seq<char>>,
    done: nat,
) -> Session {
    if done == 0 {
        session
    } else {
        Session { variables: session.variables.insert(var, values[done - 1]), ..session }
    }
}

/// The line sequence while a FOR over `values`, met at the pointer of
/// `program`, is pending and `done` of its values have been bound.
pub open spec fn for_program(
    program: Program,
    var: Seq<char>,
    values: Seq<Seq<char>>,
    done: nat,
) -> Program {
    Program {
        index: (program.index + done) as usize,
        loops: program.loops.push(LoopState::For { var, values, next: done as usize }),
        ..program
    }
}

/// A FOR leaves the pointer where it is and becomes the innermost
/// pending loop, with no value bound yet.
pub proof fn law_for_begins(
    session: Session,
    program: Program,
    var: Seq<char>,
    values: Seq<Seq<char>>,
)
    ensures
        execute(session, program, Command::For(var, values)) == (
            for_session(session, var, values, 0),
            for_program(program, var, values, 0),
            Effect::Continue,
        ),
{
}

/// A FOR followed by as many lines as it has values, each of them an
/// echo of a reference to its variable, writes its values in order, one
/// at each step; the step after the last value drops the loop and leaves
/// the pointer on the last of those lines.
pub proof fn law_for_echoes_values_in_order(
    session: Session,
    program: Program,
    var: Seq<char>,
    values: Seq<Seq<char>>,
    done: nat,
)
    requires
        unbroken(var),
        done <= values.len(),
        program.index + values.len() < program.lines.len() <= usize::MAX,
        forall|k: int|
            1 <= k <= values.len() ==> parse(#[trigger] program.lines[program.index + k])
                == Command::Echo(reference(var)),
    ensures
        done < values.len() ==> advance(
            for_session(session, var, values, done),
            for_program(program, var, values, done),
        ) == (
            for_session(session, var, values, done + 1),
            Some(for_program(program, var, values, done + 1)),
            Effect::Print(values[done as int]),
        ),
        done == values.len() ==> advance(
            for_session(session, var, values, done),
            for_program(program, var, values, done),
        ) == (
            for_session(session, var, values, done),
            Some(Program { index: (program.index + done) as usize, ..program }),
            Effect::Continue,
        ),
{
    let sess_a = for_session(session, var, values, done);
    let prog_a = for_program(program, var, values, done);
    assert(prog_a.loops.last() == LoopState::For { var, values, next: done as usize });
    assert(prog_a.loops.drop_last() =~= program.loops);
    if done < values.len() {
        let bound = Session {
            variables: sess_a.variables.insert(var, values[done as int]),
            ..sess_a
        };
        let sess_b = for_session(session, var, values, done + 1);
        let prog_b = for_program(program, var, values, done + 1);
        assert(bound.variables =~= sess_b.variables);
        assert(bound == sess_b);
        let line = program.lines[program.index + (done + 1)];
        assert(parse(line) == Command::Echo(reference(var)));
        lemma_substitute_reference(var, bound.variables);
        assert(advance(sess_a, prog_a).0 == sess_b);
        assert(advance(sess_a, prog_a).1 == Some(prog_b));
        assert(advance(sess_a, prog_a).2 == Effect::Print(values[done as int]));
    } else {
        assert(advance(sess_a, prog_a).1 == Some(
            Program { index: (program.index + done) as usize, ..program },
        ));
    }
}

/// What the label table holds for `label`: nothing if no line declares
/// it; else the index of the last line that does.
pub proof fn lemma_label_table(lines: Seq<Seq<char>>, label: Seq<char>)
    requires
        lines.len() <= usize::MAX,
    ensures
        label_table(lines).contains_key(label) <==> exists|i: int| declares(lines, i, label),
        label_table(lines).contains_key(label) ==> declares(
            lines,
            label_table(lines)[label] as int,
            label,
        ) && forall|j: int| label_table(lines)[label] < j ==> !declares(lines, j, label),
    decreases lines.len(),
{
    if lines.len() > 0 {
        let earlier = lines.drop_last();
        let last = lines.len() - 1;
        lemma_label_table(earlier, label);
        assert forall|i: int| declares(earlier, i, label) implies declares(lines, i, label) by {
            assert(earlier[i] == lines[i]);
        }
        assert forall|i: int| declares(lines, i, label) && i != last implies declares(
            earlier,
            i,
            label,
        ) by {
            assert(earlier[i] == lines[i]);
        }
        if parse(lines.last()) == Command::Label(label) {
            assert(declares(lines, last, label));
        } else {
            assert(!declares(lines, last, label));
            if label_table(lines).contains_key(label) {
                assert(label_table(earlier).contains_key(label));
                let t = label_table(earlier)[label] as int;
                assert(declares(earlier, t, label));
                assert(declares(lines, t, label));
            }
            if exists|i: int| declares(lines, i, label) {
                let i = choose|i: int| declares(lines, i, label);
                assert(declares(earlier, i, label));
            }
        }
    }
}

/// Building the label table from a line sequence and then jumping to a
/// declared label lands the pointer exactly on the line that declares it
/// (the last such line, should several declare it). Nothing else changes.
pub proof fn law_jump_lands_on_declaration(
    session: Session,
    program: Program,
    i: int,
    label: Seq<char>,
)
    requires
        program.well_formed(),
        program.lines.len() <= usize::MAX,
        declares(program.lines, i, label),
        forall|j: int| i < j ==> !declares(program.lines, j, label),
    ensures
        execute(session, program, Command::Goto(label)) == (
            session,
            Program { index: i as usize, ..program },
            Effect::Continue,
        ),
{
    lemma_label_table(program.lines, label);
    let t = label_table(program.lines)[label] as int;
    assert(declares(program.lines, t, label));
    if t < i {
        assert(!declares(program.lines, i, label));
    }
    if i < t {
        assert(!declares(program.lines, t, label));
    }
}

/// A jump to a label that no line declares moves nothing and reports the
/// label.
pub proof fn law_jump_to_unknown_label(session: Session, program: Program, label: Seq<char>)
    requires
        program.well_formed(),
        program.lines.len() <= usize::MAX,
        forall|i: int| !declares(program.lines, i, label),
    ensures
        execute(session, program, Command::Goto(label)) == (
            session,
            program,
            Effect::Print(crate::script::label_not_found(label)),
        ),
{
    lemma_label_table(program.lines, label);
}

/// The names and values that the classifier hands out are words: tokens
/// of the line, not empty and without separators. The texts that it
/// joins from several tokens (what an echo writes, what a conditional
/// compares with) are the exception.
pub proof fn law_classified_arguments_are_words(line: Seq<char>)
    ensures
        match parse(line) {
            Command::SetVar(name, value) => is_word(name) && is_word(value),
            Command::Cd(path) => is_word(path),
            Command::If(name, op, _) => is_word(name) && is_word(op),
            Command::For(name, values) => is_word(name) && values.len() > 0 && forall|k: int|
                0 <= k < values.len() ==> is_word(#[trigger] values[k]),
            Command::While(name, op, value) => is_word(name) && is_word(op) && is_word(value),
            Command::Goto(label) => is_word(label),
            Command::Label(label) => is_word(label),
            Command::External(argv) => argv == tokens(line) && argv.len() > 0,
            _ => true,
        },
{
    let parts = tokens(line);
    lemma_tokens_are_words(line);
    if parts.len() >= 3 {
        assert forall|k: int| 0 <= k < parts.skip(2).len() implies is_word(
            #[trigger] parts.skip(2)[k],
        ) by {
            assert(parts.skip(2)[k] == parts[k + 2]);
        }
    }
}

/// Whatever a step asks the host to invoke has a program name: its
/// argument vector is not empty.
pub proof fn law_invocations_name_a_program(machine: Machine)
    ensures
        step(machine).1 matches Effect::Invoke(argv) ==> argv.len() > 0,
{
}

/// A step keeps every label table the one built from its lines.
pub proof fn law_step_keeps_well_formed(machine: Machine)
    requires
        machine.well_formed(),
    ensures
        step(machine).0.well_formed(),
{
    if machine.scripts.len() > 0 {
        let waiting = machine.scripts.drop_last();
        let top = machine.scripts.last();
        assert(top.well_formed());
        lemma_advance_keeps_lines(machine.session, top);
        assert forall|i: int| 0 <= i < waiting.len() implies (#[trigger] waiting[i]).well_formed() by {
            assert(waiting[i] == machine.scripts[i]);
        }
        let after = step(machine).0;
        assert forall|i: int| 0 <= i < after.scripts.len() implies (
        #[trigger] after.scripts[i]).well_formed() by {
            if i < waiting.len() {
                assert(after.scripts[i] == waiting[i]);
            }
        }
    }
}

/// An exit leaves nothing to run, however many line sequences waited.
pub proof fn law_exit_leaves_nothing_running(machine: Machine)
    ensures
        step(machine).1 is Exit ==> step(machine).0.idle(),
{
}

/// A script of two lines, the first classified as binding `name` to
/// `value` and the second as an echo of a reference to `name`, writes
/// exactly `value` at its second step and ends at its third, with the
/// binding in place.
pub proof fn law_set_then_echo_script(
    session: Session,
    first: Seq<char>,
    second: Seq<char>,
    name: Seq<char>,
    value: Seq<char>,
)
    requires
        parse(first) == Command::SetVar(name, value),
        parse(second) == Command::Echo(reference(name)),
    ensures
        ({
            let bound = Session { variables: session.variables.insert(name, value), ..session };
            let mach_a = (Machine { session, scripts: Seq::empty() }).load(seq![first, second]);
            let (mach_b, eff_a) = step(mach_a);
            let (mach_c, eff_b) = step(mach_b);
            let (mach_d, eff_c) = step(mach_c);
            &&& eff_a == Effect::Continue
            &&& eff_b == Effect::Print(value)
            &&& eff_c == Effect::Continue
            &&& mach_b.session == bound
            &&& mach_d == Machine { session: bound, scripts: Seq::empty() }
        }),
{
    law_classified_arguments_are_words(first);
    assert(unbroken(name));
    let lines = seq![first, second];
    let bound = Session { variables: session.variables.insert(name, value), ..session };
    lemma_substitute_reference(name, bound.variables);
    let prog_a = Program::start(lines);
    let mach_a = (Machine { session, scripts: Seq::empty() }).load(lines);
    assert(mach_a.scripts.last() == prog_a);
    assert(mach_a.scripts.drop_last() =~= Seq::<Program>::empty());
    assert(lines[0] == first && lines[1] == second);
    let prog_b = Program { started: true, ..prog_a };
    assert(advance(session, prog_a) == (bound, Some(prog_b), Effect::Continue));
    let (mach_b, eff_a) = step(mach_a);
    assert(mach_b.scripts =~= seq![prog_b]);
    assert(mach_b.scripts.last() == prog_b);
    assert(mach_b.scripts.drop_last() =~= Seq::<Program>::empty());
    let prog_c = Program { index: 1, ..prog_b };
    assert(advance(bound, prog_b) == (bound, Some(prog_c), Effect::Print(value)));
    let (mach_c, eff_b) = step(mach_b);
    assert(mach_c.scripts =~= seq![prog_c]);
    assert(mach_c.scripts.last() == prog_c);
    assert(mach_c.scripts.drop_last() =~= Seq::<Program>::empty());
    assert(advance(bound, prog_c) == (bound, None::<Program>, Effect::Continue));
}

} // verus!
