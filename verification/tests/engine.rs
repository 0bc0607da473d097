use batch_shell::command::CommandType;
use batch_shell::engine::{Input, Interpreter};
use batch_shell::script::{Action, Script};
use batch_shell::session::Shell;

fn s(text: &str) -> String {
    text.to_string()
}

fn strings(items: &[&str]) -> Vec<String> {
    items.iter().map(|s| s.to_string()).collect()
}

fn engine(lines: &[&str]) -> Interpreter {
    let mut engine = Interpreter::new(Shell::new(s("/work")));
    engine.run_batch_file(strings(lines));
    engine
}

/// Steps until the engine is idle or asks for something other than a line
/// of output; returns the lines written and the last request.
fn run(engine: &mut Interpreter) -> (Vec<String>, Action) {
    let mut written = Vec::new();
    let mut steps = 0;
    while !engine.is_idle() {
        steps += 1;
        assert!(steps < 10_000, "the script does not end");
        match engine.step() {
            Action::Continue => {}
            Action::Print(line) => written.push(line),
            other => return (written, other),
        }
    }
    (written, Action::Continue)
}

#[test]
fn set_then_echo_writes_the_value() {
    let mut e = engine(&["SET x v", "ECHO $x"]);
    assert_eq!(run(&mut e), (strings(&["v"]), Action::Continue));
    assert_eq!(e.shell().variable("x"), Some(s("v")));

    let mut e = engine(&["SET greeting hello", "SET greeting bye", "echo $greeting"]);
    assert_eq!(run(&mut e), (strings(&["bye"]), Action::Continue));
}

#[test]
fn echo_of_an_unbound_variable_writes_an_empty_line() {
    let mut e = engine(&["ECHO $undefined"]);
    assert_eq!(run(&mut e), (strings(&[""]), Action::Continue));

    let mut e = engine(&["ECHO a $undefined b"]);
    assert_eq!(run(&mut e), (strings(&["a  b"]), Action::Continue));
}

#[test]
fn a_conditional_that_holds_runs_the_next_line() {
    let mut e = engine(&["SET a a", "IF a == a", "ECHO next", "ECHO after"]);
    assert_eq!(run(&mut e), (strings(&["next", "after"]), Action::Continue));
}

#[test]
fn a_conditional_that_fails_skips_exactly_one_line() {
    let mut e = engine(&["SET a x", "IF a == b", "ECHO next", "ECHO after", "ECHO last"]);
    assert_eq!(run(&mut e), (strings(&["after", "last"]), Action::Continue));
}

#[test]
fn a_conditional_on_an_unbound_variable_does_nothing() {
    let mut e = engine(&["IF a == b", "ECHO next", "ECHO after"]);
    assert_eq!(run(&mut e), (strings(&["next", "after"]), Action::Continue));

    let mut shell = Shell::new(s("/"));
    let mut script = Script::new(strings(&["IF a == b", "ECHO next"]));
    let action = shell.execute_command(CommandType::If(s("a"), s("=="), s("b")), &mut script);
    assert_eq!(action, Action::Continue);
    assert_eq!(script.index(), 0);
    assert_eq!(shell.variable("a"), None);
}

#[test]
fn a_conditional_moves_the_pointer_by_one_when_it_fails() {
    let mut shell = Shell::new(s("/"));
    shell.bind(s("a"), s("1"));
    let mut script = Script::new(strings(&["IF a == 2", "ECHO x", "ECHO y"]));
    let action = shell.execute_command(CommandType::If(s("a"), s("=="), s("2")), &mut script);
    assert_eq!(action, Action::Continue);
    assert_eq!(script.index(), 1);
    let action = shell.execute_command(CommandType::If(s("a"), s("=="), s("1")), &mut script);
    assert_eq!(action, Action::Continue);
    assert_eq!(script.index(), 1);
    let action = shell.execute_command(CommandType::If(s("a"), s("~"), s("1")), &mut script);
    assert_eq!(action, Action::Continue);
    assert_eq!(script.index(), 2);
    assert_eq!(script.len(), 3);
}

#[test]
fn a_for_loop_binds_its_values_in_order_over_the_lines_that_follow() {
    let mut e = engine(&["FOR v X Y Z", "ECHO $v", "ECHO $v", "ECHO $v"]);
    assert_eq!(run(&mut e), (strings(&["X", "Y", "Z"]), Action::Continue));
    assert_eq!(e.shell().variable("v"), Some(s("Z")));
}

#[test]
fn a_for_loop_advances_one_line_for_each_value() {
    let mut e = engine(&["FOR v X Y Z", "ECHO $v"]);
    assert_eq!(run(&mut e), (strings(&["X"]), Action::Continue));
    assert_eq!(e.shell().variable("v"), Some(s("Z")));

    let mut e = engine(&["FOR v X Y", "ECHO $v", "ECHO second $v", "ECHO third $v"]);
    assert_eq!(run(&mut e), (strings(&["X", "second Y", "third Y"]), Action::Continue));
}

#[test]
fn a_for_loop_leaves_a_pending_loop_until_its_values_are_used_up() {
    let mut shell = Shell::new(s("/"));
    let mut script = Script::new(strings(&["FOR v a b", "SHIFT", "SHIFT"]));
    assert_eq!(script.depth(), 0);
    let (action, rest) = shell.advance(script);
    assert_eq!(action, Action::Continue);
    let script = rest.unwrap();
    assert_eq!((script.index(), script.depth()), (0, 1));
    let (_, rest) = shell.advance(script);
    let script = rest.unwrap();
    assert_eq!((script.index(), script.depth()), (1, 1));
    assert_eq!(shell.variable("v"), Some(s("a")));
    let (_, rest) = shell.advance(script);
    let script = rest.unwrap();
    assert_eq!((script.index(), script.depth()), (2, 1));
    assert_eq!(shell.variable("v"), Some(s("b")));
    let (_, rest) = shell.advance(script);
    let script = rest.unwrap();
    assert_eq!((script.index(), script.depth()), (2, 0));
    let (action, rest) = shell.advance(script);
    assert_eq!(action, Action::Continue);
    assert!(rest.is_none());
}

#[test]
fn a_while_loop_reads_its_variable_again_each_time() {
    let mut e = engine(&["SET x 1", "WHILE x == 1", "SET x 2", "ECHO done"]);
    assert_eq!(run(&mut e), (strings(&["done"]), Action::Continue));
    assert_eq!(e.shell().variable("x"), Some(s("2")));
}

#[test]
fn a_while_loop_on_an_unbound_variable_does_not_run() {
    let mut e = engine(&["WHILE x == 1", "ECHO body", "ECHO after"]);
    assert_eq!(run(&mut e), (strings(&["body", "after"]), Action::Continue));
}

#[test]
fn a_while_loop_takes_all_six_operators() {
    let mut e = engine(&["SET x a", "WHILE x < b", "SET x c", "ECHO $x"]);
    assert_eq!(run(&mut e), (strings(&["c"]), Action::Continue));
    let mut e = engine(&["SET x b", "WHILE x >= b", "SET x a", "ECHO $x"]);
    assert_eq!(run(&mut e), (strings(&["a"]), Action::Continue));
    let mut e = engine(&["SET x a", "WHILE x > b", "ECHO body", "ECHO $x"]);
    assert_eq!(run(&mut e), (strings(&["body", "a"]), Action::Continue));
    let mut e = engine(&["SET x b", "WHILE x <= b", "SET x c", "ECHO $x"]);
    assert_eq!(run(&mut e), (strings(&["c"]), Action::Continue));
    let mut e = engine(&["SET x b", "WHILE x ~ b", "ECHO body"]);
    assert_eq!(run(&mut e), (strings(&["body"]), Action::Continue));
}

#[test]
fn a_label_and_a_jump_loop_until_the_body_changes_the_flow() {
    let mut e = engine(&[
        "SET n a",
        ": top",
        "ECHO $n",
        "IF n == b",
        "EXIT",
        "SET n b",
        "GOTO top",
    ]);
    let (written, last) = run(&mut e);
    assert_eq!(written, strings(&["a", "b"]));
    assert_eq!(last, Action::Exit(s("Exiting shell.")));
    assert!(e.is_idle());
}

#[test]
fn labels_are_case_sensitive() {
    let mut e = engine(&[": Top", "GOTO top", "ECHO after"]);
    assert_eq!(
        run(&mut e),
        (strings(&["Label 'top' not found", "after"]), Action::Continue)
    );
}

#[test]
fn jumping_to_each_declared_label_lands_on_its_line() {
    let lines = strings(&["ECHO a", ": first", "SET x 1", ": second", ": third", "EXIT"]);
    let script = Script::new(lines);
    assert_eq!(script.label("first"), Some(1));
    assert_eq!(script.label("second"), Some(3));
    assert_eq!(script.label("third"), Some(4));
    assert_eq!(script.label("fourth"), None);
    for (label, line) in [("first", 1), ("second", 3), ("third", 4)] {
        let mut shell = Shell::new(s("/"));
        let mut script =
            Script::new(strings(&["ECHO a", ": first", "SET x 1", ": second", ": third", "EXIT"]));
        let action = shell.execute_command(CommandType::Goto(s(label)), &mut script);
        assert_eq!(action, Action::Continue);
        assert_eq!(script.index(), line);
    }
}

#[test]
fn of_two_declarations_of_a_label_the_later_counts() {
    let script = Script::new(strings(&[": l", "ECHO a", ": l", "ECHO b"]));
    assert_eq!(script.label("l"), Some(2));
}

#[test]
fn a_jump_to_an_unknown_label_is_reported_and_moves_nothing() {
    let mut shell = Shell::new(s("/"));
    let mut script = Script::new(strings(&["GOTO nowhere", "ECHO a"]));
    let action = shell.execute_command(CommandType::Goto(s("nowhere")), &mut script);
    assert_eq!(action, Action::Print(s("Label 'nowhere' not found")));
    assert_eq!(script.index(), 0);
}

#[test]
fn a_change_of_directory_is_handed_to_the_host() {
    let mut e = engine(&["CD nonexistent_dir", "ECHO after"]);
    let (written, request) = run(&mut e);
    assert_eq!(written, Vec::<String>::new());
    assert_eq!(request, Action::ChangeDir(s("nonexistent_dir")));
    assert_eq!(e.shell().current_path(), "/work");
    assert_eq!(
        Interpreter::directory_not_found("nonexistent_dir"),
        "Directory not found: nonexistent_dir"
    );
    assert_eq!(e.shell().current_path(), "/work");
    assert_eq!(run(&mut e), (strings(&["after"]), Action::Continue));
}

#[test]
fn a_directory_that_was_entered_becomes_the_working_directory() {
    let mut e = engine(&["SET x 1", "CD ..", "ECHO $x"]);
    let (_, request) = run(&mut e);
    assert_eq!(request, Action::ChangeDir(s("..")));
    assert_eq!(e.directory_changed(s("/")), "Changed directory to: /");
    assert_eq!(e.shell().current_path(), "/");
    assert_eq!(e.shell().variable("x"), Some(s("1")));
    assert_eq!(run(&mut e), (strings(&["1"]), Action::Continue));
}

#[test]
fn an_invalid_line_is_reported_and_the_run_goes_on() {
    let mut e = engine(&["SET x", "", "ECHO after"]);
    assert_eq!(
        run(&mut e),
        (strings(&["Invalid command", "Invalid command", "after"]), Action::Continue)
    );
}

#[test]
fn shift_and_label_lines_do_nothing() {
    let mut e = engine(&["SHIFT", ": label", "ECHO after"]);
    assert_eq!(run(&mut e), (strings(&["after"]), Action::Continue));
}

#[test]
fn exit_ends_everything_at_once() {
    let mut e = engine(&["ECHO outer", "helper", "ECHO never"]);
    let (written, request) = run(&mut e);
    assert_eq!(written, strings(&["outer"]));
    assert_eq!(request, Action::Invoke(strings(&["helper"])));
    e.run_batch_file(strings(&["FOR v a b", "EXIT", "ECHO never"]));
    let (written, request) = run(&mut e);
    assert_eq!(written, Vec::<String>::new());
    assert_eq!(request, Action::Exit(s("Exiting shell.")));
    assert!(e.is_idle());
    assert_eq!(e.step(), Action::Continue);
    assert!(e.is_idle());
}

#[test]
fn an_external_line_is_handed_to_the_host_with_its_arguments() {
    let mut e = engine(&["ls -l /tmp", "ECHO after"]);
    let (written, request) = run(&mut e);
    assert_eq!(written, Vec::<String>::new());
    assert_eq!(request, Action::Invoke(strings(&["ls", "-l", "/tmp"])));
    assert_eq!(
        Interpreter::launch_failed("No such file or directory (os error 2)"),
        "Command not found or failed to execute: No such file or directory (os error 2)"
    );
    assert_eq!(
        Interpreter::script_unreadable("/work/a.BATCH"),
        "Failed to read the batch file: /work/a.BATCH"
    );
    assert_eq!(run(&mut e), (strings(&["after"]), Action::Continue));
}

#[test]
fn a_nested_script_shares_the_session_and_has_its_own_labels() {
    let mut e = engine(&[": here", "SET a 1", "helper", "ECHO $b", "GOTO inner", "ECHO end"]);
    let (_, request) = run(&mut e);
    assert_eq!(request, Action::Invoke(strings(&["helper"])));
    e.run_batch_file(strings(&["ECHO $a", "SET b 2", ": inner", "GOTO here", "ECHO back"]));
    assert_eq!(
        run(&mut e),
        (
            strings(&["1", "Label 'here' not found", "back", "2", "Label 'inner' not found", "end"]),
            Action::Continue
        )
    );
    assert!(e.is_idle());
}

#[test]
fn a_nested_script_inside_a_loop_body_returns_to_the_loop() {
    let mut e = engine(&["FOR v a b", "helper", "ECHO $v"]);
    let (_, request) = run(&mut e);
    assert_eq!(request, Action::Invoke(strings(&["helper"])));
    e.run_batch_file(strings(&["ECHO in $v"]));
    assert_eq!(run(&mut e), (strings(&["in a", "b"]), Action::Continue));
}

#[test]
fn an_idle_engine_stays_idle() {
    let mut e = Interpreter::new(Shell::new(s("/")));
    assert!(e.is_idle());
    assert_eq!(e.step(), Action::Continue);
    assert!(e.is_idle());
    let mut e = engine(&[]);
    assert!(!e.is_idle());
    assert_eq!(e.step(), Action::Continue);
    assert!(e.is_idle());
}

#[test]
fn an_interactive_line_runs_as_a_sequence_of_one_line() {
    let mut e = Interpreter::new(Shell::new(s("/")));
    assert_eq!(e.receive(Input::Line(s("  SET x 1  "))), Action::Continue);
    assert!(!e.is_idle());
    assert_eq!(run(&mut e), (Vec::<String>::new(), Action::Continue));
    assert_eq!(e.receive(Input::Line(s("echo $x"))), Action::Continue);
    assert_eq!(run(&mut e), (strings(&["1"]), Action::Continue));
    assert_eq!(e.receive(Input::Line(s("FOR v a b c"))), Action::Continue);
    assert_eq!(run(&mut e), (Vec::<String>::new(), Action::Continue));
    assert_eq!(e.shell().variable("v"), Some(s("c")));
    assert_eq!(e.receive(Input::Line(s("GOTO x"))), Action::Continue);
    assert_eq!(run(&mut e), (strings(&["Label 'x' not found"]), Action::Continue));
    assert_eq!(e.receive(Input::Line(s(""))), Action::Continue);
    assert_eq!(run(&mut e), (strings(&["Invalid command"]), Action::Continue));
}

#[test]
fn an_interrupt_is_answered_and_reading_goes_on() {
    let mut e = Interpreter::new(Shell::new(s("/")));
    assert_eq!(
        e.receive(Input::Interrupted),
        Action::Print(s("CTRL+C pressed. Use 'exit' command to quit."))
    );
    assert!(e.is_idle());
}

#[test]
fn the_end_of_input_and_a_failed_read_end_the_process() {
    let mut e = Interpreter::new(Shell::new(s("/")));
    assert_eq!(e.receive(Input::Eof), Action::Exit(s("Exiting shell.")));
    assert_eq!(
        e.receive(Input::Failed(s("Io(broken pipe)"))),
        Action::Exit(s("Error reading line: Io(broken pipe)"))
    );
    assert!(e.is_idle());
}

#[test]
fn each_command_asks_the_host_for_what_it_needs() {
    let mut shell = Shell::new(s("/"));
    let mut script = Script::new(strings(&["SHIFT"]));
    shell.bind(s("x"), s("1"));
    let cases = vec![
        (CommandType::Echo(s("x is $x")), Action::Print(s("x is 1"))),
        (CommandType::SetVar(s("y"), s("2")), Action::Continue),
        (CommandType::Cd(s("dir")), Action::ChangeDir(s("dir"))),
        (CommandType::Shift, Action::Continue),
        (CommandType::Label(s("l")), Action::Continue),
        (CommandType::Exit, Action::Exit(s("Exiting shell."))),
        (CommandType::External(strings(&["p", "q"])), Action::Invoke(strings(&["p", "q"]))),
        (CommandType::Invalid, Action::Print(s("Invalid command"))),
        (CommandType::For(s("v"), strings(&["a"])), Action::Continue),
        (CommandType::While(s("x"), s("=="), s("1")), Action::Continue),
    ];
    for (command, expected) in cases {
        assert_eq!(shell.execute_command(command, &mut script), expected);
    }
    assert_eq!(shell.variable("y"), Some(s("2")));
    assert_eq!(script.index(), 0);
    assert_eq!(script.depth(), 2);
}
