use batch_shell::session::{compare, Shell};
use batch_shell::text::{
    from_chars, is_whitespace, join_from, less_than, same_text, split_whitespace, to_chars,
    trimmed,
};

fn strings(items: &[&str]) -> Vec<String> {
    items.iter().map(|s| s.to_string()).collect()
}

#[test]
fn whitespace_class_is_the_unicode_one() {
    let mut code: u32 = 0;
    while code <= 0x10FFFF {
        if let Some(c) = char::from_u32(code) {
            assert_eq!(is_whitespace(c), c.is_whitespace(), "U+{:04X}", code);
        }
        code += 1;
    }
}

#[test]
fn characters_round_trip() {
    let chars = to_chars("héllo wörld");
    assert_eq!(chars, "héllo wörld".chars().collect::<Vec<char>>());
    assert_eq!(from_chars(&chars, 0, chars.len()), "héllo wörld");
    assert_eq!(from_chars(&chars, 6, 11), "wörld");
    assert_eq!(from_chars(&chars, 3, 3), "");
}

#[test]
fn tokens_are_the_runs_between_whitespace() {
    assert_eq!(split_whitespace("SET x v"), strings(&["SET", "x", "v"]));
    assert_eq!(split_whitespace("  a \t b\u{3000}c \n"), strings(&["a", "b", "c"]));
    assert_eq!(split_whitespace(""), Vec::<String>::new());
    assert_eq!(split_whitespace(" \t\r\n"), Vec::<String>::new());
    assert_eq!(split_whitespace("one"), strings(&["one"]));
}

#[test]
fn tokens_agree_with_the_standard_split() {
    let samples = [
        "ECHO hello   world",
        "\u{a0}non\u{2003}breaking\u{85}spaces\u{2028}",
        "tab\tseparated\tvalues",
        "trailing   ",
        "   leading",
        "ünïcödé wörds ıf ſet",
    ];
    for sample in samples {
        let expected: Vec<String> = sample.split_whitespace().map(|s| s.to_string()).collect();
        assert_eq!(split_whitespace(sample), expected);
    }
}

#[test]
fn join_puts_one_space_between_neighbours() {
    let parts = strings(&["ECHO", "a", "b", "c"]);
    assert_eq!(join_from(&parts, 0), "ECHO a b c");
    assert_eq!(join_from(&parts, 1), "a b c");
    assert_eq!(join_from(&parts, 3), "c");
    assert_eq!(join_from(&parts, 4), "");
}

#[test]
fn trimming_strips_both_ends_only() {
    assert_eq!(trimmed("  a  b \t"), "a  b");
    assert_eq!(trimmed("\u{2003}x\u{a0}"), "x");
    assert_eq!(trimmed("plain"), "plain");
    assert_eq!(trimmed("   "), "");
    assert_eq!(trimmed(""), "");
    for sample in ["  a  b \t", " \n", "x", "\u{3000}é \u{85}"] {
        assert_eq!(trimmed(sample), sample.trim());
    }
}

#[test]
fn same_text_compares_characters() {
    assert!(same_text("abc", "abc"));
    assert!(same_text("", ""));
    assert!(!same_text("abc", "abd"));
    assert!(!same_text("abc", "ab"));
    assert!(!same_text("ECHO", "echo"));
}

#[test]
fn order_is_lexicographic() {
    assert!(less_than("a", "b"));
    assert!(!less_than("b", "a"));
    assert!(!less_than("a", "a"));
    assert!(less_than("a", "ab"));
    assert!(!less_than("ab", "a"));
    assert!(less_than("", "a"));
    assert!(!less_than("", ""));
    assert!(less_than("10", "9"));
    assert!(less_than("Z", "a"));
}

#[test]
fn order_agrees_with_the_standard_one() {
    let samples = ["", "a", "ab", "abc", "b", "B", "10", "9", "é", "z", "\u{10000}", "\u{ffff}", "zé", "z\u{7f}"];
    for a in samples {
        for b in samples {
            assert_eq!(less_than(a, b), a < b, "{:?} < {:?}", a, b);
        }
    }
}

#[test]
fn six_operators_and_nothing_else() {
    assert!(compare("==", "a", "a"));
    assert!(!compare("==", "a", "b"));
    assert!(compare("!=", "a", "b"));
    assert!(!compare("!=", "a", "a"));
    assert!(compare("<", "a", "b"));
    assert!(!compare("<", "b", "a"));
    assert!(!compare("<", "a", "a"));
    assert!(compare(">", "b", "a"));
    assert!(!compare(">", "a", "a"));
    assert!(compare("<=", "a", "a"));
    assert!(compare("<=", "a", "b"));
    assert!(!compare("<=", "b", "a"));
    assert!(compare(">=", "a", "a"));
    assert!(compare(">=", "b", "a"));
    assert!(!compare(">=", "a", "b"));
    assert!(!compare("=", "a", "a"));
    assert!(!compare("<>", "a", "b"));
    assert!(!compare("", "a", "a"));
}

#[test]
fn substitution_replaces_whole_words_that_begin_with_the_sigil() {
    let mut shell = Shell::new("/".to_string());
    shell.bind("x".to_string(), "1".to_string());
    shell.bind("long".to_string(), "two words".to_string());
    assert_eq!(shell.substitute("$x"), "1");
    assert_eq!(shell.substitute("a $x b"), "a 1 b");
    assert_eq!(shell.substitute("$long!"), "");
    assert_eq!(shell.substitute("$long"), "two words");
    assert_eq!(shell.substitute("a$x"), "a$x");
    assert_eq!(shell.substitute("$"), "");
    assert_eq!(shell.substitute("no references"), "no references");
    assert_eq!(shell.substitute(""), "");
}

#[test]
fn substitution_keeps_separators_and_drops_unbound_references() {
    let mut shell = Shell::new("/".to_string());
    shell.bind("x".to_string(), "1".to_string());
    assert_eq!(shell.substitute("a $gone b"), "a  b");
    assert_eq!(shell.substitute("  $x\t$x  "), "  1\t1  ");
    assert_eq!(shell.substitute("$gone"), "");
}

#[test]
fn substitution_is_a_single_pass() {
    let mut shell = Shell::new("/".to_string());
    shell.bind("a".to_string(), "$b".to_string());
    shell.bind("b".to_string(), "deep".to_string());
    assert_eq!(shell.substitute("$a"), "$b");
    assert_eq!(shell.substitute("$a $b"), "$b deep");
}

#[test]
fn bindings_are_overwritten_and_read_back() {
    let mut shell = Shell::new("/home".to_string());
    assert_eq!(shell.current_path(), "/home");
    assert_eq!(shell.variable("x"), None);
    shell.bind("x".to_string(), "1".to_string());
    assert_eq!(shell.variable("x"), Some("1".to_string()));
    shell.bind("x".to_string(), "2".to_string());
    assert_eq!(shell.variable("x"), Some("2".to_string()));
    assert_eq!(shell.variable("X"), None);
    assert!(shell.test("x", "==", "2"));
    assert!(!shell.test("x", "==", "1"));
    assert!(!shell.test("y", "==", "1"));
    assert!(!shell.test("y", "!=", "1"));
    shell.enter("/tmp".to_string());
    assert_eq!(shell.current_path(), "/tmp");
}
