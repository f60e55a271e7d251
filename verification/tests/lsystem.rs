//! String rewriting and file parsing.

use raytracer::lsystem::{LSError, LSystem};

#[test]
fn basic_algae() {
    let mut lsystem = LSystem::new(vec!['a'], 0, 0, 0, 0, 0);
    lsystem.add_rule('a', vec!['a', 'b']);
    lsystem.add_rule('b', vec!['a']);

    assert_eq!(lsystem.to_string(), "a");

    lsystem.expand();
    assert_eq!(lsystem.to_string(), "ab");

    lsystem.expand();
    assert_eq!(lsystem.to_string(), "aba");

    lsystem.expand();
    assert_eq!(lsystem.to_string(), "abaab");

    lsystem.expand();
    assert_eq!(lsystem.to_string(), "abaababa");
}

#[test]
fn expansion_keeps_symbols_without_rules() {
    let mut lsystem = LSystem::new(vec!['x', 'y'], 0, 0, 0, 0, 0);
    lsystem.add_rule('x', vec!['x', 'x']);
    lsystem.expand();
    assert_eq!(lsystem.to_string(), "xxy");
}

fn line(s: &str) -> Vec<char> {
    s.chars().collect()
}

#[test]
fn from_lines_parses_a_system() {
    let lines = vec![
        line("2"),
        line("22.5"),
        line("1"),
        line("0.5"),
        line("0.9"),
        line("ff0000 leaf.png"),
        line("ab"),
        line("a:ab"),
        line("b:a"),
    ];
    let ls = LSystem::from_lines(&lines).expect("the lines are well formed");
    assert_eq!(ls.value(), &vec!['a', 'b']);
    let mut grown = ls;
    grown.expand();
    assert_eq!(grown.to_string(), "aba");
}

#[test]
fn from_lines_rejects_short_input() {
    let lines = vec![line("2"), line("22.5")];
    assert!(matches!(LSystem::from_lines(&lines), Err(LSError::MissingLine)));
}

#[test]
fn from_lines_rejects_bad_number() {
    let lines = vec![
        line("2x"),
        line("22.5"),
        line("1"),
        line("0.5"),
        line("0.9"),
        line("ff0000"),
        line("ab"),
    ];
    assert!(matches!(LSystem::from_lines(&lines), Err(LSError::BadNumber)));
}

#[test]
fn from_lines_rejects_short_rule() {
    let lines = vec![
        line("2"),
        line("22.5"),
        line("1"),
        line("0.5"),
        line("0.9"),
        line("ff0000"),
        line("ab"),
        line("a"),
    ];
    assert!(matches!(LSystem::from_lines(&lines), Err(LSError::BadRule)));
}
