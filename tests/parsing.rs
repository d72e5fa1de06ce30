use sed_bot::flags::Flags;
use sed_bot::replace::{ParseError, Replacement, ReplacementNode, RequestParser};

fn all_false() -> Flags {
    Flags {
        case_insensitive: false,
        multi_line: false,
        dot_matches_new_line: false,
        swap_greed: false,
        ignore_whitespace: false,
        octal: false,
        global: false,
    }
}

#[test]
fn flags_ig_sets_case_insensitive_and_global() {
    let flags = Flags::parse("ig").unwrap();
    let mut expected = all_false();
    expected.case_insensitive = true;
    expected.global = true;
    assert_eq!(flags, expected);
}

#[test]
fn flags_empty_sets_nothing() {
    assert_eq!(Flags::parse("").unwrap(), all_false());
    assert_eq!(Flags::default(), all_false());
}

#[test]
fn flags_every_letter() {
    let flags = Flags::parse("imsUxog").unwrap();
    assert!(flags.case_insensitive);
    assert!(flags.multi_line);
    assert!(flags.dot_matches_new_line);
    assert!(flags.swap_greed);
    assert!(flags.ignore_whitespace);
    assert!(flags.octal);
    assert!(flags.global);
}

#[test]
fn flags_unrecognized_letter() {
    assert!(matches!(Flags::parse("iz"), Err(ParseError::UnrecognizedFlag('z'))));
    assert!(matches!(Flags::parse("u"), Err(ParseError::UnrecognizedFlag('u'))));
}

#[test]
fn flags_duplicated_letter() {
    assert!(matches!(Flags::parse("ii"), Err(ParseError::DuplicatedFlag('i'))));
    assert!(matches!(Flags::parse("gmg"), Err(ParseError::DuplicatedFlag('g'))));
}

#[test]
fn flags_first_fault_wins() {
    assert!(matches!(Flags::parse("iiz"), Err(ParseError::DuplicatedFlag('i'))));
    assert!(matches!(Flags::parse("zii"), Err(ParseError::UnrecognizedFlag('z'))));
}

#[test]
fn flag_set_twice_fails() {
    let mut field = false;
    assert!(Flags::set(&mut field, 'm').is_ok());
    assert!(field);
    assert!(matches!(Flags::set(&mut field, 'm'), Err(ParseError::DuplicatedFlag('m'))));
    assert!(field);
}

#[test]
fn split_skips_escaped_slash() {
    assert_eq!(RequestParser.split_bar_escaping("a\\/b/c"), Some(("a\\/b", "c")));
}

#[test]
fn split_at_first_slash() {
    assert_eq!(RequestParser.split_bar_escaping("a/b/c"), Some(("a", "b/c")));
}

#[test]
fn split_without_slash() {
    assert_eq!(RequestParser.split_bar_escaping("abc"), None);
    assert_eq!(RequestParser.split_bar_escaping(""), None);
    assert_eq!(RequestParser.split_bar_escaping("a\\/b"), None);
}

#[test]
fn split_after_escaped_backslash() {
    assert_eq!(RequestParser.split_bar_escaping("a\\\\/b"), Some(("a\\\\", "b")));
    assert_eq!(RequestParser.split_bar_escaping("/x"), Some(("", "x")));
    assert_eq!(RequestParser.split_bar_escaping("é/ü"), Some(("é", "ü")));
}

#[test]
fn template_groups_and_text() {
    let r = Replacement::parse("x\\1y$2");
    assert_eq!(
        r.nodes,
        vec![
            ReplacementNode::Text(String::from("x")),
            ReplacementNode::Index(1),
            ReplacementNode::Text(String::from("y")),
            ReplacementNode::Index(2),
        ]
    );
}

#[test]
fn template_escapes_are_literal() {
    let r = Replacement::parse("a\\/b\\\\c$x");
    assert_eq!(r.nodes, vec![ReplacementNode::Text(String::from("a/b\\c$x"))]);
}

#[test]
fn template_edges() {
    assert_eq!(Replacement::parse("").nodes, vec![]);
    assert_eq!(Replacement::parse("end\\").nodes, vec![ReplacementNode::Text(String::from("end\\"))]);
    assert_eq!(
        Replacement::parse("$0$9").nodes,
        vec![ReplacementNode::Index(0), ReplacementNode::Index(9)]
    );
    assert_eq!(Replacement::default().nodes, vec![]);
}
