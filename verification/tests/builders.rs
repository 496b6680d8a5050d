use luau_fields::if_builder::IfBuilder;
use luau_fields::string_builder::{Piece, StringBuilder};
use luau_fields::text::{chars_of, join, number_text, replace};

#[test]
fn pieces_are_indented_line_by_line() {
    let mut builder = StringBuilder::new();
    builder.push("do");
    builder.indent();
    builder.push("a\nb");
    builder.blank();
    builder.dedent();
    builder.push("end");
    assert_eq!(builder.build(), "do\n\ta\n\tb\n\nend");
    assert_eq!(builder.pieces().len(), 4);
    assert!(matches!(builder.pieces()[2], Piece::Blank));
}

#[test]
fn appended_pieces_move() {
    let mut first = StringBuilder::new();
    first.push("one");
    let mut second = StringBuilder::new();
    second.push("two");
    first.append(&mut second);
    assert_eq!(first.build(), "one\ntwo");
    assert_eq!(second.build(), "");
}

#[test]
fn replacing_in_a_builder() {
    let mut builder = StringBuilder::new();
    builder.push("local value");
    builder.blank();
    builder.push("x = value + value");
    let replaced = builder.replace("value", "readMapKey");
    assert_eq!(replaced.build(), "local readMapKey\n\nx = readMapKey + readMapKey");
    assert_eq!(builder.build(), "local value\n\nx = value + value");
}

#[test]
fn if_statements() {
    let mut builder = IfBuilder::new();
    builder.add_condition("a", "one()");
    builder.add_condition("b", "two()");
    builder.add_condition("c", "three()");
    assert_eq!(
        builder.into_string_builder().build(),
        "if a then\n\tone()\nelseif b then\n\ttwo()\nelseif c then\n\tthree()\nend"
    );
    assert_eq!(IfBuilder::new().into_string_builder().build(), "");
}

#[test]
fn replace_agrees_with_std() {
    for (s, from, to) in [
        ("output, cursor = f(output, cursor)", "cursor", "mapCursor"),
        ("aaaa", "aa", "b"),
        ("aaa", "aa", "b"),
        ("", "a", "b"),
        ("abc", "", "-"),
        ("", "", "-"),
        ("h\u{e9}llo w\u{f6}rld", "l", "\u{1f600}"),
        ("value", "values", "x"),
    ] {
        assert_eq!(replace(s, from, to), s.replace(from, to));
    }
}

#[test]
fn numbers_agree_with_std() {
    for n in [0, 7, 10, 19, 536870911, i32::MAX, i32::MIN, -1, -10] {
        assert_eq!(number_text(n), n.to_string());
    }
}

#[test]
fn joining() {
    assert_eq!(join(&vec![], " | "), "");
    assert_eq!(join(&vec!["a".to_string()], " | "), "a");
    assert_eq!(join(&vec!["a".to_string(), "b".to_string(), "c".to_string()], " | "), "a | b | c");
    assert_eq!(chars_of("h\u{e9}"), vec!['h', '\u{e9}']);
}
