use sophia::patterns;

#[test]
fn is_empty() {
    // Rejects empty files.
    assert_eq!(patterns::is_empty(""), true);
    // Rejects files consisting only of whitespace.
    assert_eq!(patterns::is_empty("\t"), true);
    // Rejects files consisting only of newlines.
    assert_eq!(patterns::is_empty("\n"), true);
    // Rejects files consisting only of comments.
    assert_eq!(patterns::is_empty("// test"), true);
    // Rejects files with no significant content.
    assert_eq!(patterns::is_empty(" \t \n \t // test\n // test"), true);
    // Accepts files with any significant content.
    assert_eq!(patterns::is_empty("test"), false);
}

#[test]
fn is_empty_single_character() {
    assert_eq!(patterns::is_empty("x"), false);
    assert_eq!(patterns::is_empty("/"), false);
    assert_eq!(patterns::is_empty("// a\nx"), false);
    assert_eq!(patterns::is_empty("\u{2003}"), true);
}

#[test]
fn is_unquoted() {
    // Rejects unmatched '.
    assert_eq!(patterns::is_unquoted("'"), true);
    // Accepts matched ''.
    assert_eq!(patterns::is_unquoted("''"), false);
    // Rejects unmatched ".
    assert_eq!(patterns::is_unquoted("\""), true);
    // Accepts matched "".
    assert_eq!(patterns::is_unquoted("\"\""), false);
    // Permits unmatched " inside ''.
    assert_eq!(patterns::is_unquoted("'\"'"), false);
    // Permits unmatched ' inside "".
    assert_eq!(patterns::is_unquoted("\"'\""), false);
}

#[test]
fn is_unquoted_across_lines() {
    assert_eq!(patterns::is_unquoted("'a\nb'"), true);
    assert_eq!(patterns::is_unquoted("x: 'a' + 'b'"), false);
    assert_eq!(patterns::is_unquoted("x: 'a' + 'b"), true);
}

#[test]
fn is_unmatched() {
    // Rejects unmatched (.
    assert_eq!(patterns::is_unmatched("("), true);
    // Accepts matched ().
    assert_eq!(patterns::is_unmatched("()"), false);
    // Rejects unmatched [.
    assert_eq!(patterns::is_unmatched("["), true);
    // Accepts matched [].
    assert_eq!(patterns::is_unmatched("[]"), false);
    // Rejects unmatched {.
    assert_eq!(patterns::is_unmatched("{"), true);
    // Accepts matched {}.
    assert_eq!(patterns::is_unmatched("{}"), false);
    // Rejects nested unmatched brackets.
    assert_eq!(patterns::is_unmatched("([{)]}"), true);
    // Accepts nested matched brackets.
    assert_eq!(patterns::is_unmatched("([{}{}])"), false);
}

#[test]
fn is_unmatched_ignores_strings() {
    assert_eq!(patterns::is_unmatched("'('"), false);
    assert_eq!(patterns::is_unmatched("(')')"), false);
    assert_eq!(patterns::is_unmatched(")"), true);
}

#[test]
fn normalise() {
    // Replaces comments with newlines.
    assert_eq!(patterns::normalise("// test"), "\n");
    // Replaces sequences of 4 spaces with \t.
    assert_eq!(patterns::normalise("    "), "\t");
    // Replaces aliased names with their canonical forms.
    assert_eq!(patterns::normalise("bool int num str"), "boolean integer number string");
    // Does not replace aliased names in string literals.
    assert_eq!(patterns::normalise("'bool' 'int' 'num' 'str'"), "'bool' 'int' 'num' 'str'");
}

#[test]
fn normalise_mixed() {
    assert_eq!(patterns::normalise("x: 1 // one\ny: 2"), "x: 1\ny: 2");
    assert_eq!(patterns::normalise("integer interval"), "integer interval");
    assert_eq!(patterns::normalise("        int x"), "\t\tinteger x");
}

#[test]
fn split() {
    // Groups logical lines with trailing symbols.
    assert_eq!(patterns::split("function(\nargs\n),\nvalue"), vec!["function(args),value"]);
    // Splits logical lines with terminating symbols.
    assert_eq!(patterns::split("x\ny\nz"), vec!["x", "y", "z"]);
}

#[test]
fn split_drops_empty_lines() {
    assert_eq!(patterns::split("x\n\ny\n"), vec!["x", "y"]);
    assert_eq!(patterns::split(""), Vec::<String>::new());
    assert_eq!(patterns::split("f(\n\ta,\n\tb\n)"), vec!["f(a,b)"]);
}

#[test]
fn classes_beyond_ascii() {
    // White space: an em space and a line separator.
    assert_eq!(patterns::is_empty("\u{2003}\u{2028}"), true);
    // No white space: a zero-width space.
    assert_eq!(patterns::is_empty("\u{200b}"), false);
    // A word of letters outside ASCII is a name, and is not taken for an alias.
    assert_eq!(patterns::normalise("\u{e9}t\u{e9} int \u{e9}int"), "\u{e9}t\u{e9} integer \u{e9}int");
}
