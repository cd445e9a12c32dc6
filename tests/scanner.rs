use basm::{scan, BasmError, Symbol};

fn sym(data: &str, line: u32) -> Symbol {
    Symbol { data: data.to_string(), line }
}

#[test]
fn whitespace_runs_collapse() {
    let (symbols, errors) = scan("a b  c");
    assert!(errors.is_empty());
    assert_eq!(symbols, vec![sym("a", 1), sym("b", 1), sym("c", 1)]);
    let (symbols, errors) = scan(" \t\r\n  ");
    assert!(errors.is_empty());
    assert!(symbols.is_empty());
    let (symbols, _) = scan("");
    assert!(symbols.is_empty());
}

#[test]
fn quoted_string_keeps_inner_space() {
    let (symbols, errors) = scan("\"hello world\"");
    assert!(errors.is_empty());
    assert_eq!(symbols, vec![sym("\"hello world\"", 1)]);
}

#[test]
fn escaped_quote_does_not_close() {
    let (symbols, errors) = scan("\"a\\\"b\"");
    assert!(errors.is_empty());
    assert_eq!(symbols, vec![sym("\"a\"b\"", 1)]);
}

#[test]
fn escaped_backslash_is_kept_once() {
    let (symbols, errors) = scan("[a\\\\] x");
    assert!(errors.is_empty());
    assert_eq!(symbols, vec![sym("[a\\]", 1), sym("x", 1)]);
}

#[test]
fn unterminated_string_is_reported_and_scanning_goes_on() {
    let (symbols, errors) = scan("\"unterminated\n");
    assert!(symbols.is_empty());
    assert_eq!(errors, vec![BasmError::UnclosedStringLiteral { line: 1 }]);

    let (symbols, errors) = scan("a\n\"unterminated\nnext line");
    assert_eq!(errors, vec![BasmError::UnclosedStringLiteral { line: 2 }]);
    assert_eq!(symbols, vec![sym("a", 1), sym("next", 3), sym("line", 3)]);
}

#[test]
fn unclosed_headers_are_reported_by_kind() {
    let (symbols, errors) = scan("[Stage\n{mon\nok");
    assert_eq!(
        errors,
        vec![
            BasmError::UnclosedTargetHeader { line: 1 },
            BasmError::UnclosedMonitorHeader { line: 2 },
        ]
    );
    assert_eq!(symbols, vec![sym("ok", 3)]);
}

#[test]
fn symbols_carry_their_starting_line() {
    let (symbols, errors) = scan("\n\n  alpha beta\n\ngamma");
    assert!(errors.is_empty());
    assert_eq!(symbols, vec![sym("alpha", 3), sym("beta", 3), sym("gamma", 5)]);
}

#[test]
fn delimiter_decision_is_frozen_at_symbol_start() {
    let (symbols, errors) = scan("a\"b c\" \"x\"y z");
    assert!(errors.is_empty());
    assert_eq!(
        symbols,
        vec![sym("a\"b", 1), sym("c\"", 1), sym("\"x\"y", 1), sym("z", 1)]
    );
}

#[test]
fn non_ascii_text_is_kept() {
    let (symbols, errors) = scan("\"héllo wörld\" ünï");
    assert!(errors.is_empty());
    assert_eq!(symbols, vec![sym("\"héllo wörld\"", 1), sym("ünï", 1)]);
}

#[test]
fn scan_is_repeatable() {
    let src = "sem_ver \"1\"\n[Stage\n{m} x";
    assert_eq!(scan(src), scan(src));
}
