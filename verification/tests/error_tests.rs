use vm_translator::error::ErrorKind;
use vm_translator::parser::{CommandType, Parser};

fn lines_of(texts: &[&str]) -> Vec<String> {
    texts.iter().map(|s| s.to_string()).collect()
}

#[test]
fn advance_rejects_unknown_operator() {
    let mut parser = Parser::new(lines_of(&["???"]));
    let e = parser.advance().unwrap_err();
    assert_eq!(e.kind, ErrorKind::SyntaxError);
    assert_eq!(e.text, "???");
}

#[test]
fn cmd_without_command_is_context_error() {
    let parser = Parser::new(Vec::new());
    let e = parser.cmd().unwrap_err();
    assert_eq!(e.kind, ErrorKind::ContextError);
}

#[test]
fn arg1_on_return_is_context_error() {
    let mut parser = Parser::new(lines_of(&["return"]));
    parser.advance().unwrap();
    let e = parser.arg1().unwrap_err();
    assert_eq!(e.kind, ErrorKind::ContextError);
    assert_eq!(e.text, "return");
}

#[test]
fn arg1_without_command_is_context_error() {
    let parser = Parser::new(Vec::new());
    let e = parser.arg1().unwrap_err();
    assert_eq!(e.kind, ErrorKind::ContextError);
}

#[test]
fn arg1_missing_operand_is_arity_error() {
    let mut parser = Parser::new(lines_of(&["push"]));
    parser.advance().unwrap();
    let e = parser.arg1().unwrap_err();
    assert_eq!(e.kind, ErrorKind::ArityError);
    assert_eq!(e.text, "push");
}

#[test]
fn arg2_on_arithmetic_is_context_error() {
    let mut parser = Parser::new(lines_of(&["add"]));
    parser.advance().unwrap();
    assert_eq!(parser.get_cmd_type(), Some(CommandType::Arithmetic));
    let e = parser.arg2().unwrap_err();
    assert_eq!(e.kind, ErrorKind::ContextError);
}

#[test]
fn arg2_on_label_is_context_error() {
    let mut parser = Parser::new(lines_of(&["label L"]));
    parser.advance().unwrap();
    let e = parser.arg2().unwrap_err();
    assert_eq!(e.kind, ErrorKind::ContextError);
}

#[test]
fn arg2_without_command_is_context_error() {
    let parser = Parser::new(Vec::new());
    let e = parser.arg2().unwrap_err();
    assert_eq!(e.kind, ErrorKind::ContextError);
}

#[test]
fn arg2_missing_operand_is_arity_error() {
    let mut parser = Parser::new(lines_of(&["push local"]));
    parser.advance().unwrap();
    let e = parser.arg2().unwrap_err();
    assert_eq!(e.kind, ErrorKind::ArityError);
    assert_eq!(e.text, "push local");
}

#[test]
fn arg2_non_numeric_is_arity_error() {
    let mut parser = Parser::new(lines_of(&["push local x"]));
    parser.advance().unwrap();
    let e = parser.arg2().unwrap_err();
    assert_eq!(e.kind, ErrorKind::ArityError);
}

#[test]
fn arg2_overflow_is_arity_error() {
    let mut parser = Parser::new(lines_of(&["push constant 99999999999"]));
    parser.advance().unwrap();
    let e = parser.arg2().unwrap_err();
    assert_eq!(e.kind, ErrorKind::ArityError);
}

#[test]
fn arg2_parses_signs_and_extremes() {
    let mut parser = Parser::new(lines_of(&[
        "push constant -12",
        "push constant +7",
        "push constant 2147483647",
        "push constant -2147483648",
        "push constant 0007",
    ]));
    parser.advance().unwrap();
    assert_eq!(parser.arg2().unwrap(), -12);
    parser.advance().unwrap();
    assert_eq!(parser.arg2().unwrap(), 7);
    parser.advance().unwrap();
    assert_eq!(parser.arg2().unwrap(), 2147483647);
    parser.advance().unwrap();
    assert_eq!(parser.arg2().unwrap(), -2147483648);
    parser.advance().unwrap();
    assert_eq!(parser.arg2().unwrap(), 7);
}

#[test]
fn comments_and_whitespace_are_stripped() {
    let mut parser = Parser::new(lines_of(&["   add   // trailing words"]));
    parser.advance().unwrap();
    assert_eq!(parser.current_cmd.clone().unwrap().cmd_raw, "add");
}

#[test]
fn tokens_are_whitespace_delimited() {
    let mut parser = Parser::new(lines_of(&["push   local\t9"]));
    parser.advance().unwrap();
    assert_eq!(parser.cmd().unwrap(), "push");
    assert_eq!(parser.arg1().unwrap(), "local");
    assert_eq!(parser.arg2().unwrap(), 9);
}
