use syscaller::codegen::{wrap_syscall, CompileError};
use syscaller::parser::ErrorKind;

fn parse_error_kind(src: &str) -> ErrorKind {
    match wrap_syscall(src) {
        Err(CompileError::Parse(e)) => e.kind,
        other => panic!("expected a parse failure for {:?}, got ok={}", src, other.is_ok()),
    }
}

#[test]
fn missing_colon_fails() {
    assert_eq!(parse_error_kind("7 void foo()"), ErrorKind::ExpectedColon);
}

#[test]
fn unknown_type_specifier_fails() {
    assert_eq!(parse_error_kind("7: bogustype x()"), ErrorKind::ExpectedTypeSpecifier);
}

#[test]
fn missing_number_fails() {
    assert_eq!(parse_error_kind("x: void f()"), ErrorKind::ExpectedNumber);
}

#[test]
fn missing_parameter_name_fails() {
    assert_eq!(parse_error_kind("7: void f(int)"), ErrorKind::ExpectedParameterName);
}

#[test]
fn missing_entry_point_name_fails() {
    assert_eq!(parse_error_kind("7: void ()"), ErrorKind::ExpectedName);
}

#[test]
fn missing_parameter_list_fails() {
    assert_eq!(parse_error_kind("7: void f"), ErrorKind::ExpectedLParen);
}

#[test]
fn broken_parameter_list_fails() {
    assert_eq!(parse_error_kind("7: void f(int x int y)"), ErrorKind::ExpectedCommaOrRParen);
}

#[test]
fn missing_comma_between_declarations_fails() {
    assert_eq!(parse_error_kind("7: void f() 8: void g()"), ErrorKind::ExpectedComma);
}

#[test]
fn stray_character_is_a_lexical_failure() {
    match wrap_syscall("7: void f() @") {
        Err(CompileError::Lex { pos }) => assert_eq!(pos, 12),
        _ => panic!("expected a lexical failure"),
    }
}

#[test]
fn failure_positions_point_at_the_offending_token() {
    match wrap_syscall("7 void foo()") {
        // Token 1 (the word `void`) is where the `:` was expected.
        Err(CompileError::Parse(e)) => assert_eq!(e.pos, 1),
        _ => panic!("expected a parse failure"),
    }
}

#[test]
fn diagnostics_have_text() {
    match wrap_syscall("7: bogustype x()") {
        Err(e) => assert_eq!(e.describe(), "expected type specifier"),
        Ok(_) => panic!("expected a failure"),
    }
}
