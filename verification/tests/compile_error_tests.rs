use lox_vm::compiler::{compile, CompileError};

fn compile_errors(source: &str) -> Vec<CompileError> {
    match compile(source.as_bytes().to_vec()) {
        Ok(_) => panic!("expected a compile error for: {}", source),
        Err(errors) => errors,
    }
}

fn has_message(errors: &[CompileError], message: &str) -> bool {
    errors.iter().any(|e| e.message == message.as_bytes().to_vec())
}

#[test]
fn reading_a_local_in_its_own_initializer() {
    let errors = compile_errors("{ var a = 1; { var a = a; } }");
    assert!(has_message(&errors, "Can't read local variable in its own initializer."));
}

#[test]
fn redeclaring_a_local_in_the_same_scope() {
    let errors = compile_errors("{ var a = 1; var a = 2; }");
    assert!(has_message(&errors, "Already a variable with this name in this scope."));
}

#[test]
fn invalid_assignment_target() {
    let errors = compile_errors("var a = 1; var b = 2; a + b = 3;");
    assert!(has_message(&errors, "Invalid assignment target."));
}

#[test]
fn missing_expression() {
    let errors = compile_errors("print ;");
    assert!(has_message(&errors, "Expect expression."));
}

#[test]
fn missing_semicolon() {
    let errors = compile_errors("print 1");
    assert!(has_message(&errors, "Expect ';' after value."));
}

#[test]
fn unterminated_string_reaches_the_error_list() {
    let errors = compile_errors("print \"oops;");
    assert!(has_message(&errors, "Unterminated string."));
}

#[test]
fn unexpected_character_reaches_the_error_list() {
    let errors = compile_errors("print 1 # 2;");
    assert!(has_message(&errors, "Unexpected character."));
}

#[test]
fn fractional_literal_is_rejected() {
    let errors = compile_errors("print 1.5;");
    assert!(has_message(&errors, "Number literal must be an integer in range."));
}

#[test]
fn out_of_range_literal_is_rejected() {
    let errors = compile_errors("print 9223372036854775808;");
    assert!(has_message(&errors, "Number literal must be an integer in range."));
}

#[test]
fn panic_mode_recovers_at_statement_boundaries() {
    // Both bad statements are reported; the one in between them is fine.
    let errors = compile_errors("print ; print 1; var = 3;");
    assert!(has_message(&errors, "Expect expression."));
    assert!(has_message(&errors, "Expect variable name."));
    assert_eq!(errors.len(), 2);
}

#[test]
fn error_records_the_offending_line() {
    let errors = compile_errors("print 1;\nprint ;");
    assert_eq!(errors.len(), 1);
    assert_eq!(errors[0].line, 2);
}
