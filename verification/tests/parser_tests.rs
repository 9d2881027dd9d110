use lox_vm::chunk::Chunk;
use lox_vm::common::TokenType;
use lox_vm::compiler::{Compiler, Parser};
use lox_vm::scanner::Scanner;

#[test]
fn parser_emits_a_final_return() {
    let scanner = Scanner::init_scanner("print 1;".as_bytes().to_vec());
    let chunk = Chunk::new();
    let mut parser = Parser::new(scanner, chunk);
    parser.parse();
    assert!(!parser.had_error);
    assert_eq!(*parser.chunk.code.last().unwrap(), 0, "code must end in RETURN");
}

#[test]
fn parser_records_errors_without_panicking() {
    let scanner = Scanner::new("var 1 = 2;".as_bytes().to_vec());
    let chunk = Chunk::new();
    let mut parser = Parser::new(scanner, chunk);
    parser.parse();
    assert!(parser.had_error);
    assert!(!parser.errors.is_empty());
}

#[test]
fn compiler_scope_state_tracks_locals() {
    let mut compiler = Compiler::new();
    assert_eq!(compiler.scope_depth, 0);
    assert_eq!(compiler.locals.len(), 0);

    let name = lox_vm::scanner::Token {
        token_type: TokenType::TokenIdentifier,
        lexeme: "x".as_bytes().to_vec(),
        line: 1,
    };
    compiler.add_local(&name);
    assert_eq!(compiler.locals.len(), 1);
    assert_eq!(compiler.local_at(0).depth, -1, "new locals start uninitialized");
    assert_eq!(compiler.local_at(0).name.lexeme, "x".as_bytes().to_vec());

    compiler.update_local_depth_at(0, 2);
    assert_eq!(compiler.local_at(0).depth, 2);
}
