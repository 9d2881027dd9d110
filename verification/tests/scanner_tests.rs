use lox_vm::common::TokenType;
use lox_vm::scanner::Scanner;

#[test]
fn skip_whitespaces() {
    let source = " \r\t {".to_string();
    let mut scanner = Scanner::new(source.as_bytes().to_vec());

    let t = scanner.scan_token();
    assert_eq!(
        t.token_type,
        TokenType::TokenLeftBrace,
        "Expected to remove leading whitespace",
    );
}

#[test]
fn scanner_skip_whitespaces() {
    let source = " \r\t {".to_string();
    let mut scanner = Scanner::new(source.as_bytes().to_vec());

    let t = scanner.scan_token();
    assert_eq!(
        t.token_type,
        TokenType::TokenLeftBrace,
        "Expected to remove leading whitespace",
    );
}

struct TestSuite {
    source: String,
    wanted_token: TokenType,
}

#[test]
fn scan_tokens() {
    let test_suites: Vec<TestSuite> = vec![
        TestSuite { source: "{".to_string(), wanted_token: TokenType::TokenLeftBrace },
        TestSuite { source: "}".to_string(), wanted_token: TokenType::TokenRightBrace },
        TestSuite { source: "and".to_string(), wanted_token: TokenType::TokenAnd },
        TestSuite { source: "class".to_string(), wanted_token: TokenType::TokenClass },
        TestSuite { source: "!".to_string(), wanted_token: TokenType::TokenBang },
        TestSuite { source: "!=".to_string(), wanted_token: TokenType::TokenBangEqual },
        TestSuite { source: ",".to_string(), wanted_token: TokenType::TokenComma },
        TestSuite { source: ".".to_string(), wanted_token: TokenType::TokenDot },
        TestSuite { source: "else".to_string(), wanted_token: TokenType::TokenElse },
        TestSuite { source: "".to_string(), wanted_token: TokenType::TokenEof },
        TestSuite { source: "=".to_string(), wanted_token: TokenType::TokenEqual },
        TestSuite { source: "==".to_string(), wanted_token: TokenType::TokenEqualEqual },
        TestSuite { source: "false".to_string(), wanted_token: TokenType::TokenFalse },
        TestSuite { source: "for".to_string(), wanted_token: TokenType::TokenFor },
        TestSuite { source: "fun".to_string(), wanted_token: TokenType::TokenFun },
        TestSuite { source: ">".to_string(), wanted_token: TokenType::TokenGreater },
        TestSuite { source: ">=".to_string(), wanted_token: TokenType::TokenGreaterEqual },
        TestSuite { source: "if".to_string(), wanted_token: TokenType::TokenIf },
        TestSuite { source: "(".to_string(), wanted_token: TokenType::TokenLeftParen },
        TestSuite { source: ")".to_string(), wanted_token: TokenType::TokenRightParen },
        TestSuite { source: "<".to_string(), wanted_token: TokenType::TokenLess },
        TestSuite { source: "<=".to_string(), wanted_token: TokenType::TokenLessEqual },
        TestSuite { source: "-".to_string(), wanted_token: TokenType::TokenMinus },
        TestSuite { source: "nil".to_string(), wanted_token: TokenType::TokenNil },
        TestSuite { source: "123.1".to_string(), wanted_token: TokenType::TokenNumber },
        TestSuite { source: "or".to_string(), wanted_token: TokenType::TokenOr },
        TestSuite { source: "+".to_string(), wanted_token: TokenType::TokenPlus },
        TestSuite { source: "print".to_string(), wanted_token: TokenType::TokenPrint },
        TestSuite { source: "return".to_string(), wanted_token: TokenType::TokenReturn },
        TestSuite { source: ";".to_string(), wanted_token: TokenType::TokenSemicolon },
        TestSuite { source: "/".to_string(), wanted_token: TokenType::TokenSlash },
        TestSuite { source: "*".to_string(), wanted_token: TokenType::TokenStar },
        TestSuite { source: "super".to_string(), wanted_token: TokenType::TokenSuper },
        TestSuite { source: "this".to_string(), wanted_token: TokenType::TokenThis },
        TestSuite { source: "true".to_string(), wanted_token: TokenType::TokenTrue },
        TestSuite { source: "var".to_string(), wanted_token: TokenType::TokenVar },
        TestSuite { source: "while".to_string(), wanted_token: TokenType::TokenWhile },
        TestSuite { source: "\"hellow world\"".to_string(), wanted_token: TokenType::TokenString },
        TestSuite { source: "id".to_string(), wanted_token: TokenType::TokenIdentifier },
    ];

    for t in test_suites {
        let mut scanner = Scanner::new(t.source.as_bytes().to_vec());
        let token = scanner.scan_token();

        assert_eq!(
            token.token_type, t.wanted_token,
            "Expected to scan {:?} token, got {:?}",
            t.wanted_token, token.token_type
        );
    }
}

#[test]
fn scan_token_round_trips_lexemes() {
    // For each single-token source, the token's lexeme is the input text.
    let sources = [
        "{", "}", "(", ")", ",", ".", "-", "+", ";", "/", "*", "!", "!=", "=", "==", ">", ">=",
        "<", "<=", "and", "class", "else", "false", "for", "fun", "if", "nil", "or", "print",
        "return", "super", "this", "true", "var", "while", "ident7", "123", "123.1",
        "\"hello\"",
    ];
    for src in sources {
        let mut scanner = Scanner::new(src.as_bytes().to_vec());
        let token = scanner.scan_token();
        assert_eq!(token.lexeme, src.as_bytes().to_vec(), "lexeme for {:?}", src);
        assert_eq!(token.line, 1, "line for {:?}", src);
    }
}

#[test]
fn eof_is_idempotent() {
    let mut scanner = Scanner::new("var x".as_bytes().to_vec());
    assert_eq!(scanner.scan_token().token_type, TokenType::TokenVar);
    assert_eq!(scanner.scan_token().token_type, TokenType::TokenIdentifier);
    for _ in 0..5 {
        assert_eq!(scanner.scan_token().token_type, TokenType::TokenEof);
    }
    let mut empty = Scanner::new(Vec::new());
    for _ in 0..3 {
        assert_eq!(empty.scan_token().token_type, TokenType::TokenEof);
    }
}

#[test]
fn unterminated_string_is_an_error_token() {
    let mut scanner = Scanner::new("\"abc".as_bytes().to_vec());
    let t = scanner.scan_token();
    assert_eq!(t.token_type, TokenType::TokenError);
    assert_eq!(t.lexeme, "Unterminated string.".as_bytes().to_vec());
}

#[test]
fn unknown_byte_is_an_error_token() {
    let mut scanner = Scanner::new("#".as_bytes().to_vec());
    let t = scanner.scan_token();
    assert_eq!(t.token_type, TokenType::TokenError);
    assert_eq!(t.lexeme, "Unexpected character.".as_bytes().to_vec());
}

#[test]
fn comments_and_newlines_count_lines() {
    let mut scanner = Scanner::new("// nothing\n\n  print".as_bytes().to_vec());
    let t = scanner.scan_token();
    assert_eq!(t.token_type, TokenType::TokenPrint);
    assert_eq!(t.line, 3);
}
