use ferris::RunOutcome;
use ferris::RunStatus;
use ferris::ast::Stmt;
use ferris::interpreter::{ExecStatus, Interpreter, RuntimeError};
use ferris::lexer::Lexer;
use ferris::num::SCALE;
use ferris::parser::Parser;
use ferris::token::TokenType;
use ferris::value::Value;

const FUEL: u64 = 10_000;

fn run_src(src: &str) -> RunOutcome {
    ferris::run(src.to_string(), FUEL)
}

fn output_of(src: &str) -> Vec<String> {
    let outcome = run_src(src);
    assert!(matches!(outcome.status, RunStatus::Finished));
    outcome.output
}

fn whole(n: i64) -> i64 {
    n * SCALE
}

#[test]
fn test_tokenize_simple() {
    let mut lexer = Lexer::new("let x = 42;".to_string());
    let tokens = lexer.tokenize().unwrap();

    assert!(matches!(tokens[0].token_type, TokenType::Let));
    assert!(matches!(tokens[1].token_type, TokenType::Identifier(_)));
    assert!(matches!(tokens[2].token_type, TokenType::Assign));
    assert!(matches!(tokens[3].token_type, TokenType::Number(n) if n.mantissa == whole(42)));
    assert!(matches!(tokens[4].token_type, TokenType::Semicolon));
    assert!(matches!(tokens[5].token_type, TokenType::Eof));
}

#[test]
fn test_tokenize_arithmetic() {
    let mut lexer = Lexer::new("3 + 4 * 2".to_string());
    let tokens = lexer.tokenize().unwrap();

    assert!(matches!(tokens[0].token_type, TokenType::Number(n) if n.mantissa == whole(3)));
    assert!(matches!(tokens[1].token_type, TokenType::Plus));
    assert!(matches!(tokens[2].token_type, TokenType::Number(n) if n.mantissa == whole(4)));
    assert!(matches!(tokens[3].token_type, TokenType::Multiply));
    assert!(matches!(tokens[4].token_type, TokenType::Number(n) if n.mantissa == whole(2)));
}

#[test]
fn test_comments() {
    let mut lexer = Lexer::new("let x = 5; // This is a comment\nlet y = 10;".to_string());
    let tokens = lexer.tokenize().unwrap();

    // Should skip the comment and tokenize normally
    assert!(matches!(tokens[0].token_type, TokenType::Let));
    assert!(matches!(tokens[1].token_type, TokenType::Identifier(_)));
    assert!(matches!(tokens[2].token_type, TokenType::Assign));
    assert!(matches!(tokens[3].token_type, TokenType::Number(n) if n.mantissa == whole(5)));
    assert!(matches!(tokens[4].token_type, TokenType::Semicolon));
    assert!(matches!(tokens[5].token_type, TokenType::Let)); // Next line after comment
}

#[test]
fn test_string_literals() {
    let mut lexer = Lexer::new("\"hello world\"".to_string());
    let tokens = lexer.tokenize().unwrap();

    assert!(matches!(tokens[0].token_type, TokenType::Str(_)));
    if let TokenType::Str(s) = &tokens[0].token_type {
        assert_eq!(s, "hello world");
    }
}

#[test]
fn test_parse_let_statement() {
    let mut lexer = Lexer::new("let x = 1 + 2;".to_string());
    let tokens = lexer.tokenize().unwrap();
    let mut parser = Parser::new(tokens);
    let ast = parser.parse().unwrap();

    assert_eq!(ast.len(), 1);
    assert!(matches!(ast[0], Stmt::Let { .. }));
}

#[test]
fn test_parse_expression() {
    let mut lexer = Lexer::new("3 + 4 * 2;".to_string());
    let tokens = lexer.tokenize().unwrap();
    let mut parser = Parser::new(tokens);
    let ast = parser.parse().unwrap();

    assert_eq!(ast.len(), 1);
    assert!(matches!(ast[0], Stmt::Expression(_)));
}

#[test]
fn test_interpreter_basic() {
    let mut lexer = Lexer::new("let x = 5; let y = x * 2;".to_string());
    let tokens = lexer.tokenize().unwrap();
    let mut parser = Parser::new(tokens);
    let ast = parser.parse().unwrap();
    let mut interpreter = Interpreter::new();

    assert!(matches!(interpreter.interpret(&ast, FUEL), ExecStatus::Done(_)));

    let x = interpreter.get_variable(&"x".to_string());
    let y = interpreter.get_variable(&"y".to_string());
    assert!(matches!(x, Some(Value::Number(n)) if n.mantissa == whole(5)));
    assert!(matches!(y, Some(Value::Number(n)) if n.mantissa == whole(10)));
}

#[test]
fn test_interpreter_arithmetic() {
    let mut lexer = Lexer::new("let result = 3 + 4 * 2;".to_string());
    let tokens = lexer.tokenize().unwrap();
    let mut parser = Parser::new(tokens);
    let ast = parser.parse().unwrap();
    let mut interpreter = Interpreter::new();

    assert!(matches!(interpreter.interpret(&ast, FUEL), ExecStatus::Done(_)));

    // 3 + (4 * 2) = 11: multiplication binds tighter than addition
    let result = interpreter.get_variable(&"result".to_string());
    assert!(matches!(result, Some(Value::Number(n)) if n.mantissa == whole(11)));
}

#[test]
fn test_truthiness_rules() {
    let interp = Interpreter::new();
    assert!(!interp.is_truthy(&Value::Number(ferris::num::Num { mantissa: 0 })));
    assert!(interp.is_truthy(&Value::Number(ferris::num::Num { mantissa: 1 })));
    assert!(!interp.is_truthy(&Value::Str(String::new())));
    assert!(interp.is_truthy(&Value::Str("x".to_string())));
    assert!(interp.is_truthy(&Value::Boolean(true)));
    assert!(!interp.is_truthy(&Value::Boolean(false)));
}

#[test]
fn test_interpreter_comparison() {
    let mut lexer = Lexer::new("let result = 5 > 3;".to_string());
    let tokens = lexer.tokenize().unwrap();
    let mut parser = Parser::new(tokens);
    let ast = parser.parse().unwrap();
    let mut interpreter = Interpreter::new();

    assert!(matches!(interpreter.interpret(&ast, FUEL), ExecStatus::Done(_)));

    let result = interpreter.get_variable(&"result".to_string());
    assert!(matches!(result, Some(Value::Boolean(true))));
}

#[test]
fn test_full_program() {
    let program = "let x = 5; let y = x * 2;".to_string();

    let mut lexer = Lexer::new(program);
    let tokens = lexer.tokenize().unwrap();
    let mut parser = Parser::new(tokens);
    let ast = parser.parse().unwrap();
    let mut interpreter = Interpreter::new();

    assert!(matches!(interpreter.interpret(&ast, FUEL), ExecStatus::Done(_)));
}

#[test]
fn test_left_associativity() {
    let mut lexer = Lexer::new("let r = 10 - 3 - 2;".to_string());
    let tokens = lexer.tokenize().unwrap();
    let mut parser = Parser::new(tokens);
    let ast = parser.parse().unwrap();
    let mut interpreter = Interpreter::new();

    assert!(matches!(interpreter.interpret(&ast, FUEL), ExecStatus::Done(_)));

    // (10 - 3) - 2 = 5, not 10 - (3 - 2) = 9
    let r = interpreter.get_variable(&"r".to_string());
    assert!(matches!(r, Some(Value::Number(n)) if n.mantissa == whole(5)));
}

#[test]
fn test_undefined_variable_assignment() {
    let outcome = run_src("x = 1;");
    match outcome.status {
        RunStatus::RuntimeFailed(RuntimeError::UndefinedVariable(name)) => {
            assert_eq!(name, "x");
        },
        other => panic!("expected an undefined-variable failure, got {:?}", other),
    }
}

#[test]
fn test_undefined_variable_read() {
    let outcome = run_src("print(y);");
    match outcome.status {
        RunStatus::RuntimeFailed(RuntimeError::UndefinedVariable(name)) => {
            assert_eq!(name, "y");
        },
        other => panic!("expected an undefined-variable failure, got {:?}", other),
    }
    assert!(outcome.output.is_empty());
}

#[test]
fn test_division_by_zero() {
    let outcome = run_src("let a = 1 / 0;");
    assert!(matches!(outcome.status, RunStatus::RuntimeFailed(RuntimeError::DivisionByZero)));
}

#[test]
fn test_division_by_zero_fractional_literal() {
    let outcome = run_src("let a = 1 / 0.0;");
    assert!(matches!(outcome.status, RunStatus::RuntimeFailed(RuntimeError::DivisionByZero)));
}

#[test]
fn test_coercion_formatting() {
    assert_eq!(output_of("print(\"Count: \" + 5);"), vec!["Count: 5".to_string()]);
    assert_eq!(output_of("print(\"Pi: \" + 3.5);"), vec!["Pi: 3.5".to_string()]);
    assert_eq!(output_of("print(7 + \" wonders\");"), vec!["7 wonders".to_string()]);
}

#[test]
fn test_truthiness_if() {
    let out = output_of("let x = 0; if (x) { print(\"a\"); } else { print(\"b\"); }");
    assert_eq!(out, vec!["b".to_string()]);
}

#[test]
fn test_truthiness_empty_string() {
    let out = output_of("if (\"\") { print(\"a\"); } else { print(\"b\"); }");
    assert_eq!(out, vec!["b".to_string()]);
}

#[test]
fn test_while_loop() {
    let out = output_of("let x = 0; while (x < 3) { print(x); x = x + 1; }");
    assert_eq!(out, vec!["0".to_string(), "1".to_string(), "2".to_string()]);
}

#[test]
fn test_redeclaration_overwrites() {
    let out = output_of("let x = 1; let x = 2; print(x);");
    assert_eq!(out, vec!["2".to_string()]);
}

#[test]
fn test_flat_scope() {
    let out = output_of("let x = 1; { x = 5; } print(x);");
    assert_eq!(out, vec!["5".to_string()]);
}

#[test]
fn test_unicode_identifier() {
    // A non-ASCII letter starts and continues an identifier
    let out = output_of("let caf\u{e9} = 1; print(caf\u{e9});");
    assert_eq!(out, vec!["1".to_string()]);
    let out = output_of("let \u{b5} = 2; print(\u{b5});");
    assert_eq!(out, vec!["2".to_string()]);
}

#[test]
fn test_unicode_whitespace_skipped() {
    // U+00A0 (no-break space) is Unicode whitespace and separates tokens
    let out = output_of("let x\u{a0}=\u{a0}1;\u{a0}print(x);");
    assert_eq!(out, vec!["1".to_string()]);
}

#[test]
fn test_lex_error_unexpected_character() {
    let outcome = run_src("let a = $;");
    match outcome.status {
        RunStatus::LexFailed(e) => {
            assert_eq!(e.ch, '$');
            assert_eq!(e.line, 1);
        },
        other => panic!("expected a lexical failure, got {:?}", other),
    }
}

#[test]
fn test_lex_error_stray_bang() {
    let outcome = run_src("1 ! 2;");
    match outcome.status {
        RunStatus::LexFailed(e) => {
            assert_eq!(e.ch, '!');
        },
        other => panic!("expected a lexical failure, got {:?}", other),
    }
}

#[test]
fn test_parse_error_reports_line() {
    let outcome = run_src("let x = 1\nlet y = 2;");
    match outcome.status {
        RunStatus::ParseFailed(e) => {
            assert_eq!(e.line, 2);
        },
        other => panic!("expected a parse failure, got {:?}", other),
    }
    assert!(outcome.output.is_empty());
}

#[test]
fn test_number_display() {
    assert_eq!(output_of("print(3.5);"), vec!["3.5".to_string()]);
    assert_eq!(output_of("print(7);"), vec!["7".to_string()]);
    assert_eq!(output_of("print(-2.5);"), vec!["-2.5".to_string()]);
    assert_eq!(output_of("print(2.50);"), vec!["2.5".to_string()]);
}

#[test]
fn test_division_truncates_at_scale() {
    // 1 / 3 at six decimal places of fixed-point precision
    assert_eq!(output_of("print(1 / 3);"), vec!["0.333333".to_string()]);
    assert_eq!(output_of("print(10 / 4);"), vec!["2.5".to_string()]);
}

#[test]
fn test_malformed_number_is_zero() {
    // A digit run with two decimal points falls back to zero
    assert_eq!(output_of("print(1.2.3);"), vec!["0".to_string()]);
}

#[test]
fn test_string_escapes() {
    let out = output_of("print(\"a\\nb\\t\\\\\\\"\");");
    assert_eq!(out, vec!["a\nb\t\\\"".to_string()]);
}

#[test]
fn test_string_concat_and_equality() {
    assert_eq!(output_of("let s = \"a\" + \"b\"; print(s);"), vec!["ab".to_string()]);
    assert_eq!(output_of("print(\"a\" == \"a\");"), vec!["true".to_string()]);
    assert_eq!(output_of("print(\"a\" != \"b\");"), vec!["true".to_string()]);
}

#[test]
fn test_unary_negation() {
    assert_eq!(output_of("print(-5);"), vec!["-5".to_string()]);
    assert_eq!(output_of("print(- -5);"), vec!["5".to_string()]);
}

#[test]
fn test_invalid_operation_boolean_arithmetic() {
    let outcome = run_src("let a = (1 == 1) + 1;");
    assert!(matches!(outcome.status, RunStatus::RuntimeFailed(RuntimeError::InvalidOperation)));
}

#[test]
fn test_invalid_operation_string_minus() {
    let outcome = run_src("let a = \"x\" - \"y\";");
    assert!(matches!(outcome.status, RunStatus::RuntimeFailed(RuntimeError::InvalidOperation)));
}

#[test]
fn test_fuel_exhaustion_keeps_output() {
    let outcome = ferris::run("print(1); while (1) { print(2); }".to_string(), 6);
    assert!(matches!(outcome.status, RunStatus::Stopped));
    assert!(!outcome.output.is_empty());
    assert_eq!(outcome.output[0], "1");
}

#[test]
fn test_dangling_else_attaches_to_nearest_if() {
    let out = output_of("if (1) if (0) print(\"a\"); else print(\"b\");");
    assert_eq!(out, vec!["b".to_string()]);
}

#[test]
fn test_error_keeps_prior_output() {
    let outcome = run_src("print(\"before\"); print(missing);");
    assert!(matches!(
        outcome.status,
        RunStatus::RuntimeFailed(RuntimeError::UndefinedVariable(_))
    ));
    assert_eq!(outcome.output, vec!["before".to_string()]);
}

#[test]
fn test_saturating_literal() {
    // A literal beyond the representable range saturates instead of failing
    let outcome = run_src("let big = 99999999999999999999999999; print(big > 1);");
    assert!(matches!(outcome.status, RunStatus::Finished));
    assert_eq!(outcome.output, vec!["true".to_string()]);
}

#[test]
fn test_parenthesized_expression() {
    assert_eq!(output_of("print((3 + 4) * 2);"), vec!["14".to_string()]);
}

#[test]
fn test_epsilon_style_equality_is_exact() {
    assert_eq!(output_of("print(0.1 + 0.2 == 0.3);"), vec!["true".to_string()]);
    assert_eq!(output_of("print(1 == 2);"), vec!["false".to_string()]);
}
