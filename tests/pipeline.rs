use bad_basic::interpreter::{EvalError, Interpreter, Output};
use bad_basic::parser::{ParseError, Parser};
use bad_basic::tokenizer::{class_of, Token, TokenTypes, Tokenizer, TokenizeError};

fn parser_for(src: &str) -> Parser {
    let mut tokenizer = Tokenizer::new_from_stream(src.to_string());
    tokenizer.tokenize().expect("source should tokenize");
    let mut parser = Parser::new(tokenizer);
    parser.parse().expect("source should parse");
    parser
}

fn interpreter_for(src: &str) -> Interpreter {
    Interpreter::new(parser_for(src))
}

fn var(interp: &Interpreter, name: &str) -> Option<i32> {
    interp.get_variable(&name.to_string())
}

#[test]
fn let_then_print_prints_value_and_returns_zero() {
    let mut interp = interpreter_for("10 LET X = 42\n20 PRINT(X)");
    assert_eq!(interp.run(), Ok(0));
    let out = interp.get_output();
    assert_eq!(out.len(), 1);
    assert!(matches!(out[0], Output::Printed(42)));
}

#[test]
fn sum_of_two_variables() {
    let mut interp = interpreter_for("10 LET X = 5\n20 LET Y = 3\n30 LET Z = X + Y");
    assert_eq!(interp.run(), Ok(8));
    assert_eq!(var(&interp, "Z"), Some(8));
    assert_eq!(var(&interp, "X"), Some(5));
    assert_eq!(var(&interp, "Y"), Some(3));
}

#[test]
fn subtraction_chain_groups_to_the_right() {
    let mut interp = interpreter_for("10 LET X = 10 - 2 - 3");
    assert_eq!(interp.run(), Ok(11));
    assert_eq!(var(&interp, "X"), Some(11));
    let mut other = interpreter_for("10 LET X = 10 - 4 - 2");
    assert_eq!(other.run(), Ok(8));
}

#[test]
fn undefined_variable_is_an_error() {
    let mut interp = interpreter_for("10 PRINT(UNDEFINED)");
    assert_eq!(interp.run(), Err(EvalError::VariableNotFound));
    assert_eq!(interp.get_output().len(), 0);
}

#[test]
fn unknown_function_is_reported_and_run_continues() {
    let mut interp = interpreter_for("10 FOO(1)\n20 LET Y = 7");
    assert_eq!(interp.run(), Ok(7));
    let out = interp.get_output();
    assert_eq!(out.len(), 1);
    match &out[0] {
        Output::UnknownFunction(name) => assert_eq!(name, "FOO"),
        other => panic!("unexpected output {:?}", other),
    }
}

#[test]
fn reparsed_label_replaces_earlier_statement() {
    let mut first = interpreter_for("10 LET X = 1");
    assert_eq!(first.run(), Ok(1));
    let mut interp = interpreter_for("10 LET X = 1\n20 PRINT(X)");
    interp.add_parser_data(parser_for("10 LET X = 2"));
    assert_eq!(interp.run(), Ok(0));
    assert_eq!(var(&interp, "X"), Some(2));
    assert!(matches!(interp.get_output()[0], Output::Printed(2)));
}

#[test]
fn same_label_twice_in_one_source_keeps_the_later() {
    let parser = parser_for("10 LET X = 1\n10 LET X = 9");
    assert_eq!(parser.get_lines().len(), 1);
    let mut interp = Interpreter::new(parser);
    assert_eq!(interp.run(), Ok(9));
}

#[test]
fn labels_run_in_numeric_order() {
    let mut interp = interpreter_for("10 LET X = 2\n2 LET X = 1");
    assert_eq!(interp.run(), Ok(2));
    assert_eq!(var(&interp, "X"), Some(2));
    let parser = parser_for("10 LET X = 2\n2 LET X = 1");
    let labels: Vec<u64> = parser.get_lines().iter().map(|l| l.0).collect();
    assert_eq!(labels, vec![2, 10]);
}

#[test]
fn token_values_concatenate_to_source() {
    let src = "10 LET X = 5\n20 PRINT(X, 3)";
    let mut tokenizer = Tokenizer::new_from_stream(src.to_string());
    assert_eq!(tokenizer.tokenize(), Ok(()));
    let joined: String = tokenizer.get_tokens().iter().map(|t| t.value.as_str()).collect();
    assert_eq!(joined, src);
    assert!(tokenizer.is_eos());
}

#[test]
fn tokenizer_merges_runs_of_one_class() {
    let mut tokenizer = Tokenizer::new_from_stream("123ab  =+-(".to_string());
    assert_eq!(tokenizer.tokenize(), Ok(()));
    let toks = tokenizer.get_tokens();
    let kinds: Vec<TokenTypes> = toks.iter().map(|t| t.token_type).collect();
    assert_eq!(
        kinds,
        vec![
            TokenTypes::NUMBER,
            TokenTypes::STRING,
            TokenTypes::WHITESPACE,
            TokenTypes::ASSIGN,
            TokenTypes::OP,
            TokenTypes::LPAREN
        ]
    );
    let values: Vec<&str> = toks.iter().map(|t| t.value.as_str()).collect();
    assert_eq!(values, vec!["123", "ab", "  ", "=", "+-", "("]);
}

#[test]
fn tokenizer_classifies_digits_and_word_characters() {
    let mut tokenizer = Tokenizer::new_from_stream("7_x9\n,)".to_string());
    assert_eq!(tokenizer.tokenize(), Ok(()));
    let toks = tokenizer.get_tokens();
    let kinds: Vec<TokenTypes> = toks.iter().map(|t| t.token_type).collect();
    assert_eq!(
        kinds,
        vec![
            TokenTypes::NUMBER,
            TokenTypes::STRING,
            TokenTypes::NUMBER,
            TokenTypes::LINEBREAK,
            TokenTypes::COMMA,
            TokenTypes::RPAREN
        ]
    );
}

#[test]
fn tokenizer_rejects_unknown_character() {
    let mut tokenizer = Tokenizer::new_from_stream("10 LET X = 5$".to_string());
    assert_eq!(tokenizer.tokenize(), Err(TokenizeError { index: 12 }));
    assert_eq!(tokenizer.get_tokens().len(), 0);
}

#[test]
fn empty_source_has_no_tokens() {
    let mut tokenizer = Tokenizer::new_empty();
    assert_eq!(tokenizer.tokenize(), Ok(()));
    assert_eq!(tokenizer.get_tokens().len(), 0);
    let mut interp = Interpreter::new(Parser::new(tokenizer));
    assert_eq!(interp.run(), Ok(0));
}

#[test]
fn concat_and_clear_tokens() {
    let mut a = Tokenizer::new_from_stream("10 X".to_string());
    a.tokenize().unwrap();
    let mut b = Tokenizer::new_from_stream("\n20 Y".to_string());
    b.tokenize().unwrap();
    let mut more: Vec<Token> = b
        .get_tokens()
        .iter()
        .map(|t| Token { value: t.value.clone(), token_type: t.token_type })
        .collect();
    a.concat_tokens(&mut more);
    assert!(more.is_empty());
    assert_eq!(a.get_tokens().len(), 7);
    let mut parser = Parser::new(a);
    assert_eq!(parser.parse(), Ok(()));
    assert_eq!(parser.get_lines().len(), 2);
    let mut c = Tokenizer::new_from_stream("1".to_string());
    c.tokenize().unwrap();
    c.clear();
    assert_eq!(c.get_tokens().len(), 0);
}

fn parse_error(src: &str) -> ParseError {
    let mut tokenizer = Tokenizer::new_from_stream(src.to_string());
    tokenizer.tokenize().unwrap();
    let mut parser = Parser::new(tokenizer);
    parser.parse().unwrap_err()
}

#[test]
fn missing_line_number() {
    assert_eq!(parse_error("LET X = 5"), ParseError::MissingLineNumber);
    assert_eq!(parse_error("10"), ParseError::MissingLineNumber);
}

#[test]
fn line_number_too_large() {
    assert_eq!(parse_error("99999999999999999999 X"), ParseError::InvalidLineNumber);
}

#[test]
fn malformed_assignment() {
    assert_eq!(parse_error("10 LET X"), ParseError::MalformedAssignment);
    assert_eq!(parse_error("10 LET X = 1 2"), ParseError::MalformedAssignment);
}

#[test]
fn no_rule_matched() {
    assert_eq!(parse_error("10 = 5"), ParseError::NoRuleMatched);
    assert_eq!(parse_error("10 X Y"), ParseError::NoRuleMatched);
}

#[test]
fn get_number_reads_current_token() {
    let mut tokenizer = Tokenizer::new_from_stream("10 X".to_string());
    tokenizer.tokenize().unwrap();
    let parser = Parser::new(tokenizer);
    assert_eq!(parser.get_number(), Some("10".to_string()));
    let mut t2 = Tokenizer::new_from_stream("X".to_string());
    t2.tokenize().unwrap();
    assert_eq!(Parser::new(t2).get_number(), None);
}

#[test]
fn unsupported_operator() {
    let mut interp = interpreter_for("10 X * 2");
    assert_eq!(interp.run(), Err(EvalError::UnsupportedOperator));
}

#[test]
fn sum_overflow() {
    let mut interp = interpreter_for("10 2147483647 + 1");
    assert_eq!(interp.run(), Err(EvalError::Overflow));
    let mut ok = interpreter_for("10 2147483646 + 1");
    assert_eq!(ok.run(), Ok(2147483647));
}

#[test]
fn number_out_of_range() {
    let mut interp = interpreter_for("10 99999999999");
    assert_eq!(interp.run(), Err(EvalError::MalformedNumber));
}

#[test]
fn print_of_print_has_no_value() {
    let mut interp = interpreter_for("10 PRINT(PRINT(1) )");
    assert_eq!(interp.run(), Err(EvalError::NoValue));
    assert!(matches!(interp.get_output()[0], Output::Printed(1)));
}

#[test]
fn run_line_does_not_advance() {
    let mut interp = interpreter_for("10 LET X = 4\n20 LET X = X + 1");
    assert_eq!(interp.run_line(), Ok(4));
    assert_eq!(interp.run_line(), Ok(4));
    assert_eq!(interp.run(), Ok(5));
}

#[test]
fn call_with_several_arguments_parses() {
    let parser = parser_for("10 PRINT(1, X + 2, 3)");
    let lines = parser.get_lines();
    assert_eq!(lines.len(), 1);
    assert_eq!(lines[0].1.args.len(), 3);
}

#[test]
fn class_of_follows_precedence() {
    assert_eq!(class_of('7', true, true), Some(TokenTypes::NUMBER));
    assert_eq!(class_of('=', false, false), Some(TokenTypes::ASSIGN));
    assert_eq!(class_of('-', false, false), Some(TokenTypes::OP));
    assert_eq!(class_of('\n', false, false), Some(TokenTypes::LINEBREAK));
    assert_eq!(class_of('X', false, true), Some(TokenTypes::STRING));
    assert_eq!(class_of(' ', false, false), Some(TokenTypes::WHITESPACE));
    assert_eq!(class_of('(', false, false), Some(TokenTypes::LPAREN));
    assert_eq!(class_of(')', false, false), Some(TokenTypes::RPAREN));
    assert_eq!(class_of(',', false, false), Some(TokenTypes::COMMA));
    assert_eq!(class_of('$', false, false), None);
}
