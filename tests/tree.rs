use bad_basic::ast::{AstNode, AstTypes};
use bad_basic::interpreter::{EvalError, Interpreter, Output};
use bad_basic::parser::Parser;
use bad_basic::program::Program;
use bad_basic::tokenizer::Tokenizer;

fn leaf(text: &str, kind: AstTypes) -> AstNode {
    AstNode::new(text.to_string(), kind)
}

fn empty_interpreter() -> Interpreter {
    Interpreter::new_from_map(Program::new())
}

#[test]
fn builders_attach_children() {
    let mut node = leaf("+", AstTypes::OP);
    node.set_left(leaf("1", AstTypes::NUMBER));
    node.set_right(leaf("2", AstTypes::NUMBER));
    assert_eq!(node.left.as_ref().unwrap().value, "1");
    assert_eq!(node.right.as_ref().unwrap().value, "2");
    let mut call = leaf("PRINT", AstTypes::FUNC);
    call.add_args(leaf("3", AstTypes::NUMBER));
    assert_eq!(call.args.len(), 1);
    call.set_args(vec![Box::new(leaf("4", AstTypes::NUMBER)), Box::new(leaf("5", AstTypes::NUMBER))]);
    assert_eq!(call.args.len(), 2);
    assert_eq!(call.args[0].value, "4");
}

#[test]
fn eval_hand_built_tree() {
    let mut interp = empty_interpreter();
    let mut sum = leaf("-", AstTypes::OP);
    sum.set_left(leaf("7", AstTypes::NUMBER));
    sum.set_right(leaf("10", AstTypes::NUMBER));
    assert_eq!(interp.eval(&sum), Ok(Some(-3)));
    let mut assign = leaf("=", AstTypes::ASSIGN);
    assign.set_left(leaf("A", AstTypes::IDENT));
    assign.set_right(sum);
    assert_eq!(interp.eval(&assign), Ok(Some(-3)));
    assert_eq!(interp.eval(&leaf("A", AstTypes::IDENT)), Ok(Some(-3)));
    let mut print = leaf("PRINT", AstTypes::FUNC);
    print.add_args(leaf("A", AstTypes::IDENT));
    assert_eq!(interp.eval(&print), Ok(None));
    assert!(matches!(interp.get_output()[0], Output::Printed(-3)));
}

#[test]
fn eval_malformed_trees() {
    let mut interp = empty_interpreter();
    assert_eq!(interp.eval(&leaf("+", AstTypes::OP)), Err(EvalError::MalformedNode));
    assert_eq!(interp.eval(&leaf("PRINT", AstTypes::FUNC)), Err(EvalError::MalformedNode));
    assert_eq!(interp.eval(&leaf("x1", AstTypes::NUMBER)), Err(EvalError::MalformedNumber));
    assert_eq!(interp.eval(&leaf("s", AstTypes::STRING)), Ok(None));
}

#[test]
fn interpreter_from_parsed_table() {
    let mut tokenizer = Tokenizer::new_from_stream("5 LET X = 1\n6 X + 1".to_string());
    tokenizer.tokenize().unwrap();
    let mut parser = Parser::new(tokenizer);
    parser.parse().unwrap();
    let mut interp = Interpreter::new_from_map(parser.into_program());
    assert_eq!(interp.run(), Ok(2));
}

#[test]
fn empty_table_runs_to_zero() {
    let mut interp = empty_interpreter();
    assert_eq!(interp.run(), Ok(0));
}
