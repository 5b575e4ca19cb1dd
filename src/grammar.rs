use vstd::prelude::*;
use crate::ast::Expr;
use crate::tokenizer::{Token, TokenTypes};

verus! {

/// A number literal or an identifier at `p`.
pub open spec fn operand(b: Seq<Token>, p: int) -> Option<(Expr, int)> {
    if 0 <= p < b.len() && b[p].token_type == TokenTypes::NUMBER {
        Some((Expr::Num(b[p].value@), p + 1))
    } else if 0 <= p < b.len() && b[p].token_type == TokenTypes::STRING {
        Some((Expr::Ident(b[p].value@), p + 1))
    } else {
        None
    }
}

/// `<operand> <op> <expr>`: a chain of operations, grouped to the right.
pub open spec fn term(b: Seq<Token>, p: int) -> Option<(Expr, int)>
    decreases b.len() - p, 0int,
{
    if 0 <= p && p + 1 < b.len() && operand(b, p) is Some && b[p + 1].token_type
        == TokenTypes::OP {
        match expr(b, p + 2) {
            Some((r, e)) => Some(
                (
                    Expr::BinOp(b[p + 1].value@, Box::new(operand(b, p).unwrap().0), Box::new(r)),
                    e,
                ),
            ),
            None => None,
        }
    } else {
        None
    }
}

/// A term, or else a single operand.
pub open spec fn expr(b: Seq<Token>, p: int) -> Option<(Expr, int)>
    decreases b.len() - p, 1int,
{
    match term(b, p) {
        Some(x) => Some(x),
        None => operand(b, p),
    }
}

/// `LET <ident> = <expr>`.
pub open spec fn assign(b: Seq<Token>, p: int) -> Option<(Expr, int)> {
    if 0 <= p && p + 2 < b.len() && b[p].token_type == TokenTypes::STRING && b[p].value@
        == "LET"@ && b[p + 1].token_type == TokenTypes::STRING && b[p + 2].token_type
        == TokenTypes::ASSIGN {
        match expr(b, p + 3) {
            Some((r, e)) => Some((Expr::Assign(b[p + 1].value@, Box::new(r)), e)),
            None => None,
        }
    } else {
        None
    }
}

/// `<ident> ( <args>`.
pub open spec fn call(b: Seq<Token>, p: int) -> Option<(Expr, int)>
    decreases b.len() - p, 3int,
{
    if 0 <= p && p + 1 < b.len() && b[p].token_type == TokenTypes::STRING && b[p + 1].token_type
        == TokenTypes::LPAREN {
        match args(b, p + 2) {
            Some((a, e)) => Some((Expr::Call(b[p].value@, a), e)),
            None => None,
        }
    } else {
        None
    }
}

/// Statements separated by commas up to a closing parenthesis.
pub open spec fn args(b: Seq<Token>, q: int) -> Option<(Seq<Expr>, int)>
    decreases b.len() - q, 5int,
{
    if 0 <= q < b.len() {
        if b[q].token_type == TokenTypes::RPAREN {
            Some((Seq::empty(), q + 1))
        } else {
            match stmt(b, q) {
                Some((a, e)) => {
                    if q < e < b.len() {
                        if b[e].token_type == TokenTypes::RPAREN {
                            Some((seq![a], e + 1))
                        } else if b[e].token_type == TokenTypes::COMMA {
                            match args(b, e + 1) {
                                Some((rest, f)) => Some((seq![a] + rest, f)),
                                None => None,
                            }
                        } else {
                            None
                        }
                    } else {
                        None
                    }
                },
                None => None,
            }
        }
    } else {
        None
    }
}

/// A statement: the first of assignment, term, call and operand that matches.
pub open spec fn stmt(b: Seq<Token>, p: int) -> Option<(Expr, int)>
    decreases b.len() - p, 4int,
{
    match assign(b, p) {
        Some(x) => Some(x),
        None => match term(b, p) {
            Some(x) => Some(x),
            None => match call(b, p) {
                Some(x) => Some(x),
                None => operand(b, p),
            },
        },
    }
}

} // verus!
