use vstd::prelude::*;
use vstd::string::*;
use crate::ast::{AstNode, AstTypes, Expr, denotes};
use crate::grammar::{operand, term, expr, assign, call, args, stmt};
use crate::program::{Program, table_of};
use crate::decimal::{decimal, decimal_within, parse_decimal};
use crate::tokenizer::{chars_of, Token, TokenTypes, Tokenizer};

verus! {

broadcast use crate::program::lemma_program_table;

/// The tokens at the given positions, in order.
pub open spec fn picked(toks: Seq<Token>, pos: Seq<usize>) -> Seq<Token> {
    pos.map_values(|i: usize| toks[i as int])
}

pub open spec fn in_bounds(toks: Seq<Token>, pos: Seq<usize>) -> bool {
    forall|k: int| 0 <= k < pos.len() ==> #[trigger] pos[k] < toks.len()
}

/// An executable parse result stands for the grammar's result.
pub open spec fn agrees(r: Option<(AstNode, usize)>, s: Option<(Expr, int)>) -> bool {
    match r {
        Some((n, e)) => s matches Some((x, f)) && f == e && denotes(n, x),
        None => s is None,
    }
}

/// Parsed arguments stand for the grammar's result.
pub open spec fn agrees_args(r: Option<(Vec<Box<AstNode>>, usize)>, s: Option<(Seq<Expr>, int)>) -> bool {
    match r {
        Some((v, e)) => s matches Some((x, f)) && f == e && v@.len() == x.len() && forall|i: int|
            0 <= i < x.len() ==> denotes(*#[trigger] v@[i], x[i]),
        None => s is None,
    }
}

/// Why a line could not be parsed.
#[derive(Debug, Clone, Copy, PartialEq, Eq, Structural)]
pub enum ParseError {
    /// The line does not begin with a number followed by a space.
    MissingLineNumber,
    /// The line number does not fit in a `u64`, or is not written in ASCII digits.
    InvalidLineNumber,
    /// The line begins with `LET` but is no assignment.
    MalformedAssignment,
    /// No statement form matches the whole line.
    NoRuleMatched,
}

/// The tokens other than whitespace, in order.
pub open spec fn significant(ts: Seq<Token>) -> Seq<Token>
    decreases ts.len(),
{
    if ts.len() == 0 {
        ts
    } else if ts.last().token_type == TokenTypes::WHITESPACE {
        significant(ts.drop_last())
    } else {
        significant(ts.drop_last()).push(ts.last())
    }
}

/// The statement of one line: a number, a space, then a statement that spans the
/// rest of the line, spaces aside.
pub open spec fn parse_line_spec(line: Seq<Token>) -> Result<(u64, Expr), ParseError> {
    if line.len() < 2 || line[0].token_type != TokenTypes::NUMBER || line[1].token_type
        != TokenTypes::WHITESPACE {
        Err(ParseError::MissingLineNumber)
    } else if !decimal_within(line[0].value@, u64::MAX as nat) {
        Err(ParseError::InvalidLineNumber)
    } else {
        let b = significant(line.subrange(2, line.len() as int));
        if stmt(b, 0) is Some && stmt(b, 0).unwrap().1 == b.len() {
            Ok((decimal(line[0].value@) as u64, stmt(b, 0).unwrap().0))
        } else if b.len() > 0 && b[0].token_type == TokenTypes::STRING && b[0].value@ == "LET"@ {
            Err(ParseError::MalformedAssignment)
        } else {
            Err(ParseError::NoRuleMatched)
        }
    }
}

/// The position of the first line break at or after `lo`, or the end.
pub open spec fn line_end(ts: Seq<Token>, lo: int) -> int
    decreases ts.len() - lo,
{
    if lo < 0 || lo >= ts.len() || ts[lo].token_type == TokenTypes::LINEBREAK {
        lo
    } else {
        line_end(ts, lo + 1)
    }
}

/// The table after parsing every nonempty line from `lo` on into `m`, a later
/// line replacing an earlier one of the same number; or the first line's error.
pub open spec fn parse_from(ts: Seq<Token>, lo: int, m: Map<u64, Expr>) -> Result<
    Map<u64, Expr>,
    ParseError,
>
    decreases ts.len() - lo,
{
    if lo < 0 || lo >= ts.len() {
        Ok(m)
    } else {
        let hi = line_end(ts, lo);
        if hi < lo || hi > ts.len() {
            Ok(m)
        } else if hi == lo {
            parse_from(ts, lo + 1, m)
        } else {
            match parse_line_spec(ts.subrange(lo, hi)) {
                Ok((k, e)) => if hi >= ts.len() {
                    Ok(m.insert(k, e))
                } else {
                    parse_from(ts, hi + 1, m.insert(k, e))
                },
                Err(err) => Err(err),
            }
        }
    }
}

/// Parses lines of tokens into a table from line label to statement.
pub struct Parser {
    tokens: Vec<Token>,
    line_map: Program,
    index: usize,
}

impl Parser {
    pub closed spec fn token_seq(&self) -> Seq<Token> {
        self.tokens@
    }

    /// The statements parsed so far, by label.
    pub closed spec fn program(&self) -> Map<u64, Expr> {
        self.line_map.program()
    }

    /// The parsed lines, in label order.
    pub closed spec fn entries(&self) -> Seq<(u64, AstNode)> {
        self.line_map.entries()
    }

    pub closed spec fn position(&self) -> int {
        self.index as int
    }

    pub closed spec fn wf(&self) -> bool {
        self.line_map.wf()
    }

    /// The lines of a well-formed parser are exactly its statements, in label order.
    pub proof fn lemma_table(&self)
        requires
            self.wf(),
        ensures
            table_of(self.entries(), self.program()),
    {
    }

    /// A parser over the tokens that the tokenizer has produced.
    pub fn new(tokenizer: Tokenizer) -> (r: Parser)
        ensures
            r.wf(),
            table_of(r.entries(), r.program()),
            r.entries().len() == 0,
            r.token_seq() == tokenizer.token_seq(),
            r.position() == 0,
            r.program() == Map::<u64, Expr>::empty(),
    {
        Parser { tokens: tokenizer.into_tokens(), line_map: Program::new(), index: 0 }
    }

    /// The table of lines, in label order.
    pub fn get_lines(&self) -> (r: &Vec<(u64, AstNode)>)
        ensures
            r@ == self.entries(),
    {
        self.line_map.lines()
    }

    /// The table of lines, taken out of the parser.
    pub fn into_program(self) -> (r: Program)
        requires
            self.wf(),
        ensures
            r.wf(),
            table_of(r.entries(), r.program()),
            r.program() == self.program(),
            r.entries() == self.entries(),
    {
        self.line_map
    }

    fn eos(&self) -> (r: bool)
        ensures
            r == (self.index >= self.tokens@.len()),
    {
        self.index >= self.tokens.len()
    }

    fn get_current(&self) -> (r: &Token)
        requires
            self.index < self.tokens@.len(),
        ensures
            *r == self.tokens@[self.index as int],
    {
        &self.tokens[self.index]
    }

    /// The text of the current token, where it is a number.
    pub fn get_number(&self) -> (r: Option<String>)
        ensures
            r is Some == (self.position() < self.token_seq().len() && self.token_seq()[self.position()].token_type == TokenTypes::NUMBER),
            r matches Some(s) ==> s@ == self.token_seq()[self.position()].value@,
    {
        if self.eos() {
            return None;
        }
        let t = self.get_current();
        if t.token_type == TokenTypes::NUMBER {
            Some(t.value.clone())
        } else {
            None
        }
    }

    /// How many tokens stand from `lo` to the next line break or the end.
    fn get_line_dist(&self, lo: usize) -> (d: usize)
        requires
            lo <= self.tokens@.len(),
        ensures
            lo + d == line_end(self.tokens@, lo as int),
            lo + d <= self.tokens@.len(),
    {
        let mut j = lo;
        while j < self.tokens.len() && self.tokens[j].token_type != TokenTypes::LINEBREAK
            invariant
                lo <= j <= self.tokens@.len(),
                line_end(self.tokens@, lo as int) == line_end(self.tokens@, j as int),
            decreases self.tokens@.len() - j,
        {
            j = j + 1;
        }
        j - lo
    }

    /// The positions of the tokens from `lo` to `hi` that are not whitespace.
    fn significant_positions(&self, lo: usize, hi: usize) -> (pos: Vec<usize>)
        requires
            lo <= hi <= self.tokens@.len(),
        ensures
            in_bounds(self.tokens@, pos@),
            picked(self.tokens@, pos@) == significant(self.tokens@.subrange(lo as int, hi as int)),
    {
        let mut pos: Vec<usize> = Vec::new();
        let mut j = lo;
        while j < hi
            invariant
                lo <= j <= hi <= self.tokens@.len(),
                in_bounds(self.tokens@, pos@),
                picked(self.tokens@, pos@) == significant(self.tokens@.subrange(lo as int, j as int)),
            decreases hi - j,
        {
            proof {
                assert(self.tokens@.subrange(lo as int, j + 1).drop_last() =~= self.tokens@.subrange(lo as int, j as int));
            }
            if self.tokens[j].token_type != TokenTypes::WHITESPACE {
                let ghost before = pos@;
                pos.push(j);
                proof {
                    assert(picked(self.tokens@, pos@) =~= picked(self.tokens@, before).push(self.tokens@[j as int]));
                }
            }
            j = j + 1;
        }
        pos
    }

    /// The label and statement of the line from `lo` to `hi`.
    fn parse_line(&self, lo: usize, hi: usize) -> (r: Result<(u64, AstNode), ParseError>)
        requires
            lo <= hi <= self.tokens@.len(),
        ensures
            match r {
                Ok((k, n)) => parse_line_spec(self.tokens@.subrange(lo as int, hi as int)) matches Ok((k2, e)) && k == k2 && denotes(n, e),
                Err(err) => parse_line_spec(self.tokens@.subrange(lo as int, hi as int)) == Err::<(u64, Expr), ParseError>(err),
            },
    {
        let ghost line = self.tokens@.subrange(lo as int, hi as int);
        if hi - lo < 2 || self.tokens[lo].token_type != TokenTypes::NUMBER || self.tokens[lo + 1].token_type != TokenTypes::WHITESPACE {
            return Err(ParseError::MissingLineNumber);
        }
        let digits = chars_of(self.tokens[lo].value.as_str());
        let label = match parse_decimal(&digits, u64::MAX) {
            Some(v) => v,
            None => {
                return Err(ParseError::InvalidLineNumber);
            },
        };
        let pos = self.significant_positions(lo + 2, hi);
        proof {
            assert(line.subrange(2, line.len() as int) =~= self.tokens@.subrange(lo + 2, hi as int));
        }
        match self.parse_curr(&pos, 0) {
            Some((n, e)) => {
                if e == pos.len() {
                    return Ok((label, n));
                }
            },
            None => {},
        }
        if self.get_keyword_type(&pos, 0).is_some() {
            Err(ParseError::MalformedAssignment)
        } else {
            Err(ParseError::NoRuleMatched)
        }
    }

    fn eat(&self, pos: &Vec<usize>, p: usize, token_type: TokenTypes) -> (r: bool)
        requires
            in_bounds(self.tokens@, pos@),
        ensures
            r == (p < pos@.len() && picked(self.tokens@, pos@)[p as int].token_type == token_type),
    {
        p < pos.len() && self.tokens[pos[p]].token_type == token_type
    }

    fn parse_number(&self, pos: &Vec<usize>, p: usize) -> (r: Option<AstNode>)
        requires
            in_bounds(self.tokens@, pos@),
        ensures
            r is Some == (p < pos@.len() && picked(self.tokens@, pos@)[p as int].token_type
                == TokenTypes::NUMBER),
            r matches Some(n) ==> denotes(n, Expr::Num(picked(self.tokens@, pos@)[p as int].value@)),
    {
        if self.eat(pos, p, TokenTypes::NUMBER) {
            Some(AstNode::new(self.tokens[pos[p]].value.clone(), AstTypes::NUMBER))
        } else {
            None
        }
    }

    fn parse_ident(&self, pos: &Vec<usize>, p: usize) -> (r: Option<AstNode>)
        requires
            in_bounds(self.tokens@, pos@),
        ensures
            r is Some == (p < pos@.len() && picked(self.tokens@, pos@)[p as int].token_type
                == TokenTypes::STRING),
            r matches Some(n) ==> denotes(n, Expr::Ident(picked(self.tokens@, pos@)[p as int].value@)),
    {
        if self.eat(pos, p, TokenTypes::STRING) {
            Some(AstNode::new(self.tokens[pos[p]].value.clone(), AstTypes::IDENT))
        } else {
            None
        }
    }

    fn parse_operand(&self, pos: &Vec<usize>, p: usize) -> (r: Option<(AstNode, usize)>)
        requires
            in_bounds(self.tokens@, pos@),
        ensures
            agrees(r, operand(picked(self.tokens@, pos@), p as int)),
            r matches Some((_, e)) ==> e == p + 1 && e <= pos@.len(),
    {
        if p >= pos.len() {
            return None;
        }
        match self.parse_number(pos, p) {
            Some(n) => Some((n, p + 1)),
            None => match self.parse_ident(pos, p) {
                Some(n) => Some((n, p + 1)),
                None => None,
            },
        }
    }

    fn parse_op(&self, pos: &Vec<usize>, p: usize) -> (r: Option<String>)
        requires
            in_bounds(self.tokens@, pos@),
        ensures
            r is Some == (p < pos@.len() && picked(self.tokens@, pos@)[p as int].token_type
                == TokenTypes::OP),
            r matches Some(s) ==> s@ == picked(self.tokens@, pos@)[p as int].value@,
    {
        if self.eat(pos, p, TokenTypes::OP) {
            Some(self.tokens[pos[p]].value.clone())
        } else {
            None
        }
    }

    /// Whether the token at `p` is the assignment keyword.
    fn get_keyword_type(&self, pos: &Vec<usize>, p: usize) -> (r: Option<AstTypes>)
        requires
            in_bounds(self.tokens@, pos@),
        ensures
            r is Some == (p < pos@.len() && picked(self.tokens@, pos@)[p as int].token_type
                == TokenTypes::STRING && picked(self.tokens@, pos@)[p as int].value@ == "LET"@),
            r matches Some(t) ==> t == AstTypes::ASSIGN,
    {
        if self.eat(pos, p, TokenTypes::STRING) && self.tokens[pos[p]].value == String::from_str("LET") {
            Some(AstTypes::ASSIGN)
        } else {
            None
        }
    }

    fn parse_term(&self, pos: &Vec<usize>, p: usize) -> (r: Option<(AstNode, usize)>)
        requires
            in_bounds(self.tokens@, pos@),
            p <= pos@.len(),
        ensures
            agrees(r, term(picked(self.tokens@, pos@), p as int)),
            r matches Some((_, e)) ==> p < e <= pos@.len(),
        decreases pos@.len() - p, 0int,
    {
        if pos.len() - p < 2 {
            return None;
        }
        let left = match self.parse_operand(pos, p) {
            Some((n, _)) => n,
            None => {
                return None;
            },
        };
        let op = match self.parse_op(pos, p + 1) {
            Some(o) => o,
            None => {
                return None;
            },
        };
        match self.parse_rhs(pos, p + 2) {
            Some((right, e)) => {
                let mut node = AstNode::new(op, AstTypes::OP);
                node.set_left(left);
                node.set_right(right);
                Some((node, e))
            },
            None => None,
        }
    }

    /// A term, or else a single operand.
    fn parse_rhs(&self, pos: &Vec<usize>, p: usize) -> (r: Option<(AstNode, usize)>)
        requires
            in_bounds(self.tokens@, pos@),
            p <= pos@.len(),
        ensures
            agrees(r, expr(picked(self.tokens@, pos@), p as int)),
            r matches Some((_, e)) ==> p < e <= pos@.len(),
        decreases pos@.len() - p, 1int,
    {
        match self.parse_term(pos, p) {
            Some(x) => Some(x),
            None => self.parse_operand(pos, p),
        }
    }

    fn parse_assign(&self, pos: &Vec<usize>, p: usize) -> (r: Option<(AstNode, usize)>)
        requires
            in_bounds(self.tokens@, pos@),
            p <= pos@.len(),
        ensures
            agrees(r, assign(picked(self.tokens@, pos@), p as int)),
            r matches Some((_, e)) ==> p < e <= pos@.len(),
    {
        if pos.len() - p < 3 || self.get_keyword_type(pos, p).is_none() {
            return None;
        }
        let left = match self.parse_ident(pos, p + 1) {
            Some(n) => n,
            None => {
                return None;
            },
        };
        if !self.eat(pos, p + 2, TokenTypes::ASSIGN) {
            return None;
        }
        match self.parse_rhs(pos, p + 3) {
            Some((right, e)) => {
                let mut node = AstNode::new(String::from_str("="), AstTypes::ASSIGN);
                proof {
                    reveal_strlit("=");
                }
                node.set_left(left);
                node.set_right(right);
                proof {
                    let b = picked(self.tokens@, pos@);
                    assert(node.value@ == seq!['=']);
                    assert(expr(b, p + 3) is Some);
                    assert(assign(b, p as int) is Some);
                    let x = assign(b, p as int).unwrap().0;
                    assert(x == Expr::Assign(b[p + 1].value@, Box::new(expr(b, p + 3).unwrap().0)));
                    assert(denotes(node, x));
                }
                Some((node, e))
            },
            None => None,
        }
    }

    fn parse_func(&self, pos: &Vec<usize>, p: usize) -> (r: Option<(AstNode, usize)>)
        requires
            in_bounds(self.tokens@, pos@),
            p <= pos@.len(),
        ensures
            agrees(r, call(picked(self.tokens@, pos@), p as int)),
            r matches Some((_, e)) ==> p < e <= pos@.len(),
        decreases pos@.len() - p, 3int,
    {
        if pos.len() - p < 2 || !self.eat(pos, p, TokenTypes::STRING) || !self.eat(
            pos,
            p + 1,
            TokenTypes::LPAREN,
        ) {
            return None;
        }
        match self.parse_args(pos, p + 2) {
            Some((a, e)) => {
                let mut node = AstNode::new(self.tokens[pos[p]].value.clone(), AstTypes::FUNC);
                node.set_args(a);
                Some((node, e))
            },
            None => None,
        }
    }

    /// The arguments of a call, up to and with the closing parenthesis.
    fn parse_args(&self, pos: &Vec<usize>, q: usize) -> (r: Option<(Vec<Box<AstNode>>, usize)>)
        requires
            in_bounds(self.tokens@, pos@),
            q <= pos@.len(),
        ensures
            agrees_args(r, args(picked(self.tokens@, pos@), q as int)),
            r matches Some((_, e)) ==> q < e <= pos@.len(),
        decreases pos@.len() - q, 5int,
    {
        if q >= pos.len() {
            return None;
        }
        if self.eat(pos, q, TokenTypes::RPAREN) {
            return Some((Vec::new(), q + 1));
        }
        let (a, e) = match self.parse_curr(pos, q) {
            Some(x) => x,
            None => {
                return None;
            },
        };
        if e >= pos.len() {
            return None;
        }
        if self.eat(pos, e, TokenTypes::RPAREN) {
            let mut v: Vec<Box<AstNode>> = Vec::new();
            v.push(Box::new(a));
            return Some((v, e + 1));
        }
        if !self.eat(pos, e, TokenTypes::COMMA) {
            return None;
        }
        match self.parse_args(pos, e + 1) {
            Some((rest, f)) => {
                let ghost rest_view = rest@;
                let mut v: Vec<Box<AstNode>> = Vec::new();
                v.push(Box::new(a));
                let mut rest = rest;
                v.append(&mut rest);
                proof {
                    let b = picked(self.tokens@, pos@);
                    let x = args(b, e as int + 1).unwrap().0;
                    let ax = stmt(b, q as int).unwrap().0;
                    assert(args(b, q as int).unwrap().0 == seq![ax] + x);
                    assert forall|i: int| 0 <= i < v@.len() implies denotes(
                        *#[trigger] v@[i],
                        (seq![ax] + x)[i],
                    ) by {
                        if i > 0 {
                            assert(v@[i] == rest_view[i - 1]);
                        }
                    }
                }
                Some((v, f))
            },
            None => None,
        }
    }

    /// The statement at `p`: the first of assignment, term, call and operand that matches.
    fn parse_curr(&self, pos: &Vec<usize>, p: usize) -> (r: Option<(AstNode, usize)>)
        requires
            in_bounds(self.tokens@, pos@),
            p <= pos@.len(),
        ensures
            agrees(r, stmt(picked(self.tokens@, pos@), p as int)),
            r matches Some((_, e)) ==> p < e <= pos@.len(),
        decreases pos@.len() - p, 4int,
    {
        if let Some(x) = self.parse_assign(pos, p) {
            return Some(x);
        }
        if let Some(x) = self.parse_term(pos, p) {
            return Some(x);
        }
        if let Some(x) = self.parse_func(pos, p) {
            return Some(x);
        }
        self.parse_operand(pos, p)
    }

    /// Parses every line from the current position to the end into the table.
    pub fn parse(&mut self) -> (r: Result<(), ParseError>)
        requires
            old(self).wf(),
        ensures
            final(self).wf(),
            table_of(final(self).entries(), final(self).program()),
            final(self).token_seq() == old(self).token_seq(),
            match r {
                Ok(()) => parse_from(old(self).token_seq(), old(self).position(), old(self).program()) == Ok::<Map<u64, Expr>, ParseError>(final(self).program()),
                Err(e) => parse_from(old(self).token_seq(), old(self).position(), old(self).program()) == Err::<Map<u64, Expr>, ParseError>(e),
            },
    {
        let ghost start = self.index as int;
        let ghost m0 = self.line_map.program();
        let ghost ts = self.tokens@;
        while self.index < self.tokens.len()
            invariant
                self.wf(),
                self.tokens@ == ts,
                ts == old(self).tokens@,
                start == old(self).index,
                m0 == old(self).line_map.program(),
                parse_from(ts, start, m0) == parse_from(ts, self.index as int, self.line_map.program()),
            decreases ts.len() - self.index,
        {
            let lo = self.index;
            let d = self.get_line_dist(lo);
            let hi = lo + d;
            if d == 0 {
                self.index = lo + 1;
                continue;
            }
            match self.parse_line(lo, hi) {
                Ok((k, n)) => {
                    let ghost e = parse_line_spec(ts.subrange(lo as int, hi as int)).unwrap().1;
                    self.line_map.insert_line(k, n, Ghost(e));
                },
                Err(err) => {
                    return Err(err);
                },
            }
            if hi >= self.tokens.len() {
                self.index = hi;
            } else {
                self.index = hi + 1;
            }
        }
        Ok(())
    }
}

} // verus!
