use vstd::prelude::*;
use vstd::string::*;
use crate::ast::{AstNode, AstTypes, Expr, denotes};
use crate::decimal::{decimal, decimal_within, parse_decimal};
use crate::parser::Parser;
use crate::program::{Program, table_of};
use crate::tokenizer::chars_of;

verus! {

broadcast use crate::program::lemma_program_table;

/// Why evaluation stopped.
#[derive(Debug, Clone, Copy, PartialEq, Eq, Structural)]
pub enum EvalError {
    /// An identifier was read before any assignment to it.
    VariableNotFound,
    /// A binary operator other than `+` and `-`.
    UnsupportedOperator,
    /// A sum or difference outside the range of `i32`.
    Overflow,
    /// A number literal that is not a decimal `i32`.
    MalformedNumber,
    /// A node without the children that its kind needs.
    MalformedNode,
    /// A statement that yields no value where a value is needed.
    NoValue,
}

/// What evaluation writes to the output channel.
#[derive(Debug)]
pub enum Output {
    /// `PRINT` wrote this value.
    Printed(i32),
    /// A call named a function that does not exist; evaluation went on.
    UnknownFunction(String),
}

/// The content of an output entry.
pub enum Note {
    Printed(i32),
    UnknownFunction(Seq<char>),
}

pub open spec fn note_of(o: Output) -> Note {
    match o {
        Output::Printed(v) => Note::Printed(v),
        Output::UnknownFunction(s) => Note::UnknownFunction(s@),
    }
}

/// The variable bindings, oldest first, and the output so far.
pub struct Env {
    pub vars: Seq<(Seq<char>, i32)>,
    pub out: Seq<Note>,
}

/// The value most recently bound to `name`.
pub open spec fn lookup(vars: Seq<(Seq<char>, i32)>, name: Seq<char>) -> Option<i32>
    decreases vars.len(),
{
    if vars.len() == 0 {
        None
    } else if vars.last().0 == name {
        Some(vars.last().1)
    } else {
        lookup(vars.drop_last(), name)
    }
}

pub open spec fn in_i32(v: int) -> bool {
    i32::MIN <= v <= i32::MAX
}

/// The result of evaluating `n` in `env`, and the environment afterwards.
pub open spec fn eval_spec(n: AstNode, env: Env) -> (Result<Option<i32>, EvalError>, Env)
    decreases n,
{
    match n.ast_type {
        AstTypes::NUMBER => if decimal_within(n.value@, i32::MAX as nat) {
            (Ok(Some(decimal(n.value@) as i32)), env)
        } else {
            (Err(EvalError::MalformedNumber), env)
        },
        AstTypes::IDENT => match lookup(env.vars, n.value@) {
            Some(v) => (Ok(Some(v)), env),
            None => (Err(EvalError::VariableNotFound), env),
        },
        AstTypes::ASSIGN => match (n.left, n.right) {
            (Some(l), Some(r)) => {
                let (res, env1) = eval_spec(*r, env);
                match res {
                    Ok(Some(v)) => (Ok(Some(v)), Env { vars: env1.vars.push((l.value@, v)), out: env1.out }),
                    Ok(None) => (Err(EvalError::NoValue), env1),
                    Err(e) => (Err(e), env1),
                }
            },
            _ => (Err(EvalError::MalformedNode), env),
        },
        AstTypes::OP => match (n.left, n.right) {
            (Some(l), Some(r)) => if n.value@ != "+"@ && n.value@ != "-"@ {
                (Err(EvalError::UnsupportedOperator), env)
            } else {
                let (lres, env1) = eval_spec(*l, env);
                match lres {
                    Ok(Some(a)) => {
                        let (rres, env2) = eval_spec(*r, env1);
                        match rres {
                            Ok(Some(b)) => {
                                let v = if n.value@ == "+"@ { a + b } else { a - b };
                                if in_i32(v) {
                                    (Ok(Some(v as i32)), env2)
                                } else {
                                    (Err(EvalError::Overflow), env2)
                                }
                            },
                            Ok(None) => (Err(EvalError::NoValue), env2),
                            Err(e) => (Err(e), env2),
                        }
                    },
                    Ok(None) => (Err(EvalError::NoValue), env1),
                    Err(e) => (Err(e), env1),
                }
            },
            _ => (Err(EvalError::MalformedNode), env),
        },
        AstTypes::FUNC => if n.args@.len() == 0 {
            (Err(EvalError::MalformedNode), env)
        } else {
            let (res, env1) = eval_spec(*n.args@[0], env);
            match res {
                Err(e) => (Err(e), env1),
                Ok(arg) => if n.value@ == "PRINT"@ {
                    match arg {
                        Some(v) => (Ok(None), Env { vars: env1.vars, out: env1.out.push(Note::Printed(v)) }),
                        None => (Err(EvalError::NoValue), env1),
                    }
                } else {
                    (Ok(None), Env { vars: env1.vars, out: env1.out.push(Note::UnknownFunction(n.value@)) })
                },
            }
        },
        _ => (Ok(None), env),
    }
}

/// The variable store and the output of one interpreter.
pub struct Store {
    memory: Vec<(String, i32)>,
    output: Vec<Output>,
}

impl Store {
    pub closed spec fn env(&self) -> Env {
        Env {
            vars: self.memory@.map_values(|p: (String, i32)| (p.0@, p.1)),
            out: self.output@.map_values(|o: Output| note_of(o)),
        }
    }

    pub fn new() -> (r: Store)
        ensures
            r.env().vars.len() == 0,
            r.env().out.len() == 0,
    {
        Store { memory: Vec::new(), output: Vec::new() }
    }

    /// What evaluation has written so far.
    pub fn output(&self) -> (r: &Vec<Output>)
        ensures
            r@.map_values(|o: Output| note_of(o)) == self.env().out,
    {
        &self.output
    }

    /// The value most recently bound to `name`.
    pub fn get_variable(&self, name: &String) -> (r: Option<i32>)
        ensures
            r == lookup(self.env().vars, name@),
    {
        let ghost vars = self.env().vars;
        let mut j = self.memory.len();
        proof {
            assert(vars.subrange(0, j as int) =~= vars);
        }
        while j > 0
            invariant
                j <= self.memory@.len(),
                vars == self.env().vars,
                lookup(vars, name@) == lookup(vars.subrange(0, j as int), name@),
            decreases j,
        {
            proof {
                assert(vars.subrange(0, j as int).drop_last() =~= vars.subrange(0, j - 1));
                assert(vars[j - 1] == (self.memory@[j - 1].0@, self.memory@[j - 1].1));
            }
            if self.memory[j - 1].0 == *name {
                return Some(self.memory[j - 1].1);
            }
            j = j - 1;
        }
        None
    }

    fn eval_number(&mut self, node: &AstNode) -> (r: Result<Option<i32>, EvalError>)
        requires
            node.ast_type == AstTypes::NUMBER,
        ensures
            (r, final(self).env()) == eval_spec(*node, old(self).env()),
    {
        let digits = chars_of(node.value.as_str());
        match parse_decimal(&digits, i32::MAX as u64) {
            Some(v) => Ok(Some(v as i32)),
            None => Err(EvalError::MalformedNumber),
        }
    }

    fn eval_assign(&mut self, node: &AstNode) -> (r: Result<Option<i32>, EvalError>)
        requires
            node.ast_type == AstTypes::ASSIGN,
        ensures
            (r, final(self).env()) == eval_spec(*node, old(self).env()),
        decreases node, 0int,
    {
        match (&node.left, &node.right) {
            (Some(l), Some(r)) => {
                match self.eval(r) {
                    Ok(Some(v)) => {
                        let ghost before = self.memory@;
                        self.memory.push((l.value.clone(), v));
                        proof {
                            assert(self.memory@.map_values(|p: (String, i32)| (p.0@, p.1)) =~= before.map_values(|p: (String, i32)| (p.0@, p.1)).push((l.value@, v)));
                        }
                        Ok(Some(v))
                    },
                    Ok(None) => Err(EvalError::NoValue),
                    Err(e) => Err(e),
                }
            },
            _ => Err(EvalError::MalformedNode),
        }
    }

    fn eval_bin_op(&mut self, node: &AstNode) -> (r: Result<Option<i32>, EvalError>)
        requires
            node.ast_type == AstTypes::OP,
        ensures
            (r, final(self).env()) == eval_spec(*node, old(self).env()),
        decreases node, 0int,
    {
        match (&node.left, &node.right) {
            (Some(l), Some(r)) => {
                let plus = node.value == String::from_str("+");
                let minus = node.value == String::from_str("-");
                if !plus && !minus {
                    return Err(EvalError::UnsupportedOperator);
                }
                let a = match self.eval(l) {
                    Ok(Some(a)) => a,
                    Ok(None) => {
                        return Err(EvalError::NoValue);
                    },
                    Err(e) => {
                        return Err(e);
                    },
                };
                let b = match self.eval(r) {
                    Ok(Some(b)) => b,
                    Ok(None) => {
                        return Err(EvalError::NoValue);
                    },
                    Err(e) => {
                        return Err(e);
                    },
                };
                let v: i64 = if plus { a as i64 + b as i64 } else { a as i64 - b as i64 };
                if v < i32::MIN as i64 || v > i32::MAX as i64 {
                    Err(EvalError::Overflow)
                } else {
                    Ok(Some(v as i32))
                }
            },
            _ => Err(EvalError::MalformedNode),
        }
    }

    fn eval_func(&mut self, node: &AstNode) -> (r: Result<Option<i32>, EvalError>)
        requires
            node.ast_type == AstTypes::FUNC,
        ensures
            (r, final(self).env()) == eval_spec(*node, old(self).env()),
        decreases node, 0int,
    {
        if node.args.len() == 0 {
            return Err(EvalError::MalformedNode);
        }
        let arg = match self.eval(&node.args[0]) {
            Ok(a) => a,
            Err(e) => {
                return Err(e);
            },
        };
        let ghost before = self.output@;
        if node.value == String::from_str("PRINT") {
            match arg {
                Some(v) => {
                    self.output.push(Output::Printed(v));
                    proof {
                        assert(self.output@.map_values(|o: Output| note_of(o)) =~= before.map_values(|o: Output| note_of(o)).push(Note::Printed(v)));
                    }
                    Ok(None)
                },
                None => Err(EvalError::NoValue),
            }
        } else {
            self.output.push(Output::UnknownFunction(node.value.clone()));
            proof {
                assert(self.output@.map_values(|o: Output| note_of(o)) =~= before.map_values(|o: Output| note_of(o)).push(Note::UnknownFunction(node.value@)));
            }
            Ok(None)
        }
    }

    /// Evaluates a node: its value, or `None` for a statement without one.
    pub fn eval(&mut self, node: &AstNode) -> (r: Result<Option<i32>, EvalError>)
        ensures
            (r, final(self).env()) == eval_spec(*node, old(self).env()),
        decreases node, 1int,
    {
        match node.ast_type {
            AstTypes::OP => self.eval_bin_op(node),
            AstTypes::ASSIGN => self.eval_assign(node),
            AstTypes::FUNC => self.eval_func(node),
            AstTypes::NUMBER => self.eval_number(node),
            AstTypes::IDENT => match self.get_variable(&node.value) {
                Some(v) => Ok(Some(v)),
                None => Err(EvalError::VariableNotFound),
            },
            _ => Ok(None),
        }
    }
}

/// The value that a line reports: its value, or 0 where it has none.
pub open spec fn value_or_zero(v: Option<i32>) -> i32 {
    match v {
        Some(x) => x,
        None => 0,
    }
}

/// Running the lines from position `i` to the end, starting with `last` as the
/// value reported: the last value reported or the first error, the environment
/// afterwards, and the position where the run stopped.
pub open spec fn run_from(lines: Seq<(u64, AstNode)>, i: int, env: Env, last: i32) -> (
    Result<i32, EvalError>,
    Env,
    int,
)
    decreases lines.len() - i,
{
    if i < 0 || i >= lines.len() {
        (Ok(last), env, i)
    } else {
        let (r, env1) = eval_spec(lines[i].1, env);
        match r {
            Ok(v) => run_from(lines, i + 1, env1, value_or_zero(v)),
            Err(e) => (Err(e), env1, i),
        }
    }
}

/// Executes a table of lines in label order.
pub struct Interpreter {
    line_map: Program,
    index: usize,
    store: Store,
}

impl Interpreter {
    pub closed spec fn wf(&self) -> bool {
        self.line_map.wf()
    }

    /// The lines of a well-formed interpreter are exactly its statements, in label order.
    pub proof fn lemma_table(&self)
        requires
            self.wf(),
        ensures
            table_of(self.entries(), self.program()),
    {
        self.line_map.lemma_table();
    }

    /// The statements, by label.
    pub closed spec fn program(&self) -> Map<u64, Expr> {
        self.line_map.program()
    }

    /// The lines, in label order.
    pub closed spec fn entries(&self) -> Seq<(u64, AstNode)> {
        self.line_map.entries()
    }

    /// The position of the current line in label order.
    pub closed spec fn position(&self) -> int {
        self.index as int
    }

    pub closed spec fn env(&self) -> Env {
        self.store.env()
    }

    /// An interpreter over the lines that the parser has read.
    pub fn new(parser: Parser) -> (r: Interpreter)
        requires
            parser.wf(),
        ensures
            r.wf(),
            table_of(r.entries(), r.program()),
            r.program() == parser.program(),
            r.entries() == parser.entries(),
            r.position() == 0,
            r.env().vars.len() == 0,
            r.env().out.len() == 0,
    {
        Interpreter { line_map: parser.into_program(), index: 0, store: Store::new() }
    }

    /// An interpreter over a table of lines.
    pub fn new_from_map(map: Program) -> (r: Interpreter)
        requires
            map.wf(),
        ensures
            r.wf(),
            table_of(r.entries(), r.program()),
            r.program() == map.program(),
            r.entries() == map.entries(),
            r.position() == 0,
            r.env().vars.len() == 0,
            r.env().out.len() == 0,
    {
        Interpreter { line_map: map, index: 0, store: Store::new() }
    }

    /// Evaluates a node in this interpreter's store.
    pub fn eval(&mut self, node: &AstNode) -> (r: Result<Option<i32>, EvalError>)
        ensures
            (r, final(self).env()) == eval_spec(*node, old(self).env()),
            final(self).wf() == old(self).wf(),
            final(self).entries() == old(self).entries(),
            final(self).program() == old(self).program(),
            old(self).wf() ==> table_of(final(self).entries(), final(self).program()),
            final(self).position() == old(self).position(),
    {
        self.store.eval(node)
    }

    /// The value most recently assigned to `name`.
    pub fn get_variable(&self, name: &String) -> (r: Option<i32>)
        ensures
            r == lookup(self.env().vars, name@),
    {
        self.store.get_variable(name)
    }

    /// What evaluation has written so far.
    pub fn get_output(&self) -> (r: &Vec<Output>)
        ensures
            r@.map_values(|o: Output| note_of(o)) == self.env().out,
    {
        self.store.output()
    }

    /// Evaluates the statement at the current position, without moving on: its
    /// value, or 0 where it has none.
    pub fn run_line(&mut self) -> (r: Result<i32, EvalError>)
        requires
            old(self).position() < old(self).entries().len(),
        ensures
            final(self).wf() == old(self).wf(),
            final(self).entries() == old(self).entries(),
            final(self).program() == old(self).program(),
            old(self).wf() ==> table_of(final(self).entries(), final(self).program()),
            final(self).position() == old(self).position(),
            ({
                let (res, env) = eval_spec(old(self).entries()[old(self).position()].1, old(self).env());
                &&& final(self).env() == env
                &&& r == match res {
                    Ok(v) => Ok::<i32, EvalError>(value_or_zero(v)),
                    Err(e) => Err(e),
                }
            }),
    {
        let res = self.store.eval(&self.line_map.lines()[self.index].1);
        match res {
            Ok(Some(v)) => Ok(v),
            Ok(None) => Ok(0),
            Err(e) => Err(e),
        }
    }

    /// Runs the lines from the current position to the end: the value of the last
    /// line (0 where it has none, or where no line is left), or the first error.
    pub fn run(&mut self) -> (r: Result<i32, EvalError>)
        ensures
            final(self).wf() == old(self).wf(),
            final(self).entries() == old(self).entries(),
            final(self).program() == old(self).program(),
            old(self).wf() ==> table_of(final(self).entries(), final(self).program()),
            (r, final(self).env(), final(self).position()) == run_from(old(self).entries(), old(self).position(), old(self).env(), 0),
    {
        let mut last: i32 = 0;
        let ghost lines = self.entries();
        while self.index < self.line_map.lines().len()
            invariant
                self.wf() == old(self).wf(),
                self.program() == old(self).program(),
                lines == self.entries(),
                lines == old(self).entries(),
                old(self).index <= self.index,
                run_from(lines, old(self).position(), old(self).env(), 0) == run_from(lines, self.position(), self.env(), last),
            decreases lines.len() - self.index,
        {
            match self.run_line() {
                Ok(v) => {
                    last = v;
                },
                Err(e) => {
                    return Err(e);
                },
            }
            self.index = self.index + 1;
        }
        Ok(last)
    }

    /// Merges the parser's lines into the table; a line of the parser replaces a
    /// line of the same label.
    pub fn add_parser_data(&mut self, parser: Parser)
        requires
            old(self).wf(),
            parser.wf(),
        ensures
            final(self).wf(),
            table_of(final(self).entries(), final(self).program()),
            final(self).program() == old(self).program().union_prefer_right(parser.program()),
            final(self).position() == old(self).position(),
            final(self).env() == old(self).env(),
    {
        let mut other = parser.into_program();
        let ghost theirs = other.program();
        loop
            invariant
                self.wf(),
                other.wf(),
                self.index == old(self).index,
                self.store == old(self).store,
                theirs == parser.program(),
                forall|kk: u64| #[trigger] other.program().contains_key(kk) ==> theirs.contains_key(kk) && other.program()[kk] == theirs[kk],
                self.program() == old(self).program().union_prefer_right(theirs.remove_keys(other.program().dom())),
            decreases other.entries().len(),
        {
            let ghost before = other.program();
            match other.pop_line() {
                Some((k, n)) => {
                    let ghost e = theirs[k];
                    assert(before.dom().contains(k));
                    assert(before[k] == theirs[k]);
                    self.line_map.insert_line(k, n, Ghost(e));
                    proof {
                        assert(self.program() =~= old(self).program().union_prefer_right(theirs.remove_keys(other.program().dom())));
                    }
                },
                None => {
                    proof {
                        assert(self.program() =~= old(self).program().union_prefer_right(theirs));
                    }
                    return;
                },
            }
        }
    }
}

/// A program of two lines, the first assigning a number literal to a variable and
/// the second, under a larger label, printing that variable, prints the literal's
/// value, binds the variable to it, and its run reports 0.
pub proof fn lemma_assign_then_print(
    lines: Seq<(u64, AstNode)>,
    x: Seq<char>,
    v: Seq<char>,
    env: Env,
)
    requires
        lines.len() == 2,
        lines[0].0 < lines[1].0,
        denotes(lines[0].1, Expr::Assign(x, Box::new(Expr::Num(v)))),
        denotes(lines[1].1, Expr::Call("PRINT"@, seq![Expr::Ident(x)])),
        decimal_within(v, i32::MAX as nat),
    ensures
        run_from(lines, 0, env, 0).0 == Ok::<i32, EvalError>(0),
        run_from(lines, 0, env, 0).1.out == env.out.push(Note::Printed(decimal(v) as i32)),
        lookup(run_from(lines, 0, env, 0).1.vars, x) == Some(decimal(v) as i32),
        run_from(lines, 0, env, 0).2 == 2,
{
    let val = decimal(v) as i32;
    let n0 = lines[0].1;
    let n1 = lines[1].1;
    let r = *n0.right.unwrap();
    assert(denotes(r, Expr::Num(v)));
    assert(eval_spec(r, env) == (Ok::<Option<i32>, EvalError>(Some(val)), env));
    let env1 = Env { vars: env.vars.push((x, val)), out: env.out };
    assert(eval_spec(n0, env) == (Ok::<Option<i32>, EvalError>(Some(val)), env1));
    assert(env1.vars.drop_last() =~= env.vars);
    assert(lookup(env1.vars, x) == Some(val));
    let a = *n1.args@[0];
    assert(denotes(a, Expr::Ident(x)));
    assert(eval_spec(a, env1) == (Ok::<Option<i32>, EvalError>(Some(val)), env1));
    let env2 = Env { vars: env1.vars, out: env1.out.push(Note::Printed(val)) };
    assert(eval_spec(n1, env1) == (Ok::<Option<i32>, EvalError>(None), env2));
    reveal_with_fuel(run_from, 3);
}

} // verus!
