use vstd::prelude::*;

verus! {

/// The kind of a syntax tree node.
#[derive(Debug, Clone, Copy, PartialEq, Eq, Structural)]
pub enum AstTypes {
    NUMBER,
    STRING,
    IDENT,
    ASSIGN,
    OP,
    EXPR,
    FUNC,
}

/// A syntax tree node. Literals and identifiers keep their text in `value`;
/// an assignment has the target identifier on the left and the expression on the
/// right; a binary operation keeps its operator in `value`; a call keeps the
/// function name in `value` and its arguments in `args`.
#[derive(Debug)]
pub struct AstNode {
    pub value: String,
    pub args: Vec<Box<AstNode>>,
    pub ast_type: AstTypes,
    pub right: Option<Box<AstNode>>,
    pub left: Option<Box<AstNode>>,
}

/// The abstract statement that a well-formed node stands for.
pub enum Expr {
    Num(Seq<char>),
    Ident(Seq<char>),
    Assign(Seq<char>, Box<Expr>),
    BinOp(Seq<char>, Box<Expr>, Box<Expr>),
    Call(Seq<char>, Seq<Expr>),
}

/// A node with no children of either kind.
pub open spec fn is_leaf(n: AstNode) -> bool {
    n.args@.len() == 0 && n.left is None && n.right is None
}

/// `n` is the tree of `e`.
pub open spec fn denotes(n: AstNode, e: Expr) -> bool
    decreases e,
{
    match e {
        Expr::Num(v) => n.ast_type == AstTypes::NUMBER && n.value@ == v && is_leaf(n),
        Expr::Ident(v) => n.ast_type == AstTypes::IDENT && n.value@ == v && is_leaf(n),
        Expr::Assign(name, r) => {
            &&& n.ast_type == AstTypes::ASSIGN
            &&& n.value@ == seq!['=']
            &&& n.args@.len() == 0
            &&& n.left matches Some(l) && l.ast_type == AstTypes::IDENT && l.value@ == name
                && is_leaf(*l)
            &&& n.right matches Some(rn) && denotes(*rn, *r)
        },
        Expr::BinOp(op, l, r) => {
            &&& n.ast_type == AstTypes::OP
            &&& n.value@ == op
            &&& n.args@.len() == 0
            &&& n.left matches Some(ln) && denotes(*ln, *l)
            &&& n.right matches Some(rn) && denotes(*rn, *r)
        },
        Expr::Call(name, args) => {
            &&& n.ast_type == AstTypes::FUNC
            &&& n.value@ == name
            &&& n.left is None
            &&& n.right is None
            &&& n.args@.len() == args.len()
            &&& forall|i: int| 0 <= i < args.len() ==> denotes(*#[trigger] n.args@[i], args[i])
        },
    }
}

impl AstNode {
    pub fn new(value: String, ast_type: AstTypes) -> (r: AstNode)
        ensures
            r.value == value,
            r.ast_type == ast_type,
            is_leaf(r),
    {
        AstNode { value, args: Vec::new(), ast_type, right: None, left: None }
    }

    pub fn set_args(&mut self, args: Vec<Box<AstNode>>)
        ensures
            final(self).args == args,
            final(self).value == old(self).value,
            final(self).ast_type == old(self).ast_type,
            final(self).left == old(self).left,
            final(self).right == old(self).right,
    {
        self.args = args;
    }

    pub fn add_args(&mut self, arg: AstNode)
        ensures
            final(self).args@ == old(self).args@.push(Box::new(arg)),
            final(self).value == old(self).value,
            final(self).ast_type == old(self).ast_type,
            final(self).left == old(self).left,
            final(self).right == old(self).right,
    {
        self.args.push(Box::new(arg));
    }

    pub fn set_right(&mut self, node: AstNode)
        ensures
            final(self).right == Some(Box::new(node)),
            final(self).value == old(self).value,
            final(self).ast_type == old(self).ast_type,
            final(self).left == old(self).left,
            final(self).args == old(self).args,
    {
        self.right = Some(Box::new(node));
    }

    pub fn set_left(&mut self, node: AstNode)
        ensures
            final(self).left == Some(Box::new(node)),
            final(self).value == old(self).value,
            final(self).ast_type == old(self).ast_type,
            final(self).right == old(self).right,
            final(self).args == old(self).args,
    {
        self.left = Some(Box::new(node));
    }
}

} // verus!
