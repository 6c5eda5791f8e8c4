//! The abstract syntax tree: a closed set of node variants produced by the
//! parser and walked by the evaluator. Each composite node exclusively owns
//! its children; the tree has no sharing and no cycles.

use vstd::prelude::*;
use crate::token::{Token, TokenV};

verus! {

broadcast use {vstd::std_specs::vec::group_vec_axioms, vstd::seq::group_seq_axioms};

/// Mathematical model of an AST node, with text as character sequences and
/// child lists as ghost sequences. Contracts and the language semantics
/// speak of this type.
pub enum AstV {
    Program(Seq<AstV>),
    VariableDeclaration { name: Seq<char>, value: Box<AstV> },
    BinaryExpression { left: Box<AstV>, operator: TokenV, right: Box<AstV> },
    NumberLiteral(i64),
    StringLiteral(Seq<char>),
    Identifier(Seq<char>),
    PrintStatement(Box<AstV>),
    ArrayLiteral(Seq<AstV>),
    DictionaryLiteral(Seq<(Seq<char>, AstV)>),
    IndexExpression(Box<AstV>, Box<AstV>),
    Bool(bool),
    Block(Seq<AstV>),
    IfStatement { condition: Box<AstV>, consequence: Box<AstV>, alternative: Option<Box<AstV>> },
    WhileStatement { condition: Box<AstV>, body: Box<AstV> },
    Break,
    FunctionDeclaration { name: Seq<char>, params: Seq<Seq<char>>, body: Box<AstV> },
    FunctionCall { function: Box<AstV>, arguments: Seq<AstV> },
    Return(Option<Box<AstV>>),
    Nil,
}

/// One node of the abstract syntax tree.
#[derive(Debug)]
pub enum AstNode {
    /// A whole program: its top-level statements in order
    Program(Vec<AstNode>),
    /// `let name = value` and the plain assignment `name = value`, which
    /// share one AST shape: the language does not distinguish declaration
    /// from assignment at this level
    VariableDeclaration { name: String, value: Box<AstNode> },
    /// A binary operator application
    BinaryExpression { left: Box<AstNode>, operator: Token, right: Box<AstNode> },
    /// An integer literal
    NumberLiteral(i64),
    /// A string literal
    StringLiteral(String),
    /// A variable reference
    Identifier(String),
    /// `print expr`
    PrintStatement(Box<AstNode>),
    /// `[e1, e2, ...]`
    ArrayLiteral(Vec<AstNode>),
    /// `{ key: expr, ... }` with keys in source order
    DictionaryLiteral(Vec<(String, AstNode)>),
    /// `collection[index]`
    IndexExpression(Box<AstNode>, Box<AstNode>),
    /// `true` or `false`
    Bool(bool),
    /// `{ statements }`
    Block(Vec<AstNode>),
    /// `if condition { ... }` with an optional `else { ... }`
    IfStatement {
        condition: Box<AstNode>,
        consequence: Box<AstNode>,
        alternative: Option<Box<AstNode>>,
    },
    /// `while condition { body }`
    WhileStatement { condition: Box<AstNode>, body: Box<AstNode> },
    /// `break`
    Break,
    /// `func name(params...) { body }`
    FunctionDeclaration { name: String, params: Vec<String>, body: Box<AstNode> },
    /// `callee(arguments...)`
    FunctionCall { function: Box<AstNode>, arguments: Vec<AstNode> },
    /// `return` with an optional expression
    Return(Option<Box<AstNode>>),
    /// `nil`
    Nil,
}

/// The model of an AST node.
pub open spec fn ast_view(a: AstNode) -> AstV
    decreases a,
{
    match a {
        AstNode::Program(stmts) => AstV::Program(asts_view(stmts)),
        AstNode::VariableDeclaration { name, value } => AstV::VariableDeclaration {
            name: name@,
            value: Box::new(ast_view(*value)),
        },
        AstNode::BinaryExpression { left, operator, right } => AstV::BinaryExpression {
            left: Box::new(ast_view(*left)),
            operator: operator@,
            right: Box::new(ast_view(*right)),
        },
        AstNode::NumberLiteral(n) => AstV::NumberLiteral(n),
        AstNode::StringLiteral(s) => AstV::StringLiteral(s@),
        AstNode::Identifier(s) => AstV::Identifier(s@),
        AstNode::PrintStatement(e) => AstV::PrintStatement(Box::new(ast_view(*e))),
        AstNode::ArrayLiteral(es) => AstV::ArrayLiteral(asts_view(es)),
        AstNode::DictionaryLiteral(ps) => AstV::DictionaryLiteral(pairs_view(ps)),
        AstNode::IndexExpression(c, i) => AstV::IndexExpression(
            Box::new(ast_view(*c)),
            Box::new(ast_view(*i)),
        ),
        AstNode::Bool(b) => AstV::Bool(b),
        AstNode::Block(stmts) => AstV::Block(asts_view(stmts)),
        AstNode::IfStatement { condition, consequence, alternative } => AstV::IfStatement {
            condition: Box::new(ast_view(*condition)),
            consequence: Box::new(ast_view(*consequence)),
            alternative: match alternative {
                Some(alt) => Some(Box::new(ast_view(*alt))),
                None => None,
            },
        },
        AstNode::WhileStatement { condition, body } => AstV::WhileStatement {
            condition: Box::new(ast_view(*condition)),
            body: Box::new(ast_view(*body)),
        },
        AstNode::Break => AstV::Break,
        AstNode::FunctionDeclaration { name, params, body } => AstV::FunctionDeclaration {
            name: name@,
            params: Seq::new(params@.len(), |i: int| params@[i]@),
            body: Box::new(ast_view(*body)),
        },
        AstNode::FunctionCall { function, arguments } => AstV::FunctionCall {
            function: Box::new(ast_view(*function)),
            arguments: asts_view(arguments),
        },
        AstNode::Return(e) => AstV::Return(
            match e {
                Some(x) => Some(Box::new(ast_view(*x))),
                None => None,
            },
        ),
        AstNode::Nil => AstV::Nil,
    }
}

/// The models of a list of AST nodes, elementwise.
pub open spec fn asts_view(v: Vec<AstNode>) -> Seq<AstV>
    decreases v,
{
    Seq::new(
        v@.len(),
        |i: int| if 0 <= i < v@.len() {
            ast_view(v@[i])
        } else {
            AstV::Break
        },
    )
}

/// The models of a list of key/expression pairs, elementwise.
pub open spec fn pairs_view(v: Vec<(String, AstNode)>) -> Seq<(Seq<char>, AstV)>
    decreases v,
{
    Seq::new(
        v@.len(),
        |i: int| if 0 <= i < v@.len() {
            (v@[i].0@, ast_view(v@[i].1))
        } else {
            (Seq::<char>::empty(), AstV::Break)
        },
    )
}

impl View for AstNode {
    type V = AstV;

    open spec fn view(&self) -> AstV {
        ast_view(*self)
    }
}

impl Clone for AstNode {
    /// Cloning yields a node with the same model: a deep copy of the tree.
    fn clone(&self) -> (res: Self)
        ensures
            res@ == self@,
        decreases self,
    {
        match self {
            AstNode::Program(stmts) => AstNode::Program(clone_nodes(stmts)),
            AstNode::VariableDeclaration { name, value } => AstNode::VariableDeclaration {
                name: name.clone(),
                value: Box::new((**value).clone()),
            },
            AstNode::BinaryExpression { left, operator, right } => AstNode::BinaryExpression {
                left: Box::new((**left).clone()),
                operator: operator.clone(),
                right: Box::new((**right).clone()),
            },
            AstNode::NumberLiteral(n) => AstNode::NumberLiteral(*n),
            AstNode::StringLiteral(s) => AstNode::StringLiteral(s.clone()),
            AstNode::Identifier(s) => AstNode::Identifier(s.clone()),
            AstNode::PrintStatement(e) => AstNode::PrintStatement(Box::new((**e).clone())),
            AstNode::ArrayLiteral(es) => AstNode::ArrayLiteral(clone_nodes(es)),
            AstNode::DictionaryLiteral(ps) => AstNode::DictionaryLiteral(clone_pairs(ps)),
            AstNode::IndexExpression(c, i) => AstNode::IndexExpression(
                Box::new((**c).clone()),
                Box::new((**i).clone()),
            ),
            AstNode::Bool(b) => AstNode::Bool(*b),
            AstNode::Block(stmts) => AstNode::Block(clone_nodes(stmts)),
            AstNode::IfStatement { condition, consequence, alternative } => AstNode::IfStatement {
                condition: Box::new((**condition).clone()),
                consequence: Box::new((**consequence).clone()),
                alternative: match alternative {
                    Some(alt) => Some(Box::new((**alt).clone())),
                    None => None,
                },
            },
            AstNode::WhileStatement { condition, body } => AstNode::WhileStatement {
                condition: Box::new((**condition).clone()),
                body: Box::new((**body).clone()),
            },
            AstNode::Break => AstNode::Break,
            AstNode::FunctionDeclaration { name, params, body } => AstNode::FunctionDeclaration {
                name: name.clone(),
                params: clone_names(params),
                body: Box::new((**body).clone()),
            },
            AstNode::FunctionCall { function, arguments } => AstNode::FunctionCall {
                function: Box::new((**function).clone()),
                arguments: clone_nodes(arguments),
            },
            AstNode::Return(e) => AstNode::Return(
                match e {
                    Some(x) => Some(Box::new((**x).clone())),
                    None => None,
                },
            ),
            AstNode::Nil => AstNode::Nil,
        }
    }
}

/// Deep-copies a list of nodes, preserving the models elementwise.
fn clone_nodes(v: &Vec<AstNode>) -> (res: Vec<AstNode>)
    ensures
        asts_view(res) == asts_view(*v),
    decreases v,
{
    let mut out: Vec<AstNode> = Vec::new();
    let mut i: usize = 0;
    while i < v.len()
        invariant
            i <= v.len(),
            out@.len() == i,
            forall|j: int| 0 <= j < i ==> ast_view(out@[j]) == ast_view(v@[j]),
        decreases v.len() - i,
    {
        out.push(v[i].clone());
        i = i + 1;
    }
    proof {
        assert(asts_view(out) =~= asts_view(*v));
    }
    out
}

/// Deep-copies a list of key/expression pairs, preserving the models.
fn clone_pairs(v: &Vec<(String, AstNode)>) -> (res: Vec<(String, AstNode)>)
    ensures
        pairs_view(res) == pairs_view(*v),
    decreases v,
{
    let mut out: Vec<(String, AstNode)> = Vec::new();
    let mut i: usize = 0;
    while i < v.len()
        invariant
            i <= v.len(),
            out@.len() == i,
            forall|j: int| 0 <= j < i ==> out@[j].0@ == v@[j].0@ && ast_view(out@[j].1)
                == ast_view(v@[j].1),
        decreases v.len() - i,
    {
        let pair = &v[i];
        out.push((pair.0.clone(), pair.1.clone()));
        i = i + 1;
    }
    proof {
        assert(pairs_view(out) =~= pairs_view(*v));
    }
    out
}

/// Copies a list of names, preserving their character sequences.
pub(crate) fn clone_names(v: &Vec<String>) -> (res: Vec<String>)
    ensures
        Seq::new(res@.len(), |i: int| res@[i]@) == Seq::new(v@.len(), |i: int| v@[i]@),
{
    let mut out: Vec<String> = Vec::new();
    let mut i: usize = 0;
    while i < v.len()
        invariant
            i <= v.len(),
            out@.len() == i,
            forall|j: int| 0 <= j < i ==> out@[j]@ == v@[j]@,
        decreases v.len() - i,
    {
        out.push(v[i].clone());
        i = i + 1;
    }
    proof {
        assert(Seq::new(out@.len(), |i: int| out@[i]@) =~= Seq::new(v@.len(), |i: int| v@[i]@));
    }
    out
}

} // verus!
