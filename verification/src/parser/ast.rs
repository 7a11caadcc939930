//! The abstract syntax tree of a Firework program, together with its
//! mathematical image (`AstV`) and the height measure used for recursion
//! over it.
use vstd::prelude::*;

verus! {

/// Represents a Firework program's Abstract Syntax Tree
pub type AST = Vec<AstNode>;

/// Represents an Abstract Syntax Tree's node
#[derive(Debug, PartialEq)]
pub enum AstNode {
    Str(String),
    Int(i64),
    Char(char),
    Boolean(bool),
    List(Vec<AstNode>),
    InParens(Box<AstNode>),
    Type(String),
    FnArgs(Vec<(AstNode, AstNode)>),
    ModuleImport(Box<AstNode>),
    ModuleDeclaration(Box<AstNode>),
    Module(String),
    Identifier { name: String, args: Vec<AstNode> },
    Enum { name: String, variants: Vec<AstNode> },
    AnonFn { args: Box<AstNode>, return_type: Box<AstNode>, value: Box<AstNode> },
    Fn { name: String, return_type: Box<AstNode>, args: Box<AstNode>, value: Box<AstNode> },
    IfElse { condition: Box<AstNode>, stmt_true: Box<AstNode>, stmt_false: Box<AstNode> },
    Eoi,
}

/// Mathematical image of an `AstNode`.
#[verifier::ext_equal]
pub enum AstV {
    Str(Seq<char>),
    Int(i64),
    Char(char),
    Boolean(bool),
    List(Seq<AstV>),
    InParens(Box<AstV>),
    Type(Seq<char>),
    FnArgs(Seq<(AstV, AstV)>),
    ModuleImport(Box<AstV>),
    ModuleDeclaration(Box<AstV>),
    Module(Seq<char>),
    Identifier { name: Seq<char>, args: Seq<AstV> },
    Enum { name: Seq<char>, variants: Seq<AstV> },
    AnonFn { args: Box<AstV>, return_type: Box<AstV>, value: Box<AstV> },
    Fn { name: Seq<char>, return_type: Box<AstV>, args: Box<AstV>, value: Box<AstV> },
    IfElse { condition: Box<AstV>, stmt_true: Box<AstV>, stmt_false: Box<AstV> },
    Eoi,
}

pub open spec fn ast_view(n: AstNode) -> AstV
    decreases n, 1int,
{
    match n {
        AstNode::Str(s) => AstV::Str(s@),
        AstNode::Int(i) => AstV::Int(i),
        AstNode::Char(c) => AstV::Char(c),
        AstNode::Boolean(b) => AstV::Boolean(b),
        AstNode::List(items) => AstV::List(ast_views(items@)),
        AstNode::InParens(inner) => AstV::InParens(Box::new(ast_view(*inner))),
        AstNode::Type(t) => AstV::Type(t@),
        AstNode::FnArgs(pairs) => AstV::FnArgs(ast_pair_views(pairs@)),
        AstNode::ModuleImport(inner) => AstV::ModuleImport(Box::new(ast_view(*inner))),
        AstNode::ModuleDeclaration(inner) => AstV::ModuleDeclaration(Box::new(ast_view(*inner))),
        AstNode::Module(m) => AstV::Module(m@),
        AstNode::Identifier { name, args } => AstV::Identifier {
            name: name@,
            args: ast_views(args@),
        },
        AstNode::Enum { name, variants } => AstV::Enum {
            name: name@,
            variants: ast_views(variants@),
        },
        AstNode::AnonFn { args, return_type, value } => AstV::AnonFn {
            args: Box::new(ast_view(*args)),
            return_type: Box::new(ast_view(*return_type)),
            value: Box::new(ast_view(*value)),
        },
        AstNode::Fn { name, return_type, args, value } => AstV::Fn {
            name: name@,
            return_type: Box::new(ast_view(*return_type)),
            args: Box::new(ast_view(*args)),
            value: Box::new(ast_view(*value)),
        },
        AstNode::IfElse { condition, stmt_true, stmt_false } => AstV::IfElse {
            condition: Box::new(ast_view(*condition)),
            stmt_true: Box::new(ast_view(*stmt_true)),
            stmt_false: Box::new(ast_view(*stmt_false)),
        },
        AstNode::Eoi => AstV::Eoi,
    }
}

pub open spec fn ast_views(s: Seq<AstNode>) -> Seq<AstV>
    decreases s, 0int,
{
    if s.len() == 0 {
        Seq::empty()
    } else {
        seq![ast_view(s[0])] + ast_views(s.drop_first())
    }
}

pub open spec fn ast_pair_views(s: Seq<(AstNode, AstNode)>) -> Seq<(AstV, AstV)>
    decreases s, 0int,
{
    if s.len() == 0 {
        Seq::empty()
    } else {
        seq![(ast_view(s[0].0), ast_view(s[0].1))] + ast_pair_views(s.drop_first())
    }
}

impl View for AstNode {
    type V = AstV;

    open spec fn view(&self) -> AstV {
        ast_view(*self)
    }
}

pub proof fn lemma_ast_views_index(s: Seq<AstNode>, i: int)
    requires
        0 <= i < s.len(),
    ensures
        ast_views(s).len() == s.len(),
        ast_views(s)[i] == ast_view(s[i]),
    decreases s.len(),
{
    lemma_ast_views_len(s);
    if i > 0 {
        lemma_ast_views_index(s.drop_first(), i - 1);
    }
}

pub proof fn lemma_ast_views_len(s: Seq<AstNode>)
    ensures
        ast_views(s).len() == s.len(),
    decreases s.len(),
{
    if s.len() > 0 {
        lemma_ast_views_len(s.drop_first());
    }
}

pub proof fn lemma_ast_pair_views_index(s: Seq<(AstNode, AstNode)>, i: int)
    requires
        0 <= i < s.len(),
    ensures
        ast_pair_views(s).len() == s.len(),
        ast_pair_views(s)[i] == (ast_view(s[i].0), ast_view(s[i].1)),
    decreases s.len(),
{
    lemma_ast_pair_views_len(s);
    if i > 0 {
        lemma_ast_pair_views_index(s.drop_first(), i - 1);
    }
}

pub proof fn lemma_ast_pair_views_len(s: Seq<(AstNode, AstNode)>)
    ensures
        ast_pair_views(s).len() == s.len(),
    decreases s.len(),
{
    if s.len() > 0 {
        lemma_ast_pair_views_len(s.drop_first());
    }
}

/// A size measure on syntax trees: every node counts one, so every proper
/// subtree is strictly smaller than the tree that holds it.
pub open spec fn ast_height(v: AstV) -> nat
    decreases v, 1int,
{
    match v {
        AstV::Str(_) => 1,
        AstV::Int(_) => 1,
        AstV::Char(_) => 1,
        AstV::Boolean(_) => 1,
        AstV::List(items) => 1 + ast_list_height(items),
        AstV::InParens(inner) => 1 + ast_height(*inner),
        AstV::Type(_) => 1,
        AstV::FnArgs(pairs) => 1 + ast_pairs_height(pairs),
        AstV::ModuleImport(inner) => 1 + ast_height(*inner),
        AstV::ModuleDeclaration(inner) => 1 + ast_height(*inner),
        AstV::Module(_) => 1,
        AstV::Identifier { name: _, args } => 1 + ast_list_height(args),
        AstV::Enum { name: _, variants } => 1 + ast_list_height(variants),
        AstV::AnonFn { args, return_type, value } => 1 + ast_height(*args) + ast_height(
            *return_type,
        ) + ast_height(*value),
        AstV::Fn { name: _, return_type, args, value } => 1 + ast_height(*return_type)
            + ast_height(*args) + ast_height(*value),
        AstV::IfElse { condition, stmt_true, stmt_false } => 1 + ast_height(*condition)
            + ast_height(*stmt_true) + ast_height(*stmt_false),
        AstV::Eoi => 1,
    }
}

pub open spec fn ast_list_height(s: Seq<AstV>) -> nat
    decreases s, 0int,
{
    if s.len() == 0 {
        0
    } else {
        1 + ast_height(s[0]) + ast_list_height(s.drop_first())
    }
}

pub open spec fn ast_pairs_height(s: Seq<(AstV, AstV)>) -> nat
    decreases s, 0int,
{
    if s.len() == 0 {
        0
    } else {
        1 + ast_height(s[0].0) + ast_height(s[0].1) + ast_pairs_height(s.drop_first())
    }
}

pub proof fn lemma_ast_list_height_index(s: Seq<AstV>, i: int)
    requires
        0 <= i < s.len(),
    ensures
        ast_height(s[i]) <= ast_list_height(s),
    decreases s.len(),
{
    if i > 0 {
        lemma_ast_list_height_index(s.drop_first(), i - 1);
    }
}

pub proof fn lemma_ast_pairs_height_index(s: Seq<(AstV, AstV)>, i: int)
    requires
        0 <= i < s.len(),
    ensures
        ast_height(s[i].0) <= ast_pairs_height(s),
        ast_height(s[i].1) <= ast_pairs_height(s),
    decreases s.len(),
{
    if i > 0 {
        lemma_ast_pairs_height_index(s.drop_first(), i - 1);
    }
}

/// Structural well-formedness of a syntax tree: parameter lists pair one
/// plain name with one type, module nodes wrap module names, and every
/// subtree is well-formed in turn.
pub open spec fn ast_wf(v: AstV) -> bool
    decreases v, 1int,
{
    match v {
        AstV::List(items) => ast_list_wf(items),
        AstV::InParens(inner) => ast_wf(*inner),
        AstV::FnArgs(pairs) => ast_pairs_wf(pairs),
        AstV::ModuleImport(inner) => (*inner) is Module,
        AstV::ModuleDeclaration(inner) => (*inner) is Module,
        AstV::Identifier { name: _, args } => ast_list_wf(args),
        AstV::Enum { name: _, variants } => ast_list_wf(variants),
        AstV::AnonFn { args, return_type, value } => (*args) is FnArgs && ast_wf(*args) && (
        *return_type) is Type && ast_wf(*value),
        AstV::Fn { name: _, return_type, args, value } => (*args) is FnArgs && ast_wf(*args) && (
        *return_type) is Type && ast_wf(*value),
        AstV::IfElse { condition, stmt_true, stmt_false } => ast_wf(*condition) && ast_wf(
            *stmt_true,
        ) && ast_wf(*stmt_false),
        _ => true,
    }
}

pub open spec fn ast_list_wf(s: Seq<AstV>) -> bool
    decreases s, 0int,
{
    if s.len() == 0 {
        true
    } else {
        ast_wf(s[0]) && ast_list_wf(s.drop_first())
    }
}

pub open spec fn ast_pairs_wf(s: Seq<(AstV, AstV)>) -> bool
    decreases s, 0int,
{
    if s.len() == 0 {
        true
    } else {
        (s[0].0 matches AstV::Identifier { name: _, args: _ }) && (s[0].1 is Type)
            && ast_pairs_wf(s.drop_first())
    }
}

/// A list whose members are each well-formed is well-formed.
pub proof fn lemma_ast_list_wf_from_all(s: Seq<AstV>)
    requires
        forall|i: int| 0 <= i < s.len() ==> ast_wf(s[i]),
    ensures
        ast_list_wf(s),
    decreases s.len(),
{
    if s.len() > 0 {
        assert(forall|i: int|
            0 <= i < s.drop_first().len() ==> s.drop_first()[i] == s[i + 1]);
        lemma_ast_list_wf_from_all(s.drop_first());
    }
}

/// A pair list of named, typed parameters is well-formed.
pub proof fn lemma_ast_pairs_wf_from_all(s: Seq<(AstV, AstV)>)
    requires
        forall|i: int|
            0 <= i < s.len() ==> (s[i].0 matches AstV::Identifier { name: _, args: _ }) && (
            s[i].1 is Type),
    ensures
        ast_pairs_wf(s),
    decreases s.len(),
{
    if s.len() > 0 {
        assert(forall|i: int|
            0 <= i < s.drop_first().len() ==> s.drop_first()[i] == s[i + 1]);
        lemma_ast_pairs_wf_from_all(s.drop_first());
    }
}

} // verus!
