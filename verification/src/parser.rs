//! Parser
//!
//! A recursive-descent parser for the Firework surface syntax. A program is
//! a sequence of declarations:
//!
//! ```text
//! let name: type = expression
//! let name(param: type, ...): type = expression
//! import modname
//! module modname
//! ```
//!
//! An expression is a conditional `if c then a else b`, a literal (a
//! decimal integer, `true`, `false`, a double-quoted string without escape
//! sequences, a single-quoted character), a parenthesized expression, or a
//! call `name arg ...` whose arguments are literals, bare names or
//! parenthesized expressions. Operator names such as `+` or `==` are
//! ordinary identifiers. An integer literal outside the signed 64-bit
//! range is a syntax error.
//!
//! On success every returned node is structurally well-formed and no
//! end-of-input marker is kept; on failure a structured error carries the
//! line and column (both starting at one) of the offending position.
pub mod ast;

use crate::parser::ast::{
    ast_list_wf, ast_pairs_wf, ast_views, ast_wf, lemma_ast_list_wf_from_all,
    lemma_ast_pairs_wf_from_all, lemma_ast_views_index, lemma_ast_views_len, AstNode, AstV, AST,
};
use vstd::prelude::*;

verus! {

/// A syntax error at a line and column of the source text, both counted
/// from one.
#[derive(Debug, PartialEq, Eq)]
pub struct ParseError {
    pub line: usize,
    pub col: usize,
}

/// One lexical token and the character index it starts at.
enum Tok {
    KwLet,
    KwIf,
    KwThen,
    KwElse,
    KwTrue,
    KwFalse,
    KwImport,
    KwModule,
    Name(String),
    IntLit(i64),
    StrLit(String),
    CharLit(char),
    LParen,
    RParen,
    Colon,
    Comma,
    Equals,
}

fn is_space_char(c: char) -> (r: bool)
    ensures
        r == (c == ' ' || c == '\n' || c == '\t' || c == '\r'),
{
    c == ' ' || c == '\n' || c == '\t' || c == '\r'
}

fn is_name_start(c: char) -> (r: bool)
    ensures
        r == ((97 <= c as u32 && c as u32 <= 122) || (65 <= c as u32 && c as u32 <= 90) || c
            == '_'),
{
    let u = c as u32;
    (97 <= u && u <= 122) || (65 <= u && u <= 90) || c == '_'
}

fn is_name_char(c: char) -> (r: bool)
    ensures
        r == ((97 <= c as u32 && c as u32 <= 122) || (65 <= c as u32 && c as u32 <= 90) || c
            == '_' || (48 <= c as u32 && c as u32 <= 57) || c == '\''),
{
    let u = c as u32;
    is_name_start(c) || (48 <= u && u <= 57) || c == '\''
}

fn is_digit_char(c: char) -> (r: bool)
    ensures
        r == (48 <= c as u32 && c as u32 <= 57),
{
    let u = c as u32;
    48 <= u && u <= 57
}

fn is_op_char(c: char) -> (r: bool)
    ensures
        r == (c == '+' || c == '-' || c == '*' || c == '/' || c == '=' || c == '<' || c == '>'
            || c == '!' || c == '&' || c == '|' || c == '%' || c == '^' || c == '~' || c == '?'),
{
    c == '+' || c == '-' || c == '*' || c == '/' || c == '=' || c == '<' || c == '>' || c == '!'
        || c == '&' || c == '|' || c == '%' || c == '^' || c == '~' || c == '?'
}

/// The line and column of a character index, both counted from one.
fn line_col(src: &str, idx: usize) -> (r: (usize, usize)) {
    let n = src.unicode_len();
    let stop = if idx < n {
        idx
    } else {
        n
    };
    let mut line: usize = 1;
    let mut col: usize = 1;
    let mut i: usize = 0;
    while i < stop
        invariant
            0 <= i <= stop <= src@.len(),
            line >= 1,
            col >= 1,
        decreases stop - i,
    {
        if src.get_char(i) == '\n' {
            if line < usize::MAX {
                line = line + 1;
            }
            col = 1;
        } else {
            if col < usize::MAX {
                col = col + 1;
            }
        }
        i = i + 1;
    }
    (line, col)
}

fn err_at(src: &str, idx: usize) -> (r: ParseError) {
    let (line, col) = line_col(src, idx);
    ParseError { line, col }
}

/// Scans the source text into tokens.
#[verifier::loop_isolation(false)]
fn tokenize(src: &str) -> (r: Result<Vec<(Tok, usize)>, ParseError>) {
    let n = src.unicode_len();
    let mut toks: Vec<(Tok, usize)> = Vec::new();
    let mut i: usize = 0;
    while i < n
        invariant
            0 <= i <= n,
            n == src@.len(),
        decreases n - i,
    {
        let c = src.get_char(i);
        if is_space_char(c) {
            i = i + 1;
        } else if is_name_start(c) {
            let start = i;
            let mut j = i + 1;
            while j < n && is_name_char(src.get_char(j))
                invariant
                    i < j <= n,
                    n == src@.len(),
                decreases n - j,
            {
                j = j + 1;
            }
            let word = src.substring_char(start, j).to_owned();
            let tok = if crate::text::str_eq(word.as_str(), "let") {
                Tok::KwLet
            } else if crate::text::str_eq(word.as_str(), "if") {
                Tok::KwIf
            } else if crate::text::str_eq(word.as_str(), "then") {
                Tok::KwThen
            } else if crate::text::str_eq(word.as_str(), "else") {
                Tok::KwElse
            } else if crate::text::str_eq(word.as_str(), "true") {
                Tok::KwTrue
            } else if crate::text::str_eq(word.as_str(), "false") {
                Tok::KwFalse
            } else if crate::text::str_eq(word.as_str(), "import") {
                Tok::KwImport
            } else if crate::text::str_eq(word.as_str(), "module") {
                Tok::KwModule
            } else {
                Tok::Name(word)
            };
            toks.push((tok, start));
            i = j;
        } else if is_digit_char(c) || (c == '-' && i + 1 < n && is_digit_char(
            src.get_char(i + 1),
        )) {
            let start = i;
            let negative = c == '-';
            let mut j = if negative {
                i + 1
            } else {
                i
            };
            // accumulate the negated value so that the most negative
            // 64-bit integer is representable
            let mut acc: i64 = 0;
            let mut overflow = false;
            while j < n && is_digit_char(src.get_char(j))
                invariant
                    i <= j <= n,
                    negative ==> j >= i + 1,
                decreases n - j,
            {
                let d = (src.get_char(j) as u32) - 48;
                match acc.checked_mul(10) {
                    None => {
                        overflow = true;
                    },
                    Some(m) => match m.checked_sub(d as i64) {
                        None => {
                            overflow = true;
                        },
                        Some(v) => {
                            acc = v;
                        },
                    },
                }
                j = j + 1;
            }
            if overflow {
                return Err(err_at(src, start));
            }
            let value = if negative {
                acc
            } else {
                match (0i64).checked_sub(acc) {
                    None => {
                        return Err(err_at(src, start));
                    },
                    Some(v) => v,
                }
            };
            toks.push((Tok::IntLit(value), start));
            i = j;
        } else if c == '"' {
            let start = i;
            let mut j = i + 1;
            while j < n && src.get_char(j) != '"'
                invariant
                    i < j <= n,
                    n == src@.len(),
                decreases n - j,
            {
                j = j + 1;
            }
            if j >= n {
                return Err(err_at(src, start));
            }
            let contents = src.substring_char(start + 1, j).to_owned();
            toks.push((Tok::StrLit(contents), start));
            i = j + 1;
        } else if c == '\'' {
            if n - i < 3 {
                return Err(err_at(src, i));
            }
            let ch = src.get_char(i + 1);
            if src.get_char(i + 2) != '\'' {
                return Err(err_at(src, i));
            }
            toks.push((Tok::CharLit(ch), i));
            i = i + 3;
        } else if c == '(' {
            toks.push((Tok::LParen, i));
            i = i + 1;
        } else if c == ')' {
            toks.push((Tok::RParen, i));
            i = i + 1;
        } else if c == ':' {
            toks.push((Tok::Colon, i));
            i = i + 1;
        } else if c == ',' {
            toks.push((Tok::Comma, i));
            i = i + 1;
        } else if is_op_char(c) {
            let start = i;
            let mut j = i + 1;
            while j < n && is_op_char(src.get_char(j))
                invariant
                    i < j <= n,
                    n == src@.len(),
                decreases n - j,
            {
                j = j + 1;
            }
            let word = src.substring_char(start, j).to_owned();
            if crate::text::str_eq(word.as_str(), "=") {
                toks.push((Tok::Equals, start));
            } else {
                toks.push((Tok::Name(word), start));
            }
            i = j;
        } else {
            return Err(err_at(src, i));
        }
    }
    Ok(toks)
}

/// The error position for a token index: the token's start, or the end of
/// the text after the last token.
fn tok_pos(src: &str, toks: &Vec<(Tok, usize)>, pos: usize) -> (r: usize) {
    if pos < toks.len() {
        toks[pos].1
    } else {
        src.unicode_len()
    }
}

/// Whether the token can begin a call argument.
fn starts_arg(t: &Tok) -> (r: bool) {
    match t {
        Tok::IntLit(_) => true,
        Tok::StrLit(_) => true,
        Tok::CharLit(_) => true,
        Tok::KwTrue => true,
        Tok::KwFalse => true,
        Tok::Name(_) => true,
        Tok::LParen => true,
        _ => false,
    }
}

/// Parses one call argument: a literal, a bare name, or a parenthesized
/// expression.
#[verifier::loop_isolation(false)]
fn parse_arg(src: &str, toks: &Vec<(Tok, usize)>, pos: usize) -> (r: Result<
    (AstNode, usize),
    ParseError,
>)
    requires
        pos <= toks@.len(),
    ensures
        match r {
            Ok((node, p2)) => pos < p2 <= toks@.len() && ast_wf(node@) && !(node@ is Eoi),
            Err(_) => true,
        },
    decreases toks@.len() - pos, 1int,
{
    proof {
        reveal_with_fuel(ast_wf, 3);
        reveal_with_fuel(crate::parser::ast::ast_view, 3);
    }
    if pos >= toks.len() {
        return Err(err_at(src, tok_pos(src, toks, pos)));
    }
    match &toks[pos].0 {
        Tok::IntLit(v) => Ok((AstNode::Int(*v), pos + 1)),
        Tok::StrLit(x) => Ok((AstNode::Str(x.clone()), pos + 1)),
        Tok::CharLit(c) => Ok((AstNode::Char(*c), pos + 1)),
        Tok::KwTrue => Ok((AstNode::Boolean(true), pos + 1)),
        Tok::KwFalse => Ok((AstNode::Boolean(false), pos + 1)),
        Tok::Name(n) => {
            let empty_args: Vec<AstNode> = Vec::new();
            proof {
                assert(ast_views(empty_args@) =~= Seq::<AstV>::empty());
            }
            let node = AstNode::Identifier { name: n.clone(), args: empty_args };
            Ok((node, pos + 1))
        },
        Tok::LParen => {
            let (inner, p2) = match parse_expr(src, toks, pos + 1) {
                Err(e) => {
                    return Err(e);
                },
                Ok(x) => x,
            };
            if p2 >= toks.len() {
                return Err(err_at(src, tok_pos(src, toks, p2)));
            }
            match &toks[p2].0 {
                Tok::RParen => Ok((AstNode::InParens(Box::new(inner)), p2 + 1)),
                _ => Err(err_at(src, tok_pos(src, toks, p2))),
            }
        },
        _ => Err(err_at(src, tok_pos(src, toks, pos))),
    }
}

/// Parses one expression.
#[verifier::loop_isolation(false)]
fn parse_expr(src: &str, toks: &Vec<(Tok, usize)>, pos: usize) -> (r: Result<
    (AstNode, usize),
    ParseError,
>)
    requires
        pos <= toks@.len(),
    ensures
        match r {
            Ok((node, p2)) => pos < p2 <= toks@.len() && ast_wf(node@) && !(node@ is Eoi),
            Err(_) => true,
        },
    decreases toks@.len() - pos, 2int,
{
    proof {
        reveal_with_fuel(ast_wf, 3);
        reveal_with_fuel(crate::parser::ast::ast_view, 3);
    }
    if pos >= toks.len() {
        return Err(err_at(src, tok_pos(src, toks, pos)));
    }
    match &toks[pos].0 {
        Tok::KwIf => {
            let (cond, p1) = match parse_expr(src, toks, pos + 1) {
                Err(e) => {
                    return Err(e);
                },
                Ok(x) => x,
            };
            if p1 >= toks.len() {
                return Err(err_at(src, tok_pos(src, toks, p1)));
            }
            match &toks[p1].0 {
                Tok::KwThen => {},
                _ => {
                    return Err(err_at(src, tok_pos(src, toks, p1)));
                },
            }
            let (tbranch, p2) = match parse_expr(src, toks, p1 + 1) {
                Err(e) => {
                    return Err(e);
                },
                Ok(x) => x,
            };
            if p2 >= toks.len() {
                return Err(err_at(src, tok_pos(src, toks, p2)));
            }
            match &toks[p2].0 {
                Tok::KwElse => {},
                _ => {
                    return Err(err_at(src, tok_pos(src, toks, p2)));
                },
            }
            let (fbranch, p3) = match parse_expr(src, toks, p2 + 1) {
                Err(e) => {
                    return Err(e);
                },
                Ok(x) => x,
            };
            Ok(
                (
                    AstNode::IfElse {
                        condition: Box::new(cond),
                        stmt_true: Box::new(tbranch),
                        stmt_false: Box::new(fbranch),
                    },
                    p3,
                ),
            )
        },
        Tok::Name(n) => {
            let name = n.clone();
            let mut args: Vec<AstNode> = Vec::new();
            let mut p = pos + 1;
            while p < toks.len() && starts_arg(&toks[p].0)
                invariant
                    pos < p <= toks@.len(),
                    forall|k: int| 0 <= k < args@.len() ==> ast_wf(ast_views(args@)[k]),
                    args@.len() <= p,
                decreases toks@.len() - p,
            {
                let (arg, p2) = match parse_arg(src, toks, p) {
                    Err(e) => {
                        return Err(e);
                    },
                    Ok(x) => x,
                };
                let ghost oldargs = args@;
                args.push(arg);
                proof {
                    lemma_ast_views_len(args@);
                    assert forall|k: int|
                        0 <= k < args@.len() implies ast_wf(ast_views(args@)[k]) by {
                        lemma_ast_views_index(args@, k);
                        if k < oldargs.len() {
                            lemma_ast_views_index(oldargs, k);
                            assert(args@[k] == oldargs[k]);
                        }
                    }
                }
                p = p2;
            }
            proof {
                lemma_ast_views_len(args@);
                lemma_ast_list_wf_from_all(ast_views(args@));
            }
            Ok((AstNode::Identifier { name, args }, p))
        },
        _ => parse_arg(src, toks, pos),
    }
}

/// Parses a parenthesized parameter list, after its opening parenthesis.
#[verifier::loop_isolation(false)]
fn parse_params(src: &str, toks: &Vec<(Tok, usize)>, pos: usize) -> (r: Result<
    (Vec<(AstNode, AstNode)>, usize),
    ParseError,
>)
    requires
        pos <= toks@.len(),
    ensures
        match r {
            Ok((pairs, p2)) => pos <= p2 <= toks@.len() && ast_pairs_wf(
                crate::parser::ast::ast_pair_views(pairs@),
            ),
            Err(_) => true,
        },
{
    let mut pairs: Vec<(AstNode, AstNode)> = Vec::new();
    let mut p = pos;
    if p < toks.len() {
        match &toks[p].0 {
            Tok::RParen => {
                proof {
                    crate::parser::ast::lemma_ast_pair_views_len(pairs@);
                    lemma_ast_pairs_wf_from_all(crate::parser::ast::ast_pair_views(pairs@));
                }
                return Ok((pairs, p + 1));
            },
            _ => {},
        }
    }
    loop
        invariant
            pos <= p <= toks@.len(),
            forall|k: int|
                0 <= k < pairs@.len() ==> (crate::parser::ast::ast_pair_views(pairs@)[k].0
                    matches AstV::Identifier { name: _, args: _ })
                    && crate::parser::ast::ast_pair_views(pairs@)[k].1 is Type,
        decreases toks@.len() - p,
    {
        if p >= toks.len() {
            return Err(err_at(src, tok_pos(src, toks, p)));
        }
        let pname = match &toks[p].0 {
            Tok::Name(n) => n.clone(),
            _ => {
                return Err(err_at(src, tok_pos(src, toks, p)));
            },
        };
        if p + 1 >= toks.len() {
            return Err(err_at(src, tok_pos(src, toks, p + 1)));
        }
        match &toks[p + 1].0 {
            Tok::Colon => {},
            _ => {
                return Err(err_at(src, tok_pos(src, toks, p + 1)));
            },
        }
        if p + 2 >= toks.len() {
            return Err(err_at(src, tok_pos(src, toks, p + 2)));
        }
        let tyname = match &toks[p + 2].0 {
            Tok::Name(n) => n.clone(),
            _ => {
                return Err(err_at(src, tok_pos(src, toks, p + 2)));
            },
        };
        let ghost oldpairs = pairs@;
        let pair = (
            AstNode::Identifier { name: pname, args: Vec::new() },
            AstNode::Type(tyname),
        );
        pairs.push(pair);
        proof {
            crate::parser::ast::lemma_ast_pair_views_len(pairs@);
            assert forall|k: int|
                0 <= k < pairs@.len() implies (crate::parser::ast::ast_pair_views(pairs@)[k].0
                matches AstV::Identifier { name: _, args: _ }) && crate::parser::ast::ast_pair_views(
                pairs@,
            )[k].1 is Type by {
                crate::parser::ast::lemma_ast_pair_views_index(pairs@, k);
                if k < oldpairs.len() {
                    crate::parser::ast::lemma_ast_pair_views_index(oldpairs, k);
                    assert(pairs@[k] == oldpairs[k]);
                }
            }
        }
        if p + 3 >= toks.len() {
            return Err(err_at(src, tok_pos(src, toks, p + 3)));
        }
        match &toks[p + 3].0 {
            Tok::Comma => {
                p = p + 4;
            },
            Tok::RParen => {
                proof {
                    lemma_ast_pairs_wf_from_all(crate::parser::ast::ast_pair_views(pairs@));
                }
                return Ok((pairs, p + 4));
            },
            _ => {
                return Err(err_at(src, tok_pos(src, toks, p + 3)));
            },
        }
    }
}

/// Parses one top-level declaration.
#[verifier::loop_isolation(false)]
#[verifier::rlimit(100)]
#[verifier::spinoff_prover]
fn parse_decl(src: &str, toks: &Vec<(Tok, usize)>, pos: usize) -> (r: Result<
    (AstNode, usize),
    ParseError,
>)
    requires
        pos <= toks@.len(),
    ensures
        match r {
            Ok((node, p2)) => pos < p2 <= toks@.len() && ast_wf(node@) && !(node@ is Eoi),
            Err(_) => true,
        },
{
    if pos >= toks.len() {
        return Err(err_at(src, tok_pos(src, toks, pos)));
    }
    match &toks[pos].0 {
        Tok::KwImport => {
            if pos + 1 >= toks.len() {
                return Err(err_at(src, tok_pos(src, toks, pos + 1)));
            }
            match &toks[pos + 1].0 {
                Tok::Name(n) => {
                    let mnode = AstNode::Module(n.clone());
                    proof {
                        assert(mnode@ is Module);
                    }
                    let node = AstNode::ModuleImport(Box::new(mnode));
                    proof {
                        assert(ast_wf(node@));
                    }
                    Ok((node, pos + 2))
                },
                _ => Err(err_at(src, tok_pos(src, toks, pos + 1))),
            }
        },
        Tok::KwModule => {
            if pos + 1 >= toks.len() {
                return Err(err_at(src, tok_pos(src, toks, pos + 1)));
            }
            match &toks[pos + 1].0 {
                Tok::Name(n) => {
                    let mnode = AstNode::Module(n.clone());
                    proof {
                        assert(mnode@ is Module);
                    }
                    let node = AstNode::ModuleDeclaration(Box::new(mnode));
                    proof {
                        assert(ast_wf(node@));
                    }
                    Ok((node, pos + 2))
                },
                _ => Err(err_at(src, tok_pos(src, toks, pos + 1))),
            }
        },
        Tok::KwLet => {
            if pos + 1 >= toks.len() {
                return Err(err_at(src, tok_pos(src, toks, pos + 1)));
            }
            let name = match &toks[pos + 1].0 {
                Tok::Name(n) => n.clone(),
                _ => {
                    return Err(err_at(src, tok_pos(src, toks, pos + 1)));
                },
            };
            let mut p = pos + 2;
            let mut pairs: Vec<(AstNode, AstNode)> = Vec::new();
            proof {
                crate::parser::ast::lemma_ast_pair_views_len(pairs@);
                lemma_ast_pairs_wf_from_all(crate::parser::ast::ast_pair_views(pairs@));
            }
            if p < toks.len() {
                let has_params = match &toks[p].0 {
                    Tok::LParen => true,
                    _ => false,
                };
                if has_params {
                    let (ps, p2) = match parse_params(src, toks, p + 1) {
                        Err(e) => {
                            return Err(e);
                        },
                        Ok(x) => x,
                    };
                    pairs = ps;
                    p = p2;
                }
            }
            if p >= toks.len() {
                return Err(err_at(src, tok_pos(src, toks, p)));
            }
            match &toks[p].0 {
                Tok::Colon => {},
                _ => {
                    return Err(err_at(src, tok_pos(src, toks, p)));
                },
            }
            if p + 1 >= toks.len() {
                return Err(err_at(src, tok_pos(src, toks, p + 1)));
            }
            let tyname = match &toks[p + 1].0 {
                Tok::Name(n) => n.clone(),
                _ => {
                    return Err(err_at(src, tok_pos(src, toks, p + 1)));
                },
            };
            if p + 2 >= toks.len() {
                return Err(err_at(src, tok_pos(src, toks, p + 2)));
            }
            match &toks[p + 2].0 {
                Tok::Equals => {},
                _ => {
                    return Err(err_at(src, tok_pos(src, toks, p + 2)));
                },
            }
            let (value, p3) = match parse_expr(src, toks, p + 3) {
                Err(e) => {
                    return Err(e);
                },
                Ok(x) => x,
            };
            let node = AstNode::Fn {
                name,
                return_type: Box::new(AstNode::Type(tyname)),
                args: Box::new(AstNode::FnArgs(pairs)),
                value: Box::new(value),
            };
            proof {
                reveal_with_fuel(ast_wf, 3);
                reveal_with_fuel(crate::parser::ast::ast_view, 3);
                assert(ast_wf(node@));
            }
            Ok((node, p3))
        },
        _ => Err(err_at(src, tok_pos(src, toks, pos))),
    }
}

/// Parses a Firework program into its syntax tree; every returned node is
/// well-formed and no end-of-input marker is kept.
#[verifier::loop_isolation(false)]
pub fn parse(input: &str) -> (r: Result<AST, ParseError>)
    ensures
        match r {
            Ok(nodes) => forall|i: int|
                0 <= i < nodes@.len() ==> ast_wf(ast_views(nodes@)[i]) && !(ast_views(
                    nodes@,
                )[i] is Eoi),
            Err(_) => true,
        },
{
    let toks = match tokenize(input) {
        Err(e) => {
            return Err(e);
        },
        Ok(t) => t,
    };
    let mut nodes: Vec<AstNode> = Vec::new();
    let mut p: usize = 0;
    while p < toks.len()
        invariant
            0 <= p <= toks@.len(),
            forall|i: int|
                0 <= i < nodes@.len() ==> ast_wf(ast_views(nodes@)[i]) && !(ast_views(
                    nodes@,
                )[i] is Eoi),
        decreases toks@.len() - p,
    {
        let (node, p2) = match parse_decl(input, &toks, p) {
            Err(e) => {
                return Err(e);
            },
            Ok(x) => x,
        };
        let ghost oldnodes = nodes@;
        nodes.push(node);
        proof {
            lemma_ast_views_len(nodes@);
            assert forall|i: int|
                0 <= i < nodes@.len() implies ast_wf(ast_views(nodes@)[i]) && !(ast_views(
                nodes@,
            )[i] is Eoi) by {
                lemma_ast_views_index(nodes@, i);
                if i < oldnodes.len() {
                    lemma_ast_views_index(oldnodes, i);
                    assert(nodes@[i] == oldnodes[i]);
                }
            }
        }
        p = p2;
    }
    Ok(nodes)
}

/// Parses one REPL line: a declaration or a single expression, which must
/// span the whole line.
#[verifier::loop_isolation(false)]
pub fn parse_repl(input: &str) -> (r: Result<AST, ParseError>)
    ensures
        match r {
            Ok(nodes) => forall|i: int|
                0 <= i < nodes@.len() ==> ast_wf(ast_views(nodes@)[i]) && !(ast_views(
                    nodes@,
                )[i] is Eoi),
            Err(_) => true,
        },
{
    let toks = match tokenize(input) {
        Err(e) => {
            return Err(e);
        },
        Ok(t) => t,
    };
    let is_decl = if toks.len() > 0 {
        match &toks[0].0 {
            Tok::KwLet => true,
            Tok::KwImport => true,
            Tok::KwModule => true,
            _ => false,
        }
    } else {
        false
    };
    let (node, p2) = if is_decl {
        match parse_decl(input, &toks, 0) {
            Err(e) => {
                return Err(e);
            },
            Ok(x) => x,
        }
    } else {
        match parse_expr(input, &toks, 0) {
            Err(e) => {
                return Err(e);
            },
            Ok(x) => x,
        }
    };
    if p2 < toks.len() {
        return Err(err_at(input, tok_pos(input, &toks, p2)));
    }
    let mut nodes: Vec<AstNode> = Vec::new();
    nodes.push(node);
    proof {
        lemma_ast_views_len(nodes@);
        assert forall|i: int|
            0 <= i < nodes@.len() implies ast_wf(ast_views(nodes@)[i]) && !(ast_views(
            nodes@,
        )[i] is Eoi) by {
            lemma_ast_views_index(nodes@, i);
        }
    }
    Ok(nodes)
}

} // verus!
