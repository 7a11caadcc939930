//! Turns a Firework syntax tree into Haskell source text. This is the
//! simpler, parallel backend beside the SSA code generator; its output is
//! handed to an external toolchain by the driver.
use crate::parser::ast::{ast_height, AstNode, AST};
use crate::text::{i64_to_string, push_char, trim_string};
use vstd::prelude::*;

verus! {

#[derive(Debug)]
pub struct Transpiler {}

/// Quotes a string as a double-quoted literal, escaping backslashes,
/// quotes and the common control characters.
fn quote_string(s: &str) -> (r: String) {
    let mut out = String::new();
    push_char(&mut out, '"');
    let n = s.unicode_len();
    let mut i: usize = 0;
    while i < n
        invariant
            0 <= i <= n,
            n == s@.len(),
        decreases n - i,
    {
        let c = s.get_char(i);
        if c == '\\' {
            out.append("\\\\");
        } else if c == '"' {
            out.append("\\\"");
        } else if c == '\n' {
            out.append("\\n");
        } else if c == '\r' {
            out.append("\\r");
        } else if c == '\t' {
            out.append("\\t");
        } else {
            push_char(&mut out, c);
        }
        i = i + 1;
    }
    push_char(&mut out, '"');
    out
}

/// Quotes a character as a single-quoted literal.
fn quote_char(c: char) -> (r: String) {
    let mut out = String::new();
    push_char(&mut out, '\'');
    if c == '\\' {
        out.append("\\\\");
    } else if c == '\'' {
        out.append("\\'");
    } else if c == '\n' {
        out.append("\\n");
    } else if c == '\r' {
        out.append("\\r");
    } else if c == '\t' {
        out.append("\\t");
    } else {
        push_char(&mut out, c);
    }
    push_char(&mut out, '\'');
    out
}

impl Transpiler {
    pub fn new() -> (r: Self) {
        Self {  }
    }

    /// Splits a parameter list into its transpiled names and types.
    #[verifier::loop_isolation(false)]
    fn handle_args(&self, args: &Vec<(AstNode, AstNode)>) -> (r: (Vec<String>, Vec<String>))
        decreases crate::parser::ast::ast_pairs_height(
            crate::parser::ast::ast_pair_views(args@),
        ), 2int,
    {
        proof {
            crate::parser::ast::lemma_ast_pair_views_len(args@);
        }
        let mut names: Vec<String> = Vec::new();
        let mut types: Vec<String> = Vec::new();
        let mut i: usize = 0;
        while i < args.len()
            invariant
                0 <= i <= args@.len(),
            decreases args@.len() - i,
        {
            proof {
                crate::parser::ast::lemma_ast_pair_views_index(args@, i as int);
                crate::parser::ast::lemma_ast_pairs_height_index(
                    crate::parser::ast::ast_pair_views(args@),
                    i as int,
                );
            }
            names.push(self.transpile_ast_node(&args[i].0));
            types.push(self.transpile_ast_node(&args[i].1));
            i = i + 1;
        }
        (names, types)
    }

    /// Joins strings with a separator.
    fn join(parts: &Vec<String>, sep: &str) -> (r: String) {
        let mut out = String::new();
        let mut i: usize = 0;
        while i < parts.len()
            invariant
                0 <= i <= parts@.len(),
            decreases parts@.len() - i,
        {
            if i > 0 {
                out.append(sep);
            }
            out.append(parts[i].as_str());
            i = i + 1;
        }
        out
    }

    /// Renders one syntax node as Haskell source text.
    #[verifier::loop_isolation(false)]
    fn transpile_ast_node(&self, ast_node: &AstNode) -> (r: String)
        decreases ast_height(ast_node@), 1int,
    {
        match ast_node {
            AstNode::Str(x) => quote_string(x.as_str()),
            AstNode::Eoi => String::new(),
            AstNode::Boolean(x) => {
                if *x {
                    ("True").to_owned()
                } else {
                    ("False").to_owned()
                }
            },
            AstNode::Char(x) => quote_char(*x),
            AstNode::Type(x) => x.clone(),
            AstNode::Int(x) => {
                if *x < 0 {
                    let mut out = String::new();
                    push_char(&mut out, '(');
                    out.append(i64_to_string(*x).as_str());
                    push_char(&mut out, ')');
                    out
                } else {
                    i64_to_string(*x)
                }
            },
            AstNode::Module(x) => x.clone(),
            AstNode::ModuleDeclaration(x) => {
                let mut out = ("module ").to_owned();
                out.append(self.transpile_ast_node(x).as_str());
                out.append(" where");
                out
            },
            AstNode::ModuleImport(x) => {
                let mut out = ("import ").to_owned();
                out.append(self.transpile_ast_node(x).as_str());
                out
            },
            AstNode::Identifier { name, args } => {
                let mut parts: Vec<String> = Vec::new();
                let mut i: usize = 0;
                while i < args.len()
                    invariant
                        0 <= i <= args@.len(),
                    decreases args@.len() - i,
                {
                    proof {
                        crate::parser::ast::lemma_ast_views_index(args@, i as int);
                        crate::parser::ast::lemma_ast_list_height_index(
                            crate::parser::ast::ast_views(args@),
                            i as int,
                        );
                    }
                    parts.push(self.transpile_ast_node(&args[i]));
                    i = i + 1;
                }
                let mut out = name.clone();
                out.append(" ");
                out.append(Self::join(&parts, " ").as_str());
                out
            },
            AstNode::Fn { name, return_type, args, value } => {
                let (names, types) = match &**args {
                    AstNode::FnArgs(pairs) => {
                        proof {
                            crate::parser::ast::lemma_ast_pair_views_len(pairs@);
                            assert(ast_height((**args)@) == 1
                                + crate::parser::ast::ast_pairs_height(
                                crate::parser::ast::ast_pair_views(pairs@),
                            ));
                            assert(ast_height(ast_node@) > ast_height((**args)@));
                        }
                        self.handle_args(pairs)
                    },
                    _ => (Vec::new(), Vec::new()),
                };
                let types_text = if types.len() == 0 {
                    String::new()
                } else {
                    let mut t = Self::join(&types, " ");
                    t.append(" ->");
                    t
                };
                let mut out = name.clone();
                out.append(" :: ");
                out.append(types_text.as_str());
                out.append(" ");
                out.append(self.transpile_ast_node(return_type).as_str());
                out.append("\n");
                out.append(name.as_str());
                out.append(" ");
                out.append(Self::join(&names, " ").as_str());
                out.append(" = ");
                out.append(self.transpile_ast_node(value).as_str());
                out
            },
            AstNode::AnonFn { args, return_type, value } => {
                let (names, _) = match &**args {
                    AstNode::FnArgs(pairs) => {
                        proof {
                            crate::parser::ast::lemma_ast_pair_views_len(pairs@);
                            assert(ast_height((**args)@) == 1
                                + crate::parser::ast::ast_pairs_height(
                                crate::parser::ast::ast_pair_views(pairs@),
                            ));
                            assert(ast_height(ast_node@) > ast_height((**args)@));
                        }
                        self.handle_args(pairs)
                    },
                    _ => (Vec::new(), Vec::new()),
                };
                let args_text = if names.len() == 0 {
                    ("()").to_owned()
                } else {
                    Self::join(&names, " ")
                };
                let mut out = ("\\").to_owned();
                out.append(args_text.as_str());
                out.append(" -> (");
                out.append(self.transpile_ast_node(value).as_str());
                out.append(" :: ");
                out.append(self.transpile_ast_node(return_type).as_str());
                out.append(")");
                out
            },
            AstNode::Enum { name, variants } => {
                let mut parts: Vec<String> = Vec::new();
                let mut i: usize = 0;
                while i < variants.len()
                    invariant
                        0 <= i <= variants@.len(),
                    decreases variants@.len() - i,
                {
                    proof {
                        crate::parser::ast::lemma_ast_views_index(variants@, i as int);
                        crate::parser::ast::lemma_ast_list_height_index(
                            crate::parser::ast::ast_views(variants@),
                            i as int,
                        );
                    }
                    parts.push(self.transpile_ast_node(&variants[i]));
                    i = i + 1;
                }
                let mut out = ("data ").to_owned();
                out.append(name.as_str());
                out.append(" = ");
                out.append(Self::join(&parts, "|").as_str());
                out
            },
            AstNode::IfElse { condition, stmt_true, stmt_false } => {
                let mut out = ("if ").to_owned();
                out.append(self.transpile_ast_node(condition).as_str());
                out.append(" then ");
                out.append(self.transpile_ast_node(stmt_true).as_str());
                out.append(" else ");
                out.append(self.transpile_ast_node(stmt_false).as_str());
                out
            },
            AstNode::List(_) => String::new(),
            AstNode::InParens(inner) => {
                let mut out = ("(").to_owned();
                out.append(self.transpile_ast_node(inner).as_str());
                out.append(")");
                out
            },
            AstNode::FnArgs(_) => String::new(),
        }
    }

    /// Renders a whole program, one declaration per line, trimmed.
    pub fn transpile_ast(&self, ast: AST) -> (r: String) {
        let mut out = String::new();
        let mut i: usize = 0;
        while i < ast.len()
            invariant
                0 <= i <= ast@.len(),
            decreases ast@.len() - i,
        {
            out.append(self.transpile_ast_node(&ast[i]).as_str());
            out.append("\n");
            i = i + 1;
        }
        trim_string(out.as_str())
    }
}

} // verus!
