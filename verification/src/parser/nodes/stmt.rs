//! Statements.

use vstd::prelude::*;
use vstd::std_specs::vec::axiom_vec_index_decreases;
use crate::lexer::token::{Token, TokenView};
use crate::parser::nodes::expr::{Expr, ExprView};
use crate::parser::nodes::{Param, ParamView};

verus! {

/// A variable declaration.
#[derive(Debug, PartialEq)]
pub struct Var {
    pub name: String,
    pub initializer: Option<Expr>,
}

impl Var {
    pub fn new(name: String, initializer: Option<Expr>) -> (node: Var)
        ensures
            node.name == name,
            node.initializer == initializer,
    {
        Var { name, initializer }
    }
}

/// A function declaration.
#[derive(Debug, PartialEq)]
pub struct Fn {
    pub name: String,
    pub params: Vec<Param>,
    pub body: Vec<Stmt>,
    /// The token that names the type returned, where one is written.
    pub return_type: Option<Token>,
}

impl Fn {
    pub fn new(name: String, params: Vec<Param>, body: Vec<Stmt>, return_type: Option<Token>) -> (node:
        Fn)
        ensures
            node.name == name,
            node.params == params,
            node.body == body,
            node.return_type == return_type,
    {
        Fn { name, params, body, return_type }
    }
}

#[derive(Debug, PartialEq)]
pub enum Stmt {
    ExprStmt(Expr),
    VarDecl(Var),
    FnDecl(Fn),
    Return(Option<Expr>),
    /// An import of a module of the language, by the segments of its path.
    LangImport(Vec<String>),
    /// An import of a file, by its path.
    FileImport(String),
}

/// A [`Stmt`] as a mathematical value.
pub enum StmtView {
    ExprStmt { expression: ExprView },
    VarDecl { name: Seq<char>, initializer: Option<ExprView> },
    FnDecl {
        name: Seq<char>,
        params: Seq<ParamView>,
        body: Seq<StmtView>,
        return_type: Option<TokenView>,
    },
    Return { value: Option<ExprView> },
    LangImport { segments: Seq<Seq<char>> },
    FileImport { path: Seq<char> },
}

impl Stmt {
    /// The tree as a mathematical value.
    pub open spec fn model(&self) -> StmtView
        decreases self,
    {
        match self {
            Stmt::ExprStmt(expression) => StmtView::ExprStmt { expression: expression@ },
            Stmt::VarDecl(node) => StmtView::VarDecl {
                name: node.name@,
                initializer: node.initializer.deep_view(),
            },
            Stmt::FnDecl(node) => StmtView::FnDecl {
                name: node.name@,
                params: node.params.deep_view(),
                body: Seq::new(
                    node.body@.len(),
                    |i: int|
                        if 0 <= i < node.body@.len() {
                            node.body[i].model()
                        } else {
                            arbitrary()
                        },
                ),
                return_type: node.return_type.deep_view(),
            },
            Stmt::Return(value) => StmtView::Return { value: value.deep_view() },
            Stmt::LangImport(segments) => StmtView::LangImport { segments: segments.deep_view() },
            Stmt::FileImport(path) => StmtView::FileImport { path: path@ },
        }
    }

    /// The statements of a function's body are viewed one by one.
    pub proof fn lemma_fn_decl(node: Fn)
        ensures
            Stmt::FnDecl(node)@ == (StmtView::FnDecl {
                name: node.name@,
                params: node.params.deep_view(),
                body: node.body.deep_view(),
                return_type: node.return_type.deep_view(),
            }),
    {
        assert(Stmt::FnDecl(node)@->FnDecl_body =~= node.body.deep_view());
    }
}

impl View for Stmt {
    type V = StmtView;

    open spec fn view(&self) -> StmtView {
        self.model()
    }
}

impl DeepView for Stmt {
    type V = StmtView;

    open spec fn deep_view(&self) -> StmtView {
        self.model()
    }
}

/// Copies of the strings `texts`, in order.
fn clone_strings(texts: &Vec<String>) -> (copies: Vec<String>)
    ensures
        copies.deep_view() == texts.deep_view(),
{
    let mut copies: Vec<String> = Vec::new();
    let mut i: usize = 0;
    while i < texts.len()
        invariant
            i <= texts.len(),
            copies.deep_view() =~= texts.deep_view().take(i as int),
        decreases texts.len() - i,
    {
        let ghost before = copies.deep_view();
        let copy = texts[i].clone();
        copies.push(copy);
        assert(copies.deep_view() =~= before.push(copy@));
        i += 1;
    }
    assert(copies.deep_view() =~= texts.deep_view());
    copies
}

/// A copy of the expression `expr`, where there is one.
fn clone_optional(expr: &Option<Expr>) -> (copy: Option<Expr>)
    ensures
        copy.deep_view() == expr.deep_view(),
{
    match expr {
        Some(expr) => Some(expr.clone()),
        None => None,
    }
}

/// A copy of the token `token`, where there is one.
fn clone_token(token: &Option<Token>) -> (copy: Option<Token>)
    ensures
        copy == *token,
{
    match token {
        Some(token) => Some(token.clone()),
        None => None,
    }
}

impl Clone for Var {
    fn clone(&self) -> (copy: Var)
        ensures
            copy.name == self.name,
            copy.initializer.deep_view() == self.initializer.deep_view(),
    {
        Var { name: self.name.clone(), initializer: clone_optional(&self.initializer) }
    }
}

impl Clone for Fn {
    fn clone(&self) -> (copy: Fn)
        ensures
            copy.name == self.name,
            copy.params.deep_view() == self.params.deep_view(),
            copy.body.deep_view() == self.body.deep_view(),
            copy.return_type == self.return_type,
    {
        Fn {
            name: self.name.clone(),
            params: Param::clone_each(&self.params),
            body: Stmt::clone_each(&self.body),
            return_type: clone_token(&self.return_type),
        }
    }
}

impl Stmt {
    /// Copies of the statements `stmts`, in order.
    pub fn clone_each(stmts: &Vec<Stmt>) -> (copies: Vec<Stmt>)
        ensures
            copies.deep_view() == stmts.deep_view(),
        decreases stmts,
    {
        let mut copies: Vec<Stmt> = Vec::new();
        let mut i: usize = 0;
        while i < stmts.len()
            invariant
                i <= stmts.len(),
                copies.deep_view() =~= stmts.deep_view().take(i as int),
            decreases stmts.len() - i,
        {
            let ghost before = copies.deep_view();
            proof {
                axiom_vec_index_decreases(*stmts, i as int);
            }
            let copy = stmts[i].clone();
            copies.push(copy);
            assert(copies.deep_view() =~= before.push(copy@));
            i += 1;
        }
        assert(copies.deep_view() =~= stmts.deep_view());
        copies
    }
}

impl Clone for Stmt {
    fn clone(&self) -> (copy: Stmt)
        ensures
            copy@ == self@,
        decreases self,
    {
        match self {
            Stmt::ExprStmt(expr) => Stmt::ExprStmt(expr.clone()),
            Stmt::VarDecl(node) => Stmt::VarDecl(
                Var { name: node.name.clone(), initializer: clone_optional(&node.initializer) },
            ),
            Stmt::FnDecl(node) => {
                let copy = Fn {
                    name: node.name.clone(),
                    params: Param::clone_each(&node.params),
                    body: Stmt::clone_each(&node.body),
                    return_type: clone_token(&node.return_type),
                };
                proof {
                    Stmt::lemma_fn_decl(*node);
                    Stmt::lemma_fn_decl(copy);
                }
                Stmt::FnDecl(copy)
            },
            Stmt::Return(value) => Stmt::Return(clone_optional(value)),
            Stmt::LangImport(segments) => Stmt::LangImport(clone_strings(segments)),
            Stmt::FileImport(path) => Stmt::FileImport(path.clone()),
        }
    }
}

} // verus!
