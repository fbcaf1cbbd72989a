//! Expressions.

use vstd::prelude::*;
use vstd::std_specs::vec::axiom_vec_index_decreases;
use crate::lexer::token::{Token, TokenView};

verus! {

/// The value of a literal.
#[derive(Debug, PartialEq)]
pub enum Type {
    Int(i64),
    /// A number, as the decimal numeral that was written.
    Float(String),
    String(String),
    Bool(bool),
    /// A bare name.
    Iden(String),
    Void,
    Unknown,
}

/// A [`Type`] as a mathematical value.
pub enum TypeView {
    Int(i64),
    Float(Seq<char>),
    String(Seq<char>),
    Bool(bool),
    Iden(Seq<char>),
    Void,
    Unknown,
}

impl View for Type {
    type V = TypeView;

    open spec fn view(&self) -> TypeView {
        match self {
            Type::Int(value) => TypeView::Int(*value),
            Type::Float(numeral) => TypeView::Float(numeral@),
            Type::String(contents) => TypeView::String(contents@),
            Type::Bool(value) => TypeView::Bool(*value),
            Type::Iden(name) => TypeView::Iden(name@),
            Type::Void => TypeView::Void,
            Type::Unknown => TypeView::Unknown,
        }
    }
}

#[derive(Debug, PartialEq)]
pub struct LiteralExpr {
    pub value: Type,
}

impl LiteralExpr {
    pub fn new(value: Type) -> (node: Self)
        ensures
            node.value == value,
    {
        Self { value }
    }
}

/// An expression in parentheses.
#[derive(Debug, PartialEq)]
pub struct GroupingExpr {
    pub expression: Box<Expr>,
}

impl GroupingExpr {
    pub fn new(expression: Box<Expr>) -> (node: Self)
        ensures
            node.expression == expression,
    {
        Self { expression }
    }
}

#[derive(Debug, PartialEq)]
pub struct BinaryExpr {
    pub left: Box<Expr>,
    pub operator: Token,
    pub right: Box<Expr>,
}

impl BinaryExpr {
    pub fn new(left: Box<Expr>, operator: Token, right: Box<Expr>) -> (node: Self)
        ensures
            node.left == left,
            node.operator == operator,
            node.right == right,
    {
        Self { left, operator, right }
    }
}

#[derive(Debug, PartialEq)]
pub struct UnaryExpr {
    pub operator: Token,
    pub right: Box<Expr>,
}

impl UnaryExpr {
    pub fn new(operator: Token, right: Box<Expr>) -> (node: Self)
        ensures
            node.operator == operator,
            node.right == right,
    {
        Self { operator, right }
    }
}

/// A call: what is called, the closing parenthesis, and the arguments in
/// order.
#[derive(Debug, PartialEq)]
pub struct CallExpr {
    pub callee: Box<Expr>,
    pub paren: Token,
    pub args: Vec<Expr>,
}

impl CallExpr {
    pub fn new(callee: Box<Expr>, paren: Token, args: Vec<Expr>) -> (node: Self)
        ensures
            node.callee == callee,
            node.paren == paren,
            node.args == args,
    {
        Self { callee, paren, args }
    }
}

/// Access to a member: `object.name`.
#[derive(Debug, PartialEq)]
pub struct GetExpr {
    pub object: Box<Expr>,
    pub name: Token,
}

impl GetExpr {
    pub fn new(object: Box<Expr>, name: Token) -> (node: Self)
        ensures
            node.object == object,
            node.name == name,
    {
        Self { object, name }
    }
}

/// An expression. Every node owns its operands.
#[derive(Debug, PartialEq)]
pub enum Expr {
    Literal(LiteralExpr),
    Grouping(GroupingExpr),
    Binary(BinaryExpr),
    Unary(UnaryExpr),
    Call(CallExpr),
    Get(GetExpr),
}

/// An [`Expr`] as a mathematical value.
pub enum ExprView {
    Literal { value: TypeView },
    Grouping { expression: Box<ExprView> },
    Binary { left: Box<ExprView>, operator: TokenView, right: Box<ExprView> },
    Unary { operator: TokenView, right: Box<ExprView> },
    Call { callee: Box<ExprView>, paren: TokenView, args: Seq<ExprView> },
    Get { object: Box<ExprView>, name: TokenView },
}

impl Expr {
    /// The tree as a mathematical value.
    pub open spec fn model(&self) -> ExprView
        decreases self,
    {
        match self {
            Expr::Literal(node) => ExprView::Literal { value: node.value@ },
            Expr::Grouping(node) => ExprView::Grouping {
                expression: Box::new(node.expression.model()),
            },
            Expr::Binary(node) => ExprView::Binary {
                left: Box::new(node.left.model()),
                operator: node.operator@,
                right: Box::new(node.right.model()),
            },
            Expr::Unary(node) => ExprView::Unary {
                operator: node.operator@,
                right: Box::new(node.right.model()),
            },
            Expr::Call(node) => ExprView::Call {
                callee: Box::new(node.callee.model()),
                paren: node.paren@,
                args: Seq::new(
                    node.args@.len(),
                    |i: int|
                        if 0 <= i < node.args@.len() {
                            node.args[i].model()
                        } else {
                            arbitrary()
                        },
                ),
            },
            Expr::Get(node) => ExprView::Get {
                object: Box::new(node.object.model()),
                name: node.name@,
            },
        }
    }

    /// The arguments of a call are viewed one by one.
    pub proof fn lemma_call(node: CallExpr)
        ensures
            Expr::Call(node)@ == (ExprView::Call {
                callee: Box::new(node.callee@),
                paren: node.paren@,
                args: node.args.deep_view(),
            }),
    {
        assert(Expr::Call(node)@->Call_args =~= node.args.deep_view());
    }
}

impl View for Expr {
    type V = ExprView;

    open spec fn view(&self) -> ExprView {
        self.model()
    }
}

impl DeepView for Expr {
    type V = ExprView;

    open spec fn deep_view(&self) -> ExprView {
        self.model()
    }
}

impl Clone for Type {
    fn clone(&self) -> (copy: Type)
        ensures
            copy == *self,
    {
        match self {
            Type::Int(value) => Type::Int(*value),
            Type::Float(numeral) => Type::Float(numeral.clone()),
            Type::String(contents) => Type::String(contents.clone()),
            Type::Bool(value) => Type::Bool(*value),
            Type::Iden(name) => Type::Iden(name.clone()),
            Type::Void => Type::Void,
            Type::Unknown => Type::Unknown,
        }
    }
}

impl Clone for LiteralExpr {
    fn clone(&self) -> (copy: LiteralExpr)
        ensures
            copy == *self,
    {
        LiteralExpr { value: self.value.clone() }
    }
}

impl Clone for GroupingExpr {
    fn clone(&self) -> (copy: GroupingExpr)
        ensures
            copy.expression@ == self.expression@,
    {
        GroupingExpr { expression: Box::new((*self.expression).clone()) }
    }
}

impl Clone for BinaryExpr {
    fn clone(&self) -> (copy: BinaryExpr)
        ensures
            copy.left@ == self.left@,
            copy.operator == self.operator,
            copy.right@ == self.right@,
    {
        BinaryExpr {
            left: Box::new((*self.left).clone()),
            operator: self.operator.clone(),
            right: Box::new((*self.right).clone()),
        }
    }
}

impl Clone for UnaryExpr {
    fn clone(&self) -> (copy: UnaryExpr)
        ensures
            copy.operator == self.operator,
            copy.right@ == self.right@,
    {
        UnaryExpr { operator: self.operator.clone(), right: Box::new((*self.right).clone()) }
    }
}

impl Clone for CallExpr {
    fn clone(&self) -> (copy: CallExpr)
        ensures
            copy.callee@ == self.callee@,
            copy.paren == self.paren,
            copy.args.deep_view() == self.args.deep_view(),
    {
        CallExpr {
            callee: Box::new((*self.callee).clone()),
            paren: self.paren.clone(),
            args: Expr::clone_each(&self.args),
        }
    }
}

impl Clone for GetExpr {
    fn clone(&self) -> (copy: GetExpr)
        ensures
            copy.object@ == self.object@,
            copy.name == self.name,
    {
        GetExpr { object: Box::new((*self.object).clone()), name: self.name.clone() }
    }
}

impl Expr {
    /// Copies of the expressions `exprs`, in order.
    pub fn clone_each(exprs: &Vec<Expr>) -> (copies: Vec<Expr>)
        ensures
            copies.deep_view() == exprs.deep_view(),
        decreases exprs,
    {
        let mut copies: Vec<Expr> = Vec::new();
        let mut i: usize = 0;
        while i < exprs.len()
            invariant
                i <= exprs.len(),
                copies.deep_view() =~= exprs.deep_view().take(i as int),
            decreases exprs.len() - i,
        {
            let ghost before = copies.deep_view();
            proof {
                axiom_vec_index_decreases(*exprs, i as int);
            }
            let copy = exprs[i].clone();
            copies.push(copy);
            assert(copies.deep_view() =~= before.push(copy@));
            i += 1;
        }
        assert(copies.deep_view() =~= exprs.deep_view());
        copies
    }
}

impl Clone for Expr {
    fn clone(&self) -> (copy: Expr)
        ensures
            copy@ == self@,
        decreases self,
    {
        match self {
            Expr::Literal(node) => Expr::Literal(LiteralExpr { value: node.value.clone() }),
            Expr::Grouping(node) => Expr::Grouping(
                GroupingExpr { expression: Box::new((*node.expression).clone()) },
            ),
            Expr::Binary(node) => Expr::Binary(
                BinaryExpr {
                    left: Box::new((*node.left).clone()),
                    operator: node.operator.clone(),
                    right: Box::new((*node.right).clone()),
                },
            ),
            Expr::Unary(node) => Expr::Unary(
                UnaryExpr {
                    operator: node.operator.clone(),
                    right: Box::new((*node.right).clone()),
                },
            ),
            Expr::Call(node) => {
                let copy = CallExpr {
                    callee: Box::new((*node.callee).clone()),
                    paren: node.paren.clone(),
                    args: Expr::clone_each(&node.args),
                };
                proof {
                    Expr::lemma_call(*node);
                    Expr::lemma_call(copy);
                }
                Expr::Call(copy)
            },
            Expr::Get(node) => Expr::Get(
                GetExpr { object: Box::new((*node.object).clone()), name: node.name.clone() },
            ),
        }
    }
}

} // verus!
