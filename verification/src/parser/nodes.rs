//! The syntax tree.

pub mod expr;
pub mod stmt;

use vstd::prelude::*;
use crate::lexer::token::{Token, TokenView};

verus! {

/// A parameter of a function: its name, and the token that names its type.
#[derive(Debug, PartialEq)]
pub struct Param {
    pub name: String,
    pub type_: Token,
}

/// A [`Param`] as a mathematical value.
pub struct ParamView {
    pub name: Seq<char>,
    pub type_: TokenView,
}

impl View for Param {
    type V = ParamView;

    open spec fn view(&self) -> ParamView {
        ParamView { name: self.name@, type_: self.type_@ }
    }
}

impl DeepView for Param {
    type V = ParamView;

    open spec fn deep_view(&self) -> ParamView {
        self@
    }
}

impl ParamView {
    /// The names of the parameters `params`, in order.
    pub open spec fn names(params: Seq<ParamView>) -> Seq<Seq<char>> {
        Seq::new(params.len(), |i: int| params[i].name)
    }
}

impl Param {
    pub fn new(name: String, type_: Token) -> (param: Param)
        ensures
            param.name == name,
            param.type_ == type_,
    {
        Param { name, type_ }
    }

    /// The names of the parameters `params`, in order.
    pub fn names(params: &Vec<Param>) -> (names: Vec<String>)
        ensures
            names.deep_view() == ParamView::names(params.deep_view()),
    {
        let mut names: Vec<String> = Vec::new();
        let mut i: usize = 0;
        while i < params.len()
            invariant
                i <= params.len(),
                names.deep_view() =~= ParamView::names(params.deep_view()).take(i as int),
            decreases params.len() - i,
        {
            let ghost before = names.deep_view();
            let name = params[i].name.clone();
            names.push(name);
            assert(names.deep_view() =~= before.push(name@));
            i += 1;
        }
        assert(names.deep_view() =~= ParamView::names(params.deep_view()));
        names
    }
}

impl Clone for Param {
    fn clone(&self) -> (copy: Param)
        ensures
            copy == *self,
    {
        Param { name: self.name.clone(), type_: self.type_.clone() }
    }
}

impl Param {
    /// Copies of the parameters `params`, in order.
    pub fn clone_each(params: &Vec<Param>) -> (copies: Vec<Param>)
        ensures
            copies.deep_view() == params.deep_view(),
    {
        let mut copies: Vec<Param> = Vec::new();
        let mut i: usize = 0;
        while i < params.len()
            invariant
                i <= params.len(),
                copies.deep_view() =~= params.deep_view().take(i as int),
            decreases params.len() - i,
        {
            let ghost before = copies.deep_view();
            let copy = params[i].clone();
            copies.push(copy);
            assert(copies.deep_view() =~= before.push(copy@));
            i += 1;
        }
        assert(copies.deep_view() =~= params.deep_view());
        copies
    }
}

} // verus!
