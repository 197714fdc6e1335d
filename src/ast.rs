use vstd::prelude::*;

verus! {

/// An identifier, with the character that quoted it, if any.
#[derive(Clone, Debug, PartialEq, Eq)]
pub struct Ident {
    pub value: Vec<char>,
    pub quote_style: Option<char>,
}

#[derive(Clone, Copy, Debug, PartialEq, Eq, Structural)]
pub enum BinaryOperator {
    Lt,
    Gt,
    Eq,
}

#[derive(Debug, PartialEq, Eq)]
pub enum Expr {
    Identifier(Ident),
    /// A numeric literal, as its digits.
    Number(Vec<char>),
    BinaryOp { left: Box<Expr>, op: BinaryOperator, right: Box<Expr> },
    InList { expr: Box<Expr>, list: Vec<Expr> },
    /// A call of one argument, with the condition of its `FILTER` clause.
    Function { name: Ident, arg: Box<Expr>, filter: Option<Box<Expr>> },
}

#[derive(Debug, PartialEq, Eq)]
pub enum Statement {
    /// `INSERT [OR REPLACE] INTO table [(columns)] VALUES (values)`.
    Insert { or_replace: bool, table: Ident, columns: Vec<Ident>, values: Vec<Expr> },
}

} // verus!
