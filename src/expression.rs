//! A skeletal lambda-term syntax, for front ends that build nets.

use vstd::prelude::*;

verus! {

/// Lambda expression
#[derive(Debug, PartialEq, Eq)]
pub enum Expr {
    /// Variable
    Var(String),
    /// Application
    App(Box<Expr>, Box<Expr>),
    /// Abstraction
    Abs(String, Box<Expr>),
}

/// The variable named `name`.
pub fn v(name: &str) -> (e: Expr)
    ensures
        e matches Expr::Var(n) && n@ == name@,
{
    Expr::Var(name.to_owned())
}

/// The application of `e1` to `e2`.
pub fn app(e1: Expr, e2: Expr) -> (e: Expr)
    ensures
        e matches Expr::App(f, a) && *f == e1 && *a == e2,
{
    Expr::App(Box::new(e1), Box::new(e2))
}

/// The abstraction of `name` over `body`.
pub fn abs(name: &str, body: Expr) -> (e: Expr)
    ensures
        e matches Expr::Abs(n, b) && n@ == name@ && *b == body,
{
    Expr::Abs(name.to_owned(), Box::new(body))
}

} // verus!
