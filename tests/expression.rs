use interaction_nets::expression::Expr::{Abs, App, Var};
use interaction_nets::expression::{abs, app, v};

#[test]
fn var_macro() {
    assert_eq!(v("x"), Var("x".to_string()));
}

#[test]
fn app_macro() {
    // x x
    let e1 = app(v("x"), v("x"));
    let e2 = App(Box::new(Var("x".into())), Box::new(Var("x".into())));
    assert_eq!(e1, e2);
}

#[test]
fn abs_macro() {
    let e1 = abs("x", v("x"));
    let e2 = Abs("x".to_string(), Box::new(Var("x".to_string())));
    assert_eq!(e1, e2);
}
