use eval_context::settings::{AngleUnit, DepthLimit, Rounding};
use eval_context::Context;

#[derive(Clone, Debug, PartialEq)]
enum Expr {
    Num(i64),
    Var(String),
    Add(Box<Expr>, Box<Expr>),
}

fn params(names: &[&str]) -> Vec<String> {
    names.iter().map(|n| n.to_string()).collect()
}

#[test]
fn default_context_is_empty_with_default_settings() {
    let c: Context<Expr> = Context::default();
    assert!(c.functions.entries().is_empty());
    assert!(c.variables.entries().is_empty());
    assert_eq!(c.rounding, Rounding::Round(8));
    assert_eq!(c.angle_unit, AngleUnit::Radian);
    assert_eq!(c.depth_limit, DepthLimit::Limit(49));
}

#[test]
fn settings_defaults() {
    assert_eq!(Rounding::default(), Rounding::Round(8));
    assert_eq!(AngleUnit::default(), AngleUnit::Radian);
    assert_eq!(DepthLimit::default(), DepthLimit::Limit(49));
}

#[test]
fn new_keeps_given_settings() {
    let c: Context<Expr> = Context::new(Rounding::NoRounding, AngleUnit::Turn, DepthLimit::NoLimit);
    assert!(c.functions.entries().is_empty());
    assert!(c.variables.entries().is_empty());
    assert_eq!(c.rounding, Rounding::NoRounding);
    assert_eq!(c.angle_unit, AngleUnit::Turn);
    assert_eq!(c.depth_limit, DepthLimit::NoLimit);

    let d: Context<Expr> = Context::new(Rounding::Round(4), AngleUnit::Degree, DepthLimit::Limit(10));
    assert_eq!(d.rounding, Rounding::Round(4));
    assert_eq!(d.angle_unit, AngleUnit::Degree);
    assert_eq!(d.depth_limit, DepthLimit::Limit(10));
}

#[test]
fn add_function_then_get_it_back() {
    let mut c: Context<Expr> = Context::default();
    let body = Expr::Add(Box::new(Expr::Var("x".to_string())), Box::new(Expr::Num(1)));
    c.add_function("inc".to_string(), params(&["x"]), Box::new(body.clone()));
    let (p, b) = c.get_function("inc").unwrap();
    assert_eq!(p, params(&["x"]));
    assert_eq!(*b, body);
    assert!(c.is_function("inc"));
    assert!(!c.is_var("inc"));
}

#[test]
fn redefining_a_function_keeps_only_the_last() {
    let mut c: Context<Expr> = Context::default();
    c.add_function("f".to_string(), params(&["x"]), Box::new(Expr::Var("x".to_string())));
    c.add_function("f".to_string(), params(&["y"]), Box::new(Expr::Num(2)));
    let (p, b) = c.get_function("f").unwrap();
    assert_eq!(p, params(&["y"]));
    assert_eq!(*b, Expr::Num(2));
    assert_eq!(c.functions.entries().len(), 1);
}

#[test]
fn parameter_names_are_not_validated() {
    let mut c: Context<Expr> = Context::default();
    c.add_function("g".to_string(), params(&["x", "x"]), Box::new(Expr::Num(0)));
    let (p, _) = c.get_function("g").unwrap();
    assert_eq!(p, params(&["x", "x"]));
}

#[test]
fn add_variable_then_get_it_back() {
    let mut c: Context<Expr> = Context::default();
    c.add_variable("a".to_string(), Box::new(Expr::Num(3)));
    assert_eq!(*c.get_var("a").unwrap(), Expr::Num(3));
    assert!(c.is_var("a"));
    assert!(!c.is_function("a"));
    c.add_variable("a".to_string(), Box::new(Expr::Num(4)));
    assert_eq!(*c.get_var("a").unwrap(), Expr::Num(4));
    assert_eq!(c.variables.entries().len(), 1);
}

#[test]
fn unbound_lookups_are_empty() {
    let mut c: Context<Expr> = Context::default();
    assert!(c.get_function("nothing").is_none());
    assert!(c.get_var("nothing").is_none());
    assert!(!c.is_function("nothing"));
    assert!(!c.is_var("nothing"));
    c.add_variable("x".to_string(), Box::new(Expr::Num(1)));
    assert!(c.get_function("x").is_none());
    assert!(c.get_var("y").is_none());
    assert!(c.get_var("").is_none());
}

#[test]
fn retrieved_copies_are_independent() {
    let mut c: Context<Expr> = Context::default();
    c.add_variable("v".to_string(), Box::new(Expr::Num(1)));
    c.add_function("f".to_string(), params(&["x"]), Box::new(Expr::Num(5)));
    let mut v = c.get_var("v").unwrap();
    *v = Expr::Num(100);
    let (mut p, mut b) = c.get_function("f").unwrap();
    p.push("extra".to_string());
    *b = Expr::Num(500);
    assert_eq!(*c.get_var("v").unwrap(), Expr::Num(1));
    let (p2, b2) = c.get_function("f").unwrap();
    assert_eq!(p2, params(&["x"]));
    assert_eq!(*b2, Expr::Num(5));
}

#[test]
fn join_with_prefers_the_joined_context() {
    let mut a: Context<Expr> = Context::default();
    a.add_function("g".to_string(), params(&["x"]), Box::new(Expr::Num(1)));
    a.add_variable("va".to_string(), Box::new(Expr::Num(10)));
    a.add_variable("shared".to_string(), Box::new(Expr::Num(11)));

    let mut b: Context<Expr> =
        Context::new(Rounding::Round(2), AngleUnit::Degree, DepthLimit::Limit(5));
    b.add_function("g".to_string(), params(&["y"]), Box::new(Expr::Num(2)));
    b.add_function("h".to_string(), params(&["z"]), Box::new(Expr::Num(3)));
    b.add_variable("shared".to_string(), Box::new(Expr::Num(12)));

    b.join_with(&a);

    let (pg, bg) = b.get_function("g").unwrap();
    assert_eq!(pg, params(&["x"]));
    assert_eq!(*bg, Expr::Num(1));
    let (ph, bh) = b.get_function("h").unwrap();
    assert_eq!(ph, params(&["z"]));
    assert_eq!(*bh, Expr::Num(3));
    assert_eq!(*b.get_var("va").unwrap(), Expr::Num(10));
    assert_eq!(*b.get_var("shared").unwrap(), Expr::Num(11));
    assert_eq!(b.functions.entries().len(), 2);
    assert_eq!(b.variables.entries().len(), 2);

    assert_eq!(b.rounding, Rounding::Round(2));
    assert_eq!(b.angle_unit, AngleUnit::Degree);
    assert_eq!(b.depth_limit, DepthLimit::Limit(5));

    let (pa, ba) = a.get_function("g").unwrap();
    assert_eq!(pa, params(&["x"]));
    assert_eq!(*ba, Expr::Num(1));
    assert!(!a.is_function("h"));
    assert_eq!(*a.get_var("shared").unwrap(), Expr::Num(11));
    assert_eq!(a.functions.entries().len(), 1);
    assert_eq!(a.variables.entries().len(), 2);
}

#[test]
fn join_with_an_empty_context_changes_nothing() {
    let mut b: Context<Expr> = Context::default();
    b.add_variable("x".to_string(), Box::new(Expr::Num(7)));
    let empty: Context<Expr> = Context::default();
    b.join_with(&empty);
    assert_eq!(*b.get_var("x").unwrap(), Expr::Num(7));
    assert_eq!(b.variables.entries().len(), 1);
    assert!(b.functions.entries().is_empty());
}

#[test]
fn cloned_context_is_independent() {
    let mut c: Context<Expr> = Context::new(Rounding::Round(3), AngleUnit::Turn, DepthLimit::Limit(7));
    c.add_function("f".to_string(), params(&["x"]), Box::new(Expr::Num(1)));
    c.add_variable("v".to_string(), Box::new(Expr::Num(2)));
    let mut d = c.clone();
    assert_eq!(d.rounding, Rounding::Round(3));
    assert_eq!(d.angle_unit, AngleUnit::Turn);
    assert_eq!(d.depth_limit, DepthLimit::Limit(7));
    assert_eq!(*d.get_var("v").unwrap(), Expr::Num(2));
    assert_eq!(d.get_function("f").unwrap().0, params(&["x"]));
    d.add_variable("v".to_string(), Box::new(Expr::Num(9)));
    assert_eq!(*c.get_var("v").unwrap(), Expr::Num(2));
    assert_eq!(*d.get_var("v").unwrap(), Expr::Num(9));
}

#[test]
fn successive_joins_on_clones_agree() {
    let mut base: Context<Expr> = Context::default();
    base.add_function("f".to_string(), params(&["x"]), Box::new(Expr::Num(0)));
    base.add_variable("v".to_string(), Box::new(Expr::Num(0)));
    let mut a: Context<Expr> = Context::default();
    a.add_function("f".to_string(), params(&["a"]), Box::new(Expr::Num(1)));
    a.add_variable("w".to_string(), Box::new(Expr::Num(1)));
    let mut b: Context<Expr> = Context::default();
    b.add_function("f".to_string(), params(&["b"]), Box::new(Expr::Num(2)));
    b.add_variable("v".to_string(), Box::new(Expr::Num(2)));

    let mut s1 = base.clone();
    let mut s2 = base.clone();
    s1.join_with(&a);
    s1.join_with(&b);
    let mut ab = a.clone();
    ab.join_with(&b);
    s2.join_with(&ab);

    for name in ["f"] {
        assert_eq!(s1.get_function(name), s2.get_function(name));
    }
    for name in ["v", "w"] {
        assert_eq!(s1.get_var(name), s2.get_var(name));
    }
    assert_eq!(s1.get_function("f").unwrap().0, params(&["b"]));
    assert_eq!(*s1.get_var("v").unwrap(), Expr::Num(2));
    assert_eq!(*s1.get_var("w").unwrap(), Expr::Num(1));
    assert_eq!(s1.functions.entries().len(), s2.functions.entries().len());
    assert_eq!(s1.variables.entries().len(), s2.variables.entries().len());
}
