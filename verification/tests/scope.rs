use xtera::{EvalErrorKind, Reply, Scope, Stop, Template, Value};

/// Renders the template registered under `name`; these templates ask the
/// host nothing.
fn render(scope: &Scope, name: &str) -> Result<String, Stop> {
    let replies: Vec<Reply> = Vec::new();
    scope.render(name, &replies)
}

#[test]
fn var_set_and_get() {
    let mut scope = Scope::new();
    scope.set_var("x", Value::Int(42));
    assert_eq!(*scope.var("x").unwrap(), Value::Int(42));
}

#[test]
fn var_missing_returns_none() {
    let scope = Scope::new();
    assert!(scope.var("x").is_none());
}

#[test]
fn var_overwrite() {
    let mut scope = Scope::new();
    scope.set_var("x", Value::Int(1));
    scope.set_var("x", Value::Int(2));
    assert_eq!(*scope.var("x").unwrap(), Value::Int(2));
}

#[test]
fn pipe_set_and_get() {
    let mut scope = Scope::new();
    scope.set_pipe("noop");
    assert!(scope.pipe("noop").is_some());
}

#[test]
fn pipe_missing_returns_none() {
    let scope = Scope::new();
    assert!(scope.pipe("noop").is_none());
}

#[test]
fn func_set_and_get() {
    let mut scope = Scope::new();
    scope.set_func("greet");
    assert!(scope.func("greet").is_some());
}

#[test]
fn func_missing_returns_none() {
    let scope = Scope::new();
    assert!(scope.func("greet").is_none());
}

#[test]
fn template_set_and_render() {
    let mut scope = Scope::new();
    scope.set_var("name", Value::Str("world".to_string()));
    let tpl = Template::parse("hello {{ name }}").unwrap();
    scope.set_template("greeting", tpl);
    assert_eq!(render(&scope, "greeting").unwrap(), "hello world");
}

#[test]
fn include_template() {
    let mut scope = Scope::new();
    scope.set_var("name", Value::Str("world".to_string()));
    scope.set_template("header", Template::parse("Hello {{ name }}!").unwrap());
    scope.set_template("page", Template::parse("@include('header') Welcome.").unwrap());
    assert_eq!(render(&scope, "page").unwrap(), "Hello world! Welcome.");
}

#[test]
fn scope_include_missing_template() {
    let mut scope = Scope::new();
    scope.set_template("page", Template::parse("@include('missing')").unwrap());
    assert!(render(&scope, "page").is_err());
}

#[test]
fn clone_isolates_mutations() {
    let mut scope = Scope::new();
    scope.set_var("x", Value::Int(1));
    let mut cloned = scope.clone();
    cloned.set_var("x", Value::Int(2));
    cloned.set_var("y", Value::Int(3));
    assert_eq!(*scope.var("x").unwrap(), Value::Int(1));
    assert!(scope.var("y").is_none());
}

#[test]
fn setting_one_name_keeps_the_others() {
    let mut scope = Scope::new();
    scope.set_var("a", Value::Int(1));
    scope.set_var("b", Value::Int(2));
    scope.set_var("a", Value::Int(3));
    assert_eq!(*scope.var("a").unwrap(), Value::Int(3));
    assert_eq!(*scope.var("b").unwrap(), Value::Int(2));
    scope.set_pipe("p");
    scope.set_pipe("p");
    assert!(scope.pipe("p").is_some());
    assert!(scope.func("p").is_none());
}

#[test]
fn template_overwrite_and_lookup() {
    let mut scope = Scope::new();
    scope.set_template("t", Template::parse("one").unwrap());
    scope.set_template("u", Template::parse("two").unwrap());
    scope.set_template("t", Template::parse("three").unwrap());
    assert_eq!(scope.template("t").unwrap().src(), "three");
    assert_eq!(scope.template("u").unwrap().src(), "two");
    assert!(scope.template("v").is_none());
    assert_eq!(render(&scope, "t").unwrap(), "three");
}

#[test]
fn missing_template_error_names_it() {
    let mut scope = Scope::new();
    scope.set_template("page", Template::parse("@include('gone')").unwrap());
    match render(&scope, "page") {
        Err(Stop::Fail(e)) => {
            assert_eq!(e.kind, EvalErrorKind::UndefinedTemplate("gone".to_string()));
        }
        _ => panic!("expected a failure"),
    }
}
