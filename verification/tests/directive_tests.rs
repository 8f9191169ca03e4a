use partials::directive::{Directive, Parameter};
use partials::error::RenderError;
use partials::keyed::{bind, find};
use partials::registry::Registry;
use partials::value::Value;

fn s(text: &str) -> String {
    text.to_string()
}

#[test]
fn new_directive_has_only_a_name() {
    let d: Directive<u8> = Directive::new(s("t1"));
    assert_eq!(d.name(), "t1");
    assert_eq!(d.template(), None);
    assert!(d.params().is_empty());
    assert!(d.hash().is_empty());
}

#[test]
fn directive_keeps_what_it_was_given() {
    let d: Directive<u8> = Directive::new(s("t1"))
        .with_template(7)
        .with_param(Parameter::from_path(s("a"), Value::Number(1)))
        .with_param(Parameter::literal(Value::Bool(true)))
        .with_hash(s("k"), Parameter::literal(Value::Null));
    assert_eq!(d.name(), "t1");
    assert_eq!(d.template(), Some(&7));
    assert_eq!(
        d.params(),
        &vec![Parameter::from_path(s("a"), Value::Number(1)), Parameter::literal(Value::Bool(true))]
    );
    assert_eq!(d.hash(), &vec![(s("k"), Parameter::literal(Value::Null))]);
}

#[test]
fn named_parameter_is_replaced_under_its_name() {
    let d: Directive<u8> = Directive::new(s("t1"))
        .with_hash(s("a"), Parameter::literal(Value::Number(1)))
        .with_hash(s("b"), Parameter::literal(Value::Number(2)))
        .with_hash(s("a"), Parameter::literal(Value::Number(3)));
    assert_eq!(
        d.hash(),
        &vec![(s("a"), Parameter::literal(Value::Number(3))), (s("b"), Parameter::literal(Value::Number(2)))]
    );
}

#[test]
fn parameter_knows_whether_it_was_a_path() {
    let p = Parameter::from_path(s("a.b"), Value::Number(1));
    assert_eq!(p.path(), Some(&s("a.b")));
    assert_eq!(p.value(), &Value::Number(1));
    let q = Parameter::literal(Value::Text(s("a.b")));
    assert_eq!(q.path(), None);
    assert_eq!(q.value(), &Value::Text(s("a.b")));
}

#[test]
fn registry_finds_what_was_registered() {
    let mut registry: Registry<u8> = Registry::new();
    assert_eq!(registry.get_template(&s("t1")), None);
    registry.register_template(s("t1"), 1);
    registry.register_template(s("t2"), 2);
    assert_eq!(registry.get_template(&s("t1")), Some(&1));
    assert_eq!(registry.get_template(&s("t2")), Some(&2));
    assert_eq!(registry.get_template(&s("t3")), None);
    registry.register_template(s("t1"), 3);
    assert_eq!(registry.get_template(&s("t1")), Some(&3));
    assert_eq!(registry.get_template(&s("t2")), Some(&2));
}

#[test]
fn find_returns_the_first_binding() {
    let entries = vec![(s("a"), 1), (s("b"), 2), (s("a"), 3)];
    assert_eq!(find(&entries, &s("a")), Some(0));
    assert_eq!(find(&entries, &s("b")), Some(1));
    assert_eq!(find(&entries, &s("c")), None);
    assert_eq!(find(&Vec::<(String, u8)>::new(), &s("a")), None);
}

#[test]
fn bind_replaces_or_appends() {
    let mut entries = vec![(s("a"), 1), (s("b"), 2), (s("a"), 3)];
    bind(&mut entries, s("a"), 9);
    assert_eq!(entries, vec![(s("a"), 9), (s("b"), 2), (s("a"), 3)]);
    bind(&mut entries, s("c"), 4);
    assert_eq!(entries, vec![(s("a"), 9), (s("b"), 2), (s("a"), 3), (s("c"), 4)]);
}

#[test]
fn errors_describe_themselves() {
    assert_eq!(RenderError::RecursiveInclusion.description(), "Cannot include self in >");
    assert!(RenderError::RecursiveInclusion.is_recursive_inclusion());
    let e = RenderError::new("no such helper");
    assert_eq!(e, RenderError::Failed(s("no such helper")));
    assert_eq!(e.description(), "no such helper");
    assert!(!e.is_recursive_inclusion());
    assert!(!RenderError::new("Cannot include self in >").is_recursive_inclusion());
}
