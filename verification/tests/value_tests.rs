use partials::value::{copy_fields, copy_items, Value};

fn s(text: &str) -> String {
    text.to_string()
}

fn text(t: &str) -> Value {
    Value::Text(t.to_string())
}

fn sample() -> Value {
    Value::Object(vec![
        (s("name"), text("n")),
        (s("tags"), Value::List(vec![text("a"), Value::Number(-3), Value::Null, Value::Bool(false)])),
        (s("inner"), Value::Object(vec![(s("deep"), Value::List(vec![Value::Object(vec![])]))])),
    ])
}

#[test]
fn extend_shadows_and_adds_fields() {
    let base = Value::Object(vec![(s("a"), text("old")), (s("b"), Value::Number(7))]);
    let bindings = vec![(s("a"), text("x")), (s("c"), Value::Bool(true))];
    let extended = base.extend(&bindings);
    assert_eq!(extended.get(&s("a")), Some(&text("x")));
    assert_eq!(extended.get(&s("b")), Some(&Value::Number(7)));
    assert_eq!(extended.get(&s("c")), Some(&Value::Bool(true)));
    assert_eq!(base.get(&s("a")), Some(&text("old")));
    assert_eq!(base.get(&s("c")), None);
}

#[test]
fn extend_keeps_fields_in_place_and_appends_new_ones_in_order() {
    let base = Value::Object(vec![(s("a"), Value::Number(1)), (s("b"), Value::Number(2))]);
    let bindings = vec![(s("c"), Value::Number(3)), (s("b"), Value::Number(20)), (s("d"), Value::Number(4))];
    assert_eq!(
        base.extend(&bindings),
        Value::Object(vec![
            (s("a"), Value::Number(1)),
            (s("b"), Value::Number(20)),
            (s("c"), Value::Number(3)),
            (s("d"), Value::Number(4)),
        ])
    );
}

#[test]
fn extend_keeps_the_later_of_two_bindings_of_a_name() {
    let bindings = vec![(s("a"), Value::Number(1)), (s("a"), Value::Number(2))];
    assert_eq!(Value::Null.extend(&bindings), Value::Object(vec![(s("a"), Value::Number(2))]));
}

#[test]
fn extend_of_a_scalar_holds_the_bindings_alone() {
    let bindings = vec![(s("a"), Value::Number(2))];
    assert_eq!(Value::Number(1).extend(&bindings), Value::Object(vec![(s("a"), Value::Number(2))]));
    assert_eq!(text("t").extend(&bindings), Value::Object(vec![(s("a"), Value::Number(2))]));
    assert_eq!(Value::List(vec![Value::Null]).extend(&bindings), Value::Object(vec![(s("a"), Value::Number(2))]));
}

#[test]
fn extend_by_nothing_copies_an_object() {
    assert_eq!(sample().extend(&vec![]), sample());
    assert_eq!(Value::Number(1).extend(&vec![]), Value::Object(vec![]));
}

#[test]
fn get_finds_the_first_field_of_a_name() {
    let v = Value::Object(vec![(s("a"), Value::Number(1)), (s("a"), Value::Number(2))]);
    assert_eq!(v.get(&s("a")), Some(&Value::Number(1)));
    assert_eq!(v.get(&s("A")), None);
}

#[test]
fn get_on_what_is_no_object_finds_nothing() {
    assert_eq!(Value::Null.get(&s("a")), None);
    assert_eq!(Value::Number(1).get(&s("a")), None);
    assert_eq!(text("a").get(&s("a")), None);
    assert_eq!(Value::List(vec![text("a")]).get(&s("a")), None);
}

#[test]
fn clone_is_deep() {
    let value = sample();
    let copy = value.clone();
    assert_eq!(copy, value);
    assert_eq!(copy.get(&s("tags")), value.get(&s("tags")));
}

#[test]
fn copies_hold_the_same_values() {
    let items = vec![text("a"), Value::List(vec![Value::Number(1)])];
    assert_eq!(copy_items(&items), items);
    let fields = vec![(s("a"), text("a")), (s("b"), sample())];
    assert_eq!(copy_fields(&fields), fields);
    assert_eq!(copy_items(&vec![]), vec![]);
}
