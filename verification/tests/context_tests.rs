use partials::context::RenderContext;
use partials::value::Value;

fn s(text: &str) -> String {
    text.to_string()
}

fn text(t: &str) -> Value {
    Value::Text(t.to_string())
}

#[test]
fn new_context_is_blank() {
    let rc: RenderContext<u8> = RenderContext::new(Value::Number(5));
    assert_eq!(rc.current_template(), None);
    assert_eq!(rc.get_path(), "");
    assert_eq!(rc.output(), "");
    assert_eq!(rc.context(), &Value::Number(5));
    assert_eq!(rc.get_local_var(0, &s("x")), None);
    assert!(!rc.has_partial(&s("p")));
    assert_eq!(rc.get_partial(&s("p")), None);
}

#[test]
fn current_template_is_compared_by_name() {
    let mut rc: RenderContext<u8> = RenderContext::new(Value::Null);
    assert!(!rc.is_current_template(&s("page")));
    assert!(!rc.is_current_template(&s("")));
    rc.set_current_template(Some(s("page")));
    assert!(rc.is_current_template(&s("page")));
    assert!(!rc.is_current_template(&s("pag")));
    assert!(!rc.is_current_template(&s("Page")));
    assert_eq!(rc.current_template(), Some(&s("page")));
    rc.set_current_template(None);
    assert!(!rc.is_current_template(&s("page")));
}

#[test]
fn path_is_replaced_as_a_whole() {
    let mut rc: RenderContext<u8> = RenderContext::new(Value::Null);
    rc.set_path(s("/a/b"));
    assert_eq!(rc.get_path(), "/a/b");
    rc.set_path(s("/c"));
    assert_eq!(rc.get_path(), "/c");
}

#[test]
fn promoted_locals_are_seen_one_level_out() {
    let mut rc: RenderContext<u8> = RenderContext::new(Value::Null);
    rc.set_local_var(s("x"), text("outer"));
    assert_eq!(rc.get_local_var(0, &s("x")), Some(&text("outer")));
    rc.promote_local_vars();
    assert_eq!(rc.get_local_var(0, &s("x")), None);
    assert_eq!(rc.get_local_var(1, &s("x")), Some(&text("outer")));
    rc.set_local_var(s("x"), text("inner"));
    assert_eq!(rc.get_local_var(0, &s("x")), Some(&text("inner")));
    assert_eq!(rc.get_local_var(1, &s("x")), Some(&text("outer")));
    rc.promote_local_vars();
    assert_eq!(rc.get_local_var(2, &s("x")), Some(&text("outer")));
    assert_eq!(rc.get_local_var(3, &s("x")), None);
}

#[test]
fn demoting_undoes_promoting() {
    let mut rc: RenderContext<u8> = RenderContext::new(Value::Null);
    rc.set_local_var(s("x"), text("outer"));
    rc.set_local_var(s("y"), Value::Number(2));
    rc.promote_local_vars();
    rc.set_local_var(s("z"), text("inner"));
    rc.demote_local_vars();
    assert_eq!(rc.get_local_var(0, &s("x")), Some(&text("outer")));
    assert_eq!(rc.get_local_var(0, &s("y")), Some(&Value::Number(2)));
    assert_eq!(rc.get_local_var(0, &s("z")), None);
    assert_eq!(rc.get_local_var(1, &s("x")), None);
}

#[test]
fn demoting_without_frames_does_nothing() {
    let mut rc: RenderContext<u8> = RenderContext::new(Value::Null);
    rc.demote_local_vars();
    assert_eq!(rc.get_local_var(0, &s("x")), None);
    rc.set_local_var(s("x"), Value::Number(1));
    assert_eq!(rc.get_local_var(0, &s("x")), Some(&Value::Number(1)));
    rc.demote_local_vars();
    assert_eq!(rc.get_local_var(0, &s("x")), None);
}

#[test]
fn local_variable_is_overwritten_in_its_frame() {
    let mut rc: RenderContext<u8> = RenderContext::new(Value::Null);
    rc.set_local_var(s("x"), Value::Number(1));
    rc.set_local_var(s("x"), Value::Number(2));
    assert_eq!(rc.get_local_var(0, &s("x")), Some(&Value::Number(2)));
}

#[test]
fn partials_are_registered_and_replaced_by_name() {
    let mut rc: RenderContext<u8> = RenderContext::new(Value::Null);
    rc.set_partial(s("p"), 1);
    rc.set_partial(s("q"), 2);
    assert_eq!(rc.get_partial(&s("p")), Some(1));
    assert_eq!(rc.get_partial(&s("q")), Some(2));
    rc.set_partial(s("p"), 3);
    assert_eq!(rc.get_partial(&s("p")), Some(3));
    assert_eq!(rc.get_partial(&s("q")), Some(2));
    assert!(rc.has_partial(&s("q")));
    assert!(!rc.has_partial(&s("r")));
}

#[test]
fn written_text_is_appended() {
    let mut rc: RenderContext<u8> = RenderContext::new(Value::Null);
    rc.write("one");
    rc.write("");
    rc.write(", two");
    assert_eq!(rc.output(), "one, two");
}

#[test]
fn data_can_be_replaced() {
    let mut rc: RenderContext<u8> = RenderContext::new(Value::Number(1));
    *rc.context_mut() = text("other");
    assert_eq!(rc.context(), &text("other"));
}

#[test]
fn derived_context_starts_where_its_parent_stands() {
    let mut rc: RenderContext<u8> = RenderContext::new(Value::Object(vec![(s("a"), text("v"))]));
    rc.set_current_template(Some(s("page")));
    rc.set_path(s("/a"));
    rc.set_local_var(s("x"), Value::Number(1));
    rc.promote_local_vars();
    rc.set_partial(s("p"), 9);
    rc.write("written");
    let local = rc.derive();
    assert_eq!(local.current_template(), Some(&s("page")));
    assert_eq!(local.get_path(), "/a");
    assert_eq!(local.get_local_var(0, &s("x")), None);
    assert_eq!(local.get_local_var(1, &s("x")), Some(&Value::Number(1)));
    assert_eq!(local.get_partial(&s("p")), Some(9));
    assert_eq!(local.context(), &Value::Object(vec![(s("a"), text("v"))]));
    assert_eq!(local.output(), "");
}

#[test]
fn derived_context_does_not_reach_its_parent() {
    let mut rc: RenderContext<u8> = RenderContext::new(Value::Number(1));
    rc.set_current_template(Some(s("page")));
    rc.set_path(s("/a"));
    rc.set_local_var(s("x"), Value::Number(1));
    rc.set_partial(s("p"), 9);
    rc.write("written");
    let mut local = rc.derive();
    local.set_current_template(None);
    local.set_path(s("/b"));
    local.set_local_var(s("x"), Value::Number(2));
    local.set_partial(s("p"), 10);
    local.set_partial(s("q"), 11);
    *local.context_mut() = Value::Null;
    local.write("more");
    assert_eq!(rc.current_template(), Some(&s("page")));
    assert_eq!(rc.get_path(), "/a");
    assert_eq!(rc.get_local_var(0, &s("x")), Some(&Value::Number(1)));
    assert_eq!(rc.get_partial(&s("p")), Some(9));
    assert!(!rc.has_partial(&s("q")));
    assert_eq!(rc.context(), &Value::Number(1));
    assert_eq!(rc.output(), "written");
}
