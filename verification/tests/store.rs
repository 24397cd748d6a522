use fluxora::store::{Content, Method, Store};
use fluxora::templates::TemplateEnv;

fn s(x: &str) -> String {
    x.to_string()
}

fn merge(m: Method, old: &String, new: &String) -> String {
    match m {
        Method::Replace => new.clone(),
        Method::Concat => format!("{}{}", old, new),
        Method::Delete => old.replace(new.as_str(), ""),
    }
}

/// Renders a component named after a registered template as that template's
/// output, and any other component as itself.
fn render(env: &TemplateEnv, b: String) -> String {
    let out = env.get_template(&b).ok().and_then(|t| t.render(()).ok());
    out.unwrap_or(b)
}

#[test]
fn create_and_set() {
    let mut st: Store<String> = Store::new(s("empty"));
    st.apply(Content::Create(s("layout")), &render, &merge);
    assert_eq!(st.layout, "layout");
    st.apply(Content::SetValue { event: s("chat.title"), data: s("Hello") }, &render, &merge);
    st.apply(Content::SetValue { event: s("chat.title"), data: s("Hi") }, &render, &merge);
    assert_eq!(st.data.get(&s("chat.title")), Some(&s("Hi")));
}

#[test]
fn join_appends_then_merges_by_id() {
    let mut st: Store<String> = Store::new(s(""));
    let ev = s("chat.msg");
    st.apply(Content::Join { event: ev.clone(), method: Method::Concat, id: Some(s("m1")), data: s("He") }, &render, &merge);
    st.apply(Content::Join { event: ev.clone(), method: Method::Concat, id: Some(s("m2")), data: s("Yo") }, &render, &merge);
    st.apply(Content::Join { event: ev.clone(), method: Method::Concat, id: Some(s("m1")), data: s("llo") }, &render, &merge);
    st.apply(Content::Join { event: ev.clone(), method: Method::Concat, id: None, data: s("note") }, &render, &merge);
    let l = st.list.get(&ev).unwrap();
    assert_eq!(
        l,
        &vec![(Some(s("m1")), s("Hello")), (Some(s("m2")), s("Yo")), (None, s("note"))]
    );
    st.apply(Content::Join { event: ev.clone(), method: Method::Replace, id: Some(s("m2")), data: s("Bye") }, &render, &merge);
    st.apply(Content::Join { event: ev.clone(), method: Method::Delete, id: Some(s("m1")), data: s("l") }, &render, &merge);
    let l = st.list.get(&ev).unwrap();
    assert_eq!(l, &vec![(Some(s("m1")), s("Heo")), (Some(s("m2")), s("Bye")), (None, s("note"))]);
}

#[test]
fn join_only_touches_its_event() {
    let mut st: Store<String> = Store::new(s(""));
    st.apply(Content::Join { event: s("a"), method: Method::Concat, id: Some(s("x")), data: s("1") }, &render, &merge);
    st.apply(Content::Join { event: s("b"), method: Method::Concat, id: Some(s("x")), data: s("2") }, &render, &merge);
    assert_eq!(st.list.get(&s("a")), Some(&vec![(Some(s("x")), s("1"))]));
    assert_eq!(st.list.get(&s("b")), Some(&vec![(Some(s("x")), s("2"))]));
    assert_eq!(st.list.get(&s("c")), None);
}

#[test]
fn templates_and_empty_content() {
    let mut st: Store<String> = Store::new(s(""));
    st.apply(Content::Tmpl { name: s("card"), source: s("<card/>") }, &render, &merge);
    assert!(st.templates.get_template("card").is_ok());
    assert_eq!(st.layout, "");
    st.apply(Content::Create(s("card")), &render, &merge);
    assert_eq!(st.layout, "<card/>");
    st.apply(Content::Tmpl { name: s("card"), source: s("<card{{ 1 + 1 }}/>") }, &render, &merge);
    st.apply(Content::SetValue { event: s("e"), data: s("card") }, &render, &merge);
    assert_eq!(st.data.get(&s("e")), Some(&s("<card2/>")));
    // A text that does not compile is not registered; the earlier template stays.
    st.apply(Content::Tmpl { name: s("card"), source: s("{{ oops") }, &render, &merge);
    st.apply(Content::SetValue { event: s("f"), data: s("card") }, &render, &merge);
    assert_eq!(st.data.get(&s("f")), Some(&s("<card2/>")));
    st.apply(Content::Empty, &render, &merge);
    assert_eq!(st.layout, "<card/>");
    assert_eq!(st.data.get(&s("e")), Some(&s("<card2/>")));
    assert_eq!(st.list.get(&s("e")), None);
}

#[test]
fn message_in_parts_same_as_whole() {
    let contents = || {
        vec![
            Content::Tmpl { name: s("t"), source: s("T") },
            Content::Join { event: s("l"), method: Method::Concat, id: Some(s("a")), data: s("t") },
            Content::Join { event: s("l"), method: Method::Concat, id: Some(s("a")), data: s("!") },
            Content::SetValue { event: s("v"), data: s("t") },
        ]
    };
    let mut whole: Store<String> = Store::new(s(""));
    whole.apply_message(contents(), &render, &merge);
    let mut parts: Store<String> = Store::new(s(""));
    let mut c = contents();
    let rest = c.split_off(2);
    parts.apply_message(c, &render, &merge);
    parts.apply_message(rest, &render, &merge);
    assert_eq!(whole.list.get(&s("l")), parts.list.get(&s("l")));
    assert_eq!(whole.list.get(&s("l")), Some(&vec![(Some(s("a")), s("T!"))]));
    assert_eq!(whole.data.get(&s("v")), parts.data.get(&s("v")));
    assert_eq!(whole.layout, parts.layout);
}

#[test]
fn message_applies_in_order() {
    let mut st: Store<String> = Store::new(s(""));
    st.apply_message(
        vec![
            Content::Create(s("page")),
            Content::Tmpl { name: s("page"), source: s("<page/>") },
            Content::Join { event: s("l"), method: Method::Concat, id: Some(s("a")), data: s("page") },
            Content::Empty,
            Content::Join { event: s("l"), method: Method::Concat, id: Some(s("a")), data: s("!") },
        ],
        &render,
        &merge,
    );
    assert_eq!(st.layout, "page");
    assert_eq!(st.list.get(&s("l")), Some(&vec![(Some(s("a")), s("<page/>!"))]));
}
