use kanban_orchestrator::adf::to_markdown;
use kanban_orchestrator::json::{JsonNumber, JsonValue};

fn s(v: &str) -> JsonValue {
    JsonValue::String(v.to_string())
}

fn obj(entries: Vec<(&str, JsonValue)>) -> JsonValue {
    let mut e: Vec<(String, JsonValue)> =
        entries.into_iter().map(|(k, v)| (k.to_string(), v)).collect();
    e.sort_by(|a, b| a.0.cmp(&b.0));
    JsonValue::Object(e)
}

fn arr(items: Vec<JsonValue>) -> JsonValue {
    JsonValue::Array(items)
}

fn text(t: &str) -> JsonValue {
    obj(vec![("type", s("text")), ("text", s(t))])
}

fn node(kind: &str, content: Vec<JsonValue>) -> JsonValue {
    obj(vec![("type", s(kind)), ("content", arr(content))])
}

fn num(n: u64) -> JsonValue {
    JsonValue::Number(JsonNumber::PosInt(n))
}

#[test]
fn plain_paragraph() {
    let v = node("doc", vec![node("paragraph", vec![text("Hello world")])]);
    assert_eq!(to_markdown(&v), "Hello world");
}

#[test]
fn marks_and_link() {
    let bold = obj(vec![
        ("type", s("text")),
        ("text", s("bold")),
        ("marks", arr(vec![obj(vec![("type", s("strong"))])])),
    ]);
    let link = obj(vec![
        ("type", s("text")),
        ("text", s("link")),
        (
            "marks",
            arr(vec![obj(vec![
                ("type", s("link")),
                ("attrs", obj(vec![("href", s("https://x.test"))])),
            ])]),
        ),
    ]);
    let v = node("doc", vec![node("paragraph", vec![bold, text(" and "), link])]);
    assert_eq!(to_markdown(&v), "**bold** and [link](https://x.test)");
}

#[test]
fn bullet_and_code() {
    let list = node(
        "bulletList",
        vec![
            node("listItem", vec![node("paragraph", vec![text("one")])]),
            node("listItem", vec![node("paragraph", vec![text("two")])]),
        ],
    );
    let code = obj(vec![
        ("type", s("codeBlock")),
        ("attrs", obj(vec![("language", s("rust"))])),
        ("content", arr(vec![text("fn main() {}")])),
    ]);
    let v = node("doc", vec![list, code]);
    let md = to_markdown(&v);
    assert!(md.contains("- one\n- two"), "got: {md}");
    assert!(md.contains("```rust\nfn main() {}\n```"), "got: {md}");
}

#[test]
fn empty_for_null() {
    assert_eq!(to_markdown(&JsonValue::Null), "");
}

#[test]
fn heading_level_is_clamped() {
    let h = |level: u64| {
        obj(vec![
            ("type", s("heading")),
            ("attrs", obj(vec![("level", num(level))])),
            ("content", arr(vec![text("T")])),
        ])
    };
    assert_eq!(to_markdown(&h(2)), "## T");
    assert_eq!(to_markdown(&h(9)), "###### T");
    assert_eq!(to_markdown(&h(0)), "# T");
    assert_eq!(to_markdown(&node("heading", vec![text("T")])), "# T");
}

#[test]
fn ordered_list_counts_from_its_start() {
    let list = obj(vec![
        ("type", s("orderedList")),
        ("attrs", obj(vec![("order", num(3))])),
        (
            "content",
            arr(vec![
                node("listItem", vec![node("paragraph", vec![text("a")])]),
                node("listItem", vec![node("paragraph", vec![text("b")])]),
            ]),
        ),
    ]);
    assert_eq!(to_markdown(&list), "3. a\n4. b");
}

#[test]
fn multi_line_list_item_is_indented() {
    let item = node(
        "listItem",
        vec![node("paragraph", vec![text("first")]), node("paragraph", vec![text("second")])],
    );
    let list = node("bulletList", vec![item]);
    assert_eq!(to_markdown(&list), "- first\n  \n  second");
}

#[test]
fn blockquote_prefixes_each_line() {
    let q = node(
        "blockquote",
        vec![node("paragraph", vec![text("a"), obj(vec![("type", s("hardBreak"))]), text("b")])],
    );
    assert_eq!(to_markdown(&q), "> a\n> b");
}

#[test]
fn inline_nodes_and_fallbacks() {
    let mention = obj(vec![
        ("type", s("mention")),
        ("attrs", obj(vec![("displayName", s("Ann")), ("text", s("@ann"))])),
    ]);
    let anon = obj(vec![("type", s("mention"))]);
    let emoji = obj(vec![("type", s("emoji")), ("attrs", obj(vec![("shortName", s(":x:"))]))]);
    let card = obj(vec![("type", s("inlineCard")), ("attrs", obj(vec![("url", s("http://u"))]))]);
    let p = node("paragraph", vec![mention, text(" "), anon, text(" "), emoji, text(" "), card]);
    assert_eq!(to_markdown(&p), "@ann @user :x: http://u");
}

#[test]
fn marks_nest_in_order_and_unknown_nodes_keep_text() {
    let t = obj(vec![
        ("type", s("text")),
        ("text", s("x")),
        (
            "marks",
            arr(vec![
                obj(vec![("type", s("em"))]),
                obj(vec![("type", s("code"))]),
                obj(vec![("type", s("strike"))]),
                obj(vec![("type", s("underline"))]),
            ]),
        ),
    ]);
    let v = node("panel", vec![node("paragraph", vec![t])]);
    assert_eq!(to_markdown(&v), "~~`*x*`~~");
}

#[test]
fn rule_and_top_level_array() {
    let v = arr(vec![
        node("paragraph", vec![text("a")]),
        obj(vec![("type", s("rule"))]),
        node("paragraph", vec![text("b")]),
    ]);
    assert_eq!(to_markdown(&v), "a\n\n\n---\n\nb");
}

#[test]
fn scalars_render_empty() {
    assert_eq!(to_markdown(&s("just text")), "");
    assert_eq!(to_markdown(&num(7)), "");
    assert_eq!(to_markdown(&JsonValue::Bool(true)), "");
}
