//! Atlassian Document Format (ADF) rendered as Markdown for people to read.
//!
//! An ADF document is a tree of `{ type, content, text, marks, attrs }`
//! nodes. The common node types are rendered (paragraphs, headings, lists,
//! code, quotes, links, marks); a node of any other type renders its
//! children, so no text is lost.
use vstd::prelude::*;
use crate::json::{JsonValue, JsonNumber, get, as_u64, get_str, lemma_get_decreases, lemma_array_decreases,
    json_get, json_as_u64, json_get_str};
use crate::text::{decimal, append_decimal, trim, trim_end, lines, chars_of, trim_end_from,
    line_spans, span_text, trim_string, str_eq};

verus! {

/// A node's type: the string under `type`, or empty.
pub open spec fn node_type(node: JsonValue) -> Seq<char> {
    match get_str(Some(node), "type"@) {
        Some(t) => t,
        None => ""@,
    }
}

/// `n` hash signs.
pub open spec fn hashes(n: nat) -> Seq<char>
    decreases n,
{
    if n == 0 {
        Seq::empty()
    } else {
        hashes((n - 1) as nat) + "#"@
    }
}

/// A heading's level: `attrs.level` where it is a non-negative integer
/// (else 1), brought into 1..=6.
pub open spec fn heading_level(node: JsonValue) -> nat {
    let level: int = match get(node, "attrs"@) {
        Some(a) => match get(a, "level"@) {
            Some(l) => match as_u64(l) {
                Some(n) => n as int,
                None => 1,
            },
            None => 1,
        },
        None => 1,
    };
    if level < 1 {
        1
    } else if level > 6 {
        6
    } else {
        level as nat
    }
}

/// An ordered list's first number: `attrs.order` where it is a non-negative
/// integer, else 1.
pub open spec fn order_start(node: JsonValue) -> nat {
    match get(node, "attrs"@) {
        Some(a) => match get(a, "order"@) {
            Some(o) => match as_u64(o) {
                Some(n) => n as nat,
                None => 1,
            },
            None => 1,
        },
        None => 1,
    }
}

/// The string under `key` in a node's `attrs`, or `default`.
pub open spec fn attr_or(node: JsonValue, key: Seq<char>, default: Seq<char>) -> Seq<char> {
    match get_str(get(node, "attrs"@), key) {
        Some(s) => s,
        None => default,
    }
}

/// A mention's name: `attrs.text` if present, else `attrs.displayName`,
/// taken where it is a string; `@user` otherwise.
pub open spec fn mention_name(node: JsonValue) -> Seq<char> {
    let attrs = get(node, "attrs"@);
    let chosen = match attrs {
        Some(a) => match get(a, "text"@) {
            Some(t) => Some(t),
            None => get(a, "displayName"@),
        },
        None => None,
    };
    match chosen {
        Some(c) => match crate::json::as_str(c) {
            Some(s) => s,
            None => "@user"@,
        },
        None => "@user"@,
    }
}

/// A text node's text with its marks applied in order (`strong`, `em`,
/// `code`, `strike` wrap it; `link` sets the link target, to nothing where
/// the mark has no `href` string), and the link target.
pub open spec fn apply_marks(marks: Seq<JsonValue>, i: int, w: Seq<char>, link: Option<Seq<char>>) -> (
    Seq<char>,
    Option<Seq<char>>,
)
    decreases marks.len() - i,
{
    if i < 0 || i >= marks.len() {
        (w, link)
    } else {
        let mt = match get_str(Some(marks[i]), "type"@) {
            Some(t) => t,
            None => ""@,
        };
        if mt == "strong"@ {
            apply_marks(marks, i + 1, "**"@ + w + "**"@, link)
        } else if mt == "em"@ {
            apply_marks(marks, i + 1, "*"@ + w + "*"@, link)
        } else if mt == "code"@ {
            apply_marks(marks, i + 1, "`"@ + w + "`"@, link)
        } else if mt == "strike"@ {
            apply_marks(marks, i + 1, "~~"@ + w + "~~"@, link)
        } else if mt == "link"@ {
            apply_marks(marks, i + 1, w, get_str(get(marks[i], "attrs"@), "href"@))
        } else {
            apply_marks(marks, i + 1, w, link)
        }
    }
}

/// A text node rendered: its `text` (or empty) with its marks, as a link
/// where a link mark gave a target.
pub open spec fn text_markdown(node: JsonValue) -> Seq<char> {
    let text = match get_str(Some(node), "text"@) {
        Some(t) => t,
        None => ""@,
    };
    let marks = match get(node, "marks"@) {
        Some(JsonValue::Array(ms)) => ms@,
        _ => Seq::empty(),
    };
    let (w, link) = apply_marks(marks, 0, text, None);
    match link {
        Some(h) => "["@ + w + "]("@ + h + ")"@,
        None => w,
    }
}

/// Lines from the `k`th on, each indented by two spaces.
pub open spec fn indented_lines(ls: Seq<Seq<char>>, k: int) -> Seq<char>
    decreases ls.len() - k,
{
    if k < 0 || k >= ls.len() {
        Seq::empty()
    } else {
        "  "@ + ls[k] + "\n"@ + indented_lines(ls, k + 1)
    }
}

/// Lines from the `k`th on, each quoted.
pub open spec fn quoted_lines(ls: Seq<Seq<char>>, k: int) -> Seq<char>
    decreases ls.len() - k,
{
    if k < 0 || k >= ls.len() {
        Seq::empty()
    } else {
        "> "@ + ls[k] + "\n"@ + quoted_lines(ls, k + 1)
    }
}

/// A list item whose rendered text has the lines `ls`: the first after the
/// item's marker, the rest indented; nothing for an empty item.
pub open spec fn item_text(prefix: Seq<char>, ls: Seq<Seq<char>>) -> Seq<char> {
    if ls.len() == 0 {
        Seq::empty()
    } else {
        prefix + ls[0] + "\n"@ + indented_lines(ls, 1)
    }
}

/// The marker of the `i`th item (from zero): `- ` in a bullet list, its
/// number and a period in an ordered list starting at `start`.
pub open spec fn list_prefix(start: Option<nat>, i: int) -> Seq<char> {
    match start {
        Some(s) => decimal((s + i) as nat) + ". "@,
        None => "- "@,
    }
}

/// `out` with `node` rendered after it.
pub open spec fn walk(node: JsonValue, out: Seq<char>) -> Seq<char>
    decreases node, 2int,
{
    match node {
        JsonValue::Array(xs) => {
            proof {
                lemma_array_decreases(node);
            }
            walk_nodes(xs@, 0, out)
        },
        _ => {
            let t = node_type(node);
            if t == "doc"@ {
                walk_children(node, out)
            } else if t == "paragraph"@ {
                walk_children(node, out) + "\n\n"@
            } else if t == "heading"@ {
                walk_children(node, out + hashes(heading_level(node)) + " "@) + "\n\n"@
            } else if t == "text"@ {
                out + text_markdown(node)
            } else if t == "hardBreak"@ {
                out + "\n"@
            } else if t == "rule"@ {
                out + "\n---\n\n"@
            } else if t == "bulletList"@ {
                render_list(node, out, None)
            } else if t == "orderedList"@ {
                render_list(node, out, Some(order_start(node)))
            } else if t == "listItem"@ {
                walk_children(node, out)
            } else if t == "codeBlock"@ {
                let o = walk_children(node, out + "```"@ + attr_or(node, "language"@, ""@) + "\n"@);
                let o2 = if o.len() > 0 && o.last() == '\n' {
                    o
                } else {
                    o + "\n"@
                };
                o2 + "```\n\n"@
            } else if t == "blockquote"@ {
                out + quoted_lines(lines(trim_end(walk_children(node, Seq::empty()))), 0) + "\n"@
            } else if t == "mention"@ {
                out + mention_name(node)
            } else if t == "emoji"@ {
                out + attr_or(node, "shortName"@, ":emoji:"@)
            } else if t == "inlineCard"@ || t == "blockCard"@ || t == "embedCard"@ {
                out + attr_or(node, "url"@, ""@)
            } else {
                walk_children(node, out)
            }
        },
    }
}

/// `out` with the children of `node` (its `content` array) rendered after it.
pub open spec fn walk_children(node: JsonValue, out: Seq<char>) -> Seq<char>
    decreases node, 1int,
{
    match get(node, "content"@) {
        Some(c) => match c {
            JsonValue::Array(xs) => {
                proof {
                    lemma_get_decreases(node, "content"@);
                    lemma_array_decreases(c);
                }
                walk_nodes(xs@, 0, out)
            },
            _ => out,
        },
        None => out,
    }
}

/// `out` with `nodes[i..]` rendered after it, in order.
pub open spec fn walk_nodes(nodes: Seq<JsonValue>, i: int, out: Seq<char>) -> Seq<char>
    decreases nodes, nodes.len() - i,
{
    if i < 0 || i >= nodes.len() {
        out
    } else {
        walk_nodes(nodes, i + 1, walk(nodes[i], out))
    }
}

/// `out` with a list rendered after it: its items, then a blank line.
pub open spec fn render_list(node: JsonValue, out: Seq<char>, start: Option<nat>) -> Seq<char>
    decreases node, 1int,
{
    let o = match get(node, "content"@) {
        Some(c) => match c {
            JsonValue::Array(xs) => {
                proof {
                    lemma_get_decreases(node, "content"@);
                    lemma_array_decreases(c);
                }
                list_items(xs@, 0, out, start)
            },
            _ => out,
        },
        None => out,
    };
    o + "\n"@
}

/// `out` with list items `items[i..]` rendered after it.
pub open spec fn list_items(items: Seq<JsonValue>, i: int, out: Seq<char>, start: Option<nat>) -> Seq<
    char,
>
    decreases items, items.len() - i,
{
    if i < 0 || i >= items.len() {
        out
    } else {
        let ls = lines(trim_end(walk_children(items[i], Seq::empty())));
        list_items(items, i + 1, out + item_text(list_prefix(start, i), ls), start)
    }
}

/// The Markdown for an ADF document or any part of one, without leading or
/// trailing white space: empty for `null` and for anything that is neither
/// an object nor an array.
pub open spec fn markdown(value: JsonValue) -> Seq<char> {
    trim(walk(value, Seq::empty()))
}

/// The node types that have a rendering of their own.
pub open spec fn known_type(t: Seq<char>) -> bool {
    t == "doc"@ || t == "paragraph"@ || t == "heading"@ || t == "text"@ || t == "hardBreak"@
        || t == "rule"@ || t == "bulletList"@ || t == "orderedList"@ || t == "listItem"@
        || t == "codeBlock"@ || t == "blockquote"@ || t == "mention"@ || t == "emoji"@
        || t == "inlineCard"@ || t == "blockCard"@ || t == "embedCard"@
}

/// A node of a type without a rendering of its own renders its children,
/// so none of their text is lost.
pub proof fn law_unknown_type_renders_children(node: JsonValue, out: Seq<char>)
    requires
        !(node is Array),
        !known_type(node_type(node)),
    ensures
        walk(node, out) == walk_children(node, out),
{
}

/// `null`, a boolean, a number and a string render as nothing.
pub proof fn law_scalar_renders_empty(v: JsonValue)
    requires
        !(v is Array),
        !(v is Object),
    ensures
        markdown(v) == Seq::<char>::empty(),
{
    reveal_strlit("");
    reveal_strlit("doc");
    reveal_strlit("paragraph");
    reveal_strlit("heading");
    reveal_strlit("text");
    reveal_strlit("hardBreak");
    reveal_strlit("rule");
    reveal_strlit("bulletList");
    reveal_strlit("orderedList");
    reveal_strlit("listItem");
    reveal_strlit("codeBlock");
    reveal_strlit("blockquote");
    reveal_strlit("mention");
    reveal_strlit("emoji");
    reveal_strlit("inlineCard");
    reveal_strlit("blockCard");
    reveal_strlit("embedCard");
    assert(node_type(v) == ""@);
    assert(!known_type(node_type(v)));
    law_unknown_type_renders_children(v, Seq::empty());
    assert(trim(Seq::<char>::empty()) =~= Seq::<char>::empty());
}

/// The string under `attrs.<key>` of a node, if there is one.
pub open spec fn attr_text(node: JsonValue, key: Seq<char>) -> Option<Seq<char>> {
    match get(node, "attrs"@) {
        Some(a) => match get(a, key) {
            Some(JsonValue::String(s)) => Some(s@),
            _ => None,
        },
        None => None,
    }
}

/// The node type names that `walk` tells apart, by length and first two
/// characters (enough to tell any two of them apart).
proof fn lemma_type_names()
    ensures
        ""@.len() == 0,
        "doc"@.len() == 3 && "doc"@[0] == 'd' && "doc"@[1] == 'o',
        "paragraph"@.len() == 9 && "paragraph"@[0] == 'p' && "paragraph"@[1] == 'a',
        "heading"@.len() == 7 && "heading"@[0] == 'h' && "heading"@[1] == 'e',
        "text"@.len() == 4 && "text"@[0] == 't' && "text"@[1] == 'e',
        "hardBreak"@.len() == 9 && "hardBreak"@[0] == 'h' && "hardBreak"@[1] == 'a',
        "rule"@.len() == 4 && "rule"@[0] == 'r' && "rule"@[1] == 'u',
        "bulletList"@.len() == 10 && "bulletList"@[0] == 'b' && "bulletList"@[1] == 'u',
        "orderedList"@.len() == 11 && "orderedList"@[0] == 'o' && "orderedList"@[1] == 'r',
        "listItem"@.len() == 8 && "listItem"@[0] == 'l' && "listItem"@[1] == 'i',
        "codeBlock"@.len() == 9 && "codeBlock"@[0] == 'c' && "codeBlock"@[1] == 'o',
        "blockquote"@.len() == 10 && "blockquote"@[0] == 'b' && "blockquote"@[1] == 'l',
        "mention"@.len() == 7 && "mention"@[0] == 'm' && "mention"@[1] == 'e',
        "emoji"@.len() == 5 && "emoji"@[0] == 'e' && "emoji"@[1] == 'm',
        "inlineCard"@.len() == 10 && "inlineCard"@[0] == 'i' && "inlineCard"@[1] == 'n',
        "blockCard"@.len() == 9 && "blockCard"@[0] == 'b' && "blockCard"@[1] == 'l',
        "embedCard"@.len() == 9 && "embedCard"@[0] == 'e' && "embedCard"@[1] == 'm',
{
    reveal_strlit("");
    reveal_strlit("doc");
    reveal_strlit("paragraph");
    reveal_strlit("heading");
    reveal_strlit("text");
    reveal_strlit("hardBreak");
    reveal_strlit("rule");
    reveal_strlit("bulletList");
    reveal_strlit("orderedList");
    reveal_strlit("listItem");
    reveal_strlit("codeBlock");
    reveal_strlit("blockquote");
    reveal_strlit("mention");
    reveal_strlit("emoji");
    reveal_strlit("inlineCard");
    reveal_strlit("blockCard");
    reveal_strlit("embedCard");
}

/// A heading's level is always between one and six, and is the level its
/// `attrs.level` asks for when that is between one and six.
pub proof fn law_heading_level(node: JsonValue)
    ensures
        1 <= heading_level(node) <= 6,
        (match get(node, "attrs"@) {
            Some(a) => match get(a, "level"@) {
                Some(JsonValue::Number(JsonNumber::PosInt(n))) => 1 <= n <= 6 ==> heading_level(node)
                    == n,
                _ => true,
            },
            None => true,
        }),
{
}

/// A card (`inlineCard`, `blockCard`, `embedCard`) renders as the string
/// under its `attrs.url`, nothing without one, after the text `out`
/// rendered so far.
pub proof fn law_card_renders_url(node: JsonValue, out: Seq<char>)
    requires
        node is Object,
        node_type(node) == "inlineCard"@ || node_type(node) == "blockCard"@ || node_type(node)
            == "embedCard"@,
    ensures
        walk(node, out) == out + match attr_text(node, "url"@) {
            Some(u) => u,
            None => Seq::<char>::empty(),
        },
{
    lemma_type_names();
    assert(attr_or(node, "url"@, ""@) == match attr_text(node, "url"@) {
        Some(u) => u,
        None => Seq::<char>::empty(),
    });
}

/// A hard break renders as a newline, and a rule as a line `---` between
/// blank lines, after the text `out` rendered so far.
pub proof fn law_breaks_render(node: JsonValue, out: Seq<char>)
    requires
        node is Object,
    ensures
        node_type(node) == "hardBreak"@ ==> walk(node, out) == out + seq!['\n'],
        node_type(node) == "rule"@ ==> walk(node, out) == out + seq!['\n', '-', '-', '-', '\n', '\n'],
{
    lemma_type_names();
    reveal_strlit("\n");
    reveal_strlit("\n---\n\n");
    assert("\n---\n\n"@ =~= seq!['\n', '-', '-', '-', '\n', '\n']);
    assert("\n"@ =~= seq!['\n']);
}

/// An emoji renders as its `attrs.shortName` (`:emoji:` without one), and a
/// text node without marks as its `text` (nothing without one), after the
/// text `out` rendered so far.
pub proof fn law_inline_text_renders(node: JsonValue, out: Seq<char>)
    requires
        node is Object,
    ensures
        node_type(node) == "emoji"@ ==> walk(node, out) == out + match attr_text(node, "shortName"@) {
            Some(e) => e,
            None => seq![':', 'e', 'm', 'o', 'j', 'i', ':'],
        },
        node_type(node) == "text"@ && get(node, "marks"@) is None ==> walk(node, out) == out
            + match get(node, "text"@) {
            Some(JsonValue::String(t)) => t@,
            _ => Seq::<char>::empty(),
        },
{
    lemma_type_names();
    reveal_strlit(":emoji:");
    assert(":emoji:"@ =~= seq![':', 'e', 'm', 'o', 'j', 'i', ':']);
    if node_type(node) == "text"@ && get(node, "marks"@) is None {
        let text = match get_str(Some(node), "text"@) {
            Some(t) => t,
            None => ""@,
        };
        assert(apply_marks(Seq::empty(), 0, text, None) == (text, None::<Seq<char>>));
    }
}

/// A document renders its children, and a paragraph its children followed
/// by a blank line.
pub proof fn law_blocks_render(node: JsonValue, out: Seq<char>)
    requires
        node is Object,
    ensures
        node_type(node) == "doc"@ ==> walk(node, out) == walk_children(node, out),
        node_type(node) == "paragraph"@ ==> walk(node, out) == walk_children(node, out) + seq![
            '\n',
            '\n',
        ],
{
    lemma_type_names();
    reveal_strlit("\n\n");
    assert("\n\n"@ =~= seq!['\n', '\n']);
}

fn node_type_exec(node: &JsonValue) -> (r: &str)
    ensures
        r@ == node_type(*node),
{
    match json_get_str(Some(node), "type") {
        Some(t) => t,
        None => "",
    }
}

fn attr_or_exec<'a>(node: &'a JsonValue, key: &str, default: &'a str) -> (r: &'a str)
    ensures
        r@ == attr_or(*node, key@, default@),
{
    match json_get_str(json_get(node, "attrs"), key) {
        Some(s) => s,
        None => default,
    }
}

fn heading_level_exec(node: &JsonValue) -> (r: u64)
    ensures
        r == heading_level(*node),
{
    let level: u64 = match json_get(node, "attrs") {
        Some(a) => match json_get(a, "level") {
            Some(l) => match json_as_u64(l) {
                Some(n) => n,
                None => 1,
            },
            None => 1,
        },
        None => 1,
    };
    if level < 1 {
        1
    } else if level > 6 {
        6
    } else {
        level
    }
}

fn order_start_exec(node: &JsonValue) -> (r: u64)
    ensures
        r == order_start(*node),
{
    match json_get(node, "attrs") {
        Some(a) => match json_get(a, "order") {
            Some(o) => match json_as_u64(o) {
                Some(n) => n,
                None => 1,
            },
            None => 1,
        },
        None => 1,
    }
}

fn mention_name_exec(node: &JsonValue) -> (r: &str)
    ensures
        r@ == mention_name(*node),
{
    let attrs = json_get(node, "attrs");
    let chosen = match attrs {
        Some(a) => match json_get(a, "text") {
            Some(t) => Some(t),
            None => json_get(a, "displayName"),
        },
        None => None,
    };
    match chosen {
        Some(c) => match crate::json::json_as_str(c) {
            Some(s) => s,
            None => "@user",
        },
        None => "@user",
    }
}

fn append_hashes(out: &mut String, n: u64)
    ensures
        final(out)@ == old(out)@ + hashes(n as nat),
{
    let mut k: u64 = 0;
    assert(old(out)@ + hashes(0) =~= old(out)@);
    while k < n
        invariant
            k <= n,
            out@ == old(out)@ + hashes(k as nat),
        decreases n - k,
    {
        out.append("#");
        proof {
            assert(old(out)@ + hashes(k as nat) + "#"@ =~= old(out)@ + hashes((k + 1) as nat));
        }
        k += 1;
    }
}

fn text_markdown_exec(node: &JsonValue) -> (r: String)
    ensures
        r@ == text_markdown(*node),
{
    let text = match json_get_str(Some(node), "text") {
        Some(t) => t,
        None => "",
    };
    let mut w = String::from_str(text);
    let mut link: Option<&str> = None;
    let empty: Vec<JsonValue> = Vec::new();
    let marks: &Vec<JsonValue> = match json_get(node, "marks") {
        Some(JsonValue::Array(ms)) => ms,
        _ => &empty,
    };
    let ghost ms = marks@;
    let mut i: usize = 0;
    while i < marks.len()
        invariant
            i <= marks@.len(),
            marks@ == ms,
            apply_marks(ms, 0, text@, None) == apply_marks(
                ms,
                i as int,
                w@,
                match link {
                    Some(h) => Some(h@),
                    None => None,
                },
            ),
        decreases marks@.len() - i,
    {
        let mt = match json_get_str(Some(&marks[i]), "type") {
            Some(t) => t,
            None => "",
        };
        if str_eq(mt, "strong") {
            w = String::from_str("**").concat(w.as_str()).concat("**");
        } else if str_eq(mt, "em") {
            w = String::from_str("*").concat(w.as_str()).concat("*");
        } else if str_eq(mt, "code") {
            w = String::from_str("`").concat(w.as_str()).concat("`");
        } else if str_eq(mt, "strike") {
            w = String::from_str("~~").concat(w.as_str()).concat("~~");
        } else if str_eq(mt, "link") {
            link = json_get_str(json_get(&marks[i], "attrs"), "href");
        }
        i += 1;
    }
    match link {
        Some(h) => String::from_str("[").concat(w.as_str()).concat("](").concat(h).concat(")"),
        None => w,
    }
}

fn append_item(out: &mut String, buf: &str, prefix: &str)
    ensures
        final(out)@ == old(out)@ + item_text(prefix@, lines(trim_end(buf@))),
{
    let v = chars_of(buf);
    let hi = trim_end_from(&v, 0);
    assert(v@.skip(0) =~= v@);
    let t = buf.substring_char(0, hi);
    let tv = chars_of(t);
    let spans = line_spans(&tv);
    let ghost ls = lines(trim_end(buf@));
    assert(ls == spans@.map_values(span_text(tv@)));
    if spans.len() == 0 {
        assert(old(out)@ + item_text(prefix@, ls) =~= old(out)@);
        return;
    }
    out.append(prefix);
    out.append(t.substring_char(spans[0].0, spans[0].1));
    out.append("\n");
    let mut k: usize = 1;
    let ghost head = old(out)@ + prefix@ + ls[0] + "\n"@;
    assert(out@ =~= head);
    assert(head + indented_lines(ls, 1) =~= old(out)@ + item_text(prefix@, ls));
    while k < spans.len()
        invariant
            1 <= k <= spans@.len(),
            ls == spans@.map_values(span_text(tv@)),
            tv@ == t@,
            forall|i: int| 0 <= i < spans@.len() ==> (#[trigger] spans@[i]).0 <= spans@[i].1 <= tv@.len(),
            out@ + indented_lines(ls, k as int) == old(out)@ + item_text(prefix@, ls),
        decreases spans@.len() - k,
    {
        let ghost before = out@;
        out.append("  ");
        out.append(t.substring_char(spans[k].0, spans[k].1));
        out.append("\n");
        proof {
            assert(ls[k as int] == tv@.subrange(spans@[k as int].0 as int, spans@[k as int].1 as int));
            assert(out@ =~= before + ("  "@ + ls[k as int] + "\n"@));
            assert(before + indented_lines(ls, k as int) =~= out@ + indented_lines(ls, k + 1));
        }
        k += 1;
    }
}

fn append_quoted(out: &mut String, buf: &str)
    ensures
        final(out)@ == old(out)@ + quoted_lines(lines(trim_end(buf@)), 0),
{
    let v = chars_of(buf);
    let hi = trim_end_from(&v, 0);
    assert(v@.skip(0) =~= v@);
    let t = buf.substring_char(0, hi);
    let tv = chars_of(t);
    let spans = line_spans(&tv);
    let ghost ls = lines(trim_end(buf@));
    assert(ls == spans@.map_values(span_text(tv@)));
    let mut k: usize = 0;
    assert(out@ + quoted_lines(ls, 0) =~= old(out)@ + quoted_lines(ls, 0));
    while k < spans.len()
        invariant
            k <= spans@.len(),
            ls == spans@.map_values(span_text(tv@)),
            tv@ == t@,
            forall|i: int| 0 <= i < spans@.len() ==> (#[trigger] spans@[i]).0 <= spans@[i].1 <= tv@.len(),
            out@ + quoted_lines(ls, k as int) == old(out)@ + quoted_lines(ls, 0),
        decreases spans@.len() - k,
    {
        let ghost before = out@;
        out.append("> ");
        out.append(t.substring_char(spans[k].0, spans[k].1));
        out.append("\n");
        proof {
            assert(ls[k as int] == tv@.subrange(spans@[k as int].0 as int, spans@[k as int].1 as int));
            assert(out@ =~= before + ("> "@ + ls[k as int] + "\n"@));
            assert(before + quoted_lines(ls, k as int) =~= out@ + quoted_lines(ls, k + 1));
        }
        k += 1;
    }
    assert(quoted_lines(ls, k as int) =~= Seq::<char>::empty());
    assert(out@ =~= out@ + quoted_lines(ls, k as int));
}

fn ends_with_newline(s: &String) -> (r: bool)
    ensures
        r == (s@.len() > 0 && s@.last() == '\n'),
{
    let v = chars_of(s.as_str());
    v.len() > 0 && v[v.len() - 1] == '\n'
}

/// Appends the rendering of `node` to `out`.
fn walk_exec(node: &JsonValue, out: &mut String)
    ensures
        final(out)@ == walk(*node, old(out)@),
    decreases node, 2int,
{
    match node {
        JsonValue::Array(xs) => {
            proof {
                lemma_array_decreases(*node);
            }
            walk_nodes_exec(xs, out);
            return;
        },
        _ => {},
    }
    let t = node_type_exec(node);
    if str_eq(t, "doc") {
        walk_children_exec(node, out);
    } else if str_eq(t, "paragraph") {
        walk_children_exec(node, out);
        out.append("\n\n");
    } else if str_eq(t, "heading") {
        let level = heading_level_exec(node);
        append_hashes(out, level);
        out.append(" ");
        walk_children_exec(node, out);
        out.append("\n\n");
    } else if str_eq(t, "text") {
        let w = text_markdown_exec(node);
        out.append(w.as_str());
    } else if str_eq(t, "hardBreak") {
        out.append("\n");
    } else if str_eq(t, "rule") {
        out.append("\n---\n\n");
    } else if str_eq(t, "bulletList") {
        render_list_exec(node, out, None);
    } else if str_eq(t, "orderedList") {
        let start = order_start_exec(node);
        render_list_exec(node, out, Some(start));
    } else if str_eq(t, "listItem") {
        walk_children_exec(node, out);
    } else if str_eq(t, "codeBlock") {
        let lang = attr_or_exec(node, "language", "");
        out.append("```");
        out.append(lang);
        out.append("\n");
        walk_children_exec(node, out);
        if !ends_with_newline(out) {
            out.append("\n");
        }
        out.append("```\n\n");
    } else if str_eq(t, "blockquote") {
        let mut buf = String::new();
        walk_children_exec(node, &mut buf);
        append_quoted(out, buf.as_str());
        out.append("\n");
    } else if str_eq(t, "mention") {
        out.append(mention_name_exec(node));
    } else if str_eq(t, "emoji") {
        out.append(attr_or_exec(node, "shortName", ":emoji:"));
    } else if str_eq(t, "inlineCard") || str_eq(t, "blockCard") || str_eq(t, "embedCard") {
        out.append(attr_or_exec(node, "url", ""));
    } else {
        walk_children_exec(node, out);
    }
}

/// Appends the rendering of the elements of `xs`, in order.
fn walk_nodes_exec(xs: &Vec<JsonValue>, out: &mut String)
    ensures
        final(out)@ == walk_nodes(xs@, 0, old(out)@),
    decreases xs@, 0int,
{
    let mut i: usize = 0;
    while i < xs.len()
        invariant
            i <= xs@.len(),
            walk_nodes(xs@, 0, old(out)@) == walk_nodes(xs@, i as int, out@),
        decreases xs@.len() - i,
    {
        assert(decreases_to!(xs@ => xs@[i as int]));
        walk_exec(&xs[i], out);
        i += 1;
    }
}

/// Appends the rendering of the children of `node`.
fn walk_children_exec(node: &JsonValue, out: &mut String)
    ensures
        final(out)@ == walk_children(*node, old(out)@),
    decreases node, 1int,
{
    match json_get(node, "content") {
        Some(c) => match c {
            JsonValue::Array(xs) => {
                proof {
                    lemma_get_decreases(*node, "content"@);
                    lemma_array_decreases(*c);
                }
                walk_nodes_exec(xs, out);
            },
            _ => {},
        },
        None => {},
    }
}

/// Appends the rendering of a list: each item, then a blank line.
fn render_list_exec(node: &JsonValue, out: &mut String, start: Option<u64>)
    ensures
        final(out)@ == render_list(
            *node,
            old(out)@,
            match start {
                Some(s) => Some(s as nat),
                None => None,
            },
        ),
    decreases node, 1int,
{
    let ghost st = match start {
        Some(s) => Some(s as nat),
        None => None::<nat>,
    };
    match json_get(node, "content") {
        Some(c) => match c {
            JsonValue::Array(xs) => {
                proof {
                    lemma_get_decreases(*node, "content"@);
                    lemma_array_decreases(*c);
                }
                let mut i: usize = 0;
                while i < xs.len()
                    invariant
                        i <= xs@.len(),
                        decreases_to!(*node => xs@),
                        st == match start {
                            Some(s) => Some(s as nat),
                            None => None::<nat>,
                        },
                        list_items(xs@, 0, old(out)@, st) == list_items(xs@, i as int, out@, st),
                    decreases xs@.len() - i,
                {
                    assert(decreases_to!(xs@ => xs@[i as int]));
                    let mut buf = String::new();
                    walk_children_exec(&xs[i], &mut buf);
                    let mut prefix = String::new();
                    match start {
                        Some(s) => {
                            append_decimal(&mut prefix, (s as u128) + (i as u128));
                            prefix.append(". ");
                        },
                        None => {
                            prefix.append("- ");
                        },
                    }
                    proof {
                        assert(prefix@ =~= list_prefix(st, i as int));
                    }
                    append_item(out, buf.as_str(), prefix.as_str());
                    i += 1;
                }
            },
            _ => {},
        },
        None => {},
    }
    out.append("\n");
}

/// Renders an ADF document (or any part of one) as Markdown.
pub fn to_markdown(value: &JsonValue) -> (r: String)
    ensures
        r@ == markdown(*value),
{
    let mut out = String::new();
    walk_exec(value, &mut out);
    trim_string(out.as_str())
}

} // verus!
