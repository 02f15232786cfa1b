//! What the executor adapter reads out of agent files and agent output.
use vstd::prelude::*;
use crate::text::{chars_of, find, find_exec, starts_with, starts_with_exec, lemma_find_from_skip,
    lemma_find_from_is_first, matches_at};

verus! {

/// The delimiter that opens and closes an agent file's front matter.
pub open spec fn front_matter_open() -> Seq<char> {
    "---"@
}

/// The line that closes an agent file's front matter.
pub open spec fn front_matter_close() -> Seq<char> {
    "\n---"@
}

/// The prompt body of an agent file: what follows the closing `---` of a
/// front matter block that opens the file (one newline after it dropped);
/// the whole file where there is no such block.
pub open spec fn prompt_body(content: Seq<char>) -> Seq<char> {
    if starts_with(content, front_matter_open()) {
        let rest = content.skip(front_matter_open().len() as int);
        match find(rest, front_matter_close()) {
            Some(idx) => {
                let body = rest.skip(idx + front_matter_close().len());
                if starts_with(body, seq!['\n']) {
                    body.skip(1)
                } else {
                    body
                }
            },
            None => content,
        }
    } else {
        content
    }
}

/// An agent file made of a front matter block and a body gives the body: a
/// file of `---`, front matter without a line `---` in it, a closing line
/// `---` and the body gives exactly the body; a file that does not open
/// with `---` gives the whole file.
pub proof fn law_prompt_is_body(front: Seq<char>, body: Seq<char>, file: Seq<char>)
    requires
        forall|k: int|
            0 <= k < front.len() ==> !matches_at(
                front + front_matter_close() + seq!['\n'] + body,
                front_matter_close(),
                k,
            ),
    ensures
        prompt_body(front_matter_open() + front + front_matter_close() + seq!['\n'] + body) == body,
        !starts_with(file, front_matter_open()) ==> prompt_body(file) == file,
{
    reveal_strlit("---");
    reveal_strlit("\n---");
    let open = front_matter_open();
    let close = front_matter_close();
    assert(open.len() == 3);
    assert(close.len() == 4);
    let content = open + front + close + seq!['\n'] + body;
    assert(content.take(3) =~= open);
    let rest = content.skip(3);
    assert(rest =~= front + close + seq!['\n'] + body);
    assert(rest.subrange(front.len() as int, front.len() + 4int) =~= close);
    assert(matches_at(rest, close, front.len() as int));
    lemma_find_from_is_first(rest, close, 0);
    assert(find(rest, close) == Some(front.len() as int));
    let b = rest.skip(front.len() + 4int);
    assert(b =~= seq!['\n'] + body);
    assert(b.take(1) =~= seq!['\n']);
    assert(b.skip(1) =~= body);
}

/// Extracts the prompt body from an agent markdown file.
pub fn prompt_from_agent_md(content: &str) -> (r: &str)
    ensures
        r@ == prompt_body(content@),
{
    let c = chars_of(content);
    let open = chars_of("---");
    if starts_with_exec(&c, &open) {
        let close = chars_of("\n---");
        let ghost rest = c@.skip(open@.len() as int);
        proof {
            lemma_find_from_skip(c@, close@, open@.len() as int, 0);
            lemma_find_from_is_first(c@, close@, open@.len() as int);
        }
        if let Some(pos) = find_exec(&c, &close, open.len()) {
            assert(c@.len() == c.len());
            let body_start = pos + close.len();
            let ghost body = rest.skip(pos - open@.len() + close@.len());
            assert(body =~= c@.skip(body_start as int));
            let mut from = body_start;
            if body_start < c.len() && c[body_start] == '\n' {
                from = body_start + 1;
                assert(body.take(1) =~= seq!['\n']);
                assert(body.skip(1) =~= c@.skip(from as int));
            } else {
                proof {
                    if body.len() >= 1 {
                        assert(body.take(1)[0] == body[0]);
                    }
                }
            }
            let r = content.substring_char(from, c.len());
            assert(r@ =~= prompt_body(content@));
            return r;
        }
    }
    content
}

/// The key that precedes a session id in an executor's JSON log line.
pub open spec fn session_key() -> Seq<char> {
    "\"session_id\":\""@
}

/// The text that follows the first `"session_id":"` in `s` up to the next
/// `"`, if both are there.
pub open spec fn session_token_of(s: Seq<char>) -> Option<Seq<char>> {
    match find(s, session_key()) {
        Some(idx) => {
            let tail = s.skip(idx + session_key().len());
            match find(tail, "\""@) {
                Some(end) => Some(tail.take(end)),
                None => None,
            }
        },
        None => None,
    }
}

/// The token after the first `"session_id":"` runs to the next quote: output
/// made of text without that key, the key, a token without quotes, a quote
/// and anything at all carries exactly that token.
pub proof fn law_session_token(a: Seq<char>, token: Seq<char>, b: Seq<char>)
    requires
        forall|k: int|
            0 <= k < a.len() ==> !matches_at(a + session_key() + token + seq!['"'] + b, session_key(), k),
        forall|k: int| 0 <= k < token.len() ==> token[k] != '"',
    ensures
        session_token_of(a + session_key() + token + seq!['"'] + b) == Some(token),
{
    reveal_strlit("\"session_id\":\"");
    reveal_strlit("\"");
    let key = session_key();
    assert(key.len() == 14);
    let s = a + key + token + seq!['"'] + b;
    assert(s.subrange(a.len() as int, a.len() + 14int) =~= key);
    assert(matches_at(s, key, a.len() as int));
    lemma_find_from_is_first(s, key, 0);
    assert(find(s, key) == Some(a.len() as int));
    let tail = s.skip(a.len() + 14int);
    assert(tail =~= token + seq!['"'] + b);
    let q = "\""@;
    assert(q =~= seq!['"']);
    assert(tail.subrange(token.len() as int, token.len() + 1int) =~= q);
    assert(matches_at(tail, q, token.len() as int));
    assert forall|k: int| 0 <= k < token.len() implies !matches_at(tail, q, k) by {
        if matches_at(tail, q, k) {
            assert(tail.subrange(k, k + 1)[0] == q[0]);
            assert(tail[k] == token[k]);
        }
    }
    lemma_find_from_is_first(tail, q, 0);
    assert(find(tail, q) == Some(token.len() as int));
    assert(tail.take(token.len() as int) =~= token);
}

/// The session token that an executor's output carries, if any.
pub fn session_token(stdout: &str) -> (r: Option<&str>)
    ensures
        match r {
            Some(t) => session_token_of(stdout@) == Some(t@),
            None => session_token_of(stdout@) is None,
        },
{
    let s = chars_of(stdout);
    let key = chars_of("\"session_id\":\"");
    let quote = chars_of("\"");
    proof {
        lemma_find_from_is_first(s@, key@, 0);
    }
    match find_exec(&s, &key, 0) {
        Some(idx) => {
            assert(s@.len() == s.len());
            let start = idx + key.len();
            proof {
                lemma_find_from_skip(s@, quote@, start as int, 0);
                lemma_find_from_is_first(s@, quote@, start as int);
            }
            match find_exec(&s, &quote, start) {
                Some(end) => {
                    let t = stdout.substring_char(start, end);
                    assert(t@ =~= s@.skip(start as int).take(end - start));
                    Some(t)
                },
                None => None,
            }
        },
        None => None,
    }
}

/// What `uuid::Uuid::parse_str` makes of a string, as the 128-bit value of
/// the UUID (`Uuid::as_u128`), or `None` where it refuses the string.
pub uninterp spec fn uuid_parse_str(s: Seq<char>) -> Option<u128>;

/// Calls `uuid::Uuid::parse_str`; the contract only names its result
/// (`uuid_parse_str`): which strings it accepts (simple, hyphenated, braced
/// and URN forms) is left to the uuid crate.
#[verifier::external_body]
fn parse_uuid(s: &str) -> (r: Option<u128>)
    ensures
        r == uuid_parse_str(s@),
{
    uuid::Uuid::parse_str(s).ok().map(|u| u.as_u128())
}

/// The session UUID that an executor's output carries, if it carries one
/// that parses.
pub fn extract_session_id(stdout: &str) -> (r: Option<u128>)
    ensures
        r == (match session_token_of(stdout@) {
            Some(t) => uuid_parse_str(t),
            None => None,
        }),
{
    match session_token(stdout) {
        Some(t) => parse_uuid(t),
        None => None,
    }
}

} // verus!
