//! Jira issues as the orchestrator sees them, and what changed between two
//! snapshots of one.
use vstd::prelude::*;
use crate::json::{JsonValue, json_same, json_eq, lemma_json_same_refl, key_at, shape_at,
    law_same_values_agree_everywhere};
use crate::text::str_eq;
use crate::payload::{json_string, json_string_text};

verus! {

/// A Jira issue.
#[derive(Debug, Clone)]
pub struct JiraIssue {
    pub key: String,
    pub fields: JiraFields,
}

/// The fields of an issue that the orchestrator reads.
#[derive(Debug, Clone)]
pub struct JiraFields {
    pub summary: String,
    pub status: JiraNamed,
    pub assignee: Option<JiraUser>,
    pub description: Option<JsonValue>,
    pub labels: Vec<String>,
    pub priority: Option<JiraNamed>,
    pub comment: JiraComments,
    pub attachment: Vec<JiraAttachment>,
}

/// Something Jira identifies by name (a status, a priority).
#[derive(Debug, Clone)]
pub struct JiraNamed {
    pub name: String,
}

/// A Jira user.
#[derive(Debug, Clone)]
pub struct JiraUser {
    pub account_id: String,
    pub display_name: String,
}

/// The comments of an issue.
#[derive(Debug, Clone)]
pub struct JiraComments {
    pub comments: Vec<JiraComment>,
}

impl Default for JiraComments {
    fn default() -> (r: Self)
        ensures
            r.comments@.len() == 0,
    {
        JiraComments { comments: Vec::new() }
    }
}

/// One comment.
#[derive(Debug, Clone)]
pub struct JiraComment {
    pub id: String,
    pub body: JsonValue,
    pub updated: String,
}

/// An attachment of an issue.
#[derive(Debug, Clone)]
pub struct JiraAttachment {
    pub id: String,
    pub filename: String,
}

/// What changed between two snapshots of an issue.
#[derive(Debug, Clone)]
pub struct JiraDiff {
    pub status_changed: bool,
    pub status_terminal: bool,
    pub assignee_changed: bool,
    pub summary_changed: bool,
    pub new_comments: Vec<JiraComment>,
    pub description_changed: bool,
}

impl Default for JiraDiff {
    fn default() -> (r: Self)
        ensures
            !r.status_changed,
            !r.status_terminal,
            !r.assignee_changed,
            !r.summary_changed,
            r.new_comments@.len() == 0,
            !r.description_changed,
    {
        JiraDiff {
            status_changed: false,
            status_terminal: false,
            assignee_changed: false,
            summary_changed: false,
            new_comments: Vec::new(),
            description_changed: false,
        }
    }
}

/// The Jira statuses that end an issue.
pub open spec fn is_terminal_status(name: Seq<char>) -> bool {
    name == "Done"@ || name == "Closed"@ || name == "Cancelled"@ || name == "Resolved"@
}

/// Whether a status ends an issue: Done, Closed, Cancelled or Resolved.
pub fn terminal_status(name: &str) -> (r: bool)
    ensures
        r == is_terminal_status(name@),
{
    str_eq(name, "Done") || str_eq(name, "Closed") || str_eq(name, "Cancelled") || str_eq(
        name,
        "Resolved",
    )
}

/// Two comments are the same: same id, body and update time.
pub open spec fn comment_same(a: JiraComment, b: JiraComment) -> bool {
    a.id@ == b.id@ && json_same(a.body, b.body) && a.updated@ == b.updated@
}

/// Two lists of comments are the same, one by one.
pub open spec fn comments_same(a: Seq<JiraComment>, b: Seq<JiraComment>) -> bool {
    a.len() == b.len() && forall|i: int| 0 <= i < a.len() ==> comment_same(#[trigger] a[i], b[i])
}

/// Some comment in `cs` has id `id`.
pub open spec fn has_comment_id(cs: Seq<JiraComment>, id: Seq<char>) -> bool {
    exists|j: int| 0 <= j < cs.len() && (#[trigger] cs[j]).id@ == id
}

/// The comments of `curr` whose ids none of `prev` has, in order.
pub open spec fn fresh_comments(curr: Seq<JiraComment>, prev: Seq<JiraComment>) -> Seq<JiraComment>
    decreases curr.len(),
{
    if curr.len() == 0 {
        Seq::empty()
    } else {
        fresh_comments(curr.drop_last(), prev) + if has_comment_id(prev, curr.last().id@) {
            Seq::<JiraComment>::empty()
        } else {
            seq![curr.last()]
        }
    }
}

/// The assignee's account id, if there is an assignee.
pub open spec fn account_of(u: Option<JiraUser>) -> Option<Seq<char>> {
    match u {
        Some(u) => Some(u.account_id@),
        None => None,
    }
}

/// Two descriptions are the same: both absent, or both present and equal.
pub open spec fn description_same(a: Option<JsonValue>, b: Option<JsonValue>) -> bool {
    match a {
        Some(x) => b matches Some(y) && json_same(x, y),
        None => b is None,
    }
}

fn clone_comment(c: &JiraComment) -> (r: JiraComment)
    ensures
        comment_same(r, *c),
{
    JiraComment { id: c.id.clone(), body: c.body.clone(), updated: c.updated.clone() }
}

fn has_comment_id_exec(cs: &Vec<JiraComment>, id: &String) -> (r: bool)
    ensures
        r == has_comment_id(cs@, id@),
{
    let mut i: usize = 0;
    while i < cs.len()
        invariant
            i <= cs.len(),
            forall|j: int| 0 <= j < i ==> (#[trigger] cs@[j]).id@ != id@,
        decreases cs.len() - i,
    {
        if cs[i].id == *id {
            return true;
        }
        i += 1;
    }
    false
}

/// `d` is the diff from `prev` to `curr`: whether the status changed (and
/// whether the new one is terminal), whether the assignee's account, the
/// summary and the description changed, and the comments whose ids `prev`
/// does not have.
pub open spec fn is_diff(prev: JiraIssue, curr: JiraIssue, d: JiraDiff) -> bool {
    &&& d.status_changed == (prev.fields.status.name@ != curr.fields.status.name@)
    &&& d.status_terminal == is_terminal_status(curr.fields.status.name@)
    &&& d.assignee_changed == (account_of(prev.fields.assignee) != account_of(curr.fields.assignee))
    &&& d.summary_changed == (prev.fields.summary@ != curr.fields.summary@)
    &&& comments_same(
        d.new_comments@,
        fresh_comments(curr.fields.comment.comments@, prev.fields.comment.comments@),
    )
    &&& d.description_changed == !description_same(prev.fields.description, curr.fields.description)
}

proof fn lemma_no_fresh_comments(curr: Seq<JiraComment>, prev: Seq<JiraComment>)
    requires
        forall|i: int| 0 <= i < curr.len() ==> has_comment_id(prev, (#[trigger] curr[i]).id@),
    ensures
        fresh_comments(curr, prev).len() == 0,
    decreases curr.len(),
{
    if curr.len() > 0 {
        assert(has_comment_id(prev, curr[curr.len() - 1].id@));
        lemma_no_fresh_comments(curr.drop_last(), prev);
    }
}

/// Polling an issue that has not changed reports no change: same status,
/// assignee, summary and description, and no new comment.
pub proof fn law_unchanged_issue_has_empty_diff(issue: JiraIssue, d: JiraDiff)
    requires
        is_diff(issue, issue, d),
    ensures
        !d.status_changed,
        !d.assignee_changed,
        !d.summary_changed,
        !d.description_changed,
        d.new_comments@.len() == 0,
{
    let cs = issue.fields.comment.comments@;
    assert forall|i: int| 0 <= i < cs.len() implies has_comment_id(cs, (#[trigger] cs[i]).id@) by {
        assert(cs[i].id@ == cs[i].id@);
    }
    lemma_no_fresh_comments(cs, cs);
    match issue.fields.description {
        Some(x) => lemma_json_same_refl(x),
        None => {},
    }
}

proof fn lemma_fresh_comments(curr: Seq<JiraComment>, prev: Seq<JiraComment>)
    ensures
        forall|j: int|
            0 <= j < fresh_comments(curr, prev).len() ==> !has_comment_id(
                prev,
                (#[trigger] fresh_comments(curr, prev)[j]).id@,
            ) && exists|k: int| 0 <= k < curr.len() && curr[k] == fresh_comments(curr, prev)[j],
        forall|k: int|
            0 <= k < curr.len() && !has_comment_id(prev, (#[trigger] curr[k]).id@) ==> exists|j: int|
                0 <= j < fresh_comments(curr, prev).len() && fresh_comments(curr, prev)[j]
                    == curr[k],
    decreases curr.len(),
{
    if curr.len() > 0 {
        let init = curr.drop_last();
        lemma_fresh_comments(init, prev);
        let f0 = fresh_comments(init, prev);
        let f = fresh_comments(curr, prev);
        let last = curr.last();
        assert forall|j: int| 0 <= j < f.len() implies !has_comment_id(prev, (#[trigger] f[j]).id@)
            && exists|k: int| 0 <= k < curr.len() && curr[k] == f[j] by {
            if j < f0.len() {
                assert(f[j] == f0[j]);
                let k = choose|k: int| 0 <= k < init.len() && init[k] == f0[j];
                assert(curr[k] == init[k]);
            } else {
                assert(f[j] == last);
                assert(curr[curr.len() - 1] == last);
            }
        }
        assert forall|k: int|
            0 <= k < curr.len() && !has_comment_id(prev, (#[trigger] curr[k]).id@) implies exists|
            j: int,
        | 0 <= j < f.len() && f[j] == curr[k] by {
            if k < init.len() {
                assert(curr[k] == init[k]);
                let j = choose|j: int| 0 <= j < f0.len() && f0[j] == init[k];
                assert(f[j] == f0[j]);
            } else {
                assert(f[f0.len() as int] == last);
            }
        }
    }
}

/// The new comments of a diff are exactly those of the current issue whose
/// ids the previous snapshot does not have: each such comment is among
/// them, and each of them is a comment of the current issue with an id the
/// previous snapshot lacks.
pub proof fn law_new_comments_are_unseen(prev: JiraIssue, curr: JiraIssue, d: JiraDiff)
    requires
        is_diff(prev, curr, d),
    ensures
        forall|k: int|
            0 <= k < curr.fields.comment.comments@.len() && !(exists|i: int|
                0 <= i < prev.fields.comment.comments@.len()
                    && prev.fields.comment.comments@[i].id@
                    == (#[trigger] curr.fields.comment.comments@[k]).id@) ==> exists|j: int|
                0 <= j < d.new_comments@.len() && d.new_comments@[j].id@
                    == curr.fields.comment.comments@[k].id@,
        forall|j: int|
            0 <= j < d.new_comments@.len() ==> !(exists|i: int|
                0 <= i < prev.fields.comment.comments@.len()
                    && prev.fields.comment.comments@[i].id@ == (#[trigger] d.new_comments@[j]).id@)
                && exists|k: int|
                0 <= k < curr.fields.comment.comments@.len()
                    && curr.fields.comment.comments@[k].id@ == d.new_comments@[j].id@,
{
    let pc = prev.fields.comment.comments@;
    let cc = curr.fields.comment.comments@;
    let f = fresh_comments(cc, pc);
    lemma_fresh_comments(cc, pc);
    assert forall|k: int|
        0 <= k < cc.len() && !(exists|i: int| 0 <= i < pc.len() && pc[i].id@ == (#[trigger] cc[k]).id@)
        implies exists|j: int| 0 <= j < d.new_comments@.len() && d.new_comments@[j].id@ == cc[k].id@ by {
        assert(!has_comment_id(pc, cc[k].id@));
        let j = choose|j: int| 0 <= j < f.len() && f[j] == cc[k];
        assert(comment_same(d.new_comments@[j], f[j]));
    }
    assert forall|j: int| 0 <= j < d.new_comments@.len() implies !(exists|i: int|
        0 <= i < pc.len() && pc[i].id@ == (#[trigger] d.new_comments@[j]).id@) && exists|k: int|
        0 <= k < cc.len() && cc[k].id@ == d.new_comments@[j].id@ by {
        assert(comment_same(d.new_comments@[j], f[j]));
        assert(!has_comment_id(pc, f[j].id@));
        let k = choose|k: int| 0 <= k < cc.len() && cc[k] == f[j];
        if exists|i: int| 0 <= i < pc.len() && pc[i].id@ == d.new_comments@[j].id@ {
            let i = choose|i: int| 0 <= i < pc.len() && pc[i].id@ == d.new_comments@[j].id@;
            assert(pc[i].id@ == f[j].id@);
        }
    }
}

/// An edit to the description anywhere in its document (a string, number,
/// key or size that differs at some place) is reported as a change, and so is a
/// description that appears or disappears.
pub proof fn law_description_edit_seen(prev: JiraIssue, curr: JiraIssue, d: JiraDiff, path: Seq<int>)
    requires
        is_diff(prev, curr, d),
        match (prev.fields.description, curr.fields.description) {
            (Some(x), Some(y)) => key_at(x, path) != key_at(
                y,
                path,
            ) || shape_at(x, path) != shape_at(y, path),
            (None, None) => false,
            _ => true,
        },
    ensures
        d.description_changed,
{
    match (prev.fields.description, curr.fields.description) {
        (Some(x), Some(y)) => {
            if json_same(x, y) {
                law_same_values_agree_everywhere(x, y, path);
            }
        },
        _ => {},
    }
}

/// What changed from `prev` to `curr`.
pub fn diff_issue(prev: &JiraIssue, curr: &JiraIssue) -> (d: JiraDiff)
    ensures
        is_diff(*prev, *curr, d),
{
    let prev_cs = &prev.fields.comment.comments;
    let curr_cs = &curr.fields.comment.comments;
    let mut new_comments: Vec<JiraComment> = Vec::new();
    let mut i: usize = 0;
    while i < curr_cs.len()
        invariant
            i <= curr_cs.len(),
            comments_same(new_comments@, fresh_comments(curr_cs@.take(i as int), prev_cs@)),
        decreases curr_cs.len() - i,
    {
        proof {
            assert(curr_cs@.take(i + 1).drop_last() =~= curr_cs@.take(i as int));
        }
        if !has_comment_id_exec(prev_cs, &curr_cs[i].id) {
            new_comments.push(clone_comment(&curr_cs[i]));
        }
        i += 1;
    }
    proof {
        assert(curr_cs@.take(curr_cs.len() as int) =~= curr_cs@);
    }
    let assignee_changed = match (&prev.fields.assignee, &curr.fields.assignee) {
        (Some(a), Some(b)) => a.account_id != b.account_id,
        (None, None) => false,
        _ => true,
    };
    let description_changed = match (&prev.fields.description, &curr.fields.description) {
        (Some(a), Some(b)) => !json_eq(a, b),
        (None, None) => false,
        _ => true,
    };
    JiraDiff {
        status_changed: prev.fields.status.name != curr.fields.status.name,
        status_terminal: terminal_status(curr.fields.status.name.as_str()),
        assignee_changed,
        summary_changed: prev.fields.summary != curr.fields.summary,
        new_comments,
        description_changed,
    }
}

/// A transition that Jira offers for an issue.
#[derive(Debug, Clone)]
pub struct JiraTransition {
    pub id: String,
    pub name: String,
}

/// The id of the first transition called `name`, or the message that none is.
pub fn transition_id(transitions: &Vec<JiraTransition>, name: &str) -> (r: Result<String, String>)
    ensures
        match crate::text::first_index(transitions@, |t: JiraTransition| t.name@ == name@) {
            Some(i) => r matches Ok(id) && id@ == transitions@[i].id@,
            None => r matches Err(m) && m@ == "transition '"@ + name@ + "' not found"@,
        },
{
    let mut i: usize = 0;
    while i < transitions.len()
        invariant
            i <= transitions.len(),
            crate::text::first_index(transitions@, |t: JiraTransition| t.name@ == name@)
                == crate::text::first_index_from(
                transitions@,
                |t: JiraTransition| t.name@ == name@,
                i as int,
            ),
        decreases transitions.len() - i,
    {
        if str_eq(transitions[i].name.as_str(), name) {
            return Ok(transitions[i].id.clone());
        }
        i += 1;
    }
    Err(String::from_str("transition '").concat(name).concat("' not found"))
}

/// Whether a search answer's cursor asks for another page: a cursor that is
/// present and not empty.
pub fn next_page(token: Option<String>) -> (r: Option<String>)
    ensures
        match token {
            Some(t) => if t@.len() > 0 {
                r == Some(t)
            } else {
                r is None
            },
            None => r is None,
        },
{
    match token {
        Some(t) => {
            if t.as_str().is_empty() {
                None
            } else {
                Some(t)
            }
        },
        None => None,
    }
}

/// The base URL of a Jira site given by its host name.
pub open spec fn site_url_of(site: Seq<char>) -> Seq<char> {
    "https://"@ + site
}

/// The base URL of the Jira site `site` (a host name).
pub fn site_url(site: &str) -> (r: String)
    ensures
        r@ == site_url_of(site@),
{
    String::from_str("https://").concat(site)
}

/// Where issues are searched: the site's cursor-paged JQL search.
pub open spec fn search_url_of(base: Seq<char>) -> Seq<char> {
    base + "/rest/api/3/search/jql"@
}

/// Where issues are searched on the site `base`.
pub fn search_url(base: &str) -> (r: String)
    ensures
        r@ == search_url_of(base@),
{
    String::from_str(base).concat("/rest/api/3/search/jql")
}

/// Where an issue's transitions are listed and made.
pub open spec fn transitions_url_of(base: Seq<char>, key: Seq<char>) -> Seq<char> {
    base + "/rest/api/3/issue/"@ + key + "/transitions"@
}

/// Where the transitions of issue `key` on the site `base` are listed and
/// made.
pub fn transitions_url(base: &str, key: &str) -> (r: String)
    ensures
        r@ == transitions_url_of(base@, key@),
{
    String::from_str(base).concat("/rest/api/3/issue/").concat(key).concat("/transitions")
}

/// The fields that a search asks for, as a JSON array.
pub open spec fn search_fields_json() -> Seq<char> {
    "[\"summary\",\"status\",\"assignee\",\"description\",\"labels\",\"priority\",\"comment\",\"attachment\"]"@
}

/// The body of one search request: the fields to return, the query, pages
/// of at most 100 issues, and the cursor of the page wanted, if not the
/// first.
pub open spec fn search_body_of(jql: Seq<char>, cursor: Option<Seq<char>>) -> Seq<char> {
    "{\"fields\":"@ + search_fields_json() + ",\"jql\":"@ + json_string_text(jql)
        + ",\"maxResults\":100"@ + match cursor {
        Some(t) => ",\"nextPageToken\":"@ + json_string_text(t),
        None => Seq::<char>::empty(),
    } + "}"@
}

/// The body of one search request for `jql`, at the page `cursor` points
/// to (the first page without one).
pub fn search_body(jql: &str, cursor: Option<&str>) -> (r: String)
    ensures
        r@ == search_body_of(
            jql@,
            match cursor {
                Some(t) => Some(t@),
                None => None,
            },
        ),
{
    let mut r = String::from_str("{\"fields\":").concat(
        "[\"summary\",\"status\",\"assignee\",\"description\",\"labels\",\"priority\",\"comment\",\"attachment\"]",
    ).concat(",\"jql\":").concat(json_string(jql).as_str()).concat(",\"maxResults\":100");
    match cursor {
        Some(t) => {
            r.append(",\"nextPageToken\":");
            r.append(json_string(t).as_str());
        },
        None => {},
    }
    r.append("}");
    r
}

/// The body that makes the transition with id `id`.
pub open spec fn transition_body_of(id: Seq<char>) -> Seq<char> {
    "{\"transition\":{\"id\":"@ + json_string_text(id) + "}}"@
}

/// The body that makes the transition with id `id`: `{"transition": {"id":
/// <id>}}`.
pub fn transition_body(id: &str) -> (r: String)
    ensures
        r@ == transition_body_of(id@),
{
    String::from_str("{\"transition\":{\"id\":").concat(json_string(id).as_str()).concat("}}")
}

} // verus!
