//! The workflow configuration of a project (`.agents/kanban-workflows/<project>.yml`)
//! and the rules it must satisfy.
use vstd::prelude::*;
use std::time::Duration;
use crate::text::{decimal, append_decimal, first_index, first_index_from, lemma_first_index_from,
    lemma_first_index_from_char,
    ends_with, ends_with_exec, chars_of};

verus! {

/// A workflow: the columns a card moves through and the policies around them.
#[derive(Debug, Clone)]
pub struct Workflow {
    pub version: u32,
    pub project: String,
    pub sync: Sync,
    pub columns: Vec<Column>,
    pub defaults: Defaults,
    pub reconciliation: Reconciliation,
    pub hooks: Hooks,
}

/// Where issues come from.
#[derive(Debug, Clone)]
pub struct Sync {
    pub source: String,
    pub jira: JiraConfig,
}

/// The Jira project that a workflow follows.
#[derive(Debug, Clone)]
pub struct JiraConfig {
    pub site: String,
    pub project_key: String,
    pub jql: String,
    pub poll_interval: Duration,
    pub auth_env: AuthEnv,
}

/// The names of the environment variables that hold the Jira credentials.
#[derive(Debug, Clone)]
pub struct AuthEnv {
    pub email: String,
    pub token: String,
}

/// One column of the board: a phase of the workflow.
#[derive(Debug, Clone)]
pub struct Column {
    pub name: String,
    pub jira_status: Vec<String>,
    pub initial: Option<bool>,
    pub terminal: Option<bool>,
    pub agent: Option<String>,
    pub on_complete: OnComplete,
    pub next: Option<String>,
    pub jira_transition: Option<String>,
    pub max_turns_per_phase: Option<u32>,
}

/// What happens when a phase's agent is done: advance, or wait for review.
#[derive(Debug, Clone, Copy, PartialEq, Eq, Structural)]
pub enum OnComplete {
    Auto,
    Review,
}

impl Default for OnComplete {
    fn default() -> (r: Self)
        ensures
            r == OnComplete::Auto,
    {
        OnComplete::Auto
    }
}

/// Project-wide defaults.
#[derive(Debug, Clone)]
pub struct Defaults {
    pub workspace_strategy: Option<String>,
    pub max_concurrent_dispatches: Option<u32>,
    pub max_per_column: Option<u32>,
    pub max_turns_per_phase: Option<u32>,
    pub retry: Option<RetryConfig>,
    pub notifications: Option<NotifyConfig>,
}

impl Default for Defaults {
    fn default() -> (r: Self)
        ensures
            r.workspace_strategy is None,
            r.max_concurrent_dispatches is None,
            r.max_per_column is None,
            r.max_turns_per_phase is None,
            r.retry is None,
            r.notifications is None,
    {
        Defaults {
            workspace_strategy: None,
            max_concurrent_dispatches: None,
            max_per_column: None,
            max_turns_per_phase: None,
            retry: None,
            notifications: None,
        }
    }
}

/// How failed dispatches are retried.
#[derive(Debug, Clone)]
pub struct RetryConfig {
    pub max_attempts: u32,
    pub backoff: String,
    pub base_ms: u64,
}

/// Which notifications are sent.
#[derive(Debug, Clone)]
pub struct NotifyConfig {
    pub macos: bool,
    pub events: Vec<String>,
}

/// How changes seen in Jira are answered.
#[derive(Debug, Clone)]
pub struct Reconciliation {
    pub on_jira_comment: Option<String>,
    pub on_jira_status_terminal: Option<String>,
    pub on_jira_assignee_change: Option<String>,
    pub on_jira_summary_change: Option<String>,
}

impl Default for Reconciliation {
    fn default() -> (r: Self)
        ensures
            r.on_jira_comment is None,
            r.on_jira_status_terminal is None,
            r.on_jira_assignee_change is None,
            r.on_jira_summary_change is None,
    {
        Reconciliation {
            on_jira_comment: None,
            on_jira_status_terminal: None,
            on_jira_assignee_change: None,
            on_jira_summary_change: None,
        }
    }
}

/// Shell commands run around a phase.
#[derive(Debug, Clone)]
pub struct Hooks {
    pub pre_dispatch: Option<String>,
    pub post_complete: Option<String>,
    pub on_error: Option<String>,
}

impl Default for Hooks {
    fn default() -> (r: Self)
        ensures
            r.pre_dispatch is None,
            r.post_complete is None,
            r.on_error is None,
    {
        Hooks { pre_dispatch: None, post_complete: None, on_error: None }
    }
}

/// What `Duration::from_secs` returns for a number of seconds.
pub uninterp spec fn duration_from_secs(secs: u64) -> Duration;

/// `Duration::from_secs` gives the duration of `secs` whole seconds; the
/// contract names that duration (`duration_from_secs`) and says nothing more
/// of it.
pub assume_specification[ Duration::from_secs ](secs: u64) -> (d: Duration)
    ensures
        d == duration_from_secs(secs),
;

/// `Duration` is `Copy`; its `clone` returns the same duration.
pub assume_specification[ <Duration as Clone>::clone ](d: &Duration) -> (r: Duration)
    ensures
        r == *d,
;

/// The Jira poll interval when the workflow gives none: fifteen minutes.
pub fn default_poll() -> (d: Duration)
    ensures
        d == duration_from_secs(900),
{
    Duration::from_secs(15 * 60)
}

/// A column is the initial one when `initial: true`.
pub open spec fn is_initial(c: Column) -> bool {
    c.initial == Some(true)
}

/// A column is terminal when `terminal: true`.
pub open spec fn is_terminal(c: Column) -> bool {
    c.terminal == Some(true)
}

/// How many columns are marked initial.
pub open spec fn count_initial(cols: Seq<Column>) -> nat
    decreases cols.len(),
{
    if cols.len() == 0 {
        0
    } else {
        count_initial(cols.drop_last()) + if is_initial(cols.last()) {
            1nat
        } else {
            0nat
        }
    }
}

/// Some column is called `name`.
pub open spec fn has_column_named(cols: Seq<Column>, name: Seq<char>) -> bool {
    exists|j: int| 0 <= j < cols.len() && (#[trigger] cols[j]).name@ == name
}

/// `name` is among the known agents.
pub open spec fn knows_agent(known: Seq<&str>, name: Seq<char>) -> bool {
    exists|j: int| 0 <= j < known.len() && (#[trigger] known[j])@ == name
}

/// The complaint about one column, if any: a non-terminal column needs a
/// `next` that names a column, and an agent must have its file.
pub open spec fn column_error(c: Column, cols: Seq<Column>, known: Seq<&str>) -> Option<Seq<char>> {
    if !is_terminal(c) && c.next is None {
        Some("column '"@ + c.name@ + "' missing next"@)
    } else if !is_terminal(c) && !has_column_named(cols, c.next->0@) {
        Some("column '"@ + c.name@ + "' next='"@ + c.next->0@ + "' not found in columns"@)
    } else if c.agent is Some && !knows_agent(known, c.agent->0@) {
        Some("column '"@ + c.name@ + "' agent file .agents/agent/"@ + c.agent->0@ + ".md missing"@)
    } else {
        None
    }
}

/// The complaint about the first column from `i` on that has one.
pub open spec fn columns_error_from(cols: Seq<Column>, i: int, known: Seq<&str>) -> Option<Seq<char>>
    decreases cols.len() - i,
{
    if i < 0 || i >= cols.len() {
        None
    } else {
        match column_error(cols[i], cols, known) {
            Some(m) => Some(m),
            None => columns_error_from(cols, i + 1, known),
        }
    }
}

/// The first rule of a workflow's shape that it breaks, as the message that
/// `validate` gives, checked in order: the version, one initial column, some
/// terminal column, then each column in turn.
pub open spec fn structure_error(w: Workflow, known: Seq<&str>) -> Option<Seq<char>> {
    if w.version != 1 {
        Some("unsupported version "@ + decimal(w.version as nat))
    } else if count_initial(w.columns@) != 1 {
        Some("exactly one column must have initial: true"@)
    } else if !(exists|j: int| 0 <= j < w.columns@.len() && is_terminal(#[trigger] w.columns@[j])) {
        Some("at least one terminal column required"@)
    } else {
        columns_error_from(w.columns@, 0, known)
    }
}

/// The message for an unset credential variable.
pub open spec fn env_error(name: Seq<char>) -> Seq<char> {
    "env var "@ + name + " not set"@
}

/// The probe, asked about a variable of that name, answered `present`.
pub open spec fn env_answer<F: Fn(&str) -> bool>(f: F, name: Seq<char>, present: bool) -> bool {
    exists|x: &str| x@ == name && call_ensures(f, (x,), present)
}

fn count_initial_exec(cols: &Vec<Column>) -> (n: usize)
    ensures
        n == count_initial(cols@),
{
    let mut n: usize = 0;
    let mut i: usize = 0;
    while i < cols.len()
        invariant
            i <= cols.len(),
            n <= i,
            n == count_initial(cols@.take(i as int)),
        decreases cols.len() - i,
    {
        proof {
            assert(cols@.take(i + 1).drop_last() =~= cols@.take(i as int));
        }
        if cols[i].initial == Some(true) {
            n += 1;
        }
        i += 1;
    }
    proof {
        assert(cols@.take(cols.len() as int) =~= cols@);
    }
    n
}

fn has_column_named_exec(cols: &Vec<Column>, name: &str) -> (r: bool)
    ensures
        r == has_column_named(cols@, name@),
{
    let mut i: usize = 0;
    while i < cols.len()
        invariant
            i <= cols.len(),
            forall|j: int| 0 <= j < i ==> (#[trigger] cols@[j]).name@ != name@,
        decreases cols.len() - i,
    {
        if crate::text::str_eq(cols[i].name.as_str(), name) {
            return true;
        }
        i += 1;
    }
    false
}

fn knows_agent_exec(known: &[&str], name: &str) -> (r: bool)
    ensures
        r == knows_agent(known@, name@),
{
    let mut i: usize = 0;
    while i < known.len()
        invariant
            i <= known@.len(),
            forall|j: int| 0 <= j < i ==> (#[trigger] known@[j])@ != name@,
        decreases known@.len() - i,
    {
        if crate::text::str_eq(known[i], name) {
            return true;
        }
        i += 1;
    }
    false
}

fn column_error_exec(c: &Column, cols: &Vec<Column>, known: &[&str]) -> (r: Option<String>)
    ensures
        match r {
            Some(m) => column_error(*c, cols@, known@) == Some(m@),
            None => column_error(*c, cols@, known@) is None,
        },
{
    let is_terminal = c.terminal == Some(true);
    if !is_terminal {
        match &c.next {
            None => {
                let m = String::from_str("column '").concat(c.name.as_str()).concat("' missing next");
                return Some(m);
            },
            Some(next) => {
                if !has_column_named_exec(cols, next.as_str()) {
                    let m = String::from_str("column '").concat(c.name.as_str()).concat(
                        "' next='",
                    ).concat(next.as_str()).concat("' not found in columns");
                    return Some(m);
                }
            },
        }
    }
    if let Some(a) = &c.agent {
        if !knows_agent_exec(known, a.as_str()) {
            let m = String::from_str("column '").concat(c.name.as_str()).concat(
                "' agent file .agents/agent/",
            ).concat(a.as_str()).concat(".md missing");
            return Some(m);
        }
    }
    None
}

/// The agent names that a listing of `.agents/agent/` offers: each file name
/// that ends in `.md`, without that suffix, in the order listed.
pub open spec fn agent_names_of(file_names: Seq<Seq<char>>) -> Seq<Seq<char>>
    decreases file_names.len(),
{
    if file_names.len() == 0 {
        Seq::empty()
    } else {
        let last = file_names.last();
        agent_names_of(file_names.drop_last()) + if ends_with(last, ".md"@) {
            seq![last.take(last.len() - 3)]
        } else {
            Seq::<Seq<char>>::empty()
        }
    }
}

/// The views of a list of strings.
pub open spec fn views(v: Seq<String>) -> Seq<Seq<char>> {
    v.map_values(|s: String| s@)
}

/// The agent names that a listing of `.agents/agent/` offers.
pub fn agent_names(file_names: &Vec<String>) -> (r: Vec<String>)
    ensures
        views(r@) == agent_names_of(views(file_names@)),
{
    let md = chars_of(".md");
    proof {
        reveal_strlit(".md");
    }
    let mut r: Vec<String> = Vec::new();
    let mut i: usize = 0;
    while i < file_names.len()
        invariant
            i <= file_names.len(),
            md@ == ".md"@,
            md@.len() == 3,
            views(r@) == agent_names_of(views(file_names@.take(i as int))),
        decreases file_names.len() - i,
    {
        let f = &file_names[i];
        let fc = chars_of(f.as_str());
        proof {
            assert(views(file_names@.take(i + 1)).drop_last() =~= views(file_names@.take(i as int)));
            assert(views(file_names@.take(i + 1)).last() == f@);
        }
        if ends_with_exec(&fc, &md) {
            let stem = String::from_str(f.as_str().substring_char(0, fc.len() - 3));
            let ghost old_r = r@;
            r.push(stem);
            proof {
                assert(views(r@) =~= views(old_r) + seq![f@.take(f@.len() - 3)]);
            }
        } else {
            proof {
                assert(views(r@) =~= views(r@) + Seq::<Seq<char>>::empty());
            }
        }
        i += 1;
    }
    proof {
        assert(file_names@.take(file_names.len() as int) =~= file_names@);
    }
    r
}

/// The part of a file name before its extension and the extension, as
/// `Path::file_stem` and `Path::extension` read them: the split is at the
/// last `.`, unless that `.` begins the name.
pub open spec fn stem_and_extension(name: Seq<char>) -> (Seq<char>, Option<Seq<char>>) {
    match crate::text::last_index(name, '.') {
        Some(k) => if k == 0 {
            (name, None)
        } else {
            (name.take(k), Some(name.skip(k + 1)))
        },
        None => (name, None),
    }
}

/// The project key that a file in `.agents/kanban-workflows/` stands for:
/// its stem, where its extension is `yml`.
pub open spec fn workflow_key_of(name: Seq<char>) -> Option<Seq<char>> {
    let (stem, ext) = stem_and_extension(name);
    if ext == Some("yml"@) {
        Some(stem)
    } else {
        None
    }
}

/// The file that holds a project's workflow stands for that project: the
/// key read back from `<project>.yml` is the project, for any non-empty
/// project name.
pub proof fn law_workflow_file_key(project: Seq<char>)
    requires
        project.len() > 0,
    ensures
        workflow_key_of(project + ".yml"@) == Some(project),
{
    reveal_strlit(".yml");
    reveal_strlit("yml");
    let s = project + ".yml"@;
    let n = s.len() as int;
    assert(s[n - 1] == 'l' && s[n - 2] == 'm' && s[n - 3] == 'y' && s[n - 4] == '.');
    assert(crate::text::last_index_before(s, '.', n - 3) == Some(n - 4));
    assert(crate::text::last_index_before(s, '.', n - 2) == Some(n - 4));
    assert(crate::text::last_index_before(s, '.', n - 1) == Some(n - 4));
    assert(crate::text::last_index(s, '.') == Some(n - 4));
    assert(s.take(n - 4) =~= project);
    assert(s.skip(n - 3) =~= "yml"@);
}

/// The project key that a workflow file stands for, if it is one.
pub fn workflow_key(file_name: &str) -> (r: Option<String>)
    ensures
        match r {
            Some(k) => workflow_key_of(file_name@) == Some(k@),
            None => workflow_key_of(file_name@) is None,
        },
{
    let c = chars_of(file_name);
    match crate::text::last_index_exec(&c, '.') {
        Some(k) => {
            if k == 0 {
                return None;
            }
            assert(c@.len() == c.len());
            let ext = file_name.substring_char(k + 1, c.len());
            if crate::text::str_eq(ext, "yml") {
                Some(String::from_str(file_name.substring_char(0, k)))
            } else {
                None
            }
        },
        None => None,
    }
}

/// Validates a workflow against the agent files listed in `.agents/agent/`
/// (their names, as `agent_names` reads them) and the environment probe:
/// the check that `load_workflow` makes once the files are read.
pub fn validate_with_agent_files<F: Fn(&str) -> bool>(
    w: &Workflow,
    agent_file_names: &Vec<String>,
    env_present: F,
) -> (r: Result<(), String>)
    requires
        forall|x: &str| call_requires(env_present, (x,)),
    ensures
        exists|known: Seq<&str>|
            {
                &&& known.map_values(|k: &str| k@) == agent_names_of(views(agent_file_names@))
                &&& validate_result(*w, known, env_present, r)
            },
{
    let names = agent_names(agent_file_names);
    let mut refs: Vec<&str> = Vec::new();
    let mut i: usize = 0;
    while i < names.len()
        invariant
            i <= names.len(),
            refs@.len() == i,
            forall|j: int| 0 <= j < i ==> (#[trigger] refs@[j])@ == names@[j]@,
        decreases names.len() - i,
    {
        refs.push(names[i].as_str());
        i += 1;
    }
    let r = w.validate(refs.as_slice(), env_present);
    proof {
        assert(refs@.map_values(|k: &str| k@) =~= views(names@));
    }
    r
}

/// What `validate` returns, as its contract states it.
pub open spec fn validate_result<F: Fn(&str) -> bool>(
    w: Workflow,
    known: Seq<&str>,
    env_present: F,
    r: Result<(), String>,
) -> bool {
    match structure_error(w, known) {
        Some(m) => r matches Err(e) && e@ == m,
        None => {
            let email = w.sync.jira.auth_env.email@;
            let token = w.sync.jira.auth_env.token@;
            match r {
                Ok(()) => env_answer(env_present, email, true) && env_answer(env_present, token, true),
                Err(e) => (env_answer(env_present, email, false) && e@ == env_error(email)) || (
                env_answer(env_present, email, true) && env_answer(env_present, token, false) && e@
                    == env_error(token)),
            }
        },
    }
}

proof fn lemma_count_initial(cols: Seq<Column>)
    ensures
        count_initial(cols) == 0 ==> forall|k: int| 0 <= k < cols.len() ==> !is_initial(
            #[trigger] cols[k],
        ),
        count_initial(cols) == 1 ==> exists|i: int|
            0 <= i < cols.len() && is_initial(cols[i]) && forall|k: int|
                0 <= k < cols.len() && k != i ==> !is_initial(#[trigger] cols[k]),
    decreases cols.len(),
{
    if cols.len() > 0 {
        let prev = cols.drop_last();
        lemma_count_initial(prev);
        let n = cols.len() - 1;
        if count_initial(cols) == 1 {
            if is_initial(cols.last()) {
                assert(0 <= n < cols.len() && is_initial(cols[n]));
                assert forall|k: int| 0 <= k < cols.len() && k != n implies !is_initial(
                    #[trigger] cols[k],
                ) by {
                    assert(cols[k] == prev[k]);
                }
            } else {
                let i = choose|i: int|
                    0 <= i < prev.len() && is_initial(prev[i]) && forall|k: int|
                        0 <= k < prev.len() && k != i ==> !is_initial(#[trigger] prev[k]);
                assert(cols[i] == prev[i]);
                assert forall|k: int| 0 <= k < cols.len() && k != i implies !is_initial(
                    #[trigger] cols[k],
                ) by {
                    if k < n {
                        assert(cols[k] == prev[k]);
                    }
                }
            }
        }
        if count_initial(cols) == 0 {
            assert forall|k: int| 0 <= k < cols.len() implies !is_initial(#[trigger] cols[k]) by {
                if k < n {
                    assert(cols[k] == prev[k]);
                }
            }
        }
    }
}

proof fn lemma_no_column_error(cols: Seq<Column>, i: int, known: Seq<&str>)
    requires
        0 <= i,
        columns_error_from(cols, i, known) is None,
    ensures
        forall|k: int| i <= k < cols.len() ==> column_error(#[trigger] cols[k], cols, known) is None,
    decreases cols.len() - i,
{
    if i < cols.len() {
        lemma_no_column_error(cols, i + 1, known);
    }
}

/// A workflow that passes validation is well formed: its version is 1, one
/// column is initial and one is terminal, every column that is not terminal
/// has a `next` that names a column of the workflow, every agent is among
/// the known ones, and the probe found both credential variables.
pub proof fn law_valid_workflow_is_well_formed<F: Fn(&str) -> bool>(
    w: Workflow,
    known: Seq<&str>,
    env_present: F,
)
    requires
        validate_result(w, known, env_present, Ok(())),
    ensures
        w.version == 1,
        exists|j: int| 0 <= j < w.columns@.len() && is_terminal(#[trigger] w.columns@[j]),
        forall|k: int|
            0 <= k < w.columns@.len() && !is_terminal(#[trigger] w.columns@[k]) ==> (
            w.columns@[k].next matches Some(n) && exists|j: int|
                0 <= j < w.columns@.len() && (#[trigger] w.columns@[j]).name@ == n@),
        forall|k: int|
            0 <= k < w.columns@.len() && (#[trigger] w.columns@[k]).agent is Some ==> exists|j: int|
                0 <= j < known.len() && (#[trigger] known[j])@ == w.columns@[k].agent->0@,
        env_answer(env_present, w.sync.jira.auth_env.email@, true),
        env_answer(env_present, w.sync.jira.auth_env.token@, true),
{
    lemma_no_column_error(w.columns@, 0, known);
    assert forall|k: int|
        0 <= k < w.columns@.len() && !is_terminal(#[trigger] w.columns@[k]) implies (
        w.columns@[k].next matches Some(n) && exists|j: int|
            0 <= j < w.columns@.len() && (#[trigger] w.columns@[j]).name@ == n@) by {
        assert(column_error(w.columns@[k], w.columns@, known) is None);
    }
    assert forall|k: int|
        0 <= k < w.columns@.len() && (#[trigger] w.columns@[k]).agent is Some implies exists|j: int|
            0 <= j < known.len() && (#[trigger] known[j])@ == w.columns@[k].agent->0@ by {
        assert(column_error(w.columns@[k], w.columns@, known) is None);
    }
}

proof fn lemma_columns_error_none(cols: Seq<Column>, i: int, known: Seq<&str>)
    requires
        0 <= i,
        forall|k: int| i <= k < cols.len() ==> column_error(#[trigger] cols[k], cols, known) is None,
    ensures
        columns_error_from(cols, i, known) is None,
    decreases cols.len() - i,
{
    if i < cols.len() {
        assert(column_error(cols[i], cols, known) is None);
        lemma_columns_error_none(cols, i + 1, known);
    }
}

/// A well-formed workflow passes validation when the probe reports both
/// credential variables present: version 1, exactly one initial column, a
/// terminal one, every non-terminal column's `next` naming a column, and
/// every agent known.
pub proof fn law_well_formed_workflow_passes<F: Fn(&str) -> bool>(
    w: Workflow,
    known: Seq<&str>,
    env_present: F,
    r: Result<(), String>,
)
    requires
        validate_result(w, known, env_present, r),
        w.version == 1,
        count_initial(w.columns@) == 1,
        exists|j: int| 0 <= j < w.columns@.len() && is_terminal(#[trigger] w.columns@[j]),
        forall|k: int|
            0 <= k < w.columns@.len() && !is_terminal(#[trigger] w.columns@[k]) ==> (
            w.columns@[k].next matches Some(n) && exists|j: int|
                0 <= j < w.columns@.len() && (#[trigger] w.columns@[j]).name@ == n@),
        forall|k: int|
            0 <= k < w.columns@.len() && (#[trigger] w.columns@[k]).agent is Some ==> exists|j: int|
                0 <= j < known.len() && (#[trigger] known[j])@ == w.columns@[k].agent->0@,
        forall|x: &str, b: bool|
            x@ == w.sync.jira.auth_env.email@ && #[trigger] call_ensures(env_present, (x,), b) ==> b,
        forall|x: &str, b: bool|
            x@ == w.sync.jira.auth_env.token@ && #[trigger] call_ensures(env_present, (x,), b) ==> b,
    ensures
        r is Ok,
{
    let cols = w.columns@;
    assert forall|k: int| 0 <= k < cols.len() implies column_error(#[trigger] cols[k], cols, known)
        is None by {
        let c = cols[k];
        if !is_terminal(c) {
            assert(c.next is Some);
            let n = c.next->0;
            let j = choose|j: int| 0 <= j < cols.len() && (#[trigger] cols[j]).name@ == n@;
            assert(has_column_named(cols, n@));
        }
        if c.agent is Some {
            let j = choose|j: int| 0 <= j < known.len() && (#[trigger] known[j])@ == c.agent->0@;
            assert(knows_agent(known, c.agent->0@));
        }
    }
    lemma_columns_error_none(cols, 0, known);
    assert(structure_error(w, known) is None);
}

/// A workflow that passes validation has exactly one initial column, and
/// `initial_column` finds that column: the one new cards start in.
pub proof fn law_valid_workflow_initial_column<F: Fn(&str) -> bool>(
    w: Workflow,
    known: Seq<&str>,
    env_present: F,
)
    requires
        validate_result(w, known, env_present, Ok(())),
    ensures
        first_index(w.columns@, |c: Column| is_initial(c)) matches Some(i) && is_initial(
            w.columns@[i],
        ) && forall|k: int|
            0 <= k < w.columns@.len() && k != i ==> !is_initial(#[trigger] w.columns@[k]),
{
    let cols = w.columns@;
    let pred = |c: Column| is_initial(c);
    assert(count_initial(cols) == 1);
    lemma_count_initial(cols);
    let i = choose|i: int|
        0 <= i < cols.len() && is_initial(cols[i]) && forall|k: int|
            0 <= k < cols.len() && k != i ==> !is_initial(#[trigger] cols[k]);
    assert forall|k: int| 0 <= k < i implies !pred(#[trigger] cols[k]) by {}
    lemma_first_index_from_char(cols, pred, 0, i);
}

impl Workflow {
    /// Checks the workflow's rules: its shape against the known agent names,
    /// then that both credential variables are present according to
    /// `env_present`. The error is the message for the first rule broken.
    pub fn validate<F: Fn(&str) -> bool>(&self, known_agents: &[&str], env_present: F) -> (r:
        Result<(), String>)
        requires
            forall|x: &str| call_requires(env_present, (x,)),
        ensures
            validate_result(*self, known_agents@, env_present, r),
    {
        if self.version != 1 {
            let mut m = String::from_str("unsupported version ");
            append_decimal(&mut m, self.version as u128);
            return Err(m);
        }
        if count_initial_exec(&self.columns) != 1 {
            return Err(String::from_str("exactly one column must have initial: true"));
        }
        let mut any_terminal = false;
        let mut i: usize = 0;
        while i < self.columns.len()
            invariant
                i <= self.columns.len(),
                any_terminal == exists|j: int| 0 <= j < i && is_terminal(#[trigger] self.columns@[j]),
            decreases self.columns.len() - i,
        {
            if self.columns[i].terminal == Some(true) {
                any_terminal = true;
            }
            i += 1;
        }
        if !any_terminal {
            return Err(String::from_str("at least one terminal column required"));
        }
        assert(structure_error(*self, known_agents@) == columns_error_from(self.columns@, 0, known_agents@));
        let mut i: usize = 0;
        while i < self.columns.len()
            invariant
                i <= self.columns.len(),
                structure_error(*self, known_agents@) == columns_error_from(self.columns@, 0, known_agents@),
                columns_error_from(self.columns@, 0, known_agents@) == columns_error_from(
                    self.columns@,
                    i as int,
                    known_agents@,
                ),
            decreases self.columns.len() - i,
        {
            if let Some(m) = column_error_exec(&self.columns[i], &self.columns, known_agents) {
                assert(columns_error_from(self.columns@, i as int, known_agents@) == Some(m@));
                return Err(m);
            }
            i += 1;
        }
        let email = self.sync.jira.auth_env.email.as_str();
        if !env_present(email) {
            return Err(String::from_str("env var ").concat(email).concat(" not set"));
        }
        let token = self.sync.jira.auth_env.token.as_str();
        if !env_present(token) {
            return Err(String::from_str("env var ").concat(token).concat(" not set"));
        }
        Ok(())
    }

    /// The column marked initial (the first, if several are).
    pub fn initial_column(&self) -> (r: Option<&Column>)
        ensures
            match first_index(self.columns@, |c: Column| is_initial(c)) {
                Some(i) => r matches Some(c) && *c == self.columns@[i],
                None => r is None,
            },
    {
        let mut i: usize = 0;
        while i < self.columns.len()
            invariant
                i <= self.columns.len(),
                first_index(self.columns@, |c: Column| is_initial(c)) == first_index_from(
                    self.columns@,
                    |c: Column| is_initial(c),
                    i as int,
                ),
            decreases self.columns.len() - i,
        {
            if self.columns[i].initial == Some(true) {
                return Some(&self.columns[i]);
            }
            i += 1;
        }
        None
    }

    /// The column called `name` (the first, if several are).
    pub fn column(&self, name: &str) -> (r: Option<&Column>)
        ensures
            match first_index(self.columns@, |c: Column| c.name@ == name@) {
                Some(i) => r matches Some(c) && *c == self.columns@[i],
                None => r is None,
            },
    {
        let mut i: usize = 0;
        while i < self.columns.len()
            invariant
                i <= self.columns.len(),
                first_index(self.columns@, |c: Column| c.name@ == name@) == first_index_from(
                    self.columns@,
                    |c: Column| c.name@ == name@,
                    i as int,
                ),
            decreases self.columns.len() - i,
        {
            if crate::text::str_eq(self.columns[i].name.as_str(), name) {
                return Some(&self.columns[i]);
            }
            i += 1;
        }
        None
    }
}

} // verus!
