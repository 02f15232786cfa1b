//! Whether a project's repositories hold workflows that the orchestrator can
//! load.
use vstd::prelude::*;
use crate::text::{chars_of, contains, contains_exec};
use vstd::multiset::Multiset;

verus! {

broadcast use vstd::seq_lib::group_to_multiset_ensures;

/// The readiness of a project, over all its repositories.
#[derive(Debug, Clone, Copy, PartialEq, Eq, Structural)]
pub enum ProjectWorkflowState {
    Ready,
    NotConfigured,
    Invalid,
}

/// The readiness of one repository.
#[derive(Debug, Clone, Copy, PartialEq, Eq, Structural)]
pub enum RepoWorkflowState {
    Ready,
    NotConfigured,
    Invalid,
}

/// The state of one workflow file.
#[derive(Debug, Clone, Copy, PartialEq, Eq, Structural)]
pub enum WorkflowEntryState {
    Valid,
    InvalidYaml,
    MissingAgentFile,
}

/// One workflow file of a repository and whether it loads.
#[derive(Debug, Clone)]
pub struct WorkflowEntry {
    pub name: String,
    pub state: WorkflowEntryState,
    pub error: Option<String>,
}

/// The readiness of one repository, with its workflow files.
#[derive(Debug, Clone)]
pub struct RepoWorkflowStatus {
    pub repo_id: u128,
    pub repo_name: String,
    pub workflows_dir: String,
    pub state: RepoWorkflowState,
    pub workflows: Vec<WorkflowEntry>,
    pub error: Option<String>,
}

/// The state that a load error's message stands for: a missing agent file
/// where the message mentions one, invalid YAML otherwise.
pub open spec fn classify(msg: Seq<char>) -> WorkflowEntryState {
    if contains(msg, "agent file"@) {
        WorkflowEntryState::MissingAgentFile
    } else {
        WorkflowEntryState::InvalidYaml
    }
}

/// The state that a workflow load error's message stands for.
pub fn classify_error(msg: &str) -> (r: WorkflowEntryState)
    ensures
        r == classify(msg@),
{
    let m = chars_of(msg);
    let p = chars_of("agent file");
    if contains_exec(&m, &p) {
        WorkflowEntryState::MissingAgentFile
    } else {
        WorkflowEntryState::InvalidYaml
    }
}

/// The entry for a workflow file, given how loading it went.
pub fn entry_for(name: String, load: Result<(), String>) -> (e: WorkflowEntry)
    ensures
        e.name == name,
        match load {
            Ok(()) => e.state == WorkflowEntryState::Valid && e.error is None,
            Err(m) => e.state == classify(m@) && e.error == Some(m),
        },
{
    match load {
        Ok(()) => WorkflowEntry { name, state: WorkflowEntryState::Valid, error: None },
        Err(m) => {
            let state = classify_error(m.as_str());
            WorkflowEntry { name, state, error: Some(m) }
        },
    }
}

/// The readiness of a project: invalid if any repository is, else ready if
/// any repository is, else not configured.
pub open spec fn aggregate(repos: Seq<RepoWorkflowStatus>) -> ProjectWorkflowState {
    if exists|i: int| 0 <= i < repos.len() && (#[trigger] repos[i]).state == RepoWorkflowState::Invalid {
        ProjectWorkflowState::Invalid
    } else if exists|i: int| 0 <= i < repos.len() && (#[trigger] repos[i]).state
        == RepoWorkflowState::Ready {
        ProjectWorkflowState::Ready
    } else {
        ProjectWorkflowState::NotConfigured
    }
}

/// An invalid repository makes the whole project invalid; otherwise one
/// ready repository makes it ready; otherwise it is not configured.
pub proof fn law_project_readiness(repos: Seq<RepoWorkflowStatus>, i: int)
    requires
        0 <= i < repos.len(),
    ensures
        repos[i].state == RepoWorkflowState::Invalid ==> aggregate(repos)
            == ProjectWorkflowState::Invalid,
        repos[i].state == RepoWorkflowState::Ready && aggregate(repos)
            != ProjectWorkflowState::Invalid ==> aggregate(repos) == ProjectWorkflowState::Ready,
        aggregate(repos) == ProjectWorkflowState::Invalid ==> exists|j: int|
            0 <= j < repos.len() && (#[trigger] repos[j]).state == RepoWorkflowState::Invalid,
        aggregate(repos) == ProjectWorkflowState::Ready ==> exists|j: int|
            0 <= j < repos.len() && (#[trigger] repos[j]).state == RepoWorkflowState::Ready,
{
    assert(repos[i] == repos[i]);
}

/// A project without repositories is not configured.
pub proof fn law_no_repos_not_configured()
    ensures
        aggregate(Seq::<RepoWorkflowStatus>::empty()) == ProjectWorkflowState::NotConfigured,
{
}

/// The readiness of a project from that of its repositories.
pub fn aggregate_project_state(repos: &[RepoWorkflowStatus]) -> (r: ProjectWorkflowState)
    ensures
        r == aggregate(repos@),
{
    let mut any_ready = false;
    let mut i: usize = 0;
    while i < repos.len()
        invariant
            i <= repos@.len(),
            forall|k: int| 0 <= k < i ==> (#[trigger] repos@[k]).state != RepoWorkflowState::Invalid,
            any_ready == exists|k: int| 0 <= k < i && (#[trigger] repos@[k]).state == RepoWorkflowState::Ready,
        decreases repos@.len() - i,
    {
        if repos[i].state == RepoWorkflowState::Invalid {
            return ProjectWorkflowState::Invalid;
        }
        if repos[i].state == RepoWorkflowState::Ready {
            any_ready = true;
        }
        i += 1;
    }
    if any_ready {
        ProjectWorkflowState::Ready
    } else {
        ProjectWorkflowState::NotConfigured
    }
}

/// What a look at a repository found.
#[derive(Debug)]
pub enum RepoScan {
    /// The repository's path is missing or not a directory.
    Inaccessible,
    /// The repository has no `.agents/kanban-workflows/` directory.
    NoWorkflowsDir,
    /// The workflows directory could not be read; the message says why.
    ScanFailed(String),
    /// The entries for the workflow files found.
    Scanned(Vec<WorkflowEntry>),
}

/// The readiness of a repository whose workflow files have these entries:
/// not configured without any, ready when all load, invalid otherwise.
pub open spec fn entries_state(entries: Seq<WorkflowEntry>) -> RepoWorkflowState {
    if entries.len() == 0 {
        RepoWorkflowState::NotConfigured
    } else if forall|i: int| 0 <= i < entries.len() ==> (#[trigger] entries[i]).state
        == WorkflowEntryState::Valid {
        RepoWorkflowState::Ready
    } else {
        RepoWorkflowState::Invalid
    }
}

/// A repository without workflow files is not configured; one whose files
/// all load is ready; one with a file that does not load is invalid.
pub proof fn law_repo_readiness(entries: Seq<WorkflowEntry>, i: int)
    ensures
        entries.len() == 0 ==> entries_state(entries) == RepoWorkflowState::NotConfigured,
        0 <= i < entries.len() && entries[i].state != WorkflowEntryState::Valid ==> entries_state(
            entries,
        ) == RepoWorkflowState::Invalid,
        entries_state(entries) == RepoWorkflowState::Ready ==> entries.len() > 0 && forall|k: int|
            0 <= k < entries.len() ==> (#[trigger] entries[k]).state == WorkflowEntryState::Valid,
        entries.len() > 0 && (forall|k: int|
            0 <= k < entries.len() ==> (#[trigger] entries[k]).state == WorkflowEntryState::Valid)
            ==> entries_state(entries) == RepoWorkflowState::Ready,
{
}

/// The status of a repository from what a look at it found. `repo_path` is
/// the repository's path as displayed, for the message about an
/// inaccessible one.
pub fn repo_status(
    repo_id: u128,
    repo_name: String,
    workflows_dir: String,
    repo_path: &str,
    scan: RepoScan,
) -> (r: RepoWorkflowStatus)
    ensures
        r.repo_id == repo_id,
        r.repo_name == repo_name,
        r.workflows_dir == workflows_dir,
        match scan {
            RepoScan::Inaccessible => r.state == RepoWorkflowState::Invalid && r.workflows@.len()
                == 0 && (r.error matches Some(m) && m@ == "repo path inaccessible: "@ + repo_path@),
            RepoScan::NoWorkflowsDir => r.state == RepoWorkflowState::NotConfigured
                && r.workflows@.len() == 0 && r.error is None,
            RepoScan::ScanFailed(m) => r.state == RepoWorkflowState::Invalid && r.workflows@.len()
                == 0 && r.error == Some(m),
            RepoScan::Scanned(entries) => r.state == entries_state(entries@) && r.workflows
                == entries && r.error is None,
        },
{
    match scan {
        RepoScan::Inaccessible => RepoWorkflowStatus {
            repo_id,
            repo_name,
            workflows_dir,
            state: RepoWorkflowState::Invalid,
            workflows: Vec::new(),
            error: Some(String::from_str("repo path inaccessible: ").concat(repo_path)),
        },
        RepoScan::NoWorkflowsDir => RepoWorkflowStatus {
            repo_id,
            repo_name,
            workflows_dir,
            state: RepoWorkflowState::NotConfigured,
            workflows: Vec::new(),
            error: None,
        },
        RepoScan::ScanFailed(m) => RepoWorkflowStatus {
            repo_id,
            repo_name,
            workflows_dir,
            state: RepoWorkflowState::Invalid,
            workflows: Vec::new(),
            error: Some(m),
        },
        RepoScan::Scanned(entries) => {
            let mut all_ok = true;
            let mut i: usize = 0;
            while i < entries.len()
                invariant
                    i <= entries@.len(),
                    all_ok == forall|k: int| 0 <= k < i ==> (#[trigger] entries@[k]).state
                        == WorkflowEntryState::Valid,
                decreases entries@.len() - i,
            {
                if entries[i].state != WorkflowEntryState::Valid {
                    all_ok = false;
                }
                i += 1;
            }
            let state = if entries.len() == 0 {
                RepoWorkflowState::NotConfigured
            } else if all_ok {
                RepoWorkflowState::Ready
            } else {
                RepoWorkflowState::Invalid
            };
            RepoWorkflowStatus { repo_id, repo_name, workflows_dir, state, workflows: entries, error: None }
        },
    }
}

/// `a` sorts no later than `b`: character by character, a prefix first
/// (the order of `String`'s `Ord`, which compares UTF-8 bytes and so code
/// points).
pub open spec fn lex_le(a: Seq<char>, b: Seq<char>) -> bool
    decreases a.len(),
{
    if a.len() == 0 {
        true
    } else if b.len() == 0 {
        false
    } else if a[0] < b[0] {
        true
    } else if a[0] > b[0] {
        false
    } else {
        lex_le(a.drop_first(), b.drop_first())
    }
}

proof fn lemma_lex_total(a: Seq<char>, b: Seq<char>)
    ensures
        lex_le(a, b) || lex_le(b, a),
    decreases a.len(),
{
    if a.len() > 0 && b.len() > 0 && a[0] == b[0] {
        lemma_lex_total(a.drop_first(), b.drop_first());
    }
}

proof fn lemma_lex_refl(a: Seq<char>)
    ensures
        lex_le(a, a),
    decreases a.len(),
{
    if a.len() > 0 {
        lemma_lex_refl(a.drop_first());
    }
}

proof fn lemma_lex_trans(a: Seq<char>, b: Seq<char>, c: Seq<char>)
    requires
        lex_le(a, b),
        lex_le(b, c),
    ensures
        lex_le(a, c),
    decreases a.len(),
{
    if a.len() > 0 && b.len() > 0 && c.len() > 0 && a[0] == b[0] && b[0] == c[0] {
        lemma_lex_trans(a.drop_first(), b.drop_first(), c.drop_first());
    }
}

fn lex_le_exec(a: &Vec<char>, b: &Vec<char>) -> (r: bool)
    ensures
        r == lex_le(a@, b@),
{
    let mut i: usize = 0;
    proof {
        assert(a@.skip(0) =~= a@);
        assert(b@.skip(0) =~= b@);
    }
    while i < a.len() && i < b.len()
        invariant
            i <= a@.len(),
            i <= b@.len(),
            lex_le(a@, b@) == lex_le(a@.skip(i as int), b@.skip(i as int)),
        decreases a@.len() - i,
    {
        let x = a[i];
        let y = b[i];
        proof {
            assert(a@.skip(i as int)[0] == x);
            assert(b@.skip(i as int)[0] == y);
            assert(a@.skip(i as int).drop_first() =~= a@.skip(i + 1));
            assert(b@.skip(i as int).drop_first() =~= b@.skip(i + 1));
        }
        if x < y {
            return true;
        }
        if x > y {
            return false;
        }
        i += 1;
    }
    proof {
        if i == a@.len() {
            assert(a@.skip(i as int).len() == 0);
        } else {
            assert(b@.skip(i as int).len() == 0);
        }
    }
    i == a.len()
}

/// The entries are in order of their names.
pub open spec fn sorted_by_name(s: Seq<WorkflowEntry>) -> bool {
    forall|i: int, j: int| 0 <= i < j < s.len() ==> lex_le(
        (#[trigger] s[i]).name@,
        (#[trigger] s[j]).name@,
    )
}

/// Sorts entries by name.
pub fn sort_entries(entries: Vec<WorkflowEntry>) -> (r: Vec<WorkflowEntry>)
    ensures
        r@.to_multiset() == entries@.to_multiset(),
        sorted_by_name(r@),
{
    let mut input = entries;
    let ghost orig = input@;
    let mut out: Vec<WorkflowEntry> = Vec::new();
    while input.len() > 0
        invariant
            out@.to_multiset().add(input@.to_multiset()) == orig.to_multiset(),
            sorted_by_name(out@),
        decreases input@.len(),
    {
        let ghost before_in = input@;
        let e = input.remove(0);
        proof {
            assert(before_in =~= seq![e] + input@);
            vstd::seq_lib::lemma_multiset_commutative(seq![e], input@);
            assert(seq![e].to_multiset() =~= Multiset::empty().insert(e));
        }
        let key = chars_of(e.name.as_str());
        let mut pos: usize = 0;
        let mut found = false;
        while pos < out.len() && !found
            invariant
                pos <= out@.len(),
                key@ == e.name@,
                found ==> pos < out@.len() && !lex_le(out@[pos as int].name@, e.name@),
                forall|k: int| 0 <= k < pos ==> lex_le((#[trigger] out@[k]).name@, e.name@),
            decreases out@.len() - pos, if found { 0int } else { 1int },
        {
            let other = chars_of(out[pos].name.as_str());
            if !lex_le_exec(&other, &key) {
                found = true;
            } else {
                pos += 1;
            }
        }
        proof {
            if pos < out@.len() {
                assert(!lex_le(out@[pos as int].name@, e.name@));
                lemma_lex_total(out@[pos as int].name@, e.name@);
            }
        }
        let ghost before_out = out@;
        out.insert(pos, e);
        proof {
            assert forall|i: int, j: int| 0 <= i < j < out@.len() implies lex_le(
                (#[trigger] out@[i]).name@,
                (#[trigger] out@[j]).name@,
            ) by {
                if i < pos && j == pos {
                } else if i < pos && j > pos {
                    assert(out@[j] == before_out[j - 1]);
                } else if i == pos && j > pos {
                    assert(out@[j] == before_out[j - 1]);
                    if j - 1 > pos {
                        assert(lex_le(before_out[pos as int].name@, before_out[j - 1].name@));
                    } else {
                        lemma_lex_refl(before_out[pos as int].name@);
                    }
                    lemma_lex_trans(e.name@, before_out[pos as int].name@, before_out[j - 1].name@);
                } else if i > pos {
                    assert(out@[i] == before_out[i - 1]);
                    assert(out@[j] == before_out[j - 1]);
                } else {
                    assert(out@[i] == before_out[i]);
                    assert(out@[j] == before_out[j]);
                }
            }
        }
    }
    proof {
        assert(input@.to_multiset() =~= Multiset::empty());
    }
    out
}

} // verus!
