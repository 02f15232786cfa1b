//! The concurrency gate: how many phases may run at once, overall and per
//! column.
use vstd::prelude::*;
use crate::text::{first_index, first_index_from, lemma_first_index_from, str_eq};

verus! {

/// Counts of running phases, capped overall and per column.
pub struct Gate {
    global: usize,
    per_col: Vec<(String, usize)>,
    max_global: usize,
    max_per_column: usize,
}

/// A claim on one slot of a gate, for one column; `Gate::release` gives it
/// back.
pub struct Permit {
    column: String,
}

impl Permit {
    /// The column this permit was granted for.
    pub closed spec fn column(&self) -> Seq<char> {
        self.column@
    }

    /// The column this permit was granted for.
    pub fn column_name(&self) -> (r: &str)
        ensures
            r@ == self.column(),
    {
        self.column.as_str()
    }
}

/// An entry of the per-column counts is that of column `col`.
pub open spec fn for_column(col: Seq<char>) -> spec_fn((String, usize)) -> bool {
    |e: (String, usize)| e.0@ == col
}

/// The count recorded for `col` in a list of per-column counts.
pub open spec fn count_in(v: Seq<(String, usize)>, col: Seq<char>) -> nat {
    match first_index(v, for_column(col)) {
        Some(i) => v[i].1 as nat,
        None => 0,
    }
}

/// No column appears twice in a list of per-column counts.
pub open spec fn distinct_columns(v: Seq<(String, usize)>) -> bool {
    forall|i: int, j: int| 0 <= i < j < v.len() ==> (#[trigger] v[i]).0@ != (#[trigger] v[j]).0@
}

proof fn lemma_count_in_distinct(v: Seq<(String, usize)>, i: int)
    requires
        distinct_columns(v),
        0 <= i < v.len(),
    ensures
        count_in(v, v[i].0@) == v[i].1,
{
    let col = v[i].0@;
    let pred = for_column(col);
    lemma_first_index_from(v, pred, 0);
}

proof fn lemma_count_in_absent(v: Seq<(String, usize)>, col: Seq<char>)
    requires
        forall|k: int| 0 <= k < v.len() ==> (#[trigger] v[k]).0@ != col,
    ensures
        count_in(v, col) == 0,
{
    let pred = for_column(col);
    lemma_first_index_from(v, pred, 0);
}

impl Gate {
    #[verifier::type_invariant]
    spec fn inv(self) -> bool {
        &&& self.global <= self.max_global
        &&& distinct_columns(self.per_col@)
        &&& forall|k: int| 0 <= k < self.per_col@.len() ==> (#[trigger] self.per_col@[k]).1
            <= self.max_per_column
    }

    /// Phases running now, over all columns.
    pub closed spec fn active(&self) -> nat {
        self.global as nat
    }

    /// Phases running now in column `col`.
    pub closed spec fn active_in(&self, col: Seq<char>) -> nat {
        count_in(self.per_col@, col)
    }

    /// The overall cap.
    pub closed spec fn max_global(&self) -> nat {
        self.max_global as nat
    }

    /// The per-column cap.
    pub closed spec fn max_per_column(&self) -> nat {
        self.max_per_column as nat
    }

    /// A gate with nothing running.
    pub fn new(max_global: usize, max_per_column: usize) -> (g: Gate)
        ensures
            g.active() == 0,
            forall|c: Seq<char>| g.active_in(c) == 0,
            g.max_global() == max_global,
            g.max_per_column() == max_per_column,
    {
        let g = Gate { global: 0, per_col: Vec::new(), max_global, max_per_column };
        proof {
            assert forall|c: Seq<char>| g.active_in(c) == 0 by {
                lemma_count_in_absent(g.per_col@, c);
            }
        }
        g
    }

    /// What is running now is within the caps.
    pub fn within_caps(&self)
        ensures
            self.active() <= self.max_global(),
            forall|c: Seq<char>| self.active_in(c) <= self.max_per_column(),
    {
        proof {
            use_type_invariant(self);
            assert forall|c: Seq<char>| self.active_in(c) <= self.max_per_column() by {
                let pred = for_column(c);
                lemma_first_index_from(self.per_col@, pred, 0);
            }
        }
    }

    fn position_of(&self, column: &str) -> (r: Option<usize>)
        ensures
            match r {
                Some(i) => i < self.per_col@.len() && self.per_col@[i as int].0@ == column@,
                None => forall|k: int|
                    0 <= k < self.per_col@.len() ==> (#[trigger] self.per_col@[k]).0@ != column@,
            },
    {
        let mut i: usize = 0;
        while i < self.per_col.len()
            invariant
                i <= self.per_col@.len(),
                forall|k: int| 0 <= k < i ==> (#[trigger] self.per_col@[k]).0@ != column@,
            decreases self.per_col@.len() - i,
        {
            if str_eq(self.per_col[i].0.as_str(), column) {
                return Some(i);
            }
            i += 1;
        }
        None
    }

    /// Takes a slot for a phase in `column`, if both caps allow it: nothing
    /// changes when either is reached; otherwise the overall count and the
    /// column's count each go up by one.
    pub fn try_acquire(&mut self, column: &str) -> (r: Option<Permit>)
        ensures
            acquire_step(*old(self), column@, r is Some, *final(self)),
            r matches Some(p) ==> p.column() == column@,
    {
        proof {
            use_type_invariant(&*self);
        }
        if self.global >= self.max_global {
            return None;
        }
        let pos = self.position_of(column);
        let cur: usize = match pos {
            Some(i) => self.per_col[i].1,
            None => 0,
        };
        proof {
            match pos {
                Some(i) => lemma_count_in_distinct(self.per_col@, i as int),
                None => lemma_count_in_absent(self.per_col@, column@),
            }
        }
        if cur >= self.max_per_column {
            return None;
        }
        let ghost pre = *self;
        let mut v: Vec<(String, usize)> = Vec::new();
        let mut k: usize = 0;
        while k < self.per_col.len()
            invariant
                k <= self.per_col@.len(),
                v@.len() == k,
                *self == pre,
                cur < self.max_per_column,
                forall|j: int| 0 <= j < k ==> (#[trigger] v@[j]).0 == self.per_col@[j].0,
                forall|j: int|
                    0 <= j < k ==> (#[trigger] v@[j]).1 == if pos == Some(j as usize) {
                        (cur + 1) as usize
                    } else {
                        self.per_col@[j].1
                    },
            decreases self.per_col@.len() - k,
        {
            let name = self.per_col[k].0.clone();
            let n = if pos == Some(k) {
                cur + 1
            } else {
                self.per_col[k].1
            };
            v.push((name, n));
            k += 1;
        }
        if pos.is_none() {
            v.push((String::from_str(column), cur + 1));
        }
        proof {
            assert forall|i: int, j: int| 0 <= i < j < v@.len() implies (#[trigger] v@[i]).0@
                != (#[trigger] v@[j]).0@ by {
                if j < self.per_col@.len() {
                    assert(self.per_col@[i].0@ != self.per_col@[j].0@);
                }
            }
            assert forall|c: Seq<char>| c != column@ implies count_in(v@, c) == count_in(
                self.per_col@,
                c,
            ) by {
                let pred = for_column(c);
                lemma_first_index_from(v@, pred, 0);
                lemma_first_index_from(self.per_col@, pred, 0);
                match first_index(self.per_col@, pred) {
                    Some(i) => {
                        assert(pred(v@[i]));
                        if first_index(v@, pred) != Some(i) {
                            let j = first_index(v@, pred)->0;
                            assert(j < i);
                            assert(pred(self.per_col@[j]));
                        }
                    },
                    None => {
                        if first_index(v@, pred) is Some {
                            let j = first_index(v@, pred)->0;
                            if j < self.per_col@.len() {
                                assert(pred(self.per_col@[j]));
                            }
                        }
                    },
                }
            }
            match pos {
                Some(i) => {
                    lemma_count_in_distinct(v@, i as int);
                },
                None => {
                    lemma_count_in_distinct(v@, v@.len() - 1);
                },
            }
        }
        self.global = self.global + 1;
        self.per_col = v;
        Some(Permit { column: String::from_str(column) })
    }

    /// Gives back the slot that `permit` holds: the overall count and its
    /// column's count each go down by one, not below zero.
    pub fn release(&mut self, permit: Permit)
        ensures
            release_step(*old(self), permit.column(), *final(self)),
    {
        proof {
            use_type_invariant(&*self);
        }
        let column = permit.column.as_str();
        let pos = self.position_of(column);
        proof {
            match pos {
                Some(i) => lemma_count_in_distinct(self.per_col@, i as int),
                None => lemma_count_in_absent(self.per_col@, column@),
            }
        }
        let ghost pre = *self;
        let mut v: Vec<(String, usize)> = Vec::new();
        let mut k: usize = 0;
        while k < self.per_col.len()
            invariant
                k <= self.per_col@.len(),
                v@.len() == k,
                *self == pre,
                forall|j: int| 0 <= j < k ==> (#[trigger] v@[j]).0 == self.per_col@[j].0,
                forall|j: int|
                    0 <= j < k ==> (#[trigger] v@[j]).1 == if pos == Some(j as usize) {
                        if self.per_col@[j].1 > 0 {
                            (self.per_col@[j].1 - 1) as usize
                        } else {
                            0
                        }
                    } else {
                        self.per_col@[j].1
                    },
            decreases self.per_col@.len() - k,
        {
            let name = self.per_col[k].0.clone();
            let cur = self.per_col[k].1;
            let n = if pos == Some(k) {
                if cur > 0 {
                    cur - 1
                } else {
                    0
                }
            } else {
                cur
            };
            v.push((name, n));
            k += 1;
        }
        proof {
            assert forall|i: int, j: int| 0 <= i < j < v@.len() implies (#[trigger] v@[i]).0@
                != (#[trigger] v@[j]).0@ by {
                assert(self.per_col@[i].0@ != self.per_col@[j].0@);
            }
            assert forall|c: Seq<char>| c != column@ implies count_in(v@, c) == count_in(
                self.per_col@,
                c,
            ) by {
                let pred = for_column(c);
                lemma_first_index_from(v@, pred, 0);
                lemma_first_index_from(self.per_col@, pred, 0);
                match first_index(self.per_col@, pred) {
                    Some(i) => {
                        assert(pred(v@[i]));
                        if first_index(v@, pred) != Some(i) {
                            let j = first_index(v@, pred)->0;
                            assert(pred(self.per_col@[j]));
                        }
                    },
                    None => {
                        if first_index(v@, pred) is Some {
                            let j = first_index(v@, pred)->0;
                            assert(pred(self.per_col@[j]));
                        }
                    },
                }
            }
            match pos {
                Some(i) => {
                    lemma_count_in_distinct(v@, i as int);
                },
                None => {
                    lemma_count_in_absent(v@, column@);
                },
            }
        }
        if self.global > 0 {
            self.global = self.global - 1;
        }
        self.per_col = v;
    }
}

/// `post` is what `try_acquire` of `col` makes of `pre`, granted or not.
pub open spec fn acquire_step(pre: Gate, col: Seq<char>, granted: bool, post: Gate) -> bool {
    &&& post.max_global() == pre.max_global()
    &&& post.max_per_column() == pre.max_per_column()
    &&& granted == (pre.active() < pre.max_global() && pre.active_in(col) < pre.max_per_column())
    &&& if granted {
        &&& post.active() == pre.active() + 1
        &&& post.active_in(col) == pre.active_in(col) + 1
        &&& forall|c: Seq<char>| c != col ==> post.active_in(c) == pre.active_in(c)
    } else {
        &&& post.active() == pre.active()
        &&& forall|c: Seq<char>| post.active_in(c) == pre.active_in(c)
    }
}

/// One less, not below zero.
pub open spec fn dec(n: nat) -> nat {
    if n > 0 {
        (n - 1) as nat
    } else {
        0
    }
}

/// `post` is what `release` of a permit for `col` makes of `pre`.
pub open spec fn release_step(pre: Gate, col: Seq<char>, post: Gate) -> bool {
    &&& post.max_global() == pre.max_global()
    &&& post.max_per_column() == pre.max_per_column()
    &&& post.active() == dec(pre.active())
    &&& post.active_in(col) == dec(pre.active_in(col))
    &&& forall|c: Seq<char>| c != col ==> post.active_in(c) == pre.active_in(c)
}

/// Releasing the permit that an acquisition granted gives back exactly what
/// it took: every count is as it was before.
pub proof fn law_release_undoes_acquire(g0: Gate, g1: Gate, g2: Gate, col: Seq<char>)
    requires
        acquire_step(g0, col, true, g1),
        release_step(g1, col, g2),
    ensures
        g2.active() == g0.active(),
        forall|c: Seq<char>| g2.active_in(c) == g0.active_in(c),
        g2.max_global() == g0.max_global(),
        g2.max_per_column() == g0.max_per_column(),
{
}

/// A refused request changes no count.
pub proof fn law_refusal_changes_nothing(g0: Gate, g1: Gate, col: Seq<char>)
    requires
        acquire_step(g0, col, false, g1),
    ensures
        g1.active() == g0.active(),
        forall|c: Seq<char>| g1.active_in(c) == g0.active_in(c),
{
}

/// A column that has reached its cap is refused, whatever the overall count.
pub proof fn law_full_column_refused(g0: Gate, g1: Gate, col: Seq<char>, granted: bool)
    requires
        acquire_step(g0, col, granted, g1),
        g0.active_in(col) >= g0.max_per_column(),
    ensures
        !granted,
{
}

} // verus!
