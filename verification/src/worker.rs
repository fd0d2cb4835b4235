//! A worker record, and spec-level counting of the workers that are still
//! running.
//!
//! A worker is a long-lived execution context identified by an integer id.
//! `running` is true from construction until the worker consumes a terminate
//! token; `handle` models the present-or-absent execution-context handle,
//! present from construction until the pool joins the worker.

use vstd::prelude::*;

verus! {

/// The pool's record of one worker.
#[derive(Clone, Copy, Debug, PartialEq, Eq, Structural)]
pub struct Worker {
    /// The worker's index in the pool, fixed at construction.
    pub id: usize,
    /// True until the worker consumes a terminate token and exits its loop.
    pub running: bool,
    /// True while the execution-context handle is present, i.e. until the
    /// pool takes the handle to join the worker.
    pub handle: bool,
}

impl Worker {
    /// A freshly constructed worker: running, handle present.
    pub fn new(id: usize) -> (w: Worker)
        ensures
            w.id == id,
            w.running,
            w.handle,
    {
        Worker { id, running: true, handle: true }
    }
}

/// How many workers in `s` are still running.
pub open spec fn running_count(s: Seq<Worker>) -> nat
    decreases s.len(),
{
    if s.len() == 0 {
        0
    } else {
        (if s[0].running {
            1nat
        } else {
            0nat
        }) + running_count(s.skip(1))
    }
}

/// Appending a worker raises the running count by one exactly when the
/// worker is running.
pub proof fn lemma_running_count_push(s: Seq<Worker>, w: Worker)
    ensures
        running_count(s.push(w)) == running_count(s) + (if w.running {
            1nat
        } else {
            0nat
        }),
    decreases s.len(),
{
    let s2 = s.push(w);
    if s.len() == 0 {
        assert(s2[0] == w);
        assert(s2.skip(1) =~= Seq::<Worker>::empty());
        assert(running_count(s2.skip(1)) == 0);
        assert(running_count(s) == 0);
    } else {
        assert(s2[0] == s[0]);
        assert(s2.skip(1) =~= s.skip(1).push(w));
        lemma_running_count_push(s.skip(1), w);
    }
}

/// Replacing the worker at `i` changes the running count by the difference
/// between the new and the old worker's running flag.
pub proof fn lemma_running_count_update(s: Seq<Worker>, i: int, w: Worker)
    requires
        0 <= i < s.len(),
    ensures
        running_count(s.update(i, w)) + (if s[i].running {
            1nat
        } else {
            0nat
        }) == running_count(s) + (if w.running {
            1nat
        } else {
            0nat
        }),
    decreases s.len(),
{
    let s2 = s.update(i, w);
    assert(s2.len() == s.len());
    if i == 0 {
        assert(s2[0] == w);
        assert(s2.skip(1) =~= s.skip(1));
    } else {
        assert(s2[0] == s[0]);
        assert(s2.skip(1) =~= s.skip(1).update(i - 1, w));
        assert(s.skip(1)[i - 1] == s[i]);
        lemma_running_count_update(s.skip(1), i - 1, w);
    }
}

/// When every worker is running, the running count is the number of workers.
pub proof fn lemma_running_count_all(s: Seq<Worker>)
    requires
        forall|i: int| 0 <= i < s.len() ==> (#[trigger] s[i]).running,
    ensures
        running_count(s) == s.len(),
    decreases s.len(),
{
    if s.len() > 0 {
        assert forall|i: int| 0 <= i < s.skip(1).len() implies (#[trigger] s.skip(1)[i]).running by {
            assert(s.skip(1)[i] == s[i + 1]);
        }
        lemma_running_count_all(s.skip(1));
        assert(s[0].running);
    }
}

/// When no worker is running, the running count is zero.
pub proof fn lemma_running_count_none(s: Seq<Worker>)
    requires
        forall|i: int| 0 <= i < s.len() ==> !(#[trigger] s[i]).running,
    ensures
        running_count(s) == 0,
    decreases s.len(),
{
    if s.len() > 0 {
        assert forall|i: int| 0 <= i < s.skip(1).len() implies !(#[trigger] s.skip(1)[i]).running by {
            assert(s.skip(1)[i] == s[i + 1]);
        }
        lemma_running_count_none(s.skip(1));
        assert(!s[0].running);
    }
}

/// A running count of zero means no worker is running.
pub proof fn lemma_running_count_zero(s: Seq<Worker>)
    requires
        running_count(s) == 0,
    ensures
        forall|i: int| 0 <= i < s.len() ==> !(#[trigger] s[i]).running,
    decreases s.len(),
{
    if s.len() > 0 {
        assert(running_count(s.skip(1)) == 0);
        lemma_running_count_zero(s.skip(1));
        assert forall|i: int| 0 <= i < s.len() implies !(#[trigger] s[i]).running by {
            if i > 0 {
                assert(s.skip(1)[i - 1] == s[i]);
            }
        }
    }
}

/// A positive running count means some worker is running.
pub proof fn lemma_running_count_pos(s: Seq<Worker>)
    requires
        running_count(s) > 0,
    ensures
        exists|i: int| 0 <= i < s.len() && (#[trigger] s[i]).running,
    decreases s.len(),
{
    assert(s.len() > 0);
    if s[0].running {
        assert(0 <= 0 < s.len() && s[0].running);
    } else {
        assert(running_count(s.skip(1)) > 0);
        lemma_running_count_pos(s.skip(1));
        let j = choose|j: int| 0 <= j < s.skip(1).len() && (#[trigger] s.skip(1)[j]).running;
        assert(s[j + 1] == s.skip(1)[j]);
        assert(0 <= j + 1 < s.len() && s[j + 1].running);
    }
}

} // verus!
