//! Control messages carried by the pool's queue, and spec-level views of a
//! message sequence: the job ids it carries, how many terminate tokens it
//! holds, and whether the terminate tokens form a suffix.

use vstd::prelude::*;

verus! {

/// One unit of the queue: either a job, identified by the id its submitter
/// was given, or a payload-free terminate token.
#[derive(Clone, Copy, Debug, PartialEq, Eq, Structural)]
pub enum Message {
    NewJob(usize),
    Terminate,
}

/// The ids of the jobs in `q`, in queue order, terminate tokens skipped.
pub open spec fn job_ids(q: Seq<Message>) -> Seq<usize>
    decreases q.len(),
{
    if q.len() == 0 {
        Seq::<usize>::empty()
    } else {
        match q[0] {
            Message::NewJob(t) => seq![t] + job_ids(q.skip(1)),
            Message::Terminate => job_ids(q.skip(1)),
        }
    }
}

/// How many terminate tokens `q` holds.
pub open spec fn terminate_count(q: Seq<Message>) -> nat
    decreases q.len(),
{
    if q.len() == 0 {
        0
    } else {
        (if q[0] is Terminate {
            1nat
        } else {
            0nat
        }) + terminate_count(q.skip(1))
    }
}

/// Every message after a terminate token is itself a terminate token: jobs
/// form a prefix of the queue, terminate tokens a suffix.
pub open spec fn terminates_last(q: Seq<Message>) -> bool {
    forall|i: int, j: int|
        0 <= i < j < q.len() && (#[trigger] q[i]) is Terminate ==> (#[trigger] q[j]) is Terminate
}

/// Appending a job appends its id to the sequence of pending job ids.
pub proof fn lemma_job_ids_push_job(q: Seq<Message>, t: usize)
    ensures
        job_ids(q.push(Message::NewJob(t))) == job_ids(q).push(t),
    decreases q.len(),
{
    let q2 = q.push(Message::NewJob(t));
    if q.len() == 0 {
        assert(q2[0] == Message::NewJob(t));
        assert(q2.skip(1) =~= Seq::<Message>::empty());
        assert(job_ids(q2) == seq![t] + job_ids(q2.skip(1)));
        assert(job_ids(q2.skip(1)) == Seq::<usize>::empty());
        assert(job_ids(q) == Seq::<usize>::empty());
        assert(job_ids(q2) =~= job_ids(q).push(t));
    } else {
        assert(q2[0] == q[0]);
        assert(q2.skip(1) =~= q.skip(1).push(Message::NewJob(t)));
        lemma_job_ids_push_job(q.skip(1), t);
        if q[0] is NewJob {
            let u = q[0]->0;
            assert(q[0] == Message::NewJob(u));
            assert(job_ids(q2) == seq![u] + job_ids(q2.skip(1)));
            assert(job_ids(q) == seq![u] + job_ids(q.skip(1)));
            assert(job_ids(q2) == seq![u] + job_ids(q.skip(1)).push(t));
            assert(job_ids(q2) =~= job_ids(q).push(t));
        } else {
            assert(q[0] == Message::Terminate);
            assert(job_ids(q2) == job_ids(q2.skip(1)));
            assert(job_ids(q) == job_ids(q.skip(1)));
            assert(job_ids(q2) =~= job_ids(q).push(t));
        }
    }
}

/// Appending a terminate token leaves the pending job ids unchanged.
pub proof fn lemma_job_ids_push_terminate(q: Seq<Message>)
    ensures
        job_ids(q.push(Message::Terminate)) == job_ids(q),
    decreases q.len(),
{
    let q2 = q.push(Message::Terminate);
    if q.len() == 0 {
        assert(q2[0] == Message::Terminate);
        assert(q2.skip(1) =~= Seq::<Message>::empty());
        assert(job_ids(q2) == job_ids(q2.skip(1)));
        assert(job_ids(q2.skip(1)) == Seq::<usize>::empty());
        assert(job_ids(q) == Seq::<usize>::empty());
    } else {
        assert(q2[0] == q[0]);
        assert(q2.skip(1) =~= q.skip(1).push(Message::Terminate));
        lemma_job_ids_push_terminate(q.skip(1));
        if q[0] is NewJob {
            let u = q[0]->0;
            assert(q[0] == Message::NewJob(u));
            assert(job_ids(q2) == seq![u] + job_ids(q2.skip(1)));
            assert(job_ids(q) == seq![u] + job_ids(q.skip(1)));
        } else {
            assert(q[0] == Message::Terminate);
            assert(job_ids(q2) == job_ids(q2.skip(1)));
            assert(job_ids(q) == job_ids(q.skip(1)));
        }
    }
}

/// Appending a message raises the terminate count by one exactly when the
/// message is a terminate token.
pub proof fn lemma_terminate_count_push(q: Seq<Message>, m: Message)
    ensures
        terminate_count(q.push(m)) == terminate_count(q) + (if m is Terminate {
            1nat
        } else {
            0nat
        }),
    decreases q.len(),
{
    let q2 = q.push(m);
    if q.len() == 0 {
        assert(q2[0] == m);
        assert(q2.skip(1) =~= Seq::<Message>::empty());
        assert(terminate_count(q2.skip(1)) == 0);
        assert(terminate_count(q) == 0);
    } else {
        assert(q2[0] == q[0]);
        assert(q2.skip(1) =~= q.skip(1).push(m));
        lemma_terminate_count_push(q.skip(1), m);
    }
}

/// A queue without terminate tokens has none at any position.
pub proof fn lemma_terminate_count_zero(q: Seq<Message>)
    requires
        terminate_count(q) == 0,
    ensures
        forall|i: int| 0 <= i < q.len() ==> !((#[trigger] q[i]) is Terminate),
    decreases q.len(),
{
    if q.len() > 0 {
        assert(terminate_count(q.skip(1)) == 0);
        lemma_terminate_count_zero(q.skip(1));
        assert forall|i: int| 0 <= i < q.len() implies !((#[trigger] q[i]) is Terminate) by {
            if i > 0 {
                assert(q.skip(1)[i - 1] == q[i]);
            }
        }
    }
}

/// Taking the front message preserves the terminate-tokens-last shape and
/// removes the front from the terminate count.
pub proof fn lemma_queue_skip_front(q: Seq<Message>)
    requires
        q.len() > 0,
        terminates_last(q),
    ensures
        terminates_last(q.skip(1)),
        terminate_count(q) == terminate_count(q.skip(1)) + (if q[0] is Terminate {
            1nat
        } else {
            0nat
        }),
{
    assert forall|i: int, j: int|
        0 <= i < j < q.skip(1).len() && (#[trigger] q.skip(1)[i]) is Terminate implies (
    #[trigger] q.skip(1)[j]) is Terminate by {
        assert(q.skip(1)[i] == q[i + 1]);
        assert(q.skip(1)[j] == q[j + 1]);
    }
}

} // verus!
