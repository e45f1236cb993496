//! Fairness of the ready queue: entries are polled in turn.
//!
//! A turn in which the polled task does its work, notifies itself and
//! stays unfinished moves the task from the head of the ready queue to its
//! back. So of two tasks that go on like this, neither gets ahead of the
//! other by more than one poll.

use vstd::prelude::*;
use crate::scheduler::{Scheduler, Polled, Tick, Node, ascending, linked, slot, lent_node, queued_node, returned_node, lemma_slot};

verus! {

/// One turn of a task that notifies itself and does not finish: a tick
/// hands the task of the head entry out, the entry is notified during the
/// poll, and the task is given back unfinished.
pub open spec fn spun<T>(pre: Scheduler<T>, post: Scheduler<T>) -> bool {
    exists|lent: Scheduler<T>, woken: Scheduler<T>, polled: Polled<T>, task: T|
        #![trigger pre.ticked(lent, Tick::Data(polled)), woken.restored(post, task)]
        {
            &&& pre.ticked(lent, Tick::Data(polled))
            &&& lent.notified(woken, polled.id)
            &&& woken.restored(post, task)
        }
}

/// `ready` with its head moved to the back.
pub open spec fn rotated(ready: Seq<u64>) -> Seq<u64> {
    ready.drop_first().push(ready[0])
}

/// True if `post` links entries with the same identifiers and flags as
/// `pre`, in the same order.
pub open spec fn same_entries<T>(pre: Seq<Node<T>>, post: Seq<Node<T>>) -> bool {
    &&& post.len() == pre.len()
    &&& forall|i: int|
        0 <= i < pre.len() ==> (#[trigger] post[i]).id == pre[i].id && post[i].daemon
            == pre[i].daemon
}

/// The number of times that the entry `id` is at the head of the ready
/// queue in the first `n` states of `trace`, that is, the number of polls
/// it gets in the first `n` turns.
pub open spec fn polls<T>(trace: Seq<Scheduler<T>>, id: u64, n: nat) -> nat
    decreases n,
{
    if n == 0 {
        0
    } else {
        polls(trace, id, (n - 1) as nat) + if trace[n - 1].ready()[0] == id {
            1nat
        } else {
            0nat
        }
    }
}

/// A turn of a task that notifies itself and does not finish moves the head
/// of the ready queue to the back and leaves every entry linked, with no
/// task handed out.
pub proof fn lemma_spin_rotates<T>(pre: Scheduler<T>, post: Scheduler<T>)
    requires
        ascending(pre.nodes()),
        pre.polling() is None,
        pre.ready().len() > 0,
        linked(pre.nodes(), pre.ready()[0]),
        spun(pre, post),
    ensures
        post.ready() == rotated(pre.ready()),
        same_entries(pre.nodes(), post.nodes()),
        ascending(post.nodes()),
        post.polling() is None,
        post.next_id() == pre.next_id(),
{
    let (lent, woken, polled, task) = choose|
        lent: Scheduler<T>,
        woken: Scheduler<T>,
        polled: Polled<T>,
        task: T,
    |
        #![trigger pre.ticked(lent, Tick::Data(polled)), woken.restored(post, task)]
        {
            &&& pre.ticked(lent, Tick::Data(polled))
            &&& lent.notified(woken, polled.id)
            &&& woken.restored(post, task)
        };
    let id = pre.ready()[0];
    lemma_slot(pre.nodes(), id);
    let k = slot(pre.nodes(), id);
    assert(lent.nodes() == pre.nodes().update(k, lent_node(pre.nodes()[k])));
    assert(lent.nodes()[k].id == id);
    assert(ascending(lent.nodes()));
    lemma_slot(lent.nodes(), id);
    assert(slot(lent.nodes(), id) == k);
    assert(lent.wakes(id));
    assert(woken.nodes() == lent.nodes().update(k, queued_node(lent.nodes()[k])));
    assert(woken.nodes()[k].id == id);
    assert(ascending(woken.nodes()));
    lemma_slot(woken.nodes(), id);
    assert(slot(woken.nodes(), id) == k);
    assert(post.nodes() == woken.nodes().update(k, returned_node(woken.nodes()[k], task)));
    assert(ascending(post.nodes()));
}

/// Two tasks that each do one unit of work per poll and notify themselves
/// at once are polled in turn: with `a` ahead of `b` in the ready queue at
/// the start, after any number of turns `a` has had as many polls as `b`, or
/// one more. `trace` holds the states of the scheduler before the first
/// turn and after each.
pub proof fn lemma_two_spinners_alternate<T>(trace: Seq<Scheduler<T>>, a: u64, b: u64, n: nat)
    requires
        n < trace.len(),
        trace[0].wf(),
        trace[0].polling() is None,
        trace[0].ready() == seq![a, b],
        a != b,
        linked(trace[0].nodes(), a),
        linked(trace[0].nodes(), b),
        forall|k: int| 0 <= k < trace.len() - 1 ==> #[trigger] spun(trace[k], trace[k + 1]),
    ensures
        polls(trace, a, n) == polls(trace, b, n) || polls(trace, a, n) == polls(trace, b, n) + 1,
        polls(trace, a, n) + polls(trace, b, n) == n,
{
    lemma_spinners_state(trace, a, b, n);
}

/// The state behind `lemma_two_spinners_alternate`: after an even number
/// of turns `a` is at the head and both have had the same number of polls;
/// after an odd number `b` is at the head and `a` is one poll ahead.
proof fn lemma_spinners_state<T>(trace: Seq<Scheduler<T>>, a: u64, b: u64, n: nat)
    requires
        n < trace.len(),
        trace[0].wf(),
        trace[0].polling() is None,
        trace[0].ready() == seq![a, b],
        a != b,
        linked(trace[0].nodes(), a),
        linked(trace[0].nodes(), b),
        forall|k: int| 0 <= k < trace.len() - 1 ==> #[trigger] spun(trace[k], trace[k + 1]),
    ensures
        ascending(trace[n as int].nodes()),
        trace[n as int].polling() is None,
        same_entries(trace[0].nodes(), trace[n as int].nodes()),
        n % 2 == 0 ==> trace[n as int].ready() == seq![a, b] && polls(trace, a, n) == polls(
            trace,
            b,
            n,
        ),
        n % 2 == 1 ==> trace[n as int].ready() == seq![b, a] && polls(trace, a, n) == polls(
            trace,
            b,
            n,
        ) + 1,
        polls(trace, a, n) + polls(trace, b, n) == n,
    decreases n,
{
    if n > 0 {
        let m = (n - 1) as nat;
        lemma_spinners_state(trace, a, b, m);
        let pre = trace[m as int];
        let post = trace[n as int];
        assert(spun(trace[m as int], trace[m as int + 1]));
        let head = pre.ready()[0];
        assert(linked(pre.nodes(), head)) by {
            let i = choose|i: int|
                0 <= i < trace[0].nodes().len() && (#[trigger] trace[0].nodes()[i]).id == head;
            assert(pre.nodes()[i].id == head);
        }
        lemma_spin_rotates(pre, post);
        if m % 2 == 0 {
            assert(rotated(seq![a, b]) =~= seq![b, a]);
        } else {
            assert(rotated(seq![b, a]) =~= seq![a, b]);
        }
        assert forall|i: int| 0 <= i < trace[0].nodes().len() implies (#[trigger] post.nodes()[i]).id
            == trace[0].nodes()[i].id && post.nodes()[i].daemon == trace[0].nodes()[i].daemon by {
            assert(pre.nodes()[i].id == trace[0].nodes()[i].id);
        }
    }
}

} // verus!
