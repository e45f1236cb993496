//! The ready queue: the entries a session holds and the order in which
//! they are offered for polling.
//!
//! Every entry gets an identifier when it is scheduled, and identifiers are
//! never used twice. A notification appends the entry's identifier to a
//! first-in, first-out queue unless it already waits there. A tick takes the
//! identifier at the head of the queue and hands the entry's task out for one
//! poll; the entry stays linked, without its task, until the poll is reported.

use vstd::prelude::*;
use std::collections::VecDeque;

verus! {

/// A task together with the flag that says whether a session waits for it.
#[derive(Debug)]
pub struct SpawnedFuture<T> {
    /// True if the task does not keep its session from returning.
    pub daemon: bool,
    /// The task to execute.
    pub inner: T,
}

/// One linked entry of the scheduler.
#[derive(Debug)]
pub struct Node<T> {
    /// The identifier by which the entry is notified.
    pub id: u64,
    /// True if the entry does not keep its session from returning.
    pub daemon: bool,
    /// True while the identifier waits in the ready queue.
    pub queued: bool,
    /// The task; `None` while it is handed out for a poll.
    pub inner: Option<T>,
}

/// The result of asking the scheduler to advance one ready entry.
#[derive(Debug)]
pub enum Tick<T> {
    /// An entry was taken from the ready queue.
    Data(T),
    /// The ready queue holds nothing.
    Empty,
    /// The head of the ready queue named an entry that is no longer linked;
    /// it was discarded and the caller should try again.
    Inconsistent,
}

/// An entry handed out for one poll.
#[derive(Debug)]
pub struct Polled<T> {
    /// The identifier of the entry.
    pub id: u64,
    /// The task to poll.
    pub task: T,
}

/// True if some entry of `nodes` has the identifier `id`.
pub open spec fn linked<T>(nodes: Seq<Node<T>>, id: u64) -> bool {
    exists|i: int| 0 <= i < nodes.len() && (#[trigger] nodes[i]).id == id
}

/// The position in `nodes` of the entry with the identifier `id`.
pub open spec fn slot<T>(nodes: Seq<Node<T>>, id: u64) -> int {
    choose|i: int| 0 <= i < nodes.len() && (#[trigger] nodes[i]).id == id
}

/// True if the identifiers of `nodes` grow strictly with the position.
pub open spec fn ascending<T>(nodes: Seq<Node<T>>) -> bool {
    forall|i: int, j: int|
        0 <= i < j < nodes.len() ==> (#[trigger] nodes[i]).id < (#[trigger] nodes[j]).id
}

/// The number of entries of `nodes` that are not daemons.
pub open spec fn primaries<T>(nodes: Seq<Node<T>>) -> nat
    decreases nodes.len(),
{
    if nodes.len() == 0 {
        0
    } else {
        primaries(nodes.drop_last()) + if nodes.last().daemon { 0nat } else { 1nat }
    }
}

/// The entry that `schedule` links for `item` under the identifier `id`.
pub open spec fn fresh_node<T>(id: u64, item: SpawnedFuture<T>) -> Node<T> {
    Node { id, daemon: item.daemon, queued: true, inner: Some(item.inner) }
}

/// `node` with its `queued` flag set.
pub open spec fn queued_node<T>(node: Node<T>) -> Node<T> {
    Node { id: node.id, daemon: node.daemon, queued: true, inner: node.inner }
}

/// `node` as it is while its task is handed out.
pub open spec fn lent_node<T>(node: Node<T>) -> Node<T> {
    Node { id: node.id, daemon: node.daemon, queued: false, inner: None }
}

/// `node` after its task came back from a poll that did not finish it.
pub open spec fn returned_node<T>(node: Node<T>, task: T) -> Node<T> {
    Node { id: node.id, daemon: node.daemon, queued: node.queued, inner: Some(task) }
}

/// The entries of a session and their ready queue.
pub struct Scheduler<T> {
    nodes: Vec<Node<T>>,
    ready: VecDeque<u64>,
    next_id: u64,
    polling: Option<u64>,
}

impl<T> Scheduler<T> {
    /// The linked entries, in the order in which they were scheduled.
    pub closed spec fn nodes(&self) -> Seq<Node<T>> {
        self.nodes@
    }

    /// The identifiers that wait to be offered, the next one first.
    pub closed spec fn ready(&self) -> Seq<u64> {
        self.ready@
    }

    /// The identifier that the next scheduled entry gets.
    pub closed spec fn next_id(&self) -> u64 {
        self.next_id
    }

    /// The identifier of the entry whose task is handed out, if any.
    pub closed spec fn polling(&self) -> Option<u64> {
        self.polling
    }

    /// The invariant of the scheduler: identifiers grow with the position
    /// and lie below `next_id`; no identifier waits twice; an entry is
    /// marked as queued exactly if its identifier waits; and the one entry
    /// without a task is the one named by `polling`.
    pub open spec fn wf(&self) -> bool {
        &&& ascending(self.nodes())
        &&& forall|i: int|
            0 <= i < self.nodes().len() ==> (#[trigger] self.nodes()[i]).id < self.next_id()
        &&& self.ready().no_duplicates()
        &&& forall|k: int| 0 <= k < self.ready().len() ==> #[trigger] self.ready()[k] < self.next_id()
        &&& forall|i: int|
            0 <= i < self.nodes().len() ==> ((#[trigger] self.nodes()[i]).queued
                <==> self.ready().contains(self.nodes()[i].id))
        &&& forall|i: int|
            0 <= i < self.nodes().len() ==> ((#[trigger] self.nodes()[i]).inner is None
                <==> self.polling() == Some(self.nodes()[i].id))
        &&& self.polling() is Some ==> linked(self.nodes(), self.polling().unwrap())
    }

    /// The entry whose task is handed out. Meaningful while `polling` is
    /// `Some`.
    pub open spec fn polled_node(&self) -> Node<T> {
        self.nodes()[slot(self.nodes(), self.polling().unwrap())]
    }

    /// True if a notification of `id` puts it into the ready queue: the
    /// identifier names a linked entry that does not wait there yet.
    pub open spec fn wakes(&self, id: u64) -> bool {
        linked(self.nodes(), id) && !self.nodes()[slot(self.nodes(), id)].queued
    }

    /// What `schedule` does: `post` is `self` with a new entry for `item`
    /// under the next identifier, which also joins the back of the ready
    /// queue.
    pub open spec fn scheduled(&self, post: Self, item: SpawnedFuture<T>) -> bool {
        &&& post.next_id() == self.next_id() + 1
        &&& post.nodes() == self.nodes().push(fresh_node(self.next_id(), item))
        &&& post.ready() == self.ready().push(self.next_id())
        &&& post.polling() == self.polling()
    }

    /// What `notify` does: where `id` wakes an entry, `post` is `self` with
    /// that entry marked and `id` at the back of the ready queue; otherwise
    /// `post` is as `self`.
    pub open spec fn notified(&self, post: Self, id: u64) -> bool {
        &&& post.next_id() == self.next_id()
        &&& post.polling() == self.polling()
        &&& if self.wakes(id) {
            &&& post.nodes() == self.nodes().update(
                slot(self.nodes(), id),
                queued_node(self.nodes()[slot(self.nodes(), id)]),
            )
            &&& post.ready() == self.ready().push(id)
        } else {
            &&& post.nodes() == self.nodes()
            &&& post.ready() == self.ready()
        }
    }

    /// What `tick` does. With an empty ready queue the result is `Empty`
    /// and nothing changes. Otherwise the head leaves the queue: if it
    /// names no linked entry, the result is `Inconsistent`; if it does, the
    /// result is `Data` with the identifier and the entry's task, and the
    /// entry is left without task and named by `polling`.
    pub open spec fn ticked(&self, post: Self, res: Tick<Polled<T>>) -> bool {
        &&& post.next_id() == self.next_id()
        &&& if self.ready().len() == 0 {
            &&& res is Empty
            &&& post.ready() == self.ready()
            &&& post.nodes() == self.nodes()
            &&& post.polling() is None
        } else if !linked(self.nodes(), self.ready()[0]) {
            &&& res is Inconsistent
            &&& post.ready() == self.ready().drop_first()
            &&& post.nodes() == self.nodes()
            &&& post.polling() is None
        } else {
            &&& res matches Tick::Data(polled)
            &&& polled.id == self.ready()[0]
            &&& self.nodes()[slot(self.nodes(), polled.id)].inner == Some(polled.task)
            &&& post.ready() == self.ready().drop_first()
            &&& post.nodes() == self.nodes().update(
                slot(self.nodes(), polled.id),
                lent_node(self.nodes()[slot(self.nodes(), polled.id)]),
            )
            &&& post.polling() == Some(polled.id)
        }
    }

    /// What `finish` does: the entry named by `polling` is unlinked.
    pub open spec fn finished(&self, post: Self) -> bool {
        &&& post.next_id() == self.next_id()
        &&& post.ready() == self.ready()
        &&& post.polling() is None
        &&& post.nodes() == self.nodes().remove(slot(self.nodes(), self.polling().unwrap()))
    }

    /// What `restore` does: the entry named by `polling` gets `task` back.
    pub open spec fn restored(&self, post: Self, task: T) -> bool {
        &&& post.next_id() == self.next_id()
        &&& post.ready() == self.ready()
        &&& post.polling() is None
        &&& post.nodes() == self.nodes().update(
            slot(self.nodes(), self.polling().unwrap()),
            returned_node(self.polled_node(), task),
        )
    }

    /// The entries fit in memory: their number is a `usize`.
    pub proof fn lemma_len_bound(&self)
        ensures
            self.nodes().len() <= usize::MAX,
    {
        assert(self.nodes.len() == self.nodes@.len());
    }

    /// A scheduler without entries.
    pub fn new() -> (s: Self)
        ensures
            s.wf(),
            s.nodes() == Seq::<Node<T>>::empty(),
            s.ready() == Seq::<u64>::empty(),
            s.next_id() == 0,
            s.polling() is None,
    {
        Scheduler { nodes: Vec::new(), ready: VecDeque::new(), next_id: 0, polling: None }
    }

    /// True if another entry can be scheduled: an identifier is left.
    pub fn has_capacity(&self) -> (b: bool)
        ensures
            b == (self.next_id() < u64::MAX),
    {
        self.next_id < u64::MAX
    }

    /// True while the task of some entry is handed out for a poll.
    pub fn is_polling(&self) -> (b: bool)
        ensures
            b == (self.polling() is Some),
    {
        self.polling.is_some()
    }

    /// The number of linked entries.
    pub fn len(&self) -> (n: usize)
        ensures
            n == self.nodes().len(),
    {
        self.nodes.len()
    }

    /// The number of identifiers that wait in the ready queue.
    pub fn ready_len(&self) -> (n: usize)
        ensures
            n == self.ready().len(),
    {
        self.ready.len()
    }

    /// The position of the entry with the identifier `id`, if it is linked.
    fn find(&self, id: u64) -> (res: Option<usize>)
        requires
            ascending(self.nodes()),
        ensures
            match res {
                Some(i) => linked(self.nodes(), id) && i == slot(self.nodes(), id),
                None => !linked(self.nodes(), id),
            },
    {
        let mut i: usize = 0;
        while i < self.nodes.len()
            invariant
                ascending(self.nodes()),
                i <= self.nodes.len(),
                forall|k: int| 0 <= k < i ==> (#[trigger] self.nodes@[k]).id != id,
            decreases self.nodes.len() - i,
        {
            if self.nodes[i].id == id {
                proof {
                    assert(self.nodes()[i as int].id == id);
                    lemma_slot(self.nodes(), id);
                }
                return Some(i);
            }
            i += 1;
        }
        None
    }

    /// Links `item` as a new entry and puts it at the back of the ready
    /// queue, so that it is polled once without a notification. Returns the
    /// entry's identifier.
    pub fn schedule(&mut self, item: SpawnedFuture<T>) -> (id: u64)
        requires
            old(self).wf(),
            old(self).next_id() < u64::MAX,
        ensures
            final(self).wf(),
            id == old(self).next_id(),
            old(self).scheduled(*final(self), item),
    {
        let id = self.next_id;
        let ghost before = *self;
        let node = Node { id, daemon: item.daemon, queued: true, inner: Some(item.inner) };
        self.nodes.push(node);
        self.ready.push_back(id);
        self.next_id = id + 1;
        proof {
            assert(!before.ready().contains(id));
            assert forall|i: int| 0 <= i < self.nodes().len() implies ((#[trigger] self.nodes()[i]).queued
                <==> self.ready().contains(self.nodes()[i].id)) by {
                let n = self.nodes()[i];
                if i < before.nodes().len() {
                    assert(n == before.nodes()[i]);
                    if before.ready().contains(n.id) {
                        let k = choose|k: int| 0 <= k < before.ready().len() && before.ready()[k] == n.id;
                        assert(self.ready()[k] == n.id);
                    }
                } else {
                    assert(self.ready()[before.ready().len() as int] == id);
                }
            }
            if self.polling() is Some {
                let k = slot(before.nodes(), before.polling().unwrap());
                lemma_slot(before.nodes(), before.polling().unwrap());
                assert(self.nodes()[k].id == self.polling().unwrap());
            }
        }
        id
    }

    /// Notifies the entry with the identifier `id`: unless it already waits
    /// in the ready queue, it is put at the back. An identifier that names
    /// no linked entry is ignored. Returns whether the entry was queued by
    /// this call.
    pub fn notify(&mut self, id: u64) -> (queued: bool)
        requires
            old(self).wf(),
        ensures
            final(self).wf(),
            queued == old(self).wakes(id),
            old(self).notified(*final(self), id),
    {
        let ghost before = *self;
        match self.find(id) {
            Some(i) => {
                if self.nodes[i].queued {
                    false
                } else {
                    self.nodes[i].queued = true;
                    self.ready.push_back(id);
                    proof {
                        lemma_slot(before.nodes(), id);
                        assert(self.nodes() =~= before.nodes().update(
                            i as int,
                            queued_node(before.nodes()[i as int]),
                        ));
                        assert(!before.ready().contains(id));
                        assert(self.ready()[before.ready().len() as int] == id);
                        assert forall|j: int| 0 <= j < self.nodes().len() implies ((
                        #[trigger] self.nodes()[j]).queued <==> self.ready().contains(
                            self.nodes()[j].id,
                        )) by {
                            let n = self.nodes()[j];
                            if j != i {
                                assert(n == before.nodes()[j]);
                                if before.ready().contains(n.id) {
                                    let k = choose|k: int|
                                        0 <= k < before.ready().len() && before.ready()[k] == n.id;
                                    assert(self.ready()[k] == n.id);
                                }
                            }
                        }
                        if self.polling() is Some {
                            let k = slot(before.nodes(), before.polling().unwrap());
                            lemma_slot(before.nodes(), before.polling().unwrap());
                            assert(self.nodes()[k].id == self.polling().unwrap());
                        }
                    }
                    true
                }
            },
            None => false,
        }
    }

    /// Takes the identifier at the head of the ready queue and hands out
    /// the task of the entry it names, for one poll. The entry stays linked
    /// until `finish` or `restore` reports the poll.
    pub fn tick(&mut self) -> (res: Tick<Polled<T>>)
        requires
            old(self).wf(),
            old(self).polling() is None,
        ensures
            final(self).wf(),
            old(self).ticked(*final(self), res),
    {
        let ghost before = *self;
        let id = match self.ready.pop_front() {
            None => {
                return Tick::Empty;
            },
            Some(id) => id,
        };
        proof {
            assert(self.ready() =~= before.ready().drop_first());
            assert forall|x: u64| self.ready().contains(x) implies before.ready().contains(x)
                && x != id by {
                let k = choose|k: int| 0 <= k < self.ready().len() && self.ready()[k] == x;
                assert(before.ready()[k + 1] == x);
            }
            assert forall|x: u64| before.ready().contains(x) && x != id implies self.ready().contains(
                x,
            ) by {
                let k = choose|k: int| 0 <= k < before.ready().len() && before.ready()[k] == x;
                assert(self.ready()[k - 1] == x);
            }
            assert forall|k: int| 0 <= k < self.ready().len() implies #[trigger] self.ready()[k]
                < self.next_id() by {
                assert(before.ready()[k + 1] < before.next_id());
            }
        }
        match self.find(id) {
            None => {
                proof {
                    assert forall|j: int| 0 <= j < self.nodes().len() implies ((
                    #[trigger] self.nodes()[j]).queued <==> self.ready().contains(
                        self.nodes()[j].id,
                    )) by {
                        assert(self.nodes()[j].id != id);
                    }
                }
                Tick::Inconsistent
            },
            Some(i) => {
                proof {
                    lemma_slot(before.nodes(), id);
                }
                let task = self.nodes[i].inner.take();
                self.nodes[i].queued = false;
                self.polling = Some(id);
                proof {
                    assert(self.nodes() =~= before.nodes().update(
                        i as int,
                        lent_node(before.nodes()[i as int]),
                    ));
                    assert forall|j: int| 0 <= j < self.nodes().len() implies ((
                    #[trigger] self.nodes()[j]).queued <==> self.ready().contains(
                        self.nodes()[j].id,
                    )) by {
                        if j != i {
                            assert(self.nodes()[j] == before.nodes()[j]);
                            assert(self.nodes()[j].id != id);
                        }
                    }
                    assert(self.nodes()[i as int].id == id);
                }
                Tick::Data(Polled { id, task: task.unwrap() })
            },
        }
    }

    /// The `daemon` flag of the entry whose task is handed out.
    pub fn polled_is_daemon(&self) -> (daemon: bool)
        requires
            self.wf(),
            self.polling() is Some,
        ensures
            daemon == self.polled_node().daemon,
    {
        let id = self.polling.unwrap();
        proof {
            lemma_slot(self.nodes(), id);
        }
        let found = self.find(id);
        self.nodes[found.unwrap()].daemon
    }

    /// Reports that the task handed out by `tick` has finished: its entry
    /// is unlinked. Returns the entry's `daemon` flag.
    pub fn finish(&mut self) -> (daemon: bool)
        requires
            old(self).wf(),
            old(self).polling() is Some,
        ensures
            final(self).wf(),
            daemon == old(self).polled_node().daemon,
            old(self).finished(*final(self)),
    {
        let ghost before = *self;
        let id = self.polling.unwrap();
        proof {
            lemma_slot(before.nodes(), id);
        }
        let found = self.find(id);
        let i = found.unwrap();
        let node = self.nodes.remove(i);
        self.polling = None;
        proof {
            assert forall|j: int| 0 <= j < self.nodes().len() implies (#[trigger] self.nodes()[j])
                == before.nodes()[if j < i { j } else { j + 1 }] by {}
            assert forall|j: int| 0 <= j < self.nodes().len() implies ((
            #[trigger] self.nodes()[j]).inner is None <==> self.polling() == Some(
                self.nodes()[j].id,
            )) by {
                let k = if j < i { j } else { j + 1 };
                assert(self.nodes()[j] == before.nodes()[k]);
                assert(before.nodes()[k].id != id);
            }
        }
        node.daemon
    }

    /// Reports that the task handed out by `tick` has not finished: `task`
    /// goes back into its entry, which is offered again once it is notified
    /// (or at once, if it was notified during the poll).
    pub fn restore(&mut self, task: T)
        requires
            old(self).wf(),
            old(self).polling() is Some,
        ensures
            final(self).wf(),
            old(self).restored(*final(self), task),
    {
        let ghost before = *self;
        let id = self.polling.unwrap();
        proof {
            lemma_slot(before.nodes(), id);
        }
        let found = self.find(id);
        let i = found.unwrap();
        self.nodes[i].inner = Some(task);
        self.polling = None;
        proof {
            assert(self.nodes() =~= before.nodes().update(
                i as int,
                returned_node(before.nodes()[i as int], task),
            ));
            assert forall|j: int| 0 <= j < self.nodes().len() implies ((
            #[trigger] self.nodes()[j]).inner is None <==> self.polling() == Some(
                self.nodes()[j].id,
            )) by {
                if j != i {
                    assert(self.nodes()[j] == before.nodes()[j]);
                    assert(before.nodes()[j].id != id);
                }
            }
        }
    }
}


/// Where identifiers grow with the position, an identifier names at most
/// one entry, and `slot` finds it.
pub proof fn lemma_slot<T>(nodes: Seq<Node<T>>, id: u64)
    requires
        ascending(nodes),
        linked(nodes, id),
    ensures
        0 <= slot(nodes, id) < nodes.len(),
        nodes[slot(nodes, id)].id == id,
        forall|i: int| 0 <= i < nodes.len() && (#[trigger] nodes[i]).id == id ==> i == slot(nodes, id),
{
    let k = slot(nodes, id);
    assert forall|i: int| 0 <= i < nodes.len() && (#[trigger] nodes[i]).id == id implies i == k by {
        if i < k {
            assert(nodes[i].id < nodes[k].id);
        } else if k < i {
            assert(nodes[k].id < nodes[i].id);
        }
    }
}

/// Appending an entry adds one to the count of primaries exactly if the
/// entry is no daemon.
pub proof fn lemma_primaries_push<T>(nodes: Seq<Node<T>>, node: Node<T>)
    ensures
        primaries(nodes.push(node)) == primaries(nodes) + if node.daemon { 0nat } else { 1nat },
{
    assert(nodes.push(node).drop_last() =~= nodes);
}

/// Replacing an entry by one with the same `daemon` flag keeps the count of
/// primaries.
pub proof fn lemma_primaries_update<T>(nodes: Seq<Node<T>>, i: int, node: Node<T>)
    requires
        0 <= i < nodes.len(),
        node.daemon == nodes[i].daemon,
    ensures
        primaries(nodes.update(i, node)) == primaries(nodes),
    decreases nodes.len(),
{
    let after = nodes.update(i, node);
    if i == nodes.len() - 1 {
        assert(after.drop_last() =~= nodes.drop_last());
    } else {
        lemma_primaries_update(nodes.drop_last(), i, node);
        assert(after.drop_last() =~= nodes.drop_last().update(i, node));
    }
}

/// Removing an entry takes one from the count of primaries exactly if the
/// entry is no daemon.
pub proof fn lemma_primaries_remove<T>(nodes: Seq<Node<T>>, i: int)
    requires
        0 <= i < nodes.len(),
    ensures
        primaries(nodes) == primaries(nodes.remove(i)) + if nodes[i].daemon { 0nat } else { 1nat },
    decreases nodes.len(),
{
    let after = nodes.remove(i);
    if i == nodes.len() - 1 {
        assert(after =~= nodes.drop_last());
    } else {
        lemma_primaries_remove(nodes.drop_last(), i);
        assert(after.drop_last() =~= nodes.drop_last().remove(i));
        assert(after.last() == nodes.last());
    }
}

/// There are no more primaries than entries.
pub proof fn lemma_primaries_bound<T>(nodes: Seq<Node<T>>)
    ensures
        primaries(nodes) <= nodes.len(),
    decreases nodes.len(),
{
    if nodes.len() > 0 {
        lemma_primaries_bound(nodes.drop_last());
    }
}

/// If no entry is a primary, every entry is a daemon, and conversely.
pub proof fn lemma_primaries_zero<T>(nodes: Seq<Node<T>>)
    ensures
        primaries(nodes) == 0 <==> forall|i: int|
            0 <= i < nodes.len() ==> (#[trigger] nodes[i]).daemon,
    decreases nodes.len(),
{
    if nodes.len() > 0 {
        lemma_primaries_zero(nodes.drop_last());
        let front = nodes.drop_last();
        if primaries(nodes) == 0 {
            assert forall|i: int| 0 <= i < nodes.len() implies (#[trigger] nodes[i]).daemon by {
                if i < nodes.len() - 1 {
                    assert(front[i].daemon);
                }
            }
        }
        if forall|i: int| 0 <= i < nodes.len() ==> (#[trigger] nodes[i]).daemon {
            assert forall|i: int| 0 <= i < front.len() implies (#[trigger] front[i]).daemon by {
                assert(nodes[i].daemon);
            }
            assert(nodes.last() == nodes[nodes.len() - 1]);
        }
    }
}

/// An inconsistent tick makes progress: it takes one identifier off the
/// ready queue and leaves the entries alone.
pub proof fn lemma_inconsistent_shrinks<T>(pre: Scheduler<T>, post: Scheduler<T>)
    requires
        pre.ticked(post, Tick::Inconsistent),
    ensures
        post.ready().len() + 1 == pre.ready().len(),
        post.nodes() == pre.nodes(),
{
}

/// Retrying after an inconsistent tick cannot go on for ever: in a run of
/// ticks in which each is inconsistent, there are no more ticks than
/// identifiers in the ready queue at the start. `trace` holds the states of
/// the scheduler before the first tick and after each.
pub proof fn lemma_inconsistent_bounded<T>(trace: Seq<Scheduler<T>>)
    requires
        trace.len() > 0,
        forall|k: int|
            0 <= k < trace.len() - 1 ==> #[trigger] trace[k].ticked(
                trace[k + 1],
                Tick::Inconsistent,
            ),
    ensures
        trace.len() - 1 + trace.last().ready().len() == trace[0].ready().len(),
        trace.len() - 1 <= trace[0].ready().len(),
    decreases trace.len(),
{
    if trace.len() > 1 {
        let front = trace.drop_last();
        assert forall|k: int| 0 <= k < front.len() - 1 implies #[trigger] front[k].ticked(
            front[k + 1],
            Tick::Inconsistent,
        ) by {
            assert(trace[k].ticked(trace[k + 1], Tick::Inconsistent));
        }
        lemma_inconsistent_bounded(front);
        let k = trace.len() - 2;
        assert(trace[k].ticked(trace[k + 1], Tick::Inconsistent));
        assert(front.last() == trace[k]);
    }
}

} // verus!
