//! Subscriptions: the registry that hands out their ids, and the decisions
//! of the task that serves one.
use vstd::prelude::*;
use crate::interest::{
    appended, buffer_items, buffer_len, law_buffer_extend_keeps_order, same_kind, InterestKind, SubItem,
    SubscriptionBuffer,
};

verus! {

/// The live subscriptions, by id, each with the handle that cancels its
/// task. Ids are handed out in increasing order from 1 and never reused.
#[derive(Debug)]
pub struct SubscriptionManager<T> {
    next_id: u64,
    tasks: Vec<(u64, T)>,
}

impl<T> SubscriptionManager<T> {
    /// The next id to hand out.
    pub closed spec fn spec_next_id(self) -> u64 {
        self.next_id
    }

    /// The live subscriptions with their ids, oldest first.
    pub closed spec fn spec_tasks(self) -> Seq<(u64, T)> {
        self.tasks@
    }

    /// True if subscription `id` is live.
    pub open spec fn spec_contains(self, id: u64) -> bool {
        exists|i: int| 0 <= i < self.spec_tasks().len() && #[trigger] self.spec_tasks()[i].0 == id
    }

    /// The registry's invariant: ids start from 1, increase strictly, and
    /// lie below the next id.
    pub open spec fn wf(self) -> bool {
        let ts = self.spec_tasks();
        &&& self.spec_next_id() >= 1
        &&& forall|i: int, j: int| 0 <= i < j < ts.len() ==> #[trigger] ts[i].0 < #[trigger] ts[j].0
        &&& forall|i: int| 0 <= i < ts.len() ==> 1 <= #[trigger] ts[i].0 < self.spec_next_id()
    }

    /// A registry with no subscriptions; the first id is 1.
    pub fn new() -> (r: Self)
        ensures
            r.wf(),
            r.spec_next_id() == 1,
            r.spec_tasks().len() == 0,
    {
        SubscriptionManager { next_id: 1, tasks: Vec::new() }
    }

    /// Registers a subscription whose task is cancelled through `token`.
    /// Returns `None`, registering nothing, when notifications are
    /// disabled; otherwise the new subscription's id.
    pub fn subscribe(&mut self, notifications_enabled: bool, token: T) -> (r: Option<u64>)
        requires
            old(self).wf(),
            old(self).spec_next_id() < u64::MAX,
        ensures
            spec_subscribed(*old(self), notifications_enabled, token, r, *final(self)),
    {
        if !notifications_enabled {
            return None;
        }
        let id = self.next_id;
        self.next_id = id + 1;
        self.tasks.push((id, token));
        proof {
            assert(self.spec_tasks().drop_last() =~= old(self).spec_tasks());
            assert forall|j: int| 0 <= j < old(self).spec_tasks().len() implies #[trigger] self.spec_tasks()[j]
                == old(self).spec_tasks()[j] by {}
        }
        Some(id)
    }

    /// Unregisters subscription `id`, handing back its cancellation handle
    /// (the caller cancels the task), or `None` if there is no such
    /// subscription.
    pub fn unsubscribe(&mut self, id: u64) -> (r: Option<T>)
        requires
            old(self).wf(),
        ensures
            spec_unsubscribed(*old(self), id, r, *final(self)),
    {
        let mut i: usize = 0;
        while i < self.tasks.len()
            invariant
                old(self).wf(),
                self.tasks@ == old(self).tasks@,
                self.next_id == old(self).next_id,
                0 <= i <= self.tasks@.len(),
                forall|j: int| 0 <= j < i ==> self.tasks@[j].0 != id,
            decreases self.tasks@.len() - i,
        {
            if self.tasks[i].0 == id {
                let (_, token) = self.tasks.remove(i);
                proof {
                    let ts = self.spec_tasks();
                    let olds = old(self).spec_tasks();
                    assert(ts =~= olds.remove(i as int));
                    assert forall|j: int, k: int| 0 <= j < k < ts.len() implies #[trigger] ts[j].0 < #[trigger] ts[k].0 by {
                        let jj = if j < i { j } else { j + 1 };
                        let kk = if k < i { k } else { k + 1 };
                        assert(ts[j] == olds[jj]);
                        assert(ts[k] == olds[kk]);
                        assert(olds[jj].0 < olds[kk].0);
                    }
                    assert forall|j: int| 0 <= j < ts.len() implies 1 <= #[trigger] ts[j].0 < self.spec_next_id() by {
                        let jj = if j < i { j } else { j + 1 };
                        assert(ts[j] == olds[jj]);
                    }
                    assert forall|j: int| 0 <= j < ts.len() implies #[trigger] ts[j].0 != id by {
                        let jj = if j < i { j } else { j + 1 };
                        assert(ts[j] == olds[jj]);
                        if jj < i {
                            assert(olds[jj].0 < olds[i as int].0);
                        } else {
                            assert(olds[i as int].0 < olds[jj].0);
                        }
                    }
                    assert(olds[i as int] == (id, token));
                }
                return Some(token);
            }
            i = i + 1;
        }
        proof {
            assert(self.spec_tasks() == old(self).spec_tasks());
            assert(self.spec_next_id() == old(self).spec_next_id());
            assert(!self.spec_contains(id));
        }
        None
    }

    /// Drops the subscriptions whose tasks `is_cancelled` reports as
    /// cancelled. The ones kept are unchanged, keep their order, and were
    /// reported as not cancelled.
    pub fn remove_cancelled<P: Fn(&T) -> bool>(&mut self, is_cancelled: P)
        requires
            old(self).wf(),
            forall|t: &T| call_requires(is_cancelled, (t,)),
        ensures
            final(self).wf(),
            final(self).spec_next_id() == old(self).spec_next_id(),
            forall|i: int|
                0 <= i < final(self).spec_tasks().len() ==> {
                    &&& old(self).spec_tasks().contains(#[trigger] final(self).spec_tasks()[i])
                    &&& call_ensures(is_cancelled, (&final(self).spec_tasks()[i].1,), false)
                },
            forall|i: int|
                0 <= i < old(self).spec_tasks().len() ==> final(self).spec_tasks().contains(
                    #[trigger] old(self).spec_tasks()[i],
                ) || call_ensures(is_cancelled, (&old(self).spec_tasks()[i].1,), true),
    {
        let ghost olds = self.tasks@;
        proof {
            assert(olds == old(self).spec_tasks());
            assert(forall|j: int, k: int|
                0 <= j < k < olds.len() ==> #[trigger] olds[j].0 < #[trigger] olds[k].0);
            assert(forall|j: int| 0 <= j < olds.len() ==> 1 <= #[trigger] olds[j].0 < self.next_id);
        }
        let mut old_tasks: Vec<(u64, T)> = Vec::new();
        std::mem::swap(&mut old_tasks, &mut self.tasks);
        let n = old_tasks.len();
        let mut i: usize = 0;
        while i < n
            invariant
                n == olds.len(),
                0 <= i <= n,
                old_tasks@ == olds.subrange(i as int, n as int),
                self.next_id == old(self).next_id,
                self.next_id >= 1,
                forall|t: &T| call_requires(is_cancelled, (t,)),
                forall|j: int, k: int|
                    0 <= j < k < olds.len() ==> #[trigger] olds[j].0 < #[trigger] olds[k].0,
                forall|j: int| 0 <= j < olds.len() ==> 1 <= #[trigger] olds[j].0 < self.next_id,
                forall|k: int|
                    0 <= k < i ==> self.tasks@.contains(#[trigger] olds[k]) || call_ensures(
                        is_cancelled,
                        (&olds[k].1,),
                        true,
                    ),
                forall|j: int|
                    0 <= j < self.tasks@.len() ==> (exists|k: int|
                        0 <= k < i && #[trigger] self.tasks@[j] == olds[k]) && call_ensures(
                        is_cancelled,
                        (&self.tasks@[j].1,),
                        false,
                    ),
                forall|j: int, k: int|
                    0 <= j < k < self.tasks@.len() ==> #[trigger] self.tasks@[j].0
                        < #[trigger] self.tasks@[k].0,
                forall|j: int| 0 <= j < self.tasks@.len() ==> #[trigger] self.tasks@[j].0 < (
                    if i < n {
                        olds[i as int].0
                    } else {
                        self.next_id
                    }),
            decreases n - i,
        {
            let entry = old_tasks.remove(0);
            assert(entry == olds[i as int]);
            let cancelled = is_cancelled(&entry.1);
            if !cancelled {
                let ghost before = self.tasks@;
                self.tasks.push(entry);
                proof {
                    assert(self.tasks@[before.len() as int] == entry);
                    assert forall|k: int| 0 <= k < i + 1 implies self.tasks@.contains(#[trigger] olds[k]) || call_ensures(
                        is_cancelled,
                        (&olds[k].1,),
                        true,
                    ) by {
                        if k < i && before.contains(olds[k]) {
                            let w = choose|w: int| 0 <= w < before.len() && before[w] == olds[k];
                            assert(self.tasks@[w] == olds[k]);
                        }
                        if k == i {
                            assert(self.tasks@[before.len() as int] == olds[k]);
                        }
                    }
                    assert forall|j: int| 0 <= j < self.tasks@.len() implies (exists|k: int|
                        0 <= k < i + 1 && #[trigger] self.tasks@[j] == olds[k]) && call_ensures(
                        is_cancelled,
                        (&self.tasks@[j].1,),
                        false,
                    ) by {
                        if j < before.len() {
                            let k = choose|k: int| 0 <= k < i && #[trigger] before[j] == olds[k];
                            assert(self.tasks@[j] == olds[k]);
                        } else {
                            assert(self.tasks@[j] == olds[i as int]);
                        }
                    }
                }
            }
            proof {
                if i + 1 < n {
                    assert(olds[i as int].0 < olds[i + 1].0);
                }
                assert forall|j: int| 0 <= j < self.tasks@.len() implies #[trigger] self.tasks@[j].0 < (
                    if i + 1 < n {
                        olds[i + 1].0
                    } else {
                        self.next_id
                    }) by {
                    let k = choose|k: int| 0 <= k < i + 1 && #[trigger] self.tasks@[j] == olds[k];
                    if i + 1 < n {
                        assert(olds[k].0 <= olds[i as int].0);
                    }
                }
            }
            assert(old_tasks@ =~= olds.subrange(i + 1, n as int));
            i = i + 1;
        }
        proof {
            assert forall|j: int| 0 <= j < self.tasks@.len() implies olds.contains(
                #[trigger] self.tasks@[j],
            ) by {
                let k = choose|k: int| 0 <= k < n && #[trigger] self.tasks@[j] == olds[k];
                assert(olds[k] == self.tasks@[j]);
            }
            assert forall|j: int| 0 <= j < self.tasks@.len() implies 1 <= #[trigger] self.tasks@[j].0 < self.next_id by {
                let k = choose|k: int| 0 <= k < n && #[trigger] self.tasks@[j] == olds[k];
            }
        }
    }
}

/// What happened while a subscription task waited.
#[derive(Debug)]
pub enum TaskEvent<L, H> {
    /// The client disconnected.
    ClientDisconnected,
    /// The subscription was cancelled by an unsubscribe request.
    Unsubscribed,
    /// The channel to the client closed while waiting for capacity.
    PermitsClosed,
    /// Capacity to send this many notifications was granted.
    Permits(usize),
    /// A chain notification arrived; this is what the interest selects of
    /// it.
    Notification(SubscriptionBuffer<L, H>),
    /// Chain notifications were missed.
    Lagged,
    /// The stream of chain notifications closed.
    NotificationsClosed,
}

/// What a subscription task does next.
#[derive(Debug)]
pub enum TaskAction<L, H> {
    /// Cancel the subscription's handle, so that it is reaped, and stop.
    CancelAndStop,
    /// Stop.
    Stop,
    /// Send these items to the client, in order, then go on.
    Send(Vec<SubItem<L, H>>),
    /// Go on waiting.
    Continue,
}

/// The state of a subscription task: what it owes the client.
#[derive(Debug)]
pub struct SubscriptionState<L, H> {
    buffer: SubscriptionBuffer<L, H>,
}

impl<L, H> SubscriptionState<L, H> {
    /// The items owed to the client.
    pub closed spec fn spec_buffer(self) -> SubscriptionBuffer<L, H> {
        self.buffer
    }

    /// A task for `interest`, owing nothing yet.
    pub fn new<F>(interest: &InterestKind<F>) -> (r: Self)
        ensures
            buffer_len(r.spec_buffer()) == 0,
            interest is Log ==> r.spec_buffer() is Log,
            interest is Block ==> r.spec_buffer() is Block,
    {
        SubscriptionState { buffer: interest.empty_sub_buffer() }
    }

    /// How many send permits to wait for: none while nothing is owed (wait
    /// on the other events only), else what is owed, capped at half the
    /// channel's capacity.
    pub fn permits_to_request(&self, max_capacity: usize) -> (r: Option<usize>)
        ensures
            buffer_len(self.spec_buffer()) == 0 ==> r is None,
            buffer_len(self.spec_buffer()) > 0 ==> r == Some(
                if (max_capacity / 2) as nat <= buffer_len(self.spec_buffer()) {
                    (max_capacity / 2) as usize
                } else {
                    buffer_len(self.spec_buffer()) as usize
                },
            ),
    {
        let len = self.buffer.len();
        if len == 0 {
            return None;
        }
        let half = max_capacity / 2;
        if half <= len {
            Some(half)
        } else {
            Some(len)
        }
    }

    /// Handles one event. A disconnect cancels and stops; an unsubscribe
    /// or a closed channel or stream stops; granted permits send as many
    /// owed items as permits, oldest first; a notification adds what it
    /// selected to what is owed; missed notifications are skipped.
    pub fn step(&mut self, event: TaskEvent<L, H>) -> (r: TaskAction<L, H>)
        requires
            event matches TaskEvent::Notification(b) ==> buffer_len(b) == 0 || same_kind(
                old(self).spec_buffer(),
                b,
            ),
        ensures
            same_kind(old(self).spec_buffer(), final(self).spec_buffer()),
            conserves(old(self).spec_buffer(), event, r, final(self).spec_buffer()),
            match event {
                TaskEvent::ClientDisconnected => r is CancelAndStop && *final(self) == *old(self),
                TaskEvent::Unsubscribed => r is Stop && *final(self) == *old(self),
                TaskEvent::PermitsClosed => r is Stop && *final(self) == *old(self),
                TaskEvent::NotificationsClosed => r is Stop && *final(self) == *old(self),
                TaskEvent::Lagged => r is Continue && *final(self) == *old(self),
                TaskEvent::Notification(b) => r is Continue && (buffer_len(b) == 0 ==> *final(self)
                    == *old(self)) && buffer_len(final(self).spec_buffer()) == buffer_len(
                    old(self).spec_buffer(),
                ) + buffer_len(b) && (buffer_len(b) > 0 ==> appended(
                    old(self).spec_buffer(),
                    b,
                    final(self).spec_buffer(),
                )),
                TaskEvent::Permits(n) => r matches TaskAction::Send(items) && {
                    let k = if n as nat <= buffer_len(old(self).spec_buffer()) {
                        n as nat
                    } else {
                        buffer_len(old(self).spec_buffer())
                    };
                    &&& items@.len() == k
                    &&& buffer_len(final(self).spec_buffer()) == buffer_len(old(self).spec_buffer()) - k
                    &&& old(self).spec_buffer() matches SubscriptionBuffer::Log(v) ==> (final(self).spec_buffer() matches SubscriptionBuffer::Log(w) && w@ == v@.subrange(
                        k as int,
                        v@.len() as int,
                    ) && forall|i: int|
                        0 <= i < k ==> #[trigger] items@[i] == SubItem::<L, H>::Log(
                            Box::new(v@[i]),
                        ))
                    &&& old(self).spec_buffer() matches SubscriptionBuffer::Block(v) ==> (final(self).spec_buffer() matches SubscriptionBuffer::Block(w) && w@ == v@.subrange(
                        k as int,
                        v@.len() as int,
                    ) && forall|i: int|
                        0 <= i < k ==> #[trigger] items@[i] == SubItem::<L, H>::Block(
                            Box::new(v@[i]),
                        ))
                },
            },
    {
        let ghost items0 = buffer_items(self.buffer);
        proof {
            assert(Seq::<SubItem<L, H>>::empty() + items0 =~= items0 + Seq::<SubItem<L, H>>::empty());
        }
        match event {
            TaskEvent::ClientDisconnected => TaskAction::CancelAndStop,
            TaskEvent::Unsubscribed => TaskAction::Stop,
            TaskEvent::PermitsClosed => TaskAction::Stop,
            TaskEvent::NotificationsClosed => TaskAction::Stop,
            TaskEvent::Lagged => TaskAction::Continue,
            TaskEvent::Notification(output) => {
                let ghost b = output;
                if !output.is_empty() {
                    self.buffer.extend(output);
                    proof {
                        law_buffer_extend_keeps_order(old(self).spec_buffer(), b, self.buffer);
                    }
                } else {
                    proof {
                        assert(buffer_items(b) =~= Seq::<SubItem<L, H>>::empty());
                    }
                }
                TaskAction::Continue
            },
            TaskEvent::Permits(n) => {
                let ghost start = self.buffer;
                let mut items: Vec<SubItem<L, H>> = Vec::new();
                let mut sent: usize = 0;
                while sent < n
                    invariant
                        same_kind(start, self.buffer),
                        0 <= sent <= n,
                        sent <= buffer_len(start),
                        items@.len() == sent,
                        buffer_len(self.buffer) == buffer_len(start) - sent,
                        start matches SubscriptionBuffer::Log(v) ==> (self.buffer matches SubscriptionBuffer::Log(w)
                            && w@ == v@.subrange(sent as int, v@.len() as int) && forall|i: int|
                            0 <= i < sent ==> #[trigger] items@[i] == SubItem::<L, H>::Log(Box::new(v@[i]))),
                        start matches SubscriptionBuffer::Block(v) ==> (self.buffer matches SubscriptionBuffer::Block(w)
                            && w@ == v@.subrange(sent as int, v@.len() as int) && forall|i: int|
                            0 <= i < sent ==> #[trigger] items@[i] == SubItem::<L, H>::Block(Box::new(v@[i]))),
                    ensures
                        sent == (if n as nat <= buffer_len(start) { n as nat } else { buffer_len(start) }),
                        same_kind(start, self.buffer),
                        items@.len() == sent,
                        buffer_len(self.buffer) == buffer_len(start) - sent,
                        start matches SubscriptionBuffer::Log(v) ==> (self.buffer matches SubscriptionBuffer::Log(w)
                            && w@ == v@.subrange(sent as int, v@.len() as int) && forall|i: int|
                            0 <= i < sent ==> #[trigger] items@[i] == SubItem::<L, H>::Log(Box::new(v@[i]))),
                        start matches SubscriptionBuffer::Block(v) ==> (self.buffer matches SubscriptionBuffer::Block(w)
                            && w@ == v@.subrange(sent as int, v@.len() as int) && forall|i: int|
                            0 <= i < sent ==> #[trigger] items@[i] == SubItem::<L, H>::Block(Box::new(v@[i]))),
                    decreases n - sent,
                {
                    let ghost before = self.buffer;
                    match self.buffer.pop_front() {
                        Some(item) => {
                            items.push(item);
                            proof {
                                match start {
                                    SubscriptionBuffer::Log(v) => {
                                        let w = before->Log_0@;
                                        assert(w[0] == v@[sent as int]);
                                        assert(self.buffer->Log_0@ =~= v@.subrange(sent + 1, v@.len() as int));
                                    },
                                    SubscriptionBuffer::Block(v) => {
                                        let w = before->Block_0@;
                                        assert(w[0] == v@[sent as int]);
                                        assert(self.buffer->Block_0@ =~= v@.subrange(sent + 1, v@.len() as int));
                                    },
                                }
                            }
                            sent = sent + 1;
                        },
                        None => {
                            break;
                        },
                    }
                }
                proof {
                    lemma_items_sent(start, items@, sent as int, self.buffer);
                }
                TaskAction::Send(items)
            },
        }
    }
}

/// The items an action sends.
pub open spec fn sent_items<L, H>(a: TaskAction<L, H>) -> Seq<SubItem<L, H>> {
    match a {
        TaskAction::Send(items) => items@,
        _ => Seq::empty(),
    }
}

/// The items an event brings.
pub open spec fn notified_items<L, H>(e: TaskEvent<L, H>) -> Seq<SubItem<L, H>> {
    match e {
        TaskEvent::Notification(b) => buffer_items(b),
        _ => Seq::empty(),
    }
}

/// True if a step from buffer `before` on event `e` to buffer `after`
/// with action `a` loses and invents nothing: the items sent, then those
/// left, are the items held before, then those the event brought.
pub open spec fn conserves<L, H>(
    before: SubscriptionBuffer<L, H>,
    e: TaskEvent<L, H>,
    a: TaskAction<L, H>,
    after: SubscriptionBuffer<L, H>,
) -> bool {
    sent_items(a) + buffer_items(after) == buffer_items(before) + notified_items(e)
}

/// Sending the first `k` items of a buffer and keeping the rest keeps every
/// item once, in order.
proof fn lemma_items_sent<L, H>(start: SubscriptionBuffer<L, H>, items: Seq<SubItem<L, H>>, k: int, rest: SubscriptionBuffer<L, H>)
    requires
        0 <= k <= buffer_len(start),
        items.len() == k,
        start matches SubscriptionBuffer::Log(v) ==> (rest matches SubscriptionBuffer::Log(w)
            && w@ == v@.subrange(k, v@.len() as int) && forall|i: int|
            0 <= i < k ==> #[trigger] items[i] == SubItem::<L, H>::Log(Box::new(v@[i]))),
        start matches SubscriptionBuffer::Block(v) ==> (rest matches SubscriptionBuffer::Block(w)
            && w@ == v@.subrange(k, v@.len() as int) && forall|i: int|
            0 <= i < k ==> #[trigger] items[i] == SubItem::<L, H>::Block(Box::new(v@[i]))),
    ensures
        items + buffer_items(rest) == buffer_items(start) + Seq::<SubItem<L, H>>::empty(),
{
    assert(items + buffer_items(rest) =~= buffer_items(start) + Seq::<SubItem<L, H>>::empty());
}

/// What a run of task steps delivers: if each step from `states[i]` on
/// `events[i]` to `states[i + 1]` with `actions[i]` is as
/// [`SubscriptionState::step`] ensures, every item held at the start or
/// brought by a notification is sent exactly once, in order, or is still
/// held: the items sent over the run, then those left, are the items held
/// at the start, then those of every notification in turn.
pub proof fn law_task_run_delivers_in_order<L, H>(
    states: Seq<SubscriptionBuffer<L, H>>,
    events: Seq<TaskEvent<L, H>>,
    actions: Seq<TaskAction<L, H>>,
)
    requires
        states.len() == events.len() + 1,
        actions.len() == events.len(),
        forall|i: int|
            0 <= i < events.len() ==> #[trigger] conserves(states[i], events[i], actions[i], states[i + 1]),
    ensures
        run_sent(actions) + buffer_items(states.last()) == buffer_items(states[0]) + run_notified(events),
    decreases events.len(),
{
    if events.len() > 0 {
        let n = events.len() - 1;
        let s2 = states.drop_last();
        assert forall|i: int| 0 <= i < events.drop_last().len() implies #[trigger] conserves(
            s2[i],
            events.drop_last()[i],
            actions.drop_last()[i],
            s2[i + 1],
        ) by {
            assert(conserves(states[i], events[i], actions[i], states[i + 1]));
        }
        law_task_run_delivers_in_order(s2, events.drop_last(), actions.drop_last());
        assert(conserves(states[n], events[n], actions[n], states[n + 1]));
        assert(s2.last() == states[n]);
        assert(states.last() == states[n + 1]);
        assert(run_sent(actions) == run_sent(actions.drop_last()) + sent_items(actions.last()));
        assert(run_notified(events) == run_notified(events.drop_last()) + notified_items(events.last()));
        assert(run_sent(actions) + buffer_items(states.last()) =~= run_sent(actions.drop_last()) + (sent_items(actions[n]) + buffer_items(states[n + 1])));
        assert(buffer_items(states[0]) + run_notified(events) =~= (buffer_items(states[0]) + run_notified(events.drop_last())) + notified_items(events[n]));
    } else {
        assert(run_sent(actions) =~= Seq::<SubItem<L, H>>::empty());
        assert(run_notified(events) =~= Seq::<SubItem<L, H>>::empty());
        assert(buffer_items(states.last()) + Seq::<SubItem<L, H>>::empty() =~= buffer_items(states[0]));
    }
}

/// The items sent over a run of actions, in order.
pub open spec fn run_sent<L, H>(actions: Seq<TaskAction<L, H>>) -> Seq<SubItem<L, H>>
    decreases actions.len(),
{
    if actions.len() == 0 {
        Seq::empty()
    } else {
        run_sent(actions.drop_last()) + sent_items(actions.last())
    }
}

/// The items brought over a run of events, in order.
pub open spec fn run_notified<L, H>(events: Seq<TaskEvent<L, H>>) -> Seq<SubItem<L, H>>
    decreases events.len(),
{
    if events.len() == 0 {
        Seq::empty()
    } else {
        run_notified(events.drop_last()) + notified_items(events.last())
    }
}

/// What `subscribe` does: with notifications disabled it registers
/// nothing and answers `None`; otherwise it registers `token` under the
/// next id, which no live subscription has, answers that id, and moves the
/// next id on by one. The registry stays well formed.
pub open spec fn spec_subscribed<T>(
    before: SubscriptionManager<T>,
    enabled: bool,
    token: T,
    r: Option<u64>,
    after: SubscriptionManager<T>,
) -> bool {
    &&& after.wf()
    &&& !enabled ==> r is None && after.spec_tasks() == before.spec_tasks() && after.spec_next_id()
        == before.spec_next_id()
    &&& enabled ==> {
        &&& r == Some(before.spec_next_id())
        &&& !before.spec_contains(before.spec_next_id())
        &&& after.spec_next_id() == before.spec_next_id() + 1
        &&& after.spec_tasks() == before.spec_tasks().push((before.spec_next_id(), token))
    }
}

/// What `unsubscribe` does: subscription `id` is live afterwards in no
/// case; if it was live, its entry is removed and its handle answered,
/// otherwise nothing changes and the answer is `None`. The next id stays
/// and the registry stays well formed.
pub open spec fn spec_unsubscribed<T>(
    before: SubscriptionManager<T>,
    id: u64,
    r: Option<T>,
    after: SubscriptionManager<T>,
) -> bool {
    &&& after.wf()
    &&& after.spec_next_id() == before.spec_next_id()
    &&& !after.spec_contains(id)
    &&& r is Some <==> before.spec_contains(id)
    &&& !before.spec_contains(id) ==> after.spec_tasks() == before.spec_tasks()
    &&& before.spec_contains(id) ==> exists|i: int|
        0 <= i < before.spec_tasks().len() && #[trigger] before.spec_tasks()[i] == (id, r->Some_0)
            && after.spec_tasks() == before.spec_tasks().remove(i)
}

/// The number of `true`s in `s`.
pub open spec fn count_true(s: Seq<bool>) -> nat
    decreases s.len(),
{
    if s.len() == 0 {
        0
    } else {
        count_true(s.drop_last()) + if s.last() { 1nat } else { 0nat }
    }
}

/// Over a run of `subscribe` calls on a fresh registry, the calls with
/// notifications enabled get the ids 1, 2, 3, ... in call order, and the
/// others get `None`: call `i` answers `1 +` the number of enabled calls
/// before it.
pub proof fn law_subscription_ids_count_up<T>(
    ms: Seq<SubscriptionManager<T>>,
    enabled: Seq<bool>,
    tokens: Seq<T>,
    results: Seq<Option<u64>>,
)
    requires
        ms.len() == enabled.len() + 1,
        tokens.len() == enabled.len(),
        results.len() == enabled.len(),
        ms[0].spec_next_id() == 1,
        forall|i: int|
            0 <= i < enabled.len() ==> #[trigger] spec_subscribed(ms[i], enabled[i], tokens[i], results[i], ms[i + 1]),
    ensures
        forall|i: int|
            0 <= i < enabled.len() ==> #[trigger] results[i] == if enabled[i] {
                Some((1 + count_true(enabled.take(i))) as u64)
            } else {
                None
            },
        ms.last().spec_next_id() == 1 + count_true(enabled),
{
    lemma_next_ids(ms, enabled, tokens, results, enabled.len() as int);
    assert forall|i: int| 0 <= i < enabled.len() implies #[trigger] results[i] == if enabled[i] {
        Some((1 + count_true(enabled.take(i))) as u64)
    } else {
        None
    } by {
        lemma_next_ids(ms, enabled, tokens, results, i);
        assert(spec_subscribed(ms[i], enabled[i], tokens[i], results[i], ms[i + 1]));
    }
    assert(enabled.take(enabled.len() as int) =~= enabled);
}

/// Over the first `k` calls of such a run, the next id moves on by one per
/// enabled call.
proof fn lemma_next_ids<T>(
    ms: Seq<SubscriptionManager<T>>,
    enabled: Seq<bool>,
    tokens: Seq<T>,
    results: Seq<Option<u64>>,
    k: int,
)
    requires
        ms.len() == enabled.len() + 1,
        tokens.len() == enabled.len(),
        results.len() == enabled.len(),
        ms[0].spec_next_id() == 1,
        forall|i: int|
            0 <= i < enabled.len() ==> #[trigger] spec_subscribed(ms[i], enabled[i], tokens[i], results[i], ms[i + 1]),
        0 <= k <= enabled.len(),
    ensures
        ms[k].spec_next_id() == 1 + count_true(enabled.take(k)),
    decreases k,
{
    if k > 0 {
        lemma_next_ids(ms, enabled, tokens, results, k - 1);
        let j = k - 1;
        assert(spec_subscribed(ms[j], enabled[j], tokens[j], results[j], ms[j + 1]));
        assert(enabled.take(k).drop_last() =~= enabled.take(k - 1));
        assert(enabled.take(k).last() == enabled[k - 1]);
    } else {
        assert(enabled.take(0) =~= Seq::<bool>::empty());
    }
}

/// A subscription is cancelled once: after `subscribe` answered `id` for
/// `token`, the first `unsubscribe(id)` hands `token` back, and a second
/// one answers `None`.
pub proof fn law_unsubscribe_once<T>(
    m0: SubscriptionManager<T>,
    token: T,
    id: u64,
    m1: SubscriptionManager<T>,
    r1: Option<T>,
    m2: SubscriptionManager<T>,
    r2: Option<T>,
    m3: SubscriptionManager<T>,
)
    requires
        m0.wf(),
        spec_subscribed(m0, true, token, Some(id), m1),
        spec_unsubscribed(m1, id, r1, m2),
        spec_unsubscribed(m2, id, r2, m3),
    ensures
        r1 == Some(token),
        r2 is None,
{
    let ts = m1.spec_tasks();
    let last = ts.len() - 1;
    assert(ts[last] == (id, token));
    assert(m1.spec_tasks()[last].0 == id);
    assert(m1.spec_contains(id));
    let i = choose|i: int| 0 <= i < ts.len() && #[trigger] ts[i] == (id, r1->Some_0) && m2.spec_tasks()
        == ts.remove(i);
    if i != last {
        assert(ts[i].0 < ts[last].0);
    }
}

/// The answer to a subscription request: the new subscription's id, or an
/// error when the node does not offer subscriptions.
pub fn subscription_answer(id: Option<u64>) -> (r: Result<u64, String>)
    ensures
        match id {
            Some(i) => r == Ok::<u64, String>(i),
            None => r matches Err(m) && m@ == "pubsub not enabled"@,
        },
{
    match id {
        Some(i) => Ok(i),
        None => Err(String::from_str("pubsub not enabled")),
    }
}

} // verus!
