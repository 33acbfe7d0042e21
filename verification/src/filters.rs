//! Installed RPC filters: when each was last polled, from which block its
//! next poll starts, and the registry that hands out their ids.
use vstd::prelude::*;
use std::time::{Duration, Instant};
use crate::interest::InterestKind;

verus! {

/// A point in time, as `std::time::Instant` measures it.
#[verifier::external_type_specification]
#[verifier::external_body]
pub struct ExInstant(Instant);

/// Calls `Instant::now`. Nothing is claimed of the result, which is the
/// time of the call.
#[verifier::external_body]
fn instant_now() -> Instant {
    Instant::now()
}

/// Calls `Instant::elapsed`. Nothing is claimed of the result, which
/// depends on the time of the call.
#[verifier::external_body]
fn instant_elapsed(i: &Instant) -> Duration {
    i.elapsed()
}

/// The length of the duration `d` in nanoseconds, as `Duration::as_nanos`
/// counts it.
pub uninterp spec fn duration_nanos(d: Duration) -> u128;

/// Calls `Duration::as_nanos`. The contract claims only that the count is
/// a function of the duration (it is named, not restated).
#[verifier::external_body]
fn duration_as_nanos(d: &Duration) -> (r: u128)
    ensures
        r == duration_nanos(*d),
{
    d.as_nanos()
}

/// The stale marks of filters whose times since their last polls are
/// `elapsed` (in nanoseconds): a filter is stale when its time reaches
/// `limit`.
pub open spec fn spec_stale_marks(elapsed: Seq<u128>, limit: u128) -> Seq<bool> {
    elapsed.map_values(|e: u128| e >= limit)
}

/// Marks as stale each filter whose time since its last poll, `elapsed[i]`
/// in nanoseconds, is at least `limit`.
pub fn stale_marks(elapsed: &Vec<u128>, limit: u128) -> (r: Vec<bool>)
    ensures
        r@.len() == elapsed@.len(),
        forall|i: int| 0 <= i < r@.len() ==> r@[i] == (elapsed@[i] >= limit),
        r@ == spec_stale_marks(elapsed@, limit),
{
    let mut out: Vec<bool> = Vec::new();
    let mut i: usize = 0;
    while i < elapsed.len()
        invariant
            0 <= i <= elapsed@.len(),
            out@.len() == i,
            forall|k: int| 0 <= k < i ==> out@[k] == (elapsed@[k] >= limit),
        decreases elapsed@.len() - i,
    {
        out.push(elapsed[i] >= limit);
        i = i + 1;
    }
    assert(out@ =~= spec_stale_marks(elapsed@, limit));
    out
}

/// An installed filter: the first block its next poll considers, when it
/// was last polled, and what it selects.
#[derive(Debug)]
pub struct ActiveFilter<F> {
    next_start_block: u64,
    last_poll_time: Instant,
    kind: InterestKind<F>,
}

impl<F> ActiveFilter<F> {
    /// The first block the next poll considers.
    pub closed spec fn spec_next_start_block(self) -> u64 {
        self.next_start_block
    }

    /// What the filter selects.
    pub closed spec fn spec_kind(self) -> InterestKind<F> {
        self.kind
    }

    /// A filter installed when the chain's tip was `current_block`: its
    /// first poll starts at the next block.
    pub fn new(current_block: u64, kind: InterestKind<F>) -> (r: Self)
        requires
            current_block < u64::MAX,
        ensures
            r.spec_next_start_block() == current_block + 1,
            r.spec_kind() == kind,
    {
        ActiveFilter { next_start_block: current_block + 1, last_poll_time: instant_now(), kind }
    }

    /// True if this is a log filter.
    pub fn is_filter(&self) -> (r: bool)
        ensures
            r == self.spec_kind() is Log,
    {
        self.kind.is_filter()
    }

    /// True if this is a block filter.
    pub fn is_block(&self) -> (r: bool)
        ensures
            r == self.spec_kind() is Block,
    {
        self.kind.is_block()
    }

    /// Fallible cast to a log filter.
    pub fn as_filter(&self) -> (r: Option<&F>)
        ensures
            match self.spec_kind() {
                InterestKind::Log(f) => r == Some(&*f),
                InterestKind::Block => r is None,
            },
    {
        self.kind.as_filter()
    }

    /// The filter's kind.
    pub fn kind(&self) -> (r: &InterestKind<F>)
        ensures
            *r == self.spec_kind(),
    {
        &self.kind
    }

    /// Mark the filter as polled up to `current_block`: its next poll
    /// starts at the block after, and its poll time is now.
    pub fn mark_polled(&mut self, current_block: u64)
        requires
            current_block < u64::MAX,
        ensures
            final(self).spec_next_start_block() == current_block + 1,
            final(self).spec_kind() == old(self).spec_kind(),
    {
        self.next_start_block = current_block + 1;
        self.last_poll_time = instant_now();
    }

    /// The first block the next poll considers.
    pub fn next_start_block(&self) -> (r: u64)
        ensures
            r == self.spec_next_start_block(),
    {
        self.next_start_block
    }

    /// The time since the filter was last polled, as the clock reads it
    /// during the call; nothing is claimed of the value.
    pub fn time_since_last_poll(&self) -> Duration {
        instant_elapsed(&self.last_poll_time)
    }
}

/// The installed filters, by id. Ids are handed out in increasing order,
/// starting from 1, and are never reused.
#[derive(Debug)]
pub struct FilterManager<F> {
    current_id: u64,
    filters: Vec<(u64, ActiveFilter<F>)>,
}

impl<F> FilterManager<F> {
    /// The next id to hand out.
    pub closed spec fn spec_next_id(self) -> u64 {
        self.current_id
    }

    /// The installed filters with their ids, in installation order.
    pub closed spec fn spec_filters(self) -> Seq<(u64, ActiveFilter<F>)> {
        self.filters@
    }

    /// True if a filter with id `id` is installed.
    pub open spec fn spec_contains(self, id: u64) -> bool {
        exists|i: int| 0 <= i < self.spec_filters().len() && #[trigger] self.spec_filters()[i].0 == id
    }

    /// The registry's invariant: ids start from 1, are strictly increasing
    /// in installation order, and lie below the next id.
    pub open spec fn wf(self) -> bool {
        let fs = self.spec_filters();
        &&& self.spec_next_id() >= 1
        &&& forall|i: int, j: int| 0 <= i < j < fs.len() ==> #[trigger] fs[i].0 < #[trigger] fs[j].0
        &&& forall|i: int| 0 <= i < fs.len() ==> 1 <= #[trigger] fs[i].0 < self.spec_next_id()
    }

    /// A registry with no filters; the first id is 1.
    pub fn new() -> (r: Self)
        ensures
            r.wf(),
            r.spec_next_id() == 1,
            r.spec_filters().len() == 0,
    {
        FilterManager { current_id: 1, filters: Vec::new() }
    }

    /// Installs a filter of `kind` while the tip is `current_block`,
    /// returning its id: the next id, which no installed filter has.
    pub fn install(&mut self, current_block: u64, kind: InterestKind<F>) -> (id: u64)
        requires
            old(self).wf(),
            old(self).spec_next_id() < u64::MAX,
            current_block < u64::MAX,
        ensures
            final(self).wf(),
            id == old(self).spec_next_id(),
            !old(self).spec_contains(id),
            final(self).spec_next_id() == id + 1,
            final(self).spec_filters().len() == old(self).spec_filters().len() + 1,
            final(self).spec_filters().drop_last() == old(self).spec_filters(),
            final(self).spec_filters().last().0 == id,
            final(self).spec_filters().last().1.spec_next_start_block() == current_block + 1,
            final(self).spec_filters().last().1.spec_kind() == kind,
    {
        let id = self.current_id;
        self.current_id = id + 1;
        let filter = ActiveFilter::new(current_block, kind);
        self.filters.push((id, filter));
        proof {
            assert(self.spec_filters().drop_last() =~= old(self).spec_filters());
        }
        id
    }

    /// Installs a log filter.
    pub fn install_log_filter(&mut self, current_block: u64, filter: F) -> (id: u64)
        requires
            old(self).wf(),
            old(self).spec_next_id() < u64::MAX,
            current_block < u64::MAX,
        ensures
            final(self).wf(),
            id == old(self).spec_next_id(),
            !old(self).spec_contains(id),
            final(self).spec_filters().drop_last() == old(self).spec_filters(),
            final(self).spec_filters().last().0 == id,
            final(self).spec_filters().last().1.spec_next_start_block() == current_block + 1,
            final(self).spec_filters().last().1.spec_kind() == InterestKind::Log(Box::new(filter)),
    {
        self.install(current_block, InterestKind::Log(Box::new(filter)))
    }

    /// Installs a block filter.
    pub fn install_block_filter(&mut self, current_block: u64) -> (id: u64)
        requires
            old(self).wf(),
            old(self).spec_next_id() < u64::MAX,
            current_block < u64::MAX,
        ensures
            final(self).wf(),
            id == old(self).spec_next_id(),
            !old(self).spec_contains(id),
            final(self).spec_filters().drop_last() == old(self).spec_filters(),
            final(self).spec_filters().last().0 == id,
            final(self).spec_filters().last().1.spec_next_start_block() == current_block + 1,
            final(self).spec_filters().last().1.spec_kind() == InterestKind::<F>::Block,
    {
        self.install(current_block, InterestKind::Block)
    }

    /// The position of filter `id`, if installed.
    fn position(&self, id: u64) -> (r: Option<usize>)
        ensures
            match r {
                Some(i) => i < self.spec_filters().len() && self.spec_filters()[i as int].0 == id,
                None => !self.spec_contains(id),
            },
    {
        let mut i: usize = 0;
        while i < self.filters.len()
            invariant
                0 <= i <= self.filters@.len(),
                forall|j: int| 0 <= j < i ==> self.filters@[j].0 != id,
            decreases self.filters@.len() - i,
        {
            if self.filters[i].0 == id {
                return Some(i);
            }
            i = i + 1;
        }
        None
    }

    /// The filter with id `id`, if installed.
    pub fn get(&self, id: u64) -> (r: Option<&ActiveFilter<F>>)
        requires
            self.wf(),
        ensures
            !self.spec_contains(id) ==> r is None,
            self.spec_contains(id) ==> (r matches Some(f) && exists|i: int|
                0 <= i < self.spec_filters().len() && #[trigger] self.spec_filters()[i]
                    == (id, *f)),
    {
        match self.position(id) {
            Some(i) => Some(&self.filters[i].1),
            None => None,
        }
    }

    /// Marks filter `id` as polled up to `current_block`. False if no such
    /// filter is installed.
    pub fn mark_polled(&mut self, id: u64, current_block: u64) -> (r: bool)
        requires
            old(self).wf(),
            current_block < u64::MAX,
        ensures
            final(self).wf(),
            r == old(self).spec_contains(id),
            final(self).spec_next_id() == old(self).spec_next_id(),
            final(self).spec_filters().len() == old(self).spec_filters().len(),
            forall|i: int|
                0 <= i < old(self).spec_filters().len() ==> {
                    let before = old(self).spec_filters()[i];
                    let after = #[trigger] final(self).spec_filters()[i];
                    &&& after.0 == before.0
                    &&& after.1.spec_kind() == before.1.spec_kind()
                    &&& before.0 != id ==> after == before
                    &&& before.0 == id ==> after.1.spec_next_start_block() == current_block + 1
                },
    {
        match self.position(id) {
            Some(i) => {
                let (fid, mut filter) = self.filters.remove(i);
                filter.mark_polled(current_block);
                self.filters.insert(i, (fid, filter));
                proof {
                    let fs = self.spec_filters();
                    let olds = old(self).spec_filters();
                    assert forall|j: int| 0 <= j < olds.len() && j != i implies fs[j] == olds[j] by {
                    }
                    assert forall|j: int, k: int| 0 <= j < k < fs.len() implies #[trigger] fs[j].0 < #[trigger] fs[k].0 by {
                        assert(olds[j].0 < olds[k].0);
                    }
                    assert forall|j: int| 0 <= j < fs.len() implies 1 <= #[trigger] fs[j].0 < self.spec_next_id() by {
                        assert(fs[j].0 == olds[j].0);
                    }
                    assert forall|j: int| 0 <= j < olds.len() && olds[j].0 == id implies j == i by {
                        if j < i {
                            assert(olds[j].0 < olds[i as int].0);
                        } else if j > i {
                            assert(olds[i as int].0 < olds[j].0);
                        }
                    }
                }
                true
            },
            None => false,
        }
    }

    /// Uninstalls filter `id`, returning it with its id, or `None` if no
    /// such filter is installed.
    pub fn uninstall(&mut self, id: u64) -> (r: Option<(u64, ActiveFilter<F>)>)
        requires
            old(self).wf(),
        ensures
            final(self).wf(),
            final(self).spec_next_id() == old(self).spec_next_id(),
            !final(self).spec_contains(id),
            !old(self).spec_contains(id) ==> r is None && final(self).spec_filters()
                == old(self).spec_filters(),
            old(self).spec_contains(id) ==> (r matches Some(p) && p.0 == id && exists|i: int|
                0 <= i < old(self).spec_filters().len() && #[trigger] old(self).spec_filters()[i]
                    == p && final(self).spec_filters() == old(self).spec_filters().remove(i)),
    {
        match self.position(id) {
            Some(i) => {
                let p = self.filters.remove(i);
                proof {
                    let fs = self.spec_filters();
                    let olds = old(self).spec_filters();
                    assert(fs =~= olds.remove(i as int));
                    assert forall|j: int, k: int| 0 <= j < k < fs.len() implies #[trigger] fs[j].0 < #[trigger] fs[k].0 by {
                        let jj = if j < i { j } else { j + 1 };
                        let kk = if k < i { k } else { k + 1 };
                        assert(fs[j] == olds[jj]);
                        assert(fs[k] == olds[kk]);
                        assert(olds[jj].0 < olds[kk].0);
                    }
                    assert forall|j: int| 0 <= j < fs.len() implies 1 <= #[trigger] fs[j].0 < self.spec_next_id() by {
                        let jj = if j < i { j } else { j + 1 };
                        assert(fs[j] == olds[jj]);
                    }
                    assert forall|j: int| 0 <= j < fs.len() implies #[trigger] fs[j].0 != id by {
                        let jj = if j < i { j } else { j + 1 };
                        assert(fs[j] == olds[jj]);
                        if jj < i {
                            assert(olds[jj].0 < olds[i as int].0);
                        } else {
                            assert(olds[i as int].0 < olds[jj].0);
                        }
                    }
                }
                Some(p)
            },
            None => None,
        }
    }

    /// Drops the filters marked stale: `stale` holds one mark per installed
    /// filter, in installation order. The filters not marked are kept,
    /// unchanged and in order.
    pub fn remove_stale(&mut self, stale: &Vec<bool>)
        requires
            old(self).wf(),
            stale@.len() == old(self).spec_filters().len(),
        ensures
            final(self).wf(),
            final(self).spec_next_id() == old(self).spec_next_id(),
            final(self).spec_filters() == kept_filters(old(self).spec_filters(), stale@),
    {
        let ghost olds = self.filters@;
        proof {
            assert(olds == old(self).spec_filters());
            assert(forall|j: int, k: int|
                0 <= j < k < olds.len() ==> #[trigger] olds[j].0 < #[trigger] olds[k].0);
            assert(forall|j: int| 0 <= j < olds.len() ==> 1 <= #[trigger] olds[j].0 < self.current_id);
            assert(olds.take(0) =~= Seq::<(u64, ActiveFilter<F>)>::empty());
        }
        let mut old_filters: Vec<(u64, ActiveFilter<F>)> = Vec::new();
        std::mem::swap(&mut old_filters, &mut self.filters);
        let n = old_filters.len();
        let mut i: usize = 0;
        while i < n
            invariant
                n == olds.len(),
                stale@.len() == n,
                0 <= i <= n,
                old_filters@ == olds.subrange(i as int, n as int),
                self.filters@ == kept_filters(olds.take(i as int), stale@),
                self.current_id == old(self).current_id,
                self.current_id >= 1,
                forall|j: int, k: int|
                    0 <= j < k < olds.len() ==> #[trigger] olds[j].0 < #[trigger] olds[k].0,
                forall|j: int| 0 <= j < olds.len() ==> 1 <= #[trigger] olds[j].0 < self.current_id,
                forall|j: int|
                    0 <= j < self.filters@.len() ==> exists|k: int|
                        0 <= k < i && #[trigger] self.filters@[j] == olds[k],
                forall|j: int, k: int|
                    0 <= j < k < self.filters@.len() ==> #[trigger] self.filters@[j].0
                        < #[trigger] self.filters@[k].0,
                forall|j: int| 0 <= j < self.filters@.len() ==> #[trigger] self.filters@[j].0 < (
                    if i < n {
                        olds[i as int].0
                    } else {
                        self.current_id
                    }),
            decreases n - i,
        {
            let entry = old_filters.remove(0);
            assert(entry == olds[i as int]);
            proof {
                assert(olds.take(i + 1).drop_last() =~= olds.take(i as int));
                assert(olds.take(i + 1).len() == i + 1);
            }
            if !stale[i] {
                let ghost before = self.filters@;
                self.filters.push(entry);
                proof {
                    assert forall|j: int| 0 <= j < self.filters@.len() implies exists|k: int|
                        0 <= k < i + 1 && #[trigger] self.filters@[j] == olds[k] by {
                        if j < before.len() {
                            let k = choose|k: int| 0 <= k < i && #[trigger] before[j] == olds[k];
                            assert(self.filters@[j] == olds[k]);
                        } else {
                            assert(self.filters@[j] == olds[i as int]);
                        }
                    }
                    assert(self.filters@ =~= kept_filters(olds.take(i + 1), stale@));
                }
            } else {
                proof {
                    assert(self.filters@ =~= kept_filters(olds.take(i + 1), stale@));
                }
            }
            proof {
                if i + 1 < n {
                    assert(olds[i as int].0 < olds[i + 1].0);
                }
                assert forall|j: int| 0 <= j < self.filters@.len() implies #[trigger] self.filters@[j].0 < (
                    if i + 1 < n {
                        olds[i + 1].0
                    } else {
                        self.current_id
                    }) by {
                    let k = choose|k: int| 0 <= k < i + 1 && #[trigger] self.filters@[j] == olds[k];
                    if i + 1 < n {
                        assert(olds[k].0 <= olds[i as int].0);
                        assert(olds[i as int].0 < olds[i + 1].0);
                    }
                }
            }
            assert(old_filters@ =~= olds.subrange(i + 1, n as int));
            i = i + 1;
        }
        proof {
            assert(olds.take(n as int) =~= olds);
            assert forall|j: int| 0 <= j < self.filters@.len() implies 1 <= #[trigger] self.filters@[j].0 < self.current_id by {
                let k = choose|k: int| 0 <= k < n && #[trigger] self.filters@[j] == olds[k];
            }
        }
    }

    /// Drops the filters that have not been polled for `older_than` or
    /// longer: the time since each filter's last poll is read (in
    /// nanoseconds) during the call, [`stale_marks`] marks those that reach
    /// `older_than`, and [`FilterManager::remove_stale`] removes them. The
    /// times read depend on the clock; whatever they are, the filters kept
    /// are exactly those whose time was below `older_than`.
    pub fn clean_stale(&mut self, older_than: Duration)
        requires
            old(self).wf(),
        ensures
            final(self).wf(),
            final(self).spec_next_id() == old(self).spec_next_id(),
            exists|e: Seq<u128>|
                e.len() == old(self).spec_filters().len() && final(self).spec_filters()
                    == kept_filters(
                    old(self).spec_filters(),
                    spec_stale_marks(e, duration_nanos(older_than)),
                ),
    {
        let limit = duration_as_nanos(&older_than);
        let mut elapsed: Vec<u128> = Vec::new();
        let n = self.filters.len();
        let mut i: usize = 0;
        while i < n
            invariant
                n == self.filters@.len(),
                0 <= i <= n,
                elapsed@.len() == i,
            decreases n - i,
        {
            let since = instant_elapsed(&self.filters[i].1.last_poll_time);
            elapsed.push(duration_as_nanos(&since));
            i = i + 1;
        }
        let stale = stale_marks(&elapsed, limit);
        self.remove_stale(&stale);
    }
}

/// The filters of `fs` whose mark in `stale` (by position) is not set, in
/// order.
pub open spec fn kept_filters<F>(fs: Seq<(u64, ActiveFilter<F>)>, stale: Seq<bool>) -> Seq<(u64, ActiveFilter<F>)>
    decreases fs.len(),
{
    if fs.len() == 0 {
        Seq::empty()
    } else {
        let last = fs.len() - 1;
        kept_filters(fs.drop_last(), stale) + if stale[last] {
            Seq::empty()
        } else {
            seq![fs.last()]
        }
    }
}

/// Ids are fresh: a filter installed after another gets a larger id, so no
/// two filters ever share one.
pub proof fn law_install_ids_increase<F>(m0: FilterManager<F>, id1: u64, m1: FilterManager<F>, id2: u64)
    requires
        m0.wf(),
        id1 == m0.spec_next_id(),
        m1.spec_next_id() == id1 + 1,
        m1.wf(),
        id2 == m1.spec_next_id(),
    ensures
        id1 < id2,
        !m0.spec_contains(id1),
        !m1.spec_contains(id2),
{
}

} // verus!
