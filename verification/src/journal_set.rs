//! A set of journals, ordered by height and linked by hash.
use vstd::prelude::*;
use std::collections::VecDeque;
use core::ops::RangeInclusive;
use crate::journal::Journal;
use crate::primitives::{b256_eq, b256_to_string, decimal, hex_lower, u64_to_string, B256};

verus! {

/// The height after `h`, counting on from `u64::MAX` to 0.
pub open spec fn next_height(h: u64) -> u64 {
    if h == u64::MAX { 0 } else { (h + 1) as u64 }
}

/// The height before `h`, counting back from 0 to `u64::MAX`.
pub open spec fn prev_height(h: u64) -> u64 {
    if h == 0 { u64::MAX } else { (h - 1) as u64 }
}

/// The height after `h`.
fn next_height_of(h: u64) -> (r: u64)
    ensures
        r == next_height(h),
{
    if h == u64::MAX { 0 } else { h + 1 }
}

/// The height before `h`.
fn prev_height_of(h: u64) -> (r: u64)
    ensures
        r == prev_height(h),
{
    if h == 0 { u64::MAX } else { h - 1 }
}

/// An optional number as `Debug` writes it: `Some(n)` or `None`.
pub open spec fn debug_opt_u64(x: Option<u64>) -> Seq<char> {
    match x {
        Some(n) => "Some("@ + decimal(n as nat) + ")"@,
        None => "None"@,
    }
}

/// An optional number as `Debug` writes it.
fn debug_opt_u64_string(x: Option<u64>) -> (r: String)
    ensures
        r@ == debug_opt_u64(x),
{
    match x {
        Some(n) => {
            let d = u64_to_string(n);
            String::from_str("Some(").concat(d.as_str()).concat(")")
        },
        None => String::from_str("None"),
    }
}

/// Why a journal could not join a [`JournalSet`]. Each variant hands the
/// journal back.
#[derive(Clone, Debug, PartialEq, Eq)]
pub enum JournalSetError {
    /// Cannot ingest the journal because it is at the wrong height.
    WrongHeight {
        /// The actual height of the journal.
        actual: u64,
        /// The expected height of the journal.
        expected: u64,
        /// The journal.
        journal: Box<Journal>,
    },
    /// Cannot ingest the journal because it has the wrong previous hash.
    WrongPrevHash {
        /// The latest hash of the set.
        latest_hash: B256,
        /// The previous hash the journal names.
        in_journal: B256,
        /// The journal.
        journal: Box<Journal>,
    },
    /// Attempted to `append_overwrite` a journal that is not in the set's
    /// range.
    NotInRange {
        /// The start of the expected range.
        start: Option<u64>,
        /// The end of the expected range.
        end: Option<u64>,
        /// The height of the journal.
        height: u64,
        /// The journal.
        journal: Box<Journal>,
    },
}

impl JournalSetError {
    /// The journal that the error carries.
    pub open spec fn spec_journal(self) -> Journal {
        match self {
            JournalSetError::WrongHeight { journal, .. } => *journal,
            JournalSetError::WrongPrevHash { journal, .. } => *journal,
            JournalSetError::NotInRange { journal, .. } => *journal,
        }
    }

    /// The error's message.
    pub open spec fn spec_message(self) -> Seq<char> {
        match self {
            JournalSetError::WrongHeight { actual, expected, .. } => "wrong height: actual "@
                + decimal(actual as nat) + ", expected "@ + decimal(expected as nat),
            JournalSetError::WrongPrevHash { latest_hash, in_journal, .. } =>
                "wrong prev_hash: current "@ + "0x"@ + hex_lower(latest_hash@)
                + ", new journal expected "@ + "0x"@ + hex_lower(in_journal@),
            JournalSetError::NotInRange { start, end, height, .. } => "not in range: start "@
                + debug_opt_u64(start) + ", end "@ + debug_opt_u64(end) + ", height "@
                + decimal(height as nat),
        }
    }

    /// The error's message.
    pub fn to_string(&self) -> (r: String)
        ensures
            r@ == self.spec_message(),
    {
        match self {
            JournalSetError::WrongHeight { actual, expected, .. } => {
                let a = u64_to_string(*actual);
                let e = u64_to_string(*expected);
                String::from_str("wrong height: actual ").concat(a.as_str()).concat(", expected ").concat(e.as_str())
            },
            JournalSetError::WrongPrevHash { latest_hash, in_journal, .. } => {
                let l = b256_to_string(latest_hash);
                let i = b256_to_string(in_journal);
                let r = String::from_str("wrong prev_hash: current ").concat(l.as_str()).concat(", new journal expected ").concat(i.as_str());
                proof {
                    assert(r@ =~= self.spec_message());
                }
                r
            },
            JournalSetError::NotInRange { start, end, height, .. } => {
                let s = debug_opt_u64_string(*start);
                let e = debug_opt_u64_string(*end);
                let h = u64_to_string(*height);
                String::from_str("not in range: start ").concat(s.as_str()).concat(", end ").concat(e.as_str()).concat(", height ").concat(h.as_str())
            },
        }
    }

    /// Converts the error into a journal, discarding error info.
    pub fn into_journal(self) -> (r: Journal)
        ensures
            r == self.spec_journal(),
    {
        match self {
            JournalSetError::WrongHeight { journal, .. } => *journal,
            JournalSetError::WrongPrevHash { journal, .. } => *journal,
            JournalSetError::NotInRange { journal, .. } => *journal,
        }
    }
}

/// True if `js` is a consistent history: heights rise by one from each
/// journal to the next, and each journal names its predecessor's hash as
/// its previous hash.
pub open spec fn is_chain(js: Seq<Journal>) -> bool {
    forall|i: int|
        #![trigger js[i + 1]]
        0 <= i < js.len() - 1 ==> {
            &&& js[i + 1].spec_rollup_height() == js[i].spec_rollup_height() + 1
            &&& js[i + 1].spec_prev_journal_hash()@ == js[i].spec_journal_hash()
        }
}

/// A set of journals, ordered by height and hash.
#[derive(Clone, Debug)]
pub struct JournalSet {
    journals: VecDeque<Journal>,
    /// Recorded separately, so that once the set is drained, pushing more
    /// journals is still checked for consistency.
    latest_height: Option<u64>,
    latest_hash: Option<B256>,
}

impl JournalSet {
    /// The journals, oldest first.
    pub closed spec fn spec_journals(self) -> Seq<Journal> {
        self.journals@
    }

    /// The height that the next journal must have, once recorded.
    pub closed spec fn spec_latest_height(self) -> Option<u64> {
        self.latest_height
    }

    /// The hash that the next journal must name, once recorded.
    pub closed spec fn spec_latest_hash(self) -> Option<B256> {
        self.latest_hash
    }

    /// The set's invariant: its journals form a chain, the latest height and
    /// hash are both recorded or neither is, and when the set is not empty
    /// they are those of its last journal.
    pub open spec fn wf(self) -> bool {
        let js = self.spec_journals();
        &&& is_chain(js)
        &&& self.spec_latest_height().is_some() == self.spec_latest_hash().is_some()
        &&& js.len() > 0 ==> {
            &&& self.spec_latest_height() == Some(js.last().spec_rollup_height())
            &&& self.spec_latest_hash().unwrap()@ == js.last().spec_journal_hash()
        }
    }

    /// The earliest height in the set, if it is not empty.
    pub open spec fn spec_earliest_height(self) -> Option<u64> {
        if self.spec_journals().len() > 0 {
            Some(self.spec_journals()[0].spec_rollup_height())
        } else {
            None
        }
    }

    /// Creates a new empty `JournalSet`.
    pub fn new() -> (r: Self)
        ensures
            r.wf(),
            r.spec_journals() == Seq::<Journal>::empty(),
            r.spec_latest_height() == None::<u64>,
            r.spec_latest_hash() == None::<B256>,
    {
        JournalSet { journals: VecDeque::new(), latest_height: None, latest_hash: None }
    }

    /// Creates a new empty `JournalSet` with room for `capacity` journals.
    pub fn with_capacity(capacity: usize) -> (r: Self)
        ensures
            r.wf(),
            r.spec_journals() == Seq::<Journal>::empty(),
            r.spec_latest_height() == None::<u64>,
            r.spec_latest_hash() == None::<B256>,
    {
        JournalSet {
            journals: VecDeque::with_capacity(capacity),
            latest_height: None,
            latest_hash: None,
        }
    }

    /// Creates a new `JournalSet` from a single [`Journal`].
    pub fn from_journal(journal: Journal) -> (r: Self)
        ensures
            r.wf(),
            r.spec_journals() == seq![journal],
            r.spec_latest_height() == Some(journal.spec_rollup_height()),
            r.spec_latest_hash().unwrap()@ == journal.spec_journal_hash(),
    {
        let latest_height = Some(journal.rollup_height());
        let latest_hash = Some(journal.journal_hash());
        let mut journals = VecDeque::new();
        journals.push_back(journal);
        let r = JournalSet { journals, latest_height, latest_hash };
        assert(r.spec_journals() =~= seq![journal]);
        r
    }

    /// Returns the number of journals in the set.
    pub fn len(&self) -> (r: usize)
        ensures
            r == self.spec_journals().len(),
    {
        self.journals.len()
    }

    /// True if the set is empty.
    pub fn is_empty(&self) -> (r: bool)
        ensures
            r == (self.spec_journals().len() == 0),
    {
        self.journals.len() == 0
    }

    /// Make a [`JournalSetError::NotInRange`].
    fn not_in_range(&self, journal: Journal) -> (r: JournalSetError)
        ensures
            r == (JournalSetError::NotInRange {
                start: self.spec_earliest_height(),
                end: self.spec_latest_height(),
                height: journal.spec_rollup_height(),
                journal: Box::new(journal),
            }),
    {
        JournalSetError::NotInRange {
            start: self.earliest_height(),
            end: self.latest_height(),
            height: journal.rollup_height(),
            journal: Box::new(journal),
        }
    }

    /// Make a [`JournalSetError::WrongPrevHash`].
    fn wrong_prev_hash(&self, journal: Journal) -> (r: JournalSetError)
        requires
            self.spec_latest_hash().is_some(),
        ensures
            r == (JournalSetError::WrongPrevHash {
                latest_hash: self.spec_latest_hash().unwrap(),
                in_journal: journal.spec_prev_journal_hash(),
                journal: Box::new(journal),
            }),
    {
        let latest_hash = match self.latest_hash {
            Some(h) => h,
            None => { proof { assert(false); } [0u8; 32] },
        };
        JournalSetError::WrongPrevHash {
            latest_hash,
            in_journal: journal.prev_journal_hash(),
            journal: Box::new(journal),
        }
    }

    /// Make a [`JournalSetError::WrongHeight`].
    fn wrong_height(&self, journal: Journal) -> (r: JournalSetError)
        requires
            self.spec_latest_height() is Some,
        ensures
            r == (JournalSetError::WrongHeight {
                actual: journal.spec_rollup_height(),
                expected: next_height(self.spec_latest_height().unwrap()),
                journal: Box::new(journal),
            }),
    {
        let latest = match self.latest_height {
            Some(h) => h,
            None => { proof { assert(false); } 0 },
        };
        JournalSetError::WrongHeight {
            actual: journal.rollup_height(),
            expected: next_height_of(latest),
            journal: Box::new(journal),
        }
    }

    /// Returns the earliest height of a journal in the set.
    pub fn earliest_height(&self) -> (r: Option<u64>)
        ensures
            r == self.spec_earliest_height(),
    {
        if self.journals.len() > 0 {
            return Some(self.journals[0].rollup_height());
        }
        None
    }

    /// Returns the latest hash of a journal in the set.
    pub fn latest_hash(&self) -> (r: Option<B256>)
        ensures
            r == self.spec_latest_hash(),
    {
        self.latest_hash
    }

    /// Returns the latest height of a journal in the set.
    pub fn latest_height(&self) -> (r: Option<u64>)
        ensures
            r == self.spec_latest_height(),
    {
        self.latest_height
    }

    /// The index of the journal at `rollup_height`, if that height is in
    /// the set's range.
    fn index_of(&self, rollup_height: u64) -> (r: Option<usize>)
        requires
            self.wf(),
        ensures
            match r {
                Some(i) => {
                    &&& self.spec_journals().len() > 0
                    &&& i < self.spec_journals().len()
                    &&& self.spec_journals()[i as int].spec_rollup_height() == rollup_height
                    &&& i == rollup_height - self.spec_journals()[0].spec_rollup_height()
                },
                None => !self.spec_in_range(rollup_height),
            },
    {
        proof {
            self.lemma_heights();
        }
        let start = match self.earliest_height() {
            Some(s) => s,
            None => return None,
        };
        let end = match self.latest_height() {
            Some(e) => e,
            None => return None,
        };
        if rollup_height < start || rollup_height > end {
            return None;
        }
        let n = self.journals.len();
        proof {
            let js = self.spec_journals();
            assert(js.last() == js[js.len() - 1]);
            assert(rollup_height - start < n);
            assert(js[(rollup_height - start) as int].spec_rollup_height() == rollup_height);
        }
        Some((rollup_height - start) as usize)
    }

    /// True if the set is not empty and `h` lies between its earliest and
    /// latest heights.
    pub open spec fn spec_in_range(self, h: u64) -> bool {
        &&& self.spec_journals().len() > 0
        &&& self.spec_journals()[0].spec_rollup_height() <= h
        &&& h <= self.spec_journals().last().spec_rollup_height()
    }

    /// In a well-formed set, the journal at index `i` has height
    /// `earliest + i`.
    proof fn lemma_heights(self)
        requires
            self.wf(),
        ensures
            forall|i: int|
                0 <= i < self.spec_journals().len() ==> #[trigger] self.spec_journals()[i].spec_rollup_height()
                    == self.spec_journals()[0].spec_rollup_height() + i,
    {
        let js = self.spec_journals();
        assert forall|i: int| 0 <= i < js.len() implies #[trigger] js[i].spec_rollup_height()
            == js[0].spec_rollup_height() + i by {
            lemma_chain_heights(js, i);
        }
    }

    /// Get the journal at that height, if it is within the set.
    pub fn get_by_rollup_height(&self, rollup_height: u64) -> (r: Option<&Journal>)
        requires
            self.wf(),
        ensures
            self.spec_in_range(rollup_height) ==> (r matches Some(j) && *j
                == self.spec_journals()[rollup_height - self.spec_journals()[0].spec_rollup_height()]
                && j.spec_rollup_height() == rollup_height),
            !self.spec_in_range(rollup_height) ==> r is None,
    {
        proof {
            self.lemma_heights();
        }
        match self.index_of(rollup_height) {
            Some(index) => Some(&self.journals[index]),
            None => None,
        }
    }

    /// Returns the range of heights in the set. If the set is empty,
    /// returns `None`.
    pub fn range(&self) -> (r: Option<RangeInclusive<u64>>)
        requires
            self.wf(),
        ensures
            self.spec_journals().len() == 0 ==> r is None,
            self.spec_journals().len() > 0 ==> (r matches Some(range) && range@.start
                == self.spec_journals()[0].spec_rollup_height() && range@.end
                == self.spec_journals().last().spec_rollup_height() && !range@.exhausted),
    {
        let start = match self.earliest_height() {
            Some(s) => s,
            None => return None,
        };
        let end = match self.latest_height() {
            Some(e) => e,
            None => return None,
        };
        Some(RangeInclusive::new(start, end))
    }

    /// Check that the journal has the expected next height.
    fn check_last_height(&self, journal: Journal) -> (r: Result<Journal, JournalSetError>)
        ensures
            match self.spec_latest_height() {
                Some(h) => if journal.spec_rollup_height() != next_height(h) {
                    r == Err::<Journal, JournalSetError>(JournalSetError::WrongHeight {
                        actual: journal.spec_rollup_height(),
                        expected: next_height(h),
                        journal: Box::new(journal),
                    })
                } else {
                    r == Ok::<Journal, JournalSetError>(journal)
                },
                None => r == Ok::<Journal, JournalSetError>(journal),
            },
    {
        if let Some(latest_height) = self.latest_height() {
            if journal.rollup_height() != next_height_of(latest_height) {
                return Err(self.wrong_height(journal));
            }
        }
        Ok(journal)
    }

    /// Check that the journal names the expected previous hash.
    fn check_prev_hash(&self, journal: Journal) -> (r: Result<Journal, JournalSetError>)
        ensures
            match self.spec_latest_hash() {
                Some(h) => if journal.spec_prev_journal_hash() != h {
                    r == Err::<Journal, JournalSetError>(JournalSetError::WrongPrevHash {
                        latest_hash: h,
                        in_journal: journal.spec_prev_journal_hash(),
                        journal: Box::new(journal),
                    })
                } else {
                    r == Ok::<Journal, JournalSetError>(journal)
                },
                None => r == Ok::<Journal, JournalSetError>(journal),
            },
    {
        if let Some(latest_hash) = self.latest_hash() {
            let prev = journal.prev_journal_hash();
            if !b256_eq(&prev, &latest_hash) {
                return Err(self.wrong_prev_hash(journal));
            }
        }
        Ok(journal)
    }

    /// Record `journal` as the latest and push it to the back.
    fn append_inner(&mut self, journal: Journal)
        ensures
            final(self).spec_journals() == old(self).spec_journals().push(journal),
            final(self).spec_latest_height() == Some(journal.spec_rollup_height()),
            final(self).spec_latest_hash().unwrap()@ == journal.spec_journal_hash(),
            final(self).spec_latest_hash().is_some(),
    {
        self.latest_height = Some(journal.rollup_height());
        self.latest_hash = Some(journal.journal_hash());
        self.journals.push_back(journal);
    }

    /// Push the journal into the set.
    ///
    /// Fails, handing the journal back, when a latest height is recorded and
    /// the journal's height is not one above it, or when a latest hash is
    /// recorded and the journal names another previous hash.
    pub fn try_append(&mut self, journal: Journal) -> (r: Result<(), JournalSetError>)
        requires
            old(self).wf(),
            old(self).spec_latest_height() == Some(u64::MAX) ==> old(self).spec_journals().len() == 0,
        ensures
            final(self).wf(),
            old(self).spec_append_error(journal) matches Some(e) ==> {
                &&& r == Err::<(), JournalSetError>(e)
                &&& *final(self) == *old(self)
            },
            old(self).spec_can_append(journal) ==> {
                &&& r is Ok
                &&& spec_appended(*old(self), journal, *final(self))
            },
    {
        let journal = match self.check_last_height(journal) {
            Ok(j) => j,
            Err(e) => return Err(e),
        };
        let journal = match self.check_prev_hash(journal) {
            Ok(j) => j,
            Err(e) => return Err(e),
        };
        proof {
            lemma_chain_push(self.spec_journals(), journal);
        }
        self.append_inner(journal);
        Ok(())
    }

    /// The error `try_append` answers `journal` with, if any: first the
    /// height check, then the previous-hash check.
    pub open spec fn spec_append_error(self, journal: Journal) -> Option<JournalSetError> {
        if self.spec_latest_height() is Some && journal.spec_rollup_height()
            != next_height(self.spec_latest_height().unwrap()) {
            Some(JournalSetError::WrongHeight {
                actual: journal.spec_rollup_height(),
                expected: next_height(self.spec_latest_height().unwrap()),
                journal: Box::new(journal),
            })
        } else if self.spec_latest_hash() is Some && journal.spec_prev_journal_hash()
            != self.spec_latest_hash().unwrap() {
            Some(JournalSetError::WrongPrevHash {
                latest_hash: self.spec_latest_hash().unwrap(),
                in_journal: journal.spec_prev_journal_hash(),
                journal: Box::new(journal),
            })
        } else {
            None
        }
    }

    /// True if `journal` passes both of `try_append`'s checks.
    pub open spec fn spec_can_append(self, journal: Journal) -> bool {
        self.spec_append_error(journal) is None
    }

    /// Appends the journal to the set, removing any journals that conflict
    /// with it.
    ///
    /// This only succeeds if the journal is within the set's range and
    /// replacing the journal currently at that height leads to a consistent
    /// history. A journal identical (by hash) to the one at its height
    /// leaves the set as it is.
    pub fn append_overwrite(&mut self, journal: Journal) -> (r: Result<(), JournalSetError>)
        requires
            old(self).wf(),
        ensures
            final(self).wf(),
            !old(self).spec_in_range(journal.spec_rollup_height()) ==> {
                &&& r == Err::<(), JournalSetError>(JournalSetError::NotInRange {
                    start: old(self).spec_earliest_height(),
                    end: old(self).spec_latest_height(),
                    height: journal.spec_rollup_height(),
                    journal: Box::new(journal),
                })
                &&& *final(self) == *old(self)
            },
            old(self).spec_in_range(journal.spec_rollup_height()) ==> {
                let js = old(self).spec_journals();
                let idx = journal.spec_rollup_height() - js[0].spec_rollup_height();
                let cur = js[idx];
                &&& cur.spec_journal_hash() == journal.spec_journal_hash() ==> {
                    &&& r is Ok
                    &&& *final(self) == *old(self)
                }
                &&& cur.spec_journal_hash() != journal.spec_journal_hash()
                    && cur.spec_prev_journal_hash() != journal.spec_prev_journal_hash() ==> {
                    &&& r == Err::<(), JournalSetError>(JournalSetError::WrongPrevHash {
                        latest_hash: old(self).spec_latest_hash().unwrap(),
                        in_journal: journal.spec_prev_journal_hash(),
                        journal: Box::new(journal),
                    })
                    &&& *final(self) == *old(self)
                }
                &&& cur.spec_journal_hash() != journal.spec_journal_hash()
                    && cur.spec_prev_journal_hash() == journal.spec_prev_journal_hash() ==> {
                    &&& r is Ok
                    &&& final(self).spec_journals() == js.subrange(0, idx).push(journal)
                    &&& final(self).spec_latest_height() == Some(journal.spec_rollup_height())
                    &&& final(self).spec_latest_hash().unwrap()@ == journal.spec_journal_hash()
                }
            },
    {
        proof {
            self.lemma_heights();
        }
        let idx = match self.index_of(journal.rollup_height()) {
            Some(i) => i,
            None => return Err(self.not_in_range(journal)),
        };
        let j = &self.journals[idx];

        // If the journals are identical, do nothing.
        let jh = j.journal_hash();
        let nh = journal.journal_hash();
        if b256_eq(&jh, &nh) {
            return Ok(());
        }
        // The journal at the index always has the journal's height.
        let jp = j.prev_journal_hash();
        let np = journal.prev_journal_hash();
        if !b256_eq(&jp, &np) {
            return Err(self.wrong_prev_hash(journal));
        }
        proof {
            let js = self.spec_journals();
            lemma_chain_prefix(js, idx as int);
            lemma_chain_replace(js, idx as int, journal);
        }
        self.unwind_to(idx);
        self.append_inner(journal);
        Ok(())
    }

    /// Drop the journal at `idx` and every journal after it.
    fn unwind_to(&mut self, idx: usize)
        requires
            idx < old(self).spec_journals().len(),
        ensures
            final(self).spec_journals() == old(self).spec_journals().subrange(0, idx as int),
    {
        self.journals.truncate(idx);
    }

    /// Pops the front journal from the set. The latest height and hash stay
    /// as they are.
    pub fn pop_front(&mut self) -> (r: Option<Journal>)
        requires
            old(self).wf(),
        ensures
            final(self).wf(),
            final(self).spec_latest_height() == old(self).spec_latest_height(),
            final(self).spec_latest_hash() == old(self).spec_latest_hash(),
            old(self).spec_journals().len() == 0 ==> r is None && final(self).spec_journals()
                == old(self).spec_journals(),
            old(self).spec_journals().len() > 0 ==> r == Some(old(self).spec_journals()[0])
                && final(self).spec_journals() == old(self).spec_journals().drop_first(),
    {
        let r = self.journals.pop_front();
        proof {
            let js = old(self).spec_journals();
            if js.len() > 0 {
                assert forall|i: int|
                    #![trigger self.spec_journals()[i + 1]]
                    0 <= i < self.spec_journals().len() - 1 implies {
                    &&& self.spec_journals()[i + 1].spec_rollup_height()
                        == self.spec_journals()[i].spec_rollup_height() + 1
                    &&& self.spec_journals()[i + 1].spec_prev_journal_hash()@
                        == self.spec_journals()[i].spec_journal_hash()
                } by {
                    assert(self.spec_journals()[i + 1] == js[i + 2]);
                    assert(self.spec_journals()[i] == js[i + 1]);
                }
            }
        }
        r
    }

    /// Pops the back journal from the set. The latest height becomes the one
    /// before the popped journal's (for a journal at height 0, `u64::MAX`,
    /// whose next height is 0 again) and the latest hash becomes the hash it
    /// names as previous.
    pub fn pop_back(&mut self) -> (r: Option<Journal>)
        requires
            old(self).wf(),
        ensures
            final(self).wf(),
            old(self).spec_journals().len() == 0 ==> {
                &&& r is None
                &&& final(self).spec_journals() == old(self).spec_journals()
                &&& final(self).spec_latest_height() == old(self).spec_latest_height()
                &&& final(self).spec_latest_hash() == old(self).spec_latest_hash()
            },
            old(self).spec_journals().len() > 0 ==> {
                &&& r == Some(old(self).spec_journals().last())
                &&& spec_popped_back(*old(self), *final(self))
            },
    {
        let journal = self.journals.pop_back();
        if let Some(j) = &journal {
            self.latest_height = Some(prev_height_of(j.rollup_height()));
            self.latest_hash = Some(j.prev_journal_hash());
        }
        proof {
            let js = old(self).spec_journals();
            if js.len() > 0 {
                let ns = self.spec_journals();
                assert(ns =~= js.drop_last());
                assert forall|i: int| #![trigger ns[i + 1]] 0 <= i < ns.len() - 1 implies {
                    &&& ns[i + 1].spec_rollup_height() == ns[i].spec_rollup_height() + 1
                    &&& ns[i + 1].spec_prev_journal_hash()@ == ns[i].spec_journal_hash()
                } by {
                    assert(ns[i + 1] == js[i + 1]);
                }
                if ns.len() > 0 {
                    assert(js[ns.len() - 1 + 1] == js.last());
                }
            }
        }
        journal
    }

    /// The journals, oldest first, consuming the set.
    pub fn into_journals(self) -> (r: VecDeque<Journal>)
        ensures
            r@ == self.spec_journals(),
    {
        self.journals
    }
}

/// `after` is `before` with `j` pushed to the back and recorded as latest.
pub open spec fn spec_appended(before: JournalSet, j: Journal, after: JournalSet) -> bool {
    &&& after.spec_journals() == before.spec_journals().push(j)
    &&& after.spec_latest_height() == Some(j.spec_rollup_height())
    &&& after.spec_latest_hash() is Some
    &&& after.spec_latest_hash().unwrap()@ == j.spec_journal_hash()
}

/// `after` is `before` without its back journal, with that journal's
/// height less one and its previous hash recorded as latest.
pub open spec fn spec_popped_back(before: JournalSet, after: JournalSet) -> bool {
    let last = before.spec_journals().last();
    &&& before.spec_journals().len() > 0
    &&& after.spec_journals() == before.spec_journals().drop_last()
    &&& after.spec_latest_height() == Some(prev_height(last.spec_rollup_height()))
    &&& after.spec_latest_hash() == Some(last.spec_prev_journal_hash())
}

/// Popping the back journal undoes a successful append: once a set has
/// recorded a latest height, appending a journal and then popping the back
/// leaves the same journals, latest height and latest hash as before.
pub proof fn law_pop_back_undoes_append(s0: JournalSet, j: Journal, s1: JournalSet, s2: JournalSet)
    requires
        s0.wf(),
        s0.spec_latest_height() is Some,
        s0.spec_can_append(j),
        spec_appended(s0, j, s1),
        spec_popped_back(s1, s2),
    ensures
        s2.spec_journals() == s0.spec_journals(),
        s2.spec_latest_height() == s0.spec_latest_height(),
        s2.spec_latest_hash() == s0.spec_latest_hash(),
{
    assert(s1.spec_journals().last() == j);
    assert(s0.spec_journals().push(j).drop_last() =~= s0.spec_journals());
}

/// Reading back what was appended: after a successful append to a
/// well-formed set, the journal is in range and is the one found at its
/// height.
pub proof fn law_get_after_append(s0: JournalSet, j: Journal, s1: JournalSet)
    requires
        s0.wf(),
        s0.spec_latest_height() == Some(u64::MAX) ==> s0.spec_journals().len() == 0,
        s0.spec_can_append(j),
        spec_appended(s0, j, s1),
    ensures
        s1.wf(),
        s1.spec_in_range(j.spec_rollup_height()),
        s1.spec_journals()[j.spec_rollup_height() - s1.spec_journals()[0].spec_rollup_height()] == j,
{
    let js = s0.spec_journals();
    lemma_chain_push(js, j);
    let ns = s1.spec_journals();
    lemma_chain_heights(ns, ns.len() - 1);
    assert(ns.last() == j);
}

/// Appending keeps a set well formed, and a well-formed set's journals form
/// a chain whose heights are consecutive from the earliest.
pub proof fn law_append_keeps_chain(s0: JournalSet, j: Journal, s1: JournalSet)
    requires
        s0.wf(),
        s0.spec_latest_height() == Some(u64::MAX) ==> s0.spec_journals().len() == 0,
        s0.spec_can_append(j),
        spec_appended(s0, j, s1),
    ensures
        s1.wf(),
        is_chain(s1.spec_journals()),
        forall|i: int|
            0 <= i < s1.spec_journals().len() ==> #[trigger] s1.spec_journals()[i].spec_rollup_height()
                == s1.spec_journals()[0].spec_rollup_height() + i,
{
    lemma_chain_push(s0.spec_journals(), j);
    assert forall|i: int| 0 <= i < s1.spec_journals().len() implies #[trigger] s1.spec_journals()[i].spec_rollup_height()
        == s1.spec_journals()[0].spec_rollup_height() + i by {
        lemma_chain_heights(s1.spec_journals(), i);
    }
}

/// In a chain, heights rise by one per position.
pub proof fn lemma_chain_heights(js: Seq<Journal>, i: int)
    requires
        is_chain(js),
        0 <= i < js.len(),
    ensures
        js[i].spec_rollup_height() == js[0].spec_rollup_height() + i,
    decreases i,
{
    if i > 0 {
        lemma_chain_heights(js, i - 1);
        assert(js[(i - 1) + 1].spec_rollup_height() == js[i - 1].spec_rollup_height() + 1);
    }
}

/// A chain extended by a journal that follows its last one is a chain.
proof fn lemma_chain_push(js: Seq<Journal>, j: Journal)
    requires
        is_chain(js),
        js.len() > 0 ==> j.spec_rollup_height() == js.last().spec_rollup_height() + 1
            && j.spec_prev_journal_hash()@ == js.last().spec_journal_hash(),
    ensures
        is_chain(js.push(j)),
{
    let ns = js.push(j);
    assert forall|i: int| #![trigger ns[i + 1]] 0 <= i < ns.len() - 1 implies {
        &&& ns[i + 1].spec_rollup_height() == ns[i].spec_rollup_height() + 1
        &&& ns[i + 1].spec_prev_journal_hash()@ == ns[i].spec_journal_hash()
    } by {
        if i + 1 < js.len() {
            assert(ns[i + 1] == js[i + 1]);
        }
    }
}

/// A prefix of a chain is a chain.
proof fn lemma_chain_prefix(js: Seq<Journal>, n: int)
    requires
        is_chain(js),
        0 <= n <= js.len(),
    ensures
        is_chain(js.subrange(0, n)),
{
    let ps = js.subrange(0, n);
    assert forall|i: int| #![trigger ps[i + 1]] 0 <= i < ps.len() - 1 implies {
        &&& ps[i + 1].spec_rollup_height() == ps[i].spec_rollup_height() + 1
        &&& ps[i + 1].spec_prev_journal_hash()@ == ps[i].spec_journal_hash()
    } by {
        assert(ps[i + 1] == js[i + 1]);
    }
}

/// Replacing the journal at `idx` by one of the same height that names the
/// same previous hash, and dropping what follows, keeps a chain.
proof fn lemma_chain_replace(js: Seq<Journal>, idx: int, j: Journal)
    requires
        is_chain(js),
        0 <= idx < js.len(),
        j.spec_rollup_height() == js[idx].spec_rollup_height(),
        j.spec_prev_journal_hash() == js[idx].spec_prev_journal_hash(),
    ensures
        is_chain(js.subrange(0, idx).push(j)),
        idx > 0 ==> j.spec_rollup_height() == js.subrange(0, idx).last().spec_rollup_height() + 1
            && j.spec_prev_journal_hash()@ == js.subrange(0, idx).last().spec_journal_hash(),
{
    lemma_chain_prefix(js, idx);
    if idx > 0 {
        assert(js[(idx - 1) + 1] == js[idx]);
    }
    lemma_chain_push(js.subrange(0, idx), j);
}

} // verus!
