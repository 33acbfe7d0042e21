use signet_sdk::journal::{
    HostJournal, Journal, JournalDecodeError, JournalMeta, RollupHeader, JOURNAL_V1_TAG,
};
use signet_sdk::journal_set::{JournalSet, JournalSetError};

fn header(number: u64) -> RollupHeader {
    RollupHeader { number, encoded: vec![0xc0, number as u8, 0x80] }
}

fn journal_at_heights(host: u64, rollup: u64, prev_hash: [u8; 32]) -> Journal {
    let meta = JournalMeta::new(host, prev_hash, header(rollup));
    let host = HostJournal::new(meta, vec![]);
    Journal::V1(host)
}

fn encoded(j: &Journal) -> Vec<u8> {
    let mut buf = Vec::new();
    j.encode(&mut buf);
    buf
}

#[test]
fn basic_consistency() {
    let mut set = JournalSet::new();

    let j0 = journal_at_heights(100, 0, [0u8; 32]);
    let j1 = journal_at_heights(101, 1, j0.journal_hash());
    let j2 = journal_at_heights(102, 2, j1.journal_hash());
    let j3 = journal_at_heights(103, 3, j2.journal_hash());

    // empty set
    assert_eq!(set.earliest_height(), None);
    assert_eq!(set.latest_height(), None);
    assert_eq!(set.latest_hash(), None);
    assert_eq!(set.range(), None);

    // push j0
    assert_eq!(set.try_append(j0.clone()), Ok(()));
    assert_eq!(set.earliest_height(), Some(0));
    assert_eq!(set.latest_height(), Some(0));
    assert_eq!(set.latest_hash(), Some(j0.journal_hash()));
    assert_eq!(set.range(), Some(0..=0));

    // pushing j2 should fail
    assert!(set.try_append(j2.clone()).is_err());

    // push j1
    assert_eq!(set.try_append(j1.clone()), Ok(()));
    assert_eq!(set.earliest_height(), Some(0));
    assert_eq!(set.latest_height(), Some(1));
    assert_eq!(set.latest_hash(), Some(j1.journal_hash()));
    assert_eq!(set.range(), Some(0..=1));

    // pushing j3 should fail
    assert!(set.try_append(j3.clone()).is_err());

    // pop j0 from front
    let popped = set.pop_front().expect("should pop");
    assert_eq!(popped, j0);
    assert_eq!(set.earliest_height(), Some(1));
    assert_eq!(set.latest_height(), Some(1));
    assert_eq!(set.latest_hash(), Some(j1.journal_hash()));

    // push j2
    assert_eq!(set.try_append(j2.clone()), Ok(()));
    assert_eq!(set.earliest_height(), Some(1));
    assert_eq!(set.latest_height(), Some(2));
    assert_eq!(set.latest_hash(), Some(j2.journal_hash()));
    assert_eq!(set.range(), Some(1..=2));

    // push j3
    assert_eq!(set.try_append(j3.clone()), Ok(()));
    assert_eq!(set.earliest_height(), Some(1));
    assert_eq!(set.latest_height(), Some(3));
    assert_eq!(set.latest_hash(), Some(j3.journal_hash()));
    assert_eq!(set.range(), Some(1..=3));

    // pop j1 from front
    let popped = set.pop_front().expect("should pop");
    assert_eq!(popped, j1);
    assert_eq!(set.earliest_height(), Some(2));
    assert_eq!(set.latest_height(), Some(3));
    assert_eq!(set.latest_hash(), Some(j3.journal_hash()));

    // pushing front to back should fail
    assert!(set.try_append(j0.clone()).is_err());
}

#[test]
fn append_overwrite() {
    let mut set = JournalSet::new();

    let j0 = journal_at_heights(100, 0, [0u8; 32]);
    let j1 = journal_at_heights(101, 1, j0.journal_hash());
    let j2 = journal_at_heights(102, 2, j1.journal_hash());
    let j3 = journal_at_heights(103, 3, j2.journal_hash());

    let j1_alt = Journal::V1(HostJournal::new(
        JournalMeta::new(101, j0.journal_hash(), header(1)),
        vec![0, 1, 2, 3],
    ));

    // push j0-j3
    assert!(set.try_append(j0.clone()).is_ok());
    assert!(set.try_append(j1).is_ok());
    assert!(set.try_append(j2.clone()).is_ok());
    assert!(set.try_append(j3).is_ok());
    assert_eq!(set.len(), 4);

    // overwrite
    assert!(set.append_overwrite(j1_alt).is_ok());
    assert_eq!(set.len(), 2);

    // can't push j2 anymore
    assert!(set.try_append(j2).is_err());
}

#[test]
fn try_append_errors_hand_the_journal_back() {
    let mut set = JournalSet::new();
    let j0 = journal_at_heights(100, 0, [0u8; 32]);
    let j1 = journal_at_heights(101, 1, j0.journal_hash());
    let j2 = journal_at_heights(102, 2, j1.journal_hash());
    let bad_prev = journal_at_heights(101, 1, [9u8; 32]);
    set.try_append(j0.clone()).unwrap();

    match set.try_append(j2.clone()) {
        Err(JournalSetError::WrongHeight { actual, expected, journal }) => {
            assert_eq!(actual, 2);
            assert_eq!(expected, 1);
            assert_eq!(*journal, j2);
        }
        other => panic!("unexpected {:?}", other),
    }
    match set.try_append(bad_prev.clone()) {
        Err(JournalSetError::WrongPrevHash { latest_hash, in_journal, journal }) => {
            assert_eq!(latest_hash, j0.journal_hash());
            assert_eq!(in_journal, [9u8; 32]);
            assert_eq!(*journal, bad_prev);
        }
        other => panic!("unexpected {:?}", other),
    }
    assert_eq!(set.len(), 1);
}

#[test]
fn append_overwrite_out_of_range() {
    let mut set = JournalSet::new();
    let j0 = journal_at_heights(100, 0, [0u8; 32]);
    let j1 = journal_at_heights(101, 1, j0.journal_hash());
    set.try_append(j0.clone()).unwrap();
    let far = journal_at_heights(105, 5, [1u8; 32]);
    match set.append_overwrite(far.clone()) {
        Err(e @ JournalSetError::NotInRange { .. }) => {
            if let JournalSetError::NotInRange { start, end, height, .. } = &e {
                assert_eq!(*start, Some(0));
                assert_eq!(*end, Some(0));
                assert_eq!(*height, 5);
            }
            assert_eq!(e.into_journal(), far);
        }
        other => panic!("unexpected {:?}", other),
    }
    // the next height is not yet in range either
    assert!(matches!(set.append_overwrite(j1), Err(JournalSetError::NotInRange { .. })));
    // overwriting a journal with itself changes nothing
    assert!(set.append_overwrite(j0.clone()).is_ok());
    assert_eq!(set.len(), 1);
    assert_eq!(set.latest_hash(), Some(j0.journal_hash()));
}

#[test]
fn pop_back_undoes_append() {
    let mut set = JournalSet::new();
    let j0 = journal_at_heights(100, 0, [0u8; 32]);
    let j1 = journal_at_heights(101, 1, j0.journal_hash());
    set.try_append(j0.clone()).unwrap();
    set.try_append(j1.clone()).unwrap();
    assert_eq!(set.pop_back(), Some(j1));
    assert_eq!(set.latest_height(), Some(0));
    assert_eq!(set.latest_hash(), Some(j0.journal_hash()));
    assert_eq!(set.len(), 1);
}

#[test]
fn get_after_append() {
    let mut set = JournalSet::new();
    let j0 = journal_at_heights(100, 7, [0u8; 32]);
    let j1 = journal_at_heights(101, 8, j0.journal_hash());
    set.try_append(j0.clone()).unwrap();
    set.try_append(j1.clone()).unwrap();
    assert_eq!(set.get_by_rollup_height(7), Some(&j0));
    assert_eq!(set.get_by_rollup_height(8), Some(&j1));
    assert_eq!(set.get_by_rollup_height(9), None);
    assert_eq!(set.get_by_rollup_height(6), None);
}

#[test]
fn from_journal_and_into_journals() {
    let j0 = journal_at_heights(100, 3, [0u8; 32]);
    let set = JournalSet::from_journal(j0.clone());
    assert_eq!(set.len(), 1);
    assert!(!set.is_empty());
    assert_eq!(set.latest_hash(), Some(j0.journal_hash()));
    let all: Vec<Journal> = set.into_journals().into_iter().collect();
    assert_eq!(all, vec![j0]);
    assert!(JournalSet::with_capacity(4).is_empty());
}

#[test]
fn journal_accessors() {
    let j = journal_at_heights(13871, 42, [7u8; 32]);
    assert_eq!(j.host_height(), 13871);
    assert_eq!(j.rollup_height(), 42);
    assert_eq!(j.prev_journal_hash(), [7u8; 32]);
    assert_eq!(j.header().number, 42);
    assert_eq!(j.journal().meta().host_height(), 13871);
}

#[test]
fn journal_encoding_layout() {
    let j = journal_at_heights(0x0102030405060708, 1, [7u8; 32]);
    let buf = encoded(&j);
    assert_eq!(buf[0], JOURNAL_V1_TAG);
    assert_eq!(&buf[1..9], &[1, 2, 3, 4, 5, 6, 7, 8]);
    assert_eq!(&buf[9..41], &[7u8; 32]);
    assert_eq!(&buf[41..], &[0xc0, 1, 0x80]);
}

#[test]
fn journal_hash_is_keccak_of_serialization() {
    let j = journal_at_heights(100, 0, [0u8; 32]);
    let serialized = j.journal().serialized();
    assert_eq!(j.journal_hash(), alloy::primitives::keccak256(&serialized).0);
    let other = journal_at_heights(100, 0, [1u8; 32]);
    assert_ne!(j.journal_hash(), other.journal_hash());
    assert_ne!(j.journal_hash(), <[u8; 32]>::try_from(&serialized[..32]).unwrap());
}

#[test]
fn meta_roundtrip() {
    let original = JournalMeta::new(13871, [0x7u8; 32], header(0));
    let mut buf = Vec::new();
    original.encode(&mut buf);
    let (decoded, read) = JournalMeta::decode(&buf, 0, 3).unwrap();
    assert_eq!(original, decoded);
    assert_eq!(read, buf.len());
}

#[test]
fn host_roundtrip() {
    let original = HostJournal::new(
        JournalMeta::new(u64::MAX, [0xffu8; 32], header(0)),
        b"world".to_vec(),
    );
    let buf = original.serialized();
    let (decoded, read) = HostJournal::decode(&buf, 0, 3, 5).unwrap();
    assert_eq!(original, decoded);
    assert_eq!(read, buf.len());
    assert_eq!(decoded.serialized(), buf);
}

#[test]
fn versions_roundtrip() {
    let journal = Journal::V1(HostJournal::new(
        JournalMeta::new(42, [0x17u8; 32], header(0)),
        b"state diff".to_vec(),
    ));
    let mut buf = Vec::new();
    journal.encode(&mut buf);
    let (decoded, read) = Journal::decode(&buf, 0, 3, 10).unwrap();
    assert_eq!(journal, decoded);
    assert_eq!(read, buf.len());
}

#[test]
fn journal_decode_errors() {
    assert_eq!(
        Journal::decode(&[], 0, 0, 0),
        Err(JournalDecodeError::Overrun { expected: 1, remaining: 0 })
    );
    assert_eq!(
        Journal::decode(&[2, 0, 0], 0, 0, 0),
        Err(JournalDecodeError::InvalidTag { ty_name: "Journal", tag: 2, max_expected: 1 })
    );
    assert_eq!(
        Journal::decode(&[1, 0, 0], 0, 3, 2),
        Err(JournalDecodeError::Overrun { expected: 45, remaining: 2 })
    );
    assert_eq!(
        JournalMeta::decode(&[0u8; 39], 0, 0),
        Err(JournalDecodeError::Overrun { expected: 40, remaining: 39 })
    );
}

#[test]
fn journal_decode_reads_only_its_bytes() {
    let journal = journal_at_heights(5, 1, [3u8; 32]);
    let mut buf = encoded(&journal);
    let len = buf.len();
    buf.extend_from_slice(&[0xaa, 0xbb]);
    let (decoded, read) = Journal::decode(&buf, 1, 3, 0).unwrap();
    assert_eq!(decoded, journal);
    assert_eq!(read, len);
}

#[test]
fn journal_set_error_messages() {
    let j = journal_at_heights(1, 5, [0u8; 32]);
    let e = JournalSetError::WrongHeight { actual: 2, expected: 1, journal: Box::new(j.clone()) };
    assert_eq!(e.to_string(), "wrong height: actual 2, expected 1");
    let mut latest = [0u8; 32];
    latest[0] = 0xab;
    latest[31] = 0x01;
    let e = JournalSetError::WrongPrevHash { latest_hash: latest, in_journal: [0xffu8; 32], journal: Box::new(j.clone()) };
    assert_eq!(
        e.to_string(),
        format!(
            "wrong prev_hash: current 0xab{}01, new journal expected 0x{}",
            "00".repeat(30),
            "ff".repeat(32)
        )
    );
    let e = JournalSetError::NotInRange { start: Some(0), end: None, height: 5, journal: Box::new(j) };
    assert_eq!(e.to_string(), "not in range: start Some(0), end None, height 5");
}

#[test]
fn pop_back_at_height_zero() {
    let mut set = JournalSet::new();
    let j0 = journal_at_heights(100, 0, [4u8; 32]);
    set.try_append(j0.clone()).unwrap();
    assert_eq!(set.pop_back(), Some(j0.clone()));
    assert_eq!(set.latest_height(), Some(u64::MAX));
    assert_eq!(set.latest_hash(), Some([4u8; 32]));
    assert!(set.is_empty());
    // the journal can be appended again
    assert_eq!(set.try_append(j0.clone()), Ok(()));
    assert_eq!(set.range(), Some(0..=0));
    // a journal at another height is refused, expecting height 1
    let mut other = JournalSet::new();
    other.try_append(j0.clone()).unwrap();
    other.pop_back();
    match other.try_append(journal_at_heights(101, 1, [4u8; 32])) {
        Err(JournalSetError::WrongHeight { actual, expected, .. }) => {
            assert_eq!(actual, 1);
            assert_eq!(expected, 0);
        }
        r => panic!("unexpected {:?}", r),
    }
}

#[test]
fn host_journal_decode_reads_only_its_bytes() {
    let h = HostJournal::new(JournalMeta::new(9, [2u8; 32], header(4)), b"diff".to_vec());
    let mut buf = h.serialized();
    let len = buf.len();
    buf.extend_from_slice(&[1, 2, 3]);
    let (d, read) = HostJournal::decode(&buf, 4, 3, 4).unwrap();
    assert_eq!(d, h);
    assert_eq!(read, len);
    assert_eq!(d.journal_hash(), h.journal_hash());
}
