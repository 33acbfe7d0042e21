//! Journals of rollup state changes, and sets of journals that form a
//! consistent history: each journal sits one rollup height above the one
//! before it and names that journal's hash as its previous hash.
use vstd::prelude::*;
use crate::hash::{keccak256, keccak256_digest};
use crate::primitives::B256;
use vstd::slice::slice_subrange;

verus! {

/// The eight big-endian bytes of `x`.
pub open spec fn u64_be_bytes(x: u64) -> Seq<u8> {
    seq![
        (x >> 56u64) as u8,
        (x >> 48u64) as u8,
        (x >> 40u64) as u8,
        (x >> 32u64) as u8,
        (x >> 24u64) as u8,
        (x >> 16u64) as u8,
        (x >> 8u64) as u8,
        x as u8,
    ]
}

/// Appends the big-endian bytes of `x` to `buf`.
fn put_u64_be(buf: &mut Vec<u8>, x: u64)
    ensures
        final(buf)@ == old(buf)@ + u64_be_bytes(x),
{
    buf.push((x >> 56u64) as u8);
    buf.push((x >> 48u64) as u8);
    buf.push((x >> 40u64) as u8);
    buf.push((x >> 32u64) as u8);
    buf.push((x >> 24u64) as u8);
    buf.push((x >> 16u64) as u8);
    buf.push((x >> 8u64) as u8);
    buf.push(x as u8);
    assert(buf@ =~= old(buf)@ + u64_be_bytes(x));
}

/// Appends `bytes` to `buf`.
fn put_slice(buf: &mut Vec<u8>, bytes: &[u8])
    ensures
        final(buf)@ == old(buf)@ + bytes@,
{
    let mut i: usize = 0;
    while i < bytes.len()
        invariant
            0 <= i <= bytes@.len(),
            buf@ == old(buf)@ + bytes@.subrange(0, i as int),
        decreases bytes@.len() - i,
    {
        buf.push(bytes[i]);
        i = i + 1;
        assert(bytes@.subrange(0, i as int) =~= bytes@.subrange(0, i - 1 as int).push(bytes@[i - 1]));
    }
    assert(bytes@.subrange(0, bytes@.len() as int) =~= bytes@);
}

/// A rollup block header, as the journal carries it: its block number and
/// its journal encoding.
#[derive(Clone, Debug, PartialEq, Eq)]
pub struct RollupHeader {
    /// The rollup block number.
    pub number: u64,
    /// The header's journal encoding.
    pub encoded: Vec<u8>,
}

/// Metadata for a block journal: the block header, the host height, and the
/// hash of the previous journal.
#[derive(Clone, Debug, PartialEq, Eq)]
pub struct JournalMeta {
    host_height: u64,
    prev_journal_hash: B256,
    header: RollupHeader,
}

impl JournalMeta {
    /// The host height.
    pub closed spec fn spec_host_height(self) -> u64 {
        self.host_height
    }

    /// The previous journal hash.
    pub closed spec fn spec_prev_journal_hash(self) -> B256 {
        self.prev_journal_hash
    }

    /// The rollup block header.
    pub closed spec fn spec_header(self) -> RollupHeader {
        self.header
    }

    /// The encoding of the metadata: the host height (eight big-endian
    /// bytes), the previous journal hash, then the header's encoding.
    pub open spec fn spec_encoded(self) -> Seq<u8> {
        u64_be_bytes(self.spec_host_height()) + self.spec_prev_journal_hash()@
            + self.spec_header().encoded@
    }

    /// Create a new `JournalMeta`.
    pub fn new(host_height: u64, prev_journal_hash: B256, header: RollupHeader) -> (r: Self)
        ensures
            r.spec_host_height() == host_height,
            r.spec_prev_journal_hash() == prev_journal_hash,
            r.spec_header() == header,
    {
        JournalMeta { host_height, prev_journal_hash, header }
    }

    /// Deconstruct the `JournalMeta` into its parts.
    pub fn into_parts(self) -> (r: (u64, B256, RollupHeader))
        ensures
            r == (self.spec_host_height(), self.spec_prev_journal_hash(), self.spec_header()),
    {
        (self.host_height, self.prev_journal_hash, self.header)
    }

    /// The host height.
    pub fn host_height(&self) -> (r: u64)
        ensures
            r == self.spec_host_height(),
    {
        self.host_height
    }

    /// The previous journal hash.
    pub fn prev_journal_hash(&self) -> (r: B256)
        ensures
            r == self.spec_prev_journal_hash(),
    {
        self.prev_journal_hash
    }

    /// The rollup block header.
    pub fn header(&self) -> (r: &RollupHeader)
        ensures
            *r == self.spec_header(),
    {
        &self.header
    }

    /// The rollup height: the header's block number.
    pub fn rollup_height(&self) -> (r: u64)
        ensures
            r == self.spec_header().number,
    {
        self.header.number
    }

    /// Appends the metadata's encoding to `buf`.
    pub fn encode(&self, buf: &mut Vec<u8>)
        ensures
            final(buf)@ == old(buf)@ + self.spec_encoded(),
    {
        put_u64_be(buf, self.host_height);
        put_slice(buf, self.prev_journal_hash.as_slice());
        put_slice(buf, self.header.encoded.as_slice());
        assert(buf@ =~= old(buf)@ + self.spec_encoded());
    }
}

/// Journal associated with a host block: the metadata and the encoded
/// index of the EVM state changes.
#[derive(Clone, Debug, PartialEq, Eq)]
pub struct HostJournal {
    meta: JournalMeta,
    journal: Vec<u8>,
}

impl HostJournal {
    /// The metadata.
    pub closed spec fn spec_meta(self) -> JournalMeta {
        self.meta
    }

    /// The encoded state changes.
    pub closed spec fn spec_journal(self) -> Seq<u8> {
        self.journal@
    }

    /// The serialized journal: the metadata's encoding, then the state
    /// changes.
    pub open spec fn spec_serialized(self) -> Seq<u8> {
        self.spec_meta().spec_encoded() + self.spec_journal()
    }

    /// The journal hash: the Keccak-256 digest of the serialized journal.
    pub open spec fn spec_journal_hash(self) -> Seq<u8> {
        keccak256_digest(self.spec_serialized())
    }

    /// Create a new journal.
    pub fn new(meta: JournalMeta, journal: Vec<u8>) -> (r: Self)
        ensures
            r.spec_meta() == meta,
            r.spec_journal() == journal@,
    {
        HostJournal { meta, journal }
    }

    /// Deconstruct the `HostJournal` into its parts.
    pub fn into_parts(self) -> (r: (JournalMeta, Vec<u8>))
        ensures
            r.0 == self.spec_meta(),
            r.1@ == self.spec_journal(),
    {
        (self.meta, self.journal)
    }

    /// The metadata.
    pub fn meta(&self) -> (r: &JournalMeta)
        ensures
            *r == self.spec_meta(),
    {
        &self.meta
    }

    /// The encoded state changes.
    pub fn journal(&self) -> (r: &Vec<u8>)
        ensures
            r@ == self.spec_journal(),
    {
        &self.journal
    }

    /// The host height.
    pub fn host_height(&self) -> (r: u64)
        ensures
            r == self.spec_meta().spec_host_height(),
    {
        self.meta.host_height()
    }

    /// The previous journal hash.
    pub fn prev_journal_hash(&self) -> (r: B256)
        ensures
            r == self.spec_meta().spec_prev_journal_hash(),
    {
        self.meta.prev_journal_hash()
    }

    /// The rollup block header.
    pub fn header(&self) -> (r: &RollupHeader)
        ensures
            *r == self.spec_meta().spec_header(),
    {
        self.meta.header()
    }

    /// The rollup height.
    pub fn rollup_height(&self) -> (r: u64)
        ensures
            r == self.spec_meta().spec_header().number,
    {
        self.meta.rollup_height()
    }

    /// Serialize the journal.
    pub fn serialized(&self) -> (r: Vec<u8>)
        ensures
            r@ == self.spec_serialized(),
    {
        let mut buf: Vec<u8> = Vec::new();
        self.meta.encode(&mut buf);
        put_slice(&mut buf, self.journal.as_slice());
        assert(buf@ =~= self.spec_serialized());
        buf
    }

    /// Serialize and hash the journal.
    pub fn journal_hash(&self) -> (r: B256)
        ensures
            r@ == self.spec_journal_hash(),
    {
        let bytes = self.serialized();
        keccak256(bytes.as_slice())
    }
}

/// Journal versions.
#[derive(Clone, Debug, PartialEq, Eq)]
#[non_exhaustive]
pub enum Journal {
    /// Version 1
    V1(HostJournal),
}

/// The version tag that precedes a version-1 journal's encoding.
pub const JOURNAL_V1_TAG: u8 = 1;

impl Journal {
    /// The host journal inside.
    pub open spec fn spec_inner(self) -> HostJournal {
        match self {
            Journal::V1(j) => j,
        }
    }

    /// The rollup height.
    pub open spec fn spec_rollup_height(self) -> u64 {
        self.spec_inner().spec_meta().spec_header().number
    }

    /// The previous journal hash.
    pub open spec fn spec_prev_journal_hash(self) -> B256 {
        self.spec_inner().spec_meta().spec_prev_journal_hash()
    }

    /// The journal hash.
    pub open spec fn spec_journal_hash(self) -> Seq<u8> {
        self.spec_inner().spec_journal_hash()
    }

    /// The journal's encoding: its version tag, then the serialized journal.
    pub open spec fn spec_encoded(self) -> Seq<u8> {
        seq![JOURNAL_V1_TAG] + self.spec_inner().spec_serialized()
    }

    /// The host height.
    pub fn host_height(&self) -> (r: u64)
        ensures
            r == self.spec_inner().spec_meta().spec_host_height(),
    {
        match self {
            Journal::V1(journal) => journal.host_height(),
        }
    }

    /// The previous journal hash.
    pub fn prev_journal_hash(&self) -> (r: B256)
        ensures
            r == self.spec_prev_journal_hash(),
    {
        match self {
            Journal::V1(journal) => journal.prev_journal_hash(),
        }
    }

    /// The rollup block header.
    pub fn header(&self) -> (r: &RollupHeader)
        ensures
            *r == self.spec_inner().spec_meta().spec_header(),
    {
        match self {
            Journal::V1(journal) => journal.header(),
        }
    }

    /// The host journal.
    pub fn journal(&self) -> (r: &HostJournal)
        ensures
            *r == self.spec_inner(),
    {
        match self {
            Journal::V1(journal) => journal,
        }
    }

    /// The journal hash.
    pub fn journal_hash(&self) -> (r: B256)
        ensures
            r@ == self.spec_journal_hash(),
    {
        match self {
            Journal::V1(journal) => journal.journal_hash(),
        }
    }

    /// The rollup height.
    pub fn rollup_height(&self) -> (r: u64)
        ensures
            r == self.spec_rollup_height(),
    {
        match self {
            Journal::V1(journal) => journal.rollup_height(),
        }
    }

    /// Appends the journal's encoding (version tag first) to `buf`.
    pub fn encode(&self, buf: &mut Vec<u8>)
        ensures
            final(buf)@ == old(buf)@ + self.spec_encoded(),
    {
        match self {
            Journal::V1(journal) => {
                buf.push(JOURNAL_V1_TAG);
                let bytes = journal.serialized();
                put_slice(buf, bytes.as_slice());
                assert(buf@ =~= old(buf)@ + self.spec_encoded());
            },
        }
    }
}

/// Why journal bytes cannot be decoded.
#[derive(Debug, Clone, Copy, PartialEq, Eq)]
pub enum JournalDecodeError {
    /// The bytes end before the value does.
    Overrun {
        /// The number of bytes the value needs.
        expected: usize,
        /// The number of bytes left.
        remaining: usize,
    },
    /// The version tag is unknown.
    InvalidTag {
        /// The name of the type being decoded.
        ty_name: &'static str,
        /// The tag read.
        tag: u8,
        /// The largest tag known.
        max_expected: u8,
    },
}

/// The number read from eight big-endian bytes.
pub open spec fn u64_from_be(s: Seq<u8>) -> u64 {
    ((s[0] as u64) << 56u64) | ((s[1] as u64) << 48u64) | ((s[2] as u64) << 40u64) | ((s[3] as u64)
        << 32u64) | ((s[4] as u64) << 24u64) | ((s[5] as u64) << 16u64) | ((s[6] as u64) << 8u64)
        | (s[7] as u64)
}

/// Reading back the big-endian bytes of a number gives the number.
pub proof fn lemma_u64_be_roundtrip(x: u64)
    ensures
        u64_from_be(u64_be_bytes(x)) == x,
{
    let b = u64_be_bytes(x);
    assert(((((x >> 56u64) as u8) as u64) << 56u64) | ((((x >> 48u64) as u8) as u64) << 48u64) | (
    (((x >> 40u64) as u8) as u64) << 40u64) | ((((x >> 32u64) as u8) as u64) << 32u64) | ((((x
        >> 24u64) as u8) as u64) << 24u64) | ((((x >> 16u64) as u8) as u64) << 16u64) | ((((x
        >> 8u64) as u8) as u64) << 8u64) | ((x as u8) as u64) == x) by (bit_vector);
}

/// Reads eight big-endian bytes of `buf` from `at`.
fn read_u64_be(buf: &[u8], at: usize) -> (r: u64)
    requires
        at + 8 <= buf@.len(),
    ensures
        r == u64_from_be(buf@.subrange(at as int, at + 8)),
{
    ((buf[at] as u64) << 56u64) | ((buf[at + 1] as u64) << 48u64) | ((buf[at + 2] as u64) << 40u64)
        | ((buf[at + 3] as u64) << 32u64) | ((buf[at + 4] as u64) << 24u64) | ((buf[at + 5] as u64)
        << 16u64) | ((buf[at + 6] as u64) << 8u64) | (buf[at + 7] as u64)
}

/// Copies the 32 bytes of `buf` from `at`.
fn read_b256(buf: &[u8], at: usize) -> (r: B256)
    requires
        at + 32 <= buf@.len(),
    ensures
        r@ == buf@.subrange(at as int, at + 32),
{
    let mut out: B256 = [0u8; 32];
    let n = buf.len();
    let mut i: usize = 0;
    while i < 32
        invariant
            0 <= i <= 32,
            n == buf@.len(),
            at + 32 <= n,
            forall|k: int| 0 <= k < i ==> out@[k] == buf@[at + k],
        decreases 32 - i,
    {
        out.set(i, buf[at + i]);
        i = i + 1;
    }
    assert(out@ =~= buf@.subrange(at as int, at + 32));
    out
}

/// Copies the bytes of `buf` from `from` up to `to`.
fn copy_range(buf: &[u8], from: usize, to: usize) -> (r: Vec<u8>)
    requires
        from <= to <= buf@.len(),
    ensures
        r@ == buf@.subrange(from as int, to as int),
{
    let mut out: Vec<u8> = Vec::new();
    let mut i: usize = from;
    while i < to
        invariant
            from <= i <= to <= buf@.len(),
            out@ == buf@.subrange(from as int, i as int),
        decreases to - i,
    {
        out.push(buf[i]);
        i = i + 1;
        assert(out@ =~= buf@.subrange(from as int, i as int));
    }
    out
}

/// What a journal holds, as plain values.
pub struct JournalView {
    /// The host height.
    pub host_height: u64,
    /// The previous journal hash.
    pub prev_journal_hash: Seq<u8>,
    /// The rollup height: the header's block number.
    pub rollup_height: u64,
    /// The header's encoding.
    pub header: Seq<u8>,
    /// The encoded state changes.
    pub journal: Seq<u8>,
}

impl View for HostJournal {
    type V = JournalView;

    open spec fn view(&self) -> JournalView {
        JournalView {
            host_height: self.spec_meta().spec_host_height(),
            prev_journal_hash: self.spec_meta().spec_prev_journal_hash()@,
            rollup_height: self.spec_meta().spec_header().number,
            header: self.spec_meta().spec_header().encoded@,
            journal: self.spec_journal(),
        }
    }
}

impl View for Journal {
    type V = JournalView;

    open spec fn view(&self) -> JournalView {
        self.spec_inner()@
    }
}

/// The journal that the bytes `b` of a serialized host journal hold, when
/// the header's decoder reads block number `header_number` from the
/// `header_len` bytes after the metadata's fixed part, and the state
/// changes take `journal_len` bytes after those.
pub open spec fn spec_decoded(b: Seq<u8>, header_number: u64, header_len: nat, journal_len: nat) -> JournalView {
    JournalView {
        host_height: u64_from_be(b.subrange(0, 8)),
        prev_journal_hash: b.subrange(8, 40),
        rollup_height: header_number,
        header: b.subrange(40, 40 + header_len as int),
        journal: b.subrange(40 + header_len as int, 40 + header_len as int + journal_len as int),
    }
}

impl JournalMeta {
    /// Decodes metadata from the front of `buf`: the host height, the
    /// previous journal hash, then the header, whose decoder read block
    /// number `header_number` from `header_len` bytes. Returns the metadata
    /// and the number of bytes read.
    pub fn decode(buf: &[u8], header_number: u64, header_len: usize) -> (r: Result<
        (JournalMeta, usize),
        JournalDecodeError,
    >)
        ensures
            buf@.len() < 40 + header_len ==> r == Err::<(JournalMeta, usize), JournalDecodeError>(
                JournalDecodeError::Overrun {
                    expected: if 40 + header_len <= usize::MAX { (40 + header_len) as usize } else { usize::MAX },
                    remaining: buf@.len() as usize,
                },
            ),
            buf@.len() >= 40 + header_len ==> (r matches Ok((m, n)) && n == 40 + header_len
                && m.spec_host_height() == u64_from_be(buf@.subrange(0, 8))
                && m.spec_prev_journal_hash()@ == buf@.subrange(8, 40)
                && m.spec_header().number == header_number
                && m.spec_header().encoded@ == buf@.subrange(40, 40 + header_len)),
    {
        if header_len > buf.len() || buf.len() - header_len < 40 {
            let expected: usize = if header_len <= usize::MAX - 40 { header_len + 40 } else { usize::MAX };
            return Err(JournalDecodeError::Overrun { expected, remaining: buf.len() });
        }
        let host_height = read_u64_be(buf, 0);
        let prev_journal_hash = read_b256(buf, 8);
        let encoded = copy_range(buf, 40, 40 + header_len);
        let header = RollupHeader { number: header_number, encoded };
        Ok((JournalMeta { host_height, prev_journal_hash, header }, 40 + header_len))
    }
}

impl HostJournal {
    /// Decodes a host journal from the front of `buf`: its metadata (see
    /// `JournalMeta::decode`), then `journal_len` bytes of state changes.
    /// Returns the journal and the number of bytes read; the journal's
    /// serialization is exactly the bytes read.
    pub fn decode(buf: &[u8], header_number: u64, header_len: usize, journal_len: usize) -> (r: Result<
        (HostJournal, usize),
        JournalDecodeError,
    >)
        ensures
            buf@.len() < 40 + header_len + journal_len ==> r == Err::<(HostJournal, usize), JournalDecodeError>(
                JournalDecodeError::Overrun {
                    expected: if 40 + header_len + journal_len <= usize::MAX { (40 + header_len + journal_len) as usize } else { usize::MAX },
                    remaining: buf@.len() as usize,
                },
            ),
            buf@.len() >= 40 + header_len + journal_len ==> (r matches Ok((j, n)) && n == 40 + header_len
                + journal_len && j@ == spec_decoded(buf@, header_number, header_len as nat, journal_len as nat)
                && j.spec_serialized() == buf@.take(n as int)),
    {
        if header_len > buf.len() || journal_len > buf.len() - header_len || buf.len() - header_len
            - journal_len < 40 {
            let expected: usize = if header_len <= usize::MAX - 40 && journal_len <= usize::MAX - 40 - header_len {
                header_len + journal_len + 40
            } else {
                usize::MAX
            };
            return Err(JournalDecodeError::Overrun { expected, remaining: buf.len() });
        }
        let meta = match JournalMeta::decode(buf, header_number, header_len) {
            Ok((m, _)) => m,
            Err(e) => return Err(e),
        };
        let start: usize = 40 + header_len;
        let end: usize = start + journal_len;
        let journal = copy_range(buf, start, end);
        let j = HostJournal { meta, journal };
        proof {
            lemma_u64_be_roundtrip(j.meta.host_height);
            assert(u64_be_bytes(u64_from_be(buf@.subrange(0, 8))) =~= buf@.subrange(0, 8)) by {
                lemma_be_bytes_of_read(buf@.subrange(0, 8));
            }
            assert(j.spec_serialized() =~= buf@.take(end as int));
        }
        Ok((j, end))
    }
}

/// Writing out the number read from eight bytes gives those bytes.
proof fn lemma_be_bytes_of_read(s: Seq<u8>)
    requires
        s.len() == 8,
    ensures
        u64_be_bytes(u64_from_be(s)) =~= s,
{
    let (b0, b1, b2, b3, b4, b5, b6, b7) = (s[0], s[1], s[2], s[3], s[4], s[5], s[6], s[7]);
    let x = u64_from_be(s);
    assert(((x >> 56u64) as u8) == b0 && ((x >> 48u64) as u8) == b1 && ((x >> 40u64) as u8) == b2
        && ((x >> 32u64) as u8) == b3 && ((x >> 24u64) as u8) == b4 && ((x >> 16u64) as u8) == b5
        && ((x >> 8u64) as u8) == b6 && (x as u8) == b7) by (bit_vector)
        requires
            x == ((b0 as u64) << 56u64) | ((b1 as u64) << 48u64) | ((b2 as u64) << 40u64) | ((b3 as u64)
                << 32u64) | ((b4 as u64) << 24u64) | ((b5 as u64) << 16u64) | ((b6 as u64) << 8u64)
                | (b7 as u64),
    ;
}

impl Journal {
    /// Decodes a journal from the front of `buf`: a version tag, then (for
    /// version 1) a host journal (see `HostJournal::decode`). Returns the
    /// journal and the number of bytes read, tag included.
    pub fn decode(buf: &[u8], header_number: u64, header_len: usize, journal_len: usize) -> (r: Result<
        (Journal, usize),
        JournalDecodeError,
    >)
        ensures
            buf@.len() == 0 ==> r == Err::<(Journal, usize), JournalDecodeError>(
                JournalDecodeError::Overrun { expected: 1, remaining: 0 },
            ),
            buf@.len() > 0 && buf@[0] != JOURNAL_V1_TAG ==> (r matches Err(
                JournalDecodeError::InvalidTag { ty_name, tag, max_expected },
            ) && ty_name@ == "Journal"@ && tag == buf@[0] && max_expected == JOURNAL_V1_TAG),
            buf@.len() > 0 && buf@[0] == JOURNAL_V1_TAG && buf@.len() < 41 + header_len + journal_len
                ==> r == Err::<(Journal, usize), JournalDecodeError>(
                JournalDecodeError::Overrun {
                    expected: if 40 + header_len + journal_len <= usize::MAX { (40 + header_len + journal_len) as usize } else { usize::MAX },
                    remaining: (buf@.len() - 1) as usize,
                },
            ),
            buf@.len() > 0 && buf@[0] == JOURNAL_V1_TAG && buf@.len() >= 41 + header_len + journal_len
                ==> (r matches Ok((j, n)) && n == 41 + header_len + journal_len
                && j@ == spec_decoded(buf@.drop_first(), header_number, header_len as nat, journal_len as nat)
                && j.spec_encoded() == buf@.take(n as int)),
    {
        if buf.len() == 0 {
            return Err(JournalDecodeError::Overrun { expected: 1, remaining: 0 });
        }
        let tag = buf[0];
        if tag != JOURNAL_V1_TAG {
            return Err(JournalDecodeError::InvalidTag { ty_name: "Journal", tag, max_expected: JOURNAL_V1_TAG });
        }
        let rest = slice_from(buf, 1);
        match HostJournal::decode(rest, header_number, header_len, journal_len) {
            Ok((j, n)) => {
                let r = Journal::V1(j);
                proof {
                    assert(r.spec_encoded() =~= buf@.take(n + 1));
                }
                Ok((r, n + 1))
            },
            Err(e) => Err(e),
        }
    }
}

/// The bytes of `buf` from `at` on.
fn slice_from(buf: &[u8], at: usize) -> (r: &[u8])
    requires
        at <= buf@.len(),
    ensures
        r@ == buf@.subrange(at as int, buf@.len() as int),
{
    slice_subrange(buf, at, buf.len())
}

/// Decoding the encoding of a journal, with the header and state-change
/// lengths and the block number it was written with, reads back every byte
/// written and gives back the same journal.
pub proof fn law_journal_roundtrip(j: Journal)
    requires
        j@.header.len() + j@.journal.len() + 41 <= usize::MAX,
    ensures
        ({
            let b = j.spec_encoded();
            &&& b.len() == 41 + j@.header.len() + j@.journal.len()
            &&& b[0] == JOURNAL_V1_TAG
            &&& spec_decoded(b.drop_first(), j@.rollup_height, j@.header.len(), j@.journal.len()) == j@
        }),
{
    let b = j.spec_encoded();
    let v = j@;
    let d = spec_decoded(b.drop_first(), v.rollup_height, v.header.len(), v.journal.len());
    lemma_u64_be_roundtrip(v.host_height);
    let s = b.drop_first();
    assert(s =~= u64_be_bytes(v.host_height) + v.prev_journal_hash + v.header + v.journal);
    assert(s.subrange(0, 8) =~= u64_be_bytes(v.host_height));
    assert(s.subrange(8, 40) =~= v.prev_journal_hash);
    let hl = v.header.len() as int;
    let jl = v.journal.len() as int;
    assert(s.subrange(40, 40 + hl) =~= v.header);
    assert(s.subrange(40 + hl, 40 + hl + jl) =~= v.journal);
}

/// Decoding a serialized host journal, followed by any further bytes, with
/// the header and state-change lengths and the block number it was written
/// with, gives back the same journal, reads exactly its serialization (so
/// the journal hash is unchanged), and leaves the further bytes unread.
pub proof fn law_host_journal_roundtrip(h: HostJournal, extra: Seq<u8>)
    ensures
        ({
            let b = h.spec_serialized() + extra;
            let n: int = (40 + h@.header.len() + h@.journal.len()) as int;
            &&& h.spec_serialized().len() == n
            &&& b.take(n) == h.spec_serialized()
            &&& b.subrange(n, b.len() as int) == extra
            &&& spec_decoded(b, h@.rollup_height, h@.header.len(), h@.journal.len()) == h@
        }),
{
    let v = h@;
    let s = h.spec_serialized();
    let b = s + extra;
    lemma_u64_be_roundtrip(v.host_height);
    assert(s =~= u64_be_bytes(v.host_height) + v.prev_journal_hash + v.header + v.journal);
    let hl = v.header.len() as int;
    let jl = v.journal.len() as int;
    assert(b.take(40 + hl + jl) =~= s);
    assert(b.subrange(40 + hl + jl, b.len() as int) =~= extra);
    assert(b.subrange(0, 8) =~= u64_be_bytes(v.host_height));
    assert(b.subrange(8, 40) =~= v.prev_journal_hash);
    assert(b.subrange(40, 40 + hl) =~= v.header);
    assert(b.subrange(40 + hl, 40 + hl + jl) =~= v.journal);
}

} // verus!
