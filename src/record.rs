//! The legacy interface's variable record: reading it whole from a pseudo-file
//! and decoding its fields.

use crate::attributes::{decoded_attributes, parse_attributes};
use crate::error::VarError;
use crate::guid::{guid_from_bytes, EfiGuid};
use crate::variable::EfiVariable;
use vstd::prelude::*;

verus! {

/// The largest payload that a record carries.
pub const MAX_DATA_SIZE: usize = 1024;

/// Bytes of the name field: 512 UTF-16 code units.
pub const NAME_FIELD_LEN: usize = 1024;

/// The unsigned integer that bytes `s` hold, least significant first.
pub open spec fn le_value(s: Seq<u8>) -> nat
    decreases s.len(),
{
    if s.len() == 0 {
        0
    } else {
        s[0] as nat + 256 * le_value(s.drop_first())
    }
}

pub open spec fn pow256(n: nat) -> nat
    decreases n,
{
    if n == 0 {
        1
    } else {
        256 * pow256((n - 1) as nat)
    }
}

pub(crate) proof fn lemma_le_value_bound(s: Seq<u8>)
    ensures
        le_value(s) < pow256(s.len()),
    decreases s.len(),
{
    if s.len() > 0 {
        lemma_le_value_bound(s.drop_first());
        let r = le_value(s.drop_first());
        let p = pow256((s.len() - 1) as nat);
        assert(s[0] as nat + 256 * r < 256 * p) by (nonlinear_arith)
            requires
                r < p,
                s[0] < 256,
        ;
    }
}

/// The unsigned integer held little-endian in `b[start..start + len]`.
pub fn read_le(b: &[u8], start: usize, len: usize) -> (r: u64)
    requires
        start + len <= b@.len(),
        len <= 8,
    ensures
        r == le_value(b@.subrange(start as int, start + len)),
{
    let n = b.len();
    let mut acc: u64 = 0;
    let mut i: usize = len;
    proof {
        reveal_with_fuel(pow256, 9);
    }
    while i > 0
        invariant
            i <= len <= 8,
            start + len <= b@.len(),
            n == b@.len(),
            acc == le_value(b@.subrange(start + i, start + len)),
            pow256(8) == 0x1_0000_0000_0000_0000,
        decreases i,
    {
        let ghost tail = b@.subrange(start + i, start + len);
        proof {
            lemma_le_value_bound(b@.subrange(start + i - 1, start + len));
            lemma_pow256_mono((len - i + 1) as nat, 8);
            assert(b@.subrange(start + i - 1, start + len).drop_first() =~= tail);
        }
        acc = acc * 256 + b[start + (i - 1)] as u64;
        i = i - 1;
    }
    acc
}

proof fn lemma_pow256_mono(a: nat, b: nat)
    requires
        a <= b,
    ensures
        pow256(a) <= pow256(b),
    decreases b,
{
    if a < b {
        lemma_pow256_mono(a, (b - 1) as nat);
    }
}

// ---------------------------------------------------------------------------
// Reading a record: fill exactly the expected number of bytes, then confirm the end.

/// What a read of the pseudo-file gave.
pub enum ReadEvent {
    /// The bytes that one read returned; none means the end of the file.
    Bytes(Vec<u8>),
    /// The read was interrupted before any byte came and may be retried.
    Interrupted,
}

/// What the reader asks for next.
#[derive(Debug, Clone, PartialEq, Eq)]
pub enum ReadAction {
    /// Read again, at most this many bytes.
    Fill(usize),
    /// The record is complete: read once more to confirm the end of the file.
    ProbeEnd,
    /// The record is complete and the file ended after it.
    Complete,
    /// The record cannot be read.
    Fail(VarError),
}

/// A ghost view of an event: the bytes read, or `None` for an interruption.
pub open spec fn event_view(e: ReadEvent) -> Option<Seq<u8>> {
    match e {
        ReadEvent::Bytes(b) => Some(b@),
        ReadEvent::Interrupted => None,
    }
}

/// Gathers a record of a known length across reads that may each return only part of it.
pub struct RecordReader {
    pub expected: usize,
    pub received: Vec<u8>,
}

/// The request of a reader that holds `got` of `expected` bytes.
pub open spec fn pending(expected: nat, got: nat) -> ReadAction {
    if got < expected {
        ReadAction::Fill((expected - got) as usize)
    } else {
        ReadAction::ProbeEnd
    }
}

pub open spec fn over_long(expected: nat) -> ReadAction {
    ReadAction::Fail(VarError::ReadCount { read: (expected + 1) as usize, expected: expected as usize })
}

/// One step of the reader: the bytes it then holds and what it asks for.
pub open spec fn step_spec(expected: nat, got: Seq<u8>, e: Option<Seq<u8>>) -> (Seq<u8>, ReadAction) {
    match e {
        None => (got, pending(expected, got.len())),
        Some(c) => if got.len() < expected {
            if c.len() == 0 {
                (
                    got,
                    ReadAction::Fail(
                        VarError::ReadCount {
                            read: got.len() as usize,
                            expected: expected as usize,
                        },
                    ),
                )
            } else if got.len() + c.len() > expected {
                (got + c.subrange(0, expected - got.len()), over_long(expected))
            } else {
                (got + c, pending(expected, got.len() + c.len()))
            }
        } else {
            if c.len() == 0 {
                (got, ReadAction::Complete)
            } else {
                (got, over_long(expected))
            }
        },
    }
}

pub open spec fn is_final(a: ReadAction) -> bool {
    a is Complete || a is Fail
}

/// What a reader that holds `got` asks for after the events `es`, stopping at the
/// first that completes or fails the record.
pub open spec fn run(expected: nat, got: Seq<u8>, es: Seq<Option<Seq<u8>>>) -> ReadAction
    decreases es.len(),
{
    if es.len() == 0 {
        pending(expected, got.len())
    } else {
        let (g, a) = step_spec(expected, got, es[0]);
        if is_final(a) {
            a
        } else {
            run(expected, g, es.drop_first())
        }
    }
}

/// The number of bytes that the events deliver.
pub open spec fn delivered(es: Seq<Option<Seq<u8>>>) -> nat
    decreases es.len(),
{
    if es.len() == 0 {
        0
    } else {
        (match es[0] {
            Some(c) => c.len(),
            None => 0,
        }) + delivered(es.drop_first())
    }
}

/// Every read in `es` returned at least one byte (or was interrupted).
pub open spec fn all_non_empty(es: Seq<Option<Seq<u8>>>) -> bool {
    forall|i: int| 0 <= i < es.len() ==> (#[trigger] es[i] matches Some(c) ==> c.len() > 0)
}

impl RecordReader {
    /// A reader of a record of `expected` bytes, holding none yet.
    pub fn new(expected: usize) -> (r: RecordReader)
        ensures
            r.expected == expected,
            r.received@ == Seq::<u8>::empty(),
    {
        RecordReader { expected, received: Vec::new() }
    }

    /// What the reader asks for before its first read.
    pub fn start(&self) -> (r: ReadAction)
        ensures
            r == pending(self.expected as nat, self.received@.len()),
    {
        if self.received.len() < self.expected {
            ReadAction::Fill(self.expected - self.received.len())
        } else {
            ReadAction::ProbeEnd
        }
    }

    /// Takes in what a read gave and says what to do next.
    pub fn step(&mut self, event: ReadEvent) -> (r: ReadAction)
        requires
            old(self).expected < usize::MAX,
        ensures
            final(self).expected == old(self).expected,
            (final(self).received@, r) == step_spec(
                old(self).expected as nat,
                old(self).received@,
                event_view(event),
            ),
    {
        let got = self.received.len();
        match event {
            ReadEvent::Interrupted => self.start(),
            ReadEvent::Bytes(chunk) => {
                if got < self.expected {
                    if chunk.len() == 0 {
                        ReadAction::Fail(VarError::ReadCount { read: got, expected: self.expected })
                    } else {
                        let room = self.expected - got;
                        let take = if chunk.len() > room {
                            room
                        } else {
                            chunk.len()
                        };
                        let mut i: usize = 0;
                        let ghost before = self.received@;
                        while i < take
                            invariant
                                take <= chunk@.len(),
                                i <= take,
                                self.expected == old(self).expected,
                                self.received@ == before + chunk@.subrange(0, i as int),
                            decreases take - i,
                        {
                            self.received.push(chunk[i]);
                            i = i + 1;
                            assert(self.received@ =~= before + chunk@.subrange(0, i as int));
                        }
                        if chunk.len() > room {
                            ReadAction::Fail(
                                VarError::ReadCount {
                                    read: self.expected + 1,
                                    expected: self.expected,
                                },
                            )
                        } else {
                            assert(chunk@.subrange(0, i as int) =~= chunk@);
                            self.start()
                        }
                    }
                } else {
                    if chunk.len() == 0 {
                        ReadAction::Complete
                    } else {
                        ReadAction::Fail(
                            VarError::ReadCount { read: self.expected + 1, expected: self.expected },
                        )
                    }
                }
            },
        }
    }

    /// The bytes gathered so far, the whole record once the reader has completed.
    pub fn into_record(self) -> (r: Vec<u8>)
        ensures
            r@ == self.received@,
    {
        self.received
    }
}

/// A record cut short: when the reads before the end of the file deliver fewer
/// bytes than the record holds, the reader fails and reports exactly how many
/// bytes it read and how many it expected.
pub proof fn lemma_short_record_fails(expected: nat, got: Seq<u8>, es: Seq<Option<Seq<u8>>>)
    requires
        expected < usize::MAX,
        got.len() + delivered(es) < expected,
        all_non_empty(es),
    ensures
        run(expected, got, es.push(Some(Seq::empty()))) == ReadAction::Fail(
            VarError::ReadCount {
                read: (got.len() + delivered(es)) as usize,
                expected: expected as usize,
            },
        ),
    decreases es.len(),
{
    let all = es.push(Some(Seq::<u8>::empty()));
    if es.len() == 0 {
        assert(all.drop_first() =~= Seq::<Option<Seq<u8>>>::empty());
    } else {
        assert(all[0] == es[0]);
        assert(all.drop_first() =~= es.drop_first().push(Some(Seq::<u8>::empty())));
        assert(all_non_empty(es.drop_first())) by {
            assert forall|i: int| 0 <= i < es.drop_first().len() implies (
            #[trigger] es.drop_first()[i] matches Some(c) ==> c.len() > 0) by {
                assert(es.drop_first()[i] == es[i + 1]);
            }
        }
        assert(es[0] matches Some(c) ==> c.len() > 0);
        let (g, a) = step_spec(expected, got, es[0]);
        match es[0] {
            Some(c) => {
                assert(g == got + c);
                lemma_short_record_fails(expected, g, es.drop_first());
            },
            None => {
                lemma_short_record_fails(expected, got, es.drop_first());
            },
        }
    }
}

/// A record too long: when the reads deliver more bytes than the record holds,
/// the reader fails and reports one byte more than it expected.
pub proof fn lemma_long_record_fails(expected: nat, got: Seq<u8>, es: Seq<Option<Seq<u8>>>)
    requires
        expected < usize::MAX,
        got.len() <= expected,
        got.len() + delivered(es) > expected,
        all_non_empty(es),
    ensures
        run(expected, got, es) == over_long(expected),
    decreases es.len(),
{
    assert(es.len() > 0);
    assert(all_non_empty(es.drop_first())) by {
        assert forall|i: int| 0 <= i < es.drop_first().len() implies (
        #[trigger] es.drop_first()[i] matches Some(c) ==> c.len() > 0) by {
            assert(es.drop_first()[i] == es[i + 1]);
        }
    }
    assert(es[0] matches Some(c) ==> c.len() > 0);
    let (g, a) = step_spec(expected, got, es[0]);
    match es[0] {
        Some(c) => {
            if got.len() < expected && got.len() + c.len() <= expected {
                assert(g == got + c);
                lemma_long_record_fails(expected, g, es.drop_first());
            }
        },
        None => {
            lemma_long_record_fails(expected, got, es.drop_first());
        },
    }
}

// ---------------------------------------------------------------------------
// Decoding a record.

/// What `String::from_utf16` makes of the code units: the text, or nothing where
/// they are not valid UTF-16.
pub uninterp spec fn utf16_decoded(units: Seq<u16>) -> Option<Seq<char>>;

/// Relies on `String::from_utf16`: decodes UTF-16 and fails on an unpaired surrogate.
#[verifier::external_body]
fn utf16_to_string(units: &Vec<u16>) -> (r: Option<String>)
    ensures
        r is Some <==> utf16_decoded(units@) is Some,
        r matches Some(s) ==> utf16_decoded(units@) == Some(s@),
{
    String::from_utf16(units).ok()
}

/// Bytes in a record whose two platform-word fields are `w` bytes wide.
pub open spec fn record_len(w: nat) -> nat {
    2068 + 2 * w
}

pub open spec fn data_offset(w: nat) -> int {
    1040 + w as int
}

pub open spec fn status_offset(w: nat) -> int {
    2064 + w as int
}

pub open spec fn attributes_offset(w: nat) -> int {
    2064 + 2 * w as int
}

/// The 512 code units of the name field, little-endian.
pub open spec fn name_units(rec: Seq<u8>) -> Seq<u16> {
    Seq::new(512, |i: int| (rec[2 * i] as int + 256 * rec[2 * i + 1] as int) as u16)
}

/// `u` without its trailing zero units.
pub open spec fn trim_zeros(u: Seq<u16>) -> Seq<u16>
    decreases u.len(),
{
    if u.len() > 0 && u.last() == 0 {
        trim_zeros(u.drop_last())
    } else {
        u
    }
}

pub open spec fn record_name(rec: Seq<u8>) -> Option<Seq<char>> {
    utf16_decoded(trim_zeros(name_units(rec)))
}

pub open spec fn record_guid(rec: Seq<u8>) -> EfiGuid {
    guid_from_bytes(rec.subrange(1024, 1040))
}

pub open spec fn record_data_size(w: nat, rec: Seq<u8>) -> nat {
    le_value(rec.subrange(1040, 1040 + w as int))
}

pub open spec fn record_status(w: nat, rec: Seq<u8>) -> nat {
    le_value(rec.subrange(status_offset(w), status_offset(w) + w))
}

pub open spec fn record_attributes(w: nat, rec: Seq<u8>) -> u32 {
    le_value(rec.subrange(attributes_offset(w), attributes_offset(w) + 4)) as u32
}

/// The first check that a record fails, in the order in which they are made, or
/// `None` for a record that decodes.
pub open spec fn record_error(w: nat, rec: Seq<u8>) -> Option<VarError> {
    if rec.len() != record_len(w) {
        Some(VarError::ReadCount { read: rec.len() as usize, expected: record_len(w) as usize })
    } else if record_name(rec) is None {
        Some(VarError::InvalidName)
    } else if record_data_size(w, rec) > MAX_DATA_SIZE {
        Some(VarError::DataSizeExceeded { data_size: record_data_size(w, rec) as u64 })
    } else if record_status(w, rec) != 0 {
        Some(VarError::Status { code: record_status(w, rec) as u64 })
    } else {
        None
    }
}

/// `v` is the variable that the well-formed record `rec` holds.
pub open spec fn decodes_to(w: nat, rec: Seq<u8>, v: EfiVariable) -> bool {
    &&& record_name(rec) == Some(v.name@)
    &&& v.guid == record_guid(rec)
    &&& v.data@ == rec.subrange(data_offset(w), data_offset(w) + record_data_size(w, rec))
    &&& v.attributes@ == decoded_attributes(record_attributes(w, rec))
}

/// Decodes a record whose two platform-word fields (data size and status) are
/// `width` bytes wide: the name as UTF-16 without its trailing zero units, the
/// GUID, at most 1024 bytes of data, a status that must be zero, and the attributes.
/// The integer fields are little-endian, as on every UEFI platform.
pub fn parse_record(width: usize, rec: &[u8]) -> (r: Result<EfiVariable, VarError>)
    requires
        width == 4 || width == 8,
    ensures
        match record_error(width as nat, rec@) {
            Some(e) => r == Err::<EfiVariable, VarError>(e),
            None => r matches Ok(v) && decodes_to(width as nat, rec@, v),
        },
{
    let total = 2068 + 2 * width;
    if rec.len() != total {
        return Err(VarError::ReadCount { read: rec.len(), expected: total });
    }
    let mut units: Vec<u16> = Vec::new();
    let mut i: usize = 0;
    while i < 512
        invariant
            i <= 512,
            rec@.len() == total,
            total >= 2076,
            units@ == name_units(rec@).subrange(0, i as int),
        decreases 512 - i,
    {
        let u = (rec[2 * i] as u16) + 256 * (rec[2 * i + 1] as u16);
        units.push(u);
        i = i + 1;
        assert(units@ =~= name_units(rec@).subrange(0, i as int));
    }
    assert(units@ =~= name_units(rec@));
    let mut k: usize = 512;
    while k > 0 && units[k - 1] == 0
        invariant
            k <= 512,
            units@.len() == 512,
            trim_zeros(name_units(rec@)) == trim_zeros(units@.subrange(0, k as int)),
        decreases k,
    {
        assert(units@.subrange(0, k as int).drop_last() =~= units@.subrange(0, k - 1));
        k = k - 1;
    }
    let mut trimmed: Vec<u16> = Vec::new();
    let mut j: usize = 0;
    while j < k
        invariant
            j <= k <= 512,
            units@.len() == 512,
            trimmed@ == units@.subrange(0, j as int),
        decreases k - j,
    {
        trimmed.push(units[j]);
        j = j + 1;
        assert(trimmed@ =~= units@.subrange(0, j as int));
    }
    assert(trim_zeros(units@.subrange(0, k as int)) == units@.subrange(0, k as int));
    let name = match utf16_to_string(&trimmed) {
        Some(s) => s,
        None => {
            return Err(VarError::InvalidName);
        },
    };
    let mut guid_bytes: [u8; 16] = [0u8; 16];
    let mut g: usize = 0;
    while g < 16
        invariant
            g <= 16,
            rec@.len() == total,
            total >= 2076,
            forall|x: int| 0 <= x < g ==> guid_bytes@[x] == rec@[1024 + x],
        decreases 16 - g,
    {
        guid_bytes[g] = rec[1024 + g];
        g = g + 1;
    }
    assert(guid_bytes@ =~= rec@.subrange(1024, 1040));
    let guid = EfiGuid::from_bytes(&guid_bytes);
    let data_size = read_le(rec, 1040, width);
    if data_size > 1024 {
        return Err(VarError::DataSizeExceeded { data_size });
    }
    let status = read_le(rec, 2064 + width, width);
    if status != 0 {
        return Err(VarError::Status { code: status });
    }
    let word = read_le(rec, 2064 + 2 * width, 4);
    proof {
        lemma_le_value_bound(rec@.subrange(2064 + 2 * width, 2064 + 2 * width + 4));
        reveal_with_fuel(pow256, 5);
    }
    let attributes = parse_attributes(word as u32);
    let start = 1040 + width;
    let end = start + data_size as usize;
    let mut data: Vec<u8> = Vec::new();
    let mut p: usize = start;
    while p < end
        invariant
            start <= p <= end,
            end <= rec@.len(),
            data@ == rec@.subrange(start as int, p as int),
        decreases end - p,
    {
        data.push(rec[p]);
        p = p + 1;
        assert(data@ =~= rec@.subrange(start as int, p as int));
    }
    Ok(EfiVariable { attributes, guid, name, data })
}

/// A record whose data size field exceeds 1024 is refused as corrupt, however
/// well-formed the rest of it is.
pub proof fn lemma_oversized_data_rejected(w: nat, rec: Seq<u8>)
    requires
        rec.len() == record_len(w),
        record_name(rec) is Some,
        record_data_size(w, rec) > MAX_DATA_SIZE,
    ensures
        record_error(w, rec) == Some(
            VarError::DataSizeExceeded { data_size: record_data_size(w, rec) as u64 },
        ),
{
}

} // verus!
