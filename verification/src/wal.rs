//! The write-ahead log: how log operations are laid out in a file, and how a file is read back.
//!
//! A file is a sequence of records:
//!
//! ```text
//! magic (2) | type (1) | length (4, little endian) | payload | crc32 (4, little endian)
//! ```
//!
//! The checksum covers type, length and payload. Reading stops at the first record that is
//! incomplete or damaged; what stands from there on is discarded.

use vstd::bytes::{u32_from_le_bytes, u32_to_le_bytes};
use vstd::prelude::*;
use vstd::slice::slice_subrange;

use crate::raft_log::{LogEntry, LogId, RaftLog};

verus! {

/// First byte of a record.
pub const WAL_MAGIC_0: u8 = 0x52;

/// Second byte of a record.
pub const WAL_MAGIC_1: u8 = 0x41;

/// Bytes before the payload: magic, type and length.
pub const HEADER_SIZE: usize = 7;

/// Bytes of the checksum.
pub const CRC_SIZE: usize = 4;

/// A record that claims a longer payload is taken for damaged.
pub const MAX_PAYLOAD_SIZE: usize = 16_777_216;

/// The file is rewritten once it is longer than this.
pub const COMPACTION_THRESHOLD: u64 = 4_194_304;

/// The three changes that are written to the log.
#[derive(Debug, Clone, Copy, PartialEq, Eq, Structural)]
pub enum RecordType {
    /// An entry was appended.
    Append,
    /// All entries up to an index were dropped.
    Purge,
    /// All entries from an index on were dropped.
    Truncate,
}

/// The byte that stands for a record type.
pub open spec fn type_byte(t: RecordType) -> u8 {
    match t {
        RecordType::Append => 1,
        RecordType::Purge => 2,
        RecordType::Truncate => 3,
    }
}

/// The record type that a byte stands for.
pub open spec fn type_of_byte(b: u8) -> Option<RecordType> {
    if b == 1 {
        Some(RecordType::Append)
    } else if b == 2 {
        Some(RecordType::Purge)
    } else if b == 3 {
        Some(RecordType::Truncate)
    } else {
        None
    }
}

impl RecordType {
    /// The record type that the byte `v` stands for; `None` means that the file is damaged.
    pub fn from_u8(v: u8) -> (r: Option<Self>)
        ensures
            r == type_of_byte(v),
    {
        match v {
            1 => Some(RecordType::Append),
            2 => Some(RecordType::Purge),
            3 => Some(RecordType::Truncate),
            _ => None,
        }
    }

    /// The byte that stands for this record type.
    pub fn to_u8(self) -> (r: u8)
        ensures
            r == type_byte(self),
    {
        match self {
            RecordType::Append => 1,
            RecordType::Purge => 2,
            RecordType::Truncate => 3,
        }
    }
}

/// Why a record could not be read.
#[derive(Debug, Clone, Copy, PartialEq, Eq, Structural)]
pub enum WalError {
    /// The record does not begin with the magic bytes.
    BadMagic,
    /// No record type has this byte.
    UnknownRecordType,
    /// The length field is beyond the limit.
    PayloadTooLarge,
    /// The file ends within the payload or the checksum.
    Incomplete,
    /// The checksum does not fit the contents.
    CrcMismatch,
}

/// The CRC-32 checksum of some bytes.
pub uninterp spec fn crc32_of(bytes: Seq<u8>) -> u32;

/// `crc32fast::hash`: the CRC-32 checksum of the bytes.
#[verifier::external_body]
fn crc32(bytes: &[u8]) -> (r: u32)
    ensures
        r == crc32_of(bytes@),
{
    crc32fast::hash(bytes)
}

/// `bincode::deserialize` to a `u64`: eight bytes, little endian; what follows them is ignored, and
/// it fails exactly where there are fewer.
#[verifier::external_body]
fn bincode_read_u64(bytes: &[u8]) -> (r: Option<u64>)
    ensures
        r == read_u64(bytes@),
{
    bincode::deserialize::<u64>(bytes).ok()
}

/// `bincode::deserialize` to three `u64`: eight bytes each, little endian; what follows them is
/// ignored, and it fails exactly where there are fewer.
#[verifier::external_body]
fn bincode_read_three_u64(bytes: &[u8]) -> (r: Option<(u64, u64, u64)>)
    ensures
        match r {
            Some(t) => read_log_id(bytes@) == Some(LogId { term: t.0, node_id: t.1, index: t.2 }),
            None => read_log_id(bytes@) is None,
        },
{
    bincode::deserialize::<(u64, u64, u64)>(bytes).ok()
}

/// `bincode::serialize` of a `u64`: its eight bytes, little endian. Writing an integer to memory
/// does not fail.
#[verifier::external_body]
fn bincode_write_u64(n: u64) -> (r: Vec<u8>)
    ensures
        r@ == vstd::bytes::spec_u64_to_le_bytes(n),
{
    bincode::serialize(&n).unwrap()
}

/// `bincode::serialize` of three `u64`: their eight bytes each, little endian, one after the other.
/// Writing integers to memory does not fail.
#[verifier::external_body]
fn bincode_write_three_u64(a: u64, b: u64, c: u64) -> (r: Vec<u8>)
    ensures
        r@ == vstd::bytes::spec_u64_to_le_bytes(a) + vstd::bytes::spec_u64_to_le_bytes(b) + vstd::bytes::spec_u64_to_le_bytes(c),
{
    bincode::serialize(&(a, b, c)).unwrap()
}

/// The number that a payload begins with.
pub open spec fn read_u64(bytes: Seq<u8>) -> Option<u64> {
    if bytes.len() < 8 {
        None
    } else {
        Some(vstd::bytes::spec_u64_from_le_bytes(bytes.subrange(0, 8)))
    }
}

/// The log identity that a payload begins with.
pub open spec fn read_log_id(bytes: Seq<u8>) -> Option<LogId> {
    if bytes.len() < 24 {
        None
    } else {
        Some(
            LogId {
                term: vstd::bytes::spec_u64_from_le_bytes(bytes.subrange(0, 8)),
                node_id: vstd::bytes::spec_u64_from_le_bytes(bytes.subrange(8, 16)),
                index: vstd::bytes::spec_u64_from_le_bytes(bytes.subrange(16, 24)),
            },
        )
    }
}

/// The payload of a record that says that entries were dropped from the front.
#[derive(Debug, Clone, Copy, PartialEq, Eq, Structural)]
pub struct PurgePayload {
    /// The last entry that was dropped.
    pub log_id: LogId,
}

/// The payload of a record that says that entries were dropped from the back.
#[derive(Debug, Clone, Copy, PartialEq, Eq, Structural)]
pub struct TruncatePayload {
    /// The first index that was dropped.
    pub since_index: u64,
}

/// The bytes of a purge payload.
pub open spec fn purge_bytes(id: LogId) -> Seq<u8> {
    vstd::bytes::spec_u64_to_le_bytes(id.term) + vstd::bytes::spec_u64_to_le_bytes(id.node_id) + vstd::bytes::spec_u64_to_le_bytes(id.index)
}

impl PurgePayload {
    /// The bytes of this payload.
    pub fn encode(&self) -> (r: Vec<u8>)
        ensures
            r@ == purge_bytes(self.log_id),
            read_log_id(r@) == Some(self.log_id),
            r@.len() == 24,
    {
        let r = bincode_write_three_u64(self.log_id.term, self.log_id.node_id, self.log_id.index);
        proof {
            lemma_purge_bytes(self.log_id);
        }
        r
    }
}

impl TruncatePayload {
    /// The bytes of this payload.
    pub fn encode(&self) -> (r: Vec<u8>)
        ensures
            r@ == vstd::bytes::spec_u64_to_le_bytes(self.since_index),
            read_u64(r@) == Some(self.since_index),
            r@.len() == 8,
    {
        let r = bincode_write_u64(self.since_index);
        proof {
            vstd::bytes::lemma_auto_spec_u64_to_from_le_bytes();
            assert(r@.subrange(0, 8) =~= r@);
        }
        r
    }
}

/// A purge payload reads back as the identity that was written.
pub proof fn lemma_purge_bytes(id: LogId)
    ensures
        purge_bytes(id).len() == 24,
        read_log_id(purge_bytes(id)) == Some(id),
{
    vstd::bytes::lemma_auto_spec_u64_to_from_le_bytes();
    let b = purge_bytes(id);
    assert(b.subrange(0, 8) =~= vstd::bytes::spec_u64_to_le_bytes(id.term));
    assert(b.subrange(8, 16) =~= vstd::bytes::spec_u64_to_le_bytes(id.node_id));
    assert(b.subrange(16, 24) =~= vstd::bytes::spec_u64_to_le_bytes(id.index));
}

// ---------------------------------------------------------------------------------------------
// Records
// ---------------------------------------------------------------------------------------------
/// The part of a record that its checksum covers.
pub open spec fn covered(t: RecordType, payload: Seq<u8>) -> Seq<u8> {
    seq![type_byte(t)] + vstd::bytes::spec_u32_to_le_bytes(payload.len() as u32) + payload
}

/// The bytes of a record.
pub open spec fn record_bytes(t: RecordType, payload: Seq<u8>) -> Seq<u8> {
    seq![WAL_MAGIC_0, WAL_MAGIC_1] + covered(t, payload) + vstd::bytes::spec_u32_to_le_bytes(
        crc32_of(covered(t, payload)),
    )
}

/// What the first record of some bytes is: its type, its payload and its length; `None` where
/// there are no bytes.
pub open spec fn parse_record(d: Seq<u8>) -> Result<Option<(RecordType, Seq<u8>, int)>, WalError> {
    if d.len() == 0 {
        Ok(None)
    } else if d.len() < HEADER_SIZE {
        Err(WalError::Incomplete)
    } else if d[0] != WAL_MAGIC_0 || d[1] != WAL_MAGIC_1 {
        Err(WalError::BadMagic)
    } else {
        match type_of_byte(d[2]) {
            None => Err(WalError::UnknownRecordType),
            Some(t) => {
                let n = vstd::bytes::spec_u32_from_le_bytes(d.subrange(3, 7)) as int;
                if n > MAX_PAYLOAD_SIZE {
                    Err(WalError::PayloadTooLarge)
                } else if d.len() < HEADER_SIZE + n + CRC_SIZE {
                    Err(WalError::Incomplete)
                } else if crc32_of(d.subrange(2, HEADER_SIZE + n)) != vstd::bytes::spec_u32_from_le_bytes(
                    d.subrange(HEADER_SIZE + n, HEADER_SIZE + n + CRC_SIZE),
                ) {
                    Err(WalError::CrcMismatch)
                } else {
                    Ok(
                        Some(
                            (
                                t,
                                d.subrange(HEADER_SIZE as int, HEADER_SIZE + n),
                                HEADER_SIZE + n + CRC_SIZE,
                            ),
                        ),
                    )
                }
            },
        }
    }
}

fn push_all(out: &mut Vec<u8>, bytes: &[u8])
    ensures
        final(out)@ == old(out)@ + bytes@,
{
    let mut i: usize = 0;
    while i < bytes.len()
        invariant
            i <= bytes@.len(),
            out@ == old(out)@ + bytes@.take(i as int),
        decreases bytes@.len() - i,
    {
        out.push(bytes[i]);
        i = i + 1;
        assert(bytes@.take(i as int) == bytes@.take(i - 1).push(bytes@[i - 1]));
    }
    assert(bytes@.take(i as int) =~= bytes@);
}

/// The bytes of a record.
pub fn write_record_bytes(record_type: RecordType, payload: &[u8]) -> (r: Vec<u8>)
    ensures
        r@ == record_bytes(record_type, payload@),
        r@.len() == HEADER_SIZE + payload@.len() + CRC_SIZE,
{
    let length: u32 = payload.len() as u32;
    let length_bytes = u32_to_le_bytes(length);
    let mut body: Vec<u8> = Vec::new();
    body.push(record_type.to_u8());
    push_all(&mut body, length_bytes.as_slice());
    push_all(&mut body, payload);
    assert(body@ =~= covered(record_type, payload@));
    let crc: u32 = crc32(body.as_slice());
    let crc_bytes = u32_to_le_bytes(crc);
    let mut r: Vec<u8> = Vec::new();
    r.push(WAL_MAGIC_0);
    r.push(WAL_MAGIC_1);
    push_all(&mut r, body.as_slice());
    push_all(&mut r, crc_bytes.as_slice());
    assert(r@ =~= record_bytes(record_type, payload@));
    r
}

/// Reads the record that begins at `pos`; `None` where the bytes end there. A record that is
/// incomplete or corrupted is an error.
pub fn read_one_record(data: &[u8], pos: usize) -> (r: Result<
    Option<(RecordType, Vec<u8>, u64)>,
    WalError,
>)
    requires
        pos <= data@.len(),
    ensures
        match r {
            Ok(Some(rec)) => {
                &&& parse_record(data@.skip(pos as int)) == Ok::<_, WalError>(
                    Some((rec.0, rec.1@, rec.2 as int)),
                )
                &&& 0 < rec.2 <= data@.len() - pos
            },
            Ok(None) => parse_record(data@.skip(pos as int)) == Ok::<
                Option<(RecordType, Seq<u8>, int)>,
                WalError,
            >(None),
            Err(e) => parse_record(data@.skip(pos as int)) == Err::<
                Option<(RecordType, Seq<u8>, int)>,
                WalError,
            >(e),
        },
{
    let ghost d = data@.skip(pos as int);
    let total: usize = data.len();
    let left: usize = total - pos;
    if left == 0 {
        return Ok(None);
    }
    if left < HEADER_SIZE {
        return Err(WalError::Incomplete);
    }
    if data[pos] != WAL_MAGIC_0 || data[pos + 1] != WAL_MAGIC_1 {
        assert(d[0] == data@[pos as int] && d[1] == data@[pos + 1]);
        return Err(WalError::BadMagic);
    }
    assert(d[0] == data@[pos as int] && d[1] == data@[pos + 1] && d[2] == data@[pos + 2]);
    let record_type = match RecordType::from_u8(data[pos + 2]) {
        Some(t) => t,
        None => {
            return Err(WalError::UnknownRecordType);
        },
    };
    let length: usize = u32_from_le_bytes(slice_subrange(data, pos + 3, pos + 7)) as usize;
    assert(data@.subrange(pos + 3, pos + 7) =~= d.subrange(3, 7));
    if length > MAX_PAYLOAD_SIZE {
        return Err(WalError::PayloadTooLarge);
    }
    if left - HEADER_SIZE < length + CRC_SIZE {
        return Err(WalError::Incomplete);
    }
    let body_end: usize = pos + HEADER_SIZE + length;
    let stored: u32 = u32_from_le_bytes(slice_subrange(data, body_end, body_end + CRC_SIZE));
    assert(data@.subrange(body_end as int, body_end + CRC_SIZE) =~= d.subrange(
        HEADER_SIZE + length,
        HEADER_SIZE + length + CRC_SIZE,
    ));
    let computed: u32 = crc32(slice_subrange(data, pos + 2, body_end));
    assert(data@.subrange(pos + 2, body_end as int) =~= d.subrange(2, HEADER_SIZE + length));
    if computed != stored {
        return Err(WalError::CrcMismatch);
    }
    let mut payload: Vec<u8> = Vec::new();
    push_all(&mut payload, slice_subrange(data, pos + HEADER_SIZE, body_end));
    assert(payload@ =~= d.subrange(HEADER_SIZE as int, HEADER_SIZE + length));
    let record_len: u64 = (HEADER_SIZE + length + CRC_SIZE) as u64;
    Ok(Some((record_type, payload, record_len)))
}

// ---------------------------------------------------------------------------------------------
// Replay
// ---------------------------------------------------------------------------------------------
/// A change of the log.
pub ghost enum LogOp {
    Append(LogEntry),
    Purge(LogId),
    Truncate(u64),
}

/// The log and the last entry that was dropped from its front.
#[verifier::ext_equal]
pub ghost struct LogState {
    pub log: Map<u64, LogEntry>,
    pub last_purged: Option<LogId>,
}

/// What reading a file gives: the log, and how many bytes of the file are good.
#[verifier::ext_equal]
pub ghost struct Replayed {
    pub state: LogState,
    pub valid_len: int,
}

/// The log before anything was written.
pub open spec fn empty_log() -> LogState {
    LogState { log: Map::empty(), last_purged: None }
}

/// The log after a change.
pub open spec fn apply_op(s: LogState, op: LogOp) -> LogState {
    match op {
        LogOp::Append(e) => LogState { log: s.log.insert(e.log_id.index, e), ..s },
        LogOp::Purge(id) => LogState {
            log: s.log.restrict(Set::new(|i: u64| i > id.index)),
            last_purged: Some(id),
        },
        LogOp::Truncate(since) => LogState {
            log: s.log.restrict(Set::new(|i: u64| i < since)),
            ..s
        },
    }
}

/// The change that a record stands for; `entry` is what the payload of an append record decodes
/// to. `None` where the payload cannot be decoded.
pub open spec fn op_of(t: RecordType, payload: Seq<u8>, entry: Option<LogEntry>) -> Option<LogOp> {
    match t {
        RecordType::Append => match entry {
            Some(e) => Some(LogOp::Append(e)),
            None => None,
        },
        RecordType::Purge => match read_log_id(payload) {
            Some(id) => Some(LogOp::Purge(id)),
            None => None,
        },
        RecordType::Truncate => match read_u64(payload) {
            Some(since) => Some(LogOp::Truncate(since)),
            None => None,
        },
    }
}

/// What the next append record decodes to.
pub open spec fn next_entry(t: RecordType, decoded: Seq<Option<LogEntry>>) -> Option<LogEntry> {
    if t is Append && decoded.len() > 0 {
        decoded[0]
    } else {
        None
    }
}

/// The decoded entries that are left after a record.
pub open spec fn rest_entries(t: RecordType, decoded: Seq<Option<LogEntry>>) -> Seq<
    Option<LogEntry>,
> {
    if t is Append && decoded.len() > 0 {
        decoded.skip(1)
    } else {
        decoded
    }
}

/// Reads records from `d` and applies them, up to the first that is incomplete, damaged or cannot
/// be decoded. `decoded` holds what the append records decode to, in order.
pub open spec fn replay(d: Seq<u8>, decoded: Seq<Option<LogEntry>>, from: Replayed) -> Replayed
    decreases d.len(),
{
    match parse_record(d) {
        Ok(Some((t, p, n))) => match op_of(t, p, next_entry(t, decoded)) {
            Some(op) => if 0 < n <= d.len() {
                replay(
                    d.skip(n),
                    rest_entries(t, decoded),
                    Replayed { state: apply_op(from.state, op), valid_len: from.valid_len + n },
                )
            } else {
                from
            },
            None => from,
        },
        _ => from,
    }
}

/// The payloads of the append records of `d`, in order, up to the first record that is incomplete
/// or damaged.
pub open spec fn append_payloads_of(d: Seq<u8>) -> Seq<Seq<u8>>
    decreases d.len(),
{
    match parse_record(d) {
        Ok(Some((t, p, n))) => if 0 < n <= d.len() {
            if t is Append {
                seq![p] + append_payloads_of(d.skip(n))
            } else {
                append_payloads_of(d.skip(n))
            }
        } else {
            Seq::empty()
        },
        _ => Seq::empty(),
    }
}

/// The payloads, as sequences of bytes.
pub open spec fn payload_views(v: Seq<Vec<u8>>) -> Seq<Seq<u8>> {
    v.map_values(|p: Vec<u8>| p@)
}

/// The payloads of the append records of a file, in order.
pub fn append_payloads(data: &[u8]) -> (r: Vec<Vec<u8>>)
    ensures
        payload_views(r@) == append_payloads_of(data@),
{
    let mut out: Vec<Vec<u8>> = Vec::new();
    let total: usize = data.len();
    let mut pos: usize = 0;
    assert(data@.skip(0) =~= data@);
    assert(payload_views(out@) + append_payloads_of(data@.skip(0)) =~= append_payloads_of(data@));
    loop
        invariant
            pos <= data@.len(),
            total == data@.len(),
            payload_views(out@) + append_payloads_of(data@.skip(pos as int)) == append_payloads_of(
                data@,
            ),
        decreases data@.len() - pos,
    {
        let ghost rest = data@.skip(pos as int);
        match read_one_record(data, pos) {
            Ok(Some((record_type, payload, record_len))) => {
                let ghost before = out@;
                let ghost p = payload@;
                if let RecordType::Append = record_type {
                    out.push(payload);
                    assert(payload_views(out@) =~= payload_views(before).push(p));
                }
                assert(rest.skip(record_len as int) =~= data@.skip(pos + record_len));
                pos = pos + record_len as usize;
                assert(payload_views(out@) + append_payloads_of(data@.skip(pos as int))
                    =~= payload_views(before) + append_payloads_of(rest));
            },
            _ => {
                assert(payload_views(out@) + append_payloads_of(rest) =~= payload_views(out@));
                return out;
            },
        }
    }
}

/// What a file gives back when it is read.
#[derive(Debug)]
pub struct WalReplayResult {
    /// The log.
    pub log: RaftLog,
    /// The last entry that was dropped from the front of the log.
    pub last_purged: Option<LogId>,
    /// The length of the good part of the file.
    pub valid_len: u64,
}

impl View for WalReplayResult {
    type V = Replayed;

    open spec fn view(&self) -> Replayed {
        Replayed {
            state: LogState { log: self.log@, last_purged: self.last_purged },
            valid_len: self.valid_len as int,
        }
    }
}

/// Applies one record. `entry` is what the payload of an append record decodes to. Says whether
/// the record could be decoded; where not, nothing changes.
pub fn apply_record(
    result: &mut WalReplayResult,
    record_type: RecordType,
    payload: &[u8],
    entry: Option<LogEntry>,
) -> (r: bool)
    ensures
        final(result).valid_len == old(result).valid_len,
        match op_of(record_type, payload@, entry) {
            Some(op) => r && final(result)@.state == apply_op(old(result)@.state, op),
            None => !r && final(result)@ == old(result)@,
        },
{
    match record_type {
        RecordType::Append => match entry {
            Some(e) => {
                result.log.insert(e);
                true
            },
            None => false,
        },
        RecordType::Purge => match bincode_read_three_u64(payload) {
            Some((term, node_id, index)) => {
                let log_id = LogId { term, node_id, index };
                result.log.purge_upto(index);
                result.last_purged = Some(log_id);
                true
            },
            None => false,
        },
        RecordType::Truncate => match bincode_read_u64(payload) {
            Some(since_index) => {
                result.log.truncate_since(since_index);
                true
            },
            None => false,
        },
    }
}

/// Reads a file back: `data` is its contents, and `decoded` what the payloads of
/// `append_payloads(data)` decode to, `None` for one that does not.
pub fn replay_wal(data: &[u8], decoded: &Vec<Option<LogEntry>>) -> (r: WalReplayResult)
    ensures
        r@ == replay(data@, decoded@, Replayed { state: empty_log(), valid_len: 0 }),
        r.valid_len <= data@.len(),
{
    let mut result = WalReplayResult { log: RaftLog::new(), last_purged: None, valid_len: 0 };
    let ghost start = Replayed { state: empty_log(), valid_len: 0 };
    let total: usize = data.len();
    let mut pos: usize = 0;
    let mut next: usize = 0;
    assert(data@.skip(0) =~= data@);
    assert(decoded@.skip(0) =~= decoded@);
    assert(result@ =~= start);
    loop
        invariant
            pos <= data@.len(),
            total == data@.len(),
            next <= decoded@.len(),
            result.valid_len == pos,
            start == (Replayed { state: empty_log(), valid_len: 0 }),
            replay(data@.skip(pos as int), decoded@.skip(next as int), result@) == replay(
                data@,
                decoded@,
                start,
            ),
        decreases data@.len() - pos,
    {
        let ghost rest = data@.skip(pos as int);
        let ghost left = decoded@.skip(next as int);
        let ghost before = result@;
        match read_one_record(data, pos) {
            Ok(Some((record_type, payload, record_len))) => {
                let mut entry: Option<LogEntry> = None;
                let mut used: bool = false;
                if let RecordType::Append = record_type {
                    if next < decoded.len() {
                        used = true;
                        if let Some(e) = &decoded[next] {
                            entry = Some(e.clone());
                        }
                    }
                }
                assert(entry == next_entry(record_type, left));
                if !apply_record(&mut result, record_type, payload.as_slice(), entry) {
                    return result;
                }
                assert(rest.skip(record_len as int) =~= data@.skip(pos + record_len));
                result.valid_len = result.valid_len + record_len;
                pos = pos + record_len as usize;
                if used {
                    assert(left.skip(1) =~= decoded@.skip(next + 1));
                    next = next + 1;
                }
                assert(result@ == (Replayed {
                    state: apply_op(
                        before.state,
                        op_of(record_type, payload@, entry)->0,
                    ),
                    valid_len: before.valid_len + record_len,
                }));
            },
            _ => {
                return result;
            },
        }
    }
}

// ---------------------------------------------------------------------------------------------
// Writing
// ---------------------------------------------------------------------------------------------
/// The bytes of a sequence of records.
pub open spec fn bytes_of(recs: Seq<(RecordType, Seq<u8>)>) -> Seq<u8>
    decreases recs.len(),
{
    if recs.len() == 0 {
        Seq::empty()
    } else {
        bytes_of(recs.drop_last()) + record_bytes(recs.last().0, recs.last().1)
    }
}

/// The records of a fresh file for a log: the last entry that was dropped, where there is one, then
/// the entries.
pub open spec fn compact_records(last_purged: Option<LogId>, payloads: Seq<Seq<u8>>) -> Seq<
    (RecordType, Seq<u8>),
> {
    (match last_purged {
        Some(id) => seq![(RecordType::Purge, purge_bytes(id))],
        None => Seq::empty(),
    }) + payloads.map_values(|p: Seq<u8>| (RecordType::Append, p))
}

/// The contents of a fresh file for a log: `payloads` holds the encoded entries in the order of
/// their indexes.
pub fn compact_image(last_purged: Option<LogId>, payloads: &Vec<Vec<u8>>) -> (r: Vec<u8>)
    ensures
        r@ == bytes_of(compact_records(last_purged, payload_views(payloads@))),
{
    let mut out: Vec<u8> = Vec::new();
    let ghost head = compact_records(last_purged, Seq::empty());
    if let Some(log_id) = last_purged {
        let payload = (PurgePayload { log_id }).encode();
        let bytes = write_record_bytes(RecordType::Purge, payload.as_slice());
        push_all(&mut out, bytes.as_slice());
        proof {
            assert(head =~= seq![(RecordType::Purge, purge_bytes(log_id))]);
            assert(head.drop_last() =~= Seq::empty());
            assert(head.last() == (RecordType::Purge, purge_bytes(log_id)));
            assert(bytes_of(head.drop_last()) =~= Seq::empty());
            assert(out@ =~= bytes_of(head));
        }
    } else {
        assert(head =~= Seq::empty());
        assert(out@ =~= bytes_of(head));
    }
    let mut i: usize = 0;
    assert(payload_views(payloads@).take(0) =~= Seq::empty());
    while i < payloads.len()
        invariant
            i <= payloads@.len(),
            out@ == bytes_of(compact_records(last_purged, payload_views(payloads@).take(i as int))),
        decreases payloads@.len() - i,
    {
        let bytes = write_record_bytes(RecordType::Append, payloads[i].as_slice());
        let ghost before = out@;
        push_all(&mut out, bytes.as_slice());
        proof {
            let now = compact_records(last_purged, payload_views(payloads@).take(i as int));
            let then_ = compact_records(last_purged, payload_views(payloads@).take(i + 1));
            assert(then_.drop_last() =~= now);
            assert(then_.last() == (RecordType::Append, payloads@[i as int]@));
        }
        i = i + 1;
    }
    assert(payload_views(payloads@).take(i as int) =~= payload_views(payloads@));
    out
}

/// What is to be appended to the file, and how long the file will then be.
#[derive(Debug)]
pub struct WalWriter {
    /// Bytes that were not handed out yet.
    pub pending: Vec<u8>,
    /// The length of the file with the pending bytes.
    pub file_size: u64,
}

impl WalWriter {
    /// A writer for a file with these contents, and what the file gives back. The file is to be cut
    /// to the good part first.
    pub fn open(data: &[u8], decoded: &Vec<Option<LogEntry>>) -> (r: (Self, WalReplayResult))
        ensures
            r.1@ == replay(data@, decoded@, Replayed { state: empty_log(), valid_len: 0 }),
            r.0.pending@ == Seq::<u8>::empty(),
            r.0.file_size == r.1.valid_len,
            r.1.valid_len <= data@.len(),
    {
        let replayed = replay_wal(data, decoded);
        let writer = WalWriter { pending: Vec::new(), file_size: replayed.valid_len };
        (writer, replayed)
    }

    /// Adds a record to the pending bytes.
    pub fn append_record_buffered(&mut self, record_type: RecordType, payload: &[u8])
        requires
            old(self).file_size + HEADER_SIZE + payload@.len() + CRC_SIZE <= u64::MAX,
        ensures
            final(self).pending@ == old(self).pending@ + record_bytes(record_type, payload@),
            final(self).file_size == old(self).file_size + record_bytes(
                record_type,
                payload@,
            ).len(),
    {
        let bytes = write_record_bytes(record_type, payload);
        let added: u64 = bytes.len() as u64;
        push_all(&mut self.pending, bytes.as_slice());
        self.file_size = self.file_size + added;
    }

    /// Adds a record and hands out all pending bytes, to be written and made durable.
    pub fn append_record(&mut self, record_type: RecordType, payload: &[u8]) -> (r: Vec<u8>)
        requires
            old(self).file_size + HEADER_SIZE + payload@.len() + CRC_SIZE <= u64::MAX,
        ensures
            r@ == old(self).pending@ + record_bytes(record_type, payload@),
            final(self).pending@ == Seq::<u8>::empty(),
            final(self).file_size == old(self).file_size + record_bytes(
                record_type,
                payload@,
            ).len(),
    {
        self.append_record_buffered(record_type, payload);
        self.sync()
    }

    /// Hands out all pending bytes, to be written and made durable.
    pub fn sync(&mut self) -> (r: Vec<u8>)
        ensures
            r@ == old(self).pending@,
            final(self).pending@ == Seq::<u8>::empty(),
            final(self).file_size == old(self).file_size,
    {
        let mut r: Vec<u8> = Vec::new();
        std::mem::swap(&mut r, &mut self.pending);
        r
    }

    /// The length of the file with the pending bytes.
    pub fn file_size(&self) -> (r: u64)
        ensures
            r == self.file_size,
    {
        self.file_size
    }

    /// Whether the file is long enough to be rewritten.
    pub fn needs_compaction(&self) -> (r: bool)
        ensures
            r == (self.file_size > COMPACTION_THRESHOLD),
    {
        self.file_size > COMPACTION_THRESHOLD
    }

    /// Starts over with a fresh file for the log: what it is to hold is returned.
    pub fn compact(&mut self, last_purged: Option<LogId>, payloads: &Vec<Vec<u8>>) -> (r: Vec<u8>)
        ensures
            r@ == bytes_of(compact_records(last_purged, payload_views(payloads@))),
            final(self).pending@ == Seq::<u8>::empty(),
            final(self).file_size == r@.len(),
    {
        let image = compact_image(last_purged, payloads);
        self.pending = Vec::new();
        self.file_size = image.len() as u64;
        image
    }
}

// ---------------------------------------------------------------------------------------------
// Laws
// ---------------------------------------------------------------------------------------------
/// A record that was written is read back, whatever follows it.
pub proof fn law_read_after_write(t: RecordType, payload: Seq<u8>, tail: Seq<u8>)
    requires
        payload.len() <= MAX_PAYLOAD_SIZE,
    ensures
        parse_record(record_bytes(t, payload) + tail) == Ok::<_, WalError>(
            Some((t, payload, record_bytes(t, payload).len() as int)),
        ),
        record_bytes(t, payload).len() == HEADER_SIZE + payload.len() + CRC_SIZE,
{
    vstd::bytes::lemma_auto_spec_u32_to_from_le_bytes();
    let n = payload.len() as int;
    let d = record_bytes(t, payload) + tail;
    let body = covered(t, payload);
    assert(body.len() == 5 + n);
    assert(d.subrange(3, 7) =~= vstd::bytes::spec_u32_to_le_bytes(n as u32));
    assert(d.subrange(2, HEADER_SIZE + n) =~= body);
    assert(d.subrange(HEADER_SIZE + n, HEADER_SIZE + n + CRC_SIZE)
        =~= vstd::bytes::spec_u32_to_le_bytes(crc32_of(body)));
    assert(d.subrange(HEADER_SIZE as int, HEADER_SIZE + n) =~= payload);
    assert(d[2] == type_byte(t));
}

/// A record that was cut short is never read as a record: it is incomplete, unless nothing of it
/// is left.
pub proof fn law_torn_record_is_discarded(t: RecordType, payload: Seq<u8>, k: int)
    requires
        payload.len() <= MAX_PAYLOAD_SIZE,
        0 <= k < record_bytes(t, payload).len(),
    ensures
        parse_record(record_bytes(t, payload).take(k)) == (if k == 0 {
            Ok::<Option<(RecordType, Seq<u8>, int)>, WalError>(None)
        } else {
            Err(WalError::Incomplete)
        }),
{
    vstd::bytes::lemma_auto_spec_u32_to_from_le_bytes();
    let n = payload.len() as int;
    let d = record_bytes(t, payload).take(k);
    if k >= HEADER_SIZE {
        assert(d.subrange(3, 7) =~= vstd::bytes::spec_u32_to_le_bytes(n as u32));
        assert(d[2] == type_byte(t));
    }
}

/// The log after some records, each of which can be decoded.
pub open spec fn fold_records(
    recs: Seq<(RecordType, Seq<u8>)>,
    entries: spec_fn(int) -> Option<LogEntry>,
    s: LogState,
) -> LogState
    decreases recs.len(),
{
    if recs.len() == 0 {
        s
    } else {
        let last = recs.len() - 1;
        apply_op(
            fold_records(recs.drop_last(), entries, s),
            op_of(recs[last].0, recs[last].1, entries(last))->0,
        )
    }
}

/// The entries of the append records among some records, in order.
pub open spec fn entries_of(
    recs: Seq<(RecordType, Seq<u8>)>,
    entries: spec_fn(int) -> Option<LogEntry>,
) -> Seq<Option<LogEntry>>
    decreases recs.len(),
{
    if recs.len() == 0 {
        Seq::empty()
    } else {
        let last = recs.len() - 1;
        let before = entries_of(recs.drop_last(), entries);
        if recs[last].0 is Append {
            before.push(entries(last))
        } else {
            before
        }
    }
}

/// Each record is within the size limit and can be decoded.
pub open spec fn all_good(
    recs: Seq<(RecordType, Seq<u8>)>,
    entries: spec_fn(int) -> Option<LogEntry>,
) -> bool {
    forall|i: int|
        0 <= i < recs.len() ==> (#[trigger] recs[i]).1.len() <= MAX_PAYLOAD_SIZE && op_of(
            recs[i].0,
            recs[i].1,
            entries(i),
        ) is Some
}

/// Reading a file gives back exactly what was written to it: after any number of records that can
/// be decoded, reading goes on with what follows them.
pub proof fn law_replay_of_written(
    recs: Seq<(RecordType, Seq<u8>)>,
    entries: spec_fn(int) -> Option<LogEntry>,
    tail: Seq<u8>,
    more: Seq<Option<LogEntry>>,
    from: Replayed,
)
    requires
        all_good(recs, entries),
    ensures
        replay(bytes_of(recs) + tail, entries_of(recs, entries) + more, from) == replay(
            tail,
            more,
            Replayed {
                state: fold_records(recs, entries, from.state),
                valid_len: from.valid_len + bytes_of(recs).len(),
            },
        ),
    decreases recs.len(),
{
    if recs.len() == 0 {
        assert(bytes_of(recs) + tail =~= tail);
        assert(entries_of(recs, entries) + more =~= more);
        assert(from =~= Replayed { state: from.state, valid_len: from.valid_len + 0 });
    } else {
        let last = recs.len() - 1;
        let init = recs.drop_last();
        let (t, p) = recs[last];
        assert(recs[last].1.len() <= MAX_PAYLOAD_SIZE);
        let rec = record_bytes(t, p);
        assert forall|i: int| 0 <= i < init.len() implies (
        #[trigger] init[i]).1.len() <= MAX_PAYLOAD_SIZE && op_of(init[i].0, init[i].1, entries(i)) is Some by {
            assert(recs[i] == init[i]);
        }
        let more1 = if t is Append {
            seq![entries(last)] + more
        } else {
            more
        };
        law_replay_of_written(init, entries, rec + tail, more1, from);
        assert(bytes_of(recs) + tail =~= bytes_of(init) + (rec + tail));
        assert(entries_of(recs, entries) + more =~= entries_of(init, entries) + more1);
        law_read_after_write(t, p, tail);
        assert((rec + tail).skip(rec.len() as int) =~= tail);
        if t is Append {
            assert(more1.skip(1) =~= more);
            assert(more1[0] == entries(last));
        } else {
            assert(op_of(t, p, entries(last)) == op_of(t, p, None));
        }
    }
}

proof fn lemma_parse_prefix(d: Seq<u8>, m: int)
    requires
        parse_record(d) is Ok,
        parse_record(d)->Ok_0 is Some,
        (parse_record(d)->Ok_0->0).2 <= m <= d.len(),
    ensures
        parse_record(d.take(m)) == parse_record(d),
{
    let (t, p, n) = parse_record(d)->Ok_0->0;
    let e = d.take(m);
    let len = n - HEADER_SIZE - CRC_SIZE;
    assert(e.subrange(3, 7) =~= d.subrange(3, 7));
    assert(e.subrange(2, HEADER_SIZE + len) =~= d.subrange(2, HEADER_SIZE + len));
    assert(e.subrange(HEADER_SIZE + len, n) =~= d.subrange(HEADER_SIZE + len, n));
    assert(e.subrange(HEADER_SIZE as int, HEADER_SIZE + len) =~= d.subrange(
        HEADER_SIZE as int,
        HEADER_SIZE + len,
    ));
}

/// Cutting a file back to its good part changes nothing that is read from it, and leaves nothing
/// to cut.
pub proof fn law_cut_keeps_contents(d: Seq<u8>, decoded: Seq<Option<LogEntry>>, from: Replayed)
    ensures
        ({
            let good = replay(d, decoded, from).valid_len - from.valid_len;
            &&& 0 <= good <= d.len()
            &&& replay(d.take(good), decoded, from) == replay(d, decoded, from)
        }),
    decreases d.len(),
{
    let good = replay(d, decoded, from).valid_len - from.valid_len;
    match parse_record(d) {
        Ok(Some((t, p, n))) => match op_of(t, p, next_entry(t, decoded)) {
            Some(op) => {
                if 0 < n <= d.len() {
                    let next = Replayed {
                        state: apply_op(from.state, op),
                        valid_len: from.valid_len + n,
                    };
                    let rest = rest_entries(t, decoded);
                    law_cut_keeps_contents(d.skip(n), rest, next);
                    lemma_parse_prefix(d, good);
                    assert(d.take(good).skip(n) =~= d.skip(n).take(good - n));
                }
            },
            None => {
                assert(d.take(0) =~= Seq::empty());
            },
        },
        _ => {
            assert(d.take(0) =~= Seq::empty());
        },
    }
}

/// A fresh file for a log gives back that log and the last entry that was dropped from it, where
/// the payloads decode to the entries.
pub proof fn law_compaction_keeps_log(
    last_purged: Option<LogId>,
    log: Seq<LogEntry>,
    payloads: Seq<Seq<u8>>,
)
    requires
        crate::raft_log::rising(log),
        payloads.len() == log.len(),
        forall|i: int| 0 <= i < payloads.len() ==> (#[trigger] payloads[i]).len() <= MAX_PAYLOAD_SIZE,
    ensures
        replay(
            bytes_of(compact_records(last_purged, payloads)),
            log.map_values(|e: LogEntry| Some(e)),
            Replayed { state: empty_log(), valid_len: 0 },
        ) == (Replayed {
            state: LogState { log: crate::raft_log::by_index(log), last_purged },
            valid_len: bytes_of(compact_records(last_purged, payloads)).len() as int,
        }),
{
    let recs = compact_records(last_purged, payloads);
    let shift = if last_purged is Some {
        1int
    } else {
        0int
    };
    let entries = |i: int|
        if shift <= i < shift + log.len() {
            Some(log[i - shift])
        } else {
            None::<LogEntry>
        };
    assert forall|i: int| 0 <= i < recs.len() implies (
    #[trigger] recs[i]).1.len() <= MAX_PAYLOAD_SIZE && op_of(recs[i].0, recs[i].1, entries(i)) is Some by {
        if i < shift {
            lemma_purge_bytes(last_purged->0);
        } else {
            assert(recs[i] == (RecordType::Append, payloads[i - shift]));
        }
    }
    let start = Replayed { state: empty_log(), valid_len: 0 };
    lemma_compact_fold(last_purged, log, payloads, log.len() as int, shift, entries);
    assert(payloads.take(log.len() as int) =~= payloads);
    assert(log.take(log.len() as int) =~= log);
    law_replay_of_written(recs, entries, Seq::empty(), Seq::empty(), start);
    assert(bytes_of(recs) + Seq::<u8>::empty() =~= bytes_of(recs));
    assert(entries_of(recs, entries) + Seq::<Option<LogEntry>>::empty() =~= log.map_values(
        |e: LogEntry| Some(e),
    ));
}

proof fn lemma_compact_fold(
    last_purged: Option<LogId>,
    log: Seq<LogEntry>,
    payloads: Seq<Seq<u8>>,
    k: int,
    shift: int,
    entries: spec_fn(int) -> Option<LogEntry>,
)
    requires
        crate::raft_log::rising(log),
        payloads.len() == log.len(),
        0 <= k <= log.len(),
        shift == (if last_purged is Some {
            1int
        } else {
            0int
        }),
        forall|i: int|
            0 <= i < log.len() ==> #[trigger] entries(i + shift) == Some(log[i]),
    ensures
        fold_records(compact_records(last_purged, payloads.take(k)), entries, empty_log()) == (
        LogState { log: crate::raft_log::by_index(log.take(k)), last_purged }),
        entries_of(compact_records(last_purged, payloads.take(k)), entries) == log.take(
            k,
        ).map_values(|e: LogEntry| Some(e)),
    decreases k,
{
    let recs = compact_records(last_purged, payloads.take(k));
    if k == 0 {
        assert(payloads.take(0) =~= Seq::empty());
        assert(log.take(0) =~= Seq::empty());
        assert(crate::raft_log::by_index(log.take(0)) =~= Map::empty());
        match last_purged {
            Some(id) => {
                lemma_purge_bytes(id);
                assert(recs =~= seq![(RecordType::Purge, purge_bytes(id))]);
                assert(recs.drop_last() =~= Seq::empty());
                assert(fold_records(recs.drop_last(), entries, empty_log()) == empty_log());
                assert(apply_op(empty_log(), LogOp::Purge(id)).log =~= Map::empty());
                assert(entries_of(recs.drop_last(), entries) =~= Seq::empty());
                assert(entries_of(recs, entries) =~= Seq::empty());
            },
            None => {
                assert(recs =~= Seq::empty());
            },
        }
        assert(log.take(0).map_values(|e: LogEntry| Some(e)) =~= Seq::empty());
    } else {
        lemma_compact_fold(last_purged, log, payloads, k - 1, shift, entries);
        let prev = compact_records(last_purged, payloads.take(k - 1));
        assert(recs.drop_last() =~= prev);
        assert(recs.len() - 1 == k - 1 + shift);
        assert(recs[recs.len() - 1] == (RecordType::Append, payloads[k - 1]));
        let e = log[k - 1];
        assert(entries(k - 1 + shift) == Some(e));
        let small = log.take(k - 1);
        let big = log.take(k);
        assert(crate::raft_log::by_index(big) == crate::raft_log::by_index(small).insert(
            e.log_id.index,
            e,
        )) by {
            assert(crate::raft_log::rising(small)) by {
                assert forall|a: int, b: int| 0 <= a < b < small.len() implies (
                #[trigger] small[a]).log_id.index < (#[trigger] small[b]).log_id.index by {
                    assert(log[a].log_id.index < log[b].log_id.index);
                }
            }
            assert forall|j: int| 0 <= j < k - 1 implies (
            #[trigger] small[j]).log_id.index < e.log_id.index by {
                assert(log[j].log_id.index < log[k - 1].log_id.index);
            }
            assert(small.insert(k - 1, e) =~= big);
            crate::raft_log::lemma_put(small, k - 1, e, big);
        }
        assert(log.take(k).map_values(|e: LogEntry| Some(e)) =~= log.take(k - 1).map_values(
            |e: LogEntry| Some(e),
        ).push(Some(e)));
    }
}

/// What is read as a record is the bytes of that record, whole: its beginning, its type, its
/// length and its checksum are those that are written for it.
pub proof fn law_only_whole_records_are_read(d: Seq<u8>, t: RecordType, payload: Seq<u8>, n: int)
    requires
        parse_record(d) == Ok::<_, WalError>(Some((t, payload, n))),
    ensures
        n == payload.len() + 11 <= d.len(),
        payload.len() <= 16_777_216,
        d.take(n) == record_bytes(t, payload),
{
    vstd::bytes::lemma_auto_spec_u32_to_from_le_bytes();
    let m = payload.len() as int;
    let body = covered(t, payload);
    assert(d.subrange(3, 7) == vstd::bytes::spec_u32_to_le_bytes(m as u32));
    assert(d.subrange(HEADER_SIZE + m, n) == vstd::bytes::spec_u32_to_le_bytes(
        crc32_of(d.subrange(2, HEADER_SIZE + m)),
    ));
    assert(d.subrange(2, HEADER_SIZE + m) =~= body) by {
        assert forall|i: int| 0 <= i < 5 + m implies d.subrange(2, HEADER_SIZE + m)[i] == body[i] by {
            if 1 <= i < 5 {
                assert(body[i] == vstd::bytes::spec_u32_to_le_bytes(m as u32)[i - 1]);
                assert(d.subrange(3, 7)[i - 1] == d[i + 2]);
            }
        }
    }
    let whole = record_bytes(t, payload);
    assert forall|i: int| 0 <= i < n implies d.take(n)[i] == whole[i] by {
        if i >= HEADER_SIZE + m {
            assert(d.subrange(HEADER_SIZE + m, n)[i - HEADER_SIZE - m] == d[i]);
        } else if i >= 2 {
            assert(d.subrange(2, HEADER_SIZE + m)[i - 2] == d[i]);
        }
    }
    assert(d.take(n) =~= whole);
}

/// How a record is laid out: two fixed bytes, a byte for its type, its length, its payload, and
/// its checksum over all but the fixed bytes.
pub proof fn law_layout_of_a_record(t: RecordType, payload: Seq<u8>)
    ensures
        ({
            let d = record_bytes(t, payload);
            let n = payload.len() as int;
            &&& d.len() == n + 11
            &&& d[0] == 0x52 && d[1] == 0x41
            &&& d[2] == match t {
                RecordType::Append => 1u8,
                RecordType::Purge => 2u8,
                RecordType::Truncate => 3u8,
            }
            &&& d.subrange(3, 7) == vstd::bytes::spec_u32_to_le_bytes(n as u32)
            &&& d.subrange(7, 7 + n) == payload
            &&& d.subrange(7 + n, 11 + n) == vstd::bytes::spec_u32_to_le_bytes(
                crc32_of(d.subrange(2, 7 + n)),
            )
        }),
{
    vstd::bytes::lemma_auto_spec_u32_to_from_le_bytes();
    let d = record_bytes(t, payload);
    let n = payload.len() as int;
    assert(d.subrange(3, 7) =~= vstd::bytes::spec_u32_to_le_bytes(n as u32));
    assert(d.subrange(7, 7 + n) =~= payload);
    assert(d.subrange(2, 7 + n) =~= covered(t, payload));
    assert(d.subrange(7 + n, 11 + n) =~= vstd::bytes::spec_u32_to_le_bytes(
        crc32_of(covered(t, payload)),
    ));
}

/// Why bytes are not read as a record. The reasons are looked for in the order in which the bytes
/// stand in the file.
pub proof fn law_damage_is_told_apart(d: Seq<u8>)
    ensures
        ({
            let n = vstd::bytes::spec_u32_from_le_bytes(d.subrange(3, 7)) as int;
            let whole = d.len() >= 7;
            let begins = d[0] == 0x52 && d[1] == 0x41;
            let typed = d[2] == 1 || d[2] == 2 || d[2] == 3;
            let r = parse_record(d);
            &&& r == Ok::<Option<(RecordType, Seq<u8>, int)>, WalError>(None) <==> d.len() == 0
            &&& r == Err::<Option<(RecordType, Seq<u8>, int)>, WalError>(WalError::BadMagic)
                <==> whole && !begins
            &&& r == Err::<Option<(RecordType, Seq<u8>, int)>, WalError>(
                WalError::UnknownRecordType,
            ) <==> whole && begins && !typed
            &&& r == Err::<Option<(RecordType, Seq<u8>, int)>, WalError>(WalError::PayloadTooLarge)
                <==> whole && begins && typed && n > 16_777_216
            &&& r == Err::<Option<(RecordType, Seq<u8>, int)>, WalError>(WalError::Incomplete)
                <==> 0 < d.len() < 7 || (whole && begins && typed && n <= 16_777_216 && d.len() < n
                + 11)
            &&& r == Err::<Option<(RecordType, Seq<u8>, int)>, WalError>(WalError::CrcMismatch)
                <==> whole && begins && typed && n <= 16_777_216 && d.len() >= n + 11 && crc32_of(
                d.subrange(2, 7 + n),
            ) != vstd::bytes::spec_u32_from_le_bytes(d.subrange(7 + n, 11 + n))
        }),
{
}

/// A purge keeps the entries behind the one it names and remembers that one; a truncation keeps
/// the entries before the index it names; an append puts its entry under its own index. Neither of
/// the last two changes up to where the log was purged.
pub proof fn law_log_changes_by_index(s: LogState, e: LogEntry, id: LogId, since: u64, i: u64)
    ensures
        ({
            let appended = apply_op(s, LogOp::Append(e));
            let purged = apply_op(s, LogOp::Purge(id));
            let cut = apply_op(s, LogOp::Truncate(since));
            &&& appended.log.dom().contains(i) <==> s.log.dom().contains(i) || i == e.log_id.index
            &&& appended.log[e.log_id.index] == e
            &&& i != e.log_id.index && s.log.dom().contains(i) ==> appended.log[i] == s.log[i]
            &&& appended.last_purged == s.last_purged
            &&& purged.log.dom().contains(i) <==> s.log.dom().contains(i) && id.index < i
            &&& purged.log.dom().contains(i) ==> purged.log[i] == s.log[i]
            &&& purged.last_purged == Some(id)
            &&& cut.log.dom().contains(i) <==> s.log.dom().contains(i) && i < since
            &&& cut.log.dom().contains(i) ==> cut.log[i] == s.log[i]
            &&& cut.last_purged == s.last_purged
        }),
{
}

/// The change that a record stands for goes by its type, and is the one that was written: a purge
/// names its entry, a truncation its index; a record without them stands for no change.
pub proof fn law_record_stands_for_its_change(
    e: LogEntry,
    id: LogId,
    since: u64,
    payload: Seq<u8>,
    entry: Option<LogEntry>,
)
    ensures
        op_of(RecordType::Append, payload, Some(e)) == Some(LogOp::Append(e)),
        op_of(RecordType::Append, payload, None) is None,
        op_of(RecordType::Purge, purge_bytes(id), entry) == Some(LogOp::Purge(id)),
        op_of(RecordType::Purge, payload, entry) is Some <==> payload.len() >= 24,
        op_of(RecordType::Truncate, vstd::bytes::spec_u64_to_le_bytes(since), entry) == Some(
            LogOp::Truncate(since),
        ),
        op_of(RecordType::Truncate, payload, entry) is Some <==> payload.len() >= 8,
{
    vstd::bytes::lemma_auto_spec_u64_to_from_le_bytes();
    let p = purge_bytes(id);
    assert(p.subrange(0, 8) =~= vstd::bytes::spec_u64_to_le_bytes(id.term));
    assert(p.subrange(8, 16) =~= vstd::bytes::spec_u64_to_le_bytes(id.node_id));
    assert(p.subrange(16, 24) =~= vstd::bytes::spec_u64_to_le_bytes(id.index));
    let q = vstd::bytes::spec_u64_to_le_bytes(since);
    assert(q.subrange(0, 8) =~= q);
}

/// Reading stops where no whole record with a change begins: nothing behind that place counts.
pub proof fn law_reading_stops_at_damage(
    d: Seq<u8>,
    decoded: Seq<Option<LogEntry>>,
    from: Replayed,
)
    ensures
        !(parse_record(d) matches Ok(Some(_))) ==> replay(d, decoded, from) == from,
        replay(d, decoded, from).valid_len >= from.valid_len,
        replay(d, decoded, from).valid_len <= from.valid_len + d.len(),
    decreases d.len(),
{
    match parse_record(d) {
        Ok(Some((t, p, n))) => match op_of(t, p, next_entry(t, decoded)) {
            Some(op) => {
                if 0 < n <= d.len() {
                    law_reading_stops_at_damage(
                        d.skip(n),
                        rest_entries(t, decoded),
                        Replayed { state: apply_op(from.state, op), valid_len: from.valid_len + n },
                    );
                }
            },
            None => {},
        },
        _ => {},
    }
}

} // verus!
