//! How a change of the log reaches its file: as records at the end, and as a fresh file once the
//! old one is long.

use vstd::prelude::*;

use crate::raft_log::LogId;
use crate::wal;
use crate::wal::{PurgePayload, RecordType, TruncatePayload, WalWriter};

verus! {

/// What is to be done to the file.
#[derive(Debug)]
pub struct FileChange {
    /// Bytes to append and make durable.
    pub appended: Vec<u8>,
    /// The contents of the file that then takes the place of this one, where it is too long.
    pub rewritten: Option<Vec<u8>>,
}

/// The append records of some encoded entries.
pub open spec fn append_records(payloads: Seq<Seq<u8>>) -> Seq<(RecordType, Seq<u8>)> {
    payloads.map_values(|p: Seq<u8>| (RecordType::Append, p))
}

/// `change` writes the records `recs`, with `image` as the contents of a fresh file.
pub open spec fn writes(
    before: WalWriter,
    after: WalWriter,
    recs: Seq<(RecordType, Seq<u8>)>,
    image: Seq<u8>,
    change: FileChange,
) -> bool {
    let size = before.file_size + wal::bytes_of(recs).len();
    &&& change.appended@ == before.pending@ + wal::bytes_of(recs)
    &&& after.pending@ == Seq::<u8>::empty()
    &&& if size > wal::COMPACTION_THRESHOLD {
        &&& change.rewritten is Some
        &&& change.rewritten->0@ == image
        &&& after.file_size == image.len()
    } else {
        &&& change.rewritten is None
        &&& after.file_size == size
    }
}

proof fn lemma_take_shorter(recs: Seq<(RecordType, Seq<u8>)>, i: int)
    requires
        0 <= i <= recs.len(),
    ensures
        wal::bytes_of(recs.take(i)).len() <= wal::bytes_of(recs).len(),
    decreases recs.len() - i,
{
    if i < recs.len() {
        assert(recs.take(i + 1).drop_last() =~= recs.take(i));
        lemma_take_shorter(recs, i + 1);
    } else {
        assert(recs.take(i) =~= recs);
    }
}

proof fn lemma_record_len(t: RecordType, payload: Seq<u8>)
    ensures
        wal::record_bytes(t, payload).len() == wal::HEADER_SIZE + payload.len() + wal::CRC_SIZE,
{
    vstd::bytes::lemma_auto_spec_u32_to_from_le_bytes();
}

proof fn lemma_one_record(t: RecordType, payload: Seq<u8>)
    ensures
        wal::bytes_of(seq![(t, payload)]) == wal::record_bytes(t, payload),
        wal::record_bytes(t, payload).len() == wal::HEADER_SIZE + payload.len() + wal::CRC_SIZE,
{
    lemma_record_len(t, payload);
    let one = seq![(t, payload)];
    assert(one.drop_last() =~= Seq::empty());
    assert(wal::bytes_of(one.drop_last()) =~= Seq::empty());
    assert(wal::bytes_of(one) =~= wal::record_bytes(t, payload));
}

impl WalWriter {
    fn settle(&mut self, last_purged: Option<LogId>, log: &Vec<Vec<u8>>) -> (r: FileChange)
        ensures
            r.appended@ == old(self).pending@,
            final(self).pending@ == Seq::<u8>::empty(),
            if old(self).file_size > wal::COMPACTION_THRESHOLD {
                let image = wal::bytes_of(
                    wal::compact_records(last_purged, wal::payload_views(log@)),
                );
                &&& r.rewritten is Some
                &&& r.rewritten->0@ == image
                &&& final(self).file_size == image.len()
            } else {
                &&& r.rewritten is None
                &&& final(self).file_size == old(self).file_size
            },
    {
        let appended = self.sync();
        let rewritten: Option<Vec<u8>> = if self.needs_compaction() {
            Some(self.compact(last_purged, log))
        } else {
            None
        };
        FileChange { appended, rewritten }
    }

    /// Writes entries that were added to the log. `entries` holds them encoded; `log` holds all
    /// entries of the log encoded, in the order of their indexes.
    pub fn wal_append_entries(
        &mut self,
        entries: &Vec<Vec<u8>>,
        last_purged: Option<LogId>,
        log: &Vec<Vec<u8>>,
    ) -> (r: FileChange)
        requires
            old(self).file_size + wal::bytes_of(
                append_records(wal::payload_views(entries@)),
            ).len() <= u64::MAX,
        ensures
            writes(
                *old(self),
                *final(self),
                append_records(wal::payload_views(entries@)),
                wal::bytes_of(wal::compact_records(last_purged, wal::payload_views(log@))),
                r,
            ),
    {
        let ghost recs = append_records(wal::payload_views(entries@));
        let mut i: usize = 0;
        assert(recs.take(0) =~= Seq::empty());
        assert(self.pending@ + wal::bytes_of(recs.take(0)) =~= self.pending@);
        while i < entries.len()
            invariant
                i <= entries@.len(),
                recs == append_records(wal::payload_views(entries@)),
                recs.len() == entries@.len(),
                old(self).file_size + wal::bytes_of(recs).len() <= u64::MAX,
                self.pending@ == old(self).pending@ + wal::bytes_of(recs.take(i as int)),
                self.file_size == old(self).file_size + wal::bytes_of(recs.take(i as int)).len(),
            decreases entries@.len() - i,
        {
            proof {
                lemma_take_shorter(recs, i + 1);
                lemma_record_len(RecordType::Append, entries@[i as int]@);
                assert(recs.take(i + 1).drop_last() =~= recs.take(i as int));
                assert(recs.take(i + 1).last() == (RecordType::Append, entries@[i as int]@));
            }
            self.append_record_buffered(RecordType::Append, entries[i].as_slice());
            assert(self.pending@ =~= old(self).pending@ + wal::bytes_of(recs.take(i + 1)));
            i = i + 1;
        }
        assert(recs.take(i as int) =~= recs);
        self.settle(last_purged, log)
    }

    /// Writes that all entries from `since_index` on were dropped.
    pub fn wal_truncate_since(
        &mut self,
        since_index: u64,
        last_purged: Option<LogId>,
        log: &Vec<Vec<u8>>,
    ) -> (r: FileChange)
        requires
            old(self).file_size + wal::bytes_of(
                seq![(RecordType::Truncate, vstd::bytes::spec_u64_to_le_bytes(since_index))],
            ).len() <= u64::MAX,
        ensures
            writes(
                *old(self),
                *final(self),
                seq![(RecordType::Truncate, vstd::bytes::spec_u64_to_le_bytes(since_index))],
                wal::bytes_of(wal::compact_records(last_purged, wal::payload_views(log@))),
                r,
            ),
    {
        let payload = (TruncatePayload { since_index }).encode();
        proof {
            lemma_one_record(RecordType::Truncate, payload@);
        }
        self.append_record_buffered(RecordType::Truncate, payload.as_slice());
        self.settle(last_purged, log)
    }

    /// Writes that all entries up to `log_id` were dropped.
    pub fn wal_purge_upto(&mut self, log_id: LogId, log: &Vec<Vec<u8>>) -> (r: FileChange)
        requires
            old(self).file_size + wal::bytes_of(
                seq![(RecordType::Purge, wal::purge_bytes(log_id))],
            ).len() <= u64::MAX,
        ensures
            writes(
                *old(self),
                *final(self),
                seq![(RecordType::Purge, wal::purge_bytes(log_id))],
                wal::bytes_of(wal::compact_records(Some(log_id), wal::payload_views(log@))),
                r,
            ),
    {
        let payload = (PurgePayload { log_id }).encode();
        proof {
            lemma_one_record(RecordType::Purge, payload@);
        }
        self.append_record_buffered(RecordType::Purge, payload.as_slice());
        self.settle(Some(log_id), log)
    }
}

/// A change of the log is appended to its file behind what was left to write, and the file is
/// rewritten exactly where it has then grown too long. The length that is kept is that of the file.
pub proof fn law_long_file_is_rewritten(
    before: WalWriter,
    after: WalWriter,
    recs: Seq<(RecordType, Seq<u8>)>,
    image: Seq<u8>,
    change: FileChange,
)
    requires
        writes(before, after, recs, image, change),
    ensures
        before.pending@.is_prefix_of(change.appended@),
        change.appended@.skip(before.pending@.len() as int) == wal::bytes_of(recs),
        after.pending@.len() == 0,
        change.rewritten is Some <==> before.file_size + wal::bytes_of(recs).len() > 4_194_304,
        change.rewritten matches Some(fresh) ==> fresh@ == image && after.file_size == fresh@.len(),
        change.rewritten is None ==> after.file_size == before.file_size + change.appended@.len()
            - before.pending@.len(),
{
    let n = before.pending@.len() as int;
    assert(change.appended@.subrange(0, n) =~= before.pending@);
    assert(change.appended@.skip(n) =~= wal::bytes_of(recs));
}

/// A file to which records are appended holds the bytes of the records before and of these, one
/// after the other.
pub proof fn law_records_follow_each_other(
    old_recs: Seq<(RecordType, Seq<u8>)>,
    recs: Seq<(RecordType, Seq<u8>)>,
)
    ensures
        wal::bytes_of(old_recs + recs) == wal::bytes_of(old_recs) + wal::bytes_of(recs),
    decreases recs.len(),
{
    if recs.len() == 0 {
        assert(old_recs + recs =~= old_recs);
        assert(wal::bytes_of(old_recs) + wal::bytes_of(recs) =~= wal::bytes_of(old_recs));
    } else {
        law_records_follow_each_other(old_recs, recs.drop_last());
        let all = old_recs + recs;
        assert(all.drop_last() =~= old_recs + recs.drop_last());
        assert(all.last() == recs.last());
        assert(wal::bytes_of(all) =~= wal::bytes_of(old_recs) + wal::bytes_of(recs));
    }
}

} // verus!
