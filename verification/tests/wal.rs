//! The log file.

use pg_ha::raft_log::{EntryPayload, LogEntry, LogId};
use pg_ha::state_machine::Request;
use pg_ha::wal::{
    append_payloads, compact_image, read_one_record, replay_wal, write_record_bytes, PurgePayload,
    RecordType, TruncatePayload, WalError, WalWriter, COMPACTION_THRESHOLD, WAL_MAGIC_0,
    WAL_MAGIC_1,
};

fn id(index: u64) -> LogId {
    LogId { term: 1, node_id: 2, index }
}

fn entry(index: u64) -> LogEntry {
    LogEntry { log_id: id(index), payload: EntryPayload::Normal(Request::ExpireKeys { now: index }) }
}

fn indexes(file: &[u8], decoded: &Vec<Option<LogEntry>>) -> Vec<u64> {
    let replayed = replay_wal(file, decoded);
    let mut out = Vec::new();
    for i in 0..replayed.log.len() {
        out.push(replayed.log.entry_at(i).log_id.index);
    }
    out
}

#[test]
fn roundtrip_truncate_records() {
    let mut file: Vec<u8> = Vec::new();
    {
        let (mut w, _) = WalWriter::open(&file, &vec![]);
        let p1 = TruncatePayload { since_index: 9 }.encode();
        let p2 = TruncatePayload { since_index: 3 }.encode();
        w.append_record_buffered(RecordType::Truncate, &p1);
        w.append_record_buffered(RecordType::Truncate, &p2);
        file.extend(w.sync());
        assert!(w.file_size() > 0);
    }

    let replayed = replay_wal(&file, &vec![]);
    assert_eq!(replayed.valid_len, file.len() as u64);
    // Truncate payloads do not insert into `log`, but both records must validate.
    assert!(replayed.valid_len > 0);
}

#[test]
fn open_truncates_torn_tail_then_allows_append() {
    let mut file: Vec<u8> = Vec::new();
    {
        let (mut w, _) = WalWriter::open(&file, &vec![]);
        let payload = TruncatePayload { since_index: 9 }.encode();
        file.extend(w.append_record(RecordType::Truncate, &payload));
    }

    let good_len = file.len() as u64;

    // Simulate a crash mid-write: append an incomplete header.
    file.extend([0x52, 0x41, 0x01, 0xff]);
    assert!(file.len() as u64 > good_len);

    // Re-open must truncate the garbage before appending.
    {
        let (mut w, replayed) = WalWriter::open(&file, &vec![]);
        assert_eq!(replayed.valid_len, good_len);
        file.truncate(replayed.valid_len as usize);
        assert_eq!(file.len() as u64, good_len);

        let payload = TruncatePayload { since_index: 3 }.encode();
        file.extend(w.append_record(RecordType::Truncate, &payload));
        assert_eq!(w.file_size(), file.len() as u64);
    }

    let again = replay_wal(&file, &vec![]);
    assert_eq!(again.valid_len, file.len() as u64);
    assert!(again.valid_len > good_len);
}

#[test]
fn rejects_oversized_payload_length() {
    // Craft a header claiming a huge payload (no valid body).
    let mut file: Vec<u8> = vec![WAL_MAGIC_0, WAL_MAGIC_1, RecordType::Truncate.to_u8()];
    file.extend(u32::MAX.to_le_bytes());

    let replayed = replay_wal(&file, &vec![]);
    assert_eq!(replayed.valid_len, 0);
    assert!(matches!(read_one_record(&file, 0), Err(WalError::PayloadTooLarge)));
}

#[test]
fn record_is_laid_out_byte_for_byte() {
    // The checksum is the common CRC-32 of type, length and payload.
    let bytes = write_record_bytes(RecordType::Append, b"hi");
    let mut covered: Vec<u8> = vec![0x01];
    covered.extend(2u32.to_le_bytes());
    covered.extend(b"hi");
    let mut expected: Vec<u8> = vec![0x52, 0x41];
    expected.extend(&covered);
    expected.extend(crc32fast::hash(&covered).to_le_bytes());
    assert_eq!(bytes, expected);
    assert_eq!(crc32fast::hash(b"123456789"), 0xCBF4_3926);
}

#[test]
fn payloads_are_little_endian() {
    assert_eq!(TruncatePayload { since_index: 258 }.encode(), vec![2, 1, 0, 0, 0, 0, 0, 0]);
    let purge = PurgePayload { log_id: LogId { term: 1, node_id: 2, index: 3 } }.encode();
    let mut expected = vec![1, 0, 0, 0, 0, 0, 0, 0];
    expected.extend([2, 0, 0, 0, 0, 0, 0, 0]);
    expected.extend([3, 0, 0, 0, 0, 0, 0, 0]);
    assert_eq!(purge, expected);
}

#[test]
fn log_is_read_back() {
    let mut file: Vec<u8> = Vec::new();
    let mut decoded: Vec<Option<LogEntry>> = Vec::new();
    let (mut w, _) = WalWriter::open(&file, &vec![]);
    for i in 1..6u64 {
        w.append_record_buffered(RecordType::Append, format!("entry {i}").as_bytes());
        decoded.push(Some(entry(i)));
    }
    file.extend(w.sync());
    assert_eq!(
        append_payloads(&file),
        vec![
            b"entry 1".to_vec(),
            b"entry 2".to_vec(),
            b"entry 3".to_vec(),
            b"entry 4".to_vec(),
            b"entry 5".to_vec()
        ]
    );
    file.extend(w.append_record(RecordType::Purge, &PurgePayload { log_id: id(2) }.encode()));
    file.extend(w.append_record(RecordType::Truncate, &TruncatePayload { since_index: 5 }.encode()));
    assert_eq!(indexes(&file, &decoded), vec![3, 4]);
    let replayed = replay_wal(&file, &decoded);
    assert_eq!(replayed.last_purged, Some(id(2)));
    assert_eq!(replayed.valid_len, file.len() as u64);
}

#[test]
fn every_torn_write_is_dropped() {
    let first = write_record_bytes(RecordType::Truncate, &TruncatePayload { since_index: 1 }.encode());
    let second = write_record_bytes(RecordType::Append, b"payload");
    for k in 0..second.len() {
        let mut file = first.clone();
        file.extend(&second[..k]);
        let replayed = replay_wal(&file, &vec![Some(entry(1))]);
        assert_eq!(replayed.valid_len, first.len() as u64, "cut at {k}");
        assert_eq!(replayed.log.len(), 0);
        match read_one_record(&second[..k], 0) {
            Ok(None) => assert_eq!(k, 0),
            Err(WalError::Incomplete) => assert!(k > 0),
            other => panic!("cut at {k}: {other:?}"),
        }
    }
}

#[test]
fn a_torn_header_is_an_error() {
    assert!(matches!(read_one_record(&[0x52, 0x41, 0x01, 0xff], 0), Err(WalError::Incomplete)));
    assert!(matches!(read_one_record(&[0x52], 0), Err(WalError::Incomplete)));
    assert!(matches!(read_one_record(&[0x52, 0x41], 2), Ok(None)));
}

#[test]
fn damage_ends_the_good_part() {
    let good = write_record_bytes(RecordType::Truncate, &TruncatePayload { since_index: 1 }.encode());
    let mut magic = good.clone();
    magic[0] = 0;
    assert!(matches!(read_one_record(&magic, 0), Err(WalError::BadMagic)));
    let mut kind = good.clone();
    kind[2] = 9;
    assert!(matches!(read_one_record(&kind, 0), Err(WalError::UnknownRecordType)));
    let mut payload = good.clone();
    payload[8] ^= 1;
    assert!(matches!(read_one_record(&payload, 0), Err(WalError::CrcMismatch)));
    assert!(matches!(read_one_record(&[], 0), Ok(None)));
    // A record that cannot be decoded ends it too.
    let mut file = good.clone();
    file.extend(write_record_bytes(RecordType::Append, b"?"));
    file.extend(&good);
    assert_eq!(replay_wal(&file, &vec![None]).valid_len, good.len() as u64);
    // So does a payload that is too short.
    let short = write_record_bytes(RecordType::Truncate, &[1, 2, 3]);
    assert_eq!(replay_wal(&short, &vec![]).valid_len, 0);
}

#[test]
fn compaction_keeps_the_log() {
    let mut w = WalWriter { pending: vec![1, 2, 3], file_size: COMPACTION_THRESHOLD + 1 };
    assert!(w.needs_compaction());
    let payloads = vec![b"entry 3".to_vec(), b"entry 4".to_vec()];
    let image = w.compact(Some(id(2)), &payloads);
    assert_eq!(image, compact_image(Some(id(2)), &payloads));
    assert!(w.pending.is_empty());
    assert_eq!(w.file_size(), image.len() as u64);
    assert!(!w.needs_compaction());
    let decoded = vec![Some(entry(3)), Some(entry(4))];
    assert_eq!(indexes(&image, &decoded), vec![3, 4]);
    assert_eq!(replay_wal(&image, &decoded).last_purged, Some(id(2)));
    assert_eq!(append_payloads(&image), payloads);
}

#[test]
fn record_types_have_their_bytes() {
    for b in 0..=255u8 {
        match RecordType::from_u8(b) {
            Some(t) => assert_eq!(t.to_u8(), b),
            None => assert!(b == 0 || b > 3),
        }
    }
}

#[test]
fn changes_of_the_log_reach_the_file() {
    let mut file: Vec<u8> = Vec::new();
    let (mut w, _) = WalWriter::open(&file, &vec![]);
    let payloads = vec![b"entry 1".to_vec(), b"entry 2".to_vec(), b"entry 3".to_vec()];
    let change = w.wal_append_entries(&payloads, None, &payloads);
    assert!(change.rewritten.is_none());
    file.extend(change.appended);
    file.extend(w.wal_truncate_since(3, None, &payloads[..2].to_vec()).appended);
    file.extend(w.wal_purge_upto(id(1), &payloads[1..2].to_vec()).appended);
    assert_eq!(w.file_size(), file.len() as u64);
    let decoded = vec![Some(entry(1)), Some(entry(2)), Some(entry(3))];
    assert_eq!(indexes(&file, &decoded), vec![2]);
    assert_eq!(replay_wal(&file, &decoded).last_purged, Some(id(1)));
}

#[test]
fn long_files_are_rewritten() {
    let mut w = WalWriter { pending: vec![], file_size: COMPACTION_THRESHOLD };
    let log = vec![b"entry 2".to_vec()];
    let change = w.wal_purge_upto(id(1), &log);
    assert_eq!(change.appended, write_record_bytes(RecordType::Purge, &PurgePayload { log_id: id(1) }.encode()));
    assert_eq!(change.rewritten, Some(compact_image(Some(id(1)), &log)));
    assert_eq!(w.file_size(), compact_image(Some(id(1)), &log).len() as u64);
}
