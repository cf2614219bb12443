use prim::key::key;
use prim::seqnum::{
    decode_record, encode_record, shard_of, Issued, Record, SeqnumError, SeqnumStore, Shard,
    RECORD_LEN,
};

#[test]
fn first_number_is_one_and_numbers_follow_each_other() {
    let mut store = SeqnumStore::new();
    let k = key(10, 11);
    assert_eq!(store.current(k), 0);
    for expected in 1..=100u64 {
        let issued = store.next(k).unwrap();
        assert_eq!(issued.value, expected);
        assert_eq!(issued.record, Record { key: k, value: expected - 1 });
    }
    assert_eq!(store.current(k), 100);
}

#[test]
fn both_directions_share_one_counter() {
    let mut store = SeqnumStore::new();
    assert_eq!(store.next(key(10, 11)).unwrap().value, 1);
    assert_eq!(store.next(key(11, 10)).unwrap().value, 2);
    assert_eq!(store.next(key(10, 11)).unwrap().value, 3);
}

#[test]
fn interleaved_keys_do_not_disturb_each_other() {
    let mut store = SeqnumStore::new();
    let a = key(1, 2);
    let b = key(3, 4);
    let order = [a, b, b, a, a, b, a];
    let mut got_a = Vec::new();
    let mut got_b = Vec::new();
    for k in order {
        let v = store.next(k).unwrap().value;
        if k == a {
            got_a.push(v);
        } else {
            got_b.push(v);
        }
    }
    assert_eq!(got_a, vec![1, 2, 3, 4]);
    assert_eq!(got_b, vec![1, 2, 3]);
}

#[test]
fn seqnum_recovery_first_next_after_restart_is_101() {
    let k = key(10, 11);
    let mut shard = Shard::new();
    let mut journal: Vec<u8> = Vec::new();
    for expected in 1..=100u64 {
        let issued = shard.next(k).unwrap();
        assert_eq!(issued.value, expected);
        journal.extend_from_slice(&encode_record(&issued.record));
        shard.journal_written(true);
    }
    assert_eq!(journal.len(), 100 * RECORD_LEN);
    drop(shard);
    let mut restarted = Shard::new();
    restarted.recover(&journal);
    assert_eq!(restarted.current(k), 100);
    assert_eq!(restarted.next(k).unwrap().value, 101);
}

#[test]
fn recovery_over_several_segments_takes_the_largest() {
    let k = key(1, 2);
    let other = key(1, 3);
    let mut first: Vec<u8> = Vec::new();
    first.extend_from_slice(&encode_record(&Record { key: k, value: 41 }));
    first.extend_from_slice(&encode_record(&Record { key: other, value: 6 }));
    let mut second: Vec<u8> = Vec::new();
    second.extend_from_slice(&encode_record(&Record { key: k, value: 7 }));
    let mut store = SeqnumStore::new();
    store.recover(&second);
    assert_eq!(store.current(k), 8);
    store.recover(&first);
    assert_eq!(store.current(k), 42);
    assert_eq!(store.current(other), 7);
    store.recover(&second);
    assert_eq!(store.current(k), 42);
    assert_eq!(store.next(k).unwrap().value, 43);
}

#[test]
fn torn_record_at_the_end_is_ignored() {
    let k = key(5, 9);
    let mut segment = encode_record(&Record { key: k, value: 3 });
    let torn = encode_record(&Record { key: k, value: 900 });
    segment.extend_from_slice(&torn[..23]);
    let mut store = SeqnumStore::new();
    store.recover(&segment);
    assert_eq!(store.current(k), 4);
    let mut empty = SeqnumStore::new();
    empty.recover(&torn[..23]);
    assert_eq!(empty.current(k), 0);
}

#[test]
fn record_is_key_then_value_big_endian() {
    let r = Record { key: key(258, 1), value: 0x0102030405060708 };
    let bytes = encode_record(&r);
    assert_eq!(bytes.len(), 24);
    assert_eq!(&bytes[0..8], &[0, 0, 0, 0, 0, 0, 0, 1]);
    assert_eq!(&bytes[8..16], &[0, 0, 0, 0, 0, 0, 1, 2]);
    assert_eq!(&bytes[16..24], &[1, 2, 3, 4, 5, 6, 7, 8]);
    assert_eq!(decode_record(&bytes, 0), r);
    let mut shifted = vec![0xffu8; 5];
    shifted.extend_from_slice(&bytes);
    assert_eq!(decode_record(&shifted, 5), r);
}

#[test]
fn exhausted_counter_issues_nothing() {
    let k = key(1, 2);
    let mut store = SeqnumStore::new();
    store.apply(&Record { key: k, value: u64::MAX - 1 });
    assert_eq!(store.current(k), u64::MAX);
    assert_eq!(store.next(k), Err(SeqnumError::Exhausted));
    assert_eq!(store.current(k), u64::MAX);
    store.apply(&Record { key: k, value: u64::MAX });
    assert_eq!(store.current(k), u64::MAX);
}

#[test]
fn replay_never_lowers_a_counter() {
    let k = key(1, 2);
    let mut store = SeqnumStore::new();
    store.apply(&Record { key: k, value: 9 });
    store.apply(&Record { key: k, value: 2 });
    assert_eq!(store.current(k), 10);
}

#[test]
fn failed_journal_write_stops_the_shard() {
    let k = key(1, 2);
    let mut shard = Shard::new();
    assert!(!shard.is_stopped());
    assert_eq!(
        shard.next(k),
        Ok(Issued { value: 1, record: Record { key: k, value: 0 } })
    );
    shard.journal_written(false);
    assert!(shard.is_stopped());
    assert_eq!(shard.next(k), Err(SeqnumError::JournalError));
    assert_eq!(shard.next(key(8, 9)), Err(SeqnumError::JournalError));
    assert_eq!(shard.current(k), 1);
    shard.journal_written(true);
    assert!(shard.is_stopped());
}

#[test]
fn keys_are_sharded_by_remainder() {
    assert_eq!(shard_of(10, 4), 2);
    assert_eq!(shard_of(key(1, 0), 7), 1);
    assert_eq!(shard_of(key(1, 1), 7), 3);
    assert_eq!(shard_of(u128::MAX, 1), 0);
}
