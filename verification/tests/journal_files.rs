use prim::journal::{is_segment_name, segment_name, Segments, SEGMENT_LIMIT};
use prim::key::key;
use prim::seqnum::{put_record, Record, SeqnumStore};

#[test]
fn segments_are_the_files_named_seqnum_dash() {
    assert!(is_segment_name("seqnum-000001.bin"));
    assert!(is_segment_name("seqnum-"));
    assert!(is_segment_name("seqnum-old"));
    assert!(!is_segment_name("seqnum"));
    assert!(!is_segment_name(""));
    assert!(!is_segment_name("Seqnum-000001.bin"));
    assert!(!is_segment_name("a-seqnum-000001.bin"));
    assert!(!is_segment_name("seqnum_000001.bin"));
}

#[test]
fn segment_names_hold_six_digits() {
    assert_eq!(segment_name(0), Some(b"seqnum-000000.bin".to_vec()));
    assert_eq!(segment_name(1), Some(b"seqnum-000001.bin".to_vec()));
    assert_eq!(segment_name(120_345), Some(b"seqnum-120345.bin".to_vec()));
    assert_eq!(segment_name(999_999), Some(b"seqnum-999999.bin".to_vec()));
    assert_eq!(segment_name(1_000_000), None);
    let name = String::from_utf8(segment_name(42).unwrap()).unwrap();
    assert!(is_segment_name(&name));
}

#[test]
fn segments_roll_when_a_record_does_not_fit() {
    let mut s = Segments::new(3, 50);
    assert_eq!(s.place(), 3);
    assert_eq!(s.size, 24);
    assert_eq!(s.place(), 3);
    assert_eq!(s.size, 48);
    assert_eq!(s.place(), 4);
    assert_eq!(s, Segments { index: 4, size: 24, limit: 50 });
    let mut tight = Segments::new(0, 10);
    assert_eq!(tight.place(), 0);
    assert_eq!(tight.place(), 1);
    assert_eq!(tight.place(), 2);
    let mut exact = Segments::new(0, 48);
    assert_eq!(exact.place(), 0);
    assert_eq!(exact.place(), 0);
    assert_eq!(exact.place(), 1);
    assert_eq!(SEGMENT_LIMIT, 128 * 1024 * 1024);
}

#[test]
fn what_is_appended_is_what_recovery_reads() {
    let mut journal: Vec<u8> = Vec::new();
    let mut writer = SeqnumStore::new();
    let keys = [key(1, 2), key(3, 4), key(2, 1), key(1, 2), key(9, 9)];
    for k in keys {
        let issued = writer.next(k).unwrap();
        put_record(&mut journal, &issued.record);
    }
    journal.extend_from_slice(&[1, 2, 3]);
    let mut reader = SeqnumStore::new();
    reader.recover(&journal);
    for k in keys {
        assert_eq!(reader.current(k), writer.current(k));
    }
    assert_eq!(reader.current(key(1, 2)), 3);
    let r = Record { key: key(1, 2), value: 2 };
    assert_eq!(&journal[72..96], &prim::seqnum::encode_record(&r)[..]);
}
