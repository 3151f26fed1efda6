use rafthttp::error::Error;
use rafthttp::raftpb::{ConfState, Snapshot, SnapshotMetadata};
use rafthttp::snapfile::{
    check_suffix, cleanup_names, parse_snap_frame, read_snap_frame, snap_dbs_to_release, snap_file_name,
    snap_frame, trim_end_matches,
};

#[test]
fn snap_frame_round_trip() {
    let data = b"some snapshot".to_vec();
    let bytes = snap_frame(&data);
    assert_eq!(read_snap_frame(&bytes), Ok(data.clone()));
    let (crc, d) = parse_snap_frame(&bytes).unwrap();
    assert_eq!(d, data);
    assert_eq!(crc, crc::Crc::<u32>::new(&crc::CRC_32_ISCSI).checksum(&[]));
    assert_eq!(crc, 0);
}

#[test]
fn snap_frame_layout() {
    // the checksum of no bytes is zero, so only the data field is written
    let bytes = snap_frame(b"a");
    assert_eq!(bytes, vec![18u8, 1, b'a']);
}

#[test]
fn snap_frame_long_data_length_varint() {
    let data = vec![7u8; 300];
    let bytes = snap_frame(&data);
    assert_eq!(read_snap_frame(&bytes), Ok(data));
}

#[test]
fn read_empty_snapshot_file_is_refused() {
    assert_eq!(read_snap_frame(&[]), Err(Error::ErrEmptySnapshot));
}

#[test]
fn read_detects_crc_mismatch() {
    // crc field 1 = 5, data field "xy"
    let bytes = vec![8u8, 5, 18, 2, b'x', b'y'];
    assert_eq!(read_snap_frame(&bytes), Err(Error::ErrCRCMismatch));
}

#[test]
fn parse_skips_unknown_fields_and_keeps_last_copy() {
    // field 3 varint, field 2 "a", field 4 fixed32, field 2 "bc"
    let bytes = vec![24u8, 1, 18, 1, b'a', 37, 0, 0, 0, 0, 18, 2, b'b', b'c'];
    assert_eq!(parse_snap_frame(&bytes), Some((0, b"bc".to_vec())));
}

#[test]
fn parse_refuses_malformed_frames() {
    assert_eq!(parse_snap_frame(&[18, 5, b'a']), None);
    assert_eq!(parse_snap_frame(&[8]), None);
    assert_eq!(parse_snap_frame(&[0, 1]), None);
    assert_eq!(parse_snap_frame(&[10, 1, 0]), None);
}

#[test]
fn snap_file_names() {
    assert_eq!(snap_file_name(1, 1), "1-1.snap");
    assert_eq!(snap_file_name(300, 12), "300-12.snap");
    let names = vec![
        "1-1.snap".to_string(),
        "db".to_string(),
        "2-1.snap.db".to_string(),
        "3-1.snap".to_string(),
    ];
    assert_eq!(check_suffix(names).unwrap(), vec!["1-1.snap".to_string(), "3-1.snap".to_string()]);
}

#[test]
fn release_picks_older_snap_dbs() {
    let names: Vec<String> =
        vec!["100.snap.db", "200.snap.db", "300.snap.db", "400.snap.db", "1-1.snap"]
            .into_iter()
            .map(|s| s.to_string())
            .collect();
    assert_eq!(
        snap_dbs_to_release(&names, 300),
        vec!["100.snap.db".to_string(), "200.snap.db".to_string()]
    );
    assert_eq!(trim_end_matches("5.snap.db.snap.db", ".snap.db"), "5");
}

#[test]
fn snapshot_is_empty_by_index() {
    let mut s = Snapshot {
        data: b"some snapshot".to_vec(),
        metadata: SnapshotMetadata {
            conf_state: ConfState {
                voters: vec![1, 2, 3],
                learners: vec![],
                voters_outgoing: vec![],
                learners_next: vec![],
                auto_leave: false,
            },
            index: 0,
            term: 1,
        },
    };
    assert!(s.is_empty());
    s.metadata.index = 1;
    assert!(!s.is_empty());
}

#[test]
fn cleanup_splits_defrag_leftovers() {
    let names: Vec<String> = vec!["1-1.snap", "db.tmp.123", "db", "db.tmp", "2-1.snap"].into_iter().map(String::from).collect();
    let (gone, kept) = cleanup_names(names);
    assert_eq!(gone, vec!["db.tmp.123", "db.tmp"]);
    assert_eq!(kept, vec!["1-1.snap", "db", "2-1.snap"]);
    let (gone, kept) = cleanup_names(vec![]);
    assert!(gone.is_empty() && kept.is_empty());
}

#[test]
fn saved_snapshot_names_are_listed() {
    for (i, t) in [(0u64, 0u64), (1, 1), (300, 7), (u64::MAX, u64::MAX)] {
        let name = snap_file_name(i, t);
        assert_eq!(check_suffix(vec![name.clone()]).unwrap(), vec![name.clone()]);
        let (gone, kept) = cleanup_names(vec![name.clone()]);
        assert!(gone.is_empty());
        assert_eq!(kept, vec![name.clone()]);
        assert!(snap_dbs_to_release(&vec![name.clone()], u64::MAX).is_empty());
    }
}

#[test]
fn read_reports_file_errors() {
    assert_eq!(rafthttp::snapfile::read(&[]), Err("empty snapshot file".to_string()));
    let data = b"some snapshot".to_vec();
    let bytes = snap_frame(&data);
    assert_eq!(rafthttp::snapfile::read(&bytes), Ok(data));
    let bad = vec![8u8, 5, 18, 2, b'x', b'y'];
    assert_eq!(rafthttp::snapfile::read(&bad), Err("crc mismatch".to_string()));
    let with_zero_crc = vec![8u8, 0, 18, 2, b'x', b'y'];
    assert_eq!(rafthttp::snapfile::read(&with_zero_crc), Ok(b"xy".to_vec()));
}
