use std::io::Write;

use cpo_analyzer::decode::{decode_grain_shard, decode_metadata_shard};
use cpo_analyzer::error::CpoError;
use cpo_analyzer::shards::{scan_shards, scan_step, shard_file_name, ScanState, ShardEvent};

fn grain_table(rows: &[(u64, &str)]) -> Vec<u8> {
    let mut text = String::from("id phi theta z phi2 theta2 z2\n");
    for (id, angles) in rows {
        text.push_str(&format!("{} {}\n", id, angles));
    }
    text.into_bytes()
}

fn zlib_compress(data: &[u8]) -> Vec<u8> {
    let mut encoder = libflate::zlib::Encoder::new(Vec::new()).unwrap();
    encoder.write_all(data).unwrap();
    encoder.finish().into_result().unwrap()
}

#[test]
fn shard_file_name_pads_timestep_and_shard() {
    let prefix = b"particle_CPO/weighted_CPO".to_vec();
    let name = shard_file_name(&prefix, 12, 3);
    assert_eq!(name, b"particle_CPO/weighted_CPO-00012.0003.dat".to_vec());
}

#[test]
fn shard_file_name_keeps_wide_numbers() {
    let prefix = b"p".to_vec();
    let name = shard_file_name(&prefix, 123456, 0);
    assert_eq!(name, b"p-123456.0000.dat".to_vec());
}

#[test]
fn decode_plain_shard_filters_by_id() {
    let bytes = grain_table(&[
        (5, "1.0 2.0 3.0 4.0 5.0 6.0"),
        (3, "10.0 20.0 30.0 40.0 50.0 60.0"),
        (5, "7.0 8.0 9.0 10.0 11.0 12.0"),
    ]);
    let rows = decode_grain_shard(&bytes, false, 5).unwrap();
    assert_eq!(rows.len(), 2);
    assert_eq!(rows[0][0], b"5".to_vec());
    assert_eq!(rows[0][1], b"1.0".to_vec());
    assert_eq!(rows[0][6], b"6.0".to_vec());
    assert_eq!(rows[1][1], b"7.0".to_vec());
}

#[test]
fn decode_compressed_shard_round_trips() {
    let plain = grain_table(&[(9, "0.5 1.5 2.5 3.5 4.5 5.5")]);
    let compressed = zlib_compress(&plain);
    let rows = decode_grain_shard(&compressed, true, 9).unwrap();
    assert_eq!(rows.len(), 1);
    assert_eq!(rows[0][0], b"9".to_vec());
    assert_eq!(rows[0][3], b"2.5".to_vec());
}

#[test]
fn decode_rejects_undecodable_stream() {
    let garbage = vec![1u8, 2, 3, 4, 5];
    assert_eq!(
        decode_grain_shard(&garbage, true, 1),
        Err(CpoError::UndecodableStream)
    );
}

#[test]
fn decode_rejects_ragged_table() {
    let bytes = b"id phi\n3\n".to_vec();
    assert_eq!(
        decode_grain_shard(&bytes, false, 3),
        Err(CpoError::MalformedTable)
    );
}

#[test]
fn decode_rejects_unparsable_id() {
    let bytes = b"id phi\nnope 1.0\n".to_vec();
    assert_eq!(
        decode_grain_shard(&bytes, false, 3),
        Err(CpoError::UnparsableField)
    );
}

#[test]
fn decode_empty_table_matches_nothing() {
    let bytes = Vec::new();
    let rows = decode_grain_shard(&bytes, false, 3).unwrap();
    assert!(rows.is_empty());
}

#[test]
fn metadata_takes_last_matching_row() {
    let bytes = b"id x y\n4 0.0 0.0\n7 1.0 2.0\n7 3.0 4.0\n".to_vec();
    let row = decode_metadata_shard(&bytes, 7).unwrap().unwrap();
    assert_eq!(row[1], b"3.0".to_vec());
    assert_eq!(row[2], b"4.0".to_vec());
}

#[test]
fn metadata_absent_id_gives_none() {
    let bytes = b"id x y\n4 0.0 0.0\n".to_vec();
    assert_eq!(decode_metadata_shard(&bytes, 7), Ok(None));
}

#[test]
fn scan_finds_id_in_third_shard_and_stops_there() {
    // Shard 0 is empty, shard 1 exists but lacks the id, shard 2 has it.
    let shard1 = grain_table(&[(5, "1.0 2.0 3.0 4.0 5.0 6.0")]);
    let shard2 = grain_table(&[(3, "9.0 8.0 7.0 6.0 5.0 4.0")]);
    let matches1 = decode_grain_shard(&shard1, false, 3).unwrap().len();
    let matches2 = decode_grain_shard(&shard2, false, 3).unwrap().len();
    assert_eq!(matches1, 0);
    assert_eq!(matches2, 1);
    let events = vec![
        ShardEvent::Empty,
        ShardEvent::Rows { matching: matches1 },
        ShardEvent::Rows { matching: matches2 },
    ];
    assert_eq!(scan_shards(&events), ScanState::Found { shard: 2 });
    // Even with more shards on offer, the scan does not continue past it.
    let more = vec![
        ShardEvent::Empty,
        ShardEvent::Rows { matching: matches1 },
        ShardEvent::Rows { matching: matches2 },
        ShardEvent::Rows { matching: 5 },
        ShardEvent::Missing,
    ];
    assert_eq!(scan_shards(&more), ScanState::Found { shard: 2 });
}

#[test]
fn scan_reports_exhaustion_at_missing_file() {
    let events = vec![
        ShardEvent::Empty,
        ShardEvent::Rows { matching: 0 },
        ShardEvent::Missing,
    ];
    assert_eq!(scan_shards(&events), ScanState::Exhausted { shard: 2 });
}

#[test]
fn scan_step_transitions() {
    let scanning = ScanState::Scanning { shard: 4 };
    assert_eq!(
        scan_step(scanning, ShardEvent::Empty),
        ScanState::Scanning { shard: 5 }
    );
    assert_eq!(
        scan_step(scanning, ShardEvent::Rows { matching: 0 }),
        ScanState::Scanning { shard: 5 }
    );
    assert_eq!(
        scan_step(scanning, ShardEvent::Rows { matching: 2 }),
        ScanState::Found { shard: 4 }
    );
    assert_eq!(
        scan_step(scanning, ShardEvent::Missing),
        ScanState::Exhausted { shard: 4 }
    );
    let found = ScanState::Found { shard: 4 };
    assert_eq!(scan_step(found, ShardEvent::Missing), found);
    let exhausted = ScanState::Exhausted { shard: 4 };
    assert_eq!(scan_step(exhausted, ShardEvent::Rows { matching: 3 }), exhausted);
}
