use ssl_loglib::errors::{IndexFault, LogError};
use ssl_loglib::get_all_referee_messages;
use ssl_loglib::log_file_reader::LogFileReader;
use ssl_loglib::MessageBody;

fn file_header(version: i32) -> Vec<u8> {
    let mut out = Vec::new();
    out.extend_from_slice(b"SSL_LOG_FILE");
    out.extend_from_slice(&version.to_be_bytes());
    out
}

fn push_frame(out: &mut Vec<u8>, ts: i64, tag: i32, payload: &[u8]) {
    out.extend_from_slice(&ts.to_be_bytes());
    out.extend_from_slice(&tag.to_be_bytes());
    out.extend_from_slice(&(payload.len() as i32).to_be_bytes());
    out.extend_from_slice(payload);
}

#[test]
fn open_succeeds_on_valid_preamble() {
    let reader = LogFileReader::new(file_header(1));
    assert!(reader.is_ok());
}

#[test]
fn open_rejects_wrong_preamble() {
    let mut data = file_header(1);
    data[0] = b'X';
    assert_eq!(
        LogFileReader::new(data).unwrap_err(),
        LogError::BadPreamble
    );
}

#[test]
fn open_rejects_short_file() {
    assert_eq!(
        LogFileReader::new(b"SSL_LOG".to_vec()).unwrap_err(),
        LogError::BadPreamble
    );
    assert_eq!(
        LogFileReader::new(Vec::new()).unwrap_err(),
        LogError::BadPreamble
    );
}

#[test]
fn open_rejects_other_version() {
    assert_eq!(
        LogFileReader::new(file_header(2)).unwrap_err(),
        LogError::UnsupportedVersion(2)
    );
    assert_eq!(
        LogFileReader::new(file_header(0)).unwrap_err(),
        LogError::UnsupportedVersion(0)
    );
}

#[test]
fn empty_file_is_exhausted_immediately() {
    let mut reader = LogFileReader::new(file_header(1)).unwrap();
    assert!(reader.get_next_message().unwrap().is_none());
    assert!(reader.get_next_message().unwrap().is_none());
}

#[test]
fn iteration_ends_cleanly_on_frame_boundary() {
    let mut data = file_header(1);
    push_frame(&mut data, 10, 0, &[]);
    push_frame(&mut data, 20, 1, &[5, 6]);
    let mut reader = LogFileReader::new(data).unwrap();
    assert_eq!(reader.get_next_message().unwrap().unwrap().timestamp.nanos, 10);
    assert_eq!(reader.get_next_message().unwrap().unwrap().timestamp.nanos, 20);
    assert!(reader.get_next_message().unwrap().is_none());
}

#[test]
fn truncated_stream_reports_error_not_end() {
    let mut data = file_header(1);
    push_frame(&mut data, 10, 0, &[]);
    push_frame(&mut data, 20, 1, &[5, 6]);
    data.truncate(data.len() - 1);
    let mut reader = LogFileReader::new(data).unwrap();
    assert!(reader.get_next_message().unwrap().is_some());
    assert_eq!(
        reader.get_next_message().unwrap_err(),
        LogError::TruncatedInput
    );
}

#[test]
fn probe_is_indexed_checks_final_bytes() {
    let mut plain = file_header(1);
    push_frame(&mut plain, 10, 0, &[]);
    let reader = LogFileReader::new(plain).unwrap();
    assert!(!reader.is_indexed());

    let mut indexed = file_header(1);
    let mut payload = Vec::new();
    payload.extend_from_slice(&16i64.to_be_bytes());
    payload.extend_from_slice(&39i64.to_be_bytes());
    payload.extend_from_slice(b"INDEXED");
    push_frame(&mut indexed, 10, 6, &payload);
    let reader = LogFileReader::new(indexed).unwrap();
    assert!(reader.is_indexed());
}

#[test]
fn probe_does_not_disturb_iteration() {
    let mut data = file_header(1);
    push_frame(&mut data, 10, 0, &[]);
    push_frame(&mut data, 20, 1, &[]);
    let mut reader = LogFileReader::new(data).unwrap();
    assert!(!reader.is_indexed());
    assert_eq!(reader.get_next_message().unwrap().unwrap().timestamp.nanos, 10);
    assert!(!reader.is_indexed());
    assert_eq!(reader.get_next_message().unwrap().unwrap().timestamp.nanos, 20);
    assert!(!reader.is_indexed());
    assert!(reader.get_next_message().unwrap().is_none());
}

#[test]
fn two_frame_file_end_to_end() {
    // A referee frame at t=1000 followed by an unknown-kind frame at t=2000.
    let referee_payload: &[u8] = &[8, 1, 16, 2];
    let mut data = file_header(1);
    push_frame(&mut data, 1000, 3, referee_payload);
    push_frame(&mut data, 2000, 1, &[]);

    let mut reader = LogFileReader::new(data.clone()).unwrap();
    let first = reader.get_next_message().unwrap().unwrap();
    assert_eq!(first.timestamp.nanos, 1000);
    match &first.body {
        MessageBody::Refbox2013(d) => assert_eq!(d.as_slice(), referee_payload),
        _ => panic!("expected a referee body"),
    }
    let second = reader.get_next_message().unwrap().unwrap();
    assert_eq!(second.timestamp.nanos, 2000);
    assert!(matches!(second.body, MessageBody::Unkown(())));
    assert!(reader.get_next_message().unwrap().is_none());

    let collected = get_all_referee_messages(data).unwrap();
    assert_eq!(collected.len(), 1);
    assert_eq!(collected[0].timestamp.nanos, 1000);
    assert!(matches!(&collected[0].body, MessageBody::Refbox2013(_)));
}

#[test]
fn collect_propagates_decode_errors() {
    let mut data = file_header(1);
    push_frame(&mut data, 10, 3, &[1]);
    push_frame(&mut data, 20, 9, &[]);
    assert_eq!(
        get_all_referee_messages(data).unwrap_err(),
        LogError::UnknownMessageType(9)
    );

    let mut truncated = file_header(1);
    push_frame(&mut truncated, 10, 3, &[1]);
    truncated.truncate(truncated.len() - 1);
    assert_eq!(
        get_all_referee_messages(truncated).unwrap_err(),
        LogError::TruncatedInput
    );
}

#[test]
fn collect_keeps_referee_order_and_skips_others() {
    let mut data = file_header(1);
    push_frame(&mut data, 1, 3, &[10]);
    push_frame(&mut data, 2, 0, &[]);
    push_frame(&mut data, 3, 3, &[20]);
    push_frame(&mut data, 4, 4, &[7, 7]);
    push_frame(&mut data, 5, 3, &[30]);
    let collected = get_all_referee_messages(data).unwrap();
    assert_eq!(collected.len(), 3);
    let expected: [(i64, u8); 3] = [(1, 10), (3, 20), (5, 30)];
    for (msg, (ts, payload)) in collected.iter().zip(expected.iter()) {
        assert_eq!(msg.timestamp.nanos, *ts);
        match &msg.body {
            MessageBody::Refbox2013(d) => assert_eq!(d.as_slice(), &[*payload]),
            _ => panic!("expected a referee body"),
        }
    }
}

#[test]
fn collect_aborts_on_malformed_index_frame() {
    let mut data = file_header(1);
    push_frame(&mut data, 1, 3, &[10]);
    push_frame(&mut data, 2, 6, &[1, 2, 3]);
    assert_eq!(
        get_all_referee_messages(data).unwrap_err(),
        LogError::MalformedIndex(IndexFault::NotEnoughBytes)
    );
}

#[test]
fn collect_skips_well_formed_index_frames() {
    let mut payload = Vec::new();
    payload.extend_from_slice(&16i64.to_be_bytes());
    payload.extend_from_slice(&39i64.to_be_bytes());
    payload.extend_from_slice(b"INDEXED");
    let mut data = file_header(1);
    push_frame(&mut data, 1, 3, &[10]);
    push_frame(&mut data, 2, 6, &payload);
    let collected = get_all_referee_messages(data).unwrap();
    assert_eq!(collected.len(), 1);
    assert_eq!(collected[0].timestamp.nanos, 1);
}

#[test]
fn collect_rejects_bad_preamble() {
    assert_eq!(
        get_all_referee_messages(b"NOT_A_LOG_FILE!!".to_vec()).unwrap_err(),
        LogError::BadPreamble
    );
    assert_eq!(
        get_all_referee_messages(file_header(3)).unwrap_err(),
        LogError::UnsupportedVersion(3)
    );
}
