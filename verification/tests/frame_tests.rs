use ssl_loglib::errors::LogError;
use ssl_loglib::extract_next_message;
use ssl_loglib::raw::{extract_next_raw_message, MessageType};
use ssl_loglib::MessageBody;

fn frame(ts: i64, tag: i32, payload: &[u8]) -> Vec<u8> {
    let mut out = Vec::new();
    out.extend_from_slice(&ts.to_be_bytes());
    out.extend_from_slice(&tag.to_be_bytes());
    out.extend_from_slice(&(payload.len() as i32).to_be_bytes());
    out.extend_from_slice(payload);
    out
}

#[test]
fn raw_frame_decodes_fields() {
    let data = frame(1_234_567_890, 1, &[7, 8, 9]);
    let (msg, end) = extract_next_raw_message(&data, 0).unwrap();
    assert_eq!(msg.timestamp, 1_234_567_890);
    assert_eq!(msg.message_type, MessageType::Unkown);
    assert_eq!(msg.data, vec![7, 8, 9]);
    assert_eq!(end, 19);
}

#[test]
fn raw_frame_negative_timestamp() {
    let data = frame(-42, 0, &[]);
    let (msg, _) = extract_next_raw_message(&data, 0).unwrap();
    assert_eq!(msg.timestamp, -42);
}

#[test]
fn raw_frame_extreme_timestamps() {
    let data = frame(i64::MAX, 0, &[]);
    let (msg, _) = extract_next_raw_message(&data, 0).unwrap();
    assert_eq!(msg.timestamp, i64::MAX);
    let data = frame(i64::MIN, 0, &[]);
    let (msg, _) = extract_next_raw_message(&data, 0).unwrap();
    assert_eq!(msg.timestamp, i64::MIN);
}

#[test]
fn raw_frame_truncated_header() {
    let data = vec![0u8; 10];
    assert_eq!(
        extract_next_raw_message(&data, 0).unwrap_err(),
        LogError::TruncatedInput
    );
}

#[test]
fn raw_frame_truncated_payload() {
    let mut data = frame(5, 1, &[1, 2, 3, 4]);
    data.truncate(data.len() - 1);
    assert_eq!(
        extract_next_raw_message(&data, 0).unwrap_err(),
        LogError::TruncatedInput
    );
}

#[test]
fn raw_frame_negative_length_is_truncation() {
    let data = frame(5, 1, &[]);
    let mut broken = data.clone();
    broken[12] = 0xFF;
    broken[13] = 0xFF;
    broken[14] = 0xFF;
    broken[15] = 0xFF;
    assert_eq!(
        extract_next_raw_message(&broken, 0).unwrap_err(),
        LogError::TruncatedInput
    );
}

#[test]
fn raw_frame_unknown_tag() {
    let data = frame(5, 7, &[]);
    assert_eq!(
        extract_next_raw_message(&data, 0).unwrap_err(),
        LogError::UnknownMessageType(7)
    );
    let data = frame(5, -1, &[]);
    assert_eq!(
        extract_next_raw_message(&data, 0).unwrap_err(),
        LogError::UnknownMessageType(-1)
    );
}

#[test]
fn try_from_maps_all_seven_tags() {
    assert_eq!(MessageType::try_from(0).unwrap(), MessageType::Blank);
    assert_eq!(MessageType::try_from(1).unwrap(), MessageType::Unkown);
    assert_eq!(MessageType::try_from(2).unwrap(), MessageType::Vision2010);
    assert_eq!(MessageType::try_from(3).unwrap(), MessageType::Refbox2013);
    assert_eq!(MessageType::try_from(4).unwrap(), MessageType::Vision2014);
    assert_eq!(
        MessageType::try_from(5).unwrap(),
        MessageType::VisionTracker2020
    );
    assert_eq!(MessageType::try_from(6).unwrap(), MessageType::Index2021);
    assert_eq!(
        MessageType::try_from(7).unwrap_err(),
        LogError::UnknownMessageType(7)
    );
    assert_eq!(
        MessageType::try_from(-3).unwrap_err(),
        LogError::UnknownMessageType(-3)
    );
}

#[test]
fn each_tag_decodes_to_matching_body_variant() {
    let index_payload: Vec<u8> = {
        let mut p = Vec::new();
        p.extend_from_slice(&100i64.to_be_bytes());
        p.extend_from_slice(&23i64.to_be_bytes());
        p.extend_from_slice(b"INDEXED");
        p
    };
    let payloads: [&[u8]; 7] = [&[], &[], &[1], &[2], &[3], &[4], &index_payload];
    for tag in 0..7 {
        let data = frame(50, tag, payloads[tag as usize]);
        let (msg, _) = extract_next_message(&data, 0).unwrap();
        let matches_variant = match (tag, &msg.body) {
            (0, MessageBody::Blank(())) => true,
            (1, MessageBody::Unkown(())) => true,
            (2, MessageBody::Vision2010(d)) => d == &vec![1u8],
            (3, MessageBody::Refbox2013(d)) => d == &vec![2u8],
            (4, MessageBody::Vision2014(d)) => d == &vec![3u8],
            (5, MessageBody::VisionTracker2020(d)) => d == &vec![4u8],
            (6, MessageBody::Index2021(m)) => m.offsets == vec![100] && m.index_offset == 23,
            _ => false,
        };
        assert!(matches_variant);
        assert_eq!(msg.timestamp.nanos, 50);
    }
}

#[test]
fn frames_decode_in_sequence() {
    let mut data = frame(1, 0, &[]);
    data.extend_from_slice(&frame(2, 1, &[9]));
    let (first, end) = extract_next_message(&data, 0).unwrap();
    assert_eq!(first.timestamp.nanos, 1);
    let (second, end2) = extract_next_message(&data, end).unwrap();
    assert_eq!(second.timestamp.nanos, 2);
    assert!(matches!(second.body, MessageBody::Unkown(())));
    assert_eq!(end2, data.len());
}
