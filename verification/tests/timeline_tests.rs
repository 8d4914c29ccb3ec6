use ssl_loglib::{find_ref_msg_by_time, LogMessage, MessageBody, UtcTimestamp};

fn msg(ts: i64) -> LogMessage {
    LogMessage {
        timestamp: UtcTimestamp { nanos: ts },
        body: MessageBody::Refbox2013(Vec::new()),
    }
}

#[test]
fn find_message_by_window() {
    let msgs = vec![msg(0), msg(10), msg(20)];
    assert_eq!(find_ref_msg_by_time(&msgs, UtcTimestamp { nanos: 0 }, 0), 0);
    assert_eq!(find_ref_msg_by_time(&msgs, UtcTimestamp { nanos: 5 }, 0), 0);
    assert_eq!(find_ref_msg_by_time(&msgs, UtcTimestamp { nanos: 10 }, 0), 1);
    assert_eq!(find_ref_msg_by_time(&msgs, UtcTimestamp { nanos: 19 }, 0), 1);
}

#[test]
fn find_message_falls_back_to_last() {
    let msgs = vec![msg(0), msg(10), msg(20)];
    assert_eq!(find_ref_msg_by_time(&msgs, UtcTimestamp { nanos: 25 }, 0), 2);
    assert_eq!(find_ref_msg_by_time(&msgs, UtcTimestamp { nanos: -1 }, 0), 2);
    let single = vec![msg(7)];
    assert_eq!(find_ref_msg_by_time(&single, UtcTimestamp { nanos: 7 }, 0), 0);
}

#[test]
fn find_message_resumes_from_start_index() {
    let msgs = vec![msg(0), msg(10), msg(20), msg(30)];
    assert_eq!(find_ref_msg_by_time(&msgs, UtcTimestamp { nanos: 5 }, 1), 3);
    assert_eq!(find_ref_msg_by_time(&msgs, UtcTimestamp { nanos: 25 }, 1), 2);
}
