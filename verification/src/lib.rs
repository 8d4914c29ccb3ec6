//! Parser for the SSL game log container format.
//!
//! A log file starts with a fixed preamble and format version, followed by a
//! sequence of frames. Each frame holds a big-endian timestamp, a type tag, a
//! payload length and that many payload bytes. A file may additionally carry an
//! index block, stored as the payload of an ordinary frame and terminated by a
//! literal marker in the file's final bytes.
//!
//! The crate root assembles the pieces: it dispatches a frame's payload on the
//! validated message type, wraps payload and timestamp into a [`LogMessage`],
//! and drains whole files into the referee messages the downstream tools read.

pub mod big_endian;
pub mod colors;
pub mod errors;
pub mod index;
pub mod log_file_reader;
pub mod raw;
pub mod referee_text;
pub mod text_helpers;

use crate::errors::LogError;
use crate::index::{index_fault, index_matches, index_well_formed, IndexMessage};
use crate::log_file_reader::{magic_ok, preamble_valid, version_of, LogFileReader};
use crate::raw::{
    encode_frame, extract_next_raw_message, frame_end, frame_fits, frame_payload, frame_tag,
    frame_ts, tag_of, type_of_tag, MessageType,
};
use vstd::prelude::*;

verus! {

/// An absolute UTC instant, counted in nanoseconds since the Unix epoch.
#[derive(PartialEq, Eq, Structural, Clone, Copy, Debug)]
pub struct UtcTimestamp {
    /// Nanoseconds since the Unix epoch; negative for instants before it.
    pub nanos: i64,
}

/// The decoded payload of one frame, tagged by its message type.
///
/// The variant always matches the message type that produced it. Kinds whose
/// payloads are schema messages carry the exact payload bytes for the schema
/// decoder downstream; kinds with no payload semantics carry a unit value.
#[derive(Debug)]
pub enum MessageBody {
    Blank(()),
    Unkown(()),
    Vision2010(Vec<u8>),
    Refbox2013(Vec<u8>),
    Vision2014(Vec<u8>),
    VisionTracker2020(Vec<u8>),
    Index2021(IndexMessage),
}

/// One message of the log: an absolute timestamp and a decoded body.
#[derive(Debug)]
pub struct LogMessage {
    pub timestamp: UtcTimestamp,
    pub body: MessageBody,
}

/// Whether `b` is the body that payload `payload` of a frame of type `t`
/// decodes to.
pub open spec fn body_matches(b: MessageBody, t: MessageType, payload: Seq<u8>) -> bool {
    match t {
        MessageType::Blank => b == MessageBody::Blank(()),
        MessageType::Unkown => b == MessageBody::Unkown(()),
        MessageType::Vision2010 => b matches MessageBody::Vision2010(d) && d@ == payload,
        MessageType::Refbox2013 => b matches MessageBody::Refbox2013(d) && d@ == payload,
        MessageType::Vision2014 => b matches MessageBody::Vision2014(d) && d@ == payload,
        MessageType::VisionTracker2020 => b matches MessageBody::VisionTracker2020(d) && d@
            == payload,
        MessageType::Index2021 => b matches MessageBody::Index2021(m) && index_well_formed(payload)
            && index_matches(m, payload),
    }
}

/// The first reason the frame at `pos` fails to decode, if any: truncation,
/// then an unknown tag, then a malformed index block payload.
pub open spec fn frame_fault(s: Seq<u8>, pos: int) -> Option<LogError> {
    if !frame_fits(s, pos) {
        Some(LogError::TruncatedInput)
    } else if type_of_tag(frame_tag(s, pos)) is None {
        Some(LogError::UnknownMessageType(frame_tag(s, pos) as i32))
    } else if type_of_tag(frame_tag(s, pos)) == Some(MessageType::Index2021) && index_fault(
        frame_payload(s, pos),
    ) is Some {
        Some(LogError::MalformedIndex(index_fault(frame_payload(s, pos))->Some_0))
    } else {
        None
    }
}

/// Decodes the payload of a frame of type `message_type`.
///
/// Dispatch is purely on the message type and never inspects the timestamp.
/// Every kind succeeds except an index frame whose payload is not a
/// well-formed index block.
pub fn decode_message_body(message_type: MessageType, data: Vec<u8>) -> (r: Result<
    MessageBody,
    LogError,
>)
    ensures
        match r {
            Ok(b) => body_matches(b, message_type, data@),
            Err(LogError::MalformedIndex(f)) => message_type == MessageType::Index2021
                && index_fault(data@) == Some(f),
            Err(_) => false,
        },
{
    match message_type {
        MessageType::Blank => Ok(MessageBody::Blank(())),
        MessageType::Unkown => Ok(MessageBody::Unkown(())),
        MessageType::Vision2010 => Ok(MessageBody::Vision2010(data)),
        MessageType::Refbox2013 => Ok(MessageBody::Refbox2013(data)),
        MessageType::Vision2014 => Ok(MessageBody::Vision2014(data)),
        MessageType::VisionTracker2020 => Ok(MessageBody::VisionTracker2020(data)),
        MessageType::Index2021 => match IndexMessage::from_bytes(data.as_slice()) {
            Ok(m) => Ok(MessageBody::Index2021(m)),
            Err(e) => Err(e),
        },
    }
}

/// Decodes the frame at `pos` into a timed message and returns the position
/// just past it.
///
/// Succeeds exactly when a whole frame lies at `pos`, its tag is known, and —
/// for an index frame — its payload is a well-formed index block; the error
/// otherwise pins down the first reason the frame fails.
pub fn extract_next_message(data: &[u8], pos: usize) -> (r: Result<(LogMessage, usize), LogError>)
    requires
        pos <= data@.len(),
    ensures
        match r {
            Ok((m, end)) => {
                &&& frame_fault(data@, pos as int) is None
                &&& m.timestamp.nanos == frame_ts(data@, pos as int)
                &&& body_matches(
                    m.body,
                    type_of_tag(frame_tag(data@, pos as int))->Some_0,
                    frame_payload(data@, pos as int),
                )
                &&& end == frame_end(data@, pos as int)
                &&& pos < end <= data@.len()
            },
            Err(e) => frame_fault(data@, pos as int) == Some(e),
        },
{
    let (raw, end) = match extract_next_raw_message(data, pos) {
        Ok(v) => v,
        Err(e) => {
            proof {
                if frame_fits(data@, pos as int) {
                    crate::big_endian::lemma_be_i32_range(
                        data@.subrange(pos as int + 8, pos as int + 12),
                    );
                }
            }
            return Err(e);
        },
    };
    let timestamp = UtcTimestamp { nanos: raw.timestamp };
    let body = match decode_message_body(raw.message_type, raw.data) {
        Ok(b) => b,
        Err(e) => {
            return Err(e);
        },
    };
    Ok((LogMessage { timestamp, body }, end))
}

/// The first reason any frame of the stream beginning at `pos` fails to
/// decode; `None` when the stream ends exactly on a frame boundary.
pub open spec fn stream_fault(s: Seq<u8>, pos: int) -> Option<LogError>
    decreases s.len() - pos
        when 0 <= pos <= s.len()
{
    if pos == s.len() {
        None
    } else if frame_fault(s, pos) is Some {
        frame_fault(s, pos)
    } else {
        stream_fault(s, frame_end(s, pos))
    }
}

/// The timestamps and payloads of the referee frames of the stream beginning
/// at `pos`, in file order, up to the stream's end or first faulty frame.
pub open spec fn referee_frames(s: Seq<u8>, pos: int) -> Seq<(int, Seq<u8>)>
    decreases s.len() - pos
        when 0 <= pos <= s.len()
{
    if pos == s.len() || frame_fault(s, pos) is Some {
        Seq::empty()
    } else if frame_tag(s, pos) == tag_of(MessageType::Refbox2013) {
        seq![(frame_ts(s, pos), frame_payload(s, pos))] + referee_frames(s, frame_end(s, pos))
    } else {
        referee_frames(s, frame_end(s, pos))
    }
}

/// The payload bytes a referee message carries.
pub open spec fn refbox_payload(b: MessageBody) -> Seq<u8> {
    match b {
        MessageBody::Refbox2013(d) => d@,
        _ => Seq::empty(),
    }
}

/// The timestamps and payloads of a sequence of referee messages.
pub open spec fn ref_view(v: Seq<LogMessage>) -> Seq<(int, Seq<u8>)> {
    Seq::new(v.len(), |i: int| (v[i].timestamp.nanos as int, refbox_payload(v[i].body)))
}

/// Whether every message of the sequence is a referee message.
pub open spec fn all_referee(v: Seq<LogMessage>) -> bool {
    forall|i: int| 0 <= i < v.len() ==> (#[trigger] v[i]).body is Refbox2013
}

/// Drains a whole log file and collects its referee messages, in file order,
/// silently skipping every other kind.
///
/// Succeeds exactly when the preamble validates and every frame of the file
/// decodes up to a clean end on a frame boundary; the result then carries
/// precisely the timestamps and payloads of the file's referee frames. Any
/// decode error aborts the drain, discarding partial results, with the error
/// of the first faulty frame.
pub fn get_all_referee_messages(data: Vec<u8>) -> (r: Result<Vec<LogMessage>, LogError>)
    ensures
        match r {
            Ok(v) => {
                &&& preamble_valid(data@)
                &&& stream_fault(data@, 16) is None
                &&& all_referee(v@)
                &&& ref_view(v@) == referee_frames(data@, 16)
            },
            Err(LogError::BadPreamble) => !magic_ok(data@),
            Err(LogError::UnsupportedVersion(ver)) => magic_ok(data@) && ver == version_of(data@)
                && ver != 1,
            Err(e) => preamble_valid(data@) && stream_fault(data@, 16) == Some(e),
        },
{
    let ghost s = data@;
    let mut reader = match LogFileReader::new(data) {
        Ok(rd) => rd,
        Err(e) => {
            return Err(e);
        },
    };
    let mut ref_messages: Vec<LogMessage> = Vec::new();
    proof {
        assert(ref_view(ref_messages@) =~= Seq::<(int, Seq<u8>)>::empty());
        assert(ref_view(ref_messages@) + referee_frames(s, 16) =~= referee_frames(s, 16));
    }
    loop
        invariant
            s == data@,
            reader.wf(),
            reader.bytes() == s,
            preamble_valid(s),
            all_referee(ref_messages@),
            stream_fault(s, 16) == stream_fault(s, reader.cursor()),
            referee_frames(s, 16) == ref_view(ref_messages@) + referee_frames(s, reader.cursor()),
        decreases s.len() - reader.cursor(),
    {
        let ghost p = reader.cursor();
        match reader.get_next_message() {
            Ok(Some(msg)) => {
                proof {
                    assert(stream_fault(s, p) == stream_fault(s, frame_end(s, p)));
                }
                let is_referee = match &msg.body {
                    MessageBody::Refbox2013(_) => true,
                    _ => false,
                };
                if is_referee {
                    proof {
                        assert(type_of_tag(frame_tag(s, p)) == Some(MessageType::Refbox2013));
                        assert(frame_tag(s, p) == tag_of(MessageType::Refbox2013));
                    }
                    let ghost old_msgs = ref_messages@;
                    ref_messages.push(msg);
                    proof {
                        let pair = (frame_ts(s, p), frame_payload(s, p));
                        assert(ref_view(ref_messages@) =~= ref_view(old_msgs) + seq![pair]);
                        assert((ref_view(old_msgs) + seq![pair]) + referee_frames(
                            s,
                            frame_end(s, p),
                        ) =~= ref_view(old_msgs) + (seq![pair] + referee_frames(
                            s,
                            frame_end(s, p),
                        )));
                    }
                } else {
                    proof {
                        assert(type_of_tag(frame_tag(s, p)) != Some(MessageType::Refbox2013));
                        assert(frame_tag(s, p) != tag_of(MessageType::Refbox2013));
                    }
                }
            },
            Ok(None) => {
                proof {
                    assert(referee_frames(s, p) =~= Seq::<(int, Seq<u8>)>::empty());
                    assert(ref_view(ref_messages@) + referee_frames(s, p) =~= ref_view(
                        ref_messages@,
                    ));
                }
                return Ok(ref_messages);
            },
            Err(e) => {
                return Err(e);
            },
        }
    }
}

/// A frame area laid out from whole frames, one after the other.
pub open spec fn encode_frames(frames: Seq<(i64, i32, Seq<u8>)>) -> Seq<u8>
    decreases frames.len(),
{
    if frames.len() == 0 {
        Seq::empty()
    } else {
        encode_frame(frames[0].0, frames[0].1, frames[0].2) + encode_frames(frames.drop_first())
    }
}

/// What a frame must satisfy to decode: a known tag, a payload length the
/// header's length field can declare, and — for an index frame — a
/// well-formed index block as payload.
pub open spec fn frame_entry_ok(f: (i64, i32, Seq<u8>)) -> bool {
    &&& type_of_tag(f.1 as int) is Some
    &&& f.2.len() <= 0x7FFF_FFFF
    &&& f.1 == tag_of(MessageType::Index2021) ==> index_well_formed(f.2)
}

/// Whether every frame of the sequence decodes.
pub open spec fn frames_ok(frames: Seq<(i64, i32, Seq<u8>)>) -> bool {
    forall|i: int| 0 <= i < frames.len() ==> frame_entry_ok(#[trigger] frames[i])
}

/// The timestamps and payloads of the referee frames among `frames`, in
/// order.
pub open spec fn referee_of_frames(frames: Seq<(i64, i32, Seq<u8>)>) -> Seq<(int, Seq<u8>)>
    decreases frames.len(),
{
    if frames.len() == 0 {
        Seq::empty()
    } else {
        let rest = referee_of_frames(frames.drop_first());
        if frames[0].1 == tag_of(MessageType::Refbox2013) {
            seq![(frames[0].0 as int, frames[0].2)] + rest
        } else {
            rest
        }
    }
}

/// Round trip of a whole frame stream: a byte area that lays out any sequence
/// of decodable frames, one after the other, decodes with no fault up to a
/// clean end on the last frame boundary, and its referee frames are exactly
/// the laid-out frames with the referee tag, in their original order.
pub proof fn lemma_frame_stream_round_trip(
    s: Seq<u8>,
    frames: Seq<(i64, i32, Seq<u8>)>,
    pos: int,
)
    requires
        0 <= pos <= s.len(),
        s.subrange(pos, s.len() as int) == encode_frames(frames),
        frames_ok(frames),
    ensures
        stream_fault(s, pos) is None,
        referee_frames(s, pos) == referee_of_frames(frames),
    decreases frames.len(),
{
    let whole = s.subrange(pos, s.len() as int);
    if frames.len() == 0 {
        assert(s.len() - pos == 0);
        assert(referee_frames(s, pos) =~~= referee_of_frames(frames));
    } else {
        let f = frames[0];
        let ts = f.0;
        let tag = f.1;
        let payload = f.2;
        assert(frame_entry_ok(f));
        let enc0 = crate::raw::encode_frame(ts, tag, payload);
        let rest = encode_frames(frames.drop_first());
        let plen = payload.len() as int;
        crate::big_endian::lemma_be_bytes_of_i64(ts as int);
        crate::big_endian::lemma_be_bytes_of_i32(tag as int);
        crate::big_endian::lemma_be_bytes_of_i32(plen);
        assert(enc0.len() == 16 + plen);
        assert(whole.len() == enc0.len() + rest.len());
        let pos2 = pos + 16 + plen;
        assert forall|i: int| 0 <= i < 16 + plen implies s.subrange(pos, pos + 16 + plen)[i]
            == enc0[i] by {
            assert(whole[i] == s[pos + i]);
            assert(whole[i] == enc0[i]);
            assert(s.subrange(pos, pos + 16 + plen)[i] == s[pos + i]);
        }
        assert(s.subrange(pos, pos + 16 + plen) =~= enc0);
        crate::raw::lemma_frame_decodes_at(s, pos, ts, tag, payload);
        assert(frame_fault(s, pos) is None);
        assert forall|i: int| 0 <= i < rest.len() implies s.subrange(pos2, s.len() as int)[i]
            == rest[i] by {
            assert(whole[16 + plen + i] == s[pos2 + i]);
            assert(whole[16 + plen + i] == rest[i]);
            assert(s.subrange(pos2, s.len() as int)[i] == s[pos2 + i]);
        }
        assert(s.subrange(pos2, s.len() as int) =~= rest);
        assert forall|i: int|
            0 <= i < frames.drop_first().len() implies frame_entry_ok(
            #[trigger] frames.drop_first()[i],
        ) by {
            assert(frames.drop_first()[i] == frames[i + 1]);
            assert(frame_entry_ok(frames[i + 1]));
        }
        lemma_frame_stream_round_trip(s, frames.drop_first(), pos2);
        assert(frame_end(s, pos) == pos2);
        assert(stream_fault(s, pos) is None);
        if tag == tag_of(MessageType::Refbox2013) {
            assert(referee_frames(s, pos) =~~= seq![(ts as int, payload)] + referee_of_frames(
                frames.drop_first(),
            ));
            assert(referee_of_frames(frames) =~~= seq![(ts as int, payload)] + referee_of_frames(
                frames.drop_first(),
            ));
        } else {
            assert(referee_frames(s, pos) == referee_of_frames(frames.drop_first()));
        }
    }
}

/// Whether instant `t` falls in the half-open time window that starts at
/// message `i` and ends at message `i + 1`.
pub open spec fn window_contains(msgs: Seq<LogMessage>, i: int, t: i64) -> bool {
    msgs[i].timestamp.nanos <= t < msgs[i + 1].timestamp.nanos
}

/// Finds the message to show at instant `timestamp`: the first message at or
/// after `start_index` whose time window contains the instant.
///
/// The search resumes from `start_index` so that a caller sweeping forward in
/// time never rescans the prefix it has already passed. When no window from
/// `start_index` on contains the instant, the last message is returned.
pub fn find_ref_msg_by_time(
    ref_msgs: &Vec<LogMessage>,
    timestamp: UtcTimestamp,
    start_index: usize,
) -> (r: usize)
    requires
        ref_msgs@.len() > 0,
    ensures
        r < ref_msgs@.len(),
        r < ref_msgs@.len() - 1 ==> {
            &&& start_index <= r
            &&& window_contains(ref_msgs@, r as int, timestamp.nanos)
            &&& forall|j: int|
                start_index <= j < r ==> !window_contains(ref_msgs@, j, timestamp.nanos)
        },
        r == ref_msgs@.len() - 1 ==> forall|j: int|
            start_index <= j < ref_msgs@.len() - 1 ==> !window_contains(
                ref_msgs@,
                j,
                timestamp.nanos,
            ),
{
    let n: usize = ref_msgs.len();
    let mut i: usize = start_index;
    while i < n - 1
        invariant
            n == ref_msgs@.len(),
            n > 0,
            start_index <= i,
            forall|j: int|
                start_index <= j < i ==> !window_contains(ref_msgs@, j, timestamp.nanos),
        decreases n - i,
    {
        let window_start = ref_msgs[i].timestamp.nanos;
        let window_end = ref_msgs[i + 1].timestamp.nanos;
        if window_start <= timestamp.nanos && timestamp.nanos < window_end {
            return i;
        }
        i = i + 1;
    }
    n - 1
}

} // verus!
