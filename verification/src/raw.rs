//! Frame decoding: one fixed header plus payload unit of the log byte stream.
//!
//! A frame is an 8-byte big-endian signed timestamp, a 4-byte big-endian
//! signed type tag, a 4-byte big-endian signed payload length, and exactly
//! that many payload bytes. The spec functions here describe one frame at a
//! byte position; [`extract_next_raw_message`] is proved to decode exactly
//! that frame or to report why it cannot.

use crate::big_endian::{
    be_bytes_of_i32, be_bytes_of_i64, be_i32, be_i64, lemma_be_bytes_of_i32, lemma_be_bytes_of_i64,
    read_be_i32, read_be_i64,
};
use crate::errors::LogError;
use vstd::prelude::*;
use vstd::slice::{slice_subrange, slice_to_vec};

verus! {

/// The closed set of recognized frame payload types.
#[derive(PartialEq, Eq, Structural, Hash, Clone, Copy, Debug)]
pub enum MessageType {
    Blank,
    Unkown,
    Vision2010,
    Refbox2013,
    Vision2014,
    VisionTracker2020,
    Index2021,
}

/// The integer tag that stands for a message type in a frame header.
pub open spec fn tag_of(t: MessageType) -> int {
    match t {
        MessageType::Blank => 0,
        MessageType::Unkown => 1,
        MessageType::Vision2010 => 2,
        MessageType::Refbox2013 => 3,
        MessageType::Vision2014 => 4,
        MessageType::VisionTracker2020 => 5,
        MessageType::Index2021 => 6,
    }
}

/// The message type a tag maps to; `None` for every tag outside the set.
pub open spec fn type_of_tag(tag: int) -> Option<MessageType> {
    if tag == 0 {
        Some(MessageType::Blank)
    } else if tag == 1 {
        Some(MessageType::Unkown)
    } else if tag == 2 {
        Some(MessageType::Vision2010)
    } else if tag == 3 {
        Some(MessageType::Refbox2013)
    } else if tag == 4 {
        Some(MessageType::Vision2014)
    } else if tag == 5 {
        Some(MessageType::VisionTracker2020)
    } else if tag == 6 {
        Some(MessageType::Index2021)
    } else {
        None
    }
}

impl MessageType {
    /// Maps a frame header tag to its message type; every value outside the
    /// seven known tags is a hard decode error, never silently coerced.
    pub fn try_from(value: i32) -> (r: Result<MessageType, LogError>)
        ensures
            match r {
                Ok(t) => type_of_tag(value as int) == Some(t),
                Err(e) => type_of_tag(value as int) is None && e == LogError::UnknownMessageType(
                    value,
                ),
            },
    {
        match value {
            0 => Ok(MessageType::Blank),
            1 => Ok(MessageType::Unkown),
            2 => Ok(MessageType::Vision2010),
            3 => Ok(MessageType::Refbox2013),
            4 => Ok(MessageType::Vision2014),
            5 => Ok(MessageType::VisionTracker2020),
            6 => Ok(MessageType::Index2021),
            _ => Err(LogError::UnknownMessageType(value)),
        }
    }
}

/// One decoded frame: timestamp, validated type, and the opaque payload bytes.
#[derive(Debug, Clone)]
pub struct RawMessage {
    /// Nanoseconds since the Unix epoch, as recorded in the frame header.
    pub timestamp: i64,
    /// The validated message type of the frame.
    pub message_type: MessageType,
    /// The payload bytes, of exactly the declared length.
    pub data: Vec<u8>,
}

/// Whether a whole frame (16-byte header plus declared payload) lies at `pos`.
pub open spec fn frame_fits(s: Seq<u8>, pos: int) -> bool {
    &&& pos + 16 <= s.len()
    &&& frame_len(s, pos) >= 0
    &&& pos + 16 + frame_len(s, pos) <= s.len()
}

/// The timestamp field of the frame at `pos`.
pub open spec fn frame_ts(s: Seq<u8>, pos: int) -> int {
    be_i64(s.subrange(pos, pos + 8))
}

/// The type tag field of the frame at `pos`.
pub open spec fn frame_tag(s: Seq<u8>, pos: int) -> int {
    be_i32(s.subrange(pos + 8, pos + 12))
}

/// The payload length field of the frame at `pos`.
pub open spec fn frame_len(s: Seq<u8>, pos: int) -> int {
    be_i32(s.subrange(pos + 12, pos + 16))
}

/// The payload bytes of the frame at `pos`.
pub open spec fn frame_payload(s: Seq<u8>, pos: int) -> Seq<u8> {
    s.subrange(pos + 16, pos + 16 + frame_len(s, pos))
}

/// The position just past the frame at `pos`.
pub open spec fn frame_end(s: Seq<u8>, pos: int) -> int {
    pos + 16 + frame_len(s, pos)
}

/// Decodes the frame at `pos` in `data`.
///
/// On success returns the raw message and the position just past the frame.
/// Fails with `TruncatedInput` when fewer bytes remain than a field requires
/// (a negative declared length is treated the same way, as no such payload can
/// be read), and with `UnknownMessageType` when a whole frame is present but
/// its tag is outside the known set. Truncation is detected before the tag is
/// validated.
pub fn extract_next_raw_message(data: &[u8], pos: usize) -> (r: Result<
    (RawMessage, usize),
    LogError,
>)
    requires
        pos <= data@.len(),
    ensures
        match r {
            Ok((m, end)) => {
                &&& frame_fits(data@, pos as int)
                &&& type_of_tag(frame_tag(data@, pos as int)) == Some(m.message_type)
                &&& m.timestamp == frame_ts(data@, pos as int)
                &&& m.data@ == frame_payload(data@, pos as int)
                &&& end == frame_end(data@, pos as int)
            },
            Err(LogError::TruncatedInput) => !frame_fits(data@, pos as int),
            Err(LogError::UnknownMessageType(tag)) => {
                &&& frame_fits(data@, pos as int)
                &&& tag == frame_tag(data@, pos as int)
                &&& type_of_tag(tag as int) is None
            },
            Err(_) => false,
        },
{
    let n: usize = data.len();
    if n - pos < 16 {
        return Err(LogError::TruncatedInput);
    }
    let timestamp = read_be_i64(data, pos);
    let tag = read_be_i32(data, pos + 8);
    let message_size = read_be_i32(data, pos + 12);
    if message_size < 0 {
        return Err(LogError::TruncatedInput);
    }
    let size: usize = message_size as usize;
    if n - (pos + 16) < size {
        return Err(LogError::TruncatedInput);
    }
    let payload_slice = slice_subrange(data, pos + 16, pos + 16 + size);
    let payload: Vec<u8> = slice_to_vec(payload_slice);
    let message_type = match MessageType::try_from(tag) {
        Ok(t) => t,
        Err(e) => {
            return Err(e);
        },
    };
    Ok((RawMessage { timestamp, message_type, data: payload }, pos + 16 + size))
}

/// A frame laid out from its parts: timestamp, tag, declared payload length,
/// then the payload itself.
pub open spec fn encode_frame(ts: i64, tag: i32, payload: Seq<u8>) -> Seq<u8> {
    be_bytes_of_i64(ts as int) + be_bytes_of_i32(tag as int) + be_bytes_of_i32(
        payload.len() as int,
    ) + payload
}

/// Decoding the frame laid out at `pos` gives back exactly its parts.
pub proof fn lemma_frame_decodes_at(s: Seq<u8>, pos: int, ts: i64, tag: i32, payload: Seq<u8>)
    requires
        0 <= pos,
        payload.len() <= 0x7FFF_FFFF,
        pos + 16 + payload.len() <= s.len(),
        s.subrange(pos, pos + 16 + payload.len()) == encode_frame(ts, tag, payload),
    ensures
        frame_fits(s, pos),
        frame_ts(s, pos) == ts,
        frame_tag(s, pos) == tag,
        frame_len(s, pos) == payload.len(),
        frame_payload(s, pos) == payload,
        frame_end(s, pos) == pos + 16 + payload.len(),
{
    lemma_be_bytes_of_i64(ts as int);
    lemma_be_bytes_of_i32(tag as int);
    lemma_be_bytes_of_i32(payload.len() as int);
    let enc = encode_frame(ts, tag, payload);
    let a = be_bytes_of_i64(ts as int);
    let b = be_bytes_of_i32(tag as int);
    let c = be_bytes_of_i32(payload.len() as int);
    let plen = payload.len() as int;
    assert forall|i: int| 0 <= i < 8 implies s.subrange(pos, pos + 8)[i] == a[i] by {
        assert(s.subrange(pos, pos + 16 + plen)[i] == s[pos + i]);
        assert(enc[i] == a[i]);
        assert(s.subrange(pos, pos + 8)[i] == s[pos + i]);
    }
    assert(s.subrange(pos, pos + 8) =~= a);
    assert forall|i: int| 0 <= i < 4 implies s.subrange(pos + 8, pos + 12)[i] == b[i] by {
        assert(s.subrange(pos, pos + 16 + plen)[8 + i] == s[pos + 8 + i]);
        assert(enc[8 + i] == b[i]);
        assert(s.subrange(pos + 8, pos + 12)[i] == s[pos + 8 + i]);
    }
    assert(s.subrange(pos + 8, pos + 12) =~= b);
    assert forall|i: int| 0 <= i < 4 implies s.subrange(pos + 12, pos + 16)[i] == c[i] by {
        assert(s.subrange(pos, pos + 16 + plen)[12 + i] == s[pos + 12 + i]);
        assert(enc[12 + i] == c[i]);
        assert(s.subrange(pos + 12, pos + 16)[i] == s[pos + 12 + i]);
    }
    assert(s.subrange(pos + 12, pos + 16) =~= c);
    assert(frame_len(s, pos) == plen);
    assert forall|i: int| 0 <= i < plen implies s.subrange(pos + 16, pos + 16 + plen)[i]
        == payload[i] by {
        assert(s.subrange(pos, pos + 16 + plen)[16 + i] == s[pos + 16 + i]);
        assert(enc[16 + i] == payload[i]);
        assert(s.subrange(pos + 16, pos + 16 + plen)[i] == s[pos + 16 + i]);
    }
    assert(s.subrange(pos + 16, pos + 16 + plen) =~= payload);
}

} // verus!
