//! The stateful reader over one log file's bytes.
//!
//! A reader is created by validating the fixed preamble and format version at
//! the start of the file, and then yields the file's messages one at a time
//! through a forward-only cursor. Reaching the end of the bytes exactly at a
//! frame boundary exhausts the reader; that is a normal termination, not an
//! error. The sequence is single-pass: after exhaustion or an error a fresh
//! reader must be created to start over.

use crate::big_endian::{be_i32, read_be_i32};
use crate::errors::LogError;
use crate::index::{ends_with_marker, slice_ends_with_marker};
use crate::raw::{frame_end, frame_payload, frame_tag, frame_ts, type_of_tag};
use crate::{body_matches, frame_fault, LogMessage};
use vstd::prelude::*;

verus! {

/// The twelve ASCII bytes that spell the preamble `SSL_LOG_FILE`.
pub open spec fn log_magic() -> Seq<u8> {
    seq![83u8, 83u8, 76u8, 95u8, 76u8, 79u8, 71u8, 95u8, 70u8, 73u8, 76u8, 69u8]
}

/// The byte of the preamble at position `i`.
pub fn log_magic_byte(i: usize) -> (b: u8)
    requires
        i < 12,
    ensures
        b == log_magic()[i as int],
{
    match i {
        0 => 83,
        1 => 83,
        2 => 76,
        3 => 95,
        4 => 76,
        5 => 79,
        6 => 71,
        7 => 95,
        8 => 70,
        9 => 73,
        10 => 76,
        _ => 69,
    }
}

/// Whether the file is long enough for the 16-byte header and starts with the
/// preamble bytes.
pub open spec fn magic_ok(s: Seq<u8>) -> bool {
    s.len() >= 16 && s.subrange(0, 12) == log_magic()
}

/// The format version stored after the preamble.
pub open spec fn version_of(s: Seq<u8>) -> int {
    be_i32(s.subrange(12, 16))
}

/// Whether the file starts with the preamble and the supported version.
pub open spec fn preamble_valid(s: Seq<u8>) -> bool {
    magic_ok(s) && version_of(s) == 1
}

/// Checks the 12-byte preamble literal and the 4-byte big-endian format
/// version at the start of `data`.
fn verify_log_preamble(data: &[u8]) -> (r: Result<(), LogError>)
    ensures
        match r {
            Ok(_) => preamble_valid(data@),
            Err(LogError::BadPreamble) => !magic_ok(data@),
            Err(LogError::UnsupportedVersion(v)) => magic_ok(data@) && v == version_of(data@) && v
                != 1,
            Err(_) => false,
        },
{
    let n: usize = data.len();
    if n < 16 {
        return Err(LogError::BadPreamble);
    }
    let mut i: usize = 0;
    while i < 12
        invariant
            n == data@.len(),
            n >= 16,
            i <= 12,
            forall|j: int| 0 <= j < i ==> #[trigger] data@[j] == log_magic()[j],
        decreases 12 - i,
    {
        if data[i] != log_magic_byte(i) {
            proof {
                let head = data@.subrange(0, 12);
                assert(head[i as int] == data@[i as int]);
                assert(head[i as int] != log_magic()[i as int]);
            }
            return Err(LogError::BadPreamble);
        }
        i = i + 1;
    }
    proof {
        let head = data@.subrange(0, 12);
        assert forall|j: int| 0 <= j < 12 implies head[j] == log_magic()[j] by {
            assert(head[j] == data@[j]);
        }
        assert(head =~= log_magic());
    }
    let version = read_be_i32(data, 12);
    if version != 1 {
        return Err(LogError::UnsupportedVersion(version));
    }
    Ok(())
}

/// A reader over one log file's bytes, positioned at the next frame.
#[derive(Debug)]
pub struct LogFileReader {
    data: Vec<u8>,
    pos: usize,
}

impl LogFileReader {
    /// The file's bytes, preamble included.
    pub closed spec fn bytes(self) -> Seq<u8> {
        self.data@
    }

    /// The position of the next frame to decode.
    pub closed spec fn cursor(self) -> int {
        self.pos as int
    }

    /// A reader always sits over a validated file, between the end of the
    /// preamble and the end of the bytes.
    pub open spec fn wf(self) -> bool {
        &&& preamble_valid(self.bytes())
        &&& 16 <= self.cursor() <= self.bytes().len()
    }

    /// Whether the reader has reached the end of the bytes: its terminal
    /// state, from which only `Ok(None)` is ever yielded again.
    pub open spec fn exhausted(self) -> bool {
        self.cursor() == self.bytes().len()
    }

    /// Validates the preamble and version of `data` and positions a reader at
    /// the first frame.
    ///
    /// Succeeds exactly when the file starts with the preamble bytes and
    /// version 1; a file too short for the 16-byte header, or with other
    /// preamble bytes, is rejected as `BadPreamble`, and a well-prefixed file
    /// with any other version as `UnsupportedVersion` carrying that version.
    pub fn new(data: Vec<u8>) -> (r: Result<LogFileReader, LogError>)
        ensures
            match r {
                Ok(reader) => {
                    &&& preamble_valid(data@)
                    &&& reader.wf()
                    &&& reader.bytes() == data@
                    &&& reader.cursor() == 16
                },
                Err(LogError::BadPreamble) => !magic_ok(data@),
                Err(LogError::UnsupportedVersion(v)) => magic_ok(data@) && v == version_of(data@)
                    && v != 1,
                Err(_) => false,
            },
    {
        match verify_log_preamble(data.as_slice()) {
            Ok(_) => Ok(LogFileReader { data, pos: 16 }),
            Err(e) => Err(e),
        }
    }

    /// Decodes the frame under the cursor and advances past it.
    ///
    /// `Ok(None)` signals the end of the sequence: it comes exactly when no
    /// bytes remain at a frame boundary, and leaves the reader exhausted. Any
    /// other outcome decodes the frame at the cursor or reports the first
    /// reason it fails; after an error the cursor is unspecified and the
    /// sequence must not be resumed.
    pub fn get_next_message(&mut self) -> (r: Result<Option<LogMessage>, LogError>)
        requires
            old(self).wf(),
        ensures
            final(self).wf(),
            final(self).bytes() == old(self).bytes(),
            match r {
                Ok(Some(m)) => {
                    &&& !old(self).exhausted()
                    &&& frame_fault(old(self).bytes(), old(self).cursor()) is None
                    &&& m.timestamp.nanos == frame_ts(old(self).bytes(), old(self).cursor())
                    &&& body_matches(
                        m.body,
                        type_of_tag(frame_tag(old(self).bytes(), old(self).cursor()))->Some_0,
                        frame_payload(old(self).bytes(), old(self).cursor()),
                    )
                    &&& final(self).cursor() == frame_end(old(self).bytes(), old(self).cursor())
                    &&& old(self).cursor() < final(self).cursor()
                },
                Ok(None) => old(self).exhausted() && final(self).cursor() == old(self).cursor(),
                Err(e) => !old(self).exhausted() && frame_fault(
                    old(self).bytes(),
                    old(self).cursor(),
                ) == Some(e),
            },
    {
        if self.pos == self.data.len() {
            return Ok(None);
        }
        match crate::extract_next_message(self.data.as_slice(), self.pos) {
            Ok((m, end)) => {
                self.pos = end;
                Ok(Some(m))
            },
            Err(e) => Err(e),
        }
    }

    /// Reports whether the file's final seven bytes are exactly the index
    /// marker.
    ///
    /// The probe reads no frame and takes the reader by shared reference, so
    /// it cannot disturb the cursor: the sequence of messages still to come
    /// is the same as if the probe had never been called.
    pub fn is_indexed(&self) -> (r: bool)
        ensures
            r == ends_with_marker(self.bytes()),
    {
        slice_ends_with_marker(self.data.as_slice())
    }
}

} // verus!
