//! The frame synchronizer and the decoder built on it.
//!
//! A stream is a run of frames, each a 4-byte header, a 2-byte CRC field
//! where the header announces one, and the frame's body. The decoder walks
//! a borrowed byte buffer with a cursor that only moves forward; it reads
//! headers and leaves the bodies where they are.

use crate::header::{is_legal, is_protected_word, is_syncword, rejection, Header};
use crate::result::Error;
use crate::utils::{SliceExt, UIntBitsRng};
use vstd::prelude::*;

verus! {

/// A decoded frame: the samples of all channels, interleaved, and what the
/// header said of them. Decoding the body of a frame is not part of this
/// crate, so nothing here makes a value of this type.
pub struct Frame {
    /// The decoded audio held by this frame. Channels are interleaved.
    pub data: Vec<i16>,
    /// This frame's sample rate in hertz.
    pub sample_rate: i32,
    /// The number of channels in this frame.
    pub channels: usize,
    /// MPEG layer used by this frame.
    pub layer: usize,
    /// Current bitrate as of this frame, in kbit/s.
    pub bitrate_kbps: i32,
}

/// The four bytes from offset `k` on, read as a big-endian 32-bit word.
pub open spec fn word_at(bytes: Seq<u8>, k: int) -> u32 {
    (bytes[k] * 0x100_0000 + bytes[k + 1] * 0x1_0000 + bytes[k + 2] * 0x100 + bytes[k + 3]) as u32
}

/// Whether four bytes that start with the syncword stand at offset `k`.
pub open spec fn sync_at(bytes: Seq<u8>, k: int) -> bool {
    0 <= k && k + 4 <= bytes.len() && is_syncword(word_at(bytes, k))
}

/// The first offset at or after `from` at which a syncword starts, if
/// there is one.
pub open spec fn first_sync(bytes: Seq<u8>, from: int) -> Option<int>
    decreases bytes.len() - from,
{
    if from < 0 || from + 4 > bytes.len() {
        None
    } else if is_syncword(word_at(bytes, from)) {
        Some(from)
    } else {
        first_sync(bytes, from + 1)
    }
}

/// What one read from offset `pos` of `bytes` gives: the outcome, with a
/// header standing as its word, and the offset at which the cursor is left.
///
/// Fewer than four bytes, or no syncword in what is left, is the end of the
/// stream. Otherwise the first word that starts with the syncword is taken,
/// and the cursor stops behind it, also where the word breaks a rule. Behind
/// a legal header that announces a CRC field the two bytes of the field are
/// passed over; where they are missing the stream has ended, and the cursor
/// stays behind the header.
pub open spec fn read_outcome(bytes: Seq<u8>, pos: int) -> (Option<Result<u32, Error>>, int) {
    match first_sync(bytes, pos) {
        None => (
            None,
            if pos + 4 <= bytes.len() {
                bytes.len() as int
            } else {
                pos
            },
        ),
        Some(k) => {
            let word = word_at(bytes, k);
            match rejection(word) {
                Some(e) => (Some(Err(e)), k + 4),
                None => if !is_protected_word(word) {
                    (Some(Ok(word)), k + 4)
                } else if k + 6 <= bytes.len() {
                    (Some(Ok(word)), k + 6)
                } else {
                    (None, k + 4)
                },
            }
        },
    }
}

/// The outcome of a read with each header replaced by its word.
pub open spec fn words(outcome: Option<Result<Header, Error>>) -> Option<Result<u32, Error>> {
    match outcome {
        None => None,
        Some(Err(e)) => Some(Err(e)),
        Some(Ok(header)) => Some(Ok(header@)),
    }
}

/// `first_sync` gives the least offset from `from` on at which a syncword
/// starts, and gives none only where no syncword starts from `from` on.
pub proof fn lemma_first_sync(bytes: Seq<u8>, from: int)
    requires
        0 <= from,
    ensures
        match first_sync(bytes, from) {
            Some(k) => from <= k && sync_at(bytes, k) && forall|j: int|
                from <= j < k ==> !sync_at(bytes, j),
            None => forall|j: int| from <= j ==> !sync_at(bytes, j),
        },
    decreases bytes.len() - from,
{
    if from + 4 <= bytes.len() && !is_syncword(word_at(bytes, from)) {
        lemma_first_sync(bytes, from + 1);
    }
}

/// A buffer in which no syncword starts gives no frame and no error, from
/// whatever offset it is read.
pub proof fn lemma_no_syncword_no_frame(bytes: Seq<u8>, pos: int)
    requires
        0 <= pos,
        forall|j: int| !sync_at(bytes, j),
    ensures
        read_outcome(bytes, pos).0 is None,
{
    lemma_first_sync(bytes, pos);
}

/// With fewer than four bytes left, a read gives no frame and no error, and
/// leaves the cursor where it was.
pub proof fn lemma_short_buffer(bytes: Seq<u8>, pos: int)
    requires
        0 <= pos,
        bytes.len() - pos < 4,
    ensures
        read_outcome(bytes, pos) == (None::<Result<u32, Error>>, pos),
{
}

/// A read never moves the cursor back, nor beyond the end of the buffer,
/// and a read that gives a header or an error has consumed at least the
/// four bytes of the word.
pub proof fn lemma_cursor_moves_forward(bytes: Seq<u8>, pos: int)
    requires
        0 <= pos <= bytes.len(),
    ensures
        pos <= read_outcome(bytes, pos).1 <= bytes.len(),
        read_outcome(bytes, pos).0 is Some ==> pos + 4 <= read_outcome(bytes, pos).1,
{
    lemma_first_sync(bytes, pos);
}

/// A header or an error stems from the first word from the cursor on that
/// starts with the syncword: a read skips what stands before that word and
/// nothing else.
pub proof fn lemma_outcome_is_first_sync(bytes: Seq<u8>, pos: int)
    requires
        0 <= pos,
        read_outcome(bytes, pos).0 is Some,
    ensures
        first_sync(bytes, pos) is Some,
        match read_outcome(bytes, pos).0->0 {
            Ok(word) => word == word_at(bytes, first_sync(bytes, pos)->0) && is_legal(word),
            Err(e) => rejection(word_at(bytes, first_sync(bytes, pos)->0)) == Some(e),
        },
{
}

/// Four bytes put together with shifts are the big-endian word of them.
proof fn lemma_word_of_bytes(a: u8, b: u8, c: u8, d: u8)
    by (bit_vector)
    ensures
        (a as u32) << 24 | (b as u32) << 16 | (c as u32) << 8 | (d as u32) == a * 0x100_0000 + b
            * 0x1_0000 + c * 0x100 + d,
{
}

/// Moving a word up by one byte and putting a new byte below drops its top
/// byte.
proof fn lemma_word_shift(a: u8, b: u8, c: u8, d: u8, e: u8)
    by (bit_vector)
    ensures
        (((a * 0x100_0000 + b * 0x1_0000 + c * 0x100 + d) as u32) << 8) | (e as u32) == b
            * 0x100_0000 + c * 0x1_0000 + d * 0x100 + e,
{
}

/// Whether the word starts with the syncword.
pub fn starts_with_syncword(raw: u32) -> (r: bool)
    ensures
        r == is_syncword(raw),
{
    (raw.bit_range(20..32) | 1) == 0xfff
}

/// Reads frame headers from a byte buffer, one after the other.
pub struct Decoder<'a> {
    raw: &'a [u8],
    pos: usize,
}

impl<'a> Decoder<'a> {
    #[verifier::type_invariant]
    spec fn well_formed(self) -> bool {
        self.pos <= self.raw@.len()
    }

    /// The whole buffer that the decoder reads from.
    pub closed spec fn buffer(&self) -> Seq<u8> {
        self.raw@
    }

    /// The offset of the cursor: the number of bytes consumed so far.
    pub closed spec fn cursor(&self) -> int {
        self.pos as int
    }

    /// The number of bytes consumed so far.
    pub fn position(&self) -> (r: usize)
        ensures
            r == self.cursor(),
            r <= self.buffer().len(),
    {
        proof {
            use_type_invariant(self);
        }
        self.pos
    }

    /// The bytes that are not consumed yet.
    pub fn remaining(&self) -> (rest: &'a [u8])
        ensures
            rest@ == self.buffer().skip(self.cursor()),
    {
        proof {
            use_type_invariant(self);
        }
        let mut rest: &'a [u8] = self.raw;
        rest.advance(self.pos);
        rest
    }

    /// Reads the next frame. Today this is the frame's header: see
    /// `read_header`, which it calls.
    pub fn next_frame(&mut self) -> (r: Option<Result<Header, Error>>)
        ensures
            final(self).buffer() == old(self).buffer(),
            old(self).cursor() <= final(self).cursor() <= old(self).buffer().len(),
            words(r) == read_outcome(old(self).buffer(), old(self).cursor()).0,
            final(self).cursor() == read_outcome(old(self).buffer(), old(self).cursor()).1,
    {
        self.read_header()
    }

    /// Finds the next header from the cursor on, skipping whatever stands
    /// before its syncword, and checks it.
    ///
    /// `None` is the end of the stream: fewer than four bytes are left, no
    /// syncword is found, or the CRC field that a header announces is cut
    /// off. An error is a word that starts with the syncword and breaks a
    /// rule; the cursor then stands behind that word.
    pub fn read_header(&mut self) -> (r: Option<Result<Header, Error>>)
        ensures
            final(self).buffer() == old(self).buffer(),
            old(self).cursor() <= final(self).cursor() <= old(self).buffer().len(),
            words(r) == read_outcome(old(self).buffer(), old(self).cursor()).0,
            final(self).cursor() == read_outcome(old(self).buffer(), old(self).cursor()).1,
    {
        proof {
            use_type_invariant(&*self);
        }
        let ghost bytes = self.raw@;
        let ghost start = self.pos as int;
        let raw = self.raw;
        let len = raw.len();
        if len - self.pos < 4 {
            return None;
        }
        let p = self.pos;
        let mut word: u32 = (raw[p] as u32) << 24 | (raw[p + 1] as u32) << 16 | (raw[p + 2] as u32)
            << 8 | (raw[p + 3] as u32);
        proof {
            lemma_word_of_bytes(bytes[start], bytes[start + 1], bytes[start + 2], bytes[start + 3]);
        }
        self.pos = p + 4;
        let mut found = starts_with_syncword(word);
        while !found && self.pos < len
            invariant
                self.raw == raw,
                raw@ == bytes,
                len == bytes.len(),
                0 <= start,
                start + 4 <= self.pos <= len,
                word == word_at(bytes, self.pos - 4),
                found == is_syncword(word),
                forall|j: int| start <= j < self.pos - 4 ==> !sync_at(bytes, j),
            decreases len - self.pos,
        {
            let q = self.pos;
            let next = raw[q];
            proof {
                lemma_word_shift(bytes[q - 4], bytes[q - 3], bytes[q - 2], bytes[q - 1], next);
            }
            word = (word << 8) | (next as u32);
            self.pos = q + 1;
            found = starts_with_syncword(word);
        }
        proof {
            lemma_first_sync(bytes, start);
        }
        if !found {
            assert(!sync_at(bytes, len - 4));
            return None;
        }
        assert(sync_at(bytes, self.pos - 4));
        match Header::from_raw(word) {
            Err(e) => Some(Err(e)),
            Ok(header) => {
                if header.is_protected() {
                    if len - self.pos < 2 {
                        return None;
                    }
                    self.pos = self.pos + 2;
                }
                Some(Ok(header))
            },
        }
    }
}

impl<'a> From<&'a [u8]> for Decoder<'a> {
    /// A decoder with its cursor at the start of `raw`.
    fn from(raw: &'a [u8]) -> (decoder: Self)
        ensures
            decoder.buffer() == raw@,
            decoder.cursor() == 0,
    {
        Decoder { raw, pos: 0 }
    }
}

impl<'a> vstd::std_specs::convert::FromSpecImpl<&'a [u8]> for Decoder<'a> {
    open spec fn obeys_from_spec() -> bool {
        true
    }

    closed spec fn from_spec(raw: &'a [u8]) -> Self {
        Decoder { raw, pos: 0 }
    }
}

} // verus!
