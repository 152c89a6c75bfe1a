//! The 32-bit frame header: its fields, and the rules that make a word a
//! legal header.
//!
//! From the most significant bit down, a header word holds the sync prefix
//! (bits 21 to 31) with bit 20 below it, which is clear only in MPEG-2.5
//! streams; the version selector (bit 19); the layer (bits 17 and 18); the
//! protection flag (bit 16); the bitrate index (bits 12 to 15); the
//! sampling-rate index (bits 10 and 11); the padding flag (bit 9); the
//! private bit (bit 8); the channel mode (bits 6 and 7); the mode extension
//! (bits 4 and 5); the copyright flag (bit 3); the original flag (bit 2);
//! and the emphasis (bits 0 and 1).

use crate::result::Error;
use crate::utils::{bit_field, UIntBitsRng};
use vstd::prelude::*;

verus! {

/// The layer that a header names.
#[derive(Debug, Clone, Copy, PartialEq, Eq, Structural)]
pub enum Layer {
    Reserved,
    L1,
    L2,
    L3,
}

/// How the channels of a frame are coded.
#[derive(Debug, Clone, Copy, PartialEq, Eq, Structural)]
pub enum Mode {
    Stereo,
    Joint,
    Dual,
    Single,
}

/// The de-emphasis that a frame asks for.
#[derive(Debug, Clone, Copy, PartialEq, Eq, Structural)]
#[allow(non_camel_case_types)]
pub enum Emphasis {
    NoEmphasis,
    Ms_50_15,
    Reserved,
    CCIT_J_17,
}

/// The bits of `raw` at positions `low <= p < high`, moved down to position 0.
pub open spec fn field(raw: u32, low: nat, high: nat) -> u32 {
    bit_field(raw as u64, low, high) as u32
}

/// Whether bit `p` of `raw` is set.
pub open spec fn flag(raw: u32, p: nat) -> bool {
    field(raw, p, p + 1) != 0
}

/// Whether the word starts with the syncword: its eleven top bits are set.
/// Bit 20 is free, so it is set before the twelve top bits are compared.
pub open spec fn is_syncword(raw: u32) -> bool {
    (field(raw, 20, 32) | 1) == 0xfff
}

/// Whether the word is marked as MPEG-2.5: bit 20 is clear.
pub open spec fn is_mpeg25_word(raw: u32) -> bool {
    field(raw, 20, 21) == 0
}

/// Whether the word is marked as MPEG-2: the version selector, bit 19, is set.
pub open spec fn is_mpeg2_word(raw: u32) -> bool {
    field(raw, 19, 20) == 1
}

/// Whether the word is marked as MPEG-1: as neither of the other two.
pub open spec fn is_mpeg1_word(raw: u32) -> bool {
    !is_mpeg25_word(raw) && !is_mpeg2_word(raw)
}

/// The layer for a two-bit layer code.
pub open spec fn layer_for(code: u32) -> Layer {
    if code == 0 {
        Layer::Reserved
    } else if code == 1 {
        Layer::L3
    } else if code == 2 {
        Layer::L2
    } else {
        Layer::L1
    }
}

/// The channel mode for a two-bit mode code.
pub open spec fn mode_for(code: u32) -> Mode {
    if code == 0 {
        Mode::Stereo
    } else if code == 1 {
        Mode::Joint
    } else if code == 2 {
        Mode::Dual
    } else {
        Mode::Single
    }
}

/// The emphasis for a two-bit emphasis code.
pub open spec fn emphasis_for(code: u32) -> Emphasis {
    if code == 0 {
        Emphasis::NoEmphasis
    } else if code == 1 {
        Emphasis::Ms_50_15
    } else if code == 2 {
        Emphasis::Reserved
    } else {
        Emphasis::CCIT_J_17
    }
}

/// The layer that the word names.
pub open spec fn layer_of(raw: u32) -> Layer {
    layer_for(field(raw, 17, 19))
}

/// Whether a CRC field follows the header: the protection flag, bit 16, is
/// clear.
pub open spec fn is_protected_word(raw: u32) -> bool {
    field(raw, 16, 17) == 0
}

/// The word's bitrate index.
pub open spec fn bitrate_index_of(raw: u32) -> nat {
    field(raw, 12, 16) as nat
}

/// The word's sampling-rate index.
pub open spec fn sampling_rate_index_of(raw: u32) -> nat {
    field(raw, 10, 12) as nat
}

/// The word's channel mode.
pub open spec fn channel_mode_of(raw: u32) -> Mode {
    mode_for(field(raw, 6, 8))
}

/// The word's mode extension.
pub open spec fn mode_ext_of(raw: u32) -> u8 {
    field(raw, 4, 6) as u8
}

/// The word's emphasis.
pub open spec fn emphasis_of(raw: u32) -> Emphasis {
    emphasis_for(field(raw, 0, 2))
}

/// The first rule that the word breaks, if it breaks one. The rules are
/// tried in this order: the version is MPEG-2.5; the version is MPEG-2; the
/// layer is the reserved one; the bitrate index is 15; the sampling-rate
/// index is 3; the emphasis is the reserved one.
pub open spec fn rejection(raw: u32) -> Option<Error> {
    if is_mpeg25_word(raw) {
        Some(Error::UnsupportedFormat("MPEG-2.5"))
    } else if is_mpeg2_word(raw) {
        Some(Error::UnsupportedFormat("MPEG-2"))
    } else if layer_of(raw) == Layer::Reserved {
        Some(Error::InvalidHeader("layer reserved"))
    } else if bitrate_index_of(raw) == 15 {
        Some(Error::InvalidHeader("bitrate index invalid"))
    } else if sampling_rate_index_of(raw) == 3 {
        Some(Error::InvalidHeader("sampling rate reserved"))
    } else if emphasis_of(raw) == Emphasis::Reserved {
        Some(Error::InvalidHeader("emphasis reserved"))
    } else {
        None
    }
}

/// Whether the word is a legal header: it breaks no rule.
pub open spec fn is_legal(raw: u32) -> bool {
    rejection(raw) is None
}

/// The bitrates of a layer in kbit/s, by bitrate index. Index 0 is the
/// free format, for which the table holds 0.
pub open spec fn bitrates(layer: Layer) -> Seq<u16> {
    match layer {
        Layer::L1 => seq![0u16, 32, 64, 96, 128, 160, 192, 224, 256, 288, 320, 352, 384, 416, 448],
        Layer::L2 => seq![0u16, 32, 48, 56, 64, 80, 96, 112, 128, 160, 192, 224, 256, 320, 384],
        Layer::L3 => seq![0u16, 32, 40, 48, 56, 64, 80, 96, 112, 128, 160, 192, 224, 256, 320],
        Layer::Reserved => Seq::empty(),
    }
}

/// The sampling rates of MPEG-1 in Hz, by sampling-rate index.
pub open spec fn sampling_rates() -> Seq<u32> {
    seq![44100u32, 48000, 32000]
}

/// A field of at most four bits is a number below 16, and one of two bits a
/// number below 4.
proof fn lemma_field_ranges(raw: u32)
    ensures
        field(raw, 20, 21) < 2,
        field(raw, 19, 20) < 2,
        field(raw, 17, 19) < 4,
        field(raw, 12, 16) < 16,
        field(raw, 10, 12) < 4,
        field(raw, 6, 8) < 4,
        field(raw, 4, 6) < 4,
        field(raw, 0, 2) < 4,
{
    let w = raw as u64;
    assert(((w >> 20) & ((1u64 << 1) - 1) as u64) < 2) by (bit_vector);
    assert(((w >> 19) & ((1u64 << 1) - 1) as u64) < 2) by (bit_vector);
    assert(((w >> 17) & ((1u64 << 2) - 1) as u64) < 4) by (bit_vector);
    assert(((w >> 12) & ((1u64 << 4) - 1) as u64) < 16) by (bit_vector);
    assert(((w >> 10) & ((1u64 << 2) - 1) as u64) < 4) by (bit_vector);
    assert(((w >> 6) & ((1u64 << 2) - 1) as u64) < 4) by (bit_vector);
    assert(((w >> 4) & ((1u64 << 2) - 1) as u64) < 4) by (bit_vector);
    assert(((w >> 0) & ((1u64 << 2) - 1) as u64) < 4) by (bit_vector);
}

/// A legal frame header. A value of this type exists only for a word that
/// breaks none of the rules.
#[derive(Debug)]
pub struct Header(u32);

impl View for Header {
    type V = u32;

    /// The header word.
    closed spec fn view(&self) -> u32 {
        self.0
    }
}

impl Header {
    #[verifier::type_invariant]
    spec fn well_formed(self) -> bool {
        is_legal(self.0)
    }

    /// Checks a candidate word against the rules, in their order, and makes
    /// a header of it if it breaks none. The first rule broken gives the
    /// error.
    pub fn from_raw(raw: u32) -> (r: Result<Header, Error>)
        ensures
            match r {
                Ok(header) => is_legal(raw) && header@ == raw,
                Err(e) => rejection(raw) == Some(e),
            },
    {
        proof {
            lemma_field_ranges(raw);
        }
        if raw.bit_range(20..21) == 0 {
            Err(Error::UnsupportedFormat("MPEG-2.5"))
        } else if raw.bit_range(19..20) == 1 {
            Err(Error::UnsupportedFormat("MPEG-2"))
        } else if raw.bit_range(17..19) == 0 {
            Err(Error::InvalidHeader("layer reserved"))
        } else if raw.bit_range(12..16) == 0b1111 {
            Err(Error::InvalidHeader("bitrate index invalid"))
        } else if raw.bit_range(10..12) == 0b11 {
            Err(Error::InvalidHeader("sampling rate reserved"))
        } else if raw.bit_range(0..2) == 0b10 {
            Err(Error::InvalidHeader("emphasis reserved"))
        } else {
            Ok(Header(raw))
        }
    }

    /// The header word.
    pub fn raw(&self) -> (r: u32)
        ensures
            r == self@,
            is_legal(r),
    {
        proof {
            use_type_invariant(self);
        }
        self.0
    }

    /// Whether the header is marked as MPEG-2.5. A legal header is not.
    pub fn is_mpeg25(&self) -> (r: bool)
        ensures
            r == is_mpeg25_word(self@),
            !r,
    {
        proof {
            use_type_invariant(self);
        }
        self.0.bit_range(20..21) == 0
    }

    /// Whether the header is marked as MPEG-2. A legal header is not.
    pub fn is_mpeg2(&self) -> (r: bool)
        ensures
            r == is_mpeg2_word(self@),
            !r,
    {
        proof {
            use_type_invariant(self);
        }
        self.0.bit_range(19..20) == 1
    }

    /// Whether the header is marked as MPEG-1. A legal header is.
    pub fn is_mpeg1(&self) -> (r: bool)
        ensures
            r == is_mpeg1_word(self@),
            r,
    {
        !self.is_mpeg25() && !self.is_mpeg2()
    }

    /// The layer of the frame, which is never the reserved one.
    pub fn layer(&self) -> (r: Layer)
        ensures
            r == layer_of(self@),
            r != Layer::Reserved,
    {
        proof {
            use_type_invariant(self);
            lemma_field_ranges(self.0);
        }
        let code = self.0.bit_range(17..19);
        if code == 0 {
            Layer::Reserved
        } else if code == 1 {
            Layer::L3
        } else if code == 2 {
            Layer::L2
        } else {
            Layer::L1
        }
    }

    /// Whether a CRC field follows the header.
    pub fn is_protected(&self) -> (r: bool)
        ensures
            r == is_protected_word(self@),
    {
        self.0.bit_range(16..17) == 0
    }

    /// The bitrate index, which is at most 14.
    pub fn bitrate_index(&self) -> (r: usize)
        ensures
            r == bitrate_index_of(self@),
            r < 15,
    {
        proof {
            use_type_invariant(self);
            lemma_field_ranges(self.0);
        }
        self.0.bit_range(12..16) as usize
    }

    /// The bitrate of the frame in kbit/s, from the table of its layer. The
    /// result is 0 for the free format, index 0.
    pub fn bitrate_kbps(&self) -> (r: u16)
        ensures
            r == bitrates(layer_of(self@))[bitrate_index_of(self@) as int],
    {
        let index = self.bitrate_index();
        match self.layer() {
            Layer::L1 => {
                let row: [u16; 15] = [
                    0,
                    32,
                    64,
                    96,
                    128,
                    160,
                    192,
                    224,
                    256,
                    288,
                    320,
                    352,
                    384,
                    416,
                    448,
                ];
                assert(row@ =~= bitrates(Layer::L1));
                row[index]
            },
            Layer::L2 => {
                let row: [u16; 15] = [
                    0,
                    32,
                    48,
                    56,
                    64,
                    80,
                    96,
                    112,
                    128,
                    160,
                    192,
                    224,
                    256,
                    320,
                    384,
                ];
                assert(row@ =~= bitrates(Layer::L2));
                row[index]
            },
            _ => {
                let row: [u16; 15] = [
                    0,
                    32,
                    40,
                    48,
                    56,
                    64,
                    80,
                    96,
                    112,
                    128,
                    160,
                    192,
                    224,
                    256,
                    320,
                ];
                assert(row@ =~= bitrates(Layer::L3));
                row[index]
            },
        }
    }

    /// The sampling-rate index, which is at most 2.
    pub fn sampling_rate_index(&self) -> (r: usize)
        ensures
            r == sampling_rate_index_of(self@),
            r < 3,
    {
        proof {
            use_type_invariant(self);
            lemma_field_ranges(self.0);
        }
        self.0.bit_range(10..12) as usize
    }

    /// The sampling rate of the frame in Hz.
    pub fn sampling_rate_hz(&self) -> (r: u32)
        ensures
            r == sampling_rates()[sampling_rate_index_of(self@) as int],
    {
        let rates: [u32; 3] = [44100, 48000, 32000];
        assert(rates@ =~= sampling_rates());
        rates[self.sampling_rate_index()]
    }

    /// Whether the frame has one extra slot of padding.
    pub fn padding(&self) -> (r: bool)
        ensures
            r == flag(self@, 9),
    {
        self.0.bit_range(9..10) != 0
    }

    /// The private bit, which the format leaves to the application.
    pub fn private_bit(&self) -> (r: bool)
        ensures
            r == flag(self@, 8),
    {
        self.0.bit_range(8..9) != 0
    }

    /// How the channels of the frame are coded.
    pub fn channel_mode(&self) -> (r: Mode)
        ensures
            r == channel_mode_of(self@),
    {
        proof {
            lemma_field_ranges(self.0);
        }
        let code = self.0.bit_range(6..8);
        if code == 0b00 {
            Mode::Stereo
        } else if code == 0b01 {
            Mode::Joint
        } else if code == 0b10 {
            Mode::Dual
        } else {
            Mode::Single
        }
    }

    /// The two bits of the mode extension, as they stand in the header.
    pub fn mode_ext(&self) -> (r: u8)
        ensures
            r == mode_ext_of(self@),
            r < 4,
    {
        proof {
            lemma_field_ranges(self.0);
        }
        self.0.bit_range(4..6) as u8
    }

    /// The copyright flag.
    pub fn copyright_bit(&self) -> (r: bool)
        ensures
            r == flag(self@, 3),
    {
        self.0.bit_range(3..4) != 0
    }

    /// The original flag.
    pub fn original_bit(&self) -> (r: bool)
        ensures
            r == flag(self@, 2),
    {
        self.0.bit_range(2..3) != 0
    }

    /// The emphasis of the frame, which is never the reserved one.
    pub fn emphasis(&self) -> (r: Emphasis)
        ensures
            r == emphasis_of(self@),
            r != Emphasis::Reserved,
    {
        proof {
            use_type_invariant(self);
            lemma_field_ranges(self.0);
        }
        let code = self.0.bit_range(0..2);
        if code == 0b00 {
            Emphasis::NoEmphasis
        } else if code == 0b01 {
            Emphasis::Ms_50_15
        } else if code == 0b10 {
            Emphasis::Reserved
        } else {
            Emphasis::CCIT_J_17
        }
    }
}

/// The values of the fields of an MPEG-1 header, one by one.
pub struct Fields {
    pub layer: Layer,
    pub protected: bool,
    pub bitrate_index: usize,
    pub sampling_rate_index: usize,
    pub padding: bool,
    pub private_bit: bool,
    pub channel_mode: Mode,
    pub mode_ext: u8,
    pub copyright: bool,
    pub original: bool,
    pub emphasis: Emphasis,
}

/// The two-bit code of a layer.
pub open spec fn layer_code(layer: Layer) -> u32 {
    match layer {
        Layer::Reserved => 0,
        Layer::L3 => 1,
        Layer::L2 => 2,
        Layer::L1 => 3,
    }
}

/// The two-bit code of a channel mode.
pub open spec fn mode_code(mode: Mode) -> u32 {
    match mode {
        Mode::Stereo => 0,
        Mode::Joint => 1,
        Mode::Dual => 2,
        Mode::Single => 3,
    }
}

/// The two-bit code of an emphasis.
pub open spec fn emphasis_code(emphasis: Emphasis) -> u32 {
    match emphasis {
        Emphasis::NoEmphasis => 0,
        Emphasis::Ms_50_15 => 1,
        Emphasis::Reserved => 2,
        Emphasis::CCIT_J_17 => 3,
    }
}

/// A flag as one bit.
pub open spec fn bit(b: bool) -> u32 {
    if b {
        1
    } else {
        0
    }
}

/// The word with the twelve top bits set, the version selector clear, and
/// each code at the place of its field. The protection bit is given as it
/// stands in the word: clear where a CRC field follows.
pub open spec fn pack(
    layer: u32,
    protection: u32,
    bitrate: u32,
    sampling: u32,
    padding: u32,
    private_bit: u32,
    mode: u32,
    mode_ext: u32,
    copyright: u32,
    original: u32,
    emphasis: u32,
) -> u32 {
    0xfff0_0000u32 | layer << 17 | protection << 16 | bitrate << 12 | sampling << 10 | padding << 9
        | private_bit << 8 | mode << 6 | mode_ext << 4 | copyright << 3 | original << 2 | emphasis
}

impl Fields {
    /// Whether the values can stand in a legal header: neither the layer
    /// nor the emphasis is the reserved one, the bitrate index is at most
    /// 14, the sampling-rate index at most 2, and the mode extension has two
    /// bits.
    pub open spec fn is_legal(self) -> bool {
        &&& self.layer != Layer::Reserved
        &&& self.bitrate_index < 15
        &&& self.sampling_rate_index < 3
        &&& self.mode_ext < 4
        &&& self.emphasis != Emphasis::Reserved
    }

    /// The MPEG-1 header word that holds these values.
    pub open spec fn assemble(self) -> u32 {
        pack(
            layer_code(self.layer),
            bit(!self.protected),
            self.bitrate_index as u32,
            self.sampling_rate_index as u32,
            bit(self.padding),
            bit(self.private_bit),
            mode_code(self.channel_mode),
            self.mode_ext as u32,
            bit(self.copyright),
            bit(self.original),
            emphasis_code(self.emphasis),
        )
    }
}

/// Each field of a packed word holds the code that was put there.
proof fn lemma_pack_fields(
    layer: u32,
    protection: u32,
    bitrate: u32,
    sampling: u32,
    padding: u32,
    private_bit: u32,
    mode: u32,
    mode_ext: u32,
    copyright: u32,
    original: u32,
    emphasis: u32,
    raw: u32,
)
    by (bit_vector)
    requires
        layer < 4,
        protection < 2,
        bitrate < 16,
        sampling < 4,
        padding < 2,
        private_bit < 2,
        mode < 4,
        mode_ext < 4,
        copyright < 2,
        original < 2,
        emphasis < 4,
        raw == pack(
            layer,
            protection,
            bitrate,
            sampling,
            padding,
            private_bit,
            mode,
            mode_ext,
            copyright,
            original,
            emphasis,
        ),
    ensures
        field(raw, 20, 32) == 0xfff,
        field(raw, 20, 21) == 1,
        field(raw, 19, 20) == 0,
        field(raw, 17, 19) == layer,
        field(raw, 16, 17) == protection,
        field(raw, 12, 16) == bitrate,
        field(raw, 10, 12) == sampling,
        field(raw, 9, 10) == padding,
        field(raw, 8, 9) == private_bit,
        field(raw, 6, 8) == mode,
        field(raw, 4, 6) == mode_ext,
        field(raw, 3, 4) == copyright,
        field(raw, 2, 3) == original,
        field(raw, 0, 2) == emphasis,
{
}

/// Round trip: the word assembled from legal field values starts with the
/// syncword, is a legal MPEG-1 header, and holds in each field the value
/// that it was assembled from.
pub proof fn lemma_round_trip(f: Fields)
    requires
        f.is_legal(),
    ensures
        is_syncword(f.assemble()),
        is_mpeg1_word(f.assemble()),
        is_legal(f.assemble()),
        layer_of(f.assemble()) == f.layer,
        is_protected_word(f.assemble()) == f.protected,
        bitrate_index_of(f.assemble()) == f.bitrate_index,
        sampling_rate_index_of(f.assemble()) == f.sampling_rate_index,
        flag(f.assemble(), 9) == f.padding,
        flag(f.assemble(), 8) == f.private_bit,
        channel_mode_of(f.assemble()) == f.channel_mode,
        mode_ext_of(f.assemble()) == f.mode_ext,
        flag(f.assemble(), 3) == f.copyright,
        flag(f.assemble(), 2) == f.original,
        emphasis_of(f.assemble()) == f.emphasis,
{
    lemma_pack_fields(
        layer_code(f.layer),
        bit(!f.protected),
        f.bitrate_index as u32,
        f.sampling_rate_index as u32,
        bit(f.padding),
        bit(f.private_bit),
        mode_code(f.channel_mode),
        f.mode_ext as u32,
        bit(f.copyright),
        bit(f.original),
        emphasis_code(f.emphasis),
        f.assemble(),
    );
    assert(0xfffu32 | 1 == 0xfff) by (bit_vector);
}

/// The fields lie side by side and fill the word: put back at their places
/// they give the word again.
pub proof fn lemma_fields_fill_word(raw: u32)
    by (bit_vector)
    ensures
        raw == field(raw, 20, 32) << 20 | field(raw, 19, 20) << 19 | field(raw, 17, 19) << 17
            | field(raw, 16, 17) << 16 | field(raw, 12, 16) << 12 | field(raw, 10, 12) << 10
            | field(raw, 9, 10) << 9 | field(raw, 8, 9) << 8 | field(raw, 6, 8) << 6 | field(
            raw,
            4,
            6,
        ) << 4 | field(raw, 3, 4) << 3 | field(raw, 2, 3) << 2 | field(raw, 0, 2),
{
}

/// A word marked as MPEG-2.5 is turned down as that, whatever else it holds.
pub proof fn lemma_mpeg25_unsupported(raw: u32)
    requires
        is_mpeg25_word(raw),
    ensures
        rejection(raw) == Some(Error::UnsupportedFormat("MPEG-2.5")),
{
}

/// A word marked as MPEG-2, and not as MPEG-2.5, is turned down as MPEG-2,
/// whatever else it holds.
pub proof fn lemma_mpeg2_unsupported(raw: u32)
    requires
        !is_mpeg25_word(raw),
        is_mpeg2_word(raw),
    ensures
        rejection(raw) == Some(Error::UnsupportedFormat("MPEG-2")),
{
}

/// An MPEG-1 word with bitrate index 15 is an invalid header, whatever its
/// other fields hold.
pub proof fn lemma_bitrate_index_invalid(raw: u32)
    requires
        is_mpeg1_word(raw),
        bitrate_index_of(raw) == 15,
    ensures
        rejection(raw) matches Some(Error::InvalidHeader(_)),
        layer_of(raw) != Layer::Reserved ==> rejection(raw) == Some(
            Error::InvalidHeader("bitrate index invalid"),
        ),
{
}

/// An MPEG-1 word with sampling-rate index 3 is an invalid header, whatever
/// its other fields hold.
pub proof fn lemma_sampling_rate_reserved(raw: u32)
    requires
        is_mpeg1_word(raw),
        sampling_rate_index_of(raw) == 3,
    ensures
        rejection(raw) matches Some(Error::InvalidHeader(_)),
        layer_of(raw) != Layer::Reserved && bitrate_index_of(raw) != 15 ==> rejection(raw) == Some(
            Error::InvalidHeader("sampling rate reserved"),
        ),
{
}

/// An MPEG-1 word with the reserved emphasis is an invalid header, whatever
/// its other fields hold.
pub proof fn lemma_emphasis_reserved(raw: u32)
    requires
        is_mpeg1_word(raw),
        emphasis_of(raw) == Emphasis::Reserved,
    ensures
        rejection(raw) matches Some(Error::InvalidHeader(_)),
        layer_of(raw) != Layer::Reserved && bitrate_index_of(raw) != 15 && sampling_rate_index_of(
            raw,
        ) != 3 ==> rejection(raw) == Some(Error::InvalidHeader("emphasis reserved")),
{
}

/// A word is a legal header exactly if it is marked as MPEG-1 and none of
/// its layer, bitrate index, sampling-rate index and emphasis holds the
/// code that is ruled out.
pub proof fn lemma_legal_words(raw: u32)
    ensures
        is_legal(raw) <==> is_mpeg1_word(raw) && layer_of(raw) != Layer::Reserved
            && bitrate_index_of(raw) != 15 && sampling_rate_index_of(raw) != 3 && emphasis_of(raw)
            != Emphasis::Reserved,
{
}

} // verus!
