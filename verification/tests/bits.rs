use mpeg_audio::utils::{extract_bits, SliceExt, UIntBitsRng, UnsignedInteger};

#[test]
fn bit_range() {
    let range = 0b10001100_11101111_11110111_00110001 as u32;

    assert_eq!(range.bit_range(..=7), 0b00110001);
    assert_eq!(range.bit_range(8..16), 0b11110111);
    assert_eq!(range.bit_range(16..=23), 0b11101111);
}

#[test]
fn slice_advance() {
    let mut slice = &[1, 2, 3, 4][..];

    slice.advance(0);
    assert_eq!(slice, &[1, 2, 3, 4][..]);

    slice.advance(2);
    assert_eq!(slice, &[3, 4][..]);
}

#[test]
fn slice_advance_to_the_end() {
    let mut slice = &[7u8, 8, 9][..];
    slice.advance(3);
    assert!(slice.is_empty());
    slice.advance(0);
    assert!(slice.is_empty());
}

#[test]
fn mutable_slice_advance() {
    let mut data = [1u8, 2, 3, 4, 5];
    let mut slice = &mut data[..];
    slice.advance(1);
    assert_eq!(slice, &mut [2u8, 3, 4, 5][..]);
    slice[0] = 20;
    slice.advance(3);
    assert_eq!(slice, &mut [5u8][..]);
    slice[0] = 50;
    assert_eq!(data, [1, 20, 3, 4, 50]);
}

#[test]
fn bit_range_every_range_form() {
    let v: u16 = 0b1010_0110_1100_0101;
    assert_eq!(v.bit_range(4..12), 0b0110_1100);
    assert_eq!(v.bit_range(4..=11), 0b0110_1100);
    assert_eq!(v.bit_range(..12), 0b0110_1100_0101);
    assert_eq!(v.bit_range(..=11), 0b0110_1100_0101);
    assert_eq!(v.bit_range(12..), 0b1010);
    assert_eq!(v.bit_range(..), v);
}

#[test]
fn bit_range_inclusive_and_exclusive_ends_agree() {
    let v: u32 = 0xdead_beef;
    for low in 0..32usize {
        for high in low..32usize {
            assert_eq!(v.bit_range(low..=high), v.bit_range(low..high + 1));
        }
    }
}

#[test]
fn bit_range_every_width() {
    assert_eq!(0b1011_0110u8.bit_range(2..6), 0b1101u8);
    assert_eq!(0xabcdu16.bit_range(4..12), 0xbcu16);
    assert_eq!(0x1234_5678u32.bit_range(8..24), 0x3456u32);
    assert_eq!(0x0123_4567_89ab_cdefu64.bit_range(16..48), 0x4567_89abu64);
    assert_eq!(0xf0f0usize.bit_range(4..8), 0xfusize);
    assert_eq!(u8::MAX.bit_range(..), u8::MAX);
    assert_eq!(u16::MAX.bit_range(..), u16::MAX);
    assert_eq!(u32::MAX.bit_range(..), u32::MAX);
    assert_eq!(u64::MAX.bit_range(..), u64::MAX);
    assert_eq!(usize::MAX.bit_range(..), usize::MAX);
    assert_eq!(usize::MAX.bit_range(1..), usize::MAX >> 1);
}

#[test]
fn bit_range_of_an_empty_span_is_zero() {
    assert_eq!(0xffu8.bit_range(0..0), 0);
    assert_eq!(0xffu8.bit_range(3..3), 0);
    assert_eq!(0xffu8.bit_range(8..8), 0);
    assert_eq!(0xffu8.bit_range(8..), 0);
    assert_eq!(0xffu8.bit_range(..0), 0);
    assert_eq!(u64::MAX.bit_range(0..0), 0);
    assert_eq!(u64::MAX.bit_range(64..64), 0);
    assert_eq!(u64::MAX.bit_range(64..), 0);
    assert_eq!(u32::MAX.bit_range(32..32), 0);
}

#[test]
fn bit_range_of_single_bits() {
    let v: u8 = 0b0100_1001;
    let bits = [1u8, 0, 0, 1, 0, 0, 1, 0];
    for p in 0..8usize {
        assert_eq!(v.bit_range(p..p + 1), bits[p]);
        assert_eq!(v.bit_range(p..=p), bits[p]);
    }
    assert_eq!(0x8000_0000_0000_0000u64.bit_range(63..), 1);
    assert_eq!(0x8000_0000_0000_0000u64.bit_range(63..=63), 1);
    assert_eq!(0x8000_0000_0000_0000u64.bit_range(..63), 0);
}

#[test]
fn bit_range_equals_shift_and_mask() {
    let values = [0u32, 1, 0x8000_0000, 0xffff_ffff, 0xdead_beef, 0x1234_5678, 0xfff5_8000];
    for &v in values.iter() {
        for low in 0..=32usize {
            for high in low..=32usize {
                let n = high - low;
                let mask: u64 = if n == 64 { u64::MAX } else { (1u64 << n) - 1 };
                let expected = (((v as u64) >> low) & mask) as u32;
                assert_eq!(v.bit_range(low..high), expected);
            }
        }
    }
}

#[test]
fn bit_range_equals_division_and_remainder() {
    let values = [0u16, 1, 0x8000, 0xffff, 0xbeef, 0x1234];
    for &v in values.iter() {
        for low in 0..=16u32 {
            for high in low..=16u32 {
                let expected = ((v as u64) / 2u64.pow(low)) % 2u64.pow(high - low);
                assert_eq!(v.bit_range(low as usize..high as usize) as u64, expected);
            }
        }
    }
}

#[test]
fn extract_bits_exact_values() {
    assert_eq!(extract_bits(0xfff5_8000, 20, 32), 0xfff);
    assert_eq!(extract_bits(0xfff5_8000, 17, 19), 2);
    assert_eq!(extract_bits(0xfff5_8000, 12, 16), 8);
    assert_eq!(extract_bits(u64::MAX, 0, 64), u64::MAX);
    assert_eq!(extract_bits(u64::MAX, 1, 64), u64::MAX >> 1);
    assert_eq!(extract_bits(u64::MAX, 0, 63), u64::MAX >> 1);
    assert_eq!(extract_bits(u64::MAX, 60, 64), 0xf);
    assert_eq!(extract_bits(u64::MAX, 0, 0), 0);
    assert_eq!(extract_bits(u64::MAX, 64, 64), 0);
    assert_eq!(extract_bits(0x0123_4567_89ab_cdef, 4, 12), 0xde);
}

#[test]
fn unsigned_integers_widen_and_narrow() {
    assert_eq!(<u8 as UnsignedInteger>::bit_width(), 8);
    assert_eq!(<u16 as UnsignedInteger>::bit_width(), 16);
    assert_eq!(<u32 as UnsignedInteger>::bit_width(), 32);
    assert_eq!(<u64 as UnsignedInteger>::bit_width(), 64);
    assert_eq!(<usize as UnsignedInteger>::bit_width(), usize::BITS as usize);
    assert_eq!(200u8.to_u64(), 200);
    assert_eq!(<u8 as UnsignedInteger>::from_u64(200), 200u8);
    assert_eq!(0xffffu16.to_u64(), 0xffff);
    assert_eq!(<u16 as UnsignedInteger>::from_u64(0xfffe), 0xfffeu16);
    assert_eq!(<u32 as UnsignedInteger>::from_u64(0xffff_ffff), u32::MAX);
    assert_eq!(<u64 as UnsignedInteger>::from_u64(u64::MAX), u64::MAX);
    assert_eq!(<usize as UnsignedInteger>::from_u64(12345), 12345usize);
    assert_eq!(usize::MAX.to_u64(), usize::MAX as u64);
}
