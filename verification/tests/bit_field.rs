use fyos::bit_field::{from_range, BitField, IntoSpan, SpanBound};

#[test]
fn test_bit_field_basic() {
    let mut bits: u16 = 0;
    bits.set_bits(.., 0b111);
    assert_eq!(bits, 0b111);
    bits.set_bits(..=3, 0);
    assert_eq!(bits, 0);
    bits.set_bits(3..=5, 0b101);
    assert_eq!(bits, 0b101000);
    bits.set_bits(4..5, 1);
    assert_eq!(bits, 0b111000);
    bits.set_bits(4.., 0);
    assert_eq!(bits, 0b1000);
    bits.set_bits(2, 1);
    assert_eq!(bits, 0b1100);

    assert_eq!(bits.get_bits(..), 0b1100);
    assert_eq!(bits.get_bits(1..=2), 0b10);
    assert_eq!(bits.get_bits(1), 0);
    assert_eq!(bits.get_bits(2), 1);
}

#[test]
fn spans_of_every_range_kind() {
    assert_eq!(5u8.into_span::<u8>(), (5, 5));
    assert_eq!((3u8..7).into_span::<u16>(), (3, 6));
    assert_eq!((3u8..=7).into_span::<u16>(), (3, 7));
    assert_eq!((3u8..).into_span::<u32>(), (3, 31));
    assert_eq!((..7u8).into_span::<u32>(), (0, 6));
    assert_eq!((..=7u8).into_span::<u64>(), (0, 7));
    assert_eq!((..).into_span::<u64>(), (0, 63));
    assert_eq!((..).into_span::<u8>(), (0, 7));
}

#[test]
fn from_range_excluded_start() {
    assert_eq!(
        from_range::<u32>(SpanBound::Excluded(3), SpanBound::Included(9)),
        (4, 9)
    );
    assert_eq!(
        from_range::<u16>(SpanBound::Unbounded, SpanBound::Unbounded),
        (0, 15)
    );
}

#[test]
fn full_width_spans() {
    let x: u64 = 0xdead_beef_0123_4567;
    assert_eq!(x.get_bits(..), x);
    let mut y: u64 = 0;
    y.set_bits(0..64, u64::MAX);
    assert_eq!(y, u64::MAX);
    let mut z: u8 = 0x5a;
    z.set_bits(.., 0xa5);
    assert_eq!(z, 0xa5);
    assert_eq!(0xffff_ffffu32.get_bits(31), 1);
    assert_eq!(0x8000_0000_0000_0000u64.get_bits(63..64), 1);
}

#[test]
fn get_after_set_gives_back_the_value() {
    let mut x: u32 = 0x1234_5678;
    x.set_bits(8..20, 0xabc);
    assert_eq!(x.get_bits(8..20), 0xabc);
    assert_eq!(x, 0x123a_bc78);
}

#[test]
fn writing_back_what_was_read_changes_nothing() {
    let mut x: u64 = 0x0f0f_1234_abcd_5555;
    let f = x.get_bits(17..=45);
    x.set_bits(17..=45, f);
    assert_eq!(x, 0x0f0f_1234_abcd_5555);
}

#[test]
fn second_write_wins() {
    let mut x: u16 = 0xffff;
    x.set_bits(4..8, 0x3);
    x.set_bits(4..8, 0x9);
    let mut y: u16 = 0xffff;
    y.set_bits(4..8, 0x9);
    assert_eq!(x, y);
    assert_eq!(x, 0xff9f);
}

#[test]
fn other_spans_are_kept() {
    let mut x: u64 = 0x1122_3344_5566_7788;
    x.set_bits(16..32, 0);
    assert_eq!(x.get_bits(0..16), 0x7788);
    assert_eq!(x.get_bits(32..64), 0x1122_3344);
    assert_eq!(x, 0x1122_3344_0000_7788);
}
