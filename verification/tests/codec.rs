use biterator::compose::build_from;
use biterator::stream::BitSource;
use biterator::stream::BiteratorLsb;

#[test]
fn test_bitstream() {
    let mut it = BiteratorLsb::new(12u64);
    let mut v: Vec<bool> = Vec::new();
    while let Some(b) = it.next() {
        v.push(b);
    }
    assert_eq!(&[false, false, true, true][..], &v[..]);

    let mut it = BiteratorLsb::new(0b1110u8);
    let mut v: Vec<bool> = Vec::new();
    while let Some(b) = it.next() {
        v.push(b);
    }
    assert_eq!(&[false, true, true, true][..], &v[..]);

    let mut it = BiteratorLsb::new(0b001110u8);
    let mut v: Vec<bool> = Vec::new();
    while let Some(b) = it.next() {
        v.push(b);
    }
    assert_eq!(&[false, true, true, true][..], &v[..]);
}

#[test]
fn test_build_from() {
    let num = 0b001110u8;
    let n = build_from(&mut BiteratorLsb::new(num), 8);
    assert_eq!(num, n);
}

#[test]
fn test_build_from_partial() {
    let mut iter = BiteratorLsb::new(0b1110u8);
    assert_eq!(0b0u8, build_from(&mut iter, 1));
    assert_eq!(0b11u8, build_from(&mut iter, 2));
    assert_eq!(0b1u8, build_from(&mut iter, 1));
}

#[test]
fn test_zero_yields_one_false_bit() {
    let mut it = BiteratorLsb::new(0u64);
    assert_eq!(Some(false), it.next());
    assert_eq!(None, it.next());
    assert_eq!(None, it.next());
}

#[test]
fn test_round_trip_u64() {
    let values: Vec<u64> = vec![0, 1, 2, 12, 255, 256, 0x8000_0000_0000_0000, u64::MAX];
    for v in values {
        let n: u64 = build_from(&mut BiteratorLsb::new(v), 64);
        assert_eq!(v, n);
    }
}

#[test]
fn test_round_trip_u8() {
    for v in 0..=u8::MAX {
        let n: u8 = build_from(&mut BiteratorLsb::new(v), 8);
        assert_eq!(v, n);
    }
}

#[test]
fn test_round_trip_u16_u32() {
    let n16: u16 = build_from(&mut BiteratorLsb::new(0xBEEFu16), 16);
    assert_eq!(0xBEEFu16, n16);
    let n32: u32 = build_from(&mut BiteratorLsb::new(0xDEAD_BEEFu32), 32);
    assert_eq!(0xDEAD_BEEFu32, n32);
}

#[test]
fn test_short_source_high_bits_zero() {
    // The source holds only four significant bits; asking for eight stops
    // early and leaves the high-order result bits zero.
    let mut it = BiteratorLsb::new(0b1011u8);
    let n: u8 = build_from(&mut it, 8);
    assert_eq!(0b1011u8, n);
    // The source is drained: a further reconstruction reads nothing.
    assert_eq!(None, it.next());
    let rest: u8 = build_from(&mut it, 8);
    assert_eq!(0u8, rest);
}

#[test]
fn test_max_zero_reads_nothing() {
    let mut it = BiteratorLsb::new(0b101u8);
    let n: u8 = build_from(&mut it, 0);
    assert_eq!(0u8, n);
    // The stream is untouched and still holds all three bits.
    assert_eq!(0b101u8, build_from(&mut it, 8));
}

#[test]
fn test_cross_width_rebuild() {
    // Bits drawn from a 64-bit value rebuild into a narrower type.
    let mut it = BiteratorLsb::new(0b1011_0101u64);
    let n: u8 = build_from(&mut it, 8);
    assert_eq!(0b1011_0101u8, n);
}
