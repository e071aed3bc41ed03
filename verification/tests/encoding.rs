use mamba_inference::encoding::{decode, read_le16, read_le32, widen_half_bits, SourceEncoding};

fn reference(h: u16) -> u32 {
    half::f16::from_bits(h).to_f32().to_bits()
}

#[test]
fn widening_agrees_with_reference_on_every_pattern() {
    let mut h: u32 = 0;
    while h <= 0xffff {
        let bits = h as u16;
        assert_eq!(widen_half_bits(bits), reference(bits), "pattern {:#06x}", bits);
        h += 1;
    }
}

#[test]
fn widening_of_edge_values() {
    // signed zeros
    assert_eq!(widen_half_bits(0x0000), 0x0000_0000);
    assert_eq!(widen_half_bits(0x8000), 0x8000_0000);
    // signed infinities
    assert_eq!(widen_half_bits(0x7c00), 0x7f80_0000);
    assert_eq!(widen_half_bits(0xfc00), 0xff80_0000);
    // smallest subnormal, 2^-24
    assert_eq!(widen_half_bits(0x0001), 0x3380_0000);
    assert_eq!(f32::from_bits(widen_half_bits(0x0001)), 2.0f32.powi(-24));
    // largest subnormal
    assert_eq!(widen_half_bits(0x03ff), 0x387f_c000);
    // smallest normal, 2^-14
    assert_eq!(widen_half_bits(0x0400), 0x3880_0000);
    // one, minus two, largest finite
    assert_eq!(widen_half_bits(0x3c00), 0x3f80_0000);
    assert_eq!(widen_half_bits(0xc000), 0xc000_0000);
    assert_eq!(widen_half_bits(0x7bff), 0x477f_e000);
    assert_eq!(f32::from_bits(widen_half_bits(0x7bff)), 65504.0);
    // NaN patterns: quiet, signalling, negative
    assert_eq!(widen_half_bits(0x7e00), 0x7fc0_0000);
    assert_eq!(widen_half_bits(0x7c01), 0x7fc0_2000);
    assert_eq!(widen_half_bits(0xfe01), 0xffc0_2000);
    assert!(f32::from_bits(widen_half_bits(0x7c01)).is_nan());
}

#[test]
fn little_endian_reads() {
    assert_eq!(read_le16(0x34, 0x12), 0x1234);
    assert_eq!(read_le32(0x78, 0x56, 0x34, 0x12), 0x1234_5678);
    assert_eq!(read_le32(0xff, 0xff, 0xff, 0xff), u32::MAX);
    assert_eq!(read_le32(0, 0, 0x80, 0x3f), 1.0f32.to_bits());
}

#[test]
fn encoding_widths() {
    assert_eq!(SourceEncoding::Single.width(), 4);
    assert_eq!(SourceEncoding::Half.width(), 2);
}

#[test]
fn decode_single_precision() {
    let values = [1.0f32, -2.5, 0.0, f32::INFINITY];
    let mut bytes = Vec::new();
    for v in values {
        bytes.extend_from_slice(&v.to_le_bytes());
    }
    let decoded = decode(&bytes, SourceEncoding::Single).unwrap();
    assert_eq!(decoded.len(), 4);
    for (d, v) in decoded.iter().zip(values) {
        assert_eq!(*d, v.to_bits());
    }
}

#[test]
fn decode_half_precision() {
    let values = [1.0f32, -2.5, 0.0, 65504.0, 5.9604645e-8];
    let mut bytes = Vec::new();
    for v in values {
        bytes.extend_from_slice(&half::f16::from_f32(v).to_le_bytes());
    }
    let decoded = decode(&bytes, SourceEncoding::Half).unwrap();
    assert_eq!(decoded.len(), 5);
    for (d, v) in decoded.iter().zip(values) {
        assert_eq!(f32::from_bits(*d), v);
    }
}

#[test]
fn decode_rejects_partial_elements() {
    assert!(decode(&[0, 0, 0], SourceEncoding::Single).is_none());
    assert!(decode(&[0, 0, 0, 0, 0], SourceEncoding::Single).is_none());
    assert!(decode(&[0], SourceEncoding::Half).is_none());
    assert!(decode(&[0, 0, 0], SourceEncoding::Half).is_none());
    assert_eq!(decode(&[], SourceEncoding::Single), Some(vec![]));
    assert_eq!(decode(&[], SourceEncoding::Half), Some(vec![]));
}
