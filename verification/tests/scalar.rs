use fwumious_wabbit::scalar::Scalar;

fn samples() -> Vec<u32> {
    let mut bits: Vec<u32> = vec![
        0x0000_0000,
        0x8000_0000,
        0x0000_0001,
        0x8000_0001,
        0x3F80_0000,
        0xBF80_0000,
        0x7F7F_FFFF,
        0xFF7F_FFFF,
        0x7F80_0000,
        0xFF80_0000,
        0x7F80_0001,
        0xFF80_0001,
        0x7FC0_0000,
        0xFFC0_0000,
        0x7FFF_FFFF,
        0xFFFF_FFFF,
    ];
    let mut x: u32 = 12345;
    for _ in 0..20000 {
        x = x.wrapping_mul(1664525).wrapping_add(1013904223);
        bits.push(x);
    }
    bits
}

#[test]
fn test_classes_agree_with_float_comparison() {
    for bits in samples() {
        let x = f32::from_bits(bits);
        let s = Scalar::from_bits(bits);
        assert_eq!(s.to_bits(), bits);
        assert_eq!(s.is_nan(), x.is_nan(), "{:#x}", bits);
        assert_eq!(s.is_non_negative(), x >= 0.0, "{:#x}", bits);
        assert_eq!(s.is_negative(), x < 0.0, "{:#x}", bits);
    }
}

#[test]
fn test_rectifier_agrees_with_float_max() {
    for bits in samples() {
        let x = f32::from_bits(bits);
        let s = Scalar::from_bits(bits);
        let expected = if x >= 0.0 { x } else { 0.0 };
        assert_eq!(s.rectified().to_bits(), expected.to_bits(), "{:#x}", bits);
        let mask = if x >= 0.0 { 1.0f32 } else { 0.0f32 };
        assert_eq!(s.rectifier_mask().to_bits(), mask.to_bits(), "{:#x}", bits);
    }
}

#[test]
fn test_gate_agrees_with_product_on_finite_gradients() {
    let one = Scalar::one();
    let zero = Scalar::zero();
    for bits in samples() {
        let g = f32::from_bits(bits);
        if !g.is_finite() {
            continue;
        }
        let gradient = Scalar::from_bits(bits);
        assert_eq!(one.gated(gradient).to_bits(), (1.0f32 * g).to_bits());
        assert_eq!(f32::from_bits(zero.gated(gradient).to_bits()), 0.0f32 * g);
    }
}

#[test]
fn test_constants() {
    assert_eq!(f32::from_bits(Scalar::zero().to_bits()), 0.0);
    assert_eq!(Scalar::zero().to_bits(), 0.0f32.to_bits());
    assert_eq!(Scalar::one().to_bits(), 1.0f32.to_bits());
    assert_eq!(Scalar::minus_one().to_bits(), (-1.0f32).to_bits());
}
