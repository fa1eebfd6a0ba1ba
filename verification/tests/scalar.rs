use idx_reader::IdxData;

#[test]
fn merging_mismatched_variants_yields_absent() {
    let r = IdxData::UnsignedByte(3).try_add(IdxData::SignedByte(3));
    assert_eq!(r, Some(IdxData::Absent));
    assert_eq!(IdxData::Absent.try_add(IdxData::Int(5)), Some(IdxData::Absent));
    assert_eq!(IdxData::Short(1).try_add(IdxData::Int(1)), Some(IdxData::Absent));
    assert_eq!(
        IdxData::Float(1.0f32.to_bits()).try_add(IdxData::Double(1.0f64.to_bits())),
        Some(IdxData::Absent)
    );
}

#[test]
fn merging_matching_variants_sums_payloads() {
    assert_eq!(
        IdxData::UnsignedByte(3).try_add(IdxData::UnsignedByte(3)),
        Some(IdxData::UnsignedByte(6))
    );
    assert_eq!(
        IdxData::SignedByte(-5).try_add(IdxData::SignedByte(2)),
        Some(IdxData::SignedByte(-3))
    );
    assert_eq!(IdxData::Short(300).try_add(IdxData::Short(-44)), Some(IdxData::Short(256)));
    assert_eq!(IdxData::Int(70_000).try_add(IdxData::Int(1)), Some(IdxData::Int(70_001)));
    assert_eq!(IdxData::Absent.try_add(IdxData::Absent), Some(IdxData::Absent));
}

#[test]
fn merging_out_of_range_sums_is_refused() {
    assert_eq!(IdxData::UnsignedByte(200).try_add(IdxData::UnsignedByte(100)), None);
    assert_eq!(IdxData::Int(i32::MAX).try_add(IdxData::Int(1)), None);
    assert_eq!(IdxData::SignedByte(i8::MIN).try_add(IdxData::SignedByte(-1)), None);
}

#[test]
fn merging_float_payloads_is_left_to_the_caller() {
    let a = IdxData::Float(1.0f32.to_bits());
    let b = IdxData::Float(2.0f32.to_bits());
    assert_eq!(a.try_add(b), None);
    let c = IdxData::Double(1.0f64.to_bits());
    assert_eq!(c.try_add(c), None);
}

#[test]
fn absent_is_the_additive_identity() {
    assert_eq!(IdxData::zero(), IdxData::Absent);
    assert!(IdxData::zero().is_zero());
    assert!(!IdxData::UnsignedByte(0).is_zero());
    assert_eq!(IdxData::default(), IdxData::Absent);
}

#[test]
fn integer_scalars_widen_exactly() {
    assert_eq!(IdxData::UnsignedByte(255).to_i64(), Some(255));
    assert_eq!(IdxData::SignedByte(-1).to_i64(), Some(-1));
    assert_eq!(IdxData::Short(-2).to_i64(), Some(-2));
    assert_eq!(IdxData::Int(256).to_i64(), Some(256));
    assert_eq!(IdxData::Absent.to_i64(), None);
    assert_eq!(IdxData::Float(1.0f32.to_bits()).to_i64(), None);
}
