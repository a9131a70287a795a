use enoki_core::{ConversionError, MushroomValue, WireValue};

fn round_trip(v: &MushroomValue) -> Result<MushroomValue, ConversionError> {
    MushroomValue::from_wire(&v.to_wire())
}

#[test]
fn scalars_round_trip() {
    let values = vec![
        MushroomValue::Float(0.1f32.to_bits()),
        MushroomValue::Double(0.1f64.to_bits()),
        MushroomValue::Int(i64::MIN),
        MushroomValue::Int(42),
        MushroomValue::String("a \"quoted\" line".to_string()),
        MushroomValue::Boolean(false),
    ];
    for v in values {
        assert_eq!(round_trip(&v), Ok(v.clone()));
    }
}

#[test]
fn arrays_round_trip() {
    let values = vec![
        MushroomValue::ByteArray(vec![1, 2, 3]),
        MushroomValue::FloatArray(vec![1.0f32.to_bits(), 2.0f32.to_bits()]),
        MushroomValue::DoubleArray(vec![3.0f64.to_bits()]),
        MushroomValue::IntArray(vec![-1, 0, 1]),
        MushroomValue::StringArray(vec!["a".to_string(), "".to_string()]),
        MushroomValue::BooleanArray(vec![true, false]),
        MushroomValue::FloatArray(vec![]),
    ];
    for v in values {
        assert_eq!(round_trip(&v), Ok(v.clone()));
    }
}

#[test]
fn empty_arrays_read_back_as_float_arrays() {
    assert_eq!(round_trip(&MushroomValue::IntArray(vec![])), Ok(MushroomValue::FloatArray(vec![])));
    assert_eq!(round_trip(&MushroomValue::StringArray(vec![])), Ok(MushroomValue::FloatArray(vec![])));
}

#[test]
fn protobuf_round_trips() {
    assert_eq!(round_trip(&MushroomValue::Protobuf(vec![5, 6])), Ok(MushroomValue::Protobuf(vec![5, 6])));
    assert_eq!(round_trip(&MushroomValue::ByteArray(vec![5, 6])), Ok(MushroomValue::ByteArray(vec![5, 6])));
    assert_eq!(
        MushroomValue::from_wire(&WireValue::Protobuf(vec![7])),
        Ok(MushroomValue::Protobuf(vec![7]))
    );
}

#[test]
fn wire_form_of_values() {
    assert!(matches!(MushroomValue::Int(-3).to_wire(), WireValue::Integer(-3)));
    assert!(matches!(MushroomValue::Float(7).to_wire(), WireValue::F32(7)));
    assert!(matches!(MushroomValue::Protobuf(vec![1]).to_wire(), WireValue::Protobuf(ref b) if *b == vec![1]));
    assert!(matches!(MushroomValue::ByteArray(vec![2]).to_wire(), WireValue::Binary(ref b) if *b == vec![2]));
    match MushroomValue::IntArray(vec![8, 9]).to_wire() {
        WireValue::Array(items) => {
            assert_eq!(items.len(), 2);
            assert!(matches!(items[1], WireValue::Integer(9)));
        }
        other => panic!("unexpected {:?}", other),
    }
}

#[test]
fn out_of_range_integers_read_as_zero() {
    let big = WireValue::Integer(u64::MAX as i128);
    assert_eq!(MushroomValue::from_wire(&big), Ok(MushroomValue::Int(0)));
    let items = WireValue::Array(vec![WireValue::Integer(4), WireValue::Integer(1i128 << 63), WireValue::Nil]);
    assert_eq!(MushroomValue::from_wire(&items), Ok(MushroomValue::IntArray(vec![4, 0, 0])));
}

#[test]
fn mixed_arrays_take_the_first_kind() {
    let items = WireValue::Array(vec![WireValue::F32(1.5f32.to_bits()), WireValue::Integer(3)]);
    assert_eq!(MushroomValue::from_wire(&items), Ok(MushroomValue::FloatArray(vec![1.5f32.to_bits(), 0])));
    let items = WireValue::Array(vec![WireValue::String("s".to_string()), WireValue::Boolean(true)]);
    assert_eq!(
        MushroomValue::from_wire(&items),
        Ok(MushroomValue::StringArray(vec!["s".to_string(), "".to_string()]))
    );
}

#[test]
fn unsupported_wire_values_fail() {
    assert_eq!(MushroomValue::from_wire(&WireValue::Nil), Err(ConversionError::UnsupportedConversion));
    assert_eq!(MushroomValue::from_wire(&WireValue::Compound), Err(ConversionError::UnsupportedConversion));
    let nested = WireValue::Array(vec![WireValue::Array(vec![])]);
    assert_eq!(MushroomValue::from_wire(&nested), Err(ConversionError::UnsupportedConversion));
    let binaries = WireValue::Array(vec![WireValue::Binary(vec![1])]);
    assert_eq!(MushroomValue::from_wire(&binaries), Err(ConversionError::UnsupportedConversion));
}
