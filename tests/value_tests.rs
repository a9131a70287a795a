use enoki_core::{ConversionError, MushroomValue, ValueKind};

#[test]
fn predicates_follow_the_variant() {
    let bytes = MushroomValue::ByteArray(vec![1, 2]);
    assert!(bytes.is_binary() && bytes.is_array() && !bytes.is_single() && !bytes.is_numeric());
    let proto = MushroomValue::Protobuf(vec![]);
    assert!(proto.is_binary() && proto.is_array());
    let int = MushroomValue::Int(3);
    assert!(int.is_numeric() && int.is_single() && !int.is_array() && !int.is_binary());
    let doubles = MushroomValue::DoubleArray(vec![1.0f64.to_bits()]);
    assert!(doubles.is_numeric() && doubles.is_array() && !doubles.is_single());
    let text = MushroomValue::String("hi".to_string());
    assert!(text.is_string() && text.is_single() && !text.is_numeric());
    let texts = MushroomValue::StringArray(vec!["a".to_string()]);
    assert!(texts.is_string() && texts.is_array());
    let flag = MushroomValue::Boolean(true);
    assert!(flag.is_boolean() && flag.is_single() && !flag.is_string());
    let flags = MushroomValue::BooleanArray(vec![true]);
    assert!(flags.is_boolean() && flags.is_array());
    let float = MushroomValue::Float(1.5f32.to_bits());
    assert!(float.is_numeric() && float.is_single());
}

#[test]
fn get_index_reads_elements() {
    let ints = MushroomValue::IntArray(vec![4, 5, 6]);
    assert_eq!(ints.get_index(1), Some(MushroomValue::Int(5)));
    assert_eq!(ints.get_index(3), None);
    let bytes = MushroomValue::ByteArray(vec![200, 7]);
    assert_eq!(bytes.get_index(0), Some(MushroomValue::Int(200)));
    let texts = MushroomValue::StringArray(vec!["a".to_string(), "b".to_string()]);
    assert_eq!(texts.get_index(1), Some(MushroomValue::String("b".to_string())));
    let floats = MushroomValue::FloatArray(vec![2.5f32.to_bits()]);
    assert_eq!(floats.get_index(0), Some(MushroomValue::Float(2.5f32.to_bits())));
    assert_eq!(MushroomValue::Int(1).get_index(0), None);
}

#[test]
fn get_len_counts_array_elements() {
    assert_eq!(MushroomValue::BooleanArray(vec![true, false, true]).get_len(), Some(3));
    assert_eq!(MushroomValue::Protobuf(vec![]).get_len(), Some(0));
    assert_eq!(MushroomValue::Boolean(true).get_len(), None);
}

#[test]
fn strict_conversions() {
    assert_eq!(MushroomValue::Boolean(true).to_bool(), Ok(true));
    assert_eq!(MushroomValue::Int(1).to_bool(), Err(ConversionError::UnsupportedConversion));
    assert_eq!(MushroomValue::String("true".to_string()).to_bool(), Err(ConversionError::UnsupportedConversion));
    assert_eq!(MushroomValue::ByteArray(vec![9, 8]).to_bytes(), Ok(vec![9, 8]));
    assert_eq!(MushroomValue::Protobuf(vec![9]).to_bytes(), Err(ConversionError::UnsupportedConversion));
    assert_eq!(
        MushroomValue::StringArray(vec!["x".to_string()]).to_string_array(),
        Ok(vec!["x".to_string()])
    );
    assert_eq!(MushroomValue::String("x".to_string()).to_string_array(), Err(ConversionError::UnsupportedConversion));
    assert_eq!(MushroomValue::BooleanArray(vec![false]).to_bool_array(), Ok(vec![false]));
    assert_eq!(MushroomValue::Boolean(false).to_bool_array(), Err(ConversionError::UnsupportedConversion));
}

#[test]
fn kinds_of_values() {
    assert_eq!(MushroomValue::Int(5).kind(), ValueKind::Int);
    assert_eq!(MushroomValue::Float(0).kind(), ValueKind::Float);
    assert_eq!(MushroomValue::Double(0).kind(), ValueKind::Double);
    assert_eq!(MushroomValue::Protobuf(vec![]).kind(), ValueKind::ProtoBuf);
    assert_eq!(MushroomValue::ByteArray(vec![]).kind(), ValueKind::Raw);
    assert_eq!(MushroomValue::StringArray(vec![]).kind(), ValueKind::StringArray);
}

#[test]
fn duplicate_keeps_content() {
    let v = MushroomValue::StringArray(vec!["p".to_string(), "q".to_string()]);
    assert_eq!(v.duplicate(), v);
}

#[test]
fn text_of_strings_booleans_and_integers() {
    assert_eq!(MushroomValue::String("abc".to_string()).to_text(), Some("abc".to_string()));
    assert_eq!(MushroomValue::Boolean(true).to_text(), Some("true".to_string()));
    assert_eq!(MushroomValue::Boolean(false).to_text(), Some("false".to_string()));
    assert_eq!(MushroomValue::Int(0).to_text(), Some("0".to_string()));
    assert_eq!(MushroomValue::Int(-4507).to_text(), Some("-4507".to_string()));
    assert_eq!(MushroomValue::Int(i64::MIN).to_text(), Some(i64::MIN.to_string()));
    assert_eq!(MushroomValue::Int(i64::MAX).to_text(), Some(i64::MAX.to_string()));
    assert_eq!(MushroomValue::Double(1.0f64.to_bits()).to_text(), None);
    assert_eq!(MushroomValue::IntArray(vec![1]).to_text(), None);
}
