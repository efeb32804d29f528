use binn::{BinnObject, BinnScalar, BinnValue, Float32Bits, Float64Bits, WrongBinnValue};

#[test]
fn create_object_test() {
    let _binn = BinnObject::new();
}

#[test]
fn setters_getters_test() {
    let mut binn = BinnObject::new();

    let hello: Vec<u8> = b"hello".to_vec();

    binn.set(b"i8", 42i8);
    binn.set(b"i16", 42i16);
    binn.set(b"i32", 42i32);
    binn.set(b"i64", 42i64);
    binn.set(b"u8", 42u8);
    binn.set(b"u16", 42u16);
    binn.set(b"u32", 42u32);
    binn.set(b"u64", 42u64);
    binn.set(b"f32", Float32Bits(3.14f32.to_bits()));
    binn.set(b"f64", Float64Bits(3.14f64.to_bits()));
    binn.set(b"bool", true);
    binn.set(b"str", hello.clone());

    assert_eq!(binn.get_as::<i8>(b"i8"), Some(42));
    assert_eq!(binn.get_as::<i16>(b"i16"), Some(42));
    assert_eq!(binn.get_as::<i32>(b"i32"), Some(42));
    assert_eq!(binn.get_as::<i64>(b"i64"), Some(42));
    assert_eq!(binn.get_as::<u8>(b"u8"), Some(42));
    assert_eq!(binn.get_as::<u16>(b"u16"), Some(42));
    assert_eq!(binn.get_as::<u32>(b"u32"), Some(42));
    assert_eq!(binn.get_as::<u64>(b"u64"), Some(42));
    assert_eq!(binn.get_as::<Float32Bits>(b"f32"), Some(Float32Bits(3.14f32.to_bits())));
    assert_eq!(f32::from_bits(binn.get_as::<Float32Bits>(b"f32").unwrap().0), 3.14f32);
    assert_eq!(binn.get_as::<Float64Bits>(b"f64"), Some(Float64Bits(3.14f64.to_bits())));
    assert_eq!(f64::from_bits(binn.get_as::<Float64Bits>(b"f64").unwrap().0), 3.14f64);
    assert_eq!(binn.get_as::<bool>(b"bool"), Some(true));
    assert_eq!(binn.get_as::<Vec<u8>>(b"str"), Some(hello));
    assert_eq!(binn.get_as::<bool>(b"random"), None);
}

#[test]
fn example_scenario() {
    let mut c = BinnObject::new();
    c.set(b"count", 42i32);
    c.set(b"name", b"hello".to_vec());
    assert_eq!(c.get_as::<i32>(b"count"), Some(42));
    assert_eq!(c.get_as::<Vec<u8>>(b"name"), Some(b"hello".to_vec()));
    assert_eq!(c.get_as::<i32>(b"name"), None);
    assert_eq!(c.get_as::<i32>(b"absent"), None);
}

#[test]
fn absence_every_type() {
    let o = BinnObject::new();
    assert_eq!(o.get_as::<i8>(b"missing-key"), None);
    assert_eq!(o.get_as::<i16>(b"missing-key"), None);
    assert_eq!(o.get_as::<i32>(b"missing-key"), None);
    assert_eq!(o.get_as::<i64>(b"missing-key"), None);
    assert_eq!(o.get_as::<u8>(b"missing-key"), None);
    assert_eq!(o.get_as::<u16>(b"missing-key"), None);
    assert_eq!(o.get_as::<u32>(b"missing-key"), None);
    assert_eq!(o.get_as::<u64>(b"missing-key"), None);
    assert_eq!(o.get_as::<Float32Bits>(b"missing-key"), None);
    assert_eq!(o.get_as::<Float64Bits>(b"missing-key"), None);
    assert_eq!(o.get_as::<bool>(b"missing-key"), None);
    assert_eq!(o.get_as::<Vec<u8>>(b"missing-key"), None);
    assert!(o.get(b"missing-key").is_none());
}

#[test]
fn type_mismatch() {
    let mut o = BinnObject::new();
    o.set(b"k", 42i32);
    assert_eq!(o.get_as::<bool>(b"k"), None);
    assert_eq!(o.get_as::<i8>(b"k"), None);
    assert_eq!(o.get_as::<u32>(b"k"), None);
    assert_eq!(o.get_as::<i64>(b"k"), None);
    assert_eq!(o.get_as::<Vec<u8>>(b"k"), None);
    assert_eq!(o.get_as::<i32>(b"k"), Some(42));
}

#[test]
fn overwrite() {
    let mut o = BinnObject::new();
    o.set(b"k", 1u32);
    o.set(b"k", 2u32);
    assert_eq!(o.get_as::<u32>(b"k"), Some(2));
    o.set(b"k", b"text".to_vec());
    assert_eq!(o.get_as::<u32>(b"k"), None);
    assert_eq!(o.get_as::<Vec<u8>>(b"k"), Some(b"text".to_vec()));
}

#[test]
fn multi_key_independence() {
    let mut o = BinnObject::new();
    o.set(b"key_b", 7i64);
    o.set(b"key_a", 1000i64);
    assert_eq!(o.get_as::<i64>(b"key_b"), Some(7));
    o.set(b"key_a", 2000i64);
    assert_eq!(o.get_as::<i64>(b"key_b"), Some(7));
    assert_eq!(o.get_as::<i64>(b"key_a"), Some(2000));
}

#[test]
fn lifecycle_cycles() {
    for round in 0..200u32 {
        let mut o = BinnObject::new();
        o.set(b"n", round);
        o.set(b"s", b"payload".to_vec());
        assert_eq!(o.get_as::<u32>(b"n"), Some(round));
    }
}

#[test]
fn invalid_key_leaves_container_unchanged() {
    let mut o = BinnObject::new();
    o.set(b"ok", 1i32);
    o.set(b"", 2i32);
    o.set(b"bad\0key", 3i32);
    assert_eq!(o.get_as::<i32>(b"ok"), Some(1));
    assert_eq!(o.get_as::<i32>(b""), None);
    assert_eq!(o.get_as::<i32>(b"bad\0key"), None);
}

#[test]
fn nul_in_text_leaves_container_unchanged() {
    let mut o = BinnObject::new();
    o.set(b"k", b"a\0b".to_vec());
    assert!(o.get(b"k").is_none());
    o.set(b"k", b"ab".to_vec());
    assert_eq!(o.get_as::<Vec<u8>>(b"k"), Some(b"ab".to_vec()));
}

#[test]
fn narrowing_reports_wrong_variant() {
    let v = 7i32.into_value();
    assert!(matches!(v, BinnValue::Int32(7)));
    let r: Result<bool, WrongBinnValue> = bool::try_from_value(v);
    assert!(r.is_err());

    let v = true.into_value();
    let r: Result<bool, WrongBinnValue> = bool::try_from_value(v);
    assert!(matches!(r, Ok(true)));

    let mut o = BinnObject::new();
    o.set(b"k", 7i32);
    let raw = o.get(b"k").unwrap();
    assert!(i64::try_from_value(raw).is_err());
}

#[test]
fn raw_get_yields_tagged_value() {
    let mut o = BinnObject::new();
    o.set(b"k", 42i16);
    let v = o.get(b"k");
    assert!(matches!(v, Some(BinnValue::Int16(42))));
    o.set(b"k", false);
    let v = o.get(b"k");
    assert!(matches!(v, Some(BinnValue::Bool(false))));
}
