use binn::{BinnObject, Float32Bits, Float64Bits};

#[test]
fn roundtrip_i8_boundaries() {
    let mut o = BinnObject::new();
    for v in [0i8, i8::MIN, i8::MAX, -1i8, 42i8] {
        o.set(b"k", v);
        assert_eq!(o.get_as::<i8>(b"k"), Some(v));
    }
}

#[test]
fn roundtrip_i16_boundaries() {
    let mut o = BinnObject::new();
    for v in [0i16, i16::MIN, i16::MAX, -1i16, 42i16] {
        o.set(b"k", v);
        assert_eq!(o.get_as::<i16>(b"k"), Some(v));
    }
}

#[test]
fn roundtrip_i32_boundaries() {
    let mut o = BinnObject::new();
    for v in [0i32, i32::MIN, i32::MAX, -1i32, 42i32] {
        o.set(b"k", v);
        assert_eq!(o.get_as::<i32>(b"k"), Some(v));
    }
}

#[test]
fn roundtrip_i64_boundaries() {
    let mut o = BinnObject::new();
    for v in [0i64, i64::MIN, i64::MAX, -1i64, 42i64] {
        o.set(b"k", v);
        assert_eq!(o.get_as::<i64>(b"k"), Some(v));
    }
}

#[test]
fn roundtrip_u8_boundaries() {
    let mut o = BinnObject::new();
    for v in [0u8, u8::MAX, 42u8] {
        o.set(b"k", v);
        assert_eq!(o.get_as::<u8>(b"k"), Some(v));
    }
}

#[test]
fn roundtrip_u16_boundaries() {
    let mut o = BinnObject::new();
    for v in [0u16, u16::MAX, 42u16] {
        o.set(b"k", v);
        assert_eq!(o.get_as::<u16>(b"k"), Some(v));
    }
}

#[test]
fn roundtrip_u32_boundaries() {
    let mut o = BinnObject::new();
    for v in [0u32, u32::MAX, 42u32] {
        o.set(b"k", v);
        assert_eq!(o.get_as::<u32>(b"k"), Some(v));
    }
}

#[test]
fn roundtrip_u64_boundaries() {
    let mut o = BinnObject::new();
    for v in [0u64, u64::MAX, 42u64] {
        o.set(b"k", v);
        assert_eq!(o.get_as::<u64>(b"k"), Some(v));
    }
}

#[test]
fn roundtrip_bool_both() {
    let mut o = BinnObject::new();
    for v in [true, false] {
        o.set(b"k", v);
        assert_eq!(o.get_as::<bool>(b"k"), Some(v));
    }
}

#[test]
fn roundtrip_float32_boundaries() {
    let mut o = BinnObject::new();
    for f in [0.0f32, -0.0f32, 3.14f32, -1.0f32, f32::MIN, f32::MAX, f32::NAN, f32::INFINITY] {
        let v = Float32Bits(f.to_bits());
        o.set(b"k", v);
        assert_eq!(o.get_as::<Float32Bits>(b"k"), Some(v));
    }
}

#[test]
fn roundtrip_float64_boundaries() {
    let mut o = BinnObject::new();
    for f in [0.0f64, -0.0f64, 3.14f64, -1.0f64, f64::MIN, f64::MAX, f64::NAN, f64::INFINITY] {
        let v = Float64Bits(f.to_bits());
        o.set(b"k", v);
        assert_eq!(o.get_as::<Float64Bits>(b"k"), Some(v));
    }
}

#[test]
fn roundtrip_str_empty_and_high_bytes() {
    let mut o = BinnObject::new();
    let empty: Vec<u8> = Vec::new();
    o.set(b"k", empty.clone());
    assert_eq!(o.get_as::<Vec<u8>>(b"k"), Some(empty));

    let high: Vec<u8> = vec![0xc3, 0xa9, 0x80, 0xff, b'x'];
    o.set(b"k", high.clone());
    assert_eq!(o.get_as::<Vec<u8>>(b"k"), Some(high));
}
