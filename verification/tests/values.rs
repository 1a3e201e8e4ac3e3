use kdl_doc::value::{
    Base, KDL_Value_bool, KDL_Value_float, KDL_Value_int, KDL_Value_null, KDL_Value_string,
    KDL_Value_which, KdlValueWhich, StringKind, Value,
};

fn samples() -> Vec<Value> {
    vec![
        Value::Null,
        Value::Bool(true),
        Value::Bool(false),
        Value::Int(-3, Base::Two),
        Value::Int(8, Base::Eight),
        Value::Int(10, Base::Ten),
        Value::Int(255, Base::Sixteen),
        Value::Float(2.5f64.to_bits()),
        Value::String("quoted".to_string(), StringKind::Quoted),
        Value::String("raw".to_string(), StringKind::Raw),
    ]
}

#[test]
fn value_string_hands_out_text_of_both_kinds_of_string() {
    let expected = [None, None, None, None, None, None, None, None, Some("quoted"), Some("raw")];
    for (value, expected) in samples().iter().zip(expected) {
        let mut out = "before";
        let ok = KDL_Value_string(value, &mut out);
        assert_eq!(ok, expected.is_some());
        assert_eq!(out, expected.unwrap_or(""));
    }
    let empty = Value::String(String::new(), StringKind::Raw);
    let mut out = "before";
    assert!(KDL_Value_string(&empty, &mut out));
    assert_eq!(out, "");
}

#[test]
fn value_string_borrows_from_the_value() {
    let value = Value::String("text".to_string(), StringKind::Quoted);
    let mut out = "";
    assert!(KDL_Value_string(&value, &mut out));
    match &value {
        Value::String(text, _) => assert_eq!(out.as_ptr(), text.as_ptr()),
        _ => unreachable!(),
    }
}

#[test]
fn value_int_hands_out_the_number_in_every_base() {
    let expected =
        [None, None, None, Some(-3), Some(8), Some(10), Some(255), None, None, None];
    for (value, expected) in samples().iter().zip(expected) {
        let mut out: i64 = 77;
        let ok = KDL_Value_int(value, &mut out);
        assert_eq!(ok, expected.is_some());
        assert_eq!(out, expected.unwrap_or(0));
    }
    for number in [i64::MIN, -1, 0, 1, i64::MAX] {
        let mut out: i64 = 77;
        assert!(KDL_Value_int(&Value::Int(number, Base::Sixteen), &mut out));
        assert_eq!(out, number);
    }
}

#[test]
fn value_float_hands_out_the_bit_pattern() {
    let expected: [Option<f64>; 10] =
        [None, None, None, None, None, None, None, Some(2.5), None, None];
    for (value, expected) in samples().iter().zip(expected) {
        let mut out: u64 = 77;
        let ok = KDL_Value_float(value, &mut out);
        assert_eq!(ok, expected.is_some());
        assert_eq!(out, expected.map_or(0, f64::to_bits));
        assert_eq!(f64::from_bits(out), expected.unwrap_or(0.0));
    }
    for bits in [0u64, 1, f64::NAN.to_bits(), f64::INFINITY.to_bits(), (-0.0f64).to_bits(), u64::MAX] {
        let mut out: u64 = 77;
        assert!(KDL_Value_float(&Value::Float(bits), &mut out));
        assert_eq!(out, bits);
    }
}

#[test]
fn value_bool_hands_out_the_truth_value() {
    let expected =
        [None, Some(true), Some(false), None, None, None, None, None, None, None];
    for (value, expected) in samples().iter().zip(expected) {
        let mut out = true;
        let ok = KDL_Value_bool(value, &mut out);
        assert_eq!(ok, expected.is_some());
        assert_eq!(out, expected.unwrap_or(false));
    }
}

#[test]
fn value_null_is_true_of_null_alone() {
    let expected = [true, false, false, false, false, false, false, false, false, false];
    for (value, expected) in samples().iter().zip(expected) {
        assert_eq!(KDL_Value_null(value), expected);
    }
    assert!(!KDL_Value_null(&Value::Int(0, Base::Ten)));
    assert!(!KDL_Value_null(&Value::String(String::new(), StringKind::Quoted)));
    assert!(!KDL_Value_null(&Value::Float(0)));
}

#[test]
fn value_which_names_variant_and_provenance() {
    let expected = [
        KdlValueWhich::Null,
        KdlValueWhich::Bool,
        KdlValueWhich::Bool,
        KdlValueWhich::Base2,
        KdlValueWhich::Base8,
        KdlValueWhich::Base10,
        KdlValueWhich::Base16,
        KdlValueWhich::Base10Float,
        KdlValueWhich::String,
        KdlValueWhich::RawString,
    ];
    for (value, expected) in samples().iter().zip(expected) {
        assert_eq!(KDL_Value_which(value), expected);
    }
}

#[test]
fn which_codes() {
    assert_eq!(KdlValueWhich::Null.code(), 0x00);
    assert_eq!(KdlValueWhich::RawString.code(), 0x10);
    assert_eq!(KdlValueWhich::String.code(), 0x11);
    assert_eq!(KdlValueWhich::Base2.code(), 0x20);
    assert_eq!(KdlValueWhich::Base8.code(), 0x21);
    assert_eq!(KdlValueWhich::Base10.code(), 0x22);
    assert_eq!(KdlValueWhich::Base16.code(), 0x23);
    assert_eq!(KdlValueWhich::Base10Float.code(), 0x40);
    assert_eq!(KdlValueWhich::Bool.code(), 0x80);
}

#[test]
fn which_decides_which_extraction_applies() {
    for value in samples() {
        let family = KDL_Value_which(&value).code() >> 4;
        let mut text = "";
        let mut number = 0i64;
        let mut bits = 0u64;
        let mut truth = false;
        assert_eq!(KDL_Value_string(&value, &mut text), family == 1);
        assert_eq!(KDL_Value_int(&value, &mut number), family == 2);
        assert_eq!(KDL_Value_float(&value, &mut bits), family == 4);
        assert_eq!(KDL_Value_bool(&value, &mut truth), family == 8);
        assert_eq!(KDL_Value_null(&value), family == 0);
    }
}

#[test]
fn radix_of_each_base() {
    assert_eq!(Base::Two.radix(), 2);
    assert_eq!(Base::Eight.radix(), 8);
    assert_eq!(Base::Ten.radix(), 10);
    assert_eq!(Base::Sixteen.radix(), 16);
}

#[test]
fn integers_are_equal_by_number_whatever_the_base() {
    let bases = [Base::Two, Base::Eight, Base::Ten, Base::Sixteen];
    for a in bases {
        for b in bases {
            assert!(Value::Int(26, a) == Value::Int(26, b));
            assert!(Value::Int(26, a) != Value::Int(27, b));
            assert!(Value::Int(-1, a) != Value::Int(1, b));
        }
    }
}

#[test]
fn strings_are_equal_by_text_whatever_the_kind() {
    let quoted = Value::String("a\\b".to_string(), StringKind::Quoted);
    let raw = Value::String("a\\b".to_string(), StringKind::Raw);
    let other = Value::String("a\\c".to_string(), StringKind::Raw);
    assert!(quoted == raw);
    assert!(raw == quoted);
    assert!(quoted != other);
    assert!(Value::String(String::new(), StringKind::Raw) == Value::String(String::new(), StringKind::Quoted));
}

#[test]
fn values_of_different_variants_are_never_equal() {
    let distinct = [
        Value::Null,
        Value::Bool(false),
        Value::Int(0, Base::Ten),
        Value::Float(0),
        Value::String(String::new(), StringKind::Quoted),
    ];
    for (i, a) in distinct.iter().enumerate() {
        for (j, b) in distinct.iter().enumerate() {
            assert_eq!(a == b, i == j);
        }
    }
    assert!(Value::Bool(true) != Value::Bool(false));
    assert!(Value::Int(1, Base::Ten) != Value::Float(1.0f64.to_bits()));
    assert!(Value::String("1".to_string(), StringKind::Quoted) != Value::Int(1, Base::Ten));
    assert!(Value::String("null".to_string(), StringKind::Raw) != Value::Null);
}

#[test]
fn floats_are_equal_by_bit_pattern() {
    assert!(Value::Float(1.5f64.to_bits()) == Value::Float(1.5f64.to_bits()));
    assert!(Value::Float(1.5f64.to_bits()) != Value::Float(2.5f64.to_bits()));
    assert!(Value::Float(0.0f64.to_bits()) != Value::Float((-0.0f64).to_bits()));
    assert!(Value::Float(f64::NAN.to_bits()) == Value::Float(f64::NAN.to_bits()));
}

#[test]
fn equality_of_values_is_an_equivalence_on_samples() {
    let mut all = samples();
    all.push(Value::Int(10, Base::Two));
    all.push(Value::String("raw".to_string(), StringKind::Quoted));
    for a in &all {
        assert!(a == a);
        for b in &all {
            assert_eq!(a == b, b == a);
            for c in &all {
                if a == b && b == c {
                    assert!(a == c);
                }
            }
        }
    }
}
