use std::rc::Rc;

use lox_vm::object::{Obj, ObjString, ObjType};
use lox_vm::value::Value;

fn string_value(text: &str) -> Value {
    Value::new_obj_string(text.as_bytes().to_vec())
}

#[test]
fn constructors_and_predicates() {
    assert!(Value::new_bool(true).is_bool());
    assert!(Value::new_nil().is_nil());
    assert!(Value::new_number(3).is_number());
    assert!(string_value("x").is_obj());
    assert!(string_value("x").is_string());
    assert!(!Value::new_number(3).is_string());
    assert!(!Value::new_nil().is_number());

    assert!(Value::new_bool(true).as_bool());
    assert_eq!(Value::new_number(-7).as_number(), -7);
    assert_eq!(string_value("abc").as_rust_string(), &"abc".as_bytes().to_vec());

    let obj = Rc::new(ObjString::new("shared".as_bytes().to_vec()));
    let v = Value::new_obj(obj.clone());
    assert_eq!(v.as_string().string, "shared".as_bytes().to_vec());
    assert_eq!(v.obj_type(), ObjType::ObjString);
    assert!(v.is_obj_type(ObjType::ObjString));
    assert_eq!(obj.obj_type(), ObjType::ObjString);
}

#[test]
fn falsey_is_nil_and_false_only() {
    // Falsey law on concrete values of every variant.
    assert!(Value::new_nil().is_falsey());
    assert!(Value::new_bool(false).is_falsey());
    assert!(!Value::new_bool(true).is_falsey());
    assert!(!Value::new_number(0).is_falsey());
    assert!(!Value::new_number(1).is_falsey());
    assert!(!string_value("").is_falsey());
    assert!(!string_value("false").is_falsey());
}

#[test]
fn equality_within_variants() {
    assert!(Value::new_nil().values_equal(&Value::new_nil()));
    assert!(Value::new_bool(true).values_equal(&Value::new_bool(true)));
    assert!(!Value::new_bool(true).values_equal(&Value::new_bool(false)));
    assert!(Value::new_number(4).values_equal(&Value::new_number(4)));
    assert!(!Value::new_number(4).values_equal(&Value::new_number(5)));
    assert!(string_value("hi").values_equal(&string_value("hi")));
    assert!(!string_value("hi").values_equal(&string_value("ho")));
}

#[test]
fn equality_is_symmetric_and_reflexive() {
    let values = [
        Value::new_nil(),
        Value::new_bool(false),
        Value::new_bool(true),
        Value::new_number(0),
        Value::new_number(-3),
        string_value(""),
        string_value("s"),
    ];
    for a in values.iter() {
        assert!(a.values_equal(a));
        for b in values.iter() {
            assert_eq!(a.values_equal(b), b.values_equal(a));
        }
    }
}

#[test]
fn cross_variant_values_are_never_equal() {
    let values = [
        Value::new_nil(),
        Value::new_bool(false),
        Value::new_number(0),
        string_value("0"),
    ];
    for (i, a) in values.iter().enumerate() {
        for (j, b) in values.iter().enumerate() {
            if i != j {
                assert!(!a.values_equal(b), "case {} vs {}", i, j);
            }
        }
    }
}

#[test]
fn clones_share_string_storage() {
    let v = string_value("shared text");
    let w = v.clone();
    assert!(v.values_equal(&w));
    match (&v, &w) {
        (Value::Object(a), Value::Object(b)) => assert!(Rc::ptr_eq(a, b)),
        _ => panic!("expected string objects"),
    }
}

#[test]
fn value_array_appends_and_clears() {
    let mut array = lox_vm::value::ValueArray { values: Vec::new() };
    array.write_value_array(Value::new_number(1));
    array.write_value_array(Value::new_number(2));
    assert_eq!(array.values.len(), 2);
    assert_eq!(array.values[1].as_number(), 2);
    array.free_value_array();
    assert_eq!(array.values.len(), 0);
}

#[test]
fn parse_int_reads_digit_strings() {
    assert_eq!(lox_vm::compiler::parse_int(&"123".as_bytes().to_vec()), Some(123));
    assert_eq!(lox_vm::compiler::parse_int(&"0".as_bytes().to_vec()), Some(0));
    assert_eq!(
        lox_vm::compiler::parse_int(&"9223372036854775807".as_bytes().to_vec()),
        Some(i64::MAX)
    );
    assert_eq!(lox_vm::compiler::parse_int(&"9223372036854775808".as_bytes().to_vec()), None);
    assert_eq!(lox_vm::compiler::parse_int(&"".as_bytes().to_vec()), None);
    assert_eq!(lox_vm::compiler::parse_int(&"12.5".as_bytes().to_vec()), None);
    assert_eq!(lox_vm::compiler::parse_int(&"12a".as_bytes().to_vec()), None);
}
