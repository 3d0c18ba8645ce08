use pipeflow::elem::{Elem, ElemValue, TypeTag};
use pipeflow::op_imm::{add, eq, filter, sub, Element};
use pipeflow::operator::load::{GraphemeImmediate, Load};
use pipeflow::operator::IOp;
use pipeflow::type_enum::SpecializedTypeId;
use pipeflow::BuildError;

#[test]
fn element_add() {
    let r = add(&Element::UINT(2), &Element::UINT(40));
    match r {
        Element::UINT(v) => assert_eq!(v, 42),
        other => panic!("wrong kind: {:?}", other),
    }
    let r = add(&Element::STR("ab".to_string()), &Element::STR("cd".to_string()));
    match r {
        Element::STR(s) => assert_eq!(s, "abcd"),
        other => panic!("wrong kind: {:?}", other),
    }
    let r = add(&Element::INT(-5), &Element::INT(3));
    match r {
        Element::INT(v) => assert_eq!(v, -2),
        other => panic!("wrong kind: {:?}", other),
    }
    let r = add(&Element::BOOL(true), &Element::BOOL(true));
    match r {
        Element::BOOL(v) => assert!(!v),
        other => panic!("wrong kind: {:?}", other),
    }
}

#[test]
fn element_sub() {
    let r = sub(&Element::UINT(40), &Element::UINT(2));
    match r {
        Element::UINT(v) => assert_eq!(v, 38),
        other => panic!("wrong kind: {:?}", other),
    }
    let r = sub(&Element::INT(3), &Element::INT(5));
    match r {
        Element::INT(v) => assert_eq!(v, -2),
        other => panic!("wrong kind: {:?}", other),
    }
}

#[test]
fn element_eq() {
    assert!(eq(&Element::STR("a".to_string()), &Element::STR("a".to_string())));
    assert!(!eq(&Element::STR("a".to_string()), &Element::STR("b".to_string())));
    assert!(eq(&Element::UINT(7), &Element::UINT(7)));
    assert!(!eq(&Element::INT(7), &Element::INT(8)));
}

#[test]
fn element_filter() {
    let kept = filter(&Element::UINT(1), &Element::BOOL(true));
    assert!(matches!(kept, Some(Element::UINT(1))));
    let dropped = filter(&Element::UINT(1), &Element::BOOL(false));
    assert!(dropped.is_none());
    let not_a_gate = filter(&Element::UINT(1), &Element::UINT(1));
    assert!(not_a_gate.is_none());
}

#[test]
fn elem_round_trip() {
    let e = 42u64.to_elem();
    assert_eq!(e.tag(), TypeTag::U64);
    assert_eq!(u64::of_elem(&e), Some(42));
    assert_eq!(usize::of_elem(&e), None);

    let e = "hi".to_string().to_elem();
    assert_eq!(String::of_elem(&e), Some("hi".to_string()));
    match e {
        Elem::Str(s) => assert_eq!(s, "hi"),
        other => panic!("wrong dynamic type: {:?}", other),
    }
}

#[test]
fn specialized_type_id() {
    assert_eq!(SpecializedTypeId::from(TypeTag::Str), SpecializedTypeId::Str);
    assert_eq!(SpecializedTypeId::from(TypeTag::U64), SpecializedTypeId::U64);
    assert_eq!(SpecializedTypeId::from(TypeTag::I64), SpecializedTypeId::I64);
    assert_eq!(SpecializedTypeId::from(TypeTag::USize), SpecializedTypeId::USize);
    assert_eq!(SpecializedTypeId::from(TypeTag::Unit), SpecializedTypeId::Other);
}

#[test]
fn load_immediate_parsing() {
    assert_eq!(u64::parse("42".to_string()).unwrap(), 42);
    assert_eq!(u64::parse("0".to_string()).unwrap(), 0);
    assert_eq!(
        u64::parse("18446744073709551615".to_string()).unwrap(),
        u64::MAX
    );
    assert_eq!(u64::parse("".to_string()), Err(BuildError::BadImmediate));
    assert_eq!(u64::parse("4x2".to_string()), Err(BuildError::BadImmediate));
    assert_eq!(u64::parse("-3".to_string()), Err(BuildError::BadImmediate));
    // one past the largest value overflows
    assert_eq!(
        u64::parse("18446744073709551616".to_string()),
        Err(BuildError::BadImmediate)
    );

    match Load::<u64>::new("7".to_string()) {
        Ok(op) => assert_eq!(op.exec(&()), vec![7u64]),
        Err(_) => panic!("a well-formed literal failed to parse"),
    }
    match Load::<u64>::new("x".to_string()) {
        Err(e) => assert_eq!(e, BuildError::BadImmediate),
        Ok(_) => panic!("an ill-formed literal parsed"),
    }
    match Load::<String>::new("hi".to_string()) {
        Ok(op) => assert_eq!(op.exec(&()), vec!["hi".to_string()]),
        Err(_) => panic!("a string literal failed to parse"),
    }
}
