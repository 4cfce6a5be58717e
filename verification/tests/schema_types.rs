use orc_rs::data_type::{create_primitive_type, ThinType, TypeKind};
use orc_rs::error::Error;

#[test]
fn test_type_kind_primitive() {
    let type_kind = TypeKind::Boolean;
    assert!(type_kind.is_primitive());

    let type_kind = TypeKind::List;
    assert!(!type_kind.is_primitive());
}

#[test]
fn test_type_kind_char() {
    let type_kind = TypeKind::Char;
    assert!(type_kind.is_char());

    let type_kind = TypeKind::List;
    assert!(!type_kind.is_char());
}

#[test]
fn test_type_kind_from_thin_type() {
    let thin_type = ThinType::Boolean;
    assert_eq!(TypeKind::from(thin_type), TypeKind::Boolean);

    let thin_type = ThinType::Decimal(26, 6);
    assert_eq!(TypeKind::from(thin_type), TypeKind::Decimal);

    let entry_datatype = create_primitive_type(&TypeKind::Long).unwrap();
    let list_thin_type = ThinType::List(entry_datatype);
    assert_eq!(TypeKind::from(list_thin_type), TypeKind::List);
}

#[test]
fn test_thin_type_from_type_kind() {
    let type_kind = TypeKind::Boolean;
    assert_eq!(ThinType::try_from(type_kind).unwrap(), ThinType::Boolean);
}

#[test]
#[should_panic(expected = "Can not convert a non-primitive TypeKind to a ThinType")]
fn test_thin_type_from_type_kind_panic() {
    let type_kind = TypeKind::Struct;
    ThinType::try_from(type_kind).unwrap();
}

#[test]
fn test_() {}

#[test]
fn test_thin_type_from_composite_kinds_fails() {
    for kind in [
        TypeKind::Struct,
        TypeKind::Mapping,
        TypeKind::List,
        TypeKind::Union,
        TypeKind::Decimal,
        TypeKind::Char,
        TypeKind::Varchar,
    ] {
        let r = ThinType::try_from(kind);
        assert!(matches!(r, Err(Error::DataTypeError(_))));
    }
}

#[test]
fn test_primitive_round_trip_every_kind() {
    for kind in [
        TypeKind::Boolean,
        TypeKind::Byte,
        TypeKind::Short,
        TypeKind::Int,
        TypeKind::Long,
        TypeKind::Float,
        TypeKind::Double,
        TypeKind::String,
        TypeKind::Binary,
        TypeKind::Timestamp,
        TypeKind::Date,
        TypeKind::TimestampInstant,
    ] {
        assert!(kind.is_primitive());
        let thin = ThinType::try_from(kind).unwrap();
        assert_eq!(TypeKind::from(thin), kind);
    }
}

#[test]
fn test_kind_ordinals() {
    assert_eq!(TypeKind::Boolean.ordinal(), 0);
    assert_eq!(TypeKind::Long.ordinal(), 4);
    assert_eq!(TypeKind::List.ordinal(), 10);
    assert_eq!(TypeKind::Mapping.ordinal(), 11);
    assert_eq!(TypeKind::Struct.ordinal(), 12);
    assert_eq!(TypeKind::TimestampInstant.ordinal(), 18);
}

#[test]
fn test_error_messages() {
    let e = Error::General("g".to_string());
    assert_eq!(e.message(), "g");
    let e = Error::ParseError("p".to_string());
    assert_eq!(e.message(), "p");
    let e = Error::DataTypeError("d".to_string());
    assert_eq!(e.message(), "d");
    let e = Error::External("x".to_string());
    assert_eq!(e.message(), "x");
}
