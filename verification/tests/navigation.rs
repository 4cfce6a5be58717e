use orc_rs::data_type::{
    create_char_type, create_decimal_type, create_list_type, create_map_type,
    create_primitive_type, create_struct_type, create_union_type, DataType, Field, ThinType,
    TypeKind,
};
use orc_rs::error::Error;

fn sample_struct() -> DataType {
    let mut st = *create_struct_type().unwrap();
    let long = create_primitive_type(&TypeKind::Long).unwrap();
    st.add_field(Field { name: "a".to_string(), datatype: long }).unwrap();
    let string_type = create_primitive_type(&TypeKind::String).unwrap();
    let list = create_list_type(string_type).unwrap();
    st.add_field(Field { name: "b".to_string(), datatype: list }).unwrap();
    st
}

#[test]
fn test_struct_field_names_and_subtypes() {
    let st = sample_struct();
    assert_eq!(st.subtype_count, 2);
    assert_eq!(st.get_field_name(0).unwrap(), "a");
    assert_eq!(st.get_field_name(1).unwrap(), "b");
    assert!(matches!(st.get_field_name(2), Err(Error::DataTypeError(_))));
    let b = st.get_subtype(1).unwrap();
    assert_eq!(b.thin_type.get_kind(), TypeKind::List);
    let elem = b.get_subtype(0).unwrap();
    assert_eq!(elem.thin_type, ThinType::String);
}

#[test]
fn test_map_subtypes() {
    let key = create_primitive_type(&TypeKind::Int).unwrap();
    let value = create_primitive_type(&TypeKind::String).unwrap();
    let map_type = create_map_type(key, value).unwrap();
    assert_eq!(map_type.get_subtype(0).unwrap().thin_type, ThinType::Int);
    assert_eq!(map_type.get_subtype(1).unwrap().thin_type, ThinType::String);
    assert!(matches!(map_type.get_subtype(2), Err(Error::DataTypeError(_))));
}

#[test]
fn test_scalar_has_no_subtypes_or_names() {
    let b = create_primitive_type(&TypeKind::Boolean).unwrap();
    assert!(matches!(b.get_subtype(0), Err(Error::DataTypeError(_))));
    assert!(matches!(b.get_field_name(0), Err(Error::DataTypeError(_))));
    assert!(matches!(b.get_maximum_length(), Err(Error::DataTypeError(_))));
    assert!(matches!(b.get_precision(), Err(Error::DataTypeError(_))));
    assert!(matches!(b.get_scale(), Err(Error::DataTypeError(_))));
}

#[test]
fn test_create_char_type_validates_kind() {
    assert!(matches!(
        create_char_type(&TypeKind::Boolean, 10),
        Err(Error::DataTypeError(_))
    ));
    let c = create_char_type(&TypeKind::Char, 10).unwrap();
    assert_eq!(c.get_maximum_length().unwrap(), 10);
    let v = create_char_type(&TypeKind::Varchar, 42).unwrap();
    assert_eq!(v.get_maximum_length().unwrap(), 42);
}

#[test]
fn test_create_decimal_type_validates_kind() {
    assert!(matches!(
        create_decimal_type(&TypeKind::Boolean, 10, 2),
        Err(Error::DataTypeError(_))
    ));
    let d = create_decimal_type(&TypeKind::Decimal, 10, 2).unwrap();
    assert_eq!(d.get_precision().unwrap(), 10);
    assert_eq!(d.get_scale().unwrap(), 2);
}

#[test]
fn test_create_primitive_type_rejects_composites() {
    assert!(matches!(
        create_primitive_type(&TypeKind::Struct),
        Err(Error::DataTypeError(_))
    ));
    let long = create_primitive_type(&TypeKind::Long).unwrap();
    assert_eq!(long.thin_type, ThinType::Long);
    assert_eq!(long.column_id, None);
    assert_eq!(long.maximum_column_id, None);
    assert_eq!(long.subtype_count, 0);
}

#[test]
fn test_union_alternatives() {
    let mut un = *create_union_type().unwrap();
    un.add_alternative(create_primitive_type(&TypeKind::Int).unwrap()).unwrap();
    un.add_alternative(create_primitive_type(&TypeKind::String).unwrap()).unwrap();
    assert_eq!(un.subtype_count, 2);
    assert_eq!(un.get_subtype(0).unwrap().thin_type, ThinType::Int);
    assert_eq!(un.get_subtype(1).unwrap().thin_type, ThinType::String);
    assert!(matches!(un.get_subtype(2), Err(Error::DataTypeError(_))));
    let leaf = create_primitive_type(&TypeKind::Int).unwrap();
    let mut not_a_struct = *leaf;
    assert!(matches!(
        not_a_struct.add_field(Field {
            name: "x".to_string(),
            datatype: create_primitive_type(&TypeKind::Int).unwrap()
        }),
        Err(Error::DataTypeError(_))
    ));
}

#[test]
fn test_new_caches_arity() {
    let key = create_primitive_type(&TypeKind::Int).unwrap();
    let value = create_primitive_type(&TypeKind::String).unwrap();
    let d = DataType::new(ThinType::Mapping(key, value));
    assert_eq!(d.subtype_count, 2);
    let d = DataType::new(ThinType::Decimal(5, 2));
    assert_eq!(d.subtype_count, 0);
}
