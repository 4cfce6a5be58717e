use orc_rs::codec::{decode, encode, FlatType};
use orc_rs::data_type::{
    create_list_type, create_map_type, create_primitive_type, create_struct_type, DataType, Field,
    ThinType, TypeKind,
};
use orc_rs::error::Error;

fn leaf(kind: TypeKind) -> Box<DataType> {
    create_primitive_type(&kind).unwrap()
}

/// Struct{a: Long, b: Struct{c: Int, d: Int}}
fn nested_struct() -> DataType {
    let mut inner = *create_struct_type().unwrap();
    inner.add_field(Field { name: "c".to_string(), datatype: leaf(TypeKind::Int) }).unwrap();
    inner.add_field(Field { name: "d".to_string(), datatype: leaf(TypeKind::Int) }).unwrap();
    let mut root = *create_struct_type().unwrap();
    root.add_field(Field { name: "a".to_string(), datatype: leaf(TypeKind::Long) }).unwrap();
    root.add_field(Field { name: "b".to_string(), datatype: Box::new(inner) }).unwrap();
    root
}

#[test]
fn test_preorder_numbering() {
    let mut root = nested_struct();
    let next = root.assign_column_ids(0);
    assert_eq!(next, 5);
    assert_eq!(root.column_id, Some(0));
    assert_eq!(root.maximum_column_id, Some(4));
    let a = root.get_subtype(0).unwrap();
    assert_eq!(a.column_id, Some(1));
    assert_eq!(a.maximum_column_id, Some(1));
    let b = root.get_subtype(1).unwrap();
    assert_eq!(b.column_id, Some(2));
    assert_eq!(b.maximum_column_id, Some(4));
    let c = b.get_subtype(0).unwrap();
    assert_eq!(c.column_id, Some(3));
    let d = b.get_subtype(1).unwrap();
    assert_eq!(d.column_id, Some(4));
}

#[test]
fn test_numbering_restarts_deterministically() {
    let mut root = nested_struct();
    root.assign_column_ids(0);
    let first = root.get_subtype(1).unwrap().column_id;
    let next = root.assign_column_ids(0);
    assert_eq!(next, 5);
    assert_eq!(root.get_subtype(1).unwrap().column_id, first);
}

#[test]
fn test_numbering_from_offset() {
    let mut list = *create_list_type(leaf(TypeKind::String)).unwrap();
    let next = list.assign_column_ids(7);
    assert_eq!(next, 9);
    assert_eq!(list.column_id, Some(7));
    assert_eq!(list.maximum_column_id, Some(8));
    assert_eq!(list.get_subtype(0).unwrap().column_id, Some(8));
}

#[test]
fn test_encode_decode_round_trip() {
    let inner = nested_struct();
    let mut root = *create_struct_type().unwrap();
    root.add_field(Field { name: "rows".to_string(), datatype: Box::new(inner) }).unwrap();
    let map_type = create_map_type(leaf(TypeKind::Int), leaf(TypeKind::String)).unwrap();
    let list_of_maps = create_list_type(map_type).unwrap();
    root.add_field(Field { name: "index".to_string(), datatype: list_of_maps }).unwrap();
    root.add_field(
        Field {
            name: "price".to_string(),
            datatype: Box::new(DataType::new(ThinType::Decimal(10, 2))),
        },
    ).unwrap();
    root.add_field(
        Field { name: "tag".to_string(), datatype: Box::new(DataType::new(ThinType::Varchar(16))) },
    ).unwrap();
    root.assign_column_ids(0);
    let flat = encode(&root);
    assert_eq!(flat.len(), 12);
    assert_eq!(flat[0].kind, TypeKind::Struct);
    assert_eq!(flat[0].subtypes, vec![1, 6, 10, 11]);
    assert_eq!(
        flat[0].field_names,
        vec!["rows".to_string(), "index".to_string(), "price".to_string(), "tag".to_string()]
    );
    assert_eq!(flat[6].kind, TypeKind::List);
    assert_eq!(flat[6].subtypes, vec![7]);
    assert_eq!(flat[7].kind, TypeKind::Mapping);
    assert_eq!(flat[7].subtypes, vec![8, 9]);
    assert_eq!(flat[10].kind, TypeKind::Decimal);
    assert_eq!(flat[10].precision, Some(10));
    assert_eq!(flat[10].scale, Some(2));
    assert_eq!(flat[11].kind, TypeKind::Varchar);
    assert_eq!(flat[11].maximum_length, Some(16));
    let back = decode(&flat).unwrap();
    assert_eq!(*back, root);
    // a second round trip re-encodes to the same array
    assert_eq!(encode(&back), flat);
}

fn plain(kind: TypeKind, subtypes: Vec<usize>) -> FlatType {
    FlatType {
        kind,
        subtypes,
        field_names: Vec::new(),
        precision: None,
        scale: None,
        maximum_length: None,
    }
}

#[test]
fn test_decode_rejects_out_of_range_subtype() {
    let flat = vec![
        FlatType {
            kind: TypeKind::Struct,
            subtypes: vec![1, 2],
            field_names: vec!["x".to_string(), "y".to_string()],
            precision: None,
            scale: None,
            maximum_length: None,
        },
        plain(TypeKind::Int, vec![]),
        plain(TypeKind::List, vec![99]),
    ];
    assert!(matches!(decode(&flat), Err(Error::ParseError(_))));
}

#[test]
fn test_decode_rejects_two_cycle() {
    let flat = vec![plain(TypeKind::List, vec![1]), plain(TypeKind::List, vec![0])];
    assert!(matches!(decode(&flat), Err(Error::ParseError(_))));
}

#[test]
fn test_decode_rejects_malformed_shapes() {
    // a scalar claiming a child
    let flat = vec![plain(TypeKind::Struct, vec![1]), plain(TypeKind::Int, vec![2])];
    assert!(matches!(decode(&flat), Err(Error::ParseError(_))));
    // an unreachable trailing entry
    let flat = vec![plain(TypeKind::Int, vec![]), plain(TypeKind::Int, vec![])];
    assert!(matches!(decode(&flat), Err(Error::ParseError(_))));
    // an empty array has no root
    let flat: Vec<FlatType> = Vec::new();
    assert!(matches!(decode(&flat), Err(Error::ParseError(_))));
    // a decimal slot without its parameters
    let flat = vec![plain(TypeKind::Decimal, vec![])];
    assert!(matches!(decode(&flat), Err(Error::ParseError(_))));
}

#[test]
fn test_decode_single_leaf() {
    let flat = vec![plain(TypeKind::Boolean, vec![])];
    let t = decode(&flat).unwrap();
    assert_eq!(t.thin_type, ThinType::Boolean);
    assert_eq!(t.column_id, Some(0));
    assert_eq!(t.maximum_column_id, Some(0));
}

#[test]
fn test_has_orc_magic() {
    assert!(orc_rs::common::has_orc_magic(&vec![79, 82, 67, 1]));
    assert!(!orc_rs::common::has_orc_magic(&vec![79, 82]));
    assert!(!orc_rs::common::has_orc_magic(&vec![80, 82, 67]));
}
