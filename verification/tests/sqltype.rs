use squeel::sqltype::{optional, type_defined, type_to_sql, FieldType, SqlType, TypeArg};

fn path(name: &str) -> FieldType {
    FieldType::Path { name: name.to_string(), args: None }
}

fn generic(name: &str, args: Vec<TypeArg>) -> FieldType {
    FieldType::Path { name: name.to_string(), args: Some(args) }
}

#[test]
fn scalar_types_map_to_storage_classes() {
    assert_eq!(type_to_sql(&path("String")), SqlType::Text);
    for n in ["u8", "u16", "u32", "i8", "i16", "i32"] {
        assert_eq!(type_to_sql(&path(n)), SqlType::Integer);
    }
    assert_eq!(type_to_sql(&path("u64")), SqlType::Text);
    assert_eq!(type_to_sql(&path("f32")), SqlType::Real);
    assert_eq!(type_to_sql(&path("f64")), SqlType::Real);
    assert_eq!(type_to_sql(&path("ReadState")), SqlType::Text);
    assert_eq!(type_to_sql(&FieldType::Other), SqlType::Text);
    assert_eq!(SqlType::Integer.keyword(), "INTEGER");
    assert_eq!(SqlType::Blob.keyword(), "BLOB");
}

#[test]
fn options_and_references_map_to_what_they_hold() {
    let opt = generic("Option", vec![TypeArg::Type(path("u32"))]);
    assert_eq!(type_to_sql(&opt), SqlType::Integer);
    assert!(optional(&opt));
    let r = FieldType::Reference(Box::new(generic("Option", vec![TypeArg::Type(path("f64"))])));
    assert_eq!(type_to_sql(&r), SqlType::Real);
    assert!(optional(&r));
    assert!(!optional(&path("u32")));
    assert_eq!(type_to_sql(&generic("Option", vec![TypeArg::Other])), SqlType::Text);
    assert_eq!(type_to_sql(&path("Option")), SqlType::Text);
    assert!(optional(&path("Option")));
}

#[test]
fn byte_vectors_and_arrays_are_blobs() {
    assert_eq!(type_to_sql(&generic("Vec", vec![TypeArg::Type(path("u8"))])), SqlType::Blob);
    assert_eq!(type_to_sql(&generic("Vec", vec![TypeArg::Type(path("u16"))])), SqlType::Text);
    assert_eq!(type_to_sql(&FieldType::Array(Box::new(path("u8")))), SqlType::Blob);
    assert_eq!(type_to_sql(&FieldType::Array(Box::new(path("i8")))), SqlType::Text);
}

#[test]
fn empty_angle_brackets_have_no_storage_class() {
    assert!(!type_defined(&generic("Option", vec![])));
    assert!(!type_defined(&generic("Vec", vec![])));
    assert!(!type_defined(&generic("Option", vec![TypeArg::Type(generic("Option", vec![]))])));
    assert!(type_defined(&generic("HashMap", vec![])));
    assert!(type_defined(&generic("Option", vec![TypeArg::Type(path("u8"))])));
}
