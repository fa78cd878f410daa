use oris_runtime::kernel::event::KernelError;
use oris_runtime::runtime::schema::{check_schema, is_valid_schema_ident};

#[test]
fn schema_names_are_plain_identifiers() {
    assert!(is_valid_schema_ident("public"));
    assert!(is_valid_schema_ident("oris_runtime_2"));
    assert!(is_valid_schema_ident("_"));
    assert!(!is_valid_schema_ident(""));
    assert!(!is_valid_schema_ident("my-schema"));
    assert!(!is_valid_schema_ident("a\"; DROP TABLE x; --"));
    assert!(!is_valid_schema_ident("schéma"));
    assert!(!is_valid_schema_ident("two words"));
}

#[test]
fn an_invalid_schema_is_a_driver_error() {
    assert!(check_schema("public").is_ok());
    match check_schema("bad name") {
        Err(KernelError::Driver(m)) => assert_eq!(m, "invalid schema: bad name"),
        other => panic!("unexpected: {:?}", other),
    }
}
