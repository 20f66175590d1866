use tl::parser::{Error, Type};
use tl::parse_schema;

/// The schema used across these tests.
const SCHEMA: &str = "type Message id:int32 text:string? photos:[bytes] sent_at:time = Message
type User id:int64 verified:bool rating:float = User
type UserEmpty id:int64 = User

error InvalidUserId user_id:int64
error TooLongText text:string max_length:int32

func get_users user_ids:[int64] = [User]
func send_message user_id:int64 text:string? photos:[bytes] = Message";

#[test]
fn definition_id() {
    let def = "type Message id:int32 text:string? photos:[bytes] sent_at:time";
    assert_eq!(tl::identify::compute_definition_id(def), 226668223);
}

#[test]
fn parses_a_full_schema() {
    let schema = parse_schema(SCHEMA).unwrap();
    assert_eq!(schema.types.len(), 3);
    assert_eq!(schema.errors.len(), 2);
    assert_eq!(schema.functions.len(), 1 + 1);
    assert_eq!(schema.types[0].core.name, "Message");
    assert_eq!(schema.types[1].enum_name, "User");
    assert_eq!(schema.types[2].core.name, "UserEmpty");
    assert_eq!(schema.types[2].enum_name, "User");
    assert_eq!(schema.errors[0].core.name, "InvalidUserId");
    assert_eq!(schema.functions[0].core.name, "get_users");
    assert_eq!(schema.functions[0].core.fields.len(), 1);
    assert_eq!(schema.functions[0].core.fields[0].name, "user_ids");
    assert!(matches!(schema.functions[0].ret, Type::Vector(_)));
    assert_eq!(
        schema.types[0].core.id,
        tl::identify::compute_definition_id(
            "type Message id:int32 text:string? photos:[bytes] sent_at:time = Message"
        )
    );
}

/// Re-parsing a byte-identical definition line in a different schema yields
/// the same identity.
#[test]
fn identity_is_stable_across_schemas() {
    let a = parse_schema("type User id:int64 = User").unwrap();
    let b = parse_schema("type Other text:string = Other\ntype User id:int64 = User").unwrap();
    assert_eq!(a.types[0].core.id, b.types[1].core.id);
    assert_ne!(a.types[0].core.id, b.types[0].core.id);
}

/// Two `type` lines with the same name are a duplicate definition.
#[test]
fn duplicate_type_is_rejected() {
    let r = parse_schema("type User id:int64 = User\ntype User text:string = User");
    assert!(matches!(r, Err(Error::DuplicateDefinition { line: 2 })));
}

/// Two `func` lines with the same name are a duplicate definition.
#[test]
fn duplicate_function_is_rejected() {
    let r = parse_schema("func f x:int32 = bool\nfunc f y:int64 = bool");
    assert!(matches!(r, Err(Error::DuplicateDefinition { line: 2 })));
}

/// Two fields with the same name on one line are a duplicate field.
#[test]
fn duplicate_field_is_rejected() {
    let r = parse_schema("type User id:int64 id:int32 = User");
    match r {
        Err(Error::DuplicateField { line, field }) => {
            assert_eq!(line, 1);
            assert_eq!(field, "id");
        },
        _ => panic!("expected a duplicate-field error"),
    }
}

/// An Option directly inside a Vector is rejected: `[bool?]` fails on the
/// inner Option-of-Bool violation, `[int32?]` on the Vector-of-Option rule.
#[test]
fn vector_of_option_is_rejected() {
    let r = parse_schema("type T x:[bool?] = T");
    match r {
        Err(Error::InvalidType { line, field, typ }) => {
            assert_eq!(line, 1);
            assert_eq!(field, "x");
            assert_eq!(typ, "Option<Bool>");
        },
        _ => panic!("expected an invalid-type error"),
    }
    let r2 = parse_schema("type T x:[int32?] = T");
    match r2 {
        Err(Error::InvalidType { line, field, typ }) => {
            assert_eq!(line, 1);
            assert_eq!(field, "x");
            assert_eq!(typ, "Vector<Option(Int32)>");
        },
        _ => panic!("expected an invalid-type error"),
    }
}

/// An Option directly inside an Option is rejected.
#[test]
fn option_of_option_is_rejected() {
    let r = parse_schema("type T x:bool?? = T");
    assert!(matches!(r, Err(Error::InvalidType { .. })));
}

/// An Option directly wrapping a Bool is rejected, while a plain optional
/// primitive is accepted.
#[test]
fn option_nesting_rules() {
    assert!(matches!(
        parse_schema("type T x:bool? = T"),
        Err(Error::InvalidType { .. })
    ));
    let ok = parse_schema("type T x:int32? = T").unwrap();
    assert!(matches!(ok.types[0].core.fields[0].typ, Type::Option(_)));
}

/// A reference to a variant group is legal only once a `type` line has
/// introduced the group.
#[test]
fn forward_reference_is_rejected() {
    let r = parse_schema("type A user:User = A\ntype User id:int64 = User");
    assert!(matches!(r, Err(Error::InvalidType { line: 1, .. })));
    let ok = parse_schema("type User id:int64 = User\ntype A user:User = A").unwrap();
    assert!(matches!(ok.types[1].core.fields[0].typ, Type::Defined(_)));
}

/// Blank lines and lines beginning with `#` are skipped.
#[test]
fn comments_and_blanks_are_skipped() {
    let s = parse_schema("# a comment\n\ntype User id:int64 = User\n#another\n").unwrap();
    assert_eq!(s.types.len(), 1);
    assert_eq!(s.errors.len(), 0);
}

/// An unknown first token is an invalid definition type.
#[test]
fn unknown_definition_kind_is_rejected() {
    let r = parse_schema("struct User id:int64");
    assert!(matches!(r, Err(Error::InvalidDefinitionType { line: 1 })));
}

/// A `type` line without its variant-group trailer is rejected.
#[test]
fn missing_enum_is_rejected() {
    assert!(matches!(
        parse_schema("type User id:int64"),
        Err(Error::EnumMissing { line: 1 })
    ));
    assert!(matches!(
        parse_schema("type User id:int64 ="),
        Err(Error::EnumMissing { line: 1 })
    ));
}

/// A `func` line without a return type is rejected.
#[test]
fn missing_function_type_is_rejected() {
    assert!(matches!(
        parse_schema("func f x:int32"),
        Err(Error::FunctionTypeMissing { line: 1 })
    ));
}

/// A field token without a type is rejected.
#[test]
fn missing_field_type_is_rejected() {
    let r = parse_schema("type User id = User");
    match r {
        Err(Error::FieldTypeMissing { line, field }) => {
            assert_eq!(line, 1);
            assert_eq!(field, "id");
        },
        _ => panic!("expected a missing-field-type error"),
    }
}

/// An empty schema text parses to the empty schema.
#[test]
fn empty_schema_parses() {
    let s = parse_schema("").unwrap();
    assert_eq!(s.types.len(), 0);
    assert_eq!(s.errors.len(), 0);
    assert_eq!(s.functions.len(), 0);
}

/// A definition kind with no name is rejected.
#[test]
fn missing_name_is_rejected() {
    assert!(matches!(
        parse_schema("type"),
        Err(Error::DefinitionNameMissing { line: 1 })
    ));
}

/// Two `error` lines with the same name are a duplicate definition.
#[test]
fn duplicate_error_is_rejected() {
    let r = parse_schema("error E text:string\nerror E code:int32");
    assert!(matches!(r, Err(Error::DuplicateDefinition { line: 2 })));
}
