use tl::hash::schema_digest;
use tl::identify::compute_definition_id;
use tl::{generate, parse_schema};

const SCHEMA: &str = "type User id:int64 verified:bool rating:float = User
error InvalidUserId user_id:int64
func get_users user_ids:[int64] = [User]";

/// Identical schema text always yields byte-identical generated output.
#[test]
fn generation_is_deterministic() {
    let a = generate(&parse_schema(SCHEMA).unwrap());
    let b = generate(&parse_schema(SCHEMA).unwrap());
    assert_eq!(a, b);
}

/// The generated document declares the three unions and the function shape,
/// with the function name turned Pascal-case.
#[test]
fn generated_document_shape() {
    let out = generate(&parse_schema(SCHEMA).unwrap());
    assert!(out.contains("pub enum Error {"));
    assert!(out.contains("pub enum Function {"));
    assert!(out.contains("pub mod types {"));
    assert!(out.contains("pub enum User {"));
    assert!(out.contains("pub mod functions {"));
    assert!(out.contains("pub struct GetUsers {"));
    assert!(out.contains("GetUsers(self::functions::GetUsers),"));
    assert!(out.contains("pub user_ids: Vec::<i64>,"));
    assert!(out.contains("type Return = Vec::<super::types::User>;"));
    assert!(out.contains("crate::deserialize::Error::UnexpectedDefinitionId(id)"));
}

/// Every definition's identity appears in the output as a 32-bit literal.
#[test]
fn generated_identities_match_the_lines() {
    let out = generate(&parse_schema(SCHEMA).unwrap());
    let user_id = compute_definition_id("type User id:int64 verified:bool rating:float = User");
    let func_id = compute_definition_id("func get_users user_ids:[int64] = [User]");
    assert!(out.contains(&format!("{user_id}_u32.serialize(dst);")));
    assert!(out.contains(&format!("{func_id}_u32 => Self::GetUsers")));
}

/// The generated field lines map every schema type onto its target
/// representation.
#[test]
fn generated_type_mapping() {
    let schema = "type Message id:int32 text:string? photos:[bytes] sent_at:time = Message";
    let out = generate(&parse_schema(schema).unwrap());
    assert!(out.contains("id: i32,"));
    assert!(out.contains("text: Option::<String>,"));
    assert!(out.contains("photos: Vec::<Vec::<u8>>,"));
    assert!(out.contains("sent_at: crate::Time,"));
}

/// The schema digest is deterministic, 32 bytes wide, and sensitive to any
/// definition change.
#[test]
fn schema_digest_detects_drift() {
    let a = schema_digest(&parse_schema(SCHEMA).unwrap());
    let b = schema_digest(&parse_schema(SCHEMA).unwrap());
    assert_eq!(a, b);
    assert_eq!(a.len(), 32);
    let changed = "type User id:int64 verified:bool rating:float = User
error InvalidUserId user_id:int64
func get_users user_ids:[int32] = [User]";
    let c = schema_digest(&parse_schema(changed).unwrap());
    assert_ne!(a, c);
}

/// The text helpers used by the parser and generator.
#[test]
fn text_helpers() {
    assert_eq!(tl::text::str_chars("abc"), vec!['a', 'b', 'c']);
    assert_eq!(tl::text::str_chars(""), Vec::<char>::new());
    assert_eq!(tl::text::chars_to_string(&['h', 'i']), String::from("hi"));
}

/// An empty schema still generates the two synthesized unions.
#[test]
fn empty_schema_generates() {
    let out = generate(&parse_schema("").unwrap());
    assert!(out.contains("pub enum Error {"));
    assert!(out.contains("pub enum Function {"));
    assert!(out.contains("pub mod types {"));
    assert!(out.contains("pub mod functions {"));
}
