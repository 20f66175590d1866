//! The code generator: walks a validated schema and emits source text
//! implementing the wire-codec contracts for every definition, plus one
//! tagged union per variant group. The emitted text is pinned down character
//! for character by `spec_generate_schema`, so generation is a deterministic
//! pure function of the schema.

use crate::output::{spaces, Output};
use crate::parser::{
    CoreV, DefinitionCore, FieldV, FunctionDefV, Schema, SchemaV, Type, TypeDefV, TypeDefinition,
    TypeV,
};
use crate::text::push_char;
use vstd::prelude::*;
use vstd::string::StringExecFns;

verus! {

// ---------------------------------------------------------------------------
// Small text pieces: decimal numbers, identity literals, definition names.
// ---------------------------------------------------------------------------

/// The decimal digit character for a value below ten.
pub open spec fn spec_digit(d: nat) -> char {
    if d == 0 {
        '0'
    } else if d == 1 {
        '1'
    } else if d == 2 {
        '2'
    } else if d == 3 {
        '3'
    } else if d == 4 {
        '4'
    } else if d == 5 {
        '5'
    } else if d == 6 {
        '6'
    } else if d == 7 {
        '7'
    } else if d == 8 {
        '8'
    } else {
        '9'
    }
}

/// The decimal rendering of a natural number, without leading zeros.
pub open spec fn dec_str(n: nat) -> Seq<char>
    decreases n,
{
    if n < 10 {
        seq![spec_digit(n)]
    } else {
        dec_str(n / 10) + seq![spec_digit(n % 10)]
    }
}

/// What `convert_case` turns a name into under its Pascal convention: a pure
/// function of the characters alone.
pub uninterp spec fn pascal_of(s: Seq<char>) -> Seq<char>;

/// Relies on `convert_case`'s `Casing::to_case` with `Case::Pascal`: the
/// result depends on the input characters alone.
#[verifier::external_body]
fn to_pascal_case(s: &str) -> (r: String)
    ensures
        r@ == pascal_of(s@),
{
    convert_case::Casing::to_case(&s, convert_case::Case::Pascal)
}

/// The decimal digit character, executably.
fn digit_char(d: u32) -> (c: char)
    requires
        d < 10,
    ensures
        c == spec_digit(d as nat),
{
    if d == 0 {
        '0'
    } else if d == 1 {
        '1'
    } else if d == 2 {
        '2'
    } else if d == 3 {
        '3'
    } else if d == 4 {
        '4'
    } else if d == 5 {
        '5'
    } else if d == 6 {
        '6'
    } else if d == 7 {
        '7'
    } else if d == 8 {
        '8'
    } else {
        '9'
    }
}

/// The decimal rendering of a 32-bit value, executably.
fn u32_to_string(n: u32) -> (r: String)
    ensures
        r@ == dec_str(n as nat),
    decreases n,
{
    if n < 10 {
        let mut s = String::new();
        push_char(&mut s, digit_char(n));
        proof {
            assert(s@ =~= dec_str(n as nat));
        }
        s
    } else {
        let mut s = u32_to_string(n / 10);
        push_char(&mut s, digit_char(n % 10));
        s
    }
}

/// The generated name of a definition: function names are Pascal-cased,
/// other names are used as declared.
pub open spec fn spec_def_name(core: CoreV, is_function: bool) -> Seq<char> {
    if is_function {
        pascal_of(core.name)
    } else {
        core.name
    }
}

/// The generated name of a definition, executably.
fn get_definition_name(def: &DefinitionCore, is_function: bool) -> (r: String)
    ensures
        r@ == spec_def_name(def@, is_function),
{
    if is_function {
        to_pascal_case(def.name.as_str())
    } else {
        def.name.clone()
    }
}

/// The identity literal a definition's tag is written as.
pub open spec fn spec_id_text(id: u32) -> Seq<char> {
    dec_str(id as nat) + "_u32"@
}

/// Write a definition's identity literal.
fn generate_definition_id(o: &mut Output, def: &DefinitionCore)
    ensures
        final(o).output@ == old(o).output@ + spec_id_text(def@.id),
        final(o).indent_size == old(o).indent_size,
        final(o).current_indent == old(o).current_indent,
{
    let id = u32_to_string(def.id);
    o.write(id.as_str());
    o.write("_u32");
    proof {
        assert(o.output@ =~= old(o).output@ + spec_id_text(def@.id));
    }
}

// ---------------------------------------------------------------------------
// Type expressions in the target language.
// ---------------------------------------------------------------------------

/// The target-language text of a type expression. `in_mod` is true where the
/// text stands inside the functions namespace, so Defined references reach
/// the types namespace through `super::`.
pub open spec fn spec_gen_type(t: TypeV, in_mod: bool) -> Seq<char>
    decreases t,
{
    match t {
        TypeV::Int32 => "i32"@,
        TypeV::Int64 => "i64"@,
        TypeV::Float => "crate::Float64"@,
        TypeV::Bool => "bool"@,
        TypeV::String => "String"@,
        TypeV::Bytes => "Vec::<u8>"@,
        TypeV::Time => "crate::Time"@,
        TypeV::Vector(inner) => "Vec::<"@ + spec_gen_type(*inner, in_mod) + ">"@,
        TypeV::Option(inner) => "Option::<"@ + spec_gen_type(*inner, in_mod) + ">"@,
        TypeV::Defined(name) => (if in_mod {
            "super::"@
        } else {
            ""@
        }) + "types::"@ + name,
    }
}

/// Write the target-language text of a type expression.
fn generate_type(o: &mut Output, typ: &Type, in_mod: bool)
    ensures
        final(o).output@ == old(o).output@ + spec_gen_type(typ@, in_mod),
        final(o).indent_size == old(o).indent_size,
        final(o).current_indent == old(o).current_indent,
    decreases typ,
{
    match typ {
        Type::Int32 => o.write("i32"),
        Type::Int64 => o.write("i64"),
        Type::Float => o.write("crate::Float64"),
        Type::Bool => o.write("bool"),
        Type::String => o.write("String"),
        Type::Bytes => o.write("Vec::<u8>"),
        Type::Time => o.write("crate::Time"),
        Type::Vector(inner) => {
            o.write("Vec::<");
            generate_type(o, inner, in_mod);
            o.write(">");
            proof {
                assert(typ@ == TypeV::Vector(Box::new(inner@)));
                assert(spec_gen_type(typ@, in_mod) == "Vec::<"@ + spec_gen_type(inner@, in_mod)
                    + ">"@);
                assert(o.output@ =~= old(o).output@ + spec_gen_type(typ@, in_mod));
            }
        },
        Type::Option(inner) => {
            o.write("Option::<");
            generate_type(o, inner, in_mod);
            o.write(">");
            proof {
                assert(typ@ == TypeV::Option(Box::new(inner@)));
                assert(spec_gen_type(typ@, in_mod) == "Option::<"@ + spec_gen_type(inner@, in_mod)
                    + ">"@);
                assert(o.output@ =~= old(o).output@ + spec_gen_type(typ@, in_mod));
            }
        },
        Type::Defined(name) => {
            if in_mod {
                o.write("super::");
            }
            o.write("types::");
            o.write(name.as_str());
            proof {
                reveal_strlit("");
                assert(o.output@ =~= old(o).output@ + spec_gen_type(typ@, in_mod));
            }
        },
    }
}

// ---------------------------------------------------------------------------
// One generated line.
// ---------------------------------------------------------------------------

/// One emitted line: the indentation for depth `d`, the body, a newline.
pub open spec fn ln(sz: nat, d: nat, body: Seq<char>) -> Seq<char> {
    spaces(sz * d) + body + "\n"@
}

/// Whether the output builder is in the state the generator keeps it in:
/// small indentation sizes and depths, so indentation arithmetic never
/// overflows.
pub open spec fn owf(o: Output) -> bool {
    o.indent_size <= 8 && o.current_indent <= 8
}

/// Write one whole line made of one piece.
fn emit_line(o: &mut Output, body: &str)
    requires
        owf(*old(o)),
    ensures
        final(o).output@ == old(o).output@ + ln(
            old(o).indent_size as nat,
            old(o).current_indent as nat,
            body@,
        ),
        final(o).indent_size == old(o).indent_size,
        final(o).current_indent == old(o).current_indent,
{
    o.write_indent();
    o.write(body);
    o.write("\n");
    proof {
        assert(o.output@ =~= old(o).output@ + ln(
            old(o).indent_size as nat,
            old(o).current_indent as nat,
            body@,
        ));
    }
}

/// Write one whole line made of three pieces.
fn emit_line3(o: &mut Output, a: &str, b: &str, c: &str)
    requires
        owf(*old(o)),
    ensures
        final(o).output@ == old(o).output@ + ln(
            old(o).indent_size as nat,
            old(o).current_indent as nat,
            a@ + b@ + c@,
        ),
        final(o).indent_size == old(o).indent_size,
        final(o).current_indent == old(o).current_indent,
{
    o.write_indent();
    o.write(a);
    o.write(b);
    o.write(c);
    o.write("\n");
    proof {
        assert(o.output@ =~= old(o).output@ + ln(
            old(o).indent_size as nat,
            old(o).current_indent as nat,
            a@ + b@ + c@,
        ));
    }
}

// ---------------------------------------------------------------------------
// Text shapes of the generated definitions.
// ---------------------------------------------------------------------------

/// The views of a sequence of borrowed definition cores.
pub open spec fn cores_view(s: Seq<&DefinitionCore>) -> Seq<CoreV> {
    s.map_values(|c: &DefinitionCore| c@)
}

/// One field declaration line: `[pub ]name: Type,`.
pub open spec fn sv_field_decl(sz: nat, d: nat, f: FieldV, pub_prefix: bool, in_mod: bool) -> Seq<
    char,
> {
    ln(
        sz,
        d,
        (if pub_prefix {
            "pub "@
        } else {
            ""@
        }) + f.name + ": "@ + spec_gen_type(f.typ, in_mod) + ","@,
    )
}

/// The field declaration lines of a definition, in order.
pub open spec fn sv_fields_decl(
    sz: nat,
    d: nat,
    fields: Seq<FieldV>,
    pub_prefix: bool,
    in_mod: bool,
) -> Seq<char>
    decreases fields.len(),
{
    if fields.len() == 0 {
        Seq::empty()
    } else {
        sv_fields_decl(sz, d, fields.drop_last(), pub_prefix, in_mod) + sv_field_decl(
            sz,
            d,
            fields.last(),
            pub_prefix,
            in_mod,
        )
    }
}

/// The inline binder list `f1: f1_, f2: f2_, ` used in match arms and
/// constructors.
pub open spec fn sv_binds(fields: Seq<FieldV>) -> Seq<char>
    decreases fields.len(),
{
    if fields.len() == 0 {
        Seq::empty()
    } else {
        sv_binds(fields.drop_last()) + fields.last().name + ": "@ + fields.last().name + "_, "@
    }
}

/// The serialize calls of a match arm: one `f_.serialize(dst);` line each.
pub open spec fn sv_ser_arm_lines(sz: nat, d: nat, fields: Seq<FieldV>) -> Seq<char>
    decreases fields.len(),
{
    if fields.len() == 0 {
        Seq::empty()
    } else {
        sv_ser_arm_lines(sz, d, fields.drop_last()) + ln(
            sz,
            d,
            fields.last().name + "_.serialize(dst);"@,
        )
    }
}

/// The serialize calls of a struct: one `self.f.serialize(dst);` line each.
pub open spec fn sv_ser_self_lines(sz: nat, d: nat, fields: Seq<FieldV>) -> Seq<char>
    decreases fields.len(),
{
    if fields.len() == 0 {
        Seq::empty()
    } else {
        sv_ser_self_lines(sz, d, fields.drop_last()) + ln(
            sz,
            d,
            "self."@ + fields.last().name + ".serialize(dst);"@,
        )
    }
}

/// The deserialize lines: one `let f_ = Type::deserialize(src)?;` each.
pub open spec fn sv_de_lines(sz: nat, d: nat, fields: Seq<FieldV>, in_mod: bool) -> Seq<char>
    decreases fields.len(),
{
    if fields.len() == 0 {
        Seq::empty()
    } else {
        sv_de_lines(sz, d, fields.drop_last(), in_mod) + ln(
            sz,
            d,
            "let "@ + fields.last().name + "_ = "@ + spec_gen_type(fields.last().typ, in_mod)
                + "::deserialize(src)?;"@,
        )
    }
}

/// One variant of a generated tagged union.
pub open spec fn sv_variant(sz: nat, d: nat, core: CoreV, is_function: bool) -> Seq<char> {
    if is_function {
        ln(
            sz,
            d,
            spec_def_name(core, true) + "(self::functions::"@ + spec_def_name(core, true)
                + "),"@,
        )
    } else {
        ln(sz, d, core.name + " {"@) + sv_fields_decl(sz, d + 1, core.fields, false, false) + ln(
            sz,
            d,
            "},"@,
        )
    }
}

/// The variants of a generated tagged union, in order.
pub open spec fn sv_variants(sz: nat, d: nat, defs: Seq<CoreV>, is_function: bool) -> Seq<char>
    decreases defs.len(),
{
    if defs.len() == 0 {
        Seq::empty()
    } else {
        sv_variants(sz, d, defs.drop_last(), is_function) + sv_variant(
            sz,
            d,
            defs.last(),
            is_function,
        )
    }
}

/// One serialize match arm of a tagged union: destructure, write the
/// identity, write each field.
pub open spec fn sv_ser_arm(sz: nat, d: nat, core: CoreV) -> Seq<char> {
    ln(sz, d, "Self::"@ + core.name + " { "@ + sv_binds(core.fields) + "} => {"@) + ln(
        sz,
        d + 1,
        spec_id_text(core.id) + ".serialize(dst);"@,
    ) + sv_ser_arm_lines(sz, d + 1, core.fields) + ln(sz, d, "}"@)
}

/// The serialize match arms of a tagged union, in order.
pub open spec fn sv_ser_arms(sz: nat, d: nat, defs: Seq<CoreV>) -> Seq<char>
    decreases defs.len(),
{
    if defs.len() == 0 {
        Seq::empty()
    } else {
        sv_ser_arms(sz, d, defs.drop_last()) + sv_ser_arm(sz, d, defs.last())
    }
}

/// One deserialize match arm of a tagged union.
pub open spec fn sv_de_arm(sz: nat, d: nat, core: CoreV, is_function: bool) -> Seq<char> {
    if is_function {
        ln(
            sz,
            d,
            spec_id_text(core.id) + " => Self::"@ + spec_def_name(core, true)
                + "(self::functions::"@ + spec_def_name(core, true) + "::deserialize(src)?),"@,
        )
    } else {
        ln(sz, d, spec_id_text(core.id) + " => {"@) + sv_de_lines(sz, d + 1, core.fields, false)
            + "\n"@ + ln(sz, d + 1, "Self::"@ + core.name + " { "@ + sv_binds(core.fields) + "}"@)
            + ln(sz, d, "}"@)
    }
}

/// The deserialize match arms of a tagged union, in order.
pub open spec fn sv_de_arms(sz: nat, d: nat, defs: Seq<CoreV>, is_function: bool) -> Seq<char>
    decreases defs.len(),
{
    if defs.len() == 0 {
        Seq::empty()
    } else {
        sv_de_arms(sz, d, defs.drop_last(), is_function) + sv_de_arm(
            sz,
            d,
            defs.last(),
            is_function,
        )
    }
}

/// The declaration of one generated tagged union: the derive line, the enum
/// header, its variants, the closing brace.
pub open spec fn spec_gen_enum_decl(
    sz: nat,
    d: nat,
    name: Seq<char>,
    is_function: bool,
    defs: Seq<CoreV>,
) -> Seq<char> {
    ln(sz, d, "#[derive(Debug, Clone, PartialEq)]"@) + ln(sz, d, "pub enum "@ + name + " {"@)
        + sv_variants(sz, d + 1, defs, is_function) + ln(sz, d, "}"@)
}

/// The serialize implementation of a generated tagged union, preceded by a
/// blank line.
pub open spec fn spec_gen_enum_ser(sz: nat, d: nat, name: Seq<char>, defs: Seq<CoreV>) -> Seq<
    char,
> {
    "\n"@ + ln(sz, d, "impl crate::Serialize for "@ + name + " {"@) + ln(
        sz,
        d + 1,
        "fn serialize(&self, dst: &mut Vec<u8>) {"@,
    ) + ln(sz, d + 2, "match self {"@) + sv_ser_arms(sz, d + 3, defs) + ln(sz, d + 2, "};"@) + ln(
        sz,
        d + 1,
        "}"@,
    ) + ln(sz, d, "}"@)
}

/// The deserialize implementation of a generated tagged union, preceded by a
/// blank line: read the identity, dispatch, reject unknown identities.
pub open spec fn spec_gen_enum_de(
    sz: nat,
    d: nat,
    name: Seq<char>,
    is_function: bool,
    defs: Seq<CoreV>,
) -> Seq<char> {
    "\n"@ + ln(sz, d, "impl crate::Deserialize for "@ + name + " {"@) + ln(
        sz,
        d + 1,
        "fn deserialize(src: &mut &[u8]) -> Result<Self, crate::deserialize::Error> {"@,
    ) + ln(sz, d + 2, "let id = u32::deserialize(src)?;"@) + "\n"@ + ln(
        sz,
        d + 2,
        "Ok(match id {"@,
    ) + sv_de_arms(sz, d + 3, defs, is_function) + ln(
        sz,
        d + 3,
        "_ => return Err(crate::deserialize::Error::UnexpectedDefinitionId(id)),"@,
    ) + ln(sz, d + 2, "})"@) + ln(sz, d + 1, "}"@) + ln(sz, d, "}"@)
}

/// The whole generated tagged union for one variant group: the enum itself,
/// a serialize implementation (except for the Function union, whose variants
/// serialize themselves), and a deserialize implementation that dispatches on
/// the leading identity and rejects unknown identities.
pub open spec fn spec_gen_enum(
    sz: nat,
    d: nat,
    name: Seq<char>,
    is_function: bool,
    defs: Seq<CoreV>,
) -> Seq<char> {
    spec_gen_enum_decl(sz, d, name, is_function, defs) + (if !is_function {
        spec_gen_enum_ser(sz, d, name, defs)
    } else {
        Seq::empty()
    }) + spec_gen_enum_de(sz, d, name, is_function, defs)
}

/// The declaration of one generated record definition.
pub open spec fn spec_gen_def_decl(sz: nat, d: nat, name: Seq<char>, fields: Seq<FieldV>) -> Seq<
    char,
> {
    ln(sz, d, "#[derive(Debug, Clone, PartialEq)]"@) + ln(sz, d, "pub struct "@ + name + " {"@)
        + sv_fields_decl(sz, d + 1, fields, true, true) + ln(sz, d, "}"@)
}

/// The serialize implementation of one generated record definition;
/// definitions used as tagged-union variants (`with_id`) write their identity
/// first.
pub open spec fn spec_gen_def_ser(
    sz: nat,
    d: nat,
    name: Seq<char>,
    core: CoreV,
    with_id: bool,
) -> Seq<char> {
    "\n"@ + ln(sz, d, "impl crate::Serialize for "@ + name + " {"@) + ln(
        sz,
        d + 1,
        "fn serialize(&self, dst: &mut Vec<u8>) {"@,
    ) + (if with_id {
        ln(sz, d + 2, spec_id_text(core.id) + ".serialize(dst);"@)
    } else {
        Seq::empty()
    }) + sv_ser_self_lines(sz, d + 2, core.fields) + ln(sz, d + 1, "}"@) + ln(sz, d, "}"@)
}

/// The deserialize implementation of one generated record definition.
pub open spec fn spec_gen_def_de(sz: nat, d: nat, name: Seq<char>, fields: Seq<FieldV>) -> Seq<
    char,
> {
    "\n"@ + ln(sz, d, "impl crate::Deserialize for "@ + name + " {"@) + ln(
        sz,
        d + 1,
        "fn deserialize(src: &mut &[u8]) -> Result<Self, crate::deserialize::Error> {"@,
    ) + sv_de_lines(sz, d + 2, fields, true) + "\n"@ + ln(
        sz,
        d + 2,
        "Ok(Self { "@ + sv_binds(fields) + "})"@,
    ) + ln(sz, d + 1, "}"@) + ln(sz, d, "}"@)
}

/// The call association of a generated function definition: its declared
/// return type, carried at the type level.
pub open spec fn spec_gen_def_call(sz: nat, d: nat, name: Seq<char>, ret: TypeV) -> Seq<char> {
    "\n"@ + ln(sz, d, "impl crate::Call for "@ + name + " {"@) + ln(
        sz,
        d + 1,
        "type Return = "@ + spec_gen_type(ret, true) + ";"@,
    ) + ln(sz, d, "}"@)
}

/// The generated record definition for one core: the struct, serialize and
/// deserialize implementations (functions also write their identity first),
/// and for functions the call association carrying the return type.
pub open spec fn spec_gen_definition(sz: nat, d: nat, core: CoreV, ret: Option<TypeV>) -> Seq<
    char,
> {
    let name = spec_def_name(core, ret is Some);
    spec_gen_def_decl(sz, d, name, core.fields) + spec_gen_def_ser(sz, d, name, core, ret is Some)
        + spec_gen_def_de(sz, d, name, core.fields) + (match ret {
        Some(t) => spec_gen_def_call(sz, d, name, t),
        None => Seq::empty(),
    })
}

/// The variant-group names of a schema, in order of first appearance.
pub open spec fn group_names(types: Seq<TypeDefV>) -> Seq<Seq<char>>
    decreases types.len(),
{
    if types.len() == 0 {
        Seq::empty()
    } else {
        let g = group_names(types.drop_last());
        if g.contains(types.last().enum_name) {
            g
        } else {
            g.push(types.last().enum_name)
        }
    }
}

/// The cores of the type definitions belonging to one variant group, in
/// declaration order.
pub open spec fn group_members(types: Seq<TypeDefV>, name: Seq<char>) -> Seq<CoreV>
    decreases types.len(),
{
    if types.len() == 0 {
        Seq::empty()
    } else {
        let m = group_members(types.drop_last(), name);
        if types.last().enum_name == name {
            m.push(types.last().core)
        } else {
            m
        }
    }
}

/// The tagged unions of the given variant groups, each followed by a blank
/// line.
pub open spec fn spec_gen_groups(
    sz: nat,
    d: nat,
    types: Seq<TypeDefV>,
    names: Seq<Seq<char>>,
) -> Seq<char>
    decreases names.len(),
{
    if names.len() == 0 {
        Seq::empty()
    } else {
        spec_gen_groups(sz, d, types, names.drop_last()) + spec_gen_enum(
            sz,
            d,
            names.last(),
            false,
            group_members(types, names.last()),
        ) + "\n"@
    }
}

/// The generated function definitions, each followed by a blank line.
pub open spec fn spec_gen_functions_mod(sz: nat, d: nat, funcs: Seq<FunctionDefV>) -> Seq<char>
    decreases funcs.len(),
{
    if funcs.len() == 0 {
        Seq::empty()
    } else {
        spec_gen_functions_mod(sz, d, funcs.drop_last()) + spec_gen_definition(
            sz,
            d,
            funcs.last().core,
            Some(funcs.last().ret),
        ) + "\n"@
    }
}

/// The cores of the error definitions.
pub open spec fn cores_of_errors(errors: Seq<crate::parser::ErrorDefV>) -> Seq<CoreV> {
    errors.map_values(|e: crate::parser::ErrorDefV| e.core)
}

/// The cores of the function definitions.
pub open spec fn cores_of_functions(functions: Seq<FunctionDefV>) -> Seq<CoreV> {
    functions.map_values(|f: FunctionDefV| f.core)
}

/// The types namespace: one tagged union per variant group, in order of
/// first appearance.
pub open spec fn spec_gen_types_mod(sz: nat, s: SchemaV) -> Seq<char> {
    ln(sz, 0, "pub mod types {"@) + spec_gen_groups(sz, 1, s.types, group_names(s.types)) + ln(
        sz,
        0,
        "}"@,
    )
}

/// The functions namespace: every function definition, in declaration order.
pub open spec fn spec_gen_functions_block(sz: nat, s: SchemaV) -> Seq<char> {
    ln(sz, 0, "pub mod functions {"@) + spec_gen_functions_mod(sz, 1, s.functions) + ln(
        sz,
        0,
        "}"@,
    )
}

/// The whole generated document: the Error union, the Function union, the
/// types namespace holding one tagged union per variant group in order of
/// first appearance, and the functions namespace holding every function
/// definition in declaration order.
pub open spec fn spec_generate_schema(sz: nat, s: SchemaV) -> Seq<char> {
    spec_gen_enum(sz, 0, "Error"@, false, cores_of_errors(s.errors)) + "\n"@ + spec_gen_enum(
        sz,
        0,
        "Function"@,
        true,
        cores_of_functions(s.functions),
    ) + "\n"@ + spec_gen_types_mod(sz, s) + "\n"@ + spec_gen_functions_block(sz, s)
}

/// What `generate` returns: the document at four spaces per indent level.
pub open spec fn spec_generate(s: SchemaV) -> Seq<char> {
    spec_generate_schema(4, s)
}

// ---------------------------------------------------------------------------
// The executable emitters.
// ---------------------------------------------------------------------------

/// The views of a sequence of fields (shared with the parser).
pub open spec fn fviews(fields: Seq<crate::parser::Field>) -> Seq<FieldV> {
    crate::parser::fields_view(fields)
}

/// Write the field declaration lines of a definition.
#[verifier::loop_isolation(false)]
#[verifier::rlimit(50)]
fn gen_fields_decl(
    o: &mut Output,
    fields: &Vec<crate::parser::Field>,
    pub_prefix: bool,
    in_mod: bool,
)
    requires
        owf(*old(o)),
    ensures
        final(o).output@ == old(o).output@ + sv_fields_decl(
            old(o).indent_size as nat,
            old(o).current_indent as nat,
            fviews(fields@),
            pub_prefix,
            in_mod,
        ),
        final(o).indent_size == old(o).indent_size,
        final(o).current_indent == old(o).current_indent,
{
    let ghost sz = o.indent_size as nat;
    let ghost d = o.current_indent as nat;
    let ghost fv = fviews(fields@);
    let mut i: usize = 0;
    let n = fields.len();
    proof {
        reveal_strlit("");
        assert(o.output@ =~= old(o).output@ + sv_fields_decl(sz, d, fv.take(0), pub_prefix, in_mod));
    }
    while i < n
        invariant
            i <= n == fields@.len(),
            o.indent_size == old(o).indent_size,
            o.current_indent == old(o).current_indent,
            o.output@ == old(o).output@ + sv_fields_decl(
                sz,
                d,
                fv.take(i as int),
                pub_prefix,
                in_mod,
            ),
        decreases n - i,
    {
        let f = &fields[i];
        o.write_indent();
        if pub_prefix {
            o.write("pub ");
        }
        o.write(f.name.as_str());
        o.write(": ");
        generate_type(o, &f.typ, in_mod);
        o.write(",");
        o.write("\n");
        i = i + 1;
        proof {
            reveal_strlit("");
            assert(fv.take(i as int).drop_last() =~= fv.take(i - 1));
            assert(fv.take(i as int).last() == fv[i - 1]);
            assert(o.output@ =~= old(o).output@ + sv_fields_decl(
                sz,
                d,
                fv.take(i as int),
                pub_prefix,
                in_mod,
            ));
        }
    }
    proof {
        assert(fv.take(n as int) =~= fv);
    }
}

/// Write the inline binder list `f1: f1_, f2: f2_, `.
#[verifier::loop_isolation(false)]
fn gen_binds(o: &mut Output, fields: &Vec<crate::parser::Field>)
    ensures
        final(o).output@ == old(o).output@ + sv_binds(fviews(fields@)),
        final(o).indent_size == old(o).indent_size,
        final(o).current_indent == old(o).current_indent,
{
    let ghost fv = fviews(fields@);
    let mut i: usize = 0;
    let n = fields.len();
    proof {
        assert(o.output@ =~= old(o).output@ + sv_binds(fv.take(0)));
    }
    while i < n
        invariant
            i <= n == fields@.len(),
            o.indent_size == old(o).indent_size,
            o.current_indent == old(o).current_indent,
            o.output@ == old(o).output@ + sv_binds(fv.take(i as int)),
        decreases n - i,
    {
        let f = &fields[i];
        o.write(f.name.as_str());
        o.write(": ");
        o.write(f.name.as_str());
        o.write("_, ");
        i = i + 1;
        proof {
            assert(fv.take(i as int).drop_last() =~= fv.take(i - 1));
            assert(fv.take(i as int).last() == fv[i - 1]);
            assert(o.output@ =~= old(o).output@ + sv_binds(fv.take(i as int)));
        }
    }
    proof {
        assert(fv.take(n as int) =~= fv);
    }
}

/// Write the serialize calls of a match arm.
#[verifier::loop_isolation(false)]
fn gen_ser_arm_lines(o: &mut Output, fields: &Vec<crate::parser::Field>)
    requires
        owf(*old(o)),
    ensures
        final(o).output@ == old(o).output@ + sv_ser_arm_lines(
            old(o).indent_size as nat,
            old(o).current_indent as nat,
            fviews(fields@),
        ),
        final(o).indent_size == old(o).indent_size,
        final(o).current_indent == old(o).current_indent,
{
    let ghost sz = o.indent_size as nat;
    let ghost d = o.current_indent as nat;
    let ghost fv = fviews(fields@);
    let mut i: usize = 0;
    let n = fields.len();
    proof {
        assert(o.output@ =~= old(o).output@ + sv_ser_arm_lines(sz, d, fv.take(0)));
    }
    while i < n
        invariant
            i <= n == fields@.len(),
            o.indent_size == old(o).indent_size,
            o.current_indent == old(o).current_indent,
            o.output@ == old(o).output@ + sv_ser_arm_lines(sz, d, fv.take(i as int)),
        decreases n - i,
    {
        let f = &fields[i];
        o.write_indent();
        o.write(f.name.as_str());
        o.write("_.serialize(dst);");
        o.write("\n");
        i = i + 1;
        proof {
            assert(fv.take(i as int).drop_last() =~= fv.take(i - 1));
            assert(fv.take(i as int).last() == fv[i - 1]);
            assert(o.output@ =~= old(o).output@ + sv_ser_arm_lines(sz, d, fv.take(i as int)));
        }
    }
    proof {
        assert(fv.take(n as int) =~= fv);
    }
}

/// Write the serialize calls of a struct.
#[verifier::loop_isolation(false)]
fn gen_ser_self_lines(o: &mut Output, fields: &Vec<crate::parser::Field>)
    requires
        owf(*old(o)),
    ensures
        final(o).output@ == old(o).output@ + sv_ser_self_lines(
            old(o).indent_size as nat,
            old(o).current_indent as nat,
            fviews(fields@),
        ),
        final(o).indent_size == old(o).indent_size,
        final(o).current_indent == old(o).current_indent,
{
    let ghost sz = o.indent_size as nat;
    let ghost d = o.current_indent as nat;
    let ghost fv = fviews(fields@);
    let mut i: usize = 0;
    let n = fields.len();
    proof {
        assert(o.output@ =~= old(o).output@ + sv_ser_self_lines(sz, d, fv.take(0)));
    }
    while i < n
        invariant
            i <= n == fields@.len(),
            o.indent_size == old(o).indent_size,
            o.current_indent == old(o).current_indent,
            o.output@ == old(o).output@ + sv_ser_self_lines(sz, d, fv.take(i as int)),
        decreases n - i,
    {
        let f = &fields[i];
        o.write_indent();
        o.write("self.");
        o.write(f.name.as_str());
        o.write(".serialize(dst);");
        o.write("\n");
        i = i + 1;
        proof {
            assert(fv.take(i as int).drop_last() =~= fv.take(i - 1));
            assert(fv.take(i as int).last() == fv[i - 1]);
            assert(o.output@ =~= old(o).output@ + sv_ser_self_lines(sz, d, fv.take(i as int)));
        }
    }
    proof {
        assert(fv.take(n as int) =~= fv);
    }
}

/// Write the deserialize lines of a definition.
#[verifier::loop_isolation(false)]
fn gen_de_lines(o: &mut Output, fields: &Vec<crate::parser::Field>, in_mod: bool)
    requires
        owf(*old(o)),
    ensures
        final(o).output@ == old(o).output@ + sv_de_lines(
            old(o).indent_size as nat,
            old(o).current_indent as nat,
            fviews(fields@),
            in_mod,
        ),
        final(o).indent_size == old(o).indent_size,
        final(o).current_indent == old(o).current_indent,
{
    let ghost sz = o.indent_size as nat;
    let ghost d = o.current_indent as nat;
    let ghost fv = fviews(fields@);
    let mut i: usize = 0;
    let n = fields.len();
    proof {
        assert(o.output@ =~= old(o).output@ + sv_de_lines(sz, d, fv.take(0), in_mod));
    }
    while i < n
        invariant
            i <= n == fields@.len(),
            o.indent_size == old(o).indent_size,
            o.current_indent == old(o).current_indent,
            o.output@ == old(o).output@ + sv_de_lines(sz, d, fv.take(i as int), in_mod),
        decreases n - i,
    {
        let f = &fields[i];
        o.write_indent();
        o.write("let ");
        o.write(f.name.as_str());
        o.write("_ = ");
        generate_type(o, &f.typ, in_mod);
        o.write("::deserialize(src)?;");
        o.write("\n");
        i = i + 1;
        proof {
            assert(fv.take(i as int).drop_last() =~= fv.take(i - 1));
            assert(fv.take(i as int).last() == fv[i - 1]);
            assert(o.output@ =~= old(o).output@ + sv_de_lines(sz, d, fv.take(i as int), in_mod));
        }
    }
    proof {
        assert(fv.take(n as int) =~= fv);
    }
}

/// Write one variant of a tagged union.
#[verifier::rlimit(50)]
#[verifier::spinoff_prover]
fn gen_variant(o: &mut Output, def: &DefinitionCore, is_function: bool)
    requires
        old(o).indent_size <= 8,
        old(o).current_indent <= 7,
    ensures
        final(o).output@ == old(o).output@ + sv_variant(
            old(o).indent_size as nat,
            old(o).current_indent as nat,
            def@,
            is_function,
        ),
        final(o).indent_size == old(o).indent_size,
        final(o).current_indent == old(o).current_indent,
{
    if is_function {
        let name = get_definition_name(def, true);
        o.write_indent();
        o.write(name.as_str());
        o.write("(self::functions::");
        o.write(name.as_str());
        o.write("),");
        o.write("\n");
        proof {
            assert(o.output@ =~= old(o).output@ + sv_variant(
                old(o).indent_size as nat,
                old(o).current_indent as nat,
                def@,
                is_function,
            ));
        }
    } else {
        o.write_indent();
        o.write(def.name.as_str());
        o.write(" {");
        o.write("\n");
        o.increase_indent();
        gen_fields_decl(o, &def.fields, false, false);
        o.decrease_indent();
        emit_line(o, "},");
        proof {
            assert(o.output@ =~= old(o).output@ + sv_variant(
                old(o).indent_size as nat,
                old(o).current_indent as nat,
                def@,
                is_function,
            ));
        }
    }
}

/// Write one serialize match arm of a tagged union.
#[verifier::rlimit(50)]
#[verifier::spinoff_prover]
fn gen_ser_arm(o: &mut Output, def: &DefinitionCore)
    requires
        old(o).indent_size <= 8,
        old(o).current_indent <= 7,
    ensures
        final(o).output@ == old(o).output@ + sv_ser_arm(
            old(o).indent_size as nat,
            old(o).current_indent as nat,
            def@,
        ),
        final(o).indent_size == old(o).indent_size,
        final(o).current_indent == old(o).current_indent,
{
    o.write_indent();
    o.write("Self::");
    o.write(def.name.as_str());
    o.write(" { ");
    gen_binds(o, &def.fields);
    o.write("} => {");
    o.write("\n");
    o.increase_indent();
    o.write_indent();
    generate_definition_id(o, def);
    o.write(".serialize(dst);");
    o.write("\n");
    gen_ser_arm_lines(o, &def.fields);
    o.decrease_indent();
    emit_line(o, "}");
    proof {
        assert(o.output@ =~= old(o).output@ + sv_ser_arm(
            old(o).indent_size as nat,
            old(o).current_indent as nat,
            def@,
        ));
    }
}

/// Write one deserialize match arm of a tagged union.
#[verifier::rlimit(50)]
#[verifier::spinoff_prover]
fn gen_de_arm(o: &mut Output, def: &DefinitionCore, is_function: bool)
    requires
        old(o).indent_size <= 8,
        old(o).current_indent <= 7,
    ensures
        final(o).output@ == old(o).output@ + sv_de_arm(
            old(o).indent_size as nat,
            old(o).current_indent as nat,
            def@,
            is_function,
        ),
        final(o).indent_size == old(o).indent_size,
        final(o).current_indent == old(o).current_indent,
{
    if is_function {
        let name = get_definition_name(def, true);
        o.write_indent();
        generate_definition_id(o, def);
        o.write(" => Self::");
        o.write(name.as_str());
        o.write("(self::functions::");
        o.write(name.as_str());
        o.write("::deserialize(src)?),");
        o.write("\n");
        proof {
            assert(o.output@ =~= old(o).output@ + sv_de_arm(
                old(o).indent_size as nat,
                old(o).current_indent as nat,
                def@,
                is_function,
            ));
        }
    } else {
        o.write_indent();
        generate_definition_id(o, def);
        o.write(" => {");
        o.write("\n");
        o.increase_indent();
        gen_de_lines(o, &def.fields, false);
        o.write("\n");
        o.write_indent();
        o.write("Self::");
        o.write(def.name.as_str());
        o.write(" { ");
        gen_binds(o, &def.fields);
        o.write("}");
        o.write("\n");
        o.decrease_indent();
        emit_line(o, "}");
        proof {
            assert(o.output@ =~= old(o).output@ + sv_de_arm(
                old(o).indent_size as nat,
                old(o).current_indent as nat,
                def@,
                is_function,
            ));
        }
    }
}

/// Write the declaration of one tagged union.
#[verifier::loop_isolation(false)]
#[verifier::rlimit(50)]
#[verifier::spinoff_prover]
fn gen_enum_decl(o: &mut Output, name: &str, is_function: bool, definitions: &Vec<&DefinitionCore>)
    requires
        old(o).indent_size <= 8,
        old(o).current_indent <= 4,
    ensures
        final(o).output@ == old(o).output@ + spec_gen_enum_decl(
            old(o).indent_size as nat,
            old(o).current_indent as nat,
            name@,
            is_function,
            cores_view(definitions@),
        ),
        final(o).indent_size == old(o).indent_size,
        final(o).current_indent == old(o).current_indent,
{
    let ghost sz = o.indent_size as nat;
    let ghost d = o.current_indent as nat;
    let ghost dv = cores_view(definitions@);
    let n = definitions.len();
    emit_line(o, "#[derive(Debug, Clone, PartialEq)]");
    emit_line3(o, "pub enum ", name, " {");
    o.increase_indent();
    let ghost mark = o.output@;
    let mut i: usize = 0;
    proof {
        assert(o.output@ =~= mark + sv_variants(sz, d + 1, dv.take(0), is_function));
    }
    while i < n
        invariant
            i <= n == definitions@.len(),
            o.indent_size == old(o).indent_size,
            o.current_indent == old(o).current_indent + 1,
            o.output@ == mark + sv_variants(sz, d + 1, dv.take(i as int), is_function),
        decreases n - i,
    {
        gen_variant(o, definitions[i], is_function);
        i = i + 1;
        proof {
            assert(dv.take(i as int).drop_last() =~= dv.take(i - 1));
            assert(dv.take(i as int).last() == dv[i - 1]);
            assert(o.output@ =~= mark + sv_variants(sz, d + 1, dv.take(i as int), is_function));
        }
    }
    proof {
        assert(dv.take(n as int) =~= dv);
    }
    o.decrease_indent();
    emit_line(o, "}");
    proof {
        assert(o.output@ =~= old(o).output@ + spec_gen_enum_decl(sz, d, name@, is_function, dv));
    }
}

/// Write the serialize implementation of one tagged union.
#[verifier::loop_isolation(false)]
#[verifier::rlimit(50)]
#[verifier::spinoff_prover]
fn gen_enum_ser(o: &mut Output, name: &str, definitions: &Vec<&DefinitionCore>)
    requires
        old(o).indent_size <= 8,
        old(o).current_indent <= 4,
    ensures
        final(o).output@ == old(o).output@ + spec_gen_enum_ser(
            old(o).indent_size as nat,
            old(o).current_indent as nat,
            name@,
            cores_view(definitions@),
        ),
        final(o).indent_size == old(o).indent_size,
        final(o).current_indent == old(o).current_indent,
{
    let ghost sz = o.indent_size as nat;
    let ghost d = o.current_indent as nat;
    let ghost dv = cores_view(definitions@);
    let n = definitions.len();
    o.write("\n");
    emit_line3(o, "impl crate::Serialize for ", name, " {");
    o.increase_indent();
    emit_line(o, "fn serialize(&self, dst: &mut Vec<u8>) {");
    o.increase_indent();
    emit_line(o, "match self {");
    o.increase_indent();
    let ghost mark = o.output@;
    let mut i: usize = 0;
    proof {
        assert(o.output@ =~= mark + sv_ser_arms(sz, d + 3, dv.take(0)));
    }
    while i < n
        invariant
            i <= n == definitions@.len(),
            o.indent_size == old(o).indent_size,
            o.current_indent == old(o).current_indent + 3,
            o.output@ == mark + sv_ser_arms(sz, d + 3, dv.take(i as int)),
        decreases n - i,
    {
        gen_ser_arm(o, definitions[i]);
        i = i + 1;
        proof {
            assert(dv.take(i as int).drop_last() =~= dv.take(i - 1));
            assert(dv.take(i as int).last() == dv[i - 1]);
            assert(o.output@ =~= mark + sv_ser_arms(sz, d + 3, dv.take(i as int)));
        }
    }
    proof {
        assert(dv.take(n as int) =~= dv);
    }
    o.decrease_indent();
    emit_line(o, "};");
    o.decrease_indent();
    emit_line(o, "}");
    o.decrease_indent();
    emit_line(o, "}");
    proof {
        assert(o.output@ =~= old(o).output@ + spec_gen_enum_ser(sz, d, name@, dv));
    }
}

/// Write the deserialize implementation of one tagged union.
#[verifier::loop_isolation(false)]
#[verifier::rlimit(100)]
#[verifier::spinoff_prover]
fn gen_enum_de(o: &mut Output, name: &str, is_function: bool, definitions: &Vec<&DefinitionCore>)
    requires
        old(o).indent_size <= 8,
        old(o).current_indent <= 4,
    ensures
        final(o).output@ == old(o).output@ + spec_gen_enum_de(
            old(o).indent_size as nat,
            old(o).current_indent as nat,
            name@,
            is_function,
            cores_view(definitions@),
        ),
        final(o).indent_size == old(o).indent_size,
        final(o).current_indent == old(o).current_indent,
{
    let ghost sz = o.indent_size as nat;
    let ghost d = o.current_indent as nat;
    let ghost dv = cores_view(definitions@);
    let n = definitions.len();
    o.write("\n");
    emit_line3(o, "impl crate::Deserialize for ", name, " {");
    o.increase_indent();
    emit_line(o, "fn deserialize(src: &mut &[u8]) -> Result<Self, crate::deserialize::Error> {");
    o.increase_indent();
    emit_line(o, "let id = u32::deserialize(src)?;");
    o.write("\n");
    emit_line(o, "Ok(match id {");
    o.increase_indent();
    let ghost mark = o.output@;
    let mut i: usize = 0;
    proof {
        assert(o.output@ =~= mark + sv_de_arms(sz, d + 3, dv.take(0), is_function));
    }
    while i < n
        invariant
            i <= n == definitions@.len(),
            o.indent_size == old(o).indent_size,
            o.current_indent == old(o).current_indent + 3,
            o.output@ == mark + sv_de_arms(sz, d + 3, dv.take(i as int), is_function),
        decreases n - i,
    {
        gen_de_arm(o, definitions[i], is_function);
        i = i + 1;
        proof {
            assert(dv.take(i as int).drop_last() =~= dv.take(i - 1));
            assert(dv.take(i as int).last() == dv[i - 1]);
            assert(o.output@ =~= mark + sv_de_arms(sz, d + 3, dv.take(i as int), is_function));
        }
    }
    proof {
        assert(dv.take(n as int) =~= dv);
    }
    emit_line(o, "_ => return Err(crate::deserialize::Error::UnexpectedDefinitionId(id)),");
    o.decrease_indent();
    emit_line(o, "})");
    o.decrease_indent();
    emit_line(o, "}");
    o.decrease_indent();
    emit_line(o, "}");
    proof {
        assert(o.output@ =~= old(o).output@ + spec_gen_enum_de(sz, d, name@, is_function, dv));
    }
}

/// Write the whole tagged union for one variant group.
#[verifier::rlimit(50)]
#[verifier::spinoff_prover]
fn generate_enum(o: &mut Output, name: &str, is_function: bool, definitions: &Vec<&DefinitionCore>)
    requires
        old(o).indent_size <= 8,
        old(o).current_indent <= 4,
    ensures
        final(o).output@ == old(o).output@ + spec_gen_enum(
            old(o).indent_size as nat,
            old(o).current_indent as nat,
            name@,
            is_function,
            cores_view(definitions@),
        ),
        final(o).indent_size == old(o).indent_size,
        final(o).current_indent == old(o).current_indent,
{
    let ghost sz = o.indent_size as nat;
    let ghost d = o.current_indent as nat;
    let ghost dv = cores_view(definitions@);
    gen_enum_decl(o, name, is_function, definitions);
    if !is_function {
        gen_enum_ser(o, name, definitions);
    }
    gen_enum_de(o, name, is_function, definitions);
    proof {
        assert(o.output@ =~= old(o).output@ + spec_gen_enum(sz, d, name@, is_function, dv));
    }
}

/// Write the declaration of one record definition.
#[verifier::rlimit(50)]
#[verifier::spinoff_prover]
fn gen_def_decl(o: &mut Output, name: &str, def: &DefinitionCore)
    requires
        old(o).indent_size <= 8,
        old(o).current_indent <= 4,
    ensures
        final(o).output@ == old(o).output@ + spec_gen_def_decl(
            old(o).indent_size as nat,
            old(o).current_indent as nat,
            name@,
            fviews(def.fields@),
        ),
        final(o).indent_size == old(o).indent_size,
        final(o).current_indent == old(o).current_indent,
{
    let ghost sz = o.indent_size as nat;
    let ghost d = o.current_indent as nat;
    emit_line(o, "#[derive(Debug, Clone, PartialEq)]");
    emit_line3(o, "pub struct ", name, " {");
    o.increase_indent();
    gen_fields_decl(o, &def.fields, true, true);
    o.decrease_indent();
    emit_line(o, "}");
    proof {
        assert(o.output@ =~= old(o).output@ + spec_gen_def_decl(sz, d, name@, fviews(def.fields@)));
    }
}

/// Write the serialize implementation of one record definition.
#[verifier::rlimit(50)]
#[verifier::spinoff_prover]
fn gen_def_ser(o: &mut Output, name: &str, def: &DefinitionCore, with_id: bool)
    requires
        old(o).indent_size <= 8,
        old(o).current_indent <= 4,
    ensures
        final(o).output@ == old(o).output@ + spec_gen_def_ser(
            old(o).indent_size as nat,
            old(o).current_indent as nat,
            name@,
            def@,
            with_id,
        ),
        final(o).indent_size == old(o).indent_size,
        final(o).current_indent == old(o).current_indent,
{
    let ghost sz = o.indent_size as nat;
    let ghost d = o.current_indent as nat;
    o.write("\n");
    emit_line3(o, "impl crate::Serialize for ", name, " {");
    o.increase_indent();
    emit_line(o, "fn serialize(&self, dst: &mut Vec<u8>) {");
    o.increase_indent();
    if with_id {
        o.write_indent();
        generate_definition_id(o, def);
        o.write(".serialize(dst);");
        o.write("\n");
    }
    gen_ser_self_lines(o, &def.fields);
    o.decrease_indent();
    emit_line(o, "}");
    o.decrease_indent();
    emit_line(o, "}");
    proof {
        assert(o.output@ =~= old(o).output@ + spec_gen_def_ser(sz, d, name@, def@, with_id));
    }
}

/// Write the deserialize implementation of one record definition.
#[verifier::rlimit(50)]
#[verifier::spinoff_prover]
fn gen_def_de(o: &mut Output, name: &str, def: &DefinitionCore)
    requires
        old(o).indent_size <= 8,
        old(o).current_indent <= 4,
    ensures
        final(o).output@ == old(o).output@ + spec_gen_def_de(
            old(o).indent_size as nat,
            old(o).current_indent as nat,
            name@,
            fviews(def.fields@),
        ),
        final(o).indent_size == old(o).indent_size,
        final(o).current_indent == old(o).current_indent,
{
    let ghost sz = o.indent_size as nat;
    let ghost d = o.current_indent as nat;
    o.write("\n");
    emit_line3(o, "impl crate::Deserialize for ", name, " {");
    o.increase_indent();
    emit_line(o, "fn deserialize(src: &mut &[u8]) -> Result<Self, crate::deserialize::Error> {");
    o.increase_indent();
    gen_de_lines(o, &def.fields, true);
    o.write("\n");
    o.write_indent();
    o.write("Ok(Self { ");
    gen_binds(o, &def.fields);
    o.write("})");
    o.write("\n");
    o.decrease_indent();
    emit_line(o, "}");
    o.decrease_indent();
    emit_line(o, "}");
    proof {
        assert(o.output@ =~= old(o).output@ + spec_gen_def_de(sz, d, name@, fviews(def.fields@)));
    }
}

/// Write the call association of one generated function definition.
#[verifier::rlimit(50)]
#[verifier::spinoff_prover]
fn gen_def_call(o: &mut Output, name: &str, ret: &Type)
    requires
        old(o).indent_size <= 8,
        old(o).current_indent <= 4,
    ensures
        final(o).output@ == old(o).output@ + spec_gen_def_call(
            old(o).indent_size as nat,
            old(o).current_indent as nat,
            name@,
            ret@,
        ),
        final(o).indent_size == old(o).indent_size,
        final(o).current_indent == old(o).current_indent,
{
    let ghost sz = o.indent_size as nat;
    let ghost d = o.current_indent as nat;
    o.write("\n");
    emit_line3(o, "impl crate::Call for ", name, " {");
    o.increase_indent();
    o.write_indent();
    o.write("type Return = ");
    generate_type(o, ret, true);
    o.write(";");
    o.write("\n");
    o.decrease_indent();
    emit_line(o, "}");
    proof {
        assert(o.output@ =~= old(o).output@ + spec_gen_def_call(sz, d, name@, ret@));
    }
}

/// Write the generated record definition for one core.
#[verifier::rlimit(50)]
#[verifier::spinoff_prover]
fn generate_definition(o: &mut Output, def: &DefinitionCore, ret: Option<&Type>)
    requires
        old(o).indent_size <= 8,
        old(o).current_indent <= 4,
    ensures
        final(o).output@ == old(o).output@ + spec_gen_definition(
            old(o).indent_size as nat,
            old(o).current_indent as nat,
            def@,
            match ret {
                Some(t) => Some(t@),
                None => None,
            },
        ),
        final(o).indent_size == old(o).indent_size,
        final(o).current_indent == old(o).current_indent,
{
    let ghost sz = o.indent_size as nat;
    let ghost d = o.current_indent as nat;
    let ghost retv: Option<TypeV> = match ret {
        Some(t) => Some(t@),
        None => None,
    };
    let is_function = match ret {
        Some(_) => true,
        None => false,
    };
    let name = get_definition_name(def, is_function);
    gen_def_decl(o, name.as_str(), def);
    gen_def_ser(o, name.as_str(), def, is_function);
    gen_def_de(o, name.as_str(), def);
    match ret {
        Some(t) => {
            gen_def_call(o, name.as_str(), t);
        },
        None => {},
    }
    proof {
        assert(o.output@ =~= old(o).output@ + spec_gen_definition(sz, d, def@, retv));
    }
}
// ---------------------------------------------------------------------------
// The whole document.
// ---------------------------------------------------------------------------

/// The views of a sequence of strings.
pub open spec fn names_view(s: Seq<String>) -> Seq<Seq<char>> {
    s.map_values(|x: String| x@)
}

/// Whether one of the collected names equals `s`.
fn contains_string(names: &Vec<String>, s: &String) -> (b: bool)
    ensures
        b == names_view(names@).contains(s@),
{
    let mut j: usize = 0;
    let n = names.len();
    while j < n
        invariant
            j <= n == names@.len(),
            forall|k: int| 0 <= k < j ==> names_view(names@)[k] != s@,
        decreases n - j,
    {
        if names[j] == *s {
            proof {
                assert(names_view(names@)[j as int] == s@);
            }
            return true;
        }
        j = j + 1;
    }
    false
}

/// Collect the variant-group names in order of first appearance.
#[verifier::loop_isolation(false)]
fn collect_group_names(types: &Vec<TypeDefinition>) -> (r: Vec<String>)
    ensures
        names_view(r@) == group_names(crate::parser::type_defs_view(types@)),
{
    let ghost tdv = crate::parser::type_defs_view(types@);
    let mut names: Vec<String> = Vec::new();
    let mut i: usize = 0;
    let n = types.len();
    proof {
        assert(names_view(names@) =~= group_names(tdv.take(0)));
    }
    while i < n
        invariant
            i <= n == types@.len(),
            names_view(names@) == group_names(tdv.take(i as int)),
        decreases n - i,
    {
        let t = &types[i];
        proof {
            assert(tdv[i as int] == types@[i as int]@);
        }
        let ghost before = names_view(names@);
        if !contains_string(&names, &t.enum_name) {
            names.push(t.enum_name.clone());
            proof {
                assert(names_view(names@) =~= before.push(t.enum_name@));
            }
        }
        i = i + 1;
        proof {
            assert(tdv.take(i as int).drop_last() =~= tdv.take(i - 1));
            assert(tdv.take(i as int).last() == tdv[i - 1]);
            assert(names_view(names@) =~= group_names(tdv.take(i as int)));
        }
    }
    proof {
        assert(tdv.take(n as int) =~= tdv);
    }
    names
}

/// Collect the cores of the type definitions belonging to one variant group.
#[verifier::loop_isolation(false)]
fn collect_group_members<'a>(types: &'a Vec<TypeDefinition>, name: &String) -> (r: Vec<
    &'a DefinitionCore,
>)
    ensures
        cores_view(r@) == group_members(crate::parser::type_defs_view(types@), name@),
{
    let ghost tdv = crate::parser::type_defs_view(types@);
    let mut members: Vec<&DefinitionCore> = Vec::new();
    let mut i: usize = 0;
    let n = types.len();
    proof {
        assert(cores_view(members@) =~= group_members(tdv.take(0), name@));
    }
    while i < n
        invariant
            i <= n == types@.len(),
            cores_view(members@) == group_members(tdv.take(i as int), name@),
        decreases n - i,
    {
        let t = &types[i];
        proof {
            assert(tdv[i as int] == types@[i as int]@);
        }
        let ghost before = cores_view(members@);
        if t.enum_name == *name {
            members.push(&t.core);
            proof {
                assert(cores_view(members@) =~= before.push(t.core@));
            }
        }
        i = i + 1;
        proof {
            assert(tdv.take(i as int).drop_last() =~= tdv.take(i - 1));
            assert(tdv.take(i as int).last() == tdv[i - 1]);
            assert(cores_view(members@) =~= group_members(tdv.take(i as int), name@));
        }
    }
    proof {
        assert(tdv.take(n as int) =~= tdv);
    }
    members
}

/// Write the Error union of a schema.
#[verifier::spinoff_prover]
#[verifier::loop_isolation(false)]
#[verifier::rlimit(50)]
fn gen_error_union(o: &mut Output, schema: &Schema)
    requires
        old(o).indent_size <= 8,
        old(o).current_indent == 0,
    ensures
        final(o).output@ == old(o).output@ + spec_gen_enum(
            old(o).indent_size as nat,
            0,
            "Error"@,
            false,
            cores_of_errors(schema@.errors),
        ),
        final(o).indent_size == old(o).indent_size,
        final(o).current_indent == old(o).current_indent,
{
    let ghost sv = schema@;
    let mut error_cores: Vec<&DefinitionCore> = Vec::new();
    let mut i: usize = 0;
    let ne = schema.errors.len();
    proof {
        assert(cores_view(error_cores@) =~= cores_of_errors(sv.errors).take(0));
    }
    while i < ne
        invariant
            i <= ne == schema.errors@.len(),
            cores_view(error_cores@) == cores_of_errors(sv.errors).take(i as int),
        decreases ne - i,
    {
        let e = &schema.errors[i];
        let ghost before = cores_view(error_cores@);
        error_cores.push(&e.core);
        i = i + 1;
        proof {
            assert(cores_view(error_cores@) =~= before.push(e.core@));
            assert(cores_of_errors(sv.errors)[i - 1] == e.core@);
            assert(cores_view(error_cores@) =~= cores_of_errors(sv.errors).take(i as int));
        }
    }
    proof {
        assert(cores_of_errors(sv.errors).take(ne as int) =~= cores_of_errors(sv.errors));
    }
    generate_enum(o, "Error", false, &error_cores);
}

/// Write the Function union of a schema.
#[verifier::spinoff_prover]
#[verifier::loop_isolation(false)]
#[verifier::rlimit(50)]
fn gen_function_union(o: &mut Output, schema: &Schema)
    requires
        old(o).indent_size <= 8,
        old(o).current_indent == 0,
    ensures
        final(o).output@ == old(o).output@ + spec_gen_enum(
            old(o).indent_size as nat,
            0,
            "Function"@,
            true,
            cores_of_functions(schema@.functions),
        ),
        final(o).indent_size == old(o).indent_size,
        final(o).current_indent == old(o).current_indent,
{
    let ghost sv = schema@;
    let mut function_cores: Vec<&DefinitionCore> = Vec::new();
    let mut i: usize = 0;
    let nf = schema.functions.len();
    proof {
        assert(cores_view(function_cores@) =~= cores_of_functions(sv.functions).take(0));
    }
    while i < nf
        invariant
            i <= nf == schema.functions@.len(),
            cores_view(function_cores@) == cores_of_functions(sv.functions).take(i as int),
        decreases nf - i,
    {
        let f = &schema.functions[i];
        let ghost before = cores_view(function_cores@);
        function_cores.push(&f.core);
        i = i + 1;
        proof {
            assert(cores_view(function_cores@) =~= before.push(f.core@));
            assert(cores_of_functions(sv.functions)[i - 1] == f.core@);
            assert(cores_view(function_cores@) =~= cores_of_functions(sv.functions).take(
                i as int,
            ));
        }
    }
    proof {
        assert(cores_of_functions(sv.functions).take(nf as int) =~= cores_of_functions(
            sv.functions,
        ));
    }
    generate_enum(o, "Function", true, &function_cores);
}

/// Write the types namespace of a schema.
#[verifier::spinoff_prover]
#[verifier::loop_isolation(false)]
#[verifier::rlimit(50)]
fn gen_types_mod(o: &mut Output, schema: &Schema)
    requires
        old(o).indent_size <= 8,
        old(o).current_indent == 0,
    ensures
        final(o).output@ == old(o).output@ + spec_gen_types_mod(
            old(o).indent_size as nat,
            schema@,
        ),
        final(o).indent_size == old(o).indent_size,
        final(o).current_indent == old(o).current_indent,
{
    let ghost sz = o.indent_size as nat;
    let ghost sv = schema@;
    emit_line(o, "pub mod types {");
    o.increase_indent();
    let names = collect_group_names(&schema.types);
    let ghost namesv = group_names(sv.types);
    let ghost mark_groups = o.output@;
    let mut k: usize = 0;
    let ng = names.len();
    proof {
        assert(names_view(names@) == namesv);
        assert(o.output@ =~= mark_groups + spec_gen_groups(sz, 1, sv.types, namesv.take(0)));
    }
    while k < ng
        invariant
            k <= ng == names@.len(),
            o.indent_size == old(o).indent_size,
            o.current_indent == 1,
            o.output@ == mark_groups + spec_gen_groups(sz, 1, sv.types, namesv.take(k as int)),
        decreases ng - k,
    {
        let name = &names[k];
        proof {
            assert(namesv[k as int] == names@[k as int]@);
        }
        let members = collect_group_members(&schema.types, name);
        generate_enum(o, name.as_str(), false, &members);
        o.write("\n");
        k = k + 1;
        proof {
            assert(namesv.take(k as int).drop_last() =~= namesv.take(k - 1));
            assert(namesv.take(k as int).last() == namesv[k - 1]);
            assert(o.output@ =~= mark_groups + spec_gen_groups(
                sz,
                1,
                sv.types,
                namesv.take(k as int),
            ));
        }
    }
    proof {
        assert(namesv.take(ng as int) =~= namesv);
    }
    o.decrease_indent();
    emit_line(o, "}");
    proof {
        assert(o.output@ =~= old(o).output@ + spec_gen_types_mod(sz, sv));
    }
}

/// Write the functions namespace of a schema.
#[verifier::spinoff_prover]
#[verifier::loop_isolation(false)]
#[verifier::rlimit(50)]
fn gen_functions_block(o: &mut Output, schema: &Schema)
    requires
        old(o).indent_size <= 8,
        old(o).current_indent == 0,
    ensures
        final(o).output@ == old(o).output@ + spec_gen_functions_block(
            old(o).indent_size as nat,
            schema@,
        ),
        final(o).indent_size == old(o).indent_size,
        final(o).current_indent == old(o).current_indent,
{
    let ghost sz = o.indent_size as nat;
    let ghost sv = schema@;
    emit_line(o, "pub mod functions {");
    o.increase_indent();
    let ghost mark_funcs = o.output@;
    let mut m: usize = 0;
    let nf = schema.functions.len();
    proof {
        assert(o.output@ =~= mark_funcs + spec_gen_functions_mod(sz, 1, sv.functions.take(0)));
    }
    while m < nf
        invariant
            m <= nf == schema.functions@.len(),
            o.indent_size == old(o).indent_size,
            o.current_indent == 1,
            o.output@ == mark_funcs + spec_gen_functions_mod(sz, 1, sv.functions.take(m as int)),
        decreases nf - m,
    {
        let f = &schema.functions[m];
        proof {
            assert(sv.functions[m as int] == schema.functions@[m as int]@);
        }
        generate_definition(o, &f.core, Some(&f.ret));
        o.write("\n");
        m = m + 1;
        proof {
            assert(sv.functions.take(m as int).drop_last() =~= sv.functions.take(m - 1));
            assert(sv.functions.take(m as int).last() == sv.functions[m - 1]);
            assert(o.output@ =~= mark_funcs + spec_gen_functions_mod(
                sz,
                1,
                sv.functions.take(m as int),
            ));
        }
    }
    proof {
        assert(sv.functions.take(nf as int) =~= sv.functions);
    }
    o.decrease_indent();
    emit_line(o, "}");
    proof {
        assert(o.output@ =~= old(o).output@ + spec_gen_functions_block(sz, sv));
    }
}

/// Write the whole generated document for one schema.
#[verifier::spinoff_prover]
#[verifier::rlimit(50)]
fn generate_schema(o: &mut Output, schema: &Schema)
    requires
        old(o).indent_size <= 8,
        old(o).current_indent == 0,
    ensures
        final(o).output@ == old(o).output@ + spec_generate_schema(
            old(o).indent_size as nat,
            schema@,
        ),
        final(o).indent_size == old(o).indent_size,
        final(o).current_indent == old(o).current_indent,
{
    let ghost sz = o.indent_size as nat;
    let ghost sv = schema@;
    gen_error_union(o, schema);
    o.write("\n");
    gen_function_union(o, schema);
    o.write("\n");
    gen_types_mod(o, schema);
    o.write("\n");
    gen_functions_block(o, schema);
    proof {
        assert(o.output@ =~= old(o).output@ + spec_generate_schema(sz, sv));
    }
}

/// Generate the source text for a validated schema. The result is pinned
/// down character for character by `spec_generate`, so identical schemas
/// always yield identical output.
pub fn generate(schema: &Schema) -> (r: String)
    ensures
        r@ == spec_generate(schema@),
{
    let mut o = Output::new(4, 0);
    generate_schema(&mut o, schema);
    let r = o.destruct();
    proof {
        assert(r@ =~= spec_generate(schema@));
    }
    r
}

} // verus!
