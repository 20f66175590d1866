//! The schema parser and validator: turns schema text into a schema model,
//! enforcing name-uniqueness and nesting-legality rules and assigning each
//! definition its identity. The whole grammar is defined twice: once as pure
//! specification functions over character sequences (`spec_parse_schema` and
//! friends), and once executably; each executable function is proved to agree
//! with its specification exactly, on success and on failure.

use crate::identify::{compute_definition_id, spec_definition_id};
use crate::text::{chars_eq_str, chars_to_string, str_chars};
use vstd::prelude::*;
use vstd::slice::{slice_subrange, slice_to_vec};

verus! {

// ---------------------------------------------------------------------------
// The schema model.
// ---------------------------------------------------------------------------

/// A type expression of the schema language: a primitive, a vector, an
/// option, or a reference to a previously declared variant group.
#[derive(Debug)]
pub enum Type {
    Int32,
    Int64,
    Float,
    Bool,
    String,
    Bytes,
    Time,
    Vector(Box<Type>),
    Option(Box<Type>),
    Defined(String),
}

/// A named field paired with its type.
pub struct Field {
    pub name: String,
    pub typ: Type,
}

/// What every definition carries: its 32-bit identity, its name, and its
/// ordered fields. Field order is part of the wire contract.
pub struct DefinitionCore {
    pub id: u32,
    pub name: String,
    pub fields: Vec<Field>,
}

/// A `type` line: a core plus the variant group it belongs to.
pub struct TypeDefinition {
    pub core: DefinitionCore,
    pub enum_name: String,
}

/// An `error` line.
pub struct ErrorDefinition {
    pub core: DefinitionCore,
}

/// A `func` line: a core plus its declared return type.
pub struct FunctionDefinition {
    pub core: DefinitionCore,
    pub ret: Type,
}

/// A parsed schema: the three ordered collections of definitions.
pub struct Schema {
    pub types: Vec<TypeDefinition>,
    pub errors: Vec<ErrorDefinition>,
    pub functions: Vec<FunctionDefinition>,
}

/// A parse error, carrying the 1-based line number and enough context to act
/// on. The first violation aborts the whole parse.
#[allow(inconsistent_fields)]
#[derive(Debug)]
pub enum Error {
    DefinitionTypeMissing { line: usize },
    InvalidDefinitionType { line: usize },
    DefinitionNameMissing { line: usize },
    DuplicateDefinition { line: usize },
    FunctionTypeMissing { line: usize },
    FieldNameMissing { line: usize, field: usize },
    DuplicateField { line: usize, field: String },
    FieldTypeMissing { line: usize, field: String },
    InvalidType { line: usize, field: String, typ: String },
    EnumMissing { line: usize },
}

// ---------------------------------------------------------------------------
// Mathematical shapes of the model: names become character sequences.
// ---------------------------------------------------------------------------

/// The mathematical shape of a type expression.
pub enum TypeV {
    Int32,
    Int64,
    Float,
    Bool,
    String,
    Bytes,
    Time,
    Vector(Box<TypeV>),
    Option(Box<TypeV>),
    Defined(Seq<char>),
}

/// The mathematical shape of a field.
#[verifier::ext_equal]
pub struct FieldV {
    pub name: Seq<char>,
    pub typ: TypeV,
}

/// The mathematical shape of a definition core.
#[verifier::ext_equal]
pub struct CoreV {
    pub id: u32,
    pub name: Seq<char>,
    pub fields: Seq<FieldV>,
}

/// The mathematical shape of a `type` definition.
#[verifier::ext_equal]
pub struct TypeDefV {
    pub core: CoreV,
    pub enum_name: Seq<char>,
}

/// The mathematical shape of an `error` definition.
#[verifier::ext_equal]
pub struct ErrorDefV {
    pub core: CoreV,
}

/// The mathematical shape of a `func` definition.
#[verifier::ext_equal]
pub struct FunctionDefV {
    pub core: CoreV,
    pub ret: TypeV,
}

/// The mathematical shape of a schema.
#[verifier::ext_equal]
pub struct SchemaV {
    pub types: Seq<TypeDefV>,
    pub errors: Seq<ErrorDefV>,
    pub functions: Seq<FunctionDefV>,
}

/// The mathematical shape of a parse error.
#[allow(inconsistent_fields)]
pub enum ErrorV {
    DefinitionTypeMissing { line: int },
    InvalidDefinitionType { line: int },
    DefinitionNameMissing { line: int },
    DuplicateDefinition { line: int },
    FunctionTypeMissing { line: int },
    FieldNameMissing { line: int, field: int },
    DuplicateField { line: int, field: Seq<char> },
    FieldTypeMissing { line: int, field: Seq<char> },
    InvalidType { line: int, field: Seq<char>, typ: Seq<char> },
    EnumMissing { line: int },
}

// ---------------------------------------------------------------------------
// Views connecting the executable model to its mathematical shape.
// ---------------------------------------------------------------------------

/// The view of a type expression.
pub open spec fn type_view(t: Type) -> TypeV
    decreases t,
{
    match t {
        Type::Int32 => TypeV::Int32,
        Type::Int64 => TypeV::Int64,
        Type::Float => TypeV::Float,
        Type::Bool => TypeV::Bool,
        Type::String => TypeV::String,
        Type::Bytes => TypeV::Bytes,
        Type::Time => TypeV::Time,
        Type::Vector(inner) => TypeV::Vector(Box::new(type_view(*inner))),
        Type::Option(inner) => TypeV::Option(Box::new(type_view(*inner))),
        Type::Defined(name) => TypeV::Defined(name@),
    }
}

impl View for Type {
    type V = TypeV;

    open spec fn view(&self) -> TypeV {
        type_view(*self)
    }
}

impl View for Field {
    type V = FieldV;

    open spec fn view(&self) -> FieldV {
        FieldV { name: self.name@, typ: self.typ@ }
    }
}

impl View for DefinitionCore {
    type V = CoreV;

    open spec fn view(&self) -> CoreV {
        CoreV {
            id: self.id,
            name: self.name@,
            fields: self.fields@.map_values(|f: Field| f@),
        }
    }
}

impl View for TypeDefinition {
    type V = TypeDefV;

    open spec fn view(&self) -> TypeDefV {
        TypeDefV { core: self.core@, enum_name: self.enum_name@ }
    }
}

impl View for ErrorDefinition {
    type V = ErrorDefV;

    open spec fn view(&self) -> ErrorDefV {
        ErrorDefV { core: self.core@ }
    }
}

impl View for FunctionDefinition {
    type V = FunctionDefV;

    open spec fn view(&self) -> FunctionDefV {
        FunctionDefV { core: self.core@, ret: self.ret@ }
    }
}

impl View for Schema {
    type V = SchemaV;

    open spec fn view(&self) -> SchemaV {
        SchemaV {
            types: self.types@.map_values(|d: TypeDefinition| d@),
            errors: self.errors@.map_values(|d: ErrorDefinition| d@),
            functions: self.functions@.map_values(|d: FunctionDefinition| d@),
        }
    }
}

impl View for Error {
    type V = ErrorV;

    open spec fn view(&self) -> ErrorV {
        match self {
            Error::DefinitionTypeMissing { line } => ErrorV::DefinitionTypeMissing {
                line: *line as int,
            },
            Error::InvalidDefinitionType { line } => ErrorV::InvalidDefinitionType {
                line: *line as int,
            },
            Error::DefinitionNameMissing { line } => ErrorV::DefinitionNameMissing {
                line: *line as int,
            },
            Error::DuplicateDefinition { line } => ErrorV::DuplicateDefinition {
                line: *line as int,
            },
            Error::FunctionTypeMissing { line } => ErrorV::FunctionTypeMissing {
                line: *line as int,
            },
            Error::FieldNameMissing { line, field } => ErrorV::FieldNameMissing {
                line: *line as int,
                field: *field as int,
            },
            Error::DuplicateField { line, field } => ErrorV::DuplicateField {
                line: *line as int,
                field: field@,
            },
            Error::FieldTypeMissing { line, field } => ErrorV::FieldTypeMissing {
                line: *line as int,
                field: field@,
            },
            Error::InvalidType { line, field, typ } => ErrorV::InvalidType {
                line: *line as int,
                field: field@,
                typ: typ@,
            },
            Error::EnumMissing { line } => ErrorV::EnumMissing { line: *line as int },
        }
    }
}

/// The views of a sequence of token vectors.
pub open spec fn toks_view(toks: Seq<Vec<char>>) -> Seq<Seq<char>> {
    toks.map_values(|v: Vec<char>| v@)
}

/// The views of a sequence of type definitions.
pub open spec fn type_defs_view(defs: Seq<TypeDefinition>) -> Seq<TypeDefV> {
    defs.map_values(|d: TypeDefinition| d@)
}

/// The views of a sequence of error definitions.
pub open spec fn error_defs_view(defs: Seq<ErrorDefinition>) -> Seq<ErrorDefV> {
    defs.map_values(|d: ErrorDefinition| d@)
}

/// The views of a sequence of function definitions.
pub open spec fn function_defs_view(defs: Seq<FunctionDefinition>) -> Seq<FunctionDefV> {
    defs.map_values(|d: FunctionDefinition| d@)
}

/// The views of a sequence of fields.
pub open spec fn fields_view(fields: Seq<Field>) -> Seq<FieldV> {
    fields.map_values(|f: Field| f@)
}

// ---------------------------------------------------------------------------
// Splitting character sequences on a separator.
// ---------------------------------------------------------------------------

/// The index of the first occurrence of `sep` in `s`, or -1 if none.
pub open spec fn first_index_of(s: Seq<char>, sep: char) -> int
    decreases s.len(),
{
    if s.len() == 0 {
        -1
    } else if s[0] == sep {
        0
    } else {
        let r = first_index_of(s.skip(1), sep);
        if r < 0 {
            -1
        } else {
            r + 1
        }
    }
}

/// Characterisation of `first_index_of`: -1 means the separator never occurs,
/// a nonnegative result is the position of its first occurrence.
pub proof fn lemma_first_index_of(s: Seq<char>, sep: char)
    ensures
        first_index_of(s, sep) == -1 ==> forall|i: int| 0 <= i < s.len() ==> s[i] != sep,
        first_index_of(s, sep) >= 0 ==> {
            let r = first_index_of(s, sep);
            &&& r < s.len()
            &&& s[r] == sep
            &&& forall|i: int| 0 <= i < r ==> s[i] != sep
        },
    decreases s.len(),
{
    if s.len() > 0 && s[0] != sep {
        let t = s.skip(1);
        lemma_first_index_of(t, sep);
        let r = first_index_of(s, sep);
        if r == -1 {
            assert forall|i: int| 0 <= i < s.len() implies s[i] != sep by {
                if i >= 1 {
                    assert(t[i - 1] != sep);
                    assert(s[i] == t[i - 1]);
                }
            }
        } else {
            assert(r == first_index_of(t, sep) + 1);
            assert(s[r] == t[r - 1]);
            assert forall|i: int| 0 <= i < r implies s[i] != sep by {
                if i >= 1 {
                    assert(t[i - 1] != sep);
                    assert(s[i] == t[i - 1]);
                }
            }
        }
    }
}

/// `first_index_of` from a witness: the first position holding the separator.
pub proof fn lemma_first_index_of_is(s: Seq<char>, sep: char, i: int)
    requires
        0 <= i < s.len(),
        s[i] == sep,
        forall|j: int| 0 <= j < i ==> s[j] != sep,
    ensures
        first_index_of(s, sep) == i,
    decreases s.len(),
{
    if i > 0 {
        lemma_first_index_of_is(s.skip(1), sep, i - 1);
    }
}

/// `first_index_of` when the separator never occurs.
pub proof fn lemma_first_index_of_none(s: Seq<char>, sep: char)
    requires
        forall|j: int| 0 <= j < s.len() ==> s[j] != sep,
    ensures
        first_index_of(s, sep) == -1,
    decreases s.len(),
{
    if s.len() > 0 {
        lemma_first_index_of_none(s.skip(1), sep);
    }
}

/// Split `s` at every occurrence of `sep`. `n` separators yield `n + 1`
/// segments, so an empty input yields one empty segment.
pub open spec fn split_char(s: Seq<char>, sep: char) -> Seq<Seq<char>>
    decreases s.len(),
    via split_char_decreases
{
    let i = first_index_of(s, sep);
    if i < 0 {
        seq![s]
    } else {
        seq![s.take(i)] + split_char(s.skip(i + 1), sep)
    }
}

#[via_fn]
proof fn split_char_decreases(s: Seq<char>, sep: char) {
    lemma_first_index_of(s, sep);
}

/// A schema text splits into at least one line, and a line into at least one
/// token.
pub proof fn lemma_split_char_nonempty(s: Seq<char>, sep: char)
    ensures
        split_char(s, sep).len() >= 1,
{
}

// ---------------------------------------------------------------------------
// The specification-level parser.
// ---------------------------------------------------------------------------

/// The position a type expression occupies in its parent, for the nesting
/// rules.
#[derive(Clone, Copy)]
pub enum OuterType {
    Vector,
    Option,
}

/// Whether a parsed type may stand directly inside the given parent: a Vector
/// may not directly contain an Option, and an Option may not directly contain
/// a Bool, a Vector, or another Option.
pub open spec fn nesting_violation(outer: Option<OuterType>, t: TypeV) -> bool {
    match (outer, t) {
        (Some(OuterType::Vector), TypeV::Option(_)) => true,
        (Some(OuterType::Option), TypeV::Bool) => true,
        (Some(OuterType::Option), TypeV::Vector(_)) => true,
        (Some(OuterType::Option), TypeV::Option(_)) => true,
        _ => false,
    }
}

/// The rendering of a type expression used in diagnostics.
pub open spec fn spec_type_debug(t: TypeV) -> Seq<char>
    decreases t,
{
    match t {
        TypeV::Int32 => "Int32"@,
        TypeV::Int64 => "Int64"@,
        TypeV::Float => "Float"@,
        TypeV::Bool => "Bool"@,
        TypeV::String => "String"@,
        TypeV::Bytes => "Bytes"@,
        TypeV::Time => "Time"@,
        TypeV::Vector(inner) => "Vector("@ + spec_type_debug(*inner) + ")"@,
        TypeV::Option(inner) => "Option("@ + spec_type_debug(*inner) + ")"@,
        TypeV::Defined(name) => "Defined(\""@ + name + "\")"@,
    }
}

/// The diagnostic text for an illegal nesting: the parent's name around the
/// offending type's rendering.
pub open spec fn nesting_text(outer: Option<OuterType>, t: TypeV) -> Seq<char> {
    (match outer {
        Some(OuterType::Vector) => "Vector"@,
        Some(OuterType::Option) => "Option"@,
        None => ""@,
    }) + "<"@ + spec_type_debug(t) + ">"@
}

/// Whether some declared variant group carries this name.
pub open spec fn spec_enum_defined(name: Seq<char>, types: Seq<TypeDefV>) -> bool {
    exists|i: int| 0 <= i < types.len() && types[i].enum_name == name
}

/// Whether a `type` definition with this name was already accepted.
pub open spec fn spec_type_defined(name: Seq<char>, types: Seq<TypeDefV>) -> bool {
    exists|i: int| 0 <= i < types.len() && types[i].core.name == name
}

/// Whether an `error` definition with this name was already accepted.
pub open spec fn spec_error_defined(name: Seq<char>, errors: Seq<ErrorDefV>) -> bool {
    exists|i: int| 0 <= i < errors.len() && errors[i].core.name == name
}

/// Whether a `func` definition with this name was already accepted.
pub open spec fn spec_function_defined(name: Seq<char>, functions: Seq<FunctionDefV>) -> bool {
    exists|i: int| 0 <= i < functions.len() && functions[i].core.name == name
}

/// Whether a field with this name was already accepted on the current line.
pub open spec fn spec_field_defined(name: Seq<char>, fields: Seq<FieldV>) -> bool {
    exists|i: int| 0 <= i < fields.len() && fields[i].name == name
}

/// Parse one type token through the recursive type grammar. `outer` is the
/// position the result will occupy, for the nesting rules; `field` only
/// names the surrounding field in diagnostics.
pub open spec fn spec_parse_type(
    lineno: int,
    field: Seq<char>,
    typ: Seq<char>,
    types: Seq<TypeDefV>,
    outer: Option<OuterType>,
) -> Result<TypeV, ErrorV>
    decreases typ.len(),
{
    let parsed: Result<TypeV, ErrorV> = if typ == "int32"@ {
        Ok(TypeV::Int32)
    } else if typ == "int64"@ {
        Ok(TypeV::Int64)
    } else if typ == "float"@ {
        Ok(TypeV::Float)
    } else if typ == "bool"@ {
        Ok(TypeV::Bool)
    } else if typ == "string"@ {
        Ok(TypeV::String)
    } else if typ == "bytes"@ {
        Ok(TypeV::Bytes)
    } else if typ == "time"@ {
        Ok(TypeV::Time)
    } else if typ.len() >= 2 && typ[0] == '[' && typ[typ.len() - 1] == ']' {
        match spec_parse_type(
            lineno,
            field,
            typ.subrange(1, typ.len() - 1),
            types,
            Some(OuterType::Vector),
        ) {
            Ok(t) => Ok(TypeV::Vector(Box::new(t))),
            Err(e) => Err(e),
        }
    } else if typ.len() >= 1 && typ[typ.len() - 1] == '?' {
        match spec_parse_type(
            lineno,
            field,
            typ.take(typ.len() - 1),
            types,
            Some(OuterType::Option),
        ) {
            Ok(t) => Ok(TypeV::Option(Box::new(t))),
            Err(e) => Err(e),
        }
    } else if spec_enum_defined(typ, types) {
        Ok(TypeV::Defined(typ))
    } else {
        Err(ErrorV::InvalidType { line: lineno, field, typ })
    };
    match parsed {
        Ok(t) => if nesting_violation(outer, t) {
            Err(ErrorV::InvalidType { line: lineno, field, typ: nesting_text(outer, t) })
        } else {
            Ok(t)
        },
        Err(e) => Err(e),
    }
}

/// Parse field tokens from position `j` until the stop token or the end of
/// the line; yields the fields and the position after the stop token.
pub open spec fn spec_parse_fields(
    lineno: int,
    toks: Seq<Seq<char>>,
    j: int,
    types: Seq<TypeDefV>,
    stop: Seq<char>,
    acc: Seq<FieldV>,
) -> Result<(Seq<FieldV>, int), ErrorV>
    decreases toks.len() - j,
{
    if j < 0 || j >= toks.len() {
        Ok((acc, toks.len() as int))
    } else if toks[j] == stop {
        Ok((acc, j + 1))
    } else {
        let tok = toks[j];
        let ci = first_index_of(tok, ':');
        let name = if ci < 0 {
            tok
        } else {
            tok.take(ci)
        };
        if spec_field_defined(name, acc) {
            Err(ErrorV::DuplicateField { line: lineno, field: name })
        } else if ci < 0 {
            Err(ErrorV::FieldTypeMissing { line: lineno, field: name })
        } else {
            let after = tok.skip(ci + 1);
            let ci2 = first_index_of(after, ':');
            let typ_text = if ci2 < 0 {
                after
            } else {
                after.take(ci2)
            };
            match spec_parse_type(lineno, name, typ_text, types, None) {
                Ok(t) => spec_parse_fields(
                    lineno,
                    toks,
                    j + 1,
                    types,
                    stop,
                    acc.push(FieldV { name, typ: t }),
                ),
                Err(e) => Err(e),
            }
        }
    }
}

/// Parse a definition's name and fields; yields the core and the token
/// position after the field list.
pub open spec fn spec_parse_core(
    id: u32,
    lineno: int,
    toks: Seq<Seq<char>>,
    types: Seq<TypeDefV>,
) -> Result<(CoreV, int), ErrorV> {
    if toks.len() < 2 {
        Err(ErrorV::DefinitionNameMissing { line: lineno })
    } else {
        let name = toks[1];
        match spec_parse_fields(lineno, toks, 2, types, "="@, Seq::empty()) {
            Ok((fields, next)) => Ok((CoreV { id, name, fields }, next)),
            Err(e) => Err(e),
        }
    }
}

/// Parse a `type` line: a core, a duplicate check, and the variant-group
/// trailer.
pub open spec fn spec_parse_type_def(
    id: u32,
    lineno: int,
    toks: Seq<Seq<char>>,
    types: Seq<TypeDefV>,
) -> Result<TypeDefV, ErrorV> {
    match spec_parse_core(id, lineno, toks, types) {
        Ok((core, next)) => if spec_type_defined(core.name, types) {
            Err(ErrorV::DuplicateDefinition { line: lineno })
        } else if next >= toks.len() {
            Err(ErrorV::EnumMissing { line: lineno })
        } else {
            Ok(TypeDefV { core, enum_name: toks[next] })
        },
        Err(e) => Err(e),
    }
}

/// Parse an `error` line: a core and a duplicate check.
pub open spec fn spec_parse_error_def(
    id: u32,
    lineno: int,
    toks: Seq<Seq<char>>,
    types: Seq<TypeDefV>,
    errors: Seq<ErrorDefV>,
) -> Result<ErrorDefV, ErrorV> {
    match spec_parse_core(id, lineno, toks, types) {
        Ok((core, _)) => if spec_error_defined(core.name, errors) {
            Err(ErrorV::DuplicateDefinition { line: lineno })
        } else {
            Ok(ErrorDefV { core })
        },
        Err(e) => Err(e),
    }
}

/// Parse a `func` line: a core, a duplicate check, and the return-type
/// trailer.
pub open spec fn spec_parse_function_def(
    id: u32,
    lineno: int,
    toks: Seq<Seq<char>>,
    types: Seq<TypeDefV>,
    functions: Seq<FunctionDefV>,
) -> Result<FunctionDefV, ErrorV> {
    match spec_parse_core(id, lineno, toks, types) {
        Ok((core, next)) => if spec_function_defined(core.name, functions) {
            Err(ErrorV::DuplicateDefinition { line: lineno })
        } else if next >= toks.len() {
            Err(ErrorV::FunctionTypeMissing { line: lineno })
        } else {
            match spec_parse_type(lineno, "<return>"@, toks[next], types, None) {
                Ok(ret) => Ok(FunctionDefV { core, ret }),
                Err(e) => Err(e),
            }
        },
        Err(e) => Err(e),
    }
}

/// Whether a line is skipped: blank lines, lines beginning with a space, and
/// comment lines beginning with `#`.
pub open spec fn spec_line_skipped(line: Seq<char>) -> bool {
    line.len() == 0 || line[0] == '#' || line[0] == ' '
}

/// Parse one line into the accumulated schema: a skip, one new definition of
/// the kind its first token selects, or an error.
pub open spec fn spec_parse_line(line: Seq<char>, lineno: int, acc: SchemaV) -> Result<
    SchemaV,
    ErrorV,
> {
    if spec_line_skipped(line) {
        Ok(acc)
    } else {
        let id = spec_definition_id(line);
        let toks = split_char(line, ' ');
        let kind = toks[0];
        if kind == "type"@ {
            match spec_parse_type_def(id, lineno, toks, acc.types) {
                Ok(td) => Ok(SchemaV { types: acc.types.push(td), ..acc }),
                Err(e) => Err(e),
            }
        } else if kind == "error"@ {
            match spec_parse_error_def(id, lineno, toks, acc.types, acc.errors) {
                Ok(ed) => Ok(SchemaV { errors: acc.errors.push(ed), ..acc }),
                Err(e) => Err(e),
            }
        } else if kind == "func"@ {
            match spec_parse_function_def(id, lineno, toks, acc.types, acc.functions) {
                Ok(fd) => Ok(SchemaV { functions: acc.functions.push(fd), ..acc }),
                Err(e) => Err(e),
            }
        } else {
            Err(ErrorV::InvalidDefinitionType { line: lineno })
        }
    }
}

/// Parse lines from position `i` on into the accumulated schema.
pub open spec fn spec_parse_lines(lines: Seq<Seq<char>>, i: int, acc: SchemaV) -> Result<
    SchemaV,
    ErrorV,
>
    decreases lines.len() - i,
{
    if i < 0 || i >= lines.len() {
        Ok(acc)
    } else {
        match spec_parse_line(lines[i], i + 1, acc) {
            Ok(acc2) => spec_parse_lines(lines, i + 1, acc2),
            Err(e) => Err(e),
        }
    }
}

/// The empty schema that parsing starts from.
pub open spec fn spec_empty_schema() -> SchemaV {
    SchemaV { types: Seq::empty(), errors: Seq::empty(), functions: Seq::empty() }
}

/// The total parse function: schema text to schema model or first error.
pub open spec fn spec_parse_schema(text: Seq<char>) -> Result<SchemaV, ErrorV> {
    spec_parse_lines(split_char(text, '\n'), 0, spec_empty_schema())
}

// ---------------------------------------------------------------------------
// Well-formedness of parsed schemas.
// ---------------------------------------------------------------------------

/// The nesting-legality invariant of a type expression: a Vector never
/// directly contains an Option, and an Option never directly contains a Bool,
/// a Vector, or another Option.
pub open spec fn type_legal(t: TypeV) -> bool
    decreases t,
{
    match t {
        TypeV::Vector(inner) => !(*inner is Option) && type_legal(*inner),
        TypeV::Option(inner) => !(*inner is Bool) && !(*inner is Vector) && !(*inner is Option)
            && type_legal(*inner),
        _ => true,
    }
}

/// Whether every Defined reference inside `t` names a variant group declared
/// among the first `upto` type definitions.
pub open spec fn type_resolves(t: TypeV, types: Seq<TypeDefV>, upto: int) -> bool
    decreases t,
{
    match t {
        TypeV::Vector(inner) => type_resolves(*inner, types, upto),
        TypeV::Option(inner) => type_resolves(*inner, types, upto),
        TypeV::Defined(name) => exists|i: int|
            0 <= i < upto <= types.len() && types[i].enum_name == name,
        _ => true,
    }
}

/// Well-formedness of one definition core: field names unique, every field
/// type legal and resolved against the first `upto` type definitions.
pub open spec fn core_wf(core: CoreV, types: Seq<TypeDefV>, upto: int) -> bool {
    &&& forall|i: int, j: int|
        0 <= i < j < core.fields.len() ==> core.fields[i].name != core.fields[j].name
    &&& forall|i: int|
        0 <= i < core.fields.len() ==> type_legal(#[trigger] core.fields[i].typ)
            && type_resolves(core.fields[i].typ, types, upto)
}

/// Well-formedness of a parsed schema: names unique per kind, every
/// definition's fields well-formed, and every type definition's references
/// resolved only against groups declared on strictly earlier `type` lines.
pub open spec fn schema_wf(s: SchemaV) -> bool {
    &&& forall|i: int, j: int|
        0 <= i < j < s.types.len() ==> s.types[i].core.name != s.types[j].core.name
    &&& forall|i: int, j: int|
        0 <= i < j < s.errors.len() ==> s.errors[i].core.name != s.errors[j].core.name
    &&& forall|i: int, j: int|
        0 <= i < j < s.functions.len() ==> s.functions[i].core.name != s.functions[j].core.name
    &&& forall|i: int| 0 <= i < s.types.len() ==> core_wf(#[trigger] s.types[i].core, s.types, i)
    &&& forall|i: int|
        0 <= i < s.errors.len() ==> core_wf(
            #[trigger] s.errors[i].core,
            s.types,
            s.types.len() as int,
        )
    &&& forall|i: int|
        0 <= i < s.functions.len() ==> core_wf(
            #[trigger] s.functions[i].core,
            s.types,
            s.types.len() as int,
        ) && type_legal(s.functions[i].ret) && type_resolves(
            s.functions[i].ret,
            s.types,
            s.types.len() as int,
        )
}

/// A type accepted by the type grammar is legal, resolves against the groups
/// it was checked against, and does not violate the nesting rule of the
/// position it was parsed for.
proof fn lemma_parse_type_wf(
    lineno: int,
    field: Seq<char>,
    typ: Seq<char>,
    types: Seq<TypeDefV>,
    outer: Option<OuterType>,
)
    ensures
        spec_parse_type(lineno, field, typ, types, outer) matches Ok(t) ==> type_legal(t)
            && type_resolves(t, types, types.len() as int) && !nesting_violation(outer, t),
    decreases typ.len(),
{
    if typ.len() >= 2 && typ[0] == '[' && typ[typ.len() - 1] == ']' {
        lemma_parse_type_wf(
            lineno,
            field,
            typ.subrange(1, typ.len() - 1),
            types,
            Some(OuterType::Vector),
        );
    } else if typ.len() >= 1 && typ[typ.len() - 1] == '?' {
        lemma_parse_type_wf(
            lineno,
            field,
            typ.take(typ.len() - 1),
            types,
            Some(OuterType::Option),
        );
    }
}

/// Fields accepted by the field grammar extend the accumulator keeping names
/// unique and types legal and resolved.
proof fn lemma_parse_fields_wf(
    lineno: int,
    toks: Seq<Seq<char>>,
    j: int,
    types: Seq<TypeDefV>,
    stop: Seq<char>,
    acc: Seq<FieldV>,
)
    requires
        forall|a: int, b: int| 0 <= a < b < acc.len() ==> acc[a].name != acc[b].name,
        forall|a: int|
            0 <= a < acc.len() ==> type_legal(#[trigger] acc[a].typ) && type_resolves(
                acc[a].typ,
                types,
                types.len() as int,
            ),
    ensures
        spec_parse_fields(lineno, toks, j, types, stop, acc) matches Ok(p) ==> {
            &&& forall|a: int, b: int| 0 <= a < b < p.0.len() ==> p.0[a].name != p.0[b].name
            &&& forall|a: int|
                0 <= a < p.0.len() ==> type_legal(#[trigger] p.0[a].typ) && type_resolves(
                    p.0[a].typ,
                    types,
                    types.len() as int,
                )
        },
    decreases toks.len() - j,
{
    if j < 0 || j >= toks.len() || toks[j] == stop {
    } else {
        let tok = toks[j];
        let ci = first_index_of(tok, ':');
        let name = if ci < 0 {
            tok
        } else {
            tok.take(ci)
        };
        if !spec_field_defined(name, acc) && ci >= 0 {
            let after = tok.skip(ci + 1);
            let ci2 = first_index_of(after, ':');
            let typ_text = if ci2 < 0 {
                after
            } else {
                after.take(ci2)
            };
            match spec_parse_type(lineno, name, typ_text, types, None) {
                Ok(t) => {
                    lemma_parse_type_wf(lineno, name, typ_text, types, None);
                    let acc2 = acc.push(FieldV { name, typ: t });
                    assert(forall|a: int|
                        0 <= a < acc.len() ==> acc2[a] == acc[a]);
                    assert(forall|a: int, b: int|
                        0 <= a < b < acc2.len() ==> acc2[a].name != acc2[b].name);
                    lemma_parse_fields_wf(lineno, toks, j + 1, types, stop, acc2);
                },
                Err(_) => {},
            }
        }
    }
}

/// Resolution is preserved when later type definitions are appended.
proof fn lemma_type_resolves_push(t: TypeV, types: Seq<TypeDefV>, upto: int, d: TypeDefV)
    requires
        type_resolves(t, types, upto),
        upto <= types.len(),
    ensures
        type_resolves(t, types.push(d), upto),
    decreases t,
{
    match t {
        TypeV::Vector(inner) => lemma_type_resolves_push(*inner, types, upto, d),
        TypeV::Option(inner) => lemma_type_resolves_push(*inner, types, upto, d),
        TypeV::Defined(name) => {
            let i = choose|i: int| 0 <= i < upto <= types.len() && types[i].enum_name == name;
            assert(types.push(d)[i].enum_name == name);
        },
        _ => {},
    }
}

/// `core_wf` is preserved when later type definitions are appended.
proof fn lemma_core_wf_push(core: CoreV, types: Seq<TypeDefV>, upto: int, d: TypeDefV)
    requires
        core_wf(core, types, upto),
        upto <= types.len(),
    ensures
        core_wf(core, types.push(d), upto),
{
    assert forall|i: int| 0 <= i < core.fields.len() implies type_legal(
        #[trigger] core.fields[i].typ,
    ) && type_resolves(core.fields[i].typ, types.push(d), upto) by {
        lemma_type_resolves_push(core.fields[i].typ, types, upto, d);
    }
}

/// One accepted line preserves schema well-formedness.
proof fn lemma_parse_line_wf(line: Seq<char>, lineno: int, acc: SchemaV)
    requires
        schema_wf(acc),
    ensures
        spec_parse_line(line, lineno, acc) matches Ok(acc2) ==> schema_wf(acc2),
{
    if spec_line_skipped(line) {
    } else {
        let id = spec_definition_id(line);
        let toks = split_char(line, ' ');
        let kind = toks[0];
        let types = acc.types;
        if kind == "type"@ {
            match spec_parse_core(id, lineno, toks, types) {
                Ok((core, next)) => {
                    lemma_parse_fields_wf(lineno, toks, 2, types, "="@, Seq::empty());
                    if !spec_type_defined(core.name, types) && next < toks.len() {
                        let d = TypeDefV { core, enum_name: toks[next] };
                        let s2 = SchemaV { types: types.push(d), ..acc };
                        assert forall|i: int| 0 <= i < s2.types.len() implies core_wf(
                            #[trigger] s2.types[i].core,
                            s2.types,
                            i,
                        ) by {
                            if i < types.len() {
                                assert(s2.types[i] == types[i]);
                                lemma_core_wf_push(types[i].core, types, i, d);
                            } else {
                                assert(s2.types[i] == d);
                                lemma_core_wf_push(core, types, types.len() as int, d);
                            }
                        }
                        assert forall|i: int| 0 <= i < s2.errors.len() implies core_wf(
                            #[trigger] s2.errors[i].core,
                            s2.types,
                            s2.types.len() as int,
                        ) by {
                            lemma_core_wf_push(
                                acc.errors[i].core,
                                types,
                                types.len() as int,
                                d,
                            );
                            assert(core_wf(acc.errors[i].core, s2.types, types.len() as int));
                            lemma_core_wf_weaken(acc.errors[i].core, s2.types, types.len() as int);
                        }
                        assert forall|i: int| 0 <= i < s2.functions.len() implies core_wf(
                            #[trigger] s2.functions[i].core,
                            s2.types,
                            s2.types.len() as int,
                        ) && type_legal(s2.functions[i].ret) && type_resolves(
                            s2.functions[i].ret,
                            s2.types,
                            s2.types.len() as int,
                        ) by {
                            lemma_core_wf_push(
                                acc.functions[i].core,
                                types,
                                types.len() as int,
                                d,
                            );
                            lemma_core_wf_weaken(
                                acc.functions[i].core,
                                s2.types,
                                types.len() as int,
                            );
                            lemma_type_resolves_push(
                                acc.functions[i].ret,
                                types,
                                types.len() as int,
                                d,
                            );
                            lemma_type_resolves_weaken(
                                acc.functions[i].ret,
                                s2.types,
                                types.len() as int,
                            );
                        }
                        assert(schema_wf(s2));
                    }
                },
                Err(_) => {},
            }
        } else if kind == "error"@ {
            match spec_parse_core(id, lineno, toks, types) {
                Ok((core, _)) => {
                    lemma_parse_fields_wf(lineno, toks, 2, types, "="@, Seq::empty());
                },
                Err(_) => {},
            }
        } else if kind == "func"@ {
            match spec_parse_core(id, lineno, toks, types) {
                Ok((core, next)) => {
                    lemma_parse_fields_wf(lineno, toks, 2, types, "="@, Seq::empty());
                    if !spec_function_defined(core.name, acc.functions) && next < toks.len() {
                        lemma_parse_type_wf(lineno, "<return>"@, toks[next], types, None);
                    }
                },
                Err(_) => {},
            }
        }
    }
}

/// A resolution bound below the length may be weakened to a larger bound.
proof fn lemma_type_resolves_weaken(t: TypeV, types: Seq<TypeDefV>, upto: int)
    requires
        type_resolves(t, types, upto),
        upto <= types.len(),
    ensures
        type_resolves(t, types, types.len() as int),
    decreases t,
{
    match t {
        TypeV::Vector(inner) => lemma_type_resolves_weaken(*inner, types, upto),
        TypeV::Option(inner) => lemma_type_resolves_weaken(*inner, types, upto),
        TypeV::Defined(name) => {
            let i = choose|i: int| 0 <= i < upto <= types.len() && types[i].enum_name == name;
            assert(0 <= i < types.len() <= types.len() && types[i].enum_name == name);
        },
        _ => {},
    }
}

/// `core_wf` with a bound below the length may be weakened to the full list.
proof fn lemma_core_wf_weaken(core: CoreV, types: Seq<TypeDefV>, upto: int)
    requires
        core_wf(core, types, upto),
        upto <= types.len(),
    ensures
        core_wf(core, types, types.len() as int),
{
    assert forall|i: int| 0 <= i < core.fields.len() implies type_legal(
        #[trigger] core.fields[i].typ,
    ) && type_resolves(core.fields[i].typ, types, types.len() as int) by {
        lemma_type_resolves_weaken(core.fields[i].typ, types, upto);
    }
}

/// Parsing from a well-formed accumulator yields a well-formed schema.
proof fn lemma_parse_lines_wf(lines: Seq<Seq<char>>, i: int, acc: SchemaV)
    requires
        schema_wf(acc),
    ensures
        spec_parse_lines(lines, i, acc) matches Ok(s) ==> schema_wf(s),
    decreases lines.len() - i,
{
    if 0 <= i < lines.len() {
        lemma_parse_line_wf(lines[i], i + 1, acc);
        match spec_parse_line(lines[i], i + 1, acc) {
            Ok(acc2) => lemma_parse_lines_wf(lines, i + 1, acc2),
            Err(_) => {},
        }
    }
}

/// Law: every schema that parses successfully is well-formed. In particular
/// no two `type`, `error` or `func` definitions share a name, no definition
/// has two fields of one name, every field and return type obeys the nesting
/// rules (a Vector never directly contains an Option; an Option never
/// directly contains a Bool, a Vector or an Option), and every Defined
/// reference names a declared variant group — for `type` lines, one declared
/// on a strictly earlier line, so reference cycles cannot parse.
pub proof fn lemma_parse_ok_wf(text: Seq<char>)
    ensures
        spec_parse_schema(text) matches Ok(s) ==> schema_wf(s),
{
    lemma_parse_lines_wf(split_char(text, '\n'), 0, spec_empty_schema());
}

/// A definition accepted from a line carries that line's identity: whichever
/// kind the line declares, the definition appended to the schema has id
/// `spec_definition_id` of the raw line text.
pub proof fn lemma_accepted_definition_id(line: Seq<char>, lineno: int, acc: SchemaV)
    ensures
        spec_parse_line(line, lineno, acc) matches Ok(acc2) ==> {
            &&& acc2.types.len() > acc.types.len() ==> acc2.types.last().core.id
                == spec_definition_id(line)
            &&& acc2.errors.len() > acc.errors.len() ==> acc2.errors.last().core.id
                == spec_definition_id(line)
            &&& acc2.functions.len() > acc.functions.len() ==> acc2.functions.last().core.id
                == spec_definition_id(line)
        },
{
}

/// Law: identity stability. Parsing byte-identical definition lines, in the
/// same or different schemas, at whatever positions, always yields
/// definitions with the same 32-bit identity.
pub proof fn lemma_identity_stability(
    line_a: Seq<char>,
    lineno_a: int,
    acc_a: SchemaV,
    line_b: Seq<char>,
    lineno_b: int,
    acc_b: SchemaV,
)
    requires
        line_a == line_b,
    ensures
        match (spec_parse_line(line_a, lineno_a, acc_a), spec_parse_line(line_b, lineno_b, acc_b)) {
            (Ok(r_a), Ok(r_b)) => {
                &&& r_a.types.len() > acc_a.types.len() && r_b.types.len() > acc_b.types.len()
                    ==> r_a.types.last().core.id == r_b.types.last().core.id
                &&& r_a.errors.len() > acc_a.errors.len() && r_b.errors.len() > acc_b.errors.len()
                    ==> r_a.errors.last().core.id == r_b.errors.last().core.id
                &&& r_a.functions.len() > acc_a.functions.len() && r_b.functions.len()
                    > acc_b.functions.len() ==> r_a.functions.last().core.id
                    == r_b.functions.last().core.id
            },
            _ => true,
        },
{
    lemma_accepted_definition_id(line_a, lineno_a, acc_a);
    lemma_accepted_definition_id(line_b, lineno_b, acc_b);
}

/// Find the first occurrence of `sep`, executably.
pub fn find_char(s: &[char], sep: char) -> (r: Option<usize>)
    ensures
        match r {
            Some(i) => first_index_of(s@, sep) == i,
            None => first_index_of(s@, sep) == -1,
        },
{
    let mut i: usize = 0;
    let n = s.len();
    while i < n
        invariant
            i <= n == s@.len(),
            forall|j: int| 0 <= j < i ==> s@[j] != sep,
        decreases n - i,
    {
        if *vstd::slice::slice_index_get(s, i) == sep {
            proof {
                lemma_first_index_of_is(s@, sep, i as int);
            }
            return Some(i);
        }
        i = i + 1;
    }
    proof {
        lemma_first_index_of_none(s@, sep);
    }
    None
}

/// Split a character slice at every occurrence of `sep`, executably.
pub fn split_chars(s: &[char], sep: char) -> (r: Vec<Vec<char>>)
    ensures
        toks_view(r@) == split_char(s@, sep),
    decreases s@.len(),
{
    match find_char(s, sep) {
        None => {
            let seg = slice_to_vec(s);
            let mut r: Vec<Vec<char>> = Vec::new();
            r.push(seg);
            proof {
                assert(toks_view(r@) =~= split_char(s@, sep));
            }
            r
        },
        Some(i) => {
            proof {
                lemma_first_index_of(s@, sep);
            }
            let n = s.len();
            let head = slice_to_vec(slice_subrange(s, 0, i));
            let tail = slice_subrange(s, i + 1, n);
            let mut r = split_chars(tail, sep);
            r.insert(0, head);
            proof {
                assert(head@ =~= s@.take(i as int));
                assert(tail@ =~= s@.skip(i + 1));
                assert(toks_view(r@) =~= split_char(s@, sep));
            }
            r
        },
    }
}

// ---------------------------------------------------------------------------
// The executable parser, proved against the specification parser.
// ---------------------------------------------------------------------------

/// Render a type expression for diagnostics.
fn type_debug(t: &Type) -> (r: String)
    ensures
        r@ == spec_type_debug(t@),
    decreases t,
{
    match t {
        Type::Int32 => "Int32".to_owned(),
        Type::Int64 => "Int64".to_owned(),
        Type::Float => "Float".to_owned(),
        Type::Bool => "Bool".to_owned(),
        Type::String => "String".to_owned(),
        Type::Bytes => "Bytes".to_owned(),
        Type::Time => "Time".to_owned(),
        Type::Vector(inner) => {
            let mut s = "Vector(".to_owned();
            let body = type_debug(inner);
            s.append(body.as_str());
            s.append(")");
            s
        },
        Type::Option(inner) => {
            let mut s = "Option(".to_owned();
            let body = type_debug(inner);
            s.append(body.as_str());
            s.append(")");
            s
        },
        Type::Defined(name) => {
            let mut s = "Defined(\"".to_owned();
            s.append(name.as_str());
            s.append("\")");
            s
        },
    }
}

/// Whether `t` may stand directly inside `outer`, executably.
fn nesting_violation_check(outer: Option<OuterType>, t: &Type) -> (r: bool)
    ensures
        r == nesting_violation(outer, t@),
{
    match (outer, t) {
        (Some(OuterType::Vector), Type::Option(_)) => true,
        (Some(OuterType::Option), Type::Bool) => true,
        (Some(OuterType::Option), Type::Vector(_)) => true,
        (Some(OuterType::Option), Type::Option(_)) => true,
        _ => false,
    }
}

/// The diagnostic text for an illegal nesting, executably.
fn nesting_error_text(outer: &OuterType, t: &Type) -> (r: String)
    ensures
        r@ == nesting_text(Some(*outer), t@),
{
    let mut s = match outer {
        OuterType::Vector => "Vector".to_owned(),
        OuterType::Option => "Option".to_owned(),
    };
    s.append("<");
    let body = type_debug(t);
    s.append(body.as_str());
    s.append(">");
    s
}

/// Whether some accepted variant group carries this name.
fn enum_defined(name: &String, type_definitions: &Vec<TypeDefinition>) -> (r: bool)
    ensures
        r == spec_enum_defined(name@, type_defs_view(type_definitions@)),
{
    let mut i: usize = 0;
    let n = type_definitions.len();
    while i < n
        invariant
            i <= n == type_definitions@.len(),
            forall|j: int| 0 <= j < i ==> type_defs_view(type_definitions@)[j].enum_name != name@,
        decreases n - i,
    {
        if type_definitions[i].enum_name == *name {
            proof {
                assert(type_defs_view(type_definitions@)[i as int].enum_name == name@);
            }
            return true;
        }
        i = i + 1;
    }
    false
}

/// Whether a `type` definition with this name was already accepted.
fn type_defined(name: &String, definitions: &Vec<TypeDefinition>) -> (r: bool)
    ensures
        r == spec_type_defined(name@, type_defs_view(definitions@)),
{
    let mut i: usize = 0;
    let n = definitions.len();
    while i < n
        invariant
            i <= n == definitions@.len(),
            forall|j: int| 0 <= j < i ==> type_defs_view(definitions@)[j].core.name != name@,
        decreases n - i,
    {
        if definitions[i].core.name == *name {
            proof {
                assert(type_defs_view(definitions@)[i as int].core.name == name@);
            }
            return true;
        }
        i = i + 1;
    }
    false
}

/// Whether an `error` definition with this name was already accepted.
fn error_defined(name: &String, definitions: &Vec<ErrorDefinition>) -> (r: bool)
    ensures
        r == spec_error_defined(name@, error_defs_view(definitions@)),
{
    let mut i: usize = 0;
    let n = definitions.len();
    while i < n
        invariant
            i <= n == definitions@.len(),
            forall|j: int| 0 <= j < i ==> error_defs_view(definitions@)[j].core.name != name@,
        decreases n - i,
    {
        if definitions[i].core.name == *name {
            proof {
                assert(error_defs_view(definitions@)[i as int].core.name == name@);
            }
            return true;
        }
        i = i + 1;
    }
    false
}

/// Whether a `func` definition with this name was already accepted.
fn function_defined(name: &String, definitions: &Vec<FunctionDefinition>) -> (r: bool)
    ensures
        r == spec_function_defined(name@, function_defs_view(definitions@)),
{
    let mut i: usize = 0;
    let n = definitions.len();
    while i < n
        invariant
            i <= n == definitions@.len(),
            forall|j: int| 0 <= j < i ==> function_defs_view(definitions@)[j].core.name != name@,
        decreases n - i,
    {
        if definitions[i].core.name == *name {
            proof {
                assert(function_defs_view(definitions@)[i as int].core.name == name@);
            }
            return true;
        }
        i = i + 1;
    }
    false
}

/// Whether a field with this name was already accepted on the current line.
fn field_defined(name: &String, fields: &Vec<Field>) -> (r: bool)
    ensures
        r == spec_field_defined(name@, fields_view(fields@)),
{
    let mut i: usize = 0;
    let n = fields.len();
    while i < n
        invariant
            i <= n == fields@.len(),
            forall|j: int| 0 <= j < i ==> fields_view(fields@)[j].name != name@,
        decreases n - i,
    {
        if fields[i].name == *name {
            proof {
                assert(fields_view(fields@)[i as int].name == name@);
            }
            return true;
        }
        i = i + 1;
    }
    false
}

/// Parse one type token through the recursive type grammar, executably.
fn parse_type(
    line: usize,
    field: &str,
    typ: &[char],
    type_definitions: &Vec<TypeDefinition>,
    outer: Option<OuterType>,
) -> (r: Result<Type, Error>)
    ensures
        match r {
            Ok(t) => spec_parse_type(
                line as int,
                field@,
                typ@,
                type_defs_view(type_definitions@),
                outer,
            ) == Ok::<TypeV, ErrorV>(t@),
            Err(e) => spec_parse_type(
                line as int,
                field@,
                typ@,
                type_defs_view(type_definitions@),
                outer,
            ) == Err::<TypeV, ErrorV>(e@),
        },
    decreases typ@.len(),
{
    let n = typ.len();
    let t: Type = if chars_eq_str(typ, "int32") {
        Type::Int32
    } else if chars_eq_str(typ, "int64") {
        Type::Int64
    } else if chars_eq_str(typ, "float") {
        Type::Float
    } else if chars_eq_str(typ, "bool") {
        Type::Bool
    } else if chars_eq_str(typ, "string") {
        Type::String
    } else if chars_eq_str(typ, "bytes") {
        Type::Bytes
    } else if chars_eq_str(typ, "time") {
        Type::Time
    } else if n >= 2 && *vstd::slice::slice_index_get(typ, 0) == '['
        && *vstd::slice::slice_index_get(typ, n - 1) == ']' {
        let inner = slice_subrange(typ, 1, n - 1);
        match parse_type(line, field, inner, type_definitions, Some(OuterType::Vector)) {
            Ok(t) => Type::Vector(Box::new(t)),
            Err(e) => {
                return Err(e);
            },
        }
    } else if n >= 1 && *vstd::slice::slice_index_get(typ, n - 1) == '?' {
        let inner = slice_subrange(typ, 0, n - 1);
        match parse_type(line, field, inner, type_definitions, Some(OuterType::Option)) {
            Ok(t) => Type::Option(Box::new(t)),
            Err(e) => {
                return Err(e);
            },
        }
    } else {
        let typ_string = chars_to_string(typ);
        if enum_defined(&typ_string, type_definitions) {
            Type::Defined(typ_string)
        } else {
            return Err(Error::InvalidType { line, field: field.to_owned(), typ: typ_string });
        }
    };
    if nesting_violation_check(outer, &t) {
        let text = match &outer {
            Some(o) => nesting_error_text(o, &t),
            None => String::new(),
        };
        proof {
            assert(text@ == nesting_text(outer, t@));
        }
        Err(Error::InvalidType { line, field: field.to_owned(), typ: text })
    } else {
        Ok(t)
    }
}

/// Parse field tokens from position `start` until the stop token or the end
/// of the line, executably.
#[verifier::loop_isolation(false)]
fn parse_fields(
    line: usize,
    toks: &Vec<Vec<char>>,
    start: usize,
    type_definitions: &Vec<TypeDefinition>,
    stop: &str,
) -> (r: Result<(Vec<Field>, usize), Error>)
    ensures
        match r {
            Ok(p) => spec_parse_fields(
                line as int,
                toks_view(toks@),
                start as int,
                type_defs_view(type_definitions@),
                stop@,
                Seq::empty(),
            ) == Ok::<(Seq<FieldV>, int), ErrorV>((fields_view(p.0@), p.1 as int)),
            Err(e) => spec_parse_fields(
                line as int,
                toks_view(toks@),
                start as int,
                type_defs_view(type_definitions@),
                stop@,
                Seq::empty(),
            ) == Err::<(Seq<FieldV>, int), ErrorV>(e@),
        },
{
    let ghost l = line as int;
    let ghost tv = toks_view(toks@);
    let ghost ty = type_defs_view(type_definitions@);
    let mut fields: Vec<Field> = Vec::new();
    let mut j: usize = start;
    let n = toks.len();
    proof {
        assert(fields_view(fields@) =~= Seq::<FieldV>::empty());
    }
    if start > n {
        return Ok((fields, n));
    }
    while j < n
        invariant
            j <= n == toks@.len(),
            spec_parse_fields(l, tv, start as int, ty, stop@, Seq::empty())
                == spec_parse_fields(l, tv, j as int, ty, stop@, fields_view(fields@)),
        decreases n - j,
    {
        let tok: &Vec<char> = &toks[j];
        proof {
            assert(tv[j as int] == toks@[j as int]@);
        }
        if chars_eq_str(tok.as_slice(), stop) {
            return Ok((fields, j + 1));
        }
        let m = tok.len();
        let ci = find_char(tok.as_slice(), ':');
        proof {
            lemma_first_index_of(tok@, ':');
        }
        let name_chars: &[char] = match ci {
            None => tok.as_slice(),
            Some(c) => slice_subrange(tok.as_slice(), 0, c),
        };
        proof {
            let ci_spec = first_index_of(tv[j as int], ':');
            if ci_spec >= 0 {
                assert(name_chars@ =~= tv[j as int].take(ci_spec));
            }
        }
        let name = chars_to_string(name_chars);
        if field_defined(&name, &fields) {
            return Err(Error::DuplicateField { line, field: name });
        }
        match ci {
            None => {
                return Err(Error::FieldTypeMissing { line, field: name });
            },
            Some(c) => {
                let after = slice_subrange(tok.as_slice(), c + 1, m);
                proof {
                    assert(after@ =~= tv[j as int].skip(c + 1));
                }
                let ci2 = find_char(after, ':');
                proof {
                    lemma_first_index_of(after@, ':');
                }
                let typ_text: &[char] = match ci2 {
                    None => after,
                    Some(c2) => slice_subrange(after, 0, c2),
                };
                proof {
                    let ci2_spec = first_index_of(after@, ':');
                    if ci2_spec >= 0 {
                        assert(typ_text@ =~= after@.take(ci2_spec));
                    }
                }
                match parse_type(line, name.as_str(), typ_text, type_definitions, None) {
                    Ok(t) => {
                        let ghost before = fields_view(fields@);
                        fields.push(Field { name, typ: t });
                        proof {
                            assert(fields_view(fields@) =~= before.push(
                                FieldV { name: name_chars@, typ: t@ },
                            ));
                        }
                        j = j + 1;
                    },
                    Err(e) => {
                        return Err(e);
                    },
                }
            },
        }
    }
    Ok((fields, n))
}

/// Parse a definition's name and fields, executably.
fn parse_definition_core(
    id: u32,
    line: usize,
    toks: &Vec<Vec<char>>,
    type_definitions: &Vec<TypeDefinition>,
) -> (r: Result<(DefinitionCore, usize), Error>)
    ensures
        match r {
            Ok(p) => spec_parse_core(
                id,
                line as int,
                toks_view(toks@),
                type_defs_view(type_definitions@),
            ) == Ok::<(CoreV, int), ErrorV>((p.0@, p.1 as int)),
            Err(e) => spec_parse_core(
                id,
                line as int,
                toks_view(toks@),
                type_defs_view(type_definitions@),
            ) == Err::<(CoreV, int), ErrorV>(e@),
        },
{
    if toks.len() < 2 {
        return Err(Error::DefinitionNameMissing { line });
    }
    let name = chars_to_string(toks[1].as_slice());
    match parse_fields(line, toks, 2, type_definitions, "=") {
        Ok((fields, next)) => {
            let core = DefinitionCore { id, name, fields };
            proof {
                assert(core@ =~= CoreV {
                    id,
                    name: toks_view(toks@)[1],
                    fields: fields_view(core.fields@),
                });
            }
            Ok((core, next))
        },
        Err(e) => Err(e),
    }
}

/// Parse a `type` line, executably.
fn parse_type_definition(
    id: u32,
    line: usize,
    toks: &Vec<Vec<char>>,
    type_definitions: &Vec<TypeDefinition>,
) -> (r: Result<TypeDefinition, Error>)
    ensures
        match r {
            Ok(td) => spec_parse_type_def(
                id,
                line as int,
                toks_view(toks@),
                type_defs_view(type_definitions@),
            ) == Ok::<TypeDefV, ErrorV>(td@),
            Err(e) => spec_parse_type_def(
                id,
                line as int,
                toks_view(toks@),
                type_defs_view(type_definitions@),
            ) == Err::<TypeDefV, ErrorV>(e@),
        },
{
    let (core, next) = match parse_definition_core(id, line, toks, type_definitions) {
        Ok(p) => p,
        Err(e) => {
            return Err(e);
        },
    };
    if type_defined(&core.name, type_definitions) {
        return Err(Error::DuplicateDefinition { line });
    }
    if next >= toks.len() {
        return Err(Error::EnumMissing { line });
    }
    let enum_name = chars_to_string(toks[next].as_slice());
    Ok(TypeDefinition { core, enum_name })
}

/// Parse an `error` line, executably.
fn parse_error_definition(
    id: u32,
    line: usize,
    toks: &Vec<Vec<char>>,
    type_definitions: &Vec<TypeDefinition>,
    error_definitions: &Vec<ErrorDefinition>,
) -> (r: Result<ErrorDefinition, Error>)
    ensures
        match r {
            Ok(ed) => spec_parse_error_def(
                id,
                line as int,
                toks_view(toks@),
                type_defs_view(type_definitions@),
                error_defs_view(error_definitions@),
            ) == Ok::<ErrorDefV, ErrorV>(ed@),
            Err(e) => spec_parse_error_def(
                id,
                line as int,
                toks_view(toks@),
                type_defs_view(type_definitions@),
                error_defs_view(error_definitions@),
            ) == Err::<ErrorDefV, ErrorV>(e@),
        },
{
    let (core, _next) = match parse_definition_core(id, line, toks, type_definitions) {
        Ok(p) => p,
        Err(e) => {
            return Err(e);
        },
    };
    if error_defined(&core.name, error_definitions) {
        return Err(Error::DuplicateDefinition { line });
    }
    Ok(ErrorDefinition { core })
}

/// Parse a `func` line, executably.
fn parse_function_definition(
    id: u32,
    line: usize,
    toks: &Vec<Vec<char>>,
    type_definitions: &Vec<TypeDefinition>,
    function_definitions: &Vec<FunctionDefinition>,
) -> (r: Result<FunctionDefinition, Error>)
    ensures
        match r {
            Ok(fd) => spec_parse_function_def(
                id,
                line as int,
                toks_view(toks@),
                type_defs_view(type_definitions@),
                function_defs_view(function_definitions@),
            ) == Ok::<FunctionDefV, ErrorV>(fd@),
            Err(e) => spec_parse_function_def(
                id,
                line as int,
                toks_view(toks@),
                type_defs_view(type_definitions@),
                function_defs_view(function_definitions@),
            ) == Err::<FunctionDefV, ErrorV>(e@),
        },
{
    let (core, next) = match parse_definition_core(id, line, toks, type_definitions) {
        Ok(p) => p,
        Err(e) => {
            return Err(e);
        },
    };
    if function_defined(&core.name, function_definitions) {
        return Err(Error::DuplicateDefinition { line });
    }
    if next >= toks.len() {
        return Err(Error::FunctionTypeMissing { line });
    }
    let ret = match parse_type(line, "<return>", toks[next].as_slice(), type_definitions, None) {
        Ok(t) => t,
        Err(e) => {
            return Err(e);
        },
    };
    Ok(FunctionDefinition { core, ret })
}

/// Parse schema text into a schema model, or fail with the first violation.
///
/// The behaviour is pinned down exactly by `spec_parse_schema`: one
/// definition per line, blank and comment lines skipped, names unique per
/// kind, fields unique per definition, type references resolved only against
/// groups declared on earlier lines, and each definition's identity derived
/// from a digest of its raw line text.
#[verifier::loop_isolation(false)]
pub fn parse_schema(schema: &str) -> (r: Result<Schema, Error>)
    ensures
        match r {
            Ok(s) => spec_parse_schema(schema@) == Ok::<SchemaV, ErrorV>(s@),
            Err(e) => spec_parse_schema(schema@) == Err::<SchemaV, ErrorV>(e@),
        },
{
    let cs = str_chars(schema);
    let lines = split_chars(cs.as_slice(), '\n');
    let ghost linesv = split_char(schema@, '\n');
    let mut types: Vec<TypeDefinition> = Vec::new();
    let mut errors: Vec<ErrorDefinition> = Vec::new();
    let mut functions: Vec<FunctionDefinition> = Vec::new();
    let mut idx: usize = 0;
    let n = lines.len();
    proof {
        assert(Schema { types, errors, functions }@ =~= spec_empty_schema());
    }
    while idx < n
        invariant
            idx <= n == lines@.len(),
            toks_view(lines@) == linesv,
            spec_parse_lines(linesv, 0, spec_empty_schema()) == spec_parse_lines(
                linesv,
                idx as int,
                SchemaV {
                    types: type_defs_view(types@),
                    errors: error_defs_view(errors@),
                    functions: function_defs_view(functions@),
                },
            ),
        decreases n - idx,
    {
        let ghost acc = SchemaV {
            types: type_defs_view(types@),
            errors: error_defs_view(errors@),
            functions: function_defs_view(functions@),
        };
        let line: &Vec<char> = &lines[idx];
        proof {
            assert(linesv[idx as int] == lines@[idx as int]@);
        }
        let lineno = idx + 1;
        let skipped = if line.len() == 0 {
            true
        } else {
            let c0 = *vstd::slice::slice_index_get(line.as_slice(), 0);
            c0 == '#' || c0 == ' '
        };
        if !skipped {
            let line_string = chars_to_string(line.as_slice());
            let id = compute_definition_id(line_string.as_str());
            let toks = split_chars(line.as_slice(), ' ');
            proof {
                lemma_split_char_nonempty(line@, ' ');
            }
            let kind: &Vec<char> = &toks[0];
            proof {
                assert(toks_view(toks@)[0] == toks@[0]@);
            }
            if chars_eq_str(kind.as_slice(), "type") {
                match parse_type_definition(id, lineno, &toks, &types) {
                    Ok(td) => {
                        let ghost before = type_defs_view(types@);
                        types.push(td);
                        proof {
                            assert(type_defs_view(types@) =~= before.push(
                                types@[types@.len() - 1]@,
                            ));
                        }
                    },
                    Err(e) => {
                        return Err(e);
                    },
                }
            } else if chars_eq_str(kind.as_slice(), "error") {
                match parse_error_definition(id, lineno, &toks, &types, &errors) {
                    Ok(ed) => {
                        let ghost before = error_defs_view(errors@);
                        errors.push(ed);
                        proof {
                            assert(error_defs_view(errors@) =~= before.push(
                                errors@[errors@.len() - 1]@,
                            ));
                        }
                    },
                    Err(e) => {
                        return Err(e);
                    },
                }
            } else if chars_eq_str(kind.as_slice(), "func") {
                match parse_function_definition(id, lineno, &toks, &types, &functions) {
                    Ok(fd) => {
                        let ghost before = function_defs_view(functions@);
                        functions.push(fd);
                        proof {
                            assert(function_defs_view(functions@) =~= before.push(
                                functions@[functions@.len() - 1]@,
                            ));
                        }
                    },
                    Err(e) => {
                        return Err(e);
                    },
                }
            } else {
                return Err(Error::InvalidDefinitionType { line: lineno });
            }
        }
        proof {
            let acc2 = SchemaV {
                types: type_defs_view(types@),
                errors: error_defs_view(errors@),
                functions: function_defs_view(functions@),
            };
            assert(spec_parse_line(linesv[idx as int], idx + 1, acc) == Ok::<SchemaV, ErrorV>(
                acc2,
            ));
        }
        idx = idx + 1;
    }
    let s = Schema { types, errors, functions };
    proof {
        assert(spec_parse_lines(linesv, n as int, s@) == Ok::<SchemaV, ErrorV>(s@));
    }
    Ok(s)
}

} // verus!
