//! The helper functions that templates call: type mapping, default values,
//! call-site type forms and identifier case conversion.

use vstd::prelude::*;
use crate::text::{has_prefix, replace_all, replace_text, same_text, starts_with};
use convert_case::{Case, Casing};

verus! {

/// The kinds of catalog scalar types that map to distinct target types.
pub enum TypeKind {
    Bool,
    Date,
    Timestamp,
    Float64,
    Numeric,
    Bytes,
    Int64,
    Text,
}

/// The kind of a scalar catalog type; anything unrecognised is text.
pub open spec fn kind_of(t: Seq<char>) -> TypeKind {
    if t == "BOOL"@ {
        TypeKind::Bool
    } else if t == "DATE"@ {
        TypeKind::Date
    } else if t == "TIMESTAMP"@ {
        TypeKind::Timestamp
    } else if t == "FLOAT64"@ {
        TypeKind::Float64
    } else if t == "NUMERIC"@ {
        TypeKind::Numeric
    } else if has_prefix(t, "BYTES"@) {
        TypeKind::Bytes
    } else if t == "INT64"@ {
        TypeKind::Int64
    } else {
        TypeKind::Text
    }
}

/// The target type name of each kind.
pub open spec fn kind_type_name(k: TypeKind) -> Seq<char> {
    match k {
        TypeKind::Bool => "bool"@,
        TypeKind::Date => "time::Date"@,
        TypeKind::Timestamp => "time::OffsetDateTime"@,
        TypeKind::Float64 => "f64"@,
        TypeKind::Numeric => "google_cloud_spanner::bigdecimal::BigDecimal"@,
        TypeKind::Bytes => "Vec<u8>"@,
        TypeKind::Int64 => "i64"@,
        TypeKind::Text => "String"@,
    }
}

/// `t` is an array type `ARRAY<...>`.
pub open spec fn is_array_type(t: Seq<char>) -> bool {
    &&& t.len() >= 7
    &&& has_prefix(t, "ARRAY<"@)
    &&& t.last() == '>'
}

/// The element type of the array type `t`.
pub open spec fn array_element(t: Seq<char>) -> Seq<char>
    recommends
        t.len() >= 7,
{
    t.subrange(6, t.len() - 1)
}

/// The target type of a catalog type: arrays map to a `Vec` of their mapped
/// element type, scalars by their kind.
pub open spec fn rust_type_of(t: Seq<char>) -> Seq<char>
    decreases t.len(),
{
    if is_array_type(t) {
        "Vec<"@ + rust_type_of(array_element(t)) + ">"@
    } else {
        kind_type_name(kind_of(t))
    }
}

/// The default-value expression for a column of the given nullability and
/// catalog type.
pub open spec fn rust_default_of(nullable: bool, t: Seq<char>) -> Seq<char> {
    if !nullable && t == "DATE"@ {
        "time::OffsetDateTime::now_utc().date()"@
    } else if !nullable && t == "TIMESTAMP"@ {
        "time::OffsetDateTime::now_utc()"@
    } else {
        "Default::default()"@
    }
}

/// The parameter form of a type: borrowed, with `String` borrowed as `str`.
pub open spec fn rust_arg_type_of(v: Seq<char>) -> Seq<char> {
    "&"@ + replace_all(v, "String"@, "str"@)
}

/// The call-site form of a generic type: `<` written as `::<`.
pub open spec fn rust_caller_type_of(v: Seq<char>) -> Seq<char> {
    replace_all(v, "<"@, "::<"@)
}

/// What convert_case makes of a string in snake case.
pub uninterp spec fn snake_case_of(s: Seq<char>) -> Seq<char>;

/// What convert_case makes of a string in upper snake case.
pub uninterp spec fn upper_snake_case_of(s: Seq<char>) -> Seq<char>;

/// The kind of the scalar catalog type `t`.
pub fn type_kind(t: &str) -> (k: TypeKind)
    ensures
        k == kind_of(t@),
{
    if same_text(t, "BOOL") {
        TypeKind::Bool
    } else if same_text(t, "DATE") {
        TypeKind::Date
    } else if same_text(t, "TIMESTAMP") {
        TypeKind::Timestamp
    } else if same_text(t, "FLOAT64") {
        TypeKind::Float64
    } else if same_text(t, "NUMERIC") {
        TypeKind::Numeric
    } else if starts_with(t, "BYTES") {
        TypeKind::Bytes
    } else if same_text(t, "INT64") {
        TypeKind::Int64
    } else {
        TypeKind::Text
    }
}

/// The target type name of the kind `k`.
pub fn target_type_name(k: &TypeKind) -> (r: String)
    ensures
        r@ == kind_type_name(*k),
{
    match k {
        TypeKind::Bool => String::from_str("bool"),
        TypeKind::Date => String::from_str("time::Date"),
        TypeKind::Timestamp => String::from_str("time::OffsetDateTime"),
        TypeKind::Float64 => String::from_str("f64"),
        TypeKind::Numeric => String::from_str("google_cloud_spanner::bigdecimal::BigDecimal"),
        TypeKind::Bytes => String::from_str("Vec<u8>"),
        TypeKind::Int64 => String::from_str("i64"),
        TypeKind::Text => String::from_str("String"),
    }
}

fn rust_type_str(t: &str) -> (r: String)
    ensures
        r@ == rust_type_of(t@),
    decreases t@.len(),
{
    let n = t.unicode_len();
    proof {
        reveal_strlit("ARRAY<");
    }
    if n >= 7 && starts_with(t, "ARRAY<") && t.get_char(n - 1) == '>' {
        let inner = t.substring_char(6, n - 1);
        let mapped = rust_type_str(inner);
        String::from_str("Vec<").concat(mapped.as_str()).concat(">")
    } else {
        target_type_name(&type_kind(t))
    }
}

/// Maps a catalog type to the name of its target type.
pub fn rust_type_helper(spanner_type: String) -> (r: String)
    ensures
        r@ == rust_type_of(spanner_type@),
{
    rust_type_str(spanner_type.as_str())
}

/// The default-value expression for a column of the given nullability and
/// catalog type.
pub fn rust_default_helper(nullable: bool, spanner_type: String) -> (r: String)
    ensures
        r@ == rust_default_of(nullable, spanner_type@),
{
    if !nullable {
        if same_text(spanner_type.as_str(), "DATE") {
            return String::from_str("time::OffsetDateTime::now_utc().date()");
        } else if same_text(spanner_type.as_str(), "TIMESTAMP") {
            return String::from_str("time::OffsetDateTime::now_utc()");
        }
    }
    String::from_str("Default::default()")
}

/// The parameter form of a type name.
pub fn rust_arg_type_helper(v: String) -> (r: String)
    ensures
        r@ == rust_arg_type_of(v@),
{
    proof {
        reveal_strlit("String");
    }
    let replaced = replace_text(v.as_str(), "String", "str");
    String::from_str("&").concat(replaced.as_str())
}

/// The call-site form of a type name.
pub fn rust_caller_type_helper(v: String) -> (r: String)
    ensures
        r@ == rust_caller_type_of(v@),
{
    proof {
        reveal_strlit("<");
    }
    replace_text(v.as_str(), "<", "::<")
}

/// Relies on convert_case's `Casing::to_case` with `Case::Snake`: the result
/// depends on the characters of `s` alone.
#[verifier::external_body]
fn to_snake_case(s: &str) -> (r: String)
    ensures
        r@ == snake_case_of(s@),
{
    s.to_case(Case::Snake)
}

/// Relies on convert_case's `Casing::to_case` with `Case::UpperSnake`: the
/// result depends on the characters of `s` alone.
#[verifier::external_body]
fn to_upper_snake_case(s: &str) -> (r: String)
    ensures
        r@ == upper_snake_case_of(s@),
{
    s.to_case(Case::UpperSnake)
}

/// An identifier in lower snake case.
pub fn snake_helper(v: String) -> (r: String)
    ensures
        r@ == snake_case_of(v@),
{
    to_snake_case(v.as_str())
}

/// An identifier in upper snake case.
pub fn upper_snake_helper(v: String) -> (r: String)
    ensures
        r@ == upper_snake_case_of(v@),
{
    to_upper_snake_case(v.as_str())
}

/// Type mapping sees through arrays: `ARRAY<T>` maps to a `Vec` of what `T`
/// maps to, for every element type `T`.
pub proof fn lemma_array_type_mapping(t: Seq<char>)
    ensures
        rust_type_of("ARRAY<"@ + t + ">"@) == "Vec<"@ + rust_type_of(t) + ">"@,
{
    reveal_strlit("ARRAY<");
    reveal_strlit(">");
    let a = "ARRAY<"@ + t + ">"@;
    assert(a.subrange(0, 6) =~= "ARRAY<"@);
    assert(array_element(a) =~= t);
}

} // verus!
