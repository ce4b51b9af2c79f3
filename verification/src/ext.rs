//! The trusted boundary: declarations of the outside TOML types the
//! parser walks, thin wrappers around the outside calls the compiler
//! relies on, and the named result of std's case folding. Verus believes
//! the contracts here without reading the bodies; everything else in the
//! crate is proved against them.

use vstd::prelude::*;
use vstd::string::*;

verus! {

/// What `str::to_lowercase` returns for a given character sequence; the
/// result depends on the characters alone.
pub uninterp spec fn lower_of(s: Seq<char>) -> Seq<char>;

/// Relies on std's `str::to_lowercase`: the Unicode lowercase form of the
/// string, a function of its characters alone.
#[verifier::external_body]
pub(crate) fn lowercase(s: &str) -> (r: String)
    ensures
        r@ == lower_of(s@),
{
    s.to_lowercase()
}

#[verifier::external_type_specification]
#[verifier::external_body]
#[verifier::reject_recursive_types(K)]
#[verifier::reject_recursive_types(V)]
pub struct ExTomlMap<K, V>(toml::map::Map<K, V>);

#[verifier::external_type_specification]
#[verifier::external_body]
pub struct ExTomlValue(toml::Value);

#[verifier::external_type_specification]
#[verifier::external_body]
pub struct ExTomlDeError(toml::de::Error);

/// What parsing a text as a TOML document yields: the table when the
/// text parses, `None` when it does not. Parsing is a function of the
/// text alone.
pub uninterp spec fn toml_table_of(s: Seq<char>) -> Option<toml::Table>;

/// The diagnostic text reported for a text that does not parse; a
/// function of the text alone.
pub uninterp spec fn toml_parse_err_text(s: Seq<char>) -> Seq<char>;

/// The message a TOML parse error describes itself with.
pub uninterp spec fn toml_error_msg(e: toml::de::Error) -> Seq<char>;

/// What looking a key up in a parsed table yields; a function of the
/// table and the key alone.
pub uninterp spec fn table_lookup(t: toml::Table, key: Seq<char>) -> Option<toml::Value>;

/// The entries a parsed table holds, keys beside values, in the table's
/// own iteration order (ascending by key).
pub uninterp spec fn table_seq(t: toml::Table) -> Seq<(Seq<char>, toml::Value)>;

/// The payload of a string value, `None` for a value of any other shape.
pub uninterp spec fn value_str_of(v: toml::Value) -> Option<Seq<char>>;

/// The payload of an integer value, `None` for any other shape.
pub uninterp spec fn value_int_of(v: toml::Value) -> Option<i64>;

/// The payload of a table value, `None` for any other shape.
pub uninterp spec fn value_table_of(v: toml::Value) -> Option<toml::Table>;

/// The decimal text of a real value's payload, `None` for any other
/// shape; a function of the value alone.
pub uninterp spec fn value_real_text_of(v: toml::Value) -> Option<Seq<char>>;

/// Relies on `toml::Table`'s `FromStr`: parses one TOML document. The
/// result is opaque; the verified parser reads it only through the
/// accessors below and validates every extracted value itself.
#[verifier::external_body]
pub(crate) fn parse_toml_table(s: &str) -> (r: Result<toml::Table, toml::de::Error>)
    ensures
        r matches Ok(t) ==> toml_table_of(s@) == Some(t),
        r matches Err(e) ==> toml_table_of(s@) is None && toml_error_msg(e) == toml_parse_err_text(
            s@,
        ),
{
    <toml::Table as core::str::FromStr>::from_str(s)
}

/// Relies on `toml::de::Error::message`: the description of a parse
/// failure, used only for the diagnostic text.
#[verifier::external_body]
pub(crate) fn toml_error_text(e: &toml::de::Error) -> (r: String)
    ensures
        r@ == toml_error_msg(*e),
{
    e.message().to_owned()
}

/// Relies on `toml::map::Map::get`: the value under a key, if present.
#[verifier::external_body]
pub(crate) fn table_get<'a>(t: &'a toml::Table, key: &str) -> (r: Option<&'a toml::Value>)
    ensures
        r matches Some(v) ==> table_lookup(*t, key@) == Some(*v),
        r is None ==> table_lookup(*t, key@) is None,
{
    t.get(key)
}

/// Relies on `toml::map::Map::iter`: hands the table's entries out as
/// plain key strings beside their still-opaque values, in the table's own
/// iteration order.
#[verifier::external_body]
pub(crate) fn table_entries(t: &toml::Table) -> (r: Vec<(String, toml::Value)>)
    ensures
        r@.len() == table_seq(*t).len(),
        forall|i: int|
            0 <= i < r@.len() ==> r@[i].0@ == table_seq(*t)[i].0 && r@[i].1 == table_seq(*t)[i].1,
{
    let mut out = Vec::new();
    for (k, v) in t.iter() {
        out.push((k.clone(), v.clone()));
    }
    out
}

/// Relies on `toml::Value::as_str`: the payload of a string value, and
/// `None` for a value of any other shape.
#[verifier::external_body]
pub(crate) fn value_as_str(v: &toml::Value) -> (r: Option<String>)
    ensures
        r matches Some(s) ==> value_str_of(*v) == Some(s@),
        r is None ==> value_str_of(*v) is None,
{
    match v.as_str() {
        Some(s) => Some(s.to_owned()),
        None => None,
    }
}

/// Relies on `toml::Value::as_integer`: the payload of an integer value,
/// and `None` for a value of any other shape.
#[verifier::external_body]
pub(crate) fn value_as_integer(v: &toml::Value) -> (r: Option<i64>)
    ensures
        r == value_int_of(*v),
{
    v.as_integer()
}

/// Relies on `toml::Value::as_table`: the payload of a table value, and
/// `None` for a value of any other shape.
#[verifier::external_body]
pub(crate) fn value_as_table<'a>(v: &'a toml::Value) -> (r: Option<&'a toml::Table>)
    ensures
        r matches Some(t) ==> value_table_of(*v) == Some(*t),
        r is None ==> value_table_of(*v) is None,
{
    v.as_table()
}

/// Relies on `toml::Value::as_float`: the payload of a real value (and
/// `None` for any other shape, an integer literal included), carried as
/// the decimal text that the language's default formatting gives it.
#[verifier::external_body]
pub(crate) fn value_real_text(v: &toml::Value) -> (r: Option<String>)
    ensures
        r matches Some(s) ==> value_real_text_of(*v) == Some(s@),
        r is None ==> value_real_text_of(*v) is None,
{
    match v.as_float() {
        Some(x) => Some(format!("{}", x)),
        None => None,
    }
}

} // verus!
