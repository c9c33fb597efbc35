//! The boundary to the template engine, the glob matcher and UTF-8
//! decoding.  Everything here is a declaration or a thin wrapper whose
//! contract names what the outside call computes; the engine's own logic is
//! verified against these contracts.

use vstd::prelude::*;
use crate::values::ValueModel;

verus! {

#[verifier::external_type_specification]
#[verifier::external_body]
pub struct ExTeraContext(tera::Context);

#[verifier::external_type_specification]
#[verifier::external_body]
pub struct ExTeraError(tera::Error);

#[verifier::external_type_specification]
#[verifier::external_body]
pub struct ExGlobPattern(glob::Pattern);

#[verifier::external_type_specification]
#[verifier::external_body]
pub struct ExGlobPatternError(glob::PatternError);

/// The variable bindings a `tera::Context` holds.
pub uninterp spec fn tera_vars(c: tera::Context) -> Map<Seq<char>, ValueModel>;

/// What the template engine makes of a template under given bindings:
/// `None` when the engine rejects it, otherwise the substituted text.  The
/// engine's output depends on the template and the bindings alone.
pub uninterp spec fn rendered(tpl: Seq<char>, vars: Map<Seq<char>, ValueModel>) -> Option<
    Seq<char>,
>;

/// The source string a compiled glob pattern was built from.
pub uninterp spec fn pattern_source(p: glob::Pattern) -> Seq<char>;

/// Whether the glob compiler accepts a pattern string; acceptance depends
/// on the string alone.
pub uninterp spec fn glob_accepts(pattern: Seq<char>) -> bool;

/// Whether a glob pattern matches a path, under the matcher's default
/// options; the outcome depends on the two strings alone.
pub uninterp spec fn glob_match(pattern: Seq<char>, path: Seq<char>) -> bool;

/// A template without an opening or closing brace holds no variable
/// reference, no block and no comment: the engine returns it unchanged.
pub open spec fn is_literal(s: Seq<char>) -> bool {
    forall|i: int| 0 <= i < s.len() ==> s[i] != '{' && s[i] != '}'
}

/// A context with no binding at all.
pub open spec fn no_vars(m: Map<Seq<char>, ValueModel>) -> bool {
    m == Map::<Seq<char>, ValueModel>::empty()
}

/// Relies on `tera::Context::new`: a fresh context holds no binding.
#[verifier::external_body]
pub(crate) fn tera_context_new() -> (c: tera::Context)
    ensures
        no_vars(tera_vars(c)),
{
    tera::Context::new()
}

/// Relies on `tera::Context::insert`: it binds the key to the serialised
/// boolean, replacing any earlier binding.
#[verifier::external_body]
pub(crate) fn tera_context_insert_bool(c: &mut tera::Context, key: &str, v: bool)
    ensures
        tera_vars(*final(c)) == tera_vars(*old(c)).insert(key@, ValueModel::Boolean(v)),
{
    c.insert(key.to_string(), &v)
}

/// Relies on `tera::Context::insert`: it binds the key to the serialised
/// string, replacing any earlier binding.
#[verifier::external_body]
pub(crate) fn tera_context_insert_text(c: &mut tera::Context, key: &str, v: &str)
    ensures
        tera_vars(*final(c)) == tera_vars(*old(c)).insert(key@, ValueModel::Text(v@)),
{
    c.insert(key.to_string(), v)
}

/// Relies on `tera::Context::insert`: it binds the key to the serialised
/// integer, replacing any earlier binding.
#[verifier::external_body]
pub(crate) fn tera_context_insert_integer(c: &mut tera::Context, key: &str, v: i64)
    ensures
        tera_vars(*final(c)) == tera_vars(*old(c)).insert(key@, ValueModel::Integer(v)),
    {
    c.insert(key.to_string(), &v)
}

/// Relies on `Tera::one_off` without autoescaping: it substitutes the
/// context's bindings into the template, returns the rejection as an error,
/// and hands a template with no brace at all back unchanged.
#[verifier::external_body]
pub(crate) fn tera_one_off(tpl: &str, c: &tera::Context) -> (r: Result<String, tera::Error>)
    ensures
        r is Ok <==> rendered(tpl@, tera_vars(*c)) is Some,
        r matches Ok(s) ==> Some(s@) == rendered(tpl@, tera_vars(*c)),
        r is Ok || !is_literal(tpl@),
        r matches Ok(s) ==> (is_literal(tpl@) ==> s@ == tpl@),
{
    tera::Tera::one_off(tpl, c, false)
}

/// Relies on `glob::Pattern::new`: it compiles exactly the well-formed
/// pattern strings, and the compiled pattern stands for its source string.
#[verifier::external_body]
pub(crate) fn glob_compile(pattern: &str) -> (r: Result<glob::Pattern, glob::PatternError>)
    ensures
        r is Ok <==> glob_accepts(pattern@),
        r matches Ok(p) ==> pattern_source(p) == pattern@,
{
    glob::Pattern::new(pattern)
}

/// Relies on `glob::Pattern::matches` under the default match options.
#[verifier::external_body]
pub(crate) fn glob_pattern_matches(p: &glob::Pattern, path: &str) -> (r: bool)
    ensures
        r == glob_match(pattern_source(*p), path@),
{
    p.matches(path)
}

/// Relies on std's `str::from_utf8`: it accepts exactly the valid UTF-8
/// byte sequences and decodes them.
#[verifier::external_body]
pub(crate) fn decode_text(b: &[u8]) -> (r: Option<&str>)
    ensures
        r is Some <==> vstd::utf8::valid_utf8(b@),
        r matches Some(s) ==> s@ == vstd::utf8::decode_utf8(b@),
{
    std::str::from_utf8(b).ok()
}

} // verus!
