//! Plain tagged values: the scalars parsed out of a request's filter object,
//! and the positional parameters bound to a statement.
//!
//! Values never reach SQL text; they travel beside it as an ordered list of
//! `ArgValue`s, one per placeholder.

use vstd::prelude::*;

verus! {

/// A scalar out of a flat JSON object, as untrusted request input carries it.
///
/// A non-integer number and a nested array or object are kept as their JSON
/// text: the core never computes with them, it only passes them through.
#[derive(Debug, Clone, PartialEq, Eq)]
pub enum JsonScalar {
    Text(String),
    Integer(i64),
    /// The decimal text of a JSON number that does not fit `i64`.
    Decimal(String),
    Boolean(bool),
    Null,
    /// The raw JSON text of an array or object.
    Composite(String),
}

/// A value bound to one positional placeholder of a statement.
#[derive(Debug, Clone, PartialEq, Eq)]
pub enum ArgValue {
    Text(String),
    Integer(i64),
    /// The decimal text of a non-integer number; the boundary parses it
    /// into the store's numeric type when binding.
    DecimalText(String),
    Boolean(bool),
    /// Canonical textual form of a unique row identifier.
    Identifier(String),
    Null,
}

/// The mathematical shape of a bound parameter: its kind and, for textual
/// kinds, the characters bound.
pub enum ArgValueView {
    Text(Seq<char>),
    Integer(i64),
    DecimalText(Seq<char>),
    Boolean(bool),
    Identifier(Seq<char>),
    Null,
}

impl View for ArgValue {
    type V = ArgValueView;

    open spec fn view(&self) -> ArgValueView {
        match self {
            ArgValue::Text(s) => ArgValueView::Text(s@),
            ArgValue::Integer(i) => ArgValueView::Integer(*i),
            ArgValue::DecimalText(d) => ArgValueView::DecimalText(d@),
            ArgValue::Boolean(b) => ArgValueView::Boolean(*b),
            ArgValue::Identifier(s) => ArgValueView::Identifier(s@),
            ArgValue::Null => ArgValueView::Null,
        }
    }
}

/// The views of a list of bound parameters, in binding order.
pub open spec fn args_view(v: Seq<ArgValue>) -> Seq<ArgValueView> {
    v.map_values(|a: ArgValue| a@)
}

/// Pushing a parameter commutes with taking views.
pub proof fn lemma_args_view_push(v: Seq<ArgValue>, a: ArgValue)
    ensures
        args_view(v.push(a)) == args_view(v).push(a@),
{
    assert forall|k: int| 0 <= k < v.len() + 1 implies args_view(v.push(a))[k] == args_view(
        v,
    ).push(a@)[k] by {
        if k < v.len() {
            assert(v.push(a)[k] == v[k]);
        } else {
            assert(v.push(a)[k] == a);
        }
    }
    assert(args_view(v.push(a)) =~= args_view(v).push(a@));
}

/// How a payload scalar is bound as a statement parameter: numbers and
/// booleans keep their kind, a null binds as null, and anything composite
/// degrades to its JSON text.
pub open spec fn arg_of_scalar(v: JsonScalar) -> ArgValueView {
    match v {
        JsonScalar::Text(s) => ArgValueView::Text(s@),
        JsonScalar::Integer(i) => ArgValueView::Integer(i),
        JsonScalar::Decimal(d) => ArgValueView::DecimalText(d@),
        JsonScalar::Boolean(b) => ArgValueView::Boolean(b),
        JsonScalar::Null => ArgValueView::Null,
        JsonScalar::Composite(raw) => ArgValueView::Text(raw@),
    }
}

/// Turns a payload scalar into the parameter that binds it.
pub fn scalar_to_arg(v: &JsonScalar) -> (r: ArgValue)
    ensures
        r@ == arg_of_scalar(*v),
{
    match v {
        JsonScalar::Text(s) => ArgValue::Text(s.clone()),
        JsonScalar::Integer(i) => ArgValue::Integer(*i),
        JsonScalar::Decimal(d) => ArgValue::DecimalText(d.clone()),
        JsonScalar::Boolean(b) => ArgValue::Boolean(*b),
        JsonScalar::Null => ArgValue::Null,
        JsonScalar::Composite(raw) => ArgValue::Text(raw.clone()),
    }
}

/// What parsing a flat JSON object yields: `None` where the text is not a
/// JSON object, else the key/scalar pairs in the parser's order. Parsing
/// depends on the text alone, so both statement builders see one result.
pub uninterp spec fn json_object_entries(s: Seq<char>) -> Option<Seq<(String, JsonScalar)>>;

/// Relies on serde_json::from_str to parse a JSON object into a map, whose
/// entries are taken in the map's own (key-sorted) order; each value is
/// carried over by kind, numbers through serde_json::Number::as_i64 and the
/// Display form that serde_json gives non-integer numbers and composites.
#[verifier::external_body]
pub(crate) fn parse_json_object(s: &str) -> (r: Option<Vec<(String, JsonScalar)>>)
    ensures
        r is Some <==> json_object_entries(s@) is Some,
        r matches Some(entries) ==> json_object_entries(s@) == Some(entries@),
{
    let parsed: Result<serde_json::Map<String, serde_json::Value>, serde_json::Error> =
        serde_json::from_str(s);
    let entries = parsed.ok()?;
    Some(entries.into_iter().map(|(k, v)| (k, match v {
        serde_json::Value::String(t) => JsonScalar::Text(t),
        serde_json::Value::Bool(b) => JsonScalar::Boolean(b),
        serde_json::Value::Null => JsonScalar::Null,
        serde_json::Value::Number(n) => match n.as_i64() {
            Some(i) => JsonScalar::Integer(i),
            None => JsonScalar::Decimal(n.to_string()),
        },
        other => JsonScalar::Composite(other.to_string()),
    })).collect())
}

} // verus!
