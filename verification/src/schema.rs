//! The field classifier and the delta shape builder.
//!
//! A schema declares, per field, an optional strategy token, and a
//! record-level default for the fields that declare none. The classifier
//! resolves every field and never fails fast: it scans the whole record
//! and reports every offending field name in one aggregated error.

use vstd::prelude::*;
use vstd::string::StrSliceExecFns;
use crate::record::{FieldValue, FieldDelta, field_delta_for};

verus! {

/// The diff strategy a schema can declare for a field. `Ordered` is
/// reserved for position-aware sequence diffing; it is accepted as a
/// token but given no diff semantics, so classification rejects it.
#[derive(Clone, Copy, PartialEq, Eq, Structural, Debug)]
pub enum FieldType {
    Ordered,
    Unordered,
    Scalar,
    Delta,
}

/// The strategy a token names, if any.
pub open spec fn strategy_token(s: Seq<char>) -> Option<FieldType> {
    if s == "ordered"@ {
        Some(FieldType::Ordered)
    } else if s == "unordered"@ {
        Some(FieldType::Unordered)
    } else if s == "scalar"@ {
        Some(FieldType::Scalar)
    } else if s == "delta"@ {
        Some(FieldType::Delta)
    } else {
        None
    }
}

/// Character-for-character comparison of two string slices.
#[verifier::loop_isolation(false)]
fn str_eq(a: &str, b: &str) -> (r: bool)
    ensures
        r == (a@ == b@),
{
    let alen = a.unicode_len();
    let blen = b.unicode_len();
    if alen != blen {
        return false;
    }
    for i in 0..alen
        invariant
            forall|j: int| 0 <= j < i ==> a@[j] == b@[j],
    {
        if a.get_char(i) != b.get_char(i) {
            return false;
        }
    }
    proof {
        assert(a@ =~= b@);
    }
    true
}

/// Map a strategy token to the strategy it names, or `None` for an
/// unrecognized token.
pub fn string_to_fieldtype(s: &str) -> (r: Option<FieldType>)
    ensures
        r == strategy_token(s@),
{
    if str_eq(s, "ordered") {
        Some(FieldType::Ordered)
    } else if str_eq(s, "unordered") {
        Some(FieldType::Unordered)
    } else if str_eq(s, "scalar") {
        Some(FieldType::Scalar)
    } else if str_eq(s, "delta") {
        Some(FieldType::Delta)
    } else {
        None
    }
}

/// One field of a schema declaration: the field's name and its strategy
/// token, if one is declared.
#[derive(Debug)]
pub struct FieldDecl {
    pub name: String,
    pub strategy: Option<String>,
}

/// A classified field: its name and the strategy it resolved to.
#[derive(Debug)]
pub struct ClassifiedField {
    pub name: String,
    pub strategy: FieldType,
}

/// The strategy a declaration resolves to: its own token if one is
/// declared, else the record default. `None` when the token is
/// unrecognized, or when the field resolves to `Ordered`, which has no
/// diff semantics and is rejected at classification time.
pub open spec fn resolved_strategy(d: FieldDecl, default_strategy: FieldType) -> Option<
    FieldType,
> {
    let s = match d.strategy {
        Some(tok) => strategy_token(tok@),
        None => Some(default_strategy),
    };
    match s {
        Some(FieldType::Ordered) => None,
        _ => s,
    }
}

/// The names of the fields that fail to classify, in declaration order.
pub open spec fn offending_names(ds: Seq<FieldDecl>, default_strategy: FieldType) -> Seq<
    Seq<char>,
>
    decreases ds.len(),
{
    if ds.len() == 0 {
        Seq::empty()
    } else {
        let rest = offending_names(ds.drop_last(), default_strategy);
        if resolved_strategy(ds.last(), default_strategy) is Some {
            rest
        } else {
            rest.push(ds.last().name@)
        }
    }
}

/// Classify every field of a schema: the field's own token if declared,
/// else the record default. Unrecognized strategies do not fail fast:
/// the whole record is scanned and every offending field name is
/// collected into one aggregated error, in declaration order.
#[verifier::loop_isolation(false)]
pub fn classify(decls: &Vec<FieldDecl>, default_strategy: FieldType) -> (r: Result<
    Vec<ClassifiedField>,
    Vec<String>,
>)
    ensures
        match r {
            Ok(cs) => {
                &&& offending_names(decls@, default_strategy).len() == 0
                &&& cs@.len() == decls@.len()
                &&& forall|i: int|
                    0 <= i < decls@.len() ==> (#[trigger] cs@[i]).name@ == decls@[i].name@ && Some(
                        cs@[i].strategy,
                    ) == resolved_strategy(decls@[i], default_strategy)
            },
            Err(bad) => {
                &&& offending_names(decls@, default_strategy).len() > 0
                &&& bad@.map_values(|s: String| s@) == offending_names(decls@, default_strategy)
            },
        },
{
    let n = decls.len();
    let mut out: Vec<ClassifiedField> = Vec::new();
    let mut bad: Vec<String> = Vec::new();
    for i in 0..n
        invariant
            bad@.map_values(|s: String| s@) == offending_names(
                decls@.subrange(0, i as int),
                default_strategy,
            ),
            bad@.len() == 0 ==> out@.len() == i && forall|j: int|
                0 <= j < i ==> (#[trigger] out@[j]).name@ == decls@[j].name@ && Some(
                    out@[j].strategy,
                ) == resolved_strategy(decls@[j], default_strategy),
    {
        let ghost bad0 = bad@;
        let d = &decls[i];
        let token_strategy: Option<FieldType> = match &d.strategy {
            Some(tok) => string_to_fieldtype(tok.as_str()),
            None => Some(default_strategy),
        };
        let resolved: Option<FieldType> = match token_strategy {
            Some(FieldType::Ordered) => None,
            other => other,
        };
        proof {
            assert(resolved == resolved_strategy(decls@[i as int], default_strategy));
            assert(decls@.subrange(0, i + 1).drop_last() =~= decls@.subrange(0, i as int));
            assert(decls@.subrange(0, i + 1).last() == decls@[i as int]);
        }
        match resolved {
            Some(ft) => {
                out.push(ClassifiedField { name: d.name.clone(), strategy: ft });
            },
            None => {
                bad.push(d.name.clone());
                proof {
                    assert(bad@.map_values(|s: String| s@) =~= bad0.map_values(
                        |s: String| s@,
                    ).push(decls@[i as int].name@));
                }
            },
        }
    }
    proof {
        assert(decls@.subrange(0, n as int) =~= decls@);
    }
    if bad.len() == 0 {
        Ok(out)
    } else {
        Err(bad)
    }
}

/// The delta sub-field shape that one field strategy calls for: an
/// optional replacement for a scalar, added and removed item lists for an
/// unordered collection, an optional nested delta for a delta-aware
/// field. `Ordered` calls for none.
#[derive(Clone, Copy, PartialEq, Eq, Structural, Debug)]
pub enum FieldShape {
    Replacement,
    AddRemove,
    NestedDelta,
}

/// The shape of the delta sub-field for one strategy.
pub open spec fn shape_for(s: FieldType) -> Option<FieldShape> {
    match s {
        FieldType::Scalar => Some(FieldShape::Replacement),
        FieldType::Unordered => Some(FieldShape::AddRemove),
        FieldType::Delta => Some(FieldShape::NestedDelta),
        FieldType::Ordered => None,
    }
}

/// Build the shape of the companion delta value for a classified record:
/// one shape per field, in declaration order. Total: classification has
/// already rejected every field without a shape.
#[verifier::loop_isolation(false)]
pub fn build_shape(fields: &Vec<ClassifiedField>) -> (r: Vec<FieldShape>)
    requires
        forall|i: int|
            0 <= i < fields@.len() ==> (#[trigger] fields@[i]).strategy != FieldType::Ordered,
    ensures
        r@.len() == fields@.len(),
        forall|i: int|
            0 <= i < fields@.len() ==> Some(#[trigger] r@[i]) == shape_for(fields@[i].strategy),
{
    let n = fields.len();
    let mut r: Vec<FieldShape> = Vec::new();
    for i in 0..n
        invariant
            r@.len() == i,
            forall|j: int| 0 <= j < i ==> Some(#[trigger] r@[j]) == shape_for(fields@[j].strategy),
    {
        let s = match fields[i].strategy {
            FieldType::Scalar => FieldShape::Replacement,
            FieldType::Unordered => FieldShape::AddRemove,
            FieldType::Delta => FieldShape::NestedDelta,
            FieldType::Ordered => vstd::pervasive::unreached(),
        };
        r.push(s);
    }
    r
}


/// The strategy a field value carries in its variant.
pub open spec fn strategy_of(v: FieldValue) -> FieldType {
    match v {
        FieldValue::Scalar(_) => FieldType::Scalar,
        FieldValue::Unordered(_) => FieldType::Unordered,
        FieldValue::Nested(_) => FieldType::Delta,
    }
}

/// The delta sub-field shape a delta entry exhibits.
pub open spec fn shape_of(d: FieldDelta) -> FieldShape {
    match d {
        FieldDelta::Scalar(_) => FieldShape::Replacement,
        FieldDelta::Unordered { added: _, removed: _ } => FieldShape::AddRemove,
        FieldDelta::Nested(_) => FieldShape::NestedDelta,
    }
}

/// The shape builder and the diff engine agree: the delta entry computed
/// for a field exhibits exactly the shape that the field's strategy calls
/// for.
pub proof fn lemma_delta_shape_matches(o: FieldValue, n: FieldValue, d: FieldDelta)
    requires
        field_delta_for(o, n, d),
    ensures
        Some(shape_of(d)) == shape_for(strategy_of(o)),
{
}

} // verus!
