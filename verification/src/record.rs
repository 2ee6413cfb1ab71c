//! The record value model and the specification of diffing and patching.
//!
//! A record instance is a sequence of field values in schema order. Each
//! field value carries its own diff strategy in its variant: a scalar
//! compared by equality, an unordered collection compared as a multiset,
//! or a nested record that is diffed recursively. A delta mirrors that
//! shape field by field.

use vstd::prelude::*;

verus! {

/// One field of a record instance. The variant is the field's diff
/// strategy: `Scalar` is compared by equality and replaced wholesale,
/// `Unordered` is a collection whose change is a multiset difference,
/// `Nested` is a sub-record that supports the same diff/patch contract.
#[derive(Debug, PartialEq, Eq)]
pub enum FieldValue {
    Scalar(i64),
    Unordered(Vec<i64>),
    Nested(Record),
}

/// A record instance: its field values in schema order.
#[derive(Debug, PartialEq, Eq)]
pub struct Record {
    pub fields: Vec<FieldValue>,
}

/// One field of a delta. `Scalar` holds the replacement value iff the
/// field changed; `Unordered` holds the items added and removed (both
/// empty iff unchanged); `Nested` holds a sub-delta iff the sub-record
/// changed.
#[derive(Debug, PartialEq, Eq)]
pub enum FieldDelta {
    Scalar(Option<i64>),
    Unordered { added: Vec<i64>, removed: Vec<i64> },
    Nested(Option<RecordDelta>),
}

/// A delta between two record instances of the same shape, one entry per
/// field in schema order.
#[derive(Debug, PartialEq, Eq)]
pub struct RecordDelta {
    pub fields: Vec<FieldDelta>,
}

/// Two field values belong to the same schema: same strategy, and for
/// nested records the same shape throughout.
pub open spec fn field_compatible(a: FieldValue, b: FieldValue) -> bool
    decreases a,
{
    match (a, b) {
        (FieldValue::Scalar(_), FieldValue::Scalar(_)) => true,
        (FieldValue::Unordered(_), FieldValue::Unordered(_)) => true,
        (FieldValue::Nested(ra), FieldValue::Nested(rb)) => records_compatible(ra, rb),
        _ => false,
    }
}

/// Two record instances belong to the same schema.
pub open spec fn records_compatible(a: Record, b: Record) -> bool
    decreases a,
{
    &&& a.fields@.len() == b.fields@.len()
    &&& forall|i: int|
        0 <= i < a.fields@.len() ==> field_compatible(#[trigger] a.fields@[i], b.fields@[i])
}

/// A field is unchanged under its own strategy's notion of equality:
/// scalars by value, unordered collections as multisets, nested records
/// recursively.
pub open spec fn field_agrees(a: FieldValue, b: FieldValue) -> bool
    decreases a,
{
    match (a, b) {
        (FieldValue::Scalar(x), FieldValue::Scalar(y)) => x == y,
        (FieldValue::Unordered(u), FieldValue::Unordered(v)) => u@.to_multiset()
            == v@.to_multiset(),
        (FieldValue::Nested(ra), FieldValue::Nested(rb)) => records_agree(ra, rb),
        _ => false,
    }
}

/// Every field of `a` is unchanged with respect to `b` under its own
/// strategy. This is both "nothing to diff" and "equal up to the order of
/// unordered collections".
pub open spec fn records_agree(a: Record, b: Record) -> bool
    decreases a,
{
    &&& a.fields@.len() == b.fields@.len()
    &&& forall|i: int|
        0 <= i < a.fields@.len() ==> field_agrees(#[trigger] a.fields@[i], b.fields@[i])
}

/// The delta entry has the shape that the field's strategy calls for, so
/// that patching can consume it.
pub open spec fn delta_fits_field(d: FieldDelta, v: FieldValue) -> bool
    decreases v,
{
    match (d, v) {
        (FieldDelta::Scalar(_), FieldValue::Scalar(_)) => true,
        (FieldDelta::Unordered { added, removed }, FieldValue::Unordered(_)) => true,
        (FieldDelta::Nested(opt), FieldValue::Nested(r)) => match opt {
            Option::None => true,
            Option::Some(dd) => delta_fits(dd, r),
        },
        _ => false,
    }
}

/// The delta mirrors the record's shape field by field.
pub open spec fn delta_fits(d: RecordDelta, r: Record) -> bool
    decreases r,
{
    &&& d.fields@.len() == r.fields@.len()
    &&& forall|i: int|
        0 <= i < r.fields@.len() ==> delta_fits_field(d.fields@[i], #[trigger] r.fields@[i])
}

/// `d` is the delta entry that diffing field `o` against field `n`
/// produces: a scalar replacement iff the values differ; for an unordered
/// collection the added items are the surplus of `n` over `o` and the
/// removed items the surplus of `o` over `n`, as multisets; for a nested
/// record a sub-delta iff the sub-records disagree.
pub open spec fn field_delta_for(o: FieldValue, n: FieldValue, d: FieldDelta) -> bool
    decreases o,
{
    match (o, n, d) {
        (FieldValue::Scalar(a), FieldValue::Scalar(b), FieldDelta::Scalar(r)) => r == if a == b {
            Option::<i64>::None
        } else {
            Option::Some(b)
        },
        (
            FieldValue::Unordered(a),
            FieldValue::Unordered(b),
            FieldDelta::Unordered { added, removed },
        ) => {
            &&& added@.to_multiset() == b@.to_multiset().sub(a@.to_multiset())
            &&& removed@.to_multiset() == a@.to_multiset().sub(b@.to_multiset())
        },
        (FieldValue::Nested(ra), FieldValue::Nested(rb), FieldDelta::Nested(opt)) => match opt {
            Option::None => records_agree(ra, rb),
            Option::Some(dd) => !records_agree(ra, rb) && record_delta_for(ra, rb, dd),
        },
        _ => false,
    }
}

/// `d` is the delta that diffing record `o` against record `n` produces,
/// field by field in schema order.
pub open spec fn record_delta_for(o: Record, n: Record, d: RecordDelta) -> bool
    decreases o,
{
    &&& o.fields@.len() == n.fields@.len()
    &&& d.fields@.len() == o.fields@.len()
    &&& forall|i: int|
        0 <= i < o.fields@.len() ==> field_delta_for(
            #[trigger] o.fields@[i],
            n.fields@[i],
            d.fields@[i],
        )
}

/// `r` is the result of replaying delta entry `d` onto field `t`: a
/// present scalar replacement overwrites the value; for an unordered
/// collection each removed entry consumes at most one matching element
/// and the added items are appended, so the result's multiset is the
/// clamped difference plus the additions; a present sub-delta is applied
/// recursively and an absent one leaves the field untouched.
pub open spec fn field_patched(t: FieldValue, d: FieldDelta, r: FieldValue) -> bool
    decreases t,
{
    match (t, d, r) {
        (FieldValue::Scalar(a), FieldDelta::Scalar(opt), FieldValue::Scalar(c)) => c == match opt {
            Option::Some(v) => v,
            Option::None => a,
        },
        (
            FieldValue::Unordered(a),
            FieldDelta::Unordered { added, removed },
            FieldValue::Unordered(c),
        ) => c@.to_multiset() == a@.to_multiset().sub(removed@.to_multiset()).add(
            added@.to_multiset(),
        ),
        (FieldValue::Nested(ra), FieldDelta::Nested(opt), FieldValue::Nested(rc)) => match opt {
            Option::None => rc == ra,
            Option::Some(dd) => record_patched(ra, dd, rc),
        },
        _ => false,
    }
}

/// `r` is the result of replaying delta `d` onto record `t`, field by
/// field in schema order.
pub open spec fn record_patched(t: Record, d: RecordDelta, r: Record) -> bool
    decreases t,
{
    &&& r.fields@.len() == t.fields@.len()
    &&& d.fields@.len() == t.fields@.len()
    &&& forall|i: int|
        0 <= i < t.fields@.len() ==> field_patched(
            #[trigger] t.fields@[i],
            d.fields@[i],
            r.fields@[i],
        )
}

/// A delta entry produced by diffing always has the shape that patching
/// the old field expects.
pub proof fn lemma_field_delta_fits(o: FieldValue, n: FieldValue, d: FieldDelta)
    requires
        field_delta_for(o, n, d),
    ensures
        delta_fits_field(d, o),
    decreases o,
{
    match (o, n, d) {
        (FieldValue::Nested(ra), FieldValue::Nested(rb), FieldDelta::Nested(opt)) => {
            match opt {
                Option::None => {
                },
                Option::Some(dd) => {
                    lemma_record_delta_fits(ra, rb, dd);
                },
            }
        },
        _ => {
        },
    }
}

/// A delta produced by diffing always fits the old record it was computed
/// from.
pub proof fn lemma_record_delta_fits(o: Record, n: Record, d: RecordDelta)
    requires
        record_delta_for(o, n, d),
    ensures
        delta_fits(d, o),
    decreases o,
{
    assert forall|i: int| 0 <= i < o.fields@.len() implies delta_fits_field(
        d.fields@[i],
        #[trigger] o.fields@[i],
    ) by {
        lemma_field_delta_fits(o.fields@[i], n.fields@[i], d.fields@[i]);
    }
}

} // verus!
