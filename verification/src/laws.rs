//! The laws the diff/patch pair obeys, stated over the specification
//! functions that the engines' contracts use.

use vstd::prelude::*;
use vstd::multiset::Multiset;
use crate::record::{
    FieldValue, Record, FieldDelta, RecordDelta, field_agrees, records_agree, field_delta_for,
    record_delta_for, field_patched, record_patched,
};

verus! {

/// Every field agrees with itself under its own strategy.
pub proof fn lemma_field_agrees_reflexive(f: FieldValue)
    ensures
        field_agrees(f, f),
    decreases f,
{
    match f {
        FieldValue::Nested(r) => {
            lemma_records_agree_reflexive(r);
        },
        _ => {
        },
    }
}

/// No-op law: every record agrees with itself, so by `compute`'s contract
/// diffing any record against itself yields absence.
pub proof fn lemma_records_agree_reflexive(r: Record)
    ensures
        records_agree(r, r),
    decreases r,
{
    assert forall|i: int| 0 <= i < r.fields@.len() implies field_agrees(
        #[trigger] r.fields@[i],
        r.fields@[i],
    ) by {
        lemma_field_agrees_reflexive(r.fields@[i]);
    }
}

/// Multiset symmetry: replaying the additions and removals computed from
/// `(a, b)` onto `a` reproduces `b`'s multiset, and the pair computed
/// from `(b, a)` replayed onto `b` reproduces `a`'s. These are the exact
/// shapes of `diff_unordered`'s and `apply_unordered`'s contracts.
pub proof fn lemma_multiset_symmetry(a: Multiset<i64>, b: Multiset<i64>)
    ensures
        a.sub(a.sub(b)).add(b.sub(a)) == b,
        b.sub(b.sub(a)).add(a.sub(b)) == a,
{
    assert(a.sub(a.sub(b)).add(b.sub(a)) =~= b);
    assert(b.sub(b.sub(a)).add(a.sub(b)) =~= a);
}

/// Round-trip law, one field: replaying the delta entry computed from
/// `(o, n)` onto `o` yields a field that agrees with `n` under the
/// field's strategy: equal for scalars, multiset-equal for unordered
/// collections, recursively agreeing for nested records.
pub proof fn lemma_field_round_trip(o: FieldValue, n: FieldValue, d: FieldDelta, p: FieldValue)
    requires
        field_delta_for(o, n, d),
        field_patched(o, d, p),
    ensures
        field_agrees(p, n),
    decreases o,
{
    match (o, n, d, p) {
        (
            FieldValue::Unordered(a),
            FieldValue::Unordered(b),
            FieldDelta::Unordered { added, removed },
            FieldValue::Unordered(c),
        ) => {
            lemma_multiset_symmetry(a@.to_multiset(), b@.to_multiset());
        },
        (
            FieldValue::Nested(ra),
            FieldValue::Nested(rb),
            FieldDelta::Nested(opt),
            FieldValue::Nested(rc),
        ) => {
            match opt {
                Option::None => {
                },
                Option::Some(dd) => {
                    lemma_record_round_trip(ra, rb, dd, rc);
                },
            }
        },
        _ => {
        },
    }
}

/// Round-trip law: if `d` is the delta that diffing `o` against `n`
/// produces, then replaying `d` onto `o` yields a record that agrees with
/// `n` in every field: scalar and nested fields equal under their own
/// strategies, unordered fields multiset-equal.
pub proof fn lemma_record_round_trip(o: Record, n: Record, d: RecordDelta, p: Record)
    requires
        record_delta_for(o, n, d),
        record_patched(o, d, p),
    ensures
        records_agree(p, n),
    decreases o,
{
    assert forall|i: int| 0 <= i < p.fields@.len() implies field_agrees(
        #[trigger] p.fields@[i],
        n.fields@[i],
    ) by {
        lemma_field_round_trip(o.fields@[i], n.fields@[i], d.fields@[i], p.fields@[i]);
    }
}

} // verus!
