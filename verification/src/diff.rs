//! The diff engine: compare two record instances field by field and
//! produce a delta, or report that nothing changed at all.

use vstd::prelude::*;
use crate::record::{
    FieldValue, Record, FieldDelta, RecordDelta, field_compatible, records_compatible,
    field_agrees, records_agree, field_delta_for, record_delta_for, delta_fits,
    lemma_record_delta_fits,
};
use crate::unordered::{diff_unordered, lemma_diff_empty_iff_same};

verus! {

/// Diff one field pair under the field's own strategy. Returns the delta
/// entry and whether the field changed.
fn compute_field(o: &FieldValue, n: &FieldValue) -> (r: (FieldDelta, bool))
    requires
        field_compatible(*o, *n),
    ensures
        field_delta_for(*o, *n, r.0),
        r.1 == !field_agrees(*o, *n),
    decreases *o,
{
    match (o, n) {
        (FieldValue::Scalar(a), FieldValue::Scalar(b)) => {
            if *a != *b {
                (FieldDelta::Scalar(Some(*b)), true)
            } else {
                (FieldDelta::Scalar(None), false)
            }
        },
        (FieldValue::Unordered(a), FieldValue::Unordered(b)) => {
            let (added, removed) = diff_unordered(a, b);
            let changed = added.len() > 0 || removed.len() > 0;
            proof {
                broadcast use vstd::seq_lib::group_to_multiset_ensures;

                lemma_diff_empty_iff_same(a@.to_multiset(), b@.to_multiset());
            }
            (FieldDelta::Unordered { added, removed }, changed)
        },
        (FieldValue::Nested(ra), FieldValue::Nested(rb)) => {
            let d = compute(ra, rb);
            let changed = d.is_some();
            (FieldDelta::Nested(d), changed)
        },
        _ => vstd::pervasive::unreached(),
    }
}

/// Diff two record instances of the same shape. Returns `None` exactly
/// when every field is unchanged under its own strategy; otherwise the
/// delta carries one entry per field, changed or not, and fits the old
/// record for patching.
#[verifier::loop_isolation(false)]
pub fn compute(old: &Record, new: &Record) -> (r: Option<RecordDelta>)
    requires
        records_compatible(*old, *new),
    ensures
        r is None <==> records_agree(*old, *new),
        r matches Some(d) ==> record_delta_for(*old, *new, d) && delta_fits(d, *old),
    decreases *old,
{
    let n = old.fields.len();
    let mut fields: Vec<FieldDelta> = Vec::new();
    let mut changed = false;
    for i in 0..n
        invariant
            fields@.len() == i,
            forall|j: int|
                0 <= j < i ==> field_delta_for(old.fields@[j], new.fields@[j], #[trigger] fields@[j]),
            changed <==> (exists|j: int|
                0 <= j < i && !(#[trigger] field_agrees(old.fields@[j], new.fields@[j]))),
    {
        let (fd, ch) = compute_field(&old.fields[i], &new.fields[i]);
        fields.push(fd);
        changed = changed || ch;
    }
    if changed {
        let d = RecordDelta { fields };
        proof {
            lemma_record_delta_fits(*old, *new, d);
            let j = choose|j: int|
                0 <= j < n && !(#[trigger] field_agrees(old.fields@[j], new.fields@[j]));
            assert(!records_agree(*old, *new));
        }
        Some(d)
    } else {
        proof {
            assert forall|j: int| 0 <= j < old.fields@.len() implies field_agrees(
                #[trigger] old.fields@[j],
                new.fields@[j],
            ) by {
                assert(!(0 <= j < n && !(field_agrees(old.fields@[j], new.fields@[j]))));
            }
            assert(records_agree(*old, *new));
        }
        None
    }
}

} // verus!
