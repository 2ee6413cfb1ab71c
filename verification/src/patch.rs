//! The patch engine: replay a previously computed delta onto a live
//! record instance, field by field in schema order.

use vstd::prelude::*;
use crate::record::{
    FieldValue, Record, FieldDelta, RecordDelta, delta_fits_field, delta_fits, field_patched,
    record_patched,
};
use crate::unordered::apply_unordered;

verus! {

/// Replay one delta entry onto one field under the field's own strategy.
fn apply_field(t: FieldValue, d: FieldDelta) -> (r: FieldValue)
    requires
        delta_fits_field(d, t),
    ensures
        field_patched(t, d, r),
    decreases t,
{
    match (t, d) {
        (FieldValue::Scalar(a), FieldDelta::Scalar(opt)) => {
            match opt {
                Some(v) => FieldValue::Scalar(v),
                None => FieldValue::Scalar(a),
            }
        },
        (FieldValue::Unordered(items), FieldDelta::Unordered { added, removed }) => {
            FieldValue::Unordered(apply_unordered(items, &added, &removed))
        },
        (FieldValue::Nested(sub), FieldDelta::Nested(opt)) => {
            match opt {
                Some(dd) => FieldValue::Nested(apply_record(sub, dd)),
                None => FieldValue::Nested(sub),
            }
        },
        _ => vstd::pervasive::unreached(),
    }
}

/// Replay a delta onto a record taken by value, returning the patched
/// record.
#[verifier::loop_isolation(false)]
fn apply_record(t: Record, d: RecordDelta) -> (r: Record)
    requires
        delta_fits(d, t),
    ensures
        record_patched(t, d, r),
    decreases t,
{
    let ghost t_all = t;
    let ghost t0 = t.fields@;
    let ghost d0 = d.fields@;
    let mut src = t.fields;
    let mut ds = d.fields;
    let n = src.len();
    let mut out: Vec<FieldValue> = Vec::new();
    for i in 0..n
        invariant
            src@ == t0.subrange(i as int, n as int),
            ds@ == d0.subrange(i as int, n as int),
            out@.len() == i,
            forall|j: int| 0 <= j < i ==> field_patched(t0[j], d0[j], #[trigger] out@[j]),
    {
        let f = src.remove(0);
        let fd = ds.remove(0);
        proof {
            assert(f == t0[i as int]);
            assert(fd == d0[i as int]);
            assert(src@ =~= t0.subrange(i + 1, n as int));
            assert(ds@ =~= d0.subrange(i + 1, n as int));
            assert(decreases_to!(t_all => t_all.fields));
            assert(decreases_to!(t_all.fields => t_all.fields[i as int]));
        }
        let nf = apply_field(f, fd);
        out.push(nf);
    }
    Record { fields: out }
}

/// Replay a delta onto a record in place. The delta must have been
/// computed against a record of this shape; every field is rewritten
/// according to its delta entry, and entries at their "unchanged"
/// representation leave the field as it was.
pub fn apply(target: &mut Record, delta: RecordDelta)
    requires
        delta_fits(delta, *old(target)),
    ensures
        record_patched(*old(target), delta, *final(target)),
{
    let mut tmp = Record { fields: Vec::new() };
    core::mem::swap(target, &mut tmp);
    let out = apply_record(tmp, delta);
    *target = out;
}

/// Replay the result of a diff onto a record in place. Absence of a delta
/// means nothing changed, and the record is left untouched.
pub fn apply_opt(target: &mut Record, delta: Option<RecordDelta>)
    requires
        delta matches Some(d) ==> delta_fits(d, *old(target)),
    ensures
        delta is None ==> *final(target) == *old(target),
        delta matches Some(d) ==> record_patched(*old(target), d, *final(target)),
{
    match delta {
        Some(d) => apply(target, d),
        None => (),
    }
}

} // verus!
