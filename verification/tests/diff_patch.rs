use delta_struct::diff::compute;
use delta_struct::patch::{apply, apply_opt};
use delta_struct::record::{FieldDelta, FieldValue, Record, RecordDelta};
use delta_struct::unordered::{apply_unordered, diff_unordered};

fn scalar_record(v: i64) -> Record {
    Record { fields: vec![FieldValue::Scalar(v)] }
}

#[test]
fn scalar_change_yields_replacement() {
    let old = scalar_record(3);
    let new = scalar_record(5);
    let d = compute(&old, &new).expect("a changed scalar must yield a delta");
    assert_eq!(d.fields, vec![FieldDelta::Scalar(Some(5))]);
}

#[test]
fn scalar_no_change_yields_absence() {
    let old = scalar_record(3);
    let new = scalar_record(3);
    assert!(compute(&old, &new).is_none());
}

#[test]
fn unordered_tags_multiset_difference() {
    // tags [a, b, b] -> [b, c]: one b is matched and consumed, the a and
    // the surplus b are removed, c is added.
    let old_tags = vec![1, 2, 2];
    let new_tags = vec![2, 3];
    let (added, removed) = diff_unordered(&old_tags, &new_tags);
    assert_eq!(removed, vec![1, 2]);
    assert_eq!(added, vec![3]);
}

#[test]
fn unordered_equal_multisets_yield_absence() {
    let old = Record { fields: vec![FieldValue::Unordered(vec![1, 2])] };
    let new = Record { fields: vec![FieldValue::Unordered(vec![2, 1])] };
    assert!(compute(&old, &new).is_none());
}

#[test]
fn nested_unchanged_subrecord_is_absent_in_delta() {
    // The outer delta exists because another field changed, but the
    // unchanged sub-record contributes no nested delta.
    let old = Record {
        fields: vec![FieldValue::Scalar(1), FieldValue::Nested(scalar_record(7))],
    };
    let new = Record {
        fields: vec![FieldValue::Scalar(2), FieldValue::Nested(scalar_record(7))],
    };
    let d = compute(&old, &new).expect("the scalar change must yield a delta");
    assert_eq!(
        d.fields,
        vec![FieldDelta::Scalar(Some(2)), FieldDelta::Nested(None)]
    );
}

#[test]
fn nested_changed_subrecord_carries_nested_delta() {
    let old = Record { fields: vec![FieldValue::Nested(scalar_record(7))] };
    let new = Record { fields: vec![FieldValue::Nested(scalar_record(8))] };
    let d = compute(&old, &new).expect("a nested change must yield a delta");
    match &d.fields[0] {
        FieldDelta::Nested(Some(dd)) => {
            assert_eq!(dd.fields, vec![FieldDelta::Scalar(Some(8))]);
        }
        other => panic!("expected a nested delta, got {:?}", other),
    }
}

#[test]
fn compute_on_identical_record_is_absent() {
    let r = Record {
        fields: vec![
            FieldValue::Scalar(1),
            FieldValue::Unordered(vec![4, 4, 5]),
            FieldValue::Nested(scalar_record(9)),
        ],
    };
    let same = Record {
        fields: vec![
            FieldValue::Scalar(1),
            FieldValue::Unordered(vec![4, 4, 5]),
            FieldValue::Nested(scalar_record(9)),
        ],
    };
    assert!(compute(&r, &same).is_none());
}

#[test]
fn applying_absence_leaves_record_unchanged() {
    let mut target = Record {
        fields: vec![FieldValue::Scalar(1), FieldValue::Unordered(vec![2, 3])],
    };
    let expected = Record {
        fields: vec![FieldValue::Scalar(1), FieldValue::Unordered(vec![2, 3])],
    };
    apply_opt(&mut target, None);
    assert_eq!(target, expected);
}

#[test]
fn round_trip_reproduces_new_record() {
    let old = Record {
        fields: vec![
            FieldValue::Scalar(1),
            FieldValue::Unordered(vec![1, 2, 2]),
            FieldValue::Nested(Record {
                fields: vec![FieldValue::Scalar(10), FieldValue::Unordered(vec![4])],
            }),
        ],
    };
    let new = Record {
        fields: vec![
            FieldValue::Scalar(1),
            FieldValue::Unordered(vec![2, 3]),
            FieldValue::Nested(Record {
                fields: vec![FieldValue::Scalar(11), FieldValue::Unordered(vec![4])],
            }),
        ],
    };
    let d = compute(&old, &new).expect("the changed fields must yield a delta");
    let mut patched = Record {
        fields: vec![
            FieldValue::Scalar(1),
            FieldValue::Unordered(vec![1, 2, 2]),
            FieldValue::Nested(Record {
                fields: vec![FieldValue::Scalar(10), FieldValue::Unordered(vec![4])],
            }),
        ],
    };
    apply(&mut patched, d);
    // Scalar and nested fields match exactly; the unordered field comes
    // back as the kept elements followed by the additions, which here is
    // exactly new's contents.
    let expected = Record {
        fields: vec![
            FieldValue::Scalar(1),
            FieldValue::Unordered(vec![2, 3]),
            FieldValue::Nested(Record {
                fields: vec![FieldValue::Scalar(11), FieldValue::Unordered(vec![4])],
            }),
        ],
    };
    assert_eq!(patched, expected);
}

#[test]
fn round_trip_unordered_is_multiset_equal() {
    let a = vec![7, 7, 8, 9];
    let b = vec![9, 9, 7];
    let (added, removed) = diff_unordered(&a, &b);
    let mut result = apply_unordered(a, &added, &removed);
    let mut b_sorted = b.clone();
    result.sort();
    b_sorted.sort();
    assert_eq!(result, b_sorted);

    // And the symmetric direction: diff (b, a) applied to b gives a.
    let a2 = vec![7, 7, 8, 9];
    let b2 = vec![9, 9, 7];
    let (added2, removed2) = diff_unordered(&b2, &a2);
    let mut result2 = apply_unordered(b2, &added2, &removed2);
    let mut a_sorted = a2.clone();
    result2.sort();
    a_sorted.sort();
    assert_eq!(result2, a_sorted);
}

#[test]
fn apply_scalar_absent_replacement_is_noop() {
    let mut target = scalar_record(4);
    apply(
        &mut target,
        RecordDelta { fields: vec![FieldDelta::Scalar(None)] },
    );
    assert_eq!(target, scalar_record(4));
}

#[test]
fn apply_unordered_consumes_one_match_per_removed_entry() {
    let items = vec![5, 5, 7];
    let result = apply_unordered(items, &vec![9], &vec![5]);
    assert_eq!(result, vec![5, 7, 9]);
}

#[test]
fn apply_unordered_ignores_unmatched_removed_entries() {
    let items = vec![1];
    let result = apply_unordered(items, &vec![], &vec![2]);
    assert_eq!(result, vec![1]);
}

#[test]
fn diff_unordered_on_empty_sides() {
    let (added, removed) = diff_unordered(&vec![], &vec![1, 1]);
    assert_eq!(added, vec![1, 1]);
    assert_eq!(removed, vec![] as Vec<i64>);

    let (added2, removed2) = diff_unordered(&vec![1, 1], &vec![]);
    assert_eq!(added2, vec![] as Vec<i64>);
    assert_eq!(removed2, vec![1, 1]);
}
