// Concrete runs of the properties the library states in its contracts: one
// destructor run at the last drop, clone transparency, projection keeping
// the allocation alive, destruction targeting the original type, and the
// narrowing of a sized payload into sub-views.

use project_ptr::arena::Arena;
use project_ptr::metadata::metadata_of;
use project_ptr::{ProjectArc, ProjectRc};

#[test]
fn single_release_with_projections() {
    let mut a = Arena::new();
    let meta = metadata_of(4, 4, 7);
    let p1 = ProjectArc::new(&mut a, meta, vec![10, 20, 30, 40]);
    assert_eq!(p1.strong_count(&a), 1);

    let p2 = p1.clone_handle(&mut a);
    let p3 = p2.clone_handle(&mut a);
    assert_eq!(p1.strong_count(&a), 3);

    // A projection is a move: the count does not change.
    let p3 = p3.project(&a, 1, 3);
    assert_eq!(p1.strong_count(&a), 3);

    p1.drop_handle(&mut a);
    assert!(a.destroyed.is_empty());
    p3.drop_handle(&mut a);
    assert!(a.destroyed.is_empty());
    assert_eq!(p2.strong_count(&a), 1);

    p2.drop_handle(&mut a);
    assert_eq!(a.destroyed.len(), 1);
}

#[test]
fn clone_transparency() {
    let mut a = Arena::new();
    let meta = metadata_of(4, 1, 3);
    let p1 = ProjectRc::new(&mut a, meta, vec![5, 6, 7, 8]);
    let p2 = p1.clone_handle(&mut a);

    // Both handles observe identical payload contents.
    assert_eq!(p1.deref(&a), p2.deref(&a));
    assert_eq!(p1.deref(&a), &[5, 6, 7, 8]);

    // Dropping one never invalidates the other while it remains live.
    p1.drop_handle(&mut a);
    assert_eq!(p2.deref(&a), &[5, 6, 7, 8]);
    assert!(a.destroyed.is_empty());
    p2.drop_handle(&mut a);
    assert_eq!(a.destroyed.len(), 1);
}

#[test]
fn projection_preserves_lifetime() {
    let mut a = Arena::new();
    let meta = metadata_of(6, 2, 11);
    let p1 = ProjectArc::new(&mut a, meta, vec![1, 2, 3, 4, 5, 6]);

    // `p1` is consumed by the projection; only `p2` remains.
    let p2 = p1.project(&a, 2, 6);
    assert_eq!(p2.deref(&a), &[3, 4, 5, 6]);
    assert!(a.destroyed.is_empty());

    // The constructed value is destroyed only when the projected handle
    // goes, and the destructor sees the full original payload.
    p2.drop_handle(&mut a);
    assert_eq!(a.destroyed.len(), 1);
    assert_eq!(a.destroyed[0].bytes, vec![1, 2, 3, 4, 5, 6]);
}

#[test]
fn destructor_targets_original_type() {
    let mut a = Arena::new();
    // Two payload types with observably different destructors.
    let noisy = metadata_of(8, 8, 1001);
    let quiet = metadata_of(2, 2, 2002);

    let p = ProjectArc::new(&mut a, noisy, vec![9, 9, 9, 9, 9, 9, 9, 9]);
    let q = ProjectArc::new(&mut a, quiet, vec![1, 2]);

    // Narrow the first handle to a two-byte view: the same width as the
    // other type, so only the stored metadata can tell them apart.
    let p = p.project(&a, 3, 5);
    p.drop_handle(&mut a);

    // The destructor ran once, on the original noisy value — the whole
    // eight bytes — not on the narrow view.
    assert_eq!(a.destroyed.len(), 1);
    assert_eq!(a.destroyed[0].meta.destructor_tag(), 1001);
    assert_eq!(a.destroyed[0].bytes, vec![9, 9, 9, 9, 9, 9, 9, 9]);

    q.drop_handle(&mut a);
    assert_eq!(a.destroyed.len(), 2);
    assert_eq!(a.destroyed[1].meta.destructor_tag(), 2002);
    assert_eq!(a.destroyed[1].bytes, vec![1, 2]);
}

#[test]
fn unsized_round_trip() {
    let mut a = Arena::new();
    // A fixed-size sequence of three 8-byte words: {1, 2, 3}.
    let meta = metadata_of(24, 8, 5);
    let mut payload = Vec::new();
    payload.extend_from_slice(&1u64.to_le_bytes());
    payload.extend_from_slice(&2u64.to_le_bytes());
    payload.extend_from_slice(&3u64.to_le_bytes());

    let whole = ProjectArc::new(&mut a, meta, payload);
    let first = whole.clone_project(&mut a, 0, 8);
    let tail = whole.clone_project(&mut a, 8, 24);

    // The index-0 view reads 1; the 1..3 range view reads {2, 3}.
    assert_eq!(first.deref(&a), &1u64.to_le_bytes());
    let mut expect_tail = Vec::new();
    expect_tail.extend_from_slice(&2u64.to_le_bytes());
    expect_tail.extend_from_slice(&3u64.to_le_bytes());
    assert_eq!(tail.deref(&a), &expect_tail[..]);

    // Both views keep the original allocation alive until every derived
    // handle is dropped.
    whole.drop_handle(&mut a);
    assert!(a.destroyed.is_empty());
    first.drop_handle(&mut a);
    assert!(a.destroyed.is_empty());
    tail.drop_handle(&mut a);
    assert_eq!(a.destroyed.len(), 1);
}

#[test]
fn zero_sized_payload_lifecycle() {
    let mut a = Arena::new();
    // A unit-like value: no payload bytes, but a real allocation with a
    // count and a destructor.
    let meta = metadata_of(0, 1, 21);
    let p1 = ProjectRc::new(&mut a, meta, Vec::new());
    let empty: &[u8] = &[];
    assert_eq!(p1.deref(&a), empty);

    let p2 = p1.clone_handle(&mut a);
    p1.drop_handle(&mut a);
    assert!(a.destroyed.is_empty());
    p2.drop_handle(&mut a);
    assert_eq!(a.destroyed.len(), 1);
    assert_eq!(a.destroyed[0].meta.destructor_tag(), 21);
    assert!(a.destroyed[0].bytes.is_empty());
}

#[test]
fn projection_to_empty_view() {
    let mut a = Arena::new();
    let meta = metadata_of(4, 4, 1);
    let p1 = ProjectArc::new(&mut a, meta, vec![1, 2, 3, 4]);
    let p2 = p1.project(&a, 2, 2);
    let empty: &[u8] = &[];
    assert_eq!(p2.deref(&a), empty);

    // Even an empty view owns its share: the allocation stays alive until
    // the handle goes.
    assert!(a.destroyed.is_empty());
    p2.drop_handle(&mut a);
    assert_eq!(a.destroyed.len(), 1);
    assert_eq!(a.destroyed[0].bytes, vec![1, 2, 3, 4]);
}
