// The handle protocol, exercised through both flavors: construction, clone,
// drop, projection, and the destruction log. Payloads are written as the
// byte spans the allocation holds; a destructor side effect is observed as
// the record the arena logs when the last handle is dropped.

use project_ptr::arena::Arena;
use project_ptr::metadata::metadata_of;
use project_ptr::{ProjectArc, ProjectRc};

#[test]
fn sync_ref_counting() {
    let mut a = Arena::new();
    // A value of 12345 whose destruction is observable through its tag.
    let meta = metadata_of(8, 8, 99);
    let payload = 12345u64.to_le_bytes().to_vec();

    let p1 = ProjectArc::new(&mut a, meta, payload.clone());
    assert!(a.destroyed.is_empty());
    assert_eq!(p1.deref(&a), &payload[..]);

    let p2 = p1.clone_handle(&mut a);
    assert_eq!(p1.deref(&a), &payload[..]);
    assert!(a.destroyed.is_empty());

    p1.drop_handle(&mut a);
    assert_eq!(p2.deref(&a), &payload[..]);
    assert!(a.destroyed.is_empty());

    p2.drop_handle(&mut a);
    // YES dropped
    assert!(a.destroyed.len() == 1);
    assert_eq!(a.destroyed[0].bytes, payload);
    assert_eq!(a.destroyed[0].meta.destructor_tag(), 99);
}

#[test]
fn sync_projected_ref_counting() {
    let mut a = Arena::new();
    let meta = metadata_of(8, 8, 99);
    let payload = 12345u64.to_le_bytes().to_vec();

    let p1 = ProjectArc::new(&mut a, meta, payload.clone());
    assert!(a.destroyed.is_empty());

    // Project to the first field of the stored value.
    let p2 = p1.project(&a, 0, 8);
    assert_eq!(p2.deref(&a), &payload[..]);
    assert!(a.destroyed.is_empty());

    p2.drop_handle(&mut a);
    assert!(a.destroyed.len() == 1);
}

#[test]
fn sync_project_slice() {
    let mut a = Arena::new();
    // [1, 2, 3] as three 4-byte little-endian words.
    let meta = metadata_of(12, 4, 1);
    let payload = vec![1, 0, 0, 0, 2, 0, 0, 0, 3, 0, 0, 0];
    let p1 = ProjectArc::new(&mut a, meta, payload);

    let p2 = p1.clone_project(&mut a, 0, 4);
    let p3 = p1.project(&a, 4, 12);

    assert_eq!(p2.deref(&a), &[1, 0, 0, 0]);
    assert_eq!(p3.deref(&a), &[2, 0, 0, 0, 3, 0, 0, 0]);
}

#[test]
fn sync_subslices() {
    let mut a = Arena::new();
    let text = "Hello, world!".as_bytes().to_vec();
    let meta = metadata_of(13, 1, 2);
    let p1 = ProjectArc::new(&mut a, meta, text);
    let p1 = p1.project(&a, 0, 4);

    assert_eq!(p1.deref(&a), "Hell".as_bytes());
}

#[test]
fn unsync_ref_counting() {
    let mut a = Arena::new();
    let meta = metadata_of(8, 8, 99);
    let payload = 12345u64.to_le_bytes().to_vec();

    let p1 = ProjectRc::new(&mut a, meta, payload.clone());
    assert!(a.destroyed.is_empty());
    assert_eq!(p1.deref(&a), &payload[..]);

    let p2 = p1.clone_handle(&mut a);
    assert_eq!(p1.deref(&a), &payload[..]);
    assert!(a.destroyed.is_empty());

    p1.drop_handle(&mut a);
    assert_eq!(p2.deref(&a), &payload[..]);
    assert!(a.destroyed.is_empty());

    p2.drop_handle(&mut a);
    // YES dropped
    assert!(a.destroyed.len() == 1);
    assert_eq!(a.destroyed[0].bytes, payload);
    assert_eq!(a.destroyed[0].meta.destructor_tag(), 99);
}

#[test]
fn unsync_projected_ref_counting() {
    let mut a = Arena::new();
    let meta = metadata_of(8, 8, 99);
    let payload = 12345u64.to_le_bytes().to_vec();

    let p1 = ProjectRc::new(&mut a, meta, payload.clone());
    assert!(a.destroyed.is_empty());

    let p2 = p1.project(&a, 0, 8);
    assert_eq!(p2.deref(&a), &payload[..]);
    assert!(a.destroyed.is_empty());

    p2.drop_handle(&mut a);
    assert!(a.destroyed.len() == 1);
}

#[test]
fn unsync_project_slice() {
    let mut a = Arena::new();
    let meta = metadata_of(12, 4, 1);
    let payload = vec![1, 0, 0, 0, 2, 0, 0, 0, 3, 0, 0, 0];
    let p1 = ProjectRc::new(&mut a, meta, payload);

    let p2 = p1.clone_project(&mut a, 0, 4);
    let p3 = p1.project(&a, 4, 12);

    assert_eq!(p2.deref(&a), &[1, 0, 0, 0]);
    assert_eq!(p3.deref(&a), &[2, 0, 0, 0, 3, 0, 0, 0]);
}

#[test]
fn unsync_subslices() {
    let mut a = Arena::new();
    let text = "Hello, world!".as_bytes().to_vec();
    let meta = metadata_of(13, 1, 2);
    let p1 = ProjectRc::new(&mut a, meta, text);
    let p1 = p1.project(&a, 0, 4);

    assert_eq!(p1.deref(&a), "Hell".as_bytes());
}
