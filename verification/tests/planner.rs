// The layout planner and the erasure registry on concrete shapes: exact
// offsets, the zero-size edge case, the representability check that guards
// construction, and the metadata accessors.

use project_ptr::layout::{layout_fits, pad_to_align, round_up, MemLayout};
use project_ptr::metadata::{is_power_of_two, metadata_of};
use project_ptr::sync::arc_inner_layout;
use project_ptr::unsync::rc_inner_layout;

#[test]
fn arc_layout_offsets() {
    // Payload of 5 bytes aligned to 4: count at 0, metadata record at 8,
    // payload at 32 (the 32-byte header is already 4-aligned), total rounded
    // up to the overall alignment of 8.
    let meta = metadata_of(5, 4, 0);
    let plan = arc_inner_layout(meta);
    assert_eq!(plan.strong_offset, 0);
    assert_eq!(plan.drop_offset, 8);
    assert_eq!(plan.payload_offset, 32);
    assert_eq!(plan.layout.size, 40);
    assert_eq!(plan.layout.align, 8);
}

#[test]
fn rc_layout_matches_arc_layout() {
    // The two flavors differ only in their count primitive, which has the
    // same shape: their planned layouts agree.
    let meta = metadata_of(100, 16, 0);
    let arc_plan = arc_inner_layout(meta);
    let rc_plan = rc_inner_layout(meta);
    assert_eq!(arc_plan.layout, rc_plan.layout);
    assert_eq!(arc_plan.strong_offset, rc_plan.strong_offset);
    assert_eq!(arc_plan.drop_offset, rc_plan.drop_offset);
    assert_eq!(arc_plan.payload_offset, rc_plan.payload_offset);
}

#[test]
fn strict_alignment_pushes_payload() {
    // A 64-byte alignment pads the payload out to offset 64 and rules the
    // whole allocation.
    let meta = metadata_of(1, 64, 0);
    let plan = arc_inner_layout(meta);
    assert_eq!(plan.payload_offset, 64);
    assert_eq!(plan.layout.align, 64);
    assert_eq!(plan.layout.size, 128);
}

#[test]
fn zero_sized_payload_still_has_a_header() {
    // Payload size 0 is legal and still yields a non-empty allocation for
    // the count and metadata.
    let meta = metadata_of(0, 1, 0);
    let plan = arc_inner_layout(meta);
    assert_eq!(plan.payload_offset, 32);
    assert_eq!(plan.layout.size, 32);
    assert!(plan.layout.size > 0);
}

#[test]
fn oversized_payload_is_rejected() {
    // A payload too large for any allocation fails the representability
    // check, so construction cannot be reached with it.
    let huge = metadata_of(usize::MAX, 8, 0);
    assert!(!layout_fits(huge));
    let fine = metadata_of(64, 8, 0);
    assert!(layout_fits(fine));
}

#[test]
fn round_up_examples() {
    assert_eq!(round_up(0, 8), 0);
    assert_eq!(round_up(1, 8), 8);
    assert_eq!(round_up(13, 8), 16);
    assert_eq!(round_up(16, 8), 16);
    assert_eq!(round_up(17, 1), 17);
}

#[test]
fn pad_to_align_example() {
    let padded = pad_to_align(MemLayout { size: 33, align: 16 });
    assert_eq!(padded.size, 48);
    assert_eq!(padded.align, 16);
}

#[test]
fn metadata_accessors() {
    let meta = metadata_of(40, 8, 17);
    assert_eq!(meta.size_of(), 40);
    assert_eq!(meta.align_of(), 8);
    assert_eq!(meta.destructor_tag(), 17);
}

#[test]
fn power_of_two_check() {
    assert!(is_power_of_two(1));
    assert!(is_power_of_two(2));
    assert!(is_power_of_two(64));
    assert!(!is_power_of_two(0));
    assert!(!is_power_of_two(12));
}
