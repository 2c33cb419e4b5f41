use phiny::jitter::{JitterBuffer, JitterInsert};

#[test]
fn reordered_frames_release_in_order() {
    let mut jb = JitterBuffer::new(2, 100);
    assert_eq!(jb.insert(3, 0, vec![3u8]), JitterInsert::Accepted);
    assert_eq!(jb.insert(1, 0, vec![1u8]), JitterInsert::Accepted);
    assert_eq!(jb.insert(2, 0, vec![2u8]), JitterInsert::Accepted);
    assert_eq!(jb.insert(4, 0, vec![4u8]), JitterInsert::Accepted);

    let mut released: Vec<u32> = Vec::new();
    // Depth stays at or above the target until the buffer drains; the last
    // frame comes out on the hold-time trigger.
    while let Some((seq, payload)) = jb.poll(0) {
        assert_eq!(payload, vec![seq as u8]);
        released.push(seq);
    }
    while let Some((seq, payload)) = jb.poll(200) {
        assert_eq!(payload, vec![seq as u8]);
        released.push(seq);
    }
    assert_eq!(released, vec![1, 2, 3, 4]);
}

#[test]
fn frame_at_or_below_cursor_is_dropped() {
    let mut jb = JitterBuffer::new(1, 100);
    assert_eq!(jb.insert(5, 0, vec![5u8]), JitterInsert::Accepted);
    assert_eq!(jb.poll(0), Some((5, vec![5u8])));
    // 5 was released; 5 and anything below arrive too late now.
    assert_eq!(jb.insert(5, 1, vec![5u8]), JitterInsert::Late);
    assert_eq!(jb.insert(4, 1, vec![4u8]), JitterInsert::Late);
    assert_eq!(jb.dropped(), 2);
    assert_eq!(jb.insert(6, 1, vec![6u8]), JitterInsert::Accepted);
    assert_eq!(jb.poll(1), Some((6, vec![6u8])));
}

#[test]
fn duplicate_frame_is_dropped() {
    let mut jb = JitterBuffer::new(4, 100);
    assert_eq!(jb.insert(2, 0, vec![2u8]), JitterInsert::Accepted);
    assert_eq!(jb.insert(2, 1, vec![99u8]), JitterInsert::Duplicate);
    assert_eq!(jb.dropped(), 1);
    assert_eq!(jb.len(), 1);
}

#[test]
fn gap_is_skipped_only_after_hold_time() {
    let mut jb = JitterBuffer::new(1, 100);
    assert_eq!(jb.insert(0, 0, vec![0u8]), JitterInsert::Accepted);
    assert_eq!(jb.poll(0), Some((0, vec![0u8])));
    assert_eq!(jb.insert(1, 10, vec![1u8]), JitterInsert::Accepted);
    assert_eq!(jb.poll(10), Some((1, vec![1u8])));

    // Frame 2 never arrives; frame 3 does.
    assert_eq!(jb.insert(3, 1000, vec![3u8]), JitterInsert::Accepted);
    // The gap at the cursor blocks release until the hold time elapses.
    assert_eq!(jb.poll(1000), None);
    assert_eq!(jb.poll(1099), None);
    assert_eq!(jb.poll(1100), Some((3, vec![3u8])));
    assert_eq!(jb.skipped(), 1);

    // The next number in sequence releases normally afterwards.
    assert_eq!(jb.insert(4, 1101, vec![4u8]), JitterInsert::Accepted);
    assert_eq!(jb.poll(1101), Some((4, vec![4u8])));
}

#[test]
fn depth_trigger_needs_expected_frame_at_head() {
    let mut jb = JitterBuffer::new(2, 100);
    assert_eq!(jb.insert(0, 0, vec![0u8]), JitterInsert::Accepted);
    assert_eq!(jb.insert(1, 0, vec![1u8]), JitterInsert::Accepted);
    assert_eq!(jb.poll(0), Some((0, vec![0u8])));
    assert_eq!(jb.insert(3, 0, vec![3u8]), JitterInsert::Accepted);
    assert_eq!(jb.poll(0), Some((1, vec![1u8])));
    // Only 3 buffered, cursor expects 2: depth alone may not skip the gap.
    assert_eq!(jb.insert(4, 0, vec![4u8]), JitterInsert::Accepted);
    assert_eq!(jb.poll(0), None);
    // After the hold time the gap is skipped and order resumes.
    assert_eq!(jb.poll(100), Some((3, vec![3u8])));
    assert_eq!(jb.poll(100), Some((4, vec![4u8])));
    assert_eq!(jb.skipped(), 1);
}

#[test]
fn empty_buffer_releases_nothing() {
    let mut jb = JitterBuffer::new(1, 0);
    assert_eq!(jb.poll(0), None);
    assert_eq!(jb.len(), 0);
    assert_eq!(jb.dropped(), 0);
    assert_eq!(jb.skipped(), 0);
}
