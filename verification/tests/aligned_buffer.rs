use soundtouch::aligned_buffer::{AlignedSampleVec, ALIGN_BYTES, PAGE_BYTES};

#[test]
fn test_push_and_access() {
    let mut buf = AlignedSampleVec::<f32>::new(10);
    buf.push(1.0);
    buf.push(2.0);
    buf.push(3.0);

    assert_eq!(buf.len(), 3);
    assert_eq!(buf.as_slice(), &[1.0, 2.0, 3.0]);
}

#[test]
fn test_resize() {
    let mut buf = AlignedSampleVec::<f32>::new(10);
    buf.resize(5, 1.5);

    assert_eq!(buf.len(), 5);
    assert_eq!(buf.as_slice(), &[1.5, 1.5, 1.5, 1.5, 1.5]);
}

#[test]
fn test_copy_from_slice() {
    let mut buf = AlignedSampleVec::<f32>::new(10);
    let data = vec![1.0, 2.0, 3.0, 4.0];
    buf.copy_from_slice_at(0, &data);

    assert_eq!(buf.len(), 4);
    assert_eq!(buf.as_slice(), &[1.0, 2.0, 3.0, 4.0]);
}

#[test]
fn test_copy_within() {
    let mut buf = AlignedSampleVec::<f32>::new(10);
    buf.resize(10, 0.0);
    buf.as_mut_slice()[5..8].copy_from_slice(&[1.0, 2.0, 3.0]);

    buf.copy_within(5..8, 0);

    assert_eq!(buf.as_slice()[0..3], [1.0, 2.0, 3.0]);
}

#[test]
fn test_zero_capacity() {
    let buf = AlignedSampleVec::<f32>::new(0);
    assert_eq!(buf.capacity(), 0);
    assert_eq!(buf.len(), 0);
    assert!(buf.is_empty());
}

#[test]
fn test_push_past_capacity_grows_to_a_page() {
    let mut buf = AlignedSampleVec::<f32>::new(2);
    buf.push(1.0);
    buf.push(2.0);
    buf.push(3.0);
    // 2 + 32 samples of 4 bytes, rounded up to one 4 KiB page = 1024 samples
    assert_eq!(buf.capacity(), PAGE_BYTES / 4);
    assert_eq!(buf.as_slice(), &[1.0, 2.0, 3.0]);
}

#[test]
fn test_reserve_keeps_contents_and_rounds_to_pages() {
    let mut buf = AlignedSampleVec::<f32>::new(4);
    buf.push(7.0);
    buf.reserve(3);
    assert_eq!(buf.capacity(), 4);
    buf.reserve(1500);
    // 1501 samples of 4 bytes = 6004 bytes, rounded to 8192 bytes
    assert_eq!(buf.capacity(), 2048);
    assert_eq!(buf.as_slice(), &[7.0]);
}

#[test]
fn test_resize_shrinks_and_grows() {
    let mut buf = AlignedSampleVec::<f32>::new(8);
    buf.copy_from_slice_at(0, &[1.0, 2.0, 3.0, 4.0]);
    buf.resize(2, 9.0);
    assert_eq!(buf.as_slice(), &[1.0, 2.0]);
    buf.resize(4, 9.0);
    assert_eq!(buf.as_slice(), &[1.0, 2.0, 9.0, 9.0]);
}

#[test]
fn test_copy_from_slice_at_offset_extends_length() {
    let mut buf = AlignedSampleVec::<f32>::new(8);
    buf.copy_from_slice_at(0, &[1.0, 2.0, 3.0]);
    buf.copy_from_slice_at(2, &[5.0, 6.0]);
    assert_eq!(buf.as_slice(), &[1.0, 2.0, 5.0, 6.0]);
}

#[test]
fn test_copy_within_overlapping_forward() {
    let mut buf = AlignedSampleVec::<f32>::new(6);
    buf.copy_from_slice_at(0, &[1.0, 2.0, 3.0, 4.0, 5.0, 6.0]);
    buf.copy_within(0..4, 2);
    assert_eq!(buf.as_slice(), &[1.0, 2.0, 1.0, 2.0, 3.0, 4.0]);
}

#[test]
fn test_clear_and_set_len_keep_storage() {
    let mut buf = AlignedSampleVec::<f32>::new(4);
    buf.copy_from_slice_at(0, &[1.0, 2.0, 3.0]);
    buf.clear();
    assert!(buf.is_empty());
    buf.set_len(2);
    assert_eq!(buf.as_slice(), &[1.0, 2.0]);
}

#[test]
fn test_alignment_constant() {
    assert_eq!(ALIGN_BYTES, 16);
}
