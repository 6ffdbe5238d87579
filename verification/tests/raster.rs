use three_rs::raster::FrameBuffers;

#[test]
fn new_buffers_have_one_entry_per_pixel() {
    let b: FrameBuffers<u8, i64> = FrameBuffers::new(4, 3, 7, 100);
    assert_eq!((b.width, b.height), (4, 3));
    assert_eq!(b.frame_buffer, vec![7; 12]);
    assert_eq!(b.z_buffer, vec![100; 12]);
}

#[test]
fn resize_to_the_same_size_keeps_the_pixels() {
    let mut b: FrameBuffers<u8, i64> = FrameBuffers::new(2, 2, 0, 9);
    let i = b.index(1, 1);
    b.put(i, 5, 1);
    b.resize(2, 2, 0, 9);
    assert_eq!(b.color(i), 5);
    assert_eq!(b.depth(i), 1);
}

#[test]
fn resize_to_another_size_starts_afresh() {
    let mut b: FrameBuffers<u8, i64> = FrameBuffers::new(2, 2, 0, 9);
    b.put(0, 5, 1);
    b.resize(3, 1, 2, 8);
    assert_eq!((b.width, b.height), (3, 1));
    assert_eq!(b.frame_buffer, vec![2; 3]);
    assert_eq!(b.z_buffer, vec![8; 3]);
    b.resize(0, 5, 2, 8);
    assert!(b.frame_buffer.is_empty());
}

#[test]
fn clear_sets_every_pixel() {
    let mut b: FrameBuffers<u8, i64> = FrameBuffers::new(3, 2, 0, 9);
    b.put(4, 5, 1);
    b.clear(3, 4);
    assert_eq!(b.frame_buffer, vec![3; 6]);
    assert_eq!(b.z_buffer, vec![4; 6]);
}

#[test]
fn pixel_index_only_inside() {
    let b: FrameBuffers<u8, i64> = FrameBuffers::new(4, 3, 0, 0);
    assert_eq!(b.pixel_index(0, 0), Some(0));
    assert_eq!(b.pixel_index(3, 2), Some(11));
    assert_eq!(b.pixel_index(1, 2), Some(9));
    assert_eq!(b.pixel_index(4, 0), None);
    assert_eq!(b.pixel_index(0, 3), None);
    assert_eq!(b.pixel_index(-1, 0), None);
    assert_eq!(b.pixel_index(0, -1), None);
    assert_eq!(b.pixel_index(i32::MAX, i32::MIN), None);
}

#[test]
fn index_is_row_after_row() {
    let b: FrameBuffers<u8, i64> = FrameBuffers::new(5, 4, 0, 0);
    assert_eq!(b.index(0, 0), 0);
    assert_eq!(b.index(4, 0), 4);
    assert_eq!(b.index(0, 1), 5);
    assert_eq!(b.index(2, 3), 17);
}

#[test]
fn a_read_gives_back_what_put_wrote() {
    let mut b: FrameBuffers<u8, i64> = FrameBuffers::new(3, 3, 0, 50);
    let i = b.index(2, 1);
    b.put(i, 9, -3);
    assert_eq!(b.color(i), 9);
    assert_eq!(b.depth(i), -3);
    for j in 0..9 {
        if j != i {
            assert_eq!(b.color(j), 0);
            assert_eq!(b.depth(j), 50);
        }
    }
}

#[test]
fn empty_buffers() {
    let b: FrameBuffers<u8, i64> = FrameBuffers::new(0, 7, 1, 1);
    assert!(b.frame_buffer.is_empty());
    assert_eq!(b.pixel_index(0, 0), None);
}

#[test]
fn distinct_pixels_have_distinct_entries() {
    let b: FrameBuffers<u8, i64> = FrameBuffers::new(4, 3, 0, 0);
    let mut seen = std::collections::HashSet::new();
    for y in 0..3 {
        for x in 0..4 {
            let i = b.index(x, y);
            assert!(i < 12);
            assert!(seen.insert(i));
        }
    }
}
