use ray_tracing::buffer::{pixel_tasks, PixelBuffer, Rgb8};

#[test]
fn new_buffer_is_black() {
    let buf = PixelBuffer::new(2, 3);
    assert_eq!(buf.width(), 2);
    assert_eq!(buf.height(), 3);
    let raw = buf.into_raw();
    assert_eq!(raw.len(), 2 * 3 * 3);
    assert!(raw.iter().all(|&b| b == 0));
}

#[test]
fn set_pixel_lands_row_major() {
    let mut buf = PixelBuffer::new(4, 2);
    buf.set_pixel(1, 0, Rgb8 { r: 10, g: 20, b: 30 });
    buf.set_pixel(3, 1, Rgb8 { r: 40, g: 50, b: 60 });
    let raw = buf.into_raw();
    // pixel (1, 0) starts at byte 3 * (0 * 4 + 1)
    assert_eq!(&raw[3..6], &[10, 20, 30]);
    // pixel (3, 1) starts at byte 3 * (1 * 4 + 3)
    assert_eq!(&raw[21..24], &[40, 50, 60]);
    // every other byte is untouched
    let touched = [3, 4, 5, 21, 22, 23];
    for (i, &b) in raw.iter().enumerate() {
        if !touched.contains(&i) {
            assert_eq!(b, 0);
        }
    }
}

#[test]
fn set_pixel_overwrites() {
    let mut buf = PixelBuffer::new(1, 1);
    buf.set_pixel(0, 0, Rgb8 { r: 1, g: 2, b: 3 });
    buf.set_pixel(0, 0, Rgb8 { r: 9, g: 8, b: 7 });
    assert_eq!(buf.into_raw(), vec![9, 8, 7]);
}

#[test]
fn tasks_cover_frame_in_dispatch_order() {
    let tasks = pixel_tasks(3, 2);
    assert_eq!(
        tasks,
        vec![(0, 0), (1, 0), (2, 0), (0, 1), (1, 1), (2, 1)]
    );
}

#[test]
fn tasks_of_empty_frame() {
    assert!(pixel_tasks(0, 5).is_empty());
    assert!(pixel_tasks(5, 0).is_empty());
}
