use spritec::image_buffer::ImageBuffer;

#[test]
fn new_buffer_holds_one_rgba_value_per_device_pixel() {
    let buf = ImageBuffer::new(64, 32, 2);
    assert_eq!(buf.width(), 64);
    assert_eq!(buf.height(), 32);
    assert_eq!(buf.scale(), 2);
    assert_eq!(buf.len(), 4 * 64 * 2 * 32 * 2);
}

#[test]
fn setters_resize_the_buffer() {
    let mut buf = ImageBuffer::new(8, 8, 1);
    assert_eq!(buf.len(), 4 * 8 * 8);

    buf.set_scale(3);
    assert_eq!(buf.scale(), 3);
    assert_eq!(buf.len(), 4 * 8 * 3 * 8 * 3);

    buf.set_width(2);
    assert_eq!(buf.width(), 2);
    assert_eq!(buf.len(), 4 * 2 * 3 * 8 * 3);

    buf.set_height(4);
    assert_eq!(buf.height(), 4);
    assert_eq!(buf.len(), 4 * 2 * 3 * 4 * 3);
}
