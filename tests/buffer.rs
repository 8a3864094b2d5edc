use hx1230::buffer::{H, W};
use hx1230::{ArrayDisplayBuffer, DisplayBuffer};

#[test]
fn get_existing_line() {
    let buffer = ArrayDisplayBuffer::new();
    let line = buffer.get_line(8);
    assert!(&line.is_some());
    assert_eq!(line.unwrap().len(), 96);
}

#[test]
fn get_line_out_of_range() {
    let buffer = ArrayDisplayBuffer::new();
    assert!(&buffer.get_line(9).is_none());
}

#[test]
fn dimensions_of_new_buffer() {
    let buffer = ArrayDisplayBuffer::new();
    assert_eq!(buffer.width(), 96);
    assert_eq!(buffer.line_count(), 9);
    assert_eq!(buffer.pixel_size(), (96, 72));
    for y in 0..H {
        assert_eq!(buffer.get_line(y).unwrap(), &[0u8; W][..]);
    }
}

#[test]
fn get_line_mut_out_of_range() {
    let mut buffer = ArrayDisplayBuffer::new();
    assert!(buffer.get_line_mut(9).is_none());
    assert!(buffer.get_line_mut(100).is_none());
    assert_eq!(buffer.get_line_mut(0).unwrap().len(), W);
}

#[test]
fn write_through_get_line_mut() {
    let mut buffer = ArrayDisplayBuffer::new();
    buffer.get_line_mut(3).unwrap()[5] = 0x5A;
    assert_eq!(buffer.get_line(3).unwrap()[5], 0x5A);
    assert_eq!(buffer.get_line(3).unwrap()[4], 0);
    assert_eq!(buffer.get_line(2).unwrap()[5], 0);
}

#[test]
fn clear_buffer_fills_every_line() {
    let mut buffer = ArrayDisplayBuffer::new();
    buffer.clear_buffer(0xA5);
    for y in 0..buffer.line_count() {
        let line = buffer.get_line(y).unwrap();
        assert_eq!(line.len(), W);
        assert!(line.iter().all(|b| *b == 0xA5));
    }
}

#[test]
fn clear_line_after_clear_buffer() {
    let mut buffer = ArrayDisplayBuffer::new();
    buffer.clear_buffer(0xFF);
    buffer.clear_line(0, 0x11);
    assert!(buffer.get_line(0).unwrap().iter().all(|b| *b == 0x11));
    for y in 1..H {
        assert!(buffer.get_line(y).unwrap().iter().all(|b| *b == 0xFF));
    }
}

#[test]
fn clear_line_out_of_range_changes_nothing() {
    let mut buffer = ArrayDisplayBuffer::new();
    buffer.clear_line(9, 0xFF);
    for y in 0..H {
        assert!(buffer.get_line(y).unwrap().iter().all(|b| *b == 0));
    }
}

#[test]
fn set_pixel_sets_one_bit() {
    let mut buffer = ArrayDisplayBuffer::new();
    buffer.set_pixel(10, 19, true);
    assert_eq!(buffer.get_line(2).unwrap()[10], 0b0000_1000);
    buffer.set_pixel(10, 16, true);
    assert_eq!(buffer.get_line(2).unwrap()[10], 0b0000_1001);
    buffer.set_pixel(10, 19, false);
    assert_eq!(buffer.get_line(2).unwrap()[10], 0b0000_0001);
    assert_eq!(buffer.get_line(2).unwrap()[9], 0);
    assert_eq!(buffer.get_line(2).unwrap()[11], 0);
}

#[test]
fn clear_pixel_keeps_other_bits() {
    let mut buffer = ArrayDisplayBuffer::new();
    buffer.clear_buffer(0xFF);
    buffer.set_pixel(95, 71, false);
    assert_eq!(buffer.get_line(8).unwrap()[95], 0x7F);
    assert_eq!(buffer.get_line(8).unwrap()[94], 0xFF);
    assert_eq!(buffer.get_line(7).unwrap()[95], 0xFF);
}

#[test]
fn set_pixel_outside_canvas_is_ignored() {
    let mut buffer = ArrayDisplayBuffer::new();
    buffer.set_pixel(-1, 0, true);
    buffer.set_pixel(0, -1, true);
    buffer.set_pixel(96, 0, true);
    buffer.set_pixel(0, 72, true);
    buffer.set_pixel(i32::MAX, i32::MAX, true);
    buffer.set_pixel(i32::MIN, i32::MIN, true);
    for y in 0..H {
        assert!(buffer.get_line(y).unwrap().iter().all(|b| *b == 0));
    }
}
