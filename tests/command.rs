use hx1230::command::{
    display_off, display_on, display_test_off, display_test_on, horizontal_flip_off,
    horizontal_flip_on, init_sequence, invert_off, invert_on, power_off, power_on, reset,
    set_column_high, set_column_low, set_contrast, set_line, set_page, set_position,
    vertical_flip_off, vertical_flip_on,
};

#[test]
fn test_set_position() {
    let commands = set_position(13, 7);
    assert_eq!(commands, [0b00001101, 0b00010000, 0b10110111]);
}

#[test]
fn set_position_whole_range() {
    for column in 0u8..=95 {
        for page in 0u8..=15 {
            assert_eq!(
                set_position(column, page),
                [column & 0x0F, 0x10 | ((column >> 4) & 0x07), 0xB0 | (page & 0x0F)]
            );
        }
    }
    assert_eq!(set_position(95, 8), [0x0F, 0x15, 0xB8]);
}

#[test]
fn fixed_opcodes() {
    assert_eq!(reset(), 0xE2);
    assert_eq!(power_on(), 0x2F);
    assert_eq!(power_off(), 0x28);
    assert_eq!(horizontal_flip_on(), 0xA1);
    assert_eq!(horizontal_flip_off(), 0xA0);
    assert_eq!(vertical_flip_on(), 0xC8);
    assert_eq!(vertical_flip_off(), 0xC0);
    assert_eq!(display_test_on(), 0xA5);
    assert_eq!(display_test_off(), 0xA4);
    assert_eq!(invert_on(), 0xA7);
    assert_eq!(invert_off(), 0xA6);
    assert_eq!(display_on(), 0xAF);
    assert_eq!(display_off(), 0xAE);
}

#[test]
fn parameterized_opcodes() {
    assert_eq!(set_contrast(30), 0x9E);
    assert_eq!(set_line(63), 0x7F);
    assert_eq!(set_page(8), 0xB8);
    assert_eq!(set_column_low(0x5D), 0x0D);
    assert_eq!(set_column_high(0x5D), 0x15);
}

#[test]
fn out_of_range_arguments_are_masked() {
    assert_eq!(set_contrast(40), set_contrast(40 & 0x1F));
    assert_eq!(set_contrast(40), set_contrast(8));
    assert_eq!(set_contrast(40), 0x88);
    assert_eq!(set_line(100), set_line(100 & 0x3F));
    assert_eq!(set_page(0x1F), set_page(0x0F));
    assert_eq!(set_column_low(0xFF), 0x0F);
    assert_eq!(set_column_high(0xFF), 0x17);
    for v in 0u8..=255 {
        assert_eq!(set_contrast(v), set_contrast(v & 0x1F));
        assert_eq!(set_line(v), set_line(v & 0x3F));
        assert_eq!(set_page(v), set_page(v & 0x0F));
        assert_eq!(set_column_low(v), set_column_low(v & 0x0F));
        assert_eq!(set_column_high(v), set_column_high(v & 0x7F));
    }
}

#[test]
fn initialization_sequence() {
    assert_eq!(
        init_sequence(),
        [0x2F, 0x9E, 0xA4, 0xA0, 0xC0, 0xA6, 0xAF, 0x00, 0x10, 0xB0]
    );
}
