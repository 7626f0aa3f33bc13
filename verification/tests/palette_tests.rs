use game_rooms::palette::{palette_color, ColorPicker, PALETTE_LEN};

#[test]
fn color_round_robin_from_fixed_cursor() {
    // Cursor fixed at index 3: five consecutive allocations return
    // palette indices 3, 4, 5, 6, 7 in order.
    let mut picker = ColorPicker::with_cursor(3);
    let got = [
        picker.next_color(),
        picker.next_color(),
        picker.next_color(),
        picker.next_color(),
        picker.next_color(),
    ];
    for (k, c) in got.iter().enumerate() {
        assert_eq!(*c, palette_color(3 + k));
    }
    assert_eq!(got[0], "#c44e52");
    assert_eq!(got[4], "#8c8c8c");
}

#[test]
fn cursor_wraps_around_palette() {
    let mut picker = ColorPicker::with_cursor(PALETTE_LEN - 1);
    assert_eq!(picker.next_color(), "#64b5cd");
    assert_eq!(picker.next_color(), "#4c72b0");
}

#[test]
fn first_color_is_from_palette() {
    let mut picker = ColorPicker::new();
    let c = picker.next_color();
    let mut found = false;
    for i in 0..PALETTE_LEN {
        if c == palette_color(i) {
            found = true;
        }
    }
    assert!(found);
}

#[test]
fn palette_colors_are_distinct_hex() {
    for i in 0..PALETTE_LEN {
        let c = palette_color(i);
        assert_eq!(c.len(), 7);
        assert!(c.starts_with('#'));
        for j in 0..i {
            assert_ne!(c, palette_color(j));
        }
    }
}
