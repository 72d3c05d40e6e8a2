use asciiengine::buffer::TextBufferScreen;
use asciiengine::characters::{CharacterColor, VGAChar};
use asciiengine::structs::{TextAlign, TextBufferPos, TextBufferRect};

fn rect(x: isize, y: isize, width: usize, height: usize) -> TextBufferRect {
    TextBufferRect::new(x, y, width, height)
}

fn pos(x: isize, y: isize) -> TextBufferPos {
    TextBufferPos::new(x, y)
}

/// A fresh buffer with its initial full-screen dirty state drained.
fn drained(width: usize, height: usize) -> TextBufferScreen {
    let mut b = TextBufferScreen::new(width, height);
    let initial = b.take_dirty();
    assert_eq!(initial, vec![rect(0, 0, width, height)]);
    assert!(b.get_and_clear_optimization_flag());
    b
}

#[test]
fn new_buffer_is_blank_and_fully_dirty() {
    let b = TextBufferScreen::new(10, 5);
    assert_eq!(b.width(), 10);
    assert_eq!(b.height(), 5);
    assert_eq!(b.screen_rect(), rect(0, 0, 10, 5));
    let c = b.char_ref(pos(3, 2)).unwrap();
    assert_eq!(c.0, VGAChar(0x20));
    assert_eq!(c.1, CharacterColor::Gray);
    assert!(b.char_ref(pos(10, 0)).is_none());
    assert!(b.char_ref(pos(0, -1)).is_none());
}

#[test]
fn dirty_inside_tracked_is_absorbed() {
    let mut b = drained(30, 30);
    b.add_dirty_rect(rect(1, 1, 5, 5));
    b.add_dirty_rect(rect(2, 2, 2, 2));
    // A rectangle fully inside a tracked one leaves the set unchanged.
    assert_eq!(b.take_dirty(), vec![rect(1, 1, 5, 5)]);
}

#[test]
fn dirty_containing_tracked_replaces_in_place() {
    let mut b = drained(30, 30);
    b.add_dirty_rect(rect(1, 1, 5, 5));
    b.add_dirty_rect(rect(20, 20, 3, 3));
    b.add_dirty_rect(rect(0, 0, 8, 8));
    // A rectangle containing a tracked one overwrites that entry in
    // place: the count stays the same.
    assert_eq!(b.take_dirty(), vec![rect(0, 0, 8, 8), rect(20, 20, 3, 3)]);
}

#[test]
fn dirty_independent_is_appended() {
    let mut b = drained(30, 30);
    b.add_dirty_rect(rect(1, 1, 5, 5));
    b.add_dirty_rect(rect(4, 4, 5, 5));
    // Overlapping but non-containing rectangles coexist.
    assert_eq!(b.take_dirty(), vec![rect(1, 1, 5, 5), rect(4, 4, 5, 5)]);
}

#[test]
fn clear_quarter_of_screen_sets_flag() {
    let mut b = drained(10, 10);
    b.clear_rect(rect(0, 0, 5, 5));
    // 25 cells cleared out of 100: exactly a quarter, so the flag is set.
    assert!(b.get_and_clear_optimization_flag());
}

#[test]
fn clear_less_than_quarter_leaves_flag() {
    let mut b = drained(10, 10);
    b.clear_rect(rect(0, 0, 4, 4));
    assert!(!b.get_and_clear_optimization_flag());
}

#[test]
fn clear_blanks_cells_and_tracks_rect() {
    let mut b = drained(10, 5);
    b.write_string(pos(0, 0), "XYZ", CharacterColor::Red).unwrap();
    b.take_dirty();
    b.clear_rect(rect(1, 0, 2, 1));
    assert_eq!(b.char_ref(pos(0, 0)).unwrap().0, VGAChar(b'X'));
    assert_eq!(b.char_ref(pos(1, 0)).unwrap().0, VGAChar(0x20));
    assert_eq!(b.char_ref(pos(2, 0)).unwrap().0, VGAChar(0x20));
    assert_eq!(b.take_dirty(), vec![rect(1, 0, 2, 1)]);
}

#[test]
fn write_text_clips_and_tracks_requested_extent() {
    let mut b = drained(4, 2);
    let data = [VGAChar(b'A'), VGAChar(b'B'), VGAChar(b'C'), VGAChar(b'D'), VGAChar(b'E')];
    let r = b.write_text(pos(2, 0), &data, CharacterColor::White);
    assert_eq!(r, rect(2, 0, 5, 1));
    assert_eq!(b.char_ref(pos(2, 0)).unwrap().0, VGAChar(b'A'));
    assert_eq!(b.char_ref(pos(3, 0)).unwrap().0, VGAChar(b'B'));
    // Cells past the right edge were dropped, but the requested extent
    // is what got tracked.
    assert_eq!(b.take_dirty(), vec![rect(2, 0, 5, 1)]);
}

#[test]
fn write_string_skips_offscreen_unrepresentable_chars() {
    let mut b = drained(10, 2);
    // The first character lands at x = -1, off the buffer: it is dropped
    // unencoded rather than rejected, and writing continues.
    let r = b.write_string(pos(-1, 0), "\u{e9}ok", CharacterColor::White);
    assert_eq!(r, Ok(rect(-1, 0, 3, 1)));
    assert_eq!(b.char_ref(pos(0, 0)).unwrap().0, VGAChar(b'o'));
    assert_eq!(b.char_ref(pos(1, 0)).unwrap().0, VGAChar(b'k'));
    assert_eq!(b.take_dirty(), vec![rect(-1, 0, 3, 1)]);
}

#[test]
fn write_string_errors_only_on_inbounds_unrepresentable_chars() {
    let mut b = drained(10, 2);
    // Off-screen at x = -1: skipped. 'A' lands in bounds and is written.
    // The next unrepresentable character lands in bounds: it is the one
    // reported, with the prefix kept and nothing tracked dirty.
    let r = b.write_string(pos(-1, 0), "\u{e9}A\u{221a}B", CharacterColor::White);
    assert_eq!(r, Err('\u{221a}'));
    assert_eq!(b.char_ref(pos(0, 0)).unwrap().0, VGAChar(b'A'));
    assert_eq!(b.char_ref(pos(1, 0)).unwrap().0, VGAChar(0x20));
    assert!(b.take_dirty().is_empty());
}

#[test]
fn write_string_rejects_first_bad_char_without_rollback() {
    let mut b = drained(10, 2);
    let err = b.write_string(pos(0, 0), "ok\u{203D}no", CharacterColor::White);
    assert_eq!(err, Err('\u{203D}'));
    // The cells before the failure stay written, and nothing was
    // tracked dirty.
    assert_eq!(b.char_ref(pos(0, 0)).unwrap().0, VGAChar(b'o'));
    assert_eq!(b.char_ref(pos(1, 0)).unwrap().0, VGAChar(b'k'));
    assert_eq!(b.char_ref(pos(2, 0)).unwrap().0, VGAChar(0x20));
    assert!(b.take_dirty().is_empty());
}

#[test]
fn write_string_box_drawing_characters_encode() {
    let mut b = drained(10, 2);
    b.write_string(pos(0, 0), "┌─┐", CharacterColor::BrightWhite).unwrap();
    assert_eq!(b.char_ref(pos(0, 0)).unwrap().0, VGAChar(0xda));
    assert_eq!(b.char_ref(pos(1, 0)).unwrap().0, VGAChar(0xc4));
    assert_eq!(b.char_ref(pos(2, 0)).unwrap().0, VGAChar(0xbf));
}

#[test]
fn write_aligned_variants_shift_the_anchor() {
    let mut b = drained(12, 3);
    let r = b
        .write_string_align(pos(10, 1), "HELLO", CharacterColor::White, TextAlign::Right)
        .unwrap();
    assert_eq!(r, rect(5, 1, 5, 1));
    assert_eq!(b.char_ref(pos(5, 1)).unwrap().0, VGAChar(b'H'));
    assert_eq!(b.char_ref(pos(9, 1)).unwrap().0, VGAChar(b'O'));

    let data = [
        (VGAChar(b'a'), CharacterColor::Red),
        (VGAChar(b'b'), CharacterColor::Blue),
    ];
    let r2 = b.write_data_align(pos(6, 2), &data, TextAlign::Center);
    assert_eq!(r2, rect(5, 2, 2, 1));
    let c = b.char_ref(pos(5, 2)).unwrap();
    assert_eq!((c.0, c.1), (VGAChar(b'a'), CharacterColor::Red));
}

#[test]
fn mut_char_writes_one_cell_and_tracks_it() {
    let mut b = drained(6, 4);
    assert!(b.mut_char(pos(2, 3), (VGAChar(b'Q'), CharacterColor::Cyan)));
    assert!(!b.mut_char(pos(9, 9), (VGAChar(b'Q'), CharacterColor::Cyan)));
    let c = b.char_ref(pos(2, 3)).unwrap();
    assert_eq!((c.0, c.1), (VGAChar(b'Q'), CharacterColor::Cyan));
    assert_eq!(b.take_dirty(), vec![rect(2, 3, 1, 1), rect(9, 9, 1, 1)]);
}

#[test]
fn resize_keeps_top_left_content() {
    let mut b = drained(6, 4);
    b.write_string(pos(0, 0), "ABCDEF", CharacterColor::White).unwrap();
    b.write_string(pos(0, 3), "ZZZZZZ", CharacterColor::White).unwrap();
    b.resize_buffer(4, 2);
    assert_eq!(b.width(), 4);
    assert_eq!(b.height(), 2);
    assert_eq!(b.char_ref(pos(0, 0)).unwrap().0, VGAChar(b'A'));
    assert_eq!(b.char_ref(pos(3, 0)).unwrap().0, VGAChar(b'D'));
    assert_eq!(b.char_ref(pos(0, 1)).unwrap().0, VGAChar(0x20));
    // The whole new extent is the one tracked dirty rectangle.
    assert_eq!(b.take_dirty(), vec![rect(0, 0, 4, 2)]);
}
