use asciiengine::buffer::{TextBufferScreen, TextView};
use asciiengine::characters::{CharacterColor, VGAChar};
use asciiengine::draw_interface::UIElement;
use asciiengine::structs::{TextBufferPos, TextBufferRect};
use asciiengine::textbox::TextBox;

fn rect(x: isize, y: isize, width: usize, height: usize) -> TextBufferRect {
    TextBufferRect::new(x, y, width, height)
}

fn pos(x: isize, y: isize) -> TextBufferPos {
    TextBufferPos::new(x, y)
}

fn row_glyphs(tb: &TextBox, i: usize) -> Vec<u8> {
    tb.line(i).iter().map(|c| (c.0).0).collect()
}

#[test]
fn long_string_scrolls_and_bottom_row_ends_with_latest_chars() {
    let mut tb = TextBox::new(rect(0, 0, 5, 3));
    tb.place_string("HELLOWORLD");
    // Ten characters in a five-wide box force a scroll: the earlier line
    // moved up and the bottom row holds exactly the most recent
    // characters, left-aligned from the reset cursor.
    assert_eq!(row_glyphs(&tb, 1), b"HELLO".to_vec());
    assert_eq!(row_glyphs(&tb, 2), b"WORLD".to_vec());
    assert_eq!(row_glyphs(&tb, 0), vec![0x20; 5]);
}

#[test]
fn partial_last_line_is_left_aligned_with_blank_tail() {
    let mut tb = TextBox::new(rect(0, 0, 5, 2));
    tb.place_string("ABCDEFG");
    assert_eq!(row_glyphs(&tb, 0), b"ABCDE".to_vec());
    assert_eq!(row_glyphs(&tb, 1), vec![b'F', b'G', 0x20, 0x20, 0x20]);
}

#[test]
fn line_break_scrolls_without_occupying_a_cell() {
    let mut tb = TextBox::new(rect(0, 0, 4, 2));
    tb.place_string("AB\nC");
    assert_eq!(row_glyphs(&tb, 0), vec![b'A', b'B', 0x20, 0x20]);
    assert_eq!(row_glyphs(&tb, 1), vec![b'C', 0x20, 0x20, 0x20]);
}

#[test]
fn colors_apply_to_following_characters() {
    let mut tb = TextBox::new(rect(0, 0, 4, 1));
    tb.set_color(CharacterColor::Red);
    tb.place_char('r');
    tb.clear_color();
    tb.place_char('w');
    let row = tb.line(0);
    assert_eq!(row[0], (VGAChar(b'r'), CharacterColor::Red));
    assert_eq!(row[1], (VGAChar(b'w'), CharacterColor::White));
}

#[test]
fn update_rect_keeps_the_bottom_rows() {
    let mut tb = TextBox::new(rect(0, 0, 4, 3));
    tb.place_string("1111\n2222\n3333");
    assert_eq!(row_glyphs(&tb, 0), b"1111".to_vec());
    // Shrinking to two rows keeps the bottom two.
    tb.update_rect(rect(0, 0, 4, 2));
    assert_eq!(row_glyphs(&tb, 0), b"2222".to_vec());
    assert_eq!(row_glyphs(&tb, 1), b"3333".to_vec());
    // Growing re-anchors against the new bottom edge.
    tb.update_rect(rect(0, 0, 4, 3));
    assert_eq!(row_glyphs(&tb, 0), vec![0x20; 4]);
    assert_eq!(row_glyphs(&tb, 1), b"2222".to_vec());
    assert_eq!(row_glyphs(&tb, 2), b"3333".to_vec());
}

#[test]
fn update_rect_truncates_to_the_narrower_width() {
    let mut tb = TextBox::new(rect(0, 0, 6, 1));
    tb.place_string("ABCDEF");
    tb.update_rect(rect(0, 0, 3, 1));
    assert_eq!(row_glyphs(&tb, 0), b"ABC".to_vec());
}

#[test]
fn ui_draw_paints_the_grid_and_clear_last_blanks_it() {
    let mut tb = TextBox::new(rect(2, 1, 3, 2));
    tb.place_string("hi");
    let mut screen = TextBufferScreen::new(8, 6);
    screen.take_dirty();
    screen.get_and_clear_optimization_flag();
    assert!(UIElement::take_dirty(&mut tb));
    assert!(!UIElement::take_dirty(&mut tb));
    tb.ui_draw(&mut screen);
    // The grid lands inside the box's rectangle; the text sits on the
    // bottom row.
    assert_eq!(screen.char_ref(pos(2, 2)).unwrap().0, VGAChar(b'h'));
    assert_eq!(screen.char_ref(pos(3, 2)).unwrap().0, VGAChar(b'i'));
    assert_eq!(screen.char_ref(pos(2, 1)).unwrap().0, VGAChar(0x20));
    // Clearing composes through a leased view, whose clipping checks
    // the clear rectangle against the view's own extent.
    let mut view = TextView::new(rect(0, 0, 8, 6), screen);
    tb.clear_last(&mut view);
    let screen = view.release();
    assert_eq!(screen.char_ref(pos(2, 2)).unwrap().0, VGAChar(0x20));
}
