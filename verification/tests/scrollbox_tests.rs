use asciiengine::buffer::{TextBufferInterface, TextBufferScreen};
use asciiengine::characters::{CharacterColor, VGAChar};
use asciiengine::draw_interface::UIElement;
use asciiengine::scrollbox::ScrollBox;
use asciiengine::structs::{TextBufferPos, TextBufferRect};

fn rect(x: isize, y: isize, width: usize, height: usize) -> TextBufferRect {
    TextBufferRect::new(x, y, width, height)
}

fn pos(x: isize, y: isize) -> TextBufferPos {
    TextBufferPos::new(x, y)
}

#[test]
fn bounded_scroll_clamps_to_content() {
    let mut sb = ScrollBox::new(rect(0, 0, 4, 4), (10, 10));
    sb.set_bounded(true);
    sb.scroll_horizontal(100);
    assert_eq!(sb.scroll_offset().0, 6);
    sb.scroll_horizontal(-100);
    assert_eq!(sb.scroll_offset().0, 0);
    sb.scroll_vertical(100);
    assert_eq!(sb.scroll_offset().1, 6);
    sb.scroll_vertical(-100);
    assert_eq!(sb.scroll_offset().1, 0);
}

#[test]
fn bounded_scroll_with_small_content_stays_at_zero() {
    // Content smaller than the viewport: the clamp range collapses and
    // the offset always settles at zero.
    let mut sb = ScrollBox::new(rect(0, 0, 4, 4), (2, 2));
    sb.set_bounded(true);
    sb.scroll_horizontal(5);
    assert_eq!(sb.scroll_offset().0, 0);
    sb.scroll_vertical(-3);
    assert_eq!(sb.scroll_offset().1, 0);
}

#[test]
fn unbounded_scroll_is_unconstrained() {
    let mut sb = ScrollBox::new(rect(0, 0, 4, 4), (10, 10));
    sb.scroll_horizontal(50);
    sb.scroll_vertical(-7);
    assert_eq!(sb.scroll_offset(), (50, -7));
}

#[test]
fn scrolling_marks_the_content_dirty() {
    let mut sb = ScrollBox::new(rect(0, 0, 4, 4), (10, 10));
    let mut screen = TextBufferScreen::new(8, 8);
    assert!(UIElement::take_dirty(&mut sb));
    sb.ui_draw(&mut screen);
    assert!(!UIElement::take_dirty(&mut sb));
    sb.scroll_horizontal(1);
    assert!(UIElement::take_dirty(&mut sb));
    // Scrolling by zero changes nothing and leaves the widget clean.
    sb.ui_draw(&mut screen);
    sb.scroll_horizontal(0);
    assert!(!UIElement::take_dirty(&mut sb));
}

#[test]
fn draw_shows_the_scrolled_slice() {
    let mut sb = ScrollBox::new(rect(1, 1, 3, 2), (6, 4));
    // Fill the content grid's rows with distinct runs.
    sb.write_string(pos(0, 0), "abcdef", CharacterColor::White).unwrap();
    sb.write_string(pos(0, 1), "ghijkl", CharacterColor::White).unwrap();
    sb.write_string(pos(0, 2), "mnopqr", CharacterColor::White).unwrap();
    sb.set_bounded(true);
    sb.scroll_horizontal(2);
    sb.scroll_vertical(1);
    let mut screen = TextBufferScreen::new(8, 8);
    screen.take_dirty();
    screen.get_and_clear_optimization_flag();
    sb.ui_draw(&mut screen);
    // The viewport at (1, 1) shows content columns 2.. of rows 1..: the
    // visible slice starts at 'i'.
    assert_eq!(screen.char_ref(pos(1, 1)).unwrap().0, VGAChar(b'i'));
    assert_eq!(screen.char_ref(pos(2, 1)).unwrap().0, VGAChar(b'j'));
    assert_eq!(screen.char_ref(pos(3, 1)).unwrap().0, VGAChar(b'k'));
    assert_eq!(screen.char_ref(pos(1, 2)).unwrap().0, VGAChar(b'o'));
    // Outside the viewport the screen stays blank.
    assert_eq!(screen.char_ref(pos(0, 1)).unwrap().0, VGAChar(0x20));
    assert_eq!(screen.char_ref(pos(4, 1)).unwrap().0, VGAChar(0x20));
}

#[test]
fn viewport_clips_at_the_screen_edge() {
    // A viewport hanging off the left edge: the off-screen columns are
    // silently dropped, the visible ones land.
    let mut sb = ScrollBox::new(rect(-2, 0, 4, 1), (4, 1));
    sb.write_string(pos(0, 0), "wxyz", CharacterColor::White).unwrap();
    let mut screen = TextBufferScreen::new(4, 4);
    screen.take_dirty();
    screen.get_and_clear_optimization_flag();
    sb.ui_draw(&mut screen);
    assert_eq!(screen.char_ref(pos(0, 0)).unwrap().0, VGAChar(b'y'));
    assert_eq!(screen.char_ref(pos(1, 0)).unwrap().0, VGAChar(b'z'));
    assert_eq!(screen.char_ref(pos(2, 0)).unwrap().0, VGAChar(0x20));
}

#[test]
fn negative_offset_letterboxes_the_destination() {
    let mut sb = ScrollBox::new(rect(0, 0, 4, 1), (4, 1));
    sb.write_string(pos(0, 0), "wxyz", CharacterColor::White).unwrap();
    sb.scroll_horizontal(-2);
    let mut screen = TextBufferScreen::new(8, 4);
    screen.take_dirty();
    screen.get_and_clear_optimization_flag();
    sb.ui_draw(&mut screen);
    // A negative offset shifts the destination, leaving a blank margin.
    assert_eq!(screen.char_ref(pos(0, 0)).unwrap().0, VGAChar(0x20));
    assert_eq!(screen.char_ref(pos(1, 0)).unwrap().0, VGAChar(0x20));
    assert_eq!(screen.char_ref(pos(2, 0)).unwrap().0, VGAChar(b'w'));
    assert_eq!(screen.char_ref(pos(3, 0)).unwrap().0, VGAChar(b'x'));
}
