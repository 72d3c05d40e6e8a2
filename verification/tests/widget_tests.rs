use asciiengine::buffer::{TextBufferInterface, TextBufferScreen, TextView};
use asciiengine::characters::{CharacterColor, VGAChar};
use asciiengine::draw_box::draw_box;
use asciiengine::draw_interface::{Drawable, TextFormatting, UIElement};
use asciiengine::graphical_menu::{GraphicalMenu, MenuSettings};
use asciiengine::structs::{TextAlign, TextBufferPos, TextBufferRect};

fn rect(x: isize, y: isize, width: usize, height: usize) -> TextBufferRect {
    TextBufferRect::new(x, y, width, height)
}

fn pos(x: isize, y: isize) -> TextBufferPos {
    TextBufferPos::new(x, y)
}

fn drained(width: usize, height: usize) -> TextBufferScreen {
    let mut b = TextBufferScreen::new(width, height);
    b.take_dirty();
    b.get_and_clear_optimization_flag();
    b
}

fn glyph_at(b: &TextBufferScreen, x: isize, y: isize) -> u8 {
    (b.char_ref(pos(x, y)).unwrap().0).0
}

#[test]
fn draw_box_frames_the_rectangle() {
    let mut b = drained(20, 10);
    draw_box(rect(1, 1, 10, 4), &mut b, None);
    assert_eq!(glyph_at(&b, 1, 1), 0xda);
    assert_eq!(glyph_at(&b, 10, 1), 0xbf);
    assert_eq!(glyph_at(&b, 1, 4), 0xc0);
    assert_eq!(glyph_at(&b, 10, 4), 0xd9);
    assert_eq!(glyph_at(&b, 5, 1), 0xc4);
    assert_eq!(glyph_at(&b, 5, 4), 0xc4);
    assert_eq!(glyph_at(&b, 1, 2), 0xb3);
    assert_eq!(glyph_at(&b, 10, 3), 0xb3);
    // The interior is untouched.
    assert_eq!(glyph_at(&b, 5, 2), 0x20);
}

#[test]
fn draw_box_sets_a_centered_title() {
    let mut b = drained(20, 10);
    draw_box(rect(0, 0, 10, 3), &mut b, Some(("AB", TextAlign::Center)));
    // Top edge: corner, two dashes, bracketed title, two dashes, corner.
    let top: Vec<u8> = (0..10).map(|x| glyph_at(&b, x, 0)).collect();
    assert_eq!(
        top,
        vec![0xda, 0xc4, 0xc4, 0xb4, b'A', b'B', 0xc3, 0xc4, 0xc4, 0xbf]
    );
}

#[test]
fn draw_box_truncates_a_long_title() {
    let mut b = drained(20, 10);
    draw_box(rect(0, 0, 10, 3), &mut b, Some(("ELEPHANTS", TextAlign::Left)));
    // Width 10 leaves room for 3 name characters plus the ellipsis.
    let top: Vec<u8> = (0..10).map(|x| glyph_at(&b, x, 0)).collect();
    assert_eq!(
        top,
        vec![0xda, 0xb4, b'E', b'L', b'E', b'.', b'.', b'.', 0xc3, 0xbf]
    );
}

#[test]
fn text_view_translates_and_clips() {
    let screen = drained(10, 5);
    let mut view = TextView::new(rect(2, 1, 5, 3), screen);
    assert_eq!(view.width(), 5);
    assert_eq!(view.height(), 3);
    view.write_string(pos(0, 0), "abc", CharacterColor::White).unwrap();
    // A write far past the view's extent is clipped away entirely.
    view.write_string(pos(0, 10), "zzz", CharacterColor::White).unwrap();
    let mut screen = view.release();
    assert_eq!(glyph_at(&screen, 2, 1), b'a');
    assert_eq!(glyph_at(&screen, 3, 1), b'b');
    assert_eq!(glyph_at(&screen, 4, 1), b'c');
    assert_eq!(glyph_at(&screen, 2, 4), 0x20);
    // The view forwarded its writes as dirty rectangles in parent
    // coordinates.
    let dirty = screen.take_dirty();
    assert_eq!(dirty[0], rect(2, 1, 3, 1));
}

#[test]
fn graphical_menu_draws_elements_along_the_step() {
    let mut b = drained(20, 10);
    let mut menu = GraphicalMenu::new(
        vec!["AA", "BB"],
        pos(0, 0),
        MenuSettings::new(),
    );
    assert!(menu.take_dirty());
    GraphicalMenu::draw(&mut menu, &mut b);
    // A vertical list: one element per row, all unselected (gray).
    assert_eq!(glyph_at(&b, 0, 0), b'A');
    assert_eq!(glyph_at(&b, 1, 0), b'A');
    assert_eq!(glyph_at(&b, 0, 1), b'B');
    assert_eq!(b.char_ref(pos(0, 0)).unwrap().1, CharacterColor::Gray);
}

#[test]
fn graphical_menu_selection_changes_color_and_wraps() {
    let mut b = drained(20, 10);
    let mut menu = GraphicalMenu::new(
        vec!["AA", "BB"],
        pos(0, 0),
        MenuSettings::new().wrapping(),
    );
    menu.prev();
    assert_eq!(menu.menu().selected_index(), Some(0));
    menu.prev();
    assert_eq!(menu.menu().selected_index(), Some(1));
    GraphicalMenu::draw(&mut menu, &mut b);
    assert_eq!(b.char_ref(pos(0, 0)).unwrap().1, CharacterColor::Gray);
    assert_eq!(b.char_ref(pos(0, 1)).unwrap().1, CharacterColor::BrightWhite);
}

#[test]
fn spinner_layout_shows_only_the_selection_in_place() {
    let mut b = drained(20, 10);
    let mut menu = GraphicalMenu::new(
        vec!["ONE", "TWO"],
        pos(4, 2),
        MenuSettings::new().horizontal(0).fix_selection().hide_others().wrapping(),
    );
    menu.next();
    menu.next();
    GraphicalMenu::draw(&mut menu, &mut b);
    // Only the selected element is painted, held at the anchor.
    assert_eq!(glyph_at(&b, 4, 2), b'T');
    assert_eq!(glyph_at(&b, 5, 2), b'W');
    assert_eq!(glyph_at(&b, 6, 2), b'O');
    assert_eq!(glyph_at(&b, 4, 3), 0x20);
}

#[test]
fn clear_last_blanks_the_previous_extent() {
    let b = drained(20, 10);
    let mut view = TextView::new(rect(0, 0, 20, 10), b);
    let mut menu = GraphicalMenu::new(vec!["AA"], pos(3, 3), MenuSettings::new());
    GraphicalMenu::draw(&mut menu, &mut view);
    let b = view.release();
    assert_eq!(glyph_at(&b, 3, 3), b'A');
    let mut view = TextView::new(rect(0, 0, 20, 10), b);
    menu.clear_last(&mut view);
    let b = view.release();
    assert_eq!(glyph_at(&b, 3, 3), 0x20);
}

#[test]
fn draw_box_clips_at_the_screen_edge() {
    // A box partially off the top-left corner: only its on-screen cells
    // land, silently clipped by the write paths.
    let mut b = drained(10, 6);
    draw_box(rect(-3, -1, 10, 5), &mut b, None);
    // The visible part of the bottom edge and right side.
    assert_eq!(glyph_at(&b, 0, 3), 0xc4);
    assert_eq!(glyph_at(&b, 6, 3), 0xd9);
    assert_eq!(glyph_at(&b, 6, 0), 0xb3);
    assert_eq!(glyph_at(&b, 6, 2), 0xb3);
    // Untouched cells stay blank.
    assert_eq!(glyph_at(&b, 0, 0), 0x20);
    assert_eq!(glyph_at(&b, 9, 5), 0x20);
}

#[test]
fn menu_clips_at_a_negative_anchor() {
    let mut b = drained(20, 10);
    let mut menu = GraphicalMenu::new(vec!["AB"], pos(-1, 0), MenuSettings::new());
    GraphicalMenu::draw(&mut menu, &mut b);
    // 'A' falls off the left edge; 'B' lands at the origin.
    assert_eq!(glyph_at(&b, 0, 0), b'B');
}

#[test]
fn menu_renders_as_a_spinner_between_brackets() {
    // A menu is itself drawable: it paints its selected (or reselect)
    // element between an angle-bracket pair.
    let mut b = drained(20, 5);
    let menu: GraphicalMenu<&str> = GraphicalMenu::new(
        vec!["ONE", "TWO"],
        pos(0, 0),
        MenuSettings::new(),
    );
    let fmt = TextFormatting::new(CharacterColor::White, TextAlign::Left);
    let r = Drawable::draw(&menu, &mut b, pos(2, 1), &fmt);
    assert_eq!(r, rect(2, 1, 7, 1));
    let row: Vec<u8> = (2..9).map(|x| glyph_at(&b, x, 1)).collect();
    assert_eq!(row, vec![b'<', b' ', b'O', b'N', b'E', b' ', b'>']);
}

#[test]
fn text_view_clips_forwarded_dirty_rects_to_its_extent() {
    // A locally registered rectangle overhanging the view's left edge is
    // translated by the window origin and clipped to the window's
    // extent: the forwarded rectangle never exceeds the view.
    let mut screen = drained(20, 10);
    screen.take_dirty();
    let mut view = TextView::new(rect(5, 5, 4, 3), screen);
    view.add_dirty_rect(rect(-2, 0, 6, 1));
    let mut screen = view.release();
    assert_eq!(screen.take_dirty(), vec![rect(5, 5, 4, 1)]);
}

#[test]
fn text_view_index_is_the_parents_storage_index() {
    let screen = drained(10, 5);
    let view = TextView::new(rect(2, 1, 5, 3), screen);
    // The view's index of a local position is the parent's row-major
    // index of the translated position.
    assert_eq!(view.index_of(pos(0, 0)), Some(2 + 1 * 10));
    assert_eq!(view.index_of(pos(4, 2)), Some(6 + 3 * 10));
    assert_eq!(view.index_of(pos(5, 0)), None);
}

#[test]
fn widgets_compose_through_a_leased_view() {
    // A menu drawn into a sub-view lands at the view's offset in the
    // parent buffer, and the parent tracks the dirtied region.
    let screen = drained(20, 10);
    let mut view = TextView::new(rect(5, 5, 10, 4), screen);
    let mut menu = GraphicalMenu::new(vec!["ZZ"], pos(1, 1), MenuSettings::new());
    menu.ui_draw(&mut view);
    let mut screen = view.release();
    assert_eq!(glyph_at(&screen, 6, 6), b'Z');
    assert_eq!(glyph_at(&screen, 7, 6), b'Z');
    assert!(!screen.take_dirty().is_empty());
}
