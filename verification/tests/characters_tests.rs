use asciiengine::characters::{blank_cell, CharacterColor, VGAChar};

#[test]
fn printable_ascii_maps_to_itself() {
    assert_eq!(VGAChar::from_char('A'), Ok(VGAChar(b'A')));
    assert_eq!(VGAChar::from_char(' '), Ok(VGAChar(0x20)));
    assert_eq!(VGAChar::from_char('~'), Ok(VGAChar(0x7e)));
}

#[test]
fn box_drawing_characters_map_to_their_atlas_slots() {
    assert_eq!(VGAChar::from_char('─'), Ok(VGAChar(0xc4)));
    assert_eq!(VGAChar::from_char('│'), Ok(VGAChar(0xb3)));
    assert_eq!(VGAChar::from_char('┌'), Ok(VGAChar(0xda)));
    assert_eq!(VGAChar::from_char('┐'), Ok(VGAChar(0xbf)));
    assert_eq!(VGAChar::from_char('└'), Ok(VGAChar(0xc0)));
    assert_eq!(VGAChar::from_char('┘'), Ok(VGAChar(0xd9)));
    assert_eq!(VGAChar::from_char('├'), Ok(VGAChar(0xc3)));
    assert_eq!(VGAChar::from_char('┤'), Ok(VGAChar(0xb4)));
}

#[test]
fn unrepresentable_characters_come_back_as_the_error() {
    assert_eq!(VGAChar::from_char('\n'), Err('\n'));
    assert_eq!(VGAChar::from_char('é'), Err('é'));
    assert_eq!(VGAChar::from_char('\u{1F600}'), Err('\u{1F600}'));
}

#[test]
fn blank_cell_is_a_gray_space() {
    assert_eq!(blank_cell(), (VGAChar(0x20), CharacterColor::Gray));
    assert_eq!(VGAChar::blank(), VGAChar(0x20));
}

#[test]
fn palette_colors_render_to_fixed_rgb() {
    assert_eq!(CharacterColor::BrightWhite.rgb(), (255, 255, 255));
    assert_eq!(CharacterColor::Gray.rgb(), (170, 170, 170));
    assert_eq!(CharacterColor::White.rgb(), (220, 220, 220));
    assert_eq!(CharacterColor::Black.rgb(), (0, 0, 0));
    assert_eq!(CharacterColor::Red.rgb(), (170, 0, 0));
}
