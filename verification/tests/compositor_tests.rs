use asciiengine::buffer::TextBufferScreen;
use asciiengine::character_map::{CharacterMap, PixelRect};
use asciiengine::characters::CharacterColor;
use asciiengine::compositor::DrawCommand;
use asciiengine::structs::{TextBufferPos, TextBufferRect};

fn atlas() -> CharacterMap {
    // A 9 by 16 pixel glyph sheet, 32 glyphs per row, starting at (8, 8).
    CharacterMap::new((9, 16), (8, 8), 32)
}

fn copies(cmds: &[DrawCommand]) -> Vec<(PixelRect, PixelRect)> {
    let mut out = Vec::new();
    for c in cmds {
        if let DrawCommand::Copy { src, dest } = c {
            out.push((*src, *dest));
        }
    }
    out
}

#[test]
fn atlas_addressing_law() {
    let map = atlas();
    assert_eq!(map.character_size(), (9, 16));
    // Glyph 'H' is 0x48 = 72: column 72 % 32 = 8, row (72 / 32) % 8 = 2.
    let r = map.get_rect(b'H');
    assert_eq!(r, PixelRect { x: 8 + 9 * 8, y: 8 + 16 * 2, width: 9, height: 16 });
    // Glyph 0 sits at the start position.
    assert_eq!(map.get_rect(0), PixelRect { x: 8, y: 8, width: 9, height: 16 });
}

#[test]
fn destination_rect_scales_with_truncation() {
    let map = atlas();
    assert_eq!(
        map.get_dest_rect(3, 2, 100),
        PixelRect { x: 27, y: 32, width: 9, height: 16 }
    );
    // A 50 percent scale truncates: 9 * 50 / 100 = 4, 16 * 50 / 100 = 8.
    assert_eq!(
        map.get_dest_rect(1, 1, 50),
        PixelRect { x: 4, y: 8, width: 4, height: 8 }
    );
}

#[test]
fn write_then_take_dirty_is_one_exact_rect() {
    let mut buffer = TextBufferScreen::new(10, 5);
    buffer.take_dirty();
    buffer.get_and_clear_optimization_flag();
    buffer
        .write_string(TextBufferPos::new(0, 0), "HI", CharacterColor::White)
        .unwrap();
    assert_eq!(buffer.take_dirty(), vec![TextBufferRect::new(0, 0, 2, 1)]);
}

#[test]
fn compositing_two_cells_issues_two_draw_calls() {
    let mut buffer = TextBufferScreen::new(10, 5);
    buffer.take_dirty();
    buffer.get_and_clear_optimization_flag();
    buffer
        .write_string(TextBufferPos::new(0, 0), "HI", CharacterColor::White)
        .unwrap();
    let map = atlas();
    let cmds = buffer.render_commands(&map, 100);
    let blits = copies(&cmds);
    assert_eq!(blits.len(), 2);
    assert_eq!(blits[0].0, map.get_rect(b'H'));
    assert_eq!(blits[0].1, map.get_dest_rect(0, 0, 100));
    assert_eq!(blits[1].0, map.get_rect(b'I'));
    assert_eq!(blits[1].1, map.get_dest_rect(1, 0, 100));
    // The frame starts by installing the white tint and ends presenting,
    // with no full-surface clear on the selective path.
    assert_eq!(cmds[0], DrawCommand::SetTint { red: 255, green: 255, blue: 255 });
    assert_eq!(*cmds.last().unwrap(), DrawCommand::Present);
    assert!(!cmds.contains(&DrawCommand::Clear));
    // The dirty set was drained by the frame.
    assert!(buffer.take_dirty().is_empty());
}

#[test]
fn full_repaint_clears_surface_and_skips_blanks() {
    let mut buffer = TextBufferScreen::new(6, 3);
    // The fresh buffer has its full-repaint flag set: the first frame
    // clears the surface, and all-blank content issues no copy at all.
    let map = atlas();
    let cmds = buffer.render_commands(&map, 100);
    assert_eq!(cmds[1], DrawCommand::Clear);
    assert_eq!(copies(&cmds).len(), 0);

    // With two glyphs written and the flag forced by a large clear, the
    // repaint copies exactly the non-blank cells.
    buffer
        .write_string(TextBufferPos::new(1, 1), "AB", CharacterColor::White)
        .unwrap();
    buffer.clear_rect(TextBufferRect::new(3, 0, 3, 3));
    let cmds = buffer.render_commands(&map, 100);
    assert_eq!(cmds[1], DrawCommand::Clear);
    assert_eq!(copies(&cmds).len(), 2);
}

#[test]
fn tint_changes_are_batched() {
    let mut buffer = TextBufferScreen::new(8, 1);
    buffer.take_dirty();
    buffer.get_and_clear_optimization_flag();
    buffer
        .write_string(TextBufferPos::new(0, 0), "aa", CharacterColor::Red)
        .unwrap();
    buffer
        .write_string(TextBufferPos::new(2, 0), "bb", CharacterColor::Red)
        .unwrap();
    buffer
        .write_string(TextBufferPos::new(4, 0), "c", CharacterColor::Blue)
        .unwrap();
    let map = atlas();
    let cmds = buffer.render_commands(&map, 100);
    let tints: Vec<&DrawCommand> = cmds
        .iter()
        .filter(|c| matches!(c, DrawCommand::SetTint { .. }))
        .collect();
    // One initial white tint, one switch to red for the four red cells,
    // one switch to blue: consecutive same-colored cells share a tint.
    assert_eq!(tints.len(), 3);
    assert_eq!(copies(&cmds).len(), 5);
}
