//! The compositor: drains the buffer's dirty regions and turns them into
//! the minimal sequence of draw commands for the rendering surface.
//!
//! When the full-repaint flag is set the dirty list is discarded, the
//! surface is cleared and the whole buffer is redrawn with blank cells
//! skipped; otherwise only the dirty rectangles are redrawn, blank cells
//! included. Tint changes are emitted only when the color actually
//! changes, so runs of same-colored cells share one tint command.

use vstd::prelude::*;

use crate::buffer::TextBufferScreen;
use crate::character_map::{CharacterMap, PixelRect};
use crate::characters::{spec_color_rgb, VGAChar};
use crate::structs::{TextBufferPos, TextBufferRect};

verus! {

/// One request to the rendering surface. `SetTint` batches the color
/// state; `Copy` blits one glyph image from the atlas to a surface
/// rectangle; `Clear` wipes the whole surface; `Present` flips the frame.
#[derive(Debug, Clone, Copy, PartialEq, Eq, Structural)]
pub enum DrawCommand {
    SetTint { red: u8, green: u8, blue: u8 },
    Clear,
    Copy { src: PixelRect, dest: PixelRect },
    Present,
}

/// The commands one cell contributes: nothing when the position is out of
/// bounds or a blank cell is skipped during a full repaint; otherwise a
/// copy of its glyph, preceded by a tint change when its color differs
/// from the tint in effect. Returns the commands and the tint afterwards.
pub open spec fn spec_cell_cmds(
    buf: TextBufferScreen,
    map: CharacterMap,
    scale: int,
    x: int,
    y: int,
    skip_blank: bool,
    last: (u8, u8, u8),
) -> (Seq<DrawCommand>, (u8, u8, u8)) {
    if buf.in_bounds(x, y) {
        let cell = buf.cell_spec(x, y);
        if skip_blank && cell.0 == VGAChar::spec_blank() {
            (seq![], last)
        } else {
            let rgb = spec_color_rgb(cell.1);
            let copy = DrawCommand::Copy {
                src: map.spec_atlas_rect((cell.0).0 as int),
                dest: map.spec_dest_rect(x, y, scale),
            };
            if rgb != last {
                (
                    seq![DrawCommand::SetTint { red: rgb.0, green: rgb.1, blue: rgb.2 }, copy],
                    rgb,
                )
            } else {
                (seq![copy], last)
            }
        }
    } else {
        (seq![], last)
    }
}

/// The commands of one column slice of a rectangle, rows `y` up to
/// `y_end`.
pub open spec fn spec_col_cmds(
    buf: TextBufferScreen,
    map: CharacterMap,
    scale: int,
    x: int,
    y: int,
    y_end: int,
    skip_blank: bool,
    last: (u8, u8, u8),
) -> (Seq<DrawCommand>, (u8, u8, u8))
    decreases y_end - y,
{
    if y >= y_end {
        (seq![], last)
    } else {
        let first = spec_cell_cmds(buf, map, scale, x, y, skip_blank, last);
        let rest = spec_col_cmds(buf, map, scale, x, y + 1, y_end, skip_blank, first.1);
        (first.0 + rest.0, rest.1)
    }
}

/// The commands of one rectangle, walked column by column from `x` to its
/// right edge, each column top to bottom.
pub open spec fn spec_rect_cmds(
    buf: TextBufferScreen,
    map: CharacterMap,
    scale: int,
    rect: TextBufferRect,
    x: int,
    skip_blank: bool,
    last: (u8, u8, u8),
) -> (Seq<DrawCommand>, (u8, u8, u8))
    decreases rect.right_spec() - x,
{
    if x >= rect.right_spec() {
        (seq![], last)
    } else {
        let col = spec_col_cmds(
            buf,
            map,
            scale,
            x,
            rect.y as int,
            rect.bottom_spec(),
            skip_blank,
            last,
        );
        let rest = spec_rect_cmds(buf, map, scale, rect, x + 1, skip_blank, col.1);
        (col.0 + rest.0, rest.1)
    }
}

/// The commands of the rectangles `rects[i..]`, in order.
pub open spec fn spec_rects_cmds(
    buf: TextBufferScreen,
    map: CharacterMap,
    scale: int,
    rects: Seq<TextBufferRect>,
    i: int,
    skip_blank: bool,
    last: (u8, u8, u8),
) -> (Seq<DrawCommand>, (u8, u8, u8))
    decreases rects.len() - i,
{
    if i < 0 || i >= rects.len() {
        (seq![], last)
    } else {
        let first = spec_rect_cmds(buf, map, scale, rects[i], rects[i].x as int, skip_blank, last);
        let rest = spec_rects_cmds(buf, map, scale, rects, i + 1, skip_blank, first.1);
        (first.0 + rest.0, rest.1)
    }
}

/// The whole frame's command sequence: the white tint is installed first;
/// under the full-repaint flag the surface is cleared and the whole screen
/// redrawn with blank cells skipped, otherwise the tracked dirty
/// rectangles are redrawn; the frame ends with a present.
pub open spec fn spec_render_commands(
    buf: TextBufferScreen,
    map: CharacterMap,
    scale: int,
) -> Seq<DrawCommand> {
    let white = (255u8, 255u8, 255u8);
    let head = DrawCommand::SetTint { red: 255u8, green: 255u8, blue: 255u8 };
    let screen = TextBufferRect {
        x: 0,
        y: 0,
        width: buf.width_spec() as usize,
        height: buf.height_spec() as usize,
    };
    if buf.flag_spec() {
        seq![head, DrawCommand::Clear] + spec_rects_cmds(
            buf,
            map,
            scale,
            seq![screen],
            0,
            true,
            white,
        ).0 + seq![DrawCommand::Present]
    } else {
        seq![head] + spec_rects_cmds(buf, map, scale, buf.dirty_spec(), 0, false, white).0 + seq![
            DrawCommand::Present,
        ]
    }
}

/// Every in-bounds cell's destination rectangle fits the machine ranges.
pub open spec fn spec_render_req(buf: TextBufferScreen, map: CharacterMap, scale: int) -> bool {
    forall|x: int, y: int|
        0 <= x < buf.width_spec() && 0 <= y < buf.height_spec() ==> #[trigger] map.dest_req(
            x,
            y,
            scale,
        )
}

impl TextBufferScreen {
    /// Drain the dirty set and the full-repaint flag, and compute the draw
    /// commands of this frame, exactly as [`spec_render_commands`] lays
    /// them out on the buffer's prior state.
    pub fn render_commands(&mut self, map: &CharacterMap, pixel_scale: usize) -> (r: Vec<
        DrawCommand,
    >)
        requires
            old(self).inv(),
            map.inv(),
            spec_render_req(*old(self), *map, pixel_scale as int),
        ensures
            final(self).inv(),
            r@ == spec_render_commands(*old(self), *map, pixel_scale as int),
            final(self).cells() == old(self).cells(),
            final(self).width_spec() == old(self).width_spec(),
            final(self).height_spec() == old(self).height_spec(),
            final(self).dirty_spec() == Seq::<TextBufferRect>::empty(),
            final(self).flag_spec() == false,
    {
        let ghost b0 = *old(self);
        let ghost scale = pixel_scale as int;
        let ghost white = (255u8, 255u8, 255u8);
        let mut cmds: Vec<DrawCommand> = Vec::new();
        let mut last: (u8, u8, u8) = (255, 255, 255);
        cmds.push(DrawCommand::SetTint { red: 255, green: 255, blue: 255 });
        let mut dirty_rects = self.take_dirty();
        let clear_optimization = self.get_and_clear_optimization_flag();
        if clear_optimization {
            cmds.push(DrawCommand::Clear);
            let mut fresh: Vec<TextBufferRect> = Vec::new();
            fresh.push(self.screen_rect());
            dirty_rects = fresh;
        }
        let ghost head = cmds@;
        let ghost rects = dirty_rects@;
        let ghost skip = clear_optimization;
        proof {
            if clear_optimization {
                assert(rects.len() == 1);
                assert(rects[0].wf());
            } else {
                assert(rects == b0.dirty_spec());
            }
            assert forall|i: int| 0 <= i < rects.len() implies (#[trigger] rects[i]).wf() by {
                if !clear_optimization {
                    assert(rects[i] == b0.dirty_spec()[i]);
                    assert(b0.dirty_spec()[i].wf());
                }
            }
        }
        let n = dirty_rects.len();
        let mut k: usize = 0;
        while k < n
            invariant
                b0.inv(),
                map.inv(),
                spec_render_req(b0, *map, scale),
                scale == pixel_scale as int,
                self.inv(),
                self.cells() == b0.cells(),
                self.width_spec() == b0.width_spec(),
                self.height_spec() == b0.height_spec(),
                self.dirty_spec() == Seq::<TextBufferRect>::empty(),
                self.flag_spec() == false,
                rects == dirty_rects@,
                skip == clear_optimization,
                n == rects.len(),
                0 <= k <= n,
                forall|i: int| 0 <= i < rects.len() ==> (#[trigger] rects[i]).wf(),
                cmds@ + spec_rects_cmds(b0, *map, scale, rects, k as int, skip, last).0 == head
                    + spec_rects_cmds(b0, *map, scale, rects, 0, skip, white).0,
                spec_rects_cmds(b0, *map, scale, rects, k as int, skip, last).1 == spec_rects_cmds(
                    b0,
                    *map,
                    scale,
                    rects,
                    0,
                    skip,
                    white,
                ).1,
            decreases n - k,
        {
            let dirty_rect = dirty_rects[k];
            let right = dirty_rect.right();
            let bottom = dirty_rect.bottom();
            let ghost cmds_rect = cmds@;
            let ghost last_rect = last;
            let mut x: isize = dirty_rect.x;
            while x < right
                invariant
                    b0.inv(),
                    map.inv(),
                    spec_render_req(b0, *map, scale),
                    scale == pixel_scale as int,
                    self.inv(),
                    self.cells() == b0.cells(),
                    self.width_spec() == b0.width_spec(),
                    self.height_spec() == b0.height_spec(),
                    dirty_rect.wf(),
                    skip == clear_optimization,
                    right == dirty_rect.right_spec(),
                    bottom == dirty_rect.bottom_spec(),
                    dirty_rect.x <= x <= right || x == dirty_rect.x,
                    cmds@ + spec_rect_cmds(b0, *map, scale, dirty_rect, x as int, skip, last).0
                        == cmds_rect + spec_rect_cmds(
                        b0,
                        *map,
                        scale,
                        dirty_rect,
                        dirty_rect.x as int,
                        skip,
                        last_rect,
                    ).0,
                    spec_rect_cmds(b0, *map, scale, dirty_rect, x as int, skip, last).1
                        == spec_rect_cmds(
                        b0,
                        *map,
                        scale,
                        dirty_rect,
                        dirty_rect.x as int,
                        skip,
                        last_rect,
                    ).1,
                decreases right - x,
            {
                let ghost cmds_col = cmds@;
                let ghost last_col = last;
                let mut y: isize = dirty_rect.y;
                while y < bottom
                    invariant
                        b0.inv(),
                        map.inv(),
                        spec_render_req(b0, *map, scale),
                        scale == pixel_scale as int,
                        self.inv(),
                        self.cells() == b0.cells(),
                        self.width_spec() == b0.width_spec(),
                        self.height_spec() == b0.height_spec(),
                        dirty_rect.wf(),
                        skip == clear_optimization,
                        bottom == dirty_rect.bottom_spec(),
                        dirty_rect.y <= y <= bottom || y == dirty_rect.y,
                        cmds@ + spec_col_cmds(
                            b0,
                            *map,
                            scale,
                            x as int,
                            y as int,
                            bottom as int,
                            skip,
                            last,
                        ).0 == cmds_col + spec_col_cmds(
                            b0,
                            *map,
                            scale,
                            x as int,
                            dirty_rect.y as int,
                            bottom as int,
                            skip,
                            last_col,
                        ).0,
                        spec_col_cmds(b0, *map, scale, x as int, y as int, bottom as int, skip, last).1
                            == spec_col_cmds(
                            b0,
                            *map,
                            scale,
                            x as int,
                            dirty_rect.y as int,
                            bottom as int,
                            skip,
                            last_col,
                        ).1,
                    decreases bottom - y,
                {
                    let ghost cmds_it = cmds@;
                    let ghost last_it = last;
                    match self.char_ref(TextBufferPos { x, y }) {
                        Some(cell_ref) => {
                            let (character, color) = *cell_ref;
                            if !(clear_optimization && character.0 == 0x20) {
                                let source_rect = map.get_rect(character.0);
                                let dest_rect = map.get_dest_rect(x, y, pixel_scale);
                                let (red, green, blue) = color.rgb();
                                if red != last.0 || green != last.1 || blue != last.2 {
                                    cmds.push(DrawCommand::SetTint { red, green, blue });
                                    last = (red, green, blue);
                                }
                                cmds.push(DrawCommand::Copy { src: source_rect, dest: dest_rect });
                            }
                        },
                        None => {},
                    }
                    proof {
                        let step = spec_cell_cmds(
                            b0,
                            *map,
                            scale,
                            x as int,
                            y as int,
                            skip,
                            last_it,
                        );
                        assert(cmds@ =~= cmds_it + step.0);
                        assert(last == step.1);
                        let rest = spec_col_cmds(
                            b0,
                            *map,
                            scale,
                            x as int,
                            y + 1,
                            bottom as int,
                            skip,
                            step.1,
                        );
                        assert(spec_col_cmds(
                            b0,
                            *map,
                            scale,
                            x as int,
                            y as int,
                            bottom as int,
                            skip,
                            last_it,
                        ) == (step.0 + rest.0, rest.1));
                        assert(cmds_it + step.0 + rest.0 =~= cmds_it + (step.0 + rest.0));
                    }
                    y += 1;
                }
                proof {
                    let col_full = spec_col_cmds(
                        b0,
                        *map,
                        scale,
                        x as int,
                        dirty_rect.y as int,
                        bottom as int,
                        skip,
                        last_col,
                    );
                    assert(spec_col_cmds(
                        b0,
                        *map,
                        scale,
                        x as int,
                        y as int,
                        bottom as int,
                        skip,
                        last,
                    ).0 =~= Seq::<DrawCommand>::empty());
                    assert(cmds@ + Seq::<DrawCommand>::empty() =~= cmds@);
                    assert(cmds@ =~= cmds_col + col_full.0);
                    let rest = spec_rect_cmds(b0, *map, scale, dirty_rect, x + 1, skip, col_full.1);
                    assert(spec_rect_cmds(b0, *map, scale, dirty_rect, x as int, skip, last_col)
                        == (col_full.0 + rest.0, rest.1));
                    assert(cmds_col + col_full.0 + rest.0 =~= cmds_col + (col_full.0 + rest.0));
                }
                x += 1;
            }
            proof {
                let rect_full = spec_rect_cmds(
                    b0,
                    *map,
                    scale,
                    dirty_rect,
                    dirty_rect.x as int,
                    skip,
                    last_rect,
                );
                assert(spec_rect_cmds(b0, *map, scale, dirty_rect, x as int, skip, last).0
                    =~= Seq::<DrawCommand>::empty());
                assert(cmds@ + Seq::<DrawCommand>::empty() =~= cmds@);
                assert(cmds@ =~= cmds_rect + rect_full.0);
                let rest2 = spec_rects_cmds(b0, *map, scale, rects, k + 1, skip, rect_full.1);
                assert(rects[k as int] == dirty_rect);
                assert(spec_rects_cmds(b0, *map, scale, rects, k as int, skip, last_rect) == (
                rect_full.0 + rest2.0, rest2.1));
                assert(cmds_rect + rect_full.0 + rest2.0 =~= cmds_rect + (rect_full.0 + rest2.0));
            }
            k += 1;
        }
        let ghost before_present = cmds@;
        cmds.push(DrawCommand::Present);
        proof {
            let full = spec_rects_cmds(b0, *map, scale, rects, 0, skip, white);
            assert(spec_rects_cmds(b0, *map, scale, rects, n as int, skip, last).0 =~= Seq::<
                DrawCommand,
            >::empty());
            assert(before_present + Seq::<DrawCommand>::empty() =~= before_present);
            assert(before_present =~= head + full.0);
            let tint = DrawCommand::SetTint { red: 255u8, green: 255u8, blue: 255u8 };
            if b0.flag_spec() {
                assert(head =~= seq![tint, DrawCommand::Clear]);
                assert(rects =~= seq![
                    TextBufferRect {
                        x: 0,
                        y: 0,
                        width: b0.width_spec() as usize,
                        height: b0.height_spec() as usize,
                    },
                ]);
            } else {
                assert(head =~= seq![tint]);
                assert(rects == b0.dirty_spec());
            }
            assert(cmds@ =~= head + full.0 + seq![DrawCommand::Present]);
            assert(cmds@ =~= spec_render_commands(b0, *map, scale));
        }
        cmds
    }
}

} // verus!
