//! Drawing a box-drawing frame around a rectangle, with an optional title
//! set into the top edge, truncated with an ellipsis when it does not fit.

use vstd::prelude::*;

use crate::buffer::TextBufferInterface;
use crate::characters::{spec_char_representable, spec_glyph_of_char, Cell, CharacterColor,
    VGAChar};
use crate::structs::{TextAlign, TextBufferPos, TextBufferRect};

verus! {

/// A character of a box title: anything in the representable set, so it
/// encodes and fills exactly one cell.
pub open spec fn spec_box_name_ok(s: Seq<char>) -> bool {
    forall|i: int| 0 <= i < s.len() ==> spec_char_representable(#[trigger] s[i])
}

/// The label set into the top edge: the name itself when it fits beside
/// the corners and brackets, else its prefix with an ellipsis, filling
/// all the room there is.
pub open spec fn spec_box_label(name: Seq<char>, width: int) -> Seq<char> {
    if name.len() + 4 <= width {
        name
    } else {
        name.take(width - 7) + seq!['.', '.', '.']
    }
}

/// The column of the top edge where the label's opening bracket sits,
/// for each alignment: at the left corner, centered (rounding the
/// leading dashes up), or against the right corner.
pub open spec fn spec_box_label_start(width: int, label_len: int, align: TextAlign) -> int {
    match align {
        TextAlign::Left => 1,
        TextAlign::Center => 1 + (width - 4 - label_len + 1) / 2,
        TextAlign::Right => 1 + (width - 4 - label_len),
    }
}

/// A bright-white frame cell holding glyph `g`.
pub open spec fn spec_frame_cell(g: u8) -> Cell {
    (VGAChar(g), CharacterColor::BrightWhite)
}

/// The cell at column `i` of the top edge: corners at the ends, the
/// bracketed label at its aligned place, dashes everywhere else.
pub open spec fn spec_box_top_cell(
    width: int,
    name: Option<(Seq<char>, TextAlign)>,
    i: int,
) -> Cell {
    if i == 0 {
        spec_frame_cell(0xda)
    } else if i == width - 1 {
        spec_frame_cell(0xbf)
    } else {
        match name {
            None => spec_frame_cell(0xc4),
            Some((nm, align)) => {
                let label = spec_box_label(nm, width);
                let start = spec_box_label_start(width, label.len() as int, align);
                if i == start {
                    spec_frame_cell(0xb4)
                } else if i == start + 1 + label.len() {
                    spec_frame_cell(0xc3)
                } else if start + 1 <= i < start + 1 + label.len() {
                    (
                        VGAChar(spec_glyph_of_char(label[i - start - 1]).unwrap()),
                        CharacterColor::BrightWhite,
                    )
                } else {
                    spec_frame_cell(0xc4)
                }
            },
        }
    }
}

/// The cell at column `i` of the bottom edge: corners and dashes.
pub open spec fn spec_box_bottom_cell(width: int, i: int) -> Cell {
    if i == 0 {
        spec_frame_cell(0xc0)
    } else if i == width - 1 {
        spec_frame_cell(0xd9)
    } else {
        spec_frame_cell(0xc4)
    }
}

/// Draw a frame along the edges of `rect`, with an optional bracketed
/// title in the top edge. The frame must be at least 8 cells wide and 2
/// tall; parts falling outside the surface are silently clipped by the
/// write paths.
pub fn draw_box<S: TextBufferInterface>(
    rect: TextBufferRect,
    screen: &mut S,
    name: Option<(&str, TextAlign)>,
)
    requires
        old(screen).ifc_inv(),
        rect.wf(),
        rect.width >= 8,
        rect.height >= 2,
        old(screen).dirty_req(
            TextBufferRect { x: rect.x, y: rect.y, width: rect.width, height: 1 },
        ),
        old(screen).dirty_req(
            TextBufferRect {
                x: rect.x,
                y: (rect.bottom_spec() - 1) as isize,
                width: rect.width,
                height: 1,
            },
        ),
        forall|yy: int|
            rect.y + 1 <= yy < rect.bottom_spec() - 1 ==> #[trigger] old(screen).dirty_req(
                TextBufferRect { x: rect.x, y: yy as isize, width: 1, height: 1 },
            ),
        forall|yy: int|
            rect.y + 1 <= yy < rect.bottom_spec() - 1 ==> #[trigger] old(screen).dirty_req(
                TextBufferRect {
                    x: (rect.right_spec() - 1) as isize,
                    y: yy as isize,
                    width: 1,
                    height: 1,
                },
            ),
        match name {
            Some((nm, _)) => spec_box_name_ok(nm@),
            None => true,
        },
    ensures
        final(screen).ifc_inv(),
        final(screen).ifc_width() == old(screen).ifc_width(),
        final(screen).ifc_height() == old(screen).ifc_height(),
        forall|x: int, y: int| #[trigger] final(screen).valid_pos(x, y) == old(screen).valid_pos(
            x,
            y,
        ),
        forall|x: int, y: int|
            old(screen).valid_pos(x, y) ==> #[trigger] final(screen).ifc_cell(x, y) == (
            if y == rect.y as int && rect.x <= x < rect.right_spec() {
                spec_box_top_cell(
                    rect.width as int,
                    match name {
                        Some((nm, align)) => Some((nm@, align)),
                        None => None,
                    },
                    x - rect.x,
                )
            } else if y == rect.bottom_spec() - 1 && rect.x <= x < rect.right_spec() {
                spec_box_bottom_cell(rect.width as int, x - rect.x)
            } else if rect.y + 1 <= y < rect.bottom_spec() - 1 && (x == rect.x as int || x
                == rect.right_spec() - 1) {
                spec_frame_cell(0xb3)
            } else {
                old(screen).ifc_cell(x, y)
            }),
{
    let ghost scr0 = *old(screen);
    let ghost spec_name: Option<(Seq<char>, TextAlign)> = match name {
        Some((nm, align)) => Some((nm@, align)),
        None => None,
    };
    let width = rect.width;

    // Assemble the top edge, cell by cell.
    let mut top_cells: Vec<Cell> = Vec::new();
    match name {
        None => {
            let mut i: usize = 0;
            while i < width
                invariant
                    spec_name is None,
                    i <= width,
                    top_cells@.len() == i,
                    forall|j: int| 0 <= j < i ==> #[trigger] top_cells@[j] == spec_box_top_cell(
                        width as int,
                        spec_name,
                        j,
                    ),
                decreases width - i,
            {
                if i == 0 {
                    top_cells.push((VGAChar(0xda), CharacterColor::BrightWhite));
                } else if i == width - 1 {
                    top_cells.push((VGAChar(0xbf), CharacterColor::BrightWhite));
                } else {
                    top_cells.push((VGAChar(0xc4), CharacterColor::BrightWhite));
                }
                i += 1;
            }
        },
        Some((nm, align)) => {
            let name_len = nm.unicode_len();
            let fits = name_len <= width - 4;
            let keep: usize = if fits {
                name_len
            } else {
                width - 7
            };
            let label_len: usize = if fits {
                name_len
            } else {
                width - 4
            };
            proof {
                assert(label_len as int == spec_box_label(nm@, width as int).len());
            }
            let start: usize = match align {
                TextAlign::Left => 1,
                TextAlign::Center => 1 + (width - 4 - label_len + 1) / 2,
                TextAlign::Right => 1 + (width - 4 - label_len),
            };
            proof {
                assert(start as int == spec_box_label_start(
                    width as int,
                    label_len as int,
                    align,
                ));
                assert(start + 1 + label_len <= width - 1);
            }
            let mut i: usize = 0;
            while i < width
                invariant
                    spec_name == Some((nm@, align)),
                    spec_box_name_ok(nm@),
                    rect.width == width,
                    8 <= width <= isize::MAX,
                    keep <= nm@.len(),
                    label_len as int == spec_box_label(nm@, width as int).len(),
                    label_len == (if keep == nm@.len() {
                        keep as int
                    } else {
                        keep + 3
                    }),
                    forall|j: int|
                        0 <= j < label_len ==> #[trigger] spec_box_label(nm@, width as int)[j]
                            == (if j < keep {
                            nm@[j]
                        } else {
                            '.'
                        }),
                    start as int == spec_box_label_start(width as int, label_len as int, align),
                    1 <= start,
                    start + 1 + label_len <= width - 1,
                    i <= width,
                    top_cells@.len() == i,
                    forall|j: int| 0 <= j < i ==> #[trigger] top_cells@[j] == spec_box_top_cell(
                        width as int,
                        spec_name,
                        j,
                    ),
                decreases width - i,
            {
                if i == 0 {
                    top_cells.push((VGAChar(0xda), CharacterColor::BrightWhite));
                } else if i == width - 1 {
                    top_cells.push((VGAChar(0xbf), CharacterColor::BrightWhite));
                } else if i == start {
                    top_cells.push((VGAChar(0xb4), CharacterColor::BrightWhite));
                } else if i == start + 1 + label_len {
                    top_cells.push((VGAChar(0xc3), CharacterColor::BrightWhite));
                } else if start + 1 <= i && i < start + 1 + label_len {
                    let j = i - start - 1;
                    let c: char = if j < keep {
                        nm.get_char(j)
                    } else {
                        '.'
                    };
                    let g = match VGAChar::from_char(c) {
                        Ok(g) => g,
                        Err(_) => VGAChar(0x20),
                    };
                    top_cells.push((g, CharacterColor::BrightWhite));
                } else {
                    top_cells.push((VGAChar(0xc4), CharacterColor::BrightWhite));
                }
                i += 1;
            }
        },
    }

    // Assemble the bottom edge.
    let mut bottom_cells: Vec<Cell> = Vec::new();
    let mut i: usize = 0;
    while i < width
        invariant
            i <= width,
            bottom_cells@.len() == i,
            forall|j: int| 0 <= j < i ==> #[trigger] bottom_cells@[j] == spec_box_bottom_cell(
                width as int,
                j,
            ),
        decreases width - i,
    {
        if i == 0 {
            bottom_cells.push((VGAChar(0xc0), CharacterColor::BrightWhite));
        } else if i == width - 1 {
            bottom_cells.push((VGAChar(0xd9), CharacterColor::BrightWhite));
        } else {
            bottom_cells.push((VGAChar(0xc4), CharacterColor::BrightWhite));
        }
        i += 1;
    }

    // Top and bottom edges.
    let bottom_row = rect.bottom() - 1;
    proof {
        assert(top_cells@.len() == rect.width);
        assert(bottom_cells@.len() == rect.width);
        assert(bottom_row as int == rect.bottom_spec() - 1);
        assert((TextBufferRect { x: rect.x, y: bottom_row, width: rect.width, height: 1 }) == (
        TextBufferRect {
            x: rect.x,
            y: (rect.bottom_spec() - 1) as isize,
            width: rect.width,
            height: 1,
        }));
    }
    let top_rect = screen.write_data(TextBufferPos { x: rect.x, y: rect.y }, top_cells.as_slice());
    let ghost after_top = *screen;
    proof {
        S::lemma_dirty_req_after_noted(
            scr0,
            after_top,
            top_rect,
            TextBufferRect { x: rect.x, y: bottom_row, width: rect.width, height: 1 },
        );
        assert forall|yy: int| rect.y + 1 <= yy < rect.bottom_spec() - 1
            implies #[trigger] after_top.dirty_req(
            TextBufferRect { x: rect.x, y: yy as isize, width: 1, height: 1 },
        ) by {
            assert(old(screen).dirty_req(
                TextBufferRect { x: rect.x, y: yy as isize, width: 1, height: 1 },
            ));
            S::lemma_dirty_req_after_noted(
                scr0,
                after_top,
                top_rect,
                TextBufferRect { x: rect.x, y: yy as isize, width: 1, height: 1 },
            );
        }
        assert forall|yy: int| rect.y + 1 <= yy < rect.bottom_spec() - 1
            implies #[trigger] after_top.dirty_req(
            TextBufferRect {
                x: (rect.right_spec() - 1) as isize,
                y: yy as isize,
                width: 1,
                height: 1,
            },
        ) by {
            assert(old(screen).dirty_req(
                TextBufferRect {
                    x: (rect.right_spec() - 1) as isize,
                    y: yy as isize,
                    width: 1,
                    height: 1,
                },
            ));
            S::lemma_dirty_req_after_noted(
                scr0,
                after_top,
                top_rect,
                TextBufferRect {
                    x: (rect.right_spec() - 1) as isize,
                    y: yy as isize,
                    width: 1,
                    height: 1,
                },
            );
        }
    }
    let bottom_rect = screen.write_data(
        TextBufferPos { x: rect.x, y: bottom_row },
        bottom_cells.as_slice(),
    );
    proof {
        assert forall|yy: int| rect.y + 1 <= yy < rect.bottom_spec() - 1
            implies #[trigger] screen.dirty_req(
            TextBufferRect { x: rect.x, y: yy as isize, width: 1, height: 1 },
        ) by {
            assert(after_top.dirty_req(
                TextBufferRect { x: rect.x, y: yy as isize, width: 1, height: 1 },
            ));
            S::lemma_dirty_req_after_noted(
                after_top,
                *screen,
                bottom_rect,
                TextBufferRect { x: rect.x, y: yy as isize, width: 1, height: 1 },
            );
        }
        assert forall|yy: int| rect.y + 1 <= yy < rect.bottom_spec() - 1
            implies #[trigger] screen.dirty_req(
            TextBufferRect {
                x: (rect.right_spec() - 1) as isize,
                y: yy as isize,
                width: 1,
                height: 1,
            },
        ) by {
            assert(after_top.dirty_req(
                TextBufferRect {
                    x: (rect.right_spec() - 1) as isize,
                    y: yy as isize,
                    width: 1,
                    height: 1,
                },
            ));
            S::lemma_dirty_req_after_noted(
                after_top,
                *screen,
                bottom_rect,
                TextBufferRect {
                    x: (rect.right_spec() - 1) as isize,
                    y: yy as isize,
                    width: 1,
                    height: 1,
                },
            );
        }
    }

    // Side edges, one row at a time.
    let mut side: Vec<Cell> = Vec::new();
    side.push((VGAChar(0xb3), CharacterColor::BrightWhite));
    let right_col = rect.right() - 1;
    let mut row: isize = rect.y + 1;
    while row < bottom_row
        invariant
            scr0.ifc_inv(),
            rect.wf(),
            rect.width >= 8,
            rect.height >= 2,
            bottom_row == rect.bottom_spec() - 1,
            forall|yy: int|
                rect.y + 1 <= yy < rect.bottom_spec() - 1 ==> #[trigger] screen.dirty_req(
                    TextBufferRect { x: rect.x, y: yy as isize, width: 1, height: 1 },
                ),
            forall|yy: int|
                rect.y + 1 <= yy < rect.bottom_spec() - 1 ==> #[trigger] screen.dirty_req(
                    TextBufferRect {
                        x: (rect.right_spec() - 1) as isize,
                        y: yy as isize,
                        width: 1,
                        height: 1,
                    },
                ),
            right_col == rect.right_spec() - 1,
            rect.y + 1 <= row <= bottom_row || row == rect.y + 1,
            side@.len() == 1,
            side@[0] == spec_frame_cell(0xb3),
            top_cells@.len() == rect.width,
            forall|j: int| 0 <= j < top_cells@.len() ==> #[trigger] top_cells@[j]
                == spec_box_top_cell(rect.width as int, spec_name, j),
            bottom_cells@.len() == rect.width,
            forall|j: int| 0 <= j < bottom_cells@.len() ==> #[trigger] bottom_cells@[j]
                == spec_box_bottom_cell(rect.width as int, j),
            screen.ifc_inv(),
            screen.ifc_width() == scr0.ifc_width(),
            screen.ifc_height() == scr0.ifc_height(),
            forall|x: int, y: int| #[trigger] screen.valid_pos(x, y) == scr0.valid_pos(x, y),
            forall|x: int, y: int|
                scr0.valid_pos(x, y) ==> #[trigger] screen.ifc_cell(x, y) == (
                if y == rect.y as int && rect.x <= x < rect.right_spec() {
                    spec_box_top_cell(rect.width as int, spec_name, x - rect.x)
                } else if y == rect.bottom_spec() - 1 && rect.x <= x < rect.right_spec() {
                    spec_box_bottom_cell(rect.width as int, x - rect.x)
                } else if rect.y + 1 <= y < row && (x == rect.x as int || x == rect.right_spec()
                    - 1) {
                    spec_frame_cell(0xb3)
                } else {
                    scr0.ifc_cell(x, y)
                }),
        decreases bottom_row - row,
    {
        proof {
            assert(row as int == (row as int) as isize);
            assert(screen.dirty_req(
                TextBufferRect { x: rect.x, y: (row as int) as isize, width: 1, height: 1 },
            ));
            assert(right_col as int == rect.right_spec() - 1);
            assert(screen.dirty_req(
                TextBufferRect {
                    x: (rect.right_spec() - 1) as isize,
                    y: (row as int) as isize,
                    width: 1,
                    height: 1,
                },
            ));
        }
        let ghost before_left = *screen;
        let left_rect = screen.write_data(TextBufferPos { x: rect.x, y: row }, side.as_slice());
        proof {
            assert forall|yy: int| rect.y + 1 <= yy < rect.bottom_spec() - 1
                implies #[trigger] screen.dirty_req(
                TextBufferRect { x: rect.x, y: yy as isize, width: 1, height: 1 },
            ) by {
                assert(before_left.dirty_req(
                    TextBufferRect { x: rect.x, y: yy as isize, width: 1, height: 1 },
                ));
                S::lemma_dirty_req_after_noted(
                    before_left,
                    *screen,
                    left_rect,
                    TextBufferRect { x: rect.x, y: yy as isize, width: 1, height: 1 },
                );
            }
            assert forall|yy: int| rect.y + 1 <= yy < rect.bottom_spec() - 1
                implies #[trigger] screen.dirty_req(
                TextBufferRect {
                    x: (rect.right_spec() - 1) as isize,
                    y: yy as isize,
                    width: 1,
                    height: 1,
                },
            ) by {
                assert(before_left.dirty_req(
                    TextBufferRect {
                        x: (rect.right_spec() - 1) as isize,
                        y: yy as isize,
                        width: 1,
                        height: 1,
                    },
                ));
                S::lemma_dirty_req_after_noted(
                    before_left,
                    *screen,
                    left_rect,
                    TextBufferRect {
                        x: (rect.right_spec() - 1) as isize,
                        y: yy as isize,
                        width: 1,
                        height: 1,
                    },
                );
            }
            assert(screen.dirty_req(
                TextBufferRect {
                    x: (rect.right_spec() - 1) as isize,
                    y: (row as int) as isize,
                    width: 1,
                    height: 1,
                },
            ));
        }
        let ghost before_right = *screen;
        let right_rect = screen.write_data(TextBufferPos { x: right_col, y: row }, side.as_slice());
        proof {
            assert forall|yy: int| rect.y + 1 <= yy < rect.bottom_spec() - 1
                implies #[trigger] screen.dirty_req(
                TextBufferRect { x: rect.x, y: yy as isize, width: 1, height: 1 },
            ) by {
                assert(before_right.dirty_req(
                    TextBufferRect { x: rect.x, y: yy as isize, width: 1, height: 1 },
                ));
                S::lemma_dirty_req_after_noted(
                    before_right,
                    *screen,
                    right_rect,
                    TextBufferRect { x: rect.x, y: yy as isize, width: 1, height: 1 },
                );
            }
            assert forall|yy: int| rect.y + 1 <= yy < rect.bottom_spec() - 1
                implies #[trigger] screen.dirty_req(
                TextBufferRect {
                    x: (rect.right_spec() - 1) as isize,
                    y: yy as isize,
                    width: 1,
                    height: 1,
                },
            ) by {
                assert(before_right.dirty_req(
                    TextBufferRect {
                        x: (rect.right_spec() - 1) as isize,
                        y: yy as isize,
                        width: 1,
                        height: 1,
                    },
                ));
                S::lemma_dirty_req_after_noted(
                    before_right,
                    *screen,
                    right_rect,
                    TextBufferRect {
                        x: (rect.right_spec() - 1) as isize,
                        y: yy as isize,
                        width: 1,
                        height: 1,
                    },
                );
            }
        }
        row += 1;
    }
}

} // verus!
