//! An append-only scrolling text log with a fixed-size internal grid.
//!
//! Characters are placed left to right on the bottom row; reaching the
//! right edge, or an explicit line break, shifts every row up by one and
//! blanks the bottom row before the next character lands. Resizing keeps
//! the bottom rows: existing rows are re-anchored against the new bottom
//! edge and whatever does not fit is discarded.

use vstd::prelude::*;

use crate::buffer::TextBufferInterface;
use crate::characters::{blank_cell, spec_blank_cell, spec_char_representable, spec_glyph_of_char,
    Cell, CharacterColor, VGAChar};
use crate::draw_interface::UIElement;
use crate::structs::{TextBufferPos, TextBufferRect};

verus! {

/// The grid after scrolling one line: every row takes the row below it,
/// and the bottom row becomes blank.
pub open spec fn spec_scrolled(cells: Seq<Cell>, w: int, h: int) -> Seq<Cell> {
    Seq::new(
        cells.len(),
        |i: int|
            if i < (h - 1) * w {
                cells[i + w]
            } else {
                spec_blank_cell()
            },
    )
}

/// One step of the log: a line break scrolls and resets the cursor
/// without occupying a cell; any other character first scrolls if the
/// cursor is past the right edge, then lands at the cursor on the bottom
/// row and advances it.
pub open spec fn spec_place_char(
    cells: Seq<Cell>,
    cursor: int,
    w: int,
    h: int,
    color: CharacterColor,
    c: char,
) -> (Seq<Cell>, int) {
    if c == '\n' {
        (spec_scrolled(cells, w, h), 0)
    } else {
        let (cells1, cur1) = if cursor >= w {
            (spec_scrolled(cells, w, h), 0int)
        } else {
            (cells, cursor)
        };
        (
            cells1.update((h - 1) * w + cur1, (VGAChar(spec_glyph_of_char(c).unwrap()), color)),
            cur1 + 1,
        )
    }
}

/// The log after writing a whole string, character by character.
pub open spec fn spec_place_string(
    cells: Seq<Cell>,
    cursor: int,
    w: int,
    h: int,
    color: CharacterColor,
    s: Seq<char>,
) -> (Seq<Cell>, int)
    decreases s.len(),
{
    if s.len() == 0 {
        (cells, cursor)
    } else {
        let prev = spec_place_string(cells, cursor, w, h, color, s.drop_last());
        spec_place_char(prev.0, prev.1, w, h, color, s.last())
    }
}

/// The scrolling text log.
pub struct TextBox {
    rect: TextBufferRect,
    internal_buffer: Vec<Cell>,
    dirty: bool,
    cursor_x: usize,
    draw_color: CharacterColor,
}

impl TextBox {
    /// The box's rectangle, in parent coordinates.
    pub closed spec fn rect_spec(&self) -> TextBufferRect {
        self.rect
    }

    /// The grid cells in row-major order.
    pub closed spec fn cells(&self) -> Seq<Cell> {
        self.internal_buffer@
    }

    /// Whether the box changed since the dirty flag was last taken.
    pub closed spec fn dirty_spec(&self) -> bool {
        self.dirty
    }

    /// The cursor column on the bottom row.
    pub closed spec fn cursor_spec(&self) -> int {
        self.cursor_x as int
    }

    /// The color the next characters are written in.
    pub closed spec fn color_spec(&self) -> CharacterColor {
        self.draw_color
    }

    /// Columns of the box.
    pub open spec fn width_spec(&self) -> int {
        self.rect_spec().width as int
    }

    /// Rows of the box.
    pub open spec fn height_spec(&self) -> int {
        self.rect_spec().height as int
    }

    /// Well-formedness: a non-degenerate well-formed rectangle, storage
    /// matching its area, and the cursor at most one past the right edge.
    pub open spec fn inv(&self) -> bool {
        &&& self.rect_spec().wf()
        &&& 1 <= self.width_spec()
        &&& 1 <= self.height_spec()
        &&& self.cells().len() == self.width_spec() * self.height_spec()
        &&& self.cells().len() <= usize::MAX
        &&& 0 <= self.cursor_spec()
    }

    /// A fresh, blank log drawn at `rect`, writing in white.
    pub fn new(rect: TextBufferRect) -> (r: TextBox)
        requires
            rect.wf(),
            rect.width >= 1,
            rect.height >= 1,
            rect.width * rect.height <= usize::MAX,
        ensures
            r.inv(),
            r.rect_spec() == rect,
            forall|i: int| 0 <= i < r.cells().len() ==> #[trigger] r.cells()[i]
                == spec_blank_cell(),
            r.dirty_spec() == true,
            r.cursor_spec() == 0,
            r.color_spec() == CharacterColor::White,
    {
        let n = rect.width * rect.height;
        let mut cells: Vec<Cell> = Vec::new();
        let mut i: usize = 0;
        while i < n
            invariant
                i <= n,
                cells@.len() == i,
                forall|j: int| 0 <= j < i ==> #[trigger] cells@[j] == spec_blank_cell(),
            decreases n - i,
        {
            cells.push(blank_cell());
            i += 1;
        }
        TextBox {
            rect,
            internal_buffer: cells,
            dirty: true,
            cursor_x: 0,
            draw_color: CharacterColor::White,
        }
    }

    /// Copy out row `i` of the grid.
    pub fn line(&self, i: usize) -> (r: Vec<Cell>)
        requires
            self.inv(),
            i < self.height_spec(),
        ensures
            r@.len() == self.width_spec(),
            forall|j: int| 0 <= j < r@.len() ==> #[trigger] r@[j] == self.cells()[i
                * self.width_spec() + j],
    {
        let w = self.rect.width;
        let mut row: Vec<Cell> = Vec::new();
        let mut j: usize = 0;
        proof {
            crate::buffer::lemma_grid_index_bounds(
                self.width_spec(),
                self.height_spec(),
                0,
                i as int,
            );
        }
        while j < w
            invariant
                self.inv(),
                i < self.height_spec(),
                w == self.width_spec(),
                j <= w,
                row@.len() == j,
                forall|k: int| 0 <= k < j ==> #[trigger] row@[k] == self.cells()[i
                    * self.width_spec() + k],
            decreases w - j,
        {
            proof {
                crate::buffer::lemma_grid_index_bounds(
                    self.width_spec(),
                    self.height_spec(),
                    j as int,
                    i as int,
                );
                assert(i * self.width_spec() + j == j + i * self.width_spec());
            }
            let c = self.internal_buffer[i * w + j];
            row.push(c);
            j += 1;
        }
        row
    }

    /// Shift every row up by one and blank the bottom row.
    fn scroll(&mut self)
        requires
            old(self).inv(),
        ensures
            final(self).inv(),
            final(self).cells() == spec_scrolled(
                old(self).cells(),
                old(self).width_spec(),
                old(self).height_spec(),
            ),
            final(self).rect_spec() == old(self).rect_spec(),
            final(self).dirty_spec() == old(self).dirty_spec(),
            final(self).cursor_spec() == old(self).cursor_spec(),
            final(self).color_spec() == old(self).color_spec(),
    {
        let w = self.rect.width;
        let h = self.rect.height;
        let len = self.internal_buffer.len();
        let ghost w0 = self.width_spec();
        let ghost h0 = self.height_spec();
        let ghost orig = self.cells();
        proof {
            assert((h0 - 1) * w0 + w0 == w0 * h0 && 0 <= (h0 - 1) * w0) by (nonlinear_arith)
                requires
                    1 <= w0,
                    1 <= h0,
            ;
        }
        let boundary = (h - 1) * w;
        let mut new_data: Vec<Cell> = Vec::new();
        let mut i: usize = 0;
        while i < len
            invariant
                self == old(self),
                self.inv(),
                w0 == self.width_spec(),
                h0 == self.height_spec(),
                orig == self.cells(),
                len == orig.len(),
                boundary == (h0 - 1) * w0,
                boundary + w0 == len,
                w == w0,
                0 <= i <= len,
                new_data@.len() == i,
                forall|j: int| 0 <= j < i ==> #[trigger] new_data@[j] == spec_scrolled(
                    orig,
                    w0,
                    h0,
                )[j],
            decreases len - i,
        {
            if i < boundary {
                let c = self.internal_buffer[i + w];
                new_data.push(c);
            } else {
                new_data.push(blank_cell());
            }
            i += 1;
        }
        self.internal_buffer = new_data;
        proof {
            assert(self.cells() =~= spec_scrolled(orig, w0, h0));
        }
    }

    /// Append one character, scrolling first at a line break or when the
    /// cursor is past the right edge; the box becomes dirty.
    pub fn place_char(&mut self, c: char)
        requires
            old(self).inv(),
            c == '\n' || spec_char_representable(c),
        ensures
            final(self).inv(),
            (final(self).cells(), final(self).cursor_spec()) == spec_place_char(
                old(self).cells(),
                old(self).cursor_spec(),
                old(self).width_spec(),
                old(self).height_spec(),
                old(self).color_spec(),
                c,
            ),
            final(self).rect_spec() == old(self).rect_spec(),
            final(self).dirty_spec() == true,
            final(self).color_spec() == old(self).color_spec(),
    {
        if c == '\n' || self.cursor_x >= self.rect.width {
            self.cursor_x = 0;
            self.scroll();
        }
        if c != '\n' {
            let vga = match VGAChar::from_char(c) {
                Ok(g) => g,
                Err(_) => VGAChar(0x20),
            };
            proof {
                crate::buffer::lemma_grid_index_bounds(
                    self.width_spec(),
                    self.height_spec(),
                    self.cursor_x as int,
                    self.height_spec() - 1,
                );
            }
            let idx = (self.rect.height - 1) * self.rect.width + self.cursor_x;
            self.internal_buffer[idx] = (vga, self.draw_color);
            self.cursor_x = self.cursor_x + 1;
        }
        self.dirty = true;
    }

    /// Append a whole string, character by character.
    pub fn place_string(&mut self, s: &str)
        requires
            old(self).inv(),
            forall|i: int|
                0 <= i < s@.len() ==> (s@[i] == '\n' || spec_char_representable(#[trigger] s@[i])),
        ensures
            final(self).inv(),
            (final(self).cells(), final(self).cursor_spec()) == spec_place_string(
                old(self).cells(),
                old(self).cursor_spec(),
                old(self).width_spec(),
                old(self).height_spec(),
                old(self).color_spec(),
                s@,
            ),
            final(self).rect_spec() == old(self).rect_spec(),
            final(self).dirty_spec() == (old(self).dirty_spec() || s@.len() > 0),
            final(self).color_spec() == old(self).color_spec(),
    {
        let ghost str_chars = s@;
        let n = s.unicode_len();
        let mut i: usize = 0;
        while i < n
            invariant
                old(self).inv(),
                str_chars == s@,
                n == str_chars.len(),
                0 <= i <= n,
                forall|j: int|
                    0 <= j < str_chars.len() ==> (str_chars[j] == '\n' || spec_char_representable(
                        #[trigger] str_chars[j],
                    )),
                self.inv(),
                (self.cells(), self.cursor_spec()) == spec_place_string(
                    old(self).cells(),
                    old(self).cursor_spec(),
                    old(self).width_spec(),
                    old(self).height_spec(),
                    old(self).color_spec(),
                    str_chars.take(i as int),
                ),
                self.rect_spec() == old(self).rect_spec(),
                self.width_spec() == old(self).width_spec(),
                self.height_spec() == old(self).height_spec(),
                self.dirty_spec() == (old(self).dirty_spec() || i > 0),
                self.color_spec() == old(self).color_spec(),
            decreases n - i,
        {
            let c = s.get_char(i);
            self.place_char(c);
            proof {
                assert(str_chars.take(i + 1).drop_last() =~= str_chars.take(i as int));
                assert(str_chars.take(i + 1).last() == str_chars[i as int]);
            }
            i += 1;
        }
        proof {
            assert(str_chars.take(n as int) =~= str_chars);
        }
    }

    /// Reset the drawing color to white.
    pub fn clear_color(&mut self)
        requires
            old(self).inv(),
        ensures
            final(self).inv(),
            final(self).color_spec() == CharacterColor::White,
            final(self).cells() == old(self).cells(),
            final(self).rect_spec() == old(self).rect_spec(),
            final(self).cursor_spec() == old(self).cursor_spec(),
            final(self).dirty_spec() == old(self).dirty_spec(),
    {
        self.draw_color = CharacterColor::White;
    }

    /// Set the color the next characters are written in.
    pub fn set_color(&mut self, c: CharacterColor)
        requires
            old(self).inv(),
        ensures
            final(self).inv(),
            final(self).color_spec() == c,
            final(self).cells() == old(self).cells(),
            final(self).rect_spec() == old(self).rect_spec(),
            final(self).cursor_spec() == old(self).cursor_spec(),
            final(self).dirty_spec() == old(self).dirty_spec(),
    {
        self.draw_color = c;
    }

    /// Move the box to a new rectangle, keeping the bottom rows: old row
    /// `y` lands on new row `y + new height − old height` when that is a
    /// valid row, each row truncated to the narrower width, and every
    /// other new cell is blank.
    pub fn update_rect(&mut self, rect: TextBufferRect)
        requires
            old(self).inv(),
            rect.wf(),
            rect.width >= 1,
            rect.height >= 1,
            rect.width * rect.height <= usize::MAX,
        ensures
            final(self).inv(),
            final(self).rect_spec() == rect,
            final(self).cursor_spec() == old(self).cursor_spec(),
            final(self).dirty_spec() == old(self).dirty_spec(),
            final(self).color_spec() == old(self).color_spec(),
            final(self).cells().len() == rect.width * rect.height,
            forall|x: int, y: int|
                0 <= x < rect.width && 0 <= y < rect.height ==> #[trigger] final(self).cells()[x
                    + y * rect.width] == ({
                    let oy = y + old(self).height_spec() - rect.height;
                    if 0 <= oy < old(self).height_spec() && x < old(self).width_spec() {
                        old(self).cells()[x + oy * old(self).width_spec()]
                    } else {
                        spec_blank_cell()
                    }
                }),
    {
        let w_new = rect.width;
        let h_new = rect.height;
        let w_old = self.rect.width;
        let h_old = self.rect.height;
        let ghost orig = self.cells();
        let n = w_new * h_new;
        let mut cells: Vec<Cell> = Vec::new();
        let mut i: usize = 0;
        while i < n
            invariant
                i <= n,
                cells@.len() == i,
                forall|j: int| 0 <= j < i ==> #[trigger] cells@[j] == spec_blank_cell(),
            decreases n - i,
        {
            cells.push(blank_cell());
            i += 1;
        }
        proof {
            assert forall|x: int, y: int| 0 <= x < w_new && 0 <= y < h_new
                implies #[trigger] cells@[x + y * w_new] == spec_blank_cell() by {
                crate::buffer::lemma_grid_index_bounds(w_new as int, h_new as int, x, y);
            }
        }
        let y_start: usize = if h_old > h_new {
            h_old - h_new
        } else {
            0
        };
        let w_copy: usize = if w_old < w_new {
            w_old
        } else {
            w_new
        };
        let mut oy: usize = y_start;
        while oy < h_old
            invariant
                old(self).inv(),
                self == old(self),
                orig == old(self).cells(),
                w_new == rect.width,
                h_new == rect.height,
                w_old == old(self).width_spec(),
                h_old == old(self).height_spec(),
                1 <= w_new,
                1 <= h_new,
                w_new * h_new <= usize::MAX,
                y_start == (if h_old > h_new {
                    h_old - h_new
                } else {
                    0
                }),
                w_copy == (if w_old < w_new {
                    w_old
                } else {
                    w_new
                }),
                y_start <= oy <= h_old,
                cells@.len() == w_new * h_new,
                forall|x: int, y: int|
                    0 <= x < w_new && 0 <= y < h_new ==> #[trigger] cells@[x + y * w_new] == ({
                        let src_y = y + h_old - h_new;
                        if y_start <= src_y < oy && x < w_copy {
                            orig[x + src_y * w_old]
                        } else {
                            spec_blank_cell()
                        }
                    }),
            decreases h_old - oy,
        {
            let ny = if h_old > h_new {
                oy - (h_old - h_new)
            } else {
                oy + (h_new - h_old)
            };
            let mut x: usize = 0;
            while x < w_copy
                invariant
                    old(self).inv(),
                    self == old(self),
                    orig == old(self).cells(),
                    w_new == rect.width,
                    h_new == rect.height,
                    w_old == old(self).width_spec(),
                    h_old == old(self).height_spec(),
                    1 <= w_new,
                    1 <= h_new,
                    w_new * h_new <= usize::MAX,
                    y_start == (if h_old > h_new {
                        h_old - h_new
                    } else {
                        0
                    }),
                    w_copy == (if w_old < w_new {
                        w_old
                    } else {
                        w_new
                    }),
                    y_start <= oy < h_old,
                    ny == oy + h_new - h_old,
                    0 <= ny < h_new,
                    x <= w_copy,
                    cells@.len() == w_new * h_new,
                    forall|x0: int, y0: int|
                        0 <= x0 < w_new && 0 <= y0 < h_new ==> #[trigger] cells@[x0 + y0 * w_new]
                            == ({
                            let src_y = y0 + h_old - h_new;
                            if (y_start <= src_y < oy || (src_y == oy && x0 < x)) && x0 < w_copy {
                                orig[x0 + src_y * w_old]
                            } else {
                                spec_blank_cell()
                            }
                        }),
                decreases w_copy - x,
            {
                proof {
                    crate::buffer::lemma_grid_index_bounds(w_new as int, h_new as int, x as int, ny as int);
                    crate::buffer::lemma_grid_index_bounds(w_old as int, h_old as int, x as int, oy as int);
                }
                let src = self.internal_buffer[x + oy * w_old];
                cells[x + ny * w_new] = src;
                proof {
                    assert forall|x0: int, y0: int| 0 <= x0 < w_new && 0 <= y0 < h_new
                        implies #[trigger] cells@[x0 + y0 * w_new] == ({
                        let src_y = y0 + h_old - h_new;
                        if (y_start <= src_y < oy || (src_y == oy && x0 < x + 1)) && x0 < w_copy {
                            orig[x0 + src_y * w_old]
                        } else {
                            spec_blank_cell()
                        }
                    }) by {
                        crate::buffer::lemma_grid_index_bounds(w_new as int, h_new as int, x0, y0);
                        if x0 + y0 * w_new == x + ny * w_new {
                            crate::buffer::lemma_grid_index_injective(
                                w_new as int,
                                x0,
                                y0,
                                x as int,
                                ny as int,
                            );
                        }
                    }
                }
                x += 1;
            }
            oy += 1;
        }
        self.rect = rect;
        self.internal_buffer = cells;
    }
}

/// Any index of a `w`-column grid splits into its column `i % w` and row
/// `i / w`.
proof fn lemma_grid_div_mod(w: int, h: int, i: int)
    requires
        0 <= i < w * h,
        1 <= w,
    ensures
        0 <= i % w < w,
        0 <= i / w < h,
        i == i % w + (i / w) * w,
{
    assert(0 <= i % w < w && 0 <= i / w < h && i == i % w + (i / w) * w) by (nonlinear_arith)
        requires
            0 <= i < w * h,
            1 <= w,
    ;
}

impl TextBox {
    /// The cell the box paints at a parent position: its grid, laid over
    /// its rectangle.
    pub open spec fn paints(&self, x: int, y: int, base: Cell) -> Cell {
        if self.rect_spec().x <= x < self.rect_spec().x + self.width_spec()
            && self.rect_spec().y <= y < self.rect_spec().y + self.height_spec() {
            self.cells()[(x - self.rect_spec().x) + (y - self.rect_spec().y) * self.width_spec()]
        } else {
            base
        }
    }
}

impl TextBox {
    /// The rectangle row `k` of the box occupies on the parent surface.
    pub open spec fn row_write_rect(&self, k: int) -> TextBufferRect {
        TextBufferRect {
            x: self.rect_spec().x,
            y: (self.rect_spec().y + k) as isize,
            width: self.rect_spec().width,
            height: 1,
        }
    }
}

impl UIElement for TextBox {
    open spec fn ui_inv(&self) -> bool {
        self.inv()
    }

    open spec fn ui_dirty(&self) -> bool {
        self.dirty_spec()
    }

    open spec fn ui_took(pre: Self, post: Self) -> bool {
        &&& post.dirty_spec() == false
        &&& post.rect_spec() == pre.rect_spec()
        &&& post.cells() == pre.cells()
        &&& post.cursor_spec() == pre.cursor_spec()
        &&& post.color_spec() == pre.color_spec()
    }

    open spec fn ui_drew(pre: Self, post: Self) -> bool {
        &&& post.dirty_spec() == pre.dirty_spec()
        &&& post.rect_spec() == pre.rect_spec()
        &&& post.cells() == pre.cells()
        &&& post.cursor_spec() == pre.cursor_spec()
        &&& post.color_spec() == pre.color_spec()
    }

    open spec fn ui_clears(&self) -> Option<TextBufferRect> {
        None
    }

    open spec fn ui_paints(&self, x: int, y: int, base: Cell) -> Cell {
        self.paints(x, y, base)
    }

    open spec fn ui_draw_req(&self, w: int, h: int) -> bool {
        true
    }

    open spec fn ui_writes(&self, r: TextBufferRect) -> bool {
        exists|k: int| 0 <= k < self.height_spec() && r == #[trigger] self.row_write_rect(k)
    }

    open spec fn ui_last_rect(&self) -> Option<TextBufferRect> {
        Some(self.rect_spec())
    }

    fn take_dirty(&mut self) -> (r: bool) {
        let dirty = self.dirty;
        self.dirty = false;
        dirty
    }

    fn ui_draw<S: TextBufferInterface>(&mut self, screen: &mut S) {
        let ghost tb0 = *self;
        let ghost scr0 = *old(screen);
        let h = self.rect.height;
        let mut y: usize = 0;
        while y < h
            invariant
                tb0.inv(),
                scr0.ifc_inv(),
                forall|r: TextBufferRect| #[trigger] tb0.ui_writes(r) ==> screen.dirty_req(r),
                self == old(self),
                *self == tb0,
                h == tb0.height_spec(),
                0 <= y <= h,
                screen.ifc_inv(),
                screen.ifc_width() == scr0.ifc_width(),
                screen.ifc_height() == scr0.ifc_height(),
                forall|x0: int, y0: int| #[trigger] screen.valid_pos(x0, y0) == scr0.valid_pos(
                    x0,
                    y0,
                ),
                forall|x0: int, y0: int|
                    scr0.valid_pos(x0, y0) ==> #[trigger] screen.ifc_cell(x0, y0) == (
                    if tb0.rect_spec().y <= y0 < tb0.rect_spec().y + y {
                        tb0.paints(x0, y0, scr0.ifc_cell(x0, y0))
                    } else {
                        scr0.ifc_cell(x0, y0)
                    }),
            decreases h - y,
        {
            let row = self.line(y);
            let y_screen: isize = self.rect.y + y as isize;
            proof {
                assert((TextBufferRect {
                    x: tb0.rect_spec().x,
                    y: y_screen,
                    width: tb0.rect_spec().width,
                    height: 1,
                }) == tb0.row_write_rect(y as int));
                assert(tb0.ui_writes(
                    TextBufferRect {
                        x: tb0.rect_spec().x,
                        y: y_screen,
                        width: tb0.rect_spec().width,
                        height: 1,
                    },
                ));
            }
            let ghost scr_pre = *screen;
            let row_rect = screen.write_data(
                TextBufferPos { x: self.rect.x, y: y_screen },
                row.as_slice(),
            );
            proof {
                assert forall|x0: int, y0: int| scr0.valid_pos(x0, y0)
                    implies #[trigger] screen.ifc_cell(x0, y0) == (
                if tb0.rect_spec().y <= y0 < tb0.rect_spec().y + y + 1 {
                    tb0.paints(x0, y0, scr0.ifc_cell(x0, y0))
                } else {
                    scr0.ifc_cell(x0, y0)
                }) by {
                    assert(scr_pre.ifc_cell(x0, y0) == (
                    if tb0.rect_spec().y <= y0 < tb0.rect_spec().y + y {
                        tb0.paints(x0, y0, scr0.ifc_cell(x0, y0))
                    } else {
                        scr0.ifc_cell(x0, y0)
                    }));
                }
                assert forall|r: TextBufferRect| #[trigger] tb0.ui_writes(r)
                    implies screen.dirty_req(r) by {
                    S::lemma_dirty_req_after_noted(scr_pre, *screen, row_rect, r);
                }
            }
            y += 1;
        }
    }

    fn clear_last<S: TextBufferInterface>(&self, screen: &mut S) {
        screen.clear_rect(self.rect);
    }
}

/// Line-wrap law of the log: writing a run of printable characters (no
/// line breaks) from a reset cursor leaves the cursor at
/// `((len − 1) mod width) + 1`, and the bottom row holds exactly the most
/// recently written characters, left-aligned from the reset cursor. When
/// the run is longer than the width, the rest of the bottom row is blank:
/// the only way it becomes blank is the scroll the overflow triggered.
pub proof fn lemma_place_string_overflow(
    cells: Seq<Cell>,
    w: int,
    h: int,
    color: CharacterColor,
    s: Seq<char>,
)
    requires
        1 <= w,
        1 <= h,
        cells.len() == w * h,
        1 <= s.len(),
        forall|i: int|
            0 <= i < s.len() ==> spec_char_representable(#[trigger] s[i]) && s[i] != '\n',
    ensures
        ({
            let r = spec_place_string(cells, 0, w, h, color, s);
            let cur = ((s.len() - 1) % w) + 1;
            &&& r.0.len() == cells.len()
            &&& r.1 == cur
            &&& forall|j: int|
                0 <= j < cur ==> #[trigger] r.0[(h - 1) * w + j] == (
                (VGAChar(spec_glyph_of_char(s[s.len() - cur + j]).unwrap()), color))
            &&& s.len() > w ==> forall|j: int|
                cur <= j < w ==> #[trigger] r.0[(h - 1) * w + j] == spec_blank_cell()
        }),
    decreases s.len(),
{
    let r = spec_place_string(cells, 0, w, h, color, s);
    let k = s.len() - 1;
    let cur = (k % w) + 1;
    assert(0 <= k % w < w) by (nonlinear_arith)
        requires
            1 <= w,
            0 <= k,
    ;
    assert forall|j: int| 0 <= j < w implies 0 <= #[trigger] ((h - 1) * w + j) < w * h by {
        crate::buffer::lemma_grid_index_bounds(w, h, j, h - 1);
    }
    if s.len() == 1 {
        assert(s.drop_last().len() == 0);
        assert(spec_place_string(cells, 0, w, h, color, s.drop_last()) == (cells, 0int));
        assert(s.last() == s[0]);
        assert(r == spec_place_char(cells, 0, w, h, color, s[0]));
        assert(k % w == 0) by (nonlinear_arith)
            requires
                k == 0,
                1 <= w,
        ;
        assert(cur == 1);
        assert(r.0 == cells.update(
            (h - 1) * w + 0,
            (VGAChar(spec_glyph_of_char(s[0]).unwrap()), color),
        ));
        assert forall|j: int| 0 <= j < cur implies #[trigger] r.0[(h - 1) * w + j] == (
        (VGAChar(spec_glyph_of_char(s[s.len() - cur + j]).unwrap()), color)) by {
            assert(j == 0 && s.len() - cur + j == 0);
            assert((h - 1) * w + j == (h - 1) * w + 0);
        }
    } else {
        let t = s.drop_last();
        lemma_place_string_overflow(cells, w, h, color, t);
        let prev = spec_place_string(cells, 0, w, h, color, t);
        let curp = ((k - 1) % w) + 1;
        assert(0 <= (k - 1) % w < w) by (nonlinear_arith)
            requires
                1 <= w,
                0 <= k - 1,
        ;
        assert(r == spec_place_char(prev.0, prev.1, w, h, color, s[k]));
        assert(forall|j: int| 0 <= j < t.len() ==> #[trigger] t[j] == s[j]);
        if curp >= w {
            // The previous character filled the last column: this one
            // scrolls first and lands in column 0.
            assert((k - 1) % w == w - 1);
            assert(k % w == 0) by (nonlinear_arith)
                requires
                    1 <= w,
                    1 <= k,
                    (k - 1) % w == w - 1,
            ;
            assert(k >= w) by (nonlinear_arith)
                requires
                    1 <= w,
                    1 <= k,
                    k % w == 0,
            ;
            let scrolled = spec_scrolled(prev.0, w, h);
            assert forall|j: int| 0 <= j < w implies #[trigger] scrolled[(h - 1) * w + j]
                == spec_blank_cell() by {
                assert(!((h - 1) * w + j < (h - 1) * w));
            }
            assert(r.1 == cur);
            assert(r.0 == scrolled.update(
                (h - 1) * w + 0,
                (VGAChar(spec_glyph_of_char(s[k]).unwrap()), color),
            ));
            assert forall|j: int| 0 <= j < cur implies #[trigger] r.0[(h - 1) * w + j] == (
            (VGAChar(spec_glyph_of_char(s[s.len() - cur + j]).unwrap()), color)) by {
                assert(j == 0 && s.len() - cur + j == k);
                assert((h - 1) * w + j == (h - 1) * w + 0);
            }
            assert forall|j: int| cur <= j < w implies #[trigger] r.0[(h - 1) * w + j]
                == spec_blank_cell() by {
                assert((h - 1) * w + j != (h - 1) * w + 0);
                assert(scrolled[(h - 1) * w + j] == spec_blank_cell());
            }
        } else {
            // No scroll: the character lands at the previous cursor.
            assert(k % w == (k - 1) % w + 1) by (nonlinear_arith)
                requires
                    1 <= w,
                    1 <= k,
                    (k - 1) % w < w - 1,
            ;
            assert(r.1 == cur);
            assert((k - 1) % w <= k - 1) by (nonlinear_arith)
                requires
                    0 <= k - 1,
                    1 <= w,
            ;
            assert(r.0 == prev.0.update(
                (h - 1) * w + curp,
                (VGAChar(spec_glyph_of_char(s[k]).unwrap()), color),
            ));
            assert forall|j: int| 0 <= j < cur implies #[trigger] r.0[(h - 1) * w + j] == (
            (VGAChar(spec_glyph_of_char(s[s.len() - cur + j]).unwrap()), color)) by {
                if j < curp {
                    assert((h - 1) * w + j != (h - 1) * w + curp);
                    assert(prev.0[(h - 1) * w + j] == (
                    (VGAChar(spec_glyph_of_char(t[t.len() - curp + j]).unwrap()), color)));
                    assert(t[t.len() - curp + j] == s[s.len() - cur + j]);
                } else {
                    assert(j == curp && s.len() - cur + j == k);
                }
            }
            if s.len() > w {
                assert(t.len() > w) by (nonlinear_arith)
                    requires
                        1 <= w,
                        k == s.len() - 1,
                        t.len() == k,
                        s.len() > w,
                        (k - 1) % w < w - 1,
                        k % w == (k - 1) % w + 1,
                ;
                assert forall|j: int| cur <= j < w implies #[trigger] r.0[(h - 1) * w + j]
                    == spec_blank_cell() by {
                    assert((h - 1) * w + j != (h - 1) * w + curp);
                    assert(prev.0[(h - 1) * w + j] == spec_blank_cell());
                }
            }
        }
    }
}

} // verus!
