//! A 2-D scrolling viewport over an internal cell grid larger than its
//! visible rectangle.
//!
//! In bounded mode the scroll offset is clamped to `[0, content − view]`
//! per axis, and to 0 when the content is smaller than the viewport; in
//! unbounded mode the offset is unconstrained and may scroll past the
//! content entirely.

use vstd::prelude::*;

use crate::buffer::TextBufferInterface;
use crate::characters::{blank_cell, spec_blank_cell, Cell};
use crate::draw_interface::UIElement;
use crate::structs::{TextBufferPos, TextBufferRect};

verus! {

/// The offset an axis settles at under bounded clamping: within
/// `[0, content − view]`, and 0 when the content is smaller than the view.
pub open spec fn spec_clamped_scroll(v: int, content: int, view: int) -> int {
    let max_off = if content >= view {
        content - view
    } else {
        0
    };
    if v < 0 {
        0
    } else if v > max_off {
        max_off
    } else {
        v
    }
}

/// A scrolling viewport: a visible rectangle in its parent's coordinates,
/// an internal content grid, and a signed scroll offset.
pub struct ScrollBox {
    rect: TextBufferRect,
    width: usize,
    height: usize,
    internal_buffer: Vec<Cell>,
    dirty_regions: Vec<TextBufferRect>,
    scroll: (isize, isize),
    bounded: bool,
}

impl ScrollBox {
    /// The visible rectangle, in parent coordinates.
    pub closed spec fn rect_spec(&self) -> TextBufferRect {
        self.rect
    }

    /// Columns of the internal content grid.
    pub closed spec fn width_spec(&self) -> int {
        self.width as int
    }

    /// Rows of the internal content grid.
    pub closed spec fn height_spec(&self) -> int {
        self.height as int
    }

    /// The content cells in row-major order.
    pub closed spec fn cells(&self) -> Seq<Cell> {
        self.internal_buffer@
    }

    /// The pending dirty rectangles.
    pub closed spec fn dirty_spec(&self) -> Seq<TextBufferRect> {
        self.dirty_regions@
    }

    /// The scroll offset.
    pub closed spec fn scroll_spec(&self) -> (int, int) {
        (self.scroll.0 as int, self.scroll.1 as int)
    }

    /// Whether the offset is clamped to the content.
    pub closed spec fn bounded_spec(&self) -> bool {
        self.bounded
    }

    /// Well-formedness: extent fits `isize`, storage matches the extent,
    /// and the visible rectangle is well formed.
    pub open spec fn inv(&self) -> bool {
        &&& 0 <= self.width_spec() <= isize::MAX
        &&& 0 <= self.height_spec() <= isize::MAX
        &&& self.cells().len() == self.width_spec() * self.height_spec()
        &&& self.cells().len() <= usize::MAX
        &&& self.rect_spec().wf()
    }

    /// A fresh scroll box: blank content of `size` cells shown through
    /// `rect`, unscrolled, unbounded, with the whole content pending.
    pub fn new(rect: TextBufferRect, size: (usize, usize)) -> (r: ScrollBox)
        requires
            rect.wf(),
            size.0 <= isize::MAX,
            size.1 <= isize::MAX,
            size.0 * size.1 <= usize::MAX,
        ensures
            r.inv(),
            r.rect_spec() == rect,
            r.width_spec() == size.0,
            r.height_spec() == size.1,
            forall|i: int| 0 <= i < r.cells().len() ==> #[trigger] r.cells()[i]
                == spec_blank_cell(),
            r.dirty_spec() == seq![
                TextBufferRect { x: 0, y: 0, width: size.0, height: size.1 },
            ],
            r.scroll_spec() == (0int, 0int),
            r.bounded_spec() == false,
    {
        let mut dirty: Vec<TextBufferRect> = Vec::new();
        dirty.push(TextBufferRect { x: 0, y: 0, width: size.0, height: size.1 });
        let mut cells: Vec<Cell> = Vec::new();
        let n = size.0 * size.1;
        let mut i: usize = 0;
        while i < n
            invariant
                i <= n,
                cells@.len() == i,
                forall|j: int| 0 <= j < i ==> #[trigger] cells@[j] == spec_blank_cell(),
            decreases n - i,
        {
            cells.push(blank_cell());
            i += 1;
        }
        ScrollBox {
            rect,
            width: size.0,
            height: size.1,
            internal_buffer: cells,
            dirty_regions: dirty,
            scroll: (0, 0),
            bounded: false,
        }
    }

    /// The visible rectangle, in parent coordinates.
    pub fn rect(&self) -> (r: TextBufferRect)
        ensures
            r == self.rect_spec(),
    {
        self.rect
    }

    /// Move or resize the visible rectangle.
    pub fn set_rect(&mut self, rect: TextBufferRect)
        requires
            old(self).inv(),
            rect.wf(),
        ensures
            final(self).inv(),
            final(self).rect_spec() == rect,
            final(self).width_spec() == old(self).width_spec(),
            final(self).height_spec() == old(self).height_spec(),
            final(self).cells() == old(self).cells(),
            final(self).dirty_spec() == old(self).dirty_spec(),
            final(self).scroll_spec() == old(self).scroll_spec(),
            final(self).bounded_spec() == old(self).bounded_spec(),
    {
        self.rect = rect;
    }

    /// Switch between bounded (clamped) and unbounded scrolling.
    pub fn set_bounded(&mut self, bounded: bool)
        requires
            old(self).inv(),
        ensures
            final(self).inv(),
            final(self).bounded_spec() == bounded,
            final(self).rect_spec() == old(self).rect_spec(),
            final(self).width_spec() == old(self).width_spec(),
            final(self).height_spec() == old(self).height_spec(),
            final(self).cells() == old(self).cells(),
            final(self).dirty_spec() == old(self).dirty_spec(),
            final(self).scroll_spec() == old(self).scroll_spec(),
    {
        self.bounded = bounded;
    }

    /// The scroll offset.
    pub fn scroll_offset(&self) -> (r: (isize, isize))
        ensures
            (r.0 as int, r.1 as int) == self.scroll_spec(),
    {
        self.scroll
    }

    /// Scroll horizontally by `amt`: clamped to the content in bounded
    /// mode, unconstrained otherwise. Any change of offset makes the whole
    /// content the one pending dirty rectangle.
    pub fn scroll_horizontal(&mut self, amt: isize)
        requires
            old(self).inv(),
            !old(self).bounded_spec() ==> isize::MIN <= old(self).scroll_spec().0 + amt
                <= isize::MAX,
        ensures
            final(self).inv(),
            final(self).scroll_spec().0 == (if old(self).bounded_spec() {
                spec_clamped_scroll(
                    old(self).scroll_spec().0 + amt,
                    old(self).width_spec(),
                    old(self).rect_spec().width as int,
                )
            } else {
                old(self).scroll_spec().0 + amt
            }),
            final(self).scroll_spec().1 == old(self).scroll_spec().1,
            final(self).cells() == old(self).cells(),
            final(self).width_spec() == old(self).width_spec(),
            final(self).height_spec() == old(self).height_spec(),
            final(self).rect_spec() == old(self).rect_spec(),
            final(self).bounded_spec() == old(self).bounded_spec(),
            final(self).dirty_spec() == (if final(self).scroll_spec() == old(self).scroll_spec() {
                old(self).dirty_spec()
            } else {
                seq![
                    TextBufferRect {
                        x: 0,
                        y: 0,
                        width: old(self).width_spec() as usize,
                        height: old(self).height_spec() as usize,
                    },
                ]
            }),
    {
        let backup = self.scroll.0;
        if !self.bounded {
            self.scroll.0 = self.scroll.0 + amt;
        } else {
            let shifted: i128 = self.scroll.0 as i128 + amt as i128;
            let max_off: i128 = if self.width as i128 >= self.rect.width as i128 {
                self.width as i128 - self.rect.width as i128
            } else {
                0
            };
            let clamped: i128 = if shifted < 0 {
                0
            } else if shifted > max_off {
                max_off
            } else {
                shifted
            };
            self.scroll.0 = clamped as isize;
        }
        if self.scroll.0 != backup {
            let mut dirty: Vec<TextBufferRect> = Vec::new();
            dirty.push(TextBufferRect { x: 0, y: 0, width: self.width, height: self.height });
            self.dirty_regions = dirty;
        }
    }

    /// Scroll vertically by `amt`: clamped to the content in bounded mode,
    /// unconstrained otherwise. Any change of offset makes the whole
    /// content the one pending dirty rectangle.
    pub fn scroll_vertical(&mut self, amt: isize)
        requires
            old(self).inv(),
            !old(self).bounded_spec() ==> isize::MIN <= old(self).scroll_spec().1 + amt
                <= isize::MAX,
        ensures
            final(self).inv(),
            final(self).scroll_spec().1 == (if old(self).bounded_spec() {
                spec_clamped_scroll(
                    old(self).scroll_spec().1 + amt,
                    old(self).height_spec(),
                    old(self).rect_spec().height as int,
                )
            } else {
                old(self).scroll_spec().1 + amt
            }),
            final(self).scroll_spec().0 == old(self).scroll_spec().0,
            final(self).cells() == old(self).cells(),
            final(self).width_spec() == old(self).width_spec(),
            final(self).height_spec() == old(self).height_spec(),
            final(self).rect_spec() == old(self).rect_spec(),
            final(self).bounded_spec() == old(self).bounded_spec(),
            final(self).dirty_spec() == (if final(self).scroll_spec() == old(self).scroll_spec() {
                old(self).dirty_spec()
            } else {
                seq![
                    TextBufferRect {
                        x: 0,
                        y: 0,
                        width: old(self).width_spec() as usize,
                        height: old(self).height_spec() as usize,
                    },
                ]
            }),
    {
        let backup = self.scroll.1;
        if !self.bounded {
            self.scroll.1 = self.scroll.1 + amt;
        } else {
            let shifted: i128 = self.scroll.1 as i128 + amt as i128;
            let max_off: i128 = if self.height as i128 >= self.rect.height as i128 {
                self.height as i128 - self.rect.height as i128
            } else {
                0
            };
            let clamped: i128 = if shifted < 0 {
                0
            } else if shifted > max_off {
                max_off
            } else {
                shifted
            };
            self.scroll.1 = clamped as isize;
        }
        if self.scroll.1 != backup {
            let mut dirty: Vec<TextBufferRect> = Vec::new();
            dirty.push(TextBufferRect { x: 0, y: 0, width: self.width, height: self.height });
            self.dirty_regions = dirty;
        }
    }
}

impl TextBufferInterface for ScrollBox {
    open spec fn ifc_width(&self) -> int {
        self.width_spec()
    }

    open spec fn ifc_height(&self) -> int {
        self.height_spec()
    }

    open spec fn valid_pos(&self, x: int, y: int) -> bool {
        0 <= x < self.width_spec() && 0 <= y < self.height_spec()
    }

    open spec fn ifc_cell(&self, x: int, y: int) -> Cell {
        self.cells()[x + y * self.width_spec()]
    }

    open spec fn ifc_inv(&self) -> bool {
        self.inv()
    }

    open spec fn sets_kept(pre: Self, post: Self) -> bool {
        &&& post.rect_spec() == pre.rect_spec()
        &&& post.dirty_spec() == pre.dirty_spec()
        &&& post.scroll_spec() == pre.scroll_spec()
        &&& post.bounded_spec() == pre.bounded_spec()
    }

    open spec fn dirty_req(&self, rect: TextBufferRect) -> bool {
        true
    }

    open spec fn dirty_noted(pre: Self, post: Self, rect: TextBufferRect) -> bool {
        &&& post.rect_spec() == pre.rect_spec()
        &&& post.dirty_spec() == pre.dirty_spec().push(rect)
        &&& post.scroll_spec() == pre.scroll_spec()
        &&& post.bounded_spec() == pre.bounded_spec()
    }

    open spec fn clear_req(&self, rect: TextBufferRect) -> bool {
        rect.wf()
    }

    open spec fn index_spec(&self, x: int, y: int) -> int {
        x + y * self.width_spec()
    }

    open spec fn clear_local(&self, rect: TextBufferRect) -> Option<TextBufferRect> {
        Some(rect)
    }

    open spec fn clear_noted(pre: Self, post: Self, rect: TextBufferRect) -> bool {
        &&& post.rect_spec() == pre.rect_spec()
        &&& post.dirty_spec() == pre.dirty_spec().push(rect)
        &&& post.scroll_spec() == pre.scroll_spec()
        &&& post.bounded_spec() == pre.bounded_spec()
    }

    proof fn lemma_sets_kept_refl(a: Self) {
        assert(<ScrollBox as TextBufferInterface>::sets_kept(a, a));
    }

    proof fn lemma_sets_kept_trans(a: Self, b: Self, c: Self) {
        assert(<ScrollBox as TextBufferInterface>::sets_kept(a, c));
    }

    proof fn lemma_dirty_noted_after_sets(pre: Self, mid: Self, post: Self, rect: TextBufferRect) {
        assert(<ScrollBox as TextBufferInterface>::dirty_noted(pre, post, rect));
    }

    proof fn lemma_dirty_req_after_sets(pre: Self, post: Self, rect: TextBufferRect) {
        assert(<ScrollBox as TextBufferInterface>::dirty_req(&post, rect));
    }

    proof fn lemma_dirty_req_after_noted(
        pre: Self,
        post: Self,
        noted: TextBufferRect,
        rect: TextBufferRect,
    ) {
        assert(<ScrollBox as TextBufferInterface>::dirty_req(&post, rect));
    }

    proof fn lemma_dirty_req_after_cleared(
        pre: Self,
        post: Self,
        cleared: TextBufferRect,
        rect: TextBufferRect,
    ) {
        assert(<ScrollBox as TextBufferInterface>::dirty_req(&post, rect));
    }

    fn add_dirty_rect(&mut self, rect: TextBufferRect) {
        self.dirty_regions.push(rect);
    }

    fn index_of(&self, pos: TextBufferPos) -> (r: Option<usize>) {
        let total = self.internal_buffer.len();
        if 0 <= pos.x && pos.x < self.width as isize && 0 <= pos.y && pos.y < self.height as isize {
            proof {
                crate::buffer::lemma_grid_index_bounds(
                    self.width as int,
                    self.height as int,
                    pos.x as int,
                    pos.y as int,
                );
                assert(pos.x + pos.y * self.width_spec()
                    == <ScrollBox as TextBufferInterface>::index_spec(
                    self,
                    pos.x as int,
                    pos.y as int,
                ));
            }
            Some(pos.x as usize + pos.y as usize * self.width)
        } else {
            None
        }
    }

    fn inner_set_char(&mut self, pos: TextBufferPos, value: Cell) -> (r: bool) {
        let total = self.internal_buffer.len();
        if 0 <= pos.x && pos.x < self.width as isize && 0 <= pos.y && pos.y < self.height as isize {
            proof {
                crate::buffer::lemma_grid_index_bounds(
                    self.width as int,
                    self.height as int,
                    pos.x as int,
                    pos.y as int,
                );
            }
            let i = pos.x as usize + pos.y as usize * self.width;
            self.internal_buffer[i] = value;
            proof {
                assert forall|x: int, y: int| old(self).valid_pos(x, y) implies #[trigger] self
                    .ifc_cell(x, y) == (if x == pos.x as int && y == pos.y as int {
                    value
                } else {
                    old(self).ifc_cell(x, y)
                }) by {
                    crate::buffer::lemma_grid_index_bounds(self.width as int, self.height as int, x, y);
                    if x + y * self.width_spec() == i {
                        crate::buffer::lemma_grid_index_injective(
                            self.width as int,
                            x,
                            y,
                            pos.x as int,
                            pos.y as int,
                        );
                    }
                }
                assert(<ScrollBox as TextBufferInterface>::sets_kept(*old(self), *self));
            }
            true
        } else {
            proof {
                assert(<ScrollBox as TextBufferInterface>::sets_kept(*old(self), *self));
            }
            false
        }
    }

    fn clear_rect(&mut self, rect: TextBufferRect) {
        let right = rect.right();
        let bottom = rect.bottom();
        let mut x: isize = rect.x;
        while x < right
            invariant
                old(self).ifc_inv(),
                rect.wf(),
                right == rect.right_spec(),
                bottom == rect.bottom_spec(),
                rect.x <= x <= right || x == rect.x,
                self.inv(),
                <ScrollBox as TextBufferInterface>::sets_kept(*old(self), *self),
                self.width_spec() == old(self).width_spec(),
                self.height_spec() == old(self).height_spec(),
                forall|x0: int, y0: int|
                    old(self).valid_pos(x0, y0) ==> #[trigger] self.ifc_cell(x0, y0) == (
                    if rect.contains_point_spec(x0, y0) && x0 < x {
                        spec_blank_cell()
                    } else {
                        old(self).ifc_cell(x0, y0)
                    }),
            decreases right - x,
        {
            let mut y: isize = rect.y;
            while y < bottom
                invariant
                    old(self).ifc_inv(),
                    rect.wf(),
                    right == rect.right_spec(),
                    bottom == rect.bottom_spec(),
                    rect.x <= x < right,
                    rect.y <= y <= bottom || y == rect.y,
                    self.inv(),
                    <ScrollBox as TextBufferInterface>::sets_kept(*old(self), *self),
                    self.width_spec() == old(self).width_spec(),
                    self.height_spec() == old(self).height_spec(),
                    forall|x0: int, y0: int|
                        old(self).valid_pos(x0, y0) ==> #[trigger] self.ifc_cell(x0, y0) == (
                        if rect.contains_point_spec(x0, y0) && (x0 < x || (x0 == x && y0 < y)) {
                            spec_blank_cell()
                        } else {
                            old(self).ifc_cell(x0, y0)
                        }),
                decreases bottom - y,
            {
                let ghost before = *self;
                self.inner_set_char(TextBufferPos { x, y }, blank_cell());
                proof {
                    ScrollBox::lemma_sets_kept_trans(*old(self), before, *self);
                }
                y += 1;
            }
            x += 1;
        }
        let ghost mid = *self;
        self.dirty_regions.push(rect);
        proof {
            assert(<ScrollBox as TextBufferInterface>::clear_noted(*old(self), *self, rect));
            assert forall|x0: int, y0: int| old(self).valid_pos(x0, y0)
                implies #[trigger] self.ifc_cell(x0, y0) == (
            if rect.contains_point_spec(x0, y0) {
                spec_blank_cell()
            } else {
                old(self).ifc_cell(x0, y0)
            }) by {
                assert(self.ifc_cell(x0, y0) == mid.ifc_cell(x0, y0));
            }
        }
    }

    fn width(&self) -> (r: usize) {
        self.width
    }

    fn height(&self) -> (r: usize) {
        self.height
    }
}

impl ScrollBox {
    /// The offset actually used when drawing: re-clamped in bounded mode,
    /// the raw offset otherwise.
    pub open spec fn eff_scroll(&self) -> (int, int) {
        if self.bounded_spec() {
            (
                spec_clamped_scroll(
                    self.scroll_spec().0,
                    self.width_spec(),
                    self.rect_spec().width as int,
                ),
                spec_clamped_scroll(
                    self.scroll_spec().1,
                    self.height_spec(),
                    self.rect_spec().height as int,
                ),
            )
        } else {
            self.scroll_spec()
        }
    }

    /// The column of the parent surface where each drawn row segment
    /// starts: a negative offset shifts the destination, leaving a
    /// letterboxed left margin.
    pub open spec fn seg_dest_x(&self) -> int {
        if self.eff_scroll().0 >= 0 {
            self.rect_spec().x as int
        } else {
            self.rect_spec().x - self.eff_scroll().0
        }
    }

    /// The content column each drawn row segment starts at: a positive
    /// offset scrolls the content.
    pub open spec fn seg_src_col(&self) -> int {
        if self.eff_scroll().0 >= 0 {
            self.eff_scroll().0
        } else {
            0
        }
    }

    /// How many columns each row segment shows: bounded by the viewport
    /// room left of the margin and by the content past the source column.
    pub open spec fn seg_len(&self) -> int {
        let view_room = if self.eff_scroll().0 >= 0 {
            self.rect_spec().width as int
        } else {
            self.rect_spec().width + self.eff_scroll().0
        };
        let content_room = self.width_spec() - self.seg_src_col();
        let l = if view_room <= content_room {
            view_room
        } else {
            content_room
        };
        if l < 0 {
            0
        } else {
            l
        }
    }

    /// The rectangle one visible row's segment occupies on the parent
    /// surface.
    pub open spec fn row_write_rect(&self, row: int) -> TextBufferRect {
        TextBufferRect {
            x: self.seg_dest_x() as isize,
            y: (self.rect_spec().y + row) as isize,
            width: self.seg_len() as usize,
            height: 1,
        }
    }

    /// The cell the scroll box paints at a parent position, over the base
    /// left by its own clear of the viewport.
    pub open spec fn paints(&self, x: int, y: int, base: Cell) -> Cell {
        let cr = y - self.rect_spec().y + self.eff_scroll().1;
        if self.rect_spec().y <= y < self.rect_spec().bottom_spec() && 0 <= cr
            < self.height_spec() && self.seg_dest_x() <= x < self.seg_dest_x() + self.seg_len() {
            self.cells()[(self.seg_src_col() + (x - self.seg_dest_x())) + cr * self.width_spec()]
        } else {
            base
        }
    }
}

impl UIElement for ScrollBox {
    open spec fn ui_inv(&self) -> bool {
        self.inv()
    }

    open spec fn ui_dirty(&self) -> bool {
        self.dirty_spec().len() > 0
    }

    open spec fn ui_took(pre: Self, post: Self) -> bool {
        &&& post.rect_spec() == pre.rect_spec()
        &&& post.width_spec() == pre.width_spec()
        &&& post.height_spec() == pre.height_spec()
        &&& post.cells() == pre.cells()
        &&& post.dirty_spec() == pre.dirty_spec()
        &&& post.scroll_spec() == pre.scroll_spec()
        &&& post.bounded_spec() == pre.bounded_spec()
    }

    open spec fn ui_drew(pre: Self, post: Self) -> bool {
        &&& post.rect_spec() == pre.rect_spec()
        &&& post.width_spec() == pre.width_spec()
        &&& post.height_spec() == pre.height_spec()
        &&& post.cells() == pre.cells()
        &&& post.bounded_spec() == pre.bounded_spec()
        &&& post.scroll_spec() == pre.eff_scroll()
        &&& post.dirty_spec() == (if pre.eff_scroll() == pre.scroll_spec() {
            Seq::<TextBufferRect>::empty()
        } else {
            seq![
                TextBufferRect {
                    x: 0,
                    y: 0,
                    width: pre.width_spec() as usize,
                    height: pre.height_spec() as usize,
                },
            ]
        })
    }

    open spec fn ui_clears(&self) -> Option<TextBufferRect> {
        Some(self.rect_spec())
    }

    open spec fn ui_paints(&self, x: int, y: int, base: Cell) -> Cell {
        self.paints(x, y, base)
    }

    open spec fn ui_draw_req(&self, w: int, h: int) -> bool {
        true
    }

    open spec fn ui_writes(&self, r: TextBufferRect) -> bool {
        &&& self.seg_len() > 0
        &&& exists|row: int|
            {
                &&& 0 <= row < self.rect_spec().height
                &&& 0 <= row + self.eff_scroll().1 < self.height_spec()
                &&& r == #[trigger] self.row_write_rect(row)
            }
    }

    open spec fn ui_last_rect(&self) -> Option<TextBufferRect> {
        None
    }

    fn take_dirty(&mut self) -> (r: bool) {
        self.dirty_regions.len() > 0
    }

    fn ui_draw<S: TextBufferInterface>(&mut self, screen: &mut S) {
        let ghost sb0 = *old(self);
        let ghost scr0 = *old(screen);
        self.dirty_regions = Vec::new();
        screen.clear_rect(self.rect);
        let ghost after_clear = *screen;
        proof {
            assert forall|r: TextBufferRect| #[trigger] sb0.ui_writes(r)
                implies after_clear.dirty_req(r) by {
                S::lemma_dirty_req_after_cleared(scr0, after_clear, sb0.rect_spec(), r);
            }
        }
        self.scroll_horizontal(0);
        self.scroll_vertical(0);
        proof {
            assert(self.scroll_spec() == sb0.eff_scroll());
            assert(self.cells() == sb0.cells());
        }
        let ghost base_state = *screen;
        let eff_x = self.scroll.0;
        let eff_y = self.scroll.1;
        let view_w = self.rect.width;
        let view_h = self.rect.height;
        let content_w = self.width;
        let content_h = self.height;
        // The segment geometry shared by every row.
        let dest_x_w: i128 = if eff_x >= 0 {
            self.rect.x as i128
        } else {
            self.rect.x as i128 - eff_x as i128
        };
        let src_col_w: i128 = if eff_x >= 0 {
            eff_x as i128
        } else {
            0
        };
        let view_room: i128 = if eff_x >= 0 {
            view_w as i128
        } else {
            view_w as i128 + eff_x as i128
        };
        let content_room: i128 = content_w as i128 - src_col_w;
        let seg_raw: i128 = if view_room <= content_room {
            view_room
        } else {
            content_room
        };
        let seg: i128 = if seg_raw < 0 {
            0
        } else {
            seg_raw
        };
        proof {
            assert(dest_x_w == sb0.seg_dest_x());
            assert(src_col_w == sb0.seg_src_col());
            assert(seg == sb0.seg_len());
            assert(seg <= view_w && seg <= content_w);
        }
        let mut row_off: usize = 0;
        while row_off < view_h
            invariant
                sb0.inv(),
                scr0.ifc_inv(),
                forall|r: TextBufferRect| #[trigger] sb0.ui_writes(r) ==> screen.dirty_req(r),
                self.inv(),
                self.rect_spec() == sb0.rect_spec(),
                self.width_spec() == sb0.width_spec(),
                self.height_spec() == sb0.height_spec(),
                self.cells() == sb0.cells(),
                self.bounded_spec() == sb0.bounded_spec(),
                self.scroll_spec() == sb0.eff_scroll(),
                self.dirty_spec() == (if sb0.eff_scroll() == sb0.scroll_spec() {
                    Seq::<TextBufferRect>::empty()
                } else {
                    seq![
                        TextBufferRect {
                            x: 0,
                            y: 0,
                            width: sb0.width_spec() as usize,
                            height: sb0.height_spec() as usize,
                        },
                    ]
                }),
                eff_x as int == sb0.eff_scroll().0,
                eff_y as int == sb0.eff_scroll().1,
                view_w == sb0.rect_spec().width,
                view_h == sb0.rect_spec().height,
                content_w == sb0.width_spec(),
                content_h == sb0.height_spec(),
                dest_x_w == sb0.seg_dest_x(),
                src_col_w == sb0.seg_src_col(),
                seg == sb0.seg_len(),
                0 <= seg <= view_w,
                seg <= content_w,
                0 <= row_off <= view_h,
                base_state.ifc_inv(),
                base_state.ifc_width() == scr0.ifc_width(),
                base_state.ifc_height() == scr0.ifc_height(),
                forall|x: int, y: int| #[trigger] base_state.valid_pos(x, y) == scr0.valid_pos(
                    x,
                    y,
                ),
                forall|x: int, y: int|
                    scr0.valid_pos(x, y) ==> #[trigger] base_state.ifc_cell(x, y) == (match scr0
                        .clear_local(sb0.rect_spec()) {
                        Some(l) => {
                            if l.contains_point_spec(x, y) {
                                spec_blank_cell()
                            } else {
                                scr0.ifc_cell(x, y)
                            }
                        },
                        None => scr0.ifc_cell(x, y),
                    }),
                screen.ifc_inv(),
                screen.ifc_width() == scr0.ifc_width(),
                screen.ifc_height() == scr0.ifc_height(),
                forall|x: int, y: int| #[trigger] screen.valid_pos(x, y) == scr0.valid_pos(x, y),
                forall|x: int, y: int|
                    scr0.valid_pos(x, y) ==> #[trigger] screen.ifc_cell(x, y) == (
                    if sb0.rect_spec().y <= y < sb0.rect_spec().y + row_off && sb0.paints(
                        x,
                        y,
                        base_state.ifc_cell(x, y),
                    ) != base_state.ifc_cell(x, y) {
                        sb0.paints(x, y, base_state.ifc_cell(x, y))
                    } else {
                        base_state.ifc_cell(x, y)
                    }),
            decreases view_h - row_off,
        {
            let cr_w: i128 = row_off as i128 + eff_y as i128;
            let y_screen: isize = self.rect.y + row_off as isize;
            if 0 <= cr_w && cr_w < content_h as i128 && seg > 0 {
                let cr: usize = cr_w as usize;
                // Copy the visible slice of this content row.
                let seg_u: usize = seg as usize;
                let mut row_cells: Vec<Cell> = Vec::new();
                let mut j: usize = 0;
                while j < seg_u
                    invariant
                        self.inv(),
                        content_w == self.width_spec(),
                        content_h == self.height_spec(),
                        0 <= cr < content_h,
                        0 <= src_col_w,
                        seg_u == seg,
                        src_col_w + seg_u <= content_w,
                        0 <= j <= seg_u,
                        row_cells@.len() == j,
                        forall|t: int| 0 <= t < j ==> #[trigger] row_cells@[t] == self.cells()[(
                        src_col_w + t) + cr * content_w],
                    decreases seg_u - j,
                {
                    proof {
                        crate::buffer::lemma_grid_index_bounds(
                            content_w as int,
                            content_h as int,
                            src_col_w + j,
                            cr as int,
                        );
                    }
                    let c = self.internal_buffer[(src_col_w as usize + j) + cr * content_w];
                    row_cells.push(c);
                    j += 1;
                }
                let dest_x: isize = dest_x_w as isize;
                proof {
                    assert((TextBufferRect { x: dest_x, y: y_screen, width: seg_u, height: 1 })
                        == sb0.row_write_rect(row_off as int));
                    assert(sb0.ui_writes(
                        TextBufferRect { x: dest_x, y: y_screen, width: seg_u, height: 1 },
                    ));
                }
                let ghost scr_pre = *screen;
                let row_rect = screen.write_data(
                    TextBufferPos { x: dest_x, y: y_screen },
                    row_cells.as_slice(),
                );
                proof {
                    assert forall|x: int, y: int| scr0.valid_pos(x, y)
                        implies #[trigger] screen.ifc_cell(x, y) == (
                    if sb0.rect_spec().y <= y < sb0.rect_spec().y + row_off + 1 && sb0.paints(
                        x,
                        y,
                        base_state.ifc_cell(x, y),
                    ) != base_state.ifc_cell(x, y) {
                        sb0.paints(x, y, base_state.ifc_cell(x, y))
                    } else {
                        base_state.ifc_cell(x, y)
                    }) by {
                        assert(scr_pre.ifc_cell(x, y) == (
                        if sb0.rect_spec().y <= y < sb0.rect_spec().y + row_off && sb0.paints(
                            x,
                            y,
                            base_state.ifc_cell(x, y),
                        ) != base_state.ifc_cell(x, y) {
                            sb0.paints(x, y, base_state.ifc_cell(x, y))
                        } else {
                            base_state.ifc_cell(x, y)
                        }));
                    }
                    assert forall|r: TextBufferRect| #[trigger] sb0.ui_writes(r)
                        implies screen.dirty_req(r) by {
                        S::lemma_dirty_req_after_noted(scr_pre, *screen, row_rect, r);
                    }
                }
            } else {
                proof {
                    assert forall|x: int, y: int| scr0.valid_pos(x, y)
                        implies #[trigger] screen.ifc_cell(x, y) == (
                    if sb0.rect_spec().y <= y < sb0.rect_spec().y + row_off + 1 && sb0.paints(
                        x,
                        y,
                        base_state.ifc_cell(x, y),
                    ) != base_state.ifc_cell(x, y) {
                        sb0.paints(x, y, base_state.ifc_cell(x, y))
                    } else {
                        base_state.ifc_cell(x, y)
                    }) by {}
                }
            }
            row_off += 1;
        }
    }

    fn clear_last<S: TextBufferInterface>(&self, screen: &mut S) {
        // A draw repaints the whole viewport, so there is nothing to
        // clear between frames.
    }
}

} // verus!
