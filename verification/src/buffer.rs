//! The cell buffer: a dense grid of cells with coalescing dirty-region
//! tracking and the "prefer a full repaint" heuristic.
//!
//! Every mutation through the public write paths registers a dirty
//! rectangle covering at least the mutated cells; the dirty set is drained
//! once per frame by the compositor.

use vstd::prelude::*;

use crate::characters::{blank_cell, spec_blank_cell, spec_char_representable, spec_glyph_of_char,
    Cell, CharacterColor, VGAChar};
use crate::structs::{TextAlign, TextBufferPos, TextBufferRect};
use vstd::string::StrSliceExecFns;

verus! {

/// Whether inserting `new_rect` coalesces with an already-tracked
/// `old_rect`: one of the two contains the other.
pub open spec fn spec_dirty_match(old_rect: TextBufferRect, new_rect: TextBufferRect) -> bool {
    new_rect.contains_spec(old_rect) || old_rect.contains_spec(new_rect)
}

/// The coalescing insertion rule for the dirty-region sequence. Scanning in
/// order, the first tracked rectangle contained in `r` is overwritten in
/// place by `r`; failing that, if a tracked rectangle contains `r`, `r` is
/// absorbed; otherwise `r` is appended as a new independent region.
pub open spec fn spec_insert_dirty(s: Seq<TextBufferRect>, r: TextBufferRect) -> Seq<
    TextBufferRect,
>
    decreases s.len(),
{
    if s.len() == 0 {
        seq![r]
    } else if r.contains_spec(s[0]) {
        s.update(0, r)
    } else if s[0].contains_spec(r) {
        s
    } else {
        seq![s[0]] + spec_insert_dirty(s.drop_first(), r)
    }
}

/// Shape of the coalescing insertion, given the position of the first
/// tracked rectangle that matches `r` (or `i == s.len()` when none does):
/// an overwrite in place, an absorption, or an append.
pub proof fn lemma_insert_dirty_shape(s: Seq<TextBufferRect>, r: TextBufferRect, i: int)
    requires
        0 <= i <= s.len(),
        forall|j: int| 0 <= j < i ==> !spec_dirty_match(s[j], r),
        i < s.len() ==> spec_dirty_match(s[i], r),
    ensures
        i == s.len() ==> spec_insert_dirty(s, r) == s.push(r),
        i < s.len() && r.contains_spec(s[i]) ==> spec_insert_dirty(s, r) == s.update(i, r),
        i < s.len() && !r.contains_spec(s[i]) ==> spec_insert_dirty(s, r) == s,
    decreases s.len(),
{
    if s.len() == 0 {
        assert(spec_insert_dirty(s, r) =~= s.push(r));
    } else if i == 0 {
        if i < s.len() && !r.contains_spec(s[0]) {
            assert(s[0].contains_spec(r));
        }
    } else {
        assert(!spec_dirty_match(s[0], r));
        let t = s.drop_first();
        assert(forall|j: int| 0 <= j < i - 1 ==> !spec_dirty_match(#[trigger] t[j], r));
        lemma_insert_dirty_shape(t, r, i - 1);
        if i == s.len() {
            assert(spec_insert_dirty(s, r) =~= s.push(r));
        } else if r.contains_spec(s[i]) {
            assert(t[i - 1] == s[i]);
            assert(spec_insert_dirty(s, r) =~= s.update(i, r));
        } else {
            assert(spec_insert_dirty(s, r) =~= s);
        }
    }
}

/// Dirty-region coalescing law: when some tracked rectangle matches the
/// inserted one (either containing it or contained in it), the tracked
/// count stays the same; otherwise it grows by exactly one.
pub proof fn lemma_insert_dirty_count(s: Seq<TextBufferRect>, r: TextBufferRect)
    ensures
        (exists|j: int| 0 <= j < s.len() && spec_dirty_match(#[trigger] s[j], r))
            ==> spec_insert_dirty(s, r).len() == s.len(),
        !(exists|j: int| 0 <= j < s.len() && spec_dirty_match(#[trigger] s[j], r))
            ==> spec_insert_dirty(s, r).len() == s.len() + 1,
    decreases s.len(),
{
    if s.len() == 0 {
    } else if spec_dirty_match(s[0], r) {
    } else {
        let t = s.drop_first();
        lemma_insert_dirty_count(t, r);
        if exists|j: int| 0 <= j < s.len() && spec_dirty_match(#[trigger] s[j], r) {
            let j = choose|j: int| 0 <= j < s.len() && spec_dirty_match(#[trigger] s[j], r);
            assert(t[j - 1] == s[j]);
        } else {
            assert(forall|j: int| 0 <= j < t.len() ==> !spec_dirty_match(#[trigger] t[j], r))
                by {
                assert(forall|j: int|
                    0 <= j < t.len() ==> #[trigger] t[j] == s[j + 1]
                        && !spec_dirty_match(s[j + 1], r));
            }
        }
    }
}

/// Dirty-region coalescing law, absorption half: when some tracked
/// rectangle contains the inserted one and no tracked rectangle is
/// contained in it, the insertion is absorbed and the tracked set is
/// entirely unchanged. (When an earlier tracked rectangle is contained in
/// the inserted one, the scan overwrites that entry instead; the count is
/// still unchanged, per the counting law.)
pub proof fn lemma_insert_dirty_absorbed(s: Seq<TextBufferRect>, r: TextBufferRect)
    requires
        exists|j: int| 0 <= j < s.len() && (#[trigger] s[j]).contains_spec(r),
        forall|i: int| 0 <= i < s.len() ==> !r.contains_spec(#[trigger] s[i]),
    ensures
        spec_insert_dirty(s, r) == s,
    decreases s.len(),
{
    if s[0].contains_spec(r) {
    } else {
        let t = s.drop_first();
        let j = choose|j: int| 0 <= j < s.len() && (#[trigger] s[j]).contains_spec(r);
        assert(t[j - 1] == s[j]);
        assert(forall|i: int| 0 <= i < t.len() ==> #[trigger] t[i] == s[i + 1]);
        lemma_insert_dirty_absorbed(t, r);
        assert(spec_insert_dirty(s, r) =~= s);
    }
}

/// Coverage law of the dirty set: after the coalescing insertion, a cell is
/// covered by some tracked rectangle exactly when it was covered before or
/// lies in the inserted rectangle. This is what keeps every mutated cell
/// inside the dirty set until the next drain.
pub proof fn lemma_insert_dirty_covers(
    s: Seq<TextBufferRect>,
    r: TextBufferRect,
    x: int,
    y: int,
)
    ensures
        (exists|k: int|
            0 <= k < spec_insert_dirty(s, r).len() && (#[trigger] spec_insert_dirty(s, r)[k])
                .contains_point_spec(x, y)) <==> ((exists|j: int|
            0 <= j < s.len() && (#[trigger] s[j]).contains_point_spec(x, y))
            || r.contains_point_spec(x, y)),
    decreases s.len(),
{
    let out = spec_insert_dirty(s, r);
    if s.len() == 0 {
        assert(out[0] == r);
    } else if r.contains_spec(s[0]) {
        assert forall|k: int| 0 <= k < out.len() && (#[trigger] out[k]).contains_point_spec(x, y)
            implies ((exists|j: int|
            0 <= j < s.len() && (#[trigger] s[j]).contains_point_spec(x, y))
            || r.contains_point_spec(x, y)) by {
            if k != 0 {
                assert(s[k].contains_point_spec(x, y));
            }
        }
        if exists|j: int| 0 <= j < s.len() && (#[trigger] s[j]).contains_point_spec(x, y) {
            let j = choose|j: int|
                0 <= j < s.len() && (#[trigger] s[j]).contains_point_spec(x, y);
            if j == 0 {
                assert(out[0].contains_point_spec(x, y));
            } else {
                assert(out[j].contains_point_spec(x, y));
            }
        }
        if r.contains_point_spec(x, y) {
            assert(out[0].contains_point_spec(x, y));
        }
    } else if s[0].contains_spec(r) {
        if r.contains_point_spec(x, y) {
            assert(s[0].contains_point_spec(x, y));
        }
    } else {
        let t = s.drop_first();
        lemma_insert_dirty_covers(t, r, x, y);
        let sub = spec_insert_dirty(t, r);
        assert(out == seq![s[0]] + sub);
        assert forall|k: int| 0 <= k < out.len() && (#[trigger] out[k]).contains_point_spec(x, y)
            implies ((exists|j: int|
            0 <= j < s.len() && (#[trigger] s[j]).contains_point_spec(x, y))
            || r.contains_point_spec(x, y)) by {
            if k == 0 {
                assert(s[0].contains_point_spec(x, y));
            } else {
                assert(sub[k - 1].contains_point_spec(x, y));
            }
        }
        if exists|j: int| 0 <= j < s.len() && (#[trigger] s[j]).contains_point_spec(x, y) {
            let j = choose|j: int|
                0 <= j < s.len() && (#[trigger] s[j]).contains_point_spec(x, y);
            if j == 0 {
                assert(out[0].contains_point_spec(x, y));
            } else {
                assert(t[j - 1].contains_point_spec(x, y));
                let k = choose|k: int|
                    0 <= k < sub.len() && (#[trigger] sub[k]).contains_point_spec(x, y);
                assert(out[k + 1].contains_point_spec(x, y));
            }
        }
        if r.contains_point_spec(x, y) {
            let k = choose|k: int|
                0 <= k < sub.len() && (#[trigger] sub[k]).contains_point_spec(x, y);
            assert(out[k + 1].contains_point_spec(x, y));
        }
    }
}

/// A grid index `x + y * width` stays below `width * height`.
pub proof fn lemma_grid_index_bounds(w: int, h: int, x: int, y: int)
    requires
        0 <= x < w,
        0 <= y < h,
    ensures
        0 <= x + y * w < w * h,
{
    assert(0 <= x + y * w < w * h) by (nonlinear_arith)
        requires
            0 <= x < w,
            0 <= y < h,
    ;
}

/// Distinct in-bounds grid positions get distinct indices.
pub proof fn lemma_grid_index_injective(w: int, x1: int, y1: int, x2: int, y2: int)
    requires
        0 <= x1 < w,
        0 <= y1,
        0 <= x2 < w,
        0 <= y2,
        x1 + y1 * w == x2 + y2 * w,
    ensures
        x1 == x2 && y1 == y2,
{
    assert(x1 == x2 && y1 == y2) by (nonlinear_arith)
        requires
            0 <= x1 < w,
            0 <= y1,
            0 <= x2 < w,
            0 <= y2,
            x1 + y1 * w == x2 + y2 * w,
    ;
}

/// A vector of `n` blank cells.
fn blank_cells(n: usize) -> (r: Vec<Cell>)
    ensures
        r@.len() == n,
        forall|i: int| 0 <= i < n ==> r@[i] == spec_blank_cell(),
{
    let mut v: Vec<Cell> = Vec::new();
    let mut i: usize = 0;
    while i < n
        invariant
            i <= n,
            v@.len() == i,
            forall|j: int| 0 <= j < i ==> v@[j] == spec_blank_cell(),
        decreases n - i,
    {
        v.push(blank_cell());
        i += 1;
    }
    v
}

/// The cell buffer representing the whole screen.
#[derive(Clone)]
pub struct TextBufferScreen {
    width: usize,
    height: usize,
    data: Vec<Cell>,
    dirty_regions: Vec<TextBufferRect>,
    clear_optimization_heuristic: bool,
}

/// The run `data` was written at `(x0, y0)`: every in-bounds cell under the
/// run now holds the run's value, every other in-bounds cell is unchanged,
/// and the buffer's extent is unchanged.
pub open spec fn spec_run_written(
    pre: TextBufferScreen,
    post: TextBufferScreen,
    x0: int,
    y0: int,
    data: Seq<Cell>,
) -> bool {
    &&& post.width_spec() == pre.width_spec()
    &&& post.height_spec() == pre.height_spec()
    &&& forall|x: int, y: int|
        pre.in_bounds(x, y) ==> #[trigger] post.cell_spec(x, y) == (
        if y == y0 && x0 <= x < x0 + data.len() {
            data[x - x0]
        } else {
            pre.cell_spec(x, y)
        })
}

/// The cell each character of a string write produces.
pub open spec fn spec_string_cells(s: Seq<char>, color: CharacterColor) -> Seq<Cell> {
    s.map_values(|c: char| (VGAChar(spec_glyph_of_char(c).unwrap()), color))
}

/// The position of the first character of `s` that both lands on an
/// in-bounds cell (row `y` of a `w` by `h` grid, columns from `x0`) and
/// has no glyph, or `s.len()` when every in-bounds character encodes.
/// Characters falling outside the grid are skipped unencoded.
pub open spec fn spec_first_bad_visible_from(
    s: Seq<char>,
    i: int,
    x0: int,
    y: int,
    w: int,
    h: int,
) -> int
    decreases s.len() - i,
{
    if i < 0 || i >= s.len() {
        s.len() as int
    } else if 0 <= x0 + i < w && 0 <= y < h && !spec_char_representable(s[i]) {
        i
    } else {
        spec_first_bad_visible_from(s, i + 1, x0, y, w, h)
    }
}

/// The scan's position does not change while every earlier in-bounds
/// character encodes.
pub proof fn lemma_first_bad_visible_skip(s: Seq<char>, i: int, x0: int, y: int, w: int, h: int)
    requires
        0 <= i <= s.len(),
        forall|j: int|
            0 <= j < i && 0 <= x0 + j < w && 0 <= y < h ==> spec_char_representable(
                #[trigger] s[j],
            ),
    ensures
        spec_first_bad_visible_from(s, 0, x0, y, w, h) == spec_first_bad_visible_from(
            s,
            i,
            x0,
            y,
            w,
            h,
        ),
    decreases i,
{
    if i > 0 {
        lemma_first_bad_visible_skip(s, i - 1, x0, y, w, h);
        assert(spec_first_bad_visible_from(s, i - 1, x0, y, w, h) == spec_first_bad_visible_from(
            s,
            i,
            x0,
            y,
            w,
            h,
        ));
    }
}

impl TextBufferScreen {
    /// Well-formedness carries over any step that keeps the extent, the
    /// storage length and the dirty set.
    proof fn lemma_inv_preserved(pre: &TextBufferScreen, post: &TextBufferScreen)
        requires
            pre.inv(),
            post.width == pre.width,
            post.height == pre.height,
            post.data@.len() == pre.data@.len(),
            post.dirty_regions@ == pre.dirty_regions@,
        ensures
            post.inv(),
    {
        assert forall|k: int| 0 <= k < post.dirty_spec().len() implies (
        #[trigger] post.dirty_spec()[k]).wf() by {
            assert(post.dirty_regions@[k] == pre.dirty_regions@[k]);
            assert(pre.dirty_spec()[k].wf());
        }
    }

    /// Columns of the buffer.
    pub closed spec fn width_spec(&self) -> int {
        self.width as int
    }

    /// Rows of the buffer.
    pub closed spec fn height_spec(&self) -> int {
        self.height as int
    }

    /// The cell contents in row-major order.
    pub closed spec fn cells(&self) -> Seq<Cell> {
        self.data@
    }

    /// The tracked dirty rectangles, in insertion order.
    pub closed spec fn dirty_spec(&self) -> Seq<TextBufferRect> {
        self.dirty_regions@
    }

    /// The "prefer a full repaint" flag.
    pub closed spec fn flag_spec(&self) -> bool {
        self.clear_optimization_heuristic
    }

    /// Whether a position addresses a cell of the buffer.
    pub open spec fn in_bounds(&self, x: int, y: int) -> bool {
        0 <= x < self.width_spec() && 0 <= y < self.height_spec()
    }

    /// The cell at an in-bounds position.
    pub open spec fn cell_spec(&self, x: int, y: int) -> Cell {
        self.cells()[x + y * self.width_spec()]
    }

    /// Well-formedness: extent fits `isize`, storage matches the extent,
    /// and every tracked dirty rectangle is well formed.
    pub open spec fn inv(&self) -> bool {
        &&& 0 <= self.width_spec() <= isize::MAX
        &&& 0 <= self.height_spec() <= isize::MAX
        &&& self.cells().len() == self.width_spec() * self.height_spec()
        &&& forall|i: int|
            0 <= i < self.dirty_spec().len() ==> (#[trigger] self.dirty_spec()[i]).wf()
    }

    /// A fresh buffer: all cells blank, the whole screen dirty, and the
    /// full-repaint flag set.
    pub fn new(width: usize, height: usize) -> (r: TextBufferScreen)
        requires
            width <= isize::MAX,
            height <= isize::MAX,
            width * height <= usize::MAX,
        ensures
            r.inv(),
            r.width_spec() == width,
            r.height_spec() == height,
            forall|x: int, y: int| r.in_bounds(x, y) ==> #[trigger] r.cell_spec(x, y)
                == spec_blank_cell(),
            r.dirty_spec() == seq![
                TextBufferRect { x: 0, y: 0, width, height },
            ],
            r.flag_spec() == true,
    {
        let mut dirty: Vec<TextBufferRect> = Vec::new();
        dirty.push(TextBufferRect { x: 0, y: 0, width, height });
        let r = TextBufferScreen {
            width,
            height,
            data: blank_cells(width * height),
            dirty_regions: dirty,
            clear_optimization_heuristic: true,
        };
        proof {
            assert forall|x: int, y: int| r.in_bounds(x, y) implies #[trigger] r.cell_spec(x, y)
                == spec_blank_cell() by {
                lemma_grid_index_bounds(width as int, height as int, x, y);
            }
        }
        r
    }

    /// The rectangle covering the whole screen.
    pub fn screen_rect(&self) -> (r: TextBufferRect)
        ensures
            r.x == 0,
            r.y == 0,
            r.width == self.width_spec(),
            r.height == self.height_spec(),
    {
        TextBufferRect { x: 0, y: 0, width: self.width, height: self.height }
    }

    /// Track a dirty rectangle under the coalescing insertion rule.
    pub fn add_dirty_rect(&mut self, rect: TextBufferRect)
        requires
            old(self).inv(),
            rect.wf(),
        ensures
            final(self).inv(),
            final(self).dirty_spec() == spec_insert_dirty(old(self).dirty_spec(), rect),
            final(self).cells() == old(self).cells(),
            final(self).width_spec() == old(self).width_spec(),
            final(self).height_spec() == old(self).height_spec(),
            final(self).flag_spec() == old(self).flag_spec(),
    {
        let ghost s = self.dirty_regions@;
        let n = self.dirty_regions.len();
        let mut i: usize = 0;
        while i < n
            invariant
                old(self).inv(),
                rect.wf(),
                s == old(self).dirty_spec(),
                0 <= i <= n,
                n == s.len(),
                self.width == old(self).width,
                self.height == old(self).height,
                self.data == old(self).data,
                self.clear_optimization_heuristic == old(self).clear_optimization_heuristic,
                self.dirty_regions@ == s,
                forall|j: int| 0 <= j < i ==> !spec_dirty_match(#[trigger] s[j], rect),
            decreases n - i,
        {
            let old_rect = self.dirty_regions[i];
            if rect.contains(&old_rect) {
                self.dirty_regions[i] = rect;
                proof {
                    lemma_insert_dirty_shape(s, rect, i as int);
                    assert forall|k: int| 0 <= k < self.dirty_regions@.len() implies (
                    #[trigger] self.dirty_regions@[k]).wf() by {
                        if k != i {
                            assert(self.dirty_regions@[k] == old(self).dirty_spec()[k]);
                        }
                    }
                }
                return;
            } else if old_rect.contains(&rect) {
                proof {
                    lemma_insert_dirty_shape(s, rect, i as int);
                }
                return;
            }
            i += 1;
        }
        self.dirty_regions.push(rect);
        proof {
            lemma_insert_dirty_shape(s, rect, n as int);
        }
    }

    /// The storage index of the cell at `pos`, or `None` when `pos` is out
    /// of bounds.
    fn index_of(&self, pos: TextBufferPos) -> (r: Option<usize>)
        requires
            self.inv(),
        ensures
            match r {
                Some(i) => self.in_bounds(pos.x as int, pos.y as int) && i == pos.x + pos.y
                    * self.width_spec() && i < self.cells().len(),
                None => !self.in_bounds(pos.x as int, pos.y as int),
            },
    {
        let total = self.data.len();
        if 0 <= pos.x && pos.x < self.width as isize && 0 <= pos.y && pos.y < self.height as isize {
            proof {
                lemma_grid_index_bounds(
                    self.width as int,
                    self.height as int,
                    pos.x as int,
                    pos.y as int,
                );
            }
            Some(pos.x as usize + pos.y as usize * self.width)
        } else {
            None
        }
    }

    /// Overwrite the cell at `pos` when it is in bounds; no dirty rectangle
    /// is registered.
    fn inner_set_char(&mut self, pos: TextBufferPos, value: Cell) -> (r: bool)
        requires
            old(self).inv(),
        ensures
            final(self).inv(),
            r == old(self).in_bounds(pos.x as int, pos.y as int),
            final(self).width_spec() == old(self).width_spec(),
            final(self).height_spec() == old(self).height_spec(),
            final(self).dirty_spec() == old(self).dirty_spec(),
            final(self).flag_spec() == old(self).flag_spec(),
            forall|x: int, y: int|
                old(self).in_bounds(x, y) ==> #[trigger] final(self).cell_spec(x, y) == (
                if x == pos.x as int && y == pos.y as int {
                    value
                } else {
                    old(self).cell_spec(x, y)
                }),
    {
        match self.index_of(pos) {
            Some(i) => {
                self.data[i] = value;
                proof {
                    TextBufferScreen::lemma_inv_preserved(old(self), self);
                    assert forall|x: int, y: int| old(self).in_bounds(x, y) implies #[trigger] self
                        .cell_spec(x, y) == (if x == pos.x as int && y == pos.y as int {
                        value
                    } else {
                        old(self).cell_spec(x, y)
                    }) by {
                        lemma_grid_index_bounds(
                            self.width as int,
                            self.height as int,
                            x,
                            y,
                        );
                        if x + y * self.width_spec() == i {
                            lemma_grid_index_injective(
                                self.width as int,
                                x,
                                y,
                                pos.x as int,
                                pos.y as int,
                            );
                        }
                    }
                }
                true
            },
            None => false,
        }
    }

    /// Overwrite one cell, registering a one-cell dirty rectangle (which is
    /// registered even when `pos` is out of bounds, matching the write
    /// paths' use of the requested extent). Returns whether the position
    /// was in bounds. Prefer the run-oriented write operations: per-cell
    /// writes produce one dirty rectangle each.
    pub fn mut_char(&mut self, pos: TextBufferPos, value: Cell) -> (r: bool)
        requires
            old(self).inv(),
            pos.x < isize::MAX,
            pos.y < isize::MAX,
        ensures
            final(self).inv(),
            r == old(self).in_bounds(pos.x as int, pos.y as int),
            final(self).width_spec() == old(self).width_spec(),
            final(self).height_spec() == old(self).height_spec(),
            final(self).flag_spec() == old(self).flag_spec(),
            final(self).dirty_spec() == spec_insert_dirty(
                old(self).dirty_spec(),
                TextBufferRect { x: pos.x, y: pos.y, width: 1, height: 1 },
            ),
            forall|x: int, y: int|
                old(self).in_bounds(x, y) ==> #[trigger] final(self).cell_spec(x, y) == (
                if x == pos.x as int && y == pos.y as int {
                    value
                } else {
                    old(self).cell_spec(x, y)
                }),
    {
        self.add_dirty_rect(TextBufferRect { x: pos.x, y: pos.y, width: 1, height: 1 });
        self.inner_set_char(pos, value)
    }

    /// The cell at `pos`, or `None` when `pos` is out of bounds.
    pub fn char_ref(&self, pos: TextBufferPos) -> (r: Option<&Cell>)
        requires
            self.inv(),
        ensures
            match r {
                Some(c) => self.in_bounds(pos.x as int, pos.y as int) && *c == self.cell_spec(
                    pos.x as int,
                    pos.y as int,
                ),
                None => !self.in_bounds(pos.x as int, pos.y as int),
            },
    {
        match self.index_of(pos) {
            Some(i) => Some(&self.data[i]),
            None => None,
        }
    }

    /// Drain the dirty set: return the tracked rectangles and leave the set
    /// empty.
    pub fn take_dirty(&mut self) -> (r: Vec<TextBufferRect>)
        requires
            old(self).inv(),
        ensures
            final(self).inv(),
            r@ == old(self).dirty_spec(),
            final(self).dirty_spec() == Seq::<TextBufferRect>::empty(),
            final(self).cells() == old(self).cells(),
            final(self).width_spec() == old(self).width_spec(),
            final(self).height_spec() == old(self).height_spec(),
            final(self).flag_spec() == old(self).flag_spec(),
    {
        let mut result: Vec<TextBufferRect> = Vec::new();
        core::mem::swap(&mut self.dirty_regions, &mut result);
        result
    }

    /// Read the full-repaint flag and reset it.
    pub fn get_and_clear_optimization_flag(&mut self) -> (r: bool)
        requires
            old(self).inv(),
        ensures
            final(self).inv(),
            r == old(self).flag_spec(),
            final(self).flag_spec() == false,
            final(self).cells() == old(self).cells(),
            final(self).dirty_spec() == old(self).dirty_spec(),
            final(self).width_spec() == old(self).width_spec(),
            final(self).height_spec() == old(self).height_spec(),
    {
        let backup = self.clear_optimization_heuristic;
        self.clear_optimization_heuristic = false;
        proof {
            TextBufferScreen::lemma_inv_preserved(old(self), self);
        }
        backup
    }

    /// Columns of the buffer.
    pub fn width(&self) -> (r: usize)
        ensures
            r == self.width_spec(),
    {
        self.width
    }

    /// Rows of the buffer.
    pub fn height(&self) -> (r: usize)
        ensures
            r == self.height_spec(),
    {
        self.height
    }
}

impl TextBufferScreen {
    /// Clear a rectangle: every in-bounds cell under `rect` becomes blank,
    /// `rect` is registered dirty, and when the cleared area is at least a
    /// quarter of the screen area the full-repaint flag is set.
    pub fn clear_rect(&mut self, rect: TextBufferRect)
        requires
            old(self).inv(),
            rect.wf(),
        ensures
            final(self).inv(),
            final(self).width_spec() == old(self).width_spec(),
            final(self).height_spec() == old(self).height_spec(),
            forall|x: int, y: int|
                old(self).in_bounds(x, y) ==> #[trigger] final(self).cell_spec(x, y) == (
                if rect.contains_point_spec(x, y) {
                    spec_blank_cell()
                } else {
                    old(self).cell_spec(x, y)
                }),
            final(self).flag_spec() == (old(self).flag_spec() || old(self).width_spec() * old(
                self,
            ).height_spec() <= 4 * rect.area_spec()),
            final(self).dirty_spec() == spec_insert_dirty(old(self).dirty_spec(), rect),
    {
        let right = rect.right();
        let bottom = rect.bottom();
        let mut x: isize = rect.x;
        while x < right
            invariant
                old(self).inv(),
                rect.wf(),
                right == rect.right_spec(),
                bottom == rect.bottom_spec(),
                rect.x <= x <= right || x == rect.x,
                self.inv(),
                self.width_spec() == old(self).width_spec(),
                self.height_spec() == old(self).height_spec(),
                self.dirty_spec() == old(self).dirty_spec(),
                self.flag_spec() == old(self).flag_spec(),
                forall|x0: int, y0: int|
                    old(self).in_bounds(x0, y0) ==> #[trigger] self.cell_spec(x0, y0) == (
                    if rect.contains_point_spec(x0, y0) && x0 < x {
                        spec_blank_cell()
                    } else {
                        old(self).cell_spec(x0, y0)
                    }),
            decreases right - x,
        {
            let mut y: isize = rect.y;
            while y < bottom
                invariant
                    old(self).inv(),
                    rect.wf(),
                    right == rect.right_spec(),
                    bottom == rect.bottom_spec(),
                    rect.x <= x < right,
                    rect.y <= y <= bottom || y == rect.y,
                    self.inv(),
                    self.width_spec() == old(self).width_spec(),
                    self.height_spec() == old(self).height_spec(),
                    self.dirty_spec() == old(self).dirty_spec(),
                    self.flag_spec() == old(self).flag_spec(),
                    forall|x0: int, y0: int|
                        old(self).in_bounds(x0, y0) ==> #[trigger] self.cell_spec(x0, y0) == (
                        if rect.contains_point_spec(x0, y0) && (x0 < x || (x0 == x && y0 < y)) {
                            spec_blank_cell()
                        } else {
                            old(self).cell_spec(x0, y0)
                        }),
                decreases bottom - y,
            {
                self.inner_set_char(TextBufferPos { x, y }, blank_cell());
                y += 1;
            }
            x += 1;
        }
        let ghost mid = *self;
        let total = self.data.len();
        let screen_area: u128 = self.width as u128 * self.height as u128;
        proof {
            assert(screen_area == total);
            assert(rect.width as int * rect.height as int <= u128::MAX) by (nonlinear_arith)
                requires
                    0 <= rect.width <= u64::MAX,
                    0 <= rect.height <= u64::MAX,
            ;
        }
        let rect_area: u128 = rect.width as u128 * rect.height as u128;
        let quarter_hit: bool = if rect_area >= screen_area {
            true
        } else {
            screen_area <= 4 * rect_area
        };
        if quarter_hit {
            self.clear_optimization_heuristic = true;
            proof {
                TextBufferScreen::lemma_inv_preserved(old(self), self);
            }
        }
        self.add_dirty_rect(rect);
        proof {
            assert forall|x0: int, y0: int| old(self).in_bounds(x0, y0)
                implies #[trigger] self.cell_spec(x0, y0) == (
            if rect.contains_point_spec(x0, y0) {
                spec_blank_cell()
            } else {
                old(self).cell_spec(x0, y0)
            }) by {
                assert(self.cell_spec(x0, y0) == mid.cell_spec(x0, y0));
            }
        }
    }

    /// Write a run of glyphs in one color at `pos`. Out-of-bounds cells of
    /// the run are dropped; the requested extent is registered dirty.
    pub fn write_text(&mut self, pos: TextBufferPos, text: &[VGAChar], color: CharacterColor) -> (r:
        TextBufferRect)
        requires
            old(self).inv(),
            text@.len() <= isize::MAX,
            pos.x + text@.len() <= isize::MAX,
            pos.y < isize::MAX,
        ensures
            final(self).inv(),
            r == (TextBufferRect { x: pos.x, y: pos.y, width: text@.len() as usize, height: 1 }),
            spec_run_written(
                *old(self),
                *final(self),
                pos.x as int,
                pos.y as int,
                text@.map_values(|c: VGAChar| (c, color)),
            ),
            final(self).dirty_spec() == spec_insert_dirty(old(self).dirty_spec(), r),
            final(self).flag_spec() == old(self).flag_spec(),
    {
        let ghost data = text@.map_values(|c: VGAChar| (c, color));
        let mut i: usize = 0;
        while i < text.len()
            invariant
                old(self).inv(),
                text@.len() <= isize::MAX,
                pos.x + text@.len() <= isize::MAX,
                0 <= i <= text@.len(),
                data == text@.map_values(|c: VGAChar| (c, color)),
                self.inv(),
                self.width_spec() == old(self).width_spec(),
                self.height_spec() == old(self).height_spec(),
                self.dirty_spec() == old(self).dirty_spec(),
                self.flag_spec() == old(self).flag_spec(),
                forall|x0: int, y0: int|
                    old(self).in_bounds(x0, y0) ==> #[trigger] self.cell_spec(x0, y0) == (
                    if y0 == pos.y as int && pos.x <= x0 < pos.x + i {
                        data[x0 - pos.x]
                    } else {
                        old(self).cell_spec(x0, y0)
                    }),
            decreases text@.len() - i,
        {
            let c = text[i];
            self.inner_set_char(TextBufferPos { x: pos.x + i as isize, y: pos.y }, (c, color));
            i += 1;
        }
        let ghost mid = *self;
        let rect = TextBufferRect::new(pos.x, pos.y, text.len(), 1);
        self.add_dirty_rect(rect);
        proof {
            assert forall|x0: int, y0: int| old(self).in_bounds(x0, y0)
                implies #[trigger] self.cell_spec(x0, y0) == (
            if y0 == pos.y as int && pos.x <= x0 < pos.x + data.len() {
                data[x0 - pos.x]
            } else {
                old(self).cell_spec(x0, y0)
            }) by {
                assert(self.cell_spec(x0, y0) == mid.cell_spec(x0, y0));
            }
        }
        rect
    }

    /// Write a run of glyphs with the anchor shifted per alignment.
    pub fn write_text_align(
        &mut self,
        pos: TextBufferPos,
        text: &[VGAChar],
        color: CharacterColor,
        align: TextAlign,
    ) -> (r: TextBufferRect)
        requires
            old(self).inv(),
            align.align_req(pos, text@.len() as int),
            text@.len() <= isize::MAX,
            align.align_spec(pos, text@.len() as int).x + text@.len() <= isize::MAX,
            pos.y < isize::MAX,
        ensures
            final(self).inv(),
            r == (TextBufferRect {
                x: align.align_spec(pos, text@.len() as int).x,
                y: pos.y,
                width: text@.len() as usize,
                height: 1,
            }),
            spec_run_written(
                *old(self),
                *final(self),
                align.align_spec(pos, text@.len() as int).x as int,
                pos.y as int,
                text@.map_values(|c: VGAChar| (c, color)),
            ),
            final(self).dirty_spec() == spec_insert_dirty(old(self).dirty_spec(), r),
            final(self).flag_spec() == old(self).flag_spec(),
    {
        let p = align.align_text(pos, text.len());
        self.write_text(p, text, color)
    }

    /// Write a string at `pos`. Each character is encoded only where it
    /// lands on a cell of the buffer: out-of-bounds characters are
    /// silently dropped unencoded, clipping being the common case. On the
    /// first in-bounds character outside the representable set the write
    /// stops and that character comes back as the error, with the cells
    /// already written left in place and nothing registered dirty.
    pub fn write_string(&mut self, pos: TextBufferPos, text: &str, color: CharacterColor) -> (r:
        Result<TextBufferRect, char>)
        requires
            old(self).inv(),
            text@.len() <= isize::MAX,
            pos.x + text@.len() <= isize::MAX,
            pos.y < isize::MAX,
        ensures
            final(self).inv(),
            final(self).flag_spec() == old(self).flag_spec(),
            match r {
                Ok(rect) => {
                    &&& spec_first_bad_visible_from(
                        text@,
                        0,
                        pos.x as int,
                        pos.y as int,
                        old(self).width_spec(),
                        old(self).height_spec(),
                    ) == text@.len()
                    &&& forall|i: int|
                        0 <= i < text@.len() && old(self).in_bounds(pos.x + i, pos.y as int)
                            ==> spec_char_representable(#[trigger] text@[i])
                    &&& rect == (TextBufferRect {
                        x: pos.x,
                        y: pos.y,
                        width: text@.len() as usize,
                        height: 1,
                    })
                    &&& spec_run_written(
                        *old(self),
                        *final(self),
                        pos.x as int,
                        pos.y as int,
                        spec_string_cells(text@, color),
                    )
                    &&& final(self).dirty_spec() == spec_insert_dirty(old(self).dirty_spec(), rect)
                },
                Err(c) => {
                    let k = spec_first_bad_visible_from(
                        text@,
                        0,
                        pos.x as int,
                        pos.y as int,
                        old(self).width_spec(),
                        old(self).height_spec(),
                    );
                    &&& 0 <= k < text@.len()
                    &&& c == text@[k]
                    &&& !spec_char_representable(c)
                    &&& old(self).in_bounds(pos.x + k, pos.y as int)
                    &&& final(self).width_spec() == old(self).width_spec()
                    &&& final(self).height_spec() == old(self).height_spec()
                    &&& forall|x: int, y: int|
                        old(self).in_bounds(x, y) ==> #[trigger] final(self).cell_spec(x, y) == (
                        if y == pos.y as int && pos.x <= x < pos.x + k {
                            spec_string_cells(text@, color)[x - pos.x]
                        } else {
                            old(self).cell_spec(x, y)
                        })
                    &&& final(self).dirty_spec() == old(self).dirty_spec()
                },
            },
    {
        let ghost s = text@;
        let ghost w0 = old(self).width_spec();
        let ghost h0 = old(self).height_spec();
        let n = text.unicode_len();
        let mut i: usize = 0;
        while i < n
            invariant
                old(self).inv(),
                s == text@,
                n == s.len(),
                s.len() <= isize::MAX,
                pos.x + s.len() <= isize::MAX,
                0 <= i <= n,
                w0 == old(self).width_spec(),
                h0 == old(self).height_spec(),
                forall|j: int|
                    0 <= j < i && old(self).in_bounds(pos.x + j, pos.y as int)
                        ==> spec_char_representable(#[trigger] s[j]),
                self.inv(),
                self.width_spec() == old(self).width_spec(),
                self.height_spec() == old(self).height_spec(),
                self.dirty_spec() == old(self).dirty_spec(),
                self.flag_spec() == old(self).flag_spec(),
                forall|x0: int, y0: int|
                    old(self).in_bounds(x0, y0) ==> #[trigger] self.cell_spec(x0, y0) == (
                    if y0 == pos.y as int && pos.x <= x0 < pos.x + i {
                        spec_string_cells(s, color)[x0 - pos.x]
                    } else {
                        old(self).cell_spec(x0, y0)
                    }),
            decreases n - i,
        {
            let c = text.get_char(i);
            let p = TextBufferPos { x: pos.x + i as isize, y: pos.y };
            match self.index_of(p) {
                Some(_) => {
                    match VGAChar::from_char(c) {
                        Ok(g) => {
                            self.inner_set_char(p, (g, color));
                        },
                        Err(e) => {
                            proof {
                                lemma_first_bad_visible_skip(
                                    s,
                                    i as int,
                                    pos.x as int,
                                    pos.y as int,
                                    w0,
                                    h0,
                                );
                                assert(spec_first_bad_visible_from(
                                    s,
                                    0,
                                    pos.x as int,
                                    pos.y as int,
                                    w0,
                                    h0,
                                ) == i as int);
                            }
                            return Err(e);
                        },
                    }
                },
                None => {},
            }
            i += 1;
        }
        proof {
            lemma_first_bad_visible_skip(s, n as int, pos.x as int, pos.y as int, w0, h0);
            assert(spec_first_bad_visible_from(s, n as int, pos.x as int, pos.y as int, w0, h0)
                == s.len());
        }
        let ghost mid = *self;
        let rect = TextBufferRect::new(pos.x, pos.y, n, 1);
        self.add_dirty_rect(rect);
        proof {
            assert forall|x0: int, y0: int| old(self).in_bounds(x0, y0)
                implies #[trigger] self.cell_spec(x0, y0) == (
            if y0 == pos.y as int && pos.x <= x0 < pos.x + s.len() {
                spec_string_cells(s, color)[x0 - pos.x]
            } else {
                old(self).cell_spec(x0, y0)
            }) by {
                assert(self.cell_spec(x0, y0) == mid.cell_spec(x0, y0));
            }
        }
        Ok(rect)
    }

    /// Write a string with the anchor shifted per alignment, the shift
    /// taken from the string's character count.
    pub fn write_string_align(
        &mut self,
        pos: TextBufferPos,
        text: &str,
        color: CharacterColor,
        align: TextAlign,
    ) -> (r: Result<TextBufferRect, char>)
        requires
            old(self).inv(),
            align.align_req(pos, text@.len() as int),
            text@.len() <= isize::MAX,
            align.align_spec(pos, text@.len() as int).x + text@.len() <= isize::MAX,
            pos.y < isize::MAX,
        ensures
            final(self).inv(),
            final(self).flag_spec() == old(self).flag_spec(),
            match r {
                Ok(rect) => {
                    &&& spec_first_bad_visible_from(
                        text@,
                        0,
                        align.align_spec(pos, text@.len() as int).x as int,
                        pos.y as int,
                        old(self).width_spec(),
                        old(self).height_spec(),
                    ) == text@.len()
                    &&& rect == (TextBufferRect {
                        x: align.align_spec(pos, text@.len() as int).x,
                        y: pos.y,
                        width: text@.len() as usize,
                        height: 1,
                    })
                    &&& spec_run_written(
                        *old(self),
                        *final(self),
                        align.align_spec(pos, text@.len() as int).x as int,
                        pos.y as int,
                        spec_string_cells(text@, color),
                    )
                    &&& final(self).dirty_spec() == spec_insert_dirty(old(self).dirty_spec(), rect)
                },
                Err(c) => {
                    let k = spec_first_bad_visible_from(
                        text@,
                        0,
                        align.align_spec(pos, text@.len() as int).x as int,
                        pos.y as int,
                        old(self).width_spec(),
                        old(self).height_spec(),
                    );
                    &&& 0 <= k < text@.len()
                    &&& c == text@[k]
                    &&& !spec_char_representable(c)
                    &&& old(self).in_bounds(
                        align.align_spec(pos, text@.len() as int).x + k,
                        pos.y as int,
                    )
                    &&& final(self).width_spec() == old(self).width_spec()
                    &&& final(self).height_spec() == old(self).height_spec()
                    &&& forall|x: int, y: int|
                        old(self).in_bounds(x, y) ==> #[trigger] final(self).cell_spec(x, y) == (
                        if y == pos.y as int && align.align_spec(pos, text@.len() as int).x <= x
                            < align.align_spec(pos, text@.len() as int).x + k {
                            spec_string_cells(text@, color)[x - align.align_spec(
                                pos,
                                text@.len() as int,
                            ).x]
                        } else {
                            old(self).cell_spec(x, y)
                        })
                    &&& final(self).dirty_spec() == old(self).dirty_spec()
                },
            },
    {
        let n = text.unicode_len();
        let p = align.align_text(pos, n);
        self.write_string(p, text, color)
    }

    /// Write a run of pre-colored cells at `pos`. Out-of-bounds cells of
    /// the run are dropped; the requested extent is registered dirty.
    pub fn write_data(&mut self, pos: TextBufferPos, text: &[Cell]) -> (r: TextBufferRect)
        requires
            old(self).inv(),
            text@.len() <= isize::MAX,
            pos.x + text@.len() <= isize::MAX,
            pos.y < isize::MAX,
        ensures
            final(self).inv(),
            r == (TextBufferRect { x: pos.x, y: pos.y, width: text@.len() as usize, height: 1 }),
            spec_run_written(*old(self), *final(self), pos.x as int, pos.y as int, text@),
            final(self).dirty_spec() == spec_insert_dirty(old(self).dirty_spec(), r),
            final(self).flag_spec() == old(self).flag_spec(),
    {
        let mut i: usize = 0;
        while i < text.len()
            invariant
                old(self).inv(),
                text@.len() <= isize::MAX,
                pos.x + text@.len() <= isize::MAX,
                0 <= i <= text@.len(),
                self.inv(),
                self.width_spec() == old(self).width_spec(),
                self.height_spec() == old(self).height_spec(),
                self.dirty_spec() == old(self).dirty_spec(),
                self.flag_spec() == old(self).flag_spec(),
                forall|x0: int, y0: int|
                    old(self).in_bounds(x0, y0) ==> #[trigger] self.cell_spec(x0, y0) == (
                    if y0 == pos.y as int && pos.x <= x0 < pos.x + i {
                        text@[x0 - pos.x]
                    } else {
                        old(self).cell_spec(x0, y0)
                    }),
            decreases text@.len() - i,
        {
            let c = text[i];
            self.inner_set_char(TextBufferPos { x: pos.x + i as isize, y: pos.y }, c);
            i += 1;
        }
        let ghost mid = *self;
        let rect = TextBufferRect::new(pos.x, pos.y, text.len(), 1);
        self.add_dirty_rect(rect);
        proof {
            assert forall|x0: int, y0: int| old(self).in_bounds(x0, y0)
                implies #[trigger] self.cell_spec(x0, y0) == (
            if y0 == pos.y as int && pos.x <= x0 < pos.x + text@.len() {
                text@[x0 - pos.x]
            } else {
                old(self).cell_spec(x0, y0)
            }) by {
                assert(self.cell_spec(x0, y0) == mid.cell_spec(x0, y0));
            }
        }
        rect
    }

    /// Write a run of pre-colored cells with the anchor shifted per
    /// alignment.
    pub fn write_data_align(
        &mut self,
        pos: TextBufferPos,
        text: &[Cell],
        align: TextAlign,
    ) -> (r: TextBufferRect)
        requires
            old(self).inv(),
            align.align_req(pos, text@.len() as int),
            text@.len() <= isize::MAX,
            align.align_spec(pos, text@.len() as int).x + text@.len() <= isize::MAX,
            pos.y < isize::MAX,
        ensures
            final(self).inv(),
            r == (TextBufferRect {
                x: align.align_spec(pos, text@.len() as int).x,
                y: pos.y,
                width: text@.len() as usize,
                height: 1,
            }),
            spec_run_written(
                *old(self),
                *final(self),
                align.align_spec(pos, text@.len() as int).x as int,
                pos.y as int,
                text@,
            ),
            final(self).dirty_spec() == spec_insert_dirty(old(self).dirty_spec(), r),
            final(self).flag_spec() == old(self).flag_spec(),
    {
        let p = align.align_text(pos, text.len());
        self.write_data(p, text)
    }

    /// Resize the buffer: the overlapping top-left sub-rectangle of the old
    /// content is kept, everything else becomes blank, and the whole new
    /// extent is the one tracked dirty rectangle.
    pub fn resize_buffer(&mut self, width: usize, height: usize)
        requires
            old(self).inv(),
            width <= isize::MAX,
            height <= isize::MAX,
            width * height <= usize::MAX,
        ensures
            final(self).inv(),
            final(self).width_spec() == width,
            final(self).height_spec() == height,
            final(self).flag_spec() == old(self).flag_spec(),
            final(self).dirty_spec() == seq![
                TextBufferRect { x: 0, y: 0, width, height },
            ],
            forall|x: int, y: int|
                final(self).in_bounds(x, y) ==> #[trigger] final(self).cell_spec(x, y) == (
                if old(self).in_bounds(x, y) {
                    old(self).cell_spec(x, y)
                } else {
                    spec_blank_cell()
                }),
    {
        let mut new_data = blank_cells(width * height);
        let ghost dlen = self.data@.len();
        proof {
            assert(dlen <= usize::MAX) by {
                assert(dlen == vstd::std_specs::vec::spec_vec_len(&self.data));
            }
        }
        let w_copy = if self.width < width {
            self.width
        } else {
            width
        };
        let h_copy = if self.height < height {
            self.height
        } else {
            height
        };
        proof {
            assert forall|x0: int, y0: int| 0 <= x0 < width && 0 <= y0 < height
                implies #[trigger] new_data@[x0 + y0 * width] == spec_blank_cell() by {
                lemma_grid_index_bounds(width as int, height as int, x0, y0);
            }
        }
        let mut y: usize = 0;
        while y < h_copy
            invariant
                self == old(self),
                self.inv(),
                self.data@.len() <= usize::MAX,
                w_copy == vstd::math::min(self.width as int, width as int),
                h_copy == vstd::math::min(self.height as int, height as int),
                width * height <= usize::MAX,
                0 <= y <= h_copy,
                new_data@.len() == width * height,
                forall|x0: int, y0: int|
                    0 <= x0 < width && 0 <= y0 < height ==> #[trigger] new_data@[x0 + y0 * width]
                        == (if x0 < w_copy && y0 < y {
                        self.cell_spec(x0, y0)
                    } else {
                        spec_blank_cell()
                    }),
            decreases h_copy - y,
        {
            let mut x: usize = 0;
            while x < w_copy
                invariant
                    self == old(self),
                    self.inv(),
                    self.data@.len() <= usize::MAX,
                    w_copy == vstd::math::min(self.width as int, width as int),
                    h_copy == vstd::math::min(self.height as int, height as int),
                    width * height <= usize::MAX,
                    0 <= y < h_copy,
                    0 <= x <= w_copy,
                    new_data@.len() == width * height,
                    forall|x0: int, y0: int|
                        0 <= x0 < width && 0 <= y0 < height ==> #[trigger] new_data@[x0 + y0
                            * width] == (if (y0 < y || (y0 == y && x0 < x)) && x0 < w_copy {
                            self.cell_spec(x0, y0)
                        } else {
                            spec_blank_cell()
                        }),
                decreases w_copy - x,
            {
                proof {
                    lemma_grid_index_bounds(width as int, height as int, x as int, y as int);
                    lemma_grid_index_bounds(
                        self.width as int,
                        self.height as int,
                        x as int,
                        y as int,
                    );
                }
                let src = self.data[x + self.width * y];
                new_data[x + width * y] = src;
                proof {
                    assert forall|x0: int, y0: int| 0 <= x0 < width && 0 <= y0 < height
                        implies #[trigger] new_data@[x0 + y0 * width] == (
                    if (y0 < y || (y0 == y && x0 < x + 1)) && x0 < w_copy {
                        self.cell_spec(x0, y0)
                    } else {
                        spec_blank_cell()
                    }) by {
                        lemma_grid_index_bounds(width as int, height as int, x0, y0);
                        if x0 + y0 * width == x + y * width {
                            lemma_grid_index_injective(width as int, x0, y0, x as int, y as int);
                        }
                    }
                }
                x += 1;
            }
            y += 1;
        }
        let mut dirty: Vec<TextBufferRect> = Vec::new();
        dirty.push(TextBufferRect { x: 0, y: 0, width, height });
        self.width = width;
        self.height = height;
        self.data = new_data;
        self.dirty_regions = dirty;
    }
}

/// The run `data` was written at `(x0, y0)` on a buffer surface: every
/// valid cell under the run holds the run's value, every other valid cell
/// is unchanged, and the surface's extent and valid positions are
/// unchanged.
pub open spec fn spec_ifc_run_written<S: TextBufferInterface>(
    pre: S,
    post: S,
    x0: int,
    y0: int,
    data: Seq<Cell>,
) -> bool {
    &&& post.ifc_width() == pre.ifc_width()
    &&& post.ifc_height() == pre.ifc_height()
    &&& forall|x: int, y: int| #[trigger] post.valid_pos(x, y) == pre.valid_pos(x, y)
    &&& forall|x: int, y: int|
        pre.valid_pos(x, y) ==> #[trigger] post.ifc_cell(x, y) == (
        if y == y0 && x0 <= x < x0 + data.len() {
            data[x - x0]
        } else {
            pre.ifc_cell(x, y)
        })
}

/// A writable cell surface: the screen buffer itself, a coordinate-
/// translating view into it, or a widget's internal grid. The abstract
/// state is an extent, a partial grid of cells at the valid positions,
/// and an implementation-defined rest (dirty bookkeeping, flags, the
/// parent buffer) that the `sets_kept`, `dirty_noted` and `clear_noted`
/// predicates of each implementation pin down.
pub trait TextBufferInterface: Sized {
    /// Columns of the surface.
    spec fn ifc_width(&self) -> int;

    /// Rows of the surface.
    spec fn ifc_height(&self) -> int;

    /// Whether a position addresses a writable cell.
    spec fn valid_pos(&self, x: int, y: int) -> bool;

    /// The cell at a valid position.
    spec fn ifc_cell(&self, x: int, y: int) -> Cell;

    /// The surface's well-formedness.
    spec fn ifc_inv(&self) -> bool;

    /// Everything besides the grid cells is unchanged (dirty bookkeeping,
    /// flags, geometry, and for a view the parent cells outside its
    /// window).
    spec fn sets_kept(pre: Self, post: Self) -> bool;

    /// What must hold of a rectangle before it can be registered dirty.
    spec fn dirty_req(&self, rect: TextBufferRect) -> bool;

    /// The effect of registering `rect` dirty on everything besides the
    /// grid cells.
    spec fn dirty_noted(pre: Self, post: Self, rect: TextBufferRect) -> bool;

    /// What must hold of a rectangle before it can be cleared.
    spec fn clear_req(&self, rect: TextBufferRect) -> bool;

    /// The storage index behind a position: for a view, the parent's
    /// index of the translated position.
    spec fn index_spec(&self, x: int, y: int) -> int;

    /// The sub-rectangle, in this surface's own coordinates, that a clear
    /// of `rect` actually blanks, or `None` when the clear is dropped.
    spec fn clear_local(&self, rect: TextBufferRect) -> Option<TextBufferRect>;

    /// The effect of a clear of `rect` on everything besides the grid
    /// cells.
    spec fn clear_noted(pre: Self, post: Self, rect: TextBufferRect) -> bool;

    /// `sets_kept` holds of an unchanged surface.
    proof fn lemma_sets_kept_refl(a: Self)
        ensures
            Self::sets_kept(a, a),
    ;

    /// `sets_kept` composes.
    proof fn lemma_sets_kept_trans(a: Self, b: Self, c: Self)
        requires
            Self::sets_kept(a, b),
            Self::sets_kept(b, c),
        ensures
            Self::sets_kept(a, c),
    ;

    /// Registering a dirty rectangle after cell writes notes the same
    /// rectangle from the pre-write state.
    proof fn lemma_dirty_noted_after_sets(pre: Self, mid: Self, post: Self, rect: TextBufferRect)
        requires
            Self::sets_kept(pre, mid),
            Self::dirty_noted(mid, post, rect),
        ensures
            Self::dirty_noted(pre, post, rect),
    ;

    /// Cell writes do not change whether a rectangle may be registered
    /// dirty.
    proof fn lemma_dirty_req_after_sets(pre: Self, post: Self, rect: TextBufferRect)
        requires
            Self::sets_kept(pre, post),
            pre.dirty_req(rect),
        ensures
            post.dirty_req(rect),
    ;

    /// Registering one dirty rectangle does not change which others may
    /// be registered.
    proof fn lemma_dirty_req_after_noted(
        pre: Self,
        post: Self,
        noted: TextBufferRect,
        rect: TextBufferRect,
    )
        requires
            Self::dirty_noted(pre, post, noted),
            pre.dirty_req(rect),
        ensures
            post.dirty_req(rect),
    ;

    /// A clear does not change which rectangles may be registered dirty.
    proof fn lemma_dirty_req_after_cleared(
        pre: Self,
        post: Self,
        cleared: TextBufferRect,
        rect: TextBufferRect,
    )
        requires
            Self::clear_noted(pre, post, cleared),
            pre.dirty_req(rect),
        ensures
            post.dirty_req(rect),
    ;

    /// Register a dirty rectangle.
    fn add_dirty_rect(&mut self, rect: TextBufferRect)
        requires
            old(self).ifc_inv(),
            old(self).dirty_req(rect),
        ensures
            final(self).ifc_inv(),
            final(self).ifc_width() == old(self).ifc_width(),
            final(self).ifc_height() == old(self).ifc_height(),
            forall|x: int, y: int| #[trigger] final(self).valid_pos(x, y) == old(self).valid_pos(
                x,
                y,
            ),
            forall|x: int, y: int|
                old(self).valid_pos(x, y) ==> #[trigger] final(self).ifc_cell(x, y) == old(
                    self,
                ).ifc_cell(x, y),
            Self::dirty_noted(*old(self), *final(self), rect),
    ;

    /// The storage index of the cell at `pos`, or `None` when `pos` does
    /// not address a writable cell.
    fn index_of(&self, pos: TextBufferPos) -> (r: Option<usize>)
        requires
            self.ifc_inv(),
        ensures
            r is Some <==> self.valid_pos(pos.x as int, pos.y as int),
            match r {
                Some(i) => i == self.index_spec(pos.x as int, pos.y as int),
                None => true,
            },
    ;

    /// Overwrite the cell at `pos` when it is valid, registering nothing
    /// dirty. Returns whether the position was valid.
    fn inner_set_char(&mut self, pos: TextBufferPos, value: Cell) -> (r: bool)
        requires
            old(self).ifc_inv(),
        ensures
            final(self).ifc_inv(),
            r == old(self).valid_pos(pos.x as int, pos.y as int),
            final(self).ifc_width() == old(self).ifc_width(),
            final(self).ifc_height() == old(self).ifc_height(),
            forall|x: int, y: int| #[trigger] final(self).valid_pos(x, y) == old(self).valid_pos(
                x,
                y,
            ),
            forall|x: int, y: int|
                old(self).valid_pos(x, y) ==> #[trigger] final(self).ifc_cell(x, y) == (
                if x == pos.x as int && y == pos.y as int {
                    value
                } else {
                    old(self).ifc_cell(x, y)
                }),
            Self::sets_kept(*old(self), *final(self)),
    ;

    /// Clear a rectangle: the implementation's local clear extent becomes
    /// blank, everything else keeps its cells.
    fn clear_rect(&mut self, rect: TextBufferRect)
        requires
            old(self).ifc_inv(),
            old(self).clear_req(rect),
        ensures
            final(self).ifc_inv(),
            final(self).ifc_width() == old(self).ifc_width(),
            final(self).ifc_height() == old(self).ifc_height(),
            forall|x: int, y: int| #[trigger] final(self).valid_pos(x, y) == old(self).valid_pos(
                x,
                y,
            ),
            forall|x: int, y: int|
                old(self).valid_pos(x, y) ==> #[trigger] final(self).ifc_cell(x, y) == (match old(
                    self,
                ).clear_local(rect) {
                    Some(l) => {
                        if l.contains_point_spec(x, y) {
                            spec_blank_cell()
                        } else {
                            old(self).ifc_cell(x, y)
                        }
                    },
                    None => old(self).ifc_cell(x, y),
                }),
            Self::clear_noted(*old(self), *final(self), rect),
    ;

    /// Columns of the surface.
    fn width(&self) -> (r: usize)
        requires
            self.ifc_inv(),
        ensures
            r == self.ifc_width(),
    ;

    /// Rows of the surface.
    fn height(&self) -> (r: usize)
        requires
            self.ifc_inv(),
        ensures
            r == self.ifc_height(),
    ;

    /// The rectangle covering the whole surface.
    fn screen_rect(&self) -> (r: TextBufferRect)
        requires
            self.ifc_inv(),
        ensures
            r.x == 0,
            r.y == 0,
            r.width == self.ifc_width(),
            r.height == self.ifc_height(),
    {
        TextBufferRect::new(0, 0, self.width(), self.height())
    }

    /// Overwrite one cell and register its one-cell extent dirty (even
    /// when the position is not writable). Returns whether it was.
    fn mut_char(&mut self, pos: TextBufferPos, value: Cell) -> (r: bool)
        requires
            old(self).ifc_inv(),
            old(self).dirty_req(TextBufferRect { x: pos.x, y: pos.y, width: 1, height: 1 }),
        ensures
            final(self).ifc_inv(),
            r == old(self).valid_pos(pos.x as int, pos.y as int),
            final(self).ifc_width() == old(self).ifc_width(),
            final(self).ifc_height() == old(self).ifc_height(),
            forall|x: int, y: int| #[trigger] final(self).valid_pos(x, y) == old(self).valid_pos(
                x,
                y,
            ),
            forall|x: int, y: int|
                old(self).valid_pos(x, y) ==> #[trigger] final(self).ifc_cell(x, y) == (
                if y == pos.y as int && pos.x as int <= x < pos.x as int + seq![value].len() {
                    seq![value][x - pos.x as int]
                } else {
                    old(self).ifc_cell(x, y)
                }),
            Self::dirty_noted(
                *old(self),
                *final(self),
                TextBufferRect { x: pos.x, y: pos.y, width: 1, height: 1 },
            ),
    {
        let ghost pre = *old(self);
        let r = self.inner_set_char(pos, value);
        let ghost mid = *self;
        proof {
            Self::lemma_dirty_req_after_sets(
                pre,
                mid,
                TextBufferRect { x: pos.x, y: pos.y, width: 1, height: 1 },
            );
        }
        self.add_dirty_rect(TextBufferRect::new(pos.x, pos.y, 1, 1));
        proof {
            Self::lemma_dirty_noted_after_sets(
                pre,
                mid,
                *self,
                TextBufferRect { x: pos.x, y: pos.y, width: 1, height: 1 },
            );
        }
        r
    }

    /// Write a run of glyphs in one color at `pos`, dropping cells that
    /// fall outside the surface and registering the requested extent
    /// dirty.
    fn write_text(&mut self, pos: TextBufferPos, text: &[VGAChar], color: CharacterColor) -> (r:
        TextBufferRect)
        requires
            old(self).ifc_inv(),
            text@.len() <= isize::MAX,
            pos.x + text@.len() <= isize::MAX,
            old(self).dirty_req(
                TextBufferRect { x: pos.x, y: pos.y, width: text@.len() as usize, height: 1 },
            ),
        ensures
            final(self).ifc_inv(),
            r == (TextBufferRect { x: pos.x, y: pos.y, width: text@.len() as usize, height: 1 }),
            final(self).ifc_width() == old(self).ifc_width(),
            final(self).ifc_height() == old(self).ifc_height(),
            forall|x: int, y: int| #[trigger] final(self).valid_pos(x, y) == old(self).valid_pos(
                x,
                y,
            ),
            forall|x: int, y: int|
                old(self).valid_pos(x, y) ==> #[trigger] final(self).ifc_cell(x, y) == (
                if y == pos.y as int && pos.x as int <= x < pos.x as int + (text@.map_values(|c: VGAChar| (c, color))).len() {
                    (text@.map_values(|c: VGAChar| (c, color)))[x - pos.x as int]
                } else {
                    old(self).ifc_cell(x, y)
                }),
            Self::dirty_noted(*old(self), *final(self), r),
    {
        let ghost pre = *old(self);
        let ghost data = text@.map_values(|c: VGAChar| (c, color));
        proof {
            Self::lemma_sets_kept_refl(pre);
        }
        let mut i: usize = 0;
        while i < text.len()
            invariant
                pre.ifc_inv(),
                text@.len() <= isize::MAX,
                pos.x + text@.len() <= isize::MAX,
                0 <= i <= text@.len(),
                data == text@.map_values(|c: VGAChar| (c, color)),
                self.ifc_inv(),
                self.ifc_width() == pre.ifc_width(),
                self.ifc_height() == pre.ifc_height(),
                forall|x: int, y: int| #[trigger] self.valid_pos(x, y) == pre.valid_pos(x, y),
                forall|x: int, y: int|
                    pre.valid_pos(x, y) ==> #[trigger] self.ifc_cell(x, y) == (
                    if y == pos.y as int && pos.x <= x < pos.x + i {
                        data[x - pos.x]
                    } else {
                        pre.ifc_cell(x, y)
                    }),
                Self::sets_kept(pre, *self),
            decreases text@.len() - i,
        {
            let ghost mid = *self;
            let c = text[i];
            self.inner_set_char(TextBufferPos { x: pos.x + i as isize, y: pos.y }, (c, color));
            proof {
                Self::lemma_sets_kept_trans(pre, mid, *self);
            }
            i += 1;
        }
        let ghost mid = *self;
        let rect = TextBufferRect::new(pos.x, pos.y, text.len(), 1);
        proof {
            Self::lemma_dirty_req_after_sets(pre, mid, rect);
        }
        self.add_dirty_rect(rect);
        proof {
            Self::lemma_dirty_noted_after_sets(pre, mid, *self, rect);
        }
        rect
    }

    /// Write a run of glyphs with the anchor shifted per alignment.
    fn write_text_align(
        &mut self,
        pos: TextBufferPos,
        text: &[VGAChar],
        color: CharacterColor,
        align: TextAlign,
    ) -> (r: TextBufferRect)
        requires
            old(self).ifc_inv(),
            align.align_req(pos, text@.len() as int),
            text@.len() <= isize::MAX,
            align.align_spec(pos, text@.len() as int).x + text@.len() <= isize::MAX,
            old(self).dirty_req(
                TextBufferRect {
                    x: align.align_spec(pos, text@.len() as int).x,
                    y: pos.y,
                    width: text@.len() as usize,
                    height: 1,
                },
            ),
        ensures
            final(self).ifc_inv(),
            r == (TextBufferRect {
                x: align.align_spec(pos, text@.len() as int).x,
                y: pos.y,
                width: text@.len() as usize,
                height: 1,
            }),
            final(self).ifc_width() == old(self).ifc_width(),
            final(self).ifc_height() == old(self).ifc_height(),
            forall|x: int, y: int| #[trigger] final(self).valid_pos(x, y) == old(self).valid_pos(
                x,
                y,
            ),
            forall|x: int, y: int|
                old(self).valid_pos(x, y) ==> #[trigger] final(self).ifc_cell(x, y) == (
                if y == pos.y as int && (align.align_spec(pos, text@.len() as int).x as int) <= x < (align.align_spec(pos, text@.len() as int).x as int) + (text@.map_values(|c: VGAChar| (c, color))).len() {
                    (text@.map_values(|c: VGAChar| (c, color)))[x - (align.align_spec(pos, text@.len() as int).x as int)]
                } else {
                    old(self).ifc_cell(x, y)
                }),
            Self::dirty_noted(*old(self), *final(self), r),
    {
        let p = align.align_text(pos, text.len());
        self.write_text(p, text, color)
    }

    /// Write a run of pre-colored cells at `pos`, dropping cells that fall
    /// outside the surface and registering the requested extent dirty.
    fn write_data(&mut self, pos: TextBufferPos, text: &[Cell]) -> (r: TextBufferRect)
        requires
            old(self).ifc_inv(),
            text@.len() <= isize::MAX,
            pos.x + text@.len() <= isize::MAX,
            old(self).dirty_req(
                TextBufferRect { x: pos.x, y: pos.y, width: text@.len() as usize, height: 1 },
            ),
        ensures
            final(self).ifc_inv(),
            r == (TextBufferRect { x: pos.x, y: pos.y, width: text@.len() as usize, height: 1 }),
            final(self).ifc_width() == old(self).ifc_width(),
            final(self).ifc_height() == old(self).ifc_height(),
            forall|x: int, y: int| #[trigger] final(self).valid_pos(x, y) == old(self).valid_pos(
                x,
                y,
            ),
            forall|x: int, y: int|
                old(self).valid_pos(x, y) ==> #[trigger] final(self).ifc_cell(x, y) == (
                if y == pos.y as int && pos.x as int <= x < pos.x as int + text@.len() {
                    text@[x - pos.x as int]
                } else {
                    old(self).ifc_cell(x, y)
                }),
            Self::dirty_noted(*old(self), *final(self), r),
    {
        let ghost pre = *old(self);
        proof {
            Self::lemma_sets_kept_refl(pre);
        }
        let mut i: usize = 0;
        while i < text.len()
            invariant
                pre.ifc_inv(),
                text@.len() <= isize::MAX,
                pos.x + text@.len() <= isize::MAX,
                0 <= i <= text@.len(),
                self.ifc_inv(),
                self.ifc_width() == pre.ifc_width(),
                self.ifc_height() == pre.ifc_height(),
                forall|x: int, y: int| #[trigger] self.valid_pos(x, y) == pre.valid_pos(x, y),
                forall|x: int, y: int|
                    pre.valid_pos(x, y) ==> #[trigger] self.ifc_cell(x, y) == (
                    if y == pos.y as int && pos.x <= x < pos.x + i {
                        text@[x - pos.x]
                    } else {
                        pre.ifc_cell(x, y)
                    }),
                Self::sets_kept(pre, *self),
            decreases text@.len() - i,
        {
            let ghost mid = *self;
            let c = text[i];
            self.inner_set_char(TextBufferPos { x: pos.x + i as isize, y: pos.y }, c);
            proof {
                Self::lemma_sets_kept_trans(pre, mid, *self);
            }
            i += 1;
        }
        let ghost mid = *self;
        let rect = TextBufferRect::new(pos.x, pos.y, text.len(), 1);
        proof {
            Self::lemma_dirty_req_after_sets(pre, mid, rect);
        }
        self.add_dirty_rect(rect);
        proof {
            Self::lemma_dirty_noted_after_sets(pre, mid, *self, rect);
        }
        rect
    }

    /// Write a run of pre-colored cells with the anchor shifted per
    /// alignment.
    fn write_data_align(
        &mut self,
        pos: TextBufferPos,
        text: &[Cell],
        align: TextAlign,
    ) -> (r: TextBufferRect)
        requires
            old(self).ifc_inv(),
            align.align_req(pos, text@.len() as int),
            text@.len() <= isize::MAX,
            align.align_spec(pos, text@.len() as int).x + text@.len() <= isize::MAX,
            old(self).dirty_req(
                TextBufferRect {
                    x: align.align_spec(pos, text@.len() as int).x,
                    y: pos.y,
                    width: text@.len() as usize,
                    height: 1,
                },
            ),
        ensures
            final(self).ifc_inv(),
            r == (TextBufferRect {
                x: align.align_spec(pos, text@.len() as int).x,
                y: pos.y,
                width: text@.len() as usize,
                height: 1,
            }),
            final(self).ifc_width() == old(self).ifc_width(),
            final(self).ifc_height() == old(self).ifc_height(),
            forall|x: int, y: int| #[trigger] final(self).valid_pos(x, y) == old(self).valid_pos(
                x,
                y,
            ),
            forall|x: int, y: int|
                old(self).valid_pos(x, y) ==> #[trigger] final(self).ifc_cell(x, y) == (
                if y == pos.y as int && (align.align_spec(pos, text@.len() as int).x as int) <= x < (align.align_spec(pos, text@.len() as int).x as int) + text@.len() {
                    text@[x - (align.align_spec(pos, text@.len() as int).x as int)]
                } else {
                    old(self).ifc_cell(x, y)
                }),
            Self::dirty_noted(*old(self), *final(self), r),
    {
        let p = align.align_text(pos, text.len());
        self.write_data(p, text)
    }

    /// Write a string at `pos`. Each character is encoded only where it
    /// lands on a writable cell: out-of-bounds characters are silently
    /// dropped unencoded, clipping being the common case. On the first
    /// in-bounds character outside the representable set the write stops
    /// and that character comes back as the error, with the cells already
    /// written left in place and nothing registered dirty.
    fn write_string(&mut self, pos: TextBufferPos, text: &str, color: CharacterColor) -> (r:
        Result<TextBufferRect, char>)
        requires
            old(self).ifc_inv(),
            text@.len() <= isize::MAX,
            pos.x + text@.len() <= isize::MAX,
            old(self).dirty_req(
                TextBufferRect { x: pos.x, y: pos.y, width: text@.len() as usize, height: 1 },
            ),
        ensures
            final(self).ifc_inv(),
            final(self).ifc_width() == old(self).ifc_width(),
            final(self).ifc_height() == old(self).ifc_height(),
            forall|x: int, y: int| #[trigger] final(self).valid_pos(x, y) == old(self).valid_pos(
                x,
                y,
            ),
            match r {
                Ok(rect) => {
                    &&& forall|i: int|
                        0 <= i < text@.len() && old(self).valid_pos(pos.x + i, pos.y as int)
                            ==> spec_char_representable(#[trigger] text@[i])
                    &&& rect == (TextBufferRect {
                        x: pos.x,
                        y: pos.y,
                        width: text@.len() as usize,
                        height: 1,
                    })
                    &&& forall|x: int, y: int|
                        old(self).valid_pos(x, y) ==> #[trigger] final(self).ifc_cell(x, y) == (
                        if y == pos.y as int && pos.x <= x < pos.x + text@.len() {
                            spec_string_cells(text@, color)[x - pos.x]
                        } else {
                            old(self).ifc_cell(x, y)
                        })
                    &&& Self::dirty_noted(*old(self), *final(self), rect)
                },
                Err(c) => {
                    &&& !spec_char_representable(c)
                    &&& exists|k: int|
                        {
                            &&& 0 <= k < text@.len()
                            &&& #[trigger] text@[k] == c
                            &&& old(self).valid_pos(pos.x + k, pos.y as int)
                            &&& (forall|j: int|
                                0 <= j < k && old(self).valid_pos(pos.x + j, pos.y as int)
                                    ==> spec_char_representable(#[trigger] text@[j]))
                            &&& (forall|x: int, y: int|
                                old(self).valid_pos(x, y) ==> #[trigger] final(self).ifc_cell(
                                    x,
                                    y,
                                ) == (if y == pos.y as int && pos.x <= x < pos.x + k {
                                    spec_string_cells(text@, color)[x - pos.x]
                                } else {
                                    old(self).ifc_cell(x, y)
                                }))
                        }
                    &&& Self::sets_kept(*old(self), *final(self))
                },
            },
    {
        let ghost pre = *old(self);
        let ghost s = text@;
        proof {
            Self::lemma_sets_kept_refl(pre);
        }
        let n = text.unicode_len();
        let mut i: usize = 0;
        while i < n
            invariant
                pre == *old(self),
                pre.ifc_inv(),
                s == text@,
                n == s.len(),
                s.len() <= isize::MAX,
                pos.x + s.len() <= isize::MAX,
                0 <= i <= n,
                forall|j: int|
                    0 <= j < i && pre.valid_pos(pos.x + j, pos.y as int)
                        ==> spec_char_representable(#[trigger] s[j]),
                self.ifc_inv(),
                self.ifc_width() == pre.ifc_width(),
                self.ifc_height() == pre.ifc_height(),
                forall|x: int, y: int| #[trigger] self.valid_pos(x, y) == pre.valid_pos(x, y),
                forall|x: int, y: int|
                    pre.valid_pos(x, y) ==> #[trigger] self.ifc_cell(x, y) == (
                    if y == pos.y as int && pos.x <= x < pos.x + i {
                        spec_string_cells(s, color)[x - pos.x]
                    } else {
                        pre.ifc_cell(x, y)
                    }),
                Self::sets_kept(pre, *self),
            decreases n - i,
        {
            let c = text.get_char(i);
            let p = TextBufferPos { x: pos.x + i as isize, y: pos.y };
            match self.index_of(p) {
                Some(_) => {
                    match VGAChar::from_char(c) {
                        Ok(g) => {
                            let ghost mid = *self;
                            self.inner_set_char(p, (g, color));
                            proof {
                                Self::lemma_sets_kept_trans(pre, mid, *self);
                            }
                        },
                        Err(e) => {
                            proof {
                                assert(pre.valid_pos(pos.x + i, pos.y as int));
                            }
                            return Err(e);
                        },
                    }
                },
                None => {},
            }
            i += 1;
        }
        let ghost mid = *self;
        let rect = TextBufferRect::new(pos.x, pos.y, n, 1);
        proof {
            Self::lemma_dirty_req_after_sets(pre, mid, rect);
        }
        self.add_dirty_rect(rect);
        proof {
            Self::lemma_dirty_noted_after_sets(pre, mid, *self, rect);
        }
        Ok(rect)
    }

    /// Write a string with the anchor shifted per alignment, the shift
    /// taken from the string's character count.
    fn write_string_align(
        &mut self,
        pos: TextBufferPos,
        text: &str,
        color: CharacterColor,
        align: TextAlign,
    ) -> (r: Result<TextBufferRect, char>)
        requires
            old(self).ifc_inv(),
            align.align_req(pos, text@.len() as int),
            text@.len() <= isize::MAX,
            align.align_spec(pos, text@.len() as int).x + text@.len() <= isize::MAX,
            old(self).dirty_req(
                TextBufferRect {
                    x: align.align_spec(pos, text@.len() as int).x,
                    y: pos.y,
                    width: text@.len() as usize,
                    height: 1,
                },
            ),
        ensures
            final(self).ifc_inv(),
            match r {
                Ok(rect) => {
                    &&& forall|i: int|
                        0 <= i < text@.len() && old(self).valid_pos(
                            align.align_spec(pos, text@.len() as int).x + i,
                            pos.y as int,
                        ) ==> spec_char_representable(#[trigger] text@[i])
                    &&& rect == (TextBufferRect {
                        x: align.align_spec(pos, text@.len() as int).x,
                        y: pos.y,
                        width: text@.len() as usize,
                        height: 1,
                    })
                    &&& ({
                        let dd = spec_string_cells(text@, color);
                        final(self).ifc_width() == old(self).ifc_width() && final(self).ifc_height() == old(self).ifc_height() && (forall|x: int, y: int|
                            #[trigger] final(self).valid_pos(x, y) == old(self).valid_pos(x, y))
                            && (forall|x: int, y: int|
                            old(self).valid_pos(x, y) ==> #[trigger] final(self).ifc_cell(x, y)
                                == (if y == pos.y as int && (align.align_spec(pos, text@.len() as int).x as int) <= x < (align.align_spec(pos, text@.len() as int).x as int) + dd.len() {
                                dd[x - (align.align_spec(pos, text@.len() as int).x as int)]
                            } else {
                                old(self).ifc_cell(x, y)
                            }))
                    })
                    &&& Self::dirty_noted(*old(self), *final(self), rect)
                },
                Err(c) => {
                    &&& !spec_char_representable(c)
                    &&& final(self).ifc_width() == old(self).ifc_width()
                    &&& final(self).ifc_height() == old(self).ifc_height()
                    &&& (forall|x: int, y: int|
                        #[trigger] final(self).valid_pos(x, y) == old(self).valid_pos(x, y))
                    &&& exists|k: int|
                        {
                            &&& 0 <= k < text@.len()
                            &&& #[trigger] text@[k] == c
                            &&& old(self).valid_pos(
                                align.align_spec(pos, text@.len() as int).x + k,
                                pos.y as int,
                            )
                            &&& (forall|j: int|
                                0 <= j < k && old(self).valid_pos(
                                    align.align_spec(pos, text@.len() as int).x + j,
                                    pos.y as int,
                                ) ==> spec_char_representable(#[trigger] text@[j]))
                            &&& (forall|x: int, y: int|
                                old(self).valid_pos(x, y) ==> #[trigger] final(self).ifc_cell(
                                    x,
                                    y,
                                ) == (if y == pos.y as int && align.align_spec(
                                    pos,
                                    text@.len() as int,
                                ).x <= x < align.align_spec(pos, text@.len() as int).x + k {
                                    spec_string_cells(text@, color)[x - align.align_spec(
                                        pos,
                                        text@.len() as int,
                                    ).x]
                                } else {
                                    old(self).ifc_cell(x, y)
                                }))
                        }
                    &&& Self::sets_kept(*old(self), *final(self))
                },
            },
    {
        let n = text.unicode_len();
        let p = align.align_text(pos, n);
        self.write_string(p, text, color)
    }
}

impl TextBufferInterface for TextBufferScreen {
    open spec fn ifc_width(&self) -> int {
        self.width_spec()
    }

    open spec fn ifc_height(&self) -> int {
        self.height_spec()
    }

    open spec fn valid_pos(&self, x: int, y: int) -> bool {
        self.in_bounds(x, y)
    }

    open spec fn ifc_cell(&self, x: int, y: int) -> Cell {
        self.cell_spec(x, y)
    }

    open spec fn ifc_inv(&self) -> bool {
        self.inv()
    }

    open spec fn sets_kept(pre: Self, post: Self) -> bool {
        &&& post.dirty_spec() == pre.dirty_spec()
        &&& post.flag_spec() == pre.flag_spec()
    }

    open spec fn dirty_req(&self, rect: TextBufferRect) -> bool {
        rect.wf()
    }

    open spec fn dirty_noted(pre: Self, post: Self, rect: TextBufferRect) -> bool {
        &&& post.dirty_spec() == spec_insert_dirty(pre.dirty_spec(), rect)
        &&& post.flag_spec() == pre.flag_spec()
    }

    open spec fn clear_req(&self, rect: TextBufferRect) -> bool {
        true
    }

    open spec fn index_spec(&self, x: int, y: int) -> int {
        x + y * self.width_spec()
    }

    open spec fn clear_local(&self, rect: TextBufferRect) -> Option<TextBufferRect> {
        rect.intersection_spec(
            TextBufferRect {
                x: 0,
                y: 0,
                width: self.width_spec() as usize,
                height: self.height_spec() as usize,
            },
        )
    }

    open spec fn clear_noted(pre: Self, post: Self, rect: TextBufferRect) -> bool {
        match pre.clear_local(rect) {
            Some(i) => {
                &&& post.dirty_spec() == spec_insert_dirty(pre.dirty_spec(), i)
                &&& post.flag_spec() == (pre.flag_spec() || pre.width_spec() * pre.height_spec()
                    <= 4 * i.area_spec())
            },
            None => {
                &&& post.dirty_spec() == pre.dirty_spec()
                &&& post.flag_spec() == pre.flag_spec()
            },
        }
    }

    proof fn lemma_sets_kept_refl(a: Self) {
        assert(<TextBufferScreen as TextBufferInterface>::sets_kept(a, a));
    }

    proof fn lemma_sets_kept_trans(a: Self, b: Self, c: Self) {
        assert(<TextBufferScreen as TextBufferInterface>::sets_kept(a, c));
    }

    proof fn lemma_dirty_noted_after_sets(pre: Self, mid: Self, post: Self, rect: TextBufferRect) {
        assert(<TextBufferScreen as TextBufferInterface>::dirty_noted(pre, post, rect));
    }

    proof fn lemma_dirty_req_after_sets(pre: Self, post: Self, rect: TextBufferRect) {
        assert(<TextBufferScreen as TextBufferInterface>::dirty_req(&post, rect));
    }

    proof fn lemma_dirty_req_after_noted(
        pre: Self,
        post: Self,
        noted: TextBufferRect,
        rect: TextBufferRect,
    ) {
        assert(<TextBufferScreen as TextBufferInterface>::dirty_req(&post, rect));
    }

    proof fn lemma_dirty_req_after_cleared(
        pre: Self,
        post: Self,
        cleared: TextBufferRect,
        rect: TextBufferRect,
    ) {
        assert(<TextBufferScreen as TextBufferInterface>::dirty_req(&post, rect));
    }

    fn add_dirty_rect(&mut self, rect: TextBufferRect) {
        TextBufferScreen::add_dirty_rect(self, rect);
    }

    fn index_of(&self, pos: TextBufferPos) -> (r: Option<usize>) {
        let r = TextBufferScreen::index_of(self, pos);
        proof {
            match r {
                Some(i) => {
                    assert(i == <TextBufferScreen as TextBufferInterface>::index_spec(
                        self,
                        pos.x as int,
                        pos.y as int,
                    ));
                },
                None => {},
            }
        }
        r
    }

    fn inner_set_char(&mut self, pos: TextBufferPos, value: Cell) -> (r: bool) {
        let r = TextBufferScreen::inner_set_char(self, pos, value);
        proof {
            assert(<TextBufferScreen as TextBufferInterface>::sets_kept(*old(self), *self));
        }
        r
    }

    fn clear_rect(&mut self, rect: TextBufferRect) {
        let sr = TextBufferScreen::screen_rect(self);
        match rect.intersection(&sr) {
            Some(clipped) => {
                proof {
                    assert(clipped.wf());
                }
                TextBufferScreen::clear_rect(self, clipped);
            },
            None => {},
        }
    }

    fn width(&self) -> (r: usize) {
        TextBufferScreen::width(self)
    }

    fn height(&self) -> (r: usize) {
        TextBufferScreen::height(self)
    }
}

/// The rectangle a sub-view forwards to its parent's dirty set in place of
/// a locally registered one: translated by the window origin, with the
/// origin clamped into the window and the far edges cut at the window's
/// extent, so the forwarded rectangle never exceeds the view.
pub open spec fn spec_view_fwd(vrect: TextBufferRect, r: TextBufferRect) -> TextBufferRect {
    let cx = if r.x >= 0 {
        r.x as int
    } else {
        0
    };
    let cy = if r.y >= 0 {
        r.y as int
    } else {
        0
    };
    TextBufferRect {
        x: (vrect.x + cx) as isize,
        y: (vrect.y + cy) as isize,
        width: ((if r.x + r.width <= vrect.width {
            r.x + r.width
        } else {
            vrect.width as int
        }) - cx) as usize,
        height: ((if r.y + r.height <= vrect.height {
            r.y + r.height
        } else {
            vrect.height as int
        }) - cy) as usize,
    }
}

/// The parent-coordinate rectangle a sub-view clear blanks, given the
/// clear rectangle already clipped to the view's own extent.
pub open spec fn spec_view_clear_fwd(vrect: TextBufferRect, i: TextBufferRect) -> TextBufferRect {
    TextBufferRect {
        x: (vrect.x + (if i.x >= 0 {
            i.x as int
        } else {
            0
        })) as isize,
        y: (vrect.y + (if i.y >= 0 {
            i.y as int
        } else {
            0
        })) as isize,
        width: if i.width <= vrect.width {
            i.width
        } else {
            vrect.width
        },
        height: if i.height <= vrect.height {
            i.height
        } else {
            vrect.height
        },
    }
}

/// A sub-view of the screen buffer: a lease that holds the buffer for its
/// lifetime and translates all writes by its window rectangle, clipping
/// them to the window and to the parent's bounds. Releasing the view gives
/// the buffer back.
pub struct TextView {
    rect: TextBufferRect,
    parent_buffer: TextBufferScreen,
}

impl TextView {
    /// The window rectangle, in parent coordinates.
    pub closed spec fn rect_spec(&self) -> TextBufferRect {
        self.rect
    }

    /// The leased parent buffer.
    pub closed spec fn parent_spec(&self) -> TextBufferScreen {
        self.parent_buffer
    }

    /// Lease `parent_buffer`, viewing it through the window `rect`.
    pub fn new(rect: TextBufferRect, parent_buffer: TextBufferScreen) -> (r: TextView)
        requires
            rect.wf(),
            parent_buffer.inv(),
        ensures
            r.rect_spec() == rect,
            r.parent_spec() == parent_buffer,
            r.ifc_inv(),
    {
        TextView { rect, parent_buffer }
    }

    /// End the lease and give the parent buffer back.
    pub fn release(self) -> (r: TextBufferScreen)
        ensures
            r == self.parent_spec(),
    {
        self.parent_buffer
    }
}

impl TextBufferInterface for TextView {
    open spec fn ifc_width(&self) -> int {
        self.rect_spec().width as int
    }

    open spec fn ifc_height(&self) -> int {
        self.rect_spec().height as int
    }

    open spec fn valid_pos(&self, x: int, y: int) -> bool {
        &&& self.rect_spec().contains_point_spec(x + self.rect_spec().x, y + self.rect_spec().y)
        &&& self.parent_spec().in_bounds(x + self.rect_spec().x, y + self.rect_spec().y)
    }

    open spec fn ifc_cell(&self, x: int, y: int) -> Cell {
        self.parent_spec().cell_spec(x + self.rect_spec().x, y + self.rect_spec().y)
    }

    open spec fn ifc_inv(&self) -> bool {
        &&& self.rect_spec().wf()
        &&& self.parent_spec().inv()
    }

    open spec fn sets_kept(pre: Self, post: Self) -> bool {
        &&& post.rect_spec() == pre.rect_spec()
        &&& post.parent_spec().width_spec() == pre.parent_spec().width_spec()
        &&& post.parent_spec().height_spec() == pre.parent_spec().height_spec()
        &&& post.parent_spec().dirty_spec() == pre.parent_spec().dirty_spec()
        &&& post.parent_spec().flag_spec() == pre.parent_spec().flag_spec()
        &&& forall|px: int, py: int|
            pre.parent_spec().in_bounds(px, py) && !pre.rect_spec().contains_point_spec(px, py)
                ==> #[trigger] post.parent_spec().cell_spec(px, py) == pre.parent_spec().cell_spec(
                px,
                py,
            )
    }

    open spec fn dirty_req(&self, rect: TextBufferRect) -> bool {
        let vr = self.rect_spec();
        let cx = if rect.x >= 0 {
            rect.x as int
        } else {
            0
        };
        let cy = if rect.y >= 0 {
            rect.y as int
        } else {
            0
        };
        let fw = (if rect.x + rect.width <= vr.width {
            rect.x + rect.width
        } else {
            vr.width as int
        }) - cx;
        let fh = (if rect.y + rect.height <= vr.height {
            rect.y + rect.height
        } else {
            vr.height as int
        }) - cy;
        let fx = vr.x + (if rect.x >= 0 {
            rect.x as int
        } else {
            0
        });
        let fy = vr.y + (if rect.y >= 0 {
            rect.y as int
        } else {
            0
        });
        &&& 0 <= fw <= isize::MAX
        &&& 0 <= fh <= isize::MAX
        &&& fx + fw <= isize::MAX
        &&& fy + fh <= isize::MAX
    }

    open spec fn dirty_noted(pre: Self, post: Self, rect: TextBufferRect) -> bool {
        &&& post.rect_spec() == pre.rect_spec()
        &&& post.parent_spec().width_spec() == pre.parent_spec().width_spec()
        &&& post.parent_spec().height_spec() == pre.parent_spec().height_spec()
        &&& forall|px: int, py: int|
            pre.parent_spec().in_bounds(px, py) && !pre.rect_spec().contains_point_spec(px, py)
                ==> #[trigger] post.parent_spec().cell_spec(px, py) == pre.parent_spec().cell_spec(
                px,
                py,
            )
        &&& post.parent_spec().flag_spec() == pre.parent_spec().flag_spec()
        &&& post.parent_spec().dirty_spec() == spec_insert_dirty(
            pre.parent_spec().dirty_spec(),
            spec_view_fwd(pre.rect_spec(), rect),
        )
    }

    open spec fn clear_req(&self, rect: TextBufferRect) -> bool {
        true
    }

    open spec fn index_spec(&self, x: int, y: int) -> int {
        (x + self.rect_spec().x) + (y + self.rect_spec().y) * self.parent_spec().width_spec()
    }

    open spec fn clear_local(&self, rect: TextBufferRect) -> Option<TextBufferRect> {
        TextBufferRect {
            x: 0,
            y: 0,
            width: self.rect_spec().width,
            height: self.rect_spec().height,
        }.intersection_spec(rect)
    }

    open spec fn clear_noted(pre: Self, post: Self, rect: TextBufferRect) -> bool {
        &&& post.rect_spec() == pre.rect_spec()
        &&& post.parent_spec().width_spec() == pre.parent_spec().width_spec()
        &&& post.parent_spec().height_spec() == pre.parent_spec().height_spec()
        &&& forall|px: int, py: int|
            pre.parent_spec().in_bounds(px, py) && !pre.rect_spec().contains_point_spec(px, py)
                ==> #[trigger] post.parent_spec().cell_spec(px, py) == pre.parent_spec().cell_spec(
                px,
                py,
            )
        &&& match pre.clear_local(rect) {
            Some(i) => {
                let t = spec_view_clear_fwd(pre.rect_spec(), i);
                &&& post.parent_spec().dirty_spec() == spec_insert_dirty(
                    pre.parent_spec().dirty_spec(),
                    t,
                )
                &&& post.parent_spec().flag_spec() == (pre.parent_spec().flag_spec() || pre
                    .parent_spec().width_spec() * pre.parent_spec().height_spec() <= 4
                    * t.area_spec())
            },
            None => {
                &&& post.parent_spec().dirty_spec() == pre.parent_spec().dirty_spec()
                &&& post.parent_spec().flag_spec() == pre.parent_spec().flag_spec()
                &&& post.parent_spec().cells() == pre.parent_spec().cells()
            },
        }
    }

    proof fn lemma_sets_kept_refl(a: Self) {
        assert(<TextView as TextBufferInterface>::sets_kept(a, a));
    }

    proof fn lemma_sets_kept_trans(a: Self, b: Self, c: Self) {
        assert forall|px: int, py: int|
            a.parent_spec().in_bounds(px, py) && !a.rect_spec().contains_point_spec(px, py)
                implies #[trigger] c.parent_spec().cell_spec(px, py) == a.parent_spec().cell_spec(
            px,
            py,
        ) by {
            assert(b.parent_spec().cell_spec(px, py) == a.parent_spec().cell_spec(px, py));
        }
        assert(<TextView as TextBufferInterface>::sets_kept(a, c));
    }

    proof fn lemma_dirty_noted_after_sets(pre: Self, mid: Self, post: Self, rect: TextBufferRect) {
        assert forall|px: int, py: int|
            pre.parent_spec().in_bounds(px, py) && !pre.rect_spec().contains_point_spec(px, py)
                implies #[trigger] post.parent_spec().cell_spec(px, py) == pre.parent_spec()
            .cell_spec(px, py) by {
            assert(mid.parent_spec().cell_spec(px, py) == pre.parent_spec().cell_spec(px, py));
        }
        assert(<TextView as TextBufferInterface>::dirty_noted(pre, post, rect));
    }

    proof fn lemma_dirty_req_after_sets(pre: Self, post: Self, rect: TextBufferRect) {
        assert(<TextView as TextBufferInterface>::dirty_req(&post, rect));
    }

    proof fn lemma_dirty_req_after_noted(
        pre: Self,
        post: Self,
        noted: TextBufferRect,
        rect: TextBufferRect,
    ) {
        assert(<TextView as TextBufferInterface>::dirty_req(&post, rect));
    }

    proof fn lemma_dirty_req_after_cleared(
        pre: Self,
        post: Self,
        cleared: TextBufferRect,
        rect: TextBufferRect,
    ) {
        assert(<TextView as TextBufferInterface>::dirty_req(&post, rect));
    }

    fn add_dirty_rect(&mut self, rect: TextBufferRect) {
        let vr = self.rect;
        let fx_w: i128 = vr.x as i128 + (if rect.x >= 0 {
            rect.x as i128
        } else {
            0
        });
        let fy_w: i128 = vr.y as i128 + (if rect.y >= 0 {
            rect.y as i128
        } else {
            0
        });
        let cx_w: i128 = if rect.x >= 0 {
            rect.x as i128
        } else {
            0
        };
        let cy_w: i128 = if rect.y >= 0 {
            rect.y as i128
        } else {
            0
        };
        let right_w: i128 = rect.x as i128 + rect.width as i128;
        let bottom_w: i128 = rect.y as i128 + rect.height as i128;
        let fw_w: i128 = (if right_w <= vr.width as i128 {
            right_w
        } else {
            vr.width as i128
        }) - cx_w;
        let fh_w: i128 = (if bottom_w <= vr.height as i128 {
            bottom_w
        } else {
            vr.height as i128
        }) - cy_w;
        let fwd = TextBufferRect {
            x: fx_w as isize,
            y: fy_w as isize,
            width: fw_w as usize,
            height: fh_w as usize,
        };
        proof {
            assert(fwd == spec_view_fwd(self.rect_spec(), rect));
            assert(fwd.wf());
        }
        TextBufferScreen::add_dirty_rect(&mut self.parent_buffer, fwd);
    }

    fn index_of(&self, pos: TextBufferPos) -> (r: Option<usize>) {
        let vr = self.rect;
        let tx_w: i128 = pos.x as i128 + vr.x as i128;
        let ty_w: i128 = pos.y as i128 + vr.y as i128;
        let inside = vr.x as i128 <= tx_w && tx_w < vr.x as i128 + vr.width as i128
            && vr.y as i128 <= ty_w && ty_w < vr.y as i128 + vr.height as i128;
        if inside {
            let r = TextBufferScreen::index_of(
                &self.parent_buffer,
                TextBufferPos { x: tx_w as isize, y: ty_w as isize },
            );
            proof {
                match r {
                    Some(i) => {
                        assert(i == <TextView as TextBufferInterface>::index_spec(
                            self,
                            pos.x as int,
                            pos.y as int,
                        ));
                    },
                    None => {},
                }
            }
            r
        } else {
            None
        }
    }

    fn inner_set_char(&mut self, pos: TextBufferPos, value: Cell) -> (r: bool) {
        let vr = self.rect;
        let tx_w: i128 = pos.x as i128 + vr.x as i128;
        let ty_w: i128 = pos.y as i128 + vr.y as i128;
        let inside = vr.x as i128 <= tx_w && tx_w < vr.x as i128 + vr.width as i128
            && vr.y as i128 <= ty_w && ty_w < vr.y as i128 + vr.height as i128;
        if inside {
            let r = TextBufferScreen::inner_set_char(
                &mut self.parent_buffer,
                TextBufferPos { x: tx_w as isize, y: ty_w as isize },
                value,
            );
            proof {
                assert forall|x: int, y: int| old(self).valid_pos(x, y) implies #[trigger] self
                    .ifc_cell(x, y) == (if x == pos.x as int && y == pos.y as int {
                    value
                } else {
                    old(self).ifc_cell(x, y)
                }) by {}
                assert(<TextView as TextBufferInterface>::sets_kept(*old(self), *self));
            }
            r
        } else {
            proof {
                assert(<TextView as TextBufferInterface>::sets_kept(*old(self), *self));
            }
            false
        }
    }

    fn clear_rect(&mut self, rect: TextBufferRect) {
        let sr = TextBufferRect::new(0, 0, self.rect.width, self.rect.height);
        proof {
            assert(sr.wf());
        }
        match sr.intersection(&rect) {
            Some(clipped) => {
                let vr = self.rect;
                let cx = if clipped.x >= 0 {
                    clipped.x
                } else {
                    0
                };
                let cy = if clipped.y >= 0 {
                    clipped.y
                } else {
                    0
                };
                let cw = if clipped.width <= vr.width {
                    clipped.width
                } else {
                    vr.width
                };
                let ch = if clipped.height <= vr.height {
                    clipped.height
                } else {
                    vr.height
                };
                let fwd = TextBufferRect { x: vr.x + cx, y: vr.y + cy, width: cw, height: ch };
                proof {
                    assert(fwd == spec_view_clear_fwd(self.rect_spec(), clipped));
                    assert(fwd.wf());
                }
                TextBufferScreen::clear_rect(&mut self.parent_buffer, fwd);
                proof {
                    assert forall|x: int, y: int| old(self).valid_pos(x, y)
                        implies #[trigger] self.ifc_cell(x, y) == (
                    if clipped.contains_point_spec(x, y) {
                        spec_blank_cell()
                    } else {
                        old(self).ifc_cell(x, y)
                    }) by {}
                }
            },
            None => {},
        }
    }

    fn width(&self) -> (r: usize) {
        self.rect.width
    }

    fn height(&self) -> (r: usize) {
        self.rect.height
    }
}

} // verus!
