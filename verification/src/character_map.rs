//! The glyph atlas layout: where each glyph's image sits inside the fixed
//! glyph sheet, and where a grid cell lands on the rendering surface.
//!
//! The atlas itself is a bitmap owned by the rendering backend; this type
//! holds only the layout numbers, so the addressing law stays pure
//! arithmetic and must match the external asset exactly.

use vstd::prelude::*;

verus! {

/// An axis-aligned rectangle in pixel space, as the rendering surface
/// addresses it: signed origin, unsigned extent.
#[derive(Debug, Clone, Copy, PartialEq, Eq, Structural)]
pub struct PixelRect {
    pub x: i32,
    pub y: i32,
    pub width: u32,
    pub height: u32,
}

/// The layout of a glyph atlas: glyph images of `character_size` pixels,
/// arranged `per_row` to a row starting at `start_pos`, one image for each
/// of the 256 glyph bytes.
pub struct CharacterMap {
    character_size: (usize, usize),
    start_pos: (usize, usize),
    per_row: usize,
}

impl CharacterMap {
    /// The pixel size of one glyph image.
    pub closed spec fn character_size_spec(&self) -> (int, int) {
        (self.character_size.0 as int, self.character_size.1 as int)
    }

    /// The pixel position of the first glyph image.
    pub closed spec fn start_pos_spec(&self) -> (int, int) {
        (self.start_pos.0 as int, self.start_pos.1 as int)
    }

    /// How many glyph images sit in one atlas row.
    pub closed spec fn per_row_spec(&self) -> int {
        self.per_row as int
    }

    /// Well-formedness: at least one glyph per row, no more rows than
    /// glyphs, and every one of the 256 glyph rectangles fits in the `i32`
    /// pixel range.
    pub open spec fn inv(&self) -> bool {
        &&& 1 <= self.per_row_spec() <= 256
        &&& self.start_pos_spec().0 + self.character_size_spec().0 * 256 <= i32::MAX
        &&& self.start_pos_spec().1 + self.character_size_spec().1 * 256 <= i32::MAX
    }

    /// Build an atlas layout.
    pub fn new(character_size: (usize, usize), start_pos: (usize, usize), per_row: usize) -> (r:
        CharacterMap)
        requires
            1 <= per_row <= 256,
            start_pos.0 + character_size.0 * 256 <= i32::MAX,
            start_pos.1 + character_size.1 * 256 <= i32::MAX,
        ensures
            r.inv(),
            r.character_size_spec() == (character_size.0 as int, character_size.1 as int),
            r.start_pos_spec() == (start_pos.0 as int, start_pos.1 as int),
            r.per_row_spec() == per_row as int,
    {
        CharacterMap { character_size, start_pos, per_row }
    }

    /// The pixel size of one glyph image.
    pub fn character_size(&self) -> (r: (usize, usize))
        ensures
            (r.0 as int, r.1 as int) == self.character_size_spec(),
    {
        self.character_size
    }

    /// The atlas rectangle of a glyph: glyph `i` sits in atlas column
    /// `i % per_row` of atlas row `(i / per_row) % (256 / per_row)`.
    pub open spec fn spec_atlas_rect(&self, index: int) -> PixelRect {
        let rows = 256int / self.per_row_spec();
        PixelRect {
            x: (self.start_pos_spec().0 + self.character_size_spec().0 * (index
                % self.per_row_spec())) as i32,
            y: (self.start_pos_spec().1 + self.character_size_spec().1 * ((index
                / self.per_row_spec()) % rows)) as i32,
            width: self.character_size_spec().0 as u32,
            height: self.character_size_spec().1 as u32,
        }
    }

    /// Look up the atlas rectangle holding the image of glyph
    /// `character_index`.
    pub fn get_rect(&self, character_index: u8) -> (r: PixelRect)
        requires
            self.inv(),
        ensures
            r == self.spec_atlas_rect(character_index as int),
    {
        let rows: usize = 256 / self.per_row;
        proof {
            assert(rows >= 1) by (nonlinear_arith)
                requires
                    1 <= self.per_row <= 256,
                    rows == 256int / (self.per_row as int),
            ;
        }
        let col: usize = character_index as usize % self.per_row;
        let row: usize = (character_index as usize / self.per_row) % rows;
        proof {
            assert(col < 256 && row < 256);
            assert(self.character_size.0 * col <= self.character_size.0 * 256
                && self.character_size.1 * row <= self.character_size.1 * 256)
                by (nonlinear_arith)
                requires
                    0 <= col < 256,
                    0 <= row < 256,
                    0 <= self.character_size.0,
                    0 <= self.character_size.1,
            ;
        }
        PixelRect {
            x: (self.start_pos.0 + self.character_size.0 * col) as i32,
            y: (self.start_pos.1 + self.character_size.1 * row) as i32,
            width: self.character_size.0 as u32,
            height: self.character_size.1 as u32,
        }
    }

    /// The surface rectangle of the cell at grid position (x, y) under a
    /// percentage scale: origin at `(x·cellW·s/100, y·cellH·s/100)`, extent
    /// `(cellW·s/100, cellH·s/100)`, all with truncating division.
    pub open spec fn spec_dest_rect(&self, x: int, y: int, scale: int) -> PixelRect {
        PixelRect {
            x: (x * self.character_size_spec().0 * scale / 100) as i32,
            y: (y * self.character_size_spec().1 * scale / 100) as i32,
            width: (self.character_size_spec().0 * scale / 100) as u32,
            height: (self.character_size_spec().1 * scale / 100) as u32,
        }
    }

    /// The grid position and scale stay inside the machine ranges the
    /// destination arithmetic needs.
    pub open spec fn dest_req(&self, x: int, y: int, scale: int) -> bool {
        &&& 0 <= x
        &&& 0 <= y
        &&& 0 <= scale <= isize::MAX
        &&& x * self.character_size_spec().0 * scale <= i32::MAX * 100
        &&& y * self.character_size_spec().1 * scale <= i32::MAX * 100
        &&& x * self.character_size_spec().0 * scale <= isize::MAX
        &&& y * self.character_size_spec().1 * scale <= isize::MAX
        &&& x * self.character_size_spec().0 <= isize::MAX
        &&& y * self.character_size_spec().1 <= isize::MAX
        &&& self.character_size_spec().0 * scale <= i32::MAX * 100
        &&& self.character_size_spec().1 * scale <= i32::MAX * 100
        &&& self.character_size_spec().0 * scale <= usize::MAX
        &&& self.character_size_spec().1 * scale <= usize::MAX
    }

    /// Compute the surface rectangle of the cell at grid position (x, y)
    /// under a percentage scale.
    pub fn get_dest_rect(&self, x: isize, y: isize, pixel_scale: usize) -> (r: PixelRect)
        requires
            self.inv(),
            self.dest_req(x as int, y as int, pixel_scale as int),
        ensures
            r == self.spec_dest_rect(x as int, y as int, pixel_scale as int),
    {
        proof {
            let c0 = self.character_size_spec().0;
            let c1 = self.character_size_spec().1;
            assert(0 <= x * c0 && 0 <= y * c1 && 0 <= x * c0 * pixel_scale && 0 <= y * c1
                * pixel_scale && 0 <= c0 * pixel_scale) by (nonlinear_arith)
                requires
                    0 <= x,
                    0 <= y,
                    0 <= pixel_scale,
                    0 <= c0,
                    0 <= c1,
            ;
            assert(x * c0 * pixel_scale / 100 <= i32::MAX && y * c1 * pixel_scale / 100
                <= i32::MAX && c0 * pixel_scale / 100 <= u32::MAX && c1 * pixel_scale / 100
                <= u32::MAX) by (nonlinear_arith)
                requires
                    0 <= x * c0 * pixel_scale <= i32::MAX * 100,
                    0 <= y * c1 * pixel_scale <= i32::MAX * 100,
                    0 <= c0 * pixel_scale <= i32::MAX * 100,
                    0 <= c1 * pixel_scale <= i32::MAX * 100,
            ;
        }
        PixelRect {
            x: (x * self.character_size.0 as isize * pixel_scale as isize / 100) as i32,
            y: (y * self.character_size.1 as isize * pixel_scale as isize / 100) as i32,
            width: (self.character_size.0 * pixel_scale / 100) as u32,
            height: (self.character_size.1 * pixel_scale / 100) as u32,
        }
    }
}

} // verus!
