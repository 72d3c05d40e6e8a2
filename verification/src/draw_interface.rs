//! The drawing capability traits: values that can paint themselves onto a
//! cell surface, and widgets that report dirtiness, draw themselves and
//! clear what they drew last.

use vstd::prelude::*;

use crate::buffer::{spec_ifc_run_written, spec_string_cells, TextBufferInterface};
use crate::characters::{spec_blank_cell, spec_char_representable, Cell, CharacterColor};
use crate::structs::{TextAlign, TextBufferPos, TextBufferRect};

verus! {

/// How a piece of text is painted: its color and its alignment relative
/// to the anchor position.
pub struct TextFormatting {
    pub color: CharacterColor,
    pub alignment: TextAlign,
}

impl TextFormatting {
    /// Bundle a color and an alignment.
    pub fn new(color: CharacterColor, alignment: TextAlign) -> (r: TextFormatting)
        ensures
            r.color == color,
            r.alignment == alignment,
    {
        TextFormatting { color, alignment }
    }
}

/// A value that can paint itself onto a cell surface as one run of cells.
/// The implementation fixes, through `draw_run`, where the run starts and
/// which cells it writes; `draw` performs exactly that write.
pub trait Drawable<Settings>: Sized {
    /// The run this value paints when anchored at `pos`: its starting
    /// column, its row, and its cells.
    spec fn draw_run(&self, pos: TextBufferPos, settings: &Settings) -> (int, int, Seq<Cell>);

    /// What must hold of the anchor and settings before drawing: the
    /// value's cells encode, and the run's coordinates stay in machine
    /// range.
    spec fn draw_req(&self, pos: TextBufferPos, settings: &Settings) -> bool;

    /// Paint the value and return the extent painted.
    fn draw<S: TextBufferInterface>(
        &self,
        screen: &mut S,
        pos: TextBufferPos,
        settings: &Settings,
    ) -> (r: TextBufferRect)
        requires
            old(screen).ifc_inv(),
            self.draw_req(pos, settings),
            isize::MIN <= self.draw_run(pos, settings).0,
            self.draw_run(pos, settings).2.len() <= isize::MAX,
            self.draw_run(pos, settings).0 + self.draw_run(pos, settings).2.len() <= isize::MAX,
            isize::MIN <= self.draw_run(pos, settings).1 <= isize::MAX,
            old(screen).dirty_req(
                TextBufferRect {
                    x: self.draw_run(pos, settings).0 as isize,
                    y: self.draw_run(pos, settings).1 as isize,
                    width: self.draw_run(pos, settings).2.len() as usize,
                    height: 1,
                },
            ),
        ensures
            final(screen).ifc_inv(),
            r == (TextBufferRect {
                x: self.draw_run(pos, settings).0 as isize,
                y: self.draw_run(pos, settings).1 as isize,
                width: self.draw_run(pos, settings).2.len() as usize,
                height: 1,
            }),
            spec_ifc_run_written(
                *old(screen),
                *final(screen),
                self.draw_run(pos, settings).0,
                self.draw_run(pos, settings).1,
                self.draw_run(pos, settings).2,
            ),
            S::dirty_noted(*old(screen), *final(screen), r),
    ;
}

/// Text-like values: anything that can stand for a `&str` can be drawn by
/// writing that string.
pub trait TextDrawable<Settings> {
    /// The characters this value draws as.
    spec fn text_spec(&self) -> Seq<char>;

    /// The text this value draws as.
    fn as_str(&self) -> (r: &str)
        ensures
            r@ == self.text_spec(),
    ;
}

impl TextDrawable<TextFormatting> for String {
    open spec fn text_spec(&self) -> Seq<char> {
        self@
    }

    fn as_str(&self) -> (r: &str) {
        String::as_str(self)
    }
}

impl<'a> TextDrawable<TextFormatting> for &'a str {
    open spec fn text_spec(&self) -> Seq<char> {
        self@
    }

    fn as_str(&self) -> (r: &str) {
        self
    }
}

/// The requirements shared by string-like drawables: every character
/// encodes, and the aligned run stays in machine range.
pub open spec fn spec_text_draw_req(s: Seq<char>, pos: TextBufferPos, fmt: &TextFormatting) -> bool {
    &&& forall|i: int| 0 <= i < s.len() ==> spec_char_representable(#[trigger] s[i])
    &&& fmt.alignment.align_req(pos, s.len() as int)
    &&& s.len() <= isize::MAX
    &&& fmt.alignment.align_spec(pos, s.len() as int).x + s.len() <= isize::MAX
}

impl Drawable<TextFormatting> for String {
    open spec fn draw_run(&self, pos: TextBufferPos, settings: &TextFormatting) -> (
        int,
        int,
        Seq<Cell>,
    ) {
        (
            settings.alignment.align_spec(pos, self@.len() as int).x as int,
            pos.y as int,
            spec_string_cells(self@, settings.color),
        )
    }

    open spec fn draw_req(&self, pos: TextBufferPos, settings: &TextFormatting) -> bool {
        spec_text_draw_req(self@, pos, settings)
    }

    fn draw<S: TextBufferInterface>(
        &self,
        screen: &mut S,
        pos: TextBufferPos,
        settings: &TextFormatting,
    ) -> (r: TextBufferRect) {
        match screen.write_string_align(pos, String::as_str(self), settings.color, settings.alignment) {
            Ok(r) => r,
            Err(_) => {
                proof {
                    assert(false);
                }
                TextBufferRect::new(0, 0, 0, 0)
            },
        }
    }
}

impl<'a> Drawable<TextFormatting> for &'a str {
    open spec fn draw_run(&self, pos: TextBufferPos, settings: &TextFormatting) -> (
        int,
        int,
        Seq<Cell>,
    ) {
        (
            settings.alignment.align_spec(pos, self@.len() as int).x as int,
            pos.y as int,
            spec_string_cells(self@, settings.color),
        )
    }

    open spec fn draw_req(&self, pos: TextBufferPos, settings: &TextFormatting) -> bool {
        spec_text_draw_req(self@, pos, settings)
    }

    fn draw<S: TextBufferInterface>(
        &self,
        screen: &mut S,
        pos: TextBufferPos,
        settings: &TextFormatting,
    ) -> (r: TextBufferRect) {
        match screen.write_string_align(pos, self, settings.color, settings.alignment) {
            Ok(r) => r,
            Err(_) => {
                proof {
                    assert(false);
                }
                TextBufferRect::new(0, 0, 0, 0)
            },
        }
    }
}

/// A widget that can report whether it needs a redraw, draw itself onto a
/// surface, and clear what it drew last.
pub trait UIElement: Sized {
    /// The widget's well-formedness.
    spec fn ui_inv(&self) -> bool;

    /// Whether the widget changed since dirtiness was last taken.
    spec fn ui_dirty(&self) -> bool;

    /// How taking the dirty flag changes the widget.
    spec fn ui_took(pre: Self, post: Self) -> bool;

    /// How drawing itself changes the widget.
    spec fn ui_drew(pre: Self, post: Self) -> bool;

    /// The rectangle the widget clears before painting, if any.
    spec fn ui_clears(&self) -> Option<TextBufferRect>;

    /// The cell the widget's painting leaves at a surface position, given
    /// the cell that was there after the widget's own clear.
    spec fn ui_paints(&self, x: int, y: int, base: Cell) -> Cell;

    /// What must hold of the surface's extent before the widget draws.
    spec fn ui_draw_req(&self, w: int, h: int) -> bool;

    /// The dirty rectangles the widget's draw registers on its surface.
    spec fn ui_writes(&self, r: TextBufferRect) -> bool;

    /// The region cleared by `clear_last`, if any.
    spec fn ui_last_rect(&self) -> Option<TextBufferRect>;

    /// Report and reset whether the widget needs a redraw.
    fn take_dirty(&mut self) -> (r: bool)
        requires
            old(self).ui_inv(),
        ensures
            final(self).ui_inv(),
            r == old(self).ui_dirty(),
            Self::ui_took(*old(self), *final(self)),
    ;

    /// Draw the widget: its clear region (if any) becomes blank as the
    /// surface clears it, then the widget's cells land on top.
    fn ui_draw<S: TextBufferInterface>(&mut self, screen: &mut S)
        requires
            old(self).ui_inv(),
            old(screen).ifc_inv(),
            old(self).ui_draw_req(old(screen).ifc_width(), old(screen).ifc_height()),
            forall|r: TextBufferRect| #[trigger] old(self).ui_writes(r) ==> old(screen).dirty_req(
                r,
            ),
            match old(self).ui_clears() {
                Some(cr) => old(screen).clear_req(cr),
                None => true,
            },
        ensures
            final(self).ui_inv(),
            final(screen).ifc_inv(),
            final(screen).ifc_width() == old(screen).ifc_width(),
            final(screen).ifc_height() == old(screen).ifc_height(),
            forall|x: int, y: int| #[trigger] final(screen).valid_pos(x, y) == old(
                screen,
            ).valid_pos(x, y),
            forall|x: int, y: int|
                old(screen).valid_pos(x, y) ==> #[trigger] final(screen).ifc_cell(x, y) == old(
                    self,
                ).ui_paints(
                    x,
                    y,
                    match old(self).ui_clears() {
                        Some(cr) => match old(screen).clear_local(cr) {
                            Some(l) => {
                                if l.contains_point_spec(x, y) {
                                    spec_blank_cell()
                                } else {
                                    old(screen).ifc_cell(x, y)
                                }
                            },
                            None => old(screen).ifc_cell(x, y),
                        },
                        None => old(screen).ifc_cell(x, y),
                    },
                ),
            Self::ui_drew(*old(self), *final(self)),
    ;

    /// Clear the region the widget drew last, if any.
    fn clear_last<S: TextBufferInterface>(&self, screen: &mut S)
        requires
            self.ui_inv(),
            old(screen).ifc_inv(),
            match self.ui_last_rect() {
                Some(cr) => old(screen).clear_req(cr),
                None => true,
            },
        ensures
            final(screen).ifc_inv(),
            final(screen).ifc_width() == old(screen).ifc_width(),
            final(screen).ifc_height() == old(screen).ifc_height(),
            forall|x: int, y: int| #[trigger] final(screen).valid_pos(x, y) == old(
                screen,
            ).valid_pos(x, y),
            forall|x: int, y: int|
                old(screen).valid_pos(x, y) ==> #[trigger] final(screen).ifc_cell(x, y) == (
                match self.ui_last_rect() {
                    Some(cr) => match old(screen).clear_local(cr) {
                        Some(l) => {
                            if l.contains_point_spec(x, y) {
                                spec_blank_cell()
                            } else {
                                old(screen).ifc_cell(x, y)
                            }
                        },
                        None => old(screen).ifc_cell(x, y),
                    },
                    None => old(screen).ifc_cell(x, y),
                }),
            match self.ui_last_rect() {
                Some(cr) => S::clear_noted(*old(screen), *final(screen), cr),
                None => *final(screen) == *old(screen),
            },
    ;
}

} // verus!
