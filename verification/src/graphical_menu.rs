//! A menu of drawable elements laid out along a step vector, with a
//! selection cursor, optional wrapping, and a remembered extent so the
//! previous frame's drawing can be cleared.

use vstd::prelude::*;

use crate::buffer::{spec_string_cells, TextBufferInterface};
use crate::characters::{spec_blank_cell, spec_char_representable, Cell, CharacterColor, VGAChar};
use crate::draw_interface::{Drawable, TextDrawable, TextFormatting, UIElement};
use crate::menu::SelectionMenu;
use crate::structs::{TextAlign, TextBufferPos, TextBufferRect};

verus! {

/// How a menu lays its elements out and paints them.
#[derive(Debug, Clone, Copy, PartialEq, Eq)]
pub struct MenuSettings {
    /// Whether moves wrap at the ends.
    pub wrapping: bool,
    /// Whether the layout shifts so the selected element sits at the
    /// menu's anchor position.
    pub fix_selected: bool,
    /// Whether only the selected element is painted.
    pub hide_others: bool,
    /// The offset between one element's anchor and the next.
    pub menu_step: (isize, isize),
    /// The color of the selected element.
    pub selected_color: CharacterColor,
    /// The color of every other element.
    pub unselected_color: CharacterColor,
    /// How each element's text aligns to its anchor.
    pub text_align: TextAlign,
}

impl MenuSettings {
    /// The default layout: a vertical list, no wrapping, all elements
    /// shown, bright white selection over gray.
    pub fn new() -> (r: MenuSettings)
        ensures
            r == (MenuSettings {
                wrapping: false,
                fix_selected: false,
                hide_others: false,
                menu_step: (0isize, 1isize),
                selected_color: CharacterColor::BrightWhite,
                unselected_color: CharacterColor::Gray,
                text_align: TextAlign::Left,
            }),
    {
        MenuSettings {
            wrapping: false,
            fix_selected: false,
            hide_others: false,
            menu_step: (0, 1),
            selected_color: CharacterColor::BrightWhite,
            unselected_color: CharacterColor::Gray,
            text_align: TextAlign::Left,
        }
    }

    /// Lay the elements out horizontally, `step` columns apart.
    pub fn horizontal(self, step: isize) -> (r: MenuSettings)
        ensures
            r == (MenuSettings { menu_step: (step, 0isize), ..self }),
    {
        MenuSettings { menu_step: (step, 0), ..self }
    }

    /// Lay the elements out vertically, `step` rows apart.
    pub fn vertical(self, step: isize) -> (r: MenuSettings)
        ensures
            r == (MenuSettings { menu_step: (0isize, step), ..self }),
    {
        MenuSettings { menu_step: (0, step), ..self }
    }

    /// Align each element's text this way.
    pub fn align(self, text_align: TextAlign) -> (r: MenuSettings)
        ensures
            r == (MenuSettings { text_align, ..self }),
    {
        MenuSettings { text_align, ..self }
    }

    /// Keep the selected element at the menu's anchor position.
    pub fn fix_selection(self) -> (r: MenuSettings)
        ensures
            r == (MenuSettings { fix_selected: true, ..self }),
    {
        MenuSettings { fix_selected: true, ..self }
    }

    /// Paint only the selected element.
    pub fn hide_others(self) -> (r: MenuSettings)
        ensures
            r == (MenuSettings { hide_others: true, ..self }),
    {
        MenuSettings { hide_others: true, ..self }
    }

    /// Wrap the cursor at the ends.
    pub fn wrapping(self) -> (r: MenuSettings)
        ensures
            r == (MenuSettings { wrapping: true, ..self }),
    {
        MenuSettings { wrapping: true, ..self }
    }
}

/// A drawable menu: a selection cursor over drawable elements, a layout,
/// and the extent painted by the previous draw.
pub struct GraphicalMenu<T> {
    menu: SelectionMenu<T>,
    pos: TextBufferPos,
    settings: MenuSettings,
    last_rect: Option<TextBufferRect>,
    dirty: bool,
}

impl<T: Drawable<TextFormatting>> GraphicalMenu<T> {
    /// The underlying selection cursor.
    pub closed spec fn sel_menu(&self) -> SelectionMenu<T> {
        self.menu
    }

    /// The menu's anchor position.
    pub closed spec fn pos_spec(&self) -> TextBufferPos {
        self.pos
    }

    /// The menu's layout settings.
    pub closed spec fn settings_spec(&self) -> MenuSettings {
        self.settings
    }

    /// The extent painted by the previous draw, if any.
    pub closed spec fn last_rect_spec(&self) -> Option<TextBufferRect> {
        self.last_rect
    }

    /// Whether the menu changed since dirtiness was last taken.
    pub closed spec fn dirty_spec(&self) -> bool {
        self.dirty
    }

    /// How many elements the menu has.
    pub open spec fn menu_len(&self) -> int {
        self.sel_menu().elements_spec().len() as int
    }

    /// Well-formedness: a well-formed cursor.
    pub open spec fn inv(&self) -> bool {
        self.sel_menu().inv()
    }

    /// The selected index, or the remembered reselect index.
    pub open spec fn force_index_spec(&self) -> int {
        match self.sel_menu().selected_spec() {
            Some(i) => i as int,
            None => self.sel_menu().reselect_spec(),
        }
    }

    /// Where element 0 anchors: the menu position, shifted back along the
    /// step vector when the selected element is fixed at the anchor.
    pub open spec fn base_spec(&self) -> (int, int) {
        if !self.settings_spec().fix_selected {
            (self.pos_spec().x as int, self.pos_spec().y as int)
        } else {
            (
                self.pos_spec().x - self.settings_spec().menu_step.0 * self.force_index_spec(),
                self.pos_spec().y - self.settings_spec().menu_step.1 * self.force_index_spec(),
            )
        }
    }

    /// Where element `k` anchors.
    pub open spec fn item_pos_spec(&self, k: int) -> TextBufferPos {
        TextBufferPos {
            x: (self.base_spec().0 + self.settings_spec().menu_step.0 * k) as isize,
            y: (self.base_spec().1 + self.settings_spec().menu_step.1 * k) as isize,
        }
    }

    /// How element `k` is painted: the selected color on the selection,
    /// the unselected color otherwise, with the menu's alignment.
    pub open spec fn item_fmt_spec(&self, k: int) -> TextFormatting {
        TextFormatting {
            color: if self.sel_menu().selected_spec() == Some(k as usize) {
                self.settings_spec().selected_color
            } else {
                self.settings_spec().unselected_color
            },
            alignment: self.settings_spec().text_align,
        }
    }

    /// Whether element `k` is painted at all.
    pub open spec fn item_shown_spec(&self, k: int) -> bool {
        self.sel_menu().selected_spec() == Some(k as usize) || !self.settings_spec().hide_others
    }

    /// The run element `k` paints.
    pub open spec fn item_run_spec(&self, k: int) -> (int, int, Seq<Cell>) {
        self.sel_menu().elements_spec()[k].draw_run(self.item_pos_spec(k), &self.item_fmt_spec(k))
    }

    /// The cell left at (x, y) after elements `0..k` painted over `base`,
    /// later elements painting over earlier ones.
    pub open spec fn paint_upto(&self, k: int, x: int, y: int, base: Cell) -> Cell
        decreases k,
    {
        if k <= 0 {
            base
        } else {
            let prev = self.paint_upto(k - 1, x, y, base);
            let run = self.item_run_spec(k - 1);
            if self.item_shown_spec(k - 1) && y == run.1 && run.0 <= x < run.0 + run.2.len() {
                run.2[x - run.0]
            } else {
                prev
            }
        }
    }

    /// The united extent of the runs of elements `0..k` that are shown.
    pub open spec fn rect_upto(&self, k: int) -> Option<TextBufferRect>
        decreases k,
    {
        if k <= 0 {
            None
        } else {
            let prev = self.rect_upto(k - 1);
            if self.item_shown_spec(k - 1) {
                let run = self.item_run_spec(k - 1);
                let rr = TextBufferRect {
                    x: run.0 as isize,
                    y: run.1 as isize,
                    width: run.2.len() as usize,
                    height: 1,
                };
                match prev {
                    None => Some(rr),
                    Some(p) => Some(p.union_spec(rr)),
                }
            } else {
                prev
            }
        }
    }

    /// Every shown element can be drawn: anchors and runs stay in machine
    /// range and each element's own drawing requirements hold. Placement
    /// is unconstrained; the write paths clip off-screen parts.
    pub open spec fn draw_req_spec(&self) -> bool {
        &&& isize::MIN <= self.base_spec().0 <= isize::MAX
        &&& isize::MIN <= self.base_spec().1 <= isize::MAX
        &&& forall|k: int|
            0 <= k < self.menu_len() && #[trigger] self.item_shown_spec(k) ==> {
                let px = self.base_spec().0 + self.settings_spec().menu_step.0 * k;
                let py = self.base_spec().1 + self.settings_spec().menu_step.1 * k;
                let run = self.item_run_spec(k);
                &&& isize::MIN <= px <= isize::MAX
                &&& isize::MIN <= py <= isize::MAX
                &&& self.sel_menu().elements_spec()[k].draw_req(
                    self.item_pos_spec(k),
                    &self.item_fmt_spec(k),
                )
                &&& isize::MIN <= run.0
                &&& run.2.len() <= isize::MAX
                &&& run.0 + run.2.len() <= isize::MAX
                &&& isize::MIN <= run.1 <= isize::MAX
            }
    }

    /// The dirty rectangle element `k`'s run registers, for each shown
    /// element.
    pub open spec fn writes_rect(&self, r: TextBufferRect) -> bool {
        exists|k: int|
            {
                &&& 0 <= k < self.menu_len()
                &&& #[trigger] self.item_shown_spec(k)
                &&& r == ({
                    let run = self.item_run_spec(k);
                    TextBufferRect {
                        x: run.0 as isize,
                        y: run.1 as isize,
                        width: run.2.len() as usize,
                        height: 1,
                    }
                })
            }
    }

    /// A fresh menu over `elements`, unselected, not yet drawn, and in
    /// need of a first draw.
    pub fn new(elements: Vec<T>, pos: TextBufferPos, settings: MenuSettings) -> (r: GraphicalMenu<
        T,
    >)
        ensures
            r.inv(),
            r.sel_menu().elements_spec() == elements@,
            r.sel_menu().selected_spec() is None,
            r.sel_menu().reselect_spec() == 0,
            r.pos_spec() == pos,
            r.settings_spec() == settings,
            r.last_rect_spec() is None,
            r.dirty_spec() == true,
    {
        GraphicalMenu {
            menu: SelectionMenu::new(elements),
            pos,
            settings,
            last_rect: None,
            dirty: true,
        }
    }

    /// Paint every shown element, each at its place along the step vector,
    /// and remember the united extent painted.
    pub fn draw<S: TextBufferInterface>(&mut self, screen: &mut S)
        requires
            old(self).inv(),
            old(screen).ifc_inv(),
            old(self).draw_req_spec(),
            forall|r: TextBufferRect| #[trigger] old(self).writes_rect(r) ==> old(
                screen,
            ).dirty_req(r),
        ensures
            final(self).inv(),
            final(screen).ifc_inv(),
            final(screen).ifc_width() == old(screen).ifc_width(),
            final(screen).ifc_height() == old(screen).ifc_height(),
            forall|x: int, y: int| #[trigger] final(screen).valid_pos(x, y) == old(
                screen,
            ).valid_pos(x, y),
            forall|x: int, y: int|
                old(screen).valid_pos(x, y) ==> #[trigger] final(screen).ifc_cell(x, y) == old(
                    self,
                ).paint_upto(old(self).menu_len(), x, y, old(screen).ifc_cell(x, y)),
            final(self).last_rect_spec() == old(self).rect_upto(old(self).menu_len()),
            final(self).sel_menu() == old(self).sel_menu(),
            final(self).pos_spec() == old(self).pos_spec(),
            final(self).settings_spec() == old(self).settings_spec(),
            final(self).dirty_spec() == old(self).dirty_spec(),
    {
        let ghost m0 = *old(self);
        let ghost scr0 = *old(screen);
        let mut running_rect: Option<TextBufferRect> = None;
        let fix = self.settings.fix_selected;
        let step = self.settings.menu_step;
        let (bx, by): (isize, isize) = if !fix {
            (self.pos.x, self.pos.y)
        } else {
            let i = self.menu.force_index();
            let bx_w: i128 = self.pos.x as i128 - step.0 as i128 * i as i128;
            let by_w: i128 = self.pos.y as i128 - step.1 as i128 * i as i128;
            (bx_w as isize, by_w as isize)
        };
        proof {
            assert(bx as int == m0.base_spec().0 && by as int == m0.base_spec().1);
        }
        let n = self.menu.elements().len();
        let mut k: usize = 0;
        while k < n
            invariant
                m0 == *old(self),
                m0.inv(),
                scr0.ifc_inv(),
                m0.draw_req_spec(),
                forall|r: TextBufferRect| #[trigger] m0.writes_rect(r) ==> screen.dirty_req(r),
                self == old(self),
                n == m0.menu_len(),
                0 <= k <= n,
                bx as int == m0.base_spec().0,
                by as int == m0.base_spec().1,
                step == m0.settings_spec().menu_step,
                screen.ifc_inv(),
                screen.ifc_width() == scr0.ifc_width(),
                screen.ifc_height() == scr0.ifc_height(),
                forall|x: int, y: int| #[trigger] screen.valid_pos(x, y) == scr0.valid_pos(x, y),
                forall|x: int, y: int|
                    scr0.valid_pos(x, y) ==> #[trigger] screen.ifc_cell(x, y) == m0.paint_upto(
                        k as int,
                        x,
                        y,
                        scr0.ifc_cell(x, y),
                    ),
                running_rect == m0.rect_upto(k as int),
            decreases n - k,
        {
            let is_selected = match self.menu.selected_index() {
                Some(s) => s == k,
                None => false,
            };
            let shown = is_selected || !self.settings.hide_others;
            proof {
                assert(shown == m0.item_shown_spec(k as int));
            }
            if shown {
                let color = if is_selected {
                    self.settings.selected_color
                } else {
                    self.settings.unselected_color
                };
                let px_w: i128 = bx as i128 + step.0 as i128 * k as i128;
                let py_w: i128 = by as i128 + step.1 as i128 * k as i128;
                let position = TextBufferPos { x: px_w as isize, y: py_w as isize };
                let fmt = TextFormatting::new(color, self.settings.text_align);
                proof {
                    assert(position == m0.item_pos_spec(k as int));
                    assert(fmt == m0.item_fmt_spec(k as int));
                }
                proof {
                    assert(m0.writes_rect(
                        TextBufferRect {
                            x: m0.item_run_spec(k as int).0 as isize,
                            y: m0.item_run_spec(k as int).1 as isize,
                            width: m0.item_run_spec(k as int).2.len() as usize,
                            height: 1,
                        },
                    ));
                }
                let ghost scr_pre = *screen;
                let rect = self.menu.elements()[k].draw(screen, position, &fmt);
                proof {
                    let run = m0.item_run_spec(k as int);
                    assert(rect == (TextBufferRect {
                        x: run.0 as isize,
                        y: run.1 as isize,
                        width: run.2.len() as usize,
                        height: 1,
                    }));
                    assert forall|r: TextBufferRect| #[trigger] m0.writes_rect(r)
                        implies screen.dirty_req(r) by {
                        S::lemma_dirty_req_after_noted(scr_pre, *screen, rect, r);
                    }
                    assert forall|x: int, y: int| scr0.valid_pos(x, y)
                        implies #[trigger] screen.ifc_cell(x, y) == m0.paint_upto(
                        k + 1,
                        x,
                        y,
                        scr0.ifc_cell(x, y),
                    ) by {
                        assert(scr_pre.ifc_cell(x, y) == m0.paint_upto(
                            k as int,
                            x,
                            y,
                            scr0.ifc_cell(x, y),
                        ));
                    }
                }
                running_rect = match running_rect {
                    Some(rr) => Some(rr.union(&rect)),
                    None => Some(rect),
                };
            }
            k += 1;
        }
        self.last_rect = running_rect;
    }

    /// Move the cursor to the previous element, per the wrapping setting,
    /// and mark the menu dirty.
    pub fn prev(&mut self)
        requires
            old(self).inv(),
            old(self).menu_len() > 0,
        ensures
            final(self).inv(),
            final(self).dirty_spec() == true,
            final(self).sel_menu().elements_spec() == old(self).sel_menu().elements_spec(),
            final(self).sel_menu().reselect_spec() == old(self).sel_menu().reselect_spec(),
            final(self).sel_menu().selected_spec() == Some(
                (match old(self).sel_menu().selected_spec() {
                    Some(i) => {
                        if i == 0 {
                            if old(self).settings_spec().wrapping {
                                old(self).menu_len() - 1
                            } else {
                                0
                            }
                        } else {
                            i - 1
                        }
                    },
                    None => old(self).sel_menu().spec_reselect_landing(),
                }) as usize,
            ),
            final(self).pos_spec() == old(self).pos_spec(),
            final(self).settings_spec() == old(self).settings_spec(),
            final(self).last_rect_spec() == old(self).last_rect_spec(),
    {
        let w = self.settings.wrapping;
        self.dirty = true;
        self.menu.prev(w);
    }

    /// Move the cursor to the next element, per the wrapping setting, and
    /// mark the menu dirty.
    pub fn next(&mut self)
        requires
            old(self).inv(),
            old(self).menu_len() > 0,
        ensures
            final(self).inv(),
            final(self).dirty_spec() == true,
            final(self).sel_menu().elements_spec() == old(self).sel_menu().elements_spec(),
            final(self).sel_menu().reselect_spec() == old(self).sel_menu().reselect_spec(),
            final(self).sel_menu().selected_spec() == Some(
                (match old(self).sel_menu().selected_spec() {
                    Some(i) => {
                        if i + 1 == old(self).menu_len() {
                            if old(self).settings_spec().wrapping {
                                0
                            } else {
                                i as int
                            }
                        } else {
                            i + 1
                        }
                    },
                    None => old(self).sel_menu().spec_reselect_landing(),
                }) as usize,
            ),
            final(self).pos_spec() == old(self).pos_spec(),
            final(self).settings_spec() == old(self).settings_spec(),
            final(self).last_rect_spec() == old(self).last_rect_spec(),
    {
        let w = self.settings.wrapping;
        self.dirty = true;
        self.menu.next(w);
    }

    /// The underlying selection cursor.
    pub fn menu(&self) -> (r: &SelectionMenu<T>)
        ensures
            *r == self.sel_menu(),
    {
        &self.menu
    }

    /// Mutable access to the cursor; the menu is marked dirty.
    pub fn mut_menu(&mut self) -> (r: &mut SelectionMenu<T>)
        requires
            old(self).inv(),
        ensures
            *r == old(self).sel_menu(),
            final(self).sel_menu() == *final(r),
            final(self).dirty_spec() == true,
            final(self).pos_spec() == old(self).pos_spec(),
            final(self).settings_spec() == old(self).settings_spec(),
            final(self).last_rect_spec() == old(self).last_rect_spec(),
    {
        self.dirty = true;
        &mut self.menu
    }

    /// Clear the extent painted by the previous draw, if any.
    pub fn clear_last<S: TextBufferInterface>(&self, screen: &mut S)
        requires
            self.inv(),
            old(screen).ifc_inv(),
            match self.last_rect_spec() {
                Some(cr) => old(screen).clear_req(cr),
                None => true,
            },
        ensures
            final(screen).ifc_inv(),
            final(screen).ifc_width() == old(screen).ifc_width(),
            final(screen).ifc_height() == old(screen).ifc_height(),
            forall|x: int, y: int| #[trigger] final(screen).valid_pos(x, y) == old(
                screen,
            ).valid_pos(x, y),
            forall|x: int, y: int|
                old(screen).valid_pos(x, y) ==> #[trigger] final(screen).ifc_cell(x, y) == (
                match self.last_rect_spec() {
                    Some(cr) => match old(screen).clear_local(cr) {
                        Some(l) => {
                            if l.contains_point_spec(x, y) {
                                spec_blank_cell()
                            } else {
                                old(screen).ifc_cell(x, y)
                            }
                        },
                        None => old(screen).ifc_cell(x, y),
                    },
                    None => old(screen).ifc_cell(x, y),
                }),
            match self.last_rect_spec() {
                Some(cr) => S::clear_noted(*old(screen), *final(screen), cr),
                None => *final(screen) == *old(screen),
            },
    {
        match self.last_rect {
            Some(rect) => {
                screen.clear_rect(rect);
            },
            None => {},
        }
    }

    /// Report and reset whether the menu needs a redraw.
    pub fn take_dirty(&mut self) -> (r: bool)
        requires
            old(self).inv(),
        ensures
            final(self).inv(),
            r == old(self).dirty_spec(),
            final(self).dirty_spec() == false,
            final(self).sel_menu() == old(self).sel_menu(),
            final(self).pos_spec() == old(self).pos_spec(),
            final(self).settings_spec() == old(self).settings_spec(),
            final(self).last_rect_spec() == old(self).last_rect_spec(),
    {
        let dirty = self.dirty;
        self.dirty = false;
        dirty
    }

    /// The menu's layout settings.
    pub fn settings(&self) -> (r: &MenuSettings)
        ensures
            *r == self.settings_spec(),
    {
        &self.settings
    }

    /// Mutable access to the layout settings; the menu is marked dirty.
    pub fn mut_settings(&mut self) -> (r: &mut MenuSettings)
        requires
            old(self).inv(),
        ensures
            *r == old(self).settings_spec(),
            final(self).settings_spec() == *final(r),
            final(self).dirty_spec() == true,
            final(self).sel_menu() == old(self).sel_menu(),
            final(self).pos_spec() == old(self).pos_spec(),
            final(self).last_rect_spec() == old(self).last_rect_spec(),
    {
        self.dirty = true;
        &mut self.settings
    }

    /// Move the menu's anchor position.
    pub fn set_pos(&mut self, pos: TextBufferPos)
        requires
            old(self).inv(),
        ensures
            final(self).inv(),
            final(self).pos_spec() == pos,
            final(self).sel_menu() == old(self).sel_menu(),
            final(self).settings_spec() == old(self).settings_spec(),
            final(self).last_rect_spec() == old(self).last_rect_spec(),
            final(self).dirty_spec() == old(self).dirty_spec(),
    {
        self.pos = pos;
    }
}

impl<T: Drawable<TextFormatting>> UIElement for GraphicalMenu<T> {
    open spec fn ui_inv(&self) -> bool {
        self.inv()
    }

    open spec fn ui_dirty(&self) -> bool {
        self.dirty_spec()
    }

    open spec fn ui_took(pre: Self, post: Self) -> bool {
        &&& post.dirty_spec() == false
        &&& post.sel_menu() == pre.sel_menu()
        &&& post.pos_spec() == pre.pos_spec()
        &&& post.settings_spec() == pre.settings_spec()
        &&& post.last_rect_spec() == pre.last_rect_spec()
    }

    open spec fn ui_drew(pre: Self, post: Self) -> bool {
        &&& post.last_rect_spec() == pre.rect_upto(pre.menu_len())
        &&& post.sel_menu() == pre.sel_menu()
        &&& post.pos_spec() == pre.pos_spec()
        &&& post.settings_spec() == pre.settings_spec()
        &&& post.dirty_spec() == pre.dirty_spec()
    }

    open spec fn ui_clears(&self) -> Option<TextBufferRect> {
        None
    }

    open spec fn ui_paints(&self, x: int, y: int, base: Cell) -> Cell {
        self.paint_upto(self.menu_len(), x, y, base)
    }

    open spec fn ui_draw_req(&self, w: int, h: int) -> bool {
        self.draw_req_spec()
    }

    open spec fn ui_writes(&self, r: TextBufferRect) -> bool {
        self.writes_rect(r)
    }

    open spec fn ui_last_rect(&self) -> Option<TextBufferRect> {
        self.last_rect_spec()
    }

    fn take_dirty(&mut self) -> (r: bool) {
        GraphicalMenu::take_dirty(self)
    }

    fn ui_draw<S: TextBufferInterface>(&mut self, screen: &mut S) {
        proof {
            assert forall|r: TextBufferRect| #[trigger] old(self).writes_rect(r) implies old(
                screen,
            ).dirty_req(r) by {
                assert(<GraphicalMenu<T> as UIElement>::ui_writes(old(self), r));
            }
        }
        GraphicalMenu::draw(self, screen);
    }

    fn clear_last<S: TextBufferInterface>(&self, screen: &mut S) {
        GraphicalMenu::clear_last(self, screen);
    }
}

/// The cells of a menu rendered as a one-line spinner: the selected
/// element's text between an angle-bracket pair.
pub open spec fn spec_spinner_cells(s: Seq<char>, color: CharacterColor) -> Seq<Cell> {
    seq![(VGAChar(0x3c), color), (VGAChar(0x20), color)] + spec_string_cells(s, color) + seq![
        (VGAChar(0x20), color),
        (VGAChar(0x3e), color),
    ]
}

impl<T: Drawable<TextFormatting> + TextDrawable<TextFormatting>> Drawable<
    TextFormatting,
> for GraphicalMenu<T> {
    open spec fn draw_run(&self, pos: TextBufferPos, settings: &TextFormatting) -> (
        int,
        int,
        Seq<Cell>,
    ) {
        let s = self.sel_menu().elements_spec()[self.force_index_spec()].text_spec();
        let data = spec_spinner_cells(s, settings.color);
        (
            settings.alignment.align_spec(pos, data.len() as int).x as int,
            pos.y as int,
            data,
        )
    }

    open spec fn draw_req(&self, pos: TextBufferPos, settings: &TextFormatting) -> bool {
        let s = self.sel_menu().elements_spec()[self.force_index_spec()].text_spec();
        &&& self.sel_menu().inv()
        &&& self.menu_len() > 0
        &&& forall|i: int| 0 <= i < s.len() ==> spec_char_representable(#[trigger] s[i])
        &&& settings.alignment.align_req(pos, s.len() as int + 4)
        &&& s.len() as int + 4 <= isize::MAX
        &&& settings.alignment.align_spec(pos, s.len() as int + 4).x + s.len() + 4 <= isize::MAX
    }

    fn draw<S: TextBufferInterface>(
        &self,
        screen: &mut S,
        pos: TextBufferPos,
        settings: &TextFormatting,
    ) -> (r: TextBufferRect) {
        let color = settings.color;
        let mut total: Vec<Cell> = Vec::new();
        total.push((VGAChar(0x3c), color));
        total.push((VGAChar(0x20), color));
        let text = self.menu.force_selected().as_str();
        let ghost s = text@;
        let n = text.unicode_len();
        let mut j: usize = 0;
        while j < n
            invariant
                s == text@,
                s == self.sel_menu().elements_spec()[self.force_index_spec()].text_spec(),
                n == s.len(),
                forall|i: int| 0 <= i < s.len() ==> spec_char_representable(#[trigger] s[i]),
                0 <= j <= n,
                total@ =~= seq![(VGAChar(0x3c), color), (VGAChar(0x20), color)]
                    + spec_string_cells(s.take(j as int), color),
            decreases n - j,
        {
            let ch = text.get_char(j);
            match VGAChar::from_char(ch) {
                Ok(g) => {
                    total.push((g, color));
                    proof {
                        assert(spec_string_cells(s.take(j + 1), color) =~= spec_string_cells(
                            s.take(j as int),
                            color,
                        ).push((g, color)));
                        assert(total@ =~= seq![(VGAChar(0x3c), color), (VGAChar(0x20), color)]
                            + spec_string_cells(s.take(j + 1), color));
                    }
                },
                Err(_) => {
                    proof {
                        assert(false);
                    }
                },
            }
            j += 1;
        }
        total.push((VGAChar(0x20), color));
        total.push((VGAChar(0x3e), color));
        proof {
            assert(s.take(n as int) =~= s);
            assert(total@ =~= spec_spinner_cells(s, color));
            assert(total@.len() == s.len() + 4);
        }
        screen.write_data_align(pos, total.as_slice(), settings.alignment)
    }
}

} // verus!
