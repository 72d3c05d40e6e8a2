//! A selection cursor over an ordered list of elements.
//!
//! The cursor is either unselected or at an index; moves clamp or wrap at
//! the ends, and deselecting remembers the index to reselect at.

use vstd::prelude::*;

verus! {

/// A cursor over a list of elements: `Unselected` is the `None` state, and
/// a remembered reselect index says where the cursor returns on the next
/// move after a deselect.
pub struct SelectionMenu<T> {
    elements: Vec<T>,
    selected_index: Option<usize>,
    reselect_index: usize,
}

impl<T> SelectionMenu<T> {
    /// The elements, in order.
    pub closed spec fn elements_spec(&self) -> Seq<T> {
        self.elements@
    }

    /// The live selection, if any.
    pub closed spec fn selected_spec(&self) -> Option<usize> {
        self.selected_index
    }

    /// The remembered reselect index.
    pub closed spec fn reselect_spec(&self) -> int {
        self.reselect_index as int
    }

    /// Well-formedness: on a non-empty list both indices stay in range; an
    /// empty list can only carry the degenerate zero indices.
    pub open spec fn inv(&self) -> bool {
        &&& (self.elements_spec().len() == 0 ==> self.reselect_spec() == 0 && (
        self.selected_spec() is None || self.selected_spec() == Some(0usize)))
        &&& (self.elements_spec().len() > 0 ==> self.reselect_spec()
            < self.elements_spec().len() && (match self.selected_spec() {
            Some(i) => i < self.elements_spec().len(),
            None => true,
        }))
    }

    /// The index a move from the unselected state lands on: the reselect
    /// index clamped to the element count.
    pub open spec fn spec_reselect_landing(&self) -> int {
        if self.reselect_spec() < self.elements_spec().len() - 1 {
            self.reselect_spec()
        } else {
            self.elements_spec().len() - 1
        }
    }

    /// A fresh menu over `elements`, unselected, reselecting at the front.
    pub fn new(elements: Vec<T>) -> (r: SelectionMenu<T>)
        ensures
            r.inv(),
            r.elements_spec() == elements@,
            r.selected_spec() is None,
            r.reselect_spec() == 0,
    {
        SelectionMenu { elements, selected_index: None, reselect_index: 0 }
    }

    /// Move to the previous element. At the front the cursor stays put, or
    /// wraps to the back when `wrapping` is set; from the unselected state
    /// it lands on the clamped reselect index.
    pub fn prev(&mut self, wrapping: bool)
        requires
            old(self).inv(),
            old(self).elements_spec().len() > 0,
        ensures
            final(self).inv(),
            final(self).elements_spec() == old(self).elements_spec(),
            final(self).reselect_spec() == old(self).reselect_spec(),
            final(self).selected_spec() == Some(
                (match old(self).selected_spec() {
                    Some(i) => {
                        if i == 0 {
                            if wrapping {
                                old(self).elements_spec().len() - 1
                            } else {
                                0
                            }
                        } else {
                            i - 1
                        }
                    },
                    None => old(self).spec_reselect_landing(),
                }) as usize,
            ),
    {
        match &mut self.selected_index {
            Some(index) => {
                if *index == 0 {
                    if wrapping {
                        *index = self.elements.len() - 1;
                    }
                } else {
                    *index = *index - 1;
                }
            },
            None => {
                let landing = if self.reselect_index < self.elements.len() - 1 {
                    self.reselect_index
                } else {
                    self.elements.len() - 1
                };
                self.selected_index = Some(landing);
            },
        }
    }

    /// Move to the next element. At the back the cursor stays put, or
    /// wraps to the front when `wrapping` is set; from the unselected state
    /// it lands on the clamped reselect index.
    pub fn next(&mut self, wrapping: bool)
        requires
            old(self).inv(),
            old(self).elements_spec().len() > 0,
        ensures
            final(self).inv(),
            final(self).elements_spec() == old(self).elements_spec(),
            final(self).reselect_spec() == old(self).reselect_spec(),
            final(self).selected_spec() == Some(
                (match old(self).selected_spec() {
                    Some(i) => {
                        if i + 1 == old(self).elements_spec().len() {
                            if wrapping {
                                0
                            } else {
                                i as int
                            }
                        } else {
                            i + 1
                        }
                    },
                    None => old(self).spec_reselect_landing(),
                }) as usize,
            ),
    {
        match &mut self.selected_index {
            Some(index) => {
                if *index == self.elements.len() - 1 {
                    if wrapping {
                        *index = 0;
                    }
                } else {
                    *index = *index + 1;
                }
            },
            None => {
                let landing = if self.reselect_index < self.elements.len() - 1 {
                    self.reselect_index
                } else {
                    self.elements.len() - 1
                };
                self.selected_index = Some(landing);
            },
        }
    }

    /// Drop the selection, remembering it as the new reselect index.
    pub fn deselect(&mut self)
        requires
            old(self).inv(),
        ensures
            final(self).inv(),
            final(self).elements_spec() == old(self).elements_spec(),
            final(self).selected_spec() is None,
            final(self).reselect_spec() == (match old(self).selected_spec() {
                Some(i) => i as int,
                None => old(self).reselect_spec(),
            }),
    {
        match self.selected_index {
            Some(previous_index) => {
                self.selected_index = None;
                self.reselect_index = previous_index;
            },
            None => {},
        }
    }

    /// The selected element, when there is a live in-range selection.
    pub fn selected(&self) -> (r: Option<&T>)
        requires
            self.inv(),
        ensures
            match self.selected_spec() {
                Some(i) => {
                    if i < self.elements_spec().len() {
                        r == Some(&self.elements_spec()[i as int])
                    } else {
                        r is None
                    }
                },
                None => r is None,
            },
    {
        match self.selected_index {
            Some(i) => {
                if i < self.elements.len() {
                    Some(&self.elements[i])
                } else {
                    None
                }
            },
            None => None,
        }
    }

    /// The selected index, if any.
    pub fn selected_index(&self) -> (r: Option<usize>)
        ensures
            r == self.selected_spec(),
    {
        self.selected_index
    }

    /// Whether the first element is selected.
    pub fn is_first_selected(&self) -> (r: bool)
        ensures
            r == (self.selected_spec() == Some(0usize)),
    {
        match self.selected_index {
            Some(i) => i == 0,
            None => false,
        }
    }

    /// Whether the last element is selected.
    pub fn is_last_selected(&self) -> (r: bool)
        requires
            self.inv(),
        ensures
            r == (match self.selected_spec() {
                Some(i) => i + 1 == self.elements_spec().len(),
                None => false,
            }),
    {
        let n = self.elements.len();
        match self.selected_index {
            Some(i) => {
                if i < n {
                    i + 1 == n
                } else {
                    false
                }
            },
            None => false,
        }
    }

    /// Append an element at the back.
    pub fn add_element(&mut self, element: T)
        requires
            old(self).inv(),
        ensures
            final(self).inv(),
            final(self).elements_spec() == old(self).elements_spec().push(element),
            final(self).selected_spec() == old(self).selected_spec(),
            final(self).reselect_spec() == old(self).reselect_spec(),
    {
        self.elements.push(element);
    }

    /// Remove and return the element at `index`, shifting the selected and
    /// reselect indices down by one when they sit at or past it (never
    /// below zero): removing the selected element leaves the cursor on the
    /// next element by position.
    pub fn remove_element_index(&mut self, index: usize) -> (r: T)
        requires
            old(self).inv(),
            index < old(self).elements_spec().len(),
        ensures
            final(self).inv(),
            r == old(self).elements_spec()[index as int],
            final(self).elements_spec() == old(self).elements_spec().remove(index as int),
            final(self).selected_spec() == (match old(self).selected_spec() {
                Some(s) => {
                    if s >= index && s > 0 {
                        Some((s - 1) as usize)
                    } else {
                        Some(s)
                    }
                },
                None => None::<usize>,
            }),
            final(self).reselect_spec() == (if old(self).reselect_spec() >= index && old(
                self,
            ).reselect_spec() > 0 {
                old(self).reselect_spec() - 1
            } else {
                old(self).reselect_spec()
            }),
    {
        match &mut self.selected_index {
            Some(selected_index) => {
                if *selected_index >= index && *selected_index > 0 {
                    *selected_index = *selected_index - 1;
                }
            },
            None => {},
        }
        if self.reselect_index >= index && self.reselect_index > 0 {
            self.reselect_index = self.reselect_index - 1;
        }
        self.elements.remove(index)
    }

    /// The elements, in order.
    pub fn elements(&self) -> (r: &Vec<T>)
        ensures
            r@ == self.elements_spec(),
    {
        &self.elements
    }

    /// Mutable access to the element at `index`.
    pub fn mutable_element(&mut self, index: usize) -> (r: &mut T)
        requires
            old(self).inv(),
            index < old(self).elements_spec().len(),
        ensures
            final(self).inv(),
            *r == old(self).elements_spec()[index as int],
            final(self).elements_spec() == old(self).elements_spec().update(
                index as int,
                *final(r),
            ),
            final(self).selected_spec() == old(self).selected_spec(),
            final(self).reselect_spec() == old(self).reselect_spec(),
    {
        &mut self.elements[index]
    }

    /// For each element, whether it is the selected one.
    pub fn elements_flagged(&self) -> (r: Vec<bool>)
        ensures
            r@.len() == self.elements_spec().len(),
            forall|i: int|
                0 <= i < r@.len() ==> #[trigger] r@[i] == (self.selected_spec() == Some(
                    i as usize,
                )),
    {
        let mut flags: Vec<bool> = Vec::new();
        let n = self.elements.len();
        let mut i: usize = 0;
        while i < n
            invariant
                0 <= i <= n,
                n == self.elements_spec().len(),
                flags@.len() == i,
                forall|j: int|
                    0 <= j < i ==> #[trigger] flags@[j] == (self.selected_spec() == Some(
                        j as usize,
                    )),
            decreases n - i,
        {
            let is_selected = match self.selected_index {
                Some(s) => s == i,
                None => false,
            };
            flags.push(is_selected);
            i += 1;
        }
        flags
    }

    /// The selected index, or where the cursor would land on the next
    /// move; in range whenever the list is non-empty.
    pub fn force_index(&self) -> (r: usize)
        requires
            self.inv(),
        ensures
            r == (match self.selected_spec() {
                Some(i) => i as int,
                None => self.reselect_spec(),
            }),
            self.elements_spec().len() > 0 ==> r < self.elements_spec().len(),
    {
        match self.selected_index {
            Some(i) => i,
            None => self.reselect_index,
        }
    }

    /// The element at the selected position, or at the reselect position.
    /// The list must be non-empty.
    pub fn force_selected(&self) -> (r: &T)
        requires
            self.inv(),
            self.elements_spec().len() > 0,
        ensures
            r == &self.elements_spec()[match self.selected_spec() {
                Some(i) => i as int,
                None => self.reselect_spec(),
            }],
    {
        let i = self.force_index();
        &self.elements[i]
    }

    /// Replace the whole element list, clamping both indices to the new
    /// count. The new list must be non-empty.
    pub fn replace_elements(&mut self, elements: Vec<T>)
        requires
            old(self).inv(),
            elements@.len() > 0,
        ensures
            final(self).inv(),
            final(self).elements_spec() == elements@,
            final(self).reselect_spec() == (if old(self).reselect_spec() < elements@.len() - 1 {
                old(self).reselect_spec()
            } else {
                elements@.len() - 1
            }),
            final(self).selected_spec() == (match old(self).selected_spec() {
                Some(v) => Some(
                    (if v < elements@.len() - 1 {
                        v as int
                    } else {
                        elements@.len() - 1
                    }) as usize,
                ),
                None => None::<usize>,
            }),
    {
        self.elements = elements;
        let last = self.elements.len() - 1;
        if self.reselect_index > last {
            self.reselect_index = last;
        }
        match &mut self.selected_index {
            Some(v) => {
                if *v > last {
                    *v = last;
                }
            },
            None => {},
        }
    }
}

} // verus!
