use asciiengine::menu::SelectionMenu;

#[test]
fn prev_without_wrapping_clamps_at_front() {
    let mut m = SelectionMenu::new(vec!["A", "B", "C"]);
    assert_eq!(m.selected_index(), None);
    // From unselected, the first move lands on the reselect index.
    m.prev(false);
    assert_eq!(m.selected_index(), Some(0));
    // At the front without wrapping, another move stays put.
    m.prev(false);
    assert_eq!(m.selected_index(), Some(0));
}

#[test]
fn prev_with_wrapping_moves_to_last() {
    let mut m = SelectionMenu::new(vec!["A", "B", "C"]);
    m.prev(true);
    assert_eq!(m.selected_index(), Some(0));
    m.prev(true);
    assert_eq!(m.selected_index(), Some(2));
}

#[test]
fn next_walks_and_wraps() {
    let mut m = SelectionMenu::new(vec!["A", "B", "C"]);
    m.next(false);
    m.next(false);
    m.next(false);
    assert_eq!(m.selected_index(), Some(2));
    m.next(false);
    assert_eq!(m.selected_index(), Some(2));
    m.next(true);
    assert_eq!(m.selected_index(), Some(0));
}

#[test]
fn deselect_remembers_reselect_point() {
    let mut m = SelectionMenu::new(vec!["A", "B", "C"]);
    m.next(false);
    m.next(false);
    assert_eq!(m.selected_index(), Some(1));
    m.deselect();
    assert_eq!(m.selected_index(), None);
    assert_eq!(m.force_index(), 1);
    m.next(false);
    assert_eq!(m.selected_index(), Some(1));
}

#[test]
fn selected_and_force_selected() {
    let mut m = SelectionMenu::new(vec!["A", "B", "C"]);
    assert_eq!(m.selected(), None);
    m.next(false);
    assert_eq!(m.selected(), Some(&"A"));
    assert_eq!(*m.force_selected(), "A");
    assert!(m.is_first_selected());
    assert!(!m.is_last_selected());
}

#[test]
fn remove_shifts_indices_down_but_not_below_zero() {
    let mut m = SelectionMenu::new(vec!["A", "B", "C", "D"]);
    m.next(false);
    m.next(false);
    m.next(false);
    assert_eq!(m.selected_index(), Some(2));
    // Removing before the cursor shifts it down by one.
    assert_eq!(m.remove_element_index(0), "A");
    assert_eq!(m.selected_index(), Some(1));
    // Removing the selected element leaves the cursor on the next
    // element by position.
    assert_eq!(m.remove_element_index(1), "C");
    assert_eq!(m.selected_index(), Some(0));
    assert_eq!(m.selected(), Some(&"B"));
    // At the front the cursor never goes below zero.
    assert_eq!(m.remove_element_index(0), "B");
    assert_eq!(m.selected_index(), Some(0));
}

#[test]
fn add_and_replace_elements() {
    let mut m = SelectionMenu::new(vec!["A", "B", "C"]);
    m.next(false);
    m.next(false);
    m.next(false);
    assert_eq!(m.selected_index(), Some(2));
    m.add_element("D");
    assert_eq!(m.elements(), &vec!["A", "B", "C", "D"]);
    // Replacing with a shorter list clamps the cursor to the new count.
    m.replace_elements(vec!["x", "y"]);
    assert_eq!(m.selected_index(), Some(1));
    assert_eq!(m.selected(), Some(&"y"));
}

#[test]
fn elements_flagged_marks_exactly_the_selection() {
    let mut m = SelectionMenu::new(vec!["A", "B", "C"]);
    m.next(false);
    m.next(false);
    assert_eq!(m.elements_flagged(), vec![false, true, false]);
}
