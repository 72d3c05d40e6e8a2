use asciiengine::structs::{TextAlign, TextBufferPos, TextBufferRect};

fn rect(x: isize, y: isize, width: usize, height: usize) -> TextBufferRect {
    TextBufferRect::new(x, y, width, height)
}

#[test]
fn rect_edges_and_area() {
    let a = rect(2, 3, 10, 5);
    assert_eq!(a.right(), 12);
    assert_eq!(a.bottom(), 8);
    assert_eq!(a.area(), 50);
    assert_eq!(a.horizontal_center(), 7);
    assert_eq!(a.vertical_center(), 5);
}

#[test]
fn interior_insets_by_one() {
    let a = rect(2, 3, 10, 5);
    let i = a.interior();
    assert_eq!(i, rect(3, 4, 8, 3));
    // The interior law: width shrinks by exactly 2.
    assert_eq!(i.width, a.width - 2);
    assert_eq!(i.height, a.height - 2);
}

#[test]
fn contains_and_contains_point() {
    let a = rect(0, 0, 10, 10);
    assert!(a.contains(&rect(2, 2, 3, 3)));
    assert!(a.contains(&a));
    assert!(!a.contains(&rect(8, 8, 5, 5)));
    assert!(a.contains_point(0, 0));
    assert!(a.contains_point(9, 9));
    assert!(!a.contains_point(10, 0));
    assert!(!a.contains_point(-1, 5));
}

#[test]
fn intersection_none_iff_no_overlap() {
    let a = rect(0, 0, 4, 4);
    let b = rect(2, 2, 4, 4);
    let c = rect(10, 10, 2, 2);
    assert!(a.overlap(&b));
    assert!(a.intersection(&b).is_some());
    assert!(!a.overlap(&c));
    assert!(a.intersection(&c).is_none());
}

#[test]
fn intersection_exact_cover() {
    let a = rect(0, 0, 4, 4);
    let b = rect(2, 2, 4, 4);
    assert_eq!(a.intersection(&b), Some(rect(2, 2, 2, 2)));
}

#[test]
fn overlap_is_corner_containment() {
    // One rectangle fully surrounding another shares no corner with it:
    // the corner test reports the overlap only one way around.
    let outer = rect(0, 0, 10, 10);
    let inner = rect(3, 3, 2, 2);
    assert!(outer.overlap(&inner));
    assert!(!inner.overlap(&outer));
}

#[test]
fn union_contains_both() {
    let a = rect(-2, 1, 3, 3);
    let b = rect(4, -1, 2, 5);
    let u = a.union(&b);
    assert_eq!(u, rect(-2, -1, 8, 5));
    assert!(u.contains(&a));
    assert!(u.contains(&b));
}

#[test]
fn align_text_shifts_anchor() {
    let pos = TextBufferPos::new(10, 4);
    let left = TextAlign::Left.align_text(pos, 6);
    assert_eq!((left.x, left.y), (10, 4));
    let right = TextAlign::Right.align_text(pos, 6);
    assert_eq!((right.x, right.y), (4, 4));
    let center = TextAlign::Center.align_text(pos, 6);
    assert_eq!((center.x, center.y), (7, 4));
}
