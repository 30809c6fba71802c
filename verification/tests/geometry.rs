use smalltui::rect::Rect;

#[test]
fn rect_test_new() {
    let rect = Rect::new(10, 20, 30, 40);
    assert_eq!(
        rect,
        Rect {
            x: 10,
            y: 20,
            width: 30,
            height: 40
        }
    );
}

#[test]
fn test_contains() {
    let rect1 = Rect::new(10, 20, 30, 40);
    let rect2 = Rect::new(15, 25, 10, 10);
    let rect3 = Rect::new(0, 0, 50, 50);
    assert!(rect1.contains(&rect2));
    assert!(!rect1.contains(&rect3));
}

#[test]
fn test_offset() {
    let rect = Rect::new(10, 20, 30, 40);
    let offset_rect = rect.offset(5, 10);
    assert_eq!(
        offset_rect,
        Rect {
            x: 15,
            y: 30,
            width: 30,
            height: 40
        }
    );
}

#[test]
fn test_crop() {
    let rect1 = Rect::new(10, 20, 30, 40);
    let rect2 = Rect::new(20, 30, 30, 30);
    let cropped_rect = rect1.crop(&rect2);
    assert_eq!(
        cropped_rect,
        Rect {
            x: 20,
            y: 30,
            width: 20,
            height: 30
        }
    );
}

#[test]
fn test_bottom() {
    let rect = Rect::new(10, 20, 30, 40);
    assert_eq!(rect.bottom(), 60);
}

#[test]
fn test_right() {
    let rect = Rect::new(10, 20, 30, 40);
    assert_eq!(rect.right(), 40);
}

#[test]
fn test_left() {
    let rect = Rect::new(10, 20, 30, 40);
    assert_eq!(rect.left(), 10);
}

#[test]
fn test_top() {
    let rect = Rect::new(10, 20, 30, 40);
    assert_eq!(rect.top(), 20);
}

#[test]
fn crop_is_contained_in_both_and_idempotent() {
    let a = Rect::new(5, 5, 20, 10);
    let b = Rect::new(15, 0, 30, 25);
    let c = a.crop(&b);
    assert!(a.contains(&c));
    assert!(b.contains(&c));
    assert_eq!(c.crop(&a), c);
    assert_eq!(a.crop(&b), b.crop(&a));
    assert_eq!(a.crop(&a), a);
}

#[test]
fn disjoint_crop_has_zero_area() {
    let a = Rect::new(0, 0, 10, 10);
    let b = Rect::new(50, 60, 5, 5);
    let c = a.crop(&b);
    assert!(c.width == 0 || c.height == 0);
    let d = Rect::new(0, 0, 10, 10).crop(&Rect::new(10, 0, 5, 5));
    assert!(d.width == 0 || d.height == 0);
}

#[test]
fn offset_saturates_at_the_edge() {
    let a = Rect::new(65000, 65000, 10, 10);
    let moved = a.offset(60000, 1000);
    assert_eq!(moved, Rect::new(65535, 65535, 10, 10));
}
