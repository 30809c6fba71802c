use smalltui::buffer::{Buffer, VecBuffer};
use smalltui::mediator::BufferMediator;
use smalltui::rect::Rect;

#[test]
fn buffer_mediator_test_new() {
    let area = Rect::new(0, 0, 100, 100);
    let mediator = BufferMediator::new(area, 10, 20);
    assert_eq!(mediator.area, area);
    assert_eq!(mediator.offset_x, 10);
    assert_eq!(mediator.offset_y, 20);
}

#[test]
fn test_get_visible_region() {
    let mediator = BufferMediator::new(Rect::new(0, 0, 100, 100), 10, 20);
    let area = Rect::new(5, 15, 50, 50);
    let visible_region = mediator.get_visible_region(&area);
    assert_eq!(visible_region, Rect::new(10, 20, 45, 45));
}

#[test]
fn test_map_to_screen_space() {
    let mediator = BufferMediator::new(Rect::new(0, 0, 100, 100), 10, 20);
    let area = Rect::new(15, 25, 50, 50);
    let screen_space = mediator.map_to_screen_space(&area);
    assert_eq!(screen_space, Rect::new(5, 5, 50, 50));
}

#[test]
fn test_generate_inner() {
    let mediator = BufferMediator::new(Rect::new(0, 0, 100, 100), 10, 20);
    let area = Rect::new(5, 15, 50, 50);
    let inner_mediator = mediator.generate_inner(&area, 5, 10);
    assert_eq!(inner_mediator.area, Rect::new(0, 0, 45, 45));
    assert_eq!(inner_mediator.offset_x, 10);
    assert_eq!(inner_mediator.offset_y, 15);
}

#[test]
fn test_generate_inner_upper_boundary() {
    let mediator = BufferMediator::new(Rect::new(0, 0, 100, 100), 10, 20);
    let area = Rect::new(70, 80, 50, 50);
    let inner_mediator = mediator.generate_inner(&area, 5, 10);
    assert_eq!(inner_mediator.area, Rect::new(60, 60, 40, 40));
    assert_eq!(inner_mediator.offset_x, 5);
    assert_eq!(inner_mediator.offset_y, 10);
}

#[test]
fn test_size() {
    let mediator = BufferMediator::new(Rect::new(0, 0, 100, 100), 10, 20);
    assert_eq!(mediator.size(), Rect::new(0, 0, 100, 100));
}

#[test]
fn write() {
    let area = Rect::new(10, 10, 60, 60);
    let mediator = BufferMediator::new(area, 10, 20);
    let mut buffer: VecBuffer<bool> = VecBuffer::new(100, 100);
    let area = Rect::new(0, 0, 100, 200);
    let data = vec![true; 20000];
    mediator.write(data.as_slice(), area, &mut buffer);
    for y in 0..100 {
        for x in 0..100 {
            assert_eq!(
                (buffer.get(x, y), x, y),
                ((x >= 10 && x < 70) && (y >= 10 && y < 70), x, y)
            )
        }
    }
}

#[test]
fn write_is_exact_inside_the_window() {
    let mediator = BufferMediator::new(Rect::new(0, 0, 10, 10), 0, 0);
    let mut grid: VecBuffer<bool> = VecBuffer::new(100, 100);
    let data = vec![true; 400];
    mediator.write(data.as_slice(), Rect::new(0, 0, 20, 20), &mut grid);
    for y in 0..100 {
        for x in 0..100 {
            assert_eq!(grid.get(x, y), x < 10 && y < 10, "cell ({}, {})", x, y);
        }
    }
}

#[test]
fn write_outside_the_window_is_a_noop() {
    let mediator = BufferMediator::new(Rect::new(0, 0, 10, 10), 0, 0);
    let mut grid: VecBuffer<u8> = VecBuffer::new(30, 30);
    let data = vec![7u8; 25];
    mediator.write(data.as_slice(), Rect::new(20, 20, 5, 5), &mut grid);
    for y in 0..30 {
        for x in 0..30 {
            assert_eq!(grid.get(x, y), 0);
        }
    }
}

#[test]
fn generate_inner_preserves_containment() {
    let mediator = BufferMediator::new(Rect::new(0, 0, 100, 100), 10, 20);
    let request = Rect::new(15, 25, 30, 30);
    let inner = mediator.generate_inner(&request, 3, 4);
    assert_eq!(inner.area, Rect::new(5, 5, 30, 30));
    assert_eq!(inner.offset_x, 3);
    assert_eq!(inner.offset_y, 4);
}

#[test]
fn write_respects_scroll_offset() {
    let mediator = BufferMediator::new(Rect::new(2, 3, 4, 4), 5, 6);
    let mut grid: VecBuffer<u8> = VecBuffer::new(10, 10);
    let data: Vec<u8> = (1..=16).collect();
    mediator.write(data.as_slice(), Rect::new(5, 6, 4, 4), &mut grid);
    assert_eq!(grid.get(2, 3), 1);
    assert_eq!(grid.get(5, 3), 4);
    assert_eq!(grid.get(2, 6), 13);
    assert_eq!(grid.get(5, 6), 16);
    assert_eq!(grid.get(6, 3), 0);
    assert_eq!(grid.get(2, 7), 0);
}
