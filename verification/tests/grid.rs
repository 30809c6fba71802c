use smalltui::buffer::{Buffer, VecBuffer};
use smalltui::mediator::BufferMediator;
use smalltui::rect::Rect;

#[test]
fn buffer_test_new() {
    let buffer: VecBuffer<u8> = VecBuffer::new(10, 20);
    assert_eq!(buffer.width, 10);
    assert_eq!(buffer.height, 20);
    assert_eq!(buffer.data.len(), 200);
}

#[test]
fn test_draw_line() {
    let mut buffer: VecBuffer<u8> = VecBuffer::new(10, 20);
    let data = vec![1, 2, 3, 4, 5];
    buffer.draw_line(&data, 2, 5, 5);
    assert_eq!(&buffer.data[52..57], &[1, 2, 3, 4, 5]);
}

#[test]
fn test_get_mediator() {
    let buffer: VecBuffer<u8> = VecBuffer::new(10, 20);
    let mediator = buffer.get_mediator(Some(Rect::new(1, 1, 5, 5)));
    assert_eq!(BufferMediator::new(Rect::new(1, 1, 5, 5), 0, 0), mediator);
}

#[test]
fn buffer_test_area() {
    let buffer: VecBuffer<u8> = VecBuffer::new(10, 20);
    assert_eq!(buffer.area(), Rect::new(0, 0, 10, 20));
}

#[test]
fn test_reset() {
    let mut buffer: VecBuffer<u8> = VecBuffer::new(10, 20);
    buffer.draw_line(&vec![1, 2, 3, 4, 5], 2, 5, 5);
    buffer.reset();
    assert_eq!(buffer.data, vec![0; 200]);
}

#[test]
fn buffer_test_resize() {
    let mut buffer: VecBuffer<u8> = VecBuffer::new(10, 20);
    buffer.resize(20, 30);
    assert_eq!(buffer.width, 20);
    assert_eq!(buffer.height, 30);
    assert_eq!(buffer.data.len(), 600);
}

#[test]
fn test_index() {
    let buffer: VecBuffer<u8> = VecBuffer::new(10, 20);
    assert_eq!(buffer.get(2, 3), 0);
}

#[test]
fn test_index_mut() {
    let mut buffer: VecBuffer<u8> = VecBuffer::new(10, 20);
    buffer.set(2, 3, 5);
    assert_eq!(buffer.get(2, 3), 5);
}

#[test]
fn resize_clears_every_cell() {
    let mut buffer: VecBuffer<bool> = VecBuffer::new(4, 4);
    buffer.set(1, 1, true);
    buffer.resize(4, 4);
    for y in 0..4 {
        for x in 0..4 {
            assert!(!buffer.get(x, y));
        }
    }
}
