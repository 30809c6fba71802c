use smalltui::border::Border;
use smalltui::buffer::Buffer;
use smalltui::cell::{BackgroundColor, Color, ForegroundColor, Simble};
use smalltui::list::ListWidget;
use smalltui::rect::Rect;
use smalltui::scrollbar::Scrollbar;
use smalltui::widget::{Direction, Widget};
use smalltui::wrapper::Wrappper;
use smalltui::writer::TerminalWriter;

fn glyph(writer: &TerminalWriter, x: u16, y: u16) -> char {
    writer.text.get(x, y).0
}

#[test]
fn terminal_writer_test_new() {
    let writer = TerminalWriter::new(80, 25);
    assert_eq!(writer.background.area(), Rect::new(0, 0, 80, 25));
    assert_eq!(writer.foreground.area(), Rect::new(0, 0, 80, 25));
    assert_eq!(writer.text.area(), Rect::new(0, 0, 80, 25));
}

#[test]
fn terminal_writer_test_resize() {
    let mut writer = TerminalWriter::new(80, 25);
    writer.resize(100, 30);
    assert_eq!(writer.background.area(), Rect::new(0, 0, 100, 30));
    assert_eq!(writer.foreground.area(), Rect::new(0, 0, 100, 30));
    assert_eq!(writer.text.area(), Rect::new(0, 0, 100, 30));
}

#[test]
fn test_background_fill() {
    let mut writer = TerminalWriter::new(80, 25);
    writer.background_fill(BackgroundColor(Color::Blue), None);
    for y in 0..25 {
        for x in 0..80 {
            assert_eq!(writer.background.get(x, y), BackgroundColor(Color::Blue));
        }
    }
}

#[test]
fn test_foreground_fill() {
    let mut writer = TerminalWriter::new(80, 25);
    writer.foreground_fill(ForegroundColor(Color::Blue), None);
    for y in 0..25 {
        for x in 0..80 {
            assert_eq!(writer.foreground.get(x, y), ForegroundColor(Color::Blue));
        }
    }
}

#[test]
fn test_simble_fill() {
    let mut writer = TerminalWriter::new(80, 25);
    writer.simble_fill(Simble('A'), None);
    for y in 0..25 {
        for x in 0..80 {
            assert_eq!(glyph(&writer, x, y), 'A');
        }
    }
}

#[test]
fn test_write_simbles() {
    let mut writer = TerminalWriter::new(80, 25);
    let text = vec![
        Simble('H'),
        Simble('e'),
        Simble('l'),
        Simble('l'),
        Simble('o'),
    ];
    writer.write_simbles(&text, Rect::new(0, 0, 5, 1));
    assert_eq!(glyph(&writer, 0, 0), 'H');
    assert_eq!(glyph(&writer, 1, 0), 'e');
    assert_eq!(glyph(&writer, 2, 0), 'l');
    assert_eq!(glyph(&writer, 3, 0), 'l');
    assert_eq!(glyph(&writer, 4, 0), 'o');
    assert_eq!(glyph(&writer, 5, 0), ' ');
}

#[test]
fn terminal_writer_test_area() {
    let writer = TerminalWriter::new(80, 25);
    assert_eq!(writer.area(), Rect::new(0, 0, 80, 25));
}

struct MockWidget;

impl Widget for MockWidget {
    fn render_widget(&self, painter: &mut TerminalWriter) {
        painter.write_simbles(&[Simble('m')], Rect::new(0, 0, 1, 1));
    }
}

#[test]
fn test_render_widget() {
    let mut writer = TerminalWriter::new(80, 25);
    let widget = MockWidget;
    writer.render_widget(&widget, Rect::new(4, 3, 10, 5), 0, 0);
    assert_eq!(glyph(&writer, 4, 3), 'm');
    assert_eq!(glyph(&writer, 0, 0), ' ');
}

#[test]
fn identical_frames_emit_nothing_and_one_change_emits_one() {
    let mut writer = TerminalWriter::new(6, 3);
    writer.write_simbles(&[Simble('A'), Simble('B')], Rect::new(0, 0, 2, 1));
    let first = writer.compute_updates();
    assert_eq!(first.len(), 2);
    writer.commit_frame();

    writer.write_simbles(&[Simble('A'), Simble('B')], Rect::new(0, 0, 2, 1));
    let second = writer.compute_updates();
    assert_eq!(second.len(), 0);
    writer.commit_frame();

    writer.write_simbles(&[Simble('A'), Simble('C')], Rect::new(0, 0, 2, 1));
    let third = writer.compute_updates();
    assert_eq!(third.len(), 1);
    assert_eq!(third[0].x, 1);
    assert_eq!(third[0].y, 0);
    assert_eq!(third[0].simble, Simble('C'));
}

#[test]
fn resize_forces_full_repaint() {
    let mut writer = TerminalWriter::new(4, 2);
    writer.write_simbles(&[Simble('X')], Rect::new(0, 0, 1, 1));
    let first = writer.compute_updates();
    assert_eq!(first.len(), 1);
    writer.commit_frame();

    writer.resize(4, 2);
    writer.write_simbles(&[Simble('X')], Rect::new(0, 0, 1, 1));
    let after_resize = writer.compute_updates();
    assert_eq!(after_resize.len(), 1);
    assert_eq!(after_resize[0].x, 0);
    assert_eq!(after_resize[0].y, 0);
    assert_eq!(after_resize[0].simble, Simble('X'));
}

fn test_border() -> Border {
    Border::new(
        Simble('1'),
        Simble('2'),
        Simble('5'),
        Simble('6'),
        Simble('7'),
        Simble('8'),
        Simble('3'),
        Simble('4'),
        3,
        2,
    )
}

#[test]
fn border_draws_its_frame() {
    let mut writer = TerminalWriter::new(5, 5);
    writer.render_widget(&test_border(), Rect::new(0, 0, 3, 2), 0, 0);
    assert_eq!(glyph(&writer, 0, 0), '1');
    assert_eq!(glyph(&writer, 1, 0), '7');
    assert_eq!(glyph(&writer, 2, 0), '2');
    assert_eq!(glyph(&writer, 0, 1), '3');
    assert_eq!(glyph(&writer, 1, 1), '8');
    assert_eq!(glyph(&writer, 2, 1), '4');
    assert_eq!(glyph(&writer, 3, 0), ' ');
}

#[test]
fn nested_scroll_composition() {
    let mut writer = TerminalWriter::new(10, 10);
    let list = ListWidget::new(vec![test_border(), test_border()], 0, 3, 2);
    writer.render_widget(&list, Rect::new(0, 0, 3, 4), 0, 0);
    // first child: full border on rows 0 and 1
    assert_eq!(glyph(&writer, 0, 0), '1');
    assert_eq!(glyph(&writer, 1, 0), '7');
    assert_eq!(glyph(&writer, 2, 0), '2');
    assert_eq!(glyph(&writer, 0, 1), '3');
    assert_eq!(glyph(&writer, 1, 1), '8');
    assert_eq!(glyph(&writer, 2, 1), '4');
    // the gap row stays blank
    assert_eq!(glyph(&writer, 0, 2), ' ');
    assert_eq!(glyph(&writer, 1, 2), ' ');
    // second child starts at row 3; only its top row fits the list's viewport
    assert_eq!(glyph(&writer, 0, 3), '1');
    assert_eq!(glyph(&writer, 1, 3), '7');
    assert_eq!(glyph(&writer, 2, 3), '2');
    // its bottom row is clipped without affecting anything else
    assert_eq!(glyph(&writer, 0, 4), ' ');
    assert_eq!(glyph(&writer, 1, 4), ' ');
    assert_eq!(glyph(&writer, 2, 4), ' ');
}

#[test]
fn nested_scroll_composition_with_scroll() {
    let mut writer = TerminalWriter::new(10, 10);
    let list = ListWidget::new(vec![test_border(), test_border()], 1, 3, 2);
    writer.render_widget(&list, Rect::new(0, 0, 3, 4), 0, 0);
    // each child is scrolled up by one row: only its bottom row shows,
    // at the top of the child's slot
    assert_eq!(glyph(&writer, 0, 0), '3');
    assert_eq!(glyph(&writer, 1, 0), '8');
    assert_eq!(glyph(&writer, 2, 0), '4');
    assert_eq!(glyph(&writer, 0, 1), ' ');
    assert_eq!(glyph(&writer, 0, 3), '3');
    assert_eq!(glyph(&writer, 1, 3), '8');
    assert_eq!(glyph(&writer, 2, 3), '4');
}

#[test]
fn wrapper_places_its_inner_widget() {
    let mut writer = TerminalWriter::new(16, 12);
    let wrapped = Wrappper::new(test_border());
    writer.render_widget(&wrapped, Rect::new(1, 1, 12, 9), 0, 0);
    // the wrapper embeds its inner widget at (2, 2) inside its own area
    assert_eq!(glyph(&writer, 3, 3), '1');
    assert_eq!(glyph(&writer, 4, 3), '7');
    assert_eq!(glyph(&writer, 5, 3), '2');
    assert_eq!(glyph(&writer, 3, 4), '3');
}

#[test]
fn scrollbar_draws_track_grab_and_arrows() {
    let mut writer = TerminalWriter::new(3, 8);
    let bar = Scrollbar::new(
        5,
        2,
        1,
        Simble('-'),
        Simble('#'),
        Simble('<'),
        Simble('>'),
        Direction::Down,
        None,
        None,
        None,
        None,
        None,
        None,
    );
    writer.render_widget(&bar, Rect::new(0, 0, 1, 5), 0, 0);
    assert_eq!(glyph(&writer, 0, 0), '<');
    assert_eq!(glyph(&writer, 0, 1), '#');
    assert_eq!(glyph(&writer, 0, 2), '#');
    assert_eq!(glyph(&writer, 0, 3), '-');
    assert_eq!(glyph(&writer, 0, 4), '>');
}

#[test]
fn scrollbar_reverses_along_an_upward_track() {
    let mut writer = TerminalWriter::new(3, 8);
    let bar = Scrollbar::new(
        5,
        2,
        1,
        Simble('-'),
        Simble('#'),
        Simble('<'),
        Simble('>'),
        Direction::UP,
        None,
        None,
        None,
        None,
        None,
        None,
    );
    writer.render_widget(&bar, Rect::new(0, 0, 1, 8), 0, 0);
    // the run is written reversed starting one row down
    assert_eq!(glyph(&writer, 0, 1), '>');
    assert_eq!(glyph(&writer, 0, 2), '-');
    assert_eq!(glyph(&writer, 0, 3), '#');
    assert_eq!(glyph(&writer, 0, 4), '#');
    assert_eq!(glyph(&writer, 0, 5), '<');
}

#[test]
fn scrollbar_paints_its_colors() {
    let mut writer = TerminalWriter::new(2, 6);
    let bar = Scrollbar::new(
        4,
        1,
        2,
        Simble('-'),
        Simble('#'),
        Simble('<'),
        Simble('>'),
        Direction::Down,
        Some(BackgroundColor(Color::DarkGreen)),
        Some(ForegroundColor(Color::White)),
        Some(BackgroundColor(Color::White)),
        Some(ForegroundColor(Color::Black)),
        Some(BackgroundColor(Color::DarkRed)),
        Some(ForegroundColor(Color::Grey)),
    );
    writer.render_widget(&bar, Rect::new(0, 0, 1, 4), 0, 0);
    // track colors everywhere, overridden on the grabbable cell and arrows
    assert_eq!(writer.background.get(0, 1), BackgroundColor(Color::DarkGreen));
    assert_eq!(writer.foreground.get(0, 1), ForegroundColor(Color::White));
    assert_eq!(writer.background.get(0, 2), BackgroundColor(Color::White));
    assert_eq!(writer.foreground.get(0, 2), ForegroundColor(Color::Black));
    assert_eq!(writer.background.get(0, 0), BackgroundColor(Color::DarkRed));
    assert_eq!(writer.foreground.get(0, 0), ForegroundColor(Color::Grey));
    assert_eq!(writer.background.get(0, 3), BackgroundColor(Color::DarkRed));
    assert_eq!(writer.foreground.get(0, 3), ForegroundColor(Color::Grey));
}

#[test]
fn fill_respects_a_given_area() {
    let mut writer = TerminalWriter::new(8, 8);
    writer.background_fill(BackgroundColor(Color::Red), Some(Rect::new(2, 2, 3, 3)));
    for y in 0..8 {
        for x in 0..8 {
            let expected = if (2..5).contains(&x) && (2..5).contains(&y) {
                BackgroundColor(Color::Red)
            } else {
                BackgroundColor(Color::Black)
            };
            assert_eq!(writer.background.get(x, y), expected);
        }
    }
}

#[test]
fn render_widget_restores_the_viewport_stack() {
    let mut writer = TerminalWriter::new(9, 9);
    assert_eq!(writer.area(), Rect::new(0, 0, 9, 9));
    writer.render_widget(&MockWidget, Rect::new(1, 1, 4, 4), 0, 0);
    assert_eq!(writer.area(), Rect::new(0, 0, 9, 9));
    assert_eq!(writer.mediator_stack.len(), 0);
}

#[test]
fn count_numbers_its_rows() {
    let mut writer = TerminalWriter::new(8, 25);
    writer.render_widget(&smalltui::wrapper::Count {}, Rect::new(0, 0, 8, 25), 0, 0);
    assert_eq!(glyph(&writer, 0, 0), '0');
    assert_eq!(glyph(&writer, 0, 9), '9');
    assert_eq!(glyph(&writer, 0, 10), '1');
    assert_eq!(glyph(&writer, 1, 10), '0');
    assert_eq!(glyph(&writer, 0, 19), '1');
    assert_eq!(glyph(&writer, 1, 19), '9');
    assert_eq!(glyph(&writer, 0, 20), ' ');
}

#[test]
fn decimal_numerals_are_exact() {
    let cases: [(u16, &str); 5] = [(0, "0"), (7, "7"), (10, "10"), (409, "409"), (65535, "65535")];
    for (n, expected) in cases {
        let digits = smalltui::wrapper::decimal_simbles(n);
        let text: String = digits.iter().map(|s| s.0).collect();
        assert_eq!(text, expected);
    }
}
