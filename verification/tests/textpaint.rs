use smalltui::buffer::Buffer;
use smalltui::writer::TerminalWriter;

fn glyph(writer: &TerminalWriter, x: u16, y: u16) -> char {
    writer.text.get(x, y).0
}

#[test]
fn write_text_line_places_each_character() {
    let mut writer = TerminalWriter::new(10, 3);
    writer.write_text_line("hi!", 2, 1);
    assert_eq!(glyph(&writer, 2, 1), 'h');
    assert_eq!(glyph(&writer, 3, 1), 'i');
    assert_eq!(glyph(&writer, 4, 1), '!');
    assert_eq!(glyph(&writer, 5, 1), ' ');
    assert_eq!(glyph(&writer, 2, 0), ' ');
}

#[test]
fn paragraph_wraps_after_the_break_width() {
    let mut writer = TerminalWriter::new(10, 5);
    writer.write_paragraph("abcdef", 0, 0, Some(2));
    assert_eq!(glyph(&writer, 0, 0), 'a');
    assert_eq!(glyph(&writer, 1, 0), 'b');
    assert_eq!(glyph(&writer, 2, 0), 'c');
    assert_eq!(glyph(&writer, 3, 0), ' ');
    assert_eq!(glyph(&writer, 0, 1), 'd');
    assert_eq!(glyph(&writer, 1, 1), 'e');
    assert_eq!(glyph(&writer, 2, 1), 'f');
    assert_eq!(glyph(&writer, 0, 2), ' ');
}

#[test]
fn paragraph_breaks_at_newlines() {
    let mut writer = TerminalWriter::new(10, 5);
    writer.write_paragraph("ab\ncd", 1, 1, Some(40));
    assert_eq!(glyph(&writer, 1, 1), 'a');
    assert_eq!(glyph(&writer, 2, 1), 'b');
    assert_eq!(glyph(&writer, 1, 2), 'c');
    assert_eq!(glyph(&writer, 2, 2), 'd');
}

#[test]
fn unbroken_paragraph_writes_every_line_on_one_row() {
    let mut writer = TerminalWriter::new(10, 4);
    writer.write_paragraph("hi\nyo", 0, 2, None);
    assert_eq!(glyph(&writer, 0, 2), 'y');
    assert_eq!(glyph(&writer, 1, 2), 'o');
    assert_eq!(glyph(&writer, 0, 3), ' ');
}

#[test]
fn unbroken_paragraph_drops_carriage_returns() {
    let mut writer = TerminalWriter::new(10, 4);
    writer.write_paragraph("ab\r\n", 0, 0, None);
    assert_eq!(glyph(&writer, 0, 0), 'a');
    assert_eq!(glyph(&writer, 1, 0), 'b');
    assert_eq!(glyph(&writer, 2, 0), ' ');
}

#[test]
fn text_clipped_by_the_viewport_is_dropped() {
    let mut writer = TerminalWriter::new(4, 2);
    writer.write_text_line("abcdefgh", 0, 0);
    assert_eq!(glyph(&writer, 0, 0), 'a');
    assert_eq!(glyph(&writer, 3, 0), 'd');
    assert_eq!(glyph(&writer, 0, 1), ' ');
}
