use lexer::reader::Reader;

fn init(s: &str) -> Reader {
    Reader::new(s)
}

#[test]
fn test_next() {
    let mut reader = init("ab");
    assert_eq!(reader.position(), 0);
    assert_eq!(reader.next(), Some('a'));
    assert_eq!(reader.position(), 1);
    assert_eq!(reader.next(), Some('b'));
    assert_eq!(reader.position(), 2);
    assert_eq!(reader.next(), None);
    assert_eq!(reader.position(), 2);
}

#[test]
fn test_next_utf8() {
    let mut reader = init("a😘b🥰");
    reader.next();
    assert_eq!(reader.next(), Some('😘'));
    assert_eq!(reader.position(), 2);
    reader.next();
    assert_eq!(reader.next(), Some('🥰'));
    assert_eq!(reader.position(), 4);
    assert_eq!(reader.next(), None);
}

#[test]
fn test_empty_next() {
    let mut reader = init("");
    assert_eq!(reader.next(), None);
    assert_eq!(reader.position(), 0);
}

#[test]
fn test_prev() {
    let mut reader = init("ab");
    assert_eq!(reader.prev(), None);
}

#[test]
fn test_prev_utf8() {
    let mut reader = init("a😘b🥰");
    reader.skip(4);
    assert_eq!(reader.prev(), Some('🥰'));
    assert_eq!(reader.position(), 3);
    reader.prev();
    assert_eq!(reader.prev(), Some('😘'));
    assert_eq!(reader.position(), 1);
    reader.prev();
    assert_eq!(reader.prev(), None);
}

#[test]
fn test_empty_prev() {
    let mut reader = init("");
    assert_eq!(reader.prev(), None);
    assert_eq!(reader.position(), 0);
}

#[test]
fn test_next_and_prev() {
    let mut reader = init("ab");
    assert_eq!(reader.position(), 0);
    assert_eq!(reader.next(), Some('a'));
    assert_eq!(reader.position(), 1);
    assert_eq!(reader.next(), Some('b'));
    assert_eq!(reader.position(), 2);
    assert_eq!(reader.next(), None);
    assert_eq!(reader.position(), 2);

    assert_eq!(reader.prev(), Some('b'));
    assert_eq!(reader.position(), 1);
    assert_eq!(reader.prev(), Some('a'));
    assert_eq!(reader.position(), 0);
    assert_eq!(reader.prev(), None);
    assert_eq!(reader.position(), 0);
}

#[test]
fn test_get_word() {
    let mut reader = init("Hello Word!");
    assert_eq!(reader.get_word(), "Hello");
    assert_eq!(reader.next(), Some(' '));
    assert_eq!(reader.get_word(), "Word!");
    assert_eq!(reader.next(), None);
}

#[test]
fn test_skip_separator() {
    let mut reader = init("   a    bc  ");
    reader.skip_separator();
    assert_eq!(reader.next(), Some('a'));
    reader.skip_separator();
    assert_eq!(reader.next(), Some('b'));
    reader.skip_separator();
    assert_eq!(reader.next(), Some('c'));
    reader.skip_separator();
    assert_eq!(reader.next(), None);
}

#[test]
fn test_skip() {
    let mut reader = init("abcdef");
    reader.skip(1);
    assert_eq!(reader.next(), Some('b'));
    reader.skip(2);
    assert_eq!(reader.next(), Some('e'));
    reader.skip(10);
    assert_eq!(reader.next(), None);
}

#[test]
fn test_line_number_next() {
    let mut reader = init("a\nc");
    assert_eq!(reader.line_number(), 0);
    reader.next();
    assert_eq!(reader.line_number(), 0);
    reader.next();
    assert_eq!(reader.line_number(), 1);
    reader.next();
    assert_eq!(reader.line_number(), 1);
}

#[test]
fn test_line_number_prev() {
    let mut reader = init("a\nc");
    reader.next();
    reader.next();
    reader.prev();
    assert_eq!(reader.line_number(), 0);
    reader.prev();
    assert_eq!(reader.line_number(), 0);
}

#[test]
fn test_advance_retreat_restores_state() {
    let mut reader = init("a\n😘b");
    reader.next();
    reader.next();
    reader.next();
    reader.next();
    assert_eq!(reader.position(), 4);
    assert_eq!(reader.line_number(), 1);
    reader.prev();
    reader.prev();
    reader.prev();
    reader.prev();
    assert_eq!(reader.position(), 0);
    assert_eq!(reader.line_number(), 0);
}

#[test]
fn test_saturation_at_ends() {
    let mut reader = init("xy");
    reader.skip(2);
    for _ in 0..3 {
        assert_eq!(reader.next(), None);
        assert_eq!(reader.position(), 2);
    }
    reader.prev();
    reader.prev();
    for _ in 0..3 {
        assert_eq!(reader.prev(), None);
        assert_eq!(reader.position(), 0);
    }
}

#[test]
fn test_skip_separator_idempotent() {
    let mut reader = init("  \n a  b");
    reader.skip_separator();
    let pos = reader.position();
    let line = reader.line_number();
    reader.skip_separator();
    assert_eq!(reader.position(), pos);
    assert_eq!(reader.line_number(), line);
    assert_eq!(line, 1);
}

#[test]
fn test_get_word_on_separator_is_empty() {
    let mut reader = init(" a");
    assert_eq!(reader.get_word(), "");
    assert_eq!(reader.position(), 0);
}

#[test]
fn test_seek_end_recomputes_line() {
    let mut reader = init("a\nb\nc");
    reader.seek_end();
    assert_eq!(reader.position(), 5);
    assert_eq!(reader.line_number(), 2);
    assert_eq!(reader.next(), None);
    assert_eq!(reader.prev(), Some('c'));
}

#[test]
fn test_seek_start_resets_line() {
    let mut reader = init("a\nb");
    reader.skip(3);
    assert_eq!(reader.line_number(), 1);
    reader.seek_start();
    assert_eq!(reader.position(), 0);
    assert_eq!(reader.line_number(), 0);
    assert_eq!(reader.next(), Some('a'));
}

#[test]
fn test_line_number_across_words() {
    let mut reader = init("a\nb");
    reader.skip_separator();
    assert_eq!(reader.get_word(), "a");
    assert_eq!(reader.line_number(), 0);
    reader.skip_separator();
    assert_eq!(reader.get_word(), "b");
    assert_eq!(reader.line_number(), 1);
}
