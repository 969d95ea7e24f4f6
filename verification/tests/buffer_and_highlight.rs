use editor_core::buffer::Buffer;
use editor_core::highlight::{extension_of, select_highlighting, ThemeId};
use editor_core::session::{EditOp, Event, Session};

fn chars(s: &str) -> Vec<char> {
    s.chars().collect()
}

#[test]
fn inserting_a_newline_splits_the_line() {
    let mut b = Buffer::new();
    b.insert(&chars("ab\ncd"));
    assert_eq!(b.line_count(), 2);
    assert_eq!(b.cursor_position(), (1, 2));
    assert_eq!(b.text(), chars("ab\ncd"));
}

#[test]
fn empty_buffer_has_one_empty_line() {
    let b = Buffer::new();
    assert_eq!(b.line_count(), 1);
    assert_eq!(b.line_len(0), 0);
    assert_eq!(b.cursor_position(), (0, 0));
    assert_eq!(b.text(), chars(""));
}

#[test]
fn insert_in_the_middle_of_a_line() {
    let mut b = Buffer::new();
    b.insert(&chars("hllo"));
    b.move_cursor(0, 1);
    b.insert(&chars("e"));
    assert_eq!(b.text(), chars("hello"));
    assert_eq!(b.cursor_position(), (0, 2));
}

#[test]
fn delete_within_one_line() {
    let mut b = Buffer::new();
    b.insert(&chars("hello world"));
    b.delete_range(0, 5, 0, 11);
    assert_eq!(b.text(), chars("hello"));
    assert_eq!(b.cursor_position(), (0, 5));
}

#[test]
fn delete_across_lines_merges_them() {
    let mut b = Buffer::new();
    b.insert(&chars("one\ntwo\nthree"));
    b.delete_range(0, 2, 2, 3);
    assert_eq!(b.text(), chars("onee"));
    assert_eq!(b.line_count(), 1);
    assert_eq!(b.cursor_position(), (0, 2));
}

#[test]
fn delete_with_reversed_ends_deletes_the_same_span() {
    let mut b = Buffer::new();
    b.insert(&chars("abcdef"));
    b.delete_range(0, 4, 0, 1);
    assert_eq!(b.text(), chars("aef"));
    assert_eq!(b.cursor_position(), (0, 1));
}

#[test]
fn out_of_range_delete_clamps_to_valid_bounds() {
    let mut b = Buffer::new();
    b.insert(&chars("ab\ncd"));
    b.delete_range(1, 1, 99, 99);
    assert_eq!(b.text(), chars("ab\nc"));
    let (line, col) = b.cursor_position();
    assert!((line as usize) < b.line_count());
    assert!(col <= b.line_len(line));
}

#[test]
fn out_of_range_cursor_move_clamps() {
    let mut b = Buffer::new();
    b.insert(&chars("ab\ncde"));
    b.move_cursor(7, 7);
    assert_eq!(b.cursor_position(), (1, 3));
    b.move_cursor(0, 99);
    assert_eq!(b.cursor_position(), (0, 2));
    b.move_cursor(0, 1);
    assert_eq!(b.cursor_position(), (0, 1));
}

#[test]
fn cursor_stays_in_bounds_over_many_edits() {
    let mut b = Buffer::new();
    b.insert(&chars("alpha\nbeta\ngamma"));
    b.delete_range(0, 3, 2, 1);
    b.insert(&chars("\n\n"));
    b.move_cursor(50, 50);
    b.delete_range(9, 9, 0, 0);
    b.insert(&chars("tail"));
    let (line, col) = b.cursor_position();
    assert!((line as usize) < b.line_count());
    assert!(col <= b.line_len(line));
}

#[test]
fn replace_on_load_resets_the_cursor() {
    let mut b = Buffer::new();
    b.insert(&chars("something long"));
    b.replace_all(&chars("new\ncontent"));
    assert_eq!(b.cursor_position(), (0, 0));
    assert_eq!(b.text(), chars("new\ncontent"));
    assert_eq!(b.line_count(), 2);
}

#[test]
fn trailing_newline_round_trips() {
    let mut b = Buffer::new();
    b.replace_all(&chars("a\nb\n"));
    assert_eq!(b.line_count(), 3);
    assert_eq!(b.text(), chars("a\nb\n"));
}

#[test]
fn extension_of_ordinary_paths() {
    assert_eq!(extension_of(&chars("/tmp/x.txt")), Some(chars("txt")));
    assert_eq!(extension_of(&chars("main.rs")), Some(chars("rs")));
    assert_eq!(extension_of(&chars("archive.tar.gz")), Some(chars("gz")));
}

#[test]
fn extension_of_paths_without_one() {
    assert_eq!(extension_of(&chars("Makefile")), None);
    assert_eq!(extension_of(&chars("/tmp/noext")), None);
    assert_eq!(extension_of(&chars("a.b/c")), None);
    assert_eq!(extension_of(&chars("/tmp/.hidden")), None);
    assert_eq!(extension_of(&chars("")), None);
}

#[test]
fn selector_uses_the_path_extension_and_keeps_the_theme() {
    let path = chars("/home/u/lib.c");
    let cfg = select_highlighting(Some(&path), ThemeId::SolarizedDark);
    assert_eq!(cfg.extension, chars("c"));
    assert_eq!(cfg.theme, ThemeId::SolarizedDark);
}

#[test]
fn selector_falls_back_without_a_path_or_extension() {
    let cfg = select_highlighting(None, ThemeId::Base16Ocean);
    assert_eq!(cfg.extension, chars("rs"));
    assert_eq!(cfg.theme, ThemeId::Base16Ocean);
    let plain = chars("/notes/todo");
    let cfg = select_highlighting(Some(&plain), ThemeId::InspiredGithub);
    assert_eq!(cfg.extension, chars("rs"));
}

#[test]
fn selector_matches_the_session_path() {
    let mut s = Session::new();
    s.handle(Event::OpenRequested);
    s.handle(Event::OpenCompleted(Ok((chars("/src/app.md"), chars("# hi")))));
    let cfg = select_highlighting(s.path(), ThemeId::Base16Mocha);
    assert_eq!(cfg.extension, chars("md"));
}
