use editor_core::session::{Action, EditOp, Error, Event, IoErrorKind, Session};

fn chars(s: &str) -> Vec<char> {
    s.chars().collect()
}

#[test]
fn new_document_then_insert_hello_is_dirty() {
    let mut s = Session::new();
    assert!(!s.is_dirty());
    let a = s.handle(Event::Edit(EditOp::Insert(chars("hello"))));
    assert!(matches!(a, Action::Nothing));
    assert!(s.is_dirty());
    assert_eq!(s.text(), chars("hello"));
}

#[test]
fn failed_open_leaves_previous_document_untouched() {
    let mut s = Session::new();
    s.handle(Event::Edit(EditOp::Insert(chars("abc"))));
    let a = s.handle(Event::OpenRequested);
    assert!(matches!(a, Action::StartOpen));
    assert!(s.is_busy());
    let a = s.handle(Event::OpenCompleted(Err(Error::ReadFailed(IoErrorKind::NotFound))));
    assert!(matches!(a, Action::Nothing));
    assert_eq!(s.last_error(), Some(Error::ReadFailed(IoErrorKind::NotFound)));
    assert_eq!(s.text(), chars("abc"));
    assert!(!s.is_busy());
}

#[test]
fn save_as_adopts_the_dialog_path() {
    let mut s = Session::new();
    s.handle(Event::Edit(EditOp::Insert(chars("x"))));
    assert!(s.path().is_none());
    let a = s.handle(Event::SaveRequested);
    match a {
        Action::StartSave(path, content) => {
            assert!(path.is_none());
            assert_eq!(content, chars("x"));
        }
        _ => panic!("a save request while idle must start a save"),
    }
    let a = s.handle(Event::SaveCompleted(Ok(chars("/tmp/x.txt"))));
    assert!(matches!(a, Action::Nothing));
    assert_eq!(s.path(), Some(&chars("/tmp/x.txt")));
    assert!(!s.is_dirty());
    assert!(!s.is_busy());
}

#[test]
fn second_save_request_while_busy_is_dropped() {
    let mut s = Session::new();
    s.handle(Event::Edit(EditOp::Insert(chars("v"))));
    let first = s.handle(Event::SaveRequested);
    assert!(matches!(first, Action::StartSave(_, _)));
    assert!(s.is_busy());
    let second = s.handle(Event::SaveRequested);
    assert!(matches!(second, Action::Nothing));
    assert!(s.is_busy());
}

#[test]
fn failed_save_stays_dirty_and_records_the_error() {
    let mut s = Session::new();
    s.handle(Event::Edit(EditOp::Insert(chars("keep me"))));
    assert!(s.is_dirty());
    s.handle(Event::SaveRequested);
    let a = s.handle(Event::SaveCompleted(Err(Error::WriteFailed(
        IoErrorKind::PermissionDenied,
    ))));
    assert!(matches!(a, Action::Nothing));
    assert!(s.is_dirty());
    assert_eq!(
        s.last_error(),
        Some(Error::WriteFailed(IoErrorKind::PermissionDenied))
    );
    assert!(!s.is_busy());
    assert_eq!(s.text(), chars("keep me"));
}

#[test]
fn new_document_while_busy_is_a_no_op() {
    let mut s = Session::new();
    s.handle(Event::Edit(EditOp::Insert(chars("draft"))));
    s.handle(Event::OpenRequested);
    assert!(s.is_busy());
    let a = s.handle(Event::NewDocument);
    assert!(matches!(a, Action::Nothing));
    assert!(s.is_busy());
    assert!(s.is_dirty());
    assert_eq!(s.text(), chars("draft"));
}

#[test]
fn open_request_while_busy_is_dropped() {
    let mut s = Session::new();
    s.handle(Event::OpenRequested);
    let a = s.handle(Event::OpenRequested);
    assert!(matches!(a, Action::Nothing));
}

#[test]
fn save_then_reload_restores_the_text() {
    let mut s = Session::new();
    s.handle(Event::Edit(EditOp::Insert(chars("line one\nline two\n"))));
    let a = s.handle(Event::SaveRequested);
    // A stand-in for the file system: remember what was written, hand the
    // same content back on the later open.
    let stored: Vec<char> = match a {
        Action::StartSave(_, content) => content,
        _ => panic!("a save request while idle must start a save"),
    };
    s.handle(Event::SaveCompleted(Ok(chars("/tmp/doc.txt"))));
    s.handle(Event::OpenRequested);
    s.handle(Event::OpenCompleted(Ok((chars("/tmp/doc.txt"), stored))));
    assert_eq!(s.text(), chars("line one\nline two\n"));
    assert!(!s.is_dirty());
    assert_eq!(s.cursor_position(), (0, 0));
}

#[test]
fn dirty_set_by_first_edit_and_kept_until_successful_save() {
    let mut s = Session::new();
    assert!(!s.is_dirty());
    s.handle(Event::Edit(EditOp::Insert(chars("a"))));
    assert!(s.is_dirty());
    s.handle(Event::Edit(EditOp::MoveCursor(0, 0)));
    assert!(s.is_dirty());
    s.handle(Event::Edit(EditOp::DeleteRange(0, 0, 0, 1)));
    assert!(s.is_dirty());
    s.handle(Event::SaveRequested);
    s.handle(Event::SaveCompleted(Err(Error::DialogCancelled)));
    assert!(s.is_dirty());
    s.handle(Event::SaveRequested);
    s.handle(Event::SaveCompleted(Ok(chars("/tmp/out"))));
    assert!(!s.is_dirty());
}

#[test]
fn successful_open_replaces_content_and_clears_error() {
    let mut s = Session::new();
    s.handle(Event::OpenRequested);
    s.handle(Event::OpenCompleted(Err(Error::DialogCancelled)));
    assert_eq!(s.last_error(), Some(Error::DialogCancelled));
    s.handle(Event::OpenRequested);
    s.handle(Event::OpenCompleted(Ok((chars("/home/u/a.rs"), chars("fn main() {}")))));
    assert_eq!(s.last_error(), None);
    assert_eq!(s.text(), chars("fn main() {}"));
    assert_eq!(s.path(), Some(&chars("/home/u/a.rs")));
    assert!(!s.is_dirty());
}

#[test]
fn modifying_edit_clears_the_last_error() {
    let mut s = Session::new();
    s.handle(Event::OpenRequested);
    s.handle(Event::OpenCompleted(Err(Error::ReadFailed(IoErrorKind::Other))));
    assert!(s.last_error().is_some());
    s.handle(Event::Edit(EditOp::MoveCursor(0, 0)));
    assert!(s.last_error().is_some());
    s.handle(Event::Edit(EditOp::Insert(chars("z"))));
    assert_eq!(s.last_error(), None);
}

#[test]
fn new_document_while_idle_resets_path_and_buffer() {
    let mut s = Session::new();
    s.handle(Event::OpenRequested);
    s.handle(Event::OpenCompleted(Ok((chars("/p"), chars("old text")))));
    s.handle(Event::Edit(EditOp::Insert(chars("!"))));
    let a = s.handle(Event::NewDocument);
    assert!(matches!(a, Action::Nothing));
    assert!(s.path().is_none());
    assert_eq!(s.text(), chars(""));
    assert!(!s.is_dirty());
}
