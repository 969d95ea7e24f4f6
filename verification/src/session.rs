//! The file session and its controller: one open document, its optional
//! path, a dirty flag, a busy flag guarding the single in-flight file
//! operation, and the last I/O failure. The controller is a single
//! transition function from (state, event) to (state, action); the I/O
//! layer around the library performs the returned action and later feeds
//! the completion back in as an event.

use vstd::prelude::*;

use crate::buffer::Buffer;
use crate::buffer::BufferModel;
use crate::buffer::delete_range_model;
use crate::buffer::insert_text_model;
use crate::buffer::lemma_delete_range_model_wf;
use crate::buffer::lemma_insert_text_model_wf;
use crate::buffer::lemma_move_cursor_model_wf;
use crate::buffer::lemma_replace_all_model_wf;
use crate::buffer::move_cursor_model;
use crate::buffer::replace_all_model;
use crate::text::copy_range;

verus! {

/// The category of an OS-level I/O failure, mirrored from the underlying
/// error.
#[derive(Clone, Copy, Debug, PartialEq, Eq, Structural)]
pub enum IoErrorKind {
    NotFound,
    PermissionDenied,
    InvalidData,
    Other,
}

/// Why an open or save did not complete. A dismissed file dialog is
/// user-initiated and restores the prior state exactly; the other two carry
/// the category of the OS-level error.
#[derive(Clone, Copy, Debug, PartialEq, Eq, Structural)]
pub enum Error {
    DialogCancelled,
    ReadFailed(IoErrorKind),
    WriteFailed(IoErrorKind),
}

/// An atomic edit operation on the document buffer.
#[derive(Debug)]
pub enum EditOp {
    /// Insert a text at the cursor.
    Insert(Vec<char>),
    /// Delete the span between two positions, each given as (line, column).
    DeleteRange(usize, usize, usize, usize),
    /// Move the cursor to a position given as (line, column); never a
    /// modification.
    MoveCursor(usize, usize),
}

/// The mathematical value of an edit operation.
pub enum EditOpModel {
    Insert(Seq<char>),
    DeleteRange(int, int, int, int),
    MoveCursor(int, int),
}

impl View for EditOp {
    type V = EditOpModel;

    open spec fn view(&self) -> EditOpModel {
        match self {
            EditOp::Insert(t) => EditOpModel::Insert(t@),
            EditOp::DeleteRange(l1, c1, l2, c2) => EditOpModel::DeleteRange(
                *l1 as int,
                *c1 as int,
                *l2 as int,
                *c2 as int,
            ),
            EditOp::MoveCursor(l, c) => EditOpModel::MoveCursor(*l as int, *c as int),
        }
    }
}

impl EditOpModel {
    /// Positions in an edit operation are never negative; the executable
    /// operations carry unsigned positions, so their views always satisfy
    /// this.
    pub open spec fn wf(self) -> bool {
        match self {
            EditOpModel::Insert(_) => true,
            EditOpModel::DeleteRange(l1, c1, l2, c2) => l1 >= 0 && c1 >= 0 && l2 >= 0 && c2 >= 0,
            EditOpModel::MoveCursor(l, c) => l >= 0 && c >= 0,
        }
    }
}

/// A modifying edit is one that counts for the dirty flag: an insert or a
/// delete, whether or not it happens to change any character. Pure cursor
/// movement never counts.
pub open spec fn is_modifying(op: EditOpModel) -> bool {
    match op {
        EditOpModel::Insert(_) => true,
        EditOpModel::DeleteRange(..) => true,
        EditOpModel::MoveCursor(..) => false,
    }
}

/// An edit operation applied to a buffer.
pub open spec fn apply_edit_model(b: BufferModel, op: EditOpModel) -> BufferModel {
    match op {
        EditOpModel::Insert(t) => insert_text_model(b, t),
        EditOpModel::DeleteRange(l1, c1, l2, c2) => delete_range_model(b, l1, c1, l2, c2),
        EditOpModel::MoveCursor(l, c) => move_cursor_model(b, l, c),
    }
}

pub proof fn lemma_apply_edit_model_wf(b: BufferModel, op: EditOpModel)
    requires
        b.wf(),
        op.wf(),
    ensures
        apply_edit_model(b, op).wf(),
{
    match op {
        EditOpModel::Insert(t) => lemma_insert_text_model_wf(b, t),
        EditOpModel::DeleteRange(l1, c1, l2, c2) => lemma_delete_range_model_wf(b, l1, c1, l2, c2),
        EditOpModel::MoveCursor(l, c) => lemma_move_cursor_model_wf(b, l, c),
    }
}

/// A user intent or an I/O completion, the controller's single kind of
/// input.
#[derive(Debug)]
pub enum Event {
    /// Start over with an empty, untitled document.
    NewDocument,
    /// The user asked to open a file.
    OpenRequested,
    /// The I/O layer finished an open: either the picked path and the text
    /// read, or a failure.
    OpenCompleted(Result<(Vec<char>, Vec<char>), Error>),
    /// The user asked to save the document.
    SaveRequested,
    /// The I/O layer finished a save: either the path written (the one the
    /// save was asked for, or the one a dialog picked), or a failure.
    SaveCompleted(Result<Vec<char>, Error>),
    /// An edit operation on the buffer.
    Edit(EditOp),
}

/// The mathematical value of an event.
pub enum EventModel {
    NewDocument,
    OpenRequested,
    OpenCompleted(Result<(Seq<char>, Seq<char>), Error>),
    SaveRequested,
    SaveCompleted(Result<Seq<char>, Error>),
    Edit(EditOpModel),
}

impl View for Event {
    type V = EventModel;

    open spec fn view(&self) -> EventModel {
        match self {
            Event::NewDocument => EventModel::NewDocument,
            Event::OpenRequested => EventModel::OpenRequested,
            Event::OpenCompleted(Ok((p, t))) => EventModel::OpenCompleted(Ok((p@, t@))),
            Event::OpenCompleted(Err(e)) => EventModel::OpenCompleted(Err(*e)),
            Event::SaveRequested => EventModel::SaveRequested,
            Event::SaveCompleted(Ok(p)) => EventModel::SaveCompleted(Ok(p@)),
            Event::SaveCompleted(Err(e)) => EventModel::SaveCompleted(Err(*e)),
            Event::Edit(op) => EventModel::Edit(op@),
        }
    }
}

impl EventModel {
    pub open spec fn wf(self) -> bool {
        match self {
            EventModel::Edit(op) => op.wf(),
            _ => true,
        }
    }
}

/// What the controller asks the I/O layer to do next. At most one open or
/// save is requested while none is in flight.
#[derive(Debug)]
pub enum Action {
    /// No I/O to start.
    Nothing,
    /// Prompt for a path and read that file.
    StartOpen,
    /// Write the given content to the given path, prompting for a
    /// destination first when the path is absent.
    StartSave(Option<Vec<char>>, Vec<char>),
}

/// The mathematical value of an action.
pub enum ActionModel {
    Nothing,
    StartOpen,
    StartSave(Option<Seq<char>>, Seq<char>),
}

impl View for Action {
    type V = ActionModel;

    open spec fn view(&self) -> ActionModel {
        match self {
            Action::Nothing => ActionModel::Nothing,
            Action::StartOpen => ActionModel::StartOpen,
            Action::StartSave(Some(p), t) => ActionModel::StartSave(Some(p@), t@),
            Action::StartSave(None, t) => ActionModel::StartSave(None, t@),
        }
    }
}

/// The view of an optional path.
pub open spec fn path_view(p: Option<Vec<char>>) -> Option<Seq<char>> {
    match p {
        Some(v) => Some(v@),
        None => None,
    }
}

/// The mathematical value of a session.
#[verifier::ext_equal]
pub struct SessionModel {
    pub buffer: BufferModel,
    pub path: Option<Seq<char>>,
    pub is_dirty: bool,
    pub is_busy: bool,
    pub last_error: Option<Error>,
}

impl SessionModel {
    pub open spec fn wf(self) -> bool {
        self.buffer.wf()
    }

    /// The session a fresh application starts from: an empty untitled
    /// document, clean, idle, with no recorded failure.
    pub open spec fn initial() -> SessionModel {
        SessionModel {
            buffer: BufferModel::empty(),
            path: None,
            is_dirty: false,
            is_busy: false,
            last_error: None,
        }
    }
}

/// The controller's transition function, one clause per row of the event
/// table:
/// - requests (`NewDocument`, `OpenRequested`, `SaveRequested`) are dropped
///   while an operation is in flight;
/// - starting an operation sets the busy flag and clears the last failure;
/// - a successful open adopts the path, replaces the content, and leaves the
///   session clean; a successful save adopts the path and leaves the session
///   clean;
/// - a failed open or save records the failure and changes nothing else — in
///   particular a failed save leaves the dirty flag as it was;
/// - an edit goes to the buffer in any state; a modifying edit sets the
///   dirty flag and clears the last failure, a pure cursor move changes
///   neither.
pub open spec fn step_model(s: SessionModel, e: EventModel) -> SessionModel {
    match e {
        EventModel::NewDocument => {
            if s.is_busy {
                s
            } else {
                SessionModel {
                    buffer: BufferModel::empty(),
                    path: None,
                    is_dirty: false,
                    is_busy: false,
                    last_error: s.last_error,
                }
            }
        },
        EventModel::OpenRequested => {
            if s.is_busy {
                s
            } else {
                SessionModel { is_busy: true, last_error: None, ..s }
            }
        },
        EventModel::SaveRequested => {
            if s.is_busy {
                s
            } else {
                SessionModel { is_busy: true, last_error: None, ..s }
            }
        },
        EventModel::OpenCompleted(r) => match r {
            Ok((p, t)) => SessionModel {
                buffer: replace_all_model(t),
                path: Some(p),
                is_dirty: false,
                is_busy: false,
                last_error: None,
            },
            Err(err) => SessionModel { is_busy: false, last_error: Some(err), ..s },
        },
        EventModel::SaveCompleted(r) => match r {
            Ok(p) => SessionModel {
                path: Some(p),
                is_dirty: false,
                is_busy: false,
                last_error: None,
                ..s
            },
            Err(err) => SessionModel { is_busy: false, last_error: Some(err), ..s },
        },
        EventModel::Edit(op) => SessionModel {
            buffer: apply_edit_model(s.buffer, op),
            is_dirty: s.is_dirty || is_modifying(op),
            last_error: if is_modifying(op) {
                None
            } else {
                s.last_error
            },
            ..s
        },
    }
}

/// The action the controller returns for an event: requests start I/O only
/// while no operation is in flight, and a save is started with the current
/// path and the buffer's current text; everything else starts none.
pub open spec fn action_model(s: SessionModel, e: EventModel) -> ActionModel {
    match e {
        EventModel::OpenRequested => {
            if s.is_busy {
                ActionModel::Nothing
            } else {
                ActionModel::StartOpen
            }
        },
        EventModel::SaveRequested => {
            if s.is_busy {
                ActionModel::Nothing
            } else {
                ActionModel::StartSave(s.path, s.buffer.text())
            }
        },
        _ => ActionModel::Nothing,
    }
}

/// Completion events only arrive while the operation they complete is in
/// flight; the controller only ever starts one at a time, so the I/O layer
/// can deliver no other.
pub open spec fn event_permitted(s: SessionModel, e: EventModel) -> bool {
    match e {
        EventModel::OpenCompleted(_) => s.is_busy,
        EventModel::SaveCompleted(_) => s.is_busy,
        _ => true,
    }
}

pub proof fn lemma_step_model_wf(s: SessionModel, e: EventModel)
    requires
        s.wf(),
        e.wf(),
    ensures
        step_model(s, e).wf(),
{
    match e {
        EventModel::OpenCompleted(r) => {
            if let Ok((p, t)) = r {
                lemma_replace_all_model_wf(t);
            }
        },
        EventModel::Edit(op) => {
            lemma_apply_edit_model_wf(s.buffer, op);
        },
        _ => {},
    }
}

/// The file session: the document buffer together with the state the
/// controller keeps about it.
pub struct Session {
    buffer: Buffer,
    path: Option<Vec<char>>,
    is_dirty: bool,
    is_busy: bool,
    last_error: Option<Error>,
}

impl View for Session {
    type V = SessionModel;

    closed spec fn view(&self) -> SessionModel {
        SessionModel {
            buffer: self.buffer@,
            path: path_view(self.path),
            is_dirty: self.is_dirty,
            is_busy: self.is_busy,
            last_error: self.last_error,
        }
    }
}

impl Session {
    /// A fresh session: an empty untitled document, clean and idle.
    pub fn new() -> (s: Session)
        ensures
            s@ == SessionModel::initial(),
            s@.wf(),
    {
        let s = Session {
            buffer: Buffer::new(),
            path: None,
            is_dirty: false,
            is_busy: false,
            last_error: None,
        };
        proof {
            assert(s@ =~= SessionModel::initial());
        }
        s
    }

    /// The current path, absent while the document is untitled.
    pub fn path(&self) -> (p: Option<&Vec<char>>)
        ensures
            match p {
                Some(v) => self@.path == Some(v@),
                None => self@.path is None,
            },
    {
        match &self.path {
            Some(v) => Some(v),
            None => None,
        }
    }

    /// Whether the buffer has modifying edits not yet saved.
    pub fn is_dirty(&self) -> (d: bool)
        ensures
            d == self@.is_dirty,
    {
        self.is_dirty
    }

    /// Whether an open or save is in flight.
    pub fn is_busy(&self) -> (b: bool)
        ensures
            b == self@.is_busy,
    {
        self.is_busy
    }

    /// The last I/O failure, absent after a successful operation start,
    /// completion, or modifying edit.
    pub fn last_error(&self) -> (e: Option<Error>)
        ensures
            e == self@.last_error,
    {
        self.last_error
    }

    /// The document's flat text.
    pub fn text(&self) -> (t: Vec<char>)
        requires
            self@.wf(),
        ensures
            t@ == self@.buffer.text(),
    {
        self.buffer.text()
    }

    /// The cursor position, 0-indexed as (line, column).
    pub fn cursor_position(&self) -> (p: (usize, usize))
        ensures
            p.0 as int == self@.buffer.cursor_line,
            p.1 as int == self@.buffer.cursor_col,
    {
        self.buffer.cursor_position()
    }

    /// Feed one event to the controller. The new state is exactly
    /// `step_model` of the old one, and the returned action — what I/O, if
    /// any, the caller must now start — is exactly `action_model`.
    pub fn handle(&mut self, event: Event) -> (a: Action)
        requires
            old(self)@.wf(),
            event_permitted(old(self)@, event@),
        ensures
            final(self)@ == step_model(old(self)@, event@),
            a@ == action_model(old(self)@, event@),
            final(self)@.wf(),
    {
        proof {
            lemma_step_model_wf(old(self)@, event@);
        }
        match event {
            Event::NewDocument => {
                if !self.is_busy {
                    self.path = None;
                    self.buffer = Buffer::new();
                    self.is_dirty = false;
                }
                proof {
                    assert(self@ =~= step_model(old(self)@, event@));
                }
                Action::Nothing
            },
            Event::OpenRequested => {
                if self.is_busy {
                    Action::Nothing
                } else {
                    self.is_busy = true;
                    self.last_error = None;
                    proof {
                        assert(self@ =~= step_model(old(self)@, event@));
                    }
                    Action::StartOpen
                }
            },
            Event::SaveRequested => {
                if self.is_busy {
                    Action::Nothing
                } else {
                    self.is_busy = true;
                    self.last_error = None;
                    let content = self.buffer.text();
                    let path_copy = match &self.path {
                        Some(p) => Some(copy_range(p, 0, p.len())),
                        None => None,
                    };
                    proof {
                        assert(self@ =~= step_model(old(self)@, event@));
                        assert(path_view(path_copy) == old(self)@.path);
                    }
                    Action::StartSave(path_copy, content)
                }
            },
            Event::OpenCompleted(r) => {
                self.is_busy = false;
                match r {
                    Ok((p, t)) => {
                        self.buffer.replace_all(&t);
                        self.path = Some(p);
                        self.is_dirty = false;
                        self.last_error = None;
                    },
                    Err(err) => {
                        self.last_error = Some(err);
                    },
                }
                proof {
                    assert(self@ =~= step_model(old(self)@, event@));
                }
                Action::Nothing
            },
            Event::SaveCompleted(r) => {
                self.is_busy = false;
                match r {
                    Ok(p) => {
                        self.path = Some(p);
                        self.is_dirty = false;
                        self.last_error = None;
                    },
                    Err(err) => {
                        self.last_error = Some(err);
                    },
                }
                proof {
                    assert(self@ =~= step_model(old(self)@, event@));
                }
                Action::Nothing
            },
            Event::Edit(op) => {
                match &op {
                    EditOp::Insert(t) => {
                        self.buffer.insert(t);
                        self.is_dirty = true;
                        self.last_error = None;
                    },
                    EditOp::DeleteRange(l1, c1, l2, c2) => {
                        self.buffer.delete_range(*l1, *c1, *l2, *c2);
                        self.is_dirty = true;
                        self.last_error = None;
                    },
                    EditOp::MoveCursor(l, c) => {
                        self.buffer.move_cursor(*l, *c);
                    },
                }
                proof {
                    assert(self@ =~= step_model(old(self)@, event@));
                }
                Action::Nothing
            },
        }
    }
}

} // verus!
