//! Properties of the session controller that span several transitions:
//! how the dirty flag evolves over whole sequences of events, that the busy
//! flag really drops conflicting requests, that a save followed by a
//! faithful reload restores the text, and that the cursor invariant
//! survives any sequence of edits.

use vstd::prelude::*;

use crate::buffer::BufferModel;
use crate::session::ActionModel;
use crate::session::EditOpModel;
use crate::session::EventModel;
use crate::session::SessionModel;
use crate::session::action_model;
use crate::session::apply_edit_model;
use crate::session::is_modifying;
use crate::session::lemma_apply_edit_model_wf;
use crate::session::lemma_step_model_wf;
use crate::session::step_model;
use crate::text::lemma_join_split;

verus! {

/// A sequence of events applied in order.
pub open spec fn steps_model(s: SessionModel, es: Seq<EventModel>) -> SessionModel
    decreases es.len(),
{
    if es.len() == 0 {
        s
    } else {
        steps_model(step_model(s, es[0]), es.skip(1))
    }
}

/// A sequence of edit operations as a sequence of events.
pub open spec fn edit_events(ops: Seq<EditOpModel>) -> Seq<EventModel> {
    ops.map_values(|op: EditOpModel| EventModel::Edit(op))
}

/// A sequence of edit operations applied to a buffer in order.
pub open spec fn apply_edits_model(b: BufferModel, ops: Seq<EditOpModel>) -> BufferModel
    decreases ops.len(),
{
    if ops.len() == 0 {
        b
    } else {
        apply_edits_model(apply_edit_model(b, ops[0]), ops.skip(1))
    }
}

/// The events after which the session is clean again: starting over with a
/// fresh document, or a successful open or save completion. No other event
/// ever clears the dirty flag.
pub open spec fn clears_dirty(e: EventModel) -> bool {
    match e {
        EventModel::NewDocument => true,
        EventModel::OpenCompleted(r) => r is Ok,
        EventModel::SaveCompleted(r) => r is Ok,
        _ => false,
    }
}

/// Well-formedness of the session survives any single event.
pub proof fn lemma_steps_model_wf(s: SessionModel, es: Seq<EventModel>)
    requires
        s.wf(),
        forall|i: int| 0 <= i < es.len() ==> (#[trigger] es[i]).wf(),
    ensures
        steps_model(s, es).wf(),
    decreases es.len(),
{
    if es.len() > 0 {
        lemma_step_model_wf(s, es[0]);
        lemma_steps_model_wf(step_model(s, es[0]), es.skip(1));
    }
}

/// A dirty session stays dirty through any sequence of edits: no edit —
/// modifying or not — ever clears the flag.
pub proof fn lemma_edits_preserve_dirty(s: SessionModel, ops: Seq<EditOpModel>)
    requires
        s.is_dirty,
    ensures
        steps_model(s, edit_events(ops)).is_dirty,
    decreases ops.len(),
{
    if ops.len() > 0 {
        let s1 = step_model(s, EventModel::Edit(ops[0]));
        assert(edit_events(ops)[0] == EventModel::Edit(ops[0]));
        assert(edit_events(ops).skip(1) =~= edit_events(ops.skip(1)));
        lemma_edits_preserve_dirty(s1, ops.skip(1));
    }
}

/// Over any sequence of edits whose first operation is modifying, the dirty
/// flag is set by that first operation and stays set to the end: only a
/// successful load or save could clear it, and no edit is either.
pub proof fn lemma_dirty_after_modifying_edits(s: SessionModel, ops: Seq<EditOpModel>)
    requires
        ops.len() >= 1,
        is_modifying(ops[0]),
    ensures
        steps_model(s, edit_events(ops)).is_dirty,
{
    let s1 = step_model(s, EventModel::Edit(ops[0]));
    assert(edit_events(ops)[0] == EventModel::Edit(ops[0]));
    assert(s1.is_dirty);
    assert(edit_events(ops).skip(1) =~= edit_events(ops.skip(1)));
    lemma_edits_preserve_dirty(s1, ops.skip(1));
}

/// Once dirty, the session stays dirty under every event that is not a
/// fresh document or a successful open or save — dropped requests, failed
/// completions and edits included.
pub proof fn lemma_dirty_until_cleared(s: SessionModel, e: EventModel)
    requires
        s.is_dirty,
        !clears_dirty(e),
    ensures
        step_model(s, e).is_dirty,
{
}

/// While an operation is in flight every request — a fresh document, an
/// open, a save — is dropped: the state is unchanged and no I/O is started.
pub proof fn lemma_requests_while_busy_are_noops(s: SessionModel)
    requires
        s.is_busy,
    ensures
        step_model(s, EventModel::NewDocument) == s,
        action_model(s, EventModel::NewDocument) == ActionModel::Nothing,
        step_model(s, EventModel::OpenRequested) == s,
        action_model(s, EventModel::OpenRequested) == ActionModel::Nothing,
        step_model(s, EventModel::SaveRequested) == s,
        action_model(s, EventModel::SaveRequested) == ActionModel::Nothing,
{
}

/// The busy flag really guards the single in-flight operation: I/O is only
/// ever started from an idle session, and starting it makes the session
/// busy, so no second operation can start before the first completes.
pub proof fn lemma_single_operation_in_flight(s: SessionModel, e: EventModel)
    ensures
        action_model(s, e) != ActionModel::Nothing ==> !s.is_busy && step_model(s, e).is_busy,
{
}

/// The dirty flag is cleared exactly with a successful completion: clean
/// after a successful open or save, whatever it was before.
pub proof fn lemma_success_clears_dirty(s: SessionModel, p: Seq<char>, t: Seq<char>)
    ensures
        !step_model(s, EventModel::OpenCompleted(Ok((p, t)))).is_dirty,
        !step_model(s, EventModel::SaveCompleted(Ok(p))).is_dirty,
{
}

/// Round trip through the I/O layer: a save request hands over exactly the
/// buffer's text, and if a later open of the saved path returns that same
/// content — which a faithful file system does — the reloaded buffer holds
/// it unchanged, character for character, with the session clean.
pub proof fn lemma_save_open_round_trip(s: SessionModel, p: Seq<char>)
    requires
        s.wf(),
        !s.is_busy,
    ensures
        ({
            let content = s.buffer.text();
            let after_save = step_model(
                step_model(s, EventModel::SaveRequested),
                EventModel::SaveCompleted(Ok(p)),
            );
            let after_open = step_model(
                step_model(after_save, EventModel::OpenRequested),
                EventModel::OpenCompleted(Ok((p, content))),
            );
            &&& action_model(s, EventModel::SaveRequested) == ActionModel::StartSave(
                s.path,
                content,
            )
            &&& after_open.buffer.text() == content
            &&& after_open.path == Some(p)
            &&& !after_open.is_dirty
            &&& !after_open.is_busy
        }),
{
    lemma_join_split(s.buffer.text());
}

/// A pure cursor move — to any position, in or out of bounds — changes
/// neither the dirty flag nor the text, the path, the busy flag, or the
/// recorded failure.
pub proof fn lemma_move_cursor_changes_no_state(s: SessionModel, l: int, c: int)
    ensures
        ({
            let r = step_model(s, EventModel::Edit(EditOpModel::MoveCursor(l, c)));
            &&& r.is_dirty == s.is_dirty
            &&& r.buffer.lines == s.buffer.lines
            &&& r.path == s.path
            &&& r.is_busy == s.is_busy
            &&& r.last_error == s.last_error
        }),
{
}

/// The cursor invariant: after any sequence of edits on a well-formed
/// buffer, the cursor line lies within `[0, lineCount)` and the cursor
/// column within `[0, lineLength(line)]`.
pub proof fn lemma_edits_keep_cursor_in_bounds(b: BufferModel, ops: Seq<EditOpModel>)
    requires
        b.wf(),
        forall|i: int| 0 <= i < ops.len() ==> (#[trigger] ops[i]).wf(),
    ensures
        apply_edits_model(b, ops).wf(),
        0 <= apply_edits_model(b, ops).cursor_line < apply_edits_model(b, ops).lines.len(),
        0 <= apply_edits_model(b, ops).cursor_col <= apply_edits_model(b, ops).lines[
            apply_edits_model(b, ops).cursor_line].len(),
    decreases ops.len(),
{
    if ops.len() > 0 {
        lemma_apply_edit_model_wf(b, ops[0]);
        lemma_edits_keep_cursor_in_bounds(apply_edit_model(b, ops[0]), ops.skip(1));
    }
}

} // verus!
