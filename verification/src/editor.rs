//! The editor round-trip: rendering a task into the parser's textual
//! format, and the session protocol that hands the rendering to an external
//! editing process through a transient file and re-parses what comes back.
//!
//! The protocol is a strictly linear state machine. This module holds every
//! decision of that machine; the caller performs the file and process work
//! each returned [`SessionAction`] asks for and reports what happened as the
//! next [`SessionEvent`]. The machine guarantees that the transient file is
//! ordered removed on every exit path once it has been staged, whatever the
//! outcome of the edit.
use vstd::prelude::*;

use crate::content_parser::lemma_tag_parses;
use crate::content_parser::parse_task;
use crate::content_parser::spec_content;
use crate::content_parser::spec_day;
use crate::content_parser::spec_month;
use crate::content_parser::spec_parse_ok;
use crate::content_parser::spec_tag_chars;
use crate::content_parser::spec_year;
use crate::date::format_date;
use crate::task::Task;
use crate::text::lemma_trim_after_newline;
use crate::text::spec_trim;

verus! {

/// The text a task is edited as: the bracketed deadline with the canonical
/// `-` separator, a newline, then the content.
pub open spec fn spec_render(t: Task) -> Seq<char> {
    spec_tag_chars(
        t.deadline.year as int,
        t.deadline.month as int,
        t.deadline.day as int,
        '-',
        '-',
    ).add(seq!['\n']).add(t.content@)
}

/// Renders a task in the exact textual form the parser reads back:
/// `[YYYY-MM-DD]`, a newline, the content.
pub fn render_task(t: &Task) -> (s: String)
    requires
        t.deadline.wf(),
    ensures
        s@ == spec_render(*t),
{
    proof {
        reveal_strlit("[");
        reveal_strlit("]\n");
    }
    let mut s: String = String::from_str("[");
    let date = format_date(&t.deadline);
    s.append(date.as_str());
    s.append("]\n");
    s.append(t.content.as_str());
    proof {
        assert(s@ =~= spec_render(*t));
    }
    s
}

/// Round trip: rendering a task and parsing the rendering succeeds and
/// gives back exactly the deadline that was rendered, and exactly the
/// content, provided the content carries no whitespace at its own ends (end
/// whitespace is the one thing parsing strips; everything internal,
/// brackets and blank lines included, survives verbatim). Together with the
/// contract of [`parse_task`] this makes the re-parsed task equal to the
/// original whenever the original's identity is zero, its category unset
/// and its done flag clear — exactly the shape [`parse_task`] produces.
pub proof fn lemma_render_parse_round_trip(t: Task)
    requires
        t.deadline.wf(),
        spec_trim(t.content@) == t.content@,
    ensures
        spec_parse_ok(spec_render(t)),
        spec_year(spec_render(t)) == t.deadline.year as int,
        spec_month(spec_render(t)) == t.deadline.month as int,
        spec_day(spec_render(t)) == t.deadline.day as int,
        spec_content(spec_render(t)) == t.content@,
{
    let y: int = t.deadline.year as int;
    let m: int = t.deadline.month as int;
    let d: int = t.deadline.day as int;
    let tail = seq!['\n'].add(t.content@);
    lemma_tag_parses(y, m, d, '-', '-', tail);
    assert(spec_render(t) =~= spec_tag_chars(y, m, d, '-', '-') + tail);
    lemma_trim_after_newline(t.content@);
}

/// Where an edit session stands. The phases are strictly linear: a session
/// only moves forward, and ends in `Done` or `Failed`.
#[derive(Clone, Copy, PartialEq, Eq, Structural, Debug)]
pub enum SessionPhase {
    /// The task has been rendered; the text is being staged to a transient
    /// file.
    Rendering,
    /// The transient file holds the rendering; the editor is being
    /// launched.
    Staged,
    /// The external editor owns the file; the session waits, without
    /// polling and without a timeout, for the process to exit, whatever its
    /// exit status.
    Editing,
    /// The editor exited; the file is being read back.
    Reloading,
    /// The reloaded text parsed; the updated task is in `result`.
    Done,
    /// The session failed; the caller keeps whatever task it had.
    Failed,
}

/// What the caller reports back to the session.
#[derive(Debug)]
pub enum SessionEvent {
    /// The rendered text was written to a fresh, uniquely named transient
    /// file.
    FileStaged,
    /// The transient file could not be created or written.
    StageFailed,
    /// The editor process was launched on the file.
    EditorSpawned,
    /// The editor program could not be launched.
    SpawnFailed,
    /// The editor process terminated, with whatever exit status.
    EditorExited,
    /// The file was read back; the payload is its full contents.
    FileReloaded(String),
    /// The file could not be read back after the editor exited.
    ReloadFailed,
}

/// What the session asks the caller to do next.
#[derive(Clone, Copy, PartialEq, Eq, Structural, Debug)]
pub enum SessionAction {
    /// Launch the configured editor on the transient file.
    SpawnEditor,
    /// Block until the editor process exits.
    AwaitEditor,
    /// Read the transient file back in full.
    ReloadFile,
    /// Delete the transient file.
    RemoveFile,
    /// Nothing remains to be done.
    Stop,
}

/// Which events may arrive in which phase; terminal phases accept none.
pub open spec fn admissible(p: SessionPhase, e: SessionEvent) -> bool {
    match (p, e) {
        (SessionPhase::Rendering, SessionEvent::FileStaged) => true,
        (SessionPhase::Rendering, SessionEvent::StageFailed) => true,
        (SessionPhase::Staged, SessionEvent::EditorSpawned) => true,
        (SessionPhase::Staged, SessionEvent::SpawnFailed) => true,
        (SessionPhase::Editing, SessionEvent::EditorExited) => true,
        (SessionPhase::Reloading, SessionEvent::FileReloaded(_)) => true,
        (SessionPhase::Reloading, SessionEvent::ReloadFailed) => true,
        _ => false,
    }
}

/// The phase after an event: the full transition table of the protocol.
pub open spec fn spec_step_phase(p: SessionPhase, e: SessionEvent) -> SessionPhase {
    match (p, e) {
        (SessionPhase::Rendering, SessionEvent::FileStaged) => SessionPhase::Staged,
        (SessionPhase::Rendering, SessionEvent::StageFailed) => SessionPhase::Failed,
        (SessionPhase::Staged, SessionEvent::EditorSpawned) => SessionPhase::Editing,
        (SessionPhase::Staged, SessionEvent::SpawnFailed) => SessionPhase::Failed,
        (SessionPhase::Editing, SessionEvent::EditorExited) => SessionPhase::Reloading,
        (SessionPhase::Reloading, SessionEvent::FileReloaded(text)) => if spec_parse_ok(text@) {
            SessionPhase::Done
        } else {
            SessionPhase::Failed
        },
        (SessionPhase::Reloading, SessionEvent::ReloadFailed) => SessionPhase::Failed,
        _ => SessionPhase::Failed,
    }
}

/// The action ordered alongside each transition.
pub open spec fn spec_step_action(p: SessionPhase, e: SessionEvent) -> SessionAction {
    match (p, e) {
        (SessionPhase::Rendering, SessionEvent::FileStaged) => SessionAction::SpawnEditor,
        (SessionPhase::Rendering, SessionEvent::StageFailed) => SessionAction::Stop,
        (SessionPhase::Staged, SessionEvent::EditorSpawned) => SessionAction::AwaitEditor,
        (SessionPhase::Staged, SessionEvent::SpawnFailed) => SessionAction::RemoveFile,
        (SessionPhase::Editing, SessionEvent::EditorExited) => SessionAction::ReloadFile,
        (SessionPhase::Reloading, SessionEvent::FileReloaded(_)) => SessionAction::RemoveFile,
        (SessionPhase::Reloading, SessionEvent::ReloadFailed) => SessionAction::RemoveFile,
        _ => SessionAction::Stop,
    }
}

/// One edit session: the current phase, and the re-parsed task once the
/// session is done.
#[derive(Debug)]
pub struct EditSession {
    pub phase: SessionPhase,
    pub result: Option<Task>,
}

impl EditSession {
    /// A result is held exactly in the `Done` phase.
    pub open spec fn wf(self) -> bool {
        &&& self.phase is Done ==> self.result is Some
        &&& !(self.phase is Done) ==> self.result is None
    }

    /// Opens a session on a task: renders it, and hands the caller the
    /// exact text to stage into the transient file.
    pub fn start(task: &Task) -> (r: (EditSession, String))
        requires
            task.deadline.wf(),
        ensures
            r.0.phase is Rendering,
            r.0.wf(),
            r.1@ == spec_render(*task),
    {
        let text = render_task(task);
        (EditSession { phase: SessionPhase::Rendering, result: None }, text)
    }

    /// Feeds the session what happened; it moves one phase forward and says
    /// what to do next. When the reloaded text parses, the session ends
    /// `Done` holding the updated task; any failure after staging still
    /// orders the transient file removed.
    pub fn step(self, event: SessionEvent) -> (r: (EditSession, SessionAction))
        requires
            self.wf(),
            admissible(self.phase, event),
        ensures
            r.0.wf(),
            r.0.phase == spec_step_phase(self.phase, event),
            r.1 == spec_step_action(self.phase, event),
            r.0.phase is Done ==> (event matches SessionEvent::FileReloaded(text)
                && r.0.result matches Some(t) && {
                &&& t.deadline.year as int == spec_year(text@)
                &&& t.deadline.month as int == spec_month(text@)
                &&& t.deadline.day as int == spec_day(text@)
                &&& t.deadline.wf()
                &&& t.content@ == spec_content(text@)
                &&& t.id == 0
                &&& t.category is None
                &&& t.done == false
            }),
    {
        match (self.phase, event) {
            (SessionPhase::Rendering, SessionEvent::FileStaged) => (
                EditSession { phase: SessionPhase::Staged, result: None },
                SessionAction::SpawnEditor,
            ),
            (SessionPhase::Rendering, SessionEvent::StageFailed) => (
                EditSession { phase: SessionPhase::Failed, result: None },
                SessionAction::Stop,
            ),
            (SessionPhase::Staged, SessionEvent::EditorSpawned) => (
                EditSession { phase: SessionPhase::Editing, result: None },
                SessionAction::AwaitEditor,
            ),
            (SessionPhase::Staged, SessionEvent::SpawnFailed) => (
                EditSession { phase: SessionPhase::Failed, result: None },
                SessionAction::RemoveFile,
            ),
            (SessionPhase::Editing, SessionEvent::EditorExited) => (
                EditSession { phase: SessionPhase::Reloading, result: None },
                SessionAction::ReloadFile,
            ),
            (SessionPhase::Reloading, SessionEvent::FileReloaded(text)) => {
                match parse_task(text.as_str()) {
                    Ok(t) => (
                        EditSession { phase: SessionPhase::Done, result: Some(t) },
                        SessionAction::RemoveFile,
                    ),
                    Err(_) => (
                        EditSession { phase: SessionPhase::Failed, result: None },
                        SessionAction::RemoveFile,
                    ),
                }
            }
            (SessionPhase::Reloading, SessionEvent::ReloadFailed) => (
                EditSession { phase: SessionPhase::Failed, result: None },
                SessionAction::RemoveFile,
            ),
            _ => (EditSession { phase: SessionPhase::Failed, result: None }, SessionAction::Stop),
        }
    }
}

/// How far along a session is; the two terminal phases share the last rank.
pub open spec fn phase_index(p: SessionPhase) -> int {
    match p {
        SessionPhase::Rendering => 0,
        SessionPhase::Staged => 1,
        SessionPhase::Editing => 2,
        SessionPhase::Reloading => 3,
        SessionPhase::Done => 4,
        SessionPhase::Failed => 4,
    }
}

pub open spec fn is_terminal(p: SessionPhase) -> bool {
    p is Done || p is Failed
}

/// The transient file exists in exactly these phases: it has been staged
/// and has not yet been ordered removed.
pub open spec fn file_live(p: SessionPhase) -> bool {
    p is Staged || p is Editing || p is Reloading
}

/// The protocol is strictly linear: every admissible event moves the
/// session strictly forward, so there are no back-edges and no cycles, and
/// a terminal phase accepts no further event.
pub proof fn lemma_session_advances(p: SessionPhase, e: SessionEvent)
    requires
        admissible(p, e),
    ensures
        phase_index(spec_step_phase(p, e)) > phase_index(p),
        !is_terminal(p),
{
}

/// Cleanup runs on every exit path: once the transient file is staged,
/// whatever ends the session — a successful reparse, a parse failure, a
/// reload failure or a spawn failure — orders the file removed.
pub proof fn lemma_cleanup_on_exit(p: SessionPhase, e: SessionEvent)
    requires
        admissible(p, e),
        file_live(p),
        is_terminal(spec_step_phase(p, e)),
    ensures
        spec_step_action(p, e) == SessionAction::RemoveFile,
{
}

} // verus!
