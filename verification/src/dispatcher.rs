//! The dispatcher: the one place where the notes are changed and where the
//! sampler's state is read for a reply. It takes the requests one at a time,
//! in the order in which they arrive.

use crate::cacher::{Cache, WriteError};
use crate::gatherer::app_gatherer::{
    event_views, option_view, recent, ActiveProcessEvent, ActiveProcessEventView, AppGatherer,
};
use crate::notes::{
    archived, edited, links_of, note_views, recorded, revision_view, shows, Note, NoteStatus,
    NoteTaker, NoteView,
};
use crate::signals::{Signals, SignalsView};
use vstd::prelude::*;

verus! {

/// What the dispatcher answers to a request.
#[derive(Debug)]
pub enum Reply {
    /// The recently focused windows.
    RecentApps(Vec<ActiveProcessEvent>),
    /// The session that holds the focus, if any.
    CurrentApp(Option<ActiveProcessEvent>),
    /// The notes to show under the link that was asked for.
    LinkNotes(Vec<Note>),
    /// The notes were asked to change: the revision that the change made and
    /// that the log of notes now holds, or none where the request named a
    /// note that the store lacks.
    Recorded(Option<Note>),
    /// The notes were asked to change, but the revision could not be appended
    /// to the log of notes: the notes are as they were.
    Failed(WriteError),
    /// The dispatcher is to stop: it takes no further request.
    Quit,
}

/// Whether `reply` answers `signal`, and `after` are the notes that the
/// request leaves, where `sessions` are the sampler's sessions that are over,
/// `current` is its current session, and `before` are the notes at the time
/// of the request.
pub open spec fn answers(
    signal: SignalsView,
    sessions: Seq<ActiveProcessEventView>,
    current: Option<ActiveProcessEventView>,
    before: Map<u128, NoteView>,
    reply: Reply,
    after: Map<u128, NoteView>,
) -> bool {
    match signal {
        SignalsView::RecentApps(n) => {
            &&& reply matches Reply::RecentApps(apps)
            &&& event_views(apps@) == recent(sessions, n)
            &&& after == before
        },
        SignalsView::CurrentApp => {
            &&& reply matches Reply::CurrentApp(app)
            &&& option_view(app) == current
            &&& after == before
        },
        SignalsView::GetLinkNotes(link) => {
            &&& reply matches Reply::LinkNotes(notes)
            &&& shows(before, link, note_views(notes@))
            &&& after == before
        },
        SignalsView::NewNote(text, links) => {
            ||| {
                &&& reply matches Reply::Recorded(Some(note))
                &&& note@.text == text
                &&& note@.links == links_of(links)
                &&& note@.status == NoteStatus::Active
                &&& after == recorded(before, Some(note@))
            }
            ||| reply is Failed && after == before
        },
        SignalsView::ArchiveNote(id) => {
            ||| {
                &&& reply matches Reply::Recorded(revision)
                &&& revision_view(revision) == archived(before, id)
                &&& after == recorded(before, revision_view(revision))
            }
            ||| reply is Failed && archived(before, id) is Some && after == before
        },
        SignalsView::EditNote(id, text) => {
            ||| {
                &&& reply matches Reply::Recorded(revision)
                &&& revision_view(revision) == edited(before, id, text)
                &&& after == recorded(before, revision_view(revision))
            }
            ||| reply is Failed && edited(before, id, text) is Some && after == before
        },
        SignalsView::Quit => {
            &&& reply is Quit
            &&& after == before
        },
    }
}

/// Handles one request. A request for a reply reads the sampler or the
/// notes and changes nothing. A request for a change is appended to the log
/// of notes, `cacher`, and then made on the notes, so that every later
/// request sees it; where the log cannot take it, the notes stay as they
/// were.
pub fn dispatch<C: Cache<Note>>(
    app_gatherer: &AppGatherer,
    note_taker: &mut NoteTaker,
    cacher: &mut C,
    signal: Signals,
) -> (reply: Reply)
    ensures
        answers(
            signal@,
            app_gatherer@.process_events,
            app_gatherer@.current,
            old(note_taker)@,
            reply,
            final(note_taker)@,
        ),
{
    match signal {
        Signals::RecentApps(n) => Reply::RecentApps(app_gatherer.get_last_processes(n)),
        Signals::CurrentApp => Reply::CurrentApp(app_gatherer.get_current()),
        Signals::GetLinkNotes(link) => Reply::LinkNotes(note_taker.get_app_notes(link.as_str())),
        Signals::NewNote(text, links) => {
            match note_taker.add_note(cacher, text.as_str(), links) {
                Ok(note) => Reply::Recorded(Some(note)),
                Err(error) => Reply::Failed(error),
            }
        },
        Signals::ArchiveNote(note_id) => {
            match note_taker.archive_note(cacher, note_id) {
                Ok(revision) => Reply::Recorded(revision),
                Err(error) => Reply::Failed(error),
            }
        },
        Signals::EditNote(note_id, text) => {
            match note_taker.edit_note(cacher, note_id, text.as_str()) {
                Ok(revision) => Reply::Recorded(revision),
                Err(error) => Reply::Failed(error),
            }
        },
        Signals::Quit => Reply::Quit,
    }
}

} // verus!
