//! The requests that the observers and the user interface send to the
//! dispatcher.

use crate::text::views;
use vstd::prelude::*;

verus! {

/// A request to the dispatcher. The first three ask for a reply; the next
/// three change the notes; the last one ends the program.
#[derive(Debug)]
pub enum Signals {
    /// The recently focused windows, so many at most.
    RecentApps(usize),
    /// The session that holds the focus.
    CurrentApp,
    /// The active notes that carry this link.
    GetLinkNotes(String),
    /// A new note with this text and these links.
    NewNote(String, Vec<String>),
    /// Archive the note with this identifier.
    ArchiveNote(u128),
    /// Give the note with this identifier this text.
    EditNote(u128, String),
    Quit,
}

pub enum SignalsView {
    RecentApps(int),
    CurrentApp,
    GetLinkNotes(Seq<char>),
    NewNote(Seq<char>, Seq<Seq<char>>),
    ArchiveNote(u128),
    EditNote(u128, Seq<char>),
    Quit,
}

impl View for Signals {
    type V = SignalsView;

    open spec fn view(&self) -> SignalsView {
        match self {
            Signals::RecentApps(n) => SignalsView::RecentApps(*n as int),
            Signals::CurrentApp => SignalsView::CurrentApp,
            Signals::GetLinkNotes(link) => SignalsView::GetLinkNotes(link@),
            Signals::NewNote(text, links) => SignalsView::NewNote(text@, views(links@)),
            Signals::ArchiveNote(id) => SignalsView::ArchiveNote(*id),
            Signals::EditNote(id, text) => SignalsView::EditNote(*id, text@),
            Signals::Quit => SignalsView::Quit,
        }
    }
}

/// The requests that a sequence of requests stands for.
pub open spec fn signal_views(signals: Seq<Signals>) -> Seq<SignalsView> {
    Seq::new(signals.len(), |i: int| signals[i]@)
}

} // verus!
