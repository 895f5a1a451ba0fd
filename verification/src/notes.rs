//! Notes and the store that holds them. A note is never changed in place:
//! every change is a new revision under the same identifier, and the store
//! holds the last revision of each note.

use crate::cacher::{Cache, WriteError};
use crate::clock::now;
use crate::text::{same_text, views};
use std::collections::HashMap;
use ulid::Ulid;
use vstd::prelude::*;

verus! {

#[derive(Debug, Clone, Copy, PartialEq, Eq, Structural)]
pub enum NoteStatus {
    Active,
    Archived,
}

/// What a note is about: the title of a window or the path of a file.
#[derive(Debug)]
pub struct Link {
    pub link: String,
    pub weight: usize,
}

pub struct LinkView {
    pub link: Seq<char>,
    pub weight: int,
}

impl View for Link {
    type V = LinkView;

    open spec fn view(&self) -> LinkView {
        LinkView { link: self.link@, weight: self.weight as int }
    }
}

impl Clone for Link {
    fn clone(&self) -> (r: Self)
        ensures
            r@ == self@,
    {
        Link { link: self.link.clone(), weight: self.weight }
    }
}

impl Link {
    pub fn new(link: String, weight: usize) -> (r: Link)
        ensures
            r@ == (LinkView { link: link@, weight: weight as int }),
    {
        Link { link, weight }
    }
}

/// The links that a sequence of links stands for.
pub open spec fn link_views(links: Seq<Link>) -> Seq<LinkView> {
    Seq::new(links.len(), |i: int| links[i]@)
}

/// One link of weight one for each label.
pub open spec fn links_of(labels: Seq<Seq<char>>) -> Seq<LinkView> {
    Seq::new(labels.len(), |i: int| LinkView { link: labels[i], weight: 1 })
}

/// A revision of a note. The identifier is given once, when the note is
/// made, and is the same in all its revisions; the creation date is in
/// nanoseconds since the Unix epoch.
#[derive(Debug)]
pub struct Note {
    pub id: u128,
    pub links: Vec<Link>,
    pub text: String,
    pub creation_date: u128,
    pub status: NoteStatus,
}

pub struct NoteView {
    pub id: u128,
    pub links: Seq<LinkView>,
    pub text: Seq<char>,
    pub creation_date: int,
    pub status: NoteStatus,
}

impl View for Note {
    type V = NoteView;

    open spec fn view(&self) -> NoteView {
        NoteView {
            id: self.id,
            links: link_views(self.links@),
            text: self.text@,
            creation_date: self.creation_date as int,
            status: self.status,
        }
    }
}

/// The revisions that a sequence of revisions stands for.
pub open spec fn note_views(notes: Seq<Note>) -> Seq<NoteView> {
    Seq::new(notes.len(), |i: int| notes[i]@)
}

/// The revision that an optional revision stands for.
pub open spec fn revision_view(note: Option<Note>) -> Option<NoteView> {
    match note {
        Some(n) => Some(n@),
        None => None,
    }
}

/// `Ulid::new`: a new identifier, made of the current time and of random
/// bits, given as the 128-bit number that it wraps. Nothing is claimed of
/// the value.
#[verifier::external_body]
fn new_ulid() -> u128 {
    Ulid::new().0
}

/// A copy of `links`.
fn clone_links(links: &Vec<Link>) -> (copy: Vec<Link>)
    ensures
        link_views(copy@) == link_views(links@),
{
    let mut copy: Vec<Link> = Vec::new();
    let mut i: usize = 0;
    while i < links.len()
        invariant
            i <= links.len(),
            copy@.len() == i,
            forall|j: int| 0 <= j < i ==> (#[trigger] copy@[j])@ == links@[j]@,
        decreases links.len() - i,
    {
        copy.push(links[i].clone());
        i += 1;
    }
    proof {
        assert(link_views(copy@) =~= link_views(links@));
    }
    copy
}

impl Clone for Note {
    fn clone(&self) -> (r: Self)
        ensures
            r@ == self@,
    {
        Note {
            id: self.id,
            links: clone_links(&self.links),
            text: self.text.clone(),
            creation_date: self.creation_date,
            status: self.status,
        }
    }
}

impl Note {
    /// A new active note, with a new identifier, made now.
    pub fn new(text: &str, links: Vec<Link>) -> (r: Self)
        ensures
            r@.links == link_views(links@),
            r@.text == text@,
            r@.status == NoteStatus::Active,
    {
        Note::with_id(new_ulid(), now(), text, links)
    }

    /// A new active note with the given identifier and creation date.
    pub fn with_id(id: u128, creation_date: u128, text: &str, links: Vec<Link>) -> (r: Self)
        ensures
            r@ == (NoteView {
                id,
                links: link_views(links@),
                text: text@,
                creation_date: creation_date as int,
                status: NoteStatus::Active,
            }),
    {
        Note { id, links, text: text.to_owned(), creation_date, status: NoteStatus::Active }
    }
}

/// The notes that a log of revisions gives when it is read from its start:
/// for each identifier the last revision that the log holds.
pub open spec fn replay(log: Seq<NoteView>) -> Map<u128, NoteView>
    decreases log.len(),
{
    if log.len() == 0 {
        Map::<u128, NoteView>::empty()
    } else {
        replay(log.drop_last()).insert(log.last().id, log.last())
    }
}

/// Every note stands under its own identifier.
pub open spec fn keyed_by_id(notes: Map<u128, NoteView>) -> bool {
    forall|id: u128| #[trigger] notes.contains_key(id) ==> notes[id].id == id
}

/// The note with a new text.
pub open spec fn with_text(note: NoteView, text: Seq<char>) -> NoteView {
    NoteView { text, ..note }
}

/// The note with a new status.
pub open spec fn with_status(note: NoteView, status: NoteStatus) -> NoteView {
    NoteView { status, ..note }
}

/// The revision that archiving the note with this identifier makes, if the
/// store holds such a note.
pub open spec fn archived(notes: Map<u128, NoteView>, id: u128) -> Option<NoteView> {
    if notes.contains_key(id) {
        Some(with_status(notes[id], NoteStatus::Archived))
    } else {
        None
    }
}

/// The revision that giving the note with this identifier a new text makes,
/// if the store holds such a note.
pub open spec fn edited(notes: Map<u128, NoteView>, id: u128, text: Seq<char>) -> Option<
    NoteView,
> {
    if notes.contains_key(id) {
        Some(with_text(notes[id], text))
    } else {
        None
    }
}

/// The store after a revision, if there is one, has taken the place of what
/// stood under its identifier.
pub open spec fn recorded(notes: Map<u128, NoteView>, revision: Option<NoteView>) -> Map<
    u128,
    NoteView,
> {
    match revision {
        Some(note) => notes.insert(note.id, note),
        None => notes,
    }
}

/// Whether the note carries this link.
pub open spec fn is_linked(note: NoteView, link: Seq<char>) -> bool {
    exists|i: int| 0 <= i < note.links.len() && #[trigger] note.links[i].link == link
}

/// Whether the note is shown under this link: it is active and carries it.
pub open spec fn is_shown(note: NoteView, link: Seq<char>) -> bool {
    note.status == NoteStatus::Active && is_linked(note, link)
}

/// No note was made after one that stands before it.
pub open spec fn newest_first(notes: Seq<NoteView>) -> bool {
    forall|i: int, j: int|
        0 <= i < j < notes.len() ==> (#[trigger] notes[i]).creation_date >= (
        #[trigger] notes[j]).creation_date
}

/// Whether `shown` are the notes of the store to show under this link: each
/// of them once, and no other, the newest first.
pub open spec fn shows(notes: Map<u128, NoteView>, link: Seq<char>, shown: Seq<NoteView>) -> bool {
    &&& forall|i: int|
        0 <= i < shown.len() ==> notes.contains_key((#[trigger] shown[i]).id) && notes[shown[i].id]
            == shown[i] && is_shown(shown[i], link)
    &&& forall|id: u128|
        #[trigger] notes.contains_key(id) && is_shown(notes[id], link) ==> exists|i: int|
            0 <= i < shown.len() && #[trigger] shown[i] == notes[id]
    &&& forall|i: int, j: int|
        0 <= i < j < shown.len() ==> (#[trigger] shown[i]).id != (#[trigger] shown[j]).id
    &&& newest_first(shown)
}

/// The store of notes.
pub struct NoteTaker {
    notes: HashMap<u128, Note>,
}

impl View for NoteTaker {
    type V = Map<u128, NoteView>;

    closed spec fn view(&self) -> Map<u128, NoteView> {
        self.notes@.map_values(|note: Note| note@)
    }
}

impl NoteTaker {
    #[verifier::type_invariant]
    spec fn keyed(&self) -> bool {
        forall|id: u128| #[trigger] self.notes@.contains_key(id) ==> self.notes@[id].id == id
    }

    /// The store that a log of revisions gives.
    pub fn new(records: Vec<Note>) -> (r: Self)
        ensures
            r@ == replay(note_views(records@)),
            keyed_by_id(r@),
    {
        let mut notes: HashMap<u128, Note> = HashMap::new();
        let mut i: usize = 0;
        proof {
            assert(note_views(records@).take(0) =~= Seq::<NoteView>::empty());
            assert(notes@.map_values(|note: Note| note@) =~= Map::<u128, NoteView>::empty());
        }
        while i < records.len()
            invariant
                i <= records.len(),
                notes@.map_values(|note: Note| note@) == replay(note_views(records@).take(i as int)),
                forall|id: u128| #[trigger] notes@.contains_key(id) ==> notes@[id].id == id,
            decreases records.len() - i,
        {
            let note = records[i].clone();
            proof {
                let log = note_views(records@).take(i + 1);
                assert(log.drop_last() =~= note_views(records@).take(i as int));
                assert(log.last() == note@);
                assert(notes@.insert(note.id, note).map_values(|note: Note| note@) =~= notes@.map_values(
                    |note: Note| note@,
                ).insert(note.id, note@));
            }
            notes.insert(note.id, note);
            i += 1;
        }
        proof {
            assert(note_views(records@).take(records.len() as int) =~= note_views(records@));
        }
        NoteTaker { notes }
    }

    /// A new active note with a new identifier, made now, whose links are
    /// these labels, each with weight one. No store is changed.
    pub fn new_note(text: &str, links: Vec<String>) -> (note: Note)
        ensures
            note@.text == text@,
            note@.links == links_of(views(links@)),
            note@.status == NoteStatus::Active,
    {
        NoteTaker::new_note_at(new_ulid(), now(), text, links)
    }

    /// A new active note with the given identifier and creation date, whose
    /// links are these labels, each with weight one. No store is changed.
    pub fn new_note_at(id: u128, creation_date: u128, text: &str, links: Vec<String>) -> (note:
        Note)
        ensures
            note@ == (NoteView {
                id,
                links: links_of(views(links@)),
                text: text@,
                creation_date: creation_date as int,
                status: NoteStatus::Active,
            }),
    {
        let mut note_links: Vec<Link> = Vec::new();
        let mut i: usize = 0;
        while i < links.len()
            invariant
                i <= links.len(),
                note_links@.len() == i,
                forall|j: int|
                    0 <= j < i ==> (#[trigger] note_links@[j])@ == (LinkView {
                        link: links@[j]@,
                        weight: 1,
                    }),
            decreases links.len() - i,
        {
            note_links.push(Link::new(links[i].clone(), 1));
            i += 1;
        }
        proof {
            assert(link_views(note_links@) =~= links_of(views(links@)));
        }
        Note::with_id(id, creation_date, text, note_links)
    }

    /// The revision that archives the note with this identifier, or none
    /// where the store holds no such note. The store is not changed.
    pub fn archived_note(&self, note_id: u128) -> (revision: Option<Note>)
        ensures
            revision_view(revision) == archived(self@, note_id),
            revision matches Some(note) ==> note@.id == note_id,
            keyed_by_id(self@),
    {
        proof {
            use_type_invariant(self);
        }
        match self.notes.get(&note_id) {
            Some(note) => {
                let mut note = note.clone();
                note.status = NoteStatus::Archived;
                Some(note)
            },
            None => None,
        }
    }

    /// The revision that gives the note with this identifier a new text, or
    /// none where the store holds no such note. The store is not changed.
    pub fn edited_note(&self, note_id: u128, text: &str) -> (revision: Option<Note>)
        ensures
            revision_view(revision) == edited(self@, note_id, text@),
            revision matches Some(note) ==> note@.id == note_id,
            keyed_by_id(self@),
    {
        proof {
            use_type_invariant(self);
        }
        match self.notes.get(&note_id) {
            Some(note) => {
                let mut note = note.clone();
                note.text = text.to_owned();
                Some(note)
            },
            None => None,
        }
    }

    /// Puts a revision in the place of what stood under its identifier.
    pub fn record(&mut self, note: Note)
        ensures
            final(self)@ == recorded(old(self)@, Some(note@)),
            keyed_by_id(final(self)@),
    {
        proof {
            use_type_invariant(&*self);
            assert(self.notes@.insert(note.id, note).map_values(|note: Note| note@)
                =~= self.notes@.map_values(|note: Note| note@).insert(note.id, note@));
        }
        // The map leaves the store while it changes, and comes back after.
        let mut notes: HashMap<u128, Note> = HashMap::new();
        std::mem::swap(&mut self.notes, &mut notes);
        notes.insert(note.id, note);
        std::mem::swap(&mut self.notes, &mut notes);
    }

    /// Takes a revision into the store if, and only if, it was appended to
    /// the log of notes: `appended` is what the log answered. A revision that
    /// the log lacks never enters the store.
    pub fn commit(&mut self, revision: Note, appended: Result<(), WriteError>) -> (r: Result<
        Note,
        WriteError,
    >)
        ensures
            match appended {
                Ok(_) => r == Ok::<Note, WriteError>(revision) && final(self)@ == recorded(
                    old(self)@,
                    Some(revision@),
                ),
                Err(error) => r == Err::<Note, WriteError>(error) && final(self)@ == old(self)@,
            },
            keyed_by_id(final(self)@),
    {
        proof {
            use_type_invariant(&*self);
        }
        match appended {
            Ok(_) => {
                self.record(revision.clone());
                Ok(revision)
            },
            Err(error) => Err(error),
        }
    }

    /// Adds a new active note with a new identifier, made now, whose links
    /// are these labels, each with weight one. The note is appended to the
    /// log first, and enters the store only if that went well.
    pub fn add_note<C: Cache<Note>>(&mut self, cacher: &mut C, text: &str, links: Vec<String>) -> (r:
        Result<Note, WriteError>)
        ensures
            match r {
                Ok(note) => {
                    &&& note@.text == text@
                    &&& note@.links == links_of(views(links@))
                    &&& note@.status == NoteStatus::Active
                    &&& final(self)@ == recorded(old(self)@, Some(note@))
                },
                Err(_) => final(self)@ == old(self)@,
            },
            keyed_by_id(final(self)@),
    {
        let note = NoteTaker::new_note(text, links);
        let appended = cacher.cache(&note);
        self.commit(note, appended)
    }

    /// Adds a new active note with the given identifier and creation date,
    /// whose links are these labels, each with weight one. The note is
    /// appended to the log first, and enters the store only if that went
    /// well.
    pub fn add_note_at<C: Cache<Note>>(
        &mut self,
        cacher: &mut C,
        id: u128,
        creation_date: u128,
        text: &str,
        links: Vec<String>,
    ) -> (r: Result<Note, WriteError>)
        ensures
            match r {
                Ok(note) => {
                    &&& note@ == (NoteView {
                        id,
                        links: links_of(views(links@)),
                        text: text@,
                        creation_date: creation_date as int,
                        status: NoteStatus::Active,
                    })
                    &&& final(self)@ == recorded(old(self)@, Some(note@))
                },
                Err(_) => final(self)@ == old(self)@,
            },
            keyed_by_id(final(self)@),
    {
        let note = NoteTaker::new_note_at(id, creation_date, text, links);
        let appended = cacher.cache(&note);
        self.commit(note, appended)
    }

    /// Archives the note with this identifier. The archived revision is
    /// appended to the log first, and enters the store only if that went
    /// well. A store that holds no such note is left as it is, and nothing
    /// is appended.
    pub fn archive_note<C: Cache<Note>>(&mut self, cacher: &mut C, note_id: u128) -> (r: Result<
        Option<Note>,
        WriteError,
    >)
        ensures
            match r {
                Ok(revision) => {
                    &&& revision_view(revision) == archived(old(self)@, note_id)
                    &&& revision matches Some(note) ==> note@.id == note_id
                    &&& final(self)@ == recorded(old(self)@, revision_view(revision))
                },
                Err(_) => archived(old(self)@, note_id) is Some && final(self)@ == old(self)@,
            },
            keyed_by_id(old(self)@),
            keyed_by_id(final(self)@),
    {
        match self.archived_note(note_id) {
            Some(revision) => {
                let appended = cacher.cache(&revision);
                match self.commit(revision, appended) {
                    Ok(revision) => Ok(Some(revision)),
                    Err(error) => Err(error),
                }
            },
            None => Ok(None),
        }
    }

    /// Gives the note with this identifier a new text. The new revision is
    /// appended to the log first, and enters the store only if that went
    /// well. A store that holds no such note is left as it is, and nothing
    /// is appended.
    pub fn edit_note<C: Cache<Note>>(&mut self, cacher: &mut C, note_id: u128, text: &str) -> (r:
        Result<Option<Note>, WriteError>)
        ensures
            match r {
                Ok(revision) => {
                    &&& revision_view(revision) == edited(old(self)@, note_id, text@)
                    &&& revision matches Some(note) ==> note@.id == note_id
                    &&& final(self)@ == recorded(old(self)@, revision_view(revision))
                },
                Err(_) => edited(old(self)@, note_id, text@) is Some && final(self)@ == old(self)@,
            },
            keyed_by_id(old(self)@),
            keyed_by_id(final(self)@),
    {
        match self.edited_note(note_id, text) {
            Some(revision) => {
                let appended = cacher.cache(&revision);
                match self.commit(revision, appended) {
                    Ok(revision) => Ok(Some(revision)),
                    Err(error) => Err(error),
                }
            },
            None => Ok(None),
        }
    }

    /// The active notes that carry this link, the newest first.
    pub fn get_app_notes(&self, link: &str) -> (shown: Vec<Note>)
        ensures
            shows(self@, link@, note_views(shown@)),
            keyed_by_id(self@),
    {
        proof {
            use_type_invariant(self);
        }
        let mut notes_vec: Vec<Note> = Vec::new();
        let ghost mut seen: Seq<u128> = Seq::<u128>::empty();
        proof {
            assert(gathered(self@, link@, seen, note_views(notes_vec@)));
        }
        for key in it: self.notes.keys()
            invariant
                it.seq().unref().to_set() == self.notes@.dom(),
                it.seq().no_duplicates(),
                keyed_by_id(self@),
                seen == it.seq().unref().take(it.index()),
                it.index() == it.seq().len() ==> forall|id: u128| #[trigger]
                    self.notes@.contains_key(id) ==> seen.contains(id),
                gathered(self@, link@, seen, note_views(notes_vec@)),
        {
            let ghost before = note_views(notes_vec@);
            proof {
                assert(it.seq().unref()[it.index()] == *key);
                assert(it.seq().unref().to_set().contains(*key));
                if seen.contains(*key) {
                    let p = choose|p: int| 0 <= p < seen.len() && seen[p] == *key;
                    assert(it.seq()[p] == it.seq()[it.index()]);
                }
            }
            match self.notes.get(key) {
                Some(note) => {
                    if note.status == NoteStatus::Active && has_link(note, link) {
                        insert_newest_first(&mut notes_vec, note.clone());
                        proof {
                            let after = note_views(notes_vec@);
                            let at = choose|at: int|
                                0 <= at <= before.len() && after == #[trigger] before.insert(
                                    at,
                                    note@,
                                );
                            lemma_gathered_one_more(self@, link@, seen, before, *key, at);
                        }
                    } else {
                        proof {
                            lemma_gathered_none_more(self@, link@, seen, before, *key);
                        }
                    }
                },
                None => {},
            }
            proof {
                seen = seen.push(*key);
            }
            assert(it.seq().unref().take(it.index() + 1) =~= seen);
            assert forall|id: u128|
                it.index() + 1 == it.seq().len() && #[trigger] self.notes@.contains_key(
                    id,
                ) implies seen.contains(id) by {
                assert(it.seq().unref().to_set().contains(id));
                assert(it.seq().unref().contains(id));
                assert(seen =~= it.seq().unref());
            }
        }
        proof {
            let shown = note_views(notes_vec@);
            assert forall|id: u128| #[trigger]
                self@.contains_key(id) && is_shown(self@[id], link@) implies exists|i: int|
                0 <= i < shown.len() && #[trigger] shown[i] == self@[id] by {
                assert(self.notes@.contains_key(id));
                assert(seen.contains(id));
                let p = choose|p: int| 0 <= p < seen.len() && seen[p] == id;
                let i = choose|i: int| 0 <= i < shown.len() && (#[trigger] shown[i]).id == seen[p];
                assert(shown[i] == self@[id]);
            }
        }
        notes_vec
    }
}

/// Whether `shown` are the notes to show under this link among those that
/// stand in the store under one of `keys`: each of them once, and no other,
/// the newest first.
spec fn gathered(
    notes: Map<u128, NoteView>,
    link: Seq<char>,
    keys: Seq<u128>,
    shown: Seq<NoteView>,
) -> bool {
    &&& forall|i: int|
        0 <= i < shown.len() ==> notes.contains_key((#[trigger] shown[i]).id) && notes[shown[i].id]
            == shown[i] && is_shown(shown[i], link) && keys.contains(shown[i].id)
    &&& forall|p: int|
        0 <= p < keys.len() && notes.contains_key(#[trigger] keys[p]) && is_shown(
            notes[keys[p]],
            link,
        ) ==> exists|i: int| 0 <= i < shown.len() && (#[trigger] shown[i]).id == keys[p]
    &&& forall|i: int, j: int|
        0 <= i < j < shown.len() ==> (#[trigger] shown[i]).id != (#[trigger] shown[j]).id
    &&& newest_first(shown)
}

/// A key whose note is not to show adds nothing.
proof fn lemma_gathered_none_more(
    notes: Map<u128, NoteView>,
    link: Seq<char>,
    keys: Seq<u128>,
    shown: Seq<NoteView>,
    key: u128,
)
    requires
        gathered(notes, link, keys, shown),
        !(notes.contains_key(key) && is_shown(notes[key], link)),
    ensures
        gathered(notes, link, keys.push(key), shown),
{
    let more = keys.push(key);
    assert forall|i: int| 0 <= i < shown.len() implies more.contains((#[trigger] shown[i]).id) by {
        let p = choose|p: int| 0 <= p < keys.len() && keys[p] == shown[i].id;
        assert(more[p] == shown[i].id);
    }
    assert forall|p: int|
        0 <= p < more.len() && notes.contains_key(#[trigger] more[p]) && is_shown(
            notes[more[p]],
            link,
        ) implies exists|i: int| 0 <= i < shown.len() && (#[trigger] shown[i]).id == more[p] by {
        assert(p < keys.len());
        assert(more[p] == keys[p]);
    }
}

/// A new key whose note is to show adds that note.
proof fn lemma_gathered_one_more(
    notes: Map<u128, NoteView>,
    link: Seq<char>,
    keys: Seq<u128>,
    shown: Seq<NoteView>,
    key: u128,
    at: int,
)
    requires
        gathered(notes, link, keys, shown),
        keyed_by_id(notes),
        !keys.contains(key),
        notes.contains_key(key),
        is_shown(notes[key], link),
        0 <= at <= shown.len(),
        newest_first(shown.insert(at, notes[key])),
    ensures
        gathered(notes, link, keys.push(key), shown.insert(at, notes[key])),
{
    let more = keys.push(key);
    let note = notes[key];
    let after = shown.insert(at, note);
    assert(more[keys.len() as int] == key);
    assert forall|i: int| 0 <= i < after.len() implies notes.contains_key((#[trigger] after[i]).id)
        && notes[after[i].id] == after[i] && is_shown(after[i], link) && more.contains(
        after[i].id,
    ) by {
        if i != at {
            let k = if i < at {
                i
            } else {
                i - 1
            };
            assert(after[i] == shown[k]);
            let p = choose|p: int| 0 <= p < keys.len() && keys[p] == shown[k].id;
            assert(more[p] == shown[k].id);
        }
    }
    assert forall|p: int|
        0 <= p < more.len() && notes.contains_key(#[trigger] more[p]) && is_shown(
            notes[more[p]],
            link,
        ) implies exists|i: int| 0 <= i < after.len() && (#[trigger] after[i]).id == more[p] by {
        if p < keys.len() {
            assert(more[p] == keys[p]);
            let i = choose|i: int| 0 <= i < shown.len() && (#[trigger] shown[i]).id == keys[p];
            let k = if i < at {
                i
            } else {
                i + 1
            };
            assert(after[k] == shown[i]);
        } else {
            assert(after[at].id == key);
        }
    }
    assert forall|i: int, j: int| 0 <= i < j < after.len() implies (#[trigger] after[i]).id != (
    #[trigger] after[j]).id by {
        let ki = if i < at {
            i
        } else {
            i - 1
        };
        let kj = if j < at {
            j
        } else {
            j - 1
        };
        if i == at {
            assert(after[j] == shown[kj]);
            assert(keys.contains(shown[kj].id));
        } else if j == at {
            assert(after[i] == shown[ki]);
            assert(keys.contains(shown[ki].id));
        } else {
            assert(after[i] == shown[ki]);
            assert(after[j] == shown[kj]);
        }
    }
}

/// Whether the note carries this link.
fn has_link(note: &Note, link: &str) -> (r: bool)
    ensures
        r == is_linked(note@, link@),
{
    let mut i: usize = 0;
    while i < note.links.len()
        invariant
            i <= note.links.len(),
            forall|j: int| 0 <= j < i ==> (#[trigger] note@.links[j]).link != link@,
        decreases note.links.len() - i,
    {
        if same_text(note.links[i].link.as_str(), link) {
            proof {
                assert(note@.links[i as int].link == link@);
            }
            return true;
        }
        i += 1;
    }
    false
}

/// Puts `note` where it belongs among notes that stand newest first: behind
/// all that are as new as it or newer.
fn insert_newest_first(notes: &mut Vec<Note>, note: Note)
    requires
        newest_first(note_views(old(notes)@)),
    ensures
        newest_first(note_views(final(notes)@)),
        exists|at: int|
            0 <= at <= old(notes)@.len() && note_views(final(notes)@) == #[trigger] note_views(
                old(notes)@,
            ).insert(at, note@),
{
    let mut at: usize = 0;
    while at < notes.len() && notes[at].creation_date >= note.creation_date
        invariant
            at <= notes.len(),
            notes@ == old(notes)@,
            forall|j: int|
                0 <= j < at ==> (#[trigger] note_views(notes@)[j]).creation_date
                    >= note@.creation_date,
        decreases notes.len() - at,
    {
        at += 1;
    }
    let ghost before = note_views(notes@);
    notes.insert(at, note);
    proof {
        let after = note_views(notes@);
        assert(after =~= before.insert(at as int, note@));
        assert forall|i: int, j: int| 0 <= i < j < after.len() implies (
        #[trigger] after[i]).creation_date >= (#[trigger] after[j]).creation_date by {
            if i < at && j > at {
                assert(before[i].creation_date >= before[j - 1].creation_date);
            } else if i > at {
                assert(before[i - 1].creation_date >= before[j - 1].creation_date);
            } else if i == at {
                assert(before[at as int].creation_date >= before[j - 1].creation_date);
            }
        }
    }
}

/// A change that the store is asked to make.
pub enum NoteChange {
    /// A new note with this identifier, creation date, text and labels.
    Add { id: u128, creation_date: int, text: Seq<char>, links: Seq<Seq<char>> },
    /// A new text for the note with this identifier.
    Edit { id: u128, text: Seq<char> },
    /// The note with this identifier is archived.
    Archive { id: u128 },
}

/// The revision that a change makes in a store, to be appended to the log:
/// none where the change names a note that the store lacks.
pub open spec fn revision_of(notes: Map<u128, NoteView>, change: NoteChange) -> Option<NoteView> {
    match change {
        NoteChange::Add { id, creation_date, text, links } => Some(
            NoteView { id, links: links_of(links), text, creation_date, status: NoteStatus::Active },
        ),
        NoteChange::Edit { id, text } => edited(notes, id, text),
        NoteChange::Archive { id } => archived(notes, id),
    }
}

/// The store after a sequence of changes.
pub open spec fn notes_after(notes: Map<u128, NoteView>, changes: Seq<NoteChange>) -> Map<
    u128,
    NoteView,
>
    decreases changes.len(),
{
    if changes.len() == 0 {
        notes
    } else {
        let before = notes_after(notes, changes.drop_last());
        recorded(before, revision_of(before, changes.last()))
    }
}

/// The log after a sequence of changes to a store: each revision that a
/// change made was appended to it.
pub open spec fn log_after(
    notes: Map<u128, NoteView>,
    log: Seq<NoteView>,
    changes: Seq<NoteChange>,
) -> Seq<NoteView>
    decreases changes.len(),
{
    if changes.len() == 0 {
        log
    } else {
        let before = log_after(notes, log, changes.drop_last());
        match revision_of(notes_after(notes, changes.drop_last()), changes.last()) {
            Some(revision) => before.push(revision),
            None => before,
        }
    }
}

/// Reading one more revision puts it in the place of what stood under its
/// identifier.
pub proof fn lemma_replay_push(log: Seq<NoteView>, revision: NoteView)
    ensures
        replay(log.push(revision)) == recorded(replay(log), Some(revision)),
{
    assert(log.push(revision).drop_last() =~= log);
}

/// What a log gives stands under its own identifier.
pub proof fn lemma_replay_keyed_by_id(log: Seq<NoteView>)
    ensures
        keyed_by_id(replay(log)),
    decreases log.len(),
{
    if log.len() > 0 {
        lemma_replay_keyed_by_id(log.drop_last());
    }
}

/// Whether the log holds a revision of the note with this identifier.
pub open spec fn holds_revision(log: Seq<NoteView>, id: u128) -> bool {
    exists|i: int| 0 <= i < log.len() && (#[trigger] log[i]).id == id
}

/// Whether the revision at index `i` is the last that the log holds of its
/// note.
pub open spec fn is_last_revision(log: Seq<NoteView>, i: int) -> bool {
    &&& 0 <= i < log.len()
    &&& forall|j: int| i < j < log.len() ==> (#[trigger] log[j]).id != log[i].id
}

/// A log gives a note for each identifier that it holds, and for no other.
pub proof fn lemma_replay_holds_what_the_log_holds(log: Seq<NoteView>, id: u128)
    ensures
        replay(log).contains_key(id) <==> holds_revision(log, id),
    decreases log.len(),
{
    if log.len() > 0 {
        let earlier = log.drop_last();
        let last = log.len() - 1;
        lemma_replay_holds_what_the_log_holds(earlier, id);
        if log[last].id != id {
            if holds_revision(earlier, id) {
                let i = choose|i: int| 0 <= i < earlier.len() && (#[trigger] earlier[i]).id == id;
                assert(log[i].id == id);
            }
            if holds_revision(log, id) {
                let i = choose|i: int| 0 <= i < log.len() && (#[trigger] log[i]).id == id;
                assert(earlier[i].id == id);
            }
        }
    }
}

/// Of each note a log gives the last revision that it holds.
pub proof fn lemma_replay_last_wins(log: Seq<NoteView>, i: int)
    requires
        is_last_revision(log, i),
    ensures
        replay(log).contains_key(log[i].id),
        replay(log)[log[i].id] == log[i],
    decreases log.len(),
{
    let last = log.len() - 1;
    if i < last {
        let earlier = log.drop_last();
        assert(log[last].id != log[i].id);
        assert(earlier[i] == log[i]);
        assert forall|j: int| i < j < earlier.len() implies (#[trigger] earlier[j]).id
            != earlier[i].id by {
            assert(log[j].id != log[i].id);
        }
        lemma_replay_last_wins(earlier, i);
    }
}

/// A note that was just added is among the notes shown under each of its
/// links, whatever else the store holds.
pub proof fn lemma_new_note_is_shown(
    notes: Map<u128, NoteView>,
    note: NoteView,
    link: Seq<char>,
    shown: Seq<NoteView>,
)
    requires
        note.status == NoteStatus::Active,
        is_linked(note, link),
        shows(recorded(notes, Some(note)), link, shown),
    ensures
        shown.contains(note),
{
    let after = recorded(notes, Some(note));
    assert(after.contains_key(note.id) && is_shown(after[note.id], link));
    let i = choose|i: int| 0 <= i < shown.len() && #[trigger] shown[i] == after[note.id];
    assert(shown[i] == note);
}

/// An archived note is among the notes shown under no link.
pub proof fn lemma_archived_note_is_not_shown(
    notes: Map<u128, NoteView>,
    id: u128,
    link: Seq<char>,
    shown: Seq<NoteView>,
)
    requires
        keyed_by_id(notes),
        notes.contains_key(id),
        shows(recorded(notes, archived(notes, id)), link, shown),
    ensures
        forall|i: int| 0 <= i < shown.len() ==> (#[trigger] shown[i]).id != id,
{
    let after = recorded(notes, archived(notes, id));
    assert forall|i: int| 0 <= i < shown.len() implies (#[trigger] shown[i]).id != id by {
        if shown[i].id == id {
            assert(after[shown[i].id] == shown[i]);
            assert(is_shown(shown[i], link));
        }
    }
}

/// A store that was started from a log, and whose changes were appended to
/// that log, is the store that the log gives when it is read again. With an
/// empty log this is a store that starts empty.
pub proof fn lemma_log_replay_equivalence(log: Seq<NoteView>, changes: Seq<NoteChange>)
    ensures
        replay(log_after(replay(log), log, changes)) == notes_after(replay(log), changes),
    decreases changes.len(),
{
    if changes.len() > 0 {
        let earlier = changes.drop_last();
        lemma_log_replay_equivalence(log, earlier);
        let notes = notes_after(replay(log), earlier);
        match revision_of(notes, changes.last()) {
            Some(revision) => {
                lemma_replay_push(log_after(replay(log), log, earlier), revision);
            },
            None => {},
        }
    }
}

/// The log of notes only grows: what it held stays, in place.
pub proof fn lemma_log_only_grows(
    notes: Map<u128, NoteView>,
    log: Seq<NoteView>,
    changes: Seq<NoteChange>,
)
    ensures
        log_after(notes, log, changes).len() >= log.len(),
        log_after(notes, log, changes).take(log.len() as int) == log,
    decreases changes.len(),
{
    if changes.len() > 0 {
        let earlier = changes.drop_last();
        lemma_log_only_grows(notes, log, earlier);
        let before = log_after(notes, log, earlier);
        match revision_of(notes_after(notes, earlier), changes.last()) {
            Some(revision) => {
                assert(before.push(revision).take(log.len() as int) =~= before.take(
                    log.len() as int,
                ));
            },
            None => {},
        }
    } else {
        assert(log.take(log.len() as int) =~= log);
    }
}

} // verus!
