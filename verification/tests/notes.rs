use rarian::cacher::{Cache, WriteError};
use rarian::dispatcher::{dispatch, Reply};
use rarian::gatherer::app_gatherer::AppGatherer;
use rarian::notes::{Link, Note, NoteStatus, NoteTaker};
use rarian::signals::Signals;

/// A log that keeps what is appended to it.
struct MemoryLog {
    records: Vec<Note>,
}

impl Cache<Note> for MemoryLog {
    fn cache(&mut self, obj: &Note) -> Result<(), WriteError> {
        self.records.push(obj.clone());
        Ok(())
    }
}

/// A log that cannot be written to.
struct BrokenLog;

impl Cache<Note> for BrokenLog {
    fn cache(&mut self, _obj: &Note) -> Result<(), WriteError> {
        Err(WriteError::Failed)
    }
}

fn empty_log() -> MemoryLog {
    MemoryLog { records: Vec::new() }
}

fn texts(notes: &[Note]) -> Vec<String> {
    notes.iter().map(|n| n.text.clone()).collect()
}

fn labels(note: &Note) -> Vec<(String, usize)> {
    note.links.iter().map(|l| (l.link.clone(), l.weight)).collect()
}

#[test]
fn add_and_retrieve() {
    let sampler = AppGatherer::new(Vec::new());
    let mut store = NoteTaker::new(Vec::new());
    let mut log = empty_log();
    let added = dispatch(
        &sampler,
        &mut store,
        &mut log,
        Signals::NewNote("hello".to_string(), vec!["X".to_string()]),
    );
    assert!(matches!(added, Reply::Recorded(Some(_))));
    match dispatch(&sampler, &mut store, &mut log, Signals::GetLinkNotes("X".to_string())) {
        Reply::LinkNotes(notes) => {
            assert_eq!(notes.len(), 1);
            assert_eq!(notes[0].text, "hello");
            assert_eq!(notes[0].status, NoteStatus::Active);
        }
        other => panic!("unexpected reply: {:?}", other),
    }
}

#[test]
fn archive_removes_from_active_view() {
    let sampler = AppGatherer::new(Vec::new());
    let mut store = NoteTaker::new(Vec::new());
    let mut log = empty_log();
    let id = match dispatch(
        &sampler,
        &mut store,
        &mut log,
        Signals::NewNote("hello".to_string(), vec!["X".to_string()]),
    ) {
        Reply::Recorded(Some(note)) => note.id,
        other => panic!("unexpected reply: {:?}", other),
    };
    match dispatch(&sampler, &mut store, &mut log, Signals::ArchiveNote(id)) {
        Reply::Recorded(Some(revision)) => {
            assert_eq!(revision.id, id);
            assert_eq!(revision.text, "hello");
            assert_eq!(revision.status, NoteStatus::Archived);
        }
        other => panic!("unexpected reply: {:?}", other),
    }
    match dispatch(&sampler, &mut store, &mut log, Signals::GetLinkNotes("X".to_string())) {
        Reply::LinkNotes(notes) => assert!(notes.is_empty()),
        other => panic!("unexpected reply: {:?}", other),
    }
}

#[test]
fn restart() {
    let mut log = empty_log();
    let mut store = NoteTaker::new(Vec::new());
    store.add_note(&mut log, "hello", vec!["X".to_string()]).expect("the log takes it");
    let before = store.get_app_notes("X");
    // The program ends, and starts again from what the log holds.
    let restarted = NoteTaker::new(log.records);
    let after = restarted.get_app_notes("X");
    assert_eq!(after.len(), 1);
    assert_eq!(after[0].id, before[0].id);
    assert_eq!(after[0].text, "hello");
    assert_eq!(after[0].status, NoteStatus::Active);
    assert_eq!(after[0].creation_date, before[0].creation_date);
    assert_eq!(labels(&after[0]), vec![("X".to_string(), 1)]);
}

#[test]
fn log_replay_gives_the_same_store() {
    let mut log = empty_log();
    let mut store = NoteTaker::new(Vec::new());
    store.add_note_at(&mut log, 1, 10, "one", vec!["L".to_string()]).expect("appended");
    store
        .add_note_at(&mut log, 2, 20, "two", vec!["L".to_string(), "M".to_string()])
        .expect("appended");
    store.add_note_at(&mut log, 3, 30, "three", vec!["M".to_string()]).expect("appended");
    assert!(store.edit_note(&mut log, 2, "two, again").expect("appended").is_some());
    assert!(store.archive_note(&mut log, 1).expect("appended").is_some());
    assert!(store.edit_note(&mut log, 9, "nobody").expect("nothing to append").is_none());
    assert!(store.archive_note(&mut log, 9).expect("nothing to append").is_none());
    assert!(store.edit_note(&mut log, 1, "one, archived").expect("appended").is_some());
    assert_eq!(log.records.len(), 6);
    let replayed = NoteTaker::new(log.records);
    for link in ["L", "M", "none"] {
        let before = store.get_app_notes(link);
        let after = replayed.get_app_notes(link);
        assert_eq!(texts(&before), texts(&after));
        for (b, a) in before.iter().zip(after.iter()) {
            assert_eq!(b.id, a.id);
            assert_eq!(b.creation_date, a.creation_date);
            assert_eq!(b.status, a.status);
            assert_eq!(labels(b), labels(a));
        }
    }
    assert_eq!(texts(&replayed.get_app_notes("L")), vec!["two, again"]);
    assert_eq!(texts(&replayed.get_app_notes("M")), vec!["three", "two, again"]);
}

#[test]
fn a_failed_append_leaves_the_store_as_it_was() {
    let mut log = empty_log();
    let mut store = NoteTaker::new(Vec::new());
    store.add_note_at(&mut log, 1, 10, "kept", vec!["L".to_string()]).expect("appended");
    let mut broken = BrokenLog;
    assert_eq!(
        store.add_note(&mut broken, "lost", vec!["L".to_string()]).err(),
        Some(WriteError::Failed)
    );
    assert_eq!(store.add_note_at(&mut broken, 2, 20, "lost", vec![]).err(), Some(WriteError::Failed));
    assert_eq!(store.edit_note(&mut broken, 1, "changed").err(), Some(WriteError::Failed));
    assert_eq!(store.archive_note(&mut broken, 1).err(), Some(WriteError::Failed));
    // A note that is not there asks nothing of the log.
    assert!(store.edit_note(&mut broken, 7, "x").expect("nothing to append").is_none());
    assert!(store.archive_note(&mut broken, 7).expect("nothing to append").is_none());
    let shown = store.get_app_notes("L");
    assert_eq!(texts(&shown), vec!["kept"]);
    assert_eq!(shown[0].status, NoteStatus::Active);
    // What the store holds is what the log gives.
    assert_eq!(texts(&NoteTaker::new(log.records).get_app_notes("L")), vec!["kept"]);
}

#[test]
fn a_revision_is_made_without_changing_the_store() {
    let mut store = NoteTaker::new(Vec::new());
    store.record(NoteTaker::new_note_at(1, 10, "n", vec!["L".to_string()]));
    let archived = store.archived_note(1).expect("the note is there");
    assert_eq!(archived.status, NoteStatus::Archived);
    let edited = store.edited_note(1, "m").expect("the note is there");
    assert_eq!(edited.text, "m");
    assert_eq!(edited.status, NoteStatus::Active);
    assert!(store.archived_note(2).is_none());
    assert!(store.edited_note(2, "m").is_none());
    assert_eq!(texts(&store.get_app_notes("L")), vec!["n"]);
    assert_eq!(store.commit(edited, Err(WriteError::Failed)).err(), Some(WriteError::Failed));
    assert_eq!(texts(&store.get_app_notes("L")), vec!["n"]);
    let taken = store.commit(archived, Ok(())).expect("appended");
    assert_eq!(taken.id, 1);
    assert!(store.get_app_notes("L").is_empty());
}

#[test]
fn the_last_record_of_an_identifier_wins() {
    let first = Note::with_id(5, 1, "first", vec![Link::new("L".to_string(), 1)]);
    let other = Note::with_id(6, 2, "other", vec![Link::new("L".to_string(), 1)]);
    let last = Note::with_id(5, 1, "last", vec![Link::new("L".to_string(), 1)]);
    let store = NoteTaker::new(vec![first, other, last]);
    assert_eq!(texts(&store.get_app_notes("L")), vec!["other", "last"]);
}

#[test]
fn notes_come_newest_first() {
    let mut log = empty_log();
    let mut store = NoteTaker::new(Vec::new());
    store.add_note_at(&mut log, 1, 200, "middle", vec!["L".to_string()]).expect("appended");
    store.add_note_at(&mut log, 2, 100, "oldest", vec!["L".to_string()]).expect("appended");
    store.add_note_at(&mut log, 3, 300, "newest", vec!["L".to_string()]).expect("appended");
    store.add_note_at(&mut log, 4, 400, "elsewhere", vec!["M".to_string()]).expect("appended");
    assert_eq!(texts(&store.get_app_notes("L")), vec!["newest", "middle", "oldest"]);
    assert_eq!(texts(&store.get_app_notes("M")), vec!["elsewhere"]);
    assert!(store.get_app_notes("l").is_empty());
}

#[test]
fn a_new_note_is_active_with_links_of_weight_one() {
    let mut log = empty_log();
    let mut store = NoteTaker::new(Vec::new());
    let note = store
        .add_note(&mut log, "text", vec!["a".to_string(), "b".to_string()])
        .expect("appended");
    assert_eq!(note.text, "text");
    assert_eq!(note.status, NoteStatus::Active);
    assert_eq!(labels(&note), vec![("a".to_string(), 1), ("b".to_string(), 1)]);
    assert_eq!(log.records.len(), 1);
    assert_eq!(log.records[0].id, note.id);
    let fixed = store.add_note_at(&mut log, 77, 88, "fixed", vec![]).expect("appended");
    assert_eq!(fixed.id, 77);
    assert_eq!(fixed.creation_date, 88);
    assert!(fixed.links.is_empty());
    let made = Note::new("made", vec![Link::new("x".to_string(), 3)]);
    assert_eq!(made.text, "made");
    assert_eq!(made.status, NoteStatus::Active);
    assert_eq!(labels(&made), vec![("x".to_string(), 3)]);
    let loose = NoteTaker::new_note("loose", vec!["y".to_string()]);
    assert_eq!(loose.text, "loose");
    assert_eq!(labels(&loose), vec![("y".to_string(), 1)]);
}

#[test]
fn new_identifiers_differ() {
    let mut log = empty_log();
    let mut store = NoteTaker::new(Vec::new());
    let a = store.add_note(&mut log, "a", vec!["L".to_string()]).expect("appended");
    let b = store.add_note(&mut log, "b", vec!["L".to_string()]).expect("appended");
    assert_ne!(a.id, b.id);
    assert_eq!(store.get_app_notes("L").len(), 2);
}

#[test]
fn edit_keeps_all_but_the_text() {
    let mut log = empty_log();
    let mut store = NoteTaker::new(Vec::new());
    store.add_note_at(&mut log, 1, 10, "before", vec!["L".to_string()]).expect("appended");
    let revision =
        store.edit_note(&mut log, 1, "after").expect("appended").expect("the note is there");
    assert_eq!(revision.id, 1);
    assert_eq!(revision.creation_date, 10);
    assert_eq!(revision.text, "after");
    assert_eq!(revision.status, NoteStatus::Active);
    assert_eq!(labels(&revision), vec![("L".to_string(), 1)]);
    assert_eq!(texts(&store.get_app_notes("L")), vec!["after"]);
    assert_eq!(log.records.len(), 2);
    assert_eq!(log.records[1].text, "after");
}

#[test]
fn a_missing_note_is_neither_edited_nor_archived() {
    let mut log = empty_log();
    let mut store = NoteTaker::new(Vec::new());
    store.add_note_at(&mut log, 1, 10, "kept", vec!["L".to_string()]).expect("appended");
    assert!(store.edit_note(&mut log, 2, "x").expect("nothing to append").is_none());
    assert!(store.archive_note(&mut log, 2).expect("nothing to append").is_none());
    assert_eq!(texts(&store.get_app_notes("L")), vec!["kept"]);
    assert_eq!(log.records.len(), 1);
}

#[test]
fn an_archived_note_can_still_be_edited() {
    let mut log = empty_log();
    let mut store = NoteTaker::new(Vec::new());
    store.add_note_at(&mut log, 1, 10, "n", vec!["L".to_string()]).expect("appended");
    store.archive_note(&mut log, 1).expect("appended");
    let revision = store.edit_note(&mut log, 1, "m").expect("appended").expect("the note is there");
    assert_eq!(revision.status, NoteStatus::Archived);
    assert!(store.get_app_notes("L").is_empty());
}
