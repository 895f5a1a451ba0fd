use rarian::cacher::{Cache, WriteError};
use rarian::dispatcher::{dispatch, Reply};
use rarian::gatherer::app_gatherer::{
    ActiveProcess, ActiveProcessEvent, ActiveWindow, AppGatherer, Process,
};
use rarian::notes::{Note, NoteStatus, NoteTaker};
use rarian::signals::Signals;

/// A log that counts what is appended to it, or refuses all of it.
struct CountingLog {
    appended: usize,
    broken: bool,
}

impl Cache<Note> for CountingLog {
    fn cache(&mut self, _obj: &Note) -> Result<(), WriteError> {
        if self.broken {
            return Err(WriteError::Failed);
        }
        self.appended += 1;
        Ok(())
    }
}

fn log() -> CountingLog {
    CountingLog { appended: 0, broken: false }
}

fn sample(title: &str) -> ActiveProcess {
    let window = ActiveWindow {
        title: title.to_string(),
        process_path: "/bin/app".to_string(),
        app_name: "app".to_string(),
        window_id: "w".to_string(),
        process_id: 3,
    };
    let process = Process { parent: None, start_time: 0, exe: "/bin/app".to_string() };
    ActiveProcess::new(window, &process)
}

fn sampler() -> AppGatherer {
    let mut sampler = AppGatherer::new(vec![
        ActiveProcessEvent::started_at(sample("one"), 1),
        ActiveProcessEvent::started_at(sample("two"), 2),
        ActiveProcessEvent::started_at(sample("one"), 3),
    ]);
    sampler.sample(Some(sample("now")), 10);
    sampler
}

#[test]
fn recent_apps_are_replied() {
    let mut store = NoteTaker::new(Vec::new());
    match dispatch(&sampler(), &mut store, &mut log(), Signals::RecentApps(5)) {
        Reply::RecentApps(apps) => {
            let titles: Vec<&str> = apps.iter().map(|a| a.get_title()).collect();
            assert_eq!(titles, vec!["one", "two"]);
        }
        other => panic!("unexpected reply: {:?}", other),
    }
    match dispatch(&sampler(), &mut store, &mut log(), Signals::RecentApps(1)) {
        Reply::RecentApps(apps) => assert_eq!(apps.len(), 1),
        other => panic!("unexpected reply: {:?}", other),
    }
}

#[test]
fn current_app_is_replied() {
    let mut store = NoteTaker::new(Vec::new());
    match dispatch(&sampler(), &mut store, &mut log(), Signals::CurrentApp) {
        Reply::CurrentApp(Some(app)) => assert_eq!(app.get_title(), "now"),
        other => panic!("unexpected reply: {:?}", other),
    }
    let idle = AppGatherer::new(Vec::new());
    assert!(matches!(dispatch(&idle, &mut store, &mut log(), Signals::CurrentApp), Reply::CurrentApp(None)));
}

#[test]
fn requests_are_handled_in_order() {
    let sampler = sampler();
    let mut store = NoteTaker::new(Vec::new());
    let mut log = log();
    let id = match dispatch(
        &sampler,
        &mut store,
        &mut log,
        Signals::NewNote("first".to_string(), vec!["now".to_string()]),
    ) {
        Reply::Recorded(Some(note)) => note.id,
        other => panic!("unexpected reply: {:?}", other),
    };
    match dispatch(&sampler, &mut store, &mut log, Signals::EditNote(id, "second".to_string())) {
        Reply::Recorded(Some(revision)) => assert_eq!(revision.text, "second"),
        other => panic!("unexpected reply: {:?}", other),
    }
    match dispatch(&sampler, &mut store, &mut log, Signals::GetLinkNotes("now".to_string())) {
        Reply::LinkNotes(notes) => {
            assert_eq!(notes.len(), 1);
            assert_eq!(notes[0].text, "second");
            assert_eq!(notes[0].status, NoteStatus::Active);
        }
        other => panic!("unexpected reply: {:?}", other),
    }
    assert!(matches!(
        dispatch(
            &sampler,
            &mut store,
            &mut log,
            Signals::EditNote(id.wrapping_add(1), "x".to_string())
        ),
        Reply::Recorded(None)
    ));
    assert!(matches!(
        dispatch(&sampler, &mut store, &mut log, Signals::ArchiveNote(id.wrapping_add(1))),
        Reply::Recorded(None)
    ));
    assert_eq!(log.appended, 2);
}

#[test]
fn a_change_that_the_log_refuses_is_not_made() {
    let sampler = sampler();
    let mut store = NoteTaker::new(Vec::new());
    let mut log = log();
    let id = match dispatch(
        &sampler,
        &mut store,
        &mut log,
        Signals::NewNote("kept".to_string(), vec!["L".to_string()]),
    ) {
        Reply::Recorded(Some(note)) => note.id,
        other => panic!("unexpected reply: {:?}", other),
    };
    log.broken = true;
    let changes = vec![
        Signals::NewNote("lost".to_string(), vec!["L".to_string()]),
        Signals::EditNote(id, "changed".to_string()),
        Signals::ArchiveNote(id),
    ];
    for change in changes {
        let reply = dispatch(&sampler, &mut store, &mut log, change);
        assert!(matches!(reply, Reply::Failed(WriteError::Failed)));
    }
    match dispatch(&sampler, &mut store, &mut log, Signals::GetLinkNotes("L".to_string())) {
        Reply::LinkNotes(notes) => {
            assert_eq!(notes.len(), 1);
            assert_eq!(notes[0].text, "kept");
            assert_eq!(notes[0].status, NoteStatus::Active);
        }
        other => panic!("unexpected reply: {:?}", other),
    }
}

#[test]
fn quit_changes_nothing() {
    let sampler = sampler();
    let mut store = NoteTaker::new(Vec::new());
    let mut log = log();
    store.add_note(&mut log, "kept", vec!["L".to_string()]).expect("appended");
    assert!(matches!(dispatch(&sampler, &mut store, &mut log, Signals::Quit), Reply::Quit));
    assert_eq!(log.appended, 1);
    assert_eq!(store.get_app_notes("L").len(), 1);
    assert_eq!(sampler.get_current().expect("current").get_title(), "now");
}
