use rarian::gatherer::app_gatherer::{ActiveProcess, ActiveProcessEvent, ActiveWindow, Process};
use rarian::gatherer::file_gatherer::{
    act_on_event, cache_event, check_for_notes, new_note_signals, path_is_hidden, plan_event,
    EventKind, EventPlan, Extraction, FileEvent, ModifyKind,
};
use rarian::signals::Signals;

fn session(title: &str) -> ActiveProcessEvent {
    let window = ActiveWindow {
        title: title.to_string(),
        process_path: "/usr/bin/editor".to_string(),
        app_name: "editor".to_string(),
        window_id: "w1".to_string(),
        process_id: 42,
    };
    let process = Process { parent: Some(1), start_time: 7, exe: "/usr/bin/editor".to_string() };
    ActiveProcessEvent::started_at(ActiveProcess::new(window, &process), 1_000)
}

#[test]
fn inline_extraction() {
    let extraction = check_for_notes("##", "before ## pick up milk ## after").expect("one note");
    assert_eq!(extraction.file_text, "before  after\n");
    assert_eq!(extraction.notes, vec!["pick up milk"]);
    let paths = vec!["/tmp/t.md".to_string()];
    let current = Some(session("main.rs - editor"));
    let signals = new_note_signals(&extraction, &paths, &current, true);
    assert_eq!(signals.len(), 1);
    match &signals[0] {
        Signals::NewNote(text, links) => {
            assert_eq!(text, "pick up milk");
            assert_eq!(links, &vec!["/tmp/t.md".to_string(), "main.rs - editor".to_string()]);
        }
        other => panic!("unexpected request: {:?}", other),
    }
}

#[test]
fn extraction_round_trip() {
    let extraction = check_for_notes("@#$", "PREFIX @#$ NOTE @#$ SUFFIX").expect("one note");
    assert_eq!(extraction.file_text, "PREFIX  SUFFIX\n");
    assert_eq!(extraction.notes, vec!["NOTE"]);
}

#[test]
fn extraction_cuts_the_content_as_it_stands() {
    let extraction = check_for_notes("##", "  a ## n ## b \n").expect("one note");
    assert_eq!(extraction.file_text, "  a  b \n\n");
    assert_eq!(extraction.notes, vec!["n"]);
    let extraction = check_for_notes("##", " a##n##b").expect("one note");
    assert_eq!(extraction.file_text, " ab\n");
    assert_eq!(extraction.notes, vec!["n"]);
}

#[test]
fn a_marker_may_start_with_whitespace() {
    let extraction = check_for_notes(" #", " #n #s").expect("one note");
    assert_eq!(extraction.file_text, "s\n");
    assert_eq!(extraction.notes, vec!["n"]);
    assert!(check_for_notes(" #", " #a #b #").is_none());
}

#[test]
fn several_notes_are_taken_in_order() {
    let extraction = check_for_notes("##", "a##one##b## two ##c").expect("two notes");
    assert_eq!(extraction.file_text, "abc\n");
    assert_eq!(extraction.notes, vec!["one", "two"]);
}

#[test]
fn unpaired_markers_give_nothing() {
    assert!(check_for_notes("##", "no marker at all").is_none());
    assert!(check_for_notes("##", "one ## marker").is_none());
    assert!(check_for_notes("##", "a ## b ## c ## d").is_none());
    assert!(check_for_notes("##", "").is_none());
}

#[test]
fn paired_markers_give_notes() {
    assert!(check_for_notes("##", "a ## b ## c").is_some());
    assert_eq!(check_for_notes("##", "a##b##c##d##e").expect("two notes").notes.len(), 2);
}

#[test]
fn empty_marker_cuts_between_all_characters() {
    let extraction = check_for_notes("", "abc").expect("five pieces");
    assert_eq!(extraction.file_text, "b\n");
    assert_eq!(extraction.notes, vec!["a", "c"]);
    assert!(check_for_notes("", "ab").is_none());
}

#[test]
fn no_request_when_the_file_was_not_rewritten() {
    let extraction = Extraction { file_text: "a\n".to_string(), notes: vec!["n".to_string()] };
    let paths = vec!["/tmp/t.md".to_string()];
    let current = Some(session("t"));
    assert!(new_note_signals(&extraction, &paths, &current, false).is_empty());
}

#[test]
fn without_a_focused_window_the_links_are_the_paths() {
    let extraction = Extraction {
        file_text: "a\n".to_string(),
        notes: vec!["one".to_string(), "two".to_string()],
    };
    let paths = vec!["/tmp/a.md".to_string(), "/tmp/b.md".to_string()];
    let signals = new_note_signals(&extraction, &paths, &None, true);
    assert_eq!(signals.len(), 2);
    for (signal, text) in signals.iter().zip(["one", "two"]) {
        match signal {
            Signals::NewNote(t, links) => {
                assert_eq!(t, text);
                assert_eq!(links, &paths);
            }
            other => panic!("unexpected request: {:?}", other),
        }
    }
}

#[test]
fn hidden_paths() {
    assert!(path_is_hidden("/home/me/.git/config"));
    assert!(path_is_hidden(".hidden"));
    assert!(path_is_hidden("/home/me/.bashrc"));
    assert!(path_is_hidden("C:\\Users\\me\\.cache\\x"));
    assert!(path_is_hidden("a/./b"));
    assert!(!path_is_hidden("/home/me/notes/t.md"));
    assert!(!path_is_hidden("/home/me/file.tar.gz"));
    assert!(!path_is_hidden("a.b/c.d"));
    assert!(!path_is_hidden(""));
}

#[test]
fn only_changes_of_data_call_for_a_scan() {
    assert!(act_on_event(EventKind::Modify(ModifyKind::Any)));
    assert!(act_on_event(EventKind::Modify(ModifyKind::Data)));
    assert!(act_on_event(EventKind::Modify(ModifyKind::Other)));
    assert!(!act_on_event(EventKind::Modify(ModifyKind::Metadata)));
    assert!(!act_on_event(EventKind::Modify(ModifyKind::Name)));
    assert!(!act_on_event(EventKind::Any));
    assert!(!act_on_event(EventKind::Access));
    assert!(!act_on_event(EventKind::Create));
    assert!(!act_on_event(EventKind::Remove));
    assert!(!act_on_event(EventKind::Other));
}

#[test]
fn plan_for_a_change() {
    let log = "/data/files.json";
    let modify = |paths: Vec<&str>| FileEvent {
        kind: EventKind::Modify(ModifyKind::Data),
        paths: paths.into_iter().map(|p| p.to_string()).collect(),
    };
    assert_eq!(plan_event(&modify(vec!["/w/t.md"]), log), EventPlan::RecordAndScan);
    assert_eq!(plan_event(&modify(vec!["/data/files.json"]), log), EventPlan::Skip);
    assert_eq!(plan_event(&modify(vec!["/w/t.md", "/w/.git/x"]), log), EventPlan::Skip);
    assert_eq!(plan_event(&modify(vec![]), log), EventPlan::RecordAndScan);
    let create = FileEvent { kind: EventKind::Create, paths: vec!["/w/t.md".to_string()] };
    assert_eq!(plan_event(&create, log), EventPlan::Record);
}

#[test]
fn cached_event_keeps_the_event() {
    let event = FileEvent { kind: EventKind::Remove, paths: vec!["/w/t.md".to_string()] };
    let cached = cache_event(event);
    assert_eq!(cached.event.kind, EventKind::Remove);
    assert_eq!(cached.event.paths, vec!["/w/t.md"]);
    assert!(cached.timestamp > 0);
}
