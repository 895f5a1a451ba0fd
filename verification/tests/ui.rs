use rarian::gatherer::app_gatherer::{ActiveProcess, ActiveProcessEvent, ActiveWindow, Process};
use rarian::notes::{Link, Note};
use rarian::signals::Signals;
use rarian::ui::insert_note::{InputMode, InsertWindow, KeyCode};
use rarian::ui::tui::{
    list_rows, HelpWindow, KeyEvent, KeyEventKind, LastAppsWindow, NotesWindow, RowColor, TuiApp,
};

fn session(title: &str) -> Option<ActiveProcessEvent> {
    let window = ActiveWindow {
        title: title.to_string(),
        process_path: "/bin/app".to_string(),
        app_name: "app".to_string(),
        window_id: "w".to_string(),
        process_id: 3,
    };
    let process = Process { parent: None, start_time: 0, exe: "/bin/app".to_string() };
    Some(ActiveProcessEvent::started_at(ActiveProcess::new(window, &process), 1))
}

fn note(id: u128, text: &str) -> Note {
    Note::with_id(id, id, text, vec![Link::new("app".to_string(), 1)])
}

fn typed(window: &mut InsertWindow, text: &str) {
    for c in text.chars() {
        window.handle_key_event(KeyCode::Char(c), &None);
    }
}

fn press(code: KeyCode) -> Option<KeyEvent> {
    Some(KeyEvent { code, kind: KeyEventKind::Press })
}

#[test]
fn typing_puts_characters_at_the_cursor() {
    let mut window = InsertWindow::new();
    typed(&mut window, "hllo");
    assert_eq!(window.input, "hllo");
    assert_eq!(window.character_index, 4);
    window.handle_key_event(KeyCode::Home, &None);
    window.handle_key_event(KeyCode::Right, &None);
    let (mode, signal) = window.handle_key_event(KeyCode::Char('\u{e9}'), &None);
    assert_eq!(mode, InputMode::Editing);
    assert!(signal.is_none());
    assert_eq!(window.input, "h\u{e9}llo");
    assert_eq!(window.character_index, 2);
    window.handle_key_event(KeyCode::End, &None);
    assert_eq!(window.character_index, 5);
    window.handle_key_event(KeyCode::Right, &None);
    assert_eq!(window.character_index, 5);
    window.handle_key_event(KeyCode::Home, &None);
    window.handle_key_event(KeyCode::Left, &None);
    assert_eq!(window.character_index, 0);
}

#[test]
fn deleting_before_and_under_the_cursor() {
    let mut window = InsertWindow::new();
    typed(&mut window, "a\u{e9}cd");
    window.handle_key_event(KeyCode::Backspace, &None);
    assert_eq!(window.input, "a\u{e9}c");
    assert_eq!(window.character_index, 3);
    window.handle_key_event(KeyCode::Left, &None);
    window.handle_key_event(KeyCode::Backspace, &None);
    assert_eq!(window.input, "ac");
    assert_eq!(window.character_index, 1);
    window.handle_key_event(KeyCode::Delete, &None);
    assert_eq!(window.input, "a");
    assert_eq!(window.character_index, 1);
    window.handle_key_event(KeyCode::Delete, &None);
    assert_eq!(window.input, "a");
    window.handle_key_event(KeyCode::Home, &None);
    window.handle_key_event(KeyCode::Backspace, &None);
    assert_eq!(window.input, "a");
    window.handle_key_event(KeyCode::Delete, &None);
    assert_eq!(window.input, "");
    assert_eq!(window.character_index, 0);
}

#[test]
fn a_cursor_behind_the_text_counts_as_at_its_end() {
    let mut window = InsertWindow::new();
    window.input = "abc".to_string();
    window.character_index = 9;
    window.handle_key_event(KeyCode::Char('d'), &None);
    assert_eq!(window.input, "abcd");
    assert_eq!(window.character_index, 4);
    window.character_index = 9;
    window.handle_key_event(KeyCode::Backspace, &None);
    assert_eq!(window.input, "abcd");
    assert_eq!(window.character_index, 4);
}

#[test]
fn enter_submits_a_new_note_for_the_focused_window() {
    let mut window = InsertWindow::new();
    typed(&mut window, "  buy milk ");
    let (mode, signal) = window.handle_key_event(KeyCode::Enter, &session("shop"));
    assert_eq!(mode, InputMode::Normal);
    match signal {
        Some(Signals::NewNote(text, links)) => {
            assert_eq!(text, "buy milk");
            assert_eq!(links, vec!["shop"]);
        }
        other => panic!("unexpected request: {:?}", other),
    }
    assert_eq!(window.input, "");
    assert_eq!(window.character_index, 0);
    assert_eq!(window.editing_note, None);
}

#[test]
fn enter_without_a_focused_window_sends_nothing() {
    let mut window = InsertWindow::new();
    typed(&mut window, "lost");
    let (mode, signal) = window.handle_key_event(KeyCode::Enter, &None);
    assert_eq!(mode, InputMode::Normal);
    assert!(signal.is_none());
    assert_eq!(window.input, "");
}

#[test]
fn enter_submits_the_new_text_of_an_edited_note() {
    let mut window = InsertWindow::new();
    window.edit(&note(12, "old"));
    assert_eq!(window.input, "old");
    assert_eq!(window.character_index, 3);
    assert_eq!(window.editing_note, Some(12));
    typed(&mut window, "er ");
    let (_, signal) = window.handle_key_event(KeyCode::Enter, &None);
    match signal {
        Some(Signals::EditNote(id, text)) => {
            assert_eq!(id, 12);
            assert_eq!(text, "older");
        }
        other => panic!("unexpected request: {:?}", other),
    }
    assert_eq!(window.editing_note, None);
}

#[test]
fn escape_leaves_the_input_as_it_is() {
    let mut window = InsertWindow::new();
    typed(&mut window, "draft");
    let (mode, signal) = window.handle_key_event(KeyCode::Esc, &None);
    assert_eq!(mode, InputMode::Normal);
    assert!(signal.is_none());
    assert_eq!(window.input, "draft");
    let (mode, _) = window.handle_key_event(KeyCode::Up, &None);
    assert_eq!(mode, InputMode::Editing);
    assert_eq!(window.input, "draft");
}

#[test]
fn selection_moves_within_the_notes() {
    let mut window = NotesWindow::new();
    window.select_next();
    assert_eq!(window.selected(), None);
    window.select_previous();
    assert_eq!(window.selected(), None);
    window.select_first();
    assert_eq!(window.selected(), None);
    window.select_last();
    assert_eq!(window.selected(), None);
    window.get_current_notes_and_window(&session("t"), vec![note(1, "a"), note(2, "b"), note(3, "c")]);
    assert_eq!(window.current_title(), "t");
    assert_eq!(window.current_notes().len(), 3);
    window.select_next();
    assert_eq!(window.selected(), Some(0));
    window.select_next();
    window.select_next();
    assert_eq!(window.selected(), Some(2));
    window.select_next();
    assert_eq!(window.selected(), Some(2));
    window.select_previous();
    assert_eq!(window.selected(), Some(1));
    window.select_first();
    assert_eq!(window.selected(), Some(0));
    window.select_previous();
    assert_eq!(window.selected(), Some(0));
    window.select_last();
    assert_eq!(window.selected(), Some(2));
    window.select_none();
    assert_eq!(window.selected(), None);
    window.select_previous();
    assert_eq!(window.selected(), Some(2));
}

#[test]
fn selection_follows_what_is_shown() {
    let mut window = NotesWindow::new();
    window.get_current_notes_and_window(&session("t"), vec![note(1, "a"), note(2, "b"), note(3, "c")]);
    window.select_last();
    window.clamp_selection(2);
    assert_eq!(window.selected(), Some(1));
    window.clamp_selection(5);
    assert_eq!(window.selected(), Some(1));
    window.clamp_selection(0);
    assert_eq!(window.selected(), None);
    window.clamp_selection(3);
    assert_eq!(window.selected(), None);
}

#[test]
fn without_a_focused_window_there_are_no_notes() {
    let mut window = NotesWindow::new();
    window.get_current_notes_and_window(&None, vec![note(1, "a")]);
    assert_eq!(window.current_title(), "no app currently detected");
    assert!(window.current_notes().is_empty());
}

#[test]
fn the_selected_note_is_archived_or_edited() {
    let mut window = NotesWindow::new();
    window.get_current_notes_and_window(&session("t"), vec![note(10, "a"), note(20, "b")]);
    assert!(window.archive_selected().is_none());
    assert!(window.edit_selected().is_none());
    window.select_last();
    assert!(matches!(window.archive_selected(), Some(Signals::ArchiveNote(20))));
    assert_eq!(window.edit_selected().expect("a note").text, "b");
    window.get_current_notes_and_window(&session("t"), vec![note(10, "a")]);
    assert!(window.archive_selected().is_none());
    assert!(window.edit_selected().is_none());
}

#[test]
fn rows_alternate() {
    let window = NotesWindow::new();
    assert_eq!(window.alternate_colors(0), RowColor::Normal);
    assert_eq!(window.alternate_colors(1), RowColor::Alternate);
    assert_eq!(window.alternate_colors(2), RowColor::Normal);
    assert_eq!(list_rows(10), 8);
    assert_eq!(list_rows(2), 0);
    assert_eq!(list_rows(1), 0);
    assert_eq!(list_rows(0), 0);
}

#[test]
fn last_apps_window_shows_what_fits() {
    let window = LastAppsWindow::new();
    assert!(matches!(window.request(4), Signals::RecentApps(4)));
    let reply: Vec<ActiveProcessEvent> =
        ["a", "b", "c"].iter().map(|t| session(t).expect("a session")).collect();
    let shown = window.show_last_apps(reply, 2);
    assert_eq!(shown.len(), 2);
    assert_eq!(shown[0].get_title(), "a");
    assert_eq!(shown[1].get_title(), "b");
    let reply: Vec<ActiveProcessEvent> =
        ["a", "b"].iter().map(|t| session(t).expect("a session")).collect();
    assert_eq!(window.show_last_apps(reply, 5).len(), 2);
}

#[test]
fn help_names_the_keys() {
    assert_eq!(
        HelpWindow::new().help_message(),
        "i = enter insert mode; q = quit; ESC = escape insert mode; ENTER = add new note"
    );
}

#[test]
fn keys_in_normal_mode() {
    let mut app = TuiApp::new();
    assert_eq!(app.input_mode(), InputMode::Normal);
    assert!(!app.should_exit());
    app.show(&session("t"), vec![note(1, "a"), note(2, "b")], 10);
    assert!(app.handle_events(press(KeyCode::Char('j')), &None).is_none());
    assert_eq!(app.notes_window().selected(), Some(0));
    app.handle_events(press(KeyCode::Down), &None);
    assert_eq!(app.notes_window().selected(), Some(1));
    app.handle_events(press(KeyCode::Char('k')), &None);
    assert_eq!(app.notes_window().selected(), Some(0));
    app.handle_events(press(KeyCode::Char('G')), &None);
    assert_eq!(app.notes_window().selected(), Some(1));
    app.handle_events(press(KeyCode::Char('g')), &None);
    assert_eq!(app.notes_window().selected(), Some(0));
    app.handle_events(press(KeyCode::End), &None);
    assert_eq!(app.notes_window().selected(), Some(1));
    let archive = app.handle_events(press(KeyCode::Char('a')), &None);
    assert!(matches!(archive, Some(Signals::ArchiveNote(2))));
    let archive = app.handle_events(press(KeyCode::Char('d')), &None);
    assert!(matches!(archive, Some(Signals::ArchiveNote(2))));
    app.handle_events(press(KeyCode::Esc), &None);
    assert_eq!(app.notes_window().selected(), None);
    assert!(app.handle_events(press(KeyCode::Char('a')), &None).is_none());
    assert!(app.handle_events(press(KeyCode::Char('x')), &None).is_none());
    assert_eq!(app.input_mode(), InputMode::Normal);
    let quit = app.handle_events(press(KeyCode::Char('q')), &None);
    assert!(matches!(quit, Some(Signals::Quit)));
    assert!(app.should_exit());
}

#[test]
fn only_pressed_keys_count() {
    let mut app = TuiApp::new();
    let released = Some(KeyEvent { code: KeyCode::Char('q'), kind: KeyEventKind::Release });
    assert!(app.handle_events(released, &None).is_none());
    let repeated = Some(KeyEvent { code: KeyCode::Char('q'), kind: KeyEventKind::Repeat });
    assert!(app.handle_events(repeated, &None).is_none());
    assert!(app.handle_events(None, &None).is_none());
    assert!(!app.should_exit());
    assert!(matches!(app.handle_events(press(KeyCode::Char('Q')), &None), Some(Signals::Quit)));
    assert!(app.should_exit());
}

#[test]
fn a_note_is_written_in_editing_mode() {
    let mut app = TuiApp::new();
    app.handle_events(press(KeyCode::Char('i')), &None);
    assert_eq!(app.input_mode(), InputMode::Editing);
    for c in "qi!".chars() {
        assert!(app.handle_events(press(KeyCode::Char(c)), &None).is_none());
    }
    assert!(!app.should_exit());
    assert_eq!(app.insert_note_window().input, "qi!");
    let signal = app.handle_events(press(KeyCode::Enter), &session("t"));
    match signal {
        Some(Signals::NewNote(text, links)) => {
            assert_eq!(text, "qi!");
            assert_eq!(links, vec!["t"]);
        }
        other => panic!("unexpected request: {:?}", other),
    }
    assert_eq!(app.input_mode(), InputMode::Normal);
    assert_eq!(app.insert_note_window().input, "");
    app.handle_events(press(KeyCode::Char('i')), &None);
    app.handle_events(press(KeyCode::Char('x')), &None);
    app.handle_events(press(KeyCode::Esc), &None);
    assert_eq!(app.input_mode(), InputMode::Normal);
    assert_eq!(app.insert_note_window().input, "x");
}

#[test]
fn the_selected_note_is_edited() {
    let mut app = TuiApp::new();
    app.show(&session("t"), vec![note(1, "a"), note(2, "bee")], 10);
    assert!(app.handle_events(press(KeyCode::Char('e')), &None).is_none());
    assert_eq!(app.input_mode(), InputMode::Normal);
    app.handle_events(press(KeyCode::Char('G')), &None);
    app.handle_events(press(KeyCode::Enter), &None);
    assert_eq!(app.input_mode(), InputMode::Editing);
    assert_eq!(app.insert_note_window().input, "bee");
    assert_eq!(app.insert_note_window().character_index, 3);
    assert_eq!(app.insert_note_window().editing_note, Some(2));
    app.handle_events(press(KeyCode::Char('s')), &None);
    let signal = app.handle_events(press(KeyCode::Enter), &session("t"));
    match signal {
        Some(Signals::EditNote(id, text)) => {
            assert_eq!(id, 2);
            assert_eq!(text, "bees");
        }
        other => panic!("unexpected request: {:?}", other),
    }
    assert_eq!(app.input_mode(), InputMode::Normal);
}

#[test]
fn showing_fewer_rows_pulls_the_selection_in() {
    let mut app = TuiApp::new();
    app.show(&session("t"), vec![note(1, "a"), note(2, "b"), note(3, "c")], 10);
    app.handle_events(press(KeyCode::Char('G')), &None);
    assert_eq!(app.notes_window().selected(), Some(2));
    app.show(&session("t"), vec![note(1, "a"), note(2, "b"), note(3, "c")], 2);
    assert_eq!(app.notes_window().selected(), Some(1));
    app.show(&None, Vec::new(), 2);
    assert_eq!(app.notes_window().selected(), None);
}
