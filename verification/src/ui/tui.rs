//! The windows of the user interface and what the keys do in them.

use crate::gatherer::app_gatherer::{option_view, ActiveProcessEvent, ActiveProcessEventView};
use crate::notes::{note_views, Note, NoteView};
use crate::signals::{Signals, SignalsView};
use crate::ui::insert_note::{
    after_key, cleared, mode_after_key, signal_view, submitted, InputMode, InsertWindow,
    InsertWindowView, KeyCode,
};
use vstd::prelude::*;

verus! {

/// Whether a key went down, is held, or came up.
#[derive(Debug, Clone, Copy, PartialEq, Eq, Structural)]
pub enum KeyEventKind {
    Press,
    Repeat,
    Release,
}

/// What the terminal reports of a key.
#[derive(Debug, Clone, Copy, PartialEq, Eq, Structural)]
pub struct KeyEvent {
    pub code: KeyCode,
    pub kind: KeyEventKind,
}

/// The background of a row in a list.
#[derive(Debug, Clone, Copy, PartialEq, Eq, Structural)]
pub enum RowColor {
    Normal,
    Alternate,
}

/// The list of the recently focused windows.
#[derive(Debug)]
pub struct LastAppsWindow {}

impl LastAppsWindow {
    pub fn new() -> LastAppsWindow {
        LastAppsWindow {  }
    }

    /// The request for the windows to show in `num` rows.
    pub fn request(&self, num: usize) -> (signal: Signals)
        ensures
            signal@ == SignalsView::RecentApps(num as int),
    {
        Signals::RecentApps(num)
    }

    /// The windows to show in `num` rows, out of the reply to the request:
    /// the first `num` of them, or all where they are fewer.
    pub fn show_last_apps(&self, last_processes: Vec<ActiveProcessEvent>, num: usize) -> (shown: Vec<
        ActiveProcessEvent,
    >)
        ensures
            shown@ == last_processes@.take(
                if num < last_processes@.len() {
                    num as int
                } else {
                    last_processes@.len() as int
                },
            ),
    {
        let mut shown = last_processes;
        if num < shown.len() {
            shown.truncate(num);
        } else {
            proof {
                assert(shown@.take(shown@.len() as int) =~= shown@);
            }
        }
        shown
    }
}

/// The window that explains the keys.
#[derive(Debug)]
pub struct HelpWindow {}

impl HelpWindow {
    pub fn new() -> HelpWindow {
        HelpWindow {  }
    }

    pub fn help_message(&self) -> (message: &'static str)
        ensures
            message@
                == "i = enter insert mode; q = quit; ESC = escape insert mode; ENTER = add new note"@,
    {
        "i = enter insert mode; q = quit; ESC = escape insert mode; ENTER = add new note"
    }
}

/// The rows that a list can show in a bordered area of this height.
pub fn list_rows(height: u16) -> (rows: usize)
    ensures
        rows == if height >= 2 {
            height - 2
        } else {
            0
        },
{
    if height >= 2 {
        (height - 2) as usize
    } else {
        0
    }
}

/// The list of the notes of the window that holds the focus: the title of
/// that window, its notes, and the row that is selected, if one is.
#[derive(Debug)]
pub struct NotesWindow {
    current_title: String,
    current_notes: Vec<Note>,
    selected_row: Option<usize>,
}

pub struct NotesWindowView {
    pub current_title: Seq<char>,
    pub current_notes: Seq<NoteView>,
    pub selected_row: Option<int>,
}

/// The selection after a step down: the first row where none was selected,
/// the next row where there is one, and else the same.
pub open spec fn next_selected(selected: Option<int>, rows: int) -> Option<int> {
    match selected {
        Some(row) => if row + 1 < rows {
            Some(row + 1)
        } else {
            selected
        },
        None => if rows > 0 {
            Some(0)
        } else {
            None
        },
    }
}

/// The selection after a step up: the last row where none was selected, the
/// row before where there is one, and else the same.
pub open spec fn previous_selected(selected: Option<int>, rows: int) -> Option<int> {
    match selected {
        Some(row) => if row > 0 {
            Some(row - 1)
        } else {
            selected
        },
        None => if rows > 0 {
            Some(rows - 1)
        } else {
            None
        },
    }
}

/// The first row, where there is one, and else the same selection.
pub open spec fn first_selected(selected: Option<int>, rows: int) -> Option<int> {
    if rows > 0 {
        Some(0)
    } else {
        selected
    }
}

/// The last row, where there is one, and else the same selection.
pub open spec fn last_selected(selected: Option<int>, rows: int) -> Option<int> {
    if rows > 0 {
        Some(rows - 1)
    } else {
        selected
    }
}

/// The selection as a list of `rows` rows shows it: none in an empty list,
/// and the last row for a selection behind it.
pub open spec fn shown_selected(selected: Option<int>, rows: int) -> Option<int> {
    match selected {
        Some(row) => if rows <= 0 {
            None
        } else if row >= rows {
            Some(rows - 1)
        } else {
            selected
        },
        None => None,
    }
}

/// The note in the selected row, if a row with a note is selected.
pub open spec fn selected_note(window: NotesWindowView) -> Option<NoteView> {
    match window.selected_row {
        Some(row) => if 0 <= row < window.current_notes.len() {
            Some(window.current_notes[row])
        } else {
            None
        },
        None => None,
    }
}

/// The window with another selection.
pub open spec fn with_selected(window: NotesWindowView, selected_row: Option<int>) -> NotesWindowView {
    NotesWindowView { selected_row, ..window }
}

impl View for NotesWindow {
    type V = NotesWindowView;

    closed spec fn view(&self) -> NotesWindowView {
        NotesWindowView {
            current_title: self.current_title@,
            current_notes: note_views(self.current_notes@),
            selected_row: match self.selected_row {
                Some(row) => Some(row as int),
                None => None,
            },
        }
    }
}

impl NotesWindow {
    pub fn new() -> (r: NotesWindow)
        ensures
            r@ == (NotesWindowView {
                current_title: Seq::<char>::empty(),
                current_notes: Seq::<NoteView>::empty(),
                selected_row: None,
            }),
    {
        let r = NotesWindow {
            current_title: String::new(),
            current_notes: Vec::new(),
            selected_row: None,
        };
        proof {
            assert(note_views(r.current_notes@) =~= Seq::<NoteView>::empty());
        }
        r
    }

    pub fn current_title(&self) -> (title: &str)
        ensures
            title@ == self@.current_title,
    {
        self.current_title.as_str()
    }

    pub fn current_notes(&self) -> (notes: &Vec<Note>)
        ensures
            note_views(notes@) == self@.current_notes,
    {
        &self.current_notes
    }

    pub fn selected(&self) -> (row: Option<usize>)
        ensures
            self@.selected_row == match row {
                Some(r) => Some(r as int),
                None => None,
            },
    {
        self.selected_row
    }

    /// Shows the window that holds the focus and its notes, `app_notes`. With
    /// no such window, the title says so and there are no notes. The
    /// selection stays.
    pub fn get_current_notes_and_window(
        &mut self,
        current: &Option<ActiveProcessEvent>,
        app_notes: Vec<Note>,
    )
        ensures
            final(self)@ == match option_view(*current) {
                Some(session) => NotesWindowView {
                    current_title: session.process.title,
                    current_notes: note_views(app_notes@),
                    selected_row: old(self)@.selected_row,
                },
                None => NotesWindowView {
                    current_title: "no app currently detected"@,
                    current_notes: Seq::<NoteView>::empty(),
                    selected_row: old(self)@.selected_row,
                },
            },
    {
        match current {
            Some(current) => {
                self.current_title = current.get_title().to_owned();
                self.current_notes = app_notes;
            },
            None => {
                self.current_title = "no app currently detected".to_owned();
                self.current_notes = Vec::new();
                proof {
                    assert(note_views(self.current_notes@) =~= Seq::<NoteView>::empty());
                }
            },
        }
    }

    /// Brings the selection to what a list of `rows` rows shows of it.
    pub fn clamp_selection(&mut self, rows: usize)
        ensures
            final(self)@ == with_selected(
                old(self)@,
                shown_selected(old(self)@.selected_row, rows as int),
            ),
    {
        match self.selected_row {
            Some(row) => {
                if rows == 0 {
                    self.selected_row = None;
                } else if row >= rows {
                    self.selected_row = Some(rows - 1);
                }
            },
            None => {},
        }
    }

    pub fn select_none(&mut self)
        ensures
            final(self)@ == with_selected(old(self)@, None),
    {
        self.selected_row = None;
    }

    pub fn select_next(&mut self)
        ensures
            final(self)@ == with_selected(
                old(self)@,
                next_selected(old(self)@.selected_row, old(self)@.current_notes.len() as int),
            ),
    {
        let rows = self.current_notes.len();
        match self.selected_row {
            Some(row) => {
                if row < usize::MAX && row + 1 < rows {
                    self.selected_row = Some(row + 1);
                }
            },
            None => {
                if rows > 0 {
                    self.selected_row = Some(0);
                }
            },
        }
    }

    pub fn select_previous(&mut self)
        ensures
            final(self)@ == with_selected(
                old(self)@,
                previous_selected(old(self)@.selected_row, old(self)@.current_notes.len() as int),
            ),
    {
        match self.selected_row {
            Some(row) => {
                if row > 0 {
                    self.selected_row = Some(row - 1);
                }
            },
            None => {
                if self.current_notes.len() > 0 {
                    self.selected_row = Some(self.current_notes.len() - 1);
                }
            },
        }
    }

    pub fn select_first(&mut self)
        ensures
            final(self)@ == with_selected(
                old(self)@,
                first_selected(old(self)@.selected_row, old(self)@.current_notes.len() as int),
            ),
    {
        if self.current_notes.len() > 0 {
            self.selected_row = Some(0);
        }
    }

    pub fn select_last(&mut self)
        ensures
            final(self)@ == with_selected(
                old(self)@,
                last_selected(old(self)@.selected_row, old(self)@.current_notes.len() as int),
            ),
    {
        let l = self.current_notes.len();
        if l > 0 {
            self.selected_row = Some(l - 1);
        }
    }

    /// The request to archive the selected note, if a note is selected.
    pub fn archive_selected(&self) -> (signal: Option<Signals>)
        ensures
            signal_view(signal) == match selected_note(self@) {
                Some(note) => Some(SignalsView::ArchiveNote(note.id)),
                None => None,
            },
    {
        match self.selected_row {
            Some(row) => {
                if row < self.current_notes.len() {
                    Some(Signals::ArchiveNote(self.current_notes[row].id))
                } else {
                    None
                }
            },
            None => None,
        }
    }

    /// The selected note, to be edited, if a note is selected.
    pub fn edit_selected(&self) -> (note: Option<&Note>)
        ensures
            match note {
                Some(n) => selected_note(self@) == Some(n@),
                None => selected_note(self@) is None,
            },
    {
        match self.selected_row {
            Some(row) => {
                if row < self.current_notes.len() {
                    Some(&self.current_notes[row])
                } else {
                    None
                }
            },
            None => None,
        }
    }

    /// The background of row `i`: every other row is set off.
    pub fn alternate_colors(&self, i: usize) -> (color: RowColor)
        ensures
            color == if i % 2 == 0 {
                RowColor::Normal
            } else {
                RowColor::Alternate
            },
    {
        if i % 2 == 0 {
            RowColor::Normal
        } else {
            RowColor::Alternate
        }
    }
}

/// The user interface: whether it is to end, its mode, and its windows.
#[derive(Debug)]
pub struct TuiApp {
    exit: bool,
    input_mode: InputMode,
    insert_note_window: InsertWindow,
    notes_window: NotesWindow,
    last_apps_window: LastAppsWindow,
    help_window: HelpWindow,
}

pub struct TuiAppView {
    pub exit: bool,
    pub input_mode: InputMode,
    pub insert_note_window: InsertWindowView,
    pub notes_window: NotesWindowView,
}

impl View for TuiApp {
    type V = TuiAppView;

    closed spec fn view(&self) -> TuiAppView {
        TuiAppView {
            exit: self.exit,
            input_mode: self.input_mode,
            insert_note_window: self.insert_note_window@,
            notes_window: self.notes_window@,
        }
    }
}

/// The list of notes as it is drawn in `rows` rows while `current` holds the
/// focus and has the notes `app_notes`: the selection is none where no note
/// is drawn, and the last note drawn for a selection behind it.
pub open spec fn shown_window(
    selected_row: Option<int>,
    current: Option<ActiveProcessEventView>,
    app_notes: Seq<NoteView>,
    rows: int,
) -> NotesWindowView {
    let window = match current {
        Some(session) => NotesWindowView {
            current_title: session.process.title,
            current_notes: app_notes,
            selected_row,
        },
        None => NotesWindowView {
            current_title: "no app currently detected"@,
            current_notes: Seq::<NoteView>::empty(),
            selected_row,
        },
    };
    let drawn = if rows < window.current_notes.len() {
        rows
    } else {
        window.current_notes.len() as int
    };
    with_selected(window, shown_selected(selected_row, drawn))
}

/// The interface with another selection in the list of notes.
pub open spec fn selecting(app: TuiAppView, selected_row: Option<int>) -> TuiAppView {
    TuiAppView { notes_window: with_selected(app.notes_window, selected_row), ..app }
}

/// The interface after a key in normal mode.
pub open spec fn after_normal_key(app: TuiAppView, key: KeyCode) -> TuiAppView {
    let selected = app.notes_window.selected_row;
    let rows = app.notes_window.current_notes.len() as int;
    match key {
        KeyCode::Char('i') => TuiAppView { input_mode: InputMode::Editing, ..app },
        KeyCode::Char('q') | KeyCode::Char('Q') => TuiAppView { exit: true, ..app },
        KeyCode::Esc | KeyCode::Left => selecting(app, None),
        KeyCode::Char('j') | KeyCode::Down => selecting(app, next_selected(selected, rows)),
        KeyCode::Char('k') | KeyCode::Up => selecting(app, previous_selected(selected, rows)),
        KeyCode::Char('g') | KeyCode::Home => selecting(app, first_selected(selected, rows)),
        KeyCode::Char('G') | KeyCode::End => selecting(app, last_selected(selected, rows)),
        KeyCode::Char('e') | KeyCode::Enter => match selected_note(app.notes_window) {
            Some(note) => TuiAppView {
                input_mode: InputMode::Editing,
                insert_note_window: InsertWindowView {
                    input: note.text,
                    character_index: note.text.len() as int,
                    editing_note: Some(note.id),
                },
                ..app
            },
            None => app,
        },
        _ => app,
    }
}

/// The request that a key in normal mode makes.
pub open spec fn normal_key_signal(app: TuiAppView, key: KeyCode) -> Option<SignalsView> {
    match key {
        KeyCode::Char('q') | KeyCode::Char('Q') => Some(SignalsView::Quit),
        KeyCode::Char('a') | KeyCode::Char('d') => match selected_note(app.notes_window) {
            Some(note) => Some(SignalsView::ArchiveNote(note.id)),
            None => None,
        },
        _ => None,
    }
}

/// The interface after a key in editing mode.
pub open spec fn after_editing_key(app: TuiAppView, key: KeyCode) -> TuiAppView {
    match key {
        KeyCode::Esc => TuiAppView { input_mode: InputMode::Normal, ..app },
        _ => TuiAppView {
            input_mode: mode_after_key(key),
            insert_note_window: after_key(app.insert_note_window, key),
            ..app
        },
    }
}

/// The request that a key in editing mode makes.
pub open spec fn editing_key_signal(
    app: TuiAppView,
    key: KeyCode,
    current: Option<ActiveProcessEventView>,
) -> Option<SignalsView> {
    match key {
        KeyCode::Enter => submitted(app.insert_note_window, current),
        _ => None,
    }
}

/// The interface after a key.
pub open spec fn after_any_key(app: TuiAppView, key: KeyCode) -> TuiAppView {
    match app.input_mode {
        InputMode::Normal => after_normal_key(app, key),
        InputMode::Editing => after_editing_key(app, key),
    }
}

/// The request that a key makes.
pub open spec fn any_key_signal(
    app: TuiAppView,
    key: KeyCode,
    current: Option<ActiveProcessEventView>,
) -> Option<SignalsView> {
    match app.input_mode {
        InputMode::Normal => normal_key_signal(app, key),
        InputMode::Editing => editing_key_signal(app, key, current),
    }
}

impl TuiApp {
    pub fn new() -> (r: TuiApp)
        ensures
            r@ == (TuiAppView {
                exit: false,
                input_mode: InputMode::Normal,
                insert_note_window: cleared(),
                notes_window: NotesWindowView {
                    current_title: Seq::<char>::empty(),
                    current_notes: Seq::<NoteView>::empty(),
                    selected_row: None,
                },
            }),
    {
        TuiApp {
            exit: false,
            input_mode: InputMode::Normal,
            insert_note_window: InsertWindow::new(),
            notes_window: NotesWindow::new(),
            last_apps_window: LastAppsWindow::new(),
            help_window: HelpWindow::new(),
        }
    }

    /// Whether the interface is to end.
    pub fn should_exit(&self) -> (r: bool)
        ensures
            r == self@.exit,
    {
        self.exit
    }

    pub fn input_mode(&self) -> (r: InputMode)
        ensures
            r == self@.input_mode,
    {
        self.input_mode
    }

    pub fn insert_note_window(&self) -> (r: &InsertWindow)
        ensures
            r@ == self@.insert_note_window,
    {
        &self.insert_note_window
    }

    pub fn notes_window(&self) -> (r: &NotesWindow)
        ensures
            r@ == self@.notes_window,
    {
        &self.notes_window
    }

    pub fn last_apps_window(&self) -> &LastAppsWindow {
        &self.last_apps_window
    }

    pub fn help_window(&self) -> &HelpWindow {
        &self.help_window
    }

    /// Shows the window that holds the focus and its notes in the list of
    /// notes, before `rows` rows of it are drawn.
    pub fn show(&mut self, current: &Option<ActiveProcessEvent>, app_notes: Vec<Note>, rows: usize)
        ensures
            final(self)@ == (TuiAppView {
                notes_window: shown_window(
                    old(self)@.notes_window.selected_row,
                    option_view(*current),
                    note_views(app_notes@),
                    rows as int,
                ),
                ..old(self)@
            }),
    {
        self.notes_window.get_current_notes_and_window(current, app_notes);
        let shown = if rows < self.notes_window.current_notes.len() {
            rows
        } else {
            self.notes_window.current_notes.len()
        };
        self.notes_window.clamp_selection(shown);
    }

    /// Handles what the terminal reported while `current` held the focus:
    /// only a key that went down counts. The request to send, if there is
    /// one, is handed back.
    pub fn handle_events(&mut self, event: Option<KeyEvent>, current: &Option<ActiveProcessEvent>) -> (signal:
        Option<Signals>)
        ensures
            match event {
                Some(KeyEvent { code, kind: KeyEventKind::Press }) => {
                    &&& final(self)@ == after_any_key(old(self)@, code)
                    &&& signal_view(signal) == any_key_signal(
                        old(self)@,
                        code,
                        option_view(*current),
                    )
                },
                _ => final(self)@ == old(self)@ && signal is None,
            },
    {
        match event {
            Some(key_event) => {
                match key_event.kind {
                    KeyEventKind::Press => self.handle_key_event(key_event.code, current),
                    _ => None,
                }
            },
            None => None,
        }
    }

    fn handle_normal_mode_key_event(&mut self, key_event: KeyCode) -> (signal: Option<Signals>)
        ensures
            final(self)@ == after_normal_key(old(self)@, key_event),
            signal_view(signal) == normal_key_signal(old(self)@, key_event),
    {
        match key_event {
            KeyCode::Char('i') => {
                self.input_mode = InputMode::Editing;
                None
            },
            KeyCode::Char('q') => Some(self.exit()),
            KeyCode::Char('Q') => Some(self.exit()),
            KeyCode::Esc | KeyCode::Left => {
                self.notes_window.select_none();
                None
            },
            KeyCode::Char('j') | KeyCode::Down => {
                self.notes_window.select_next();
                None
            },
            KeyCode::Char('k') | KeyCode::Up => {
                self.notes_window.select_previous();
                None
            },
            KeyCode::Char('g') | KeyCode::Home => {
                self.notes_window.select_first();
                None
            },
            KeyCode::Char('G') | KeyCode::End => {
                self.notes_window.select_last();
                None
            },
            KeyCode::Char('a') | KeyCode::Char('d') => self.notes_window.archive_selected(),
            KeyCode::Char('e') | KeyCode::Enter => {
                match self.notes_window.edit_selected() {
                    Some(note) => {
                        self.insert_note_window.edit(note);
                        self.input_mode = InputMode::Editing;
                    },
                    None => {},
                }
                None
            },
            _ => None,
        }
    }

    fn handle_editing_mode_key_event(
        &mut self,
        key_event: KeyCode,
        current: &Option<ActiveProcessEvent>,
    ) -> (signal: Option<Signals>)
        ensures
            final(self)@ == after_editing_key(old(self)@, key_event),
            signal_view(signal) == editing_key_signal(old(self)@, key_event, option_view(*current)),
    {
        match key_event {
            KeyCode::Esc => {
                self.input_mode = InputMode::Normal;
                None
            },
            _ => {
                let (mode, signal) = self.insert_note_window.handle_key_event(key_event, current);
                self.input_mode = mode;
                signal
            },
        }
    }

    /// Handles a key while `current` holds the focus. The request to send,
    /// if there is one, is handed back.
    pub fn handle_key_event(&mut self, key_event: KeyCode, current: &Option<ActiveProcessEvent>) -> (signal:
        Option<Signals>)
        ensures
            final(self)@ == after_any_key(old(self)@, key_event),
            signal_view(signal) == any_key_signal(old(self)@, key_event, option_view(*current)),
    {
        match self.input_mode {
            InputMode::Normal => self.handle_normal_mode_key_event(key_event),
            InputMode::Editing => self.handle_editing_mode_key_event(key_event, current),
        }
    }

    fn exit(&mut self) -> (signal: Signals)
        ensures
            final(self)@ == (TuiAppView { exit: true, ..old(self)@ }),
            signal@ == SignalsView::Quit,
    {
        self.exit = true;
        Signals::Quit
    }
}

} // verus!
