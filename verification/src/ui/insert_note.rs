//! The input line for a new note or for the new text of a note.

use crate::gatherer::app_gatherer::{option_view, ActiveProcessEvent, ActiveProcessEventView};
use crate::notes::Note;
use crate::signals::{Signals, SignalsView};
use crate::text::{append_chars, chars_of, string_of, trim, trimmed};
use vstd::prelude::*;

verus! {

#[derive(Debug, Clone, Copy, PartialEq, Eq, Structural)]
pub enum InputMode {
    Normal,
    Editing,
}

/// A key of the keyboard.
#[derive(Debug, Clone, Copy, PartialEq, Eq, Structural)]
pub enum KeyCode {
    Backspace,
    Enter,
    Left,
    Right,
    Up,
    Down,
    Home,
    End,
    Delete,
    Esc,
    Char(char),
    /// Any other key.
    Other,
}

/// The input line: its text, the place of the cursor counted in characters,
/// and the note that is being edited, if the text is not for a new note.
#[derive(Debug)]
pub struct InsertWindow {
    pub input: String,
    pub character_index: usize,
    pub editing_note: Option<u128>,
}

pub struct InsertWindowView {
    pub input: Seq<char>,
    pub character_index: int,
    pub editing_note: Option<u128>,
}

impl View for InsertWindow {
    type V = InsertWindowView;

    open spec fn view(&self) -> InsertWindowView {
        InsertWindowView {
            input: self.input@,
            character_index: self.character_index as int,
            editing_note: self.editing_note,
        }
    }
}

/// The request that an optional request stands for.
pub open spec fn signal_view(signal: Option<Signals>) -> Option<SignalsView> {
    match signal {
        Some(s) => Some(s@),
        None => None,
    }
}

/// A place for the cursor that lies in the text or at its end.
pub open spec fn clamped(input: Seq<char>, cursor: int) -> int {
    if cursor < 0 {
        0
    } else if cursor > input.len() {
        input.len() as int
    } else {
        cursor
    }
}

/// The input line with the cursor at the nearest place to `cursor`.
pub open spec fn with_cursor(window: InsertWindowView, cursor: int) -> InsertWindowView {
    InsertWindowView { character_index: clamped(window.input, cursor), ..window }
}

/// The input line with the cursor one character to the left.
pub open spec fn moved_left(window: InsertWindowView) -> InsertWindowView {
    with_cursor(window, window.character_index - 1)
}

/// The input line with the cursor one character to the right. A cursor that
/// cannot be counted further stays where it is counted.
pub open spec fn moved_right(window: InsertWindowView) -> InsertWindowView {
    with_cursor(
        window,
        if window.character_index < usize::MAX {
            window.character_index + 1
        } else {
            window.character_index
        },
    )
}

/// The input line with `c` put where the cursor stands, or at the end where
/// the cursor stands behind it, and the cursor moved to the right.
pub open spec fn entered(window: InsertWindowView, c: char) -> InsertWindowView {
    moved_right(
        InsertWindowView {
            input: window.input.insert(clamped(window.input, window.character_index), c),
            ..window
        },
    )
}

/// The input line without the character before the cursor, and the cursor
/// moved to the left. With the cursor at the start nothing changes.
pub open spec fn deleted(window: InsertWindowView) -> InsertWindowView {
    if window.character_index == 0 {
        window
    } else {
        let kept = clamped(window.input, window.character_index - 1);
        let from = clamped(window.input, window.character_index);
        moved_left(
            InsertWindowView {
                input: window.input.take(kept) + window.input.skip(from),
                ..window
            },
        )
    }
}

/// The input line without the character under the cursor. With the cursor at
/// the end nothing changes.
pub open spec fn deleted_forward(window: InsertWindowView) -> InsertWindowView {
    let moved = moved_right(window);
    if moved.character_index > window.character_index {
        deleted(moved)
    } else {
        moved
    }
}

/// The empty input line.
pub open spec fn cleared() -> InsertWindowView {
    InsertWindowView { input: Seq::<char>::empty(), character_index: 0, editing_note: None }
}

/// The request that submitting the input line makes: a new text for the note
/// that is being edited, or else a new note linked to the window that holds
/// the focus. Without such a window there is no request.
pub open spec fn submitted(
    window: InsertWindowView,
    current: Option<ActiveProcessEventView>,
) -> Option<SignalsView> {
    match window.editing_note {
        Some(id) => Some(SignalsView::EditNote(id, trim(window.input))),
        None => match current {
            Some(session) => Some(
                SignalsView::NewNote(trim(window.input), seq![session.process.title]),
            ),
            None => None,
        },
    }
}

/// The input line after a key.
pub open spec fn after_key(window: InsertWindowView, key: KeyCode) -> InsertWindowView {
    match key {
        KeyCode::Enter => cleared(),
        KeyCode::Char(c) => entered(window, c),
        KeyCode::Backspace => deleted(window),
        KeyCode::Delete => deleted_forward(window),
        KeyCode::Left => moved_left(window),
        KeyCode::Right => moved_right(window),
        KeyCode::End => with_cursor(window, window.input.len() as int),
        KeyCode::Home => with_cursor(window, 0),
        _ => window,
    }
}

/// The mode after a key on the input line: Enter and Esc leave it.
pub open spec fn mode_after_key(key: KeyCode) -> InputMode {
    match key {
        KeyCode::Enter => InputMode::Normal,
        KeyCode::Esc => InputMode::Normal,
        _ => InputMode::Editing,
    }
}

impl InsertWindow {
    pub fn new() -> (r: InsertWindow)
        ensures
            r@ == cleared(),
    {
        InsertWindow { input: String::new(), character_index: 0, editing_note: None }
    }

    /// Starts the editing of a note: the input line holds its text, with the
    /// cursor at the end.
    pub fn edit(&mut self, note: &Note)
        ensures
            final(self)@ == (InsertWindowView {
                input: note@.text,
                character_index: note@.text.len() as int,
                editing_note: Some(note@.id),
            }),
    {
        self.input = note.text.clone();
        self.character_index = self.input.as_str().unicode_len();
        self.editing_note = Some(note.id);
    }

    fn move_cursor_right(&mut self)
        ensures
            final(self)@ == moved_right(old(self)@),
    {
        let cursor_moved_right = if self.character_index < usize::MAX {
            self.character_index + 1
        } else {
            self.character_index
        };
        self.character_index = self.clamp_cursor(cursor_moved_right);
    }

    fn move_cursor_to_end(&mut self)
        ensures
            final(self)@ == with_cursor(old(self)@, old(self)@.input.len() as int),
    {
        let cursor_moved_to_end = self.input.as_str().unicode_len();
        self.character_index = self.clamp_cursor(cursor_moved_to_end);
    }

    fn enter_char(&mut self, new_char: char)
        ensures
            final(self)@ == entered(old(self)@, new_char),
    {
        let chars = chars_of(self.input.as_str());
        let index = if self.character_index < chars.len() {
            self.character_index
        } else {
            chars.len()
        };
        let mut input = string_of(&chars, 0, index);
        input.push(new_char);
        append_chars(&mut input, &chars, index, chars.len());
        proof {
            assert(input@ =~= chars@.insert(index as int, new_char));
        }
        self.input = input;
        self.move_cursor_right();
    }

    fn move_cursor_left(&mut self)
        ensures
            final(self)@ == moved_left(old(self)@),
    {
        let cursor_moved_left = if self.character_index > 0 {
            self.character_index - 1
        } else {
            0
        };
        self.character_index = self.clamp_cursor(cursor_moved_left);
    }

    fn move_cursor_home(&mut self)
        ensures
            final(self)@ == with_cursor(old(self)@, 0),
    {
        self.character_index = self.clamp_cursor(0);
    }

    fn delete_char(&mut self)
        ensures
            final(self)@ == deleted(old(self)@),
    {
        let is_not_cursor_leftmost = self.character_index != 0;
        if is_not_cursor_leftmost {
            let chars = chars_of(self.input.as_str());
            let current_index = if self.character_index < chars.len() {
                self.character_index
            } else {
                chars.len()
            };
            let from_left_to_current_index = if self.character_index - 1 < chars.len() {
                self.character_index - 1
            } else {
                chars.len()
            };
            let mut input = string_of(&chars, 0, from_left_to_current_index);
            append_chars(&mut input, &chars, current_index, chars.len());
            proof {
                assert(input@ =~= chars@.take(from_left_to_current_index as int) + chars@.skip(
                    current_index as int,
                ));
            }
            self.input = input;
            self.move_cursor_left();
        }
    }

    fn delete_char_forward(&mut self)
        ensures
            final(self)@ == deleted_forward(old(self)@),
    {
        let current_character_index = self.character_index;
        self.move_cursor_right();
        if self.character_index > current_character_index {
            self.delete_char();
        }
    }

    fn clamp_cursor(&self, new_cursor_pos: usize) -> (r: usize)
        ensures
            r == clamped(self@.input, new_cursor_pos as int),
    {
        let len = self.input.as_str().unicode_len();
        if new_cursor_pos > len {
            len
        } else {
            new_cursor_pos
        }
    }

    fn reset_cursor(&mut self)
        ensures
            final(self)@ == with_cursor(old(self)@, 0),
    {
        self.character_index = 0;
    }

    /// Submits the input line while `current` holds the focus, and empties
    /// it. The request to send, if there is one, is handed back.
    pub fn submit_message(&mut self, current: &Option<ActiveProcessEvent>) -> (signal: Option<
        Signals,
    >)
        ensures
            signal_view(signal) == submitted(old(self)@, option_view(*current)),
            final(self)@ == cleared(),
    {
        let signal = match self.editing_note {
            Some(note_id) => Some(self.edit_note(note_id)),
            None => self.new_note(current),
        };
        self.input = String::new();
        self.reset_cursor();
        self.editing_note = None;
        signal
    }

    /// The request for a new note with the trimmed input as its text, linked
    /// to the window that holds the focus. Without such a window there is no
    /// request.
    pub fn new_note(&self, current: &Option<ActiveProcessEvent>) -> (signal: Option<Signals>)
        ensures
            signal_view(signal) == match option_view(*current) {
                Some(session) => Some(
                    SignalsView::NewNote(trim(self@.input), seq![session.process.title]),
                ),
                None => None,
            },
    {
        match current {
            Some(current) => {
                let mut links: Vec<String> = Vec::new();
                links.push(current.get_title().to_owned());
                let signal = Signals::NewNote(trimmed(self.input.as_str()), links);
                proof {
                    assert(crate::text::views(links@) =~= seq![current@.process.title]);
                }
                Some(signal)
            },
            None => None,
        }
    }

    /// The request to give a note the trimmed input as its text.
    pub fn edit_note(&self, note_id: u128) -> (signal: Signals)
        ensures
            signal@ == SignalsView::EditNote(note_id, trim(self@.input)),
    {
        Signals::EditNote(note_id, trimmed(self.input.as_str()))
    }

    /// Handles a key while `current` holds the focus. The mode after the key
    /// and the request to send, if the key submitted the input, are handed
    /// back.
    pub fn handle_key_event(&mut self, key_event: KeyCode, current: &Option<ActiveProcessEvent>) -> (r:
        (InputMode, Option<Signals>))
        ensures
            final(self)@ == after_key(old(self)@, key_event),
            r.0 == mode_after_key(key_event),
            signal_view(r.1) == if key_event == KeyCode::Enter {
                submitted(old(self)@, option_view(*current))
            } else {
                None
            },
    {
        match key_event {
            KeyCode::Enter => {
                let signal = self.submit_message(current);
                (InputMode::Normal, signal)
            },
            KeyCode::Char(to_insert) => {
                self.enter_char(to_insert);
                (InputMode::Editing, None)
            },
            KeyCode::Backspace => {
                self.delete_char();
                (InputMode::Editing, None)
            },
            KeyCode::Delete => {
                self.delete_char_forward();
                (InputMode::Editing, None)
            },
            KeyCode::Left => {
                self.move_cursor_left();
                (InputMode::Editing, None)
            },
            KeyCode::Right => {
                self.move_cursor_right();
                (InputMode::Editing, None)
            },
            KeyCode::End => {
                self.move_cursor_to_end();
                (InputMode::Editing, None)
            },
            KeyCode::Home => {
                self.move_cursor_home();
                (InputMode::Editing, None)
            },
            KeyCode::Esc => (InputMode::Normal, None),
            _ => (InputMode::Editing, None),
        }
    }
}

} // verus!
