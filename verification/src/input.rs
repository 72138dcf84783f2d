use vstd::prelude::*;
use crate::keys::{KeyCode, KeyKind, KeyPress};
use crossterm::event::{Event as CtEvent, KeyCode as Ct, KeyEvent as CtKeyEvent, KeyEventKind as CtKind, KeyModifiers};
use tui_input::backend::crossterm::EventHandler;

verus! {

/// What `tui_input` makes of a text field holding `value` with the cursor at `cursor`
/// when it is handed `key` (its crossterm backend's `handle_event`): the new text and
/// the new cursor.
pub uninterp spec fn tui_edit(value: Seq<char>, cursor: usize, key: KeyPress) -> (Seq<char>, usize);

/// The keys that `tui_input`'s crossterm backend turns into an edit request: a pressed or
/// repeated Backspace, Delete, Left, Right, Home, End or character. All other keys leave a
/// field as it was.
pub open spec fn may_edit(key: KeyPress) -> bool {
    &&& key.kind != KeyKind::Release
    &&& match key.code {
        KeyCode::Backspace | KeyCode::Delete | KeyCode::Left | KeyCode::Right
        | KeyCode::Home | KeyCode::End | KeyCode::Char(_) => true,
        _ => false,
    }
}

/// The key event type of crossterm, carried from `crossterm_key` to `tui_handle_key`.
#[verifier::external_type_specification]
#[verifier::external_body]
pub struct ExCrosstermKeyEvent(CtKeyEvent);

/// Builds the crossterm key event that stands for `key` (one crossterm key code per
/// key code of this library; `Other` becomes crossterm's `Null` key).
#[verifier::external_body]
fn crossterm_key(key: &KeyPress) -> CtKeyEvent {
    let code = match key.code {
        KeyCode::Backspace => Ct::Backspace, KeyCode::Enter => Ct::Enter, KeyCode::Left => Ct::Left,
        KeyCode::Right => Ct::Right, KeyCode::Up => Ct::Up, KeyCode::Down => Ct::Down,
        KeyCode::Home => Ct::Home, KeyCode::End => Ct::End, KeyCode::Tab => Ct::Tab,
        KeyCode::BackTab => Ct::BackTab, KeyCode::Delete => Ct::Delete, KeyCode::Esc => Ct::Esc,
        KeyCode::Char(c) => Ct::Char(c), KeyCode::Other => Ct::Null,
    };
    let kind = match key.kind {
        KeyKind::Press => CtKind::Press, KeyKind::Repeat => CtKind::Repeat, KeyKind::Release => CtKind::Release,
    };
    CtKeyEvent::new_with_kind(code, KeyModifiers::from_bits_truncate(key.modifiers), kind)
}

/// Hands `key` to a `tui_input::Input` that holds `value` with its cursor at `cursor`
/// (`Input::new(value).with_cursor(cursor)`, then `EventHandler::handle_event`) and returns
/// the field's text and cursor afterwards. Claimed of it: the result is `tui_edit` of the
/// arguments; a cursor within the text stays within it (every edit request keeps it so);
/// a key outside `may_edit` changes nothing when the cursor lies within the text (the
/// backend maps it to no request; `with_cursor` moves a cursor past the end to the end).
#[verifier::external_body]
fn tui_handle_key(value: &String, cursor: usize, key: &KeyPress) -> (r: (String, usize))
    ensures
        (r.0@, r.1) == tui_edit(value@, cursor, *key),
        cursor <= value@.len() ==> r.1 <= r.0@.len(),
        !may_edit(*key) && cursor <= value@.len() ==> r.0@ == value@ && r.1 == cursor,
{
    let mut input = tui_input::Input::new(value.clone()).with_cursor(cursor);
    input.handle_event(&CtEvent::Key(crossterm_key(key)));
    (input.value().to_string(), input.cursor())
}

/// A single-line text field: its text and a cursor, counted in characters.
#[derive(Debug)]
pub struct TextInput {
    value: String,
    cursor: usize,
}

impl View for TextInput {
    type V = (Seq<char>, usize);

    open spec fn view(&self) -> (Seq<char>, usize) {
        (self.spec_text(), self.spec_cursor())
    }
}

impl Clone for TextInput {
    fn clone(&self) -> (r: Self)
        ensures
            r@ == self@,
    {
        proof { use_type_invariant(self); }
        TextInput { value: self.value.clone(), cursor: self.cursor }
    }
}

impl TextInput {
    /// The text of the field.
    pub closed spec fn spec_text(&self) -> Seq<char> {
        self.value@
    }

    /// The cursor, counted in characters from the start.
    pub closed spec fn spec_cursor(&self) -> usize {
        self.cursor
    }

    /// The cursor never stands past the end of the text.
    #[verifier::type_invariant]
    closed spec fn wf(&self) -> bool {
        self.cursor <= self.value@.len()
    }

    /// A field holding `value` with the cursor at its end (as tui_input's
    /// `Input::default().with_value(v).with_cursor(v.chars().count())` builds it).
    pub fn new(value: String) -> (r: TextInput)
        ensures
            r.spec_text() == value@,
            r.spec_cursor() == value@.len(),
    {
        let n = value.as_str().unicode_len();
        TextInput { value, cursor: n }
    }

    /// The text of the field.
    pub fn value(&self) -> (r: &str)
        ensures
            r@ == self.spec_text(),
    {
        self.value.as_str()
    }

    /// The cursor position.
    pub fn cursor(&self) -> (r: usize)
        ensures
            r == self.spec_cursor(),
            r <= self.spec_text().len(),
    {
        proof { use_type_invariant(self); }
        self.cursor
    }

    /// Hands a key to the field: it edits the text or moves the cursor as tui_input does.
    pub fn handle_key(&mut self, key: &KeyPress)
        ensures
            final(self)@ == tui_edit(old(self).spec_text(), old(self).spec_cursor(), *key),
            !may_edit(*key) ==> final(self)@ == old(self)@,
    {
        proof { use_type_invariant(&*self); }
        let (v, c) = tui_handle_key(&self.value, self.cursor, key);
        *self = TextInput { value: v, cursor: c };
    }
}

} // verus!
