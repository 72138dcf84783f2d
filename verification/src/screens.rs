use vstd::prelude::*;
use vstd::view::View as _;
use crate::actions::{ActionsFocus, ActionsState, ModalState};
use crate::app::{App, View};
use crate::explorer::{ExplorerFocus, ExplorerState};
use crate::generate::spaces;
use crate::text::{chars_of, string_from_chars};
use crate::tree::FlatItem;
use crate::wizard::{WizardAction, WizardState};

verus! {

broadcast use vstd::string::group_string_axioms;

/// How a text field is drawn: as plain text, or with the character under the cursor
/// shown apart (a space when the cursor is at the end).
#[derive(Debug)]
pub enum FieldLine {
    Plain(String),
    Cursor { before: String, at: String, after: String },
}

/// The text before the cursor, the character under it (a space past the end), and the
/// text after it.
pub open spec fn cursor_parts(text: Seq<char>, cursor: int) -> (Seq<char>, Seq<char>, Seq<char>) {
    if cursor < text.len() {
        (text.take(cursor), seq![text[cursor]], text.skip(cursor + 1))
    } else {
        (text, seq![' '], Seq::empty())
    }
}

/// Splits `text` round the character at `cursor`.
pub fn split_at_cursor(text: &str, cursor: usize) -> (r: (String, String, String))
    ensures
        (r.0@, r.1@, r.2@) == cursor_parts(text@, cursor as int),
{
    let cs = chars_of(text);
    let mut before: Vec<char> = Vec::new();
    let mut at: Vec<char> = vec![' '];
    let mut after: Vec<char> = Vec::new();
    let mut i: usize = 0;
    while i < cs.len()
        invariant
            i <= cs@.len(),
            before@ == cs@.take(if i < cursor { i as int } else { cursor as int }),
            at@ == (if cursor < i { seq![cs@[cursor as int]] } else { seq![' '] }),
            after@ == (if cursor + 1 < i { cs@.subrange(cursor + 1, i as int) } else { Seq::<char>::empty() }),
        decreases cs@.len() - i,
    {
        if i < cursor {
            before.push(cs[i]);
            proof { assert(cs@.take(i + 1) =~= cs@.take(i as int).push(cs@[i as int])); }
        } else if i == cursor {
            at = vec![cs[i]];
        } else {
            let ghost a0 = after@;
            after.push(cs[i]);
            proof {
                if cursor + 1 < i {
                    assert(cs@.subrange(cursor + 1, i + 1) =~= a0.push(cs@[i as int]));
                } else {
                    assert(cs@.subrange(cursor + 1, i + 1) =~= seq![cs@[i as int]]);
                }
            }
        }
        i = i + 1;
    }
    proof {
        if cursor < cs@.len() {
            if cursor + 1 >= cs@.len() {
                assert(cs@.skip(cursor + 1) =~= Seq::<char>::empty());
            } else {
                assert(cs@.skip(cursor + 1) =~= cs@.subrange(cursor + 1, cs@.len() as int));
            }
        } else {
            assert(cs@.take(cs@.len() as int) =~= cs@);
        }
    }
    (string_from_chars(before.as_slice()), string_from_chars(at.as_slice()), string_from_chars(after.as_slice()))
}

/// The view of a field line: the plain text, or the three parts round the cursor.
pub open spec fn field_line_view(l: FieldLine) -> (bool, Seq<char>, Seq<char>, Seq<char>) {
    match l {
        FieldLine::Plain(t) => (false, t@, Seq::empty(), Seq::empty()),
        FieldLine::Cursor { before, at, after } => (true, before@, at@, after@),
    }
}

/// A line showing `text`, with the cursor at `cursor` if the field has the focus.
pub open spec fn shown_field(text: Seq<char>, cursor: int, focused: bool) -> (bool, Seq<char>, Seq<char>, Seq<char>) {
    if focused {
        let p = cursor_parts(text, cursor);
        (true, p.0, p.1, p.2)
    } else {
        (false, text, Seq::empty(), Seq::empty())
    }
}

fn field_line(text: &str, cursor: usize, focused: bool) -> (r: FieldLine)
    ensures
        field_line_view(r) == shown_field(text@, cursor as int, focused),
{
    if focused {
        let (before, at, after) = split_at_cursor(text, cursor);
        FieldLine::Cursor { before, at, after }
    } else {
        FieldLine::Plain(text.to_owned())
    }
}

/// What a wizard field shows: its text, or, when empty, `Type here...` while it has the
/// focus and `(empty)` otherwise.
pub open spec fn wizard_text(value: Seq<char>, focused: bool) -> Seq<char> {
    if value.len() > 0 {
        value
    } else if focused {
        "Type here..."@
    } else {
        "(empty)"@
    }
}

impl WizardState {
    /// Field `i` has the focus while no action is pending.
    pub open spec fn field_focused(&self, i: int) -> bool {
        i == self.current_input && self.action == WizardAction::NoAction
    }

    /// How field `i` is drawn (see `wizard_text`); the focused one shows its cursor.
    pub fn field_line(&self, i: usize) -> (r: FieldLine)
        requires
            i < self.inputs@.len(),
        ensures
            field_line_view(r) == shown_field(
                wizard_text(self.inputs@[i as int]@.0, self.field_focused(i as int)),
                self.inputs@[i as int]@.1 as int,
                self.field_focused(i as int),
            ),
    {
        let focused = i == self.current_input && self.action == WizardAction::NoAction;
        let value = self.inputs[i].value();
        let text = if value.unicode_len() > 0 {
            value
        } else if focused {
            "Type here..."
        } else {
            "(empty)"
        };
        field_line(text, self.inputs[i].cursor(), focused)
    }
}

impl ModalState {
    /// How field `i` of the dialog is drawn: its text, with the cursor if it has the focus.
    pub fn field_line(&self, i: usize) -> (r: FieldLine)
        requires
            i < self.inputs@.len(),
        ensures
            field_line_view(r) == shown_field(
                self.inputs@[i as int]@.0,
                self.inputs@[i as int]@.1 as int,
                i == self.current_input,
            ),
    {
        field_line(self.inputs[i].value(), self.inputs[i].cursor(), i == self.current_input)
    }
}

/// A row of the actions list: the box, the action, and a hint while it is on.
pub open spec fn action_label(on: bool, name: Seq<char>) -> Seq<char> {
    (if on { "[x] "@ } else { "[ ] "@ }) + name + (if on { " (Press 'e' to configure)"@ } else { Seq::empty() })
}

fn label_of(on: bool, name: &str) -> (r: String)
    ensures
        r@ == action_label(on, name@),
{
    let mut s = if on { "[x] ".to_owned() } else { "[ ] ".to_owned() };
    s.append(name);
    if on {
        s.append(" (Press 'e' to configure)");
    }
    proof {
        if !on {
            assert(s@ =~= action_label(on, name@));
        }
    }
    s
}

impl ActionsState {
    /// The two rows of the actions list.
    pub fn item_labels(&self) -> (r: (String, String))
        ensures
            r.0@ == action_label(self.init_git, "Initialize Git and Git Daemon"@),
            r.1@ == action_label(self.bootstrap_flux, "Bootstrap Flux"@),
    {
        (label_of(self.init_git, "Initialize Git and Git Daemon"), label_of(self.bootstrap_flux, "Bootstrap Flux"))
    }

    /// The dialog on show: the Flux dialog or the Git one while it has the focus.
    pub fn active_modal(&self) -> (r: Option<&ModalState>)
        ensures
            r == (if self.focus == ActionsFocus::ModalFlux {
                match self.flux_modal { Some(m) => Some(&m), None => None }
            } else if self.focus == ActionsFocus::ModalGit {
                match self.git_modal { Some(m) => Some(&m), None => None }
            } else {
                None
            }),
    {
        if self.focus == ActionsFocus::ModalFlux {
            self.flux_modal.as_ref()
        } else if self.focus == ActionsFocus::ModalGit {
            self.git_modal.as_ref()
        } else {
            None
        }
    }
}

/// The colour of a row of the component tree.
#[derive(Debug, Clone, Copy, PartialEq, Eq, Structural)]
pub enum RowColor {
    /// A chosen component.
    Chosen,
    /// A component not chosen.
    Component,
    /// A group.
    Group,
}

/// A row of the component tree as drawn.
#[derive(Debug)]
pub struct TreeRow {
    pub text: String,
    pub color: RowColor,
}

/// The text of a row: two spaces per level, the box (`[x]`/`[ ]` for a component, chosen
/// or not; `[-]`/`[+]` for a group, open or closed), the name, and ` (customized)` if Helm
/// values were written for it.
pub open spec fn row_text(item: FlatItem, checked: bool, open: bool, customized: bool) -> Seq<char> {
    spaces(2 * item.depth as nat)
        + (if item.is_leaf {
            if checked { "[x] "@ } else { "[ ] "@ }
        } else if open {
            "[-] "@
        } else {
            "[+] "@
        })
        + item.name@
        + (if customized { " (customized)"@ } else { Seq::empty() })
}

/// The colour of a row: chosen, else component, else group.
pub open spec fn row_color(item: FlatItem, checked: bool) -> RowColor {
    if checked {
        RowColor::Chosen
    } else if item.is_leaf {
        RowColor::Component
    } else {
        RowColor::Group
    }
}

impl ExplorerState {
    /// The row drawn for `item`.
    pub open spec fn row_of(&self, item: FlatItem) -> (Seq<char>, RowColor) {
        let checked = self.checked_paths@.contains(item.path@);
        (
            row_text(item, checked, self.expanded_paths@.contains(item.path@), self.customized_paths@.contains_key(item.path@)),
            row_color(item, checked),
        )
    }

    /// The rows of the tree as drawn, one per shown row.
    pub fn tree_rows(&self) -> (r: Vec<TreeRow>)
        ensures
            r@.len() == self.flat_list@.len(),
            forall|i: int| 0 <= i < r@.len() ==> (#[trigger] r@[i].text@, r@[i].color) == self.row_of(self.flat_list@[i]),
    {
        let mut rows: Vec<TreeRow> = Vec::new();
        let mut i: usize = 0;
        while i < self.flat_list.len()
            invariant
                i <= self.flat_list@.len(),
                rows@.len() == i,
                forall|k: int| 0 <= k < i ==> (#[trigger] rows@[k].text@, rows@[k].color) == self.row_of(self.flat_list@[k]),
            decreases self.flat_list@.len() - i,
        {
            let item = &self.flat_list[i];
            let checked = self.checked_paths.contains(item.path.as_str());
            let mut text: Vec<char> = Vec::new();
            let mut k: usize = 0;
            while k < item.depth
                invariant
                    k <= item.depth,
                    text@ == spaces(2 * k as nat),
                decreases item.depth - k,
            {
                text.push(' ');
                text.push(' ');
                proof { assert(text@ =~= spaces(2 * (k + 1) as nat)); }
                k = k + 1;
            }
            let mut s = string_from_chars(text.as_slice());
            if item.is_leaf {
                if checked {
                    s.append("[x] ");
                } else {
                    s.append("[ ] ");
                }
            } else if self.expanded_paths.contains(item.path.as_str()) {
                s.append("[-] ");
            } else {
                s.append("[+] ");
            }
            s.append(item.name.as_str());
            if self.customized_paths.contains_key(item.path.as_str()) {
                s.append(" (customized)");
            }
            let color = if checked {
                RowColor::Chosen
            } else if item.is_leaf {
                RowColor::Component
            } else {
                RowColor::Group
            };
            proof {
                let want = self.row_of(self.flat_list@[i as int]);
                assert(s@ =~= want.0);
            }
            rows.push(TreeRow { text: s, color });
            i = i + 1;
        }
        rows
    }
}

/// The step of the wizard's path that the screen belongs to (wizard, components, actions,
/// summary); none for the home screen.
pub open spec fn view_step(v: View) -> Option<usize> {
    match v {
        View::Home(_) => None,
        View::Wizard(_) | View::Loading => Some(0),
        View::Explorer(_) => Some(1),
        View::Actions(_) => Some(2),
        View::Summary(_) => Some(3),
    }
}

/// The help line at the bottom of each screen.
pub open spec fn legend_of(v: View) -> Seq<char> {
    match v {
        View::Home(_) => " [Tab] Navigate   [Enter] Select "@,
        View::Wizard(_) => " [Tab/Shift+Tab] Navigate   [Enter] Input   [Arrows] Buttons "@,
        View::Loading => ""@,
        View::Summary(_) => " [Tab] Focus   [Arrows] Navigate   [Enter] Submit "@,
        View::Actions(a) => if a.focus == ActionsFocus::ModalFlux {
            " [Tab/Shift+Tab] Navigate   [Enter] Input   [Esc] Close "@
        } else {
            " [Tab] Focus   [Arrows] Navigate   [Enter] Toggle/Submit   [e] Configure "@
        },
        View::Explorer(e) => if e.error_message is Some {
            " [Any Key] Close Error "@
        } else if e.preview_content is Some {
            " [Any Key] Close Preview "@
        } else if e.focus == ExplorerFocus::Tree {
            " [Tab] Focus   [Arrows] Navigate   [Enter/Space] Toggle/Expand   [e] Edit   [u] Undo Changes:   [p] Preview   [c] Edit Config "@
        } else {
            " [Tab] Focus   [Arrows] Navigate   [Enter] Submit "@
        },
    }
}

impl App {
    /// The step of the wizard's path on show, if any.
    pub fn step(&self) -> (r: Option<usize>)
        ensures
            r == view_step(self.view),
    {
        match &self.view {
            View::Home(_) => None,
            View::Wizard(_) | View::Loading => Some(0),
            View::Explorer(_) => Some(1),
            View::Actions(_) => Some(2),
            View::Summary(_) => Some(3),
        }
    }

    /// The help line of the screen on show.
    pub fn legend(&self) -> (r: &'static str)
        ensures
            r@ == legend_of(self.view),
    {
        match &self.view {
            View::Home(_) => " [Tab] Navigate   [Enter] Select ",
            View::Wizard(_) => " [Tab/Shift+Tab] Navigate   [Enter] Input   [Arrows] Buttons ",
            View::Loading => "",
            View::Summary(_) => " [Tab] Focus   [Arrows] Navigate   [Enter] Submit ",
            View::Actions(a) => {
                if a.focus == ActionsFocus::ModalFlux {
                    " [Tab/Shift+Tab] Navigate   [Enter] Input   [Esc] Close "
                } else {
                    " [Tab] Focus   [Arrows] Navigate   [Enter] Toggle/Submit   [e] Configure "
                }
            },
            View::Explorer(e) => {
                if e.error_message.is_some() {
                    " [Any Key] Close Error "
                } else if e.preview_content.is_some() {
                    " [Any Key] Close Preview "
                } else if e.focus == ExplorerFocus::Tree {
                    " [Tab] Focus   [Arrows] Navigate   [Enter/Space] Toggle/Expand   [e] Edit   [u] Undo Changes:   [p] Preview   [c] Edit Config "
                } else {
                    " [Tab] Focus   [Arrows] Navigate   [Enter] Submit "
                }
            },
        }
    }
}

} // verus!
