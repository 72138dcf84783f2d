use vstd::prelude::*;
use crate::config::AppConfig;
use crate::input::{TextInput};
use crate::keys::{InputEvent, KeyCode, KeyPress};
use crate::selection::ListSelection;
use crate::summary::opt_text;
use crate::wizard::{edit_field, edit_input, filled, input_views, label_views};

verus! {

broadcast use vstd::string::group_string_axioms;

/// Which part of the actions screen has the focus.
#[derive(Debug, Clone, Copy, PartialEq, Eq, Structural)]
pub enum ActionsFocus {
    List,
    Previous,
    Next,
    ModalGit,
    ModalFlux,
}

/// A dialog of text fields with a Done button after them.
#[derive(Debug)]
pub struct ModalState {
    pub inputs: Vec<TextInput>,
    pub labels: Vec<&'static str>,
    pub title: &'static str,
    pub current_input: usize,
}

/// The mathematical form of a dialog.
pub struct ModalView {
    pub inputs: Seq<(Seq<char>, usize)>,
    pub labels: Seq<Seq<char>>,
    pub title: Seq<char>,
    pub current_input: usize,
}

impl View for ModalState {
    type V = ModalView;

    open spec fn view(&self) -> ModalView {
        ModalView {
            inputs: input_views(self.inputs@),
            labels: label_views(self.labels@),
            title: self.title@,
            current_input: self.current_input,
        }
    }
}

/// The dialog after a key: whether it closes (Enter on Done, or Esc) and its new state.
/// Up and Shift-Tab go to the previous row, Down and Tab to the next (both wrapping round
/// through Done); Enter on a field moves to the next row; other keys edit the focused field.
pub open spec fn modal_key(m: ModalView, key: KeyPress) -> (ModalView, bool) {
    let n = m.inputs.len();
    let cur = m.current_input;
    match key.code {
        KeyCode::Up | KeyCode::BackTab => (ModalView { current_input: if cur > 0 { (cur - 1) as usize } else { n as usize }, ..m }, false),
        KeyCode::Down | KeyCode::Tab => (ModalView { current_input: if cur < n { (cur + 1) as usize } else { 0 }, ..m }, false),
        KeyCode::Enter => if cur == n { (m, true) } else { (ModalView { current_input: (cur + 1) as usize, ..m }, false) },
        KeyCode::Esc => (m, true),
        _ => if cur < n { (ModalView { inputs: edit_field(m.inputs, cur as int, key), ..m }, false) } else { (m, false) },
    }
}

/// The Flux dialog: Git URL, branch, path (`./` and the cluster's name), kubeconfig and
/// SSH key of `config`, each with its cursor at the end, the first field focused.
pub open spec fn flux_dialog(config: AppConfig) -> ModalView {
    ModalView {
        inputs: seq![
            filled(config.flux_git_url@),
            filled(config.flux_git_branch@),
            filled("./"@ + config.new_cluster_name@),
            filled(config.flux_kubeconfig@),
            filled(config.flux_ssh_key_path@),
        ],
        labels: seq!["Git URL"@, "Git Branch"@, "Git Path"@, "Kubeconfig Path"@, "Git SSH Key Path"@],
        title: " FLUX CONFIGURATION "@,
        current_input: 0,
    }
}

/// The Git daemon dialog: the daemon's address and the initial branch of `config`, each
/// with its cursor at the end, the first field focused.
pub open spec fn git_dialog(config: AppConfig) -> ModalView {
    ModalView {
        inputs: seq![filled(config.git_daemon_address@), filled(config.git_branch@)],
        labels: seq!["Git Daemon Listen Address"@, "Git Initial Branch"@],
        title: " GIT DAEMON CONFIGURATION "@,
        current_input: 0,
    }
}

impl ModalState {
    /// The Flux dialog (see `flux_dialog`).
    pub fn new_flux(config: &AppConfig) -> (r: ModalState)
        ensures
            r@ == flux_dialog(*config),
            r.inputs@.len() == 5,
    {
        let mut path = "./".to_owned();
        path.append(config.new_cluster_name.as_str());
        let inputs = vec![
            TextInput::new(config.flux_git_url.clone()),
            TextInput::new(config.flux_git_branch.clone()),
            TextInput::new(path),
            TextInput::new(config.flux_kubeconfig.clone()),
            TextInput::new(config.flux_ssh_key_path.clone()),
        ];
        let labels: Vec<&'static str> = vec!["Git URL", "Git Branch", "Git Path", "Kubeconfig Path", "Git SSH Key Path"];
        let r = ModalState { inputs, labels, title: " FLUX CONFIGURATION ", current_input: 0 };
        assert(r@.inputs =~= flux_dialog(*config).inputs);
        assert(r@.labels =~= flux_dialog(*config).labels);
        r
    }

    /// The Git daemon dialog (see `git_dialog`).
    pub fn new_git(config: &AppConfig) -> (r: ModalState)
        ensures
            r@ == git_dialog(*config),
            r.inputs@.len() == 2,
    {
        let inputs = vec![TextInput::new(config.git_daemon_address.clone()), TextInput::new(config.git_branch.clone())];
        let labels: Vec<&'static str> = vec!["Git Daemon Listen Address", "Git Initial Branch"];
        let r = ModalState { inputs, labels, title: " GIT DAEMON CONFIGURATION ", current_input: 0 };
        assert(r@.inputs =~= git_dialog(*config).inputs);
        assert(r@.labels =~= git_dialog(*config).labels);
        r
    }

    /// Handles a key (see `modal_key`); the result says whether the dialog closes.
    pub fn handle_event(&mut self, event: &InputEvent) -> (closed: bool)
        requires
            old(self).current_input < usize::MAX,
        ensures
            final(self).inputs@.len() == old(self).inputs@.len(),
            match *event {
                InputEvent::Key(key) => (final(self)@, closed) == modal_key(old(self)@, key),
                InputEvent::Other => final(self)@ == old(self)@ && !closed,
            },
    {
        if let InputEvent::Key(key) = event {
            let n = self.inputs.len();
            match key.code {
                KeyCode::Up | KeyCode::BackTab => {
                    if self.current_input > 0 {
                        self.current_input = self.current_input - 1;
                    } else {
                        self.current_input = n;
                    }
                },
                KeyCode::Down | KeyCode::Tab => {
                    if self.current_input < n {
                        self.current_input = self.current_input + 1;
                    } else {
                        self.current_input = 0;
                    }
                },
                KeyCode::Enter => {
                    if self.current_input == n {
                        return true;
                    } else {
                        self.current_input = self.current_input + 1;
                    }
                },
                KeyCode::Esc => {
                    return true;
                },
                _ => {
                    if self.current_input < n {
                        edit_input(&mut self.inputs, self.current_input, key);
                    }
                },
            }
        }
        false
    }
}

/// The dialog's focused row lies within its fields and Done, and the rows can be counted.
pub open spec fn modal_ok(m: Option<ModalState>) -> bool {
    match m {
        Some(m) => m.current_input <= m.inputs@.len() && m.inputs@.len() < usize::MAX,
        None => true,
    }
}

/// How many fields an optional dialog has.
pub open spec fn field_count(m: Option<ModalState>) -> Option<nat> {
    match m {
        Some(m) => Some(m.inputs@.len()),
        None => None,
    }
}

/// The Flux dialog, where there is one, has its five fields.
pub open spec fn flux_fields_ok(m: Option<ModalState>) -> bool {
    m matches Some(m) ==> m.inputs@.len() == 5
}

/// The view of an optional dialog.
pub open spec fn opt_modal(m: Option<ModalState>) -> Option<ModalView> {
    match m {
        Some(m) => Some(m@),
        None => None,
    }
}

/// The actions screen: whether to set up Git (and its daemon) and to bootstrap Flux, the
/// selected row, the focus, the two dialogs, and the button last pressed.
#[derive(Debug)]
pub struct ActionsState {
    pub init_git: bool,
    pub bootstrap_flux: bool,
    pub list_state: ListSelection,
    pub focus: ActionsFocus,
    pub flux_modal: Option<ModalState>,
    pub git_modal: Option<ModalState>,
    pub action_trigger: Option<String>,
}

/// The mathematical form of the actions screen.
pub struct ActionsView {
    pub init_git: bool,
    pub bootstrap_flux: bool,
    pub selected: Option<usize>,
    pub focus: ActionsFocus,
    pub flux_modal: Option<ModalView>,
    pub git_modal: Option<ModalView>,
    pub action_trigger: Option<Seq<char>>,
}

impl View for ActionsState {
    type V = ActionsView;

    open spec fn view(&self) -> ActionsView {
        ActionsView {
            init_git: self.init_git,
            bootstrap_flux: self.bootstrap_flux,
            selected: self.list_state@,
            focus: self.focus,
            flux_modal: opt_modal(self.flux_modal),
            git_modal: opt_modal(self.git_modal),
            action_trigger: opt_text(self.action_trigger),
        }
    }
}

/// The screen after `key` went to an open dialog: it closes to the list or stays open.
pub open spec fn dialog_key(s: ActionsView, key: KeyPress) -> ActionsView {
    if s.focus == ActionsFocus::ModalFlux {
        match s.flux_modal {
            Some(m) => {
                let (m2, closed) = modal_key(m, key);
                ActionsView { flux_modal: Some(m2), focus: if closed { ActionsFocus::List } else { s.focus }, ..s }
            },
            None => s,
        }
    } else {
        match s.git_modal {
            Some(m) => {
                let (m2, closed) = modal_key(m, key);
                ActionsView { git_modal: Some(m2), focus: if closed { ActionsFocus::List } else { s.focus }, ..s }
            },
            None => s,
        }
    }
}

/// The screen after `key` with the list or a button focused, and whether a button was
/// pressed. Down/`j`/Tab go from the first row to the second, from the second to Next,
/// from Next to Previous and from Previous back to the first row; Up/`k`/Shift-Tab go the
/// other way (with no row selected they select the second). Left/`h` and Right/`l` switch
/// the buttons. Enter or Space presses a button, or turns a row's action on or off, and
/// opens its dialog when it turned on; `e` opens the selected row's dialog if its action
/// is on.
pub open spec fn screen_key(s: ActionsView, key: KeyPress) -> (ActionsView, bool) {
    match key.code {
        KeyCode::Down | KeyCode::Char('j') | KeyCode::Tab => (match s.focus {
            ActionsFocus::List => match s.selected {
                Some(i) => if i == 0 {
                    ActionsView { selected: Some(1), ..s }
                } else {
                    ActionsView { focus: ActionsFocus::Next, selected: None, ..s }
                },
                None => s,
            },
            ActionsFocus::Next => ActionsView { focus: ActionsFocus::Previous, ..s },
            ActionsFocus::Previous => ActionsView { focus: ActionsFocus::List, selected: Some(0), ..s },
            _ => s,
        }, false),
        KeyCode::Up | KeyCode::Char('k') | KeyCode::BackTab => (match s.focus {
            ActionsFocus::List => match s.selected {
                Some(i) => if i == 1 {
                    ActionsView { selected: Some(0), ..s }
                } else {
                    ActionsView { focus: ActionsFocus::Previous, selected: None, ..s }
                },
                None => ActionsView { selected: Some(1), ..s },
            },
            ActionsFocus::Previous => ActionsView { focus: ActionsFocus::Next, ..s },
            ActionsFocus::Next => ActionsView { focus: ActionsFocus::List, selected: Some(1), ..s },
            _ => s,
        }, false),
        KeyCode::Left | KeyCode::Char('h') | KeyCode::Right | KeyCode::Char('l') => (
            if s.focus == ActionsFocus::Previous {
                ActionsView { focus: ActionsFocus::Next, ..s }
            } else if s.focus == ActionsFocus::Next {
                ActionsView { focus: ActionsFocus::Previous, ..s }
            } else {
                s
            },
            false,
        ),
        KeyCode::Enter | KeyCode::Char(' ') => if s.focus == ActionsFocus::Previous {
            (ActionsView { action_trigger: Some("Previous"@), ..s }, true)
        } else if s.focus == ActionsFocus::Next {
            (ActionsView { action_trigger: Some("Next"@), ..s }, true)
        } else {
            (match s.selected {
                Some(i) => if i == 0 {
                    ActionsView {
                        init_git: !s.init_git,
                        focus: if !s.init_git { ActionsFocus::ModalGit } else { s.focus },
                        ..s
                    }
                } else if i == 1 {
                    ActionsView {
                        bootstrap_flux: !s.bootstrap_flux,
                        focus: if !s.bootstrap_flux { ActionsFocus::ModalFlux } else { s.focus },
                        ..s
                    }
                } else {
                    s
                },
                None => s,
            }, false)
        },
        KeyCode::Char('e') => (if s.focus == ActionsFocus::List {
            match s.selected {
                Some(i) => if i == 0 && s.init_git {
                    ActionsView { focus: ActionsFocus::ModalGit, ..s }
                } else if i == 1 && s.bootstrap_flux {
                    ActionsView { focus: ActionsFocus::ModalFlux, ..s }
                } else {
                    s
                },
                None => s,
            }
        } else {
            s
        }, false),
        _ => (s, false),
    }
}

/// The screen after `key`, and whether a button was pressed: an open dialog takes every key.
pub open spec fn actions_key(s: ActionsView, key: KeyPress) -> (ActionsView, bool) {
    if s.focus == ActionsFocus::ModalFlux || s.focus == ActionsFocus::ModalGit {
        (dialog_key(s, key), false)
    } else {
        screen_key(s, key)
    }
}

impl ActionsState {
    /// An actions screen as `new` makes it for `config`.
    pub open spec fn is_fresh_for(&self, config: &AppConfig) -> bool {
        &&& self@.init_git == config.init_git
        &&& self@.bootstrap_flux == config.bootstrap_flux
        &&& self@.selected == Some(0usize)
        &&& self@.focus == ActionsFocus::List
        &&& self@.flux_modal == Some(flux_dialog(*config))
        &&& self@.git_modal == Some(git_dialog(*config))
        &&& self@.action_trigger is None
        &&& modal_ok(self.flux_modal)
        &&& modal_ok(self.git_modal)
        &&& flux_fields_ok(self.flux_modal)
    }

    /// The list with its first row selected and focused, the two actions as `config` has
    /// them, both dialogs filled from `config`, nothing pressed.
    pub fn new(config: &AppConfig) -> (r: ActionsState)
        ensures
            r.is_fresh_for(config),
    {
        let mut list_state = ListSelection::new();
        list_state.select(Some(0));
        ActionsState {
            init_git: config.init_git,
            bootstrap_flux: config.bootstrap_flux,
            list_state,
            focus: ActionsFocus::List,
            flux_modal: Some(ModalState::new_flux(config)),
            git_modal: Some(ModalState::new_git(config)),
            action_trigger: None,
        }
    }

    /// Hands an event to the screen (see `actions_key`); the result says whether a button
    /// was pressed. Events other than keys change nothing.
    pub fn handle_event(&mut self, event: &InputEvent) -> (pressed: bool)
        requires
            modal_ok(old(self).flux_modal),
            modal_ok(old(self).git_modal),
        ensures
            modal_ok(final(self).flux_modal),
            modal_ok(final(self).git_modal),
            field_count(final(self).flux_modal) == field_count(old(self).flux_modal),
            field_count(final(self).git_modal) == field_count(old(self).git_modal),
            match *event {
                InputEvent::Key(key) => (final(self)@, pressed) == actions_key(old(self)@, key),
                InputEvent::Other => final(self)@ == old(self)@ && !pressed,
            },
    {
        if self.focus == ActionsFocus::ModalFlux {
            if let Some(mut modal) = self.flux_modal.take() {
                let closed = modal.handle_event(event);
                if closed {
                    self.focus = ActionsFocus::List;
                }
                self.flux_modal = Some(modal);
            }
            return false;
        }
        if self.focus == ActionsFocus::ModalGit {
            if let Some(mut modal) = self.git_modal.take() {
                let closed = modal.handle_event(event);
                if closed {
                    self.focus = ActionsFocus::List;
                }
                self.git_modal = Some(modal);
            }
            return false;
        }
        if let InputEvent::Key(key) = event {
            match key.code {
                KeyCode::Down | KeyCode::Char('j') | KeyCode::Tab => {
                    match self.focus {
                        ActionsFocus::List => {
                            if let Some(i) = self.list_state.selected() {
                                if i == 0 {
                                    self.list_state.select(Some(1));
                                } else {
                                    self.focus = ActionsFocus::Next;
                                    self.list_state.select(None);
                                }
                            }
                        },
                        ActionsFocus::Next => self.focus = ActionsFocus::Previous,
                        ActionsFocus::Previous => {
                            self.focus = ActionsFocus::List;
                            self.list_state.select(Some(0));
                        },
                        _ => {},
                    }
                },
                KeyCode::Up | KeyCode::Char('k') | KeyCode::BackTab => {
                    match self.focus {
                        ActionsFocus::List => {
                            if let Some(i) = self.list_state.selected() {
                                if i == 1 {
                                    self.list_state.select(Some(0));
                                } else {
                                    self.focus = ActionsFocus::Previous;
                                    self.list_state.select(None);
                                }
                            } else {
                                self.list_state.select(Some(1));
                            }
                        },
                        ActionsFocus::Previous => self.focus = ActionsFocus::Next,
                        ActionsFocus::Next => {
                            self.focus = ActionsFocus::List;
                            self.list_state.select(Some(1));
                        },
                        _ => {},
                    }
                },
                KeyCode::Left | KeyCode::Char('h') | KeyCode::Right | KeyCode::Char('l') => {
                    if self.focus == ActionsFocus::Previous {
                        self.focus = ActionsFocus::Next;
                    } else if self.focus == ActionsFocus::Next {
                        self.focus = ActionsFocus::Previous;
                    }
                },
                KeyCode::Enter | KeyCode::Char(' ') => {
                    if self.focus == ActionsFocus::Previous {
                        self.action_trigger = Some("Previous".to_owned());
                        return true;
                    } else if self.focus == ActionsFocus::Next {
                        self.action_trigger = Some("Next".to_owned());
                        return true;
                    } else if let Some(i) = self.list_state.selected() {
                        if i == 0 {
                            self.init_git = !self.init_git;
                            if self.init_git {
                                self.focus = ActionsFocus::ModalGit;
                            }
                        } else if i == 1 {
                            self.bootstrap_flux = !self.bootstrap_flux;
                            if self.bootstrap_flux {
                                self.focus = ActionsFocus::ModalFlux;
                            }
                        }
                    }
                },
                KeyCode::Char('e') => {
                    if self.focus == ActionsFocus::List {
                        if let Some(i) = self.list_state.selected() {
                            if i == 0 && self.init_git {
                                self.focus = ActionsFocus::ModalGit;
                            } else if i == 1 && self.bootstrap_flux {
                                self.focus = ActionsFocus::ModalFlux;
                            }
                        }
                    }
                },
                _ => {},
            }
        }
        false
    }
}

/// The list and its buttons are in a state that the keys reach: on the list one of its two
/// rows is selected, on a button none is.
pub open spec fn screen_settled(s: ActionsView) -> bool {
    match s.focus {
        ActionsFocus::List => s.selected == Some(0usize) || s.selected == Some(1usize),
        ActionsFocus::Previous | ActionsFocus::Next => s.selected is None,
        _ => false,
    }
}

/// Up undoes Down on the actions screen, and Down undoes Up: Down goes from the first row
/// to the second, to Next, to Previous and back to the first row; Up goes the other way.
pub proof fn lemma_actions_up_down(s: ActionsView, down: KeyPress, up: KeyPress)
    requires
        screen_settled(s),
        down.code == KeyCode::Down,
        up.code == KeyCode::Up,
    ensures
        screen_settled(actions_key(s, down).0),
        actions_key(actions_key(s, down).0, up).0 == s,
        actions_key(actions_key(s, up).0, down).0 == s,
{
}

/// In a dialog, Up undoes Down and Down undoes Up, the Done row included.
pub proof fn lemma_modal_up_down(m: ModalView, down: KeyPress, up: KeyPress)
    requires
        m.current_input <= m.inputs.len() < usize::MAX,
        down.code == KeyCode::Down,
        up.code == KeyCode::Up,
    ensures
        modal_key(modal_key(m, down).0, up).0 == m,
        modal_key(modal_key(m, up).0, down).0 == m,
        !modal_key(m, down).1 && !modal_key(m, up).1,
{
}

/// In a dialog of `n` fields with the focus on a field or on Done (row `n`): the dialog
/// closes exactly on Esc, and on Enter with Done focused; afterwards the focus is still on
/// a field or on Done, and the fields, labels and title stay in number and name. Down and
/// Tab move to row `(c + 1) % (n + 1)`, Up and Shift-Tab to row `(c + n) % (n + 1)`, Enter on
/// a field to the next row; another key edits only the focused field, and only on a field.
pub proof fn lemma_modal_rows(m: ModalView, key: KeyPress)
    requires
        m.current_input <= m.inputs.len() < usize::MAX,
    ensures
        modal_key(m, key).1 == (key.code == KeyCode::Esc || (key.code == KeyCode::Enter && m.current_input == m.inputs.len())),
        modal_key(m, key).0.current_input <= m.inputs.len(),
        modal_key(m, key).0.inputs.len() == m.inputs.len(),
        modal_key(m, key).0.labels == m.labels,
        modal_key(m, key).0.title == m.title,
        (key.code == KeyCode::Down || key.code == KeyCode::Tab)
            ==> modal_key(m, key).0.current_input == (m.current_input + 1) % ((m.inputs.len() + 1) as int),
        (key.code == KeyCode::Up || key.code == KeyCode::BackTab)
            ==> modal_key(m, key).0.current_input == (m.current_input + m.inputs.len()) % ((m.inputs.len() + 1) as int),
        key.code == KeyCode::Enter && m.current_input < m.inputs.len()
            ==> modal_key(m, key).0.current_input == m.current_input + 1,
        !(key.code is Up || key.code is BackTab || key.code is Down || key.code is Tab || key.code is Enter || key.code is Esc)
            ==> modal_key(m, key).0 == (if m.current_input < m.inputs.len() {
                ModalView { inputs: edit_field(m.inputs, m.current_input as int, key), ..m }
            } else {
                m
            }),
{
    let n = m.inputs.len();
    let c = m.current_input as int;
    let d = (n + 1) as nat;
    if c + 1 < d {
        vstd::arithmetic::div_mod::lemma_small_mod((c + 1) as nat, d);
    } else {
        vstd::arithmetic::div_mod::lemma_mod_self_0(d as int);
    }
    if c > 0 {
        vstd::arithmetic::div_mod::lemma_mod_add_multiples_vanish(c - 1, d as int);
        vstd::arithmetic::div_mod::lemma_small_mod((c - 1) as nat, d);
        assert(c + n == d + (c - 1));
    } else {
        vstd::arithmetic::div_mod::lemma_small_mod(n, d);
    }
}

} // verus!
