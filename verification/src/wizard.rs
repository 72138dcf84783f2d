use vstd::prelude::*;
use crate::config::AppConfig;
use crate::input::{TextInput, tui_edit};
use crate::keys::{InputEvent, KeyCode, KeyPress};

verus! {

broadcast use vstd::string::group_string_axioms;

/// What the wizard asks of the program.
#[derive(Debug, Clone, Copy, PartialEq, Eq, Structural)]
pub enum WizardAction {
    NoAction,
    Next,
    Previous,
}

/// The wizard: its text fields and their labels, the focused row (the fields, then the
/// Next button, then the Previous button), the action asked for, and an error to show.
#[derive(Debug)]
pub struct WizardState {
    pub inputs: Vec<TextInput>,
    pub labels: Vec<&'static str>,
    pub current_input: usize,
    pub action: WizardAction,
    pub error_message: Option<String>,
}

/// The views of text fields.
pub open spec fn input_views(inputs: Seq<TextInput>) -> Seq<(Seq<char>, usize)> {
    inputs.map_values(|i: TextInput| i@)
}

/// The views of labels.
pub open spec fn label_views(labels: Seq<&'static str>) -> Seq<Seq<char>> {
    labels.map_values(|l: &'static str| l@)
}

/// A field holding `v` with the cursor at its end.
pub open spec fn filled(v: Seq<char>) -> (Seq<char>, usize) {
    (v, v.len() as usize)
}

/// The fields after `key` went to field `i`.
pub open spec fn edit_field(inputs: Seq<(Seq<char>, usize)>, i: int, key: KeyPress) -> Seq<(Seq<char>, usize)> {
    inputs.update(i, tui_edit(inputs[i].0, inputs[i].1, key))
}

/// Hands `key` to field `i`.
pub fn edit_input(inputs: &mut Vec<TextInput>, i: usize, key: &KeyPress)
    requires
        i < old(inputs)@.len(),
    ensures
        final(inputs)@.len() == old(inputs)@.len(),
        input_views(final(inputs)@) == edit_field(input_views(old(inputs)@), i as int, *key),
{
    let mut field = inputs[i].clone();
    field.handle_key(key);
    inputs.set(i, field);
    assert(input_views(inputs@) =~= edit_field(input_views(old(inputs)@), i as int, *key));
}

impl WizardState {
    /// A wizard as `new` makes it for `config`.
    pub open spec fn is_fresh_for(&self, config: &AppConfig) -> bool {
        &&& input_views(self.inputs@) == seq![
                filled(config.template_repo_url@),
                filled(config.base_dir_path@),
                filled(config.new_cluster_name@),
                filled(config.gitops_dir_path@),
            ]
        &&& label_views(self.labels@) == seq![
                "Template Git Repo URL"@,
                "Base Directory"@,
                "New Cluster Name"@,
                "GitOps Output Directory Path"@,
            ]
        &&& self.current_input == 0
        &&& self.action == WizardAction::NoAction
        &&& self.error_message is None
    }

    /// The wizard over the template repository, the base directory, the cluster's name
    /// and the GitOps directory of `config`, each with its cursor at the end; the first
    /// field focused.
    pub fn new(config: &AppConfig) -> (r: WizardState)
        ensures
            r.is_fresh_for(config),
    {
        let inputs = vec![
            TextInput::new(config.template_repo_url.clone()),
            TextInput::new(config.base_dir_path.clone()),
            TextInput::new(config.new_cluster_name.clone()),
            TextInput::new(config.gitops_dir_path.clone()),
        ];
        let labels: Vec<&'static str> = vec![
            "Template Git Repo URL",
            "Base Directory",
            "New Cluster Name",
            "GitOps Output Directory Path",
        ];
        let r = WizardState { inputs, labels, current_input: 0, action: WizardAction::NoAction, error_message: None };
        assert(input_views(r.inputs@) =~= seq![
            filled(config.template_repo_url@),
            filled(config.base_dir_path@),
            filled(config.new_cluster_name@),
            filled(config.gitops_dir_path@),
        ]);
        assert(label_views(r.labels@) =~= seq![
            "Template Git Repo URL"@,
            "Base Directory"@,
            "New Cluster Name"@,
            "GitOps Output Directory Path"@,
        ]);
        r
    }

    /// The state after `handle_event` from `prev` on `event`, with `quit` the result.
    pub open spec fn after_event(&self, prev: &WizardState, event: InputEvent, quit: bool) -> bool {
        &&& label_views(self.labels@) == label_views(prev.labels@)
        &&& self.inputs@.len() == prev.inputs@.len()
        &&& ({
                    let n = prev.inputs@.len();
                    let cur = prev.current_input;
                    let ins = input_views(prev.inputs@);
                    let same_rest = self.error_message == prev.error_message;
                    match event {
                        InputEvent::Other => !quit && input_views(self.inputs@) == ins && self.current_input == cur
                            && self.action == prev.action && same_rest,
                        InputEvent::Key(key) => if prev.error_message is Some {
                            !quit && self.error_message is None && input_views(self.inputs@) == ins
                                && self.current_input == cur && self.action == prev.action
                        } else if key.spec_is_ctrl_c() {
                            quit && input_views(self.inputs@) == ins && self.current_input == cur
                                && self.action == prev.action && same_rest
                        } else {
                            !quit && same_rest && match key.code {
                                KeyCode::Up | KeyCode::BackTab => input_views(self.inputs@) == ins && self.action == prev.action
                                    && self.current_input == (if cur > 0 { (cur - 1) as usize } else { (n + 1) as usize }),
                                KeyCode::Down | KeyCode::Tab => input_views(self.inputs@) == ins && self.action == prev.action
                                    && self.current_input == (if cur < n + 1 { (cur + 1) as usize } else { 0 }),
                                KeyCode::Left | KeyCode::Right => self.action == prev.action && if cur >= n {
                                    input_views(self.inputs@) == ins
                                        && self.current_input == (if cur == n { (n + 1) as usize } else { n as usize })
                                } else {
                                    input_views(self.inputs@) == edit_field(ins, cur as int, key) && self.current_input == cur
                                },
                                KeyCode::Enter => input_views(self.inputs@) == ins && if cur == n {
                                    self.action == WizardAction::Next && self.current_input == cur
                                } else if cur == n + 1 {
                                    self.action == WizardAction::Previous && self.current_input == cur
                                } else {
                                    self.action == prev.action && self.current_input == cur + 1
                                },
                                _ => self.action == prev.action && self.current_input == cur && if cur < n {
                                    input_views(self.inputs@) == edit_field(ins, cur as int, key)
                                } else {
                                    input_views(self.inputs@) == ins
                                },
                            }
                        },
                    }
                })
    }

    /// The rows past the fields cannot be counted in a `usize` for what `event` does: with no
    /// error shown and no Control-C, a move or a press that reaches the row after Next
    /// when there are `usize::MAX` fields, or Enter on a field at `usize::MAX`.
    pub open spec fn overflows_on(&self, event: InputEvent) -> bool {
        let n = self.inputs@.len();
        let cur = self.current_input;
        match event {
            InputEvent::Key(key) => self.error_message is None && !key.spec_is_ctrl_c() && match key.code {
                KeyCode::Up | KeyCode::BackTab => cur == 0 && n == usize::MAX,
                KeyCode::Down | KeyCode::Tab => n == usize::MAX,
                KeyCode::Left | KeyCode::Right => cur == n && n == usize::MAX,
                KeyCode::Enter => cur != n && (n == usize::MAX || (cur != n + 1 && cur == usize::MAX)),
                _ => false,
            },
            InputEvent::Other => false,
        }
    }

    /// A key, when an error is shown, only dismisses it. Control-C asks to quit (result
    /// `true`). Up and Shift-Tab move to the previous row, Down and Tab to the next (both
    /// wrapping round); Left and Right switch between the buttons, or edit the focused
    /// field; Enter on Next or Previous asks for that action, on a field moves to the next
    /// row; other keys edit the focused field.
    pub fn handle_event(&mut self, event: &InputEvent) -> (quit: bool)
        requires
            !old(self).overflows_on(*event),
        ensures
            final(self).after_event(old(self), *event, quit),
    {
        if let InputEvent::Key(key) = event {
            if self.error_message.is_some() {
                self.error_message = None;
                return false;
            }
            if key.is_ctrl_c() {
                return true;
            }
            let n = self.inputs.len();
            match key.code {
                KeyCode::Up | KeyCode::BackTab => {
                    if self.current_input > 0 {
                        self.current_input = self.current_input - 1;
                    } else {
                        self.current_input = n + 1;
                    }
                },
                KeyCode::Down | KeyCode::Tab => {
                    if self.current_input <= n {
                        self.current_input = self.current_input + 1;
                    } else {
                        self.current_input = 0;
                    }
                },
                KeyCode::Left | KeyCode::Right => {
                    if self.current_input >= n {
                        if self.current_input == n {
                            self.current_input = n + 1;
                        } else {
                            self.current_input = n;
                        }
                    } else {
                        edit_input(&mut self.inputs, self.current_input, key);
                    }
                },
                KeyCode::Enter => {
                    if self.current_input == n {
                        self.action = WizardAction::Next;
                    } else if self.current_input > n && self.current_input - 1 == n {
                        self.action = WizardAction::Previous;
                    } else {
                        self.current_input = self.current_input + 1;
                    }
                },
                _ => {
                    if self.current_input < n {
                        edit_input(&mut self.inputs, self.current_input, key);
                    }
                },
            }
        }
        false
    }
}

/// In the wizard, with no error shown, Up undoes Down and Down undoes Up over the fields
/// and both buttons; neither touches the fields or the pending action.
pub proof fn lemma_wizard_up_down(w0: WizardState, w1: WizardState, w2: WizardState, first: KeyPress, second: KeyPress)
    requires
        w0.error_message is None,
        w0.current_input <= w0.inputs@.len() + 1,
        w0.inputs@.len() + 1 < usize::MAX,
        (first.code == KeyCode::Down && second.code == KeyCode::Up) || (first.code == KeyCode::Up && second.code == KeyCode::Down),
        !first.spec_is_ctrl_c(),
        !second.spec_is_ctrl_c(),
        w1.after_event(&w0, InputEvent::Key(first), false),
        w2.after_event(&w1, InputEvent::Key(second), false),
    ensures
        w2.current_input == w0.current_input,
        input_views(w2.inputs@) == input_views(w0.inputs@),
        w2.action == w0.action,
        w2.error_message == w0.error_message,
{
}

/// In the wizard, with no error shown and the focus on one of its `n` fields or on Next
/// (row `n`) or Previous (row `n + 1`): Control-C, and nothing else, asks to quit and
/// changes nothing; any other key keeps the focus on one of those rows and the number of
/// fields. Down and Tab move to row `(c + 1) % (n + 2)`, Up and Shift-Tab to row
/// `(c + n + 1) % (n + 2)`; Enter asks for Next on row `n`, for Previous on row `n + 1`, and
/// on a field moves to the next row; Left and Right on a button switch the buttons.
pub proof fn lemma_wizard_rows(w0: WizardState, w1: WizardState, key: KeyPress, quit: bool)
    requires
        w0.error_message is None,
        w0.current_input <= w0.inputs@.len() + 1,
        w0.inputs@.len() + 1 < usize::MAX,
        w1.after_event(&w0, InputEvent::Key(key), quit),
    ensures
        quit == key.spec_is_ctrl_c(),
        quit ==> w1.current_input == w0.current_input && w1.action == w0.action
            && input_views(w1.inputs@) == input_views(w0.inputs@) && w1.error_message == w0.error_message,
        w1.inputs@.len() == w0.inputs@.len(),
        w1.current_input <= w0.inputs@.len() + 1,
        !quit && (key.code == KeyCode::Down || key.code == KeyCode::Tab)
            ==> w1.current_input == (w0.current_input + 1) % ((w0.inputs@.len() + 2) as int),
        !quit && (key.code == KeyCode::Up || key.code == KeyCode::BackTab)
            ==> w1.current_input == (w0.current_input + w0.inputs@.len() + 1) % ((w0.inputs@.len() + 2) as int),
        !quit && key.code == KeyCode::Enter ==> if w0.current_input == w0.inputs@.len() {
            w1.action == WizardAction::Next && w1.current_input == w0.current_input
        } else if w0.current_input == w0.inputs@.len() + 1 {
            w1.action == WizardAction::Previous && w1.current_input == w0.current_input
        } else {
            w1.action == w0.action && w1.current_input == w0.current_input + 1
        },
        !quit && (key.code == KeyCode::Left || key.code == KeyCode::Right) && w0.current_input >= w0.inputs@.len()
            ==> w1.current_input == (if w0.current_input == w0.inputs@.len() {
                w0.inputs@.len() + 1
            } else {
                w0.inputs@.len()
            }),
{
    let n = w0.inputs@.len();
    let c = w0.current_input as int;
    let m = (n + 2) as nat;
    if c + 1 < m {
        vstd::arithmetic::div_mod::lemma_small_mod((c + 1) as nat, m);
    } else {
        vstd::arithmetic::div_mod::lemma_mod_self_0(m as int);
    }
    if c > 0 {
        vstd::arithmetic::div_mod::lemma_mod_add_multiples_vanish(c - 1, m as int);
        vstd::arithmetic::div_mod::lemma_small_mod((c - 1) as nat, m);
        assert(c + n + 1 == m + (c - 1));
    } else {
        vstd::arithmetic::div_mod::lemma_small_mod((n + 1) as nat, m);
    }
}

} // verus!
