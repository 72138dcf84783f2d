use vstd::prelude::*;
use crate::keys::{InputEvent, KeyCode, KeyPress};

verus! {

broadcast use vstd::string::group_string_axioms;

/// The buttons of the summary screen.
#[derive(Debug, Clone, Copy, PartialEq, Eq, Structural)]
pub enum SummaryFocus {
    Previous,
    Finish,
}

/// The buttons of the confirmation dialog.
#[derive(Debug, Clone, Copy, PartialEq, Eq, Structural)]
pub enum ConfirmFocus {
    Yes,
    No,
}

/// The summary screen: which button has the focus, the button last pressed
/// (`"Previous"` or `"Finish"`), and the dialog that asks to confirm.
#[derive(Debug)]
pub struct SummaryState {
    pub focus: SummaryFocus,
    pub action_trigger: Option<String>,
    pub confirm_modal: bool,
    pub confirm_focus: ConfirmFocus,
}

/// The view of an optional text.
pub open spec fn opt_text(o: Option<String>) -> Option<Seq<char>> {
    match o {
        Some(s) => Some(s@),
        None => None,
    }
}

impl SummaryState {
    /// A summary screen as `new` makes it.
    pub open spec fn is_fresh(&self) -> bool {
        &&& self.focus == SummaryFocus::Finish
        &&& self.action_trigger is None
        &&& !self.confirm_modal
        &&& self.confirm_focus == ConfirmFocus::No
    }

    /// Finish focused, no dialog, nothing pressed.
    pub fn new() -> (r: SummaryState)
        ensures
            r.is_fresh(),
    {
        SummaryState { focus: SummaryFocus::Finish, action_trigger: None, confirm_modal: false, confirm_focus: ConfirmFocus::No }
    }

    /// The state after `handle_event` from `prev` on `event`, with `pressed` the result.
    pub open spec fn after_event(&self, prev: &SummaryState, event: InputEvent, pressed: bool) -> bool {
        &&& match event {
                    InputEvent::Other => !pressed && self.focus == prev.focus
                        && opt_text(self.action_trigger) == opt_text(prev.action_trigger)
                        && self.confirm_modal == prev.confirm_modal && self.confirm_focus == prev.confirm_focus,
                    InputEvent::Key(key) => if prev.confirm_modal {
                        &&& self.focus == prev.focus
                        &&& match key.code {
                            KeyCode::Left | KeyCode::Char('h') => !pressed && self.confirm_modal && self.confirm_focus == ConfirmFocus::Yes
                                && opt_text(self.action_trigger) == opt_text(prev.action_trigger),
                            KeyCode::Right | KeyCode::Char('l') => !pressed && self.confirm_modal && self.confirm_focus == ConfirmFocus::No
                                && opt_text(self.action_trigger) == opt_text(prev.action_trigger),
                            KeyCode::Tab | KeyCode::BackTab => !pressed && self.confirm_modal
                                && self.confirm_focus == (if prev.confirm_focus == ConfirmFocus::Yes { ConfirmFocus::No } else { ConfirmFocus::Yes })
                                && opt_text(self.action_trigger) == opt_text(prev.action_trigger),
                            KeyCode::Enter | KeyCode::Char(' ') => if prev.confirm_focus == ConfirmFocus::Yes {
                                pressed && self.confirm_modal && self.confirm_focus == ConfirmFocus::Yes
                                    && opt_text(self.action_trigger) == Some("Finish"@)
                            } else {
                                !pressed && !self.confirm_modal && self.confirm_focus == prev.confirm_focus
                                    && opt_text(self.action_trigger) == opt_text(prev.action_trigger)
                            },
                            KeyCode::Esc => !pressed && !self.confirm_modal && self.confirm_focus == prev.confirm_focus
                                && opt_text(self.action_trigger) == opt_text(prev.action_trigger),
                            _ => !pressed && self.confirm_modal && self.confirm_focus == prev.confirm_focus
                                && opt_text(self.action_trigger) == opt_text(prev.action_trigger),
                        }
                    } else {
                        match key.code {
                            KeyCode::Left | KeyCode::Char('h') | KeyCode::Up => !pressed && self.focus == SummaryFocus::Previous
                                && !self.confirm_modal && self.confirm_focus == prev.confirm_focus
                                && opt_text(self.action_trigger) == opt_text(prev.action_trigger),
                            KeyCode::Right | KeyCode::Char('l') | KeyCode::Down => !pressed && self.focus == SummaryFocus::Finish
                                && !self.confirm_modal && self.confirm_focus == prev.confirm_focus
                                && opt_text(self.action_trigger) == opt_text(prev.action_trigger),
                            KeyCode::Tab | KeyCode::BackTab => !pressed
                                && self.focus == (if prev.focus == SummaryFocus::Previous { SummaryFocus::Finish } else { SummaryFocus::Previous })
                                && !self.confirm_modal && self.confirm_focus == prev.confirm_focus
                                && opt_text(self.action_trigger) == opt_text(prev.action_trigger),
                            KeyCode::Enter | KeyCode::Char(' ') => self.focus == prev.focus && if prev.focus == SummaryFocus::Previous {
                                pressed && !self.confirm_modal && self.confirm_focus == prev.confirm_focus
                                    && opt_text(self.action_trigger) == Some("Previous"@)
                            } else {
                                !pressed && self.confirm_modal && self.confirm_focus == ConfirmFocus::No
                                    && opt_text(self.action_trigger) == opt_text(prev.action_trigger)
                            },
                            _ => !pressed && self.focus == prev.focus && !self.confirm_modal
                                && self.confirm_focus == prev.confirm_focus
                                && opt_text(self.action_trigger) == opt_text(prev.action_trigger),
                        }
                    },
                }
    }

    /// In the dialog: Left/`h` chooses Yes, Right/`l` No, Tab and Shift-Tab switch; Enter or
    /// Space on Yes presses Finish (result `true`), on No closes the dialog; Esc closes it.
    /// On the screen: Left/`h`/Up focus Previous, Right/`l`/Down focus Finish, Tab and
    /// Shift-Tab switch; Enter or Space on Previous presses it (result `true`), on Finish
    /// opens the dialog with No chosen.
    pub fn handle_event(&mut self, event: &InputEvent) -> (pressed: bool)
        ensures
            final(self).after_event(old(self), *event, pressed),
    {
        if let InputEvent::Key(key) = event {
            if self.confirm_modal {
                match key.code {
                    KeyCode::Left | KeyCode::Char('h') => {
                        self.confirm_focus = ConfirmFocus::Yes;
                    },
                    KeyCode::Right | KeyCode::Char('l') => {
                        self.confirm_focus = ConfirmFocus::No;
                    },
                    KeyCode::Tab | KeyCode::BackTab => {
                        self.confirm_focus = if self.confirm_focus == ConfirmFocus::Yes {
                            ConfirmFocus::No
                        } else {
                            ConfirmFocus::Yes
                        };
                    },
                    KeyCode::Enter | KeyCode::Char(' ') => {
                        if self.confirm_focus == ConfirmFocus::Yes {
                            self.action_trigger = Some("Finish".to_owned());
                            return true;
                        } else {
                            self.confirm_modal = false;
                        }
                    },
                    KeyCode::Esc => {
                        self.confirm_modal = false;
                    },
                    _ => {},
                }
                return false;
            }
            match key.code {
                KeyCode::Left | KeyCode::Char('h') | KeyCode::Up => {
                    self.focus = SummaryFocus::Previous;
                },
                KeyCode::Right | KeyCode::Char('l') | KeyCode::Down => {
                    self.focus = SummaryFocus::Finish;
                },
                KeyCode::Tab | KeyCode::BackTab => {
                    self.focus = if self.focus == SummaryFocus::Previous {
                        SummaryFocus::Finish
                    } else {
                        SummaryFocus::Previous
                    };
                },
                KeyCode::Enter | KeyCode::Char(' ') => {
                    if self.focus == SummaryFocus::Previous {
                        self.action_trigger = Some("Previous".to_owned());
                        return true;
                    } else if self.focus == SummaryFocus::Finish {
                        self.confirm_modal = true;
                        self.confirm_focus = ConfirmFocus::No;
                    }
                },
                _ => {},
            }
        }
        false
    }
}

/// On the summary screen, with no dialog open, Tab twice (or Shift-Tab twice) comes back
/// to the button it started from, pressing nothing.
pub proof fn lemma_summary_tab_twice(s0: SummaryState, s1: SummaryState, s2: SummaryState, k1: KeyPress, k2: KeyPress, p1: bool, p2: bool)
    requires
        !s0.confirm_modal,
        k1.code == KeyCode::Tab || k1.code == KeyCode::BackTab,
        k2.code == KeyCode::Tab || k2.code == KeyCode::BackTab,
        s1.after_event(&s0, InputEvent::Key(k1), p1),
        s2.after_event(&s1, InputEvent::Key(k2), p2),
    ensures
        s2.focus == s0.focus,
        !p1 && !p2,
        !s2.confirm_modal,
        opt_text(s2.action_trigger) == opt_text(s0.action_trigger),
{
}

} // verus!
