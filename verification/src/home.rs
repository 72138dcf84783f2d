use vstd::prelude::*;
use crate::keys::{InputEvent, KeyCode};

verus! {

/// The buttons of the home screen.
#[derive(Debug, Clone, Copy, PartialEq, Eq, Structural)]
pub enum HomeOption {
    Start,
    EditConfig,
    Quit,
}

/// The home screen: the highlighted button, and the one last pressed.
#[derive(Debug)]
pub struct HomeState {
    pub selected: HomeOption,
    pub action_trigger: Option<HomeOption>,
}

/// The button above `o`, wrapping round from the first to the last.
pub open spec fn home_up(o: HomeOption) -> HomeOption {
    match o {
        HomeOption::Start => HomeOption::Quit,
        HomeOption::EditConfig => HomeOption::Start,
        HomeOption::Quit => HomeOption::EditConfig,
    }
}

/// The button below `o`, wrapping round from the last to the first.
pub open spec fn home_down(o: HomeOption) -> HomeOption {
    match o {
        HomeOption::Start => HomeOption::EditConfig,
        HomeOption::EditConfig => HomeOption::Quit,
        HomeOption::Quit => HomeOption::Start,
    }
}

impl HomeState {
    /// A home screen as `new` makes it.
    pub open spec fn is_fresh(&self) -> bool {
        &&& self.selected == HomeOption::Start
        &&& self.action_trigger is None
    }

    /// The home screen with Start highlighted.
    pub fn new() -> (r: HomeState)
        ensures
            r.is_fresh(),
    {
        HomeState { selected: HomeOption::Start, action_trigger: None }
    }

    /// The state after `handle_event` from `prev` on `event`, with `pressed` the result.
    pub open spec fn after_event(&self, prev: &HomeState, event: InputEvent, pressed: bool) -> bool {
        &&& match event {
                    InputEvent::Key(key) => match key.code {
                        KeyCode::Up | KeyCode::Char('k') => !pressed && self.selected == home_up(prev.selected)
                            && self.action_trigger == prev.action_trigger,
                        KeyCode::Down | KeyCode::Char('j') => !pressed && self.selected == home_down(prev.selected)
                            && self.action_trigger == prev.action_trigger,
                        KeyCode::Enter | KeyCode::Char(' ') => pressed && self.selected == prev.selected
                            && self.action_trigger == Some(prev.selected),
                        _ => !pressed && self.selected == prev.selected && self.action_trigger == prev.action_trigger,
                    },
                    InputEvent::Other => !pressed && self.selected == prev.selected
                        && self.action_trigger == prev.action_trigger,
                }
    }

    /// Up or `k` and Down or `j` move the highlight (wrapping round); Enter or Space presses
    /// the highlighted button, which is then the result `true`. Anything else does nothing.
    pub fn handle_event(&mut self, event: &InputEvent) -> (pressed: bool)
        ensures
            final(self).after_event(old(self), *event, pressed),
    {
        if let InputEvent::Key(key) = event {
            match key.code {
                KeyCode::Up | KeyCode::Char('k') => {
                    self.selected = match self.selected {
                        HomeOption::Start => HomeOption::Quit,
                        HomeOption::EditConfig => HomeOption::Start,
                        HomeOption::Quit => HomeOption::EditConfig,
                    };
                },
                KeyCode::Down | KeyCode::Char('j') => {
                    self.selected = match self.selected {
                        HomeOption::Start => HomeOption::EditConfig,
                        HomeOption::EditConfig => HomeOption::Quit,
                        HomeOption::Quit => HomeOption::Start,
                    };
                },
                KeyCode::Enter | KeyCode::Char(' ') => {
                    self.action_trigger = Some(self.selected);
                    return true;
                },
                _ => {},
            }
        }
        false
    }
}

/// Down undoes Up, and Up undoes Down; three moves the same way come back round.
pub proof fn lemma_home_moves(o: HomeOption)
    ensures
        home_down(home_up(o)) == o,
        home_up(home_down(o)) == o,
        home_up(home_up(home_up(o))) == o,
        home_down(home_down(home_down(o))) == o,
{
}

} // verus!
