use vstd::prelude::*;
use vstd::view::View as _;
use crate::actions::{ActionsFocus, ActionsState, actions_key, flux_fields_ok, modal_ok};
use crate::collections::{PathMap, PathSet};
use crate::config::{AppConfig, AppConfigView};
use crate::explorer::{ExplorerFocus, ExplorerState};
use crate::home::{HomeOption, HomeState};
use crate::keys::{InputEvent, KeyCode, KeyPress};
use crate::listing::{DirListing, listing_ok};
use crate::paths::{expand_home, expand_home_path, join_path, path_join};
use crate::summary::{ConfirmFocus, SummaryFocus, SummaryState, opt_text};
use crate::text::str_eq;
use crate::wizard::{WizardAction, WizardState, input_views, label_views};

verus! {

broadcast use vstd::string::group_string_axioms;

/// The screen on show.
#[derive(Debug)]
pub enum View {
    Home(HomeState),
    Wizard(WizardState),
    Loading,
    Explorer(ExplorerState),
    Actions(ActionsState),
    Summary(SummaryState),
}

/// The program between two events: the screen, the settings, what the component and
/// actions screens left behind when the user moved on, and whether to quit and to
/// generate on leaving.
#[derive(Debug)]
pub struct App {
    pub should_quit: bool,
    pub view: View,
    pub config: AppConfig,
    pub pending_generation: Option<(PathSet, PathMap)>,
    pub pending_actions: Option<ActionsState>,
    pub saved_explorer_state: Option<ExplorerState>,
    pub execute_generation: bool,
}

/// The work outside that an event asks for before the next one is read.
#[derive(Debug)]
pub enum Effect {
    /// None: draw the screen again.
    Redraw,
    /// Open the settings file in the user's editor, then reload it (`config_reloaded`).
    EditConfig,
    /// See whether `target_dir` exists, and report it (`target_checked`).
    CheckTarget,
    /// Save the settings, show the screen, clone or pull the templates and report
    /// (`explorer_root`, then `repo_ready` or `repo_failed`).
    SyncRepo,
    /// Save the settings.
    SaveConfig,
    /// Let the user edit the Helm values of the component at `path`: `current` if there
    /// are any, else those of the chart in `chart_dir`; then report (`values_edited`).
    EditValues { path: String, chart_dir: String, current: Option<String> },
}

/// Enter or Space.
pub open spec fn is_press(key: KeyPress) -> bool {
    key.code == KeyCode::Enter || key.code == KeyCode::Char(' ')
}

/// The screens hold what their handlers need: a wizard of four fields with no action
/// pending, a component screen whose rows match its tree (a tree with the paths of
/// `paths_ok`), actions whose dialogs are in shape, the Flux dialog with its five fields.
pub open spec fn screen_ok(v: View) -> bool {
    match v {
        View::Wizard(w) => w.inputs@.len() == 4 && w.current_input <= 5 && w.action == WizardAction::NoAction,
        View::Explorer(e) => e.wf() && e.tree_paths_ok(),
        View::Actions(a) => modal_ok(a.flux_modal) && modal_ok(a.git_modal) && flux_fields_ok(a.flux_modal),
        _ => true,
    }
}

/// Everything but the screen and whether to quit is as in `prev`.
pub open spec fn keeps_rest(prev: &App, next: &App) -> bool {
    &&& next.config == prev.config
    &&& next.pending_generation == prev.pending_generation
    &&& next.pending_actions == prev.pending_actions
    &&& next.saved_explorer_state == prev.saved_explorer_state
    &&& next.execute_generation == prev.execute_generation
}

/// Only the screen changed, and nothing is to be done outside.
pub open spec fn stays(prev: &App, next: &App, eff: Effect) -> bool {
    &&& next.should_quit == prev.should_quit
    &&& keeps_rest(prev, next)
    &&& eff is Redraw
}

/// The settings after Next in the wizard: its four fields, in order, give the template
/// repository, the base directory, the cluster's name and the GitOps directory.
pub open spec fn wizard_config(c: AppConfigView, fields: Seq<(Seq<char>, usize)>) -> AppConfigView {
    AppConfigView {
        template_repo_url: fields[0].0,
        base_dir_path: fields[1].0,
        new_cluster_name: fields[2].0,
        gitops_dir_path: fields[3].0,
        ..c
    }
}

/// The settings after Next on the actions screen: the two choices, and the Flux dialog's
/// URL, branch, kubeconfig and SSH key (its first, second, fourth and fifth fields).
pub open spec fn actions_config(c: AppConfigView, a: ActionsState) -> AppConfigView {
    let c2 = AppConfigView { init_git: a.init_git, bootstrap_flux: a.bootstrap_flux, ..c };
    match a.flux_modal {
        Some(m) => AppConfigView {
            flux_git_url: m@.inputs[0].0,
            flux_git_branch: m@.inputs[1].0,
            flux_kubeconfig: m@.inputs[3].0,
            flux_ssh_key_path: m@.inputs[4].0,
            ..c2
        },
        None => c2,
    }
}

/// A key on the home screen: pressing Start opens a fresh wizard, pressing Edit Config
/// asks for the editor (and clears the pressed button), pressing Quit quits; other keys
/// go to the screen.
pub open spec fn home_step(prev: &App, next: &App, h: HomeState, key: KeyPress, eff: Effect) -> bool {
    if is_press(key) {
        match h.selected {
            HomeOption::Start => next.view matches View::Wizard(w) && w.is_fresh_for(&prev.config) && stays(prev, next, eff),
            HomeOption::EditConfig => next.view matches View::Home(h2) && h2.selected == h.selected
                && h2.action_trigger is None && next.should_quit == prev.should_quit && keeps_rest(prev, next)
                && eff is EditConfig,
            HomeOption::Quit => next.view matches View::Home(h2) && h2.selected == h.selected
                && h2.action_trigger == Some(HomeOption::Quit) && next.should_quit && keeps_rest(prev, next)
                && eff is Redraw,
        }
    } else {
        next.view matches View::Home(h2) && h2.after_event(&h, InputEvent::Key(key), false) && stays(prev, next, eff)
    }
}

/// A key in the wizard: Enter on Previous goes home; Enter on Next takes the fields into
/// the settings and asks to check the target directory; other keys go to the wizard.
pub open spec fn wizard_step(prev: &App, next: &App, w: WizardState, key: KeyPress, eff: Effect) -> bool {
    if w.error_message is None && key.code == KeyCode::Enter && w.current_input == 5 {
        next.view matches View::Home(h) && h.is_fresh() && stays(prev, next, eff)
    } else if w.error_message is None && key.code == KeyCode::Enter && w.current_input == 4 {
        &&& next.view matches View::Wizard(w2)
        &&& label_views(w2.labels@) == label_views(w.labels@)
        &&& input_views(w2.inputs@) == input_views(w.inputs@)
        &&& w2.inputs@.len() == w.inputs@.len()
        &&& w2.current_input == w.current_input
        &&& w2.action == WizardAction::NoAction
        &&& w2.error_message is None
        &&& next.config@ == wizard_config(prev.config@, input_views(w.inputs@))
        &&& next.should_quit == prev.should_quit
        &&& next.pending_generation == prev.pending_generation
        &&& next.pending_actions == prev.pending_actions
        &&& next.saved_explorer_state == prev.saved_explorer_state
        &&& next.execute_generation == prev.execute_generation
        &&& eff is CheckTarget
    } else {
        next.view matches View::Wizard(w2) && w2.after_event(&w, InputEvent::Key(key), false) && stays(prev, next, eff)
    }
}

/// The component screen is unchanged, and so is the rest.
pub open spec fn explorer_same(prev: &App, next: &App, eff: Effect) -> bool {
    next.view == prev.view && stays(prev, next, eff)
}

/// A key on the component screen with no preview or error shown.
pub open spec fn explorer_key(prev: &App, next: &App, e: ExplorerState, key: KeyPress, eff: Effect) -> bool {
    match key.code {
        KeyCode::Char('q') => next.view == prev.view && next.should_quit && keeps_rest(prev, next) && eff is Redraw,
        KeyCode::Down | KeyCode::Char('j') => next.view matches View::Explorer(e2) && e2.after_down(&e) && stays(prev, next, eff),
        KeyCode::Up | KeyCode::Char('k') => next.view matches View::Explorer(e2) && e2.after_up(&e) && stays(prev, next, eff),
        KeyCode::Left | KeyCode::Char('h') => next.view matches View::Explorer(e2) && e2.after_left(&e) && stays(prev, next, eff),
        KeyCode::Right | KeyCode::Char('l') => next.view matches View::Explorer(e2) && e2.after_right(&e) && stays(prev, next, eff),
        KeyCode::Tab => next.view matches View::Explorer(e2) && e2.after_tab(&e) && stays(prev, next, eff),
        KeyCode::BackTab => next.view matches View::Explorer(e2) && e2.after_backtab(&e) && stays(prev, next, eff),
        KeyCode::Enter | KeyCode::Char(' ') => if e.focus == ExplorerFocus::Previous {
            next.view matches View::Wizard(w) && w.is_fresh_for(&prev.config) && stays(prev, next, eff)
        } else if e.focus == ExplorerFocus::Next {
            &&& next.view matches View::Actions(a) && a.is_fresh_for(&prev.config)
            &&& next.pending_generation matches Some(g) && g.0@ == e.checked_paths@ && g.0.order() == e.checked_paths.order()
                && g.1@ == e.customized_paths@ && g.1.key_order() == e.customized_paths.key_order()
            &&& next.saved_explorer_state == Some(e)
            &&& next.config == prev.config
            &&& next.pending_actions == prev.pending_actions
            &&& next.execute_generation == prev.execute_generation
            &&& next.should_quit == prev.should_quit
            &&& eff is Redraw
        } else {
            match e.current() {
                Some(item) => next.view matches View::Explorer(e2) && (if item.is_leaf {
                    e2.after_toggle_current(&e)
                } else {
                    e2.after_toggle_expand(&e)
                }) && stays(prev, next, eff),
                None => explorer_same(prev, next, eff),
            }
        },
        KeyCode::Char('p') => match e.current() {
            Some(item) => if e.focus == ExplorerFocus::Tree && e.customized_paths@.contains_key(item.path@) {
                &&& next.view matches View::Explorer(e2)
                &&& e2 == ExplorerState { preview_content: e2.preview_content, ..e }
                &&& e2.preview_content matches Some(p) && p@ == e.customized_paths@[item.path@]
                &&& stays(prev, next, eff)
            } else {
                explorer_same(prev, next, eff)
            },
            None => explorer_same(prev, next, eff),
        },
        KeyCode::Char('e') => match e.current() {
            Some(item) => if e.focus != ExplorerFocus::Tree {
                explorer_same(prev, next, eff)
            } else if item.is_leaf && item.is_helm {
                &&& next.view == prev.view
                &&& next.should_quit == prev.should_quit
                &&& keeps_rest(prev, next)
                &&& eff matches Effect::EditValues { path, chart_dir, current }
                &&& path@ == item.path@
                &&& chart_dir@ == join_path(e.root_path@, item.path@)
                &&& opt_text(current) == (if e.customized_paths@.contains_key(item.path@) {
                    Some(e.customized_paths@[item.path@])
                } else {
                    None
                })
            } else {
                &&& next.view matches View::Explorer(e2)
                &&& e2 == ExplorerState { error_message: e2.error_message, ..e }
                &&& opt_text(e2.error_message) == Some("Component is not editable (Not a Helm Release)"@)
                &&& stays(prev, next, eff)
            },
            None => explorer_same(prev, next, eff),
        },
        KeyCode::Char('u') => next.view matches View::Explorer(e2) && e2.after_undo(&e) && stays(prev, next, eff),
        KeyCode::Char('c') => next.view == prev.view && next.should_quit == prev.should_quit && keeps_rest(prev, next)
            && eff is EditConfig,
        _ => explorer_same(prev, next, eff),
    }
}

/// A key on the component screen: with a preview or an error shown it only closes it.
pub open spec fn explorer_step(prev: &App, next: &App, e: ExplorerState, key: KeyPress, eff: Effect) -> bool {
    if e.preview_content is Some {
        next.view == View::Explorer(ExplorerState { preview_content: None, ..e }) && stays(prev, next, eff)
    } else if e.error_message is Some {
        next.view == View::Explorer(ExplorerState { error_message: None, ..e }) && stays(prev, next, eff)
    } else {
        explorer_key(prev, next, e, key, eff)
    }
}

/// A key on the actions screen: pressing Next takes the choices into the settings, keeps
/// the screen and moves to a fresh summary (asking to save the settings); pressing
/// Previous goes back to the component screen left behind (or quits if there is none);
/// other keys go to the screen.
pub open spec fn actions_step(prev: &App, next: &App, a: ActionsState, key: KeyPress, eff: Effect) -> bool {
    let (s2, pressed) = actions_key(a@, key);
    if pressed && s2.action_trigger == Some("Next"@) {
        &&& next.view matches View::Summary(s) && s.is_fresh()
        &&& next.pending_actions matches Some(a2) && a2@ == s2
        &&& next.config@ == actions_config(prev.config@, a)
        &&& next.pending_generation == prev.pending_generation
        &&& next.saved_explorer_state == prev.saved_explorer_state
        &&& next.execute_generation == prev.execute_generation
        &&& next.should_quit == prev.should_quit
        &&& eff is SaveConfig
    } else if pressed && s2.action_trigger == Some("Previous"@) {
        match prev.saved_explorer_state {
            Some(e) => {
                &&& next.view == View::Explorer(e)
                &&& next.saved_explorer_state is None
                &&& next.config == prev.config
                &&& next.pending_generation == prev.pending_generation
                &&& next.pending_actions == prev.pending_actions
                &&& next.execute_generation == prev.execute_generation
                &&& next.should_quit == prev.should_quit
                &&& eff is Redraw
            },
            None => next.view matches View::Actions(a2) && a2@ == s2 && next.should_quit && keeps_rest(prev, next)
                && eff is Redraw,
        }
    } else {
        next.view matches View::Actions(a2) && a2@ == s2 && stays(prev, next, eff)
    }
}

/// A key on the summary: Finish confirmed asks to generate and quits; Previous goes back
/// to the actions screen left behind; other keys go to the screen.
pub open spec fn summary_step(prev: &App, next: &App, s: SummaryState, key: KeyPress, eff: Effect) -> bool {
    if s.confirm_modal && s.confirm_focus == ConfirmFocus::Yes && is_press(key) {
        &&& next.view matches View::Summary(s2) && s2.after_event(&s, InputEvent::Key(key), true)
        &&& next.execute_generation
        &&& next.should_quit
        &&& next.config == prev.config
        &&& next.pending_generation == prev.pending_generation
        &&& next.pending_actions == prev.pending_actions
        &&& next.saved_explorer_state == prev.saved_explorer_state
        &&& eff is Redraw
    } else if !s.confirm_modal && s.focus == SummaryFocus::Previous && is_press(key) {
        match prev.pending_actions {
            Some(a) => {
                &&& next.view == View::Actions(a)
                &&& next.pending_actions is None
                &&& next.config == prev.config
                &&& next.pending_generation == prev.pending_generation
                &&& next.saved_explorer_state == prev.saved_explorer_state
                &&& next.execute_generation == prev.execute_generation
                &&& next.should_quit == prev.should_quit
                &&& eff is Redraw
            },
            None => next.view matches View::Summary(s2) && s2.after_event(&s, InputEvent::Key(key), true) && stays(prev, next, eff),
        }
    } else {
        next.view matches View::Summary(s2) && s2.after_event(&s, InputEvent::Key(key), false) && stays(prev, next, eff)
    }
}

/// After Next in the wizard and the check of the target directory `target`: if it exists
/// the wizard says so, otherwise the loading screen comes up and the templates are to be
/// fetched.
pub open spec fn checked_step(prev: &App, next: &App, target: Seq<char>, exists: bool, eff: Effect) -> bool {
    if exists {
        &&& next.view matches View::Wizard(w2)
        &&& prev.view matches View::Wizard(w)
        &&& w2 == WizardState { error_message: w2.error_message, ..w }
        &&& opt_text(w2.error_message) == Some("Directory already exists:\n"@ + target)
        &&& eff is Redraw
    } else {
        next.view is Loading && eff is SyncRepo
    }
}

/// A key other than Control-C, by the screen on show.
pub open spec fn app_step(prev: &App, next: &App, key: KeyPress, eff: Effect) -> bool {
    match prev.view {
        View::Home(h) => home_step(prev, next, h, key, eff),
        View::Wizard(w) => wizard_step(prev, next, w, key, eff),
        View::Loading => *next == *prev && eff is Redraw,
        View::Explorer(e) => explorer_step(prev, next, e, key, eff),
        View::Actions(a) => actions_step(prev, next, a, key, eff),
        View::Summary(s) => summary_step(prev, next, s, key, eff),
    }
}

/// What `handle_event` does with `event` from `prev`, giving `next` and the work `eff`:
/// events other than keys change nothing; Control-C quits from every screen, changing
/// nothing else; other keys go to the screen on show (see `app_step`).
pub open spec fn app_transition(prev: App, next: App, event: InputEvent, eff: Effect) -> bool {
    match event {
        InputEvent::Other => next == prev && (eff is Redraw),
        InputEvent::Key(key) => if key.spec_is_ctrl_c() {
            next.should_quit && next.view == prev.view && keeps_rest(&prev, &next) && (eff is Redraw)
        } else {
            app_step(&prev, &next, key, eff)
        },
    }
}

/// `event` confirms Finish: Enter or Space (not Control-C) on the summary's confirmation
/// dialog with Yes focused.
pub open spec fn confirms_finish(app: App, event: InputEvent) -> bool {
    &&& event matches InputEvent::Key(key)
    &&& !key.spec_is_ctrl_c()
    &&& is_press(key)
    &&& app.view matches View::Summary(s)
    &&& s.confirm_modal
    &&& s.confirm_focus == ConfirmFocus::Yes
}

impl App {
    /// The screens and what they left behind are in shape.
    pub open spec fn app_ok(&self) -> bool {
        &&& screen_ok(self.view)
        &&& (self.pending_actions matches Some(a) ==> modal_ok(a.flux_modal) && modal_ok(a.git_modal)
            && flux_fields_ok(a.flux_modal))
        &&& (self.saved_explorer_state matches Some(e) ==> e.wf() && e.tree_paths_ok())
    }

    /// The home screen, with `config`, and nothing left behind.
    pub fn new(config: AppConfig) -> (r: App)
        ensures
            !r.should_quit,
            r.view matches View::Home(h) && h.is_fresh(),
            r.config == config,
            r.pending_generation is None,
            r.pending_actions is None,
            r.saved_explorer_state is None,
            !r.execute_generation,
            r.app_ok(),
    {
        App {
            should_quit: false,
            view: View::Home(HomeState::new()),
            config,
            pending_generation: None,
            pending_actions: None,
            saved_explorer_state: None,
            execute_generation: false,
        }
    }

    /// Hands an event to the program (see `app_transition`). The result is the work to do
    /// outside before the next event.
    pub fn handle_event(&mut self, event: &InputEvent) -> (eff: Effect)
        requires
            old(self).app_ok(),
        ensures
            final(self).app_ok(),
            app_transition(*old(self), *final(self), *event, eff),
    {
        let key = match event {
            InputEvent::Key(k) => *k,
            InputEvent::Other => {
                return Effect::Redraw;
            },
        };
        if key.is_ctrl_c() {
            self.should_quit = true;
            return Effect::Redraw;
        }
        let ghost prev = *self;
        let mut view = View::Loading;
        std::mem::swap(&mut self.view, &mut view);
        match view {
            View::Home(h) => self.on_home(h, &key, Ghost(prev)),
            View::Wizard(w) => self.on_wizard(w, &key, Ghost(prev)),
            View::Loading => Effect::Redraw,
            View::Explorer(e) => self.on_explorer(e, &key, Ghost(prev)),
            View::Actions(a) => self.on_actions(a, &key, Ghost(prev)),
            View::Summary(s) => self.on_summary(s, &key, Ghost(prev)),
        }
    }

    fn on_home(&mut self, h: HomeState, key: &KeyPress, Ghost(prev): Ghost<App>) -> (eff: Effect)
        requires
            prev.view == View::Home(h),
            prev.app_ok(),
            *old(self) == (App { view: View::Loading, ..prev }),
        ensures
            home_step(&prev, final(self), h, *key, eff),
            final(self).app_ok(),
    {
        let mut h = h;
        let pressed = h.handle_event(&InputEvent::Key(*key));
        if pressed {
            match h.action_trigger {
                Some(HomeOption::Start) => {
                    let w = WizardState::new(&self.config);
                    proof { assert(w.inputs@.len() == input_views(w.inputs@).len()); }
                    self.view = View::Wizard(w);
                    return Effect::Redraw;
                },
                Some(HomeOption::EditConfig) => {
                    h.action_trigger = None;
                    self.view = View::Home(h);
                    return Effect::EditConfig;
                },
                Some(HomeOption::Quit) => {
                    self.should_quit = true;
                },
                None => {},
            }
        }
        self.view = View::Home(h);
        Effect::Redraw
    }

    fn on_wizard(&mut self, w: WizardState, key: &KeyPress, Ghost(prev): Ghost<App>) -> (eff: Effect)
        requires
            prev.view == View::Wizard(w),
            prev.app_ok(),
            !key.spec_is_ctrl_c(),
            *old(self) == (App { view: View::Loading, ..prev }),
        ensures
            wizard_step(&prev, final(self), w, *key, eff),
            final(self).app_ok(),
    {
        let mut w = w;
        let quit = w.handle_event(&InputEvent::Key(*key));
        if quit {
            self.should_quit = true;
            self.view = View::Wizard(w);
            return Effect::Redraw;
        }
        if w.action == WizardAction::Previous {
            self.view = View::Home(HomeState::new());
            return Effect::Redraw;
        }
        if w.action == WizardAction::Next {
            w.action = WizardAction::NoAction;
            self.config.template_repo_url = w.inputs[0].value().to_owned();
            self.config.base_dir_path = w.inputs[1].value().to_owned();
            self.config.new_cluster_name = w.inputs[2].value().to_owned();
            self.config.gitops_dir_path = w.inputs[3].value().to_owned();
            self.view = View::Wizard(w);
            return Effect::CheckTarget;
        }
        self.view = View::Wizard(w);
        Effect::Redraw
    }

    fn on_explorer(&mut self, e: ExplorerState, key: &KeyPress, Ghost(prev): Ghost<App>) -> (eff: Effect)
        requires
            prev.view == View::Explorer(e),
            prev.app_ok(),
            *old(self) == (App { view: View::Loading, ..prev }),
        ensures
            explorer_step(&prev, final(self), e, *key, eff),
            final(self).app_ok(),
    {
        let mut e = e;
        let rows = e.flat_list.len();
        if e.preview_content.is_some() {
            e.preview_content = None;
            self.view = View::Explorer(e);
            return Effect::Redraw;
        }
        if e.error_message.is_some() {
            e.error_message = None;
            self.view = View::Explorer(e);
            return Effect::Redraw;
        }
        match key.code {
            KeyCode::Char('q') => {
                self.should_quit = true;
            },
            KeyCode::Down | KeyCode::Char('j') => e.handle_down(),
            KeyCode::Up | KeyCode::Char('k') => e.handle_up(),
            KeyCode::Left | KeyCode::Char('h') => e.handle_left(),
            KeyCode::Right | KeyCode::Char('l') => e.handle_right(),
            KeyCode::Tab => e.handle_tab(),
            KeyCode::BackTab => e.handle_backtab(),
            KeyCode::Enter | KeyCode::Char(' ') => {
                if e.focus == ExplorerFocus::Previous {
                    let w = WizardState::new(&self.config);
                    proof { assert(w.inputs@.len() == input_views(w.inputs@).len()); }
                    self.view = View::Wizard(w);
                    return Effect::Redraw;
                } else if e.focus == ExplorerFocus::Next {
                    self.pending_generation = Some((e.checked_paths.clone(), e.customized_paths.clone()));
                    self.saved_explorer_state = Some(e);
                    self.view = View::Actions(ActionsState::new(&self.config));
                    return Effect::Redraw;
                } else if let Some(idx) = e.list_state.selected() {
                    if idx < e.flat_list.len() {
                        if e.flat_list[idx].is_leaf {
                            e.toggle_current();
                        } else {
                            e.toggle_expand();
                        }
                    }
                }
            },
            KeyCode::Char('p') => {
                if e.focus == ExplorerFocus::Tree {
                    if let Some(idx) = e.list_state.selected() {
                        if idx < e.flat_list.len() {
                            let found = match e.customized_paths.get(e.flat_list[idx].path.as_str()) {
                                Some(v) => Some(v.clone()),
                                None => None,
                            };
                            if found.is_some() {
                                e.preview_content = found;
                            }
                        }
                    }
                }
            },
            KeyCode::Char('e') => {
                if e.focus == ExplorerFocus::Tree {
                    if let Some(idx) = e.list_state.selected() {
                        if idx < e.flat_list.len() {
                            if e.flat_list[idx].is_leaf && e.flat_list[idx].is_helm {
                                let path = e.flat_list[idx].path.clone();
                                let chart_dir = path_join(e.root_path.as_str(), path.as_str());
                                let current = match e.customized_paths.get(path.as_str()) {
                                    Some(v) => Some(v.clone()),
                                    None => None,
                                };
                                self.view = View::Explorer(e);
                                return Effect::EditValues { path, chart_dir, current };
                            } else {
                                e.error_message = Some("Component is not editable (Not a Helm Release)".to_owned());
                            }
                        }
                    }
                }
            },
            KeyCode::Char('u') => e.undo_current(),
            KeyCode::Char('c') => {
                self.view = View::Explorer(e);
                return Effect::EditConfig;
            },
            _ => {},
        }
        self.view = View::Explorer(e);
        Effect::Redraw
    }

    fn on_actions(&mut self, a: ActionsState, key: &KeyPress, Ghost(prev): Ghost<App>) -> (eff: Effect)
        requires
            prev.view == View::Actions(a),
            prev.app_ok(),
            !key.spec_is_ctrl_c(),
            *old(self) == (App { view: View::Loading, ..prev }),
        ensures
            actions_step(&prev, final(self), a, *key, eff),
            final(self).app_ok(),
    {
        proof {
            reveal_strlit("Next");
            reveal_strlit("Previous");
            assert("Previous"@.len() != "Next"@.len());
        }
        let ghost a0 = a;
        let mut a = a;
        let pressed = a.handle_event(&InputEvent::Key(*key));
        if pressed {
            let next = match &a.action_trigger {
                Some(t) => str_eq(t.as_str(), "Next"),
                None => false,
            };
            let back = match &a.action_trigger {
                Some(t) => str_eq(t.as_str(), "Previous"),
                None => false,
            };
            if next {
                proof {
                    assert(a0.focus == ActionsFocus::Next && is_press(*key));
                    if let Some(m0) = a0.flux_modal {
                        let m = a.flux_modal->0;
                        assert(m@.inputs == m0@.inputs);
                        assert(m.inputs@.len() == m@.inputs.len());
                        assert(m0.inputs@.len() == m0@.inputs.len());
                    }
                }
                self.config.init_git = a.init_git;
                self.config.bootstrap_flux = a.bootstrap_flux;
                match &a.flux_modal {
                    Some(m) => {
                        self.config.flux_git_url = m.inputs[0].value().to_owned();
                        self.config.flux_git_branch = m.inputs[1].value().to_owned();
                        self.config.flux_kubeconfig = m.inputs[3].value().to_owned();
                        self.config.flux_ssh_key_path = m.inputs[4].value().to_owned();
                    },
                    None => {},
                }
                self.pending_actions = Some(a);
                self.view = View::Summary(SummaryState::new());
                return Effect::SaveConfig;
            } else if back {
                match self.saved_explorer_state.take() {
                    Some(e) => {
                        self.view = View::Explorer(e);
                    },
                    None => {
                        self.should_quit = true;
                        self.view = View::Actions(a);
                    },
                }
                return Effect::Redraw;
            }
        }
        self.view = View::Actions(a);
        Effect::Redraw
    }

    fn on_summary(&mut self, s: SummaryState, key: &KeyPress, Ghost(prev): Ghost<App>) -> (eff: Effect)
        requires
            prev.view == View::Summary(s),
            prev.app_ok(),
            *old(self) == (App { view: View::Loading, ..prev }),
        ensures
            summary_step(&prev, final(self), s, *key, eff),
            final(self).app_ok(),
    {
        proof {
            reveal_strlit("Finish");
            reveal_strlit("Previous");
            assert("Previous"@.len() != "Finish"@.len());
        }
        let mut s = s;
        let pressed = s.handle_event(&InputEvent::Key(*key));
        if pressed {
            let finish = match &s.action_trigger {
                Some(t) => str_eq(t.as_str(), "Finish"),
                None => false,
            };
            let back = match &s.action_trigger {
                Some(t) => str_eq(t.as_str(), "Previous"),
                None => false,
            };
            if finish {
                self.execute_generation = true;
                self.should_quit = true;
            } else if back {
                match self.pending_actions.take() {
                    Some(a) => {
                        self.view = View::Actions(a);
                        return Effect::Redraw;
                    },
                    None => {},
                }
            }
        }
        self.view = View::Summary(s);
        Effect::Redraw
    }

    /// The directory that the cluster is generated into: the cluster's name below the
    /// GitOps directory, whose leading `~/` stands for the home directory `home`.
    pub fn target_dir(&self, home: Option<&str>) -> (r: String)
        ensures
            r@ == join_path(
                expand_home(self.config.gitops_dir_path@, match home { Some(h) => Some(h@), None => None }),
                self.config.new_cluster_name@,
            ),
    {
        let base = expand_home_path(self.config.gitops_dir_path.as_str(), home);
        path_join(base.as_str(), self.config.new_cluster_name.as_str())
    }

    /// The directory that the cluster is generated into, with the user's home directory, if
    /// there is one, for a leading `~/` of the GitOps directory.
    pub fn user_target_dir(&self) -> (r: String)
        ensures
            exists|h: Option<Seq<char>>| r@ == join_path(expand_home(self.config.gitops_dir_path@, h), self.config.new_cluster_name@),
    {
        let home = crate::paths::user_home();
        let r = match &home {
            Some(h) => self.target_dir(Some(h.as_str())),
            None => self.target_dir(None),
        };
        assert(r@ == join_path(expand_home(self.config.gitops_dir_path@, crate::paths::opt_text_view(home)), self.config.new_cluster_name@));
        r
    }

    /// After Next in the wizard: if the target directory `target` exists, the wizard shows
    /// so; otherwise the loading screen comes up and the templates are to be fetched.
    pub fn target_checked(&mut self, target: &str, exists: bool) -> (eff: Effect)
        requires
            old(self).app_ok(),
            (old(self).view is Wizard),
        ensures
            final(self).app_ok(),
            final(self).should_quit == old(self).should_quit,
            keeps_rest(old(self), final(self)),
            checked_step(old(self), final(self), target@, exists, eff),
    {
        if exists {
            let mut view = View::Loading;
            std::mem::swap(&mut self.view, &mut view);
            match view {
                View::Wizard(mut w) => {
                    let mut msg = "Directory already exists:\n".to_owned();
                    msg.append(target);
                    w.error_message = Some(msg);
                    self.view = View::Wizard(w);
                },
                other => {
                    self.view = other;
                },
            }
            Effect::Redraw
        } else {
            self.view = View::Loading;
            Effect::SyncRepo
        }
    }

    /// The directory of the templates once they are fetched into `repo_dir`: the base
    /// directory below it.
    pub fn explorer_root(&self, repo_dir: &str) -> (r: String)
        ensures
            r@ == join_path(repo_dir@, self.config.base_dir_path@),
    {
        path_join(repo_dir, self.config.base_dir_path.as_str())
    }

    /// The templates were fetched: the component screen for the directory at `root_path`,
    /// which `listing` describes.
    pub fn repo_ready(&mut self, root_path: String, listing: &DirListing)
        requires
            old(self).app_ok(),
            listing_ok(*listing, 0),
        ensures
            final(self).app_ok(),
            final(self).view matches View::Explorer(e) && e.is_fresh_for(root_path, *listing),
            final(self).should_quit == old(self).should_quit,
            keeps_rest(old(self), final(self)),
    {
        self.view = View::Explorer(ExplorerState::new(root_path, listing));
    }

    /// The templates could not be fetched: the program quits.
    pub fn repo_failed(&mut self)
        ensures
            final(self).should_quit,
            final(self).view == old(self).view,
            keeps_rest(old(self), final(self)),
    {
        self.should_quit = true;
    }

    /// The settings file was edited: its new contents, if they could be read, replace the
    /// settings.
    pub fn config_reloaded(&mut self, loaded: Option<AppConfig>)
        ensures
            final(self).config == (match loaded { Some(c) => c, None => old(self).config }),
            final(self).view == old(self).view,
            final(self).should_quit == old(self).should_quit,
            final(self).pending_generation == old(self).pending_generation,
            final(self).pending_actions == old(self).pending_actions,
            final(self).saved_explorer_state == old(self).saved_explorer_state,
            final(self).execute_generation == old(self).execute_generation,
    {
        if let Some(c) = loaded {
            self.config = c;
        }
    }

    /// The Helm values of the component at `path` were edited: the new values, if there
    /// are any, are kept for it on the component screen.
    pub fn values_edited(&mut self, path: &str, edited: Option<String>)
        requires
            old(self).app_ok(),
        ensures
            final(self).app_ok(),
            final(self).should_quit == old(self).should_quit,
            keeps_rest(old(self), final(self)),
            match (old(self).view, edited) {
                (View::Explorer(e), Some(v)) => final(self).view matches View::Explorer(e2)
                    && e2 == (ExplorerState { customized_paths: e2.customized_paths, ..e })
                    && e2.customized_paths@ == e.customized_paths@.insert(path@, v@),
                _ => final(self).view == old(self).view,
            },
    {
        if let Some(v) = edited {
            let mut view = View::Loading;
            std::mem::swap(&mut self.view, &mut view);
            match view {
                View::Explorer(mut e) => {
                    e.customized_paths.insert(path.to_owned(), v);
                    self.view = View::Explorer(e);
                },
                other => {
                    self.view = other;
                },
            }
        }
    }
}

/// On the actions screen the component screen left behind is kept: a key either keeps it
/// (staying on the actions screen or going on to the summary) or, pressing Previous,
/// brings exactly that screen back.
pub proof fn lemma_actions_keep_components(prev: App, next: App, key: KeyPress, eff: Effect, e: ExplorerState)
    requires
        prev.view is Actions,
        prev.saved_explorer_state == Some(e),
        app_step(&prev, &next, key, eff),
    ensures
        next.view is Explorer ==> next.view == View::Explorer(e),
        !(next.view is Explorer) ==> next.saved_explorer_state == Some(e),
{
}

/// On the summary the actions screen left behind is kept: a key either keeps it or,
/// pressing Previous, brings exactly that screen back.
pub proof fn lemma_summary_keeps_actions(prev: App, next: App, key: KeyPress, eff: Effect, a: ActionsState)
    requires
        prev.view is Summary,
        prev.pending_actions == Some(a),
        app_step(&prev, &next, key, eff),
    ensures
        next.view is Actions ==> next.view == View::Actions(a),
        !(next.view is Actions) ==> next.pending_actions == Some(a),
{
}

/// On the component screen, Enter on a group and Enter again give back the same open
/// nodes, rows and selection.
pub proof fn lemma_group_enter_twice(a0: App, a1: App, a2: App, k1: KeyPress, k2: KeyPress, f1: Effect, f2: Effect)
    requires
        a0.app_ok(),
        a0.view matches View::Explorer(e) && e.preview_content is None && e.error_message is None
            && e.focus == ExplorerFocus::Tree && (e.current() matches Some(item) && !item.is_leaf),
        k1.code == KeyCode::Enter && k2.code == KeyCode::Enter,
        !k1.spec_is_ctrl_c() && !k2.spec_is_ctrl_c(),
        app_step(&a0, &a1, k1, f1),
        app_step(&a1, &a2, k2, f2),
    ensures
        a2.view matches View::Explorer(e2) && (a0.view matches View::Explorer(e0)
            && e2.expanded_paths@ == e0.expanded_paths@ && e2.flat_list@ == e0.flat_list@
            && e2.list_state@ == e0.list_state@ && e2.same_data(&e0)),
{
    let e0 = a0.view->Explorer_0;
    let e1 = a1.view->Explorer_0;
    assert(e1.after_toggle_expand(&e0));
    crate::explorer::lemma_toggle_expand_keeps_row(e0, e1);
    crate::explorer::lemma_toggle_expand_twice(e0, e1, a2.view->Explorer_0);
}

/// One event asks for generation exactly when generation was asked for already or the
/// event confirms Finish; a confirmed Finish also quits.
pub proof fn lemma_generation_step(prev: App, next: App, event: InputEvent, eff: Effect)
    requires
        app_transition(prev, next, event, eff),
    ensures
        next.execute_generation == (prev.execute_generation || confirms_finish(prev, event)),
        confirms_finish(prev, event) ==> next.should_quit,
{
}

/// Over a whole run, from a program that has not asked for generation: each step is an
/// event handed to `handle_event` (`Some`), or a report from outside (`None`: the results of
/// `target_checked`, `repo_ready`, `repo_failed`, `config_reloaded`, `values_edited`, which
/// keep whether generation is asked for). Generation is then asked for after step `k`
/// exactly when some earlier event confirmed Finish, and the step of that event quits.
pub proof fn lemma_generation_only_on_finish(apps: Seq<App>, events: Seq<Option<InputEvent>>, effs: Seq<Effect>)
    requires
        apps.len() == events.len() + 1,
        effs.len() == events.len(),
        !apps[0].execute_generation,
        forall|i: int| 0 <= i < events.len() ==> match #[trigger] events[i] {
            Some(ev) => app_transition(apps[i], apps[i + 1], ev, effs[i]),
            None => apps[i + 1].execute_generation == apps[i].execute_generation,
        },
    ensures
        forall|k: int| 0 <= k < apps.len() ==> (#[trigger] apps[k].execute_generation <==> exists|j: int|
            0 <= j < k && (#[trigger] events[j] matches Some(ev) && confirms_finish(apps[j], ev))),
        forall|j: int| 0 <= j < events.len() && (#[trigger] events[j] matches Some(ev) && confirms_finish(apps[j], ev))
            ==> apps[j + 1].should_quit && apps[j + 1].execute_generation,
    decreases events.len(),
{
    if events.len() > 0 {
        let n = events.len() - 1;
        let a2 = apps.drop_last();
        let e2 = events.drop_last();
        let f2 = effs.drop_last();
        assert forall|i: int| 0 <= i < e2.len() implies match #[trigger] e2[i] {
            Some(ev) => app_transition(a2[i], a2[i + 1], ev, f2[i]),
            None => a2[i + 1].execute_generation == a2[i].execute_generation,
        } by {
            assert(events[i] == e2[i]);
        }
        lemma_generation_only_on_finish(a2, e2, f2);
        assert(events[n] == events[n]);
        if let Some(ev) = events[n] {
            lemma_generation_step(apps[n], apps[n + 1], ev, effs[n]);
        }
        assert forall|k: int| 0 <= k < apps.len() implies (#[trigger] apps[k].execute_generation <==> exists|j: int|
            0 <= j < k && (#[trigger] events[j] matches Some(ev) && confirms_finish(apps[j], ev))) by {
            if k < apps.len() - 1 {
                assert(a2[k] == apps[k]);
                if apps[k].execute_generation {
                    let j = choose|j: int| 0 <= j < k && (#[trigger] e2[j] matches Some(ev) && confirms_finish(a2[j], ev));
                    assert(events[j] == e2[j] && apps[j] == a2[j]);
                }
                if exists|j: int| 0 <= j < k && (#[trigger] events[j] matches Some(ev) && confirms_finish(apps[j], ev)) {
                    let j = choose|j: int| 0 <= j < k && (#[trigger] events[j] matches Some(ev) && confirms_finish(apps[j], ev));
                    assert(events[j] == e2[j] && apps[j] == a2[j]);
                }
            } else {
                assert(a2[n] == apps[n]);
                if apps[n].execute_generation {
                    let j = choose|j: int| 0 <= j < n && (#[trigger] e2[j] matches Some(ev) && confirms_finish(a2[j], ev));
                    assert(events[j] == e2[j] && apps[j] == a2[j]);
                } else if events[n] matches Some(ev) && confirms_finish(apps[n], ev) {
                } else {
                    if exists|j: int| 0 <= j < k && (#[trigger] events[j] matches Some(ev) && confirms_finish(apps[j], ev)) {
                        let j = choose|j: int| 0 <= j < k && (#[trigger] events[j] matches Some(ev) && confirms_finish(apps[j], ev));
                        if j < n {
                            assert(events[j] == e2[j] && apps[j] == a2[j]);
                        }
                    }
                }
            }
        }
        assert forall|j: int| 0 <= j < events.len() && (#[trigger] events[j] matches Some(ev) && confirms_finish(apps[j], ev))
            implies apps[j + 1].should_quit && apps[j + 1].execute_generation by {
            if j < n {
                assert(events[j] == e2[j] && apps[j] == a2[j] && apps[j + 1] == a2[j + 1]);
            }
        }
    }
}

/// Enter on Next in the wizard (no error shown) takes its fields into the settings, each to
/// its own: the first field's text becomes the template repository, the second the base
/// directory, the third the cluster's name, the fourth the GitOps directory; the other
/// settings stay, and the target directory is to be checked.
pub proof fn lemma_wizard_next_takes_fields(prev: App, next: App, key: KeyPress, eff: Effect)
    requires
        prev.app_ok(),
        prev.view matches View::Wizard(w) && w.error_message is None && w.current_input == w.inputs@.len(),
        key.code == KeyCode::Enter,
        !key.spec_is_ctrl_c(),
        app_transition(prev, next, InputEvent::Key(key), eff),
    ensures
        ({
            let w = prev.view->Wizard_0;
            &&& next.config.template_repo_url@ == w.inputs@[0].spec_text()
            &&& next.config.base_dir_path@ == w.inputs@[1].spec_text()
            &&& next.config.new_cluster_name@ == w.inputs@[2].spec_text()
            &&& next.config.gitops_dir_path@ == w.inputs@[3].spec_text()
            &&& next.config.flux_git_url@ == prev.config.flux_git_url@
            &&& next.config.init_git == prev.config.init_git
            &&& eff is CheckTarget
        }),
{
    let w = prev.view->Wizard_0;
    assert(input_views(w.inputs@)[0] == w.inputs@[0]@);
    assert(input_views(w.inputs@)[1] == w.inputs@[1]@);
    assert(input_views(w.inputs@)[2] == w.inputs@[2]@);
    assert(input_views(w.inputs@)[3] == w.inputs@[3]@);
}


} // verus!
