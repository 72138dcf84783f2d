use gitops_bootstrap::actions::{ActionsFocus, ActionsState, ModalState};
use gitops_bootstrap::app::{App, Effect, View};
use gitops_bootstrap::config::AppConfig;
use gitops_bootstrap::explorer::ExplorerFocus;
use gitops_bootstrap::home::HomeOption;
use gitops_bootstrap::keys::{InputEvent, KeyCode, KeyKind, KeyPress, CONTROL};
use gitops_bootstrap::listing::{DirEntryInfo, DirListing};
use gitops_bootstrap::summary::{ConfirmFocus, SummaryFocus, SummaryState};
use gitops_bootstrap::wizard::WizardAction;

fn key(code: KeyCode) -> InputEvent {
    InputEvent::Key(KeyPress::plain(code))
}

fn ctrl_c() -> InputEvent {
    InputEvent::Key(KeyPress { code: KeyCode::Char('c'), modifiers: CONTROL, kind: KeyKind::Press })
}

fn file(name: &str) -> DirEntryInfo {
    DirEntryInfo { name: name.to_string(), is_dir: false, contents: DirListing { entries: vec![] } }
}

fn dir(name: &str, entries: Vec<DirEntryInfo>) -> DirEntryInfo {
    DirEntryInfo { name: name.to_string(), is_dir: true, contents: DirListing { entries } }
}

fn templates() -> DirListing {
    DirListing {
        entries: vec![
            dir("apps", vec![dir("redis", vec![file("helm-release.yaml"), file("kustomization.yaml")]), dir("web", vec![file("kustomization.yaml")])]),
            dir(".hidden", vec![dir("x", vec![file("kustomization.yaml")])]),
            dir("empty", vec![]),
        ],
    }
}

fn config() -> AppConfig {
    AppConfig { gitops_dir_path: "~/ops".to_string(), new_cluster_name: "c1".to_string(), ..AppConfig::default() }
}

#[test]
fn start_opens_the_wizard_and_control_c_quits() {
    let mut app = App::new(config());
    assert!(matches!(&app.view, View::Home(h) if h.selected == HomeOption::Start));
    assert!(matches!(app.handle_event(&key(KeyCode::Enter)), Effect::Redraw));
    assert!(matches!(&app.view, View::Wizard(w) if w.current_input == 0 && w.inputs.len() == 4));
    assert!(!app.should_quit);
    app.handle_event(&ctrl_c());
    assert!(app.should_quit);
    assert!(matches!(&app.view, View::Wizard(_)));
}

#[test]
fn edit_config_asks_for_the_editor() {
    let mut app = App::new(config());
    app.handle_event(&key(KeyCode::Down));
    assert!(matches!(app.handle_event(&key(KeyCode::Enter)), Effect::EditConfig));
    assert!(matches!(&app.view, View::Home(h) if h.selected == HomeOption::EditConfig && h.action_trigger.is_none()));
    let mut edited = config();
    edited.new_cluster_name = "other".to_string();
    app.config_reloaded(Some(edited));
    assert_eq!(app.config.new_cluster_name, "other");
    app.config_reloaded(None);
    assert_eq!(app.config.new_cluster_name, "other");
}

#[test]
fn quit_on_home_quits() {
    let mut app = App::new(config());
    app.handle_event(&key(KeyCode::Up));
    app.handle_event(&key(KeyCode::Enter));
    assert!(app.should_quit);
}

#[test]
fn wizard_next_takes_fields_and_checks_target() {
    let mut app = App::new(config());
    app.handle_event(&key(KeyCode::Enter));
    // Down to the cluster name field, type a character.
    app.handle_event(&key(KeyCode::Down));
    app.handle_event(&key(KeyCode::Down));
    app.handle_event(&key(KeyCode::Char('x')));
    for _ in 0..2 {
        app.handle_event(&key(KeyCode::Down));
    }
    assert!(matches!(&app.view, View::Wizard(w) if w.current_input == 4));
    assert!(matches!(app.handle_event(&key(KeyCode::Enter)), Effect::CheckTarget));
    assert_eq!(app.config.new_cluster_name, "c1x");
    assert!(matches!(&app.view, View::Wizard(w) if w.action == WizardAction::NoAction));
    let target = app.target_dir(Some("/home/u"));
    assert_eq!(target, "/home/u/ops/c1x");
    assert_eq!(app.target_dir(None), "~/ops/c1x");

    assert!(matches!(app.target_checked(&target, true), Effect::Redraw));
    assert!(matches!(&app.view, View::Wizard(w) if w.error_message.as_deref() == Some("Directory already exists:\n/home/u/ops/c1x")));
    // Any key dismisses the error.
    app.handle_event(&key(KeyCode::Char('z')));
    assert!(matches!(&app.view, View::Wizard(w) if w.error_message.is_none()));

    app.handle_event(&key(KeyCode::Enter));
    assert!(matches!(app.target_checked(&target, false), Effect::SyncRepo));
    assert!(matches!(app.view, View::Loading));
    assert_eq!(app.explorer_root("/cache/flux-templates"), "/cache/flux-templates/bases");
    let listing = templates();
    assert!(listing.is_ok_at(0));
    app.repo_ready("/cache/flux-templates/bases".to_string(), &listing);
    match &app.view {
        View::Explorer(e) => {
            assert_eq!(e.flat_list.len(), 1);
            assert_eq!(e.flat_list[0].name, "apps");
            assert_eq!(e.list_state.selected(), Some(0));
        },
        _ => panic!("expected the component screen"),
    }
}

#[test]
fn wizard_previous_goes_home() {
    let mut app = App::new(config());
    app.handle_event(&key(KeyCode::Enter));
    app.handle_event(&key(KeyCode::Up));
    assert!(matches!(&app.view, View::Wizard(w) if w.current_input == 5));
    app.handle_event(&key(KeyCode::Enter));
    assert!(matches!(&app.view, View::Home(h) if h.selected == HomeOption::Start));
}

fn explorer_app() -> App {
    let mut app = App::new(config());
    app.repo_ready("/root/bases".to_string(), &templates());
    app
}

#[test]
fn explorer_keys_choose_edit_and_preview() {
    let mut app = explorer_app();
    // Open "apps".
    app.handle_event(&key(KeyCode::Enter));
    match &app.view {
        View::Explorer(e) => {
            assert_eq!(e.flat_list.len(), 3);
            assert_eq!(e.flat_list[1].path, "apps/redis");
            assert_eq!(e.flat_list[2].path, "apps/web");
        },
        _ => panic!(),
    }
    app.handle_event(&key(KeyCode::Down));
    app.handle_event(&key(KeyCode::Char(' ')));
    assert!(matches!(&app.view, View::Explorer(e) if e.checked_paths.contains("apps/redis")));
    match app.handle_event(&key(KeyCode::Char('e'))) {
        Effect::EditValues { path, chart_dir, current } => {
            assert_eq!(path, "apps/redis");
            assert_eq!(chart_dir, "/root/bases/apps/redis");
            assert!(current.is_none());
        },
        _ => panic!("expected an edit"),
    }
    app.values_edited("apps/redis", Some("replicas: 3\n".to_string()));
    app.handle_event(&key(KeyCode::Char('p')));
    assert!(matches!(&app.view, View::Explorer(e) if e.preview_content.as_deref() == Some("replicas: 3\n")));
    // The preview closes on any key, which does nothing else.
    app.handle_event(&key(KeyCode::Down));
    assert!(matches!(&app.view, View::Explorer(e) if e.preview_content.is_none() && e.list_state.selected() == Some(1)));
    // "web" is no Helm release.
    app.handle_event(&key(KeyCode::Down));
    app.handle_event(&key(KeyCode::Char('e')));
    assert!(matches!(&app.view, View::Explorer(e)
        if e.error_message.as_deref() == Some("Component is not editable (Not a Helm Release)")));
    app.handle_event(&key(KeyCode::Char('x')));
    // Undo on redis drops its values.
    app.handle_event(&key(KeyCode::Up));
    app.handle_event(&key(KeyCode::Char('u')));
    assert!(matches!(&app.view, View::Explorer(e) if !e.customized_paths.contains_key("apps/redis")));
    assert!(matches!(app.handle_event(&key(KeyCode::Char('c'))), Effect::EditConfig));
    app.handle_event(&key(KeyCode::Char('q')));
    assert!(app.should_quit);
}

#[test]
fn explorer_next_and_actions_previous_restore_the_screen() {
    let mut app = explorer_app();
    app.handle_event(&key(KeyCode::Enter));
    app.handle_event(&key(KeyCode::Down));
    app.handle_event(&key(KeyCode::Enter));
    // Tab goes to Next (no group below the selected row).
    app.handle_event(&key(KeyCode::Tab));
    assert!(matches!(&app.view, View::Explorer(e) if e.focus == ExplorerFocus::Next));
    app.handle_event(&key(KeyCode::Enter));
    assert!(matches!(&app.view, View::Actions(a) if a.focus == ActionsFocus::List && a.list_state.selected() == Some(0)));
    match &app.pending_generation {
        Some((checked, customized)) => {
            assert!(checked.contains("apps/redis"));
            assert_eq!(checked.len(), 1);
            assert!(customized.keys().is_empty());
        },
        None => panic!(),
    }
    // Up from the first row reaches Previous; Enter presses it.
    app.handle_event(&key(KeyCode::Up));
    assert!(matches!(&app.view, View::Actions(a) if a.focus == ActionsFocus::Previous));
    app.handle_event(&key(KeyCode::Enter));
    match &app.view {
        View::Explorer(e) => {
            assert_eq!(e.focus, ExplorerFocus::Next);
            assert!(e.checked_paths.contains("apps/redis"));
        },
        _ => panic!("expected the component screen"),
    }
    assert!(app.saved_explorer_state.is_none());
}

#[test]
fn actions_rows_toggle_and_open_dialogs() {
    let cfg = config();
    let mut a = ActionsState::new(&cfg);
    assert!(a.init_git && a.bootstrap_flux);
    // Turning Git off opens nothing; turning it on opens its dialog.
    assert!(!a.handle_event(&key(KeyCode::Enter)));
    assert!(!a.init_git && a.focus == ActionsFocus::List);
    a.handle_event(&key(KeyCode::Char(' ')));
    assert!(a.init_git && a.focus == ActionsFocus::ModalGit);
    a.handle_event(&key(KeyCode::Esc));
    assert_eq!(a.focus, ActionsFocus::List);
    a.handle_event(&key(KeyCode::Char('j')));
    a.handle_event(&key(KeyCode::Char('e')));
    assert_eq!(a.focus, ActionsFocus::ModalFlux);
    // In the dialog, type into the URL field, then Done.
    a.handle_event(&key(KeyCode::Char('/')));
    match &a.flux_modal {
        Some(m) => assert_eq!(m.inputs[0].value(), "http://127.0.0.1:8080/"),
        None => panic!(),
    }
    for _ in 0..5 {
        a.handle_event(&key(KeyCode::Down));
    }
    assert!(!a.handle_event(&key(KeyCode::Enter)));
    assert_eq!(a.focus, ActionsFocus::List);
    // Down to Next, Enter presses it.
    a.handle_event(&key(KeyCode::Tab));
    assert_eq!(a.focus, ActionsFocus::Next);
    assert!(a.handle_event(&key(KeyCode::Enter)));
    assert_eq!(a.action_trigger.as_deref(), Some("Next"));
}

#[test]
fn next_on_actions_moves_to_the_summary() {
    let mut app = explorer_app();
    let mut cfg = config();
    cfg.flux_ssh_key_path = "~/.ssh/id_ed25519".to_string();
    let mut a = ActionsState::new(&cfg);
    if let Some(m) = &mut a.flux_modal {
        assert!(!m.handle_event(&key(KeyCode::Char('x'))));
    }
    a.focus = ActionsFocus::Next;
    a.list_state.select(None);
    a.init_git = false;
    app.view = View::Actions(a);
    assert!(matches!(app.handle_event(&key(KeyCode::Enter)), Effect::SaveConfig));
    assert!(matches!(&app.view, View::Summary(s) if s.focus == SummaryFocus::Finish && !s.confirm_modal));
    assert!(!app.config.init_git);
    assert!(app.config.bootstrap_flux);
    assert_eq!(app.config.flux_git_url, "http://127.0.0.1:8080x");
    assert_eq!(app.config.flux_git_branch, "main");
    assert_eq!(app.config.flux_kubeconfig, "~/.kube/config");
    assert_eq!(app.config.flux_ssh_key_path, "~/.ssh/id_ed25519");
    assert!(matches!(&app.pending_actions, Some(p) if p.action_trigger.as_deref() == Some("Next") && !p.init_git));
}

#[test]
fn dialogs_are_filled_from_the_settings() {
    let cfg = config();
    let flux = ModalState::new_flux(&cfg);
    assert_eq!(flux.labels, vec!["Git URL", "Git Branch", "Git Path", "Kubeconfig Path", "Git SSH Key Path"]);
    assert_eq!(flux.inputs.len(), 5);
    assert_eq!(flux.inputs[4].value(), "");
    assert_eq!(flux.inputs[2].value(), "./c1");
    assert_eq!(flux.inputs[2].cursor(), 4);
    assert_eq!(flux.title, " FLUX CONFIGURATION ");
    let git = ModalState::new_git(&cfg);
    assert_eq!(git.inputs[0].value(), "127.0.0.1");
    assert_eq!(git.title, " GIT DAEMON CONFIGURATION ");
}

#[test]
fn modal_rows_wrap_round() {
    let mut m = ModalState::new_git(&config());
    assert!(!m.handle_event(&key(KeyCode::Up)));
    assert_eq!(m.current_input, 2);
    assert!(!m.handle_event(&key(KeyCode::Tab)));
    assert_eq!(m.current_input, 0);
    assert!(!m.handle_event(&key(KeyCode::Enter)));
    assert_eq!(m.current_input, 1);
    m.handle_event(&key(KeyCode::Enter));
    assert!(m.handle_event(&key(KeyCode::Enter)));
    assert!(m.handle_event(&key(KeyCode::Esc)));
}

#[test]
fn summary_finish_needs_confirmation() {
    let mut s = SummaryState::new();
    assert_eq!(s.focus, SummaryFocus::Finish);
    assert!(!s.handle_event(&key(KeyCode::Enter)));
    assert!(s.confirm_modal && s.confirm_focus == ConfirmFocus::No);
    assert!(!s.handle_event(&key(KeyCode::Enter)));
    assert!(!s.confirm_modal);
    s.handle_event(&key(KeyCode::Enter));
    s.handle_event(&key(KeyCode::Char('h')));
    assert!(s.handle_event(&key(KeyCode::Enter)));
    assert_eq!(s.action_trigger.as_deref(), Some("Finish"));
}

#[test]
fn summary_tab_twice_comes_back() {
    let mut s = SummaryState::new();
    s.handle_event(&key(KeyCode::Tab));
    assert_eq!(s.focus, SummaryFocus::Previous);
    s.handle_event(&key(KeyCode::BackTab));
    assert_eq!(s.focus, SummaryFocus::Finish);
}

#[test]
fn other_events_change_nothing() {
    let mut app = App::new(config());
    assert!(matches!(app.handle_event(&InputEvent::Other), Effect::Redraw));
    assert!(matches!(&app.view, View::Home(h) if h.action_trigger.is_none()));
    assert!(!app.should_quit);
}

#[test]
fn choosing_twice_and_opening_twice_give_back_the_screen() {
    let mut app = explorer_app();
    app.handle_event(&key(KeyCode::Enter));
    app.handle_event(&key(KeyCode::Enter));
    assert!(matches!(&app.view, View::Explorer(e) if e.flat_list.len() == 1 && e.expanded_paths.is_empty()));
    app.handle_event(&key(KeyCode::Enter));
    app.handle_event(&key(KeyCode::Down));
    app.handle_event(&key(KeyCode::Enter));
    app.handle_event(&key(KeyCode::Enter));
    assert!(matches!(&app.view, View::Explorer(e) if e.checked_paths.is_empty()));
}

#[test]
fn up_undoes_down_in_the_tree() {
    let mut app = explorer_app();
    app.handle_event(&key(KeyCode::Enter));
    app.handle_event(&key(KeyCode::Down));
    app.handle_event(&key(KeyCode::Up));
    assert!(matches!(&app.view, View::Explorer(e) if e.list_state.selected() == Some(0) && e.focus == ExplorerFocus::Tree));
    // From the last row Down reaches Previous, and Up comes back.
    app.handle_event(&key(KeyCode::Down));
    app.handle_event(&key(KeyCode::Down));
    app.handle_event(&key(KeyCode::Down));
    assert!(matches!(&app.view, View::Explorer(e) if e.focus == ExplorerFocus::Previous && e.list_state.selected() == Some(2)));
    app.handle_event(&key(KeyCode::Up));
    assert!(matches!(&app.view, View::Explorer(e) if e.focus == ExplorerFocus::Tree && e.list_state.selected() == Some(2)));
}

#[test]
fn summary_previous_restores_the_actions_screen() {
    let cfg = config();
    let mut app = App::new(cfg.clone());
    let mut a = ActionsState::new(&cfg);
    a.init_git = false;
    app.pending_actions = Some(a);
    let mut s = SummaryState::new();
    s.focus = SummaryFocus::Previous;
    app.view = View::Summary(s);
    app.handle_event(&key(KeyCode::Enter));
    assert!(matches!(&app.view, View::Actions(a) if !a.init_git && a.bootstrap_flux));
    assert!(app.pending_actions.is_none());
}

#[test]
fn confirmed_finish_asks_to_generate() {
    let mut app = App::new(config());
    let mut s = SummaryState::new();
    s.confirm_modal = true;
    s.confirm_focus = ConfirmFocus::Yes;
    app.view = View::Summary(s);
    app.handle_event(&key(KeyCode::Char(' ')));
    assert!(app.execute_generation && app.should_quit);
}

#[test]
fn actions_up_and_down_undo_each_other() {
    let cfg = config();
    let mut a = ActionsState::new(&cfg);
    for _ in 0..4 {
        a.handle_event(&key(KeyCode::Down));
        a.handle_event(&key(KeyCode::Up));
        assert_eq!(a.focus, ActionsFocus::List);
        assert_eq!(a.list_state.selected(), Some(0));
    }
    a.handle_event(&key(KeyCode::Down));
    a.handle_event(&key(KeyCode::Down));
    assert_eq!(a.focus, ActionsFocus::Next);
    a.handle_event(&key(KeyCode::Down));
    assert_eq!(a.focus, ActionsFocus::Previous);
    a.handle_event(&key(KeyCode::Up));
    assert_eq!(a.focus, ActionsFocus::Next);
    a.handle_event(&key(KeyCode::Up));
    assert_eq!((a.focus, a.list_state.selected()), (ActionsFocus::List, Some(1)));
}

#[test]
fn generation_is_asked_for_only_by_a_confirmed_finish() {
    let cfg = config();
    let mut app = explorer_app();
    let mut a = ActionsState::new(&cfg);
    a.focus = ActionsFocus::Next;
    a.list_state.select(None);
    app.view = View::Actions(a);
    let steps = [
        key(KeyCode::Enter),
        key(KeyCode::Left),
        key(KeyCode::Right),
        key(KeyCode::Enter),
        key(KeyCode::Enter),
        key(KeyCode::Enter),
        key(KeyCode::Left),
    ];
    for ev in steps.iter() {
        app.handle_event(ev);
        assert!(!app.execute_generation && !app.should_quit);
    }
    assert!(matches!(&app.view, View::Summary(s) if s.confirm_modal && s.confirm_focus == ConfirmFocus::Yes));
    app.handle_event(&key(KeyCode::Enter));
    assert!(app.execute_generation && app.should_quit);
}

#[test]
fn wizard_rows_wrap_round() {
    let mut app = App::new(config());
    app.handle_event(&key(KeyCode::Enter));
    // Up from the first field reaches Previous (row n + 1), Down from there the first field.
    app.handle_event(&key(KeyCode::BackTab));
    assert!(matches!(&app.view, View::Wizard(w) if w.current_input == 5));
    app.handle_event(&key(KeyCode::Tab));
    assert!(matches!(&app.view, View::Wizard(w) if w.current_input == 0));
    // Left and Right on a button switch the buttons; on a field they edit it.
    for _ in 0..4 {
        app.handle_event(&key(KeyCode::Down));
    }
    assert!(matches!(&app.view, View::Wizard(w) if w.current_input == 4));
    app.handle_event(&key(KeyCode::Right));
    assert!(matches!(&app.view, View::Wizard(w) if w.current_input == 5 && w.action == WizardAction::NoAction));
    app.handle_event(&key(KeyCode::Left));
    assert!(matches!(&app.view, View::Wizard(w) if w.current_input == 4));
}
