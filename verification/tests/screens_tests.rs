use gitops_bootstrap::actions::ActionsState;
use gitops_bootstrap::app::{App, View};
use gitops_bootstrap::bootstrap::{flux_plan, flux_settings_of, push_plan, push_settings_of, FluxPlan};
use gitops_bootstrap::collections::PathSet;
use gitops_bootstrap::config::{config_file, AppConfig};
use gitops_bootstrap::executing::{line_count, scroll_offset, ExecutingState, ExecutionEvent};
use gitops_bootstrap::explorer::ExplorerState;
use gitops_bootstrap::keys::{InputEvent, KeyCode, KeyPress};
use gitops_bootstrap::listing::{DirEntryInfo, DirListing};
use gitops_bootstrap::overview::{component_lines, summary_lines, LineStyle};
use gitops_bootstrap::screens::{split_at_cursor, FieldLine, RowColor};
use gitops_bootstrap::wizard::WizardState;

fn key(code: KeyCode) -> InputEvent {
    InputEvent::Key(KeyPress::plain(code))
}

fn texts(lines: &[gitops_bootstrap::overview::SummaryLine]) -> Vec<String> {
    lines.iter().map(|l| l.text.clone()).collect()
}

#[test]
fn components_are_grouped_by_first_segment() {
    let mut paths = PathSet::new();
    paths.insert("infrastructure/networking/cilium");
    paths.insert("apps/web");
    paths.insert("standalone");
    paths.insert("apps/api");
    let lines = component_lines(&paths);
    assert_eq!(
        texts(&lines),
        vec![
            "  - apps",
            "      - api",
            "      - web",
            "  - infrastructure",
            "      - networking/cilium",
            "  - root",
            "      - standalone",
        ]
    );
    assert_eq!(lines[0].style, LineStyle::Group);
    assert_eq!(lines[1].style, LineStyle::Plain);
}

#[test]
fn root_group_merges_plain_paths_and_root_prefix() {
    let mut paths = PathSet::new();
    paths.insert("x");
    paths.insert("root/x");
    let lines = component_lines(&paths);
    assert_eq!(texts(&lines), vec!["  - root", "      - x", "      - x"]);
}

#[test]
fn summary_lists_settings_components_and_actions() {
    let cfg = AppConfig { gitops_dir_path: "~/ops".to_string(), new_cluster_name: "c1".to_string(), ..AppConfig::default() };
    let actions = ActionsState::new(&cfg);
    let empty = PathSet::new();
    let lines = summary_lines(&cfg, &empty, &actions);
    assert_eq!(
        texts(&lines),
        vec![
            "GitOps Structure Generation",
            "  Target Directory: ~/ops",
            "  Cluster Name: c1",
            "",
            "Selected Components:",
            "  (None selected)",
            "",
            "Post-Generation Actions",
            "  [x] Initialize Local Git Repository & Push to Remote",
            "      DANGER: Will FORCE PUSH and OVERWRITE remote history!",
            "  [x] Bootstrap Flux CD",
            "      - Git URL: http://127.0.0.1:8080",
            "      - Branch: main",
            "      - Path: ./c1",
            "      - Kubeconfig: ~/.kube/config",
        ]
    );
    assert_eq!(lines[9].style, LineStyle::Danger);
    let mut none = ActionsState::new(&cfg);
    none.init_git = false;
    none.bootstrap_flux = false;
    let lines = summary_lines(&cfg, &empty, &none);
    assert_eq!(lines.last().unwrap().text, "No Post-Generation Actions Selected");
    assert_eq!(lines.last().unwrap().style, LineStyle::Muted);
}

#[test]
fn cursor_split_marks_the_character_under_it() {
    assert_eq!(split_at_cursor("hello", 1), ("h".to_string(), "e".to_string(), "llo".to_string()));
    assert_eq!(split_at_cursor("hello", 5), ("hello".to_string(), " ".to_string(), "".to_string()));
    assert_eq!(split_at_cursor("", 0), ("".to_string(), " ".to_string(), "".to_string()));
}

#[test]
fn wizard_fields_show_placeholders() {
    let cfg = AppConfig { template_repo_url: "".to_string(), base_dir_path: "".to_string(), ..AppConfig::default() };
    let w = WizardState::new(&cfg);
    match w.field_line(0) {
        FieldLine::Cursor { before, at, after } => {
            assert_eq!(before, "");
            assert_eq!(at, "T");
            assert_eq!(after, "ype here...");
        },
        _ => panic!("the focused field shows its cursor"),
    }
    match w.field_line(1) {
        FieldLine::Plain(t) => assert_eq!(t, "(empty)"),
        _ => panic!(),
    }
    match w.field_line(2) {
        FieldLine::Plain(t) => assert_eq!(t, "my-cluster"),
        _ => panic!(),
    }
}

#[test]
fn action_rows_show_boxes_and_hints() {
    let cfg = AppConfig::default();
    let mut a = ActionsState::new(&cfg);
    a.bootstrap_flux = false;
    let (git, flux) = a.item_labels();
    assert_eq!(git, "[x] Initialize Git and Git Daemon (Press 'e' to configure)");
    assert_eq!(flux, "[ ] Bootstrap Flux");
    assert!(a.active_modal().is_none());
    a.handle_event(&key(KeyCode::Char('e')));
    assert_eq!(a.active_modal().unwrap().title, " GIT DAEMON CONFIGURATION ");
    match a.active_modal().unwrap().field_line(0) {
        FieldLine::Cursor { before, at, .. } => {
            assert_eq!(before, "127.0.0.1");
            assert_eq!(at, " ");
        },
        _ => panic!(),
    }
}

fn dir(name: &str, entries: Vec<DirEntryInfo>) -> DirEntryInfo {
    DirEntryInfo { name: name.to_string(), is_dir: true, contents: DirListing { entries } }
}

fn file(name: &str) -> DirEntryInfo {
    DirEntryInfo { name: name.to_string(), is_dir: false, contents: DirListing { entries: vec![] } }
}

#[test]
fn test_explorer_scan() {
    let listing = DirListing { entries: vec![dir("apps", vec![dir("redis", vec![file("kustomization.yaml")])])] };
    let mut state = ExplorerState::new("/root".to_string(), &listing);
    assert_eq!(state.flat_list.len(), 1);
    assert_eq!(state.flat_list[0].name, "apps");
    assert!(!state.flat_list[0].is_leaf);

    state.expanded_paths.insert("apps");
    state.update_flat_list();
    assert_eq!(state.flat_list.len(), 2);
    assert_eq!(state.flat_list[1].name, "redis");
    assert!(state.flat_list[1].is_leaf);
    assert!(!state.flat_list[1].is_helm);

    state.checked_paths.insert("apps/redis");
    state.customized_paths.insert("apps/redis".to_string(), "a: 1".to_string());
    let rows = state.tree_rows();
    assert_eq!(rows[0].text, "[-] apps");
    assert_eq!(rows[0].color, RowColor::Group);
    assert_eq!(rows[1].text, "  [x] redis (customized)");
    assert_eq!(rows[1].color, RowColor::Chosen);
}

#[test]
fn explorer_sorts_and_hides() {
    let listing = DirListing {
        entries: vec![
            dir("zeta", vec![file("kustomization.yml")]),
            dir("alpha", vec![file("helm-release.yaml")]),
            dir(".git", vec![file("kustomization.yaml")]),
            file("README.md"),
            dir("nothing", vec![dir("deeper", vec![])]),
        ],
    };
    let state = ExplorerState::new("/r".to_string(), &listing);
    let names: Vec<&str> = state.flat_list.iter().map(|i| i.name.as_str()).collect();
    assert_eq!(names, vec!["alpha", "zeta"]);
    assert!(state.flat_list[0].is_helm);
}

#[test]
fn legend_and_step_follow_the_screen() {
    let cfg = AppConfig::default();
    let mut app = App::new(cfg);
    assert_eq!(app.step(), None);
    assert_eq!(app.legend(), " [Tab] Navigate   [Enter] Select ");
    app.handle_event(&key(KeyCode::Enter));
    assert_eq!(app.step(), Some(0));
    app.view = View::Loading;
    assert_eq!(app.legend(), "");
    assert_eq!(app.step(), Some(0));
}

#[test]
fn push_plan_inits_commits_pulls_and_force_pushes() {
    let steps = push_plan("git@host:o/r.git", "main", "~/.ssh/id", Some("/home/u"));
    assert_eq!(steps.len(), 6);
    assert_eq!(steps[0].args, vec!["init", "--initial-branch=main"]);
    assert_eq!(steps[2].args, vec!["commit", "-m", "Initial GitOps Commit"]);
    assert_eq!(steps[3].args, vec!["remote", "add", "origin", "git@host:o/r.git"]);
    assert_eq!(
        steps[4].args,
        vec!["pull", "--no-rebase", "--no-edit", "--allow-unrelated-histories", "-X", "theirs", "origin", "main"]
    );
    assert!(steps[4].optional);
    assert_eq!(steps[5].args, vec!["push", "-f", "-u", "origin", "main"]);
    assert!(!steps[5].optional);
    assert!(steps[..4].iter().all(|s| !s.optional && s.env.is_none() && s.program == "git"));
    let ssh = Some((
        "GIT_SSH_COMMAND".to_string(),
        "ssh -i /home/u/.ssh/id -o IdentitiesOnly=yes -o StrictHostKeyChecking=accept-new".to_string(),
    ));
    assert_eq!(steps[4].env, ssh);
    assert_eq!(steps[5].env, ssh);
    assert_eq!(steps[1].failed, "Failed to add files to git repository");
    assert_eq!(steps[4].failed, "Failed to pull from remote repository");
    assert_eq!(steps[5].not_started, "Failed to execute git push");
    let plain = push_plan("u", "b", "", None);
    assert!(plain[4].env.is_none() && plain[5].env.is_none());
}

#[test]
fn flux_plan_for_git_protocol_applies_manifests() {
    match flux_plan("git://127.0.0.1/", "main", "./c1", "~/.kube/config", "", Some("/h")) {
        FluxPlan::Manifests { install_args, kubectl_args, manifest } => {
            assert_eq!(install_args, vec!["install", "--kubeconfig=/h/.kube/config"]);
            assert_eq!(kubectl_args, vec!["apply", "-f", "-", "--kubeconfig=/h/.kube/config"]);
            assert!(manifest.starts_with("\napiVersion: source.toolkit.fluxcd.io/v1\nkind: GitRepository\n"));
            assert!(manifest.contains("\n    branch: main\n  url: git://127.0.0.1/\n---\n"));
            assert!(manifest.contains("\n  path: ./c1\n  prune: true\n"));
            assert!(manifest.ends_with("    name: flux-system\n"));
        },
        FluxPlan::Bootstrap { .. } => panic!("git:// needs the manifests"),
    }
}

#[test]
fn flux_plan_bootstraps_other_urls() {
    match flux_plan("http://gitea/o/r.git", "dev", "./c", "", "/k", None) {
        FluxPlan::Bootstrap { args } => assert_eq!(
            args,
            vec![
                "bootstrap",
                "git",
                "--url=http://gitea/o/r.git",
                "--branch=dev",
                "--path=./c",
                "--allow-insecure-http=true",
                "--private-key-file=/k",
            ]
        ),
        _ => panic!(),
    }
    match flux_plan("ssh://git@host/r.git", "main", "./c", "kc", "", None) {
        FluxPlan::Bootstrap { args } => assert_eq!(
            args,
            vec!["bootstrap", "git", "--url=ssh://git@host/r.git", "--branch=main", "--path=./c", "--kubeconfig=kc"]
        ),
        _ => panic!(),
    }
}

#[test]
fn push_settings_fall_back_without_dialog() {
    let cfg = AppConfig::default();
    let mut a = ActionsState::new(&cfg);
    a.flux_modal = None;
    assert_eq!(
        push_settings_of(&a),
        ("git@github.com:my-org/my-gitops-repo.git".to_string(), "main".to_string(), "".to_string())
    );
}

#[test]
fn flux_settings_read_five_fields() {
    let cfg = AppConfig { flux_ssh_key_path: "~/.ssh/key".to_string(), ..AppConfig::default() };
    let m = ActionsState::new(&cfg).flux_modal.unwrap();
    let (url, branch, path, kube, key) = flux_settings_of(&m);
    assert_eq!(url, "http://127.0.0.1:8080");
    assert_eq!(branch, "main");
    assert_eq!(path, "./my-cluster");
    assert_eq!(kube, "~/.kube/config");
    assert_eq!(key, "~/.ssh/key");
}

#[test]
fn config_defaults_first_run_and_migration() {
    let d = AppConfig::default();
    assert_eq!(d.template_repo_url, "https://github.com/basarsubasi/flux-templates.git");
    assert_eq!(d.new_cluster_name, "my-cluster");
    assert!(d.init_git && d.bootstrap_flux && !d.git_daemon);
    assert_eq!(d.git_http_server_port, 8080);
    assert_eq!(AppConfig::first_run().new_cluster_name, "my-cluster-1");
    let mut old = AppConfig { flux_git_url: "".to_string(), git_branch: "".to_string(), new_cluster_name: "".to_string(), ..d.clone() };
    old.migrate();
    assert_eq!(old.flux_git_url, "git://127.0.0.1/");
    assert_eq!(old.git_branch, "main");
    assert_eq!(old.new_cluster_name, "my-cluster");
    let again = old.clone();
    old.migrate();
    assert_eq!(old.flux_git_url, again.flux_git_url);
    assert_eq!(config_file("/home/u"), "/home/u/.config/gitops-bootstrap-tui/config.json");
}

#[test]
fn execution_log_follows_events() {
    let (tx, rx) = std::sync::mpsc::channel();
    let mut s = ExecutingState::new(rx);
    tx.send(ExecutionEvent::Log("one".to_string())).unwrap();
    tx.send(ExecutionEvent::Log("two".to_string())).unwrap();
    s.poll_events();
    assert_eq!(s.logs, vec!["one", "two"]);
    assert_eq!(s.log_text(), "one\ntwo\n\n[RUNNING...]\n");
    tx.send(ExecutionEvent::Done).unwrap();
    s.poll_events();
    assert!(s.is_done);
    tx.send(ExecutionEvent::Log("late".to_string())).unwrap();
    s.poll_events();
    assert_eq!(s.logs.len(), 2);
    assert!(s.handle_event(&key(KeyCode::Char('q'))));
    assert!(s.should_quit);
}

#[test]
fn execution_error_offers_going_back() {
    let (tx, rx) = std::sync::mpsc::channel();
    let mut s = ExecutingState::new(rx);
    tx.send(ExecutionEvent::Error("boom".to_string())).unwrap();
    s.poll_events();
    assert_eq!(s.error.as_deref(), Some("boom"));
    assert!(s.log_text().ends_with("\n[ERROR]\nboom\n\nPress ESC or 'b' to go back and retry."));
    assert!(!s.handle_event(&key(KeyCode::Enter)));
    assert!(s.handle_event(&key(KeyCode::Esc)));
    assert!(s.go_back);
}

#[test]
fn log_window_scrolls_to_the_end() {
    assert_eq!(line_count("a\nb\nc"), 3);
    assert_eq!(scroll_offset("a\nb\nc\nd\ne", 3), 4);
    assert_eq!(scroll_offset("a\nb", 3), 0);
}

#[test]
fn user_paths_keep_absolute_paths() {
    assert_eq!(gitops_bootstrap::paths::expand_user_path("/srv/gitops"), "/srv/gitops");
    let p = gitops_bootstrap::generate::generation_paths_for_user("/cache", "/srv/g", "bases", "c1");
    assert_eq!(p.target_cluster, "/srv/g/c1");
    let steps = gitops_bootstrap::bootstrap::push_plan_for_user("u", "main", "/keys/id");
    assert_eq!(
        steps[5].env.as_ref().map(|e| e.1.as_str()),
        Some("ssh -i /keys/id -o IdentitiesOnly=yes -o StrictHostKeyChecking=accept-new")
    );
    match gitops_bootstrap::bootstrap::flux_plan_for_user("git://h/r", "main", "./c", "", "") {
        FluxPlan::Manifests { install_args, .. } => assert_eq!(install_args, vec!["install"]),
        _ => panic!(),
    }
    if let Some(f) = gitops_bootstrap::config::user_config_file() {
        assert!(f.ends_with("/.config/gitops-bootstrap-tui/config.json"));
    }
    let mut app = App::new(AppConfig { gitops_dir_path: "/srv/g".to_string(), ..AppConfig::default() });
    app.config.new_cluster_name = "x".to_string();
    assert_eq!(app.user_target_dir(), "/srv/g/x");
}

#[test]
fn listings_need_file_system_names() {
    let good = DirListing { entries: vec![dir("apps", vec![dir("a", vec![file("kustomization.yaml")])])] };
    assert!(good.is_ok_at(0));
    let slash = DirListing { entries: vec![dir("a/b", vec![file("kustomization.yaml")])] };
    assert!(!slash.is_ok_at(0));
    let empty_name = DirListing { entries: vec![dir("", vec![])] };
    assert!(!empty_name.is_ok_at(0));
    let twice = DirListing { entries: vec![dir("a", vec![]), file("a")] };
    assert!(!twice.is_ok_at(0));
    // Files may have any name; only directories are looked into.
    let file_slash = DirListing { entries: vec![file("x/y")] };
    assert!(file_slash.is_ok_at(0));
}

#[test]
fn execution_log_drops_escape_sequences() {
    let (tx, rx) = std::sync::mpsc::channel();
    let mut s = ExecutingState::new(rx);
    tx.send(ExecutionEvent::Log("\x1b[1;32m✔ installed\x1b[0m".to_string())).unwrap();
    tx.send(ExecutionEvent::Log("\x1b[1m".to_string())).unwrap();
    tx.send(ExecutionEvent::Log("a\x1b(b\x1b[".to_string())).unwrap();
    s.poll_events();
    assert_eq!(s.logs[0], "\x1b[1;32m✔ installed\x1b[0m");
    assert_eq!(s.log_text(), "✔ installed\n\na\n\n[RUNNING...]\n");
    let mut out = Vec::new();
    gitops_bootstrap::executing::push_stripped(&mut out, "x\x1b[38;5;208my\x1b");
    assert_eq!(out, vec!['x', 'y']);
    let strip = |t: &str| {
        let mut v = Vec::new();
        gitops_bootstrap::executing::push_stripped(&mut v, t);
        v.into_iter().collect::<String>()
    };
    assert_eq!(strip("\x1b(Btext\x1b)0"), "text");
    assert_eq!(strip("\x1b]0;window title\x07done"), "done");
    assert_eq!(strip("\x1b]8;;http://x\x1b\\link\x1b]8;;\x1b\\ end"), "link end");
    assert_eq!(strip("\x1b]2;t\x1b[31mred\x1b[0m"), "red");
    assert_eq!(strip("\x1b7saved\x1b8"), "saved");
}

#[test]
fn execution_prompt_takes_an_answer() {
    let (tx, rx) = std::sync::mpsc::channel();
    let mut s = ExecutingState::new(rx);
    tx.send(ExecutionEvent::Log("installing".to_string())).unwrap();
    s.poll_events();
    assert!(!s.awaits_answer());
    assert!(!s.handle_event(&key(KeyCode::Char('y'))));
    assert!(s.answer.is_none());
    tx.send(ExecutionEvent::Log("\x1b[33m? continue [y/N]\x1b[0m".to_string())).unwrap();
    s.poll_events();
    assert!(s.awaits_answer());
    assert!(!s.handle_event(&key(KeyCode::Char('x'))));
    assert!(s.handle_event(&key(KeyCode::Char('Y'))));
    assert_eq!(s.answer.as_deref(), Some("y"));
    assert_eq!(s.answered_lines, 2);
    assert!(!s.awaits_answer());
    assert!(!s.handle_event(&key(KeyCode::Char('n'))));
    assert_eq!(s.answer.take().as_deref(), Some("y"));
    tx.send(ExecutionEvent::Log("again [y/N]".to_string())).unwrap();
    s.poll_events();
    assert!(s.handle_event(&key(KeyCode::Enter)));
    assert_eq!(s.answer.as_deref(), Some(""));
    assert!(!s.is_done && !s.should_quit);
}

#[test]
fn nested_tree_nodes_keep_their_shape() {
    let file = |n: &str| DirEntryInfo { name: n.to_string(), is_dir: false, contents: DirListing { entries: vec![] } };
    let dir = |n: &str, es: Vec<DirEntryInfo>| DirEntryInfo { name: n.to_string(), is_dir: true, contents: DirListing { entries: es } };
    let l = DirListing {
        entries: vec![dir(
            "infra",
            vec![dir("net", vec![dir("cilium", vec![file("helm-release.yaml")]), dir("calico", vec![file("kustomization.yml")])])],
        )],
    };
    let t = gitops_bootstrap::tree::build_tree(&l, "", 0);
    assert_eq!(t.len(), 1);
    let net = &t[0].children[0];
    assert_eq!((net.path.as_str(), net.depth, net.is_leaf), ("infra/net", 1, false));
    let names: Vec<&str> = net.children.iter().map(|c| c.name.as_str()).collect();
    assert_eq!(names, vec!["calico", "cilium"]);
    for c in net.children.iter() {
        assert_eq!(c.depth, 2);
        assert_eq!(c.path, format!("infra/net/{}", c.name));
        assert!(c.is_leaf && c.children.is_empty());
    }
    assert!(net.children[1].is_helm && !net.children[0].is_helm);
}

#[test]
fn a_missing_ssh_key_is_refused() {
    assert_eq!(
        gitops_bootstrap::bootstrap::missing_key_error("", true).as_deref(),
        Some("Git SSH Key Path is required for pushing to remote and bootstrapping.")
    );
    assert_eq!(gitops_bootstrap::bootstrap::missing_key_error("", false).as_deref(), Some("Git SSH Key Path is required for bootstrapping."));
    assert!(gitops_bootstrap::bootstrap::missing_key_error("~/.ssh/id", true).is_none());
    assert!(gitops_bootstrap::bootstrap::missing_key_error("k", false).is_none());
}
