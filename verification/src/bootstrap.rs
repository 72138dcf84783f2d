use vstd::prelude::*;
use crate::actions::ActionsState;
use crate::collections::{extend_strings, views};
use crate::paths::{expand_home, expand_home_path, opt_text_view, user_home};
use crate::text::{chars_of, has_prefix, starts_with};

verus! {

broadcast use vstd::string::group_string_axioms;

/// A program to run after generation: its arguments, an environment variable to set,
/// the errors to give when it fails and when it cannot be started, and whether the steps
/// after it still run when it fails.
#[derive(Debug)]
pub struct CommandStep {
    pub program: String,
    pub args: Vec<String>,
    pub env: Option<(String, String)>,
    pub failed: String,
    pub not_started: String,
    pub optional: bool,
}

/// The mathematical form of a step.
pub struct StepView {
    pub program: Seq<char>,
    pub args: Seq<Seq<char>>,
    pub env: Option<(Seq<char>, Seq<char>)>,
    pub failed: Seq<char>,
    pub not_started: Seq<char>,
    pub optional: bool,
}

impl View for CommandStep {
    type V = StepView;

    open spec fn view(&self) -> StepView {
        StepView {
            program: self.program@,
            args: views(self.args@),
            env: match self.env {
                Some((k, v)) => Some((k@, v@)),
                None => None,
            },
            failed: self.failed@,
            not_started: self.not_started@,
            optional: self.optional,
        }
    }
}

/// The views of a list of steps.
pub open spec fn step_views(steps: Seq<CommandStep>) -> Seq<StepView> {
    steps.map_values(|s: CommandStep| s@)
}

/// A `git` step with no environment, whose failure stops the steps.
pub open spec fn git_step(args: Seq<Seq<char>>, failed: Seq<char>, not_started: Seq<char>) -> StepView {
    StepView { program: "git"@, args, env: None, failed, not_started, optional: false }
}

/// The `ssh` command that pushes with the key at `key` alone.
pub open spec fn ssh_command(key: Seq<char>) -> Seq<char> {
    "ssh -i "@ + key + " -o IdentitiesOnly=yes -o StrictHostKeyChecking=accept-new"@
}

/// The environment of the steps that reach the remote: with an SSH key, `git` runs
/// `ssh_command` of it, its leading `~/` standing for the home directory `home`.
pub open spec fn ssh_env(ssh_key: Seq<char>, home: Option<Seq<char>>) -> Option<(Seq<char>, Seq<char>)> {
    if ssh_key.len() > 0 { Some(("GIT_SSH_COMMAND"@, ssh_command(expand_home(ssh_key, home)))) } else { None }
}

/// The steps that make the generated directory a Git repository on `branch` and push it
/// to `url`: init, add everything, commit, add the remote, pull what the remote already
/// holds on `branch` (merging the unrelated histories, conflicts resolved in favour of the
/// remote's side; a remote without the branch makes this step fail, and the steps go on),
/// and force-push the branch, setting it as upstream. The pull and the push use the SSH key
/// of `ssh_env`.
pub open spec fn push_steps(url: Seq<char>, branch: Seq<char>, ssh_key: Seq<char>, home: Option<Seq<char>>) -> Seq<StepView> {
    seq![
        git_step(seq!["init"@, "--initial-branch="@ + branch], "Failed to initialize git repository"@, "Failed to execute git init"@),
        git_step(seq!["add"@, "."@], "Failed to add files to git repository"@, "Failed to execute git add"@),
        git_step(seq!["commit"@, "-m"@, "Initial GitOps Commit"@], "Failed to commit to git repository"@, "Failed to execute git commit"@),
        git_step(seq!["remote"@, "add"@, "origin"@, url], "Failed to add remote to git repository"@, "Failed to execute git remote add"@),
        StepView {
            program: "git"@,
            args: seq![
                "pull"@,
                "--no-rebase"@,
                "--no-edit"@,
                "--allow-unrelated-histories"@,
                "-X"@,
                "theirs"@,
                "origin"@,
                branch,
            ],
            env: ssh_env(ssh_key, home),
            failed: "Failed to pull from remote repository"@,
            not_started: "Failed to execute git pull"@,
            optional: true,
        },
        StepView {
            program: "git"@,
            args: seq!["push"@, "-f"@, "-u"@, "origin"@, branch],
            env: ssh_env(ssh_key, home),
            failed: "Failed to push to remote repository"@,
            not_started: "Failed to execute git push"@,
            optional: false,
        },
    ]
}

/// The view of an optional text.
pub open spec fn opt_str_view(o: Option<&str>) -> Option<Seq<char>> {
    match o {
        Some(s) => Some(s@),
        None => None,
    }
}

fn git_command(args: Vec<String>, failed: &str, not_started: &str) -> (r: CommandStep)
    ensures
        r@ == git_step(views(args@), failed@, not_started@),
{
    CommandStep {
        program: "git".to_owned(),
        args,
        env: None,
        failed: failed.to_owned(),
        not_started: not_started.to_owned(),
        optional: false,
    }
}

/// The environment of the steps that reach the remote (see `ssh_env`).
fn ssh_env_of(ssh_key: &str, home: Option<&str>) -> (r: Option<(String, String)>)
    ensures
        match r {
            Some((k, v)) => ssh_env(ssh_key@, opt_str_view(home)) == Some((k@, v@)),
            None => ssh_env(ssh_key@, opt_str_view(home)) is None,
        },
{
    if ssh_key.unicode_len() > 0 {
        let key = expand_home_path(ssh_key, home);
        let mut cmd = "ssh -i ".to_owned();
        cmd.append(key.as_str());
        cmd.append(" -o IdentitiesOnly=yes -o StrictHostKeyChecking=accept-new");
        Some(("GIT_SSH_COMMAND".to_owned(), cmd))
    } else {
        None
    }
}

/// The steps that put the generated directory under Git and push it (see `push_steps`).
pub fn push_plan(url: &str, branch: &str, ssh_key: &str, home: Option<&str>) -> (r: Vec<CommandStep>)
    ensures
        step_views(r@) == push_steps(url@, branch@, ssh_key@, opt_str_view(home)),
{
    let mut init_branch = "--initial-branch=".to_owned();
    init_branch.append(branch);
    let a1 = vec!["init".to_owned(), init_branch];
    let a2 = vec!["add".to_owned(), ".".to_owned()];
    let a3 = vec!["commit".to_owned(), "-m".to_owned(), "Initial GitOps Commit".to_owned()];
    let a4 = vec!["remote".to_owned(), "add".to_owned(), "origin".to_owned(), url.to_owned()];
    let a5 = vec![
        "pull".to_owned(),
        "--no-rebase".to_owned(),
        "--no-edit".to_owned(),
        "--allow-unrelated-histories".to_owned(),
        "-X".to_owned(),
        "theirs".to_owned(),
        "origin".to_owned(),
        branch.to_owned(),
    ];
    let a6 = vec!["push".to_owned(), "-f".to_owned(), "-u".to_owned(), "origin".to_owned(), branch.to_owned()];
    proof {
        assert(views(a1@) =~= seq!["init"@, "--initial-branch="@ + branch@]);
        assert(views(a2@) =~= seq!["add"@, "."@]);
        assert(views(a3@) =~= seq!["commit"@, "-m"@, "Initial GitOps Commit"@]);
        assert(views(a4@) =~= seq!["remote"@, "add"@, "origin"@, url@]);
        assert(views(a5@) =~= seq![
            "pull"@,
            "--no-rebase"@,
            "--no-edit"@,
            "--allow-unrelated-histories"@,
            "-X"@,
            "theirs"@,
            "origin"@,
            branch@,
        ]);
        assert(views(a6@) =~= seq!["push"@, "-f"@, "-u"@, "origin"@, branch@]);
    }
    let pull_env = ssh_env_of(ssh_key, home);
    let push_env = ssh_env_of(ssh_key, home);
    let steps = vec![
        git_command(a1, "Failed to initialize git repository", "Failed to execute git init"),
        git_command(a2, "Failed to add files to git repository", "Failed to execute git add"),
        git_command(a3, "Failed to commit to git repository", "Failed to execute git commit"),
        git_command(a4, "Failed to add remote to git repository", "Failed to execute git remote add"),
        CommandStep {
            program: "git".to_owned(),
            args: a5,
            env: pull_env,
            failed: "Failed to pull from remote repository".to_owned(),
            not_started: "Failed to execute git pull".to_owned(),
            optional: true,
        },
        CommandStep {
            program: "git".to_owned(),
            args: a6,
            env: push_env,
            failed: "Failed to push to remote repository".to_owned(),
            not_started: "Failed to execute git push".to_owned(),
            optional: false,
        },
    ];
    assert(step_views(steps@) =~= push_steps(url@, branch@, ssh_key@, opt_str_view(home)));
    steps
}

/// The manifests that point Flux, installed without bootstrap, at the repository `url` on
/// `branch` and at the directory `path` in it.
pub open spec fn flux_manifest(branch: Seq<char>, url: Seq<char>, path: Seq<char>) -> Seq<char> {
    "\napiVersion: source.toolkit.fluxcd.io/v1\nkind: GitRepository\nmetadata:\n  name: flux-system\n  namespace: flux-system\nspec:\n  interval: 1m0s\n  ref:\n    branch: "@
        + branch + "\n  url: "@ + url
        + "\n---\napiVersion: kustomize.toolkit.fluxcd.io/v1\nkind: Kustomization\nmetadata:\n  name: flux-system\n  namespace: flux-system\nspec:\n  interval: 1m0s\n  path: "@
        + path
        + "\n  prune: true\n  sourceRef:\n    kind: GitRepository\n    name: flux-system\n"@
}

/// The `--kubeconfig` argument, if a kubeconfig is given.
pub open spec fn kube_arg(kubeconfig: Seq<char>, home: Option<Seq<char>>) -> Seq<Seq<char>> {
    if kubeconfig.len() > 0 { seq!["--kubeconfig="@ + expand_home(kubeconfig, home)] } else { Seq::empty() }
}

/// The `--private-key-file` argument, if a key is given.
pub open spec fn key_arg(ssh_key: Seq<char>, home: Option<Seq<char>>) -> Seq<Seq<char>> {
    if ssh_key.len() > 0 { seq!["--private-key-file="@ + expand_home(ssh_key, home)] } else { Seq::empty() }
}

/// `url` is reached over plain or secure HTTP.
pub open spec fn is_http(url: Seq<char>) -> bool {
    starts_with(url, "http://"@) || starts_with(url, "https://"@)
}

/// How Flux is set up.
#[derive(Debug)]
pub enum FluxPlan {
    /// For a `git://` URL: run `flux` with `install_args`, then `kubectl` with
    /// `kubectl_args`, with `manifest` as its input.
    Manifests { install_args: Vec<String>, kubectl_args: Vec<String>, manifest: String },
    /// Otherwise: run `flux` with `args` (`bootstrap git ...`).
    Bootstrap { args: Vec<String> },
}

/// `r` sets Flux up as `flux_plan` does, with `h` as the home directory.
pub open spec fn flux_plan_is(
    r: FluxPlan,
    url: Seq<char>,
    branch: Seq<char>,
    path: Seq<char>,
    kubeconfig: Seq<char>,
    ssh_key: Seq<char>,
    h: Option<Seq<char>>,
) -> bool {
    let kube = kube_arg(kubeconfig, h);
    if starts_with(url, "git://"@) {
        r matches FluxPlan::Manifests { install_args, kubectl_args, manifest }
            && views(install_args@) == seq!["install"@] + kube
            && views(kubectl_args@) == seq!["apply"@, "-f"@, "-"@] + kube
            && manifest@ == flux_manifest(branch, url, path)
    } else {
        r matches FluxPlan::Bootstrap { args } && views(args@) == seq![
            "bootstrap"@,
            "git"@,
            "--url="@ + url,
            "--branch="@ + branch,
            "--path="@ + path,
        ] + (if is_http(url) { seq!["--allow-insecure-http=true"@] } else { Seq::empty() }) + kube
            + key_arg(ssh_key, h)
    }
}

/// How Flux is set up for the repository `url` on `branch`, the directory `path` in it,
/// the kubeconfig and the SSH key (each may be empty; a leading `~/` stands for the home
/// directory `home`). A `git://` repository gets `flux install` and the manifests of
/// `flux_manifest` applied by `kubectl`; any other gets `flux bootstrap git` with the URL,
/// branch and path, `--allow-insecure-http=true` for HTTP(S), the kubeconfig and the key.
pub fn flux_plan(url: &str, branch: &str, path: &str, kubeconfig: &str, ssh_key: &str, home: Option<&str>) -> (r: FluxPlan)
    ensures
        flux_plan_is(r, url@, branch@, path@, kubeconfig@, ssh_key@, opt_str_view(home)),
{
    let mut kube: Vec<String> = Vec::new();
    if kubeconfig.unicode_len() > 0 {
        let mut arg = "--kubeconfig=".to_owned();
        let expanded = expand_home_path(kubeconfig, home);
        arg.append(expanded.as_str());
        kube.push(arg);
    }
    assert(views(kube@) =~= kube_arg(kubeconfig@, opt_str_view(home)));
    let u = chars_of(url);
    let git_scheme = chars_of("git://");
    proof {
        reveal_strlit("git://");
    }
    if has_prefix(&u, &git_scheme) {
        let mut install_args = vec!["install".to_owned()];
        let mut kubectl_args = vec!["apply".to_owned(), "-f".to_owned(), "-".to_owned()];
        let ghost i0 = views(install_args@);
        let ghost k0 = views(kubectl_args@);
        extend_strings(&mut install_args, &kube);
        extend_strings(&mut kubectl_args, &kube);
        proof {
            assert(i0 =~= seq!["install"@]);
            assert(k0 =~= seq!["apply"@, "-f"@, "-"@]);
        }
        let mut manifest = "\napiVersion: source.toolkit.fluxcd.io/v1\nkind: GitRepository\nmetadata:\n  name: flux-system\n  namespace: flux-system\nspec:\n  interval: 1m0s\n  ref:\n    branch: ".to_owned();
        manifest.append(branch);
        manifest.append("\n  url: ");
        manifest.append(url);
        manifest.append("\n---\napiVersion: kustomize.toolkit.fluxcd.io/v1\nkind: Kustomization\nmetadata:\n  name: flux-system\n  namespace: flux-system\nspec:\n  interval: 1m0s\n  path: ");
        manifest.append(path);
        manifest.append("\n  prune: true\n  sourceRef:\n    kind: GitRepository\n    name: flux-system\n");
        FluxPlan::Manifests { install_args, kubectl_args, manifest }
    } else {
        let mut url_arg = "--url=".to_owned();
        url_arg.append(url);
        let mut branch_arg = "--branch=".to_owned();
        branch_arg.append(branch);
        let mut path_arg = "--path=".to_owned();
        path_arg.append(path);
        let mut args = vec!["bootstrap".to_owned(), "git".to_owned(), url_arg, branch_arg, path_arg];
        let ghost a0 = views(args@);
        let http = chars_of("http://");
        let https = chars_of("https://");
        proof {
            reveal_strlit("http://");
            reveal_strlit("https://");
        }
        if has_prefix(&u, &http) || has_prefix(&u, &https) {
            args.push("--allow-insecure-http=true".to_owned());
        }
        let ghost a1 = views(args@);
        assert(a1 =~= a0 + (if is_http(url@) { seq!["--allow-insecure-http=true"@] } else { Seq::<Seq<char>>::empty() }));
        extend_strings(&mut args, &kube);
        let ghost a2 = views(args@);
        if ssh_key.unicode_len() > 0 {
            let mut arg = "--private-key-file=".to_owned();
            let expanded = expand_home_path(ssh_key, home);
            arg.append(expanded.as_str());
            args.push(arg);
        }
        proof {
            assert(views(args@) =~= a2 + key_arg(ssh_key@, opt_str_view(home)));
            assert(a0 =~= seq!["bootstrap"@, "git"@, "--url="@ + url@, "--branch="@ + branch@, "--path="@ + path@]);
        }
        FluxPlan::Bootstrap { args }
    }
}

/// What is said when a step that reaches the remote has no SSH key: the push (which the
/// bootstrap follows) and the bootstrap alone each need one.
pub open spec fn spec_missing_key(ssh_key: Seq<char>, for_push: bool) -> Option<Seq<char>> {
    if ssh_key.len() > 0 {
        None
    } else if for_push {
        Some("Git SSH Key Path is required for pushing to remote and bootstrapping."@)
    } else {
        Some("Git SSH Key Path is required for bootstrapping."@)
    }
}

/// The error for a push (`for_push`) or a bootstrap without an SSH key, if `ssh_key` is
/// empty (see `spec_missing_key`).
pub fn missing_key_error(ssh_key: &str, for_push: bool) -> (r: Option<String>)
    ensures
        match r {
            Some(m) => spec_missing_key(ssh_key@, for_push) == Some(m@),
            None => spec_missing_key(ssh_key@, for_push) is None,
        },
{
    if ssh_key.unicode_len() > 0 {
        None
    } else if for_push {
        Some("Git SSH Key Path is required for pushing to remote and bootstrapping.".to_owned())
    } else {
        Some("Git SSH Key Path is required for bootstrapping.".to_owned())
    }
}

/// Where the repository is pushed: the Flux dialog's URL, branch and SSH key (its first,
/// second and fifth fields), or, without the dialog, a placeholder URL, `main` and no key.
pub open spec fn push_settings(a: ActionsState) -> (Seq<char>, Seq<char>, Seq<char>) {
    match a.flux_modal {
        Some(m) => (m@.inputs[0].0, m@.inputs[1].0, m@.inputs[4].0),
        None => ("git@github.com:my-org/my-gitops-repo.git"@, "main"@, ""@),
    }
}

/// The URL, branch and SSH key that the repository is pushed with.
pub fn push_settings_of(a: &ActionsState) -> (r: (String, String, String))
    requires
        a.flux_modal matches Some(m) ==> m.inputs@.len() >= 5,
    ensures
        (r.0@, r.1@, r.2@) == push_settings(*a),
{
    match &a.flux_modal {
        Some(m) => {
            proof { assert(m.inputs@.len() == m@.inputs.len()); }
            (m.inputs[0].value().to_owned(), m.inputs[1].value().to_owned(), m.inputs[4].value().to_owned())
        },
        None => ("git@github.com:my-org/my-gitops-repo.git".to_owned(), "main".to_owned(), "".to_owned()),
    }
}

/// What Flux is bootstrapped with: the Flux dialog's URL, branch, path, kubeconfig and SSH
/// key (its first five fields).
pub open spec fn flux_settings(m: crate::actions::ModalView) -> (Seq<char>, Seq<char>, Seq<char>, Seq<char>, Seq<char>) {
    (m.inputs[0].0, m.inputs[1].0, m.inputs[2].0, m.inputs[3].0, m.inputs[4].0)
}

/// The URL, branch, path, kubeconfig and SSH key that Flux is bootstrapped with.
pub fn flux_settings_of(m: &crate::actions::ModalState) -> (r: (String, String, String, String, String))
    requires
        m.inputs@.len() >= 5,
    ensures
        (r.0@, r.1@, r.2@, r.3@, r.4@) == flux_settings(m@),
{
    proof { assert(m.inputs@.len() == m@.inputs.len()); }
    (
        m.inputs[0].value().to_owned(),
        m.inputs[1].value().to_owned(),
        m.inputs[2].value().to_owned(),
        m.inputs[3].value().to_owned(),
        m.inputs[4].value().to_owned(),
    )
}

/// The steps that put the generated directory under Git and push it, with the user's home
/// directory, if there is one, for a leading `~/` of the key.
pub fn push_plan_for_user(url: &str, branch: &str, ssh_key: &str) -> (r: Vec<CommandStep>)
    ensures
        exists|h: Option<Seq<char>>| step_views(r@) == push_steps(url@, branch@, ssh_key@, h),
{
    let home = user_home();
    let r = match &home {
        Some(h) => push_plan(url, branch, ssh_key, Some(h.as_str())),
        None => push_plan(url, branch, ssh_key, None),
    };
    assert(step_views(r@) == push_steps(url@, branch@, ssh_key@, opt_text_view(home)));
    r
}

/// How Flux is set up, with the user's home directory, if there is one, for a leading
/// `~/` of the kubeconfig and the key.
pub fn flux_plan_for_user(url: &str, branch: &str, path: &str, kubeconfig: &str, ssh_key: &str) -> (r: FluxPlan)
    ensures
        exists|h: Option<Seq<char>>| #[trigger] flux_plan_is(r, url@, branch@, path@, kubeconfig@, ssh_key@, h),
{
    let home = user_home();
    let r = match &home {
        Some(h) => flux_plan(url, branch, path, kubeconfig, ssh_key, Some(h.as_str())),
        None => flux_plan(url, branch, path, kubeconfig, ssh_key, None),
    };
    assert(flux_plan_is(r, url@, branch@, path@, kubeconfig@, ssh_key@, opt_text_view(home)));
    r
}

/// Flux is bootstrapped with the same key file that the push uses: for a repository that is
/// not `git://` and a key given, the last bootstrap argument is `--private-key-file=` and
/// the key's path, a leading `~/` replaced by the home directory `h` (joined as a path)
/// when one is known, and the push runs `ssh` with exactly that path.
pub proof fn lemma_flux_key_file(
    r: FluxPlan,
    url: Seq<char>,
    branch: Seq<char>,
    path: Seq<char>,
    kubeconfig: Seq<char>,
    ssh_key: Seq<char>,
    h: Option<Seq<char>>,
)
    requires
        flux_plan_is(r, url, branch, path, kubeconfig, ssh_key, h),
        !starts_with(url, "git://"@),
        ssh_key.len() > 0,
    ensures
        ({
            let file = if ssh_key.len() >= 2 && ssh_key[0] == '~' && ssh_key[1] == '/' && h is Some {
                crate::paths::join_path(h->0, ssh_key.skip(2))
            } else {
                ssh_key
            };
            &&& r matches FluxPlan::Bootstrap { args } && args@.len() > 0
                && args@.last()@ == "--private-key-file="@ + file
            &&& push_steps(url, branch, ssh_key, h)[5].env == Some(("GIT_SSH_COMMAND"@, ssh_command(file)))
            &&& push_steps(url, branch, ssh_key, h)[4].env == Some(("GIT_SSH_COMMAND"@, ssh_command(file)))
        }),
{
    let args = r->Bootstrap_args;
    let base = seq![
        "bootstrap"@,
        "git"@,
        "--url="@ + url,
        "--branch="@ + branch,
        "--path="@ + path,
    ] + (if is_http(url) { seq!["--allow-insecure-http=true"@] } else { Seq::empty() }) + kube_arg(kubeconfig, h);
    let v = views(args@);
    assert(v == base + key_arg(ssh_key, h));
    assert(v.len() == args@.len());
    assert(v[v.len() - 1] == args@[args@.len() - 1]@);
    assert(starts_with(ssh_key, seq!['~', '/']) == (ssh_key.len() >= 2 && ssh_key[0] == '~' && ssh_key[1] == '/')) by {
        if ssh_key.len() >= 2 && ssh_key[0] == '~' && ssh_key[1] == '/' {
            assert(ssh_key.take(2) =~= seq!['~', '/']);
        }
        if starts_with(ssh_key, seq!['~', '/']) {
            assert(ssh_key.take(2)[0] == ssh_key[0] && ssh_key.take(2)[1] == ssh_key[1]);
        }
    }
}


/// Flux is given the kubeconfig with a leading `~/` replaced by the home directory `h`
/// (joined as a path) when one is known: `flux install` and `kubectl` get it as their last
/// argument for a `git://` repository; otherwise it is the bootstrap's last argument, or
/// the one before the key file when a key is given.
pub proof fn lemma_flux_kubeconfig(
    r: FluxPlan,
    url: Seq<char>,
    branch: Seq<char>,
    path: Seq<char>,
    kubeconfig: Seq<char>,
    ssh_key: Seq<char>,
    h: Option<Seq<char>>,
)
    requires
        flux_plan_is(r, url, branch, path, kubeconfig, ssh_key, h),
        kubeconfig.len() > 0,
    ensures
        ({
            let file = if kubeconfig.len() >= 2 && kubeconfig[0] == '~' && kubeconfig[1] == '/' && h is Some {
                crate::paths::join_path(h->0, kubeconfig.skip(2))
            } else {
                kubeconfig
            };
            let arg = "--kubeconfig="@ + file;
            match r {
                FluxPlan::Manifests { install_args, kubectl_args, .. } => views(install_args@) == seq!["install"@, arg]
                    && views(kubectl_args@) == seq!["apply"@, "-f"@, "-"@, arg],
                FluxPlan::Bootstrap { args } => {
                    let k = if ssh_key.len() > 0 { args@.len() - 2 } else { args@.len() - 1 };
                    0 <= k < args@.len() && args@[k]@ == arg
                },
            }
        }),
{
    assert(starts_with(kubeconfig, seq!['~', '/']) == (kubeconfig.len() >= 2 && kubeconfig[0] == '~' && kubeconfig[1] == '/')) by {
        if kubeconfig.len() >= 2 && kubeconfig[0] == '~' && kubeconfig[1] == '/' {
            assert(kubeconfig.take(2) =~= seq!['~', '/']);
        }
        if starts_with(kubeconfig, seq!['~', '/']) {
            assert(kubeconfig.take(2)[0] == kubeconfig[0] && kubeconfig.take(2)[1] == kubeconfig[1]);
        }
    }
    match r {
        FluxPlan::Manifests { install_args, kubectl_args, .. } => {
            assert(seq!["install"@] + kube_arg(kubeconfig, h) =~= seq!["install"@, "--kubeconfig="@ + expand_home(kubeconfig, h)]);
            assert(seq!["apply"@, "-f"@, "-"@] + kube_arg(kubeconfig, h)
                =~= seq!["apply"@, "-f"@, "-"@, "--kubeconfig="@ + expand_home(kubeconfig, h)]);
        },
        FluxPlan::Bootstrap { args } => {
            let base = seq![
                "bootstrap"@,
                "git"@,
                "--url="@ + url,
                "--branch="@ + branch,
                "--path="@ + path,
            ] + (if is_http(url) { seq!["--allow-insecure-http=true"@] } else { Seq::empty() });
            let v = views(args@);
            assert(v == base + kube_arg(kubeconfig, h) + key_arg(ssh_key, h));
            assert(v.len() == args@.len());
            let k = if ssh_key.len() > 0 { args@.len() - 2 } else { args@.len() - 1 };
            assert(k == base.len());
            assert(v[k] == args@[k]@);
        },
    }
}

} // verus!
