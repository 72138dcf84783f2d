use vstd::prelude::*;
use crate::paths::{join_path, path_join};

verus! {

broadcast use vstd::string::group_string_axioms;

/// The settings that the program keeps between runs (in
/// `~/.config/gitops-bootstrap-tui/config.json`).
#[derive(Debug)]
pub struct AppConfig {
    pub template_repo_url: String,
    pub base_dir_path: String,
    pub gitops_dir_path: String,
    pub new_cluster_name: String,
    pub init_git: bool,
    pub git_daemon: bool,
    pub bootstrap_flux: bool,
    pub git_daemon_address: String,
    pub git_branch: String,
    pub git_http_server: bool,
    pub git_http_server_port: u16,
    pub flux_git_url: String,
    pub flux_git_branch: String,
    pub flux_kubeconfig: String,
    pub flux_ssh_key_path: String,
}

impl Clone for AppConfig {
    fn clone(&self) -> (r: Self)
        ensures
            r == *self,
    {
        AppConfig {
            template_repo_url: self.template_repo_url.clone(),
            base_dir_path: self.base_dir_path.clone(),
            gitops_dir_path: self.gitops_dir_path.clone(),
            new_cluster_name: self.new_cluster_name.clone(),
            init_git: self.init_git,
            git_daemon: self.git_daemon,
            bootstrap_flux: self.bootstrap_flux,
            git_daemon_address: self.git_daemon_address.clone(),
            git_branch: self.git_branch.clone(),
            git_http_server: self.git_http_server,
            git_http_server_port: self.git_http_server_port,
            flux_git_url: self.flux_git_url.clone(),
            flux_git_branch: self.flux_git_branch.clone(),
            flux_kubeconfig: self.flux_kubeconfig.clone(),
            flux_ssh_key_path: self.flux_ssh_key_path.clone(),
        }
    }
}

impl AppConfig {
    /// The default settings.
    pub open spec fn spec_default() -> AppConfigView {
        AppConfigView {
            template_repo_url: "https://github.com/basarsubasi/flux-templates.git"@,
            base_dir_path: "bases"@,
            gitops_dir_path: "~/my-gitops-repo"@,
            new_cluster_name: "my-cluster"@,
            init_git: true,
            git_daemon: false,
            bootstrap_flux: true,
            git_daemon_address: "127.0.0.1"@,
            git_branch: "main"@,
            git_http_server: true,
            git_http_server_port: 8080,
            flux_git_url: "http://127.0.0.1:8080"@,
            flux_git_branch: "main"@,
            flux_kubeconfig: "~/.kube/config"@,
            flux_ssh_key_path: ""@,
        }
    }

    /// The settings written on the first run, when no settings file exists: the defaults,
    /// with the cluster named `my-cluster-1`.
    pub open spec fn spec_first_run() -> AppConfigView {
        AppConfigView { new_cluster_name: "my-cluster-1"@, ..Self::spec_default() }
    }

    /// The settings written on the first run.
    pub fn first_run() -> (r: AppConfig)
        ensures
            r@ == Self::spec_first_run(),
    {
        AppConfig { new_cluster_name: "my-cluster-1".to_owned(), ..AppConfig::default() }
    }

    /// Settings read from an older file get defaults for the texts it left empty: the
    /// GitOps directory, the cluster name, Flux's Git URL (`git://127.0.0.1/`), branch and
    /// kubeconfig, the Git daemon's address and branch.
    pub open spec fn spec_migrated(c: AppConfigView) -> AppConfigView {
        AppConfigView {
            gitops_dir_path: if c.gitops_dir_path.len() == 0 { "~/my-gitops-repo"@ } else { c.gitops_dir_path },
            new_cluster_name: if c.new_cluster_name.len() == 0 { "my-cluster"@ } else { c.new_cluster_name },
            flux_git_url: if c.flux_git_url.len() == 0 { "git://127.0.0.1/"@ } else { c.flux_git_url },
            flux_git_branch: if c.flux_git_branch.len() == 0 { "main"@ } else { c.flux_git_branch },
            flux_kubeconfig: if c.flux_kubeconfig.len() == 0 { "~/.kube/config"@ } else { c.flux_kubeconfig },
            git_daemon_address: if c.git_daemon_address.len() == 0 { "127.0.0.1"@ } else { c.git_daemon_address },
            git_branch: if c.git_branch.len() == 0 { "main"@ } else { c.git_branch },
            ..c
        }
    }

    /// Fills in the texts that an older settings file left empty.
    pub fn migrate(&mut self)
        ensures
            final(self)@ == Self::spec_migrated(old(self)@),
    {
        if self.gitops_dir_path.as_str().is_empty() {
            self.gitops_dir_path = "~/my-gitops-repo".to_owned();
        }
        if self.new_cluster_name.as_str().is_empty() {
            self.new_cluster_name = "my-cluster".to_owned();
        }
        if self.flux_git_url.as_str().is_empty() {
            self.flux_git_url = "git://127.0.0.1/".to_owned();
        }
        if self.flux_git_branch.as_str().is_empty() {
            self.flux_git_branch = "main".to_owned();
        }
        if self.flux_kubeconfig.as_str().is_empty() {
            self.flux_kubeconfig = "~/.kube/config".to_owned();
        }
        if self.git_daemon_address.as_str().is_empty() {
            self.git_daemon_address = "127.0.0.1".to_owned();
        }
        if self.git_branch.as_str().is_empty() {
            self.git_branch = "main".to_owned();
        }
    }
}

/// The settings as texts and values.
pub struct AppConfigView {
    pub template_repo_url: Seq<char>,
    pub base_dir_path: Seq<char>,
    pub gitops_dir_path: Seq<char>,
    pub new_cluster_name: Seq<char>,
    pub init_git: bool,
    pub git_daemon: bool,
    pub bootstrap_flux: bool,
    pub git_daemon_address: Seq<char>,
    pub git_branch: Seq<char>,
    pub git_http_server: bool,
    pub git_http_server_port: u16,
    pub flux_git_url: Seq<char>,
    pub flux_git_branch: Seq<char>,
    pub flux_kubeconfig: Seq<char>,
    pub flux_ssh_key_path: Seq<char>,
}

impl View for AppConfig {
    type V = AppConfigView;

    open spec fn view(&self) -> AppConfigView {
        AppConfigView {
            template_repo_url: self.template_repo_url@,
            base_dir_path: self.base_dir_path@,
            gitops_dir_path: self.gitops_dir_path@,
            new_cluster_name: self.new_cluster_name@,
            init_git: self.init_git,
            git_daemon: self.git_daemon,
            bootstrap_flux: self.bootstrap_flux,
            git_daemon_address: self.git_daemon_address@,
            git_branch: self.git_branch@,
            git_http_server: self.git_http_server,
            git_http_server_port: self.git_http_server_port,
            flux_git_url: self.flux_git_url@,
            flux_git_branch: self.flux_git_branch@,
            flux_kubeconfig: self.flux_kubeconfig@,
            flux_ssh_key_path: self.flux_ssh_key_path@,
        }
    }
}

impl Default for AppConfig {
    fn default() -> (r: AppConfig)
        ensures
            r@ == AppConfig::spec_default(),
    {
        AppConfig {
            template_repo_url: "https://github.com/basarsubasi/flux-templates.git".to_owned(),
            base_dir_path: "bases".to_owned(),
            gitops_dir_path: "~/my-gitops-repo".to_owned(),
            new_cluster_name: "my-cluster".to_owned(),
            init_git: true,
            git_daemon: false,
            bootstrap_flux: true,
            git_daemon_address: "127.0.0.1".to_owned(),
            git_branch: "main".to_owned(),
            git_http_server: true,
            git_http_server_port: 8080,
            flux_git_url: "http://127.0.0.1:8080".to_owned(),
            flux_git_branch: "main".to_owned(),
            flux_kubeconfig: "~/.kube/config".to_owned(),
            flux_ssh_key_path: "".to_owned(),
        }
    }
}

/// The settings file below the home directory `home`.
pub open spec fn spec_config_file(home: Seq<char>) -> Seq<char> {
    join_path(join_path(join_path(home, ".config"@), "gitops-bootstrap-tui"@), "config.json"@)
}

/// The directory of the settings file below the home directory `home`.
pub open spec fn spec_config_dir(home: Seq<char>) -> Seq<char> {
    join_path(join_path(home, ".config"@), "gitops-bootstrap-tui"@)
}

/// The directory of the settings file.
pub fn config_dir(home: &str) -> (r: String)
    ensures
        r@ == spec_config_dir(home@),
{
    let c = path_join(home, ".config");
    path_join(c.as_str(), "gitops-bootstrap-tui")
}

/// The settings file.
pub fn config_file(home: &str) -> (r: String)
    ensures
        r@ == spec_config_file(home@),
{
    let d = config_dir(home);
    path_join(d.as_str(), "config.json")
}

/// Filling in defaults twice changes nothing more than once, and afterwards none of the
/// texts it fills in is empty.
pub proof fn lemma_migrate_idempotent(c: AppConfigView)
    ensures
        AppConfig::spec_migrated(AppConfig::spec_migrated(c)) == AppConfig::spec_migrated(c),
        AppConfig::spec_migrated(c).gitops_dir_path.len() > 0,
        AppConfig::spec_migrated(c).new_cluster_name.len() > 0,
        AppConfig::spec_migrated(c).flux_git_url.len() > 0,
        AppConfig::spec_migrated(c).flux_git_branch.len() > 0,
        AppConfig::spec_migrated(c).flux_kubeconfig.len() > 0,
        AppConfig::spec_migrated(c).git_daemon_address.len() > 0,
        AppConfig::spec_migrated(c).git_branch.len() > 0,
{
    reveal_strlit("~/my-gitops-repo");
    reveal_strlit("my-cluster");
    reveal_strlit("git://127.0.0.1/");
    reveal_strlit("main");
    reveal_strlit("~/.kube/config");
    reveal_strlit("127.0.0.1");
}

/// The settings file below the user's home directory, if there is one.
pub fn user_config_file() -> (r: Option<String>)
    ensures
        r matches Some(f) ==> exists|h: Seq<char>| f@ == spec_config_file(h),
{
    match crate::paths::user_home() {
        Some(h) => Some(config_file(h.as_str())),
        None => None,
    }
}

/// The directory of the settings file below the user's home directory, if there is one.
pub fn user_config_dir() -> (r: Option<String>)
    ensures
        r matches Some(d) ==> exists|h: Seq<char>| d@ == spec_config_dir(h),
{
    match crate::paths::user_home() {
        Some(h) => Some(config_dir(h.as_str())),
        None => None,
    }
}

} // verus!
