use vstd::prelude::*;
use crate::collections::views;
use crate::paths::{join_path, path_join};
use crate::text::{chars_of, contains_sub, string_from_chars};

verus! {

broadcast use vstd::string::group_string_axioms;

/// A name made of lower-case ASCII letters, digits and hyphens only.
pub open spec fn plain_name(s: Seq<char>) -> bool {
    &&& s.len() > 0
    &&& forall|i: int| 0 <= i < s.len() ==> {
        let c = #[trigger] s[i];
        ('a' <= c && c <= 'z') || ('0' <= c && c <= '9') || c == '-'
    }
}

/// The cache directory of an application (`ProjectDirs::from(..).cache_dir()`), where the
/// platform and the environment give one.
///
/// On every platform the directory is built below a base directory from the environment
/// by appending the application's name (on Linux trimmed and lower-cased, on macOS with
/// spaces made hyphens), so a plain name occurs in it. Which base directory, and whether
/// there is one at all, depends on the environment and is left unsaid.
#[verifier::external_body]
fn project_cache_dir(qualifier: &str, organization: &str, application: &str) -> (r: Option<String>)
    ensures
        plain_name(application@) ==> (r matches Some(d) ==> contains_sub(d@, application@)),
{
    directories::ProjectDirs::from(qualifier, organization, application)
        .map(|p| p.cache_dir().to_string_lossy().into_owned())
}

/// The text after the last `/` of `s` (all of `s` if it has none).
pub open spec fn last_segment(s: Seq<char>) -> Seq<char>
    decreases s.len(),
{
    if s.len() == 0 {
        s
    } else if s.last() == '/' {
        Seq::empty()
    } else {
        last_segment(s.drop_last()).push(s.last())
    }
}

/// `s` ends with `.git`.
pub open spec fn ends_with_git(s: Seq<char>) -> bool {
    s.len() >= 4 && s.subrange(s.len() - 4, s.len() as int) == seq!['.', 'g', 'i', 't']
}

/// `s` with every trailing `.git` taken off (`str::trim_end_matches(".git")`).
pub open spec fn trim_git(s: Seq<char>) -> Seq<char>
    decreases s.len(),
{
    if ends_with_git(s) {
        trim_git(s.subrange(0, s.len() - 4))
    } else {
        s
    }
}

/// The directory name of a clone of `url`: its last path segment without `.git`.
pub open spec fn repo_name(url: Seq<char>) -> Seq<char> {
    trim_git(last_segment(url))
}

/// The last segment of a URL, without its trailing `.git`s.
pub fn repo_name_of(url: &str) -> (r: String)
    ensures
        r@ == repo_name(url@),
{
    let cs = chars_of(url);
    let mut start: usize = cs.len();
    proof {
        assert(cs@.subrange(0, cs@.len() as int) =~= cs@);
        assert(cs@.subrange(cs@.len() as int, cs@.len() as int) =~= Seq::<char>::empty());
        assert(last_segment(cs@) + Seq::<char>::empty() =~= last_segment(cs@));
    }
    while start > 0 && cs[start - 1] != '/'
        invariant
            start <= cs@.len(),
            last_segment(cs@) == last_segment(cs@.subrange(0, start as int)) + cs@.subrange(start as int, cs@.len() as int),
        decreases start,
    {
        proof {
            let pre = cs@.subrange(0, start as int);
            assert(pre.drop_last() =~= cs@.subrange(0, start - 1));
            assert(cs@.subrange(start - 1, cs@.len() as int) =~= seq![pre.last()] + cs@.subrange(start as int, cs@.len() as int));
            assert(last_segment(pre) == last_segment(pre.drop_last()).push(pre.last()));
            assert(last_segment(pre.drop_last()).push(pre.last()) + cs@.subrange(start as int, cs@.len() as int)
                =~= last_segment(pre.drop_last()) + cs@.subrange(start - 1, cs@.len() as int));
        }
        start = start - 1;
    }
    proof {
        let pre = cs@.subrange(0, start as int);
        assert(last_segment(pre) =~= Seq::<char>::empty());
    }
    let mut end: usize = cs.len();
    while end - start >= 4 && cs[end - 4] == '.' && cs[end - 3] == 'g' && cs[end - 2] == 'i' && cs[end - 1] == 't'
        invariant
            start <= end <= cs@.len(),
            repo_name(url@) == trim_git(cs@.subrange(start as int, end as int)),
        decreases end,
    {
        proof {
            let seg = cs@.subrange(start as int, end as int);
            assert(seg.subrange(seg.len() - 4, seg.len() as int) =~= seq!['.', 'g', 'i', 't']);
            assert(seg.subrange(0, seg.len() - 4) =~= cs@.subrange(start as int, end - 4));
        }
        end = end - 4;
    }
    proof {
        let seg = cs@.subrange(start as int, end as int);
        if ends_with_git(seg) {
            assert(seg.subrange(seg.len() - 4, seg.len() as int)[0] == cs@[end - 4]);
            assert(seg.subrange(seg.len() - 4, seg.len() as int)[1] == cs@[end - 3]);
            assert(seg.subrange(seg.len() - 4, seg.len() as int)[2] == cs@[end - 2]);
            assert(seg.subrange(seg.len() - 4, seg.len() as int)[3] == cs@[end - 1]);
        }
    }
    let mut out: Vec<char> = Vec::new();
    let mut k: usize = start;
    while k < end
        invariant
            start <= k <= end <= cs@.len(),
            out@ == cs@.subrange(start as int, k as int),
        decreases end - k,
    {
        out.push(cs[k]);
        proof {
            assert(cs@.subrange(start as int, k + 1) =~= cs@.subrange(start as int, k as int).push(cs@[k as int]));
        }
        k = k + 1;
    }
    string_from_chars(out.as_slice())
}

/// Where the program keeps its clone of a template repository.
#[derive(Debug)]
pub struct GitManager {
    pub repo_url: String,
    pub cache_dir: String,
    pub repo_dir: String,
}

/// How a clone is brought up to date.
#[derive(Debug, Clone, Copy, PartialEq, Eq, Structural)]
pub enum SyncStep {
    /// The directory holds a clone: pull into it.
    Pull,
    /// The directory is empty or holds no clone: clone into it.
    Clone,
}

/// A run of `git`: its arguments and the error to give if it fails.
#[derive(Debug)]
pub struct GitCommand {
    pub args: Vec<String>,
    pub failure: String,
}

impl GitManager {
    /// A manager for `repo_url` below the cache directory `cache_dir`, or the error to
    /// give when there is none. The clone goes into the directory named by `repo_name`.
    pub fn with_cache_dir(repo_url: &str, cache_dir: Option<String>) -> (r: Result<GitManager, String>)
        ensures
            match cache_dir {
                Some(d) => r matches Ok(m) && m.repo_url@ == repo_url@ && m.cache_dir@ == d@
                    && m.repo_dir@ == join_path(d@, repo_name(repo_url@)),
                None => r matches Err(e) && e@ == "Could not determine config directory"@,
            },
    {
        match cache_dir {
            Some(d) => {
                let name = repo_name_of(repo_url);
                let repo_dir = path_join(d.as_str(), name.as_str());
                Ok(GitManager { repo_url: repo_url.to_owned(), cache_dir: d, repo_dir })
            },
            None => Err("Could not determine config directory".to_owned()),
        }
    }

    /// A manager for `repo_url` below the program's cache directory, which the
    /// environment decides; the error if there is none.
    pub fn new(repo_url: &str) -> (r: Result<GitManager, String>)
        ensures
            match r {
                Ok(m) => m.repo_url@ == repo_url@ && contains_sub(m.cache_dir@, "gitops-bootstrap-tui"@)
                    && m.repo_dir@ == join_path(m.cache_dir@, repo_name(repo_url@)),
                Err(e) => e@ == "Could not determine config directory"@,
            },
    {
        proof {
            reveal_strlit("gitops-bootstrap-tui");
            assert(plain_name("gitops-bootstrap-tui"@));
        }
        let dir = project_cache_dir("", "", "gitops-bootstrap-tui");
        GitManager::with_cache_dir(repo_url, dir)
    }

    /// The `.git` directory of the clone.
    pub fn git_dir(&self) -> (r: String)
        ensures
            r@ == join_path(self.repo_dir@, ".git"@),
    {
        path_join(self.repo_dir.as_str(), ".git")
    }

    /// Pull when the directory is not empty and holds a `.git` directory; clone otherwise.
    pub fn sync_step(is_empty: bool, has_git_dir: bool) -> (r: SyncStep)
        ensures
            r == (if !is_empty && has_git_dir { SyncStep::Pull } else { SyncStep::Clone }),
    {
        if !is_empty && has_git_dir {
            SyncStep::Pull
        } else {
            SyncStep::Clone
        }
    }

    /// The `git` run that brings the clone up to date: `git -C <dir> pull`, or
    /// `git clone <url> <dir>`, each with its error message.
    pub fn sync_command(&self, step: SyncStep) -> (r: GitCommand)
        ensures
            step == SyncStep::Pull ==> views(r.args@) == seq!["-C"@, self.repo_dir@, "pull"@]
                && r.failure@ == "Failed to pull latest changes from git repository"@,
            step == SyncStep::Clone ==> views(r.args@) == seq!["clone"@, self.repo_url@, self.repo_dir@]
                && r.failure@ == "Failed to clone git repository"@,
    {
        match step {
            SyncStep::Pull => {
                let args = vec!["-C".to_owned(), self.repo_dir.clone(), "pull".to_owned()];
                assert(views(args@) =~= seq!["-C"@, self.repo_dir@, "pull"@]);
                GitCommand { args, failure: "Failed to pull latest changes from git repository".to_owned() }
            },
            SyncStep::Clone => {
                let args = vec!["clone".to_owned(), self.repo_url.clone(), self.repo_dir.clone()];
                assert(views(args@) =~= seq!["clone"@, self.repo_url@, self.repo_dir@]);
                GitCommand { args, failure: "Failed to clone git repository".to_owned() }
            },
        }
    }
}

/// The directory name of a clone never ends with `.git`.
pub proof fn lemma_repo_name_plain(url: Seq<char>)
    ensures
        !ends_with_git(repo_name(url)),
{
    lemma_trim_git(last_segment(url));
}

/// `trim_git` leaves no trailing `.git`.
proof fn lemma_trim_git(s: Seq<char>)
    ensures
        !ends_with_git(trim_git(s)),
    decreases s.len(),
{
    if ends_with_git(s) {
        lemma_trim_git(s.subrange(0, s.len() - 4));
    }
}

} // verus!
