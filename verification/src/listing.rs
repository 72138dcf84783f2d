use vstd::prelude::*;
use crate::text::{str_eq};

verus! {

broadcast use vstd::string::group_string_axioms;

/// What a directory holds, as read from disk: its entries (files, directories, others).
#[derive(Debug)]
pub struct DirListing {
    pub entries: Vec<DirEntryInfo>,
}

/// One entry of a directory. `contents` is what a directory entry holds (empty for
/// anything else, and for a directory that could not be read).
#[derive(Debug)]
pub struct DirEntryInfo {
    pub name: String,
    pub is_dir: bool,
    pub contents: DirListing,
}

/// A name that starts with a dot (a hidden entry).
pub open spec fn is_dot_name(n: Seq<char>) -> bool {
    n.len() > 0 && n[0] == '.'
}

/// A directory entry that the component tree looks into: a directory whose name does not
/// start with a dot.
pub open spec fn visible_dir(e: DirEntryInfo) -> bool {
    e.is_dir && !is_dot_name(e.name@)
}

/// The directory holds an entry named `helm-release.yaml`: it is a Helm release component.
pub open spec fn marks_helm(l: DirListing) -> bool {
    exists|i: int| 0 <= i < l.entries@.len() && #[trigger] l.entries@[i].name@ == "helm-release.yaml"@
}

/// Whether a name marks its directory as a component.
pub open spec fn is_marker(n: Seq<char>) -> bool {
    n == "helm-release.yaml"@ || n == "kustomization.yaml"@ || n == "kustomization.yml"@
}

/// The directory holds `helm-release.yaml`, `kustomization.yaml` or `kustomization.yml`:
/// it is a component (a leaf of the tree).
pub open spec fn marks_leaf(l: DirListing) -> bool {
    exists|i: int| 0 <= i < l.entries@.len() && is_marker(#[trigger] l.entries@[i].name@)
}

/// Some visible directory below `l` is a component.
pub open spec fn has_component(l: DirListing) -> bool
    decreases l,
{
    exists|j: int|
        0 <= j < l.entries@.len() && visible_dir(#[trigger] l.entries@[j]) && (marks_leaf(
            l.entries@[j].contents,
        ) || has_component(l.entries@[j].contents))
}

/// No name occurs twice among the entries of the directory.
pub open spec fn distinct_names(l: DirListing) -> bool {
    forall|i: int, j: int|
        0 <= i < l.entries@.len() && 0 <= j < l.entries@.len() && i != j ==> #[trigger] l.entries@[i].name@
            != #[trigger] l.entries@[j].name@
}

/// A name that a file system gives an entry: not empty, and without `/`.
pub open spec fn entry_name_ok(n: Seq<char>) -> bool {
    n.len() > 0 && forall|i: int| 0 <= i < n.len() ==> n[i] != '/'
}

/// A listing that the tree can be built from at `depth`: no name occurs twice in a
/// directory, every visible directory has a file system's name, and its depth fits a
/// `usize`.
pub open spec fn listing_ok(l: DirListing, depth: nat) -> bool
    decreases l,
{
    &&& distinct_names(l)
    &&& forall|j: int|
        0 <= j < l.entries@.len() && visible_dir(#[trigger] l.entries@[j]) ==> entry_name_ok(l.entries@[j].name@)
            && depth < usize::MAX && listing_ok(l.entries@[j].contents, depth + 1)
}

/// Whether `n` is a name that a file system gives an entry.
pub fn is_entry_name(n: &str) -> (r: bool)
    ensures
        r == entry_name_ok(n@),
{
    let cs = crate::text::chars_of(n);
    if cs.len() == 0 {
        return false;
    }
    let mut i: usize = 0;
    while i < cs.len()
        invariant
            i <= cs@.len(),
            cs@ == n@,
            forall|k: int| 0 <= k < i ==> cs@[k] != '/',
        decreases cs@.len() - i,
    {
        if cs[i] == '/' {
            return false;
        }
        i = i + 1;
    }
    true
}

/// Whether the entry is a visible directory.
pub fn is_visible_dir(e: &DirEntryInfo) -> (r: bool)
    ensures
        r == visible_dir(*e),
{
    if !e.is_dir {
        return false;
    }
    let n = e.name.as_str().unicode_len();
    if n == 0 {
        return true;
    }
    e.name.as_str().get_char(0) != '.'
}

/// Whether a name marks its directory as a component.
pub fn is_marker_name(n: &str) -> (r: bool)
    ensures
        r == is_marker(n@),
{
    str_eq(n, "helm-release.yaml") || str_eq(n, "kustomization.yaml") || str_eq(n, "kustomization.yml")
}

impl DirListing {
    /// An empty listing.
    pub fn new() -> (r: DirListing)
        ensures
            r.entries@.len() == 0,
    {
        DirListing { entries: Vec::new() }
    }

    /// Whether the directory is a component, and whether it is a Helm release.
    pub fn markers(&self) -> (r: (bool, bool))
        ensures
            r.0 == marks_leaf(*self),
            r.1 == marks_helm(*self),
    {
        let mut leaf = false;
        let mut helm = false;
        let mut i: usize = 0;
        while i < self.entries.len()
            invariant
                i <= self.entries@.len(),
                leaf == exists|k: int| 0 <= k < i && is_marker(#[trigger] self.entries@[k].name@),
                helm == exists|k: int| 0 <= k < i && #[trigger] self.entries@[k].name@ == "helm-release.yaml"@,
            decreases self.entries@.len() - i,
        {
            let n = self.entries[i].name.as_str();
            if str_eq(n, "helm-release.yaml") {
                helm = true;
            }
            if is_marker_name(n) {
                leaf = true;
            }
            i = i + 1;
        }
        (leaf, helm)
    }

    /// Whether the tree can be built from this listing at `depth` (see `listing_ok`).
    pub fn is_ok_at(&self, depth: usize) -> (r: bool)
        ensures
            r == listing_ok(*self, depth as nat),
        decreases self,
    {
        let n = self.entries.len();
        let mut i: usize = 0;
        while i < n
            invariant
                n == self.entries@.len(),
                i <= n,
                forall|a: int, b: int|
                    0 <= a < i && 0 <= b < n && a != b ==> #[trigger] self.entries@[a].name@
                        != #[trigger] self.entries@[b].name@,
                forall|j: int|
                    0 <= j < i && visible_dir(#[trigger] self.entries@[j]) ==> entry_name_ok(self.entries@[j].name@)
                        && depth < usize::MAX && listing_ok(self.entries@[j].contents, (depth + 1) as nat),
            decreases n - i,
        {
            let mut k: usize = 0;
            while k < n
                invariant
                    n == self.entries@.len(),
                    i < n,
                    k <= n,
                    forall|b: int| 0 <= b < k && i != b ==> self.entries@[i as int].name@ != #[trigger] self.entries@[b].name@,
                decreases n - k,
            {
                if k != i && str_eq(self.entries[i].name.as_str(), self.entries[k].name.as_str()) {
                    return false;
                }
                k = k + 1;
            }
            if is_visible_dir(&self.entries[i]) {
                if !is_entry_name(self.entries[i].name.as_str()) {
                    return false;
                }
                if depth == usize::MAX {
                    return false;
                }
                if !self.entries[i].contents.is_ok_at(depth + 1) {
                    return false;
                }
            }
            proof {
                assert forall|a: int, b: int|
                    0 <= a < i + 1 && 0 <= b < n && a != b implies #[trigger] self.entries@[a].name@
                        != #[trigger] self.entries@[b].name@ by {
                    if a < i && b == i {
                    }
                }
            }
            i = i + 1;
        }
        true
    }
}

} // verus!
