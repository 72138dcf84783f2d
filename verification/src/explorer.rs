use vstd::prelude::*;
use crate::collections::{PathMap, PathSet};
use crate::listing::{DirListing, listing_ok};
use crate::selection::ListSelection;
pub use crate::tree::{FlatItem, TreeItem};
use crate::listing::{DirEntryInfo, marks_helm, marks_leaf, visible_dir};
use crate::text::lex_lt;
use crate::tree::{agree_except, build_tree, flatten, flatten_all, join_rel, lemma_flatten_prefix, lemma_rows_distinct, lemma_tree_paths, node_ok, paths_ok, tree_ok};

verus! {

/// Which part of the component screen has the focus.
#[derive(Debug, Clone, Copy, PartialEq, Eq, Structural)]
pub enum ExplorerFocus {
    Tree,
    Previous,
    Next,
}

/// The component screen: the tree of components found below the templates' base
/// directory, which nodes are open, which components are chosen, and the Helm values
/// written for some of them.
#[derive(Debug)]
pub struct ExplorerState {
    pub root_path: String,
    pub tree: Vec<TreeItem>,
    pub expanded_paths: PathSet,
    pub checked_paths: PathSet,
    pub customized_paths: PathMap,
    pub flat_list: Vec<FlatItem>,
    pub list_state: ListSelection,
    pub focus: ExplorerFocus,
    pub preview_content: Option<String>,
    pub error_message: Option<String>,
}

/// The selection after the list shrank or grew to `len` rows: kept if it still names a
/// row, moved to the last row if it is past the end, dropped if the list is empty.
pub open spec fn clamp_selection(sel: Option<usize>, len: nat) -> Option<usize> {
    match sel {
        None => None,
        Some(s) => if len == 0 {
            None
        } else if s >= len {
            Some((len - 1) as usize)
        } else {
            Some(s)
        },
    }
}

/// `set` with `p` added if it was absent, removed if it was present.
pub open spec fn toggled(set: Set<Seq<char>>, p: Seq<char>) -> Set<Seq<char>> {
    if set.contains(p) {
        set.remove(p)
    } else {
        set.insert(p)
    }
}

/// The first row after `s` that is no component.
fn next_group_after(flat: &Vec<FlatItem>, s: usize) -> (r: Option<usize>)
    requires
        s < usize::MAX,
    ensures
        match r {
            Some(j) => s < j < flat@.len() && !flat@[j as int].is_leaf && forall|k: int| s < k < j ==> #[trigger] flat@[k].is_leaf,
            None => forall|k: int| s < k < flat@.len() ==> #[trigger] flat@[k].is_leaf,
        },
{
    let mut i = s + 1;
    while i < flat.len()
        invariant
            s < i,
            forall|k: int| s < k < i && k < flat@.len() ==> #[trigger] flat@[k].is_leaf,
        decreases flat@.len() - i,
    {
        if !flat[i].is_leaf {
            return Some(i);
        }
        i = i + 1;
    }
    None
}

/// The nearest row before `s` that is no component.
fn prev_group_before(flat: &Vec<FlatItem>, s: usize) -> (r: Option<usize>)
    requires
        s <= flat@.len(),
    ensures
        match r {
            Some(j) => j < s && !flat@[j as int].is_leaf && forall|k: int| j < k < s ==> #[trigger] flat@[k].is_leaf,
            None => forall|k: int| 0 <= k < s ==> #[trigger] flat@[k].is_leaf,
        },
{
    let mut i = s;
    while i > 0
        invariant
            i <= s,
            s <= flat@.len(),
            forall|k: int| i <= k < s ==> #[trigger] flat@[k].is_leaf,
        decreases i,
    {
        if !flat[i - 1].is_leaf {
            return Some(i - 1);
        }
        i = i - 1;
    }
    None
}

impl ExplorerState {
    /// The rows shown are those of the tree with its open nodes, and the selection, if
    /// any, names one of them.
    pub open spec fn wf(&self) -> bool {
        &&& self.flat_list@ == flatten(self.tree@, self.expanded_paths@)
        &&& self.list_state@ matches Some(s) ==> s < self.flat_list@.len()
    }

    /// The tree's nodes have the paths of `paths_ok` (which keeps the paths of the rows
    /// distinct).
    pub open spec fn tree_paths_ok(&self) -> bool {
        paths_ok(self.tree@, Seq::empty())
    }

    /// The selected row, if the selection names a row.
    pub open spec fn current(&self) -> Option<FlatItem> {
        match self.list_state@ {
            Some(i) => if i < self.flat_list@.len() {
                Some(self.flat_list@[i as int])
            } else {
                None
            },
            None => None,
        }
    }

    /// Everything but the rows, the open nodes and the selection is as in `other`.
    pub open spec fn same_data(&self, other: &ExplorerState) -> bool {
        &&& self.root_path == other.root_path
        &&& self.tree@ == other.tree@
        &&& self.checked_paths@ == other.checked_paths@
        &&& self.customized_paths@ == other.customized_paths@
        &&& self.preview_content == other.preview_content
        &&& self.error_message == other.error_message
    }

    /// A component screen as `new` makes it for the templates at `root_path`.
    pub open spec fn is_fresh_for(&self, root_path: String, listing: DirListing) -> bool {
        &&& self.root_path == root_path
        &&& tree_ok(self.tree@, listing, Seq::empty(), 0)
        &&& self.expanded_paths@ == Set::<Seq<char>>::empty()
        &&& self.checked_paths@ == Set::<Seq<char>>::empty()
        &&& self.customized_paths@ == Map::<Seq<char>, Seq<char>>::empty()
        &&& self.wf()
        &&& self.list_state@ == if self.flat_list@.len() > 0 { Some(0usize) } else { None }
        &&& self.focus == ExplorerFocus::Tree
        &&& self.preview_content is None
        &&& self.error_message is None
    }

    /// The screen for the templates at `root_path`, whose directory `listing` describes:
    /// its tree, nothing open, nothing chosen, the first row selected.
    pub fn new(root_path: String, listing: &DirListing) -> (r: ExplorerState)
        requires
            listing_ok(*listing, 0),
        ensures
            r.is_fresh_for(root_path, *listing),
            r.tree_paths_ok(),
    {
        let tree = build_tree(listing, "", 0);
        proof {
            reveal_strlit("");
            assert(""@ =~= Seq::<char>::empty());
            lemma_tree_paths(tree@, *listing, Seq::empty(), 0);
        }
        let mut state = ExplorerState {
            root_path,
            tree,
            expanded_paths: PathSet::new(),
            checked_paths: PathSet::new(),
            customized_paths: PathMap::new(),
            flat_list: Vec::new(),
            list_state: ListSelection::new(),
            focus: ExplorerFocus::Tree,
            preview_content: None,
            error_message: None,
        };
        state.update_flat_list();
        if state.flat_list.len() > 0 {
            state.list_state.select(Some(0));
        }
        state
    }

    /// The rows, the open nodes, the selection and the focus are as in `other` too.
    pub open spec fn unchanged(&self, other: &ExplorerState) -> bool {
        &&& self.same_data(other)
        &&& self.expanded_paths@ == other.expanded_paths@
        &&& self.flat_list@ == other.flat_list@
        &&& self.list_state@ == other.list_state@
        &&& self.focus == other.focus
    }

    /// The rows after the open nodes became `expanded`, with the selection kept within them.
    pub open spec fn reopened(&self, prev: &ExplorerState, expanded: Set<Seq<char>>) -> bool {
        &&& self.same_data(prev)
        &&& self.focus == prev.focus
        &&& self.expanded_paths@ == expanded
        &&& self.flat_list@ == flatten(prev.tree@, expanded)
        &&& self.list_state@ == clamp_selection(prev.list_state@, self.flat_list@.len())
    }

    /// The state after `handle_up` from `prev`.
    pub open spec fn after_up(&self, prev: &ExplorerState) -> bool {
        &&& self.same_data(prev)
        &&& self.expanded_paths@ == prev.expanded_paths@
        &&& self.flat_list@ == prev.flat_list@
        &&& self.focus == ExplorerFocus::Tree
        &&& self.list_state@ == if prev.focus != ExplorerFocus::Tree || prev.flat_list@.len() == 0 {
                    prev.list_state@
                } else {
                    Some(match prev.list_state@ {
                        Some(i) => if i == 0 { (prev.flat_list@.len() - 1) as usize } else { (i - 1) as usize },
                        None => 0usize,
                    })
                }
    }

    /// Up: from a button, back to the tree; in the tree, the row above, wrapping round to
    /// the last row (the first row if nothing was selected).
    pub fn handle_up(&mut self)
        ensures
            final(self).after_up(old(self)),
    {
        match self.focus {
            ExplorerFocus::Next | ExplorerFocus::Previous => {
                self.focus = ExplorerFocus::Tree;
            },
            ExplorerFocus::Tree => {
                if self.flat_list.len() == 0 {
                    return;
                }
                let i = match self.list_state.selected() {
                    Some(i) => {
                        if i == 0 {
                            self.flat_list.len() - 1
                        } else {
                            i - 1
                        }
                    },
                    None => 0,
                };
                self.list_state.select(Some(i));
            },
        }
    }

    /// The state after `handle_down` from `prev`.
    pub open spec fn after_down(&self, prev: &ExplorerState) -> bool {
        &&& self.same_data(prev)
        &&& self.expanded_paths@ == prev.expanded_paths@
        &&& self.flat_list@ == prev.flat_list@
        &&& prev.focus != ExplorerFocus::Tree ==> self.unchanged(prev)
        &&& prev.focus == ExplorerFocus::Tree ==> match prev.list_state@ {
                    Some(i) => if prev.flat_list@.len() > 0 && i < prev.flat_list@.len() - 1 {
                        self.focus == ExplorerFocus::Tree && self.list_state@ == Some((i + 1) as usize)
                    } else {
                        self.focus == ExplorerFocus::Previous && self.list_state@ == prev.list_state@
                    },
                    None => self.focus == ExplorerFocus::Previous && self.list_state@ == prev.list_state@,
                }
    }

    /// Down: in the tree, the row below; from the last row (or an empty tree, or no
    /// selection) on to the Previous button. Nothing happens on a button.
    pub fn handle_down(&mut self)
        ensures
            final(self).after_down(old(self)),
    {
        if self.focus == ExplorerFocus::Tree {
            if self.flat_list.len() == 0 {
                self.focus = ExplorerFocus::Previous;
                return;
            }
            let i = match self.list_state.selected() {
                Some(i) => {
                    if i >= self.flat_list.len() - 1 {
                        self.focus = ExplorerFocus::Previous;
                        i
                    } else {
                        i + 1
                    }
                },
                None => {
                    self.focus = ExplorerFocus::Previous;
                    0
                },
            };
            if self.focus == ExplorerFocus::Tree {
                self.list_state.select(Some(i));
            }
        }
    }

    /// The state after `handle_left` from `prev`.
    pub open spec fn after_left(&self, prev: &ExplorerState) -> bool {
        &&& match prev.focus {
                    ExplorerFocus::Tree => match prev.current() {
                        Some(item) => if !item.is_leaf && prev.expanded_paths@.contains(item.path@) {
                            self.reopened(prev, prev.expanded_paths@.remove(item.path@))
                        } else {
                            self.unchanged(prev)
                        },
                        None => self.unchanged(prev),
                    },
                    ExplorerFocus::Next => self.same_data(prev) && self.expanded_paths@ == prev.expanded_paths@
                        && self.flat_list@ == prev.flat_list@ && self.list_state@ == prev.list_state@
                        && self.focus == ExplorerFocus::Previous,
                    ExplorerFocus::Previous => self.same_data(prev) && self.expanded_paths@ == prev.expanded_paths@
                        && self.flat_list@ == prev.flat_list@ && self.list_state@ == prev.list_state@
                        && self.focus == ExplorerFocus::Next,
                }
    }

    /// Left: in the tree, closes the selected node if it is open; between the buttons,
    /// moves to the other one.
    pub fn handle_left(&mut self)
        ensures
            final(self).after_left(old(self)),
    {
        match self.focus {
            ExplorerFocus::Tree => {
                if let Some(idx) = self.list_state.selected() {
                    if idx < self.flat_list.len() {
                        let item = self.flat_list[idx].clone();
                        if !item.is_leaf && self.expanded_paths.contains(item.path.as_str()) {
                            self.expanded_paths.remove(item.path.as_str());
                            self.update_flat_list();
                        }
                    }
                }
            },
            ExplorerFocus::Next => self.focus = ExplorerFocus::Previous,
            ExplorerFocus::Previous => self.focus = ExplorerFocus::Next,
        }
    }

    /// The state after `handle_right` from `prev`.
    pub open spec fn after_right(&self, prev: &ExplorerState) -> bool {
        &&& match prev.focus {
                    ExplorerFocus::Tree => match prev.current() {
                        Some(item) => if !item.is_leaf {
                            self.reopened(prev, prev.expanded_paths@.insert(item.path@))
                        } else {
                            self.unchanged(prev)
                        },
                        None => self.unchanged(prev),
                    },
                    ExplorerFocus::Next => self.same_data(prev) && self.expanded_paths@ == prev.expanded_paths@
                        && self.flat_list@ == prev.flat_list@ && self.list_state@ == prev.list_state@
                        && self.focus == ExplorerFocus::Previous,
                    ExplorerFocus::Previous => self.same_data(prev) && self.expanded_paths@ == prev.expanded_paths@
                        && self.flat_list@ == prev.flat_list@ && self.list_state@ == prev.list_state@
                        && self.focus == ExplorerFocus::Next,
                }
    }

    /// Right: in the tree, opens the selected node if it is no component; between the
    /// buttons, moves to the other one.
    pub fn handle_right(&mut self)
        ensures
            final(self).after_right(old(self)),
    {
        match self.focus {
            ExplorerFocus::Tree => {
                if let Some(idx) = self.list_state.selected() {
                    if idx < self.flat_list.len() {
                        let item = self.flat_list[idx].clone();
                        if !item.is_leaf {
                            self.expanded_paths.insert(item.path.as_str());
                            self.update_flat_list();
                        }
                    }
                }
            },
            ExplorerFocus::Previous => self.focus = ExplorerFocus::Next,
            ExplorerFocus::Next => self.focus = ExplorerFocus::Previous,
        }
    }

    /// The state after `handle_tab` from `prev`.
    pub open spec fn after_tab(&self, prev: &ExplorerState) -> bool {
        &&& self.same_data(prev)
        &&& self.expanded_paths@ == prev.expanded_paths@
        &&& self.flat_list@ == prev.flat_list@
        &&& prev.focus == ExplorerFocus::Next ==> self.focus == ExplorerFocus::Previous
                    && self.list_state@ == prev.list_state@
        &&& prev.focus == ExplorerFocus::Previous ==> self.focus == ExplorerFocus::Tree
                    && self.list_state@ == prev.list_state@
        &&& prev.focus == ExplorerFocus::Tree ==> match prev.list_state@ {
                    None => self.focus == ExplorerFocus::Next && self.list_state@ == prev.list_state@,
                    Some(s) => match self.list_state@ {
                        Some(j) => if self.focus == ExplorerFocus::Tree {
                            &&& s < j < prev.flat_list@.len()
                            &&& !prev.flat_list@[j as int].is_leaf
                            &&& forall|k: int| s < k < j ==> #[trigger] prev.flat_list@[k].is_leaf
                        } else {
                            &&& self.focus == ExplorerFocus::Next
                            &&& j == s
                            &&& forall|k: int| s < k < prev.flat_list@.len() ==> #[trigger] prev.flat_list@[k].is_leaf
                        },
                        None => false,
                    },
                }
    }

    /// Tab: in the tree, the next row below the selected one that is no component (a
    /// group); if there is none, or nothing is selected, on to the Next button. From Next
    /// to Previous, from Previous back to the tree.
    pub fn handle_tab(&mut self)
        requires
            old(self).focus == ExplorerFocus::Tree ==> old(self).list_state@ != Some(usize::MAX),
        ensures
            final(self).after_tab(old(self)),
    {
        match self.focus {
            ExplorerFocus::Tree => {
                if let Some(selected) = self.list_state.selected() {
                    match next_group_after(&self.flat_list, selected) {
                        Some(j) => self.list_state.select(Some(j)),
                        None => self.focus = ExplorerFocus::Next,
                    }
                } else {
                    self.focus = ExplorerFocus::Next;
                }
            },
            ExplorerFocus::Next => self.focus = ExplorerFocus::Previous,
            ExplorerFocus::Previous => self.focus = ExplorerFocus::Tree,
        }
    }

    /// The state after `handle_backtab` from `prev`.
    pub open spec fn after_backtab(&self, prev: &ExplorerState) -> bool {
        &&& self.same_data(prev)
        &&& self.expanded_paths@ == prev.expanded_paths@
        &&& self.flat_list@ == prev.flat_list@
        &&& prev.focus == ExplorerFocus::Next ==> self.focus == ExplorerFocus::Tree
                    && self.list_state@ == prev.list_state@
        &&& prev.focus == ExplorerFocus::Previous ==> self.focus == ExplorerFocus::Next
                    && self.list_state@ == prev.list_state@
        &&& prev.focus == ExplorerFocus::Tree ==> match prev.list_state@ {
                    None => self.focus == ExplorerFocus::Previous && self.list_state@ == prev.list_state@,
                    Some(s) => match self.list_state@ {
                        Some(j) => if self.focus == ExplorerFocus::Tree {
                            &&& j < s
                            &&& !prev.flat_list@[j as int].is_leaf
                            &&& forall|k: int| j < k < s ==> #[trigger] prev.flat_list@[k].is_leaf
                        } else {
                            &&& self.focus == ExplorerFocus::Previous
                            &&& j == s
                            &&& forall|k: int| 0 <= k < s ==> #[trigger] prev.flat_list@[k].is_leaf
                        },
                        None => false,
                    },
                }
    }

    /// Shift-Tab: in the tree, the nearest row above the selected one that is no
    /// component; if there is none, or nothing is selected, on to the Previous button.
    /// From Next back to the tree, from Previous to Next.
    pub fn handle_backtab(&mut self)
        requires
            old(self).focus == ExplorerFocus::Tree ==> match old(self).list_state@ {
                Some(s) => s <= old(self).flat_list@.len(),
                None => true,
            },
        ensures
            final(self).after_backtab(old(self)),
    {
        match self.focus {
            ExplorerFocus::Tree => {
                if let Some(selected) = self.list_state.selected() {
                    match prev_group_before(&self.flat_list, selected) {
                        Some(j) => self.list_state.select(Some(j)),
                        None => self.focus = ExplorerFocus::Previous,
                    }
                } else {
                    self.focus = ExplorerFocus::Previous;
                }
            },
            ExplorerFocus::Next => self.focus = ExplorerFocus::Tree,
            ExplorerFocus::Previous => self.focus = ExplorerFocus::Next,
        }
    }

    /// The state after `toggle_expand` from `prev`.
    pub open spec fn after_toggle_expand(&self, prev: &ExplorerState) -> bool {
        &&& match prev.current() {
                    Some(item) => if prev.focus == ExplorerFocus::Tree && !item.is_leaf {
                        self.reopened(prev, if prev.expanded_paths@.contains(item.path@) {
                            prev.expanded_paths@.remove(item.path@)
                        } else {
                            prev.expanded_paths@.insert(item.path@)
                        })
                    } else {
                        self.unchanged(prev)
                    },
                    None => self.unchanged(prev),
                }
    }

    /// Enter on a group in the tree: opens it if closed, closes it if open. Nothing
    /// happens off the tree or on a component.
    pub fn toggle_expand(&mut self)
        ensures
            final(self).after_toggle_expand(old(self)),
    {
        if self.focus != ExplorerFocus::Tree {
            return;
        }
        if let Some(idx) = self.list_state.selected() {
            if idx < self.flat_list.len() {
                let item = self.flat_list[idx].clone();
                if !item.is_leaf {
                    if self.expanded_paths.contains(item.path.as_str()) {
                        self.expanded_paths.remove(item.path.as_str());
                    } else {
                        self.expanded_paths.insert(item.path.as_str());
                    }
                    self.update_flat_list();
                }
            }
        }
    }

    /// The state after `toggle_current` from `prev`.
    pub open spec fn after_toggle_current(&self, prev: &ExplorerState) -> bool {
        &&& self.root_path == prev.root_path
        &&& self.tree@ == prev.tree@
        &&& self.customized_paths@ == prev.customized_paths@
        &&& self.preview_content == prev.preview_content
        &&& self.error_message == prev.error_message
        &&& self.expanded_paths@ == prev.expanded_paths@
        &&& self.flat_list@ == prev.flat_list@
        &&& self.list_state@ == prev.list_state@
        &&& self.focus == prev.focus
        &&& self.checked_paths@ == match prev.current() {
                    Some(item) => if item.is_leaf {
                        toggled(prev.checked_paths@, item.path@)
                    } else {
                        prev.checked_paths@
                    },
                    None => prev.checked_paths@,
                }
    }

    /// Enter on a component: chooses it if it was not chosen, drops it if it was.
    pub fn toggle_current(&mut self)
        ensures
            final(self).after_toggle_current(old(self)),
    {
        if let Some(idx) = self.list_state.selected() {
            if idx < self.flat_list.len() && self.flat_list[idx].is_leaf {
                if self.checked_paths.contains(self.flat_list[idx].path.as_str()) {
                    self.checked_paths.remove(self.flat_list[idx].path.as_str());
                } else {
                    self.checked_paths.insert(self.flat_list[idx].path.as_str());
                }
            }
        }
    }

    /// The state after `undo_current` from `prev`.
    pub open spec fn after_undo(&self, prev: &ExplorerState) -> bool {
        &&& self.root_path == prev.root_path
        &&& self.tree@ == prev.tree@
        &&& self.checked_paths@ == prev.checked_paths@
        &&& self.preview_content == prev.preview_content
        &&& self.error_message == prev.error_message
        &&& self.expanded_paths@ == prev.expanded_paths@
        &&& self.flat_list@ == prev.flat_list@
        &&& self.list_state@ == prev.list_state@
        &&& self.focus == prev.focus
        &&& self.customized_paths@ == match prev.current() {
                    Some(item) => if item.is_leaf {
                        prev.customized_paths@.remove(item.path@)
                    } else {
                        prev.customized_paths@
                    },
                    None => prev.customized_paths@,
                }
    }

    /// Drops the Helm values written for the selected component.
    pub fn undo_current(&mut self)
        ensures
            final(self).after_undo(old(self)),
    {
        if let Some(idx) = self.list_state.selected() {
            if idx < self.flat_list.len() && self.flat_list[idx].is_leaf {
                self.customized_paths.remove(self.flat_list[idx].path.as_str());
            }
        }
    }

    /// Recomputes the rows from the tree and the open nodes, and keeps the selection
    /// within them.
    pub fn update_flat_list(&mut self)
        ensures
            final(self).same_data(old(self)),
            final(self).expanded_paths@ == old(self).expanded_paths@,
            final(self).focus == old(self).focus,
            final(self).flat_list@ == flatten(old(self).tree@, old(self).expanded_paths@),
            final(self).list_state@ == clamp_selection(old(self).list_state@, final(self).flat_list@.len()),
            final(self).wf(),
    {
        let mut new_flat: Vec<FlatItem> = Vec::new();
        flatten_all(&self.tree, &self.expanded_paths, &mut new_flat);
        assert(new_flat@ =~= flatten(self.tree@, self.expanded_paths@));
        self.flat_list = new_flat;
        if let Some(selected) = self.list_state.selected() {
            if self.flat_list.len() == 0 {
                self.list_state.select(None);
            } else if selected >= self.flat_list.len() {
                self.list_state.select(Some(self.flat_list.len() - 1));
            }
        }
    }
}

/// Choosing the selected component twice leaves the chosen set as it was.
pub proof fn lemma_toggle_current_twice(e0: ExplorerState, e1: ExplorerState, e2: ExplorerState)
    requires
        e1.after_toggle_current(&e0),
        e2.after_toggle_current(&e1),
    ensures
        e2.checked_paths@ == e0.checked_paths@,
{
    match e0.current() {
        Some(item) => if item.is_leaf {
            assert(e1.current() == e0.current());
            let s = e0.checked_paths@;
            assert(toggled(toggled(s, item.path@), item.path@) =~= s);
        },
        None => {},
    }
}

/// In the tree, Up undoes Down: back to the row it left, or from the Previous button that
/// Down reached after the last row back to that row.
pub proof fn lemma_up_undoes_down(e0: ExplorerState, e1: ExplorerState, e2: ExplorerState)
    requires
        e0.wf(),
        e0.focus == ExplorerFocus::Tree,
        e0.list_state@ is Some,
        e0.flat_list@.len() <= usize::MAX,
        e1.after_down(&e0),
        e2.after_up(&e1),
    ensures
        e2.focus == e0.focus,
        e2.list_state@ == e0.list_state@,
        e2.flat_list@ == e0.flat_list@,
{
    let i = e0.list_state@->0;
    if i < e0.flat_list@.len() - 1 {
        assert(e1.list_state@ == Some((i + 1) as usize));
        assert(e1.focus == ExplorerFocus::Tree);
    }
}

/// Enter on a group in the tree keeps the group's row where it was, selected.
pub proof fn lemma_toggle_expand_keeps_row(e0: ExplorerState, e1: ExplorerState)
    requires
        e0.wf(),
        e0.tree_paths_ok(),
        e0.focus == ExplorerFocus::Tree,
        e0.current() matches Some(item) && !item.is_leaf,
        e1.after_toggle_expand(&e0),
    ensures
        e1.current() == e0.current(),
        e1.list_state@ == e0.list_state@,
        e1.tree_paths_ok(),
{
    let item = e0.current()->0;
    let i = e0.list_state@->0 as int;
    let s = e0.expanded_paths@;
    let p = item.path@;
    let s1 = toggled(s, p);
    assert(agree_except(s, s1, p));
    assert(e0.flat_list@ == flatten(e0.tree@, s));
    assert(flatten(e0.tree@, s)[i] == item);
    lemma_rows_distinct(e0.tree@, s, Seq::empty());
    lemma_flatten_prefix(e0.tree@, s, s1, i);
    assert(e1.flat_list@ == flatten(e0.tree@, s1));
    assert(e1.flat_list@[i] == flatten(e1.tree@, s1).take(i + 1)[i]);
}

/// Enter on a group in the tree, then Enter again, gives back the open nodes, the rows
/// and the selection it started from.
pub proof fn lemma_toggle_expand_twice(e0: ExplorerState, e1: ExplorerState, e2: ExplorerState)
    requires
        e0.wf(),
        e0.tree_paths_ok(),
        e0.focus == ExplorerFocus::Tree,
        e0.current() matches Some(item) && !item.is_leaf,
        e1.after_toggle_expand(&e0),
        e2.after_toggle_expand(&e1),
    ensures
        e2.expanded_paths@ == e0.expanded_paths@,
        e2.flat_list@ == e0.flat_list@,
        e2.list_state@ == e0.list_state@,
        e2.focus == e0.focus,
        e2.same_data(&e0),
{
    lemma_toggle_expand_keeps_row(e0, e1);
    let item = e0.current()->0;
    let s = e0.expanded_paths@;
    let p = item.path@;
    assert(toggled(toggled(s, p), p) =~= s);
}

/// The node that the positions `idx` lead to: `idx[0]` among `items`, then `idx[1]` among
/// its children, and so on; none where a position is out of range.
pub open spec fn node_at(items: Seq<TreeItem>, idx: Seq<int>) -> Option<TreeItem>
    decreases idx.len(),
{
    if idx.len() == 0 || !(0 <= idx[0] < items.len()) {
        None
    } else if idx.len() == 1 {
        Some(items[idx[0]])
    } else {
        node_at(items[idx[0]].children@, idx.skip(1))
    }
}

/// `e` is an entry of `l`, or of a visible directory within it, at any depth.
pub open spec fn entry_within(l: DirListing, e: DirEntryInfo) -> bool
    decreases l,
{
    exists|j: int|
        0 <= j < l.entries@.len() && (#[trigger] l.entries@[j] == e || (visible_dir(l.entries@[j]) && entry_within(
            l.entries@[j].contents,
            e,
        )))
}

/// Every node of a tree built from a listing, at any level (reached by the positions
/// `idx`), stands at the depth of its level and comes from a visible directory of its name
/// within the listing: it is a leaf exactly when that directory is a component, and then
/// it has no children; otherwise it has children (leaves are not looked into). It is a Helm
/// release exactly when it is a leaf whose directory holds `helm-release.yaml`. Its
/// children stand one level deeper, each with its name below the node's path as its path,
/// in increasing order of their names.
pub proof fn lemma_tree_every_level(items: Seq<TreeItem>, l: DirListing, prefix: Seq<char>, depth: nat, idx: Seq<int>)
    requires
        tree_ok(items, l, prefix, depth),
        node_at(items, idx) is Some,
    ensures
        ({
            let t = node_at(items, idx)->0;
            &&& t.depth == depth + idx.len() - 1
            &&& exists|e: DirEntryInfo| #[trigger] entry_within(l, e) && visible_dir(e) && t.name@ == e.name@
                && t.is_leaf == marks_leaf(e.contents) && t.is_helm == (t.is_leaf && marks_helm(e.contents))
            &&& t.is_leaf == (t.children@.len() == 0)
            &&& t.is_helm ==> t.is_leaf
            &&& forall|c: int| 0 <= c < t.children@.len() ==> (#[trigger] t.children@[c]).depth == t.depth + 1
                && t.children@[c].path@ == join_rel(t.path@, t.children@[c].name@)
            &&& forall|a: int, b: int| 0 <= a < b < t.children@.len()
                ==> lex_lt(#[trigger] t.children@[a].name@, #[trigger] t.children@[b].name@)
        }),
    decreases idx.len(),
{
    let i = idx[0];
    let t0 = items[i];
    assert(items[i] == t0);
    let j = choose|j: int|
        0 <= j < l.entries@.len() && visible_dir(l.entries@[j]) && #[trigger] node_ok(items[i], l.entries@[j], prefix, depth)
            && (!marks_leaf(l.entries@[j].contents) ==> tree_ok(items[i].children@, l.entries@[j].contents, items[i].path@, depth + 1));
    let e = l.entries@[j];
    if idx.len() == 1 {
        assert(l.entries@[j] == e);
        assert(entry_within(l, e));
        if !marks_leaf(e.contents) {
            crate::tree::lemma_component_nonempty(t0.children@, e.contents, t0.path@, depth + 1);
            assert forall|c: int| 0 <= c < t0.children@.len() implies (#[trigger] t0.children@[c]).depth == t0.depth + 1
                && t0.children@[c].path@ == join_rel(t0.path@, t0.children@[c].name@) by {
                let ch = t0.children@[c];
                assert(t0.children@[c] == ch);
                let k = choose|k: int|
                    0 <= k < e.contents.entries@.len() && visible_dir(e.contents.entries@[k]) && #[trigger] node_ok(
                        t0.children@[c], e.contents.entries@[k], t0.path@, depth + 1)
                        && (!marks_leaf(e.contents.entries@[k].contents) ==> tree_ok(t0.children@[c].children@,
                            e.contents.entries@[k].contents, t0.children@[c].path@, depth + 2));
            }
        }
    } else {
        assert(node_at(items, idx) == node_at(t0.children@, idx.skip(1)));
        if marks_leaf(e.contents) {
            assert(t0.children@.len() == 0);
            assert(false);
        }
        lemma_tree_every_level(t0.children@, e.contents, t0.path@, depth + 1, idx.skip(1));
        let t = node_at(items, idx)->0;
        let e2 = choose|e2: DirEntryInfo| #[trigger] entry_within(e.contents, e2) && visible_dir(e2) && t.name@ == e2.name@
            && t.is_leaf == marks_leaf(e2.contents) && t.is_helm == (t.is_leaf && marks_helm(e2.contents));
        assert(l.entries@[j] == e);
        assert(entry_within(l, e2));
    }
}

/// Left on a selected open group in the tree closes it: its path leaves the open set, and
/// the rows are those of the same tree with that set; the focus stays on the tree.
pub proof fn lemma_left_closes_group(e0: ExplorerState, e1: ExplorerState)
    requires
        e0.focus == ExplorerFocus::Tree,
        e0.current() matches Some(item) && !item.is_leaf && e0.expanded_paths@.contains(item.path@),
        e1.after_left(&e0),
    ensures
        ({
            let p = e0.current()->0.path@;
            &&& !e1.expanded_paths@.contains(p)
            &&& forall|q: Seq<char>| q != p ==> (e1.expanded_paths@.contains(q) == e0.expanded_paths@.contains(q))
            &&& e1.flat_list@ == flatten(e0.tree@, e1.expanded_paths@)
            &&& e1.tree@ == e0.tree@
            &&& e1.focus == ExplorerFocus::Tree
        }),
{
}

/// In the tree, Right on a selected closed group and then Left give back the open nodes,
/// the rows and the selection that there were before.
pub proof fn lemma_right_then_left(e0: ExplorerState, e1: ExplorerState, e2: ExplorerState)
    requires
        e0.wf(),
        e0.tree_paths_ok(),
        e0.focus == ExplorerFocus::Tree,
        e0.current() matches Some(item) && !item.is_leaf && !e0.expanded_paths@.contains(item.path@),
        e1.after_right(&e0),
        e2.after_left(&e1),
    ensures
        e2.expanded_paths@ == e0.expanded_paths@,
        e2.flat_list@ == e0.flat_list@,
        e2.list_state@ == e0.list_state@,
        e2.focus == e0.focus,
        e2.same_data(&e0),
{
    let item = e0.current()->0;
    let p = item.path@;
    assert(e1.after_toggle_expand(&e0));
    lemma_toggle_expand_keeps_row(e0, e1);
    assert(e1.expanded_paths@.contains(p));
    assert(e0.expanded_paths@.insert(p).remove(p) =~= e0.expanded_paths@);
}


/// Right on a selected group in the tree opens it: its path joins the open set, and the
/// rows are those of the same tree with that set; the focus stays on the tree.
pub proof fn lemma_right_opens_group(e0: ExplorerState, e1: ExplorerState)
    requires
        e0.focus == ExplorerFocus::Tree,
        e0.current() matches Some(item) && !item.is_leaf,
        e1.after_right(&e0),
    ensures
        ({
            let p = e0.current()->0.path@;
            &&& e1.expanded_paths@.contains(p)
            &&& forall|q: Seq<char>| q != p ==> (e1.expanded_paths@.contains(q) == e0.expanded_paths@.contains(q))
            &&& e1.flat_list@ == flatten(e0.tree@, e1.expanded_paths@)
            &&& e1.tree@ == e0.tree@
            &&& e1.focus == ExplorerFocus::Tree
        }),
{
}

} // verus!
