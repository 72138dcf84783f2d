use vstd::prelude::*;
use crate::listing::{distinct_names, entry_name_ok, DirListing, DirEntryInfo, visible_dir, marks_leaf, marks_helm, has_component, listing_ok, is_visible_dir};
use crate::collections::PathSet;
use crate::text::{lex_lt, lemma_lex_total, lemma_lex_transitive, lemma_lex_irreflexive, str_lt};

verus! {

broadcast use vstd::string::group_string_axioms;

/// A node of the component tree: a component (leaf) or a directory that holds components.
#[derive(Debug)]
pub struct TreeItem {
    pub name: String,
    pub path: String,
    pub depth: usize,
    pub is_leaf: bool,
    pub is_helm: bool,
    pub children: Vec<TreeItem>,
}

/// A row of the visible part of the tree.
#[derive(Debug)]
pub struct FlatItem {
    pub name: String,
    pub path: String,
    pub depth: usize,
    pub is_leaf: bool,
    pub is_helm: bool,
}

impl Clone for FlatItem {
    fn clone(&self) -> (r: Self)
        ensures
            r == *self,
    {
        FlatItem {
            name: self.name.clone(),
            path: self.path.clone(),
            depth: self.depth,
            is_leaf: self.is_leaf,
            is_helm: self.is_helm,
        }
    }
}

/// The row that shows `item`.
pub open spec fn flat_of(item: TreeItem) -> FlatItem {
    FlatItem { name: item.name, path: item.path, depth: item.depth, is_leaf: item.is_leaf, is_helm: item.is_helm }
}

/// The rows that `items` show when the nodes whose paths are in `expanded` are open:
/// each node, followed by the rows of its children if it is open.
pub open spec fn flatten(items: Seq<TreeItem>, expanded: Set<Seq<char>>) -> Seq<FlatItem>
    decreases items,
{
    if items.len() == 0 {
        Seq::empty()
    } else {
        let last = items.last();
        flatten(items.drop_last(), expanded) + seq![flat_of(last)] + if expanded.contains(last.path@) {
            flatten(last.children@, expanded)
        } else {
            Seq::empty()
        }
    }
}

/// The path of `name` below `prefix`, relative to the tree's root.
pub open spec fn join_rel(prefix: Seq<char>, name: Seq<char>) -> Seq<char> {
    if prefix.len() == 0 {
        name
    } else {
        prefix + seq!['/'] + name
    }
}

/// `item` is the node that the directory entry `e` yields below `prefix` at `depth`,
/// leaving aside what lies below it (see `tree_ok`).
pub open spec fn node_ok(item: TreeItem, e: DirEntryInfo, prefix: Seq<char>, depth: nat) -> bool {
    &&& item.name@ == e.name@
    &&& item.path@ == join_rel(prefix, e.name@)
    &&& item.depth == depth
    &&& if marks_leaf(e.contents) {
        &&& item.is_leaf
        &&& item.is_helm == marks_helm(e.contents)
        &&& item.children@.len() == 0
    } else {
        &&& !item.is_leaf
        &&& !item.is_helm
        &&& has_component(e.contents)
    }
}

/// `items` is the tree that the listing `l` yields below `prefix` at `depth`: one node per
/// visible directory that is a component or holds one, in the order of their names; below
/// a node that is no component stands the tree of its directory.
pub open spec fn tree_ok(items: Seq<TreeItem>, l: DirListing, prefix: Seq<char>, depth: nat) -> bool
    decreases l,
{
    &&& forall|a: int, b: int|
        0 <= a < b < items.len() ==> lex_lt(#[trigger] items[a].name@, #[trigger] items[b].name@)
    &&& forall|a: int|
        #![trigger items[a]]
        0 <= a < items.len() ==> items[a].depth == depth && exists|j: int|
            0 <= j < l.entries@.len() && visible_dir(l.entries@[j]) && #[trigger] node_ok(
                items[a],
                l.entries@[j],
                prefix,
                depth,
            ) && (!marks_leaf(l.entries@[j].contents) ==> tree_ok(
                items[a].children@,
                l.entries@[j].contents,
                items[a].path@,
                depth + 1,
            ))
    &&& forall|j: int|
        0 <= j < l.entries@.len() && visible_dir(#[trigger] l.entries@[j]) && (marks_leaf(
            l.entries@[j].contents,
        ) || has_component(l.entries@[j].contents)) ==> exists|a: int|
            0 <= a < items.len() && #[trigger] items[a].name@ == l.entries@[j].name@
}

/// `item` is the node, with all below it, that the directory entry `e` yields.
pub open spec fn subtree_ok(item: TreeItem, e: DirEntryInfo, prefix: Seq<char>, depth: nat) -> bool {
    &&& node_ok(item, e, prefix, depth)
    &&& (!marks_leaf(e.contents) ==> tree_ok(item.children@, e.contents, item.path@, depth + 1))
}

/// The name of entry `j` of `l`.
pub open spec fn name_at(l: DirListing, j: int) -> Seq<char> {
    l.entries@[j].name@
}

/// The indices of the visible directories of `l`, in the order of their names.
fn visible_sorted(l: &DirListing) -> (r: Vec<usize>)
    requires
        distinct_names(*l),
    ensures
        forall|k: int| 0 <= k < r@.len() ==> #[trigger] r@[k] < l.entries@.len() && visible_dir(l.entries@[r@[k] as int]),
        forall|p: int, q: int| 0 <= p < q < r@.len() ==> lex_lt(name_at(*l, #[trigger] r@[p] as int), name_at(*l, #[trigger] r@[q] as int)),
        forall|j: int| 0 <= j < l.entries@.len() && visible_dir(#[trigger] l.entries@[j]) ==> exists|k: int| 0 <= k < r@.len() && r@[k] == j,
{
    let n = l.entries.len();
    let mut r: Vec<usize> = Vec::new();
    let mut j: usize = 0;
    while j < n
        invariant
            n == l.entries@.len(),
            j <= n,
            distinct_names(*l),
            forall|k: int| 0 <= k < r@.len() ==> #[trigger] r@[k] < j && visible_dir(l.entries@[r@[k] as int]),
            forall|p: int, q: int| 0 <= p < q < r@.len() ==> lex_lt(name_at(*l, #[trigger] r@[p] as int), name_at(*l, #[trigger] r@[q] as int)),
            forall|i: int| 0 <= i < j && visible_dir(#[trigger] l.entries@[i]) ==> exists|k: int| 0 <= k < r@.len() && r@[k] == i,
        decreases n - j,
    {
        if is_visible_dir(&l.entries[j]) {
            let mut p: usize = 0;
            while p < r.len() && !str_lt(l.entries[j].name.as_str(), l.entries[r[p]].name.as_str())
                invariant
                    n == l.entries@.len(),
                    j < n,
                    p <= r@.len(),
                    forall|k: int| 0 <= k < r@.len() ==> #[trigger] r@[k] < j,
                    forall|q: int| 0 <= q < p ==> !lex_lt(name_at(*l, j as int), name_at(*l, #[trigger] r@[q] as int)),
                decreases r@.len() - p,
            {
                p = p + 1;
            }
            let ghost old_r = r@;
            r.insert(p, j);
            proof {
                assert(r@ == old_r.insert(p as int, j));
                assert forall|q: int| 0 <= q < p implies lex_lt(name_at(*l, #[trigger] old_r[q] as int), name_at(*l, j as int)) by {
                    assert(old_r[q] != j);
                    lemma_lex_total(name_at(*l, old_r[q] as int), name_at(*l, j as int));
                }
                assert forall|q: int| p <= q < old_r.len() implies lex_lt(name_at(*l, j as int), name_at(*l, #[trigger] old_r[q] as int)) by {
                    if q > p {
                        lemma_lex_transitive(name_at(*l, j as int), name_at(*l, old_r[p as int] as int), name_at(*l, old_r[q] as int));
                    }
                }
                assert forall|a: int, b: int| 0 <= a < b < r@.len() implies lex_lt(name_at(*l, #[trigger] r@[a] as int), name_at(*l, #[trigger] r@[b] as int)) by {
                    if b < p {
                        assert(r@[a] == old_r[a] && r@[b] == old_r[b]);
                    } else if b == p {
                        assert(r@[a] == old_r[a]);
                    } else if a < p {
                        assert(r@[a] == old_r[a] && r@[b] == old_r[b - 1]);
                        lemma_lex_transitive(name_at(*l, old_r[a] as int), name_at(*l, j as int), name_at(*l, old_r[b - 1] as int));
                    } else if a == p {
                        assert(r@[b] == old_r[b - 1]);
                    } else {
                        assert(r@[a] == old_r[a - 1] && r@[b] == old_r[b - 1]);
                    }
                }
                assert forall|i: int| 0 <= i < j + 1 && visible_dir(#[trigger] l.entries@[i]) implies exists|k: int| 0 <= k < r@.len() && r@[k] == i by {
                    if i == j {
                        assert(r@[p as int] == i);
                    } else {
                        let k = choose|k: int| 0 <= k < old_r.len() && old_r[k] == i;
                        if k < p { assert(r@[k] == i); } else { assert(r@[k + 1] == i); }
                    }
                }
                assert forall|k: int| 0 <= k < r@.len() implies #[trigger] r@[k] < j + 1 && visible_dir(l.entries@[r@[k] as int]) by {
                    if k < p { assert(r@[k] == old_r[k]); } else if k > p { assert(r@[k] == old_r[k - 1]); }
                }
            }
        }
        j = j + 1;
    }
    r
}

/// A tree with a node holds a component.
pub proof fn lemma_nonempty_has_component(items: Seq<TreeItem>, l: DirListing, prefix: Seq<char>, depth: nat)
    requires
        tree_ok(items, l, prefix, depth),
        items.len() > 0,
    ensures
        has_component(l),
{
    assert(items[0] == items[0]);
    let j = choose|j: int| 0 <= j < l.entries@.len() && visible_dir(l.entries@[j]) && node_ok(items[0], l.entries@[j], prefix, depth);
    assert(visible_dir(l.entries@[j]) && (marks_leaf(l.entries@[j].contents) || has_component(l.entries@[j].contents)));
}

/// A listing that holds a component yields a tree with a node.
pub proof fn lemma_component_nonempty(items: Seq<TreeItem>, l: DirListing, prefix: Seq<char>, depth: nat)
    requires
        tree_ok(items, l, prefix, depth),
        has_component(l),
    ensures
        items.len() > 0,
{
    let j = choose|j: int| 0 <= j < l.entries@.len() && visible_dir(#[trigger] l.entries@[j]) && (marks_leaf(l.entries@[j].contents) || has_component(l.entries@[j].contents));
    assert(visible_dir(l.entries@[j]));
}

/// The path of `name` below `prefix`.
pub fn join_rel_path(prefix: &str, name: &str) -> (r: String)
    ensures
        r@ == join_rel(prefix@, name@),
{
    if prefix.unicode_len() == 0 {
        name.to_owned()
    } else {
        let mut s = prefix.to_owned();
        s.append("/");
        s.append(name);
        proof { reveal_strlit("/"); }
        s
    }
}

/// The node that the visible directory entry `e` yields below `prefix` at `depth`, if it
/// is a component or holds one.
fn node_for(e: &DirEntryInfo, prefix: &str, depth: usize) -> (r: Option<TreeItem>)
    requires
        visible_dir(*e),
        depth < usize::MAX,
        listing_ok(e.contents, (depth + 1) as nat),
    ensures
        match r {
            Some(item) => subtree_ok(item, *e, prefix@, depth as nat),
            None => !marks_leaf(e.contents) && !has_component(e.contents),
        },
    decreases e,
{
    let rel = join_rel_path(prefix, e.name.as_str());
    let (leaf, helm) = e.contents.markers();
    if leaf {
        Some(TreeItem { name: e.name.clone(), path: rel, depth: depth, is_leaf: true, is_helm: helm, children: Vec::new() })
    } else {
        let children = build_tree(&e.contents, rel.as_str(), depth + 1);
        if children.len() > 0 {
            proof { lemma_nonempty_has_component(children@, e.contents, rel@, (depth + 1) as nat); }
            Some(TreeItem { name: e.name.clone(), path: rel, depth: depth, is_leaf: false, is_helm: false, children: children })
        } else {
            proof {
                if has_component(e.contents) {
                    lemma_component_nonempty(children@, e.contents, rel@, (depth + 1) as nat);
                }
            }
            None
        }
    }
}

/// The component tree of the directory listed by `l`, whose path relative to the root
/// is `prefix` and whose children stand at `depth`.
pub fn build_tree(l: &DirListing, prefix: &str, depth: usize) -> (r: Vec<TreeItem>)
    requires
        listing_ok(*l, depth as nat),
    ensures
        tree_ok(r@, *l, prefix@, depth as nat),
    decreases l,
{
    let order = visible_sorted(l);
    let mut items: Vec<TreeItem> = Vec::new();
    let ghost mut pos: Seq<int> = Seq::empty();
    let mut k: usize = 0;
    while k < order.len()
        invariant
            listing_ok(*l, depth as nat),
            k <= order@.len(),
            forall|x: int| 0 <= x < order@.len() ==> #[trigger] order@[x] < l.entries@.len() && visible_dir(l.entries@[order@[x] as int]),
            pos.len() == items@.len(),
            forall|a: int| 0 <= a < pos.len() ==> 0 <= #[trigger] pos[a] < k,
            forall|a: int, b: int| 0 <= a < b < pos.len() ==> #[trigger] pos[a] < #[trigger] pos[b],
            forall|a: int| 0 <= a < items@.len() ==> subtree_ok(#[trigger] items@[a], l.entries@[order@[pos[a]] as int], prefix@, depth as nat),
            forall|x: int| 0 <= x < k && (marks_leaf(l.entries@[#[trigger] order@[x] as int].contents) || has_component(l.entries@[order@[x] as int].contents))
                ==> exists|a: int| 0 <= a < items@.len() && #[trigger] pos[a] == x,
        decreases order@.len() - k,
    {
        let j = order[k];
        proof {
            assert(visible_dir(l.entries@[j as int]));
        }
        let node = node_for(&l.entries[j], prefix, depth);
        let ghost old_pos = pos;
        match node {
            Some(item) => {
                items.push(item);
                proof {
                    pos = pos.push(k as int);
                    assert forall|x: int| 0 <= x < k && (marks_leaf(l.entries@[#[trigger] order@[x] as int].contents) || has_component(l.entries@[order@[x] as int].contents))
                        implies exists|a: int| 0 <= a < items@.len() && #[trigger] pos[a] == x by {
                        let a = choose|a: int| 0 <= a < old_pos.len() && #[trigger] old_pos[a] == x;
                        assert(pos[a] == x);
                    }
                    assert(pos[pos.len() - 1] == k);
                }
            },
            None => {},
        }
        k = k + 1;
    }
    proof { lemma_build_result(items@, *l, prefix@, depth as nat, order@, pos); }
    items
}

/// What the loop of `build_tree` gathered is the tree of the listing.
proof fn lemma_build_result(items: Seq<TreeItem>, l: DirListing, prefix: Seq<char>, depth: nat, order: Seq<usize>, pos: Seq<int>)
    requires
        forall|x: int| 0 <= x < order.len() ==> #[trigger] order[x] < l.entries@.len() && visible_dir(l.entries@[order[x] as int]),
        forall|p: int, q: int| 0 <= p < q < order.len() ==> lex_lt(name_at(l, #[trigger] order[p] as int), name_at(l, #[trigger] order[q] as int)),
        forall|j: int| 0 <= j < l.entries@.len() && visible_dir(#[trigger] l.entries@[j]) ==> exists|k: int| 0 <= k < order.len() && order[k] == j,
        pos.len() == items.len(),
        forall|a: int| 0 <= a < pos.len() ==> 0 <= #[trigger] pos[a] < order.len(),
        forall|a: int, b: int| 0 <= a < b < pos.len() ==> #[trigger] pos[a] < #[trigger] pos[b],
        forall|a: int| 0 <= a < items.len() ==> subtree_ok(#[trigger] items[a], l.entries@[order[pos[a]] as int], prefix, depth),
        forall|x: int| 0 <= x < order.len() && (marks_leaf(l.entries@[#[trigger] order[x] as int].contents) || has_component(l.entries@[order[x] as int].contents))
            ==> exists|a: int| 0 <= a < items.len() && #[trigger] pos[a] == x,
    ensures
        tree_ok(items, l, prefix, depth),
{
    assert forall|a: int, b: int| 0 <= a < b < items.len() implies lex_lt(#[trigger] items[a].name@, #[trigger] items[b].name@) by {
        assert(pos[a] < pos[b]);
        assert(subtree_ok(items[a], l.entries@[order[pos[a]] as int], prefix, depth));
        assert(subtree_ok(items[b], l.entries@[order[pos[b]] as int], prefix, depth));
    }
    assert forall|a: int| #![trigger items[a]] 0 <= a < items.len() implies items[a].depth == depth && exists|j: int|
        0 <= j < l.entries@.len() && visible_dir(l.entries@[j]) && #[trigger] node_ok(items[a], l.entries@[j], prefix, depth)
        && (!marks_leaf(l.entries@[j].contents) ==> tree_ok(items[a].children@, l.entries@[j].contents, items[a].path@, depth + 1)) by {
        let j = order[pos[a]] as int;
        assert(subtree_ok(items[a], l.entries@[j], prefix, depth));
    }
    assert forall|j: int|
        0 <= j < l.entries@.len() && visible_dir(#[trigger] l.entries@[j]) && (marks_leaf(l.entries@[j].contents) || has_component(l.entries@[j].contents))
        implies exists|a: int| 0 <= a < items.len() && #[trigger] items[a].name@ == l.entries@[j].name@ by {
        let x = choose|x: int| 0 <= x < order.len() && order[x] == j;
        assert(marks_leaf(l.entries@[order[x] as int].contents) || has_component(l.entries@[order[x] as int].contents));
        let a = choose|a: int| 0 <= a < items.len() && #[trigger] pos[a] == x;
        assert(subtree_ok(items[a], l.entries@[order[pos[a]] as int], prefix, depth));
    }
}

fn flat_row(item: &TreeItem) -> (r: FlatItem)
    ensures
        r == flat_of(*item),
{
    FlatItem {
        name: item.name.clone(),
        path: item.path.clone(),
        depth: item.depth,
        is_leaf: item.is_leaf,
        is_helm: item.is_helm,
    }
}

/// Appends to `out` the rows of `item`: its own, then those of its children if it is open.
fn flatten_to(item: &TreeItem, expanded: &PathSet, out: &mut Vec<FlatItem>)
    ensures
        final(out)@ == old(out)@ + seq![flat_of(*item)] + if expanded@.contains(item.path@) {
            flatten(item.children@, expanded@)
        } else {
            Seq::empty()
        },
    decreases item,
{
    out.push(flat_row(item));
    if expanded.contains(item.path.as_str()) {
        flatten_all(&item.children, expanded, out);
    } else {
        assert(out@ =~= old(out)@ + seq![flat_of(*item)] + Seq::<FlatItem>::empty());
    }
}

/// Appends to `out` the rows of `items`.
pub fn flatten_all(items: &Vec<TreeItem>, expanded: &PathSet, out: &mut Vec<FlatItem>)
    ensures
        final(out)@ == old(out)@ + flatten(items@, expanded@),
    decreases items@,
{
    let mut i: usize = 0;
    assert(items@.take(0) =~= Seq::<TreeItem>::empty());
    while i < items.len()
        invariant
            i <= items@.len(),
            out@ == old(out)@ + flatten(items@.take(i as int), expanded@),
        decreases items@.len() - i,
    {
        assert(decreases_to!(items@ => items@[i as int]));
        flatten_to(&items[i], expanded, out);
        proof {
            assert(items@.take(i + 1).drop_last() =~= items@.take(i as int));
            assert(items@.take(i + 1).last() == items@[i as int]);
        }
        i = i + 1;
    }
    assert(items@.take(items@.len() as int) =~= items@);
}

/// `a` and `b` differ at most in whether they hold `p`.
pub open spec fn agree_except(a: Set<Seq<char>>, b: Set<Seq<char>>, p: Seq<char>) -> bool {
    forall|q: Seq<char>| q != p ==> (a.contains(q) <==> b.contains(q))
}

/// Opening or closing a node whose path no row shows changes no row.
pub proof fn lemma_flatten_unshown(items: Seq<TreeItem>, e: Set<Seq<char>>, e2: Set<Seq<char>>, p: Seq<char>)
    requires
        agree_except(e, e2, p),
        forall|j: int| 0 <= j < flatten(items, e).len() ==> (#[trigger] flatten(items, e)[j]).path@ != p,
    ensures
        flatten(items, e2) == flatten(items, e),
    decreases items,
{
    if items.len() > 0 {
        let last = items.last();
        let a = flatten(items.drop_last(), e);
        let c = if e.contains(last.path@) { flatten(last.children@, e) } else { Seq::empty() };
        assert(flatten(items, e) == a + seq![flat_of(last)] + c);
        assert forall|j: int| 0 <= j < a.len() implies (#[trigger] a[j]).path@ != p by {
            assert(flatten(items, e)[j] == a[j]);
        }
        lemma_flatten_unshown(items.drop_last(), e, e2, p);
        assert(flatten(items, e)[a.len() as int] == flat_of(last));
        if e.contains(last.path@) {
            assert forall|j: int| 0 <= j < c.len() implies (#[trigger] c[j]).path@ != p by {
                assert(flatten(items, e)[a.len() + 1 + j] == c[j]);
            }
            lemma_flatten_unshown(last.children@, e, e2, p);
        }
    }
}

/// Opening or closing the node shown at row `i` changes no row up to `i`, when no row
/// above it shows the same path.
pub proof fn lemma_flatten_prefix(items: Seq<TreeItem>, e: Set<Seq<char>>, e2: Set<Seq<char>>, i: int)
    requires
        0 <= i < flatten(items, e).len(),
        agree_except(e, e2, flatten(items, e)[i].path@),
        forall|j: int| 0 <= j < i ==> (#[trigger] flatten(items, e)[j]).path@ != flatten(items, e)[i].path@,
    ensures
        i < flatten(items, e2).len(),
        flatten(items, e2).take(i + 1) == flatten(items, e).take(i + 1),
    decreases items,
{
    let f = flatten(items, e);
    let p = f[i].path@;
    let last = items.last();
    let a = flatten(items.drop_last(), e);
    let c = if e.contains(last.path@) { flatten(last.children@, e) } else { Seq::empty() };
    assert(f == a + seq![flat_of(last)] + c);
    let a2 = flatten(items.drop_last(), e2);
    let c2 = if e2.contains(last.path@) { flatten(last.children@, e2) } else { Seq::empty() };
    assert(flatten(items, e2) == a2 + seq![flat_of(last)] + c2);
    if i < a.len() {
        assert(a[i] == f[i]);
        assert forall|j: int| 0 <= j < i implies (#[trigger] a[j]).path@ != a[i].path@ by {
            assert(f[j] == a[j]);
        }
        lemma_flatten_prefix(items.drop_last(), e, e2, i);
        assert(flatten(items, e2).take(i + 1) =~= a2.take(i + 1));
        assert(f.take(i + 1) =~= a.take(i + 1));
    } else {
        assert forall|j: int| 0 <= j < a.len() implies (#[trigger] a[j]).path@ != p by {
            assert(f[j] == a[j]);
        }
        lemma_flatten_unshown(items.drop_last(), e, e2, p);
        if i == a.len() {
            assert(flatten(items, e2).take(i + 1) =~= a + seq![flat_of(last)]);
            assert(f.take(i + 1) =~= a + seq![flat_of(last)]);
        } else {
            assert(f[a.len() as int] == flat_of(last));
            assert(last.path@ != p);
            assert(e.contains(last.path@) == e2.contains(last.path@));
            assert(e.contains(last.path@));
            let k = i - a.len() - 1;
            assert(c[k] == f[i]);
            assert forall|j: int| 0 <= j < k implies (#[trigger] c[j]).path@ != c[k].path@ by {
                assert(f[a.len() + 1 + j] == c[j]);
            }
            lemma_flatten_prefix(last.children@, e, e2, k);
            assert(flatten(items, e2).take(i + 1) =~= a + seq![flat_of(last)] + c2.take(k + 1));
            assert(f.take(i + 1) =~= a + seq![flat_of(last)] + c.take(k + 1));
        }
    }
}

/// The paths of a forest below `prefix`: siblings in increasing order of their names, each
/// node's path its name below `prefix`, each name one a file system gives, and the same
/// for the children below the node's path.
pub open spec fn paths_ok(items: Seq<TreeItem>, prefix: Seq<char>) -> bool
    decreases items,
{
    &&& forall|a: int, b: int| 0 <= a < b < items.len() ==> lex_lt(#[trigger] items[a].name@, #[trigger] items[b].name@)
    &&& forall|a: int| 0 <= a < items.len() ==> {
        &&& (#[trigger] items[a]).path@ == join_rel(prefix, items[a].name@)
        &&& entry_name_ok(items[a].name@)
        &&& paths_ok(items[a].children@, items[a].path@)
    }
}

/// The tree built from a listing has the paths of `paths_ok`.
pub proof fn lemma_tree_paths(items: Seq<TreeItem>, l: DirListing, prefix: Seq<char>, depth: nat)
    requires
        tree_ok(items, l, prefix, depth),
        listing_ok(l, depth),
    ensures
        paths_ok(items, prefix),
    decreases l,
{
    assert forall|a: int| 0 <= a < items.len() implies {
        &&& (#[trigger] items[a]).path@ == join_rel(prefix, items[a].name@)
        &&& entry_name_ok(items[a].name@)
        &&& paths_ok(items[a].children@, items[a].path@)
    } by {
        assert(items[a].depth == depth);
        let j = choose|j: int|
            0 <= j < l.entries@.len() && visible_dir(l.entries@[j]) && #[trigger] node_ok(items[a], l.entries@[j], prefix, depth)
                && (!marks_leaf(l.entries@[j].contents) ==> tree_ok(items[a].children@, l.entries@[j].contents, items[a].path@, depth + 1));
        assert(visible_dir(l.entries@[j]));
        if marks_leaf(l.entries@[j].contents) {
            assert(items[a].children@.len() == 0);
        } else {
            lemma_tree_paths(items[a].children@, l.entries@[j].contents, items[a].path@, depth + 1);
        }
    }
}

/// `q` is the path `join_rel(prefix, n)` or a path below it.
pub open spec fn at_or_below(q: Seq<char>, prefix: Seq<char>, n: Seq<char>) -> bool {
    let j = join_rel(prefix, n);
    &&& q.len() >= j.len()
    &&& q.take(j.len() as int) == j
    &&& (q.len() == j.len() || q[j.len() as int] == '/')
}

/// A path lies at or below at most one of the names under a prefix.
pub proof fn lemma_below_one(q: Seq<char>, prefix: Seq<char>, n1: Seq<char>, n2: Seq<char>)
    requires
        at_or_below(q, prefix, n1),
        at_or_below(q, prefix, n2),
        entry_name_ok(n1),
        entry_name_ok(n2),
    ensures
        n1 == n2,
{
    let off: int = if prefix.len() == 0 { 0 } else { prefix.len() + 1int };
    let j1 = join_rel(prefix, n1);
    let j2 = join_rel(prefix, n2);
    assert(j1.len() == off + n1.len());
    assert(j2.len() == off + n2.len());
    assert forall|k: int| 0 <= k < n1.len() implies q[off + k] == n1[k] by {
        assert(q.take(j1.len() as int)[off + k] == j1[off + k]);
    }
    assert forall|k: int| 0 <= k < n2.len() implies q[off + k] == n2[k] by {
        assert(q.take(j2.len() as int)[off + k] == j2[off + k]);
    }
    if n1.len() < n2.len() {
        assert(q[off + n1.len()] == n2[n1.len() as int]);
        assert(q[j1.len() as int] == '/');
    } else if n2.len() < n1.len() {
        assert(q[off + n2.len()] == n1[n2.len() as int]);
        assert(q[j2.len() as int] == '/');
    } else {
        assert(n1 =~= n2);
    }
}

/// The forest without its last node keeps the paths of `paths_ok`.
proof fn lemma_paths_drop_last(items: Seq<TreeItem>, prefix: Seq<char>)
    requires
        paths_ok(items, prefix),
        items.len() > 0,
    ensures
        paths_ok(items.drop_last(), prefix),
{
    let d = items.drop_last();
    assert forall|a: int| 0 <= a < d.len() implies {
        &&& (#[trigger] d[a]).path@ == join_rel(prefix, d[a].name@)
        &&& entry_name_ok(d[a].name@)
        &&& paths_ok(d[a].children@, d[a].path@)
    } by {
        assert(d[a] == items[a]);
    }
    assert forall|a: int, b: int| 0 <= a < b < d.len() implies lex_lt(#[trigger] d[a].name@, #[trigger] d[b].name@) by {
        assert(d[a] == items[a] && d[b] == items[b]);
    }
}

/// Every row shown lies at or below one of the forest's nodes; the result is that node's
/// position.
pub proof fn lemma_row_below(items: Seq<TreeItem>, e: Set<Seq<char>>, prefix: Seq<char>, i: int) -> (a: int)
    requires
        paths_ok(items, prefix),
        0 <= i < flatten(items, e).len(),
    ensures
        0 <= a < items.len(),
        at_or_below(flatten(items, e)[i].path@, prefix, items[a].name@),
    decreases items,
{
    let f = flatten(items, e);
    let last = items.last();
    let n = items.len() - 1;
    let ar = flatten(items.drop_last(), e);
    let c = if e.contains(last.path@) { flatten(last.children@, e) } else { Seq::empty() };
    assert(f == ar + seq![flat_of(last)] + c);
    assert(items[n] == last);
    if i < ar.len() {
        lemma_paths_drop_last(items, prefix);
        assert(f[i] == ar[i]);
        let a = lemma_row_below(items.drop_last(), e, prefix, i);
        assert(items.drop_last()[a] == items[a]);
        a
    } else if i == ar.len() {
        assert(f[i] == flat_of(last));
        assert(last.path@.take(last.path@.len() as int) =~= last.path@);
        n
    } else {
        let k = i - ar.len() - 1;
        assert(f[i] == c[k]);
        assert(e.contains(last.path@));
        let b = lemma_row_below(last.children@, e, last.path@, k);
        let q = c[k].path@;
        let lp = last.path@;
        let jb = join_rel(lp, last.children@[b].name@);
        assert(lp.len() > 0);
        assert(jb == lp + seq!['/'] + last.children@[b].name@);
        assert(q.take(lp.len() as int) =~= lp) by {
            assert forall|t: int| 0 <= t < lp.len() implies q[t] == lp[t] by {
                assert(q.take(jb.len() as int)[t] == jb[t]);
            }
        }
        assert(q[lp.len() as int] == '/') by {
            assert(q.take(jb.len() as int)[lp.len() as int] == jb[lp.len() as int]);
        }
        n
    }
}

/// The rows shown by a forest with the paths of `paths_ok` show distinct paths.
pub proof fn lemma_rows_distinct(items: Seq<TreeItem>, e: Set<Seq<char>>, prefix: Seq<char>)
    requires
        paths_ok(items, prefix),
    ensures
        forall|j: int, k: int| 0 <= j < k < flatten(items, e).len() ==> (#[trigger] flatten(items, e)[j]).path@
            != (#[trigger] flatten(items, e)[k]).path@,
    decreases items,
{
    if items.len() > 0 {
        let f = flatten(items, e);
        let last = items.last();
        let n = items.len() - 1;
        let ar = flatten(items.drop_last(), e);
        let c = if e.contains(last.path@) { flatten(last.children@, e) } else { Seq::empty() };
        assert(f == ar + seq![flat_of(last)] + c);
        assert(items[n] == last);
        lemma_paths_drop_last(items, prefix);
        lemma_rows_distinct(items.drop_last(), e, prefix);
        if e.contains(last.path@) {
            lemma_rows_distinct(last.children@, e, last.path@);
        }
        assert forall|j: int, k: int| 0 <= j < k < f.len() implies (#[trigger] f[j]).path@ != (#[trigger] f[k]).path@ by {
            if k < ar.len() {
                assert(f[j] == ar[j] && f[k] == ar[k]);
            } else if j < ar.len() {
                assert(f[j] == ar[j]);
                let a = lemma_row_below(items.drop_last(), e, prefix, j);
                assert(items.drop_last()[a] == items[a]);
                assert(lex_lt(items[a].name@, items[n].name@));
                let bk = lemma_row_below(items, e, prefix, k);
                if f[j].path@ == f[k].path@ {
                    if k == ar.len() {
                        assert(f[k] == flat_of(last));
                        assert(at_or_below(f[k].path@, prefix, last.name@)) by {
                            assert(last.path@.take(last.path@.len() as int) =~= last.path@);
                        }
                        lemma_below_one(f[k].path@, prefix, items[a].name@, last.name@);
                    } else {
                        let kk = k - ar.len() - 1;
                        assert(f[k] == c[kk]);
                        let b = lemma_row_below(last.children@, e, last.path@, kk);
                        let q = f[k].path@;
                        let lp = last.path@;
                        let jb = join_rel(lp, last.children@[b].name@);
                        assert(jb == lp + seq!['/'] + last.children@[b].name@);
                        assert(at_or_below(q, prefix, last.name@)) by {
                            assert forall|t: int| 0 <= t < lp.len() implies q[t] == lp[t] by {
                                assert(q.take(jb.len() as int)[t] == jb[t]);
                            }
                            assert(q.take(lp.len() as int) =~= lp);
                            assert(q.take(jb.len() as int)[lp.len() as int] == jb[lp.len() as int]);
                        }
                        lemma_below_one(q, prefix, items[a].name@, last.name@);
                    }
                    lemma_lex_irreflexive(last.name@);
                }
            } else if j == ar.len() {
                let kk = k - ar.len() - 1;
                assert(f[j] == flat_of(last));
                assert(f[k] == c[kk]);
                let b = lemma_row_below(last.children@, e, last.path@, kk);
                let jb = join_rel(last.path@, last.children@[b].name@);
                assert(jb.len() > last.path@.len());
            } else {
                let jj = j - ar.len() - 1;
                let kk = k - ar.len() - 1;
                assert(f[j] == c[jj] && f[k] == c[kk]);
            }
        }
    }
}

} // verus!
