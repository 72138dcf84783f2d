use vstd::prelude::*;
use crate::actions::ActionsState;
use crate::collections::{PathSet, views};
use crate::config::AppConfig;
use crate::paths::{char_index, lemma_char_index};
use crate::text::{chars_of, lemma_lex_asymmetric, lemma_lex_irreflexive, lemma_lex_transitive, lex_lt, str_eq, str_lt, string_from_chars};

verus! {

broadcast use vstd::string::group_string_axioms;

/// How a line of the summary is drawn.
#[derive(Debug, Clone, Copy, PartialEq, Eq, Structural)]
pub enum LineStyle {
    /// A section title (cyan, bold).
    Title,
    /// Ordinary text.
    Plain,
    /// A group of components (blue, bold).
    Group,
    /// A warning (red, bold).
    Danger,
    /// The title of the actions (magenta, bold).
    Actions,
    /// A note that nothing was chosen (grey).
    Muted,
}

/// A line of the summary.
#[derive(Debug)]
pub struct SummaryLine {
    pub text: String,
    pub style: LineStyle,
}

/// The views of summary lines.
pub open spec fn line_views(ls: Seq<SummaryLine>) -> Seq<(Seq<char>, LineStyle)> {
    ls.map_values(|l: SummaryLine| (l.text@, l.style))
}

/// The group of a chosen component: the text before its first `/`, or `root` for a path
/// without one.
pub open spec fn group_of(p: Seq<char>) -> Seq<char> {
    match char_index(p, '/') {
        Some(i) => p.take(i),
        None => "root"@,
    }
}

/// The entry of a chosen component in its group: the text after its first `/`, or the
/// whole path.
pub open spec fn entry_of(p: Seq<char>) -> Seq<char> {
    match char_index(p, '/') {
        Some(i) => p.skip(i + 1),
        None => p,
    }
}

/// A component's group and entry.
pub open spec fn pair_of(p: Seq<char>) -> (Seq<char>, Seq<char>) {
    (group_of(p), entry_of(p))
}

/// Groups in text order, and entries in text order within a group.
pub open spec fn pair_lt(a: (Seq<char>, Seq<char>), b: (Seq<char>, Seq<char>)) -> bool {
    lex_lt(a.0, b.0) || (a.0 == b.0 && lex_lt(a.1, b.1))
}

/// `order` lists each of `0..n` once.
pub open spec fn is_perm(order: Seq<int>, n: nat) -> bool {
    &&& order.len() == n
    &&& forall|a: int| 0 <= a < n ==> 0 <= #[trigger] order[a] < n
    &&& forall|a: int, b: int| 0 <= a < b < n ==> order[a] != order[b]
}

/// No pair comes after a later one.
pub open spec fn pairs_sorted(s: Seq<(Seq<char>, Seq<char>)>) -> bool {
    forall|a: int, b: int| 0 <= a < b < s.len() ==> !pair_lt(#[trigger] s[b], #[trigger] s[a])
}

/// The lines of sorted components: each group's name (`  - group`) before its first
/// entry, and each entry (`      - entry`).
pub open spec fn group_lines(s: Seq<(Seq<char>, Seq<char>)>) -> Seq<(Seq<char>, LineStyle)>
    decreases s.len(),
{
    if s.len() == 0 {
        Seq::empty()
    } else {
        let prev = s.drop_last();
        group_lines(prev)
            + (if prev.len() == 0 || prev.last().0 != s.last().0 {
                seq![("  - "@ + s.last().0, LineStyle::Group)]
            } else {
                Seq::empty()
            })
            + seq![("      - "@ + s.last().1, LineStyle::Plain)]
    }
}

/// The pairs of `paths` taken in the order `order`.
pub open spec fn pairs_in(order: Seq<int>, paths: Seq<Seq<char>>) -> Seq<(Seq<char>, Seq<char>)> {
    order.map_values(|k: int| pair_of(paths[k]))
}

/// `lines` shows the components `paths` grouped: the pairs of the paths, sorted.
pub open spec fn grouped(lines: Seq<(Seq<char>, LineStyle)>, paths: Seq<Seq<char>>) -> bool {
    exists|order: Seq<int>| {
        &&& is_perm(order, paths.len())
        &&& pairs_sorted(#[trigger] pairs_in(order, paths))
        &&& lines == group_lines(pairs_in(order, paths))
    }
}

/// A component's group and entry.
pub fn pair_of_path(p: &str) -> (r: (String, String))
    ensures
        (r.0@, r.1@) == pair_of(p@),
{
    let cs = chars_of(p);
    proof { lemma_char_index(p@, '/'); }
    let mut i: usize = 0;
    while i < cs.len() && cs[i] != '/'
        invariant
            i <= cs@.len(),
            cs@ == p@,
            forall|k: int| 0 <= k < i ==> cs@[k] != '/',
        decreases cs@.len() - i,
    {
        i = i + 1;
    }
    if i == cs.len() {
        proof {
            if let Some(j) = char_index(p@, '/') {
                assert(cs@[j] != '/');
            }
        }
        ("root".to_owned(), p.to_owned())
    } else {
        proof {
            assert(char_index(p@, '/') == Some(i as int)) by {
                if let Some(j) = char_index(p@, '/') {
                    if j < i {
                        assert(cs@[j] != '/');
                    }
                } else {
                    assert(cs@[i as int] == '/');
                }
            }
        }
        let mut g: Vec<char> = Vec::new();
        let mut k: usize = 0;
        while k < i
            invariant
                k <= i < cs@.len(),
                g@ == cs@.take(k as int),
            decreases i - k,
        {
            g.push(cs[k]);
            proof { assert(cs@.take(k + 1) =~= cs@.take(k as int).push(cs@[k as int])); }
            k = k + 1;
        }
        let mut e: Vec<char> = Vec::new();
        let mut k: usize = i + 1;
        while k < cs.len()
            invariant
                i < k <= cs@.len(),
                e@ == cs@.subrange(i + 1, k as int),
            decreases cs@.len() - k,
        {
            e.push(cs[k]);
            proof { assert(cs@.subrange(i + 1, k + 1) =~= cs@.subrange(i + 1, k as int).push(cs@[k as int])); }
            k = k + 1;
        }
        proof { assert(cs@.skip(i + 1) =~= cs@.subrange(i + 1, cs@.len() as int)); }
        (string_from_chars(g.as_slice()), string_from_chars(e.as_slice()))
    }
}

/// Whether pair `a` comes before pair `b`.
fn pair_less(a: &(String, String), b: &(String, String)) -> (r: bool)
    ensures
        r == pair_lt((a.0@, a.1@), (b.0@, b.1@)),
{
    str_lt(a.0.as_str(), b.0.as_str()) || (str_eq(a.0.as_str(), b.0.as_str()) && str_lt(a.1.as_str(), b.1.as_str()))
}

/// `pair_lt` is transitive.
proof fn lemma_pair_transitive(a: (Seq<char>, Seq<char>), b: (Seq<char>, Seq<char>), c: (Seq<char>, Seq<char>))
    requires
        pair_lt(a, b),
        pair_lt(b, c),
    ensures
        pair_lt(a, c),
{
    if lex_lt(a.0, b.0) && lex_lt(b.0, c.0) {
        lemma_lex_transitive(a.0, b.0, c.0);
    } else if a.0 == b.0 && b.0 == c.0 {
        lemma_lex_transitive(a.1, b.1, c.1);
    }
}

/// `pair_lt` is asymmetric.
proof fn lemma_pair_asymmetric(a: (Seq<char>, Seq<char>), b: (Seq<char>, Seq<char>))
    requires
        pair_lt(a, b),
    ensures
        !pair_lt(b, a),
{
    if lex_lt(a.0, b.0) {
        lemma_lex_asymmetric(a.0, b.0);
        if a.0 == b.0 {
            lemma_lex_irreflexive(a.0);
        }
    } else {
        lemma_lex_asymmetric(a.1, b.1);
        lemma_lex_irreflexive(a.0);
    }
}

/// The views of pairs of strings.
pub open spec fn pair_views(ps: Seq<(String, String)>) -> Seq<(Seq<char>, Seq<char>)> {
    ps.map_values(|p: (String, String)| (p.0@, p.1@))
}

/// The positions of `ps` in sorted order (equal pairs in their order in `ps`).
fn sorted_order(ps: &Vec<(String, String)>) -> (r: Vec<usize>)
    ensures
        is_perm(r@.map_values(|k: usize| k as int), ps@.len()),
        pairs_sorted(r@.map_values(|k: usize| pair_views(ps@)[k as int])),
{
    let ghost pv = pair_views(ps@);
    let mut r: Vec<usize> = Vec::new();
    let mut j: usize = 0;
    while j < ps.len()
        invariant
            j <= ps@.len(),
            pv == pair_views(ps@),
            r@.len() == j,
            forall|a: int| 0 <= a < r@.len() ==> #[trigger] r@[a] < j,
            forall|a: int, b: int| 0 <= a < b < r@.len() ==> r@[a] != r@[b],
            forall|a: int, b: int| 0 <= a < b < r@.len() ==> !pair_lt(pv[#[trigger] r@[b] as int], pv[#[trigger] r@[a] as int]),
        decreases ps@.len() - j,
    {
        let mut p: usize = 0;
        while p < r.len() && !pair_less(&ps[j], &ps[r[p]])
            invariant
                j < ps@.len(),
                pv == pair_views(ps@),
                p <= r@.len(),
                forall|a: int| 0 <= a < r@.len() ==> #[trigger] r@[a] < j,
                forall|q: int| 0 <= q < p ==> !pair_lt(pv[j as int], pv[#[trigger] r@[q] as int]),
            decreases r@.len() - p,
        {
            p = p + 1;
        }
        let ghost old_r = r@;
        r.insert(p, j);
        proof {
            assert(r@ == old_r.insert(p as int, j));
            assert forall|a: int, b: int| 0 <= a < b < r@.len() implies !pair_lt(pv[#[trigger] r@[b] as int], pv[#[trigger] r@[a] as int]) by {
                if b < p {
                    assert(r@[a] == old_r[a] && r@[b] == old_r[b]);
                } else if b == p {
                    assert(r@[a] == old_r[a]);
                } else if a < p {
                    assert(r@[a] == old_r[a] && r@[b] == old_r[b - 1]);
                } else if a == p {
                    assert(r@[b] == old_r[b - 1]);
                    assert(pair_lt(pv[j as int], pv[old_r[p as int] as int]));
                    if pair_lt(pv[old_r[b - 1] as int], pv[j as int]) {
                        if b - 1 == p {
                            lemma_pair_asymmetric(pv[j as int], pv[old_r[p as int] as int]);
                        } else {
                            lemma_pair_transitive(pv[old_r[b - 1] as int], pv[j as int], pv[old_r[p as int] as int]);
                        }
                    }
                } else {
                    assert(r@[a] == old_r[a - 1] && r@[b] == old_r[b - 1]);
                }
            }
            assert forall|a: int, b: int| 0 <= a < b < r@.len() implies r@[a] != r@[b] by {
                if b < p {
                    assert(r@[a] == old_r[a] && r@[b] == old_r[b]);
                } else if b == p {
                    assert(r@[a] == old_r[a]);
                } else if a < p {
                    assert(r@[a] == old_r[a] && r@[b] == old_r[b - 1]);
                } else if a == p {
                    assert(r@[b] == old_r[b - 1]);
                } else {
                    assert(r@[a] == old_r[a - 1] && r@[b] == old_r[b - 1]);
                }
            }
            assert forall|a: int| 0 <= a < r@.len() implies #[trigger] r@[a] < j + 1 by {
                if a < p {
                    assert(r@[a] == old_r[a]);
                } else if a > p {
                    assert(r@[a] == old_r[a - 1]);
                }
            }
        }
        j = j + 1;
    }
    proof {
        let m = r@.map_values(|k: usize| k as int);
        assert forall|a: int| 0 <= a < ps@.len() implies 0 <= #[trigger] m[a] < ps@.len() by {
            assert(r@[a] < j);
        }
        assert forall|a: int, b: int| 0 <= a < b < ps@.len() implies m[a] != m[b] by {
            assert(r@[a] != r@[b]);
        }
        let s = r@.map_values(|k: usize| pair_views(ps@)[k as int]);
        assert forall|a: int, b: int| 0 <= a < b < s.len() implies !pair_lt(#[trigger] s[b], #[trigger] s[a]) by {
            assert(!pair_lt(pv[r@[b] as int], pv[r@[a] as int]));
        }
    }
    r
}

/// The summary's lines for the chosen components `paths`, grouped and sorted (see
/// `grouped`).
pub fn component_lines(paths: &PathSet) -> (r: Vec<SummaryLine>)
    ensures
        grouped(line_views(r@), paths.order()),
{
    let items = paths.items();
    let ghost ps = views(items@);
    let mut pairs: Vec<(String, String)> = Vec::new();
    let mut i: usize = 0;
    while i < items.len()
        invariant
            i <= items@.len(),
            ps == views(items@),
            pairs@.len() == i,
            forall|k: int| 0 <= k < i ==> #[trigger] pair_views(pairs@)[k] == pair_of(ps[k]),
        decreases items@.len() - i,
    {
        let pr = pair_of_path(items[i].as_str());
        let ghost pv = (pr.0@, pr.1@);
        let ghost old_pairs = pairs@;
        pairs.push(pr);
        proof {
            assert(pair_views(pairs@) =~= pair_views(old_pairs).push(pv));
            assert(items@[i as int]@ == ps[i as int]);
        }
        i = i + 1;
    }
    let order = sorted_order(&pairs);
    proof {
        let m = order@.map_values(|k: usize| k as int);
        assert forall|a: int| 0 <= a < order@.len() implies #[trigger] order@[a] < pairs@.len() by {
            assert(m[a] == order@[a] as int);
        }
    }
    let ghost sorted = order@.map_values(|k: usize| pair_views(pairs@)[k as int]);
    let mut lines: Vec<SummaryLine> = Vec::new();
    let mut k: usize = 0;
    while k < order.len()
        invariant
            k <= order@.len(),
            order@.len() == pairs@.len(),
            forall|a: int| 0 <= a < order@.len() ==> #[trigger] order@[a] < pairs@.len(),
            sorted == order@.map_values(|k: usize| pair_views(pairs@)[k as int]),
            line_views(lines@) == group_lines(sorted.take(k as int)),
        decreases order@.len() - k,
    {
        let cur = &pairs[order[k]];
        let ghost before = line_views(lines@);
        let new_group = if k == 0 {
            true
        } else {
            !str_eq(pairs[order[k - 1]].0.as_str(), cur.0.as_str())
        };
        if new_group {
            let mut t = "  - ".to_owned();
            t.append(cur.0.as_str());
            lines.push(SummaryLine { text: t, style: LineStyle::Group });
        }
        let mut t = "      - ".to_owned();
        t.append(cur.1.as_str());
        lines.push(SummaryLine { text: t, style: LineStyle::Plain });
        proof {
            let s = sorted.take(k + 1);
            assert(s.drop_last() =~= sorted.take(k as int));
            assert(s.last() == sorted[k as int]);
            if k > 0 {
                assert(s.drop_last().last() == sorted[k - 1]);
            }
            assert(line_views(lines@) =~= group_lines(s));
        }
        k = k + 1;
    }
    proof {
        assert(sorted.take(order@.len() as int) =~= sorted);
        let m = order@.map_values(|k: usize| k as int);
        let s2 = pairs_in(m, ps);
        assert(s2 =~= sorted) by {
            assert forall|a: int| 0 <= a < s2.len() implies s2[a] == sorted[a] by {
                assert(pair_views(pairs@)[order@[a] as int] == pair_of(ps[order@[a] as int]));
            }
        }
        assert(ps == paths.order());
        assert(is_perm(m, ps.len()));
    }
    lines
}

/// The summary's opening lines: the title, the target directory and the cluster's name, a
/// blank line and the components' title.
pub open spec fn summary_head(gitops_dir: Seq<char>, cluster: Seq<char>) -> Seq<(Seq<char>, LineStyle)> {
    seq![
        ("GitOps Structure Generation"@, LineStyle::Title),
        ("  Target Directory: "@ + gitops_dir, LineStyle::Plain),
        ("  Cluster Name: "@ + cluster, LineStyle::Plain),
        (""@, LineStyle::Plain),
        ("Selected Components:"@, LineStyle::Title),
    ]
}

/// The summary's closing lines: a blank line, then the actions chosen (Git with its
/// warning; Flux with the dialog's URL, branch, path and kubeconfig), or a note that
/// there are none.
pub open spec fn summary_tail(a: ActionsState) -> Seq<(Seq<char>, LineStyle)> {
    seq![(""@, LineStyle::Plain)] + if a.init_git || a.bootstrap_flux {
        seq![("Post-Generation Actions"@, LineStyle::Actions)]
            + (if a.init_git {
                seq![
                    ("  [x] Initialize Local Git Repository & Push to Remote"@, LineStyle::Plain),
                    ("      DANGER: Will FORCE PUSH and OVERWRITE remote history!"@, LineStyle::Danger),
                ]
            } else {
                Seq::empty()
            })
            + (if a.bootstrap_flux {
                seq![("  [x] Bootstrap Flux CD"@, LineStyle::Plain)] + match a.flux_modal {
                    Some(m) => seq![
                        ("      - Git URL: "@ + m@.inputs[0].0, LineStyle::Plain),
                        ("      - Branch: "@ + m@.inputs[1].0, LineStyle::Plain),
                        ("      - Path: "@ + m@.inputs[2].0, LineStyle::Plain),
                        ("      - Kubeconfig: "@ + m@.inputs[3].0, LineStyle::Plain),
                    ],
                    None => Seq::empty(),
                }
            } else {
                Seq::empty()
            })
    } else {
        seq![("No Post-Generation Actions Selected"@, LineStyle::Muted)]
    }
}

/// `lines` is the summary of `config`, the chosen components `paths` and `actions`, with
/// `mid` the components' part: `summary_head`, the components grouped (see `grouped`) or
/// `  (None selected)`, and `summary_tail`.
pub open spec fn summary_shows(
    lines: Seq<(Seq<char>, LineStyle)>,
    config: AppConfig,
    paths: Seq<Seq<char>>,
    actions: ActionsState,
    mid: Seq<(Seq<char>, LineStyle)>,
) -> bool {
    &&& lines == summary_head(config.gitops_dir_path@, config.new_cluster_name@) + mid + summary_tail(actions)
    &&& if paths.len() == 0 {
        mid == seq![("  (None selected)"@, LineStyle::Plain)]
    } else {
        grouped(mid, paths)
    }
}

fn labelled(label: &str, value: &str) -> (r: SummaryLine)
    ensures
        r.text@ == label@ + value@,
        r.style == LineStyle::Plain,
{
    let mut t = label.to_owned();
    t.append(value);
    SummaryLine { text: t, style: LineStyle::Plain }
}

fn push_line(lines: &mut Vec<SummaryLine>, text: &str, style: LineStyle)
    ensures
        line_views(final(lines)@) == line_views(old(lines)@).push((text@, style)),
{
    lines.push(SummaryLine { text: text.to_owned(), style });
    assert(line_views(lines@) =~= line_views(old(lines)@).push((text@, style)));
}

/// The summary screen's text (see `summary_shows`).
pub fn summary_lines(config: &AppConfig, checked: &PathSet, actions: &ActionsState) -> (r: Vec<SummaryLine>)
    requires
        actions.bootstrap_flux ==> (actions.flux_modal matches Some(m) ==> m.inputs@.len() >= 4),
    ensures
        exists|mid: Seq<(Seq<char>, LineStyle)>| #[trigger] summary_shows(line_views(r@), *config, checked.order(), *actions, mid),
{
    let mut lines: Vec<SummaryLine> = Vec::new();
    push_line(&mut lines, "GitOps Structure Generation", LineStyle::Title);
    let l = labelled("  Target Directory: ", config.gitops_dir_path.as_str());
    let ghost v0 = line_views(lines@);
    lines.push(l);
    assert(line_views(lines@) =~= v0.push((l.text@, l.style)));
    let l = labelled("  Cluster Name: ", config.new_cluster_name.as_str());
    let ghost v0 = line_views(lines@);
    lines.push(l);
    assert(line_views(lines@) =~= v0.push((l.text@, l.style)));
    push_line(&mut lines, "", LineStyle::Plain);
    push_line(&mut lines, "Selected Components:", LineStyle::Title);
    let ghost head = line_views(lines@);
    assert(head =~= summary_head(config.gitops_dir_path@, config.new_cluster_name@));
    let ghost mid: Seq<(Seq<char>, LineStyle)>;
    if checked.is_empty() {
        push_line(&mut lines, "  (None selected)", LineStyle::Plain);
        proof { mid = seq![("  (None selected)"@, LineStyle::Plain)]; }
    } else {
        let mut comp = component_lines(checked);
        proof { mid = line_views(comp@); }
        let ghost l0 = lines@;
        let ghost c0 = comp@;
        lines.append(&mut comp);
        assert(lines@ == l0 + c0);
        assert(line_views(lines@) =~= line_views(l0) + line_views(c0));
    }
    assert(line_views(lines@) =~= head + mid);
    let ghost body = line_views(lines@);
    push_line(&mut lines, "", LineStyle::Plain);
    if actions.init_git || actions.bootstrap_flux {
        push_line(&mut lines, "Post-Generation Actions", LineStyle::Actions);
        if actions.init_git {
            push_line(&mut lines, "  [x] Initialize Local Git Repository & Push to Remote", LineStyle::Plain);
            push_line(&mut lines, "      DANGER: Will FORCE PUSH and OVERWRITE remote history!", LineStyle::Danger);
        }
        if actions.bootstrap_flux {
            push_line(&mut lines, "  [x] Bootstrap Flux CD", LineStyle::Plain);
            match &actions.flux_modal {
                Some(m) => {
                    proof { assert(m.inputs@.len() == m@.inputs.len()); }
                    let a = labelled("      - Git URL: ", m.inputs[0].value());
                    let b = labelled("      - Branch: ", m.inputs[1].value());
                    let c = labelled("      - Path: ", m.inputs[2].value());
                    let d = labelled("      - Kubeconfig: ", m.inputs[3].value());
                    let ghost v1 = line_views(lines@);
                    let ghost av = (a.text@, a.style);
                    let ghost bv = (b.text@, b.style);
                    let ghost cv = (c.text@, c.style);
                    let ghost dv = (d.text@, d.style);
                    lines.push(a);
                    lines.push(b);
                    lines.push(c);
                    lines.push(d);
                    assert(line_views(lines@) =~= v1 + seq![av, bv, cv, dv]);
                },
                None => {},
            }
        }
    } else {
        push_line(&mut lines, "No Post-Generation Actions Selected", LineStyle::Muted);
    }
    assert(line_views(lines@) =~= body + summary_tail(*actions));
    assert(line_views(lines@) =~= summary_head(config.gitops_dir_path@, config.new_cluster_name@) + mid + summary_tail(*actions));
    assert(summary_shows(line_views(lines@), *config, checked.order(), *actions, mid));
    lines
}

} // verus!
