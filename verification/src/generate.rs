use vstd::prelude::*;
use crate::collections::{PathMap, PathSet, views};
use crate::paths::{expand_home, expand_home_path, file_name, join_path, path_join, path_file_name, ups, up_path, component_count};
use crate::text::{char_views, split_nl, nl_index, nl_free, lemma_nl_index, lemma_lines_nl_free, append_chars, append_str, contains_sub, has_prefix, has_substring, lex_lt, lemma_lex_total, lemma_lex_transitive, starts_with, str_lt, trim, trim_chars, chars_of, join, join_chars, spec_lines, split_lines, string_from_chars};

verus! {

broadcast use vstd::string::group_string_axioms;

/// `n` spaces.
pub open spec fn spaces(n: nat) -> Seq<char> {
    Seq::new(n, |i: int| ' ')
}

/// A line indented by `n` spaces; an empty line stays empty.
pub open spec fn indent_line(line: Seq<char>, n: nat) -> Seq<char> {
    if line.len() == 0 {
        line
    } else {
        spaces(n) + line
    }
}

/// The text with each of its non-empty lines indented by `n` spaces, the lines joined by
/// line feeds (no line feed at the end).
pub open spec fn spec_indent(content: Seq<char>, n: nat) -> Seq<char> {
    join(spec_lines(content).map_values(|l: Seq<char>| indent_line(l, n)), seq!['\n'])
}

/// A line with the indent of `n` spaces taken off again; an empty line stays empty.
pub open spec fn unindent_line(line: Seq<char>, n: nat) -> Seq<char> {
    if line.len() == 0 {
        line
    } else {
        line.skip(n as int)
    }
}

/// The pieces of an indented text with the indent taken off each.
pub open spec fn unindented_pieces(text: Seq<char>, n: nat) -> Seq<Seq<char>> {
    split_nl(text).map_values(|p: Seq<char>| unindent_line(p, n))
}

/// Indenting a text and taking the indent off again gives its lines back: the indented
/// text, split at its line feeds, with the `n` spaces taken off each non-empty piece and
/// joined by line feeds, is the text's lines joined by line feeds; indenting by no spaces
/// just joins the lines. For a text that is not empty, more: there is one piece per line,
/// each empty or beginning with the `n` spaces, and without them each piece is that line.
pub proof fn lemma_indent_round_trip(content: Seq<char>, n: nat)
    ensures
        join(unindented_pieces(spec_indent(content, n), n), seq!['\n']) == join(spec_lines(content), seq!['\n']),
        spec_indent(content, 0) == join(spec_lines(content), seq!['\n']),
        content.len() > 0 ==> split_nl(spec_indent(content, n)).len() == spec_lines(content).len(),
        content.len() > 0 ==> forall|i: int| 0 <= i < spec_lines(content).len() ==> {
            let piece = #[trigger] split_nl(spec_indent(content, n))[i];
            &&& piece.len() == 0 || piece.take(n as int) == spaces(n)
            &&& unindent_line(piece, n) == spec_lines(content)[i]
        },
{
    let lines = spec_lines(content);
    let f = |l: Seq<char>| indent_line(l, n);
    let ind = lines.map_values(f);
    let f0 = |l: Seq<char>| indent_line(l, 0);
    assert(lines.map_values(f0) =~= lines) by {
        assert forall|i: int| 0 <= i < lines.len() implies lines.map_values(f0)[i] == lines[i] by {
            assert(spaces(0) + lines[i] =~= lines[i]);
        }
    }
    if content.len() == 0 {
        assert(lines =~= Seq::<Seq<char>>::empty());
        assert(ind =~= Seq::<Seq<char>>::empty());
        let e = Seq::<char>::empty();
        assert(spec_indent(content, n) == e);
        assert(nl_index(e) is None);
        assert(split_nl(e) == seq![e]);
        assert(unindented_pieces(e, n) =~= seq![e]);
        return;
    }
    lemma_lines_nl_free(content);
    lemma_nl_index(content);
    assert(lines.len() > 0);
    assert forall|i: int| 0 <= i < ind.len() implies nl_free(#[trigger] ind[i]) by {
        assert(nl_free(lines[i]));
        assert(ind[i] == indent_line(lines[i], n));
        if lines[i].len() > 0 {
            assert forall|k: int| 0 <= k < ind[i].len() implies ind[i][k] != '\n' by {
                if k >= n {
                    assert(ind[i][k] == lines[i][k - n]);
                }
            }
        }
    }
    crate::text::lemma_split_join(ind);
    assert(split_nl(spec_indent(content, n)) == ind);
    assert forall|i: int| 0 <= i < lines.len() implies {
        let piece = #[trigger] split_nl(spec_indent(content, n))[i];
        &&& piece.len() == 0 || piece.take(n as int) == spaces(n)
        &&& unindent_line(piece, n) == lines[i]
    } by {
        assert(ind[i] == indent_line(lines[i], n));
        if lines[i].len() > 0 {
            assert(ind[i].take(n as int) =~= spaces(n));
            assert(ind[i].skip(n as int) =~= lines[i]);
        }
    }
    assert(unindented_pieces(spec_indent(content, n), n) =~= lines);
}

/// Indents every non-empty line of `content` by `spaces` spaces.
pub fn indent_content(content: &str, spaces: usize) -> (r: String)
    ensures
        r@ == spec_indent(content@, spaces as nat),
{
    let mut indent: Vec<char> = Vec::new();
    let mut k: usize = 0;
    while k < spaces
        invariant
            k <= spaces,
            indent@ == self::spaces(k as nat),
        decreases spaces - k,
    {
        indent.push(' ');
        proof {
            assert(indent@ =~= self::spaces((k + 1) as nat));
        }
        k = k + 1;
    }
    let text = chars_of(content);
    let lines = split_lines(&text);
    let mut out: Vec<Vec<char>> = Vec::new();
    let mut i: usize = 0;
    while i < lines.len()
        invariant
            i <= lines@.len(),
            indent@ == self::spaces(spaces as nat),
            char_views(lines@) == spec_lines(content@),
            char_views(out@) == char_views(lines@).take(i as int).map_values(|l: Seq<char>| indent_line(l, spaces as nat)),
        decreases lines@.len() - i,
    {
        let mut line: Vec<char> = Vec::new();
        if lines[i].len() > 0 {
            crate::text::append_chars(&mut line, &indent);
        }
        crate::text::append_chars(&mut line, &lines[i]);
        assert(line@ =~= indent_line(lines@[i as int]@, spaces as nat));
        let ghost before = out@;
        out.push(line);
        proof {
            assert(char_views(lines@)[i as int] == lines@[i as int]@);
            assert(char_views(out@) =~= char_views(before).push(line@));
            let f = |l: Seq<char>| indent_line(l, spaces as nat);
            assert(char_views(lines@).take(i + 1) =~= char_views(lines@).take(i as int).push(char_views(lines@)[i as int]));
            assert(char_views(lines@).take(i + 1).map_values(f) =~= char_views(lines@).take(i as int).map_values(f).push(f(char_views(lines@)[i as int])));
        }
        i = i + 1;
    }
    assert(char_views(lines@).take(lines@.len() as int) =~= char_views(lines@));
    let sep = vec!['\n'];
    let joined = join_chars(&out, &sep);
    assert(sep@ =~= seq!['\n']);
    string_from_chars(joined.as_slice())
}

/// A step on the file system that generation takes.
#[derive(Debug)]
pub enum FsOp {
    /// `fs::create_dir_all(path)`; an error stops the generation.
    CreateDir(String),
    /// `fs::write(path, content)`; an error stops the generation.
    Write(String, String),
    /// `fs::write(path, content)`, whose error is ignored.
    WriteIgnoringError(String, String),
}

/// The mathematical form of a step.
pub enum FsOpView {
    CreateDir(Seq<char>),
    Write(Seq<char>, Seq<char>),
    WriteIgnoringError(Seq<char>, Seq<char>),
}

impl View for FsOp {
    type V = FsOpView;

    open spec fn view(&self) -> FsOpView {
        match self {
            FsOp::CreateDir(p) => FsOpView::CreateDir(p@),
            FsOp::Write(p, c) => FsOpView::Write(p@, c@),
            FsOp::WriteIgnoringError(p, c) => FsOpView::WriteIgnoringError(p@, c@),
        }
    }
}

/// The views of a list of steps.
pub open spec fn op_views(ops: Seq<FsOp>) -> Seq<FsOpView> {
    ops.map_values(|o: FsOp| o@)
}

/// The start of every kustomization this program writes.
pub open spec fn kustomization_header() -> Seq<char> {
    "apiVersion: kustomize.config.k8s.io/v1beta1\nkind: Kustomization\nresources:\n"@
}

/// The kustomization of a chosen component in the cluster's directory: it points at the
/// component in the bases (as many `../` as the component's path has components, and one
/// more), and at `patch.yaml` when Helm values were written for it.
pub open spec fn component_kustomization(base_dir: Seq<char>, rel: Seq<char>, patched: bool) -> Seq<char> {
    kustomization_header() + "  - "@ + ups(component_count(rel) + 1) + base_dir + "/"@ + rel + "\n"@
        + if patched { "patches:\n  - path: patch.yaml\n"@ } else { Seq::empty() }
}

/// The patch that sets the Helm values written for a component: a HelmRelease named after
/// the component's directory, with the values indented under `spec.values`.
pub open spec fn patch_yaml(rel: Seq<char>, values: Seq<char>) -> Seq<char> {
    "apiVersion: helm.toolkit.fluxcd.io/v2\nkind: HelmRelease\nmetadata:\n  name: "@ + file_name(rel)
        + "\nspec:\n  values:\n"@ + spec_indent(values, 4)
}

/// The steps that write one chosen component into the cluster's directory.
pub open spec fn component_steps(cluster: Seq<char>, base_dir: Seq<char>, rel: Seq<char>, values: Option<Seq<char>>) -> Seq<FsOpView> {
    let dir = join_path(cluster, rel);
    seq![FsOpView::CreateDir(dir)] + match values {
        Some(v) => seq![FsOpView::Write(join_path(dir, "patch.yaml"@), patch_yaml(rel, v))],
        None => Seq::empty(),
    } + seq![FsOpView::Write(join_path(dir, "kustomization.yaml"@), component_kustomization(base_dir, rel, values is Some))]
}

/// The Helm values written for `rel`, if any.
pub open spec fn values_for(customized: Map<Seq<char>, Seq<char>>, rel: Seq<char>) -> Option<Seq<char>> {
    if customized.contains_key(rel) {
        Some(customized[rel])
    } else {
        None
    }
}

/// The steps that write the chosen components `rels`, in order.
pub open spec fn components_steps(cluster: Seq<char>, base_dir: Seq<char>, rels: Seq<Seq<char>>, customized: Map<Seq<char>, Seq<char>>) -> Seq<FsOpView>
    decreases rels.len(),
{
    if rels.len() == 0 {
        Seq::empty()
    } else {
        components_steps(cluster, base_dir, rels.drop_last(), customized)
            + component_steps(cluster, base_dir, rels.last(), values_for(customized, rels.last()))
    }
}

fn text_to_string(v: &Vec<char>) -> (r: String)
    ensures
        r@ == v@,
{
    string_from_chars(v.as_slice())
}

/// The kustomization of one chosen component.
pub fn component_kustomization_text(base_dir: &str, rel: &str, patched: bool) -> (r: String)
    ensures
        r@ == component_kustomization(base_dir@, rel@, patched),
{
    let mut out: Vec<char> = Vec::new();
    append_str(&mut out, "apiVersion: kustomize.config.k8s.io/v1beta1\nkind: Kustomization\nresources:\n");
    append_str(&mut out, "  - ");
    let up = up_path(rel);
    append_str(&mut out, up.as_str());
    append_str(&mut out, base_dir);
    append_str(&mut out, "/");
    append_str(&mut out, rel);
    append_str(&mut out, "\n");
    let ghost before = out@;
    if patched {
        append_str(&mut out, "patches:\n  - path: patch.yaml\n");
    } else {
        assert(out@ =~= before + Seq::<char>::empty());
    }
    text_to_string(&out)
}

/// The patch with the Helm values written for a component.
pub fn patch_yaml_text(rel: &str, values: &str) -> (r: String)
    ensures
        r@ == patch_yaml(rel@, values@),
{
    let mut out: Vec<char> = Vec::new();
    append_str(&mut out, "apiVersion: helm.toolkit.fluxcd.io/v2\nkind: HelmRelease\nmetadata:\n  name: ");
    let name = path_file_name(rel);
    append_str(&mut out, name.as_str());
    append_str(&mut out, "\nspec:\n  values:\n");
    let indented = indent_content(values, 4);
    append_str(&mut out, indented.as_str());
    text_to_string(&out)
}

/// The steps that write the chosen components into the cluster's directory
/// `target_cluster`: for each, in the set's order, its directory, its patch if Helm values
/// were written for it, and its kustomization.
pub fn component_ops(target_cluster: &str, base_dir_path: &str, checked: &PathSet, customized: &PathMap) -> (r: Vec<FsOp>)
    ensures
        op_views(r@) == components_steps(target_cluster@, base_dir_path@, checked.order(), customized@),
{
    let rels = checked.items();
    let mut ops: Vec<FsOp> = Vec::new();
    let mut i: usize = 0;
    while i < rels.len()
        invariant
            i <= rels@.len(),
            views(rels@) == checked.order(),
            op_views(ops@) == components_steps(target_cluster@, base_dir_path@, views(rels@).take(i as int), customized@),
        decreases rels@.len() - i,
    {
        let rel = rels[i].as_str();
        let ghost before = op_views(ops@);
        let dir = path_join(target_cluster, rel);
        let patch = customized.get(rel);
        ops.push(FsOp::CreateDir(dir.clone()));
        match patch {
            Some(values) => {
                let patch_path = path_join(dir.as_str(), "patch.yaml");
                ops.push(FsOp::Write(patch_path, patch_yaml_text(rel, values.as_str())));
            },
            None => {},
        }
        let kust_path = path_join(dir.as_str(), "kustomization.yaml");
        ops.push(FsOp::Write(kust_path, component_kustomization_text(base_dir_path, rel, patch.is_some())));
        proof {
            let t = views(rels@).take(i + 1);
            assert(t.drop_last() =~= views(rels@).take(i as int));
            assert(t.last() == rel@);
            let vals = values_for(customized@, rel@);
            assert(vals == match patch { Some(v) => Some(v@), None => None::<Seq<char>> });
            assert(op_views(ops@) =~= before + component_steps(target_cluster@, base_dir_path@, rel@, vals));
        }
        i = i + 1;
    }
    assert(views(rels@).take(rels@.len() as int) =~= views(rels@));
    ops
}

/// A quote character.
pub open spec fn is_quote(c: char) -> bool {
    c == '"' || c == '\''
}

/// The text without quote characters at either end (`trim_matches` of `"` and `'`).
pub open spec fn trim_quotes(s: Seq<char>) -> Seq<char>
    decreases s.len(),
{
    if s.len() > 0 && is_quote(s[0]) {
        trim_quotes(s.drop_first())
    } else if s.len() > 0 && is_quote(s.last()) {
        trim_quotes(s.drop_last())
    } else {
        s
    }
}

/// The first line that starts with `namespace:` once trimmed, trimmed.
pub open spec fn first_namespace_line(lines: Seq<Seq<char>>) -> Option<Seq<char>>
    decreases lines.len(),
{
    if lines.len() == 0 {
        None
    } else if starts_with(trim(lines[0]), "namespace:"@) {
        Some(trim(lines[0]))
    } else {
        first_namespace_line(lines.drop_first())
    }
}

/// The namespace that a `helm-release.yaml` puts its release in: the text after the
/// first `namespace:`, trimmed and unquoted; none if that is `flux-system` or `default`
/// (or if no line starts with `namespace:`).
pub open spec fn release_namespace(content: Seq<char>) -> Option<Seq<char>> {
    match first_namespace_line(spec_lines(content)) {
        None => None,
        Some(line) => {
            let ns = trim_quotes(trim(line.skip("namespace:"@.len() as int)));
            if ns == "flux-system"@ || ns == "default"@ {
                None
            } else {
                Some(ns)
            }
        },
    }
}

/// `trim_matches` of the quote characters.
fn trim_quote_chars(s: &Vec<char>) -> (r: Vec<char>)
    ensures
        r@ == trim_quotes(s@),
{
    let mut a: usize = 0;
    let mut b: usize = s.len();
    assert(s@.subrange(0, s@.len() as int) =~= s@);
    while a < b && (s[a] == '"' || s[a] == '\'')
        invariant
            a <= b == s@.len(),
            trim_quotes(s@) == trim_quotes(s@.subrange(a as int, b as int)),
        decreases b - a,
    {
        proof {
            assert(s@.subrange(a as int, b as int).drop_first() =~= s@.subrange(a + 1, b as int));
        }
        a = a + 1;
    }
    while a < b && (s[b - 1] == '"' || s[b - 1] == '\'')
        invariant
            a <= b <= s@.len(),
            a < b ==> !is_quote(s@[a as int]),
            trim_quotes(s@) == trim_quotes(s@.subrange(a as int, b as int)),
        decreases b - a,
    {
        proof {
            let t = s@.subrange(a as int, b as int);
            assert(t.drop_last() =~= s@.subrange(a as int, b - 1));
            assert(t[0] == s@[a as int]);
        }
        b = b - 1;
    }
    let mut out: Vec<char> = Vec::new();
    let mut k: usize = a;
    while k < b
        invariant
            a <= k <= b <= s@.len(),
            out@ == s@.subrange(a as int, k as int),
        decreases b - k,
    {
        out.push(s[k]);
        proof { assert(out@ =~= s@.subrange(a as int, k + 1)); }
        k = k + 1;
    }
    proof {
        let t = s@.subrange(a as int, b as int);
        if t.len() > 0 {
            assert(t[0] == s@[a as int]);
            assert(t.last() == s@[b - 1]);
        }
    }
    out
}

/// The namespace that a `helm-release.yaml` puts its release in, unless it is
/// `flux-system` or `default`.
pub fn release_namespace_of(content: &str) -> (r: Option<String>)
    ensures
        match r {
            Some(ns) => release_namespace(content@) == Some(ns@),
            None => release_namespace(content@) is None,
        },
{
    let text = chars_of(content);
    let lines = split_lines(&text);
    let key = chars_of("namespace:");
    let mut i: usize = 0;
    assert(char_views(lines@).skip(0) =~= char_views(lines@));
    while i < lines.len()
        invariant
            i <= lines@.len(),
            key@ == "namespace:"@,
            char_views(lines@) == spec_lines(content@),
            first_namespace_line(spec_lines(content@)) == first_namespace_line(char_views(lines@).skip(i as int)),
        decreases lines@.len() - i,
    {
        let t = trim_chars(&lines[i]);
        proof {
            assert(char_views(lines@).skip(i as int)[0] == lines@[i as int]@);
            assert(char_views(lines@).skip(i as int).drop_first() =~= char_views(lines@).skip(i + 1));
        }
        if has_prefix(&t, &key) {
            let mut rest: Vec<char> = Vec::new();
            let mut k: usize = key.len();
            while k < t.len()
                invariant
                    key@.len() <= k <= t@.len(),
                    rest@ == t@.subrange(key@.len() as int, k as int),
                decreases t@.len() - k,
            {
                rest.push(t[k]);
                proof { assert(rest@ =~= t@.subrange(key@.len() as int, k + 1)); }
                k = k + 1;
            }
            assert(rest@ =~= t@.skip("namespace:"@.len() as int));
            let ns = trim_quote_chars(&trim_chars(&rest));
            let ns_s = text_to_string(&ns);
            if crate::text::str_eq(ns_s.as_str(), "flux-system") || crate::text::str_eq(ns_s.as_str(), "default") {
                return None;
            }
            return Some(ns_s);
        }
        i = i + 1;
    }
    proof {
        assert(char_views(lines@).skip(lines@.len() as int) =~= Seq::<Seq<char>>::empty());
    }
    None
}

/// The lines that do not mention `- namespace.yaml`.
pub open spec fn lines_without_namespace(lines: Seq<Seq<char>>) -> Seq<Seq<char>>
    decreases lines.len(),
{
    if lines.len() == 0 {
        Seq::empty()
    } else {
        lines_without_namespace(lines.drop_last()) + if contains_sub(lines.last(), "- namespace.yaml"@) {
            Seq::empty()
        } else {
            seq![lines.last()]
        }
    }
}

/// A base's kustomization without its `- namespace.yaml` resource (the namespaces are
/// written once, for the whole cluster): its other lines, each ended by a line feed.
pub open spec fn strip_namespace_resource(content: Seq<char>) -> Seq<char> {
    join(lines_without_namespace(spec_lines(content)), seq!['\n']) + seq!['\n']
}

/// A base's kustomization without its `- namespace.yaml` resource.
pub fn without_namespace_resource(content: &str) -> (r: String)
    ensures
        r@ == strip_namespace_resource(content@),
{
    let text = chars_of(content);
    let lines = split_lines(&text);
    let needle = chars_of("- namespace.yaml");
    let mut kept: Vec<Vec<char>> = Vec::new();
    let mut i: usize = 0;
    while i < lines.len()
        invariant
            i <= lines@.len(),
            needle@ == "- namespace.yaml"@,
            char_views(kept@) == lines_without_namespace(char_views(lines@).take(i as int)),
        decreases lines@.len() - i,
    {
        let ghost before = char_views(kept@);
        proof {
            let t = char_views(lines@).take(i + 1);
            assert(t.drop_last() =~= char_views(lines@).take(i as int));
            assert(t.last() == lines@[i as int]@);
        }
        if !has_substring(&lines[i], &needle) {
            kept.push(lines[i].clone());
            assert(char_views(kept@) =~= before.push(lines@[i as int]@));
        } else {
            assert(char_views(kept@) =~= before + Seq::<Seq<char>>::empty());
        }
        i = i + 1;
    }
    assert(char_views(lines@).take(lines@.len() as int) =~= char_views(lines@));
    let sep = vec!['\n'];
    let mut joined = join_chars(&kept, &sep);
    assert(sep@ =~= seq!['\n']);
    joined.push('\n');
    text_to_string(&joined)
}

/// A list of names in strictly increasing order (so without repetition).
pub open spec fn strictly_sorted(s: Seq<Seq<char>>) -> bool {
    forall|a: int, b: int| 0 <= a < b < s.len() ==> lex_lt(#[trigger] s[a], #[trigger] s[b])
}

/// Adds `ns` to the sorted list of namespaces, unless it is there already (the namespaces
/// form a set, written in sorted order).
pub fn add_namespace(namespaces: &mut Vec<String>, ns: String)
    requires
        strictly_sorted(views(old(namespaces)@)),
    ensures
        strictly_sorted(views(final(namespaces)@)),
        views(final(namespaces)@).to_set() == views(old(namespaces)@).to_set().insert(ns@),
{
    let ghost old_v = views(namespaces@);
    let mut p: usize = 0;
    while p < namespaces.len() && str_lt(namespaces[p].as_str(), ns.as_str())
        invariant
            p <= namespaces@.len(),
            old_v == views(namespaces@),
            forall|q: int| 0 <= q < p ==> lex_lt(#[trigger] old_v[q], ns@),
        decreases namespaces@.len() - p,
    {
        p = p + 1;
    }
    if p < namespaces.len() && namespaces[p] == ns {
        assert(old_v.to_set() =~= old_v.to_set().insert(ns@)) by {
            assert(old_v[p as int] == ns@);
        }
        return;
    }
    let ghost pp = p as int;
    namespaces.insert(p, ns);
    proof {
        let nv = views(namespaces@);
        assert(nv =~= old_v.insert(pp, ns@));
        assert forall|q: int| pp < q < old_v.len() implies lex_lt(ns@, #[trigger] old_v[q]) by {
            lemma_lex_total(old_v[pp], ns@);
            lemma_lex_transitive(ns@, old_v[pp], old_v[q]);
        }
        if pp < old_v.len() {
            lemma_lex_total(old_v[pp], ns@);
        }
        assert forall|a: int, b: int| 0 <= a < b < nv.len() implies lex_lt(#[trigger] nv[a], #[trigger] nv[b]) by {
            if b < pp {
                assert(nv[a] == old_v[a] && nv[b] == old_v[b]);
            } else if b == pp {
                assert(nv[a] == old_v[a]);
            } else if a < pp {
                assert(nv[a] == old_v[a] && nv[b] == old_v[b - 1]);
                lemma_lex_transitive(old_v[a], ns@, old_v[b - 1]);
            } else if a == pp {
                assert(nv[b] == old_v[b - 1]);
            } else {
                assert(nv[a] == old_v[a - 1] && nv[b] == old_v[b - 1]);
            }
        }
        assert(nv.to_set() =~= old_v.to_set().insert(ns@)) by {
            assert forall|x: Seq<char>| nv.to_set().contains(x) <==> old_v.to_set().insert(ns@).contains(x) by {
                if nv.contains(x) {
                    let k = choose|k: int| 0 <= k < nv.len() && nv[k] == x;
                    if k < pp { assert(old_v[k] == x); } else if k > pp { assert(old_v[k - 1] == x); }
                }
                if old_v.contains(x) {
                    let k = choose|k: int| 0 <= k < old_v.len() && old_v[k] == x;
                    if k < pp { assert(nv[k] == x); } else { assert(nv[k + 1] == x); }
                }
                if x == ns@ {
                    assert(nv[pp] == x);
                }
            }
        }
    }
}

/// The manifest of a namespace.
pub open spec fn namespace_manifest(ns: Seq<char>) -> Seq<char> {
    "apiVersion: v1\nkind: Namespace\nmetadata:\n  name: "@ + ns + "\n"@
}

/// The file of a namespace's manifest.
pub open spec fn namespace_file(ns: Seq<char>) -> Seq<char> {
    ns + ".yaml"@
}

/// The resource lines of the namespaces' kustomization.
pub open spec fn namespace_resources(nss: Seq<Seq<char>>) -> Seq<Seq<char>> {
    nss.map_values(|ns: Seq<char>| "  - "@ + namespace_file(ns))
}

/// The steps that write one manifest per namespace, in order.
pub open spec fn namespace_file_steps(dir: Seq<char>, nss: Seq<Seq<char>>) -> Seq<FsOpView> {
    nss.map_values(|ns: Seq<char>| FsOpView::Write(join_path(dir, namespace_file(ns)), namespace_manifest(ns)))
}

/// The steps that write the cluster's `namespaces` directory: nothing without namespaces;
/// otherwise the directory, one manifest per namespace and a kustomization that lists them.
pub open spec fn namespace_steps(cluster: Seq<char>, nss: Seq<Seq<char>>) -> Seq<FsOpView> {
    let dir = join_path(cluster, "namespaces"@);
    if nss.len() == 0 {
        Seq::empty()
    } else {
        seq![FsOpView::CreateDir(dir)] + namespace_file_steps(dir, nss) + seq![FsOpView::Write(
            join_path(dir, "kustomization.yaml"@),
            kustomization_header() + join(namespace_resources(nss), seq!['\n']) + seq!['\n'],
        )]
    }
}

/// The steps that write the cluster's `namespaces` directory for `namespaces`.
pub fn namespace_ops(target_cluster: &str, namespaces: &Vec<String>) -> (r: Vec<FsOp>)
    ensures
        op_views(r@) == namespace_steps(target_cluster@, views(namespaces@)),
{
    let mut ops: Vec<FsOp> = Vec::new();
    if namespaces.len() == 0 {
        assert(op_views(ops@) =~= Seq::<FsOpView>::empty());
        return ops;
    }
    let dir = path_join(target_cluster, "namespaces");
    ops.push(FsOp::CreateDir(dir.clone()));
    let mut resources: Vec<Vec<char>> = Vec::new();
    let mut i: usize = 0;
    while i < namespaces.len()
        invariant
            i <= namespaces@.len(),
            dir@ == join_path(target_cluster@, "namespaces"@),
            op_views(ops@) == seq![FsOpView::CreateDir(dir@)] + namespace_file_steps(dir@, views(namespaces@).take(i as int)),
            char_views(resources@) == namespace_resources(views(namespaces@).take(i as int)),
        decreases namespaces@.len() - i,
    {
        let ns = namespaces[i].as_str();
        let mut file: Vec<char> = chars_of(ns);
        append_str(&mut file, ".yaml");
        let file_s = text_to_string(&file);
        let mut manifest: Vec<char> = Vec::new();
        append_str(&mut manifest, "apiVersion: v1\nkind: Namespace\nmetadata:\n  name: ");
        append_str(&mut manifest, ns);
        append_str(&mut manifest, "\n");
        let ghost before_ops = op_views(ops@);
        ops.push(FsOp::Write(path_join(dir.as_str(), file_s.as_str()), text_to_string(&manifest)));
        let mut res: Vec<char> = Vec::new();
        append_str(&mut res, "  - ");
        append_chars(&mut res, &file);
        let ghost before_res = char_views(resources@);
        resources.push(res);
        proof {
            let t = views(namespaces@).take(i + 1);
            assert(t =~= views(namespaces@).take(i as int).push(ns@));
            assert(op_views(ops@) =~= before_ops.push(FsOpView::Write(join_path(dir@, namespace_file(ns@)), namespace_manifest(ns@))));
            assert(namespace_file_steps(dir@, t) =~= namespace_file_steps(dir@, views(namespaces@).take(i as int)).push(
                FsOpView::Write(join_path(dir@, namespace_file(ns@)), namespace_manifest(ns@))));
            assert(char_views(resources@) =~= before_res.push("  - "@ + namespace_file(ns@)));
            assert(namespace_resources(t) =~= namespace_resources(views(namespaces@).take(i as int)).push("  - "@ + namespace_file(ns@)));
        }
        i = i + 1;
    }
    assert(views(namespaces@).take(namespaces@.len() as int) =~= views(namespaces@));
    let sep = vec!['\n'];
    let body = join_chars(&resources, &sep);
    assert(sep@ =~= seq!['\n']);
    let mut kust: Vec<char> = Vec::new();
    append_str(&mut kust, "apiVersion: kustomize.config.k8s.io/v1beta1\nkind: Kustomization\nresources:\n");
    append_chars(&mut kust, &body);
    kust.push('\n');
    let ghost before_ops = op_views(ops@);
    ops.push(FsOp::Write(path_join(dir.as_str(), "kustomization.yaml"), text_to_string(&kust)));
    proof {
        assert(kust@ =~= kustomization_header() + join(namespace_resources(views(namespaces@)), seq!['\n']) + seq!['\n']);
        assert(op_views(ops@) =~= before_ops.push(FsOpView::Write(join_path(dir@, "kustomization.yaml"@), kust@)));
    }
    ops
}

/// The kustomization of the cluster's `repositories` directory.
pub open spec fn repositories_kustomization() -> Seq<char> {
    "apiVersion: kustomize.config.k8s.io/v1beta1\nkind: Kustomization\nresources:\n  - ../../bases/repositories\n"@
}

/// The resources of the cluster's own kustomization: the namespaces first if there are
/// any, then each chosen component (`- <path>`, in the set's order), then the
/// repositories.
pub open spec fn root_resources(rels: Seq<Seq<char>>, has_namespaces: bool) -> Seq<Seq<char>> {
    (if has_namespaces { seq!["- namespaces"@] } else { Seq::empty() })
        + rels.map_values(|r: Seq<char>| "- "@ + r) + seq!["- repositories"@]
}

/// The steps that write the repositories layer and the cluster's own kustomization.
pub open spec fn closing_steps(cluster: Seq<char>, rels: Seq<Seq<char>>, has_namespaces: bool) -> Seq<FsOpView> {
    let repo = join_path(cluster, "repositories"@);
    seq![
        FsOpView::CreateDir(repo),
        FsOpView::Write(join_path(repo, "kustomization.yaml"@), repositories_kustomization()),
        FsOpView::Write(
            join_path(cluster, "kustomization.yaml"@),
            kustomization_header() + join(root_resources(rels, has_namespaces), seq!['\n']) + seq!['\n'],
        ),
    ]
}

/// The steps that write the repositories layer and the cluster's kustomization.
pub fn closing_ops(target_cluster: &str, checked: &PathSet, has_namespaces: bool) -> (r: Vec<FsOp>)
    ensures
        op_views(r@) == closing_steps(target_cluster@, checked.order(), has_namespaces),
{
    let rels = checked.items();
    let mut resources: Vec<Vec<char>> = Vec::new();
    if has_namespaces {
        resources.push(chars_of("- namespaces"));
    }
    let ghost start = char_views(resources@);
    assert(start =~= if has_namespaces { seq!["- namespaces"@] } else { Seq::<Seq<char>>::empty() });
    let mut i: usize = 0;
    while i < rels.len()
        invariant
            i <= rels@.len(),
            char_views(resources@) == start + views(rels@).take(i as int).map_values(|r: Seq<char>| "- "@ + r),
        decreases rels@.len() - i,
    {
        let mut line: Vec<char> = Vec::new();
        append_str(&mut line, "- ");
        append_str(&mut line, rels[i].as_str());
        let ghost before = char_views(resources@);
        resources.push(line);
        proof {
            let f = |r: Seq<char>| "- "@ + r;
            let t = views(rels@).take(i + 1);
            assert(t =~= views(rels@).take(i as int).push(rels@[i as int]@));
            assert(t.map_values(f) =~= views(rels@).take(i as int).map_values(f).push(f(rels@[i as int]@)));
            assert(char_views(resources@) =~= before.push("- "@ + rels@[i as int]@));
        }
        i = i + 1;
    }
    resources.push(chars_of("- repositories"));
    proof {
        assert(views(rels@).take(rels@.len() as int) =~= views(rels@));
        assert(char_views(resources@) =~= root_resources(checked.order(), has_namespaces));
    }
    let sep = vec!['\n'];
    let body = join_chars(&resources, &sep);
    assert(sep@ =~= seq!['\n']);
    let mut root: Vec<char> = Vec::new();
    append_str(&mut root, "apiVersion: kustomize.config.k8s.io/v1beta1\nkind: Kustomization\nresources:\n");
    append_chars(&mut root, &body);
    root.push('\n');
    let repo = path_join(target_cluster, "repositories");
    let mut ops: Vec<FsOp> = Vec::new();
    ops.push(FsOp::CreateDir(repo.clone()));
    ops.push(FsOp::Write(
        path_join(repo.as_str(), "kustomization.yaml"),
        "apiVersion: kustomize.config.k8s.io/v1beta1\nkind: Kustomization\nresources:\n  - ../../bases/repositories\n".to_owned(),
    ));
    ops.push(FsOp::Write(path_join(target_cluster, "kustomization.yaml"), text_to_string(&root)));
    proof {
        assert(root@ =~= kustomization_header() + join(root_resources(checked.order(), has_namespaces), seq!['\n']) + seq!['\n']);
        assert(op_views(ops@) =~= closing_steps(target_cluster@, checked.order(), has_namespaces));
    }
    ops
}

/// Where generation reads and writes.
#[derive(Debug)]
pub struct GenerationPaths {
    /// The GitOps repository (its `~/` expanded).
    pub target_root: String,
    /// The copy of the templates' base directory in it.
    pub target_bases: String,
    /// The cluster's directory in it.
    pub target_cluster: String,
    /// The templates' base directory in the cached template repository.
    pub source_bases: String,
}

/// The paths of a generation into `gitops_dir_path` (with `home` as the home directory, if
/// known) from the template repository cached at `cache_root`.
pub fn generation_paths(cache_root: &str, gitops_dir_path: &str, home: Option<&str>, base_dir_path: &str, new_cluster_name: &str) -> (r: GenerationPaths)
    ensures
        r.target_root@ == expand_home(gitops_dir_path@, match home { Some(h) => Some(h@), None => None }),
        r.target_bases@ == join_path(r.target_root@, base_dir_path@),
        r.target_cluster@ == join_path(r.target_root@, new_cluster_name@),
        r.source_bases@ == join_path(cache_root@, base_dir_path@),
{
    let target_root = expand_home_path(gitops_dir_path, home);
    let target_bases = path_join(target_root.as_str(), base_dir_path);
    let target_cluster = path_join(target_root.as_str(), new_cluster_name);
    let source_bases = path_join(cache_root, base_dir_path);
    GenerationPaths { target_root, target_bases, target_cluster, source_bases }
}

/// Whether copying the base directory takes an entry along: everything but `.git`
/// directories.
pub fn is_copied(name: &str, is_dir: bool) -> (r: bool)
    ensures
        r == !(is_dir && name@ == ".git"@),
{
    !(is_dir && crate::text::str_eq(name, ".git"))
}

/// The step that rewrites a chosen base's kustomization (at `target_bases`/`rel`) without
/// its `- namespace.yaml` resource; an error in it is ignored.
pub fn namespace_rewrite_op(target_bases: &str, rel: &str, kustomization: &str) -> (r: FsOp)
    ensures
        r@ == FsOpView::WriteIgnoringError(
            join_path(join_path(target_bases@, rel@), "kustomization.yaml"@),
            strip_namespace_resource(kustomization@),
        ),
{
    let dir = path_join(target_bases, rel);
    FsOp::WriteIgnoringError(path_join(dir.as_str(), "kustomization.yaml"), without_namespace_resource(kustomization))
}

/// The paths of a generation, with the user's home directory, if there is one, for a
/// leading `~/` of the GitOps directory.
pub fn generation_paths_for_user(cache_root: &str, gitops_dir_path: &str, base_dir_path: &str, new_cluster_name: &str) -> (r: GenerationPaths)
    ensures
        exists|h: Option<Seq<char>>| r.target_root@ == expand_home(gitops_dir_path@, h),
        r.target_bases@ == join_path(r.target_root@, base_dir_path@),
        r.target_cluster@ == join_path(r.target_root@, new_cluster_name@),
        r.source_bases@ == join_path(cache_root@, base_dir_path@),
{
    let home = crate::paths::user_home();
    let r = match &home {
        Some(h) => generation_paths(cache_root, gitops_dir_path, Some(h.as_str()), base_dir_path, new_cluster_name),
        None => generation_paths(cache_root, gitops_dir_path, None, base_dir_path, new_cluster_name),
    };
    assert(r.target_root@ == expand_home(gitops_dir_path@, crate::paths::opt_text_view(home)));
    r
}

} // verus!
