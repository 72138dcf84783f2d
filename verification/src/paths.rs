use vstd::prelude::*;
use crate::text::{char_views, append_chars, chars_of, has_prefix, starts_with, string_from_chars};

verus! {

broadcast use vstd::string::group_string_axioms;

/// `Path::join` on Unix paths: an absolute `p` replaces `base`; otherwise `p` follows
/// `base`, after a `/` unless `base` is empty or already ends with one.
pub open spec fn join_path(base: Seq<char>, p: Seq<char>) -> Seq<char> {
    if p.len() > 0 && p[0] == '/' {
        p
    } else if base.len() == 0 || base.last() == '/' {
        base + p
    } else {
        base + seq!['/'] + p
    }
}

/// Joins two Unix paths as `Path::join` does.
pub fn path_join(base: &str, p: &str) -> (r: String)
    ensures
        r@ == join_path(base@, p@),
{
    let b = chars_of(base);
    let q = chars_of(p);
    let mut out: Vec<char> = Vec::new();
    if q.len() > 0 && q[0] == '/' {
        append_chars(&mut out, &q);
    } else if b.len() == 0 || b[b.len() - 1] == '/' {
        append_chars(&mut out, &b);
        append_chars(&mut out, &q);
    } else {
        append_chars(&mut out, &b);
        out.push('/');
        let ghost mid = out@;
        append_chars(&mut out, &q);
        assert(mid =~= b@ + seq!['/']);
    }
    string_from_chars(out.as_slice())
}

/// A path whose leading `~/` stands for the home directory `home`, if there is one
/// (`home.join(rest)`); any other path as it is.
pub open spec fn expand_home(path: Seq<char>, home: Option<Seq<char>>) -> Seq<char> {
    if starts_with(path, seq!['~', '/']) && home is Some {
        join_path(home.unwrap(), path.skip(2))
    } else {
        path
    }
}

/// Replaces a leading `~/` with the home directory, if one is known.
pub fn expand_home_path(path: &str, home: Option<&str>) -> (r: String)
    ensures
        r@ == expand_home(path@, match home { Some(h) => Some(h@), None => None }),
{
    let p = chars_of(path);
    let tilde = vec!['~', '/'];
    assert(tilde@ =~= seq!['~', '/']);
    if has_prefix(&p, &tilde) {
        match home {
            Some(h) => {
                let mut rest: Vec<char> = Vec::new();
                let mut i: usize = 2;
                while i < p.len()
                    invariant
                        2 <= i <= p@.len(),
                        rest@ == p@.subrange(2, i as int),
                    decreases p@.len() - i,
                {
                    rest.push(p[i]);
                    proof { assert(rest@ =~= p@.subrange(2, i + 1)); }
                    i = i + 1;
                }
                assert(rest@ =~= path@.skip(2));
                let rest_s = string_from_chars(rest.as_slice());
                path_join(h, rest_s.as_str())
            },
            None => path.to_owned(),
        }
    } else {
        path.to_owned()
    }
}

/// The position of the first `c` in `s`.
pub open spec fn char_index(s: Seq<char>, c: char) -> Option<int>
    decreases s.len(),
{
    if s.len() == 0 {
        None
    } else if s[0] == c {
        Some(0)
    } else {
        match char_index(s.drop_first(), c) {
            Some(i) => Some(i + 1),
            None => None,
        }
    }
}

/// A `c` found by `char_index` lies in `s`, and none comes before it.
pub proof fn lemma_char_index(s: Seq<char>, c: char)
    ensures
        match char_index(s, c) {
            Some(i) => 0 <= i < s.len() && s[i] == c && forall|k: int| 0 <= k < i ==> s[k] != c,
            None => forall|k: int| 0 <= k < s.len() ==> s[k] != c,
        },
    decreases s.len(),
{
    if s.len() > 0 && s[0] != c {
        lemma_char_index(s.drop_first(), c);
        assert forall|k: int| 0 < k < s.len() implies s[k] == s.drop_first()[k - 1] by {}
    }
}

/// The pieces of `s` between the occurrences of `c` (`str::split`): one more piece than
/// there are `c`s, empty pieces included.
pub open spec fn split_on(s: Seq<char>, c: char) -> Seq<Seq<char>>
    decreases s.len(),
{
    match char_index(s, c) {
        Some(i) => {
            proof { lemma_char_index(s, c); }
            seq![s.take(i)] + split_on(s.skip(i + 1), c)
        },
        None => seq![s],
    }
}

/// Splits `s` at every `c`.
pub fn split_chars(s: &Vec<char>, c: char) -> (r: Vec<Vec<char>>)
    ensures
        char_views(r@) == split_on(s@, c),
{
    let n = s.len();
    let mut out: Vec<Vec<char>> = Vec::new();
    let mut p: usize = 0;
    assert(s@.skip(0) =~= s@);
    loop
        invariant
            n == s@.len(),
            p <= n,
            char_views(out@) + split_on(s@.skip(p as int), c) == split_on(s@, c),
        decreases n - p,
    {
        let mut q: usize = p;
        let mut piece: Vec<char> = Vec::new();
        while q < n && s[q] != c
            invariant
                n == s@.len(),
                p <= q <= n,
                piece@ == s@.subrange(p as int, q as int),
                forall|k: int| p <= k < q ==> s@[k] != c,
            decreases n - q,
        {
            piece.push(s[q]);
            proof { assert(piece@ =~= s@.subrange(p as int, q + 1)); }
            q = q + 1;
        }
        let ghost rest = s@.skip(p as int);
        let ghost before = out@;
        proof { lemma_char_index(rest, c); }
        if q < n {
            proof {
                assert forall|k: int| 0 <= k < q - p implies rest[k] != c by {
                    assert(rest[k] == s@[p + k]);
                }
                assert(rest[q - p] == c);
                if char_index(rest, c) != Some(q - p) {
                    let i = char_index(rest, c).unwrap();
                    if i < q - p { assert(rest[i] == s@[p + i]); }
                }
                assert(rest.take(q - p) =~= piece@);
                assert(rest.skip(q - p + 1) =~= s@.skip(q + 1));
            }
            out.push(piece);
            proof {
                assert(char_views(out@) =~= char_views(before).push(rest.take(q - p)));
                assert(char_views(out@) + split_on(s@.skip(q + 1), c) =~= char_views(before) + split_on(rest, c));
            }
            p = q + 1;
        } else {
            proof {
                assert forall|k: int| 0 <= k < rest.len() implies rest[k] != c by {
                    assert(rest[k] == s@[p + k]);
                }
                assert(rest =~= piece@);
                if char_index(rest, c) is Some {
                    let i = char_index(rest, c).unwrap();
                    assert(rest[i] == c);
                }
            }
            out.push(piece);
            proof {
                assert(char_views(out@) =~= char_views(before).push(rest));
                assert(char_views(out@) =~= char_views(before) + split_on(rest, c));
            }
            return out;
        }
    }
}

/// The pieces of a path that are components: non-empty, and not a `.` after the first.
pub open spec fn kept_pieces(segs: Seq<Seq<char>>) -> Seq<Seq<char>>
    decreases segs.len(),
{
    if segs.len() == 0 {
        Seq::empty()
    } else {
        let k = segs.len() - 1;
        let s = segs[k];
        kept_pieces(segs.drop_last()) + if s.len() > 0 && !(s == seq!['.'] && k > 0) {
            seq![s]
        } else {
            Seq::empty()
        }
    }
}

/// The number of components of a Unix path (`Path::components().count()`): the root, if
/// the path starts with `/`, and each piece kept by `kept_pieces`.
pub open spec fn component_count(p: Seq<char>) -> nat {
    (if p.len() > 0 && p[0] == '/' { 1nat } else { 0nat }) + kept_pieces(split_on(p, '/')).len()
}

/// The last component of a path if it is a name (`Path::file_name`), else the empty text.
pub open spec fn file_name(p: Seq<char>) -> Seq<char> {
    let kept = kept_pieces(split_on(p, '/'));
    if kept.len() == 0 {
        Seq::empty()
    } else if kept.last() == seq!['.'] || kept.last() == seq!['.', '.'] {
        Seq::empty()
    } else {
        kept.last()
    }
}

/// Whether the piece is `.`.
fn is_dot(s: &Vec<char>) -> (r: bool)
    ensures
        r == (s@ == seq!['.']),
{
    let r = s.len() == 1 && s[0] == '.';
    proof {
        if s@.len() == 1 && s@[0] == '.' {
            assert(s@ =~= seq!['.']);
        }
    }
    r
}

/// Whether the piece is `..`.
fn is_dot_dot(s: &Vec<char>) -> (r: bool)
    ensures
        r == (s@ == seq!['.', '.']),
{
    let r = s.len() == 2 && s[0] == '.' && s[1] == '.';
    proof {
        if s@.len() == 2 && s@[0] == '.' && s@[1] == '.' {
            assert(s@ =~= seq!['.', '.']);
        }
    }
    r
}

/// The components of a path that `kept_pieces` keeps.
fn kept_of(segs: &Vec<Vec<char>>) -> (r: Vec<Vec<char>>)
    ensures
        char_views(r@) == kept_pieces(char_views(segs@)),
{
    let mut out: Vec<Vec<char>> = Vec::new();
    let mut k: usize = 0;
    while k < segs.len()
        invariant
            k <= segs@.len(),
            char_views(out@) == kept_pieces(char_views(segs@).take(k as int)),
        decreases segs@.len() - k,
    {
        let ghost t = char_views(segs@).take(k + 1);
        proof {
            assert(t.drop_last() =~= char_views(segs@).take(k as int));
            assert(t.last() == segs@[k as int]@);
        }
        let ghost before = out@;
        if segs[k].len() > 0 && !(is_dot(&segs[k]) && k > 0) {
            out.push(segs[k].clone());
            assert(char_views(out@) =~= char_views(before).push(segs@[k as int]@));
        } else {
            assert(char_views(out@) =~= char_views(before) + Seq::<Seq<char>>::empty());
        }
        k = k + 1;
    }
    assert(char_views(segs@).take(segs@.len() as int) =~= char_views(segs@));
    out
}

/// `../` repeated `n` times.
pub open spec fn ups(n: nat) -> Seq<char>
    decreases n,
{
    if n == 0 {
        Seq::empty()
    } else {
        ups((n - 1) as nat) + seq!['.', '.', '/']
    }
}

/// `../` once for each component of `p`, and once more.
pub fn up_path(p: &str) -> (r: String)
    ensures
        r@ == ups(component_count(p@) + 1),
{
    let c = chars_of(p);
    let segs = split_chars(&c, '/');
    let kept = kept_of(&segs);
    let mut out: Vec<char> = Vec::new();
    let ghost root: nat = if c@.len() > 0 && c@[0] == '/' { 1nat } else { 0nat };
    if c.len() > 0 && c[0] == '/' {
        out.push('.');
        out.push('.');
        out.push('/');
        assert(ups(0) =~= Seq::<char>::empty());
        assert(out@ =~= ups(1));
    } else {
        assert(out@ =~= ups(0));
    }
    let mut k: usize = 0;
    while k < kept.len()
        invariant
            k <= kept@.len(),
            out@ == ups(root + k as nat),
        decreases kept@.len() - k,
    {
        out.push('.');
        out.push('.');
        out.push('/');
        proof {
            assert(out@ =~= ups(root + k as nat + 1));
        }
        k = k + 1;
    }
    out.push('.');
    out.push('.');
    out.push('/');
    proof {
        assert(char_views(kept@).len() == kept@.len());
        assert(out@ =~= ups(root + kept@.len() + 1));
    }
    string_from_chars(out.as_slice())
}

/// `Path::new(p).file_name()`, or the empty text where it has none.
pub fn path_file_name(p: &str) -> (r: String)
    ensures
        r@ == file_name(p@),
{
    let c = chars_of(p);
    let segs = split_chars(&c, '/');
    let kept = kept_of(&segs);
    if kept.len() == 0 {
        return String::new();
    }
    let last = &kept[kept.len() - 1];
    proof {
        assert(char_views(kept@).last() == last@);
    }
    if is_dot(last) || is_dot_dot(last) {
        String::new()
    } else {
        string_from_chars(last.as_slice())
    }
}

/// The view of an optional text.
pub open spec fn opt_text_view(o: Option<String>) -> Option<Seq<char>> {
    match o {
        Some(s) => Some(s@),
        None => None,
    }
}

/// The user's home directory (`directories::UserDirs::new()`, then `home_dir()`), where
/// the platform and the environment give one. Which directory, and whether there is one,
/// depends on the environment; nothing is claimed of it.
#[verifier::external_body]
pub(crate) fn user_home() -> Option<String> {
    match directories::UserDirs::new() {
        Some(d) => Some(d.home_dir().to_string_lossy().into_owned()),
        None => None,
    }
}

/// `path` with a leading `~/` standing for the user's home directory, if there is one.
/// A path without `~/` stays as it is.
pub fn expand_user_path(path: &str) -> (r: String)
    ensures
        exists|h: Option<Seq<char>>| r@ == expand_home(path@, h),
        !starts_with(path@, seq!['~', '/']) ==> r@ == path@,
{
    let home = user_home();
    let r = match &home {
        Some(h) => expand_home_path(path, Some(h.as_str())),
        None => expand_home_path(path, None),
    };
    assert(r@ == expand_home(path@, opt_text_view(home)));
    r
}

} // verus!
