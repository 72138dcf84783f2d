use vstd::prelude::*;

verus! {

broadcast use vstd::string::group_string_axioms;

/// The characters of a string slice, in order.
pub fn chars_of(s: &str) -> (r: Vec<char>)
    ensures
        r@ == s@,
{
    let mut out: Vec<char> = Vec::new();
    for c in it: s.chars()
        invariant
            out@ == it.seq().take(it.index() as int),
    {
        out.push(c);
    }
    out
}

/// Whether two string slices hold the same text.
pub fn str_eq(a: &str, b: &str) -> (r: bool)
    ensures
        r == (a@ == b@),
{
    a.to_owned() == b.to_owned()
}

/// Lexicographic order on texts, character by character. It is the order of `str`'s
/// `Ord` (the byte order of UTF-8, which orders characters as their code points).
pub open spec fn lex_lt(a: Seq<char>, b: Seq<char>) -> bool
    decreases a.len(),
{
    if a.len() == 0 {
        b.len() > 0
    } else if b.len() == 0 {
        false
    } else if a[0] != b[0] {
        a[0] < b[0]
    } else {
        lex_lt(a.drop_first(), b.drop_first())
    }
}

/// No text comes before itself.
pub proof fn lemma_lex_irreflexive(a: Seq<char>)
    ensures
        !lex_lt(a, a),
    decreases a.len(),
{
    if a.len() > 0 {
        lemma_lex_irreflexive(a.drop_first());
    }
}

/// Two different texts are ordered one way or the other.
pub proof fn lemma_lex_total(a: Seq<char>, b: Seq<char>)
    requires
        a != b,
    ensures
        lex_lt(a, b) || lex_lt(b, a),
    decreases a.len(),
{
    if a.len() > 0 && b.len() > 0 && a[0] == b[0] {
        if a.drop_first() == b.drop_first() {
            assert(a =~= seq![a[0]] + a.drop_first());
            assert(b =~= seq![b[0]] + b.drop_first());
        }
        lemma_lex_total(a.drop_first(), b.drop_first());
    } else if a.len() == 0 && b.len() == 0 {
        assert(a =~= b);
    } else if a.len() > 0 && b.len() > 0 {
    }
}

/// The order is transitive.
pub proof fn lemma_lex_transitive(a: Seq<char>, b: Seq<char>, c: Seq<char>)
    requires
        lex_lt(a, b),
        lex_lt(b, c),
    ensures
        lex_lt(a, c),
    decreases a.len(),
{
    if a.len() > 0 && b.len() > 0 && c.len() > 0 && a[0] == b[0] && b[0] == c[0] {
        lemma_lex_transitive(a.drop_first(), b.drop_first(), c.drop_first());
    }
}

/// The order is asymmetric.
pub proof fn lemma_lex_asymmetric(a: Seq<char>, b: Seq<char>)
    requires
        lex_lt(a, b),
    ensures
        !lex_lt(b, a),
{
    if lex_lt(b, a) {
        lemma_lex_transitive(a, b, a);
        lemma_lex_irreflexive(a);
    }
}

/// Whether `a` comes before `b` in the order of `lex_lt`.
pub fn str_lt(a: &str, b: &str) -> (r: bool)
    ensures
        r == lex_lt(a@, b@),
{
    let x = chars_of(a);
    let y = chars_of(b);
    let mut i: usize = 0;
    assert(x@.skip(0) =~= x@);
    assert(y@.skip(0) =~= y@);
    while i < x.len() && i < y.len() && x[i] == y[i]
        invariant
            i <= x@.len(),
            i <= y@.len(),
            x@.take(i as int) == y@.take(i as int),
            lex_lt(a@, b@) == lex_lt(x@.skip(i as int), y@.skip(i as int)),
        decreases x@.len() - i,
    {
        proof {
            assert(x@.skip(i as int).drop_first() =~= x@.skip(i + 1));
            assert(y@.skip(i as int).drop_first() =~= y@.skip(i + 1));
            assert(x@.take(i + 1) =~= x@.take(i as int).push(x@[i as int]));
            assert(y@.take(i + 1) =~= y@.take(i as int).push(y@[i as int]));
        }
        i = i + 1;
    }
    if i == x.len() {
        i < y.len()
    } else if i == y.len() {
        false
    } else {
        x[i] < y[i]
    }
}

/// Builds a string from its characters (`String: FromIterator<&char>`).
#[verifier::external_body]
pub(crate) fn string_from_chars(v: &[char]) -> (r: String)
    ensures
        r@ == v@,
{
    v.iter().collect()
}

/// Characters with Unicode's White_Space property (those for which `char::is_whitespace`
/// holds).
pub open spec fn is_ws(c: char) -> bool {
    ('\u{9}' <= c && c <= '\u{d}') || c == ' ' || c == '\u{85}' || c == '\u{a0}' || c == '\u{1680}'
        || ('\u{2000}' <= c && c <= '\u{200a}') || c == '\u{2028}' || c == '\u{2029}' || c == '\u{202f}'
        || c == '\u{205f}' || c == '\u{3000}'
}

/// Whether `c` is white space (`char::is_whitespace`).
pub fn is_whitespace(c: char) -> (r: bool)
    ensures
        r == is_ws(c),
{
    ('\u{9}' <= c && c <= '\u{d}') || c == ' ' || c == '\u{85}' || c == '\u{a0}' || c == '\u{1680}'
        || ('\u{2000}' <= c && c <= '\u{200a}') || c == '\u{2028}' || c == '\u{2029}' || c == '\u{202f}'
        || c == '\u{205f}' || c == '\u{3000}'
}

/// The text without its leading white space.
pub open spec fn trim_start(s: Seq<char>) -> Seq<char>
    decreases s.len(),
{
    if s.len() > 0 && is_ws(s[0]) {
        trim_start(s.drop_first())
    } else {
        s
    }
}

/// The text without its trailing white space.
pub open spec fn trim_end(s: Seq<char>) -> Seq<char>
    decreases s.len(),
{
    if s.len() > 0 && is_ws(s.last()) {
        trim_end(s.drop_last())
    } else {
        s
    }
}

/// The text without white space at either end (`str::trim`).
pub open spec fn trim(s: Seq<char>) -> Seq<char> {
    trim_end(trim_start(s))
}

/// `str::trim` on a character sequence.
pub fn trim_chars(s: &Vec<char>) -> (r: Vec<char>)
    ensures
        r@ == trim(s@),
{
    let mut a: usize = 0;
    assert(s@.skip(0) =~= s@);
    while a < s.len() && is_whitespace(s[a])
        invariant
            a <= s@.len(),
            trim_start(s@) == trim_start(s@.skip(a as int)),
        decreases s@.len() - a,
    {
        proof {
            assert(s@.skip(a as int).drop_first() =~= s@.skip(a + 1));
        }
        a = a + 1;
    }
    proof {
        assert(trim_start(s@.skip(a as int)) == s@.skip(a as int));
    }
    let mut b: usize = s.len();
    while b > a && is_whitespace(s[b - 1])
        invariant
            a <= b <= s@.len(),
            trim(s@) == trim_end(s@.subrange(a as int, b as int)),
        decreases b,
    {
        proof {
            assert(s@.subrange(a as int, b as int).drop_last() =~= s@.subrange(a as int, b - 1));
        }
        b = b - 1;
    }
    let mut out: Vec<char> = Vec::new();
    let mut k: usize = a;
    while k < b
        invariant
            a <= k <= b <= s@.len(),
            out@ == s@.subrange(a as int, k as int),
        decreases b - k,
    {
        out.push(s[k]);
        proof {
            assert(out@ =~= s@.subrange(a as int, k + 1));
        }
        k = k + 1;
    }
    out
}

/// `p` is a prefix of `s`.
pub open spec fn starts_with(s: Seq<char>, p: Seq<char>) -> bool {
    p.len() <= s.len() && s.take(p.len() as int) == p
}

/// Whether `p` is a prefix of `s`.
pub fn has_prefix(s: &Vec<char>, p: &Vec<char>) -> (r: bool)
    ensures
        r == starts_with(s@, p@),
{
    if p.len() > s.len() {
        return false;
    }
    let mut i: usize = 0;
    while i < p.len()
        invariant
            p@.len() <= s@.len(),
            i <= p@.len(),
            forall|k: int| 0 <= k < i ==> s@[k] == p@[k],
        decreases p@.len() - i,
    {
        if s[i] != p[i] {
            proof {
                assert(s@.take(p@.len() as int)[i as int] != p@[i as int]);
            }
            return false;
        }
        i = i + 1;
    }
    assert(s@.take(p@.len() as int) =~= p@);
    true
}

/// `p` occurs in `s`.
pub open spec fn contains_sub(s: Seq<char>, p: Seq<char>) -> bool {
    exists|i: int| 0 <= i <= s.len() - p.len() && #[trigger] s.subrange(i, i + p.len()) == p
}

/// Whether `p` occurs in `s`.
pub fn has_substring(s: &Vec<char>, p: &Vec<char>) -> (r: bool)
    ensures
        r == contains_sub(s@, p@),
{
    let n = s.len();
    if p.len() > n {
        return false;
    }
    let mut i: usize = 0;
    while i <= n - p.len()
        invariant
            n == s@.len(),
            p@.len() <= s@.len(),
            i <= s@.len() - p@.len() + 1,
            forall|k: int| 0 <= k < i ==> #[trigger] s@.subrange(k, k + p@.len()) != p@,
        decreases s@.len() - p@.len() + 1 - i,
    {
        let mut j: usize = 0;
        let mut same = true;
        while j < p.len()
            invariant
                n == s@.len(),
                p@.len() <= s@.len(),
                i <= s@.len() - p@.len(),
                j <= p@.len(),
                same == forall|k: int| 0 <= k < j ==> s@[i + k] == p@[k],
            decreases p@.len() - j,
        {
            let idx: usize = i + j;
            if s[idx] != p[j] {
                same = false;
            }
            j = j + 1;
        }
        if same {
            assert(s@.subrange(i as int, i + p@.len()) =~= p@);
            return true;
        }
        proof {
            let ghost k = choose|k: int| 0 <= k < p@.len() && s@[i + k] != p@[k];
            assert(s@.subrange(i as int, i + p@.len())[k] != p@[k]);
        }
        i = i + 1;
    }
    false
}

/// No line feed occurs in `s`.
pub open spec fn nl_free(s: Seq<char>) -> bool {
    forall|k: int| 0 <= k < s.len() ==> s[k] != '\n'
}

/// The pieces of `s` between its line feeds: one more piece than line feeds, empty pieces
/// kept (`str::split('\n')`).
pub open spec fn split_nl(s: Seq<char>) -> Seq<Seq<char>>
    decreases s.len(),
{
    match nl_index(s) {
        Some(i) => {
            proof { lemma_nl_index(s); }
            seq![s.take(i)] + split_nl(s.skip(i + 1))
        },
        None => seq![s],
    }
}

/// The lines of a text hold no line feed.
pub proof fn lemma_lines_nl_free(s: Seq<char>)
    ensures
        forall|i: int| 0 <= i < spec_lines(s).len() ==> nl_free(#[trigger] spec_lines(s)[i]),
    decreases s.len(),
{
    if s.len() > 0 {
        lemma_nl_index(s);
        match nl_index(s) {
            Some(i) => {
                let rest = s.skip(i + 1);
                lemma_lines_nl_free(rest);
                let first = strip_cr(s.take(i));
                assert(nl_free(first)) by {
                    assert forall|k: int| 0 <= k < first.len() implies first[k] != '\n' by {
                        assert(first[k] == s[k]);
                    }
                }
                assert forall|j: int| 0 <= j < spec_lines(s).len() implies nl_free(#[trigger] spec_lines(s)[j]) by {
                    if j > 0 {
                        assert(spec_lines(s)[j] == spec_lines(rest)[j - 1]);
                    }
                }
            },
            None => {},
        }
    }
}

/// Splitting at the line feeds, after a line feed and a piece without one, gives the
/// pieces before and then that piece.
proof fn lemma_split_append(a: Seq<char>, b: Seq<char>)
    requires
        nl_free(b),
    ensures
        split_nl(a + seq!['\n'] + b) == split_nl(a).push(b),
    decreases a.len(),
{
    let s = a + seq!['\n'] + b;
    lemma_nl_index(a);
    lemma_nl_index(b);
    match nl_index(a) {
        Some(i) => {
            assert forall|k: int| 0 <= k < i implies s[k] != '\n' by {
                assert(s[k] == a[k]);
            }
            lemma_nl_index_at(s, i);
            assert(s.take(i) =~= a.take(i));
            assert(s.skip(i + 1) =~= a.skip(i + 1) + seq!['\n'] + b);
            lemma_split_append(a.skip(i + 1), b);
            assert(split_nl(s) =~= split_nl(a).push(b));
        },
        None => {
            assert forall|k: int| 0 <= k < a.len() implies s[k] != '\n' by {
                assert(s[k] == a[k]);
            }
            lemma_nl_index_at(s, a.len() as int);
            assert(s.take(a.len() as int) =~= a);
            assert(s.skip(a.len() as int + 1) =~= b);
            if nl_index(b) is Some {
                let j = nl_index(b)->0;
                assert(b[j] == '\n');
            }
            assert(split_nl(b) == seq![b]);
            assert(split_nl(a) == seq![a]);
            assert(split_nl(s) == seq![a] + split_nl(b));
            assert(split_nl(s) =~= split_nl(a).push(b));
        },
    }
}

/// Splitting pieces without line feeds, joined by line feeds, at the line feeds gives the
/// pieces back.
pub proof fn lemma_split_join(parts: Seq<Seq<char>>)
    requires
        parts.len() > 0,
        forall|i: int| 0 <= i < parts.len() ==> nl_free(#[trigger] parts[i]),
    ensures
        split_nl(join(parts, seq!['\n'])) == parts,
    decreases parts.len(),
{
    if parts.len() == 1 {
        lemma_nl_index(parts[0]);
        assert(split_nl(parts[0]) =~= parts);
    } else {
        let front = parts.drop_last();
        assert forall|i: int| 0 <= i < front.len() implies nl_free(#[trigger] front[i]) by {
            assert(front[i] == parts[i]);
        }
        lemma_split_join(front);
        assert(nl_free(parts[parts.len() - 1]));
        lemma_split_append(join(front, seq!['\n']), parts.last());
        assert(front.push(parts.last()) =~= parts);
    }
}

/// The position of the first line feed in `s`.
pub open spec fn nl_index(s: Seq<char>) -> Option<int>
    decreases s.len(),
{
    if s.len() == 0 {
        None
    } else if s[0] == '\n' {
        Some(0)
    } else {
        match nl_index(s.drop_first()) {
            Some(i) => Some(i + 1),
            None => None,
        }
    }
}

/// A line feed found by `nl_index` lies in `s`, and none comes before it.
pub proof fn lemma_nl_index(s: Seq<char>)
    ensures
        match nl_index(s) {
            Some(i) => 0 <= i < s.len() && s[i] == '\n' && forall|k: int| 0 <= k < i ==> s[k] != '\n',
            None => forall|k: int| 0 <= k < s.len() ==> s[k] != '\n',
        },
    decreases s.len(),
{
    if s.len() > 0 && s[0] != '\n' {
        lemma_nl_index(s.drop_first());
        match nl_index(s.drop_first()) {
            Some(i) => {
                assert forall|k: int| 0 <= k < i + 1 implies s[k] != '\n' by {
                    if k > 0 {
                        assert(s[k] == s.drop_first()[k - 1]);
                    }
                }
            },
            None => {
                assert forall|k: int| 0 <= k < s.len() implies s[k] != '\n' by {
                    if k > 0 {
                        assert(s[k] == s.drop_first()[k - 1]);
                    }
                }
            },
        }
    }
}

/// The first line feed is at `i` when `s[i]` is one and none comes before.
pub proof fn lemma_nl_index_at(s: Seq<char>, i: int)
    requires
        0 <= i < s.len(),
        s[i] == '\n',
        forall|k: int| 0 <= k < i ==> s[k] != '\n',
    ensures
        nl_index(s) == Some(i),
{
    lemma_nl_index(s);
}

/// The line without a carriage return that ended it.
pub open spec fn strip_cr(s: Seq<char>) -> Seq<char> {
    if s.len() > 0 && s.last() == '\r' {
        s.drop_last()
    } else {
        s
    }
}

/// The lines of a text (`str::lines`): split at each line feed, a carriage return before a
/// line feed dropped, and no empty line after a final line feed.
pub open spec fn spec_lines(s: Seq<char>) -> Seq<Seq<char>>
    decreases s.len(),
{
    if s.len() == 0 {
        Seq::empty()
    } else {
        match nl_index(s) {
            Some(i) => {
                proof { lemma_nl_index(s); }
                seq![strip_cr(s.take(i))] + spec_lines(s.skip(i + 1))
            },
            None => seq![s],
        }
    }
}

/// The views of a sequence of character vectors.
pub open spec fn char_views(v: Seq<Vec<char>>) -> Seq<Seq<char>> {
    v.map_values(|x: Vec<char>| x@)
}

/// `str::lines` on a character sequence.
pub fn split_lines(s: &Vec<char>) -> (r: Vec<Vec<char>>)
    ensures
        char_views(r@) == spec_lines(s@),
{
    let n = s.len();
    let mut out: Vec<Vec<char>> = Vec::new();
    let mut p: usize = 0;
    assert(s@.skip(0) =~= s@);
    while p < n
        invariant
            n == s@.len(),
            p <= n,
            char_views(out@) + spec_lines(s@.skip(p as int)) == spec_lines(s@),
        decreases n - p,
    {
        let mut q: usize = p;
        let mut line: Vec<char> = Vec::new();
        while q < n && s[q] != '\n'
            invariant
                n == s@.len(),
                p <= q <= n,
                line@ == s@.subrange(p as int, q as int),
                forall|k: int| p <= k < q ==> s@[k] != '\n',
            decreases n - q,
        {
            line.push(s[q]);
            proof {
                assert(line@ =~= s@.subrange(p as int, q + 1));
            }
            q = q + 1;
        }
        let ghost rest = s@.skip(p as int);
        if q < n {
            proof {
                assert forall|k: int| 0 <= k < q - p implies rest[k] != '\n' by {
                    assert(rest[k] == s@[p + k]);
                }
                lemma_nl_index_at(rest, q - p);
                assert(rest.take(q - p) =~= line@);
                assert(rest.skip(q - p + 1) =~= s@.skip(q + 1));
            }
            let l = line.len();
            if l > 0 && line[l - 1] == '\r' {
                line.pop();
            }
            let ghost before = out@;
            out.push(line);
            proof {
                assert(char_views(out@) =~= char_views(before).push(strip_cr(rest.take(q - p))));
                assert(spec_lines(rest) == seq![strip_cr(rest.take(q - p))] + spec_lines(s@.skip(q + 1)));
                assert(char_views(out@) + spec_lines(s@.skip(q + 1)) =~= char_views(before) + spec_lines(rest));
            }
            p = q + 1;
        } else {
            proof {
                lemma_nl_index(rest);
                assert forall|k: int| 0 <= k < rest.len() implies rest[k] != '\n' by {
                    assert(rest[k] == s@[p + k]);
                }
                assert(rest =~= line@);
                assert(rest.len() > 0);
                if nl_index(rest) is Some {
                    let i = nl_index(rest).unwrap();
                    assert(rest[i] == '\n');
                }
            }
            let ghost before = out@;
            out.push(line);
            proof {
                assert(char_views(out@) =~= char_views(before).push(rest));
                assert(s@.skip(n as int) =~= Seq::<char>::empty());
                assert(char_views(out@) + spec_lines(s@.skip(n as int)) =~= char_views(before) + spec_lines(rest));
            }
            p = n;
        }
    }
    proof {
        assert(s@.skip(n as int) =~= Seq::<char>::empty());
        assert(char_views(out@) + Seq::<Seq<char>>::empty() =~= char_views(out@));
    }
    out
}

/// The texts of `parts` with `sep` between each two of them (`join`).
pub open spec fn join(parts: Seq<Seq<char>>, sep: Seq<char>) -> Seq<char>
    decreases parts.len(),
{
    if parts.len() == 0 {
        Seq::empty()
    } else if parts.len() == 1 {
        parts[0]
    } else {
        join(parts.drop_last(), sep) + sep + parts.last()
    }
}

/// Joins character sequences with `sep` between them.
pub fn join_chars(parts: &Vec<Vec<char>>, sep: &Vec<char>) -> (r: Vec<char>)
    ensures
        r@ == join(char_views(parts@), sep@),
{
    let mut out: Vec<char> = Vec::new();
    let mut i: usize = 0;
    while i < parts.len()
        invariant
            i <= parts@.len(),
            out@ == join(char_views(parts@).take(i as int), sep@),
        decreases parts@.len() - i,
    {
        let ghost before = out@;
        if i > 0 {
            append_chars(&mut out, sep);
        }
        append_chars(&mut out, &parts[i]);
        proof {
            let t = char_views(parts@).take(i + 1);
            assert(t.drop_last() =~= char_views(parts@).take(i as int));
            assert(t.last() == parts@[i as int]@);
            if i == 0 {
                assert(before =~= Seq::<char>::empty());
                assert(out@ =~= parts@[0]@);
            }
        }
        i = i + 1;
    }
    assert(char_views(parts@).take(parts@.len() as int) =~= char_views(parts@));
    out
}

/// Appends the characters of `b` to `a`.
pub fn append_chars(a: &mut Vec<char>, b: &Vec<char>)
    ensures
        final(a)@ == old(a)@ + b@,
{
    let mut i: usize = 0;
    while i < b.len()
        invariant
            i <= b@.len(),
            a@ == old(a)@ + b@.take(i as int),
        decreases b@.len() - i,
    {
        a.push(b[i]);
        proof {
            assert(b@.take(i + 1) =~= b@.take(i as int).push(b@[i as int]));
        }
        i = i + 1;
    }
    assert(b@.take(b@.len() as int) =~= b@);
}

/// Appends the characters of `b` to `a`.
pub fn append_str(a: &mut Vec<char>, b: &str)
    ensures
        final(a)@ == old(a)@ + b@,
{
    let c = chars_of(b);
    append_chars(a, &c);
}

} // verus!
