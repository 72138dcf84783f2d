use vstd::prelude::*;
use crate::text::chars_of;

verus! {

broadcast use vstd::string::group_string_axioms;

/// A YAML number as serde_yaml holds it: a non-negative integer, a negative integer, or a
/// float (given by the bits of its IEEE 754 binary64 form).
#[derive(Debug, Clone, Copy, PartialEq, Eq, Structural)]
pub enum YamlNumber {
    PosInt(u64),
    NegInt(i64),
    Float(u64),
}

/// A YAML document's value, with the shape of `serde_yaml::Value`.
#[derive(Debug)]
pub enum YamlValue {
    Null,
    Bool(bool),
    Number(YamlNumber),
    String(String),
    Sequence(Vec<YamlValue>),
    Mapping(Vec<YamlEntry>),
    Tagged(String, Box<YamlValue>),
}

/// One key and its value in a YAML mapping.
#[derive(Debug)]
pub struct YamlEntry {
    pub key: YamlValue,
    pub value: YamlValue,
}

/// The float with these bits is a NaN.
pub open spec fn float_is_nan(bits: u64) -> bool {
    (bits >> 52u64) & 0x7ffu64 == 0x7ffu64 && bits & 0xf_ffff_ffff_ffffu64 != 0
}

/// The float with these bits is zero (of either sign).
pub open spec fn float_is_zero(bits: u64) -> bool {
    bits & 0x7fff_ffff_ffff_ffffu64 == 0
}

/// serde_yaml's equality of numbers: integers by value, floats by IEEE equality, except
/// that all NaNs are equal (YAML has a single NaN).
pub open spec fn number_eq(a: YamlNumber, b: YamlNumber) -> bool {
    match (a, b) {
        (YamlNumber::PosInt(x), YamlNumber::PosInt(y)) => x == y,
        (YamlNumber::NegInt(x), YamlNumber::NegInt(y)) => x == y,
        (YamlNumber::Float(x), YamlNumber::Float(y)) => if float_is_nan(x) && float_is_nan(y) {
            true
        } else {
            !float_is_nan(x) && !float_is_nan(y) && (x == y || (float_is_zero(x) && float_is_zero(y)))
        },
        _ => false,
    }
}

/// The mathematical form of a YAML value: texts as character sequences, sequences and
/// mappings as `Seq`s (a mapping as its entries in order).
pub enum YamlView {
    Null,
    Bool(bool),
    Number(YamlNumber),
    String(Seq<char>),
    Sequence(Seq<YamlView>),
    Mapping(Seq<(YamlView, YamlView)>),
    Tagged(Seq<char>, Box<YamlView>),
}

/// The view of a value.
pub open spec fn yv(v: YamlValue) -> YamlView
    decreases v,
{
    match v {
        YamlValue::Null => YamlView::Null,
        YamlValue::Bool(b) => YamlView::Bool(b),
        YamlValue::Number(n) => YamlView::Number(n),
        YamlValue::String(s) => YamlView::String(s@),
        YamlValue::Sequence(xs) => YamlView::Sequence(yvs(xs@)),
        YamlValue::Mapping(es) => YamlView::Mapping(yes(es@)),
        YamlValue::Tagged(t, x) => YamlView::Tagged(t@, Box::new(yv(*x))),
    }
}

/// The views of a sequence of values.
pub open spec fn yvs(s: Seq<YamlValue>) -> Seq<YamlView>
    decreases s,
{
    if s.len() == 0 {
        Seq::empty()
    } else {
        yvs(s.drop_last()).push(yv(s.last()))
    }
}

/// The views of a mapping's entries.
pub open spec fn yes(s: Seq<YamlEntry>) -> Seq<(YamlView, YamlView)>
    decreases s,
{
    if s.len() == 0 {
        Seq::empty()
    } else {
        yes(s.drop_last()).push((yv(s.last().key), yv(s.last().value)))
    }
}

impl View for YamlValue {
    type V = YamlView;

    open spec fn view(&self) -> YamlView {
        yv(*self)
    }
}

/// A tag without its leading `!`, if it has one.
pub open spec fn nobang(t: Seq<char>) -> Seq<char> {
    if t.len() > 0 && t[0] == '!' {
        t.drop_first()
    } else {
        t
    }
}

/// serde_yaml's equality of values: equal scalars; sequences equal element by element;
/// mappings of equal size in which each entry of `a` has an entry of `b` with an equal key
/// and an equal value (the order of entries does not count); tags compared without `!`.
pub open spec fn yaml_eq(a: YamlView, b: YamlView) -> bool
    decreases a,
{
    match (a, b) {
        (YamlView::Null, YamlView::Null) => true,
        (YamlView::Bool(x), YamlView::Bool(y)) => x == y,
        (YamlView::Number(x), YamlView::Number(y)) => number_eq(x, y),
        (YamlView::String(x), YamlView::String(y)) => x == y,
        (YamlView::Sequence(xs), YamlView::Sequence(ys)) => {
            &&& xs.len() == ys.len()
            &&& forall|i: int| 0 <= i < xs.len() ==> yaml_eq(#[trigger] xs[i], ys[i])
        },
        (YamlView::Mapping(xs), YamlView::Mapping(ys)) => {
            &&& xs.len() == ys.len()
            &&& forall|i: int|
                #![trigger xs[i]]
                0 <= i < xs.len() ==> entry_key(xs[i]) == xs[i].0 && exists|j: int|
                    #![trigger ys[j]]
                    0 <= j < ys.len() && yaml_eq(xs[i].0, ys[j].0) && yaml_eq(xs[i].1, ys[j].1)
        },
        (YamlView::Tagged(t, x), YamlView::Tagged(u, y)) => nobang(t) == nobang(u) && yaml_eq(*x, *y),
        _ => false,
    }
}

/// The key of a mapping entry.
pub open spec fn entry_key(e: (YamlView, YamlView)) -> YamlView {
    e.0
}

/// Some entry of `ys` has a key equal to `e`'s key and a value equal to `e`'s value.
pub open spec fn has_eq_entry(ys: Seq<(YamlView, YamlView)>, k: YamlView, v: YamlView) -> bool {
    exists|j: int| #![trigger ys[j]] 0 <= j < ys.len() && yaml_eq(k, ys[j].0) && yaml_eq(v, ys[j].1)
}

/// The views of a sequence are the views of its elements.
pub proof fn lemma_yvs(s: Seq<YamlValue>)
    ensures
        yvs(s).len() == s.len(),
        forall|i: int| 0 <= i < s.len() ==> #[trigger] yvs(s)[i] == yv(s[i]),
    decreases s.len(),
{
    if s.len() > 0 {
        lemma_yvs(s.drop_last());
    }
}

/// The views of entries are the views of their keys and values.
pub proof fn lemma_yes(s: Seq<YamlEntry>)
    ensures
        yes(s).len() == s.len(),
        forall|i: int| 0 <= i < s.len() ==> #[trigger] yes(s)[i] == (yv(s[i].key), yv(s[i].value)),
    decreases s.len(),
{
    if s.len() > 0 {
        lemma_yes(s.drop_last());
    }
}

/// Whether a float with these bits is a NaN.
fn is_nan_bits(bits: u64) -> (r: bool)
    ensures
        r == float_is_nan(bits),
{
    (bits >> 52u64) & 0x7ffu64 == 0x7ffu64 && bits & 0xf_ffff_ffff_ffffu64 != 0
}

/// serde_yaml's equality of numbers.
pub fn numbers_equal(a: YamlNumber, b: YamlNumber) -> (r: bool)
    ensures
        r == number_eq(a, b),
{
    match (a, b) {
        (YamlNumber::PosInt(x), YamlNumber::PosInt(y)) => x == y,
        (YamlNumber::NegInt(x), YamlNumber::NegInt(y)) => x == y,
        (YamlNumber::Float(x), YamlNumber::Float(y)) => {
            let nx = is_nan_bits(x);
            let ny = is_nan_bits(y);
            if nx && ny {
                true
            } else {
                !nx && !ny && (x == y || (x & 0x7fff_ffff_ffff_ffffu64 == 0 && y & 0x7fff_ffff_ffff_ffffu64 == 0))
            }
        },
        _ => false,
    }
}

/// Whether two tags are equal once their leading `!` is dropped.
fn tags_equal(t: &str, u: &str) -> (r: bool)
    ensures
        r == (nobang(t@) == nobang(u@)),
{
    let x = chars_of(t);
    let y = chars_of(u);
    let i: usize = if x.len() > 0 && x[0] == '!' { 1 } else { 0 };
    let j: usize = if y.len() > 0 && y[0] == '!' { 1 } else { 0 };
    if x.len() - i != y.len() - j {
        proof {
            assert(nobang(t@).len() != nobang(u@).len());
        }
        return false;
    }
    let mut k: usize = 0;
    while k < x.len() - i
        invariant
            i <= 1,
            j <= 1,
            i <= x@.len(),
            j <= y@.len(),
            x@.len() - i == y@.len() - j,
            x@ == t@,
            y@ == u@,
            nobang(t@) == x@.skip(i as int),
            nobang(u@) == y@.skip(j as int),
            k <= x@.len() - i,
            forall|m: int| 0 <= m < k ==> #[trigger] nobang(t@)[m] == nobang(u@)[m],
        decreases x@.len() - i - k,
    {
        if x[i + k] != y[j + k] {
            proof {
                assert(nobang(t@)[k as int] != nobang(u@)[k as int]);
            }
            return false;
        }
        k = k + 1;
    }
    proof {
        assert(nobang(t@) =~= nobang(u@));
    }
    true
}

/// serde_yaml's equality of values (`==` on `serde_yaml::Value`).
pub fn values_equal(a: &YamlValue, b: &YamlValue) -> (r: bool)
    ensures
        r == yaml_eq(a@, b@),
    decreases a,
{
    match a {
        YamlValue::Null => matches!(b, YamlValue::Null),
        YamlValue::Bool(x) => match b {
            YamlValue::Bool(y) => *x == *y,
            _ => false,
        },
        YamlValue::Number(x) => match b {
            YamlValue::Number(y) => numbers_equal(*x, *y),
            _ => false,
        },
        YamlValue::String(x) => match b {
            YamlValue::String(y) => *x == *y,
            _ => false,
        },
        YamlValue::Sequence(xs) => match b {
            YamlValue::Sequence(ys) => sequences_equal(xs, ys),
            _ => false,
        },
        YamlValue::Mapping(xs) => match b {
            YamlValue::Mapping(ys) => mappings_equal(xs, ys),
            _ => false,
        },
        YamlValue::Tagged(t, x) => match b {
            YamlValue::Tagged(u, y) => tags_equal(t.as_str(), u.as_str()) && values_equal(&**x, &**y),
            _ => false,
        },
    }
}

/// serde_yaml's equality of two sequences' elements.
fn sequences_equal(xs: &Vec<YamlValue>, ys: &Vec<YamlValue>) -> (r: bool)
    ensures
        r == yaml_eq(YamlView::Sequence(yvs(xs@)), YamlView::Sequence(yvs(ys@))),
    decreases xs@,
{
    proof {
        lemma_yvs(xs@);
        lemma_yvs(ys@);
    }
    if xs.len() != ys.len() {
        return false;
    }
    let mut i: usize = 0;
    while i < xs.len()
        invariant
            xs@.len() == ys@.len(),
            i <= xs@.len(),
            yvs(xs@).len() == xs@.len(),
            yvs(ys@).len() == ys@.len(),
            forall|m: int| 0 <= m < xs@.len() ==> #[trigger] yvs(xs@)[m] == yv(xs@[m]),
            forall|m: int| 0 <= m < ys@.len() ==> #[trigger] yvs(ys@)[m] == yv(ys@[m]),
            forall|m: int| 0 <= m < i ==> yaml_eq(#[trigger] yvs(xs@)[m], yvs(ys@)[m]),
        decreases xs@.len() - i,
    {
        assert(decreases_to!(xs@ => xs@[i as int]));
        if !values_equal(&xs[i], &ys[i]) {
            proof {
                assert(yvs(xs@)[i as int] == yv(xs@[i as int]));
                assert(yvs(ys@)[i as int] == yv(ys@[i as int]));
            }
            return false;
        }
        i = i + 1;
    }
    true
}

/// Whether some entry of `ys` has a key equal to `e`'s and a value equal to `e`'s.
fn entry_matches(e: &YamlEntry, ys: &Vec<YamlEntry>) -> (r: bool)
    ensures
        r == has_eq_entry(yes(ys@), e.key@, e.value@),
    decreases e,
{
    proof { lemma_yes(ys@); }
    let ghost vy = yes(ys@);
    let mut j: usize = 0;
    while j < ys.len()
        invariant
            j <= ys@.len(),
            vy == yes(ys@),
            vy.len() == ys@.len(),
            forall|m: int| 0 <= m < ys@.len() ==> #[trigger] vy[m] == (yv(ys@[m].key), yv(ys@[m].value)),
            forall|m: int| 0 <= m < j ==> !(yaml_eq(e.key@, #[trigger] vy[m].0) && yaml_eq(e.value@, vy[m].1)),
        decreases ys@.len() - j,
    {
        assert(vy[j as int] == (yv(ys@[j as int].key), yv(ys@[j as int].value)));
        if values_equal(&e.key, &ys[j].key) && values_equal(&e.value, &ys[j].value) {
            assert(yaml_eq(e.key@, vy[j as int].0) && yaml_eq(e.value@, vy[j as int].1));
            assert(has_eq_entry(vy, e.key@, e.value@));
            return true;
        }
        j = j + 1;
    }
    false
}

/// serde_yaml's equality of two mappings' entries.
fn mappings_equal(xs: &Vec<YamlEntry>, ys: &Vec<YamlEntry>) -> (r: bool)
    ensures
        r == yaml_eq(YamlView::Mapping(yes(xs@)), YamlView::Mapping(yes(ys@))),
    decreases xs@,
{
    proof {
        lemma_yes(xs@);
        lemma_yes(ys@);
    }
    if xs.len() != ys.len() {
        return false;
    }
    let ghost vx = yes(xs@);
    let ghost vy = yes(ys@);
    let mut i: usize = 0;
    while i < xs.len()
        invariant
            xs@.len() == ys@.len(),
            i <= xs@.len(),
            vx == yes(xs@),
            vy == yes(ys@),
            vx.len() == xs@.len(),
            forall|m: int| 0 <= m < xs@.len() ==> #[trigger] vx[m] == (yv(xs@[m].key), yv(xs@[m].value)),
            forall|m: int| 0 <= m < i ==> has_eq_entry(vy, #[trigger] vx[m].0, vx[m].1),
        decreases xs@.len() - i,
    {
        assert(decreases_to!(xs@ => xs@[i as int]));
        assert(vx[i as int] == (yv(xs@[i as int].key), yv(xs@[i as int].value)));
        if !entry_matches(&xs[i], ys) {
            proof {
                assert(vx[i as int] == vx[i as int]);
                assert(entry_key(vx[i as int]) == vx[i as int].0);
            }
            return false;
        }
        i = i + 1;
    }
    proof {
        assert forall|i: int| #![trigger vx[i]] 0 <= i < vx.len() implies entry_key(vx[i]) == vx[i].0 && exists|j: int|
            #![trigger vy[j]]
            0 <= j < vy.len() && yaml_eq(vx[i].0, vy[j].0) && yaml_eq(vx[i].1, vy[j].1) by {
            assert(has_eq_entry(vy, vx[i].0, vx[i].1));
        }
    }
    true
}

/// The position of the first entry of `es` whose key `k` equals (the entry that
/// `Mapping::get(k)` finds; a mapping that serde_yaml builds has one such entry at most).
pub open spec fn key_position(es: Seq<(YamlView, YamlView)>, k: YamlView) -> Option<int>
    decreases es.len(),
{
    if es.len() == 0 {
        None
    } else {
        match key_position(es.drop_last(), k) {
            Some(p) => Some(p),
            None => if yaml_eq(k, es.last().0) {
                Some(es.len() - 1)
            } else {
                None
            },
        }
    }
}

/// `Mapping::insert(k, v)`: the entry whose key equals `k` gets the value `v` (and keeps
/// its key and place); with no such entry, `(k, v)` is added at the end.
pub open spec fn entries_insert(es: Seq<(YamlView, YamlView)>, k: YamlView, v: YamlView) -> Seq<(YamlView, YamlView)> {
    match key_position(es, k) {
        Some(p) => es.update(p, (es[p].0, v)),
        None => es.push((k, v)),
    }
}

/// What of `new` differs from `base`: for two mappings, the mapping of the entries of
/// `new` whose key `base` lacks, and of the differences under the keys that both have
/// (none if nothing differs); for anything else, `new` itself unless it equals `base`.
pub open spec fn yaml_diff(base: YamlView, new: YamlView) -> Option<YamlView>
    decreases new,
{
    match (base, new) {
        (YamlView::Mapping(b), YamlView::Mapping(n)) => {
            let d = diff_entries(b, n);
            if d.len() == 0 {
                None
            } else {
                Some(YamlView::Mapping(d))
            }
        },
        _ => if yaml_eq(base, new) {
            None
        } else {
            Some(new)
        },
    }
}

/// The entries of the difference of mapping `n` from mapping `b`, gathered in the order of `n`.
pub open spec fn diff_entries(b: Seq<(YamlView, YamlView)>, n: Seq<(YamlView, YamlView)>) -> Seq<(YamlView, YamlView)>
    decreases n,
{
    if n.len() == 0 {
        Seq::empty()
    } else {
        let rest = diff_entries(b, n.drop_last());
        let k = n.last().0;
        let v = n.last().1;
        match key_position(b, k) {
            Some(p) => match yaml_diff(b[p].1, v) {
                Some(d) => entries_insert(rest, k, d),
                None => rest,
            },
            None => entries_insert(rest, k, v),
        }
    }
}

/// The view of an optional value.
pub open spec fn opt_view(o: Option<YamlValue>) -> Option<YamlView> {
    match o {
        Some(v) => Some(v@),
        None => None,
    }
}

/// A copy of a value.
pub fn clone_value(v: &YamlValue) -> (r: YamlValue)
    ensures
        r@ == v@,
    decreases v,
{
    match v {
        YamlValue::Null => YamlValue::Null,
        YamlValue::Bool(b) => YamlValue::Bool(*b),
        YamlValue::Number(n) => YamlValue::Number(*n),
        YamlValue::String(s) => YamlValue::String(s.clone()),
        YamlValue::Sequence(xs) => YamlValue::Sequence(clone_values(xs)),
        YamlValue::Mapping(es) => YamlValue::Mapping(clone_entries(es)),
        YamlValue::Tagged(t, x) => YamlValue::Tagged(t.clone(), Box::new(clone_value(&**x))),
    }
}

/// A copy of a sequence's elements.
fn clone_values(xs: &Vec<YamlValue>) -> (r: Vec<YamlValue>)
    ensures
        yvs(r@) == yvs(xs@),
    decreases xs@,
{
    let mut out: Vec<YamlValue> = Vec::new();
    let mut i: usize = 0;
    while i < xs.len()
        invariant
            i <= xs@.len(),
            yvs(out@) == yvs(xs@.take(i as int)),
        decreases xs@.len() - i,
    {
        assert(decreases_to!(xs@ => xs@[i as int]));
        let c = clone_value(&xs[i]);
        let ghost before = out@;
        out.push(c);
        proof {
            assert(out@.drop_last() =~= before);
            assert(xs@.take(i + 1).drop_last() =~= xs@.take(i as int));
        }
        i = i + 1;
    }
    assert(xs@.take(xs@.len() as int) =~= xs@);
    out
}

/// A copy of a mapping's entries.
fn clone_entries(es: &Vec<YamlEntry>) -> (r: Vec<YamlEntry>)
    ensures
        yes(r@) == yes(es@),
    decreases es@,
{
    let mut out: Vec<YamlEntry> = Vec::new();
    let mut i: usize = 0;
    while i < es.len()
        invariant
            i <= es@.len(),
            yes(out@) == yes(es@.take(i as int)),
        decreases es@.len() - i,
    {
        assert(decreases_to!(es@ => es@[i as int]));
        let k = clone_value(&es[i].key);
        let x = clone_value(&es[i].value);
        let ghost before = out@;
        out.push(YamlEntry { key: k, value: x });
        proof {
            assert(out@.drop_last() =~= before);
            assert(es@.take(i + 1).drop_last() =~= es@.take(i as int));
        }
        i = i + 1;
    }
    assert(es@.take(es@.len() as int) =~= es@);
    out
}

/// The position of the first entry whose key `k` equals.
fn find_key(es: &Vec<YamlEntry>, k: &YamlValue) -> (r: Option<usize>)
    ensures
        match r {
            Some(p) => key_position(yes(es@), k@) == Some(p as int) && p < es@.len(),
            None => key_position(yes(es@), k@) is None,
        },
{
    proof { lemma_yes(es@); }
    let mut j: usize = 0;
    while j < es.len()
        invariant
            j <= es@.len(),
            yes(es@).len() == es@.len(),
            forall|m: int| 0 <= m < es@.len() ==> #[trigger] yes(es@)[m] == (yv(es@[m].key), yv(es@[m].value)),
            key_position(yes(es@).take(j as int), k@) is None,
        decreases es@.len() - j,
    {
        proof {
            let t = yes(es@).take(j + 1);
            assert(t.drop_last() =~= yes(es@).take(j as int));
            assert(t.last() == yes(es@)[j as int]);
        }
        if values_equal(k, &es[j].key) {
            proof { lemma_key_position_prefix(yes(es@), k@, j + 1); }
            return Some(j);
        }
        j = j + 1;
    }
    assert(yes(es@).take(es@.len() as int) =~= yes(es@));
    None
}

/// A match found in a prefix is the match of the whole sequence.
proof fn lemma_key_position_prefix(es: Seq<(YamlView, YamlView)>, k: YamlView, n: int)
    requires
        0 <= n <= es.len(),
        key_position(es.take(n), k) is Some,
    ensures
        key_position(es, k) == key_position(es.take(n), k),
    decreases es.len() - n,
{
    if n < es.len() {
        assert(es.take(n + 1).drop_last() =~= es.take(n));
        lemma_key_position_prefix(es, k, n + 1);
    } else {
        assert(es.take(n) =~= es);
    }
}

/// `Mapping::insert(k, v)` on a mapping's entries.
fn insert_entry(es: &mut Vec<YamlEntry>, k: YamlValue, v: YamlValue)
    ensures
        yes(final(es)@) == entries_insert(yes(old(es)@), k@, v@),
{
    proof { lemma_yes(es@); }
    match find_key(es, &k) {
        Some(p) => {
            let ghost before = yes(es@);
            let old_entry = es.remove(p);
            es.insert(p, YamlEntry { key: old_entry.key, value: v });
            proof {
                lemma_yes(es@);
                assert(yes(es@) =~= before.update(p as int, (before[p as int].0, v@)));
            }
        },
        None => {
            let ghost before = yes(es@);
            es.push(YamlEntry { key: k, value: v });
            proof {
                assert(es@.drop_last() =~= old(es)@);
            }
        },
    }
}

/// What of `new` differs from `base` (serde_yaml values compared as serde_yaml compares them).
pub fn diff_yaml(base: &YamlValue, new: &YamlValue) -> (r: Option<YamlValue>)
    ensures
        opt_view(r) == yaml_diff(base@, new@),
    decreases new,
{
    match (base, new) {
        (YamlValue::Mapping(b), YamlValue::Mapping(n)) => {
            let d = diff_mappings(b, n);
            if d.len() == 0 {
                proof { lemma_yes(d@); }
                None
            } else {
                proof { lemma_yes(d@); }
                Some(YamlValue::Mapping(d))
            }
        },
        _ => {
            if values_equal(base, new) {
                None
            } else {
                Some(clone_value(new))
            }
        },
    }
}

/// The entries of the difference of mapping `n` from mapping `b`.
fn diff_mappings(b: &Vec<YamlEntry>, n: &Vec<YamlEntry>) -> (r: Vec<YamlEntry>)
    ensures
        yes(r@) == diff_entries(yes(b@), yes(n@)),
    decreases n@,
{
    proof {
        lemma_yes(b@);
        lemma_yes(n@);
    }
    let mut out: Vec<YamlEntry> = Vec::new();
    let mut i: usize = 0;
    while i < n.len()
        invariant
            i <= n@.len(),
            yes(b@).len() == b@.len(),
            yes(n@).len() == n@.len(),
            forall|m: int| 0 <= m < b@.len() ==> #[trigger] yes(b@)[m] == (yv(b@[m].key), yv(b@[m].value)),
            forall|m: int| 0 <= m < n@.len() ==> #[trigger] yes(n@)[m] == (yv(n@[m].key), yv(n@[m].value)),
            yes(out@) == diff_entries(yes(b@), yes(n@).take(i as int)),
        decreases n@.len() - i,
    {
        assert(decreases_to!(n@ => n@[i as int]));
        proof {
            let t = yes(n@).take(i + 1);
            assert(t.drop_last() =~= yes(n@).take(i as int));
            assert(t.last() == yes(n@)[i as int]);
        }
        match find_key(b, &n[i].key) {
            Some(p) => {
                match diff_yaml(&b[p].value, &n[i].value) {
                    Some(d) => {
                        let k = clone_value(&n[i].key);
                        insert_entry(&mut out, k, d);
                    },
                    None => {},
                }
            },
            None => {
                let k = clone_value(&n[i].key);
                let x = clone_value(&n[i].value);
                insert_entry(&mut out, k, x);
            },
        }
        i = i + 1;
    }
    assert(yes(n@).take(n@.len() as int) =~= yes(n@));
    out
}

/// No two keys of any mapping within the value are equal (as serde_yaml's parser
/// guarantees: it refuses a document with a duplicate key).
pub open spec fn yaml_wf(v: YamlView) -> bool
    decreases v,
{
    match v {
        YamlView::Sequence(xs) => forall|i: int| 0 <= i < xs.len() ==> yaml_wf(#[trigger] xs[i]),
        YamlView::Mapping(es) => {
            &&& forall|i: int, j: int|
                0 <= i < es.len() && 0 <= j < es.len() && i != j ==> !yaml_eq(#[trigger] es[i].0, #[trigger] es[j].0)
            &&& forall|i: int| 0 <= i < es.len() ==> yaml_wf(#[trigger] es[i].0) && yaml_wf(es[i].1)
        },
        YamlView::Tagged(_, x) => yaml_wf(*x),
        _ => true,
    }
}

/// Every value equals itself (NaN included: YAML has a single NaN).
pub proof fn lemma_yaml_eq_reflexive(a: YamlView)
    ensures
        yaml_eq(a, a),
    decreases a,
{
    match a {
        YamlView::Sequence(xs) => {
            assert forall|i: int| 0 <= i < xs.len() implies yaml_eq(#[trigger] xs[i], xs[i]) by {
                lemma_yaml_eq_reflexive(xs[i]);
            }
        },
        YamlView::Mapping(xs) => {
            assert forall|i: int| #![trigger xs[i]] 0 <= i < xs.len() implies entry_key(xs[i]) == xs[i].0 && exists|j: int|
                #![trigger xs[j]]
                0 <= j < xs.len() && yaml_eq(xs[i].0, xs[j].0) && yaml_eq(xs[i].1, xs[j].1) by {
                lemma_yaml_eq_reflexive(xs[i].0);
                lemma_yaml_eq_reflexive(xs[i].1);
            }
        },
        YamlView::Tagged(_, x) => {
            lemma_yaml_eq_reflexive(*x);
        },
        _ => {},
    }
}

/// In a mapping without equal keys, the entry that key `i` finds is entry `i`.
proof fn lemma_key_position_own(es: Seq<(YamlView, YamlView)>, i: int, n: int)
    requires
        0 <= i < n <= es.len(),
        forall|a: int, b: int| 0 <= a < es.len() && 0 <= b < es.len() && a != b ==> !yaml_eq(#[trigger] es[a].0, #[trigger] es[b].0),
    ensures
        key_position(es.take(n), es[i].0) == Some(i),
    decreases n,
{
    let t = es.take(n);
    assert(t.drop_last() =~= es.take(n - 1));
    if i < n - 1 {
        lemma_key_position_own(es, i, n - 1);
    } else {
        lemma_key_position_none(es, i, n - 1);
        lemma_yaml_eq_reflexive(es[i].0);
    }
}

/// A key equal to no key of the first `n` entries finds nothing among them.
proof fn lemma_key_position_none(es: Seq<(YamlView, YamlView)>, i: int, n: int)
    requires
        0 <= n <= i < es.len(),
        forall|a: int, b: int| 0 <= a < es.len() && 0 <= b < es.len() && a != b ==> !yaml_eq(#[trigger] es[a].0, #[trigger] es[b].0),
    ensures
        key_position(es.take(n), es[i].0) is None,
    decreases n,
{
    if n > 0 {
        let t = es.take(n);
        assert(t.drop_last() =~= es.take(n - 1));
        lemma_key_position_none(es, i, n - 1);
        assert(!yaml_eq(es[i].0, es[n - 1].0));
    }
}

/// A value has no difference from itself: editing Helm values and saving them unchanged
/// leaves nothing to record.
pub proof fn lemma_diff_self_empty(x: YamlView)
    requires
        yaml_wf(x),
    ensures
        yaml_diff(x, x) is None,
    decreases x,
{
    match x {
        YamlView::Mapping(es) => {
            lemma_diff_entries_self(es, es.len() as int);
            assert(es.take(es.len() as int) =~= es);
        },
        _ => {
            lemma_yaml_eq_reflexive(x);
        },
    }
}

/// The first `n` entries of a mapping without equal keys differ from it in nothing.
proof fn lemma_diff_entries_self(es: Seq<(YamlView, YamlView)>, n: int)
    requires
        0 <= n <= es.len(),
        yaml_wf(YamlView::Mapping(es)),
    ensures
        diff_entries(es, es.take(n)).len() == 0,
    decreases es, n,
{
    if n > 0 {
        let t = es.take(n);
        assert(t.drop_last() =~= es.take(n - 1));
        let m = YamlView::Mapping(es);
        assert(yaml_wf(m));
        assert(m matches YamlView::Mapping(q) && q == es);
        lemma_diff_entries_self(es, n - 1);
        assert forall|a: int, b: int| 0 <= a < es.len() && 0 <= b < es.len() && a != b implies !yaml_eq(#[trigger] es[a].0, #[trigger] es[b].0) by {
            assert(!yaml_eq(es[a].0, es[b].0));
        }
        lemma_key_position_own(es, n - 1, es.len() as int);
        assert(es.take(es.len() as int) =~= es);
        assert(yaml_wf(es[n - 1].0) && yaml_wf(es[n - 1].1));
        assert(decreases_to!(es => es[n - 1]));
        lemma_diff_self_empty(es[n - 1].1);
    }
}

/// The value under its tags.
pub open spec fn untag(v: YamlView) -> YamlView
    decreases v,
{
    match v {
        YamlView::Tagged(_, x) => untag(*x),
        _ => v,
    }
}

/// The position of the first entry whose key is the string `key`.
pub open spec fn str_key_position(es: Seq<(YamlView, YamlView)>, key: Seq<char>) -> Option<int>
    decreases es.len(),
{
    if es.len() == 0 {
        None
    } else {
        match str_key_position(es.drop_last(), key) {
            Some(p) => Some(p),
            None => if es.last().0 == YamlView::String(key) {
                Some(es.len() - 1)
            } else {
                None
            },
        }
    }
}

/// `Value::get(key)` for a string key: the value under `key` if `v` (under its tags) is a
/// mapping with an entry whose key is the string `key`.
pub open spec fn yaml_get(v: YamlView, key: Seq<char>) -> Option<YamlView> {
    match untag(v) {
        YamlView::Mapping(es) => match str_key_position(es, key) {
            Some(p) => Some(es[p].1),
            None => None,
        },
        _ => None,
    }
}

/// `Value::as_str`: the text of `v` if it is (under its tags) a string.
pub open spec fn yaml_as_str(v: YamlView) -> Option<Seq<char>> {
    match untag(v) {
        YamlView::String(s) => Some(s),
        _ => None,
    }
}

/// The value under its tags.
pub fn untag_value(v: &YamlValue) -> (r: &YamlValue)
    ensures
        r@ == untag(v@),
        !(r@ is Tagged),
    decreases v,
{
    match v {
        YamlValue::Tagged(_, x) => untag_value(&**x),
        _ => v,
    }
}

/// `Value::get(key)` for a string key.
pub fn value_get<'a>(v: &'a YamlValue, key: &str) -> (r: Option<&'a YamlValue>)
    ensures
        match r {
            Some(x) => yaml_get(v@, key@) == Some(x@),
            None => yaml_get(v@, key@) is None,
        },
{
    let u = untag_value(v);
    match u {
        YamlValue::Mapping(es) => {
            proof { lemma_yes(es@); }
            assert(untag(v@) == YamlView::Mapping(yes(es@)));
            let ghost ves = yes(es@);
            let mut j: usize = 0;
            while j < es.len()
                invariant
                    j <= es@.len(),
                    ves == yes(es@),
                    ves.len() == es@.len(),
                    forall|m: int| 0 <= m < es@.len() ==> #[trigger] ves[m] == (yv(es@[m].key), yv(es@[m].value)),
                    str_key_position(ves.take(j as int), key@) is None,
                    untag(v@) == YamlView::Mapping(ves),
                decreases es@.len() - j,
            {
                proof {
                    let t = ves.take(j + 1);
                    assert(t.drop_last() =~= ves.take(j as int));
                    assert(t.last() == ves[j as int]);
                }
                match &es[j].key {
                    YamlValue::String(s) => {
                        if crate::text::str_eq(s.as_str(), key) {
                            proof {
                                assert(ves[j as int].0 == YamlView::String(key@));
                                let t = ves.take(j + 1);
                                assert(t.drop_last() =~= ves.take(j as int));
                                assert(str_key_position(t, key@) == Some(j as int));
                                lemma_str_key_position_prefix(ves, key@, j + 1);
                                assert(ves[j as int].1 == es@[j as int].value@);
                                assert(untag(v@) == YamlView::Mapping(ves));
                                assert(yaml_get(v@, key@) == Some(es@[j as int].value@));
                            }
                            return Some(&es[j].value);
                        }
                    },
                    _ => {},
                }
                j = j + 1;
            }
            assert(ves.take(es@.len() as int) =~= ves);
            None
        },
        _ => None,
    }
}

/// A match found in a prefix is the match of the whole sequence.
proof fn lemma_str_key_position_prefix(es: Seq<(YamlView, YamlView)>, k: Seq<char>, n: int)
    requires
        0 <= n <= es.len(),
        str_key_position(es.take(n), k) is Some,
    ensures
        str_key_position(es, k) == str_key_position(es.take(n), k),
    decreases es.len() - n,
{
    if n < es.len() {
        assert(es.take(n + 1).drop_last() =~= es.take(n));
        lemma_str_key_position_prefix(es, k, n + 1);
    } else {
        assert(es.take(n) =~= es);
    }
}

/// `Value::as_str`.
pub fn value_as_str(v: &YamlValue) -> (r: Option<&str>)
    ensures
        match r {
            Some(s) => yaml_as_str(v@) == Some(s@),
            None => yaml_as_str(v@) is None,
        },
{
    match untag_value(v) {
        YamlValue::String(s) => Some(s.as_str()),
        _ => None,
    }
}

/// What entry `e` of the newer mapping leaves in the difference from the mapping `b`: the
/// entry itself when `b` has no equal key, the difference under its key when the values
/// there differ, and nothing when they do not.
pub open spec fn kept_entry(b: Seq<(YamlView, YamlView)>, e: (YamlView, YamlView)) -> Option<(YamlView, YamlView)> {
    match key_position(b, e.0) {
        Some(p) => match yaml_diff(b[p].1, e.1) {
            Some(d) => Some((e.0, d)),
            None => None,
        },
        None => Some(e),
    }
}

/// What the entries of `n`, in their order, leave in the difference from the mapping `b`.
pub open spec fn kept_entries(b: Seq<(YamlView, YamlView)>, n: Seq<(YamlView, YamlView)>) -> Seq<(YamlView, YamlView)>
    decreases n.len(),
{
    if n.len() == 0 {
        Seq::empty()
    } else {
        kept_entries(b, n.drop_last()) + match kept_entry(b, n.last()) {
            Some(x) => seq![x],
            None => Seq::empty(),
        }
    }
}

/// A key equal to none of the keys of `es` finds nothing there.
proof fn lemma_key_position_absent(es: Seq<(YamlView, YamlView)>, k: YamlView)
    requires
        forall|i: int| 0 <= i < es.len() ==> !yaml_eq(k, #[trigger] es[i].0),
    ensures
        key_position(es, k) is None,
    decreases es.len(),
{
    if es.len() > 0 {
        let t = es.drop_last();
        assert forall|i: int| 0 <= i < t.len() implies !yaml_eq(k, #[trigger] t[i].0) by {
            assert(t[i] == es[i]);
        }
        lemma_key_position_absent(t, k);
        assert(!yaml_eq(k, es[es.len() - 1].0));
    }
}

/// Each key of what `n` leaves is the key of one of its entries.
proof fn lemma_kept_keys(b: Seq<(YamlView, YamlView)>, n: Seq<(YamlView, YamlView)>)
    ensures
        forall|x: int| 0 <= x < kept_entries(b, n).len() ==> exists|i: int| 0 <= i < n.len() && #[trigger] kept_entries(b, n)[x].0 == n[i].0,
    decreases n.len(),
{
    if n.len() > 0 {
        let t = n.drop_last();
        lemma_kept_keys(b, t);
        let r = kept_entries(b, t);
        assert forall|x: int| 0 <= x < kept_entries(b, n).len() implies exists|i: int| 0 <= i < n.len() && #[trigger] kept_entries(b, n)[x].0 == n[i].0 by {
            if x < r.len() {
                assert(kept_entries(b, n)[x] == r[x]);
                let i = choose|i: int| 0 <= i < t.len() && #[trigger] r[x].0 == t[i].0;
                assert(t[i] == n[i]);
            } else {
                assert(kept_entries(b, n)[x].0 == n[n.len() - 1].0);
            }
        }
    }
}

/// With no two equal keys in `n`, the difference gathers exactly what its entries leave.
proof fn lemma_diff_entries_kept(b: Seq<(YamlView, YamlView)>, n: Seq<(YamlView, YamlView)>)
    requires
        forall|i: int, j: int| 0 <= i < n.len() && 0 <= j < n.len() && i != j ==> !yaml_eq(#[trigger] n[i].0, #[trigger] n[j].0),
    ensures
        diff_entries(b, n) == kept_entries(b, n),
    decreases n.len(),
{
    if n.len() > 0 {
        let t = n.drop_last();
        assert forall|i: int, j: int| 0 <= i < t.len() && 0 <= j < t.len() && i != j implies !yaml_eq(#[trigger] t[i].0, #[trigger] t[j].0) by {
            assert(t[i] == n[i] && t[j] == n[j]);
        }
        lemma_diff_entries_kept(b, t);
        lemma_kept_keys(b, t);
        let r = kept_entries(b, t);
        let k = n.last().0;
        assert forall|x: int| 0 <= x < r.len() implies !yaml_eq(k, #[trigger] r[x].0) by {
            let i = choose|i: int| 0 <= i < t.len() && #[trigger] r[x].0 == t[i].0;
            assert(t[i] == n[i]);
            assert(!yaml_eq(n[n.len() - 1].0, n[i].0));
        }
        lemma_key_position_absent(r, k);
        assert(r + seq![(k, n.last().1)] =~= r.push((k, n.last().1)));
        assert(r + Seq::<(YamlView, YamlView)>::empty() =~= r);
        match key_position(b, k) {
            Some(p) => match yaml_diff(b[p].1, n.last().1) {
                Some(d) => {
                    assert(r + seq![(k, d)] =~= r.push((k, d)));
                },
                None => {},
            },
            None => {},
        }
    }
}

/// What `diff_yaml` finds, in shape: for values that are not both mappings, nothing when
/// they are equal and otherwise the newer value; for two mappings (the newer one, as
/// serde_yaml parses it, without equal keys), nothing when its entries leave nothing, and
/// otherwise the non-empty mapping of what they leave, in their order: each entry whose
/// key the older mapping lacks, and the difference under each key whose values differ.
pub proof fn lemma_diff_shape(base: YamlView, new: YamlView)
    requires
        yaml_wf(new),
    ensures
        match (base, new) {
            (YamlView::Mapping(b), YamlView::Mapping(n)) => yaml_diff(base, new) == (if kept_entries(b, n).len() == 0 {
                None
            } else {
                Some(YamlView::Mapping(kept_entries(b, n)))
            }),
            _ => yaml_diff(base, new) == (if yaml_eq(base, new) { None } else { Some(new) }),
        },
{
    match (base, new) {
        (YamlView::Mapping(b), YamlView::Mapping(n)) => {
            lemma_diff_entries_kept(b, n);
        },
        _ => {},
    }
}

/// A scalar whose equality is plain: null, a boolean, a text, or an integer.
pub open spec fn plain_scalar(v: YamlView) -> bool {
    match v {
        YamlView::Null | YamlView::Bool(_) | YamlView::String(_) => true,
        YamlView::Number(n) => !(n is Float),
        _ => false,
    }
}

/// Two plain scalars are equal exactly when they are the same value (booleans of the same
/// truth, the same text, the same integer), and the difference of one from another is
/// nothing exactly then, and otherwise the newer value itself. Floats that are no NaN are
/// equal exactly when they have the same bits or are both zeros.
pub proof fn lemma_scalar_diff(a: YamlView, b: YamlView)
    ensures
        plain_scalar(a) && plain_scalar(b) ==> (yaml_eq(a, b) <==> a == b),
        plain_scalar(a) && plain_scalar(b) ==> yaml_diff(a, b) == (if a == b { None } else { Some(b) }),
        forall|x: bool, y: bool| #[trigger] yaml_diff(YamlView::Bool(x), YamlView::Bool(y))
            == (if x == y { None } else { Some(YamlView::Bool(y)) }),
        forall|x: u64, y: u64| !float_is_nan(x) && !float_is_nan(y) ==> (#[trigger] yaml_eq(
            YamlView::Number(YamlNumber::Float(x)),
            YamlView::Number(YamlNumber::Float(y)),
        ) <==> (x == y || (float_is_zero(x) && float_is_zero(y)))),
{
}


} // verus!
