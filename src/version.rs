//! The ranking of version references: semantic `vX.Y` tags and calendar-style
//! `polkadot-stableNNNN` tags, with a plain text fallback.

use crate::binary::Binary;
use crate::source::opt_view;
use crate::sys::{parse_u32, u32_from_text};
use std::cmp::Ordering;
use vstd::prelude::*;

verus! {

/// The token that starts a calendar-style release tag.
pub open spec fn stable_prefix() -> Seq<char> {
    seq!['p', 'o', 'l', 'k', 'a', 'd', 'o', 't', '-', 's', 't', 'a', 'b', 'l', 'e']
}

/// The index of the first `.` in `s`, or its length when there is none.
pub open spec fn dot_index(s: Seq<char>) -> int
    decreases s.len(),
{
    if s.len() == 0 || s[0] == '.' {
        0
    } else {
        1 + dot_index(s.drop_first())
    }
}

/// The text after the semantic marker `v`, split on `.`: the first two pieces
/// read as numbers.
pub open spec fn semantic_key(rest: Seq<char>) -> (Option<u32>, Option<u32>) {
    let d = dot_index(rest);
    let major = u32_from_text(rest.take(d));
    let minor = if d < rest.len() {
        let tail = rest.skip(d + 1);
        u32_from_text(tail.take(dot_index(tail)))
    } else {
        None
    };
    (major, minor)
}

/// The `(major, minor)` pair that ranks a version reference.
pub open spec fn version_key(v: Seq<char>) -> (Option<u32>, Option<u32>) {
    if v.len() > 0 && v[0] == 'v' {
        semantic_key(v.drop_first())
    } else if stable_prefix().is_prefix_of(v) {
        match u32_from_text(v.skip(stable_prefix().len() as int)) {
            Some(n) => (Some(n / 100), Some(n % 100)),
            None => (None, None),
        }
    } else {
        (None, None)
    }
}

/// Integers in their usual order.
pub open spec fn int_cmp(a: int, b: int) -> Ordering {
    if a < b {
        Ordering::Less
    } else if a > b {
        Ordering::Greater
    } else {
        Ordering::Equal
    }
}

/// Optional numbers, an absent one below every present one.
pub open spec fn option_cmp(a: Option<u32>, b: Option<u32>) -> Ordering {
    match (a, b) {
        (Some(x), Some(y)) => int_cmp(x as int, y as int),
        (Some(_), None) => Ordering::Greater,
        (None, Some(_)) => Ordering::Less,
        (None, None) => Ordering::Equal,
    }
}

/// Lexicographic order of texts by code point, which is the order of their
/// UTF-8 bytes.
pub open spec fn text_cmp(a: Seq<char>, b: Seq<char>) -> Ordering
    decreases a.len(),
{
    if a.len() == 0 {
        if b.len() == 0 {
            Ordering::Equal
        } else {
            Ordering::Less
        }
    } else if b.len() == 0 {
        Ordering::Greater
    } else if a[0] != b[0] {
        int_cmp(a[0] as int, b[0] as int)
    } else {
        text_cmp(a.drop_first(), b.drop_first())
    }
}

/// The ranking of two version references.
pub open spec fn version_cmp(a: Seq<char>, b: Seq<char>) -> Ordering {
    let (a_major, a_minor) = version_key(a);
    let (b_major, b_minor) = version_key(b);
    match (a_major, b_major) {
        (Some(x), Some(y)) => if x != y {
            int_cmp(x as int, y as int)
        } else {
            option_cmp(a_minor, b_minor)
        },
        (Some(_), None) => Ordering::Greater,
        (None, Some(_)) => Ordering::Less,
        (None, None) => text_cmp(a, b),
    }
}

proof fn lemma_dot_index_found(s: Seq<char>, i: int)
    requires
        0 <= i <= s.len(),
        forall|j: int| 0 <= j < i ==> s[j] != '.',
        i == s.len() || s[i] == '.',
    ensures
        dot_index(s) == i,
    decreases i,
{
    if i > 0 {
        lemma_dot_index_found(s.drop_first(), i - 1);
    }
}

/// The index of the first `.` in `s[from..]`, counted from the start of `s`.
fn find_dot(s: &str, from: usize) -> (r: usize)
    requires
        from <= s@.len(),
    ensures
        r - from == dot_index(s@.skip(from as int)),
        from <= r <= s@.len(),
{
    let n = s.unicode_len();
    let mut i = from;
    while i < n && s.get_char(i) != '.'
        invariant
            from <= i <= n,
            n == s@.len(),
            forall|j: int| from <= j < i ==> s@[j] != '.',
        decreases n - i,
    {
        i = i + 1;
    }
    proof {
        lemma_dot_index_found(s@.skip(from as int), i - from);
    }
    i
}

/// Ranks the text after the semantic marker, which starts at index 1 of `v`.
fn semantic_parts(v: &str) -> (r: (Option<u32>, Option<u32>))
    requires
        v@.len() > 0,
    ensures
        r == semantic_key(v@.drop_first()),
{
    let n = v.unicode_len();
    let d = find_dot(v, 1);
    let major = parse_u32(v.substring_char(1, d));
    let mut e: usize = n;
    let minor = if d < n {
        e = find_dot(v, d + 1);
        parse_u32(v.substring_char(d + 1, e))
    } else {
        None
    };
    proof {
        let rest = v@.drop_first();
        assert(v@.skip(1) =~= rest);
        assert(v@.subrange(1, d as int) =~= rest.take(d - 1));
        if d < n {
            assert(v@.skip(d + 1) =~= rest.skip(d as int));
            assert(v@.subrange(d + 1, e as int) =~= rest.skip(d as int).take(
                dot_index(rest.skip(d as int)),
            ));
        }
    }
    (major, minor)
}

/// Whether `v` starts with the calendar-style token.
fn has_stable_prefix(v: &str) -> (r: bool)
    ensures
        r == stable_prefix().is_prefix_of(v@),
{
    let p = "polkadot-stable";
    proof {
        reveal_strlit("polkadot-stable");
        assert(p@ =~= stable_prefix());
    }
    let m = p.unicode_len();
    let n = v.unicode_len();
    if n < m {
        return false;
    }
    let mut i: usize = 0;
    while i < m
        invariant
            i <= m <= n,
            m == stable_prefix().len(),
            n == v@.len(),
            p@ == stable_prefix(),
            forall|j: int| 0 <= j < i ==> v@[j] == stable_prefix()[j],
        decreases m - i,
    {
        if v.get_char(i) != p.get_char(i) {
            return false;
        }
        i = i + 1;
    }
    proof {
        assert(v@.subrange(0, m as int) =~= stable_prefix());
    }
    true
}

/// The `(major, minor)` pair that ranks the version reference `v`.
pub fn parse_version(v: &str) -> (r: (Option<u32>, Option<u32>))
    ensures
        r == version_key(v@),
{
    let n = v.unicode_len();
    if n > 0 && v.get_char(0) == 'v' {
        semantic_parts(v)
    } else if has_stable_prefix(v) {
        let m: usize = 15;
        proof {
            reveal_strlit("polkadot-stable");
        }
        match parse_u32(v.substring_char(m, n)) {
            Some(k) => (Some(k / 100), Some(k % 100)),
            None => (None, None),
        }
    } else {
        (None, None)
    }
}

pub(crate) fn order_u32(a: u32, b: u32) -> (r: Ordering)
    ensures
        r == int_cmp(a as int, b as int),
{
    if a < b {
        Ordering::Less
    } else if a > b {
        Ordering::Greater
    } else {
        Ordering::Equal
    }
}

pub(crate) fn order_option(a: Option<u32>, b: Option<u32>) -> (r: Ordering)
    ensures
        r == option_cmp(a, b),
{
    match (a, b) {
        (Some(x), Some(y)) => order_u32(x, y),
        (Some(_), None) => Ordering::Greater,
        (None, Some(_)) => Ordering::Less,
        (None, None) => Ordering::Equal,
    }
}

proof fn lemma_text_cmp_skip(a: Seq<char>, b: Seq<char>, i: int)
    requires
        0 <= i <= a.len(),
        i <= b.len(),
        forall|j: int| 0 <= j < i ==> a[j] == b[j],
    ensures
        text_cmp(a, b) == text_cmp(a.skip(i), b.skip(i)),
    decreases i,
{
    if i > 0 {
        lemma_text_cmp_skip(a.drop_first(), b.drop_first(), i - 1);
        assert(a.drop_first().skip(i - 1) =~= a.skip(i));
        assert(b.drop_first().skip(i - 1) =~= b.skip(i));
    } else {
        assert(a.skip(0) =~= a);
        assert(b.skip(0) =~= b);
    }
}

/// Compares two texts by code point, as `str`'s own order does.
pub fn compare_text(a: &str, b: &str) -> (r: Ordering)
    ensures
        r == text_cmp(a@, b@),
{
    let n = a.unicode_len();
    let m = b.unicode_len();
    let mut i: usize = 0;
    while i < n && i < m
        invariant
            i <= n,
            i <= m,
            n == a@.len(),
            m == b@.len(),
            forall|j: int| 0 <= j < i ==> a@[j] == b@[j],
        decreases n - i,
    {
        let x = a.get_char(i);
        let y = b.get_char(i);
        if x != y {
            proof {
                lemma_text_cmp_skip(a@, b@, i as int);
            }
            return if (x as u32) < (y as u32) {
                Ordering::Less
            } else {
                Ordering::Greater
            };
        }
        i = i + 1;
    }
    proof {
        lemma_text_cmp_skip(a@, b@, i as int);
    }
    if i < n {
        Ordering::Greater
    } else if i < m {
        Ordering::Less
    } else {
        Ordering::Equal
    }
}

proof fn lemma_text_cmp_flip(a: Seq<char>, b: Seq<char>)
    ensures
        (text_cmp(a, b) == Ordering::Less) == (text_cmp(b, a) == Ordering::Greater),
        (text_cmp(a, b) == Ordering::Equal) == (text_cmp(b, a) == Ordering::Equal),
    decreases a.len(),
{
    if a.len() > 0 && b.len() > 0 && a[0] == b[0] {
        lemma_text_cmp_flip(a.drop_first(), b.drop_first());
    }
}

proof fn lemma_text_cmp_equal(a: Seq<char>, b: Seq<char>)
    ensures
        (text_cmp(a, b) == Ordering::Equal) == (a == b),
    decreases a.len(),
{
    if a.len() > 0 && b.len() > 0 && a[0] == b[0] {
        lemma_text_cmp_equal(a.drop_first(), b.drop_first());
        if a.drop_first() == b.drop_first() {
            assert(a =~= seq![a[0]] + a.drop_first());
            assert(b =~= seq![b[0]] + b.drop_first());
        }
    }
    if a == b && a.len() > 0 {
        lemma_text_cmp_equal(a.drop_first(), b.drop_first());
    }
    if a.len() > 0 && b.len() > 0 && a[0] != b[0] {
        assert(a[0] as int != b[0] as int);
    }
    if a.len() == 0 && b.len() == 0 {
        assert(a =~= b);
    }
}

proof fn lemma_text_cmp_trans(a: Seq<char>, b: Seq<char>, c: Seq<char>)
    requires
        text_cmp(a, b) != Ordering::Greater,
        text_cmp(b, c) != Ordering::Greater,
    ensures
        text_cmp(a, c) != Ordering::Greater,
        text_cmp(a, b) == Ordering::Less || text_cmp(b, c) == Ordering::Less ==> text_cmp(a, c)
            == Ordering::Less,
    decreases a.len(),
{
    lemma_text_cmp_equal(a, b);
    lemma_text_cmp_equal(b, c);
    if a.len() > 0 && b.len() > 0 && c.len() > 0 && a[0] == b[0] && b[0] == c[0] {
        lemma_text_cmp_trans(a.drop_first(), b.drop_first(), c.drop_first());
    }
}

/// Swapping the two arguments of the ranking reverses the result.
pub proof fn lemma_version_cmp_flip(a: Seq<char>, b: Seq<char>)
    ensures
        (version_cmp(a, b) == Ordering::Less) == (version_cmp(b, a) == Ordering::Greater),
        (version_cmp(a, b) == Ordering::Equal) == (version_cmp(b, a) == Ordering::Equal),
{
    lemma_text_cmp_flip(a, b);
}

/// Every version reference ranks equal to itself.
pub proof fn lemma_version_cmp_refl(a: Seq<char>)
    ensures
        version_cmp(a, a) == Ordering::Equal,
{
    lemma_text_cmp_equal(a, a);
}

/// The ranking is transitive, and strictly so where either step is strict.
pub proof fn lemma_version_cmp_trans(a: Seq<char>, b: Seq<char>, c: Seq<char>)
    requires
        version_cmp(a, b) != Ordering::Greater,
        version_cmp(b, c) != Ordering::Greater,
    ensures
        version_cmp(a, c) != Ordering::Greater,
        version_cmp(a, b) == Ordering::Less || version_cmp(b, c) == Ordering::Less
            ==> version_cmp(a, c) == Ordering::Less,
{
    let (am, _) = version_key(a);
    let (bm, _) = version_key(b);
    let (cm, _) = version_key(c);
    if am is None && bm is None && cm is None {
        lemma_text_cmp_trans(a, b, c);
    }
}

/// The texts of a list of version references.
pub open spec fn texts(vs: Seq<&str>) -> Seq<Seq<char>> {
    vs.map_values(|v: &str| v@)
}

/// Which entries are already cached: those marked `true` in `cached`; an
/// entry past its end counts as not cached.
pub open spec fn cached_marks(cached: Seq<bool>, n: nat) -> Seq<bool> {
    Seq::new(n, |i: int| i < cached.len() && cached[i])
}

/// Whether some entry is marked.
pub open spec fn any_marked(marks: Seq<bool>) -> bool {
    exists|i: int| 0 <= i < marks.len() && marks[i]
}

/// The entries among which a version is picked: the cached ones, or all of
/// them when none is cached.
pub open spec fn candidates(cached: Seq<bool>, n: nat) -> Seq<bool> {
    if any_marked(cached_marks(cached, n)) {
        cached_marks(cached, n)
    } else {
        Seq::new(n, |i: int| true)
    }
}

/// Whether entry `k` is the one that a stable descending ranking of `vs` puts
/// first among the entries marked in `marks`: no marked entry ranks above it,
/// and every marked entry listed before it ranks below it.
pub open spec fn ranked_first(vs: Seq<Seq<char>>, marks: Seq<bool>, k: int) -> bool {
    &&& 0 <= k < vs.len()
    &&& marks[k]
    &&& forall|j: int|
        0 <= j < vs.len() && marks[j] ==> version_cmp(#[trigger] vs[j], vs[k]) != Ordering::Greater
    &&& forall|j: int| 0 <= j < k && marks[j] ==> version_cmp(#[trigger] vs[j], vs[k]) == Ordering::Less
}

/// Whether `r` is the version picked from `vs` when `cached` tells which of
/// them are cached: the best ranked cached one, else the best ranked one, and
/// nothing from an empty list.
pub open spec fn picked(vs: Seq<Seq<char>>, cached: Seq<bool>, r: Option<Seq<char>>) -> bool {
    if vs.len() == 0 {
        r is None
    } else {
        exists|k: int| ranked_first(vs, candidates(cached, vs.len()), k) && r == Some(vs[k])
    }
}

/// The index of the best ranked entry of `vs` among those marked in `marks`
/// (the first listed among equally ranked ones), or `None` when none is marked.
fn best_index(vs: &[&str], marks: &Vec<bool>) -> (r: Option<usize>)
    requires
        marks@.len() == vs@.len(),
    ensures
        r is None <==> !any_marked(marks@),
        r matches Some(k) ==> ranked_first(texts(vs@), marks@, k as int),
{
    let n = vs.len();
    let ghost t = texts(vs@);
    let mut best: Option<usize> = None;
    let mut i: usize = 0;
    while i < n
        invariant
            i <= n,
            n == vs@.len(),
            marks@.len() == n,
            t == texts(vs@),
            best is None <==> forall|j: int| 0 <= j < i ==> !marks@[j],
            best matches Some(k) ==> {
                &&& k < i
                &&& marks@[k as int]
                &&& forall|j: int|
                    0 <= j < i && marks@[j] ==> version_cmp(#[trigger] t[j], t[k as int])
                        != Ordering::Greater
                &&& forall|j: int|
                    0 <= j < k && marks@[j] ==> version_cmp(#[trigger] t[j], t[k as int])
                        == Ordering::Less
            },
        decreases n - i,
    {
        if marks[i] {
            match best {
                None => {
                    proof {
                        lemma_version_cmp_refl(t[i as int]);
                    }
                    best = Some(i);
                },
                Some(k) => {
                    if let Ordering::Greater = Binary::compare_versions(vs[i], vs[k]) {
                        proof {
                            lemma_version_cmp_flip(t[i as int], t[k as int]);
                            lemma_version_cmp_refl(t[i as int]);
                            assert forall|j: int| 0 <= j < i && marks@[j] implies version_cmp(
                                #[trigger] t[j],
                                t[i as int],
                            ) == Ordering::Less by {
                                lemma_version_cmp_trans(t[j], t[k as int], t[i as int]);
                            }
                        }
                        best = Some(i);
                    }
                },
            }
        }
        i = i + 1;
    }
    proof {
        if best is None {
            assert forall|j: int| 0 <= j < marks@.len() implies !marks@[j] by {}
        } else {
            let k = best->0;
            assert(marks@[k as int]);
        }
    }
    best
}

/// Picks a version from `available`, where `cached[i]` tells whether entry `i`
/// is already cached: the best ranked cached version if there is one, else the
/// best ranked version; nothing from an empty list. Among equally ranked
/// versions the one listed first is taken.
pub fn pick(available: &[&str], cached: &Vec<bool>) -> (r: Option<String>)
    ensures
        picked(texts(available@), cached@, opt_view(r)),
{
    let n = available.len();
    let mut marks: Vec<bool> = Vec::new();
    let mut any = false;
    let mut i: usize = 0;
    while i < n
        invariant
            i <= n,
            n == available@.len(),
            marks@ =~= cached_marks(cached@, n as nat).take(i as int),
            any == any_marked(marks@),
        decreases n - i,
    {
        let m = i < cached.len() && cached[i];
        proof {
            if any {
                let w = choose|w: int| 0 <= w < marks@.len() && marks@[w];
                assert(marks@.push(m)[w]);
            }
            if m {
                assert(marks@.push(m)[i as int]);
            }
        }
        marks.push(m);
        any = any || m;
        i = i + 1;
    }
    proof {
        assert(cached_marks(cached@, n as nat).take(n as int) =~= cached_marks(cached@, n as nat));
    }
    if !any {
        marks = Vec::new();
        let mut i: usize = 0;
        while i < n
            invariant
                i <= n,
                n == available@.len(),
                marks@ =~= Seq::new(n as nat, |j: int| true).take(i as int),
            decreases n - i,
        {
            marks.push(true);
            i = i + 1;
        }
        proof {
            assert(Seq::new(n as nat, |j: int| true).take(n as int) =~= Seq::new(
                n as nat,
                |j: int| true,
            ));
        }
    }
    proof {
        assert(marks@ =~= candidates(cached@, n as nat));
    }
    match best_index(available, &marks) {
        Some(k) => {
            let v = available[k];
            Some(v.to_string())
        },
        None => {
            proof {
                if n > 0 {
                    assert(marks@[0]);
                }
            }
            None
        },
    }
}

} // verus!
