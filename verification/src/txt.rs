//! Character-level text utilities shared by the resolver, the swap engine
//! and the action runner: literal search, literal replacement with a
//! substitution count, prefix/suffix trimming and segment splitting.

use vstd::prelude::*;
use vstd::string::StrSliceExecFns;

verus! {

/// The pattern `p` occurs in `t` starting at position `i`.
pub open spec fn match_at(t: Seq<char>, p: Seq<char>, i: int) -> bool {
    0 <= i && i + p.len() <= t.len() && t.subrange(i, i + p.len() as int) == p
}

/// Position of the leftmost occurrence of `p` in `t` at or after `i`.
pub open spec fn first_match_from(t: Seq<char>, p: Seq<char>, i: int) -> Option<int>
    decreases t.len() - i,
{
    if i < 0 || i + p.len() > t.len() {
        None
    } else if t.subrange(i, i + p.len() as int) == p {
        Some(i)
    } else if i == t.len() {
        None
    } else {
        first_match_from(t, p, i + 1)
    }
}

/// Replacement of every occurrence of `p` in `t` by `v`, scanning left to
/// right without overlap. An empty pattern matches at every character
/// boundary, so it interleaves `v` between all characters.
pub open spec fn spec_splice(t: Seq<char>, p: Seq<char>, v: Seq<char>) -> Seq<char>
    decreases t.len(),
{
    if p.len() == 0 {
        if t.len() == 0 {
            v
        } else {
            v + seq![t[0]] + spec_splice(t.skip(1), p, v)
        }
    } else if t.len() < p.len() {
        t
    } else if t.subrange(0, p.len() as int) == p {
        v + spec_splice(t.skip(p.len() as int), p, v)
    } else {
        seq![t[0]] + spec_splice(t.skip(1), p, v)
    }
}

/// How many occurrences `spec_splice` replaces: leftmost, non-overlapping.
pub open spec fn spec_occurrences(t: Seq<char>, p: Seq<char>) -> nat
    decreases t.len(),
{
    if p.len() == 0 {
        t.len() + 1
    } else if t.len() < p.len() {
        0
    } else if t.subrange(0, p.len() as int) == p {
        1 + spec_occurrences(t.skip(p.len() as int), p)
    } else {
        spec_occurrences(t.skip(1), p)
    }
}

pub open spec fn spec_starts_with(t: Seq<char>, p: Seq<char>) -> bool {
    p.len() <= t.len() && t.subrange(0, p.len() as int) == p
}

pub open spec fn spec_ends_with(t: Seq<char>, p: Seq<char>) -> bool {
    p.len() <= t.len() && t.subrange(t.len() - p.len(), t.len() as int) == p
}

/// Removal of every trailing repetition of `p`.
pub open spec fn spec_trim_end_all(t: Seq<char>, p: Seq<char>) -> Seq<char>
    decreases t.len(),
{
    if p.len() > 0 && spec_ends_with(t, p) {
        spec_trim_end_all(t.take(t.len() - p.len()), p)
    } else {
        t
    }
}

/// Removal of every leading `c`.
pub open spec fn spec_trim_start_char(t: Seq<char>, c: char) -> Seq<char>
    decreases t.len(),
{
    if t.len() > 0 && t[0] == c {
        spec_trim_start_char(t.skip(1), c)
    } else {
        t
    }
}

/// The segments of `t` between occurrences of the separator `c`;
/// always at least one (possibly empty) segment.
pub open spec fn spec_split_char(t: Seq<char>, c: char) -> Seq<Seq<char>>
    decreases t.len(),
{
    if t.len() == 0 {
        seq![Seq::<char>::empty()]
    } else if t[0] == c {
        seq![Seq::<char>::empty()] + spec_split_char(t.skip(1), c)
    } else {
        let rest = spec_split_char(t.skip(1), c);
        seq![seq![t[0]] + rest[0]] + rest.skip(1)
    }
}

pub broadcast proof fn lemma_split_char_nonempty(t: Seq<char>, c: char)
    ensures
        #[trigger] spec_split_char(t, c).len() >= 1,
    decreases t.len(),
{
    if t.len() > 0 {
        lemma_split_char_nonempty(t.skip(1), c);
    }
}

/// A text containing the separator splits into at least two segments.
pub proof fn lemma_split_char_len2(t: Seq<char>, c: char, i: int)
    requires
        0 <= i < t.len(),
        t[i] == c,
    ensures
        spec_split_char(t, c).len() >= 2,
    decreases t.len(),
{
    if t[0] == c {
        lemma_split_char_nonempty(t.skip(1), c);
    } else {
        lemma_split_char_len2(t.skip(1), c, i - 1);
    }
}

/// A found position is a real match, at or after the start.
pub proof fn lemma_first_match_is_match(t: Seq<char>, p: Seq<char>, i: int)
    requires
        first_match_from(t, p, i) is Some,
    ensures
        match_at(t, p, first_match_from(t, p, i)->Some_0),
        first_match_from(t, p, i)->Some_0 >= i,
    decreases t.len() - i,
{
    if !(i < 0 || i + p.len() > t.len()) && t.subrange(i, i + p.len() as int) != p && i != t.len() {
        lemma_first_match_is_match(t, p, i + 1);
    }
}

/// A search from `i` finds a position no later than any match at or
/// after `i`.
pub proof fn lemma_first_match_minimal(t: Seq<char>, p: Seq<char>, i: int, j: int)
    requires
        0 <= i <= j,
        match_at(t, p, j),
    ensures
        first_match_from(t, p, i) matches Some(u) && u <= j,
    decreases j - i,
{
    if i == j {
        assert(first_match_from(t, p, i) == Some(i));
    } else if !(t.subrange(i, i + p.len() as int) == p) {
        lemma_first_match_minimal(t, p, i + 1, j);
    }
}

/// The text after the last `c`, or all of `t` when `c` does not occur.
pub open spec fn spec_last_segment(t: Seq<char>, c: char) -> Seq<char> {
    spec_split_char(t, c).last()
}

/// A text free of the separator is a single segment.
pub proof fn lemma_split_char_no_sep(t: Seq<char>, c: char)
    requires
        forall|j: int| 0 <= j < t.len() ==> t[j] != c,
    ensures
        spec_split_char(t, c) == seq![t],
    decreases t.len(),
{
    if t.len() == 0 {
        assert(spec_split_char(t, c) =~~= seq![t]);
    } else {
        lemma_split_char_no_sep(t.skip(1), c);
        assert(seq![t[0]] + t.skip(1) =~= t);
        assert(spec_split_char(t, c) =~~= seq![t]);
    }
}

/// Splitting distributes over a separator between two texts.
pub proof fn lemma_split_char_append(a: Seq<char>, b: Seq<char>, c: char)
    ensures
        spec_split_char(a + seq![c] + b, c) == spec_split_char(a, c) + spec_split_char(b, c),
    decreases a.len(),
{
    let t = a + seq![c] + b;
    if a.len() == 0 {
        assert(t =~= seq![c] + b);
        assert(t[0] == c);
        assert(t.skip(1) =~= b);
        assert(spec_split_char(t, c) =~~= spec_split_char(a, c) + spec_split_char(b, c));
    } else if a[0] == c {
        lemma_split_char_append(a.skip(1), b, c);
        assert(t[0] == c);
        assert(t.skip(1) =~= a.skip(1) + seq![c] + b);
        assert(spec_split_char(t, c) =~~= spec_split_char(a, c) + spec_split_char(b, c));
    } else {
        lemma_split_char_append(a.skip(1), b, c);
        lemma_split_char_nonempty(a.skip(1), c);
        lemma_split_char_nonempty(a.skip(1) + seq![c] + b, c);
        assert(t[0] == a[0]);
        assert(t.skip(1) =~= a.skip(1) + seq![c] + b);
        let rest = spec_split_char(a.skip(1) + seq![c] + b, c);
        let arest = spec_split_char(a.skip(1), c);
        assert(rest == arest + spec_split_char(b, c));
        assert(rest[0] == arest[0]);
        assert(rest.skip(1) =~= arest.skip(1) + spec_split_char(b, c));
        assert(spec_split_char(t, c) == seq![seq![t[0]] + rest[0]] + rest.skip(1));
        assert(spec_split_char(a, c) == seq![seq![a[0]] + arest[0]] + arest.skip(1));
        assert(spec_split_char(t, c) =~~= spec_split_char(a, c) + spec_split_char(b, c));
    }
}

/// A pattern holding a character that the text lacks never matches.
pub proof fn lemma_no_match_when_char_absent(t: Seq<char>, p: Seq<char>, ci: int)
    requires
        0 <= ci < p.len(),
        forall|k: int| 0 <= k < t.len() ==> t[k] != p[ci],
    ensures
        first_match_from(t, p, 0) is None,
{
    if first_match_from(t, p, 0) is Some {
        lemma_first_match_is_match(t, p, 0);
        let i = first_match_from(t, p, 0)->Some_0;
        assert(t.subrange(i, i + p.len() as int)[ci] == t[i + ci]);
    }
}

/// The views of a list of character vectors.
pub open spec fn views_of(vs: Seq<Vec<char>>) -> Seq<Seq<char>> {
    vs.map_values(|v: Vec<char>| v@)
}

/// A segment list with its first segment extended at the front.
pub open spec fn spec_prepend_first(x: Seq<char>, ss: Seq<Seq<char>>) -> Seq<Seq<char>> {
    seq![x + ss[0]] + ss.skip(1)
}

/// Splits `t` at every occurrence of `c`, yielding the segments between.
pub fn split_chars(t: &Vec<char>, c: char) -> (r: Vec<Vec<char>>)
    ensures
        views_of(r@) == spec_split_char(t@, c),
{
    let mut segs: Vec<Vec<char>> = Vec::new();
    let mut cur: Vec<char> = Vec::new();
    let mut i: usize = 0;
    proof {
        assert(t@.skip(0) =~~= t@);
        assert(views_of(segs@) =~~= Seq::<Seq<char>>::empty());
        lemma_split_char_nonempty(t@, c);
        assert(spec_prepend_first(cur@, spec_split_char(t@, c)) =~~= spec_split_char(t@, c));
        assert(views_of(segs@) + spec_split_char(t@, c) =~~= spec_split_char(t@, c));
    }
    while i < t.len()
        invariant
            i <= t@.len(),
            views_of(segs@) + spec_prepend_first(cur@, spec_split_char(t@.skip(i as int), c))
                == spec_split_char(t@, c),
        decreases t@.len() - i,
    {
        let ghost pre_segs = views_of(segs@);
        let ghost pre_cur = cur@;
        let ghost rest = spec_split_char(t@.skip(i + 1), c);
        proof {
            assert(t@.skip(i as int)[0] == t@[i as int]);
            assert(t@.skip(i as int).skip(1) =~~= t@.skip(i + 1));
            lemma_split_char_nonempty(t@.skip(i + 1), c);
        }
        if t[i] == c {
            segs.push(cur);
            cur = Vec::new();
            proof {
                assert(views_of(segs@) =~~= pre_segs + seq![pre_cur]);
                assert(spec_prepend_first(pre_cur, spec_split_char(t@.skip(i as int), c))
                    =~~= seq![pre_cur] + rest);
                assert(spec_prepend_first(cur@, rest) =~~= rest);
                assert(views_of(segs@) + spec_prepend_first(cur@, rest) =~~= (pre_segs + seq![
                    pre_cur,
                ]) + rest);
                assert((pre_segs + seq![pre_cur]) + rest =~~= pre_segs + (seq![pre_cur] + rest));
            }
        } else {
            cur.push(t[i]);
            proof {
                let inner = spec_split_char(t@.skip(i as int), c);
                assert(inner == seq![seq![t@[i as int]] + rest[0]] + rest.skip(1));
                assert(spec_prepend_first(pre_cur, inner) =~~= seq![pre_cur + seq![t@[i as int]]
                    + rest[0]] + rest.skip(1));
                assert(cur@ =~~= pre_cur + seq![t@[i as int]]);
                assert(spec_prepend_first(cur@, rest) =~~= seq![cur@ + rest[0]] + rest.skip(1));
                assert(spec_prepend_first(pre_cur, inner) =~~= spec_prepend_first(cur@, rest));
            }
        }
        i = i + 1;
    }
    proof {
        assert(t@.skip(t@.len() as int) =~~= Seq::<char>::empty());
        assert(spec_split_char(Seq::<char>::empty(), c) =~~= seq![Seq::<char>::empty()]);
        assert(spec_prepend_first(cur@, seq![Seq::<char>::empty()]) =~~= seq![cur@]);
    }
    let ghost pre_segs = views_of(segs@);
    let ghost pre_cur = cur@;
    segs.push(cur);
    proof {
        assert(views_of(segs@) =~~= pre_segs + seq![pre_cur]);
    }
    segs
}

/// The characters of `s`, in order.
pub fn to_chars(s: &str) -> (r: Vec<char>)
    ensures
        r@ == s@,
{
    let n = s.unicode_len();
    let mut r: Vec<char> = Vec::new();
    let mut i: usize = 0;
    while i < n
        invariant
            i <= n,
            n == s@.len(),
            r@ == s@.take(i as int),
        decreases n - i,
    {
        r.push(s.get_char(i));
        proof {
            assert(s@.take(i + 1 as int) =~~= s@.take(i as int).push(s@[i as int]));
        }
        i = i + 1;
    }
    proof {
        assert(s@.take(n as int) =~~= s@);
    }
    r
}

/// Relies on `String`'s `FromIterator` over `char`: the string made of
/// exactly these characters, in order.
#[verifier::external_body]
pub(crate) fn chars_string(v: &Vec<char>) -> (r: String)
    ensures
        r@ == v@,
{
    v.iter().collect()
}

/// A fresh copy of `v`.
pub fn dup(v: &Vec<char>) -> (r: Vec<char>)
    ensures
        r@ == v@,
{
    let mut r: Vec<char> = Vec::new();
    let mut i: usize = 0;
    while i < v.len()
        invariant
            i <= v.len(),
            r@ == v@.take(i as int),
        decreases v.len() - i,
    {
        r.push(v[i]);
        proof {
            assert(v@.take(i + 1 as int) =~~= v@.take(i as int).push(v@[i as int]));
        }
        i = i + 1;
    }
    proof {
        assert(v@.take(v@.len() as int) =~= v@);
    }
    r
}

pub fn vec_eq(a: &Vec<char>, b: &Vec<char>) -> (r: bool)
    ensures
        r == (a@ == b@),
{
    if a.len() != b.len() {
        return false;
    }
    let mut i: usize = 0;
    while i < a.len()
        invariant
            i <= a.len(),
            a@.len() == b@.len(),
            forall|j: int| 0 <= j < i ==> a@[j] == b@[j],
        decreases a.len() - i,
    {
        if a[i] != b[i] {
            return false;
        }
        i = i + 1;
    }
    proof {
        assert(a@ =~= b@);
    }
    true
}

pub fn str_equal(a: &str, b: &str) -> (r: bool)
    ensures
        r == (a@ == b@),
{
    let va = to_chars(a);
    let vb = to_chars(b);
    vec_eq(&va, &vb)
}

pub fn is_match_at(t: &Vec<char>, p: &Vec<char>, i: usize) -> (r: bool)
    requires
        i <= t.len(),
    ensures
        r == match_at(t@, p@, i as int),
{
    if p.len() > t.len() - i {
        return false;
    }
    let mut j: usize = 0;
    while j < p.len()
        invariant
            j <= p.len(),
            i + p.len() <= t.len(),
            forall|k: int| 0 <= k < j ==> t@[i + k] == p@[k],
        decreases p.len() - j,
    {
        if t[i + j] != p[j] {
            proof {
                assert(t@.subrange(i as int, i + p@.len()) != p@) by {
                    assert(t@.subrange(i as int, i + p@.len())[j as int] == t@[i + j]);
                }
            }
            return false;
        }
        j = j + 1;
    }
    proof {
        assert(t@.subrange(i as int, i + p@.len()) =~= p@);
    }
    true
}

pub fn find_from(t: &Vec<char>, p: &Vec<char>, i: usize) -> (r: Option<usize>)
    requires
        i <= t.len(),
    ensures
        match r {
            Some(u) => first_match_from(t@, p@, i as int) == Some(u as int),
            None => first_match_from(t@, p@, i as int) is None,
        },
    decreases t.len() - i,
{
    if p.len() > t.len() - i {
        return None;
    }
    if p.len() == 0 {
        proof {
            assert(t@.subrange(i as int, i as int) =~= p@);
        }
        return Some(i);
    }
    if is_match_at(t, p, i) {
        return Some(i);
    }
    find_from(t, p, i + 1)
}

/// Replaces every occurrence of `p` at or after position `i`.
fn splice_from(t: &Vec<char>, p: &Vec<char>, v: &Vec<char>, i: usize) -> (r: Vec<char>)
    requires
        i <= t.len(),
    ensures
        r@ == spec_splice(t@.skip(i as int), p@, v@),
    decreases t.len() - i, p.len() + 1,
{
    proof {
        assert(t@.skip(i as int).len() == t@.len() - i);
    }
    if p.len() == 0 {
        if i == t.len() {
            proof {
                assert(t@.skip(i as int) =~= Seq::<char>::empty());
            }
            dup(v)
        } else {
            let mut out = dup(v);
            out.push(t[i]);
            let mut rest = splice_from(t, p, v, i + 1);
            out.append(&mut rest);
            proof {
                assert(t@.skip(i as int).skip(1) =~= t@.skip(i + 1 as int));
                assert(t@.skip(i as int)[0] == t@[i as int]);
                assert(out@ =~= v@ + seq![t@.skip(i as int)[0]] + spec_splice(
                    t@.skip(i as int).skip(1),
                    p@,
                    v@,
                ));
            }
            out
        }
    } else if t.len() - i < p.len() {
        // too short for a match: the remainder is kept as it is
        if i == t.len() {
            proof {
                assert(t@.skip(i as int) =~= Seq::<char>::empty());
            }
            Vec::new()
        } else {
            let mut out: Vec<char> = Vec::new();
            out.push(t[i]);
            let mut rest = splice_from(t, p, v, i + 1);
            out.append(&mut rest);
            proof {
                assert(t@.skip(i as int).skip(1) =~= t@.skip(i + 1 as int));
                assert(t@.skip(i + 1 as int).len() < p@.len());
                assert(t@.skip(i as int) =~= seq![t@.skip(i as int)[0]] + t@.skip(i as int).skip(
                    1,
                ));
            }
            out
        }
    } else if is_match_at(t, p, i) {
        let mut out = dup(v);
        let mut rest = splice_from(t, p, v, i + p.len());
        out.append(&mut rest);
        proof {
            assert(t@.skip(i as int).subrange(0, p@.len() as int) =~= t@.subrange(
                i as int,
                i + p@.len(),
            ));
            assert(t@.skip(i as int).skip(p@.len() as int) =~= t@.skip(i + p@.len()));
        }
        out
    } else {
        let mut out: Vec<char> = Vec::new();
        out.push(t[i]);
        let mut rest = splice_from(t, p, v, i + 1);
        out.append(&mut rest);
        proof {
            assert(t@.skip(i as int).subrange(0, p@.len() as int) =~= t@.subrange(
                i as int,
                i + p@.len(),
            ));
            assert(t@.skip(i as int).skip(1) =~= t@.skip(i + 1 as int));
            assert(t@.skip(i as int)[0] == t@[i as int]);
        }
        out
    }
}

/// Replaces every occurrence of `p` in `t` by `v`, leftmost first,
/// without overlap.
pub fn replace_all(t: &Vec<char>, p: &Vec<char>, v: &Vec<char>) -> (r: Vec<char>)
    ensures
        r@ == spec_splice(t@, p@, v@),
{
    let r = splice_from(t, p, v, 0);
    proof {
        assert(t@.skip(0) =~= t@);
    }
    r
}

fn occurrences_from(t: &Vec<char>, p: &Vec<char>, i: usize) -> (r: usize)
    requires
        i <= t.len(),
        p@.len() > 0,
    ensures
        r == spec_occurrences(t@.skip(i as int), p@),
    decreases t.len() - i,
{
    proof {
        assert(t@.skip(i as int).len() == t@.len() - i);
    }
    if t.len() - i < p.len() {
        0
    } else if is_match_at(t, p, i) {
        let rest = occurrences_from(t, p, i + p.len());
        proof {
            assert(t@.skip(i as int).subrange(0, p@.len() as int) =~= t@.subrange(
                i as int,
                i + p@.len(),
            ));
            assert(t@.skip(i as int).skip(p@.len() as int) =~= t@.skip(i + p@.len()));
            assert(spec_occurrences(t@.skip(i + p@.len()), p@) <= t@.len() - i - p@.len()) by {
                lemma_occurrences_bound(t@.skip(i + p@.len()), p@);
            }
        }
        rest + 1
    } else {
        proof {
            assert(t@.skip(i as int).subrange(0, p@.len() as int) =~= t@.subrange(
                i as int,
                i + p@.len(),
            ));
            assert(t@.skip(i as int).skip(1) =~= t@.skip(i + 1 as int));
        }
        occurrences_from(t, p, i + 1)
    }
}

proof fn lemma_occurrences_empty_pattern(t: Seq<char>, p: Seq<char>)
    requires
        p.len() == 0,
    ensures
        spec_occurrences(t, p) == t.len() + 1,
    decreases t.len(),
{
    if t.len() > 0 {
        lemma_occurrences_empty_pattern(t.skip(1), p);
    }
}

proof fn lemma_occurrences_bound(t: Seq<char>, p: Seq<char>)
    requires
        p.len() > 0,
    ensures
        spec_occurrences(t, p) <= t.len(),
    decreases t.len(),
{
    if t.len() >= p.len() {
        if t.subrange(0, p.len() as int) == p {
            lemma_occurrences_bound(t.skip(p.len() as int), p);
        } else {
            lemma_occurrences_bound(t.skip(1), p);
        }
    }
}

/// How many occurrences of `p` a replacement over `t` touches, capped at
/// the machine limit.
pub fn count_occurrences(t: &Vec<char>, p: &Vec<char>) -> (r: usize)
    ensures
        r as nat == if spec_occurrences(t@, p@) > usize::MAX {
            usize::MAX as nat
        } else {
            spec_occurrences(t@, p@)
        },
{
    if p.len() == 0 {
        proof {
            lemma_occurrences_empty_pattern(t@, p@);
        }
        if t.len() < usize::MAX {
            t.len() + 1
        } else {
            usize::MAX
        }
    } else {
        let r = occurrences_from(t, p, 0);
        proof {
            assert(t@.skip(0) =~= t@);
            lemma_occurrences_bound(t@, p@);
        }
        r
    }
}

pub fn starts_with(t: &Vec<char>, p: &Vec<char>) -> (r: bool)
    ensures
        r == spec_starts_with(t@, p@),
{
    if p.len() > t.len() {
        return false;
    }
    is_match_at(t, p, 0)
}

pub fn ends_with(t: &Vec<char>, p: &Vec<char>) -> (r: bool)
    ensures
        r == spec_ends_with(t@, p@),
{
    if p.len() > t.len() {
        return false;
    }
    let r = is_match_at(t, p, t.len() - p.len());
    proof {
        assert(t@.subrange(t@.len() - p@.len(), t@.len() as int) == t@.subrange(
            (t@.len() - p@.len()) as int,
            t@.len() - p@.len() + p@.len(),
        ));
    }
    r
}

pub fn trim_end_all(t: &Vec<char>, p: &Vec<char>) -> (r: Vec<char>)
    ensures
        r@ == spec_trim_end_all(t@, p@),
    decreases t@.len(),
{
    if p.len() > 0 && ends_with(t, p) {
        let mut shorter = dup(t);
        shorter.truncate(t.len() - p.len());
        proof {
            assert(shorter@ =~= t@.take(t@.len() - p@.len()));
        }
        trim_end_all(&shorter, p)
    } else {
        dup(t)
    }
}

pub fn trim_start_char(t: &Vec<char>, c: char) -> (r: Vec<char>)
    ensures
        r@ == spec_trim_start_char(t@, c),
    decreases t@.len(),
{
    if t.len() > 0 && t[0] == c {
        let mut rest: Vec<char> = Vec::new();
        let mut i: usize = 1;
        while i < t.len()
            invariant
                1 <= i <= t.len(),
                rest@ == t@.subrange(1, i as int),
            decreases t.len() - i,
        {
            rest.push(t[i]);
            proof {
                assert(t@.subrange(1, i + 1 as int) =~= t@.subrange(1, i as int).push(
                    t@[i as int],
                ));
            }
            i = i + 1;
        }
        proof {
            assert(rest@ =~= t@.skip(1));
        }
        trim_start_char(&rest, c)
    } else {
        dup(t)
    }
}

} // verus!
