//! Text as sequences of characters: trimming, splitting, prefixes and
//! joining, each stated as a spec function and carried out on a `Vec<char>`
//! by index ranges.
use vstd::prelude::*;

use crate::outside::push_char;

verus! {

/// Unicode `White_Space`, the set of characters that `char::is_whitespace`
/// accepts (and so `str::trim` removes and `str::split_whitespace` splits at).
pub open spec fn is_ws(c: char) -> bool {
    let n = c as u32;
    ||| 0x09 <= n <= 0x0D
    ||| n == 0x20
    ||| n == 0x85
    ||| n == 0xA0
    ||| n == 0x1680
    ||| 0x2000 <= n <= 0x200A
    ||| n == 0x2028
    ||| n == 0x2029
    ||| n == 0x202F
    ||| n == 0x205F
    ||| n == 0x3000
}

/// A class of characters: white space, or one given character.
#[derive(Clone, Copy, PartialEq, Eq, Structural)]
pub enum CharClass {
    Whitespace,
    Is(char),
}

/// Whether `c` belongs to the class `k`.
pub open spec fn in_class(k: CharClass, c: char) -> bool {
    match k {
        CharClass::Whitespace => is_ws(c),
        CharClass::Is(d) => c == d,
    }
}

/// `s` without the characters of class `k` at its start.
pub open spec fn strip_start(s: Seq<char>, k: CharClass) -> Seq<char>
    decreases s.len(),
{
    if s.len() > 0 && in_class(k, s[0]) {
        strip_start(s.drop_first(), k)
    } else {
        s
    }
}

/// `s` without the characters of class `k` at its end.
pub open spec fn strip_end(s: Seq<char>, k: CharClass) -> Seq<char>
    decreases s.len(),
{
    if s.len() > 0 && in_class(k, s.last()) {
        strip_end(s.drop_last(), k)
    } else {
        s
    }
}

/// `s` without the characters of class `k` at either end
/// (`str::trim_matches` with that class as pattern).
pub open spec fn strip_both(s: Seq<char>, k: CharClass) -> Seq<char> {
    strip_start(strip_end(s, k), k)
}

/// `str::trim`: `s` without white space at either end.
pub open spec fn trim(s: Seq<char>) -> Seq<char> {
    strip_both(s, CharClass::Whitespace)
}

/// `str::trim_matches(c)`: `s` without the character `c` at either end.
pub open spec fn trim_char(s: Seq<char>, c: char) -> Seq<char> {
    strip_both(s, CharClass::Is(c))
}

/// `str::split` with a character class as pattern: the pieces of `s`
/// between the characters of class `k`, in order, empty pieces included.
/// There is always at least one piece.
pub open spec fn split_on(s: Seq<char>, k: CharClass) -> Seq<Seq<char>>
    decreases s.len(),
{
    if s.len() == 0 {
        seq![Seq::<char>::empty()]
    } else {
        let pieces = split_on(s.drop_last(), k);
        if in_class(k, s.last()) {
            pieces.push(Seq::<char>::empty())
        } else {
            pieces.update(pieces.len() - 1, pieces.last().push(s.last()))
        }
    }
}

/// The pieces of `ps` that are not empty, in order.
pub open spec fn non_empty(ps: Seq<Seq<char>>) -> Seq<Seq<char>>
    decreases ps.len(),
{
    if ps.len() == 0 {
        ps
    } else if ps.last().len() > 0 {
        non_empty(ps.drop_last()).push(ps.last())
    } else {
        non_empty(ps.drop_last())
    }
}

/// `str::split_whitespace`: the non-empty runs of non-white-space characters.
pub open spec fn words(s: Seq<char>) -> Seq<Seq<char>> {
    non_empty(split_on(s, CharClass::Whitespace))
}

/// The lines of `s`: the pieces between its `'\n'` characters.
pub open spec fn lines(s: Seq<char>) -> Seq<Seq<char>> {
    split_on(s, CharClass::Is('\n'))
}

/// `s` begins with `p`.
pub open spec fn has_prefix(s: Seq<char>, p: Seq<char>) -> bool {
    p.len() <= s.len() && s.take(p.len() as int) == p
}

/// `s` ends with `p`.
pub open spec fn has_suffix(s: Seq<char>, p: Seq<char>) -> bool {
    p.len() <= s.len() && s.skip(s.len() - p.len()) == p
}

/// `str::trim_end_matches(p)` for a non-empty `p`: `s` with `p` removed from
/// its end as many times as it ends with it.
pub open spec fn strip_suffix_all(s: Seq<char>, p: Seq<char>) -> Seq<char>
    decreases s.len(),
{
    if p.len() > 0 && has_suffix(s, p) {
        strip_suffix_all(s.take(s.len() - p.len()), p)
    } else {
        s
    }
}

/// The pieces of `ps` with `sep` between each two of them (`join`).
pub open spec fn join(ps: Seq<Seq<char>>, sep: Seq<char>) -> Seq<char>
    decreases ps.len(),
{
    if ps.len() == 0 {
        Seq::<char>::empty()
    } else if ps.len() == 1 {
        ps[0]
    } else {
        join(ps.drop_last(), sep) + sep + ps.last()
    }
}

/// `s` without any occurrence of the character `c`.
pub open spec fn remove_char(s: Seq<char>, c: char) -> Seq<char>
    decreases s.len(),
{
    if s.len() == 0 {
        s
    } else if s.last() == c {
        remove_char(s.drop_last(), c)
    } else {
        remove_char(s.drop_last(), c).push(s.last())
    }
}

/// Splitting never gives an empty list of pieces.
pub proof fn lemma_split_on_len(s: Seq<char>, k: CharClass)
    ensures
        split_on(s, k).len() >= 1,
    decreases s.len(),
{
    if s.len() > 0 {
        lemma_split_on_len(s.drop_last(), k);
    }
}

/// Whether `c` belongs to the class `k`.
pub fn char_in_class(k: CharClass, c: char) -> (b: bool)
    ensures
        b == in_class(k, c),
{
    match k {
        CharClass::Whitespace => {
            let n = c as u32;
            (0x09 <= n && n <= 0x0D) || n == 0x20 || n == 0x85 || n == 0xA0 || n == 0x1680 || (
            0x2000 <= n && n <= 0x200A) || n == 0x2028 || n == 0x2029 || n == 0x202F || n
                == 0x205F || n == 0x3000
        },
        CharClass::Is(d) => c == d,
    }
}

/// The characters of `s`, in order.
pub fn chars_of(s: &str) -> (v: Vec<char>)
    ensures
        v@ == s@,
{
    let mut v: Vec<char> = Vec::new();
    for c in it: s.chars()
        invariant
            v@ == it.seq().take(it.index() as int),
            it.seq() == s@,
    {
        v.push(c);
    }
    v
}

/// The bounds, within `lo..hi`, of `v[lo..hi]` without the characters of
/// class `k` at either end.
pub fn strip_range(v: &Vec<char>, lo: usize, hi: usize, k: CharClass) -> (r: (usize, usize))
    requires
        lo <= hi <= v.len(),
    ensures
        lo <= r.0 <= r.1 <= hi,
        v@.subrange(r.0 as int, r.1 as int) == strip_both(v@.subrange(lo as int, hi as int), k),
{
    let mut b = hi;
    while b > lo && char_in_class(k, v[b - 1])
        invariant
            lo <= b <= hi <= v.len(),
            strip_end(v@.subrange(lo as int, hi as int), k) == strip_end(
                v@.subrange(lo as int, b as int),
                k,
            ),
        decreases b,
    {
        assert(v@.subrange(lo as int, b as int).drop_last() =~= v@.subrange(
            lo as int,
            b - 1 as int,
        ));
        b = b - 1;
    }
    let mut a = lo;
    while a < b && char_in_class(k, v[a])
        invariant
            lo <= a <= b <= hi <= v.len(),
            strip_end(v@.subrange(lo as int, hi as int), k) == v@.subrange(lo as int, b as int),
            strip_both(v@.subrange(lo as int, hi as int), k) == strip_start(
                v@.subrange(a as int, b as int),
                k,
            ),
        decreases b - a,
    {
        assert(v@.subrange(a as int, b as int).drop_first() =~= v@.subrange(
            a + 1 as int,
            b as int,
        ));
        a = a + 1;
    }
    (a, b)
}

/// The bounds of the pieces of `v[lo..hi]` between the characters of class `k`.
pub fn split_range(v: &Vec<char>, lo: usize, hi: usize, k: CharClass) -> (r: Vec<(usize, usize)>)
    requires
        lo <= hi <= v.len(),
    ensures
        r.len() == split_on(v@.subrange(lo as int, hi as int), k).len(),
        forall|j: int|
            #![trigger r[j]]
            0 <= j < r.len() ==> lo <= r[j].0 <= r[j].1 <= hi && v@.subrange(
                r[j].0 as int,
                r[j].1 as int,
            ) == split_on(v@.subrange(lo as int, hi as int), k)[j],
{
    let mut r: Vec<(usize, usize)> = Vec::new();
    let mut start = lo;
    let mut i = lo;
    assert(v@.subrange(lo as int, lo as int) =~= Seq::<char>::empty());
    while i < hi
        invariant
            lo <= start <= i <= hi <= v.len(),
            r.len() + 1 == split_on(v@.subrange(lo as int, i as int), k).len(),
            forall|j: int|
                #![trigger r[j]]
                0 <= j < r.len() ==> lo <= r[j].0 <= r[j].1 <= i && v@.subrange(
                    r[j].0 as int,
                    r[j].1 as int,
                ) == split_on(v@.subrange(lo as int, i as int), k)[j],
            v@.subrange(start as int, i as int) == split_on(
                v@.subrange(lo as int, i as int),
                k,
            ).last(),
        decreases hi - i,
    {
        let ghost prev = split_on(v@.subrange(lo as int, i as int), k);
        proof {
            lemma_split_on_len(v@.subrange(lo as int, i as int), k);
        }
        assert(v@.subrange(lo as int, i + 1 as int).drop_last() =~= v@.subrange(
            lo as int,
            i as int,
        ));
        if char_in_class(k, v[i]) {
            r.push((start, i));
            start = i + 1;
            assert(v@.subrange(start as int, i + 1 as int) =~= Seq::<char>::empty());
        } else {
            assert(v@.subrange(start as int, i + 1 as int) =~= v@.subrange(
                start as int,
                i as int,
            ).push(v@[i as int]));
        }
        i = i + 1;
    }
    r.push((start, hi));
    r
}

/// Whether `v[lo..hi]` begins with `p`.
pub fn has_prefix_range(v: &Vec<char>, lo: usize, hi: usize, p: &Vec<char>) -> (b: bool)
    requires
        lo <= hi <= v.len(),
    ensures
        b == has_prefix(v@.subrange(lo as int, hi as int), p@),
{
    if p.len() > hi - lo {
        return false;
    }
    let mut j: usize = 0;
    while j < p.len()
        invariant
            j <= p.len() <= hi - lo,
            lo <= hi <= v.len(),
            forall|m: int| 0 <= m < j ==> v@[lo + m] == p@[m],
        decreases p.len() - j,
    {
        if v[lo + j] != p[j] {
            assert(v@.subrange(lo as int, hi as int).take(p@.len() as int)[j as int] != p@[j as int]);
            return false;
        }
        j = j + 1;
    }
    assert(v@.subrange(lo as int, hi as int).take(p@.len() as int) =~= p@);
    true
}

/// The text `v[lo..hi]`.
pub fn string_of_range(v: &Vec<char>, lo: usize, hi: usize) -> (s: String)
    requires
        lo <= hi <= v.len(),
    ensures
        s@ == v@.subrange(lo as int, hi as int),
{
    let mut s = String::new();
    let mut i = lo;
    while i < hi
        invariant
            lo <= i <= hi <= v.len(),
            s@ == v@.subrange(lo as int, i as int),
        decreases hi - i,
    {
        push_char(&mut s, v[i]);
        assert(v@.subrange(lo as int, i + 1 as int) =~= v@.subrange(lo as int, i as int).push(
            v@[i as int],
        ));
        i = i + 1;
    }
    s
}


/// Whether `v[lo..hi]` ends with `p`.
pub fn has_suffix_range(v: &Vec<char>, lo: usize, hi: usize, p: &Vec<char>) -> (b: bool)
    requires
        lo <= hi <= v.len(),
    ensures
        b == has_suffix(v@.subrange(lo as int, hi as int), p@),
{
    if p.len() > hi - lo {
        return false;
    }
    let start = hi - p.len();
    let mut j: usize = 0;
    while j < p.len()
        invariant
            j <= p.len() <= hi - lo,
            start == hi - p.len(),
            lo <= hi <= v.len(),
            forall|m: int| 0 <= m < j ==> v@[start + m] == p@[m],
        decreases p.len() - j,
    {
        if v[start + j] != p[j] {
            assert(v@.subrange(lo as int, hi as int).skip(hi - lo - p@.len())[j as int]
                != p@[j as int]);
            return false;
        }
        j = j + 1;
    }
    assert(v@.subrange(lo as int, hi as int).skip(hi - lo - p@.len()) =~= p@);
    true
}

/// The end, within `lo..hi`, of `v[lo..hi]` with the non-empty `p` removed
/// from its end as many times as it ends with it.
pub fn strip_suffix_all_range(v: &Vec<char>, lo: usize, hi: usize, p: &Vec<char>) -> (e: usize)
    requires
        lo <= hi <= v.len(),
        p.len() > 0,
    ensures
        lo <= e <= hi,
        v@.subrange(lo as int, e as int) == strip_suffix_all(v@.subrange(lo as int, hi as int), p@),
{
    let mut e = hi;
    while has_suffix_range(v, lo, e, p)
        invariant
            lo <= e <= hi <= v.len(),
            p.len() > 0,
            strip_suffix_all(v@.subrange(lo as int, hi as int), p@) == strip_suffix_all(
                v@.subrange(lo as int, e as int),
                p@,
            ),
        decreases e,
    {
        assert(v@.subrange(lo as int, e as int).take(e - lo - p@.len()) =~= v@.subrange(
            lo as int,
            e - p@.len(),
        ));
        e = e - p.len();
    }
    e
}


/// No character `c` is left in `s` once `c` is removed from it.
pub proof fn lemma_remove_char_absent(s: Seq<char>, c: char)
    ensures
        !remove_char(s, c).contains(c),
    decreases s.len(),
{
    if s.len() > 0 {
        lemma_remove_char_absent(s.drop_last(), c);
        let r = remove_char(s.drop_last(), c);
        if s.last() != c {
            assert forall|i: int| 0 <= i < r.push(s.last()).len() implies r.push(s.last())[i] != c by {
                if i < r.len() {
                    assert(r[i] != c);
                }
            }
        }
    }
}

/// Once `p` is removed from the end of `s` as often as `s` ends with it, the
/// text no longer ends with `p`.
pub proof fn lemma_strip_suffix_all_done(s: Seq<char>, p: Seq<char>)
    requires
        p.len() > 0,
    ensures
        !has_suffix(strip_suffix_all(s, p), p),
    decreases s.len(),
{
    if has_suffix(s, p) {
        lemma_strip_suffix_all_done(s.take(s.len() - p.len()), p);
    }
}


/// The characters of `s` that belong to the class `k`, in order.
pub open spec fn class_chars(s: Seq<char>, k: CharClass) -> Seq<char> {
    s.filter(|c: char| in_class(k, c))
}

/// The pieces `ps` with the separators `seps` between them: the first piece,
/// then the first separator and the second piece, and so on.
pub open spec fn weave(ps: Seq<Seq<char>>, seps: Seq<char>) -> Seq<char>
    decreases ps.len(),
{
    if ps.len() == 0 {
        Seq::<char>::empty()
    } else if ps.len() == 1 {
        ps[0]
    } else {
        weave(ps.drop_last(), seps.drop_last()) + seq![seps.last()] + ps.last()
    }
}

proof fn lemma_weave_extend_last(ps: Seq<Seq<char>>, seps: Seq<char>, c: char)
    requires
        ps.len() >= 1,
        seps.len() + 1 == ps.len(),
    ensures
        weave(ps.update(ps.len() - 1, ps.last().push(c)), seps) == weave(ps, seps).push(c),
{
    let qs = ps.update(ps.len() - 1, ps.last().push(c));
    if ps.len() >= 2 {
        assert(qs.drop_last() =~= ps.drop_last());
    }
}

/// Splitting at a class cuts `s` at each of its characters of that class and
/// nowhere else: the pieces hold no character of the class, there is one
/// piece more than there are such characters, and putting those characters
/// back between the pieces, in order, gives `s`.
pub proof fn law_split_on(s: Seq<char>, k: CharClass)
    ensures
        split_on(s, k).len() == class_chars(s, k).len() + 1,
        weave(split_on(s, k), class_chars(s, k)) == s,
        forall|i: int, j: int|
            0 <= i < split_on(s, k).len() && 0 <= j < split_on(s, k)[i].len() ==> !in_class(
                k,
                #[trigger] split_on(s, k)[i][j],
            ),
    decreases s.len(),
{
    reveal(Seq::filter);
    if s.len() == 0 {
        assert(class_chars(s, k) =~= Seq::<char>::empty());
    } else {
        let t = s.drop_last();
        let c = s.last();
        law_split_on(t, k);
        let ps = split_on(t, k);
        let seps = class_chars(t, k);
        assert(s.drop_last() =~= t);
        if in_class(k, c) {
            assert(class_chars(s, k) == seps.push(c));
            let qs = ps.push(Seq::<char>::empty());
            assert(qs.drop_last() =~= ps);
            assert(seps.push(c).drop_last() =~= seps);
            assert(weave(qs, seps.push(c)) =~= s);
            assert forall|i: int, j: int|
                0 <= i < qs.len() && 0 <= j < qs[i].len() implies !in_class(k, #[trigger] qs[i][j]) by {
                assert(qs[i] == ps[i]);
            }
        } else {
            assert(class_chars(s, k) == seps);
            lemma_weave_extend_last(ps, seps, c);
            let qs = ps.update(ps.len() - 1, ps.last().push(c));
            assert(weave(qs, seps) =~= s);
            assert forall|i: int, j: int|
                0 <= i < qs.len() && 0 <= j < qs[i].len() implies !in_class(k, #[trigger] qs[i][j]) by {
                if i < ps.len() - 1 {
                    assert(qs[i] == ps[i]);
                } else if j < ps.last().len() {
                    assert(qs[i][j] == ps[ps.len() - 1][j]);
                }
            }
        }
    }
}

/// `non_empty` keeps exactly the pieces that are not empty, in order.
pub proof fn law_non_empty(ps: Seq<Seq<char>>)
    ensures
        non_empty(ps) == ps.filter(|p: Seq<char>| p.len() > 0),
    decreases ps.len(),
{
    reveal(Seq::filter);
    if ps.len() > 0 {
        law_non_empty(ps.drop_last());
    }
}

/// Removing a character keeps exactly the other characters, in order.
pub proof fn law_remove_char(s: Seq<char>, c: char)
    ensures
        remove_char(s, c) == s.filter(|x: char| x != c),
    decreases s.len(),
{
    reveal(Seq::filter);
    if s.len() > 0 {
        law_remove_char(s.drop_last(), c);
    }
}

/// `join` puts the separator between each two pieces and nowhere else: it
/// is empty for no pieces, the piece itself for one, and one more piece adds
/// the separator and that piece at the end.
pub proof fn law_join(ps: Seq<Seq<char>>, sep: Seq<char>, x: Seq<char>)
    ensures
        join(Seq::<Seq<char>>::empty(), sep) == Seq::<char>::empty(),
        join(seq![x], sep) == x,
        ps.len() > 0 ==> join(ps.push(x), sep) == join(ps, sep) + sep + x,
{
    assert(ps.push(x).drop_last() =~= ps);
}

proof fn lemma_strip_end(s: Seq<char>, k: CharClass)
    ensures
        exists|j: int|
            0 <= j <= s.len() && strip_end(s, k) == s.take(j) && (forall|m: int|
                j <= m < s.len() ==> in_class(k, #[trigger] s[m])) && (j > 0 ==> !in_class(
                k,
                s[j - 1],
            )),
    decreases s.len(),
{
    if s.len() > 0 && in_class(k, s.last()) {
        lemma_strip_end(s.drop_last(), k);
        let t = s.drop_last();
        let j = choose|j: int|
            0 <= j <= t.len() && strip_end(t, k) == t.take(j) && (forall|m: int|
                j <= m < t.len() ==> in_class(k, #[trigger] t[m])) && (j > 0 ==> !in_class(
                k,
                t[j - 1],
            ));
        assert(t.take(j) =~= s.take(j));
        assert forall|m: int| j <= m < s.len() implies in_class(k, #[trigger] s[m]) by {
            if m < t.len() {
                assert(s[m] == t[m]);
            }
        }
    } else {
        assert(s.take(s.len() as int) =~= s);
    }
}

proof fn lemma_strip_start(s: Seq<char>, k: CharClass)
    ensures
        exists|i: int|
            0 <= i <= s.len() && strip_start(s, k) == s.skip(i) && (forall|m: int|
                0 <= m < i ==> in_class(k, #[trigger] s[m])) && (i < s.len() ==> !in_class(
                k,
                s[i],
            )),
    decreases s.len(),
{
    if s.len() > 0 && in_class(k, s[0]) {
        lemma_strip_start(s.drop_first(), k);
        let t = s.drop_first();
        let i = choose|i: int|
            0 <= i <= t.len() && strip_start(t, k) == t.skip(i) && (forall|m: int|
                0 <= m < i ==> in_class(k, #[trigger] t[m])) && (i < t.len() ==> !in_class(
                k,
                t[i],
            ));
        assert(t.skip(i) =~= s.skip(i + 1));
        assert forall|m: int| 0 <= m < i + 1 implies in_class(k, #[trigger] s[m]) by {
            if m > 0 {
                assert(s[m] == t[m - 1]);
            }
        }
    } else {
        assert(s.skip(0) =~= s);
    }
}

/// Stripping a class from both ends leaves the stretch of `s` between its
/// first and its last character outside the class: every character before
/// and after that stretch is in the class, and the stretch, unless empty,
/// begins and ends outside it.
pub proof fn law_strip_both(s: Seq<char>, k: CharClass)
    ensures
        exists|i: int, j: int|
            0 <= i <= j <= s.len() && #[trigger] strip_both(s, k) == s.subrange(i, j) && (forall|
                m: int,
            |
                0 <= m < i ==> in_class(k, #[trigger] s[m])) && (forall|m: int|
                j <= m < s.len() ==> in_class(k, #[trigger] s[m])) && (i < j ==> !in_class(
                k,
                s[i],
            ) && !in_class(k, s[j - 1])),
{
    lemma_strip_end(s, k);
    let j = choose|j: int|
        0 <= j <= s.len() && strip_end(s, k) == s.take(j) && (forall|m: int|
            j <= m < s.len() ==> in_class(k, #[trigger] s[m])) && (j > 0 ==> !in_class(
            k,
            s[j - 1],
        ));
    let t = s.take(j);
    lemma_strip_start(t, k);
    let i = choose|i: int|
        0 <= i <= t.len() && strip_start(t, k) == t.skip(i) && (forall|m: int|
            0 <= m < i ==> in_class(k, #[trigger] t[m])) && (i < t.len() ==> !in_class(k, t[i]));
    assert(t.skip(i) =~= s.subrange(i, j));
    assert forall|m: int| 0 <= m < i implies in_class(k, #[trigger] s[m]) by {
        assert(s[m] == t[m]);
    }
    if i < j {
        assert(s[i] == t[i]);
    }
}


/// A text with no character of the class is a single piece.
pub proof fn lemma_split_on_none(s: Seq<char>, k: CharClass)
    requires
        forall|i: int| 0 <= i < s.len() ==> !in_class(k, #[trigger] s[i]),
    ensures
        split_on(s, k) == seq![s],
    decreases s.len(),
{
    if s.len() > 0 {
        lemma_split_on_none(s.drop_last(), k);
        assert(s.drop_last().push(s.last()) =~= s);
        assert(seq![s.drop_last()].update(0, s.drop_last().push(s.last())) =~= seq![s]);
    } else {
        assert(s =~= Seq::<char>::empty());
    }
}


/// `trim` leaves the stretch of `s` between its first and its last
/// character that is not white space: everything before and after it is
/// white space, and the stretch, unless empty, begins and ends with a
/// character that is not.
pub proof fn law_trim(s: Seq<char>)
    ensures
        exists|i: int, j: int|
            0 <= i <= j <= s.len() && #[trigger] trim(s) == s.subrange(i, j) && (forall|m: int|
                0 <= m < i ==> is_ws(#[trigger] s[m])) && (forall|m: int|
                j <= m < s.len() ==> is_ws(#[trigger] s[m])) && (i < j ==> !is_ws(s[i]) && !is_ws(
                s[j - 1],
            )),
{
    law_strip_both(s, CharClass::Whitespace);
}

/// `trim_char(s, c)` leaves the stretch of `s` between its first and its
/// last character other than `c`: everything before and after it is `c`,
/// and the stretch, unless empty, begins and ends with another character.
pub proof fn law_trim_char(s: Seq<char>, c: char)
    ensures
        exists|i: int, j: int|
            0 <= i <= j <= s.len() && #[trigger] trim_char(s, c) == s.subrange(i, j) && (forall|
                m: int,
            |
                0 <= m < i ==> #[trigger] s[m] == c) && (forall|m: int|
                j <= m < s.len() ==> #[trigger] s[m] == c) && (i < j ==> s[i] != c && s[j - 1]
                != c),
{
    law_strip_both(s, CharClass::Is(c));
}

/// The words of `s` are the pieces between its white-space characters that
/// are not empty, in order; so no word is empty or holds white space.
pub proof fn law_words(s: Seq<char>)
    ensures
        words(s) == split_on(s, CharClass::Whitespace).filter(|p: Seq<char>| p.len() > 0),
        forall|i: int, j: int|
            0 <= i < words(s).len() && 0 <= j < words(s)[i].len() ==> !is_ws(
                #[trigger] words(s)[i][j],
            ),
        forall|i: int| 0 <= i < words(s).len() ==> #[trigger] words(s)[i].len() > 0,
{
    let ps = split_on(s, CharClass::Whitespace);
    law_non_empty(ps);
    law_split_on(s, CharClass::Whitespace);
    lemma_non_empty_pieces(ps);
}

proof fn lemma_non_empty_pieces(ps: Seq<Seq<char>>)
    ensures
        forall|i: int| 0 <= i < non_empty(ps).len() ==> #[trigger] non_empty(ps)[i].len() > 0,
        forall|i: int|
            0 <= i < non_empty(ps).len() ==> exists|k: int|
                0 <= k < ps.len() && #[trigger] ps[k] == #[trigger] non_empty(ps)[i],
    decreases ps.len(),
{
    if ps.len() > 0 {
        lemma_non_empty_pieces(ps.drop_last());
        let r = non_empty(ps.drop_last());
        assert forall|i: int| 0 <= i < non_empty(ps).len() implies exists|k: int|
            0 <= k < ps.len() && #[trigger] ps[k] == #[trigger] non_empty(ps)[i] by {
            if i < r.len() {
                let k = choose|k: int|
                    0 <= k < ps.drop_last().len() && #[trigger] ps.drop_last()[k] == #[trigger] r[i];
                assert(ps[k] == ps.drop_last()[k]);
                assert(non_empty(ps)[i] == r[i]);
            } else {
                assert(ps[ps.len() - 1] == non_empty(ps)[i]);
            }
        }
        assert forall|i: int| 0 <= i < non_empty(ps).len() implies #[trigger] non_empty(ps)[i].len()
            > 0 by {
            if i < r.len() {
                assert(non_empty(ps)[i] == r[i]);
            }
        }
    }
}

/// The lines of `s` are cut at each `'\n'` and nowhere else: no line holds
/// `'\n'`, there is one line more than there are `'\n'`, and putting a
/// `'\n'` back between each two lines gives `s`.
pub proof fn law_lines(s: Seq<char>)
    ensures
        lines(s).len() == class_chars(s, CharClass::Is('\n')).len() + 1,
        weave(lines(s), class_chars(s, CharClass::Is('\n'))) == s,
        forall|i: int, j: int|
            0 <= i < lines(s).len() && 0 <= j < lines(s)[i].len() ==> #[trigger] lines(s)[i][j]
                != '\n',
{
    law_split_on(s, CharClass::Is('\n'));
}

} // verus!
