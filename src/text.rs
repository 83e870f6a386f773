//! Character-level helpers on tag names and tag values: splitting on a
//! separator, trimming white space and reading a decimal number.
use vstd::prelude::*;

verus! {

/// Relies on `str::chars`, collected into a vector: the characters of `s`, in order.
#[verifier::external_body]
pub(crate) fn chars_of(s: &str) -> (r: Vec<char>)
    ensures
        r@ == s@,
{
    s.chars().collect()
}

/// Relies on `String: FromIterator<char>`: the string made of `cs`, in order.
#[verifier::external_body]
pub(crate) fn string_of(cs: &Vec<char>) -> (r: String)
    ensures
        r@ == cs@,
{
    cs.iter().collect()
}

/// The characters that carry the Unicode `White_Space` property, the set that
/// `char::is_whitespace` and `str::trim` go by.
pub open spec fn is_space(c: char) -> bool {
    ('\u{9}' <= c && c <= '\u{d}') || c == ' ' || c == '\u{85}' || c == '\u{a0}'
        || c == '\u{1680}' || ('\u{2000}' <= c && c <= '\u{200a}') || c == '\u{2028}'
        || c == '\u{2029}' || c == '\u{202f}' || c == '\u{205f}' || c == '\u{3000}'
}

pub fn char_is_space(c: char) -> (r: bool)
    ensures
        r == is_space(c),
{
    ('\u{9}' <= c && c <= '\u{d}') || c == ' ' || c == '\u{85}' || c == '\u{a0}'
        || c == '\u{1680}' || ('\u{2000}' <= c && c <= '\u{200a}') || c == '\u{2028}'
        || c == '\u{2029}' || c == '\u{202f}' || c == '\u{205f}' || c == '\u{3000}'
}

/// `s` without its leading white space.
pub open spec fn trim_start(s: Seq<char>) -> Seq<char>
    decreases s.len(),
{
    if s.len() > 0 && is_space(s[0]) {
        trim_start(s.drop_first())
    } else {
        s
    }
}

/// `s` without its trailing white space.
pub open spec fn trim_end(s: Seq<char>) -> Seq<char>
    decreases s.len(),
{
    if s.len() > 0 && is_space(s.last()) {
        trim_end(s.drop_last())
    } else {
        s
    }
}

/// `s` without white space at either end.
pub open spec fn trimmed(s: Seq<char>) -> Seq<char> {
    trim_end(trim_start(s))
}

/// The pieces of `s` between occurrences of `sep`, in order; a string without
/// `sep` is one piece, and the empty string is one empty piece.
pub open spec fn split_on(s: Seq<char>, sep: char) -> Seq<Seq<char>>
    decreases s.len(),
{
    if s.len() == 0 {
        seq![Seq::<char>::empty()]
    } else {
        let rest = split_on(s.drop_last(), sep);
        if s.last() == sep {
            rest.push(Seq::<char>::empty())
        } else {
            rest.update(rest.len() - 1, rest.last().push(s.last()))
        }
    }
}

proof fn lemma_trim_start_at(s: Seq<char>, k: int)
    requires
        0 <= k <= s.len(),
        forall|i: int| 0 <= i < k ==> is_space(#[trigger] s[i]),
        k == s.len() || !is_space(s[k]),
    ensures
        trim_start(s) == s.subrange(k, s.len() as int),
    decreases k,
{
    if k == 0 {
        assert(s.subrange(0, s.len() as int) =~= s);
    } else {
        let t = s.drop_first();
        assert forall|i: int| 0 <= i < k - 1 implies is_space(#[trigger] t[i]) by {
            assert(t[i] == s[i + 1]);
        }
        lemma_trim_start_at(t, k - 1);
        assert(t.subrange(k - 1, t.len() as int) =~= s.subrange(k, s.len() as int));
    }
}

proof fn lemma_trim_end_at(s: Seq<char>, k: int)
    requires
        0 <= k <= s.len(),
        forall|i: int| k <= i < s.len() ==> is_space(#[trigger] s[i]),
        k == 0 || !is_space(s[k - 1]),
    ensures
        trim_end(s) == s.subrange(0, k),
    decreases s.len() - k,
{
    if k == s.len() {
        assert(s.subrange(0, k) =~= s);
    } else {
        let t = s.drop_last();
        assert forall|i: int| k <= i < t.len() implies is_space(#[trigger] t[i]) by {
            assert(t[i] == s[i]);
        }
        lemma_trim_end_at(t, k);
        assert(t.subrange(0, k) =~= s.subrange(0, k));
    }
}

/// The characters of `cs` from `lo` up to `hi`, as a string.
fn string_of_range(cs: &Vec<char>, lo: usize, hi: usize) -> (r: String)
    requires
        lo <= hi <= cs.len(),
    ensures
        r@ == cs@.subrange(lo as int, hi as int),
{
    let mut part: Vec<char> = Vec::new();
    let mut i: usize = lo;
    while i < hi
        invariant
            lo <= i <= hi <= cs.len(),
            part@ == cs@.subrange(lo as int, i as int),
        decreases hi - i,
    {
        part.push(cs[i]);
        assert(part@ =~= cs@.subrange(lo as int, i + 1));
        i = i + 1;
    }
    string_of(&part)
}

/// Trims the characters of `cs` from `lo` up to `hi`.
fn trim_range(cs: &Vec<char>, lo: usize, hi: usize) -> (r: String)
    requires
        lo <= hi <= cs.len(),
    ensures
        r@ == trimmed(cs@.subrange(lo as int, hi as int)),
{
    let ghost s = cs@.subrange(lo as int, hi as int);
    let mut a: usize = lo;
    while a < hi && char_is_space(cs[a])
        invariant
            lo <= a <= hi <= cs.len(),
            forall|i: int| lo <= i < a ==> is_space(#[trigger] cs@[i]),
        decreases hi - a,
    {
        a = a + 1;
    }
    proof {
        assert forall|i: int| 0 <= i < a - lo implies is_space(#[trigger] s[i]) by {
            assert(s[i] == cs@[lo + i]);
        }
        lemma_trim_start_at(s, a - lo);
    }
    let mut b: usize = hi;
    while b > a && char_is_space(cs[b - 1])
        invariant
            lo <= a <= b <= hi <= cs.len(),
            forall|i: int| b <= i < hi ==> is_space(#[trigger] cs@[i]),
        decreases b - a,
    {
        b = b - 1;
    }
    proof {
        let t = s.subrange(a - lo, s.len() as int);
        assert(t =~= cs@.subrange(a as int, hi as int));
        assert forall|i: int| b - a <= i < t.len() implies is_space(#[trigger] t[i]) by {
            assert(t[i] == cs@[a + i]);
        }
        lemma_trim_end_at(t, b - a);
        assert(t.subrange(0, b - a) =~= cs@.subrange(a as int, b as int));
    }
    string_of_range(cs, a, b)
}

/// `s` without white space at either end.
pub fn trim(s: &str) -> (r: String)
    ensures
        r@ == trimmed(s@),
{
    let cs = chars_of(s);
    assert(cs@.subrange(0, cs@.len() as int) =~= cs@);
    trim_range(&cs, 0, cs.len())
}

/// Splits `s` on every `sep` and trims each piece; with `keep_empty` false the
/// pieces that are empty after trimming are left out.
pub fn split_trimmed(s: &str, sep: char, keep_empty: bool) -> (r: Vec<String>)
    ensures
        r@.map_values(|p: String| p@) == pieces_of(s@, sep, keep_empty),
{
    let cs = chars_of(s);
    let mut out: Vec<String> = Vec::new();
    let mut start: usize = 0;
    let mut i: usize = 0;
    proof {
        assert(cs@.subrange(0, 0) =~= Seq::<char>::empty());
        assert(split_on(Seq::<char>::empty(), sep) == seq![Seq::<char>::empty()]);
        assert(split_on(Seq::<char>::empty(), sep).drop_last() =~= Seq::<Seq<char>>::empty());
    }
    while i < cs.len()
        invariant
            0 <= start <= i <= cs.len(),
            cs@ == s@,
            split_on(cs@.subrange(0, i as int), sep).len() >= 1,
            split_on(cs@.subrange(0, i as int), sep).last() == cs@.subrange(
                start as int,
                i as int,
            ),
            out@.map_values(|p: String| p@) == keep_pieces(
                split_on(cs@.subrange(0, i as int), sep).drop_last(),
                keep_empty,
            ),
        decreases cs.len() - i,
    {
        let ghost before = split_on(cs@.subrange(0, i as int), sep);
        let ghost now = cs@.subrange(0, i + 1);
        assert(now.drop_last() =~= cs@.subrange(0, i as int));
        assert(now.last() == cs@[i as int]);
        if cs[i] == sep {
            let piece = trim_range(&cs, start, i);
            let keep = keep_empty || !piece.as_str().is_empty();
            proof {
                assert(split_on(now, sep) == before.push(Seq::<char>::empty()));
                assert(split_on(now, sep).drop_last() =~= before);
                assert(before =~= before.drop_last().push(before.last()));
                lemma_keep_push(before.drop_last(), before.last(), keep_empty);
            }
            if keep {
                let ghost o = out@;
                out.push(piece);
                assert(out@.map_values(|p: String| p@) =~= o.map_values(|p: String| p@).push(
                    piece@,
                ));
            }
            start = i + 1;
            assert(split_on(now, sep).last() =~= cs@.subrange(start as int, i + 1));
        } else {
            proof {
                assert(split_on(now, sep) == before.update(
                    before.len() - 1,
                    before.last().push(cs@[i as int]),
                ));
                assert(split_on(now, sep).drop_last() =~= before.drop_last());
                assert(split_on(now, sep).last() =~= cs@.subrange(start as int, i + 1));
            }
        }
        i = i + 1;
    }
    assert(cs@.subrange(0, cs.len() as int) =~= cs@);
    let piece = trim_range(&cs, start, cs.len());
    let ghost all = split_on(cs@, sep);
    proof {
        assert(all =~= all.drop_last().push(all.last()));
        lemma_keep_push(all.drop_last(), all.last(), keep_empty);
    }
    if keep_empty || !piece.as_str().is_empty() {
        let ghost o = out@;
        out.push(piece);
        assert(out@.map_values(|p: String| p@) =~= o.map_values(|p: String| p@).push(piece@));
    }
    out
}

/// The trimmed pieces of `ps`, in order, with the empty ones left out unless
/// `keep_empty`.
pub open spec fn keep_pieces(ps: Seq<Seq<char>>, keep_empty: bool) -> Seq<Seq<char>>
    decreases ps.len(),
{
    if ps.len() == 0 {
        Seq::empty()
    } else {
        let rest = keep_pieces(ps.drop_last(), keep_empty);
        let t = trimmed(ps.last());
        if keep_empty || t.len() > 0 {
            rest.push(t)
        } else {
            rest
        }
    }
}

/// What `split_trimmed` returns on `s`.
pub open spec fn pieces_of(s: Seq<char>, sep: char, keep_empty: bool) -> Seq<Seq<char>> {
    keep_pieces(split_on(s, sep), keep_empty)
}

proof fn lemma_keep_push(ps: Seq<Seq<char>>, p: Seq<char>, keep_empty: bool)
    ensures
        keep_pieces(ps.push(p), keep_empty) == if keep_empty || trimmed(p).len() > 0 {
            keep_pieces(ps, keep_empty).push(trimmed(p))
        } else {
            keep_pieces(ps, keep_empty)
        },
{
    assert(ps.push(p).drop_last() =~= ps);
}

/// The value of a run of decimal digits.
pub open spec fn digits_value(s: Seq<char>) -> int
    decreases s.len(),
{
    if s.len() == 0 {
        0
    } else {
        digits_value(s.drop_last()) * 10 + (s.last() as int - '0' as int)
    }
}

pub open spec fn is_digit(c: char) -> bool {
    '0' <= c && c <= '9'
}

/// `s` without one leading `+`.
pub open spec fn unsigned_digits(s: Seq<char>) -> Seq<char> {
    if s.len() > 0 && s[0] == '+' {
        s.drop_first()
    } else {
        s
    }
}

/// What `str::parse::<u32>` gives: an optional `+` and at least one ASCII
/// digit, with a value that fits in 32 bits; `None` otherwise.
pub open spec fn parsed_u32(s: Seq<char>) -> Option<u32> {
    let d = unsigned_digits(s);
    if d.len() > 0 && (forall|i: int| 0 <= i < d.len() ==> is_digit(#[trigger] d[i]))
        && digits_value(d) <= u32::MAX {
        Some(digits_value(d) as u32)
    } else {
        None
    }
}

proof fn lemma_digits_grow(s: Seq<char>, j: int)
    requires
        0 <= j <= s.len(),
        forall|i: int| 0 <= i < s.len() ==> is_digit(#[trigger] s[i]),
    ensures
        digits_value(s.subrange(0, j)) <= digits_value(s),
        0 <= digits_value(s),
    decreases s.len(),
{
    if s.len() > 0 {
        let t = s.drop_last();
        if j < s.len() {
            assert(t.subrange(0, j) =~= s.subrange(0, j));
            lemma_digits_grow(t, j);
        } else {
            assert(s.subrange(0, j) =~= s);
            lemma_digits_grow(t, 0);
        }
    } else {
        assert(s.subrange(0, j) =~= s);
    }
}

proof fn lemma_too_large(d: Seq<char>, j: int)
    requires
        0 <= j <= d.len(),
        digits_value(d.subrange(0, j)) > u32::MAX,
    ensures
        !((forall|i: int| 0 <= i < d.len() ==> is_digit(#[trigger] d[i])) && digits_value(d)
            <= u32::MAX),
{
    if forall|i: int| 0 <= i < d.len() ==> is_digit(#[trigger] d[i]) {
        lemma_digits_grow(d, j);
    }
}

/// Reads `s` as `str::parse::<u32>` does.
pub fn parse_u32(s: &str) -> (r: Option<u32>)
    ensures
        r == parsed_u32(s@),
{
    let cs = chars_of(s);
    let mut i: usize = 0;
    if cs.len() > 0 && cs[0] == '+' {
        i = 1;
    }
    let start: usize = i;
    let ghost d = cs@.subrange(start as int, cs.len() as int);
    assert(d =~= unsigned_digits(s@));
    if start == cs.len() {
        return None;
    }
    let mut acc: u64 = 0;
    while i < cs.len()
        invariant
            start <= i <= cs.len(),
            d == cs@.subrange(start as int, cs.len() as int),
            d == unsigned_digits(s@),
            forall|k: int| start <= k < i ==> is_digit(#[trigger] cs@[k]),
            acc as int == digits_value(cs@.subrange(start as int, i as int)),
            acc <= u32::MAX,
        decreases cs.len() - i,
    {
        let c = cs[i];
        if !('0' <= c && c <= '9') {
            assert(d[i - start] == c);
            assert(!is_digit(d[i - start]));
            assert(!(forall|k: int| 0 <= k < d.len() ==> is_digit(#[trigger] d[k])));
            return None;
        }
        let ghost pre = cs@.subrange(start as int, i + 1);
        assert(pre.drop_last() =~= cs@.subrange(start as int, i as int));
        acc = acc * 10 + (c as u64 - '0' as u64);
        assert(acc as int == digits_value(pre));
        if acc > 4294967295 {
            proof {
                assert(d.subrange(0, i + 1 - start) =~= pre);
                lemma_too_large(d, i + 1 - start);
            }
            return None;
        }
        i = i + 1;
    }
    assert(cs@.subrange(start as int, i as int) =~= d);
    Some(acc as u32)
}

/// Whether `a` and `b` hold the same characters.
pub fn same_text(a: &str, b: &str) -> (r: bool)
    ensures
        r == (a@ == b@),
{
    let x = chars_of(a);
    let y = chars_of(b);
    if x.len() != y.len() {
        return false;
    }
    let mut i: usize = 0;
    while i < x.len()
        invariant
            i <= x.len() == y.len(),
            x@ == a@,
            y@ == b@,
            forall|j: int| 0 <= j < i ==> x@[j] == y@[j],
        decreases x.len() - i,
    {
        if x[i] != y[i] {
            return false;
        }
        i = i + 1;
    }
    assert(x@ =~= y@);
    true
}

} // verus!
