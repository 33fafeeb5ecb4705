//! Character-level text handling for the HUD's wire and page: whitespace
//! trimming, separator and line splitting, decimal parsing and substring
//! replacement, each stated over the text's characters and proved against
//! that statement.

use vstd::prelude::*;

verus! {

// ------------------------------------------------------------------ specs

/// Unicode `White_Space`, which is what `char::is_whitespace` and `str::trim`
/// go by.
pub open spec fn is_whitespace(c: char) -> bool {
    ||| ('\u{9}' <= c && c <= '\u{d}')
    ||| c == ' '
    ||| c == '\u{85}'
    ||| c == '\u{a0}'
    ||| c == '\u{1680}'
    ||| ('\u{2000}' <= c && c <= '\u{200a}')
    ||| c == '\u{2028}'
    ||| c == '\u{2029}'
    ||| c == '\u{202f}'
    ||| c == '\u{205f}'
    ||| c == '\u{3000}'
}

/// `s` without its leading whitespace.
pub open spec fn trim_start(s: Seq<char>) -> Seq<char>
    decreases s.len(),
{
    if s.len() > 0 && is_whitespace(s[0]) {
        trim_start(s.drop_first())
    } else {
        s
    }
}

/// `s` without its trailing whitespace.
pub open spec fn trim_end(s: Seq<char>) -> Seq<char>
    decreases s.len(),
{
    if s.len() > 0 && is_whitespace(s.last()) {
        trim_end(s.drop_last())
    } else {
        s
    }
}

/// `s` without whitespace at either end, as `str::trim` gives it.
pub open spec fn trim(s: Seq<char>) -> Seq<char> {
    trim_end(trim_start(s))
}

/// The pieces of `s` between occurrences of `sep`, as `str::split` yields
/// them: always at least one piece, and an empty piece wherever two
/// separators meet or one stands at an end.
pub open spec fn split(s: Seq<char>, sep: char) -> Seq<Seq<char>>
    decreases s.len(),
{
    if s.len() == 0 {
        seq![Seq::<char>::empty()]
    } else {
        let prev = split(s.drop_last(), sep);
        if s.last() == sep {
            prev.push(Seq::<char>::empty())
        } else {
            prev.update(prev.len() - 1, prev.last().push(s.last()))
        }
    }
}

/// Index of the first `c` in `s`, if any.
pub open spec fn find_char(s: Seq<char>, c: char) -> Option<int>
    decreases s.len(),
{
    if s.len() == 0 {
        None
    } else if s[0] == c {
        Some(0)
    } else {
        match find_char(s.drop_first(), c) {
            Some(k) => Some(k + 1),
            None => None,
        }
    }
}

/// `s` with one trailing carriage return removed.
pub open spec fn strip_cr(s: Seq<char>) -> Seq<char> {
    if s.len() > 0 && s.last() == '\r' {
        s.drop_last()
    } else {
        s
    }
}

/// The lines of `s`, as `str::lines` yields them: split at `\n`, a `\r`
/// directly before a `\n` dropped with it, and a final line ending optional.
pub open spec fn lines(s: Seq<char>) -> Seq<Seq<char>> {
    let parts = split(s, '\n');
    let body = parts.drop_last().map_values(|p: Seq<char>| strip_cr(p));
    if parts.last().len() == 0 {
        body
    } else {
        body.push(parts.last())
    }
}

pub open spec fn is_digit(c: char) -> bool {
    '0' <= c && c <= '9'
}

pub open spec fn all_digits(s: Seq<char>) -> bool {
    forall|i: int| 0 <= i < s.len() ==> #[trigger] is_digit(s[i])
}

/// The number a run of decimal digits spells.
pub open spec fn digits_value(s: Seq<char>) -> nat
    decreases s.len(),
{
    if s.len() == 0 {
        0
    } else {
        10 * digits_value(s.drop_last()) + ((s.last() as int) - ('0' as int)) as nat
    }
}

/// What `str::parse::<usize>` accepts: an optional `+`, then one or more
/// decimal digits spelling a number that fits.
pub open spec fn parse_usize(s: Seq<char>) -> Option<usize> {
    let d = if s.len() > 0 && s[0] == '+' {
        s.drop_first()
    } else {
        s
    };
    if d.len() == 0 || !all_digits(d) || digits_value(d) > usize::MAX {
        None
    } else {
        Some(digits_value(d) as usize)
    }
}

// ----------------------------------------------------------------- lemmas

pub proof fn lemma_trim_start(s: Seq<char>, k: int)
    requires
        0 <= k <= s.len(),
        forall|j: int| 0 <= j < k ==> is_whitespace(#[trigger] s[j]),
        k < s.len() ==> !is_whitespace(s[k]),
    ensures
        trim_start(s) == s.skip(k),
    decreases k,
{
    if k == 0 {
        assert(s.skip(0) =~= s);
    } else {
        let t = s.drop_first();
        assert forall|j: int| 0 <= j < k - 1 implies is_whitespace(#[trigger] t[j]) by {
            assert(t[j] == s[j + 1]);
        }
        lemma_trim_start(t, k - 1);
        assert(t.skip(k - 1) =~= s.skip(k));
    }
}

pub proof fn lemma_trim_end(s: Seq<char>, k: int)
    requires
        0 <= k <= s.len(),
        forall|j: int| k <= j < s.len() ==> is_whitespace(#[trigger] s[j]),
        k > 0 ==> !is_whitespace(s[k - 1]),
    ensures
        trim_end(s) == s.take(k),
    decreases s.len() - k,
{
    if k == s.len() {
        assert(s.take(k) =~= s);
    } else {
        let t = s.drop_last();
        assert forall|j: int| k <= j < t.len() implies is_whitespace(#[trigger] t[j]) by {
            assert(t[j] == s[j]);
        }
        lemma_trim_end(t, k);
        assert(t.take(k) =~= s.take(k));
    }
}

pub proof fn lemma_split_nonempty(s: Seq<char>, sep: char)
    ensures
        split(s, sep).len() >= 1,
    decreases s.len(),
{
    if s.len() > 0 {
        lemma_split_nonempty(s.drop_last(), sep);
    }
}

pub proof fn lemma_find_char(s: Seq<char>, c: char, k: int)
    requires
        0 <= k <= s.len(),
        forall|j: int| 0 <= j < k ==> #[trigger] s[j] != c,
        k < s.len() ==> s[k] == c,
    ensures
        find_char(s, c) == (if k < s.len() {
            Some(k)
        } else {
            None::<int>
        }),
    decreases k,
{
    if k > 0 {
        let t = s.drop_first();
        assert forall|j: int| 0 <= j < k - 1 implies #[trigger] t[j] != c by {
            assert(t[j] == s[j + 1]);
        }
        lemma_find_char(t, c, k - 1);
    }
}

pub proof fn lemma_digits_monotone(s: Seq<char>, k: int)
    requires
        0 <= k <= s.len(),
    ensures
        digits_value(s.take(k)) <= digits_value(s),
    decreases s.len(),
{
    if k < s.len() {
        lemma_digits_monotone(s.drop_last(), k);
        assert(s.drop_last().take(k) =~= s.take(k));
    } else {
        assert(s.take(k) =~= s);
    }
}

// ------------------------------------------------------------------- exec

/// The characters of `s`, in order.
pub fn chars_of(s: &str) -> (v: Vec<char>)
    ensures
        v@ == s@,
{
    let mut v: Vec<char> = Vec::new();
    for c in it: s.chars()
        invariant
            v@ == it.seq().take(it.index() as int),
            it.seq() == s@,
    {
        v.push(c);
    }
    v
}

/// Whether `c` is Unicode whitespace.
pub fn is_whitespace_char(c: char) -> (b: bool)
    ensures
        b == is_whitespace(c),
{
    ('\u{9}' <= c && c <= '\u{d}') || c == ' ' || c == '\u{85}' || c == '\u{a0}' || c
        == '\u{1680}' || ('\u{2000}' <= c && c <= '\u{200a}') || c == '\u{2028}' || c
        == '\u{2029}' || c == '\u{202f}' || c == '\u{205f}' || c == '\u{3000}'
}

/// Bounds of `v[lo..hi]` with whitespace trimmed from both ends.
pub fn trim_bounds(v: &Vec<char>, lo: usize, hi: usize) -> (r: (usize, usize))
    requires
        lo <= hi <= v@.len(),
    ensures
        lo <= r.0 <= r.1 <= hi,
        v@.subrange(r.0 as int, r.1 as int) == trim(v@.subrange(lo as int, hi as int)),
{
    let ghost s = v@.subrange(lo as int, hi as int);
    let mut a = lo;
    while a < hi && is_whitespace_char(v[a])
        invariant
            lo <= a <= hi <= v@.len(),
            s == v@.subrange(lo as int, hi as int),
            forall|j: int| lo <= j < a ==> is_whitespace(#[trigger] v@[j]),
        decreases hi - a,
    {
        a = a + 1;
    }
    proof {
        assert forall|j: int| 0 <= j < a - lo implies is_whitespace(#[trigger] s[j]) by {
            assert(s[j] == v@[lo + j]);
        }
        lemma_trim_start(s, a - lo);
    }
    let mut b = hi;
    while b > a && is_whitespace_char(v[b - 1])
        invariant
            lo <= a <= b <= hi <= v@.len(),
            forall|j: int| b <= j < hi ==> is_whitespace(#[trigger] v@[j]),
        decreases b - a,
    {
        b = b - 1;
    }
    proof {
        let t = s.skip(a - lo);
        assert(t =~= v@.subrange(a as int, hi as int));
        assert forall|j: int| b - a <= j < t.len() implies is_whitespace(#[trigger] t[j]) by {
            assert(t[j] == v@[a + j]);
        }
        lemma_trim_end(t, b - a);
        assert(t.take(b - a) =~= v@.subrange(a as int, b as int));
    }
    (a, b)
}

/// Whether `v[lo..hi]` spells exactly `lit`.
pub fn range_eq(v: &Vec<char>, lo: usize, hi: usize, lit: &str) -> (b: bool)
    requires
        lo <= hi <= v@.len(),
    ensures
        b == (v@.subrange(lo as int, hi as int) == lit@),
{
    let n = lit.unicode_len();
    if hi - lo != n {
        proof {
            assert(v@.subrange(lo as int, hi as int).len() != lit@.len());
        }
        return false;
    }
    let mut i: usize = 0;
    while i < n
        invariant
            lo <= hi <= v@.len(),
            hi - lo == n,
            n == lit@.len(),
            i <= n,
            forall|j: int| 0 <= j < i ==> v@[lo + j] == #[trigger] lit@[j],
        decreases n - i,
    {
        if v[lo + i] != lit.get_char(i) {
            proof {
                assert(v@.subrange(lo as int, hi as int)[i as int] != lit@[i as int]);
            }
            return false;
        }
        i = i + 1;
    }
    proof {
        assert(v@.subrange(lo as int, hi as int) =~= lit@);
    }
    true
}

/// Index of the first `c` in `v[lo..hi]`, or `hi` when there is none.
pub fn find_in(v: &Vec<char>, lo: usize, hi: usize, c: char) -> (k: usize)
    requires
        lo <= hi <= v@.len(),
    ensures
        lo <= k <= hi,
        find_char(v@.subrange(lo as int, hi as int), c) == (if k < hi {
            Some(k - lo)
        } else {
            None::<int>
        }),
{
    let mut k = lo;
    while k < hi && v[k] != c
        invariant
            lo <= k <= hi <= v@.len(),
            forall|j: int| lo <= j < k ==> #[trigger] v@[j] != c,
        decreases hi - k,
    {
        k = k + 1;
    }
    proof {
        let s = v@.subrange(lo as int, hi as int);
        assert forall|j: int| 0 <= j < k - lo implies #[trigger] s[j] != c by {
            assert(s[j] == v@[lo + j]);
        }
        lemma_find_char(s, c, k - lo);
    }
    k
}

/// `v[lo..hi]` read as `str::parse::<usize>` reads it.
pub fn parse_usize_in(v: &Vec<char>, lo: usize, hi: usize) -> (r: Option<usize>)
    requires
        lo <= hi <= v@.len(),
    ensures
        r == parse_usize(v@.subrange(lo as int, hi as int)),
{
    let ghost s = v@.subrange(lo as int, hi as int);
    let start = if lo < hi && v[lo] == '+' {
        lo + 1
    } else {
        lo
    };
    let ghost d = v@.subrange(start as int, hi as int);
    proof {
        if lo < hi && v@[lo as int] == '+' {
            assert(d =~= s.drop_first());
        } else {
            assert(d =~= s);
        }
    }
    if start == hi {
        return None;
    }
    let mut acc: usize = 0;
    let mut i = start;
    while i < hi
        invariant
            start <= i <= hi <= v@.len(),
            d == v@.subrange(start as int, hi as int),
            s == v@.subrange(lo as int, hi as int),
            d == (if s.len() > 0 && s[0] == '+' {
                s.drop_first()
            } else {
                s
            }),
            d.len() > 0,
            all_digits(d.take(i - start)),
            acc as nat == digits_value(d.take(i - start)),
        decreases hi - i,
    {
        let c = v[i];
        let ghost t = d.take(i - start + 1);
        proof {
            assert(t.drop_last() =~= d.take(i - start));
            assert(t.last() == c);
        }
        if !('0' <= c && c <= '9') {
            proof {
                assert(!is_digit(d[i - start]));
            }
            return None;
        }
        let digit = (c as u32 - '0' as u32) as usize;
        let next = match acc.checked_mul(10) {
            Some(m) => m.checked_add(digit),
            None => None,
        };
        match next {
            Some(n) => {
                proof {
                    assert(all_digits(t)) by {
                        assert forall|j: int| 0 <= j < t.len() implies #[trigger] is_digit(t[j]) by {
                            if j < t.len() - 1 {
                                assert(t[j] == d.take(i - start)[j]);
                            }
                        }
                    }
                }
                acc = n;
            },
            None => {
                proof {
                    assert(digits_value(t) > usize::MAX);
                    lemma_digits_monotone(d, i - start + 1);
                }
                return None;
            },
        }
        i = i + 1;
    }
    proof {
        assert(d.take(hi - start) =~= d);
    }
    Some(acc)
}

/// The pieces of `v` named by a list of bounds.
pub open spec fn segs(v: Seq<char>, b: Seq<(usize, usize)>) -> Seq<Seq<char>> {
    b.map_values(|p: (usize, usize)| v.subrange(p.0 as int, p.1 as int))
}

/// Bounds of the pieces of `v[lo..hi]` between occurrences of `sep`.
pub fn split_bounds(v: &Vec<char>, lo: usize, hi: usize, sep: char) -> (b: Vec<(usize, usize)>)
    requires
        lo <= hi <= v@.len(),
    ensures
        b@.len() >= 1,
        forall|k: int| 0 <= k < b@.len() ==> lo <= (#[trigger] b@[k]).0 <= b@[k].1 <= hi,
        segs(v@, b@) == split(v@.subrange(lo as int, hi as int), sep),
{
    let mut bounds: Vec<(usize, usize)> = Vec::new();
    let mut cur = lo;
    let mut i = lo;
    proof {
        assert(v@.subrange(lo as int, lo as int) =~= Seq::<char>::empty());
        assert(segs(v@, bounds@).push(v@.subrange(cur as int, i as int)) =~= seq![
            Seq::<char>::empty(),
        ]);
    }
    while i < hi
        invariant
            lo <= cur <= i <= hi <= v@.len(),
            forall|k: int| 0 <= k < bounds@.len() ==> lo <= (#[trigger] bounds@[k]).0 <= bounds@[k].1 <= cur,
            split(v@.subrange(lo as int, i as int), sep) == segs(v@, bounds@).push(
                v@.subrange(cur as int, i as int),
            ),
        decreases hi - i,
    {
        let ghost t = v@.subrange(lo as int, i as int);
        let ghost t2 = v@.subrange(lo as int, i + 1);
        let ghost old_segs = segs(v@, bounds@);
        proof {
            assert(t2.drop_last() =~= t);
            assert(t2.last() == v@[i as int]);
        }
        if v[i] == sep {
            bounds.push((cur, i));
            proof {
                assert(segs(v@, bounds@) =~= old_segs.push(v@.subrange(cur as int, i as int)));
                assert(v@.subrange(i + 1, i + 1) =~= Seq::<char>::empty());
            }
            cur = i + 1;
        } else {
            proof {
                assert(v@.subrange(cur as int, i as int).push(v@[i as int]) =~= v@.subrange(
                    cur as int,
                    i + 1,
                ));
                assert(old_segs.push(v@.subrange(cur as int, i as int)).update(
                    old_segs.len() as int,
                    v@.subrange(cur as int, i + 1),
                ) =~= old_segs.push(v@.subrange(cur as int, i + 1)));
            }
        }
        i = i + 1;
    }
    let ghost before = segs(v@, bounds@);
    bounds.push((cur, hi));
    proof {
        assert(segs(v@, bounds@) =~= before.push(v@.subrange(cur as int, hi as int)));
    }
    bounds
}

/// Whether two strings hold the same characters.
pub fn str_eq(a: &str, b: &str) -> (r: bool)
    ensures
        r == (a@ == b@),
{
    let x = chars_of(a);
    let y = chars_of(b);
    if x.len() != y.len() {
        proof {
            assert(a@.len() != b@.len());
        }
        return false;
    }
    let mut i: usize = 0;
    while i < x.len()
        invariant
            x@ == a@,
            y@ == b@,
            x@.len() == y@.len(),
            i <= x@.len(),
            forall|j: int| 0 <= j < i ==> x@[j] == #[trigger] y@[j],
        decreases x@.len() - i,
    {
        if x[i] != y[i] {
            return false;
        }
        i = i + 1;
    }
    proof {
        assert(x@ =~= y@);
    }
    true
}

/// Each character of `s` followed by `w`.
pub open spec fn interleave(s: Seq<char>, w: Seq<char>) -> Seq<char>
    decreases s.len(),
{
    if s.len() == 0 {
        Seq::empty()
    } else {
        seq![s[0]] + w + interleave(s.drop_first(), w)
    }
}

/// Every occurrence of `pat` in `s` replaced by `with`, as `str::replace`
/// does: scanning left to right without overlaps and without rescanning what
/// was put in; an empty `pat` matches before every character and at the end.
pub open spec fn replace_all(s: Seq<char>, pat: Seq<char>, with: Seq<char>) -> Seq<char>
    decreases s.len(),
{
    if pat.len() == 0 {
        with + interleave(s, with)
    } else if s.len() < pat.len() {
        s
    } else if s.take(pat.len() as int) == pat {
        with + replace_all(s.skip(pat.len() as int), pat, with)
    } else {
        seq![s[0]] + replace_all(s.drop_first(), pat, with)
    }
}

fn interleave_str(s: &str, with: &str) -> (out: String)
    ensures
        out@ == with@ + interleave(s@, with@),
{
    let v = chars_of(s);
    let n = v.len();
    let mut out = String::new();
    out.append(with);
    let mut i: usize = 0;
    proof {
        assert(v@.skip(0) =~= v@);
    }
    while i < n
        invariant
            v@ == s@,
            n == v@.len(),
            i <= n,
            out@ + interleave(v@.skip(i as int), with@) == with@ + interleave(v@, with@),
        decreases n - i,
    {
        let ghost rest = v@.skip(i as int);
        proof {
            assert(rest.drop_first() =~= v@.skip(i + 1));
            assert(rest[0] == v@[i as int]);
            assert(s@.subrange(i as int, i + 1) =~= seq![v@[i as int]]);
        }
        let ghost before = out@;
        out.append(s.substring_char(i, i + 1));
        out.append(with);
        proof {
            assert(out@ + interleave(v@.skip(i + 1), with@) =~= before + interleave(rest, with@));
        }
        i = i + 1;
    }
    proof {
        assert(v@.skip(n as int) =~= Seq::<char>::empty());
        assert(out@ + interleave(v@.skip(n as int), with@) =~= out@);
    }
    out
}

/// `s` with every occurrence of `pat` replaced by `with`.
pub fn replace_str(s: &str, pat: &str, with: &str) -> (out: String)
    ensures
        out@ == replace_all(s@, pat@, with@),
{
    let plen = pat.unicode_len();
    if plen == 0 {
        return interleave_str(s, with);
    }
    let v = chars_of(s);
    let n = v.len();
    let mut out = String::new();
    let mut run: usize = 0;
    let mut i: usize = 0;
    proof {
        assert(v@.skip(0) =~= v@);
        assert(out@ + v@.subrange(0, 0) + replace_all(v@, pat@, with@) =~= replace_all(
            v@,
            pat@,
            with@,
        ));
    }
    while i < n && plen <= n - i
        invariant
            v@ == s@,
            n == v@.len(),
            plen == pat@.len(),
            plen > 0,
            run <= i <= n,
            replace_all(s@, pat@, with@) == out@ + v@.subrange(run as int, i as int) + replace_all(
                v@.skip(i as int),
                pat@,
                with@,
            ),
        decreases n - i,
    {
        let ghost tail = v@.skip(i as int);
        proof {
            assert(tail.take(plen as int) =~= v@.subrange(i as int, i + plen));
        }
        if range_eq(&v, i, i + plen, pat) {
            let ghost o = out@;
            out.append(s.substring_char(run, i));
            out.append(with);
            proof {
                assert(tail.skip(plen as int) =~= v@.skip(i + plen));
                assert(v@.subrange(i + plen, i + plen) =~= Seq::<char>::empty());
                assert(out@ + v@.subrange(i + plen, i + plen) =~= out@);
                assert(o + v@.subrange(run as int, i as int) + (with@ + replace_all(
                    v@.skip(i + plen),
                    pat@,
                    with@,
                )) =~= out@ + replace_all(v@.skip(i + plen), pat@, with@));
            }
            i = i + plen;
            run = i;
        } else {
            proof {
                assert(tail.drop_first() =~= v@.skip(i + 1));
                assert(tail[0] == v@[i as int]);
                assert(out@ + v@.subrange(run as int, i as int) + (seq![v@[i as int]] + replace_all(
                    v@.skip(i + 1),
                    pat@,
                    with@,
                )) =~= out@ + v@.subrange(run as int, i + 1) + replace_all(
                    v@.skip(i + 1),
                    pat@,
                    with@,
                ));
            }
            i = i + 1;
        }
    }
    proof {
        assert(v@.skip(i as int).len() < plen);
        assert(out@ + v@.subrange(run as int, i as int) + v@.skip(i as int) =~= out@
            + v@.subrange(run as int, n as int));
    }
    out.append(s.substring_char(run, n));
    out
}

} // verus!
