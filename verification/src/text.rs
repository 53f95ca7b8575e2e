//! String utilities shared by the rest of the library: character-level
//! equality, whitespace trimming, splitting and joining on a separator
//! character, and removal of every occurrence of a pattern.

use vstd::prelude::*;

verus! {

/// The views of a sequence of owned strings.
pub open spec fn views_of(v: Seq<String>) -> Seq<Seq<char>> {
    v.map_values(|s: String| s@)
}

/// The characters that `str::trim` removes: Unicode `White_Space`.
pub open spec fn is_ws_char(c: char) -> bool {
    ||| c == '\u{0009}'
    ||| c == '\u{000a}'
    ||| c == '\u{000b}'
    ||| c == '\u{000c}'
    ||| c == '\u{000d}'
    ||| c == '\u{0020}'
    ||| c == '\u{0085}'
    ||| c == '\u{00a0}'
    ||| c == '\u{1680}'
    ||| c == '\u{2000}'
    ||| c == '\u{2001}'
    ||| c == '\u{2002}'
    ||| c == '\u{2003}'
    ||| c == '\u{2004}'
    ||| c == '\u{2005}'
    ||| c == '\u{2006}'
    ||| c == '\u{2007}'
    ||| c == '\u{2008}'
    ||| c == '\u{2009}'
    ||| c == '\u{200a}'
    ||| c == '\u{2028}'
    ||| c == '\u{2029}'
    ||| c == '\u{202f}'
    ||| c == '\u{205f}'
    ||| c == '\u{3000}'
}

/// Whether `c` is whitespace in the sense of [`is_ws_char`].
pub fn is_ws(c: char) -> (r: bool)
    ensures
        r == is_ws_char(c),
{
    c == '\u{0009}' || c == '\u{000a}' || c == '\u{000b}' || c == '\u{000c}' || c == '\u{000d}'
        || c == '\u{0020}' || c == '\u{0085}' || c == '\u{00a0}' || c == '\u{1680}' || c
        == '\u{2000}' || c == '\u{2001}' || c == '\u{2002}' || c == '\u{2003}' || c == '\u{2004}'
        || c == '\u{2005}' || c == '\u{2006}' || c == '\u{2007}' || c == '\u{2008}' || c
        == '\u{2009}' || c == '\u{200a}' || c == '\u{2028}' || c == '\u{2029}' || c == '\u{202f}'
        || c == '\u{205f}' || c == '\u{3000}'
}

/// Character-for-character equality of two string slices.
pub fn str_eq(a: &str, b: &str) -> (r: bool)
    ensures
        r == (a@ == b@),
{
    let na = a.unicode_len();
    let nb = b.unicode_len();
    if na != nb {
        return false;
    }
    let mut i: usize = 0;
    while i < na
        invariant
            na == a@.len(),
            na == b@.len(),
            i <= na,
            forall|j: int| 0 <= j < i ==> a@[j] == b@[j],
        decreases na - i,
    {
        if a.get_char(i) != b.get_char(i) {
            return false;
        }
        i = i + 1;
    }
    proof {
        assert(a@ =~= b@);
    }
    true
}

/// `s` with leading whitespace removed.
pub open spec fn trim_front(s: Seq<char>) -> Seq<char>
    decreases s.len(),
{
    if s.len() > 0 && is_ws_char(s[0]) {
        trim_front(s.skip(1))
    } else {
        s
    }
}

/// `s` with trailing whitespace removed.
pub open spec fn trim_back(s: Seq<char>) -> Seq<char>
    decreases s.len(),
{
    if s.len() > 0 && is_ws_char(s.last()) {
        trim_back(s.take(s.len() - 1))
    } else {
        s
    }
}

/// `s` with surrounding whitespace removed, as `str::trim` does.
pub open spec fn trim_spec(s: Seq<char>) -> Seq<char> {
    trim_back(trim_front(s))
}

proof fn lemma_trim_front_is_skip(s: Seq<char>, a: int)
    requires
        0 <= a <= s.len(),
        forall|j: int| 0 <= j < a ==> is_ws_char(s[j]),
        a < s.len() ==> !is_ws_char(s[a]),
    ensures
        trim_front(s) == s.skip(a),
    decreases a,
{
    if a == 0 {
        assert(s.skip(0) =~= s);
    } else {
        lemma_trim_front_is_skip(s.skip(1), a - 1);
        assert(s.skip(1).skip(a - 1) =~= s.skip(a));
    }
}

proof fn lemma_trim_back_is_take(s: Seq<char>, b: int)
    requires
        0 <= b <= s.len(),
        forall|j: int| b <= j < s.len() ==> is_ws_char(s[j]),
        b > 0 ==> !is_ws_char(s[b - 1]),
    ensures
        trim_back(s) == s.take(b),
    decreases s.len() - b,
{
    if b == s.len() {
        assert(s.take(b) =~= s);
        if s.len() > 0 {
            assert(!is_ws_char(s.last()));
        }
    } else {
        assert(is_ws_char(s.last()));
        lemma_trim_back_is_take(s.take(s.len() - 1), b);
        assert(s.take(s.len() - 1).take(b) =~= s.take(b));
    }
}

/// `s` with surrounding whitespace removed.
pub fn trim(s: &str) -> (r: String)
    ensures
        r@ == trim_spec(s@),
{
    let n = s.unicode_len();
    let mut a: usize = 0;
    while a < n && is_ws(s.get_char(a))
        invariant
            n == s@.len(),
            a <= n,
            forall|j: int| 0 <= j < a ==> is_ws_char(s@[j]),
        decreases n - a,
    {
        a = a + 1;
    }
    proof {
        lemma_trim_front_is_skip(s@, a as int);
    }
    if a == n {
        // all whitespace
        let r = String::new();
        proof {
            assert(s@.skip(a as int) =~= Seq::<char>::empty());
        }
        return r;
    }
    // s@[a] is not whitespace, so the last non-whitespace index b exists, b >= a
    let mut b: usize = n;
    while b > a + 1 && is_ws(s.get_char(b - 1))
        invariant
            n == s@.len(),
            a < b <= n,
            forall|j: int| b <= j < n ==> is_ws_char(s@[j]),
        decreases b,
    {
        b = b - 1;
    }
    let r = String::from_str(s.substring_char(a, b));
    proof {
        let tail = s@.skip(a as int);
        if b == a + 1 && is_ws_char(s@[b - 1]) {
            // impossible: s@[a] is not whitespace
            assert(false);
        }
        lemma_trim_back_is_take(tail, b - a);
        assert(forall|j: int| #![auto] 0 <= j < tail.len() ==> tail[j] == s@[a + j]);
        assert(tail.take(b - a) =~= s@.subrange(a as int, b as int));
    }
    r
}

/// The pieces of `s` between occurrences of `sep`, in order, as
/// `str::split` yields them: one piece more than there are separators,
/// so a leading, trailing or doubled separator yields an empty piece.
pub open spec fn split_char(s: Seq<char>, sep: char) -> Seq<Seq<char>>
    decreases s.len(),
{
    if s.len() == 0 {
        seq![s]
    } else if s[0] == sep {
        seq![Seq::<char>::empty()] + split_char(s.skip(1), sep)
    } else {
        let rest = split_char(s.skip(1), sep);
        seq![seq![s[0]] + rest[0]] + rest.skip(1)
    }
}

/// A separator-free string splits into itself alone.
pub proof fn lemma_split_char_no_sep(s: Seq<char>, sep: char)
    requires
        forall|j: int| 0 <= j < s.len() ==> s[j] != sep,
    ensures
        split_char(s, sep) =~~= seq![s],
    decreases s.len(),
{
    if s.len() > 0 {
        lemma_split_char_no_sep(s.skip(1), sep);
        let rest = split_char(s.skip(1), sep);
        assert(seq![s[0]] + rest[0] =~= s);
    }
}

/// Splitting at the first separator: the part before it is the first
/// piece, and the rest of the pieces split the part after it.
pub proof fn lemma_split_char_first(s: Seq<char>, sep: char, i: int)
    requires
        0 <= i < s.len(),
        s[i] == sep,
        forall|j: int| 0 <= j < i ==> s[j] != sep,
    ensures
        split_char(s, sep) =~~= seq![s.take(i)] + split_char(s.skip(i + 1), sep),
        split_char(s, sep).len() >= 2,
    decreases i,
{
    if i == 0 {
        assert(s.take(0) =~= Seq::<char>::empty());
        assert(split_char(s.skip(1), sep).len() >= 1) by {
            lemma_split_char_len_ge_one(s.skip(1), sep);
        }
    } else {
        lemma_split_char_first(s.skip(1), sep, i - 1);
        let rest = split_char(s.skip(1), sep);
        assert(s.skip(1).take(i - 1) =~= s.take(i).skip(1));
        assert(seq![s[0]] + rest[0] =~= s.take(i));
        assert(s.skip(1).skip(i) =~= s.skip(i + 1));
    }
}

proof fn lemma_split_char_len_ge_one(s: Seq<char>, sep: char)
    ensures
        split_char(s, sep).len() >= 1,
    decreases s.len(),
{
    if s.len() > 0 {
        lemma_split_char_len_ge_one(s.skip(1), sep);
    }
}

/// The last piece of the split: everything after the final `sep`,
/// or all of `s` when `sep` does not occur.
pub proof fn lemma_split_char_last(s: Seq<char>, sep: char, k: int)
    requires
        0 <= k <= s.len(),
        forall|j: int| k <= j < s.len() ==> s[j] != sep,
        k > 0 ==> s[k - 1] == sep,
    ensures
        split_char(s, sep).len() >= 1,
        k > 0 ==> split_char(s, sep).len() >= 2,
        split_char(s, sep).last() == s.skip(k),
    decreases s.len(),
{
    lemma_split_char_len_ge_one(s, sep);
    if s.len() == 0 {
        assert(s.skip(0) =~= s);
    } else if s[0] == sep {
        assert(k > 0);
        lemma_split_char_last(s.skip(1), sep, k - 1);
        let rest = split_char(s.skip(1), sep);
        assert((seq![Seq::<char>::empty()] + rest).last() == rest.last());
        assert(s.skip(1).skip(k - 1) =~= s.skip(k));
    } else {
        if k == 0 {
            lemma_split_char_no_sep(s, sep);
            assert(s.skip(0) =~= s);
        } else {
            assert(k >= 2);
            lemma_split_char_last(s.skip(1), sep, k - 1);
            let rest = split_char(s.skip(1), sep);
            let whole = seq![seq![s[0]] + rest[0]] + rest.skip(1);
            assert(rest.len() >= 2);
            assert(whole.len() == rest.len());
            assert(whole.last() == rest.skip(1).last());
            assert(rest.skip(1).last() == rest.last());
            assert(s.skip(1).skip(k - 1) =~= s.skip(k));
        }
    }
}

/// Every occurrence of `pat` removed from `s`, scanning left to right
/// without overlap, as `str::replace(pat, "")` does.
pub open spec fn strip_all(s: Seq<char>, pat: Seq<char>) -> Seq<char>
    decreases s.len(),
{
    if s.len() == 0 {
        s
    } else if 0 < pat.len() <= s.len() && s.take(pat.len() as int) == pat {
        strip_all(s.skip(pat.len() as int), pat)
    } else {
        seq![s[0]] + strip_all(s.skip(1), pat)
    }
}

/// Whether `pat` occurs in `s` starting at position `i`.
pub fn matches_at(s: &str, i: usize, pat: &str) -> (r: bool)
    requires
        i <= s@.len(),
    ensures
        r == (i + pat@.len() <= s@.len() && s@.subrange(i as int, i + pat@.len()) == pat@),
{
    let n = s.unicode_len();
    let m = pat.unicode_len();
    if m > n - i {
        return false;
    }
    let mut j: usize = 0;
    while j < m
        invariant
            n == s@.len(),
            m == pat@.len(),
            i + m <= n,
            j <= m,
            forall|q: int| 0 <= q < j ==> s@[i + q] == pat@[q],
        decreases m - j,
    {
        if s.get_char(i + j) != pat.get_char(j) {
            proof {
                assert(s@.subrange(i as int, i + pat@.len())[j as int] == s@[i + j]);
            }
            return false;
        }
        j = j + 1;
    }
    proof {
        assert(s@.subrange(i as int, i + pat@.len()) =~= pat@);
    }
    true
}

/// `s` with every occurrence of `pat` removed.
pub fn remove_all(s: &str, pat: &str) -> (r: String)
    requires
        pat@.len() > 0,
    ensures
        r@ == strip_all(s@, pat@),
{
    let n = s.unicode_len();
    let m = pat.unicode_len();
    let mut out = String::new();
    let mut i: usize = 0;
    proof {
        assert(s@.skip(0) =~= s@);
        assert(Seq::<char>::empty() + strip_all(s@, pat@) =~= strip_all(s@, pat@));
    }
    while i < n
        invariant
            n == s@.len(),
            m == pat@.len(),
            m > 0,
            i <= n,
            out@ + strip_all(s@.skip(i as int), pat@) == strip_all(s@, pat@),
        decreases n - i,
    {
        let ghost tail = s@.skip(i as int);
        if matches_at(s, i, pat) {
            proof {
                assert(tail.take(m as int) =~= s@.subrange(i as int, i + m));
                assert(tail.skip(m as int) =~= s@.skip(i + m));
            }
            i = i + m;
        } else {
            let c = s.get_char(i);
            proof {
                if 0 < m <= tail.len() && tail.take(m as int) == pat@ {
                    assert(tail.take(m as int) =~= s@.subrange(i as int, i + m));
                    assert(false);
                }
                assert(tail.skip(1) =~= s@.skip(i + 1));
                assert(strip_all(tail, pat@) == seq![s@[i as int]] + strip_all(
                    s@.skip(i + 1),
                    pat@,
                ));
            }
            push_char(&mut out, c);
            proof {
                assert(out@ + strip_all(s@.skip(i + 1), pat@) =~= strip_all(s@, pat@));
            }
            i = i + 1;
        }
    }
    proof {
        assert(s@.skip(n as int) =~= Seq::<char>::empty());
        assert(out@ + Seq::<char>::empty() =~= out@);
    }
    out
}

/// The elements of `ts` in order, each followed by one `sep`.
pub open spec fn each_followed_by(ts: Seq<Seq<char>>, sep: char) -> Seq<char>
    decreases ts.len(),
{
    if ts.len() == 0 {
        Seq::empty()
    } else {
        ts[0].push(sep) + each_followed_by(ts.skip(1), sep)
    }
}

/// The elements of `ts` in order with one `sep` between neighbours,
/// as `[T]::join` produces.
pub open spec fn join_with(ts: Seq<Seq<char>>, sep: char) -> Seq<char>
    decreases ts.len(),
{
    if ts.len() == 0 {
        Seq::empty()
    } else if ts.len() == 1 {
        ts[0]
    } else {
        ts[0].push(sep) + join_with(ts.skip(1), sep)
    }
}

/// Appending one element appends its characters and one separator.
pub proof fn lemma_each_followed_by_snoc(ts: Seq<Seq<char>>, x: Seq<char>, sep: char)
    ensures
        each_followed_by(ts.push(x), sep) == each_followed_by(ts, sep) + x.push(sep),
    decreases ts.len(),
{
    if ts.len() == 0 {
        assert(ts.push(x)[0] == x);
        assert(ts.push(x).skip(1) =~~= Seq::<Seq<char>>::empty());
        assert(each_followed_by(ts.push(x).skip(1), sep) == Seq::<char>::empty());
        assert(each_followed_by(ts.push(x), sep) == x.push(sep) + Seq::<char>::empty());
        assert(x.push(sep) + Seq::<char>::empty() =~= x.push(sep));
        assert(each_followed_by(ts, sep) + x.push(sep) =~= x.push(sep));
    } else {
        lemma_each_followed_by_snoc(ts.skip(1), x, sep);
        assert(ts.push(x).skip(1) =~~= ts.skip(1).push(x));
        assert(each_followed_by(ts.push(x), sep) == ts[0].push(sep) + each_followed_by(
            ts.skip(1).push(x),
            sep,
        ));
        assert(ts[0].push(sep) + (each_followed_by(ts.skip(1), sep) + x.push(sep)) =~= (ts[0].push(
            sep,
        ) + each_followed_by(ts.skip(1), sep)) + x.push(sep));
    }
}

/// Appending one element to a non-empty join appends one separator and
/// its characters.
pub proof fn lemma_join_with_snoc(ts: Seq<Seq<char>>, x: Seq<char>, sep: char)
    requires
        ts.len() >= 1,
    ensures
        join_with(ts.push(x), sep) == join_with(ts, sep) + seq![sep] + x,
    decreases ts.len(),
{
    if ts.len() == 1 {
        assert(ts.push(x).skip(1) =~~= seq![x]);
        assert(join_with(ts.push(x), sep) == ts[0].push(sep) + join_with(seq![x], sep));
        assert(ts[0].push(sep) + x =~= (ts[0] + seq![sep]) + x);
    } else {
        lemma_join_with_snoc(ts.skip(1), x, sep);
        assert(ts.push(x).skip(1) =~~= ts.skip(1).push(x));
        assert(join_with(ts.push(x), sep) == ts[0].push(sep) + join_with(ts.skip(1).push(x), sep));
        assert(ts[0].push(sep) + (join_with(ts.skip(1), sep) + seq![sep] + x) =~= ((ts[0].push(sep)
            + join_with(ts.skip(1), sep)) + seq![sep]) + x);
    }
}

/// Relies on `String::push`: appends one character at the end.
#[verifier::external_body]
pub fn push_char(s: &mut String, c: char)
    ensures
        final(s)@ == old(s)@.push(c),
{
    s.push(c);
}

} // verus!
