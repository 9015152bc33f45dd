//! Verified text utilities: whitespace trimming, substring search,
//! occurrence removal, splitting on a separator and splitting into lines.
//!
//! Everything here is stated over `Seq<char>`, the view of `&str` and
//! `String`.

use vstd::prelude::*;

verus! {

/// The characters Rust's `char::is_whitespace` recognizes (the Unicode
/// `White_Space` property).
pub open spec fn is_wspace(c: char) -> bool {
    ||| c == ' '
    ||| c == '\t'
    ||| c == '\n'
    ||| c == '\u{000B}'
    ||| c == '\u{000C}'
    ||| c == '\r'
    ||| c == '\u{0085}'
    ||| c == '\u{00A0}'
    ||| c == '\u{1680}'
    ||| ('\u{2000}' <= c && c <= '\u{200A}')
    ||| c == '\u{2028}'
    ||| c == '\u{2029}'
    ||| c == '\u{202F}'
    ||| c == '\u{205F}'
    ||| c == '\u{3000}'
}

/// Whitespace test on one character.
pub fn is_space_char(c: char) -> (b: bool)
    ensures
        b == is_wspace(c),
{
    c == ' ' || c == '\t' || c == '\n' || c == '\u{000B}' || c == '\u{000C}' || c == '\r'
        || c == '\u{0085}' || c == '\u{00A0}' || c == '\u{1680}'
        || ('\u{2000}' <= c && c <= '\u{200A}') || c == '\u{2028}' || c == '\u{2029}'
        || c == '\u{202F}' || c == '\u{205F}' || c == '\u{3000}'
}

/// Character-for-character string equality.
pub fn str_eq(a: &str, b: &str) -> (r: bool)
    ensures
        r == (a@ == b@),
{
    let n = a.unicode_len();
    if n != b.unicode_len() {
        return false;
    }
    let mut i: usize = 0;
    while i < n
        invariant
            i <= n,
            n == a@.len(),
            n == b@.len(),
            forall|j: int| 0 <= j < i ==> a@[j] == b@[j],
        decreases n - i,
    {
        if a.get_char(i) != b.get_char(i) {
            return false;
        }
        i += 1;
    }
    proof {
        assert(a@ =~= b@);
    }
    true
}

/// `pat` occurs in `s` starting at position `i`.
pub open spec fn match_at(s: Seq<char>, pat: Seq<char>, i: int) -> bool {
    0 <= i && i + pat.len() <= s.len() && s.subrange(i, i + pat.len() as int) == pat
}

/// `pat` occurs somewhere in `s`.
pub open spec fn spec_contains(s: Seq<char>, pat: Seq<char>) -> bool {
    exists|i: int| match_at(s, pat, i)
}

/// Does `pat` occur in `s` at position `i`?
fn check_match_at(s: &str, pat: &str, i: usize) -> (r: bool)
    requires
        i + pat@.len() <= s@.len(),
        i + pat@.len() <= usize::MAX,
    ensures
        r == match_at(s@, pat@, i as int),
{
    let m = pat.unicode_len();
    let mut j: usize = 0;
    while j < m
        invariant
            j <= m,
            m == pat@.len(),
            i + m <= s@.len(),
            i + m <= usize::MAX,
            forall|k: int| 0 <= k < j ==> s@[i + k] == pat@[k],
        decreases m - j,
    {
        if s.get_char(i + j) != pat.get_char(j) {
            proof {
                assert(s@.subrange(i as int, i + m) != pat@) by {
                    assert(s@.subrange(i as int, i + m)[j as int] == s@[i + j]);
                }
            }
            return false;
        }
        j += 1;
    }
    proof {
        assert(s@.subrange(i as int, i + m) =~= pat@);
    }
    true
}

/// Substring search, as `str::contains` does it.
pub fn str_contains(s: &str, pat: &str) -> (r: bool)
    ensures
        r == spec_contains(s@, pat@),
{
    let n = s.unicode_len();
    let m = pat.unicode_len();
    if m == 0 {
        proof {
            assert(s@.subrange(0, 0) =~= pat@);
            assert(match_at(s@, pat@, 0));
        }
        return true;
    }
    if m > n {
        proof {
            assert(forall|i: int| !match_at(s@, pat@, i));
        }
        return false;
    }
    let mut i: usize = 0;
    while i <= n - m
        invariant
            1 <= m <= n,
            n == s@.len(),
            m == pat@.len(),
            i <= n - m + 1,
            forall|k: int| 0 <= k < i ==> !match_at(s@, pat@, k),
        decreases n - i,
    {
        if check_match_at(s, pat, i) {
            proof {
                assert(match_at(s@, pat@, i as int));
            }
            return true;
        }
        i += 1;
    }
    proof {
        assert(forall|k: int| match_at(s@, pat@, k) ==> 0 <= k <= n - m);
    }
    false
}

/// `s` with its leading whitespace removed.
pub open spec fn trim_front(s: Seq<char>) -> Seq<char>
    decreases s.len(),
{
    if s.len() > 0 && is_wspace(s[0]) {
        trim_front(s.drop_first())
    } else {
        s
    }
}

/// `s` with its trailing whitespace removed.
pub open spec fn trim_back(s: Seq<char>) -> Seq<char>
    decreases s.len(),
{
    if s.len() > 0 && is_wspace(s.last()) {
        trim_back(s.drop_last())
    } else {
        s
    }
}

/// `s` with whitespace removed at both ends, as `str::trim` leaves it.
pub open spec fn spec_trim(s: Seq<char>) -> Seq<char> {
    trim_back(trim_front(s))
}

/// When the first `k` characters are whitespace and the next one is not,
/// trimming the front drops exactly those `k`.
proof fn lemma_trim_front_skip(s: Seq<char>, k: int)
    requires
        0 <= k <= s.len(),
        forall|j: int| 0 <= j < k ==> is_wspace(s[j]),
        k == s.len() || !is_wspace(s[k]),
    ensures
        trim_front(s) == s.skip(k),
    decreases k,
{
    if k == 0 {
        assert(s.skip(0) =~= s);
    } else {
        lemma_trim_front_skip(s.drop_first(), k - 1);
        assert(s.drop_first().skip(k - 1) =~= s.skip(k));
    }
}

/// When the characters from `k` on are whitespace and the one before `k`
/// is not, trimming the back keeps exactly the first `k`.
proof fn lemma_trim_back_take(s: Seq<char>, k: int)
    requires
        0 <= k <= s.len(),
        forall|j: int| k <= j < s.len() ==> is_wspace(s[j]),
        k == 0 || !is_wspace(s[k - 1]),
    ensures
        trim_back(s) == s.take(k),
    decreases s.len() - k,
{
    if k == s.len() {
        assert(s.take(k) =~= s);
    } else {
        lemma_trim_back_take(s.drop_last(), k);
        assert(s.drop_last().take(k) =~= s.take(k));
    }
}

/// Whitespace trimming at both ends, as `str::trim` does it.
pub fn trim_str<'a>(s: &'a str) -> (r: &'a str)
    ensures
        r@ == spec_trim(s@),
{
    let n = s.unicode_len();
    let mut lo: usize = 0;
    while lo < n && is_space_char(s.get_char(lo))
        invariant
            lo <= n,
            n == s@.len(),
            forall|j: int| 0 <= j < lo ==> is_wspace(s@[j]),
        decreases n - lo,
    {
        lo += 1;
    }
    let mut hi: usize = n;
    while hi > lo && is_space_char(s.get_char(hi - 1))
        invariant
            lo <= hi <= n,
            n == s@.len(),
            forall|j: int| hi <= j < n ==> is_wspace(s@[j]),
        decreases hi,
    {
        hi -= 1;
    }
    proof {
        lemma_trim_front_skip(s@, lo as int);
        lemma_trim_back_take(s@.skip(lo as int), hi - lo);
        assert(s@.skip(lo as int).take(hi - lo) =~= s@.subrange(lo as int, hi as int));
    }
    s.substring_char(lo, hi)
}

/// `s` with every occurrence of `pat` removed, scanning left to right and
/// not overlapping, as `str::replace(pat, "")` leaves it.
pub open spec fn strip_all(s: Seq<char>, pat: Seq<char>) -> Seq<char>
    decreases s.len(),
{
    if pat.len() == 0 || s.len() < pat.len() {
        s
    } else if s.take(pat.len() as int) == pat {
        strip_all(s.skip(pat.len() as int), pat)
    } else {
        seq![s[0]] + strip_all(s.drop_first(), pat)
    }
}

/// Removes every occurrence of `pat` from `s`, as `str::replace(pat, "")`
/// does it.
pub fn remove_all(s: &str, pat: &str) -> (r: String)
    requires
        pat@.len() > 0,
    ensures
        r@ == strip_all(s@, pat@),
{
    let n = s.unicode_len();
    let m = pat.unicode_len();
    let mut out = String::new();
    let mut i: usize = 0;
    proof {
        assert(s@.skip(0) =~= s@);
        assert(out@ + strip_all(s@, pat@) =~= strip_all(s@, pat@));
    }
    while i < n
        invariant
            i <= n,
            n == s@.len(),
            m == pat@.len(),
            m > 0,
            strip_all(s@, pat@) == out@ + strip_all(s@.skip(i as int), pat@),
        decreases n - i,
    {
        let ghost rest = s@.skip(i as int);
        if m <= n - i && check_match_at(s, pat, i) {
            proof {
                assert(rest.take(m as int) =~= s@.subrange(i as int, i + m));
                assert(rest.skip(m as int) =~= s@.skip(i + m));
            }
            i += m;
        } else {
            proof {
                if i + m <= n {
                    assert(rest.take(m as int) =~= s@.subrange(i as int, i + m));
                }
                assert(rest.drop_first() =~= s@.skip(i + 1));
                assert(strip_all(rest, pat@) == seq![s@[i as int]] + strip_all(
                    s@.skip(i + 1),
                    pat@,
                ));
                assert(s@.subrange(i as int, i + 1) =~= seq![s@[i as int]]);
                assert(out@ + strip_all(rest, pat@) =~= (out@ + s@.subrange(i as int, i + 1))
                    + strip_all(s@.skip(i + 1), pat@));
            }
            out.append(s.substring_char(i, i + 1));
            i += 1;
        }
    }
    proof {
        assert(s@.skip(n as int) =~= Seq::<char>::empty());
        assert(out@ + Seq::<char>::empty() =~= out@);
    }
    out
}

/// Position of the first occurrence of `pat` in `s`, or `-1` when there is
/// none.
pub open spec fn first_match(s: Seq<char>, pat: Seq<char>) -> int
    decreases s.len(),
{
    if s.len() < pat.len() {
        -1
    } else if s.take(pat.len() as int) == pat {
        0
    } else if s.len() == 0 {
        -1
    } else {
        let r = first_match(s.drop_first(), pat);
        if r < 0 {
            -1
        } else {
            1 + r
        }
    }
}

/// `first_match` finds the first occurrence: it points at a match, nothing
/// before it matches, and `-1` means nothing matches at all.
pub proof fn lemma_first_match(s: Seq<char>, pat: Seq<char>)
    requires
        pat.len() > 0,
    ensures
        first_match(s, pat) >= -1,
        first_match(s, pat) >= 0 ==> match_at(s, pat, first_match(s, pat)),
        first_match(s, pat) < 0 ==> forall|i: int| !match_at(s, pat, i),
        forall|i: int| 0 <= i < first_match(s, pat) ==> !match_at(s, pat, i),
    decreases s.len(),
{
    if s.len() < pat.len() {
        assert(forall|i: int| !match_at(s, pat, i));
    } else if s.take(pat.len() as int) == pat {
        assert(s.subrange(0, pat.len() as int) =~= s.take(pat.len() as int));
    } else {
        lemma_first_match(s.drop_first(), pat);
        assert(!match_at(s, pat, 0)) by {
            assert(s.subrange(0, pat.len() as int) =~= s.take(pat.len() as int));
        }
        assert forall|i: int| 1 <= i implies match_at(s, pat, i) == match_at(
            s.drop_first(),
            pat,
            i - 1,
        ) by {
            if 0 <= i - 1 && i - 1 + pat.len() <= s.drop_first().len() {
                assert(s.subrange(i, i + pat.len() as int) =~= s.drop_first().subrange(
                    i - 1,
                    i - 1 + pat.len() as int,
                ));
            }
        }
    }
}

/// A match at `k` with no match before it pins `first_match` down to `k`.
proof fn lemma_first_match_at(t: Seq<char>, pat: Seq<char>, k: int)
    requires
        pat.len() > 0,
        match_at(t, pat, k),
        forall|j: int| 0 <= j < k ==> !match_at(t, pat, j),
    ensures
        first_match(t, pat) == k,
{
    lemma_first_match(t, pat);
}

/// The pieces of `s` between the non-overlapping occurrences of `pat`,
/// scanned left to right, as `str::split` yields them.
pub open spec fn spec_split(s: Seq<char>, pat: Seq<char>) -> Seq<Seq<char>>
    decreases s.len(),
    when pat.len() > 0
    via spec_split_decreases
{
    let k = first_match(s, pat);
    if k < 0 {
        seq![s]
    } else {
        seq![s.take(k)] + spec_split(s.skip(k + pat.len() as int), pat)
    }
}

#[via_fn]
proof fn spec_split_decreases(s: Seq<char>, pat: Seq<char>) {
    lemma_first_match(s, pat);
}

/// The views of a sequence of owned strings.
pub open spec fn seq_views(v: Seq<String>) -> Seq<Seq<char>> {
    v.map_values(|x: String| x@)
}

/// Splits `s` on every occurrence of `pat`, as `str::split` does it.
pub fn split_str(s: &str, pat: &str) -> (parts: Vec<String>)
    requires
        pat@.len() > 0,
    ensures
        seq_views(parts@) == spec_split(s@, pat@),
{
    let n = s.unicode_len();
    let m = pat.unicode_len();
    let mut parts: Vec<String> = Vec::new();
    let mut start: usize = 0;
    let mut i: usize = 0;
    proof {
        assert(s@.skip(0) =~= s@);
        assert(seq_views(parts@) =~= Seq::<Seq<char>>::empty());
        assert(Seq::<Seq<char>>::empty() + spec_split(s@, pat@) =~= spec_split(s@, pat@));
    }
    while i < n && m <= n - i
        invariant
            start <= i <= n,
            n == s@.len(),
            m == pat@.len(),
            m > 0,
            spec_split(s@, pat@) == seq_views(parts@) + spec_split(s@.skip(start as int), pat@),
            forall|j: int| start <= j < i ==> !match_at(s@, pat@, j),
        decreases n - i,
    {
        if check_match_at(s, pat, i) {
            proof {
                let t = s@.skip(start as int);
                assert(t.subrange(i - start, i - start + m) =~= s@.subrange(i as int, i + m));
                assert(match_at(t, pat@, i - start));
                assert forall|j: int| 0 <= j < i - start implies !match_at(t, pat@, j) by {
                    assert(t.subrange(j, j + m) =~= s@.subrange(start + j, start + j + m));
                    assert(!match_at(s@, pat@, start + j));
                }
                lemma_first_match_at(t, pat@, i - start);
                assert(t.take(i - start) =~= s@.subrange(start as int, i as int));
                assert(t.skip(i - start + m) =~= s@.skip(i + m));
            }
            let piece = s.substring_char(start, i).to_owned();
            proof {
                let t = s@.skip(start as int);
                assert(seq_views(parts@.push(piece)) =~= seq_views(parts@) + seq![piece@]);
                assert((seq_views(parts@) + seq![piece@]) + spec_split(s@.skip(i + m), pat@)
                    =~= seq_views(parts@) + spec_split(t, pat@));
            }
            parts.push(piece);
            start = i + m;
            i = start;
        } else {
            i += 1;
        }
    }
    proof {
        let t = s@.skip(start as int);
        assert forall|j: int| !match_at(t, pat@, j) by {
            if 0 <= j && j + m <= t.len() {
                assert(t.subrange(j, j + m) =~= s@.subrange(start + j, start + j + m));
                assert(!match_at(s@, pat@, start + j));
            }
        }
        lemma_first_match(t, pat@);
        assert(first_match(t, pat@) < 0);
    }
    let piece = s.substring_char(start, n).to_owned();
    proof {
        assert(piece@ =~= s@.skip(start as int));
        assert(seq_views(parts@.push(piece)) =~= seq_views(parts@) + seq![piece@]);
        assert(seq_views(parts@) + seq![piece@] =~= seq_views(parts@) + spec_split(
            s@.skip(start as int),
            pat@,
        ));
    }
    parts.push(piece);
    parts
}

/// A line as `str::lines` yields it: the terminating `'\n'` is gone, and a
/// `'\r'` right before it goes with it.
pub open spec fn chop_cr(l: Seq<char>) -> Seq<char> {
    if l.len() > 0 && l.last() == '\r' {
        l.drop_last()
    } else {
        l
    }
}

/// The lines of `s`, as `str::lines` yields them: split on `'\n'`, each
/// `"\r\n"` ending stripped, no empty line after a final terminator.
pub open spec fn spec_lines(s: Seq<char>) -> Seq<Seq<char>>
    decreases s.len(),
    via spec_lines_decreases
{
    if s.len() == 0 {
        Seq::empty()
    } else {
        let k = first_match(s, seq!['\n']);
        if k < 0 {
            seq![s]
        } else {
            seq![chop_cr(s.take(k))] + spec_lines(s.skip(k + 1))
        }
    }
}

#[via_fn]
proof fn spec_lines_decreases(s: Seq<char>) {
    if s.len() > 0 {
        lemma_first_match(s, seq!['\n']);
    }
}

/// Splits `s` into lines, as `str::lines` does it.
pub fn split_lines(s: &str) -> (lines: Vec<String>)
    ensures
        seq_views(lines@) == spec_lines(s@),
{
    let ghost nl: Seq<char> = seq!['\n'];
    let n = s.unicode_len();
    let mut lines: Vec<String> = Vec::new();
    let mut start: usize = 0;
    let mut i: usize = 0;
    proof {
        assert(s@.skip(0) =~= s@);
        assert(seq_views(lines@) =~= Seq::<Seq<char>>::empty());
        assert(Seq::<Seq<char>>::empty() + spec_lines(s@) =~= spec_lines(s@));
    }
    while i < n
        invariant
            start <= i <= n,
            n == s@.len(),
            nl == seq!['\n'],
            spec_lines(s@) == seq_views(lines@) + spec_lines(s@.skip(start as int)),
            forall|j: int| start <= j < i ==> s@[j] != '\n',
        decreases n - i,
    {
        if s.get_char(i) == '\n' {
            proof {
                let t = s@.skip(start as int);
                assert(t.subrange(i - start, i - start + 1) =~= seq![s@[i as int]]);
                assert(match_at(t, nl, i - start));
                assert forall|j: int| 0 <= j < i - start implies !match_at(t, nl, j) by {
                    assert(t.subrange(j, j + 1) =~= seq![s@[start + j]]);
                    if t.subrange(j, j + 1) == nl {
                        assert(t.subrange(j, j + 1)[0] == '\n');
                    }
                }
                lemma_first_match_at(t, nl, i - start);
                assert(t.take(i - start) =~= s@.subrange(start as int, i as int));
                assert(t.skip(i - start + 1) =~= s@.skip(i + 1));
            }
            let line = if i > start && s.get_char(i - 1) == '\r' {
                s.substring_char(start, i - 1)
            } else {
                s.substring_char(start, i)
            };
            proof {
                let body = s@.subrange(start as int, i as int);
                if i > start && s@[i - 1] == '\r' {
                    assert(body.len() > 0 && body.last() == '\r');
                    assert(line@ =~= body.drop_last());
                } else {
                    if body.len() > 0 {
                        assert(body.last() == s@[i - 1]);
                    }
                    assert(line@ == body);
                }
                assert(line@ == chop_cr(body));
            }
            let owned = line.to_owned();
            proof {
                let t = s@.skip(start as int);
                assert(seq_views(lines@.push(owned)) =~= seq_views(lines@) + seq![owned@]);
                assert((seq_views(lines@) + seq![owned@]) + spec_lines(s@.skip(i + 1))
                    =~= seq_views(lines@) + spec_lines(t));
            }
            lines.push(owned);
            start = i + 1;
            i = start;
        } else {
            i += 1;
        }
    }
    if start < n {
        proof {
            let t = s@.skip(start as int);
            assert forall|j: int| !match_at(t, nl, j) by {
                if 0 <= j && j + 1 <= t.len() {
                    assert(t.subrange(j, j + 1) =~= seq![s@[start + j]]);
                    if t.subrange(j, j + 1) == nl {
                        assert(t.subrange(j, j + 1)[0] == '\n');
                    }
                }
            }
            lemma_first_match(t, nl);
            assert(first_match(t, nl) < 0);
        }
        let piece = s.substring_char(start, n).to_owned();
        proof {
            assert(piece@ =~= s@.skip(start as int));
            assert(seq_views(lines@.push(piece)) =~= seq_views(lines@) + seq![piece@]);
            assert(seq_views(lines@) + seq![piece@] =~= seq_views(lines@) + spec_lines(
                s@.skip(start as int),
            ));
        }
        lines.push(piece);
    } else {
        proof {
            assert(s@.skip(start as int) =~= Seq::<char>::empty());
            assert(seq_views(lines@) + spec_lines(Seq::<char>::empty()) =~= seq_views(lines@));
        }
    }
    lines
}

} // verus!
