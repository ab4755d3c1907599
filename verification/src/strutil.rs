//! Character-level string utilities.
//!
//! The protocol engine manipulates header names, paths and numbers as
//! sequences of characters. This module gives those manipulations exact
//! specifications over `Seq<char>`, so the parsing and serialization
//! contracts elsewhere in the crate can be stated and proved precisely.

use vstd::prelude::*;

verus! {

/// ASCII whitespace, as recognized when tokenizing a request line
/// and when trimming header names and values.
pub open spec fn is_ws_char(c: char) -> bool {
    c == ' ' || c == '\t' || c == '\r' || c == '\n' || c == '\u{b}' || c == '\u{c}'
}

/// Executable mirror of [`is_ws_char`].
pub fn is_ws(c: char) -> (r: bool)
    ensures
        r == is_ws_char(c),
{
    c == ' ' || c == '\t' || c == '\r' || c == '\n' || c == '\u{b}' || c == '\u{c}'
}

/// A decimal digit.
pub open spec fn is_dec_digit(c: char) -> bool {
    '0' <= c && c <= '9'
}

/// Numeric value of a decimal digit.
pub open spec fn digit_val(c: char) -> nat {
    ((c as int) - 48) as nat
}

/// The digit character for a value below ten.
pub open spec fn digit_char(d: nat) -> char {
    ((d + 48) as u8) as char
}

/// Every character of `s` is a decimal digit.
pub open spec fn all_dec_digits(s: Seq<char>) -> bool {
    forall|i: int| 0 <= i < s.len() ==> is_dec_digit(#[trigger] s[i])
}

/// The numeric value of a digit string, most significant digit first.
pub open spec fn dec_val(s: Seq<char>) -> nat
    decreases s.len(),
{
    if s.len() == 0 {
        0
    } else {
        dec_val(s.drop_last()) * 10 + digit_val(s.last())
    }
}

/// The canonical decimal representation of `n`: no sign, no leading zeros
/// (except for `n == 0`, which is written `"0"`).
pub open spec fn spec_dec(n: nat) -> Seq<char>
    decreases n,
{
    if n < 10 {
        seq![digit_char(n)]
    } else {
        spec_dec(n / 10).push(digit_char(n % 10))
    }
}

/// Collect the characters of a string slice into a vector.
pub fn chars_of(s: &str) -> (r: Vec<char>)
    ensures
        r@ == s@,
{
    let n: usize = s.unicode_len();
    let mut r: Vec<char> = Vec::new();
    let mut i: usize = 0;
    while i < n
        invariant
            n == s@.len(),
            i <= n,
            r@ == s@.take(i as int),
        decreases n - i,
    {
        r.push(s.get_char(i));
        i = i + 1;
        proof {
            assert(r@ =~= s@.take(i as int));
        }
    }
    proof {
        assert(r@ =~= s@);
    }
    r
}

/// Collect a vector of characters into an owned string.
///
/// Relies on `String`'s `FromIterator` implementation: collecting
/// characters yields the string of exactly those characters in order.
#[verifier::external_body]
pub(crate) fn string_from_chars(v: &Vec<char>) -> (r: String)
    ensures
        r@ == v@,
{
    v.iter().collect()
}

/// Character-by-character string equality.
pub fn str_eq(a: &str, b: &str) -> (r: bool)
    ensures
        r == (a@ == b@),
{
    let na: usize = a.unicode_len();
    let nb: usize = b.unicode_len();
    if na != nb {
        proof {
            assert(a@ != b@);
        }
        return false;
    }
    let mut i: usize = 0;
    while i < na
        invariant
            na == a@.len(),
            na == b@.len(),
            i <= na,
            forall|j: int| 0 <= j < i ==> a@[j] == b@[j],
        decreases na - i,
    {
        if a.get_char(i) != b.get_char(i) {
            return false;
        }
        i = i + 1;
    }
    proof {
        assert(a@ =~= b@);
    }
    true
}

/// Every digit string value grows (weakly) as the string extends to the
/// right.
pub proof fn lemma_dec_val_take_le(s: Seq<char>, i: int, j: int)
    requires
        0 <= i <= j <= s.len(),
    ensures
        dec_val(s.take(i)) <= dec_val(s.take(j)),
    decreases j - i,
{
    if i < j {
        lemma_dec_val_take_le(s, i, j - 1);
        assert(s.take(j).drop_last() =~= s.take(j - 1));
        assert(dec_val(s.take(j)) == dec_val(s.take(j - 1)) * 10 + digit_val(s.take(j).last()));
    } else {
        assert(s.take(i) =~= s.take(j));
    }
}

/// Parse a string of decimal digits into a `usize`.
///
/// Returns `Some` exactly when the string is nonempty, all digits, and its
/// value fits; anything else (signs, blanks, other characters) is rejected.
pub fn parse_usize(v: &Vec<char>) -> (r: Option<usize>)
    ensures
        r is Some <==> (v@.len() > 0 && all_dec_digits(v@) && dec_val(v@) <= usize::MAX),
        r is Some ==> r->Some_0 == dec_val(v@),
{
    let n: usize = v.len();
    if n == 0 {
        return None;
    }
    let mut acc: usize = 0;
    let mut i: usize = 0;
    while i < n
        invariant
            n == v@.len(),
            i <= n,
            all_dec_digits(v@.take(i as int)),
            acc == dec_val(v@.take(i as int)),
        decreases n - i,
    {
        let c = v[i];
        if c < '0' || c > '9' {
            proof {
                assert(!is_dec_digit(v@[i as int]));
            }
            return None;
        }
        let d: usize = (c as u8 - 48) as usize;
        if acc > (usize::MAX - d) / 10 {
            proof {
                assert(v@.take(i as int + 1).drop_last() =~= v@.take(i as int));
                assert(dec_val(v@.take(i as int + 1)) > usize::MAX);
                lemma_dec_val_take_le(v@, i as int + 1, n as int);
                assert(v@.take(n as int) =~= v@);
            }
            return None;
        }
        proof {
            assert(v@.take(i as int + 1).drop_last() =~= v@.take(i as int));
        }
        acc = acc * 10 + d;
        i = i + 1;
    }
    proof {
        assert(v@.take(n as int) =~= v@);
    }
    Some(acc)
}

/// Render `n` in decimal.
pub fn u64_to_dec(n: u64) -> (r: Vec<char>)
    ensures
        r@ == spec_dec(n as nat),
{
    if n == 0 {
        let mut r: Vec<char> = Vec::new();
        r.push('0');
        proof {
            assert(r@ =~= spec_dec(0));
        }
        return r;
    }
    let mut m: u64 = n;
    let mut rev: Vec<char> = Vec::new();
    while m > 0
        invariant
            m > 0 ==> spec_dec(n as nat) == spec_dec(m as nat) + rev@.reverse(),
            m == 0 ==> spec_dec(n as nat) == rev@.reverse(),
        decreases m,
    {
        let d: u64 = m % 10;
        let c: char = (d as u8 + 48) as char;
        proof {
            assert(c == digit_char(d as nat));
            assert(rev@.push(c).reverse() =~= seq![c] + rev@.reverse());
            if m >= 10 {
                assert(spec_dec(m as nat) == spec_dec((m / 10) as nat).push(digit_char(
                    (m % 10) as nat,
                )));
                assert(spec_dec((m / 10) as nat) + (seq![c] + rev@.reverse()) =~= spec_dec(
                    m as nat,
                ) + rev@.reverse());
            } else {
                assert(spec_dec(m as nat) =~= seq![c]);
                assert(seq![c] + rev@.reverse() =~= spec_dec(m as nat) + rev@.reverse());
            }
        }
        rev.push(c);
        m = m / 10;
    }
    let k: usize = rev.len();
    let mut r: Vec<char> = Vec::new();
    let mut i: usize = 0;
    while i < k
        invariant
            k == rev@.len(),
            i <= k,
            r@ == rev@.reverse().take(i as int),
        decreases k - i,
    {
        r.push(rev[k - 1 - i]);
        i = i + 1;
        proof {
            assert(r@ =~= rev@.reverse().take(i as int));
        }
    }
    proof {
        assert(r@ =~= rev@.reverse());
    }
    r
}

/// Index of the first occurrence of `c` in `s`, or `-1` when absent.
pub open spec fn first_index_of(s: Seq<char>, c: char) -> int
    decreases s.len(),
{
    if s.len() == 0 {
        -1
    } else if s[0] == c {
        0
    } else {
        let r = first_index_of(s.drop_first(), c);
        if r == -1 {
            -1
        } else {
            r + 1
        }
    }
}

/// What [`first_index_of`] returns: either `-1` and no occurrence, or the
/// position of the first occurrence.
pub proof fn lemma_first_index_of(s: Seq<char>, c: char)
    ensures
        first_index_of(s, c) == -1 ==> forall|j: int| 0 <= j < s.len() ==> s[j] != c,
        first_index_of(s, c) != -1 ==> {
            let i = first_index_of(s, c);
            &&& 0 <= i < s.len()
            &&& s[i] == c
            &&& forall|j: int| 0 <= j < i ==> s[j] != c
        },
    decreases s.len(),
{
    if s.len() > 0 && s[0] != c {
        let t = s.drop_first();
        lemma_first_index_of(t, c);
        let r = first_index_of(t, c);
        if r == -1 {
            assert forall|j: int| 0 <= j < s.len() implies s[j] != c by {
                if j > 0 {
                    assert(t[j - 1] == s[j]);
                }
            }
        } else {
            assert(first_index_of(s, c) == r + 1);
            assert(s[r + 1] == t[r]);
            assert forall|j: int| 0 <= j < r + 1 implies s[j] != c by {
                if j > 0 {
                    assert(t[j - 1] == s[j]);
                }
            }
        }
    }
}

/// Copy of the characters of `v` between `from` (inclusive) and `to`
/// (exclusive).
pub fn subvec(v: &Vec<char>, from: usize, to: usize) -> (r: Vec<char>)
    requires
        from <= to <= v@.len(),
    ensures
        r@ == v@.subrange(from as int, to as int),
{
    let mut r: Vec<char> = Vec::new();
    let mut i: usize = from;
    while i < to
        invariant
            from <= i <= to <= v@.len(),
            r@ == v@.subrange(from as int, i as int),
        decreases to - i,
    {
        r.push(v[i]);
        i = i + 1;
        proof {
            assert(r@ =~= v@.subrange(from as int, i as int));
        }
    }
    r
}

/// First position of `c` in `v`, if any.
pub fn find_char(v: &Vec<char>, c: char) -> (r: Option<usize>)
    ensures
        r is Some ==> first_index_of(v@, c) == r->Some_0,
        r is None ==> first_index_of(v@, c) == -1,
{
    let n: usize = v.len();
    let mut i: usize = 0;
    while i < n
        invariant
            n == v@.len(),
            i <= n,
            forall|j: int| 0 <= j < i ==> v@[j] != c,
        decreases n - i,
    {
        if v[i] == c {
            proof {
                lemma_first_index_of(v@, c);
            }
            return Some(i);
        }
        i = i + 1;
    }
    proof {
        lemma_first_index_of(v@, c);
    }
    None
}

/// The pieces of `s` between occurrences of the separator `sep`; the
/// separator itself is dropped. There is always at least one piece: a string
/// without the separator is a single piece, and `n` separators delimit
/// `n + 1` pieces (empty pieces included).
pub open spec fn split_on(s: Seq<char>, sep: char) -> Seq<Seq<char>>
    decreases s.len(),
    via split_on_decreases
{
    let i = first_index_of(s, sep);
    if i < 0 {
        seq![s]
    } else {
        seq![s.take(i)] + split_on(s.skip(i + 1), sep)
    }
}

#[via_fn]
proof fn split_on_decreases(s: Seq<char>, sep: char) {
    lemma_first_index_of(s, sep);
}

/// Split `v` at every occurrence of `sep`.
pub fn split_char(v: &Vec<char>, sep: char) -> (r: Vec<Vec<char>>)
    ensures
        r@.len() == split_on(v@, sep).len(),
        forall|i: int| 0 <= i < r@.len() ==> #[trigger] r@[i]@ == split_on(v@, sep)[i],
{
    let mut out: Vec<Vec<char>> = Vec::new();
    let ghost mut done: Seq<Seq<char>> = Seq::empty();
    let mut rest: Vec<char> = subvec(v, 0, v.len());
    proof {
        assert(rest@ =~= v@);
    }
    loop
        invariant
            split_on(v@, sep) == done + split_on(rest@, sep),
            done.len() == out@.len(),
            forall|i: int| 0 <= i < out@.len() ==> #[trigger] out@[i]@ == done[i],
        decreases rest@.len(),
    {
        proof {
            lemma_first_index_of(rest@, sep);
        }
        match find_char(&rest, sep) {
            Some(i) => {
                proof {
                    assert(first_index_of(rest@, sep) == i as int);
                    assert(0 <= (i as int) && (i as int) < rest@.len());
                }
                let len: usize = rest.len();
                let piece = subvec(&rest, 0, i);
                let next = subvec(&rest, i + 1, len);
                proof {
                    assert(split_on(rest@, sep) == seq![rest@.take(i as int)] + split_on(
                        rest@.skip(i as int + 1),
                        sep,
                    ));
                    assert((done + seq![piece@]) + split_on(next@, sep) =~= done + (seq![piece@]
                        + split_on(next@, sep)));
                    done = done + seq![piece@];
                }
                out.push(piece);
                rest = next;
            },
            None => {
                proof {
                    assert(split_on(rest@, sep) =~= seq![rest@]);
                    assert(done + seq![rest@] =~= done + split_on(rest@, sep));
                    done = done + seq![rest@];
                }
                out.push(rest);
                return out;
            },
        }
    }
}

/// The pattern `pat` occurs in `s` starting at position `i`.
pub open spec fn matches_at(s: Seq<char>, pat: Seq<char>, i: int) -> bool {
    0 <= i && i + pat.len() <= s.len() && s.subrange(i, i + pat.len()) == pat
}

/// Index of the first occurrence of the substring `pat` in `s`, or `-1`
/// when it does not occur. The empty pattern occurs at position zero.
pub open spec fn first_sub_index(s: Seq<char>, pat: Seq<char>) -> int
    decreases s.len(),
    via first_sub_index_decreases
{
    if s.len() < pat.len() {
        -1
    } else if s.take(pat.len() as int) == pat {
        0
    } else {
        let r = first_sub_index(s.drop_first(), pat);
        if r == -1 {
            -1
        } else {
            r + 1
        }
    }
}

#[via_fn]
proof fn first_sub_index_decreases(s: Seq<char>, pat: Seq<char>) {
    if s.len() >= pat.len() && s.take(pat.len() as int) != pat && pat.len() == 0 {
        assert(s.take(0) =~= pat);
    }
}

/// What [`first_sub_index`] returns: either `-1` and no occurrence, or the
/// position of the first occurrence.
pub proof fn lemma_first_sub_index(s: Seq<char>, pat: Seq<char>)
    ensures
        first_sub_index(s, pat) == -1 ==> forall|j: int| !matches_at(s, pat, j),
        first_sub_index(s, pat) != -1 ==> {
            let i = first_sub_index(s, pat);
            &&& matches_at(s, pat, i)
            &&& forall|j: int| 0 <= j < i ==> !matches_at(s, pat, j)
        },
    decreases s.len(),
{
    if s.len() < pat.len() {
        assert forall|j: int| !matches_at(s, pat, j) by {}
    } else if s.take(pat.len() as int) == pat {
        assert(s.subrange(0, pat.len() as int) =~= s.take(pat.len() as int));
    } else {
        assert(pat.len() > 0) by {
            if pat.len() == 0 {
                assert(s.take(0) =~= pat);
            }
        }
        let t = s.drop_first();
        lemma_first_sub_index(t, pat);
        assert(!matches_at(s, pat, 0)) by {
            assert(s.subrange(0, pat.len() as int) =~= s.take(pat.len() as int));
        }
        assert forall|j: int| 1 <= j
            implies (matches_at(s, pat, j) <==> matches_at(t, pat, j - 1)) by {
            if matches_at(s, pat, j) {
                assert(t.subrange(j - 1, j - 1 + pat.len()) =~= s.subrange(j, j + pat.len()));
            }
            if matches_at(t, pat, j - 1) {
                assert(s.subrange(j, j + pat.len()) =~= t.subrange(j - 1, j - 1 + pat.len()));
            }
        }
    }
}

/// `v` begins with the characters of `p`.
pub fn starts_with(v: &Vec<char>, p: &Vec<char>) -> (r: bool)
    ensures
        r == (v@.len() >= p@.len() && v@.take(p@.len() as int) == p@),
{
    let m: usize = p.len();
    if v.len() < m {
        return false;
    }
    let mut k: usize = 0;
    while k < m
        invariant
            m == p@.len() <= v@.len(),
            k <= m,
            forall|l: int| 0 <= l < k ==> v@[l] == p@[l],
        decreases m - k,
    {
        if v[k] != p[k] {
            proof {
                assert(v@.take(m as int)[k as int] != p@[k as int]);
            }
            return false;
        }
        k = k + 1;
    }
    proof {
        assert(v@.take(m as int) =~= p@);
    }
    true
}

/// First position of the substring `pat` in `v`, if it occurs.
pub fn find_sub(v: &Vec<char>, pat: &Vec<char>) -> (r: Option<usize>)
    ensures
        r is Some ==> first_sub_index(v@, pat@) == r->Some_0,
        r is None ==> first_sub_index(v@, pat@) == -1,
{
    let n: usize = v.len();
    let m: usize = pat.len();
    proof {
        lemma_first_sub_index(v@, pat@);
    }
    if m > n {
        return None;
    }
    if m == 0 {
        proof {
            assert(v@.take(0) =~= pat@);
        }
        return Some(0);
    }
    let mut i: usize = 0;
    while i <= n - m
        invariant
            n == v@.len(),
            m == pat@.len(),
            1 <= m <= n,
            i <= n - m + 1,
            forall|j: int| 0 <= j < i ==> !matches_at(v@, pat@, j),
        decreases n - i,
    {
        let mut k: usize = 0;
        let mut hit: bool = true;
        while k < m
            invariant
                n == v@.len(),
                m == pat@.len(),
                1 <= m <= n,
                i <= n - m,
                k <= m,
                hit ==> forall|l: int| 0 <= l < k ==> v@[i + l] == pat@[l],
                !hit ==> !matches_at(v@, pat@, i as int),
            decreases m - k,
        {
            if v[i + k] != pat[k] {
                proof {
                    assert(v@.subrange(i as int, i + m) != pat@) by {
                        assert(v@.subrange(i as int, i + m)[k as int] == v@[i + k]);
                    }
                }
                hit = false;
                k = m;
            } else {
                k = k + 1;
            }
        }
        if hit {
            proof {
                assert(v@.subrange(i as int, i + m) =~= pat@);
                assert(matches_at(v@, pat@, i as int));
                lemma_first_sub_index(v@, pat@);
                let fsi = first_sub_index(v@, pat@);
                assert(fsi != -1);
                assert(fsi == i as int) by {
                    if fsi < i as int {
                        assert(!matches_at(v@, pat@, fsi));
                    }
                }
            }
            return Some(i);
        }
        i = i + 1;
    }
    proof {
        assert forall|j: int| !matches_at(v@, pat@, j) by {
            if 0 <= j && j + m <= n {
                assert(j < i);
            }
        }
        lemma_first_sub_index(v@, pat@);
    }
    None
}

/// The substring `pat` occurs somewhere in `v`.
pub fn contains_sub(v: &Vec<char>, pat: &Vec<char>) -> (r: bool)
    ensures
        r == (first_sub_index(v@, pat@) != -1),
{
    match find_sub(v, pat) {
        Some(_) => true,
        None => false,
    }
}

/// The pieces of `s` between occurrences of the separator string `sep`,
/// scanned left to right; the separators themselves are dropped.
pub open spec fn split_on_seq(s: Seq<char>, sep: Seq<char>) -> Seq<Seq<char>>
    decreases s.len(),
    when sep.len() > 0
    via split_on_seq_decreases
{
    let i = first_sub_index(s, sep);
    if i < 0 {
        seq![s]
    } else {
        seq![s.take(i)] + split_on_seq(s.skip(i + sep.len()), sep)
    }
}

#[via_fn]
proof fn split_on_seq_decreases(s: Seq<char>, sep: Seq<char>) {
    lemma_first_sub_index(s, sep);
}

/// Split `v` at every occurrence of the separator string `sep`.
pub fn split_seq(v: &Vec<char>, sep: &Vec<char>) -> (r: Vec<Vec<char>>)
    requires
        sep@.len() > 0,
    ensures
        r@.len() == split_on_seq(v@, sep@).len(),
        forall|i: int| 0 <= i < r@.len() ==> #[trigger] r@[i]@ == split_on_seq(v@, sep@)[i],
{
    let mut out: Vec<Vec<char>> = Vec::new();
    let ghost mut done: Seq<Seq<char>> = Seq::empty();
    let mut rest: Vec<char> = subvec(v, 0, v.len());
    proof {
        assert(rest@ =~= v@);
    }
    loop
        invariant
            sep@.len() > 0,
            split_on_seq(v@, sep@) == done + split_on_seq(rest@, sep@),
            done.len() == out@.len(),
            forall|i: int| 0 <= i < out@.len() ==> #[trigger] out@[i]@ == done[i],
        decreases rest@.len(),
    {
        proof {
            lemma_first_sub_index(rest@, sep@);
        }
        match find_sub(&rest, sep) {
            Some(i) => {
                proof {
                    assert(first_sub_index(rest@, sep@) == i as int);
                    assert(matches_at(rest@, sep@, i as int));
                }
                let len: usize = rest.len();
                let piece = subvec(&rest, 0, i);
                let next = subvec(&rest, i + sep.len(), len);
                proof {
                    assert(split_on_seq(rest@, sep@) == seq![rest@.take(i as int)] + split_on_seq(
                        rest@.skip(i + sep@.len()),
                        sep@,
                    ));
                    assert((done + seq![piece@]) + split_on_seq(next@, sep@) =~= done + (seq![
                        piece@,
                    ] + split_on_seq(next@, sep@)));
                    done = done + seq![piece@];
                }
                out.push(piece);
                rest = next;
            },
            None => {
                proof {
                    assert(split_on_seq(rest@, sep@) =~= seq![rest@]);
                    done = done + seq![rest@];
                }
                out.push(rest);
                return out;
            },
        }
    }
}

/// `s` with every occurrence of `pat`, scanned left to right without
/// overlap, replaced by `to`.
pub open spec fn spec_replace(s: Seq<char>, pat: Seq<char>, to: Seq<char>) -> Seq<char>
    decreases s.len(),
    when pat.len() > 0
    via spec_replace_decreases
{
    let i = first_sub_index(s, pat);
    if i < 0 {
        s
    } else {
        s.take(i) + to + spec_replace(s.skip(i + pat.len()), pat, to)
    }
}

#[via_fn]
proof fn spec_replace_decreases(s: Seq<char>, pat: Seq<char>, to: Seq<char>) {
    lemma_first_sub_index(s, pat);
}

/// Replace every occurrence of `pat` in `v` by `to`.
pub fn replace_chars(v: &Vec<char>, pat: &Vec<char>, to: &Vec<char>) -> (r: Vec<char>)
    requires
        pat@.len() > 0,
    ensures
        r@ == spec_replace(v@, pat@, to@),
{
    let mut out: Vec<char> = Vec::new();
    let mut rest: Vec<char> = subvec(v, 0, v.len());
    proof {
        assert(rest@ =~= v@);
        assert(out@ + spec_replace(rest@, pat@, to@) =~= spec_replace(v@, pat@, to@));
    }
    loop
        invariant
            pat@.len() > 0,
            spec_replace(v@, pat@, to@) == out@ + spec_replace(rest@, pat@, to@),
        decreases rest@.len(),
    {
        proof {
            lemma_first_sub_index(rest@, pat@);
        }
        match find_sub(&rest, pat) {
            Some(i) => {
                proof {
                    assert(first_sub_index(rest@, pat@) == i as int);
                    assert(matches_at(rest@, pat@, i as int));
                }
                let len: usize = rest.len();
                let piece = subvec(&rest, 0, i);
                let next = subvec(&rest, i + pat.len(), len);
                proof {
                    assert(spec_replace(rest@, pat@, to@) == rest@.take(i as int) + to@
                        + spec_replace(rest@.skip(i + pat@.len()), pat@, to@));
                    assert(((out@ + piece@) + to@) + spec_replace(next@, pat@, to@) =~= out@ + (
                    piece@ + to@ + spec_replace(next@, pat@, to@)));
                }
                out.extend_from_slice(piece.as_slice());
                out.extend_from_slice(to.as_slice());
                rest = next;
            },
            None => {
                proof {
                    assert(spec_replace(rest@, pat@, to@) == rest@);
                }
                out.extend_from_slice(rest.as_slice());
                return out;
            },
        }
    }
}

/// `s` without its leading whitespace.
pub open spec fn trim_start(s: Seq<char>) -> Seq<char>
    decreases s.len(),
{
    if s.len() == 0 {
        s
    } else if is_ws_char(s[0]) {
        trim_start(s.drop_first())
    } else {
        s
    }
}

/// `s` without its trailing whitespace.
pub open spec fn trim_end(s: Seq<char>) -> Seq<char>
    decreases s.len(),
{
    if s.len() == 0 {
        s
    } else if is_ws_char(s.last()) {
        trim_end(s.drop_last())
    } else {
        s
    }
}

/// `s` without leading and trailing whitespace.
pub open spec fn spec_trim(s: Seq<char>) -> Seq<char> {
    trim_end(trim_start(s))
}

/// Strip leading and trailing whitespace.
pub fn trim_chars(v: &Vec<char>) -> (r: Vec<char>)
    ensures
        r@ == spec_trim(v@),
{
    let n: usize = v.len();
    let mut a: usize = 0;
    proof {
        assert(v@.skip(0) =~= v@);
    }
    while a < n && is_ws(v[a])
        invariant
            n == v@.len(),
            a <= n,
            trim_start(v@) == trim_start(v@.skip(a as int)),
        decreases n - a,
    {
        proof {
            assert(v@.skip(a as int).drop_first() =~= v@.skip(a as int + 1));
        }
        a = a + 1;
    }
    let t = subvec(v, a, n);
    proof {
        if a < n {
            assert(trim_start(v@.skip(a as int)) == v@.skip(a as int));
        } else {
            assert(v@.skip(a as int) =~= Seq::<char>::empty());
        }
        assert(trim_start(v@) == t@);
    }
    let m: usize = t.len();
    let mut b: usize = m;
    proof {
        assert(t@.take(m as int) =~= t@);
    }
    while b > 0 && is_ws(t[b - 1])
        invariant
            m == t@.len(),
            b <= m,
            trim_end(t@) == trim_end(t@.take(b as int)),
        decreases b,
    {
        proof {
            assert(t@.take(b as int).drop_last() =~= t@.take(b as int - 1));
            assert(t@.take(b as int).last() == t@[b as int - 1]);
        }
        b = b - 1;
    }
    proof {
        if b > 0 {
            assert(trim_end(t@.take(b as int)) == t@.take(b as int));
        } else {
            assert(t@.take(0) =~= Seq::<char>::empty());
        }
    }
    subvec(&t, 0, b)
}

/// Strip trailing whitespace only.
pub fn trim_end_chars(v: &Vec<char>) -> (r: Vec<char>)
    ensures
        r@ == trim_end(v@),
{
    let m: usize = v.len();
    let mut b: usize = m;
    proof {
        assert(v@.take(m as int) =~= v@);
    }
    while b > 0 && is_ws(v[b - 1])
        invariant
            m == v@.len(),
            b <= m,
            trim_end(v@) == trim_end(v@.take(b as int)),
        decreases b,
    {
        proof {
            assert(v@.take(b as int).drop_last() =~= v@.take(b as int - 1));
            assert(v@.take(b as int).last() == v@[b as int - 1]);
        }
        b = b - 1;
    }
    proof {
        if b > 0 {
            assert(trim_end(v@.take(b as int)) == v@.take(b as int));
        } else {
            assert(v@.take(0) =~= Seq::<char>::empty());
        }
    }
    subvec(v, 0, b)
}

/// ASCII-lowercase a single character; other characters are unchanged.
pub open spec fn lower_char(c: char) -> char {
    if 'A' <= c && c <= 'Z' {
        (((c as int) + 32) as u8) as char
    } else {
        c
    }
}

/// ASCII-lowercase every character.
pub open spec fn spec_lower(s: Seq<char>) -> Seq<char> {
    s.map_values(|c: char| lower_char(c))
}

/// ASCII-lowercase a vector of characters.
pub fn to_lower(v: &Vec<char>) -> (r: Vec<char>)
    ensures
        r@ == spec_lower(v@),
{
    let n: usize = v.len();
    let mut r: Vec<char> = Vec::new();
    let mut i: usize = 0;
    while i < n
        invariant
            n == v@.len(),
            i <= n,
            r@ == spec_lower(v@.take(i as int)),
        decreases n - i,
    {
        let c = v[i];
        let l: char = if c >= 'A' && c <= 'Z' {
            (c as u8 + 32) as char
        } else {
            c
        };
        proof {
            assert(l == lower_char(v@[i as int]));
            assert(spec_lower(v@.take(i as int + 1)) =~= spec_lower(v@.take(i as int)).push(
                lower_char(v@[i as int]),
            ));
        }
        r.push(l);
        i = i + 1;
    }
    proof {
        assert(v@.take(n as int) =~= v@);
    }
    r
}

/// The whitespace-separated tokens of `s`: maximal nonempty runs of
/// non-whitespace characters, in order.
pub open spec fn split_ws(s: Seq<char>) -> Seq<Seq<char>>
    decreases s.len(),
{
    if s.len() == 0 {
        Seq::empty()
    } else if is_ws_char(s[0]) {
        split_ws(s.drop_first())
    } else if s.len() == 1 || is_ws_char(s[1]) {
        seq![seq![s[0]]] + split_ws(s.drop_first())
    } else {
        let rest = split_ws(s.drop_first());
        seq![seq![s[0]] + rest[0]] + rest.drop_first()
    }
}

/// Peeling one maximal non-whitespace token off the front of `s`.
pub proof fn lemma_split_ws_token(s: Seq<char>, k: int)
    requires
        1 <= k <= s.len(),
        forall|j: int| 0 <= j < k ==> !is_ws_char(#[trigger] s[j]),
        k == s.len() || is_ws_char(s[k]),
    ensures
        split_ws(s) == seq![s.take(k)] + split_ws(s.skip(k)),
    decreases k,
{
    let t = s.drop_first();
    if k == 1 {
        assert(s.take(1) =~= seq![s[0]]);
        assert(t =~= s.skip(1));
    } else {
        assert(!is_ws_char(s[1]));
        lemma_split_ws_token(t, k - 1);
        let rest = split_ws(t);
        assert(rest == seq![t.take(k - 1)] + split_ws(t.skip(k - 1)));
        assert(rest[0] == t.take(k - 1));
        assert(seq![s[0]] + t.take(k - 1) =~= s.take(k));
        assert(rest.drop_first() =~= split_ws(t.skip(k - 1)));
        assert(t.skip(k - 1) =~= s.skip(k));
    }
}

/// Split `v` into its whitespace-separated tokens.
pub fn split_whitespace(v: &Vec<char>) -> (r: Vec<Vec<char>>)
    ensures
        r@.len() == split_ws(v@).len(),
        forall|i: int| 0 <= i < r@.len() ==> #[trigger] r@[i]@ == split_ws(v@)[i],
{
    let mut out: Vec<Vec<char>> = Vec::new();
    let ghost mut done: Seq<Seq<char>> = Seq::empty();
    let mut rest: Vec<char> = subvec(v, 0, v.len());
    proof {
        assert(rest@ =~= v@);
    }
    loop
        invariant
            split_ws(v@) == done + split_ws(rest@),
            done.len() == out@.len(),
            forall|i: int| 0 <= i < out@.len() ==> #[trigger] out@[i]@ == done[i],
        decreases rest@.len(),
    {
        let len: usize = rest.len();
        if len == 0 {
            proof {
                assert(done + split_ws(rest@) =~= done);
            }
            return out;
        }
        if is_ws(rest[0]) {
            proof {
                assert(split_ws(rest@) == split_ws(rest@.drop_first()));
                assert(rest@.drop_first() =~= rest@.skip(1));
            }
            rest = subvec(&rest, 1, len);
        } else {
            let mut k: usize = 1;
            while k < len && !is_ws(rest[k])
                invariant
                    len == rest@.len(),
                    1 <= k <= len,
                    forall|j: int| 0 <= j < k ==> !is_ws_char(#[trigger] rest@[j]),
                decreases len - k,
            {
                k = k + 1;
            }
            let token = subvec(&rest, 0, k);
            let next = subvec(&rest, k, len);
            proof {
                lemma_split_ws_token(rest@, k as int);
                assert((done + seq![token@]) + split_ws(next@) =~= done + (seq![token@]
                    + split_ws(next@)));
                done = done + seq![token@];
            }
            out.push(token);
            rest = next;
        }
    }
}

/// Lexicographic order on character sequences, by code point, with a
/// prefix ordered before its extensions.
pub open spec fn lex_le(a: Seq<char>, b: Seq<char>) -> bool
    decreases a.len(),
{
    if a.len() == 0 {
        true
    } else if b.len() == 0 {
        false
    } else if a[0] != b[0] {
        (a[0] as int) < (b[0] as int)
    } else {
        lex_le(a.drop_first(), b.drop_first())
    }
}

/// Compare two character vectors lexicographically.
pub fn chars_le(a: &Vec<char>, b: &Vec<char>) -> (r: bool)
    ensures
        r == lex_le(a@, b@),
{
    let na: usize = a.len();
    let nb: usize = b.len();
    let mut i: usize = 0;
    proof {
        assert(a@.skip(0) =~= a@);
        assert(b@.skip(0) =~= b@);
    }
    loop
        invariant
            na == a@.len(),
            nb == b@.len(),
            i <= na,
            i <= nb,
            lex_le(a@, b@) == lex_le(a@.skip(i as int), b@.skip(i as int)),
        decreases na - i,
    {
        if i == na {
            proof {
                assert(a@.skip(i as int).len() == 0);
            }
            return true;
        }
        if i == nb {
            proof {
                assert(b@.skip(i as int).len() == 0);
                assert(a@.skip(i as int).len() > 0);
            }
            return false;
        }
        let ca = a[i];
        let cb = b[i];
        proof {
            assert(a@.skip(i as int)[0] == a@[i as int]);
            assert(b@.skip(i as int)[0] == b@[i as int]);
        }
        if ca != cb {
            return ca < cb;
        }
        proof {
            assert(a@.skip(i as int).drop_first() =~= a@.skip(i as int + 1));
            assert(b@.skip(i as int).drop_first() =~= b@.skip(i as int + 1));
        }
        i = i + 1;
    }
}

/// Index of the last occurrence of `c` in `s`, or `-1` when absent.
pub open spec fn last_index_of(s: Seq<char>, c: char) -> int
    decreases s.len(),
{
    if s.len() == 0 {
        -1
    } else if s.last() == c {
        s.len() - 1
    } else {
        last_index_of(s.drop_last(), c)
    }
}

/// What [`last_index_of`] returns: either `-1` and no occurrence, or the
/// position of the last occurrence.
pub proof fn lemma_last_index_of(s: Seq<char>, c: char)
    ensures
        last_index_of(s, c) == -1 ==> forall|j: int| 0 <= j < s.len() ==> s[j] != c,
        last_index_of(s, c) != -1 ==> {
            let i = last_index_of(s, c);
            &&& 0 <= i < s.len()
            &&& s[i] == c
            &&& forall|j: int| i < j < s.len() ==> s[j] != c
        },
    decreases s.len(),
{
    if s.len() > 0 && s.last() != c {
        let t = s.drop_last();
        lemma_last_index_of(t, c);
        assert forall|j: int| 0 <= j < t.len() implies t[j] == s[j] by {}
    }
}

/// Last position of `c` in `v`, if any.
pub fn rfind_char(v: &Vec<char>, c: char) -> (r: Option<usize>)
    ensures
        r is Some ==> last_index_of(v@, c) == r->Some_0,
        r is None ==> last_index_of(v@, c) == -1,
{
    let n: usize = v.len();
    let mut i: usize = n;
    proof {
        lemma_last_index_of(v@, c);
    }
    while i > 0
        invariant
            n == v@.len(),
            i <= n,
            forall|j: int| i <= j < n ==> v@[j] != c,
        decreases i,
    {
        i = i - 1;
        if v[i] == c {
            proof {
                lemma_last_index_of(v@, c);
                let li = last_index_of(v@, c);
                assert(li != -1) by {
                    if li == -1 {
                        assert(v@[i as int] != c);
                    }
                }
                assert(li == i as int) by {
                    if li < i as int {
                        assert(v@[i as int] != c);
                    }
                }
            }
            return Some(i);
        }
    }
    proof {
        lemma_last_index_of(v@, c);
        let li = last_index_of(v@, c);
        if li != -1 {
            assert(v@[li] != c);
        }
    }
    None
}

/// `s` without its leading copies of `c`.
pub open spec fn strip_leading(s: Seq<char>, c: char) -> Seq<char>
    decreases s.len(),
{
    if s.len() > 0 && s[0] == c {
        strip_leading(s.drop_first(), c)
    } else {
        s
    }
}

/// Strip every leading copy of `c`.
pub fn strip_leading_chars(v: &Vec<char>, c: char) -> (r: Vec<char>)
    ensures
        r@ == strip_leading(v@, c),
{
    let n: usize = v.len();
    let mut a: usize = 0;
    proof {
        assert(v@.skip(0) =~= v@);
    }
    while a < n && v[a] == c
        invariant
            n == v@.len(),
            a <= n,
            strip_leading(v@, c) == strip_leading(v@.skip(a as int), c),
        decreases n - a,
    {
        proof {
            assert(v@.skip(a as int).drop_first() =~= v@.skip(a as int + 1));
        }
        a = a + 1;
    }
    proof {
        if a < n {
            assert(strip_leading(v@.skip(a as int), c) == v@.skip(a as int));
        } else {
            assert(v@.skip(a as int) =~= Seq::<char>::empty());
        }
    }
    subvec(v, a, n)
}

/// Strip leading and trailing whitespace from a string.
pub fn trim_string(s: &str) -> (r: String)
    ensures
        r@ == spec_trim(s@),
{
    let cs = chars_of(s);
    let t = trim_chars(&cs);
    string_from_chars(&t)
}

/// Render `n` in decimal as an owned string.
pub fn u64_to_string(n: u64) -> (r: String)
    ensures
        r@ == spec_dec(n as nat),
{
    let v = u64_to_dec(n);
    string_from_chars(&v)
}

} // verus!
