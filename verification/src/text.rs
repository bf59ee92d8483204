//! Splitting of text at a separator and decimal port parsing, with the
//! meaning of each stated over sequences of characters.

use vstd::prelude::*;

verus! {

/// Position of the first occurrence of `pat` in `s` that starts at or after `from`.
pub open spec fn find_from(s: Seq<char>, pat: Seq<char>, from: int) -> Option<int>
    decreases s.len() + 1 - from,
{
    if from < 0 || from + pat.len() > s.len() {
        None
    } else if s.subrange(from, from + pat.len()) == pat {
        Some(from)
    } else {
        find_from(s, pat, from + 1)
    }
}

/// The `n`-th piece (counting from 0) of the part of `s` from `from` on, when that
/// part is cut at each leftmost, non-overlapping occurrence of `pat`; `None` when
/// there are not `n + 1` pieces.
pub open spec fn piece_from(s: Seq<char>, pat: Seq<char>, from: int, n: nat) -> Option<Seq<char>>
    decreases n,
{
    match find_from(s, pat, from) {
        None => if n == 0 {
            Some(s.subrange(from, s.len() as int))
        } else {
            None
        },
        Some(i) => if n == 0 {
            Some(s.subrange(from, i))
        } else {
            piece_from(s, pat, i + pat.len(), (n - 1) as nat)
        },
    }
}

/// The `n`-th piece of `s` cut at `pat`, as the `n`-th item of a split by a
/// non-empty pattern yields it.
pub open spec fn split_piece(s: Seq<char>, pat: Seq<char>, n: nat) -> Option<Seq<char>> {
    piece_from(s, pat, 0, n)
}

pub open spec fn is_digit(c: char) -> bool {
    0x30 <= (c as u32) && (c as u32) <= 0x39
}

pub open spec fn digit_value(c: char) -> nat {
    ((c as u32) - 0x30) as nat
}

pub open spec fn all_digits(d: Seq<char>) -> bool {
    forall|i: int| 0 <= i < d.len() ==> #[trigger] is_digit(d[i])
}

/// The number that the decimal digits `d` write, most significant first.
pub open spec fn digits_value(d: Seq<char>) -> nat
    decreases d.len(),
{
    if d.len() == 0 {
        0
    } else {
        digits_value(d.drop_last()) * 10 + digit_value(d.last())
    }
}

/// The digits of an unsigned decimal, after an optional leading `+`.
pub open spec fn unsigned_digits(s: Seq<char>) -> Seq<char> {
    if s.len() > 0 && s[0] == '+' {
        s.drop_first()
    } else {
        s
    }
}

/// What parsing `s` as a `u16` gives: an optional `+`, then at least one decimal
/// digit and nothing else, for a value that fits in 16 bits.
pub open spec fn parse_u16_spec(s: Seq<char>) -> Option<u16> {
    let d = unsigned_digits(s);
    if d.len() > 0 && all_digits(d) && digits_value(d) <= u16::MAX {
        Some(digits_value(d) as u16)
    } else {
        None
    }
}

/// A longer run of digits never writes a smaller number than its prefix.
pub proof fn lemma_digits_value_prefix(d: Seq<char>, k: int)
    requires
        all_digits(d),
        0 <= k <= d.len(),
    ensures
        digits_value(d.take(k)) <= digits_value(d),
    decreases d.len(),
{
    if k < d.len() {
        let p = d.drop_last();
        assert(all_digits(p)) by {
            assert forall|i: int| 0 <= i < p.len() implies #[trigger] is_digit(p[i]) by {
                assert(p[i] == d[i]);
            }
        }
        lemma_digits_value_prefix(p, k);
        assert(p.take(k) =~= d.take(k));
    } else {
        assert(d.take(k) =~= d);
    }
}

/// Whether `pat` occurs in `s` at position `i`.
fn matches_at(s: &str, pat: &str, plen: usize, i: usize) -> (r: bool)
    requires
        plen == pat@.len(),
        i + plen <= s@.len(),
        s@.len() <= usize::MAX,
    ensures
        r == (s@.subrange(i as int, i + plen) == pat@),
{
    let mut k: usize = 0;
    while k < plen
        invariant
            plen == pat@.len(),
            i + plen <= s@.len(),
            s@.len() <= usize::MAX,
            k <= plen,
            forall|j: int| 0 <= j < k ==> s@[i + j] == pat@[j],
        decreases plen - k,
    {
        if s.get_char(i + k) != pat.get_char(k) {
            assert(s@.subrange(i as int, i + plen)[k as int] != pat@[k as int]);
            return false;
        }
        k = k + 1;
    }
    assert(s@.subrange(i as int, i + plen) =~= pat@);
    true
}

/// First occurrence of `pat` in `s` at or after `from`.
fn find(s: &str, slen: usize, pat: &str, plen: usize, from: usize) -> (r: Option<usize>)
    requires
        slen == s@.len(),
        plen == pat@.len(),
        plen > 0,
        from <= slen,
    ensures
        match r {
            Some(i) => find_from(s@, pat@, from as int) == Some(i as int) && from <= i && i + plen
                <= slen,
            None => find_from(s@, pat@, from as int) is None,
        },
{
    let mut i = from;
    while i <= slen && slen - i >= plen
        invariant
            slen == s@.len(),
            plen == pat@.len(),
            plen > 0,
            from <= i <= slen,
            find_from(s@, pat@, from as int) == find_from(s@, pat@, i as int),
        decreases slen - i,
    {
        if matches_at(s, pat, plen, i) {
            return Some(i);
        }
        i = i + 1;
    }
    None
}

/// The `n`-th piece of `s` when it is split at `pat`, as `s.split(pat).nth(n)` gives it.
pub fn split_nth(s: &str, pat: &str, n: usize) -> (r: Option<String>)
    requires
        pat@.len() > 0,
    ensures
        match r {
            Some(p) => split_piece(s@, pat@, n as nat) == Some(p@),
            None => split_piece(s@, pat@, n as nat) is None,
        },
{
    let slen = s.unicode_len();
    let plen = pat.unicode_len();
    let mut from: usize = 0;
    let mut k: usize = n;
    loop
        invariant
            slen == s@.len(),
            plen == pat@.len(),
            plen > 0,
            from <= slen,
            piece_from(s@, pat@, 0, n as nat) == piece_from(s@, pat@, from as int, k as nat),
        decreases k,
    {
        match find(s, slen, pat, plen, from) {
            None => {
                if k == 0 {
                    return Some(String::from_str(s.substring_char(from, slen)));
                } else {
                    return None;
                }
            },
            Some(i) => {
                if k == 0 {
                    return Some(String::from_str(s.substring_char(from, i)));
                } else {
                    from = i + plen;
                    k = k - 1;
                }
            },
        }
    }
}

/// Parses `s` as a `u16` the way `str::parse::<u16>` does: an optional `+`, then
/// decimal digits only, for a value of at most 65535.
pub fn parse_u16(s: &str) -> (r: Option<u16>)
    ensures
        r == parse_u16_spec(s@),
{
    let len = s.unicode_len();
    let mut start: usize = 0;
    if len > 0 && s.get_char(0) == '+' {
        start = 1;
    }
    let ghost d = unsigned_digits(s@);
    assert(d =~= s@.subrange(start as int, len as int));
    if start == len {
        return None;
    }
    let mut acc: u32 = 0;
    let mut i: usize = start;
    while i < len
        invariant
            len == s@.len(),
            start < len,
            d == s@.subrange(start as int, len as int),
            d == unsigned_digits(s@),
            start <= i <= len,
            all_digits(d.take(i - start)),
            acc as nat == digits_value(d.take(i - start)),
            acc <= u16::MAX,
        decreases len - i,
    {
        let c = s.get_char(i);
        let ghost t = d.take(i - start + 1);
        assert(t.drop_last() =~= d.take(i - start));
        assert(d[i - start] == c);
        assert(t.last() == c);
        if !((c as u32) >= 0x30 && (c as u32) <= 0x39) {
            assert(!is_digit(d[i - start]));
            return None;
        }
        assert(all_digits(t)) by {
            assert forall|j: int| 0 <= j < t.len() implies #[trigger] is_digit(t[j]) by {
                if j < t.len() - 1 {
                    assert(t[j] == d.take(i - start)[j]);
                }
            }
        }
        acc = acc * 10 + ((c as u32) - 0x30);
        assert(digits_value(t) == digits_value(t.drop_last()) * 10 + digit_value(t.last()));
        assert(acc as nat == digits_value(t));
        if acc > 65535 {
            proof {
                if all_digits(d) {
                    lemma_digits_value_prefix(d, i - start + 1);
                }
            }
            return None;
        }
        i = i + 1;
    }
    assert(d.take(len - start) =~= d);
    Some(acc as u16)
}

/// Whether `s` begins with `prefix`.
pub open spec fn starts_with(s: Seq<char>, prefix: Seq<char>) -> bool {
    prefix.len() <= s.len() && s.subrange(0, prefix.len() as int) == prefix
}

pub fn str_starts_with(s: &str, prefix: &str) -> (r: bool)
    ensures
        r == starts_with(s@, prefix@),
{
    let slen = s.unicode_len();
    let plen = prefix.unicode_len();
    if plen > slen {
        return false;
    }
    matches_at(s, prefix, plen, 0)
}

/// A match that `find_from` reports lies inside `s`, at or after `from`.
pub proof fn lemma_find_from_found(s: Seq<char>, pat: Seq<char>, from: int)
    ensures
        find_from(s, pat, from) matches Some(k) ==> from <= k && k + pat.len() <= s.len()
            && s.subrange(k, k + pat.len()) == pat,
    decreases s.len() + 1 - from,
{
    if from >= 0 && from + pat.len() <= s.len() && s.subrange(from, from + pat.len()) != pat {
        lemma_find_from_found(s, pat, from + 1);
    }
}

/// Where no character of `s` from `from` up to `to` starts `pat`, the search from
/// `from` goes on as the search from `to`.
pub proof fn lemma_find_from_skip(s: Seq<char>, pat: Seq<char>, from: int, to: int)
    requires
        pat.len() > 0,
        0 <= from <= to <= s.len(),
        forall|i: int| from <= i < to ==> s[i] != pat[0],
    ensures
        find_from(s, pat, from) == find_from(s, pat, to),
    decreases to - from,
{
    if from < to {
        if from + pat.len() <= s.len() {
            assert(s.subrange(from, from + pat.len())[0] != pat[0]);
        }
        lemma_find_from_skip(s, pat, from + 1, to);
    }
}

/// A search that starts where `pat` stands finds it there.
pub proof fn lemma_find_from_at(s: Seq<char>, pat: Seq<char>, k: int)
    requires
        0 <= k,
        k + pat.len() <= s.len(),
        s.subrange(k, k + pat.len()) == pat,
    ensures
        find_from(s, pat, k) == Some(k),
{
}

/// A search from the end of `s` for a non-empty `pat` finds nothing.
pub proof fn lemma_find_from_end(s: Seq<char>, pat: Seq<char>)
    requires
        pat.len() > 0,
    ensures
        find_from(s, pat, s.len() as int) is None,
{
}

/// Text in which `pat` cannot start is its own only piece.
pub proof fn lemma_split_whole(s: Seq<char>, pat: Seq<char>)
    requires
        pat.len() > 0,
        forall|i: int| 0 <= i < s.len() ==> s[i] != pat[0],
    ensures
        find_from(s, pat, 0) is None,
        split_piece(s, pat, 0) == Some(s),
        split_piece(s, pat, 1) is None,
{
    lemma_find_from_skip(s, pat, 0, s.len() as int);
    lemma_find_from_end(s, pat);
    assert(s.subrange(0, s.len() as int) =~= s);
}

/// `a`, `pat`, `b` cut at `pat`, where `pat` can start in neither `a` nor `b`,
/// is `a` and `b`.
pub proof fn lemma_split_two(a: Seq<char>, pat: Seq<char>, b: Seq<char>)
    requires
        pat.len() > 0,
        forall|i: int| 0 <= i < a.len() ==> a[i] != pat[0],
        forall|i: int| 0 <= i < b.len() ==> b[i] != pat[0],
    ensures
        split_piece(a + pat + b, pat, 0) == Some(a),
        split_piece(a + pat + b, pat, 1) == Some(b),
{
    let s = a + pat + b;
    let k = a.len() as int;
    let e = k + pat.len();
    assert forall|i: int| 0 <= i < k implies s[i] != pat[0] by {
        assert(s[i] == a[i]);
    }
    lemma_find_from_skip(s, pat, 0, k);
    assert(s.subrange(k, e) =~= pat);
    lemma_find_from_at(s, pat, k);
    assert(s.subrange(0, k) =~= a);
    assert forall|i: int| e <= i < s.len() implies s[i] != pat[0] by {
        assert(s[i] == b[i - e]);
    }
    lemma_find_from_skip(s, pat, e, s.len() as int);
    lemma_find_from_end(s, pat);
    assert(s.subrange(e, s.len() as int) =~= b);
    assert(piece_from(s, pat, e, 0) == Some(b));
    assert(split_piece(s, pat, 1) == piece_from(s, pat, e, 0));
}

/// The decimal digit that writes `d`.
pub open spec fn digit_char(d: nat) -> char {
    if d == 0 {
        '0'
    } else if d == 1 {
        '1'
    } else if d == 2 {
        '2'
    } else if d == 3 {
        '3'
    } else if d == 4 {
        '4'
    } else if d == 5 {
        '5'
    } else if d == 6 {
        '6'
    } else if d == 7 {
        '7'
    } else if d == 8 {
        '8'
    } else {
        '9'
    }
}

/// `n` written in decimal, without leading zeros, as `Display` writes an integer.
pub open spec fn decimal(n: nat) -> Seq<char>
    decreases n,
{
    if n < 10 {
        seq![digit_char(n)]
    } else {
        decimal(n / 10).push(digit_char(n % 10))
    }
}

/// The decimal text of `n` is digits only and writes `n`.
pub proof fn lemma_decimal(n: nat)
    ensures
        decimal(n).len() > 0,
        all_digits(decimal(n)),
        digits_value(decimal(n)) == n,
        decimal(n)[0] != '+',
        forall|i: int| 0 <= i < decimal(n).len() ==> #[trigger] decimal(n)[i] != ':' && decimal(n)[i] != '/',
    decreases n,
{
    let d = decimal(n);
    if n < 10 {
        assert(d.drop_last() =~= Seq::<char>::empty());
        assert(digits_value(Seq::<char>::empty()) == 0);
    } else {
        lemma_decimal(n / 10);
        let p = decimal(n / 10);
        assert(d.drop_last() =~= p);
        assert(d[0] == p[0]);
        assert forall|i: int| 0 <= i < d.len() implies #[trigger] is_digit(d[i]) by {
            if i < p.len() {
                assert(d[i] == p[i]);
            }
        }
        assert forall|i: int| 0 <= i < d.len() implies #[trigger] d[i] != ':' && d[i] != '/' by {
            if i < p.len() {
                assert(d[i] == p[i]);
            }
        }
    }
}

/// A `u16` written in decimal parses back to itself.
pub proof fn law_decimal_parses_back(p: u16)
    ensures
        parse_u16_spec(decimal(p as nat)) == Some(p),
{
    lemma_decimal(p as nat);
}

/// Where `pat` first occurs in `s`.
pub fn find_first(s: &str, pat: &str) -> (r: Option<usize>)
    requires
        pat@.len() > 0,
    ensures
        match r {
            Some(i) => find_from(s@, pat@, 0) == Some(i as int) && i + pat@.len() <= s@.len(),
            None => find_from(s@, pat@, 0) is None,
        },
{
    let slen = s.unicode_len();
    let plen = pat.unicode_len();
    find(s, slen, pat, plen, 0)
}

/// Whether the bytes `s` begin with the bytes `prefix`.
pub open spec fn bytes_start_with(s: Seq<u8>, prefix: Seq<u8>) -> bool {
    prefix.len() <= s.len() && s.subrange(0, prefix.len() as int) == prefix
}

pub fn slice_starts_with(s: &[u8], prefix: &[u8]) -> (r: bool)
    ensures
        r == bytes_start_with(s@, prefix@),
{
    if prefix.len() > s.len() {
        return false;
    }
    let mut i: usize = 0;
    while i < prefix.len()
        invariant
            prefix@.len() <= s@.len(),
            i <= prefix@.len(),
            forall|j: int| 0 <= j < i ==> s@[j] == prefix@[j],
        decreases prefix@.len() - i,
    {
        if s[i] != prefix[i] {
            assert(s@.subrange(0, prefix@.len() as int)[i as int] != prefix@[i as int]);
            return false;
        }
        i = i + 1;
    }
    assert(s@.subrange(0, prefix@.len() as int) =~= prefix@);
    true
}

/// In `a`, `pat`, `b`, where `pat` cannot start in `a`, the first `pat` is the one
/// after `a`, and the first piece is `a`.
pub proof fn lemma_split_first(a: Seq<char>, pat: Seq<char>, b: Seq<char>)
    requires
        pat.len() > 0,
        forall|i: int| 0 <= i < a.len() ==> a[i] != pat[0],
    ensures
        find_from(a + pat + b, pat, 0) == Some(a.len() as int),
        split_piece(a + pat + b, pat, 0) == Some(a),
{
    let s = a + pat + b;
    let k = a.len() as int;
    assert forall|i: int| 0 <= i < k implies s[i] != pat[0] by {
        assert(s[i] == a[i]);
    }
    lemma_find_from_skip(s, pat, 0, k);
    assert(s.subrange(k, k + pat.len()) =~= pat);
    lemma_find_from_at(s, pat, k);
    assert(s.subrange(0, k) =~= a);
}

} // verus!
