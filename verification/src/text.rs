//! Character- and byte-level helpers on strings.

use vstd::prelude::*;
use vstd::utf8::*;
use vstd::std_specs::iter::IteratorSpec;

verus! {

broadcast use vstd::string::group_string_axioms;

/// True when `needle` occurs in `hay` starting at position `i`.
pub open spec fn occurs_at<T>(hay: Seq<T>, needle: Seq<T>, i: int) -> bool {
    0 <= i && i + needle.len() <= hay.len() && hay.subrange(i, i + needle.len()) == needle
}

/// True when `needle` occurs somewhere in `hay`.
pub open spec fn seq_contains<T>(hay: Seq<T>, needle: Seq<T>) -> bool {
    exists|i: int| occurs_at(hay, needle, i)
}

/// The first position at or after `k` where `needle` occurs in `hay`.
pub open spec fn find_from<T>(hay: Seq<T>, needle: Seq<T>, k: int) -> Option<int>
    decreases hay.len() + 1 - k,
{
    if k < 0 || k + needle.len() > hay.len() {
        None
    } else if hay.subrange(k, k + needle.len()) == needle {
        Some(k)
    } else {
        find_from(hay, needle, k + 1)
    }
}

/// Whatever `find_from` returns is an occurrence, and no earlier one exists.
pub proof fn lemma_find_from<T>(hay: Seq<T>, needle: Seq<T>, k: int)
    requires
        0 <= k,
    ensures
        find_from(hay, needle, k) matches Some(i) ==> k <= i && occurs_at(hay, needle, i),
        forall|j: int|
            k <= j && (find_from(hay, needle, k) matches Some(i) ==> j < i) ==> !#[trigger] occurs_at(
                hay,
                needle,
                j,
            ),
    decreases hay.len() + 1 - k,
{
    if k + needle.len() > hay.len() {
    } else if hay.subrange(k, k + needle.len()) == needle {
    } else {
        lemma_find_from(hay, needle, k + 1);
    }
}

/// The characters of `s`, in order.
pub fn chars_of(s: &str) -> (v: Vec<char>)
    ensures
        v@ == s@,
{
    let mut v: Vec<char> = Vec::new();
    for c in it: s.chars()
        invariant
            v@ == it.seq().take(it.index()),
    {
        v.push(c);
    }
    v
}

/// Whether `needle` occurs in `hay` starting exactly at `i`.
fn bytes_match_at(hay: &[u8], needle: &[u8], i: usize) -> (b: bool)
    requires
        i + needle@.len() <= hay@.len(),
    ensures
        b == (hay@.subrange(i as int, i + needle@.len()) == needle@),
{
    let hl = hay.len();
    let mut j: usize = 0;
    while j < needle.len()
        invariant
            j <= needle@.len(),
            hl == hay@.len(),
            i + needle@.len() <= hay@.len(),
            forall|t: int| 0 <= t < j ==> hay@[i + t] == needle@[t],
        decreases needle@.len() - j,
    {
        if hay[i + j] != needle[j] {
            assert(hay@.subrange(i as int, i + needle@.len())[j as int] != needle@[j as int]);
            return false;
        }
        j = j + 1;
    }
    assert(hay@.subrange(i as int, i + needle@.len()) =~= needle@);
    true
}

/// The first position at or after `from` where `needle` occurs in `hay`.
pub fn find_bytes_from(hay: &[u8], needle: &[u8], from: usize) -> (r: Option<usize>)
    ensures
        r matches Some(i) ==> find_from(hay@, needle@, from as int) == Some(i as int),
        r is None ==> find_from(hay@, needle@, from as int) is None,
{
    if needle.len() > hay.len() {
        return None;
    }
    let last = hay.len() - needle.len();
    let mut k = from;
    if k > last {
        return None;
    }
    loop
        invariant
            from <= k <= last,
            last == hay@.len() - needle@.len(),
            find_from(hay@, needle@, from as int) == find_from(hay@, needle@, k as int),
        decreases last - k,
    {
        if bytes_match_at(hay, needle, k) {
            return Some(k);
        }
        if k == last {
            assert(find_from(hay@, needle@, k + 1) is None);
            return None;
        }
        k = k + 1;
    }
}

/// Whether `needle` occurs in `hay` starting exactly at `i`.
fn chars_match_at(hay: &Vec<char>, needle: &Vec<char>, i: usize) -> (b: bool)
    requires
        i + needle@.len() <= hay@.len(),
    ensures
        b == (hay@.subrange(i as int, i + needle@.len()) == needle@),
{
    let hl = hay.len();
    let mut j: usize = 0;
    while j < needle.len()
        invariant
            j <= needle@.len(),
            hl == hay@.len(),
            i + needle@.len() <= hay@.len(),
            forall|t: int| 0 <= t < j ==> hay@[i + t] == needle@[t],
        decreases needle@.len() - j,
    {
        if hay[i + j] != needle[j] {
            assert(hay@.subrange(i as int, i + needle@.len())[j as int] != needle@[j as int]);
            return false;
        }
        j = j + 1;
    }
    assert(hay@.subrange(i as int, i + needle@.len()) =~= needle@);
    true
}

/// Whether the characters `needle` occur somewhere in `hay`.
pub fn contains_chars(hay: &Vec<char>, needle: &Vec<char>) -> (b: bool)
    ensures
        b == seq_contains(hay@, needle@),
{
    if needle.len() > hay.len() {
        return false;
    }
    let last = hay.len() - needle.len();
    let mut k: usize = 0;
    loop
        invariant
            k <= last,
            last == hay@.len() - needle@.len(),
            forall|j: int| 0 <= j < k ==> !#[trigger] occurs_at(hay@, needle@, j),
        decreases last - k,
    {
        if chars_match_at(hay, needle, k) {
            assert(occurs_at(hay@, needle@, k as int));
            return true;
        }
        if k == last {
            return false;
        }
        k = k + 1;
    }
}

/// Whether `needle` occurs in `hay`.
pub fn str_contains(hay: &str, needle: &str) -> (b: bool)
    ensures
        b == seq_contains(hay@, needle@),
{
    let h = chars_of(hay);
    let n = chars_of(needle);
    contains_chars(&h, &n)
}

/// Whether two strings hold the same characters.
pub fn str_equals(a: &str, b: &str) -> (r: bool)
    ensures
        r == (a@ == b@),
{
    let x = chars_of(a);
    let y = chars_of(b);
    if x.len() != y.len() {
        return false;
    }
    let mut i: usize = 0;
    while i < x.len()
        invariant
            i <= x@.len(),
            x@ == a@,
            y@ == b@,
            x@.len() == y@.len(),
            forall|t: int| 0 <= t < i ==> x@[t] == y@[t],
        decreases x@.len() - i,
    {
        if x[i] != y[i] {
            return false;
        }
        i = i + 1;
    }
    assert(x@ =~= y@);
    true
}

/// The value of the decimal digits `d`.
pub open spec fn digits_value(d: Seq<char>) -> int
    decreases d.len(),
{
    if d.len() == 0 {
        0
    } else {
        digits_value(d.drop_last()) * 10 + (d.last() as int - 48)
    }
}

/// `d` is a non-empty run of ASCII digits.
pub open spec fn all_digits(d: Seq<char>) -> bool {
    d.len() > 0 && forall|i: int| 0 <= i < d.len() ==> '0' <= #[trigger] d[i] <= '9'
}

/// The `u64` that `s` denotes: an optional `+` then decimal digits, within
/// range.
pub open spec fn parsed_u64(s: Seq<char>) -> Option<u64> {
    let d = if s.len() > 0 && s[0] == '+' { s.drop_first() } else { s };
    if all_digits(d) && digits_value(d) <= u64::MAX {
        Some(digits_value(d) as u64)
    } else {
        None
    }
}

proof fn lemma_digits_nonneg(d: Seq<char>)
    requires
        forall|i: int| 0 <= i < d.len() ==> '0' <= #[trigger] d[i] <= '9',
    ensures
        digits_value(d) >= 0,
    decreases d.len(),
{
    if d.len() > 0 {
        lemma_digits_nonneg(d.drop_last());
    }
}

/// More digits never make a smaller value.
proof fn lemma_digits_prefix(d: Seq<char>, k: int)
    requires
        0 <= k <= d.len(),
        forall|i: int| 0 <= i < d.len() ==> '0' <= #[trigger] d[i] <= '9',
    ensures
        digits_value(d.take(k)) <= digits_value(d),
    decreases d.len(),
{
    if k < d.len() {
        lemma_digits_prefix(d.drop_last(), k);
        lemma_digits_nonneg(d.drop_last());
        assert(d.drop_last().take(k) =~= d.take(k));
    } else {
        assert(d.take(k) =~= d);
    }
}

/// The number a decimal text denotes, if it is one (as `u64::from_str`
/// reads it).
pub(crate) fn parse_u64(s: &str) -> (r: Option<u64>)
    ensures
        r == parsed_u64(s@),
{
    let ghost t = s@;
    let ghost off: int = if t.len() > 0 && t[0] == '+' { 1 } else { 0 };
    let mut it = s.chars();
    let ghost mut j: int = 0;
    let mut at_start = true;
    let mut value: u64 = 0;
    let mut seen_digit = false;
    loop
        invariant_except_break
            0 <= j <= t.len(),
            it.remaining() == t.skip(j),
            at_start == (j == 0),
            j == 0 ==> value == 0 && !seen_digit,
            j > 0 ==> j >= off,
            j > 0 ==> value == digits_value(t.subrange(off, j)),
            j > 0 ==> seen_digit == (j > off),
            forall|q: int| off <= q < j ==> '0' <= #[trigger] t[q] <= '9',
        invariant
            t == s@,
            off == (if t.len() > 0 && t[0] == '+' { 1int } else { 0int }),
        ensures
            j == t.len(),
            j == 0 ==> value == 0 && !seen_digit,
            j > 0 ==> j >= off,
            j > 0 ==> value == digits_value(t.subrange(off, j)),
            j > 0 ==> seen_digit == (j > off),
            forall|q: int| off <= q < j ==> '0' <= #[trigger] t[q] <= '9',
        decreases t.len() - j,
    {
        let next = it.next();
        match next {
            None => {
                break;
            },
            Some(c) => {
                proof {
                    assert(c == t[j]);
                }
                if at_start && c == '+' {
                    at_start = false;
                    proof {
                        assert(t[0] == '+');
                        assert(off == 1);
                        j = j + 1;
                        assert(t.subrange(off, j) =~= Seq::<char>::empty());
                    }
                } else {
                    at_start = false;
                    if c < '0' || c > '9' {
                        proof {
                            if j == 0 {
                                assert(t[0] != '+');
                                assert(off == 0);
                            }
                            assert(j >= off);
                            if off == 1 {
                                assert(t.drop_first()[j - 1] == t[j]);
                                assert(!('0' <= t.drop_first()[j - 1] <= '9'));
                            } else {
                                assert(!('0' <= t[j] <= '9'));
                            }
                        }
                        return None;
                    }
                    let digit = (c as u32 - 48) as u64;
                    proof {
                        let p = t.subrange(off, j + 1);
                        assert(p.drop_last() =~= t.subrange(off, j));
                        assert(p.last() == c);
                    }
                    let grown = match value.checked_mul(10) {
                        Some(v) => v.checked_add(digit),
                        None => None,
                    };
                    match grown {
                        Some(v) => {
                            value = v;
                            seen_digit = true;
                            proof {
                                j = j + 1;
                            }
                        },
                        None => {
                            proof {
                                let d = if t.len() > 0 && t[0] == '+' { t.drop_first() } else { t };
                                let p = t.subrange(off, j + 1);
                                lemma_digits_nonneg(t.subrange(off, j));
                                assert(digits_value(p) > u64::MAX);
                                if forall|q: int| 0 <= q < d.len() ==> '0' <= #[trigger] d[q] <= '9' {
                                    lemma_digits_prefix(d, j + 1 - off);
                                    assert(d.take(j + 1 - off) =~= p);
                                }
                            }
                            return None;
                        },
                    }
                }
            },
        }
    }
    proof {
        let d = if t.len() > 0 && t[0] == '+' { t.drop_first() } else { t };
        if j > off {
            assert(t.subrange(off, j) =~= d);
        } else {
            assert(d.len() == 0);
        }
    }
    if seen_digit {
        Some(value)
    } else {
        None
    }
}

/// A byte that follows a one-byte character at a character boundary starts a
/// character too.
pub proof fn lemma_boundary_after_ascii(bytes: Seq<u8>, i: int)
    requires
        valid_utf8(bytes),
        0 <= i < bytes.len(),
        is_char_boundary(bytes, i),
        bytes[i] < 0x80,
    ensures
        is_char_boundary(bytes, i + 1),
    decreases bytes.len(),
{
    reveal_with_fuel(is_char_boundary, 2);
    if i == 0 {
        assert(length_of_first_scalar(bytes) == 1);
        assert(valid_utf8(pop_first_scalar(bytes)));
    } else {
        assert(valid_utf8(pop_first_scalar(bytes)));
        let l = length_of_first_scalar(bytes);
        assert(is_char_boundary(pop_first_scalar(bytes), i - l));
        assert(i - l >= 0) by {
            if i - l < 0 {
                assert(!is_char_boundary(pop_first_scalar(bytes), i - l));
            }
        }
        let p = pop_first_scalar(bytes);
        assert(p[i - l] == bytes[i]);
        lemma_boundary_after_ascii(p, i - l);
    }
}

} // verus!
