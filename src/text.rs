//! Decimal integers written as ASCII bytes, and the few conversions between
//! byte buffers and strings that the rest of the library needs.

use vstd::prelude::*;
use vstd::string::StringSliceAdditionalSpecFns;

verus! {

pub open spec fn is_digit(b: u8) -> bool {
    0x30 <= b <= 0x39
}

pub open spec fn digit_char(d: int) -> u8
    recommends
        0 <= d < 10,
{
    (0x30 + d) as u8
}

/// The decimal digits of `n`, most significant first, without leading zeros.
pub open spec fn digits_of(n: nat) -> Seq<u8>
    decreases n,
{
    if n < 10 {
        seq![digit_char(n as int)]
    } else {
        digits_of(n / 10).push(digit_char((n % 10) as int))
    }
}

/// The text of an integer: its digits, after a minus sign when negative.
pub open spec fn int_text(n: int) -> Seq<u8> {
    if n < 0 {
        seq![0x2du8] + digits_of((-n) as nat)
    } else {
        digits_of(n as nat)
    }
}

pub open spec fn all_digits(s: Seq<u8>) -> bool {
    forall|i: int| 0 <= i < s.len() ==> is_digit(#[trigger] s[i])
}

/// The number that a run of digits denotes (leading zeros allowed).
pub open spec fn digits_value(s: Seq<u8>) -> nat
    decreases s.len(),
{
    if s.len() == 0 {
        0
    } else {
        digits_value(s.drop_last()) * 10 + ((s.last() - 0x30) as nat)
    }
}

/// The integer that `s` denotes: an optional minus sign and at least one digit.
pub open spec fn int_value(s: Seq<u8>) -> Option<int> {
    if s.len() > 0 && s[0] == 0x2d {
        let t = s.drop_first();
        if t.len() > 0 && all_digits(t) {
            Some(-(digits_value(t) as int))
        } else {
            None
        }
    } else if s.len() > 0 && all_digits(s) {
        Some(digits_value(s) as int)
    } else {
        None
    }
}

pub proof fn lemma_digits_of(n: nat)
    ensures
        digits_of(n).len() > 0,
        all_digits(digits_of(n)),
        digits_value(digits_of(n)) == n,
    decreases n,
{
    if n >= 10 {
        lemma_digits_of(n / 10);
        let s = digits_of(n);
        assert(s.drop_last() =~= digits_of(n / 10));
        vstd::arithmetic::div_mod::lemma_fundamental_div_mod(n as int, 10);
        assert(s.last() == digit_char((n % 10) as int));
        assert(digit_char((n % 10) as int) - 0x30 == n % 10);
        assert(digits_value(s) == digits_value(digits_of(n / 10)) * 10 + n % 10);
        assert forall|i: int| 0 <= i < s.len() implies is_digit(#[trigger] s[i]) by {
            if i < s.len() - 1 {
                assert(s[i] == digits_of(n / 10)[i]);
            }
        }
    } else {
        let s = digits_of(n);
        assert(s.drop_last() =~= Seq::<u8>::empty());
        assert(digit_char(n as int) - 0x30 == n);
        assert(digits_value(s) == digits_value(s.drop_last()) * 10 + (s.last() - 0x30) as nat);
    }
}

pub proof fn lemma_int_text(n: int)
    ensures
        int_value(int_text(n)) == Some(n),
        int_text(n).len() > 0,
        forall|i: int| 0 <= i < int_text(n).len() ==> #[trigger] int_text(n)[i] == 0x2d || is_digit(int_text(n)[i]),
{
    if n < 0 {
        lemma_digits_of((-n) as nat);
        assert(int_text(n).drop_first() =~= digits_of((-n) as nat));
        assert forall|i: int| 0 <= i < int_text(n).len() implies #[trigger] int_text(n)[i] == 0x2d || is_digit(int_text(n)[i]) by {
            if i > 0 {
                assert(int_text(n)[i] == digits_of((-n) as nat)[i - 1]);
            }
        }
    } else {
        lemma_digits_of(n as nat);
    }
}

/// Adding a digit never makes the value smaller.
pub proof fn lemma_digits_value_prefix(s: Seq<u8>, k: int)
    requires
        0 <= k <= s.len(),
        all_digits(s),
    ensures
        digits_value(s.subrange(0, k)) <= digits_value(s),
    decreases s.len() - k,
{
    if k < s.len() {
        lemma_digits_value_prefix(s, k + 1);
        let t = s.subrange(0, k + 1);
        assert(t.drop_last() =~= s.subrange(0, k));
        assert(is_digit(s[k]));
    } else {
        assert(s.subrange(0, k) =~= s);
    }
}

/// Appends the decimal digits of `n` to `out`.
pub fn push_digits(out: &mut Vec<u8>, n: u64)
    ensures
        final(out)@ == old(out)@ + digits_of(n as nat),
    decreases n,
{
    if n >= 10 {
        push_digits(out, n / 10);
    }
    let d: u8 = (n % 10) as u8;
    out.push(0x30u8 + d);
    proof {
        if n >= 10 {
            assert(old(out)@ + digits_of(n as nat) =~= old(out)@ + digits_of((n / 10) as nat)
                + seq![digit_char((n % 10) as int)]);
        } else {
            assert(digits_of(n as nat) =~= seq![digit_char(n as int)]);
        }
    }
}

/// Appends the text of `n` to `out`.
pub fn push_int(out: &mut Vec<u8>, n: i64)
    ensures
        final(out)@ == old(out)@ + int_text(n as int),
{
    if n < 0 {
        out.push(0x2du8);
        let m: u64 = if n == i64::MIN {
            9223372036854775808u64
        } else {
            (-n) as u64
        };
        push_digits(out, m);
        assert(final(out)@ =~= old(out)@ + int_text(n as int));
    } else {
        push_digits(out, n as u64);
    }
}

/// Parses `s[from..to]` as a run of digits; `None` when it is empty, holds
/// another byte, or denotes more than `u64::MAX`.
pub fn parse_digits(s: &Vec<u8>, from: usize, to: usize) -> (r: Option<u64>)
    requires
        from <= to <= s@.len(),
    ensures
        r is Some <==> (from < to && all_digits(s@.subrange(from as int, to as int))
            && digits_value(s@.subrange(from as int, to as int)) <= u64::MAX),
        r is Some ==> r->0 as nat == digits_value(s@.subrange(from as int, to as int)),
{
    if from == to {
        return None;
    }
    let ghost t = s@.subrange(from as int, to as int);
    let mut acc: u64 = 0;
    let mut i: usize = from;
    while i < to
        invariant
            from <= i <= to <= s@.len(),
            t == s@.subrange(from as int, to as int),
            all_digits(s@.subrange(from as int, i as int)),
            acc as nat == digits_value(s@.subrange(from as int, i as int)),
        decreases to - i,
    {
        let b = s[i];
        let ghost p = s@.subrange(from as int, i as int + 1);
        assert(p.drop_last() =~= s@.subrange(from as int, i as int));
        if b < 0x30 || b > 0x39 {
            assert(!is_digit(t[i - from]));
            return None;
        }
        assert forall|j: int| 0 <= j < p.len() implies is_digit(#[trigger] p[j]) by {
            if j < p.len() - 1 {
                assert(p[j] == s@.subrange(from as int, i as int)[j]);
            }
        }
        let d: u64 = (b - 0x30) as u64;
        if acc > 1844674407370955161u64 || (acc == 1844674407370955161u64 && d > 5) {
            proof {
                assert(digits_value(p) > u64::MAX);
                assert(p =~= t.subrange(0, i - from + 1));
                if all_digits(t) {
                    lemma_digits_value_prefix(t, i - from + 1);
                }
            }
            return None;
        }
        acc = acc * 10 + d;
        i = i + 1;
    }
    Some(acc)
}

/// Parses `s[from..to]` as an integer that fits an `i64`.
pub fn parse_int(s: &Vec<u8>, from: usize, to: usize) -> (r: Option<i64>)
    requires
        from <= to <= s@.len(),
    ensures
        r is Some <==> (int_value(s@.subrange(from as int, to as int)) is Some
            && i64::MIN <= int_value(s@.subrange(from as int, to as int))->0 <= i64::MAX),
        r is Some ==> r->0 as int == int_value(s@.subrange(from as int, to as int))->0,
{
    let ghost t = s@.subrange(from as int, to as int);
    if from < to && s[from] == 0x2du8 {
        assert(t.drop_first() =~= s@.subrange(from + 1, to as int));
        match parse_digits(s, from + 1, to) {
            None => {
                proof {
                    if from + 1 < to && all_digits(t.drop_first()) {
                        assert(digits_value(t.drop_first()) > u64::MAX);
                    }
                }
                None
            },
            Some(m) => {
                if m > 9223372036854775808u64 {
                    None
                } else if m == 9223372036854775808u64 {
                    Some(i64::MIN)
                } else {
                    Some(-(m as i64))
                }
            },
        }
    } else {
        match parse_digits(s, from, to) {
            None => None,
            Some(m) => {
                if m > 9223372036854775807u64 {
                    None
                } else {
                    Some(m as i64)
                }
            },
        }
    }
}

/// Where the first `c` at or after `from` stands in `s`, or `s.len()` when
/// there is none.
pub open spec fn find_byte(s: Seq<u8>, c: u8, from: int) -> int
    decreases s.len() - from,
{
    if from >= s.len() {
        s.len() as int
    } else if s[from] == c {
        from
    } else {
        find_byte(s, c, from + 1)
    }
}

pub proof fn lemma_find_byte(s: Seq<u8>, c: u8, from: int)
    requires
        0 <= from <= s.len(),
    ensures
        from <= find_byte(s, c, from) <= s.len(),
        find_byte(s, c, from) < s.len() ==> s[find_byte(s, c, from)] == c,
        forall|i: int| from <= i < find_byte(s, c, from) ==> s[i] != c,
    decreases s.len() - from,
{
    if from < s.len() && s[from] != c {
        lemma_find_byte(s, c, from + 1);
    }
}

/// If `c` first stands at `k` from `from` on, the search finds `k`.
pub proof fn lemma_find_byte_at(s: Seq<u8>, c: u8, from: int, k: int)
    requires
        0 <= from <= k <= s.len(),
        k < s.len() ==> s[k] == c,
        forall|i: int| from <= i < k ==> s[i] != c,
    ensures
        find_byte(s, c, from) == k,
    decreases k - from,
{
    if from < k {
        lemma_find_byte_at(s, c, from + 1, k);
    }
}

pub fn find_byte_exec(s: &Vec<u8>, c: u8, from: usize) -> (r: usize)
    requires
        from <= s@.len(),
    ensures
        r as int == find_byte(s@, c, from as int),
{
    let mut i: usize = from;
    while i < s.len()
        invariant
            from <= i <= s@.len(),
            find_byte(s@, c, i as int) == find_byte(s@, c, from as int),
        decreases s@.len() - i,
    {
        if s[i] == c {
            return i;
        }
        i = i + 1;
    }
    i
}

/// The bytes of an ASCII character sequence.
pub open spec fn char_bytes(s: Seq<char>) -> Seq<u8> {
    Seq::new(s.len(), |i: int| s[i] as u8)
}

/// The characters of an ASCII byte sequence.
pub open spec fn ascii_chars(b: Seq<u8>) -> Seq<char> {
    Seq::new(b.len(), |i: int| b[i] as char)
}

/// Relies on `String::push`: appends one character.
#[verifier::external_body]
fn push_char(s: &mut String, c: char)
    ensures
        final(s)@ == old(s)@.push(c),
{
    s.push(c)
}

/// The string whose characters are the given ASCII bytes.
pub fn ascii_string(b: &Vec<u8>) -> (r: String)
    requires
        forall|i: int| 0 <= i < b@.len() ==> #[trigger] b@[i] < 128,
    ensures
        r@ == ascii_chars(b@),
{
    let mut r = String::new();
    let mut i: usize = 0;
    while i < b.len()
        invariant
            i <= b@.len(),
            r@ == ascii_chars(b@.subrange(0, i as int)),
        decreases b@.len() - i,
    {
        push_char(&mut r, b[i] as char);
        i = i + 1;
        assert(r@ =~= ascii_chars(b@.subrange(0, i as int)));
    }
    assert(b@.subrange(0, b@.len() as int) =~= b@);
    r
}

/// The bytes of a string, with the fact that an ASCII string's bytes are
/// its characters.
pub fn str_bytes(s: &str) -> (r: Vec<u8>)
    ensures
        r@ == s.spec_bytes(),
        s.is_ascii() ==> ascii_chars(r@) == s@,
        s.is_ascii() ==> r@ == char_bytes(s@),
        s.is_ascii() ==> forall|i: int| 0 <= i < r@.len() ==> #[trigger] r@[i] < 128,
{
    proof {
        broadcast use vstd::string::is_ascii_spec_bytes;
    }
    let r = s.as_bytes_vec();
    proof {
        if s.is_ascii() {
            assert(ascii_chars(r@) =~= s@) by {
                assert forall|i: int| 0 <= i < r@.len() implies #[trigger] ascii_chars(r@)[i] == s@[i] by {
                    let c = s@[i];
                    assert('\0' <= c <= '\u{7f}');
                }
            }
            assert(r@ =~= char_bytes(s@));
        }
    }
    r
}

/// Whether two strings hold the same characters.
pub fn same_text(a: &str, b: &str) -> (r: bool)
    ensures
        r == (a@ == b@),
{
    let n = a.unicode_len();
    if n != b.unicode_len() {
        return false;
    }
    let mut i: usize = 0;
    while i < n
        invariant
            n == a@.len() == b@.len(),
            i <= n,
            a@.subrange(0, i as int) == b@.subrange(0, i as int),
        decreases n - i,
    {
        if a.get_char(i) != b.get_char(i) {
            return false;
        }
        assert(a@.subrange(0, i as int + 1) =~= a@.subrange(0, i as int).push(a@[i as int]));
        assert(b@.subrange(0, i as int + 1) =~= b@.subrange(0, i as int).push(b@[i as int]));
        i = i + 1;
    }
    assert(a@ =~= a@.subrange(0, n as int));
    assert(b@ =~= b@.subrange(0, n as int));
    true
}

} // verus!
