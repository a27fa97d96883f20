//! What a password and an email address must look like.

use vstd::prelude::*;
use crate::auth::Auth;
use crate::error::{AppError, Invalid};

verus! {

pub open spec fn is_upper(c: char) -> bool {
    'A' <= c <= 'Z'
}

pub open spec fn is_lower(c: char) -> bool {
    'a' <= c <= 'z'
}

pub open spec fn is_digit_char(c: char) -> bool {
    '0' <= c <= '9'
}

pub open spec fn is_letter(c: char) -> bool {
    is_upper(c) || is_lower(c)
}

/// One of `!@#$%^&*`.
pub open spec fn is_special(c: char) -> bool {
    c == '!' || c == '@' || c == '#' || c == '$' || c == '%' || c == '^' || c == '&' || c == '*'
}

pub open spec fn has_upper(s: Seq<char>) -> bool {
    exists|i: int| 0 <= i < s.len() && is_upper(#[trigger] s[i])
}

pub open spec fn has_lower(s: Seq<char>) -> bool {
    exists|i: int| 0 <= i < s.len() && is_lower(#[trigger] s[i])
}

pub open spec fn has_digit(s: Seq<char>) -> bool {
    exists|i: int| 0 <= i < s.len() && is_digit_char(#[trigger] s[i])
}

pub open spec fn has_special(s: Seq<char>) -> bool {
    exists|i: int| 0 <= i < s.len() && is_special(#[trigger] s[i])
}

/// At least eight bytes long, with an upper-case letter, a digit, a
/// lower-case letter and one of `!@#$%^&*`.
pub open spec fn strong_password(p: Seq<char>) -> bool {
    vstd::utf8::encode_utf8(p).len() >= 8 && has_upper(p) && has_digit(p) && has_lower(p) && has_special(p)
}

/// A character of the part of an address before the `@`.
pub open spec fn local_char(c: char) -> bool {
    is_letter(c) || is_digit_char(c) || c == '.' || c == '_' || c == '%' || c == '+' || c == '-'
}

/// A character of the domain of an address.
pub open spec fn domain_char(c: char) -> bool {
    is_letter(c) || is_digit_char(c) || c == '.' || c == '-'
}

/// The first `c` from `from` on, or `s.len()`.
pub open spec fn find_char(s: Seq<char>, c: char, from: int) -> int
    decreases s.len() - from,
{
    if from >= s.len() {
        s.len() as int
    } else if s[from] == c {
        from
    } else {
        find_char(s, c, from + 1)
    }
}

/// The last `c` in `s`, or -1.
pub open spec fn last_char(s: Seq<char>, c: char) -> int
    decreases s.len(),
{
    if s.len() == 0 {
        -1
    } else if s.last() == c {
        s.len() - 1
    } else {
        last_char(s.drop_last(), c)
    }
}

/// An address that `^[a-zA-Z0-9._%+-]+@[a-zA-Z0-9.-]+\.[a-zA-Z]{2,}$`
/// matches: local characters up to the (only) `@`; after it, domain
/// characters up to a last `.` that is not first, then two or more letters.
pub open spec fn valid_email(e: Seq<char>) -> bool {
    let a = find_char(e, '@', 0);
    let d = e.subrange(a + 1, e.len() as int);
    let k = last_char(d, '.');
    &&& 0 < a < e.len()
    &&& forall|i: int| 0 <= i < a ==> local_char(#[trigger] e[i])
    &&& 1 <= k && k + 3 <= d.len()
    &&& forall|i: int| 0 <= i < k ==> domain_char(#[trigger] d[i])
    &&& forall|i: int| k < i < d.len() ==> is_letter(#[trigger] d[i])
}

proof fn lemma_find_char(s: Seq<char>, c: char, from: int)
    requires
        0 <= from <= s.len(),
    ensures
        from <= find_char(s, c, from) <= s.len(),
        forall|i: int| from <= i < find_char(s, c, from) ==> s[i] != c,
    decreases s.len() - from,
{
    if from < s.len() && s[from] != c {
        lemma_find_char(s, c, from + 1);
    }
}

proof fn lemma_last_char(s: Seq<char>, c: char)
    ensures
        -1 <= last_char(s, c) < s.len(),
        last_char(s, c) >= 0 ==> s[last_char(s, c)] == c,
        forall|i: int| last_char(s, c) < i < s.len() ==> s[i] != c,
    decreases s.len(),
{
    if s.len() > 0 && s.last() != c {
        lemma_last_char(s.drop_last(), c);
        assert forall|i: int| last_char(s, c) < i < s.len() implies s[i] != c by {
            if i < s.len() - 1 {
                assert(s[i] == s.drop_last()[i]);
            }
        }
    }
}

proof fn lemma_last_char_at(s: Seq<char>, c: char, k: int)
    requires
        -1 <= k < s.len(),
        k >= 0 ==> s[k] == c,
        forall|i: int| k < i < s.len() ==> s[i] != c,
    ensures
        last_char(s, c) == k,
    decreases s.len(),
{
    if s.len() > 0 && k < s.len() - 1 {
        let t = s.drop_last();
        assert forall|i: int| k < i < t.len() implies t[i] != c by {
            assert(t[i] == s[i]);
        }
        lemma_last_char_at(t, c, k);
    }
}

impl Auth {
    /// Accepts a strong password, refuses any other.
    pub fn check_password_strength(password: &str) -> (r: Result<(), AppError>)
        ensures
            r == if strong_password(password@) {
                Ok::<(), AppError>(())
            } else {
                Err(AppError::ValidationError(Invalid::WeakPassword))
            },
    {
        let weak = AppError::ValidationError(Invalid::WeakPassword);
        let bytes = crate::text::str_bytes(password);
        if bytes.len() < 8 {
            return Err(weak);
        }
        let n = password.unicode_len();
        let mut up = false;
        let mut low = false;
        let mut dig = false;
        let mut spe = false;
        let mut i: usize = 0;
        while i < n
            invariant
                n == password@.len(),
                i <= n,
                up == exists|j: int| 0 <= j < i && is_upper(#[trigger] password@[j]),
                low == exists|j: int| 0 <= j < i && is_lower(#[trigger] password@[j]),
                dig == exists|j: int| 0 <= j < i && is_digit_char(#[trigger] password@[j]),
                spe == exists|j: int| 0 <= j < i && is_special(#[trigger] password@[j]),
            decreases n - i,
        {
            let c = password.get_char(i);
            if 'A' <= c && c <= 'Z' {
                up = true;
            }
            if 'a' <= c && c <= 'z' {
                low = true;
            }
            if '0' <= c && c <= '9' {
                dig = true;
            }
            if c == '!' || c == '@' || c == '#' || c == '$' || c == '%' || c == '^' || c == '&'
                || c == '*' {
                spe = true;
            }
            i = i + 1;
        }
        if up && dig && low && spe {
            Ok(())
        } else {
            Err(weak)
        }
    }

    /// Accepts a well-formed email address, refuses any other.
    pub fn check_email(email: &str) -> (r: Result<(), AppError>)
        ensures
            r == if valid_email(email@) {
                Ok::<(), AppError>(())
            } else {
                Err(AppError::ValidationError(Invalid::MalformedEmail))
            },
    {
        let ghost e = email@;
        let n = email.unicode_len();
        let mut a: usize = 0;
        while a < n && email.get_char(a) != '@'
            invariant
                n == e.len(),
                e == email@,
                a <= n,
                find_char(e, '@', a as int) == find_char(e, '@', 0),
                forall|i: int| 0 <= i < a ==> local_char(#[trigger] e[i]),
            decreases n - a,
        {
            let c = email.get_char(a);
            if !(('A' <= c && c <= 'Z') || ('a' <= c && c <= 'z') || ('0' <= c && c <= '9') || c == '.'
                || c == '_' || c == '%' || c == '+' || c == '-') {
                proof {
                    assert(c == e[a as int]);
                    assert(!local_char(c));
                    lemma_find_char(e, '@', a as int + 1);
                    assert(find_char(e, '@', a as int) == find_char(e, '@', a as int + 1));
                    if valid_email(e) {
                        assert(find_char(e, '@', 0) > a);
                        assert(local_char(e[a as int]));
                    }
                    assert(!valid_email(e));
                }
                return Err(AppError::ValidationError(Invalid::MalformedEmail));
            }
            a = a + 1;
        }
        if a == 0 || a >= n {
            proof {
                if a < n {
                    assert(find_char(e, '@', a as int) == a);
                }
            }
            return Err(AppError::ValidationError(Invalid::MalformedEmail));
        }
        assert(find_char(e, '@', a as int) == a);
        let ghost d = e.subrange(a + 1, n as int);
        let mut k: usize = n;
        while k > a + 1 && email.get_char(k - 1) != '.'
            invariant
                n == e.len(),
                e == email@,
                a + 1 <= k <= n,
                0 < a < n,
                find_char(e, '@', 0) == a,
                d == e.subrange(a + 1, n as int),
                forall|i: int| k <= i < n ==> e[i] != '.' && is_letter(#[trigger] e[i]),
            decreases k,
        {
            let c = email.get_char(k - 1);
            if !(('A' <= c && c <= 'Z') || ('a' <= c && c <= 'z')) {
                proof {
                    lemma_last_char(d, '.');
                    let idx = k - 1 - (a + 1);
                    assert(d[idx] == c);
                    assert forall|j: int| idx <= j < d.len() implies d[j] != '.' by {
                        assert(d[j] == e[j + a + 1]);
                    }
                    if valid_email(e) {
                        assert(last_char(d, '.') < idx);
                        assert(is_letter(d[idx]));
                    }
                }
                return Err(AppError::ValidationError(Invalid::MalformedEmail));
            }
            k = k - 1;
        }
        if k == a + 1 {
            proof {
                lemma_last_char(d, '.');
                if valid_email(e) {
                    assert(d[last_char(d, '.')] == '.');
                    assert(e[a + 1 + last_char(d, '.')] == '.');
                }
            }
            return Err(AppError::ValidationError(Invalid::MalformedEmail));
        }
        let ghost kk = k - 1 - (a + 1);
        proof {
            assert(d[kk] == '.');
            assert forall|i: int| kk < i < d.len() implies d[i] != '.' by {
                assert(d[i] == e[i + a + 1]);
            }
            lemma_last_char_at(d, '.', kk);
        }
        if k - 1 - (a + 1) < 1 || n - k < 2 {
            return Err(AppError::ValidationError(Invalid::MalformedEmail));
        }
        let mut i: usize = a + 1;
        while i < k - 1
            invariant
                n == e.len(),
                e == email@,
                a + 1 <= i <= k - 1,
                0 < a < n,
                find_char(e, '@', 0) == a,
                last_char(d, '.') == k - 1 - (a + 1),
                k - 1 < n,
                d == e.subrange(a + 1, n as int),
                forall|j: int| a + 1 <= j < i ==> domain_char(#[trigger] e[j]),
            decreases k - 1 - i,
        {
            let c = email.get_char(i);
            if !(('A' <= c && c <= 'Z') || ('a' <= c && c <= 'z') || ('0' <= c && c <= '9') || c == '.'
                || c == '-') {
                proof {
                    assert(d[i - (a + 1)] == c);
                }
                return Err(AppError::ValidationError(Invalid::MalformedEmail));
            }
            i = i + 1;
        }
        proof {
            assert forall|j: int| 0 <= j < kk implies domain_char(#[trigger] d[j]) by {
                assert(d[j] == e[j + a + 1]);
            }
            assert forall|j: int| kk < j < d.len() implies is_letter(#[trigger] d[j]) by {
                assert(d[j] == e[j + a + 1]);
            }
            assert(find_char(e, '@', 0) == a);
        }
        Ok(())
    }
}

} // verus!
