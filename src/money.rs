//! Amounts of money as whole cents, with the two-decimal text that the
//! database and clients exchange ("19.99").

use vstd::prelude::*;
use vstd::string::StringSliceAdditionalSpecFns;
use crate::text::{
    all_digits, ascii_chars, ascii_string, digit_char, digits_of, digits_value, find_byte,
    find_byte_exec, lemma_digits_of, parse_digits, push_digits, str_bytes,
};

verus! {

/// The largest amount, in cents, that an amount column (ten digits, two of
/// them decimals) holds.
pub const MAX_CENTS: i64 = 9_999_999_999;

/// An amount of money, as a whole number of cents.
#[derive(Debug, Clone, Copy, PartialEq, Eq, Structural)]
pub struct Money {
    pub cents: i64,
}

/// The text of an amount: units, a point, then exactly two decimals.
pub open spec fn money_text(c: int) -> Seq<u8> {
    let m: nat = if c < 0 { (-c) as nat } else { c as nat };
    let body = digits_of(m / 100) + seq![0x2eu8, digit_char(((m % 100) / 10) as int), digit_char((m % 10) as int)];
    if c < 0 {
        seq![0x2du8] + body
    } else {
        body
    }
}

/// The cents that a text of the form `units[.d[d]]` denotes.
pub open spec fn money_value(b: Seq<u8>) -> Option<int> {
    let k = find_byte(b, 0x2e, 0);
    let units = b.subrange(0, k);
    if k == 0 || !all_digits(units) {
        None
    } else if k == b.len() {
        Some((digits_value(units) * 100) as int)
    } else {
        let frac = b.subrange(k + 1, b.len() as int);
        if frac.len() == 1 && all_digits(frac) {
            Some((digits_value(units) * 100 + digits_value(frac) * 10) as int)
        } else if frac.len() == 2 && all_digits(frac) {
            Some((digits_value(units) * 100 + digits_value(frac)) as int)
        } else {
            None
        }
    }
}

impl Money {
    pub fn from_cents(cents: i64) -> (r: Money)
        ensures
            r.cents == cents,
    {
        Money { cents }
    }

    /// Reads a non-negative amount such as "19.99", "19.9" or "19".
    pub fn parse(s: &str) -> (r: Option<Money>)
        ensures
            r is Some <==> (money_value(s.spec_bytes()) is Some
                && money_value(s.spec_bytes())->0 <= i64::MAX),
            r is Some ==> r->0.cents == money_value(s.spec_bytes())->0,
    {
        let b = str_bytes(s);
        let k = find_byte_exec(&b, 0x2eu8, 0);
        proof {
            crate::text::lemma_find_byte(b@, 0x2e, 0);
        }
        let units = match parse_digits(&b, 0, k) {
            None => return None,
            Some(u) => u,
        };
        if units > 92233720368547758u64 {
            return None;
        }
        let base: i64 = (units as i64) * 100;
        if k == b.len() {
            return Some(Money { cents: base });
        }
        let len = b.len();
        if len - (k + 1) == 0 || len - (k + 1) > 2 {
            return None;
        }
        let frac = match parse_digits(&b, k + 1, len) {
            None => return None,
            Some(f) => f,
        };
        proof {
            let fr = b@.subrange(k + 1, len as int);
            if fr.len() == 2 {
                assert(fr.drop_last().drop_last() =~= Seq::<u8>::empty());
                assert(crate::text::is_digit(fr[0]) && crate::text::is_digit(fr[1]));
                assert(fr.drop_last().last() == fr[0]);
                assert(digits_value(fr.drop_last().drop_last()) == 0);
                assert(digits_value(fr.drop_last()) <= 9);
                assert(digits_value(fr) <= 99);
            } else {
                assert(fr.drop_last() =~= Seq::<u8>::empty());
                assert(crate::text::is_digit(fr[0]));
                assert(digits_value(fr.drop_last()) == 0);
                assert(digits_value(fr) <= 9);
            }
            assert(frac < 100);
        }
        let add: i64 = if len - (k + 1) == 1 {
            (frac as i64) * 10
        } else {
            frac as i64
        };
        if base > i64::MAX - add {
            return None;
        }
        Some(Money { cents: base + add })
    }

    /// The amount as text with two decimals, "39.98".
    pub fn to_text(&self) -> (r: String)
        ensures
            r@ == ascii_chars(money_text(self.cents as int)),
    {
        let mut out: Vec<u8> = Vec::new();
        let m: u64 = if self.cents < 0 {
            out.push(0x2du8);
            if self.cents == i64::MIN {
                9223372036854775808u64
            } else {
                (-self.cents) as u64
            }
        } else {
            self.cents as u64
        };
        push_digits(&mut out, m / 100);
        out.push(0x2eu8);
        out.push(0x30u8 + ((m % 100) / 10) as u8);
        out.push(0x30u8 + (m % 10) as u8);
        proof {
            lemma_digits_of((m / 100) as nat);
            assert(out@ =~= money_text(self.cents as int));
            assert forall|i: int| 0 <= i < out@.len() implies #[trigger] out@[i] < 128 by {
                if self.cents < 0 && i == 0 {
                } else {
                    let j = if self.cents < 0 { i - 1 } else { i };
                    if j < digits_of((m / 100) as nat).len() {
                        assert(crate::text::is_digit(digits_of((m / 100) as nat)[j]));
                    }
                }
            }
        }
        ascii_string(&out)
    }
}

} // verus!
