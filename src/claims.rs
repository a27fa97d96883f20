//! The claims that a bearer token carries, written as the JSON payload of
//! the token and read back from it.

use vstd::prelude::*;
use crate::text::{
    find_byte, find_byte_exec, int_text, int_value, is_digit, lemma_find_byte, lemma_find_byte_at,
    lemma_int_text, parse_int, push_int,
};

verus! {

/// The closed set of roles a user can have.
#[derive(Debug, Clone, Copy, PartialEq, Eq, Structural)]
pub enum Role {
    Customer,
    Supplier,
}

/// The verified content of a token: whose it is, their role, and when it
/// was issued and expires, in seconds since the epoch.
#[derive(Debug, Clone, Copy, PartialEq, Eq, Structural)]
pub struct Claims {
    pub user_id: i32,
    pub role: Role,
    pub exp: i64,
    pub iat: i64,
}

/// The bytes of `{"user_id":"`.
pub open spec fn head() -> Seq<u8> {
    seq![0x7bu8, 0x22u8, 0x75u8, 0x73u8, 0x65u8, 0x72u8, 0x5fu8, 0x69u8, 0x64u8, 0x22u8, 0x3au8, 0x22u8]
}

fn push_head(out: &mut Vec<u8>)
    ensures
        final(out)@ == old(out)@ + head(),
{
    out.push(0x7bu8);
    out.push(0x22u8);
    out.push(0x75u8);
    out.push(0x73u8);
    out.push(0x65u8);
    out.push(0x72u8);
    out.push(0x5fu8);
    out.push(0x69u8);
    out.push(0x64u8);
    out.push(0x22u8);
    out.push(0x3au8);
    out.push(0x22u8);
    assert(out@ =~= old(out)@ + head());
}

/// The bytes of `","role":"`.
pub open spec fn mid_role() -> Seq<u8> {
    seq![0x22u8, 0x2cu8, 0x22u8, 0x72u8, 0x6fu8, 0x6cu8, 0x65u8, 0x22u8, 0x3au8, 0x22u8]
}

fn push_mid_role(out: &mut Vec<u8>)
    ensures
        final(out)@ == old(out)@ + mid_role(),
{
    out.push(0x22u8);
    out.push(0x2cu8);
    out.push(0x22u8);
    out.push(0x72u8);
    out.push(0x6fu8);
    out.push(0x6cu8);
    out.push(0x65u8);
    out.push(0x22u8);
    out.push(0x3au8);
    out.push(0x22u8);
    assert(out@ =~= old(out)@ + mid_role());
}

/// The bytes of `","exp":`.
pub open spec fn mid_exp() -> Seq<u8> {
    seq![0x22u8, 0x2cu8, 0x22u8, 0x65u8, 0x78u8, 0x70u8, 0x22u8, 0x3au8]
}

fn push_mid_exp(out: &mut Vec<u8>)
    ensures
        final(out)@ == old(out)@ + mid_exp(),
{
    out.push(0x22u8);
    out.push(0x2cu8);
    out.push(0x22u8);
    out.push(0x65u8);
    out.push(0x78u8);
    out.push(0x70u8);
    out.push(0x22u8);
    out.push(0x3au8);
    assert(out@ =~= old(out)@ + mid_exp());
}

/// The bytes of `,"iat":`.
pub open spec fn mid_iat() -> Seq<u8> {
    seq![0x2cu8, 0x22u8, 0x69u8, 0x61u8, 0x74u8, 0x22u8, 0x3au8]
}

fn push_mid_iat(out: &mut Vec<u8>)
    ensures
        final(out)@ == old(out)@ + mid_iat(),
{
    out.push(0x2cu8);
    out.push(0x22u8);
    out.push(0x69u8);
    out.push(0x61u8);
    out.push(0x74u8);
    out.push(0x22u8);
    out.push(0x3au8);
    assert(out@ =~= old(out)@ + mid_iat());
}

/// The bytes of `}`.
pub open spec fn tail() -> Seq<u8> {
    seq![0x7du8]
}

fn push_tail(out: &mut Vec<u8>)
    ensures
        final(out)@ == old(out)@ + tail(),
{
    out.push(0x7du8);
    assert(out@ =~= old(out)@ + tail());
}

/// The bytes of `customer`.
pub open spec fn customer_text() -> Seq<u8> {
    seq![0x63u8, 0x75u8, 0x73u8, 0x74u8, 0x6fu8, 0x6du8, 0x65u8, 0x72u8]
}

fn push_customer_text(out: &mut Vec<u8>)
    ensures
        final(out)@ == old(out)@ + customer_text(),
{
    out.push(0x63u8);
    out.push(0x75u8);
    out.push(0x73u8);
    out.push(0x74u8);
    out.push(0x6fu8);
    out.push(0x6du8);
    out.push(0x65u8);
    out.push(0x72u8);
    assert(out@ =~= old(out)@ + customer_text());
}

/// The bytes of `supplier`.
pub open spec fn supplier_text() -> Seq<u8> {
    seq![0x73u8, 0x75u8, 0x70u8, 0x70u8, 0x6cu8, 0x69u8, 0x65u8, 0x72u8]
}

fn push_supplier_text(out: &mut Vec<u8>)
    ensures
        final(out)@ == old(out)@ + supplier_text(),
{
    out.push(0x73u8);
    out.push(0x75u8);
    out.push(0x70u8);
    out.push(0x70u8);
    out.push(0x6cu8);
    out.push(0x69u8);
    out.push(0x65u8);
    out.push(0x72u8);
    assert(out@ =~= old(out)@ + supplier_text());
}

/// The bytes of `{"typ":"JWT","alg":"HS256"}`.
pub open spec fn header_json() -> Seq<u8> {
    seq![0x7bu8, 0x22u8, 0x74u8, 0x79u8, 0x70u8, 0x22u8, 0x3au8, 0x22u8, 0x4au8, 0x57u8, 0x54u8, 0x22u8, 0x2cu8, 0x22u8, 0x61u8, 0x6cu8, 0x67u8, 0x22u8, 0x3au8, 0x22u8, 0x48u8, 0x53u8, 0x32u8, 0x35u8, 0x36u8, 0x22u8, 0x7du8]
}

fn push_header_json(out: &mut Vec<u8>)
    ensures
        final(out)@ == old(out)@ + header_json(),
{
    out.push(0x7bu8);
    out.push(0x22u8);
    out.push(0x74u8);
    out.push(0x79u8);
    out.push(0x70u8);
    out.push(0x22u8);
    out.push(0x3au8);
    out.push(0x22u8);
    out.push(0x4au8);
    out.push(0x57u8);
    out.push(0x54u8);
    out.push(0x22u8);
    out.push(0x2cu8);
    out.push(0x22u8);
    out.push(0x61u8);
    out.push(0x6cu8);
    out.push(0x67u8);
    out.push(0x22u8);
    out.push(0x3au8);
    out.push(0x22u8);
    out.push(0x48u8);
    out.push(0x53u8);
    out.push(0x32u8);
    out.push(0x35u8);
    out.push(0x36u8);
    out.push(0x22u8);
    out.push(0x7du8);
    assert(out@ =~= old(out)@ + header_json());
}

impl Role {
    pub open spec fn spec_text(self) -> Seq<u8> {
        match self {
            Role::Customer => customer_text(),
            Role::Supplier => supplier_text(),
        }
    }

    pub open spec fn spec_name(self) -> Seq<char> {
        match self {
            Role::Customer => "customer"@,
            Role::Supplier => "supplier"@,
        }
    }

    pub open spec fn spec_from_name(name: Seq<char>) -> Option<Role> {
        if name == "customer"@ {
            Some(Role::Customer)
        } else if name == "supplier"@ {
            Some(Role::Supplier)
        } else {
            None
        }
    }

    /// The role's name as users and tokens write it.
    pub fn name(&self) -> (r: String)
        ensures
            r@ == self.spec_name(),
    {
        match self {
            Role::Customer => String::from_str("customer"),
            Role::Supplier => String::from_str("supplier"),
        }
    }

    pub fn from_name(name: &str) -> (r: Option<Role>)
        ensures
            r == Role::spec_from_name(name@),
    {
        if crate::text::same_text(name, "customer") {
            Some(Role::Customer)
        } else if crate::text::same_text(name, "supplier") {
            Some(Role::Supplier)
        } else {
            None
        }
    }
}

/// The role that a run of bytes names.
pub open spec fn role_of(b: Seq<u8>) -> Option<Role> {
    if b == customer_text() {
        Some(Role::Customer)
    } else if b == supplier_text() {
        Some(Role::Supplier)
    } else {
        None
    }
}

/// The JSON payload of a token:
/// `{"user_id":"7","role":"customer","exp":1700000000,"iat":1690000000}`.
pub open spec fn claims_json(c: Claims) -> Seq<u8> {
    head() + int_text(c.user_id as int) + mid_role() + c.role.spec_text() + mid_exp() + int_text(
        c.exp as int,
    ) + mid_iat() + int_text(c.iat as int) + tail()
}

/// Whether `lit` stands in `v` at `pos`.
pub open spec fn lit_at(v: Seq<u8>, pos: int, lit: Seq<u8>) -> bool {
    0 <= pos && pos + lit.len() <= v.len() && v.subrange(pos, pos + lit.len()) == lit
}

/// Reads claims written as `claims_json` writes them.
pub open spec fn parse_claims(v: Seq<u8>) -> Option<Claims> {
    let i0 = head().len() as int;
    let i1 = find_byte(v, 0x22, i0);
    let i2 = i1 + mid_role().len();
    let i3 = find_byte(v, 0x22, i2);
    let i4 = i3 + mid_exp().len();
    let i5 = find_byte(v, 0x2c, i4);
    let i6 = i5 + mid_iat().len();
    let i7 = find_byte(v, 0x7d, i6);
    let uid = int_value(v.subrange(i0, i1));
    let role = role_of(v.subrange(i2, i3));
    let exp = int_value(v.subrange(i4, i5));
    let iat = int_value(v.subrange(i6, i7));
    if lit_at(v, 0, head()) && lit_at(v, i1, mid_role()) && lit_at(v, i3, mid_exp()) && lit_at(
        v,
        i5,
        mid_iat(),
    ) && i7 + 1 == v.len() && uid is Some && i32::MIN <= uid->0 <= i32::MAX && role is Some
        && exp is Some && i64::MIN <= exp->0 <= i64::MAX && iat is Some && i64::MIN <= iat->0
        <= i64::MAX {
        Some(Claims { user_id: uid->0 as i32, role: role->0, exp: exp->0 as i64, iat: iat->0 as i64 })
    } else {
        None
    }
}

/// In `p + x + q`, the search for `c` from the start of `x` stops at the
/// start of `q` when `x` holds no `c` and `q` starts with it.
proof fn lemma_find_after(p: Seq<u8>, x: Seq<u8>, q: Seq<u8>, c: u8)
    requires
        forall|i: int| 0 <= i < x.len() ==> #[trigger] x[i] != c,
        q.len() > 0,
        q[0] == c,
    ensures
        find_byte(p + x + q, c, p.len() as int) == p.len() + x.len(),
        (p + x + q).subrange(p.len() as int, (p.len() + x.len()) as int) == x,
        lit_at(p + x + q, (p.len() + x.len()) as int, q),
{
    let s = p + x + q;
    let a = p.len() as int;
    let b = a + x.len();
    assert forall|i: int| a <= i < b implies s[i] != c by {
        assert(s[i] == x[i - a]);
    }
    assert(s[b] == q[0]);
    lemma_find_byte_at(s, c, a, b);
    assert(s.subrange(a, b) =~= x);
    assert(s.subrange(b, b + q.len()) =~= q);
}

proof fn lemma_int_text_avoids(n: int, c: u8)
    requires
        c == 0x22 || c == 0x2c || c == 0x7d,
    ensures
        forall|i: int| 0 <= i < int_text(n).len() ==> #[trigger] int_text(n)[i] != c,
{
    lemma_int_text(n);
    assert forall|i: int| 0 <= i < int_text(n).len() implies #[trigger] int_text(n)[i] != c by {
        assert(int_text(n)[i] == 0x2d || is_digit(int_text(n)[i]));
    }
}

/// What `claims_json` writes, `parse_claims` reads back.
#[verifier::rlimit(100)]
pub proof fn lemma_claims_round_trip(c: Claims)
    ensures
        parse_claims(claims_json(c)) == Some(c),
{
    let u = int_text(c.user_id as int);
    let r = c.role.spec_text();
    let e = int_text(c.exp as int);
    let t = int_text(c.iat as int);
    let v = claims_json(c);
    lemma_int_text(c.user_id as int);
    lemma_int_text(c.exp as int);
    lemma_int_text(c.iat as int);
    lemma_int_text_avoids(c.user_id as int, 0x22);
    lemma_int_text_avoids(c.exp as int, 0x2c);
    lemma_int_text_avoids(c.iat as int, 0x7d);
    let lead_uid = head();
    let rest_uid = mid_role() + r + mid_exp() + e + mid_iat() + t + tail();
    assert(v =~= lead_uid + u + rest_uid);
    lemma_find_after(lead_uid, u, rest_uid, 0x22);
    let lead_role = head() + u + mid_role();
    let rest_role = mid_exp() + e + mid_iat() + t + tail();
    assert(v =~= lead_role + r + rest_role);
    assert forall|i: int| 0 <= i < r.len() implies #[trigger] r[i] != 0x22 by {}
    lemma_find_after(lead_role, r, rest_role, 0x22);
    let lead_exp = lead_role + r + mid_exp();
    let rest_exp = mid_iat() + t + tail();
    assert(v =~= lead_exp + e + rest_exp);
    lemma_find_after(lead_exp, e, rest_exp, 0x2c);
    let lead_iat = lead_exp + e + mid_iat();
    let rest_iat = tail();
    assert(v =~= lead_iat + t + rest_iat);
    lemma_find_after(lead_iat, t, rest_iat, 0x7d);
    assert(lit_at(v, 0, head())) by {
        assert(v.subrange(0, head().len() as int) =~= head());
    }
    assert(role_of(r) == Some(c.role));
    let i0 = head().len() as int;
    let i1 = find_byte(v, 0x22, i0);
    assert(i1 == i0 + u.len());
    let i2 = i1 + mid_role().len();
    assert(i2 == lead_role.len());
    let i3 = find_byte(v, 0x22, i2);
    assert(i3 == lead_role.len() + r.len());
    let i4 = i3 + mid_exp().len();
    assert(i4 == lead_exp.len());
    let i5 = find_byte(v, 0x2c, i4);
    assert(i5 == lead_exp.len() + e.len());
    let i6 = i5 + mid_iat().len();
    assert(i6 == lead_iat.len());
    let i7 = find_byte(v, 0x7d, i6);
    assert(i7 == lead_iat.len() + t.len());
    assert(i7 + 1 == v.len());
    assert(v.subrange(i1, i2) =~= mid_role());
    assert(v.subrange(i3, i4) =~= mid_exp());
    assert(v.subrange(i5, i6) =~= mid_iat());
    assert(v.subrange(i0, i1) == u);
    assert(v.subrange(i2, i3) == r);
    assert(v.subrange(i4, i5) == e);
    assert(v.subrange(i6, i7) == t);
}

fn push_role(out: &mut Vec<u8>, role: Role)
    ensures
        final(out)@ == old(out)@ + role.spec_text(),
{
    match role {
        Role::Customer => push_customer_text(out),
        Role::Supplier => push_supplier_text(out),
    }
}

/// Writes the claims as the JSON payload of a token.
pub fn render_claims(c: &Claims) -> (r: Vec<u8>)
    ensures
        r@ == claims_json(*c),
{
    let mut out: Vec<u8> = Vec::new();
    push_head(&mut out);
    push_int(&mut out, c.user_id as i64);
    push_mid_role(&mut out);
    push_role(&mut out, c.role);
    push_mid_exp(&mut out);
    push_int(&mut out, c.exp);
    push_mid_iat(&mut out);
    push_int(&mut out, c.iat);
    push_tail(&mut out);
    assert(out@ =~= claims_json(*c));
    out
}

/// The bytes of the standard token header.
pub fn render_header() -> (r: Vec<u8>)
    ensures
        r@ == header_json(),
{
    let mut out: Vec<u8> = Vec::new();
    push_header_json(&mut out);
    assert(out@ =~= header_json());
    out
}

fn bytes_at(v: &Vec<u8>, pos: usize, lit: &Vec<u8>) -> (r: bool)
    ensures
        r == lit_at(v@, pos as int, lit@),
{
    if pos > v.len() || lit.len() > v.len() - pos {
        return false;
    }
    let mut i: usize = 0;
    while i < lit.len()
        invariant
            pos + lit@.len() <= v@.len(),
            v@.len() <= usize::MAX,
            i <= lit@.len(),
            forall|j: int| 0 <= j < i ==> v@[pos + j] == lit@[j],
        decreases lit@.len() - i,
    {
        if v[pos + i] != lit[i] {
            assert(v@.subrange(pos as int, pos + lit@.len())[i as int] != lit@[i as int]);
            return false;
        }
        i = i + 1;
    }
    assert(v@.subrange(pos as int, pos + lit@.len()) =~= lit@);
    true
}

fn lit_vec_head() -> (r: Vec<u8>)
    ensures
        r@ == head(),
{
    let mut v: Vec<u8> = Vec::new();
    push_head(&mut v);
    assert(v@ =~= head());
    v
}

fn lit_vec_mid_role() -> (r: Vec<u8>)
    ensures
        r@ == mid_role(),
{
    let mut v: Vec<u8> = Vec::new();
    push_mid_role(&mut v);
    assert(v@ =~= mid_role());
    v
}

fn lit_vec_mid_exp() -> (r: Vec<u8>)
    ensures
        r@ == mid_exp(),
{
    let mut v: Vec<u8> = Vec::new();
    push_mid_exp(&mut v);
    assert(v@ =~= mid_exp());
    v
}

fn lit_vec_mid_iat() -> (r: Vec<u8>)
    ensures
        r@ == mid_iat(),
{
    let mut v: Vec<u8> = Vec::new();
    push_mid_iat(&mut v);
    assert(v@ =~= mid_iat());
    v
}

fn role_at(v: &Vec<u8>, from: usize, to: usize) -> (r: Option<Role>)
    requires
        from <= to <= v@.len(),
    ensures
        r == role_of(v@.subrange(from as int, to as int)),
{
    let mut c: Vec<u8> = Vec::new();
    push_customer_text(&mut c);
    assert(c@ =~= customer_text());
    let mut s: Vec<u8> = Vec::new();
    push_supplier_text(&mut s);
    assert(s@ =~= supplier_text());
    if to - from == c.len() && bytes_at(v, from, &c) {
        return Some(Role::Customer);
    }
    if to - from == s.len() && bytes_at(v, from, &s) {
        return Some(Role::Supplier);
    }
    proof {
        let b = v@.subrange(from as int, to as int);
        if b == customer_text() {
            assert(v@.subrange(from as int, from + c@.len()) =~= b);
        }
        if b == supplier_text() {
            assert(v@.subrange(from as int, from + s@.len()) =~= b);
        }
    }
    None
}

/// Reads the claims of a token's JSON payload.
pub fn read_claims(v: &Vec<u8>) -> (r: Option<Claims>)
    ensures
        r == parse_claims(v@),
{
    let n = v.len();
    let h = lit_vec_head();
    let mr = lit_vec_mid_role();
    let me = lit_vec_mid_exp();
    let mi = lit_vec_mid_iat();
    if !bytes_at(v, 0, &h) {
        return None;
    }
    let i0 = h.len();
    let i1 = find_byte_exec(v, 0x22u8, i0);
    proof { lemma_find_byte(v@, 0x22, i0 as int); }
    if !bytes_at(v, i1, &mr) {
        return None;
    }
    assert(lit_at(v@, i1 as int, mr@));
    let i2 = i1 + mr.len();
    let i3 = find_byte_exec(v, 0x22u8, i2);
    proof { lemma_find_byte(v@, 0x22, i2 as int); }
    if !bytes_at(v, i3, &me) {
        return None;
    }
    assert(lit_at(v@, i3 as int, me@));
    let i4 = i3 + me.len();
    let i5 = find_byte_exec(v, 0x2cu8, i4);
    proof { lemma_find_byte(v@, 0x2c, i4 as int); }
    if !bytes_at(v, i5, &mi) {
        return None;
    }
    assert(lit_at(v@, i5 as int, mi@));
    let i6 = i5 + mi.len();
    let i7 = find_byte_exec(v, 0x7du8, i6);
    proof { lemma_find_byte(v@, 0x7d, i6 as int); }
    if i7 >= v.len() || i7 + 1 != v.len() {
        return None;
    }
    let uid = match parse_int(v, i0, i1) {
        None => return None,
        Some(u) => u,
    };
    if uid < i32::MIN as i64 || uid > i32::MAX as i64 {
        return None;
    }
    let role = match role_at(v, i2, i3) {
        None => return None,
        Some(r) => r,
    };
    let exp = match parse_int(v, i4, i5) {
        None => return None,
        Some(e) => e,
    };
    let iat = match parse_int(v, i6, i7) {
        None => return None,
        Some(t) => t,
    };
    Some(Claims { user_id: uid as i32, role, exp, iat })
}

} // verus!
