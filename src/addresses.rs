//! Customer addresses: at most one of a customer's addresses is the
//! default, and only the owner may change or remove one.

use vstd::prelude::*;
use crate::error::{AppError, Invalid, Resource};

verus! {

/// A stored address.
pub struct Addresses {
    pub address_id: i32,
    pub address_type_id: Option<i32>,
    pub city: String,
    pub country: String,
    pub customer_id: i32,
    pub is_default: Option<bool>,
    pub postal_code: String,
    pub state: Option<String>,
    pub street_address: String,
}

/// An address as a customer submits it.
pub struct RegisterAddress {
    pub address_type: String,
    pub city: String,
    pub country: String,
    pub customer_id: i64,
    pub is_default: bool,
    pub postal_code: String,
    pub state: String,
    pub street_address: String,
}

/// A named kind of address ("home", "work").
pub struct AddressType {
    pub address_type_id: i32,
    pub name: String,
}

pub struct RegisterAddressType {
    pub name: String,
}

/// The resolver of address operations.
#[derive(Debug, Clone, Copy, PartialEq, Eq, Structural)]
pub struct AddressesMutation;

impl RegisterAddress {
    pub fn clone(&self) -> (r: RegisterAddress)
        ensures
            r == *self,
    {
        RegisterAddress {
            address_type: self.address_type.clone(),
            city: self.city.clone(),
            country: self.country.clone(),
            customer_id: self.customer_id,
            is_default: self.is_default,
            postal_code: self.postal_code.clone(),
            state: self.state.clone(),
            street_address: self.street_address.clone(),
        }
    }
}

/// Whether `a` is a default address of `customer_id`.
pub open spec fn default_of(a: Addresses, customer_id: i32) -> bool {
    a.customer_id == customer_id && a.is_default == Some(true)
}

pub open spec fn with_flag(a: Addresses, flag: bool) -> Addresses {
    Addresses { is_default: Some(flag), ..a }
}

/// The rows after the customer's defaults other than `keep_id` are cleared.
pub open spec fn cleared(rows: Seq<Addresses>, customer_id: i32, keep_id: i32) -> Seq<Addresses> {
    Seq::new(
        rows.len(),
        |i: int|
            if default_of(rows[i], customer_id) && rows[i].address_id != keep_id {
                with_flag(rows[i], false)
            } else {
                rows[i]
            },
    )
}

/// The first row from `from` on with the given id, or `rows.len()`.
pub open spec fn find_address(rows: Seq<Addresses>, id: i32, from: int) -> int
    decreases rows.len() - from,
{
    if from >= rows.len() {
        rows.len() as int
    } else if rows[from].address_id == id {
        from
    } else {
        find_address(rows, id, from + 1)
    }
}

/// Address ids are unique, as a primary key makes them.
pub open spec fn ids_unique(rows: Seq<Addresses>) -> bool {
    forall|i: int, j: int|
        0 <= i < rows.len() && 0 <= j < rows.len() && i != j ==> (#[trigger] rows[i]).address_id
            != (#[trigger] rows[j]).address_id
}

/// The record that `input` makes for the customer.
pub open spec fn address_record(
    input: RegisterAddress,
    customer_id: i32,
    address_type_id: i32,
    address_id: i32,
) -> Addresses {
    Addresses {
        address_id,
        address_type_id: Some(address_type_id),
        city: input.city,
        country: input.country,
        customer_id,
        is_default: Some(input.is_default),
        postal_code: input.postal_code,
        state: Some(input.state),
        street_address: input.street_address,
    }
}

/// The rows after storing the record: the customer's other defaults are
/// cleared when it is a default, then it replaces the row with its id or
/// joins the rows.
pub open spec fn stored(rows: Seq<Addresses>, rec: Addresses) -> Seq<Addresses> {
    let base = if rec.is_default == Some(true) {
        cleared(rows, rec.customer_id, rec.address_id)
    } else {
        rows
    };
    let k = find_address(rows, rec.address_id, 0);
    if k < rows.len() {
        base.update(k, rec)
    } else {
        base.push(rec)
    }
}

/// The outcome of storing an address under `address_id`: only the owner
/// may overwrite an existing one.
pub open spec fn store_error(rows: Seq<Addresses>, customer_id: i32, address_id: i32) -> Option<AppError> {
    let k = find_address(rows, address_id, 0);
    if k < rows.len() && rows[k].customer_id != customer_id {
        Some(AppError::Unauthorized)
    } else {
        None
    }
}

pub proof fn lemma_find_address(rows: Seq<Addresses>, id: i32, from: int)
    requires
        0 <= from <= rows.len(),
    ensures
        from <= find_address(rows, id, from) <= rows.len(),
        find_address(rows, id, from) < rows.len() ==> rows[find_address(rows, id, from)].address_id
            == id,
        forall|i: int| from <= i < find_address(rows, id, from) ==> rows[i].address_id != id,
    decreases rows.len() - from,
{
    if from < rows.len() && rows[from].address_id != id {
        lemma_find_address(rows, id, from + 1);
    }
}

fn copy_text(s: &String) -> (r: String)
    ensures
        r == *s,
{
    s.clone()
}

fn flagged(a: &Addresses, flag: bool) -> (r: Addresses)
    ensures
        r == with_flag(*a, flag),
{
    Addresses {
        address_id: a.address_id,
        address_type_id: a.address_type_id,
        city: copy_text(&a.city),
        country: copy_text(&a.country),
        customer_id: a.customer_id,
        is_default: Some(flag),
        postal_code: copy_text(&a.postal_code),
        state: match &a.state {
            None => None,
            Some(s) => Some(copy_text(s)),
        },
        street_address: copy_text(&a.street_address),
    }
}

/// Stores an address of `customer_id` under `address_id`, in the rows of
/// the address table that the caller's transaction holds. A default
/// address first takes the flag from the customer's other addresses, so a
/// customer never has two defaults. Overwriting another customer's address
/// is refused, and the rows are then left untouched.
pub fn create_address(
    input: &RegisterAddress,
    customer_id: i32,
    address_type_id: i32,
    address_id: i32,
    rows: &mut Vec<Addresses>,
) -> (r: Result<(), AppError>)
    requires
        ids_unique(old(rows)@),
    ensures
        r == match store_error(old(rows)@, customer_id, address_id) {
            None => Ok::<(), AppError>(()),
            Some(e) => Err(e),
        },
        r is Err ==> final(rows)@ == old(rows)@,
        r is Ok ==> final(rows)@ == stored(old(rows)@, address_record(*input, customer_id, address_type_id, address_id)),
        r is Ok ==> ids_unique(final(rows)@),
        r is Ok && input.is_default ==> forall|j: int|
            0 <= j < final(rows)@.len() ==> (default_of(#[trigger] final(rows)@[j], customer_id)
                <==> final(rows)@[j].address_id == address_id),
        r is Ok ==> exists|j: int|
            0 <= j < final(rows)@.len() && #[trigger] final(rows)@[j] == address_record(
                *input,
                customer_id,
                address_type_id,
                address_id,
            ),
{
    let ghost rows0 = rows@;
    let ghost rec = address_record(*input, customer_id, address_type_id, address_id);
    let n = rows.len();
    let mut k: usize = 0;
    while k < n && rows[k].address_id != address_id
        invariant
            n == rows0.len(),
            rows@ == rows0,
            k <= n,
            find_address(rows0, address_id, k as int) == find_address(rows0, address_id, 0),
        decreases n - k,
    {
        k = k + 1;
    }
    proof {
        if k < n {
            assert(find_address(rows0, address_id, k as int) == k);
        }
    }
    if k < n && rows[k].customer_id != customer_id {
        return Err(AppError::Unauthorized);
    }
    if input.is_default {
        let mut i: usize = 0;
        while i < n
            invariant
                n == rows0.len() == rows@.len(),
                i <= n,
                forall|j: int| 0 <= j < i ==> rows@[j] == cleared(rows0, customer_id, address_id)[j],
                forall|j: int| i <= j < n ==> rows@[j] == rows0[j],
            decreases n - i,
        {
            if rows[i].customer_id == customer_id && rows[i].is_default == Some(true)
                && rows[i].address_id != address_id {
                let a = flagged(&rows[i], false);
                rows.set(i, a);
            }
            i = i + 1;
        }
        assert(rows@ =~= cleared(rows0, customer_id, address_id));
    }
    let record = Addresses {
        address_id,
        address_type_id: Some(address_type_id),
        city: copy_text(&input.city),
        country: copy_text(&input.country),
        customer_id,
        is_default: Some(input.is_default),
        postal_code: copy_text(&input.postal_code),
        state: Some(copy_text(&input.state)),
        street_address: copy_text(&input.street_address),
    };
    if k < n {
        rows.set(k, record);
    } else {
        rows.push(record);
    }
    proof {
        lemma_stored_unique(rows0, rec);
        lemma_record_stored(rows0, rec);
        if input.is_default {
            lemma_single_default(rows0, rec);
        }
    }
    Ok(())
}

/// Storing a record keeps address ids unique.
pub proof fn lemma_stored_unique(rows: Seq<Addresses>, rec: Addresses)
    requires
        ids_unique(rows),
    ensures
        ids_unique(stored(rows, rec)),
{
    lemma_find_address(rows, rec.address_id, 0);
    let k = find_address(rows, rec.address_id, 0);
    let s = stored(rows, rec);
    assert forall|i: int, j: int|
        0 <= i < s.len() && 0 <= j < s.len() && i != j implies (#[trigger] s[i]).address_id
            != (#[trigger] s[j]).address_id by {
        if k < rows.len() {
            if i != k && j != k {
                assert(rows[i].address_id != rows[j].address_id);
            } else if i == k {
                assert(rows[j].address_id != rows[k].address_id);
            } else {
                assert(rows[i].address_id != rows[k].address_id);
            }
        } else {
            if i < rows.len() && j < rows.len() {
                assert(rows[i].address_id != rows[j].address_id);
            }
        }
    }
}

/// The stored record stands among the rows.
pub proof fn lemma_record_stored(rows: Seq<Addresses>, rec: Addresses)
    ensures
        exists|j: int| 0 <= j < stored(rows, rec).len() && #[trigger] stored(rows, rec)[j] == rec,
{
    lemma_find_address(rows, rec.address_id, 0);
    let k = find_address(rows, rec.address_id, 0);
    if k < rows.len() {
        assert(stored(rows, rec)[k] == rec);
    } else {
        assert(stored(rows, rec)[rows.len() as int] == rec);
    }
}

/// After a default address is stored, it is the customer's only default.
pub proof fn lemma_single_default(rows: Seq<Addresses>, rec: Addresses)
    requires
        ids_unique(rows),
        rec.is_default == Some(true),
    ensures
        forall|j: int|
            0 <= j < stored(rows, rec).len() ==> (default_of(#[trigger] stored(rows, rec)[j], rec.customer_id)
                <==> stored(rows, rec)[j].address_id == rec.address_id),
        exists|j: int| 0 <= j < stored(rows, rec).len() && #[trigger] stored(rows, rec)[j] == rec,
{
    lemma_find_address(rows, rec.address_id, 0);
    let k = find_address(rows, rec.address_id, 0);
    let s = stored(rows, rec);
    if k < rows.len() {
        assert(s[k] == rec);
        assert forall|j: int| 0 <= j < s.len() implies (default_of(#[trigger] s[j], rec.customer_id)
            <==> s[j].address_id == rec.address_id) by {
            if j != k {
                assert(rows[j].address_id != rows[k].address_id);
            }
        }
    } else {
        assert(s[rows.len() as int] == rec);
    }
}

impl AddressesMutation {
    /// Decides whether the caller may delete `address`; on success returns
    /// the id of its address type, which goes with it.
    pub fn delete_address(&self, customer_id: i32, address: Option<&Addresses>) -> (r: Result<i32, AppError>)
        ensures
            r == match address {
                None => Err(AppError::NotFound(Resource::Address)),
                Some(a) => if a.customer_id != customer_id {
                    Err(AppError::Unauthorized)
                } else if a.is_default == Some(true) {
                    Err(AppError::ValidationError(Invalid::DefaultAddressDeletion))
                } else if a.address_type_id is None {
                    Err(AppError::NotFound(Resource::AddressType))
                } else {
                    Ok::<i32, AppError>(a.address_type_id->0)
                },
            },
    {
        let a = match address {
            None => return Err(AppError::NotFound(Resource::Address)),
            Some(a) => a,
        };
        if a.customer_id != customer_id {
            return Err(AppError::Unauthorized);
        }
        if a.is_default == Some(true) {
            return Err(AppError::ValidationError(Invalid::DefaultAddressDeletion));
        }
        match a.address_type_id {
            None => Err(AppError::NotFound(Resource::AddressType)),
            Some(t) => Ok(t),
        }
    }

    /// Decides whether the caller may rename an address type: the type and
    /// an address of that type must exist, and the address must be theirs.
    pub fn update_address_type(
        &self,
        customer_id: i32,
        address_type: Option<&AddressType>,
        address: Option<&Addresses>,
    ) -> (r: Result<(), AppError>)
        ensures
            r == if address_type is None {
                Err(AppError::NotFound(Resource::AddressType))
            } else if address is None {
                Err(AppError::NotFound(Resource::Address))
            } else if address->0.customer_id != customer_id {
                Err(AppError::Unauthorized)
            } else {
                Ok::<(), AppError>(())
            },
    {
        if address_type.is_none() {
            return Err(AppError::NotFound(Resource::AddressType));
        }
        match address {
            None => Err(AppError::NotFound(Resource::Address)),
            Some(a) => if a.customer_id != customer_id {
                Err(AppError::Unauthorized)
            } else {
                Ok(())
            },
        }
    }
}

} // verus!
