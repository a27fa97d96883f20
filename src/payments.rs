//! Customer payment methods: which fields each kind of method needs, and
//! the rule that a customer has at most one default method.

use vstd::prelude::*;
use crate::error::{AppError, Invalid};
use crate::text::same_text;

verus! {

/// A calendar date, such as a card's expiry.
#[derive(Debug, Clone, Copy, PartialEq, Eq, Structural)]
pub struct CalendarDate {
    pub year: i32,
    pub month: u32,
    pub day: u32,
}

#[derive(Debug, Clone, Copy, PartialEq, Eq, Structural)]
pub enum PaymentMethodType {
    Card,
    Upi,
    Iban,
    Netbanking,
}

impl PaymentMethodType {
    pub open spec fn spec_from_name(name: Seq<char>) -> Option<PaymentMethodType> {
        if name == "card"@ {
            Some(PaymentMethodType::Card)
        } else if name == "upi"@ {
            Some(PaymentMethodType::Upi)
        } else if name == "iban"@ {
            Some(PaymentMethodType::Iban)
        } else if name == "netbanking"@ {
            Some(PaymentMethodType::Netbanking)
        } else {
            None
        }
    }

    pub fn from_name(name: &str) -> (r: Option<PaymentMethodType>)
        ensures
            r == PaymentMethodType::spec_from_name(name@),
    {
        if same_text(name, "card") {
            Some(PaymentMethodType::Card)
        } else if same_text(name, "upi") {
            Some(PaymentMethodType::Upi)
        } else if same_text(name, "iban") {
            Some(PaymentMethodType::Iban)
        } else if same_text(name, "netbanking") {
            Some(PaymentMethodType::Netbanking)
        } else {
            None
        }
    }
}

/// A payment method as a customer submits it.
pub struct RegisterPaymentMethod {
    pub payment_type: String,
    pub is_default: Option<bool>,
    pub bank_name: Option<String>,
    pub account_holder_name: Option<String>,
    pub card_number: Option<String>,
    pub card_expiration_date: Option<CalendarDate>,
    pub iban: Option<String>,
    pub upi_id: Option<String>,
    pub bank_account_number: Option<String>,
    pub ifsc_code: Option<String>,
    pub card_type_name: Option<String>,
}

/// The record that a valid submission makes. Only the fields of its kind
/// are kept; a card also names its card type.
pub struct NewPaymentMethod {
    pub customer_id: i32,
    pub payment_type: PaymentMethodType,
    pub is_default: bool,
    pub bank_name: Option<String>,
    pub account_holder_name: Option<String>,
    pub card_number: Option<String>,
    pub card_expiration_date: Option<CalendarDate>,
    pub iban: Option<String>,
    pub upi_id: Option<String>,
    pub bank_account_number: Option<String>,
    pub ifsc_code: Option<String>,
    pub card_type_name: Option<String>,
}

/// A card type as clients see it.
pub struct CardTypes {
    pub card_type_id: i32,
    pub name: String,
}

/// The default flag of a stored payment method.
#[derive(Debug, Clone, Copy, PartialEq, Eq, Structural)]
pub struct PaymentMethodFlag {
    pub payment_method_id: i32,
    pub customer_id: i32,
    pub is_default: Option<bool>,
}

/// The resolver of payment-method operations.
#[derive(Debug, Clone, Copy, PartialEq, Eq, Structural)]
pub struct PaymentsMutation;

/// Why a submission is invalid: an unknown kind, or the first missing
/// field that its kind needs.
pub open spec fn payment_error(input: RegisterPaymentMethod) -> Option<AppError> {
    match PaymentMethodType::spec_from_name(input.payment_type@) {
        None => Some(AppError::ValidationError(Invalid::UnknownPaymentType)),
        Some(PaymentMethodType::Card) => if input.card_number is None {
            Some(AppError::ValidationError(Invalid::MissingCardNumber))
        } else if input.card_expiration_date is None {
            Some(AppError::ValidationError(Invalid::MissingCardExpiration))
        } else {
            None
        },
        Some(PaymentMethodType::Upi) => if input.upi_id is None {
            Some(AppError::ValidationError(Invalid::MissingUpiId))
        } else {
            None
        },
        Some(PaymentMethodType::Iban) => if input.iban is None {
            Some(AppError::ValidationError(Invalid::MissingIban))
        } else {
            None
        },
        Some(PaymentMethodType::Netbanking) => if input.bank_name is None {
            Some(AppError::ValidationError(Invalid::MissingBankName))
        } else if input.account_holder_name is None {
            Some(AppError::ValidationError(Invalid::MissingAccountHolder))
        } else if input.bank_account_number is None {
            Some(AppError::ValidationError(Invalid::MissingBankAccountNumber))
        } else if input.ifsc_code is None {
            Some(AppError::ValidationError(Invalid::MissingIfscCode))
        } else {
            None
        },
    }
}

/// A record holds exactly the submitted fields of its kind.
pub open spec fn keeps_fields(r: NewPaymentMethod, input: RegisterPaymentMethod) -> bool {
    let t = r.payment_type;
    &&& r.card_number == (if t == PaymentMethodType::Card { input.card_number } else { None })
    &&& r.card_expiration_date == (if t == PaymentMethodType::Card {
        input.card_expiration_date
    } else {
        None
    })
    &&& r.upi_id == (if t == PaymentMethodType::Upi { input.upi_id } else { None })
    &&& r.iban == (if t == PaymentMethodType::Iban { input.iban } else { None })
    &&& r.bank_name == (if t == PaymentMethodType::Netbanking { input.bank_name } else { None })
    &&& r.account_holder_name == (if t == PaymentMethodType::Netbanking {
        input.account_holder_name
    } else {
        None
    })
    &&& r.bank_account_number == (if t == PaymentMethodType::Netbanking {
        input.bank_account_number
    } else {
        None
    })
    &&& r.ifsc_code == (if t == PaymentMethodType::Netbanking { input.ifsc_code } else { None })
    &&& (t != PaymentMethodType::Card ==> r.card_type_name is None)
    &&& (t == PaymentMethodType::Card && input.card_type_name is Some ==> r.card_type_name
        == input.card_type_name)
    &&& (t == PaymentMethodType::Card && input.card_type_name is None ==> r.card_type_name is Some
        && r.card_type_name->0@ == "Unknown"@)
}

/// The flags after the customer's default, if any, gives way to a new one.
pub open spec fn flags_cleared(flags: Seq<PaymentMethodFlag>, customer_id: i32) -> Seq<PaymentMethodFlag> {
    Seq::new(
        flags.len(),
        |i: int|
            if flags[i].customer_id == customer_id && flags[i].is_default == Some(true) {
                PaymentMethodFlag { is_default: Some(false), ..flags[i] }
            } else {
                flags[i]
            },
    )
}

fn copy_opt(s: &Option<String>) -> (r: Option<String>)
    ensures
        r == *s,
{
    match s {
        None => None,
        Some(t) => Some(t.clone()),
    }
}

/// Builds the record for a submission of `customer_id`, or says why it is
/// invalid. When the record is the default, the customer's stored methods
/// give up the flag first (in `flags`, the default flags that the caller's
/// transaction holds); when the submission is invalid `flags` is left
/// untouched.
pub fn create_payment_method(
    customer_id: i32,
    is_default: Option<bool>,
    input: &RegisterPaymentMethod,
    flags: &mut Vec<PaymentMethodFlag>,
) -> (r: Result<NewPaymentMethod, AppError>)
    ensures
        r is Err <==> payment_error(*input) is Some,
        r is Err ==> r->Err_0 == payment_error(*input)->0 && final(flags)@ == old(flags)@,
        r is Ok ==> ({
            let m = r->Ok_0;
            &&& Some(m.payment_type) == PaymentMethodType::spec_from_name(input.payment_type@)
            &&& m.customer_id == customer_id
            &&& m.is_default == (is_default == Some(true))
            &&& keeps_fields(m, *input)
            &&& final(flags)@ == if m.is_default {
                flags_cleared(old(flags)@, customer_id)
            } else {
                old(flags)@
            }
        }),
{
    let t = match PaymentMethodType::from_name(input.payment_type.as_str()) {
        None => return Err(AppError::ValidationError(Invalid::UnknownPaymentType)),
        Some(t) => t,
    };
    let none: Option<String> = None;
    let mut m = NewPaymentMethod {
        customer_id,
        payment_type: t,
        is_default: is_default == Some(true),
        bank_name: None,
        account_holder_name: None,
        card_number: None,
        card_expiration_date: None,
        iban: None,
        upi_id: None,
        bank_account_number: None,
        ifsc_code: None,
        card_type_name: none,
    };
    match t {
        PaymentMethodType::Card => {
            if input.card_number.is_none() {
                return Err(AppError::ValidationError(Invalid::MissingCardNumber));
            }
            if input.card_expiration_date.is_none() {
                return Err(AppError::ValidationError(Invalid::MissingCardExpiration));
            }
            m.card_number = copy_opt(&input.card_number);
            m.card_expiration_date = input.card_expiration_date;
            m.card_type_name = match &input.card_type_name {
                Some(n) => Some(n.clone()),
                None => Some(String::from_str("Unknown")),
            };
        },
        PaymentMethodType::Upi => {
            if input.upi_id.is_none() {
                return Err(AppError::ValidationError(Invalid::MissingUpiId));
            }
            m.upi_id = copy_opt(&input.upi_id);
        },
        PaymentMethodType::Iban => {
            if input.iban.is_none() {
                return Err(AppError::ValidationError(Invalid::MissingIban));
            }
            m.iban = copy_opt(&input.iban);
        },
        PaymentMethodType::Netbanking => {
            if input.bank_name.is_none() {
                return Err(AppError::ValidationError(Invalid::MissingBankName));
            }
            if input.account_holder_name.is_none() {
                return Err(AppError::ValidationError(Invalid::MissingAccountHolder));
            }
            if input.bank_account_number.is_none() {
                return Err(AppError::ValidationError(Invalid::MissingBankAccountNumber));
            }
            if input.ifsc_code.is_none() {
                return Err(AppError::ValidationError(Invalid::MissingIfscCode));
            }
            m.bank_name = copy_opt(&input.bank_name);
            m.account_holder_name = copy_opt(&input.account_holder_name);
            m.bank_account_number = copy_opt(&input.bank_account_number);
            m.ifsc_code = copy_opt(&input.ifsc_code);
        },
    }
    if m.is_default {
        let ghost flags0 = flags@;
        let n = flags.len();
        let mut i: usize = 0;
        while i < n
            invariant
                n == flags0.len() == flags@.len(),
                i <= n,
                forall|j: int| 0 <= j < i ==> flags@[j] == flags_cleared(flags0, customer_id)[j],
                forall|j: int| i <= j < n ==> flags@[j] == flags0[j],
            decreases n - i,
        {
            let f = flags[i];
            if f.customer_id == customer_id && f.is_default == Some(true) {
                flags.set(i, PaymentMethodFlag { is_default: Some(false), ..f });
            }
            i = i + 1;
        }
        assert(flags@ =~= flags_cleared(flags0, customer_id));
    }
    Ok(m)
}

/// After a default method is stored, the customer has no other default.
pub proof fn lemma_no_other_default(flags: Seq<PaymentMethodFlag>, customer_id: i32)
    ensures
        forall|j: int|
            0 <= j < flags.len() ==> !(#[trigger] flags_cleared(flags, customer_id)[j].customer_id
                == customer_id && flags_cleared(flags, customer_id)[j].is_default == Some(true)),
{
}

} // verus!
