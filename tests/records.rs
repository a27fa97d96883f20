use shop_core::addresses::{create_address, Addresses, AddressType, AddressesMutation, RegisterAddress};
use shop_core::auth::Auth;
use shop_core::carts::{CartChange, CartItems, CartTarget, CartsMutation, ShoppingCarts};
use shop_core::catalog::{
    check_if_supplier_owns_product, create_product_model, paginate_products, OrderAndPagination, OrderBy,
    OrderByColumn, OrderByOrder, Pagination, ProductFilter, ProductsMutation, ProductsQuery, RegisterProduct,
    SortColumn,
};
use shop_core::claims::Role;
use shop_core::error::{AppError, AuthErrorCode, Invalid, Resource};
use shop_core::money::Money;
use shop_core::orders::{OrdersMutation, RegisterOrder, RegisterOrderItem, StockRow};
use shop_core::payments::{
    create_payment_method, CalendarDate, PaymentMethodFlag, PaymentMethodType, RegisterPaymentMethod,
};
use shop_core::users::{get_customer_supplier_id, verification_link, LoginUser, RegisterUser, Users, UsersMutation};

fn address(id: i32, customer: i32, default: bool) -> Addresses {
    Addresses {
        address_id: id,
        address_type_id: Some(1),
        city: "Pune".to_string(),
        country: "IN".to_string(),
        customer_id: customer,
        is_default: Some(default),
        postal_code: "411001".to_string(),
        state: Some("MH".to_string()),
        street_address: "1 Main Rd".to_string(),
    }
}

fn new_address(default: bool) -> RegisterAddress {
    RegisterAddress {
        address_type: "home".to_string(),
        city: "Delhi".to_string(),
        country: "IN".to_string(),
        customer_id: 3,
        is_default: default,
        postal_code: "110001".to_string(),
        state: "DL".to_string(),
        street_address: "2 Ring Rd".to_string(),
    }
}

fn defaults_of(rows: &[Addresses], customer: i32) -> Vec<i32> {
    rows.iter()
        .filter(|a| a.customer_id == customer && a.is_default == Some(true))
        .map(|a| a.address_id)
        .collect()
}

#[test]
fn new_default_address_is_the_only_default() {
    let mut rows = vec![address(1, 3, true), address(2, 3, false), address(3, 4, true)];
    create_address(&new_address(true), 3, 9, 10, &mut rows).unwrap();
    assert_eq!(defaults_of(&rows, 3), vec![10]);
    assert_eq!(defaults_of(&rows, 4), vec![3]);
    assert_eq!(rows.len(), 4);
    assert_eq!(rows[3].city, "Delhi");
    assert_eq!(rows[3].address_type_id, Some(9));
}

#[test]
fn updated_default_address_is_the_only_default() {
    let mut rows = vec![address(1, 3, true), address(2, 3, false)];
    create_address(&new_address(true), 3, 9, 2, &mut rows).unwrap();
    assert_eq!(defaults_of(&rows, 3), vec![2]);
    assert_eq!(rows.len(), 2);
    assert_eq!(rows[1].street_address, "2 Ring Rd");
}

#[test]
fn plain_address_keeps_the_default() {
    let mut rows = vec![address(1, 3, true)];
    create_address(&new_address(false), 3, 9, 10, &mut rows).unwrap();
    assert_eq!(defaults_of(&rows, 3), vec![1]);
}

#[test]
fn overwriting_another_customers_address_is_refused() {
    let mut rows = vec![address(1, 4, true)];
    assert_eq!(create_address(&new_address(true), 3, 9, 1, &mut rows), Err(AppError::Unauthorized));
    assert_eq!(rows[0].city, "Pune");
    assert_eq!(rows[0].is_default, Some(true));
}

#[test]
fn register_address_clone_keeps_fields() {
    let a = new_address(true);
    let b = a.clone();
    assert_eq!(b.city, a.city);
    assert_eq!(b.is_default, a.is_default);
    assert_eq!(b.state, "DL");
}

#[test]
fn deleting_addresses() {
    let m = AddressesMutation;
    assert_eq!(m.delete_address(3, None), Err(AppError::NotFound(Resource::Address)));
    assert_eq!(m.delete_address(4, Some(&address(2, 3, false))), Err(AppError::Unauthorized));
    assert_eq!(
        m.delete_address(3, Some(&address(1, 3, true))),
        Err(AppError::ValidationError(Invalid::DefaultAddressDeletion))
    );
    assert_eq!(m.delete_address(3, Some(&address(2, 3, false))), Ok(1));
    let t = AddressType { address_type_id: 1, name: "home".to_string() };
    assert_eq!(m.update_address_type(3, Some(&t), Some(&address(2, 3, false))), Ok(()));
    assert_eq!(m.update_address_type(4, Some(&t), Some(&address(2, 3, false))), Err(AppError::Unauthorized));
    assert_eq!(m.update_address_type(3, None, None), Err(AppError::NotFound(Resource::AddressType)));
}

fn payment(kind: &str) -> RegisterPaymentMethod {
    RegisterPaymentMethod {
        payment_type: kind.to_string(),
        is_default: Some(true),
        bank_name: None,
        account_holder_name: None,
        card_number: None,
        card_expiration_date: None,
        iban: None,
        upi_id: None,
        bank_account_number: None,
        ifsc_code: None,
        card_type_name: None,
    }
}

#[test]
fn card_needs_number_and_expiry() {
    let mut flags = vec![PaymentMethodFlag { payment_method_id: 1, customer_id: 3, is_default: Some(true) }];
    let mut p = payment("card");
    assert!(matches!(
        create_payment_method(3, Some(true), &p, &mut flags),
        Err(AppError::ValidationError(Invalid::MissingCardNumber))
    ));
    p.card_number = Some("4111".to_string());
    assert!(matches!(
        create_payment_method(3, Some(true), &p, &mut flags),
        Err(AppError::ValidationError(Invalid::MissingCardExpiration))
    ));
    assert_eq!(flags[0].is_default, Some(true));
    p.card_expiration_date = Some(CalendarDate { year: 2030, month: 1, day: 31 });
    let m = create_payment_method(3, Some(true), &p, &mut flags).unwrap();
    assert_eq!(m.payment_type, PaymentMethodType::Card);
    assert_eq!(m.card_type_name.as_deref(), Some("Unknown"));
    assert_eq!(m.card_number.as_deref(), Some("4111"));
    assert!(m.is_default);
    assert_eq!(flags[0].is_default, Some(false));
}

#[test]
fn payment_kinds_need_their_fields() {
    let mut flags: Vec<PaymentMethodFlag> = vec![];
    assert!(matches!(
        create_payment_method(3, None, &payment("upi"), &mut flags),
        Err(AppError::ValidationError(Invalid::MissingUpiId))
    ));
    assert!(matches!(
        create_payment_method(3, None, &payment("iban"), &mut flags),
        Err(AppError::ValidationError(Invalid::MissingIban))
    ));
    assert!(matches!(
        create_payment_method(3, None, &payment("netbanking"), &mut flags),
        Err(AppError::ValidationError(Invalid::MissingBankName))
    ));
    assert!(matches!(
        create_payment_method(3, None, &payment("cash"), &mut flags),
        Err(AppError::ValidationError(Invalid::UnknownPaymentType))
    ));
    let mut p = payment("upi");
    p.upi_id = Some("me@bank".to_string());
    p.iban = Some("DE00".to_string());
    let m = create_payment_method(3, None, &p, &mut flags).unwrap();
    assert_eq!(m.upi_id.as_deref(), Some("me@bank"));
    assert_eq!(m.iban, None);
    assert!(!m.is_default);
}

#[test]
fn non_default_method_leaves_flags() {
    let mut flags = vec![PaymentMethodFlag { payment_method_id: 1, customer_id: 3, is_default: Some(true) }];
    let mut p = payment("iban");
    p.iban = Some("DE00".to_string());
    create_payment_method(3, Some(false), &p, &mut flags).unwrap();
    assert_eq!(flags[0].is_default, Some(true));
}

fn paginator(page: u64) -> OrderAndPagination {
    OrderAndPagination {
        order_by: OrderBy { column: OrderByColumn::Amount, order: OrderByOrder::Desc },
        pagination: Pagination { page, page_size: 20 },
    }
}

#[test]
fn listing_takes_exactly_one_condition() {
    let q = ProductsQuery;
    let (f, sort, page) = q.products_with_id(Some(5), None, None, None, &paginator(2)).unwrap();
    assert_eq!(f, ProductFilter::Category(5));
    assert_eq!(page, 1);
    assert_eq!(sort.column, SortColumn::BasePrice);
    assert!(!sort.ascending);
    assert!(matches!(
        q.products_with_id(Some(5), Some(6), None, None, &paginator(1)),
        Err(AppError::ValidationError(Invalid::AmbiguousProductFilter))
    ));
    assert!(matches!(
        q.products_with_id(None, None, None, None, &paginator(1)),
        Err(AppError::ValidationError(Invalid::AmbiguousProductFilter))
    ));
    assert!(matches!(
        q.products_with_id(None, None, None, Some(1), &paginator(0)),
        Err(AppError::ValidationError(Invalid::PageOutOfRange))
    ));
    let by_date = OrderAndPagination {
        order_by: OrderBy { column: OrderByColumn::Date, order: OrderByOrder::Asc },
        pagination: Pagination { page: 1, page_size: 5 },
    };
    let s = paginate_products(&by_date);
    assert_eq!(s.column, SortColumn::CreatedAt);
    assert!(s.ascending);
}

#[test]
fn product_model_reads_the_price() {
    let input = RegisterProduct {
        name: "Mug".to_string(),
        description: None,
        base_price: "19.99".to_string(),
        category_id: Some(2),
        supplier_id: None,
        stock_quantity: 8,
        media_paths: None,
        base_product_id: None,
    };
    let p = create_product_model(&input, 6).unwrap();
    assert_eq!(p.base_price, Money::from_cents(1999));
    assert_eq!(p.supplier_id, 6);
    let bad = RegisterProduct { base_price: "cheap".to_string(), ..input };
    assert!(matches!(create_product_model(&bad, 6), Err(AppError::ValidationError(Invalid::MalformedPrice))));
}

#[test]
fn product_ownership() {
    assert_eq!(check_if_supplier_owns_product(6, Some(Some(6))), Ok(()));
    assert_eq!(check_if_supplier_owns_product(6, Some(Some(7))), Err(AppError::Unauthorized));
    assert_eq!(check_if_supplier_owns_product(6, Some(None)), Err(AppError::Unauthorized));
    assert_eq!(check_if_supplier_owns_product(6, None), Err(AppError::NotFound(Resource::Product)));
    assert_eq!(ProductsMutation.delete_review(3, Some(4)), Err(AppError::Unauthorized));
    assert_eq!(ProductsMutation.delete_review(3, None), Err(AppError::NotFound(Resource::Review)));
    assert_eq!(ProductsMutation.register_review(false), Err(AppError::ValidationError(Invalid::ProductNotOrdered)));
}

#[test]
fn cart_changes() {
    let m = CartsMutation;
    assert_eq!(m.add_to_cart(3, true, None), Ok(CartTarget::Create { customer_id: 3 }));
    assert_eq!(m.add_to_cart(3, true, Some(8)), Ok(CartTarget::Existing { cart_id: 8 }));
    assert_eq!(m.add_to_cart(3, false, Some(8)), Err(AppError::NotFound(Resource::Product)));
    let cart = ShoppingCarts { cart_id: 8, customer_id: 3, created_at: None };
    let item = CartItems { cart_item_id: 30, cart_id: 8, product_id: 1, quantity: 2 };
    assert_eq!(m.update_cart_item_quantity(3, true, Some(&cart), Some(item), 0), Ok(CartChange::Remove { cart_item_id: 30 }));
    assert_eq!(
        m.update_cart_item_quantity(3, true, Some(&cart), Some(item), 5),
        Ok(CartChange::SetQuantity { cart_item_id: 30, quantity: 5 })
    );
    assert_eq!(m.update_cart_item_quantity(4, true, Some(&cart), Some(item), 5), Err(AppError::Unauthorized));
    assert_eq!(m.update_cart_item_quantity(3, true, None, Some(item), 5), Err(AppError::NotFound(Resource::Cart)));
    assert_eq!(m.remove_from_cart(true, Some(8), None), Err(AppError::NotFound(Resource::CartItem)));
    assert_eq!(m.remove_from_cart(true, Some(8), Some(item)), Ok(CartChange::Remove { cart_item_id: 30 }));
}

#[test]
fn profile_lookup() {
    assert_eq!(get_customer_supplier_id(Role::Customer, Some(3)), Ok(3));
    assert_eq!(get_customer_supplier_id(Role::Customer, None), Err(AppError::NotFound(Resource::Customer)));
    assert_eq!(get_customer_supplier_id(Role::Supplier, None), Err(AppError::NotFound(Resource::Supplier)));
    assert_eq!(Role::from_name("supplier"), Some(Role::Supplier));
    assert_eq!(Role::from_name("admin"), None);
    assert_eq!(Role::Customer.name(), "customer");
}

fn auth() -> Auth {
    Auth::new(Some("password-secret".to_string()), Some("token-secret".to_string()))
}

#[test]
fn registration_checks_in_order() {
    let a = auth();
    let m = UsersMutation;
    let input = |email: &str, pw: &str, role: &str| RegisterUser {
        email: email.to_string(),
        password: pw.to_string(),
        role: role.to_string(),
    };
    assert!(matches!(
        m.register_user(&a, &input("bad", "Str0ng!Pw", "customer"), false),
        Err(AppError::ValidationError(Invalid::MalformedEmail))
    ));
    assert!(matches!(
        m.register_user(&a, &input("a@b.com", "Str0ng!Pw", "customer"), true),
        Err(AppError::ValidationError(Invalid::UserAlreadyExists))
    ));
    assert!(matches!(
        m.register_user(&a, &input("a@b.com", "Str0ng!Pw", "admin"), false),
        Err(AppError::ValidationError(Invalid::UnknownRole))
    ));
    assert!(matches!(
        m.register_user(&a, &input("a@b.com", "weak", "customer"), false),
        Err(AppError::ValidationError(Invalid::WeakPassword))
    ));
}

#[test]
fn wrong_password_is_refused_at_login() {
    let a = auth();
    let m = UsersMutation;
    let user = Users {
        user_id: 1,
        email: "a@b.com".to_string(),
        password: a.hash_password("Str0ng!Pw").unwrap(),
        role: Role::Customer,
        created_at: None,
        email_verified: None,
    };
    let login = LoginUser { email: "a@b.com".to_string(), password: "Wr0ng!Pw".to_string() };
    assert!(matches!(
        m.login(&a, &login, Some(&user)),
        Err(AppError::Auth { code: AuthErrorCode::InvalidCredentials, user_id: None })
    ));
    assert!(matches!(m.login(&a, &login, None), Err(AppError::NotFound(Resource::User))));
}

#[test]
fn change_password_needs_the_old_one() {
    let a = auth();
    let m = UsersMutation;
    let user = Users {
        user_id: 1,
        email: "a@b.com".to_string(),
        password: a.hash_password("Str0ng!Pw").unwrap(),
        role: Role::Customer,
        created_at: None,
        email_verified: None,
    };
    assert!(matches!(
        m.change_password(&a, Some(&user), "nope", "N3w!Passw"),
        Err(AppError::Auth { code: AuthErrorCode::InvalidCredentials, user_id: None })
    ));
    let h = m.change_password(&a, Some(&user), "Str0ng!Pw", "N3w!Passw").unwrap();
    assert_eq!(a.verify_password("N3w!Passw", &h), Ok(true));
}

#[test]
fn verification_email_links_a_short_token() {
    let a = auth();
    let m = UsersMutation;
    let body = m.send_email_verification(&a, 7, Role::Customer, "8000").unwrap();
    assert!(body.starts_with("<a href=\"http://localhost:8000/verify/"));
    assert!(body.ends_with("\">Click here to verify your email</a>"));
    let token = &body["<a href=\"http://localhost:8000/verify/".len()..body.len() - "\">Click here to verify your email</a>".len()];
    let c = a.verify_token(token).unwrap();
    assert_eq!(c.user_id, 7);
    assert_eq!(c.exp - c.iat, 900);
    assert_eq!(m.verify_mail_at(&a, token, c.iat), Ok(7));
    assert_eq!(
        m.verify_mail_at(&a, token, c.exp + 1),
        Err(AppError::Auth { code: AuthErrorCode::InvalidCredentials, user_id: None })
    );
    assert_eq!(verification_link("1", "t"), "<a href=\"http://localhost:1/verify/t\">Click here to verify your email</a>");
}

#[test]
fn register_login_and_order_end_to_end() {
    let a = auth();
    let users = UsersMutation;
    let reg = RegisterUser {
        email: "a@b.com".to_string(),
        password: "Str0ng!Pw".to_string(),
        role: "customer".to_string(),
    };
    let new_user = users.register_user(&a, &reg, false).unwrap();
    assert_eq!(new_user.role, Role::Customer);
    let stored = Users {
        user_id: 1,
        email: new_user.email.clone(),
        password: new_user.password_hash.clone(),
        role: new_user.role,
        created_at: None,
        email_verified: None,
    };
    let login = LoginUser { email: "a@b.com".to_string(), password: "Str0ng!Pw".to_string() };
    let session = users.login(&a, &login, Some(&stored)).unwrap();
    assert_eq!(session.user_role, "customer");
    let claims = a.verify_token(&session.token).unwrap();
    assert_eq!((claims.user_id, claims.role), (1, Role::Customer));
    let customer_id = get_customer_supplier_id(claims.role, Some(21)).unwrap();
    let mut products = vec![StockRow {
        product_id: 5,
        unit_price: Money::parse("19.99").unwrap(),
        stock_quantity: 10,
    }];
    let mut discounts = vec![];
    let request = RegisterOrder {
        shipping_address_id: 1,
        payment_method_id: 2,
        discount_code: None,
        order_items: vec![RegisterOrderItem { product_id: 5, quantity: 2 }],
    };
    let placed = OrdersMutation.register_order(customer_id, &request, &mut products, &mut discounts).unwrap();
    assert_eq!(placed.customer_id, 21);
    assert_eq!(placed.total_amount.to_text(), "39.98");
    assert_eq!(products[0].stock_quantity, 8);
}

#[test]
fn netbanking_needs_every_bank_field() {
    let mut flags: Vec<PaymentMethodFlag> = vec![];
    let mut p = payment("netbanking");
    p.bank_name = Some("Bank".to_string());
    assert!(matches!(
        create_payment_method(3, None, &p, &mut flags),
        Err(AppError::ValidationError(Invalid::MissingAccountHolder))
    ));
    p.account_holder_name = Some("A. Holder".to_string());
    assert!(matches!(
        create_payment_method(3, None, &p, &mut flags),
        Err(AppError::ValidationError(Invalid::MissingBankAccountNumber))
    ));
    p.bank_account_number = Some("000123".to_string());
    assert!(matches!(
        create_payment_method(3, None, &p, &mut flags),
        Err(AppError::ValidationError(Invalid::MissingIfscCode))
    ));
    p.ifsc_code = Some("IFSC0001".to_string());
    let m = create_payment_method(3, None, &p, &mut flags).unwrap();
    assert_eq!(m.payment_type, PaymentMethodType::Netbanking);
    assert_eq!(m.ifsc_code.as_deref(), Some("IFSC0001"));
    assert_eq!(m.card_type_name, None);
}

#[test]
fn error_payload_codes() {
    assert_eq!(AppError::NotFound(Resource::Order).code(), "NOT_FOUND");
    assert_eq!(AppError::InsufficientStock { product_id: 1 }.code(), "INSUFFICIENT_STOCK");
    assert_eq!(AppError::Unauthorized.code(), "UNAUTHORIZED");
    assert_eq!(AppError::InvalidState.code(), "INVALID_STATE");
    assert_eq!(AppError::ValidationError(Invalid::WeakPassword).code(), "VALIDATION_ERROR");
    let refused = AppError::Auth { code: AuthErrorCode::InsufficientPermissions, user_id: Some(4) };
    assert_eq!(refused.code(), "INSUFFICIENT_PERMISSIONS");
    assert_eq!(refused.user_id(), Some(4));
    assert_eq!(AppError::Unauthorized.user_id(), None);
}

#[test]
fn valid_registration_hashes_the_password() {
    let a = auth();
    let reg = RegisterUser {
        email: "a@b.com".to_string(),
        password: "Str0ng!Pw".to_string(),
        role: "supplier".to_string(),
    };
    let u = UsersMutation.register_user(&a, &reg, false).unwrap();
    assert_eq!(u.role, Role::Supplier);
    assert_ne!(u.password_hash, "Str0ng!Pw");
    assert_eq!(a.verify_password("Str0ng!Pw", &u.password_hash), Ok(true));
    let no_tokens = Auth::new(Some("password-secret".to_string()), None);
    let user = Users {
        user_id: 2,
        email: u.email.clone(),
        password: u.password_hash.clone(),
        role: Role::Supplier,
        created_at: None,
        email_verified: None,
    };
    let login = LoginUser { email: "a@b.com".to_string(), password: "Str0ng!Pw".to_string() };
    assert!(matches!(
        UsersMutation.login(&no_tokens, &login, Some(&user)),
        Err(AppError::Internal(shop_core::error::Fault::MissingTokenSecret))
    ));
}
