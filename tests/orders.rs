use shop_core::error::{AppError, Invalid, Resource};
use shop_core::money::Money;
use shop_core::orders::{
    DiscountKind, DiscountRow, OrderItemRow, OrderRow, OrderStatus, OrdersMutation, RegisterOrder,
    RegisterOrderItem, StockRow,
};

fn row(id: i32, cents: i64, stock: i32) -> StockRow {
    StockRow { product_id: id, unit_price: Money::from_cents(cents), stock_quantity: stock }
}

fn order(code: Option<&str>, items: Vec<(i32, i32)>) -> RegisterOrder {
    RegisterOrder {
        shipping_address_id: 11,
        payment_method_id: 12,
        discount_code: code.map(|c| c.to_string()),
        order_items: items
            .into_iter()
            .map(|(p, q)| RegisterOrderItem { product_id: p, quantity: q })
            .collect(),
    }
}

fn discount(code: &str, kind: DiscountKind, cents: i64, used: i32) -> DiscountRow {
    DiscountRow { discount_id: 70, code: code.to_string(), kind, value: Money::from_cents(cents), times_used: used }
}

#[test]
fn short_stock_fails_and_leaves_stock() {
    let mut products = vec![row(1, 1999, 2)];
    let mut discounts: Vec<DiscountRow> = vec![];
    let r = OrdersMutation.register_order(3, &order(None, vec![(1, 3)]), &mut products, &mut discounts);
    assert!(matches!(r, Err(AppError::InsufficientStock { product_id: 1 })));
    assert_eq!(products, vec![row(1, 1999, 2)]);
}

#[test]
fn failed_second_line_rolls_back_the_first() {
    let mut products = vec![row(1, 500, 10), row(2, 700, 1)];
    let mut discounts = vec![discount("SAVE", DiscountKind::Flat, 100, 0)];
    let r = OrdersMutation.register_order(3, &order(Some("SAVE"), vec![(1, 4), (2, 2)]), &mut products, &mut discounts);
    assert!(matches!(r, Err(AppError::InsufficientStock { product_id: 2 })));
    assert_eq!(products, vec![row(1, 500, 10), row(2, 700, 1)]);
    assert_eq!(discounts[0].times_used, 0);
}

#[test]
fn order_total_matches_price_times_quantity() {
    let mut products = vec![row(1, 1999, 5)];
    let mut discounts: Vec<DiscountRow> = vec![];
    let placed = OrdersMutation.register_order(3, &order(None, vec![(1, 2)]), &mut products, &mut discounts).unwrap();
    assert_eq!(placed.total_amount.cents, 3998);
    assert_eq!(placed.total_amount.to_text(), "39.98");
    assert_eq!(placed.status, OrderStatus::Pending);
    assert_eq!(placed.customer_id, 3);
    assert_eq!((placed.shipping_address_id, placed.payment_method_id), (11, 12));
    assert_eq!(placed.discount_id, None);
    assert_eq!(placed.items, vec![OrderItemRow { product_id: 1, quantity: 2, unit_price: Money::from_cents(1999) }]);
    assert_eq!(products, vec![row(1, 1999, 3)]);
}

#[test]
fn percentage_discount_rounds_to_the_cent() {
    let mut products = vec![row(1, 1999, 5)];
    let mut discounts = vec![discount("TEN", DiscountKind::Percentage, 1000, 4)];
    let placed = OrdersMutation.register_order(3, &order(Some("TEN"), vec![(1, 2)]), &mut products, &mut discounts).unwrap();
    assert_eq!(placed.total_amount.cents, 3598);
    assert_eq!(placed.discount_id, Some(70));
    assert_eq!(discounts[0].times_used, 5);
}

#[test]
fn flat_discount_comes_off_whole() {
    let mut products = vec![row(1, 1000, 5), row(2, 250, 5)];
    let mut discounts = vec![discount("OFF", DiscountKind::Flat, 300, 0)];
    let placed = OrdersMutation
        .register_order(3, &order(Some("OFF"), vec![(1, 1), (2, 2)]), &mut products, &mut discounts)
        .unwrap();
    assert_eq!(placed.total_amount.cents, 1200);
    assert_eq!(products, vec![row(1, 1000, 4), row(2, 250, 3)]);
}

#[test]
fn unknown_discount_code_is_not_found() {
    let mut products = vec![row(1, 1000, 5)];
    let mut discounts = vec![discount("OFF", DiscountKind::Flat, 300, 0)];
    let r = OrdersMutation.register_order(3, &order(Some("NOPE"), vec![(1, 1)]), &mut products, &mut discounts);
    assert!(matches!(r, Err(AppError::NotFound(Resource::Discount))));
    assert_eq!(products, vec![row(1, 1000, 5)]);
}

#[test]
fn unknown_product_is_not_found() {
    let mut products = vec![row(1, 1000, 5)];
    let mut discounts: Vec<DiscountRow> = vec![];
    let r = OrdersMutation.register_order(3, &order(None, vec![(1, 1), (9, 1)]), &mut products, &mut discounts);
    assert!(matches!(r, Err(AppError::NotFound(Resource::Product))));
    assert_eq!(products, vec![row(1, 1000, 5)]);
}

#[test]
fn non_positive_quantity_is_invalid() {
    let mut products = vec![row(1, 1000, 5)];
    let mut discounts: Vec<DiscountRow> = vec![];
    let r = OrdersMutation.register_order(3, &order(None, vec![(1, 0)]), &mut products, &mut discounts);
    assert!(matches!(r, Err(AppError::ValidationError(Invalid::NonPositiveQuantity))));
}

#[test]
fn repeated_product_lines_share_the_stock() {
    let mut products = vec![row(1, 100, 3)];
    let mut discounts: Vec<DiscountRow> = vec![];
    let r = OrdersMutation.register_order(3, &order(None, vec![(1, 2), (1, 2)]), &mut products, &mut discounts);
    assert!(matches!(r, Err(AppError::InsufficientStock { product_id: 1 })));
    assert_eq!(products, vec![row(1, 100, 3)]);
    let ok = OrdersMutation.register_order(3, &order(None, vec![(1, 2), (1, 1)]), &mut products, &mut discounts);
    assert!(ok.is_ok());
    assert_eq!(products, vec![row(1, 100, 0)]);
}

#[test]
fn order_of_empty_cart_costs_nothing() {
    let mut products = vec![row(1, 100, 3)];
    let mut discounts: Vec<DiscountRow> = vec![];
    let placed = OrdersMutation.register_order(3, &order(None, vec![]), &mut products, &mut discounts).unwrap();
    assert_eq!(placed.total_amount.cents, 0);
    assert!(placed.items.is_empty());
}

#[test]
fn total_beyond_the_amount_column_is_invalid() {
    let mut products = vec![row(1, 9_999_999_999, 10)];
    let mut discounts: Vec<DiscountRow> = vec![];
    let r = OrdersMutation.register_order(3, &order(None, vec![(1, 2)]), &mut products, &mut discounts);
    assert!(matches!(r, Err(AppError::ValidationError(Invalid::AmountOutOfRange))));
}

fn stored(status: OrderStatus) -> OrderRow {
    OrderRow {
        order_id: 50,
        customer_id: 3,
        total_amount: Money::from_cents(3998),
        status,
        shipping_address_id: 11,
        payment_method_id: 12,
        discount_id: None,
    }
}

#[test]
fn cancelling_restores_stock() {
    let mut products = vec![row(1, 1999, 3), row(2, 500, 0)];
    let lines = vec![
        OrderItemRow { product_id: 1, quantity: 2, unit_price: Money::from_cents(1999) },
        OrderItemRow { product_id: 2, quantity: 1, unit_price: Money::from_cents(450) },
    ];
    let r = OrdersMutation.cancel_order(3, Some(stored(OrderStatus::Pending)), &lines, &mut products).unwrap();
    assert_eq!(r.status, OrderStatus::Cancelled);
    assert_eq!(r.order_id, 50);
    assert_eq!(products, vec![row(1, 1999, 5), row(2, 500, 1)]);
}

#[test]
fn cancelling_a_cancelled_order_fails() {
    let mut products = vec![row(1, 1999, 3)];
    let lines = vec![OrderItemRow { product_id: 1, quantity: 2, unit_price: Money::from_cents(1999) }];
    let r = OrdersMutation.cancel_order(3, Some(stored(OrderStatus::Cancelled)), &lines, &mut products);
    assert_eq!(r, Err(AppError::InvalidState));
    assert_eq!(products, vec![row(1, 1999, 3)]);
}

#[test]
fn cancelling_needs_the_owner() {
    let mut products = vec![row(1, 1999, 3)];
    let lines: Vec<OrderItemRow> = vec![];
    assert_eq!(
        OrdersMutation.cancel_order(4, Some(stored(OrderStatus::Pending)), &lines, &mut products),
        Err(AppError::Unauthorized)
    );
    assert_eq!(
        OrdersMutation.cancel_order(3, None, &lines, &mut products),
        Err(AppError::NotFound(Resource::Order))
    );
}

#[test]
fn cancelling_with_a_vanished_product_changes_nothing() {
    let mut products = vec![row(1, 1999, 3)];
    let lines = vec![
        OrderItemRow { product_id: 1, quantity: 2, unit_price: Money::from_cents(1999) },
        OrderItemRow { product_id: 8, quantity: 1, unit_price: Money::from_cents(10) },
    ];
    let r = OrdersMutation.cancel_order(3, Some(stored(OrderStatus::Pending)), &lines, &mut products);
    assert_eq!(r, Err(AppError::NotFound(Resource::Product)));
    assert_eq!(products, vec![row(1, 1999, 3)]);
}

#[test]
fn status_moves_forward_only() {
    let m = OrdersMutation;
    assert_eq!(m.update_order_status(Some(stored(OrderStatus::Pending)), "SHIPPED").map(|o| o.status), Ok(OrderStatus::Shipped));
    assert_eq!(m.update_order_status(Some(stored(OrderStatus::Shipped)), "DELIVERED").map(|o| o.status), Ok(OrderStatus::Delivered));
    assert_eq!(m.update_order_status(Some(stored(OrderStatus::Delivered)), "SHIPPED"), Err(AppError::InvalidState));
    assert_eq!(m.update_order_status(Some(stored(OrderStatus::Pending)), "CANCELLED"), Err(AppError::InvalidState));
    assert_eq!(
        m.update_order_status(Some(stored(OrderStatus::Pending)), "LOST"),
        Err(AppError::ValidationError(Invalid::UnknownOrderStatus))
    );
    assert_eq!(m.update_order_status(None, "SHIPPED"), Err(AppError::NotFound(Resource::Order)));
    assert_eq!(OrderStatus::Cancelled.name(), "CANCELLED");
}

#[test]
fn discount_type_names() {
    assert_eq!(DiscountKind::from_type_name("PERCENTAGE"), DiscountKind::Percentage);
    assert_eq!(DiscountKind::from_type_name("FIXED"), DiscountKind::Flat);
}

#[test]
fn money_text_round_trips() {
    assert_eq!(Money::parse("19.99"), Some(Money::from_cents(1999)));
    assert_eq!(Money::parse("19.9"), Some(Money::from_cents(1990)));
    assert_eq!(Money::parse("19"), Some(Money::from_cents(1900)));
    assert_eq!(Money::parse("0.05"), Some(Money::from_cents(5)));
    assert_eq!(Money::parse("1.999"), None);
    assert_eq!(Money::parse(".5"), None);
    assert_eq!(Money::parse("12."), None);
    assert_eq!(Money::parse("-1.00"), None);
    assert_eq!(Money::parse("abc"), None);
    assert_eq!(Money::from_cents(3998).to_text(), "39.98");
    assert_eq!(Money::from_cents(5).to_text(), "0.05");
    assert_eq!(Money::from_cents(-250).to_text(), "-2.50");
    assert_eq!(Money::from_cents(100000).to_text(), "1000.00");
}

#[test]
fn restoring_past_the_stock_range_changes_nothing() {
    let mut products = vec![row(1, 100, i32::MAX)];
    let lines = vec![OrderItemRow { product_id: 1, quantity: 1, unit_price: Money::from_cents(100) }];
    let r = OrdersMutation.cancel_order(3, Some(stored(OrderStatus::Pending)), &lines, &mut products);
    assert_eq!(r, Err(AppError::ValidationError(Invalid::AmountOutOfRange)));
    assert_eq!(products, vec![row(1, 100, i32::MAX)]);
}

#[test]
fn exhausted_discount_counter_is_refused() {
    let mut products = vec![row(1, 100, 3)];
    let mut discounts = vec![discount("MAX", DiscountKind::Flat, 10, i32::MAX)];
    let r = OrdersMutation.register_order(3, &order(Some("MAX"), vec![(1, 1)]), &mut products, &mut discounts);
    assert!(matches!(r, Err(AppError::ValidationError(Invalid::AmountOutOfRange))));
    assert_eq!(products, vec![row(1, 100, 3)]);
}

#[test]
fn cancelling_sums_lines_of_one_product() {
    let mut products = vec![row(1, 100, 0), row(2, 50, 4)];
    let lines = vec![
        OrderItemRow { product_id: 1, quantity: 2, unit_price: Money::from_cents(100) },
        OrderItemRow { product_id: 2, quantity: 1, unit_price: Money::from_cents(50) },
        OrderItemRow { product_id: 1, quantity: 3, unit_price: Money::from_cents(90) },
    ];
    OrdersMutation.cancel_order(3, Some(stored(OrderStatus::Shipped)), &lines, &mut products).unwrap();
    assert_eq!(products, vec![row(1, 100, 5), row(2, 50, 5)]);
}
