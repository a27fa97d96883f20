//! The order workflow: placing an order against the product rows that the
//! caller's transaction holds, cancelling it, and moving it through its
//! states.
//!
//! Each operation works on a copy of the rows and writes them back only
//! when every step has succeeded, so a failed operation leaves them as they
//! were.

use vstd::prelude::*;
use crate::error::{AppError, Invalid, Resource};
use crate::money::{Money, MAX_CENTS};
use crate::text::same_text;

verus! {

/// A product as the order workflow sees it: its live price and stock.
#[derive(Debug, Clone, Copy, PartialEq, Eq, Structural)]
pub struct StockRow {
    pub product_id: i32,
    pub unit_price: Money,
    pub stock_quantity: i32,
}

/// How a discount reduces an order's total.
#[derive(Debug, Clone, Copy, PartialEq, Eq, Structural)]
pub enum DiscountKind {
    /// `value` is a percentage of the total, in hundredths of a percent.
    Percentage,
    /// `value` is subtracted from the total.
    Flat,
}

impl DiscountKind {
    /// The discount type "PERCENTAGE" is a percentage; any other is flat.
    pub fn from_type_name(name: &str) -> (r: DiscountKind)
        ensures
            (r == DiscountKind::Percentage) <==> name@ == "PERCENTAGE"@,
    {
        if same_text(name, "PERCENTAGE") {
            DiscountKind::Percentage
        } else {
            DiscountKind::Flat
        }
    }
}

/// A discount that an order may name by its code.
pub struct DiscountRow {
    pub discount_id: i32,
    pub code: String,
    pub kind: DiscountKind,
    pub value: Money,
    pub times_used: i32,
}

/// One line of an order request.
#[derive(Debug, Clone, Copy, PartialEq, Eq, Structural)]
pub struct RegisterOrderItem {
    pub product_id: i32,
    pub quantity: i32,
}

/// An order request of a customer.
pub struct RegisterOrder {
    pub shipping_address_id: i32,
    pub payment_method_id: i32,
    pub discount_code: Option<String>,
    pub order_items: Vec<RegisterOrderItem>,
}

/// A line of a stored order: the price is the product's price when the
/// order was placed, whatever it is now.
#[derive(Debug, Clone, Copy, PartialEq, Eq, Structural)]
pub struct OrderItemRow {
    pub product_id: i32,
    pub quantity: i32,
    pub unit_price: Money,
}

/// An order item as clients see it.
#[derive(Debug, Clone, Copy, PartialEq, Eq, Structural)]
pub struct OrderItems {
    pub order_item_id: i32,
    pub order_id: i32,
    pub product_id: i32,
    pub quantity: i32,
    pub unit_price: i32,
    pub discount_amount: i32,
}

#[derive(Debug, Clone, Copy, PartialEq, Eq, Structural)]
pub enum OrderStatus {
    Pending,
    Shipped,
    Delivered,
    Cancelled,
}

/// A stored order.
#[derive(Debug, Clone, Copy, PartialEq, Eq, Structural)]
pub struct OrderRow {
    pub order_id: i32,
    pub customer_id: i32,
    pub total_amount: Money,
    pub status: OrderStatus,
    pub shipping_address_id: i32,
    pub payment_method_id: i32,
    pub discount_id: Option<i32>,
}

/// What a successful order request produces: the order and its lines,
/// ready to be stored.
pub struct PlacedOrder {
    pub customer_id: i32,
    pub shipping_address_id: i32,
    pub payment_method_id: i32,
    pub discount_id: Option<i32>,
    pub total_amount: Money,
    pub status: OrderStatus,
    pub items: Vec<OrderItemRow>,
}

/// The resolver of order operations.
#[derive(Debug, Clone, Copy, PartialEq, Eq, Structural)]
pub struct OrdersMutation;

impl OrderStatus {
    pub open spec fn spec_name(self) -> Seq<char> {
        match self {
            OrderStatus::Pending => "PENDING"@,
            OrderStatus::Shipped => "SHIPPED"@,
            OrderStatus::Delivered => "DELIVERED"@,
            OrderStatus::Cancelled => "CANCELLED"@,
        }
    }

    pub open spec fn spec_from_name(name: Seq<char>) -> Option<OrderStatus> {
        if name == "PENDING"@ {
            Some(OrderStatus::Pending)
        } else if name == "SHIPPED"@ {
            Some(OrderStatus::Shipped)
        } else if name == "DELIVERED"@ {
            Some(OrderStatus::Delivered)
        } else if name == "CANCELLED"@ {
            Some(OrderStatus::Cancelled)
        } else {
            None
        }
    }

    /// The moves that a status update may make. Cancelling goes through
    /// the cancellation workflow, which puts the stock back.
    pub open spec fn spec_can_move_to(self, next: OrderStatus) -> bool {
        match (self, next) {
            (OrderStatus::Pending, OrderStatus::Shipped) => true,
            (OrderStatus::Pending, OrderStatus::Delivered) => true,
            (OrderStatus::Shipped, OrderStatus::Delivered) => true,
            _ => false,
        }
    }

    pub fn name(&self) -> (r: String)
        ensures
            r@ == self.spec_name(),
    {
        match self {
            OrderStatus::Pending => String::from_str("PENDING"),
            OrderStatus::Shipped => String::from_str("SHIPPED"),
            OrderStatus::Delivered => String::from_str("DELIVERED"),
            OrderStatus::Cancelled => String::from_str("CANCELLED"),
        }
    }

    pub fn from_name(name: &str) -> (r: Option<OrderStatus>)
        ensures
            r == OrderStatus::spec_from_name(name@),
    {
        if same_text(name, "PENDING") {
            Some(OrderStatus::Pending)
        } else if same_text(name, "SHIPPED") {
            Some(OrderStatus::Shipped)
        } else if same_text(name, "DELIVERED") {
            Some(OrderStatus::Delivered)
        } else if same_text(name, "CANCELLED") {
            Some(OrderStatus::Cancelled)
        } else {
            None
        }
    }

    pub fn can_move_to(&self, next: OrderStatus) -> (r: bool)
        ensures
            r == self.spec_can_move_to(next),
    {
        match (self, next) {
            (OrderStatus::Pending, OrderStatus::Shipped) => true,
            (OrderStatus::Pending, OrderStatus::Delivered) => true,
            (OrderStatus::Shipped, OrderStatus::Delivered) => true,
            _ => false,
        }
    }
}

/// Prices lie in what an amount column holds and stock is never negative.
pub open spec fn rows_wf(rows: Seq<StockRow>) -> bool {
    forall|k: int|
        0 <= k < rows.len() ==> 0 <= (#[trigger] rows[k]).unit_price.cents <= MAX_CENTS
            && rows[k].stock_quantity >= 0
}

/// Discount values lie in what an amount column holds.
pub open spec fn discounts_wf(ds: Seq<DiscountRow>) -> bool {
    forall|k: int| 0 <= k < ds.len() ==> 0 <= (#[trigger] ds[k]).value.cents <= MAX_CENTS
}

/// The first row from `from` on that holds product `id`, or `rows.len()`.
pub open spec fn find_row(rows: Seq<StockRow>, id: i32, from: int) -> int
    decreases rows.len() - from,
{
    if from >= rows.len() {
        rows.len() as int
    } else if rows[from].product_id == id {
        from
    } else {
        find_row(rows, id, from + 1)
    }
}

pub open spec fn row_index(rows: Seq<StockRow>, id: i32) -> int {
    find_row(rows, id, 0)
}

/// Two row lists that hold the same products in the same places.
pub open spec fn same_products(a: Seq<StockRow>, b: Seq<StockRow>) -> bool {
    a.len() == b.len() && forall|k: int|
        0 <= k < a.len() ==> (#[trigger] a[k]).product_id == b[k].product_id && a[k].unit_price
            == b[k].unit_price
}

/// What one line costs before any discount.
pub open spec fn line_price(rows: Seq<StockRow>, it: RegisterOrderItem) -> int {
    rows[row_index(rows, it.product_id)].unit_price.cents * it.quantity
}

pub open spec fn lines_total(rows: Seq<StockRow>, items: Seq<RegisterOrderItem>) -> int
    decreases items.len(),
{
    if items.len() == 0 {
        0
    } else {
        lines_total(rows, items.drop_last()) + line_price(rows, items.last())
    }
}

/// The first line, in order, that names no product, asks for no units, or
/// brings the running total past what an amount column holds.
pub open spec fn line_error(rows: Seq<StockRow>, items: Seq<RegisterOrderItem>) -> Option<AppError>
    decreases items.len(),
{
    if items.len() == 0 {
        None
    } else if line_error(rows, items.drop_last()) is Some {
        line_error(rows, items.drop_last())
    } else if row_index(rows, items.last().product_id) >= rows.len() {
        Some(AppError::NotFound(Resource::Product))
    } else if items.last().quantity <= 0 {
        Some(AppError::ValidationError(Invalid::NonPositiveQuantity))
    } else if lines_total(rows, items) > MAX_CENTS {
        Some(AppError::ValidationError(Invalid::AmountOutOfRange))
    } else {
        None
    }
}

/// Takes one line's units out of stock, or fails when there are too few.
pub open spec fn take_line(rows: Seq<StockRow>, it: RegisterOrderItem) -> Result<Seq<StockRow>, AppError> {
    let k = row_index(rows, it.product_id);
    if rows[k].stock_quantity < it.quantity {
        Err(AppError::InsufficientStock { product_id: it.product_id })
    } else {
        Ok(rows.update(k, StockRow { stock_quantity: (rows[k].stock_quantity - it.quantity) as i32, ..rows[k] }))
    }
}

/// The stock after taking the lines one after the other.
pub open spec fn take_lines(rows: Seq<StockRow>, items: Seq<RegisterOrderItem>) -> Result<Seq<StockRow>, AppError>
    decreases items.len(),
{
    if items.len() == 0 {
        Ok(rows)
    } else {
        match take_lines(rows, items.drop_last()) {
            Err(e) => Err(e),
            Ok(r) => take_line(r, items.last()),
        }
    }
}

/// The lines of the stored order, each with the product's price now.
pub open spec fn snapshot(rows: Seq<StockRow>, items: Seq<RegisterOrderItem>) -> Seq<OrderItemRow> {
    Seq::new(
        items.len(),
        |i: int|
            OrderItemRow {
                product_id: items[i].product_id,
                quantity: items[i].quantity,
                unit_price: rows[row_index(rows, items[i].product_id)].unit_price,
            },
    )
}

/// A total after a discount: a percentage comes off rounded to the
/// nearest cent (halves up), a flat amount comes off whole.
pub open spec fn discounted(total: int, kind: DiscountKind, value: int) -> int {
    match kind {
        DiscountKind::Percentage => total - (total * value + 5000) / 10000,
        DiscountKind::Flat => total - value,
    }
}

/// The first discount with the given code, or `ds.len()`.
pub open spec fn find_discount(ds: Seq<DiscountRow>, code: Seq<char>, from: int) -> int
    decreases ds.len() - from,
{
    if from >= ds.len() {
        ds.len() as int
    } else if ds[from].code@ == code {
        from
    } else {
        find_discount(ds, code, from + 1)
    }
}

/// The discount that an order request names, if any: its index.
pub open spec fn named_discount(ds: Seq<DiscountRow>, code: Option<String>) -> Option<int> {
    match code {
        None => None,
        Some(c) => Some(find_discount(ds, c@, 0)),
    }
}

/// Why an order request fails, checked in the order the workflow runs.
pub open spec fn order_error(
    input: RegisterOrder,
    rows: Seq<StockRow>,
    ds: Seq<DiscountRow>,
) -> Option<AppError> {
    let d = named_discount(ds, input.discount_code);
    if d is Some && d->0 >= ds.len() {
        Some(AppError::NotFound(Resource::Discount))
    } else if line_error(rows, input.order_items@) is Some {
        line_error(rows, input.order_items@)
    } else if d is Some && ds[d->0].times_used == i32::MAX {
        Some(AppError::ValidationError(Invalid::AmountOutOfRange))
    } else if take_lines(rows, input.order_items@) is Err {
        Some(take_lines(rows, input.order_items@)->Err_0)
    } else {
        None
    }
}

/// The order's total: the lines at their prices, less the discount.
pub open spec fn order_total(input: RegisterOrder, rows: Seq<StockRow>, ds: Seq<DiscountRow>) -> int {
    let total = lines_total(rows, input.order_items@);
    match named_discount(ds, input.discount_code) {
        None => total,
        Some(k) => discounted(total, ds[k].kind, ds[k].value.cents as int),
    }
}

/// A discount row with one more use.
pub open spec fn used_once_more(d: DiscountRow) -> DiscountRow {
    DiscountRow {
        discount_id: d.discount_id,
        code: d.code,
        kind: d.kind,
        value: d.value,
        times_used: (d.times_used + 1) as i32,
    }
}

/// The stock after putting back each line of a cancelled order.
pub open spec fn restore_lines(rows: Seq<StockRow>, lines: Seq<OrderItemRow>) -> Result<Seq<StockRow>, AppError>
    decreases lines.len(),
{
    if lines.len() == 0 {
        Ok(rows)
    } else {
        match restore_lines(rows, lines.drop_last()) {
            Err(e) => Err(e),
            Ok(r) => {
                let l = lines.last();
                let k = row_index(r, l.product_id);
                if k >= r.len() {
                    Err(AppError::NotFound(Resource::Product))
                } else if r[k].stock_quantity + l.quantity > i32::MAX || r[k].stock_quantity
                    + l.quantity < 0 {
                    Err(AppError::ValidationError(Invalid::AmountOutOfRange))
                } else {
                    Ok(r.update(k, StockRow { stock_quantity: (r[k].stock_quantity + l.quantity) as i32, ..r[k] }))
                }
            },
        }
    }
}

/// Why cancelling fails, checked in the order the workflow runs.
pub open spec fn cancel_error(
    customer_id: i32,
    order: Option<OrderRow>,
    lines: Seq<OrderItemRow>,
    rows: Seq<StockRow>,
) -> Option<AppError> {
    match order {
        None => Some(AppError::NotFound(Resource::Order)),
        Some(o) => if o.customer_id != customer_id {
            Some(AppError::Unauthorized)
        } else if o.status == OrderStatus::Cancelled {
            Some(AppError::InvalidState)
        } else if restore_lines(rows, lines) is Err {
            Some(restore_lines(rows, lines)->Err_0)
        } else {
            None
        },
    }
}

pub open spec fn with_status(o: OrderRow, status: OrderStatus) -> OrderRow {
    OrderRow { status, ..o }
}

/// The outcome of asking to move an order to the status named `name`.
pub open spec fn status_update(order: Option<OrderRow>, name: Seq<char>) -> Result<OrderRow, AppError> {
    match order {
        None => Err(AppError::NotFound(Resource::Order)),
        Some(o) => match OrderStatus::spec_from_name(name) {
            None => Err(AppError::ValidationError(Invalid::UnknownOrderStatus)),
            Some(next) => if o.status.spec_can_move_to(next) {
                Ok(with_status(o, next))
            } else {
                Err(AppError::InvalidState)
            },
        },
    }
}

/// Product ids are unique among the rows, as a primary key makes them.
pub open spec fn product_ids_unique(rows: Seq<StockRow>) -> bool {
    forall|i: int, j: int|
        0 <= i < rows.len() && 0 <= j < rows.len() && i != j ==> (#[trigger] rows[i]).product_id
            != (#[trigger] rows[j]).product_id
}

/// The units of product `id` that the lines hold, all lines together.
pub open spec fn returned_qty(lines: Seq<OrderItemRow>, id: i32) -> int
    decreases lines.len(),
{
    if lines.len() == 0 {
        0
    } else {
        returned_qty(lines.drop_last(), id) + if lines.last().product_id == id {
            lines.last().quantity as int
        } else {
            0
        }
    }
}

proof fn lemma_find_row_at(rows: Seq<StockRow>, id: i32, from: int, k: int)
    requires
        0 <= from <= k < rows.len(),
        rows[k].product_id == id,
        forall|i: int| from <= i < k ==> rows[i].product_id != id,
    ensures
        find_row(rows, id, from) == k,
    decreases k - from,
{
    if from < k {
        lemma_find_row_at(rows, id, from + 1, k);
    }
}

/// With unique product ids, a product's row is the one that holds its id.
pub proof fn lemma_row_index_unique(rows: Seq<StockRow>, k: int)
    requires
        product_ids_unique(rows),
        0 <= k < rows.len(),
    ensures
        row_index(rows, rows[k].product_id) == k,
{
    assert forall|i: int| 0 <= i < k implies rows[i].product_id != rows[k].product_id by {
        assert(rows[i].product_id != rows[k].product_id);
    }
    lemma_find_row_at(rows, rows[k].product_id, 0, k);
}

/// An order of one line that asks for more units of a product than are in
/// stock fails with `InsufficientStock` naming that product; by the
/// contract of `register_order`, every row is then left as it was and no
/// order is made.
pub proof fn lemma_short_stock_fails(input: RegisterOrder, rows: Seq<StockRow>, ds: Seq<DiscountRow>, k: int)
    requires
        rows_wf(rows),
        product_ids_unique(rows),
        0 <= k < rows.len(),
        input.discount_code is None,
        input.order_items@.len() == 1,
        input.order_items@[0].product_id == rows[k].product_id,
        0 < input.order_items@[0].quantity,
        rows[k].stock_quantity < input.order_items@[0].quantity,
        rows[k].unit_price.cents * input.order_items@[0].quantity <= MAX_CENTS,
    ensures
        order_error(input, rows, ds) == Some(AppError::InsufficientStock { product_id: rows[k].product_id }),
{
    let items = input.order_items@;
    lemma_row_index_unique(rows, k);
    assert(items.drop_last() =~= Seq::<RegisterOrderItem>::empty());
    assert(lines_total(rows, Seq::<RegisterOrderItem>::empty()) == 0);
    assert(line_error(rows, Seq::<RegisterOrderItem>::empty()) is None);
    assert(items.last() == items[0]);
    assert(line_price(rows, items[0]) == rows[k].unit_price.cents * items[0].quantity);
    assert(lines_total(rows, items) == rows[k].unit_price.cents * items[0].quantity);
    assert(line_error(rows, items) is None);
    assert(take_lines(rows, Seq::<RegisterOrderItem>::empty()) == Ok::<Seq<StockRow>, AppError>(rows));
    assert(take_lines(rows, items) == take_line(rows, items[0]));
}

/// An order of two lines for different products, where the first fits the
/// stock and the second does not, fails with `InsufficientStock` naming the
/// second product; by the contract of `register_order`, the first line's
/// units are not taken either.
pub proof fn lemma_second_line_short_fails(
    input: RegisterOrder,
    rows: Seq<StockRow>,
    ds: Seq<DiscountRow>,
    k1: int,
    k2: int,
)
    requires
        rows_wf(rows),
        product_ids_unique(rows),
        0 <= k1 < rows.len(),
        0 <= k2 < rows.len(),
        k1 != k2,
        input.discount_code is None,
        input.order_items@.len() == 2,
        input.order_items@[0].product_id == rows[k1].product_id,
        input.order_items@[1].product_id == rows[k2].product_id,
        0 < input.order_items@[0].quantity <= rows[k1].stock_quantity,
        0 < input.order_items@[1].quantity,
        rows[k2].stock_quantity < input.order_items@[1].quantity,
        rows[k1].unit_price.cents * input.order_items@[0].quantity + rows[k2].unit_price.cents
            * input.order_items@[1].quantity <= MAX_CENTS,
    ensures
        order_error(input, rows, ds) == Some(AppError::InsufficientStock { product_id: rows[k2].product_id }),
{
    let items = input.order_items@;
    let a = items[0];
    let b = items[1];
    lemma_row_index_unique(rows, k1);
    lemma_row_index_unique(rows, k2);
    let first = items.drop_last();
    assert(first =~= seq![a]);
    assert(first.drop_last() =~= Seq::<RegisterOrderItem>::empty());
    let p1 = rows[k1].unit_price.cents * a.quantity;
    let p2 = rows[k2].unit_price.cents * b.quantity;
    assert(p1 >= 0 && p2 >= 0) by (nonlinear_arith)
        requires
            p1 == rows[k1].unit_price.cents * a.quantity,
            p2 == rows[k2].unit_price.cents * b.quantity,
            rows[k1].unit_price.cents >= 0,
            rows[k2].unit_price.cents >= 0,
            a.quantity > 0,
            b.quantity > 0,
    ;
    assert(lines_total(rows, Seq::<RegisterOrderItem>::empty()) == 0);
    assert(line_error(rows, Seq::<RegisterOrderItem>::empty()) is None);
    assert(first.last() == a);
    assert(items.last() == b);
    assert(line_price(rows, a) == p1);
    assert(line_price(rows, b) == p2);
    assert(lines_total(rows, first) == p1);
    assert(line_error(rows, first) is None);
    assert(lines_total(rows, items) == p1 + p2);
    assert(line_error(rows, items) is None);
    let r1 = rows.update(k1, StockRow { stock_quantity: (rows[k1].stock_quantity - a.quantity) as i32, ..rows[k1] });
    assert(take_lines(rows, Seq::<RegisterOrderItem>::empty()) == Ok::<Seq<StockRow>, AppError>(rows));
    assert(take_line(rows, a) == Ok::<Seq<StockRow>, AppError>(r1));
    assert(take_lines(rows, first) == Ok::<Seq<StockRow>, AppError>(r1));
    assert(same_products(r1, rows));
    lemma_find_row_same(r1, rows, b.product_id, 0);
    assert(r1[k2] == rows[k2]);
    assert(take_lines(rows, items) == take_line(r1, b));
}

/// Putting back the lines of an order adds to each product's stock the
/// units that all its lines hold, when product ids are unique.
pub proof fn lemma_restore_sums(rows: Seq<StockRow>, lines: Seq<OrderItemRow>)
    requires
        product_ids_unique(rows),
        restore_lines(rows, lines) is Ok,
    ensures
        same_products(restore_lines(rows, lines)->Ok_0, rows),
        forall|k: int|
            0 <= k < rows.len() ==> #[trigger] restore_lines(rows, lines)->Ok_0[k].stock_quantity
                == rows[k].stock_quantity + returned_qty(lines, rows[k].product_id),
    decreases lines.len(),
{
    if lines.len() > 0 {
        let prev = lines.drop_last();
        assert(restore_lines(rows, prev) is Ok);
        lemma_restore_sums(rows, prev);
        let r = restore_lines(rows, prev)->Ok_0;
        let l = lines.last();
        lemma_find_row_same(r, rows, l.product_id, 0);
        lemma_find_row(rows, l.product_id, 0);
        let kk = row_index(r, l.product_id);
        let out = restore_lines(rows, lines)->Ok_0;
        assert forall|k: int| 0 <= k < rows.len() implies #[trigger] out[k].stock_quantity
            == rows[k].stock_quantity + returned_qty(lines, rows[k].product_id) by {
            if k != kk {
                assert(rows[k].product_id != rows[kk].product_id);
            }
        }
        assert(same_products(out, rows));
    }
}

pub proof fn lemma_find_row(rows: Seq<StockRow>, id: i32, from: int)
    requires
        0 <= from <= rows.len(),
    ensures
        from <= find_row(rows, id, from) <= rows.len(),
        find_row(rows, id, from) < rows.len() ==> rows[find_row(rows, id, from)].product_id == id,
    decreases rows.len() - from,
{
    if from < rows.len() && rows[from].product_id != id {
        lemma_find_row(rows, id, from + 1);
    }
}

/// Rows with the same products in the same places are searched alike.
pub proof fn lemma_find_row_same(a: Seq<StockRow>, b: Seq<StockRow>, id: i32, from: int)
    requires
        same_products(a, b),
        0 <= from <= a.len(),
    ensures
        find_row(a, id, from) == find_row(b, id, from),
    decreases a.len() - from,
{
    if from < a.len() {
        assert(a[from].product_id == b[from].product_id);
        lemma_find_row_same(a, b, id, from + 1);
    }
}

/// An error in the first lines of a request is the request's error.
pub proof fn lemma_line_error_prefix(rows: Seq<StockRow>, items: Seq<RegisterOrderItem>, k: int)
    requires
        0 <= k <= items.len(),
        line_error(rows, items.subrange(0, k)) is Some,
    ensures
        line_error(rows, items) == line_error(rows, items.subrange(0, k)),
    decreases items.len(),
{
    if k < items.len() {
        assert(items.drop_last().subrange(0, k) =~= items.subrange(0, k));
        lemma_line_error_prefix(rows, items.drop_last(), k);
    } else {
        assert(items.subrange(0, k) =~= items);
    }
}

/// A request without a line error names a product in each of its lines.
pub proof fn lemma_lines_found(rows: Seq<StockRow>, items: Seq<RegisterOrderItem>, j: int)
    requires
        0 <= j < items.len(),
        line_error(rows, items) is None,
    ensures
        row_index(rows, items[j].product_id) < rows.len(),
        items[j].quantity > 0,
    decreases items.len(),
{
    if j < items.len() - 1 {
        lemma_lines_found(rows, items.drop_last(), j);
    }
}

/// A failure in taking the first lines is the failure of taking them all.
pub proof fn lemma_take_lines_prefix(rows: Seq<StockRow>, items: Seq<RegisterOrderItem>, k: int)
    requires
        0 <= k <= items.len(),
        take_lines(rows, items.subrange(0, k)) is Err,
    ensures
        take_lines(rows, items) == take_lines(rows, items.subrange(0, k)),
    decreases items.len(),
{
    if k < items.len() {
        assert(items.drop_last().subrange(0, k) =~= items.subrange(0, k));
        lemma_take_lines_prefix(rows, items.drop_last(), k);
    } else {
        assert(items.subrange(0, k) =~= items);
    }
}

pub proof fn lemma_restore_lines_prefix(rows: Seq<StockRow>, lines: Seq<OrderItemRow>, k: int)
    requires
        0 <= k <= lines.len(),
        restore_lines(rows, lines.subrange(0, k)) is Err,
    ensures
        restore_lines(rows, lines) == restore_lines(rows, lines.subrange(0, k)),
    decreases lines.len(),
{
    if k < lines.len() {
        assert(lines.drop_last().subrange(0, k) =~= lines.subrange(0, k));
        lemma_restore_lines_prefix(rows, lines.drop_last(), k);
    } else {
        assert(lines.subrange(0, k) =~= lines);
    }
}

fn find_row_exec(rows: &Vec<StockRow>, id: i32) -> (r: usize)
    ensures
        r as int == row_index(rows@, id),
        r <= rows@.len(),
        r < rows@.len() ==> rows@[r as int].product_id == id,
{
    proof {
        lemma_find_row(rows@, id, 0);
    }
    let mut i: usize = 0;
    while i < rows.len()
        invariant
            i <= rows@.len(),
            find_row(rows@, id, i as int) == row_index(rows@, id),
        decreases rows@.len() - i,
    {
        if rows[i].product_id == id {
            return i;
        }
        i = i + 1;
    }
    i
}

fn find_discount_exec(ds: &Vec<DiscountRow>, code: &String) -> (r: usize)
    ensures
        r as int == find_discount(ds@, code@, 0),
        r <= ds@.len(),
{
    let mut i: usize = 0;
    while i < ds.len()
        invariant
            i <= ds@.len(),
            find_discount(ds@, code@, i as int) == find_discount(ds@, code@, 0),
        decreases ds@.len() - i,
    {
        if ds[i].code == *code {
            return i;
        }
        i = i + 1;
    }
    i
}

fn copy_rows(rows: &Vec<StockRow>) -> (r: Vec<StockRow>)
    ensures
        r@ == rows@,
{
    let mut r: Vec<StockRow> = Vec::new();
    let mut i: usize = 0;
    while i < rows.len()
        invariant
            i <= rows@.len(),
            r@ == rows@.subrange(0, i as int),
        decreases rows@.len() - i,
    {
        r.push(rows[i]);
        i = i + 1;
        assert(r@ =~= rows@.subrange(0, i as int));
    }
    assert(rows@.subrange(0, rows@.len() as int) =~= rows@);
    r
}

/// The lines' total before any discount; fails at the first line that
/// names no product, asks for no units, or takes the total out of range.
fn total_of_lines(items: &Vec<RegisterOrderItem>, rows: &Vec<StockRow>) -> (r: Result<i64, AppError>)
    requires
        rows_wf(rows@),
    ensures
        r is Err <==> line_error(rows@, items@) is Some,
        r is Err ==> r->Err_0 == line_error(rows@, items@)->0,
        r is Ok ==> r->Ok_0 == lines_total(rows@, items@) && 0 <= r->Ok_0 <= MAX_CENTS,
{
    let mut total: i128 = 0;
    let mut i: usize = 0;
    while i < items.len()
        invariant
            i <= items@.len(),
            rows_wf(rows@),
            line_error(rows@, items@.subrange(0, i as int)) is None,
            total == lines_total(rows@, items@.subrange(0, i as int)),
            0 <= total <= MAX_CENTS,
        decreases items@.len() - i,
    {
        let it = items[i];
        let ghost pre = items@.subrange(0, i as int + 1);
        assert(pre.drop_last() =~= items@.subrange(0, i as int));
        assert(pre.last() == it);
        let k = find_row_exec(rows, it.product_id);
        if k == rows.len() {
            proof {
                lemma_line_error_prefix(rows@, items@, i + 1);
            }
            return Err(AppError::NotFound(Resource::Product));
        }
        if it.quantity <= 0 {
            proof {
                lemma_line_error_prefix(rows@, items@, i + 1);
            }
            return Err(AppError::ValidationError(Invalid::NonPositiveQuantity));
        }
        let price = rows[k].unit_price.cents;
        assert(0 <= price <= MAX_CENTS);
        assert(0 <= price as int * it.quantity as int <= MAX_CENTS as int * i32::MAX as int) by (nonlinear_arith)
            requires
                0 <= price <= MAX_CENTS,
                0 < it.quantity <= i32::MAX,
        ;
        let term: i128 = (price as i128) * (it.quantity as i128);
        if total + term > MAX_CENTS as i128 {
            proof {
                lemma_line_error_prefix(rows@, items@, i + 1);
            }
            return Err(AppError::ValidationError(Invalid::AmountOutOfRange));
        }
        total = total + term;
        i = i + 1;
    }
    assert(items@.subrange(0, items@.len() as int) =~= items@);
    Ok(total as i64)
}

impl OrdersMutation {
    /// Places an order: resolves the discount, prices the lines, applies
    /// the discount once, then takes each line's units out of stock in
    /// turn. On success `products` holds the new stock and `discounts` the
    /// discount's new use count; on any failure both are left untouched.
    pub fn register_order(
        &self,
        customer_id: i32,
        input: &RegisterOrder,
        products: &mut Vec<StockRow>,
        discounts: &mut Vec<DiscountRow>,
    ) -> (r: Result<PlacedOrder, AppError>)
        requires
            rows_wf(old(products)@),
            discounts_wf(old(discounts)@),
        ensures
            r is Err <==> order_error(*input, old(products)@, old(discounts)@) is Some,
            r is Err ==> r->Err_0 == order_error(*input, old(products)@, old(discounts)@)->0,
            r is Err ==> final(products)@ == old(products)@ && final(discounts)@ == old(discounts)@,
            r is Ok ==> ({
                let p = r->Ok_0;
                let d = named_discount(old(discounts)@, input.discount_code);
                &&& final(products)@ == take_lines(old(products)@, input.order_items@)->Ok_0
                &&& p.items@ == snapshot(old(products)@, input.order_items@)
                &&& p.total_amount.cents == order_total(*input, old(products)@, old(discounts)@)
                &&& p.status == OrderStatus::Pending
                &&& p.customer_id == customer_id
                &&& p.shipping_address_id == input.shipping_address_id
                &&& p.payment_method_id == input.payment_method_id
                &&& match d {
                    None => p.discount_id is None && final(discounts)@ == old(discounts)@,
                    Some(k) => p.discount_id == Some(old(discounts)@[k].discount_id)
                        && final(discounts)@ == old(discounts)@.update(k, used_once_more(old(discounts)@[k])),
                }
            }),
    {
        let ghost rows0 = products@;
        let ghost ds0 = discounts@;
        let mut di: Option<usize> = None;
        match &input.discount_code {
            Some(code) => {
                let k = find_discount_exec(discounts, code);
                if k == discounts.len() {
                    return Err(AppError::NotFound(Resource::Discount));
                }
                di = Some(k);
            },
            None => {},
        }
        let lines_sum = total_of_lines(&input.order_items, products)?;
        let total: i64 = match di {
            None => lines_sum,
            Some(k) => {
                if discounts[k].times_used == i32::MAX {
                    return Err(AppError::ValidationError(Invalid::AmountOutOfRange));
                }
                let v = discounts[k].value.cents;
                assert(0 <= v <= MAX_CENTS);
                match discounts[k].kind {
                    DiscountKind::Percentage => {
                        assert(0 <= lines_sum as int * v as int <= MAX_CENTS as int * MAX_CENTS as int) by (nonlinear_arith)
                            requires
                                0 <= lines_sum <= MAX_CENTS,
                                0 <= v <= MAX_CENTS,
                        ;
                        let off: i128 = ((lines_sum as i128) * (v as i128) + 5000) / 10000;
                        assert(0 <= off <= 10000000000000000);
                        lines_sum - (off as i64)
                    },
                    DiscountKind::Flat => lines_sum - v,
                }
            },
        };
        let items = &input.order_items;
        let mut work = copy_rows(products);
        let mut snaps: Vec<OrderItemRow> = Vec::new();
        let mut j: usize = 0;
        while j < items.len()
            invariant
                j <= items@.len(),
                products@ == rows0,
                discounts@ == ds0,
                items@ == input.order_items@,
                rows_wf(rows0),
                line_error(rows0, items@) is None,
                same_products(work@, rows0),
                take_lines(rows0, items@.subrange(0, j as int)) == Ok::<Seq<StockRow>, AppError>(work@),
                snaps@ == snapshot(rows0, items@.subrange(0, j as int)),
                total == order_total(*input, rows0, ds0),
                match di {
                    None => input.discount_code is None,
                    Some(k) => named_discount(ds0, input.discount_code) == Some(k as int)
                        && k < ds0.len() && ds0[k as int].times_used != i32::MAX,
                },
            decreases items@.len() - j,
        {
            let it = items[j];
            let ghost pre = items@.subrange(0, j as int + 1);
            assert(pre.drop_last() =~= items@.subrange(0, j as int));
            assert(pre.last() == it);
            proof {
                lemma_lines_found(rows0, items@, j as int);
                lemma_find_row_same(work@, rows0, it.product_id, 0);
            }
            let k = find_row_exec(&work, it.product_id);
            let row = work[k];
            if row.stock_quantity < it.quantity {
                proof {
                    lemma_take_lines_prefix(rows0, items@, j + 1);
                }
                return Err(AppError::InsufficientStock { product_id: it.product_id });
            }
            let taken = StockRow { stock_quantity: row.stock_quantity - it.quantity, ..row };
            work.set(k, taken);
            snaps.push(OrderItemRow { product_id: it.product_id, quantity: it.quantity, unit_price: row.unit_price });
            j = j + 1;
            assert(snaps@ =~= snapshot(rows0, items@.subrange(0, j as int)));
        }
        assert(items@.subrange(0, items@.len() as int) =~= items@);
        *products = work;
        let discount_id = match di {
            None => None,
            Some(k) => {
                let d = &discounts[k];
                let bumped = DiscountRow {
                    discount_id: d.discount_id,
                    code: d.code.clone(),
                    kind: d.kind,
                    value: d.value,
                    times_used: d.times_used + 1,
                };
                let id = d.discount_id;
                discounts.set(k, bumped);
                Some(id)
            },
        };
        Ok(PlacedOrder {
            customer_id,
            shipping_address_id: input.shipping_address_id,
            payment_method_id: input.payment_method_id,
            discount_id,
            total_amount: Money { cents: total },
            status: OrderStatus::Pending,
            items: snaps,
        })
    }

    /// Cancels an order of the caller: puts each line's units back into
    /// stock and marks the order cancelled. On failure `products` is left
    /// untouched.
    pub fn cancel_order(
        &self,
        customer_id: i32,
        order: Option<OrderRow>,
        lines: &Vec<OrderItemRow>,
        products: &mut Vec<StockRow>,
    ) -> (r: Result<OrderRow, AppError>)
        ensures
            r is Err <==> cancel_error(customer_id, order, lines@, old(products)@) is Some,
            r is Err ==> r->Err_0 == cancel_error(customer_id, order, lines@, old(products)@)->0,
            r is Err ==> final(products)@ == old(products)@,
            r is Ok ==> final(products)@ == restore_lines(old(products)@, lines@)->Ok_0,
            r is Ok ==> r->Ok_0 == with_status(order->0, OrderStatus::Cancelled),
            r is Ok && product_ids_unique(old(products)@) ==> forall|k: int|
                0 <= k < old(products)@.len() ==> #[trigger] final(products)@[k].stock_quantity
                    == old(products)@[k].stock_quantity + returned_qty(lines@, old(products)@[k].product_id),
    {
        let o = match order {
            None => return Err(AppError::NotFound(Resource::Order)),
            Some(o) => o,
        };
        if o.customer_id != customer_id {
            return Err(AppError::Unauthorized);
        }
        if o.status == OrderStatus::Cancelled {
            return Err(AppError::InvalidState);
        }
        let ghost rows0 = products@;
        let mut work = copy_rows(products);
        let mut j: usize = 0;
        while j < lines.len()
            invariant
                j <= lines@.len(),
                products@ == rows0,
                restore_lines(rows0, lines@.subrange(0, j as int)) == Ok::<Seq<StockRow>, AppError>(work@),
                order == Some(o),
                o.customer_id == customer_id,
                o.status != OrderStatus::Cancelled,
            decreases lines@.len() - j,
        {
            let l = lines[j];
            let ghost pre = lines@.subrange(0, j as int + 1);
            assert(pre.drop_last() =~= lines@.subrange(0, j as int));
            assert(pre.last() == l);
            let k = find_row_exec(&work, l.product_id);
            if k == work.len() {
                proof {
                    lemma_restore_lines_prefix(rows0, lines@, j + 1);
                }
                return Err(AppError::NotFound(Resource::Product));
            }
            let row = work[k];
            let sum: i64 = row.stock_quantity as i64 + l.quantity as i64;
            if sum > i32::MAX as i64 || sum < 0 {
                proof {
                    lemma_restore_lines_prefix(rows0, lines@, j + 1);
                }
                return Err(AppError::ValidationError(Invalid::AmountOutOfRange));
            }
            work.set(k, StockRow { stock_quantity: sum as i32, ..row });
            j = j + 1;
        }
        assert(lines@.subrange(0, lines@.len() as int) =~= lines@);
        proof {
            if product_ids_unique(rows0) {
                lemma_restore_sums(rows0, lines@);
            }
        }
        *products = work;
        Ok(OrderRow { status: OrderStatus::Cancelled, ..o })
    }

    /// Moves an order to the status named by `status`, where the move is
    /// allowed.
    pub fn update_order_status(&self, order: Option<OrderRow>, status: &str) -> (r: Result<OrderRow, AppError>)
        ensures
            r == status_update(order, status@),
    {
        let o = match order {
            None => return Err(AppError::NotFound(Resource::Order)),
            Some(o) => o,
        };
        let next = match OrderStatus::from_name(status) {
            None => return Err(AppError::ValidationError(Invalid::UnknownOrderStatus)),
            Some(n) => n,
        };
        if o.status.can_move_to(next) {
            Ok(OrderRow { status: next, ..o })
        } else {
            Err(AppError::InvalidState)
        }
    }
}

} // verus!
