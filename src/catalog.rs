//! Products, categories, discounts and reviews: the choices behind
//! product listings and the ownership rules of their mutations.

use vstd::prelude::*;
use crate::error::{AppError, Invalid, Resource};
use crate::money::{money_value, Money};

verus! {

/// A product as clients see it; `base_price` is the two-decimal text.
pub struct Products {
    pub product_id: i32,
    pub name: String,
    pub description: Option<String>,
    pub base_price: String,
    pub category_id: Option<i32>,
    pub supplier_id: Option<i32>,
    pub stock_quantity: i32,
    pub media_paths: Option<Vec<String>>,
    pub base_product_id: Option<i32>,
}

pub struct RegisterProduct {
    pub name: String,
    pub description: Option<String>,
    pub base_price: String,
    pub category_id: Option<i32>,
    pub supplier_id: Option<i32>,
    pub stock_quantity: i32,
    pub media_paths: Option<Vec<String>>,
    pub base_product_id: Option<i32>,
}

/// A product about to be stored, owned by the supplier that registers it.
pub struct NewProduct {
    pub name: String,
    pub description: Option<String>,
    pub base_price: Money,
    pub category_id: Option<i32>,
    pub supplier_id: i32,
    pub stock_quantity: i32,
    pub base_product_id: Option<i32>,
}

pub struct Categories {
    pub category_id: i32,
    pub name: String,
    pub parent_category_id: Option<i32>,
}

pub struct RegisterCategory {
    pub name: String,
    pub parent_category_id: Option<i32>,
}

#[derive(Debug, Clone, Copy, PartialEq, Eq, Structural)]
pub struct Pagination {
    pub page: u64,
    pub page_size: u64,
}

#[derive(Debug, Clone, Copy, PartialEq, Eq, Structural)]
pub enum OrderByColumn {
    Date,
    Amount,
}

#[derive(Debug, Clone, Copy, PartialEq, Eq, Structural)]
pub enum OrderByOrder {
    Asc,
    Desc,
}

#[derive(Debug, Clone, Copy, PartialEq, Eq, Structural)]
pub struct OrderBy {
    pub column: OrderByColumn,
    pub order: OrderByOrder,
}

#[derive(Debug, Clone, Copy, PartialEq, Eq, Structural)]
pub struct OrderAndPagination {
    pub order_by: OrderBy,
    pub pagination: Pagination,
}

#[derive(Debug, Clone, Copy, PartialEq, Eq, Structural)]
pub struct PageInfo {
    pub total_pages: u64,
    pub total_items: u64,
}

pub struct ProductsPaginate {
    pub products: Vec<Products>,
    pub page_info: PageInfo,
}

/// The product column a listing is sorted by.
#[derive(Debug, Clone, Copy, PartialEq, Eq, Structural)]
pub enum SortColumn {
    CreatedAt,
    BasePrice,
}

/// How a product listing is sorted.
#[derive(Debug, Clone, Copy, PartialEq, Eq, Structural)]
pub struct SortSpec {
    pub column: SortColumn,
    pub ascending: bool,
}

/// The one condition that selects the products of a listing.
#[derive(Debug, Clone, Copy, PartialEq, Eq, Structural)]
pub enum ProductFilter {
    Category(i32),
    Supplier(i32),
    BaseProduct(i32),
    Product(i32),
}

/// The resolver of product listings.
#[derive(Debug, Clone, Copy, PartialEq, Eq, Structural)]
pub struct ProductsQuery;

/// The resolver of product, discount and review mutations.
#[derive(Debug, Clone, Copy, PartialEq, Eq, Structural)]
pub struct ProductsMutation;

impl Pagination {
    /// The zero-based index of the requested page; pages count from one.
    pub fn page_index(&self) -> (r: Result<u64, AppError>)
        ensures
            self.page >= 1 ==> r == Ok::<u64, AppError>((self.page - 1) as u64),
            self.page == 0 ==> r == Err::<u64, AppError>(AppError::ValidationError(Invalid::PageOutOfRange)),
    {
        if self.page == 0 {
            Err(AppError::ValidationError(Invalid::PageOutOfRange))
        } else {
            Ok(self.page - 1)
        }
    }
}

/// Sorts a listing by creation date or by price, either way.
pub fn paginate_products(paginator: &OrderAndPagination) -> (r: SortSpec)
    ensures
        r.column == match paginator.order_by.column {
            OrderByColumn::Date => SortColumn::CreatedAt,
            OrderByColumn::Amount => SortColumn::BasePrice,
        },
        r.ascending == (paginator.order_by.order == OrderByOrder::Asc),
{
    let column = match paginator.order_by.column {
        OrderByColumn::Date => SortColumn::CreatedAt,
        OrderByColumn::Amount => SortColumn::BasePrice,
    };
    let ascending = match paginator.order_by.order {
        OrderByOrder::Asc => true,
        OrderByOrder::Desc => false,
    };
    SortSpec { column, ascending }
}

/// The product record that a supplier registers: the price must be an
/// amount with at most two decimals.
pub fn create_product_model(input: &RegisterProduct, supplier_id: i32) -> (r: Result<NewProduct, AppError>)
    ensures
        r is Ok <==> (money_value(vstd::utf8::encode_utf8(input.base_price@)) is Some
            && money_value(vstd::utf8::encode_utf8(input.base_price@))->0 <= i64::MAX),
        r is Err ==> r->Err_0 == AppError::ValidationError(Invalid::MalformedPrice),
        r is Ok ==> ({
            let p = r->Ok_0;
            &&& p.base_price.cents == money_value(vstd::utf8::encode_utf8(input.base_price@))->0
            &&& p.supplier_id == supplier_id
            &&& p.name == input.name
            &&& p.description == input.description
            &&& p.category_id == input.category_id
            &&& p.stock_quantity == input.stock_quantity
            &&& p.base_product_id == input.base_product_id
        }),
{
    let price = match Money::parse(input.base_price.as_str()) {
        None => return Err(AppError::ValidationError(Invalid::MalformedPrice)),
        Some(m) => m,
    };
    let description = match &input.description {
        None => None,
        Some(d) => Some(d.clone()),
    };
    Ok(NewProduct {
        name: input.name.clone(),
        description,
        base_price: price,
        category_id: input.category_id,
        supplier_id,
        stock_quantity: input.stock_quantity,
        base_product_id: input.base_product_id,
    })
}

/// Whether the supplier may act on a product: it must exist and be theirs.
/// `owner` is the product's supplier when the product was found.
pub fn check_if_supplier_owns_product(supplier_id: i32, owner: Option<Option<i32>>) -> (r: Result<(), AppError>)
    ensures
        r == match owner {
            None => Err(AppError::NotFound(Resource::Product)),
            Some(s) => if s == Some(supplier_id) {
                Ok::<(), AppError>(())
            } else {
                Err(AppError::Unauthorized)
            },
        },
{
    match owner {
        None => Err(AppError::NotFound(Resource::Product)),
        Some(s) => if s == Some(supplier_id) {
            Ok(())
        } else {
            Err(AppError::Unauthorized)
        },
    }
}

/// Whether a product exists.
pub fn check_product_exists(found: bool) -> (r: Result<(), AppError>)
    ensures
        r == if found {
            Ok::<(), AppError>(())
        } else {
            Err(AppError::NotFound(Resource::Product))
        },
{
    if found {
        Ok(())
    } else {
        Err(AppError::NotFound(Resource::Product))
    }
}

/// The listing condition: exactly one of the four ids must be given.
pub open spec fn filter_of(
    category_id: Option<i32>,
    supplier_id: Option<i32>,
    base_product_id: Option<i32>,
    product_id: Option<i32>,
) -> Result<ProductFilter, AppError> {
    match (category_id, supplier_id, base_product_id, product_id) {
        (Some(c), None, None, None) => Ok(ProductFilter::Category(c)),
        (None, Some(s), None, None) => Ok(ProductFilter::Supplier(s)),
        (None, None, Some(b), None) => Ok(ProductFilter::BaseProduct(b)),
        (None, None, None, Some(p)) => Ok(ProductFilter::Product(p)),
        _ => Err(AppError::ValidationError(Invalid::AmbiguousProductFilter)),
    }
}

impl ProductsQuery {
    /// Chooses the condition of a listing by id, and checks its page.
    pub fn products_with_id(
        &self,
        category_id: Option<i32>,
        supplier_id: Option<i32>,
        base_product_id: Option<i32>,
        product_id: Option<i32>,
        paginator: &OrderAndPagination,
    ) -> (r: Result<(ProductFilter, SortSpec, u64), AppError>)
        ensures
            paginator.pagination.page == 0 ==> r == Err::<(ProductFilter, SortSpec, u64), AppError>(
                AppError::ValidationError(Invalid::PageOutOfRange),
            ),
            paginator.pagination.page >= 1 ==> match filter_of(category_id, supplier_id, base_product_id, product_id) {
                Err(e) => r == Err::<(ProductFilter, SortSpec, u64), AppError>(e),
                Ok(f) => r is Ok && r->Ok_0.0 == f && r->Ok_0.2 == paginator.pagination.page - 1,
            },
            r is Ok ==> r->Ok_0.1 == paginate_products_spec(*paginator),
    {
        let page = paginator.pagination.page_index()?;
        let filter = match (category_id, supplier_id, base_product_id, product_id) {
            (Some(c), None, None, None) => ProductFilter::Category(c),
            (None, Some(s), None, None) => ProductFilter::Supplier(s),
            (None, None, Some(b), None) => ProductFilter::BaseProduct(b),
            (None, None, None, Some(p)) => ProductFilter::Product(p),
            _ => return Err(AppError::ValidationError(Invalid::AmbiguousProductFilter)),
        };
        Ok((filter, paginate_products(paginator), page))
    }
}

pub open spec fn paginate_products_spec(p: OrderAndPagination) -> SortSpec {
    SortSpec {
        column: match p.order_by.column {
            OrderByColumn::Date => SortColumn::CreatedAt,
            OrderByColumn::Amount => SortColumn::BasePrice,
        },
        ascending: p.order_by.order == OrderByOrder::Asc,
    }
}

impl ProductsMutation {
    /// A customer may review only after having ordered.
    pub fn register_review(&self, has_ordered: bool) -> (r: Result<(), AppError>)
        ensures
            r == if has_ordered {
                Ok::<(), AppError>(())
            } else {
                Err(AppError::ValidationError(Invalid::ProductNotOrdered))
            },
    {
        if has_ordered {
            Ok(())
        } else {
            Err(AppError::ValidationError(Invalid::ProductNotOrdered))
        }
    }

    /// A customer may delete only a review of their own. `author` is the
    /// review's customer when the review was found.
    pub fn delete_review(&self, customer_id: i32, author: Option<i32>) -> (r: Result<(), AppError>)
        ensures
            r == match author {
                None => Err(AppError::NotFound(Resource::Review)),
                Some(a) => if a == customer_id {
                    Ok::<(), AppError>(())
                } else {
                    Err(AppError::Unauthorized)
                },
            },
    {
        match author {
            None => Err(AppError::NotFound(Resource::Review)),
            Some(a) => if a == customer_id {
                Ok(())
            } else {
                Err(AppError::Unauthorized)
            },
        }
    }
}

} // verus!
