//! Shopping carts: which change a cart request makes, and who may make it.

use vstd::prelude::*;
use crate::error::{AppError, Resource};

verus! {

pub struct ShoppingCarts {
    pub cart_id: i32,
    pub customer_id: i32,
    pub created_at: Option<i64>,
}

pub struct RegisterShoppingCart {
    pub customer_id: i32,
}

#[derive(Debug, Clone, Copy, PartialEq, Eq, Structural)]
pub struct CartItems {
    pub cart_item_id: i32,
    pub cart_id: i32,
    pub product_id: i32,
    pub quantity: i32,
}

#[derive(Debug, Clone, Copy, PartialEq, Eq, Structural)]
pub struct RegisterCartItem {
    pub cart_id: i32,
    pub product_id: i32,
    pub quantity: i32,
}

/// The change a cart request makes to one cart item.
#[derive(Debug, Clone, Copy, PartialEq, Eq, Structural)]
pub enum CartChange {
    Remove { cart_item_id: i32 },
    SetQuantity { cart_item_id: i32, quantity: i32 },
}

/// Where an added item goes: the customer's cart, or a new one.
#[derive(Debug, Clone, Copy, PartialEq, Eq, Structural)]
pub enum CartTarget {
    Existing { cart_id: i32 },
    Create { customer_id: i32 },
}

/// The resolver of cart operations.
#[derive(Debug, Clone, Copy, PartialEq, Eq, Structural)]
pub struct CartsMutation;

impl CartsMutation {
    /// Adds a product to the customer's cart, opening one if they have
    /// none. `cart_id` is the customer's cart when they have one.
    pub fn add_to_cart(&self, customer_id: i32, product_found: bool, cart_id: Option<i32>) -> (r: Result<CartTarget, AppError>)
        ensures
            !product_found ==> r == Err::<CartTarget, AppError>(AppError::NotFound(Resource::Product)),
            product_found ==> r == Ok::<CartTarget, AppError>(
                match cart_id {
                    Some(c) => CartTarget::Existing { cart_id: c },
                    None => CartTarget::Create { customer_id },
                },
            ),
    {
        if !product_found {
            return Err(AppError::NotFound(Resource::Product));
        }
        match cart_id {
            Some(c) => Ok(CartTarget::Existing { cart_id: c }),
            None => Ok(CartTarget::Create { customer_id }),
        }
    }

    /// Sets the quantity of a product in a cart of the caller; a quantity
    /// of zero takes the product out.
    pub fn update_cart_item_quantity(
        &self,
        customer_id: i32,
        product_found: bool,
        cart: Option<&ShoppingCarts>,
        item: Option<CartItems>,
        quantity: i32,
    ) -> (r: Result<CartChange, AppError>)
        ensures
            r == if !product_found {
                Err(AppError::NotFound(Resource::Product))
            } else if cart is None {
                Err(AppError::NotFound(Resource::Cart))
            } else if item is None {
                Err(AppError::NotFound(Resource::CartItem))
            } else if cart->0.customer_id != customer_id {
                Err(AppError::Unauthorized)
            } else if quantity == 0 {
                Ok::<CartChange, AppError>(CartChange::Remove { cart_item_id: item->0.cart_item_id })
            } else {
                Ok(CartChange::SetQuantity { cart_item_id: item->0.cart_item_id, quantity })
            },
    {
        if !product_found {
            return Err(AppError::NotFound(Resource::Product));
        }
        let c = match cart {
            None => return Err(AppError::NotFound(Resource::Cart)),
            Some(c) => c,
        };
        let it = match item {
            None => return Err(AppError::NotFound(Resource::CartItem)),
            Some(i) => i,
        };
        if c.customer_id != customer_id {
            return Err(AppError::Unauthorized);
        }
        if quantity == 0 {
            Ok(CartChange::Remove { cart_item_id: it.cart_item_id })
        } else {
            Ok(CartChange::SetQuantity { cart_item_id: it.cart_item_id, quantity })
        }
    }

    /// Takes a product out of the caller's cart.
    pub fn remove_from_cart(&self, product_found: bool, cart_id: Option<i32>, item: Option<CartItems>) -> (r: Result<CartChange, AppError>)
        ensures
            r == if !product_found {
                Err(AppError::NotFound(Resource::Product))
            } else if cart_id is None {
                Err(AppError::NotFound(Resource::Cart))
            } else if item is None {
                Err(AppError::NotFound(Resource::CartItem))
            } else {
                Ok::<CartChange, AppError>(CartChange::Remove { cart_item_id: item->0.cart_item_id })
            },
    {
        if !product_found {
            return Err(AppError::NotFound(Resource::Product));
        }
        if cart_id.is_none() {
            return Err(AppError::NotFound(Resource::Cart));
        }
        match item {
            None => Err(AppError::NotFound(Resource::CartItem)),
            Some(i) => Ok(CartChange::Remove { cart_item_id: i.cart_item_id }),
        }
    }
}

} // verus!
