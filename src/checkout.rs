//! Checkout: turning a user's cart into the lines of a new order, and the
//! rule that keeps at most one cart line or favorite per food.

use crate::money::Money;
use crate::types::{Cart, CartItem, IndexedCartItem, IndexedFavorite, ID};
use vstd::prelude::*;

verus! {

/// One line of a new order: a food and the quantity taken from the cart.
#[derive(Clone, Copy, Debug, PartialEq, Eq, Structural)]
pub struct OrderLine {
    pub food_id: ID,
    pub count: i32,
}

/// An order to be stored: its customer, its delivery address and its lines.
pub struct NewOrder {
    pub customer_id: ID,
    pub address_id: ID,
    pub lines: Vec<OrderLine>,
}

#[derive(Clone, Copy, Debug, PartialEq, Eq, Structural)]
pub enum CheckoutError {
    /// The cart has no lines.
    EmptyCart,
}

/// The (food, quantity) pairs of the cart lines, in order.
pub open spec fn cart_order_lines(items: Seq<CartItem>) -> Seq<OrderLine> {
    Seq::new(
        items.len(),
        |i: int|
            OrderLine {
                food_id: items[i].indexed_cart_item.food_id,
                count: items[i].indexed_cart_item.count,
            },
    )
}

/// What a checkout does: on an empty cart it fails and changes nothing; on
/// any other cart it gives one new order whose lines are the cart's lines and
/// leaves the cart empty.
pub open spec fn checkout_post(
    before: Cart,
    after: Cart,
    customer_id: ID,
    address_id: ID,
    r: Result<NewOrder, CheckoutError>,
) -> bool {
    if before.items@.len() == 0 {
        &&& r matches Err(CheckoutError::EmptyCart)
        &&& after.items@ == before.items@
        &&& after.total_price == before.total_price
    } else {
        &&& r matches Ok(o) && o.customer_id == customer_id && o.address_id == address_id
            && o.lines@ == cart_order_lines(before.items@)
        &&& after.items@.len() == 0
        &&& after.total_price.value() == 0
    }
}

/// Turns the cart into a new order for `customer_id`, delivered to
/// `address_id`, and empties the cart.
pub fn checkout(cart: &mut Cart, customer_id: ID, address_id: ID) -> (r: Result<
    NewOrder,
    CheckoutError,
>)
    ensures
        checkout_post(*old(cart), *final(cart), customer_id, address_id, r),
{
    if cart.items.len() == 0 {
        return Err(CheckoutError::EmptyCart);
    }
    let mut lines: Vec<OrderLine> = Vec::new();
    let mut i: usize = 0;
    while i < cart.items.len()
        invariant
            i <= cart.items@.len(),
            cart == old(cart),
            lines@ == cart_order_lines(cart.items@).take(i as int),
        decreases cart.items.len() - i,
    {
        let line = &cart.items[i].indexed_cart_item;
        lines.push(OrderLine { food_id: line.food_id, count: line.count });
        proof {
            assert(lines@ =~= cart_order_lines(cart.items@).take(i + 1));
        }
        i = i + 1;
    }
    proof {
        assert(lines@ =~= cart_order_lines(cart.items@));
    }
    cart.items.clear();
    cart.total_price = Money::zero();
    Ok(NewOrder { customer_id, address_id, lines })
}

/// Checkout on an empty cart fails with `EmptyCart` and makes no order.
pub proof fn lemma_checkout_empty(before: Cart, after: Cart, customer_id: ID, address_id: ID, r: Result<NewOrder, CheckoutError>)
    requires
        before.items@.len() == 0,
        checkout_post(before, after, customer_id, address_id, r),
    ensures
        r matches Err(CheckoutError::EmptyCart),
        after.items@ == before.items@,
{
}

/// Checkout on a cart of N lines makes one order of exactly N lines carrying
/// the cart's (food, quantity) pairs in order and leaves the cart empty; a
/// second checkout on that cart fails with `EmptyCart`.
pub proof fn lemma_checkout_once(
    first: Cart,
    emptied: Cart,
    last: Cart,
    customer_id: ID,
    address_id: ID,
    r1: Result<NewOrder, CheckoutError>,
    r2: Result<NewOrder, CheckoutError>,
)
    requires
        first.items@.len() > 0,
        checkout_post(first, emptied, customer_id, address_id, r1),
        checkout_post(emptied, last, customer_id, address_id, r2),
    ensures
        r1 matches Ok(o) && o.lines@.len() == first.items@.len() && forall|i: int|
            0 <= i < first.items@.len() ==> (#[trigger] o.lines@[i]).food_id
                == first.items@[i].indexed_cart_item.food_id && o.lines@[i].count
                == first.items@[i].indexed_cart_item.count,
        emptied.items@.len() == 0,
        r2 matches Err(CheckoutError::EmptyCart),
{
}

/// No two cart lines name the same food.
pub open spec fn unique_cart_foods(rows: Seq<IndexedCartItem>) -> bool {
    forall|i: int, j: int| 0 <= i < j < rows.len() ==> rows[i].food_id != rows[j].food_id
}

/// The cart rows after asking to add `item`: unchanged where its food is
/// already in the cart, else with `item` at the end.
pub open spec fn cart_after_add(rows: Seq<IndexedCartItem>, item: IndexedCartItem) -> Seq<
    IndexedCartItem,
> {
    if exists|i: int| 0 <= i < rows.len() && rows[i].food_id == item.food_id {
        rows
    } else {
        rows.push(item)
    }
}

/// Adds `item` to the cart rows unless its food is already there; says whether it did.
pub fn add_cart_line(rows: &mut Vec<IndexedCartItem>, item: IndexedCartItem) -> (r: bool)
    ensures
        r == !exists|i: int| 0 <= i < old(rows)@.len() && old(rows)@[i].food_id == item.food_id,
        final(rows)@ == cart_after_add(old(rows)@, item),
{
    let mut i: usize = 0;
    while i < rows.len()
        invariant
            i <= rows@.len(),
            rows == old(rows),
            forall|k: int| 0 <= k < i ==> rows@[k].food_id != item.food_id,
        decreases rows.len() - i,
    {
        if rows[i].food_id == item.food_id {
            return false;
        }
        i = i + 1;
    }
    rows.push(item);
    true
}

/// No two favorites name the same food.
pub open spec fn unique_favorite_foods(rows: Seq<IndexedFavorite>) -> bool {
    forall|i: int, j: int| 0 <= i < j < rows.len() ==> rows[i].food_id != rows[j].food_id
}

/// The favorites after asking to add `favorite`: unchanged where its food is
/// already a favorite, else with `favorite` at the end.
pub open spec fn favorites_after_add(rows: Seq<IndexedFavorite>, favorite: IndexedFavorite) -> Seq<
    IndexedFavorite,
> {
    if exists|i: int| 0 <= i < rows.len() && rows[i].food_id == favorite.food_id {
        rows
    } else {
        rows.push(favorite)
    }
}

/// Adds `favorite` unless its food is already a favorite; says whether it did.
pub fn add_favorite(rows: &mut Vec<IndexedFavorite>, favorite: IndexedFavorite) -> (r: bool)
    ensures
        r == !exists|i: int| 0 <= i < old(rows)@.len() && old(rows)@[i].food_id == favorite.food_id,
        final(rows)@ == favorites_after_add(old(rows)@, favorite),
{
    let mut i: usize = 0;
    while i < rows.len()
        invariant
            i <= rows@.len(),
            rows == old(rows),
            forall|k: int| 0 <= k < i ==> rows@[k].food_id != favorite.food_id,
        decreases rows.len() - i,
    {
        if rows[i].food_id == favorite.food_id {
            return false;
        }
        i = i + 1;
    }
    rows.push(favorite);
    true
}

/// Adding never makes a second cart line or favorite for the same food: the
/// rows stay unique, and a second addition of a food leaves them as they were.
pub proof fn lemma_no_duplicates(
    cart: Seq<IndexedCartItem>,
    item: IndexedCartItem,
    again: IndexedCartItem,
    favorites: Seq<IndexedFavorite>,
    favorite: IndexedFavorite,
    favorite_again: IndexedFavorite,
)
    requires
        unique_cart_foods(cart),
        unique_favorite_foods(favorites),
        again.food_id == item.food_id,
        favorite_again.food_id == favorite.food_id,
    ensures
        unique_cart_foods(cart_after_add(cart, item)),
        cart_after_add(cart_after_add(cart, item), again) == cart_after_add(cart, item),
        unique_favorite_foods(favorites_after_add(favorites, favorite)),
        favorites_after_add(favorites_after_add(favorites, favorite), favorite_again)
            == favorites_after_add(favorites, favorite),
{
    let c1 = cart_after_add(cart, item);
    assert(exists|i: int| 0 <= i < c1.len() && c1[i].food_id == again.food_id) by {
        if !exists|i: int| 0 <= i < cart.len() && cart[i].food_id == item.food_id {
            assert(c1[cart.len() as int] == item);
        }
    }
    let f1 = favorites_after_add(favorites, favorite);
    assert(exists|i: int| 0 <= i < f1.len() && f1[i].food_id == favorite_again.food_id) by {
        if !exists|i: int| 0 <= i < favorites.len() && favorites[i].food_id == favorite.food_id {
            assert(f1[favorites.len() as int] == favorite);
        }
    }
}

} // verus!
