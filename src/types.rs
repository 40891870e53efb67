//! The entities of the service, the comparators that order them and the
//! filter that selects orders by status.

use crate::money::Money;
use crate::sort::Comparator;
use crate::text::{compare_i64, compare_opt_text, compare_text, int_cmp, lemma_lex_antisym, lemma_lex_trans, lex_cmp, opt_lex_cmp, opt_view};
use core::cmp::Ordering;
use vstd::prelude::*;

verus! {

/// Identifier of a stored record.
pub type ID = i32;

/// A point in time: microseconds since 1970-01-01 00:00:00.
pub type Timestamp = i64;

/// A calendar day: days since 1970-01-01.
pub type Date = i32;

#[derive(Clone, Copy, Debug, PartialEq, Eq, Structural)]
pub enum SortOrder {
    Ascending,
    Descending,
}

#[derive(Clone, Copy, Debug, PartialEq, Eq, Structural)]
pub enum UserRole {
    Customer,
    Manager,
    Rider,
}

impl Default for UserRole {
    fn default() -> (r: Self)
        ensures
            r == UserRole::Customer,
    {
        UserRole::Customer
    }
}

/// Which stored preview image is meant.
#[derive(Clone, Copy, Debug, PartialEq, Eq, Structural)]
pub enum PreviewOf {
    Category,
    Food,
}

pub struct User {
    pub id: ID,
    pub username: String,
    /// Hex digest (SHA-256) of the password.
    pub password: String,
    pub first_name: Option<String>,
    pub last_name: Option<String>,
    pub birth_date: Date,
    pub role: UserRole,
}

pub struct Notification {
    pub id: ID,
    pub sent_time: Timestamp,
    pub title: String,
    pub description: Option<String>,
}

pub struct Address {
    pub id: ID,
    pub locality: String,
    pub street: String,
    pub house: i32,
    pub corps: Option<String>,
    pub apartment: Option<String>,
}

pub struct Category {
    pub id: ID,
    pub title: String,
    pub description: Option<String>,
}

/// A food row as stored: the category is referenced by identifier.
pub struct IndexedFood {
    pub id: ID,
    pub title: String,
    pub description: Option<String>,
    pub category_id: ID,
    pub count: i32,
    pub is_alcohol: bool,
    pub price: Money,
}

/// A food with its category resolved.
pub struct Food {
    pub category: Category,
    pub indexed_food: IndexedFood,
}

/// A cart row as stored: the food is referenced by identifier.
pub struct IndexedCartItem {
    pub id: ID,
    pub food_id: ID,
    pub count: i32,
    pub add_time: Timestamp,
}

pub struct CartItem {
    pub food: Food,
    pub indexed_cart_item: IndexedCartItem,
    pub total_price: Money,
}

pub struct Cart {
    pub items: Vec<CartItem>,
    pub total_price: Money,
}

pub struct IndexedFavorite {
    pub id: ID,
    pub food_id: ID,
    pub add_time: Timestamp,
}

pub struct Favorite {
    pub food: Food,
    pub indexed_favorite: IndexedFavorite,
}

/// An order row as stored: customer, address and rider by identifier.
pub struct IndexedOrder {
    pub id: ID,
    pub customer_id: ID,
    pub address_id: ID,
    pub create_time: Timestamp,
    pub rider_id: Option<ID>,
    pub completed_time: Option<Timestamp>,
}

pub struct Order {
    pub customer: User,
    pub address: Address,
    pub rider: Option<User>,
    pub items: Vec<OrderItem>,
    pub total_price: Money,
    pub feedback: Option<Feedback>,
    pub indexed_order: IndexedOrder,
}

pub struct IndexedOrderItem {
    pub id: ID,
    pub food_id: ID,
    pub count: i32,
}

pub struct OrderItem {
    pub food: Food,
    pub indexed_item: IndexedOrderItem,
    pub total_price: Money,
}

pub struct Feedback {
    pub id: ID,
    pub order_id: ID,
    /// From 0 to 5.
    pub rating: Option<i16>,
    pub comment: Option<String>,
}

/// A copy of an optional text.
pub fn copy_opt_text(s: &Option<String>) -> (r: Option<String>)
    ensures
        r == *s,
{
    match s {
        Some(t) => Some(t.clone()),
        None => None,
    }
}

impl Category {
    pub fn copy(&self) -> (r: Category)
        ensures
            r == *self,
    {
        Category { id: self.id, title: self.title.clone(), description: copy_opt_text(&self.description) }
    }
}

impl IndexedFood {
    pub fn copy(&self) -> (r: IndexedFood)
        ensures
            r == *self,
    {
        IndexedFood {
            id: self.id,
            title: self.title.clone(),
            description: copy_opt_text(&self.description),
            category_id: self.category_id,
            count: self.count,
            is_alcohol: self.is_alcohol,
            price: self.price.copy(),
        }
    }
}

impl Food {
    pub fn copy(&self) -> (r: Food)
        ensures
            r == *self,
    {
        Food { category: self.category.copy(), indexed_food: self.indexed_food.copy() }
    }
}

#[derive(Clone, Copy, Debug, PartialEq, Eq, Structural)]
pub enum SortUsersBy {
    Username,
    FirstName,
    LastName,
}

impl SortUsersBy {
    pub open spec fn cmp_spec(self, lhs: User, rhs: User) -> Ordering {
        match self {
            SortUsersBy::Username => lex_cmp(lhs.username@, rhs.username@),
            SortUsersBy::FirstName => opt_lex_cmp(opt_view(lhs.first_name), opt_view(rhs.first_name)),
            SortUsersBy::LastName => opt_lex_cmp(opt_view(lhs.last_name), opt_view(rhs.last_name)),
        }
    }

    /// Orders two users by the chosen text field; an absent name comes first.
    pub fn cmp(&self, lhs: &User, rhs: &User) -> (r: Ordering)
        ensures
            r == self.cmp_spec(*lhs, *rhs),
    {
        match self {
            SortUsersBy::Username => compare_text(lhs.username.as_str(), rhs.username.as_str()),
            SortUsersBy::FirstName => compare_opt_text(&lhs.first_name, &rhs.first_name),
            SortUsersBy::LastName => compare_opt_text(&lhs.last_name, &rhs.last_name),
        }
    }
}

#[derive(Clone, Copy, Debug, PartialEq, Eq, Structural)]
pub enum SortFoodBy {
    Title,
    Count,
    Price,
}

impl SortFoodBy {
    pub open spec fn cmp_spec(self, lhs: IndexedFood, rhs: IndexedFood) -> Ordering {
        match self {
            SortFoodBy::Title => lex_cmp(lhs.title@, rhs.title@),
            SortFoodBy::Count => int_cmp(lhs.count as int, rhs.count as int),
            SortFoodBy::Price => int_cmp(lhs.price.value(), rhs.price.value()),
        }
    }

    /// Orders two foods by title (text order), count, or price (as numbers).
    pub fn cmp(&self, lhs: &IndexedFood, rhs: &IndexedFood) -> (r: Ordering)
        ensures
            r == self.cmp_spec(*lhs, *rhs),
    {
        match self {
            SortFoodBy::Title => compare_text(lhs.title.as_str(), rhs.title.as_str()),
            SortFoodBy::Count => compare_i64(lhs.count as i64, rhs.count as i64),
            SortFoodBy::Price => lhs.price.compare(&rhs.price),
        }
    }
}

impl Comparator<IndexedFood> for SortFoodBy {
    open spec fn le(&self, a: IndexedFood, b: IndexedFood) -> bool {
        self.cmp_spec(a, b) != Ordering::Greater
    }

    proof fn lemma_total(&self, a: IndexedFood, b: IndexedFood) {
        lemma_lex_antisym(a.title@, b.title@);
    }

    proof fn lemma_trans(&self, a: IndexedFood, b: IndexedFood, c: IndexedFood) {
        if *self == SortFoodBy::Title {
            lemma_lex_trans(a.title@, b.title@, c.title@);
        }
    }

    fn less_or_equal(&self, a: &IndexedFood, b: &IndexedFood) -> (r: bool) {
        match self.cmp(a, b) {
            Ordering::Greater => false,
            _ => true,
        }
    }
}

#[derive(Clone, Copy, Debug, PartialEq, Eq, Structural)]
pub enum SortCartBy {
    Count,
    AddTime,
}

impl SortCartBy {
    pub open spec fn cmp_spec(self, lhs: IndexedCartItem, rhs: IndexedCartItem) -> Ordering {
        match self {
            SortCartBy::Count => int_cmp(lhs.count as int, rhs.count as int),
            SortCartBy::AddTime => int_cmp(lhs.add_time as int, rhs.add_time as int),
        }
    }

    /// Orders two cart lines by quantity or by the time they were added.
    pub fn cmp(&self, lhs: &IndexedCartItem, rhs: &IndexedCartItem) -> (r: Ordering)
        ensures
            r == self.cmp_spec(*lhs, *rhs),
    {
        match self {
            SortCartBy::Count => compare_i64(lhs.count as i64, rhs.count as i64),
            SortCartBy::AddTime => compare_i64(lhs.add_time, rhs.add_time),
        }
    }
}

impl Comparator<IndexedCartItem> for SortCartBy {
    open spec fn le(&self, a: IndexedCartItem, b: IndexedCartItem) -> bool {
        self.cmp_spec(a, b) != Ordering::Greater
    }

    proof fn lemma_total(&self, a: IndexedCartItem, b: IndexedCartItem) {
    }

    proof fn lemma_trans(&self, a: IndexedCartItem, b: IndexedCartItem, c: IndexedCartItem) {
    }

    fn less_or_equal(&self, a: &IndexedCartItem, b: &IndexedCartItem) -> (r: bool) {
        match self.cmp(a, b) {
            Ordering::Greater => false,
            _ => true,
        }
    }
}

#[derive(Clone, Copy, Debug, PartialEq, Eq, Structural)]
pub enum OrdersFilter {
    All,
    InProgress,
    Completed,
}

impl OrdersFilter {
    pub open spec fn fits_spec(self, order: IndexedOrder) -> bool {
        match self {
            OrdersFilter::All => true,
            OrdersFilter::InProgress => order.rider_id.is_some() && order.completed_time.is_none(),
            OrdersFilter::Completed => order.completed_time.is_some(),
        }
    }

    /// `All` takes every order, `InProgress` those with a rider and no
    /// completion time, `Completed` those with a completion time.
    pub fn fits(&self, order: &IndexedOrder) -> (r: bool)
        ensures
            r == self.fits_spec(*order),
    {
        match self {
            OrdersFilter::All => true,
            OrdersFilter::InProgress => order.rider_id.is_some() && order.completed_time.is_none(),
            OrdersFilter::Completed => order.completed_time.is_some(),
        }
    }
}

} // verus!
