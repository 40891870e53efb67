//! Stitching of separately fetched rows into nested domain objects. Every
//! reference between the pieces must resolve: one that does not means the
//! store changed between the reads, and the whole assembly fails with
//! `AssemblyError::Inconsistent`.

use crate::money::{decimal_product, decimal_sum, Money};
use crate::sort::{apply_direction, directed, sort_spec, sort_stable};
use crate::types::{
    Cart, CartItem, Category, Favorite, Food, IndexedCartItem, IndexedFavorite, IndexedFood,
    IndexedOrderItem, OrderItem, SortCartBy, SortOrder, ID,
};
use vstd::prelude::*;

verus! {

#[derive(Clone, Copy, Debug, PartialEq, Eq, Structural)]
pub enum AssemblyError {
    /// A reference between separately read rows did not resolve: the store
    /// was changed while the rows were read.
    Inconsistent,
    /// A price or a total does not fit in a decimal.
    Overflow,
}

/// `cats[j]` is the first category with identifier `id`.
pub open spec fn category_at(cats: Seq<Category>, id: ID, j: int) -> bool {
    0 <= j < cats.len() && cats[j].id == id && forall|k: int| 0 <= k < j ==> cats[k].id != id
}

pub open spec fn has_category(cats: Seq<Category>, id: ID) -> bool {
    exists|j: int| 0 <= j < cats.len() && cats[j].id == id
}

/// The category that identifier `id` resolves to.
pub open spec fn category_for(cats: Seq<Category>, id: ID) -> Category {
    cats[choose|j: int| category_at(cats, id, j)]
}

/// `food[j]` is the first food with identifier `id`.
pub open spec fn food_at(food: Seq<Food>, id: ID, j: int) -> bool {
    0 <= j < food.len() && food[j].indexed_food.id == id && forall|k: int|
        0 <= k < j ==> food[k].indexed_food.id != id
}

pub open spec fn has_food(food: Seq<Food>, id: ID) -> bool {
    exists|j: int| 0 <= j < food.len() && food[j].indexed_food.id == id
}

/// The food that identifier `id` resolves to.
pub open spec fn food_for(food: Seq<Food>, id: ID) -> Food {
    food[choose|j: int| food_at(food, id, j)]
}

/// No identifier occurs twice.
pub open spec fn distinct_ids(ids: Seq<ID>) -> bool {
    forall|i: int, j: int| 0 <= i < j < ids.len() ==> ids[i] != ids[j]
}

/// Every identifier names a food, and none is named twice.
pub open spec fn refs_resolve(food: Seq<Food>, ids: Seq<ID>) -> bool {
    &&& forall|i: int| 0 <= i < ids.len() ==> has_food(food, #[trigger] ids[i])
    &&& distinct_ids(ids)
}

pub open spec fn favorite_ids(rows: Seq<IndexedFavorite>) -> Seq<ID> {
    Seq::new(rows.len(), |i: int| rows[i].food_id)
}

/// The first category with identifier `id`, if any.
pub fn find_category(cats: &Vec<Category>, id: ID) -> (r: Option<usize>)
    ensures
        r matches Some(j) ==> category_at(cats@, id, j as int) && cats@[j as int] == category_for(
            cats@,
            id,
        ),
        r is None ==> !has_category(cats@, id),
{
    let mut j: usize = 0;
    while j < cats.len()
        invariant
            j <= cats.len(),
            forall|k: int| 0 <= k < j ==> cats@[k].id != id,
        decreases cats.len() - j,
    {
        if cats[j].id == id {
            proof {
                assert(category_at(cats@, id, j as int));
                let c = choose|i: int| category_at(cats@, id, i);
                assert(c == j as int);
            }
            return Some(j);
        }
        j = j + 1;
    }
    None
}

/// The first food with identifier `id`, if any.
pub fn find_food(food: &Vec<Food>, id: ID) -> (r: Option<usize>)
    ensures
        r matches Some(j) ==> food_at(food@, id, j as int) && food@[j as int] == food_for(food@, id),
        r is None ==> !has_food(food@, id),
{
    let mut j: usize = 0;
    while j < food.len()
        invariant
            j <= food.len(),
            forall|k: int| 0 <= k < j ==> food@[k].indexed_food.id != id,
        decreases food.len() - j,
    {
        if food[j].indexed_food.id == id {
            proof {
                assert(food_at(food@, id, j as int));
                let c = choose|i: int| food_at(food@, id, i);
                assert(c == j as int);
            }
            return Some(j);
        }
        j = j + 1;
    }
    None
}

/// Puts each food row together with its category, in the order of the rows.
pub fn assemble_food(categories: &Vec<Category>, rows: Vec<IndexedFood>) -> (r: Result<
    Vec<Food>,
    AssemblyError,
>)
    ensures
        r.is_ok() == (forall|i: int|
            0 <= i < rows@.len() ==> has_category(categories@, #[trigger] rows@[i].category_id)),
        r matches Err(e) ==> e == AssemblyError::Inconsistent,
        r matches Ok(v) ==> v@.len() == rows@.len() && forall|i: int|
            0 <= i < rows@.len() ==> (#[trigger] v@[i]).indexed_food == rows@[i] && v@[i].category
                == category_for(categories@, rows@[i].category_id),
{
    let mut out: Vec<Food> = Vec::new();
    let mut i: usize = 0;
    while i < rows.len()
        invariant
            i <= rows@.len(),
            out@.len() == i,
            forall|k: int| 0 <= k < i ==> has_category(categories@, #[trigger] rows@[k].category_id),
            forall|k: int|
                0 <= k < i ==> (#[trigger] out@[k]).indexed_food == rows@[k] && out@[k].category
                    == category_for(categories@, rows@[k].category_id),
        decreases rows.len() - i,
    {
        match find_category(categories, rows[i].category_id) {
            Some(j) => {
                let category = categories[j].copy();
                out.push(Food { category, indexed_food: rows[i].copy() });
                proof {
                    assert(has_category(categories@, rows@[i as int].category_id));
                }
            },
            None => {
                return Err(AssemblyError::Inconsistent);
            },
        }
        i = i + 1;
    }
    Ok(out)
}

/// Whether `id` occurs among the first `n` identifiers.
fn occurs_before(ids: &Vec<ID>, n: usize, id: ID) -> (r: bool)
    requires
        n <= ids@.len(),
    ensures
        r == exists|k: int| 0 <= k < n && ids@[k] == id,
{
    let mut k: usize = 0;
    while k < n
        invariant
            k <= n,
            n <= ids@.len(),
            forall|j: int| 0 <= j < k ==> ids@[j] != id,
        decreases n - k,
    {
        if ids[k] == id {
            return true;
        }
        k = k + 1;
    }
    false
}

/// Looks up, for each identifier in turn, the food it names. A missing food,
/// or a food named twice, is a consistency fault.
pub fn resolve_food(food: &Vec<Food>, ids: &Vec<ID>) -> (r: Result<Vec<Food>, AssemblyError>)
    ensures
        r.is_ok() == refs_resolve(food@, ids@),
        r matches Err(e) ==> e == AssemblyError::Inconsistent,
        r matches Ok(v) ==> v@.len() == ids@.len() && forall|i: int|
            0 <= i < ids@.len() ==> #[trigger] v@[i] == food_for(food@, ids@[i]),
{
    let mut out: Vec<Food> = Vec::new();
    let mut i: usize = 0;
    while i < ids.len()
        invariant
            i <= ids@.len(),
            out@.len() == i,
            refs_resolve(food@, ids@.take(i as int)),
            forall|k: int| 0 <= k < i ==> #[trigger] out@[k] == food_for(food@, ids@[k]),
        decreases ids.len() - i,
    {
        let id = ids[i];
        if occurs_before(ids, i, id) {
            proof {
                let k = choose|k: int| 0 <= k < i && ids@[k] == id;
                assert(ids@[k] == ids@[i as int]);
            }
            return Err(AssemblyError::Inconsistent);
        }
        match find_food(food, id) {
            Some(j) => {
                out.push(food[j].copy());
                proof {
                    let t = ids@.take(i + 1);
                    assert(t.drop_last() =~= ids@.take(i as int));
                    assert forall|a: int| 0 <= a < t.len() implies has_food(food@, #[trigger] t[a]) by {
                        if a < i {
                            assert(t[a] == ids@.take(i as int)[a]);
                        } else {
                            assert(food@[j as int].indexed_food.id == id);
                        }
                    }
                    assert forall|a: int, b: int| 0 <= a < b < t.len() implies t[a] != t[b] by {
                        if b < i {
                            assert(t[a] == ids@.take(i as int)[a]);
                            assert(t[b] == ids@.take(i as int)[b]);
                        }
                    }
                }
            },
            None => {
                proof {
                    assert(!has_food(food@, ids@[i as int]));
                }
                return Err(AssemblyError::Inconsistent);
            },
        }
        i = i + 1;
    }
    proof {
        assert(ids@.take(i as int) =~= ids@);
    }
    Ok(out)
}

/// Puts each favorite row together with the food it names, in the order of the rows.
pub fn assemble_favorites(food: &Vec<Food>, rows: Vec<IndexedFavorite>) -> (r: Result<
    Vec<Favorite>,
    AssemblyError,
>)
    ensures
        r.is_ok() == refs_resolve(food@, favorite_ids(rows@)),
        r matches Err(e) ==> e == AssemblyError::Inconsistent,
        r matches Ok(v) ==> v@.len() == rows@.len() && forall|i: int|
            0 <= i < rows@.len() ==> (#[trigger] v@[i]).indexed_favorite == rows@[i] && v@[i].food
                == food_for(food@, rows@[i].food_id),
{
    let mut ids: Vec<ID> = Vec::new();
    let mut i: usize = 0;
    while i < rows.len()
        invariant
            i <= rows@.len(),
            ids@ == favorite_ids(rows@).take(i as int),
        decreases rows.len() - i,
    {
        ids.push(rows[i].food_id);
        proof {
            assert(ids@ =~= favorite_ids(rows@).take(i + 1));
        }
        i = i + 1;
    }
    proof {
        assert(ids@ =~= favorite_ids(rows@));
    }
    let resolved = resolve_food(food, &ids)?;
    let ghost orig = rows@;
    let ghost found = resolved@;
    let mut rest = rows;
    let mut foods = resolved;
    let mut out: Vec<Favorite> = Vec::new();
    proof {
        assert(orig.skip(0) =~= orig);
        assert(found.skip(0) =~= found);
    }
    while rest.len() > 0
        invariant
            out@.len() <= orig.len(),
            found.len() == orig.len(),
            rest@ == orig.skip(out@.len() as int),
            foods@ == found.skip(out@.len() as int),
            forall|k: int| 0 <= k < orig.len() ==> #[trigger] found[k] == food_for(food@, orig[k].food_id),
            forall|k: int|
                0 <= k < out@.len() ==> (#[trigger] out@[k]).indexed_favorite == orig[k] && out@[k].food
                    == found[k],
        decreases rest.len(),
    {
        let ghost k = out@.len() as int;
        let row = rest.remove(0);
        let f = foods.remove(0);
        out.push(Favorite { food: f, indexed_favorite: row });
        proof {
            assert(rest@ =~= orig.skip(k + 1));
            assert(foods@ =~= found.skip(k + 1));
        }
    }
    Ok(out)
}

/// The amounts `prices` added up from the left, starting at zero; `None`
/// where an amount is missing or a sum overflows.
pub open spec fn checked_total(prices: Seq<Option<(int, int)>>) -> Option<(int, int)>
    decreases prices.len(),
{
    if prices.len() == 0 {
        Some((0, 0))
    } else {
        match (checked_total(prices.drop_last()), prices.last()) {
            (Some(a), Some(b)) => decimal_sum(a, b),
            _ => None,
        }
    }
}

/// Each food's unit price times the matching count.
pub open spec fn product_prices(foods: Seq<Food>, counts: Seq<i32>) -> Seq<Option<(int, int)>> {
    Seq::new(foods.len(), |i: int| decimal_product(foods[i].indexed_food.price.parts(), counts[i] as int))
}

/// The amounts of `v`, each present.
pub open spec fn present(v: Seq<Money>) -> Seq<Option<(int, int)>> {
    Seq::new(v.len(), |i: int| Some(v[i].parts()))
}

/// The total price of `count` units of the food that `id` resolves to.
pub open spec fn line_price(food: Seq<Food>, id: ID, count: i32) -> Option<(int, int)> {
    decimal_product(food_for(food, id).indexed_food.price.parts(), count as int)
}

/// The cart rows in the order they are shown: sorted stably, then directed.
pub open spec fn cart_lines(rows: Seq<IndexedCartItem>, by: SortCartBy, order: SortOrder) -> Seq<
    IndexedCartItem,
> {
    directed(sort_spec(by, rows), order)
}

pub open spec fn cart_ids(lines: Seq<IndexedCartItem>) -> Seq<ID> {
    Seq::new(lines.len(), |i: int| lines[i].food_id)
}

pub open spec fn cart_prices(food: Seq<Food>, lines: Seq<IndexedCartItem>) -> Seq<Option<(int, int)>> {
    Seq::new(lines.len(), |i: int| line_price(food, lines[i].food_id, lines[i].count))
}

pub open spec fn order_item_ids(rows: Seq<IndexedOrderItem>) -> Seq<ID> {
    Seq::new(rows.len(), |i: int| rows[i].food_id)
}

pub open spec fn order_item_prices(food: Seq<Food>, rows: Seq<IndexedOrderItem>) -> Seq<
    Option<(int, int)>,
> {
    Seq::new(rows.len(), |i: int| line_price(food, rows[i].food_id, rows[i].count))
}

proof fn lemma_total_prefix_none(s: Seq<Option<(int, int)>>, i: int)
    requires
        0 <= i <= s.len(),
        checked_total(s.take(i)) is None,
    ensures
        checked_total(s) is None,
    decreases s.len(),
{
    if i < s.len() {
        assert(s.drop_last().take(i) =~= s.take(i));
        lemma_total_prefix_none(s.drop_last(), i);
    } else {
        assert(s.take(i) =~= s);
    }
}

proof fn lemma_total_missing(s: Seq<Option<(int, int)>>, i: int)
    requires
        0 <= i < s.len(),
        s[i] is None,
    ensures
        checked_total(s) is None,
{
    assert(s.take(i + 1).drop_last() =~= s.take(i));
    lemma_total_prefix_none(s, i + 1);
}

/// Each food's unit price times the matching count; `None` where one overflows.
fn line_prices(foods: &Vec<Food>, counts: &Vec<i32>) -> (r: Option<Vec<Money>>)
    requires
        foods@.len() == counts@.len(),
    ensures
        r is None ==> exists|i: int|
            0 <= i < foods@.len() && (#[trigger] product_prices(foods@, counts@)[i]) is None,
        r matches Some(v) ==> present(v@) == product_prices(foods@, counts@),
{
    let mut out: Vec<Money> = Vec::new();
    let mut i: usize = 0;
    while i < foods.len()
        invariant
            i <= foods@.len(),
            foods@.len() == counts@.len(),
            out@.len() == i,
            forall|k: int|
                0 <= k < i ==> Some((#[trigger] out@[k]).parts()) == product_prices(foods@, counts@)[k],
        decreases foods.len() - i,
    {
        match foods[i].indexed_food.price.times(counts[i]) {
            Some(p) => out.push(p),
            None => {
                proof {
                    assert(product_prices(foods@, counts@)[i as int] is None);
                }
                return None;
            },
        }
        i = i + 1;
    }
    proof {
        assert(present(out@) =~= product_prices(foods@, counts@));
    }
    Some(out)
}

/// The sum of the amounts, added from the left; `None` where a sum overflows.
pub fn sum_prices(v: &Vec<Money>) -> (r: Option<Money>)
    ensures
        r matches Some(t) ==> checked_total(present(v@)) == Some(t.parts()),
        r is None ==> checked_total(present(v@)) is None,
{
    let mut acc = Money::zero();
    let mut i: usize = 0;
    proof {
        assert(present(v@).take(0) =~= Seq::<Option<(int, int)>>::empty());
    }
    while i < v.len()
        invariant
            i <= v@.len(),
            checked_total(present(v@).take(i as int)) == Some(acc.parts()),
        decreases v.len() - i,
    {
        proof {
            assert(present(v@).take(i + 1).drop_last() =~= present(v@).take(i as int));
        }
        match acc.plus(&v[i]) {
            Some(t) => acc = t,
            None => {
                proof {
                    lemma_total_prefix_none(present(v@), i + 1);
                }
                return None;
            },
        }
        i = i + 1;
    }
    proof {
        assert(present(v@).take(i as int) =~= present(v@));
    }
    Some(acc)
}

/// Puts the cart together: the rows sorted stably by `sort_by` and directed by
/// `sort_order`, each with the food it names and its total price (unit price
/// times quantity), and the cart total (the sum of the line totals).
pub fn assemble_cart(
    food: &Vec<Food>,
    rows: Vec<IndexedCartItem>,
    sort_by: SortCartBy,
    sort_order: SortOrder,
) -> (r: Result<Cart, AssemblyError>)
    ensures
        (r matches Err(AssemblyError::Inconsistent)) == !refs_resolve(
            food@,
            cart_ids(cart_lines(rows@, sort_by, sort_order)),
        ),
        (r matches Err(AssemblyError::Overflow)) == (refs_resolve(
            food@,
            cart_ids(cart_lines(rows@, sort_by, sort_order)),
        ) && checked_total(cart_prices(food@, cart_lines(rows@, sort_by, sort_order))) is None),
        r matches Ok(c) ==> {
            let lines = cart_lines(rows@, sort_by, sort_order);
            &&& c.items@.len() == lines.len()
            &&& forall|i: int|
                0 <= i < lines.len() ==> (#[trigger] c.items@[i]).indexed_cart_item == lines[i]
                    && c.items@[i].food == food_for(food@, lines[i].food_id) && Some(
                    c.items@[i].total_price.parts(),
                ) == cart_prices(food@, lines)[i]
            &&& checked_total(cart_prices(food@, lines)) == Some(c.total_price.parts())
        },
{
    let sorted = apply_direction(sort_stable(&sort_by, rows), sort_order);
    let ghost lines = sorted@;
    let mut ids: Vec<ID> = Vec::new();
    let mut counts: Vec<i32> = Vec::new();
    let mut i: usize = 0;
    while i < sorted.len()
        invariant
            i <= sorted@.len(),
            lines == sorted@,
            ids@ == cart_ids(lines).take(i as int),
            counts@.len() == i,
            forall|k: int| 0 <= k < i ==> #[trigger] counts@[k] == lines[k].count,
        decreases sorted.len() - i,
    {
        ids.push(sorted[i].food_id);
        counts.push(sorted[i].count);
        proof {
            assert(ids@ =~= cart_ids(lines).take(i + 1));
        }
        i = i + 1;
    }
    proof {
        assert(ids@ =~= cart_ids(lines));
    }
    let foods = resolve_food(food, &ids)?;
    proof {
        assert(product_prices(foods@, counts@) =~= cart_prices(food@, lines));
    }
    let prices = match line_prices(&foods, &counts) {
        Some(p) => p,
        None => {
            proof {
                let i = choose|i: int|
                    0 <= i < foods@.len() && (#[trigger] product_prices(foods@, counts@)[i]) is None;
                lemma_total_missing(product_prices(foods@, counts@), i);
            }
            return Err(AssemblyError::Overflow);
        },
    };
    let total = match sum_prices(&prices) {
        Some(t) => t,
        None => return Err(AssemblyError::Overflow),
    };
    let ghost found = foods@;
    let ghost amounts = prices@;
    let mut rest = sorted;
    let mut foods = foods;
    let mut prices = prices;
    let mut items: Vec<CartItem> = Vec::new();
    proof {
        assert(lines.skip(0) =~= lines);
        assert(found.skip(0) =~= found);
        assert(amounts.skip(0) =~= amounts);
    }
    while rest.len() > 0
        invariant
            items@.len() <= lines.len(),
            found.len() == lines.len(),
            amounts.len() == lines.len(),
            rest@ == lines.skip(items@.len() as int),
            foods@ == found.skip(items@.len() as int),
            prices@ == amounts.skip(items@.len() as int),
            forall|k: int|
                0 <= k < items@.len() ==> (#[trigger] items@[k]).indexed_cart_item == lines[k]
                    && items@[k].food == found[k] && items@[k].total_price == amounts[k],
        decreases rest.len(),
    {
        let ghost k = items@.len() as int;
        let row = rest.remove(0);
        let f = foods.remove(0);
        let p = prices.remove(0);
        items.push(CartItem { food: f, indexed_cart_item: row, total_price: p });
        proof {
            assert(rest@ =~= lines.skip(k + 1));
            assert(foods@ =~= found.skip(k + 1));
            assert(prices@ =~= amounts.skip(k + 1));
        }
    }
    proof {
        assert forall|k: int| 0 <= k < lines.len() implies Some(amounts[k].parts()) == cart_prices(
            food@,
            lines,
        )[k] by {
            assert(present(amounts)[k] == Some(amounts[k].parts()));
        }
    }
    Ok(Cart { items, total_price: total })
}

/// Puts each order row together with the food it names and its total price
/// (unit price times quantity), in the order of the rows.
pub fn assemble_order_items(food: &Vec<Food>, rows: Vec<IndexedOrderItem>) -> (r: Result<
    Vec<OrderItem>,
    AssemblyError,
>)
    ensures
        (r matches Err(AssemblyError::Inconsistent)) == !refs_resolve(food@, order_item_ids(rows@)),
        (r matches Err(AssemblyError::Overflow)) == (refs_resolve(food@, order_item_ids(rows@))
            && exists|i: int|
            0 <= i < rows@.len() && (#[trigger] order_item_prices(food@, rows@)[i]) is None),
        r matches Ok(v) ==> v@.len() == rows@.len() && forall|i: int|
            0 <= i < rows@.len() ==> (#[trigger] v@[i]).indexed_item == rows@[i] && v@[i].food
                == food_for(food@, rows@[i].food_id) && Some(v@[i].total_price.parts())
                == order_item_prices(food@, rows@)[i],
{
    let ghost lines = rows@;
    let mut ids: Vec<ID> = Vec::new();
    let mut counts: Vec<i32> = Vec::new();
    let mut i: usize = 0;
    while i < rows.len()
        invariant
            i <= rows@.len(),
            lines == rows@,
            ids@ == order_item_ids(lines).take(i as int),
            counts@.len() == i,
            forall|k: int| 0 <= k < i ==> #[trigger] counts@[k] == lines[k].count,
        decreases rows.len() - i,
    {
        ids.push(rows[i].food_id);
        counts.push(rows[i].count);
        proof {
            assert(ids@ =~= order_item_ids(lines).take(i + 1));
        }
        i = i + 1;
    }
    proof {
        assert(ids@ =~= order_item_ids(lines));
    }
    let foods = resolve_food(food, &ids)?;
    proof {
        assert(product_prices(foods@, counts@) =~= order_item_prices(food@, lines));
    }
    let prices = match line_prices(&foods, &counts) {
        Some(p) => p,
        None => {
            proof {
                let i = choose|i: int|
                    0 <= i < foods@.len() && (#[trigger] product_prices(foods@, counts@)[i]) is None;
                assert(order_item_prices(food@, lines)[i] is None);
            }
            return Err(AssemblyError::Overflow);
        },
    };
    let ghost found = foods@;
    let ghost amounts = prices@;
    let mut rest = rows;
    let mut foods = foods;
    let mut prices = prices;
    let mut items: Vec<OrderItem> = Vec::new();
    proof {
        assert(lines.skip(0) =~= lines);
        assert(found.skip(0) =~= found);
        assert(amounts.skip(0) =~= amounts);
    }
    while rest.len() > 0
        invariant
            items@.len() <= lines.len(),
            found.len() == lines.len(),
            amounts.len() == lines.len(),
            rest@ == lines.skip(items@.len() as int),
            foods@ == found.skip(items@.len() as int),
            prices@ == amounts.skip(items@.len() as int),
            forall|k: int|
                0 <= k < items@.len() ==> (#[trigger] items@[k]).indexed_item == lines[k]
                    && items@[k].food == found[k] && items@[k].total_price == amounts[k],
        decreases rest.len(),
    {
        let ghost k = items@.len() as int;
        let row = rest.remove(0);
        let f = foods.remove(0);
        let p = prices.remove(0);
        items.push(OrderItem { food: f, indexed_item: row, total_price: p });
        proof {
            assert(rest@ =~= lines.skip(k + 1));
            assert(foods@ =~= found.skip(k + 1));
            assert(prices@ =~= amounts.skip(k + 1));
        }
    }
    proof {
        assert forall|k: int| 0 <= k < lines.len() implies Some(amounts[k].parts())
            == order_item_prices(food@, lines)[k] && order_item_prices(food@, lines)[k] is Some by {
            assert(present(amounts)[k] == Some(amounts[k].parts()));
        }
    }
    Ok(items)
}

} // verus!
