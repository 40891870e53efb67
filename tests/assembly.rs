use gogo_delivery::assembly::{
    assemble_cart, assemble_favorites, assemble_food, assemble_order_items, resolve_food,
    sum_prices, AssemblyError,
};
use gogo_delivery::money::Money;
use gogo_delivery::orders::assemble_order;
use gogo_delivery::types::{
    Address, Category, Feedback, Food, IndexedCartItem, IndexedFavorite, IndexedFood,
    IndexedOrder, IndexedOrderItem, SortCartBy, SortOrder, User, UserRole,
};

fn money(m: i128, s: u32) -> Money {
    Money::new(m, s).unwrap()
}

fn category(id: i32) -> Category {
    Category { id, title: format!("category {id}"), description: None }
}

fn indexed_food(id: i32, category_id: i32, price: Money) -> IndexedFood {
    IndexedFood {
        id,
        title: format!("food {id}"),
        description: None,
        category_id,
        count: 10,
        is_alcohol: false,
        price,
    }
}

fn food(id: i32, price: Money) -> Food {
    Food { category: category(1), indexed_food: indexed_food(id, 1, price) }
}

fn cart_row(id: i32, food_id: i32, count: i32, add_time: i64) -> IndexedCartItem {
    IndexedCartItem { id, food_id, count, add_time }
}

fn user(id: i32, name: &str, role: UserRole) -> User {
    User {
        id,
        username: name.to_string(),
        password: String::new(),
        first_name: None,
        last_name: None,
        birth_date: 0,
        role,
    }
}

#[test]
fn cart_total_of_example() {
    let foods = vec![food(1, money(500, 2)), food(2, money(350, 2))];
    let rows = vec![cart_row(10, 1, 2, 100), cart_row(11, 2, 1, 200)];
    let cart = assemble_cart(&foods, rows, SortCartBy::AddTime, SortOrder::Ascending).unwrap();
    assert_eq!(cart.items.len(), 2);
    assert_eq!(cart.items[0].total_price.mantissa(), 1000);
    assert_eq!(cart.items[0].total_price.scale(), 2);
    assert_eq!(cart.items[1].total_price.mantissa(), 350);
    assert_eq!(cart.total_price.mantissa(), 1350);
    assert_eq!(cart.total_price.scale(), 2);
    assert_eq!(cart.items[0].food.indexed_food.id, 1);
    assert_eq!(cart.items[1].food.indexed_food.id, 2);
}

#[test]
fn cart_lines_sorted_by_count_descending() {
    let foods = vec![food(1, money(100, 0)), food(2, money(1, 0)), food(3, money(2, 0))];
    let rows = vec![cart_row(10, 1, 2, 5), cart_row(11, 2, 7, 4), cart_row(12, 3, 1, 3)];
    let cart = assemble_cart(&foods, rows, SortCartBy::Count, SortOrder::Descending).unwrap();
    let counts: Vec<i32> = cart.items.iter().map(|i| i.indexed_cart_item.count).collect();
    assert_eq!(counts, vec![7, 2, 1]);
    assert_eq!(cart.total_price.mantissa(), 100 * 2 + 7 + 2);
}

#[test]
fn empty_cart_has_zero_total() {
    let cart = assemble_cart(&vec![], vec![], SortCartBy::AddTime, SortOrder::Ascending).unwrap();
    assert!(cart.items.is_empty());
    assert_eq!(cart.total_price.mantissa(), 0);
}

#[test]
fn cart_with_unknown_food_is_inconsistent() {
    let foods = vec![food(1, money(500, 2))];
    let rows = vec![cart_row(10, 1, 2, 100), cart_row(11, 9, 1, 200)];
    let r = assemble_cart(&foods, rows, SortCartBy::AddTime, SortOrder::Ascending);
    assert!(matches!(r, Err(AssemblyError::Inconsistent)));
}

#[test]
fn cart_naming_a_food_twice_is_inconsistent() {
    let foods = vec![food(1, money(500, 2))];
    let rows = vec![cart_row(10, 1, 2, 100), cart_row(11, 1, 1, 200)];
    let r = assemble_cart(&foods, rows, SortCartBy::AddTime, SortOrder::Ascending);
    assert!(matches!(r, Err(AssemblyError::Inconsistent)));
}

#[test]
fn cart_total_overflow() {
    let max: i128 = 0xFFFF_FFFF_FFFF_FFFF_FFFF_FFFF;
    let foods = vec![food(1, money(max, 0))];
    let rows = vec![cart_row(10, 1, 2, 100)];
    let r = assemble_cart(&foods, rows, SortCartBy::AddTime, SortOrder::Ascending);
    assert!(matches!(r, Err(AssemblyError::Overflow)));
}

#[test]
fn sum_overflow_is_reported() {
    let max: i128 = 0xFFFF_FFFF_FFFF_FFFF_FFFF_FFFF;
    assert!(sum_prices(&vec![money(max, 0), money(max, 0)]).is_none());
    let t = sum_prices(&vec![money(1, 1), money(2, 0)]).unwrap();
    assert_eq!((t.mantissa(), t.scale()), (21, 1));
}

#[test]
fn food_gets_its_category() {
    let cats = vec![category(1), category(2)];
    let rows = vec![indexed_food(5, 2, money(1, 0)), indexed_food(6, 1, money(1, 0))];
    let food = assemble_food(&cats, rows).unwrap();
    assert_eq!(food[0].category.id, 2);
    assert_eq!(food[1].category.id, 1);
    assert_eq!(food[0].indexed_food.id, 5);
}

#[test]
fn food_with_missing_category_is_inconsistent() {
    let cats = vec![category(1)];
    let rows = vec![indexed_food(5, 3, money(1, 0))];
    assert!(matches!(assemble_food(&cats, rows), Err(AssemblyError::Inconsistent)));
}

#[test]
fn favorites_resolve_food() {
    let foods = vec![food(1, money(1, 0)), food(2, money(2, 0))];
    let rows = vec![
        IndexedFavorite { id: 7, food_id: 2, add_time: 0 },
        IndexedFavorite { id: 8, food_id: 1, add_time: 1 },
    ];
    let favs = assemble_favorites(&foods, rows).unwrap();
    assert_eq!(favs[0].food.indexed_food.id, 2);
    assert_eq!(favs[1].food.indexed_food.id, 1);
    assert_eq!(favs[1].indexed_favorite.id, 8);
}

#[test]
fn favorites_with_missing_food_are_inconsistent() {
    let foods = vec![food(1, money(1, 0))];
    let rows = vec![IndexedFavorite { id: 7, food_id: 2, add_time: 0 }];
    assert!(matches!(assemble_favorites(&foods, rows), Err(AssemblyError::Inconsistent)));
}

#[test]
fn resolve_food_in_order() {
    let foods = vec![food(1, money(1, 0)), food(2, money(2, 0))];
    let r = resolve_food(&foods, &vec![2, 1]).unwrap();
    assert_eq!(r[0].indexed_food.id, 2);
    assert_eq!(r[1].indexed_food.id, 1);
    assert!(resolve_food(&foods, &vec![2, 2]).is_err());
}

#[test]
fn order_total_of_example() {
    let foods = vec![food(1, money(500, 2)), food(2, money(350, 2))];
    let rows = vec![
        IndexedOrderItem { id: 1, food_id: 1, count: 2 },
        IndexedOrderItem { id: 2, food_id: 2, count: 1 },
    ];
    let items = assemble_order_items(&foods, rows).unwrap();
    assert_eq!(items.len(), 2);
    assert_eq!(items[0].indexed_item.count, 2);
    assert_eq!(items[1].indexed_item.count, 1);
    let order = IndexedOrder {
        id: 3,
        customer_id: 4,
        address_id: 5,
        create_time: 0,
        rider_id: None,
        completed_time: None,
    };
    let address = Address {
        id: 5,
        locality: "Town".to_string(),
        street: "Main".to_string(),
        house: 1,
        corps: None,
        apartment: None,
    };
    let o = assemble_order(order, user(4, "ann", UserRole::Customer), address, None, items, None)
        .unwrap();
    assert_eq!((o.total_price.mantissa(), o.total_price.scale()), (1350, 2));
}

#[test]
fn order_with_wrong_customer_is_inconsistent() {
    let order = IndexedOrder {
        id: 3,
        customer_id: 4,
        address_id: 5,
        create_time: 0,
        rider_id: Some(8),
        completed_time: None,
    };
    let address = Address {
        id: 5,
        locality: "Town".to_string(),
        street: "Main".to_string(),
        house: 1,
        corps: None,
        apartment: None,
    };
    let r = assemble_order(
        order,
        user(4, "ann", UserRole::Customer),
        address,
        None,
        vec![],
        None::<Feedback>,
    );
    assert!(matches!(r, Err(AssemblyError::Inconsistent)));
}

#[test]
fn order_items_with_missing_food_are_inconsistent() {
    let foods = vec![food(1, money(500, 2))];
    let rows = vec![IndexedOrderItem { id: 1, food_id: 2, count: 2 }];
    assert!(matches!(assemble_order_items(&foods, rows), Err(AssemblyError::Inconsistent)));
}
