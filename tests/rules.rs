use gogo_delivery::access::{
    authorize, digest_matches, is_allowed, is_credentials_valid, sha256, text_eq, AccessError,
    Action, MutationRoot, QueryRoot,
};
use gogo_delivery::catalog::{recipients, sort_food};
use gogo_delivery::checkout::{add_cart_line, add_favorite, checkout, CheckoutError};
use gogo_delivery::money::Money;
use gogo_delivery::orders::{
    check_feedback, complete, filter_orders, may_cancel, take, FeedbackError,
};
use gogo_delivery::text::compare_text;
use gogo_delivery::types::{
    Cart, CartItem, Category, Feedback, Food, IndexedCartItem, IndexedFavorite, IndexedFood,
    IndexedOrder, OrdersFilter, SortFoodBy, SortOrder, SortUsersBy, User, UserRole,
};
use std::cmp::Ordering;

fn user(id: i32, name: &str, role: UserRole) -> User {
    User {
        id,
        username: name.to_string(),
        password: sha256("secret"),
        first_name: None,
        last_name: None,
        birth_date: 0,
        role,
    }
}

fn food_row(id: i32, title: &str, count: i32, price: (i128, u32)) -> IndexedFood {
    IndexedFood {
        id,
        title: title.to_string(),
        description: None,
        category_id: 1,
        count,
        is_alcohol: false,
        price: Money::new(price.0, price.1).unwrap(),
    }
}

fn order(id: i32, rider: Option<i32>, completed: Option<i64>) -> IndexedOrder {
    IndexedOrder {
        id,
        customer_id: 1,
        address_id: 1,
        create_time: 0,
        rider_id: rider,
        completed_time: completed,
    }
}

fn ids(v: &[IndexedFood]) -> Vec<i32> {
    v.iter().map(|f| f.id).collect()
}

fn sample_food() -> Vec<IndexedFood> {
    vec![
        food_row(1, "pear", 5, (350, 2)),
        food_row(2, "apple", 9, (5, 0)),
        food_row(3, "fig", 1, (1, 1)),
        food_row(4, "banana", 5, (40, 1)),
    ]
}

#[test]
fn food_sorted_by_title() {
    let r = sort_food(sample_food(), SortFoodBy::Title, SortOrder::Ascending);
    assert_eq!(ids(&r), vec![2, 4, 3, 1]);
}

#[test]
fn food_sorted_by_price_both_directions() {
    let asc = sort_food(sample_food(), SortFoodBy::Price, SortOrder::Ascending);
    assert_eq!(ids(&asc), vec![3, 1, 4, 2]);
    let desc = sort_food(sample_food(), SortFoodBy::Price, SortOrder::Descending);
    let mut rev = ids(&asc);
    rev.reverse();
    assert_eq!(ids(&desc), rev);
}

#[test]
fn food_sorted_by_count_is_stable() {
    let asc = sort_food(sample_food(), SortFoodBy::Count, SortOrder::Ascending);
    assert_eq!(ids(&asc), vec![3, 1, 4, 2]);
    let desc = sort_food(sample_food(), SortFoodBy::Count, SortOrder::Descending);
    assert_eq!(ids(&desc), vec![2, 4, 1, 3]);
}

#[test]
fn sort_of_empty_food() {
    assert!(sort_food(vec![], SortFoodBy::Title, SortOrder::Descending).is_empty());
}

#[test]
fn text_order() {
    assert_eq!(compare_text("abc", "abd"), Ordering::Less);
    assert_eq!(compare_text("abc", "ab"), Ordering::Greater);
    assert_eq!(compare_text("", ""), Ordering::Equal);
    assert!(text_eq("héllo", "héllo"));
    assert!(!text_eq("hello", "hellO"));
}

#[test]
fn users_sorted_by_first_name() {
    let mut a = user(1, "a", UserRole::Customer);
    let mut b = user(2, "b", UserRole::Customer);
    a.first_name = None;
    b.first_name = Some("Zed".to_string());
    assert_eq!(SortUsersBy::FirstName.cmp(&a, &b), Ordering::Less);
    assert_eq!(SortUsersBy::Username.cmp(&b, &a), Ordering::Greater);
    assert_eq!(SortUsersBy::LastName.cmp(&a, &b), Ordering::Equal);
}

#[test]
fn status_filters() {
    let rows = || {
        vec![
            order(1, None, None),
            order(2, Some(5), None),
            order(3, Some(5), Some(10)),
            order(4, None, Some(11)),
        ]
    };
    let ids = |v: Vec<IndexedOrder>| v.iter().map(|o| o.id).collect::<Vec<i32>>();
    assert_eq!(ids(filter_orders(rows(), OrdersFilter::All)), vec![1, 2, 3, 4]);
    assert_eq!(ids(filter_orders(rows(), OrdersFilter::InProgress)), vec![2]);
    assert_eq!(ids(filter_orders(rows(), OrdersFilter::Completed)), vec![3, 4]);
}

fn cart_item(food_id: i32, count: i32) -> CartItem {
    let price = Money::new(100, 2).unwrap();
    CartItem {
        food: Food {
            category: Category { id: 1, title: "c".to_string(), description: None },
            indexed_food: food_row(food_id, "f", 3, (100, 2)),
        },
        indexed_cart_item: IndexedCartItem { id: food_id, food_id, count, add_time: 0 },
        total_price: price,
    }
}

#[test]
fn checkout_moves_lines_and_empties_cart() {
    let mut cart = Cart {
        items: vec![cart_item(1, 2), cart_item(2, 1)],
        total_price: Money::new(1350, 2).unwrap(),
    };
    let o = checkout(&mut cart, 7, 8).unwrap();
    assert_eq!(o.customer_id, 7);
    assert_eq!(o.address_id, 8);
    assert_eq!(o.lines.len(), 2);
    assert_eq!((o.lines[0].food_id, o.lines[0].count), (1, 2));
    assert_eq!((o.lines[1].food_id, o.lines[1].count), (2, 1));
    assert!(cart.items.is_empty());
    assert_eq!(cart.total_price.mantissa(), 0);
    assert!(matches!(checkout(&mut cart, 7, 8), Err(CheckoutError::EmptyCart)));
}

#[test]
fn checkout_of_empty_cart_fails() {
    let mut cart = Cart { items: vec![], total_price: Money::zero() };
    assert!(matches!(checkout(&mut cart, 1, 1), Err(CheckoutError::EmptyCart)));
}

#[test]
fn cart_line_added_once() {
    let mut rows = vec![IndexedCartItem { id: 1, food_id: 3, count: 1, add_time: 0 }];
    assert!(add_cart_line(&mut rows, IndexedCartItem { id: 2, food_id: 4, count: 1, add_time: 1 }));
    assert!(!add_cart_line(&mut rows, IndexedCartItem { id: 3, food_id: 4, count: 5, add_time: 2 }));
    assert_eq!(rows.len(), 2);
    assert_eq!(rows[1].count, 1);
}

#[test]
fn favorite_added_once() {
    let mut rows = vec![];
    assert!(add_favorite(&mut rows, IndexedFavorite { id: 1, food_id: 3, add_time: 0 }));
    assert!(!add_favorite(&mut rows, IndexedFavorite { id: 2, food_id: 3, add_time: 1 }));
    assert_eq!(rows.len(), 1);
}

fn feedback(rating: Option<i16>, comment: Option<&str>) -> Feedback {
    Feedback { id: 0, order_id: 3, rating, comment: comment.map(|c| c.to_string()) }
}

#[test]
fn feedback_rules() {
    let done = Some(order(3, Some(5), Some(10)));
    let open = Some(order(3, Some(5), None));
    assert_eq!(check_feedback(&done, 1, false, &feedback(None, None)), Err(FeedbackError::Empty));
    assert_eq!(
        check_feedback(&done, 1, false, &feedback(Some(6), None)),
        Err(FeedbackError::RatingOutOfRange)
    );
    assert_eq!(
        check_feedback(&open, 1, false, &feedback(Some(4), None)),
        Err(FeedbackError::NotEligible)
    );
    assert_eq!(
        check_feedback(&done, 2, false, &feedback(Some(4), None)),
        Err(FeedbackError::NotEligible)
    );
    assert_eq!(check_feedback(&None, 1, false, &feedback(Some(4), None)), Err(FeedbackError::NotEligible));
    assert_eq!(check_feedback(&done, 1, false, &feedback(None, Some("fine"))), Ok(()));
    assert_eq!(
        check_feedback(&done, 1, true, &feedback(Some(5), None)),
        Err(FeedbackError::AlreadyGiven)
    );
}

#[test]
fn take_and_complete() {
    let rider = user(5, "rita", UserRole::Rider);
    let other = user(6, "rob", UserRole::Rider);
    let customer = user(1, "carl", UserRole::Customer);
    let mut o = order(3, None, None);
    assert!(may_cancel(&o, &customer));
    assert!(!take(&mut o, &customer));
    assert!(take(&mut o, &rider));
    assert_eq!(o.rider_id, Some(5));
    assert!(!take(&mut o, &other));
    assert!(!may_cancel(&o, &customer));
    assert!(!complete(&mut o, &other, 50));
    assert!(complete(&mut o, &rider, 50));
    assert_eq!(o.completed_time, Some(50));
    assert!(!complete(&mut o, &rider, 60));
    assert_eq!(o.completed_time, Some(50));
}

#[test]
fn role_policy() {
    assert!(is_allowed(UserRole::Manager, Action::ManageCatalog));
    assert!(!is_allowed(UserRole::Rider, Action::ManageCatalog));
    assert!(is_allowed(UserRole::Rider, Action::ListAllOrders));
    assert!(!is_allowed(UserRole::Customer, Action::SendDirectNotification));
    assert_eq!(authorize(&user(1, "c", UserRole::Customer), Action::ListUsers), Err(AccessError::Denied));
    let manager = user(1, "boss", UserRole::Manager);
    assert_eq!(MutationRoot::<()>::check_set_user_role(&manager, "boss"), Err(AccessError::OwnRole));
    assert_eq!(MutationRoot::<()>::check_set_user_role(&manager, "ann"), Ok(()));
    assert_eq!(
        MutationRoot::<()>::check_set_user_role(&user(2, "r", UserRole::Rider), "ann"),
        Err(AccessError::Denied)
    );
}

#[test]
fn roots_hold_their_store() {
    let q = QueryRoot::new(41);
    let m = MutationRoot::new("db");
    assert_eq!(*q.db(), 41);
    assert_eq!(*m.db(), "db");
}

#[test]
fn password_digest() {
    assert_eq!(
        sha256("abc"),
        "ba7816bf8f01cfea414140de5dae2223b00361a396177a9cb410ff61f20015ad"
    );
    let u = user(1, "ann", UserRole::Customer);
    assert!(is_credentials_valid(&u, "ann", "secret"));
    assert!(!is_credentials_valid(&u, "ann", "Secret"));
    assert!(!is_credentials_valid(&u, "bob", "secret"));
    assert!(digest_matches(&u, "ann", &sha256("secret")));
}

#[test]
fn broadcast_recipients() {
    let users = vec![
        user(1, "a", UserRole::Rider),
        user(2, "b", UserRole::Customer),
        user(3, "c", UserRole::Rider),
    ];
    assert_eq!(recipients(&users, UserRole::Rider), vec![1, 3]);
    assert!(recipients(&users, UserRole::Manager).is_empty());
}

#[test]
fn default_role_is_customer() {
    assert_eq!(UserRole::default(), UserRole::Customer);
}

#[test]
fn money_bounds() {
    assert!(Money::new(1, 29).is_none());
    assert!(Money::new(0x1_0000_0000_0000_0000_0000_0000, 0).is_none());
    let m = Money::new(-5, 28).unwrap();
    assert_eq!((m.mantissa(), m.scale()), (-5, 28));
    let p = Money::new(250, 2).unwrap().times(3).unwrap();
    assert_eq!((p.mantissa(), p.scale()), (750, 2));
    let s = Money::new(250, 2).unwrap().plus(&Money::new(1, 0).unwrap()).unwrap();
    assert_eq!((s.mantissa(), s.scale()), (350, 2));
    assert_eq!(Money::new(1, 0).unwrap().compare(&Money::new(100, 2).unwrap()), Ordering::Equal);
}
