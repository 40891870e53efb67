//! Orders: selection by status, assembly of an order from its parts, and the
//! rules of the order lifecycle (take, complete, cancel, feedback).

use crate::assembly::{checked_total, present, sum_prices, AssemblyError};
use crate::money::Money;
use crate::types::{
    Address, Feedback, IndexedOrder, Order, OrderItem, OrdersFilter, User, UserRole, ID,
};
use vstd::prelude::*;

verus! {

/// The rows that fit `filter`, in their order.
pub open spec fn select_orders(rows: Seq<IndexedOrder>, filter: OrdersFilter) -> Seq<IndexedOrder>
    decreases rows.len(),
{
    if rows.len() == 0 {
        rows
    } else if filter.fits_spec(rows.last()) {
        select_orders(rows.drop_last(), filter).push(rows.last())
    } else {
        select_orders(rows.drop_last(), filter)
    }
}

/// Keeps the rows that fit `filter`, in their order.
pub fn filter_orders(rows: Vec<IndexedOrder>, filter: OrdersFilter) -> (r: Vec<IndexedOrder>)
    ensures
        r@ == select_orders(rows@, filter),
{
    let ghost orig = rows@;
    let mut rest = rows;
    let mut out: Vec<IndexedOrder> = Vec::new();
    let ghost mut k: int = 0;
    proof {
        assert(orig.take(0) =~= Seq::<IndexedOrder>::empty());
        assert(orig.skip(0) =~= orig);
    }
    while rest.len() > 0
        invariant
            0 <= k <= orig.len(),
            rest@ == orig.skip(k),
            out@ == select_orders(orig.take(k), filter),
        decreases rest.len(),
    {
        let row = rest.remove(0);
        proof {
            assert(orig.take(k + 1).drop_last() =~= orig.take(k));
            assert(rest@ =~= orig.skip(k + 1));
        }
        if filter.fits(&row) {
            out.push(row);
        }
        proof {
            k = k + 1;
        }
    }
    proof {
        assert(orig.take(k) =~= orig);
    }
    out
}

/// The filter keeps exactly the rows that fit it, in their order.
pub proof fn lemma_select_orders(rows: Seq<IndexedOrder>, filter: OrdersFilter)
    ensures
        forall|o: IndexedOrder|
            select_orders(rows, filter).contains(o) <==> rows.contains(o) && filter.fits_spec(o),
        filter == OrdersFilter::All ==> select_orders(rows, filter) == rows,
    decreases rows.len(),
{
    if rows.len() > 0 {
        let p = rows.drop_last();
        lemma_select_orders(p, filter);
        assert(p.push(rows.last()) =~= rows);
        assert forall|o: IndexedOrder|
            select_orders(rows, filter).contains(o) <==> rows.contains(o) && filter.fits_spec(o) by {
            let s = select_orders(rows, filter);
            let sp = select_orders(p, filter);
            if rows.contains(o) && filter.fits_spec(o) {
                let i = choose|i: int| 0 <= i < rows.len() && rows[i] == o;
                if i < rows.len() - 1 {
                    assert(p[i] == o);
                    assert(p.contains(o));
                    assert(sp.contains(o));
                    let m = choose|m: int| 0 <= m < sp.len() && sp[m] == o;
                    assert(s[m] == o);
                } else {
                    assert(s[s.len() - 1] == o);
                }
                assert(s.contains(o));
            }
            if s.contains(o) {
                let i = choose|i: int| 0 <= i < s.len() && s[i] == o;
                if filter.fits_spec(rows.last()) && i == s.len() - 1 {
                    assert(rows[rows.len() - 1] == o);
                } else {
                    assert(sp[i] == o);
                    assert(sp.contains(o));
                    assert(p.contains(o));
                    let j = choose|j: int| 0 <= j < p.len() && p[j] == o;
                    assert(rows[j] == o);
                }
                assert(rows.contains(o));
            }
        }
    } else {
        assert forall|o: IndexedOrder|
            select_orders(rows, filter).contains(o) <==> rows.contains(o) && filter.fits_spec(o) by {}
    }
}

/// `InProgress` selects exactly the orders with a rider and no completion
/// time, `Completed` exactly those with a completion time, and `All` every
/// order; where every order has a rider or a completion time, `All` selects
/// the union of the other two.
pub proof fn lemma_status_filters(rows: Seq<IndexedOrder>)
    ensures
        forall|o: IndexedOrder|
            #[trigger] select_orders(rows, OrdersFilter::InProgress).contains(o) <==> rows.contains(o)
                && o.rider_id.is_some() && o.completed_time.is_none(),
        forall|o: IndexedOrder|
            #[trigger] select_orders(rows, OrdersFilter::Completed).contains(o) <==> rows.contains(o)
                && o.completed_time.is_some(),
        select_orders(rows, OrdersFilter::All) == rows,
        (forall|o: IndexedOrder| #[trigger] rows.contains(o) ==> o.rider_id.is_some() || o.completed_time.is_some())
            ==> forall|o: IndexedOrder|
            #[trigger] select_orders(rows, OrdersFilter::All).contains(o) <==> select_orders(
                rows,
                OrdersFilter::InProgress,
            ).contains(o) || select_orders(rows, OrdersFilter::Completed).contains(o),
{
    lemma_select_orders(rows, OrdersFilter::InProgress);
    lemma_select_orders(rows, OrdersFilter::Completed);
    lemma_select_orders(rows, OrdersFilter::All);
}

/// The rider row matches the rider reference of the order.
pub open spec fn rider_matches(rider_id: Option<ID>, rider: Option<User>) -> bool {
    match (rider_id, rider) {
        (Some(id), Some(u)) => u.id == id,
        (None, None) => true,
        _ => false,
    }
}

/// The separately read parts belong to the order row.
pub open spec fn order_parts_consistent(
    order: IndexedOrder,
    customer: User,
    address: Address,
    rider: Option<User>,
    feedback: Option<Feedback>,
) -> bool {
    &&& customer.id == order.customer_id
    &&& address.id == order.address_id
    &&& rider_matches(order.rider_id, rider)
    &&& feedback matches Some(f) ==> f.order_id == order.id
}

pub open spec fn item_amounts(items: Seq<OrderItem>) -> Seq<Option<(int, int)>> {
    Seq::new(items.len(), |i: int| Some(items[i].total_price.parts()))
}

/// Puts an order together from its row and its separately read parts; the
/// order total is the sum of the line totals.
pub fn assemble_order(
    indexed_order: IndexedOrder,
    customer: User,
    address: Address,
    rider: Option<User>,
    items: Vec<OrderItem>,
    feedback: Option<Feedback>,
) -> (r: Result<Order, AssemblyError>)
    ensures
        (r matches Err(AssemblyError::Inconsistent)) == !order_parts_consistent(
            indexed_order,
            customer,
            address,
            rider,
            feedback,
        ),
        (r matches Err(AssemblyError::Overflow)) == (order_parts_consistent(
            indexed_order,
            customer,
            address,
            rider,
            feedback,
        ) && checked_total(item_amounts(items@)) is None),
        r matches Ok(o) ==> {
            &&& o.indexed_order == indexed_order
            &&& o.customer == customer
            &&& o.address == address
            &&& o.rider == rider
            &&& o.items == items
            &&& o.feedback == feedback
            &&& checked_total(item_amounts(items@)) == Some(o.total_price.parts())
        },
{
    if customer.id != indexed_order.customer_id || address.id != indexed_order.address_id {
        return Err(AssemblyError::Inconsistent);
    }
    let rider_ok = match (indexed_order.rider_id, &rider) {
        (Some(id), Some(u)) => u.id == id,
        (None, None) => true,
        _ => false,
    };
    if !rider_ok {
        return Err(AssemblyError::Inconsistent);
    }
    let feedback_ok = match &feedback {
        Some(f) => f.order_id == indexed_order.id,
        None => true,
    };
    if !feedback_ok {
        return Err(AssemblyError::Inconsistent);
    }
    let mut amounts: Vec<Money> = Vec::new();
    let mut i: usize = 0;
    while i < items.len()
        invariant
            i <= items@.len(),
            amounts@.len() == i,
            forall|k: int| 0 <= k < i ==> #[trigger] amounts@[k] == items@[k].total_price,
        decreases items.len() - i,
    {
        amounts.push(items[i].total_price.copy());
        i = i + 1;
    }
    proof {
        assert(present(amounts@) =~= item_amounts(items@));
    }
    match sum_prices(&amounts) {
        Some(total_price) => Ok(
            Order { customer, address, rider, items, total_price, feedback, indexed_order },
        ),
        None => Err(AssemblyError::Overflow),
    }
}

/// Whether `user` may claim `order`: a rider, on an order that has no rider
/// and is not completed.
pub open spec fn may_take_spec(order: IndexedOrder, user: User) -> bool {
    user.role == UserRole::Rider && order.rider_id.is_none() && order.completed_time.is_none()
}

/// Whether `user` may complete `order`: its assigned rider, while it is not completed.
pub open spec fn may_complete_spec(order: IndexedOrder, user: User) -> bool {
    order.rider_id == Some(user.id) && order.completed_time.is_none()
}

/// Whether `user` may cancel `order`: its customer, while no rider has claimed it.
pub open spec fn may_cancel_spec(order: IndexedOrder, user: User) -> bool {
    order.customer_id == user.id && order.rider_id.is_none()
}

pub fn may_take(order: &IndexedOrder, user: &User) -> (r: bool)
    ensures
        r == may_take_spec(*order, *user),
{
    user.role == UserRole::Rider && order.rider_id.is_none() && order.completed_time.is_none()
}

pub fn may_complete(order: &IndexedOrder, user: &User) -> (r: bool)
    ensures
        r == may_complete_spec(*order, *user),
{
    match order.rider_id {
        Some(id) => id == user.id && order.completed_time.is_none(),
        None => false,
    }
}

pub fn may_cancel(order: &IndexedOrder, user: &User) -> (r: bool)
    ensures
        r == may_cancel_spec(*order, *user),
{
    order.customer_id == user.id && order.rider_id.is_none()
}

/// Claims `order` for `user` where the rules allow it; says whether it did.
pub fn take(order: &mut IndexedOrder, user: &User) -> (r: bool)
    ensures
        r == may_take_spec(*old(order), *user),
        r ==> *final(order) == (IndexedOrder { rider_id: Some(user.id), ..*old(order) }),
        !r ==> *final(order) == *old(order),
{
    if may_take(order, user) {
        order.rider_id = Some(user.id);
        true
    } else {
        false
    }
}

/// Marks `order` completed at `now` where the rules allow it; says whether it did.
pub fn complete(order: &mut IndexedOrder, user: &User, now: i64) -> (r: bool)
    ensures
        r == may_complete_spec(*old(order), *user),
        r ==> *final(order) == (IndexedOrder { completed_time: Some(now), ..*old(order) }),
        !r ==> *final(order) == *old(order),
{
    if may_complete(order, user) {
        order.completed_time = Some(now);
        true
    } else {
        false
    }
}

#[derive(Clone, Copy, Debug, PartialEq, Eq, Structural)]
pub enum FeedbackError {
    /// Neither a rating nor a comment was given.
    Empty,
    /// The rating is outside 0 to 5.
    RatingOutOfRange,
    /// The order is not the caller's, or is not completed.
    NotEligible,
    /// The order already carries feedback.
    AlreadyGiven,
}

/// The verdict on `feedback` from the customer `user_id` for `order` (the row
/// that the feedback's order identifier names, if there is one).
pub open spec fn feedback_verdict(
    order: Option<IndexedOrder>,
    user_id: ID,
    has_feedback: bool,
    feedback: Feedback,
) -> Result<(), FeedbackError> {
    if feedback.rating.is_none() && feedback.comment.is_none() {
        Err(FeedbackError::Empty)
    } else if feedback.rating matches Some(v) && (v < 0 || v > 5) {
        Err(FeedbackError::RatingOutOfRange)
    } else if !(order matches Some(o) && o.id == feedback.order_id && o.customer_id == user_id
        && o.completed_time.is_some()) {
        Err(FeedbackError::NotEligible)
    } else if has_feedback {
        Err(FeedbackError::AlreadyGiven)
    } else {
        Ok(())
    }
}

/// Decides whether `feedback` may be attached: it needs a rating or a
/// comment, a rating from 0 to 5, a completed order owned by the caller, and
/// no earlier feedback on that order.
pub fn check_feedback(
    order: &Option<IndexedOrder>,
    user_id: ID,
    has_feedback: bool,
    feedback: &Feedback,
) -> (r: Result<(), FeedbackError>)
    ensures
        r == feedback_verdict(*order, user_id, has_feedback, *feedback),
{
    if feedback.rating.is_none() && feedback.comment.is_none() {
        return Err(FeedbackError::Empty);
    }
    if let Some(v) = feedback.rating {
        if v < 0 || v > 5 {
            return Err(FeedbackError::RatingOutOfRange);
        }
    }
    let eligible = match order {
        Some(o) => o.id == feedback.order_id && o.customer_id == user_id && o.completed_time.is_some(),
        None => false,
    };
    if !eligible {
        return Err(FeedbackError::NotEligible);
    }
    if has_feedback {
        return Err(FeedbackError::AlreadyGiven);
    }
    Ok(())
}

/// Feedback without rating and comment is refused; so is feedback on an
/// order that is not completed, not the caller's, or that already carries
/// feedback. On a completed order of the caller without feedback it is
/// accepted, and once it is attached a second submission is refused.
pub proof fn lemma_feedback_once(order: IndexedOrder, user_id: ID, feedback: Feedback)
    ensures
        feedback.rating.is_none() && feedback.comment.is_none() ==> feedback_verdict(
            Some(order),
            user_id,
            false,
            feedback,
        ) is Err,
        order.completed_time.is_none() || order.customer_id != user_id ==> feedback_verdict(
            Some(order),
            user_id,
            false,
            feedback,
        ) is Err,
        feedback_verdict(Some(order), user_id, true, feedback) is Err,
        (order.completed_time.is_some() && order.customer_id == user_id && order.id
            == feedback.order_id && (feedback.rating.is_some() || feedback.comment.is_some())
            && (feedback.rating matches Some(v) ==> 0 <= v <= 5)) ==> feedback_verdict(
            Some(order),
            user_id,
            false,
            feedback,
        ) is Ok && feedback_verdict(Some(order), user_id, true, feedback) == Err::<(), FeedbackError>(
            FeedbackError::AlreadyGiven,
        ),
{
}

} // verus!
