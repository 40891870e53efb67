//! Catalog reads: food of a category in the requested order, and the
//! recipients of a notification sent to every user of a role.

use crate::sort::{apply_direction, directed, lemma_sort_spec, sort_spec, sort_stable, sorted_by};
use crate::types::{IndexedFood, SortFoodBy, SortOrder, User, UserRole, ID};
use vstd::prelude::*;

verus! {

/// The food rows sorted stably by `sort_by`, reversed where `sort_order` is descending.
pub fn sort_food(food: Vec<IndexedFood>, sort_by: SortFoodBy, sort_order: SortOrder) -> (r: Vec<
    IndexedFood,
>)
    ensures
        r@ == directed(sort_spec(sort_by, food@), sort_order),
{
    apply_direction(sort_stable(&sort_by, food), sort_order)
}

/// Food sorted by a comparator is in that comparator's order and holds the
/// same rows; the descending result is the exact reverse of the ascending one.
pub proof fn lemma_food_order(food: Seq<IndexedFood>, sort_by: SortFoodBy)
    ensures
        sorted_by(sort_by, directed(sort_spec(sort_by, food), SortOrder::Ascending)),
        directed(sort_spec(sort_by, food), SortOrder::Ascending).to_multiset() == food.to_multiset(),
        directed(sort_spec(sort_by, food), SortOrder::Descending) == directed(
            sort_spec(sort_by, food),
            SortOrder::Ascending,
        ).reverse(),
{
    lemma_sort_spec(sort_by, food);
}

/// Identifiers of the users with role `role`, in order.
pub open spec fn role_ids(users: Seq<User>, role: UserRole) -> Seq<ID>
    decreases users.len(),
{
    if users.len() == 0 {
        Seq::empty()
    } else if users.last().role == role {
        role_ids(users.drop_last(), role).push(users.last().id)
    } else {
        role_ids(users.drop_last(), role)
    }
}

/// The users that a notification to role `role` goes to.
pub fn recipients(users: &Vec<User>, role: UserRole) -> (r: Vec<ID>)
    ensures
        r@ == role_ids(users@, role),
{
    let mut out: Vec<ID> = Vec::new();
    let mut i: usize = 0;
    proof {
        assert(users@.take(0) =~= Seq::<User>::empty());
    }
    while i < users.len()
        invariant
            i <= users@.len(),
            out@ == role_ids(users@.take(i as int), role),
        decreases users.len() - i,
    {
        proof {
            assert(users@.take(i + 1).drop_last() =~= users@.take(i as int));
        }
        if users[i].role == role {
            out.push(users[i].id);
        }
        i = i + 1;
    }
    proof {
        assert(users@.take(i as int) =~= users@);
    }
    out
}

} // verus!
