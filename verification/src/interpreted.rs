//! The reference interpreter: direct evaluation of a predicate tree.

use vstd::prelude::*;

use crate::records::{User, UserView};
use crate::strops::{str_contains, str_ends_with, str_eq, str_starts_with};
use crate::{
    field_value, leaf_count, leaf_matches, leaves_evaluated, lemma_leaves_evaluated_le_count,
    matching_subsequence, tree_matches, Field, Filter, FilterKind, JoinFilters,
};

verus! {

/// Borrow the record field a leaf filter inspects.
pub fn get_field<'a>(user: &'a User, field: Field) -> (r: &'a str)
    ensures
        r@ == field_value(user.deep_view(), field),
{
    match field {
        Field::Email => user.email.as_str(),
        Field::Gender => user.gender.as_str(),
        Field::PhoneNumber => user.phone_number.as_str(),
        Field::LocationStreet => user.location.street.as_str(),
        Field::LocationCity => user.location.city.as_str(),
        Field::LocationState => user.location.state.as_str(),
        Field::Username => user.username.as_str(),
        Field::Password => user.password.as_str(),
        Field::FirstName => user.first_name.as_str(),
        Field::LastName => user.last_name.as_str(),
        Field::Title => user.title.as_str(),
        Field::Picture => user.picture.as_str(),
    }
}

/// Evaluate one leaf comparison against a record.
pub fn run_filter(user: &User, filter: &Filter) -> (r: bool)
    ensures
        r == leaf_matches(filter.deep_view(), user.deep_view()),
{
    let field = get_field(user, filter.field);
    match filter.kind {
        FilterKind::StrContains => str_contains(field, filter.value.as_str()),
        FilterKind::StrEquals => str_eq(field, filter.value.as_str()),
        FilterKind::StrStartsWith => str_starts_with(field, filter.value.as_str()),
        FilterKind::StrEndsWith => str_ends_with(field, filter.value.as_str()),
    }
}

/// Evaluate a whole predicate tree against a record, short-circuiting
/// `And` / `Or` in the host language.
pub fn run_join_filters(user: &User, join_filters: &JoinFilters) -> (r: bool)
    ensures
        r == tree_matches(join_filters.deep_view(), user.deep_view()),
    decreases join_filters,
{
    match join_filters {
        JoinFilters::Filter(filter) => run_filter(user, filter),
        JoinFilters::And(left, right) => {
            run_join_filters(user, left) && run_join_filters(user, right)
        },
        JoinFilters::Or(left, right) => {
            run_join_filters(user, left) || run_join_filters(user, right)
        },
    }
}

/// Evaluate a tree while counting how many leaf comparisons actually run:
/// the instrumented build that makes short-circuiting observable.  The count
/// rises by exactly the number of leaves a short-circuit evaluation inspects.
pub fn run_join_filters_counted(user: &User, join_filters: &JoinFilters, count: &mut u64) -> (r:
    bool)
    requires
        *old(count) + leaf_count(join_filters.deep_view()) <= u64::MAX,
    ensures
        r == tree_matches(join_filters.deep_view(), user.deep_view()),
        *final(count) == *old(count) + leaves_evaluated(
            join_filters.deep_view(),
            user.deep_view(),
        ),
    decreases join_filters,
{
    proof {
        lemma_leaves_evaluated_le_count(join_filters.deep_view(), user.deep_view());
    }
    match join_filters {
        JoinFilters::Filter(filter) => {
            *count = *count + 1;
            run_filter(user, filter)
        },
        JoinFilters::And(left, right) => {
            proof {
                lemma_leaves_evaluated_le_count(left.deep_view(), user.deep_view());
            }
            if !run_join_filters_counted(user, left, count) {
                false
            } else {
                run_join_filters_counted(user, right, count)
            }
        },
        JoinFilters::Or(left, right) => {
            proof {
                lemma_leaves_evaluated_le_count(left.deep_view(), user.deep_view());
            }
            if run_join_filters_counted(user, left, count) {
                true
            } else {
                run_join_filters_counted(user, right, count)
            }
        },
    }
}

/// Keep exactly the records the tree matches, in input order.
pub fn filter_vec_with_filters(arr: &[User], filters: &JoinFilters) -> (r: Vec<User>)
    ensures
        r.deep_view() == matching_subsequence(filters.deep_view(), arr.deep_view()),
{
    let ghost pred = |u: UserView| tree_matches(filters.deep_view(), u);
    let mut out: Vec<User> = Vec::new();
    proof {
        reveal(Seq::filter);
        assert(arr.deep_view().take(0) =~= Seq::<UserView>::empty());
        assert(out.deep_view() =~= arr.deep_view().take(0).filter(pred));
    }
    let n = arr.len();
    for i in 0..n
        invariant
            n == arr@.len(),
            out.deep_view() == arr.deep_view().take(i as int).filter(pred),
            pred == (|u: UserView| tree_matches(filters.deep_view(), u)),
    {
        let keep = run_join_filters(&arr[i], filters);
        proof {
            assert(arr.deep_view().take(i + 1) =~= arr.deep_view().take(i as int).push(
                arr@[i as int].deep_view(),
            ));
            lemma_filter_push(arr.deep_view().take(i as int), pred, arr@[i as int].deep_view());
        }
        if keep {
            let u = (&arr[i]).clone();
            out.push(u);
            proof {
                assert(out.deep_view() =~= arr.deep_view().take(i + 1).filter(pred));
            }
        }
    }
    proof {
        assert(arr.deep_view().take(n as int) =~= arr.deep_view());
    }
    out
}

/// Appending one element to a sequence extends its filtered image by that
/// element exactly when the predicate holds of it.
pub proof fn lemma_filter_push<A>(s: Seq<A>, pred: spec_fn(A) -> bool, x: A)
    ensures
        s.push(x).filter(pred) == if pred(x) {
            s.filter(pred).push(x)
        } else {
            s.filter(pred)
        },
{
    reveal(Seq::filter);
    assert(s.push(x).drop_last() =~= s);
    assert(s.push(x).last() == x);
}

} // verus!
