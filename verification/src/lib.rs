//! Runtime specialisation of boolean record filters.
//!
//! A filter is a tree of leaf string comparisons joined by `And` / `Or`.
//! The crate provides a reference interpreter over [`records::User`] values,
//! and a specialiser that lowers a tree into a small control-flow graph of
//! basic blocks whose short-circuit structure mirrors the tree, proved to
//! decide exactly the same records as the interpreter.

use vstd::prelude::*;

pub mod abi;
pub mod bitcode_files;
pub mod interpreted;
pub mod jit;
pub mod records;
pub mod strops;
pub mod symbols;
pub mod transformations;

use crate::records::UserView;
use crate::strops::has_substring;

verus! {

/// The comparison a leaf filter applies to a record field.
#[derive(Clone, Copy, Debug, PartialEq, Eq, Structural)]
pub enum FilterKind {
    StrContains,
    StrEquals,
    StrStartsWith,
    StrEndsWith,
}

/// A string-typed record field that leaf filters can inspect.
#[derive(Clone, Copy, Debug, PartialEq, Eq, Structural)]
pub enum Field {
    Email,
    Gender,
    PhoneNumber,
    LocationStreet,
    LocationCity,
    LocationState,
    Username,
    Password,
    FirstName,
    LastName,
    Title,
    Picture,
}

/// A leaf comparison: a field, a comparison kind, and a literal.
#[derive(Debug)]
pub struct Filter {
    pub field: Field,
    pub kind: FilterKind,
    pub value: String,
}

/// A predicate tree: leaves joined by short-circuiting `And` / `Or`.
#[derive(Debug)]
pub enum JoinFilters {
    Filter(Filter),
    And(Box<JoinFilters>, Box<JoinFilters>),
    Or(Box<JoinFilters>, Box<JoinFilters>),
}

/// Mathematical image of a leaf filter: the literal as a character sequence.
pub struct FilterView {
    pub field: Field,
    pub kind: FilterKind,
    pub value: Seq<char>,
}

/// Mathematical image of a predicate tree.
pub enum JoinFiltersView {
    Filter(FilterView),
    And(Box<JoinFiltersView>, Box<JoinFiltersView>),
    Or(Box<JoinFiltersView>, Box<JoinFiltersView>),
}

impl DeepView for Filter {
    type V = FilterView;

    open spec fn deep_view(&self) -> FilterView {
        FilterView { field: self.field, kind: self.kind, value: self.value@ }
    }
}

/// Mathematical image of a predicate tree.
pub open spec fn tree_view(t: JoinFilters) -> JoinFiltersView
    decreases t,
{
    match t {
        JoinFilters::Filter(f) => JoinFiltersView::Filter(f.deep_view()),
        JoinFilters::And(l, r) => JoinFiltersView::And(
            Box::new(tree_view(*l)),
            Box::new(tree_view(*r)),
        ),
        JoinFilters::Or(l, r) => JoinFiltersView::Or(
            Box::new(tree_view(*l)),
            Box::new(tree_view(*r)),
        ),
    }
}

impl DeepView for JoinFilters {
    type V = JoinFiltersView;

    open spec fn deep_view(&self) -> JoinFiltersView {
        tree_view(*self)
    }
}

impl Clone for Filter {
    /// Cloning keeps the leaf's mathematical image.
    fn clone(&self) -> (r: Self)
        ensures
            r.deep_view() == self.deep_view(),
    {
        Filter { field: self.field, kind: self.kind, value: self.value.clone() }
    }
}

impl Clone for JoinFilters {
    /// Cloning keeps the tree's mathematical image.
    fn clone(&self) -> (r: Self)
        ensures
            r.deep_view() == self.deep_view(),
        decreases self,
    {
        match self {
            JoinFilters::Filter(f) => JoinFilters::Filter(f.clone()),
            JoinFilters::And(l, r) => JoinFilters::And(
                Box::new((**l).clone()),
                Box::new((**r).clone()),
            ),
            JoinFilters::Or(l, r) => JoinFilters::Or(
                Box::new((**l).clone()),
                Box::new((**r).clone()),
            ),
        }
    }
}

/// The character sequence a field designates inside a record.
pub open spec fn field_value(u: UserView, field: Field) -> Seq<char> {
    match field {
        Field::Email => u.email,
        Field::Gender => u.gender,
        Field::PhoneNumber => u.phone_number,
        Field::LocationStreet => u.location.street,
        Field::LocationCity => u.location.city,
        Field::LocationState => u.location.state,
        Field::Username => u.username,
        Field::Password => u.password,
        Field::FirstName => u.first_name,
        Field::LastName => u.last_name,
        Field::Title => u.title,
        Field::Picture => u.picture,
    }
}

/// Whether one leaf comparison holds of a record.
pub open spec fn leaf_matches(f: FilterView, u: UserView) -> bool {
    let s = field_value(u, f.field);
    match f.kind {
        FilterKind::StrContains => has_substring(s, f.value),
        FilterKind::StrEquals => s == f.value,
        FilterKind::StrStartsWith => f.value.is_prefix_of(s),
        FilterKind::StrEndsWith => f.value.is_suffix_of(s),
    }
}

/// Whether a whole predicate tree holds of a record.
pub open spec fn tree_matches(t: JoinFiltersView, u: UserView) -> bool
    decreases t,
{
    match t {
        JoinFiltersView::Filter(f) => leaf_matches(f, u),
        JoinFiltersView::And(l, r) => tree_matches(*l, u) && tree_matches(*r, u),
        JoinFiltersView::Or(l, r) => tree_matches(*l, u) || tree_matches(*r, u),
    }
}

/// How many leaves a short-circuiting evaluation of the tree inspects.
pub open spec fn leaves_evaluated(t: JoinFiltersView, u: UserView) -> nat
    decreases t,
{
    match t {
        JoinFiltersView::Filter(_) => 1,
        JoinFiltersView::And(l, r) => if !tree_matches(*l, u) {
            leaves_evaluated(*l, u)
        } else {
            leaves_evaluated(*l, u) + leaves_evaluated(*r, u)
        },
        JoinFiltersView::Or(l, r) => if tree_matches(*l, u) {
            leaves_evaluated(*l, u)
        } else {
            leaves_evaluated(*l, u) + leaves_evaluated(*r, u)
        },
    }
}

/// The number of leaves of a tree.
pub open spec fn leaf_count(t: JoinFiltersView) -> nat
    decreases t,
{
    match t {
        JoinFiltersView::Filter(_) => 1,
        JoinFiltersView::And(l, r) => leaf_count(*l) + leaf_count(*r),
        JoinFiltersView::Or(l, r) => leaf_count(*l) + leaf_count(*r),
    }
}

/// The number of inner (`And` / `Or`) nodes of a tree.
pub open spec fn inner_count(t: JoinFiltersView) -> nat
    decreases t,
{
    match t {
        JoinFiltersView::Filter(_) => 0,
        JoinFiltersView::And(l, r) => 1 + inner_count(*l) + inner_count(*r),
        JoinFiltersView::Or(l, r) => 1 + inner_count(*l) + inner_count(*r),
    }
}

/// The subsequence of `users` the tree matches, in input order.
pub open spec fn matching_subsequence(t: JoinFiltersView, users: Seq<UserView>) -> Seq<UserView> {
    users.filter(|u: UserView| tree_matches(t, u))
}

/// `out` reads `users` at the positions `idx`, which increase strictly:
/// `out` is a subsequence of `users` in input order.
pub open spec fn picks_in_order(users: Seq<UserView>, idx: Seq<int>, out: Seq<UserView>) -> bool {
    &&& idx.len() == out.len()
    &&& forall|k: int|
        0 <= k < idx.len() ==> 0 <= #[trigger] idx[k] < users.len() && out[k] == users[idx[k]]
    &&& forall|k: int| 0 <= k < idx.len() - 1 ==> #[trigger] idx[k] < idx[k + 1]
}

/// Ordering: the kept subsequence is the input order restricted to the
/// retained records — some strictly increasing selection of positions
/// realises it.
pub proof fn lemma_matching_order(t: JoinFiltersView, users: Seq<UserView>)
    ensures
        exists|idx: Seq<int>| picks_in_order(users, idx, matching_subsequence(t, users)),
    decreases users.len(),
{
    reveal(Seq::filter);
    if users.len() == 0 {
        let idx = Seq::<int>::empty();
        assert(picks_in_order(users, idx, matching_subsequence(t, users)));
    } else {
        let prefix = users.drop_last();
        lemma_matching_order(t, prefix);
        let idx0 = choose|idx: Seq<int>| picks_in_order(prefix, idx, matching_subsequence(t, prefix));
        if tree_matches(t, users.last()) {
            let idx = idx0.push(users.len() - 1);
            assert(picks_in_order(users, idx, matching_subsequence(t, users)));
        } else {
            assert(picks_in_order(users, idx0, matching_subsequence(t, users)));
        }
    }
}

/// Trees that match the same records keep the same subsequence.
pub proof fn lemma_matching_congruence(t1: JoinFiltersView, t2: JoinFiltersView, users: Seq<UserView>)
    requires
        forall|u: UserView| tree_matches(t1, u) == tree_matches(t2, u),
    ensures
        matching_subsequence(t1, users) == matching_subsequence(t2, users),
    decreases users.len(),
{
    reveal(Seq::filter);
    if users.len() > 0 {
        lemma_matching_congruence(t1, t2, users.drop_last());
    }
}

/// Swapping the arms of an `Or` does not change which records are kept.
pub proof fn lemma_or_reorder(a: JoinFiltersView, b: JoinFiltersView, users: Seq<UserView>)
    ensures
        matching_subsequence(JoinFiltersView::Or(Box::new(a), Box::new(b)), users)
            == matching_subsequence(JoinFiltersView::Or(Box::new(b), Box::new(a)), users),
{
    lemma_matching_congruence(
        JoinFiltersView::Or(Box::new(a), Box::new(b)),
        JoinFiltersView::Or(Box::new(b), Box::new(a)),
        users,
    );
}

/// Swapping the arms of an `And` does not change which records are kept.
pub proof fn lemma_and_reorder(a: JoinFiltersView, b: JoinFiltersView, users: Seq<UserView>)
    ensures
        matching_subsequence(JoinFiltersView::And(Box::new(a), Box::new(b)), users)
            == matching_subsequence(JoinFiltersView::And(Box::new(b), Box::new(a)), users),
{
    lemma_matching_congruence(
        JoinFiltersView::And(Box::new(a), Box::new(b)),
        JoinFiltersView::And(Box::new(b), Box::new(a)),
        users,
    );
}

/// If no record matches, the kept subsequence is empty.
pub proof fn lemma_no_match_empty(t: JoinFiltersView, users: Seq<UserView>)
    requires
        forall|i: int| 0 <= i < users.len() ==> !tree_matches(t, #[trigger] users[i]),
    ensures
        matching_subsequence(t, users).len() == 0,
    decreases users.len(),
{
    reveal(Seq::filter);
    if users.len() > 0 {
        lemma_no_match_empty(t, users.drop_last());
    }
}

/// If every record matches, the kept subsequence is the input itself.
pub proof fn lemma_all_match_identity(t: JoinFiltersView, users: Seq<UserView>)
    requires
        forall|i: int| 0 <= i < users.len() ==> tree_matches(t, #[trigger] users[i]),
    ensures
        matching_subsequence(t, users) == users,
    decreases users.len(),
{
    reveal(Seq::filter);
    if users.len() > 0 {
        lemma_all_match_identity(t, users.drop_last());
        assert(matching_subsequence(t, users.drop_last()).push(users.last()) =~= users);
    }
}

/// A `StrContains` leaf with the empty literal matches every record.
pub proof fn lemma_empty_contains_matches(f: FilterView, u: UserView)
    requires
        f.kind is StrContains,
        f.value.len() == 0,
    ensures
        leaf_matches(f, u),
{
    crate::strops::lemma_empty_substring(field_value(u, f.field));
}

/// A `StrContains` leaf with the empty literal keeps every record: the
/// output is the input itself, whatever the field.
pub proof fn lemma_empty_contains_keeps_all(field: Field, users: Seq<UserView>)
    ensures
        matching_subsequence(
            JoinFiltersView::Filter(
                (FilterView { field, kind: FilterKind::StrContains, value: Seq::empty() }),
            ),
            users,
        ) == users,
{
    let t = JoinFiltersView::Filter(
        (FilterView { field, kind: FilterKind::StrContains, value: Seq::empty() }),
    );
    assert forall|i: int| 0 <= i < users.len() implies tree_matches(t, #[trigger] users[i]) by {
        lemma_empty_contains_matches(
            FilterView { field, kind: FilterKind::StrContains, value: Seq::empty() },
            users[i],
        );
    }
    lemma_all_match_identity(t, users);
}

/// Short-circuit: when the left arm of an `And` rejects a record, the
/// evaluation inspects the left arm's leaves alone — the right arm is not
/// looked at, so exchanging it for any other tree changes nothing.
pub proof fn lemma_and_short_circuit_evals(
    l: JoinFiltersView,
    r1: JoinFiltersView,
    r2: JoinFiltersView,
    u: UserView,
)
    requires
        !tree_matches(l, u),
    ensures
        leaves_evaluated(JoinFiltersView::And(Box::new(l), Box::new(r1)), u)
            == leaves_evaluated(l, u),
        leaves_evaluated(JoinFiltersView::And(Box::new(l), Box::new(r1)), u)
            == leaves_evaluated(JoinFiltersView::And(Box::new(l), Box::new(r2)), u),
{
}

/// Short-circuit: when the left arm of an `Or` accepts a record, the right
/// arm is not looked at.
pub proof fn lemma_or_short_circuit_evals(
    l: JoinFiltersView,
    r1: JoinFiltersView,
    r2: JoinFiltersView,
    u: UserView,
)
    requires
        tree_matches(l, u),
    ensures
        leaves_evaluated(JoinFiltersView::Or(Box::new(l), Box::new(r1)), u)
            == leaves_evaluated(l, u),
        leaves_evaluated(JoinFiltersView::Or(Box::new(l), Box::new(r1)), u)
            == leaves_evaluated(JoinFiltersView::Or(Box::new(l), Box::new(r2)), u),
{
}

/// A short-circuiting evaluation never inspects more leaves than the tree has.
pub proof fn lemma_leaves_evaluated_le_count(t: JoinFiltersView, u: UserView)
    ensures
        1 <= leaves_evaluated(t, u) <= leaf_count(t),
    decreases t,
{
    match t {
        JoinFiltersView::Filter(_) => {},
        JoinFiltersView::And(l, r) => {
            lemma_leaves_evaluated_le_count(*l, u);
            lemma_leaves_evaluated_le_count(*r, u);
        },
        JoinFiltersView::Or(l, r) => {
            lemma_leaves_evaluated_le_count(*l, u);
            lemma_leaves_evaluated_le_count(*r, u);
        },
    }
}

/// One leaf of the image tree.
pub open spec fn leaf_view(field: Field, kind: FilterKind, value: Seq<char>) -> JoinFiltersView {
    JoinFiltersView::Filter(FilterView { field, kind, value })
}

/// A tree `Or`'d with itself.
pub open spec fn or_pair(t: JoinFiltersView) -> JoinFiltersView {
    JoinFiltersView::Or(Box::new(t), Box::new(t))
}

/// The burner filter: one never-matching leaf, doubled five times into a
/// 32-leaf `Or` tree that wastes interpreter time and collapses under the
/// optimiser.
pub open spec fn burner_filter_view() -> JoinFiltersView {
    or_pair(
        or_pair(
            or_pair(
                or_pair(
                    or_pair(
                        leaf_view(Field::FirstName, FilterKind::StrStartsWith, "a long value"@),
                    ),
                ),
            ),
        ),
    )
}

/// Records whose email mentions the example domain or whose city is New
/// York, and who are female.
pub open spec fn complex_filter_1_view() -> JoinFiltersView {
    JoinFiltersView::And(
        Box::new(JoinFiltersView::Or(
            Box::new(leaf_view(Field::Email, FilterKind::StrContains, "example.com"@)),
            Box::new(leaf_view(Field::LocationCity, FilterKind::StrEquals, "New York"@)),
        )),
        Box::new(leaf_view(Field::Gender, FilterKind::StrEquals, "female"@)),
    )
}

/// Records with a `user_` username from a shire, or with a +123 phone prefix.
pub open spec fn complex_filter_2_view() -> JoinFiltersView {
    JoinFiltersView::Or(
        Box::new(JoinFiltersView::And(
            Box::new(leaf_view(Field::Username, FilterKind::StrStartsWith, "user_"@)),
            Box::new(leaf_view(Field::LocationState, FilterKind::StrEndsWith, "shire"@)),
        )),
        Box::new(leaf_view(Field::PhoneNumber, FilterKind::StrContains, "+123"@)),
    )
}

/// Johns named Doe, or doctors named John in London.
pub open spec fn complex_filter_3_view() -> JoinFiltersView {
    JoinFiltersView::And(
        Box::new(leaf_view(Field::FirstName, FilterKind::StrEquals, "John"@)),
        Box::new(JoinFiltersView::Or(
            Box::new(leaf_view(Field::LastName, FilterKind::StrEquals, "Doe"@)),
            Box::new(JoinFiltersView::And(
                Box::new(leaf_view(Field::LocationCity, FilterKind::StrEquals, "London"@)),
                Box::new(leaf_view(Field::Title, FilterKind::StrEquals, "Dr"@)),
            )),
        )),
    )
}

/// The whole demonstration filter: the burner tree `Or`'d with the three
/// complex filters.
pub open spec fn complex_filter_view() -> JoinFiltersView {
    JoinFiltersView::Or(
        Box::new(burner_filter_view()),
        Box::new(JoinFiltersView::Or(
            Box::new(JoinFiltersView::Or(
                Box::new(complex_filter_1_view()),
                Box::new(complex_filter_2_view()),
            )),
            Box::new(complex_filter_3_view()),
        )),
    )
}

/// Build the demonstration filter tree.
///
/// The burner filter is designed to fail on all records through many `Or`
/// arms, wasting interpreter time on purpose: a specialised build collapses
/// it, which is what makes the specialiser visibly faster.
pub fn build_complex_filter() -> (r: JoinFilters)
    ensures
        r.deep_view() == complex_filter_view(),
{
    let burner_filter = JoinFilters::Filter(Filter {
        field: Field::FirstName,
        kind: FilterKind::StrStartsWith,
        value: "a long value".to_owned(),
    });
    let burner_filter = JoinFilters::Or(
        Box::new(burner_filter.clone()),
        Box::new(burner_filter.clone()),
    );
    let burner_filter = JoinFilters::Or(
        Box::new(burner_filter.clone()),
        Box::new(burner_filter.clone()),
    );
    let burner_filter = JoinFilters::Or(
        Box::new(burner_filter.clone()),
        Box::new(burner_filter.clone()),
    );
    let burner_filter = JoinFilters::Or(
        Box::new(burner_filter.clone()),
        Box::new(burner_filter.clone()),
    );
    let burner_filter = JoinFilters::Or(
        Box::new(burner_filter.clone()),
        Box::new(burner_filter.clone()),
    );

    let complex_filter_1 = JoinFilters::And(
        Box::new(JoinFilters::Or(
            Box::new(JoinFilters::Filter(Filter {
                field: Field::Email,
                kind: FilterKind::StrContains,
                value: "example.com".to_owned(),
            })),
            Box::new(JoinFilters::Filter(Filter {
                field: Field::LocationCity,
                kind: FilterKind::StrEquals,
                value: "New York".to_owned(),
            })),
        )),
        Box::new(JoinFilters::Filter(Filter {
            field: Field::Gender,
            kind: FilterKind::StrEquals,
            value: "female".to_owned(),
        })),
    );

    let complex_filter_2 = JoinFilters::Or(
        Box::new(JoinFilters::And(
            Box::new(JoinFilters::Filter(Filter {
                field: Field::Username,
                kind: FilterKind::StrStartsWith,
                value: "user_".to_owned(),
            })),
            Box::new(JoinFilters::Filter(Filter {
                field: Field::LocationState,
                kind: FilterKind::StrEndsWith,
                value: "shire".to_owned(),
            })),
        )),
        Box::new(JoinFilters::Filter(Filter {
            field: Field::PhoneNumber,
            kind: FilterKind::StrContains,
            value: "+123".to_owned(),
        })),
    );

    let complex_filter_3 = JoinFilters::And(
        Box::new(JoinFilters::Filter(Filter {
            field: Field::FirstName,
            kind: FilterKind::StrEquals,
            value: "John".to_owned(),
        })),
        Box::new(JoinFilters::Or(
            Box::new(JoinFilters::Filter(Filter {
                field: Field::LastName,
                kind: FilterKind::StrEquals,
                value: "Doe".to_owned(),
            })),
            Box::new(JoinFilters::And(
                Box::new(JoinFilters::Filter(Filter {
                    field: Field::LocationCity,
                    kind: FilterKind::StrEquals,
                    value: "London".to_owned(),
                })),
                Box::new(JoinFilters::Filter(Filter {
                    field: Field::Title,
                    kind: FilterKind::StrEquals,
                    value: "Dr".to_owned(),
                })),
            )),
        )),
    );

    let complex_joined = JoinFilters::Or(
        Box::new(JoinFilters::Or(
            Box::new(complex_filter_1),
            Box::new(complex_filter_2),
        )),
        Box::new(complex_filter_3),
    );

    let r = JoinFilters::Or(Box::new(burner_filter), Box::new(complex_joined));
    proof {
        reveal_with_fuel(tree_view, 16);
    }
    r
}

} // verus!
