//! The lowered plans: equivalence with the interpreter, short-circuit
//! behaviour, determinism, and plan shape.

use filter_jit::build_complex_filter;
use filter_jit::interpreted::{filter_vec_with_filters, run_join_filters_counted};
use filter_jit::jit::build_fn::{build_filter_fn, run_plan, Block};
use filter_jit::jit::build_module;
use filter_jit::records::{Location, User};
use filter_jit::{Field, Filter, FilterKind, JoinFilters};

fn user(
    email: &str,
    gender: &str,
    phone: &str,
    city: &str,
    state: &str,
    username: &str,
    first: &str,
    last: &str,
    title: &str,
) -> User {
    User {
        email: email.to_string(),
        gender: gender.to_string(),
        phone_number: phone.to_string(),
        birthdate: 0,
        location: Location {
            street: "1 Main St".to_string(),
            city: city.to_string(),
            state: state.to_string(),
            postcode: 12345,
        },
        username: username.to_string(),
        password: "pw".to_string(),
        first_name: first.to_string(),
        last_name: last.to_string(),
        title: title.to_string(),
        picture: "pic".to_string(),
    }
}

fn leaf(field: Field, kind: FilterKind, value: &str) -> JoinFilters {
    JoinFilters::Filter(Filter { field, kind, value: value.to_string() })
}

fn and(l: JoinFilters, r: JoinFilters) -> JoinFilters {
    JoinFilters::And(Box::new(l), Box::new(r))
}

fn or(l: JoinFilters, r: JoinFilters) -> JoinFilters {
    JoinFilters::Or(Box::new(l), Box::new(r))
}

fn emails(users: &[User]) -> Vec<String> {
    users.iter().map(|u| u.email.clone()).collect()
}

fn sample_users() -> Vec<User> {
    vec![
        user("eva@example.com", "female", "555", "Rome", "RM", "eva", "Eva", "One", "Ms"),
        user("li@x.com", "male", "555", "York", "Yorkshire", "user_li", "Li", "Two", "Mr"),
        user("po@x.com", "male", "+1234", "Oslo", "OS", "po", "Po", "Three", "Mr"),
        user("jd@x.com", "male", "555", "Oslo", "OS", "jd", "John", "Doe", "Mr"),
        user("dr@x.com", "male", "555", "London", "LN", "dr", "John", "Four", "Dr"),
        user("no@x.com", "male", "555", "Oslo", "OS", "no", "Nils", "Five", "Mr"),
        user("fa@y.org", "female", "555", "Oslo", "OS", "fa", "Fay", "Six", "Ms"),
        user("ny@y.org", "female", "555", "New York", "NY", "ny", "Nel", "Seven", "Ms"),
    ]
}

#[test]
fn jit_equals_interpreter_on_complex_filter() {
    let users = sample_users();
    let filters = build_complex_filter();
    let interpreted = filter_vec_with_filters(&users, &filters);
    let jit_fn = build_module(&filters);
    let jitted = jit_fn.execute(&users);
    assert_eq!(emails(&interpreted), emails(&jitted));
    // The complex filter keeps Eva (A), Li and Po (B), John Doe and Dr
    // John (C), and Nel of New York (A).
    assert_eq!(
        emails(&jitted),
        vec![
            "eva@example.com".to_string(),
            "li@x.com".to_string(),
            "po@x.com".to_string(),
            "jd@x.com".to_string(),
            "dr@x.com".to_string(),
            "ny@y.org".to_string(),
        ]
    );
}

#[test]
fn jit_equals_interpreter_on_single_leaves() {
    let users = sample_users();
    let kinds = [
        (Field::Email, FilterKind::StrContains, "example"),
        (Field::Gender, FilterKind::StrEquals, "female"),
        (Field::Username, FilterKind::StrStartsWith, "user_"),
        (Field::LocationState, FilterKind::StrEndsWith, "shire"),
        (Field::Email, FilterKind::StrContains, ""),
        (Field::Title, FilterKind::StrEquals, "nobody"),
    ];
    for (field, kind, value) in kinds {
        let filters = leaf(field, kind, value);
        let interpreted = filter_vec_with_filters(&users, &filters);
        let jitted = build_module(&filters).execute(&users);
        assert_eq!(emails(&interpreted), emails(&jitted));
    }
}

#[test]
fn jit_all_match_identity() {
    let users = sample_users();
    let filters = leaf(Field::Email, FilterKind::StrContains, "");
    let jitted = build_module(&filters).execute(&users);
    assert_eq!(emails(&jitted), emails(&users));
}

#[test]
fn jit_no_match_empty_deep_or() {
    let mut burner = leaf(Field::FirstName, FilterKind::StrStartsWith, "a long value");
    for _ in 0..5 {
        burner = or(burner.clone(), burner.clone());
    }
    let users = sample_users();
    let jitted = build_module(&burner).execute(&users);
    assert_eq!(jitted.len(), 0);
}

#[test]
fn jit_execute_is_deterministic() {
    let users = sample_users();
    let jit_fn = build_module(&build_complex_filter());
    let out1 = jit_fn.execute(&users);
    let out2 = jit_fn.execute(&users);
    assert_eq!(emails(&out1), emails(&out2));
}

#[test]
fn or_reordering_keeps_output() {
    let users = sample_users();
    let a = leaf(Field::Gender, FilterKind::StrEquals, "female");
    let b = leaf(Field::LastName, FilterKind::StrEquals, "Doe");
    let out_ab = build_module(&or(a.clone(), b.clone())).execute(&users);
    let out_ba = build_module(&or(b, a)).execute(&users);
    assert_eq!(emails(&out_ab), emails(&out_ba));
}

#[test]
fn reordering_leaves_sharing_a_literal_keeps_output() {
    let users = sample_users();
    let a = leaf(Field::Email, FilterKind::StrContains, "o");
    let b = leaf(Field::Username, FilterKind::StrContains, "o");
    let out_ab = build_module(&or(a.clone(), b.clone())).execute(&users);
    let out_ba = build_module(&or(b.clone(), a.clone())).execute(&users);
    assert_eq!(emails(&out_ab), emails(&out_ba));

    // Each leaf still emits its own constant: no deduplication happens at
    // the builder, the optimiser may merge them later.
    let plan = build_filter_fn(&or(a, b));
    assert_eq!(plan.literals, vec!["o".to_string(), "o".to_string()]);
}

#[test]
fn plan_shape_counts_blocks_and_literals() {
    // entry + fail + success, one middle block per inner node, one literal
    // per leaf.
    let filters = build_complex_filter();
    let plan = build_filter_fn(&filters);
    assert_eq!(plan.literals.len(), 42);
    assert_eq!(plan.blocks.len(), 3 + 41);
    // fail and success blocks as laid down
    assert!(matches!(plan.blocks[1], Block::Ret(false)));
    assert!(matches!(plan.blocks[2], Block::Ret(true)));
}

#[test]
fn plan_literals_in_emission_order() {
    let filters = and(
        leaf(Field::Email, FilterKind::StrContains, "one"),
        or(
            leaf(Field::Gender, FilterKind::StrEquals, "two"),
            leaf(Field::Title, FilterKind::StrEquals, "three"),
        ),
    );
    let plan = build_filter_fn(&filters);
    assert_eq!(
        plan.literals,
        vec!["one".to_string(), "two".to_string(), "three".to_string()]
    );
    // every branch block names a literal equal to its own leaf's
    for b in &plan.blocks {
        if let Block::Branch { leaf, lit, .. } = b {
            assert_eq!(plan.literals[*lit], leaf.value);
        }
    }
}

#[test]
fn run_plan_single_record() {
    let filters = and(
        leaf(Field::FirstName, FilterKind::StrEquals, "John"),
        leaf(Field::LastName, FilterKind::StrEquals, "Doe"),
    );
    let plan = build_filter_fn(&filters);
    let jd = user("jd@x.com", "male", "555", "Oslo", "OS", "jd", "John", "Doe", "Mr");
    let dr = user("dr@x.com", "male", "555", "London", "LN", "dr", "John", "Four", "Dr");
    assert!(run_plan(&plan, &jd));
    assert!(!run_plan(&plan, &dr));
}

#[test]
fn counted_interpreter_short_circuits_and() {
    let never = leaf(Field::Gender, FilterKind::StrEquals, "nobody");
    let always = leaf(Field::Email, FilterKind::StrContains, "");
    let u = user("a@x.com", "female", "1", "A", "B", "u", "F", "L", "T");

    // And(false, X): X's comparison never runs, whatever X is.
    let mut count: u64 = 0;
    let r = run_join_filters_counted(&u, &and(never.clone(), always.clone()), &mut count);
    assert!(!r);
    assert_eq!(count, 1);
    let mut count2: u64 = 0;
    let wide = or(always.clone(), always.clone());
    let r2 = run_join_filters_counted(&u, &and(never.clone(), wide), &mut count2);
    assert!(!r2);
    assert_eq!(count2, 1);

    // Or(true, X): X's comparison never runs either.
    let mut count3: u64 = 0;
    let r3 = run_join_filters_counted(&u, &or(always.clone(), never.clone()), &mut count3);
    assert!(r3);
    assert_eq!(count3, 1);

    // And(true, X) runs X.
    let mut count4: u64 = 0;
    let r4 = run_join_filters_counted(&u, &and(always, never), &mut count4);
    assert!(!r4);
    assert_eq!(count4, 2);
}

#[test]
fn counted_interpreter_on_burner() {
    // The burner tree inspects all 32 leaves on a non-matching record.
    let mut burner = leaf(Field::FirstName, FilterKind::StrStartsWith, "a long value");
    for _ in 0..5 {
        burner = or(burner.clone(), burner.clone());
    }
    let u = user("a@x.com", "female", "1", "A", "B", "u", "F", "L", "T");
    let mut count: u64 = 0;
    let r = run_join_filters_counted(&u, &burner, &mut count);
    assert!(!r);
    assert_eq!(count, 32);
}
