//! End-to-end scenarios over the reference interpreter.

use filter_jit::interpreted::{filter_vec_with_filters, run_filter, run_join_filters};
use filter_jit::records::{Location, User};
use filter_jit::{Field, Filter, FilterKind, JoinFilters};

fn user(
    email: &str,
    gender: &str,
    phone: &str,
    city: &str,
    state: &str,
    username: &str,
    first: &str,
    last: &str,
    title: &str,
) -> User {
    User {
        email: email.to_string(),
        gender: gender.to_string(),
        phone_number: phone.to_string(),
        birthdate: 0,
        location: Location {
            street: "1 Main St".to_string(),
            city: city.to_string(),
            state: state.to_string(),
            postcode: 12345,
        },
        username: username.to_string(),
        password: "pw".to_string(),
        first_name: first.to_string(),
        last_name: last.to_string(),
        title: title.to_string(),
        picture: "pic".to_string(),
    }
}

fn leaf(field: Field, kind: FilterKind, value: &str) -> JoinFilters {
    JoinFilters::Filter(Filter { field, kind, value: value.to_string() })
}

fn and(l: JoinFilters, r: JoinFilters) -> JoinFilters {
    JoinFilters::And(Box::new(l), Box::new(r))
}

fn or(l: JoinFilters, r: JoinFilters) -> JoinFilters {
    JoinFilters::Or(Box::new(l), Box::new(r))
}

fn emails(users: &[User]) -> Vec<String> {
    users.iter().map(|u| u.email.clone()).collect()
}

#[test]
fn scenario_empty_literal_contains_keeps_all() {
    let u1 = user("a@x.com", "male", "1", "Rome", "RM", "user_a", "Al", "Ma", "Mr");
    let u2 = user("b@y.com", "female", "2", "Pisa", "PI", "user_b", "Bo", "Na", "Ms");
    let filters = leaf(Field::Email, FilterKind::StrContains, "");
    let out = filter_vec_with_filters(&[u1, u2], &filters);
    assert_eq!(emails(&out), vec!["a@x.com".to_string(), "b@y.com".to_string()]);
}

#[test]
fn scenario_equality_on_gender() {
    let us = vec![
        user("u0@x.com", "male", "1", "A", "B", "u0", "F0", "L0", "T"),
        user("u1@x.com", "female", "1", "A", "B", "u1", "F1", "L1", "T"),
        user("u2@x.com", "female", "1", "A", "B", "u2", "F2", "L2", "T"),
        user("u3@x.com", "male", "1", "A", "B", "u3", "F3", "L3", "T"),
    ];
    let filters = leaf(Field::Gender, FilterKind::StrEquals, "female");
    let out = filter_vec_with_filters(&us, &filters);
    assert_eq!(emails(&out), vec!["u1@x.com".to_string(), "u2@x.com".to_string()]);
}

#[test]
fn scenario_conjunction_email_and_gender() {
    let us = vec![
        user("a@example.com", "female", "1", "A", "B", "u0", "F", "L", "T"),
        user("b@example.com", "male", "1", "A", "B", "u1", "F", "L", "T"),
        user("c@other.org", "female", "1", "A", "B", "u2", "F", "L", "T"),
        user("d@example.com", "female", "1", "A", "B", "u3", "F", "L", "T"),
    ];
    let filters = and(
        leaf(Field::Email, FilterKind::StrContains, "example.com"),
        leaf(Field::Gender, FilterKind::StrEquals, "female"),
    );
    let out = filter_vec_with_filters(&us, &filters);
    assert_eq!(
        emails(&out),
        vec!["a@example.com".to_string(), "d@example.com".to_string()]
    );
}

#[test]
fn scenario_nested_disjunction_short_circuit() {
    let us = vec![
        user("a@x.com", "male", "1", "A", "B", "u0", "Ann", "Doe", "T"),
        user("b@x.com", "male", "1", "A", "B", "u1", "Bob", "Ray", "T"),
        user("c@x.com", "male", "1", "A", "B", "u2", "Cy", "Doe", "T"),
    ];
    let filters = or(
        leaf(Field::FirstName, FilterKind::StrStartsWith, "a long value"),
        leaf(Field::LastName, FilterKind::StrEquals, "Doe"),
    );
    let out = filter_vec_with_filters(&us, &filters);
    assert_eq!(emails(&out), vec!["a@x.com".to_string(), "c@x.com".to_string()]);
}

#[test]
fn scenario_deep_or_tree_no_match() {
    let mut burner = leaf(Field::FirstName, FilterKind::StrStartsWith, "a long value");
    for _ in 0..5 {
        burner = or(burner.clone(), burner.clone());
    }
    let us = vec![
        user("a@x.com", "male", "1", "A", "B", "u0", "Ann", "Doe", "T"),
        user("b@x.com", "female", "1", "A", "B", "u1", "Bob", "Ray", "T"),
    ];
    let out = filter_vec_with_filters(&us, &burner);
    assert_eq!(out.len(), 0);
}

#[test]
fn scenario_three_level_mix_matches_by_hand() {
    // Or(Or(A, B), C) with
    //   A = And(Or(email ~ "example.com", city == "New York"), gender == "female")
    //   B = Or(And(username ^ "user_", state $ "shire"), phone ~ "+123")
    //   C = And(first == "John", Or(last == "Doe", And(city == "London", title == "Dr")))
    let a = and(
        or(
            leaf(Field::Email, FilterKind::StrContains, "example.com"),
            leaf(Field::LocationCity, FilterKind::StrEquals, "New York"),
        ),
        leaf(Field::Gender, FilterKind::StrEquals, "female"),
    );
    let b = or(
        and(
            leaf(Field::Username, FilterKind::StrStartsWith, "user_"),
            leaf(Field::LocationState, FilterKind::StrEndsWith, "shire"),
        ),
        leaf(Field::PhoneNumber, FilterKind::StrContains, "+123"),
    );
    let c = and(
        leaf(Field::FirstName, FilterKind::StrEquals, "John"),
        or(
            leaf(Field::LastName, FilterKind::StrEquals, "Doe"),
            and(
                leaf(Field::LocationCity, FilterKind::StrEquals, "London"),
                leaf(Field::Title, FilterKind::StrEquals, "Dr"),
            ),
        ),
    );
    let filters = or(or(a, b), c);
    let us = vec![
        // matches A: example.com email, female
        user("eva@example.com", "female", "555", "Rome", "RM", "eva", "Eva", "One", "Ms"),
        // matches B: user_ name from a shire
        user("li@x.com", "male", "555", "York", "Yorkshire", "user_li", "Li", "Two", "Mr"),
        // matches B: +123 phone
        user("po@x.com", "male", "+1234", "Oslo", "OS", "po", "Po", "Three", "Mr"),
        // matches C: John Doe
        user("jd@x.com", "male", "555", "Oslo", "OS", "jd", "John", "Doe", "Mr"),
        // matches C: Dr John of London
        user("dr@x.com", "male", "555", "London", "LN", "dr", "John", "Four", "Dr"),
        // matches nothing
        user("no@x.com", "male", "555", "Oslo", "OS", "no", "Nils", "Five", "Mr"),
        // female but no example.com email and not New York
        user("fa@y.org", "female", "555", "Oslo", "OS", "fa", "Fay", "Six", "Ms"),
        // New York female: matches A
        user("ny@y.org", "female", "555", "New York", "NY", "ny", "Nel", "Seven", "Ms"),
    ];
    let out = filter_vec_with_filters(&us, &filters);
    assert_eq!(
        emails(&out),
        vec![
            "eva@example.com".to_string(),
            "li@x.com".to_string(),
            "po@x.com".to_string(),
            "jd@x.com".to_string(),
            "dr@x.com".to_string(),
            "ny@y.org".to_string(),
        ]
    );
}

#[test]
fn run_filter_each_kind() {
    let u = user(
        "me@example.com",
        "female",
        "+123456",
        "New York",
        "Hampshire",
        "user_me",
        "John",
        "Doe",
        "Dr",
    );
    let yes = [
        Filter { field: Field::Email, kind: FilterKind::StrContains, value: "example".into() },
        Filter { field: Field::Gender, kind: FilterKind::StrEquals, value: "female".into() },
        Filter {
            field: Field::Username,
            kind: FilterKind::StrStartsWith,
            value: "user_".into(),
        },
        Filter {
            field: Field::LocationState,
            kind: FilterKind::StrEndsWith,
            value: "shire".into(),
        },
    ];
    for f in &yes {
        assert!(run_filter(&u, f));
    }
    let no = [
        Filter { field: Field::Email, kind: FilterKind::StrContains, value: "zzz".into() },
        Filter { field: Field::Gender, kind: FilterKind::StrEquals, value: "male".into() },
        Filter {
            field: Field::Username,
            kind: FilterKind::StrStartsWith,
            value: "admin".into(),
        },
        Filter {
            field: Field::LocationState,
            kind: FilterKind::StrEndsWith,
            value: "ford".into(),
        },
    ];
    for f in &no {
        assert!(!run_filter(&u, f));
    }
}

#[test]
fn equals_is_not_substring_match() {
    let u = user("x@x.com", "female", "1", "A", "B", "u", "F", "L", "T");
    let contains = Filter {
        field: Field::Gender,
        kind: FilterKind::StrContains,
        value: "male".to_string(),
    };
    let equals = Filter {
        field: Field::Gender,
        kind: FilterKind::StrEquals,
        value: "male".to_string(),
    };
    assert!(run_filter(&u, &contains)); // "female" contains "male"
    assert!(!run_filter(&u, &equals));
}

#[test]
fn comparisons_respect_character_boundaries() {
    // "\u{e9}" is C3 A9 in UTF-8 and "\u{a9}" is C2 A9: they share a byte,
    // but neither contains the other.
    let u = user(
        "caf\u{e9}@x.com",
        "female",
        "1",
        "Z\u{fc}rich",
        "B",
        "u",
        "\u{c9}lodie",
        "L",
        "T",
    );
    let contains_e_acute = Filter {
        field: Field::Email,
        kind: FilterKind::StrContains,
        value: "f\u{e9}@".to_string(),
    };
    assert!(run_filter(&u, &contains_e_acute));
    let contains_copyright = Filter {
        field: Field::Email,
        kind: FilterKind::StrContains,
        value: "\u{a9}".to_string(),
    };
    assert!(!run_filter(&u, &contains_copyright));
    let starts = Filter {
        field: Field::FirstName,
        kind: FilterKind::StrStartsWith,
        value: "\u{c9}lo".to_string(),
    };
    assert!(run_filter(&u, &starts));
    let ends = Filter {
        field: Field::LocationCity,
        kind: FilterKind::StrEndsWith,
        value: "\u{fc}rich".to_string(),
    };
    assert!(run_filter(&u, &ends));
    let eq = Filter {
        field: Field::Email,
        kind: FilterKind::StrEquals,
        value: "caf\u{e9}@x.com".to_string(),
    };
    assert!(run_filter(&u, &eq));
}

#[test]
fn join_filters_follow_boolean_structure() {
    let u = user("x@x.com", "female", "1", "A", "B", "u", "F", "L", "T");
    let t = leaf(Field::Gender, FilterKind::StrEquals, "female");
    let f = leaf(Field::Gender, FilterKind::StrEquals, "male");
    assert!(run_join_filters(&u, &and(t.clone(), t.clone())));
    assert!(!run_join_filters(&u, &and(t.clone(), f.clone())));
    assert!(!run_join_filters(&u, &and(f.clone(), t.clone())));
    assert!(run_join_filters(&u, &or(f.clone(), t.clone())));
    assert!(run_join_filters(&u, &or(t.clone(), f.clone())));
    assert!(!run_join_filters(&u, &or(f.clone(), f.clone())));
}
