//! The stable symbol names of the primitive library.
//!
//! Every leaf comparison lowers to two calls: the field's accessor and the
//! kind's comparator.  The mappings are closed — one symbol per field, one
//! per kind — and the synthesised module may reference them by name because
//! the linked primitive module defines them all.

use vstd::prelude::*;

use crate::{Field, FilterKind};

verus! {

/// The accessor symbol a field binds to.
pub open spec fn spec_field_accessor_symbol(field: Field) -> Seq<char> {
    match field {
        Field::Email => "user_get_field_email"@,
        Field::Gender => "user_get_field_gender"@,
        Field::PhoneNumber => "user_get_field_phone_number"@,
        Field::LocationStreet => "user_get_field_location_street"@,
        Field::LocationCity => "user_get_field_location_city"@,
        Field::LocationState => "user_get_field_location_state"@,
        Field::Username => "user_get_field_username"@,
        Field::Password => "user_get_field_password"@,
        Field::FirstName => "user_get_field_first_name"@,
        Field::LastName => "user_get_field_last_name"@,
        Field::Title => "user_get_field_title"@,
        Field::Picture => "user_get_field_picture"@,
    }
}

/// The comparator symbol a filter kind binds to.
pub open spec fn spec_comparator_symbol(kind: FilterKind) -> Seq<char> {
    match kind {
        FilterKind::StrContains => "filter_str_contains"@,
        FilterKind::StrEquals => "filter_str_equals"@,
        FilterKind::StrStartsWith => "filter_str_starts_with"@,
        FilterKind::StrEndsWith => "filter_str_ends_with"@,
    }
}

/// The accessor symbol to call for a field's value.
pub fn field_accessor_symbol(field: Field) -> (r: &'static str)
    ensures
        r@ == spec_field_accessor_symbol(field),
{
    match field {
        Field::Email => "user_get_field_email",
        Field::Gender => "user_get_field_gender",
        Field::PhoneNumber => "user_get_field_phone_number",
        Field::LocationStreet => "user_get_field_location_street",
        Field::LocationCity => "user_get_field_location_city",
        Field::LocationState => "user_get_field_location_state",
        Field::Username => "user_get_field_username",
        Field::Password => "user_get_field_password",
        Field::FirstName => "user_get_field_first_name",
        Field::LastName => "user_get_field_last_name",
        Field::Title => "user_get_field_title",
        Field::Picture => "user_get_field_picture",
    }
}

/// The comparator symbol to call for a filter kind.
pub fn comparator_symbol(kind: FilterKind) -> (r: &'static str)
    ensures
        r@ == spec_comparator_symbol(kind),
{
    match kind {
        FilterKind::StrContains => "filter_str_contains",
        FilterKind::StrEquals => "filter_str_equals",
        FilterKind::StrStartsWith => "filter_str_starts_with",
        FilterKind::StrEndsWith => "filter_str_ends_with",
    }
}

} // verus!
