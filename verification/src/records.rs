//! The fixed record schema that filters run over.

use vstd::prelude::*;

verus! {

/// A postal location inside a record.
#[derive(Debug)]
pub struct Location {
    pub street: String,
    pub city: String,
    pub state: String,
    pub postcode: u32,
}

/// A record with named string fields; the schema is fixed.
#[derive(Debug)]
pub struct User {
    pub email: String,
    pub gender: String,
    pub phone_number: String,
    pub birthdate: u64,
    pub location: Location,
    pub username: String,
    pub password: String,
    pub first_name: String,
    pub last_name: String,
    pub title: String,
    pub picture: String,
}

/// Mathematical image of a [`Location`].
pub struct LocationView {
    pub street: Seq<char>,
    pub city: Seq<char>,
    pub state: Seq<char>,
    pub postcode: u32,
}

/// Mathematical image of a [`User`]: every string field as a character sequence.
pub struct UserView {
    pub email: Seq<char>,
    pub gender: Seq<char>,
    pub phone_number: Seq<char>,
    pub birthdate: u64,
    pub location: LocationView,
    pub username: Seq<char>,
    pub password: Seq<char>,
    pub first_name: Seq<char>,
    pub last_name: Seq<char>,
    pub title: Seq<char>,
    pub picture: Seq<char>,
}

impl DeepView for Location {
    type V = LocationView;

    open spec fn deep_view(&self) -> LocationView {
        LocationView {
            street: self.street@,
            city: self.city@,
            state: self.state@,
            postcode: self.postcode,
        }
    }
}

impl DeepView for User {
    type V = UserView;

    open spec fn deep_view(&self) -> UserView {
        UserView {
            email: self.email@,
            gender: self.gender@,
            phone_number: self.phone_number@,
            birthdate: self.birthdate,
            location: self.location.deep_view(),
            username: self.username@,
            password: self.password@,
            first_name: self.first_name@,
            last_name: self.last_name@,
            title: self.title@,
            picture: self.picture@,
        }
    }
}

impl Clone for Location {
    /// Cloning keeps the location's mathematical image.
    fn clone(&self) -> (r: Self)
        ensures
            r.deep_view() == self.deep_view(),
    {
        Location {
            street: self.street.clone(),
            city: self.city.clone(),
            state: self.state.clone(),
            postcode: self.postcode,
        }
    }
}

impl Clone for User {
    /// Cloning keeps the record's mathematical image.
    fn clone(&self) -> (r: Self)
        ensures
            r.deep_view() == self.deep_view(),
    {
        User {
            email: self.email.clone(),
            gender: self.gender.clone(),
            phone_number: self.phone_number.clone(),
            birthdate: self.birthdate,
            location: self.location.clone(),
            username: self.username.clone(),
            password: self.password.clone(),
            first_name: self.first_name.clone(),
            last_name: self.last_name.clone(),
            title: self.title.clone(),
            picture: self.picture.clone(),
        }
    }
}

} // verus!
