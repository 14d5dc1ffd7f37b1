//! The request bodies the service accepts.

use vstd::prelude::*;

use crate::primitives::{Currencies, Genders};

verus! {

/// Body of a sign-in request.
pub struct SignIn {
    pub username_or_email: String,
    pub password: String,
}

/// Body of an account-creation request.
pub struct SignUp {
    pub name: String,
    pub username: String,
    pub email: String,
    pub password: String,
    pub password_confirmation: String,
    pub currency: Currencies,
    pub gender: Genders,
}

} // verus!
