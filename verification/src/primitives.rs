//! The service's data model: users, their preferences, the lenient enums,
//! the projection handed to clients, and the uniform response envelope.

use vstd::prelude::*;

use crate::strings::str_eq;

verus! {

/// The uniform response envelope every endpoint answers with. `data` holds
/// the JSON text of the payload.
pub struct GenericResponse {
    pub message: String,
    pub data: String,
    pub exited_code: u64,
}

#[allow(non_camel_case_types)]
#[derive(Clone, Copy, Debug, PartialEq, Eq, Structural)]
pub enum Genders {
    MALE,
    FEMALE,
    OTHER,
}

/// Lenient parsing: unrecognized input falls back to `OTHER`.
pub open spec fn gender_of(s: Seq<char>) -> Genders {
    if s == "MALE"@ {
        Genders::MALE
    } else if s == "FEMALE"@ {
        Genders::FEMALE
    } else {
        Genders::OTHER
    }
}

impl Genders {
    /// Never fails: anything unrecognized maps to the `OTHER` fallback.
    pub fn from_str(s: &str) -> (r: Result<Genders, ()>)
        ensures
            r == Ok::<Genders, ()>(gender_of(s@)),
    {
        if str_eq(s, "MALE") {
            Ok(Genders::MALE)
        } else if str_eq(s, "FEMALE") {
            Ok(Genders::FEMALE)
        } else {
            Ok(Genders::OTHER)
        }
    }
}

#[allow(non_camel_case_types)]
#[derive(Clone, Copy, Debug, PartialEq, Eq, Structural)]
pub enum Currencies {
    COP,
    USD,
    EUR,
}

/// Lenient parsing: unrecognized input falls back to `USD`.
pub open spec fn currency_of(s: Seq<char>) -> Currencies {
    if s == "COP"@ {
        Currencies::COP
    } else if s == "USD"@ {
        Currencies::USD
    } else if s == "EUR"@ {
        Currencies::EUR
    } else {
        Currencies::USD
    }
}

impl Currencies {
    /// Never fails: anything unrecognized maps to the `USD` fallback.
    pub fn from_str(s: &str) -> (r: Result<Currencies, ()>)
        ensures
            r == Ok::<Currencies, ()>(currency_of(s@)),
    {
        if str_eq(s, "COP") {
            Ok(Currencies::COP)
        } else if str_eq(s, "USD") {
            Ok(Currencies::USD)
        } else if str_eq(s, "EUR") {
            Ok(Currencies::EUR)
        } else {
            Ok(Currencies::USD)
        }
    }
}

#[verifier::ext_equal]
pub ghost struct PreferencesView {
    pub dark_mode: bool,
    pub language: Seq<char>,
    pub notifications: bool,
}

pub struct Preferences {
    pub dark_mode: bool,
    pub language: String,
    pub notifications: bool,
}

impl View for Preferences {
    type V = PreferencesView;

    open spec fn view(&self) -> PreferencesView {
        PreferencesView {
            dark_mode: self.dark_mode,
            language: self.language@,
            notifications: self.notifications,
        }
    }
}

/// What a fresh account starts with.
pub open spec fn default_preferences() -> PreferencesView {
    PreferencesView { dark_mode: false, language: "en"@, notifications: true }
}

impl Preferences {
    pub fn fresh() -> (r: Preferences)
        ensures
            r@ == default_preferences(),
    {
        Preferences { dark_mode: false, language: String::from_str("en"), notifications: true }
    }

    fn duplicate(&self) -> (r: Preferences)
        ensures
            r@ == self@,
    {
        Preferences {
            dark_mode: self.dark_mode,
            language: self.language.clone(),
            notifications: self.notifications,
        }
    }
}

#[verifier::ext_equal]
pub ghost struct UserView {
    pub id: u64,
    pub username: Seq<char>,
    pub email: Seq<char>,
    pub password: Seq<char>,
    pub backup_security_codes: Seq<Seq<char>>,
    pub currency: Currencies,
    pub gender: Genders,
    pub preferences: PreferencesView,
    pub created_at: u64,
}

/// A stored account. `password` holds the password's hash, never the
/// password; `backup_security_codes` holds hashes of backup codes.
pub struct User {
    pub id: u64,
    pub username: String,
    pub email: String,
    pub password: String,
    pub backup_security_codes: Vec<String>,
    pub currency: Currencies,
    pub gender: Genders,
    pub preferences: Preferences,
    pub created_at: u64,
}

impl View for User {
    type V = UserView;

    open spec fn view(&self) -> UserView {
        UserView {
            id: self.id,
            username: self.username@,
            email: self.email@,
            password: self.password@,
            backup_security_codes: Seq::new(
                self.backup_security_codes@.len(),
                |i: int| self.backup_security_codes@[i]@,
            ),
            currency: self.currency,
            gender: self.gender,
            preferences: self.preferences@,
            created_at: self.created_at,
        }
    }
}

impl User {
    /// A fresh value carrying the same account, field for field.
    pub fn duplicate(&self) -> (r: User)
        ensures
            r@ == self@,
    {
        let mut codes: Vec<String> = Vec::new();
        let mut i: usize = 0;
        while i < self.backup_security_codes.len()
            invariant
                0 <= i <= self.backup_security_codes@.len(),
                codes@.len() == i,
                forall|j: int|
                    0 <= j < i ==> codes@[j]@ == #[trigger] self.backup_security_codes@[j]@,
            decreases self.backup_security_codes@.len() - i,
        {
            codes.push(self.backup_security_codes[i].clone());
            i = i + 1;
        }
        let r = User {
            id: self.id,
            username: self.username.clone(),
            email: self.email.clone(),
            password: self.password.clone(),
            backup_security_codes: codes,
            currency: self.currency,
            gender: self.gender,
            preferences: self.preferences.duplicate(),
            created_at: self.created_at,
        };
        proof {
            assert(r@ =~= self@);
        }
        r
    }
}

#[verifier::ext_equal]
pub ghost struct UserSummaryView {
    pub id: u64,
    pub username: Seq<char>,
    pub email: Seq<char>,
    pub currency: Currencies,
    pub gender: Genders,
    pub preferences: PreferencesView,
    pub created_at: u64,
}

/// The projection of an account handed back to clients: everything but the
/// password hash and the backup-code hashes.
pub struct UserSummary {
    pub id: u64,
    pub username: String,
    pub email: String,
    pub currency: Currencies,
    pub gender: Genders,
    pub preferences: Preferences,
    pub created_at: u64,
}

impl View for UserSummary {
    type V = UserSummaryView;

    open spec fn view(&self) -> UserSummaryView {
        UserSummaryView {
            id: self.id,
            username: self.username@,
            email: self.email@,
            currency: self.currency,
            gender: self.gender,
            preferences: self.preferences@,
            created_at: self.created_at,
        }
    }
}

/// The projection of a stored account.
pub open spec fn summary_of(u: UserView) -> UserSummaryView {
    UserSummaryView {
        id: u.id,
        username: u.username,
        email: u.email,
        currency: u.currency,
        gender: u.gender,
        preferences: u.preferences,
        created_at: u.created_at,
    }
}

impl User {
    /// Project this account for a client: no password hash, no backup codes.
    pub fn summary(&self) -> (r: UserSummary)
        ensures
            r@ == summary_of(self@),
    {
        let r = UserSummary {
            id: self.id,
            username: self.username.clone(),
            email: self.email.clone(),
            currency: self.currency,
            gender: self.gender,
            preferences: self.preferences.duplicate(),
            created_at: self.created_at,
        };
        proof {
            assert(r@ =~= summary_of(self@));
        }
        r
    }
}

} // verus!
