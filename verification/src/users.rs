//! Account registration: the field validation rules and the create-account
//! flow. Validation is advisory; the credential store's own insert is the
//! final arbiter of identifier uniqueness.

use vstd::prelude::*;

use crate::credential_store::{identifier_taken, ids_assigned, unique_identifiers, with_id, CredentialStore};
use crate::hashing::{bcrypt_checkable, bcrypt_matches, hash_password};
use crate::primitives::{default_preferences, Preferences, User};
use crate::requests_interfaces::SignUp;
use crate::strings::{is_email, is_word_char, check_email, word_char, lower_of, lowercase, str_eq};

verus! {

/// Why a registration was refused.
#[derive(Clone, Copy, Debug, PartialEq, Eq, Structural)]
pub enum RegisterError {
    UsernameLength,
    EmailLength,
    PasswordLength,
    UsernameChars,
    EmailFormat,
    PasswordChars,
    PasswordMismatch,
    UsernameIsPassword,
    Taken,
    Hashing,
}

pub open spec fn register_error_message(e: RegisterError) -> Seq<char> {
    match e {
        RegisterError::UsernameLength => "invalid username, must be at least 2 characters and at most 15"@,
        RegisterError::EmailLength => "invalid email, must be at least 5 characters and at most 100"@,
        RegisterError::PasswordLength => "invalid password, must be at least 8 characters"@,
        RegisterError::UsernameChars => "invalid username"@,
        RegisterError::EmailFormat => "invalid email"@,
        RegisterError::PasswordChars => "invalid password"@,
        RegisterError::PasswordMismatch => "password and password confirmation must match"@,
        RegisterError::UsernameIsPassword => "username and password must be different"@,
        RegisterError::Taken => "username or email already taken"@,
        RegisterError::Hashing => "error hashing password"@,
    }
}

impl RegisterError {
    /// The message the envelope carries for this refusal.
    pub fn message(&self) -> (r: String)
        ensures
            r@ == register_error_message(*self),
    {
        match self {
            RegisterError::UsernameLength => String::from_str(
                "invalid username, must be at least 2 characters and at most 15",
            ),
            RegisterError::EmailLength => String::from_str(
                "invalid email, must be at least 5 characters and at most 100",
            ),
            RegisterError::PasswordLength => String::from_str(
                "invalid password, must be at least 8 characters",
            ),
            RegisterError::UsernameChars => String::from_str("invalid username"),
            RegisterError::EmailFormat => String::from_str("invalid email"),
            RegisterError::PasswordChars => String::from_str("invalid password"),
            RegisterError::PasswordMismatch => String::from_str(
                "password and password confirmation must match",
            ),
            RegisterError::UsernameIsPassword => String::from_str(
                "username and password must be different",
            ),
            RegisterError::Taken => String::from_str("username or email already taken"),
            RegisterError::Hashing => String::from_str("error hashing password"),
        }
    }

    /// The HTTP status the refusal is reported with: 500 for a hashing
    /// failure, 400 for everything the client sent wrong.
    pub fn status(&self) -> (r: u16)
        ensures
            r == (if *self is Hashing {
                500u16
            } else {
                400u16
            }),
    {
        match self {
            RegisterError::Hashing => 500,
            _ => 400,
        }
    }
}

/// A username: two to fifteen letters, digits or underscores.
pub open spec fn valid_username(s: Seq<char>) -> bool {
    &&& 2 <= s.len() <= 15
    &&& forall|i: int| #![trigger s[i]] 0 <= i < s.len() ==> is_word_char(s[i])
}

/// A password: eight to twenty letters, digits or underscores.
pub open spec fn valid_password_chars(s: Seq<char>) -> bool {
    &&& 8 <= s.len() <= 20
    &&& forall|i: int| #![trigger s[i]] 0 <= i < s.len() ==> is_word_char(s[i])
}

fn all_word_chars(s: &str) -> (r: bool)
    ensures
        r == (forall|i: int| #![trigger s@[i]] 0 <= i < s@.len() ==> is_word_char(s@[i])),
{
    let n = s.unicode_len();
    let mut i: usize = 0;
    while i < n
        invariant
            0 <= i <= n,
            n == s@.len(),
            forall|j: int| #![trigger s@[j]] 0 <= j < i ==> is_word_char(s@[j]),
        decreases n - i,
    {
        let c = s.get_char(i);
        if !word_char(c) {
            return false;
        }
        i = i + 1;
    }
    true
}

/// The first rule a sign-up payload breaks, in the order the rules are
/// checked; `None` when it is acceptable.
pub open spec fn validation_of(
    username: Seq<char>,
    email: Seq<char>,
    password: Seq<char>,
    confirmation: Seq<char>,
) -> Option<RegisterError> {
    if !(2 <= username.len() <= 15) {
        Some(RegisterError::UsernameLength)
    } else if !(5 <= email.len() <= 100) {
        Some(RegisterError::EmailLength)
    } else if !(8 <= password.len() <= 100) {
        Some(RegisterError::PasswordLength)
    } else if !valid_username(username) {
        Some(RegisterError::UsernameChars)
    } else if !is_email(email) {
        Some(RegisterError::EmailFormat)
    } else if !valid_password_chars(password) {
        Some(RegisterError::PasswordChars)
    } else if password != confirmation {
        Some(RegisterError::PasswordMismatch)
    } else if lower_of(username) == lower_of(password) {
        Some(RegisterError::UsernameIsPassword)
    } else {
        None
    }
}

/// Check a sign-up payload against every field rule.
pub fn validate_sign_up(payload: &SignUp) -> (r: Option<RegisterError>)
    ensures
        r == validation_of(
            payload.username@,
            payload.email@,
            payload.password@,
            payload.password_confirmation@,
        ),
{
    let ulen = payload.username.as_str().unicode_len();
    if ulen < 2 || ulen > 15 {
        return Some(RegisterError::UsernameLength);
    }
    let elen = payload.email.as_str().unicode_len();
    if elen < 5 || elen > 100 {
        return Some(RegisterError::EmailLength);
    }
    let plen = payload.password.as_str().unicode_len();
    if plen < 8 || plen > 100 {
        return Some(RegisterError::PasswordLength);
    }
    if !all_word_chars(payload.username.as_str()) {
        return Some(RegisterError::UsernameChars);
    }
    if !check_email(payload.email.as_str()) {
        return Some(RegisterError::EmailFormat);
    }
    if plen > 20 || !all_word_chars(payload.password.as_str()) {
        return Some(RegisterError::PasswordChars);
    }
    if !str_eq(payload.password.as_str(), payload.password_confirmation.as_str()) {
        return Some(RegisterError::PasswordMismatch);
    }
    let lu = lowercase(payload.username.as_str());
    let lp = lowercase(payload.password.as_str());
    if str_eq(lu.as_str(), lp.as_str()) {
        return Some(RegisterError::UsernameIsPassword);
    }
    None
}

/// Register a new account: validate the payload, refuse a taken username
/// or email, hash the password, and let the store assign the identifier.
/// Usernames and emails are stored lower-cased.
pub fn create_account(store: &mut CredentialStore, payload: &SignUp, now: u64) -> (r: Result<
    User,
    RegisterError,
>)
    requires
        old(store)@.len() < u64::MAX,
        unique_identifiers(old(store)@),
        ids_assigned(old(store)@),
    ensures
        unique_identifiers(final(store)@),
        ids_assigned(final(store)@),
        validation_of(
            payload.username@,
            payload.email@,
            payload.password@,
            payload.password_confirmation@,
        ) matches Some(e) ==> r == Err::<User, RegisterError>(e) && final(store)@ == old(store)@,
        validation_of(
            payload.username@,
            payload.email@,
            payload.password@,
            payload.password_confirmation@,
        ) is None && identifier_taken(
            old(store)@,
            lower_of(payload.username@),
            lower_of(payload.email@),
        ) ==> r == Err::<User, RegisterError>(RegisterError::Taken) && final(store)@ == old(store)@,
        validation_of(
            payload.username@,
            payload.email@,
            payload.password@,
            payload.password_confirmation@,
        ) is None && !identifier_taken(
            old(store)@,
            lower_of(payload.username@),
            lower_of(payload.email@),
        ) ==> (r matches Ok(u) ==> u@.id == old(store)@.len() + 1 && u@.username == lower_of(
            payload.username@,
        ) && u@.email == lower_of(payload.email@) && bcrypt_matches(u@.password, payload.password@)
            && u@.backup_security_codes == Seq::<Seq<char>>::empty() && u@.currency
            == payload.currency && u@.gender == payload.gender && u@.preferences
            == default_preferences() && u@.created_at == now && final(store)@ == old(store)@.push(
            u@,
        )) && (r is Err ==> r == Err::<User, RegisterError>(RegisterError::Hashing)
            && final(store)@ == old(store)@),
{
    if let Some(e) = validate_sign_up(payload) {
        return Err(e);
    }
    let username = lowercase(payload.username.as_str());
    let email = lowercase(payload.email.as_str());
    if store.is_taken(username.as_str(), email.as_str()) {
        return Err(RegisterError::Taken);
    }
    let hashed = match hash_password(payload.password.as_str()) {
        Ok(h) => h,
        Err(_) => {
            return Err(RegisterError::Hashing);
        },
    };
    let fresh = User {
        id: 0,
        username,
        email,
        password: hashed,
        backup_security_codes: Vec::new(),
        currency: payload.currency,
        gender: payload.gender,
        preferences: Preferences::fresh(),
        created_at: now,
    };
    let keeper = fresh.duplicate();
    let ghost fresh_view = fresh@;
    match store.insert(fresh) {
        Ok(id) => {
            let out = User {
                id,
                username: keeper.username,
                email: keeper.email,
                password: keeper.password,
                backup_security_codes: keeper.backup_security_codes,
                currency: keeper.currency,
                gender: keeper.gender,
                preferences: keeper.preferences,
                created_at: keeper.created_at,
            };
            proof {
                assert(out@ =~= with_id(fresh_view, id));
                assert(out@.backup_security_codes =~= Seq::<Seq<char>>::empty());
            }
            Ok(out)
        },
        Err(_) => Err(RegisterError::Taken),
    }
}

} // verus!
