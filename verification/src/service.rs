//! Sign-in and session lookup, orchestrating the credential store, the
//! password hasher, the token codec and the session store. A sign-in
//! failure is one generic error whatever its cause, so responses do not
//! reveal whether an identifier is registered.

use vstd::prelude::*;

use crate::credential_store::{ids_assigned, lemma_member_found_by_id, spec_find, spec_find_id, CredentialStore};
use crate::hashing::{bcrypt_checkable, bcrypt_matches, verify_password};
use crate::primitives::{summary_of, GenericResponse, UserSummary, UserSummaryView, UserView};
use crate::requests_interfaces::SignIn;
use crate::session_store::{live_get, spec_get, SessionEntryView, SessionStore};
use crate::strings::lower_of;
use crate::token::{claims_for, issue, lemma_issue_round_trip, token_of, verify, verify_outcome};

verus! {

/// Why the service refused a request.
#[derive(Clone, Copy, Debug, PartialEq, Eq, Structural)]
pub enum AuthError {
    /// Sign-in failed; deliberately silent on whether the identifier exists.
    InvalidCredentials,
    /// Missing, invalid, expired or revoked token.
    Unauthorized,
    /// Hashing or store trouble; nothing about the request itself.
    Internal,
}

pub open spec fn auth_error_message(e: AuthError) -> Seq<char> {
    match e {
        AuthError::InvalidCredentials => "invalid credentials"@,
        AuthError::Unauthorized => "unauthorized"@,
        AuthError::Internal => "internal server error"@,
    }
}

pub open spec fn auth_error_status(e: AuthError) -> u16 {
    match e {
        AuthError::InvalidCredentials => 400u16,
        AuthError::Unauthorized => 401u16,
        AuthError::Internal => 500u16,
    }
}

impl AuthError {
    /// The HTTP status this error is reported with.
    pub fn status(&self) -> (r: u16)
        ensures
            r == auth_error_status(*self),
    {
        match self {
            AuthError::InvalidCredentials => 400,
            AuthError::Unauthorized => 401,
            AuthError::Internal => 500,
        }
    }

    /// The uniform envelope for this error. The body depends on the error
    /// value alone, never on what caused it.
    pub fn response(&self) -> (r: GenericResponse)
        ensures
            r.message@ == auth_error_message(*self),
            r.data@ == "{}"@,
            r.exited_code == 1,
    {
        let message = match self {
            AuthError::InvalidCredentials => String::from_str("invalid credentials"),
            AuthError::Unauthorized => String::from_str("unauthorized"),
            AuthError::Internal => String::from_str("internal server error"),
        };
        GenericResponse { message, data: String::from_str("{}"), exited_code: 1 }
    }
}

/// The envelope for a request to no known endpoint.
pub fn fallback(path: &str) -> (r: (u16, GenericResponse))
    ensures
        r.0 == 404,
        r.1.message@ == "invalid endpoint: "@ + path@,
        r.1.data@ == "{}"@,
        r.1.exited_code == 1,
{
    let mut message = String::from_str("invalid endpoint: ");
    message.append(path);
    (404u16, GenericResponse { message, data: String::from_str("{}"), exited_code: 1 })
}

/// The envelope for a request body that did not deserialize: the client's
/// fault, reported as a validation failure.
pub fn invalid_payload(detail: &str) -> (r: (u16, GenericResponse))
    ensures
        r.0 == 400,
        r.1.message@ == "invalid payload: "@ + detail@,
        r.1.data@ == "{}"@,
        r.1.exited_code == 1,
{
    let mut message = String::from_str("invalid payload: ");
    message.append(detail);
    (400u16, GenericResponse { message, data: String::from_str("{}"), exited_code: 1 })
}

/// What a successful sign-in hands back: the bearer token and the caller's
/// own projection.
pub struct SignInOutcome {
    pub token: String,
    pub user: UserSummary,
}

/// Whether a sign-in request names a stored account and its password: the
/// decision `request_credentials` acts on once the hash comparison is in.
pub open spec fn credentials_accepted(
    users: Seq<UserView>,
    ident: Seq<char>,
    password: Seq<char>,
) -> Option<UserView> {
    match spec_find(users, lower_of(ident)) {
        None => None,
        Some(u) => if bcrypt_matches(u.password, password) {
            Some(u)
        } else {
            None
        },
    }
}

/// The outcome `get_session` is bound to: the caller's projection exactly
/// when the token verifies cryptographically, a live session record still
/// holds it, the record agrees with the token's subject, and that subject
/// is a stored account; `Unauthorized` otherwise.
pub open spec fn session_outcome(
    users: Seq<UserView>,
    sessions: Seq<SessionEntryView>,
    key: Seq<u8>,
    token: Seq<char>,
    now: u64,
) -> Result<UserSummaryView, AuthError> {
    match verify_outcome(token, key, now) {
        Err(_) => Err(AuthError::Unauthorized),
        Ok(claims) => match live_get(sessions, token, now) {
            None => Err(AuthError::Unauthorized),
            Some(uid) => if claims.subject != uid {
                Err(AuthError::Unauthorized)
            } else {
                match spec_find_id(users, uid) {
                    None => Err(AuthError::Unauthorized),
                    Some(u) => Ok(summary_of(u)),
                }
            },
        },
    }
}

/// The authentication core: stores, signing key and token lifetime, built
/// once and passed where it is needed.
pub struct AuthService {
    pub users: CredentialStore,
    pub sessions: SessionStore,
    pub key: Vec<u8>,
    pub ttl: u64,
}

impl AuthService {
    pub fn new(key: Vec<u8>, ttl: u64) -> (r: AuthService)
        ensures
            r.users@ =~= Seq::<UserView>::empty(),
            r.sessions@ =~= Seq::<SessionEntryView>::empty(),
            r.key@ == key@,
            r.ttl == ttl,
    {
        AuthService {
            users: CredentialStore::new(),
            sessions: SessionStore::new(),
            key,
            ttl,
        }
    }

    /// Sign a client in: look the identifier up, check the password, and on
    /// success issue a token and record the session. Unknown identifier and
    /// wrong password collapse into the same `InvalidCredentials` value.
    pub fn request_credentials(&mut self, credentials: &SignIn, now: u64) -> (r: Result<
        SignInOutcome,
        AuthError,
    >)
        requires
            now + old(self).ttl <= u64::MAX,
        ensures
            final(self).users@ == old(self).users@,
            final(self).key@ == old(self).key@,
            final(self).ttl == old(self).ttl,
            r matches Err(e) ==> final(self).sessions@ == old(self).sessions@ && (e
                == AuthError::InvalidCredentials || e == AuthError::Internal),
            spec_find(old(self).users@, lower_of(credentials.username_or_email@)) is None ==> r
                == Err::<SignInOutcome, AuthError>(AuthError::InvalidCredentials),
            r == Err::<SignInOutcome, AuthError>(AuthError::Internal) ==> spec_find(
                old(self).users@,
                lower_of(credentials.username_or_email@),
            ) is Some,
            spec_find(old(self).users@, lower_of(credentials.username_or_email@)) matches Some(u)
                && !bcrypt_matches(u.password, credentials.password@) ==> (r == Err::<
                SignInOutcome,
                AuthError,
            >(AuthError::InvalidCredentials) || r == Err::<SignInOutcome, AuthError>(
                AuthError::Internal,
            )),
            spec_find(old(self).users@, lower_of(credentials.username_or_email@)) matches Some(u)
                && bcrypt_checkable(u.password) && bcrypt_matches(
                u.password,
                credentials.password@,
            ) ==> r matches Ok(_),
            spec_find(old(self).users@, lower_of(credentials.username_or_email@)) matches Some(u)
                && bcrypt_checkable(u.password) && !bcrypt_matches(
                u.password,
                credentials.password@,
            ) ==> r == Err::<SignInOutcome, AuthError>(AuthError::InvalidCredentials),
            r matches Ok(out) ==> credentials_accepted(
                old(self).users@,
                credentials.username_or_email@,
                credentials.password@,
            ) matches Some(u) && out.token@ == token_of(
                claims_for(u.id, now, old(self).ttl),
                old(self).key@,
            ) && out.user@ == summary_of(u) && spec_get(final(self).sessions@, out.token@) == Some(
                (u.id, (now + old(self).ttl) as u64),
            ) && (forall|t: Seq<char>|
                t != out.token@ ==> spec_get(final(self).sessions@, t) == spec_get(
                    old(self).sessions@,
                    t,
                )),
    {
        let user = match self.users.find_by_identifier(credentials.username_or_email.as_str()) {
            Some(u) => u,
            None => {
                return Err(AuthError::InvalidCredentials);
            },
        };
        let accepted = match verify_password(credentials.password.as_str(), user.password.as_str())
            {
            Ok(b) => b,
            Err(_) => {
                return Err(AuthError::Internal);
            },
        };
        if !accepted {
            return Err(AuthError::InvalidCredentials);
        }
        let token = issue(user.id, now, self.ttl, &self.key);
        self.sessions.put(token.as_str(), user.id, now, self.ttl);
        Ok(SignInOutcome { token, user: user.summary() })
    }

    /// Resolve a presented token to the account it belongs to: the token
    /// must verify, a live session record must still hold it, and the two
    /// must agree on the subject.
    pub fn get_session(&self, token: &str, now: u64) -> (r: Result<UserSummary, AuthError>)
        ensures
            r matches Ok(s) ==> session_outcome(self.users@, self.sessions@, self.key@, token@, now)
                == Ok::<UserSummaryView, AuthError>(s@),
            r matches Err(e) ==> session_outcome(
                self.users@,
                self.sessions@,
                self.key@,
                token@,
                now,
            ) == Err::<UserSummaryView, AuthError>(e),
    {
        let claims = match verify(token, &self.key, now) {
            Ok(c) => c,
            Err(_) => {
                return Err(AuthError::Unauthorized);
            },
        };
        let uid = match self.sessions.get(token, now) {
            Some(uid) => uid,
            None => {
                return Err(AuthError::Unauthorized);
            },
        };
        if claims.subject != uid {
            return Err(AuthError::Unauthorized);
        }
        match self.users.find_by_id(uid) {
            None => Err(AuthError::Unauthorized),
            Some(u) => Ok(u.summary()),
        }
    }
}

/// Revocation wins over cryptographic freshness: once no live session
/// record holds a token — deleted, or past its store-side expiry — a
/// session lookup is refused, even for a token whose signature and expiry
/// still verify.
pub proof fn lemma_revocation(
    users: Seq<UserView>,
    sessions: Seq<SessionEntryView>,
    key: Seq<u8>,
    token: Seq<char>,
    now: u64,
)
    requires
        live_get(sessions, token, now) is None,
    ensures
        session_outcome(users, sessions, key, token, now) == Err::<UserSummaryView, AuthError>(
            AuthError::Unauthorized,
        ),
{
}

/// The session round trip: an account `u` signed in at `issued` stays
/// resolvable through its fresh token until the lifetime runs out. The
/// token verifies to claims with subject `u.id`, the recorded session
/// agrees on that subject, and under store-assigned identifiers the lookup
/// by id resolves to `u` itself — so `get_session` is bound to answer with
/// exactly `u`'s projection.
pub proof fn lemma_session_round_trip(
    users: Seq<UserView>,
    sessions: Seq<SessionEntryView>,
    key: Seq<u8>,
    u: UserView,
    issued: u64,
    ttl: u64,
    now: u64,
    token: Seq<char>,
)
    requires
        ids_assigned(users),
        exists|i: int| 0 <= i < users.len() && #[trigger] users[i] == u,
        issued + ttl <= u64::MAX,
        token == token_of(claims_for(u.id, issued, ttl), key),
        live_get(sessions, token, now) == Some(u.id),
        now < issued + ttl,
    ensures
        session_outcome(users, sessions, key, token, now) == Ok::<UserSummaryView, AuthError>(
            summary_of(u),
        ),
{
    lemma_issue_round_trip(claims_for(u.id, issued, ttl), key, now);
    let i = choose|i: int| 0 <= i < users.len() && #[trigger] users[i] == u;
    lemma_member_found_by_id(users, i);
}

/// Enumeration resistance: an unknown identifier and a known identifier
/// with a wrong password yield the same decision — no account accepted.
/// `request_credentials`'s contract pins both answers to the one
/// `InvalidCredentials` value (for any stored hash that bcrypt can check,
/// which every hash the library stores is), and `AuthError::response`
/// renders that value to one and the same body and status whatever the
/// cause was.
pub proof fn lemma_enumeration_resistance(
    users: Seq<UserView>,
    ident_unknown: Seq<char>,
    password_unknown: Seq<char>,
    ident_known: Seq<char>,
    wrong_password: Seq<char>,
    account: UserView,
)
    requires
        spec_find(users, lower_of(ident_unknown)) is None,
        spec_find(users, lower_of(ident_known)) == Some(account),
        !bcrypt_matches(account.password, wrong_password),
    ensures
        credentials_accepted(users, ident_unknown, password_unknown) is None,
        credentials_accepted(users, ident_known, wrong_password) is None,
        credentials_accepted(users, ident_unknown, password_unknown) == credentials_accepted(
            users,
            ident_known,
            wrong_password,
        ),
{
}

} // verus!
