//! Signed, time-bounded tokens. A token is sixty decimal digits — subject,
//! issued-at and expiry, twenty digits each — followed by the hex form of an
//! HMAC-SHA-256 tag over those digits under the service's symmetric key.
//! Verification re-derives the token from the parsed fields and admits the
//! input only when it matches byte for byte.

use vstd::prelude::*;

use crate::numeric::{
    dec_fixed, dec_fixed_string, digit_char, digit_str, is_digit, lemma_dec_fixed,
    lemma_u64_fits_20_digits, parse_dec, spec_parse_dec,
};
use crate::strings::str_eq;

verus! {

/// The signed payload bound into every token.
#[derive(Clone, Copy, Debug, PartialEq, Eq, Structural)]
pub struct Claims {
    pub subject: u64,
    pub issued_at: u64,
    pub expires_at: u64,
}

/// Why verification refused a token.
#[derive(Clone, Copy, Debug, PartialEq, Eq, Structural)]
pub enum TokenError {
    Malformed,
    SignatureMismatch,
    Expired,
}

/// What HMAC-SHA-256 returns for a key and a message; it depends on the two
/// arguments alone.
pub uninterp spec fn hmac_tag(key: Seq<u8>, msg: Seq<u8>) -> Seq<u8>;

/// Relies on `hmac::Hmac<sha2::Sha256>` (`KeyInit::new_from_slice`,
/// `Mac::update`, `Mac::finalize`): the HMAC-SHA-256 tag of `msg` under
/// `key`. Any key length is accepted; the result is a function of the two
/// arguments alone.
#[verifier::external_body]
fn hmac_sha256(key: &[u8], msg: &[u8]) -> (r: Vec<u8>)
    ensures
        r@ == hmac_tag(key@, msg@),
{
    let mut mac = <hmac::Hmac<sha2::Sha256> as hmac::KeyInit>::new_from_slice(key)
        .expect("HMAC accepts keys of any length");
    hmac::Mac::update(&mut mac, msg);
    hmac::Mac::finalize(mac).into_bytes().as_slice().to_vec()
}

/// The character for one hexadecimal digit.
pub open spec fn hex_char(d: int) -> char {
    if d < 10 {
        digit_char(d)
    } else if d == 10 {
        'a'
    } else if d == 11 {
        'b'
    } else if d == 12 {
        'c'
    } else if d == 13 {
        'd'
    } else if d == 14 {
        'e'
    } else {
        'f'
    }
}

/// Lower-case hex rendering of a byte string, two characters per byte.
pub open spec fn hex_of_bytes(b: Seq<u8>) -> Seq<char>
    decreases b.len(),
{
    if b.len() == 0 {
        Seq::empty()
    } else {
        hex_of_bytes(b.drop_last()) + seq![
            hex_char(b.last() as int / 16),
            hex_char(b.last() as int % 16),
        ]
    }
}

/// The bytes of an ASCII character string, one byte per character.
pub open spec fn char_bytes(s: Seq<char>) -> Seq<u8> {
    Seq::new(s.len(), |i: int| s[i] as u8)
}

fn hex_digit_str(d: u8) -> (r: &'static str)
    requires
        d < 16,
    ensures
        r@ == seq![hex_char(d as int)],
{
    if d < 10 {
        digit_str(d as u64)
    } else if d == 10 {
        proof {
            reveal_strlit("a");
            assert("a"@ =~= seq![hex_char(10)]);
        }
        "a"
    } else if d == 11 {
        proof {
            reveal_strlit("b");
            assert("b"@ =~= seq![hex_char(11)]);
        }
        "b"
    } else if d == 12 {
        proof {
            reveal_strlit("c");
            assert("c"@ =~= seq![hex_char(12)]);
        }
        "c"
    } else if d == 13 {
        proof {
            reveal_strlit("d");
            assert("d"@ =~= seq![hex_char(13)]);
        }
        "d"
    } else if d == 14 {
        proof {
            reveal_strlit("e");
            assert("e"@ =~= seq![hex_char(14)]);
        }
        "e"
    } else {
        proof {
            reveal_strlit("f");
            assert("f"@ =~= seq![hex_char(15)]);
        }
        "f"
    }
}

fn hex_string(b: &Vec<u8>) -> (r: String)
    ensures
        r@ == hex_of_bytes(b@),
{
    let mut s = String::new();
    let mut i: usize = 0;
    while i < b.len()
        invariant
            0 <= i <= b@.len(),
            s@ == hex_of_bytes(b@.subrange(0, i as int)),
        decreases b@.len() - i,
    {
        let byte = b[i];
        let hi = hex_digit_str(byte / 16);
        let lo = hex_digit_str(byte % 16);
        s.append(hi);
        s.append(lo);
        proof {
            let nxt = b@.subrange(0, (i + 1) as int);
            assert(nxt.drop_last() =~= b@.subrange(0, i as int));
            assert(nxt.last() == b@[i as int]);
            assert(s@ =~= hex_of_bytes(nxt));
        }
        i = i + 1;
    }
    proof {
        assert(b@.subrange(0, b@.len() as int) =~= b@);
    }
    s
}

/// The sixty digits a token starts with.
pub open spec fn payload_of(c: Claims) -> Seq<char> {
    dec_fixed(c.subject as int, 20) + dec_fixed(c.issued_at as int, 20) + dec_fixed(
        c.expires_at as int,
        20,
    )
}

/// The one token the service issues for given claims under a given key.
pub open spec fn token_of(c: Claims, key: Seq<u8>) -> Seq<char> {
    payload_of(c) + hex_of_bytes(hmac_tag(key, char_bytes(payload_of(c))))
}

/// The claims a string professes to carry: its first sixty characters read
/// as three twenty-digit numbers. Says nothing about the signature.
pub open spec fn token_fields(s: Seq<char>) -> Option<Claims> {
    if s.len() < 60 {
        None
    } else {
        match (
            spec_parse_dec(s.subrange(0, 20)),
            spec_parse_dec(s.subrange(20, 40)),
            spec_parse_dec(s.subrange(40, 60)),
        ) {
            (Some(su), Some(ia), Some(ex)) => Some(
                Claims { subject: su, issued_at: ia, expires_at: ex },
            ),
            _ => None,
        }
    }
}

/// The outcome `verify` is bound to: `Malformed` when the digits do not
/// parse, `SignatureMismatch` when the string is not the token of its own
/// fields under the key, `Expired` when its expiry is not after `now`, and
/// the claims otherwise.
pub open spec fn verify_outcome(s: Seq<char>, key: Seq<u8>, now: u64) -> Result<
    Claims,
    TokenError,
> {
    match token_fields(s) {
        None => Err(TokenError::Malformed),
        Some(c) => if s != token_of(c, key) {
            Err(TokenError::SignatureMismatch)
        } else if now >= c.expires_at {
            Err(TokenError::Expired)
        } else {
            Ok(c)
        },
    }
}

fn build_token(c: Claims, key: &Vec<u8>) -> (t: String)
    ensures
        t@ == token_of(c, key@),
{
    let mut payload = dec_fixed_string(c.subject, 20);
    let s2 = dec_fixed_string(c.issued_at, 20);
    payload.append(s2.as_str());
    let s3 = dec_fixed_string(c.expires_at, 20);
    payload.append(s3.as_str());
    proof {
        assert(payload@ =~= payload_of(c));
        lemma_u64_fits_20_digits();
        lemma_dec_fixed(c.subject as int, 20);
        lemma_dec_fixed(c.issued_at as int, 20);
        lemma_dec_fixed(c.expires_at as int, 20);
        assert forall|i: int| 0 <= i < payload@.len() implies '\0' <= #[trigger] payload@[i]
            <= '\u{7f}' by {
            let pc = payload_of(c);
            assert(payload@[i] == pc[i]);
            if i < 20 {
                assert(pc[i] == dec_fixed(c.subject as int, 20)[i]);
            } else if i < 40 {
                assert(pc[i] == dec_fixed(c.issued_at as int, 20)[i - 20]);
            } else {
                assert(pc[i] == dec_fixed(c.expires_at as int, 20)[i - 40]);
            }
            assert(is_digit(pc[i]));
            crate::numeric::lemma_digit_is_ascii(pc[i]);
        }
    }
    let ps = payload.as_str();
    let pb = ps.as_bytes();
    proof {
        vstd::string::is_ascii_spec_bytes(ps);
        assert(pb@ =~= char_bytes(payload@));
    }
    let tag = hmac_sha256(key.as_slice(), pb);
    let hexs = hex_string(&tag);
    let mut t = payload;
    t.append(hexs.as_str());
    proof {
        assert(t@ =~= token_of(c, key@));
    }
    t
}

/// The claims issued at `now` for a lifetime of `ttl` seconds.
pub open spec fn claims_for(user_id: u64, now: u64, ttl: u64) -> Claims {
    Claims { subject: user_id, issued_at: now, expires_at: (now + ttl) as u64 }
}

/// Issue the signed token for `user_id`, valid from `now` for `ttl` seconds.
pub fn issue(user_id: u64, now: u64, ttl: u64, key: &Vec<u8>) -> (t: String)
    requires
        now + ttl <= u64::MAX,
    ensures
        t@ == token_of(claims_for(user_id, now, ttl), key@),
{
    build_token(
        Claims { subject: user_id, issued_at: now, expires_at: now + ttl },
        key,
    )
}

/// Check structure, signature and freshness of a presented token.
pub fn verify(token: &str, key: &Vec<u8>, now: u64) -> (r: Result<Claims, TokenError>)
    ensures
        r == verify_outcome(token@, key@, now),
{
    let n = token.unicode_len();
    if n < 60 {
        return Err(TokenError::Malformed);
    }
    let su = match parse_dec(token.substring_char(0, 20)) {
        Some(v) => v,
        None => {
            return Err(TokenError::Malformed);
        },
    };
    let ia = match parse_dec(token.substring_char(20, 40)) {
        Some(v) => v,
        None => {
            return Err(TokenError::Malformed);
        },
    };
    let ex = match parse_dec(token.substring_char(40, 60)) {
        Some(v) => v,
        None => {
            return Err(TokenError::Malformed);
        },
    };
    let c = Claims { subject: su, issued_at: ia, expires_at: ex };
    let expected = build_token(c, key);
    if !str_eq(expected.as_str(), token) {
        return Err(TokenError::SignatureMismatch);
    }
    if now >= c.expires_at {
        return Err(TokenError::Expired);
    }
    Ok(c)
}

/// A well-formed token parses back to exactly the claims it was built from.
pub proof fn lemma_token_fields_of(c: Claims, key: Seq<u8>)
    ensures
        token_fields(token_of(c, key)) == Some(c),
{
    lemma_u64_fits_20_digits();
    lemma_dec_fixed(c.subject as int, 20);
    lemma_dec_fixed(c.issued_at as int, 20);
    lemma_dec_fixed(c.expires_at as int, 20);
    let s = token_of(c, key);
    assert(s.subrange(0, 20) =~= dec_fixed(c.subject as int, 20));
    assert(s.subrange(20, 40) =~= dec_fixed(c.issued_at as int, 20));
    assert(s.subrange(40, 60) =~= dec_fixed(c.expires_at as int, 20));
}

/// A token pins its claims: two claim sets with the same token under the
/// same key are the same claims. In particular a token issued for one
/// subject can never verify to another.
pub proof fn lemma_token_determines_claims(c1: Claims, c2: Claims, key: Seq<u8>)
    requires
        token_of(c1, key) == token_of(c2, key),
    ensures
        c1 == c2,
{
    lemma_token_fields_of(c1, key);
    lemma_token_fields_of(c2, key);
}

/// Round trip: a token built for claims `c` verifies to exactly `c` while
/// `now` is before its expiry, and to `Expired` from the expiry on.
pub proof fn lemma_issue_round_trip(c: Claims, key: Seq<u8>, now: u64)
    ensures
        verify_outcome(token_of(c, key), key, now) == (if now < c.expires_at {
            Ok::<Claims, TokenError>(c)
        } else {
            Err::<Claims, TokenError>(TokenError::Expired)
        }),
{
    lemma_token_fields_of(c, key);
}

} // verus!
