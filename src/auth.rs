//! Credential verification and the authentication guard.
//!
//! Two credential shapes are recognised: `Authorization: Bearer <token>`, whose token
//! is decoded and checked as a signed claim set outside this module, and a non-empty
//! `apikey` header, which admits a fixed anonymous identity.
use vstd::prelude::*;

use crate::error::{ApiError, ErrorReply};
use crate::text::{clone_opt_string, opt_string_view, opt_view};

verus! {

/// The identity claims of an admitted request.
#[derive(Clone, Debug)]
pub struct Claims {
    pub sub: String,
    pub email: Option<String>,
    pub role: Option<String>,
    pub exp: usize,
    pub aud: Option<String>,
    pub iss: Option<String>,
}

/// Why a request was not admitted. Callers see one kind of failure; the cause is kept
/// for diagnostics.
#[derive(Clone, Copy, Debug, PartialEq, Eq, Structural)]
pub enum AuthError {
    /// Neither a bearer token nor a non-empty API key was presented.
    MissingCredentials,
    /// The bearer token failed signature, format or expiry checks.
    InvalidToken,
}

pub open spec fn bearer_prefix() -> Seq<char> {
    seq!['B', 'e', 'a', 'r', 'e', 'r', ' ']
}

/// The token of an `Authorization` value of the form `Bearer <token>`.
pub open spec fn bearer_of(authorization: Option<Seq<char>>) -> Option<Seq<char>> {
    match authorization {
        Some(v) => if v.len() >= 7 && v.subrange(0, 7) == bearer_prefix() {
            Some(v.subrange(7, v.len() as int))
        } else {
            None
        },
        None => None,
    }
}

/// The fixed identity admitted by an API key.
pub open spec fn is_anon_identity(c: Claims) -> bool {
    &&& c.sub@ == "anon-user"@
    &&& c.email is None
    &&& opt_string_view(c.role) == Some("anon"@)
    &&& c.exp == usize::MAX
    &&& c.aud is None
    &&& c.iss is None
}

/// The verdict of the credential verifier on the two headers, where `decoded` is what
/// the signed-token decoder made of the bearer token (`None`: it rejected it).
pub open spec fn verify_outcome(
    authorization: Option<Seq<char>>,
    apikey: Option<Seq<char>>,
    decoded: Option<Claims>,
    r: Result<Claims, AuthError>,
) -> bool {
    match bearer_of(authorization) {
        Some(_) => match decoded {
            Some(c) => r == Ok::<Claims, AuthError>(c),
            None => r == Err::<Claims, AuthError>(AuthError::InvalidToken),
        },
        None => {
            if apikey is Some && apikey->0.len() > 0 {
                match r {
                    Ok(c) => is_anon_identity(c),
                    Err(_) => false,
                }
            } else {
                r == Err::<Claims, AuthError>(AuthError::MissingCredentials)
            }
        },
    }
}

/// The guard: admitted claims pass through unchanged; any rejection becomes the one
/// authentication-required failure.
pub open spec fn guard_outcome(outcome: Result<Claims, AuthError>, r: Result<Claims, ErrorReply>) -> bool {
    match outcome {
        Ok(c) => r == Ok::<Claims, ErrorReply>(c),
        Err(_) => match r {
            Ok(_) => false,
            Err(e) => e.status == ApiError::AuthenticationRequired.spec_status() && e.body.error@
                == ApiError::AuthenticationRequired.spec_message(),
        },
    }
}

/// The token of an `Authorization` header value, where it reads `Bearer <token>`.
pub fn bearer_token(authorization: Option<&str>) -> (r: Option<String>)
    ensures
        opt_string_view(r) == bearer_of(opt_view(authorization)),
{
    let h = match authorization {
        Some(h) => h,
        None => {
            return None;
        },
    };
    let n = h.unicode_len();
    if n < 7 {
        return None;
    }
    proof {
        reveal_strlit("Bearer ");
    }
    let prefix = "Bearer ";
    let mut i: usize = 0;
    while i < 7
        invariant
            0 <= i <= 7,
            authorization == Some(h),
            n == h@.len(),
            n >= 7,
            prefix@ == bearer_prefix(),
            h@.subrange(0, i as int) == bearer_prefix().subrange(0, i as int),
        decreases 7 - i,
    {
        let got = h.get_char(i);
        let want = prefix.get_char(i);
        if got != want {
            assert(h@.subrange(0, 7)[i as int] == got);
            assert(bearer_prefix()[i as int] == want);
            assert(h@.subrange(0, 7) != bearer_prefix());
            return None;
        }
        assert(h@.subrange(0, i + 1) =~= bearer_prefix().subrange(0, i + 1));
        i = i + 1;
    }
    assert(bearer_prefix().subrange(0, 7) =~= bearer_prefix());
    Some(String::from_str(h.substring_char(7, n)))
}

/// The identity admitted by an API key.
pub fn anon_claims() -> (c: Claims)
    ensures
        is_anon_identity(c),
{
    Claims {
        sub: String::from_str("anon-user"),
        email: None,
        role: Some(String::from_str("anon")),
        exp: usize::MAX,
        aud: None,
        iss: None,
    }
}

/// Verifies the credentials of a request. `authorization` and `apikey` are the two
/// header values (absent, or not readable as text: `None`); `decoded` is the claim set
/// that the signed-token decoder produced for `bearer_token(authorization)` under the
/// shared secret, or `None` where it rejected the token or no token was presented.
///
/// A bearer token decides alone: its claims are admitted, or it is rejected. Without
/// one, a non-empty API key admits the anonymous identity.
pub fn verify_supabase_token(authorization: Option<&str>, apikey: Option<&str>, decoded: Option<Claims>) -> (r:
    Result<Claims, AuthError>)
    ensures
        verify_outcome(opt_view(authorization), opt_view(apikey), decoded, r),
{
    if bearer_token(authorization).is_some() {
        return match decoded {
            Some(c) => Ok(c),
            None => Err(AuthError::InvalidToken),
        };
    }
    match apikey {
        Some(k) => {
            if k.unicode_len() > 0 {
                Ok(anon_claims())
            } else {
                Err(AuthError::MissingCredentials)
            }
        },
        None => Err(AuthError::MissingCredentials),
    }
}

/// The authentication guard: passes admitted claims on to the protected operation and
/// turns every rejection into the authentication-required failure.
pub fn require_auth(outcome: Result<Claims, AuthError>) -> (r: Result<Claims, ErrorReply>)
    ensures
        guard_outcome(outcome, r),
{
    match outcome {
        Ok(c) => Ok(c),
        Err(_) => Err(ApiError::AuthenticationRequired.reply()),
    }
}

/// Returns the subject of the claims.
pub fn extract_user_id(claims: &Claims) -> (r: String)
    ensures
        r@ == claims.sub@,
{
    claims.sub.clone()
}

/// What the caller may learn of its own identity.
#[derive(Clone, Debug)]
pub struct UserInfo {
    pub user_id: String,
    pub email: Option<String>,
    pub role: String,
}

/// The identity of the caller, with the role `authenticated` where the claims name none.
pub fn user_info(claims: &Claims) -> (r: UserInfo)
    ensures
        r.user_id@ == claims.sub@,
        opt_string_view(r.email) == opt_string_view(claims.email),
        r.role@ == match claims.role {
            Some(role) => role@,
            None => "authenticated"@,
        },
{
    let role = match &claims.role {
        Some(role) => role.clone(),
        None => String::from_str("authenticated"),
    };
    UserInfo { user_id: extract_user_id(claims), email: clone_opt_string(&claims.email), role }
}

/// A valid, unexpired signed token admits the request, and the guard hands on the
/// subject that the token carries.
pub proof fn lemma_signed_token_admitted(
    authorization: Seq<char>,
    apikey: Option<Seq<char>>,
    c: Claims,
    verdict: Result<Claims, AuthError>,
    admitted: Result<Claims, ErrorReply>,
)
    requires
        bearer_of(Some(authorization)) is Some,
        verify_outcome(Some(authorization), apikey, Some(c), verdict),
        guard_outcome(verdict, admitted),
    ensures
        admitted matches Ok(a) && a.sub == c.sub,
{
}

/// Without a bearer token, a non-empty API key admits the request as `anon-user` with
/// role `anon`.
pub proof fn lemma_api_key_admits_anonymous(
    authorization: Option<Seq<char>>,
    apikey: Seq<char>,
    decoded: Option<Claims>,
    verdict: Result<Claims, AuthError>,
    admitted: Result<Claims, ErrorReply>,
)
    requires
        bearer_of(authorization) is None,
        apikey.len() > 0,
        verify_outcome(authorization, Some(apikey), decoded, verdict),
        guard_outcome(verdict, admitted),
    ensures
        admitted matches Ok(a) && a.sub@ == "anon-user"@ && opt_string_view(a.role) == Some("anon"@),
{
}

/// A request with neither credential, or with a bearer token that the decoder rejected
/// (bad signature, malformed, expired), is refused with the authentication-required
/// failure.
pub proof fn lemma_rejected_credentials(
    authorization: Option<Seq<char>>,
    apikey: Option<Seq<char>>,
    decoded: Option<Claims>,
    verdict: Result<Claims, AuthError>,
    admitted: Result<Claims, ErrorReply>,
)
    requires
        (bearer_of(authorization) is None && (apikey is None || apikey->0.len() == 0)) || (bearer_of(
            authorization,
        ) is Some && decoded is None),
        verify_outcome(authorization, apikey, decoded, verdict),
        guard_outcome(verdict, admitted),
    ensures
        admitted matches Err(e) && e.status == 401 && e.body.error@ == "Authentication required"@,
{
}

} // verus!
