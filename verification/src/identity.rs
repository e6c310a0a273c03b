//! Identity resolution: bearer tokens are signed claims `{sub, user_type}`
//! verified against a single shared secret.  A missing or unverifiable token
//! degrades to [`Identity::Anonymous`]; it is never an error.
//!
//! Signing and verification are done by an outside JWT crate behind two
//! trusted wrappers; both outcomes are functions of the arguments alone, so
//! each is given a name ([`token_of`], [`decoded_claims`]) that the callers'
//! contracts speak of.

use vstd::prelude::*;
use vstd::string::StringExecFns;
use vstd::string::StrSliceExecFns;

verus! {

/// The claims a session token carries: a subject id and the identity kind
/// (`"guest"` or `"registered"`).
pub struct Claims {
    pub sub: String,
    pub user_type: String,
}

/// The kind of a resolved, known caller.
#[derive(Clone, Copy, Debug, PartialEq, Eq)]
pub enum UserKind {
    Guest,
    Registered,
}

/// What a request's token resolves to.
#[derive(Debug)]
pub enum Identity {
    Anonymous,
    Known { subject: String, kind: UserKind },
}

/// Spec mirror of [`Identity`].
pub ghost enum IdentityModel {
    Anonymous,
    Known { subject: Seq<char>, kind: UserKind },
}

impl View for Identity {
    type V = IdentityModel;

    open spec fn view(&self) -> IdentityModel {
        match self {
            Identity::Anonymous => IdentityModel::Anonymous,
            Identity::Known { subject, kind } => IdentityModel::Known {
                subject: subject@,
                kind: *kind,
            },
        }
    }
}

/// The token that signing the claims `{sub, user_type: kind}` with `secret`
/// produces.  Named: the outside signature is a pure function of these
/// arguments, and writing the algorithm out here would state nothing
/// checkable.
pub uninterp spec fn token_of(sub: Seq<char>, kind: Seq<char>, secret: Seq<u8>) -> Seq<char>;

/// What verifying `token` against `secret` yields: the (subject, kind)
/// claims when the signature checks out and both claims are present, `None`
/// otherwise.
pub uninterp spec fn decoded_claims(token: Seq<char>, secret: Seq<u8>) -> Option<
    (Seq<char>, Seq<char>),
>;

/// Relies on jsonwebtoken::encode with HS256: deterministic HMAC signing of
/// the two string claims, so the result is `token_of` of the arguments.
/// Signing cannot fail here — HMAC takes any key length and the two-string
/// claims object always serializes.  The token is three dot-separated
/// base64url segments (the alphabet holds no dot), and jsonwebtoken::decode
/// under the same secret and this crate's pinned validation yields the same
/// two claims back.
#[verifier::external_body]
fn sign_token(sub: &String, kind: &str, secret: &Vec<u8>) -> (r: String)
    ensures
        r@ == token_of(sub@, kind@, secret@),
        dot_count(r@) == 2,
        decoded_claims(r@, secret@) == Some((sub@, kind@)),
{
    let mut claims = serde_json::Map::new();
    claims.insert(String::from("sub"), serde_json::Value::String(sub.clone()));
    claims.insert(String::from("user_type"), serde_json::Value::String(String::from(kind)));
    let key = jsonwebtoken::EncodingKey::from_secret(secret.as_slice());
    jsonwebtoken::encode(&jsonwebtoken::Header::default(), &serde_json::Value::Object(claims), &key)
        .expect("HMAC signing of two string claims does not fail")
}

/// Relies on jsonwebtoken::decode with HS256 and a fixed validation (no
/// expiry, audience or required-claim checks — the intentionally simplified
/// stateless-bearer scheme): with the configuration pinned and no clock
/// read, the outcome is a function of token and secret alone, named
/// `decoded_claims`.
#[verifier::external_body]
fn decode_token(token: &String, secret: &Vec<u8>) -> (r: Option<Claims>)
    ensures
        r matches Some(c) ==> decoded_claims(token@, secret@) == Some((c.sub@, c.user_type@)),
        r is None ==> decoded_claims(token@, secret@) is None,
{
    let mut validation = jsonwebtoken::Validation::new(jsonwebtoken::Algorithm::HS256);
    validation.required_spec_claims = std::collections::HashSet::new();
    validation.validate_exp = false;
    validation.validate_aud = false;
    let key = jsonwebtoken::DecodingKey::from_secret(secret.as_slice());
    let data = jsonwebtoken::decode::<serde_json::Value>(token.as_str(), &key, &validation).ok()?;
    let sub = data.claims.get("sub").and_then(serde_json::Value::as_str)?;
    let user_type = data.claims.get("user_type").and_then(serde_json::Value::as_str)?;
    Some(Claims { sub: String::from(sub), user_type: String::from(user_type) })
}

/// How many `'.'` characters `s` holds.  A token is expected to be three
/// dot-separated segments, i.e. exactly two dots.
pub open spec fn dot_count(s: Seq<char>) -> int
    decreases s.len(),
{
    if s.len() == 0 {
        0
    } else {
        dot_count(s.drop_last()) + (if s.last() == '.' {
            1int
        } else {
            0int
        })
    }
}

/// Count the dots of `s`, the verified shape check a token goes through
/// before it is handed to the verifier.
fn count_dots(s: &str) -> (r: usize)
    ensures
        r as int == dot_count(s@),
{
    let n = s.unicode_len();
    let mut k: usize = 0;
    let mut c: usize = 0;
    while k < n
        invariant
            n as int == s@.len(),
            0 <= k <= n,
            c <= k,
            c as int == dot_count(s@.subrange(0, k as int)),
        decreases n - k,
    {
        let ch = s.get_char(k);
        proof {
            assert(s@.subrange(0, k + 1).drop_last() =~= s@.subrange(0, k as int));
            assert(s@.subrange(0, k + 1).last() == s@[k as int]);
        }
        if ch == '.' {
            c = c + 1;
        }
        k = k + 1;
    }
    proof {
        assert(s@.subrange(0, n as int) =~= s@);
    }
    c
}

/// What a present token resolves to: anonymous unless it has the three-
/// segment shape, verifies against the secret, and carries a known kind.
pub open spec fn spec_resolve_token(t: Seq<char>, secret: Seq<u8>) -> IdentityModel {
    if dot_count(t) != 2 {
        IdentityModel::Anonymous
    } else {
        match decoded_claims(t, secret) {
            Option::None => IdentityModel::Anonymous,
            Option::Some(c) => if c.1 == "guest"@ {
                IdentityModel::Known { subject: c.0, kind: UserKind::Guest }
            } else if c.1 == "registered"@ {
                IdentityModel::Known { subject: c.0, kind: UserKind::Registered }
            } else {
                IdentityModel::Anonymous
            },
        }
    }
}

/// The identity resolver.  It holds the shared signing secret, injected at
/// construction — never a compile-time constant — so test doubles can carry
/// distinct secrets.
pub struct Resolve {
    secret: Vec<u8>,
}

impl Resolve {
    /// The secret this resolver signs and verifies with.
    pub closed spec fn spec_secret(&self) -> Seq<u8> {
        self.secret@
    }

    pub fn new(secret: Vec<u8>) -> (r: Resolve)
        ensures
            r.spec_secret() == secret@,
    {
        Resolve { secret }
    }

    /// Sign a guest session token for subject `id`.  The token resolves
    /// back, under the same resolver, to that subject and the guest kind.
    pub fn get_guest_user_token(&self, id: &String) -> (r: String)
        ensures
            r@ == token_of(id@, "guest"@, self.spec_secret()),
            spec_resolve_token(r@, self.spec_secret()) == (IdentityModel::Known {
                subject: id@,
                kind: UserKind::Guest,
            }),
    {
        sign_token(id, "guest", &self.secret)
    }

    /// Sign a registered session token for subject `id`.  The token resolves
    /// back, under the same resolver, to that subject and the registered
    /// kind.
    pub fn get_registered_user_token(&self, id: &String) -> (r: String)
        ensures
            r@ == token_of(id@, "registered"@, self.spec_secret()),
            spec_resolve_token(r@, self.spec_secret()) == (IdentityModel::Known {
                subject: id@,
                kind: UserKind::Registered,
            }),
    {
        proof {
            // the two kind labels differ, so resolution picks the right arm
            reveal_strlit("guest");
            reveal_strlit("registered");
            assert("guest"@.len() == 5);
            assert("registered"@.len() == 10);
            assert("registered"@ != "guest"@);
        }
        sign_token(id, "registered", &self.secret)
    }

    /// Resolve a raw bearer token to a caller identity.  No token, a
    /// malformed token or a failed verification all degrade to `Anonymous`.
    pub fn resolve(&self, token: Option<&String>) -> (r: Identity)
        ensures
            token is None ==> r@ == IdentityModel::Anonymous,
            token matches Some(t) ==> r@ == spec_resolve_token(t@, self.spec_secret()),
    {
        let t = match token {
            Some(t) => t,
            None => {
                return Identity::Anonymous;
            },
        };
        if count_dots(t.as_str()) != 2 {
            return Identity::Anonymous;
        }
        match decode_token(t, &self.secret) {
            None => Identity::Anonymous,
            Some(c) => {
                let guest = String::from_str("guest");
                let registered = String::from_str("registered");
                if c.user_type == guest {
                    Identity::Known { subject: c.sub, kind: UserKind::Guest }
                } else if c.user_type == registered {
                    Identity::Known { subject: c.sub, kind: UserKind::Registered }
                } else {
                    Identity::Anonymous
                }
            },
        }
    }
}

} // verus!
