//! Sign-in data: the subscriptions the user can see and the identity read
//! from an access token.
use vstd::prelude::*;

verus! {

/// An Azure subscription: its id and display name.
#[derive(Debug)]
pub struct SubscriptionInfo {
    pub id: String,
    pub name: String,
}

impl Clone for SubscriptionInfo {
    fn clone(&self) -> (r: Self)
        ensures
            r == *self,
    {
        SubscriptionInfo { id: self.id.clone(), name: self.name.clone() }
    }
}

} // verus!

use base64::Engine;
use crate::error::PimError;
use crate::text::{chars_of, owned, split_chars, split_on, string_of, text_eq};

verus! {

/// The claims of an access token that the application reads.
#[derive(Debug)]
pub struct JwtClaims {
    pub oid: Option<String>,
    pub unique_name: Option<String>,
    pub upn: Option<String>,
    pub tid: Option<String>,
}

/// Who is signed in: the object id and the name shown for the user.
#[derive(Debug)]
pub struct Identity {
    pub principal_id: String,
    pub user_display: String,
}

/// A subscription as Azure Resource Manager lists it.
#[derive(Debug)]
pub struct ArmSubscription {
    pub id: String,
    pub name: String,
    pub state: Option<String>,
}

/// The identity in a token's claims: the object id is required; the name
/// shown is the user principal name, else the unique name, else `unknown`.
pub fn identity_from_claims(claims: JwtClaims) -> (r: Result<Identity, PimError>)
    ensures
        claims.oid is None <==> r is Err,
        r matches Err(e) ==> (e matches PimError::Parse(m) && m@ == "No 'oid' claim in token"@),
        r matches Ok(id) ==> {
            &&& claims.oid == Some(id.principal_id)
            &&& id.user_display@ == match (claims.upn, claims.unique_name) {
                (Some(u), _) => u@,
                (None, Some(n)) => n@,
                (None, None) => "unknown"@,
            }
        },
{
    let principal_id = match claims.oid {
        Some(o) => o,
        None => return Err(PimError::Parse(owned("No 'oid' claim in token"))),
    };
    let user_display = match claims.upn {
        Some(u) => u,
        None => match claims.unique_name {
            Some(n) => n,
            None => owned("unknown"),
        },
    };
    Ok(Identity { principal_id, user_display })
}

pub open spec fn is_enabled(s: ArmSubscription) -> bool {
    s.state matches Some(st) && st@ == "Enabled"@
}

/// The subscriptions whose state is `Enabled`, in order, as id and name.
pub open spec fn enabled_of(subs: Seq<ArmSubscription>) -> Seq<(Seq<char>, Seq<char>)>
    decreases subs.len(),
{
    if subs.len() == 0 {
        Seq::empty()
    } else {
        let prev = enabled_of(subs.drop_last());
        if is_enabled(subs.last()) {
            prev.push((subs.last().id@, subs.last().name@))
        } else {
            prev
        }
    }
}

pub open spec fn subscription_views(subs: Seq<SubscriptionInfo>) -> Seq<(Seq<char>, Seq<char>)> {
    subs.map_values(|s: SubscriptionInfo| (s.id@, s.name@))
}

/// Keeps the enabled subscriptions.
pub fn enabled_subscriptions(listed: Vec<ArmSubscription>) -> (r: Vec<SubscriptionInfo>)
    ensures
        subscription_views(r@) == enabled_of(listed@),
{
    let mut out: Vec<SubscriptionInfo> = Vec::new();
    let mut i: usize = 0;
    proof {
        assert(listed@.take(0) =~= Seq::<ArmSubscription>::empty());
        assert(subscription_views(out@) =~= Seq::<(Seq<char>, Seq<char>)>::empty());
    }
    while i < listed.len()
        invariant
            i <= listed@.len(),
            subscription_views(out@) == enabled_of(listed@.take(i as int)),
        decreases listed@.len() - i,
    {
        let s = &listed[i];
        proof {
            assert(listed@.take(i + 1).drop_last() =~= listed@.take(i as int));
            assert(listed@.take(i + 1).last() == listed@[i as int]);
        }
        let enabled = match &s.state {
            Some(st) => text_eq(st.as_str(), "Enabled"),
            None => false,
        };
        if enabled {
            let ghost before = out@;
            out.push(SubscriptionInfo { id: s.id.clone(), name: s.name.clone() });
            proof {
                assert(subscription_views(out@) =~= subscription_views(before).push((s.id@, s.name@)));
            }
        }
        i = i + 1;
    }
    proof {
        assert(listed@.take(listed@.len() as int) =~= listed@);
    }
    out
}

// ---------------------------------------------------------------------------
// Access tokens
// ---------------------------------------------------------------------------

/// What `base64::engine::general_purpose::STANDARD_NO_PAD` decodes the
/// bytes to, or `None` when it refuses them.
pub uninterp spec fn base64_no_pad_decode(input: Seq<u8>) -> Option<Seq<u8>>;

/// `STANDARD_NO_PAD.decode` (base64 crate): the result, or `None` on a
/// decoding error, is a function of the input bytes alone.
#[verifier::external_body]
fn decode_base64_no_pad(input: &[u8]) -> (r: Option<Vec<u8>>)
    ensures
        match r {
            Some(v) => base64_no_pad_decode(input@) == Some(v@),
            None => base64_no_pad_decode(input@) is None,
        },
{
    base64::engine::general_purpose::STANDARD_NO_PAD.decode(input).ok()
}

/// The standard base64 alphabet in place of the URL-safe one: `-` becomes
/// `+` and `_` becomes `/`.
pub open spec fn url_to_standard(s: Seq<char>) -> Seq<char> {
    s.map_values(|c: char| if c == '-' { '+' } else if c == '_' { '/' } else { c })
}

/// The payload padded with `=` to a multiple of four bytes, when two or
/// three are missing.
pub open spec fn padded(bytes: Seq<u8>) -> Seq<u8> {
    if bytes.len() % 4 == 2 {
        bytes + seq![61u8, 61u8]
    } else if bytes.len() % 4 == 3 {
        bytes + seq![61u8]
    } else {
        bytes
    }
}

/// The decoded payload of a token: the token must have three dot-separated
/// parts; the middle one is decoded as base64 without padding, and if that
/// fails, once more after padding it.
pub open spec fn jwt_payload(token: Seq<char>) -> Result<Seq<u8>, PimError> {
    let parts = split_on(token, '.');
    if parts.len() != 3 {
        Err(PimError::Parse(arbitrary()))
    } else {
        let bytes = vstd::utf8::encode_utf8(url_to_standard(parts[1]));
        match base64_no_pad_decode(bytes) {
            Some(d) => Ok(d),
            None => match base64_no_pad_decode(padded(bytes)) {
                Some(d) => Ok(d),
                None => Err(PimError::Other(arbitrary())),
            },
        }
    }
}

fn to_standard_alphabet(cs: &Vec<char>) -> (r: Vec<char>)
    ensures
        r@ == url_to_standard(cs@),
{
    let mut out: Vec<char> = Vec::new();
    let mut i: usize = 0;
    while i < cs.len()
        invariant
            i <= cs@.len(),
            out@ == url_to_standard(cs@).take(i as int),
        decreases cs@.len() - i,
    {
        let c = cs[i];
        let d = if c == '-' { '+' } else if c == '_' { '/' } else { c };
        out.push(d);
        proof {
            assert(out@ =~= url_to_standard(cs@).take(i + 1));
        }
        i = i + 1;
    }
    proof {
        assert(url_to_standard(cs@).take(cs@.len() as int) =~= url_to_standard(cs@));
    }
    out
}

fn slice_to_vec(b: &[u8]) -> (r: Vec<u8>)
    ensures
        r@ == b@,
{
    let mut out: Vec<u8> = Vec::new();
    let mut i: usize = 0;
    while i < b.len()
        invariant
            i <= b@.len(),
            out@ == b@.take(i as int),
        decreases b@.len() - i,
    {
        out.push(b[i]);
        proof {
            assert(out@ =~= b@.take(i + 1));
        }
        i = i + 1;
    }
    proof {
        assert(b@.take(b@.len() as int) =~= b@);
    }
    out
}

/// Decodes the payload of an access token; a token without three parts is
/// refused with `Invalid JWT format`, an undecodable payload with `Failed
/// to decode JWT payload`.
pub fn decode_jwt_payload(token: &str) -> (r: Result<Vec<u8>, PimError>)
    ensures
        match (r, jwt_payload(token@)) {
            (Ok(v), Ok(d)) => v@ == d,
            (Err(PimError::Parse(m)), Err(PimError::Parse(_))) => m@ == "Invalid JWT format"@,
            (Err(PimError::Other(m)), Err(PimError::Other(_))) => m@ == "Failed to decode JWT payload"@,
            _ => false,
        },
{
    let cs = chars_of(token);
    let parts = split_chars(&cs, '.');
    if parts.len() != 3 {
        return Err(PimError::Parse(owned("Invalid JWT format")));
    }
    proof {
        assert(split_on(token@, '.')[1] == parts@[1]@);
    }
    let std_chars = to_standard_alphabet(&parts[1]);
    let payload = string_of(&std_chars);
    let bytes = slice_to_vec(payload.as_str().as_bytes());
    match decode_base64_no_pad(bytes.as_slice()) {
        Some(d) => Ok(d),
        None => {
            let n = bytes.len();
            let mut with_pad = bytes;
            if n % 4 == 2 {
                with_pad.push(61u8);
                with_pad.push(61u8);
            } else if n % 4 == 3 {
                with_pad.push(61u8);
            }
            proof {
                assert(with_pad@ =~= padded(vstd::utf8::encode_utf8(payload@)));
            }
            match decode_base64_no_pad(with_pad.as_slice()) {
                Some(d) => Ok(d),
                None => Err(PimError::Other(owned("Failed to decode JWT payload"))),
            }
        },
    }
}

} // verus!
