//! Decisions of the Microsoft Graph credential: when a cached token is
//! reused, when it is refreshed, when the device code flow starts, and how
//! each answer of the token endpoint is taken.
use vstd::prelude::*;
use crate::clock::system_now_seconds;
use crate::error::PimError;
use crate::text::{join2, join3, owned, text_eq};

verus! {

/// Microsoft Graph PowerShell app id: a first-party Microsoft app with
/// broad Graph permissions pre-consented, including PIM for Groups.
pub const CLIENT_ID: &'static str = "14d82eec-204b-4c2f-b7e8-296a70dab67e";

pub const GRAPH_SCOPES: &'static str = "https://graph.microsoft.com/PrivilegedAccess.ReadWrite.AzureADGroup https://graph.microsoft.com/PrivilegedEligibilitySchedule.Read.AzureADGroup https://graph.microsoft.com/GroupMember.Read.All offline_access";

/// A Graph token as kept between runs; `expires_at` is a Unix timestamp.
#[derive(Debug)]
pub struct CachedToken {
    pub access_token: String,
    pub refresh_token: Option<String>,
    pub expires_at: u64,
}

/// A successful answer of the token endpoint.
#[derive(Debug)]
pub struct TokenResponse {
    pub access_token: String,
    pub refresh_token: Option<String>,
    pub expires_in: u64,
}

/// An error answer of the token endpoint.
#[derive(Debug)]
pub struct TokenErrorResponse {
    pub error: String,
    pub error_description: Option<String>,
}

/// What to do to obtain a token.
#[derive(Debug)]
pub enum TokenStep {
    /// Hand out this cached token.
    Use(String),
    /// Try to refresh with this refresh token.
    Refresh(String),
    /// Sign in again with the device code flow.
    DeviceCode,
}

/// `step` is the first step towards a token at time `now`.
pub open spec fn step_at(cached: Option<CachedToken>, now: u64, step: TokenStep) -> bool {
    match cached {
        Some(t) => if now + 300 < t.expires_at {
            step == TokenStep::Use(t.access_token)
        } else {
            match t.refresh_token {
                Some(rt) => step == TokenStep::Refresh(rt),
                None => step is DeviceCode,
            }
        },
        None => step is DeviceCode,
    }
}

/// The first step towards a token: a cached token with more than five
/// minutes left is used; an older one is refreshed if it can be; else the
/// device code flow starts.
pub fn token_step(cached: &Option<CachedToken>, now: u64) -> (r: TokenStep)
    requires
        now + 300 <= u64::MAX,
    ensures
        step_at(*cached, now, r),
{
    if let Some(token) = cached {
        if now + 300 < token.expires_at {
            return TokenStep::Use(token.access_token.clone());
        }
        if let Some(rt) = &token.refresh_token {
            return TokenStep::Refresh(rt.clone());
        }
    }
    TokenStep::DeviceCode
}

/// The first step towards a token, at the current time; `None` only if
/// the clock reads before the Unix epoch or within five minutes of the end
/// of `u64` seconds.
pub fn token_step_now(cached: &Option<CachedToken>) -> (r: Option<TokenStep>)
    ensures
        r matches Some(step) ==> exists|now: u64| now + 300 <= u64::MAX && #[trigger] step_at(*cached, now, step),
{
    let now = match system_now_seconds() {
        Some(t) => t,
        None => return None,
    };
    if now > u64::MAX - 300 {
        return None;
    }
    Some(token_step(cached, now))
}

/// The token kept after a refresh: the new access token, the new refresh
/// token (or the one used, if none came back), expiring `expires_in`
/// seconds after `now`.
pub fn refreshed_token(resp: TokenResponse, used_refresh_token: &str, now: u64) -> (r: CachedToken)
    requires
        now + resp.expires_in <= u64::MAX,
    ensures
        r.access_token == resp.access_token,
        r.expires_at == now + resp.expires_in,
        match resp.refresh_token {
            Some(t) => r.refresh_token == Some(t),
            None => r.refresh_token matches Some(t) && t@ == used_refresh_token@,
        },
{
    let refresh_token = match resp.refresh_token {
        Some(t) => Some(t),
        None => Some(owned(used_refresh_token)),
    };
    CachedToken { access_token: resp.access_token, refresh_token, expires_at: now + resp.expires_in }
}

/// The token kept after the device code flow succeeded.
pub fn device_token(resp: TokenResponse, now: u64) -> (r: CachedToken)
    requires
        now + resp.expires_in <= u64::MAX,
    ensures
        r.access_token == resp.access_token,
        r.refresh_token == resp.refresh_token,
        r.expires_at == now + resp.expires_in,
{
    CachedToken { access_token: resp.access_token, refresh_token: resp.refresh_token, expires_at: now + resp.expires_in }
}

/// Seconds between polls of the token endpoint: as the server asks, but at
/// least five.
pub fn poll_interval(interval: u64) -> (r: u64)
    ensures
        r == if interval > 5 { interval } else { 5 },
{
    if interval > 5 { interval } else { 5 }
}

/// How the device code flow goes on after a refused poll.
#[derive(Debug)]
pub enum PollDecision {
    /// The user has not signed in yet: poll again.
    Wait,
    /// Polling too fast: wait five more seconds, then poll again.
    SlowDown,
    /// The flow has failed.
    Fail(PimError),
}

/// Takes a refused poll: the parsed error answer if the body was one, and
/// the raw body.
pub fn device_poll_decision(answer: Option<TokenErrorResponse>, body: &str) -> (r: PollDecision)
    ensures
        match answer {
            Some(a) => if a.error@ == "authorization_pending"@ {
                r is Wait
            } else if a.error@ == "slow_down"@ {
                r is SlowDown
            } else if a.error@ == "expired_token"@ {
                r matches PollDecision::Fail(PimError::Auth(m)) && m@ == "Device code expired. Try again."@
            } else {
                r matches PollDecision::Fail(PimError::Auth(m)) && m@ == "Device code flow failed: "@
                    + a.error@ + " - "@ + match a.error_description {
                        Some(d) => d@,
                        None => Seq::<char>::empty(),
                    }
            },
            None => r matches PollDecision::Fail(PimError::Auth(m)) && m@ == "Unexpected response: "@ + body@,
        },
{
    match answer {
        Some(a) => {
            if text_eq(a.error.as_str(), "authorization_pending") {
                PollDecision::Wait
            } else if text_eq(a.error.as_str(), "slow_down") {
                PollDecision::SlowDown
            } else if text_eq(a.error.as_str(), "expired_token") {
                PollDecision::Fail(PimError::Auth(owned("Device code expired. Try again.")))
            } else {
                let desc = match a.error_description {
                    Some(d) => d,
                    None => String::new(),
                };
                let head = join3("Device code flow failed: ", a.error.as_str(), " - ");
                PollDecision::Fail(PimError::Auth(join2(head.as_str(), desc.as_str())))
            }
        },
        None => PollDecision::Fail(PimError::Auth(join2("Unexpected response: ", body))),
    }
}

/// The deadline of the device code flow, checked before each poll: once
/// more than `expires_in` seconds have passed since the code was issued,
/// the flow ends with `Device code flow timed out`.
pub fn device_flow_deadline(elapsed_ms: u128, expires_in: u64) -> (r: Option<PimError>)
    ensures
        elapsed_ms > expires_in * 1000 ==> (r matches Some(PimError::Auth(m)) && m@ == "Device code flow timed out"@),
        elapsed_ms <= expires_in * 1000 ==> r is None,
{
    let limit: u128 = (expires_in as u128) * 1000;
    if elapsed_ms > limit {
        Some(PimError::Auth(owned("Device code flow timed out")))
    } else {
        None
    }
}

/// The error for a refused token refresh.
pub fn refresh_failure(body: &str) -> (e: PimError)
    ensures
        e matches PimError::Auth(m) && m@ == "Token refresh failed: "@ + body@,
{
    PimError::Auth(join2("Token refresh failed: ", body))
}

/// The error for a refused device code request.
pub fn device_code_failure(body: &str) -> (e: PimError)
    ensures
        e matches PimError::Auth(m) && m@ == "Device code request failed: "@ + body@,
{
    PimError::Auth(join2("Device code request failed: ", body))
}

/// The token endpoint of a tenant.
pub fn token_url(tenant_id: &str) -> (r: String)
    ensures
        r@ == "https://login.microsoftonline.com/"@ + tenant_id@ + "/oauth2/v2.0/token"@,
{
    join3("https://login.microsoftonline.com/", tenant_id, "/oauth2/v2.0/token")
}

/// The device code endpoint of a tenant.
pub fn device_code_url(tenant_id: &str) -> (r: String)
    ensures
        r@ == "https://login.microsoftonline.com/"@ + tenant_id@ + "/oauth2/v2.0/devicecode"@,
{
    join3("https://login.microsoftonline.com/", tenant_id, "/oauth2/v2.0/devicecode")
}

} // verus!
