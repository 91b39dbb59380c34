use vstd::prelude::*;

use crate::address::{has_host, host_is, parse_url, url_parse};
use crate::text::{
    chars_of, find_exec, find_from, push_str, strip_all, strip_index, string_of_range,
};

verus! {

// ---------------------------------------------------------------------------
// Plain data
// ---------------------------------------------------------------------------

/// A resolved, ready-to-use Canvas session: the domain to hit and a valid
/// bearer token for it.
pub struct Session {
    pub domain: String,
    pub access_token: String,
}

/// Credentials for one profile, as they are kept in the OS keychain.
pub struct StoredCredentials {
    pub domain: String,
    /// "https", from mobile_verify — needed to hit the right token endpoint later.
    pub protocol: String,
    pub client_id: String,
    /// The borrowed Android app credentials; reused for refresh so that
    /// mobile_verify is not hit again.
    pub client_secret: String,
    pub access_token: String,
    /// Canvas does not rotate this on refresh; stored once at login.
    pub refresh_token: String,
    /// Unix seconds, if Canvas reported an `expires_in` for this token;
    /// `None` means "no known expiry".
    pub expires_at: Option<u64>,
}

/// The OAuth client credentials that mobile_verify hands out for a domain.
pub struct MobileVerifyResponse {
    pub client_id: String,
    pub client_secret: String,
    pub protocol: String,
}

/// What the logic reads of a token response: the access token, the refresh
/// token if one was issued, and `expires_in` in seconds if reported.
pub struct TokenReply {
    pub access_token: String,
    pub refresh_token: Option<String>,
    pub expires_in: Option<u64>,
}

/// What an OAuth client is built from: the client credentials and the
/// authorization, token and redirect endpoints.
pub struct OAuthConfig {
    pub client_id: String,
    pub client_secret: String,
    pub auth_url: String,
    pub token_url: String,
    pub redirect_url: String,
}

/// Why an authentication step failed.
#[derive(Debug, PartialEq, Eq)]
pub enum AuthError {
    /// No credentials are stored for the profile.
    NoCredentials { profile: String },
    /// Canvas refused to refresh the stored credentials of the profile.
    RefreshFailed { profile: String },
    /// Canvas did not issue a refresh token on login.
    NoRefreshToken,
    /// mobile_verify did not hand out OAuth credentials for the domain;
    /// `response` is what it answered.
    NoOAuthCredentials { domain: String, response: String },
    /// An OAuth endpoint URL does not parse; `reason` is the parser's error.
    InvalidEndpoint { url: String, reason: String },
    /// The page was still served off the domain after a web session was
    /// established.
    StillRedirected { domain: String },
}

// ---------------------------------------------------------------------------
// Domains and profiles
// ---------------------------------------------------------------------------

/// A domain as typed, without `https://` and `http://` prefixes.
pub open spec fn normalized_domain(d: Seq<char>) -> Seq<char> {
    strip_all(strip_all(d, "https://"@), "http://"@)
}

/// A domain without `https://` and `http://` prefixes.
pub fn normalize_domain(domain: &str) -> (r: String)
    ensures
        r@ == normalized_domain(domain@),
{
    let v = chars_of(domain);
    let https = chars_of("https://");
    let http = chars_of("http://");
    proof {
        reveal_strlit("https://");
        reveal_strlit("http://");
    }
    assert(v@.skip(0) =~= v@);
    let i = strip_index(&v, &https, 0);
    let j = strip_index(&v, &http, i);
    let r = string_of_range(&v, j, v.len());
    assert(v@.subrange(j as int, v.len() as int) =~= v@.skip(j as int));
    r
}

/// The advice to log in again, for a profile.
pub open spec fn login_hint_of(profile: Seq<char>) -> Seq<char> {
    "run `paintbrush login --profile "@ + profile + " --domain <domain>`"@
}

pub fn login_hint(profile: &str) -> (r: String)
    ensures
        r@ == login_hint_of(profile@),
{
    let mut r = "run `paintbrush login --profile ".to_owned();
    push_str(&mut r, profile);
    push_str(&mut r, " --domain <domain>`");
    r
}

/// The profile and domain a login is for: the domain normalized, and the
/// profile given, or else the domain itself.
pub fn login_target(profile: Option<&str>, domain: &str) -> (r: (String, String))
    ensures
        r.1@ == normalized_domain(domain@),
        r.0@ == (match profile {
            Some(p) => p@,
            None => normalized_domain(domain@),
        }),
{
    let d = normalize_domain(domain);
    let p = match profile {
        Some(p) => p.to_owned(),
        None => d.clone(),
    };
    (p, d)
}

/// The domain a profile is logged into, if it has stored credentials.
pub fn domain_for(stored: Option<StoredCredentials>) -> (r: Option<String>)
    ensures
        r matches Some(d) ==> stored matches Some(c) && d@ == c.domain@,
        r is None <==> stored is None,
{
    match stored {
        Some(c) => Some(c.domain),
        None => None,
    }
}

// ---------------------------------------------------------------------------
// mobile_verify and the OAuth client
// ---------------------------------------------------------------------------

/// The scheme of `base_url` (what precedes its first `://`), or `https`.
pub open spec fn protocol_of(base_url: Seq<char>) -> Seq<char> {
    match find_from(base_url, "://"@, 0) {
        Some(i) => base_url.take(i),
        None => "https"@,
    }
}

pub fn protocol(base_url: &str) -> (r: String)
    ensures
        r@ == protocol_of(base_url@),
{
    let v = chars_of(base_url);
    let sep = chars_of("://");
    match find_exec(&v, &sep) {
        Some(i) => {
            proof {
                crate::text::lemma_find_from_bounds(v@, sep@, 0);
            }
            let r = string_of_range(&v, 0, i);
            assert(v@.subrange(0, i as int) =~= v@.take(i as int));
            r
        },
        None => "https".to_owned(),
    }
}

/// Reads mobile_verify's answer for `domain`: the `client_id`,
/// `client_secret` and `base_url` fields that were strings in it, and its
/// raw text. All three are needed; the protocol is that of `base_url`.
pub fn mobile_verify(
    domain: &str,
    client_id: Option<String>,
    client_secret: Option<String>,
    base_url: Option<String>,
    raw: String,
) -> (r: Result<MobileVerifyResponse, AuthError>)
    ensures
        r is Ok <==> (client_id is Some && client_secret is Some && base_url is Some),
        r matches Ok(m) ==> m.client_id@ == client_id->0@ && m.client_secret@ == client_secret->0@
            && m.protocol@ == protocol_of(base_url->0@),
        r matches Err(e) ==> e matches AuthError::NoOAuthCredentials { domain: d, response: t }
            && d@ == domain@ && t@ == raw@,
{
    match (client_id, client_secret, base_url) {
        (Some(id), Some(secret), Some(base)) => {
            let p = protocol(base.as_str());
            Ok(MobileVerifyResponse { client_id: id, client_secret: secret, protocol: p })
        },
        _ => Err(AuthError::NoOAuthCredentials { domain: domain.to_owned(), response: raw }),
    }
}

/// `{protocol}://{domain}/login/oauth2/auth`.
pub open spec fn auth_url_of(protocol: Seq<char>, domain: Seq<char>) -> Seq<char> {
    protocol + "://"@ + domain + "/login/oauth2/auth"@
}

/// `{protocol}://{domain}/login/oauth2/token`.
pub open spec fn token_url_of(protocol: Seq<char>, domain: Seq<char>) -> Seq<char> {
    protocol + "://"@ + domain + "/login/oauth2/token"@
}

/// The fixed redirect that Canvas accepts for the borrowed client.
pub open spec fn redirect_url_spec() -> Seq<char> {
    "https://sso.canvaslms.com/canvas/login"@
}

/// The first of the three endpoint URLs that does not parse, if any, with
/// the parser's error.
pub open spec fn first_invalid_endpoint(protocol: Seq<char>, domain: Seq<char>) -> Option<
    (Seq<char>, Seq<char>),
> {
    let a = auth_url_of(protocol, domain);
    let t = token_url_of(protocol, domain);
    let d = redirect_url_spec();
    match url_parse(a) {
        Err(m) => Some((a, m)),
        Ok(_) => match url_parse(t) {
            Err(m) => Some((t, m)),
            Ok(_) => match url_parse(d) {
                Err(m) => Some((d, m)),
                Ok(_) => None,
            },
        },
    }
}

fn endpoint(protocol: &str, domain: &str, path: &str) -> (r: String)
    ensures
        r@ == protocol@ + "://"@ + domain@ + path@,
{
    let mut r = protocol.to_owned();
    push_str(&mut r, "://");
    push_str(&mut r, domain);
    push_str(&mut r, path);
    r
}

/// What the OAuth client for `domain` is built from, with the credentials
/// from mobile_verify; refused if an endpoint URL does not parse.
pub fn build_client(verify: &MobileVerifyResponse, domain: &str) -> (r: Result<OAuthConfig, AuthError>)
    ensures
        r is Ok <==> first_invalid_endpoint(verify.protocol@, domain@) is None,
        r matches Err(e) ==> e matches AuthError::InvalidEndpoint { url, reason }
            && first_invalid_endpoint(verify.protocol@, domain@) == Some((url@, reason@)),
        r matches Ok(c) ==> c.client_id@ == verify.client_id@ && c.client_secret@
            == verify.client_secret@ && c.auth_url@ == auth_url_of(verify.protocol@, domain@)
            && c.token_url@ == token_url_of(verify.protocol@, domain@) && c.redirect_url@
            == redirect_url_spec(),
{
    let auth = endpoint(verify.protocol.as_str(), domain, "/login/oauth2/auth");
    let token = endpoint(verify.protocol.as_str(), domain, "/login/oauth2/token");
    let redirect = "https://sso.canvaslms.com/canvas/login".to_owned();
    assert(auth@ =~= auth_url_of(verify.protocol@, domain@));
    assert(token@ =~= token_url_of(verify.protocol@, domain@));
    if let Err(reason) = parse_url(auth.as_str()) {
        return Err(AuthError::InvalidEndpoint { url: auth, reason });
    }
    if let Err(reason) = parse_url(token.as_str()) {
        return Err(AuthError::InvalidEndpoint { url: token, reason });
    }
    if let Err(reason) = parse_url(redirect.as_str()) {
        return Err(AuthError::InvalidEndpoint { url: redirect, reason });
    }
    Ok(OAuthConfig {
        client_id: verify.client_id.clone(),
        client_secret: verify.client_secret.clone(),
        auth_url: auth,
        token_url: token,
        redirect_url: redirect,
    })
}

} // verus!

verus! {

// ---------------------------------------------------------------------------
// Tokens
// ---------------------------------------------------------------------------

/// A token that expires within this many seconds is refreshed ahead of time.
pub const TOKEN_EXPIRY_SKEW: u64 = 60;

/// A token with this expiry is still good at `now`: it has no known expiry,
/// or expires more than the skew after `now`.
pub open spec fn still_fresh(expires_at: Option<u64>, now: u64) -> bool {
    match expires_at {
        None => true,
        Some(e) => e > now + TOKEN_EXPIRY_SKEW,
    }
}

/// The expiry of a token issued at `now` that lives `expires_in` seconds.
pub open spec fn expiry_of(expires_in: Option<u64>, now: u64) -> Option<u64> {
    match expires_in {
        None => None,
        Some(e) => Some((now + e) as u64),
    }
}

/// The expiry can be written in Unix seconds.
pub open spec fn expiry_fits(expires_in: Option<u64>, now: u64) -> bool {
    match expires_in {
        None => true,
        Some(e) => now + e <= u64::MAX,
    }
}

/// The expiry, in Unix seconds, of a token issued at `now` with the given
/// `expires_in`; `None` if Canvas reported none, which is not an error.
pub fn expires_at(expires_in: Option<u64>, now: u64) -> (r: Option<u64>)
    requires
        expiry_fits(expires_in, now),
    ensures
        r == expiry_of(expires_in, now),
{
    match expires_in {
        None => None,
        Some(e) => Some(now + e),
    }
}

/// What to do next for a token: use it, or refresh it first.
pub enum TokenStep {
    /// The stored token is still good.
    Ready(Session),
    /// The stored token has to be refreshed with this client and refresh token.
    Refresh(RefreshPlan),
}

/// How to refresh a stored token.
pub struct RefreshPlan {
    pub oauth: OAuthConfig,
    pub refresh_token: String,
}

/// Decides, for `profile` at Unix time `now`, whether its stored credentials
/// give a valid session as they are or have to be refreshed first.
pub fn ensure_valid_token(profile: &str, stored: &Option<StoredCredentials>, now: u64) -> (r: Result<
    TokenStep,
    AuthError,
>)
    requires
        now + TOKEN_EXPIRY_SKEW <= u64::MAX,
    ensures
        match stored {
            None => r matches Err(AuthError::NoCredentials { profile: p }) && p@ == profile@,
            Some(c) => if still_fresh(c.expires_at, now) {
                r matches Ok(TokenStep::Ready(s)) && s.domain@ == c.domain@ && s.access_token@
                    == c.access_token@
            } else {
                &&& (r is Ok <==> first_invalid_endpoint(c.protocol@, c.domain@) is None)
                &&& r matches Err(e) ==> e matches AuthError::InvalidEndpoint { url, reason }
                    && first_invalid_endpoint(c.protocol@, c.domain@) == Some((url@, reason@))
                &&& r matches Ok(step) ==> step matches TokenStep::Refresh(plan)
                    && plan.refresh_token@ == c.refresh_token@ && plan.oauth.client_id@
                    == c.client_id@ && plan.oauth.client_secret@ == c.client_secret@
                    && plan.oauth.auth_url@ == auth_url_of(c.protocol@, c.domain@)
                    && plan.oauth.token_url@ == token_url_of(c.protocol@, c.domain@)
                    && plan.oauth.redirect_url@ == redirect_url_spec()
            },
        },
{
    let c = match stored {
        None => {
            return Err(AuthError::NoCredentials { profile: profile.to_owned() });
        },
        Some(c) => c,
    };
    let fresh = match c.expires_at {
        None => true,
        Some(e) => e > now + TOKEN_EXPIRY_SKEW,
    };
    if fresh {
        return Ok(
            TokenStep::Ready(
                Session { domain: c.domain.clone(), access_token: c.access_token.clone() },
            ),
        );
    }
    let verify = MobileVerifyResponse {
        client_id: c.client_id.clone(),
        client_secret: c.client_secret.clone(),
        protocol: c.protocol.clone(),
    };
    let oauth = build_client(&verify, c.domain.as_str())?;
    Ok(TokenStep::Refresh(RefreshPlan { oauth, refresh_token: c.refresh_token.clone() }))
}

/// The credentials that replace `stored` once Canvas answered a refresh, and
/// the session they give; `reply` is `None` where the refresh failed.
/// A refresh token is kept unless Canvas issued a new one.
pub fn refreshed_session(
    profile: &str,
    stored: StoredCredentials,
    reply: Option<TokenReply>,
    now: u64,
) -> (r: Result<(StoredCredentials, Session), AuthError>)
    requires
        reply matches Some(t) ==> expiry_fits(t.expires_in, now),
    ensures
        match reply {
            None => r matches Err(AuthError::RefreshFailed { profile: p }) && p@ == profile@,
            Some(t) => r matches Ok((c, s)) && {
                &&& c.domain@ == stored.domain@
                &&& c.protocol@ == stored.protocol@
                &&& c.client_id@ == stored.client_id@
                &&& c.client_secret@ == stored.client_secret@
                &&& c.access_token@ == t.access_token@
                &&& c.refresh_token@ == (match t.refresh_token {
                    Some(n) => n@,
                    None => stored.refresh_token@,
                })
                &&& c.expires_at == expiry_of(t.expires_in, now)
                &&& s.domain@ == stored.domain@
                &&& s.access_token@ == t.access_token@
            },
        },
{
    let t = match reply {
        None => {
            return Err(AuthError::RefreshFailed { profile: profile.to_owned() });
        },
        Some(t) => t,
    };
    let refresh_token = match t.refresh_token {
        Some(n) => n,
        None => stored.refresh_token,
    };
    let expiry = expires_at(t.expires_in, now);
    let access_token = t.access_token;
    let creds = StoredCredentials {
        domain: stored.domain.clone(),
        protocol: stored.protocol,
        client_id: stored.client_id,
        client_secret: stored.client_secret,
        access_token: access_token.clone(),
        refresh_token,
        expires_at: expiry,
    };
    Ok((creds, Session { domain: stored.domain, access_token }))
}

/// The credentials to keep after a login to `domain`: the client
/// credentials from mobile_verify and the tokens Canvas issued at `now`.
/// Refused if Canvas issued no refresh token.
pub fn save_token_response(
    domain: &str,
    verify: &MobileVerifyResponse,
    reply: TokenReply,
    now: u64,
) -> (r: Result<StoredCredentials, AuthError>)
    requires
        reply.refresh_token is Some ==> expiry_fits(reply.expires_in, now),
    ensures
        r is Err <==> reply.refresh_token is None,
        r matches Err(e) ==> e == AuthError::NoRefreshToken,
        r matches Ok(c) ==> {
            &&& c.domain@ == domain@
            &&& c.protocol@ == verify.protocol@
            &&& c.client_id@ == verify.client_id@
            &&& c.client_secret@ == verify.client_secret@
            &&& c.access_token@ == reply.access_token@
            &&& c.refresh_token@ == reply.refresh_token->0@
            &&& c.expires_at == expiry_of(reply.expires_in, now)
        },
{
    let refresh_token = match reply.refresh_token {
        Some(n) => n,
        None => {
            return Err(AuthError::NoRefreshToken);
        },
    };
    Ok(StoredCredentials {
        domain: domain.to_owned(),
        protocol: verify.protocol.clone(),
        client_id: verify.client_id.clone(),
        client_secret: verify.client_secret.clone(),
        access_token: reply.access_token,
        refresh_token,
        expires_at: expires_at(reply.expires_in, now),
    })
}

/// Credentials saved after a refresh are fresh for the rest of the lifetime
/// Canvas gave them, less the skew: once refreshed at `now` with a reply that
/// reports no expiry, or an `expires_in` above the skew, `ensure_valid_token`
/// at any `later` time before that point uses them as they are.
pub proof fn lemma_refreshed_token_is_fresh(expires_in: Option<u64>, now: u64, later: u64)
    requires
        expiry_fits(expires_in, now),
        later + TOKEN_EXPIRY_SKEW <= u64::MAX,
        match expires_in {
            None => true,
            Some(e) => later + TOKEN_EXPIRY_SKEW < now + e,
        },
    ensures
        still_fresh(expiry_of(expires_in, now), later),
{
}

} // verus!

verus! {

// ---------------------------------------------------------------------------
// Web sessions
// ---------------------------------------------------------------------------

/// The body of a response whose final URL (after redirects) was parsed as
/// given, kept only if that URL is on `domain`.
pub open spec fn landed_body_of(
    parsed: crate::address::UrlView,
    domain: Seq<char>,
    body: Seq<char>,
) -> Option<Seq<char>> {
    if has_host(parsed, domain) {
        Some(body)
    } else {
        None
    }
}

/// The body of a page fetch, returned only if the fetch ended up
/// authenticated: its final URL, after redirects, is still on `domain` (an
/// SSO or login bounce lands elsewhere).
pub fn try_fetch(final_url: &str, domain: &str, body: String) -> (r: Option<String>)
    ensures
        crate::client::opt_view(r) == landed_body_of(url_parse(final_url@), domain@, body@),
{
    let parsed = parse_url(final_url);
    if host_is(&parsed, domain) {
        Some(body)
    } else {
        None
    }
}

/// Where a page fetch stands: before or after a web session was
/// established for it.
pub enum FetchStage {
    FirstTry,
    AfterSession,
}

/// What to do after a page fetch.
pub enum FetchAction {
    /// Hand out this HTML (and keep the session cookies).
    Deliver(String),
    /// Mint a web session from the OAuth token, then fetch again.
    EstablishSession,
    /// Give up.
    Fail(AuthError),
}

/// Decides, after a fetch at `stage` whose `try_fetch` outcome is
/// `fetched`, what `fetch_html` does next: deliver what landed on the
/// domain; otherwise establish a session once, and fail if the page is still
/// served off the domain after that.
pub fn fetch_html(stage: FetchStage, domain: &str, fetched: Option<String>) -> (r: FetchAction)
    ensures
        match fetched {
            Some(b) => r matches FetchAction::Deliver(x) && x@ == b@,
            None => match stage {
                FetchStage::FirstTry => r is EstablishSession,
                FetchStage::AfterSession => r matches FetchAction::Fail(
                    AuthError::StillRedirected { domain: d },
                ) && d@ == domain@,
            },
        },
{
    match fetched {
        Some(b) => FetchAction::Deliver(b),
        None => match stage {
            FetchStage::FirstTry => FetchAction::EstablishSession,
            FetchStage::AfterSession => FetchAction::Fail(
                AuthError::StillRedirected { domain: domain.to_owned() },
            ),
        },
    }
}

/// HTML is only ever handed out from a response that landed on the
/// profile's domain: whatever `try_fetch` passes on to `fetch_html` comes
/// from a final URL whose host is the domain.
pub proof fn lemma_html_only_from_domain(final_url: Seq<char>, domain: Seq<char>, body: Seq<char>)
    ensures
        landed_body_of(url_parse(final_url), domain, body) matches Some(b) ==> b == body
            && has_host(url_parse(final_url), domain),
{
}

/// `https://{domain}/login/session_token`.
pub open spec fn session_token_url_of(domain: Seq<char>) -> Seq<char> {
    "https://"@ + domain + "/login/session_token"@
}

/// The request that mints a one-time session token for `target_url` from
/// the session's OAuth token.
pub fn establish_web_session(session: &Session, target_url: &str) -> (r: crate::client::ApiRequest)
    ensures
        r.url@ == session_token_url_of(session.domain@),
        r.authorization@ == crate::client::bearer_of(session.access_token@),
        crate::client::query_view(r.query@) == seq![("return_to"@, target_url@)],
{
    let mut url = "https://".to_owned();
    push_str(&mut url, session.domain.as_str());
    push_str(&mut url, "/login/session_token");
    let mut query: crate::client::Query = Vec::new();
    query.push(("return_to".to_owned(), target_url.to_owned()));
    assert(crate::client::query_view(query@) =~= seq![("return_to"@, target_url@)]);
    crate::client::ApiRequest {
        url,
        authorization: crate::client::bearer(session.access_token.as_str()),
        query,
    }
}

// ---------------------------------------------------------------------------
// Messages
// ---------------------------------------------------------------------------

/// The text an authentication error is reported with.
pub open spec fn auth_error_text(e: AuthError) -> Seq<char> {
    match e {
        AuthError::NoCredentials { profile } => "no stored credentials for profile '"@ + profile@
            + "'; "@ + login_hint_of(profile@),
        AuthError::RefreshFailed { profile } => "failed to refresh your stored credentials; "@
            + login_hint_of(profile@),
        AuthError::NoRefreshToken => "Canvas did not issue a refresh token on login"@,
        AuthError::NoOAuthCredentials { domain, response } =>
            "mobile_verify did not return OAuth credentials for "@ + domain@
            + "; Canvas responded: "@ + response@,
        AuthError::InvalidEndpoint { reason, .. } => reason@,
        AuthError::StillRedirected { domain } => "still redirected off "@ + domain@
            + " after establishing a session"@,
    }
}

impl AuthError {
    pub fn message(&self) -> (r: String)
        ensures
            r@ == auth_error_text(*self),
    {
        match self {
            AuthError::NoCredentials { profile } => {
                let mut r = "no stored credentials for profile '".to_owned();
                push_str(&mut r, profile.as_str());
                push_str(&mut r, "'; ");
                let h = login_hint(profile.as_str());
                push_str(&mut r, h.as_str());
                r
            },
            AuthError::RefreshFailed { profile } => {
                let mut r = "failed to refresh your stored credentials; ".to_owned();
                let h = login_hint(profile.as_str());
                push_str(&mut r, h.as_str());
                r
            },
            AuthError::NoRefreshToken => "Canvas did not issue a refresh token on login".to_owned(),
            AuthError::NoOAuthCredentials { domain, response } => {
                let mut r = "mobile_verify did not return OAuth credentials for ".to_owned();
                push_str(&mut r, domain.as_str());
                push_str(&mut r, "; Canvas responded: ");
                push_str(&mut r, response.as_str());
                r
            },
            AuthError::InvalidEndpoint { reason, .. } => reason.clone(),
            AuthError::StillRedirected { domain } => {
                let mut r = "still redirected off ".to_owned();
                push_str(&mut r, domain.as_str());
                push_str(&mut r, " after establishing a session");
                r
            },
        }
    }
}

} // verus!
