use paintbrush::auth::{
    build_client, domain_for, ensure_valid_token, expires_at, fetch_html, login_hint, login_target,
    mobile_verify, normalize_domain, protocol, refreshed_session, save_token_response, try_fetch,
    establish_web_session, AuthError, FetchAction, FetchStage, MobileVerifyResponse, Session,
    StoredCredentials, TokenReply, TokenStep,
};

fn stored(expires_at: Option<u64>) -> StoredCredentials {
    StoredCredentials {
        domain: "canvas.example".into(),
        protocol: "https".into(),
        client_id: "id".into(),
        client_secret: "secret".into(),
        access_token: "old-access".into(),
        refresh_token: "old-refresh".into(),
        expires_at,
    }
}

#[test]
fn domains_lose_their_scheme() {
    assert_eq!(normalize_domain("https://canvas.example"), "canvas.example");
    assert_eq!(normalize_domain("http://canvas.example"), "canvas.example");
    assert_eq!(normalize_domain("https://https://canvas.example"), "canvas.example");
    assert_eq!(normalize_domain("canvas.example"), "canvas.example");
    assert_eq!(normalize_domain("http://https://canvas.example"), "https://canvas.example");
}

#[test]
fn login_targets_default_to_the_domain() {
    assert_eq!(
        login_target(None, "https://canvas.example"),
        ("canvas.example".to_string(), "canvas.example".to_string())
    );
    assert_eq!(
        login_target(Some("work"), "canvas.example"),
        ("work".to_string(), "canvas.example".to_string())
    );
    assert_eq!(login_hint("work"), "run `paintbrush login --profile work --domain <domain>`");
}

#[test]
fn missing_credentials_are_an_error() {
    match ensure_valid_token("work", &None, 1000) {
        Err(e) => assert_eq!(
            e.message(),
            "no stored credentials for profile 'work'; run `paintbrush login --profile work --domain <domain>`"
        ),
        Ok(_) => panic!("expected an error"),
    }
}

#[test]
fn fresh_tokens_are_used_as_they_are() {
    for expiry in [None, Some(1061)] {
        match ensure_valid_token("work", &Some(stored(expiry)), 1000) {
            Ok(TokenStep::Ready(Session { domain, access_token })) => {
                assert_eq!(domain, "canvas.example");
                assert_eq!(access_token, "old-access");
            }
            _ => panic!("expected the stored token"),
        }
    }
}

#[test]
fn tokens_near_expiry_are_refreshed() {
    match ensure_valid_token("work", &Some(stored(Some(1060))), 1000) {
        Ok(TokenStep::Refresh(plan)) => {
            assert_eq!(plan.refresh_token, "old-refresh");
            assert_eq!(plan.oauth.auth_url, "https://canvas.example/login/oauth2/auth");
            assert_eq!(plan.oauth.token_url, "https://canvas.example/login/oauth2/token");
            assert_eq!(plan.oauth.redirect_url, "https://sso.canvaslms.com/canvas/login");
            assert_eq!(plan.oauth.client_id, "id");
        }
        _ => panic!("expected a refresh"),
    }
}

#[test]
fn a_refresh_keeps_the_refresh_token_unless_reissued() {
    let reply = TokenReply { access_token: "new".into(), refresh_token: None, expires_in: Some(3600) };
    let (creds, session) = refreshed_session("work", stored(Some(1)), Some(reply), 1000).unwrap();
    assert_eq!(creds.refresh_token, "old-refresh");
    assert_eq!(creds.access_token, "new");
    assert_eq!(creds.expires_at, Some(4600));
    assert_eq!(session.access_token, "new");
    assert_eq!(session.domain, "canvas.example");
    let reply = TokenReply {
        access_token: "new".into(),
        refresh_token: Some("rotated".into()),
        expires_in: None,
    };
    let (creds, _) = refreshed_session("work", stored(Some(1)), Some(reply), 1000).unwrap();
    assert_eq!(creds.refresh_token, "rotated");
    assert_eq!(creds.expires_at, None);
    // The refreshed credentials are fresh again.
    assert!(matches!(
        ensure_valid_token("work", &Some(creds), 2000),
        Ok(TokenStep::Ready(_))
    ));
}

#[test]
fn a_failed_refresh_asks_to_log_in_again() {
    let e = refreshed_session("work", stored(Some(1)), None, 1000).err().unwrap();
    assert_eq!(e, AuthError::RefreshFailed { profile: "work".into() });
    assert_eq!(
        e.message(),
        "failed to refresh your stored credentials; run `paintbrush login --profile work --domain <domain>`"
    );
}

#[test]
fn login_needs_a_refresh_token() {
    let verify = MobileVerifyResponse {
        client_id: "id".into(),
        client_secret: "secret".into(),
        protocol: "https".into(),
    };
    let reply = TokenReply { access_token: "a".into(), refresh_token: None, expires_in: None };
    assert_eq!(
        save_token_response("canvas.example", &verify, reply, 5).err(),
        Some(AuthError::NoRefreshToken)
    );
    let far = TokenReply { access_token: "a".into(), refresh_token: None, expires_in: Some(u64::MAX) };
    assert_eq!(
        save_token_response("canvas.example", &verify, far, 5).err(),
        Some(AuthError::NoRefreshToken)
    );
    let reply = TokenReply { access_token: "a".into(), refresh_token: Some("r".into()), expires_in: Some(10) };
    let creds = save_token_response("canvas.example", &verify, reply, 5).unwrap();
    assert_eq!(creds.expires_at, Some(15));
    assert_eq!(creds.refresh_token, "r");
    assert_eq!(creds.protocol, "https");
    assert_eq!(domain_for(Some(creds)), Some("canvas.example".to_string()));
    assert_eq!(domain_for(None), None);
    assert_eq!(expires_at(None, 5), None);
    assert_eq!(expires_at(Some(7), 5), Some(12));
}

#[test]
fn mobile_verify_needs_all_credentials() {
    let ok = mobile_verify(
        "canvas.example",
        Some("id".into()),
        Some("secret".into()),
        Some("http://canvas.example".into()),
        "{}".into(),
    )
    .unwrap();
    assert_eq!(ok.protocol, "http");
    let err = mobile_verify("canvas.example", Some("id".into()), None, None, "{\"result\":3}".into())
        .err()
        .unwrap();
    assert_eq!(
        err.message(),
        "mobile_verify did not return OAuth credentials for canvas.example; Canvas responded: {\"result\":3}"
    );
    assert_eq!(protocol("canvas.example"), "https");
    assert_eq!(protocol("ftp://x://y"), "ftp");
}

#[test]
fn oauth_endpoints_must_parse() {
    let verify = MobileVerifyResponse {
        client_id: "id".into(),
        client_secret: "secret".into(),
        protocol: "https".into(),
    };
    let c = build_client(&verify, "canvas.example").unwrap();
    assert_eq!(c.auth_url, "https://canvas.example/login/oauth2/auth");
    let bad = MobileVerifyResponse { protocol: "".into(), ..verify };
    assert_eq!(
        build_client(&bad, "canvas.example").err(),
        Some(AuthError::InvalidEndpoint {
            url: "://canvas.example/login/oauth2/auth".into(),
            reason: "relative URL without a base".into(),
        })
    );
    let e = build_client(&bad, "canvas.example").err().unwrap();
    assert_eq!(e.message(), "relative URL without a base");
    let with_port = MobileVerifyResponse { protocol: "https".into(), ..bad };
    assert_eq!(
        build_client(&with_port, "canvas.example:99999").err().unwrap().message(),
        "invalid port number"
    );
}

#[test]
fn html_is_only_kept_on_the_domain() {
    assert_eq!(
        try_fetch("https://canvas.example/courses/1/quizzes/2", "canvas.example", "<p>".into()),
        Some("<p>".to_string())
    );
    assert_eq!(try_fetch("https://sso.example/login", "canvas.example", "<p>".into()), None);
    assert_eq!(try_fetch("garbage", "canvas.example", "<p>".into()), None);
}

#[test]
fn fetching_html_establishes_a_session_once() {
    assert!(matches!(
        fetch_html(FetchStage::FirstTry, "canvas.example", None),
        FetchAction::EstablishSession
    ));
    match fetch_html(FetchStage::AfterSession, "canvas.example", None) {
        FetchAction::Fail(e) => assert_eq!(
            e.message(),
            "still redirected off canvas.example after establishing a session"
        ),
        _ => panic!("expected a failure"),
    }
    match fetch_html(FetchStage::AfterSession, "canvas.example", Some("<html>".into())) {
        FetchAction::Deliver(html) => assert_eq!(html, "<html>"),
        _ => panic!("expected the page"),
    }
    let req = establish_web_session(
        &Session { domain: "canvas.example".into(), access_token: "tok".into() },
        "https://canvas.example/x",
    );
    assert_eq!(req.url, "https://canvas.example/login/session_token");
    assert_eq!(req.authorization, "Bearer tok");
    assert_eq!(
        req.query,
        vec![("return_to".to_string(), "https://canvas.example/x".to_string())]
    );
}
