use paintbrush::auth::Session;
use paintbrush::client::{next_link, normalize_path, validate_canvas_url, CanvasClient, PaginationError};
use paintbrush::resource::ClientFactory;

fn client() -> CanvasClient {
    CanvasClient::connect(
        "work".to_string(),
        Session { domain: "canvas.example".to_string(), access_token: "tok".to_string() },
    )
}

#[test]
fn finds_the_opaque_next_page_link() {
    let header = [
        "<https://canvas.example/api/v1/courses?page=1>; rel=\"current\", ",
        "<https://canvas.example/api/v1/courses?opaque=abc>; rel=\"next\", ",
        "<https://canvas.example/api/v1/courses?page=9>; rel=\"last\"",
    ]
    .concat();

    assert_eq!(
        next_link(&header).as_deref(),
        Some("https://canvas.example/api/v1/courses?opaque=abc")
    );
}

#[test]
fn returns_none_without_a_next_page() {
    let header = "<https://canvas.example/api/v1/courses?page=1>; rel=\"current\"";
    assert_eq!(next_link(header), None);
}

#[test]
fn rejects_pagination_links_outside_the_canvas_domain() {
    assert!(
        validate_canvas_url("https://canvas.example/api/v1/courses?page=2", "canvas.example")
            .is_ok()
    );
    assert!(validate_canvas_url("https://attacker.example/steal", "canvas.example").is_err());
}

#[test]
fn next_link_takes_the_first_next_relation() {
    let header = "<https://a.example/1>; rel=\"next\", <https://a.example/2>; rel=\"next\"";
    assert_eq!(next_link(header).as_deref(), Some("https://a.example/1"));
}

#[test]
fn next_link_trims_whitespace_and_keeps_unbracketed_targets() {
    assert_eq!(
        next_link("  https://a.example/x ;  rel=\"next\"  ").as_deref(),
        Some("https://a.example/x")
    );
    assert_eq!(next_link("<https://a.example/y;rel=\"next\"").as_deref(), Some("<https://a.example/y"));
    assert_eq!(next_link("<>; rel=\"next\"").as_deref(), Some(""));
}

#[test]
fn next_link_needs_the_exact_relation_after_the_target() {
    assert_eq!(next_link("rel=\"next\""), None);
    assert_eq!(next_link("<https://a.example/z>; rel=next"), None);
    assert_eq!(next_link("<https://a.example/z>; rel=\"prev\"; title=\"x\""), None);
    assert_eq!(
        next_link("<https://a.example/z>; title=\"x\"; rel=\"next\"").as_deref(),
        Some("https://a.example/z")
    );
    assert_eq!(next_link(""), None);
}

#[test]
fn pagination_urls_must_be_https_on_the_domain() {
    assert_eq!(
        validate_canvas_url("http://canvas.example/api/v1/courses?page=2", "canvas.example"),
        Err(PaginationError::OutsideDomain { domain: "canvas.example".to_string() })
    );
    assert_eq!(
        validate_canvas_url("not a url", "canvas.example"),
        Err(PaginationError::InvalidUrl { reason: "relative URL without a base".to_string() })
    );
    assert_eq!(
        validate_canvas_url("https://canvas.example:99999/", "canvas.example"),
        Err(PaginationError::InvalidUrl { reason: "invalid port number".to_string() })
    );
    assert_eq!(
        validate_canvas_url("https://canvas.example/api/v1/courses?page=2", "canvas.example"),
        Ok(())
    );
    assert_eq!(
        validate_canvas_url("https://canvas.example.attacker.example/", "canvas.example"),
        Err(PaginationError::OutsideDomain { domain: "canvas.example".to_string() })
    );
}

#[test]
fn pagination_error_messages() {
    assert_eq!(
        PaginationError::InvalidUrl { reason: "relative URL without a base".to_string() }.message(),
        "Canvas returned an invalid pagination URL"
    );
    assert_eq!(
        PaginationError::OutsideDomain { domain: "canvas.example".to_string() }.message(),
        "Canvas returned a pagination URL outside canvas.example"
    );
}

#[test]
fn paths_get_a_leading_slash() {
    assert_eq!(normalize_path("courses"), "/courses");
    assert_eq!(normalize_path("/courses"), "/courses");
    assert_eq!(normalize_path(""), "/");
}

#[test]
fn client_urls_and_requests() {
    let c = client();
    assert_eq!(c.web_url("courses/42"), "https://canvas.example/courses/42");
    assert_eq!(c.api_url("/courses"), "https://canvas.example/api/v1/courses");
    let q = vec![("include[]".to_string(), "submission".to_string())];
    let r = c.get("/users/self", &q);
    assert_eq!(r.url, "https://canvas.example/api/v1/users/self");
    assert_eq!(r.authorization, "Bearer tok");
    assert_eq!(r.query, q);
    let first = c.first_page("/courses", &q);
    assert_eq!(
        first.query,
        vec![
            ("per_page".to_string(), "100".to_string()),
            ("include[]".to_string(), "submission".to_string())
        ]
    );
    let later = c.page("https://canvas.example/api/v1/courses?opaque=abc".to_string());
    assert_eq!(later.url, "https://canvas.example/api/v1/courses?opaque=abc");
    assert!(later.query.is_empty());
}

#[test]
fn next_page_follows_only_links_on_the_domain() {
    let c = client();
    assert_eq!(c.next_page(None), Ok(None));
    assert_eq!(c.next_page(Some("<https://canvas.example/x>; rel=\"last\"")), Ok(None));
    assert_eq!(
        c.next_page(Some("<https://canvas.example/api/v1/courses?page=2>; rel=\"next\"")),
        Ok(Some("https://canvas.example/api/v1/courses?page=2".to_string()))
    );
    assert_eq!(
        c.next_page(Some("<https://attacker.example/steal>; rel=\"next\"")),
        Err(PaginationError::OutsideDomain { domain: "canvas.example".to_string() })
    );
}

#[test]
fn normalizing_a_path_twice_changes_nothing() {
    for p in ["x", "/x", "", "//x"] {
        assert_eq!(normalize_path(&normalize_path(p)), normalize_path(p));
    }
}
