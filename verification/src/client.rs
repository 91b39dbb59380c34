use vstd::prelude::*;

use crate::address::{host_is, parse_url, parsed_view, url_parse, ParsedUrl, UrlView};
use crate::text::{
    chars_of, lemma_split_nonempty, occurs_at_exec, push_str, split, split_chars, string_of_range,
    trim, trim_bounds,
};

verus! {

/// Query parameters of a request, in order.
pub type Query = Vec<(String, String)>;

// ---------------------------------------------------------------------------
// Paths
// ---------------------------------------------------------------------------

/// `path` with a leading `/`, added if missing.
pub open spec fn normalized_path(path: Seq<char>) -> Seq<char> {
    if path.len() > 0 && path[0] == '/' {
        path
    } else {
        seq!['/'] + path
    }
}

pub fn normalize_path(path: &str) -> (r: String)
    ensures
        r@ == normalized_path(path@),
{
    let v = chars_of(path);
    if v.len() > 0 && v[0] == '/' {
        path.to_owned()
    } else {
        let mut r = String::new();
        crate::text::push_char(&mut r, '/');
        push_str(&mut r, path);
        assert(r@ =~= seq!['/'] + path@);
        r
    }
}

// ---------------------------------------------------------------------------
// Link headers
// ---------------------------------------------------------------------------

/// The relation that marks the next page.
pub open spec fn rel_next() -> Seq<char> {
    "rel=\"next\""@
}

/// The target of one link of a `Link` header: its first `;`-separated part,
/// trimmed.
pub open spec fn link_target(link: Seq<char>) -> Seq<char> {
    trim(split(link, ';')[0])
}

/// One of the link's later `;`-separated parts, trimmed, is `rel="next"`.
pub open spec fn link_is_next(link: Seq<char>) -> bool {
    let parts = split(link, ';');
    exists|j: int| 1 <= j < parts.len() && #[trigger] trim(parts[j]) == rel_next()
}

/// A target without its enclosing `<` and `>`, when it has both.
pub open spec fn unwrap_angle(t: Seq<char>) -> Seq<char> {
    if t.len() >= 2 && t[0] == '<' && t.last() == '>' {
        t.subrange(1, t.len() - 1)
    } else {
        t
    }
}

/// The target of the first link at or after `k` that is marked `rel="next"`.
pub open spec fn first_next_from(links: Seq<Seq<char>>, k: int) -> Option<Seq<char>>
    decreases links.len() - k,
{
    if k < 0 || k >= links.len() {
        None
    } else if link_is_next(links[k]) {
        Some(unwrap_angle(link_target(links[k])))
    } else {
        first_next_from(links, k + 1)
    }
}

/// The URL of the next page announced by a `Link` header: among its
/// `,`-separated links, the first marked `rel="next"`.
pub open spec fn next_link_of(header: Seq<char>) -> Option<Seq<char>> {
    first_next_from(split(header, ','), 0)
}

/// A string option as plain values.
pub open spec fn opt_view(o: Option<String>) -> Option<Seq<char>> {
    match o {
        Some(s) => Some(s@),
        None => None,
    }
}

/// Whether the chars `v@[a..b]` are exactly `w@`.
fn range_is(v: &Vec<char>, a: usize, b: usize, w: &Vec<char>) -> (r: bool)
    requires
        a <= b <= v.len(),
    ensures
        r == (v@.subrange(a as int, b as int) == w@),
{
    if b - a != w.len() {
        return false;
    }
    occurs_at_exec(v, w, a)
}

/// Finds the URL of the next page in a `Link` header, following Canvas's
/// opaque pagination links.
pub fn next_link(header: &str) -> (r: Option<String>)
    ensures
        opt_view(r) == next_link_of(header@),
{
    let h = chars_of(header);
    let links = split_chars(&h, ',');
    let rel = chars_of("rel=\"next\"");
    let ghost ls = split(header@, ',');
    let mut k: usize = 0;
    while k < links.len()
        invariant
            h@ == header@,
            ls == split(header@, ','),
            rel@ == rel_next(),
            links.len() == ls.len(),
            forall|m: int| 0 <= m < links.len() ==> #[trigger] links[m]@ == ls[m],
            k <= links.len(),
            first_next_from(ls, 0) == first_next_from(ls, k as int),
        decreases links.len() - k,
    {
        let link = &links[k];
        let parts = split_chars(link, ';');
        proof {
            lemma_split_nonempty(link@, ';');
        }
        let mut j: usize = 1;
        let mut found = false;
        while j < parts.len() && !found
            invariant
                1 <= j <= parts.len(),
                rel@ == rel_next(),
                parts.len() == split(link@, ';').len(),
                forall|m: int| 0 <= m < parts.len() ==> #[trigger] parts[m]@ == split(link@, ';')[m],
                found ==> link_is_next(link@),
                !found ==> forall|m: int| 1 <= m < j ==> #[trigger] trim(split(link@, ';')[m]) != rel_next(),
            decreases parts.len() - j,
        {
            let (x, y) = trim_bounds(&parts[j]);
            if range_is(&parts[j], x, y, &rel) {
                found = true;
                j = parts.len();
            } else {
                j = j + 1;
            }
        }
        if found {
            let first = &parts[0];
            let (a, b) = trim_bounds(first);
            let t = if b - a >= 2 && first[a] == '<' && first[b - 1] == '>' {
                string_of_range(first, a + 1, b - 1)
            } else {
                string_of_range(first, a, b)
            };
            proof {
                let tr = first@.subrange(a as int, b as int);
                assert(tr == link_target(link@));
                if tr.len() >= 2 {
                    assert(tr[0] == first@[a as int]);
                    assert(tr.last() == first@[b - 1]);
                }
                if b - a >= 2 && first@[a as int] == '<' && first@[b - 1] == '>' {
                    assert(tr.subrange(1, tr.len() - 1) =~= first@.subrange(a + 1, b - 1));
                }
                assert(t@ == unwrap_angle(tr));
                assert(link@ == ls[k as int]);
            }
            return Some(t);
        }
        k = k + 1;
    }
    None
}

// ---------------------------------------------------------------------------
// Pagination URLs
// ---------------------------------------------------------------------------

/// Why a pagination URL was refused.
#[derive(Debug, PartialEq, Eq)]
pub enum PaginationError {
    /// The URL does not parse; `reason` is the parser's error.
    InvalidUrl { reason: String },
    /// The URL is not `https` on the client's domain.
    OutsideDomain { domain: String },
}

/// The parsed URL is `https` on `domain`.
pub open spec fn on_canvas(parsed: UrlView, domain: Seq<char>) -> bool {
    match parsed {
        Ok((scheme, host)) => scheme == "https"@ && host == Some(domain),
        Err(_) => false,
    }
}

/// How a pagination URL parsed as given fares on `domain`: accepted,
/// refused with the parser's error, or refused as lying outside `domain`.
pub open spec fn pagination_verdict(parsed: UrlView, domain: Seq<char>, r: Result<(), PaginationError>) -> bool {
    match parsed {
        Err(m) => r matches Err(PaginationError::InvalidUrl { reason }) && reason@ == m,
        Ok(_) => if on_canvas(parsed, domain) {
            r is Ok
        } else {
            r matches Err(PaginationError::OutsideDomain { domain: d }) && d@ == domain
        },
    }
}

/// Accepts a parsed pagination URL only if it is `https` on `domain`.
pub fn check_pagination_url(parsed: Result<ParsedUrl, String>, domain: &str) -> (r: Result<(), PaginationError>)
    ensures
        pagination_verdict(parsed_view(parsed), domain@, r),
{
    let on_host = host_is(&parsed, domain);
    match parsed {
        Err(reason) => Err(PaginationError::InvalidUrl { reason }),
        Ok(u) => {
            let https = u.scheme == "https".to_owned();
            if https && on_host {
                Ok(())
            } else {
                Err(PaginationError::OutsideDomain { domain: domain.to_owned() })
            }
        },
    }
}

/// Accepts a pagination URL that Canvas returned only if it is `https` on
/// `domain`.
pub fn validate_canvas_url(url: &str, domain: &str) -> (r: Result<(), PaginationError>)
    ensures
        pagination_verdict(url_parse(url@), domain@, r),
{
    let parsed = parse_url(url);
    check_pagination_url(parsed, domain)
}

} // verus!

verus! {

// ---------------------------------------------------------------------------
// The client
// ---------------------------------------------------------------------------

/// Query parameters as plain values.
pub open spec fn query_view(q: Seq<(String, String)>) -> Seq<(Seq<char>, Seq<char>)> {
    q.map_values(|p: (String, String)| (p.0@, p.1@))
}

/// A copy of a query.
pub fn copy_query(q: &Query) -> (r: Query)
    ensures
        query_view(r@) == query_view(q@),
{
    let mut r: Query = Vec::new();
    let mut i: usize = 0;
    while i < q.len()
        invariant
            i <= q.len(),
            query_view(r@) == query_view(q@.take(i as int)),
        decreases q.len() - i,
    {
        let (name, value) = &q[i];
        r.push((name.clone(), value.clone()));
        assert(query_view(q@.take(i + 1)) =~= query_view(q@.take(i as int)).push(
            (q@[i as int].0@, q@[i as int].1@),
        ));
        assert(query_view(r@) =~= query_view(q@.take(i as int)).push(
            (q@[i as int].0@, q@[i as int].1@),
        ));
        i = i + 1;
    }
    assert(q@.take(q.len() as int) =~= q@);
    r
}

/// One authenticated `GET` against the Canvas API, as plain values: the
/// URL, the `Authorization` header and the query parameters, in order.
pub struct ApiRequest {
    pub url: String,
    pub authorization: String,
    pub query: Query,
}

/// An authenticated client for ordinary Canvas API requests: the profile it
/// was made for, the Canvas domain, and the bearer token.
pub struct CanvasClient {
    pub profile: String,
    pub domain: String,
    pub access_token: String,
}

/// `https://{domain}{normalized path}`.
pub open spec fn web_url_of(domain: Seq<char>, path: Seq<char>) -> Seq<char> {
    "https://"@ + domain + normalized_path(path)
}

/// `https://{domain}/api/v1{normalized path}`.
pub open spec fn api_url_of(domain: Seq<char>, path: Seq<char>) -> Seq<char> {
    "https://"@ + domain + "/api/v1"@ + normalized_path(path)
}

/// `Bearer {token}`.
pub open spec fn bearer_of(token: Seq<char>) -> Seq<char> {
    "Bearer "@ + token
}

/// `Bearer {token}`.
pub fn bearer(token: &str) -> (r: String)
    ensures
        r@ == bearer_of(token@),
{
    let mut r = "Bearer ".to_owned();
    push_str(&mut r, token);
    r
}

impl crate::resource::ClientFactory for CanvasClient {
    open spec fn made_for(&self, profile: Seq<char>, domain: Seq<char>, token: Seq<char>) -> bool {
        self.profile@ == profile && self.domain@ == domain && self.access_token@ == token
    }

    /// A client for `profile`, using the domain and token of its session.
    fn connect(profile: String, session: crate::auth::Session) -> (c: CanvasClient)
        ensures
            c.profile@ == profile@,
            c.domain@ == session.domain@,
            c.access_token@ == session.access_token@,
    {
        CanvasClient { profile, domain: session.domain, access_token: session.access_token }
    }
}

impl CanvasClient {
    /// The browser URL of `path` on this client's Canvas domain.
    pub fn web_url(&self, path: &str) -> (r: String)
        ensures
            r@ == web_url_of(self.domain@, path@),
    {
        let mut r = "https://".to_owned();
        push_str(&mut r, self.domain.as_str());
        let p = normalize_path(path);
        push_str(&mut r, p.as_str());
        assert(r@ =~= web_url_of(self.domain@, path@));
        r
    }

    /// The API URL of `path` on this client's Canvas domain.
    pub fn api_url(&self, path: &str) -> (r: String)
        ensures
            r@ == api_url_of(self.domain@, path@),
    {
        let mut r = "https://".to_owned();
        push_str(&mut r, self.domain.as_str());
        push_str(&mut r, "/api/v1");
        let p = normalize_path(path);
        push_str(&mut r, p.as_str());
        assert(r@ =~= api_url_of(self.domain@, path@));
        r
    }

    /// The request that fetches `path` with `query` (what `get` sends).
    pub fn get(&self, path: &str, query: &Query) -> (r: ApiRequest)
        ensures
            r.url@ == api_url_of(self.domain@, path@),
            r.authorization@ == bearer_of(self.access_token@),
            query_view(r.query@) == query_view(query@),
    {
        ApiRequest {
            url: self.api_url(path),
            authorization: bearer(self.access_token.as_str()),
            query: copy_query(query),
        }
    }

    /// The request for the first page of a collection (what `get_all`
    /// sends first): `per_page=100`, then `query`.
    pub fn first_page(&self, path: &str, query: &Query) -> (r: ApiRequest)
        ensures
            r.url@ == api_url_of(self.domain@, path@),
            r.authorization@ == bearer_of(self.access_token@),
            query_view(r.query@) == seq![("per_page"@, "100"@)] + query_view(query@),
    {
        let mut q: Query = Vec::new();
        q.push(("per_page".to_owned(), "100".to_owned()));
        let mut rest = copy_query(query);
        let ghost q0 = q@;
        let ghost r0 = rest@;
        q.append(&mut rest);
        assert(q@ =~= q0 + r0);
        assert(query_view(q@) =~= query_view(q0) + query_view(r0));
        assert(query_view(q0) =~= seq![("per_page"@, "100"@)]);
        ApiRequest { url: self.api_url(path), authorization: bearer(self.access_token.as_str()), query: q }
    }
}

} // verus!

verus! {

/// Where `get_all` goes after a page: the `next` link of the page's `Link`
/// header, if any, and only if it is `https` on the client's domain.
pub open spec fn next_page_of(link_header: Option<Seq<char>>) -> Option<Seq<char>> {
    match link_header {
        Some(h) => next_link_of(h),
        None => None,
    }
}

impl CanvasClient {
    /// After fetching a page whose response had `link_header` as its `Link`
    /// header: the URL of the next page (`Ok(None)` if this was the last),
    /// or the reason Canvas's next link was refused.
    pub fn next_page(&self, link_header: Option<&str>) -> (r: Result<Option<String>, PaginationError>)
        ensures
            match next_page_of(match link_header {
                Some(h) => Some(h@),
                None => None,
            }) {
                None => r == Ok::<Option<String>, PaginationError>(None),
                Some(u) => {
                    &&& r matches Ok(n) ==> n matches Some(x) && x@ == u
                    &&& pagination_verdict(
                        url_parse(u),
                        self.domain@,
                        match r {
                            Ok(_) => Ok(()),
                            Err(e) => Err(e),
                        },
                    )
                },
            },
    {
        let next = match link_header {
            Some(h) => next_link(h),
            None => None,
        };
        match next {
            None => Ok(None),
            Some(u) => {
                match validate_canvas_url(u.as_str(), self.domain.as_str()) {
                    Ok(()) => Ok(Some(u)),
                    Err(e) => Err(e),
                }
            },
        }
    }

    /// The request for a later page: its URL, as Canvas gave it, with no
    /// further query parameters.
    pub fn page(&self, url: String) -> (r: ApiRequest)
        ensures
            r.url@ == url@,
            r.authorization@ == bearer_of(self.access_token@),
            r.query@.len() == 0,
    {
        ApiRequest { url, authorization: bearer(self.access_token.as_str()), query: Vec::new() }
    }
}

/// The text a pagination error is reported with.
pub open spec fn pagination_error_text(e: PaginationError) -> Seq<char> {
    match e {
        PaginationError::InvalidUrl { .. } => "Canvas returned an invalid pagination URL"@,
        PaginationError::OutsideDomain { domain } => "Canvas returned a pagination URL outside "@
            + domain@,
    }
}

impl PaginationError {
    pub fn message(&self) -> (r: String)
        ensures
            r@ == pagination_error_text(*self),
    {
        match self {
            PaginationError::InvalidUrl { .. } => "Canvas returned an invalid pagination URL".to_owned(),
            PaginationError::OutsideDomain { domain } => {
                let mut r = "Canvas returned a pagination URL outside ".to_owned();
                push_str(&mut r, domain.as_str());
                r
            },
        }
    }
}

} // verus!

verus! {

/// Normalizing a path twice is normalizing it once.
pub proof fn lemma_normalize_path_idempotent(path: Seq<char>)
    ensures
        normalized_path(normalized_path(path)) == normalized_path(path),
{
    if !(path.len() > 0 && path[0] == '/') {
        assert((seq!['/'] + path)[0] == '/');
    }
}

} // verus!
