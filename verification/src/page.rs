use vstd::prelude::*;

use crate::text::{
    chars_eq, chars_of, decimal, find_exec, find_from, is_digit, lemma_decimal_digits,
    lemma_find_first, lemma_find_from_bounds, lemma_parse_decimal, lemma_split_first,
    lemma_split_head, lemma_strip_none, or_text, parse_u64, parse_u64_of, push_decimal, push_or,
    push_str, skip_vec, split, split_chars, strip_all, strip_index, string_of_range,
};

verus! {

/// If `url` addresses a Canvas wiki page (`/courses/:id/pages/:page_url`
/// after the scheme and host), its course ID and page URL. Extra path
/// segments after the page URL are ignored; repeated slashes before
/// `courses` are skipped.
pub open spec fn wiki_page_ids_of(url: Seq<char>) -> Option<(u64, Seq<char>)> {
    match find_from(url, "://"@, 0) {
        None => None,
        Some(i) => {
            let rest = url.skip(i + 3);
            match find_from(rest, seq!['/'], 0) {
                None => None,
                Some(j) => {
                    let segs = split(strip_all(rest.skip(j + 1), seq!['/']), '/');
                    if segs.len() >= 4 && segs[0] == "courses"@ && segs[2] == "pages"@ {
                        match parse_u64_of(segs[1]) {
                            Some(id) => Some((id, segs[3])),
                            None => None,
                        }
                    } else {
                        None
                    }
                },
            }
        },
    }
}

/// If `url` addresses a Canvas wiki page, its `(course_id, page_url)`.
/// Canvas only server-renders an empty mount point for these (the content is
/// rendered client-side), so such pages are read through the Pages API
/// instead.
pub fn wiki_page_ids(url: &str) -> (r: Option<(u64, String)>)
    ensures
        match wiki_page_ids_of(url@) {
            None => r is None,
            Some((id, page)) => r matches Some((rid, rpage)) && rid == id && rpage@ == page,
        },
{
    let v = chars_of(url);
    let sep = chars_of("://");
    let found = find_exec(&v, &sep);
    if found.is_none() {
        return None;
    }
    let i = found.unwrap();
    let len = v.len();
    proof {
        lemma_find_from_bounds(v@, sep@, 0);
        reveal_strlit("://");
    }
    assert(i + 3 <= len);
    let rest = skip_vec(&v, i + 3);
    let mut slash: Vec<char> = Vec::new();
    slash.push('/');
    assert(slash@ =~= seq!['/']);
    let found2 = find_exec(&rest, &slash);
    if found2.is_none() {
        return None;
    }
    let j = found2.unwrap();
    proof {
        lemma_find_from_bounds(rest@, slash@, 0);
    }
    let path = skip_vec(&rest, j + 1);
    assert(path@.skip(0) =~= path@);
    let k = strip_index(&path, &slash, 0);
    let trimmed = skip_vec(&path, k);
    let segs = split_chars(&trimmed, '/');
    if segs.len() < 4 {
        return None;
    }
    let courses = chars_of("courses");
    let pages = chars_of("pages");
    if !chars_eq(&segs[0], &courses) || !chars_eq(&segs[2], &pages) {
        return None;
    }
    let id = match parse_u64(&segs[1]) {
        None => {
            return None;
        },
        Some(id) => id,
    };
    let page = string_of_range(&segs[3], 0, segs[3].len());
    assert(segs[3]@.subrange(0, segs[3]@.len() as int) =~= segs[3]@);
    Some((id, page))
}

/// `/courses/{course_id}/pages/{page_url}`, where the Pages API serves a
/// wiki page.
pub open spec fn wiki_page_path_of(course_id: u64, page_url: Seq<char>) -> Seq<char> {
    "/courses/"@ + decimal(course_id as nat) + "/pages/"@ + page_url
}

pub fn wiki_page_path(course_id: u64, page_url: &str) -> (r: String)
    ensures
        r@ == wiki_page_path_of(course_id, page_url@),
{
    let mut r = "/courses/".to_owned();
    push_decimal(&mut r, course_id);
    push_str(&mut r, "/pages/");
    push_str(&mut r, page_url);
    r
}

/// What `page view` prints for a wiki page: its title, a blank line, then
/// its body (nothing if it has none).
pub open spec fn wiki_page_text_of(title: Seq<char>, body: Option<String>) -> Seq<char> {
    "title: "@ + title + "\n"@ + "\n"@ + or_text(body, ""@)
}

pub fn wiki_page_text(title: &str, body: &Option<String>) -> (r: String)
    ensures
        r@ == wiki_page_text_of(title@, *body),
{
    let mut r = "title: ".to_owned();
    push_str(&mut r, title);
    push_str(&mut r, "\n");
    push_str(&mut r, "\n");
    push_or(&mut r, body, "");
    r
}

} // verus!

verus! {

/// Where a URL's path starts: after its scheme (with no `:` in it), `://`,
/// and its host (with no `/` in it), the rest of `url` is `path`.
proof fn lemma_path_after_host(url: Seq<char>, scheme: Seq<char>, host: Seq<char>, path: Seq<char>)
    requires
        !scheme.contains(':'),
        !host.contains('/'),
        url == scheme + "://"@ + host + "/"@ + path,
    ensures
        find_from(url, "://"@, 0) == Some(scheme.len() as int),
        find_from(url.skip((scheme.len() + 3) as int), seq!['/'], 0) == Some(host.len() as int),
        url.skip((scheme.len() + 3) as int).skip((host.len() + 1) as int) == path,
{
    reveal_strlit("://");
    reveal_strlit("/");
    let n = scheme.len() as int;
    assert(url.subrange(n, n + 3) =~= "://"@);
    assert forall|j: int| 0 <= j < n implies url[j] != "://"@[0] by {
        assert(url[j] == scheme[j]);
    }
    lemma_find_first(url, "://"@, 0, n);
    let rest = url.skip(n + 3);
    assert(rest =~= host + "/"@ + path);
    let m = host.len() as int;
    assert(rest.subrange(m, m + 1) =~= seq!['/']);
    assert forall|j: int| 0 <= j < m implies rest[j] != seq!['/'][0] by {
        assert(rest[j] == host[j]);
    }
    lemma_find_first(rest, seq!['/'], 0, m);
    assert(rest.skip(m + 1) =~= path);
}

/// A course wiki page's URL gives back the page's course ID and page URL:
/// `{scheme}://{host}/courses/{course_id}/pages/{page_url}`, with or without
/// more path after it, for a scheme without `:`, a host without `/` and a
/// page URL without `/`.
pub proof fn lemma_wiki_page_found(
    scheme: Seq<char>,
    host: Seq<char>,
    course_id: u64,
    page_url: Seq<char>,
    more: Seq<char>,
)
    requires
        !scheme.contains(':'),
        !host.contains('/'),
        !page_url.contains('/'),
        more.len() == 0 || more[0] == '/',
    ensures
        wiki_page_ids_of(
            scheme + "://"@ + host + "/courses/"@ + decimal(course_id as nat) + "/pages/"@ + page_url
                + more,
        ) == Some((course_id, page_url)),
{
    reveal_strlit("/courses/");
    reveal_strlit("/pages/");
    reveal_strlit("courses");
    reveal_strlit("pages");
    let dec = decimal(course_id as nat);
    let url = scheme + "://"@ + host + "/courses/"@ + dec + "/pages/"@ + page_url + more;
    let path = "courses"@ + seq!['/'] + (dec + seq!['/'] + ("pages"@ + seq!['/'] + (page_url
        + more)));
    reveal_strlit("/");
    assert(url =~= scheme + "://"@ + host + "/"@ + path);
    lemma_path_after_host(url, scheme, host, path);
    lemma_strip_none(path);
    lemma_decimal_digits(course_id as nat);
    assert(!"courses"@.contains('/')) by {
        if "courses"@.contains('/') {
            let k = choose|k: int| 0 <= k < "courses"@.len() && "courses"@[k] == '/';
        }
    }
    assert(!"pages"@.contains('/')) by {
        if "pages"@.contains('/') {
            let k = choose|k: int| 0 <= k < "pages"@.len() && "pages"@[k] == '/';
        }
    }
    assert(!dec.contains('/')) by {
        if dec.contains('/') {
            let k = choose|k: int| 0 <= k < dec.len() && dec[k] == '/';
            assert(is_digit(dec[k]));
        }
    }
    lemma_split_head(page_url, '/', more);
    lemma_split_first("pages"@, '/', page_url + more);
    lemma_split_first(dec, '/', "pages"@ + seq!['/'] + (page_url + more));
    lemma_split_first("courses"@, '/', dec + seq!['/'] + ("pages"@ + seq!['/'] + (page_url + more)));
    lemma_parse_decimal(course_id);
}

/// Only paths that start with `courses` lead to a wiki page: a URL whose
/// path (after `{scheme}://{host}/`, for a scheme without `:` and a host
/// without `/`) starts with any other segment, such as `groups`, gives
/// nothing.
pub proof fn lemma_wiki_page_needs_courses(
    scheme: Seq<char>,
    host: Seq<char>,
    first: Seq<char>,
    more: Seq<char>,
)
    requires
        !scheme.contains(':'),
        !host.contains('/'),
        first.len() > 0,
        !first.contains('/'),
        first != "courses"@,
        more.len() == 0 || more[0] == '/',
    ensures
        wiki_page_ids_of(scheme + "://"@ + host + "/"@ + first + more) is None,
{
    let url = scheme + "://"@ + host + "/"@ + first + more;
    assert(url =~= scheme + "://"@ + host + "/"@ + (first + more));
    lemma_path_after_host(url, scheme, host, first + more);
    assert((first + more)[0] == first[0]);
    assert(first[0] != '/');
    lemma_strip_none(first + more);
    lemma_split_head(first, '/', more);
}

} // verus!
