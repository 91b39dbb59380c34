use vstd::prelude::*;

verus! {

/// What the logic reads of a parsed URL: its scheme and its host, if any.
pub struct ParsedUrl {
    pub scheme: String,
    pub host: Option<String>,
}

/// What `::url::Url::parse` gave, as plain values: the scheme and host of
/// the URL, or the text of the parse error.
pub type UrlView = Result<(Seq<char>, Option<Seq<char>>), Seq<char>>;

/// A parse outcome as plain values.
pub open spec fn parsed_view(p: Result<ParsedUrl, String>) -> UrlView {
    match p {
        Ok(u) => Ok(
            (
                u.scheme@,
                match u.host {
                    Some(h) => Some(h@),
                    None => None,
                },
            ),
        ),
        Err(m) => Err(m@),
    }
}

/// What `::url::Url::parse` makes of a string, taken by its scheme and host,
/// or, where it refuses the string, by the text of its `ParseError`. WHATWG
/// URL parsing takes pages to state; this name stands for its result.
pub uninterp spec fn url_parse(input: Seq<char>) -> Result<(Seq<char>, Option<Seq<char>>), Seq<char>>;

/// Parses `input` with `::url::Url::parse` and hands back the scheme
/// (`Url::scheme`) and host (`Url::host_str`) of the result, or the text
/// (`Display`) of the `ParseError`. The contract claims only that the
/// outcome is `url_parse` of the input; nothing is said here about which
/// strings parse, what their parts are or what the error says.
#[verifier::external_body]
pub(crate) fn parse_url(input: &str) -> (r: Result<ParsedUrl, String>)
    ensures
        parsed_view(r) == url_parse(input@),
{
    match ::url::Url::parse(input) {
        Ok(u) => Ok(
            ParsedUrl { scheme: u.scheme().to_string(), host: u.host_str().map(|h| h.to_string()) },
        ),
        Err(e) => Err(e.to_string()),
    }
}

/// The parsed URL has the given host.
pub open spec fn has_host(parsed: UrlView, host: Seq<char>) -> bool {
    match parsed {
        Ok((_, Some(h))) => h == host,
        _ => false,
    }
}

/// Whether the parsed URL has the given host.
pub fn host_is(parsed: &Result<ParsedUrl, String>, host: &str) -> (b: bool)
    ensures
        b == has_host(parsed_view(*parsed), host@),
{
    match parsed {
        Ok(u) => match &u.host {
            Some(h) => h.as_str().to_owned() == host.to_owned(),
            None => false,
        },
        Err(_) => false,
    }
}

} // verus!
