use vstd::prelude::*;
use crate::support::str_equal;

verus! {

/// Browser origins that may read responses with credentials.
pub open spec fn allowed_origin_spec(origin: Seq<char>) -> bool {
    origin == "http://localhost:8080"@ || origin == "http://127.0.0.1:8080"@
        || origin == "https://e621scraper.duckdns.org"@
}

/// Whether `origin` is one of the fixed allowed browser origins.
pub fn is_allowed_origin(origin: &str) -> (r: bool)
    ensures
        r == allowed_origin_spec(origin@),
{
    str_equal(origin, "http://localhost:8080") || str_equal(origin, "http://127.0.0.1:8080")
        || str_equal(origin, "https://e621scraper.duckdns.org")
}

/// The cross-origin policy of the service.
#[derive(Clone, Copy, Debug)]
pub struct Cors;

/// The cross-origin headers of one response.
#[derive(Clone, Debug)]
pub struct CorsHeaders {
    /// Origin to allow, with credentials; none for an origin not on the list.
    pub allow_origin: Option<String>,
    pub allow_methods: String,
    pub allow_headers: String,
    pub max_age_secs: String,
    /// A preflight request is answered with an empty 204 response.
    pub no_content: bool,
}

pub open spec fn default_allowed_headers() -> Seq<char> {
    "Authorization, Accept, Content-Type"@
}

pub open spec fn allowed_methods() -> Seq<char> {
    "GET, POST, PUT, PATCH, DELETE, OPTIONS, HEAD"@
}

impl Cors {
    /// The headers for a response to a request from `origin` that asked
    /// for `requested_headers`: the origin is echoed only when it is on the
    /// allowed list; the requested headers are allowed as asked, or a default
    /// list when none were asked for.
    pub fn headers_for(&self, origin: Option<&str>, requested_headers: Option<&str>, preflight: bool) -> (r:
        CorsHeaders)
        ensures
            match origin {
                Some(o) => if allowed_origin_spec(o@) {
                    r.allow_origin is Some && r.allow_origin->Some_0@ == o@
                } else {
                    r.allow_origin is None
                },
                None => r.allow_origin is None,
            },
            r.allow_methods@ == allowed_methods(),
            r.allow_headers@ == match requested_headers {
                Some(h) => h@,
                None => default_allowed_headers(),
            },
            r.max_age_secs@ == "86400"@,
            r.no_content == preflight,
    {
        proof {
            reveal_strlit("GET, POST, PUT, PATCH, DELETE, OPTIONS, HEAD");
            reveal_strlit("Authorization, Accept, Content-Type");
            reveal_strlit("86400");
        }
        let allow_origin = match origin {
            Some(o) => if is_allowed_origin(o) {
                Some(o.to_owned())
            } else {
                None
            },
            None => None,
        };
        let allow_headers = match requested_headers {
            Some(h) => h.to_owned(),
            None => String::from_str("Authorization, Accept, Content-Type"),
        };
        CorsHeaders {
            allow_origin,
            allow_methods: String::from_str("GET, POST, PUT, PATCH, DELETE, OPTIONS, HEAD"),
            allow_headers,
            max_age_secs: String::from_str("86400"),
            no_content: preflight,
        }
    }
}

} // verus!
