//! Request addresses for the upstream catalog.
use vstd::prelude::*;
use crate::store::RelationKind;

verus! {

/// Root of the catalog's API.
pub open spec fn base_url() -> Seq<char> {
    "https://e621.net/"@
}

/// What `urlencoding::encode` makes of a text.
pub uninterp spec fn url_encoded(s: Seq<char>) -> Seq<char>;

/// ASCII letters and digits, `-`, `.`, `_` and `~` are sent as they are.
pub open spec fn is_unreserved(c: char) -> bool {
    ('0' <= c && c <= '9') || ('A' <= c && c <= 'Z') || ('a' <= c && c <= 'z') || c == '-' || c
        == '.' || c == '_' || c == '~'
}

/// Relies on `urlencoding::encode`, which percent-encodes every byte of the
/// text except ASCII letters, digits and `-`, `.`, `_`, `~`; a text made of
/// those characters only comes back unchanged.
#[verifier::external_body]
fn percent_encode(s: &str) -> (r: String)
    ensures
        r@ == url_encoded(s@),
        (forall|i: int| 0 <= i < s@.len() ==> is_unreserved(#[trigger] s@[i])) ==> r@ == s@,
{
    urlencoding::encode(s).into_owned()
}

/// Every character of `s` is sent as it is.
pub open spec fn all_unreserved(s: Seq<char>) -> bool {
    forall|i: int| 0 <= i < s.len() ==> is_unreserved(#[trigger] s[i])
}

/// How a query value is sent: unchanged when all its characters are
/// unreserved, percent-encoded otherwise.
pub open spec fn encoded(s: Seq<char>) -> Seq<char> {
    if all_unreserved(s) {
        s
    } else {
        url_encoded(s)
    }
}

/// `key=value`, the value percent-encoded.
pub open spec fn query_pair(p: (Seq<char>, Seq<char>)) -> Seq<char> {
    p.0 + "="@ + encoded(p.1)
}

/// The character sequences of a list of key and value pairs.
pub open spec fn pair_views(params: Seq<(String, String)>) -> Seq<(Seq<char>, Seq<char>)> {
    params.map_values(|p: (String, String)| (p.0@, p.1@))
}

/// The pairs of `params` joined by `&`.
pub open spec fn query_of(params: Seq<(Seq<char>, Seq<char>)>) -> Seq<char>
    decreases params.len(),
{
    if params.len() == 0 {
        Seq::empty()
    } else if params.len() == 1 {
        query_pair(params[0])
    } else {
        query_of(params.drop_last()) + "&"@ + query_pair(params.last())
    }
}

/// The address of `path` under the API root, with `params` as its query.
pub open spec fn url_spec(path: Seq<char>, params: Seq<(Seq<char>, Seq<char>)>) -> Seq<char> {
    if params.len() == 0 {
        base_url() + path
    } else {
        base_url() + path + "?"@ + query_of(params)
    }
}

/// The address of `path` under the API root; when `params` is not empty, a
/// query of `key=value` pairs joined by `&` follows a `?`, each value
/// percent-encoded and each key as it is.
pub fn build_url(path: &str, params: &Vec<(String, String)>) -> (r: String)
    ensures
        r@ == url_spec(path@, pair_views(params@)),
{
    let mut url = String::from_str("https://e621.net/");
    proof {
        reveal_strlit("https://e621.net/");
    }
    url.append(path);
    if params.len() == 0 {
        return url;
    }
    url.append("?");
    let ghost head = url@;
    let mut i: usize = 0;
    while i < params.len()
        invariant
            i <= params@.len(),
            url@ == head + query_of(pair_views(params@.take(i as int))),
        decreases params@.len() - i,
    {
        assert(pair_views(params@.take(i + 1)).drop_last() =~= pair_views(params@.take(i as int)));
        assert(pair_views(params@.take(i + 1)).last() == (params@[i as int].0@, params@[i as int].1@));
        if i > 0 {
            url.append("&");
        }
        url.append(params[i].0.as_str());
        url.append("=");
        let v = percent_encode(params[i].1.as_str());
        assert(v@ == encoded(params@[i as int].1@));
        url.append(v.as_str());
        proof {
            if i == 0 {
                assert(pair_views(params@.take(1))[0] == (params@[0].0@, params@[0].1@));
            }
            assert(url@ =~= head + query_of(pair_views(params@.take(i + 1))));
        }
        i = i + 1;
    }
    assert(params@.take(params@.len() as int) =~= params@);
    url
}

/// Path of the lookup endpoint for `kind`.
pub open spec fn lookup_path(kind: RelationKind) -> Seq<char> {
    match kind {
        RelationKind::Alias => "tag_aliases.json"@,
        RelationKind::Implication => "tag_implications.json"@,
    }
}

/// Query of a lookup of the active edges whose antecedent is `name`.
pub open spec fn lookup_params(name: Seq<char>) -> Seq<(Seq<char>, Seq<char>)> {
    seq![
        ("search[antecedent_name]"@, name),
        ("search[status]"@, "active"@),
        ("limit"@, "320"@),
    ]
}

/// The address that asks the catalog for the active edges of `kind` whose
/// antecedent is `name`, at most 320 of them.
pub fn lookup_url(kind: RelationKind, name: &str) -> (r: String)
    ensures
        r@ == url_spec(lookup_path(kind), lookup_params(name@)),
        r@ == base_url() + lookup_path(kind) + "?search[antecedent_name]="@ + encoded(name@)
            + "&search[status]=active&limit=320"@,
{
    let path = match kind {
        RelationKind::Alias => "tag_aliases.json",
        RelationKind::Implication => "tag_implications.json",
    };
    proof {
        reveal_strlit("tag_aliases.json");
        reveal_strlit("tag_implications.json");
    }
    let mut params: Vec<(String, String)> = Vec::new();
    params.push((String::from_str("search[antecedent_name]"), name.to_owned()));
    params.push((String::from_str("search[status]"), String::from_str("active")));
    params.push((String::from_str("limit"), String::from_str("320")));
    proof {
        reveal_strlit("search[antecedent_name]");
        reveal_strlit("search[status]");
        reveal_strlit("active");
        reveal_strlit("limit");
        reveal_strlit("320");
    }
    let r = build_url(path, &params);
    assert(pair_views(params@) =~= lookup_params(name@));
    proof {
        reveal_strlit("https://e621.net/");
        reveal_strlit("=");
        reveal_strlit("&");
        reveal_strlit("?");
        reveal_strlit("?search[antecedent_name]=");
        reveal_strlit("&search[status]=active&limit=320");
        assert(all_unreserved("active"@));
        assert(all_unreserved("320"@));
        let ps = lookup_params(name@);
        let p1 = ps.drop_last();
        assert(p1.drop_last() =~= seq![ps[0]]);
        assert(p1.last() == ps[1]);
        assert(query_of(seq![ps[0]]) == query_pair(ps[0]));
        assert(query_of(p1) == query_of(p1.drop_last()) + "&"@ + query_pair(ps[1]));
        assert(query_of(ps) == query_of(p1) + "&"@ + query_pair(ps[2]));
        assert(encoded("active"@) == "active"@);
        assert(encoded("320"@) == "320"@);
        assert(query_of(ps) =~= "search[antecedent_name]"@ + "="@ + encoded(name@) + "&"@
            + "search[status]"@ + "="@ + "active"@ + "&"@ + "limit"@ + "="@ + "320"@);
        assert(r@ =~= base_url() + lookup_path(kind) + "?search[antecedent_name]="@ + encoded(name@)
            + "&search[status]=active&limit=320"@);
    }
    r
}

} // verus!
