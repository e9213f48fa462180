//! Resolving protocol-relative, origin-relative and redirecting links into
//! the address they lead to.

use vstd::prelude::*;

verus! {

/// The query pairs, percent-decoded, of the URL that a string parses to, or
/// `None` where it does not parse as an absolute URL.
pub uninterp spec fn url_query(s: Seq<char>) -> Option<Seq<(Seq<char>, Seq<char>)>>;

/// The name/value pairs as character sequences.
pub open spec fn pairs_view(v: Seq<(String, String)>) -> Seq<(Seq<char>, Seq<char>)> {
    v.map_values(|p: (String, String)| (p.0@, p.1@))
}

/// Relies on `url::Url::parse` and `Url::query_pairs`: whether the string
/// parses as an absolute URL, and the decoded name/value pairs of its query,
/// in order.
#[verifier::external_body]
fn parse_query(s: &str) -> (r: Option<Vec<(String, String)>>)
    ensures
        r is None <==> url_query(s@) is None,
        r matches Some(v) ==> url_query(s@) == Some(pairs_view(v@)),
{
    match ::url::Url::parse(s) {
        Ok(u) => Some(u.query_pairs().map(|(k, v)| (k.into_owned(), v.into_owned())).collect()),
        Err(_) => None,
    }
}

/// The value of the first pair named `key` among `pairs[k..]`.
pub open spec fn first_value(pairs: Seq<(Seq<char>, Seq<char>)>, key: Seq<char>, k: int) -> Option<Seq<char>>
    decreases pairs.len() - k,
{
    if k < 0 || k >= pairs.len() {
        None
    } else if pairs[k].0 == key {
        Some(pairs[k].1)
    } else {
        first_value(pairs, key, k + 1)
    }
}

/// A protocol-relative link.
pub open spec fn starts_with_two_slashes(s: Seq<char>) -> bool {
    s.len() >= 2 && s[0] == '/' && s[1] == '/'
}

/// A link relative to the origin (or protocol-relative).
pub open spec fn starts_with_slash(s: Seq<char>) -> bool {
    s.len() >= 1 && s[0] == '/'
}

/// The absolute candidate for a link: `https:` before a protocol-relative
/// link, the origin before an origin-relative one, the link itself otherwise.
pub open spec fn candidate(raw: Seq<char>, base_origin: Seq<char>) -> Seq<char> {
    if starts_with_two_slashes(raw) {
        "https:"@ + raw
    } else if starts_with_slash(raw) {
        base_origin + raw
    } else {
        raw
    }
}

/// The normalized form of a link: where a redirect key is given, the
/// candidate parses as a URL and its query carries that key with a non-empty
/// value, that value; otherwise the candidate itself.
pub open spec fn normalized(raw: Seq<char>, base_origin: Seq<char>, key: Option<Seq<char>>) -> Seq<char> {
    let c = candidate(raw, base_origin);
    match key {
        Some(k) => match url_query(c) {
            Some(pairs) => match first_value(pairs, k, 0) {
                Some(v) => if v.len() > 0 { v } else { c },
                None => c,
            },
            None => c,
        },
        None => c,
    }
}

fn lookup(pairs: &Vec<(String, String)>, key: &str) -> (r: Option<String>)
    ensures
        r matches Some(v) ==> first_value(pairs_view(pairs@), key@, 0) == Some(v@),
        r is None ==> first_value(pairs_view(pairs@), key@, 0) is None,
{
    let ghost pv = pairs_view(pairs@);
    let mut k: usize = 0;
    while k < pairs.len()
        invariant
            pv == pairs_view(pairs@),
            k <= pairs@.len(),
            first_value(pv, key@, 0) == first_value(pv, key@, k as int),
        decreases pairs@.len() - k,
    {
        assert(pv[k as int] == (pairs@[k as int].0@, pairs@[k as int].1@));
        if pairs[k].0 == key.to_owned() {
            return Some(pairs[k].1.clone());
        }
        k = k + 1;
    }
    None
}

/// Resolves a link found in a page served from `base_origin` into the address
/// it leads to, unwrapping a redirect through the query parameter
/// `redirect_key`. A link that does not parse as a URL is kept as it stands.
pub fn normalize_url(raw: &str, base_origin: &str, redirect_key: Option<&str>) -> (r: String)
    ensures
        r@ == normalized(raw@, base_origin@, match redirect_key {
            Some(k) => Some(k@),
            None => None,
        }),
        raw@.len() > 0 ==> r@.len() > 0,
{
    let n = raw.unicode_len();
    let cand: String = if n >= 2 && raw.get_char(0) == '/' && raw.get_char(1) == '/' {
        let mut c = String::new();
        c.append("https:");
        c.append(raw);
        c
    } else if n >= 1 && raw.get_char(0) == '/' {
        let mut c = String::new();
        c.append(base_origin);
        c.append(raw);
        c
    } else {
        raw.to_owned()
    };
    assert(cand@ == candidate(raw@, base_origin@));
    assert(cand@.len() >= raw@.len());
    match redirect_key {
        Some(k) => match parse_query(cand.as_str()) {
            Some(pairs) => match lookup(&pairs, k) {
                Some(v) => {
                    if v.unicode_len() > 0 {
                        v
                    } else {
                        cand
                    }
                },
                None => cand,
            },
            None => cand,
        },
        None => cand,
    }
}

} // verus!
