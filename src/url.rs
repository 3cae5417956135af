//! Upstream URL construction from a target's address and the inbound path.

use vstd::prelude::*;

verus! {

/// `s` with every trailing `/` removed.
pub open spec fn trim_trailing_slashes(s: Seq<char>) -> Seq<char>
    decreases s.len(),
{
    if s.len() > 0 && s.last() == '/' {
        trim_trailing_slashes(s.drop_last())
    } else {
        s
    }
}

/// `protocol://host`, followed by `:port` when the port is non-empty.
pub open spec fn base_of(protocol: Seq<char>, host: Seq<char>, port: Seq<char>) -> Seq<char> {
    let b = protocol + seq![':', '/', '/'] + host;
    if port.len() == 0 {
        b
    } else {
        b + seq![':'] + port
    }
}

/// The upstream URL: the base without trailing slashes, `/`, the path, and
/// `?query` exactly when a query string was present (even an empty one).
pub open spec fn url_of(
    protocol: Seq<char>,
    host: Seq<char>,
    port: Seq<char>,
    path: Seq<char>,
    query: Option<Seq<char>>,
) -> Seq<char> {
    let head = trim_trailing_slashes(base_of(protocol, host, port)) + seq!['/'] + path;
    match query {
        Some(q) => head + seq!['?'] + q,
        None => head,
    }
}

/// The characters of an optional query string.
pub open spec fn query_view(query: Option<&str>) -> Option<Seq<char>> {
    match query {
        Some(q) => Some(q@),
        None => None,
    }
}

/// Number of characters of `s` that remain once trailing slashes are cut.
fn trimmed_len(s: &str) -> (n: usize)
    ensures
        n <= s@.len(),
        s@.subrange(0, n as int) == trim_trailing_slashes(s@),
{
    let mut n: usize = s.unicode_len();
    proof {
        assert(s@.subrange(0, n as int) =~= s@);
    }
    while n > 0 && s.get_char(n - 1) == '/'
        invariant
            n <= s@.len(),
            trim_trailing_slashes(s@.subrange(0, n as int)) == trim_trailing_slashes(s@),
        decreases n,
    {
        proof {
            assert(s@.subrange(0, n as int).drop_last() =~= s@.subrange(0, n - 1));
        }
        n = n - 1;
    }
    n
}

/// Builds the upstream URL for a target address and an inbound path and
/// query. Neither the path nor the query is re-encoded.
pub fn build_url(protocol: &str, host: &str, port: &str, path: &str, query: Option<&str>) -> (r:
    String)
    ensures
        r@ == url_of(protocol@, host@, port@, path@, query_view(query)),
{
    let mut base = String::from_str(protocol);
    base.append("://");
    base.append(host);
    if !port.is_empty() {
        base.append(":");
        base.append(port);
    }
    let n = trimmed_len(base.as_str());
    let mut url = String::from_str(base.as_str().substring_char(0, n));
    url.append("/");
    url.append(path);
    match query {
        Some(q) => {
            url.append("?");
            url.append(q);
        },
        None => {},
    }
    proof {
        reveal_strlit("://");
        reveal_strlit(":");
        reveal_strlit("/");
        reveal_strlit("?");
        let b = base_of(protocol@, host@, port@);
        assert(base@ =~= b);
        match query {
            Some(q) => {
                assert(url@ =~= trim_trailing_slashes(b) + seq!['/'] + path@ + seq!['?'] + q@);
            },
            None => {
                assert(url@ =~= trim_trailing_slashes(b) + seq!['/'] + path@);
            },
        }
    }
    url
}

/// A slash at the end of a configured host never doubles the slash that
/// separates the base from the path: the URL is the one the host without
/// that slash gives.
pub proof fn lemma_host_trailing_slash(
    protocol: Seq<char>,
    host: Seq<char>,
    path: Seq<char>,
    query: Option<Seq<char>>,
)
    ensures
        url_of(protocol, host.push('/'), Seq::empty(), path, query) == url_of(
            protocol,
            host,
            Seq::empty(),
            path,
            query,
        ),
{
    let b = base_of(protocol, host, Seq::empty());
    let b2 = base_of(protocol, host.push('/'), Seq::empty());
    assert(b2 =~= b.push('/'));
    assert(b2.drop_last() =~= b);
}

} // verus!
