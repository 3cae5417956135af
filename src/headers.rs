//! Removal of proxy-control and recomputed headers before forwarding.

use vstd::prelude::*;

verus! {

/// One header line: its name and its raw value bytes.
pub struct Header {
    pub name: String,
    pub value: Vec<u8>,
}

impl View for Header {
    type V = (Seq<char>, Seq<u8>);

    open spec fn view(&self) -> (Seq<char>, Seq<u8>) {
        (self.name@, self.value@)
    }
}

/// The views of a sequence of headers.
pub open spec fn headers_view(hs: Seq<Header>) -> Seq<(Seq<char>, Seq<u8>)> {
    hs.map_values(|h: Header| h@)
}

/// Two characters are equal once ASCII upper case is folded to lower case.
pub open spec fn same_char_ignoring_case(a: char, b: char) -> bool {
    a == b || ('A' <= a <= 'Z' && a as u32 + 32 == b as u32) || ('A' <= b <= 'Z' && b as u32
        + 32 == a as u32)
}

/// ASCII case-insensitive equality of two strings.
pub open spec fn eq_ignoring_case(a: Seq<char>, b: Seq<char>) -> bool {
    a.len() == b.len() && forall|i: int| 0 <= i < a.len() ==> same_char_ignoring_case(a[i], b[i])
}

/// Names that are never forwarded: `Host`, `X-Target-Id`, `X-Target-Url` and
/// `Authorization`, in any letter case.
pub open spec fn is_reserved_name(name: Seq<char>) -> bool {
    eq_ignoring_case(name, "host"@) || eq_ignoring_case(name, "x-target-id"@) || eq_ignoring_case(
        name,
        "x-target-url"@,
    ) || eq_ignoring_case(name, "authorization"@)
}

/// Whether a header survives the filter.
pub open spec fn kept(h: (Seq<char>, Seq<u8>)) -> bool {
    !is_reserved_name(h.0)
}

/// The forwarded headers: the non-reserved ones, unchanged and in order.
pub open spec fn filtered(hs: Seq<(Seq<char>, Seq<u8>)>) -> Seq<(Seq<char>, Seq<u8>)> {
    hs.filter(|h: (Seq<char>, Seq<u8>)| kept(h))
}

/// ASCII case-insensitive comparison of two strings.
pub fn equals_ignoring_case(a: &str, b: &str) -> (r: bool)
    ensures
        r == eq_ignoring_case(a@, b@),
{
    let n = a.unicode_len();
    if n != b.unicode_len() {
        return false;
    }
    let mut i: usize = 0;
    while i < n
        invariant
            n == a@.len(),
            n == b@.len(),
            i <= n,
            forall|j: int| 0 <= j < i ==> same_char_ignoring_case(a@[j], b@[j]),
        decreases n - i,
    {
        let x = a.get_char(i);
        let y = b.get_char(i);
        let same = x == y || ('A' <= x && x <= 'Z' && (x as u32) + 32 == y as u32) || ('A' <= y
            && y <= 'Z' && (y as u32) + 32 == x as u32);
        if !same {
            return false;
        }
        i = i + 1;
    }
    true
}

/// Whether a header name is one the proxy strips.
pub fn is_reserved_header(name: &str) -> (r: bool)
    ensures
        r == is_reserved_name(name@),
{
    equals_ignoring_case(name, "host") || equals_ignoring_case(name, "x-target-id")
        || equals_ignoring_case(name, "x-target-url") || equals_ignoring_case(name, "authorization")
}

/// Copies the inbound headers without `Host`, `X-Target-Id`, `X-Target-Url`
/// and `Authorization` (in any letter case); all others, duplicates included,
/// keep their values and their order.
pub fn filter_headers(headers: &Vec<Header>) -> (r: Vec<Header>)
    ensures
        headers_view(r@) == filtered(headers_view(headers@)),
{
    let mut out: Vec<Header> = Vec::new();
    let mut i: usize = 0;
    while i < headers.len()
        invariant
            i <= headers@.len(),
            headers_view(out@) == filtered(headers_view(headers@.subrange(0, i as int))),
        decreases headers@.len() - i,
    {
        let h = &headers[i];
        let keep = !is_reserved_header(h.name.as_str());
        let ghost before = out@;
        if keep {
            let copy = Header { name: h.name.clone(), value: h.value.clone() };
            proof {
                assert(copy.value@ =~= h.value@);
            }
            out.push(copy);
            assert(headers_view(out@) =~= headers_view(before).push(h@));
        }
        proof {
            let pre = headers_view(headers@.subrange(0, i as int));
            let cur = headers_view(headers@.subrange(0, i + 1));
            assert(cur =~= pre.push(h@));
            lemma_filter_push(pre, h@, |h: (Seq<char>, Seq<u8>)| kept(h));
        }
        i = i + 1;
    }
    proof {
        assert(headers@.subrange(0, headers@.len() as int) =~= headers@);
    }
    out
}

/// Whether a header is anything but `Host`.
pub open spec fn not_host(h: (Seq<char>, Seq<u8>)) -> bool {
    !eq_ignoring_case(h.0, "host"@)
}

/// Copies the inbound headers without `Host` (in any letter case), for a
/// proxy whose destination comes with the request.
pub fn remove_host_header(headers: &Vec<Header>) -> (r: Vec<Header>)
    ensures
        headers_view(r@) == headers_view(headers@).filter(|h: (Seq<char>, Seq<u8>)| not_host(h)),
{
    let mut out: Vec<Header> = Vec::new();
    let mut i: usize = 0;
    while i < headers.len()
        invariant
            i <= headers@.len(),
            headers_view(out@) == headers_view(headers@.subrange(0, i as int)).filter(
                |h: (Seq<char>, Seq<u8>)| not_host(h),
            ),
        decreases headers@.len() - i,
    {
        let h = &headers[i];
        let keep = !equals_ignoring_case(h.name.as_str(), "host");
        let ghost before = out@;
        if keep {
            let copy = Header { name: h.name.clone(), value: h.value.clone() };
            proof {
                assert(copy.value@ =~= h.value@);
            }
            out.push(copy);
            assert(headers_view(out@) =~= headers_view(before).push(h@));
        }
        proof {
            let pre = headers_view(headers@.subrange(0, i as int));
            let cur = headers_view(headers@.subrange(0, i + 1));
            assert(cur =~= pre.push(h@));
            lemma_filter_push(pre, h@, |h: (Seq<char>, Seq<u8>)| not_host(h));
        }
        i = i + 1;
    }
    proof {
        assert(headers@.subrange(0, headers@.len() as int) =~= headers@);
    }
    out
}

/// The filter keeps exactly the non-reserved headers in their relative
/// order: nothing reserved comes out, a set of headers with nothing reserved
/// comes out as it went in, and filtering a concatenation filters each part.
pub proof fn lemma_filter_keeps_exactly_others(
    a: Seq<(Seq<char>, Seq<u8>)>,
    b: Seq<(Seq<char>, Seq<u8>)>,
)
    ensures
        forall|i: int| 0 <= i < filtered(a).len() ==> !is_reserved_name(#[trigger] filtered(a)[i].0),
        (forall|i: int| 0 <= i < a.len() ==> !is_reserved_name(#[trigger] a[i].0)) ==> filtered(a)
            == a,
        filtered(a + b) == filtered(a) + filtered(b),
{
    let p = |h: (Seq<char>, Seq<u8>)| kept(h);
    assert forall|i: int| 0 <= i < filtered(a).len() implies !is_reserved_name(
        #[trigger] filtered(a)[i].0,
    ) by {
        a.lemma_filter_pred(p, i);
    }
    if forall|i: int| 0 <= i < a.len() ==> !is_reserved_name(#[trigger] a[i].0) {
        lemma_filter_all_kept(a);
    }
    Seq::filter_distributes_over_add(a, b, p);
}

proof fn lemma_filter_push<A>(s: Seq<A>, x: A, p: spec_fn(A) -> bool)
    ensures
        s.push(x).filter(p) == (if p(x) {
            s.filter(p).push(x)
        } else {
            s.filter(p)
        }),
{
    reveal(Seq::filter);
    let t = s.push(x);
    assert(t.drop_last() =~= s);
    assert(t.last() == x);
    assert(t.len() > 0);
}

proof fn lemma_filter_all_kept(a: Seq<(Seq<char>, Seq<u8>)>)
    requires
        forall|i: int| 0 <= i < a.len() ==> !is_reserved_name(#[trigger] a[i].0),
    ensures
        filtered(a) == a,
    decreases a.len(),
{
    reveal(Seq::filter);
    if a.len() > 0 {
        assert(!is_reserved_name(a[a.len() - 1].0));
        lemma_filter_all_kept(a.drop_last());
        assert(a.drop_last().push(a.last()) =~= a);
        lemma_filter_push(a.drop_last(), a.last(), |h: (Seq<char>, Seq<u8>)| kept(h));
    }
}

} // verus!
