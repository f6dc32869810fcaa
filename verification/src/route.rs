//! Host and path routing.
//!
//! A route leads from a host and a path prefix to a service. A request is
//! served by the route of its host whose prefix is the longest one that
//! matches its path on whole segments: `/api` matches `/api` and `/api/v1`,
//! not `/api-v2`, and `/` matches every path.

use crate::file::{ProxySettings, ProxySettingsView};
use crate::text::{chars_eq, chars_of, has_prefix, string_of};
use vstd::prelude::*;

verus! {

/// `s` without the slashes it begins with.
pub open spec fn strip_leading(s: Seq<char>) -> Seq<char>
    decreases s.len(),
{
    if s.len() > 0 && s[0] == '/' {
        strip_leading(s.drop_first())
    } else {
        s
    }
}

/// `s` without the slashes it ends with.
pub open spec fn strip_trailing(s: Seq<char>) -> Seq<char>
    decreases s.len(),
{
    if s.len() > 0 && s.last() == '/' {
        strip_trailing(s.drop_last())
    } else {
        s
    }
}

/// The normal form of a path prefix: one slash, then the prefix without the
/// slashes around it. The empty prefix and `/` both become `/`.
pub open spec fn normalized(path: Seq<char>) -> Seq<char> {
    seq!['/'] + strip_trailing(strip_leading(path))
}

/// The path that an empty request path stands for.
pub open spec fn request_path(path: Seq<char>) -> Seq<char> {
    if path.len() == 0 {
        seq!['/']
    } else {
        path
    }
}

/// Whether `prefix` matches `path` on whole segments: they are equal, or
/// `path` goes on after `prefix` with a new segment, which is so where the
/// next character is a slash or `prefix` itself ends with one.
pub open spec fn route_matches(prefix: Seq<char>, path: Seq<char>) -> bool {
    path == prefix || (prefix.is_prefix_of(path) && prefix.len() < path.len() && (path[prefix.len() as int]
        == '/' || (prefix.len() > 0 && prefix.last() == '/')))
}

proof fn lemma_strip_leading_of_range(s: Seq<char>, a: int)
    requires
        0 <= a <= s.len(),
        forall|j: int| 0 <= j < a ==> s[j] == '/',
    ensures
        strip_leading(s) == strip_leading(s.subrange(a, s.len() as int)),
    decreases a,
{
    if a == 0 {
        assert(s.subrange(0, s.len() as int) =~= s);
    } else {
        assert(s[0] == '/');
        let t = s.drop_first();
        assert forall|j: int| 0 <= j < a - 1 implies t[j] == '/' by {
            assert(t[j] == s[j + 1]);
        }
        lemma_strip_leading_of_range(t, a - 1);
        assert(t.subrange(a - 1, t.len() as int) =~= s.subrange(a, s.len() as int));
    }
}

proof fn lemma_strip_trailing_of_range(s: Seq<char>, b: int)
    requires
        0 <= b <= s.len(),
        forall|j: int| b <= j < s.len() ==> s[j] == '/',
    ensures
        strip_trailing(s) == strip_trailing(s.subrange(0, b)),
    decreases s.len() - b,
{
    if b == s.len() {
        assert(s.subrange(0, b) =~= s);
    } else {
        assert(s.last() == '/');
        let t = s.drop_last();
        lemma_strip_trailing_of_range(t, b);
        assert(t.subrange(0, b) =~= s.subrange(0, b));
    }
}

/// What is left of a text after its slashes are taken from both ends neither
/// begins nor ends with a slash.
pub proof fn lemma_stripped_has_no_slash_at_ends(s: Seq<char>)
    ensures
        ({
            let t = strip_trailing(strip_leading(s));
            t.len() > 0 ==> t[0] != '/' && t.last() != '/'
        }),
{
    lemma_strip_leading_shape(s);
    lemma_strip_trailing_shape(strip_leading(s));
}

proof fn lemma_strip_leading_shape(s: Seq<char>)
    ensures
        strip_leading(s).len() > 0 ==> strip_leading(s)[0] != '/',
        strip_leading(s).len() <= s.len(),
    decreases s.len(),
{
    if s.len() > 0 && s[0] == '/' {
        lemma_strip_leading_shape(s.drop_first());
    }
}

proof fn lemma_strip_trailing_shape(s: Seq<char>)
    ensures
        strip_trailing(s).len() > 0 ==> strip_trailing(s).last() != '/' && strip_trailing(s)[0]
            == s[0],
        strip_trailing(s).len() <= s.len(),
    decreases s.len(),
{
    if s.len() > 0 && s.last() == '/' {
        lemma_strip_trailing_shape(s.drop_last());
    }
}

/// Normalizing is idempotent: a normal form is its own normal form.
pub proof fn lemma_normalized_is_idempotent(path: Seq<char>)
    ensures
        normalized(normalized(path)) == normalized(path),
{
    let t = strip_trailing(strip_leading(path));
    let n = normalized(path);
    lemma_stripped_has_no_slash_at_ends(path);
    assert(n[0] == '/');
    assert(n.drop_first() =~= t);
    assert(strip_leading(n) == strip_leading(t));
    assert(strip_leading(t) == t);
    assert(strip_trailing(t) == t);
}

/// A normal form begins with a slash, and ends with one only if it is `/`.
pub proof fn lemma_normalized_shape(path: Seq<char>)
    ensures
        normalized(path).len() >= 1,
        normalized(path)[0] == '/',
        normalized(path).last() == '/' ==> normalized(path) == seq!['/'],
{
    let t = strip_trailing(strip_leading(path));
    lemma_stripped_has_no_slash_at_ends(path);
    let n = normalized(path);
    if t.len() > 0 {
        assert(n.last() == t.last());
    } else {
        assert(n =~= seq!['/']);
    }
}

/// The normal form of a path prefix.
pub fn normalize_path(path: &str) -> (r: String)
    ensures
        r@ == normalized(path@),
{
    let v = chars_of(path);
    let n = v.len();
    let mut a: usize = 0;
    while a < n && v[a] == '/'
        invariant
            a <= n,
            n == v.len(),
            forall|j: int| 0 <= j < a ==> v@[j] == '/',
        decreases n - a,
    {
        a += 1;
    }
    let mut b: usize = n;
    while b > a && v[b - 1] == '/'
        invariant
            a <= b <= n,
            n == v.len(),
            forall|j: int| b <= j < n ==> v@[j] == '/',
        decreases b,
    {
        b -= 1;
    }
    let mut out: Vec<char> = Vec::new();
    out.push('/');
    let mut i: usize = a;
    while i < b
        invariant
            a <= i <= b <= n,
            n == v.len(),
            out@ =~= seq!['/'] + v@.subrange(a as int, i as int),
        decreases b - i,
    {
        out.push(v[i]);
        i += 1;
    }
    proof {
        let s = v@;
        lemma_strip_leading_of_range(s, a as int);
        let rest = s.subrange(a as int, n as int);
        assert(strip_leading(rest) == rest);
        assert forall|j: int| b - a <= j < rest.len() implies rest[j] == '/' by {
            assert(rest[j] == s[j + a]);
        }
        lemma_strip_trailing_of_range(rest, b - a);
        let mid = rest.subrange(0, b - a);
        assert(mid =~= s.subrange(a as int, b as int));
        if mid.len() > 0 {
            if a < b {
                assert(mid.last() == s[b - 1]);
            }
        }
        assert(strip_trailing(mid) == mid);
    }
    string_of(&out)
}

/// Whether the prefix `prefix` matches the request path `path`, both given
/// by their characters.
pub fn matches_path(prefix: &Vec<char>, path: &Vec<char>) -> (r: bool)
    ensures
        r == route_matches(prefix@, path@),
{
    if chars_eq(prefix, path) {
        return true;
    }
    if !has_prefix(path, prefix) {
        return false;
    }
    if prefix.len() >= path.len() {
        return false;
    }
    path[prefix.len()] == '/' || (prefix.len() > 0 && prefix[prefix.len() - 1] == '/')
}

/// One route: requests for `host` whose path matches `path` go to the
/// service at position `index` of the manager's list.
#[derive(Debug, Clone, PartialEq, Eq)]
pub struct Route {
    pub host: String,
    pub path: String,
    pub index: usize,
}

/// A declared route: the host and the normal form of the path prefix that a
/// service's proxy block names, or nothing for a service without one. The
/// position in the list of declarations is the service's index.
pub type RouteDecl = Option<(Seq<char>, Seq<char>)>;

/// Whether route `a` comes before route `b` in the table: it has the longer
/// prefix or, with equal lengths, belongs to the service declared earlier.
pub open spec fn route_before(a: Route, b: Route) -> bool {
    a.path@.len() > b.path@.len() || (a.path@.len() == b.path@.len() && a.index < b.index)
}

/// Whether the routes are in the table's order.
pub open spec fn is_ordered(routes: Seq<Route>) -> bool {
    forall|j: int, k: int|
        0 <= j < k < routes.len() ==> route_before(#[trigger] routes[j], #[trigger] routes[k])
}

/// Whether `routes` are exactly the routes that the first `n` of `decls`
/// declare: each route belongs to one of these services and repeats its host
/// and prefix, and each of these services that declares a route has one.
pub open spec fn holds_upto(routes: Seq<Route>, decls: Seq<RouteDecl>, n: int) -> bool {
    &&& forall|k: int|
        0 <= k < routes.len() ==> {
            let r = #[trigger] routes[k];
            &&& r.index < n
            &&& r.index < decls.len()
            &&& decls[r.index as int] == Some((r.host@, r.path@))
        }
    &&& forall|i: int|
        0 <= i < n && i < decls.len() && (#[trigger] decls[i]) is Some ==> exists|k: int|
            0 <= k < routes.len() && (#[trigger] routes[k]).index == i
}

/// Whether the service at `i` is a candidate for a request: it has a route
/// for `host` whose prefix matches the request path.
pub open spec fn is_candidate(decls: Seq<RouteDecl>, host: Seq<char>, path: Seq<char>, i: int) -> bool {
    0 <= i < decls.len() && match decls[i] {
        Some((h, p)) => h == host && route_matches(p, request_path(path)),
        None => false,
    }
}

/// The length of the prefix of the route declared at `i`.
pub open spec fn prefix_len(decls: Seq<RouteDecl>, i: int) -> nat {
    match decls[i] {
        Some((h, p)) => p.len(),
        None => 0,
    }
}

/// Whether the service at `i` is the one that serves a request: it is a
/// candidate, no candidate has a longer prefix, and among the candidates with
/// a prefix of the same length it is declared first.
pub open spec fn is_best_route(decls: Seq<RouteDecl>, host: Seq<char>, path: Seq<char>, i: int) -> bool {
    &&& is_candidate(decls, host, path, i)
    &&& forall|j: int| #[trigger]
        is_candidate(decls, host, path, j) ==> prefix_len(decls, j) < prefix_len(decls, i) || (
        prefix_len(decls, j) == prefix_len(decls, i) && i <= j)
}

/// What route resolution returns for a request, over the declared routes:
/// the service that serves it, or nothing where no route of the host matches.
pub open spec fn resolved(decls: Seq<RouteDecl>, host: Seq<char>, path: Seq<char>, r: Option<usize>) -> bool {
    match r {
        Some(i) => is_best_route(decls, host, path, i as int),
        None => forall|j: int| !#[trigger] is_candidate(decls, host, path, j),
    }
}

/// Route resolution has one result: at most one service serves a request.
pub proof fn lemma_resolved_is_unique(
    decls: Seq<RouteDecl>,
    host: Seq<char>,
    path: Seq<char>,
    a: Option<usize>,
    b: Option<usize>,
)
    requires
        resolved(decls, host, path, a),
        resolved(decls, host, path, b),
    ensures
        a == b,
{
    match (a, b) {
        (Some(i), Some(j)) => {
            assert(is_candidate(decls, host, path, i as int));
            assert(is_candidate(decls, host, path, j as int));
        },
        (Some(i), None) => {
            assert(is_candidate(decls, host, path, i as int));
        },
        (None, Some(j)) => {
            assert(is_candidate(decls, host, path, j as int));
        },
        (None, None) => {},
    }
}

/// The route that resolution selects is that of the host whose prefix is the
/// longest among those that match the request path on whole segments; where
/// none matches, resolution selects nothing.
pub proof fn lemma_resolved_is_longest_match(
    decls: Seq<RouteDecl>,
    host: Seq<char>,
    path: Seq<char>,
    r: Option<usize>,
    j: int,
)
    requires
        resolved(decls, host, path, r),
        is_candidate(decls, host, path, j),
    ensures
        r is Some,
        is_candidate(decls, host, path, r.unwrap() as int),
        prefix_len(decls, j) <= prefix_len(decls, r.unwrap() as int),
{
}

/// The first route in table order that serves a request, if there is one.
pub open spec fn is_first_match(routes: Seq<Route>, host: Seq<char>, path: Seq<char>, k: int) -> bool {
    &&& 0 <= k < routes.len()
    &&& routes[k].host@ == host
    &&& route_matches(routes[k].path@, request_path(path))
    &&& forall|j: int|
        0 <= j < k ==> !((#[trigger] routes[j]).host@ == host && route_matches(
            routes[j].path@,
            request_path(path),
        ))
}

/// In an ordered table that holds the declared routes, the first route that
/// serves a request is the best one.
pub proof fn lemma_first_match_is_best(
    routes: Seq<Route>,
    decls: Seq<RouteDecl>,
    host: Seq<char>,
    path: Seq<char>,
    k: int,
)
    requires
        is_ordered(routes),
        holds_upto(routes, decls, decls.len() as int),
        is_first_match(routes, host, path, k),
    ensures
        is_best_route(decls, host, path, routes[k].index as int),
{
    let i = routes[k].index as int;
    assert forall|j: int| #[trigger] is_candidate(decls, host, path, j) implies prefix_len(decls, j)
        < prefix_len(decls, i) || (prefix_len(decls, j) == prefix_len(decls, i) && i <= j) by {
        assert(decls[j] is Some);
        let m = choose|m: int| 0 <= m < routes.len() && (#[trigger] routes[m]).index == j;
        assert(decls[j] == Some((routes[m].host@, routes[m].path@)));
        // The route of a candidate serves the request, so it does not come
        // before the first route that does.
        assert(routes[m].host@ == host && route_matches(routes[m].path@, request_path(path)));
        assert(m >= k);
        if m > k {
            assert(route_before(routes[k], routes[m]));
        }
    }
}

/// In a table that holds the declared routes, where no route serves a
/// request no service is a candidate for it.
pub proof fn lemma_no_match_no_candidate(
    routes: Seq<Route>,
    decls: Seq<RouteDecl>,
    host: Seq<char>,
    path: Seq<char>,
)
    requires
        holds_upto(routes, decls, decls.len() as int),
        forall|k: int|
            0 <= k < routes.len() ==> !((#[trigger] routes[k]).host@ == host && route_matches(
                routes[k].path@,
                request_path(path),
            )),
    ensures
        forall|j: int| !#[trigger] is_candidate(decls, host, path, j),
{
    assert forall|j: int| !#[trigger] is_candidate(decls, host, path, j) by {
        if is_candidate(decls, host, path, j) {
            assert(decls[j] is Some);
            let m = choose|m: int| 0 <= m < routes.len() && (#[trigger] routes[m]).index == j;
            assert(decls[j] == Some((routes[m].host@, routes[m].path@)));
        }
    }
}

/// A table that holds the routes that `decls` declare lists each of them
/// once, and never a shorter prefix before a longer one: the routes of every
/// host stand in it by falling prefix length.
pub proof fn lemma_each_route_stands_once(routes: Seq<Route>, decls: Seq<RouteDecl>)
    requires
        is_ordered(routes),
        holds_upto(routes, decls, decls.len() as int),
    ensures
        forall|j: int, k: int|
            0 <= j < k < routes.len() ==> (#[trigger] routes[j]).index != (#[trigger] routes[k]).index,
        forall|j: int, k: int|
            0 <= j < k < routes.len() ==> (#[trigger] routes[j]).path@.len() >= (
            #[trigger] routes[k]).path@.len(),
        forall|i: int|
            0 <= i < decls.len() ==> ((#[trigger] decls[i]) is Some <==> exists|k: int|
                0 <= k < routes.len() && (#[trigger] routes[k]).index == i),
{
    assert forall|j: int, k: int| 0 <= j < k < routes.len() implies (#[trigger] routes[j]).index
        != (#[trigger] routes[k]).index by {
        assert(route_before(routes[j], routes[k]));
        if routes[j].index == routes[k].index {
            assert(decls[routes[j].index as int] == Some((routes[j].host@, routes[j].path@)));
            assert(decls[routes[k].index as int] == Some((routes[k].host@, routes[k].path@)));
        }
    }
    assert forall|j: int, k: int| 0 <= j < k < routes.len() implies (#[trigger] routes[j]).path@.len()
        >= (#[trigger] routes[k]).path@.len() by {
        assert(route_before(routes[j], routes[k]));
    }
    assert forall|i: int| 0 <= i < decls.len() implies ((#[trigger] decls[i]) is Some <==> exists|
        k: int,
    |
        0 <= k < routes.len() && (#[trigger] routes[k]).index == i) by {
        if exists|k: int| 0 <= k < routes.len() && (#[trigger] routes[k]).index == i {
            let k = choose|k: int| 0 <= k < routes.len() && (#[trigger] routes[k]).index == i;
            assert(decls[routes[k].index as int] == Some((routes[k].host@, routes[k].path@)));
        }
    }
}

/// The routes of all hosts, those with longer prefixes first. A table is made
/// once per generation of the manager and never changed afterwards.
#[derive(Debug, PartialEq, Eq)]
pub struct RouteTable {
    routes: Vec<Route>,
}

impl RouteTable {
    #[verifier::type_invariant]
    spec fn ordered(&self) -> bool {
        is_ordered(self.routes@)
    }

    /// The routes in table order.
    pub closed spec fn entries(&self) -> Seq<Route> {
        self.routes@
    }

    /// Whether the table holds exactly the routes that `decls` declare, in
    /// the table's order: those with longer prefixes first, and of those
    /// with prefixes of one length the one declared earlier first.
    pub open spec fn holds(&self, decls: Seq<RouteDecl>) -> bool {
        &&& is_ordered(self.entries())
        &&& holds_upto(self.entries(), decls, decls.len() as int)
    }

    /// A table without routes.
    pub fn new() -> (r: RouteTable)
        ensures
            r.entries().len() == 0,
            is_ordered(r.entries()),
    {
        RouteTable { routes: Vec::new() }
    }

    /// The number of routes.
    pub fn len(&self) -> (r: usize)
        ensures
            r == self.entries().len(),
    {
        self.routes.len()
    }

    /// The route at position `k` of the table's order.
    pub fn get(&self, k: usize) -> (r: &Route)
        requires
            k < self.entries().len(),
        ensures
            *r == self.entries()[k as int],
    {
        &self.routes[k]
    }

    /// The table with the route of the service at `index` added. The
    /// services are added in the order of their indices; the new route goes
    /// behind the routes whose prefix is at least as long as its own.
    pub fn with_route(self, host: String, path: String, index: usize) -> (r: RouteTable)
        requires
            forall|k: int|
                0 <= k < self.entries().len() ==> (#[trigger] self.entries()[k]).index < index,
        ensures
            exists|pos: int|
                0 <= pos <= self.entries().len() && r.entries() == self.entries().insert(
                    pos,
                    Route { host, path, index },
                ),
            is_ordered(r.entries()),
    {
        proof {
            use_type_invariant(&self);
        }
        let plen = path.as_str().unicode_len();
        let mut routes = self.routes;
        let mut pos: usize = 0;
        while pos < routes.len() && routes[pos].path.as_str().unicode_len() >= plen
            invariant
                pos <= routes@.len(),
                forall|k: int| 0 <= k < pos ==> (#[trigger] routes@[k]).path@.len() >= plen,
            decreases routes@.len() - pos,
        {
            pos += 1;
        }
        let ghost before = routes@;
        assert(before == self.entries());
        assert(is_ordered(before));
        let ghost route = Route { host, path, index };
        routes.insert(pos, Route { host, path, index });
        proof {
            let after = routes@;
            assert(after == before.insert(pos as int, route));
            assert forall|j: int, k: int| 0 <= j < k < after.len() implies route_before(
                #[trigger] after[j],
                #[trigger] after[k],
            ) by {
                if k < pos {
                    assert(route_before(before[j], before[k]));
                } else if k == pos {
                    assert(after[j] == before[j]);
                } else if j == pos {
                    assert(after[k] == before[k - 1]);
                    if k - 1 > pos {
                        assert(route_before(before[pos as int], before[k - 1]));
                    }
                } else if j < pos {
                    assert(route_before(before[j], before[k - 1]));
                } else {
                    assert(route_before(before[j - 1], before[k - 1]));
                }
            }
        }
        RouteTable { routes }
    }

    /// The service that serves a request for `host` and `path`: that of the
    /// first route in table order that is for `host` and matches `path`. Over
    /// the declarations that the table holds, this is the service whose
    /// prefix is the longest among the matching ones, the one declared first
    /// where several prefixes are as long; `None` where no route of the host
    /// matches. An empty path counts as `/`.
    pub fn resolve(&self, host: &str, path: &str) -> (r: Option<usize>)
        ensures
            match r {
                Some(i) => exists|k: int|
                    is_first_match(self.entries(), host@, path@, k) && (
                    #[trigger] self.entries()[k]).index == i,
                None => forall|k: int|
                    0 <= k < self.entries().len() ==> !((#[trigger] self.entries()[k]).host@
                        == host@ && route_matches(self.entries()[k].path@, request_path(path@))),
            },
            forall|decls: Seq<RouteDecl>| #[trigger] self.holds(decls) ==> resolved(decls, host@, path@, r),
    {
        proof {
            use_type_invariant(self);
        }
        let host_chars = chars_of(host);
        let mut path_chars = chars_of(path);
        if path_chars.len() == 0 {
            path_chars.push('/');
        }
        assert(path_chars@ =~= request_path(path@));
        let mut k: usize = 0;
        while k < self.routes.len()
            invariant
                k <= self.routes@.len(),
                is_ordered(self.routes@),
                host_chars@ == host@,
                path_chars@ == request_path(path@),
                forall|j: int|
                    0 <= j < k ==> !((#[trigger] self.routes@[j]).host@ == host@ && route_matches(
                        self.routes@[j].path@,
                        request_path(path@),
                    )),
            decreases self.routes@.len() - k,
        {
            let route = &self.routes[k];
            let route_host = chars_of(route.host.as_str());
            if chars_eq(&route_host, &host_chars) {
                let prefix = chars_of(route.path.as_str());
                if matches_path(&prefix, &path_chars) {
                    proof {
                        assert(is_first_match(self.entries(), host@, path@, k as int));
                        assert forall|decls: Seq<RouteDecl>| #[trigger]
                            self.holds(decls) implies resolved(
                            decls,
                            host@,
                            path@,
                            Some(route.index),
                        ) by {
                            lemma_first_match_is_best(self.entries(), decls, host@, path@, k as int);
                        }
                    }
                    return Some(route.index);
                }
            }
            k += 1;
        }
        proof {
            assert forall|decls: Seq<RouteDecl>| #[trigger] self.holds(decls) implies resolved(
                decls,
                host@,
                path@,
                None,
            ) by {
                lemma_no_match_no_candidate(self.entries(), decls, host@, path@);
            }
        }
        None
    }
}

/// The route that each service declares: for a service with a proxy block,
/// its host and the normal form of its prefix, where no prefix stands for `/`.
pub open spec fn route_decls(proxies: Seq<Option<ProxySettingsView>>) -> Seq<RouteDecl> {
    Seq::new(
        proxies.len(),
        |i: int|
            match proxies[i] {
                Some(p) => Some(
                    (
                        p.host,
                        normalized(
                            match p.path {
                                Some(path) => path,
                                None => Seq::<char>::empty(),
                            },
                        ),
                    ),
                ),
                None => None,
            },
    )
}

/// The table of the routes that the services declare, `proxies[i]` being the
/// proxy block of the service at position `i`.
pub fn build_routes(proxies: &Vec<Option<ProxySettings>>) -> (table: RouteTable)
    ensures
        table.holds(route_decls(proxies.deep_view())),
{
    let ghost decls = route_decls(proxies.deep_view());
    let mut table = RouteTable::new();
    let mut i: usize = 0;
    while i < proxies.len()
        invariant
            i <= proxies.len(),
            decls == route_decls(proxies.deep_view()),
            holds_upto(table.entries(), decls, i as int),
        decreases proxies.len() - i,
    {
        let ghost before = table.entries();
        match &proxies[i] {
            Some(p) => {
                let path = match &p.path {
                    Some(path) => normalize_path(path.as_str()),
                    None => normalize_path(""),
                };
                proof {
                    reveal_strlit("");
                    assert(""@ =~= Seq::<char>::empty());
                }
                let host = p.host.clone();
                let ghost route = Route { host, path, index: i };
                table = table.with_route(host, path, i);
                proof {
                    let after = table.entries();
                    let pos = choose|pos: int|
                        0 <= pos <= before.len() && after == before.insert(pos, route);
                    assert(after[pos] == route);
                    assert forall|k: int| 0 <= k < after.len() implies {
                        let r = #[trigger] after[k];
                        &&& r.index < i + 1
                        &&& r.index < decls.len()
                        &&& decls[r.index as int] == Some((r.host@, r.path@))
                    } by {
                        if k < pos {
                            assert(after[k] == before[k]);
                        } else if k > pos {
                            assert(after[k] == before[k - 1]);
                        }
                    }
                    assert forall|j: int|
                        0 <= j < i + 1 && j < decls.len() && (#[trigger] decls[j]) is Some implies exists|
                        k: int,
                    |
                        0 <= k < after.len() && (#[trigger] after[k]).index == j by {
                        if j == i {
                            assert(after[pos].index == j);
                        } else {
                            let k0 = choose|k: int|
                                0 <= k < before.len() && (#[trigger] before[k]).index == j;
                            if k0 < pos {
                                assert(after[k0] == before[k0]);
                            } else {
                                assert(after[k0 + 1] == before[k0]);
                            }
                        }
                    }
                }
            },
            None => {},
        }
        i += 1;
    }
    proof {
        use_type_invariant(&table);
    }
    table
}

} // verus!
