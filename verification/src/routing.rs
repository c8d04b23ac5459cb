//! Matching request targets against registered routes: path patterns with
//! `:name` segments, method selection, and the `Allow` list for `OPTIONS`.
use vstd::prelude::*;

use crate::http_method::{HttpMethod, method_of_token};
use crate::map::ParamMap;
use crate::text::{
    chars_eq, chars_of, contains_seq, join_seq, find_chars_from, lemma_find_from, split_chars, split_seq,
    string_of, sub_chars, views,
};

verus! {

/// A registered route: a path pattern and the method it serves (`ALL` for
/// any method).
#[derive(Debug, Clone)]
pub struct Route {
    pub path: String,
    pub method: HttpMethod,
}

/// A pattern segment that stands for any value: one starting with `:`.
pub open spec fn is_param_segment(s: Seq<char>) -> bool {
    s.len() > 0 && s[0] == ':'
}

/// Whether request path `path` fits pattern `pattern`. A pattern with a
/// colon is compared segment by segment (split on `/`), `:name` segments
/// matching anything; any other pattern must equal the path.
pub open spec fn route_matches(pattern: Seq<char>, path: Seq<char>) -> bool {
    if contains_seq(pattern, seq![':']) {
        let r = split_seq(pattern, seq!['/']);
        let p = split_seq(path, seq!['/']);
        r.len() == p.len() && forall|i: int|
            0 <= i < r.len() ==> is_param_segment(#[trigger] r[i]) || r[i] == p[i]
    } else {
        pattern == path
    }
}

/// Whether `path` fits the pattern of `listener`.
pub fn path_matches(listener: &Route, path: &str) -> (r: bool)
    ensures
        r == route_matches(listener.path@, path@),
{
    let pattern = chars_of(listener.path.as_str());
    let target = chars_of(path);
    let colon = vec![':'];
    assert(colon@ =~= seq![':']);
    let found = find_chars_from(&pattern, &colon, 0);
    proof {
        lemma_find_from(pattern@, colon@, 0);
        if let Some(k) = found {
            assert(crate::text::matches_at(pattern@, seq![':'], k as int));
        }
    }
    let has_colon = found.is_some();
    if has_colon {
        let slash = vec!['/'];
        assert(slash@ =~= seq!['/']);
        let registered_parts = split_chars(&pattern, &slash);
        let path_parts = split_chars(&target, &slash);
        if registered_parts.len() != path_parts.len() {
            return false;
        }
        let mut i: usize = 0;
        while i < registered_parts.len()
            invariant
                i <= registered_parts@.len(),
                pattern@ == listener.path@,
                target@ == path@,
                contains_seq(pattern@, seq![':']),
                registered_parts@.len() == path_parts@.len(),
                views(registered_parts@) == split_seq(pattern@, seq!['/']),
                views(path_parts@) == split_seq(target@, seq!['/']),
                forall|j: int|
                    0 <= j < i ==> is_param_segment(#[trigger] views(registered_parts@)[j])
                        || views(registered_parts@)[j] == views(path_parts@)[j],
            decreases registered_parts@.len() - i,
        {
            let reg_part = &registered_parts[i];
            proof {
                assert(views(registered_parts@)[i as int] == reg_part@);
                assert(views(path_parts@)[i as int] == path_parts@[i as int]@);
            }
            if reg_part.len() > 0 && reg_part[0] == ':' {
                i = i + 1;
                continue;
            }
            if !chars_eq(reg_part, &path_parts[i]) {
                proof {
                    let rr = split_seq(pattern@, seq!['/']);
                    assert(!is_param_segment(rr[i as int]));
                    assert(rr[i as int] != split_seq(target@, seq!['/'])[i as int]);
                }
                return false;
            }
            i = i + 1;
        }
        true
    } else {
        chars_eq(&pattern, &target)
    }
}

/// Whether `listener` serves method `method`.
pub fn method_matches(listener: &Route, method: &HttpMethod) -> (r: bool)
    ensures
        r == (listener.method == *method || listener.method == HttpMethod::ALL),
{
    listener.method == *method || listener.method == HttpMethod::ALL
}

/// `s` without its leading colons.
pub open spec fn strip_colons(s: Seq<char>) -> Seq<char>
    decreases s.len(),
{
    if s.len() > 0 && s[0] == ':' {
        strip_colons(s.drop_first())
    } else {
        s
    }
}

/// The path parameters found by matching `path` against `pattern`: for
/// each `:name` segment (pairing segments up to the shorter of the two),
/// the name without its colons and the path segment in its place.
pub open spec fn path_param_pairs(pattern: Seq<char>, path: Seq<char>) -> Seq<(Seq<char>, Seq<char>)> {
    let r = split_seq(pattern, seq!['/']);
    let p = split_seq(path, seq!['/']);
    params_of_segments(r, p, if r.len() < p.len() {
        r.len() as int
    } else {
        p.len() as int
    })
}

/// The parameters from the first `n` paired segments.
pub open spec fn params_of_segments(r: Seq<Seq<char>>, p: Seq<Seq<char>>, n: int) -> Seq<
    (Seq<char>, Seq<char>),
>
    decreases n,
{
    if n <= 0 {
        Seq::empty()
    } else {
        let before = params_of_segments(r, p, n - 1);
        if is_param_segment(r[n - 1]) {
            before.push((strip_colons(r[n - 1]), p[n - 1]))
        } else {
            before
        }
    }
}

fn strip_colon_chars(s: &Vec<char>) -> (r: Vec<char>)
    ensures
        r@ == strip_colons(s@),
{
    let mut i: usize = 0;
    assert(s@.skip(0) =~= s@);
    while i < s.len() && s[i] == ':'
        invariant
            i <= s@.len(),
            strip_colons(s@) == strip_colons(s@.skip(i as int)),
        decreases s@.len() - i,
    {
        assert(s@.skip(i as int).drop_first() =~= s@.skip(i + 1));
        i = i + 1;
    }
    let r = sub_chars(s, i, s.len());
    assert(r@ =~= s@.skip(i as int));
    r
}

/// The path parameters of `path` under the pattern of `listener`, in
/// pattern order.
pub fn get_path_params(listener: &Route, path: &str) -> (r: ParamMap<String>)
    ensures
        r@ == path_param_pairs(listener.path@, path@),
{
    let mut params: ParamMap<String> = ParamMap::empty();
    let pattern = chars_of(listener.path.as_str());
    let target = chars_of(path);
    let slash = vec!['/'];
    assert(slash@ =~= seq!['/']);
    let registered_parts = split_chars(&pattern, &slash);
    let path_parts = split_chars(&target, &slash);
    let n = if registered_parts.len() < path_parts.len() {
        registered_parts.len()
    } else {
        path_parts.len()
    };
    let ghost r = views(registered_parts@);
    let ghost p = views(path_parts@);
    let mut i: usize = 0;
    while i < n
        invariant
            i <= n,
            n <= registered_parts@.len(),
            n <= path_parts@.len(),
            r == views(registered_parts@),
            p == views(path_parts@),
            params@ == params_of_segments(r, p, i as int),
        decreases n - i,
    {
        let reg_part = &registered_parts[i];
        proof {
            assert(r[i as int] == reg_part@);
            assert(p[i as int] == path_parts@[i as int]@);
        }
        if reg_part.len() > 0 && reg_part[0] == ':' {
            let key = strip_colon_chars(reg_part);
            let key_string = string_of(key.as_slice());
            let value = string_of(path_parts[i].as_slice());
            params.add(key_string.as_str(), value);
        }
        i = i + 1;
    }
    params
}

/// The methods an `OPTIONS` request may list, in the order they are sent
/// (alphabetical).
pub open spec fn listed_methods() -> Seq<HttpMethod> {
    seq![
        HttpMethod::DELETE,
        HttpMethod::GET,
        HttpMethod::HEAD,
        HttpMethod::OPTIONS,
        HttpMethod::PATCH,
        HttpMethod::POST,
        HttpMethod::PUT,
    ]
}

/// The token of a listed method.
pub open spec fn method_token(m: HttpMethod) -> Seq<char> {
    match m {
        HttpMethod::DELETE => "DELETE"@,
        HttpMethod::GET => "GET"@,
        HttpMethod::HEAD => "HEAD"@,
        HttpMethod::OPTIONS => "OPTIONS"@,
        HttpMethod::PATCH => "PATCH"@,
        HttpMethod::POST => "POST"@,
        HttpMethod::PUT => "PUT"@,
        _ => Seq::empty(),
    }
}

/// Some route serving any method matches `path`.
pub open spec fn any_method_route(routes: Seq<Route>, path: Seq<char>) -> bool {
    exists|i: int|
        0 <= i < routes.len() && route_matches(routes[i].path@, path) && routes[i].method
            == HttpMethod::ALL
}

/// Some route for method `m` matches `path`.
pub open spec fn method_route(routes: Seq<Route>, path: Seq<char>, m: HttpMethod) -> bool {
    exists|i: int| 0 <= i < routes.len() && route_matches(routes[i].path@, path) && routes[i].method == m
}

/// Whether method `m` is allowed on `path`: every listed method when a
/// route serves any method there, else the listed methods of the matching
/// routes.
pub open spec fn method_allowed(routes: Seq<Route>, path: Seq<char>, m: HttpMethod) -> bool {
    listed_methods().contains(m) && (any_method_route(routes, path) || method_route(
        routes,
        path,
        m,
    ))
}

/// The tokens of the listed methods among the first `k` that an `OPTIONS`
/// answer for `path` names: the allowed ones and `OPTIONS` itself.
pub open spec fn allowed_names(routes: Seq<Route>, path: Seq<char>, k: int) -> Seq<Seq<char>>
    decreases k,
{
    if k <= 0 {
        Seq::empty()
    } else {
        let prev = allowed_names(routes, path, k - 1);
        let m = listed_methods()[k - 1];
        if method_allowed(routes, path, m) || m == HttpMethod::OPTIONS {
            prev.push(method_token(m))
        } else {
            prev
        }
    }
}

/// The `Allow` value answering `OPTIONS` on `path`: the allowed methods
/// plus `OPTIONS` itself, alphabetically, joined by `, `; `None` when no
/// method is allowed there.
pub open spec fn allow_header_value(routes: Seq<Route>, path: Seq<char>) -> Option<Seq<char>> {
    if exists|m: HttpMethod| method_allowed(routes, path, m) {
        Some(join_seq(allowed_names(routes, path, 7), ", "@))
    } else {
        None
    }
}

/// The position of `m` among the listed methods.
fn listed_position(m: HttpMethod) -> (r: Option<usize>)
    ensures
        match r {
            Some(k) => k < 7 && listed_methods()[k as int] == m,
            None => !listed_methods().contains(m),
        },
{
    match m {
        HttpMethod::DELETE => Some(0),
        HttpMethod::GET => Some(1),
        HttpMethod::HEAD => Some(2),
        HttpMethod::OPTIONS => Some(3),
        HttpMethod::PATCH => Some(4),
        HttpMethod::POST => Some(5),
        HttpMethod::PUT => Some(6),
        _ => {
            assert forall|k: int| 0 <= k < 7 implies listed_methods()[k] != m by {}
            None
        },
    }
}

/// The token of the listed method at position `k`.
fn listed_token(k: usize) -> (r: &'static str)
    requires
        k < 7,
    ensures
        r@ == method_token(listed_methods()[k as int]),
{
    if k == 0 {
        "DELETE"
    } else if k == 1 {
        "GET"
    } else if k == 2 {
        "HEAD"
    } else if k == 3 {
        "OPTIONS"
    } else if k == 4 {
        "PATCH"
    } else if k == 5 {
        "POST"
    } else {
        "PUT"
    }
}

/// The `Allow` value answering `OPTIONS` on `path`, or `None` when no
/// route allows any method there.
pub fn allowed_methods_header(routes: &Vec<Route>, path: &str) -> (r: Option<String>)
    ensures
        match allow_header_value(routes@, path@) {
            Some(v) => r matches Some(s) && s@ == v,
            None => r is None,
        },
{
    let mut flags: Vec<bool> = vec![false, false, false, false, false, false, false];
    let mut any_method = false;
    let mut i: usize = 0;
    while i < routes.len()
        invariant
            i <= routes@.len(),
            flags@.len() == 7,
            any_method == exists|j: int|
                0 <= j < i && route_matches(routes@[j].path@, path@) && routes@[j].method
                    == HttpMethod::ALL,
            forall|k: int|
                0 <= k < 7 ==> (#[trigger] flags@[k] == exists|j: int|
                    0 <= j < i && route_matches(routes@[j].path@, path@) && routes@[j].method
                        == listed_methods()[k]),
        decreases routes@.len() - i,
    {
        let route = &routes[i];
        if path_matches(route, path) {
            if route.method == HttpMethod::ALL {
                any_method = true;
            } else {
                match listed_position(route.method) {
                    Some(k) => {
                        flags.set(k, true);
                    },
                    None => {},
                }
            }
        }
        proof {
            assert forall|k: int| 0 <= k < 7 implies (#[trigger] flags@[k] == exists|j: int|
                0 <= j < i + 1 && route_matches(routes@[j].path@, path@) && routes@[j].method
                    == listed_methods()[k]) by {
                if route_matches(routes@[i as int].path@, path@) && routes@[i as int].method
                    == listed_methods()[k] {
                    assert(routes@[i as int].method != HttpMethod::ALL);
                }
            }
        }
        i = i + 1;
    }
    let ghost rs = routes@;
    let ghost p = path@;
    proof {
        assert forall|k: int| 0 <= k < 7 implies (any_method || #[trigger] flags@[k])
            == method_allowed(rs, p, listed_methods()[k]) by {
            assert(listed_methods().contains(listed_methods()[k]));
        }
    }
    let mut some_allowed = any_method;
    let mut k: usize = 0;
    while k < 7
        invariant
            k <= 7,
            flags@.len() == 7,
            some_allowed == (any_method || exists|q: int| 0 <= q < k && flags@[q]),
        decreases 7 - k,
    {
        if flags[k] {
            some_allowed = true;
        }
        k = k + 1;
    }
    if !some_allowed {
        proof {
            assert forall|m: HttpMethod| !method_allowed(rs, p, m) by {
                if method_allowed(rs, p, m) {
                    let q = choose|q: int| 0 <= q < listed_methods().len() && listed_methods()[q]
                        == m;
                    assert(flags@[q] || any_method);
                }
            }
        }
        return None;
    }
    proof {
        if any_method {
            assert(method_allowed(rs, p, HttpMethod::GET));
        } else {
            let q = choose|q: int| 0 <= q < 7 && flags@[q];
            assert(method_allowed(rs, p, listed_methods()[q]));
        }
    }
    let mut result = String::new();
    let mut count: usize = 0;
    let mut k: usize = 0;
    while k < 7
        invariant
            k <= 7,
            flags@.len() == 7,
            forall|q: int|
                #![trigger flags@[q]]
                0 <= q < 7 ==> ((any_method || flags@[q]) == method_allowed(rs, p, listed_methods()[q])),
            any_method == any_method_route(rs, p),
            count == allowed_names(rs, p, k as int).len(),
            count <= k,
            result@ == join_seq(allowed_names(rs, p, k as int), ", "@),
        decreases 7 - k,
    {
        let ghost m = listed_methods()[k as int];
        proof {
            assert((k == 3) == (m == HttpMethod::OPTIONS));
            assert((any_method || flags@[k as int]) == method_allowed(rs, p, m));
        }
        if any_method || flags[k] || k == 3 {
            let name = listed_token(k);
            assert(allowed_names(rs, p, k + 1) == allowed_names(rs, p, k as int).push(name@));
            let ghost prev = allowed_names(rs, p, k as int);
            if count > 0 {
                result.append(", ");
            }
            result.append(name);
            proof {
                let next = prev.push(name@);
                assert(next.drop_last() =~= prev);
                if count == 0 {
                    assert(result@ =~= join_seq(next, ", "@));
                }
            }
            count = count + 1;
        } else {
            assert(allowed_names(rs, p, k + 1) == allowed_names(rs, p, k as int));
        }
        k = k + 1;
    }
    Some(result)
}

/// `route` serves `method` on `path`.
pub open spec fn route_serves(route: Route, method: HttpMethod, path: Seq<char>) -> bool {
    route_matches(route.path@, path) && (route.method == method || route.method == HttpMethod::ALL)
}

/// What to do with a request once its target and method are known.
#[derive(Debug, Clone, Copy, PartialEq, Eq, Structural)]
pub enum RouteDecision {
    /// Call the handler of this route (the first that serves the request).
    Handle(usize),
    /// Some route matches the path, none the method: `405`.
    MethodNotAllowed,
    /// No route matches the path: `404`.
    NotFound,
}

/// The route that handles `method` on `path`: the first route serving it;
/// otherwise `405` when some route matches the path, else `404`.
pub open spec fn route_decision(routes: Seq<Route>, method: HttpMethod, path: Seq<char>) -> RouteDecision {
    if exists|i: int| 0 <= i < routes.len() && route_serves(routes[i], method, path) {
        RouteDecision::Handle(
            (choose|i: int|
                0 <= i < routes.len() && route_serves(routes[i], method, path) && forall|j: int|
                    0 <= j < i ==> !route_serves(routes[j], method, path)) as usize,
        )
    } else if exists|i: int| 0 <= i < routes.len() && route_matches(routes[i].path@, path) {
        RouteDecision::MethodNotAllowed
    } else {
        RouteDecision::NotFound
    }
}

/// Chooses the route for `method` on `path`.
pub fn select_route(routes: &Vec<Route>, method: &HttpMethod, path: &str) -> (r: RouteDecision)
    ensures
        match r {
            RouteDecision::Handle(i) => i < routes@.len() && route_serves(routes@[i as int], *method, path@)
                && forall|j: int| 0 <= j < i ==> !route_serves(routes@[j], *method, path@),
            RouteDecision::MethodNotAllowed => (exists|i: int|
                0 <= i < routes@.len() && route_matches(routes@[i].path@, path@)) && forall|i: int|
                0 <= i < routes@.len() ==> !route_serves(routes@[i], *method, path@),
            RouteDecision::NotFound => forall|i: int|
                0 <= i < routes@.len() ==> !route_matches(routes@[i].path@, path@),
        },
        r == route_decision(routes@, *method, path@),
{
    let mut found_path = false;
    let mut i: usize = 0;
    while i < routes.len()
        invariant
            i <= routes@.len(),
            found_path == exists|j: int| 0 <= j < i && route_matches(routes@[j].path@, path@),
            forall|j: int| 0 <= j < i ==> !route_serves(routes@[j], *method, path@),
        decreases routes@.len() - i,
    {
        let route = &routes[i];
        let matches = path_matches(route, path);
        if matches {
            found_path = true;
        }
        if matches && method_matches(route, method) {
            proof {
                let w = i as int;
                assert(route_serves(routes@[w], *method, path@));
                let c = choose|c: int|
                    0 <= c < routes@.len() && route_serves(routes@[c], *method, path@) && forall|
                        j: int,
                    | 0 <= j < c ==> !route_serves(routes@[j], *method, path@);
                assert(c == w) by {
                    if c < w {
                        assert(!route_serves(routes@[c], *method, path@));
                    } else if c > w {
                        assert(!route_serves(routes@[w], *method, path@));
                    }
                }
            }
            return RouteDecision::Handle(i);
        }
        i = i + 1;
    }
    if found_path {
        RouteDecision::MethodNotAllowed
    } else {
        RouteDecision::NotFound
    }
}

/// An `OPTIONS` answer allows exactly the listed methods that routing
/// would hand to a handler on the same path.
pub proof fn law_options_agrees_with_routing(routes: Seq<Route>, path: Seq<char>, m: HttpMethod)
    requires
        listed_methods().contains(m),
    ensures
        method_allowed(routes, path, m) == (route_decision(routes, m, path) is Handle),
{
    if route_decision(routes, m, path) is Handle {
        let i = choose|i: int| 0 <= i < routes.len() && route_serves(routes[i], m, path);
        if routes[i].method == HttpMethod::ALL {
            assert(any_method_route(routes, path));
        } else {
            assert(method_route(routes, path, m));
        }
    }
    if method_allowed(routes, path, m) {
        if any_method_route(routes, path) {
            let i = choose|i: int|
                0 <= i < routes.len() && route_matches(routes[i].path@, path) && routes[i].method
                    == HttpMethod::ALL;
            assert(route_serves(routes[i], m, path));
        } else {
            let i = choose|i: int|
                0 <= i < routes.len() && route_matches(routes[i].path@, path) && routes[i].method == m;
            assert(route_serves(routes[i], m, path));
        }
    }
}

/// Each method named in an `Allow` answer reads back, through the request
/// line parser, as that method.
pub proof fn law_allow_tokens_parse_back(m: HttpMethod)
    requires
        listed_methods().contains(m),
    ensures
        method_of_token(method_token(m)) == Some(m),
{
    reveal_strlit("GET");
    reveal_strlit("POST");
    reveal_strlit("PUT");
    reveal_strlit("DELETE");
    reveal_strlit("OPTIONS");
    reveal_strlit("HEAD");
    reveal_strlit("CONNECT");
    reveal_strlit("TRACE");
    reveal_strlit("PATCH");
    reveal_strlit("UPDATE");
    assert("GET"@.len() == 3);
    assert("POST"@.len() == 4);
    assert("PUT"@.len() == 3);
    assert("DELETE"@.len() == 6);
    assert("OPTIONS"@.len() == 7);
    assert("HEAD"@.len() == 4);
    assert("CONNECT"@.len() == 7);
    assert("TRACE"@.len() == 5);
    assert("PATCH"@.len() == 5);
    assert("UPDATE"@.len() == 6);
    assert("PUT"@[0] != "GET"@[0]);
    assert("HEAD"@[0] != "POST"@[0]);
    assert("PATCH"@[0] != "TRACE"@[0]);
    let k = choose|k: int| 0 <= k < listed_methods().len() && listed_methods()[k] == m;
    assert(0 <= k < 7);
}

/// `pair` names the pattern segment `pattern_segment` (without its colons)
/// and holds the path segment `path_segment` as its value.
pub open spec fn names_segment(
    pair: (Seq<char>, Seq<char>),
    pattern_segment: Seq<char>,
    path_segment: Seq<char>,
) -> bool {
    pair.0 == strip_colons(pattern_segment) && pair.1 == path_segment
}

/// How many of the first `n` segments `r` of a pattern are `:name`
/// segments.
pub open spec fn count_params(r: Seq<Seq<char>>, n: int) -> nat
    decreases n,
{
    if n <= 0 {
        0
    } else if is_param_segment(r[n - 1]) {
        count_params(r, n - 1) + 1
    } else {
        count_params(r, n - 1)
    }
}

/// The parameters from the first `n` paired segments: one for each `:name`
/// segment, in order, each paired with the path segment in its place.
proof fn lemma_params_are_segments(r: Seq<Seq<char>>, p: Seq<Seq<char>>, n: int)
    requires
        0 <= n <= r.len(),
        n <= p.len(),
    ensures
        params_of_segments(r, p, n).len() == count_params(r, n),
        forall|i: int|
            0 <= i < n && is_param_segment(#[trigger] r[i]) ==> names_segment(
                params_of_segments(r, p, n)[count_params(r, i) as int],
                r[i],
                p[i],
            ),
    decreases n,
{
    if n > 0 {
        lemma_params_are_segments(r, p, n - 1);
        let before = params_of_segments(r, p, n - 1);
        let now = params_of_segments(r, p, n);
        let last = (strip_colons(r[n - 1]), p[n - 1]);
        if is_param_segment(r[n - 1]) {
            assert(now == before.push(last));
        } else {
            assert(now == before);
        }
        assert forall|i: int| 0 <= i < n && is_param_segment(#[trigger] r[i]) implies names_segment(
            now[count_params(r, i) as int],
            r[i],
            p[i],
        ) by {
            if i < n - 1 {
                lemma_count_params_grows(r, i + 1, n - 1);
                assert(count_params(r, i) < count_params(r, i + 1));
                assert(now[count_params(r, i) as int] == before[count_params(r, i) as int]);
            } else {
                assert(now[count_params(r, i) as int] == last);
            }
        }
    }
}

/// The count of `:name` segments does not shrink as more segments are
/// counted.
proof fn lemma_count_params_grows(r: Seq<Seq<char>>, a: int, b: int)
    requires
        0 <= a <= b,
    ensures
        count_params(r, a) <= count_params(r, b),
    decreases b - a,
{
    if a < b {
        lemma_count_params_grows(r, a, b - 1);
    }
}

/// The number of segments a pattern and a path are compared on: the fewer
/// of the two.
pub open spec fn compared_segments(pattern: Seq<char>, path: Seq<char>) -> int {
    if split_seq(pattern, seq!['/']).len() < split_seq(path, seq!['/']).len() {
        split_seq(pattern, seq!['/']).len() as int
    } else {
        split_seq(path, seq!['/']).len() as int
    }
}

/// The path parameters of `path` under `pattern` are one for each `:name`
/// segment of the pattern (among the segments the two have in common), in
/// order: the one for the `i`-th segment comes after the parameters of the
/// segments before it, is named as the segment without its colons, and
/// holds the path segment in its place, as sent.
pub proof fn law_path_params_are_segments(pattern: Seq<char>, path: Seq<char>)
    ensures
        path_param_pairs(pattern, path).len() == count_params(
            split_seq(pattern, seq!['/']),
            compared_segments(pattern, path),
        ),
        forall|i: int|
            0 <= i < compared_segments(pattern, path) && is_param_segment(
                #[trigger] split_seq(pattern, seq!['/'])[i],
            ) ==> names_segment(
                path_param_pairs(pattern, path)[count_params(split_seq(pattern, seq!['/']), i) as int],
                split_seq(pattern, seq!['/'])[i],
                split_seq(path, seq!['/'])[i],
            ),
{
    let r = split_seq(pattern, seq!['/']);
    let p = split_seq(path, seq!['/']);
    let n = compared_segments(pattern, path);
    lemma_params_are_segments(r, p, n);
    assert(path_param_pairs(pattern, path) == params_of_segments(r, p, n));
}

} // verus!
