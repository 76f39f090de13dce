//! The route table: `(method, pattern)` entries registered once, and a
//! lookup that picks the first registered entry matching a request.
use vstd::prelude::*;
use vstd::string::*;
use crate::context::Params;
use crate::text::{split_on, split_str, string_views};

verus! {

/// What a route leads to; `NotFound` is the outcome of a lookup that no
/// entry matches.
#[derive(Clone, Copy, Debug, PartialEq, Eq, Structural)]
pub enum Handler {
    Test,
    Counter,
    Send,
    Param,
    NotFound,
}

/// One segment of a route pattern, as a value.
pub enum PatternSegment {
    Literal(Seq<char>),
    Param(Seq<char>),
}

/// A registered route, as a value.
pub struct RouteView {
    pub method: Seq<char>,
    pub pattern: Seq<PatternSegment>,
    pub handler: Handler,
}

/// A pattern segment `:name` binds a parameter; any other is literal.
pub open spec fn parse_segment(s: Seq<char>) -> PatternSegment {
    if s.len() > 0 && s[0] == ':' {
        PatternSegment::Param(s.drop_first())
    } else {
        PatternSegment::Literal(s)
    }
}

/// The segments of a pattern written as a path, such as `/params/:id`.
pub open spec fn parse_pattern(p: Seq<char>) -> Seq<PatternSegment> {
    split_on(p, '/').map_values(|s: Seq<char>| parse_segment(s))
}

/// The segments of a request path.
pub open spec fn path_segments(path: Seq<char>) -> Seq<Seq<char>> {
    split_on(path, '/')
}

/// A literal matches itself; a parameter matches any non-empty segment.
pub open spec fn segment_matches(p: PatternSegment, s: Seq<char>) -> bool {
    match p {
        PatternSegment::Literal(l) => l == s,
        PatternSegment::Param(_) => s.len() > 0,
    }
}

pub open spec fn pattern_matches(pat: Seq<PatternSegment>, segs: Seq<Seq<char>>) -> bool {
    &&& pat.len() == segs.len()
    &&& forall|i: int| 0 <= i < pat.len() ==> #[trigger] segment_matches(pat[i], segs[i])
}

/// The parameters that `pat` binds on `segs`, in pattern order.
pub open spec fn captured(pat: Seq<PatternSegment>, segs: Seq<Seq<char>>) -> Seq<
    (Seq<char>, Seq<char>),
>
    decreases pat.len(),
{
    if pat.len() == 0 || segs.len() == 0 {
        Seq::empty()
    } else {
        let rest = captured(pat.drop_last(), segs.drop_last());
        match pat.last() {
            PatternSegment::Param(name) => rest.push((name, segs.last())),
            PatternSegment::Literal(_) => rest,
        }
    }
}

pub open spec fn route_matches(r: RouteView, method: Seq<char>, segs: Seq<Seq<char>>) -> bool {
    r.method == method && pattern_matches(r.pattern, segs)
}

/// The index of the first registered route that matches.
pub open spec fn first_match(routes: Seq<RouteView>, method: Seq<char>, segs: Seq<Seq<char>>) -> Option<
    int,
>
    decreases routes.len(),
{
    if routes.len() == 0 {
        None
    } else {
        match first_match(routes.drop_last(), method, segs) {
            Some(i) => Some(i),
            None => if route_matches(routes.last(), method, segs) {
                Some(routes.len() - 1)
            } else {
                None
            },
        }
    }
}

/// The result of a lookup: the handler to run and the parameters bound.
pub struct RouteMatch {
    pub handler: Handler,
    pub params: Params,
}

/// What a lookup of `(method, path)` in `routes` yields.
pub open spec fn routed(routes: Seq<RouteView>, method: Seq<char>, path: Seq<char>) -> (
    Handler,
    Seq<(Seq<char>, Seq<char>)>,
) {
    let segs = path_segments(path);
    match first_match(routes, method, segs) {
        Some(i) => (routes[i].handler, captured(routes[i].pattern, segs)),
        None => (Handler::NotFound, Seq::empty()),
    }
}

/// One segment of a registered pattern.
pub enum Segment {
    Literal(String),
    Param(String),
}

impl View for Segment {
    type V = PatternSegment;

    open spec fn view(&self) -> PatternSegment {
        match self {
            Segment::Literal(s) => PatternSegment::Literal(s@),
            Segment::Param(s) => PatternSegment::Param(s@),
        }
    }
}

/// A registered route: method, pattern segments and handler.
pub struct Route {
    pub method: String,
    pub pattern: Vec<Segment>,
    pub handler: Handler,
}

impl View for Route {
    type V = RouteView;

    open spec fn view(&self) -> RouteView {
        RouteView {
            method: self.method@,
            pattern: self.pattern@.map_values(|s: Segment| s@),
            handler: self.handler,
        }
    }
}

/// The route table, in registration order.
pub struct Router {
    routes: Vec<Route>,
}

impl View for Router {
    type V = Seq<RouteView>;

    closed spec fn view(&self) -> Seq<RouteView> {
        self.routes@.map_values(|r: Route| r@)
    }
}

fn parse_segment_exec(s: String) -> (r: Segment)
    ensures
        r@ == parse_segment(s@),
{
    let n = s.as_str().unicode_len();
    if n > 0 && s.as_str().get_char(0) == ':' {
        let name = s.as_str().substring_char(1, n).to_string();
        assert(name@ =~= s@.drop_first());
        Segment::Param(name)
    } else {
        Segment::Literal(s)
    }
}

fn parse_pattern_exec(path: &str) -> (r: Vec<Segment>)
    ensures
        r@.map_values(|s: Segment| s@) == parse_pattern(path@),
{
    let pieces = split_str(path, '/');
    let ghost views = string_views(pieces@);
    let n = pieces.len();
    let mut r: Vec<Segment> = Vec::new();
    let mut i: usize = 0;
    while i < n
        invariant
            n == pieces@.len(),
            views == string_views(pieces@),
            i <= n,
            r@.len() == i,
            forall|j: int| 0 <= j < i ==> #[trigger] r@[j]@ == parse_segment(views[j]),
        decreases n - i,
    {
        r.push(parse_segment_exec(pieces[i].clone()));
        i = i + 1;
    }
    assert(r@.map_values(|s: Segment| s@) =~= parse_pattern(path@));
    r
}

/// Binds the parameters of `pattern` on `segs`, or `None` where the pattern
/// does not match.
fn match_pattern(pattern: &Vec<Segment>, segs: &Vec<String>) -> (r: Option<Params>)
    ensures
        r is Some <==> pattern_matches(pattern@.map_values(|s: Segment| s@), string_views(segs@)),
        r matches Some(p) ==> p@ == captured(
            pattern@.map_values(|s: Segment| s@),
            string_views(segs@),
        ),
{
    let ghost pat = pattern@.map_values(|s: Segment| s@);
    let ghost sv = string_views(segs@);
    let n = pattern.len();
    if n != segs.len() {
        return None;
    }
    let mut params = Params::new();
    let mut i: usize = 0;
    while i < n
        invariant
            n == pattern@.len(),
            n == segs@.len(),
            pat == pattern@.map_values(|s: Segment| s@),
            sv == string_views(segs@),
            i <= n,
            forall|j: int| 0 <= j < i ==> #[trigger] segment_matches(pat[j], sv[j]),
            params@ == captured(pat.subrange(0, i as int), sv.subrange(0, i as int)),
        decreases n - i,
    {
        proof {
            assert(pat.subrange(0, i + 1).drop_last() =~= pat.subrange(0, i as int));
            assert(sv.subrange(0, i + 1).drop_last() =~= sv.subrange(0, i as int));
        }
        match &pattern[i] {
            Segment::Literal(lit) => {
                if *lit != segs[i] {
                    assert(!segment_matches(pat[i as int], sv[i as int]));
                    return None;
                }
            },
            Segment::Param(name) => {
                if segs[i].as_str().unicode_len() == 0 {
                    assert(!segment_matches(pat[i as int], sv[i as int]));
                    return None;
                }
                params.insert(name.clone(), segs[i].clone());
            },
        }
        i = i + 1;
    }
    proof {
        assert(pat.subrange(0, n as int) =~= pat);
        assert(sv.subrange(0, n as int) =~= sv);
    }
    Some(params)
}

impl Router {
    /// An empty table.
    pub fn new() -> (r: Router)
        ensures
            r@ == Seq::<RouteView>::empty(),
    {
        let r = Router { routes: Vec::new() };
        assert(r@ =~= Seq::<RouteView>::empty());
        r
    }

    /// Registers `handler` for requests with `method` whose path matches
    /// `pattern`, after every route registered so far.
    pub fn add(&mut self, method: &str, pattern: &str, handler: Handler)
        ensures
            final(self)@ == old(self)@.push(
                RouteView { method: method@, pattern: parse_pattern(pattern@), handler },
            ),
    {
        let ghost before = self@;
        let route = Route {
            method: method.to_string(),
            pattern: parse_pattern_exec(pattern),
            handler,
        };
        self.routes.push(route);
        assert(self@ =~= before.push(
            RouteView { method: method@, pattern: parse_pattern(pattern@), handler },
        ));
    }

    /// Registers a `GET` route.
    pub fn get(&mut self, pattern: &str, handler: Handler)
        ensures
            final(self)@ == old(self)@.push(
                RouteView {
                    method: "GET"@,
                    pattern: parse_pattern(pattern@),
                    handler,
                },
            ),
    {
        self.add("GET", pattern, handler);
    }

    /// Registers a `POST` route.
    pub fn post(&mut self, pattern: &str, handler: Handler)
        ensures
            final(self)@ == old(self)@.push(
                RouteView {
                    method: "POST"@,
                    pattern: parse_pattern(pattern@),
                    handler,
                },
            ),
    {
        self.add("POST", pattern, handler);
    }

    /// Resolves a request: the first registered route whose method is
    /// `method` and whose pattern matches `path` segment for segment, with
    /// the parameters it binds; `Handler::NotFound` and no parameters where
    /// none matches.
    pub fn route(&self, path: &str, method: &str) -> (r: RouteMatch)
        ensures
            (r.handler, r.params@) == routed(self@, method@, path@),
    {
        let segs = split_str(path, '/');
        let wanted = method.to_string();
        let ghost sv = string_views(segs@);
        let n = self.routes.len();
        let mut i: usize = 0;
        while i < n
            invariant
                n == self@.len(),
                i <= n,
                sv == path_segments(path@),
                sv == string_views(segs@),
                wanted@ == method@,
                first_match(self@.subrange(0, i as int), method@, sv) is None,
            decreases n - i,
        {
            let ghost prefix = self@.subrange(0, i + 1);
            proof {
                assert(prefix.drop_last() =~= self@.subrange(0, i as int));
                assert(prefix.last() == self@[i as int]);
            }
            let route = &self.routes[i];
            if route.method == wanted {
                match match_pattern(&route.pattern, &segs) {
                    Some(params) => {
                        proof {
                            assert(first_match(prefix, method@, sv) == Some(i as int));
                            lemma_first_match_extends(self@, method@, sv, i as int + 1);
                        }
                        return RouteMatch { handler: route.handler, params };
                    },
                    None => {},
                }
            }
            i = i + 1;
        }
        proof {
            assert(self@.subrange(0, n as int) =~= self@);
        }
        RouteMatch { handler: Handler::NotFound, params: Params::new() }
    }
}

/// A match among the first `k` routes stays the first match of the whole table.
proof fn lemma_first_match_extends(
    routes: Seq<RouteView>,
    method: Seq<char>,
    segs: Seq<Seq<char>>,
    k: int,
)
    requires
        0 <= k <= routes.len(),
        first_match(routes.subrange(0, k), method, segs) is Some,
    ensures
        first_match(routes, method, segs) == first_match(routes.subrange(0, k), method, segs),
    decreases routes.len() - k,
{
    if k < routes.len() {
        let longer = routes.subrange(0, k + 1);
        assert(longer.drop_last() =~= routes.subrange(0, k));
        lemma_first_match_extends(routes, method, segs, k + 1);
    } else {
        assert(routes.subrange(0, k) =~= routes);
    }
}

/// `first_match` picks the lowest index that matches, and finds nothing only
/// where no route matches.
proof fn lemma_first_match_is_first(routes: Seq<RouteView>, method: Seq<char>, segs: Seq<Seq<char>>)
    ensures
        match first_match(routes, method, segs) {
            Some(i) => 0 <= i < routes.len() && route_matches(routes[i], method, segs) && forall|
                j: int,
            |
                0 <= j < i ==> !#[trigger] route_matches(routes[j], method, segs),
            None => forall|j: int|
                0 <= j < routes.len() ==> !#[trigger] route_matches(routes[j], method, segs),
        },
    decreases routes.len(),
{
    if routes.len() > 0 {
        let prev = routes.drop_last();
        lemma_first_match_is_first(prev, method, segs);
        assert forall|j: int| 0 <= j < prev.len() implies prev[j] == routes[j] by {}
    }
}

/// A request that a registered route matches, and that no route registered
/// before it matches, is answered by that route's handler with the
/// parameters its pattern binds on the path.
pub proof fn lemma_registered_route_answers(
    routes: Seq<RouteView>,
    i: int,
    method: Seq<char>,
    path: Seq<char>,
)
    requires
        0 <= i < routes.len(),
        route_matches(routes[i], method, path_segments(path)),
        forall|j: int|
            0 <= j < i ==> !#[trigger] route_matches(routes[j], method, path_segments(path)),
    ensures
        routed(routes, method, path) == (
            routes[i].handler,
            captured(routes[i].pattern, path_segments(path)),
        ),
{
    let segs = path_segments(path);
    lemma_first_match_is_first(routes, method, segs);
    match first_match(routes, method, segs) {
        Some(k) => {
            if k < i {
                assert(!route_matches(routes[k], method, segs));
            } else if k > i {
                assert(!route_matches(routes[i], method, segs));
            }
        },
        None => {
            assert(!route_matches(routes[i], method, segs));
        },
    }
}

/// A request that no registered route matches, by method or by path, gets
/// the not-found outcome and no parameters.
pub proof fn lemma_unmatched_is_not_found(routes: Seq<RouteView>, method: Seq<char>, path: Seq<char>)
    requires
        forall|j: int|
            0 <= j < routes.len() ==> !#[trigger] route_matches(routes[j], method, path_segments(path)),
    ensures
        routed(routes, method, path) == (Handler::NotFound, Seq::<(Seq<char>, Seq<char>)>::empty()),
{
    let segs = path_segments(path);
    lemma_first_match_is_first(routes, method, segs);
    if let Some(k) = first_match(routes, method, segs) {
        assert(route_matches(routes[k], method, segs));
    }
}

} // verus!
