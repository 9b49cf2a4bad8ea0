//! Routes of a generated site: path patterns with `:name` parameters, a
//! router that resolves a request path to the first matching route, and a
//! sitemap of the routes that have no parameters.

use vstd::prelude::*;
use vstd::string::*;
use crate::string_map::StringMap;
use crate::text::{split_chars, split_on, contains_char, str_eq, trim_end_char, chars_of};

verus! {

#[verifier::external_type_specification]
#[verifier::external_body]
pub struct ExJsonError(serde_json::Error);

/// Why a route could not be produced.
#[derive(Debug)]
pub enum RoutingError {
    RouteNotFound(String),
    InvalidPattern(String),
    SerializationError(serde_json::Error),
}

/// A path segment that names a parameter: it starts with `:`.
pub open spec fn is_param_segment(seg: Seq<char>) -> bool {
    seg.len() > 0 && seg[0] == ':'
}

/// A route pattern and a path, split at `/`, agree segment by segment.
pub open spec fn segments_match(rs: Seq<Seq<char>>, ps: Seq<Seq<char>>) -> bool {
    &&& rs.len() == ps.len()
    &&& forall|i: int| 0 <= i < rs.len() ==> is_param_segment(rs[i]) || rs[i] == ps[i]
}

/// Whether the route pattern `route` accepts the request path `path`.
pub open spec fn route_matches(route: Seq<char>, path: Seq<char>) -> bool {
    if route.contains(':') {
        segments_match(split_chars(route, '/'), split_chars(path, '/'))
    } else {
        route == path
    }
}

/// Parameters bound by the first `k` segment pairs; a later binding of a
/// name replaces an earlier one.
pub open spec fn params_from(rs: Seq<Seq<char>>, ps: Seq<Seq<char>>, k: int) -> Map<Seq<char>, Seq<char>>
    decreases k,
{
    if k <= 0 {
        Map::empty()
    } else {
        let m = params_from(rs, ps, k - 1);
        if is_param_segment(rs[k - 1]) {
            m.insert(rs[k - 1].drop_first(), ps[k - 1])
        } else {
            m
        }
    }
}

/// The parameters that the pattern `route` binds in `path`, pairing the
/// segments up to the shorter of the two.
pub open spec fn route_params(route: Seq<char>, path: Seq<char>) -> Map<Seq<char>, Seq<char>> {
    if !route.contains(':') {
        Map::empty()
    } else {
        let rs = split_chars(route, '/');
        let ps = split_chars(path, '/');
        params_from(rs, ps, if rs.len() <= ps.len() { rs.len() as int } else { ps.len() as int })
    }
}

/// The abstract content of a route.
pub struct RouteView {
    pub path: Seq<char>,
    pub component: Seq<char>,
    pub title: Option<Seq<char>>,
    pub meta: Map<Seq<char>, Seq<char>>,
    pub ecs_dependencies: Seq<Seq<char>>,
}

/// A page of the site: its path pattern, the component that renders it,
/// and descriptive data.
#[derive(Debug)]
pub struct Route {
    pub path: String,
    pub component: String,
    pub title: Option<String>,
    pub meta: StringMap,
    pub ecs_dependencies: Vec<String>,
}

pub open spec fn opt_string_view(o: Option<String>) -> Option<Seq<char>> {
    match o {
        Some(s) => Some(s@),
        None => None,
    }
}

pub open spec fn strings_view(v: Seq<String>) -> Seq<Seq<char>> {
    v.map_values(|s: String| s@)
}

impl View for Route {
    type V = RouteView;

    open spec fn view(&self) -> RouteView {
        RouteView {
            path: self.path@,
            component: self.component@,
            title: opt_string_view(self.title),
            meta: self.meta@,
            ecs_dependencies: strings_view(self.ecs_dependencies@),
        }
    }
}

/// Copies a list of strings.
pub fn clone_strings(v: &Vec<String>) -> (r: Vec<String>)
    ensures
        strings_view(r@) == strings_view(v@),
{
    let n = v.len();
    let mut out: Vec<String> = Vec::new();
    let mut i: usize = 0;
    while i < n
        invariant
            n == v@.len(),
            i <= n,
            strings_view(out@) =~= strings_view(v@.subrange(0, i as int)),
        decreases n - i,
    {
        let ghost before = out@;
        let c = v[i].clone();
        out.push(c);
        proof {
            assert(v@.subrange(0, i + 1) =~= v@.subrange(0, i as int).push(v@[i as int]));
            assert(strings_view(out@) =~= strings_view(before).push(c@));
            assert(strings_view(out@) =~= strings_view(v@.subrange(0, i + 1)));
        }
        i += 1;
    }
    proof {
        assert(v@.subrange(0, n as int) =~= v@);
    }
    out
}

impl Clone for Route {
    fn clone(&self) -> (r: Self)
        ensures
            r@ == self@,
    {
        let title = match &self.title {
            Some(t) => Some(t.clone()),
            None => None,
        };
        Route {
            path: self.path.clone(),
            component: self.component.clone(),
            title,
            meta: self.meta.clone(),
            ecs_dependencies: clone_strings(&self.ecs_dependencies),
        }
    }
}

/// Whether a segment names a parameter.
fn param_segment(seg: &str) -> (b: bool)
    ensures
        b == is_param_segment(seg@),
{
    seg.unicode_len() > 0 && seg.get_char(0) == ':'
}

impl Route {
    /// A route for `path` rendered by `component`, with no title, metadata
    /// or dependencies.
    pub fn new(path: &str, component: &str) -> (r: Self)
        ensures
            r@.path == path@,
            r@.component == component@,
            r@.title == None::<Seq<char>>,
            r@.meta == Map::<Seq<char>, Seq<char>>::empty(),
            r@.ecs_dependencies == Seq::<Seq<char>>::empty(),
    {
        let r = Route {
            path: String::from_str(path),
            component: String::from_str(component),
            title: None,
            meta: StringMap::new(),
            ecs_dependencies: Vec::new(),
        };
        assert(strings_view(r.ecs_dependencies@) =~= Seq::<Seq<char>>::empty());
        r
    }

    /// The same route with the given title.
    pub fn with_title(self, title: &str) -> (r: Self)
        ensures
            r@ == (RouteView { title: Some(title@), ..self@ }),
    {
        let mut s = self;
        s.title = Some(String::from_str(title));
        s
    }

    /// The same route with `value` stored under the metadata key `key`.
    pub fn with_meta(self, key: &str, value: &str) -> (r: Self)
        ensures
            r@ == (RouteView { meta: self@.meta.insert(key@, value@), ..self@ }),
    {
        let mut s = self;
        s.meta.insert(String::from_str(key), String::from_str(value));
        s
    }

    /// The same route with one more ECS dependency at the end of the list.
    pub fn with_ecs_dependency(self, dependency: &str) -> (r: Self)
        ensures
            r@ == (RouteView { ecs_dependencies: self@.ecs_dependencies.push(dependency@), ..self@ }),
    {
        let mut s = self;
        let ghost before = s.ecs_dependencies@;
        s.ecs_dependencies.push(String::from_str(dependency));
        assert(strings_view(s.ecs_dependencies@) =~= strings_view(before).push(dependency@));
        s
    }

    /// Whether this route accepts the request path `path`.
    pub fn matches(&self, path: &str) -> (b: bool)
        ensures
            b == route_matches(self.path@, path@),
    {
        if contains_char(self.path.as_str(), ':') {
            self.matches_dynamic(path)
        } else {
            str_eq(self.path.as_str(), path)
        }
    }

    fn matches_dynamic(&self, path: &str) -> (b: bool)
        ensures
            b == segments_match(split_chars(self.path@, '/'), split_chars(path@, '/')),
    {
        let route_segments = split_on(self.path.as_str(), '/');
        let path_segments = split_on(path, '/');
        let ghost rs = split_chars(self.path@, '/');
        let ghost ps = split_chars(path@, '/');
        assert(route_segments@.len() == rs.len());
        assert(path_segments@.len() == ps.len());
        if route_segments.len() != path_segments.len() {
            return false;
        }
        let n = route_segments.len();
        let mut i: usize = 0;
        while i < n
            invariant
                n == route_segments@.len(),
                n == path_segments@.len(),
                route_segments@.map_values(|p: String| p@) == rs,
                path_segments@.map_values(|p: String| p@) == ps,
                rs.len() == ps.len(),
                rs == split_chars(self.path@, '/'),
                ps == split_chars(path@, '/'),
                i <= n,
                forall|j: int| 0 <= j < i ==> is_param_segment(rs[j]) || rs[j] == ps[j],
            decreases n - i,
        {
            assert(route_segments@[i as int]@ == rs[i as int]);
            assert(path_segments@[i as int]@ == ps[i as int]);
            if !param_segment(route_segments[i].as_str()) {
                if !str_eq(route_segments[i].as_str(), path_segments[i].as_str()) {
                    assert(!(is_param_segment(rs[i as int]) || rs[i as int] == ps[i as int]));
                    return false;
                }
            }
            i += 1;
        }
        true
    }

    /// The parameters that this route binds in `path`.
    pub fn extract_params(&self, path: &str) -> (params: StringMap)
        ensures
            params@ == route_params(self.path@, path@),
    {
        let mut params = StringMap::new();
        if !contains_char(self.path.as_str(), ':') {
            return params;
        }
        let route_segments = split_on(self.path.as_str(), '/');
        let path_segments = split_on(path, '/');
        let ghost rs = split_chars(self.path@, '/');
        let ghost ps = split_chars(path@, '/');
        assert(route_segments@.len() == rs.len());
        assert(path_segments@.len() == ps.len());
        let n = if route_segments.len() <= path_segments.len() {
            route_segments.len()
        } else {
            path_segments.len()
        };
        let mut i: usize = 0;
        while i < n
            invariant
                n <= route_segments@.len(),
                n <= path_segments@.len(),
                route_segments@.map_values(|p: String| p@) == rs,
                path_segments@.map_values(|p: String| p@) == ps,
                i <= n,
                params@ == params_from(rs, ps, i as int),
            decreases n - i,
        {
            assert(route_segments@[i as int]@ == rs[i as int]);
            assert(path_segments@[i as int]@ == ps[i as int]);
            let seg = route_segments[i].as_str();
            if param_segment(seg) {
                let len = seg.unicode_len();
                let name = String::from_str(seg.substring_char(1, len));
                assert(name@ =~= rs[i as int].drop_first());
                params.insert(name, path_segments[i].clone());
            }
            i += 1;
        }
        params
    }
}

/// Whether a route has no parameter segment.
pub open spec fn is_static_route(r: RouteView) -> bool {
    !r.path.contains(':')
}

pub open spec fn routes_view(s: Seq<Route>) -> Seq<RouteView> {
    s.map_values(|r: Route| r@)
}

/// The routes among `s` that have no parameter, in order.
pub open spec fn static_routes(s: Seq<RouteView>) -> Seq<RouteView>
    decreases s.len(),
{
    if s.len() == 0 {
        Seq::empty()
    } else if is_static_route(s.last()) {
        static_routes(s.drop_last()).push(s.last())
    } else {
        static_routes(s.drop_last())
    }
}

/// The paths of a sequence of routes.
pub open spec fn route_paths(s: Seq<RouteView>) -> Seq<Seq<char>> {
    s.map_values(|r: RouteView| r.path)
}

/// Index of the first route in `s` that accepts `path`, if one does.
pub open spec fn first_match(s: Seq<RouteView>, path: Seq<char>, i: int) -> bool {
    &&& 0 <= i < s.len()
    &&& route_matches(s[i].path, path)
    &&& forall|j: int| 0 <= j < i ==> !route_matches(#[trigger] s[j].path, path)
}

/// Routes in the order they were added, and the route used when none matches.
#[derive(Debug)]
pub struct Router {
    routes: Vec<Route>,
    fallback_route: Option<Route>,
}

impl Router {
    /// The routes, in the order they were added.
    pub closed spec fn route_list(&self) -> Seq<RouteView> {
        routes_view(self.routes@)
    }

    /// The fallback route, if one was set.
    pub closed spec fn fallback(&self) -> Option<RouteView> {
        match self.fallback_route {
            Some(r) => Some(r@),
            None => None,
        }
    }

    /// A router with no routes and no fallback.
    pub fn new() -> (r: Self)
        ensures
            r.route_list() == Seq::<RouteView>::empty(),
            r.fallback() == None::<RouteView>,
    {
        let r = Router { routes: Vec::new(), fallback_route: None };
        assert(routes_view(r.routes@) =~= Seq::<RouteView>::empty());
        r
    }

    /// The same router with `route` added after the others.
    pub fn add_route(self, route: Route) -> (r: Self)
        ensures
            r.route_list() == self.route_list().push(route@),
            r.fallback() == self.fallback(),
    {
        let mut s = self;
        let ghost before = s.routes@;
        s.routes.push(route);
        assert(routes_view(s.routes@) =~= routes_view(before).push(route@));
        s
    }

    /// The same router with `route` as its fallback.
    pub fn with_fallback(self, route: Route) -> (r: Self)
        ensures
            r.route_list() == self.route_list(),
            r.fallback() == Some(route@),
    {
        let mut s = self;
        s.fallback_route = Some(route);
        s
    }

    /// The first route that accepts `path`; else the fallback; else an error
    /// that names the path.
    pub fn resolve(&self, path: &str) -> (res: Result<&Route, RoutingError>)
        ensures
            match res {
                Ok(r) => {
                    ||| exists|i: int| first_match(self.route_list(), path@, i) && r@ == self.route_list()[i]
                    ||| (forall|i: int| 0 <= i < self.route_list().len()
                            ==> !route_matches(#[trigger] self.route_list()[i].path, path@))
                        && self.fallback() == Some(r@)
                },
                Err(e) => {
                    &&& forall|i: int| 0 <= i < self.route_list().len()
                            ==> !route_matches(#[trigger] self.route_list()[i].path, path@)
                    &&& self.fallback() == None::<RouteView>
                    &&& e matches RoutingError::RouteNotFound(p) && p@ == path@
                },
            },
            (exists|i: int| 0 <= i < self.route_list().len() && route_matches(self.route_list()[i].path, path@))
                ==> res is Ok,
    {
        let n = self.routes.len();
        let mut i: usize = 0;
        while i < n
            invariant
                n == self.routes@.len(),
                i <= n,
                forall|j: int| 0 <= j < i ==> !route_matches(#[trigger] self.route_list()[j].path, path@),
            decreases n - i,
        {
            if self.routes[i].matches(path) {
                assert(first_match(self.route_list(), path@, i as int));
                return Ok(&self.routes[i]);
            }
            i += 1;
        }
        match &self.fallback_route {
            Some(f) => Ok(f),
            None => Err(RoutingError::RouteNotFound(String::from_str(path))),
        }
    }

    /// All routes, in the order they were added.
    pub fn get_all_routes(&self) -> (s: &[Route])
        ensures
            routes_view(s@) == self.route_list(),
    {
        self.routes.as_slice()
    }

    /// The routes without parameters, in the order they were added.
    pub fn get_static_routes(&self) -> (v: Vec<&Route>)
        ensures
            v@.map_values(|r: &Route| r@) == static_routes(self.route_list()),
    {
        let n = self.routes.len();
        let mut out: Vec<&Route> = Vec::new();
        let mut i: usize = 0;
        while i < n
            invariant
                n == self.routes@.len(),
                i <= n,
                out@.map_values(|r: &Route| r@) == static_routes(self.route_list().subrange(0, i as int)),
            decreases n - i,
        {
            let ghost pre = self.route_list().subrange(0, i as int);
            proof {
                assert(self.route_list().subrange(0, i + 1).drop_last() =~= pre);
                assert(self.route_list().subrange(0, i + 1).last() == self.routes@[i as int]@);
            }
            let ghost before = out@;
            if !contains_char(self.routes[i].path.as_str(), ':') {
                out.push(&self.routes[i]);
                assert(out@.map_values(|r: &Route| r@) =~= before.map_values(|r: &Route| r@).push(self.routes@[i as int]@));
            }
            i += 1;
        }
        proof {
            assert(self.route_list().subrange(0, n as int) =~= self.route_list());
        }
        out
    }

    /// The paths of the routes without parameters, in the order they were added.
    pub fn generate_route_list(&self) -> (v: Vec<String>)
        ensures
            strings_view(v@) == route_paths(static_routes(self.route_list())),
    {
        let routes = self.get_static_routes();
        let n = routes.len();
        let mut out: Vec<String> = Vec::new();
        let mut i: usize = 0;
        while i < n
            invariant
                n == routes@.len(),
                i <= n,
                routes@.map_values(|r: &Route| r@) == static_routes(self.route_list()),
                strings_view(out@) =~= route_paths(static_routes(self.route_list())).subrange(0, i as int),
            decreases n - i,
        {
            assert(routes@[i as int]@ == static_routes(self.route_list())[i as int]);
            let ghost before = out@;
            let p = routes[i].path.clone();
            out.push(p);
            assert(strings_view(out@) =~= strings_view(before).push(p@));
            i += 1;
        }
        out
    }
}

impl Default for Router {
    fn default() -> (r: Self)
        ensures
            r.route_list() == Seq::<RouteView>::empty(),
            r.fallback() == None::<RouteView>,
    {
        Router::new()
    }
}

/// First lines of a sitemap document.
pub const SITEMAP_HEADER: &'static str = "<?xml version=\"1.0\" encoding=\"UTF-8\"?>\n<urlset xmlns=\"http://www.sitemaps.org/schemas/sitemap/0.9\">\n";

/// Opening of one `<url>` element, up to its location.
pub const URL_OPEN: &'static str = "  <url>\n    <loc>";

/// Between the location and the modification time of a `<url>` element.
pub const URL_LASTMOD: &'static str = "</loc>\n    <lastmod>";

/// Rest of a `<url>` element after its modification time.
pub const URL_CLOSE: &'static str = "</lastmod>\n    <changefreq>weekly</changefreq>\n    <priority>0.8</priority>\n  </url>\n";

/// Last line of a sitemap document.
pub const SITEMAP_FOOTER: &'static str = "</urlset>\n";

/// The `<url>` element of one page.
pub open spec fn url_entry(base: Seq<char>, path: Seq<char>, lastmod: Seq<char>) -> Seq<char> {
    URL_OPEN@ + trim_end_char(base, '/') + path + URL_LASTMOD@ + lastmod + URL_CLOSE@
}

/// The `<url>` elements of the given pages, in order.
pub open spec fn url_entries(base: Seq<char>, paths: Seq<Seq<char>>, lastmod: Seq<char>) -> Seq<char>
    decreases paths.len(),
{
    if paths.len() == 0 {
        Seq::empty()
    } else {
        url_entries(base, paths.drop_last(), lastmod) + url_entry(base, paths.last(), lastmod)
    }
}

/// The sitemap document of the given pages.
pub open spec fn sitemap_xml(base: Seq<char>, paths: Seq<Seq<char>>, lastmod: Seq<char>) -> Seq<char> {
    SITEMAP_HEADER@ + url_entries(base, paths, lastmod) + SITEMAP_FOOTER@
}

/// `s` without its trailing `/` characters.
fn trim_end_slashes(s: &str) -> (t: &str)
    ensures
        t@ == trim_end_char(s@, '/'),
{
    let mut k = s.unicode_len();
    assert(s@.subrange(0, k as int) =~= s@);
    while k > 0 && s.get_char(k - 1) == '/'
        invariant
            k <= s@.len(),
            trim_end_char(s@, '/') == trim_end_char(s@.subrange(0, k as int), '/'),
        decreases k,
    {
        assert(s@.subrange(0, k as int).drop_last() =~= s@.subrange(0, k - 1));
        k -= 1;
    }
    s.substring_char(0, k)
}

/// The static pages of a site, where it is served, and when it last changed.
#[derive(Debug)]
pub struct SiteMap {
    pub routes: Vec<Route>,
    pub base_url: String,
    pub last_modified: String,
}

impl SiteMap {
    /// An empty sitemap for `base_url`, stamped `last_modified` (the
    /// caller reads the clock).
    pub fn new(base_url: &str, last_modified: &str) -> (m: Self)
        ensures
            m.routes@.len() == 0,
            m.base_url@ == base_url@,
            m.last_modified@ == last_modified@,
    {
        SiteMap { routes: Vec::new(), base_url: String::from_str(base_url), last_modified: String::from_str(last_modified) }
    }

    /// The sitemap of the routes of `router` that have no parameter.
    pub fn from_router(router: &Router, base_url: &str, last_modified: &str) -> (m: Self)
        ensures
            routes_view(m.routes@) == static_routes(router.route_list()),
            m.base_url@ == base_url@,
            m.last_modified@ == last_modified@,
    {
        let mut sitemap = SiteMap::new(base_url, last_modified);
        let selected = router.get_static_routes();
        let n = selected.len();
        let mut routes: Vec<Route> = Vec::new();
        let mut i: usize = 0;
        while i < n
            invariant
                n == selected@.len(),
                i <= n,
                routes_view(routes@) =~= selected@.map_values(|r: &Route| r@).subrange(0, i as int),
            decreases n - i,
        {
            let ghost before = routes@;
            let r = selected[i].clone();
            routes.push(r);
            assert(routes_view(routes@) =~= routes_view(before).push(r@));
            i += 1;
        }
        assert(selected@.map_values(|r: &Route| r@).subrange(0, n as int) =~= selected@.map_values(|r: &Route| r@));
        sitemap.routes = routes;
        sitemap
    }

    /// The sitemap as an XML document, one `<url>` element per route.
    pub fn to_xml(&self) -> (xml: String)
        ensures
            xml@ == sitemap_xml(self.base_url@, route_paths(routes_view(self.routes@)), self.last_modified@),
    {
        let mut xml = String::from_str(SITEMAP_HEADER);
        let base = trim_end_slashes(self.base_url.as_str());
        let ghost paths = route_paths(routes_view(self.routes@));
        let n = self.routes.len();
        let mut i: usize = 0;
        while i < n
            invariant
                n == self.routes@.len(),
                paths == route_paths(routes_view(self.routes@)),
                base@ == trim_end_char(self.base_url@, '/'),
                i <= n,
                xml@ == SITEMAP_HEADER@ + url_entries(self.base_url@, paths.subrange(0, i as int), self.last_modified@),
            decreases n - i,
        {
            let ghost before = xml@;
            xml.append(URL_OPEN);
            xml.append(base);
            xml.append(self.routes[i].path.as_str());
            xml.append(URL_LASTMOD);
            xml.append(self.last_modified.as_str());
            xml.append(URL_CLOSE);
            proof {
                let sub = paths.subrange(0, i + 1);
                assert(sub.drop_last() =~= paths.subrange(0, i as int));
                assert(sub.last() == self.routes@[i as int].path@);
                assert(xml@ =~= before + url_entry(self.base_url@, sub.last(), self.last_modified@));
            }
            i += 1;
        }
        xml.append(SITEMAP_FOOTER);
        assert(paths.subrange(0, n as int) =~= paths);
        xml
    }
}

/// Law: a route accepts its own pattern as a path.
pub proof fn law_route_matches_own_pattern(pattern: Seq<char>)
    ensures
        route_matches(pattern, pattern),
{
}

/// The binding of the parameter at segment `i` survives the later segments
/// whose parameter names differ from it.
pub proof fn lemma_params_from_at(rs: Seq<Seq<char>>, ps: Seq<Seq<char>>, k: int, i: int)
    requires
        0 <= i < k,
        k <= rs.len(),
        k <= ps.len(),
        is_param_segment(rs[i]),
        forall|j: int| i < j < k && is_param_segment(rs[j]) ==> rs[j].drop_first() != rs[i].drop_first(),
    ensures
        params_from(rs, ps, k).dom().contains(rs[i].drop_first()),
        params_from(rs, ps, k)[rs[i].drop_first()] == ps[i],
    decreases k,
{
    if k - 1 > i {
        lemma_params_from_at(rs, ps, k - 1, i);
    }
}

/// Law: when a pattern with parameters accepts a path, each parameter whose
/// name occurs once in the pattern is bound to the path segment in its
/// place.
pub proof fn law_params_bind_matching_segments(route: Seq<char>, path: Seq<char>, i: int)
    requires
        route.contains(':'),
        route_matches(route, path),
        0 <= i < split_chars(route, '/').len(),
        is_param_segment(split_chars(route, '/')[i]),
        forall|j: int| 0 <= j < split_chars(route, '/').len() && j != i && is_param_segment(split_chars(route, '/')[j])
            ==> split_chars(route, '/')[j].drop_first() != split_chars(route, '/')[i].drop_first(),
    ensures
        route_params(route, path).dom().contains(split_chars(route, '/')[i].drop_first()),
        route_params(route, path)[split_chars(route, '/')[i].drop_first()] == split_chars(path, '/')[i],
{
    let rs = split_chars(route, '/');
    let ps = split_chars(path, '/');
    lemma_params_from_at(rs, ps, rs.len() as int, i);
}

} // verus!
