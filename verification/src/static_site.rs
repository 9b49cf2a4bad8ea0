//! Static pages rendered from ECS data: where each route's page is written,
//! how query results fill a template, and the HTML page around it.

use vstd::prelude::*;
use vstd::string::*;
use crate::text::str_eq;

verus! {

/// Why a static site could not be generated.
#[derive(Debug)]
pub enum StaticGenerationError {
    IoError(std::io::Error),
    RouteError(String),
    AssetError(String),
}

// ---------------------------------------------------------------------------
// Text operations.

/// `s` without its leading occurrences of `c`.
pub open spec fn trim_start_char(s: Seq<char>, c: char) -> Seq<char>
    decreases s.len(),
{
    if s.len() > 0 && s[0] == c {
        trim_start_char(s.drop_first(), c)
    } else {
        s
    }
}

/// `s` with every `from` turned into `to`.
pub open spec fn replace_char(s: Seq<char>, from: char, to: char) -> Seq<char> {
    s.map_values(|c: char| if c == from { to } else { c })
}

/// `s` with every occurrence of the non-empty `pat` replaced by `rep`,
/// occurrences found from left to right without overlap, as `str::replace`
/// does.
pub open spec fn replace_all_spec(s: Seq<char>, pat: Seq<char>, rep: Seq<char>) -> Seq<char>
    decreases s.len(),
{
    if pat.len() == 0 || s.len() < pat.len() {
        s
    } else if s.subrange(0, pat.len() as int) == pat {
        rep + replace_all_spec(s.subrange(pat.len() as int, s.len() as int), pat, rep)
    } else {
        seq![s[0]] + replace_all_spec(s.drop_first(), pat, rep)
    }
}

/// The character of a decimal digit.
pub open spec fn digit_char(d: nat) -> char {
    if d == 0 { '0' }
    else if d == 1 { '1' }
    else if d == 2 { '2' }
    else if d == 3 { '3' }
    else if d == 4 { '4' }
    else if d == 5 { '5' }
    else if d == 6 { '6' }
    else if d == 7 { '7' }
    else if d == 8 { '8' }
    else { '9' }
}

/// The decimal digits of `n`, most significant first, as `to_string` writes
/// an unsigned integer.
pub open spec fn decimal(n: nat) -> Seq<char>
    decreases n,
{
    if n < 10 {
        seq![digit_char(n)]
    } else {
        decimal(n / 10).push(digit_char(n % 10))
    }
}

/// The one-character string of a decimal digit.
fn digit_str(d: usize) -> (s: &'static str)
    requires
        d < 10,
    ensures
        s@ == seq![digit_char(d as nat)],
{
    let digits = "0123456789";
    proof {
        reveal_strlit("0123456789");
    }
    let s = digits.substring_char(d, d + 1);
    assert(s@ =~= seq![digit_char(d as nat)]);
    s
}

/// `n` written in decimal.
pub fn decimal_string(n: usize) -> (s: String)
    ensures
        s@ == decimal(n as nat),
    decreases n,
{
    if n < 10 {
        String::from_str(digit_str(n))
    } else {
        let mut s = decimal_string(n / 10);
        s.append(digit_str(n % 10));
        s
    }
}

/// `s` with every occurrence of `pat` replaced by `rep`, as `str::replace`
/// does; `pat` must not be empty.
pub fn replace_all(s: &str, pat: &str, rep: &str) -> (r: String)
    requires
        pat@.len() > 0,
    ensures
        r@ == replace_all_spec(s@, pat@, rep@),
{
    let n = s.unicode_len();
    let m = pat.unicode_len();
    let mut out = String::new();
    let mut i: usize = 0;
    proof {
        assert(s@.subrange(0, n as int) =~= s@);
    }
    while i < n
        invariant
            n == s@.len(),
            m == pat@.len(),
            m > 0,
            i <= n,
            out@ + replace_all_spec(s@.subrange(i as int, n as int), pat@, rep@) == replace_all_spec(s@, pat@, rep@),
        decreases n - i,
    {
        let ghost rest = s@.subrange(i as int, n as int);
        if m <= n - i && str_eq(s.substring_char(i, i + m), pat) {
            proof {
                assert(rest.subrange(0, m as int) =~= s@.subrange(i as int, (i + m) as int));
                assert(rest.subrange(m as int, rest.len() as int) =~= s@.subrange((i + m) as int, n as int));
                assert(out@ + rep@ + replace_all_spec(s@.subrange((i + m) as int, n as int), pat@, rep@)
                    =~= out@ + replace_all_spec(rest, pat@, rep@));
            }
            out.append(rep);
            i = i + m;
        } else {
            let c = s.substring_char(i, i + 1);
            proof {
                if m <= n - i {
                    assert(rest.subrange(0, m as int) =~= s@.subrange(i as int, (i + m) as int));
                }
                assert(rest.drop_first() =~= s@.subrange((i + 1) as int, n as int));
                assert(c@ =~= seq![rest[0]]);
                assert(out@ + c@ + replace_all_spec(s@.subrange((i + 1) as int, n as int), pat@, rep@)
                    =~= out@ + replace_all_spec(rest, pat@, rep@));
            }
            out.append(c);
            i = i + 1;
        }
    }
    proof {
        assert(s@.subrange(n as int, n as int) =~= Seq::<char>::empty());
        assert(out@ + Seq::<char>::empty() =~= out@);
    }
    out
}

// ---------------------------------------------------------------------------
// Routes.

/// The file a route's page is written to: `index.html` for the root, else
/// the path without its leading slashes, each further slash turned into an
/// underscore, and `.html` after it.
pub open spec fn output_file_for(path: Seq<char>) -> Seq<char> {
    if path == seq!['/'] {
        seq!['i', 'n', 'd', 'e', 'x', '.', 'h', 't', 'm', 'l']
    } else {
        replace_char(trim_start_char(path, '/'), '/', '_') + seq!['.', 'h', 't', 'm', 'l']
    }
}

/// The page file name of a route path.
fn output_file_name(path: &str) -> (f: String)
    ensures
        f@ == output_file_for(path@),
{
    let n = path.unicode_len();
    proof {
        reveal_strlit("/");
        assert("/"@ =~= seq!['/']);
        assert(path@.subrange(0, n as int) =~= path@);
    }
    if str_eq(path, "/") {
        let f = String::from_str("index.html");
        proof {
            reveal_strlit("index.html");
            assert(f@ =~= seq!['i', 'n', 'd', 'e', 'x', '.', 'h', 't', 'm', 'l']);
        }
        return f;
    }
    let mut k: usize = 0;
    while k < n && path.get_char(k) == '/'
        invariant
            n == path@.len(),
            k <= n,
            trim_start_char(path@, '/') == trim_start_char(path@.subrange(k as int, n as int), '/'),
        decreases n - k,
    {
        proof {
            assert(path@.subrange(k as int, n as int).drop_first() =~= path@.subrange(k + 1, n as int));
        }
        k += 1;
    }
    let ghost trimmed = path@.subrange(k as int, n as int);
    proof {
        if k < n {
            assert(trimmed[0] != '/');
        }
        assert(trim_start_char(path@, '/') == trimmed);
    }
    let mut out = String::new();
    let mut i: usize = k;
    while i < n
        invariant
            n == path@.len(),
            k <= i <= n,
            trimmed == path@.subrange(k as int, n as int),
            out@ == replace_char(path@.subrange(k as int, i as int), '/', '_'),
        decreases n - i,
    {
        let c = path.get_char(i);
        if c == '/' {
            proof {
                reveal_strlit("_");
            }
            out.append("_");
        } else {
            out.append(path.substring_char(i, i + 1));
        }
        i += 1;
        proof {
            assert(out@ =~= replace_char(path@.subrange(k as int, i as int), '/', '_'));
        }
    }
    out.append(".html");
    proof {
        reveal_strlit(".html");
        assert(path@.subrange(k as int, n as int) =~= trimmed);
        assert(out@ =~= output_file_for(path@));
    }
    out
}

/// A page to generate: its route path, template, output file, and the ECS
/// queries whose results fill the template.
#[derive(Debug)]
pub struct RouteConfig {
    pub path: String,
    pub template: String,
    pub output_file: String,
    pub ecs_queries: Vec<String>,
}

impl RouteConfig {
    /// The page of `path` drawn from `template`, with no queries.
    pub fn new(path: &str, template: &str) -> (r: Self)
        ensures
            r.path@ == path@,
            r.template@ == template@,
            r.output_file@ == output_file_for(path@),
            r.ecs_queries@.len() == 0,
    {
        RouteConfig {
            path: String::from_str(path),
            template: String::from_str(template),
            output_file: output_file_name(path),
            ecs_queries: Vec::new(),
        }
    }

    /// The same page with `queries` as its queries.
    pub fn with_queries(self, queries: Vec<String>) -> (r: Self)
        ensures
            r.path == self.path,
            r.template == self.template,
            r.output_file == self.output_file,
            r.ecs_queries == queries,
    {
        RouteConfig { ecs_queries: queries, ..self }
    }
}

impl Clone for RouteConfig {
    fn clone(&self) -> (r: Self)
        ensures
            r.path@ == self.path@,
            r.template@ == self.template@,
            r.output_file@ == self.output_file@,
            r.ecs_queries@.len() == self.ecs_queries@.len(),
            forall|i: int| 0 <= i < r.ecs_queries@.len() ==> #[trigger] r.ecs_queries@[i]@ == self.ecs_queries@[i]@,
    {
        let mut queries: Vec<String> = Vec::new();
        let mut i: usize = 0;
        while i < self.ecs_queries.len()
            invariant
                i <= self.ecs_queries@.len(),
                queries@.len() == i,
                forall|j: int| 0 <= j < i ==> #[trigger] queries@[j]@ == self.ecs_queries@[j]@,
            decreases self.ecs_queries@.len() - i,
        {
            queries.push(self.ecs_queries[i].clone());
            i += 1;
        }
        RouteConfig {
            path: self.path.clone(),
            template: self.template.clone(),
            output_file: self.output_file.clone(),
            ecs_queries: queries,
        }
    }
}

// ---------------------------------------------------------------------------
// Templates and pages.

/// The placeholder that a query's result replaces: its name in double
/// braces.
pub open spec fn placeholder(name: Seq<char>) -> Seq<char> {
    seq!['{', '{'] + name + seq!['}', '}']
}

/// The placeholder of a query name.
pub fn placeholder_of(name: &str) -> (p: String)
    ensures
        p@ == placeholder(name@),
{
    let mut p = String::from_str("{{");
    p.append(name);
    p.append("}}");
    proof {
        reveal_strlit("{{");
        reveal_strlit("}}");
        assert(p@ =~= placeholder(name@));
    }
    p
}

/// `template` after each query's placeholder, in order, is replaced by that
/// query's result.
pub open spec fn fill_template(template: Seq<char>, names: Seq<Seq<char>>, values: Seq<Seq<char>>) -> Seq<char>
    decreases names.len(),
{
    if names.len() == 0 {
        template
    } else {
        replace_all_spec(
            fill_template(template, names.drop_last(), values.drop_last()),
            placeholder(names.last()),
            values[names.len() - 1],
        )
    }
}

/// The texts of a list of strings.
pub open spec fn string_texts(v: Seq<String>) -> Seq<Seq<char>> {
    v.map_values(|s: String| s@)
}

/// Fills `template` with the results of the route's queries, given in the
/// order of the queries: the first failed query's error, or the template
/// with each query's placeholder replaced by its result.
pub fn process_template(template: &str, queries: &Vec<String>, results: Vec<Result<String, StaticGenerationError>>)
    -> (r: Result<String, StaticGenerationError>)
    requires
        results@.len() == queries@.len(),
    ensures
        match r {
            Ok(text) => (forall|i: int| 0 <= i < results@.len() ==> #[trigger] results@[i] is Ok)
                && text@ == fill_template(template@, string_texts(queries@),
                    results@.map_values(|x: Result<String, StaticGenerationError>| x->Ok_0@)),
            Err(e) => exists|i: int| 0 <= i < results@.len() && #[trigger] results@[i] == Err::<String, StaticGenerationError>(e)
                && forall|j: int| 0 <= j < i ==> #[trigger] results@[j] is Ok,
        },
{
    let ghost all = results@;
    let ghost names = string_texts(queries@);
    let ghost values = all.map_values(|x: Result<String, StaticGenerationError>| x->Ok_0@);
    let mut processed = String::from_str(template);
    let mut i: usize = 0;
    let mut rest = results;
    proof {
        assert(names.subrange(0, 0) =~= Seq::<Seq<char>>::empty());
    }
    while i < queries.len()
        invariant
            all == results@,
            all.len() == queries@.len(),
            names == string_texts(queries@),
            values == all.map_values(|x: Result<String, StaticGenerationError>| x->Ok_0@),
            i <= queries@.len(),
            rest@ == all.subrange(i as int, all.len() as int),
            forall|j: int| 0 <= j < i ==> #[trigger] all[j] is Ok,
            processed@ == fill_template(template@, names.subrange(0, i as int), values.subrange(0, i as int)),
        decreases queries@.len() - i,
    {
        let next = rest.remove(0);
        proof {
            assert(rest@ =~= all.subrange(i + 1, all.len() as int));
        }
        match next {
            Ok(value) => {
                let pattern = placeholder_of(queries[i].as_str());
                proof {
                    assert(all[i as int] == Ok::<String, StaticGenerationError>(value));
                    assert(names.subrange(0, i + 1).drop_last() =~= names.subrange(0, i as int));
                    assert(values.subrange(0, i + 1).drop_last() =~= values.subrange(0, i as int));
                    assert(names.subrange(0, i + 1).last() == queries@[i as int]@);
                    assert(values.subrange(0, i + 1)[i as int] == value@);
                }
                processed = replace_all(processed.as_str(), pattern.as_str(), value.as_str());
                i += 1;
            },
            Err(e) => {
                proof {
                    assert(all[i as int] == Err::<String, StaticGenerationError>(e));
                    assert(results@[i as int] == Err::<String, StaticGenerationError>(e));
                    assert forall|j: int| 0 <= j < i implies #[trigger] results@[j] is Ok by {
                        assert(all[j] is Ok);
                    }
                }
                return Err(e);
            },
        }
    }
    proof {
        assert(names.subrange(0, i as int) =~= names);
        assert(values.subrange(0, i as int) =~= values);
    }
    Ok(processed)
}

/// Whether `r` is what the query `name` yields on a page when counting the
/// entities gives `entity_count`.
pub open spec fn query_outcome(r: Result<String, StaticGenerationError>, name: Seq<char>, entity_count: Result<usize, String>) -> bool {
    &&& name == "entity_count"@ ==> match entity_count {
        Ok(n) => (r matches Ok(t) && t@ == decimal(n as nat)),
        Err(msg) => (r matches Err(StaticGenerationError::RouteError(t)) && t@ == "Query failed: "@ + msg@),
    }
    &&& name != "entity_count"@ ==> (r matches Ok(t) && t@ == "Unknown query: "@ + name)
}

/// Whether some query of the list asks for the entity count, so that the
/// entities must be counted.
pub fn needs_entity_count(queries: &Vec<String>) -> (b: bool)
    ensures
        b == exists|i: int| 0 <= i < queries@.len() && #[trigger] queries@[i]@ == "entity_count"@,
{
    let mut i: usize = 0;
    while i < queries.len()
        invariant
            i <= queries@.len(),
            forall|j: int| 0 <= j < i ==> #[trigger] queries@[j]@ != "entity_count"@,
        decreases queries@.len() - i,
    {
        if str_eq(queries[i].as_str(), "entity_count") {
            return true;
        }
        i += 1;
    }
    false
}

/// The results of a route's queries, in order, given what counting the
/// entities gave.
pub fn query_results(queries: &Vec<String>, entity_count: &Result<usize, String>) -> (v: Vec<Result<String, StaticGenerationError>>)
    ensures
        v@.len() == queries@.len(),
        forall|i: int| 0 <= i < v@.len() ==> #[trigger] query_outcome(v@[i], queries@[i]@, *entity_count),
{
    let mut v: Vec<Result<String, StaticGenerationError>> = Vec::new();
    let mut i: usize = 0;
    while i < queries.len()
        invariant
            i <= queries@.len(),
            v@.len() == i,
            forall|j: int| 0 <= j < i ==> #[trigger] query_outcome(v@[j], queries@[j]@, *entity_count),
        decreases queries@.len() - i,
    {
        let count = match entity_count {
            Ok(n) => Ok(*n),
            Err(m) => Err(m.clone()),
        };
        proof {
            assert(match count { Ok(n) => entity_count matches Ok(k) && n == k,
                Err(m) => entity_count matches Err(e) && m@ == e@ });
        }
        let r = ecs_query_result(queries[i].as_str(), count);
        v.push(r);
        i += 1;
    }
    v
}

/// What an ECS query yields on a page: the entity count for
/// `entity_count` (or the failure of counting), and a note naming any other
/// query.
pub fn ecs_query_result(query_name: &str, entity_count: Result<usize, String>) -> (r: Result<String, StaticGenerationError>)
    ensures
        query_outcome(r, query_name@, entity_count),
{
    if str_eq(query_name, "entity_count") {
        match entity_count {
            Ok(n) => Ok(decimal_string(n)),
            Err(msg) => {
                let mut t = String::from_str("Query failed: ");
                t.append(msg.as_str());
                Err(StaticGenerationError::RouteError(t))
            },
        }
    } else {
        let mut t = String::from_str("Unknown query: ");
        t.append(query_name);
        Ok(t)
    }
}

/// The HTML that comes before a page's body.
pub const PAGE_HEAD: &'static str = "<!DOCTYPE html>\n<html lang=\"en\">\n<head>\n    <meta charset=\"UTF-8\">\n    <meta name=\"viewport\" content=\"width=device-width, initial-scale=1.0\">\n    <title>Generated Page</title>\n    <style>\n        body { font-family: system-ui, sans-serif; margin: 0; padding: 20px; }\n        .container { max-width: 1200px; margin: 0 auto; }\n    </style>\n</head>\n<body>\n    <div class=\"container\">\n        ";

/// The HTML that comes after a page's body.
pub const PAGE_TAIL: &'static str = "\n    </div>\n</body>\n</html>";

/// The full HTML page around `body`.
pub fn render_page(body: &str) -> (page: String)
    ensures
        page@ == PAGE_HEAD@ + body@ + PAGE_TAIL@,
{
    let mut page = String::from_str(PAGE_HEAD);
    page.append(body);
    page.append(PAGE_TAIL);
    page
}

/// The page of `route`, given the results of its queries in order: the
/// first failed query's error, or the filled template inside the page.
pub fn render_route_html(route: &RouteConfig, results: Vec<Result<String, StaticGenerationError>>)
    -> (r: Result<String, StaticGenerationError>)
    requires
        results@.len() == route.ecs_queries@.len(),
    ensures
        match r {
            Ok(page) => (forall|i: int| 0 <= i < results@.len() ==> #[trigger] results@[i] is Ok)
                && page@ == PAGE_HEAD@ + fill_template(route.template@, string_texts(route.ecs_queries@),
                    results@.map_values(|x: Result<String, StaticGenerationError>| x->Ok_0@)) + PAGE_TAIL@,
            Err(e) => exists|i: int| 0 <= i < results@.len() && #[trigger] results@[i] == Err::<String, StaticGenerationError>(e)
                && forall|j: int| 0 <= j < i ==> #[trigger] results@[j] is Ok,
        },
{
    match process_template(route.template.as_str(), &route.ecs_queries, results) {
        Ok(body) => Ok(render_page(body.as_str())),
        Err(e) => Err(e),
    }
}

/// Law: replacing a pattern that does not occur leaves the text as it was.
pub proof fn law_replace_without_occurrence(s: Seq<char>, pat: Seq<char>, rep: Seq<char>)
    requires
        pat.len() > 0,
        forall|i: int| 0 <= i && i + pat.len() <= s.len() ==> #[trigger] s.subrange(i, i + pat.len()) != pat,
    ensures
        replace_all_spec(s, pat, rep) == s,
    decreases s.len(),
{
    if s.len() >= pat.len() {
        let z: int = 0;
        assert(s.subrange(z, z + pat.len()) != pat);
        assert(s.subrange(z, z + pat.len()) == s.subrange(0, pat.len() as int));
        let t = s.drop_first();
        assert forall|i: int| 0 <= i && i + pat.len() <= t.len() implies #[trigger] t.subrange(i, i + pat.len()) != pat by {
            assert(t.subrange(i, i + pat.len()) =~= s.subrange(i + 1, i + 1 + pat.len()));
        }
        law_replace_without_occurrence(t, pat, rep);
        assert(seq![s[0]] + t =~= s);
    }
}

/// Law: every page is written to an `.html` file.
pub proof fn law_output_file_is_html(path: Seq<char>)
    ensures
        output_file_for(path).len() >= 5,
        output_file_for(path).subrange(output_file_for(path).len() - 5, output_file_for(path).len() as int)
            == seq!['.', 'h', 't', 'm', 'l'],
{
    let f = output_file_for(path);
    if path == seq!['/'] {
        assert(f.subrange(5, 10) =~= seq!['.', 'h', 't', 'm', 'l']);
    } else {
        assert(f.subrange(f.len() - 5, f.len() as int) =~= seq!['.', 'h', 't', 'm', 'l']);
    }
}

/// Law: a template with no queries is the page body as written.
pub proof fn law_template_without_queries(template: Seq<char>)
    ensures
        fill_template(template, Seq::empty(), Seq::empty()) == template,
{
}

} // verus!
