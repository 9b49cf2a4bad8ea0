use blitz_integration::static_site::{
    decimal_string, ecs_query_result, needs_entity_count, placeholder_of, query_results, process_template, render_page, render_route_html,
    replace_all, RouteConfig, StaticGenerationError, PAGE_HEAD, PAGE_TAIL,
};

#[test]
fn test_route_config_creation() {
    let route = RouteConfig::new("/about", "about_template");
    assert_eq!(route.path, "/about");
    assert_eq!(route.template, "about_template");
    assert_eq!(route.output_file, "about.html");
}

#[test]
fn test_route_config_root_path() {
    let route = RouteConfig::new("/", "home_template");
    assert_eq!(route.output_file, "index.html");
}

#[test]
fn nested_route_file_name_uses_underscores() {
    let route = RouteConfig::new("/blog/posts/first", "t");
    assert_eq!(route.output_file, "blog_posts_first.html");
    let route = RouteConfig::new("//docs", "t");
    assert_eq!(route.output_file, "docs.html");
    let route = RouteConfig::new("", "t");
    assert_eq!(route.output_file, ".html");
}

#[test]
fn with_queries_keeps_the_rest() {
    let route = RouteConfig::new("/test", "x").with_queries(vec!["entity_count".to_string()]);
    assert_eq!(route.ecs_queries, vec!["entity_count".to_string()]);
    assert_eq!(route.output_file, "test.html");
    let copy = route.clone();
    assert_eq!(copy.ecs_queries, route.ecs_queries);
    assert_eq!(copy.path, route.path);
}

#[test]
fn replace_all_matches_std() {
    for (s, p, r) in [
        ("aaaa", "aa", "b"),
        ("abcabc", "bc", "XY"),
        ("hello", "z", "q"),
        ("{{n}} and {{n}}", "{{n}}", "7"),
        ("aaa", "aa", "a"),
        ("", "x", "y"),
    ] {
        assert_eq!(replace_all(s, p, r), s.replace(p, r));
    }
}

#[test]
fn decimal_strings() {
    for n in [0usize, 7, 10, 42, 1000, 987654321, usize::MAX] {
        assert_eq!(decimal_string(n), n.to_string());
    }
}

#[test]
fn placeholder_has_double_braces() {
    assert_eq!(placeholder_of("entity_count"), "{{entity_count}}");
}

#[test]
fn entity_count_query_is_written_in_decimal() {
    match ecs_query_result("entity_count", Ok(2)) {
        Ok(t) => assert_eq!(t, "2"),
        Err(_) => panic!("count failed"),
    }
    match ecs_query_result("entity_count", Err("no world".to_string())) {
        Err(StaticGenerationError::RouteError(t)) => assert_eq!(t, "Query failed: no world"),
        _ => panic!("expected a route error"),
    }
    match ecs_query_result("players", Ok(2)) {
        Ok(t) => assert_eq!(t, "Unknown query: players"),
        Err(_) => panic!("unknown queries do not fail"),
    }
}

#[test]
fn template_is_filled_in_query_order() {
    let queries = vec!["a".to_string(), "b".to_string()];
    let results = vec![Ok("1".to_string()), Ok("{{a}}".to_string())];
    match process_template("{{a}}-{{b}}-{{a}}", &queries, results) {
        Ok(t) => assert_eq!(t, "1-{{a}}-1"),
        Err(_) => panic!("no query failed"),
    }
}

#[test]
fn first_failed_query_ends_the_page() {
    let queries = vec!["a".to_string(), "b".to_string(), "c".to_string()];
    let results = vec![
        Ok("1".to_string()),
        Err(StaticGenerationError::RouteError("first".to_string())),
        Err(StaticGenerationError::AssetError("second".to_string())),
    ];
    match process_template("{{a}}", &queries, results) {
        Err(StaticGenerationError::RouteError(t)) => assert_eq!(t, "first"),
        _ => panic!("expected the first error"),
    }
}

#[test]
fn page_wraps_the_body() {
    let page = render_page("<p>x</p>");
    assert!(page.starts_with("<!DOCTYPE html>"));
    assert!(page.contains("<title>Generated Page</title>"));
    assert!(page.contains("body { font-family: system-ui, sans-serif; margin: 0; padding: 20px; }"));
    assert!(page.ends_with("</html>"));
    assert_eq!(page, format!("{}<p>x</p>{}", PAGE_HEAD, PAGE_TAIL));
}

#[test]
fn route_page_holds_the_entity_count() {
    let route = RouteConfig::new("/test", "<h1>Test Page</h1><p>Entities: {{entity_count}}</p>")
        .with_queries(vec!["entity_count".to_string()]);
    let results = vec![ecs_query_result("entity_count", Ok(2))];
    match render_route_html(&route, results) {
        Ok(page) => {
            assert!(page.contains("Test Page"));
            assert!(page.contains("Entities: 2"));
        },
        Err(_) => panic!("page failed"),
    }
}

#[test]
fn template_without_queries_is_unchanged() {
    match process_template("<p>{{x}}</p>", &Vec::new(), Vec::new()) {
        Ok(t) => assert_eq!(t, "<p>{{x}}</p>"),
        Err(_) => panic!("nothing can fail"),
    }
}

#[test]
fn query_dispatch_counts_only_when_asked() {
    let qs = vec!["entity_count".to_string(), "other".to_string()];
    assert!(needs_entity_count(&qs));
    assert!(!needs_entity_count(&vec!["other".to_string()]));
    let rs = query_results(&qs, &Ok(3));
    assert_eq!(rs.len(), 2);
    assert!(matches!(&rs[0], Ok(t) if t == "3"));
    assert!(matches!(&rs[1], Ok(t) if t == "Unknown query: other"));
    let failed = query_results(&qs, &Err("boom".to_string()));
    assert!(matches!(&failed[0], Err(StaticGenerationError::RouteError(t)) if t == "Query failed: boom"));
}
