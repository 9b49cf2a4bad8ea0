use blitz_integration::routing::{Route, Router, RoutingError, SiteMap};

#[test]
fn test_route_creation() {
    let route = Route::new("/about", "AboutPage")
        .with_title("About Us")
        .with_meta("description", "About our company")
        .with_ecs_dependency("UserResource");

    assert_eq!(route.path, "/about");
    assert_eq!(route.component, "AboutPage");
    assert_eq!(route.title, Some("About Us".to_string()));
    assert_eq!(route.meta.get("description"), Some(&"About our company".to_string()));
    assert_eq!(route.ecs_dependencies, vec!["UserResource"]);
}

#[test]
fn test_static_route_matching() {
    let route = Route::new("/about", "AboutPage");
    assert!(route.matches("/about"));
    assert!(!route.matches("/contact"));
}

#[test]
fn test_dynamic_route_matching() {
    let route = Route::new("/user/:id", "UserPage");
    assert!(route.matches("/user/123"));
    assert!(route.matches("/user/abc"));
    assert!(!route.matches("/user/123/profile"));
    assert!(!route.matches("/admin/123"));
}

#[test]
fn test_param_extraction() {
    let route = Route::new("/user/:id/post/:slug", "PostPage");
    let params = route.extract_params("/user/123/post/hello-world");

    assert_eq!(params.get("id"), Some(&"123".to_string()));
    assert_eq!(params.get("slug"), Some(&"hello-world".to_string()));
}

#[test]
fn test_router_resolution() {
    let router = Router::new()
        .add_route(Route::new("/", "HomePage"))
        .add_route(Route::new("/about", "AboutPage"))
        .add_route(Route::new("/user/:id", "UserPage"))
        .with_fallback(Route::new("/404", "NotFoundPage"));

    assert_eq!(router.resolve("/").unwrap().component, "HomePage");
    assert_eq!(router.resolve("/about").unwrap().component, "AboutPage");
    assert_eq!(router.resolve("/user/123").unwrap().component, "UserPage");
    assert_eq!(router.resolve("/nonexistent").unwrap().component, "NotFoundPage");
}

#[test]
fn test_static_routes_filtering() {
    let router = Router::new()
        .add_route(Route::new("/", "HomePage"))
        .add_route(Route::new("/about", "AboutPage"))
        .add_route(Route::new("/user/:id", "UserPage"));

    let static_routes = router.get_static_routes();
    assert_eq!(static_routes.len(), 2);
    assert!(static_routes.iter().any(|r| r.path == "/"));
    assert!(static_routes.iter().any(|r| r.path == "/about"));
    assert!(!static_routes.iter().any(|r| r.path == "/user/:id"));
}

#[test]
fn test_sitemap_generation() {
    let router = Router::new()
        .add_route(Route::new("/", "HomePage"))
        .add_route(Route::new("/about", "AboutPage"));

    let sitemap = SiteMap::from_router(&router, "https://example.com", "2024-01-01T00:00:00+00:00");
    let xml = sitemap.to_xml();

    assert!(xml.contains("https://example.com/"));
    assert!(xml.contains("https://example.com/about"));
    assert!(xml.contains("<?xml version=\"1.0\" encoding=\"UTF-8\"?>"));
}

#[test]
fn resolve_without_fallback_names_the_path() {
    let router = Router::new().add_route(Route::new("/about", "AboutPage"));
    match router.resolve("/missing") {
        Err(RoutingError::RouteNotFound(p)) => assert_eq!(p, "/missing"),
        other => panic!("unexpected result: {:?}", other),
    }
}

#[test]
fn resolve_prefers_the_first_matching_route() {
    let router = Router::new()
        .add_route(Route::new("/user/:id", "First"))
        .add_route(Route::new("/user/:name", "Second"));
    assert_eq!(router.resolve("/user/7").unwrap().component, "First");
}

#[test]
fn params_of_a_static_route_are_empty() {
    let route = Route::new("/about", "AboutPage");
    let params = route.extract_params("/about");
    assert_eq!(params.len(), 0);
    assert_eq!(params.get("about"), None);
}

#[test]
fn params_pair_segments_up_to_the_shorter_path() {
    let route = Route::new("/a/:x/:y", "P");
    let params = route.extract_params("/a/1");
    assert_eq!(params.get("x"), Some(&"1".to_string()));
    assert_eq!(params.get("y"), None);
}

#[test]
fn a_repeated_parameter_keeps_the_later_value() {
    let route = Route::new("/:id/:id", "P");
    let params = route.extract_params("/1/2");
    assert_eq!(params.get("id"), Some(&"2".to_string()));
    assert_eq!(params.len(), 1);
}

#[test]
fn empty_segments_must_match_exactly() {
    let route = Route::new("/user/:id/", "P");
    assert!(route.matches("/user/5/"));
    assert!(!route.matches("/user/5"));
    assert!(route.matches("/user//"));
}

#[test]
fn sitemap_xml_is_exact() {
    let router = Router::new()
        .add_route(Route::new("/", "Home"))
        .add_route(Route::new("/x/:id", "X"))
        .add_route(Route::new("/about", "About"));
    let sitemap = SiteMap::from_router(&router, "https://example.com//", "T");
    let expected = "<?xml version=\"1.0\" encoding=\"UTF-8\"?>\n<urlset xmlns=\"http://www.sitemaps.org/schemas/sitemap/0.9\">\n  <url>\n    <loc>https://example.com/</loc>\n    <lastmod>T</lastmod>\n    <changefreq>weekly</changefreq>\n    <priority>0.8</priority>\n  </url>\n  <url>\n    <loc>https://example.com/about</loc>\n    <lastmod>T</lastmod>\n    <changefreq>weekly</changefreq>\n    <priority>0.8</priority>\n  </url>\n</urlset>\n";
    assert_eq!(sitemap.to_xml(), expected);
    assert_eq!(sitemap.routes.len(), 2);
}

#[test]
fn route_list_holds_static_paths() {
    let router = Router::new()
        .add_route(Route::new("/", "Home"))
        .add_route(Route::new("/p/:id", "P"))
        .add_route(Route::new("/contact", "C"));
    assert_eq!(router.generate_route_list(), vec!["/".to_string(), "/contact".to_string()]);
    assert_eq!(router.get_all_routes().len(), 3);
}

#[test]
fn meta_insert_replaces_value() {
    let route = Route::new("/", "Home").with_meta("k", "a").with_meta("k", "b").with_meta("j", "c");
    assert_eq!(route.meta.get("k"), Some(&"b".to_string()));
    assert_eq!(route.meta.get("j"), Some(&"c".to_string()));
    assert_eq!(route.meta.len(), 2);
}

#[test]
fn a_route_accepts_its_own_pattern() {
    for p in ["/", "/about", "/user/:id", "/user/:id/post/:slug", ""] {
        assert!(Route::new(p, "Page").matches(p));
    }
}
