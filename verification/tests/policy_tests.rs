use forward_auth::policy::is_route_allowed_impl;
use forward_auth::rules::{sort_rules_desc, AccessRules};

fn rules_from_toml(config_str: &str) -> AccessRules {
    let table: toml::Table = toml::from_str(config_str).unwrap();
    let access = table["access_rules"].as_table().unwrap();
    let mut pairs: Vec<(String, Vec<String>)> = Vec::new();
    for (key, value) in access.iter() {
        let users: Vec<String> = value
            .as_array()
            .unwrap()
            .iter()
            .map(|v| v.as_str().unwrap().to_string())
            .collect();
        pairs.push((key.clone(), users));
    }
    AccessRules::from_pairs(&pairs)
}

#[test]
fn test_access_rules_deserializer() {
    // Intentionally put paths in mixed order to test sorting
    let config_str = r#"
        [access_rules]
        "/" = ["*"]
        "/action_dashboard/cmd/router_poweroff" = ["admin"]
        "/static/css/" = ["*"]
        "vaultwarden@/" = ["*"]
        "vaultwarden@/admin" = ["desktop"]
        "forgejo@/" = ["desktop", "laptop"]
        "incus@/" = ["desktop"]
        "/api/v1/users" = ["admin", "manager"]
        "/api" = ["*"]
        "#;

    let config = rules_from_toml(config_str);

    // Check the empty subdomain (global routes)
    let empty_subdomain = config.subdomain_rules("").unwrap();
    assert_eq!(empty_subdomain.len(), 5);

    // Verify routes are sorted by length in descending order
    for i in 0..empty_subdomain.len() - 1 {
        assert!(
            empty_subdomain[i].0.len() >= empty_subdomain[i + 1].0.len(),
            "Routes should be sorted by length in descending order: '{}' should come before '{}'",
            empty_subdomain[i].0,
            empty_subdomain[i + 1].0
        );
    }

    // Check specific routes in the expected order
    assert_eq!(
        empty_subdomain[0].0,
        "/action_dashboard/cmd/router_poweroff"
    );
    assert_eq!(empty_subdomain[0].1, vec!["admin"]);

    assert_eq!(empty_subdomain[1].0, "/api/v1/users");
    assert_eq!(empty_subdomain[1].1, vec!["admin", "manager"]);

    assert_eq!(empty_subdomain[2].0, "/static/css/");
    assert_eq!(empty_subdomain[2].1, vec!["*"]);

    assert_eq!(empty_subdomain[3].0, "/api");
    assert_eq!(empty_subdomain[3].1, vec!["*"]);

    assert_eq!(empty_subdomain[4].0, "/");
    assert_eq!(empty_subdomain[4].1, vec!["*"]);

    // Check the "incus" subdomain
    let incus = config.subdomain_rules("incus").unwrap();
    assert_eq!(incus.len(), 1);
    assert_eq!(incus[0].0, "/");
    assert_eq!(incus[0].1, vec!["desktop"]);

    // Check the "forgejo" subdomain
    let forgejo = config.subdomain_rules("forgejo").unwrap();
    assert_eq!(forgejo.len(), 1);
    assert_eq!(forgejo[0].0, "/");
    assert_eq!(forgejo[0].1, vec!["desktop", "laptop"]);

    // Check the "vaultwarden" subdomain
    let vaultwarden = config.subdomain_rules("vaultwarden").unwrap();
    assert_eq!(vaultwarden.len(), 2);

    // Verify vaultwarden routes are sorted by length in descending order
    assert!(
        vaultwarden[0].0.len() >= vaultwarden[1].0.len(),
        "Vaultwarden routes should be sorted by length in descending order"
    );

    assert_eq!(vaultwarden[0].0, "/admin");
    assert_eq!(vaultwarden[0].1, vec!["desktop"]);
    assert_eq!(vaultwarden[1].0, "/");
    assert_eq!(vaultwarden[1].1, vec!["*"]);
}

#[test]
fn test_is_route_allowed_direct() {
    // Create a vector of (route, allowed_users) pairs
    // Routes are sorted by length in descending order as the loader would do
    let allowed_routes = vec![
        (
            "/action_dashboard/cmd/router_poweroff".to_string(),
            vec!["admin".to_string()],
        ),
        ("/static/css/".to_string(), vec!["*".to_string()]),
        ("/".to_string(), vec!["*".to_string()]),
    ];

    // Test routes with wildcard access
    assert!(is_route_allowed_impl("/", None, &allowed_routes));
    assert!(is_route_allowed_impl(
        "/",
        Some("any_user"),
        &allowed_routes
    ));
    assert!(is_route_allowed_impl(
        "/static/css/style.css",
        None,
        &allowed_routes
    ));

    // Test route with specific user access
    assert!(!is_route_allowed_impl(
        "/action_dashboard/cmd/router_poweroff",
        None,
        &allowed_routes
    ));
    assert!(!is_route_allowed_impl(
        "/action_dashboard/cmd/router_poweroff",
        Some("user"),
        &allowed_routes
    ));
    assert!(is_route_allowed_impl(
        "/action_dashboard/cmd/router_poweroff",
        Some("admin"),
        &allowed_routes
    ));

    // Test path matching with trailing slash
    let allowed_routes_with_slash = vec![
        ("/protected/area/".to_string(), vec!["admin".to_string()]),
        ("/public/".to_string(), vec!["*".to_string()]),
    ];

    assert!(is_route_allowed_impl(
        "/public/file.txt",
        None,
        &allowed_routes_with_slash
    ));
    assert!(!is_route_allowed_impl(
        "/protected/area/secret.txt",
        None,
        &allowed_routes_with_slash
    ));
    assert!(is_route_allowed_impl(
        "/protected/area/secret.txt",
        Some("admin"),
        &allowed_routes_with_slash
    ));

    // Test wildcard path matching
    let allowed_routes_with_wildcard = vec![
        ("/api/admin*".to_string(), vec!["admin".to_string()]),
        ("/api/public*".to_string(), vec!["*".to_string()]),
    ];

    assert!(is_route_allowed_impl(
        "/api/public/endpoint",
        None,
        &allowed_routes_with_wildcard
    ));
    assert!(!is_route_allowed_impl(
        "/api/admin/users",
        None,
        &allowed_routes_with_wildcard
    ));
    assert!(is_route_allowed_impl(
        "/api/admin/users",
        Some("admin"),
        &allowed_routes_with_wildcard
    ));

    // Test multiple allowed users
    let allowed_routes_multiple_users = vec![(
        "/dashboard".to_string(),
        vec!["admin".to_string(), "manager".to_string()],
    )];

    assert!(!is_route_allowed_impl(
        "/dashboard",
        None,
        &allowed_routes_multiple_users
    ));
    assert!(is_route_allowed_impl(
        "/dashboard",
        Some("admin"),
        &allowed_routes_multiple_users
    ));
    assert!(is_route_allowed_impl(
        "/dashboard",
        Some("manager"),
        &allowed_routes_multiple_users
    ));
    assert!(!is_route_allowed_impl(
        "/dashboard",
        Some("user"),
        &allowed_routes_multiple_users
    ));
}

fn create_test_routes() -> Vec<(String, Vec<String>)> {
    let routes = vec![
        ("/".to_string(), vec!["*".to_string()]),
        ("/admin".to_string(), vec!["admin".to_string()]),
        (
            "/users/".to_string(),
            vec!["user1".to_string(), "user2".to_string()],
        ),
        ("/users/user2/".to_string(), vec!["user2".to_string()]),
        ("/public".to_string(), vec!["*".to_string()]),
        ("/api/v1/".to_string(), vec!["api_user".to_string()]),
        ("/api/v1/admin/".to_string(), vec!["admin".to_string()]),
        (
            "/api/v2/".to_string(),
            vec!["api_user".to_string(), "admin".to_string()],
        ),
    ];
    sort_rules_desc(routes)
}

#[test]
fn test_root_access() {
    let routes = create_test_routes();
    assert!(is_route_allowed_impl("/", Some("any_user"), &routes));
    assert!(is_route_allowed_impl("/", None, &routes));
}

#[test]
fn test_exact_match() {
    let routes = create_test_routes();
    assert!(is_route_allowed_impl("/admin", Some("admin"), &routes));
    assert!(!is_route_allowed_impl("/admin", Some("user1"), &routes));
    assert!(!is_route_allowed_impl("/admin", None, &routes));
}

#[test]
fn test_parent_path_with_slash() {
    let routes = create_test_routes();
    assert!(is_route_allowed_impl(
        "/users/profile",
        Some("user1"),
        &routes
    ));
    assert!(is_route_allowed_impl(
        "/users/settings",
        Some("user2"),
        &routes
    ));
    assert!(!is_route_allowed_impl(
        "/users/profile",
        Some("guest"),
        &routes
    ));
    assert!(!is_route_allowed_impl("/users/profile", None, &routes));
}

#[test]
fn test_nested_routes() {
    let routes = create_test_routes();
    assert!(is_route_allowed_impl(
        "/users/user2/page",
        Some("user2"),
        &routes
    ));
    assert!(!is_route_allowed_impl(
        "/users/user2/page",
        Some("user1"),
        &routes
    ));
    assert!(is_route_allowed_impl(
        "/users/normal/page",
        Some("user1"),
        &routes
    ));
}

#[test]
fn test_api_routes() {
    let routes = create_test_routes();
    assert!(is_route_allowed_impl(
        "/api/v1/users",
        Some("api_user"),
        &routes
    ));
    assert!(is_route_allowed_impl(
        "/api/v1/admin/users",
        Some("admin"),
        &routes
    ));
    assert!(!is_route_allowed_impl(
        "/api/v1/admin/users",
        Some("api_user"),
        &routes
    ));
    assert!(is_route_allowed_impl(
        "/api/v2/users",
        Some("api_user"),
        &routes
    ));
    assert!(is_route_allowed_impl(
        "/api/v2/admin",
        Some("admin"),
        &routes
    ));
}

#[test]
fn test_public_path() {
    let routes = create_test_routes();
    assert!(is_route_allowed_impl(
        "/public/page",
        Some("any_user"),
        &routes
    ));
    assert!(is_route_allowed_impl("/public/page", None, &routes));
}

#[test]
fn test_non_existent_path_with_global_allowed() {
    let routes = create_test_routes();
    assert!(is_route_allowed_impl(
        "/non_existent",
        Some("any_user"),
        &routes
    ));
    assert!(is_route_allowed_impl("/non_existent", None, &routes));
}

#[test]
fn test_non_existent_path_with_global_restricted() {
    let routes = sort_rules_desc(vec![("/".to_string(), vec!["".to_string()])]);
    assert!(!is_route_allowed_impl(
        "/non_existent",
        Some("any_user"),
        &routes
    ));
    assert!(!is_route_allowed_impl("/non_existent", None, &routes));
}

#[test]
fn test_path_order_precedence() {
    let routes = create_test_routes();
    assert!(is_route_allowed_impl(
        "/users/user2/page",
        Some("user2"),
        &routes
    ));
    assert!(!is_route_allowed_impl(
        "/users/user2/page",
        Some("user1"),
        &routes
    ));
    assert!(is_route_allowed_impl(
        "/users/normal/page",
        Some("user1"),
        &routes
    ));
    assert!(is_route_allowed_impl(
        "/users/normal/page",
        Some("user2"),
        &routes
    ));
}
