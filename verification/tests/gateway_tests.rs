use forward_auth::admin::{AdminCommands, AdminConsole, Command};
use forward_auth::config::{AppConfig, GatewayState, LogLevel};
use forward_auth::credentials::UsersConfig;
use forward_auth::errors::AppError;
use forward_auth::orchestrator::{
    check_request, identify_user_with_cookie, login_decision, CheckDecision, LoginOutcome,
};
use forward_auth::rate_limiter::{rate_decision, RateLimiter};
use forward_auth::redirect::{RedirectState, RedirectTarget};
use forward_auth::rules::AccessRules;
use forward_auth::text::{html_escape, valid};
use forward_auth::urls::{
    create_subdomain_url, extract_path_from_url, extract_subdomain_from_host,
    extract_subdomain_from_url,
};

fn rules(pairs: &[(&str, &[&str])]) -> AccessRules {
    let raw: Vec<(String, Vec<String>)> = pairs
        .iter()
        .map(|(k, users)| {
            (
                k.to_string(),
                users.iter().map(|u| u.to_string()).collect(),
            )
        })
        .collect();
    AccessRules::from_pairs(&raw)
}

fn test_config(pairs: &[(&str, &[&str])]) -> AppConfig {
    AppConfig {
        server_address: "127.0.0.1".to_string(),
        server_port: 8080,
        static_folder: "static".to_string(),
        log_level: LogLevel::Info,
        cookie_domain: "nginx.lan".to_string(),
        users_file: "users.toml".to_string(),
        secure_cookies: true,
        cookie_duration: 24,
        access_rules: rules(pairs),
        external_links: Vec::new(),
    }
}

#[test]
fn evaluate_exact_rule_beats_root_wildcard() {
    let table = rules(&[("/", &["*"]), ("/admin", &["alice"])]);
    assert!(!table.evaluate(None, "/admin", Some("bob")));
    assert!(table.evaluate(None, "/admin", Some("alice")));
    assert!(table.evaluate(None, "/other", None));
}

#[test]
fn evaluate_specific_prefix_beats_broader_prefix() {
    let table = rules(&[("/users/", &["alice", "bob"]), ("/users/bob/", &["bob"])]);
    assert!(!table.evaluate(None, "/users/bob/page", Some("alice")));
    assert!(table.evaluate(None, "/users/carol/page", Some("alice")));
}

#[test]
fn evaluate_unknown_subdomain_denies() {
    let table = rules(&[("/", &["*"])]);
    assert!(table.evaluate(None, "/x", Some("alice")));
    assert!(!table.evaluate(Some("files"), "/x", Some("alice")));
}

#[test]
fn evaluate_empty_table_fails_closed() {
    // The root pattern must be granted explicitly; an empty table denies all.
    let table = AccessRules::new_empty();
    assert!(!table.evaluate(None, "/", None));
    assert!(!table.evaluate(None, "/", Some("alice")));
    assert!(!table.evaluate(Some("files"), "/x", Some("alice")));
}

#[test]
fn evaluate_trims_every_trailing_star() {
    let table = rules(&[("/api**", &["*"])]);
    assert!(table.evaluate(None, "/api/v1", None));
    assert!(!table.evaluate(None, "/www", None));
}

#[test]
fn credentials_verify_and_round_trip() {
    let mut users = UsersConfig::new();
    users
        .add_or_update_user("alice".to_string(), "open sesame")
        .unwrap();
    assert!(users.contains_user("alice"));
    assert!(users.verify_password("alice", "open sesame"));
    assert!(!users.verify_password("alice", "open says me"));
    assert!(!users.verify_password("nobody", "open sesame"));

    let token = users.get_public_hash("alice").unwrap().clone();
    assert_eq!(
        users.get_username_from_public_hash(&token).unwrap(),
        "alice"
    );
    assert!(users.get_username_from_public_hash("garbled").is_none());
    assert!(users.get_username_from_public_hash("").is_none());
}

#[test]
fn credentials_delete_removes_both_mappings() {
    let mut users = UsersConfig::new();
    users
        .add_or_update_user("alice".to_string(), "pw-one")
        .unwrap();
    let token = users.get_public_hash("alice").unwrap().clone();
    users.delete_user("alice").unwrap();
    assert!(!users.contains_user("alice"));
    assert!(users.get_public_hash("alice").is_none());
    assert!(users.get_username_from_public_hash(&token).is_none());
    assert!(matches!(
        users.delete_user("alice"),
        Err(AppError::ConfigurationError(_))
    ));
}

#[test]
fn credentials_salt_rotation_invalidates_tokens() {
    let mut users = UsersConfig::new();
    users
        .add_or_update_user("alice".to_string(), "pw-one")
        .unwrap();
    let token = users.get_public_hash("alice").unwrap().clone();
    users.rotate_common_salt().unwrap();
    // The user remains, under a fresh token; the old cookie resolves to nobody.
    assert!(users.contains_user("alice"));
    assert!(users.get_username_from_public_hash(&token).is_none());
    assert!(users.verify_password("alice", "pw-one"));
}

#[test]
fn credentials_from_entries_rejects_duplicates() {
    let entries = vec![
        ("alice".to_string(), "$hash-a".to_string()),
        ("alice".to_string(), "$hash-b".to_string()),
    ];
    assert!(matches!(
        UsersConfig::from_entries(String::new(), &entries),
        Err(AppError::ConfigurationError(_))
    ));
}

#[test]
fn rate_limiter_counted_burst_then_clear() {
    let limiter = RateLimiter::new(Some(3_600_000), Some(3));
    assert!(limiter.check_limit("10.0.0.1"));
    assert!(limiter.check_limit("10.0.0.1"));
    assert!(limiter.check_limit("10.0.0.1"));
    assert!(!limiter.check_limit("10.0.0.1"));
    assert!(!limiter.check_limit("10.0.0.1"));
    // Another client is throttled independently.
    assert!(limiter.check_limit("10.0.0.2"));
    limiter.clear("10.0.0.1");
    assert!(limiter.check_limit("10.0.0.1"));
}

#[test]
fn rate_limiter_disabled_admits_everything() {
    let limiter = RateLimiter::new(None, Some(1));
    assert!(limiter.check_limit("10.0.0.1"));
    assert!(limiter.check_limit("10.0.0.1"));
    assert!(limiter.check_limit("10.0.0.1"));
}

#[test]
fn rate_decision_matches_policy() {
    // First attempt ever: admitted, counter starts at one.
    assert_eq!(rate_decision(1000, Some(2), None, 5000), (true, (5000, 1)));
    // Inside the window, below the allowance.
    assert_eq!(
        rate_decision(1000, Some(2), Some((5000, 1)), 5500),
        (true, (5500, 2))
    );
    // Inside the window, allowance used up.
    assert_eq!(
        rate_decision(1000, Some(2), Some((5500, 2)), 5900),
        (false, (5900, 3))
    );
    // Window elapsed: counter restarts.
    assert_eq!(
        rate_decision(1000, Some(2), Some((5900, 3)), 7000),
        (true, (7000, 1))
    );
    // Fixed-delay policy ignores the counter.
    assert_eq!(
        rate_decision(1000, None, Some((5000, 9)), 5500),
        (false, (5500, 0))
    );
    assert_eq!(
        rate_decision(1000, None, Some((5000, 9)), 6000),
        (true, (6000, 0))
    );
}

#[test]
fn redirect_state_is_single_use() {
    let mut state = RedirectState::new();
    assert!(state.consume().is_none());
    state.set(RedirectTarget {
        subdomain: Some("files".to_string()),
        path: "/docs".to_string(),
    });
    let first = state.consume().unwrap();
    assert_eq!(first.subdomain.as_deref(), Some("files"));
    assert_eq!(first.path, "/docs");
    assert!(state.consume().is_none());
}

#[test]
fn reload_keeps_old_rules_on_parse_failure() {
    let config = test_config(&[("/", &["*"]), ("/admin", &["alice"])]);
    let users = UsersConfig::new();
    let mut state = GatewayState::new(config, users);
    assert!(state.config.is_access_allowed(None, "/other", None));
    assert!(!state.config.is_access_allowed(None, "/admin", Some("bob")));

    // A rule source that failed to parse leaves the active table serving.
    state.reload_access_rules(None);
    assert!(state.config.is_access_allowed(None, "/other", None));
    assert!(!state.config.is_access_allowed(None, "/admin", Some("bob")));

    // A parsed source swaps the table wholesale.
    state.reload_access_rules(Some(rules(&[("/admin", &["bob"])])));
    assert!(!state.config.is_access_allowed(None, "/other", None));
    assert!(state.config.is_access_allowed(None, "/admin", Some("bob")));
}

#[test]
fn check_request_flow() {
    let config = test_config(&[("files@/", &["alice"]), ("files@/pub/", &["*"])]);
    let mut users = UsersConfig::new();
    users
        .add_or_update_user("alice".to_string(), "pw")
        .unwrap();
    let token = users.get_public_hash("alice").unwrap().clone();

    // Missing or empty subdomain header: malformed request.
    let mut redirect = RedirectState::new();
    assert!(matches!(
        check_request(&config, &users, &mut redirect, None, None, None),
        CheckDecision::MissingSubdomain
    ));
    assert!(matches!(
        check_request(&config, &users, &mut redirect, None, Some(""), None),
        CheckDecision::MissingSubdomain
    ));

    // Anonymous caller on a public path.
    let decision = check_request(
        &config,
        &users,
        &mut redirect,
        None,
        Some("files"),
        Some("https://files.nginx.lan/pub/readme"),
    );
    match decision {
        CheckDecision::Allowed { username } => assert!(username.is_none()),
        _ => panic!("expected an anonymous allow"),
    }

    // Identified caller: the username comes back for the proxy's header.
    let decision = check_request(
        &config,
        &users,
        &mut redirect,
        Some(token.as_str()),
        Some("files"),
        Some("https://files.nginx.lan/secret"),
    );
    match decision {
        CheckDecision::Allowed { username } => assert_eq!(username.as_deref(), Some("alice")),
        _ => panic!("expected an identified allow"),
    }

    // Anonymous caller on a protected path: denied, redirect recorded.
    let decision = check_request(
        &config,
        &users,
        &mut redirect,
        None,
        Some("files"),
        Some("https://files.nginx.lan/secret?tab=1"),
    );
    assert!(matches!(decision, CheckDecision::DeniedAnonymous));
    let target = redirect.consume().unwrap();
    assert_eq!(target.subdomain.as_deref(), Some("files"));
    assert_eq!(target.path, "/secret?tab=1");
}

#[test]
fn login_decision_flow() {
    let config = test_config(&[("/", &["*"]), ("files@/", &["alice"])]);
    let mut users = UsersConfig::new();
    users
        .add_or_update_user("alice".to_string(), "pw")
        .unwrap();
    users.add_or_update_user("bob".to_string(), "pw").unwrap();
    let limiter = RateLimiter::new(Some(3_600_000), Some(5));
    let token = users.get_public_hash("alice").unwrap().clone();

    // Throttled before credentials are looked at.
    let mut redirect = RedirectState::new();
    assert!(matches!(
        login_decision(
            &config, &users, &limiter, &mut redirect, false, "alice", "pw", "10.0.0.1"
        ),
        LoginOutcome::RateLimited
    ));

    // Wrong password and unknown user answer alike.
    assert!(matches!(
        login_decision(
            &config, &users, &limiter, &mut redirect, true, "alice", "nope", "10.0.0.1"
        ),
        LoginOutcome::InvalidCredentials
    ));
    assert!(matches!(
        login_decision(
            &config, &users, &limiter, &mut redirect, true, "carol", "pw", "10.0.0.1"
        ),
        LoginOutcome::InvalidCredentials
    ));

    // A successful login consumes the redirect target and rebuilds the URL.
    redirect.set(RedirectTarget {
        subdomain: Some("files".to_string()),
        path: "/docs".to_string(),
    });
    match login_decision(
        &config, &users, &limiter, &mut redirect, true, "alice", "pw", "10.0.0.1",
    ) {
        LoginOutcome::LoggedIn { token: t, redirect_to } => {
            assert_eq!(t, token);
            assert_eq!(redirect_to, "https://files.nginx.lan/docs");
        }
        _ => panic!("expected a login"),
    }
    assert!(redirect.consume().is_none());

    // Authenticated but not permitted for the recorded target: refused.
    redirect.set(RedirectTarget {
        subdomain: Some("files".to_string()),
        path: "/docs".to_string(),
    });
    assert!(matches!(
        login_decision(
            &config, &users, &limiter, &mut redirect, true, "bob", "pw", "10.0.0.1"
        ),
        LoginOutcome::Forbidden
    ));

    // No recorded target: sent to the root path.
    match login_decision(
        &config, &users, &limiter, &mut redirect, true, "bob", "pw", "10.0.0.1",
    ) {
        LoginOutcome::LoggedIn { redirect_to, .. } => assert_eq!(redirect_to, "/"),
        _ => panic!("expected a login"),
    }
}

#[test]
fn identify_degrades_to_anonymous() {
    let mut users = UsersConfig::new();
    users
        .add_or_update_user("alice".to_string(), "pw")
        .unwrap();
    let token = users.get_public_hash("alice").unwrap().clone();
    assert_eq!(
        identify_user_with_cookie(&users, Some(token.as_str())).as_deref(),
        Some("alice")
    );
    assert!(identify_user_with_cookie(&users, None).is_none());
    assert!(identify_user_with_cookie(&users, Some("")).is_none());
    assert!(identify_user_with_cookie(&users, Some("stale-token")).is_none());
}

#[test]
fn url_helpers() {
    assert_eq!(
        extract_path_from_url("https://files.nginx.lan/a/b?x=1").unwrap(),
        "/a/b?x=1"
    );
    assert_eq!(
        extract_path_from_url("https://files.nginx.lan").unwrap(),
        "/"
    );
    assert!(matches!(
        extract_path_from_url("not a url"),
        Err(AppError::ConfigurationError(_))
    ));

    assert_eq!(extract_subdomain_from_host("incus.nginx.lan"), "incus");
    assert_eq!(extract_subdomain_from_host("localhost"), "localhost");
    assert_eq!(
        extract_subdomain_from_url("https://incus.nginx.lan/x").as_deref(),
        Some("incus")
    );
    assert!(extract_subdomain_from_url("/just/a/path").is_none());
    assert_eq!(
        create_subdomain_url("incus", "/admin"),
        "https://incus.nginx.lan/admin"
    );
}

#[test]
fn text_helpers() {
    assert_eq!(
        html_escape("<a href=\"x\">Tom & Jerry's</a>"),
        "&lt;a href=&quot;x&quot;&gt;Tom &amp; Jerry&#39;s&lt;/a&gt;"
    );
    assert_eq!(html_escape("plain"), "plain");
    assert!(valid("some_token"));
    assert!(!valid("other_token"));
}

#[test]
fn error_messages() {
    assert_eq!(
        AppError::ConfigurationError("missing table".to_string()).message(),
        "Configuration error: missing table"
    );
    assert_eq!(
        AppError::RateLimitExceeded("slow down".to_string()).message(),
        "Rate limit exceeded: slow down"
    );
    assert_eq!(AppError::HashingError.message(), "Password hashing error");
}

#[test]
fn admin_console_lookup() {
    let hosts = vec![("router".to_string(), "192.168.0.1".to_string())];
    let panels = vec![("power".to_string(), "Power".to_string())];
    let commands = vec![
        (
            "router_poweroff".to_string(),
            Command {
                name: "Power off".to_string(),
                host: "router".to_string(),
                panel: "power".to_string(),
                command: "poweroff".to_string(),
            },
        ),
        (
            "router_reboot".to_string(),
            Command {
                name: "Reboot".to_string(),
                host: "router".to_string(),
                panel: "power".to_string(),
                command: "reboot".to_string(),
            },
        ),
    ];
    let console = AdminConsole::build(hosts, panels, commands).unwrap();
    let action = console.get_action_by_url("router_reboot").unwrap();
    assert_eq!(action.pretty_name, "Reboot");
    assert_eq!(action.command, "reboot");
    assert!(console.get_action_by_url("missing").is_none());

    let bad = AdminConsole::build(
        vec![],
        vec![("power".to_string(), "Power".to_string())],
        vec![(
            "x".to_string(),
            Command {
                name: "X".to_string(),
                host: "ghost".to_string(),
                panel: "power".to_string(),
                command: "x".to_string(),
            },
        )],
    );
    assert!(matches!(bad, Err(AppError::ConfigurationError(_))));
}

#[test]
fn admin_commands_panels() {
    let hosts = vec![("router".to_string(), "192.168.0.1".to_string())];
    let panels = vec![
        ("power".to_string(), "Power".to_string()),
        ("net".to_string(), "Network".to_string()),
    ];
    let commands = vec![
        (
            "router_poweroff".to_string(),
            Command {
                name: "Power off".to_string(),
                host: "router".to_string(),
                panel: "power".to_string(),
                command: "poweroff".to_string(),
            },
        ),
        (
            "wifi_restart".to_string(),
            Command {
                name: "Restart WiFi".to_string(),
                host: "router".to_string(),
                panel: "net".to_string(),
                command: "wifi restart".to_string(),
            },
        ),
    ];
    let cmds = AdminCommands::build(hosts, panels, commands).unwrap();
    assert_eq!(cmds.get_hosts().len(), 1);
    assert_eq!(cmds.get_panels().len(), 2);
    assert_eq!(cmds.get_commands().len(), 2);
    let grouped = cmds.get_panels_with_commands();
    assert_eq!(grouped.len(), 2);
    assert_eq!(grouped[0].0, "Power");
    assert_eq!(
        grouped[0].1,
        vec![("router_poweroff".to_string(), "Power off".to_string())]
    );
    assert_eq!(grouped[1].0, "Network");
    assert_eq!(
        grouped[1].1,
        vec![("wifi_restart".to_string(), "Restart WiFi".to_string())]
    );
}

#[test]
fn log_level_names() {
    assert_eq!(LogLevel::Trace.to_string(), "trace");
    assert_eq!(LogLevel::Error.to_string(), "error");
}
