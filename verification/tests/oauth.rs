use base64::engine::general_purpose::URL_SAFE_NO_PAD;
use base64::Engine;
use cairn_core::oauth::challenge::{
    parse_auth_params, parse_www_authenticate, probe_endpoint, probe_of_response,
    probe_requires_auth_quick, Probe, ProbeOutcome, WwwAuthenticate,
};
use cairn_core::oauth::discovery::{
    fetch_auth_server_metadata, fetch_json, fetch_protected_resource_metadata,
    invalid_resource_metadata, invalid_server_metadata, no_candidates, register_client,
    registered_client, scoped_grant_types, select_authorization_server, supports_s256,
    AuthServerMetadata, ClientCredentials, Discovery, FetchAnswer, ProtectedResourceMetadata,
    RegistrationAnswer,
};
use cairn_core::oauth::endpoint::{
    as_metadata_urls, authorize_query, build_authorize_url, canonical_resource_uri,
    is_loopback_host, is_secure_endpoint, prm_well_known_urls,
};
use cairn_core::oauth::pkce::{challenge_of_verifier, generate_pkce, generate_state, pkce_of_bytes};
use cairn_core::oauth::scope::{choose_scope, scope_param};
use cairn_core::oauth::store::{
    force_expire, get_valid_access_token, plan_token, plan_token_at, record_scope_step_up, status,
    status_at, OAuthStatus, StoredAuth, TokenPlan, EXPIRY_SKEW_SECS,
};
use cairn_core::oauth::token::{
    exchange_code, post_token_request, refresh_access_token, TokenAnswer, TokenResponseBody,
    TokenSet,
};
use sha2::{Digest, Sha256};

fn strings(items: &[&str]) -> Vec<String> {
    items.iter().map(|item| item.to_string()).collect()
}

#[test]
fn parse_www_authenticate_extracts_resource_metadata_and_scope() {
    let header = r#"Bearer resource_metadata="https://api.example.com/.well-known/oauth-protected-resource", scope="read write""#;
    let w = parse_www_authenticate(header);
    assert_eq!(
        w.resource_metadata.as_deref(),
        Some("https://api.example.com/.well-known/oauth-protected-resource")
    );
    assert_eq!(w.scope.as_deref(), Some("read write"));
    assert!(w.error.is_none());
    assert!(!w.is_insufficient_scope());
}

#[test]
fn parse_www_authenticate_detects_insufficient_scope() {
    let header =
        r#"Bearer error="insufficient_scope", scope="admin", error_description="need admin""#;
    let w = parse_www_authenticate(header);
    assert!(w.is_insufficient_scope());
    assert_eq!(w.scope.as_deref(), Some("admin"));
}

#[test]
fn parse_www_authenticate_handles_bare_values_and_no_scheme() {
    let w = parse_www_authenticate("error=invalid_token");
    assert_eq!(w.error.as_deref(), Some("invalid_token"));
}

#[test]
fn auth_params_keep_commas_only_in_quotes() {
    let pair = |key: &str, value: &str| (key.to_string(), value.to_string());
    assert_eq!(
        parse_auth_params(r#" a = 1 , b="x,y" c=z, =lost, d="open"#),
        vec![pair("a", "1"), pair("b", "x,y"), pair("c", "z"), pair("d", "open")]
    );
    assert!(parse_auth_params("").is_empty());
    assert!(parse_auth_params("no equals here").is_empty());
    // The last value of a name counts.
    assert_eq!(
        parse_www_authenticate("Bearer scope=a, scope=b").scope.as_deref(),
        Some("b")
    );
}

#[test]
fn white_space_around_a_challenge_says_nothing() {
    for header in [
        " Bearer error=\"insufficient_scope\"",
        "\t  Bearer error=insufficient_scope \n",
        "Bearer   error=insufficient_scope",
    ] {
        assert!(parse_www_authenticate(header).is_insufficient_scope(), "{header:?}");
    }
}

#[test]
fn a_written_list_of_params_is_read_back() {
    let pair = |key: &str, value: &str| (key.to_string(), value.to_string());
    let params = vec![pair("scope", "read, write"), pair("x", ""), pair("scope", " a=b ")];
    let written: Vec<String> =
        params.iter().map(|(key, value)| format!("{key}=\"{value}\"")).collect();
    assert_eq!(parse_auth_params(&written.join(",")), params);
    assert_eq!(parse_auth_params(&written.join(", ")), params);
}

#[test]
fn an_unknown_param_of_a_challenge_changes_nothing() {
    let known = "Bearer scope=\"read\", error=\"invalid_token\"";
    for header in [known.to_string(), format!("{known}, realm=\"scope=other\"")] {
        let challenge = parse_www_authenticate(&header);
        assert_eq!(challenge.scope.as_deref(), Some("read"));
        assert_eq!(challenge.error.as_deref(), Some("invalid_token"));
        assert_eq!(challenge.resource_metadata, None);
    }
}

#[test]
fn prm_parse_and_select_first_server() {
    let json = r#"{"resource":"https://api.example.com","authorization_servers":["https://auth.example.com","https://auth2.example.com"],"scopes_supported":["read","write"]}"#;
    let value: serde_json::Value = serde_json::from_str(json).unwrap();
    let list = |name: &str| -> Vec<String> {
        value[name]
            .as_array()
            .unwrap()
            .iter()
            .map(|item| item.as_str().unwrap().to_string())
            .collect()
    };
    let prm = ProtectedResourceMetadata {
        resource: value["resource"].as_str().map(str::to_string),
        authorization_servers: list("authorization_servers"),
        scopes_supported: list("scopes_supported"),
    };
    assert_eq!(
        select_authorization_server(&prm).as_deref(),
        Some("https://auth.example.com")
    );
    assert_eq!(prm.scopes_supported, vec!["read", "write"]);
    assert_eq!(
        select_authorization_server(&ProtectedResourceMetadata::default()),
        None
    );
}

#[test]
fn prm_well_known_urls_are_path_aware_then_root() {
    let urls = prm_well_known_urls("https://api.example.com/mcp/v1");
    assert_eq!(
        urls,
        vec![
            "https://api.example.com/.well-known/oauth-protected-resource/mcp/v1".to_string(),
            "https://api.example.com/.well-known/oauth-protected-resource".to_string(),
        ]
    );
    let urls = prm_well_known_urls("https://api.example.com");
    assert_eq!(
        urls,
        vec!["https://api.example.com/.well-known/oauth-protected-resource".to_string()]
    );
    assert!(prm_well_known_urls("not an address").is_empty());
}

#[test]
fn as_metadata_urls_priority_order_with_path() {
    let urls = as_metadata_urls("https://auth.example.com/tenant1");
    assert_eq!(
        urls,
        vec![
            "https://auth.example.com/.well-known/oauth-authorization-server/tenant1".to_string(),
            "https://auth.example.com/.well-known/openid-configuration/tenant1".to_string(),
            "https://auth.example.com/tenant1/.well-known/openid-configuration".to_string(),
        ]
    );
    assert!(as_metadata_urls("no address").is_empty());
}

#[test]
fn as_metadata_urls_root_issuer() {
    let urls = as_metadata_urls("https://auth.example.com");
    assert_eq!(
        urls,
        vec![
            "https://auth.example.com/.well-known/oauth-authorization-server".to_string(),
            "https://auth.example.com/.well-known/openid-configuration".to_string(),
        ]
    );
}

#[test]
fn s256_required() {
    let mut meta = AuthServerMetadata {
        code_challenge_methods_supported: vec!["plain".to_string()],
        ..Default::default()
    };
    assert!(!supports_s256(&meta));
    meta.code_challenge_methods_supported
        .push("S256".to_string());
    assert!(supports_s256(&meta));
}

#[test]
fn canonical_resource_uri_normalizes() {
    assert_eq!(
        canonical_resource_uri("HTTPS://API.Example.com:443/mcp/").unwrap(),
        "https://api.example.com/mcp"
    );
    assert_eq!(
        canonical_resource_uri("https://api.example.com/").unwrap(),
        "https://api.example.com"
    );
    assert_eq!(
        canonical_resource_uri("https://api.example.com:8443/mcp#frag").unwrap(),
        "https://api.example.com:8443/mcp"
    );
}

#[test]
fn canonical_resource_uri_drops_query_and_names_a_bad_address() {
    assert_eq!(
        canonical_resource_uri("https://api.example.com/a//?q=1").unwrap(),
        "https://api.example.com/a"
    );
    assert_eq!(
        canonical_resource_uri("nonsense").unwrap_err(),
        "Invalid server URL 'nonsense': relative URL without a base"
    );
}

#[test]
fn the_resource_of_a_resource_is_itself() {
    for (url, resource) in [
        ("HTTPS://API.Example.com:443/mcp/", "https://api.example.com/mcp"),
        ("http://u:p@H:80/a//b/../c//?q=1#f", "http://h/a//c"),
        ("https://example.com:8443", "https://example.com:8443"),
        ("http://[::1]:3000/X Y/", "http://[::1]:3000/X%20Y"),
        ("https://B\u{fc}cher.example/%7E/", "https://xn--bcher-kva.example/%7E"),
        ("http://0x7f.1/a\\b\\", "http://127.0.0.1/a/b"),
    ] {
        assert_eq!(canonical_resource_uri(url).unwrap(), resource);
        assert_eq!(canonical_resource_uri(resource).unwrap(), resource);
    }
}

#[test]
fn a_host_label_too_long_to_decode_is_not_read_again() {
    let label: String =
        (0..1000u32).map(|i| char::from_u32(0x4e00 + 7919 * i % 20000).unwrap()).collect();
    let resource = canonical_resource_uri(&format!("https://{label}.example/")).unwrap();
    assert!(resource.len() > 2004 + "https://.example".len());
    assert!(resource.starts_with("https://xn--"));
    assert!(canonical_resource_uri(&resource).is_err());
}

#[test]
fn is_secure_endpoint_https_and_loopback() {
    assert!(is_secure_endpoint("https://auth.example.com/token"));
    assert!(is_secure_endpoint("http://127.0.0.1:8080/token"));
    assert!(is_secure_endpoint("http://localhost/token"));
    assert!(!is_secure_endpoint("http://auth.example.com/token"));
    assert!(!is_secure_endpoint("ftp://auth.example.com"));
    assert!(is_secure_endpoint("http://[::1]/token"));
    assert!(!is_secure_endpoint("token"));
    assert!(!is_loopback_host(&None));
}

#[test]
fn choose_scope_strategy() {
    assert_eq!(
        choose_scope(&["a".into(), "b".into()], Some("x"), &["y".into()], &[]),
        Some("a b".to_string())
    );
    assert_eq!(
        choose_scope(&[], Some("read write"), &["y".into()], &[]),
        Some("read write".to_string())
    );
    assert_eq!(
        choose_scope(&[], None, &["p1".into(), "p2".into()], &["a".into()]),
        Some("p1 p2".to_string())
    );
    assert_eq!(
        choose_scope(&[], None, &[], &["a1".into()]),
        Some("a1".to_string())
    );
    assert_eq!(choose_scope(&[], None, &[], &[]), None);
    assert_eq!(choose_scope(&[], Some("   "), &[], &[]), None);
}

#[test]
fn scope_param_joins_or_omits() {
    assert_eq!(scope_param(&[]), None);
    assert_eq!(scope_param(&strings(&["a", "b"])), Some("a b".to_string()));
}

#[test]
fn pkce_challenge_is_s256_of_verifier() {
    let pkce = generate_pkce();
    assert_eq!(pkce.method, "S256");
    let expected = URL_SAFE_NO_PAD.encode(Sha256::digest(pkce.verifier.as_bytes()));
    assert_eq!(pkce.challenge, expected);
    assert_ne!(generate_pkce().verifier, generate_pkce().verifier);
}

#[test]
fn pkce_of_known_bytes() {
    // The example of RFC 7636, appendix B.
    let bytes: [u8; 32] = [
        116, 24, 223, 180, 151, 153, 224, 37, 79, 250, 96, 125, 216, 173, 187, 186, 22, 212, 37, 77,
        105, 214, 191, 240, 91, 88, 5, 88, 83, 132, 141, 121,
    ];
    let pkce = pkce_of_bytes(&bytes);
    assert_eq!(pkce.verifier, "dBjftJeZ4CVP-mB92K27uhbUJU1p1r_wW1gFWFOEjXk");
    assert_eq!(pkce.challenge, "E9Melhoa2OwvFrEMTJguCHaoeK1t8URWbuGJSstw-cM");
    assert_eq!(challenge_of_verifier(&pkce.verifier), pkce.challenge);
}

#[test]
fn scoped_grant_types_filters_to_advertised() {
    assert_eq!(
        scoped_grant_types(&["authorization_code".to_string()]),
        vec!["authorization_code"]
    );
    assert_eq!(
        scoped_grant_types(&[
            "authorization_code".to_string(),
            "refresh_token".to_string()
        ]),
        vec!["authorization_code", "refresh_token"]
    );
    assert_eq!(
        scoped_grant_types(&[]),
        vec!["authorization_code", "refresh_token"]
    );
}

#[test]
fn state_is_random_and_urlsafe() {
    let a = generate_state();
    let b = generate_state();
    assert_ne!(a, b);
    assert!(!a.contains('+') && !a.contains('/') && !a.contains('='));
    assert_eq!(a.len(), 43);
}

#[test]
fn build_authorize_url_binds_resource_state_and_pkce() {
    let url = build_authorize_url(
        "https://auth.example.com/authorize",
        "client123",
        "http://127.0.0.1:5000/callback",
        "https://api.example.com/mcp",
        "state-xyz",
        "challenge-abc",
        Some("read write"),
    )
    .unwrap();
    let parsed = reqwest::Url::parse(&url).unwrap();
    let pairs: std::collections::HashMap<_, _> = parsed.query_pairs().into_owned().collect();
    assert_eq!(pairs.get("response_type").map(String::as_str), Some("code"));
    assert_eq!(
        pairs.get("client_id").map(String::as_str),
        Some("client123")
    );
    assert_eq!(
        pairs.get("resource").map(String::as_str),
        Some("https://api.example.com/mcp")
    );
    assert_eq!(pairs.get("state").map(String::as_str), Some("state-xyz"));
    assert_eq!(
        pairs.get("code_challenge_method").map(String::as_str),
        Some("S256")
    );
    assert_eq!(pairs.get("scope").map(String::as_str), Some("read write"));
}

#[test]
fn build_authorize_url_omits_scope_when_none() {
    let url = build_authorize_url(
        "https://auth.example.com/authorize",
        "c",
        "http://127.0.0.1:5000/callback",
        "https://api.example.com",
        "s",
        "ch",
        None,
    )
    .unwrap();
    assert!(!url.contains("scope="));
}

#[test]
fn build_authorize_url_keeps_what_the_endpoint_has() {
    let url = build_authorize_url("https://a.example/x?k=v", "c", "r", "u", "s", "h", None).unwrap();
    assert_eq!(
        url,
        "https://a.example/x?k=v&response_type=code&client_id=c&redirect_uri=r&state=s&code_challenge=h&code_challenge_method=S256&resource=u"
    );
    assert_eq!(
        build_authorize_url("nowhere", "c", "r", "u", "s", "h", None).unwrap_err(),
        "Invalid authorization endpoint: relative URL without a base"
    );
    assert_eq!(authorize_query("c", "r", "u", "s", "h", Some("x")).len(), 8);
}

#[test]
fn probe_outcome_offers_auth_unless_definitively_unprotected() {
    assert_eq!(
        ProbeOutcome::RequiresAuth
            .into_unauthenticated_status()
            .state,
        "needs_auth"
    );
    assert_eq!(
        ProbeOutcome::Unknown.into_unauthenticated_status().state,
        "needs_auth"
    );
    assert_eq!(
        ProbeOutcome::NoAuth.into_unauthenticated_status().state,
        "none"
    );
}

fn probe(requires_auth: bool) -> Option<Probe> {
    Some(Probe { requires_auth, challenge: WwwAuthenticate::default() })
}

#[test]
fn probes_prefer_a_demand_for_authorization() {
    assert_eq!(probe_requires_auth_quick(&None, &None), ProbeOutcome::Unknown);
    assert_eq!(probe_requires_auth_quick(&probe(false), &None), ProbeOutcome::NoAuth);
    assert_eq!(probe_requires_auth_quick(&None, &probe(false)), ProbeOutcome::NoAuth);
    assert_eq!(probe_requires_auth_quick(&probe(false), &probe(true)), ProbeOutcome::RequiresAuth);
    assert!(probe_endpoint("u", probe(false), probe(true)).unwrap().requires_auth);
    assert!(!probe_endpoint("u", probe(false), None).unwrap().requires_auth);
    assert_eq!(
        probe_endpoint("u", None, probe(false)).unwrap_err(),
        "Probe request to 'u' failed"
    );
    let answered = probe_of_response(401, Some("Bearer scope=\"a\""));
    assert!(answered.requires_auth);
    assert_eq!(answered.challenge.scope.as_deref(), Some("a"));
    assert!(probe_of_response(403, None).requires_auth);
    assert!(!probe_of_response(200, None).requires_auth);
}

#[test]
fn token_response_computes_absolute_expiry_and_keeps_prior_refresh() {
    let body = TokenResponseBody {
        access_token: "at".into(),
        token_type: None,
        expires_in: Some(3600),
        refresh_token: None,
        scope: Some("read".into()),
    };
    let before = chrono::Utc::now().timestamp();
    let set = body.into_token_set(Some("old-refresh".into()));
    assert_eq!(set.token_type, "Bearer");
    assert_eq!(set.refresh_token.as_deref(), Some("old-refresh"));
    let expires_at = set.expires_at.unwrap();
    assert!(expires_at >= before + 3600 && expires_at <= before + 3601 + 2);
}

#[test]
fn token_answers_are_taken_up() {
    let body = TokenResponseBody {
        access_token: "at".into(),
        token_type: Some("DPoP".into()),
        expires_in: None,
        refresh_token: Some("new".into()),
        scope: None,
    };
    let set = post_token_request(
        TokenAnswer::Agreed { parsed: Ok(body), body: "{}".into() },
        Some("old".into()),
    )
    .unwrap();
    assert_eq!(set.refresh_token.as_deref(), Some("new"));
    assert_eq!(set.token_type, "DPoP");
    assert_eq!(set.expires_at, None);
    let refused = TokenAnswer::Refused { status: "400 Bad Request".into(), body: "no".into() };
    assert_eq!(
        post_token_request(refused, None).unwrap_err(),
        "Token endpoint returned 400 Bad Request: no"
    );
    assert_eq!(
        post_token_request(TokenAnswer::NotSent("down".into()), None).unwrap_err(),
        "Token request failed: down"
    );
    let unread = TokenAnswer::Agreed { parsed: Err("eof".into()), body: "{".into() };
    assert_eq!(
        post_token_request(unread, None).unwrap_err(),
        "Invalid token response: eof: {"
    );
}

#[test]
fn token_requests_name_the_resource_and_need_a_secure_endpoint() {
    let request = exchange_code(
        "https://auth.example.com/token",
        "client",
        Some("hush"),
        "code",
        "verifier",
        "http://127.0.0.1/cb",
        "https://api.example.com",
    )
    .unwrap();
    let pair = |key: &str, value: &str| (key.to_string(), value.to_string());
    assert_eq!(
        request.form,
        vec![
            pair("grant_type", "authorization_code"),
            pair("code", "code"),
            pair("redirect_uri", "http://127.0.0.1/cb"),
            pair("client_id", "client"),
            pair("code_verifier", "verifier"),
            pair("resource", "https://api.example.com"),
            pair("client_secret", "hush"),
        ]
    );
    assert_eq!(request.prior_refresh, None);
    let renewal = refresh_access_token(
        "https://auth.example.com/token",
        "client",
        None,
        "refresh",
        "https://api.example.com",
        Some("read"),
    )
    .unwrap();
    assert_eq!(
        renewal.form,
        vec![
            pair("grant_type", "refresh_token"),
            pair("refresh_token", "refresh"),
            pair("client_id", "client"),
            pair("resource", "https://api.example.com"),
            pair("scope", "read"),
        ]
    );
    assert_eq!(renewal.prior_refresh.as_deref(), Some("refresh"));
    assert_eq!(
        exchange_code("http://auth.example.com/t", "c", None, "k", "v", "r", "u").unwrap_err(),
        "Token endpoint must be HTTPS: http://auth.example.com/t"
    );
    assert_eq!(
        refresh_access_token("http://auth.example.com/t", "c", None, "k", "u", None).unwrap_err(),
        "Token endpoint must be HTTPS: http://auth.example.com/t"
    );
}

#[test]
fn discovery_takes_the_first_server_with_challenges() {
    let meta = |endpoint: &str, methods: &[&str]| AuthServerMetadata {
        authorization_endpoint: endpoint.to_string(),
        code_challenge_methods_supported: strings(methods),
        ..Default::default()
    };
    match fetch_auth_server_metadata("iss", "u1", Some(Ok(meta("", &["S256"]))), String::new()) {
        Discovery::Next(error) => {
            assert_eq!(error, "AS metadata at u1 has no authorization_endpoint")
        }
        other => panic!("unexpected {:?}", other),
    }
    match fetch_auth_server_metadata("iss", "u1", Some(Ok(meta("https://a", &["plain"]))), String::new()) {
        Discovery::Failed(error) => assert_eq!(
            error,
            "Authorization server iss does not advertise PKCE S256 (code_challenge_methods_supported); refusing to proceed."
        ),
        other => panic!("unexpected {:?}", other),
    }
    match fetch_auth_server_metadata("iss", "u1", Some(Ok(meta("https://a", &["S256"]))), String::new()) {
        Discovery::Found(found) => assert_eq!(found.authorization_endpoint, "https://a"),
        other => panic!("unexpected {:?}", other),
    }
    match fetch_auth_server_metadata("iss", "u1", Some(Err("bad".into())), String::new()) {
        Discovery::Next(error) => assert_eq!(error, "bad"),
        other => panic!("unexpected {:?}", other),
    }
    match fetch_auth_server_metadata("iss", "", None, no_candidates(true)) {
        Discovery::Failed(error) => assert_eq!(
            error,
            "Authorization server metadata discovery failed: no AS metadata candidate URLs"
        ),
        other => panic!("unexpected {:?}", other),
    }
    match fetch_protected_resource_metadata(None, no_candidates(false)) {
        Discovery::Failed(error) => assert_eq!(
            error,
            "Protected resource metadata discovery failed: no PRM candidate URLs"
        ),
        other => panic!("unexpected {:?}", other),
    }
    match fetch_protected_resource_metadata(Some(Err("gone".into())), String::new()) {
        Discovery::Next(error) => assert_eq!(error, "gone"),
        other => panic!("unexpected {:?}", other),
    }
    match fetch_protected_resource_metadata(Some(Ok(Default::default())), String::new()) {
        Discovery::Found(found) => assert!(found.resource.is_none()),
        other => panic!("unexpected {:?}", other),
    }
    assert_eq!(invalid_resource_metadata("x"), "Invalid protected resource metadata: x");
    assert_eq!(invalid_server_metadata("x"), "Invalid authorization server metadata: x");
}

#[test]
fn fetches_are_named_by_their_fault() {
    assert_eq!(fetch_json("u", FetchAnswer::Body("b".into())).unwrap(), "b");
    assert_eq!(fetch_json("u", FetchAnswer::NotSent("e".into())).unwrap_err(), "GET u failed: e");
    assert_eq!(fetch_json("u", FetchAnswer::Refused("404".into())).unwrap_err(), "GET u returned 404");
    assert_eq!(
        fetch_json("u", FetchAnswer::Unreadable("e".into())).unwrap_err(),
        "Reading u failed: e"
    );
}

#[test]
fn registration_is_public_and_secure() {
    let request = register_client(
        "https://auth.example.com/register",
        "http://127.0.0.1/cb",
        "Cairn",
        Some("read"),
        &["authorization_code".to_string()],
    )
    .unwrap();
    assert_eq!(request.client_name, "Cairn");
    assert_eq!(request.redirect_uris, vec!["http://127.0.0.1/cb"]);
    assert_eq!(request.grant_types, vec!["authorization_code"]);
    assert_eq!(request.response_types, vec!["code"]);
    assert_eq!(request.token_endpoint_auth_method, "none");
    assert_eq!(request.scope.as_deref(), Some("read"));
    assert_eq!(
        register_client("http://auth.example.com/r", "r", "n", None, &[]).unwrap_err(),
        "Registration endpoint must be HTTPS: http://auth.example.com/r"
    );
    let accepted = RegistrationAnswer::Accepted {
        parsed: Ok(ClientCredentials { client_id: "id".into(), client_secret: None }),
        body: String::new(),
    };
    assert_eq!(registered_client(accepted).unwrap().client_id, "id");
    assert_eq!(
        registered_client(RegistrationAnswer::NotSent("e".into())).unwrap_err(),
        "Client registration request failed: e"
    );
    assert_eq!(
        registered_client(RegistrationAnswer::Refused { status: "400".into(), body: "b".into() })
            .unwrap_err(),
        "Client registration returned 400: b"
    );
    assert_eq!(
        registered_client(RegistrationAnswer::Accepted { parsed: Err("e".into()), body: "b".into() })
            .unwrap_err(),
        "Invalid client registration response: e: b"
    );
}

fn sample(server_token: &str) -> StoredAuth {
    StoredAuth {
        resource: "https://api.example.com/mcp".to_string(),
        authorization_endpoint: "https://auth.example.com/authorize".to_string(),
        token_endpoint: "https://auth.example.com/token".to_string(),
        registration_endpoint: None,
        client_id: "client-123".to_string(),
        client_secret: None,
        access_token: server_token.to_string(),
        refresh_token: Some("refresh-abc".to_string()),
        expires_at: Some(chrono::Utc::now().timestamp() + 3600),
        scopes: vec!["read".to_string()],
        needs_scopes: Vec::new(),
    }
}

#[test]
fn status_reflects_token_usability_not_mere_presence() {
    assert_eq!(status(Some(sample("good"))).state, "authorized");

    let mut auth = sample("stale");
    auth.expires_at = Some(chrono::Utc::now().timestamp() - 10);
    assert!(auth.refresh_token.is_some());
    assert_eq!(status(Some(auth)).state, "authorized");

    let mut auth = sample("dead");
    auth.expires_at = Some(chrono::Utc::now().timestamp() - 10);
    auth.refresh_token = None;
    assert_eq!(status(Some(auth)).state, "needs_auth");

    assert_eq!(status(None), OAuthStatus::needs_auth());
    assert_eq!(OAuthStatus::none().state, "none");
}

#[test]
fn is_expired_respects_skew() {
    let mut auth = sample("t");
    auth.expires_at = Some(chrono::Utc::now().timestamp() + EXPIRY_SKEW_SECS - 5);
    assert!(auth.is_expired());
    auth.expires_at = Some(chrono::Utc::now().timestamp() + EXPIRY_SKEW_SECS + 120);
    assert!(!auth.is_expired());
    auth.expires_at = None;
    assert!(!auth.is_expired());
}

#[test]
fn expiry_is_exact_at_the_skew() {
    let mut auth = sample("t");
    auth.expires_at = Some(160);
    assert!(!auth.is_expired_at(99));
    assert!(auth.is_expired_at(100));
    auth.refresh_token = None;
    assert_eq!(status_at(Some(auth.clone()), 99).state, "authorized");
    assert_eq!(status_at(Some(auth), 100).state, "needs_auth");
}

#[test]
fn apply_tokens_keeps_prior_refresh_and_updates_scopes() {
    let mut auth = sample("old-access");
    auth.apply_tokens(TokenSet {
        access_token: "new-access".to_string(),
        refresh_token: None,
        expires_at: Some(123),
        scope: Some("read write".to_string()),
        token_type: "Bearer".to_string(),
    });
    assert_eq!(auth.access_token, "new-access");
    assert_eq!(auth.refresh_token.as_deref(), Some("refresh-abc"));
    assert_eq!(auth.expires_at, Some(123));
    assert_eq!(auth.scopes, vec!["read".to_string(), "write".to_string()]);
}

#[test]
fn blank_granted_scopes_keep_the_old_ones() {
    let mut auth = sample("old");
    auth.apply_tokens(TokenSet {
        access_token: "new".to_string(),
        refresh_token: Some("rotated".to_string()),
        expires_at: None,
        scope: Some(" \t ".to_string()),
        token_type: "Bearer".to_string(),
    });
    assert_eq!(auth.scopes, vec!["read".to_string()]);
    assert_eq!(auth.refresh_token.as_deref(), Some("rotated"));
    assert_eq!(auth.expires_at, None);
}

#[test]
fn step_up_records_only_missing_scopes() {
    let mut auth = sample("t");
    record_scope_step_up(&mut auth, &["read".to_string(), "admin".to_string()]);
    assert_eq!(auth.needs_scopes, vec!["admin".to_string()]);
    let shown = status(Some(auth));
    assert_eq!(shown.needs_scopes, vec!["admin".to_string()]);
    assert_eq!(shown.detail.as_deref(), Some("Additional scopes required"));
}

#[test]
fn step_up_without_scopes_changes_nothing() {
    let mut auth = sample("t");
    auth.needs_scopes = strings(&["admin"]);
    record_scope_step_up(&mut auth, &[]);
    assert_eq!(auth.needs_scopes, strings(&["admin"]));
    record_scope_step_up(&mut auth, &strings(&["x", "read", "x", "y"]));
    assert_eq!(auth.needs_scopes, strings(&["x", "y"]));
}

#[test]
fn forced_expiry_makes_the_next_use_renew() {
    let mut auth = sample("t");
    force_expire(&mut auth);
    assert!(auth.is_expired());
    match plan_token(&Some(auth.clone())) {
        TokenPlan::Refresh { refresh_token, scope } => {
            assert_eq!(refresh_token, "refresh-abc");
            assert_eq!(scope.as_deref(), Some("read"));
        }
        other => panic!("unexpected {:?}", other),
    }
    auth.refresh_token = None;
    assert!(matches!(plan_token(&Some(auth)), TokenPlan::Missing));
}

#[test]
fn a_usable_token_is_used_and_a_renewed_one_returned() {
    match plan_token(&Some(sample("still-good"))) {
        TokenPlan::Use(token) => assert_eq!(token, "still-good"),
        other => panic!("unexpected {:?}", other),
    }
    assert!(matches!(plan_token(&None), TokenPlan::Missing));
    assert!(matches!(plan_token_at(&None, 5), TokenPlan::Missing));
    let mut auth = sample("old");
    let renewed = TokenSet {
        access_token: "new".to_string(),
        refresh_token: None,
        expires_at: Some(9),
        scope: None,
        token_type: "Bearer".to_string(),
    };
    assert_eq!(get_valid_access_token(&mut auth, Ok(renewed)).as_deref(), Some("new"));
    assert_eq!(auth.access_token, "new");
    assert_eq!(get_valid_access_token(&mut auth, Err("no".into())), None);
    assert_eq!(auth.access_token, "new");
}
