use vpnman::config::{
    basic_auth_runtime, contains_crlf, load_app_config, validate_app_config, AppConfig,
    BasicAuthConfig, BasicAuthRuntime, BindConfig, ConfigFile,
};
use vpnman::security::{
    constant_time_eq, request_has_crlf, security_middleware, Header, Refusal, RequestHead,
};

fn auth(enabled: bool, username: Option<&str>, password: Option<&str>) -> BasicAuthConfig {
    BasicAuthConfig {
        enabled,
        username: username.map(|s| s.to_string()),
        password: password.map(|s| s.to_string()),
    }
}

fn config(data_dir: &str, host: &str, basic_auth: Option<BasicAuthConfig>) -> AppConfig {
    AppConfig {
        data_dir: data_dir.to_string(),
        bind: BindConfig { host: host.to_string(), port: 8080 },
        basic_auth,
    }
}

fn head(method: &str, path: &str, headers: &[(&str, &str)]) -> RequestHead {
    RequestHead {
        method: method.to_string(),
        path: path.to_string(),
        query: None,
        headers: headers
            .iter()
            .map(|(n, v)| Header { name: n.to_string(), value: Some(v.to_string()) })
            .collect(),
    }
}

fn status(refusal: Option<Refusal>) -> Option<u16> {
    refusal.map(|r| r.failure.status)
}

fn error(config: AppConfig) -> String {
    validate_app_config(&config).unwrap_err()
}

#[test]
fn configurations_that_can_be_used() {
    assert_eq!(validate_app_config(&config("data", "127.0.0.1", None)), Ok(()));
    assert_eq!(validate_app_config(&config("d", "::1", Some(auth(false, None, None)))), Ok(()));
    assert_eq!(
        validate_app_config(&config("d", "h", Some(auth(true, Some("u"), Some("p"))))),
        Ok(())
    );
}

#[test]
fn configurations_that_cannot_be_used() {
    assert_eq!(error(config("", "", None)), "data_dir is required");
    assert_eq!(error(config("d", " ", None)), "bind.host is required");
    assert_eq!(error(config("d", "h\n", None)), "bind.host must not contain CR or LF");
    let with = |u: Option<&str>, p: Option<&str>| error(config("d", "h", Some(auth(true, u, p))));
    assert_eq!(with(None, None), "basic_auth.username is required when enabled");
    assert_eq!(with(Some("u"), None), "basic_auth.password is required when enabled");
    assert_eq!(with(Some(""), Some("")), "basic_auth.username must not be empty when enabled");
    assert_eq!(with(Some("u"), Some("")), "basic_auth.password must not be empty when enabled");
    assert_eq!(with(Some("u\r"), Some("p\n")), "basic_auth.username must not contain CR or LF");
    assert_eq!(with(Some("u"), Some("p\n")), "basic_auth.password must not contain CR or LF");
}

#[test]
fn loading_a_configuration() {
    let good = config("data", "127.0.0.1", None);
    assert_eq!(
        load_app_config("c.yaml", ConfigFile::Holds(config("data", "127.0.0.1", None))),
        Ok(good)
    );
    assert_eq!(
        load_app_config("c.yaml", ConfigFile::Unreadable("no file".to_string())),
        Err("failed to read config 'c.yaml': no file".to_string())
    );
    assert_eq!(
        load_app_config("c.yaml", ConfigFile::Malformed("bad".to_string())),
        Err("invalid config 'c.yaml': bad".to_string())
    );
    assert_eq!(
        load_app_config("c.yaml", ConfigFile::Holds(config("", "h", None))),
        Err("invalid config 'c.yaml': data_dir is required".to_string())
    );
}

#[test]
fn authentication_is_disabled_unless_enabled() {
    assert_eq!(basic_auth_runtime(None), Ok(None));
    assert_eq!(basic_auth_runtime(Some(&auth(false, Some("u"), Some("p")))), Ok(None));
}

#[test]
fn the_expected_header() {
    let runtime = basic_auth_runtime(Some(&auth(true, Some("Aladdin"), Some("open sesame"))));
    assert_eq!(
        runtime,
        Ok(Some(BasicAuthRuntime {
            expected_header: "Basic QWxhZGRpbjpvcGVuIHNlc2FtZQ==".to_string()
        }))
    );
    let runtime = basic_auth_runtime(Some(&auth(true, Some("é"), Some(""))));
    assert_eq!(runtime.unwrap().unwrap().expected_header, "Basic w6k6");
    let header = |u: &str, p: &str| {
        basic_auth_runtime(Some(&auth(true, Some(u), Some(p)))).unwrap().unwrap().expected_header
    };
    assert_eq!(header("", ""), "Basic Og==");
    assert_eq!(header("a", ""), "Basic YTo=");
    assert_eq!(header("??>", "~~~"), "Basic Pz8+On5+fg==");
    assert_eq!(header("\u{7ff}", "\u{ffff}"), "Basic 378677+/");
}

#[test]
fn missing_credentials() {
    assert_eq!(
        basic_auth_runtime(Some(&auth(true, None, None))),
        Err("basic_auth.username is required when enabled".to_string())
    );
    assert_eq!(
        basic_auth_runtime(Some(&auth(true, Some("u"), None))),
        Err("basic_auth.password is required when enabled".to_string())
    );
}

#[test]
fn different_credentials_give_different_headers() {
    let header = |u: &str, p: &str| {
        basic_auth_runtime(Some(&auth(true, Some(u), Some(p)))).unwrap().unwrap().expected_header
    };
    assert_ne!(header("u", "p"), header("u", "q"));
    assert_ne!(header("a", "b"), header("ab", ""));
    assert_eq!(header("a:b", "c"), header("a", "b:c"));
}

#[test]
fn bytes_are_compared() {
    assert!(constant_time_eq(b"", b""));
    assert!(constant_time_eq(b"abc", b"abc"));
    assert!(!constant_time_eq(b"abc", b"abd"));
    assert!(!constant_time_eq(b"abc", b"ab"));
    assert!(!constant_time_eq(&[0, 255], &[255, 0]));
}

#[test]
fn broken_lines() {
    assert!(contains_crlf("a\rb"));
    assert!(contains_crlf("\n"));
    assert!(!contains_crlf("a b"));
    assert!(!request_has_crlf(&head("GET", "/", &[("a", "b")])));
    assert!(request_has_crlf(&head("GET", "/\n", &[])));
    assert!(request_has_crlf(&head("GET", "/", &[("a", "b\rc")])));
    assert!(request_has_crlf(&head("GET", "/", &[("a\n", "b")])));
    let mut h = head("GET", "/", &[]);
    h.query = Some("x=\r".to_string());
    assert!(request_has_crlf(&h));
    h.query = Some("x=1".to_string());
    assert!(!request_has_crlf(&h));
    h.headers.push(Header { name: "x".to_string(), value: None });
    assert!(request_has_crlf(&h));
}

#[test]
fn broken_requests_are_refused() {
    let r = security_middleware(&head("GET", "/vpnman/api/cas\r", &[]), &None).unwrap();
    assert_eq!(r.failure.status, 400);
    assert_eq!(r.failure.code, "invalid_crlf");
    assert_eq!(r.failure.message, "request contains invalid CR/LF characters");
    assert_eq!(r.challenge, None);
    assert!(r.api);
    let r = security_middleware(&head("GET", "/vpnman/\r", &[]), &None).unwrap();
    assert!(!r.api);
}

#[test]
fn credentials_are_asked_for() {
    let auth = basic_auth_runtime(Some(&auth(true, Some("u"), Some("p")))).unwrap();
    let expected = auth.as_ref().unwrap().expected_header.clone();
    let r = security_middleware(&head("GET", "/vpnman/api/cas", &[]), &auth).unwrap();
    assert_eq!(r.failure.status, 401);
    assert_eq!(r.failure.code, "authentication_required");
    assert_eq!(r.failure.message, "authentication required");
    assert_eq!(r.challenge, Some("Basic realm=\"vpnman\""));
    assert!(r.api);
    let good = head("GET", "/vpnman/", &[("authorization", &expected)]);
    assert_eq!(security_middleware(&good, &auth), None);
    let bad = head("GET", "/vpnman/", &[("authorization", "Basic x"), ("authorization", &expected)]);
    assert_eq!(status(security_middleware(&bad, &auth)), Some(401));
    assert_eq!(security_middleware(&bad, &None), None);
}

#[test]
fn cross_site_writes_are_refused() {
    for method in ["POST", "PUT", "PATCH", "DELETE"] {
        let h = head(method, "/vpnman/api/configs", &[("sec-fetch-site", "cross-site")]);
        let r = security_middleware(&h, &None).unwrap();
        assert_eq!(r.failure.status, 403);
        assert_eq!(r.failure.code, "cross_site_request");
        assert_eq!(r.failure.message, "cross-site request rejected");
        assert!(r.api);
        let h = head(method, "/x", &[("origin", "https://evil.example"), ("host", "vpn.local")]);
        assert_eq!(status(security_middleware(&h, &None)), Some(403));
    }
    let h = head("POST", "/x", &[("sec-fetch-site", "same-site"), ("host", "h")]);
    assert_eq!(status(security_middleware(&h, &None)), Some(403));
    let h = head("POST", "/x", &[("origin", "null"), ("host", "h")]);
    assert_eq!(status(security_middleware(&h, &None)), Some(403));
    let h = head("POST", "/x", &[("origin", "http://h")]);
    assert_eq!(status(security_middleware(&h, &None)), Some(403));
    let h = head("POST", "/x", &[("origin", "http://h:8081"), ("host", "h:8080")]);
    assert_eq!(status(security_middleware(&h, &None)), Some(403));
}

#[test]
fn same_origin_writes_are_let_through() {
    let h = head("POST", "/x", &[("origin", "http://H:8080"), ("host", "h:8080")]);
    assert_eq!(security_middleware(&h, &None), None);
    let h = head("POST", "/x", &[("sec-fetch-site", "same-origin"), ("origin", "http://proxy")]);
    assert_eq!(security_middleware(&h, &None), None);
    let h = head("POST", "/x", &[("sec-fetch-site", "none")]);
    assert_eq!(security_middleware(&h, &None), None);
}

#[test]
fn writes_from_foreign_pages_are_refused() {
    for page in ["https://evil.example/form", "http://h.evil.example", "about:blank", ""] {
        let h = head("POST", "/x", &[("referer", page), ("host", "h")]);
        assert_eq!(status(security_middleware(&h, &None)), Some(403), "{page}");
    }
    let h = head("POST", "/x", &[("referer", "http://h/")]);
    assert_eq!(status(security_middleware(&h, &None)), Some(403));
    let h = head("POST", "/x", &[("referer", "http://evil/?http://h/"), ("host", "h")]);
    assert_eq!(status(security_middleware(&h, &None)), Some(403));
    let h = head("POST", "/x", &[("origin", "http://evil"), ("referer", "http://h/"), ("host", "h")]);
    assert_eq!(status(security_middleware(&h, &None)), Some(403));
}

#[test]
fn writes_from_own_pages_are_let_through() {
    for page in ["http://h:80/vpnman/", "https://H:80", "http://h:80?a/b", "http://h:80#x"] {
        let h = head("POST", "/x", &[("referer", page), ("host", "h:80")]);
        assert_eq!(security_middleware(&h, &None), None, "{page}");
    }
    let h = head("GET", "/x", &[("referer", "http://evil/"), ("host", "h")]);
    assert_eq!(security_middleware(&h, &None), None);
}

#[test]
fn names_of_headers_are_read_in_any_case() {
    let h = head("POST", "/x", &[("Sec-Fetch-Site", "cross-site")]);
    assert_eq!(status(security_middleware(&h, &None)), Some(403));
    let h = head("POST", "/x", &[("ORIGIN", "http://evil"), ("Host", "h")]);
    assert_eq!(status(security_middleware(&h, &None)), Some(403));
    let auth = basic_auth_runtime(Some(&auth(true, Some("u"), Some("p")))).unwrap();
    let expected = auth.as_ref().unwrap().expected_header.clone();
    let h = head("GET", "/x", &[("Authorization", &expected)]);
    assert_eq!(security_middleware(&h, &auth), None);
}

#[test]
fn other_clients_are_let_through() {
    let auth = basic_auth_runtime(Some(&auth(true, Some("u"), Some("p")))).unwrap();
    let expected = auth.as_ref().unwrap().expected_header.clone();
    let h = head("POST", "/vpnman/api/configs", &[("host", "h"), ("authorization", &expected)]);
    assert_eq!(security_middleware(&h, &auth), None);
}

#[test]
fn reading_is_let_through_from_anywhere() {
    let h = head("GET", "/x", &[("sec-fetch-site", "cross-site"), ("origin", "http://evil")]);
    assert_eq!(security_middleware(&h, &None), None);
    let h = head("HEAD", "/x", &[("sec-fetch-site", "cross-site")]);
    assert_eq!(security_middleware(&h, &None), None);
}
