use vpnman::minica::{
    config_or_default, default_key_profile, default_minica_config, deletion_result,
    duplicate_strings, ensure_default_config, minica_create_cert, minica_delete_cert,
    minica_get_ca, minica_get_cert, minica_get_cert_id_by_cn, minica_get_csrf, minica_get_data,
    minica_list_cas, save_cert_defaults, save_minica_settings, trial_config, unwrap_envelope,
    ApiEnvelope, ApiError, CertDefaultsForm, CertPayload, Method, MinicaCa, MinicaCert,
    MinicaConfig, MinicaRequest, MinicaSettingsForm,
};
use vpnman::trials::{
    begin_trial, listing_outcome, test_cert_defaults, test_minica_settings, trial_step,
    TestResponse, TrialAction, TrialEvent, TrialState, TrialTurn,
};

fn settings(base_url: &str, default_ca_id: &str) -> MinicaConfig {
    let mut cfg = default_minica_config();
    cfg.base_url = base_url.to_string();
    cfg.default_ca_id = default_ca_id.to_string();
    cfg
}

fn get(url: &str) -> MinicaRequest {
    MinicaRequest {
        method: Method::Get,
        url: url.to_string(),
        username: "admin".to_string(),
        password: "adminpass".to_string(),
        cn: None,
        csrf: None,
        payload: None,
    }
}

fn defaults_form(dns_list: &str, ip_list: &str) -> CertDefaultsForm {
    CertDefaultsForm {
        base_url: None,
        username: None,
        password: None,
        default_ca_id: None,
        valid_days: 30,
        country_code: "DE".to_string(),
        organization: "Org".to_string(),
        state: "State".to_string(),
        city: "City".to_string(),
        organization_unit: "Unit".to_string(),
        digest_algorithm: "sha256".to_string(),
        key_profile: "rsa:2048".to_string(),
        dns_list: dns_list.to_string(),
        ip_list: ip_list.to_string(),
    }
}

fn cert(id: &str) -> MinicaCert {
    MinicaCert {
        id: id.to_string(),
        common_name: String::new(),
        cert_pem: String::new(),
        key_pem: String::new(),
    }
}

fn ca(id: &str) -> MinicaCa {
    MinicaCa { id: id.to_string(), common_name: "CA".to_string(), cert_pem: String::new() }
}

fn outcome(turn: TrialTurn) -> TestResponse {
    assert_eq!(turn.next, TrialState::Done);
    match turn.action {
        TrialAction::Finish(outcome) => outcome,
        other => panic!("{other:?}"),
    }
}

#[test]
fn initial_settings() {
    let cfg = default_minica_config();
    assert_eq!(cfg.base_url, "http://localhost:9988");
    assert_eq!((cfg.username.as_str(), cfg.password.as_str()), ("admin", "adminpass"));
    assert_eq!(cfg.default_ca_id, "");
    let d = &cfg.cert_defaults;
    assert_eq!(d.valid_days, 7300);
    assert_eq!((d.country_code.as_str(), d.organization.as_str()), ("SG", "Home"));
    assert_eq!((d.state.as_str(), d.city.as_str()), ("Singapore", "Singapore"));
    assert_eq!((d.organization_unit.as_str(), d.digest_algorithm.as_str()), ("VPN", "sha512"));
    assert_eq!(d.key_profile, default_key_profile());
    assert_eq!(d.key_profile, "rsa:4096");
    assert!(d.dns_list.is_empty() && d.ip_list.is_empty());
}

#[test]
fn settings_are_written_once() {
    assert_eq!(ensure_default_config(true), None);
    assert_eq!(ensure_default_config(false), Some(default_minica_config()));
    assert_eq!(config_or_default(None), default_minica_config());
    assert_eq!(config_or_default(Some(settings("x", "y"))), settings("x", "y"));
}

#[test]
fn duplicates_are_equal() {
    let cfg = default_minica_config();
    assert_eq!(cfg.cert_defaults.duplicate(), cfg.cert_defaults);
    assert_eq!(duplicate_strings(&vec!["a".to_string()]), vec!["a".to_string()]);
}

#[test]
fn saving_settings_keeps_the_certificate_defaults() {
    let mut current = settings("http://old", "ca-1");
    current.cert_defaults.valid_days = 5;
    let saved = save_minica_settings(
        Some(current),
        MinicaSettingsForm {
            base_url: "  http://new:1/// ".to_string(),
            username: " u ".to_string(),
            password: "p".to_string(),
            default_ca_id: "ca-2".to_string(),
        },
    );
    assert_eq!(saved.base_url, "http://new:1");
    assert_eq!(saved.username, " u ");
    assert_eq!(saved.password, "p");
    assert_eq!(saved.default_ca_id, "ca-2");
    assert_eq!(saved.cert_defaults.valid_days, 5);
}

#[test]
fn saving_certificate_defaults_keeps_what_the_form_does_not_hold() {
    let saved = save_cert_defaults(Some(settings("http://h", "ca-1")), defaults_form("a, b,", ""));
    assert_eq!(saved.base_url, "http://h");
    assert_eq!(saved.default_ca_id, "ca-1");
    assert_eq!(saved.username, "admin");
    assert_eq!(saved.cert_defaults.valid_days, 30);
    assert_eq!(saved.cert_defaults.dns_list, vec!["a", "b"]);
    assert!(saved.cert_defaults.ip_list.is_empty());
}

#[test]
fn saving_certificate_defaults_takes_what_the_form_holds() {
    let mut form = defaults_form("", "10.0.0.1");
    form.base_url = Some(" http://n/ ".to_string());
    form.username = Some("u".to_string());
    form.password = Some("w".to_string());
    form.default_ca_id = Some("ca-9".to_string());
    let saved = save_cert_defaults(None, form);
    assert_eq!(saved.base_url, "http://n");
    assert_eq!((saved.username.as_str(), saved.password.as_str()), ("u", "w"));
    assert_eq!(saved.default_ca_id, "ca-9");
    assert_eq!(saved.cert_defaults.ip_list, vec!["10.0.0.1"]);
    assert_eq!(saved.cert_defaults.organization_unit, "Unit");
}

#[test]
fn a_trial_uses_the_saved_address() {
    let mut form = defaults_form("", "");
    form.base_url = Some("http://elsewhere".to_string());
    let cfg = trial_config(Some(settings("http://h", "ca-1")), form);
    assert_eq!(cfg.base_url, "http://h");
    assert_eq!(cfg.default_ca_id, "ca-1");
    assert_eq!(cfg.cert_defaults.country_code, "DE");
}

#[test]
fn reading_requests() {
    let cfg = settings("http://h//", "");
    assert_eq!(minica_get_data(&cfg, "/x"), get("http://h/x"));
    assert_eq!(minica_list_cas(&cfg), get("http://h/api/cas"));
    assert_eq!(minica_get_ca(&cfg, "c1"), get("http://h/api/cas/c1"));
    assert_eq!(minica_get_cert(&cfg, "c1", "x1"), get("http://h/api/cas/c1/certs/x1"));
    assert_eq!(minica_get_csrf(&cfg), get("http://h/api/csrf"));
    let mut expected = get("http://h/api/cas/c1/certs_by_cn");
    expected.cn = Some("laptop 01".to_string());
    assert_eq!(minica_get_cert_id_by_cn(&cfg, "c1", "laptop 01"), expected);
}

#[test]
fn writing_requests_carry_the_token() {
    let cfg = settings("http://h", "");
    let mut expected = get("http://h/api/cas/c1/certs");
    expected.method = Method::Put;
    expected.csrf = Some("tok".to_string());
    expected.payload = Some(CertPayload {
        common_name: "laptop".to_string(),
        defaults: default_minica_config().cert_defaults,
    });
    assert_eq!(minica_create_cert(&cfg, "c1", "laptop", "tok".to_string()), expected);
    let mut expected = get("http://h/api/cas/c1/certs/x1");
    expected.method = Method::Delete;
    expected.csrf = Some("tok".to_string());
    assert_eq!(minica_delete_cert(&cfg, "c1", "x1", "tok".to_string()), expected);
}

#[test]
fn answers_of_minica() {
    let ok = ApiEnvelope { data: Some(7u8), error: None, success: true };
    assert_eq!(unwrap_envelope(ok), Ok(7));
    let empty: ApiEnvelope<u8> = ApiEnvelope { data: None, error: None, success: true };
    assert_eq!(unwrap_envelope(empty), Err("Minica response did not include data".to_string()));
    let failed: ApiEnvelope<u8> = ApiEnvelope { data: Some(1), error: None, success: false };
    assert_eq!(unwrap_envelope(failed), Err("Minica request failed".to_string()));
    let error = ApiError { message: "no such CA".to_string(), status: Some(404) };
    let failed: ApiEnvelope<u8> = ApiEnvelope { data: None, error: Some(error), success: false };
    assert_eq!(unwrap_envelope(failed), Err("no such CA (404)".to_string()));
    let error = ApiError { message: "oops".to_string(), status: None };
    let failed: ApiEnvelope<u8> = ApiEnvelope { data: None, error: Some(error), success: false };
    assert_eq!(unwrap_envelope(failed), Err("oops".to_string()));
}

#[test]
fn deletions_need_no_data() {
    let done: ApiEnvelope<u8> = ApiEnvelope { data: None, error: None, success: true };
    assert_eq!(deletion_result(done), Ok(()));
    let failed: ApiEnvelope<u8> = ApiEnvelope { data: None, error: None, success: false };
    assert_eq!(deletion_result(failed), Err("Minica request failed".to_string()));
}

#[test]
fn settings_are_tried_by_listing() {
    let request = test_minica_settings(
        Some(settings("http://old", "")),
        MinicaSettingsForm {
            base_url: "http://new/".to_string(),
            username: "u".to_string(),
            password: "w".to_string(),
            default_ca_id: String::new(),
        },
    );
    let mut expected = get("http://new/api/cas");
    expected.username = "u".to_string();
    expected.password = "w".to_string();
    assert_eq!(request, expected);
    let listed = listing_outcome(Ok(vec![ca("a"), ca("b")]));
    assert!(listed.ok);
    assert_eq!(listed.message, "OK: listed 2 CA(s)");
    assert_eq!(listed.cas, vec![ca("a"), ca("b")]);
    let failed = listing_outcome(Err("refused".to_string()));
    assert!(!failed.ok);
    assert_eq!(failed.message, "Not OK: refused");
    assert!(failed.cas.is_empty());
}

#[test]
fn a_trial_needs_a_default_ca() {
    let r = outcome(begin_trial(settings("http://h", "  "), "test-1".to_string()));
    assert!(!r.ok);
    assert_eq!(r.message, "Not OK: Default CA ID is required for certificate test");
}

#[test]
fn a_trial_that_succeeds() {
    let turn = begin_trial(settings("http://h", "c1"), "test-1".to_string());
    assert_eq!(turn.action, TrialAction::GetCsrf(get("http://h/api/csrf")));
    let turn = trial_step(turn.next, TrialEvent::Csrf(Ok("one".to_string())));
    match &turn.action {
        TrialAction::CreateCert(request) => {
            assert_eq!(request.method, Method::Put);
            assert_eq!(request.url, "http://h/api/cas/c1/certs");
            assert_eq!(request.csrf, Some("one".to_string()));
            assert_eq!(request.payload.as_ref().unwrap().common_name, "test-1");
        }
        other => panic!("{other:?}"),
    }
    let turn = trial_step(turn.next, TrialEvent::Created(Ok(cert("x9"))));
    assert_eq!(turn.action, TrialAction::GetCsrf(get("http://h/api/csrf")));
    let turn = trial_step(turn.next, TrialEvent::Csrf(Ok("two".to_string())));
    match &turn.action {
        TrialAction::DeleteCert(request) => {
            assert_eq!(request.method, Method::Delete);
            assert_eq!(request.url, "http://h/api/cas/c1/certs/x9");
            assert_eq!(request.csrf, Some("two".to_string()));
        }
        other => panic!("{other:?}"),
    }
    let r = outcome(trial_step(turn.next, TrialEvent::Deleted(Ok(()))));
    assert!(r.ok);
    assert_eq!(r.message, "OK: issued and deleted test-1");
}

#[test]
fn a_trial_that_issues_nothing() {
    let turn = begin_trial(settings("http://h", "c1"), "test-1".to_string());
    let r = outcome(trial_step(turn.next, TrialEvent::Csrf(Err("down".to_string()))));
    assert_eq!((r.ok, r.message.as_str()), (false, "Not OK: can't test: down"));

    let turn = begin_trial(settings("http://h", "c1"), "test-1".to_string());
    let turn = trial_step(turn.next, TrialEvent::Csrf(Ok("t".to_string())));
    let r = outcome(trial_step(turn.next, TrialEvent::Created(Err("denied".to_string()))));
    assert_eq!((r.ok, r.message.as_str()), (false, "Not OK: can't test: denied"));
}

#[test]
fn a_trial_that_leaves_a_certificate() {
    let expected = "Not OK: issued test-1, but could not delete it: gone";
    let turn = begin_trial(settings("http://h", "c1"), "test-1".to_string());
    let turn = trial_step(turn.next, TrialEvent::Csrf(Ok("t".to_string())));
    let turn = trial_step(turn.next, TrialEvent::Created(Ok(cert("x"))));
    let r = outcome(trial_step(turn.next, TrialEvent::Csrf(Err("gone".to_string()))));
    assert_eq!((r.ok, r.message.as_str()), (false, expected));

    let turn = begin_trial(settings("http://h", "c1"), "test-1".to_string());
    let turn = trial_step(turn.next, TrialEvent::Csrf(Ok("t".to_string())));
    let turn = trial_step(turn.next, TrialEvent::Created(Ok(cert("x"))));
    let turn = trial_step(turn.next, TrialEvent::Csrf(Ok("t".to_string())));
    let r = outcome(trial_step(turn.next, TrialEvent::Deleted(Err("gone".to_string()))));
    assert_eq!((r.ok, r.message.as_str()), (false, expected));
}

#[test]
fn a_trial_has_a_random_name() {
    let turn = test_cert_defaults(Some(settings("http://h", "c1")), defaults_form("", ""));
    match turn.next {
        TrialState::FetchingCreateToken { cfg, name } => {
            assert_eq!(cfg.cert_defaults.valid_days, 30);
            assert_eq!(name.len(), 10);
            assert!(name.starts_with("test-"));
            assert!(name[5..].chars().all(|c| c.is_ascii_hexdigit() && !c.is_ascii_uppercase()));
        }
        other => panic!("{other:?}"),
    }
}
