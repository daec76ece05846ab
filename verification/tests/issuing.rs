use vpnman::api::{
    api_error, api_failure, api_get_profile, api_list_cas, api_list_profiles,
    api_list_templates, api_ok, issued_config, listed_cas, load_api_profile, resolve_api_ca_id,
    ApiFailure, ApiProfile, ProfileMetadata,
};
use vpnman::clock::Timestamp;
use vpnman::issue::{check_material, collect_parameters, compose_profile, IssueConfigInput};
use vpnman::issue_flow::{
    issue_openvpn_config, issue_step, IssueAction, IssueEvent, IssueState, IssueTurn,
};
use vpnman::minica::{
    default_minica_config, CertIdResponse, Method, MinicaCa, MinicaCert, MinicaConfig,
};
use vpnman::requests::{api_issue_config, generate_profile, GenerateForm, IssueConfigRequest};
use vpnman::string_map::StringMap;
use vpnman::templates::{load_template, Template, TemplateMetadata};
use vpnman::variables::{VariableKind, VariableMetadata};

fn values(entries: &[(&str, &str)]) -> StringMap<String> {
    let mut m = StringMap::new();
    for (k, v) in entries {
        m.insert(k.to_string(), v.to_string());
    }
    m
}

fn template(body: &str) -> Template {
    let metadata = TemplateMetadata {
        name: "Office".to_string(),
        description: String::new(),
        token_start: "%".to_string(),
        token_stop: "%".to_string(),
        variables: StringMap::new(),
    };
    load_template("t1", body.to_string(), metadata).unwrap()
}

fn input(parameters: &[(&str, &str)]) -> IssueConfigInput {
    IssueConfigInput {
        template_id: "t1".to_string(),
        ca_id: "c1".to_string(),
        client_name: "Laptop 01".to_string(),
        tags: vec!["x".to_string()],
        parameters: values(parameters),
    }
}

fn settings() -> MinicaConfig {
    default_minica_config()
}

fn ca(pem: &str) -> MinicaCa {
    MinicaCa { id: "c1".to_string(), common_name: "My CA".to_string(), cert_pem: pem.to_string() }
}

fn cert(pem: &str, key: &str) -> MinicaCert {
    MinicaCert {
        id: "x1".to_string(),
        common_name: "Laptop 01".to_string(),
        cert_pem: pem.to_string(),
        key_pem: key.to_string(),
    }
}

fn failure_of(turn: IssueTurn) -> (u16, &'static str, String) {
    assert_eq!(turn.next, IssueState::Done);
    match turn.action {
        IssueAction::Finish(Err(f)) => (f.status, f.code, f.message),
        other => panic!("{other:?}"),
    }
}

fn text(s: &str) -> String {
    s.to_string()
}

const BODY: &str = "remote %server_host%\n<ca>%ca_cert%</ca>\n<cert>%client_cert%</cert>\n<key>%client_key%</key>\n";

fn at_ca() -> IssueState {
    let turn = issue_openvpn_config(input(&[("server_host", "vpn.example.com")]));
    assert_eq!(turn.action, IssueAction::ReadConfig);
    let turn = issue_step(turn.next, IssueEvent::Config(Ok(settings())));
    assert_eq!(turn.action, IssueAction::LoadTemplate { id: text("t1") });
    let turn = issue_step(turn.next, IssueEvent::Loaded(Ok(template(BODY))));
    match turn.action {
        IssueAction::GetCa(request) => {
            assert_eq!(request.url, "http://localhost:9988/api/cas/c1");
            assert_eq!(request.method, Method::Get);
        }
        other => panic!("{other:?}"),
    }
    turn.next
}

fn at_cert() -> IssueState {
    let turn = issue_step(at_ca(), IssueEvent::Ca(Ok(ca(" CA \n"))));
    match turn.action {
        IssueAction::GetCertId(request) => {
            assert_eq!(request.url, "http://localhost:9988/api/cas/c1/certs_by_cn");
            assert_eq!(request.cn, Some(text("Laptop 01")));
        }
        other => panic!("{other:?}"),
    }
    turn.next
}

fn at_csrf() -> IssueState {
    let turn = issue_step(at_cert(), IssueEvent::CertId(Err(text("not found"))));
    match turn.action {
        IssueAction::GetCsrf(request) => {
            assert_eq!(request.url, "http://localhost:9988/api/csrf");
        }
        other => panic!("{other:?}"),
    }
    turn.next
}

fn at_stamp() -> IssueState {
    let turn = issue_step(at_csrf(), IssueEvent::Csrf(Ok(text("tok"))));
    let turn = issue_step(turn.next, IssueEvent::Cert(Ok(cert("\nCERT\n", " KEY "))));
    assert_eq!(turn.action, IssueAction::MakeStamp { prefix: text("laptop-01") });
    turn.next
}

fn at_save() -> IssueState {
    let created_at = Timestamp { seconds: 7, nanos: 8 };
    let turn = issue_step(at_stamp(), IssueEvent::Stamp { id: text("id-1"), created_at });
    assert_eq!(turn.action, IssueAction::Save);
    turn.next
}

#[test]
fn a_configuration_is_issued_with_a_new_certificate() {
    let turn = issue_step(at_csrf(), IssueEvent::Csrf(Ok(text("tok"))));
    match &turn.action {
        IssueAction::CreateCert(request) => {
            assert_eq!(request.method, Method::Put);
            assert_eq!(request.url, "http://localhost:9988/api/cas/c1/certs");
            assert_eq!(request.csrf, Some(text("tok")));
            let payload = request.payload.as_ref().unwrap();
            assert_eq!(payload.common_name, "Laptop 01");
            assert_eq!(payload.defaults, settings().cert_defaults);
        }
        other => panic!("{other:?}"),
    }
    let profile = match at_save() {
        IssueState::Saving { profile } => profile,
        other => panic!("{other:?}"),
    };
    assert_eq!(profile.id, "id-1");
    assert_eq!(
        profile.profile,
        "remote vpn.example.com\n<ca>CA</ca>\n<cert>CERT</cert>\n<key>KEY</key>\n"
    );
    let m = &profile.metadata;
    assert_eq!(m.client_name, "Laptop 01");
    assert_eq!((m.template_id.as_str(), m.template_name.as_str()), ("t1", "Office"));
    assert_eq!((m.ca_id.as_str(), m.ca_common_name.as_str()), ("c1", "My CA"));
    assert_eq!(m.cert_id, "x1");
    assert_eq!(m.tags, vec!["x"]);
    assert_eq!(m.created_at, Timestamp { seconds: 7, nanos: 8 });
    assert_eq!(m.variables, values(&[("server_host", "vpn.example.com")]));
    let turn = issue_step(at_save(), IssueEvent::Saved(Ok(())));
    assert_eq!(turn.next, IssueState::Done);
    assert_eq!(turn.action, IssueAction::Finish(Ok(profile)));
}

#[test]
fn a_certificate_that_exists_is_used() {
    let found = CertIdResponse { id: text("x1") };
    let turn = issue_step(at_cert(), IssueEvent::CertId(Ok(found)));
    match &turn.action {
        IssueAction::GetCert(request) => {
            assert_eq!(request.method, Method::Get);
            assert_eq!(request.url, "http://localhost:9988/api/cas/c1/certs/x1");
            assert_eq!(request.csrf, None);
        }
        other => panic!("{other:?}"),
    }
    let turn = issue_step(turn.next, IssueEvent::Cert(Ok(cert("CERT", "KEY"))));
    assert_eq!(turn.action, IssueAction::MakeStamp { prefix: text("laptop-01") });
}

#[test]
fn without_settings_nothing_is_issued() {
    let turn = issue_openvpn_config(input(&[]));
    let f = failure_of(issue_step(turn.next, IssueEvent::Config(Err(text("no file")))));
    assert_eq!(f, (500, "minica_config_missing", text("no file")));
}

#[test]
fn without_a_template_nothing_is_issued() {
    let turn = issue_openvpn_config(input(&[]));
    let turn = issue_step(turn.next, IssueEvent::Config(Ok(settings())));
    let f = failure_of(issue_step(turn.next, IssueEvent::Loaded(Err(text("no file")))));
    assert_eq!(f, (404, "template_not_found", text("no file")));
}

#[test]
fn without_required_parameters_minica_is_asked_for_nothing() {
    let turn = issue_openvpn_config(input(&[("server_host", "  ")]));
    let turn = issue_step(turn.next, IssueEvent::Config(Ok(settings())));
    let f = failure_of(issue_step(turn.next, IssueEvent::Loaded(Ok(template(BODY)))));
    assert_eq!(f, (400, "missing_required_parameter", text("server_host is required")));
}

#[test]
fn without_a_certificate_authority_nothing_is_issued() {
    let f = failure_of(issue_step(at_ca(), IssueEvent::Ca(Err(text("down")))));
    assert_eq!(f, (502, "failed_to_load_ca", text("down")));
}

#[test]
fn without_a_certificate_nothing_is_issued() {
    let expected = (502, "failed_to_get_client_certificate", text("down"));
    assert_eq!(failure_of(issue_step(at_csrf(), IssueEvent::Csrf(Err(text("down"))))), expected);
    let turn = issue_step(at_csrf(), IssueEvent::Csrf(Ok(text("tok"))));
    assert_eq!(failure_of(issue_step(turn.next, IssueEvent::Cert(Err(text("down"))))), expected);
    let found = CertIdResponse { id: text("x1") };
    let turn = issue_step(at_cert(), IssueEvent::CertId(Ok(found)));
    assert_eq!(failure_of(issue_step(turn.next, IssueEvent::Cert(Err(text("down"))))), expected);
}

#[test]
fn without_material_nothing_is_issued() {
    let turn = issue_step(at_csrf(), IssueEvent::Csrf(Ok(text("tok"))));
    let f = failure_of(issue_step(turn.next, IssueEvent::Cert(Ok(cert("CERT", " \n")))));
    let message = text("Minica certificate response did not include cert_pem and key_pem");
    assert_eq!(f, (502, "missing_client_material", message));
}

#[test]
fn a_profile_that_cannot_be_written_is_a_failure() {
    let f = failure_of(issue_step(at_save(), IssueEvent::Saved(Err(text("disk full")))));
    assert_eq!(f, (500, "failed_to_save_profile", text("disk full")));
}

#[test]
fn parameters_are_collected() {
    let mut t = template("%a% %b_port% %ca_cert%");
    let vars = collect_parameters(&t, &values(&[("a", "1"), ("b_port", "22"), ("c", "3")]));
    assert_eq!(vars, Ok(values(&[("a", "1"), ("b_port", "22")])));
    let f = collect_parameters(&t, &values(&[("a", "1"), ("b_port", "0")])).unwrap_err();
    assert_eq!((f.status, f.code), (400, "invalid_parameter"));
    assert_eq!(f.message, "b_port must be at least 1");
    let optional = VariableMetadata {
        kind: VariableKind::Text,
        description: String::new(),
        default: text("d"),
        options: String::new(),
        min: None,
        max: None,
        required: false,
    };
    t.metadata.variables.insert(text("a"), optional);
    let vars = collect_parameters(&t, &values(&[("b_port", "22")]));
    assert_eq!(vars, Ok(values(&[("a", ""), ("b_port", "22")])));
}

#[test]
fn the_first_refused_parameter_is_reported() {
    let t = template("%b% %a%");
    let f = collect_parameters(&t, &values(&[])).unwrap_err();
    assert_eq!(f.message, "a is required");
}

#[test]
fn material_is_checked() {
    assert_eq!(check_material(&ca("CA"), &cert("C", "K")), Ok(()));
    let f = check_material(&ca(" "), &cert("", "")).unwrap_err();
    assert_eq!((f.status, f.code), (502, "missing_ca_cert"));
    assert_eq!(f.message, "Minica CA response did not include cert_pem");
    let f = check_material(&ca("CA"), &cert(" ", "K")).unwrap_err();
    assert_eq!(f.code, "missing_client_material");
}

#[test]
fn material_wins_over_parameters() {
    let profile = compose_profile(
        input(&[]),
        template("%ca_cert%|%x%"),
        values(&[("ca_cert", "forged"), ("x", "1")]),
        ca(" real "),
        cert("C", "K"),
        text("id"),
        Timestamp { seconds: 0, nanos: 0 },
    );
    assert_eq!(profile.profile, "real|1");
}

#[test]
fn forms_become_inputs() {
    let r = generate_profile(GenerateForm {
        template_id: text("t"),
        ca_id: text("c"),
        client_name: text("n"),
        tags: text(" a, ,b"),
        values: values(&[("var_x", "1"), ("other", "2"), ("var_", "3"), ("var_var_y", "4")]),
    });
    assert_eq!((r.template_id.as_str(), r.ca_id.as_str()), ("t", "c"));
    assert_eq!(r.client_name, "n");
    assert_eq!(r.tags, vec!["a", "b"]);
    assert_eq!(r.parameters, values(&[("x", "1"), ("", "3"), ("var_y", "4")]));
}

fn request(ca_id: Option<&str>) -> IssueConfigRequest {
    IssueConfigRequest {
        template_id: text("t"),
        ca_id: ca_id.map(|s| s.to_string()),
        client_name: text("n"),
        tags: vec![text("a,b")],
        parameters: values(&[("x", "1")]),
    }
}

fn with_default_ca(id: &str) -> MinicaConfig {
    let mut cfg = settings();
    cfg.default_ca_id = id.to_string();
    cfg
}

#[test]
fn requests_become_inputs() {
    let r = api_issue_config(Ok(request(Some(" c1 "))), Err(text("unused"))).unwrap();
    assert_eq!(r.ca_id, "c1");
    assert_eq!(r.tags, vec!["a,b"]);
    assert_eq!(r.parameters, values(&[("x", "1")]));
    let f = api_issue_config(Err(text("bad json")), Ok(settings())).unwrap_err();
    assert_eq!((f.status, f.code, f.message.as_str()), (400, "invalid_json", "bad json"));
}

#[test]
fn forms_and_requests_hand_over_the_same_parameters() {
    let form = generate_profile(GenerateForm {
        template_id: text("t"),
        ca_id: text("c1"),
        client_name: text("n"),
        tags: text("a"),
        values: values(&[("var_x", "1")]),
    });
    let api = api_issue_config(Ok(request(Some("c1"))), Ok(settings())).unwrap();
    assert_eq!(form.parameters, api.parameters);
}

#[test]
fn the_default_ca_is_used_where_none_is_named() {
    for requested in [None, Some(""), Some("  ")] {
        let r = api_issue_config(Ok(request(requested)), Ok(with_default_ca("dflt"))).unwrap();
        assert_eq!(r.ca_id, "dflt");
    }
}

#[test]
fn without_any_ca_a_request_fails() {
    let f = resolve_api_ca_id(None, Ok(with_default_ca(" "))).unwrap_err();
    assert_eq!((f.status, f.code), (400, "default_ca_missing"));
    assert_eq!(f.message, "ca_id was omitted and no default CA ID is configured");
    let f = resolve_api_ca_id(Some(""), Err(text("no file"))).unwrap_err();
    assert_eq!((f.status, f.code), (500, "minica_config_missing"));
    assert_eq!(f.message, "no file");
}

fn metadata(seconds: i64) -> ProfileMetadata {
    ProfileMetadata {
        client_name: text("n"),
        template_id: text("t"),
        template_name: text("T"),
        ca_id: text("c"),
        ca_common_name: text("C"),
        cert_id: text("x"),
        tags: Vec::new(),
        created_at: Timestamp { seconds, nanos: 0 },
        variables: StringMap::new(),
    }
}

#[test]
fn answers() {
    let r = api_ok(5u8);
    assert_eq!((r.status, r.envelope.success, r.envelope.data), (200, true, Some(5)));
    assert_eq!((r.envelope.error_code.as_str(), r.envelope.error_message.as_str()), ("", ""));
    let r = api_error::<u8>(404, "code", text("message"));
    assert_eq!((r.status, r.envelope.success, r.envelope.data), (404, false, None));
    assert_eq!(r.envelope.error_code, "code");
    assert_eq!(r.envelope.error_message, "message");
    let r = api_failure::<u8>(ApiFailure { status: 502, code: "c", message: text("m") });
    assert_eq!(r, api_error(502, "c", text("m")));
}

#[test]
fn listing_templates() {
    let r = api_list_templates(Ok(vec![template("%a%")]));
    assert_eq!(r.status, 200);
    let list = r.envelope.data.unwrap();
    assert_eq!(list.len(), 1);
    assert_eq!((list[0].id.as_str(), list[0].name.as_str()), ("t1", "Office"));
    assert_eq!((list[0].token_start.as_str(), list[0].token_stop.as_str()), ("%", "%"));
    let r = api_list_templates(Err(text("no dir")));
    assert_eq!(r, api_error(500, "failed_to_list_templates", text("no dir")));
}

#[test]
fn listing_profiles() {
    let r = api_list_profiles(Ok(vec![(text("p"), metadata(1)), (text("q"), metadata(2))]));
    let list = r.envelope.data.unwrap();
    assert_eq!((list[0].id.as_str(), list[1].id.as_str()), ("p", "q"));
    assert_eq!(list[1].metadata, metadata(2));
    let r = api_list_profiles(Err(text("no dir")));
    assert_eq!(r, api_error(500, "failed_to_list_profiles", text("no dir")));
}

#[test]
fn listing_certificate_authorities() {
    let request = api_list_cas(Ok(settings())).unwrap();
    assert_eq!(request.url, "http://localhost:9988/api/cas");
    let r = api_list_cas(Err(text("no file"))).unwrap_err();
    assert_eq!(r, api_error(500, "minica_config_missing", text("no file")));
    assert_eq!(listed_cas(Ok(vec![ca("C")])), api_ok(vec![ca("C")]));
    assert_eq!(listed_cas(Err(text("e"))), api_error(502, "failed_to_list_cas", text("e")));
}

#[test]
fn getting_a_profile() {
    let p = load_api_profile("p1", Ok(metadata(1)), Ok(text("client"))).unwrap();
    assert_eq!(
        p,
        ApiProfile { id: text("p1"), metadata: metadata(1), profile: text("client") }
    );
    assert_eq!(
        load_api_profile("p1", Err(text("m")), Err(text("t"))),
        Err(text("m"))
    );
    assert_eq!(load_api_profile("p1", Ok(metadata(1)), Err(text("t"))), Err(text("t")));
    assert_eq!(
        api_get_profile(Err(text("gone"))),
        api_error(404, "profile_not_found", text("gone"))
    );
    assert_eq!(api_get_profile(Ok(p)).status, 200);
}

#[test]
fn issued_configurations_are_handed_out() {
    let p = ApiProfile { id: text("p"), metadata: metadata(1), profile: text("c") };
    assert_eq!(issued_config(Ok(p)).envelope.data.unwrap().id, "p");
    let f = ApiFailure { status: 400, code: "invalid_parameter", message: text("m") };
    assert_eq!(issued_config(Err(f)), api_error(400, "invalid_parameter", text("m")));
}
