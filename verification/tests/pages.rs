use vpnman::api::{ApiFailure, ApiProfile, ProfileMetadata};
use vpnman::assets::{CSS, JS};
use vpnman::clock::{current_time, Timestamp};
use vpnman::editing::PageFailure;
use vpnman::html::{
    ca_options, ca_select_options, esc, key_profile_options, map_rows, render_parameter_chips,
    render_template_variable_inputs,
};
use vpnman::minica::{default_minica_config, MinicaCa};
use vpnman::openapi::openapi_spec;
use vpnman::pages::{
    cert_defaults_saved, config_page, download_profile, edit_template, error_page, failure_page,
    generate_form, index, locate_profile, locate_template, minica_settings,
    minica_settings_saved, nav_class, page, page_with_heading, page_without_heading,
    profile_deleted, profile_detail, profile_generated, profile_page, profiles_index,
    profiles_page, root_redirect, swagger_explorer, template_created, template_deleted,
    template_page, template_saved, templates_index, Answer,
};
use vpnman::string_map::StringMap;
use vpnman::templates::{load_template, Template, TemplateMetadata};
use vpnman::variables::{VariableKind, VariableMetadata};

fn text(s: &str) -> String {
    s.to_string()
}

fn values(entries: &[(&str, &str)]) -> StringMap<String> {
    let mut m = StringMap::new();
    for (k, v) in entries {
        m.insert(k.to_string(), v.to_string());
    }
    m
}

fn template(id: &str, name: &str, body: &str) -> Template {
    let metadata = TemplateMetadata {
        name: name.to_string(),
        description: text("<d>"),
        token_start: text("%"),
        token_stop: text("%"),
        variables: StringMap::new(),
    };
    load_template(id, body.to_string(), metadata).unwrap()
}

fn variable(kind: VariableKind, default: &str, required: bool) -> VariableMetadata {
    VariableMetadata {
        kind,
        description: text("he\"lp"),
        default: default.to_string(),
        options: text("a, b"),
        min: None,
        max: None,
        required,
    }
}

fn ca(id: &str, name: &str) -> MinicaCa {
    MinicaCa { id: id.to_string(), common_name: name.to_string(), cert_pem: String::new() }
}

fn metadata(seconds: i64) -> ProfileMetadata {
    ProfileMetadata {
        client_name: text("Lap<top>"),
        template_id: text("t"),
        template_name: text("Office"),
        ca_id: text("c"),
        ca_common_name: text("My CA"),
        cert_id: text("x1"),
        tags: vec![text("a"), text("b")],
        created_at: Timestamp { seconds, nanos: 0 },
        variables: values(&[("host", "<h>")]),
    }
}

fn html(answer: Answer) -> (u16, String) {
    match answer {
        Answer::Page { status, html } => (status, html),
        other => panic!("{other:?}"),
    }
}

fn error_text(answer: Answer) -> String {
    let (status, html) = html(answer);
    assert_eq!(status, 500);
    let start = html.find("<p class=\"error\">").unwrap() + 17;
    let stop = start + html[start..].find("</p>").unwrap();
    html[start..stop].to_string()
}

#[test]
fn escaping() {
    assert_eq!(esc("<a href=\"x\">'&'</a>"), "&lt;a href=&quot;x&quot;&gt;&#39;&amp;&#39;&lt;/a&gt;");
    assert_eq!(esc("&amp;"), "&amp;amp;");
    assert_eq!(esc("plain é"), "plain é");
    assert_eq!(esc(""), "");
}

#[test]
fn escaped_texts_are_inert_and_distinct() {
    let all = ["<", ">", "\"", "'", "&", "&lt;", "a", "", "<>", "&#39;"];
    for a in all {
        assert!(!esc(a).contains(['<', '>', '"', '\'']));
        for b in all {
            assert_eq!(esc(a) == esc(b), a == b);
        }
    }
}

#[test]
fn classes_of_links() {
    assert_eq!(nav_class("Home", "Home"), "nav-link active");
    assert_eq!(nav_class("Home", "Other"), "nav-link");
}

#[test]
fn the_frame_of_a_page() {
    let p = page("A & B", "<p>body {}</p>");
    assert!(p.starts_with("<!doctype html>\n<html lang=\"en\">\n"));
    assert!(p.contains("<title>A &amp; B</title>"));
    assert!(p.contains("<h1>A &amp; B</h1>\n    <p>body {}</p>\n"));
    assert!(p.contains(CSS));
    assert!(p.contains(JS));
    assert!(p.ends_with("</html>"));
    assert!(!p.contains("nav-link active"));
    assert_eq!(p, page_with_heading("A & B", "<p>body {}</p>", true, "A & B"));
    assert!(!page_without_heading("A", "b").contains("<h1>"));
}

#[test]
fn the_active_link() {
    let active = "<a class=\"nav-link active\" href=\"";
    assert!(page("VPN Manager", "").contains(&format!("{active}/vpnman/\">Home")));
    assert!(config_page("x", "").contains(&format!("{active}/vpnman/profiles\">")));
    assert!(template_page("x", "").contains(&format!("{active}/vpnman/templates\">")));
    assert!(page("Certificate Authority Config", "")
        .contains(&format!("{active}/vpnman/settings/minica\">")));
    assert!(page("Swagger Explorer", "").contains(&format!("{active}/vpnman/api/swagger\">")));
}

#[test]
fn errors_are_reported() {
    let (status, p) = html(error_page("Oops", "a < b"));
    assert_eq!(status, 500);
    assert!(p.contains("<h1>Oops</h1>"));
    assert!(p.contains(
        "<p class=\"error\">a &lt; b</p><p><a class=\"button\" href=\"/vpnman/\">Back to dashboard</a></p>"
    ));
    let f = PageFailure { title: "Oops", message: text("a < b") };
    assert_eq!(html(failure_page(&f)).1, p);
}

#[test]
fn answers_after_actions() {
    assert_eq!(root_redirect(), Answer::Redirect(text("/vpnman/")));
    let settings = Answer::Redirect(text("/vpnman/settings/minica"));
    assert_eq!(minica_settings_saved(Ok(())), settings);
    assert_eq!(cert_defaults_saved(Ok(())), settings);
    let editor = Answer::Redirect(text("/vpnman/templates/t1/edit"));
    assert_eq!(template_created("t1", Ok(())), editor);
    assert_eq!(template_saved("t1", Ok(())), editor);
    assert_eq!(template_deleted(Ok(())), Answer::Redirect(text("/vpnman/templates")));
    assert_eq!(profile_deleted(Ok(())), Answer::Redirect(text("/vpnman/profiles")));
    let p = ApiProfile { id: text("p"), metadata: metadata(1), profile: text("c") };
    assert_eq!(profile_generated(Ok(p)), Answer::Redirect(text("/vpnman/profiles")));
}

#[test]
fn answers_after_failed_actions() {
    let failed = || Err(text("disk full"));
    let titles = [
        (minica_settings_saved(failed()), "Failed To Save Settings"),
        (cert_defaults_saved(failed()), "Failed To Save Certificate Defaults"),
        (template_created("t", failed()), "Failed To Create Template"),
        (template_saved("t", failed()), "Failed To Save Template"),
        (template_deleted(failed()), "Failed To Delete Template"),
        (profile_deleted(failed()), "Failed To Delete Profile"),
    ];
    for (answer, title) in titles {
        let (status, p) = html(answer);
        assert_eq!(status, 500);
        assert!(p.contains(&format!("<h1>{title}</h1>")));
        assert!(p.contains("disk full"));
    }
    let f = ApiFailure { status: 400, code: "invalid_parameter", message: text("x is bad") };
    let (_, p) = html(profile_generated(Err(f)));
    assert!(p.contains("<h1>invalid_parameter</h1>"));
    assert!(p.contains("x is bad"));
}

#[test]
fn only_identifiers_are_located() {
    assert_eq!(locate_template("data", "t1").unwrap().dir, "data/templates/t1");
    assert_eq!(locate_profile("data", "p1").unwrap().text, "data/profiles/p1/profile.ovpn");
    assert_eq!(error_text(locate_template("data", "..").unwrap_err()), "template ID is not valid");
    assert_eq!(error_text(locate_profile("data", "").unwrap_err()), "profile ID is not valid");
}

#[test]
fn the_first_page() {
    let p = index(2, 13, None);
    assert!(p.contains("<span class=\"metric\">2</span><span class=\"label\">OpenVPN Templates"));
    assert!(p.contains("<span class=\"metric\">13</span><span class=\"label\">OpenVPN Configs"));
    assert!(p.contains("Certificate Authority not configured"));
    assert!(!p.contains("<h1>"));
    let mut cfg = default_minica_config();
    cfg.default_ca_id = text("c1");
    assert!(index(0, 0, Some(cfg)).contains("Certificate Authority configured"));
}

#[test]
fn choices_of_a_key_profile() {
    let o = key_profile_options("rsa:4096");
    assert!(o.starts_with("<option value=\"rsa:2048\">rsa:2048</option><option value=\"rsa:4096\" selected>rsa:4096</option>"));
    assert!(o.ends_with("<option value=\"ecdsa:secp521r1\">ecdsa:secp521r1</option>"));
    assert_eq!(o.matches("<option").count(), 6);
    assert_eq!(o.matches(" selected").count(), 1);
    assert_eq!(key_profile_options("other").matches(" selected").count(), 0);
}

#[test]
fn choices_of_a_certificate_authority() {
    let cas = vec![ca("1", "One"), ca("2", "T<wo")];
    assert_eq!(
        ca_options(&cas, "2"),
        "<option value=\"1\">One (1)</option><option value=\"2\" selected>T&lt;wo (2)</option>"
    );
    assert_eq!(ca_select_options(&cas, "2"), ca_options(&cas, "2"));
    assert_eq!(
        ca_select_options(&cas, " "),
        format!("<option value=\"\">Select a CA</option>{}", ca_options(&cas, " "))
    );
    assert_eq!(
        ca_select_options(&Vec::new(), "9"),
        "<option value=\"9\" selected>9</option>"
    );
}

#[test]
fn parameters_in_a_list() {
    assert_eq!(render_parameter_chips(&StringMap::new()), "<span class=\"muted\">None</span>");
    assert_eq!(
        render_parameter_chips(&values(&[("b", "2"), ("a", "<1>")])),
        "<span class=\"param-chip\"><span class=\"param-key\">a</span><span class=\"param-value\">&lt;1&gt;</span></span><span class=\"param-chip\"><span class=\"param-key\">b</span><span class=\"param-value\">2</span></span>"
    );
    assert_eq!(map_rows("{}={};", &values(&[("b", "2"), ("a", "1")])), "a=1;b=2;");
}

#[test]
fn inputs_of_variables() {
    let mut t = template("t", "T", "%n% %t% %l% %c% %ca_cert%");
    let mut number = variable(VariableKind::Number, "5", true);
    number.min = Some(-1);
    number.max = Some(9);
    t.metadata.variables.insert(text("n"), number);
    t.metadata.variables.insert(text("t"), variable(VariableKind::Text, "<x>", false));
    t.metadata.variables.insert(text("l"), variable(VariableKind::Textarea, "long", true));
    t.metadata.variables.insert(text("c"), variable(VariableKind::DropdownCsv, "b", false));
    assert_eq!(
        render_template_variable_inputs(&t),
        concat_all(&[
            "<div class=\"field\"><label>c</label><select name=\"var_c\"><option value=\"a\">a</option><option value=\"b\" selected>b</option></select><small>he&quot;lp</small></div>",
            "<div class=\"field\"><label>l</label><textarea name=\"var_l\" rows=\"4\" required>long</textarea><small>he&quot;lp</small></div>",
            "<div class=\"field\"><label>n</label><input name=\"var_n\" type=\"number\" value=\"5\" min=\"-1\" max=\"9\" required><small>he&quot;lp</small></div>",
            "<div class=\"field\"><label>t</label><input name=\"var_t\" value=\"&lt;x&gt;\"><small>he&quot;lp</small></div>",
        ])
    );
}

fn concat_all(parts: &[&str]) -> String {
    parts.iter().copied().collect()
}

#[test]
fn inputs_of_variables_without_metadata() {
    let t = template("t", "T", "%server_port%");
    assert_eq!(
        render_template_variable_inputs(&t),
        "<div class=\"field\"><label>server_port</label><input name=\"var_server_port\" type=\"number\" value=\"1194\" min=\"1\" max=\"65535\" required><small>Port for server_port</small></div>"
    );
}

#[test]
fn the_settings() {
    let mut cfg = default_minica_config();
    cfg.default_ca_id = text("1");
    cfg.password = text("p\"w");
    cfg.cert_defaults.dns_list = vec![text("a"), text("b")];
    let p = minica_settings(&cfg, Ok(vec![ca("1", "One")]));
    assert!(p.contains("<h1>Certificate Authority Config</h1>"));
    assert!(p.contains("name=\"base_url\" value=\"http://localhost:9988\""));
    assert!(p.contains("type=\"password\" value=\"p&quot;w\""));
    assert!(p.contains("data-current=\"1\"><option value=\"1\" selected>One (1)</option></select>"));
    assert!(p.contains("<tbody><tr><td>One</td><td><code>1</code></td></tr></tbody></table>"));
    assert!(p.contains("name=\"valid_days\" type=\"number\" value=\"7300\""));
    assert!(p.contains("name=\"country_code\" value=\"SG\""));
    assert!(p.contains("name=\"digest_algorithm\" value=\"sha512\""));
    assert!(p.contains("name=\"organization\" value=\"Home\""));
    assert!(p.contains("name=\"organization_unit\" value=\"VPN\""));
    assert!(p.contains("name=\"state\" value=\"Singapore\""));
    assert!(p.contains("name=\"city\" value=\"Singapore\""));
    assert!(p.contains("name=\"dns_list\" value=\"a,b\""));
    assert!(p.contains("name=\"ip_list\" value=\"\""));
    assert!(minica_settings(&cfg, Ok(Vec::new()))
        .contains("<p class=\"muted\">Connected, but no CAs were returned.</p>"));
    let p = minica_settings(&cfg, Err(text("refused <")));
    assert!(p.contains("<p class=\"error\">Connection test failed: refused &lt;</p>"));
    assert!(p.contains("<option value=\"1\" selected>1</option></select>"));
}

#[test]
fn the_list_of_templates() {
    let p = templates_index(&vec![template("t1", "A&B", "%x% %ca_cert%")]);
    assert!(p.contains(
        "<tr><td>A&amp;B</td><td>&lt;d&gt;</td><td><code>t1</code></td><td>2</td><td><a class=\"button small\" href=\"/vpnman/templates/t1/edit\">Edit</a>"
    ));
    assert!(p.contains("action=\"/vpnman/templates/t1/delete\""));
}

#[test]
fn the_editor() {
    let t = template("t1", "A", "%x% %client_key% %ca_cert% </textarea>");
    let (status, p) = html(edit_template(Ok((t, text("x: <y>")))));
    assert_eq!(status, 200);
    assert!(p.contains("<input type=\"hidden\" name=\"id\" value=\"t1\">"));
    assert!(p.contains("name=\"name\" value=\"A\""));
    assert!(p.contains("name=\"token_start\" value=\"%\" required"));
    assert!(p.contains("%x% %client_key% %ca_cert% &lt;/textarea&gt;</textarea>"));
    assert!(p.contains("x: &lt;y&gt;</textarea>"));
    assert!(p.contains(
        "Reserved auto-filled variables: <code>ca_cert</code> <code>client_key</code></p>"
    ));
    assert_eq!(error_text(edit_template(Err(text("no file")))), "no file");
}

#[test]
fn the_form_for_a_profile() {
    let templates = vec![template("t1", "A", "%x%"), template("t2", "B", "%y%")];
    let mut cfg = default_minica_config();
    cfg.default_ca_id = text("2");
    let cas = vec![ca("1", "One"), ca("2", "Two")];
    let p = generate_form(&templates, Some(cfg), &cas, None);
    assert!(p.contains("<option value=\"t1\" selected>A</option><option value=\"t2\">B</option>"));
    assert!(p.contains("<option value=\"1\">One (1)</option><option value=\"2\" selected>Two (2)"));
    assert!(p.contains("name=\"var_x\"") && !p.contains("name=\"var_y\""));
    let p = generate_form(&templates, None, &cas, Some(text("t2")));
    assert!(p.contains("<option value=\"t2\" selected>B</option>"));
    assert!(p.contains("name=\"var_y\"") && !p.contains("name=\"var_x\""));
    let none = "<p class=\"muted\">Create a template before generating a profile.</p>";
    assert!(generate_form(&templates, None, &cas, Some(text("t3"))).contains(none));
    assert!(generate_form(&Vec::new(), None, &Vec::new(), None).contains(none));
}

#[test]
fn the_list_of_profiles() {
    let now = Timestamp { seconds: 86_400 * 3, nanos: 0 };
    let p = profiles_page(&vec![(text("p1"), metadata(0))], now);
    assert!(p.contains(
        "<tr><td><a href=\"/vpnman/profiles/p1\">Lap&lt;top&gt;</a></td><td>My CA</td><td><span class=\"param-chip\"><span class=\"param-key\">host</span><span class=\"param-value\">&lt;h&gt;</span></span></td><td title=\"3 days ago\">1970-01-01</td>"
    ));
    assert!(p.contains("href=\"/vpnman/profiles/p1/download\""));
    assert!(p.contains("action=\"/vpnman/profiles/p1/delete\""));
    let today = metadata(current_time().seconds);
    assert!(profiles_index(&vec![(text("p1"), today)]).contains("<td title=\"today\">"));
}

#[test]
fn the_page_of_a_profile() {
    let now = Timestamp { seconds: 86_400, nanos: 0 };
    let p = profile_page("p1", &metadata(0), "client\n</textarea>", now);
    assert!(p.contains("<h1>Lap&lt;top&gt;</h1>"));
    assert!(p.contains("<dt>Template</dt><dd>Office</dd>"));
    assert!(p.contains("<dt>Certificate ID</dt><dd><code>x1</code></dd>"));
    assert!(p.contains("<dt>Tags</dt><dd>a, b</dd>"));
    assert!(p.contains("<dt>Created</dt><dd title=\"1 day ago\">1970-01-01T00:00:00Z</dd>"));
    assert!(p.contains(
        "<tr><td class=\"param-key-cell\">host</td><td class=\"param-value-cell\">&lt;h&gt;</td></tr>"
    ));
    assert!(p.contains("readonly>client\n&lt;/textarea&gt;</textarea>"));
}

#[test]
fn asking_for_a_profile() {
    let (status, p) = html(profile_detail("p1", Ok(metadata(0)), Ok(text("client"))));
    assert_eq!(status, 200);
    assert!(p.contains("readonly>client</textarea>"));
    assert_eq!(error_text(profile_detail("p1", Err(text("m")), Err(text("t")))), "m");
    assert_eq!(error_text(profile_detail("p1", Ok(metadata(0)), Err(text("t")))), "t");
}

#[test]
fn downloading_a_profile() {
    let d = download_profile(Ok(vec![1, 2])).unwrap();
    assert_eq!(d.bytes, vec![1, 2]);
    assert_eq!(d.content_type, "application/x-openvpn-profile");
    assert_eq!(d.content_disposition, "attachment; filename=\"profile.ovpn\"");
    assert_eq!(error_text(download_profile(Err(text("gone"))).unwrap_err()), "gone");
}

#[test]
fn the_explorer_loads_nothing_from_elsewhere() {
    let p = swagger_explorer();
    assert!(p.contains("/vpnman/api/swagger-ui/swagger-ui.css"));
    assert!(p.contains("/vpnman/api/swagger-ui/swagger-ui-bundle.js"));
    assert!(p.contains("/vpnman/api/swagger-ui/swagger-ui-standalone-preset.js"));
    assert!(p.contains("url: '/vpnman/api/openapi.json'"));
    assert!(!p.contains("https://"));
}

#[test]
fn the_description_of_the_interface() {
    let spec: serde_json::Value = serde_json::from_str(&openapi_spec()).unwrap();
    assert_eq!(spec["openapi"], "3.0.3");
    assert_eq!(spec["info"]["title"], "VPN Manager API");
    let paths: Vec<&String> = spec["paths"].as_object().unwrap().keys().collect();
    assert_eq!(
        paths,
        vec!["/api/cas", "/api/configs", "/api/profiles", "/api/profiles/{id}", "/api/templates"]
    );
    let required = &spec["components"]["schemas"]["IssueConfigRequest"]["required"];
    assert_eq!(required[0], "template_id");
    assert_eq!(required[1], "client_name");
    assert_eq!(required.as_array().unwrap().len(), 2);
    assert_eq!(spec["components"]["securitySchemes"]["basicAuth"]["scheme"], "basic");
}
