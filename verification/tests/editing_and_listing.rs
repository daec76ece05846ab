use vpnman::api::ProfileMetadata;
use vpnman::clock::Timestamp;
use vpnman::editing::{
    create_template, finish_saving, save_template, PageFailure, StoredTemplate, TemplateSaveForm,
};
use vpnman::listing::{load_profiles, load_templates};
use vpnman::rendering::sample_template;
use vpnman::storage::valid_storage_id;
use vpnman::string_map::StringMap;
use vpnman::templates::{load_template, Template, TemplateMetadata};
use vpnman::variables::{default_variable, VariableKind, VariableMetadata};

fn template(id: &str, name: &str) -> Template {
    let metadata = TemplateMetadata {
        name: name.to_string(),
        description: String::new(),
        token_start: "%".to_string(),
        token_stop: "%".to_string(),
        variables: StringMap::new(),
    };
    load_template(id, String::new(), metadata).unwrap()
}

fn form(id: &str, name: &str, start: &str, stop: &str, body: &str) -> TemplateSaveForm {
    TemplateSaveForm {
        id: id.to_string(),
        name: name.to_string(),
        description: "d".to_string(),
        token_start: start.to_string(),
        token_stop: stop.to_string(),
        body: body.to_string(),
    }
}

fn refused(r: Option<Result<StoredTemplate, PageFailure>>) -> (&'static str, String) {
    let f = r.unwrap().unwrap_err();
    (f.title, f.message)
}

fn profile(id: &str, seconds: i64, nanos: u32) -> Option<(String, ProfileMetadata)> {
    let metadata = ProfileMetadata {
        client_name: id.to_string(),
        template_id: String::new(),
        template_name: String::new(),
        ca_id: String::new(),
        ca_common_name: String::new(),
        cert_id: String::new(),
        tags: Vec::new(),
        created_at: Timestamp { seconds, nanos },
        variables: StringMap::new(),
    };
    Some((id.to_string(), metadata))
}

#[test]
fn a_new_template() {
    let t = create_template(&Vec::new());
    assert!(valid_storage_id(&t.id));
    assert!(t.id.contains("-template-"));
    assert_eq!(t.body, sample_template());
    assert_eq!(t.metadata.name, "Standard OpenVPN Client");
    assert_eq!(t.metadata.description, "Self-contained client profile");
    assert_eq!(t.metadata.token_start, "%");
    assert_eq!(t.metadata.variables.len(), 3);
    for name in ["proto", "server_host", "server_port"] {
        assert_eq!(t.metadata.variables.get(name), Some(&default_variable(name)));
    }
}

#[test]
fn new_templates_have_free_names() {
    let all = vec![
        template("a", "standard openvpn client"),
        template("b", "Standard OpenVPN Client 2"),
    ];
    assert_eq!(create_template(&all).metadata.name, "Standard OpenVPN Client 3");
}

#[test]
fn a_new_template_can_be_saved_as_it_is() {
    let all = vec![template("a", "Standard OpenVPN Client")];
    let t = create_template(&all);
    let name = t.metadata.name.clone();
    let f = TemplateSaveForm {
        id: t.id.clone(),
        name: t.metadata.name,
        description: t.metadata.description,
        token_start: t.metadata.token_start,
        token_stop: t.metadata.token_stop,
        body: t.body,
    };
    let saved = save_template(f, Ok(t.metadata.variables), &all).unwrap().unwrap();
    assert_eq!(saved.id, t.id);
    assert_eq!(saved.metadata.name, name);
    assert_eq!(saved.metadata.variables.len(), 3);
}

#[test]
fn saving_brings_metadata_in_line() {
    let mut vars = StringMap::new();
    vars.insert("gone".to_string(), default_variable("gone"));
    let saved = save_template(form("t1", "T", "{{", "}}", "{{a}} %b%"), Ok(vars), &Vec::new())
        .unwrap()
        .unwrap();
    assert_eq!(saved.body, "{{a}} %b%");
    assert_eq!(saved.metadata.variables.len(), 1);
    assert_eq!(saved.metadata.variables.get("a"), Some(&default_variable("a")));
    assert_eq!(saved.metadata.token_start, "{{");
}

#[test]
fn a_saved_template_is_loaded_as_it_was_saved() {
    let saved = save_template(
        form("t1", "T", "%", "%", "%proto% %x% %ca_cert%"),
        Ok(StringMap::new()),
        &Vec::new(),
    )
    .unwrap()
    .unwrap();
    let again = save_template(
        form("t1", "T", "%", "%", "%proto% %x% %ca_cert%"),
        Ok(StringMap::new()),
        &Vec::new(),
    )
    .unwrap()
    .unwrap();
    let loaded = load_template("t1", saved.body, saved.metadata).unwrap();
    assert_eq!(loaded.metadata, again.metadata);
    assert_eq!(loaded.variables, vec!["ca_cert", "proto", "x"]);
}

#[test]
fn forms_that_are_refused() {
    let none = Vec::new();
    let empty = StringMap::<VariableMetadata>::new;
    assert_eq!(
        refused(save_template(form("a/b", "", "", "", ""), Err("bad".to_string()), &none)),
        ("Invalid Template ID", "template ID is not valid".to_string())
    );
    assert_eq!(
        refused(save_template(form("a", "", "", "", ""), Err("bad".to_string()), &none)),
        ("Invalid Variable YAML", "bad".to_string())
    );
    assert_eq!(
        refused(save_template(form("a", "", "", "", ""), Ok(empty()), &none)),
        ("Invalid Token Delimiters", "token start is required".to_string())
    );
    assert_eq!(
        refused(save_template(form("a", "", "%", "", ""), Ok(empty()), &none)),
        ("Invalid Token Delimiters", "token stop is required".to_string())
    );
    let mut vars = StringMap::new();
    let mut bad = default_variable("x");
    bad.kind = VariableKind::DropdownCsv;
    vars.insert("x".to_string(), bad);
    assert_eq!(
        refused(save_template(form("a", "", "%", "%", "%x%"), Ok(vars), &none)),
        ("Invalid Variable Metadata", "x dropdown requires options".to_string())
    );
    assert_eq!(
        refused(save_template(form("a", " ", "%", "%", ""), Ok(empty()), &none)),
        ("Template Name Must Be Unique", "template name is required".to_string())
    );
    assert_eq!(
        refused(save_template(
            form("a", "Home", "%", "%", ""),
            Ok(empty()),
            &vec![template("b", "home")]
        )),
        (
            "Template Name Must Be Unique",
            "another template already uses the name 'Home'".to_string()
        )
    );
}

#[test]
fn a_template_may_keep_its_name() {
    let all = vec![template("a", "Home")];
    let saved = save_template(form("a", "Home", "%", "%", "x"), Ok(StringMap::new()), &all);
    assert_eq!(saved.unwrap().unwrap().metadata.name, "Home");
}

#[test]
fn saving_with_given_names() {
    let t = template("a", "Home");
    let saved = finish_saving(
        "a".to_string(),
        "body".to_string(),
        t.metadata,
        &vec!["client_key".to_string(), "n_port".to_string()],
        &Vec::new(),
    )
    .unwrap();
    assert_eq!(saved.metadata.variables.len(), 1);
    assert_eq!(saved.metadata.variables.get("n_port"), Some(&default_variable("n_port")));
}

#[test]
fn templates_are_listed_by_name() {
    let list = load_templates(vec![
        Some(template("1", "b")),
        None,
        Some(template("2", "a")),
        Some(template("3", "b")),
        Some(template("4", "B")),
    ]);
    let ids: Vec<&str> = list.iter().map(|t| t.id.as_str()).collect();
    assert_eq!(ids, vec!["4", "2", "1", "3"]);
    assert!(load_templates(vec![None]).is_empty());
}

#[test]
fn profiles_are_listed_latest_first() {
    let list = load_profiles(vec![
        profile("old", 5, 0),
        profile("first", 9, 1),
        None,
        profile("same", 9, 1),
        profile("new", 9, 2),
        profile("oldest", -5, 999),
    ]);
    let ids: Vec<&str> = list.iter().map(|p| p.0.as_str()).collect();
    assert_eq!(ids, vec!["new", "first", "same", "old", "oldest"]);
}
