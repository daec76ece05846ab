use vpnman::rendering::{render_template, sample_template};
use vpnman::string_map::StringMap;
use vpnman::template_names::{unique_template_name, validate_unique_template_name};
use vpnman::templates::{
    assemble_template, default_token_start, default_token_stop, distinct_sorted,
    extract_variables, is_reserved, load_template, normalize_template_metadata,
    sync_metadata_with_body, validate_token_delimiters, validate_variable_definitions,
    variable_metadata, Template, TemplateMetadata,
};
use vpnman::variables::{default_variable, VariableKind, VariableMetadata};

fn metadata(start: &str, stop: &str) -> TemplateMetadata {
    TemplateMetadata {
        name: "T".to_string(),
        description: "d".to_string(),
        token_start: start.to_string(),
        token_stop: stop.to_string(),
        variables: StringMap::new(),
    }
}

fn template(id: &str, name: &str) -> Template {
    let mut m = metadata("%", "%");
    m.name = name.to_string();
    Template { id: id.to_string(), body: String::new(), metadata: m, variables: Vec::new() }
}

fn text_variable(description: &str) -> VariableMetadata {
    VariableMetadata {
        kind: VariableKind::Text,
        description: description.to_string(),
        default: String::new(),
        options: String::new(),
        min: None,
        max: None,
        required: false,
    }
}

fn names(body: &str, start: &str, stop: &str) -> Vec<String> {
    extract_variables(body, &metadata(start, stop)).unwrap()
}

fn values(entries: &[(&str, &str)]) -> StringMap<String> {
    let mut m = StringMap::new();
    for (k, v) in entries {
        m.insert(k.to_string(), v.to_string());
    }
    m
}

#[test]
fn the_sample_has_six_placeholders() {
    assert_eq!(
        names(&sample_template(), "%", "%"),
        vec!["ca_cert", "client_cert", "client_key", "proto", "server_host", "server_port"]
    );
}

#[test]
fn the_sample_is_a_client_profile() {
    let sample = sample_template();
    assert!(sample.starts_with("client\ndev tun\nproto %proto%\n"));
    assert!(sample.ends_with("<key>\n%client_key%\n</key>\n"));
}

#[test]
fn names_are_sorted_and_unique() {
    assert_eq!(names("%b% %a% %b% %_c1%", "%", "%"), vec!["_c1", "a", "b"]);
}

#[test]
fn what_is_no_name_is_not_found() {
    assert!(names("%1a% %a b% %% %é%", "%", "%").is_empty());
    assert_eq!(names("100% of %x%", "%", "%"), vec!["x"]);
}

#[test]
fn placeholders_do_not_overlap() {
    assert_eq!(names("%a%b%c%", "%", "%"), vec!["a", "c"]);
}

#[test]
fn custom_delimiters() {
    assert_eq!(names("{{name}} {{ other }} {{x}}{{y}}", "{{", "}}"), vec!["name", "x", "y"]);
    assert_eq!(names("<?a?> $[b] (c)", "<?", "?>"), vec!["a"]);
    assert_eq!(names("a.b.c *d* +e+", "*", "*"), vec!["d"]);
    assert_eq!(names("^$x$^ \\y\\", "\\", "\\"), vec!["y"]);
    assert_eq!(names("[#x&~-]", "[#", "&~-]"), vec!["x"]);
}

#[test]
fn delimiters_of_name_characters_give_the_longest_name() {
    assert_eq!(names("xabxcx", "x", "x"), vec!["abxc"]);
    assert_eq!(names("_a__b_", "_", "_"), vec!["a__b"]);
}

#[test]
fn names_with_empty_delimiters() {
    assert_eq!(names("ab cd", "", ""), vec!["ab", "cd"]);
}

#[test]
fn too_large_delimiters_are_refused() {
    let huge = "é".repeat(4_000_000);
    assert_eq!(extract_variables("", &metadata(&huge, "%")), None);
    let mut m = metadata(&huge, "%");
    assert!(!sync_metadata_with_body("", &mut m));
    assert_eq!(m.token_start.len(), huge.len());
    assert_eq!(load_template("t", String::new(), metadata(&huge, "%")), None);
}

#[test]
fn long_delimiters_are_accepted() {
    let start = "𝄞".repeat(5000);
    let stop = "€".repeat(5000);
    assert_eq!(names(&format!("x{start}a{stop}y"), &start, &stop), vec!["a"]);
}

#[test]
fn distinct_names_in_order() {
    let all: Vec<String> = ["b", "a", "b", "C"].iter().map(|s| s.to_string()).collect();
    assert_eq!(distinct_sorted(&all), vec!["C", "a", "b"]);
}

#[test]
fn reserved_names() {
    for name in ["ca_cert", "client_cert", "client_key"] {
        assert!(is_reserved(name));
    }
    for name in ["ca", "CA_CERT", "client_key2", ""] {
        assert!(!is_reserved(name));
    }
}

#[test]
fn missing_delimiters_are_percent_signs() {
    let mut m = metadata("", "");
    normalize_template_metadata(&mut m);
    assert_eq!((m.token_start.as_str(), m.token_stop.as_str()), ("%", "%"));
    assert_eq!((default_token_start().as_str(), default_token_stop().as_str()), ("%", "%"));
    let mut m = metadata("{{", "");
    normalize_template_metadata(&mut m);
    assert_eq!((m.token_start.as_str(), m.token_stop.as_str()), ("{{", "%"));
}

#[test]
fn both_delimiters_are_required() {
    assert_eq!(
        validate_token_delimiters(&metadata("", "")),
        Err("token start is required".to_string())
    );
    assert_eq!(
        validate_token_delimiters(&metadata("%", "")),
        Err("token stop is required".to_string())
    );
    assert_eq!(validate_token_delimiters(&metadata("%", "%")), Ok(()));
}

#[test]
fn metadata_follows_the_placeholders() {
    let mut m = metadata("%", "%");
    m.variables.insert("gone".to_string(), text_variable("old"));
    m.variables.insert("kept".to_string(), text_variable("mine"));
    m.variables.insert("ca_cert".to_string(), text_variable("reserved"));
    assert!(sync_metadata_with_body("%kept% %new_port% %ca_cert%", &mut m));
    assert_eq!(m.variables.len(), 2);
    assert_eq!(m.variables.get("kept"), Some(&text_variable("mine")));
    assert_eq!(m.variables.get("new_port"), Some(&default_variable("new_port")));
}

#[test]
fn bringing_metadata_in_line_twice_changes_nothing() {
    let body = "%proto% %x% %client_key%";
    let mut once = metadata("", "");
    assert!(sync_metadata_with_body(body, &mut once));
    let mut twice = metadata("", "");
    assert!(sync_metadata_with_body(body, &mut twice));
    assert!(sync_metadata_with_body(body, &mut twice));
    assert_eq!(once, twice);
    assert_eq!(once.token_start, "%");
}

#[test]
fn definitions_are_checked_in_the_order_of_the_names() {
    let mut m = metadata("%", "%");
    let mut bad = text_variable("");
    bad.min = Some(2);
    bad.max = Some(1);
    m.variables.insert("z".to_string(), bad);
    let mut choice = text_variable("");
    choice.kind = VariableKind::DropdownCsv;
    m.variables.insert("y".to_string(), choice);
    assert_eq!(
        validate_variable_definitions(&m),
        Err("y dropdown requires options".to_string())
    );
    assert_eq!(validate_variable_definitions(&metadata("%", "%")), Ok(()));
}

#[test]
fn loading_a_template() {
    let mut m = metadata("", "");
    m.variables.insert("proto".to_string(), text_variable("Value for proto"));
    m.variables.insert("unused_port".to_string(), text_variable("Value for unused_port"));
    let t = load_template("id-1", "%proto% %host%".to_string(), m).unwrap();
    assert_eq!(t.id, "id-1");
    assert_eq!(t.body, "%proto% %host%");
    assert_eq!(t.metadata.token_start, "%");
    assert_eq!(t.variables, vec!["host", "proto"]);
    assert_eq!(t.metadata.variables.get("proto"), Some(&default_variable("proto")));
    assert_eq!(t.metadata.variables.get("host"), None);
    assert_eq!(
        t.metadata.variables.get("unused_port"),
        Some(&text_variable("Value for unused_port"))
    );
}

#[test]
fn a_template_of_given_names() {
    let t = assemble_template("i", "b".to_string(), metadata("", ">"), vec!["n".to_string()]);
    assert_eq!(t.variables, vec!["n"]);
    assert_eq!((t.metadata.token_start.as_str(), t.metadata.token_stop.as_str()), ("%", ">"));
}

#[test]
fn metadata_or_default() {
    let mut vars = StringMap::new();
    vars.insert("a".to_string(), text_variable("mine"));
    assert_eq!(variable_metadata(&vars, "a"), text_variable("mine"));
    assert_eq!(variable_metadata(&vars, "a_port"), default_variable("a_port"));
}

#[test]
fn names_of_templates_are_unique() {
    let all = vec![template("a", "Office"), template("b", " Home ")];
    assert_eq!(validate_unique_template_name(&all, "Lab", None), Ok(()));
    assert_eq!(
        validate_unique_template_name(&all, "HOME", None),
        Err("another template already uses the name 'HOME'".to_string())
    );
    assert_eq!(validate_unique_template_name(&all, "home", Some("b")), Ok(()));
    assert_eq!(
        validate_unique_template_name(&all, "home", Some("a")),
        Err("another template already uses the name 'home'".to_string())
    );
    assert_eq!(
        validate_unique_template_name(&all, "  ", None),
        Err("template name is required".to_string())
    );
}

#[test]
fn a_free_name_is_found() {
    let all = vec![template("a", "Base"), template("b", "base 2"), template("c", "Base 4")];
    assert_eq!(unique_template_name(&all, "Other", None), "Other");
    assert_eq!(unique_template_name(&all, "Base", None), "Base 3");
    assert_eq!(unique_template_name(&all, "Base", Some("a")), "Base");
    assert_eq!(unique_template_name(&Vec::new(), "Base", None), "Base");
}

#[test]
fn a_blank_name_is_numbered() {
    assert_eq!(unique_template_name(&Vec::new(), "", None), " 2");
    assert_eq!(unique_template_name(&vec![template("a", "2")], "", None), " 3");
}

#[test]
fn placeholders_are_filled() {
    let r = render_template(
        "remote %host% %port%\n%host%",
        &metadata("%", "%"),
        &values(&[("host", "vpn.example.com"), ("port", "1194")]),
    );
    assert_eq!(r, "remote vpn.example.com 1194\nvpn.example.com");
}

#[test]
fn placeholders_without_a_value_stay() {
    let r = render_template("%a% %b%", &metadata("%", "%"), &values(&[("a", "1")]));
    assert_eq!(r, "1 %b%");
}

#[test]
fn text_without_placeholders_stays() {
    let r = render_template("100% sure", &metadata("%", "%"), &values(&[("sure", "x")]));
    assert_eq!(r, "100% sure");
}

#[test]
fn placeholders_of_other_delimiters() {
    let r = render_template(
        "{{a}}{{b}}%a%",
        &metadata("{{", "}}"),
        &values(&[("a", "1"), ("b", "2")]),
    );
    assert_eq!(r, "12%a%");
}

#[test]
fn names_are_filled_one_after_the_other() {
    let r = render_template("%a%", &metadata("%", "%"), &values(&[("a", "%b%"), ("b", "x")]));
    assert_eq!(r, "x");
    let r = render_template("%a%b%c%", &metadata("%", "%"), &values(&[("b", "x")]));
    assert_eq!(r, "%axc%");
}

#[test]
fn the_sample_is_filled_completely() {
    let r = render_template(
        &sample_template(),
        &metadata("%", "%"),
        &values(&[
            ("ca_cert", "CA"),
            ("client_cert", "CERT"),
            ("client_key", "KEY"),
            ("proto", "udp"),
            ("server_host", "vpn.example.com"),
            ("server_port", "1194"),
        ]),
    );
    assert!(!r.contains('%'));
    assert!(r.contains("proto udp\nremote vpn.example.com 1194\n"));
    assert!(r.contains("<ca>\nCA\n</ca>\n<cert>\nCERT\n</cert>\n<key>\nKEY\n</key>\n"));
}
