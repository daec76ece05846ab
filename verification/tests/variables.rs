use vpnman::variables::{
    contains_text, default_true, default_variable, normalize_variable_metadata, parse_csv,
    validate_definition, validate_variable_value, VariableKind, VariableMetadata,
};

fn variable(kind: VariableKind) -> VariableMetadata {
    VariableMetadata {
        kind,
        description: String::new(),
        default: String::new(),
        options: String::new(),
        min: None,
        max: None,
        required: true,
    }
}

#[test]
fn lists_with_commas() {
    assert_eq!(parse_csv(" a, ,b ,,c d"), vec!["a", "b", "c d"]);
    assert!(parse_csv(" , ").is_empty());
    assert!(parse_csv("").is_empty());
}

#[test]
fn lists_are_read_back_as_they_were_written() {
    for s in ["", "a", "a,b", " vpn.example.com , *.example.com ,"] {
        let items = parse_csv(s);
        assert_eq!(parse_csv(&items.join(",")), items);
    }
}

#[test]
fn membership() {
    let items = vec!["tcp".to_string(), "udp".to_string()];
    assert!(contains_text(&items, "udp"));
    assert!(!contains_text(&items, "UDP"));
}

#[test]
fn required_by_default() {
    assert!(default_true());
}

#[test]
fn default_of_a_protocol() {
    let v = default_variable("proto");
    assert_eq!(v.kind, VariableKind::DropdownCsv);
    assert_eq!(v.description, "VPN transport protocol");
    assert_eq!(v.default, "udp");
    assert_eq!(v.options, "tcp,udp");
    assert_eq!((v.min, v.max, v.required), (None, None, true));
}

#[test]
fn default_of_a_port() {
    for name in ["server_port", "port", "export"] {
        let v = default_variable(name);
        assert_eq!(v.kind, VariableKind::Number);
        assert_eq!(v.description, format!("Port for {name}"));
        assert_eq!(v.default, "1194");
        assert_eq!(v.options, "");
        assert_eq!((v.min, v.max, v.required), (Some(1), Some(65535), true));
    }
}

#[test]
fn default_of_a_text() {
    let v = default_variable("server_host");
    assert_eq!(v.kind, VariableKind::Text);
    assert_eq!(v.description, "Value for server_host");
    assert_eq!(v.default, "");
    assert_eq!((v.min, v.max, v.required), (None, None, true));
}

#[test]
fn defaults_make_sense() {
    for name in ["proto", "server_port", "server_host", "x"] {
        assert_eq!(validate_definition(name, &default_variable(name)), Ok(()));
    }
}

#[test]
fn undescribed_variables_get_their_defaults() {
    let mut v = variable(VariableKind::Text);
    v.description = "Value for proto".to_string();
    normalize_variable_metadata("proto", &mut v);
    assert_eq!(v, default_variable("proto"));

    let mut v = variable(VariableKind::Text);
    v.description = "Value for server_port".to_string();
    normalize_variable_metadata("server_port", &mut v);
    assert_eq!(v, default_variable("server_port"));
}

#[test]
fn described_variables_stay_as_they_are() {
    let mut v = variable(VariableKind::Text);
    v.description = "My port".to_string();
    normalize_variable_metadata("port", &mut v);
    assert_eq!(v.description, "My port");
    assert_eq!(v.kind, VariableKind::Text);

    let mut v = variable(VariableKind::Text);
    v.description = "Value for port".to_string();
    v.min = Some(3);
    normalize_variable_metadata("port", &mut v);
    assert_eq!(v.kind, VariableKind::Text);

    let mut v = variable(VariableKind::Text);
    v.description = "Value for proto".to_string();
    v.min = Some(3);
    normalize_variable_metadata("proto", &mut v);
    assert_eq!(v.kind, VariableKind::DropdownCsv);

    let mut v = variable(VariableKind::Text);
    v.description = "Value for host".to_string();
    normalize_variable_metadata("host", &mut v);
    assert_eq!(v.kind, VariableKind::Text);
}

#[test]
fn blank_values_are_taken() {
    let mut v = variable(VariableKind::Number);
    v.min = Some(5);
    assert_eq!(validate_variable_value("n", &v, "  "), Ok(()));
}

#[test]
fn choices_have_to_be_options() {
    let mut v = variable(VariableKind::DropdownCsv);
    v.options = "tcp, udp".to_string();
    assert_eq!(validate_variable_value("proto", &v, "udp"), Ok(()));
    assert_eq!(
        validate_variable_value("proto", &v, "sctp"),
        Err("proto must be one of: tcp, udp".to_string())
    );
    assert_eq!(
        validate_variable_value("proto", &v, " udp"),
        Err("proto must be one of: tcp, udp".to_string())
    );
    v.options = " , ".to_string();
    assert_eq!(validate_variable_value("proto", &v, "anything"), Ok(()));
}

#[test]
fn numbers_have_to_be_in_range() {
    let mut v = variable(VariableKind::Number);
    v.min = Some(1);
    v.max = Some(65535);
    assert_eq!(validate_variable_value("p", &v, " 1194 "), Ok(()));
    assert_eq!(validate_variable_value("p", &v, "1"), Ok(()));
    assert_eq!(validate_variable_value("p", &v, "65535"), Ok(()));
    assert_eq!(validate_variable_value("p", &v, "0"), Err("p must be at least 1".to_string()));
    assert_eq!(
        validate_variable_value("p", &v, "65536"),
        Err("p must be at most 65535".to_string())
    );
    assert_eq!(validate_variable_value("p", &v, "x"), Err("p must be a number".to_string()));
    assert_eq!(
        validate_variable_value("p", &v, "9223372036854775808"),
        Err("p must be a number".to_string())
    );
}

#[test]
fn a_range_makes_any_variable_a_number() {
    let mut v = variable(VariableKind::Text);
    v.max = Some(-3);
    assert_eq!(validate_variable_value("t", &v, "-4"), Ok(()));
    assert_eq!(validate_variable_value("t", &v, "-2"), Err("t must be at most -3".to_string()));
    assert_eq!(validate_variable_value("t", &v, "abc"), Err("t must be a number".to_string()));
    assert_eq!(validate_variable_value("t", &variable(VariableKind::Text), "abc"), Ok(()));
}

#[test]
fn definitions_without_sense() {
    let mut v = variable(VariableKind::Number);
    v.min = Some(2);
    v.max = Some(1);
    assert_eq!(validate_definition("n", &v), Err("n has min greater than max".to_string()));

    let v = variable(VariableKind::DropdownCsv);
    assert_eq!(validate_definition("d", &v), Err("d dropdown requires options".to_string()));

    let mut v = variable(VariableKind::DropdownCsv);
    v.options = "a,b".to_string();
    v.default = "c".to_string();
    assert_eq!(
        validate_definition("d", &v),
        Err("d default is invalid: d must be one of: a, b".to_string())
    );

    let mut v = variable(VariableKind::Textarea);
    v.default = "anything".to_string();
    assert_eq!(validate_definition("t", &v), Ok(()));
}
