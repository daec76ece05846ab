//! What the web pages show, said of the things that they show.
use vstd::prelude::*;

use crate::api::{ApiFailure, ApiProfile, ProfileMetadata, ProfileMetadataView};
use crate::assets::{CSS, JS};
use crate::clock::{age, elapsed, Timestamp};
use crate::html::{
    among, bound, ca_choice, ca_choices, ca_select, chips, choice, entry_rows, esc_char, esc_text,
    key_profile_choices, option_choices, variable_input, variable_inputs, CA_OPTION, CHIP,
    NUMBER_INPUT, OPTION, SELECT_INPUT, TEXTAREA_INPUT, TEXT_INPUT,
};
use crate::layout::{
    CA_FAILED, CA_NONE, CA_ROW, CA_TABLE, DASHBOARD, EDITOR, ERROR, GENERATOR, NO_TEMPLATE, PAGE,
    PROFILE, PROFILES, PROFILE_ROW, SETTINGS, TEMPLATES, TEMPLATE_ROW, VALUE_ROW,
};
use crate::minica::{MinicaCa, MinicaConfig, MinicaConfigView};
use crate::number::{decimal, signed_decimal};
use crate::outside::{date_of, rfc3339_of};
use crate::pages::{
    ca_list, ca_rows, ca_status, cert_defaults_saved, chosen_template, download_profile,
    edit_template, editor_address, editor_html, error_html, follows_action, framed, generate_form,
    index, known_cas, link_class, minica_settings, minica_settings_saved, profile_body,
    profile_deleted, profile_generated, profile_html, profile_row, profile_rows, profiles_html,
    reports, reserved_marks, settings_body, template_choices, template_created, template_deleted,
    template_fields, template_row, template_rows, template_saved, templates_index, Answer, Download,
};
use crate::string_map::ordered;
use crate::templates::{reserved, variable_or_default, Template, TemplateView};
use crate::text::{blank, filled, joined, texts, white_space};
use crate::variables::{csv_items, VariableKind, VariableView};

verus! {

// ---- escaping ----

/// Texts are escaped character by character, whatever stands beside them.
pub proof fn law_escaping_joins(a: Seq<char>, b: Seq<char>)
    ensures
        esc_text(a + b) == esc_text(a) + esc_text(b),
        esc_text(Seq::<char>::empty()).len() == 0,
    decreases b.len(),
{
    if b.len() == 0 {
        assert(a + b =~= a);
        assert(esc_text(a) + esc_text(b) =~= esc_text(a));
    } else {
        assert((a + b).drop_last() =~= a + b.drop_last());
        assert((a + b).last() == b.last());
        law_escaping_joins(a, b.drop_last());
        assert(esc_text(a + b) =~= esc_text(a) + esc_text(b));
    }
}

/// Five characters are written by their names or numbers, and every other one as it is.
pub proof fn law_escaped_characters(c: char)
    ensures
        c == '&' ==> esc_text(seq![c]) == seq!['&', 'a', 'm', 'p', ';'],
        c == '<' ==> esc_text(seq![c]) == seq!['&', 'l', 't', ';'],
        c == '>' ==> esc_text(seq![c]) == seq!['&', 'g', 't', ';'],
        c == '"' ==> esc_text(seq![c]) == seq!['&', 'q', 'u', 'o', 't', ';'],
        c == '\'' ==> esc_text(seq![c]) == seq!['&', '#', '3', '9', ';'],
        c != '&' && c != '<' && c != '>' && c != '"' && c != '\'' ==> esc_text(seq![c]) == seq![c],
{
    reveal_strlit("&amp;");
    reveal_strlit("&lt;");
    reveal_strlit("&gt;");
    reveal_strlit("&quot;");
    reveal_strlit("&#39;");
    let s = seq![c];
    assert(s.drop_last() =~= Seq::empty());
    reveal_with_fuel(esc_text, 2);
    assert(esc_text(s) =~= esc_char(c));
}

// ---- choices ----

/// A choice shows its value as its value and as its label, and is marked if and only if it is the
/// selected one.
pub proof fn law_choices(value: Seq<char>, other: Seq<char>)
    requires
        other != value,
    ensures
        choice(value, value) == filled(
            OPTION@,
            seq![esc_text(value), " selected"@, esc_text(value)],
        ),
        choice(value, other) == filled(
            OPTION@,
            seq![esc_text(value), Seq::<char>::empty(), esc_text(value)],
        ),
{
}

/// The key profiles that can be chosen are these six, in this order.
pub proof fn law_key_profiles(selected: Seq<char>)
    ensures
        key_profile_choices(selected) == option_choices(
            seq![
                "rsa:2048"@,
                "rsa:4096"@,
                "rsa:8192"@,
                "ecdsa:prime256v1"@,
                "ecdsa:secp384r1"@,
                "ecdsa:secp521r1"@,
            ],
            selected,
        ),
{
    let a = seq!["rsa:2048"@, "rsa:4096"@, "rsa:8192"@];
    let b = seq!["ecdsa:prime256v1"@, "ecdsa:secp384r1"@, "ecdsa:secp521r1"@];
    assert(seq![
        "rsa:2048"@,
        "rsa:4096"@,
        "rsa:8192"@,
        "ecdsa:prime256v1"@,
        "ecdsa:secp384r1"@,
        "ecdsa:secp521r1"@,
    ] =~= a + b);
    law_options_join(a, b, selected);
    law_three_options(a[0], a[1], a[2], selected);
    law_three_options(b[0], b[1], b[2], selected);
    assert(key_profile_choices(selected) =~= option_choices(a, selected) + option_choices(
        b,
        selected,
    ));
}

/// Three options are shown one after the other.
pub proof fn law_three_options(a: Seq<char>, b: Seq<char>, c: Seq<char>, selected: Seq<char>)
    ensures
        option_choices(seq![a, b, c], selected) == choice(a, selected) + choice(b, selected)
            + choice(c, selected),
{
    reveal_with_fuel(option_choices, 4);
    let s = seq![a, b, c];
    assert(s.drop_last() =~= seq![a, b]);
    assert(seq![a, b].drop_last() =~= seq![a]);
    assert(seq![a].drop_last() =~= Seq::empty());
    assert(option_choices(seq![a], selected) =~= choice(a, selected));
}

/// Every option is a choice, in the order of the options.
pub proof fn law_options_join(a: Seq<Seq<char>>, b: Seq<Seq<char>>, selected: Seq<char>)
    ensures
        option_choices(a + b, selected) == option_choices(a, selected) + option_choices(b, selected),
        a.len() == 0 ==> option_choices(a, selected).len() == 0,
        a.len() == 1 ==> option_choices(a, selected) == choice(a[0], selected),
    decreases b.len(),
{
    if a.len() == 1 {
        assert(a.drop_last() =~= Seq::empty());
        reveal_with_fuel(option_choices, 2);
        assert(option_choices(a, selected) =~= choice(a[0], selected));
    }
    if b.len() == 0 {
        assert(a + b =~= a);
        assert(option_choices(a, selected) + option_choices(b, selected) =~= option_choices(
            a,
            selected,
        ));
    } else {
        assert((a + b).drop_last() =~= a + b.drop_last());
        law_options_join(a, b.drop_last(), selected);
        assert(option_choices(a + b, selected) =~= option_choices(a, selected) + option_choices(
            b,
            selected,
        ));
    }
}

/// Every certificate authority is a choice, in its order: with its identifier as its value, and
/// its name and identifier as its label.
pub proof fn law_ca_choices_join(a: Seq<MinicaCa>, b: Seq<MinicaCa>, selected: Seq<char>)
    ensures
        ca_choices(a + b, selected) == ca_choices(a, selected) + ca_choices(b, selected),
        a.len() == 0 ==> ca_choices(a, selected).len() == 0,
        a.len() == 1 && a[0].id@ == selected ==> ca_choices(a, selected) == filled(
            CA_OPTION@,
            seq![
                esc_text(a[0].id@),
                " selected"@,
                esc_text(a[0].common_name@),
                esc_text(a[0].id@),
            ],
        ),
        a.len() == 1 && a[0].id@ != selected ==> ca_choices(a, selected) == filled(
            CA_OPTION@,
            seq![
                esc_text(a[0].id@),
                Seq::<char>::empty(),
                esc_text(a[0].common_name@),
                esc_text(a[0].id@),
            ],
        ),
    decreases b.len(),
{
    if a.len() == 1 {
        assert(a.drop_last() =~= Seq::empty());
        reveal_with_fuel(ca_choices, 2);
        assert(ca_choices(a, selected) =~= ca_choice(a[0], selected));
    }
    if b.len() == 0 {
        assert(a + b =~= a);
        assert(ca_choices(a, selected) + ca_choices(b, selected) =~= ca_choices(a, selected));
    } else {
        assert((a + b).drop_last() =~= a + b.drop_last());
        law_ca_choices_join(a, b.drop_last(), selected);
        assert(ca_choices(a + b, selected) =~= ca_choices(a, selected) + ca_choices(b, selected));
    }
}

/// Where the selected certificate authority is among those listed, they are the choices; where it
/// is not, it is put before them as a choice of its own; where none is selected, a request to
/// select one is.
pub proof fn law_selected_ca_is_always_a_choice(cas: Seq<MinicaCa>, selected: Seq<char>, i: int)
    ensures
        blank(selected) ==> ca_select(cas, selected) == "<option value=\"\">Select a CA</option>"@
            + ca_choices(cas, selected),
        !blank(selected) && 0 <= i < cas.len() && cas[i].id@ == selected ==> ca_select(
            cas,
            selected,
        ) == ca_choices(cas, selected),
        !blank(selected) && (forall|j: int| 0 <= j < cas.len() ==> (#[trigger] cas[j]).id@
            != selected) ==> ca_select(cas, selected) == filled(
            OPTION@,
            seq![esc_text(selected), " selected"@, esc_text(selected)],
        ) + ca_choices(cas, selected),
{
    if 0 <= i < cas.len() && cas[i].id@ == selected {
        assert(among(cas, selected));
    }
}

// ---- parameters ----

/// Every entry is shown, in the order of the entries, with its key and its value.
pub proof fn law_entry_rows_join(
    pattern: Seq<char>,
    a: Seq<(Seq<char>, Seq<char>)>,
    b: Seq<(Seq<char>, Seq<char>)>,
)
    ensures
        entry_rows(pattern, a + b) == entry_rows(pattern, a) + entry_rows(pattern, b),
        a.len() == 0 ==> entry_rows(pattern, a).len() == 0,
        a.len() == 1 ==> entry_rows(pattern, a) == filled(
            pattern,
            seq![esc_text(a[0].0), esc_text(a[0].1)],
        ),
    decreases b.len(),
{
    if a.len() == 1 {
        assert(a.drop_last() =~= Seq::empty());
        reveal_with_fuel(entry_rows, 2);
        assert(entry_rows(pattern, a) =~= filled(
            pattern,
            seq![esc_text(a[0].0), esc_text(a[0].1)],
        ));
    }
    if b.len() == 0 {
        assert(a + b =~= a);
        assert(entry_rows(pattern, a) + entry_rows(pattern, b) =~= entry_rows(pattern, a));
    } else {
        assert((a + b).drop_last() =~= a + b.drop_last());
        law_entry_rows_join(pattern, a, b.drop_last());
        assert(entry_rows(pattern, a + b) =~= entry_rows(pattern, a) + entry_rows(pattern, b));
    }
}

/// The parameters of a profile in a list are all of them, and that there are none where there are
/// none.
pub proof fn law_chips(values: Map<Seq<char>, Seq<char>>, k: Seq<char>)
    ensures
        values.dom().contains(k) ==> chips(values) == entry_rows(CHIP@, ordered(values)),
        values == Map::<Seq<char>, Seq<char>>::empty() ==> chips(values)
            == "<span class=\"muted\">None</span>"@,
{
}

// ---- inputs ----

/// The input of a variable shows its name, stands under `var_` and the name, holds the default, is
/// marked as required if and only if the variable is, and shows the description; that of a number
/// has the bounds that are given, that of a choice the options.
pub proof fn law_variable_input(name: Seq<char>, v: VariableView)
    ensures
        v.kind == VariableKind::Number ==> variable_input(name, v) == filled(
            NUMBER_INPUT@,
            seq![
                esc_text(name),
                esc_text("var_"@ + name),
                esc_text(v.default),
                bound(" min=\""@, v.min),
                bound(" max=\""@, v.max),
                (if v.required {
                    " required"@
                } else {
                    Seq::<char>::empty()
                }),
                esc_text(v.description),
            ],
        ),
        v.kind == VariableKind::Textarea ==> variable_input(name, v) == filled(
            TEXTAREA_INPUT@,
            seq![
                esc_text(name),
                esc_text("var_"@ + name),
                (if v.required {
                    " required"@
                } else {
                    Seq::<char>::empty()
                }),
                esc_text(v.default),
                esc_text(v.description),
            ],
        ),
        v.kind == VariableKind::DropdownCsv ==> variable_input(name, v) == filled(
            SELECT_INPUT@,
            seq![
                esc_text(name),
                esc_text("var_"@ + name),
                (if v.required {
                    " required"@
                } else {
                    Seq::<char>::empty()
                }),
                option_choices(csv_items(v.options), v.default),
                esc_text(v.description),
            ],
        ),
        v.kind == VariableKind::Text ==> variable_input(name, v) == filled(
            TEXT_INPUT@,
            seq![
                esc_text(name),
                esc_text("var_"@ + name),
                esc_text(v.default),
                (if v.required {
                    " required"@
                } else {
                    Seq::<char>::empty()
                }),
                esc_text(v.description),
            ],
        ),
{
}

/// Every variable that is not filled with a certificate or a key has an input, in the order of the
/// names, and no other variable has one.
pub proof fn law_variable_inputs_join(
    a: Seq<Seq<char>>,
    b: Seq<Seq<char>>,
    variables: Map<Seq<char>, VariableView>,
)
    ensures
        variable_inputs(a + b, variables) == variable_inputs(a, variables) + variable_inputs(
            b,
            variables,
        ),
        a.len() == 0 ==> variable_inputs(a, variables).len() == 0,
        a.len() == 1 && (a[0] == "ca_cert"@ || a[0] == "client_cert"@ || a[0] == "client_key"@)
            ==> variable_inputs(a, variables).len() == 0,
        a.len() == 1 && a[0] != "ca_cert"@ && a[0] != "client_cert"@ && a[0] != "client_key"@
            ==> variable_inputs(a, variables) == variable_input(
            a[0],
            variable_or_default(variables, a[0]),
        ),
    decreases b.len(),
{
    if a.len() == 1 {
        assert(a.drop_last() =~= Seq::empty());
        reveal_with_fuel(variable_inputs, 2);
        assert(!reserved(a[0]) ==> variable_inputs(a, variables) =~= variable_input(
            a[0],
            variable_or_default(variables, a[0]),
        ));
    }
    if b.len() == 0 {
        assert(a + b =~= a);
        assert(variable_inputs(a, variables) + variable_inputs(b, variables) =~= variable_inputs(
            a,
            variables,
        ));
    } else {
        assert((a + b).drop_last() =~= a + b.drop_last());
        law_variable_inputs_join(a, b.drop_last(), variables);
        assert(variable_inputs(a + b, variables) =~= variable_inputs(a, variables)
            + variable_inputs(b, variables));
    }
}

// ---- the frame ----

/// A page shows its title, its body and, where asked, its title as a heading; of the five links
/// that of the active page alone stands out.
pub proof fn law_framed_pages(title: Seq<char>, body: Seq<char>, active: Seq<char>)
    ensures
        framed(title, body, true, active) == filled(
            PAGE@,
            seq![
                esc_text(title),
                CSS@,
                link_class(active, "VPN Manager"@),
                link_class(active, "OpenVPN Configs"@),
                link_class(active, "OpenVPN Templates"@),
                link_class(active, "Certificate Authority Config"@),
                link_class(active, "Swagger Explorer"@),
                "<h1>"@ + esc_text(title) + "</h1>"@,
                body,
                JS@,
            ],
        ),
        framed(title, body, false, active) == filled(
            PAGE@,
            seq![
                esc_text(title),
                CSS@,
                link_class(active, "VPN Manager"@),
                link_class(active, "OpenVPN Configs"@),
                link_class(active, "OpenVPN Templates"@),
                link_class(active, "Certificate Authority Config"@),
                link_class(active, "Swagger Explorer"@),
                Seq::<char>::empty(),
                body,
                JS@,
            ],
        ),
        link_class(active, active) == "nav-link active"@,
        title != active ==> link_class(title, active) == "nav-link"@,
{
}

/// A page that reports an error has the status 500, the title of the error and its message.
pub proof fn law_error_pages(answer: Answer, title: Seq<char>, message: Seq<char>)
    ensures
        reports(answer, title, message) <==> (answer matches Answer::Page { status, html }
            && status == 500 && html@ == framed(
            title,
            filled(ERROR@, seq![esc_text(message)]),
            true,
            title,
        )),
        error_html(title, message) == framed(
            title,
            filled(ERROR@, seq![esc_text(message)]),
            true,
            title,
        ),
{
}

/// After an action that succeeded the browser is led on, and to nowhere else; after one that
/// failed it is shown why.
pub proof fn law_after_an_action(
    answer: Answer,
    result: Result<(), String>,
    to: Seq<char>,
    title: Seq<char>,
)
    requires
        follows_action(answer, result, to, title),
    ensures
        result is Ok <==> answer is Redirect,
        answer matches Answer::Redirect(address) ==> address@ == to,
        answer matches Answer::Page { status, html } ==> status == 500 && html@ == error_html(
            title,
            result->Err_0@,
        ),
{
}

/// The editor of a template lies under the identifier of the template.
pub proof fn law_editor_addresses(a: Seq<char>, b: Seq<char>)
    ensures
        editor_address(a) == "/vpnman/templates/"@ + a + "/edit"@,
        editor_address(a) == editor_address(b) ==> a == b,
{
    let n = "/vpnman/templates/"@.len() as int;
    let m = "/edit"@.len() as int;
    if editor_address(a) == editor_address(b) {
        assert(editor_address(a).subrange(n, editor_address(a).len() - m) =~= a);
        assert(editor_address(b).subrange(n, editor_address(b).len() - m) =~= b);
    }
}

// ---- the settings ----

/// Minica counts as configured if and only if its address, the user name and the default
/// authority are each not blank.
pub proof fn law_ca_status(cfg: MinicaConfigView)
    ensures
        (exists|i: int| 0 <= i < cfg.base_url.len() && !white_space(#[trigger] cfg.base_url[i]))
            && (exists|i: int|
            0 <= i < cfg.username.len() && !white_space(#[trigger] cfg.username[i])) && (exists|
            i: int,
        |
            0 <= i < cfg.default_ca_id.len() && !white_space(#[trigger] cfg.default_ca_id[i]))
            ==> ca_status(cfg) == "Certificate Authority configured"@,
        blank(cfg.base_url) || blank(cfg.username) || blank(cfg.default_ca_id) ==> ca_status(cfg)
            == "Certificate Authority not configured"@,
{
}

/// Every certificate authority that was listed has a row, in its order, with its name and its
/// identifier.
pub proof fn law_ca_rows_join(a: Seq<MinicaCa>, b: Seq<MinicaCa>)
    ensures
        ca_rows(a + b) == ca_rows(a) + ca_rows(b),
        a.len() == 0 ==> ca_rows(a).len() == 0,
        a.len() == 1 ==> ca_rows(a) == filled(
            CA_ROW@,
            seq![esc_text(a[0].common_name@), esc_text(a[0].id@)],
        ),
    decreases b.len(),
{
    if a.len() == 1 {
        assert(a.drop_last() =~= Seq::empty());
        reveal_with_fuel(ca_rows, 2);
        assert(ca_rows(a) =~= filled(
            CA_ROW@,
            seq![esc_text(a[0].common_name@), esc_text(a[0].id@)],
        ));
    }
    if b.len() == 0 {
        assert(a + b =~= a);
        assert(ca_rows(a) + ca_rows(b) =~= ca_rows(a));
    } else {
        assert((a + b).drop_last() =~= a + b.drop_last());
        law_ca_rows_join(a, b.drop_last());
        assert(ca_rows(a + b) =~= ca_rows(a) + ca_rows(b));
    }
}

/// The list of certificate authorities shows the rows of all that were listed, that there are
/// none, or why they could not be listed; those listed are the ones that can be chosen.
pub proof fn law_ca_list(listed: Result<Vec<MinicaCa>, String>)
    ensures
        listed is Ok && listed->Ok_0@.len() > 0 ==> ca_list(listed) == filled(
            CA_TABLE@,
            seq![ca_rows(listed->Ok_0@)],
        ),
        listed is Ok && listed->Ok_0@.len() == 0 ==> ca_list(listed) == CA_NONE@,
        listed is Err ==> ca_list(listed) == filled(CA_FAILED@, seq![esc_text(listed->Err_0@)]),
        listed is Ok ==> known_cas(listed) == listed->Ok_0@,
        listed is Err ==> known_cas(listed).len() == 0,
{
}

/// The page of the settings shows every setting in its field.
pub proof fn law_settings_show_every_setting(
    cfg: MinicaConfigView,
    listed: Result<Vec<MinicaCa>, String>,
)
    ensures
        settings_body(cfg, listed) == filled(
            SETTINGS@,
            seq![
                esc_text(cfg.base_url),
                esc_text(cfg.username),
                esc_text(cfg.password),
                esc_text(cfg.default_ca_id),
                ca_select(known_cas(listed), cfg.default_ca_id),
                ca_list(listed),
                decimal(cfg.cert_defaults.valid_days as nat),
                key_profile_choices(cfg.cert_defaults.key_profile),
                esc_text(cfg.cert_defaults.country_code),
                esc_text(cfg.cert_defaults.digest_algorithm),
                esc_text(cfg.cert_defaults.organization),
                esc_text(cfg.cert_defaults.organization_unit),
                esc_text(cfg.cert_defaults.state),
                esc_text(cfg.cert_defaults.city),
                esc_text(joined(cfg.cert_defaults.dns_list, ","@)),
                esc_text(joined(cfg.cert_defaults.ip_list, ","@)),
            ],
        ),
{
}

// ---- templates ----

/// Every template has a row, in its order: with its name, its description, its identifier, the
/// number of its placeholders, and two links under its identifier.
pub proof fn law_template_rows_join(a: Seq<Template>, b: Seq<Template>)
    ensures
        template_rows(a + b) == template_rows(a) + template_rows(b),
        a.len() == 0 ==> template_rows(a).len() == 0,
        a.len() == 1 ==> template_rows(a) == filled(
            TEMPLATE_ROW@,
            seq![
                esc_text(a[0].metadata.name@),
                esc_text(a[0].metadata.description@),
                esc_text(a[0].id@),
                decimal(a[0].variables@.len()),
                esc_text(a[0].id@),
                esc_text(a[0].id@),
            ],
        ),
    decreases b.len(),
{
    if a.len() == 1 {
        assert(a.drop_last() =~= Seq::empty());
        reveal_with_fuel(template_rows, 2);
        assert(template_rows(a) =~= template_row(a[0]@));
    }
    if b.len() == 0 {
        assert(a + b =~= a);
        assert(template_rows(a) + template_rows(b) =~= template_rows(a));
    } else {
        assert((a + b).drop_last() =~= a + b.drop_last());
        law_template_rows_join(a, b.drop_last());
        assert(template_rows(a + b) =~= template_rows(a) + template_rows(b));
    }
}

/// The names among `a` and `b` that are filled with certificates and keys are shown, in order, and
/// no others.
pub proof fn law_reserved_marks_join(a: Seq<Seq<char>>, b: Seq<Seq<char>>)
    ensures
        reserved_marks(a + b) == reserved_marks(a) + reserved_marks(b),
        a.len() == 0 ==> reserved_marks(a).len() == 0,
        a.len() == 1 && (a[0] == "ca_cert"@ || a[0] == "client_cert"@ || a[0] == "client_key"@)
            ==> reserved_marks(a) == seq!["<code>"@ + esc_text(a[0]) + "</code>"@],
        a.len() == 1 && a[0] != "ca_cert"@ && a[0] != "client_cert"@ && a[0] != "client_key"@
            ==> reserved_marks(a).len() == 0,
    decreases b.len(),
{
    if a.len() == 1 {
        assert(a.drop_last() =~= Seq::empty());
        reveal_with_fuel(reserved_marks, 2);
        assert(reserved(a[0]) ==> reserved_marks(a) =~= seq![
            "<code>"@ + esc_text(a[0]) + "</code>"@,
        ]);
    }
    if b.len() == 0 {
        assert(a + b =~= a);
        assert(reserved_marks(a) + reserved_marks(b) =~= reserved_marks(a));
    } else {
        assert((a + b).drop_last() =~= a + b.drop_last());
        law_reserved_marks_join(a, b.drop_last());
        assert(reserved_marks(a + b) =~= reserved_marks(a) + reserved_marks(b));
    }
}

/// The editor shows the template as it is: its identifier, name, description, delimiters, text and
/// the metadata of its variables.
pub proof fn law_editor_shows_the_template(t: TemplateView, vars_yaml: Seq<char>)
    ensures
        editor_html(t, vars_yaml) == framed(
            "Edit Template"@,
            filled(
                EDITOR@,
                seq![
                    esc_text(t.id),
                    esc_text(t.metadata.name),
                    esc_text(t.id),
                    esc_text(t.metadata.description),
                    esc_text(t.metadata.token_start),
                    esc_text(t.metadata.token_stop),
                    esc_text(t.body),
                    esc_text(vars_yaml),
                    joined(reserved_marks(t.variables), " "@),
                ],
            ),
            true,
            "OpenVPN Templates"@,
        ),
{
}

// ---- the form for a profile ----

/// The chosen template is the requested one, known or not; without a request it is the first one.
pub proof fn law_chosen_template(requested: Seq<char>, templates: Seq<Template>)
    ensures
        chosen_template(Some(requested), templates) == requested,
        templates.len() > 0 ==> chosen_template(None, templates) == templates[0].id@,
        templates.len() == 0 ==> chosen_template(None, templates).len() == 0,
{
}

/// Every template is a choice, in its order: with its identifier as its value and its name as its
/// label.
pub proof fn law_template_choices_join(a: Seq<Template>, b: Seq<Template>, selected: Seq<char>)
    ensures
        template_choices(a + b, selected) == template_choices(a, selected) + template_choices(
            b,
            selected,
        ),
        a.len() == 0 ==> template_choices(a, selected).len() == 0,
        a.len() == 1 && a[0].id@ == selected ==> template_choices(a, selected) == filled(
            OPTION@,
            seq![esc_text(a[0].id@), " selected"@, esc_text(a[0].metadata.name@)],
        ),
        a.len() == 1 && a[0].id@ != selected ==> template_choices(a, selected) == filled(
            OPTION@,
            seq![esc_text(a[0].id@), Seq::<char>::empty(), esc_text(a[0].metadata.name@)],
        ),
    decreases b.len(),
{
    if a.len() == 1 {
        assert(a.drop_last() =~= Seq::empty());
        reveal_with_fuel(template_choices, 2);
        assert(a[0].id@ == selected ==> template_choices(a, selected) =~= filled(
            OPTION@,
            seq![esc_text(a[0].id@), " selected"@, esc_text(a[0].metadata.name@)],
        ));
        assert(a[0].id@ != selected ==> template_choices(a, selected) =~= filled(
            OPTION@,
            seq![esc_text(a[0].id@), Seq::<char>::empty(), esc_text(a[0].metadata.name@)],
        ));
    }
    if b.len() == 0 {
        assert(a + b =~= a);
        assert(template_choices(a, selected) + template_choices(b, selected) =~= template_choices(
            a,
            selected,
        ));
    } else {
        assert((a + b).drop_last() =~= a + b.drop_last());
        law_template_choices_join(a, b.drop_last(), selected);
        assert(template_choices(a + b, selected) =~= template_choices(a, selected)
            + template_choices(b, selected));
    }
}

/// The inputs of the form are those of the first template with the chosen identifier; where there
/// is none, the form says so.
pub proof fn law_fields_of_the_chosen_template(templates: Seq<Template>, id: Seq<char>, i: int)
    requires
        0 <= i <= templates.len(),
        forall|j: int| 0 <= j < i ==> (#[trigger] templates[j]).id@ != id,
        i < templates.len() ==> templates[i].id@ == id,
    ensures
        i < templates.len() ==> template_fields(templates, id) == variable_inputs(
            texts(templates[i].variables@),
            templates[i].metadata.variables@,
        ),
        i == templates.len() ==> template_fields(templates, id) == NO_TEMPLATE@,
    decreases templates.len(),
{
    if i > 0 {
        let rest = templates.skip(1);
        assert(templates[0].id@ != id);
        assert forall|j: int| 0 <= j < i - 1 implies (#[trigger] rest[j]).id@ != id by {
            assert(rest[j] == templates[j + 1]);
        }
        if i < templates.len() {
            assert(rest[i - 1] == templates[i]);
        }
        law_fields_of_the_chosen_template(rest, id, i - 1);
    }
}

// ---- profiles ----

/// Every profile has a row, in its order: with its identifier, the name of the client, the name of
/// the authority, the parameters, the age and the date.
pub proof fn law_profile_rows_join(
    a: Seq<(String, ProfileMetadata)>,
    b: Seq<(String, ProfileMetadata)>,
    now: Timestamp,
)
    ensures
        profile_rows(a + b, now) == profile_rows(a, now) + profile_rows(b, now),
        a.len() == 0 ==> profile_rows(a, now).len() == 0,
        a.len() == 1 ==> profile_rows(a, now) == filled(
            PROFILE_ROW@,
            seq![
                esc_text(a[0].0@),
                esc_text(a[0].1.client_name@),
                esc_text(a[0].1.ca_common_name@),
                chips(a[0].1.variables@),
                esc_text(age(elapsed(a[0].1.created_at, now))),
                esc_text(date_of(a[0].1.created_at.seconds, a[0].1.created_at.nanos)),
                esc_text(a[0].0@),
                esc_text(a[0].0@),
            ],
        ),
    decreases b.len(),
{
    if a.len() == 1 {
        assert(a.drop_last() =~= Seq::empty());
        reveal_with_fuel(profile_rows, 2);
        assert(profile_rows(a, now) =~= profile_row(a[0].0@, a[0].1@, now));
    }
    if b.len() == 0 {
        assert(a + b =~= a);
        assert(profile_rows(a, now) + profile_rows(b, now) =~= profile_rows(a, now));
    } else {
        assert((a + b).drop_last() =~= a + b.drop_last());
        law_profile_rows_join(a, b.drop_last(), now);
        assert(profile_rows(a + b, now) =~= profile_rows(a, now) + profile_rows(b, now));
    }
}

/// The list of profiles holds the rows of all of them.
pub proof fn law_list_of_profiles(profiles: Seq<(String, ProfileMetadata)>, now: Timestamp)
    ensures
        profiles_html(profiles, now) == framed(
            "OpenVPN Configs"@,
            filled(PROFILES@, seq![profile_rows(profiles, now)]),
            true,
            "OpenVPN Configs"@,
        ),
{
}

/// The page of a profile shows what is known of it, every parameter, and its text as it is.
pub proof fn law_page_of_a_profile(
    id: Seq<char>,
    meta: ProfileMetadataView,
    raw: Seq<char>,
    now: Timestamp,
)
    ensures
        profile_html(id, meta, raw, now) == framed(
            meta.client_name,
            profile_body(id, meta, raw, now),
            true,
            "OpenVPN Configs"@,
        ),
        profile_body(id, meta, raw, now) == filled(
            PROFILE@,
            seq![
                esc_text(id),
                esc_text(id),
                esc_text(meta.client_name),
                esc_text(meta.template_name),
                esc_text(meta.ca_common_name),
                esc_text(meta.cert_id),
                esc_text(joined(meta.tags, ", "@)),
                esc_text(age(elapsed(meta.created_at, now))),
                esc_text(rfc3339_of(meta.created_at.seconds, meta.created_at.nanos)),
                entry_rows(VALUE_ROW@, ordered(meta.variables)),
                esc_text(raw),
            ],
        ),
{
}

/// A bound that is given is an attribute with the number in quotes.
pub proof fn law_bounds(attribute: Seq<char>, n: i64)
    ensures
        bound(attribute, Some(n)) == attribute + signed_decimal(n as int) + seq!['"'],
        bound(attribute, None).len() == 0,
{
    reveal_strlit("\"");
    assert("\""@ =~= seq!['"']);
}

// ---- the operations ----

/// The browser is led to this address if and only if the action succeeded; else it is shown a page
/// of the status 500.
pub open spec fn leads_to(answer: Answer, result: Result<(), String>, to: Seq<char>) -> bool {
    match result {
        Ok(_) => answer matches Answer::Redirect(address) && address@ == to,
        Err(_) => answer matches Answer::Page { status, .. } && status == 500,
    }
}

/// Where the browser is led after each action.
pub proof fn law_where_actions_lead(
    id: &str,
    result: Result<(), String>,
    settings: Answer,
    defaults: Answer,
    created: Answer,
    saved: Answer,
    template_gone: Answer,
    profile_gone: Answer,
)
    requires
        call_ensures(minica_settings_saved, (result,), settings),
        call_ensures(cert_defaults_saved, (result,), defaults),
        call_ensures(template_created, (id, result), created),
        call_ensures(template_saved, (id, result), saved),
        call_ensures(template_deleted, (result,), template_gone),
        call_ensures(profile_deleted, (result,), profile_gone),
    ensures
        leads_to(settings, result, "/vpnman/settings/minica"@),
        leads_to(defaults, result, "/vpnman/settings/minica"@),
        leads_to(created, result, "/vpnman/templates/"@ + id@ + "/edit"@),
        leads_to(saved, result, "/vpnman/templates/"@ + id@ + "/edit"@),
        leads_to(template_gone, result, "/vpnman/templates"@),
        leads_to(profile_gone, result, "/vpnman/profiles"@),
{
}

/// After a configuration was issued the browser is led to the list; where none was, it is shown
/// why.
pub proof fn law_where_issuing_leads(issued: Result<ApiProfile, ApiFailure>, r: Answer)
    requires
        call_ensures(profile_generated, (issued,), r),
    ensures
        issued is Ok ==> (r matches Answer::Redirect(address) && address@ == "/vpnman/profiles"@),
        issued matches Err(f) ==> (r matches Answer::Page { status, html } && status == 500
            && html@ == error_html(f.code@, f.message@)),
{
}

/// The first page shows how many templates and profiles there are, and whether Minica is
/// configured.
pub proof fn law_first_page(templates: usize, profiles: usize, cfg: MinicaConfig, r: String)
    requires
        call_ensures(index, (templates, profiles, Some(cfg)), r),
    ensures
        r@ == framed(
            "VPN Manager"@,
            filled(
                DASHBOARD@,
                seq![
                    decimal(templates as nat),
                    decimal(profiles as nat),
                    esc_text(ca_status(cfg@)),
                ],
            ),
            false,
            "VPN Manager"@,
        ),
{
}

/// The page of the templates holds the rows of all of them, and that of the settings all settings.
pub proof fn law_pages_of_templates_and_settings(
    templates: &Vec<Template>,
    listed: String,
    cfg: &MinicaConfig,
    cas: Result<Vec<MinicaCa>, String>,
    settings: String,
)
    requires
        call_ensures(templates_index, (templates,), listed),
        call_ensures(minica_settings, (cfg, cas), settings),
    ensures
        listed@ == framed(
            "OpenVPN Templates"@,
            filled(TEMPLATES@, seq![template_rows(templates@)]),
            true,
            "OpenVPN Templates"@,
        ),
        settings@ == framed(
            "Certificate Authority Config"@,
            settings_body(cfg@, cas),
            true,
            "Certificate Authority Config"@,
        ),
{
}

/// The form for a profile offers all templates and all authorities, with the requested template
/// and the default authority chosen, and the inputs of that template.
pub proof fn law_form_for_a_profile(
    templates: &Vec<Template>,
    cfg: MinicaConfig,
    cas: &Vec<MinicaCa>,
    requested: String,
    r: String,
)
    requires
        call_ensures(generate_form, (templates, Some(cfg), cas, Some(requested)), r),
    ensures
        r@ == framed(
            "Generate Profile"@,
            filled(
                GENERATOR@,
                seq![
                    template_choices(templates@, requested@),
                    ca_choices(cas@, cfg.default_ca_id@),
                    template_fields(templates@, requested@),
                ],
            ),
            true,
            "Generate Profile"@,
        ),
{
}

/// A profile is handed out byte by byte as it was read.
pub proof fn law_downloads(read: Result<Vec<u8>, String>, r: Result<Download, Answer>)
    requires
        call_ensures(download_profile, (read,), r),
    ensures
        read matches Ok(bytes) ==> (r matches Ok(d) && d.bytes@ == bytes@ && d.content_type@
            == "application/x-openvpn-profile"@ && d.content_disposition@
            == "attachment; filename=\"profile.ovpn\""@),
        read is Err ==> r is Err,
{
}

/// The editor shows the template that was loaded.
pub proof fn law_shown_editor(t: Template, vars_yaml: String, r: Answer)
    requires
        call_ensures(edit_template, (Ok((t, vars_yaml)),), r),
    ensures
        r matches Answer::Page { status, html } && status == 200 && html@ == editor_html(
            t@,
            vars_yaml@,
        ),
{
}

} // verus!
