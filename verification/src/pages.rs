//! The web pages.
use vstd::prelude::*;

use crate::api::{ApiFailure, ApiProfile, ProfileMetadata, ProfileMetadataView};
use crate::assets::{CSS, JS};
use crate::clock::{age, age_at, calendar_date, current_time, elapsed, iso8601_seconds, Timestamp};
use crate::editing::PageFailure;
use crate::html::{
    ca_choices, ca_options, ca_select, ca_select_options, chips, entry_rows, esc, esc_text,
    key_profile_choices, key_profile_options, map_rows, render_parameter_chips,
    render_template_variable_inputs, text_if, variable_inputs, OPTION,
};
use crate::layout::{
    CA_FAILED, CA_NONE, CA_ROW, CA_TABLE, DASHBOARD, EDITOR, ERROR, GENERATOR, NO_TEMPLATE, PAGE,
    PROFILE, PROFILES, PROFILE_ROW, SETTINGS, SWAGGER, TEMPLATES, TEMPLATE_ROW, VALUE_ROW,
};
use crate::minica::{
    config_or_default, config_or_initial, optional_text, MinicaCa, MinicaConfig, MinicaConfigView,
};
use crate::number::{decimal, natural_text};
use crate::outside::{date_of, rfc3339_of};
use crate::storage::{
    profile_at, profile_location, storage_id, template_at, template_location, StoredPaths,
};
use crate::string_map::ordered;
use crate::templates::{is_reserved, reserved, Template, TemplateView};
use crate::text::{begins_with, blank, fill, filled, is_blank, join, joined, same_text, texts};

verus! {

/// An answer to a browser.
#[derive(Debug, PartialEq, Eq)]
pub enum Answer {
    /// Go to this address.
    Redirect(String),
    /// Show this page.
    Page { status: u16, html: String },
}

// ---- the frame ----

/// The class of a link: the one to the active page stands out.
pub open spec fn link_class(title: Seq<char>, active_title: Seq<char>) -> Seq<char> {
    if title == active_title {
        "nav-link active"@
    } else {
        "nav-link"@
    }
}

/// The class of a link: the one to the active page stands out.
pub fn nav_class(title: &str, active_title: &str) -> (r: &'static str)
    ensures
        r@ == link_class(title@, active_title@),
{
    if same_text(title, active_title) {
        "nav-link active"
    } else {
        "nav-link"
    }
}

/// A page: its title, its body, whether the title stands above the body, and which link is the
/// active one.
pub open spec fn framed(
    title: Seq<char>,
    body: Seq<char>,
    show_heading: bool,
    active_nav: Seq<char>,
) -> Seq<char> {
    filled(
        PAGE@,
        seq![
            esc_text(title),
            CSS@,
            link_class(active_nav, "VPN Manager"@),
            link_class(active_nav, "OpenVPN Configs"@),
            link_class(active_nav, "OpenVPN Templates"@),
            link_class(active_nav, "Certificate Authority Config"@),
            link_class(active_nav, "Swagger Explorer"@),
            text_if(show_heading, "<h1>"@ + esc_text(title) + "</h1>"@),
            body,
            JS@,
        ],
    )
}

/// A page of a title and a body.
pub fn page_with_heading(title: &str, body: &str, show_heading: bool, active_nav: &str) -> (r: String)
    ensures
        r@ == framed(title@, body@, show_heading, active_nav@),
{
    let heading = if show_heading {
        let mut heading = "<h1>".to_string();
        heading.append(esc(title).as_str());
        heading.append("</h1>");
        heading
    } else {
        String::new()
    };
    let args = vec![
        esc(title),
        CSS.to_string(),
        nav_class(active_nav, "VPN Manager").to_string(),
        nav_class(active_nav, "OpenVPN Configs").to_string(),
        nav_class(active_nav, "OpenVPN Templates").to_string(),
        nav_class(active_nav, "Certificate Authority Config").to_string(),
        nav_class(active_nav, "Swagger Explorer").to_string(),
        heading,
        body.to_string(),
        JS.to_string(),
    ];
    proof {
        assert(texts(args@) =~= seq![
            esc_text(title@),
            CSS@,
            link_class(active_nav@, "VPN Manager"@),
            link_class(active_nav@, "OpenVPN Configs"@),
            link_class(active_nav@, "OpenVPN Templates"@),
            link_class(active_nav@, "Certificate Authority Config"@),
            link_class(active_nav@, "Swagger Explorer"@),
            text_if(show_heading, "<h1>"@ + esc_text(title@) + "</h1>"@),
            body@,
            JS@,
        ]);
    }
    fill(PAGE, &args)
}

/// A page under its own link.
pub fn page(title: &str, body: &str) -> (r: String)
    ensures
        r@ == framed(title@, body@, true, title@),
{
    page_with_heading(title, body, true, title)
}

/// A page under its own link, without its title above the body.
pub fn page_without_heading(title: &str, body: &str) -> (r: String)
    ensures
        r@ == framed(title@, body@, false, title@),
{
    page_with_heading(title, body, false, title)
}

/// A page under the link to the templates.
pub fn template_page(title: &str, body: &str) -> (r: String)
    ensures
        r@ == framed(title@, body@, true, "OpenVPN Templates"@),
{
    page_with_heading(title, body, true, "OpenVPN Templates")
}

/// A page under the link to the profiles.
pub fn config_page(title: &str, body: &str) -> (r: String)
    ensures
        r@ == framed(title@, body@, true, "OpenVPN Configs"@),
{
    page_with_heading(title, body, true, "OpenVPN Configs")
}

/// The pattern with one mark filled.
fn fill_one(pattern: &str, arg: String) -> (r: String)
    ensures
        r@ == filled(pattern@, seq![arg@]),
{
    let args = vec![arg];
    proof {
        assert(texts(args@) =~= seq![arg@]);
    }
    fill(pattern, &args)
}

/// The page that reports an error.
pub open spec fn error_html(title: Seq<char>, message: Seq<char>) -> Seq<char> {
    framed(title, filled(ERROR@, seq![esc_text(message)]), true, title)
}

/// The answer shows the page that reports the error.
pub open spec fn reports(answer: Answer, title: Seq<char>, message: Seq<char>) -> bool {
    answer matches Answer::Page { status, html } && status == 500 && html@ == error_html(
        title,
        message,
    )
}

/// The answer that reports an error.
pub fn error_page(title: &str, message: &str) -> (r: Answer)
    ensures
        reports(r, title@, message@),
{
    let body = fill_one(ERROR, esc(message));
    Answer::Page { status: 500, html: page(title, body.as_str()) }
}

/// The answer that reports why something was not done.
pub fn failure_page(failure: &PageFailure) -> (r: Answer)
    ensures
        reports(r, failure@.title, failure@.message),
{
    error_page(failure.title, failure.message.as_str())
}

// ---- after an action ----

/// What follows an action: on success an address, on failure a page that reports the error.
pub open spec fn follows_action(
    answer: Answer,
    result: Result<(), String>,
    to: Seq<char>,
    title: Seq<char>,
) -> bool {
    match result {
        Ok(_) => answer matches Answer::Redirect(address) && address@ == to,
        Err(e) => reports(answer, title, e@),
    }
}

/// What follows an action.
fn after_action(result: Result<(), String>, to: String, title: &str) -> (r: Answer)
    ensures
        follows_action(r, result, to@, title@),
{
    match result {
        Ok(_) => Answer::Redirect(to),
        Err(e) => error_page(title, e.as_str()),
    }
}

/// The paths of the template `id`, or the answer where it is no identifier.
pub fn locate_template(root: &str, id: &str) -> (r: Result<StoredPaths, Answer>)
    ensures
        r is Ok == storage_id(id@),
        match r {
            Ok(p) => template_at(p, root@, id@),
            Err(answer) => reports(answer, "Invalid Template ID"@, "template ID is not valid"@),
        },
{
    match template_location(root, id) {
        Ok(paths) => Ok(paths),
        Err(e) => Err(error_page("Invalid Template ID", e.as_str())),
    }
}

/// The paths of the profile `id`, or the answer where it is no identifier.
pub fn locate_profile(root: &str, id: &str) -> (r: Result<StoredPaths, Answer>)
    ensures
        r is Ok == storage_id(id@),
        match r {
            Ok(p) => profile_at(p, root@, id@),
            Err(answer) => reports(answer, "Invalid Profile ID"@, "profile ID is not valid"@),
        },
{
    match profile_location(root, id) {
        Ok(paths) => Ok(paths),
        Err(e) => Err(error_page("Invalid Profile ID", e.as_str())),
    }
}

/// The answer to a request for the root.
pub fn root_redirect() -> (r: Answer)
    ensures
        r matches Answer::Redirect(address) && address@ == "/vpnman/"@,
{
    Answer::Redirect("/vpnman/".to_string())
}

/// The answer after the settings were written, or could not be.
pub fn minica_settings_saved(result: Result<(), String>) -> (r: Answer)
    ensures
        follows_action(r, result, "/vpnman/settings/minica"@, "Failed To Save Settings"@),
{
    after_action(result, "/vpnman/settings/minica".to_string(), "Failed To Save Settings")
}

/// The answer after the certificate defaults were written, or could not be.
pub fn cert_defaults_saved(result: Result<(), String>) -> (r: Answer)
    ensures
        follows_action(
            r,
            result,
            "/vpnman/settings/minica"@,
            "Failed To Save Certificate Defaults"@,
        ),
{
    after_action(
        result,
        "/vpnman/settings/minica".to_string(),
        "Failed To Save Certificate Defaults",
    )
}

/// The address of the editor of a template.
pub open spec fn editor_address(id: Seq<char>) -> Seq<char> {
    "/vpnman/templates/"@ + id + "/edit"@
}

/// The address of the editor of a template.
fn editor_of(id: &str) -> (r: String)
    ensures
        r@ == editor_address(id@),
{
    let mut to = "/vpnman/templates/".to_string();
    to.append(id);
    to.append("/edit");
    to
}

/// The answer after the new template `id` was written, or could not be.
pub fn template_created(id: &str, result: Result<(), String>) -> (r: Answer)
    ensures
        follows_action(r, result, editor_address(id@), "Failed To Create Template"@),
{
    after_action(result, editor_of(id), "Failed To Create Template")
}

/// The answer after the template `id` was written, or could not be.
pub fn template_saved(id: &str, result: Result<(), String>) -> (r: Answer)
    ensures
        follows_action(r, result, editor_address(id@), "Failed To Save Template"@),
{
    after_action(result, editor_of(id), "Failed To Save Template")
}

/// The answer after a template was deleted, or could not be.
pub fn template_deleted(result: Result<(), String>) -> (r: Answer)
    ensures
        follows_action(r, result, "/vpnman/templates"@, "Failed To Delete Template"@),
{
    after_action(result, "/vpnman/templates".to_string(), "Failed To Delete Template")
}

/// The answer after a profile was deleted, or could not be.
pub fn profile_deleted(result: Result<(), String>) -> (r: Answer)
    ensures
        follows_action(r, result, "/vpnman/profiles"@, "Failed To Delete Profile"@),
{
    after_action(result, "/vpnman/profiles".to_string(), "Failed To Delete Profile")
}

/// The answer after a profile was issued from the form, or could not be.
pub fn profile_generated(issued: Result<ApiProfile, ApiFailure>) -> (r: Answer)
    ensures
        match issued {
            Ok(_) => r matches Answer::Redirect(address) && address@ == "/vpnman/profiles"@,
            Err(f) => reports(r, f@.code, f@.message),
        },
{
    match issued {
        Ok(_) => Answer::Redirect("/vpnman/profiles".to_string()),
        Err(f) => error_page(f.code, f.message.as_str()),
    }
}

/// The addresses to which an answer leads stand under the base path.
pub proof fn law_addresses_stay_under_the_base_path(id: Seq<char>)
    ensures
        begins_with(editor_address(id), "/vpnman/"@),
        begins_with("/vpnman/settings/minica"@, "/vpnman/"@),
        begins_with("/vpnman/templates"@, "/vpnman/"@),
        begins_with("/vpnman/profiles"@, "/vpnman/"@),
{
    reveal_strlit("/vpnman/");
    reveal_strlit("/vpnman/templates/");
    reveal_strlit("/vpnman/settings/minica");
    reveal_strlit("/vpnman/templates");
    reveal_strlit("/vpnman/profiles");
    let n = "/vpnman/"@.len() as int;
    assert(editor_address(id).take(n) =~= "/vpnman/"@);
    assert("/vpnman/settings/minica"@.take(n) =~= "/vpnman/"@);
    assert("/vpnman/templates"@.take(n) =~= "/vpnman/"@);
    assert("/vpnman/profiles"@.take(n) =~= "/vpnman/"@);
}

// ---- the first page ----

/// Whether the settings for Minica are complete, in words.
pub open spec fn ca_status(cfg: MinicaConfigView) -> Seq<char> {
    if blank(cfg.base_url) || blank(cfg.username) || blank(cfg.default_ca_id) {
        "Certificate Authority not configured"@
    } else {
        "Certificate Authority configured"@
    }
}

/// The first page: the numbers of templates and profiles, and whether Minica is configured.
pub fn index(templates: usize, profiles: usize, current: Option<MinicaConfig>) -> (r: String)
    ensures
        r@ == framed(
            "VPN Manager"@,
            filled(
                DASHBOARD@,
                seq![
                    decimal(templates as nat),
                    decimal(profiles as nat),
                    esc_text(ca_status(config_or_initial(current))),
                ],
            ),
            false,
            "VPN Manager"@,
        ),
{
    let cfg = config_or_default(current);
    let status = if is_blank(cfg.base_url.as_str()) || is_blank(cfg.username.as_str()) || is_blank(
        cfg.default_ca_id.as_str(),
    ) {
        "Certificate Authority not configured"
    } else {
        "Certificate Authority configured"
    };
    let args = vec![natural_text(templates as u128), natural_text(profiles as u128), esc(status)];
    proof {
        assert(texts(args@) =~= seq![
            decimal(templates as nat),
            decimal(profiles as nat),
            esc_text(ca_status(cfg@)),
        ]);
    }
    page_without_heading("VPN Manager", fill(DASHBOARD, &args).as_str())
}

// ---- the settings ----

/// The rows of the list of certificate authorities.
pub open spec fn ca_rows(cas: Seq<MinicaCa>) -> Seq<char>
    decreases cas.len(),
{
    if cas.len() == 0 {
        Seq::empty()
    } else {
        ca_rows(cas.drop_last()) + filled(
            CA_ROW@,
            seq![esc_text(cas.last().common_name@), esc_text(cas.last().id@)],
        )
    }
}

/// The rows of the list of certificate authorities.
fn ca_rows_text(cas: &Vec<MinicaCa>) -> (r: String)
    ensures
        r@ == ca_rows(cas@),
{
    let mut out = String::new();
    for i in 0..cas.len()
        invariant
            out@ == ca_rows(cas@.take(i as int)),
    {
        let args = vec![esc(cas[i].common_name.as_str()), esc(cas[i].id.as_str())];
        proof {
            assert(texts(args@) =~= seq![
                esc_text(cas@[i as int].common_name@),
                esc_text(cas@[i as int].id@),
            ]);
            assert(cas@.take(i + 1).drop_last() =~= cas@.take(i as int));
        }
        out.append(fill(CA_ROW, &args).as_str());
    }
    proof {
        assert(cas@.take(cas@.len() as int) =~= cas@);
    }
    out
}

/// The list of certificate authorities, or why it could not be had.
pub open spec fn ca_list(listed: Result<Vec<MinicaCa>, String>) -> Seq<char> {
    match listed {
        Ok(cas) => if cas@.len() == 0 {
            CA_NONE@
        } else {
            filled(CA_TABLE@, seq![ca_rows(cas@)])
        },
        Err(e) => filled(CA_FAILED@, seq![esc_text(e@)]),
    }
}

/// The certificate authorities that could be listed.
pub open spec fn known_cas(listed: Result<Vec<MinicaCa>, String>) -> Seq<MinicaCa> {
    match listed {
        Ok(cas) => cas@,
        Err(_) => Seq::empty(),
    }
}

/// The body of the settings.
pub open spec fn settings_body(
    cfg: MinicaConfigView,
    listed: Result<Vec<MinicaCa>, String>,
) -> Seq<char> {
    let d = cfg.cert_defaults;
    filled(
        SETTINGS@,
        seq![
            esc_text(cfg.base_url),
            esc_text(cfg.username),
            esc_text(cfg.password),
            esc_text(cfg.default_ca_id),
            ca_select(known_cas(listed), cfg.default_ca_id),
            ca_list(listed),
            decimal(d.valid_days as nat),
            key_profile_choices(d.key_profile),
            esc_text(d.country_code),
            esc_text(d.digest_algorithm),
            esc_text(d.organization),
            esc_text(d.organization_unit),
            esc_text(d.state),
            esc_text(d.city),
            esc_text(joined(d.dns_list, ","@)),
            esc_text(joined(d.ip_list, ","@)),
        ],
    )
}

/// The page of the settings, given what came of listing the certificate authorities under them.
pub fn minica_settings(cfg: &MinicaConfig, listed: Result<Vec<MinicaCa>, String>) -> (r: String)
    ensures
        r@ == framed(
            "Certificate Authority Config"@,
            settings_body(cfg@, listed),
            true,
            "Certificate Authority Config"@,
        ),
{
    let ghost cas0 = known_cas(listed);
    let ghost list0 = ca_list(listed);
    let (options, list) = match listed {
        Ok(cas) => {
            let options = ca_select_options(&cas, cfg.default_ca_id.as_str());
            if cas.len() == 0 {
                (options, CA_NONE.to_string())
            } else {
                (options, fill_one(CA_TABLE, ca_rows_text(&cas)))
            }
        },
        Err(e) => {
            let none: Vec<MinicaCa> = Vec::new();
            (
                ca_select_options(&none, cfg.default_ca_id.as_str()),
                fill_one(CA_FAILED, esc(e.as_str())),
            )
        },
    };
    let d = &cfg.cert_defaults;
    let args = vec![
        esc(cfg.base_url.as_str()),
        esc(cfg.username.as_str()),
        esc(cfg.password.as_str()),
        esc(cfg.default_ca_id.as_str()),
        options,
        list,
        natural_text(d.valid_days as u128),
        key_profile_options(d.key_profile.as_str()),
        esc(d.country_code.as_str()),
        esc(d.digest_algorithm.as_str()),
        esc(d.organization.as_str()),
        esc(d.organization_unit.as_str()),
        esc(d.state.as_str()),
        esc(d.city.as_str()),
        esc(join(&d.dns_list, ",").as_str()),
        esc(join(&d.ip_list, ",").as_str()),
    ];
    proof {
        let c = cfg@;
        let v = c.cert_defaults;
        assert(texts(args@) =~= seq![
            esc_text(c.base_url),
            esc_text(c.username),
            esc_text(c.password),
            esc_text(c.default_ca_id),
            ca_select(cas0, c.default_ca_id),
            list0,
            decimal(v.valid_days as nat),
            key_profile_choices(v.key_profile),
            esc_text(v.country_code),
            esc_text(v.digest_algorithm),
            esc_text(v.organization),
            esc_text(v.organization_unit),
            esc_text(v.state),
            esc_text(v.city),
            esc_text(joined(v.dns_list, ","@)),
            esc_text(joined(v.ip_list, ","@)),
        ]);
    }
    page("Certificate Authority Config", fill(SETTINGS, &args).as_str())
}

// ---- templates ----

/// A template in the list.
pub open spec fn template_row(t: TemplateView) -> Seq<char> {
    filled(
        TEMPLATE_ROW@,
        seq![
            esc_text(t.metadata.name),
            esc_text(t.metadata.description),
            esc_text(t.id),
            decimal(t.variables.len()),
            esc_text(t.id),
            esc_text(t.id),
        ],
    )
}

/// The rows of the list of templates.
pub open spec fn template_rows(templates: Seq<Template>) -> Seq<char>
    decreases templates.len(),
{
    if templates.len() == 0 {
        Seq::empty()
    } else {
        template_rows(templates.drop_last()) + template_row(templates.last()@)
    }
}

/// The page that lists the templates in their order.
pub fn templates_index(templates: &Vec<Template>) -> (r: String)
    ensures
        r@ == framed(
            "OpenVPN Templates"@,
            filled(TEMPLATES@, seq![template_rows(templates@)]),
            true,
            "OpenVPN Templates"@,
        ),
{
    let mut rows = String::new();
    for i in 0..templates.len()
        invariant
            rows@ == template_rows(templates@.take(i as int)),
    {
        let t = &templates[i];
        let args = vec![
            esc(t.metadata.name.as_str()),
            esc(t.metadata.description.as_str()),
            esc(t.id.as_str()),
            natural_text(t.variables.len() as u128),
            esc(t.id.as_str()),
            esc(t.id.as_str()),
        ];
        proof {
            let v = t@;
            assert(texts(args@) =~= seq![
                esc_text(v.metadata.name),
                esc_text(v.metadata.description),
                esc_text(v.id),
                decimal(v.variables.len()),
                esc_text(v.id),
                esc_text(v.id),
            ]);
            assert(templates@.take(i + 1).drop_last() =~= templates@.take(i as int));
        }
        rows.append(fill(TEMPLATE_ROW, &args).as_str());
    }
    proof {
        assert(templates@.take(templates@.len() as int) =~= templates@);
    }
    page("OpenVPN Templates", fill_one(TEMPLATES, rows).as_str())
}

/// The names that are filled with certificates and keys, each as it is shown.
pub open spec fn reserved_marks(names: Seq<Seq<char>>) -> Seq<Seq<char>>
    decreases names.len(),
{
    if names.len() == 0 {
        Seq::empty()
    } else if reserved(names.last()) {
        reserved_marks(names.drop_last()).push(
            "<code>"@ + esc_text(names.last()) + "</code>"@,
        )
    } else {
        reserved_marks(names.drop_last())
    }
}

/// The names that are filled with certificates and keys, each as it is shown.
fn reserved_marks_text(names: &Vec<String>) -> (r: Vec<String>)
    ensures
        texts(r@) == reserved_marks(texts(names@)),
{
    let ghost all = texts(names@);
    let mut out: Vec<String> = Vec::new();
    proof {
        assert(texts(out@) =~= reserved_marks(all.take(0)));
    }
    for i in 0..names.len()
        invariant
            all == texts(names@),
            texts(out@) == reserved_marks(all.take(i as int)),
    {
        proof {
            assert(all.take(i + 1).drop_last() =~= all.take(i as int));
            assert(all.take(i + 1).last() == all[i as int]);
        }
        if is_reserved(names[i].as_str()) {
            let mut mark = "<code>".to_string();
            mark.append(esc(names[i].as_str()).as_str());
            mark.append("</code>");
            let ghost had = texts(out@);
            let ghost m = mark@;
            out.push(mark);
            proof {
                assert(texts(out@) =~= had.push(m));
            }
        }
    }
    proof {
        assert(all.take(all.len() as int) =~= all);
    }
    out
}

/// The page of the editor of a template; `vars_yaml` is the metadata of its variables as it is
/// shown.
pub open spec fn editor_html(t: TemplateView, vars_yaml: Seq<char>) -> Seq<char> {
    framed(
        "Edit Template"@,
        filled(
            EDITOR@,
            seq![
                esc_text(t.id),
                esc_text(t.metadata.name),
                esc_text(t.id),
                esc_text(t.metadata.description),
                esc_text(t.metadata.token_start),
                esc_text(t.metadata.token_stop),
                esc_text(t.body),
                esc_text(vars_yaml),
                joined(reserved_marks(t.variables), " "@),
            ],
        ),
        true,
        "OpenVPN Templates"@,
    )
}

/// The page of the editor of a template.
fn editor_page(template: &Template, vars_yaml: &str) -> (r: String)
    ensures
        r@ == editor_html(template@, vars_yaml@),
{
    let marks = reserved_marks_text(&template.variables);
    let args = vec![
        esc(template.id.as_str()),
        esc(template.metadata.name.as_str()),
        esc(template.id.as_str()),
        esc(template.metadata.description.as_str()),
        esc(template.metadata.token_start.as_str()),
        esc(template.metadata.token_stop.as_str()),
        esc(template.body.as_str()),
        esc(vars_yaml),
        join(&marks, " "),
    ];
    proof {
        let t = template@;
        assert(texts(args@) =~= seq![
            esc_text(t.id),
            esc_text(t.metadata.name),
            esc_text(t.id),
            esc_text(t.metadata.description),
            esc_text(t.metadata.token_start),
            esc_text(t.metadata.token_stop),
            esc_text(t.body),
            esc_text(vars_yaml@),
            joined(reserved_marks(t.variables), " "@),
        ]);
    }
    template_page("Edit Template", fill(EDITOR, &args).as_str())
}

/// The answer to a request for the editor of a template, given the template and the metadata of
/// its variables as it is shown, or why it could not be loaded.
pub fn edit_template(loaded: Result<(Template, String), String>) -> (r: Answer)
    ensures
        match loaded {
            Ok((template, vars_yaml)) => r matches Answer::Page { status, html } && status == 200
                && html@ == editor_html(template@, vars_yaml@),
            Err(e) => reports(r, "Template Not Found"@, e@),
        },
{
    match loaded {
        Ok((template, vars_yaml)) => Answer::Page {
            status: 200,
            html: editor_page(&template, vars_yaml.as_str()),
        },
        Err(e) => error_page("Template Not Found", e.as_str()),
    }
}

// ---- the form for a profile ----

/// The template that is chosen: the requested one, or the first one.
pub open spec fn chosen_template(requested: Option<Seq<char>>, templates: Seq<Template>) -> Seq<char> {
    match requested {
        Some(id) => id,
        None => if templates.len() > 0 {
            templates[0].id@
        } else {
            Seq::empty()
        },
    }
}

/// The templates as choices.
pub open spec fn template_choices(templates: Seq<Template>, selected: Seq<char>) -> Seq<char>
    decreases templates.len(),
{
    if templates.len() == 0 {
        Seq::empty()
    } else {
        let t = templates.last();
        template_choices(templates.drop_last(), selected) + filled(
            OPTION@,
            seq![
                esc_text(t.id@),
                text_if(t.id@ == selected, " selected"@),
                esc_text(t.metadata.name@),
            ],
        )
    }
}

/// The templates as choices.
fn template_choices_text(templates: &Vec<Template>, selected: &str) -> (r: String)
    ensures
        r@ == template_choices(templates@, selected@),
{
    let mut out = String::new();
    for i in 0..templates.len()
        invariant
            out@ == template_choices(templates@.take(i as int), selected@),
    {
        let t = &templates[i];
        let mark = if same_text(t.id.as_str(), selected) {
            " selected".to_string()
        } else {
            String::new()
        };
        let args = vec![esc(t.id.as_str()), mark, esc(t.metadata.name.as_str())];
        proof {
            assert(texts(args@) =~= seq![
                esc_text(t.id@),
                text_if(t.id@ == selected@, " selected"@),
                esc_text(t.metadata.name@),
            ]);
            assert(templates@.take(i + 1).drop_last() =~= templates@.take(i as int));
        }
        out.append(fill(OPTION, &args).as_str());
    }
    proof {
        assert(templates@.take(templates@.len() as int) =~= templates@);
    }
    out
}

/// The inputs of the first template with the identifier.
pub open spec fn template_fields(templates: Seq<Template>, id: Seq<char>) -> Seq<char>
    decreases templates.len(),
{
    if templates.len() == 0 {
        NO_TEMPLATE@
    } else if templates[0].id@ == id {
        variable_inputs(texts(templates[0].variables@), templates[0].metadata.variables@)
    } else {
        template_fields(templates.skip(1), id)
    }
}

/// The inputs of the first template with the identifier.
fn template_fields_text(templates: &Vec<Template>, id: &str) -> (r: String)
    requires
        forall|i: int| 0 <= i < templates@.len() ==> (#[trigger] templates@[i]).wf(),
    ensures
        r@ == template_fields(templates@, id@),
{
    proof {
        assert(templates@.skip(0) =~= templates@);
    }
    for i in 0..templates.len()
        invariant
            forall|i: int| 0 <= i < templates@.len() ==> (#[trigger] templates@[i]).wf(),
            template_fields(templates@.skip(i as int), id@) == template_fields(templates@, id@),
    {
        proof {
            assert(templates@.skip(i as int).skip(1) =~= templates@.skip(i + 1));
        }
        if same_text(templates[i].id.as_str(), id) {
            return render_template_variable_inputs(&templates[i]);
        }
    }
    NO_TEMPLATE.to_string()
}

/// The form for a profile: the templates, the certificate authorities and the inputs of the
/// chosen template.
pub fn generate_form(
    templates: &Vec<Template>,
    current: Option<MinicaConfig>,
    cas: &Vec<MinicaCa>,
    requested: Option<String>,
) -> (r: String)
    requires
        forall|i: int| 0 <= i < templates@.len() ==> (#[trigger] templates@[i]).wf(),
    ensures
        r@ == framed(
            "Generate Profile"@,
            filled(
                GENERATOR@,
                seq![
                    template_choices(
                        templates@,
                        chosen_template(optional_text(requested), templates@),
                    ),
                    ca_choices(cas@, config_or_initial(current).default_ca_id),
                    template_fields(
                        templates@,
                        chosen_template(optional_text(requested), templates@),
                    ),
                ],
            ),
            true,
            "Generate Profile"@,
        ),
{
    let cfg = config_or_default(current);
    let ghost chosen = chosen_template(optional_text(requested), templates@);
    let selected = match requested {
        Some(id) => id,
        None => if templates.len() > 0 {
            templates[0].id.clone()
        } else {
            String::new()
        },
    };
    proof {
        assert(selected@ =~= chosen);
    }
    let args = vec![
        template_choices_text(templates, selected.as_str()),
        ca_options(cas, cfg.default_ca_id.as_str()),
        template_fields_text(templates, selected.as_str()),
    ];
    proof {
        assert(texts(args@) =~= seq![
            template_choices(templates@, chosen),
            ca_choices(cas@, cfg@.default_ca_id),
            template_fields(templates@, chosen),
        ]);
    }
    page("Generate Profile", fill(GENERATOR, &args).as_str())
}

// ---- profiles ----

/// A profile in the list, as it is shown at the instant `now`.
pub open spec fn profile_row(id: Seq<char>, meta: ProfileMetadataView, now: Timestamp) -> Seq<char> {
    filled(
        PROFILE_ROW@,
        seq![
            esc_text(id),
            esc_text(meta.client_name),
            esc_text(meta.ca_common_name),
            chips(meta.variables),
            esc_text(age(elapsed(meta.created_at, now))),
            esc_text(date_of(meta.created_at.seconds, meta.created_at.nanos)),
            esc_text(id),
            esc_text(id),
        ],
    )
}

/// The rows of the list of profiles.
pub open spec fn profile_rows(profiles: Seq<(String, ProfileMetadata)>, now: Timestamp) -> Seq<char>
    decreases profiles.len(),
{
    if profiles.len() == 0 {
        Seq::empty()
    } else {
        profile_rows(profiles.drop_last(), now) + profile_row(
            profiles.last().0@,
            profiles.last().1@,
            now,
        )
    }
}

/// What is known of a profile can be shown.
pub open spec fn showable(meta: ProfileMetadata) -> bool {
    meta.variables.wf() && meta.created_at.on_calendar()
}

/// The page that lists the profiles.
pub open spec fn profiles_html(profiles: Seq<(String, ProfileMetadata)>, now: Timestamp) -> Seq<char> {
    framed(
        "OpenVPN Configs"@,
        filled(PROFILES@, seq![profile_rows(profiles, now)]),
        true,
        "OpenVPN Configs"@,
    )
}

/// The page that lists the profiles in their order, as it is shown at the instant `now`.
pub fn profiles_page(profiles: &Vec<(String, ProfileMetadata)>, now: Timestamp) -> (r: String)
    requires
        forall|i: int| 0 <= i < profiles@.len() ==> showable(#[trigger] profiles@[i].1),
        now.on_calendar(),
    ensures
        r@ == profiles_html(profiles@, now),
{
    let mut rows = String::new();
    for i in 0..profiles.len()
        invariant
            forall|i: int| 0 <= i < profiles@.len() ==> showable(#[trigger] profiles@[i].1),
            now.on_calendar(),
            rows@ == profile_rows(profiles@.take(i as int), now),
    {
        let id = profiles[i].0.as_str();
        let meta = &profiles[i].1;
        proof {
            assert(showable(profiles@[i as int].1));
        }
        let args = vec![
            esc(id),
            esc(meta.client_name.as_str()),
            esc(meta.ca_common_name.as_str()),
            render_parameter_chips(&meta.variables),
            esc(age_at(meta.created_at, now).unwrap().as_str()),
            esc(calendar_date(meta.created_at).unwrap().as_str()),
            esc(id),
            esc(id),
        ];
        proof {
            assert(texts(args@) =~= seq![
                esc_text(id@),
                esc_text(meta.client_name@),
                esc_text(meta.ca_common_name@),
                chips(meta.variables@),
                esc_text(age(elapsed(meta.created_at, now))),
                esc_text(date_of(meta.created_at.seconds, meta.created_at.nanos)),
                esc_text(id@),
                esc_text(id@),
            ]);
            assert(profiles@.take(i + 1).drop_last() =~= profiles@.take(i as int));
        }
        rows.append(fill(PROFILE_ROW, &args).as_str());
    }
    proof {
        assert(profiles@.take(profiles@.len() as int) =~= profiles@);
    }
    page("OpenVPN Configs", fill_one(PROFILES, rows).as_str())
}

/// The page that lists the profiles in their order, as it is shown at the instant of the clock.
pub fn profiles_index(profiles: &Vec<(String, ProfileMetadata)>) -> (r: String)
    requires
        forall|i: int| 0 <= i < profiles@.len() ==> showable(#[trigger] profiles@[i].1),
    ensures
        exists|now: Timestamp| now.on_clock() && r@ == #[trigger] profiles_html(profiles@, now),
{
    profiles_page(profiles, current_time())
}

/// The body of the page of a profile.
pub open spec fn profile_body(
    id: Seq<char>,
    meta: ProfileMetadataView,
    raw: Seq<char>,
    now: Timestamp,
) -> Seq<char> {
    filled(
        PROFILE@,
        seq![
            esc_text(id),
            esc_text(id),
            esc_text(meta.client_name),
            esc_text(meta.template_name),
            esc_text(meta.ca_common_name),
            esc_text(meta.cert_id),
            esc_text(joined(meta.tags, ", "@)),
            esc_text(age(elapsed(meta.created_at, now))),
            esc_text(rfc3339_of(meta.created_at.seconds, meta.created_at.nanos)),
            entry_rows(VALUE_ROW@, ordered(meta.variables)),
            esc_text(raw),
        ],
    )
}

/// The page of a profile.
pub open spec fn profile_html(
    id: Seq<char>,
    meta: ProfileMetadataView,
    raw: Seq<char>,
    now: Timestamp,
) -> Seq<char> {
    framed(meta.client_name, profile_body(id, meta, raw, now), true, "OpenVPN Configs"@)
}

/// The page of the profile `id`, as it is shown at the instant `now`.
pub fn profile_page(id: &str, meta: &ProfileMetadata, raw: &str, now: Timestamp) -> (r: String)
    requires
        showable(*meta),
        now.on_calendar(),
    ensures
        r@ == profile_html(id@, meta@, raw@, now),
{
    let args = vec![
        esc(id),
        esc(id),
        esc(meta.client_name.as_str()),
        esc(meta.template_name.as_str()),
        esc(meta.ca_common_name.as_str()),
        esc(meta.cert_id.as_str()),
        esc(join(&meta.tags, ", ").as_str()),
        esc(age_at(meta.created_at, now).unwrap().as_str()),
        esc(iso8601_seconds(meta.created_at).unwrap().as_str()),
        map_rows(VALUE_ROW, &meta.variables),
        esc(raw),
    ];
    proof {
        let v = meta@;
        assert(texts(args@) =~= seq![
            esc_text(id@),
            esc_text(id@),
            esc_text(v.client_name),
            esc_text(v.template_name),
            esc_text(v.ca_common_name),
            esc_text(v.cert_id),
            esc_text(joined(v.tags, ", "@)),
            esc_text(age(elapsed(v.created_at, now))),
            esc_text(rfc3339_of(v.created_at.seconds, v.created_at.nanos)),
            entry_rows(VALUE_ROW@, ordered(v.variables)),
            esc_text(raw@),
        ]);
    }
    config_page(meta.client_name.as_str(), fill(PROFILE, &args).as_str())
}

/// The answer to a request for the profile `id` as it could be read: its page, as it is shown at
/// the instant of the clock, or what went wrong. The metadata is read first.
pub fn profile_detail(
    id: &str,
    metadata: Result<ProfileMetadata, String>,
    raw: Result<String, String>,
) -> (r: Answer)
    requires
        metadata matches Ok(meta) ==> showable(meta),
    ensures
        match (metadata, raw) {
            (Err(e), _) => reports(r, "Profile Not Found"@, e@),
            (Ok(_), Err(e)) => reports(r, "Profile Not Found"@, e@),
            (Ok(meta), Ok(text)) => r matches Answer::Page { status, html } && status == 200
                && exists|now: Timestamp|
                now.on_clock() && html@ == #[trigger] profile_html(id@, meta@, text@, now),
        },
{
    match (metadata, raw) {
        (Err(e), _) => error_page("Profile Not Found", e.as_str()),
        (Ok(_), Err(e)) => error_page("Profile Not Found", e.as_str()),
        (Ok(meta), Ok(text)) => {
            let now = current_time();
            let html = profile_page(id, &meta, text.as_str(), now);
            proof {
                assert(html@ == profile_html(id@, meta@, text@, now));
            }
            Answer::Page { status: 200, html }
        },
    }
}

/// A file that is handed out.
#[derive(Debug, PartialEq, Eq)]
pub struct Download {
    pub content_type: &'static str,
    pub content_disposition: &'static str,
    pub bytes: Vec<u8>,
}

/// The file of a profile as it could be read, or the answer where it could not.
pub fn download_profile(read: Result<Vec<u8>, String>) -> (r: Result<Download, Answer>)
    ensures
        match read {
            Ok(bytes) => r matches Ok(d) && d.bytes == bytes && d.content_type@
                == "application/x-openvpn-profile"@ && d.content_disposition@
                == "attachment; filename=\"profile.ovpn\""@,
            Err(e) => r matches Err(answer) && reports(answer, "Profile Not Found"@, e@),
        },
{
    match read {
        Ok(bytes) => Ok(
            Download {
                content_type: "application/x-openvpn-profile",
                content_disposition: "attachment; filename=\"profile.ovpn\"",
                bytes,
            },
        ),
        Err(e) => Err(error_page("Profile Not Found", e.as_str())),
    }
}

// ---- the explorer ----

/// The explorer of the programming interface; all that it loads comes from this program.
pub fn swagger_explorer() -> (r: String)
    ensures
        r@ == framed("Swagger Explorer"@, SWAGGER@, true, "Swagger Explorer"@),
{
    page("Swagger Explorer", SWAGGER)
}

} // verus!
