//! What is kept of settings and what Minica is asked, said of the operations: of what they take
//! and what they give back.
use vstd::prelude::*;

use crate::minica::{
    config_or_default, deletion_result, ensure_default_config, law_kept_url, minica_create_cert,
    minica_delete_cert, minica_get_ca, minica_get_cert, minica_get_cert_id_by_cn, minica_get_csrf,
    minica_list_cas, save_cert_defaults, save_minica_settings, trial_config, unwrap_envelope,
    ApiEnvelope, CertDefaultsForm, Method, MinicaCa, MinicaConfig, MinicaRequest,
    MinicaSettingsForm,
};
use crate::number::decimal;
use crate::text::{joined, texts, trimmed, white_space};
use crate::text_laws::law_without_trailing;
use crate::trials::{
    listing_outcome, test_cert_defaults, test_minica_settings, TestResponse, TrialState, TrialTurn,
};
use crate::variable_laws::law_csv_holds_every_item;

verus! {

/// The certificate defaults are those of the form, field by field, and its two lists are the texts
/// between their commas, each trimmed, without those of which nothing is left.
pub open spec fn defaults_of_the_form(
    r: MinicaConfig,
    form: CertDefaultsForm,
    dns: Seq<Seq<char>>,
    ips: Seq<Seq<char>>,
) -> bool {
    &&& r.cert_defaults.valid_days == form.valid_days
    &&& r.cert_defaults.country_code@ == form.country_code@
    &&& r.cert_defaults.organization@ == form.organization@
    &&& r.cert_defaults.state@ == form.state@
    &&& r.cert_defaults.city@ == form.city@
    &&& r.cert_defaults.organization_unit@ == form.organization_unit@
    &&& r.cert_defaults.digest_algorithm@ == form.digest_algorithm@
    &&& r.cert_defaults.key_profile@ == form.key_profile@
    &&& texts(r.cert_defaults.dns_list@) == dns.map_values(|p: Seq<char>| trimmed(p)).filter(
        |p: Seq<char>| p.len() > 0,
    )
    &&& texts(r.cert_defaults.ip_list@) == ips.map_values(|p: Seq<char>| trimmed(p)).filter(
        |p: Seq<char>| p.len() > 0,
    )
}

/// The parts of a list that was written with commas.
pub open spec fn written_with_commas(s: Seq<char>, parts: Seq<Seq<char>>) -> bool {
    &&& parts.len() > 0
    &&& forall|i: int| 0 <= i < parts.len() ==> !(#[trigger] parts[i]).contains(',')
    &&& s == joined(parts, seq![','])
}

/// The certificate defaults that are saved are those of the form; every other setting is that of
/// the form where it gives one, and else stays as it was.
pub proof fn law_saved_cert_defaults(
    current: Option<MinicaConfig>,
    form: CertDefaultsForm,
    r: MinicaConfig,
    dns: Seq<Seq<char>>,
    ips: Seq<Seq<char>>,
)
    requires
        call_ensures(save_cert_defaults, (current, form), r),
        written_with_commas(form.dns_list@, dns),
        written_with_commas(form.ip_list@, ips),
    ensures
        defaults_of_the_form(r, form, dns, ips),
        form.username matches Some(t) ==> r.username@ == t@,
        form.password matches Some(t) ==> r.password@ == t@,
        form.default_ca_id matches Some(t) ==> r.default_ca_id@ == t@,
        form.base_url is None && current is Some ==> r.base_url@ == current->0.base_url@,
        form.username is None && current is Some ==> r.username@ == current->0.username@,
        form.password is None && current is Some ==> r.password@ == current->0.password@,
        form.default_ca_id is None && current is Some ==> r.default_ca_id@
            == current->0.default_ca_id@,
{
    law_csv_holds_every_item(dns);
    law_csv_holds_every_item(ips);
}

/// The certificate defaults that are tried are those of the form; every other setting is the saved
/// one.
pub proof fn law_tried_cert_defaults(
    current: MinicaConfig,
    form: CertDefaultsForm,
    r: MinicaConfig,
    dns: Seq<Seq<char>>,
    ips: Seq<Seq<char>>,
)
    requires
        call_ensures(trial_config, (Some(current), form), r),
        written_with_commas(form.dns_list@, dns),
        written_with_commas(form.ip_list@, ips),
    ensures
        defaults_of_the_form(r, form, dns, ips),
        r.base_url@ == current.base_url@,
        r.username@ == current.username@,
        r.password@ == current.password@,
        r.default_ca_id@ == current.default_ca_id@,
{
    law_csv_holds_every_item(dns);
    law_csv_holds_every_item(ips);
}

/// A trial of a form creates its certificate with the certificate defaults of the form.
pub proof fn law_trial_uses_the_form(
    current: MinicaConfig,
    form: CertDefaultsForm,
    turn: TrialTurn,
)
    requires
        call_ensures(test_cert_defaults, (Some(current), form), turn),
    ensures
        turn.next matches TrialState::FetchingCreateToken { cfg, name } ==> {
            &&& cfg.cert_defaults.valid_days == form.valid_days
            &&& cfg.cert_defaults.country_code@ == form.country_code@
            &&& cfg.cert_defaults.organization@ == form.organization@
            &&& cfg.cert_defaults.state@ == form.state@
            &&& cfg.cert_defaults.city@ == form.city@
            &&& cfg.cert_defaults.organization_unit@ == form.organization_unit@
            &&& cfg.cert_defaults.digest_algorithm@ == form.digest_algorithm@
            &&& cfg.cert_defaults.key_profile@ == form.key_profile@
            &&& cfg.base_url@ == current.base_url@
            &&& cfg.username@ == current.username@
            &&& cfg.password@ == current.password@
            &&& cfg.default_ca_id@ == current.default_ca_id@
        },
        turn.next is FetchingCreateToken <==> exists|i: int|
            0 <= i < current.default_ca_id@.len() && !white_space(
                #[trigger] current.default_ca_id@[i],
            ),
{
    if let TrialState::FetchingCreateToken { cfg, name } = turn.next {
        let v = cfg@;
        assert(v.base_url == cfg.base_url@);
        assert(v.cert_defaults.key_profile == cfg.cert_defaults.key_profile@);
    }
}

/// The settings that are saved are those of the form, the address without white space around it
/// and without `/` at its end; what certificates are to hold stays as it was.
pub proof fn law_saved_settings(
    current: Option<MinicaConfig>,
    form: MinicaSettingsForm,
    r: MinicaConfig,
    lead: Seq<char>,
    core: Seq<char>,
    slashes: Seq<char>,
    trail: Seq<char>,
)
    requires
        call_ensures(save_minica_settings, (current, form), r),
        forall|i: int| 0 <= i < lead.len() ==> white_space(#[trigger] lead[i]),
        forall|i: int| 0 <= i < slashes.len() ==> #[trigger] slashes[i] == '/',
        forall|i: int| 0 <= i < trail.len() ==> white_space(#[trigger] trail[i]),
        core.len() > 0,
        !white_space(core[0]),
        !white_space(core[core.len() - 1]),
        core[core.len() - 1] != '/',
        form.base_url@ == lead + (core + slashes) + trail,
    ensures
        r.base_url@ == core,
        r.username@ == form.username@,
        r.password@ == form.password@,
        r.default_ca_id@ == form.default_ca_id@,
        current matches Some(cfg) ==> r.cert_defaults@ == cfg.cert_defaults@,
{
    law_kept_url(lead, core, slashes, trail);
}

/// Settings that were read are used; the initial ones are written only where there are none.
pub proof fn law_read_settings_are_used(
    cfg: MinicaConfig,
    r: MinicaConfig,
    exists_already: bool,
    w: Option<MinicaConfig>,
)
    requires
        call_ensures(config_or_default, (Some(cfg),), r),
        call_ensures(ensure_default_config, (exists_already,), w),
    ensures
        r@ == cfg@,
        w is Some <==> !exists_already,
{
}

/// A request to Minica goes to a path under the base address, with the name and the password of
/// the settings.
pub open spec fn goes_to(r: MinicaRequest, cfg: MinicaConfig, path: Seq<char>) -> bool {
    &&& r.url@ == cfg.base_url@ + path
    &&& r.username@ == cfg.username@
    &&& r.password@ == cfg.password@
}

/// The reading requests go to the list of authorities, to the authority, to the certificate and to
/// the token; they carry no token and nothing to be written.
pub proof fn law_reading_requests(
    cfg: &MinicaConfig,
    ca_id: &str,
    other: &str,
    list: MinicaRequest,
    ca: MinicaRequest,
    cert: MinicaRequest,
    found: MinicaRequest,
    token: MinicaRequest,
)
    requires
        call_ensures(minica_list_cas, (cfg,), list),
        call_ensures(minica_get_ca, (cfg, ca_id), ca),
        call_ensures(minica_get_cert, (cfg, ca_id, other), cert),
        call_ensures(minica_get_cert_id_by_cn, (cfg, ca_id, other), found),
        call_ensures(minica_get_csrf, (cfg,), token),
        cfg.base_url@.len() > 0 ==> cfg.base_url@[cfg.base_url@.len() - 1] != '/',
    ensures
        goes_to(list, *cfg, "/api/cas"@),
        goes_to(ca, *cfg, "/api/cas/"@ + ca_id@),
        goes_to(cert, *cfg, "/api/cas/"@ + ca_id@ + "/certs/"@ + other@),
        goes_to(found, *cfg, "/api/cas/"@ + ca_id@ + "/certs_by_cn"@),
        goes_to(token, *cfg, "/api/csrf"@),
        found.cn matches Some(name) && name@ == other@,
        list.method == Method::Get && ca.method == Method::Get && cert.method == Method::Get
            && found.method == Method::Get && token.method == Method::Get,
        list.csrf is None && ca.csrf is None && cert.csrf is None && found.csrf is None
            && token.csrf is None,
        list.payload is None && ca.payload is None && cert.payload is None && found.payload is None
            && token.payload is None,
        list.cn is None && ca.cn is None && cert.cn is None && token.cn is None,
{
    let none = Seq::<char>::empty();
    law_without_trailing(cfg.base_url@, none, '/');
    assert(cfg.base_url@ + none =~= cfg.base_url@);
    assert(list@.url == list.url@ && ca@.url == ca.url@ && cert@.url == cert.url@ && found@.url
        == found.url@ && token@.url == token.url@);
}

/// The writing requests carry the token; that which creates carries the name and all the settings
/// say of certificates, and that which deletes goes to the certificate.
pub proof fn law_writing_requests(
    cfg: &MinicaConfig,
    ca_id: &str,
    other: &str,
    csrf: String,
    create: MinicaRequest,
    delete: MinicaRequest,
)
    requires
        call_ensures(minica_create_cert, (cfg, ca_id, other, csrf), create),
        call_ensures(minica_delete_cert, (cfg, ca_id, other, csrf), delete),
        cfg.base_url@.len() > 0 ==> cfg.base_url@[cfg.base_url@.len() - 1] != '/',
    ensures
        goes_to(create, *cfg, "/api/cas/"@ + ca_id@ + "/certs"@),
        goes_to(delete, *cfg, "/api/cas/"@ + ca_id@ + "/certs/"@ + other@),
        create.method == Method::Put,
        delete.method == Method::Delete,
        create.csrf matches Some(t) && t@ == csrf@,
        delete.csrf matches Some(t) && t@ == csrf@,
        delete.payload is None,
        create.payload is Some,
        create.payload->0.common_name@ == other@,
        create.payload->0.defaults.valid_days == cfg.cert_defaults.valid_days,
        create.payload->0.defaults.country_code@ == cfg.cert_defaults.country_code@,
        create.payload->0.defaults.organization@ == cfg.cert_defaults.organization@,
        create.payload->0.defaults.state@ == cfg.cert_defaults.state@,
        create.payload->0.defaults.city@ == cfg.cert_defaults.city@,
        create.payload->0.defaults.organization_unit@ == cfg.cert_defaults.organization_unit@,
        create.payload->0.defaults.digest_algorithm@ == cfg.cert_defaults.digest_algorithm@,
        create.payload->0.defaults.key_profile@ == cfg.cert_defaults.key_profile@,
        texts(create.payload->0.defaults.dns_list@) == texts(cfg.cert_defaults.dns_list@),
        texts(create.payload->0.defaults.ip_list@) == texts(cfg.cert_defaults.ip_list@),
{
    let none = Seq::<char>::empty();
    law_without_trailing(cfg.base_url@, none, '/');
    assert(cfg.base_url@ + none =~= cfg.base_url@);
    assert(create@.url == create.url@ && delete@.url == delete.url@);
    let d = create.payload->0.defaults@;
    assert(create@.payload->0.defaults == d);
    assert(d == cfg.cert_defaults@);
    assert(d.key_profile == create.payload->0.defaults.key_profile@);
}

/// An answer of Minica is its data if and only if it reports success and holds some; else its own
/// message is reported, with the status behind it where there is one.
pub proof fn law_answers_of_minica(
    envelope: ApiEnvelope<MinicaCa>,
    r: Result<MinicaCa, String>,
    d: Result<(), String>,
)
    requires
        call_ensures(unwrap_envelope, (envelope,), r),
        call_ensures(deletion_result, (envelope,), d),
    ensures
        r is Ok <==> envelope.success && envelope.data is Some,
        r matches Ok(data) ==> envelope.data == Some(data),
        d is Ok <==> envelope.success,
        !envelope.success && envelope.error is Some && envelope.error->0.status is None ==> r->Err_0@
            == envelope.error->0.message@ && d->Err_0@ == envelope.error->0.message@,
        !envelope.success && envelope.error is Some && envelope.error->0.status is Some ==> r->Err_0@
            == envelope.error->0.message@ + " ("@ + decimal(
            envelope.error->0.status->0 as nat,
        ) + ")"@,
        !envelope.success && envelope.error is None ==> r->Err_0@ == "Minica request failed"@
            && d->Err_0@ == "Minica request failed"@,
{
}

/// Trying settings lists the authorities under the settings of the form, before they are saved.
pub proof fn law_tried_settings(
    current: Option<MinicaConfig>,
    form: MinicaSettingsForm,
    r: MinicaRequest,
    core: Seq<char>,
)
    requires
        call_ensures(test_minica_settings, (current, form), r),
        core.len() > 0,
        !white_space(core[0]),
        !white_space(core[core.len() - 1]),
        core[core.len() - 1] != '/',
        form.base_url@ == core,
    ensures
        r.url@ == core + "/api/cas"@,
        r.username@ == form.username@,
        r.password@ == form.password@,
        r.method == Method::Get,
{
    let none = Seq::<char>::empty();
    law_kept_url(none, core, none, none);
    assert(none + (core + none) + none =~= core);
    law_without_trailing(core, none, '/');
    assert(core + none =~= core);
    assert(r@.url == r.url@);
}

/// The outcome of listing the authorities is all of them, with their number, or what went wrong.
pub proof fn law_outcome_of_listing(listed: Result<Vec<MinicaCa>, String>, r: TestResponse)
    requires
        call_ensures(listing_outcome, (listed,), r),
    ensures
        r.ok <==> listed is Ok,
        listed matches Ok(cas) ==> r.cas@ == cas@ && r.message@ == "OK: listed "@ + decimal(
            cas@.len(),
        ) + " CA(s)"@,
        listed matches Err(e) ==> r.cas@.len() == 0 && r.message@ == "Not OK: "@ + e@,
{
}

} // verus!
