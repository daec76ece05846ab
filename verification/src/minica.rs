//! The certificate authority service Minica: its settings, the requests it is sent and the
//! answers it gives.
use vstd::prelude::*;

use crate::number::{decimal, natural_text};
use crate::text::{
    lemma_without_trailing, texts, trim, trim_end_char, trimmed, white_space, without_trailing,
};
use crate::text_laws::{law_trimming, law_without_trailing};
use crate::variables::{csv_items, parse_csv};

verus! {

// ---- settings ----

/// What a new certificate is to hold.
#[derive(Debug, PartialEq, Eq)]
pub struct CertDefaults {
    pub valid_days: u32,
    pub country_code: String,
    pub organization: String,
    pub state: String,
    pub city: String,
    pub organization_unit: String,
    pub digest_algorithm: String,
    pub key_profile: String,
    pub dns_list: Vec<String>,
    pub ip_list: Vec<String>,
}

/// What a new certificate is to hold, as texts and numbers.
#[verifier::ext_equal]
pub struct CertDefaultsView {
    pub valid_days: u32,
    pub country_code: Seq<char>,
    pub organization: Seq<char>,
    pub state: Seq<char>,
    pub city: Seq<char>,
    pub organization_unit: Seq<char>,
    pub digest_algorithm: Seq<char>,
    pub key_profile: Seq<char>,
    pub dns_list: Seq<Seq<char>>,
    pub ip_list: Seq<Seq<char>>,
}

impl View for CertDefaults {
    type V = CertDefaultsView;

    open spec fn view(&self) -> CertDefaultsView {
        CertDefaultsView {
            valid_days: self.valid_days,
            country_code: self.country_code@,
            organization: self.organization@,
            state: self.state@,
            city: self.city@,
            organization_unit: self.organization_unit@,
            digest_algorithm: self.digest_algorithm@,
            key_profile: self.key_profile@,
            dns_list: texts(self.dns_list@),
            ip_list: texts(self.ip_list@),
        }
    }
}

/// The same strings once more.
pub fn duplicate_strings(v: &Vec<String>) -> (r: Vec<String>)
    ensures
        texts(r@) == texts(v@),
{
    let mut out: Vec<String> = Vec::new();
    for i in 0..v.len()
        invariant
            texts(out@) == texts(v@).take(i as int),
    {
        let ghost had = texts(out@);
        out.push(v[i].clone());
        proof {
            assert(texts(out@) =~= had.push(texts(v@)[i as int]));
            assert(texts(v@).take(i + 1) =~= had.push(texts(v@)[i as int]));
        }
    }
    proof {
        assert(texts(v@).take(v@.len() as int) =~= texts(v@));
    }
    out
}

impl CertDefaults {
    /// The same once more.
    pub fn duplicate(&self) -> (r: CertDefaults)
        ensures
            r@ == self@,
    {
        CertDefaults {
            valid_days: self.valid_days,
            country_code: self.country_code.clone(),
            organization: self.organization.clone(),
            state: self.state.clone(),
            city: self.city.clone(),
            organization_unit: self.organization_unit.clone(),
            digest_algorithm: self.digest_algorithm.clone(),
            key_profile: self.key_profile.clone(),
            dns_list: duplicate_strings(&self.dns_list),
            ip_list: duplicate_strings(&self.ip_list),
        }
    }
}

/// How Minica is reached, and what its certificates are to hold.
#[derive(Debug, PartialEq, Eq)]
pub struct MinicaConfig {
    pub base_url: String,
    pub username: String,
    pub password: String,
    pub default_ca_id: String,
    pub cert_defaults: CertDefaults,
}

/// The settings, as texts.
#[verifier::ext_equal]
pub struct MinicaConfigView {
    pub base_url: Seq<char>,
    pub username: Seq<char>,
    pub password: Seq<char>,
    pub default_ca_id: Seq<char>,
    pub cert_defaults: CertDefaultsView,
}

impl View for MinicaConfig {
    type V = MinicaConfigView;

    open spec fn view(&self) -> MinicaConfigView {
        MinicaConfigView {
            base_url: self.base_url@,
            username: self.username@,
            password: self.password@,
            default_ca_id: self.default_ca_id@,
            cert_defaults: self.cert_defaults@,
        }
    }
}

/// The key profile where the settings give none.
pub fn default_key_profile() -> (r: String)
    ensures
        r@ == "rsa:4096"@,
{
    "rsa:4096".to_string()
}

/// The settings before any were saved.
pub open spec fn initial_config() -> MinicaConfigView {
    MinicaConfigView {
        base_url: "http://localhost:9988"@,
        username: "admin"@,
        password: "adminpass"@,
        default_ca_id: Seq::empty(),
        cert_defaults: CertDefaultsView {
            valid_days: 7300,
            country_code: "SG"@,
            organization: "Home"@,
            state: "Singapore"@,
            city: "Singapore"@,
            organization_unit: "VPN"@,
            digest_algorithm: "sha512"@,
            key_profile: "rsa:4096"@,
            dns_list: Seq::empty(),
            ip_list: Seq::empty(),
        },
    }
}

/// The settings before any were saved.
pub fn default_minica_config() -> (r: MinicaConfig)
    ensures
        r@ == initial_config(),
{
    let r = MinicaConfig {
        base_url: "http://localhost:9988".to_string(),
        username: "admin".to_string(),
        password: "adminpass".to_string(),
        default_ca_id: String::new(),
        cert_defaults: CertDefaults {
            valid_days: 7300,
            country_code: "SG".to_string(),
            organization: "Home".to_string(),
            state: "Singapore".to_string(),
            city: "Singapore".to_string(),
            organization_unit: "VPN".to_string(),
            digest_algorithm: "sha512".to_string(),
            key_profile: default_key_profile(),
            dns_list: Vec::new(),
            ip_list: Vec::new(),
        },
    };
    proof {
        assert(r@ =~~= initial_config());
    }
    r
}

/// The settings to write at the start: none where some exist already, else the initial ones.
pub fn ensure_default_config(exists_already: bool) -> (r: Option<MinicaConfig>)
    ensures
        r is None == exists_already,
        r matches Some(cfg) ==> cfg@ == initial_config(),
{
    if exists_already {
        None
    } else {
        Some(default_minica_config())
    }
}

/// The settings that were read, or the initial ones where none could be read.
pub open spec fn config_or_initial(read: Option<MinicaConfig>) -> MinicaConfigView {
    match read {
        Some(cfg) => cfg@,
        None => initial_config(),
    }
}

/// The settings that were read, or the initial ones where none could be read.
pub fn config_or_default(read: Option<MinicaConfig>) -> (r: MinicaConfig)
    ensures
        r@ == config_or_initial(read),
{
    match read {
        Some(cfg) => cfg,
        None => default_minica_config(),
    }
}

/// A base address as it is kept: trimmed, without `/` at its end.
pub open spec fn kept_url(s: Seq<char>) -> Seq<char> {
    without_trailing(trimmed(s), '/')
}

/// How Minica is to be reached, as it was entered.
#[derive(Debug, PartialEq, Eq)]
pub struct MinicaSettingsForm {
    pub base_url: String,
    pub username: String,
    pub password: String,
    pub default_ca_id: String,
}

/// The settings with those of the form in place of the old ones; the certificate defaults stay.
pub fn save_minica_settings(current: Option<MinicaConfig>, form: MinicaSettingsForm) -> (r: MinicaConfig)
    ensures
        r@ == (MinicaConfigView {
            base_url: kept_url(form.base_url@),
            username: form.username@,
            password: form.password@,
            default_ca_id: form.default_ca_id@,
            cert_defaults: config_or_initial(current).cert_defaults,
        }),
        r.username@ == form.username@,
        r.password@ == form.password@,
        r.default_ca_id@ == form.default_ca_id@,
        current is Some ==> r.cert_defaults@ == current->0.cert_defaults@,
{
    let mut cfg = config_or_default(current);
    cfg.base_url = trim_end_char(trim(form.base_url.as_str()).as_str(), '/');
    cfg.username = form.username;
    cfg.password = form.password;
    cfg.default_ca_id = form.default_ca_id;
    cfg
}

/// What certificates are to hold, as it was entered; optionally with the other settings.
#[derive(Debug, PartialEq, Eq)]
pub struct CertDefaultsForm {
    pub base_url: Option<String>,
    pub username: Option<String>,
    pub password: Option<String>,
    pub default_ca_id: Option<String>,
    pub valid_days: u32,
    pub country_code: String,
    pub organization: String,
    pub state: String,
    pub city: String,
    pub organization_unit: String,
    pub digest_algorithm: String,
    pub key_profile: String,
    pub dns_list: String,
    pub ip_list: String,
}

/// The certificate defaults of a form: its lists are comma-separated.
pub open spec fn form_defaults(form: CertDefaultsForm) -> CertDefaultsView {
    CertDefaultsView {
        valid_days: form.valid_days,
        country_code: form.country_code@,
        organization: form.organization@,
        state: form.state@,
        city: form.city@,
        organization_unit: form.organization_unit@,
        digest_algorithm: form.digest_algorithm@,
        key_profile: form.key_profile@,
        dns_list: csv_items(form.dns_list@),
        ip_list: csv_items(form.ip_list@),
    }
}

/// The text of an optional string, or `other`.
pub open spec fn text_or(s: Option<String>, other: Seq<char>) -> Seq<char> {
    match s {
        Some(t) => t@,
        None => other,
    }
}

/// The settings with the certificate defaults of the form, and with each other setting that the
/// form holds.
pub fn save_cert_defaults(current: Option<MinicaConfig>, form: CertDefaultsForm) -> (r: MinicaConfig)
    ensures
        r@ == ({
            let old_cfg = config_or_initial(current);
            MinicaConfigView {
                base_url: match form.base_url {
                    Some(url) => kept_url(url@),
                    None => old_cfg.base_url,
                },
                username: text_or(form.username, old_cfg.username),
                password: text_or(form.password, old_cfg.password),
                default_ca_id: text_or(form.default_ca_id, old_cfg.default_ca_id),
                cert_defaults: form_defaults(form),
            }
        }),
        r.cert_defaults.valid_days == form.valid_days,
        r.cert_defaults.country_code@ == form.country_code@,
        r.cert_defaults.organization@ == form.organization@,
        r.cert_defaults.state@ == form.state@,
        r.cert_defaults.city@ == form.city@,
        r.cert_defaults.organization_unit@ == form.organization_unit@,
        r.cert_defaults.digest_algorithm@ == form.digest_algorithm@,
        r.cert_defaults.key_profile@ == form.key_profile@,
        texts(r.cert_defaults.dns_list@) == csv_items(form.dns_list@),
        texts(r.cert_defaults.ip_list@) == csv_items(form.ip_list@),
        form.username matches Some(t) ==> r.username@ == t@,
        form.password matches Some(t) ==> r.password@ == t@,
        form.default_ca_id matches Some(t) ==> r.default_ca_id@ == t@,
        current is Some && form.base_url is None ==> r.base_url@ == current->0.base_url@,
        current is Some && form.username is None ==> r.username@ == current->0.username@,
        current is Some && form.password is None ==> r.password@ == current->0.password@,
        current is Some && form.default_ca_id is None ==> r.default_ca_id@
            == current->0.default_ca_id@,
{
    let mut cfg = config_or_default(current);
    if let Some(base_url) = form.base_url {
        cfg.base_url = trim_end_char(trim(base_url.as_str()).as_str(), '/');
    }
    if let Some(username) = form.username {
        cfg.username = username;
    }
    if let Some(password) = form.password {
        cfg.password = password;
    }
    if let Some(default_ca_id) = form.default_ca_id {
        cfg.default_ca_id = default_ca_id;
    }
    cfg.cert_defaults = CertDefaults {
        valid_days: form.valid_days,
        country_code: form.country_code,
        organization: form.organization,
        state: form.state,
        city: form.city,
        organization_unit: form.organization_unit,
        digest_algorithm: form.digest_algorithm,
        key_profile: form.key_profile,
        dns_list: parse_csv(form.dns_list.as_str()),
        ip_list: parse_csv(form.ip_list.as_str()),
    };
    cfg
}

/// The settings under which certificate defaults are tried: the saved ones with the certificate
/// defaults of the form.
pub fn trial_config(current: Option<MinicaConfig>, form: CertDefaultsForm) -> (r: MinicaConfig)
    ensures
        r@ == (MinicaConfigView {
            cert_defaults: form_defaults(form),
            ..config_or_initial(current)
        }),
        r.cert_defaults.valid_days == form.valid_days,
        r.cert_defaults.country_code@ == form.country_code@,
        r.cert_defaults.organization@ == form.organization@,
        r.cert_defaults.state@ == form.state@,
        r.cert_defaults.city@ == form.city@,
        r.cert_defaults.organization_unit@ == form.organization_unit@,
        r.cert_defaults.digest_algorithm@ == form.digest_algorithm@,
        r.cert_defaults.key_profile@ == form.key_profile@,
        texts(r.cert_defaults.dns_list@) == csv_items(form.dns_list@),
        texts(r.cert_defaults.ip_list@) == csv_items(form.ip_list@),
        current is Some ==> {
            &&& r.base_url@ == current->0.base_url@
            &&& r.username@ == current->0.username@
            &&& r.password@ == current->0.password@
            &&& r.default_ca_id@ == current->0.default_ca_id@
        },
{
    let mut cfg = config_or_default(current);
    cfg.cert_defaults = CertDefaults {
        valid_days: form.valid_days,
        country_code: form.country_code,
        organization: form.organization,
        state: form.state,
        city: form.city,
        organization_unit: form.organization_unit,
        digest_algorithm: form.digest_algorithm,
        key_profile: form.key_profile,
        dns_list: parse_csv(form.dns_list.as_str()),
        ip_list: parse_csv(form.ip_list.as_str()),
    };
    cfg
}

// ---- what Minica holds ----

/// A certificate authority.
#[derive(Debug, PartialEq, Eq)]
pub struct MinicaCa {
    pub id: String,
    pub common_name: String,
    pub cert_pem: String,
}

/// A client certificate with its key.
#[derive(Debug, PartialEq, Eq)]
pub struct MinicaCert {
    pub id: String,
    pub common_name: String,
    pub cert_pem: String,
    pub key_pem: String,
}

/// The identifier of a certificate.
#[derive(Debug, PartialEq, Eq)]
pub struct CertIdResponse {
    pub id: String,
}

// ---- requests ----

/// What a request does.
#[derive(Debug, Clone, Copy, PartialEq, Eq, Structural)]
pub enum Method {
    Get,
    Put,
    Delete,
}

/// What a certificate to be created is to hold.
#[derive(Debug, PartialEq, Eq)]
pub struct CertPayload {
    pub common_name: String,
    pub defaults: CertDefaults,
}

/// What a certificate to be created is to hold, as texts and numbers.
pub struct CertPayloadView {
    pub common_name: Seq<char>,
    pub defaults: CertDefaultsView,
}

/// A request to Minica.
#[derive(Debug, PartialEq, Eq)]
pub struct MinicaRequest {
    pub method: Method,
    pub url: String,
    pub username: String,
    pub password: String,
    pub cn: Option<String>,
    pub csrf: Option<String>,
    pub payload: Option<CertPayload>,
}

/// A request to Minica, as texts.
pub struct RequestView {
    pub method: Method,
    pub url: Seq<char>,
    pub username: Seq<char>,
    pub password: Seq<char>,
    pub cn: Option<Seq<char>>,
    pub csrf: Option<Seq<char>>,
    pub payload: Option<CertPayloadView>,
}

/// The text of an optional string.
pub open spec fn optional_text(s: Option<String>) -> Option<Seq<char>> {
    match s {
        Some(t) => Some(t@),
        None => None,
    }
}

impl View for MinicaRequest {
    type V = RequestView;

    open spec fn view(&self) -> RequestView {
        RequestView {
            method: self.method,
            url: self.url@,
            username: self.username@,
            password: self.password@,
            cn: optional_text(self.cn),
            csrf: optional_text(self.csrf),
            payload: match self.payload {
                Some(p) => Some(
                    CertPayloadView { common_name: p.common_name@, defaults: p.defaults@ },
                ),
                None => None,
            },
        }
    }
}

/// The address of `path` at Minica.
pub open spec fn address(cfg: MinicaConfigView, path: Seq<char>) -> Seq<char> {
    without_trailing(cfg.base_url, '/') + path
}

/// The address of `path` at Minica.
fn url_of(cfg: &MinicaConfig, path: &str) -> (r: String)
    ensures
        r@ == address(cfg@, path@),
{
    let mut url = trim_end_char(cfg.base_url.as_str(), '/');
    url.append(path);
    url
}

/// The path of a certificate authority.
pub open spec fn ca_path(ca_id: Seq<char>) -> Seq<char> {
    "/api/cas/"@ + ca_id
}

/// A request that reads what stands at `path`.
pub open spec fn reading(cfg: MinicaConfigView, path: Seq<char>) -> RequestView {
    RequestView {
        method: Method::Get,
        url: address(cfg, path),
        username: cfg.username,
        password: cfg.password,
        cn: None,
        csrf: None,
        payload: None,
    }
}

/// The request that reads what stands at `path`.
pub fn minica_get_data(cfg: &MinicaConfig, path: &str) -> (r: MinicaRequest)
    ensures
        r@ == reading(cfg@, path@),
{
    MinicaRequest {
        method: Method::Get,
        url: url_of(cfg, path),
        username: cfg.username.clone(),
        password: cfg.password.clone(),
        cn: None,
        csrf: None,
        payload: None,
    }
}

/// The request for the certificate authorities.
pub fn minica_list_cas(cfg: &MinicaConfig) -> (r: MinicaRequest)
    ensures
        r@ == reading(cfg@, "/api/cas"@),
{
    minica_get_data(cfg, "/api/cas")
}

/// The request for one certificate authority.
pub fn minica_get_ca(cfg: &MinicaConfig, ca_id: &str) -> (r: MinicaRequest)
    ensures
        r@ == reading(cfg@, ca_path(ca_id@)),
{
    let mut path = "/api/cas/".to_string();
    path.append(ca_id);
    minica_get_data(cfg, path.as_str())
}

/// The request for one certificate.
pub fn minica_get_cert(cfg: &MinicaConfig, ca_id: &str, cert_id: &str) -> (r: MinicaRequest)
    ensures
        r@ == reading(cfg@, ca_path(ca_id@) + "/certs/"@ + cert_id@),
{
    let mut path = "/api/cas/".to_string();
    path.append(ca_id);
    path.append("/certs/");
    path.append(cert_id);
    minica_get_data(cfg, path.as_str())
}

/// The request for the token that a writing request has to carry.
pub fn minica_get_csrf(cfg: &MinicaConfig) -> (r: MinicaRequest)
    ensures
        r@ == reading(cfg@, "/api/csrf"@),
{
    minica_get_data(cfg, "/api/csrf")
}

/// The request for the identifier of the certificate with a common name.
pub fn minica_get_cert_id_by_cn(cfg: &MinicaConfig, ca_id: &str, common_name: &str) -> (r:
    MinicaRequest)
    ensures
        r@ == (RequestView {
            cn: Some(common_name@),
            ..reading(cfg@, ca_path(ca_id@) + "/certs_by_cn"@)
        }),
{
    let mut path = "/api/cas/".to_string();
    path.append(ca_id);
    path.append("/certs_by_cn");
    let mut request = minica_get_data(cfg, path.as_str());
    request.cn = Some(common_name.to_string());
    request
}

/// A request that creates a certificate: it carries the token and what the certificate is to
/// hold.
pub open spec fn creating(
    cfg: MinicaConfigView,
    ca_id: Seq<char>,
    common_name: Seq<char>,
    csrf: Seq<char>,
) -> RequestView {
    RequestView {
        method: Method::Put,
        csrf: Some(csrf),
        payload: Some(CertPayloadView { common_name, defaults: cfg.cert_defaults }),
        ..reading(cfg, ca_path(ca_id) + "/certs"@)
    }
}

/// The request that creates a certificate.
pub fn minica_create_cert(cfg: &MinicaConfig, ca_id: &str, common_name: &str, csrf: String) -> (r:
    MinicaRequest)
    ensures
        r@ == creating(cfg@, ca_id@, common_name@, csrf@),
{
    let mut path = "/api/cas/".to_string();
    path.append(ca_id);
    path.append("/certs");
    let mut request = minica_get_data(cfg, path.as_str());
    request.method = Method::Put;
    request.csrf = Some(csrf);
    request.payload = Some(
        CertPayload {
            common_name: common_name.to_string(),
            defaults: cfg.cert_defaults.duplicate(),
        },
    );
    request
}

/// A request that deletes a certificate: it carries the token.
pub open spec fn deleting(
    cfg: MinicaConfigView,
    ca_id: Seq<char>,
    cert_id: Seq<char>,
    csrf: Seq<char>,
) -> RequestView {
    RequestView {
        method: Method::Delete,
        csrf: Some(csrf),
        ..reading(cfg, ca_path(ca_id) + "/certs/"@ + cert_id)
    }
}

/// The request that deletes a certificate.
pub fn minica_delete_cert(cfg: &MinicaConfig, ca_id: &str, cert_id: &str, csrf: String) -> (r:
    MinicaRequest)
    ensures
        r@ == deleting(cfg@, ca_id@, cert_id@, csrf@),
{
    let mut request = minica_get_cert(cfg, ca_id, cert_id);
    request.method = Method::Delete;
    request.csrf = Some(csrf);
    request
}

/// What Minica says of a failure.
#[derive(Debug, PartialEq, Eq)]
pub struct ApiError {
    pub message: String,
    pub status: Option<u16>,
}

/// The frame in which Minica answers.
#[derive(Debug, PartialEq, Eq)]
pub struct ApiEnvelope<T> {
    pub data: Option<T>,
    pub error: Option<ApiError>,
    pub success: bool,
}

/// What is reported of an answer that does not report success.
pub open spec fn failure_text(error: Option<ApiError>) -> Seq<char> {
    match error {
        None => "Minica request failed"@,
        Some(e) => match e.status {
            Some(status) => e.message@ + " ("@ + decimal(status as nat) + ")"@,
            None => e.message@,
        },
    }
}

/// What is reported of an answer that does not report success.
fn failure_message(error: Option<ApiError>) -> (r: String)
    ensures
        r@ == failure_text(error),
{
    match error {
        None => "Minica request failed".to_string(),
        Some(e) => match e.status {
            Some(status) => {
                let mut message = e.message;
                message.append(" (");
                message.append(natural_text(status as u128).as_str());
                message.append(")");
                message
            },
            None => e.message,
        },
    }
}

/// The data of an answer, or what went wrong.
pub fn unwrap_envelope<T>(envelope: ApiEnvelope<T>) -> (r: Result<T, String>)
    ensures
        match r {
            Ok(data) => envelope.success && envelope.data == Some(data),
            Err(e) => if envelope.success {
                envelope.data is None && e@ == "Minica response did not include data"@
            } else {
                e@ == failure_text(envelope.error)
            },
        },
{
    if envelope.success {
        match envelope.data {
            Some(data) => Ok(data),
            None => Err("Minica response did not include data".to_string()),
        }
    } else {
        Err(failure_message(envelope.error))
    }
}

/// Whether a deletion succeeded, or what went wrong; the answer needs no data.
pub fn deletion_result<T>(envelope: ApiEnvelope<T>) -> (r: Result<(), String>)
    ensures
        match r {
            Ok(_) => envelope.success,
            Err(e) => !envelope.success && e@ == failure_text(envelope.error),
        },
{
    if envelope.success {
        Ok(())
    } else {
        Err(failure_message(envelope.error))
    }
}

// ---- laws ----

/// An address that was kept does not end with `/`, and paths are put behind it as it is.
pub proof fn law_kept_url_has_no_trailing_slash(s: Seq<char>, cfg: MinicaConfigView, path: Seq<char>)
    requires
        cfg.base_url == kept_url(s),
    ensures
        kept_url(s).len() > 0 ==> kept_url(s).last() != '/',
        address(cfg, path) == kept_url(s) + path,
{
    lemma_without_trailing(trimmed(s), '/');
}

/// Requests that read carry no token and nothing to be written; requests that create or delete
/// carry the token they were given.
pub proof fn law_only_writes_carry_a_token(
    cfg: MinicaConfigView,
    ca_id: Seq<char>,
    name: Seq<char>,
    token: Seq<char>,
    path: Seq<char>,
)
    ensures
        reading(cfg, path).csrf is None && reading(cfg, path).payload is None && reading(
            cfg,
            path,
        ).method == Method::Get,
        creating(cfg, ca_id, name, token).csrf == Some(token) && creating(
            cfg,
            ca_id,
            name,
            token,
        ).method == Method::Put,
        deleting(cfg, ca_id, name, token).csrf == Some(token) && deleting(
            cfg,
            ca_id,
            name,
            token,
        ).method == Method::Delete,
{
}

/// What certificates are to hold is what the form says, field by field; the two lists of the form
/// are read as lists.
pub proof fn law_form_defaults_are_those_of_the_form(form: CertDefaultsForm)
    ensures
        form_defaults(form).valid_days == form.valid_days,
        form_defaults(form).country_code == form.country_code@,
        form_defaults(form).organization == form.organization@,
        form_defaults(form).state == form.state@,
        form_defaults(form).city == form.city@,
        form_defaults(form).organization_unit == form.organization_unit@,
        form_defaults(form).digest_algorithm == form.digest_algorithm@,
        form_defaults(form).key_profile == form.key_profile@,
        form_defaults(form).dns_list == csv_items(form.dns_list@),
        form_defaults(form).ip_list == csv_items(form.ip_list@),
{
}

/// Forms that differ in a field give certificates that differ in it.
pub proof fn law_form_fields_are_not_lost(a: CertDefaultsForm, b: CertDefaultsForm)
    requires
        form_defaults(a) == form_defaults(b),
    ensures
        a.valid_days == b.valid_days,
        a.country_code@ == b.country_code@,
        a.organization@ == b.organization@,
        a.state@ == b.state@,
        a.city@ == b.city@,
        a.organization_unit@ == b.organization_unit@,
        a.digest_algorithm@ == b.digest_algorithm@,
        a.key_profile@ == b.key_profile@,
{
}

/// The settings are shown to the contracts as they are, field by field.
pub proof fn law_settings_as_texts(cfg: MinicaConfig)
    ensures
        cfg@.base_url == cfg.base_url@,
        cfg@.username == cfg.username@,
        cfg@.password == cfg.password@,
        cfg@.default_ca_id == cfg.default_ca_id@,
        cfg@.cert_defaults.valid_days == cfg.cert_defaults.valid_days,
        cfg@.cert_defaults.country_code == cfg.cert_defaults.country_code@,
        cfg@.cert_defaults.organization == cfg.cert_defaults.organization@,
        cfg@.cert_defaults.state == cfg.cert_defaults.state@,
        cfg@.cert_defaults.city == cfg.cert_defaults.city@,
        cfg@.cert_defaults.organization_unit == cfg.cert_defaults.organization_unit@,
        cfg@.cert_defaults.digest_algorithm == cfg.cert_defaults.digest_algorithm@,
        cfg@.cert_defaults.key_profile == cfg.cert_defaults.key_profile@,
        cfg@.cert_defaults.dns_list == texts(cfg.cert_defaults.dns_list@),
        cfg@.cert_defaults.ip_list == texts(cfg.cert_defaults.ip_list@),
{
}

/// Settings that could be read are used as they are; where none could be read, these are used.
pub proof fn law_settings_that_were_read(cfg: MinicaConfig)
    ensures
        config_or_initial(Some(cfg)) == cfg@,
        config_or_initial(None).base_url == "http://localhost:9988"@,
        config_or_initial(None).username == "admin"@,
        config_or_initial(None).password == "adminpass"@,
        config_or_initial(None).default_ca_id.len() == 0,
        config_or_initial(None).cert_defaults.valid_days == 7300,
        config_or_initial(None).cert_defaults.country_code == "SG"@,
        config_or_initial(None).cert_defaults.organization == "Home"@,
        config_or_initial(None).cert_defaults.state == "Singapore"@,
        config_or_initial(None).cert_defaults.city == "Singapore"@,
        config_or_initial(None).cert_defaults.organization_unit == "VPN"@,
        config_or_initial(None).cert_defaults.digest_algorithm == "sha512"@,
        config_or_initial(None).cert_defaults.key_profile == "rsa:4096"@,
        config_or_initial(None).cert_defaults.dns_list.len() == 0,
        config_or_initial(None).cert_defaults.ip_list.len() == 0,
{
}

/// An address is kept without the white space around it and the `/` at its end, and with all that
/// stands between.
pub proof fn law_kept_url(lead: Seq<char>, core: Seq<char>, slashes: Seq<char>, trail: Seq<char>)
    requires
        forall|i: int| 0 <= i < lead.len() ==> white_space(#[trigger] lead[i]),
        forall|i: int| 0 <= i < slashes.len() ==> #[trigger] slashes[i] == '/',
        forall|i: int| 0 <= i < trail.len() ==> white_space(#[trigger] trail[i]),
        core.len() > 0,
        !white_space(core[0]),
        !white_space(core[core.len() - 1]),
        core[core.len() - 1] != '/',
    ensures
        kept_url(lead + (core + slashes) + trail) == core,
{
    let t = core + slashes;
    assert(t[0] == core[0]);
    if slashes.len() > 0 {
        assert(t[t.len() - 1] == slashes[slashes.len() - 1]);
    } else {
        assert(t[t.len() - 1] == core[core.len() - 1]);
    }
    law_trimming(lead, t, trail);
    law_without_trailing(core, slashes, '/');
}

/// A request goes to the base address, without the `/` at its end, with the path behind it; it
/// carries the name and the password of the settings.
pub proof fn law_requests_go_to_the_settings(
    cfg: MinicaConfigView,
    base: Seq<char>,
    slashes: Seq<char>,
    path: Seq<char>,
)
    requires
        cfg.base_url == base + slashes,
        forall|i: int| 0 <= i < slashes.len() ==> #[trigger] slashes[i] == '/',
        base.len() > 0 ==> base[base.len() - 1] != '/',
    ensures
        reading(cfg, path).url == base + path,
        reading(cfg, path).username == cfg.username,
        reading(cfg, path).password == cfg.password,
        reading(cfg, path).cn is None,
{
    law_without_trailing(base, slashes, '/');
}

/// A certificate is created at the list of certificates of its authority, under the given name and
/// with all the settings say of certificates; it is deleted at its own address.
pub proof fn law_certificates_are_written_where_they_belong(
    cfg: MinicaConfigView,
    base: Seq<char>,
    ca_id: Seq<char>,
    name: Seq<char>,
    token: Seq<char>,
)
    requires
        cfg.base_url == base,
        base.len() > 0 ==> base[base.len() - 1] != '/',
    ensures
        creating(cfg, ca_id, name, token).url == base + ("/api/cas/"@ + ca_id + "/certs"@),
        creating(cfg, ca_id, name, token).username == cfg.username,
        creating(cfg, ca_id, name, token).password == cfg.password,
        creating(cfg, ca_id, name, token).cn is None,
        creating(cfg, ca_id, name, token).payload matches Some(p) && p.common_name == name
            && p.defaults == cfg.cert_defaults,
        deleting(cfg, ca_id, name, token).url == base + ("/api/cas/"@ + ca_id + "/certs/"@ + name),
        deleting(cfg, ca_id, name, token).username == cfg.username,
        deleting(cfg, ca_id, name, token).password == cfg.password,
        deleting(cfg, ca_id, name, token).cn is None,
        deleting(cfg, ca_id, name, token).payload is None,
        ca_path(ca_id) == "/api/cas/"@ + ca_id,
{
    let none = Seq::<char>::empty();
    law_without_trailing(base, none, '/');
    assert(base + none =~= base);
}

/// A request is shown to the contracts as it is, field by field.
pub proof fn law_requests_as_texts(r: MinicaRequest)
    ensures
        r@.method == r.method,
        r@.url == r.url@,
        r@.username == r.username@,
        r@.password == r.password@,
        r@.cn is Some <==> r.cn is Some,
        r.cn is Some ==> r@.cn->0 == r.cn->0@,
        r@.csrf is Some <==> r.csrf is Some,
        r.csrf is Some ==> r@.csrf->0 == r.csrf->0@,
        r@.payload is Some <==> r.payload is Some,
        r.payload is Some ==> r@.payload->0.common_name == r.payload->0.common_name@
            && r@.payload->0.defaults == r.payload->0.defaults@,
{
}

/// What is reported of a failure is the message of Minica, with the status behind it where there
/// is one.
pub proof fn law_reported_failures(e: ApiError)
    ensures
        e.status is None ==> failure_text(Some(e)) == e.message@,
        e.status matches Some(n) ==> failure_text(Some(e)) == e.message@ + (" ("@ + decimal(
            n as nat,
        ) + ")"@),
        failure_text(None) == "Minica request failed"@,
{
    if let Some(n) = e.status {
        assert(e.message@ + " ("@ + decimal(n as nat) + ")"@ =~= e.message@ + (" ("@ + decimal(
            n as nat,
        ) + ")"@));
    }
}

} // verus!
