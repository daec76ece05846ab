//! Answers of the programming interface.
use vstd::prelude::*;

use crate::clock::Timestamp;
use crate::minica::{minica_list_cas, reading, MinicaCa, MinicaConfig, MinicaRequest};
use crate::string_map::StringMap;
use crate::template_names::text_in;
use crate::templates::Template;
use crate::text::{blank, is_blank, texts, trim, trimmed, white_space};
use crate::text_laws::law_trimming;
use crate::variables::VariableMetadata;

verus! {

/// A request that failed: the HTTP status, a code for programs and a message for people.
#[derive(Debug, PartialEq, Eq)]
pub struct ApiFailure {
    pub status: u16,
    pub code: &'static str,
    pub message: String,
}

/// A request that failed, as a number and texts.
pub struct FailureView {
    pub status: u16,
    pub code: Seq<char>,
    pub message: Seq<char>,
}

impl View for ApiFailure {
    type V = FailureView;

    open spec fn view(&self) -> FailureView {
        FailureView { status: self.status, code: self.code@, message: self.message@ }
    }
}

/// A failure made of its parts.
pub open spec fn failure(status: u16, code: Seq<char>, message: Seq<char>) -> FailureView {
    FailureView { status, code, message }
}

/// The frame of every answer.
#[derive(Debug, PartialEq, Eq)]
pub struct VpnmanEnvelope<T> {
    pub success: bool,
    pub error_code: String,
    pub error_message: String,
    pub data: Option<T>,
}

/// An answer: the HTTP status and the frame.
#[derive(Debug, PartialEq, Eq)]
pub struct ApiReply<T> {
    pub status: u16,
    pub envelope: VpnmanEnvelope<T>,
}

/// The answer is a failure of these parts.
pub open spec fn refuses<T>(r: ApiReply<T>, f: FailureView) -> bool {
    &&& r.status == f.status
    &&& !r.envelope.success
    &&& r.envelope.error_code@ == f.code
    &&& r.envelope.error_message@ == f.message
    &&& r.envelope.data is None
}

/// The answer hands out data.
pub open spec fn hands_out<T>(r: ApiReply<T>, data: T) -> bool {
    &&& r.status == 200
    &&& r.envelope.success
    &&& r.envelope.error_code@.len() == 0
    &&& r.envelope.error_message@.len() == 0
    &&& r.envelope.data == Some(data)
}

/// The answer that hands out `data`.
pub fn api_ok<T>(data: T) -> (r: ApiReply<T>)
    ensures
        hands_out(r, data),
{
    ApiReply {
        status: 200,
        envelope: VpnmanEnvelope {
            success: true,
            error_code: String::new(),
            error_message: String::new(),
            data: Some(data),
        },
    }
}

/// The answer to a request that failed.
pub fn api_error<T>(status: u16, code: &str, message: String) -> (r: ApiReply<T>)
    ensures
        refuses(r, failure(status, code@, message@)),
{
    ApiReply {
        status,
        envelope: VpnmanEnvelope {
            success: false,
            error_code: code.to_string(),
            error_message: message,
            data: None,
        },
    }
}

/// The answer to a request that failed.
pub fn api_failure<T>(err: ApiFailure) -> (r: ApiReply<T>)
    ensures
        refuses(r, err@),
{
    api_error(err.status, err.code, err.message)
}

/// What is known of a generated profile beside its text.
#[derive(Debug, PartialEq, Eq)]
pub struct ProfileMetadata {
    pub client_name: String,
    pub template_id: String,
    pub template_name: String,
    pub ca_id: String,
    pub ca_common_name: String,
    pub cert_id: String,
    pub tags: Vec<String>,
    pub created_at: Timestamp,
    pub variables: StringMap<String>,
}

/// What is known of a generated profile, as texts and maps.
pub struct ProfileMetadataView {
    pub client_name: Seq<char>,
    pub template_id: Seq<char>,
    pub template_name: Seq<char>,
    pub ca_id: Seq<char>,
    pub ca_common_name: Seq<char>,
    pub cert_id: Seq<char>,
    pub tags: Seq<Seq<char>>,
    pub created_at: Timestamp,
    pub variables: Map<Seq<char>, Seq<char>>,
}

impl View for ProfileMetadata {
    type V = ProfileMetadataView;

    open spec fn view(&self) -> ProfileMetadataView {
        ProfileMetadataView {
            client_name: self.client_name@,
            template_id: self.template_id@,
            template_name: self.template_name@,
            ca_id: self.ca_id@,
            ca_common_name: self.ca_common_name@,
            cert_id: self.cert_id@,
            tags: texts(self.tags@),
            created_at: self.created_at,
            variables: self.variables@,
        }
    }
}

/// A template as the interface shows it: without its text.
#[derive(Debug, PartialEq, Eq)]
pub struct ApiTemplate {
    pub id: String,
    pub name: String,
    pub description: String,
    pub token_start: String,
    pub token_stop: String,
    pub variables: StringMap<VariableMetadata>,
}

/// A generated profile as a list shows it.
#[derive(Debug, PartialEq, Eq)]
pub struct ApiProfileSummary {
    pub id: String,
    pub metadata: ProfileMetadata,
}

/// A generated profile with its text.
#[derive(Debug, PartialEq, Eq)]
pub struct ApiProfile {
    pub id: String,
    pub metadata: ProfileMetadata,
    pub profile: String,
}

/// A profile, as texts and maps.
pub struct ApiProfileView {
    pub id: Seq<char>,
    pub metadata: ProfileMetadataView,
    pub profile: Seq<char>,
}

impl View for ApiProfile {
    type V = ApiProfileView;

    open spec fn view(&self) -> ApiProfileView {
        ApiProfileView { id: self.id@, metadata: self.metadata@, profile: self.profile@ }
    }
}

/// A template as the interface shows it.
pub open spec fn shown(t: Template) -> ApiTemplate {
    ApiTemplate {
        id: t.id,
        name: t.metadata.name,
        description: t.metadata.description,
        token_start: t.metadata.token_start,
        token_stop: t.metadata.token_stop,
        variables: t.metadata.variables,
    }
}

/// The templates as the interface shows them, in their order.
fn shown_templates(templates: Vec<Template>) -> (r: Vec<ApiTemplate>)
    ensures
        r@ == Seq::new(templates@.len(), |i: int| shown(templates@[i])),
{
    let ghost all = templates@;
    let mut out: Vec<ApiTemplate> = Vec::new();
    for t in it: templates.into_iter()
        invariant
            it.seq() == all,
            out@ == Seq::new(it.index() as nat, |i: int| shown(all[i])),
    {
        let ghost had = out@;
        let ghost n = it.index() as int;
        out.push(
            ApiTemplate {
                id: t.id,
                name: t.metadata.name,
                description: t.metadata.description,
                token_start: t.metadata.token_start,
                token_stop: t.metadata.token_stop,
                variables: t.metadata.variables,
            },
        );
        proof {
            assert(out@ =~= had.push(shown(all[n])));
            assert(out@ =~= Seq::new((n + 1) as nat, |i: int| shown(all[i])));
        }
    }
    out
}

/// The answer that lists the templates in their order, or says why they could not be loaded.
pub fn api_list_templates(loaded: Result<Vec<Template>, String>) -> (r: ApiReply<Vec<ApiTemplate>>)
    ensures
        match loaded {
            Ok(templates) => exists|list: Vec<ApiTemplate>|
                list@ == Seq::new(templates@.len(), |i: int| shown(templates@[i]))
                    && #[trigger] hands_out(r, list),
            Err(e) => refuses(r, failure(500, "failed_to_list_templates"@, e@)),
        },
{
    match loaded {
        Ok(templates) => {
            let list = shown_templates(templates);
            let r = api_ok(list);
            proof {
                assert(hands_out(r, list));
            }
            r
        },
        Err(e) => api_error(500, "failed_to_list_templates", e),
    }
}

/// A profile as a list shows it.
pub open spec fn summary(entry: (String, ProfileMetadata)) -> ApiProfileSummary {
    ApiProfileSummary { id: entry.0, metadata: entry.1 }
}

/// The profiles as a list shows them, in their order.
fn summaries(profiles: Vec<(String, ProfileMetadata)>) -> (r: Vec<ApiProfileSummary>)
    ensures
        r@ == Seq::new(profiles@.len(), |i: int| summary(profiles@[i])),
{
    let ghost all = profiles@;
    let mut out: Vec<ApiProfileSummary> = Vec::new();
    for entry in it: profiles.into_iter()
        invariant
            it.seq() == all,
            out@ == Seq::new(it.index() as nat, |i: int| summary(all[i])),
    {
        let ghost had = out@;
        let ghost n = it.index() as int;
        let (id, metadata) = entry;
        out.push(ApiProfileSummary { id, metadata });
        proof {
            assert(out@ =~= had.push(summary(all[n])));
            assert(out@ =~= Seq::new((n + 1) as nat, |i: int| summary(all[i])));
        }
    }
    out
}

/// The answer that lists the profiles in their order, or says why they could not be loaded.
pub fn api_list_profiles(loaded: Result<Vec<(String, ProfileMetadata)>, String>) -> (r: ApiReply<
    Vec<ApiProfileSummary>,
>)
    ensures
        match loaded {
            Ok(profiles) => exists|list: Vec<ApiProfileSummary>|
                list@ == Seq::new(profiles@.len(), |i: int| summary(profiles@[i]))
                    && #[trigger] hands_out(r, list),
            Err(e) => refuses(r, failure(500, "failed_to_list_profiles"@, e@)),
        },
{
    match loaded {
        Ok(profiles) => {
            let list = summaries(profiles);
            let r = api_ok(list);
            proof {
                assert(hands_out(r, list));
            }
            r
        },
        Err(e) => api_error(500, "failed_to_list_profiles", e),
    }
}

/// The request that lists the certificate authorities, given the settings as they could be read,
/// or the answer where there are none.
pub fn api_list_cas(config: Result<MinicaConfig, String>) -> (r: Result<
    MinicaRequest,
    ApiReply<Vec<MinicaCa>>,
>)
    ensures
        match config {
            Ok(cfg) => r matches Ok(request) && request@ == reading(cfg@, "/api/cas"@),
            Err(e) => r matches Err(reply) && refuses(
                reply,
                failure(500, "minica_config_missing"@, e@),
            ),
        },
{
    match config {
        Ok(cfg) => Ok(minica_list_cas(&cfg)),
        Err(e) => Err(api_error(500, "minica_config_missing", e)),
    }
}

/// The answer that lists the certificate authorities, or says why Minica did not.
pub fn listed_cas(listed: Result<Vec<MinicaCa>, String>) -> (r: ApiReply<Vec<MinicaCa>>)
    ensures
        match listed {
            Ok(cas) => hands_out(r, cas),
            Err(e) => refuses(r, failure(502, "failed_to_list_cas"@, e@)),
        },
{
    match listed {
        Ok(cas) => api_ok(cas),
        Err(e) => api_error(502, "failed_to_list_cas", e),
    }
}

/// The certificate authority of a request: the one it names, trimmed, or the default one where it
/// names none; or why there is none.
pub open spec fn resolved_ca(
    requested: Option<Seq<char>>,
    config: Result<MinicaConfig, String>,
) -> Result<Seq<char>, FailureView> {
    match requested {
        Some(id) if !blank(id) => Ok(trimmed(id)),
        _ => match config {
            Err(e) => Err(failure(500, "minica_config_missing"@, e@)),
            Ok(cfg) => if blank(cfg.default_ca_id@) {
                Err(
                    failure(
                        400,
                        "default_ca_missing"@,
                        "ca_id was omitted and no default CA ID is configured"@,
                    ),
                )
            } else {
                Ok(cfg.default_ca_id@)
            },
        },
    }
}

/// The certificate authority of a request, given the settings as they could be read.
pub fn resolve_api_ca_id(requested: Option<&str>, config: Result<MinicaConfig, String>) -> (r: Result<
    String,
    ApiFailure,
>)
    ensures
        (match r {
            Ok(id) => Ok::<Seq<char>, FailureView>(id@),
            Err(e) => Err::<Seq<char>, FailureView>(e@),
        }) == resolved_ca(text_in(requested), config),
{
    if let Some(id) = requested {
        if !is_blank(id) {
            return Ok(trim(id));
        }
    }
    match config {
        Err(message) => Err(ApiFailure { status: 500, code: "minica_config_missing", message }),
        Ok(cfg) => if is_blank(cfg.default_ca_id.as_str()) {
            Err(
                ApiFailure {
                    status: 400,
                    code: "default_ca_missing",
                    message: "ca_id was omitted and no default CA ID is configured".to_string(),
                },
            )
        } else {
            Ok(cfg.default_ca_id)
        },
    }
}

/// The profile `id` as it could be read, or what went wrong: the metadata is read first.
pub fn load_api_profile(
    id: &str,
    metadata: Result<ProfileMetadata, String>,
    profile: Result<String, String>,
) -> (r: Result<ApiProfile, String>)
    ensures
        match r {
            Ok(p) => p.id@ == id@ && metadata == Ok::<ProfileMetadata, String>(p.metadata) && profile
                == Ok::<String, String>(p.profile),
            Err(e) => match metadata {
                Err(m) => e == m,
                Ok(_) => profile == Err::<String, String>(e),
            },
        },
{
    match metadata {
        Err(e) => Err(e),
        Ok(metadata) => match profile {
            Err(e) => Err(e),
            Ok(profile) => Ok(ApiProfile { id: id.to_string(), metadata, profile }),
        },
    }
}

/// The answer that hands out a profile, or says why it could not be loaded.
pub fn api_get_profile(loaded: Result<ApiProfile, String>) -> (r: ApiReply<ApiProfile>)
    ensures
        match loaded {
            Ok(profile) => hands_out(r, profile),
            Err(e) => refuses(r, failure(404, "profile_not_found"@, e@)),
        },
{
    match loaded {
        Ok(profile) => api_ok(profile),
        Err(e) => api_error(404, "profile_not_found", e),
    }
}

/// The answer that hands out the profile that was issued, or says why none was.
pub fn issued_config(issued: Result<ApiProfile, ApiFailure>) -> (r: ApiReply<ApiProfile>)
    ensures
        match issued {
            Ok(profile) => hands_out(r, profile),
            Err(f) => refuses(r, f@),
        },
{
    match issued {
        Ok(profile) => api_ok(profile),
        Err(f) => api_failure(f),
    }
}

// ---- laws ----

/// A template is shown as it is: every field but its text, unchanged.
pub proof fn law_templates_are_shown_as_they_are(t: Template)
    ensures
        shown(t).id == t.id,
        shown(t).name == t.metadata.name,
        shown(t).description == t.metadata.description,
        shown(t).token_start == t.metadata.token_start,
        shown(t).token_stop == t.metadata.token_stop,
        shown(t).variables == t.metadata.variables,
{
}

/// A profile is listed with its own identifier and all of its metadata.
pub proof fn law_profiles_are_listed_as_they_are(id: String, metadata: ProfileMetadata)
    ensures
        summary((id, metadata)).id == id,
        summary((id, metadata)).metadata == metadata,
{
}

/// An answer that hands out data has the status 200, reports success and no error, and holds
/// exactly the data.
pub proof fn law_answers_that_hand_out<T>(r: ApiReply<T>, data: T)
    ensures
        hands_out(r, data) <==> {
            &&& r.status == 200
            &&& r.envelope.success
            &&& r.envelope.error_code@ == Seq::<char>::empty()
            &&& r.envelope.error_message@ == Seq::<char>::empty()
            &&& r.envelope.data == Some(data)
        },
{
    if hands_out(r, data) {
        assert(r.envelope.error_code@ =~= Seq::<char>::empty());
        assert(r.envelope.error_message@ =~= Seq::<char>::empty());
    }
}

/// An answer that refuses has the status, the code and the message of the failure, reports no
/// success and holds no data.
pub proof fn law_answers_that_refuse<T>(
    r: ApiReply<T>,
    status: u16,
    code: Seq<char>,
    message: Seq<char>,
)
    ensures
        refuses(r, failure(status, code, message)) <==> {
            &&& r.status == status
            &&& !r.envelope.success
            &&& r.envelope.error_code@ == code
            &&& r.envelope.error_message@ == message
            &&& r.envelope.data is None
        },
{
}

/// The certificate authority of a request is the one that it names, without the white space around
/// it, or else the default one as it stands in the settings; there is none if and only if the
/// request names none and the settings cannot be read or name none.
pub proof fn law_resolved_ca(
    requested: Option<Seq<char>>,
    lead: Seq<char>,
    core: Seq<char>,
    trail: Seq<char>,
    config: Result<MinicaConfig, String>,
)
    requires
        forall|i: int| 0 <= i < lead.len() ==> white_space(#[trigger] lead[i]),
        forall|i: int| 0 <= i < trail.len() ==> white_space(#[trigger] trail[i]),
        core.len() > 0,
        !white_space(core[0]),
        !white_space(core[core.len() - 1]),
        requested is None || blank(requested->0),
    ensures
        resolved_ca(Some(lead + core + trail), config) == Ok::<Seq<char>, FailureView>(core),
        config is Ok && !blank(config->Ok_0.default_ca_id@) ==> resolved_ca(requested, config)
            == Ok::<Seq<char>, FailureView>(config->Ok_0.default_ca_id@),
        config is Ok && blank(config->Ok_0.default_ca_id@) ==> (resolved_ca(
            requested,
            config,
        ) matches Err(f) && f.status == 400 && f.code == "default_ca_missing"@),
        config is Err ==> (resolved_ca(requested, config) matches Err(f) && f.status == 500
            && f.code == "minica_config_missing"@ && f.message == config->Err_0@),
{
    law_trimming(lead, core, trail);
    assert((lead + core + trail)[lead.len() as int] == core[0]);
    assert(!blank(lead + core + trail));
}

/// What is known of a profile is shown to the contracts as it is, field by field.
pub proof fn law_profiles_as_texts(p: ApiProfile)
    ensures
        p@.id == p.id@,
        p@.profile == p.profile@,
        p@.metadata.client_name == p.metadata.client_name@,
        p@.metadata.template_id == p.metadata.template_id@,
        p@.metadata.template_name == p.metadata.template_name@,
        p@.metadata.ca_id == p.metadata.ca_id@,
        p@.metadata.ca_common_name == p.metadata.ca_common_name@,
        p@.metadata.cert_id == p.metadata.cert_id@,
        p@.metadata.tags == texts(p.metadata.tags@),
        p@.metadata.created_at == p.metadata.created_at,
        p@.metadata.variables == p.metadata.variables@,
{
}

} // verus!
