//! The course of issuing a configuration. Each step takes the state and what the last action
//! brought, and gives the next state and the next action.
use vstd::prelude::*;

use crate::api::{failure, ApiFailure, ApiProfile, FailureView, ProfileMetadataView};
use crate::clock::Timestamp;
use crate::issue::{
    check_material, collect_parameters, compose_profile, first_parameter_failure, given_values,
    material_failure, profile_text, IssueConfigInput,
};
use crate::minica::{
    ca_path, creating, minica_create_cert, minica_get_ca, minica_get_cert,
    minica_get_cert_id_by_cn, minica_get_csrf, reading, CertIdResponse, Method, MinicaCa,
    MinicaCert, MinicaConfig, MinicaRequest, RequestView,
};
use crate::storage::{slug, slugify};
use crate::string_map::StringMap;
use crate::templates::Template;
use crate::text::texts;
use crate::text_laws::law_without_trailing;

verus! {

/// A configuration whose parameters have been accepted.
#[derive(Debug, PartialEq, Eq)]
pub struct IssueJob {
    pub input: IssueConfigInput,
    pub template: Template,
    pub vars: StringMap<String>,
}

impl IssueJob {
    /// No parameter is refused, and the values are those given for the variables of the template.
    pub open spec fn wf(&self) -> bool {
        &&& self.template.wf()
        &&& self.input.parameters.wf()
        &&& self.vars.wf()
        &&& self.vars@ == given_values(
            self.input.parameters@,
            texts(self.template.variables@),
        )
        &&& first_parameter_failure(
            self.template.metadata.variables@,
            self.input.parameters@,
            texts(self.template.variables@),
        ) is None
    }
}

/// How far the issuing of a configuration has come: what is being waited for.
#[derive(Debug, PartialEq, Eq)]
pub enum IssueState {
    /// The settings.
    Configuring { input: IssueConfigInput },
    /// The template.
    LoadingTemplate { input: IssueConfigInput, cfg: MinicaConfig },
    /// The certificate authority.
    LoadingCa { job: IssueJob, cfg: MinicaConfig },
    /// Whether the client has a certificate.
    FindingCert { job: IssueJob, cfg: MinicaConfig, ca: MinicaCa },
    /// The certificate that the client has.
    LoadingCert { job: IssueJob, ca: MinicaCa },
    /// The token for creating a certificate.
    FetchingCsrf { job: IssueJob, cfg: MinicaConfig, ca: MinicaCa },
    /// The new certificate.
    CreatingCert { job: IssueJob, ca: MinicaCa },
    /// An identifier and the time.
    Stamping { job: IssueJob, ca: MinicaCa, cert: MinicaCert },
    /// That the profile is written.
    Saving { profile: ApiProfile },
    /// Nothing more.
    Done,
}

/// What an action brought.
#[derive(Debug, PartialEq, Eq)]
pub enum IssueEvent {
    Config(Result<MinicaConfig, String>),
    Loaded(Result<Template, String>),
    Ca(Result<MinicaCa, String>),
    CertId(Result<CertIdResponse, String>),
    Cert(Result<MinicaCert, String>),
    Csrf(Result<String, String>),
    Stamp { id: String, created_at: Timestamp },
    Saved(Result<(), String>),
}

/// What is to be done next.
#[derive(Debug, PartialEq, Eq)]
pub enum IssueAction {
    /// Read the settings.
    ReadConfig,
    /// Load the template with this identifier.
    LoadTemplate { id: String },
    /// Ask for the certificate authority.
    GetCa(MinicaRequest),
    /// Ask for the identifier of the certificate of the client.
    GetCertId(MinicaRequest),
    /// Ask for the certificate of the client.
    GetCert(MinicaRequest),
    /// Ask for the token.
    GetCsrf(MinicaRequest),
    /// Have a certificate created.
    CreateCert(MinicaRequest),
    /// Make an identifier with this prefix, and read the clock.
    MakeStamp { prefix: String },
    /// Write the profile that the state holds.
    Save,
    /// Answer.
    Finish(Result<ApiProfile, ApiFailure>),
}

/// The next state and the next action.
#[derive(Debug, PartialEq, Eq)]
pub struct IssueTurn {
    pub next: IssueState,
    pub action: IssueAction,
}

impl IssueState {
    /// From the certificate authority on the parameters have been accepted, and from the
    /// identifier on the material has been.
    pub open spec fn wf(&self) -> bool {
        match *self {
            IssueState::Configuring { input } => input.parameters.wf(),
            IssueState::LoadingTemplate { input, cfg } => input.parameters.wf(),
            IssueState::LoadingCa { job, cfg } => job.wf(),
            IssueState::FindingCert { job, cfg, ca } => job.wf(),
            IssueState::LoadingCert { job, ca } => job.wf(),
            IssueState::FetchingCsrf { job, cfg, ca } => job.wf(),
            IssueState::CreatingCert { job, ca } => job.wf(),
            IssueState::Stamping { job, ca, cert } => job.wf() && material_failure(
                ca,
                cert,
            ) is None,
            IssueState::Saving { profile } => profile.metadata.variables.wf(),
            IssueState::Done => true,
        }
    }

    /// The number of steps that can still follow at most.
    pub open spec fn steps_left(&self) -> nat {
        match *self {
            IssueState::Configuring { .. } => 8,
            IssueState::LoadingTemplate { .. } => 7,
            IssueState::LoadingCa { .. } => 6,
            IssueState::FindingCert { .. } => 5,
            IssueState::LoadingCert { .. } => 3,
            IssueState::FetchingCsrf { .. } => 4,
            IssueState::CreatingCert { .. } => 3,
            IssueState::Stamping { .. } => 2,
            IssueState::Saving { .. } => 1,
            IssueState::Done => 0,
        }
    }

    /// The event is what the state waits for.
    pub open spec fn awaits(&self, event: IssueEvent) -> bool {
        match *self {
            IssueState::Configuring { .. } => event is Config,
            IssueState::LoadingTemplate { .. } => event is Loaded,
            IssueState::LoadingCa { .. } => event is Ca,
            IssueState::FindingCert { .. } => event is CertId,
            IssueState::LoadingCert { .. } => event is Cert,
            IssueState::FetchingCsrf { .. } => event is Csrf,
            IssueState::CreatingCert { .. } => event is Cert,
            IssueState::Stamping { .. } => event is Stamp,
            IssueState::Saving { .. } => event is Saved,
            IssueState::Done => false,
        }
    }
}

impl IssueEvent {
    /// A template that was loaded is valid.
    pub open spec fn wf(&self) -> bool {
        match *self {
            IssueEvent::Loaded(Ok(template)) => template.wf(),
            _ => true,
        }
    }
}

/// The course ends with this failure.
pub open spec fn fails(turn: IssueTurn, f: FailureView) -> bool {
    &&& turn.next is Done
    &&& turn.action matches IssueAction::Finish(Err(e)) && e@ == f
}

/// The material is accepted and an identifier is asked for, or the course ends.
pub open spec fn takes_material(job: IssueJob, ca: MinicaCa, cert: MinicaCert, turn: IssueTurn) -> bool {
    match material_failure(ca, cert) {
        Some(f) => fails(turn, f),
        None => {
            &&& turn.next == (IssueState::Stamping { job, ca, cert })
            &&& turn.action matches IssueAction::MakeStamp { prefix } && prefix@ == slug(
                job.input.client_name@,
            )
        },
    }
}

/// The turn that follows from a state and an event.
pub open spec fn follows(state: IssueState, event: IssueEvent, turn: IssueTurn) -> bool {
    match (state, event) {
        (IssueState::Configuring { input }, IssueEvent::Config(Err(e))) => fails(
            turn,
            failure(500, "minica_config_missing"@, e@),
        ),
        (IssueState::Configuring { input }, IssueEvent::Config(Ok(cfg))) => {
            &&& turn.next == (IssueState::LoadingTemplate { input, cfg })
            &&& turn.action matches IssueAction::LoadTemplate { id } && id@ == input.template_id@
        },
        (IssueState::LoadingTemplate { input, cfg }, IssueEvent::Loaded(Err(e))) => fails(
            turn,
            failure(404, "template_not_found"@, e@),
        ),
        (IssueState::LoadingTemplate { input, cfg }, IssueEvent::Loaded(Ok(template))) => {
            match first_parameter_failure(
                template.metadata.variables@,
                input.parameters@,
                texts(template.variables@),
            ) {
                Some(f) => fails(turn, f),
                None => {
                    &&& turn.next matches IssueState::LoadingCa { job, cfg: c } && job.input
                        == input && job.template == template && c == cfg
                    &&& turn.action matches IssueAction::GetCa(request) && request@ == reading(
                        cfg@,
                        ca_path(input.ca_id@),
                    )
                },
            }
        },
        (IssueState::LoadingCa { job, cfg }, IssueEvent::Ca(Err(e))) => fails(
            turn,
            failure(502, "failed_to_load_ca"@, e@),
        ),
        (IssueState::LoadingCa { job, cfg }, IssueEvent::Ca(Ok(ca))) => {
            &&& turn.next == (IssueState::FindingCert { job, cfg, ca })
            &&& turn.action matches IssueAction::GetCertId(request) && request@ == (RequestView {
                cn: Some(job.input.client_name@),
                ..reading(cfg@, ca_path(job.input.ca_id@) + "/certs_by_cn"@)
            })
        },
        (IssueState::FindingCert { job, cfg, ca }, IssueEvent::CertId(Ok(found))) => {
            &&& turn.next == (IssueState::LoadingCert { job, ca })
            &&& turn.action matches IssueAction::GetCert(request) && request@ == reading(
                cfg@,
                ca_path(job.input.ca_id@) + "/certs/"@ + found.id@,
            )
        },
        (IssueState::FindingCert { job, cfg, ca }, IssueEvent::CertId(Err(e))) => {
            &&& turn.next == (IssueState::FetchingCsrf { job, cfg, ca })
            &&& turn.action matches IssueAction::GetCsrf(request) && request@ == reading(
                cfg@,
                "/api/csrf"@,
            )
        },
        (IssueState::LoadingCert { job, ca }, IssueEvent::Cert(Ok(cert))) => takes_material(
            job,
            ca,
            cert,
            turn,
        ),
        (IssueState::CreatingCert { job, ca }, IssueEvent::Cert(Ok(cert))) => takes_material(
            job,
            ca,
            cert,
            turn,
        ),
        (IssueState::LoadingCert { job, ca }, IssueEvent::Cert(Err(e))) => fails(
            turn,
            failure(502, "failed_to_get_client_certificate"@, e@),
        ),
        (IssueState::FetchingCsrf { job, cfg, ca }, IssueEvent::Csrf(Err(e))) => fails(
            turn,
            failure(502, "failed_to_get_client_certificate"@, e@),
        ),
        (IssueState::CreatingCert { job, ca }, IssueEvent::Cert(Err(e))) => fails(
            turn,
            failure(502, "failed_to_get_client_certificate"@, e@),
        ),
        (IssueState::FetchingCsrf { job, cfg, ca }, IssueEvent::Csrf(Ok(token))) => {
            &&& turn.next == (IssueState::CreatingCert { job, ca })
            &&& turn.action matches IssueAction::CreateCert(request) && request@ == creating(
                cfg@,
                job.input.ca_id@,
                job.input.client_name@,
                token@,
            )
        },
        (IssueState::Stamping { job, ca, cert }, IssueEvent::Stamp { id, created_at }) => {
            &&& turn.action is Save
            &&& turn.next matches IssueState::Saving { profile } && {
                &&& profile.id@ == id@
                &&& profile.profile@ == profile_text(job.template@, job.vars@, ca, cert)
                &&& profile.metadata@ == (ProfileMetadataView {
                    client_name: job.input.client_name@,
                    template_id: job.template.id@,
                    template_name: job.template.metadata.name@,
                    ca_id: job.input.ca_id@,
                    ca_common_name: ca.common_name@,
                    cert_id: cert.id@,
                    tags: texts(job.input.tags@),
                    created_at,
                    variables: job.vars@,
                })
            }
        },
        (IssueState::Saving { profile }, IssueEvent::Saved(Ok(_))) => {
            &&& turn.next is Done
            &&& turn.action == IssueAction::Finish(Ok(profile))
        },
        (IssueState::Saving { profile }, IssueEvent::Saved(Err(e))) => fails(
            turn,
            failure(500, "failed_to_save_profile"@, e@),
        ),
        _ => false,
    }
}

/// Begins the course: the settings are read first.
pub fn issue_openvpn_config(input: IssueConfigInput) -> (turn: IssueTurn)
    requires
        input.parameters.wf(),
    ensures
        turn.next == (IssueState::Configuring { input }),
        turn.next.wf(),
        turn.action is ReadConfig,
{
    IssueTurn { next: IssueState::Configuring { input }, action: IssueAction::ReadConfig }
}

/// The end of the course with a failure.
fn stop(status: u16, code: &'static str, message: String) -> (turn: IssueTurn)
    ensures
        fails(turn, failure(status, code@, message@)),
{
    IssueTurn {
        next: IssueState::Done,
        action: IssueAction::Finish(Err(ApiFailure { status, code, message })),
    }
}

/// The turn after the certificate has come.
fn take_material(job: IssueJob, ca: MinicaCa, cert: MinicaCert) -> (turn: IssueTurn)
    requires
        job.wf(),
    ensures
        turn.next.wf(),
        takes_material(job, ca, cert, turn),
{
    match check_material(&ca, &cert) {
        Err(f) => IssueTurn { next: IssueState::Done, action: IssueAction::Finish(Err(f)) },
        Ok(_) => {
            let prefix = slugify(job.input.client_name.as_str());
            IssueTurn {
                next: IssueState::Stamping { job, ca, cert },
                action: IssueAction::MakeStamp { prefix },
            }
        },
    }
}

/// The turn that follows from a state and an event that it waits for.
pub fn issue_step(state: IssueState, event: IssueEvent) -> (turn: IssueTurn)
    requires
        state.wf(),
        event.wf(),
        state.awaits(event),
    ensures
        turn.next.wf(),
        follows(state, event, turn),
{
    match (state, event) {
        (IssueState::Configuring { input }, IssueEvent::Config(config)) => match config {
            Err(e) => stop(500, "minica_config_missing", e),
            Ok(cfg) => {
                let id = input.template_id.clone();
                IssueTurn {
                    next: IssueState::LoadingTemplate { input, cfg },
                    action: IssueAction::LoadTemplate { id },
                }
            },
        },
        (IssueState::LoadingTemplate { input, cfg }, IssueEvent::Loaded(loaded)) => match loaded {
            Err(e) => stop(404, "template_not_found", e),
            Ok(template) => match collect_parameters(&template, &input.parameters) {
                Err(f) => IssueTurn { next: IssueState::Done, action: IssueAction::Finish(Err(f)) },
                Ok(vars) => {
                    let request = minica_get_ca(&cfg, input.ca_id.as_str());
                    IssueTurn {
                        next: IssueState::LoadingCa {
                            job: IssueJob { input, template, vars },
                            cfg,
                        },
                        action: IssueAction::GetCa(request),
                    }
                },
            },
        },
        (IssueState::LoadingCa { job, cfg }, IssueEvent::Ca(found)) => match found {
            Err(e) => stop(502, "failed_to_load_ca", e),
            Ok(ca) => {
                let request = minica_get_cert_id_by_cn(
                    &cfg,
                    job.input.ca_id.as_str(),
                    job.input.client_name.as_str(),
                );
                IssueTurn {
                    next: IssueState::FindingCert { job, cfg, ca },
                    action: IssueAction::GetCertId(request),
                }
            },
        },
        (IssueState::FindingCert { job, cfg, ca }, IssueEvent::CertId(found)) => match found {
            Ok(found) => {
                let request = minica_get_cert(&cfg, job.input.ca_id.as_str(), found.id.as_str());
                IssueTurn {
                    next: IssueState::LoadingCert { job, ca },
                    action: IssueAction::GetCert(request),
                }
            },
            Err(_) => {
                let request = minica_get_csrf(&cfg);
                IssueTurn {
                    next: IssueState::FetchingCsrf { job, cfg, ca },
                    action: IssueAction::GetCsrf(request),
                }
            },
        },
        (IssueState::LoadingCert { job, ca }, IssueEvent::Cert(found)) => match found {
            Err(e) => stop(502, "failed_to_get_client_certificate", e),
            Ok(cert) => take_material(job, ca, cert),
        },
        (IssueState::FetchingCsrf { job, cfg, ca }, IssueEvent::Csrf(token)) => match token {
            Err(e) => stop(502, "failed_to_get_client_certificate", e),
            Ok(token) => {
                let request = minica_create_cert(
                    &cfg,
                    job.input.ca_id.as_str(),
                    job.input.client_name.as_str(),
                    token,
                );
                IssueTurn {
                    next: IssueState::CreatingCert { job, ca },
                    action: IssueAction::CreateCert(request),
                }
            },
        },
        (IssueState::CreatingCert { job, ca }, IssueEvent::Cert(created)) => match created {
            Err(e) => stop(502, "failed_to_get_client_certificate", e),
            Ok(cert) => take_material(job, ca, cert),
        },
        (IssueState::Stamping { job, ca, cert }, IssueEvent::Stamp { id, created_at }) => {
            let IssueJob { input, template, vars } = job;
            let profile = compose_profile(input, template, vars, ca, cert, id, created_at);
            IssueTurn { next: IssueState::Saving { profile }, action: IssueAction::Save }
        },
        (IssueState::Saving { profile }, IssueEvent::Saved(saved)) => match saved {
            Err(e) => stop(500, "failed_to_save_profile", e),
            Ok(_) => IssueTurn {
                next: IssueState::Done,
                action: IssueAction::Finish(Ok(profile)),
            },
        },
        _ => {
            proof {
                assert(false);
            }
            IssueTurn { next: IssueState::Done, action: IssueAction::ReadConfig }
        },
    }
}

// ---- laws of the course ----

/// The course ends: each step leaves fewer steps to follow, and it answers exactly when none is
/// left.
pub proof fn law_course_ends(state: IssueState, event: IssueEvent, turn: IssueTurn)
    requires
        state.awaits(event),
        follows(state, event, turn),
    ensures
        turn.next.steps_left() < state.steps_left(),
        turn.action is Finish == (turn.next.steps_left() == 0),
{
}

/// A certificate is created only with the token that Minica gave just before, and for the client
/// and the certificate authority of the input.
pub proof fn law_created_with_token(state: IssueState, event: IssueEvent, turn: IssueTurn)
    requires
        follows(state, event, turn),
        turn.action is CreateCert,
    ensures
        event matches IssueEvent::Csrf(Ok(token)) && state matches IssueState::FetchingCsrf {
            job,
            cfg,
            ca,
        } && {
            let request = turn.action->CreateCert_0@;
            &&& request.method == Method::Put
            &&& request.csrf == Some(token@)
            &&& request.payload matches Some(payload) && payload.common_name
                == job.input.client_name@ && payload.defaults == cfg@.cert_defaults
        },
{
}

/// A certificate that the client has is used: none is created where Minica knows one by the name
/// of the client.
pub proof fn law_existing_certificate_is_used(
    job: IssueJob,
    cfg: MinicaConfig,
    ca: MinicaCa,
    found: CertIdResponse,
    turn: IssueTurn,
)
    requires
        follows(
            IssueState::FindingCert { job, cfg, ca },
            IssueEvent::CertId(Ok(found)),
            turn,
        ),
    ensures
        turn.action matches IssueAction::GetCert(request) && request@.method == Method::Get,
        turn.next == (IssueState::LoadingCert { job, ca }),
{
}

/// Minica is asked for nothing before the parameters have been accepted.
pub proof fn law_asks_only_with_accepted_parameters(
    state: IssueState,
    event: IssueEvent,
    turn: IssueTurn,
)
    requires
        follows(state, event, turn),
        turn.next.wf(),
        turn.action is GetCa || turn.action is GetCertId || turn.action is GetCert
            || turn.action is GetCsrf || turn.action is CreateCert,
    ensures
        job_of(turn.next) matches Some(job) && job.wf(),
{
}

/// The configuration that a state works on, once its parameters have been accepted.
pub open spec fn job_of(state: IssueState) -> Option<IssueJob> {
    match state {
        IssueState::LoadingCa { job, .. } => Some(job),
        IssueState::FindingCert { job, .. } => Some(job),
        IssueState::LoadingCert { job, .. } => Some(job),
        IssueState::FetchingCsrf { job, .. } => Some(job),
        IssueState::CreatingCert { job, .. } => Some(job),
        IssueState::Stamping { job, .. } => Some(job),
        _ => None,
    }
}

/// A profile is written only where the certificate authority gave its certificate and the client
/// certificate and key.
pub proof fn law_saved_with_material(state: IssueState, event: IssueEvent, turn: IssueTurn)
    requires
        state.wf(),
        follows(state, event, turn),
        turn.action is Save,
    ensures
        state matches IssueState::Stamping { job, ca, cert } && material_failure(ca, cert) is None
            && job.wf(),
{
}

/// Minica is asked at the address of the settings, with their name and password, for the authority
/// and the client of the input and nothing else.
pub proof fn law_what_minica_is_asked(
    state: IssueState,
    event: IssueEvent,
    turn: IssueTurn,
    base: Seq<char>,
)
    requires
        follows(state, event, turn),
        base.len() > 0 ==> base[base.len() - 1] != '/',
    ensures
        state matches IssueState::LoadingTemplate { input, cfg } ==> (turn.action matches IssueAction::GetCa(
            request,
        ) ==> cfg.base_url@ == base ==> request@.method == Method::Get && request@.url == base + (
        "/api/cas/"@ + input.ca_id@) && request@.username == cfg.username@ && request@.password
            == cfg.password@),
        state matches IssueState::LoadingCa { job, cfg } ==> (turn.action matches IssueAction::GetCertId(
            request,
        ) ==> cfg.base_url@ == base ==> request@.method == Method::Get && request@.url == base + (
        "/api/cas/"@ + job.input.ca_id@ + "/certs_by_cn"@) && request@.cn == Some(
            job.input.client_name@,
        ) && request@.username == cfg.username@ && request@.password == cfg.password@),
        state matches IssueState::FindingCert { job, cfg, ca } ==> (event matches IssueEvent::CertId(
            Ok(found),
        ) ==> (turn.action matches IssueAction::GetCert(request) && (cfg.base_url@ == base
            ==> request@.method == Method::Get && request@.url == base + ("/api/cas/"@
            + job.input.ca_id@ + "/certs/"@ + found.id@) && request@.username == cfg.username@
            && request@.password == cfg.password@))),
        state matches IssueState::FindingCert { job, cfg, ca } ==> (event matches IssueEvent::CertId(
            Err(_),
        ) ==> (turn.action matches IssueAction::GetCsrf(request) && (cfg.base_url@ == base
            ==> request@.method == Method::Get && request@.url == base + "/api/csrf"@
            && request@.username == cfg.username@ && request@.password == cfg.password@))),
        state matches IssueState::FetchingCsrf { job, cfg, ca } ==> (turn.action matches IssueAction::CreateCert(
            request,
        ) ==> cfg.base_url@ == base ==> request@.method == Method::Put && request@.url == base + (
        "/api/cas/"@ + job.input.ca_id@ + "/certs"@) && request@.username == cfg.username@
            && request@.password == cfg.password@),
{
    let none = Seq::<char>::empty();
    law_without_trailing(base, none, '/');
    assert(base + none =~= base);
}

/// A step that brings what was waited for goes on, with the input, the template, the settings and
/// the authority as they were; one that brings a failure ends the course with its own status and
/// code and the message that was brought.
pub proof fn law_steps_of_the_course(state: IssueState, event: IssueEvent, turn: IssueTurn)
    requires
        follows(state, event, turn),
    ensures
        state matches IssueState::Configuring { input } ==> match event {
            IssueEvent::Config(Ok(cfg)) => turn.next == (IssueState::LoadingTemplate { input, cfg })
                && (turn.action matches IssueAction::LoadTemplate { id } && id@
                == input.template_id@),
            IssueEvent::Config(Err(e)) => turn.action matches IssueAction::Finish(Err(f))
                && f.status == 500 && f.code@ == "minica_config_missing"@ && f.message@ == e@,
            _ => false,
        },
        state matches IssueState::LoadingTemplate { input, cfg } ==> match event {
            IssueEvent::Loaded(Ok(template)) => turn.action is Finish || (
            turn.next matches IssueState::LoadingCa { job, cfg: c } && c == cfg && job.input
                == input && job.template == template),
            IssueEvent::Loaded(Err(e)) => turn.action matches IssueAction::Finish(Err(f))
                && f.status == 404 && f.code@ == "template_not_found"@ && f.message@ == e@,
            _ => false,
        },
        state matches IssueState::LoadingCa { job, cfg } ==> match event {
            IssueEvent::Ca(Ok(ca)) => turn.next == (IssueState::FindingCert { job, cfg, ca }),
            IssueEvent::Ca(Err(e)) => turn.action matches IssueAction::Finish(Err(f)) && f.status
                == 502 && f.code@ == "failed_to_load_ca"@ && f.message@ == e@,
            _ => false,
        },
        state matches IssueState::FetchingCsrf { job, cfg, ca } ==> match event {
            IssueEvent::Csrf(Ok(_)) => turn.next == (IssueState::CreatingCert { job, ca }),
            IssueEvent::Csrf(Err(e)) => turn.action matches IssueAction::Finish(Err(f))
                && f.status == 502 && f.code@ == "failed_to_get_client_certificate"@ && f.message@
                == e@,
            _ => false,
        },
        state matches IssueState::Saving { profile } ==> match event {
            IssueEvent::Saved(Ok(_)) => turn.action == IssueAction::Finish(Ok(profile)),
            IssueEvent::Saved(Err(e)) => turn.action matches IssueAction::Finish(Err(f))
                && f.status == 500 && f.code@ == "failed_to_save_profile"@ && f.message@ == e@,
            _ => false,
        },
{
}

/// A certificate that came is used as it came, the one that was known like the new one: where the
/// material is complete an identifier behind the slug of the name of the client is asked for.
pub proof fn law_certificates_are_used_as_they_come(
    job: IssueJob,
    ca: MinicaCa,
    cert: MinicaCert,
    turn: IssueTurn,
    known: bool,
)
    requires
        known ==> follows(
            IssueState::LoadingCert { job, ca },
            IssueEvent::Cert(Ok(cert)),
            turn,
        ),
        !known ==> follows(
            IssueState::CreatingCert { job, ca },
            IssueEvent::Cert(Ok(cert)),
            turn,
        ),
    ensures
        material_failure(ca, cert) is None ==> {
            &&& turn.next == (IssueState::Stamping { job, ca, cert })
            &&& turn.action matches IssueAction::MakeStamp { prefix } && prefix@ == slug(
                job.input.client_name@,
            )
        },
        material_failure(ca, cert) is Some ==> (turn.action matches IssueAction::Finish(Err(f))
            && Some(f@) == material_failure(ca, cert)),
{
}

/// What is known of a profile is what it was made from, field by field.
pub proof fn law_profiles_are_made_from_the_input(
    job: IssueJob,
    ca: MinicaCa,
    cert: MinicaCert,
    id: String,
    created_at: Timestamp,
    turn: IssueTurn,
)
    requires
        follows(
            IssueState::Stamping { job, ca, cert },
            IssueEvent::Stamp { id, created_at },
            turn,
        ),
    ensures
        turn.next matches IssueState::Saving { profile } && {
            &&& profile.id@ == id@
            &&& profile.metadata.client_name@ == job.input.client_name@
            &&& profile.metadata.template_id@ == job.template.id@
            &&& profile.metadata.template_name@ == job.template.metadata.name@
            &&& profile.metadata.ca_id@ == job.input.ca_id@
            &&& profile.metadata.ca_common_name@ == ca.common_name@
            &&& profile.metadata.cert_id@ == cert.id@
            &&& texts(profile.metadata.tags@) == texts(job.input.tags@)
            &&& profile.metadata.created_at == created_at
            &&& profile.metadata.variables@ == job.vars@
        },
{
    let profile = turn.next->Saving_profile;
    let v = profile.metadata@;
    assert(v.client_name == profile.metadata.client_name@);
}

} // verus!
