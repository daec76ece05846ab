//! What the whole course of issuing a configuration comes to.
use vstd::prelude::*;

use crate::api::{
    failure, ApiFailure, ApiProfile, ApiProfileView, FailureView, ProfileMetadataView,
};
use crate::clock::Timestamp;
use crate::issue::{
    first_parameter_failure, given_values, material_failure, profile_text, IssueConfigInput,
};
use crate::issue_flow::{follows, IssueAction, IssueEvent, IssueState, IssueTurn};
use crate::minica::{CertIdResponse, MinicaCa, MinicaCert, MinicaConfig};
use crate::templates::{reserved, Template};
use crate::text::texts;

verus! {

/// What each action brings in one course.
pub struct Surroundings {
    pub config: Result<MinicaConfig, String>,
    pub template: Result<Template, String>,
    pub ca: Result<MinicaCa, String>,
    pub cert_id: Result<CertIdResponse, String>,
    pub known_cert: Result<MinicaCert, String>,
    pub csrf: Result<String, String>,
    pub new_cert: Result<MinicaCert, String>,
    pub id: String,
    pub created_at: Timestamp,
    pub saved: Result<(), String>,
}

/// What an action brings.
pub open spec fn brought(s: Surroundings, action: IssueAction) -> IssueEvent {
    match action {
        IssueAction::ReadConfig => IssueEvent::Config(s.config),
        IssueAction::LoadTemplate { .. } => IssueEvent::Loaded(s.template),
        IssueAction::GetCa(_) => IssueEvent::Ca(s.ca),
        IssueAction::GetCertId(_) => IssueEvent::CertId(s.cert_id),
        IssueAction::GetCert(_) => IssueEvent::Cert(s.known_cert),
        IssueAction::GetCsrf(_) => IssueEvent::Csrf(s.csrf),
        IssueAction::CreateCert(_) => IssueEvent::Cert(s.new_cert),
        IssueAction::MakeStamp { .. } => IssueEvent::Stamp { id: s.id, created_at: s.created_at },
        IssueAction::Save => IssueEvent::Saved(s.saved),
        IssueAction::Finish(_) => IssueEvent::Saved(s.saved),
    }
}

/// The turns of a course from its beginning to its answer.
pub open spec fn course(turns: Seq<IssueTurn>, input: IssueConfigInput, s: Surroundings) -> bool {
    &&& turns.len() > 0
    &&& turns[0].next == (IssueState::Configuring { input })
    &&& turns[0].action is ReadConfig
    &&& turns.last().action is Finish
    &&& forall|i: int|
        0 <= i < turns.len() - 1 ==> {
            &&& !((#[trigger] turns[i]).action is Finish)
            &&& turns[i].next.wf()
            &&& follows(turns[i].next, brought(s, turns[i].action), turns[i + 1])
        }
}

/// The certificate of the client: the one that Minica knows by the name of the client, or a new
/// one; a new one needs the token.
pub open spec fn certificate(s: Surroundings) -> Result<MinicaCert, String> {
    match s.cert_id {
        Ok(_) => s.known_cert,
        Err(_) => match s.csrf {
            Ok(_) => s.new_cert,
            Err(e) => Err(e),
        },
    }
}

/// The profile that is issued, or why none is: the settings, the template, the parameters, the
/// certificate authority, the certificate and the material are needed in this order, and the
/// profile has to be written.
pub open spec fn issued(input: IssueConfigInput, s: Surroundings) -> Result<
    ApiProfileView,
    FailureView,
> {
    if let Err(e) = s.config {
        Err(failure(500, "minica_config_missing"@, e@))
    } else if let Err(e) = s.template {
        Err(failure(404, "template_not_found"@, e@))
    } else {
        let template = s.template->Ok_0;
        let names = texts(template.variables@);
        let vars = given_values(input.parameters@, names);
        if let Some(f) = first_parameter_failure(
            template.metadata.variables@,
            input.parameters@,
            names,
        ) {
            Err(f)
        } else if let Err(e) = s.ca {
            Err(failure(502, "failed_to_load_ca"@, e@))
        } else if let Err(e) = certificate(s) {
            Err(failure(502, "failed_to_get_client_certificate"@, e@))
        } else {
            let ca = s.ca->Ok_0;
            let cert = certificate(s)->Ok_0;
            if let Some(f) = material_failure(ca, cert) {
                Err(f)
            } else if let Err(e) = s.saved {
                Err(failure(500, "failed_to_save_profile"@, e@))
            } else {
                Ok(
                    ApiProfileView {
                        id: s.id@,
                        metadata: ProfileMetadataView {
                            client_name: input.client_name@,
                            template_id: template.id@,
                            template_name: template.metadata.name@,
                            ca_id: input.ca_id@,
                            ca_common_name: ca.common_name@,
                            cert_id: cert.id@,
                            tags: texts(input.tags@),
                            created_at: s.created_at,
                            variables: vars,
                        },
                        profile: profile_text(template@, vars, ca, cert),
                    },
                )
            }
        }
    }
}

/// An answer, as texts and maps.
pub open spec fn answered(r: Result<ApiProfile, ApiFailure>) -> Result<
    ApiProfileView,
    FailureView,
> {
    match r {
        Ok(profile) => Ok(profile@),
        Err(f) => Err(f@),
    }
}

/// Every course answers with the profile that is issued, or with why none is.
pub proof fn law_course_answers(
    turns: Seq<IssueTurn>,
    input: IssueConfigInput,
    s: Surroundings,
)
    requires
        course(turns, input, s),
    ensures
        turns.last().action matches IssueAction::Finish(r) && answered(r) == issued(input, s),
{
    let t0 = turns[0];
    assert(turns.len() > 1);
    let t1 = turns[1];
    assert(follows(t0.next, brought(s, t0.action), t1));
    if s.config is Ok {
        lemma_not_last(turns, input, s, 1);
        let t2 = turns[2];
        if s.template is Ok && !(t2.action is Finish) {
            lemma_not_last(turns, input, s, 2);
            let t3 = turns[3];
            if s.ca is Ok {
                lemma_not_last(turns, input, s, 3);
                let t4 = turns[4];
                lemma_not_last(turns, input, s, 4);
                let t5 = turns[5];
                if s.cert_id is Ok {
                    if s.known_cert is Ok && !(t5.action is Finish) {
                        lemma_end(turns, input, s, 5);
                    } else {
                        lemma_last(turns, input, s, 5);
                    }
                } else if s.csrf is Ok {
                    lemma_not_last(turns, input, s, 5);
                    let t6 = turns[6];
                    if s.new_cert is Ok && !(t6.action is Finish) {
                        lemma_end(turns, input, s, 6);
                    } else {
                        lemma_last(turns, input, s, 6);
                    }
                } else {
                    lemma_last(turns, input, s, 5);
                }
            } else {
                lemma_last(turns, input, s, 3);
            }
        } else {
            lemma_last(turns, input, s, 2);
        }
    } else {
        lemma_last(turns, input, s, 1);
    }
}

/// A turn that does not answer is followed by another.
proof fn lemma_not_last(turns: Seq<IssueTurn>, input: IssueConfigInput, s: Surroundings, i: int)
    requires
        course(turns, input, s),
        0 <= i < turns.len(),
        !(turns[i].action is Finish),
    ensures
        i + 1 < turns.len(),
        turns[i].next.wf(),
        follows(turns[i].next, brought(s, turns[i].action), turns[i + 1]),
{
    if i == turns.len() - 1 {
        assert(turns.last() == turns[i]);
    }
}

/// A turn that answers is the last.
proof fn lemma_last(turns: Seq<IssueTurn>, input: IssueConfigInput, s: Surroundings, i: int)
    requires
        course(turns, input, s),
        0 <= i < turns.len(),
        turns[i].action is Finish,
    ensures
        turns.last() == turns[i],
{
    if i < turns.len() - 1 {
        assert(!(turns[i].action is Finish));
    }
}

/// From the identifier on a course has two more turns.
proof fn lemma_end(turns: Seq<IssueTurn>, input: IssueConfigInput, s: Surroundings, i: int)
    requires
        course(turns, input, s),
        0 <= i < turns.len(),
        turns[i].next is Stamping,
        turns[i].action is MakeStamp,
    ensures
        i + 2 < turns.len(),
        turns[i].next.wf(),
        follows(turns[i].next, brought(s, turns[i].action), turns[i + 1]),
        turns[i + 1].next is Saving,
        turns.last() == turns[i + 2],
        follows(turns[i + 1].next, IssueEvent::Saved(s.saved), turns[i + 2]),
{
    lemma_not_last(turns, input, s, i);
    lemma_not_last(turns, input, s, i + 1);
    lemma_last(turns, input, s, i + 2);
}

/// A configuration is issued if and only if everything that is needed is there: the settings, the
/// template, parameters that are accepted, the authority, the certificate that is known or else a
/// token and a new one, complete material, and that the profile could be written.
pub proof fn law_when_a_configuration_is_issued(input: IssueConfigInput, s: Surroundings)
    ensures
        issued(input, s) is Ok <==> {
            &&& s.config is Ok
            &&& s.template is Ok
            &&& first_parameter_failure(
                s.template->Ok_0.metadata.variables@,
                input.parameters@,
                texts(s.template->Ok_0.variables@),
            ) is None
            &&& s.ca is Ok
            &&& s.cert_id is Ok ==> s.known_cert is Ok && material_failure(
                s.ca->Ok_0,
                s.known_cert->Ok_0,
            ) is None
            &&& s.cert_id is Err ==> s.csrf is Ok && s.new_cert is Ok && material_failure(
                s.ca->Ok_0,
                s.new_cert->Ok_0,
            ) is None
            &&& s.saved is Ok
        },
{
}

/// The profile that is issued holds the input, the template, the authority and the certificate,
/// field by field, and under each of its variables the parameter that was given.
pub proof fn law_what_is_issued(
    input: IssueConfigInput,
    s: Surroundings,
    cert: MinicaCert,
    k: Seq<char>,
)
    requires
        issued(input, s) is Ok,
        s.cert_id is Ok ==> s.known_cert == Ok::<MinicaCert, String>(cert),
        s.cert_id is Err ==> s.new_cert == Ok::<MinicaCert, String>(cert),
    ensures
        issued(input, s)->Ok_0.id == s.id@,
        issued(input, s)->Ok_0.metadata.client_name == input.client_name@,
        issued(input, s)->Ok_0.metadata.template_id == s.template->Ok_0.id@,
        issued(input, s)->Ok_0.metadata.template_name == s.template->Ok_0.metadata.name@,
        issued(input, s)->Ok_0.metadata.ca_id == input.ca_id@,
        issued(input, s)->Ok_0.metadata.ca_common_name == s.ca->Ok_0.common_name@,
        issued(input, s)->Ok_0.metadata.cert_id == cert.id@,
        issued(input, s)->Ok_0.metadata.tags == texts(input.tags@),
        issued(input, s)->Ok_0.metadata.created_at == s.created_at,
        texts(s.template->Ok_0.variables@).contains(k) && !reserved(k)
            && input.parameters@.dom().contains(k) ==> {
            &&& issued(input, s)->Ok_0.metadata.variables.dom().contains(k)
            &&& issued(input, s)->Ok_0.metadata.variables[k] == input.parameters@[k]
        },
        issued(input, s)->Ok_0.profile == profile_text(
            s.template->Ok_0@,
            issued(input, s)->Ok_0.metadata.variables,
            s.ca->Ok_0,
            cert,
        ),
{
}

/// Why nothing is issued: what is missing first decides on the status and the code, and the
/// message is the one that came with it.
pub proof fn law_why_nothing_is_issued(input: IssueConfigInput, s: Surroundings)
    ensures
        s.config is Err ==> (issued(input, s) matches Err(f) && f.status == 500 && f.code
            == "minica_config_missing"@ && f.message == s.config->Err_0@),
        s.config is Ok && s.template is Err ==> (issued(input, s) matches Err(f) && f.status == 404
            && f.code == "template_not_found"@ && f.message == s.template->Err_0@),
        s.config is Ok && s.template is Ok && first_parameter_failure(
            s.template->Ok_0.metadata.variables@,
            input.parameters@,
            texts(s.template->Ok_0.variables@),
        ) is Some ==> (issued(input, s) matches Err(f) && Some(f) == first_parameter_failure(
            s.template->Ok_0.metadata.variables@,
            input.parameters@,
            texts(s.template->Ok_0.variables@),
        )),
        s.config is Ok && s.template is Ok && first_parameter_failure(
            s.template->Ok_0.metadata.variables@,
            input.parameters@,
            texts(s.template->Ok_0.variables@),
        ) is None && s.ca is Err ==> (issued(input, s) matches Err(f) && f.status == 502 && f.code
            == "failed_to_load_ca"@ && f.message == s.ca->Err_0@),
        s.config is Ok && s.template is Ok && first_parameter_failure(
            s.template->Ok_0.metadata.variables@,
            input.parameters@,
            texts(s.template->Ok_0.variables@),
        ) is None && s.ca is Ok && s.cert_id is Ok && s.known_cert is Err ==> (issued(
            input,
            s,
        ) matches Err(f) && f.status == 502 && f.code == "failed_to_get_client_certificate"@
            && f.message == s.known_cert->Err_0@),
        s.config is Ok && s.template is Ok && first_parameter_failure(
            s.template->Ok_0.metadata.variables@,
            input.parameters@,
            texts(s.template->Ok_0.variables@),
        ) is None && s.ca is Ok && s.cert_id is Err && s.csrf is Err ==> (issued(
            input,
            s,
        ) matches Err(f) && f.status == 502 && f.code == "failed_to_get_client_certificate"@
            && f.message == s.csrf->Err_0@),
{
}

} // verus!
