//! What is asked and what is given when a configuration is issued, said of the operations: of what
//! they take and what they give back.
use vstd::prelude::*;

use crate::api::{ApiFailure, ApiProfile};
use crate::clock::Timestamp;
use crate::issue::{
    check_material, collect_parameters, compose_profile, law_first_parameter_failure,
    law_parameters_that_are_accepted, parameter_failure, IssueConfigInput,
};
use crate::issue_flow::{
    issue_openvpn_config, issue_step, IssueAction, IssueEvent, IssueState, IssueTurn,
};
use crate::minica::{MinicaCa, MinicaCert, MinicaConfig};
use crate::placeholders::{body_of, inert, legible, Piece};
use crate::requests::{
    api_issue_config, generate_profile, law_form_parameters, GenerateForm, IssueConfigRequest,
};
use crate::self_contained::{law_profile_holds_the_parameters, stands_for};
use crate::string_map::StringMap;
use crate::templates::{variable_names, Template};
use crate::text::{blank, joined, texts, trimmed, white_space};
use crate::variable_laws::law_csv_holds_every_item;
use crate::variables::{default_of, value_error, VariableView};

verus! {

// ---- parameters ----

/// The accepted values are the parameters: under each variable of the template that is not filled
/// with a certificate or a key stands exactly what was given for it, or nothing where nothing was;
/// nothing else has a value.
pub proof fn law_accepted_values(
    template: &Template,
    parameters: &StringMap<String>,
    r: Result<StringMap<String>, ApiFailure>,
    i: int,
)
    requires
        call_ensures(collect_parameters, (template, parameters), r),
        r is Ok,
        0 <= i < template.variables@.len(),
    ensures
        ({
            let k = template.variables@[i]@;
            let own = k != "ca_cert"@ && k != "client_cert"@ && k != "client_key"@;
            &&& r->Ok_0@.dom().contains(k) <==> own
            &&& own && parameters@.dom().contains(k) ==> r->Ok_0@[k] == parameters@[k]
            &&& own && !parameters@.dom().contains(k) ==> r->Ok_0@[k].len() == 0
        }),
        forall|k: Seq<char>| #[trigger]
            r->Ok_0@.dom().contains(k) ==> exists|j: int|
                0 <= j < template.variables@.len() && (#[trigger] template.variables@[j])@ == k,
{
    let names = texts(template.variables@);
    assert(names[i] == template.variables@[i]@);
    assert(names.contains(names[i]));
    assert forall|k: Seq<char>| #[trigger] r->Ok_0@.dom().contains(k) implies exists|j: int|
        0 <= j < template.variables@.len() && (#[trigger] template.variables@[j])@ == k by {
        assert(names.contains(k));
        let j = choose|j: int| 0 <= j < names.len() && names[j] == k;
        assert(template.variables@[j]@ == k);
    }
}

/// What is known of the variable of the template with a name: what the metadata says, and else
/// what is assumed by the name.
pub open spec fn known_of(template: Template, k: Seq<char>) -> VariableView {
    if template.metadata.variables@.dom().contains(k) {
        template.metadata.variables@[k]
    } else {
        default_of(k)
    }
}

/// The parameter of one variable is in order: it is there and not blank where it is required, and
/// where it is there it is a value that the variable takes.
pub open spec fn in_order(template: Template, parameters: Map<Seq<char>, Seq<char>>, k: Seq<char>) -> bool {
    &&& known_of(template, k).required ==> parameters.dom().contains(k) && exists|j: int|
        0 <= j < parameters[k].len() && !white_space(#[trigger] parameters[k][j])
    &&& parameters.dom().contains(k) ==> value_error(k, known_of(template, k), parameters[k]) is None
}

/// Parameters are accepted if and only if that of each variable which is not filled with a
/// certificate or a key is in order.
pub proof fn law_when_parameters_are_accepted(
    template: &Template,
    parameters: &StringMap<String>,
    r: Result<StringMap<String>, ApiFailure>,
)
    requires
        call_ensures(collect_parameters, (template, parameters), r),
    ensures
        r is Ok <==> forall|i: int|
            0 <= i < template.variables@.len() ==> ({
                let k = (#[trigger] template.variables@[i])@;
                k == "ca_cert"@ || k == "client_cert"@ || k == "client_key"@ || in_order(
                    *template,
                    parameters@,
                    k,
                )
            }),
{
    let names = texts(template.variables@);
    let metas = template.metadata.variables@;
    law_first_parameter_failure(metas, parameters@, names);
    assert forall|k: Seq<char>| true implies (#[trigger] parameter_failure(
        metas,
        parameters@,
        k,
    ) is None <==> (k == "ca_cert"@ || k == "client_cert"@ || k == "client_key"@ || in_order(
        *template,
        parameters@,
        k,
    ))) by {
        law_parameters_that_are_accepted(metas, parameters@, k, 0);
        if parameters@.dom().contains(k) {
            if exists|j: int|
                0 <= j < parameters@[k].len() && !white_space(#[trigger] parameters@[k][j]) {
                let j = choose|j: int|
                    0 <= j < parameters@[k].len() && !white_space(#[trigger] parameters@[k][j]);
                law_parameters_that_are_accepted(metas, parameters@, k, j);
            } else {
                assert(blank(parameters@[k]));
            }
        }
    }
    assert forall|i: int| 0 <= i < names.len() implies names[i] == (
    #[trigger] template.variables@[i])@ by {}
    if r is Ok {
        assert forall|i: int| 0 <= i < template.variables@.len() implies ({
            let k = (#[trigger] template.variables@[i])@;
            k == "ca_cert"@ || k == "client_cert"@ || k == "client_key"@ || in_order(
                *template,
                parameters@,
                k,
            )
        }) by {
            assert(parameter_failure(metas, parameters@, names[i]) is None);
        }
    } else {
        let f = r->Err_0@;
        let i = choose|i: int|
            0 <= i < names.len() && parameter_failure(metas, parameters@, #[trigger] names[i])
                == Some(f);
        assert(parameter_failure(metas, parameters@, names[i]) is Some);
        assert(template.variables@[i]@ == names[i]);
    }
}

/// A parameter that is refused is answered with the status 400, and the code says whether it is
/// missing or not one that the variable takes.
pub proof fn law_how_parameters_are_refused(
    template: &Template,
    parameters: &StringMap<String>,
    r: Result<StringMap<String>, ApiFailure>,
)
    requires
        call_ensures(collect_parameters, (template, parameters), r),
        r is Err,
    ensures
        r->Err_0.status == 400,
        r->Err_0.code@ == "missing_required_parameter"@ || r->Err_0.code@ == "invalid_parameter"@,
{
    let names = texts(template.variables@);
    law_first_parameter_failure(template.metadata.variables@, parameters@, names);
    assert(r->Err_0@.status == r->Err_0.status && r->Err_0@.code == r->Err_0.code@);
}

// ---- the profile ----

/// Material is accepted if and only if each of its three parts holds something other than white
/// space.
pub proof fn law_checked_material(ca: &MinicaCa, cert: &MinicaCert, r: Result<(), ApiFailure>)
    requires
        call_ensures(check_material, (ca, cert), r),
    ensures
        r is Ok <==> {
            &&& exists|i: int| 0 <= i < ca.cert_pem@.len() && !white_space(#[trigger] ca.cert_pem@[i])
            &&& exists|i: int|
                0 <= i < cert.cert_pem@.len() && !white_space(#[trigger] cert.cert_pem@[i])
            &&& exists|i: int|
                0 <= i < cert.key_pem@.len() && !white_space(#[trigger] cert.key_pem@[i])
        },
{
}

/// A profile holds what it was made from, field by field.
pub proof fn law_composed_profile(
    input: IssueConfigInput,
    template: Template,
    vars: StringMap<String>,
    ca: MinicaCa,
    cert: MinicaCert,
    id: String,
    created_at: Timestamp,
    r: ApiProfile,
)
    requires
        call_ensures(compose_profile, (input, template, vars, ca, cert, id, created_at), r),
    ensures
        r.id@ == id@,
        r.metadata.client_name@ == input.client_name@,
        r.metadata.template_id@ == template.id@,
        r.metadata.template_name@ == template.metadata.name@,
        r.metadata.ca_id@ == input.ca_id@,
        r.metadata.ca_common_name@ == ca.common_name@,
        r.metadata.cert_id@ == cert.id@,
        texts(r.metadata.tags@) == texts(input.tags@),
        r.metadata.created_at == created_at,
        r.metadata.variables@ == vars@,
{
    let v = r.metadata@;
    assert(v.client_name == r.metadata.client_name@);
}

/// The text of a profile of a legible template is the text of the template with the parameter of
/// each placeholder itself, or the certificate or key, in its place.
pub proof fn law_text_of_a_profile(
    pieces: Seq<Piece>,
    done: Seq<Piece>,
    input: IssueConfigInput,
    template: Template,
    vars: StringMap<String>,
    ca: MinicaCa,
    cert: MinicaCert,
    id: String,
    created_at: Timestamp,
    r: ApiProfile,
)
    requires
        call_ensures(collect_parameters, (&template, &input.parameters), Ok(vars)),
        call_ensures(compose_profile, (input, template, vars, ca, cert, id, created_at), r),
        legible(pieces, template.metadata.token_start@, template.metadata.token_stop@),
        template.body@ == body_of(
            pieces,
            template.metadata.token_start@,
            template.metadata.token_stop@,
        ),
        texts(template.variables@) == variable_names(
            template.body@,
            template.metadata.token_start@,
            template.metadata.token_stop@,
        ),
        forall|k: Seq<char>| #[trigger]
            input.parameters@.dom().contains(k) && texts(template.variables@).contains(k) ==> inert(
                input.parameters@[k],
                template.metadata.token_start@,
            ),
        inert(trimmed(ca.cert_pem@), template.metadata.token_start@),
        inert(trimmed(cert.cert_pem@), template.metadata.token_start@),
        inert(trimmed(cert.key_pem@), template.metadata.token_start@),
        done.len() == pieces.len(),
        forall|i: int|
            0 <= i < pieces.len() ==> stands_for(
                #[trigger] done[i],
                pieces[i],
                input.parameters@,
                ca,
                cert,
            ),
    ensures
        r.profile@ == body_of(
            done,
            template.metadata.token_start@,
            template.metadata.token_stop@,
        ),
{
    law_profile_holds_the_parameters(pieces, done, template@, input.parameters@, ca, cert);
}

// ---- the course ----

/// The course begins with the settings, and with the whole input.
pub proof fn law_course_begins(input: IssueConfigInput, turn: IssueTurn)
    requires
        call_ensures(issue_openvpn_config, (input,), turn),
    ensures
        turn.next == (IssueState::Configuring { input }),
        turn.action is ReadConfig,
{
}

/// A profile that was written is the answer, and one that could not be written is not.
pub proof fn law_course_answers_with_the_profile(
    profile: ApiProfile,
    saved: Result<(), String>,
    turn: IssueTurn,
)
    requires
        call_ensures(
            issue_step,
            (IssueState::Saving { profile }, IssueEvent::Saved(saved)),
            turn,
        ),
    ensures
        saved is Ok ==> turn.action == IssueAction::Finish(Ok(profile)),
        saved is Err ==> (turn.action matches IssueAction::Finish(Err(f)) && f.status == 500
            && f.code@ == "failed_to_save_profile"@ && f.message@ == saved->Err_0@),
{
}

// ---- requests ----

/// A form asks for its own template, authority and client, with the values under `var_` and a name
/// as the parameter of the name.
pub proof fn law_form_asks(form: GenerateForm, r: IssueConfigInput, k: Seq<char>)
    requires
        call_ensures(generate_profile, (form,), r),
    ensures
        r.template_id@ == form.template_id@,
        r.ca_id@ == form.ca_id@,
        r.client_name@ == form.client_name@,
        r.parameters@.dom().contains(k) <==> form.values@.dom().contains(
            seq!['v', 'a', 'r', '_'] + k,
        ),
        r.parameters@.dom().contains(k) ==> r.parameters@[k] == form.values@[seq![
            'v',
            'a',
            'r',
            '_',
        ] + k],
{
    law_form_parameters(form.values@, k);
}

/// The tags of a form are the texts between its commas, each trimmed, without those of which
/// nothing is left.
pub proof fn law_form_tags(form: GenerateForm, r: IssueConfigInput, parts: Seq<Seq<char>>)
    requires
        call_ensures(generate_profile, (form,), r),
        parts.len() > 0,
        forall|i: int| 0 <= i < parts.len() ==> !(#[trigger] parts[i]).contains(','),
        form.tags@ == joined(parts, seq![',']),
    ensures
        texts(r.tags@) == parts.map_values(|p: Seq<char>| trimmed(p)).filter(
            |p: Seq<char>| p.len() > 0,
        ),
{
    law_csv_holds_every_item(parts);
}

/// A request asks for its own template and client, with its own tags and parameters, unchanged;
/// its authority is the one that it names, and else the default one.
pub proof fn law_request_asks(
    request: IssueConfigRequest,
    config: Result<MinicaConfig, String>,
    r: Result<IssueConfigInput, ApiFailure>,
)
    requires
        call_ensures(api_issue_config, (Ok(request), config), r),
    ensures
        r matches Ok(input) ==> input.template_id == request.template_id && input.client_name
            == request.client_name && input.tags == request.tags && input.parameters
            == request.parameters,
        request.ca_id matches Some(id) && !blank(id@) ==> (r matches Ok(input) && input.ca_id@
            == trimmed(request.ca_id->0@)),
        (request.ca_id matches Some(id) ==> blank(id@)) && config is Ok && !blank(
            config->Ok_0.default_ca_id@,
        ) ==> (r matches Ok(input) && input.ca_id@ == config->Ok_0.default_ca_id@),
        (request.ca_id matches Some(id) ==> blank(id@)) && config is Ok && blank(
            config->Ok_0.default_ca_id@,
        ) ==> (r matches Err(f) && f.status == 400 && f.code@ == "default_ca_missing"@),
        (request.ca_id matches Some(id) ==> blank(id@)) && config is Err ==> (r matches Err(f)
            && f.status == 500 && f.code@ == "minica_config_missing"@ && f.message@
            == config->Err_0@),
{
    if let Err(f) = r {
        assert(f@.status == f.status && f@.code == f.code@ && f@.message == f.message@);
    }
}

} // verus!
