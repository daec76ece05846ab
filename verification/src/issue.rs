//! Issuing an OpenVPN configuration: what is decided between the steps that reach the disk and
//! the certificate authority.
use vstd::prelude::*;

use crate::api::{failure, ApiFailure, ApiProfile, FailureView, ProfileMetadata, ProfileMetadataView};
use crate::clock::Timestamp;
use crate::minica::{MinicaCa, MinicaCert};
use crate::rendering::{render_template, rendered};
use crate::string_map::{has_key, index_of_key, ordered, StringMap};
use crate::templates::{
    is_reserved, reserved, variable_metadata, variable_or_default, Template, TemplateView,
};
use crate::text::{blank, is_blank, texts, trim, trimmed, white_space};
use crate::variables::{validate_variable_value, value_error, VariableView};

verus! {

/// What a configuration is to be issued from.
#[derive(Debug, PartialEq, Eq)]
pub struct IssueConfigInput {
    pub template_id: String,
    pub ca_id: String,
    pub client_name: String,
    pub tags: Vec<String>,
    pub parameters: StringMap<String>,
}

// ---- parameters ----

/// The value given for a name; empty where none is given.
pub open spec fn given_value(parameters: Map<Seq<char>, Seq<char>>, name: Seq<char>) -> Seq<char> {
    if parameters.dom().contains(name) {
        parameters[name]
    } else {
        Seq::empty()
    }
}

/// Why the value given for the variable `name` is refused, if it is.
pub open spec fn parameter_failure(
    variables: Map<Seq<char>, VariableView>,
    parameters: Map<Seq<char>, Seq<char>>,
    name: Seq<char>,
) -> Option<FailureView> {
    let meta = variable_or_default(variables, name);
    let value = given_value(parameters, name);
    if reserved(name) {
        None
    } else if meta.required && blank(value) {
        Some(failure(400, "missing_required_parameter"@, name + " is required"@))
    } else {
        match value_error(name, meta, value) {
            Some(e) => Some(failure(400, "invalid_parameter"@, e)),
            None => None,
        }
    }
}

/// Why the first of the names whose value is refused is refused.
pub open spec fn first_parameter_failure(
    variables: Map<Seq<char>, VariableView>,
    parameters: Map<Seq<char>, Seq<char>>,
    names: Seq<Seq<char>>,
) -> Option<FailureView>
    decreases names.len(),
{
    if names.len() == 0 {
        None
    } else {
        match parameter_failure(variables, parameters, names[0]) {
            Some(f) => Some(f),
            None => first_parameter_failure(variables, parameters, names.skip(1)),
        }
    }
}

/// The values of the names that are not reserved.
pub open spec fn given_values(
    parameters: Map<Seq<char>, Seq<char>>,
    names: Seq<Seq<char>>,
) -> Map<Seq<char>, Seq<char>> {
    Map::new(
        |k: Seq<char>| names.contains(k) && !reserved(k),
        |k: Seq<char>| given_value(parameters, k),
    )
}

/// The values of the variables of the template, or why the first that is refused is refused.
pub fn collect_parameters(template: &Template, parameters: &StringMap<String>) -> (r: Result<
    StringMap<String>,
    ApiFailure,
>)
    requires
        template.wf(),
        parameters.wf(),
    ensures
        match r {
            Ok(vars) => vars.wf() && vars@ == given_values(parameters@, texts(template.variables@))
                && first_parameter_failure(
                template.metadata.variables@,
                parameters@,
                texts(template.variables@),
            ) is None && (forall|k: Seq<char>| #[trigger]
                vars@.dom().contains(k) <==> texts(template.variables@).contains(k) && !reserved(k))
                && (forall|k: Seq<char>|
                vars@.dom().contains(k) ==> #[trigger] vars@[k] == (
                if parameters@.dom().contains(k) {
                    parameters@[k]
                } else {
                    Seq::empty()
                })),
            Err(f) => first_parameter_failure(
                template.metadata.variables@,
                parameters@,
                texts(template.variables@),
            ) == Some(f@),
        },
{
    let ghost all = texts(template.variables@);
    let ghost metas = template.metadata.variables@;
    let mut vars: StringMap<String> = StringMap::new();
    proof {
        assert(all.skip(0) =~= all);
        assert(vars@ =~= given_values(parameters@, all.take(0)));
    }
    for i in 0..template.variables.len()
        invariant
            all == texts(template.variables@),
            metas == template.metadata.variables@,
            template.wf(),
            parameters.wf(),
            vars.wf(),
            vars@ == given_values(parameters@, all.take(i as int)),
            first_parameter_failure(metas, parameters@, all.skip(i as int))
                == first_parameter_failure(metas, parameters@, all),
    {
        let ghost k = all[i as int];
        let ghost seen = all.take(i as int);
        let ghost now = all.take(i + 1);
        proof {
            assert(all.skip(i as int).skip(1) =~= all.skip(i + 1));
            assert(now =~= seen.push(k));
            assert forall|x: Seq<char>| #[trigger] now.contains(x) == (seen.contains(x) || x == k) by {
                if seen.contains(x) {
                    let j = choose|j: int| 0 <= j < seen.len() && seen[j] == x;
                    assert(now[j] == x);
                }
                if x == k {
                    assert(now[i as int] == x);
                }
            }
        }
        let var = template.variables[i].as_str();
        if !is_reserved(var) {
            let value = match parameters.get(var) {
                Some(value) => value.clone(),
                None => String::new(),
            };
            let meta = variable_metadata(&template.metadata.variables, var);
            proof {
                assert(value@ =~= given_value(parameters@, k));
            }
            if meta.required && is_blank(value.as_str()) {
                let mut message = var.to_string();
                message.append(" is required");
                return Err(
                    ApiFailure { status: 400, code: "missing_required_parameter", message },
                );
            }
            match validate_variable_value(var, &meta, value.as_str()) {
                Ok(_) => {},
                Err(message) => {
                    return Err(ApiFailure { status: 400, code: "invalid_parameter", message });
                },
            }
            vars.insert(template.variables[i].clone(), value);
        }
        proof {
            assert(vars@ =~= given_values(parameters@, now));
        }
    }
    proof {
        assert(all.take(all.len() as int) =~= all);
    }
    Ok(vars)
}

/// Where no parameter is refused, each variable that is required has a value that is not blank,
/// and no value is one that its variable does not take.
pub proof fn law_accepted_parameters(
    variables: Map<Seq<char>, VariableView>,
    parameters: Map<Seq<char>, Seq<char>>,
    names: Seq<Seq<char>>,
)
    requires
        first_parameter_failure(variables, parameters, names) is None,
    ensures
        forall|k: Seq<char>| #[trigger]
            names.contains(k) && !reserved(k) ==> {
                &&& variable_or_default(variables, k).required ==> !blank(
                    given_value(parameters, k),
                )
                &&& value_error(
                    k,
                    variable_or_default(variables, k),
                    given_value(parameters, k),
                ) is None
            },
    decreases names.len(),
{
    if names.len() > 0 {
        law_accepted_parameters(variables, parameters, names.skip(1));
        assert forall|k: Seq<char>| #[trigger] names.contains(k) && !reserved(k) implies {
            &&& variable_or_default(variables, k).required ==> !blank(given_value(parameters, k))
            &&& value_error(
                k,
                variable_or_default(variables, k),
                given_value(parameters, k),
            ) is None
        } by {
            let i = choose|i: int| 0 <= i < names.len() && names[i] == k;
            if i > 0 {
                assert(names.skip(1)[i - 1] == k);
                assert(names.skip(1).contains(k));
            }
        }
    }
}

/// The accepted values are those of the parameters: under each variable that is not filled with a
/// certificate or a key stands exactly the text that was given for it, and nothing where none was
/// given; no other name has a value.
pub proof fn law_given_values_are_the_parameters(
    parameters: Map<Seq<char>, Seq<char>>,
    names: Seq<Seq<char>>,
    k: Seq<char>,
)
    ensures
        given_values(parameters, names).dom().contains(k) <==> {
            &&& exists|i: int| 0 <= i < names.len() && #[trigger] names[i] == k
            &&& k != "ca_cert"@ && k != "client_cert"@ && k != "client_key"@
        },
        given_values(parameters, names).dom().contains(k) && parameters.dom().contains(k)
            ==> given_values(parameters, names)[k] == parameters[k],
        given_values(parameters, names).dom().contains(k) && !parameters.dom().contains(k)
            ==> given_values(parameters, names)[k].len() == 0,
{
}

/// A parameter is accepted if and only if its name is filled with a certificate or a key, or its
/// value is one that the variable takes and is there, not blank, where it is required.
pub proof fn law_parameters_that_are_accepted(
    variables: Map<Seq<char>, VariableView>,
    parameters: Map<Seq<char>, Seq<char>>,
    k: Seq<char>,
    i: int,
)
    ensures
        k == "ca_cert"@ || k == "client_cert"@ || k == "client_key"@ ==> parameter_failure(
            variables,
            parameters,
            k,
        ) is None,
        !reserved(k) && parameters.dom().contains(k) && 0 <= i < parameters[k].len()
            && !white_space(parameters[k][i]) ==> (parameter_failure(
            variables,
            parameters,
            k,
        ) is None <==> value_error(k, variable_or_default(variables, k), parameters[k]) is None),
        !reserved(k) && parameters.dom().contains(k) && !(exists|j: int|
            0 <= j < parameters[k].len() && !white_space(#[trigger] parameters[k][j])) ==> (
        parameter_failure(variables, parameters, k) is None <==> !variable_or_default(
            variables,
            k,
        ).required),
        !reserved(k) && !parameters.dom().contains(k) ==> (parameter_failure(
            variables,
            parameters,
            k,
        ) is None <==> !variable_or_default(variables, k).required),
{
    if parameters.dom().contains(k) && 0 <= i < parameters[k].len() && !white_space(
        parameters[k][i],
    ) {
        assert(!blank(parameters[k]));
    }
}

/// What is said of a parameter that is refused.
pub proof fn law_what_is_said_of_parameters(
    variables: Map<Seq<char>, VariableView>,
    parameters: Map<Seq<char>, Seq<char>>,
    k: Seq<char>,
)
    requires
        parameter_failure(variables, parameters, k) is Some,
    ensures
        parameter_failure(variables, parameters, k)->0.status == 400,
        !parameters.dom().contains(k) || blank(parameters[k]) ==> {
            &&& parameter_failure(variables, parameters, k)->0.code
                == "missing_required_parameter"@
            &&& parameter_failure(variables, parameters, k)->0.message == k + " is required"@
        },
        parameters.dom().contains(k) && !blank(parameters[k]) ==> {
            &&& parameter_failure(variables, parameters, k)->0.code == "invalid_parameter"@
            &&& Some(parameter_failure(variables, parameters, k)->0.message) == value_error(
                k,
                variable_or_default(variables, k),
                parameters[k],
            )
        },
{
}

/// The parameters are accepted if and only if each of them is; else the answer is that of the
/// first that is refused.
pub proof fn law_first_parameter_failure(
    variables: Map<Seq<char>, VariableView>,
    parameters: Map<Seq<char>, Seq<char>>,
    names: Seq<Seq<char>>,
)
    ensures
        first_parameter_failure(variables, parameters, names) is None <==> forall|i: int|
            0 <= i < names.len() ==> parameter_failure(
                variables,
                parameters,
                #[trigger] names[i],
            ) is None,
        first_parameter_failure(variables, parameters, names) matches Some(f) ==> exists|i: int|
            {
                &&& 0 <= i < names.len()
                &&& parameter_failure(variables, parameters, #[trigger] names[i]) == Some(f)
                &&& forall|j: int|
                    0 <= j < i ==> parameter_failure(
                        variables,
                        parameters,
                        #[trigger] names[j],
                    ) is None
            },
    decreases names.len(),
{
    if names.len() > 0 {
        let rest = names.skip(1);
        law_first_parameter_failure(variables, parameters, rest);
        assert(forall|i: int| 0 < i < names.len() ==> #[trigger] names[i] == rest[i - 1]);
        if parameter_failure(variables, parameters, names[0]) is None {
            if first_parameter_failure(variables, parameters, rest) is Some {
                let f = first_parameter_failure(variables, parameters, rest)->0;
                let i = choose|i: int|
                    {
                        &&& 0 <= i < rest.len()
                        &&& parameter_failure(variables, parameters, #[trigger] rest[i]) == Some(f)
                        &&& forall|j: int|
                            0 <= j < i ==> parameter_failure(
                                variables,
                                parameters,
                                #[trigger] rest[j],
                            ) is None
                    };
                assert(names[i + 1] == rest[i]);
                assert forall|j: int| 0 <= j < i + 1 implies parameter_failure(
                    variables,
                    parameters,
                    #[trigger] names[j],
                ) is None by {
                    if j > 0 {
                        assert(names[j] == rest[j - 1]);
                    }
                }
            } else {
                assert forall|i: int| 0 <= i < names.len() implies parameter_failure(
                    variables,
                    parameters,
                    #[trigger] names[i],
                ) is None by {
                    if i > 0 {
                        assert(names[i] == rest[i - 1]);
                    }
                }
            }
        } else {
            assert(parameter_failure(variables, parameters, names[0]) == first_parameter_failure(
                variables,
                parameters,
                names,
            ));
        }
    }
}

// ---- the profile ----

/// Why the material from the certificate authority is refused, if it is.
pub open spec fn material_failure(ca: MinicaCa, cert: MinicaCert) -> Option<FailureView> {
    if blank(ca.cert_pem@) {
        Some(failure(502, "missing_ca_cert"@, "Minica CA response did not include cert_pem"@))
    } else if blank(cert.cert_pem@) || blank(cert.key_pem@) {
        Some(
            failure(
                502,
                "missing_client_material"@,
                "Minica certificate response did not include cert_pem and key_pem"@,
            ),
        )
    } else {
        None
    }
}

/// Whether the certificate authority gave its certificate, and the client certificate and key.
pub fn check_material(ca: &MinicaCa, cert: &MinicaCert) -> (r: Result<(), ApiFailure>)
    ensures
        match r {
            Ok(_) => material_failure(*ca, *cert) is None,
            Err(f) => material_failure(*ca, *cert) == Some(f@),
        },
{
    if is_blank(ca.cert_pem.as_str()) {
        return Err(
            ApiFailure {
                status: 502,
                code: "missing_ca_cert",
                message: "Minica CA response did not include cert_pem".to_string(),
            },
        );
    }
    if is_blank(cert.cert_pem.as_str()) || is_blank(cert.key_pem.as_str()) {
        return Err(
            ApiFailure {
                status: 502,
                code: "missing_client_material",
                message: "Minica certificate response did not include cert_pem and key_pem".to_string(),
            },
        );
    }
    Ok(())
}

/// The values of all placeholders: those given, and the material in place of the reserved names.
pub open spec fn replacements(
    vars: Map<Seq<char>, Seq<char>>,
    ca: MinicaCa,
    cert: MinicaCert,
) -> Map<Seq<char>, Seq<char>> {
    vars.insert("ca_cert"@, trimmed(ca.cert_pem@)).insert(
        "client_cert"@,
        trimmed(cert.cert_pem@),
    ).insert("client_key"@, trimmed(cert.key_pem@))
}

/// The material is accepted if and only if the certificate of the authority, the certificate of
/// the client and its key each hold something other than white space.
pub proof fn law_material_that_is_accepted(ca: MinicaCa, cert: MinicaCert)
    ensures
        material_failure(ca, cert) is None <==> {
            &&& exists|i: int| 0 <= i < ca.cert_pem@.len() && !white_space(#[trigger] ca.cert_pem@[i])
            &&& exists|i: int|
                0 <= i < cert.cert_pem@.len() && !white_space(#[trigger] cert.cert_pem@[i])
            &&& exists|i: int|
                0 <= i < cert.key_pem@.len() && !white_space(#[trigger] cert.key_pem@[i])
        },
        material_failure(ca, cert) is Some ==> material_failure(ca, cert)->0.status == 502,
        blank(ca.cert_pem@) ==> material_failure(ca, cert)->0.code == "missing_ca_cert"@,
        material_failure(ca, cert) is Some && !blank(ca.cert_pem@) ==> material_failure(
            ca,
            cert,
        )->0.code == "missing_client_material"@,
{
}

/// The three names of the material stand for the certificates and the key, trimmed; every other
/// name keeps its value.
pub proof fn law_replacements(
    vars: Map<Seq<char>, Seq<char>>,
    ca: MinicaCa,
    cert: MinicaCert,
    k: Seq<char>,
)
    ensures
        replacements(vars, ca, cert)["ca_cert"@] == trimmed(ca.cert_pem@),
        replacements(vars, ca, cert)["client_cert"@] == trimmed(cert.cert_pem@),
        replacements(vars, ca, cert)["client_key"@] == trimmed(cert.key_pem@),
        replacements(vars, ca, cert).dom().contains(k) <==> (vars.dom().contains(k) || k
            == "ca_cert"@ || k == "client_cert"@ || k == "client_key"@),
        k != "ca_cert"@ && k != "client_cert"@ && k != "client_key"@ && vars.dom().contains(k)
            ==> replacements(vars, ca, cert)[k] == vars[k],
{
    reveal_strlit("ca_cert");
    reveal_strlit("client_cert");
    reveal_strlit("client_key");
    assert("ca_cert"@.len() == 7 && "client_cert"@.len() == 11 && "client_key"@.len() == 10);
}

/// The text of a profile.
pub open spec fn profile_text(
    template: TemplateView,
    vars: Map<Seq<char>, Seq<char>>,
    ca: MinicaCa,
    cert: MinicaCert,
) -> Seq<char> {
    rendered(
        template.body,
        template.metadata.token_start,
        template.metadata.token_stop,
        ordered(replacements(vars, ca, cert)),
    )
}

/// The profile: the text of the template with all placeholders filled, under `id`, and what it
/// was made from.
pub fn compose_profile(
    input: IssueConfigInput,
    template: Template,
    vars: StringMap<String>,
    ca: MinicaCa,
    cert: MinicaCert,
    id: String,
    created_at: Timestamp,
) -> (r: ApiProfile)
    requires
        vars.wf(),
    ensures
        r.id == id,
        r.metadata.variables.wf(),
        r.profile@ == profile_text(template@, vars@, ca, cert),
        r.metadata@ == (ProfileMetadataView {
            client_name: input.client_name@,
            template_id: template.id@,
            template_name: template.metadata.name@,
            ca_id: input.ca_id@,
            ca_common_name: ca.common_name@,
            cert_id: cert.id@,
            tags: texts(input.tags@),
            created_at,
            variables: vars@,
        }),
{
    let mut all = duplicate_values(&vars);
    all.insert("ca_cert".to_string(), trim(ca.cert_pem.as_str()));
    all.insert("client_cert".to_string(), trim(cert.cert_pem.as_str()));
    all.insert("client_key".to_string(), trim(cert.key_pem.as_str()));
    let profile = render_template(template.body.as_str(), &template.metadata, &all);
    ApiProfile {
        id,
        metadata: ProfileMetadata {
            client_name: input.client_name,
            template_id: template.id,
            template_name: template.metadata.name,
            ca_id: input.ca_id,
            ca_common_name: ca.common_name,
            cert_id: cert.id,
            tags: input.tags,
            created_at,
            variables: vars,
        },
        profile,
    }
}

/// The same values once more.
fn duplicate_values(vars: &StringMap<String>) -> (r: StringMap<String>)
    requires
        vars.wf(),
    ensures
        r.wf(),
        r@ == vars@,
{
    let ghost p = vars.entries();
    let mut out: StringMap<String> = StringMap::new();
    let n: usize = vars.len();
    for i in 0..n
        invariant
            n == p.len(),
            vars.wf(),
            p == vars.entries(),
            out.wf(),
            forall|k: Seq<char>| #[trigger]
                out@.dom().contains(k) ==> vars@.dom().contains(k) && out@[k] == vars@[k],
            forall|j: int| 0 <= j < i ==> out@.dom().contains((#[trigger] p[j]).0),
    {
        out.insert(vars.key_at(i).clone(), vars.value_at(i).clone());
    }
    proof {
        assert forall|k: Seq<char>| #[trigger] vars@.dom().contains(k) implies out@.dom().contains(
            k,
        ) by {
            let j = index_of_key(p, k);
            assert(has_key(p, k));
            assert(p[j].0 == k);
        }
        assert(out@ =~= vars@);
    }
    out
}

} // verus!
