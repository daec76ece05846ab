//! Requests for a configuration: from the form of the web pages and from the programming
//! interface.
use vstd::prelude::*;

use crate::api::{failure, resolve_api_ca_id, resolved_ca, ApiFailure, FailureView};
use crate::issue::IssueConfigInput;
use crate::minica::{optional_text, MinicaConfig};
use crate::string_map::{has_key, index_of_key, StringMap};
use crate::text::{begins_with, blank, texts, trimmed, without_prefix};
use crate::variables::{csv_items, parse_csv};

verus! {

/// The form of the web pages. The values of the template stand under their names with `var_`
/// before them.
#[derive(Debug, PartialEq, Eq)]
pub struct GenerateForm {
    pub template_id: String,
    pub ca_id: String,
    pub client_name: String,
    pub tags: String,
    pub values: StringMap<String>,
}

/// A request of the programming interface.
#[derive(Debug, PartialEq, Eq)]
pub struct IssueConfigRequest {
    pub template_id: String,
    pub ca_id: Option<String>,
    pub client_name: String,
    pub tags: Vec<String>,
    pub parameters: StringMap<String>,
}

/// The parameters of a form: what stands under `var_` and a name is the value of the name.
pub open spec fn form_parameters(values: Map<Seq<char>, Seq<char>>) -> Map<Seq<char>, Seq<char>> {
    Map::new(
        |k: Seq<char>| values.dom().contains("var_"@ + k),
        |k: Seq<char>| values["var_"@ + k],
    )
}

/// The parameters of a form.
fn parameters_of(values: &StringMap<String>) -> (r: StringMap<String>)
    requires
        values.wf(),
    ensures
        r.wf(),
        r@ == form_parameters(values@),
{
    let ghost p = values.entries();
    let ghost m = values@;
    let mut out: StringMap<String> = StringMap::new();
    let n: usize = values.len();
    for i in 0..n
        invariant
            n == p.len(),
            values.wf(),
            m == values@,
            p == values.entries(),
            out.wf(),
            forall|k: Seq<char>| #[trigger]
                out@.dom().contains(k) ==> m.dom().contains("var_"@ + k) && out@[k] == m["var_"@
                    + k],
            forall|j: int, k: Seq<char>|
                0 <= j < i && (#[trigger] p[j]).0 == "var_"@ + k ==> #[trigger] out@.dom().contains(k),
    {
        let ghost key = p[i as int].0;
        let ghost had = out@;
        match without_prefix(values.key_at(i).as_str(), "var_") {
            Some(name) => {
                let ghost k0 = name@;
                proof {
                    assert("var_"@ + k0 =~= key) by {
                        assert(begins_with(key, "var_"@));
                        assert(key.take("var_"@.len() as int) + key.skip("var_"@.len() as int)
                            =~= key);
                    }
                }
                out.insert(name, values.value_at(i).clone());
                proof {
                    assert forall|j: int, k: Seq<char>|
                        0 <= j < i + 1 && (#[trigger] p[j]).0 == "var_"@
                            + k implies #[trigger] out@.dom().contains(k) by {
                        if j == i {
                            assert(k =~= ("var_"@ + k).skip("var_"@.len() as int));
                        } else {
                            assert(had.dom().contains(k));
                        }
                    }
                }
            },
            None => {
                proof {
                    assert forall|k: Seq<char>| key != "var_"@ + k by {
                        if key == "var_"@ + k {
                            assert(key.take("var_"@.len() as int) =~= "var_"@);
                        }
                    }
                }
            },
        }
    }
    proof {
        assert forall|k: Seq<char>| #[trigger] out@.dom().contains(k) == m.dom().contains(
            "var_"@ + k,
        ) by {
            if m.dom().contains("var_"@ + k) {
                assert(has_key(p, "var_"@ + k));
                let j = index_of_key(p, "var_"@ + k);
                assert(p[j].0 == "var_"@ + k);
            }
        }
        assert(out@ =~= form_parameters(m));
    }
    out
}

/// What a form asks to be issued: its tags are comma-separated.
pub fn generate_profile(form: GenerateForm) -> (r: IssueConfigInput)
    requires
        form.values.wf(),
    ensures
        r.template_id == form.template_id,
        r.ca_id == form.ca_id,
        r.client_name == form.client_name,
        texts(r.tags@) == csv_items(form.tags@),
        r.parameters.wf(),
        r.parameters@ == form_parameters(form.values@),
{
    let parameters = parameters_of(&form.values);
    IssueConfigInput {
        template_id: form.template_id,
        ca_id: form.ca_id,
        client_name: form.client_name,
        tags: parse_csv(form.tags.as_str()),
        parameters,
    }
}

/// What a request asks to be issued, given the request and the settings as they could be read, or
/// why nothing can be: its certificate authority is the one it names or the default one.
pub fn api_issue_config(
    payload: Result<IssueConfigRequest, String>,
    config: Result<MinicaConfig, String>,
) -> (r: Result<IssueConfigInput, ApiFailure>)
    requires
        payload matches Ok(request) ==> request.parameters.wf(),
    ensures
        match payload {
            Err(e) => r matches Err(f) && f@ == failure(400, "invalid_json"@, e@),
            Ok(request) => match resolved_ca(optional_text(request.ca_id), config) {
                Ok(ca_id) => r matches Ok(input) && {
                    &&& input.ca_id@ == ca_id
                    &&& input.template_id == request.template_id
                    &&& input.client_name == request.client_name
                    &&& input.tags == request.tags
                    &&& input.parameters == request.parameters
                },
                Err(f) => r matches Err(e) && e@ == f,
            },
        },
{
    let request = match payload {
        Ok(request) => request,
        Err(message) => {
            return Err(ApiFailure { status: 400, code: "invalid_json", message });
        },
    };
    let requested: Option<&str> = match &request.ca_id {
        Some(id) => Some(id.as_str()),
        None => None,
    };
    match resolve_api_ca_id(requested, config) {
        Ok(ca_id) => Ok(
            IssueConfigInput {
                template_id: request.template_id,
                ca_id,
                client_name: request.client_name,
                tags: request.tags,
                parameters: request.parameters,
            },
        ),
        Err(f) => Err(f),
    }
}

/// The values of a form that gives each name its parameter.
pub open spec fn form_values(parameters: Map<Seq<char>, Seq<char>>) -> Map<Seq<char>, Seq<char>> {
    Map::new(
        |v: Seq<char>|
            begins_with(v, "var_"@) && parameters.dom().contains(v.skip("var_"@.len() as int)),
        |v: Seq<char>| parameters[v.skip("var_"@.len() as int)],
    )
}

/// A form hands over the same parameters as a request that gives each name its value, so both
/// are judged alike.
pub proof fn law_form_and_request_agree(parameters: Map<Seq<char>, Seq<char>>)
    ensures
        form_parameters(form_values(parameters)) == parameters,
{
    assert forall|k: Seq<char>| #[trigger] form_parameters(form_values(parameters)).dom().contains(k)
        == parameters.dom().contains(k) by {
        let v = "var_"@ + k;
        assert(v.take("var_"@.len() as int) =~= "var_"@);
        assert(v.skip("var_"@.len() as int) =~= k);
    }
    assert forall|k: Seq<char>| #[trigger] parameters.dom().contains(k) implies form_parameters(
        form_values(parameters),
    )[k] == parameters[k] by {
        let v = "var_"@ + k;
        assert(v.take("var_"@.len() as int) =~= "var_"@);
        assert(v.skip("var_"@.len() as int) =~= k);
    }
    assert(form_parameters(form_values(parameters)) =~= parameters);
}

/// A request that names no certificate authority, or a blank one, gets the default one.
pub proof fn law_default_ca_is_used(requested: Option<Seq<char>>, config: MinicaConfig)
    requires
        requested matches Some(id) ==> blank(id),
        !blank(config.default_ca_id@),
    ensures
        resolved_ca(requested, Ok(config)) == Ok::<Seq<char>, FailureView>(config.default_ca_id@),
{
}

/// A request that names a certificate authority gets that one, whatever the settings are.
pub proof fn law_named_ca_is_used(requested: Seq<char>, config: Result<MinicaConfig, String>)
    requires
        !blank(requested),
    ensures
        resolved_ca(Some(requested), config) == Ok::<Seq<char>, FailureView>(trimmed(requested)),
{
}

/// The parameter of a name is exactly what the form holds under `var_` and the name; no other
/// entry of the form is a parameter.
pub proof fn law_form_parameters(values: Map<Seq<char>, Seq<char>>, k: Seq<char>)
    ensures
        form_parameters(values).dom().contains(k) <==> values.dom().contains(
            seq!['v', 'a', 'r', '_'] + k,
        ),
        values.dom().contains(seq!['v', 'a', 'r', '_'] + k) ==> form_parameters(values)[k]
            == values[seq!['v', 'a', 'r', '_'] + k],
{
    reveal_strlit("var_");
    assert("var_"@ =~= seq!['v', 'a', 'r', '_']);
}

} // verus!
