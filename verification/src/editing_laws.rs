//! What becomes of templates that are created, saved and loaded, said of the operations: of what
//! they take and what they give back.
use vstd::prelude::*;

use crate::editing::{
    create_template, save_template, PageFailure, StoredTemplate, TemplateSaveForm,
};
use crate::number::{decimal, parsed_i64};
use crate::order::before;
use crate::rendering::SAMPLE_TEMPLATE;
use crate::storage::storage_id;
use crate::string_map::{has_key, index_of_key, lemma_key_index, map_of, StringMap};
use crate::template_names::{
    law_free_names, law_numbered_names, numbered, text_in, unique_template_name,
    validate_unique_template_name,
};
use crate::templates::{
    distinct_sorted, extract_variables, is_reserved, law_variable_names, load_template,
    validate_variable_definitions, variable_metadata, variable_names, Template, TemplateMetadata,
};
use crate::text::{lowered, texts, trimmed, white_space};
use crate::tokens::{is_name, token_names};
use crate::variable_laws::{
    described, law_described_variables_survive, law_every_option_is_accepted,
    law_first_definition_error, law_ports_are_numbers, law_values_that_are_accepted,
};
use crate::variables::{
    csv_items, default_of, default_variable, definition_error, parse_csv, validate_definition,
    validate_variable_value, VariableKind, VariableMetadata,
};

verus! {

// ---- saving ----

/// A template that is saved keeps its identifier, its text, its name and its description, and the
/// metadata of each placeholder that somebody has described; exactly the placeholders that are not
/// filled with certificates and keys have metadata.
pub proof fn law_saved_template(
    form: TemplateSaveForm,
    variables: StringMap<VariableMetadata>,
    templates: &Vec<Template>,
    t: StoredTemplate,
    k: Seq<char>,
)
    requires
        call_ensures(save_template, (form, Ok(variables), templates), Some(Ok(t))),
    ensures
        storage_id(form.id@),
        t.id@ == form.id@,
        t.body@ == form.body@,
        t.metadata.name@ == form.name@,
        t.metadata.description@ == form.description@,
        t.metadata.token_start@ == form.token_start@,
        t.metadata.token_stop@ == form.token_stop@,
        t.metadata.variables@.dom().contains(k) <==> {
            &&& token_names(form.body@, form.token_start@, form.token_stop@).contains(k)
            &&& k != "ca_cert"@ && k != "client_cert"@ && k != "client_key"@
        },
        t.metadata.variables@.dom().contains(k) && variables@.dom().contains(k) && described(
            k,
            variables@[k],
        ) ==> t.metadata.variables@[k] == variables@[k],
        t.metadata.variables@.dom().contains(k) && !variables@.dom().contains(k)
            ==> t.metadata.variables@[k] == default_of(k),
{
    let v = t.metadata@;
    assert(v.name == t.metadata.name@);
    law_variable_names(form.body@, form.token_start@, form.token_stop@);
    let names = variable_names(form.body@, form.token_start@, form.token_stop@);
    assert(names.contains(k) == token_names(
        form.body@,
        form.token_start@,
        form.token_stop@,
    ).contains(k));
}

/// A template is refused where its identifier is not valid, its metadata could not be read, a
/// delimiter is missing, or another template has its name.
pub proof fn law_templates_that_are_refused(
    form: TemplateSaveForm,
    variables: Result<StringMap<VariableMetadata>, String>,
    templates: &Vec<Template>,
    r: Option<Result<StoredTemplate, PageFailure>>,
    i: int,
)
    requires
        call_ensures(save_template, (form, variables, templates), r),
        0 <= i < templates@.len(),
    ensures
        !storage_id(form.id@) ==> (r matches Some(Err(e)) && e.title@ == "Invalid Template ID"@),
        storage_id(form.id@) && variables is Err ==> (r matches Some(Err(e)) && e.title@
            == "Invalid Variable YAML"@ && e.message@ == variables->Err_0@),
        form.token_start@.len() == 0 || form.token_stop@.len() == 0 ==> r matches Some(Err(_)),
        templates@[i].id@ != form.id@ && lowered(trimmed(templates@[i].metadata.name@)) == lowered(
            trimmed(form.name@),
        ) ==> !(r matches Some(Ok(_))),
        !(exists|j: int| 0 <= j < form.name@.len() && !white_space(#[trigger] form.name@[j]))
            ==> !(r matches Some(Ok(_))),
{
    law_free_names(templates@, Some(form.id@), form.name@);
    if let Some(Err(e)) = r {
        assert(e@.title == e.title@ && e@.message == e.message@);
    }
}

/// A new template has the sample text, no description of its own but the standard one, `%` as its
/// delimiters, a name that no template has, and what is assumed by its name for each placeholder.
pub proof fn law_created_template(
    templates: &Vec<Template>,
    t: StoredTemplate,
    i: int,
    k: Seq<char>,
)
    requires
        call_ensures(create_template, (templates,), t),
        0 <= i < templates@.len(),
    ensures
        t.body@ == SAMPLE_TEMPLATE@,
        t.metadata.description@ == "Self-contained client profile"@,
        t.metadata.token_start@ == seq!['%'],
        t.metadata.token_stop@ == seq!['%'],
        lowered(trimmed(templates@[i].metadata.name@)) != lowered(trimmed(t.metadata.name@)),
        t.metadata.variables@.dom().contains(k) ==> t.metadata.variables@[k] == default_of(k),
        t.metadata.variables@.dom().contains(k) <==> {
            &&& token_names(SAMPLE_TEMPLATE@, seq!['%'], seq!['%']).contains(k)
            &&& k != "ca_cert"@ && k != "client_cert"@ && k != "client_key"@
        },
{
    reveal_strlit("%");
    assert("%"@ =~= seq!['%']);
    let v = t.metadata@;
    assert(v.description == t.metadata.description@);
    law_free_names(templates@, None, t.metadata.name@);
    law_variable_names(SAMPLE_TEMPLATE@, "%"@, "%"@);
    assert(variable_names(SAMPLE_TEMPLATE@, "%"@, "%"@).contains(k) == token_names(
        SAMPLE_TEMPLATE@,
        "%"@,
        "%"@,
    ).contains(k));
}

// ---- loading ----

/// A template that is loaded is what was read: its text, its name, its description, the delimiters
/// that are given, and the metadata that somebody has described.
pub proof fn law_loaded_template(
    id: &str,
    body: String,
    metadata: TemplateMetadata,
    t: Template,
    k: Seq<char>,
)
    requires
        call_ensures(load_template, (id, body, metadata), Some(t)),
    ensures
        t.id@ == id@,
        t.body@ == body@,
        t.metadata.name@ == metadata.name@,
        t.metadata.description@ == metadata.description@,
        metadata.token_start@.len() > 0 ==> t.metadata.token_start@ == metadata.token_start@,
        metadata.token_stop@.len() > 0 ==> t.metadata.token_stop@ == metadata.token_stop@,
        metadata.token_start@.len() == 0 ==> t.metadata.token_start@ == seq!['%'],
        metadata.token_stop@.len() == 0 ==> t.metadata.token_stop@ == seq!['%'],
        t.metadata.variables@.dom().contains(k) <==> metadata.variables@.dom().contains(k),
        metadata.variables@.dom().contains(k) && described(k, metadata.variables@[k])
            ==> t.metadata.variables@[k] == metadata.variables@[k],
        texts(t.variables@).contains(k) <==> token_names(
            body@,
            t.metadata.token_start@,
            t.metadata.token_stop@,
        ).contains(k),
{
    reveal_strlit("%");
    assert("%"@ =~= seq!['%']);
    let v = t@;
    assert(v.metadata.name == t.metadata.name@ && v.id == t.id@ && v.body == t.body@);
    law_variable_names(body@, t.metadata.token_start@, t.metadata.token_stop@);
    let names = texts(t.variables@);
    assert(names.contains(k) == token_names(
        body@,
        t.metadata.token_start@,
        t.metadata.token_stop@,
    ).contains(k));
    if metadata.variables@.dom().contains(k) && described(k, metadata.variables@[k])
        && names.contains(k) {
        law_described_variables_survive(id@, body@, metadata@, names, k);
    }
}

/// The names of a text are those of its placeholders, each once, in order, and each a name.
pub proof fn law_extracted_names(
    body: &str,
    metadata: &TemplateMetadata,
    names: Vec<String>,
    k: Seq<char>,
)
    requires
        call_ensures(extract_variables, (body, metadata), Some(names)),
    ensures
        texts(names@).contains(k) <==> token_names(
            body@,
            metadata.token_start@,
            metadata.token_stop@,
        ).contains(k),
        texts(names@).contains(k) ==> is_name(k),
        forall|i: int, j: int|
            0 <= i < j < names@.len() ==> before((#[trigger] names@[i])@, (#[trigger] names@[j])@),
{
    law_variable_names(body@, metadata.token_start@, metadata.token_stop@);
    assert(texts(names@).contains(k) == token_names(
        body@,
        metadata.token_start@,
        metadata.token_stop@,
    ).contains(k));
    assert forall|i: int, j: int| 0 <= i < j < names@.len() implies before(
        (#[trigger] names@[i])@,
        (#[trigger] names@[j])@,
    ) by {
        assert(before(texts(names@)[i], texts(names@)[j]));
    }
}

/// Strings are put in order with each text once: all that occur, and no others.
pub proof fn law_distinct_and_sorted(names: &Vec<String>, r: Vec<String>, k: Seq<char>)
    requires
        call_ensures(distinct_sorted, (names,), r),
    ensures
        texts(r@).contains(k) <==> texts(names@).contains(k),
        forall|i: int, j: int|
            0 <= i < j < r@.len() ==> before((#[trigger] r@[i])@, (#[trigger] r@[j])@),
{
    assert forall|i: int, j: int| 0 <= i < j < r@.len() implies before(
        (#[trigger] r@[i])@,
        (#[trigger] r@[j])@,
    ) by {
        assert(before(texts(r@)[i], texts(r@)[j]));
    }
}

/// What is known of a variable is what is given for it, field by field.
pub proof fn law_given_metadata(
    variables: &StringMap<VariableMetadata>,
    name: &str,
    r: VariableMetadata,
    reserved: bool,
)
    requires
        call_ensures(variable_metadata, (variables, name), r),
        call_ensures(is_reserved, (name,), reserved),
    ensures
        variables@.dom().contains(name@) ==> r@ == variables@[name@],
        !variables@.dom().contains(name@) ==> r@ == default_of(name@),
        reserved <==> name@ == "ca_cert"@ || name@ == "client_cert"@ || name@ == "client_key"@,
{
}

// ---- names ----

/// A name is accepted if and only if it is not blank and every template with the same name, up to
/// case and white space around it, is the current one.
pub proof fn law_accepted_names(
    templates: &Vec<Template>,
    name: &str,
    current: Option<&str>,
    r: Result<(), String>,
)
    requires
        call_ensures(validate_unique_template_name, (templates, name, current), r),
    ensures
        r is Ok <==> {
            &&& exists|i: int| 0 <= i < name@.len() && !white_space(#[trigger] name@[i])
            &&& forall|i: int|
                0 <= i < templates@.len() && lowered(
                    trimmed((#[trigger] templates@[i]).metadata.name@),
                ) == lowered(trimmed(name@)) ==> current is Some && current->0@
                    == templates@[i].id@
        },
{
    law_free_names(templates@, text_in(current), name@);
}

/// A free name that is made is the base where that is accepted, and else the base, a space and a
/// number; no other template has it.
pub proof fn law_made_names(
    templates: &Vec<Template>,
    base: &str,
    current: Option<&str>,
    r: String,
    i: int,
)
    requires
        call_ensures(unique_template_name, (templates, base, current), r),
        0 <= i < templates@.len(),
    ensures
        lowered(trimmed(templates@[i].metadata.name@)) == lowered(trimmed(r@)) ==> current is Some
            && current->0@ == templates@[i].id@,
        r@ == base@ || exists|k: nat|
            2 <= k && r@ == base@ + seq![' '] + #[trigger] decimal(k),
{
    law_free_names(templates@, text_in(current), r@);
    if r@ != base@ {
        let k = choose|k: nat| 2 <= k && r@ == #[trigger] numbered(base@, k);
        law_numbered_names(base@, k, k);
        assert(r@ == base@ + seq![' '] + decimal(k));
    }
}

// ---- values and definitions ----

/// A value is accepted if and only if it is blank, or it is one of the options where the variable
/// is a choice with options, and a number within the bounds where a number is asked.
pub proof fn law_validated_values(
    name: &str,
    meta: &VariableMetadata,
    value: &str,
    r: Result<(), String>,
)
    requires
        call_ensures(validate_variable_value, (name, meta, value), r),
    ensures
        r is Ok <==> {
            ||| forall|i: int| 0 <= i < value@.len() ==> white_space(#[trigger] value@[i])
            ||| {
                &&& meta.kind == VariableKind::DropdownCsv && csv_items(meta.options@).len() > 0
                    ==> csv_items(meta.options@).contains(value@)
                &&& meta.kind == VariableKind::Number || meta.min is Some || meta.max is Some ==> (
                parsed_i64(trimmed(value@)) matches Some(n) && (meta.min is Some
                    ==> meta.min->0 <= n) && (meta.max is Some ==> n <= meta.max->0))
            }
        },
{
    law_values_that_are_accepted(name@, meta@, value@);
}

/// Every option of a choice without bounds is accepted, whatever the default is.
pub proof fn law_options_are_accepted(
    name: &str,
    meta: &VariableMetadata,
    text: &str,
    options: Vec<String>,
    value: &str,
    r: Result<(), String>,
    i: int,
)
    requires
        call_ensures(parse_csv, (text,), options),
        text@ == meta.options@,
        call_ensures(validate_variable_value, (name, meta, value), r),
        meta.kind == VariableKind::DropdownCsv,
        meta.min is None,
        meta.max is None,
        0 <= i < options@.len(),
        value@ == options@[i]@,
    ensures
        r is Ok,
{
    assert(texts(options@)[i] == value@);
    law_every_option_is_accepted(name@, meta@, i);
}

/// The metadata of a variable makes sense if and only if its bounds leave a number, a choice has
/// options, and the default is a value that the variable takes.
pub proof fn law_validated_definitions(
    name: &str,
    meta: &VariableMetadata,
    r: Result<(), String>,
    default: Result<(), String>,
    text: &str,
)
    requires
        call_ensures(validate_definition, (name, meta), r),
        call_ensures(validate_variable_value, (name, meta, text), default),
        text@ == meta.default@,
    ensures
        r is Ok <==> {
            &&& meta.min is Some && meta.max is Some ==> meta.min->0 <= meta.max->0
            &&& meta.kind == VariableKind::DropdownCsv ==> csv_items(meta.options@).len() > 0
            &&& default is Ok
        },
{
}

/// What is assumed of a variable whose name ends with `port`.
pub proof fn law_assumed_ports(front: Seq<char>, name: &str, r: VariableMetadata)
    requires
        call_ensures(default_variable, (name,), r),
        name@ == front + "port"@,
    ensures
        r.kind == VariableKind::Number,
        r.default@ == "1194"@,
        r.min == Some(1i64),
        r.max == Some(65535i64),
        r.required,
        r.options@.len() == 0,
        r.description@ == "Port for "@ + name@,
{
    law_ports_are_numbers(front);
    let v = r@;
    assert(v.default == r.default@);
}

/// Metadata makes sense as a whole if and only if that of each of its variables does.
pub proof fn law_validated_metadata(
    metadata: &TemplateMetadata,
    r: Result<(), String>,
)
    requires
        call_ensures(validate_variable_definitions, (metadata,), r),
        metadata.variables.wf(),
    ensures
        r is Ok <==> forall|k: Seq<char>| #[trigger]
            metadata.variables@.dom().contains(k) ==> definition_error(
                k,
                metadata.variables@[k],
            ) is None,
{
    let m = metadata.variables@;
    let p = metadata.variables.entries();
    metadata.variables.lemma_entries();
    law_first_definition_error(p);
    assert forall|i: int| 0 <= i < p.len() implies m.dom().contains((#[trigger] p[i]).0)
        && m[p[i].0] == p[i].1 by {
        lemma_key_index(p, i);
    }
    assert forall|k: Seq<char>| #[trigger] m.dom().contains(k) implies exists|i: int|
        0 <= i < p.len() && #[trigger] p[i] == (k, m[k]) by {
        assert(map_of(p).dom().contains(k));
        assert(has_key(p, k));
        let i = index_of_key(p, k);
        lemma_key_index(p, i);
        assert(p[i] == (k, m[k]));
    }
}

} // verus!
