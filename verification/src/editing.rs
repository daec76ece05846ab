//! Creating and saving templates.
use vstd::prelude::*;
use vstd::seq_lib::seq_to_set_is_finite;
use vstd::set_lib::lemma_set_subset_finite;

use crate::rendering::{sample_template, SAMPLE_TEMPLATE};
use crate::storage::{fresh_id, storage_id, unique_id, valid_storage_id};
use crate::string_map::{
    has_key, index_of_key, lemma_key_index, lemma_ordered_of_finite, map_of, ordered, StringMap,
};
use crate::template_names::{
    first_free_numbered, free, name_error, numbered, unique_template_name,
    validate_unique_template_name,
};
use crate::templates::{
    default_token_start, default_token_stop, delimiter, delimiter_error, extract_variables,
    first_definition_error, lemma_normalized_idempotent, loaded, loaded_variables, reserved,
    sync_metadata_with_body, sync_variables, synced, validate_token_delimiters,
    validate_variable_definitions, variable_names, variable_or_default, MetadataView, Template,
    TemplateMetadata, TemplateView,
};
use crate::text::texts;
use crate::tokens::modest;
use crate::variable_laws::law_first_definition_error;
use crate::variables::{
    default_of, definition_error, law_defaults_make_sense, VariableMetadata, VariableView,
};

verus! {

/// A template as it is to be written.
#[derive(Debug, PartialEq, Eq)]
pub struct StoredTemplate {
    pub id: String,
    pub body: String,
    pub metadata: TemplateMetadata,
}

// ---- a new template ----

/// The metadata of a new template before it is brought in line with its text.
pub open spec fn new_metadata() -> MetadataView {
    MetadataView {
        name: "Standard OpenVPN Client"@,
        description: "Self-contained client profile"@,
        token_start: "%"@,
        token_stop: "%"@,
        variables: Map::empty(),
    }
}

/// A name for a new template: the standard one, or the standard one with the least number that
/// makes it free.
pub open spec fn new_name(templates: Seq<Template>, name: Seq<char>) -> bool {
    &&& free(templates, None, name)
    &&& if free(templates, None, new_metadata().name) {
        name == new_metadata().name
    } else {
        first_free_numbered(templates, None, new_metadata().name, name)
    }
}

/// A new template beside the given ones: the sample text, under a new identifier and a free
/// name.
pub fn create_template(templates: &Vec<Template>) -> (t: StoredTemplate)
    ensures
        fresh_id(t.id@, "template"@),
        t.body@ == SAMPLE_TEMPLATE@,
        t.metadata.variables.wf(),
        new_name(templates@, t.metadata.name@),
        t.metadata@ == (MetadataView {
            name: t.metadata.name@,
            ..synced(new_metadata(), variable_names(SAMPLE_TEMPLATE@, "%"@, "%"@))
        }),
{
    let id = unique_id("template");
    let body = sample_template();
    let mut metadata = TemplateMetadata {
        name: "Standard OpenVPN Client".to_string(),
        description: "Self-contained client profile".to_string(),
        token_start: default_token_start(),
        token_stop: default_token_stop(),
        variables: StringMap::new(),
    };
    proof {
        reveal_strlit("%");
        assert("%"@.len() == 1);
        assert(metadata@ =~= new_metadata());
    }
    let done = sync_metadata_with_body(body.as_str(), &mut metadata);
    metadata.name = unique_template_name(templates, "Standard OpenVPN Client", None);
    proof {
        assert(done);
        assert(metadata@ =~= (MetadataView {
            name: metadata.name@,
            ..synced(new_metadata(), variable_names(SAMPLE_TEMPLATE@, "%"@, "%"@))
        }));
        assert(new_name(templates@, metadata.name@));
    }
    StoredTemplate { id, body, metadata }
}

// ---- saving a template ----

/// A template as it was edited; the metadata of its variables comes beside it.
#[derive(Debug, PartialEq, Eq)]
pub struct TemplateSaveForm {
    pub id: String,
    pub name: String,
    pub description: String,
    pub token_start: String,
    pub token_stop: String,
    pub body: String,
}

/// Why something was not done: the title of the page and what it says.
#[derive(Debug, PartialEq, Eq)]
pub struct PageFailure {
    pub title: &'static str,
    pub message: String,
}

/// Why something was not done, as texts.
pub struct PageFailureView {
    pub title: Seq<char>,
    pub message: Seq<char>,
}

impl View for PageFailure {
    type V = PageFailureView;

    open spec fn view(&self) -> PageFailureView {
        PageFailureView { title: self.title@, message: self.message@ }
    }
}

/// A title and what the page says.
pub open spec fn page_failure(title: Seq<char>, message: Seq<char>) -> PageFailureView {
    PageFailureView { title, message }
}

/// The metadata of a form and its variables.
pub open spec fn form_metadata(
    form: TemplateSaveForm,
    variables: StringMap<VariableMetadata>,
) -> MetadataView {
    MetadataView {
        name: form.name@,
        description: form.description@,
        token_start: form.token_start@,
        token_stop: form.token_stop@,
        variables: variables@,
    }
}

/// Why a form is refused before its text is looked at, if it is.
pub open spec fn form_refusal(
    form: TemplateSaveForm,
    variables: Result<StringMap<VariableMetadata>, String>,
) -> Option<PageFailureView> {
    if !storage_id(form.id@) {
        Some(page_failure("Invalid Template ID"@, "template ID is not valid"@))
    } else {
        match variables {
            Err(e) => Some(page_failure("Invalid Variable YAML"@, e@)),
            Ok(vars) => match delimiter_error(form_metadata(form, vars)) {
                Some(e) => Some(page_failure("Invalid Token Delimiters"@, e)),
                None => None,
            },
        }
    }
}

/// Why metadata that is in line with the text is refused, if it is.
pub open spec fn metadata_refusal(
    m: MetadataView,
    id: Seq<char>,
    templates: Seq<Template>,
) -> Option<PageFailureView> {
    match first_definition_error(ordered(m.variables)) {
        Some(e) => Some(page_failure("Invalid Variable Metadata"@, e)),
        None => match name_error(templates, Some(id), m.name) {
            Some(e) => Some(page_failure("Template Name Must Be Unique"@, e)),
            None => None,
        },
    }
}

/// The metadata is refused, or the template is to be written with it.
pub open spec fn saving(
    r: Result<StoredTemplate, PageFailure>,
    id: Seq<char>,
    body: Seq<char>,
    m: MetadataView,
    templates: Seq<Template>,
) -> bool {
    match metadata_refusal(m, id, templates) {
        Some(f) => r matches Err(e) && e@ == f,
        None => {
            &&& r matches Ok(t) && t.id@ == id && t.body@ == body && t.metadata.variables.wf()
                && t.metadata@ == m
        },
    }
}

/// The template to be written, given the names of the placeholders of its text, or why its
/// metadata is refused.
pub fn finish_saving(
    id: String,
    body: String,
    metadata: TemplateMetadata,
    names: &Vec<String>,
    templates: &Vec<Template>,
) -> (r: Result<StoredTemplate, PageFailure>)
    requires
        metadata.variables.wf(),
    ensures
        saving(r, id@, body@, synced(metadata@, texts(names@)), templates@),
{
    let mut metadata = metadata;
    sync_variables(&mut metadata, names);
    match validate_variable_definitions(&metadata) {
        Ok(_) => {},
        Err(message) => {
            return Err(PageFailure { title: "Invalid Variable Metadata", message });
        },
    }
    match validate_unique_template_name(templates, metadata.name.as_str(), Some(id.as_str())) {
        Ok(_) => Ok(StoredTemplate { id, body, metadata }),
        Err(message) => Err(PageFailure { title: "Template Name Must Be Unique", message }),
    }
}

/// The template to be written for a form and the metadata of its variables as it could be read,
/// or why it is refused; nothing where the pattern engine refuses the delimiters for their size.
pub fn save_template(
    form: TemplateSaveForm,
    variables: Result<StringMap<VariableMetadata>, String>,
    templates: &Vec<Template>,
) -> (r: Option<Result<StoredTemplate, PageFailure>>)
    requires
        variables matches Ok(vars) ==> vars.wf(),
    ensures
        form_refusal(form, variables) matches Some(f) ==> r matches Some(Err(e)) && e@ == f,
        modest(form.token_start@, form.token_stop@) ==> r is Some,
        form_refusal(form, variables) is None ==> (r matches Some(outcome) ==> saving(
            outcome,
            form.id@,
            form.body@,
            synced(
                form_metadata(form, variables->Ok_0),
                variable_names(form.body@, form.token_start@, form.token_stop@),
            ),
            templates@,
        )),
{
    if !valid_storage_id(form.id.as_str()) {
        return Some(
            Err(
                PageFailure {
                    title: "Invalid Template ID",
                    message: "template ID is not valid".to_string(),
                },
            ),
        );
    }
    let variables = match variables {
        Ok(variables) => variables,
        Err(message) => {
            return Some(Err(PageFailure { title: "Invalid Variable YAML", message }));
        },
    };
    let metadata = TemplateMetadata {
        name: form.name,
        description: form.description,
        token_start: form.token_start,
        token_stop: form.token_stop,
        variables,
    };
    match validate_token_delimiters(&metadata) {
        Ok(_) => {},
        Err(message) => {
            return Some(Err(PageFailure { title: "Invalid Token Delimiters", message }));
        },
    }
    match extract_variables(form.body.as_str(), &metadata) {
        Some(names) => Some(finish_saving(form.id, form.body, metadata, &names, templates)),
        None => None,
    }
}

// ---- laws ----

/// A template that was saved keeps its name, which no other template has, and has
/// metadata for exactly the placeholders of its text that are not filled with certificates.
pub proof fn law_saved_template_is_sound(
    r: Result<StoredTemplate, PageFailure>,
    id: Seq<char>,
    body: Seq<char>,
    m: MetadataView,
    names: Seq<Seq<char>>,
    templates: Seq<Template>,
)
    requires
        saving(r, id, body, synced(m, names), templates),
        r is Ok,
    ensures
        free(templates, Some(id), m.name),
        r->Ok_0.metadata@.name == m.name,
        forall|k: Seq<char>| #[trigger]
            r->Ok_0.metadata@.variables.dom().contains(k) == (names.contains(k)
                && !reserved(k)),
{
}

/// A template that was saved is loaded as it was saved: with the same text and metadata, and with
/// the names that its metadata was brought in line with.
pub proof fn law_saved_template_loads_back(id: Seq<char>, body: Seq<char>, m: MetadataView)
    ensures
        ({
            let names = variable_names(body, delimiter(m.token_start), delimiter(m.token_stop));
            let saved = synced(m, names);
            loaded(
                id,
                body,
                saved,
                variable_names(body, delimiter(saved.token_start), delimiter(saved.token_stop)),
            ) == (TemplateView { id, body, metadata: saved, variables: names })
        }),
{
    reveal_strlit("%");
    let names = variable_names(body, delimiter(m.token_start), delimiter(m.token_stop));
    let saved = synced(m, names);
    assert(delimiter(saved.token_start) == saved.token_start);
    assert(delimiter(saved.token_stop) == saved.token_stop);
    let again = loaded_variables(saved.variables, names);
    assert forall|k: Seq<char>| #[trigger] saved.variables.dom().contains(k) implies again[k]
        == saved.variables[k] by {
        lemma_normalized_idempotent(k, variable_or_default(m.variables, k));
    }
    assert(again =~= saved.variables);
}

proof fn lemma_no_definition_error(p: Seq<(Seq<char>, VariableView)>)
    requires
        forall|i: int| 0 <= i < p.len() ==> definition_error((#[trigger] p[i]).0, p[i].1) is None,
    ensures
        first_definition_error(p) is None,
    decreases p.len(),
{
    if p.len() > 0 {
        assert forall|i: int| 0 <= i < p.skip(1).len() implies definition_error(
            (#[trigger] p.skip(1)[i]).0,
            p.skip(1)[i].1,
        ) is None by {
            assert(p.skip(1)[i] == p[i + 1]);
        }
        assert(definition_error(p[0].0, p[0].1) is None);
        lemma_no_definition_error(p.skip(1));
    }
}

/// A new template can be saved as it is: what is assumed of its variables makes sense, and its
/// name is free.
pub proof fn law_new_template_can_be_saved(
    m: MetadataView,
    names: Seq<Seq<char>>,
    id: Seq<char>,
    templates: Seq<Template>,
)
    requires
        m == (MetadataView { name: m.name, ..synced(new_metadata(), names) }),
        new_name(templates, m.name),
    ensures
        metadata_refusal(m, id, templates) is None,
{
    seq_to_set_is_finite(names);
    assert(m.variables.dom().subset_of(names.to_set()));
    lemma_set_subset_finite(names.to_set(), m.variables.dom());
    lemma_ordered_of_finite(m.variables);
    let p = ordered(m.variables);
    assert forall|i: int| 0 <= i < p.len() implies definition_error(
        (#[trigger] p[i]).0,
        p[i].1,
    ) is None by {
        lemma_key_index(p, i);
        let k = p[i].0;
        assert(m.variables.dom().contains(k));
        assert(m.variables[k] == default_of(k));
        law_defaults_make_sense(k);
    }
    lemma_no_definition_error(p);
}

/// Saving what was saved changes nothing: metadata that is in line with the text stays as it is.
pub proof fn law_sync_idempotent(m: MetadataView, names: Seq<Seq<char>>)
    ensures
        synced(synced(m, names), names) == synced(m, names),
{
    reveal_strlit("%");
    let once = synced(m, names);
    let twice = synced(once, names);
    assert forall|k: Seq<char>| #[trigger] once.variables.dom().contains(k) implies twice.variables[k]
        == once.variables[k] by {
        lemma_normalized_idempotent(k, variable_or_default(m.variables, k));
    }
    assert(twice.variables =~= once.variables);
    assert(twice =~= once);
}

/// A form is refused before its text is looked at if and only if its identifier is not valid, the
/// metadata of its variables could not be read, or a delimiter is missing; the first of these is
/// what is said.
pub proof fn law_forms_that_are_refused(
    form: TemplateSaveForm,
    variables: Result<StringMap<VariableMetadata>, String>,
)
    ensures
        form_refusal(form, variables) is None <==> storage_id(form.id@) && variables is Ok
            && form.token_start@.len() > 0 && form.token_stop@.len() > 0,
        !storage_id(form.id@) ==> (form_refusal(form, variables) matches Some(f) && f.title
            == "Invalid Template ID"@ && f.message == "template ID is not valid"@),
        storage_id(form.id@) && variables is Err ==> (form_refusal(form, variables) matches Some(f)
            && f.title == "Invalid Variable YAML"@ && f.message == variables->Err_0@),
        storage_id(form.id@) && variables is Ok && form.token_start@.len() == 0 ==> (form_refusal(
            form,
            variables,
        ) matches Some(f) && f.title == "Invalid Token Delimiters"@ && f.message
            == "token start is required"@),
        storage_id(form.id@) && variables is Ok && form.token_start@.len() > 0
            && form.token_stop@.len() == 0 ==> (form_refusal(form, variables) matches Some(f)
            && f.title == "Invalid Token Delimiters"@ && f.message == "token stop is required"@),
{
}

/// The metadata of a form is what was entered, field by field.
pub proof fn law_metadata_of_a_form(
    form: TemplateSaveForm,
    variables: StringMap<VariableMetadata>,
)
    ensures
        form_metadata(form, variables).name == form.name@,
        form_metadata(form, variables).description == form.description@,
        form_metadata(form, variables).token_start == form.token_start@,
        form_metadata(form, variables).token_stop == form.token_stop@,
        form_metadata(form, variables).variables == variables@,
{
}

/// Metadata is refused if and only if the definition of some variable makes no sense or its name
/// is not free for the template; the variables are looked at first.
pub proof fn law_metadata_that_is_refused(
    m: MetadataView,
    id: Seq<char>,
    templates: Seq<Template>,
)
    requires
        m.variables.dom().finite(),
    ensures
        metadata_refusal(m, id, templates) is None <==> {
            &&& forall|k: Seq<char>| #[trigger]
                m.variables.dom().contains(k) ==> definition_error(k, m.variables[k]) is None
            &&& free(templates, Some(id), m.name)
        },
        (exists|k: Seq<char>| #[trigger]
            m.variables.dom().contains(k) && definition_error(k, m.variables[k]) is Some) ==> (
        metadata_refusal(m, id, templates) matches Some(f) && f.title
            == "Invalid Variable Metadata"@),
        (forall|k: Seq<char>| #[trigger]
            m.variables.dom().contains(k) ==> definition_error(k, m.variables[k]) is None)
            && !free(templates, Some(id), m.name) ==> (metadata_refusal(
            m,
            id,
            templates,
        ) matches Some(f) && f.title == "Template Name Must Be Unique"@ && Some(f.message)
            == name_error(templates, Some(id), m.name)),
{
    lemma_ordered_of_finite(m.variables);
    let p = ordered(m.variables);
    law_first_definition_error(p);
    assert forall|i: int| 0 <= i < p.len() implies m.variables.dom().contains((#[trigger] p[i]).0)
        && m.variables[p[i].0] == p[i].1 by {
        lemma_key_index(p, i);
    }
    assert forall|k: Seq<char>| #[trigger] m.variables.dom().contains(k) implies exists|i: int|
        0 <= i < p.len() && #[trigger] p[i] == (k, m.variables[k]) by {
        assert(map_of(p).dom().contains(k));
        assert(has_key(p, k));
        let i = index_of_key(p, k);
        lemma_key_index(p, i);
        assert(p[i] == (k, m.variables[k]));
    }
}

/// Where metadata is refused nothing is to be written; else the template is to be written with
/// its own identifier and text, and with all of the metadata.
pub proof fn law_what_is_written(
    r: Result<StoredTemplate, PageFailure>,
    id: Seq<char>,
    body: Seq<char>,
    m: MetadataView,
    templates: Seq<Template>,
)
    requires
        saving(r, id, body, m, templates),
    ensures
        r is Ok <==> metadata_refusal(m, id, templates) is None,
        r is Ok ==> {
            &&& r->Ok_0.id@ == id
            &&& r->Ok_0.body@ == body
            &&& r->Ok_0.metadata@ == m
        },
        r is Err ==> metadata_refusal(m, id, templates) == Some(r->Err_0@),
{
}

/// A new template has the standard name where that is free, and else the standard name, a space
/// and the least number from 2 on with which it is free.
pub proof fn law_names_of_new_templates(templates: Seq<Template>, name: Seq<char>)
    requires
        new_name(templates, name),
    ensures
        free(templates, None, "Standard OpenVPN Client"@) ==> name == "Standard OpenVPN Client"@,
        !free(templates, None, "Standard OpenVPN Client"@) ==> exists|k: nat|
            {
                &&& 2 <= k
                &&& name == #[trigger] numbered("Standard OpenVPN Client"@, k)
                &&& free(templates, None, name)
                &&& forall|j: nat|
                    2 <= j < k ==> !free(
                        templates,
                        None,
                        #[trigger] numbered("Standard OpenVPN Client"@, j),
                    )
            },
{
}

} // verus!
