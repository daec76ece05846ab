//! Templates: their placeholders, their metadata and their names.
use vstd::prelude::*;
use vstd::seq_lib::seq_to_set_is_finite;

use crate::order::before;
use crate::outside::{captured_names, escape};
use crate::string_map::{
    has_key, in_key_order, index_of_key, lemma_key_index, lemma_ordered_of_finite,
    lemma_ordered_unique, map_of, ordered, StringMap,
};
use crate::text::{same_text, texts};
use crate::tokens::{
    is_name, law_found_names_are_names, modest, name_pattern, token_names, NAME_GROUP,
};
use crate::variables::{
    default_of, default_variable, definition_error, error_text, normalize_variable_metadata,
    normalized, validate_definition, VariableMetadata, VariableView,
};

verus! {

/// What is known of a template beside its text.
#[derive(Debug, PartialEq, Eq)]
pub struct TemplateMetadata {
    pub name: String,
    pub description: String,
    pub token_start: String,
    pub token_stop: String,
    pub variables: StringMap<VariableMetadata>,
}

/// What is known of a template, as texts and maps.
#[verifier::ext_equal]
pub struct MetadataView {
    pub name: Seq<char>,
    pub description: Seq<char>,
    pub token_start: Seq<char>,
    pub token_stop: Seq<char>,
    pub variables: Map<Seq<char>, VariableView>,
}

impl View for TemplateMetadata {
    type V = MetadataView;

    open spec fn view(&self) -> MetadataView {
        MetadataView {
            name: self.name@,
            description: self.description@,
            token_start: self.token_start@,
            token_stop: self.token_stop@,
            variables: self.variables@,
        }
    }
}

/// A template: its text, its metadata and the names of its placeholders.
#[derive(Debug, PartialEq, Eq)]
pub struct Template {
    pub id: String,
    pub body: String,
    pub metadata: TemplateMetadata,
    pub variables: Vec<String>,
}

/// A template, as texts and maps.
pub struct TemplateView {
    pub id: Seq<char>,
    pub body: Seq<char>,
    pub metadata: MetadataView,
    pub variables: Seq<Seq<char>>,
}

impl View for Template {
    type V = TemplateView;

    open spec fn view(&self) -> TemplateView {
        TemplateView {
            id: self.id@,
            body: self.body@,
            metadata: self.metadata@,
            variables: texts(self.variables@),
        }
    }
}

impl Template {
    /// The metadata of the variables is a map in order.
    pub open spec fn wf(&self) -> bool {
        self.metadata.variables.wf()
    }
}

// ---- reserved names ----

/// The names that are filled with certificates and keys.
pub open spec fn reserved(s: Seq<char>) -> bool {
    s == "ca_cert"@ || s == "client_cert"@ || s == "client_key"@
}

/// Whether the name is filled with a certificate or a key.
pub fn is_reserved(value: &str) -> (r: bool)
    ensures
        r == reserved(value@),
{
    same_text(value, "ca_cert") || same_text(value, "client_cert") || same_text(value, "client_key")
}

// ---- delimiters ----

/// The start of a placeholder where the metadata gives none.
pub fn default_token_start() -> (r: String)
    ensures
        r@ == "%"@,
{
    "%".to_string()
}

/// The stop of a placeholder where the metadata gives none.
pub fn default_token_stop() -> (r: String)
    ensures
        r@ == "%"@,
{
    "%".to_string()
}

/// `s`, or `%` where `s` is empty.
pub open spec fn delimiter(s: Seq<char>) -> Seq<char> {
    if s.len() == 0 {
        "%"@
    } else {
        s
    }
}

/// The metadata with `%` for each missing delimiter.
pub open spec fn with_delimiters(m: MetadataView) -> MetadataView {
    MetadataView {
        token_start: delimiter(m.token_start),
        token_stop: delimiter(m.token_stop),
        ..m
    }
}

/// Puts `%` for each missing delimiter.
pub fn normalize_template_metadata(metadata: &mut TemplateMetadata)
    ensures
        final(metadata)@ == with_delimiters(old(metadata)@),
        final(metadata).variables == old(metadata).variables,
{
    if metadata.token_start.as_str().is_empty() {
        metadata.token_start = default_token_start();
    }
    if metadata.token_stop.as_str().is_empty() {
        metadata.token_stop = default_token_stop();
    }
}

/// What is wrong with the delimiters, if anything.
pub open spec fn delimiter_error(m: MetadataView) -> Option<Seq<char>> {
    if m.token_start.len() == 0 {
        Some("token start is required"@)
    } else if m.token_stop.len() == 0 {
        Some("token stop is required"@)
    } else {
        None
    }
}

/// Whether both delimiters are given, and which one is missing.
pub fn validate_token_delimiters(metadata: &TemplateMetadata) -> (r: Result<(), String>)
    ensures
        error_text(r) == delimiter_error(metadata@),
{
    if metadata.token_start.as_str().is_empty() {
        return Err("token start is required".to_string());
    }
    if metadata.token_stop.as_str().is_empty() {
        return Err("token stop is required".to_string());
    }
    Ok(())
}

// ---- placeholders ----

/// The texts rise strictly.
pub open spec fn rising(s: Seq<Seq<char>>) -> bool {
    forall|i: int, j: int| 0 <= i < j < s.len() ==> before(#[trigger] s[i], #[trigger] s[j])
}

/// The same texts occur in both.
pub open spec fn same_members(a: Seq<Seq<char>>, b: Seq<Seq<char>>) -> bool {
    forall|x: Seq<char>| #[trigger] a.contains(x) == b.contains(x)
}

/// The texts in order, each once.
pub open spec fn sorted_once(names: Seq<Seq<char>>) -> Seq<Seq<char>> {
    choose|q: Seq<Seq<char>>| rising(q) && same_members(q, names)
}

spec fn keyed(s: Seq<Seq<char>>) -> Seq<(Seq<char>, bool)> {
    Seq::new(s.len(), |i: int| (s[i], true))
}

proof fn lemma_keyed(s: Seq<Seq<char>>)
    requires
        rising(s),
    ensures
        in_key_order(keyed(s)),
        forall|k: Seq<char>| has_key(keyed(s), k) == s.contains(k),
{
    let p = keyed(s);
    assert forall|i: int, j: int| 0 <= i < j < p.len() implies before(
        (#[trigger] p[i]).0,
        (#[trigger] p[j]).0,
    ) by {
        assert(before(s[i], s[j]));
    }
    assert forall|k: Seq<char>| has_key(p, k) == s.contains(k) by {
        if has_key(p, k) {
            assert(s[index_of_key(p, k)] == k);
        }
        if s.contains(k) {
            let i = choose|i: int| 0 <= i < s.len() && s[i] == k;
            assert(p[i].0 == k);
        }
    }
}

/// Texts that rise strictly are determined by their members.
pub proof fn lemma_sorted_once(q: Seq<Seq<char>>, names: Seq<Seq<char>>)
    requires
        rising(q),
        same_members(q, names),
    ensures
        sorted_once(names) == q,
{
    let o = sorted_once(names);
    assert(rising(o) && same_members(o, names));
    lemma_keyed(o);
    lemma_keyed(q);
    let a = keyed(o);
    let b = keyed(q);
    assert forall|k: Seq<char>| #[trigger] map_of(a).dom().contains(k) == map_of(
        b,
    ).dom().contains(k) by {
        assert(has_key(a, k) == o.contains(k));
        assert(has_key(b, k) == q.contains(k));
    }
    assert(map_of(a) =~= map_of(b)) by {
        assert forall|k: Seq<char>| #[trigger] map_of(a).dom().contains(k) implies map_of(a)[k]
            == map_of(b)[k] by {
            assert(has_key(a, k) && has_key(b, k));
        }
    }
    lemma_ordered_unique(a, b);
    assert(o =~= q) by {
        assert(a.len() == b.len());
        assert forall|i: int| 0 <= i < o.len() implies o[i] == q[i] by {
            assert(a[i] == b[i]);
        }
    }
}

/// Any texts can be put in order, each once.
pub proof fn lemma_sorted_once_of(names: Seq<Seq<char>>)
    ensures
        rising(sorted_once(names)),
        same_members(sorted_once(names), names),
{
    let m = Map::new(|k: Seq<char>| names.contains(k), |k: Seq<char>| true);
    assert(m.dom() =~= names.to_set());
    seq_to_set_is_finite(names);
    lemma_ordered_of_finite(m);
    let p = ordered(m);
    let q = Seq::new(p.len(), |i: int| p[i].0);
    assert forall|i: int, j: int| 0 <= i < j < q.len() implies before(
        #[trigger] q[i],
        #[trigger] q[j],
    ) by {
        assert(before(p[i].0, p[j].0));
    }
    assert forall|x: Seq<char>| #[trigger] q.contains(x) == names.contains(x) by {
        assert(m.dom().contains(x) == names.contains(x));
        if q.contains(x) {
            let i = choose|i: int| 0 <= i < q.len() && q[i] == x;
            lemma_key_index(p, i);
        }
        if names.contains(x) {
            assert(map_of(p).dom().contains(x));
            let i = index_of_key(p, x);
            assert(has_key(p, x));
            assert(q[i] == x);
        }
    }
    lemma_sorted_once(q, names);
}

/// The strings in order, each once.
pub fn distinct_sorted(names: &Vec<String>) -> (r: Vec<String>)
    ensures
        texts(r@) == sorted_once(texts(names@)),
        rising(texts(r@)),
        same_members(texts(r@), texts(names@)),
{
    let mut found: StringMap<bool> = StringMap::new();
    let ghost all = texts(names@);
    for i in 0..names.len()
        invariant
            all == texts(names@),
            found.wf(),
            forall|k: Seq<char>| #[trigger] found@.dom().contains(k) == all.take(i as int).contains(k),
    {
        let ghost had = found@;
        found.insert(names[i].clone(), true);
        proof {
            let now = all.take(i + 1);
            assert(now =~= all.take(i as int).push(all[i as int]));
            assert forall|k: Seq<char>| #[trigger] found@.dom().contains(k) == now.contains(k) by {
                assert(had.dom().contains(k) == all.take(i as int).contains(k));
                if all.take(i as int).contains(k) {
                    let j = choose|j: int|
                        0 <= j < all.take(i as int).len() && all.take(i as int)[j] == k;
                    assert(now[j] == k);
                }
                if k == all[i as int] {
                    assert(now[i as int] == k);
                }
            }
        }
    }
    proof {
        assert(all.take(names@.len() as int) =~= all);
        found.lemma_entries();
    }
    let ghost p = found.entries();
    let mut out: Vec<String> = Vec::new();
    let n: usize = found.len();
    for i in 0..n
        invariant
            n == p.len(),
            found.wf(),
            p == found.entries(),
            texts(out@) == Seq::new(i as nat, |j: int| p[j].0),
    {
        let ghost had = texts(out@);
        out.push(found.key_at(i).clone());
        proof {
            assert(texts(out@) =~= had.push(p[i as int].0));
            assert(texts(out@) =~= Seq::new((i + 1) as nat, |j: int| p[j].0));
        }
    }
    proof {
        let q = texts(out@);
        assert forall|i: int, j: int| 0 <= i < j < q.len() implies before(
            #[trigger] q[i],
            #[trigger] q[j],
        ) by {
            assert(before(p[i].0, p[j].0));
        }
        assert forall|x: Seq<char>| #[trigger] q.contains(x) == all.contains(x) by {
            assert(found@.dom().contains(x) == all.contains(x));
            if q.contains(x) {
                let i = choose|i: int| 0 <= i < q.len() && q[i] == x;
                lemma_key_index(p, i);
            }
            if found@.dom().contains(x) {
                let i = index_of_key(p, x);
                assert(has_key(p, x));
                assert(q[i] == x);
            }
        }
        lemma_sorted_once(q, all);
    }
    out
}

/// The names of the placeholders of a text, in order, each once.
pub open spec fn variable_names(body: Seq<char>, start: Seq<char>, stop: Seq<char>) -> Seq<
    Seq<char>,
> {
    sorted_once(token_names(body, start, stop))
}

/// The names of the placeholders of a text are names, stand in order, and are those that occur.
pub proof fn law_variable_names(body: Seq<char>, start: Seq<char>, stop: Seq<char>)
    ensures
        rising(variable_names(body, start, stop)),
        same_members(variable_names(body, start, stop), token_names(body, start, stop)),
        forall|k: Seq<char>| #[trigger] variable_names(body, start, stop).contains(k) ==> is_name(k),
{
    lemma_sorted_once_of(token_names(body, start, stop));
    law_found_names_are_names(body, start, stop);
    let found = token_names(body, start, stop);
    assert forall|k: Seq<char>| #[trigger]
        variable_names(body, start, stop).contains(k) implies is_name(k) by {
        assert(found.contains(k));
        let i = choose|i: int| 0 <= i < found.len() && found[i] == k;
        assert(is_name(found[i]));
    }
}

/// The names of the placeholders of `body`, in order, each once; nothing where the pattern engine
/// refuses the delimiters for their size.
pub fn extract_variables(body: &str, metadata: &TemplateMetadata) -> (r: Option<Vec<String>>)
    ensures
        modest(metadata.token_start@, metadata.token_stop@) ==> r is Some,
        r matches Some(names) ==> texts(names@) == variable_names(
            body@,
            metadata.token_start@,
            metadata.token_stop@,
        ),
        r matches Some(names) ==> rising(texts(names@)),
{
    let mut pattern = escape(metadata.token_start.as_str());
    pattern.append(NAME_GROUP);
    pattern.append(escape(metadata.token_stop.as_str()).as_str());
    proof {
        assert(pattern@ == name_pattern(metadata.token_start@, metadata.token_stop@));
    }
    match captured_names(pattern.as_str(), body) {
        Some(names) => Some(distinct_sorted(&names)),
        None => None,
    }
}

/// The metadata of a variable, or its default where there is none.
pub open spec fn variable_or_default(
    variables: Map<Seq<char>, VariableView>,
    name: Seq<char>,
) -> VariableView {
    if variables.dom().contains(name) {
        variables[name]
    } else {
        default_of(name)
    }
}

/// The metadata of the variable `name`, or its default where there is none.
pub fn variable_metadata(variables: &StringMap<VariableMetadata>, name: &str) -> (r: VariableMetadata)
    requires
        variables.wf(),
    ensures
        r@ == variable_or_default(variables@, name@),
{
    match variables.get(name) {
        Some(meta) => meta.duplicate(),
        None => default_variable(name),
    }
}

// ---- loading ----

/// The metadata of the variables of a loaded template: those that occur are normalized.
pub open spec fn loaded_variables(
    variables: Map<Seq<char>, VariableView>,
    names: Seq<Seq<char>>,
) -> Map<Seq<char>, VariableView> {
    Map::new(
        |k: Seq<char>| variables.dom().contains(k),
        |k: Seq<char>|
            if names.contains(k) {
                normalized(k, variables[k])
            } else {
                variables[k]
            },
    )
}

/// A template of a text and its metadata, given the names of the placeholders of the text.
pub open spec fn loaded(
    id: Seq<char>,
    body: Seq<char>,
    m: MetadataView,
    names: Seq<Seq<char>>,
) -> TemplateView {
    TemplateView {
        id,
        body,
        metadata: MetadataView {
            variables: loaded_variables(m.variables, names),
            ..with_delimiters(m)
        },
        variables: names,
    }
}

/// The template of a text and its metadata, given the names of the placeholders of the text.
pub fn assemble_template(
    id: &str,
    body: String,
    metadata: TemplateMetadata,
    names: Vec<String>,
) -> (r: Template)
    requires
        metadata.variables.wf(),
    ensures
        r.wf(),
        r@ == loaded(id@, body@, metadata@, texts(names@)),
{
    let ghost m = metadata@;
    let ghost all = texts(names@);
    let mut metadata = metadata;
    normalize_template_metadata(&mut metadata);
    let TemplateMetadata { name, description, token_start, token_stop, variables } = metadata;
    let mut variables = variables;
    proof {
        assert(variables@ =~= loaded_variables(m.variables, all.take(0)));
    }
    for i in 0..names.len()
        invariant
            all == texts(names@),
            variables.wf(),
            variables@ == loaded_variables(m.variables, all.take(i as int)),
    {
        let ghost seen = all.take(i as int);
        let ghost now = all.take(i + 1);
        let ghost k = all[i as int];
        let ghost had = variables@;
        proof {
            assert(now =~= seen.push(k));
            assert forall|x: Seq<char>| #[trigger] now.contains(x) == (seen.contains(x) || x == k) by {
                if seen.contains(x) {
                    let j = choose|j: int| 0 <= j < seen.len() && seen[j] == x;
                    assert(now[j] == x);
                }
                if x == k {
                    assert(now[i as int] == x);
                }
            }
        }
        let found: Option<VariableMetadata> = match variables.get(names[i].as_str()) {
            Some(meta) => Some(meta.duplicate()),
            None => None,
        };
        if let Some(meta) = found {
            let mut meta = meta;
            normalize_variable_metadata(names[i].as_str(), &mut meta);
            variables.insert(names[i].clone(), meta);
            proof {
                if seen.contains(k) {
                    lemma_normalized_idempotent(k, m.variables[k]);
                }
            }
        }
        proof {
            assert(variables@ =~= loaded_variables(m.variables, now));
        }
    }
    proof {
        assert(all.take(names@.len() as int) =~= all);
    }
    Template {
        id: id.to_string(),
        body,
        metadata: TemplateMetadata { name, description, token_start, token_stop, variables },
        variables: names,
    }
}

/// Normalizing the metadata of a variable twice is the same as once.
pub proof fn lemma_normalized_idempotent(name: Seq<char>, v: VariableView)
    ensures
        normalized(name, normalized(name, v)) == normalized(name, v),
{
}

/// The template of a text and its metadata as they were read; nothing where the pattern engine
/// refuses the delimiters for their size.
pub fn load_template(id: &str, body: String, metadata: TemplateMetadata) -> (r: Option<Template>)
    requires
        metadata.variables.wf(),
    ensures
        modest(delimiter(metadata.token_start@), delimiter(metadata.token_stop@)) ==> r is Some,
        r matches Some(t) ==> t.wf() && t@ == loaded(
            id@,
            body@,
            metadata@,
            variable_names(body@, delimiter(metadata.token_start@), delimiter(metadata.token_stop@)),
        ),
        r matches Some(t) ==> rising(texts(t.variables@)),
{
    let mut metadata = metadata;
    let ghost m = metadata@;
    normalize_template_metadata(&mut metadata);
    match extract_variables(body.as_str(), &metadata) {
        Some(names) => {
            let t = assemble_template(id, body, metadata, names);
            proof {
                assert(with_delimiters(with_delimiters(m)) == with_delimiters(m)) by {
                    reveal_strlit("%");
                }
            }
            Some(t)
        },
        None => None,
    }
}

// ---- synchronizing ----

/// The metadata brought in line with the names of the placeholders: exactly the names that occur
/// and are not reserved have metadata, which is normalized, and is the default where it is new.
pub open spec fn synced(m: MetadataView, names: Seq<Seq<char>>) -> MetadataView {
    MetadataView {
        variables: Map::new(
            |k: Seq<char>| names.contains(k) && !reserved(k),
            |k: Seq<char>| normalized(k, variable_or_default(m.variables, k)),
        ),
        ..with_delimiters(m)
    }
}

/// Brings the metadata in line with the names of the placeholders.
pub fn sync_variables(metadata: &mut TemplateMetadata, names: &Vec<String>)
    requires
        old(metadata).variables.wf(),
    ensures
        final(metadata).variables.wf(),
        final(metadata)@ == synced(old(metadata)@, texts(names@)),
{
    let ghost m = metadata@;
    let ghost all = texts(names@);
    normalize_template_metadata(metadata);
    let mut variables: StringMap<VariableMetadata> = StringMap::new();
    proof {
        assert(variables@ =~= synced(m, all.take(0)).variables);
    }
    for i in 0..names.len()
        invariant
            all == texts(names@),
            metadata.variables.wf(),
            metadata.variables@ == m.variables,
            variables.wf(),
            variables@ == synced(m, all.take(i as int)).variables,
    {
        let ghost seen = all.take(i as int);
        let ghost now = all.take(i + 1);
        let ghost k = all[i as int];
        proof {
            assert(now =~= seen.push(k));
            assert forall|x: Seq<char>| #[trigger] now.contains(x) == (seen.contains(x) || x == k) by {
                if seen.contains(x) {
                    let j = choose|j: int| 0 <= j < seen.len() && seen[j] == x;
                    assert(now[j] == x);
                }
                if x == k {
                    assert(now[i as int] == x);
                }
            }
        }
        if !is_reserved(names[i].as_str()) {
            let mut meta = variable_metadata(&metadata.variables, names[i].as_str());
            normalize_variable_metadata(names[i].as_str(), &mut meta);
            variables.insert(names[i].clone(), meta);
        }
        proof {
            assert(variables@ =~= synced(m, now).variables);
        }
    }
    proof {
        assert(all.take(names@.len() as int) =~= all);
    }
    metadata.variables = variables;
}

/// Brings the metadata in line with the placeholders of `body`. Where the pattern engine refuses
/// the delimiters for their size, says so and changes nothing.
pub fn sync_metadata_with_body(body: &str, metadata: &mut TemplateMetadata) -> (done: bool)
    requires
        old(metadata).variables.wf(),
    ensures
        modest(
            delimiter(old(metadata).token_start@),
            delimiter(old(metadata).token_stop@),
        ) ==> done,
        final(metadata).variables.wf(),
        done ==> final(metadata)@ == synced(
            old(metadata)@,
            variable_names(
                body@,
                delimiter(old(metadata).token_start@),
                delimiter(old(metadata).token_stop@),
            ),
        ),
        !done ==> *final(metadata) == *old(metadata),
{
    let start = if metadata.token_start.as_str().is_empty() {
        default_token_start()
    } else {
        metadata.token_start.clone()
    };
    let stop = if metadata.token_stop.as_str().is_empty() {
        default_token_stop()
    } else {
        metadata.token_stop.clone()
    };
    let delimited = TemplateMetadata {
        name: String::new(),
        description: String::new(),
        token_start: start,
        token_stop: stop,
        variables: StringMap::new(),
    };
    match extract_variables(body, &delimited) {
        Some(names) => {
            sync_variables(metadata, &names);
            true
        },
        None => false,
    }
}

// ---- definitions ----

/// What is wrong with the first of the entries with which something is wrong.
pub open spec fn first_definition_error(p: Seq<(Seq<char>, VariableView)>) -> Option<Seq<char>>
    decreases p.len(),
{
    if p.len() == 0 {
        None
    } else {
        match definition_error(p[0].0, p[0].1) {
            Some(e) => Some(e),
            None => first_definition_error(p.skip(1)),
        }
    }
}

/// Whether the metadata of every variable makes sense, and what is wrong with the first one, in
/// the order of the names, where it does not.
pub fn validate_variable_definitions(metadata: &TemplateMetadata) -> (r: Result<(), String>)
    requires
        metadata.variables.wf(),
    ensures
        error_text(r) == first_definition_error(ordered(metadata@.variables)),
{
    let ghost p = metadata.variables.entries();
    proof {
        metadata.variables.lemma_entries();
        assert(p.skip(0) =~= p);
    }
    let n: usize = metadata.variables.len();
    for i in 0..n
        invariant
            n == p.len(),
            metadata.variables.wf(),
            p == metadata.variables.entries(),
            p == ordered(metadata@.variables),
            first_definition_error(p.skip(i as int)) == first_definition_error(p),
    {
        proof {
            assert(p.skip(i as int).skip(1) =~= p.skip(i + 1));
        }
        match validate_definition(
            metadata.variables.key_at(i).as_str(),
            metadata.variables.value_at(i),
        ) {
            Ok(_) => {},
            Err(err) => return Err(err),
        }
    }
    Ok(())
}

/// Both delimiters are needed; the start is looked at first.
pub proof fn law_missing_delimiters(m: MetadataView)
    ensures
        delimiter_error(m) is None <==> m.token_start.len() > 0 && m.token_stop.len() > 0,
        m.token_start.len() == 0 ==> delimiter_error(m) == Some("token start is required"@),
        m.token_start.len() > 0 && m.token_stop.len() == 0 ==> delimiter_error(m) == Some(
            "token stop is required"@,
        ),
{
}

/// Exactly three names are filled with certificates and keys.
pub proof fn law_reserved_names(s: Seq<char>)
    ensures
        reserved(s) <==> (s == "ca_cert"@ || s == "client_cert"@ || s == "client_key"@),
{
}

/// Texts put in order, each once: every text that occurs is among them and no other, and each
/// comes before those behind it.
pub proof fn law_sorted_once(names: Seq<Seq<char>>)
    ensures
        forall|i: int|
            0 <= i < names.len() ==> sorted_once(names).contains(#[trigger] names[i]),
        forall|i: int|
            0 <= i < sorted_once(names).len() ==> names.contains(#[trigger] sorted_once(names)[i]),
        forall|i: int, j: int|
            0 <= i < j < sorted_once(names).len() ==> before(
                #[trigger] sorted_once(names)[i],
                #[trigger] sorted_once(names)[j],
            ),
{
    lemma_sorted_once_of(names);
    let q = sorted_once(names);
    assert forall|i: int| 0 <= i < names.len() implies q.contains(#[trigger] names[i]) by {
        assert(names.contains(names[i]));
    }
    assert forall|i: int| 0 <= i < q.len() implies names.contains(#[trigger] q[i]) by {
        assert(q.contains(q[i]));
    }
}

/// A template is shown to the contracts as it is, field by field.
pub proof fn law_templates_as_texts(t: Template)
    ensures
        t@.id == t.id@,
        t@.body == t.body@,
        t@.variables == texts(t.variables@),
        t@.metadata.name == t.metadata.name@,
        t@.metadata.description == t.metadata.description@,
        t@.metadata.token_start == t.metadata.token_start@,
        t@.metadata.token_stop == t.metadata.token_stop@,
        t@.metadata.variables == t.metadata.variables@,
{
}

} // verus!
