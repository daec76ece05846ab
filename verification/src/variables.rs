//! The variables of a template: what is known of each, and which values it takes.
use vstd::prelude::*;

use crate::number::{all_digits, digits_value, integer_text, parse_i64, parsed_i64, signed_decimal};
use crate::text::{
    all_trimmed, blank, ends_with, has_suffix, is_blank, join, joined, law_split_undoes_join,
    lemma_non_empty_all, lemma_non_empty_parts, lemma_split, lemma_split_append,
    lemma_split_whole, lemma_trimmed_chars, lemma_trimmed_idempotent, non_empty, same_text, split,
    split_text, texts, trim, trimmed, white_space,
};

verus! {

/// How a variable is entered.
#[derive(Debug, Clone, Copy, PartialEq, Eq, Structural)]
pub enum VariableKind {
    Text,
    Number,
    Textarea,
    DropdownCsv,
}

/// What is known of a variable.
#[derive(Debug, PartialEq, Eq)]
pub struct VariableMetadata {
    pub kind: VariableKind,
    pub description: String,
    pub default: String,
    pub options: String,
    pub min: Option<i64>,
    pub max: Option<i64>,
    pub required: bool,
}

/// What is known of a variable, as texts and numbers.
pub struct VariableView {
    pub kind: VariableKind,
    pub description: Seq<char>,
    pub default: Seq<char>,
    pub options: Seq<char>,
    pub min: Option<i64>,
    pub max: Option<i64>,
    pub required: bool,
}

impl View for VariableMetadata {
    type V = VariableView;

    open spec fn view(&self) -> VariableView {
        VariableView {
            kind: self.kind,
            description: self.description@,
            default: self.default@,
            options: self.options@,
            min: self.min,
            max: self.max,
            required: self.required,
        }
    }
}

impl VariableMetadata {
    /// The same knowledge once more.
    pub fn duplicate(&self) -> (r: VariableMetadata)
        ensures
            r@ == self@,
    {
        VariableMetadata {
            kind: self.kind,
            description: self.description.clone(),
            default: self.default.clone(),
            options: self.options.clone(),
            min: self.min,
            max: self.max,
            required: self.required,
        }
    }
}

/// A variable is required unless its metadata says otherwise.
pub fn default_true() -> (r: bool)
    ensures
        r,
{
    true
}

// ---- lists of options ----

/// The items of a comma-separated list: trimmed, without the empty ones.
pub open spec fn csv_items(s: Seq<char>) -> Seq<Seq<char>> {
    non_empty(all_trimmed(split(s, ',')))
}

/// The items of a comma-separated list, trimmed, without the empty ones.
pub fn parse_csv(value: &str) -> (r: Vec<String>)
    ensures
        texts(r@) == csv_items(value@),
{
    let parts = split_text(value, ',');
    let ghost all = all_trimmed(texts(parts@));
    let mut out: Vec<String> = Vec::new();
    proof {
        assert(texts(out@) =~= non_empty(all.take(0)));
    }
    for i in 0..parts.len()
        invariant
            all == all_trimmed(texts(parts@)),
            texts(out@) == non_empty(all.take(i as int)),
    {
        let item = trim(parts[i].as_str());
        proof {
            assert(all.take(i + 1).drop_last() =~= all.take(i as int));
            assert(all.take(i + 1).last() == item@);
        }
        if !item.as_str().is_empty() {
            let ghost had = texts(out@);
            let ghost it = item@;
            out.push(item);
            proof {
                assert(texts(out@) =~= had.push(it));
            }
        }
    }
    proof {
        assert(all.take(parts@.len() as int) =~= all);
    }
    out
}

/// Whether `value` is among the strings.
pub fn contains_text(items: &Vec<String>, value: &str) -> (r: bool)
    ensures
        r == texts(items@).contains(value@),
{
    for i in 0..items.len()
        invariant
            forall|j: int| 0 <= j < i ==> texts(items@)[j] != value@,
    {
        if same_text(items[i].as_str(), value) {
            proof {
                assert(texts(items@)[i as int] == value@);
            }
            return true;
        }
    }
    false
}

// ---- defaults ----

/// What is known of a variable of which only the name is known.
pub open spec fn default_of(name: Seq<char>) -> VariableView {
    if name == "proto"@ {
        VariableView {
            kind: VariableKind::DropdownCsv,
            description: "VPN transport protocol"@,
            default: "udp"@,
            options: "tcp,udp"@,
            min: None,
            max: None,
            required: true,
        }
    } else if ends_with(name, "port"@) {
        VariableView {
            kind: VariableKind::Number,
            description: "Port for "@ + name,
            default: "1194"@,
            options: Seq::empty(),
            min: Some(1),
            max: Some(65535),
            required: true,
        }
    } else {
        VariableView {
            kind: VariableKind::Text,
            description: "Value for "@ + name,
            default: Seq::empty(),
            options: Seq::empty(),
            min: None,
            max: None,
            required: true,
        }
    }
}

/// What is assumed of a variable by its name: `proto` is a choice of protocols, a name that ends
/// with `port` is a port number, any other name is a text.
pub fn default_variable(name: &str) -> (r: VariableMetadata)
    ensures
        r@ == default_of(name@),
{
    if same_text(name, "proto") {
        return VariableMetadata {
            kind: VariableKind::DropdownCsv,
            description: "VPN transport protocol".to_string(),
            default: "udp".to_string(),
            options: "tcp,udp".to_string(),
            min: None,
            max: None,
            required: true,
        };
    }
    if has_suffix(name, "port") {
        let mut description = "Port for ".to_string();
        description.append(name);
        return VariableMetadata {
            kind: VariableKind::Number,
            description,
            default: "1194".to_string(),
            options: String::new(),
            min: Some(1),
            max: Some(65535),
            required: true,
        };
    }
    let mut description = "Value for ".to_string();
    description.append(name);
    VariableMetadata {
        kind: VariableKind::Text,
        description,
        default: String::new(),
        options: String::new(),
        min: None,
        max: None,
        required: true,
    }
}

/// The metadata is that of a text variable which nobody has described.
pub open spec fn undescribed(name: Seq<char>, v: VariableView) -> bool {
    &&& v.description == "Value for "@ + name
    &&& v.kind == VariableKind::Text
    &&& v.default.len() == 0
    &&& v.options.len() == 0
}

/// The metadata of `name`, with the default where nobody has described a protocol or a port.
pub open spec fn normalized(name: Seq<char>, v: VariableView) -> VariableView {
    if undescribed(name, v) && (name == "proto"@ || (ends_with(name, "port"@) && v.min is None
        && v.max is None)) {
        default_of(name)
    } else {
        v
    }
}

/// Gives a protocol or a port that nobody has described its default metadata.
pub fn normalize_variable_metadata(name: &str, meta: &mut VariableMetadata)
    ensures
        final(meta)@ == normalized(name@, old(meta)@),
{
    let mut undescribed_text = "Value for ".to_string();
    undescribed_text.append(name);
    let untouched: bool = meta.description == undescribed_text && meta.kind == VariableKind::Text
        && meta.default.as_str().is_empty() && meta.options.as_str().is_empty();
    if untouched && (same_text(name, "proto") || (has_suffix(name, "port") && meta.min.is_none()
        && meta.max.is_none())) {
        *meta = default_variable(name);
    }
}

// ---- values ----

/// The value is a number or has to lie in a range.
pub open spec fn numeric(v: VariableView) -> bool {
    v.kind == VariableKind::Number || v.min is Some || v.max is Some
}

/// What is wrong with a value of the variable `name`, if anything. A blank value is never wrong.
pub open spec fn value_error(name: Seq<char>, v: VariableView, value: Seq<char>) -> Option<
    Seq<char>,
> {
    let options = csv_items(v.options);
    if blank(value) {
        None
    } else if v.kind == VariableKind::DropdownCsv && options.len() > 0 && !options.contains(value) {
        Some(name + " must be one of: "@ + joined(options, ", "@))
    } else if numeric(v) {
        match parsed_i64(trimmed(value)) {
            None => Some(name + " must be a number"@),
            Some(n) => if v.min is Some && n < v.min->0 {
                Some(name + " must be at least "@ + signed_decimal(v.min->0 as int))
            } else if v.max is Some && n > v.max->0 {
                Some(name + " must be at most "@ + signed_decimal(v.max->0 as int))
            } else {
                None
            },
        }
    } else {
        None
    }
}

/// The text of an error, if there is one.
pub open spec fn error_text(r: Result<(), String>) -> Option<Seq<char>> {
    match r {
        Ok(_) => None,
        Err(e) => Some(e@),
    }
}

/// Whether the variable `var` takes `value`, and what is wrong where it does not.
pub fn validate_variable_value(var: &str, meta: &VariableMetadata, value: &str) -> (r: Result<
    (),
    String,
>)
    ensures
        error_text(r) == value_error(var@, meta@, value@),
{
    if is_blank(value) {
        return Ok(());
    }
    if meta.kind == VariableKind::DropdownCsv {
        let options = parse_csv(meta.options.as_str());
        if options.len() > 0 && !contains_text(&options, value) {
            let mut message = var.to_string();
            message.append(" must be one of: ");
            message.append(join(&options, ", ").as_str());
            return Err(message);
        }
    }
    if meta.kind == VariableKind::Number || meta.min.is_some() || meta.max.is_some() {
        match parse_i64(trim(value).as_str()) {
            None => {
                let mut message = var.to_string();
                message.append(" must be a number");
                return Err(message);
            },
            Some(parsed) => {
                if let Some(min) = meta.min {
                    if parsed < min {
                        let mut message = var.to_string();
                        message.append(" must be at least ");
                        message.append(integer_text(min).as_str());
                        return Err(message);
                    }
                }
                if let Some(max) = meta.max {
                    if parsed > max {
                        let mut message = var.to_string();
                        message.append(" must be at most ");
                        message.append(integer_text(max).as_str());
                        return Err(message);
                    }
                }
            },
        }
    }
    Ok(())
}

// ---- definitions ----

/// What is wrong with the metadata of the variable `name`, if anything: a range that holds
/// nothing, a choice without options, a default that the variable does not take.
pub open spec fn definition_error(name: Seq<char>, v: VariableView) -> Option<Seq<char>> {
    if v.min is Some && v.max is Some && v.min->0 > v.max->0 {
        Some(name + " has min greater than max"@)
    } else if v.kind == VariableKind::DropdownCsv && csv_items(v.options).len() == 0 {
        Some(name + " dropdown requires options"@)
    } else {
        match value_error(name, v, v.default) {
            Some(e) => Some(name + " default is invalid: "@ + e),
            None => None,
        }
    }
}

/// Whether the metadata of the variable `var` makes sense, and what is wrong where it does not.
pub fn validate_definition(var: &str, meta: &VariableMetadata) -> (r: Result<(), String>)
    ensures
        error_text(r) == definition_error(var@, meta@),
{
    if let Some(min) = meta.min {
        if let Some(max) = meta.max {
            if min > max {
                let mut message = var.to_string();
                message.append(" has min greater than max");
                return Err(message);
            }
        }
    }
    if meta.kind == VariableKind::DropdownCsv && parse_csv(meta.options.as_str()).len() == 0 {
        let mut message = var.to_string();
        message.append(" dropdown requires options");
        return Err(message);
    }
    match validate_variable_value(var, meta, meta.default.as_str()) {
        Ok(_) => Ok(()),
        Err(err) => {
            let mut message = var.to_string();
            message.append(" default is invalid: ");
            message.append(err.as_str());
            Err(message)
        },
    }
}

// ---- laws ----

/// The items of a list are trimmed, not empty, and hold no comma.
pub proof fn law_csv_items(s: Seq<char>)
    ensures
        forall|i: int|
            0 <= i < csv_items(s).len() ==> {
                &&& (#[trigger] csv_items(s)[i]).len() > 0
                &&& trimmed(csv_items(s)[i]) == csv_items(s)[i]
                &&& !csv_items(s)[i].contains(',')
            },
{
    let parts = split(s, ',');
    let all = all_trimmed(parts);
    lemma_split(s, ',');
    lemma_non_empty_parts(all);
    assert forall|i: int| 0 <= i < csv_items(s).len() implies {
        &&& (#[trigger] csv_items(s)[i]).len() > 0
        &&& trimmed(csv_items(s)[i]) == csv_items(s)[i]
        &&& !csv_items(s)[i].contains(',')
    } by {
        let item = csv_items(s)[i];
        let j = choose|j: int| 0 <= j < all.len() && all[j] == item;
        assert(item == trimmed(parts[j]));
        lemma_trimmed_idempotent(parts[j]);
        if item.contains(',') {
            lemma_trimmed_chars(parts[j], ',');
        }
    }
}

/// A list that is written with commas between its items is read back as it was.
pub proof fn law_csv_round_trip(s: Seq<char>)
    ensures
        csv_items(joined(csv_items(s), ","@)) == csv_items(s),
{
    let items = csv_items(s);
    law_csv_items(s);
    reveal_strlit(",");
    assert(","@ =~= seq![',']);
    if items.len() == 0 {
        let none = Seq::<char>::empty();
        assert(joined(items, ","@) =~= none);
        assert forall|i: int| 0 <= i < none.len() implies none[i] != ',' by {}
        lemma_split_whole(none, ',');
        assert(all_trimmed(seq![none]) =~= seq![none]);
        assert(seq![none].drop_last() =~= Seq::empty());
        reveal_with_fuel(non_empty, 2);
        assert(non_empty(seq![none]) =~= items);
    } else {
        assert forall|i: int| 0 <= i < items.len() implies !(#[trigger] items[i]).contains(',') by {}
        law_split_undoes_join(items, ',');
        assert(all_trimmed(items) =~= items);
        lemma_non_empty_all(items);
    }
}

/// An accepted value that is not blank, of a variable that takes numbers, is a number in the
/// range.
pub proof fn law_accepted_numbers_are_in_range(name: Seq<char>, v: VariableView, value: Seq<char>)
    requires
        value_error(name, v, value) is None,
        !blank(value),
        numeric(v),
    ensures
        parsed_i64(trimmed(value)) matches Some(n) && (v.min is Some ==> v.min->0 <= n) && (
        v.max is Some ==> n <= v.max->0),
{
}

/// An accepted value that is not blank, of a variable with options, is one of the options.
pub proof fn law_accepted_choices_are_options(name: Seq<char>, v: VariableView, value: Seq<char>)
    requires
        value_error(name, v, value) is None,
        !blank(value),
        v.kind == VariableKind::DropdownCsv,
        csv_items(v.options).len() > 0,
    ensures
        csv_items(v.options).contains(value),
{
}

/// What is assumed of a variable by its name makes sense: its default is a value it takes.
pub proof fn law_defaults_make_sense(name: Seq<char>)
    ensures
        definition_error(name, default_of(name)) is None,
        value_error(name, default_of(name), default_of(name).default) is None,
{
    if name == "proto"@ {
        reveal_strlit("tcp,udp");
        reveal_strlit("udp");
        let tcp = "tcp,udp"@.take(3);
        let udp = "udp"@;
        assert("tcp,udp"@ =~= tcp + seq![','] + udp);
        lemma_split_append(tcp, udp, ',');
        lemma_split_whole(tcp, ',');
        let parts = seq![tcp] + seq![udp];
        assert(split("tcp,udp"@, ',') == parts);
        assert(!white_space(tcp[0]) && !white_space(tcp[2]));
        assert(!white_space(udp[0]) && !white_space(udp[2]));
        assert(trimmed(tcp) == tcp);
        assert(trimmed(udp) == udp);
        assert(all_trimmed(parts) =~= parts);
        lemma_non_empty_all(parts);
        assert(csv_items("tcp,udp"@) == parts);
        assert(parts[1] == udp);
    } else if ends_with(name, "port"@) {
        reveal_strlit("1194");
        let s = "1194"@;
        assert(!white_space(s[0]) && !white_space(s[3]));
        assert(trimmed(s) == s);
        reveal_with_fuel(digits_value, 5);
        assert(all_digits(s));
        assert(s.drop_last().last() == '9');
        assert(s.drop_last().drop_last().last() == '1');
        assert(s.drop_last().drop_last().drop_last().last() == '1');
        assert(digits_value(s) == 1194);
    }
}

/// The metadata of a variable is shown to the contracts as it is, field by field.
pub proof fn law_variables_as_texts(v: VariableMetadata)
    ensures
        v@.kind == v.kind,
        v@.description == v.description@,
        v@.default == v.default@,
        v@.options == v.options@,
        v@.min == v.min,
        v@.max == v.max,
        v@.required == v.required,
{
}

} // verus!
