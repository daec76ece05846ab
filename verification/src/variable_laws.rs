//! What is known of variables, and which values they take, said of the metadata and the values
//! themselves.
use vstd::prelude::*;

use crate::number::{
    all_digits, decimal, denoted, digits_value, is_digit, law_number_round_trip,
    lemma_decimal_digits, parsed_i64, signed_decimal,
};
use crate::templates::{
    delimiter, first_definition_error, loaded, loaded_variables, reserved, synced,
    variable_or_default, with_delimiters, MetadataView,
};
use crate::text::{
    all_trimmed, blank, ends_with, joined, law_split_undoes_join, trimmed, white_space,
};
use crate::text_laws::{law_beginnings_and_ends, law_non_empty, law_trimming};
use crate::variables::{
    csv_items, default_of, definition_error, normalized, value_error, VariableKind, VariableView,
};

verus! {

// ---- lists of options ----

/// A list that was written with commas is read as all of its texts, each trimmed, without those
/// of which nothing is left.
pub proof fn law_csv_holds_every_item(parts: Seq<Seq<char>>)
    requires
        parts.len() > 0,
        forall|i: int| 0 <= i < parts.len() ==> !(#[trigger] parts[i]).contains(','),
    ensures
        csv_items(joined(parts, seq![','])) == parts.map_values(
            |p: Seq<char>| trimmed(p),
        ).filter(|p: Seq<char>| p.len() > 0),
{
    law_split_undoes_join(parts, ',');
    assert(all_trimmed(parts) =~= parts.map_values(|p: Seq<char>| trimmed(p)));
    law_non_empty(all_trimmed(parts));
}

// ---- numbers ----

/// The notation of a natural number: one digit below ten, and else the notation of the tenth part
/// with the last digit behind it.
pub proof fn law_decimal_notation(n: nat, d: nat)
    requires
        d < 10,
    ensures
        decimal(d).len() == 1,
        decimal(d)[0] as int == '0' as int + d,
        n > 0 ==> decimal(n * 10 + d) == decimal(n) + decimal(d),
{
    if n > 0 {
        assert((n * 10 + d) / 10 == n);
        assert((n * 10 + d) % 10 == d);
        assert(decimal(n * 10 + d) =~= decimal(n) + decimal(d));
    }
}

/// A text denotes a number if and only if it is a row of digits, alone or behind one sign; a digit
/// more at the end makes the number ten times as large and adds the digit.
pub proof fn law_denoted_numbers(s: Seq<char>, c: char)
    requires
        s.len() > 0,
        forall|i: int| 0 <= i < s.len() ==> '0' <= #[trigger] s[i] <= '9',
    ensures
        '0' <= c <= '9' ==> denoted(seq![c]) == Some(c as int - '0' as int),
        '0' <= c <= '9' ==> (denoted(s) matches Some(n) && denoted(s.push(c)) == Some(
            n * 10 + (c as int - '0' as int),
        )),
        !('0' <= c <= '9') ==> denoted(s.push(c)) is None,
        denoted(seq!['+'] + s) == denoted(s),
        denoted(s) matches Some(n) && denoted(seq!['-'] + s) == Some(-n),
        c != '+' && c != '-' && !('0' <= c <= '9') ==> denoted(seq![c] + s) is None,
        denoted(Seq::<char>::empty()) is None,
{
    assert(is_digit(s[0]));
    assert(all_digits(s));
    let one = seq![c];
    assert(one.drop_last() =~= Seq::<char>::empty());
    reveal_with_fuel(digits_value, 2);
    if '0' <= c <= '9' {
        assert(all_digits(one));
        assert(digits_value(one) == c as nat - 48);
    }
    let more = s.push(c);
    assert(more.drop_last() =~= s);
    assert(more[0] == s[0]);
    if '0' <= c <= '9' {
        assert forall|i: int| 0 <= i < more.len() implies is_digit(#[trigger] more[i]) by {
            if i < s.len() {
                assert(more[i] == s[i]);
            }
        }
        assert(all_digits(more));
    } else {
        assert(!is_digit(more[s.len() as int]));
        assert(!all_digits(more));
    }
    assert((seq!['+'] + s).skip(1) =~= s);
    assert((seq!['-'] + s).skip(1) =~= s);
    assert((seq!['+'] + s)[0] == '+' && (seq!['-'] + s)[0] == '-');
    let led = seq![c] + s;
    assert(led[0] == c);
    if c != '+' && c != '-' && !('0' <= c <= '9') {
        assert(!is_digit(led[0]));
    }
}

/// Of the numbers that texts denote, exactly those of 64 bits are taken.
pub proof fn law_numbers_of_64_bits(s: Seq<char>)
    ensures
        parsed_i64(s) is Some <==> (denoted(s) matches Some(n) && -0x8000_0000_0000_0000 <= n
            <= 0x7fff_ffff_ffff_ffff),
        parsed_i64(s) is Some ==> parsed_i64(s) == denoted(s),
{
}

// ---- values ----

/// The variable is a choice among options.
pub open spec fn choice_among(v: VariableView) -> bool {
    v.kind == VariableKind::DropdownCsv && csv_items(v.options).len() > 0
}

/// The variable takes numbers only, for it is one or has a bound.
pub open spec fn takes_numbers(v: VariableView) -> bool {
    v.kind == VariableKind::Number || v.min is Some || v.max is Some
}

/// The number keeps to the bounds of the variable.
pub open spec fn within(v: VariableView, n: int) -> bool {
    (v.min matches Some(low) ==> low <= n) && (v.max matches Some(high) ==> n <= high)
}

/// A value is accepted if and only if it is blank, or it is one of the options where there are
/// some, and a number within the bounds where a number is asked.
pub proof fn law_values_that_are_accepted(name: Seq<char>, v: VariableView, value: Seq<char>)
    ensures
        value_error(name, v, value) is None <==> {
            ||| forall|i: int| 0 <= i < value.len() ==> white_space(#[trigger] value[i])
            ||| {
                &&& choice_among(v) ==> csv_items(v.options).contains(value)
                &&& takes_numbers(v) ==> (parsed_i64(trimmed(value)) matches Some(n) && within(
                    v,
                    n,
                ))
            }
        },
{
}

/// Every option of a choice without bounds is accepted, whatever its default, its description and
/// whether it is required.
pub proof fn law_every_option_is_accepted(name: Seq<char>, v: VariableView, i: int)
    requires
        v.kind == VariableKind::DropdownCsv,
        v.min is None,
        v.max is None,
        0 <= i < csv_items(v.options).len(),
    ensures
        value_error(name, v, csv_items(v.options)[i]) is None,
{
    assert(csv_items(v.options).contains(csv_items(v.options)[i]));
}

/// Every number within the bounds is accepted, with white space around it or without; every
/// number outside them is refused, and so is what is not a number.
pub proof fn law_numbers_within_bounds_are_accepted(
    name: Seq<char>,
    v: VariableView,
    n: i64,
    lead: Seq<char>,
    trail: Seq<char>,
)
    requires
        takes_numbers(v),
        !choice_among(v),
        forall|i: int| 0 <= i < lead.len() ==> white_space(#[trigger] lead[i]),
        forall|i: int| 0 <= i < trail.len() ==> white_space(#[trigger] trail[i]),
    ensures
        value_error(name, v, lead + signed_decimal(n as int) + trail) is None <==> within(
            v,
            n as int,
        ),
        v.min is Some && n < v.min->0 ==> value_error(
            name,
            v,
            lead + signed_decimal(n as int) + trail,
        ) == Some(name + " must be at least "@ + signed_decimal(v.min->0 as int)),
        (v.min is Some ==> v.min->0 <= n) && v.max is Some && n > v.max->0 ==> value_error(
            name,
            v,
            lead + signed_decimal(n as int) + trail,
        ) == Some(name + " must be at most "@ + signed_decimal(v.max->0 as int)),
{
    let digits = signed_decimal(n as int);
    let value = lead + digits + trail;
    law_number_round_trip(n);
    if n < 0 {
        lemma_decimal_digits((-n) as nat);
        assert(digits[0] == '-');
        assert(digits.last() == decimal((-n) as nat).last());
        assert(is_digit(decimal((-n) as nat)[decimal((-n) as nat).len() - 1]));
    } else {
        lemma_decimal_digits(n as nat);
        assert(is_digit(digits[0]) && is_digit(digits[digits.len() - 1]));
    }
    assert(!white_space(digits[0]) && !white_space(digits[digits.len() - 1]));
    law_trimming(lead, digits, trail);
    assert(value[lead.len() as int] == digits[0]);
    assert(!blank(value));
}

/// A text or a text area without bounds takes any value.
pub proof fn law_texts_take_any_value(name: Seq<char>, v: VariableView, value: Seq<char>)
    requires
        v.kind == VariableKind::Text || v.kind == VariableKind::Textarea,
        v.min is None,
        v.max is None,
    ensures
        value_error(name, v, value) is None,
{
}

/// Which values are taken depends on the kind, the options and the bounds alone.
pub proof fn law_what_decides_on_values(
    name: Seq<char>,
    v: VariableView,
    w: VariableView,
    value: Seq<char>,
)
    requires
        v.kind == w.kind,
        v.options == w.options,
        v.min == w.min,
        v.max == w.max,
    ensures
        value_error(name, v, value) == value_error(name, w, value),
{
}

/// What is said of a value that is not blank: that it is none of the options, where it is none,
/// and else that it is no number, where a number is asked and it is none.
pub proof fn law_what_is_said_of_values(name: Seq<char>, v: VariableView, value: Seq<char>, i: int)
    requires
        0 <= i < value.len(),
        !white_space(value[i]),
    ensures
        choice_among(v) && !csv_items(v.options).contains(value) ==> value_error(name, v, value)
            == Some(name + " must be one of: "@ + joined(csv_items(v.options), ", "@)),
        (choice_among(v) ==> csv_items(v.options).contains(value)) && takes_numbers(v)
            && parsed_i64(trimmed(value)) is None ==> value_error(name, v, value) == Some(
            name + " must be a number"@,
        ),
{
    assert(!blank(value));
}

// ---- definitions ----

/// The metadata of a variable makes sense if and only if its bounds leave a number, a choice has
/// options, and the default is a value that the variable takes.
pub proof fn law_definitions_that_make_sense(name: Seq<char>, v: VariableView)
    ensures
        definition_error(name, v) is None <==> {
            &&& v.min is Some && v.max is Some ==> v.min->0 <= v.max->0
            &&& v.kind == VariableKind::DropdownCsv ==> csv_items(v.options).len() > 0
            &&& value_error(name, v, v.default) is None
        },
        v.min is Some && v.max is Some && v.min->0 > v.max->0 ==> definition_error(name, v) == Some(
            name + " has min greater than max"@,
        ),
        !(v.min is Some && v.max is Some && v.min->0 > v.max->0) && v.kind
            == VariableKind::DropdownCsv && csv_items(v.options).len() == 0 ==> definition_error(
            name,
            v,
        ) == Some(name + " dropdown requires options"@),
        !(v.min is Some && v.max is Some && v.min->0 > v.max->0) && (v.kind
            == VariableKind::DropdownCsv ==> csv_items(v.options).len() > 0) && value_error(
            name,
            v,
            v.default,
        ) is Some ==> definition_error(name, v) == Some(
            name + " default is invalid: "@ + value_error(name, v, v.default)->0,
        ),
{
}

/// Metadata makes sense as a whole if and only if that of each variable does; else what is said is
/// said of one variable, and nothing is wrong with those before it.
pub proof fn law_first_definition_error(p: Seq<(Seq<char>, VariableView)>)
    ensures
        first_definition_error(p) is None <==> forall|i: int|
            0 <= i < p.len() ==> definition_error((#[trigger] p[i]).0, p[i].1) is None,
        first_definition_error(p) matches Some(e) ==> exists|i: int|
            0 <= i < p.len() && definition_error((#[trigger] p[i]).0, p[i].1) == Some(e) && (forall|
                j: int,
            |
                0 <= j < i ==> definition_error((#[trigger] p[j]).0, p[j].1) is None),
    decreases p.len(),
{
    if p.len() > 0 {
        let rest = p.skip(1);
        law_first_definition_error(rest);
        assert(forall|i: int| 0 < i < p.len() ==> #[trigger] p[i] == rest[i - 1]);
        if definition_error(p[0].0, p[0].1) is None {
            if first_definition_error(rest) is None {
                assert forall|i: int| 0 <= i < p.len() implies definition_error(
                    (#[trigger] p[i]).0,
                    p[i].1,
                ) is None by {
                    if i > 0 {
                        assert(p[i] == rest[i - 1]);
                    }
                }
            } else {
                let e = first_definition_error(rest)->0;
                let i = choose|i: int|
                    0 <= i < rest.len() && definition_error((#[trigger] rest[i]).0, rest[i].1)
                        == Some(e) && (forall|j: int|
                        0 <= j < i ==> definition_error((#[trigger] rest[j]).0, rest[j].1) is None);
                assert(p[i + 1] == rest[i]);
                assert forall|j: int| 0 <= j < i + 1 implies definition_error(
                    (#[trigger] p[j]).0,
                    p[j].1,
                ) is None by {
                    if j > 0 {
                        assert(p[j] == rest[j - 1]);
                    }
                }
            }
        } else {
            assert(definition_error(p[0].0, p[0].1) == first_definition_error(p));
        }
    }
}

// ---- defaults ----

/// A variable whose name ends with `port` is a port number.
pub proof fn law_ports_are_numbers(front: Seq<char>)
    ensures
        default_of(front + "port"@).kind == VariableKind::Number,
        default_of(front + "port"@).description == "Port for "@ + (front + "port"@),
        default_of(front + "port"@).default == "1194"@,
        default_of(front + "port"@).options.len() == 0,
        default_of(front + "port"@).min == Some(1i64),
        default_of(front + "port"@).max == Some(65535i64),
        default_of(front + "port"@).required,
{
    let name = front + "port"@;
    law_beginnings_and_ends(name, "port"@, front);
    reveal_strlit("port");
    reveal_strlit("proto");
    assert("port"@.len() == 4 && "proto"@.len() == 5);
    if name == "proto"@ {
        assert(name[1] == "port"@[0]);
        assert("proto"@[1] == 'r');
    }
}

/// The variable `proto` is a choice of transport protocols.
pub proof fn law_proto_is_a_choice(name: Seq<char>)
    requires
        name == "proto"@,
    ensures
        default_of(name).kind == VariableKind::DropdownCsv,
        default_of(name).description == "VPN transport protocol"@,
        default_of(name).default == "udp"@,
        default_of(name).options == "tcp,udp"@,
        default_of(name).min is None,
        default_of(name).max is None,
        default_of(name).required,
{
}

/// A variable of any other name is a text that is required and has no default.
pub proof fn law_other_names_are_texts(name: Seq<char>)
    requires
        name != "proto"@,
        forall|front: Seq<char>| name != #[trigger] (front + "port"@),
    ensures
        default_of(name).kind == VariableKind::Text,
        default_of(name).description == "Value for "@ + name,
        default_of(name).default.len() == 0,
        default_of(name).options.len() == 0,
        default_of(name).min is None,
        default_of(name).max is None,
        default_of(name).required,
{
    if ends_with(name, "port"@) {
        law_beginnings_and_ends(name, "port"@, name);
        assert(name == name.take(name.len() - "port"@.len()) + "port"@);
    }
}

/// Somebody has described the variable: it is no text, or its description, its default or its
/// options are not those of a name of which nothing is known.
pub open spec fn described(name: Seq<char>, v: VariableView) -> bool {
    ||| v.kind != VariableKind::Text
    ||| v.description != "Value for "@ + name
    ||| v.default.len() > 0
    ||| v.options.len() > 0
}

/// Metadata that somebody has described is kept, and so is that of every name which is neither
/// `proto` nor ends with `port`, and that of a port with a bound.
pub proof fn law_described_metadata_is_kept(name: Seq<char>, v: VariableView)
    ensures
        described(name, v) ==> normalized(name, v) == v,
        name != "proto"@ && (forall|front: Seq<char>| name != #[trigger] (front + "port"@))
            ==> normalized(name, v) == v,
        name != "proto"@ && (v.min is Some || v.max is Some) ==> normalized(name, v) == v,
{
    if ends_with(name, "port"@) {
        law_beginnings_and_ends(name, "port"@, name);
        assert(name == name.take(name.len() - "port"@.len()) + "port"@);
    }
}

/// A protocol that nobody has described becomes the choice of protocols, and a port without
/// bounds that nobody has described becomes a port number.
pub proof fn law_undescribed_metadata_is_replaced(name: Seq<char>, front: Seq<char>, v: VariableView)
    requires
        !described(name, v),
        name == "proto"@ || (name == front + "port"@ && v.min is None && v.max is None),
    ensures
        normalized(name, v) == default_of(name),
{
    law_beginnings_and_ends(name, "port"@, front);
}

// ---- templates ----

/// Saving and loading a template leave the metadata of a placeholder that occurs as it was, where
/// somebody has described it.
pub proof fn law_described_variables_survive(
    id: Seq<char>,
    body: Seq<char>,
    m: MetadataView,
    names: Seq<Seq<char>>,
    k: Seq<char>,
)
    requires
        names.contains(k),
        m.variables.dom().contains(k),
        described(k, m.variables[k]),
    ensures
        loaded(id, body, m, names).metadata.variables[k] == m.variables[k],
        !reserved(k) ==> {
            &&& synced(m, names).variables.dom().contains(k)
            &&& synced(m, names).variables[k] == m.variables[k]
            &&& loaded(id, body, synced(m, names), names).metadata.variables[k] == m.variables[k]
        },
{
}

/// Saving keeps metadata for exactly the placeholders that occur and are not filled with a
/// certificate or a key; it keeps the name, the description and the delimiters that are given.
pub proof fn law_saved_metadata(m: MetadataView, names: Seq<Seq<char>>, k: Seq<char>)
    ensures
        synced(m, names).variables.dom().contains(k) <==> {
            &&& exists|i: int| 0 <= i < names.len() && #[trigger] names[i] == k
            &&& k != "ca_cert"@ && k != "client_cert"@ && k != "client_key"@
        },
        names.contains(k) && !reserved(k) && !m.variables.dom().contains(k) ==> synced(
            m,
            names,
        ).variables[k] == default_of(k),
        synced(m, names).name == m.name,
        synced(m, names).description == m.description,
        m.token_start.len() > 0 ==> synced(m, names).token_start == m.token_start,
        m.token_stop.len() > 0 ==> synced(m, names).token_stop == m.token_stop,
        m.token_start.len() == 0 ==> synced(m, names).token_start == seq!['%'],
        m.token_stop.len() == 0 ==> synced(m, names).token_stop == seq!['%'],
{
    reveal_strlit("%");
    assert("%"@ =~= seq!['%']);
}

/// Loading keeps the text, the identifier, the names and the metadata of every variable that does
/// not occur; it adds metadata for no variable and takes none away.
pub proof fn law_loaded_templates(
    id: Seq<char>,
    body: Seq<char>,
    m: MetadataView,
    names: Seq<Seq<char>>,
)
    ensures
        loaded(id, body, m, names).id == id,
        loaded(id, body, m, names).body == body,
        loaded(id, body, m, names).variables == names,
        loaded(id, body, m, names).metadata.name == m.name,
        loaded(id, body, m, names).metadata.description == m.description,
        m.token_start.len() > 0 ==> loaded(id, body, m, names).metadata.token_start
            == m.token_start,
        m.token_stop.len() > 0 ==> loaded(id, body, m, names).metadata.token_stop == m.token_stop,
        m.token_start.len() == 0 ==> loaded(id, body, m, names).metadata.token_start == seq!['%'],
        m.token_stop.len() == 0 ==> loaded(id, body, m, names).metadata.token_stop == seq!['%'],
        loaded(id, body, m, names).metadata.variables.dom() == m.variables.dom(),
        forall|k: Seq<char>|
            m.variables.dom().contains(k) && !names.contains(k) ==> #[trigger] loaded(
                id,
                body,
                m,
                names,
            ).metadata.variables[k] == m.variables[k],
{
    reveal_strlit("%");
    assert("%"@ =~= seq!['%']);
    assert(loaded_variables(m.variables, names).dom() =~= m.variables.dom());
}

/// The metadata of a variable is that which is given for it, and where none is given, that which
/// is assumed by its name.
pub proof fn law_metadata_of_a_variable(variables: Map<Seq<char>, VariableView>, k: Seq<char>)
    ensures
        variables.dom().contains(k) ==> variable_or_default(variables, k) == variables[k],
        !variables.dom().contains(k) ==> variable_or_default(variables, k) == default_of(k),
{
}

/// Delimiters that are given stay; one that is missing is `%`.
pub proof fn law_delimiters(m: MetadataView)
    ensures
        m.token_start.len() > 0 && m.token_stop.len() > 0 ==> with_delimiters(m) == m,
        delimiter(Seq::<char>::empty()) == seq!['%'],
        with_delimiters(m).token_start.len() > 0,
        with_delimiters(m).token_stop.len() > 0,
        with_delimiters(m).variables == m.variables,
{
    reveal_strlit("%");
    assert("%"@ =~= seq!['%']);
}

} // verus!
