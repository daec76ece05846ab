//! Pieces of web pages.
use vstd::prelude::*;

use crate::minica::MinicaCa;
use crate::number::{integer_text, signed_decimal};
use crate::string_map::{ordered, StringMap};
use crate::templates::{is_reserved, reserved, variable_metadata, variable_or_default, Template};
use crate::text::{blank, chars_of, fill, filled, is_blank, same_text, texts};
use crate::variables::{csv_items, parse_csv, VariableKind, VariableMetadata, VariableView};

verus! {

// ---- escaping ----

/// A character as it is written in a page.
pub open spec fn esc_char(c: char) -> Seq<char> {
    if c == '&' {
        "&amp;"@
    } else if c == '<' {
        "&lt;"@
    } else if c == '>' {
        "&gt;"@
    } else if c == '"' {
        "&quot;"@
    } else if c == '\'' {
        "&#39;"@
    } else {
        seq![c]
    }
}

/// A text as it is written in a page.
pub open spec fn esc_text(s: Seq<char>) -> Seq<char>
    decreases s.len(),
{
    if s.len() == 0 {
        Seq::empty()
    } else {
        esc_text(s.drop_last()) + esc_char(s.last())
    }
}

/// `value` as it is written in a page.
pub fn esc(value: &str) -> (r: String)
    ensures
        r@ == esc_text(value@),
{
    let cs = chars_of(value);
    let mut out = String::new();
    for i in 0..cs.len()
        invariant
            cs@ == value@,
            out@ == esc_text(value@.take(i as int)),
    {
        let ghost had = out@;
        let c = cs[i];
        proof {
            assert(value@.take(i + 1).drop_last() =~= value@.take(i as int));
        }
        if c == '&' {
            out.append("&amp;");
        } else if c == '<' {
            out.append("&lt;");
        } else if c == '>' {
            out.append("&gt;");
        } else if c == '"' {
            out.append("&quot;");
        } else if c == '\'' {
            out.append("&#39;");
        } else {
            out.push(c);
            proof {
                assert(had.push(c) =~= had + seq![c]);
            }
        }
    }
    proof {
        assert(value@.take(value@.len() as int) =~= value@);
    }
    out
}

// ---- choices ----

/// `text` where `wanted`, else nothing.
pub open spec fn text_if(wanted: bool, text: Seq<char>) -> Seq<char> {
    if wanted {
        text
    } else {
        Seq::empty()
    }
}

/// `text` where `wanted`, else an empty string.
fn string_if(wanted: bool, text: &str) -> (r: String)
    ensures
        r@ == text_if(wanted, text@),
{
    if wanted {
        text.to_string()
    } else {
        String::new()
    }
}

/// One of several choices: its value, whether it is the chosen one, and its label.
pub const OPTION: &'static str = r#"<option value="{}"{}>{}</option>"#;

/// A choice whose label is its value.
pub open spec fn choice(value: Seq<char>, selected: Seq<char>) -> Seq<char> {
    filled(
        OPTION@,
        seq![esc_text(value), text_if(value == selected, " selected"@), esc_text(value)],
    )
}

/// A choice whose label is its value.
fn choice_text(value: &str, selected: &str) -> (r: String)
    ensures
        r@ == choice(value@, selected@),
{
    let args = vec![esc(value), string_if(same_text(value, selected), " selected"), esc(value)];
    proof {
        assert(texts(args@) =~= seq![
            esc_text(value@),
            text_if(value@ == selected@, " selected"@),
            esc_text(value@),
        ]);
    }
    fill(OPTION, &args)
}

/// The choices of a key profile.
pub open spec fn key_profile_choices(selected: Seq<char>) -> Seq<char> {
    choice("rsa:2048"@, selected) + choice("rsa:4096"@, selected) + choice("rsa:8192"@, selected)
        + choice("ecdsa:prime256v1"@, selected) + choice("ecdsa:secp384r1"@, selected) + choice(
        "ecdsa:secp521r1"@,
        selected,
    )
}

/// The choices of a key profile, with `selected` chosen.
pub fn key_profile_options(selected: &str) -> (r: String)
    ensures
        r@ == key_profile_choices(selected@),
{
    let mut out = choice_text("rsa:2048", selected);
    out.append(choice_text("rsa:4096", selected).as_str());
    out.append(choice_text("rsa:8192", selected).as_str());
    out.append(choice_text("ecdsa:prime256v1", selected).as_str());
    out.append(choice_text("ecdsa:secp384r1", selected).as_str());
    out.append(choice_text("ecdsa:secp521r1", selected).as_str());
    out
}

/// A certificate authority as a choice: its value, whether it is the chosen one, its name and its
/// identifier.
pub const CA_OPTION: &'static str = r#"<option value="{}"{}>{} ({})</option>"#;

/// A certificate authority as a choice.
pub open spec fn ca_choice(ca: MinicaCa, selected: Seq<char>) -> Seq<char> {
    filled(
        CA_OPTION@,
        seq![
            esc_text(ca.id@),
            text_if(ca.id@ == selected, " selected"@),
            esc_text(ca.common_name@),
            esc_text(ca.id@),
        ],
    )
}

/// The certificate authorities as choices.
pub open spec fn ca_choices(cas: Seq<MinicaCa>, selected: Seq<char>) -> Seq<char>
    decreases cas.len(),
{
    if cas.len() == 0 {
        Seq::empty()
    } else {
        ca_choices(cas.drop_last(), selected) + ca_choice(cas.last(), selected)
    }
}

/// The certificate authorities as choices, with `selected` chosen.
pub fn ca_options(cas: &Vec<MinicaCa>, selected: &str) -> (r: String)
    ensures
        r@ == ca_choices(cas@, selected@),
{
    let mut out = String::new();
    for i in 0..cas.len()
        invariant
            out@ == ca_choices(cas@.take(i as int), selected@),
    {
        let ca = &cas[i];
        let args = vec![
            esc(ca.id.as_str()),
            string_if(same_text(ca.id.as_str(), selected), " selected"),
            esc(ca.common_name.as_str()),
            esc(ca.id.as_str()),
        ];
        proof {
            assert(texts(args@) =~= seq![
                esc_text(ca.id@),
                text_if(ca.id@ == selected@, " selected"@),
                esc_text(ca.common_name@),
                esc_text(ca.id@),
            ]);
            assert(cas@.take(i + 1).drop_last() =~= cas@.take(i as int));
        }
        out.append(fill(CA_OPTION, &args).as_str());
    }
    proof {
        assert(cas@.take(cas@.len() as int) =~= cas@);
    }
    out
}

/// One of the certificate authorities has the identifier.
pub open spec fn among(cas: Seq<MinicaCa>, id: Seq<char>) -> bool {
    exists|i: int| 0 <= i < cas.len() && (#[trigger] cas[i]).id@ == id
}

/// Whether one of the certificate authorities has the identifier.
fn is_among(cas: &Vec<MinicaCa>, id: &str) -> (r: bool)
    ensures
        r == among(cas@, id@),
{
    for i in 0..cas.len()
        invariant
            forall|j: int| 0 <= j < i ==> (#[trigger] cas@[j]).id@ != id@,
    {
        if same_text(cas[i].id.as_str(), id) {
            return true;
        }
    }
    false
}

/// The choices of a certificate authority: where none is selected the first choice asks for one,
/// and a selected one that is not among them is put first.
pub open spec fn ca_select(cas: Seq<MinicaCa>, selected: Seq<char>) -> Seq<char> {
    if blank(selected) {
        "<option value=\"\">Select a CA</option>"@ + ca_choices(cas, selected)
    } else if !among(cas, selected) {
        choice(selected, selected) + ca_choices(cas, selected)
    } else {
        ca_choices(cas, selected)
    }
}

/// The choices of a certificate authority, with `selected` chosen.
pub fn ca_select_options(cas: &Vec<MinicaCa>, selected: &str) -> (r: String)
    ensures
        r@ == ca_select(cas@, selected@),
{
    let rows = ca_options(cas, selected);
    if is_blank(selected) {
        let mut out = "<option value=\"\">Select a CA</option>".to_string();
        out.append(rows.as_str());
        out
    } else if !is_among(cas, selected) {
        let mut out = choice_text(selected, selected);
        out.append(rows.as_str());
        out
    } else {
        rows
    }
}

// ---- parameters ----

/// A parameter in a list of profiles.
pub const CHIP: &'static str =
    r#"<span class="param-chip"><span class="param-key">{}</span><span class="param-value">{}</span></span>"#;

/// Each entry in the pattern, one after the other.
pub open spec fn entry_rows(pattern: Seq<char>, entries: Seq<(Seq<char>, Seq<char>)>) -> Seq<char>
    decreases entries.len(),
{
    if entries.len() == 0 {
        Seq::empty()
    } else {
        entry_rows(pattern, entries.drop_last()) + filled(
            pattern,
            seq![esc_text(entries.last().0), esc_text(entries.last().1)],
        )
    }
}

/// Each entry of the map in the pattern, in the order of the keys.
pub fn map_rows(pattern: &str, values: &StringMap<String>) -> (r: String)
    requires
        values.wf(),
    ensures
        r@ == entry_rows(pattern@, ordered(values@)),
{
    let ghost p = values.entries();
    proof {
        values.lemma_entries();
        assert(p.take(0) =~= Seq::empty());
    }
    let mut out = String::new();
    let n: usize = values.len();
    for i in 0..n
        invariant
            n == p.len(),
            values.wf(),
            p == values.entries(),
            out@ == entry_rows(pattern@, p.take(i as int)),
    {
        let args = vec![esc(values.key_at(i).as_str()), esc(values.value_at(i).as_str())];
        proof {
            assert(texts(args@) =~= seq![esc_text(p[i as int].0), esc_text(p[i as int].1)]);
            assert(p.take(i + 1).drop_last() =~= p.take(i as int));
        }
        out.append(fill(pattern, &args).as_str());
    }
    proof {
        assert(p.take(n as int) =~= p);
    }
    out
}

/// The parameters of a profile in a list of profiles.
pub open spec fn chips(values: Map<Seq<char>, Seq<char>>) -> Seq<char> {
    if values == Map::<Seq<char>, Seq<char>>::empty() {
        "<span class=\"muted\">None</span>"@
    } else {
        entry_rows(CHIP@, ordered(values))
    }
}

/// The parameters of a profile in a list of profiles.
pub fn render_parameter_chips(values: &StringMap<String>) -> (r: String)
    requires
        values.wf(),
    ensures
        r@ == chips(values@),
{
    if values.is_empty() {
        "<span class=\"muted\">None</span>".to_string()
    } else {
        map_rows(CHIP, values)
    }
}

// ---- inputs for the variables of a template ----

/// The input of a number: label, name, value, least value, greatest value, required, help.
pub const NUMBER_INPUT: &'static str =
    r#"<div class="field"><label>{}</label><input name="{}" type="number" value="{}"{}{}{}><small>{}</small></div>"#;

/// The input of a long text: label, name, required, value, help.
pub const TEXTAREA_INPUT: &'static str =
    r#"<div class="field"><label>{}</label><textarea name="{}" rows="4"{}>{}</textarea><small>{}</small></div>"#;

/// The input of a choice: label, name, required, choices, help.
pub const SELECT_INPUT: &'static str =
    r#"<div class="field"><label>{}</label><select name="{}"{}>{}</select><small>{}</small></div>"#;

/// The input of a text: label, name, value, required, help.
pub const TEXT_INPUT: &'static str =
    r#"<div class="field"><label>{}</label><input name="{}" value="{}"{}><small>{}</small></div>"#;

/// A bound of a number as an attribute.
pub open spec fn bound(attribute: Seq<char>, value: Option<i64>) -> Seq<char> {
    match value {
        Some(n) => attribute + signed_decimal(n as int) + "\""@,
        None => Seq::empty(),
    }
}

/// A bound of a number as an attribute.
fn bound_text(attribute: &str, value: Option<i64>) -> (r: String)
    ensures
        r@ == bound(attribute@, value),
{
    match value {
        Some(n) => {
            let mut out = attribute.to_string();
            out.append(integer_text(n).as_str());
            out.append("\"");
            out
        },
        None => String::new(),
    }
}

/// The options of a variable as choices, with `selected` chosen.
pub open spec fn option_choices(options: Seq<Seq<char>>, selected: Seq<char>) -> Seq<char>
    decreases options.len(),
{
    if options.len() == 0 {
        Seq::empty()
    } else {
        option_choices(options.drop_last(), selected) + choice(options.last(), selected)
    }
}

/// The options of a variable as choices.
fn option_choices_text(options: &Vec<String>, selected: &str) -> (r: String)
    ensures
        r@ == option_choices(texts(options@), selected@),
{
    let ghost all = texts(options@);
    let mut out = String::new();
    for i in 0..options.len()
        invariant
            all == texts(options@),
            out@ == option_choices(all.take(i as int), selected@),
    {
        proof {
            assert(all.take(i + 1).drop_last() =~= all.take(i as int));
        }
        out.append(choice_text(options[i].as_str(), selected).as_str());
    }
    proof {
        assert(all.take(all.len() as int) =~= all);
    }
    out
}

/// The input of the variable `name`.
pub open spec fn variable_input(name: Seq<char>, meta: VariableView) -> Seq<char> {
    let label = esc_text(name);
    let field = esc_text("var_"@ + name);
    let required = text_if(meta.required, " required"@);
    let help = esc_text(meta.description);
    let value = esc_text(meta.default);
    match meta.kind {
        VariableKind::Number => filled(
            NUMBER_INPUT@,
            seq![
                label,
                field,
                value,
                bound(" min=\""@, meta.min),
                bound(" max=\""@, meta.max),
                required,
                help,
            ],
        ),
        VariableKind::Textarea => filled(
            TEXTAREA_INPUT@,
            seq![label, field, required, value, help],
        ),
        VariableKind::DropdownCsv => filled(
            SELECT_INPUT@,
            seq![
                label,
                field,
                required,
                option_choices(csv_items(meta.options), meta.default),
                help,
            ],
        ),
        VariableKind::Text => filled(TEXT_INPUT@, seq![label, field, value, required, help]),
    }
}

/// The input of the variable `name`.
fn variable_input_text(name: &str, meta: &VariableMetadata) -> (r: String)
    ensures
        r@ == variable_input(name@, meta@),
{
    let mut prefixed = "var_".to_string();
    prefixed.append(name);
    let label = esc(name);
    let field = esc(prefixed.as_str());
    let required = string_if(meta.required, " required");
    let help = esc(meta.description.as_str());
    let value = esc(meta.default.as_str());
    match meta.kind {
        VariableKind::Number => {
            let min = bound_text(" min=\"", meta.min);
            let max = bound_text(" max=\"", meta.max);
            let ghost parts = seq![label@, field@, value@, min@, max@, required@, help@];
            let args = vec![label, field, value, min, max, required, help];
            proof {
                assert(texts(args@) =~= parts);
            }
            fill(NUMBER_INPUT, &args)
        },
        VariableKind::Textarea => {
            let ghost parts = seq![label@, field@, required@, value@, help@];
            let args = vec![label, field, required, value, help];
            proof {
                assert(texts(args@) =~= parts);
            }
            fill(TEXTAREA_INPUT, &args)
        },
        VariableKind::DropdownCsv => {
            let options = parse_csv(meta.options.as_str());
            let choices = option_choices_text(&options, meta.default.as_str());
            let ghost parts = seq![label@, field@, required@, choices@, help@];
            let args = vec![label, field, required, choices, help];
            proof {
                assert(texts(args@) =~= parts);
            }
            fill(SELECT_INPUT, &args)
        },
        VariableKind::Text => {
            let ghost parts = seq![label@, field@, value@, required@, help@];
            let args = vec![label, field, value, required, help];
            proof {
                assert(texts(args@) =~= parts);
            }
            fill(TEXT_INPUT, &args)
        },
    }
}

/// The inputs of the names that are not filled with certificates and keys.
pub open spec fn variable_inputs(
    names: Seq<Seq<char>>,
    variables: Map<Seq<char>, VariableView>,
) -> Seq<char>
    decreases names.len(),
{
    if names.len() == 0 {
        Seq::empty()
    } else if reserved(names.last()) {
        variable_inputs(names.drop_last(), variables)
    } else {
        variable_inputs(names.drop_last(), variables) + variable_input(
            names.last(),
            variable_or_default(variables, names.last()),
        )
    }
}

/// The inputs of the variables of a template that are not filled with certificates and keys.
pub fn render_template_variable_inputs(template: &Template) -> (r: String)
    requires
        template.wf(),
    ensures
        r@ == variable_inputs(texts(template.variables@), template.metadata.variables@),
{
    let ghost all = texts(template.variables@);
    let mut out = String::new();
    for i in 0..template.variables.len()
        invariant
            template.wf(),
            all == texts(template.variables@),
            out@ == variable_inputs(all.take(i as int), template.metadata.variables@),
    {
        proof {
            assert(all.take(i + 1).drop_last() =~= all.take(i as int));
            assert(all.take(i + 1).last() == all[i as int]);
        }
        let name = template.variables[i].as_str();
        if !is_reserved(name) {
            let meta = variable_metadata(&template.metadata.variables, name);
            out.append(variable_input_text(name, &meta).as_str());
        }
    }
    proof {
        assert(all.take(all.len() as int) =~= all);
    }
    out
}

// ---- laws of escaping ----

/// A text that was escaped holds no character that could end a text or an attribute of a page.
pub proof fn law_escaped_text_is_inert(s: Seq<char>)
    ensures
        !esc_text(s).contains('<'),
        !esc_text(s).contains('>'),
        !esc_text(s).contains('"'),
        !esc_text(s).contains('\''),
    decreases s.len(),
{
    reveal_strlit("&amp;");
    reveal_strlit("&lt;");
    reveal_strlit("&gt;");
    reveal_strlit("&quot;");
    reveal_strlit("&#39;");
    if s.len() > 0 {
        law_escaped_text_is_inert(s.drop_last());
        let a = esc_text(s.drop_last());
        let b = esc_char(s.last());
        assert forall|i: int| 0 <= i < (a + b).len() implies (a + b)[i] != '<' && (a + b)[i] != '>'
            && (a + b)[i] != '"' && (a + b)[i] != '\'' by {
            if i < a.len() {
                assert(a.contains(a[i]));
                assert((a + b)[i] == a[i]);
            } else {
                assert((a + b)[i] == b[i - a.len()]);
            }
        }
    }
}

/// A text is escaped character by character.
proof fn lemma_escaped_front(s: Seq<char>)
    requires
        s.len() > 0,
    ensures
        esc_text(s) == esc_char(s[0]) + esc_text(s.skip(1)),
    decreases s.len(),
{
    if s.len() == 1 {
        assert(s.drop_last() =~= Seq::empty());
        assert(s.skip(1) =~= Seq::empty());
        assert(esc_text(s) =~= esc_char(s[0]) + esc_text(s.skip(1)));
    } else {
        lemma_escaped_front(s.drop_last());
        assert(s.drop_last().skip(1) =~= s.skip(1).drop_last());
        assert(esc_text(s) =~= esc_char(s[0]) + esc_text(s.skip(1)));
    }
}

/// Which character was written is told by what is written for it, whatever follows.
proof fn lemma_escaped_character(c: char, x: Seq<char>, d: char, y: Seq<char>)
    requires
        esc_char(c) + x == esc_char(d) + y,
    ensures
        c == d,
        x == y,
{
    reveal_strlit("&amp;");
    reveal_strlit("&lt;");
    reveal_strlit("&gt;");
    reveal_strlit("&quot;");
    reveal_strlit("&#39;");
    let s = esc_char(c) + x;
    let t = esc_char(d) + y;
    assert(s[0] == esc_char(c)[0] && t[0] == esc_char(d)[0]);
    if s[0] == '&' {
        assert(s[1] == esc_char(c)[1] && t[1] == esc_char(d)[1]);
    }
    assert(c == d);
    let n = esc_char(c).len() as int;
    assert(s.skip(n) =~= x);
    assert(t.skip(n) =~= y);
}

proof fn lemma_escaped_length(c: char)
    ensures
        esc_char(c).len() > 0,
{
    reveal_strlit("&amp;");
    reveal_strlit("&lt;");
    reveal_strlit("&gt;");
    reveal_strlit("&quot;");
    reveal_strlit("&#39;");
}

/// What is written in a page tells which text it was: different texts are escaped differently.
pub proof fn law_escaping_loses_nothing(a: Seq<char>, b: Seq<char>)
    requires
        esc_text(a) == esc_text(b),
    ensures
        a == b,
    decreases a.len(),
{
    if a.len() > 0 {
        lemma_escaped_front(a);
        lemma_escaped_length(a[0]);
    }
    if b.len() > 0 {
        lemma_escaped_front(b);
        lemma_escaped_length(b[0]);
    }
    if a.len() == 0 || b.len() == 0 {
        assert(a.len() > 0 ==> esc_text(a).len() > 0);
        assert(b.len() > 0 ==> esc_text(b).len() > 0);
        assert(a =~= b);
    } else {
        lemma_escaped_character(a[0], esc_text(a.skip(1)), b[0], esc_text(b.skip(1)));
        law_escaping_loses_nothing(a.skip(1), b.skip(1));
        assert(a =~= seq![a[0]] + a.skip(1));
        assert(b =~= seq![b[0]] + b.skip(1));
    }
}

} // verus!
