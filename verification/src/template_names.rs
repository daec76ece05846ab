//! Names of templates: which are free, and how a free one is found.
use vstd::prelude::*;

use crate::number::{
    decimal, is_digit, lemma_decimal_digits, lemma_decimal_injective, natural_text,
};
use crate::templates::Template;
use crate::text::{
    blank, lemma_trimmed, lower_char, lowered, same_text, to_lower, trim, trimmed, trimmed_end,
    trimmed_start, white_space,
};
use crate::text_laws::law_trimming;
use crate::variables::error_text;

verus! {

/// A name as names are told apart: trimmed, with ASCII capital letters made small.
pub open spec fn name_key(name: Seq<char>) -> Seq<char> {
    lowered(trimmed(name))
}

/// The text of an optional string.
pub open spec fn text_in(s: Option<&str>) -> Option<Seq<char>> {
    match s {
        Some(t) => Some(t@),
        None => None,
    }
}

/// A template other than `current` has the name with the key `key`.
pub open spec fn taken(templates: Seq<Template>, current: Option<Seq<char>>, key: Seq<char>) -> bool {
    exists|i: int|
        0 <= i < templates.len() && current != Some((#[trigger] templates[i]).id@) && name_key(
            templates[i].metadata.name@,
        ) == key
}

/// `name` is not blank, and no template other than `current` has it.
pub open spec fn free(templates: Seq<Template>, current: Option<Seq<char>>, name: Seq<char>) -> bool {
    name_key(name).len() > 0 && !taken(templates, current, name_key(name))
}

/// What is wrong with a name, if anything.
pub open spec fn name_error(
    templates: Seq<Template>,
    current: Option<Seq<char>>,
    name: Seq<char>,
) -> Option<Seq<char>> {
    if name_key(name).len() == 0 {
        Some("template name is required"@)
    } else if taken(templates, current, name_key(name)) {
        Some("another template already uses the name '"@ + name + "'"@)
    } else {
        None
    }
}

/// Whether `name` is free for the template `current_id`, and what is wrong where it is not.
pub fn validate_unique_template_name(
    templates: &Vec<Template>,
    name: &str,
    current_id: Option<&str>,
) -> (r: Result<(), String>)
    ensures
        error_text(r) == name_error(templates@, text_in(current_id), name@),
        r is Ok == free(templates@, text_in(current_id), name@),
{
    let key = to_lower(trim(name).as_str());
    if key.as_str().is_empty() {
        return Err("template name is required".to_string());
    }
    for i in 0..templates.len()
        invariant
            key@ == name_key(name@),
            key@.len() > 0,
            forall|j: int|
                0 <= j < i ==> !(text_in(current_id) != Some((#[trigger] templates@[j]).id@)
                    && name_key(templates@[j].metadata.name@) == key@),
    {
        let current: bool = match current_id {
            Some(id) => same_text(id, templates[i].id.as_str()),
            None => false,
        };
        if !current {
            let other = to_lower(trim(templates[i].metadata.name.as_str()).as_str());
            if same_text(other.as_str(), key.as_str()) {
                proof {
                    assert(text_in(current_id) != Some(templates@[i as int].id@));
                }
                let mut message = "another template already uses the name '".to_string();
                message.append(name);
                message.append("'");
                return Err(message);
            }
        }
    }
    Ok(())
}

/// `base`, a space and `k`.
pub open spec fn numbered(base: Seq<char>, k: nat) -> Seq<char> {
    base + " "@ + decimal(k)
}

proof fn lemma_trimmed_start_append(a: Seq<char>, d: Seq<char>)
    requires
        d.len() > 0,
        !white_space(d[0]),
    ensures
        trimmed_start(a + d) == trimmed_start(a) + d,
    decreases a.len(),
{
    if a.len() == 0 {
        assert(a + d =~= d);
        assert(trimmed_start(a) + d =~= d);
    } else if white_space(a[0]) {
        assert((a + d).skip(1) =~= a.skip(1) + d);
        assert((a + d)[0] == a[0]);
        lemma_trimmed_start_append(a.skip(1), d);
    } else {
        assert((a + d)[0] == a[0]);
    }
}

/// The key of a numbered name is a text that depends on the base alone, and the number.
proof fn lemma_numbered_key(base: Seq<char>, k: nat)
    ensures
        name_key(numbered(base, k)) == lowered(trimmed_start(base + " "@)) + decimal(k),
{
    lemma_decimal_digits(k);
    let d = decimal(k);
    let b = base + " "@;
    assert(is_digit(d[0]));
    assert(is_digit(d[d.len() - 1]));
    lemma_trimmed_start_append(b, d);
    let t = trimmed_start(b) + d;
    assert(t.last() == d[d.len() - 1]);
    assert(trimmed_end(t) == t);
    assert forall|i: int| 0 <= i < d.len() implies lower_char(#[trigger] d[i]) == d[i] by {
        assert(is_digit(d[i]));
    }
    assert(lowered(t) =~= lowered(trimmed_start(b)) + d);
}

/// Among one numbered name more than there are templates, one is free.
proof fn lemma_some_numbered_name_is_free(
    templates: Seq<Template>,
    current: Option<Seq<char>>,
    base: Seq<char>,
)
    ensures
        exists|k: nat| 2 <= k <= templates.len() + 2 && free(templates, current, #[trigger] numbered(base, k)),
{
    let n = templates.len();
    if forall|k: nat| 2 <= k <= n + 2 ==> !free(templates, current, #[trigger] numbered(base, k)) {
        let have = Seq::new(n, |i: int| name_key(templates[i].metadata.name@));
        let want = Seq::new(n + 1, |j: int| name_key(numbered(base, (j + 2) as nat)));
        let p = lowered(trimmed_start(base + " "@));
        assert forall|j: int| 0 <= j < want.len() implies have.to_set().contains(#[trigger] want[j]) by {
            let k = (j + 2) as nat;
            lemma_numbered_key(base, k);
            lemma_decimal_digits(k);
            assert(!free(templates, current, numbered(base, k)));
            let i = choose|i: int|
                0 <= i < templates.len() && current != Some((#[trigger] templates[i]).id@)
                    && name_key(templates[i].metadata.name@) == name_key(numbered(base, k));
            assert(have[i] == want[j]);
        }
        assert forall|i: int, j: int| 0 <= i < want.len() && 0 <= j < want.len() && i != j implies want[i]
            != want[j] by {
            lemma_numbered_key(base, (i + 2) as nat);
            lemma_numbered_key(base, (j + 2) as nat);
            if want[i] == want[j] {
                let a = decimal((i + 2) as nat);
                let b = decimal((j + 2) as nat);
                assert((p + a).skip(p.len() as int) =~= a);
                assert((p + b).skip(p.len() as int) =~= b);
                lemma_decimal_injective((i + 2) as nat, (j + 2) as nat);
            }
        }
        want.unique_seq_to_set();
        have.lemma_cardinality_of_set();
        assert(want.to_set().subset_of(have.to_set()));
        vstd::seq_lib::seq_to_set_is_finite(have);
        vstd::set_lib::lemma_len_subset(want.to_set(), have.to_set());
    }
}

/// `r` is `base` followed by the least number from 2 on that makes it free.
pub open spec fn first_free_numbered(
    templates: Seq<Template>,
    current: Option<Seq<char>>,
    base: Seq<char>,
    r: Seq<char>,
) -> bool {
    exists|k: nat|
        2 <= k && r == #[trigger] numbered(base, k) && free(templates, current, r) && forall|j: nat|
            2 <= j < k ==> !free(templates, current, #[trigger] numbered(base, j))
}

/// A free name for the template `current_id`: `base` where it is free, else `base` followed by
/// the least number from 2 on that makes it free.
pub fn unique_template_name(templates: &Vec<Template>, base: &str, current_id: Option<&str>) -> (r:
    String)
    ensures
        free(templates@, text_in(current_id), r@),
        free(templates@, text_in(current_id), base@) ==> r@ == base@,
        !free(templates@, text_in(current_id), base@) ==> first_free_numbered(
            templates@,
            text_in(current_id),
            base@,
            r@,
        ),
{
    if validate_unique_template_name(templates, base, current_id).is_ok() {
        return base.to_string();
    }
    let ghost current = text_in(current_id);
    let last: u128 = templates.len() as u128 + 2;
    let mut index: u128 = 2;
    loop
        invariant
            2 <= index <= last,
            last == templates@.len() + 2,
            current == text_in(current_id),
            !free(templates@, current, base@),
            forall|j: nat|
                2 <= j < index ==> !free(templates@, current, #[trigger] numbered(base@, j)),
        decreases last - index,
    {
        let mut candidate = base.to_string();
        candidate.append(" ");
        candidate.append(natural_text(index).as_str());
        proof {
            assert(candidate@ == numbered(base@, index as nat));
        }
        if validate_unique_template_name(templates, candidate.as_str(), current_id).is_ok() {
            return candidate;
        }
        proof {
            lemma_some_numbered_name_is_free(templates@, current, base@);
            let k = choose|k: nat|
                2 <= k <= templates@.len() + 2 && free(
                    templates@,
                    current,
                    #[trigger] numbered(base@, k),
                );
            assert(k > index);
        }
        index = index + 1;
    }
}

// ---- laws ----

/// Names that differ in nothing but white space around them and the case of their ASCII letters
/// are the same name.
pub proof fn law_name_keys(lead: Seq<char>, core: Seq<char>, trail: Seq<char>)
    requires
        forall|i: int| 0 <= i < lead.len() ==> white_space(#[trigger] lead[i]),
        forall|i: int| 0 <= i < trail.len() ==> white_space(#[trigger] trail[i]),
        core.len() > 0 ==> !white_space(core[0]) && !white_space(core[core.len() - 1]),
    ensures
        name_key(lead + core + trail) == lowered(core),
{
    law_trimming(lead, core, trail);
}

/// A name is free if and only if something is left of it when it is trimmed, and every template
/// with the same name, up to case, is the current one.
pub proof fn law_free_names(templates: Seq<Template>, current: Option<Seq<char>>, name: Seq<char>)
    ensures
        free(templates, current, name) <==> {
            &&& exists|i: int| 0 <= i < name.len() && !white_space(#[trigger] name[i])
            &&& forall|i: int|
                0 <= i < templates.len() && lowered(
                    trimmed((#[trigger] templates[i]).metadata.name@),
                ) == lowered(trimmed(name)) ==> current == Some(templates[i].id@)
        },
        name_error(templates, current, name) is None <==> free(templates, current, name),
{
    lemma_trimmed(name);
    if free(templates, current, name) {
        assert forall|i: int|
            0 <= i < templates.len() && lowered(
                trimmed((#[trigger] templates[i]).metadata.name@),
            ) == lowered(trimmed(name)) implies current == Some(templates[i].id@) by {}
    }
}

/// What is said of a name that is not free.
pub proof fn law_what_is_said_of_names(
    templates: Seq<Template>,
    current: Option<Seq<char>>,
    name: Seq<char>,
)
    requires
        !free(templates, current, name),
    ensures
        blank(name) ==> name_error(templates, current, name) == Some("template name is required"@),
        !blank(name) ==> name_error(templates, current, name) == Some(
            "another template already uses the name '"@ + name + "'"@,
        ),
{
    lemma_trimmed(name);
}

/// A name that is numbered is the base, a space and the number; different numbers give different
/// names.
pub proof fn law_numbered_names(base: Seq<char>, j: nat, k: nat)
    ensures
        numbered(base, k) == base + seq![' '] + decimal(k),
        numbered(base, j) == numbered(base, k) ==> j == k,
{
    reveal_strlit(" ");
    assert(" "@ =~= seq![' ']);
    let n = base.len() + 1;
    assert(numbered(base, j).skip(n as int) =~= decimal(j));
    assert(numbered(base, k).skip(n as int) =~= decimal(k));
    if numbered(base, j) == numbered(base, k) {
        lemma_decimal_injective(j, k);
    }
}

} // verus!
