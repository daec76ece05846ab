//! What the operations on texts, numbers and maps give back, said of what they take.
use vstd::prelude::*;

use crate::html::esc;
use crate::number::{
    decimal, denoted, integer_text, law_number_round_trip, natural_text, parse_i64, signed_decimal,
};
use crate::order::{comes_before, law_order_of_texts};
use crate::page_laws::law_escaping_joins;
use crate::string_map::StringMap;
use crate::text::{
    begins_with, fill, has_prefix, has_suffix, is_blank, join, joined, replace, same_text, split,
    split_text, texts, to_lower, trim, trim_end_char, trimmed, white_space, without_prefix,
};
use crate::text_laws::{
    law_beginnings_and_ends, law_filling_the_first_mark, law_join_undoes_split, law_joining,
    law_lowering, law_replacing_the_first, law_trimming, law_without_trailing, unmarked,
};
use crate::variable_laws::law_csv_holds_every_item;
use crate::variables::{contains_text, parse_csv};

verus! {

/// Trimming gives what stands between the white space at both ends, and a text is blank if and
/// only if nothing stands there.
pub proof fn law_trim(
    s: &str,
    r: String,
    b: bool,
    lead: Seq<char>,
    core: Seq<char>,
    trail: Seq<char>,
)
    requires
        call_ensures(trim, (s,), r),
        call_ensures(is_blank, (s,), b),
        s@ == lead + core + trail,
        forall|i: int| 0 <= i < lead.len() ==> white_space(#[trigger] lead[i]),
        forall|i: int| 0 <= i < trail.len() ==> white_space(#[trigger] trail[i]),
        core.len() > 0 ==> !white_space(core[0]) && !white_space(core[core.len() - 1]),
    ensures
        r@ == core,
        b <==> core.len() == 0,
{
    law_trimming(lead, core, trail);
    if core.len() > 0 {
        assert(s@[lead.len() as int] == core[0]);
    } else {
        assert forall|i: int| 0 <= i < s@.len() implies white_space(#[trigger] s@[i]) by {
            if i < lead.len() {
                assert(s@[i] == lead[i]);
            } else {
                assert(s@[i] == trail[i - lead.len()]);
            }
        }
    }
}

/// Taking a character from the end takes the whole run of it and nothing more.
pub proof fn law_trim_end(s: &str, c: char, r: String, core: Seq<char>, run: Seq<char>)
    requires
        call_ensures(trim_end_char, (s, c), r),
        s@ == core + run,
        forall|i: int| 0 <= i < run.len() ==> #[trigger] run[i] == c,
        core.len() > 0 ==> core[core.len() - 1] != c,
    ensures
        r@ == core,
{
    law_without_trailing(core, run, c);
}

/// Making letters small keeps every character but the ASCII capital letters.
pub proof fn law_to_lower(s: &str, r: String, i: int)
    requires
        call_ensures(to_lower, (s,), r),
        0 <= i < s@.len(),
    ensures
        r@.len() == s@.len(),
        r@[i] as int == (if 65 <= s@[i] as int <= 90 {
            s@[i] as int + 32
        } else {
            s@[i] as int
        }),
{
    law_lowering(s@);
}

/// Texts are found to be the same, to begin or to end with another, if and only if they do.
pub proof fn law_compared_texts(
    a: &str,
    b: &str,
    same: bool,
    front: bool,
    end: bool,
    rest: Option<String>,
)
    requires
        call_ensures(same_text, (a, b), same),
        call_ensures(has_prefix, (a, b), front),
        call_ensures(has_suffix, (a, b), end),
        call_ensures(without_prefix, (a, b), rest),
    ensures
        same <==> a@ == b@,
        front ==> a@ == b@ + a@.skip(b@.len() as int),
        end ==> a@ == a@.take(a@.len() - b@.len()) + b@,
        rest is Some <==> front,
        rest is Some ==> a@ == b@ + rest->0@,
        same ==> front && end,
{
    law_beginnings_and_ends(a@, b@, a@);
    assert(a@.take(a@.len() as int) =~= a@);
    assert(a@.skip(0) =~= a@);
}

/// Splitting and joining undo each other.
pub proof fn law_split_and_join(s: &str, sep: char, parts: Vec<String>, mark: &str, r: String)
    requires
        call_ensures(split_text, (s, sep), parts),
        call_ensures(join, (&parts, mark), r),
        mark@ == seq![sep],
    ensures
        r@ == s@,
        forall|i: int| 0 <= i < parts@.len() ==> !(#[trigger] parts@[i])@.contains(sep),
{
    law_join_undoes_split(s@, sep);
    assert forall|i: int| 0 <= i < parts@.len() implies !(#[trigger] parts@[i])@.contains(sep) by {
        assert(texts(parts@)[i] == split(s@, sep)[i]);
    }
}

/// Joining one string more puts it behind the others, with the separator between.
pub proof fn law_join_one_more(
    parts: &Vec<String>,
    more: &Vec<String>,
    last: String,
    sep: &str,
    r: String,
    s: String,
)
    requires
        call_ensures(join, (parts, sep), r),
        call_ensures(join, (more, sep), s),
        more@ == parts@.push(last),
    ensures
        parts@.len() == 0 ==> r@.len() == 0 && s@ == last@,
        parts@.len() > 0 ==> s@ == r@ + sep@ + last@,
{
    assert(texts(more@) =~= texts(parts@).push(last@));
    law_joining(texts(parts@), last@, sep@);
}

/// A list is read as all the texts between its commas, each trimmed, without those of which
/// nothing is left; a text is found among strings if and only if it is one of them.
pub proof fn law_parsed_lists(
    parts: Seq<Seq<char>>,
    value: &str,
    items: Vec<String>,
    wanted: &str,
    found: bool,
)
    requires
        call_ensures(parse_csv, (value,), items),
        call_ensures(contains_text, (&items, wanted), found),
        parts.len() > 0,
        forall|i: int| 0 <= i < parts.len() ==> !(#[trigger] parts[i]).contains(','),
        value@ == joined(parts, seq![',']),
    ensures
        texts(items@) == parts.map_values(|p: Seq<char>| trimmed(p)).filter(
            |p: Seq<char>| p.len() > 0,
        ),
        found <==> exists|i: int| 0 <= i < items@.len() && (#[trigger] items@[i])@ == wanted@,
{
    law_csv_holds_every_item(parts);
    if found {
        let i = choose|i: int| 0 <= i < texts(items@).len() && texts(items@)[i] == wanted@;
        assert(items@[i]@ == wanted@);
    }
    if exists|i: int| 0 <= i < items@.len() && (#[trigger] items@[i])@ == wanted@ {
        let i = choose|i: int| 0 <= i < items@.len() && (#[trigger] items@[i])@ == wanted@;
        assert(texts(items@)[i] == wanted@);
    }
}

/// Replacing replaces the first occurrence, keeps what stands before it, and treats what follows
/// in the same way.
pub proof fn law_replace(
    a: Seq<char>,
    b: &str,
    s: &str,
    from: &str,
    to: &str,
    r: String,
    rest: String,
)
    requires
        call_ensures(replace, (s, from, to), r),
        call_ensures(replace, (b, from, to), rest),
        from@.len() > 0,
        s@ == a + from@ + b@,
        forall|i: int| 0 <= i < a.len() ==> !begins_with(#[trigger] s@.skip(i), from@),
    ensures
        r@ == a + to@ + rest@,
{
    assert forall|i: int| 0 <= i < a.len() implies !begins_with(
        #[trigger] (a + from@ + b@).skip(i),
        from@,
    ) by {
        assert(!begins_with(s@.skip(i), from@));
    }
    law_replacing_the_first(a, from@, b@, to@);
}

/// Filling a pattern puts the first argument in the place of the first mark, and the others behind
/// it.
pub proof fn law_fill(
    a: Seq<char>,
    b: &str,
    pattern: &str,
    args: &Vec<String>,
    others: &Vec<String>,
    r: String,
    rest: String,
)
    requires
        call_ensures(fill, (pattern, args), r),
        call_ensures(fill, (b, others), rest),
        args@.len() > 0,
        others@ == args@.skip(1),
        pattern@ == a + seq!['{', '}'] + b@,
        unmarked(pattern@, a.len() as int),
    ensures
        r@ == a + args@[0]@ + rest@,
{
    assert(texts(others@) =~= texts(args@).skip(1));
    law_filling_the_first_mark(a, b@, texts(args@));
}

/// A text is escaped part by part.
pub proof fn law_esc(a: &str, b: &str, both: &str, x: String, y: String, z: String)
    requires
        call_ensures(esc, (a,), x),
        call_ensures(esc, (b,), y),
        call_ensures(esc, (both,), z),
        both@ == a@ + b@,
    ensures
        z@ == x@ + y@,
{
    law_escaping_joins(a@, b@);
}

/// Numbers are written so that reading gives them back.
pub proof fn law_written_numbers(n: i64, text: String, s: &str, r: Option<i64>)
    requires
        call_ensures(integer_text, (n,), text),
        call_ensures(parse_i64, (s,), r),
    ensures
        s@ == text@ ==> r == Some(n),
        r is Some <==> (denoted(s@) matches Some(m) && -0x8000_0000_0000_0000 <= m
            <= 0x7fff_ffff_ffff_ffff),
        r matches Some(m) ==> denoted(s@) == Some(m as int),
{
    law_number_round_trip(n);
}

/// Natural numbers are written as numbers are.
pub proof fn law_written_naturals(n: u128, r: String)
    requires
        call_ensures(natural_text, (n,), r),
    ensures
        r@ == decimal(n as nat),
        r@ == signed_decimal(n as int),
{
}

/// Texts are compared by the first character in which they differ.
pub proof fn law_compared_order(
    common: Seq<char>,
    c: char,
    x: Seq<char>,
    d: char,
    y: Seq<char>,
    a: &str,
    b: &str,
    r: bool,
)
    requires
        call_ensures(comes_before, (a, b), r),
        c != d,
        a@ == common + seq![c] + x,
        b@ == common + seq![d] + y,
    ensures
        r <==> (c as int) < (d as int),
{
    law_order_of_texts(common, c, x, d, y);
}

/// What is found under a key of a map is its value, and nothing is found if and only if the map
/// does not hold the key.
pub proof fn law_found_values(m: &StringMap<String>, key: &str, r: Option<&String>)
    requires
        call_ensures(StringMap::<String>::get, (m, key), r),
    ensures
        r is Some <==> m@.dom().contains(key@),
        r matches Some(value) ==> value@ == m@[key@],
{
}

} // verus!
