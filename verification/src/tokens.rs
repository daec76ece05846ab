//! The placeholders of a template: a start, a name, a stop.
use vstd::prelude::*;

use crate::text::{ascii_alphanumeric, begins_with};

verus! {

/// The characters that have a meaning in a pattern.
pub open spec fn has_meaning(c: char) -> bool {
    ||| c == '\\' || c == '.' || c == '+' || c == '*' || c == '?'
    ||| c == '(' || c == ')' || c == '|' || c == '[' || c == ']'
    ||| c == '{' || c == '}' || c == '^' || c == '$' || c == '#'
    ||| c == '&' || c == '-' || c == '~'
}

/// A text as a pattern that matches just this text.
pub open spec fn escaped(s: Seq<char>) -> Seq<char>
    decreases s.len(),
{
    if s.len() == 0 {
        Seq::empty()
    } else if has_meaning(s.last()) {
        escaped(s.drop_last()).push('\\').push(s.last())
    } else {
        escaped(s.drop_last()).push(s.last())
    }
}

/// The pattern of a name as a group.
pub const NAME_GROUP: &'static str = "([A-Za-z_][A-Za-z0-9_]*)";

/// The pattern of a name between the literal texts `start` and `stop`.
pub open spec fn name_pattern(start: Seq<char>, stop: Seq<char>) -> Seq<char> {
    escaped(start) + NAME_GROUP@ + escaped(stop)
}

/// Delimiters of modest length: ten thousand characters at most.
pub open spec fn modest(start: Seq<char>, stop: Seq<char>) -> bool {
    start.len() + stop.len() <= 10000
}

/// The characters of a name behind its first one.
pub open spec fn name_char(c: char) -> bool {
    ascii_alphanumeric(c) || c == '_'
}

/// A name: an ASCII letter or `_`, then ASCII letters, digits and `_`.
pub open spec fn is_name(s: Seq<char>) -> bool {
    &&& s.len() > 0
    &&& !('0' <= s[0] <= '9')
    &&& forall|i: int| 0 <= i < s.len() ==> name_char(#[trigger] s[i])
}

/// `s` begins with a placeholder whose name has `n` characters.
pub open spec fn token_of(s: Seq<char>, n: int, start: Seq<char>, stop: Seq<char>) -> bool {
    &&& 0 < n <= s.len() - start.len() - stop.len()
    &&& begins_with(s, start)
    &&& is_name(s.subrange(start.len() as int, start.len() + n))
    &&& begins_with(s.skip(start.len() + n), stop)
}

/// `s` begins with a placeholder.
pub open spec fn begins_with_token(s: Seq<char>, start: Seq<char>, stop: Seq<char>) -> bool {
    exists|n: int| token_of(s, n, start, stop)
}

/// The length of the longest name of a placeholder with which `s` begins.
pub open spec fn longest_name(s: Seq<char>, start: Seq<char>, stop: Seq<char>) -> int {
    choose|n: int|
        token_of(s, n, start, stop) && forall|m: int| m > n ==> !token_of(s, m, start, stop)
}

/// The names of the placeholders of `s`, from left to right: the placeholders do not overlap, and
/// each name is as long as it can be.
pub open spec fn token_names(s: Seq<char>, start: Seq<char>, stop: Seq<char>) -> Seq<Seq<char>>
    decreases s.len(),
    via token_names_decreases
{
    if s.len() == 0 {
        Seq::empty()
    } else if begins_with_token(s, start, stop) {
        let n = longest_name(s, start, stop);
        seq![s.subrange(start.len() as int, start.len() + n)] + token_names(
            s.skip(start.len() + n + stop.len()),
            start,
            stop,
        )
    } else {
        token_names(s.skip(1), start, stop)
    }
}

#[via_fn]
proof fn token_names_decreases(s: Seq<char>, start: Seq<char>, stop: Seq<char>) {
    if begins_with_token(s, start, stop) {
        lemma_longest_name(s, start, stop);
    }
}

/// Where `s` begins with a placeholder there is a longest name.
pub proof fn lemma_longest_name(s: Seq<char>, start: Seq<char>, stop: Seq<char>)
    requires
        begins_with_token(s, start, stop),
    ensures
        token_of(s, longest_name(s, start, stop), start, stop),
        forall|m: int| m > longest_name(s, start, stop) ==> !token_of(s, m, start, stop),
{
    let n = choose|n: int| token_of(s, n, start, stop);
    lemma_longest_from(s, start, stop, n);
}

proof fn lemma_longest_from(s: Seq<char>, start: Seq<char>, stop: Seq<char>, n: int)
    requires
        token_of(s, n, start, stop),
    ensures
        exists|k: int|
            #[trigger] token_of(s, k, start, stop) && forall|m: int|
                m > k ==> !token_of(s, m, start, stop),
    decreases s.len() - n,
{
    if exists|m: int| m > n && token_of(s, m, start, stop) {
        let m = choose|m: int| m > n && token_of(s, m, start, stop);
        lemma_longest_from(s, start, stop, m);
    }
}

/// What is found between the delimiters is a name.
pub proof fn law_found_names_are_names(s: Seq<char>, start: Seq<char>, stop: Seq<char>)
    ensures
        forall|i: int|
            0 <= i < token_names(s, start, stop).len() ==> is_name(
                #[trigger] token_names(s, start, stop)[i],
            ),
    decreases s.len(),
{
    if s.len() > 0 {
        if begins_with_token(s, start, stop) {
            lemma_longest_name(s, start, stop);
            let n = longest_name(s, start, stop);
            let rest = s.skip(start.len() + n + stop.len());
            law_found_names_are_names(rest, start, stop);
            let all = token_names(s, start, stop);
            assert forall|i: int| 0 <= i < all.len() implies is_name(#[trigger] all[i]) by {
                if i > 0 {
                    assert(all[i] == token_names(rest, start, stop)[i - 1]);
                } else {
                    assert(all[0] == s.subrange(start.len() as int, start.len() + n));
                }
            }
        } else {
            law_found_names_are_names(s.skip(1), start, stop);
            assert(token_names(s, start, stop) == token_names(s.skip(1), start, stop));
        }
    } else {
        assert(token_names(s, start, stop).len() == 0);
    }
}

/// A name is not empty, begins with an ASCII letter or `_`, and goes on with ASCII letters, digits
/// and `_`; nothing else is a name.
pub proof fn law_names(s: Seq<char>)
    ensures
        is_name(s) <==> {
            &&& s.len() > 0
            &&& (65 <= s[0] as int <= 90 || 97 <= s[0] as int <= 122 || s[0] as int == 95)
            &&& forall|i: int|
                0 <= i < s.len() ==> ({
                    let c = #[trigger] s[i] as int;
                    48 <= c <= 57 || 65 <= c <= 90 || 97 <= c <= 122 || c == 95
                })
        },
{
    if is_name(s) {
        assert(name_char(s[0]));
        assert forall|i: int| 0 <= i < s.len() implies ({
            let c = #[trigger] s[i] as int;
            48 <= c <= 57 || 65 <= c <= 90 || 97 <= c <= 122 || c == 95
        }) by {
            assert(name_char(s[i]));
        }
    }
}

/// Texts are escaped character by character: one that has a meaning in a pattern gets a backslash
/// before it, every other one stays.
pub proof fn law_escaped_texts(s: Seq<char>, c: char)
    ensures
        has_meaning(c) ==> escaped(s.push(c)) == escaped(s) + seq!['\\', c],
        !has_meaning(c) ==> escaped(s.push(c)) == escaped(s) + seq![c],
        escaped(Seq::<char>::empty()).len() == 0,
{
    assert(s.push(c).drop_last() =~= s);
    assert(escaped(s).push('\\').push(c) =~= escaped(s) + seq!['\\', c]);
    assert(escaped(s).push(c) =~= escaped(s) + seq![c]);
}

} // verus!
