//! What the placeholders of a template come to: which names are found in a text, and what stands
//! in their place in the end.
//!
//! The laws speak of a text as pieces: plain text and placeholders. A text may be read as pieces
//! in more ways than one: in `%a%b%c%` it cannot be told whether `b` stands between two
//! placeholders, and a value may itself hold a placeholder. So the laws ask that a placeholder
//! occurs nowhere but in its own pieces. That is so of texts that are legible: the delimiters
//! cannot be taken for a part of a name, and the first character of a placeholder does not occur
//! in plain text and values; where that character also occurs in the stop of a placeholder, as it
//! does in `%name%`, something stands between two neighbouring placeholders that can be taken
//! neither for a part of a name nor for a part of a delimiter, such as a space or the end of a
//! line.
use vstd::prelude::*;

use crate::rendering::{placeholder, rendered};
use crate::string_map::{
    has_key, in_key_order, index_of_key, lemma_key_index, lemma_ordered_of_finite, map_of, ordered,
};
use crate::text::{begins_with, replaced};
use crate::tokens::{
    begins_with_token, is_name, lemma_longest_name, longest_name, name_char, token_names, token_of,
};

verus! {

/// A piece of the text of a template.
pub enum Piece {
    /// Text that stays as it is.
    Plain(Seq<char>),
    /// The placeholder of a name.
    Mark(Seq<char>),
}

/// A piece as it is written.
pub open spec fn written(piece: Piece, start: Seq<char>, stop: Seq<char>) -> Seq<char> {
    match piece {
        Piece::Plain(text) => text,
        Piece::Mark(name) => placeholder(start, name, stop),
    }
}

/// The text that the pieces make.
pub open spec fn body_of(pieces: Seq<Piece>, start: Seq<char>, stop: Seq<char>) -> Seq<char>
    decreases pieces.len(),
{
    if pieces.len() == 0 {
        Seq::empty()
    } else {
        written(pieces[0], start, stop) + body_of(pieces.skip(1), start, stop)
    }
}

/// The text holds no character of a name.
pub open spec fn no_name_char(s: Seq<char>) -> bool {
    forall|i: int| 0 <= i < s.len() ==> !name_char(#[trigger] s[i])
}

/// Delimiters that cannot be taken for a part of a name.
pub open spec fn distinct_delimiters(start: Seq<char>, stop: Seq<char>) -> bool {
    start.len() > 0 && stop.len() > 0 && no_name_char(start) && no_name_char(stop)
}

/// A text in which no placeholder can begin.
pub open spec fn inert(s: Seq<char>, start: Seq<char>) -> bool {
    !s.contains(start[0])
}

/// The character can be taken neither for a part of a name nor for a part of a delimiter.
pub open spec fn parting(c: char, start: Seq<char>, stop: Seq<char>) -> bool {
    !name_char(c) && !start.contains(c) && !stop.contains(c)
}

/// Something in the text parts what stands before it from what stands behind it.
pub open spec fn parts(s: Seq<char>, start: Seq<char>, stop: Seq<char>) -> bool {
    exists|i: int| 0 <= i < s.len() && parting(#[trigger] s[i], start, stop)
}

/// The plain text before the first placeholder.
pub open spec fn lead(pieces: Seq<Piece>) -> Seq<char>
    decreases pieces.len(),
{
    if pieces.len() == 0 {
        Seq::empty()
    } else {
        match pieces[0] {
            Piece::Plain(text) => text + lead(pieces.skip(1)),
            Piece::Mark(_) => Seq::empty(),
        }
    }
}

/// One of the pieces is a placeholder.
pub open spec fn has_mark(pieces: Seq<Piece>) -> bool {
    exists|i: int| 0 <= i < pieces.len() && (#[trigger] pieces[i]) is Mark
}

/// Neighbouring placeholders are told apart: by their delimiters or by what stands between them.
pub open spec fn parted(pieces: Seq<Piece>, start: Seq<char>, stop: Seq<char>) -> bool
    decreases pieces.len(),
{
    pieces.len() > 0 ==> {
        &&& parted(pieces.skip(1), start, stop)
        &&& pieces[0] is Mark ==> !stop.contains(start[0]) || !has_mark(pieces.skip(1)) || parts(
            lead(pieces.skip(1)),
            start,
            stop,
        )
    }
}

/// The names are names, and no placeholder can begin within plain text.
pub open spec fn proper(pieces: Seq<Piece>, start: Seq<char>) -> bool {
    forall|i: int|
        0 <= i < pieces.len() ==> match #[trigger] pieces[i] {
            Piece::Plain(text) => inert(text, start),
            Piece::Mark(name) => is_name(name),
        }
}

/// The pieces of a text that can be read in one way only.
pub open spec fn legible(pieces: Seq<Piece>, start: Seq<char>, stop: Seq<char>) -> bool {
    distinct_delimiters(start, stop) && proper(pieces, start) && parted(pieces, start, stop)
}

// ---- finding names ----

/// The names of the placeholders in their order.
pub open spec fn mark_names(pieces: Seq<Piece>) -> Seq<Seq<char>>
    decreases pieces.len(),
{
    if pieces.len() == 0 {
        Seq::empty()
    } else {
        match pieces[0] {
            Piece::Plain(_) => mark_names(pieces.skip(1)),
            Piece::Mark(name) => seq![name] + mark_names(pieces.skip(1)),
        }
    }
}

proof fn lemma_no_token_in_inert(s: Seq<char>, start: Seq<char>, stop: Seq<char>)
    requires
        start.len() > 0,
        s.len() > 0,
        s[0] != start[0],
    ensures
        !begins_with_token(s, start, stop),
{
    if begins_with_token(s, start, stop) {
        let n = choose|n: int| token_of(s, n, start, stop);
        assert(s.take(start.len() as int)[0] == s[0]);
    }
}

proof fn lemma_names_behind_inert(
    t: Seq<char>,
    rest: Seq<char>,
    start: Seq<char>,
    stop: Seq<char>,
)
    requires
        start.len() > 0,
        inert(t, start),
    ensures
        token_names(t + rest, start, stop) == token_names(rest, start, stop),
    decreases t.len(),
{
    if t.len() == 0 {
        assert(t + rest =~= rest);
    } else {
        let s = t + rest;
        assert(t.contains(t[0]));
        lemma_no_token_in_inert(s, start, stop);
        assert(s.skip(1) =~= t.skip(1) + rest);
        assert forall|i: int| 0 <= i < t.skip(1).len() implies t.skip(1)[i] != start[0] by {
            assert(t.contains(t[i + 1]));
        }
        lemma_names_behind_inert(t.skip(1), rest, start, stop);
    }
}

proof fn lemma_name_of_mark(k: Seq<char>, rest: Seq<char>, start: Seq<char>, stop: Seq<char>)
    requires
        distinct_delimiters(start, stop),
        is_name(k),
    ensures
        ({
            let s = placeholder(start, k, stop) + rest;
            &&& begins_with_token(s, start, stop)
            &&& longest_name(s, start, stop) == k.len()
            &&& s.subrange(start.len() as int, (start.len() + k.len()) as int) == k
            &&& s.skip((start.len() + k.len() + stop.len()) as int) == rest
        }),
{
    let s = placeholder(start, k, stop) + rest;
    let n = start.len() as int;
    let m = k.len() as int;
    assert(s.take(n) =~= start);
    assert(s.subrange(n, n + m) =~= k);
    assert(s.skip(n + m).take(stop.len() as int) =~= stop);
    assert(token_of(s, m, start, stop));
    assert(s.skip(n + m + stop.len()) =~= rest);
    lemma_longest_name(s, start, stop);
    let l = longest_name(s, start, stop);
    if l > m {
        let name = s.subrange(n, n + l);
        assert(name[m] == s[n + m]);
        assert(s[n + m] == stop[0]);
        assert(name_char(name[m]));
        assert(!name_char(stop[0]));
    } else if l < m {
        assert(false);
    }
}

/// In a text made of pieces exactly the names of its placeholders are found, in their order.
pub proof fn law_placeholders_are_found(pieces: Seq<Piece>, start: Seq<char>, stop: Seq<char>)
    requires
        distinct_delimiters(start, stop),
        proper(pieces, start),
    ensures
        token_names(body_of(pieces, start, stop), start, stop) == mark_names(pieces),
    decreases pieces.len(),
{
    if pieces.len() > 0 {
        let rest = pieces.skip(1);
        assert forall|i: int| 0 <= i < rest.len() implies match #[trigger] rest[i] {
            Piece::Plain(text) => inert(text, start),
            Piece::Mark(name) => is_name(name),
        } by {
            assert(rest[i] == pieces[i + 1]);
        }
        law_placeholders_are_found(rest, start, stop);
        let tail = body_of(rest, start, stop);
        assert(match pieces[0] {
            Piece::Plain(text) => inert(text, start),
            Piece::Mark(name) => is_name(name),
        });
        match pieces[0] {
            Piece::Plain(text) => {
                lemma_names_behind_inert(text, tail, start, stop);
            },
            Piece::Mark(name) => {
                lemma_name_of_mark(name, tail, start, stop);
            },
        }
    }
}

// ---- filling one name ----

/// The pieces with each placeholder of the name replaced by the value.
pub open spec fn put(pieces: Seq<Piece>, name: Seq<char>, value: Seq<char>) -> Seq<Piece> {
    Seq::new(
        pieces.len(),
        |i: int|
            if pieces[i] == Piece::Mark(name) {
                Piece::Plain(value)
            } else {
                pieces[i]
            },
    )
}

proof fn lemma_replaced_behind(
    m: Seq<char>,
    rest: Seq<char>,
    from: Seq<char>,
    to: Seq<char>,
)
    requires
        from.len() > 0,
        forall|o: int| 0 <= o < m.len() ==> !begins_with(#[trigger] (m + rest).skip(o), from),
    ensures
        replaced(m + rest, from, to) == m + replaced(rest, from, to),
    decreases m.len(),
{
    if m.len() == 0 {
        assert(m + rest =~= rest);
        assert(m + replaced(rest, from, to) =~= replaced(rest, from, to));
    } else {
        let s = m + rest;
        assert(s.skip(0) =~= s);
        assert(!begins_with(s.skip(0), from));
        assert(s.skip(1) =~= m.skip(1) + rest);
        assert forall|o: int| 0 <= o < m.skip(1).len() implies !begins_with(
            #[trigger] (m.skip(1) + rest).skip(o),
            from,
        ) by {
            assert((m.skip(1) + rest).skip(o) =~= s.skip(o + 1));
        }
        lemma_replaced_behind(m.skip(1), rest, from, to);
        assert(seq![s[0]] + (m.skip(1) + replaced(rest, from, to)) =~= m + replaced(
            rest,
            from,
            to,
        ));
    }
}

proof fn lemma_none_in_inert(t: Seq<char>, rest: Seq<char>, from: Seq<char>)
    requires
        from.len() > 0,
        !t.contains(from[0]),
    ensures
        forall|o: int| 0 <= o < t.len() ==> !begins_with(#[trigger] (t + rest).skip(o), from),
{
    assert forall|o: int| 0 <= o < t.len() implies !begins_with(
        #[trigger] (t + rest).skip(o),
        from,
    ) by {
        let s = (t + rest).skip(o);
        if begins_with(s, from) {
            assert(s.take(from.len() as int)[0] == from[0]);
            assert(s[0] == t[o]);
            assert(t.contains(t[o]));
        }
    }
}

proof fn lemma_lead(pieces: Seq<Piece>, start: Seq<char>, stop: Seq<char>)
    requires
        proper(pieces, start),
    ensures
        inert(lead(pieces), start),
        begins_with(body_of(pieces, start, stop), lead(pieces)),
        !has_mark(pieces) ==> body_of(pieces, start, stop) == lead(pieces),
    decreases pieces.len(),
{
    let body = body_of(pieces, start, stop);
    if pieces.len() > 0 {
        let rest = pieces.skip(1);
        assert forall|i: int| 0 <= i < rest.len() implies match #[trigger] rest[i] {
            Piece::Plain(text) => inert(text, start),
            Piece::Mark(name) => is_name(name),
        } by {
            assert(rest[i] == pieces[i + 1]);
        }
        lemma_lead(rest, start, stop);
        assert(match pieces[0] {
            Piece::Plain(text) => inert(text, start),
            Piece::Mark(name) => is_name(name),
        });
        match pieces[0] {
            Piece::Plain(text) => {
                let l = text + lead(rest);
                assert forall|i: int| 0 <= i < l.len() implies l[i] != start[0] by {
                    if i < text.len() {
                        assert(text.contains(text[i]));
                    } else {
                        assert(lead(rest).contains(lead(rest)[i - text.len()]));
                    }
                }
                let tail = body_of(rest, start, stop);
                assert(body.take(l.len() as int) =~= l) by {
                    assert forall|i: int| 0 <= i < l.len() implies body[i] == l[i] by {
                        if i >= text.len() {
                            assert(tail.take(lead(rest).len() as int)[i - text.len()]
                                == lead(rest)[i - text.len()]);
                        }
                    }
                }
                if !has_mark(pieces) {
                    assert forall|i: int| 0 <= i < rest.len() implies !((#[trigger] rest[i]) is Mark) by {
                        assert(!(pieces[i + 1] is Mark));
                    }
                }
            },
            Piece::Mark(name) => {
                assert(body.take(0) =~= lead(pieces));
                assert(pieces[0] is Mark);
            },
        }
    } else {
        assert(body.take(0) =~= lead(pieces));
    }
}

/// Behind the placeholder of one name no placeholder of another begins before its end.
proof fn lemma_none_in_other_mark(
    other: Seq<char>,
    rest: Seq<Piece>,
    k: Seq<char>,
    start: Seq<char>,
    stop: Seq<char>,
)
    requires
        distinct_delimiters(start, stop),
        is_name(other),
        is_name(k),
        other != k,
        proper(rest, start),
        !stop.contains(start[0]) || !has_mark(rest) || parts(lead(rest), start, stop),
    ensures
        ({
            let m = placeholder(start, other, stop);
            forall|o: int|
                0 <= o < m.len() ==> !begins_with(
                    #[trigger] (m + body_of(rest, start, stop)).skip(o),
                    placeholder(start, k, stop),
                )
        }),
{
    let m = placeholder(start, other, stop);
    let tail = body_of(rest, start, stop);
    let s = m + tail;
    let ph = placeholder(start, k, stop);
    let n = start.len() as int;
    assert forall|o: int| 0 <= o < m.len() implies !begins_with(#[trigger] s.skip(o), ph) by {
        if begins_with(s.skip(o), ph) {
            let head = s.skip(o).take(ph.len() as int);
            assert(head == ph);
            assert forall|i: int| 0 <= i < ph.len() implies s[o + i] == ph[i] by {
                assert(head[i] == s[o + i]);
            }
            if o == 0 {
                lemma_same_name(other, k, tail, start, stop);
            } else if o < n {
                assert(s[o + (n - o)] == ph[n - o]);
                assert(s[n] == other[0]);
                assert(name_char(other[0]));
                assert(ph[n - o] == start[n - o]);
                assert(!name_char(start[n - o]));
            } else if o < n + other.len() {
                assert(s[o + 0] == ph[0]);
                assert(s[o] == other[o - n]);
                assert(name_char(other[o - n]));
                assert(!name_char(start[0]));
            } else {
                lemma_none_in_stop(other, rest, k, start, stop, o);
            }
        }
    }
}

proof fn lemma_same_name(
    other: Seq<char>,
    k: Seq<char>,
    tail: Seq<char>,
    start: Seq<char>,
    stop: Seq<char>,
)
    requires
        distinct_delimiters(start, stop),
        is_name(other),
        is_name(k),
        ({
            let s = placeholder(start, other, stop) + tail;
            let ph = placeholder(start, k, stop);
            ph.len() <= s.len() && forall|i: int| 0 <= i < ph.len() ==> s[0 + i] == #[trigger] ph[i]
        }),
    ensures
        other == k,
{
    let s = placeholder(start, other, stop) + tail;
    let ph = placeholder(start, k, stop);
    let n = start.len() as int;
    if k.len() < other.len() {
        let at = n + k.len();
        assert(ph[at] == stop[0]);
        assert(s[0 + at] == other[k.len() as int]);
        assert(name_char(other[k.len() as int]));
        assert(!name_char(stop[0]));
    } else if k.len() > other.len() {
        let at = n + other.len();
        assert(ph[at] == k[other.len() as int]);
        assert(s[0 + at] == stop[0]);
        assert(name_char(k[other.len() as int]));
        assert(!name_char(stop[0]));
    } else {
        assert forall|i: int| 0 <= i < k.len() implies other[i] == k[i] by {
            assert(ph[n + i] == k[i]);
            assert(s[0 + (n + i)] == other[i]);
        }
        assert(other =~= k);
    }
}

proof fn lemma_none_in_stop(
    other: Seq<char>,
    rest: Seq<Piece>,
    k: Seq<char>,
    start: Seq<char>,
    stop: Seq<char>,
    o: int,
)
    requires
        distinct_delimiters(start, stop),
        is_name(other),
        is_name(k),
        proper(rest, start),
        !stop.contains(start[0]) || !has_mark(rest) || parts(lead(rest), start, stop),
        start.len() + other.len() <= o < start.len() + other.len() + stop.len(),
    ensures
        ({
            let s = placeholder(start, other, stop) + body_of(rest, start, stop);
            let ph = placeholder(start, k, stop);
            !(o + ph.len() <= s.len() && forall|i: int|
                0 <= i < ph.len() ==> s[o + i] == #[trigger] ph[i])
        }),
{
    let tail = body_of(rest, start, stop);
    let m = placeholder(start, other, stop);
    let s = m + tail;
    let ph = placeholder(start, k, stop);
    let n = start.len() as int;
    if o + ph.len() <= s.len() && forall|i: int|
        0 <= i < ph.len() ==> s[o + i] == #[trigger] ph[i] {
        let j = o - n - other.len();
        assert(ph[0] == start[0]);
        assert(s[o + 0] == stop[j]);
        assert(stop.contains(start[0]));
        // The name of the placeholder begins behind the stop.
        let left = stop.len() - j;
        assert(ph[n] == k[0]);
        assert(name_char(k[0]));
        if n < left {
            assert(s[o + n] == stop[j + n]);
            assert(!name_char(stop[j + n]));
        }
        assert(n >= left);
        // Its stop holds the first character of a placeholder, which plain text does not.
        let z = n + k.len() + j;
        assert(ph[z] == stop[j]);
        assert(s[o + z] == start[0]);
        assert(s[o + z] == tail[z - left]);
        lemma_lead(rest, start, stop);
        let l = lead(rest);
        if z - left < l.len() {
            assert(tail.take(l.len() as int)[z - left] == l[z - left]);
            assert(l.contains(l[z - left]));
        }
        if !has_mark(rest) {
            assert(tail == l);
            assert(false);
        }
        // So all that stands before the next placeholder would be a part of this one.
        let b = choose|b: int| 0 <= b < l.len() && parting(#[trigger] l[b], start, stop);
        let y = left + b;
        assert(y < z);
        assert(tail.take(l.len() as int)[b] == l[b]);
        assert(s[o + y] == tail[b]);
        assert(s[o + y] == ph[y]);
        if y < n {
            assert(ph[y] == start[y]);
            assert(start.contains(start[y]));
        } else if y < n + k.len() {
            assert(ph[y] == k[y - n]);
            assert(name_char(k[y - n]));
        } else {
            assert(ph[y] == stop[y - n - k.len()]);
            assert(stop.contains(stop[y - n - k.len()]));
        }
    }
}

proof fn lemma_rest_is_legible(pieces: Seq<Piece>, start: Seq<char>, stop: Seq<char>)
    requires
        legible(pieces, start, stop),
        pieces.len() > 0,
    ensures
        legible(pieces.skip(1), start, stop),
{
    let rest = pieces.skip(1);
    assert forall|i: int| 0 <= i < rest.len() implies match #[trigger] rest[i] {
        Piece::Plain(text) => inert(text, start),
        Piece::Mark(name) => is_name(name),
    } by {
        assert(rest[i] == pieces[i + 1]);
    }
}

/// The placeholder of the name occurs in the text of the pieces nowhere but in the pieces of this
/// name.
pub open spec fn apart(pieces: Seq<Piece>, start: Seq<char>, stop: Seq<char>, name: Seq<char>) -> bool
    decreases pieces.len(),
{
    &&& placeholder(start, name, stop).len() > 0
    &&& pieces.len() > 0 ==> {
        &&& apart(pieces.skip(1), start, stop, name)
        &&& pieces[0] != Piece::Mark(name) ==> forall|o: int|
            0 <= o < written(pieces[0], start, stop).len() ==> !begins_with(
                #[trigger] body_of(pieces, start, stop).skip(o),
                placeholder(start, name, stop),
            )
    }
}

/// Replacing the placeholder of one name in a text made of pieces replaces exactly the pieces of
/// this name.
pub proof fn law_one_name_is_filled(
    pieces: Seq<Piece>,
    start: Seq<char>,
    stop: Seq<char>,
    name: Seq<char>,
    value: Seq<char>,
)
    requires
        apart(pieces, start, stop, name),
    ensures
        replaced(body_of(pieces, start, stop), placeholder(start, name, stop), value) == body_of(
            put(pieces, name, value),
            start,
            stop,
        ),
    decreases pieces.len(),
{
    let ph = placeholder(start, name, stop);
    if pieces.len() > 0 {
        let rest = pieces.skip(1);
        law_one_name_is_filled(rest, start, stop, name, value);
        assert(put(pieces, name, value).skip(1) =~= put(rest, name, value));
        let tail = body_of(rest, start, stop);
        let body = body_of(pieces, start, stop);
        if pieces[0] == Piece::Mark(name) {
            assert(body.take(ph.len() as int) =~= ph);
            assert(body.skip(ph.len() as int) =~= tail);
        } else {
            lemma_replaced_behind(written(pieces[0], start, stop), tail, ph, value);
        }
    }
}

/// In a legible text the placeholder of a name occurs nowhere but in its own pieces.
pub proof fn law_legible_names_are_apart(
    pieces: Seq<Piece>,
    start: Seq<char>,
    stop: Seq<char>,
    name: Seq<char>,
)
    requires
        legible(pieces, start, stop),
        is_name(name),
    ensures
        apart(pieces, start, stop, name),
    decreases pieces.len(),
{
    let ph = placeholder(start, name, stop);
    assert(ph[0] == start[0]);
    if pieces.len() > 0 {
        let rest = pieces.skip(1);
        lemma_rest_is_legible(pieces, start, stop);
        law_legible_names_are_apart(rest, start, stop, name);
        let tail = body_of(rest, start, stop);
        assert(match pieces[0] {
            Piece::Plain(text) => inert(text, start),
            Piece::Mark(name) => is_name(name),
        });
        match pieces[0] {
            Piece::Plain(text) => {
                lemma_none_in_inert(text, tail, ph);
            },
            Piece::Mark(other) => {
                if other != name {
                    lemma_none_in_other_mark(other, rest, name, start, stop);
                }
            },
        }
    }
}

proof fn lemma_put_lead(pieces: Seq<Piece>, name: Seq<char>, value: Seq<char>)
    ensures
        begins_with(lead(put(pieces, name, value)), lead(pieces)),
        has_mark(put(pieces, name, value)) ==> has_mark(pieces),
    decreases pieces.len(),
{
    let done = put(pieces, name, value);
    if has_mark(done) {
        let i = choose|i: int| 0 <= i < done.len() && (#[trigger] done[i]) is Mark;
        assert(pieces[i] is Mark);
    }
    if pieces.len() > 0 {
        let rest = pieces.skip(1);
        lemma_put_lead(rest, name, value);
        assert(done.skip(1) =~= put(rest, name, value));
        match pieces[0] {
            Piece::Plain(text) => {
                let a = lead(done.skip(1));
                let b = lead(rest);
                assert((text + a).take((text + b).len() as int) =~= text + b) by {
                    assert forall|i: int| 0 <= i < (text + b).len() implies (text + a)[i] == (text
                        + b)[i] by {
                        if i >= text.len() {
                            assert(a.take(b.len() as int)[i - text.len()] == b[i - text.len()]);
                        }
                    }
                }
            },
            Piece::Mark(_) => {
                assert(lead(done).take(0) =~= lead(pieces));
            },
        }
    } else {
        assert(lead(done).take(0) =~= lead(pieces));
    }
}

proof fn lemma_put_is_legible(
    pieces: Seq<Piece>,
    start: Seq<char>,
    stop: Seq<char>,
    name: Seq<char>,
    value: Seq<char>,
)
    requires
        legible(pieces, start, stop),
        inert(value, start),
    ensures
        legible(put(pieces, name, value), start, stop),
    decreases pieces.len(),
{
    let done = put(pieces, name, value);
    assert forall|i: int| 0 <= i < done.len() implies match #[trigger] done[i] {
        Piece::Plain(text) => inert(text, start),
        Piece::Mark(name) => is_name(name),
    } by {
        assert(match pieces[i] {
            Piece::Plain(text) => inert(text, start),
            Piece::Mark(name) => is_name(name),
        });
    }
    if pieces.len() > 0 {
        let rest = pieces.skip(1);
        lemma_rest_is_legible(pieces, start, stop);
        lemma_put_is_legible(rest, start, stop, name, value);
        assert(done.skip(1) =~= put(rest, name, value));
        lemma_put_lead(rest, name, value);
        if done[0] is Mark && stop.contains(start[0]) && has_mark(done.skip(1)) {
            let a = lead(done.skip(1));
            let b = lead(rest);
            let i = choose|i: int| 0 <= i < b.len() && parting(#[trigger] b[i], start, stop);
            assert(a.take(b.len() as int)[i] == b[i]);
            assert(parting(a[i], start, stop));
        }
    }
}

// ---- filling all names ----

/// The pieces with the placeholder of each entry replaced by its value, one entry after the other.
pub open spec fn put_all(pieces: Seq<Piece>, entries: Seq<(Seq<char>, Seq<char>)>) -> Seq<Piece>
    decreases entries.len(),
{
    if entries.len() == 0 {
        pieces
    } else {
        put(put_all(pieces, entries.drop_last()), entries.last().0, entries.last().1)
    }
}

/// Each placeholder occurs nowhere but in its own pieces when its turn comes.
pub open spec fn all_apart(
    pieces: Seq<Piece>,
    start: Seq<char>,
    stop: Seq<char>,
    entries: Seq<(Seq<char>, Seq<char>)>,
) -> bool
    decreases entries.len(),
{
    entries.len() > 0 ==> {
        &&& all_apart(pieces, start, stop, entries.drop_last())
        &&& apart(put_all(pieces, entries.drop_last()), start, stop, entries.last().0)
    }
}

proof fn lemma_rendered_pieces(
    pieces: Seq<Piece>,
    start: Seq<char>,
    stop: Seq<char>,
    entries: Seq<(Seq<char>, Seq<char>)>,
)
    requires
        all_apart(pieces, start, stop, entries),
    ensures
        rendered(body_of(pieces, start, stop), start, stop, entries) == body_of(
            put_all(pieces, entries),
            start,
            stop,
        ),
    decreases entries.len(),
{
    if entries.len() > 0 {
        let before = entries.drop_last();
        let last = entries.last();
        lemma_rendered_pieces(pieces, start, stop, before);
        law_one_name_is_filled(put_all(pieces, before), start, stop, last.0, last.1);
    }
}

/// The names are names, and no placeholder can begin within a value.
pub open spec fn proper_values(values: Map<Seq<char>, Seq<char>>, start: Seq<char>) -> bool {
    forall|k: Seq<char>| #[trigger]
        values.dom().contains(k) ==> is_name(k) && inert(values[k], start)
}

proof fn lemma_legible_entries(
    pieces: Seq<Piece>,
    start: Seq<char>,
    stop: Seq<char>,
    entries: Seq<(Seq<char>, Seq<char>)>,
)
    requires
        legible(pieces, start, stop),
        forall|i: int|
            0 <= i < entries.len() ==> is_name((#[trigger] entries[i]).0) && inert(
                entries[i].1,
                start,
            ),
    ensures
        legible(put_all(pieces, entries), start, stop),
        all_apart(pieces, start, stop, entries),
    decreases entries.len(),
{
    if entries.len() > 0 {
        let before = entries.drop_last();
        let last = entries.last();
        assert forall|i: int| 0 <= i < before.len() implies is_name((#[trigger] before[i]).0)
            && inert(before[i].1, start) by {
            assert(before[i] == entries[i]);
        }
        assert(is_name(entries[entries.len() - 1].0) && inert(entries[entries.len() - 1].1, start));
        lemma_legible_entries(pieces, start, stop, before);
        law_legible_names_are_apart(put_all(pieces, before), start, stop, last.0);
        lemma_put_is_legible(put_all(pieces, before), start, stop, last.0, last.1);
    }
}

/// In a legible text, with values in which no placeholder can begin, each placeholder occurs
/// nowhere but in its own pieces when its turn comes.
pub proof fn law_legible_texts_stay_apart(
    pieces: Seq<Piece>,
    start: Seq<char>,
    stop: Seq<char>,
    values: Map<Seq<char>, Seq<char>>,
)
    requires
        legible(pieces, start, stop),
        values.dom().finite(),
        proper_values(values, start),
    ensures
        all_apart(pieces, start, stop, ordered(values)),
{
    lemma_ordered_of_finite(values);
    let entries = ordered(values);
    assert forall|i: int| 0 <= i < entries.len() implies is_name((#[trigger] entries[i]).0)
        && inert(entries[i].1, start) by {
        lemma_key_index(entries, i);
        assert(values.dom().contains(entries[i].0));
    }
    lemma_legible_entries(pieces, start, stop, entries);
}

/// The pieces with each placeholder whose name has a value replaced by the value.
pub open spec fn filled_in(pieces: Seq<Piece>, values: Map<Seq<char>, Seq<char>>) -> Seq<Piece> {
    Seq::new(
        pieces.len(),
        |i: int|
            match pieces[i] {
                Piece::Plain(text) => Piece::Plain(text),
                Piece::Mark(name) => if values.dom().contains(name) {
                    Piece::Plain(values[name])
                } else {
                    Piece::Mark(name)
                },
            },
    )
}

proof fn lemma_put_all_at(pieces: Seq<Piece>, entries: Seq<(Seq<char>, Seq<char>)>, i: int)
    requires
        in_key_order(entries),
        0 <= i < pieces.len(),
    ensures
        put_all(pieces, entries).len() == pieces.len(),
        pieces[i] is Plain ==> put_all(pieces, entries)[i] == pieces[i],
        pieces[i] matches Piece::Mark(name) ==> {
            &&& !has_key(entries, name) ==> put_all(pieces, entries)[i] == pieces[i]
            &&& forall|j: int|
                0 <= j < entries.len() && (#[trigger] entries[j]).0 == name ==> put_all(
                    pieces,
                    entries,
                )[i] == Piece::Plain(entries[j].1)
        },
    decreases entries.len(),
{
    if entries.len() > 0 {
        let before = entries.drop_last();
        assert forall|a: int, b: int| 0 <= a < b < before.len() implies crate::order::before(
            (#[trigger] before[a]).0,
            (#[trigger] before[b]).0,
        ) by {
            assert(before[a] == entries[a] && before[b] == entries[b]);
        }
        lemma_put_all_at(pieces, before, i);
        let had = put_all(pieces, before);
        let last = entries.len() - 1;
        if let Piece::Mark(name) = pieces[i] {
            if !has_key(entries, name) {
                if has_key(before, name) {
                    let j = index_of_key(before, name);
                    assert(entries[j].0 == name);
                }
                assert(entries[last].0 != name);
            }
            assert forall|j: int|
                0 <= j < entries.len() && (#[trigger] entries[j]).0 == name implies put_all(
                pieces,
                entries,
            )[i] == Piece::Plain(entries[j].1) by {
                if j < last {
                    assert(before[j] == entries[j]);
                    assert(had[i] == Piece::Plain(entries[j].1));
                } else {
                    if has_key(before, name) {
                        let a = index_of_key(before, name);
                        assert(entries[a].0 == name);
                        lemma_key_index(entries, a);
                        lemma_key_index(entries, last);
                    }
                    assert(had[i] == pieces[i]);
                }
            }
        }
    }
}

proof fn lemma_put_all(pieces: Seq<Piece>, entries: Seq<(Seq<char>, Seq<char>)>)
    requires
        in_key_order(entries),
    ensures
        put_all(pieces, entries) == filled_in(pieces, map_of(entries)),
{
    let a = put_all(pieces, entries);
    let b = filled_in(pieces, map_of(entries));
    lemma_put_all_len(pieces, entries);
    assert forall|i: int| 0 <= i < pieces.len() implies a[i] == b[i] by {
        lemma_put_all_at(pieces, entries, i);
        if let Piece::Mark(name) = pieces[i] {
            if has_key(entries, name) {
                let j = index_of_key(entries, name);
                assert(entries[j].0 == name);
                assert(map_of(entries).dom().contains(name));
            } else {
                assert(!map_of(entries).dom().contains(name));
            }
        }
    }
    assert(a =~= b);
}

proof fn lemma_put_all_len(pieces: Seq<Piece>, entries: Seq<(Seq<char>, Seq<char>)>)
    ensures
        put_all(pieces, entries).len() == pieces.len(),
    decreases entries.len(),
{
    if entries.len() > 0 {
        lemma_put_all_len(pieces, entries.drop_last());
    }
}

/// Filling a text made of pieces puts the value of each name in the place of its placeholders and
/// changes nothing else.
pub proof fn law_rendering_fills_placeholders(
    pieces: Seq<Piece>,
    start: Seq<char>,
    stop: Seq<char>,
    values: Map<Seq<char>, Seq<char>>,
)
    requires
        values.dom().finite(),
        all_apart(pieces, start, stop, ordered(values)),
    ensures
        rendered(body_of(pieces, start, stop), start, stop, ordered(values)) == body_of(
            filled_in(pieces, values),
            start,
            stop,
        ),
{
    lemma_ordered_of_finite(values);
    lemma_rendered_pieces(pieces, start, stop, ordered(values));
    lemma_put_all(pieces, ordered(values));
}

} // verus!
