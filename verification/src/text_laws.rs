//! What the operations on texts give, said of the texts they are given.
use vstd::prelude::*;

use crate::text::{
    all_trimmed, ascii_alphanumeric, begins_with, blank, ends_with, filled, interleaved, joined,
    law_split_undoes_join, lemma_replaced_absent, lemma_split, lemma_split_whole, lemma_trimmed,
    lower_char, lowered, non_empty, replaced, split, texts, trimmed, trimmed_end, trimmed_start,
    white_space, without_trailing,
};

verus! {

// ---- views of strings ----

/// The texts of strings are the texts of each, in order.
pub proof fn law_texts(v: Seq<String>)
    ensures
        texts(v).len() == v.len(),
        forall|i: int| 0 <= i < v.len() ==> #[trigger] texts(v)[i] == v[i]@,
{
}

// ---- white space ----

proof fn lemma_trimmed_start_of(a: Seq<char>, t: Seq<char>)
    requires
        blank(a),
        t.len() > 0 ==> !white_space(t[0]),
    ensures
        trimmed_start(a + t) == t,
    decreases a.len(),
{
    if a.len() == 0 {
        assert(a + t =~= t);
    } else {
        assert(white_space(a[0]));
        assert((a + t)[0] == a[0]);
        assert((a + t).skip(1) =~= a.skip(1) + t);
        lemma_trimmed_start_of(a.skip(1), t);
    }
}

proof fn lemma_trimmed_end_of(t: Seq<char>, b: Seq<char>)
    requires
        blank(b),
        t.len() > 0 ==> !white_space(t.last()),
    ensures
        trimmed_end(t + b) == t,
    decreases b.len(),
{
    if b.len() == 0 {
        assert(t + b =~= t);
    } else {
        assert(white_space(b[b.len() - 1]));
        assert((t + b).last() == b.last());
        assert((t + b).drop_last() =~= t + b.drop_last());
        lemma_trimmed_end_of(t, b.drop_last());
    }
}

/// Trimming takes away the white space before and behind a text, however much there is, and
/// nothing of the text itself.
pub proof fn law_trimming(before: Seq<char>, core: Seq<char>, behind: Seq<char>)
    requires
        forall|i: int| 0 <= i < before.len() ==> white_space(#[trigger] before[i]),
        forall|i: int| 0 <= i < behind.len() ==> white_space(#[trigger] behind[i]),
        core.len() > 0 ==> !white_space(core[0]) && !white_space(core[core.len() - 1]),
    ensures
        trimmed(before + core + behind) == core,
{
    if core.len() == 0 {
        let all = before + core + behind;
        assert forall|i: int| 0 <= i < all.len() implies white_space(#[trigger] all[i]) by {
            if i < before.len() {
                assert(all[i] == before[i]);
            } else {
                assert(all[i] == behind[i - before.len()]);
            }
        }
        lemma_trimmed(all);
        assert(trimmed(all) =~= core);
    } else {
        assert(before + core + behind =~= before + (core + behind));
        assert((core + behind)[0] == core[0]);
        lemma_trimmed_start_of(before, core + behind);
        lemma_trimmed_end_of(core, behind);
    }
}

/// A text is blank where no character of it is other than white space; the spaces, tabs and line
/// ends are white space, and no letter, digit or visible ASCII character is.
pub proof fn law_blank(s: Seq<char>, c: char)
    ensures
        blank(s) == !(exists|i: int| 0 <= i < s.len() && !white_space(#[trigger] s[i])),
        white_space(' ') && white_space('\t') && white_space('\n') && white_space('\r'),
        '!' <= c <= '~' ==> !white_space(c),
{
}

// ---- letters ----

/// Making letters small keeps the length, adds 32 to each ASCII capital letter, and keeps every
/// other character.
pub proof fn law_lowering(s: Seq<char>)
    ensures
        lowered(s).len() == s.len(),
        forall|i: int|
            0 <= i < s.len() ==> #[trigger] lowered(s)[i] as int == (if 65 <= s[i] as int <= 90 {
                s[i] as int + 32
            } else {
                s[i] as int
            }),
{
}

/// Texts that differ in nothing but the case of their ASCII letters are made the same.
pub proof fn law_lowering_forgets_case(s: Seq<char>, t: Seq<char>)
    ensures
        (lowered(s) == lowered(t)) == (s.len() == t.len() && forall|i: int|
            0 <= i < s.len() ==> lower_char(#[trigger] s[i]) == lower_char(t[i])),
{
    if lowered(s) == lowered(t) {
        assert(lowered(s).len() == lowered(t).len());
        assert forall|i: int| 0 <= i < s.len() implies lower_char(#[trigger] s[i]) == lower_char(
            t[i],
        ) by {
            assert(lowered(s)[i] == lowered(t)[i]);
        }
    } else if s.len() == t.len() {
        if forall|i: int| 0 <= i < s.len() ==> lower_char(#[trigger] s[i]) == lower_char(t[i]) {
            assert(lowered(s) =~= lowered(t));
        }
    }
}

/// The ASCII letters and digits are alphanumeric, and no other character.
pub proof fn law_alphanumeric(c: char)
    ensures
        ascii_alphanumeric(c) == (48 <= c as int <= 57 || 65 <= c as int <= 90 || 97 <= c as int
            <= 122),
{
}

// ---- beginnings and ends ----

/// A text begins with `p` if and only if it is `p` and something behind it, and ends with `p` if
/// and only if it is something and `p` behind it.
pub proof fn law_beginnings_and_ends(s: Seq<char>, p: Seq<char>, other: Seq<char>)
    ensures
        begins_with(p + other, p),
        ends_with(other + p, p),
        begins_with(s, p) ==> s == p + s.skip(p.len() as int),
        ends_with(s, p) ==> s == s.take(s.len() - p.len()) + p,
        p.len() > s.len() ==> !begins_with(s, p) && !ends_with(s, p),
{
    assert((p + other).take(p.len() as int) =~= p);
    assert((other + p).skip(other.len() as int) =~= p);
    if begins_with(s, p) {
        assert(s =~= s.take(p.len() as int) + s.skip(p.len() as int));
    }
    if ends_with(s, p) {
        assert(s =~= s.take(s.len() - p.len()) + s.skip(s.len() - p.len()));
    }
}

/// Taking a character away from the end of a text takes the whole run of it, and nothing of what
/// stands before the run.
pub proof fn law_without_trailing(core: Seq<char>, run: Seq<char>, c: char)
    requires
        forall|i: int| 0 <= i < run.len() ==> #[trigger] run[i] == c,
        core.len() > 0 ==> core[core.len() - 1] != c,
    ensures
        without_trailing(core + run, c) == core,
    decreases run.len(),
{
    if run.len() == 0 {
        assert(core + run =~= core);
    } else {
        assert(run[run.len() - 1] == c);
        assert((core + run).drop_last() =~= core + run.drop_last());
        assert forall|i: int| 0 <= i < run.drop_last().len() implies #[trigger] run.drop_last()[i]
            == c by {
            assert(run[i] == c);
        }
        law_without_trailing(core, run.drop_last(), c);
    }
}

// ---- parts ----

/// The parts of a text, with the separator between neighbours, are the text again.
pub proof fn law_join_undoes_split(s: Seq<char>, sep: char)
    ensures
        joined(split(s, sep), seq![sep]) == s,
        split(s, sep).len() > 0,
        forall|i: int| 0 <= i < split(s, sep).len() ==> !(#[trigger] split(s, sep)[i]).contains(sep),
    decreases s.len(),
{
    lemma_split(s, sep);
    let parts = split(s, sep);
    if s.len() == 0 {
        assert(joined(parts, seq![sep]) =~= s);
    } else {
        let front = split(s.drop_last(), sep);
        law_join_undoes_split(s.drop_last(), sep);
        if s.last() == sep {
            assert(parts.drop_last() =~= front);
            assert(joined(parts, seq![sep]) =~= s.drop_last() + seq![sep]);
            assert(s =~= s.drop_last() + seq![sep]);
        } else {
            assert(parts.drop_last() =~= front.drop_last());
            assert(parts.last() == front.last().push(s.last()));
            if parts.len() == 1 {
                assert(joined(parts, seq![sep]) =~= s.drop_last().push(s.last()));
            } else {
                assert(joined(parts, seq![sep]) =~= joined(front, seq![sep]).push(s.last()));
            }
            assert(s =~= s.drop_last().push(s.last()));
        }
    }
}

/// Joining puts each text behind those before it, with the separator in between; no text and no
/// separator is left out.
pub proof fn law_joining(parts: Seq<Seq<char>>, last: Seq<char>, sep: Seq<char>)
    ensures
        joined(Seq::<Seq<char>>::empty(), sep).len() == 0,
        parts.len() == 0 ==> joined(parts.push(last), sep) == last,
        parts.len() > 0 ==> joined(parts.push(last), sep) == joined(parts, sep) + sep + last,
{
    assert(parts.push(last).drop_last() =~= parts);
}

/// Leaving out the empty texts keeps the others, all of them and in their order.
pub proof fn law_non_empty(parts: Seq<Seq<char>>)
    ensures
        non_empty(parts) == parts.filter(|p: Seq<char>| p.len() > 0),
    decreases parts.len(),
{
    reveal(Seq::filter);
    if parts.len() > 0 {
        law_non_empty(parts.drop_last());
    }
}

/// Trimming texts trims each of them.
pub proof fn law_all_trimmed(parts: Seq<Seq<char>>)
    ensures
        all_trimmed(parts).len() == parts.len(),
        forall|i: int| 0 <= i < parts.len() ==> #[trigger] all_trimmed(parts)[i] == trimmed(parts[i]),
{
}

// ---- replacing ----

/// What stands before the first occurrence is kept, the occurrence is replaced, and what follows
/// it is treated in the same way.
pub proof fn law_replacing_the_first(a: Seq<char>, from: Seq<char>, b: Seq<char>, to: Seq<char>)
    requires
        from.len() > 0,
        forall|i: int| 0 <= i < a.len() ==> !begins_with(#[trigger] (a + from + b).skip(i), from),
    ensures
        replaced(a + from + b, from, to) == a + to + replaced(b, from, to),
    decreases a.len(),
{
    let s = a + from + b;
    if a.len() == 0 {
        assert(s.take(from.len() as int) =~= from);
        assert(s.skip(from.len() as int) =~= b);
        assert(replaced(s, from, to) =~= a + to + replaced(b, from, to));
    } else {
        assert(s.skip(0) =~= s);
        assert(!begins_with(s.skip(0), from));
        let rest = a.skip(1);
        assert(s.skip(1) =~= rest + from + b);
        assert forall|i: int| 0 <= i < rest.len() implies !begins_with(
            #[trigger] (rest + from + b).skip(i),
            from,
        ) by {
            assert((rest + from + b).skip(i) =~= s.skip(i + 1));
        }
        law_replacing_the_first(rest, from, b, to);
        assert(seq![s[0]] + (rest + to + replaced(b, from, to)) =~= a + to + replaced(b, from, to));
    }
}

/// A text without an occurrence is kept.
pub proof fn law_replacing_nothing(s: Seq<char>, from: Seq<char>, to: Seq<char>)
    requires
        from.len() > 0,
        forall|i: int| 0 <= i <= s.len() ==> !begins_with(#[trigger] s.skip(i), from),
    ensures
        replaced(s, from, to) == s,
{
    lemma_replaced_absent(s, from, to);
}

/// The empty text occurs before each character and at the end.
pub proof fn law_replacing_the_empty_text(c: char, s: Seq<char>, to: Seq<char>)
    ensures
        replaced(Seq::<char>::empty(), Seq::<char>::empty(), to) == to,
        replaced(seq![c] + s, Seq::<char>::empty(), to) == to + seq![c] + replaced(
            s,
            Seq::<char>::empty(),
            to,
        ),
{
    assert((seq![c] + s).skip(1) =~= s);
    assert(interleaved(seq![c] + s, to) == to + seq![c] + interleaved(s, to));
}

// ---- patterns ----

/// A pattern holds no mark that begins before `n`.
pub open spec fn unmarked(pattern: Seq<char>, n: int) -> bool {
    forall|i: int|
        0 <= i < n && i + 1 < pattern.len() ==> !(#[trigger] pattern[i] == '{' && pattern[i + 1]
            == '}')
}

/// The first mark of a pattern takes the first argument, and what follows it the others.
pub proof fn law_filling_the_first_mark(a: Seq<char>, b: Seq<char>, args: Seq<Seq<char>>)
    requires
        unmarked(a + seq!['{', '}'] + b, a.len() as int),
        args.len() > 0,
    ensures
        filled(a + seq!['{', '}'] + b, args) == a + args[0] + filled(b, args.skip(1)),
    decreases a.len(),
{
    let s = a + seq!['{', '}'] + b;
    if a.len() == 0 {
        assert(s[0] == '{' && s[1] == '}');
        assert(s.skip(2) =~= b);
        assert(filled(s, args) =~= a + args[0] + filled(b, args.skip(1)));
    } else {
        let rest = a.skip(1);
        let t = rest + seq!['{', '}'] + b;
        assert(s.skip(1) =~= t);
        assert(!(s[0] == '{' && s[1] == '}'));
        assert forall|i: int| 0 <= i < rest.len() && i + 1 < t.len() implies !(#[trigger] t[i]
            == '{' && t[i + 1] == '}') by {
            assert(s[i + 1] == t[i] && s[i + 2] == t[i + 1]);
        }
        law_filling_the_first_mark(rest, b, args);
        assert(seq![s[0]] + (rest + args[0] + filled(b, args.skip(1))) =~= a + args[0] + filled(
            b,
            args.skip(1),
        ));
    }
}

/// A pattern without a mark is the text, and so is one for which no argument is left.
pub proof fn law_filling_nothing(s: Seq<char>, args: Seq<Seq<char>>)
    requires
        unmarked(s, s.len() as int) || args.len() == 0,
    ensures
        filled(s, args) == s,
    decreases s.len(),
{
    if s.len() == 0 {
        assert(filled(s, args) =~= s);
    } else {
        let t = s.skip(1);
        if args.len() > 0 {
            assert(s.len() >= 2 ==> !(s[0] == '{' && s[1] == '}'));
            assert forall|i: int| 0 <= i < t.len() && i + 1 < t.len() implies !(#[trigger] t[i]
                == '{' && t[i + 1] == '}') by {
                assert(s[i + 1] == t[i] && s[i + 2] == t[i + 1]);
            }
        }
        law_filling_nothing(t, args);
        assert(seq![s[0]] + t =~= s);
    }
}

// ---- the first part ----

/// Joining with a separator keeps the first text in front.
pub proof fn law_joined_front(w: Seq<char>, parts: Seq<Seq<char>>, sep: Seq<char>)
    requires
        parts.len() > 0,
    ensures
        joined(seq![w] + parts, sep) == w + sep + joined(parts, sep),
    decreases parts.len(),
{
    let all = seq![w] + parts;
    assert(all.drop_last() =~= seq![w] + parts.drop_last());
    assert(all.last() == parts.last());
    if parts.len() == 1 {
        assert(parts.drop_last() =~= Seq::empty());
        assert(all.drop_last() =~= seq![w]);
        reveal_with_fuel(joined, 2);
        assert(joined(all, sep) == w + sep + parts[0]);
    } else {
        law_joined_front(w, parts.drop_last(), sep);
        assert(joined(all, sep) =~= w + sep + joined(parts, sep));
    }
}

/// The first part of a text ends at the first separator, and the other parts are those of what
/// stands behind it.
pub proof fn law_first_part(w: Seq<char>, rest: Seq<char>, sep: char)
    requires
        !w.contains(sep),
    ensures
        split(w, sep) == seq![w],
        split(w + seq![sep] + rest, sep) == seq![w] + split(rest, sep),
{
    lemma_split_whole(w, sep);
    law_join_undoes_split(rest, sep);
    let parts = seq![w] + split(rest, sep);
    law_joined_front(w, split(rest, sep), seq![sep]);
    assert forall|i: int| 0 <= i < parts.len() implies !(#[trigger] parts[i]).contains(sep) by {
        if i > 0 {
            assert(parts[i] == split(rest, sep)[i - 1]);
        }
    }
    law_split_undoes_join(parts, sep);
}

/// An empty text in front is left out, and any other is kept in front.
pub proof fn law_non_empty_front(w: Seq<char>, parts: Seq<Seq<char>>)
    ensures
        w.len() == 0 ==> non_empty(seq![w] + parts) == non_empty(parts),
        w.len() > 0 ==> non_empty(seq![w] + parts) == seq![w] + non_empty(parts),
    decreases parts.len(),
{
    let all = seq![w] + parts;
    if parts.len() == 0 {
        assert(all.drop_last() =~= Seq::empty());
        reveal_with_fuel(non_empty, 2);
        assert(non_empty(all) =~= if w.len() == 0 {
            Seq::empty()
        } else {
            seq![w] + non_empty(parts)
        });
    } else {
        assert(all.drop_last() =~= seq![w] + parts.drop_last());
        assert(all.last() == parts.last());
        law_non_empty_front(w, parts.drop_last());
        if w.len() > 0 {
            assert(non_empty(all) =~= seq![w] + non_empty(parts));
        }
    }
}

} // verus!
