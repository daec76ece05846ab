//! Text as a sequence of characters: trimming, splitting, joining, replacing, ordering.
use vstd::prelude::*;

verus! {

/// The texts that a sequence of strings holds.
pub open spec fn texts(v: Seq<String>) -> Seq<Seq<char>> {
    Seq::new(v.len(), |i: int| v[i]@)
}

/// The characters of a string, one by one.
pub fn chars_of(s: &str) -> (r: Vec<char>)
    ensures
        r@ == s@,
{
    let mut out: Vec<char> = Vec::new();
    for c in it: s.chars()
        invariant
            out@ == s@.take(it.index() as int),
            it.seq() == s@,
    {
        proof {
            assert(s@.take(it.index() + 1) =~= s@.take(it.index() as int).push(
                s@[it.index() as int],
            ));
        }
        out.push(c);
    }
    proof {
        assert(s@.take(s@.len() as int) =~= s@);
    }
    out
}

/// The string of the characters `lo..hi` of `cs`.
pub fn slice_text(cs: &Vec<char>, lo: usize, hi: usize) -> (r: String)
    requires
        lo <= hi <= cs@.len(),
    ensures
        r@ == cs@.subrange(lo as int, hi as int),
{
    let mut out = String::new();
    for i in lo..hi
        invariant
            lo <= hi <= cs@.len(),
            out@ == cs@.subrange(lo as int, i as int),
    {
        proof {
            assert(cs@.subrange(lo as int, i + 1) =~= cs@.subrange(lo as int, i as int).push(
                cs@[i as int],
            ));
        }
        out.push(cs[i]);
    }
    out
}

/// The string of the characters of `cs`.
pub fn text_of(cs: &Vec<char>) -> (r: String)
    ensures
        r@ == cs@,
{
    proof {
        assert(cs@.subrange(0, cs@.len() as int) =~= cs@);
    }
    slice_text(cs, 0, cs.len())
}

/// Whether two strings hold the same text.
pub fn same_text(a: &str, b: &str) -> (r: bool)
    ensures
        r == (a@ == b@),
{
    let x = chars_of(a);
    let y = chars_of(b);
    if x.len() != y.len() {
        return false;
    }
    for i in 0..x.len()
        invariant
            x@ == a@,
            y@ == b@,
            x@.len() == y@.len(),
            forall|j: int| 0 <= j < i ==> x@[j] == y@[j],
    {
        if x[i] != y[i] {
            return false;
        }
    }
    proof {
        assert(a@ =~= b@);
    }
    true
}

// ---- white space ----

/// The characters with the Unicode property White_Space.
pub open spec fn white_space(c: char) -> bool {
    ||| '\u{9}' <= c <= '\u{d}'
    ||| c == ' '
    ||| c == '\u{85}'
    ||| c == '\u{a0}'
    ||| c == '\u{1680}'
    ||| '\u{2000}' <= c <= '\u{200a}'
    ||| c == '\u{2028}'
    ||| c == '\u{2029}'
    ||| c == '\u{202f}'
    ||| c == '\u{205f}'
    ||| c == '\u{3000}'
}

/// Whether a character is white space.
pub fn is_white_space(c: char) -> (r: bool)
    ensures
        r == white_space(c),
{
    ('\u{9}' <= c && c <= '\u{d}') || c == ' ' || c == '\u{85}' || c == '\u{a0}' || c == '\u{1680}'
        || ('\u{2000}' <= c && c <= '\u{200a}') || c == '\u{2028}' || c == '\u{2029}' || c
        == '\u{202f}' || c == '\u{205f}' || c == '\u{3000}'
}

/// A text without its leading white space.
pub open spec fn trimmed_start(s: Seq<char>) -> Seq<char>
    decreases s.len(),
{
    if s.len() > 0 && white_space(s[0]) {
        trimmed_start(s.skip(1))
    } else {
        s
    }
}

/// A text without its trailing white space.
pub open spec fn trimmed_end(s: Seq<char>) -> Seq<char>
    decreases s.len(),
{
    if s.len() > 0 && white_space(s.last()) {
        trimmed_end(s.drop_last())
    } else {
        s
    }
}

/// A text without leading and trailing white space.
pub open spec fn trimmed(s: Seq<char>) -> Seq<char> {
    trimmed_end(trimmed_start(s))
}

/// A text that holds nothing but white space.
pub open spec fn blank(s: Seq<char>) -> bool {
    forall|i: int| 0 <= i < s.len() ==> white_space(#[trigger] s[i])
}

/// `s` without leading and trailing white space.
pub fn trim(s: &str) -> (r: String)
    ensures
        r@ == trimmed(s@),
{
    let cs = chars_of(s);
    let mut lo: usize = 0;
    proof {
        assert(cs@.skip(0) =~= cs@);
    }
    while lo < cs.len() && is_white_space(cs[lo])
        invariant
            lo <= cs@.len(),
            cs@ == s@,
            trimmed_start(cs@.skip(lo as int)) == trimmed_start(cs@),
        decreases cs@.len() - lo,
    {
        proof {
            assert(cs@.skip(lo as int).skip(1) =~= cs@.skip(lo + 1));
        }
        lo = lo + 1;
    }
    let mut hi: usize = cs.len();
    proof {
        assert(cs@.subrange(lo as int, hi as int) =~= cs@.skip(lo as int));
    }
    while lo < hi && is_white_space(cs[hi - 1])
        invariant
            lo <= hi <= cs@.len(),
            trimmed_end(cs@.subrange(lo as int, hi as int)) == trimmed(s@),
        decreases hi,
    {
        proof {
            assert(cs@.subrange(lo as int, hi as int).drop_last() =~= cs@.subrange(
                lo as int,
                hi - 1,
            ));
        }
        hi = hi - 1;
    }
    slice_text(&cs, lo, hi)
}

pub proof fn lemma_trimmed_start(s: Seq<char>)
    ensures
        (trimmed_start(s).len() == 0) == blank(s),
        trimmed_start(s).len() > 0 ==> !white_space(trimmed_start(s)[0]),
    decreases s.len(),
{
    if s.len() > 0 && white_space(s[0]) {
        lemma_trimmed_start(s.skip(1));
        if blank(s.skip(1)) {
            assert forall|i: int| 0 <= i < s.len() implies white_space(#[trigger] s[i]) by {
                if i > 0 {
                    assert(s.skip(1)[i - 1] == s[i]);
                }
            }
        } else {
            let i = choose|i: int| 0 <= i < s.skip(1).len() && !white_space(#[trigger] s.skip(1)[i]);
            assert(!white_space(s[i + 1]));
        }
    }
}

pub proof fn lemma_trimmed_end(s: Seq<char>)
    ensures
        trimmed_end(s).len() <= s.len(),
        trimmed_end(s) == s.take(trimmed_end(s).len() as int),
        s.len() > 0 && !white_space(s[0]) ==> trimmed_end(s).len() > 0 && trimmed_end(s)[0] == s[0],
        trimmed_end(s).len() > 0 ==> !white_space(trimmed_end(s).last()),
    decreases s.len(),
{
    if s.len() > 0 && white_space(s.last()) {
        lemma_trimmed_end(s.drop_last());
        assert(s.drop_last().take(trimmed_end(s).len() as int) =~= s.take(
            trimmed_end(s).len() as int,
        ));
    } else {
        assert(s.take(s.len() as int) =~= s);
    }
}

/// Trimming leaves nothing exactly of a blank text, and leaves no white space at either end.
pub proof fn lemma_trimmed(s: Seq<char>)
    ensures
        (trimmed(s).len() == 0) == blank(s),
        trimmed(s).len() > 0 ==> !white_space(trimmed(s)[0]) && !white_space(trimmed(s).last()),
{
    lemma_trimmed_start(s);
    lemma_trimmed_end(trimmed_start(s));
}

/// Trimming a trimmed text changes nothing.
pub proof fn lemma_trimmed_idempotent(s: Seq<char>)
    ensures
        trimmed(trimmed(s)) == trimmed(s),
{
    lemma_trimmed(s);
}

/// Whether `s` holds nothing but white space.
pub fn is_blank(s: &str) -> (r: bool)
    ensures
        r == blank(s@),
{
    let t = trim(s);
    proof {
        lemma_trimmed(s@);
    }
    t.as_str().is_empty()
}

// ---- case ----

/// An ASCII capital letter as its small letter; any other character as it is.
pub open spec fn lower_char(c: char) -> char {
    if 'A' <= c <= 'Z' {
        (c as u8 + 32) as char
    } else {
        c
    }
}

/// A text with its ASCII capital letters made small.
pub open spec fn lowered(s: Seq<char>) -> Seq<char> {
    Seq::new(s.len(), |i: int| lower_char(s[i]))
}

/// The small letter of an ASCII capital letter, and any other character unchanged.
pub fn to_lower_char(c: char) -> (r: char)
    ensures
        r == lower_char(c),
{
    if 'A' <= c && c <= 'Z' {
        (c as u8 + 32) as char
    } else {
        c
    }
}

/// `s` with its ASCII capital letters made small.
pub fn to_lower(s: &str) -> (r: String)
    ensures
        r@ == lowered(s@),
{
    let cs = chars_of(s);
    let mut out = String::new();
    for i in 0..cs.len()
        invariant
            cs@ == s@,
            out@ == lowered(s@).take(i as int),
    {
        proof {
            assert(lowered(s@).take(i + 1) =~= lowered(s@).take(i as int).push(
                lower_char(s@[i as int]),
            ));
        }
        out.push(to_lower_char(cs[i]));
    }
    proof {
        assert(lowered(s@).take(s@.len() as int) =~= lowered(s@));
    }
    out
}

/// An ASCII letter or digit.
pub open spec fn ascii_alphanumeric(c: char) -> bool {
    'A' <= c <= 'Z' || 'a' <= c <= 'z' || '0' <= c <= '9'
}

/// Whether `c` is an ASCII letter or digit.
pub fn is_ascii_alphanumeric(c: char) -> (r: bool)
    ensures
        r == ascii_alphanumeric(c),
{
    ('A' <= c && c <= 'Z') || ('a' <= c && c <= 'z') || ('0' <= c && c <= '9')
}

// ---- beginnings and ends ----

/// `s` begins with `p`.
pub open spec fn begins_with(s: Seq<char>, p: Seq<char>) -> bool {
    p.len() <= s.len() && s.take(p.len() as int) == p
}

/// `s` ends with `p`.
pub open spec fn ends_with(s: Seq<char>, p: Seq<char>) -> bool {
    p.len() <= s.len() && s.skip(s.len() - p.len()) == p
}

/// Whether the characters from `at` on begin with `p`.
pub fn begins_at(cs: &Vec<char>, at: usize, p: &Vec<char>) -> (r: bool)
    requires
        at <= cs@.len(),
    ensures
        r == begins_with(cs@.skip(at as int), p@),
{
    if p.len() > cs.len() - at {
        return false;
    }
    for i in 0..p.len()
        invariant
            at + p.len() <= cs.len(),
            forall|j: int| 0 <= j < i ==> p@[j] == cs@[at + j],
    {
        if p[i] != cs[at + i] {
            proof {
                assert(cs@.skip(at as int).take(p@.len() as int)[i as int] == cs@[at + i]);
            }
            return false;
        }
    }
    proof {
        assert(cs@.skip(at as int).take(p@.len() as int) =~= p@);
    }
    true
}

/// Whether `s` begins with `p`.
pub fn has_prefix(s: &str, p: &str) -> (r: bool)
    ensures
        r == begins_with(s@, p@),
{
    let cs = chars_of(s);
    let ps = chars_of(p);
    proof {
        assert(cs@.skip(0) =~= cs@);
    }
    begins_at(&cs, 0, &ps)
}

/// Whether `s` ends with `p`.
pub fn has_suffix(s: &str, p: &str) -> (r: bool)
    ensures
        r == ends_with(s@, p@),
{
    let cs = chars_of(s);
    let ps = chars_of(p);
    if ps.len() > cs.len() {
        return false;
    }
    let at: usize = cs.len() - ps.len();
    proof {
        assert(cs@.skip(at as int).take(ps@.len() as int) =~= cs@.skip(at as int));
    }
    begins_at(&cs, at, &ps)
}

/// What follows the prefix `p` in `s`.
pub fn without_prefix(s: &str, p: &str) -> (r: Option<String>)
    ensures
        r is Some == begins_with(s@, p@),
        r matches Some(rest) ==> rest@ == s@.skip(p@.len() as int),
{
    if has_prefix(s, p) {
        let cs = chars_of(s);
        let n: usize = chars_of(p).len();
        proof {
            assert(cs@.subrange(n as int, cs@.len() as int) =~= s@.skip(p@.len() as int));
        }
        Some(slice_text(&cs, n, cs.len()))
    } else {
        None
    }
}

/// A text without the characters `c` at its end.
pub open spec fn without_trailing(s: Seq<char>, c: char) -> Seq<char>
    decreases s.len(),
{
    if s.len() > 0 && s.last() == c {
        without_trailing(s.drop_last(), c)
    } else {
        s
    }
}

/// `s` without the characters `c` at its end.
pub fn trim_end_char(s: &str, c: char) -> (r: String)
    ensures
        r@ == without_trailing(s@, c),
{
    let cs = chars_of(s);
    let mut hi: usize = cs.len();
    proof {
        assert(cs@.take(hi as int) =~= cs@);
    }
    while hi > 0 && cs[hi - 1] == c
        invariant
            hi <= cs@.len(),
            without_trailing(cs@.take(hi as int), c) == without_trailing(s@, c),
        decreases hi,
    {
        proof {
            assert(cs@.take(hi as int).drop_last() =~= cs@.take(hi - 1));
        }
        hi = hi - 1;
    }
    proof {
        assert(cs@.subrange(0, hi as int) =~= cs@.take(hi as int));
    }
    slice_text(&cs, 0, hi)
}

/// A text stripped of trailing `c` does not end with `c`, and stripping it again changes nothing.
pub proof fn lemma_without_trailing(s: Seq<char>, c: char)
    ensures
        without_trailing(s, c).len() > 0 ==> without_trailing(s, c).last() != c,
        without_trailing(without_trailing(s, c), c) == without_trailing(s, c),
    decreases s.len(),
{
    if s.len() > 0 && s.last() == c {
        lemma_without_trailing(s.drop_last(), c);
    }
}

/// Whether `c` occurs in `s`.
pub fn has_char(s: &str, c: char) -> (r: bool)
    ensures
        r == s@.contains(c),
{
    let cs = chars_of(s);
    for i in 0..cs.len()
        invariant
            cs@ == s@,
            forall|j: int| 0 <= j < i ==> s@[j] != c,
    {
        if cs[i] == c {
            return true;
        }
    }
    false
}

// ---- splitting and joining ----

/// The parts of a text between the occurrences of `sep`.
pub open spec fn split(s: Seq<char>, sep: char) -> Seq<Seq<char>>
    decreases s.len(),
{
    if s.len() == 0 {
        seq![Seq::<char>::empty()]
    } else {
        let parts = split(s.drop_last(), sep);
        if s.last() == sep {
            parts.push(Seq::empty())
        } else {
            parts.drop_last().push(parts.last().push(s.last()))
        }
    }
}

pub proof fn lemma_split(s: Seq<char>, sep: char)
    ensures
        split(s, sep).len() > 0,
        forall|i: int| 0 <= i < split(s, sep).len() ==> !(#[trigger] split(s, sep)[i]).contains(sep),
    decreases s.len(),
{
    if s.len() > 0 {
        lemma_split(s.drop_last(), sep);
        let parts = split(s.drop_last(), sep);
        assert forall|i: int| 0 <= i < split(s, sep).len() implies !(#[trigger] split(
            s,
            sep,
        )[i]).contains(sep) by {
            if i < split(s, sep).len() - 1 {
                assert(split(s, sep)[i] == parts[i]);
            } else if s.last() != sep {
                let last = parts[parts.len() - 1];
                assert(!last.contains(sep));
                assert forall|j: int| 0 <= j < last.push(s.last()).len() implies last.push(
                    s.last(),
                )[j] != sep by {
                    if j < last.len() {
                        assert(last.contains(last[j]));
                    }
                }
            }
        }
    }
}

/// The parts of `s` between the occurrences of `sep`.
pub fn split_text(s: &str, sep: char) -> (r: Vec<String>)
    ensures
        texts(r@) == split(s@, sep),
{
    let cs = chars_of(s);
    let mut done: Vec<String> = Vec::new();
    let mut part = String::new();
    proof {
        assert(texts(done@).push(part@) =~= split(s@.take(0), sep));
    }
    for i in 0..cs.len()
        invariant
            cs@ == s@,
            texts(done@).push(part@) == split(s@.take(i as int), sep),
    {
        let ghost before = texts(done@).push(part@);
        proof {
            assert(s@.take(i + 1).drop_last() =~= s@.take(i as int));
            assert(before.drop_last() =~= texts(done@));
        }
        if cs[i] == sep {
            done.push(part);
            part = String::new();
            proof {
                assert(texts(done@) =~= before);
            }
        } else {
            part.push(cs[i]);
        }
    }
    proof {
        assert(s@.take(s@.len() as int) =~= s@);
    }
    let ghost done0 = done@;
    let ghost part0 = part@;
    done.push(part);
    proof {
        assert(texts(done@) =~= texts(done0).push(part0));
    }
    done
}

/// The parts in order, with `sep` between neighbours.
pub open spec fn joined(parts: Seq<Seq<char>>, sep: Seq<char>) -> Seq<char>
    decreases parts.len(),
{
    if parts.len() == 0 {
        Seq::empty()
    } else if parts.len() == 1 {
        parts[0]
    } else {
        joined(parts.drop_last(), sep) + sep + parts.last()
    }
}

/// The parts in order, with `sep` between neighbours.
pub fn join(parts: &Vec<String>, sep: &str) -> (r: String)
    ensures
        r@ == joined(texts(parts@), sep@),
{
    let mut out = String::new();
    for i in 0..parts.len()
        invariant
            out@ == joined(texts(parts@).take(i as int), sep@),
    {
        proof {
            assert(texts(parts@).take(i + 1).drop_last() =~= texts(parts@).take(i as int));
        }
        if i > 0 {
            out.append(sep);
            out.append(parts[i].as_str());
        } else {
            out = parts[i].clone();
        }
    }
    proof {
        assert(texts(parts@).take(parts@.len() as int) =~= texts(parts@));
    }
    out
}

/// The parts that hold at least one character.
pub open spec fn non_empty(parts: Seq<Seq<char>>) -> Seq<Seq<char>>
    decreases parts.len(),
{
    if parts.len() == 0 {
        Seq::empty()
    } else if parts.last().len() == 0 {
        non_empty(parts.drop_last())
    } else {
        non_empty(parts.drop_last()).push(parts.last())
    }
}

/// Each part, trimmed.
pub open spec fn all_trimmed(parts: Seq<Seq<char>>) -> Seq<Seq<char>> {
    Seq::new(parts.len(), |i: int| trimmed(parts[i]))
}

/// A text without the separator is its own only part.
pub proof fn lemma_split_whole(p: Seq<char>, sep: char)
    requires
        !p.contains(sep),
    ensures
        split(p, sep) == seq![p],
    decreases p.len(),
{
    if p.len() > 0 {
        assert forall|i: int| 0 <= i < p.drop_last().len() implies p.drop_last()[i] != sep by {
            assert(p.contains(p[i]));
        }
        lemma_split_whole(p.drop_last(), sep);
        assert(p.contains(p[p.len() - 1]));
        assert(p.drop_last().push(p.last()) =~= p);
        assert(split(p, sep) =~= seq![p]);
    } else {
        assert(p =~= Seq::empty());
        assert(split(p, sep) =~= seq![p]);
    }
}

/// Behind a separator a text without it is one more part.
pub proof fn lemma_split_append(a: Seq<char>, b: Seq<char>, sep: char)
    requires
        !b.contains(sep),
    ensures
        split(a + seq![sep] + b, sep) == split(a, sep) + seq![b],
    decreases b.len(),
{
    if b.len() == 0 {
        assert(b =~= Seq::empty());
        assert((a + seq![sep] + b).drop_last() =~= a);
        assert(split(a + seq![sep] + b, sep) =~= split(a, sep) + seq![b]);
    } else {
        let t = a + seq![sep] + b;
        assert forall|i: int| 0 <= i < b.drop_last().len() implies b.drop_last()[i] != sep by {
            assert(b.contains(b[i]));
        }
        assert(t.drop_last() =~= a + seq![sep] + b.drop_last());
        lemma_split_append(a, b.drop_last(), sep);
        assert(b.contains(b[b.len() - 1]));
        let had = split(t.drop_last(), sep);
        assert(had.drop_last() =~= split(a, sep));
        assert(b.drop_last().push(b.last()) =~= b);
        assert(split(t, sep) =~= split(a, sep) + seq![b]);
    }
}

/// Splitting undoes joining, where no part holds the separator.
pub proof fn law_split_undoes_join(parts: Seq<Seq<char>>, sep: char)
    requires
        parts.len() > 0,
        forall|i: int| 0 <= i < parts.len() ==> !(#[trigger] parts[i]).contains(sep),
    ensures
        split(joined(parts, seq![sep]), sep) == parts,
    decreases parts.len(),
{
    let last = parts[parts.len() - 1];
    assert(!last.contains(sep));
    if parts.len() == 1 {
        lemma_split_whole(last, sep);
        assert(parts =~= seq![last]);
    } else {
        let front = parts.drop_last();
        assert forall|i: int| 0 <= i < front.len() implies !(#[trigger] front[i]).contains(sep) by {
            assert(front[i] == parts[i]);
        }
        law_split_undoes_join(front, sep);
        lemma_split_append(joined(front, seq![sep]), last, sep);
        assert(front + seq![last] =~= parts);
    }
}

/// Where no part is empty none is left out.
pub proof fn lemma_non_empty_all(parts: Seq<Seq<char>>)
    requires
        forall|i: int| 0 <= i < parts.len() ==> (#[trigger] parts[i]).len() > 0,
    ensures
        non_empty(parts) == parts,
    decreases parts.len(),
{
    if parts.len() > 0 {
        assert forall|i: int| 0 <= i < parts.drop_last().len() implies (
        #[trigger] parts.drop_last()[i]).len() > 0 by {
            assert(parts.drop_last()[i] == parts[i]);
        }
        lemma_non_empty_all(parts.drop_last());
        assert(parts[parts.len() - 1].len() > 0);
        assert(non_empty(parts) =~= parts);
    } else {
        assert(non_empty(parts) =~= parts);
    }
}

/// The parts that are kept are those that hold something.
pub proof fn lemma_non_empty_parts(parts: Seq<Seq<char>>)
    ensures
        forall|i: int|
            0 <= i < non_empty(parts).len() ==> (#[trigger] non_empty(parts)[i]).len() > 0
                && parts.contains(non_empty(parts)[i]),
    decreases parts.len(),
{
    if parts.len() > 0 {
        let front = parts.drop_last();
        lemma_non_empty_parts(front);
        assert forall|i: int| 0 <= i < non_empty(parts).len() implies (#[trigger] non_empty(
            parts,
        )[i]).len() > 0 && parts.contains(non_empty(parts)[i]) by {
            if i < non_empty(front).len() {
                assert(non_empty(parts)[i] == non_empty(front)[i]);
                let j = choose|j: int| 0 <= j < front.len() && front[j] == non_empty(front)[i];
                assert(parts[j] == front[j]);
            } else {
                assert(parts[parts.len() - 1] == non_empty(parts)[i]);
            }
        }
    }
}

/// Trimming brings no new characters into a text.
pub proof fn lemma_trimmed_chars(s: Seq<char>, c: char)
    requires
        trimmed(s).contains(c),
    ensures
        s.contains(c),
{
    lemma_trimmed_end(trimmed_start(s));
    let t = trimmed_start(s);
    let i = choose|i: int| 0 <= i < trimmed(s).len() && trimmed(s)[i] == c;
    assert(t[i] == c);
    lemma_trimmed_start_chars(s, c);
}

proof fn lemma_trimmed_start_chars(s: Seq<char>, c: char)
    requires
        trimmed_start(s).contains(c),
    ensures
        s.contains(c),
    decreases s.len(),
{
    if s.len() > 0 && white_space(s[0]) {
        lemma_trimmed_start_chars(s.skip(1), c);
        let i = choose|i: int| 0 <= i < s.skip(1).len() && s.skip(1)[i] == c;
        assert(s[i + 1] == c);
    }
}

// ---- replacing ----

/// `to` before each character of `s` and at its end.
pub open spec fn interleaved(s: Seq<char>, to: Seq<char>) -> Seq<char>
    decreases s.len(),
{
    if s.len() == 0 {
        to
    } else {
        to + seq![s[0]] + interleaved(s.skip(1), to)
    }
}

/// `s` with each occurrence of `from` replaced by `to`; occurrences are taken from left to right
/// and do not overlap.
pub open spec fn replaced(s: Seq<char>, from: Seq<char>, to: Seq<char>) -> Seq<char>
    decreases s.len(),
{
    if from.len() == 0 {
        interleaved(s, to)
    } else if s.len() == 0 {
        s
    } else if begins_with(s, from) {
        to + replaced(s.skip(from.len() as int), from, to)
    } else {
        seq![s[0]] + replaced(s.skip(1), from, to)
    }
}

/// `s` with each occurrence of `from` replaced by `to`.
pub fn replace(s: &str, from: &str, to: &str) -> (r: String)
    ensures
        r@ == replaced(s@, from@, to@),
{
    let cs = chars_of(s);
    let fs = chars_of(from);
    let mut out = String::new();
    let mut i: usize = 0;
    if fs.len() == 0 {
        proof {
            assert(out@ + interleaved(cs@.skip(0), to@) =~= interleaved(s@, to@)) by {
                assert(cs@.skip(0) =~= s@);
            }
        }
        while i < cs.len()
            invariant
                i <= cs@.len(),
                out@ + interleaved(cs@.skip(i as int), to@) == interleaved(s@, to@),
            decreases cs@.len() - i,
        {
            let ghost o = out@;
            out.append(to);
            out.push(cs[i]);
            proof {
                let rest = cs@.skip(i as int);
                assert(rest.skip(1) =~= cs@.skip(i + 1));
                assert(out@ + interleaved(cs@.skip(i + 1), to@) =~= o + interleaved(rest, to@));
            }
            i = i + 1;
        }
        out.append(to);
        return out;
    }
    proof {
        assert(cs@.skip(0) =~= s@);
        assert(out@ + replaced(cs@.skip(0), from@, to@) =~= replaced(s@, from@, to@));
    }
    while i < cs.len()
        invariant
            i <= cs@.len(),
            fs@ == from@,
            fs@.len() > 0,
            out@ + replaced(cs@.skip(i as int), from@, to@) == replaced(s@, from@, to@),
        decreases cs@.len() - i,
    {
        let ghost o = out@;
        let ghost rest = cs@.skip(i as int);
        if begins_at(&cs, i, &fs) {
            out.append(to);
            proof {
                assert(rest.skip(from@.len() as int) =~= cs@.skip(i + from@.len()));
                assert(out@ + replaced(cs@.skip(i + from@.len()), from@, to@) =~= o + replaced(
                    rest,
                    from@,
                    to@,
                ));
            }
            i = i + fs.len();
        } else {
            out.push(cs[i]);
            proof {
                assert(rest.skip(1) =~= cs@.skip(i + 1));
                assert(out@ + replaced(cs@.skip(i + 1), from@, to@) =~= o + replaced(
                    rest,
                    from@,
                    to@,
                ));
            }
            i = i + 1;
        }
    }
    proof {
        assert(out@ + replaced(cs@.skip(i as int), from@, to@) =~= out@);
    }
    out
}

/// A text in which `from` does not occur is left as it is.
pub proof fn lemma_replaced_absent(s: Seq<char>, from: Seq<char>, to: Seq<char>)
    requires
        from.len() > 0,
        forall|i: int| 0 <= i <= s.len() ==> !begins_with(#[trigger] s.skip(i), from),
    ensures
        replaced(s, from, to) == s,
    decreases s.len(),
{
    if s.len() > 0 {
        assert(s.skip(0) =~= s);
        assert forall|i: int| 0 <= i <= s.skip(1).len() implies !begins_with(
            #[trigger] s.skip(1).skip(i),
            from,
        ) by {
            assert(s.skip(1).skip(i) =~= s.skip(i + 1));
        }
        lemma_replaced_absent(s.skip(1), from, to);
        assert(seq![s[0]] + s.skip(1) =~= s);
    }
}

// ---- filling patterns ----

/// The pattern with its successive marks `{}` replaced by the arguments in order.
pub open spec fn filled(pattern: Seq<char>, args: Seq<Seq<char>>) -> Seq<char>
    decreases pattern.len(),
{
    if pattern.len() == 0 {
        Seq::empty()
    } else if pattern.len() >= 2 && pattern[0] == '{' && pattern[1] == '}' && args.len() > 0 {
        args[0] + filled(pattern.skip(2), args.skip(1))
    } else {
        seq![pattern[0]] + filled(pattern.skip(1), args)
    }
}

/// The pattern with its successive marks `{}` replaced by the arguments in order.
pub fn fill(pattern: &str, args: &Vec<String>) -> (r: String)
    ensures
        r@ == filled(pattern@, texts(args@)),
{
    let ps = chars_of(pattern);
    let mut out = String::new();
    let mut i: usize = 0;
    let mut used: usize = 0;
    let ghost all = texts(args@);
    proof {
        assert(ps@.skip(0) =~= pattern@);
        assert(all.skip(0) =~= all);
        assert(out@ + filled(ps@.skip(0), all.skip(0)) =~= filled(pattern@, all));
    }
    while i < ps.len()
        invariant
            i <= ps@.len(),
            used <= args@.len(),
            all == texts(args@),
            out@ + filled(ps@.skip(i as int), all.skip(used as int)) == filled(pattern@, all),
        decreases ps@.len() - i,
    {
        let ghost o = out@;
        let ghost rest = ps@.skip(i as int);
        let ghost left = all.skip(used as int);
        if ps.len() - i >= 2 && ps[i] == '{' && ps[i + 1] == '}' && used < args.len() {
            out.append(args[used].as_str());
            proof {
                assert(rest.skip(2) =~= ps@.skip(i + 2));
                assert(left.skip(1) =~= all.skip(used + 1));
                assert(out@ + filled(ps@.skip(i + 2), all.skip(used + 1)) =~= o + filled(
                    rest,
                    left,
                ));
            }
            used = used + 1;
            i = i + 2;
        } else {
            out.push(ps[i]);
            proof {
                assert(rest.skip(1) =~= ps@.skip(i + 1));
                assert(out@ + filled(ps@.skip(i + 1), left) =~= o + filled(rest, left));
            }
            i = i + 1;
        }
    }
    proof {
        assert(out@ + filled(ps@.skip(i as int), all.skip(used as int)) =~= out@);
    }
    out
}

} // verus!
