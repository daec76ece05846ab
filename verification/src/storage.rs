//! Where things are kept: identifiers, directories and files.
use vstd::prelude::*;

use crate::clock::{current_time, Timestamp};
use crate::outside::{hex_digit, instant, random_uuid, strftime, strftime_of};
use crate::text::{
    ascii_alphanumeric, chars_of, is_ascii_alphanumeric, join, joined, law_split_undoes_join,
    lemma_non_empty_all, lemma_non_empty_parts, lemma_split_whole, lower_char, lowered, non_empty,
    split, split_text, text_of, texts, to_lower_char,
};
use crate::text_laws::{
    law_first_part, law_join_undoes_split, law_joined_front, law_non_empty_front,
};

verus! {

// ---- identifiers ----

/// The characters of an identifier.
pub open spec fn id_char(c: char) -> bool {
    ascii_alphanumeric(c) || c == '-' || c == '_'
}

/// An identifier of a stored thing: at least one character, ASCII letters, digits, `-` and `_`.
pub open spec fn storage_id(s: Seq<char>) -> bool {
    s.len() > 0 && forall|i: int| 0 <= i < s.len() ==> id_char(#[trigger] s[i])
}

/// Whether `value` can identify a stored thing.
pub fn valid_storage_id(value: &str) -> (r: bool)
    ensures
        r == storage_id(value@),
{
    let cs = chars_of(value);
    if cs.len() == 0 {
        return false;
    }
    for i in 0..cs.len()
        invariant
            cs@ == value@,
            forall|j: int| 0 <= j < i ==> id_char(#[trigger] value@[j]),
    {
        if !(is_ascii_alphanumeric(cs[i]) || cs[i] == '-' || cs[i] == '_') {
            proof {
                assert(!id_char(value@[i as int]));
            }
            return false;
        }
    }
    true
}

/// A text with its letters made small and `-` for every character that is no ASCII letter or
/// digit.
pub open spec fn dashed(s: Seq<char>) -> Seq<char> {
    Seq::new(
        s.len(),
        |i: int|
            if ascii_alphanumeric(s[i]) {
                lower_char(s[i])
            } else {
                '-'
            },
    )
}

/// The runs of ASCII letters and digits of a text, made small, with `-` between them, or
/// `profile` where there is none.
pub open spec fn slug(s: Seq<char>) -> Seq<char> {
    let text = joined(non_empty(split(dashed(s), '-')), "-"@);
    if text.len() == 0 {
        "profile"@
    } else {
        text
    }
}

/// The parts that hold at least one character.
fn keep_non_empty(parts: &Vec<String>) -> (r: Vec<String>)
    ensures
        texts(r@) == non_empty(texts(parts@)),
{
    let mut out: Vec<String> = Vec::new();
    let ghost all = texts(parts@);
    proof {
        assert(texts(out@) =~= non_empty(all.take(0)));
    }
    for i in 0..parts.len()
        invariant
            all == texts(parts@),
            texts(out@) == non_empty(all.take(i as int)),
    {
        proof {
            assert(all.take(i + 1).drop_last() =~= all.take(i as int));
        }
        if !parts[i].as_str().is_empty() {
            let ghost had = texts(out@);
            out.push(parts[i].clone());
            proof {
                assert(texts(out@) =~= had.push(all[i as int]));
            }
        }
    }
    proof {
        assert(all.take(parts@.len() as int) =~= all);
    }
    out
}

/// The runs of ASCII letters and digits of `value`, made small, with `-` between them, or
/// `profile` where there is none.
pub fn slugify(value: &str) -> (r: String)
    ensures
        r@ == slug(value@),
{
    let cs = chars_of(value);
    let mut ds: Vec<char> = Vec::new();
    for i in 0..cs.len()
        invariant
            cs@ == value@,
            ds@ == dashed(value@).take(i as int),
    {
        let c = if is_ascii_alphanumeric(cs[i]) {
            to_lower_char(cs[i])
        } else {
            '-'
        };
        proof {
            assert(dashed(value@).take(i + 1) =~= dashed(value@).take(i as int).push(c));
        }
        ds.push(c);
    }
    proof {
        assert(dashed(value@).take(value@.len() as int) =~= dashed(value@));
    }
    let parts = keep_non_empty(&split_text(text_of(&ds).as_str(), '-'));
    let text = join(&parts, "-");
    if text.as_str().is_empty() {
        "profile".to_string()
    } else {
        text
    }
}

/// An identifier made of a time, a prefix and a random part.
pub open spec fn id_text(stamp: Seq<char>, prefix: Seq<char>, random: Seq<char>) -> Seq<char> {
    stamp + "-"@ + prefix + "-"@ + random
}

/// The identifier made of a time, a prefix and a random part.
pub fn compose_id(stamp: &str, prefix: &str, random: &str) -> (r: String)
    ensures
        r@ == id_text(stamp@, prefix@, random@),
{
    let mut out = stamp.to_string();
    out.append("-");
    out.append(prefix);
    out.append("-");
    out.append(random);
    out
}

/// The random part of an identifier.
pub open spec fn random_part(s: Seq<char>) -> bool {
    s.len() == 32 && forall|i: int| 0 <= i < 32 ==> hex_digit(#[trigger] s[i])
}

/// `id` is an identifier with `prefix`, made at the instant `at`.
pub open spec fn made_at(id: Seq<char>, prefix: Seq<char>, at: Timestamp) -> bool {
    &&& instant(at.seconds as int, at.nanos as int)
    &&& exists|random: Seq<char>|
        #[trigger] random_part(random) && id == id_text(
            strftime_of(at.seconds, at.nanos, "%Y%m%d%H%M%S"@),
            prefix,
            random,
        )
}

/// `id` was made with `prefix` at an instant that the clock showed. Behind a prefix that can itself be an
/// identifier, and until the year 9999, it can identify a stored thing.
pub open spec fn fresh_id(id: Seq<char>, prefix: Seq<char>) -> bool {
    exists|at: Timestamp|
        #[trigger] made_at(id, prefix, at) && at.on_clock() && (storage_id(prefix) && at.seconds
            <= 253402300799 ==> storage_id(id))
}

/// A new identifier: the time to the second, `prefix` and a random part.
pub fn unique_id(prefix: &str) -> (r: String)
    ensures
        fresh_id(r@, prefix@),
{
    let now = current_time();
    let random = random_uuid();
    let stamp = strftime(now.seconds, now.nanos, "%Y%m%d%H%M%S").unwrap();
    let id = compose_id(stamp.as_str(), prefix, random.as_str());
    proof {
        assert(random_part(random@));
        assert(made_at(id@, prefix@, now));
        if storage_id(prefix@) && now.seconds <= 253402300799 {
            assert forall|i: int| 0 <= i < stamp@.len() implies id_char(#[trigger] stamp@[i]) by {}
            assert forall|i: int| 0 <= i < random@.len() implies id_char(#[trigger] random@[i]) by {
                assert(hex_digit(random@[i]));
            }
            law_composed_id_is_valid(stamp@, prefix@, random@);
        }
    }
    id
}

/// An identifier composed of parts that hold only characters of identifiers can identify a
/// stored thing.
pub proof fn law_composed_id_is_valid(stamp: Seq<char>, prefix: Seq<char>, random: Seq<char>)
    requires
        forall|i: int| 0 <= i < stamp.len() ==> id_char(#[trigger] stamp[i]),
        forall|i: int| 0 <= i < prefix.len() ==> id_char(#[trigger] prefix[i]),
        forall|i: int| 0 <= i < random.len() ==> id_char(#[trigger] random[i]),
    ensures
        storage_id(id_text(stamp, prefix, random)),
{
    reveal_strlit("-");
    let id = id_text(stamp, prefix, random);
    let a = stamp.len() as int;
    let b = a + 1 + prefix.len();
    assert forall|i: int| 0 <= i < id.len() implies id_char(#[trigger] id[i]) by {
        if i < a {
            assert(id[i] == stamp[i]);
        } else if i == a || i == b {
            assert(id[i] == '-');
        } else if i < b {
            assert(id[i] == prefix[i - a - 1]);
        } else {
            assert(id[i] == random[i - b - 1]);
        }
    }
}

// ---- laws of slugs ----

/// The characters of a slug other than `-`.
pub open spec fn slug_char(c: char) -> bool {
    'a' <= c <= 'z' || '0' <= c <= '9'
}

/// A run of characters of slugs.
pub open spec fn slug_part(s: Seq<char>) -> bool {
    forall|i: int| 0 <= i < s.len() ==> slug_char(#[trigger] s[i])
}

/// A text of characters of slugs and `-`.
pub open spec fn slug_text(s: Seq<char>) -> bool {
    forall|i: int| 0 <= i < s.len() ==> slug_char(#[trigger] s[i]) || s[i] == '-'
}

proof fn lemma_split_slug_text(s: Seq<char>)
    requires
        slug_text(s),
    ensures
        split(s, '-').len() > 0,
        forall|i: int| 0 <= i < split(s, '-').len() ==> slug_part(#[trigger] split(s, '-')[i]),
    decreases s.len(),
{
    if s.len() > 0 {
        assert forall|i: int| 0 <= i < s.drop_last().len() implies slug_char(
            #[trigger] s.drop_last()[i],
        ) || s.drop_last()[i] == '-' by {
            assert(s.drop_last()[i] == s[i]);
        }
        lemma_split_slug_text(s.drop_last());
        let parts = split(s.drop_last(), '-');
        assert forall|i: int| 0 <= i < split(s, '-').len() implies slug_part(
            #[trigger] split(s, '-')[i],
        ) by {
            if i < split(s, '-').len() - 1 {
                assert(split(s, '-')[i] == parts[i]);
            } else if s.last() != '-' {
                let last = parts[parts.len() - 1];
                assert(slug_part(last));
                assert(slug_char(s[s.len() - 1]));
                assert(slug_part(last.push(s.last())));
            }
        }
    }
}

proof fn lemma_joined_parts(parts: Seq<Seq<char>>)
    requires
        forall|i: int|
            0 <= i < parts.len() ==> slug_part(#[trigger] parts[i]) && parts[i].len() > 0,
    ensures
        slug_text(joined(parts, "-"@)),
        parts.len() > 0 ==> joined(parts, "-"@).len() > 0,
    decreases parts.len(),
{
    reveal_strlit("-");
    if parts.len() > 1 {
        assert forall|i: int| 0 <= i < parts.drop_last().len() implies slug_part(
            #[trigger] parts.drop_last()[i],
        ) && parts.drop_last()[i].len() > 0 by {
            assert(parts.drop_last()[i] == parts[i]);
        }
        lemma_joined_parts(parts.drop_last());
        let head = joined(parts.drop_last(), "-"@);
        let all = joined(parts, "-"@);
        let last = parts[parts.len() - 1];
        assert(slug_part(last));
        assert forall|i: int| 0 <= i < all.len() implies slug_char(#[trigger] all[i]) || all[i]
            == '-' by {
            if i < head.len() {
                assert(all[i] == head[i]);
            } else if i > head.len() {
                assert(all[i] == last[i - head.len() - 1]);
            }
        }
    } else if parts.len() == 1 {
        assert(slug_part(parts[0]));
    }
}

proof fn lemma_slug_parts(s: Seq<char>)
    ensures
        forall|i: int|
            0 <= i < non_empty(split(dashed(s), '-')).len() ==> slug_part(
                #[trigger] non_empty(split(dashed(s), '-'))[i],
            ) && non_empty(split(dashed(s), '-'))[i].len() > 0,
{
    assert(slug_text(dashed(s)));
    lemma_split_slug_text(dashed(s));
    let all = split(dashed(s), '-');
    lemma_non_empty_parts(all);
    assert forall|i: int| 0 <= i < non_empty(all).len() implies slug_part(
        #[trigger] non_empty(all)[i],
    ) && non_empty(all)[i].len() > 0 by {
        let j = choose|j: int| 0 <= j < all.len() && all[j] == non_empty(all)[i];
        assert(slug_part(all[j]));
    }
}

/// A slug can identify a stored thing; it holds small letters, digits and `-`.
pub proof fn law_slug_is_valid_id(s: Seq<char>)
    ensures
        storage_id(slug(s)),
        slug_text(slug(s)),
{
    lemma_slug_parts(s);
    lemma_joined_parts(non_empty(split(dashed(s), '-')));
    reveal_strlit("profile");
    assert(slug_text("profile"@));
    assert forall|i: int| 0 <= i < slug(s).len() implies id_char(#[trigger] slug(s)[i]) by {
        assert(slug_char(slug(s)[i]) || slug(s)[i] == '-');
    }
}

proof fn lemma_slug_part_has_no_dash(p: Seq<char>)
    requires
        slug_part(p),
    ensures
        !p.contains('-'),
{
    assert forall|i: int| 0 <= i < p.len() implies p[i] != '-' by {
        assert(slug_char(p[i]));
    }
}

/// The slug of a slug is the slug itself.
pub proof fn law_slug_idempotent(s: Seq<char>)
    ensures
        slug(slug(s)) == slug(s),
{
    let parts = non_empty(split(dashed(s), '-'));
    lemma_slug_parts(s);
    lemma_joined_parts(parts);
    let t = joined(parts, "-"@);
    reveal_strlit("profile");
    if t.len() == 0 {
        let p = "profile"@;
        assert(slug_part(p));
        assert(dashed(p) =~= p);
        lemma_slug_part_has_no_dash(p);
        lemma_split_whole(p, '-');
        assert forall|i: int| 0 <= i < split(p, '-').len() implies (#[trigger] split(
            p,
            '-',
        )[i]).len() > 0 by {}
        lemma_non_empty_all(split(p, '-'));
    } else {
        assert(dashed(t) =~= t) by {
            assert forall|i: int| 0 <= i < t.len() implies dashed(t)[i] == t[i] by {
                assert(slug_char(t[i]) || t[i] == '-');
            }
        }
        assert forall|i: int| 0 <= i < parts.len() implies !(#[trigger] parts[i]).contains('-') by {
            lemma_slug_part_has_no_dash(parts[i]);
        }
        reveal_strlit("-");
        assert("-"@ =~= seq!['-']);
        law_split_undoes_join(parts, '-');
        lemma_non_empty_all(parts);
    }
}

// ---- places ----

/// The path of `part` inside `base`; a `part` that begins with `/` stands for itself.
pub open spec fn inside(base: Seq<char>, part: Seq<char>) -> Seq<char> {
    if part.len() > 0 && part[0] == '/' {
        part
    } else if base.len() > 0 && base.last() != '/' {
        base.push('/') + part
    } else {
        base + part
    }
}

/// The path of `part` inside `base`.
pub fn join_path(base: &str, part: &str) -> (r: String)
    ensures
        r@ == inside(base@, part@),
{
    let bs = chars_of(base);
    let ps = chars_of(part);
    if ps.len() > 0 && ps[0] == '/' {
        return part.to_string();
    }
    let mut out = base.to_string();
    if bs.len() > 0 && bs[bs.len() - 1] != '/' {
        out.push('/');
    }
    out.append(part);
    out
}

/// The directory of the settings.
pub fn config_dir(root: &str) -> (r: String)
    ensures
        r@ == inside(root@, "config"@),
{
    join_path(root, "config")
}

/// The directory of the templates.
pub fn templates_dir(root: &str) -> (r: String)
    ensures
        r@ == inside(root@, "templates"@),
{
    join_path(root, "templates")
}

/// The directory of the generated profiles.
pub fn profiles_dir(root: &str) -> (r: String)
    ensures
        r@ == inside(root@, "profiles"@),
{
    join_path(root, "profiles")
}

/// The file of the settings for Minica.
pub fn minica_config_path(root: &str) -> (r: String)
    ensures
        r@ == inside(inside(root@, "config"@), "minica.yaml"@),
{
    join_path(config_dir(root).as_str(), "minica.yaml")
}

/// The directories that have to exist under the data directory.
pub fn ensure_dirs(root: &str) -> (r: Vec<String>)
    ensures
        texts(r@) == seq![
            inside(root@, "config"@),
            inside(root@, "templates"@),
            inside(root@, "profiles"@),
        ],
{
    let mut out: Vec<String> = Vec::new();
    out.push(config_dir(root));
    out.push(templates_dir(root));
    out.push(profiles_dir(root));
    proof {
        assert(texts(out@) =~= seq![
            inside(root@, "config"@),
            inside(root@, "templates"@),
            inside(root@, "profiles"@),
        ]);
    }
    out
}

/// The paths of a stored thing: a text file and its metadata.
#[derive(Debug, PartialEq, Eq)]
pub struct StoredPaths {
    pub dir: String,
    pub text: String,
    pub metadata: String,
}

/// The paths are those of the template `id`.
pub open spec fn template_at(p: StoredPaths, root: Seq<char>, id: Seq<char>) -> bool {
    &&& p.dir@ == inside(inside(root, "templates"@), id)
    &&& p.text@ == inside(p.dir@, "template.ovpn"@)
    &&& p.metadata@ == inside(p.dir@, "metadata.yaml"@)
}

/// The paths are those of the profile `id`.
pub open spec fn profile_at(p: StoredPaths, root: Seq<char>, id: Seq<char>) -> bool {
    &&& p.dir@ == inside(inside(root, "profiles"@), id)
    &&& p.text@ == inside(p.dir@, "profile.ovpn"@)
    &&& p.metadata@ == inside(p.dir@, "metadata.yaml"@)
}

/// The paths of the template `id`.
pub fn template_paths(root: &str, id: &str) -> (r: StoredPaths)
    ensures
        template_at(r, root@, id@),
{
    let dir = join_path(templates_dir(root).as_str(), id);
    let text = join_path(dir.as_str(), "template.ovpn");
    let metadata = join_path(dir.as_str(), "metadata.yaml");
    StoredPaths { dir, text, metadata }
}

/// The paths of the profile `id`.
pub fn profile_paths(root: &str, id: &str) -> (r: StoredPaths)
    ensures
        profile_at(r, root@, id@),
{
    let dir = join_path(profiles_dir(root).as_str(), id);
    let text = join_path(dir.as_str(), "profile.ovpn");
    let metadata = join_path(dir.as_str(), "metadata.yaml");
    StoredPaths { dir, text, metadata }
}

/// The paths of the template `id`, or that it is no identifier.
pub fn template_location(root: &str, id: &str) -> (r: Result<StoredPaths, String>)
    ensures
        r is Ok == storage_id(id@),
        match r {
            Ok(p) => template_at(p, root@, id@),
            Err(e) => e@ == "template ID is not valid"@,
        },
{
    if valid_storage_id(id) {
        Ok(template_paths(root, id))
    } else {
        Err("template ID is not valid".to_string())
    }
}

/// The paths of the profile `id`, or that it is no identifier.
pub fn profile_location(root: &str, id: &str) -> (r: Result<StoredPaths, String>)
    ensures
        r is Ok == storage_id(id@),
        match r {
            Ok(p) => profile_at(p, root@, id@),
            Err(e) => e@ == "profile ID is not valid"@,
        },
{
    if valid_storage_id(id) {
        Ok(profile_paths(root, id))
    } else {
        Err("profile ID is not valid".to_string())
    }
}

/// A valid identifier stays inside the directory: its path is the directory, a `/` and the
/// identifier, which holds no `/` and no `.`.
pub proof fn law_valid_id_stays_inside(dir: Seq<char>, id: Seq<char>)
    requires
        storage_id(id),
        dir.len() > 0,
        dir.last() != '/',
    ensures
        inside(dir, id) == dir.push('/') + id,
        !id.contains('/'),
        !id.contains('.'),
{
    assert(id_char(id[0]));
    assert forall|i: int| 0 <= i < id.len() implies id[i] != '/' && id[i] != '.' by {
        assert(id_char(id[i]));
    }
}

/// Different valid identifiers have different places.
pub proof fn law_places_are_distinct(dir: Seq<char>, a: Seq<char>, b: Seq<char>)
    requires
        storage_id(a),
        storage_id(b),
        inside(dir, a) == inside(dir, b),
    ensures
        a == b,
{
    assert(id_char(a[0]) && id_char(b[0]));
    let p = inside(dir, a);
    let n = p.len() - a.len();
    assert(p.skip(n) =~= a);
    assert(p.skip(n) =~= b);
}

/// The identifier that a profile is issued under can be asked for: until the year 9999 an
/// identifier behind the slug of a client name is valid.
pub proof fn law_issued_ids_are_valid(id: Seq<char>, client_name: Seq<char>)
    requires
        fresh_id(id, slug(client_name)),
    ensures
        exists|at: Timestamp|
            #[trigger] made_at(id, slug(client_name), at) && at.on_clock() && (at.seconds
                <= 253402300799 ==> storage_id(id)),
{
    law_slug_is_valid_id(client_name);
    let prefix = slug(client_name);
    let at = choose|at: Timestamp|
        #[trigger] made_at(id, prefix, at) && at.on_clock() && (storage_id(prefix) && at.seconds
            <= 253402300799 ==> storage_id(id));
    assert(made_at(id, prefix, at));
}

// ---- what a slug keeps ----

/// The text holds an ASCII letter or digit.
pub open spec fn has_alphanumeric(s: Seq<char>) -> bool {
    exists|i: int| 0 <= i < s.len() && ascii_alphanumeric(#[trigger] s[i])
}

/// A text of ASCII letters and digits alone.
pub open spec fn alphanumeric_word(w: Seq<char>) -> bool {
    w.len() > 0 && forall|i: int| 0 <= i < w.len() ==> ascii_alphanumeric(#[trigger] w[i])
}

proof fn lemma_dashed_word(w: Seq<char>)
    requires
        alphanumeric_word(w),
    ensures
        dashed(w) == lowered(w),
        !lowered(w).contains('-'),
{
    assert(dashed(w) =~= lowered(w)) by {
        assert forall|i: int| 0 <= i < w.len() implies dashed(w)[i] == lowered(w)[i] by {
            assert(ascii_alphanumeric(w[i]));
        }
    }
    assert forall|i: int| 0 <= i < w.len() implies lowered(w)[i] != '-' by {
        assert(ascii_alphanumeric(w[i]));
    }
}

/// The parts of a slug: there are some if and only if the text holds an ASCII letter or digit.
proof fn lemma_slug_has_parts(s: Seq<char>)
    ensures
        (non_empty(split(dashed(s), '-')).len() > 0) == has_alphanumeric(s),
    decreases s.len(),
{
    let d = dashed(s);
    if s.len() == 0 {
        assert(d =~= Seq::empty());
        let parts = split(d, '-');
        assert(parts =~= seq![Seq::<char>::empty()]);
        assert(parts.drop_last() =~= Seq::empty());
        reveal_with_fuel(non_empty, 2);
    } else {
        let rest = s.skip(1);
        lemma_slug_has_parts(rest);
        assert(dashed(rest) =~= d.skip(1));
        law_join_undoes_split(d.skip(1), '-');
        let parts = split(d.skip(1), '-');
        if ascii_alphanumeric(s[0]) {
            let c = seq![d[0]];
            assert(d[0] != '-');
            assert(d =~= c + d.skip(1));
            lemma_split_front_char(d[0], d.skip(1));
            assert(split(d, '-')[0].len() > 0);
            lemma_non_empty_holds(split(d, '-'), 0);
        } else {
            let none = Seq::<char>::empty();
            assert(d[0] == '-');
            assert(d =~= none + seq!['-'] + d.skip(1));
            law_first_part(none, d.skip(1), '-');
            law_non_empty_front(none, parts);
            assert(has_alphanumeric(s) == has_alphanumeric(rest)) by {
                if has_alphanumeric(s) {
                    let i = choose|i: int| 0 <= i < s.len() && ascii_alphanumeric(#[trigger] s[i]);
                    assert(rest[i - 1] == s[i]);
                }
                if has_alphanumeric(rest) {
                    let i = choose|i: int|
                        0 <= i < rest.len() && ascii_alphanumeric(#[trigger] rest[i]);
                    assert(s[i + 1] == rest[i]);
                }
            }
        }
    }
}

proof fn lemma_split_front_char(c: char, s: Seq<char>)
    requires
        c != '-',
    ensures
        split(seq![c] + s, '-').len() > 0,
        split(seq![c] + s, '-')[0].len() > 0,
    decreases s.len(),
{
    let t = seq![c] + s;
    if s.len() == 0 {
        assert(t =~= seq![c]);
        assert(t.drop_last() =~= Seq::empty());
        reveal_with_fuel(split, 2);
    } else {
        assert(t.drop_last() =~= seq![c] + s.drop_last());
        lemma_split_front_char(c, s.drop_last());
    }
}

proof fn lemma_non_empty_holds(parts: Seq<Seq<char>>, i: int)
    requires
        0 <= i < parts.len(),
        parts[i].len() > 0,
    ensures
        non_empty(parts).len() > 0,
    decreases parts.len(),
{
    if i < parts.len() - 1 {
        lemma_non_empty_holds(parts.drop_last(), i);
    }
}

/// A text without an ASCII letter or digit has the slug `profile`.
pub proof fn law_slug_of_nothing(s: Seq<char>)
    requires
        !has_alphanumeric(s),
    ensures
        slug(s) == "profile"@,
{
    lemma_slug_has_parts(s);
    assert(non_empty(split(dashed(s), '-')) =~= Seq::empty());
}

/// The slug of a word of ASCII letters and digits is the word in small letters.
pub proof fn law_slug_of_a_word(w: Seq<char>)
    requires
        alphanumeric_word(w),
    ensures
        slug(w) == lowered(w),
{
    lemma_dashed_word(w);
    let t = lowered(w);
    lemma_split_whole(t, '-');
    assert(seq![t] =~= seq![t] + Seq::<Seq<char>>::empty());
    law_non_empty_front(t, Seq::empty());
    assert(non_empty(seq![t]) =~= seq![t]);
}

/// A character that is no ASCII letter or digit in front of a text that holds one changes nothing.
pub proof fn law_slug_leaves_out_the_front(c: char, s: Seq<char>)
    requires
        !ascii_alphanumeric(c),
        has_alphanumeric(s),
    ensures
        slug(seq![c] + s) == slug(s),
{
    let none = Seq::<char>::empty();
    assert(dashed(seq![c] + s) =~= none + seq!['-'] + dashed(s));
    law_first_part(none, dashed(s), '-');
    law_non_empty_front(none, split(dashed(s), '-'));
}

/// A word in front, parted from the rest by a character that is no ASCII letter or digit, stands
/// in small letters in front of the slug of the rest, with `-` between; where the rest holds no
/// letter or digit, it is the whole slug.
pub proof fn law_slug_of_words(w: Seq<char>, c: char, s: Seq<char>)
    requires
        alphanumeric_word(w),
        !ascii_alphanumeric(c),
    ensures
        has_alphanumeric(s) ==> slug(w + seq![c] + s) == lowered(w) + seq!['-'] + slug(s),
        !has_alphanumeric(s) ==> slug(w + seq![c] + s) == lowered(w),
{
    lemma_dashed_word(w);
    let t = lowered(w);
    reveal_strlit("-");
    assert("-"@ =~= seq!['-']);
    assert(dashed(w + seq![c] + s) =~= dashed(w) + seq!['-'] + dashed(s));
    law_first_part(t, dashed(s), '-');
    law_non_empty_front(t, split(dashed(s), '-'));
    lemma_slug_has_parts(s);
    let rest = non_empty(split(dashed(s), '-'));
    if has_alphanumeric(s) {
        law_joined_front(t, rest, "-"@);
        lemma_slug_parts(s);
        lemma_joined_parts(rest);
    } else {
        assert(seq![t] + rest =~= seq![t]);
    }
}

// ---- identifiers and places, character by character ----

/// A text can identify a stored thing if and only if it is not empty and holds nothing but ASCII
/// letters and digits, `-` and `_`.
pub proof fn law_identifiers(s: Seq<char>)
    ensures
        storage_id(s) <==> s.len() > 0 && forall|i: int|
            0 <= i < s.len() ==> ({
                let c = #[trigger] s[i] as int;
                48 <= c <= 57 || 65 <= c <= 90 || 97 <= c <= 122 || c == 45 || c == 95
            }),
{
    if storage_id(s) {
        assert forall|i: int| 0 <= i < s.len() implies ({
            let c = #[trigger] s[i] as int;
            48 <= c <= 57 || 65 <= c <= 90 || 97 <= c <= 122 || c == 45 || c == 95
        }) by {
            assert(id_char(s[i]));
        }
    }
}

/// A new identifier is the time, the prefix and the random part, with `-` between them.
pub proof fn law_composed_ids(stamp: Seq<char>, prefix: Seq<char>, random: Seq<char>)
    ensures
        id_text(stamp, prefix, random) == stamp + seq!['-'] + prefix + seq!['-'] + random,
{
    reveal_strlit("-");
    assert("-"@ =~= seq!['-']);
}

/// The path of a part that does not begin with `/` is the base, one `/` and the part; a part that
/// begins with `/` stands for itself.
pub proof fn law_paths_inside(base: Seq<char>, part: Seq<char>)
    ensures
        part.len() > 0 && part[0] == '/' ==> inside(base, part) == part,
        base.len() > 0 && base[base.len() - 1] != '/' && !(part.len() > 0 && part[0] == '/')
            ==> inside(base, part) == base + seq!['/'] + part,
        base.len() > 0 && base[base.len() - 1] == '/' && !(part.len() > 0 && part[0] == '/')
            ==> inside(base, part) == base + part,
{
    assert(base.push('/') + part =~= base + seq!['/'] + part);
}

/// A stored template lies in a directory of its own under `templates`, its text and its metadata
/// in files there; a profile likewise under `profiles`.
pub proof fn law_places_of_stored_things(p: StoredPaths, root: Seq<char>, id: Seq<char>)
    requires
        root.len() > 0,
        root[root.len() - 1] != '/',
        storage_id(id),
    ensures
        template_at(p, root, id) <==> {
            &&& p.dir@ == root + "/templates/"@ + id
            &&& p.text@ == root + "/templates/"@ + id + "/template.ovpn"@
            &&& p.metadata@ == root + "/templates/"@ + id + "/metadata.yaml"@
        },
        profile_at(p, root, id) <==> {
            &&& p.dir@ == root + "/profiles/"@ + id
            &&& p.text@ == root + "/profiles/"@ + id + "/profile.ovpn"@
            &&& p.metadata@ == root + "/profiles/"@ + id + "/metadata.yaml"@
        },
{
    reveal_strlit("templates");
    reveal_strlit("/templates/");
    reveal_strlit("profiles");
    reveal_strlit("/profiles/");
    reveal_strlit("template.ovpn");
    reveal_strlit("/template.ovpn");
    reveal_strlit("profile.ovpn");
    reveal_strlit("/profile.ovpn");
    reveal_strlit("metadata.yaml");
    reveal_strlit("/metadata.yaml");
    assert("/templates/"@ =~= seq!['/'] + "templates"@ + seq!['/']);
    assert("/profiles/"@ =~= seq!['/'] + "profiles"@ + seq!['/']);
    assert("/template.ovpn"@ =~= seq!['/'] + "template.ovpn"@);
    assert("/profile.ovpn"@ =~= seq!['/'] + "profile.ovpn"@);
    assert("/metadata.yaml"@ =~= seq!['/'] + "metadata.yaml"@);
    assert(id_char(id[0]) && id_char(id[id.len() - 1]));
    let t = root + "/templates/"@ + id;
    let q = root + "/profiles/"@ + id;
    assert(inside(inside(root, "templates"@), id) =~= t);
    assert(inside(inside(root, "profiles"@), id) =~= q);
    assert(t[t.len() - 1] == id[id.len() - 1]);
    assert(q[q.len() - 1] == id[id.len() - 1]);
    assert(inside(t, "template.ovpn"@) =~= t + "/template.ovpn"@);
    assert(inside(t, "metadata.yaml"@) =~= t + "/metadata.yaml"@);
    assert(inside(q, "profile.ovpn"@) =~= q + "/profile.ovpn"@);
    assert(inside(q, "metadata.yaml"@) =~= q + "/metadata.yaml"@);
}

} // verus!
