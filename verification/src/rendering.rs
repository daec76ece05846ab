//! Filling the placeholders of a template.
use vstd::prelude::*;

use crate::string_map::{ordered, StringMap};
use crate::templates::TemplateMetadata;
use crate::text::{begins_with, lemma_replaced_absent, replace, replaced};

verus! {

/// The placeholder of the name `key`.
pub open spec fn placeholder(start: Seq<char>, key: Seq<char>, stop: Seq<char>) -> Seq<char> {
    start + key + stop
}

/// `body` with the placeholder of each entry replaced by its value, one entry after the other.
pub open spec fn rendered(
    body: Seq<char>,
    start: Seq<char>,
    stop: Seq<char>,
    entries: Seq<(Seq<char>, Seq<char>)>,
) -> Seq<char>
    decreases entries.len(),
{
    if entries.len() == 0 {
        body
    } else {
        replaced(
            rendered(body, start, stop, entries.drop_last()),
            placeholder(start, entries.last().0, stop),
            entries.last().1,
        )
    }
}

/// `body` with the placeholder of each name replaced by its value, one name after the other in
/// the order of the names.
pub fn render_template(
    body: &str,
    metadata: &TemplateMetadata,
    replacements: &StringMap<String>,
) -> (r: String)
    requires
        replacements.wf(),
    ensures
        r@ == rendered(body@, metadata.token_start@, metadata.token_stop@, ordered(replacements@)),
{
    let ghost p = replacements.entries();
    let ghost start = metadata.token_start@;
    let ghost stop = metadata.token_stop@;
    proof {
        replacements.lemma_entries();
        assert(p.take(0) =~= Seq::empty());
    }
    let mut out = body.to_string();
    let n: usize = replacements.len();
    for i in 0..n
        invariant
            n == p.len(),
            replacements.wf(),
            p == replacements.entries(),
            start == metadata.token_start@,
            stop == metadata.token_stop@,
            out@ == rendered(body@, start, stop, p.take(i as int)),
    {
        let mut mark = metadata.token_start.clone();
        mark.append(replacements.key_at(i).as_str());
        mark.append(metadata.token_stop.as_str());
        out = replace(out.as_str(), mark.as_str(), replacements.value_at(i).as_str());
        proof {
            assert(p.take(i + 1).drop_last() =~= p.take(i as int));
        }
    }
    proof {
        assert(p.take(n as int) =~= p);
    }
    out
}

/// A text in which none of the placeholders occurs stays as it is.
pub proof fn law_other_text_stays(
    body: Seq<char>,
    start: Seq<char>,
    stop: Seq<char>,
    entries: Seq<(Seq<char>, Seq<char>)>,
)
    requires
        forall|e: int, i: int|
            0 <= e < entries.len() && 0 <= i <= body.len() ==> !begins_with(
                #[trigger] body.skip(i),
                placeholder(start, (#[trigger] entries[e]).0, stop),
            ),
    ensures
        rendered(body, start, stop, entries) == body,
    decreases entries.len(),
{
    if entries.len() > 0 {
        let before = entries.drop_last();
        assert forall|e: int, i: int| 0 <= e < before.len() && 0 <= i <= body.len() implies !begins_with(
            #[trigger] body.skip(i),
            placeholder(start, (#[trigger] before[e]).0, stop),
        ) by {
            assert(before[e] == entries[e]);
        }
        law_other_text_stays(body, start, stop, before);
        let last = entries.len() - 1;
        let mark = placeholder(start, entries[last].0, stop);
        if mark.len() == 0 {
            assert(!begins_with(body.skip(0), mark));
            assert(body.skip(0).take(0) =~= mark);
        }
        lemma_replaced_absent(body, mark, entries[last].1);
    }
}

/// A new template: a client profile with its certificates and key inside.
pub const SAMPLE_TEMPLATE: &'static str = r#"client
dev tun
proto %proto%
remote %server_host% %server_port%
resolv-retry infinite
nobind
persist-key
persist-tun
remote-cert-tls server
verb 3

<ca>
%ca_cert%
</ca>
<cert>
%client_cert%
</cert>
<key>
%client_key%
</key>
"#;

/// The text of a new template.
pub fn sample_template() -> (r: String)
    ensures
        r@ == SAMPLE_TEMPLATE@,
{
    SAMPLE_TEMPLATE.to_string()
}

/// A placeholder is the start, the name and the stop; one entry more replaces its placeholder in
/// what the others have left, and without entries the text stays.
pub proof fn law_rendering_one_more(
    body: Seq<char>,
    start: Seq<char>,
    stop: Seq<char>,
    entries: Seq<(Seq<char>, Seq<char>)>,
    key: Seq<char>,
    value: Seq<char>,
)
    ensures
        rendered(body, start, stop, Seq::empty()) == body,
        rendered(body, start, stop, entries.push((key, value))) == replaced(
            rendered(body, start, stop, entries),
            start + key + stop,
            value,
        ),
{
    assert(entries.push((key, value)).drop_last() =~= entries);
}

} // verus!
