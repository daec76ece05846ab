//! What a generated profile holds.
use vstd::prelude::*;
use vstd::seq_lib::seq_to_set_is_finite;
use vstd::set_lib::lemma_set_subset_finite;

use crate::issue::{given_values, profile_text, replacements};
use crate::minica::{MinicaCa, MinicaCert};
use crate::placeholders::{
    all_apart, body_of, filled_in, inert, law_legible_texts_stay_apart, law_placeholders_are_found,
    law_rendering_fills_placeholders, legible, mark_names, proper_values, Piece,
};
use crate::string_map::ordered;
use crate::templates::{law_variable_names, reserved, variable_names, TemplateView};
use crate::text::trimmed;
use crate::tokens::{is_name, token_names};

verus! {

/// What stands in the place of a placeholder: the given value, or the certificate or key.
pub open spec fn value_of(
    name: Seq<char>,
    vars: Map<Seq<char>, Seq<char>>,
    ca: MinicaCa,
    cert: MinicaCert,
) -> Seq<char> {
    if name == "ca_cert"@ {
        trimmed(ca.cert_pem@)
    } else if name == "client_cert"@ {
        trimmed(cert.cert_pem@)
    } else if name == "client_key"@ {
        trimmed(cert.key_pem@)
    } else {
        vars[name]
    }
}

/// The pieces of the profile that comes of the pieces of a template.
pub open spec fn profile_pieces(
    pieces: Seq<Piece>,
    vars: Map<Seq<char>, Seq<char>>,
    ca: MinicaCa,
    cert: MinicaCert,
) -> Seq<Piece> {
    Seq::new(
        pieces.len(),
        |i: int|
            match pieces[i] {
                Piece::Plain(text) => Piece::Plain(text),
                Piece::Mark(name) => Piece::Plain(value_of(name, vars, ca, cert)),
            },
    )
}

/// Every placeholder among the pieces is one of the names of the template.
pub open spec fn names_known(pieces: Seq<Piece>, names: Seq<Seq<char>>) -> bool {
    forall|i: int|
        0 <= i < pieces.len() ==> (#[trigger] pieces[i] matches Piece::Mark(name)
            ==> names.contains(name))
}

proof fn lemma_reserved_names()
    ensures
        is_name("ca_cert"@),
        is_name("client_cert"@),
        is_name("client_key"@),
        "ca_cert"@ != "client_cert"@,
        "ca_cert"@ != "client_key"@,
        "client_cert"@ != "client_key"@,
{
    reveal_strlit("ca_cert");
    reveal_strlit("client_cert");
    reveal_strlit("client_key");
    assert("ca_cert"@.len() == 7 && "client_cert"@.len() == 11 && "client_key"@.len() == 10);
}

proof fn lemma_finite_values(
    parameters: Map<Seq<char>, Seq<char>>,
    names: Seq<Seq<char>>,
    ca: MinicaCa,
    cert: MinicaCert,
)
    ensures
        replacements(given_values(parameters, names), ca, cert).dom().finite(),
{
    let vars = given_values(parameters, names);
    seq_to_set_is_finite(names);
    assert(vars.dom().subset_of(names.to_set()));
    lemma_set_subset_finite(names.to_set(), vars.dom());
}

/// A generated profile is the text of its template with the given value, or the certificate or
/// key, in the place of each placeholder; nothing else is changed and no placeholder is left.
pub proof fn law_profile_is_complete(
    pieces: Seq<Piece>,
    template: TemplateView,
    parameters: Map<Seq<char>, Seq<char>>,
    ca: MinicaCa,
    cert: MinicaCert,
)
    requires
        template.body == body_of(
            pieces,
            template.metadata.token_start,
            template.metadata.token_stop,
        ),
        names_known(pieces, template.variables),
        all_apart(
            pieces,
            template.metadata.token_start,
            template.metadata.token_stop,
            ordered(replacements(given_values(parameters, template.variables), ca, cert)),
        ),
    ensures
        profile_text(template, given_values(parameters, template.variables), ca, cert) == body_of(
            profile_pieces(pieces, given_values(parameters, template.variables), ca, cert),
            template.metadata.token_start,
            template.metadata.token_stop,
        ),
{
    let start = template.metadata.token_start;
    let stop = template.metadata.token_stop;
    let names = template.variables;
    let vars = given_values(parameters, names);
    let values = replacements(vars, ca, cert);
    lemma_reserved_names();
    lemma_finite_values(parameters, names, ca, cert);
    law_rendering_fills_placeholders(pieces, start, stop, values);
    let done = filled_in(pieces, values);
    let expected = profile_pieces(pieces, vars, ca, cert);
    assert forall|i: int| 0 <= i < pieces.len() implies done[i] == expected[i] by {
        if let Piece::Mark(name) = pieces[i] {
            assert(names.contains(name));
            if !reserved(name) {
                assert(vars.dom().contains(name));
            }
            assert(values.dom().contains(name));
        }
    }
    assert(done =~= expected);
}

proof fn lemma_mark_is_named(pieces: Seq<Piece>, i: int, name: Seq<char>)
    requires
        0 <= i < pieces.len(),
        pieces[i] == Piece::Mark(name),
    ensures
        mark_names(pieces).contains(name),
    decreases pieces.len(),
{
    let rest = pieces.skip(1);
    if i == 0 {
        assert(mark_names(pieces)[0] == name);
    } else {
        assert(rest[i - 1] == pieces[i]);
        lemma_mark_is_named(rest, i - 1, name);
        let j = choose|j: int| 0 <= j < mark_names(rest).len() && mark_names(rest)[j] == name;
        match pieces[0] {
            Piece::Plain(_) => {},
            Piece::Mark(_) => {
                assert(mark_names(pieces)[j + 1] == name);
            },
        }
    }
}

/// What is asked for a complete profile holds of every legible template whose values, and whose
/// certificates and key, hold nothing with which a placeholder could begin.
pub proof fn law_legible_templates_give_complete_profiles(
    pieces: Seq<Piece>,
    template: TemplateView,
    parameters: Map<Seq<char>, Seq<char>>,
    ca: MinicaCa,
    cert: MinicaCert,
)
    requires
        legible(pieces, template.metadata.token_start, template.metadata.token_stop),
        template.body == body_of(
            pieces,
            template.metadata.token_start,
            template.metadata.token_stop,
        ),
        template.variables == variable_names(
            template.body,
            template.metadata.token_start,
            template.metadata.token_stop,
        ),
        forall|k: Seq<char>| #[trigger]
            given_values(parameters, template.variables).dom().contains(k) ==> inert(
                given_values(parameters, template.variables)[k],
                template.metadata.token_start,
            ),
        inert(trimmed(ca.cert_pem@), template.metadata.token_start),
        inert(trimmed(cert.cert_pem@), template.metadata.token_start),
        inert(trimmed(cert.key_pem@), template.metadata.token_start),
    ensures
        names_known(pieces, template.variables),
        all_apart(
            pieces,
            template.metadata.token_start,
            template.metadata.token_stop,
            ordered(replacements(given_values(parameters, template.variables), ca, cert)),
        ),
{
    let start = template.metadata.token_start;
    let stop = template.metadata.token_stop;
    let names = template.variables;
    let vars = given_values(parameters, names);
    let values = replacements(vars, ca, cert);
    lemma_reserved_names();
    lemma_finite_values(parameters, names, ca, cert);
    law_variable_names(template.body, start, stop);
    law_placeholders_are_found(pieces, start, stop);
    assert forall|k: Seq<char>| #[trigger] values.dom().contains(k) implies is_name(k) && inert(
        values[k],
        start,
    ) by {
        if !reserved(k) {
            assert(vars.dom().contains(k));
            assert(names.contains(k));
        }
    }
    assert(proper_values(values, start));
    law_legible_texts_stay_apart(pieces, start, stop, values);
    assert forall|i: int| 0 <= i < pieces.len() implies (#[trigger] pieces[i] matches Piece::Mark(
        name,
    ) ==> names.contains(name)) by {
        if let Piece::Mark(name) = pieces[i] {
            lemma_mark_is_named(pieces, i, name);
            assert(token_names(template.body, start, stop).contains(name));
        }
    }
}

/// The piece that stands in a profile where a piece stood in the template: a text stays, the names
/// of the material become the certificates and the key, trimmed, and the name of any other
/// placeholder becomes the text that the parameters give for it, or nothing.
pub open spec fn stands_for(
    done: Piece,
    piece: Piece,
    parameters: Map<Seq<char>, Seq<char>>,
    ca: MinicaCa,
    cert: MinicaCert,
) -> bool {
    match piece {
        Piece::Plain(text) => done == Piece::Plain(text),
        Piece::Mark(name) => {
            &&& name == "ca_cert"@ ==> done == Piece::Plain(trimmed(ca.cert_pem@))
            &&& name == "client_cert"@ ==> done == Piece::Plain(trimmed(cert.cert_pem@))
            &&& name == "client_key"@ ==> done == Piece::Plain(trimmed(cert.key_pem@))
            &&& name != "ca_cert"@ && name != "client_cert"@ && name != "client_key"@ ==> (
            if parameters.dom().contains(name) {
                done == Piece::Plain(parameters[name])
            } else {
                done == Piece::Plain(Seq::<char>::empty())
            })
        },
    }
}

/// The profile of a legible template has the parameter of each placeholder itself in its place.
pub proof fn law_profile_holds_the_parameters(
    pieces: Seq<Piece>,
    done: Seq<Piece>,
    template: TemplateView,
    parameters: Map<Seq<char>, Seq<char>>,
    ca: MinicaCa,
    cert: MinicaCert,
)
    requires
        legible(pieces, template.metadata.token_start, template.metadata.token_stop),
        template.body == body_of(
            pieces,
            template.metadata.token_start,
            template.metadata.token_stop,
        ),
        template.variables == variable_names(
            template.body,
            template.metadata.token_start,
            template.metadata.token_stop,
        ),
        forall|k: Seq<char>| #[trigger]
            parameters.dom().contains(k) && template.variables.contains(k) ==> inert(
                parameters[k],
                template.metadata.token_start,
            ),
        inert(trimmed(ca.cert_pem@), template.metadata.token_start),
        inert(trimmed(cert.cert_pem@), template.metadata.token_start),
        inert(trimmed(cert.key_pem@), template.metadata.token_start),
        done.len() == pieces.len(),
        forall|i: int|
            0 <= i < pieces.len() ==> stands_for(
                #[trigger] done[i],
                pieces[i],
                parameters,
                ca,
                cert,
            ),
    ensures
        profile_text(template, given_values(parameters, template.variables), ca, cert) == body_of(
            done,
            template.metadata.token_start,
            template.metadata.token_stop,
        ),
{
    let vars = given_values(parameters, template.variables);
    assert forall|k: Seq<char>| #[trigger] vars.dom().contains(k) implies inert(
        vars[k],
        template.metadata.token_start,
    ) by {
        if !parameters.dom().contains(k) {
            assert(vars[k] == Seq::<char>::empty());
        }
    }
    law_legible_templates_give_complete_profiles(pieces, template, parameters, ca, cert);
    law_profile_is_complete(pieces, template, parameters, ca, cert);
    lemma_reserved_names();
    let expected = profile_pieces(pieces, vars, ca, cert);
    assert forall|i: int| 0 <= i < pieces.len() implies done[i] == expected[i] by {
        assert(stands_for(done[i], pieces[i], parameters, ca, cert));
        if let Piece::Mark(name) = pieces[i] {
            assert(template.variables.contains(name));
        }
    }
    assert(done =~= expected);
}

} // verus!
