//! Which requests are let through, which configurations are used and where things are kept, said of
//! the operations: of what they take and what they give back.
use vstd::prelude::*;
use vstd::utf8::encode_utf8;

use crate::config::{
    basic_auth_runtime, broken, complete_credentials, contains_crlf, law_broken_texts,
    law_usable_configurations, load_app_config, validate_app_config, AppConfig, BasicAuthConfig,
    BasicAuthRuntime, ConfigFile,
};
use crate::encoding::base64_text;
use crate::security::{
    constant_time_eq, law_first_header_counts, law_sound_requests, law_the_decision,
    request_has_crlf, security_middleware, Refusal, RequestHead,
};
use crate::storage::{
    alphanumeric_word, compose_id, config_dir, has_alphanumeric, join_path, law_composed_ids,
    law_identifiers, law_paths_inside, law_places_of_stored_things, law_slug_leaves_out_the_front,
    law_slug_of_a_word, law_slug_of_nothing, law_slug_of_words, minica_config_path, profile_location,
    profiles_dir, slugify, storage_id, template_location, templates_dir, valid_storage_id,
    StoredPaths,
};
use crate::text::{ascii_alphanumeric, lowered, white_space};

verus! {

// ---- requests ----

/// A text holds a carriage return or a line feed.
pub open spec fn breaks_lines(s: Seq<char>) -> bool {
    exists|i: int| 0 <= i < s.len() && (#[trigger] s[i] as int == 13 || s[i] as int == 10)
}

/// A request is sound: no line is broken in its path, its query, or the names and values of its
/// headers, and every value can be shown.
pub open spec fn sound(head: RequestHead) -> bool {
    &&& !breaks_lines(head.path@)
    &&& head.query matches Some(query) ==> !breaks_lines(query@)
    &&& forall|i: int|
        0 <= i < head.headers@.len() ==> !breaks_lines((#[trigger] head.headers@[i]).name@) && (
        head.headers@[i].value matches Some(value) && !breaks_lines(value@))
}

/// A request is found to be broken if and only if it is not sound.
pub proof fn law_broken_requests(head: &RequestHead, r: bool)
    requires
        call_ensures(request_has_crlf, (head,), r),
    ensures
        r <==> !sound(*head),
{
    assert forall|s: Seq<char>| #[trigger] broken(s) == breaks_lines(s) by {
        law_broken_texts(s);
    }
    law_sound_requests(*head);
    if sound(*head) {
        assert forall|i: int| 0 <= i < head.headers@.len() implies !broken(
            (#[trigger] head.headers@[i]).name@,
        ) && (head.headers@[i].value matches Some(value) && !broken(value@)) by {
            let h = head.headers@[i];
            assert(!breaks_lines(h.name@));
            assert(broken(h.name@) == breaks_lines(h.name@));
            assert(broken(h.value->0@) == breaks_lines(h.value->0@));
        }
    } else if !r {
        assert forall|i: int| 0 <= i < head.headers@.len() implies !breaks_lines(
            (#[trigger] head.headers@[i]).name@,
        ) && (head.headers@[i].value matches Some(value) && !breaks_lines(value@)) by {
            let h = head.headers@[i];
            assert(broken(h.name@) == breaks_lines(h.name@));
            assert(broken(h.value->0@) == breaks_lines(h.value->0@));
        }
    }
}

/// A request that is not sound is refused with the status 400, whatever else it holds; one that is
/// sound is refused for its lines never.
pub proof fn law_unsound_requests_are_refused(
    head: &RequestHead,
    auth: &Option<BasicAuthRuntime>,
    r: Option<Refusal>,
    b: bool,
)
    requires
        call_ensures(security_middleware, (head, auth), r),
        call_ensures(request_has_crlf, (head,), b),
    ensures
        !sound(*head) ==> (r matches Some(why) && why.failure.status == 400 && why.failure.code@
            == "invalid_crlf"@),
        sound(*head) && r is Some ==> r->0.failure.status != 400,
{
    law_broken_requests(head, b);
    law_the_decision(*head, *auth);
    if let Some(why) = r {
        assert(why@.failure.status == why.failure.status && why@.failure.code
            == why.failure.code@);
    }
}

/// The first header with a name, in whatever case it is written.
pub open spec fn first_named(head: RequestHead, name: Seq<char>, i: int) -> bool {
    &&& 0 <= i < head.headers@.len()
    &&& lowered(head.headers@[i].name@) == name
    &&& forall|j: int| 0 <= j < i ==> lowered((#[trigger] head.headers@[j]).name@) != name
}

/// No header has the name, in whatever case it is written.
pub open spec fn not_named(head: RequestHead, name: Seq<char>) -> bool {
    forall|j: int| 0 <= j < head.headers@.len() ==> lowered((#[trigger] head.headers@[j]).name@)
        != name
}

/// With configured credentials a sound request is asked for them if and only if its header
/// `authorization` is missing or is not the expected one to the letter; without configured
/// credentials no request is asked.
pub proof fn law_credentials_are_asked(
    head: &RequestHead,
    auth: &Option<BasicAuthRuntime>,
    r: Option<Refusal>,
    b: bool,
    i: int,
)
    requires
        call_ensures(security_middleware, (head, auth), r),
        call_ensures(request_has_crlf, (head,), b),
        sound(*head),
        first_named(*head, "authorization"@, i) || not_named(*head, "authorization"@),
    ensures
        (r is Some && r->0.failure.status == 401) <==> {
            &&& auth is Some
            &&& !(first_named(*head, "authorization"@, i) && head.headers@[i].value is Some
                && head.headers@[i].value->0@ == auth->0.expected_header@)
        },
        r is Some && r->0.failure.status == 401 ==> (r->0.challenge matches Some(c) && c@
            == "Basic realm=\"vpnman\""@),
{
    law_broken_requests(head, b);
    law_the_decision(*head, *auth);
    if first_named(*head, "authorization"@, i) {
        law_first_header_counts(head.headers@, "authorization"@, i);
    } else {
        law_first_header_counts(head.headers@, "authorization"@, head.headers@.len() as int);
    }
    if let Some(why) = r {
        assert(why@.failure.status == why.failure.status);
        assert(why@.challenge == match why.challenge {
            Some(c) => Some(c@),
            None => None,
        });
    }
}

/// A sound request that reads is never refused for where it comes from.
pub proof fn law_reading_requests_pass(
    head: &RequestHead,
    auth: &Option<BasicAuthRuntime>,
    r: Option<Refusal>,
)
    requires
        call_ensures(security_middleware, (head, auth), r),
        head.method@ != "POST"@,
        head.method@ != "PUT"@,
        head.method@ != "PATCH"@,
        head.method@ != "DELETE"@,
    ensures
        r matches Some(why) ==> why.failure.status != 403,
{
    law_the_decision(*head, *auth);
    if let Some(why) = r {
        assert(why@.failure.status == why.failure.status);
    }
}

/// A sound and admitted writing request whose browser states the relation of the sites is refused
/// if and only if it states neither that they are the same nor that there is none.
pub proof fn law_stated_relations(
    head: &RequestHead,
    r: Option<Refusal>,
    b: bool,
    i: int,
)
    requires
        call_ensures(security_middleware, (head, &None), r),
        call_ensures(request_has_crlf, (head,), b),
        sound(*head),
        head.method@ == "POST"@ || head.method@ == "PUT"@ || head.method@ == "PATCH"@
            || head.method@ == "DELETE"@,
        first_named(*head, "sec-fetch-site"@, i),
    ensures
        r is Some <==> head.headers@[i].value->0@ != "same-origin"@ && head.headers@[i].value->0@
            != "none"@,
        r is Some ==> r->0.failure.status == 403 && r->0.failure.code@ == "cross_site_request"@,
{
    law_broken_requests(head, b);
    law_the_decision(*head, None);
    law_first_header_counts(head.headers@, "sec-fetch-site"@, i);
    assert(head.headers@[i].value is Some);
    if let Some(why) = r {
        assert(why@.failure.status == why.failure.status && why@.failure.code
            == why.failure.code@);
    }
}

/// Bytes are found to be equal if and only if they are, whatever they are.
pub proof fn law_equal_bytes(left: &[u8], right: &[u8], r: bool)
    requires
        call_ensures(constant_time_eq, (left, right), r),
    ensures
        r <==> left@.len() == right@.len() && forall|i: int|
            0 <= i < left@.len() ==> #[trigger] left@[i] == right@[i],
{
    if !r && left@.len() == right@.len() {
        if forall|i: int| 0 <= i < left@.len() ==> #[trigger] left@[i] == right@[i] {
            assert(left@ =~= right@);
        }
    }
}

// ---- configurations ----

/// A configuration is accepted if and only if it has a data directory, a host that holds something
/// other than white space and breaks no line, and complete credentials where they are enabled.
pub proof fn law_accepted_configurations(config: &AppConfig, r: Result<(), String>)
    requires
        call_ensures(validate_app_config, (config,), r),
    ensures
        r is Ok <==> {
            &&& config.data_dir@.len() > 0
            &&& exists|i: int|
                0 <= i < config.bind.host@.len() && !white_space(#[trigger] config.bind.host@[i])
            &&& !broken(config.bind.host@)
            &&& config.basic_auth matches Some(auth) ==> !auth.enabled || complete_credentials(auth)
        },
{
    law_usable_configurations(*config);
}

/// A configuration that is accepted is used as it was read; any other is refused with the path of
/// its file.
pub proof fn law_read_configurations(
    path: &str,
    config: AppConfig,
    r: Result<AppConfig, String>,
    v: Result<(), String>,
)
    requires
        call_ensures(load_app_config, (path, ConfigFile::Holds(config)), r),
        call_ensures(validate_app_config, (&config,), v),
    ensures
        v is Ok ==> r == Ok::<AppConfig, String>(config),
        v matches Err(e) ==> (r matches Err(m) && m@ == "invalid"@ + " config '"@ + path@ + "': "@
            + e@),
{
}

/// The header that admits a request is made of the name and the password that are configured.
pub proof fn law_expected_header(auth: &BasicAuthConfig, r: Result<Option<BasicAuthRuntime>, String>)
    requires
        call_ensures(basic_auth_runtime, (Some(auth),), r),
    ensures
        !auth.enabled ==> r == Ok::<Option<BasicAuthRuntime>, String>(None),
        auth.enabled && (auth.username is None || auth.password is None) ==> r is Err,
        auth.enabled && auth.username is Some && auth.password is Some ==> (r matches Ok(
            Some(runtime),
        ) && runtime.expected_header@ == "Basic "@ + base64_text(
            encode_utf8(auth.username->0@ + seq![':'] + auth.password->0@),
        )),
{
    reveal_strlit(":");
    assert(":"@ =~= seq![':']);
}

/// A text is found to break lines if and only if it does.
pub proof fn law_broken_lines(value: &str, r: bool)
    requires
        call_ensures(contains_crlf, (value,), r),
    ensures
        r <==> breaks_lines(value@),
{
    law_broken_texts(value@);
}

// ---- places ----

/// A text is accepted as an identifier if and only if it is not empty and holds nothing but ASCII
/// letters and digits, `-` and `_`.
pub proof fn law_accepted_identifiers(value: &str, r: bool)
    requires
        call_ensures(valid_storage_id, (value,), r),
    ensures
        r <==> value@.len() > 0 && forall|i: int|
            0 <= i < value@.len() ==> ({
                let c = #[trigger] value@[i] as int;
                48 <= c <= 57 || 65 <= c <= 90 || 97 <= c <= 122 || c == 45 || c == 95
            }),
{
    law_identifiers(value@);
}

/// A slug is the words of a text in small letters, with `-` between them: of a word, of a word and
/// what follows it, and of a text behind other characters.
pub proof fn law_slugs(
    word: Seq<char>,
    c: char,
    rest: Seq<char>,
    value: &str,
    r: String,
    behind: &str,
    s: String,
)
    requires
        call_ensures(slugify, (value,), r),
        call_ensures(slugify, (behind,), s),
        behind@ == rest,
        !ascii_alphanumeric(c),
    ensures
        alphanumeric_word(word) && value@ == word ==> r@ == lowered(word),
        alphanumeric_word(word) && value@ == word + seq![c] + rest && has_alphanumeric(rest) ==> r@
            == lowered(word) + seq!['-'] + s@,
        alphanumeric_word(word) && value@ == word + seq![c] + rest && !has_alphanumeric(rest)
            ==> r@ == lowered(word),
        value@ == seq![c] + rest && has_alphanumeric(rest) ==> r@ == s@,
        !has_alphanumeric(value@) ==> r@ == "profile"@,
{
    if alphanumeric_word(word) {
        law_slug_of_a_word(word);
        law_slug_of_words(word, c, rest);
    }
    if has_alphanumeric(rest) {
        law_slug_leaves_out_the_front(c, rest);
    }
    if !has_alphanumeric(value@) {
        law_slug_of_nothing(value@);
    }
}

/// The directories and the file of the settings lie under the data directory.
pub proof fn law_places_under_the_root(
    root: &str,
    config: String,
    templates: String,
    profiles: String,
    minica: String,
)
    requires
        call_ensures(config_dir, (root,), config),
        call_ensures(templates_dir, (root,), templates),
        call_ensures(profiles_dir, (root,), profiles),
        call_ensures(minica_config_path, (root,), minica),
        root@.len() > 0,
        root@[root@.len() - 1] != '/',
    ensures
        config@ == root@ + "/config"@,
        templates@ == root@ + "/templates"@,
        profiles@ == root@ + "/profiles"@,
        minica@ == root@ + "/config/minica.yaml"@,
{
    reveal_strlit("config");
    reveal_strlit("/config");
    reveal_strlit("templates");
    reveal_strlit("/templates");
    reveal_strlit("profiles");
    reveal_strlit("/profiles");
    reveal_strlit("minica.yaml");
    reveal_strlit("/config/minica.yaml");
    assert("/config"@ =~= seq!['/'] + "config"@);
    assert("/templates"@ =~= seq!['/'] + "templates"@);
    assert("/profiles"@ =~= seq!['/'] + "profiles"@);
    assert("/config/minica.yaml"@ =~= "/config"@ + seq!['/'] + "minica.yaml"@);
    law_paths_inside(root@, "config"@);
    law_paths_inside(root@, "templates"@);
    law_paths_inside(root@, "profiles"@);
    assert(config@ =~= root@ + "/config"@);
    assert(templates@ =~= root@ + "/templates"@);
    assert(profiles@ =~= root@ + "/profiles"@);
    law_paths_inside(config@, "minica.yaml"@);
    assert(config@[config@.len() - 1] == 'g');
    assert(minica@ =~= root@ + "/config/minica.yaml"@);
}

/// A stored thing has a place if and only if its identifier is valid: a directory of its own, with
/// its text and its metadata in it.
pub proof fn law_located_things(
    root: &str,
    id: &str,
    t: Result<StoredPaths, String>,
    p: Result<StoredPaths, String>,
)
    requires
        call_ensures(template_location, (root, id), t),
        call_ensures(profile_location, (root, id), p),
        root@.len() > 0,
        root@[root@.len() - 1] != '/',
    ensures
        t is Ok <==> storage_id(id@),
        p is Ok <==> storage_id(id@),
        t is Ok ==> {
            &&& t->Ok_0.dir@ == root@ + "/templates/"@ + id@
            &&& t->Ok_0.text@ == root@ + "/templates/"@ + id@ + "/template.ovpn"@
            &&& t->Ok_0.metadata@ == root@ + "/templates/"@ + id@ + "/metadata.yaml"@
        },
        p is Ok ==> {
            &&& p->Ok_0.dir@ == root@ + "/profiles/"@ + id@
            &&& p->Ok_0.text@ == root@ + "/profiles/"@ + id@ + "/profile.ovpn"@
            &&& p->Ok_0.metadata@ == root@ + "/profiles/"@ + id@ + "/metadata.yaml"@
        },
{
    if t is Ok {
        law_places_of_stored_things(t->Ok_0, root@, id@);
    }
    if p is Ok {
        law_places_of_stored_things(p->Ok_0, root@, id@);
    }
}

/// An identifier is the time, the prefix and the random part, with `-` between them; a path is the
/// base, one `/` and the part.
pub proof fn law_composed_texts(
    stamp: &str,
    prefix: &str,
    random: &str,
    id: String,
    path: String,
)
    requires
        call_ensures(compose_id, (stamp, prefix, random), id),
        call_ensures(join_path, (stamp, prefix), path),
        stamp@.len() > 0,
        stamp@[stamp@.len() - 1] != '/',
        prefix@.len() > 0 ==> prefix@[0] != '/',
    ensures
        id@ == stamp@ + seq!['-'] + prefix@ + seq!['-'] + random@,
        path@ == stamp@ + seq!['/'] + prefix@,
{
    law_composed_ids(stamp@, prefix@, random@);
    law_paths_inside(stamp@, prefix@);
}

} // verus!
