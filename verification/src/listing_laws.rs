//! What lists and answers hold, said of the operations: of what they take and what they give back.
use vstd::prelude::*;

use crate::api::{
    api_failure, api_get_profile, api_list_cas, api_list_profiles, api_list_templates, api_ok,
    issued_config, listed_cas, load_api_profile, resolve_api_ca_id, ApiFailure, ApiProfile,
    ApiProfileSummary, ApiReply, ApiTemplate, ProfileMetadata,
};
use crate::clock::age_title;
use crate::listing::{
    by_name, latest_first, law_every_found_item_is_present, load_profiles, load_templates, places,
    present,
};
use crate::minica::{Method, MinicaCa, MinicaConfig, MinicaRequest};
use crate::number::decimal;
use crate::order::before;
use crate::sorting::law_sorted_keeps_items;
use crate::templates::Template;
use crate::text::{blank, trimmed};
use crate::text_laws::law_without_trailing;

verus! {

// ---- the lists ----

/// The list of templates holds every template that was found, as many as there are places at which
/// one was found and each as often as it was found, and is in the order of the names.
pub proof fn law_list_of_templates(found: Vec<Option<Template>>, r: Vec<Template>)
    requires
        call_ensures(load_templates, (found,), r),
    ensures
        forall|i: int|
            0 <= i < found@.len() && (#[trigger] found@[i]) is Some ==> r@.contains(found@[i]->0),
        r@.len() == places(found@).len(),
        r@.to_multiset() == found@.filter_map(|item: Option<Template>| item).to_multiset(),
        forall|i: int, j: int|
            0 <= i < j < r@.len() ==> !before(
                (#[trigger] r@[j]).metadata.name@,
                (#[trigger] r@[i]).metadata.name@,
            ),
{
    law_every_found_item_is_present(found@);
    law_sorted_keeps_items(present(found@), by_name());
}

/// The list of profiles holds every profile that was found, as many as there are places at which
/// one was found and each as often as it was found, and has none before a later one.
pub proof fn law_list_of_profiles(
    found: Vec<Option<(String, ProfileMetadata)>>,
    r: Vec<(String, ProfileMetadata)>,
)
    requires
        call_ensures(load_profiles, (found,), r),
    ensures
        forall|i: int|
            0 <= i < found@.len() && (#[trigger] found@[i]) is Some ==> r@.contains(found@[i]->0),
        r@.len() == places(found@).len(),
        r@.to_multiset() == found@.filter_map(
            |item: Option<(String, ProfileMetadata)>| item,
        ).to_multiset(),
        forall|i: int, j: int|
            0 <= i < j < r@.len() ==> {
                let a = (#[trigger] r@[i]).1.created_at;
                let b = (#[trigger] r@[j]).1.created_at;
                a.seconds > b.seconds || (a.seconds == b.seconds && a.nanos >= b.nanos)
            },
{
    law_every_found_item_is_present(found@);
    law_sorted_keeps_items(present(found@), latest_first());
}

// ---- answers of the programming interface ----

/// An answer that reports success, and nothing else.
pub open spec fn succeeds<T>(r: ApiReply<T>) -> bool {
    &&& r.status == 200
    &&& r.envelope.success
    &&& r.envelope.error_code@.len() == 0
    &&& r.envelope.error_message@.len() == 0
    &&& r.envelope.data is Some
}

/// An answer that reports a failure, and nothing else.
pub open spec fn fails_with<T>(r: ApiReply<T>, status: u16, code: Seq<char>, message: Seq<char>) -> bool {
    &&& r.status == status
    &&& !r.envelope.success
    &&& r.envelope.error_code@ == code
    &&& r.envelope.error_message@ == message
    &&& r.envelope.data is None
}

/// The answer lists all templates, in their order, each with its fields as they are.
pub proof fn law_answer_lists_templates(
    loaded: Result<Vec<Template>, String>,
    r: ApiReply<Vec<ApiTemplate>>,
)
    requires
        call_ensures(api_list_templates, (loaded,), r),
    ensures
        loaded is Err ==> fails_with(r, 500, "failed_to_list_templates"@, loaded->Err_0@),
        loaded is Ok ==> succeeds(r) && r.envelope.data->0@.len() == loaded->Ok_0@.len(),
        loaded is Ok ==> forall|i: int|
            0 <= i < loaded->Ok_0@.len() ==> {
                let a = #[trigger] r.envelope.data->0@[i];
                let t = loaded->Ok_0@[i];
                &&& a.id@ == t.id@
                &&& a.name@ == t.metadata.name@
                &&& a.description@ == t.metadata.description@
                &&& a.token_start@ == t.metadata.token_start@
                &&& a.token_stop@ == t.metadata.token_stop@
                &&& a.variables@ == t.metadata.variables@
            },
{
}

/// The answer lists all profiles, in their order, each with its identifier and all that is known
/// of it.
pub proof fn law_answer_lists_profiles(
    loaded: Result<Vec<(String, ProfileMetadata)>, String>,
    r: ApiReply<Vec<ApiProfileSummary>>,
)
    requires
        call_ensures(api_list_profiles, (loaded,), r),
    ensures
        loaded is Err ==> fails_with(r, 500, "failed_to_list_profiles"@, loaded->Err_0@),
        loaded is Ok ==> succeeds(r) && r.envelope.data->0@.len() == loaded->Ok_0@.len(),
        loaded is Ok ==> forall|i: int|
            0 <= i < loaded->Ok_0@.len() ==> (#[trigger] r.envelope.data->0@[i]).id
                == loaded->Ok_0@[i].0 && r.envelope.data->0@[i].metadata == loaded->Ok_0@[i].1,
{
}

/// The answer hands out the authorities that Minica listed, all of them and unchanged.
pub proof fn law_answer_lists_cas(
    listed: Result<Vec<MinicaCa>, String>,
    r: ApiReply<Vec<MinicaCa>>,
    config: Result<MinicaConfig, String>,
    asked: Result<MinicaRequest, ApiReply<Vec<MinicaCa>>>,
)
    requires
        call_ensures(listed_cas, (listed,), r),
        call_ensures(api_list_cas, (config,), asked),
        config is Ok && config->Ok_0.base_url@.len() > 0
            ==> config->Ok_0.base_url@[config->Ok_0.base_url@.len() - 1] != '/',
    ensures
        listed is Ok ==> succeeds(r) && r.envelope.data->0@ == listed->Ok_0@,
        listed is Err ==> fails_with(r, 502, "failed_to_list_cas"@, listed->Err_0@),
        config is Ok ==> (asked matches Ok(request) && request.method == Method::Get
            && request.url@ == config->Ok_0.base_url@ + "/api/cas"@),
        config is Err ==> (asked matches Err(reply) && fails_with(
            reply,
            500,
            "minica_config_missing"@,
            config->Err_0@,
        )),
{
    if config is Ok {
        let none = Seq::<char>::empty();
        let base = config->Ok_0.base_url@;
        law_without_trailing(base, none, '/');
        assert(base + none =~= base);
        assert(asked->Ok_0@.url == asked->Ok_0.url@);
    }
}

/// A profile that was asked for is handed out as it was read; one that could not be read is not
/// found.
pub proof fn law_answer_hands_out_profiles(
    id: &str,
    metadata: Result<ProfileMetadata, String>,
    text: Result<String, String>,
    loaded: Result<ApiProfile, String>,
    r: ApiReply<ApiProfile>,
)
    requires
        call_ensures(load_api_profile, (id, metadata, text), loaded),
        call_ensures(api_get_profile, (loaded,), r),
    ensures
        metadata is Ok && text is Ok <==> loaded is Ok,
        loaded is Ok ==> {
            &&& succeeds(r)
            &&& r.envelope.data->0.id@ == id@
            &&& r.envelope.data->0.metadata == metadata->Ok_0
            &&& r.envelope.data->0.profile == text->Ok_0
        },
        metadata is Err ==> fails_with(r, 404, "profile_not_found"@, metadata->Err_0@),
        metadata is Ok && text is Err ==> fails_with(r, 404, "profile_not_found"@, text->Err_0@),
{
}

/// A configuration that was issued is handed out as it was issued; else the failure is reported as
/// it is.
pub proof fn law_answer_hands_out_what_was_issued(
    issued: Result<ApiProfile, ApiFailure>,
    r: ApiReply<ApiProfile>,
)
    requires
        call_ensures(issued_config, (issued,), r),
    ensures
        issued matches Ok(profile) ==> succeeds(r) && r.envelope.data == Some(profile),
        issued matches Err(f) ==> fails_with(r, f.status, f.code@, f.message@),
{
}

/// The authority of a request is the one that it names, trimmed, and else the default one.
pub proof fn law_authority_of_a_request(
    requested: Option<&str>,
    config: Result<MinicaConfig, String>,
    r: Result<String, ApiFailure>,
)
    requires
        call_ensures(resolve_api_ca_id, (requested, config), r),
    ensures
        requested is Some && !blank(requested->0@) ==> (r matches Ok(id) && id@ == trimmed(
            requested->0@,
        )),
        (requested is None || blank(requested->0@)) && config is Ok && !blank(
            config->Ok_0.default_ca_id@,
        ) ==> (r matches Ok(id) && id@ == config->Ok_0.default_ca_id@),
        r is Err <==> (requested is None || blank(requested->0@)) && (config is Err || blank(
            config->Ok_0.default_ca_id@,
        )),
{
}

// ---- ages ----

/// An age is told in days, and what lies ahead counts as today.
pub proof fn law_told_ages(days: i64, r: String)
    requires
        call_ensures(age_title, (days,), r),
    ensures
        days <= 0 ==> r@ == "today"@,
        days == 1 ==> r@ == "1 day ago"@,
        days > 1 ==> r@ == decimal(days as nat) + " days ago"@,
{
}

/// Data is handed out as it is, and a failure is reported as it is.
pub proof fn law_answers<T>(data: T, ok: ApiReply<T>, f: ApiFailure, failed: ApiReply<T>)
    requires
        call_ensures(api_ok::<T>, (data,), ok),
        call_ensures(api_failure::<T>, (f,), failed),
    ensures
        succeeds(ok) && ok.envelope.data == Some(data),
        fails_with(failed, f.status, f.code@, f.message@),
{
}

} // verus!
