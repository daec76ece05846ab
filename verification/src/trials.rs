//! Trying the settings: whether Minica answers, and whether it issues and deletes a certificate.
use vstd::prelude::*;

use crate::minica::{
    creating, deleting, minica_create_cert, minica_delete_cert, minica_get_csrf, minica_list_cas,
    reading, config_or_initial, form_defaults, kept_url, save_minica_settings, trial_config,
    CertDefaultsForm, Method, MinicaCa, MinicaCert, MinicaConfig, MinicaConfigView, MinicaRequest,
    MinicaSettingsForm,
};
use crate::number::{decimal, natural_text};
use crate::outside::{hex_digit, random_uuid};
use crate::text::{blank, chars_of, is_blank, slice_text, white_space};
use crate::text_laws::law_without_trailing;

verus! {

/// The outcome of a trial.
#[derive(Debug, PartialEq, Eq)]
pub struct TestResponse {
    pub ok: bool,
    pub message: String,
    pub cas: Vec<MinicaCa>,
}

// ---- reaching Minica ----

/// The request by which the settings of a form are tried: the certificate authorities are
/// listed under them.
pub fn test_minica_settings(current: Option<MinicaConfig>, form: MinicaSettingsForm) -> (r:
    MinicaRequest)
    ensures
        r@ == reading(
            (MinicaConfigView {
                base_url: kept_url(form.base_url@),
                username: form.username@,
                password: form.password@,
                default_ca_id: form.default_ca_id@,
                cert_defaults: config_or_initial(current).cert_defaults,
            }),
            "/api/cas"@,
        ),
{
    let cfg = save_minica_settings(current, form);
    minica_list_cas(&cfg)
}

/// The outcome of listing the certificate authorities.
pub fn listing_outcome(listed: Result<Vec<MinicaCa>, String>) -> (r: TestResponse)
    ensures
        match listed {
            Ok(cas) => r.ok && r.message@ == "OK: listed "@ + decimal(cas@.len()) + " CA(s)"@ && r.cas
                == cas,
            Err(e) => !r.ok && r.message@ == "Not OK: "@ + e@ && r.cas@.len() == 0,
        },
{
    match listed {
        Ok(cas) => {
            let mut message = "OK: listed ".to_string();
            message.append(natural_text(cas.len() as u128).as_str());
            message.append(" CA(s)");
            TestResponse { ok: true, message, cas }
        },
        Err(e) => {
            let mut message = "Not OK: ".to_string();
            message.append(e.as_str());
            TestResponse { ok: false, message, cas: Vec::new() }
        },
    }
}

// ---- issuing and deleting a certificate ----

/// How far a trial of the certificate defaults has come: what is being waited for.
#[derive(Debug, PartialEq, Eq)]
pub enum TrialState {
    /// The token for creating a certificate.
    FetchingCreateToken { cfg: MinicaConfig, name: String },
    /// The new certificate.
    Creating { cfg: MinicaConfig, name: String },
    /// The token for deleting the certificate.
    FetchingDeleteToken { cfg: MinicaConfig, name: String, cert_id: String },
    /// That the certificate is deleted.
    Deleting { name: String },
    /// Nothing more.
    Done,
}

/// What an action brought.
#[derive(Debug, PartialEq, Eq)]
pub enum TrialEvent {
    Csrf(Result<String, String>),
    Created(Result<MinicaCert, String>),
    Deleted(Result<(), String>),
}

/// What is to be done next.
#[derive(Debug, PartialEq, Eq)]
pub enum TrialAction {
    /// Ask for the token.
    GetCsrf(MinicaRequest),
    /// Have a certificate created.
    CreateCert(MinicaRequest),
    /// Have the certificate deleted.
    DeleteCert(MinicaRequest),
    /// Answer.
    Finish(TestResponse),
}

/// The next state and the next action.
#[derive(Debug, PartialEq, Eq)]
pub struct TrialTurn {
    pub next: TrialState,
    pub action: TrialAction,
}

impl TrialState {
    /// The event is what the state waits for.
    pub open spec fn awaits(&self, event: TrialEvent) -> bool {
        match *self {
            TrialState::FetchingCreateToken { .. } => event is Csrf,
            TrialState::Creating { .. } => event is Created,
            TrialState::FetchingDeleteToken { .. } => event is Csrf,
            TrialState::Deleting { .. } => event is Deleted,
            TrialState::Done => false,
        }
    }

    /// The number of steps that can still follow at most.
    pub open spec fn steps_left(&self) -> nat {
        match *self {
            TrialState::FetchingCreateToken { .. } => 4,
            TrialState::Creating { .. } => 3,
            TrialState::FetchingDeleteToken { .. } => 2,
            TrialState::Deleting { .. } => 1,
            TrialState::Done => 0,
        }
    }
}

/// The trial ends with this outcome.
pub open spec fn ends(turn: TrialTurn, ok: bool, message: Seq<char>) -> bool {
    &&& turn.next is Done
    &&& turn.action matches TrialAction::Finish(outcome) && outcome.ok == ok && outcome.message@
        == message && outcome.cas@.len() == 0
}

/// What is reported where a certificate could not be issued.
pub open spec fn untested(e: Seq<char>) -> Seq<char> {
    "Not OK: can't test: "@ + e
}

/// What is reported where the certificate `name` was issued and could not be deleted.
pub open spec fn undeleted(name: Seq<char>, e: Seq<char>) -> Seq<char> {
    "Not OK: issued "@ + name + ", but could not delete it: "@ + e
}

/// The turn with which a trial begins.
pub open spec fn begins(cfg: MinicaConfigView, name: Seq<char>, turn: TrialTurn) -> bool {
    if blank(cfg.default_ca_id) {
        ends(turn, false, "Not OK: Default CA ID is required for certificate test"@)
    } else {
        &&& turn.next matches TrialState::FetchingCreateToken { cfg: c, name: n } && c@ == cfg && n@
            == name
        &&& turn.action matches TrialAction::GetCsrf(request) && request@ == reading(
            cfg,
            "/api/csrf"@,
        )
    }
}

/// The turn that follows from a state and an event.
pub open spec fn trial_follows(state: TrialState, event: TrialEvent, turn: TrialTurn) -> bool {
    match (state, event) {
        (TrialState::FetchingCreateToken { cfg, name }, TrialEvent::Csrf(Ok(token))) => {
            &&& turn.next == (TrialState::Creating { cfg, name })
            &&& turn.action matches TrialAction::CreateCert(request) && request@ == creating(
                cfg@,
                cfg.default_ca_id@,
                name@,
                token@,
            )
        },
        (TrialState::FetchingCreateToken { cfg, name }, TrialEvent::Csrf(Err(e))) => ends(
            turn,
            false,
            untested(e@),
        ),
        (TrialState::Creating { cfg, name }, TrialEvent::Created(Ok(cert))) => {
            &&& turn.next == (TrialState::FetchingDeleteToken { cfg, name, cert_id: cert.id })
            &&& turn.action matches TrialAction::GetCsrf(request) && request@ == reading(
                cfg@,
                "/api/csrf"@,
            )
        },
        (TrialState::Creating { cfg, name }, TrialEvent::Created(Err(e))) => ends(
            turn,
            false,
            untested(e@),
        ),
        (
            TrialState::FetchingDeleteToken { cfg, name, cert_id },
            TrialEvent::Csrf(Ok(token)),
        ) => {
            &&& turn.next == (TrialState::Deleting { name })
            &&& turn.action matches TrialAction::DeleteCert(request) && request@ == deleting(
                cfg@,
                cfg.default_ca_id@,
                cert_id@,
                token@,
            )
        },
        (TrialState::FetchingDeleteToken { cfg, name, cert_id }, TrialEvent::Csrf(Err(e))) => ends(
            turn,
            false,
            undeleted(name@, e@),
        ),
        (TrialState::Deleting { name }, TrialEvent::Deleted(Ok(_))) => ends(
            turn,
            true,
            "OK: issued and deleted "@ + name@,
        ),
        (TrialState::Deleting { name }, TrialEvent::Deleted(Err(e))) => ends(
            turn,
            false,
            undeleted(name@, e@),
        ),
        _ => false,
    }
}

/// The end of a trial.
fn finish(ok: bool, message: String) -> (turn: TrialTurn)
    ensures
        ends(turn, ok, message@),
{
    TrialTurn {
        next: TrialState::Done,
        action: TrialAction::Finish(TestResponse { ok, message, cas: Vec::new() }),
    }
}

/// The end of a trial in which no certificate was issued.
fn not_issued(e: String) -> (turn: TrialTurn)
    ensures
        ends(turn, false, untested(e@)),
{
    let mut message = "Not OK: can't test: ".to_string();
    message.append(e.as_str());
    finish(false, message)
}

/// The end of a trial in which the certificate was not deleted.
fn not_deleted(name: String, e: String) -> (turn: TrialTurn)
    ensures
        ends(turn, false, undeleted(name@, e@)),
{
    let mut message = "Not OK: issued ".to_string();
    message.append(name.as_str());
    message.append(", but could not delete it: ");
    message.append(e.as_str());
    finish(false, message)
}

/// Begins a trial with the certificate `name` under the default certificate authority.
pub fn begin_trial(cfg: MinicaConfig, name: String) -> (turn: TrialTurn)
    ensures
        begins(cfg@, name@, turn),
{
    if is_blank(cfg.default_ca_id.as_str()) {
        return finish(
            false,
            "Not OK: Default CA ID is required for certificate test".to_string(),
        );
    }
    let request = minica_get_csrf(&cfg);
    TrialTurn {
        next: TrialState::FetchingCreateToken { cfg, name },
        action: TrialAction::GetCsrf(request),
    }
}

/// The name of a certificate made for a trial.
pub open spec fn trial_name(name: Seq<char>) -> bool {
    exists|random: Seq<char>|
        #[trigger] random.len() == 5 && (forall|i: int|
            0 <= i < 5 ==> hex_digit(#[trigger] random[i])) && name == "test-"@ + random
}

/// Begins a trial of the certificate defaults of a form, with a certificate of a random name.
pub fn test_cert_defaults(current: Option<MinicaConfig>, form: CertDefaultsForm) -> (turn: TrialTurn)
    ensures
        exists|name: Seq<char>|
            #[trigger] trial_name(name) && begins(
                (MinicaConfigView {
                    cert_defaults: form_defaults(form),
                    ..config_or_initial(current)
                }),
                name,
                turn,
            ),
{
    let cfg = trial_config(current, form);
    let random = random_uuid();
    let digits = slice_text(&chars_of(random.as_str()), 0, 5);
    let mut name = "test-".to_string();
    name.append(digits.as_str());
    proof {
        assert forall|i: int| 0 <= i < 5 implies hex_digit(#[trigger] digits@[i]) by {
            assert(digits@[i] == random@[i]);
        }
        assert(digits@.len() == 5);
        assert(trial_name(name@));
    }
    begin_trial(cfg, name)
}

/// The turn that follows from a state and an event that it waits for.
pub fn trial_step(state: TrialState, event: TrialEvent) -> (turn: TrialTurn)
    requires
        state.awaits(event),
    ensures
        trial_follows(state, event, turn),
{
    match (state, event) {
        (TrialState::FetchingCreateToken { cfg, name }, TrialEvent::Csrf(token)) => match token {
            Err(e) => not_issued(e),
            Ok(token) => {
                let request = minica_create_cert(
                    &cfg,
                    cfg.default_ca_id.as_str(),
                    name.as_str(),
                    token,
                );
                TrialTurn {
                    next: TrialState::Creating { cfg, name },
                    action: TrialAction::CreateCert(request),
                }
            },
        },
        (TrialState::Creating { cfg, name }, TrialEvent::Created(created)) => match created {
            Err(e) => not_issued(e),
            Ok(cert) => {
                let request = minica_get_csrf(&cfg);
                TrialTurn {
                    next: TrialState::FetchingDeleteToken { cfg, name, cert_id: cert.id },
                    action: TrialAction::GetCsrf(request),
                }
            },
        },
        (
            TrialState::FetchingDeleteToken { cfg, name, cert_id },
            TrialEvent::Csrf(token),
        ) => match token {
            Err(e) => not_deleted(name, e),
            Ok(token) => {
                let request = minica_delete_cert(
                    &cfg,
                    cfg.default_ca_id.as_str(),
                    cert_id.as_str(),
                    token,
                );
                TrialTurn {
                    next: TrialState::Deleting { name },
                    action: TrialAction::DeleteCert(request),
                }
            },
        },
        (TrialState::Deleting { name }, TrialEvent::Deleted(deleted)) => match deleted {
            Err(e) => not_deleted(name, e),
            Ok(_) => {
                let mut message = "OK: issued and deleted ".to_string();
                message.append(name.as_str());
                finish(true, message)
            },
        },
        _ => {
            proof {
                assert(false);
            }
            finish(false, String::new())
        },
    }
}

// ---- laws of a trial ----

/// A trial ends: each step leaves fewer steps to follow, and it answers exactly when none is
/// left.
pub proof fn law_trial_ends(state: TrialState, event: TrialEvent, turn: TrialTurn)
    requires
        state.awaits(event),
        trial_follows(state, event, turn),
    ensures
        turn.next.steps_left() < state.steps_left(),
        turn.action is Finish == (turn.next.steps_left() == 0),
{
}

/// A request that writes to Minica carries the token that Minica gave just before; one that reads
/// carries none.
pub proof fn law_trial_writes_with_token(state: TrialState, event: TrialEvent, turn: TrialTurn)
    requires
        trial_follows(state, event, turn),
    ensures
        turn.action matches TrialAction::CreateCert(request) ==> request@.method == Method::Put
            && (event matches TrialEvent::Csrf(Ok(token)) && request@.csrf == Some(token@)),
        turn.action matches TrialAction::DeleteCert(request) ==> request@.method == Method::Delete
            && (event matches TrialEvent::Csrf(Ok(token)) && request@.csrf == Some(token@)),
        turn.action matches TrialAction::GetCsrf(request) ==> request@.method == Method::Get
            && request@.csrf is None,
{
}

/// A trial succeeds only after the certificate it issued was deleted.
pub proof fn law_trial_leaves_nothing(state: TrialState, event: TrialEvent, turn: TrialTurn)
    requires
        trial_follows(state, event, turn),
        turn.action matches TrialAction::Finish(outcome) && outcome.ok,
    ensures
        state is Deleting,
        event matches TrialEvent::Deleted(deleted) && deleted is Ok,
{
}

// ---- the whole trial ----

/// What each action brings in one trial.
pub struct TrialSurroundings {
    pub create_token: Result<String, String>,
    pub created: Result<MinicaCert, String>,
    pub delete_token: Result<String, String>,
    pub deleted: Result<(), String>,
}

/// What comes while a state waits.
pub open spec fn trial_event(s: TrialSurroundings, state: TrialState) -> TrialEvent {
    match state {
        TrialState::FetchingCreateToken { .. } => TrialEvent::Csrf(s.create_token),
        TrialState::Creating { .. } => TrialEvent::Created(s.created),
        TrialState::FetchingDeleteToken { .. } => TrialEvent::Csrf(s.delete_token),
        _ => TrialEvent::Deleted(s.deleted),
    }
}

/// The turns of a trial of the certificate `name` from its beginning to its outcome.
pub open spec fn trial(
    turns: Seq<TrialTurn>,
    cfg: MinicaConfigView,
    name: Seq<char>,
    s: TrialSurroundings,
) -> bool {
    &&& turns.len() > 0
    &&& begins(cfg, name, turns[0])
    &&& turns.last().action is Finish
    &&& forall|i: int|
        0 <= i < turns.len() - 1 ==> {
            &&& !((#[trigger] turns[i]).action is Finish)
            &&& trial_follows(turns[i].next, trial_event(s, turns[i].next), turns[i + 1])
        }
}

/// Whether a trial succeeds, and what is reported of it.
pub open spec fn trial_outcome(
    cfg: MinicaConfigView,
    name: Seq<char>,
    s: TrialSurroundings,
) -> (bool, Seq<char>) {
    if blank(cfg.default_ca_id) {
        (false, "Not OK: Default CA ID is required for certificate test"@)
    } else if let Err(e) = s.create_token {
        (false, untested(e@))
    } else if let Err(e) = s.created {
        (false, untested(e@))
    } else if let Err(e) = s.delete_token {
        (false, undeleted(name, e@))
    } else if let Err(e) = s.deleted {
        (false, undeleted(name, e@))
    } else {
        (true, "OK: issued and deleted "@ + name)
    }
}

/// A turn that is not the last one is followed by another, and one that answers is the last.
proof fn lemma_trial_turn(
    turns: Seq<TrialTurn>,
    cfg: MinicaConfigView,
    name: Seq<char>,
    s: TrialSurroundings,
    i: int,
)
    requires
        trial(turns, cfg, name, s),
        0 <= i < turns.len(),
    ensures
        turns[i].action is Finish ==> turns.last() == turns[i],
        !(turns[i].action is Finish) ==> i + 1 < turns.len() && trial_follows(
            turns[i].next,
            trial_event(s, turns[i].next),
            turns[i + 1],
        ),
{
    if i == turns.len() - 1 {
        assert(turns.last() == turns[i]);
    }
}

/// Every trial ends with the outcome that the answers of Minica give it.
pub proof fn law_trial_answers(
    turns: Seq<TrialTurn>,
    cfg: MinicaConfigView,
    name: Seq<char>,
    s: TrialSurroundings,
)
    requires
        trial(turns, cfg, name, s),
    ensures
        ends(
            turns.last(),
            trial_outcome(cfg, name, s).0,
            trial_outcome(cfg, name, s).1,
        ),
{
    lemma_trial_turn(turns, cfg, name, s, 0);
    if !blank(cfg.default_ca_id) {
        lemma_trial_turn(turns, cfg, name, s, 1);
        if s.create_token is Ok {
            lemma_trial_turn(turns, cfg, name, s, 2);
            if s.created is Ok {
                lemma_trial_turn(turns, cfg, name, s, 3);
                if s.delete_token is Ok {
                    lemma_trial_turn(turns, cfg, name, s, 4);
                }
            }
        }
    }
}

/// A trial succeeds if and only if there is a default authority, and both tokens, the certificate
/// and its deletion came.
pub proof fn law_when_a_trial_succeeds(
    cfg: MinicaConfigView,
    name: Seq<char>,
    s: TrialSurroundings,
)
    ensures
        trial_outcome(cfg, name, s).0 <==> {
            &&& exists|i: int|
                0 <= i < cfg.default_ca_id.len() && !white_space(#[trigger] cfg.default_ca_id[i])
            &&& s.create_token is Ok
            &&& s.created is Ok
            &&& s.delete_token is Ok
            &&& s.deleted is Ok
        },
        trial_outcome(cfg, name, s).0 ==> trial_outcome(cfg, name, s).1
            == "OK: issued and deleted "@ + name,
        blank(cfg.default_ca_id) ==> trial_outcome(cfg, name, s).1
            == "Not OK: Default CA ID is required for certificate test"@,
        !blank(cfg.default_ca_id) && s.create_token is Err ==> trial_outcome(cfg, name, s).1
            == "Not OK: can't test: "@ + s.create_token->Err_0@,
        !blank(cfg.default_ca_id) && s.create_token is Ok && s.created is Err ==> trial_outcome(
            cfg,
            name,
            s,
        ).1 == "Not OK: can't test: "@ + s.created->Err_0@,
        !blank(cfg.default_ca_id) && s.create_token is Ok && s.created is Ok
            && s.delete_token is Err ==> trial_outcome(cfg, name, s).1 == "Not OK: issued "@ + name
            + ", but could not delete it: "@ + s.delete_token->Err_0@,
        !blank(cfg.default_ca_id) && s.create_token is Ok && s.created is Ok
            && s.delete_token is Ok && s.deleted is Err ==> trial_outcome(cfg, name, s).1
            == "Not OK: issued "@ + name + ", but could not delete it: "@ + s.deleted->Err_0@,
{
}

/// A trial creates a certificate of its own name, with what the settings say of certificates,
/// under the default authority, and deletes the certificate that was created and no other.
pub proof fn law_what_a_trial_asks(
    state: TrialState,
    event: TrialEvent,
    turn: TrialTurn,
    base: Seq<char>,
)
    requires
        trial_follows(state, event, turn),
        base.len() > 0 ==> base[base.len() - 1] != '/',
    ensures
        state matches TrialState::FetchingCreateToken { cfg, name } ==> (turn.action matches TrialAction::CreateCert(
            request,
        ) ==> (request@.payload matches Some(payload) && payload.common_name == name@
            && payload.defaults == cfg@.cert_defaults) && (cfg.base_url@ == base ==> request@.url
            == base + ("/api/cas/"@ + cfg.default_ca_id@ + "/certs"@))),
        state matches TrialState::Creating { cfg, name } ==> (event matches TrialEvent::Created(
            Ok(cert),
        ) ==> turn.next == (TrialState::FetchingDeleteToken { cfg, name, cert_id: cert.id })),
        state matches TrialState::FetchingDeleteToken { cfg, name, cert_id } ==> (
        turn.action matches TrialAction::DeleteCert(request) ==> request@.payload is None && (
        cfg.base_url@ == base ==> request@.url == base + ("/api/cas/"@ + cfg.default_ca_id@
            + "/certs/"@ + cert_id@))),
        state matches TrialState::FetchingCreateToken { cfg, name } ==> event == TrialEvent::Csrf(
            event->Csrf_0,
        ) && (event->Csrf_0 is Ok ==> turn.action is CreateCert),
        state matches TrialState::FetchingDeleteToken { cfg, name, cert_id } ==> event
            == TrialEvent::Csrf(event->Csrf_0) && (event->Csrf_0 is Ok
            ==> turn.action is DeleteCert),
{
    let none = Seq::<char>::empty();
    law_without_trailing(base, none, '/');
    assert(base + none =~= base);
}

/// A trial begins by asking for a token if and only if there is a default authority; it is made
/// under the settings it was given.
pub proof fn law_how_a_trial_begins(cfg: MinicaConfigView, name: Seq<char>, turn: TrialTurn)
    requires
        begins(cfg, name, turn),
    ensures
        turn.action is GetCsrf <==> !blank(cfg.default_ca_id),
        turn.action is Finish <==> blank(cfg.default_ca_id),
        turn.action matches TrialAction::Finish(outcome) ==> !outcome.ok,
        turn.action is GetCsrf ==> (turn.next matches TrialState::FetchingCreateToken {
            cfg: c,
            name: n,
        } && c@ == cfg && n@ == name),
{
}

/// The name of a certificate made for a trial is `test-` and five digits in base sixteen.
pub proof fn law_trial_names(name: Seq<char>)
    requires
        trial_name(name),
    ensures
        name.len() == 10,
        name.take(5) == seq!['t', 'e', 's', 't', '-'],
        forall|i: int| 5 <= i < 10 ==> hex_digit(#[trigger] name[i]),
{
    reveal_strlit("test-");
    assert("test-"@ =~= seq!['t', 'e', 's', 't', '-']);
    let random = choose|random: Seq<char>|
        #[trigger] random.len() == 5 && (forall|i: int|
            0 <= i < 5 ==> hex_digit(#[trigger] random[i])) && name == "test-"@ + random;
    assert(name.take(5) =~= "test-"@);
    assert forall|i: int| 5 <= i < 10 implies hex_digit(#[trigger] name[i]) by {
        assert(name[i] == random[i - 5]);
    }
}

} // verus!
