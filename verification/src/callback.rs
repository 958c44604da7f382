//! Interactive callback actions: the wire encoding of button payloads, the
//! ingress decoder, and the classification of backend replies into one
//! fixed user-facing outcome per class.

use vstd::prelude::*;
use crate::strutil::{spec_idec, spec_udec, i64_to_string, parse_i64, str_eq, has_substring, contains_substr};

verus! {

/// Wire format of a four-part button payload: `{verb}:{teamId}:{correlationId}`.
pub open spec fn spec_callback_data(verb: Seq<char>, team_id: int, correlation_id: int) -> Seq<
    char,
> {
    verb + seq![':'] + spec_idec(team_id) + seq![':'] + spec_idec(correlation_id)
}

/// Builds a four-part button payload.
pub fn encode_callback_data(verb: &str, team_id: i64, correlation_id: i64) -> (s: String)
    ensures
        s@ == spec_callback_data(verb@, team_id as int, correlation_id as int),
{
    proof {
        reveal_strlit(":");
    }
    let mut s = String::from_str(verb);
    s.append(":");
    let t = i64_to_string(team_id);
    s.append(t.as_str());
    s.append(":");
    let c = i64_to_string(correlation_id);
    s.append(c.as_str());
    proof {
        assert(s@ =~= spec_callback_data(verb@, team_id as int, correlation_id as int));
    }
    s
}

/// A decoded button payload: one of the closed verb set, or the explicit
/// unrecognized outcome.  Unknown payloads are acknowledged as
/// unrecognized, never silently dropped.
#[derive(Clone, Copy, Debug, PartialEq, Eq, Structural)]
pub enum CallbackAction {
    JoinResponse { accept: bool, team_id: i64, request_id: i64 },
    InviteResponse { accept: bool, team_id: i64, invite_id: i64 },
    GetToken,
    NotificationsMenu,
    NotificationsOn,
    NotificationsOff,
    ShowInfo,
    BackToMain,
    Unrecognized,
}

/// `s` is the wire form of some action of the closed verb set.
pub open spec fn spec_known_wire(s: Seq<char>) -> bool {
    ||| (exists|t: i64, r: i64| s == spec_callback_data("join_accept"@, t as int, r as int))
    ||| (exists|t: i64, r: i64| s == spec_callback_data("join_reject"@, t as int, r as int))
    ||| (exists|t: i64, r: i64| s == spec_callback_data("invite_accept"@, t as int, r as int))
    ||| (exists|t: i64, r: i64| s == spec_callback_data("invite_reject"@, t as int, r as int))
    ||| s == "get_token"@
    ||| s == "notifications_menu"@
    ||| s == "notifications_on"@
    ||| s == "notifications_off"@
    ||| s == "show_info"@
    ||| s == "back_to_main"@
}

/// The decoder's contract: a structured action stands for exactly its
/// wire form, and the unrecognized outcome stands for a wire that encodes
/// no action of the closed set.
pub open spec fn spec_decoded(s: Seq<char>, a: CallbackAction) -> bool {
    match a {
        CallbackAction::JoinResponse { accept, team_id, request_id } => s == spec_callback_data(
            if accept {
                "join_accept"@
            } else {
                "join_reject"@
            },
            team_id as int,
            request_id as int,
        ),
        CallbackAction::InviteResponse { accept, team_id, invite_id } => s == spec_callback_data(
            if accept {
                "invite_accept"@
            } else {
                "invite_reject"@
            },
            team_id as int,
            invite_id as int,
        ),
        CallbackAction::GetToken => s == "get_token"@,
        CallbackAction::NotificationsMenu => s == "notifications_menu"@,
        CallbackAction::NotificationsOn => s == "notifications_on"@,
        CallbackAction::NotificationsOff => s == "notifications_off"@,
        CallbackAction::ShowInfo => s == "show_info"@,
        CallbackAction::BackToMain => s == "back_to_main"@,
        CallbackAction::Unrecognized => !spec_known_wire(s),
    }
}

/// A canonical decimal rendering holds no separator character.
proof fn lemma_idec_colon_free(v: int)
    ensures
        forall|i: int| 0 <= i < spec_idec(v).len() ==> spec_idec(v)[i] != ':',
{
    if v < 0 {
        crate::strutil::lemma_udec_wf((-v) as nat);
        let mag = spec_udec((-v) as nat);
        assert forall|i: int| 0 <= i < spec_idec(v).len() implies spec_idec(v)[i] != ':' by {
            if i == 0 {
                assert(spec_idec(v)[0] == '-');
            } else {
                assert(spec_idec(v)[i] == mag[i - 1]);
                assert(crate::strutil::is_dec_digit(mag[i - 1]));
            }
        }
    } else {
        crate::strutil::lemma_udec_wf(v as nat);
        assert forall|i: int| 0 <= i < spec_idec(v).len() implies spec_idec(v)[i] != ':' by {
            assert(crate::strutil::is_dec_digit(spec_idec(v)[i]));
        }
    }
}

/// `pos` lists every separator position of `s`, in increasing order.
pub open spec fn spec_colon_positions(s: Seq<char>, pos: Seq<usize>) -> bool {
    &&& forall|k: int| 0 <= k < pos.len() ==> (#[trigger] pos[k]) < s.len() && s[pos[k] as int]
        == ':'
    &&& forall|j: int|
        0 <= j < s.len() && (#[trigger] s[j]) == ':' ==> exists|k: int|
            0 <= k < pos.len() && (#[trigger] pos[k]) as int == j
    &&& forall|k1: int, k2: int| 0 <= k1 < k2 < pos.len() ==> pos[k1] < pos[k2]
}

/// A wire of the four-part form splits at its two rightmost separators
/// into exactly the verb, the first id, and the second id.
proof fn lemma_wire_split(s: Seq<char>, pos: Seq<usize>, verb: Seq<char>, t: int, r: int)
    requires
        s == spec_callback_data(verb, t, r),
        spec_colon_positions(s, pos),
        pos.len() >= 2,
    ensures
        pos[pos.len() - 1] as int == verb.len() + 1 + spec_idec(t).len(),
        pos[pos.len() - 2] as int == verb.len(),
{
    lemma_idec_colon_free(t);
    lemma_idec_colon_free(r);
    let n1 = verb.len() as int;
    let n2: int = verb.len() as int + 1 + spec_idec(t).len() as int;
    assert(s[n1] == ':');
    assert(s[n2] == ':');
    assert(s.len() == n2 + 1 + spec_idec(r).len());
    assert forall|j: int| n2 < j < s.len() implies s[j] != ':' by {
        assert(s[j] == spec_idec(r)[j - n2 - 1]);
    }
    assert forall|j: int| n1 < j < n2 implies s[j] != ':' by {
        assert(s[j] == spec_idec(t)[j - n1 - 1]);
    }
    let last = pos.len() - 1;
    assert(exists|k: int| 0 <= k < pos.len() && (#[trigger] pos[k]) as int == n2);
    let k2 = choose|k: int| 0 <= k < pos.len() && (#[trigger] pos[k]) as int == n2;
    assert(k2 <= last);
    if k2 < last {
        assert(pos[k2] < pos[last]);
        assert(s[pos[last] as int] == ':');
        assert(n2 < pos[last] as int && (pos[last] as int) < s.len());
        assert(false);
    }
    assert(pos[last] as int == n2);
    assert(exists|k: int| 0 <= k < pos.len() && (#[trigger] pos[k]) as int == n1);
    let k1 = choose|k: int| 0 <= k < pos.len() && (#[trigger] pos[k]) as int == n1;
    assert(k1 < last);
    if k1 < last - 1 {
        assert(pos[k1] < pos[last - 1]);
    }
    assert(pos[last - 1] as int >= n1);
    assert(pos[last - 1] < pos[last]);
    assert(s[pos[last - 1] as int] == ':');
    if pos[last - 1] as int > n1 {
        assert(n1 < pos[last - 1] as int && (pos[last - 1] as int) < n2);
        assert(false);
    }
}

/// Decodes a button payload.  The four-part verbs are split at the two
/// rightmost separators; the ids must be in canonical decimal form.
/// Anything that is not the wire form of a known action decodes to the
/// unrecognized outcome.
#[verifier::rlimit(100)]
pub fn parse_callback_data(s: &str) -> (a: CallbackAction)
    ensures
        spec_decoded(s@, a),
{
    if str_eq(s, "get_token") {
        return CallbackAction::GetToken;
    }
    if str_eq(s, "notifications_menu") {
        return CallbackAction::NotificationsMenu;
    }
    if str_eq(s, "notifications_on") {
        return CallbackAction::NotificationsOn;
    }
    if str_eq(s, "notifications_off") {
        return CallbackAction::NotificationsOff;
    }
    if str_eq(s, "show_info") {
        return CallbackAction::ShowInfo;
    }
    if str_eq(s, "back_to_main") {
        return CallbackAction::BackToMain;
    }
    let len = s.unicode_len();
    let mut pos: Vec<usize> = Vec::new();
    let mut i: usize = 0;
    while i < len
        invariant
            len == s@.len(),
            i <= len,
            forall|k: int|
                0 <= k < pos@.len() ==> (#[trigger] pos@[k]) < i && s@[pos@[k] as int] == ':',
            forall|j: int|
                0 <= j < i && (#[trigger] s@[j]) == ':' ==> exists|k: int|
                    0 <= k < pos@.len() && (#[trigger] pos@[k]) as int == j,
            forall|k1: int, k2: int| 0 <= k1 < k2 < pos@.len() ==> pos@[k1] < pos@[k2],
        decreases len - i,
    {
        if s.get_char(i) == ':' {
            let ghost oldpos = pos@;
            pos.push(i);
            proof {
                assert forall|j: int|
                    0 <= j <= i && (#[trigger] s@[j]) == ':' implies exists|k: int|
                        0 <= k < pos@.len() && (#[trigger] pos@[k]) as int == j by {
                    if j < i {
                        assert(exists|k: int|
                            0 <= k < oldpos.len() && (#[trigger] oldpos[k]) as int == j);
                        let k = choose|k: int|
                            0 <= k < oldpos.len() && (#[trigger] oldpos[k]) as int == j;
                        assert(pos@[k] as int == j);
                    } else {
                        assert(pos@[pos@.len() - 1] as int == j);
                    }
                }
            }
        }
        i += 1;
    }
    proof {
        assert(spec_colon_positions(s@, pos@));
    }
    if pos.len() < 2 {
        proof {
            assert forall|t: i64, r: i64|
                s@ != spec_callback_data("join_accept"@, t as int, r as int) && s@
                    != spec_callback_data("join_reject"@, t as int, r as int) && s@
                    != spec_callback_data("invite_accept"@, t as int, r as int) && s@
                    != spec_callback_data("invite_reject"@, t as int, r as int) by {
                lemma_two_colons(s@, pos@, "join_accept"@, t as int, r as int);
                lemma_two_colons(s@, pos@, "join_reject"@, t as int, r as int);
                lemma_two_colons(s@, pos@, "invite_accept"@, t as int, r as int);
                lemma_two_colons(s@, pos@, "invite_reject"@, t as int, r as int);
            }
        }
        return CallbackAction::Unrecognized;
    }
    let p1 = pos[pos.len() - 2];
    let p2 = pos[pos.len() - 1];
    let verb = s.substring_char(0, p1);
    let part_a = s.substring_char(p1 + 1, p2);
    let part_b = s.substring_char(p2 + 1, len);
    let id_a = parse_i64(part_a);
    let id_b = parse_i64(part_b);
    let is_join_accept = str_eq(verb, "join_accept");
    let is_join_reject = str_eq(verb, "join_reject");
    let is_invite_accept = str_eq(verb, "invite_accept");
    let is_invite_reject = str_eq(verb, "invite_reject");
    match (id_a, id_b) {
        (Option::Some(team_id), Option::Some(correlation_id)) => {
            if is_join_accept {
                proof {
                    assert(s@ =~= spec_callback_data(
                        "join_accept"@,
                        team_id as int,
                        correlation_id as int,
                    ));
                }
                CallbackAction::JoinResponse { accept: true, team_id, request_id: correlation_id }
            } else if is_join_reject {
                proof {
                    assert(s@ =~= spec_callback_data(
                        "join_reject"@,
                        team_id as int,
                        correlation_id as int,
                    ));
                }
                CallbackAction::JoinResponse { accept: false, team_id, request_id: correlation_id }
            } else if is_invite_accept {
                proof {
                    assert(s@ =~= spec_callback_data(
                        "invite_accept"@,
                        team_id as int,
                        correlation_id as int,
                    ));
                }
                CallbackAction::InviteResponse { accept: true, team_id, invite_id: correlation_id }
            } else if is_invite_reject {
                proof {
                    assert(s@ =~= spec_callback_data(
                        "invite_reject"@,
                        team_id as int,
                        correlation_id as int,
                    ));
                }
                CallbackAction::InviteResponse { accept: false, team_id, invite_id: correlation_id }
            } else {
                proof {
                    assert forall|t: i64, r: i64|
                        s@ != spec_callback_data("join_accept"@, t as int, r as int) && s@
                            != spec_callback_data("join_reject"@, t as int, r as int) && s@
                            != spec_callback_data("invite_accept"@, t as int, r as int) && s@
                            != spec_callback_data("invite_reject"@, t as int, r as int) by {
                        if s@ == spec_callback_data("join_accept"@, t as int, r as int) {
                            lemma_wire_split(s@, pos@, "join_accept"@, t as int, r as int);
                            assert(verb@ =~= "join_accept"@);
                            assert(false);
                        }
                        if s@ == spec_callback_data("join_reject"@, t as int, r as int) {
                            lemma_wire_split(s@, pos@, "join_reject"@, t as int, r as int);
                            assert(verb@ =~= "join_reject"@);
                            assert(false);
                        }
                        if s@ == spec_callback_data("invite_accept"@, t as int, r as int) {
                            lemma_wire_split(s@, pos@, "invite_accept"@, t as int, r as int);
                            assert(verb@ =~= "invite_accept"@);
                            assert(false);
                        }
                        if s@ == spec_callback_data("invite_reject"@, t as int, r as int) {
                            lemma_wire_split(s@, pos@, "invite_reject"@, t as int, r as int);
                            assert(verb@ =~= "invite_reject"@);
                            assert(false);
                        }
                    }
                }
                CallbackAction::Unrecognized
            }
        },
        _ => {
            proof {
                assert forall|t: i64, r: i64|
                    s@ != spec_callback_data("join_accept"@, t as int, r as int) && s@
                        != spec_callback_data("join_reject"@, t as int, r as int) && s@
                        != spec_callback_data("invite_accept"@, t as int, r as int) && s@
                        != spec_callback_data("invite_reject"@, t as int, r as int) by {
                    if s@ == spec_callback_data("join_accept"@, t as int, r as int) {
                        lemma_wire_split(s@, pos@, "join_accept"@, t as int, r as int);
                        assert(part_a@ =~= spec_idec(t as int));
                        assert(part_b@ =~= spec_idec(r as int));
                        assert(false);
                    }
                    if s@ == spec_callback_data("join_reject"@, t as int, r as int) {
                        lemma_wire_split(s@, pos@, "join_reject"@, t as int, r as int);
                        assert(part_a@ =~= spec_idec(t as int));
                        assert(part_b@ =~= spec_idec(r as int));
                        assert(false);
                    }
                    if s@ == spec_callback_data("invite_accept"@, t as int, r as int) {
                        lemma_wire_split(s@, pos@, "invite_accept"@, t as int, r as int);
                        assert(part_a@ =~= spec_idec(t as int));
                        assert(part_b@ =~= spec_idec(r as int));
                        assert(false);
                    }
                    if s@ == spec_callback_data("invite_reject"@, t as int, r as int) {
                        lemma_wire_split(s@, pos@, "invite_reject"@, t as int, r as int);
                        assert(part_a@ =~= spec_idec(t as int));
                        assert(part_b@ =~= spec_idec(r as int));
                        assert(false);
                    }
                }
            }
            CallbackAction::Unrecognized
        },
    }
}

/// A wire of the four-part form has at least two separators, so a wire
/// with fewer encodes no four-part action.
proof fn lemma_two_colons(s: Seq<char>, pos: Seq<usize>, verb: Seq<char>, t: int, r: int)
    requires
        spec_colon_positions(s, pos),
        pos.len() < 2,
    ensures
        s != spec_callback_data(verb, t, r),
{
    if s == spec_callback_data(verb, t, r) {
        let n1 = verb.len() as int;
        let n2: int = verb.len() as int + 1 + spec_idec(t).len() as int;
        assert(s[n1] == ':');
        assert(s[n2] == ':');
        let k1 = choose|k: int| 0 <= k < pos.len() && pos[k] as int == n1;
        let k2 = choose|k: int| 0 <= k < pos.len() && pos[k] as int == n2;
        assert(pos[k1] as int == n1);
        assert(pos[k2] as int == n2);
        assert(k1 != k2);
        assert(false);
    }
}

/// Every interactive button the dispatcher renders is understood by the
/// decoder: the four-part wire form of a join or invite response decodes
/// to exactly that response, accept and reject alike.
pub proof fn lemma_buttons_decode(accept: bool, team_id: i64, correlation_id: i64)
    ensures
        spec_decoded(
            spec_callback_data(
                if accept {
                    "join_accept"@
                } else {
                    "join_reject"@
                },
                team_id as int,
                correlation_id as int,
            ),
            CallbackAction::JoinResponse { accept, team_id, request_id: correlation_id },
        ),
        spec_decoded(
            spec_callback_data(
                if accept {
                    "invite_accept"@
                } else {
                    "invite_reject"@
                },
                team_id as int,
                correlation_id as int,
            ),
            CallbackAction::InviteResponse { accept, team_id, invite_id: correlation_id },
        ),
{
}

/// What the backend answered to a mutation request, as the resolver sees
/// it: a success status, a rejection with the response body, or no answer
/// at all.
pub enum BackendReply {
    Success,
    Rejected { body: String },
    Unreachable,
}

/// The fixed classes a backend answer resolves to.
#[derive(Clone, Copy, Debug, PartialEq, Eq, Structural)]
pub enum OutcomeClass {
    Done,
    AlreadyProcessed,
    CapacityRejected,
    NotYourInvite,
    UnknownError,
    ConnectivityError,
}

/// Classification of a backend answer to a join-request mutation.
pub open spec fn spec_classify_join(r: BackendReply) -> OutcomeClass {
    match r {
        BackendReply::Success => OutcomeClass::Done,
        BackendReply::Unreachable => OutcomeClass::ConnectivityError,
        BackendReply::Rejected { body } => {
            if has_substring(body@, "already processed"@) || has_substring(body@, "not found"@) {
                OutcomeClass::AlreadyProcessed
            } else if has_substring(body@, "team is full"@) {
                OutcomeClass::CapacityRejected
            } else {
                OutcomeClass::UnknownError
            }
        },
    }
}

/// Classification of a backend answer to an invite mutation.
pub open spec fn spec_classify_invite(r: BackendReply) -> OutcomeClass {
    match r {
        BackendReply::Success => OutcomeClass::Done,
        BackendReply::Unreachable => OutcomeClass::ConnectivityError,
        BackendReply::Rejected { body } => {
            if has_substring(body@, "already processed"@) || has_substring(body@, "not found"@) {
                OutcomeClass::AlreadyProcessed
            } else if has_substring(body@, "not your invite"@) {
                OutcomeClass::NotYourInvite
            } else {
                OutcomeClass::UnknownError
            }
        },
    }
}

/// Classifies a backend answer to a join-request mutation by the
/// interpretable substrings of its body.
pub fn classify_join_reply(r: &BackendReply) -> (c: OutcomeClass)
    ensures
        c == spec_classify_join(*r),
{
    match r {
        BackendReply::Success => OutcomeClass::Done,
        BackendReply::Unreachable => OutcomeClass::ConnectivityError,
        BackendReply::Rejected { body } => {
            if contains_substr(body.as_str(), "already processed") || contains_substr(
                body.as_str(),
                "not found",
            ) {
                OutcomeClass::AlreadyProcessed
            } else if contains_substr(body.as_str(), "team is full") {
                OutcomeClass::CapacityRejected
            } else {
                OutcomeClass::UnknownError
            }
        },
    }
}

/// Classifies a backend answer to an invite mutation by the interpretable
/// substrings of its body.
pub fn classify_invite_reply(r: &BackendReply) -> (c: OutcomeClass)
    ensures
        c == spec_classify_invite(*r),
{
    match r {
        BackendReply::Success => OutcomeClass::Done,
        BackendReply::Unreachable => OutcomeClass::ConnectivityError,
        BackendReply::Rejected { body } => {
            if contains_substr(body.as_str(), "already processed") || contains_substr(
                body.as_str(),
                "not found",
            ) {
                OutcomeClass::AlreadyProcessed
            } else if contains_substr(body.as_str(), "not your invite") {
                OutcomeClass::NotYourInvite
            } else {
                OutcomeClass::UnknownError
            }
        },
    }
}

/// The one fixed user-facing message per class, join-request wording.
pub open spec fn spec_join_outcome_message(accept: bool, c: OutcomeClass) -> Seq<char> {
    match c {
        OutcomeClass::Done => {
            if accept {
                "✅ Заявка успешно принята! Пользователь добавлен в команду."@
            } else {
                "❌ Заявка отклонена."@
            }
        },
        OutcomeClass::AlreadyProcessed => "⚠️ Эта заявка уже была обработана ранее."@,
        OutcomeClass::CapacityRejected => "⚠️ Команда уже заполнена. Нельзя принять нового участника."@,
        OutcomeClass::ConnectivityError => "❌ Не удалось связаться с сервером. Попробуйте позже."@,
        _ => "❌ Ошибка при обработке заявки. Попробуйте позже."@,
    }
}

/// The one fixed user-facing message per class, invite wording.
pub open spec fn spec_invite_outcome_message(accept: bool, c: OutcomeClass) -> Seq<char> {
    match c {
        OutcomeClass::Done => {
            if accept {
                "✅ Приглашение принято! Вы добавлены в команду."@
            } else {
                "❌ Приглашение отклонено."@
            }
        },
        OutcomeClass::AlreadyProcessed => "⚠️ Это приглашение уже было обработано ранее."@,
        OutcomeClass::NotYourInvite => "⚠️ Это приглашение адресовано другому пользователю."@,
        OutcomeClass::ConnectivityError => "❌ Не удалось связаться с сервером. Попробуйте позже."@,
        _ => "❌ Ошибка при обработке приглашения. Попробуйте позже."@,
    }
}

/// The join-request outcome message for one class.
pub fn join_outcome_message(accept: bool, c: OutcomeClass) -> (m: &'static str)
    ensures
        m@ == spec_join_outcome_message(accept, c),
{
    match c {
        OutcomeClass::Done => {
            if accept {
                "✅ Заявка успешно принята! Пользователь добавлен в команду."
            } else {
                "❌ Заявка отклонена."
            }
        },
        OutcomeClass::AlreadyProcessed => "⚠️ Эта заявка уже была обработана ранее.",
        OutcomeClass::CapacityRejected => "⚠️ Команда уже заполнена. Нельзя принять нового участника.",
        OutcomeClass::ConnectivityError => "❌ Не удалось связаться с сервером. Попробуйте позже.",
        _ => "❌ Ошибка при обработке заявки. Попробуйте позже.",
    }
}

/// The invite outcome message for one class.
pub fn invite_outcome_message(accept: bool, c: OutcomeClass) -> (m: &'static str)
    ensures
        m@ == spec_invite_outcome_message(accept, c),
{
    match c {
        OutcomeClass::Done => {
            if accept {
                "✅ Приглашение принято! Вы добавлены в команду."
            } else {
                "❌ Приглашение отклонено."
            }
        },
        OutcomeClass::AlreadyProcessed => "⚠️ Это приглашение уже было обработано ранее.",
        OutcomeClass::NotYourInvite => "⚠️ Это приглашение адресовано другому пользователю.",
        OutcomeClass::ConnectivityError => "❌ Не удалось связаться с сервером. Попробуйте позже.",
        _ => "❌ Ошибка при обработке приглашения. Попробуйте позже.",
    }
}

/// The edit that renders an outcome back into the originating message:
/// the outcome is appended below the original text, which also removes
/// the action buttons.
pub open spec fn spec_outcome_render(original: Seq<char>, outcome: Seq<char>) -> Seq<char> {
    original + "\n\n"@ + outcome
}

/// Appends an outcome message to the originating message's text.
pub fn render_outcome(original: &str, outcome: &str) -> (t: String)
    ensures
        t@ == spec_outcome_render(original@, outcome@),
{
    let mut t = String::from_str(original);
    t.append("\n\n");
    t.append(outcome);
    t
}

/// The edited text a join-request interaction ends in, for a given
/// backend answer.
pub fn resolve_join(accept: bool, reply: &BackendReply, original: &str) -> (t: String)
    ensures
        t@ == spec_outcome_render(
            original@,
            spec_join_outcome_message(accept, spec_classify_join(*reply)),
        ),
{
    let c = classify_join_reply(reply);
    render_outcome(original, join_outcome_message(accept, c))
}

/// The edited text an invite interaction ends in, for a given backend
/// answer.
pub fn resolve_invite(accept: bool, reply: &BackendReply, original: &str) -> (t: String)
    ensures
        t@ == spec_outcome_render(
            original@,
            spec_invite_outcome_message(accept, spec_classify_invite(*reply)),
        ),
{
    let c = classify_invite_reply(reply);
    render_outcome(original, invite_outcome_message(accept, c))
}

/// The toast shown while a join or invite response is being processed.
pub fn processing_ack_text(accept: bool) -> (t: String)
    ensures
        accept ==> t@ == "Обработка принятия..."@,
        !accept ==> t@ == "Обработка отклонения..."@,
{
    if accept {
        String::from_str("Обработка принятия...")
    } else {
        String::from_str("Обработка отклонения...")
    }
}

/// The toast answered to a button press whose payload is not recognized.
pub fn unrecognized_ack_text() -> (t: String)
    ensures
        t@ == "Неизвестное действие"@,
{
    String::from_str("Неизвестное действие")
}

/// Callback idempotency: a repeated button press whose backend answer
/// again reads as already-processed renders the same benign outcome as
/// the first repeat — never an error.  The rendered edit is a function of
/// the class alone, so any two answers of the already-processed class
/// produce identical text, for the join and the invite flow alike.
pub proof fn lemma_callback_idempotency(
    accept: bool,
    original: Seq<char>,
    r1: BackendReply,
    r2: BackendReply,
)
    requires
        spec_classify_join(r1) == OutcomeClass::AlreadyProcessed,
        spec_classify_join(r2) == OutcomeClass::AlreadyProcessed,
    ensures
        spec_outcome_render(original, spec_join_outcome_message(accept, spec_classify_join(r1)))
            == spec_outcome_render(
            original,
            spec_join_outcome_message(accept, spec_classify_join(r2)),
        ),
{
}

/// Callback idempotency for the invite flow.
pub proof fn lemma_invite_idempotency(
    accept: bool,
    original: Seq<char>,
    r1: BackendReply,
    r2: BackendReply,
)
    requires
        spec_classify_invite(r1) == OutcomeClass::AlreadyProcessed,
        spec_classify_invite(r2) == OutcomeClass::AlreadyProcessed,
    ensures
        spec_outcome_render(original, spec_invite_outcome_message(accept, spec_classify_invite(r1)))
            == spec_outcome_render(
            original,
            spec_invite_outcome_message(accept, spec_classify_invite(r2)),
        ),
{
}

} // verus!
