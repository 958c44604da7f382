//! The notification dispatcher: maps a parsed notification to a transport
//! action, enforces per-user delivery gating, and plans broadcasts over the
//! authorized-user roster.

use vstd::prelude::*;
use crate::callback::{spec_callback_data, encode_callback_data};
use crate::notification::{AuthorizedUser, Notification, NotificationType, opt_str_view};

verus! {

/// The transport action one notification maps to.
///
/// An interactive plan carries both a rich rendering and an unformatted
/// fallback of the same content: if the transport rejects the rich form,
/// the sender retries once with the plain form.  A notification of an
/// interactive kind that names no target user is discarded outright —
/// never broadcast — so that a targeted action cannot leak to all users.
pub enum MessagePlan {
    Interactive {
        target: i64,
        markdown: bool,
        text: String,
        plain_text: String,
        accept_action: String,
        reject_action: String,
    },
    Direct { target: i64, text: String },
    Broadcast { text: String },
    Discarded,
}

/// An optional display field, or its fixed fallback.
pub open spec fn spec_or_default(v: Option<Seq<char>>, d: Seq<char>) -> Seq<char> {
    match v {
        Option::Some(s) => s,
        Option::None => d,
    }
}

/// An optional correlation id, or zero.
pub open spec fn spec_id_or_zero(v: Option<i64>) -> int {
    match v {
        Option::Some(x) => x as int,
        Option::None => 0,
    }
}

/// The first present of two optional correlation ids, or zero.
pub open spec fn spec_first_id(a: Option<i64>, b: Option<i64>) -> int {
    match a {
        Option::Some(x) => x as int,
        Option::None => spec_id_or_zero(b),
    }
}

/// The display name used for the requesting user.
pub open spec fn spec_join_user(n: Notification) -> Seq<char> {
    spec_or_default(opt_str_view(n.user_name), "Пользователь"@)
}

/// The display name used for the team.
pub open spec fn spec_team(n: Notification) -> Seq<char> {
    spec_or_default(opt_str_view(n.team_name), "команду"@)
}

/// The display name used for the inviting user: the inviter if named,
/// else the user field, else the fixed fallback.
pub open spec fn spec_inviter(n: Notification) -> Seq<char> {
    match n.inviter_name {
        Option::Some(s) => s@,
        Option::None => spec_or_default(opt_str_view(n.user_name), "Капитан"@),
    }
}

/// Rich text of a join-request notification.
pub open spec fn spec_join_request_text(user: Seq<char>, team: Seq<char>) -> Seq<char> {
    "🔔 *Запрос на вступление в команду*\n\nПользователь *"@ + user
        + "* хочет вступить в команду *"@ + team
        + "*.\n\nНажмите кнопку ниже, чтобы принять или отклонить заявку."@
}

/// Unformatted fallback text of a join-request notification.
pub open spec fn spec_join_request_plain_text(user: Seq<char>, team: Seq<char>) -> Seq<char> {
    "🔔 Запрос на вступление в команду\n\nПользователь "@ + user
        + " хочет вступить в команду "@ + team
        + ".\n\nНажмите кнопку ниже, чтобы принять или отклонить заявку."@
}

/// Text of a team-invite notification.
pub open spec fn spec_team_invite_text(inviter: Seq<char>, team: Seq<char>) -> Seq<char> {
    "📨 Приглашение в команду\n\n"@ + inviter + " приглашает вас в команду \""@ + team
        + "\".\n\nНажмите кнопку ниже, чтобы принять или отклонить приглашение."@
}

/// What `route_notification` owes for every notification: the dispatch
/// table of the system, keyed on the notification kind.
pub open spec fn spec_route(n: Notification, p: MessagePlan) -> bool {
    match n.spec_kind() {
        NotificationType::JoinRequest => match n.target_user_id {
            Option::Some(uid) => {
                &&& p matches MessagePlan::Interactive {
                    target,
                    markdown,
                    text,
                    plain_text,
                    accept_action,
                    reject_action,
                }
                &&& target == uid
                &&& markdown == true
                &&& text@ == spec_join_request_text(spec_join_user(n), spec_team(n))
                &&& plain_text@ == spec_join_request_plain_text(spec_join_user(n), spec_team(n))
                &&& accept_action@ == spec_callback_data(
                    "join_accept"@,
                    spec_id_or_zero(n.team_id),
                    spec_id_or_zero(n.request_id),
                )
                &&& reject_action@ == spec_callback_data(
                    "join_reject"@,
                    spec_id_or_zero(n.team_id),
                    spec_id_or_zero(n.request_id),
                )
            },
            Option::None => p is Discarded,
        },
        NotificationType::TeamInvite => match n.target_user_id {
            Option::Some(uid) => {
                &&& p matches MessagePlan::Interactive {
                    target,
                    markdown,
                    text,
                    plain_text,
                    accept_action,
                    reject_action,
                }
                &&& target == uid
                &&& markdown == false
                &&& text@ == spec_team_invite_text(spec_inviter(n), spec_team(n))
                &&& plain_text@ == spec_team_invite_text(spec_inviter(n), spec_team(n))
                &&& accept_action@ == spec_callback_data(
                    "invite_accept"@,
                    spec_id_or_zero(n.team_id),
                    spec_first_id(n.invite_id, n.request_id),
                )
                &&& reject_action@ == spec_callback_data(
                    "invite_reject"@,
                    spec_id_or_zero(n.team_id),
                    spec_first_id(n.invite_id, n.request_id),
                )
            },
            Option::None => p is Discarded,
        },
        NotificationType::TeamAccepted
        | NotificationType::TeamRejected
        | NotificationType::InviteAccepted
        | NotificationType::InviteRejected => match n.target_user_id {
            Option::Some(uid) => {
                &&& p matches MessagePlan::Direct { target, text }
                &&& target == uid
                &&& text@ == n.message@
            },
            Option::None => p is Discarded,
        },
        NotificationType::General => {
            &&& p matches MessagePlan::Broadcast { text }
            &&& text@ == n.message@
        },
    }
}

/// An optional display field, or its fixed fallback, as an owned string.
fn or_default(v: &Option<String>, d: &str) -> (r: String)
    ensures
        r@ == spec_or_default(opt_str_view(*v), d@),
{
    match v {
        Option::Some(s) => s.clone(),
        Option::None => String::from_str(d),
    }
}

/// An optional correlation id, or zero.
fn id_or_zero(v: &Option<i64>) -> (r: i64)
    ensures
        r as int == spec_id_or_zero(*v),
{
    match v {
        Option::Some(x) => *x,
        Option::None => 0,
    }
}

/// Rich text of a join-request notification.
fn join_request_text(user: &str, team: &str) -> (t: String)
    ensures
        t@ == spec_join_request_text(user@, team@),
{
    let mut t = String::from_str("🔔 *Запрос на вступление в команду*\n\nПользователь *");
    t.append(user);
    t.append("* хочет вступить в команду *");
    t.append(team);
    t.append("*.\n\nНажмите кнопку ниже, чтобы принять или отклонить заявку.");
    t
}

/// Unformatted fallback text of a join-request notification.
fn join_request_plain_text(user: &str, team: &str) -> (t: String)
    ensures
        t@ == spec_join_request_plain_text(user@, team@),
{
    let mut t = String::from_str("🔔 Запрос на вступление в команду\n\nПользователь ");
    t.append(user);
    t.append(" хочет вступить в команду ");
    t.append(team);
    t.append(".\n\nНажмите кнопку ниже, чтобы принять или отклонить заявку.");
    t
}

/// Text of a team-invite notification.
fn team_invite_text(inviter: &str, team: &str) -> (t: String)
    ensures
        t@ == spec_team_invite_text(inviter@, team@),
{
    let mut t = String::from_str("📨 Приглашение в команду\n\n");
    t.append(inviter);
    t.append(" приглашает вас в команду \"");
    t.append(team);
    t.append("\".\n\nНажмите кнопку ниже, чтобы принять или отклонить приглашение.");
    t
}

/// Maps a parsed notification to its transport action, per the dispatch
/// table: interactive kinds go to their single target with accept/reject
/// actions, result kinds go to their single target as plain text, and
/// everything else is broadcast.  An interactive or result kind without a
/// target is discarded.
pub fn route_notification(n: &Notification) -> (p: MessagePlan)
    ensures
        spec_route(*n, p),
{
    match n.kind() {
        NotificationType::JoinRequest => match &n.target_user_id {
            Option::Some(uid) => {
                let user = or_default(&n.user_name, "Пользователь");
                let team = or_default(&n.team_name, "команду");
                let team_id = id_or_zero(&n.team_id);
                let request_id = id_or_zero(&n.request_id);
                MessagePlan::Interactive {
                    target: *uid,
                    markdown: true,
                    text: join_request_text(user.as_str(), team.as_str()),
                    plain_text: join_request_plain_text(user.as_str(), team.as_str()),
                    accept_action: encode_callback_data("join_accept", team_id, request_id),
                    reject_action: encode_callback_data("join_reject", team_id, request_id),
                }
            },
            Option::None => MessagePlan::Discarded,
        },
        NotificationType::TeamInvite => match &n.target_user_id {
            Option::Some(uid) => {
                let inviter = match &n.inviter_name {
                    Option::Some(s) => s.clone(),
                    Option::None => or_default(&n.user_name, "Капитан"),
                };
                let team = or_default(&n.team_name, "команду");
                let team_id = id_or_zero(&n.team_id);
                let correlation_id = match &n.invite_id {
                    Option::Some(x) => *x,
                    Option::None => id_or_zero(&n.request_id),
                };
                MessagePlan::Interactive {
                    target: *uid,
                    markdown: false,
                    text: team_invite_text(inviter.as_str(), team.as_str()),
                    plain_text: team_invite_text(inviter.as_str(), team.as_str()),
                    accept_action: encode_callback_data("invite_accept", team_id, correlation_id),
                    reject_action: encode_callback_data("invite_reject", team_id, correlation_id),
                }
            },
            Option::None => MessagePlan::Discarded,
        },
        NotificationType::TeamAccepted
        | NotificationType::TeamRejected
        | NotificationType::InviteAccepted
        | NotificationType::InviteRejected => match &n.target_user_id {
            Option::Some(uid) => MessagePlan::Direct { target: *uid, text: n.message.clone() },
            Option::None => MessagePlan::Discarded,
        },
        NotificationType::General => MessagePlan::Broadcast { text: n.message.clone() },
    }
}

/// The broadcast for a payload that is JSON but not a structured
/// notification: its display text when the loose shape carries one, else
/// the fixed fallback text — always a broadcast, never a targeted send.
pub fn fallback_plan(message: Option<String>) -> (p: MessagePlan)
    ensures
        ({
            &&& p matches MessagePlan::Broadcast { text }
            &&& text@ == spec_or_default(opt_str_view(message), "Новое уведомление"@)
        }),
{
    let text = or_default(&message, "Новое уведомление");
    MessagePlan::Broadcast { text }
}

/// Per-user delivery gating: a single-user send happens unless the user's
/// preference explicitly disables notifications.  An unknown preference
/// (unreachable backend, unparseable answer) does not block delivery.
pub fn delivery_allowed(preference: Option<bool>) -> (allowed: bool)
    ensures
        allowed == (preference != Option::<bool>::Some(false)),
{
    match preference {
        Option::Some(enabled) => enabled,
        Option::None => true,
    }
}

/// The ids a broadcast goes to: every roster entry marked authorized, in
/// roster order.
pub fn broadcast_targets(users: &Vec<AuthorizedUser>) -> (t: Vec<i64>)
    ensures
        t@ == users@.filter(|u: AuthorizedUser| u.authorized).map_values(
            |u: AuthorizedUser| u.telegram_user_id,
        ),
{
    let ghost pred = |u: AuthorizedUser| u.authorized;
    let ghost f = |u: AuthorizedUser| u.telegram_user_id;
    let mut t: Vec<i64> = Vec::new();
    let mut i: usize = 0;
    while i < users.len()
        invariant
            i <= users@.len(),
            pred == (|u: AuthorizedUser| u.authorized),
            f == (|u: AuthorizedUser| u.telegram_user_id),
            t@ == users@.take(i as int).filter(pred).map_values(f),
        decreases users@.len() - i,
    {
        proof {
            reveal(Seq::filter);
            let prefix = users@.take(i + 1);
            assert(prefix.drop_last() =~= users@.take(i as int));
            assert(prefix.last() == users@[i as int]);
            if pred(users@[i as int]) {
                assert(prefix.filter(pred) == users@.take(i as int).filter(pred).push(
                    users@[i as int],
                ));
                assert(prefix.filter(pred).map_values(f) =~= users@.take(i as int).filter(
                    pred,
                ).map_values(f).push(f(users@[i as int])));
            } else {
                assert(prefix.filter(pred) == users@.take(i as int).filter(pred));
            }
        }
        if users[i].authorized {
            t.push(users[i].telegram_user_id);
        }
        i += 1;
    }
    proof {
        assert(users@.take(users@.len() as int) =~= users@);
    }
    t
}

/// The record of one attempted delivery within a broadcast.
#[derive(Clone, Copy, Debug, PartialEq, Eq, Structural)]
pub struct DeliveryRecord {
    pub target: i64,
    pub delivered: bool,
}

/// The full accounting of a broadcast: one record per target, each from
/// that target's own transport outcome.
pub open spec fn spec_delivery_log(targets: Seq<i64>, delivered: Seq<bool>) -> Seq<
    DeliveryRecord,
> {
    Seq::new(targets.len(), |i: int| DeliveryRecord { target: targets[i], delivered: delivered[i] })
}

/// Accounts for a finished broadcast: pairs every target with the outcome
/// of its own send.  Every target is recorded — a failed send for one user
/// leaves every other user's record untouched.
pub fn broadcast_record(targets: &Vec<i64>, delivered: &Vec<bool>) -> (log: Vec<DeliveryRecord>)
    requires
        targets@.len() == delivered@.len(),
    ensures
        log@ == spec_delivery_log(targets@, delivered@),
{
    let mut log: Vec<DeliveryRecord> = Vec::new();
    let mut i: usize = 0;
    while i < targets.len()
        invariant
            targets@.len() == delivered@.len(),
            i <= targets@.len(),
            log@ == spec_delivery_log(targets@.take(i as int), delivered@.take(i as int)),
        decreases targets@.len() - i,
    {
        log.push(DeliveryRecord { target: targets[i], delivered: delivered[i] });
        proof {
            assert(log@ =~= spec_delivery_log(
                targets@.take(i + 1),
                delivered@.take(i + 1),
            ));
        }
        i += 1;
    }
    proof {
        assert(targets@.take(targets@.len() as int) =~= targets@);
        assert(delivered@.take(delivered@.len() as int) =~= delivered@);
        assert(log@ =~= spec_delivery_log(targets@, delivered@));
    }
    log
}

/// Broadcast isolation: within one broadcast, what is recorded for one
/// target depends on that target's own transport outcome alone.  Changing
/// any other send's outcome leaves this target's record the same.
pub proof fn lemma_broadcast_isolation(
    targets: Seq<i64>,
    delivered_a: Seq<bool>,
    delivered_b: Seq<bool>,
    i: int,
)
    requires
        delivered_a.len() == targets.len(),
        delivered_b.len() == targets.len(),
        0 <= i < targets.len(),
        delivered_a[i] == delivered_b[i],
    ensures
        spec_delivery_log(targets, delivered_a)[i] == spec_delivery_log(targets, delivered_b)[i],
{
}

} // verus!
