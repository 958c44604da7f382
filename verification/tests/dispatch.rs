use tgbot::dispatch::{
    broadcast_record, broadcast_targets, delivery_allowed, fallback_plan, route_notification,
    MessagePlan,
};
use tgbot::notification::{AuthorizedUser, Notification, NotificationType};

fn notification(kind: Option<&str>, target: Option<i64>) -> Notification {
    Notification {
        message: String::from("hello"),
        notification_type: kind.map(|s| s.to_string()),
        target_user_id: target,
        request_id: None,
        invite_id: None,
        team_id: None,
        team_name: None,
        user_name: None,
        inviter_name: None,
    }
}

#[test]
fn classifies_kinds() {
    assert_eq!(notification(Some("join_request"), None).kind(), NotificationType::JoinRequest);
    assert_eq!(notification(Some("team_invite"), None).kind(), NotificationType::TeamInvite);
    assert_eq!(notification(Some("team_accepted"), None).kind(), NotificationType::TeamAccepted);
    assert_eq!(notification(Some("team_rejected"), None).kind(), NotificationType::TeamRejected);
    assert_eq!(
        notification(Some("invite_accepted"), None).kind(),
        NotificationType::InviteAccepted
    );
    assert_eq!(
        notification(Some("invite_rejected"), None).kind(),
        NotificationType::InviteRejected
    );
    assert_eq!(notification(Some("anything else"), None).kind(), NotificationType::General);
    assert_eq!(notification(None, None).kind(), NotificationType::General);
}

#[test]
fn routes_join_request_with_buttons() {
    let mut n = notification(Some("join_request"), Some(42));
    n.team_id = Some(7);
    n.request_id = Some(99);
    n.user_name = Some("Алиса".to_string());
    n.team_name = Some("Ракета".to_string());
    match route_notification(&n) {
        MessagePlan::Interactive { target, markdown, text, plain_text, accept_action, reject_action } => {
            assert_eq!(target, 42);
            assert!(markdown);
            assert_eq!(accept_action, "join_accept:7:99");
            assert_eq!(reject_action, "join_reject:7:99");
            assert!(text.contains("Алиса"));
            assert!(text.contains("Ракета"));
            assert!(plain_text.contains("Алиса"));
        }
        _ => panic!("a join request must render as one interactive message"),
    }
}

#[test]
fn join_request_without_target_is_discarded() {
    let mut n = notification(Some("join_request"), None);
    n.team_id = Some(7);
    n.request_id = Some(99);
    assert!(matches!(route_notification(&n), MessagePlan::Discarded));
}

#[test]
fn routes_team_invite_with_invite_id_fallback() {
    let mut n = notification(Some("team_invite"), Some(5));
    n.team_id = Some(3);
    n.request_id = Some(12);
    match route_notification(&n) {
        MessagePlan::Interactive { target, markdown, accept_action, reject_action, .. } => {
            assert_eq!(target, 5);
            assert!(!markdown);
            assert_eq!(accept_action, "invite_accept:3:12");
            assert_eq!(reject_action, "invite_reject:3:12");
        }
        _ => panic!("a team invite must render as one interactive message"),
    }
    n.invite_id = Some(77);
    match route_notification(&n) {
        MessagePlan::Interactive { accept_action, .. } => {
            assert_eq!(accept_action, "invite_accept:3:77");
        }
        _ => panic!("a team invite must render as one interactive message"),
    }
}

#[test]
fn team_invite_without_target_is_discarded() {
    let n = notification(Some("team_invite"), None);
    assert!(matches!(route_notification(&n), MessagePlan::Discarded));
}

#[test]
fn routes_result_kinds_as_plain_direct_messages() {
    for kind in ["team_accepted", "team_rejected", "invite_accepted", "invite_rejected"] {
        let n = notification(Some(kind), Some(8));
        match route_notification(&n) {
            MessagePlan::Direct { target, text } => {
                assert_eq!(target, 8);
                assert_eq!(text, "hello");
            }
            _ => panic!("a result kind must render as one plain direct message"),
        }
    }
}

#[test]
fn routes_everything_else_as_broadcast() {
    let n = notification(None, None);
    match route_notification(&n) {
        MessagePlan::Broadcast { text } => assert_eq!(text, "hello"),
        _ => panic!("a generic notification must broadcast"),
    }
}

#[test]
fn fallback_payloads_broadcast_their_message_or_the_default() {
    match fallback_plan(Some("срочное объявление".to_string())) {
        MessagePlan::Broadcast { text } => assert_eq!(text, "срочное объявление"),
        _ => panic!("a fallback payload must broadcast"),
    }
    match fallback_plan(None) {
        MessagePlan::Broadcast { text } => assert_eq!(text, "Новое уведомление"),
        _ => panic!("a fallback payload must broadcast"),
    }
}

#[test]
fn gating_skips_disabled_users() {
    assert!(!delivery_allowed(Some(false)));
    assert!(delivery_allowed(Some(true)));
    assert!(delivery_allowed(None));
}

fn roster() -> Vec<AuthorizedUser> {
    vec![
        AuthorizedUser { telegram_user_id: 1, username: "a".to_string(), authorized: true },
        AuthorizedUser { telegram_user_id: 2, username: "b".to_string(), authorized: false },
        AuthorizedUser { telegram_user_id: 3, username: "c".to_string(), authorized: true },
        AuthorizedUser { telegram_user_id: 4, username: "d".to_string(), authorized: true },
    ]
}

#[test]
fn broadcast_goes_to_authorized_users_in_order() {
    let targets = broadcast_targets(&roster());
    assert_eq!(targets, vec![1, 3, 4]);
}

#[test]
fn broadcast_isolation_on_middle_failure() {
    let targets = broadcast_targets(&roster());
    let delivered = vec![true, false, true];
    let log = broadcast_record(&targets, &delivered);
    assert_eq!(log.len(), 3);
    assert_eq!((log[0].target, log[0].delivered), (1, true));
    assert_eq!((log[1].target, log[1].delivered), (3, false));
    assert_eq!((log[2].target, log[2].delivered), (4, true));
}
