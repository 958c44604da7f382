use tgbot::callback::{
    classify_invite_reply, classify_join_reply, encode_callback_data, invite_outcome_message,
    join_outcome_message, parse_callback_data, processing_ack_text, render_outcome, resolve_invite,
    resolve_join, unrecognized_ack_text, BackendReply, CallbackAction, OutcomeClass,
};

#[test]
fn decodes_bare_verbs() {
    assert_eq!(parse_callback_data("get_token"), CallbackAction::GetToken);
    assert_eq!(parse_callback_data("notifications_menu"), CallbackAction::NotificationsMenu);
    assert_eq!(parse_callback_data("notifications_on"), CallbackAction::NotificationsOn);
    assert_eq!(parse_callback_data("notifications_off"), CallbackAction::NotificationsOff);
    assert_eq!(parse_callback_data("show_info"), CallbackAction::ShowInfo);
    assert_eq!(parse_callback_data("back_to_main"), CallbackAction::BackToMain);
}

#[test]
fn decodes_four_part_actions() {
    assert_eq!(
        parse_callback_data("join_accept:7:99"),
        CallbackAction::JoinResponse { accept: true, team_id: 7, request_id: 99 }
    );
    assert_eq!(
        parse_callback_data("join_reject:7:99"),
        CallbackAction::JoinResponse { accept: false, team_id: 7, request_id: 99 }
    );
    assert_eq!(
        parse_callback_data("invite_accept:3:12"),
        CallbackAction::InviteResponse { accept: true, team_id: 3, invite_id: 12 }
    );
    assert_eq!(
        parse_callback_data("invite_reject:3:12"),
        CallbackAction::InviteResponse { accept: false, team_id: 3, invite_id: 12 }
    );
}

#[test]
fn rejects_unknown_payloads() {
    assert_eq!(parse_callback_data(""), CallbackAction::Unrecognized);
    assert_eq!(parse_callback_data("join_accept"), CallbackAction::Unrecognized);
    assert_eq!(parse_callback_data("join_accept:7"), CallbackAction::Unrecognized);
    assert_eq!(parse_callback_data("join_accept:7:xy"), CallbackAction::Unrecognized);
    assert_eq!(parse_callback_data("join_accept:07:9"), CallbackAction::Unrecognized);
    assert_eq!(parse_callback_data("launch_rocket:1:2"), CallbackAction::Unrecognized);
    assert_eq!(parse_callback_data("get_token:1:2"), CallbackAction::Unrecognized);
}

#[test]
fn encoding_round_trips_through_the_decoder() {
    let wire = encode_callback_data("join_accept", 7, 99);
    assert_eq!(wire, "join_accept:7:99");
    assert_eq!(
        parse_callback_data(&wire),
        CallbackAction::JoinResponse { accept: true, team_id: 7, request_id: 99 }
    );
    let wire = encode_callback_data("invite_reject", -5, 0);
    assert_eq!(wire, "invite_reject:-5:0");
    assert_eq!(
        parse_callback_data(&wire),
        CallbackAction::InviteResponse { accept: false, team_id: -5, invite_id: 0 }
    );
}

fn rejected(body: &str) -> BackendReply {
    BackendReply::Rejected { body: body.to_string() }
}

#[test]
fn classifies_join_replies() {
    assert_eq!(classify_join_reply(&BackendReply::Success), OutcomeClass::Done);
    assert_eq!(classify_join_reply(&BackendReply::Unreachable), OutcomeClass::ConnectivityError);
    assert_eq!(
        classify_join_reply(&rejected("request already processed")),
        OutcomeClass::AlreadyProcessed
    );
    assert_eq!(classify_join_reply(&rejected("request not found")), OutcomeClass::AlreadyProcessed);
    assert_eq!(classify_join_reply(&rejected("the team is full")), OutcomeClass::CapacityRejected);
    assert_eq!(classify_join_reply(&rejected("boom")), OutcomeClass::UnknownError);
}

#[test]
fn classifies_invite_replies() {
    assert_eq!(classify_invite_reply(&BackendReply::Success), OutcomeClass::Done);
    assert_eq!(
        classify_invite_reply(&BackendReply::Unreachable),
        OutcomeClass::ConnectivityError
    );
    assert_eq!(
        classify_invite_reply(&rejected("invite already processed")),
        OutcomeClass::AlreadyProcessed
    );
    assert_eq!(
        classify_invite_reply(&rejected("this is not your invite")),
        OutcomeClass::NotYourInvite
    );
    assert_eq!(classify_invite_reply(&rejected("boom")), OutcomeClass::UnknownError);
}

#[test]
fn one_fixed_message_per_class() {
    assert_eq!(
        join_outcome_message(true, OutcomeClass::Done),
        "✅ Заявка успешно принята! Пользователь добавлен в команду."
    );
    assert_eq!(join_outcome_message(false, OutcomeClass::Done), "❌ Заявка отклонена.");
    assert_eq!(
        join_outcome_message(true, OutcomeClass::AlreadyProcessed),
        "⚠️ Эта заявка уже была обработана ранее."
    );
    assert_eq!(
        invite_outcome_message(true, OutcomeClass::NotYourInvite),
        "⚠️ Это приглашение адресовано другому пользователю."
    );
    assert_eq!(
        invite_outcome_message(false, OutcomeClass::ConnectivityError),
        "❌ Не удалось связаться с сервером. Попробуйте позже."
    );
}

#[test]
fn renders_outcome_below_original_text() {
    assert_eq!(render_outcome("original", "outcome"), "original\n\noutcome");
}

#[test]
fn repeated_press_yields_the_same_benign_outcome() {
    let original = "Запрос на вступление";
    let first = resolve_join(true, &rejected("already processed"), original);
    let second = resolve_join(true, &rejected("row already processed by worker 3"), original);
    assert_eq!(first, second);
    assert_eq!(
        first,
        "Запрос на вступление\n\n⚠️ Эта заявка уже была обработана ранее."
    );
    let first = resolve_invite(false, &rejected("already processed"), original);
    let second = resolve_invite(false, &rejected("already processed"), original);
    assert_eq!(first, second);
}

#[test]
fn acknowledgment_toasts() {
    assert_eq!(processing_ack_text(true), "Обработка принятия...");
    assert_eq!(processing_ack_text(false), "Обработка отклонения...");
    assert_eq!(unrecognized_ack_text(), "Неизвестное действие");
}
