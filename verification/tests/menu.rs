use tgbot::callback::{parse_callback_data, CallbackAction};
use tgbot::menu::{
    accept_label, back_keyboard, escape_markdown, help_message, info_text, main_menu_keyboard,
    main_menu_view, notifications_command_view, notifications_keyboard, notifications_menu_view,
    reject_label, settings_error_text, toggle_view, token_error_text, token_message, welcome_view,
};

#[test]
fn escapes_markup_characters() {
    assert_eq!(escape_markdown("a_b.c!"), "a\\_b\\.c\\!");
    assert_eq!(escape_markdown("(1+1)=2"), "\\(1\\+1\\)\\=2");
    assert_eq!(escape_markdown(""), "");
}

#[test]
fn escape_is_identity_on_alphanumerics() {
    assert_eq!(escape_markdown("Abc123xyz"), "Abc123xyz");
    assert_eq!(escape_markdown("Привет"), "Привет");
}

#[test]
fn token_message_quotes_the_escaped_token() {
    let t = token_message("a_b");
    assert!(t.starts_with("🔐 *Ваш токен для авторизации:*\n\n`a\\_b`"));
    assert!(t.contains("Токен действителен *10 минут*"));
}

#[test]
fn help_message_wraps_escaped_descriptions() {
    let t = help_message("cmd - do.");
    assert_eq!(
        t,
        "📚 *Справка по командам*\n\ncmd \\- do\\.\n\n💬 Если у вас есть вопросы, обратитесь к организаторам хакатона\\."
    );
}

#[test]
fn welcome_view_greets_by_escaped_name() {
    let v = welcome_view("Ann!");
    assert!(v.text.starts_with("👋 Привет, Ann\\!"));
    assert_eq!(v.rows.len(), 2);
    assert_eq!(v.rows[0][0].action, "get_token");
}

#[test]
fn main_menu_buttons_decode_to_known_actions() {
    for row in main_menu_keyboard() {
        for b in row {
            assert_ne!(parse_callback_data(&b.action), CallbackAction::Unrecognized);
        }
    }
    for row in back_keyboard() {
        for b in row {
            assert_eq!(parse_callback_data(&b.action), CallbackAction::BackToMain);
        }
    }
}

#[test]
fn main_menu_view_uses_the_short_greeting() {
    let v = main_menu_view("Bob");
    assert!(v.text.contains("*ITAM Hackathon Bot*"));
    assert!(v.text.ends_with("Выбери действие:"));
}

#[test]
fn info_text_is_fixed() {
    assert!(info_text().starts_with("ℹ️ *О платформе ITAM Hackathon*"));
}

#[test]
fn notification_views_follow_the_status() {
    let v = notifications_command_view(Some(true));
    assert!(v.text.contains("Уведомления *включены* ✅"));
    assert_eq!(v.rows[0][0].action, "notifications_off");

    let v = notifications_command_view(Some(false));
    assert!(v.text.contains("Уведомления *выключены* 🔇"));
    assert_eq!(v.rows[0][0].action, "notifications_on");

    let v = notifications_menu_view(None);
    assert!(v.text.contains("Статус неизвестен"));
    assert_eq!(v.rows[0][0].action, "notifications_off");
    assert_eq!(v.rows[1][0].action, "back_to_main");
}

#[test]
fn toggle_views_confirm_the_new_state() {
    let v = toggle_view(true);
    assert!(v.text.starts_with("🔔 Уведомления *включены* ✅"));
    assert_eq!(v.rows[0][0].action, "notifications_off");
    let v = toggle_view(false);
    assert!(v.text.starts_with("🔕 Уведомления *выключены* 🔇"));
    assert_eq!(v.rows[0][0].action, "notifications_on");
}

#[test]
fn toggle_keyboard_offers_the_opposite() {
    let rows = notifications_keyboard(true);
    assert_eq!(rows[0][0].label, "🔕 Выключить уведомления");
    let rows = notifications_keyboard(false);
    assert_eq!(rows[0][0].label, "🔔 Включить уведомления");
}

#[test]
fn fixed_error_texts() {
    assert_eq!(token_error_text(), "❌ Ошибка при генерации токена. Попробуйте позже.");
    assert_eq!(
        settings_error_text(),
        "❌ Не удалось обновить настройки. Убедитесь, что вы авторизованы на сайте."
    );
    assert_eq!(accept_label(), "✅ Принять");
    assert_eq!(reject_label(), "❌ Отклонить");
}
