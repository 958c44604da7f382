//! The command interface's rendering: markdown escaping, the static and
//! templated texts, and the inline menus with their callback actions.

use vstd::prelude::*;

verus! {

/// A character the rich-markup dialect requires to be escaped in text.
pub open spec fn is_markdown_special(c: char) -> bool {
    c == '_' || c == '*' || c == '[' || c == ']' || c == '(' || c == ')' || c == '~' || c == '`'
        || c == '>' || c == '#' || c == '+' || c == '-' || c == '=' || c == '|' || c == '{' || c
        == '}' || c == '.' || c == '!'
}

/// The text with a backslash before every special character.
pub open spec fn md_escaped(s: Seq<char>) -> Seq<char>
    decreases s.len(),
{
    if s.len() == 0 {
        Seq::empty()
    } else {
        (if is_markdown_special(s[0]) {
            seq!['\\', s[0]]
        } else {
            seq![s[0]]
        }) + md_escaped(s.subrange(1, s.len() as int))
    }
}

/// Escaping distributes over concatenation.
proof fn lemma_md_escaped_add(a: Seq<char>, b: Seq<char>)
    ensures
        md_escaped(a + b) == md_escaped(a) + md_escaped(b),
    decreases a.len(),
{
    if a.len() == 0 {
        assert(a + b =~= b);
        assert(md_escaped(a) =~= Seq::<char>::empty());
        assert(md_escaped(a) + md_escaped(b) =~= md_escaped(b));
    } else {
        let s = a + b;
        assert(s[0] == a[0]);
        assert(s.subrange(1, s.len() as int) =~= a.subrange(1, a.len() as int) + b);
        lemma_md_escaped_add(a.subrange(1, a.len() as int), b);
        assert(md_escaped(a + b) =~= md_escaped(a) + md_escaped(b));
    }
}

/// Escapes the rich-markup special characters of a text.
pub fn escape_markdown(s: &str) -> (r: String)
    ensures
        r@ == md_escaped(s@),
{
    let len = s.unicode_len();
    let mut r = String::new();
    let mut i: usize = 0;
    while i < len
        invariant
            len == s@.len(),
            i <= len,
            r@ == md_escaped(s@.take(i as int)),
        decreases len - i,
    {
        let c = s.get_char(i);
        let piece = s.substring_char(i, i + 1);
        proof {
            reveal_strlit("\\");
            assert(piece@ =~= seq![s@[i as int]]);
            let unit = seq![s@[i as int]];
            assert(s@.take(i + 1) =~= s@.take(i as int) + unit);
            lemma_md_escaped_add(s@.take(i as int), unit);
            assert(unit.subrange(1, unit.len() as int) =~= Seq::<char>::empty());
            assert(md_escaped(Seq::<char>::empty()) =~= Seq::<char>::empty());
            assert(md_escaped(unit.subrange(1, unit.len() as int)) =~= Seq::<char>::empty());
            if is_markdown_special(s@[i as int]) {
                assert(md_escaped(unit) =~= seq!['\\', s@[i as int]]);
            } else {
                assert(md_escaped(unit) =~= unit);
            }
        }
        if c == '_' || c == '*' || c == '[' || c == ']' || c == '(' || c == ')' || c == '~' || c
            == '`' || c == '>' || c == '#' || c == '+' || c == '-' || c == '=' || c == '|' || c
            == '{' || c == '}' || c == '.' || c == '!' {
            r.append("\\");
            r.append(piece);
        } else {
            r.append(piece);
        }
        proof {
            assert(r@ =~= md_escaped(s@.take(i + 1)));
        }
        i += 1;
    }
    proof {
        assert(s@.take(len as int) =~= s@);
    }
    r
}

/// One inline button: a label and the callback action it fires.
pub struct Button {
    pub label: String,
    pub action: String,
}

/// A rendered view: a text and its inline keyboard, row by row.
pub struct MenuView {
    pub text: String,
    pub rows: Vec<Vec<Button>>,
}

/// Builds one button.
fn button(label: &str, action: &str) -> (b: Button)
    ensures
        b.label@ == label@,
        b.action@ == action@,
{
    Button { label: String::from_str(label), action: String::from_str(action) }
}

/// The main menu: the token button on its own row, then notifications
/// and information side by side.
pub open spec fn spec_main_menu_rows(rows: Seq<Vec<Button>>) -> bool {
    &&& rows.len() == 2
    &&& rows[0]@.len() == 1
    &&& rows[0]@[0].label@ == "🔐 Получить токен"@
    &&& rows[0]@[0].action@ == "get_token"@
    &&& rows[1]@.len() == 2
    &&& rows[1]@[0].label@ == "🔔 Уведомления"@
    &&& rows[1]@[0].action@ == "notifications_menu"@
    &&& rows[1]@[1].label@ == "ℹ️ Информация"@
    &&& rows[1]@[1].action@ == "show_info"@
}

/// Builds the main menu keyboard.
pub fn main_menu_keyboard() -> (rows: Vec<Vec<Button>>)
    ensures
        spec_main_menu_rows(rows@),
{
    let mut row0: Vec<Button> = Vec::new();
    row0.push(button("🔐 Получить токен", "get_token"));
    let mut row1: Vec<Button> = Vec::new();
    row1.push(button("🔔 Уведомления", "notifications_menu"));
    row1.push(button("ℹ️ Информация", "show_info"));
    let mut rows: Vec<Vec<Button>> = Vec::new();
    rows.push(row0);
    rows.push(row1);
    rows
}

/// The notifications menu keyboard: one toggle for the opposite of the
/// current setting, and a way back.
pub open spec fn spec_notifications_rows(enabled: bool, rows: Seq<Vec<Button>>) -> bool {
    &&& rows.len() == 2
    &&& rows[0]@.len() == 1
    &&& rows[0]@[0].label@ == (if enabled {
        "🔕 Выключить уведомления"@
    } else {
        "🔔 Включить уведомления"@
    })
    &&& rows[0]@[0].action@ == (if enabled {
        "notifications_off"@
    } else {
        "notifications_on"@
    })
    &&& rows[1]@.len() == 1
    &&& rows[1]@[0].label@ == "◀️ Назад"@
    &&& rows[1]@[0].action@ == "back_to_main"@
}

/// Builds the notifications menu keyboard.
pub fn notifications_keyboard(enabled: bool) -> (rows: Vec<Vec<Button>>)
    ensures
        spec_notifications_rows(enabled, rows@),
{
    let mut row0: Vec<Button> = Vec::new();
    if enabled {
        row0.push(button("🔕 Выключить уведомления", "notifications_off"));
    } else {
        row0.push(button("🔔 Включить уведомления", "notifications_on"));
    }
    let mut row1: Vec<Button> = Vec::new();
    row1.push(button("◀️ Назад", "back_to_main"));
    let mut rows: Vec<Vec<Button>> = Vec::new();
    rows.push(row0);
    rows.push(row1);
    rows
}

/// Builds the keyboard holding only the way back.
pub fn back_keyboard() -> (rows: Vec<Vec<Button>>)
    ensures
        rows@.len() == 1,
        rows@[0]@.len() == 1,
        rows@[0]@[0].label@ == "◀️ Назад"@,
        rows@[0]@[0].action@ == "back_to_main"@,
{
    let mut row0: Vec<Button> = Vec::new();
    row0.push(button("◀️ Назад", "back_to_main"));
    let mut rows: Vec<Vec<Button>> = Vec::new();
    rows.push(row0);
    rows
}

/// The greeting shown by the start command, around the user's escaped
/// first name.
pub open spec fn spec_welcome_text(first_name: Seq<char>) -> Seq<char> {
    "👋 Привет, "@ + md_escaped(first_name)
        + "\\!\n\n🚀 Добро пожаловать в *ITAM Hackathon Bot*\\!\n\nЭтот бот поможет тебе:\n• 🔐 Авторизоваться на платформе хакатонов\n• 🔔 Получать уведомления о заявках в команду\n• 👥 Управлять приглашениями прямо из Telegram\n\n📝 *Как начать:*\n1\\. Нажми кнопку \"Получить токен\"\n2\\. Введи токен на сайте для авторизации\n3\\. Настрой профиль и найди команду\\!\n\n⚙️ Используй кнопки ниже или команды для навигации\\."@
}

/// The greeting with the start command's text and the main menu.
pub fn welcome_view(first_name: &str) -> (v: MenuView)
    ensures
        v.text@ == spec_welcome_text(first_name@),
        spec_main_menu_rows(v.rows@),
{
    let mut text = String::from_str("👋 Привет, ");
    let name = escape_markdown(first_name);
    text.append(name.as_str());
    text.append(
        "\\!\n\n🚀 Добро пожаловать в *ITAM Hackathon Bot*\\!\n\nЭтот бот поможет тебе:\n• 🔐 Авторизоваться на платформе хакатонов\n• 🔔 Получать уведомления о заявках в команду\n• 👥 Управлять приглашениями прямо из Telegram\n\n📝 *Как начать:*\n1\\. Нажми кнопку \"Получить токен\"\n2\\. Введи токен на сайте для авторизации\n3\\. Настрой профиль и найди команду\\!\n\n⚙️ Используй кнопки ниже или команды для навигации\\.",
    );
    MenuView { text, rows: main_menu_keyboard() }
}

/// The shorter greeting shown when returning to the main menu.
pub open spec fn spec_main_menu_text(first_name: Seq<char>) -> Seq<char> {
    "👋 Привет, "@ + md_escaped(first_name)
        + "\\!\n\n🚀 *ITAM Hackathon Bot*\n\nЭтот бот поможет тебе:\n• 🔐 Авторизоваться на платформе\n• 🔔 Получать уведомления\n• 👥 Управлять приглашениями\n\nВыбери действие:"@
}

/// The view shown when returning to the main menu.
pub fn main_menu_view(first_name: &str) -> (v: MenuView)
    ensures
        v.text@ == spec_main_menu_text(first_name@),
        spec_main_menu_rows(v.rows@),
{
    let mut text = String::from_str("👋 Привет, ");
    let name = escape_markdown(first_name);
    text.append(name.as_str());
    text.append(
        "\\!\n\n🚀 *ITAM Hackathon Bot*\n\nЭтот бот поможет тебе:\n• 🔐 Авторизоваться на платформе\n• 🔔 Получать уведомления\n• 👥 Управлять приглашениями\n\nВыбери действие:",
    );
    MenuView { text, rows: main_menu_keyboard() }
}

/// The fixed description of the platform.
pub fn info_text() -> (t: &'static str)
    ensures
        t@ == "ℹ️ *О платформе ITAM Hackathon*\n\n🎯 *Что это?*\nПлатформа для участия в хакатонах с системой подбора команд\\.\n\n✨ *Возможности:*\n• 🔍 Поиск команды по навыкам\n• 👆 Свайп\\-система как в Tinder\n• 🏆 Геймификация и достижения\n• 🎨 Кастомизация профиля\n• 📊 Рейтинг и MMR система\n\n💡 *Как это работает:*\n1\\. Создайте профиль с вашими навыками\n2\\. Свайпайте карточки команд/участников\n3\\. При взаимном лайке \\- это Match\\!\n4\\. Общайтесь и формируйте команду\\!"@,
{
    "ℹ️ *О платформе ITAM Hackathon*\n\n🎯 *Что это?*\nПлатформа для участия в хакатонах с системой подбора команд\\.\n\n✨ *Возможности:*\n• 🔍 Поиск команды по навыкам\n• 👆 Свайп\\-система как в Tinder\n• 🏆 Геймификация и достижения\n• 🎨 Кастомизация профиля\n• 📊 Рейтинг и MMR система\n\n💡 *Как это работает:*\n1\\. Создайте профиль с вашими навыками\n2\\. Свайпайте карточки команд/участников\n3\\. При взаимном лайке \\- это Match\\!\n4\\. Общайтесь и формируйте команду\\!"
}

/// The description of the platform with the way back, as edited into a
/// message.
pub fn info_view() -> (v: MenuView)
    ensures
        v.text@ == info_spec_text(),
        v.rows@.len() == 1,
        v.rows@[0]@.len() == 1,
        v.rows@[0]@[0].action@ == "back_to_main"@,
{
    MenuView { text: String::from_str(info_text()), rows: back_keyboard() }
}

/// The fixed description of the platform, as the spec sees it.
pub open spec fn info_spec_text() -> Seq<char> {
    "ℹ️ *О платформе ITAM Hackathon*\n\n🎯 *Что это?*\nПлатформа для участия в хакатонах с системой подбора команд\\.\n\n✨ *Возможности:*\n• 🔍 Поиск команды по навыкам\n• 👆 Свайп\\-система как в Tinder\n• 🏆 Геймификация и достижения\n• 🎨 Кастомизация профиля\n• 📊 Рейтинг и MMR система\n\n💡 *Как это работает:*\n1\\. Создайте профиль с вашими навыками\n2\\. Свайпайте карточки команд/участников\n3\\. При взаимном лайке \\- это Match\\!\n4\\. Общайтесь и формируйте команду\\!"@
}

/// The message handing the user a fresh login token.
pub open spec fn spec_token_message(token: Seq<char>) -> Seq<char> {
    "🔐 *Ваш токен для авторизации:*\n\n`"@ + md_escaped(token)
        + "`\n\n⏰ Токен действителен *10 минут*\n\n📋 Скопируйте токен и вставьте его на сайте для входа\\."@
}

/// Renders the message handing the user a fresh login token.
pub fn token_message(token: &str) -> (t: String)
    ensures
        t@ == spec_token_message(token@),
{
    let mut t = String::from_str("🔐 *Ваш токен для авторизации:*\n\n`");
    let escaped = escape_markdown(token);
    t.append(escaped.as_str());
    t.append(
        "`\n\n⏰ Токен действителен *10 минут*\n\n📋 Скопируйте токен и вставьте его на сайте для входа\\.",
    );
    t
}

/// The help message around the escaped command descriptions.
pub open spec fn spec_help_message(descriptions: Seq<char>) -> Seq<char> {
    "📚 *Справка по командам*\n\n"@ + md_escaped(descriptions)
        + "\n\n💬 Если у вас есть вопросы, обратитесь к организаторам хакатона\\."@
}

/// Renders the help message around the escaped command descriptions.
pub fn help_message(descriptions: &str) -> (t: String)
    ensures
        t@ == spec_help_message(descriptions@),
{
    let mut t = String::from_str("📚 *Справка по командам*\n\n");
    let escaped = escape_markdown(descriptions);
    t.append(escaped.as_str());
    t.append("\n\n💬 Если у вас есть вопросы, обратитесь к организаторам хакатона\\.");
    t
}

/// The status emoji of the notifications menu: known-enabled,
/// known-disabled, or unknown.
pub open spec fn spec_status_emoji(status: Option<bool>) -> Seq<char> {
    match status {
        Option::Some(true) => "🔔"@,
        Option::Some(false) => "🔕"@,
        Option::None => "❓"@,
    }
}

/// The status line of the notifications menu.
pub open spec fn spec_status_line(status: Option<bool>) -> Seq<char> {
    match status {
        Option::Some(true) => "Уведомления *включены* ✅"@,
        Option::Some(false) => "Уведомления *выключены* 🔇"@,
        Option::None => "Статус неизвестен \\(авторизуйтесь на сайте\\)"@,
    }
}

/// The notifications text of the slash command, listing what
/// notifications cover.
pub open spec fn spec_notifications_command_text(status: Option<bool>) -> Seq<char> {
    spec_status_emoji(status) + " *Настройки уведомлений*\n\nТекущий статус: "@ + spec_status_line(
        status,
    )
        + "\n\nУведомления включают:\n• 📨 Заявки на вступление в команду\n• ✅ Одобрение/отклонение заявок\n• 🎉 Новые матчи\n• 📢 Важные объявления\n\nИспользуйте кнопки ниже для управления\\."@
}

/// The notifications text of the inline menu.
pub open spec fn spec_notifications_menu_text(status: Option<bool>) -> Seq<char> {
    spec_status_emoji(status) + " *Настройки уведомлений*\n\nТекущий статус: "@ + spec_status_line(
        status,
    )
        + "\n\nУведомления включают:\n• 📨 Заявки на вступление в команду\n• ✅ Одобрение/отклонение заявок\n• 🎉 Новые матчи\n\nИспользуйте кнопки ниже для управления\\."@
}

/// The status emoji, as text.
fn status_emoji(status: &Option<bool>) -> (e: &'static str)
    ensures
        e@ == spec_status_emoji(*status),
{
    match status {
        Option::Some(true) => "🔔",
        Option::Some(false) => "🔕",
        Option::None => "❓",
    }
}

/// The status line, as text.
fn status_line(status: &Option<bool>) -> (l: &'static str)
    ensures
        l@ == spec_status_line(*status),
{
    match status {
        Option::Some(true) => "Уведомления *включены* ✅",
        Option::Some(false) => "Уведомления *выключены* 🔇",
        Option::None => "Статус неизвестен \\(авторизуйтесь на сайте\\)",
    }
}

/// An unknown status (the backend unreachable, the user unregistered)
/// shows the menu as if notifications were enabled.
pub open spec fn spec_status_enabled(status: Option<bool>) -> bool {
    status != Option::<bool>::Some(false)
}

/// The notifications view of the slash command: status text and toggle.
pub fn notifications_command_view(status: Option<bool>) -> (v: MenuView)
    ensures
        v.text@ == spec_notifications_command_text(status),
        spec_notifications_rows(spec_status_enabled(status), v.rows@),
{
    let mut text = String::from_str(status_emoji(&status));
    text.append(" *Настройки уведомлений*\n\nТекущий статус: ");
    text.append(status_line(&status));
    text.append(
        "\n\nУведомления включают:\n• 📨 Заявки на вступление в команду\n• ✅ Одобрение/отклонение заявок\n• 🎉 Новые матчи\n• 📢 Важные объявления\n\nИспользуйте кнопки ниже для управления\\.",
    );
    let enabled = match status {
        Option::Some(false) => false,
        _ => true,
    };
    MenuView { text, rows: notifications_keyboard(enabled) }
}

/// The notifications view of the inline menu: status text and toggle.
pub fn notifications_menu_view(status: Option<bool>) -> (v: MenuView)
    ensures
        v.text@ == spec_notifications_menu_text(status),
        spec_notifications_rows(spec_status_enabled(status), v.rows@),
{
    let mut text = String::from_str(status_emoji(&status));
    text.append(" *Настройки уведомлений*\n\nТекущий статус: ");
    text.append(status_line(&status));
    text.append(
        "\n\nУведомления включают:\n• 📨 Заявки на вступление в команду\n• ✅ Одобрение/отклонение заявок\n• 🎉 Новые матчи\n\nИспользуйте кнопки ниже для управления\\.",
    );
    let enabled = match status {
        Option::Some(false) => false,
        _ => true,
    };
    MenuView { text, rows: notifications_keyboard(enabled) }
}

/// The confirmation text after the toggle was applied.
pub open spec fn spec_toggle_text(enable: bool) -> Seq<char> {
    if enable {
        "🔔 Уведомления *включены* ✅\n\nТеперь вы будете получать все важные уведомления\\."@
    } else {
        "🔕 Уведомления *выключены* 🔇\n\nВы больше не будете получать уведомления в Telegram\\."@
    }
}

/// The view confirming an applied toggle: the new status and the toggle
/// for the opposite direction.
pub fn toggle_view(enable: bool) -> (v: MenuView)
    ensures
        v.text@ == spec_toggle_text(enable),
        spec_notifications_rows(enable, v.rows@),
{
    let text = if enable {
        String::from_str(
            "🔔 Уведомления *включены* ✅\n\nТеперь вы будете получать все важные уведомления\\.",
        )
    } else {
        String::from_str(
            "🔕 Уведомления *выключены* 🔇\n\nВы больше не будете получать уведомления в Telegram\\.",
        )
    };
    MenuView { text, rows: notifications_keyboard(enable) }
}

/// The apology shown when token issuance failed.
pub fn token_error_text() -> (t: &'static str)
    ensures
        t@ == "❌ Ошибка при генерации токена. Попробуйте позже."@,
{
    "❌ Ошибка при генерации токена. Попробуйте позже."
}

/// The apology shown when the settings update failed.
pub fn settings_error_text() -> (t: &'static str)
    ensures
        t@ == "❌ Не удалось обновить настройки. Убедитесь, что вы авторизованы на сайте."@,
{
    "❌ Не удалось обновить настройки. Убедитесь, что вы авторизованы на сайте."
}

/// The label of an accept button.
pub fn accept_label() -> (l: &'static str)
    ensures
        l@ == "✅ Принять"@,
{
    "✅ Принять"
}

/// The label of a reject button.
pub fn reject_label() -> (l: &'static str)
    ensures
        l@ == "❌ Отклонить"@,
{
    "❌ Отклонить"
}

} // verus!
