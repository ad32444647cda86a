//! The Telegram webhook: the administrator's approve / reject buttons.

use crate::config::{Config, TelegramConfig};
use crate::num::{int_text, parse_int, push_int, spec_parse_int, lemma_parse_int_text};
use crate::telegram::{spec_approve_data, spec_reject_data};
use crate::text::{has_prefix, str_eq, string_from_chars, strip_prefix};
use crate::time::{add_days, plus_days, representable, rfc3339, time_text};
use vstd::prelude::*;

verus! {

/// A Telegram user.
pub struct TgUser {
    pub id: i64,
}

/// A button press.
pub struct CallbackQuery {
    pub id: String,
    pub data: Option<String>,
    pub from: Option<TgUser>,
}

/// A webhook update.
pub struct Update {
    pub callback_query: Option<CallbackQuery>,
}

/// What a button press asks for.
pub enum CallbackAction {
    /// Nothing to change.
    Nothing,
    /// Authorise account `id` with the default terms.
    Approve(i64),
    /// Suspend account `id`.
    Reject(i64),
}

/// The handling of one webhook update: the account change, and the answer to
/// the button press (its callback id and text) when one is due.
pub struct WebhookPlan {
    pub action: CallbackAction,
    pub answer: Option<(String, String)>,
}

/// The account change asked by callback data `data` (`approve:<id>` or
/// `reject:<id>` with an `i64` id) from the administrator.
pub open spec fn spec_callback_action(data: Seq<char>) -> (CallbackAction, Seq<char>) {
    if has_prefix(data, "approve:"@) {
        match spec_parse_int(data.subrange(8, data.len() as int), i64::MIN as int, i64::MAX as int, true) {
            Some(id) => (CallbackAction::Approve(id as i64), "✅ 已授权"@),
            None => (CallbackAction::Nothing, "已处理"@),
        }
    } else if has_prefix(data, "reject:"@) {
        match spec_parse_int(data.subrange(7, data.len() as int), i64::MIN as int, i64::MAX as int, true) {
            Some(id) => (CallbackAction::Reject(id as i64), "❌ 已拒绝"@),
            None => (CallbackAction::Nothing, "已处理"@),
        }
    } else {
        (CallbackAction::Nothing, "已处理"@)
    }
}

/// Whether a press comes from the administrator's chat (`from.id` in decimal equals the chat id).
pub open spec fn spec_from_admin(from: Option<TgUser>, admin_chat_id: Seq<char>) -> bool {
    match from {
        Some(u) => int_text(u.id as int) == admin_chat_id,
        None => false,
    }
}

/// What the webhook does with an update: nothing without a bot or a button
/// press; otherwise the action of the press when it comes from the
/// administrator (else none, answered `无权限`), and the answer.
pub open spec fn spec_webhook_plan(telegram: Option<Seq<char>>, update: Update) -> (CallbackAction, Option<
    (Seq<char>, Seq<char>),
>) {
    match telegram {
        None => (CallbackAction::Nothing, None),
        Some(admin_chat_id) => match update.callback_query {
            None => (CallbackAction::Nothing, None),
            Some(cb) => if spec_from_admin(cb.from, admin_chat_id) {
                let data = match cb.data {
                    Some(d) => d@,
                    None => Seq::empty(),
                };
                let (a, reply) = spec_callback_action(data);
                (a, Some((cb.id@, reply)))
            } else {
                (CallbackAction::Nothing, Some((cb.id@, "无权限"@)))
            },
        },
    }
}

/// The administrator's chat id when a bot is configured.
pub open spec fn admin_chat(t: Option<TelegramConfig>) -> Option<Seq<char>> {
    match t {
        Some(c) => Some(c.admin_chat_id@),
        None => None,
    }
}

fn callback_action(data: &str) -> (r: (CallbackAction, &'static str))
    ensures
        (r.0, r.1@) == spec_callback_action(data@),
{
    proof {
        reveal_strlit("approve:");
        reveal_strlit("reject:");
    }
    if let Some(rest) = strip_prefix(data, "approve:") {
        match parse_int(rest, i64::MIN as i128, i64::MAX as i128, true) {
            Some(id) => (CallbackAction::Approve(id as i64), "✅ 已授权"),
            None => (CallbackAction::Nothing, "已处理"),
        }
    } else if let Some(rest) = strip_prefix(data, "reject:") {
        match parse_int(rest, i64::MIN as i128, i64::MAX as i128, true) {
            Some(id) => (CallbackAction::Reject(id as i64), "❌ 已拒绝"),
            None => (CallbackAction::Nothing, "已处理"),
        }
    } else {
        (CallbackAction::Nothing, "已处理")
    }
}

fn from_admin(from: &Option<TgUser>, admin_chat_id: &str) -> (b: bool)
    ensures
        b == spec_from_admin(*from, admin_chat_id@),
{
    match from {
        Some(u) => {
            let mut m: Vec<char> = Vec::new();
            push_int(&mut m, u.id);
            let text = string_from_chars(m.as_slice());
            assert(text@ =~= int_text(u.id as int));
            str_eq(text.as_str(), admin_chat_id)
        },
        None => false,
    }
}

/// Decides what `POST /tg/webhook` does with an update.
pub fn webhook_plan(telegram: &Option<TelegramConfig>, update: &Update) -> (r: WebhookPlan)
    ensures
        spec_webhook_plan(admin_chat(*telegram), *update) == (
            r.action,
            match r.answer {
                Some(a) => Some((a.0@, a.1@)),
                None => None,
            },
        ),
{
    let cfg = match telegram {
        None => return WebhookPlan { action: CallbackAction::Nothing, answer: None },
        Some(c) => c,
    };
    let cb = match &update.callback_query {
        None => return WebhookPlan { action: CallbackAction::Nothing, answer: None },
        Some(cb) => cb,
    };
    if from_admin(&cb.from, cfg.admin_chat_id.as_str()) {
        let data: &str = match &cb.data {
            Some(d) => d.as_str(),
            None => {
                proof {
                    reveal_strlit("");
                }
                ""
            },
        };
        let (action, reply) = callback_action(data);
        let ghost d = match &cb.data {
            Some(d) => d@,
            None => Seq::<char>::empty(),
        };
        assert(data@ == d);
        let id = cb.id.clone();
        let text = reply.to_string();
        assert(spec_callback_action(d) == (action, text@));
        WebhookPlan { action, answer: Some((id, text)) }
    } else {
        WebhookPlan { action: CallbackAction::Nothing, answer: Some((cb.id.clone(), "无权限".to_string())) }
    }
}

/// The terms given by the approve button at `now`: the default device limit
/// and a term of the default number of days.
pub fn approval_terms(cfg: &Config, now: i128) -> (r: (i64, String))
    requires
        representable(now as int),
        representable(plus_days(now as int, cfg.default_valid_days as int)),
    ensures
        r.0 == cfg.default_max_devices as i64,
        r.1@ == time_text(plus_days(now as int, cfg.default_valid_days as int)),
{
    (cfg.default_max_devices as i64, rfc3339(add_days(now, cfg.default_valid_days)))
}

/// The approve and reject buttons sent with a registration request are
/// understood by the webhook as approving or rejecting that same account.
pub proof fn law_callback_round_trip(user_id: i64)
    ensures
        spec_callback_action(spec_approve_data(user_id)).0 == CallbackAction::Approve(user_id),
        spec_callback_action(spec_reject_data(user_id)).0 == CallbackAction::Reject(user_id),
{
    reveal_strlit("approve:");
    reveal_strlit("reject:");
    let a = spec_approve_data(user_id);
    let r = spec_reject_data(user_id);
    lemma_parse_int_text(user_id as int, i64::MIN as int, i64::MAX as int);
    assert(a.subrange(0, 8) =~= "approve:"@);
    assert(a.subrange(8, a.len() as int) =~= int_text(user_id as int));
    assert(r.subrange(0, 7) =~= "reject:"@);
    assert(r.subrange(7, r.len() as int) =~= int_text(user_id as int));
    assert(!has_prefix(r, "approve:"@)) by {
        assert(r[0] == 'r');
        if has_prefix(r, "approve:"@) {
            assert(r.subrange(0, 8)[0] == 'a');
        }
    }
}

} // verus!
