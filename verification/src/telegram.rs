//! Telegram Bot messages: the API endpoints, the registration request with its
//! approve / reject buttons, and the buttons' callback data.

use crate::num::{int_text, push_int};
use crate::text::{push_str, string_from_chars};
use vstd::prelude::*;

verus! {

/// The Bot API endpoint of `method`.
pub open spec fn spec_api(token: Seq<char>, method: Seq<char>) -> Seq<char> {
    "https://api.telegram.org/bot"@
        + token
        + "/"@
        + method
}

/// The Bot API endpoint of `method`.
pub fn api(token: &str, method: &str) -> (r: String)
    ensures
        r@ == spec_api(token@, method@),
{
    let mut m: Vec<char> = Vec::new();
    push_str(&mut m, "https://api.telegram.org/bot");
    push_str(&mut m, token);
    push_str(&mut m, "/");
    push_str(&mut m, method);
    let r = string_from_chars(m.as_slice());
    assert(r@ =~= spec_api(token@, method@));
    r
}

/// The text of a registration request sent to the administrator.
pub open spec fn spec_approval_text(email: Seq<char>, device_fp: Seq<char>, platform: Seq<char>) -> Seq<char> {
    "🆕 <b>新设备注册申请</b>\n邮箱: <code>"@
        + email
        + "</code>\n平台: "@
        + platform
        + "\n设备指纹: <code>"@
        + device_fp
        + "</code>\n\n点击下方按钮授权（默认设备数/期限取服务端默认值），或在 Web 后台精细授权。"@
}

/// The text of a registration request sent to the administrator.
pub fn approval_text(email: &str, device_fp: &str, platform: &str) -> (r: String)
    ensures
        r@ == spec_approval_text(email@, device_fp@, platform@),
{
    let mut m: Vec<char> = Vec::new();
    push_str(&mut m, "🆕 <b>新设备注册申请</b>\n邮箱: <code>");
    push_str(&mut m, email);
    push_str(&mut m, "</code>\n平台: ");
    push_str(&mut m, platform);
    push_str(&mut m, "\n设备指纹: <code>");
    push_str(&mut m, device_fp);
    push_str(&mut m, "</code>\n\n点击下方按钮授权（默认设备数/期限取服务端默认值），或在 Web 后台精细授权。");
    let r = string_from_chars(m.as_slice());
    assert(r@ =~= spec_approval_text(email@, device_fp@, platform@));
    r
}

/// The callback data of the approve button for account `user_id`.
pub open spec fn spec_approve_data(user_id: i64) -> Seq<char> {
    "approve:"@ + int_text(user_id as int)
}

/// The callback data of the reject button for account `user_id`.
pub open spec fn spec_reject_data(user_id: i64) -> Seq<char> {
    "reject:"@ + int_text(user_id as int)
}

/// The callback data of the approve button (`approve:<user_id>`).
pub fn approve_data(user_id: i64) -> (r: String)
    ensures
        r@ == spec_approve_data(user_id),
{
    let mut m: Vec<char> = Vec::new();
    push_str(&mut m, "approve:");
    push_int(&mut m, user_id);
    let r = string_from_chars(m.as_slice());
    assert(r@ =~= spec_approve_data(user_id));
    r
}

/// The callback data of the reject button (`reject:<user_id>`).
pub fn reject_data(user_id: i64) -> (r: String)
    ensures
        r@ == spec_reject_data(user_id),
{
    let mut m: Vec<char> = Vec::new();
    push_str(&mut m, "reject:");
    push_int(&mut m, user_id);
    let r = string_from_chars(m.as_slice());
    assert(r@ =~= spec_reject_data(user_id));
    r
}

} // verus!
