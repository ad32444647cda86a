//! Clash configuration delivery: the device token is written into the
//! `password` of every hysteria2 node of the administrator's template.

use crate::text::{chars_of, string_from_chars};
use vstd::prelude::*;

verus! {

/// The placeholder that the template carries where a node password goes.
pub const TOKEN_PLACEHOLDER: &'static str = "__NODE_TOKEN__";

/// The settings key under which the template is stored.
pub const SETTING_KEY: &'static str = "clash_template";

/// The template served while the administrator has stored none: one example
/// hysteria2 node whose password is the placeholder.
pub const DEFAULT_TEMPLATE: &'static str = r#"# Clash Verge 订阅模板（请在后台「订阅模板」中编辑为真实节点）
# 节点 password 处填占位符（见后台提示），下发时会被替换为用户设备 Token。
mixed-port: 7890
allow-lan: false
mode: rule
log-level: info

proxies:
  - name: "Hysteria2-示例"
    type: hysteria2
    server: example.com
    port: 443
    password: __NODE_TOKEN__
    sni: example.com
    skip-cert-verify: false

proxy-groups:
  - name: "PROXY"
    type: select
    proxies:
      - "Hysteria2-示例"

rules:
  - MATCH,PROXY
"#;

/// Whether `p` occurs in `s` at position `i`.
pub open spec fn occurs_at(s: Seq<char>, p: Seq<char>, i: int) -> bool {
    0 <= i && i + p.len() <= s.len() && s.subrange(i, i + p.len()) == p
}

/// Whether `p` occurs anywhere in `s` (`str::contains`).
pub open spec fn contains_seq(s: Seq<char>, p: Seq<char>) -> bool {
    exists|i: int| occurs_at(s, p, i)
}

/// `str::replace`: a left-to-right scan that replaces each non-overlapping
/// occurrence of the non-empty pattern `p` by `r`.
pub open spec fn replace_all(s: Seq<char>, p: Seq<char>, r: Seq<char>) -> Seq<char>
    decreases s.len(),
{
    if p.len() == 0 || s.len() < p.len() {
        s
    } else if s.subrange(0, p.len() as int) == p {
        r + replace_all(s.subrange(p.len() as int, s.len() as int), p, r)
    } else {
        seq![s[0]] + replace_all(s.drop_first(), p, r)
    }
}

/// The template with every placeholder replaced by `token`.
pub open spec fn spec_render(template: Seq<char>, token: Seq<char>) -> Seq<char> {
    replace_all(template, TOKEN_PLACEHOLDER@, token)
}

proof fn lemma_replace_step_match(s: Seq<char>, p: Seq<char>, r: Seq<char>, i: int)
    requires
        p.len() > 0,
        occurs_at(s, p, i),
    ensures
        replace_all(s.subrange(i, s.len() as int), p, r) == r + replace_all(
            s.subrange(i + p.len(), s.len() as int),
            p,
            r,
        ),
{
    let t = s.subrange(i, s.len() as int);
    assert(t.subrange(0, p.len() as int) =~= s.subrange(i, i + p.len()));
    assert(t.subrange(p.len() as int, t.len() as int) =~= s.subrange(i + p.len(), s.len() as int));
}

proof fn lemma_replace_step_skip(s: Seq<char>, p: Seq<char>, r: Seq<char>, i: int)
    requires
        p.len() > 0,
        0 <= i < s.len(),
        !occurs_at(s, p, i),
    ensures
        replace_all(s.subrange(i, s.len() as int), p, r) == seq![s[i]] + replace_all(
            s.subrange(i + 1, s.len() as int),
            p,
            r,
        ),
{
    let t = s.subrange(i, s.len() as int);
    assert(t.drop_first() =~= s.subrange(i + 1, s.len() as int));
    if t.len() >= p.len() {
        assert(t.subrange(0, p.len() as int) =~= s.subrange(i, i + p.len()));
    } else {
        // Too short for a match: the scan keeps every remaining character.
        assert(replace_all(t, p, r) == t);
        lemma_replace_short(t.drop_first(), p, r);
        assert(t =~= seq![s[i]] + t.drop_first());
    }
}

proof fn lemma_replace_short(s: Seq<char>, p: Seq<char>, r: Seq<char>)
    requires
        s.len() < p.len(),
    ensures
        replace_all(s, p, r) == s,
{
}

/// Whether `p` occurs in `cs` at position `i`.
fn matches_at(cs: &Vec<char>, p: &Vec<char>, i: usize) -> (b: bool)
    requires
        i <= cs.len(),
    ensures
        b == occurs_at(cs@, p@, i as int),
{
    if cs.len() - i < p.len() {
        return false;
    }
    let mut k: usize = 0;
    while k < p.len()
        invariant
            i + p.len() <= cs.len(),
            k <= p.len(),
            forall|j: int| 0 <= j < k ==> cs@[i + j] == p@[j],
        decreases p.len() - k,
    {
        if cs[i + k] != p[k] {
            assert(cs@.subrange(i as int, i + p.len())[k as int] != p@[k as int]);
            return false;
        }
        k = k + 1;
    }
    assert(cs@.subrange(i as int, i + p.len()) =~= p@);
    true
}

/// Replaces every occurrence of the non-empty `pattern` in `s` by `with`.
pub fn replace_str(s: &str, pattern: &str, with: &str) -> (r: String)
    requires
        pattern@.len() > 0,
    ensures
        r@ == replace_all(s@, pattern@, with@),
{
    let cs = chars_of(s);
    let p = chars_of(pattern);
    let w = chars_of(with);
    let n = cs.len();
    let mut out: Vec<char> = Vec::new();
    let mut i: usize = 0;
    assert(s@.subrange(0, n as int) =~= s@);
    while i < n
        invariant
            cs@ == s@,
            p@ == pattern@,
            w@ == with@,
            p.len() > 0,
            n == cs.len(),
            i <= n,
            out@ + replace_all(s@.subrange(i as int, n as int), p@, w@) == replace_all(s@, p@, w@),
        decreases n - i,
    {
        if matches_at(&cs, &p, i) {
            proof {
                lemma_replace_step_match(s@, p@, w@, i as int);
            }
            let ghost before = out@;
            crate::text::push_chars(&mut out, w.as_slice());
            assert(out@ + replace_all(s@.subrange(i + p.len(), n as int), p@, w@) =~= before + (w@
                + replace_all(s@.subrange(i + p.len(), n as int), p@, w@)));
            i = i + p.len();
        } else {
            proof {
                lemma_replace_step_skip(s@, p@, w@, i as int);
            }
            let ghost before = out@;
            out.push(cs[i]);
            assert(out@ + replace_all(s@.subrange(i + 1, n as int), p@, w@) =~= before + (seq![
                s@[i as int],
            ] + replace_all(s@.subrange(i + 1, n as int), p@, w@)));
            i = i + 1;
        }
    }
    assert(s@.subrange(n as int, n as int) =~= Seq::<char>::empty());
    assert(out@ =~= replace_all(s@, p@, w@));
    string_from_chars(out.as_slice())
}

/// Renders the configuration for `token`: `template.replace(TOKEN_PLACEHOLDER, token)`.
pub fn render(template: &str, token: &str) -> (r: String)
    ensures
        r@ == spec_render(template@, token@),
{
    proof {
        reveal_strlit("__NODE_TOKEN__");
    }
    replace_str(template, TOKEN_PLACEHOLDER, token)
}

/// The template in force: the stored one, or `DEFAULT_TEMPLATE` when none is stored.
pub fn template_or_default(stored: Option<String>) -> (r: String)
    ensures
        stored matches Some(t) ==> r@ == t@,
        stored is None ==> r@ == DEFAULT_TEMPLATE@,
{
    match stored {
        Some(t) => t,
        None => DEFAULT_TEMPLATE.to_string(),
    }
}


proof fn lemma_replace_absent(s: Seq<char>, p: Seq<char>, r: Seq<char>)
    requires
        !contains_seq(s, p),
    ensures
        replace_all(s, p, r) == s,
    decreases s.len(),
{
    if p.len() == 0 || s.len() < p.len() {
    } else {
        assert(!occurs_at(s, p, 0));
        let t = s.drop_first();
        assert forall|i: int| !occurs_at(t, p, i) by {
            if occurs_at(t, p, i) {
                assert(s.subrange(i + 1, i + 1 + p.len()) =~= t.subrange(i, i + p.len()));
                assert(occurs_at(s, p, i + 1));
            }
        }
        lemma_replace_absent(t, p, r);
        assert(seq![s[0]] + t =~= s);
    }
}

/// A template without the placeholder is served as it is, whatever the token.
pub proof fn law_render_without_placeholder(template: Seq<char>, token: Seq<char>)
    requires
        !contains_seq(template, TOKEN_PLACEHOLDER@),
    ensures
        spec_render(template, token) == template,
{
    lemma_replace_absent(template, TOKEN_PLACEHOLDER@, token);
}


/// No character of `r` occurs in `p`.
pub open spec fn disjoint_chars(r: Seq<char>, p: Seq<char>) -> bool {
    forall|i: int| 0 <= i < r.len() ==> !p.contains(#[trigger] r[i])
}

/// A prefix of the output made only of pattern characters is copied from the input.
proof fn lemma_replace_prefix_from_input(s: Seq<char>, p: Seq<char>, r: Seq<char>, k: int)
    requires
        p.len() > 0,
        r.len() > 0,
        disjoint_chars(r, p),
        0 <= k <= replace_all(s, p, r).len(),
        forall|i: int| 0 <= i < k ==> p.contains(#[trigger] replace_all(s, p, r)[i]),
    ensures
        k <= s.len(),
        replace_all(s, p, r).subrange(0, k) == s.subrange(0, k),
    decreases s.len(),
{
    let out = replace_all(s, p, r);
    if k == 0 {
        assert(out.subrange(0, 0) =~= s.subrange(0, 0));
    } else if s.len() < p.len() {
    } else if s.subrange(0, p.len() as int) == p {
        assert(out[0] == r[0]);
        assert(p.contains(out[0]));
        assert(!p.contains(r[0]));
    } else {
        let t = s.drop_first();
        let x = replace_all(t, p, r);
        assert(out == seq![s[0]] + x);
        assert forall|i: int| 0 <= i < k - 1 implies p.contains(#[trigger] x[i]) by {
            assert(x[i] == out[i + 1]);
        }
        lemma_replace_prefix_from_input(t, p, r, k - 1);
        assert(out.subrange(0, k) =~= seq![s[0]] + x.subrange(0, k - 1));
        assert(s.subrange(0, k) =~= seq![s[0]] + t.subrange(0, k - 1));
    }
}

proof fn lemma_replace_leaves_no_pattern(s: Seq<char>, p: Seq<char>, r: Seq<char>)
    requires
        p.len() > 0,
        r.len() > 0,
        disjoint_chars(r, p),
    ensures
        !contains_seq(replace_all(s, p, r), p),
    decreases s.len(),
{
    let out = replace_all(s, p, r);
    if s.len() < p.len() {
        assert forall|i: int| !occurs_at(out, p, i) by {}
    } else if s.subrange(0, p.len() as int) == p {
        let rest = s.subrange(p.len() as int, s.len() as int);
        let x = replace_all(rest, p, r);
        lemma_replace_leaves_no_pattern(rest, p, r);
        assert(out == r + x);
        assert forall|i: int| !occurs_at(out, p, i) by {
            if occurs_at(out, p, i) {
                if i < r.len() {
                    assert(out.subrange(i, i + p.len())[0] == p[0]);
                    assert(out[i] == r[i]);
                    assert(p.contains(r[i]));
                } else {
                    assert(x.subrange(i - r.len(), i - r.len() + p.len()) =~= out.subrange(
                        i,
                        i + p.len(),
                    ));
                    assert(occurs_at(x, p, i - r.len()));
                }
            }
        }
    } else {
        let t = s.drop_first();
        let x = replace_all(t, p, r);
        lemma_replace_leaves_no_pattern(t, p, r);
        assert(out == seq![s[0]] + x);
        assert forall|i: int| !occurs_at(out, p, i) by {
            if occurs_at(out, p, i) {
                if i == 0 {
                    assert forall|j: int| 0 <= j < p.len() implies p.contains(#[trigger] out[j]) by {
                        assert(out[j] == out.subrange(0, p.len() as int)[j]);
                        assert(p[j] == out[j]);
                    }
                    lemma_replace_prefix_from_input(s, p, r, p.len() as int);
                } else {
                    assert(x.subrange(i - 1, i - 1 + p.len()) =~= out.subrange(i, i + p.len()));
                    assert(occurs_at(x, p, i - 1));
                }
            }
        }
    }
}

/// Rendering with a non-empty token that shares no character with the
/// placeholder (such as a hex device token) leaves no placeholder behind.
pub proof fn law_render_leaves_no_placeholder(template: Seq<char>, token: Seq<char>)
    requires
        token.len() > 0,
        disjoint_chars(token, TOKEN_PLACEHOLDER@),
    ensures
        !contains_seq(spec_render(template, token), TOKEN_PLACEHOLDER@),
{
    reveal_strlit("__NODE_TOKEN__");
    lemma_replace_leaves_no_pattern(template, TOKEN_PLACEHOLDER@, token);
}


/// A device token (64 lowercase hex digits, as `gen_token` makes) fills every
/// placeholder: none is left in the rendered configuration.
pub proof fn law_render_with_device_token(template: Seq<char>, token: Seq<char>)
    requires
        token.len() == 64,
        crate::auth::is_lower_hex(token),
    ensures
        !contains_seq(spec_render(template, token), TOKEN_PLACEHOLDER@),
{
    reveal_strlit("__NODE_TOKEN__");
    assert forall|i: int| 0 <= i < token.len() implies !TOKEN_PLACEHOLDER@.contains(
        #[trigger] token[i],
    ) by {
        if TOKEN_PLACEHOLDER@.contains(token[i]) {
            let j = choose|j: int| 0 <= j < TOKEN_PLACEHOLDER@.len() && TOKEN_PLACEHOLDER@[j] == token[i];
            assert('0' <= token[i] <= '9' || 'a' <= token[i] <= 'f');
        }
    }
    law_render_leaves_no_placeholder(template, token);
}

} // verus!
