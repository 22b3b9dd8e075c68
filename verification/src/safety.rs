//! The safety gate: the predicate that authorizes any destructive
//! operation, combining force-mode with a `PHX-`-prefixed confirmation
//! token. System-disk targeting is rejected earlier, at each action's
//! preflight; the safety gate guards legitimate destructive actions.

use vstd::prelude::*;

use crate::text::str_starts_with;

verus! {

/// The caller's authorization state for destructive steps.
#[derive(Clone, Debug)]
pub struct SafetyContext {
    pub force_mode: bool,
    pub confirmation_token: Option<String>,
}

/// What the safety gate decided: allow the write, or deny it with a reason.
#[derive(Clone, Debug)]
pub enum SafetyDecision {
    Allow,
    Deny(String),
}

/// A token authorizes a write exactly when it begins with `PHX-`.
pub open spec fn token_is_valid(token: Seq<char>) -> bool {
    token.len() >= 4 && token.subrange(0, 4) == "PHX-"@
}

/// The safety gate allows a write exactly when force-mode is on and a valid
/// confirmation token is present.
pub open spec fn gate_allows(ctx: SafetyContext) -> bool {
    &&& ctx.force_mode
    &&& ctx.confirmation_token is Some
    &&& token_is_valid(ctx.confirmation_token->0@)
}

impl SafetyDecision {
    /// Whether this decision permits the write.
    pub open spec fn is_allow(self) -> bool {
        self is Allow
    }
}

/// Decide whether a destructive write may proceed.
///
/// Evaluated in order, first deny wins: no force-mode, then missing
/// token, then malformed token; otherwise the write is allowed.
pub fn can_write_to_disk(ctx: &SafetyContext, is_system_disk: bool) -> (d: SafetyDecision)
    ensures
        d.is_allow() <==> gate_allows(*ctx),
        !ctx.force_mode ==> (d matches SafetyDecision::Deny(r)
            && r@ == "Denied: destructive ops require force-mode"@),
        ctx.force_mode && ctx.confirmation_token is None ==> (d matches SafetyDecision::Deny(r)
            && r@ == "Denied: confirmation token missing"@),
        ctx.force_mode && (ctx.confirmation_token matches Some(t)
            && !token_is_valid(t@)) ==> (d matches SafetyDecision::Deny(r)
            && r@ == "Denied: invalid confirmation token"@),
{
    if !ctx.force_mode {
        return SafetyDecision::Deny("Denied: destructive ops require force-mode".to_owned());
    }

    let token = match &ctx.confirmation_token {
        Some(token) => token,
        None => {
            return SafetyDecision::Deny("Denied: confirmation token missing".to_owned());
        },
    };
    if !str_starts_with(token.as_str(), "PHX-") {
        proof {
            reveal_strlit("PHX-");
        }
        return SafetyDecision::Deny("Denied: invalid confirmation token".to_owned());
    }

    proof {
        reveal_strlit("PHX-");
    }
    let _ = is_system_disk;
    SafetyDecision::Allow
}

/// Relies on `uuid::Uuid::new_v4` and its `Display` form: a fresh random
/// UUID rendered in the hyphenated form, which is always 36 characters.
/// The value itself is random, so nothing more is promised about it.
#[verifier::external_body]
pub(crate) fn fresh_uuid_string() -> (r: String)
    ensures
        r@.len() == 36,
{
    uuid::Uuid::new_v4().to_string()
}

/// Mint a confirmation token: `PHX-` followed by a fresh UUID.
///
/// Whatever the UUID half turned out to be, the result satisfies the
/// safety gate's token syntax and is 40 characters: the prefix and the
/// 36-character UUID.
pub fn require_confirmation_token() -> (t: String)
    ensures
        token_is_valid(t@),
        t@.len() == 40,
{
    let mut t = "PHX-".to_owned();
    let suffix = fresh_uuid_string();
    t.append(suffix.as_str());
    proof {
        reveal_strlit("PHX-");
        assert(t@.subrange(0, 4) =~= "PHX-"@);
    }
    t
}

} // verus!
