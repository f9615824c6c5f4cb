//! What replies and error messages give away about an account.
use crate::text::{contains, to_lowercase};
use vstd::prelude::*;

verus! {

/// A reply, in lower case, says that the account is banned.
pub open spec fn tells_ban(lower: Seq<char>) -> bool {
    ||| crate::text::occurs(lower, "deactivated"@)
    ||| crate::text::occurs(lower, "banned"@)
    ||| crate::text::occurs(lower, "suspended"@)
    ||| crate::text::occurs(lower, "account_deactivated"@)
}

/// Whether a reply, in lower case, says that the account is banned.
pub fn is_ban_reply(lower: &str) -> (b: bool)
    ensures
        b == tells_ban(lower@),
{
    contains(lower, "deactivated") || contains(lower, "banned") || contains(lower, "suspended")
        || contains(lower, "account_deactivated")
}

/// The message of a failed refresh, in lower case, says that the account was logged out.
pub open spec fn tells_logout(lower: Seq<char>) -> bool {
    ||| crate::text::occurs(lower, "logged out"@)
    ||| crate::text::occurs(lower, "signed in to another account"@)
    ||| crate::text::occurs(lower, "invalid_grant"@)
}

/// Whether the message of a failed refresh, in lower case, says that the account was logged out.
pub fn is_logout_reply(lower: &str) -> (b: bool)
    ensures
        b == tells_logout(lower@),
{
    contains(lower, "logged out") || contains(lower, "signed in to another account") || contains(
        lower,
        "invalid_grant",
    )
}

/// The reason of a failed refresh, in lower case, says that the refresh token is of no more use.
pub open spec fn tells_revoked(lower: Seq<char>) -> bool {
    ||| crate::text::occurs(lower, "refresh_token_reused"@)
    ||| crate::text::occurs(lower, "refresh_token_invalidated"@)
    ||| crate::text::occurs(lower, "refresh_token_expired"@)
    ||| crate::text::occurs(lower, "deactivated"@)
    ||| crate::text::occurs(lower, "unauthorized"@)
    ||| crate::text::occurs(lower, "invalid_grant"@)
}

/// Whether a reason, in lower case, says that the refresh token is of no more use.
pub fn is_revoked_reply(lower: &str) -> (b: bool)
    ensures
        b == tells_revoked(lower@),
{
    contains(lower, "refresh_token_reused") || contains(lower, "refresh_token_invalidated")
        || contains(lower, "refresh_token_expired") || contains(lower, "deactivated") || contains(
        lower,
        "unauthorized",
    ) || contains(lower, "invalid_grant")
}

/// The reason of a failed refresh, in lower case, says that somebody logged out.
pub open spec fn tells_signed_out(lower: Seq<char>) -> bool {
    ||| crate::text::occurs(lower, "logged out"@)
    ||| crate::text::occurs(lower, "signed in to another account"@)
}

/// Whether a reason, in lower case, says that somebody logged out.
pub fn is_signed_out_reply(lower: &str) -> (b: bool)
    ensures
        b == tells_signed_out(lower@),
{
    contains(lower, "logged out") || contains(lower, "signed in to another account")
}

/// Whether the reason of a failed refresh says that the refresh token is of no more use.
pub fn is_reused_or_revoked_error(reason: &str) -> (b: bool)
    ensures
        b == tells_revoked(crate::text::lowered(reason@)),
{
    let lower: String = to_lowercase(reason);
    is_revoked_reply(lower.as_str())
}

/// Whether the reason of a failed refresh says that somebody logged out.
pub fn is_logged_out_error(reason: &str) -> (b: bool)
    ensures
        b == tells_signed_out(crate::text::lowered(reason@)),
{
    let lower: String = to_lowercase(reason);
    is_signed_out_reply(lower.as_str())
}

/// What the outcome of a quota query says about the account.
#[derive(Debug, Clone, Copy, PartialEq, Eq, Structural)]
pub enum QuotaTrouble {
    Banned,
    TokenInvalid,
    LoggedOut,
    Other,
}

/// What the message of a failed quota query says about the account.
pub open spec fn trouble_in(message: Seq<char>) -> QuotaTrouble {
    if crate::text::occurs(message, "ACCOUNT_BANNED"@) {
        QuotaTrouble::Banned
    } else if crate::text::occurs(message, "TOKEN_INVALID"@) {
        QuotaTrouble::TokenInvalid
    } else if crate::text::occurs(message, "ACCOUNT_LOGGED_OUT"@) {
        QuotaTrouble::LoggedOut
    } else {
        QuotaTrouble::Other
    }
}

/// What the message of a failed quota query says about the account.
pub fn quota_trouble(message: &str) -> (trouble: QuotaTrouble)
    ensures
        trouble == trouble_in(message@),
{
    if contains(message, "ACCOUNT_BANNED") {
        QuotaTrouble::Banned
    } else if contains(message, "TOKEN_INVALID") {
        QuotaTrouble::TokenInvalid
    } else if contains(message, "ACCOUNT_LOGGED_OUT") {
        QuotaTrouble::LoggedOut
    } else {
        QuotaTrouble::Other
    }
}

/// A reply that names an account as deactivated bans it, with or without the word `account`.
pub proof fn deactivation_is_a_ban(lower: Seq<char>)
    requires
        crate::text::occurs(lower, "account_deactivated"@),
    ensures
        crate::text::occurs(lower, "deactivated"@),
{
    reveal_strlit("account_deactivated");
    reveal_strlit("deactivated");
    let at = choose|at: int| crate::text::stands_at(lower, "account_deactivated"@, at);
    let part = "account_deactivated"@;
    let tail = "deactivated"@;
    assert(tail =~= part.subrange(8, 19));
    assert(lower.subrange(at + 8, at + 19) =~= lower.subrange(at, at + 19).subrange(8, 19));
    assert(crate::text::stands_at(lower, tail, at + 8));
}

/// A reply speaks of a ban exactly where it has one of three words in it.
pub proof fn words_for_a_ban(lower: Seq<char>)
    ensures
        tells_ban(lower) <==> crate::text::occurs(lower, "deactivated"@) || crate::text::occurs(
            lower,
            "banned"@,
        ) || crate::text::occurs(lower, "suspended"@),
{
    if crate::text::occurs(lower, "account_deactivated"@) {
        deactivation_is_a_ban(lower);
    }
}

/// The message of a failed refresh speaks of a sign-out by saying so, or by the code of a grant that
/// does not hold any more; the reason of a failed renewal does so only by saying it.
pub proof fn words_for_a_sign_out(lower: Seq<char>)
    ensures
        tells_signed_out(lower) <==> crate::text::occurs(lower, "logged out"@)
            || crate::text::occurs(lower, "signed in to another account"@),
        tells_logout(lower) <==> tells_signed_out(lower) || crate::text::occurs(
            lower,
            "invalid_grant"@,
        ),
{
}

/// A refresh token is of no more use where the reason of a failed refresh names one of these.
pub proof fn words_for_a_dead_token(lower: Seq<char>)
    ensures
        crate::text::occurs(lower, "refresh_token_reused"@) ==> tells_revoked(lower),
        crate::text::occurs(lower, "refresh_token_invalidated"@) ==> tells_revoked(lower),
        crate::text::occurs(lower, "refresh_token_expired"@) ==> tells_revoked(lower),
        crate::text::occurs(lower, "deactivated"@) ==> tells_revoked(lower),
        crate::text::occurs(lower, "unauthorized"@) ==> tells_revoked(lower),
        crate::text::occurs(lower, "invalid_grant"@) ==> tells_revoked(lower),
        tells_revoked(lower) ==> crate::text::occurs(lower, "refresh_token_reused"@)
            || crate::text::occurs(lower, "refresh_token_invalidated"@) || crate::text::occurs(
            lower,
            "refresh_token_expired"@,
        ) || crate::text::occurs(lower, "deactivated"@) || crate::text::occurs(
            lower,
            "unauthorized"@,
        ) || crate::text::occurs(lower, "invalid_grant"@),
{
}

/// The trouble of a failed query is told by the word that its message has in it; a ban is told first,
/// then an invalid token, then a sign-out.
pub proof fn troubles_are_told_by_their_words(message: Seq<char>)
    ensures
        trouble_in(message) == QuotaTrouble::Banned <==> crate::text::occurs(
            message,
            "ACCOUNT_BANNED"@,
        ),
        trouble_in(message) == QuotaTrouble::TokenInvalid <==> crate::text::occurs(
            message,
            "TOKEN_INVALID"@,
        ) && !crate::text::occurs(message, "ACCOUNT_BANNED"@),
        trouble_in(message) == QuotaTrouble::LoggedOut <==> crate::text::occurs(
            message,
            "ACCOUNT_LOGGED_OUT"@,
        ) && !crate::text::occurs(message, "ACCOUNT_BANNED"@) && !crate::text::occurs(
            message,
            "TOKEN_INVALID"@,
        ),
{
}

} // verus!
