//! Cancellation tokens, from `tokio_util`.

use tokio_util::sync::CancellationToken;
use vstd::prelude::*;

verus! {

/// `tokio_util::sync::CancellationToken`, which this crate never looks into.
///
/// A value stands for the shared cancellation state that it refers to, so two
/// equal tokens are two handles to one state. Whether that state is cancelled
/// can change at any time from any thread; contracts say which token was asked,
/// not what it answers, and which token was cancelled.
#[verifier::external_type_specification]
#[verifier::external_body]
pub struct ExCancellationToken(CancellationToken);

/// `CancellationToken::new`: a token with a state of its own. Nothing is
/// claimed of it.
pub assume_specification[ CancellationToken::new ]() -> CancellationToken;

/// Whether `token` is one that was made with a state of its own.
pub open spec fn is_new(token: CancellationToken) -> bool {
    call_ensures(CancellationToken::new, (), token)
}

/// `CancellationToken::clone`: a second handle to the state of the token.
pub assume_specification[ <CancellationToken as Clone>::clone ](
    token: &CancellationToken,
) -> (r: CancellationToken)
    ensures
        r == *token,
;

/// The token that a token was derived from.
pub uninterp spec fn parent_of(token: CancellationToken) -> CancellationToken;

/// `CancellationToken::child_token`: a token derived from this one, which is
/// cancelled with it. That it is cancelled is left unsaid.
pub assume_specification[ CancellationToken::child_token ](
    token: &CancellationToken,
) -> (r: CancellationToken)
    ensures
        parent_of(r) == *token,
;

/// `CancellationToken::cancel`: cancels the token and the tokens derived from
/// it. The effect on the shared state is left unsaid.
pub assume_specification[ CancellationToken::cancel ](token: &CancellationToken);

/// Whether cancelling `token` has come to its end, which is known of a token only
/// once it has been cancelled.
pub open spec fn is_told(token: CancellationToken) -> bool {
    call_ensures(CancellationToken::cancel, (&token,), ())
}

/// `CancellationToken::is_cancelled`: the state at the time of the call, of
/// which nothing is known beforehand.
pub assume_specification[ CancellationToken::is_cancelled ](token: &CancellationToken) -> bool;

/// Whether `cancelled` is what `token` can answer to the question whether it is
/// cancelled.
pub open spec fn answers(token: CancellationToken, cancelled: bool) -> bool {
    call_ensures(CancellationToken::is_cancelled, (&token,), cancelled)
}

} // verus!
