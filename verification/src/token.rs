//! Cancellation tokens: what the library knows of [`tokio_util::sync::CancellationToken`].

use vstd::prelude::*;

verus! {

/// `tokio_util::sync::CancellationToken`, of which contracts speak through [`token_view`].
#[verifier::external_type_specification]
#[verifier::external_body]
pub struct ExCancellationToken(tokio_util::sync::CancellationToken);

/// What is known of a handle to a cancellation token.
pub struct TokenView {
    /// Stands for the token: the handles that are clones of one another share it.
    pub node: int,
    /// Stands for the token that this one was derived from as a child, if it was.
    pub parent: Option<int>,
    /// The token is known to be cancelled: `cancel` was called through this handle, or the handle
    /// was made from one of which that was known. A token may also be cancelled otherwise, through
    /// another handle or through its parent.
    pub cancelled: bool,
}

impl TokenView {
    /// The token is cancelled because `other` is: it is the same token, or a child of it.
    pub open spec fn cancelled_by(self, other: TokenView) -> bool {
        other.cancelled && (self.node == other.node || self.parent == Some(other.node))
    }
}

/// What is known of a handle.
pub uninterp spec fn token_view(t: tokio_util::sync::CancellationToken) -> TokenView;

/// `CancellationToken::new` makes a token of its own, not cancelled.
pub assume_specification[ tokio_util::sync::CancellationToken::new ]() -> (r:
    tokio_util::sync::CancellationToken)
    ensures
        token_view(r).parent is None,
        !token_view(r).cancelled,
;

/// `Clone` of `CancellationToken` gives another handle to the same token.
pub assume_specification[ <tokio_util::sync::CancellationToken as Clone>::clone ](
    t: &tokio_util::sync::CancellationToken,
) -> (r: tokio_util::sync::CancellationToken)
    ensures
        token_view(r) == token_view(*t),
;

/// `CancellationToken::child_token` derives a token that is cancelled with this one: at once, if
/// this one is cancelled already.
pub assume_specification[ tokio_util::sync::CancellationToken::child_token ](
    t: &tokio_util::sync::CancellationToken,
) -> (r: tokio_util::sync::CancellationToken)
    ensures
        token_view(r).parent == Some(token_view(*t).node),
        token_view(r).cancelled == token_view(*t).cancelled,
;

/// `CancellationToken::cancel` cancels the token and the children that were derived from it.
#[verifier::external_body]
fn cancel(t: &mut tokio_util::sync::CancellationToken)
    ensures
        token_view(*final(t)) == (TokenView { cancelled: true, ..token_view(*old(t)) }),
{
    t.cancel()
}

/// A token that is kept in one place and of which handles are given out.
///
/// What is done through a handle does not show here, but that there is one does: a token of which a
/// handle was given out is known to be the same token as before, but not the same value. A caller
/// whose contract says that the value is the same gave no handle out, and so cancelled nothing
/// through one.
#[derive(Debug)]
pub(crate) struct SharedToken {
    token: tokio_util::sync::CancellationToken,
}

impl SharedToken {
    /// The handle that is kept.
    pub(crate) closed spec fn kept(self) -> tokio_util::sync::CancellationToken {
        self.token
    }

    /// Keeps a handle.
    pub(crate) fn of(token: tokio_util::sync::CancellationToken) -> (r: Self)
        ensures
            r.kept() == token,
    {
        Self { token }
    }

    /// Gives a handle to the token out.
    pub(crate) fn handle(&mut self) -> (r: tokio_util::sync::CancellationToken)
        ensures
            token_view(r) == token_view(old(self).kept()),
            token_view(final(self).kept()) == token_view(old(self).kept()),
    {
        self.token.clone()
    }

    /// Derives a token that is cancelled with this one.
    pub(crate) fn child(&self) -> (r: tokio_util::sync::CancellationToken)
        ensures
            token_view(r).parent == Some(token_view(self.kept()).node),
            token_view(r).cancelled == token_view(self.kept()).cancelled,
    {
        self.token.child_token()
    }

    /// Cancels the token.
    pub(crate) fn cancel(&mut self)
        ensures
            token_view(final(self).kept()) == (TokenView {
                cancelled: true,
                ..token_view(old(self).kept())
            }),
    {
        cancel(&mut self.token);
    }
}

} // verus!
