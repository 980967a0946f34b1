use vstd::prelude::*;
use crate::cancellation::{cancelled_below, descends_from, CancellationToken, CancellationTokens};

verus! {

/// Owns the process's cancellation tokens, with the root stop token that
/// long-running tasks observe, and knows whether an engine is registered to
/// run the graceful shutdown.
pub struct ApplicationManager {
    tokens: CancellationTokens,
    stop_token: CancellationToken,
    engine_registered: bool,
}

impl ApplicationManager {
    pub closed spec fn tokens_spec(&self) -> CancellationTokens {
        self.tokens
    }

    pub closed spec fn stop_token_spec(&self) -> CancellationToken {
        self.stop_token
    }

    pub closed spec fn engine_registered_spec(&self) -> bool {
        self.engine_registered
    }

    pub open spec fn wf(&self) -> bool {
        &&& self.tokens_spec().wf()
        &&& self.tokens_spec().contains(self.stop_token_spec())
    }

    /// A manager whose only token is the stop token, not cancelled, and with
    /// no engine registered.
    pub fn new() -> (r: Self)
        ensures
            r.wf(),
            r.tokens_spec().len_spec() == 1,
            r.stop_token_spec().index == 0,
            !r.tokens_spec().is_cancelled_spec(r.stop_token_spec()),
            !r.engine_registered_spec(),
    {
        let mut tokens = CancellationTokens::new();
        let stop_token = tokens.new_token();
        ApplicationManager { tokens, stop_token, engine_registered: false }
    }

    pub fn tokens(&self) -> (r: &CancellationTokens)
        ensures
            *r == self.tokens_spec(),
    {
        &self.tokens
    }

    pub fn stop_token(&self) -> (r: CancellationToken)
        ensures
            r == self.stop_token_spec(),
    {
        self.stop_token
    }

    pub fn is_engine_registered(&self) -> (r: bool)
        ensures
            r == self.engine_registered_spec(),
    {
        self.engine_registered
    }

    /// Registers the engine; only the first registration counts, and the
    /// result says whether this call was it.
    pub fn setup_engine_context(&mut self) -> (r: bool)
        ensures
            r == !old(self).engine_registered_spec(),
            final(self).engine_registered_spec(),
            final(self).tokens_spec() == old(self).tokens_spec(),
            final(self).stop_token_spec() == old(self).stop_token_spec(),
    {
        let first = !self.engine_registered;
        self.engine_registered = true;
        first
    }

    /// Drops the registration once the engine has shut down.
    pub fn unset_engine_context(&mut self)
        ensures
            !final(self).engine_registered_spec(),
            final(self).tokens_spec() == old(self).tokens_spec(),
            final(self).stop_token_spec() == old(self).stop_token_spec(),
    {
        self.engine_registered = false;
    }

    /// Asks for shutdown from anywhere, any number of times: the stop token
    /// is cancelled, and the result says whether an engine is registered to
    /// run its shutdown sequence. Without one this is no error.
    pub fn spawn_graceful_shutdown(&mut self) -> (r: bool)
        requires
            old(self).wf(),
        ensures
            final(self).wf(),
            r == old(self).engine_registered_spec(),
            final(self).engine_registered_spec() == old(self).engine_registered_spec(),
            final(self).stop_token_spec() == old(self).stop_token_spec(),
            final(self).tokens_spec().extends(&old(self).tokens_spec()),
            final(self).tokens_spec().len_spec() == old(self).tokens_spec().len_spec(),
            final(self).tokens_spec().is_cancelled_spec(final(self).stop_token_spec()),
            cancelled_below(&final(self).tokens_spec(), &old(self).tokens_spec(), old(self).stop_token_spec()),
    {
        let stop = self.stop_token;
        self.tokens.cancel(stop);
        self.engine_registered
    }

    /// A new root token, not cancelled.
    pub fn new_token(&mut self) -> (t: CancellationToken)
        requires
            old(self).wf(),
        ensures
            final(self).wf(),
            t.index == old(self).tokens_spec().len_spec(),
            final(self).tokens_spec().extends(&old(self).tokens_spec()),
            final(self).tokens_spec().flags() == old(self).tokens_spec().flags().push(false),
            final(self).engine_registered_spec() == old(self).engine_registered_spec(),
            final(self).stop_token_spec() == old(self).stop_token_spec(),
    {
        self.tokens.new_token()
    }

    /// A child of `parent`, cancelled exactly when the parent is.
    pub fn child_token(&mut self, parent: CancellationToken) -> (t: CancellationToken)
        requires
            old(self).wf(),
            old(self).tokens_spec().contains(parent),
        ensures
            final(self).wf(),
            t.index == old(self).tokens_spec().len_spec(),
            final(self).tokens_spec().extends(&old(self).tokens_spec()),
            final(self).tokens_spec().flags() == old(self).tokens_spec().flags().push(
                old(self).tokens_spec().is_cancelled_spec(parent),
            ),
            final(self).engine_registered_spec() == old(self).engine_registered_spec(),
            final(self).stop_token_spec() == old(self).stop_token_spec(),
    {
        self.tokens.child(parent)
    }

    /// Cancels `t` and the tokens below it, as [`CancellationTokens::cancel`].
    pub fn cancel(&mut self, t: CancellationToken)
        requires
            old(self).wf(),
            old(self).tokens_spec().contains(t),
        ensures
            final(self).wf(),
            final(self).tokens_spec().len_spec() == old(self).tokens_spec().len_spec(),
            final(self).tokens_spec().extends(&old(self).tokens_spec()),
            final(self).tokens_spec().is_cancelled_spec(t),
            final(self).tokens_spec().parents_spec() == old(self).tokens_spec().parents_spec(),
            forall|i: int|
                0 <= i < old(self).tokens_spec().len_spec() ==> #[trigger] final(self).tokens_spec().flags()[i]
                    == (old(self).tokens_spec().flags()[i] || descends_from(
                    old(self).tokens_spec().parents_spec(),
                    i,
                    t.index as int,
                )),
            final(self).engine_registered_spec() == old(self).engine_registered_spec(),
            final(self).stop_token_spec() == old(self).stop_token_spec(),
    {
        self.tokens.cancel(t)
    }
}

} // verus!
