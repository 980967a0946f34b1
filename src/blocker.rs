use vstd::prelude::*;
use crate::account::ExchangeAccountId;

verus! {

/// Why an exchange is suspended.
#[derive(Clone, Copy, Debug, PartialEq, Eq, Structural)]
pub enum BlockReason {
    GracefulShutdown,
    RateLimited,
    ExchangeUnavailable,
}

/// `Manual` blocks are lifted only by a `Manual` unblock; `Automatic` ones by either.
#[derive(Clone, Copy, Debug, PartialEq, Eq, Structural)]
pub enum BlockType {
    Manual,
    Automatic,
}

/// What a waiter on an exchange learns when it looks at the blocker.
#[derive(Clone, Copy, Debug, PartialEq, Eq, Structural)]
pub enum WaitOutcome {
    Unblocked,
    Cancelled,
    Pending,
}

pub struct BlockEntry {
    pub account: ExchangeAccountId,
    pub reason: BlockReason,
    pub block_type: BlockType,
}

pub type AccountView = (Seq<char>, u8);

pub type EntryView = (AccountView, BlockReason, BlockType);

impl View for BlockEntry {
    type V = EntryView;

    open spec fn view(&self) -> EntryView {
        (self.account@, self.reason, self.block_type)
    }
}

/// The set of active `(exchange, reason) -> type` suspensions.
pub struct ExchangeBlocker {
    entries: Vec<BlockEntry>,
    stopped: bool,
}

/// An `Automatic` unblock does not lift a `Manual` block.
pub open spec fn unblock_lifts(entry_type: BlockType, unblock_type: BlockType) -> bool {
    entry_type == BlockType::Automatic || unblock_type == BlockType::Manual
}

impl ExchangeBlocker {
    pub closed spec fn entries_view(&self) -> Seq<EntryView> {
        self.entries@.map_values(|e: BlockEntry| e@)
    }

    pub closed spec fn is_stopped(&self) -> bool {
        self.stopped
    }

    /// `id` is blocked for `reason` with type `t`.
    pub open spec fn has_block(&self, id: AccountView, reason: BlockReason, t: BlockType) -> bool {
        self.entries_view().contains((id, reason, t))
    }

    pub open spec fn is_blocked_spec(&self, id: AccountView) -> bool {
        exists|reason: BlockReason, t: BlockType| #[trigger] self.has_block(id, reason, t)
    }

    /// At most one entry for each `(exchange, reason)`.
    pub open spec fn wf(&self) -> bool {
        forall|i: int, j: int|
            0 <= i < self.entries_view().len() && 0 <= j < self.entries_view().len() && i != j
                ==> (#[trigger] self.entries_view()[i]).0 != (#[trigger] self.entries_view()[j]).0
                || self.entries_view()[i].1 != self.entries_view()[j].1
    }

    pub fn new() -> (r: Self)
        ensures
            r.wf(),
            !r.is_stopped(),
            forall|id: AccountView| !r.is_blocked_spec(id),
    {
        let r = ExchangeBlocker { entries: Vec::new(), stopped: false };
        assert(r.entries_view().len() == 0);
        r
    }

    /// Index of the entry for `(id, reason)`, if any.
    fn find(&self, id: &ExchangeAccountId, reason: BlockReason) -> (r: Option<usize>)
        requires
            self.wf(),
        ensures
            match r {
                Some(i) => i < self.entries_view().len() && self.entries_view()[i as int].0 == id@
                    && self.entries_view()[i as int].1 == reason,
                None => forall|i: int|
                    0 <= i < self.entries_view().len() ==> !((#[trigger] self.entries_view()[i]).0
                        == id@ && self.entries_view()[i].1 == reason),
            },
    {
        let mut i: usize = 0;
        while i < self.entries.len()
            invariant
                0 <= i <= self.entries@.len(),
                self.entries_view().len() == self.entries@.len(),
                forall|k: int|
                    0 <= k < i ==> !((#[trigger] self.entries_view()[k]).0 == id@
                        && self.entries_view()[k].1 == reason),
            decreases self.entries@.len() - i,
        {
            if self.entries[i].reason == reason && self.entries[i].account.same_as(id) {
                return Some(i);
            }
            i = i + 1;
        }
        None
    }

    /// Sets the block of `id` for `reason` to type `t`; ignored once the
    /// blocker is stopped.
    pub fn block(&mut self, id: &ExchangeAccountId, reason: BlockReason, t: BlockType)
        requires
            old(self).wf(),
        ensures
            final(self).wf(),
            final(self).is_stopped() == old(self).is_stopped(),
            old(self).is_stopped() ==> final(self).entries_view() == old(self).entries_view(),
            !old(self).is_stopped() ==> forall|a: AccountView, r: BlockReason, bt: BlockType|
                #[trigger] final(self).has_block(a, r, bt) == if a == id@ && r == reason {
                    bt == t
                } else {
                    old(self).has_block(a, r, bt)
                },
    {
        if self.stopped {
            return;
        }
        let ghost before = self.entries_view();
        match self.find(id, reason) {
            Some(i) => {
                let e = BlockEntry { account: id.duplicate(), reason, block_type: t };
                self.entries.set(i, e);
                assert(self.entries_view() =~= before.update(i as int, (id@, reason, t)));
                assert forall|a: AccountView, r: BlockReason, bt: BlockType|
                    #[trigger] self.has_block(a, r, bt) == if a == id@ && r == reason {
                        bt == t
                    } else {
                        before.contains((a, r, bt))
                    } by {
                    if self.has_block(a, r, bt) {
                        let k = choose|k: int| 0 <= k < self.entries_view().len() && self.entries_view()[k] == (a, r, bt);
                        if k != i {
                            assert(before[k] == (a, r, bt));
                        }
                    }
                    if !(a == id@ && r == reason) && before.contains((a, r, bt)) {
                        let k = choose|k: int| 0 <= k < before.len() && before[k] == (a, r, bt);
                        assert(self.entries_view()[k] == (a, r, bt));
                    }
                    if a == id@ && r == reason && bt == t {
                        assert(self.entries_view()[i as int] == (a, r, bt));
                    }
                }
            },
            None => {
                let e = BlockEntry { account: id.duplicate(), reason, block_type: t };
                self.entries.push(e);
                assert(self.entries_view() =~= before.push((id@, reason, t)));
                assert forall|a: AccountView, r: BlockReason, bt: BlockType|
                    #[trigger] self.has_block(a, r, bt) == if a == id@ && r == reason {
                        bt == t
                    } else {
                        before.contains((a, r, bt))
                    } by {
                    if self.has_block(a, r, bt) {
                        let k = choose|k: int| 0 <= k < self.entries_view().len() && self.entries_view()[k] == (a, r, bt);
                        if k != before.len() {
                            assert(before[k] == (a, r, bt));
                        }
                    }
                    if before.contains((a, r, bt)) {
                        let k = choose|k: int| 0 <= k < before.len() && before[k] == (a, r, bt);
                        assert(self.entries_view()[k] == (a, r, bt));
                    }
                    if a == id@ && r == reason && bt == t {
                        assert(self.entries_view()[before.len() as int] == (a, r, bt));
                    }
                }
            },
        }
    }

    /// Lifts the block of `id` for `reason`, unless an `Automatic` unblock
    /// meets a `Manual` block; nothing happens where there is no such block.
    pub fn unblock(&mut self, id: &ExchangeAccountId, reason: BlockReason, unblock_type: BlockType)
        requires
            old(self).wf(),
        ensures
            final(self).wf(),
            final(self).is_stopped() == old(self).is_stopped(),
            forall|a: AccountView, r: BlockReason, bt: BlockType|
                #[trigger] final(self).has_block(a, r, bt) == (old(self).has_block(a, r, bt) && !(a
                    == id@ && r == reason && unblock_lifts(bt, unblock_type))),
    {
        let ghost before = self.entries_view();
        match self.find(id, reason) {
            Some(i) => {
                let t = self.entries[i].block_type;
                if t == BlockType::Manual && unblock_type == BlockType::Automatic {
                    return;
                }
                self.entries.remove(i);
                assert(self.entries_view() =~= before.remove(i as int));
                assert forall|a: AccountView, r: BlockReason, bt: BlockType|
                    #[trigger] self.has_block(a, r, bt) == (before.contains((a, r, bt)) && !(a
                        == id@ && r == reason && unblock_lifts(bt, unblock_type))) by {
                    if self.has_block(a, r, bt) {
                        let k = choose|k: int| 0 <= k < self.entries_view().len() && self.entries_view()[k] == (a, r, bt);
                        if k < i {
                            assert(before[k] == (a, r, bt));
                        } else {
                            assert(before[k + 1] == (a, r, bt));
                        }
                    }
                    if before.contains((a, r, bt)) && !(a == id@ && r == reason) {
                        let k = choose|k: int| 0 <= k < before.len() && before[k] == (a, r, bt);
                        if k < i {
                            assert(self.entries_view()[k] == (a, r, bt));
                        } else {
                            assert(k != i);
                            assert(self.entries_view()[k - 1] == (a, r, bt));
                        }
                    }
                    if before.contains((a, r, bt)) && a == id@ && r == reason {
                        let k = choose|k: int| 0 <= k < before.len() && before[k] == (a, r, bt);
                        assert(k == i);
                    }
                }
            },
            None => {
                assert forall|a: AccountView, r: BlockReason, bt: BlockType|
                    #[trigger] self.has_block(a, r, bt) implies !(a == id@ && r == reason) by {
                    let k = choose|k: int| 0 <= k < self.entries_view().len() && self.entries_view()[k] == (a, r, bt);
                }
            },
        }
    }

    /// `id` has at least one active block.
    pub fn is_blocked(&self, id: &ExchangeAccountId) -> (r: bool)
        requires
            self.wf(),
        ensures
            r == self.is_blocked_spec(id@),
    {
        let mut i: usize = 0;
        while i < self.entries.len()
            invariant
                0 <= i <= self.entries@.len(),
                self.entries_view().len() == self.entries@.len(),
                forall|k: int| 0 <= k < i ==> (#[trigger] self.entries_view()[k]).0 != id@,
            decreases self.entries@.len() - i,
        {
            if self.entries[i].account.same_as(id) {
                proof {
                    let e = self.entries_view()[i as int];
                    assert(self.has_block(id@, e.1, e.2));
                }
                return true;
            }
            i = i + 1;
        }
        proof {
            assert forall|reason: BlockReason, t: BlockType| !#[trigger] self.has_block(id@, reason, t) by {
                if self.has_block(id@, reason, t) {
                    let k = choose|k: int| 0 <= k < self.entries_view().len() && self.entries_view()[k] == (id@, reason, t);
                }
            }
        }
        false
    }

    /// Freezes the blocker: blocks are no longer accepted and waiters are released.
    pub fn stop_blocker(&mut self)
        requires
            old(self).wf(),
        ensures
            final(self).wf(),
            final(self).is_stopped(),
            final(self).entries_view() == old(self).entries_view(),
    {
        let ghost before = self.entries_view();
        self.stopped = true;
        assert(self.entries_view() == before);
    }

    /// What a waiter on `id` observes now: cancellation wins (its own token or
    /// a stopped blocker), then the absence of any block.
    pub fn poll_unblocked(&self, id: &ExchangeAccountId, token_cancelled: bool) -> (r: WaitOutcome)
        requires
            self.wf(),
        ensures
            r == if token_cancelled || self.is_stopped() {
                WaitOutcome::Cancelled
            } else if self.is_blocked_spec(id@) {
                WaitOutcome::Pending
            } else {
                WaitOutcome::Unblocked
            },
    {
        if token_cancelled || self.stopped {
            WaitOutcome::Cancelled
        } else if self.is_blocked(id) {
            WaitOutcome::Pending
        } else {
            WaitOutcome::Unblocked
        }
    }
}

} // verus!
