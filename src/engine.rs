use vstd::prelude::*;
use crate::account::ExchangeAccountId;
use crate::application_manager::ApplicationManager;
use crate::blocker::{unblock_lifts, AccountView, BlockReason, BlockType, ExchangeBlocker};
use crate::cancellation::{cancelled_below, lemma_cancel_twice, CancellationToken, CancellationTokens};
use crate::shutdown::ShutdownService;

verus! {

/// How long cancelling the open orders may take during shutdown, in milliseconds.
pub const CANCEL_OPENED_ORDERS_TIMEOUT_MS: u64 = 5000;

/// Where the graceful shutdown sequence stands.
#[derive(Clone, Copy, Debug, PartialEq, Eq, Structural)]
pub enum ShutdownPhase {
    Running,
    AwaitingServices,
    StoppingBlocker,
    CancellingOrders,
    Disconnecting,
    Stopped,
}

/// The completion of a step that was handed out as a [`ShutdownAction`].
#[derive(Clone, Copy, Debug, PartialEq, Eq, Structural)]
pub enum ShutdownEvent {
    ServicesFinished,
    BlockerStopped,
    OrdersCancelled,
    OrdersTimedOut,
    ExchangesDisconnected,
}

/// The outside work that the next step of shutdown needs.
#[derive(Clone, Copy, Debug, PartialEq, Eq, Structural)]
pub enum ShutdownAction {
    /// Nothing to do: the call was not the one that moves the sequence on.
    Nothing,
    /// Run every registered service's graceful shutdown and wait for all of them.
    AwaitServices,
    /// Wait until the frozen blocker has released its waiters.
    AwaitBlockerStopped,
    /// Cancel the open orders of every exchange under `token`, within `timeout_ms`.
    CancelOpenedOrders { token: CancellationToken, add_missing_open_orders: bool, timeout_ms: u64 },
    /// Disconnect every exchange and wait for all of them.
    DisconnectExchanges,
    /// Send the one-shot signal that shutdown has finished.
    SignalFinished,
}

/// One call on the shutdown sequence: a request to start it, or the report
/// that a step has completed.
#[derive(Clone, Copy, Debug, PartialEq, Eq, Structural)]
pub enum ShutdownOp {
    Start,
    Event(ShutdownEvent),
}

pub open spec fn phase_after(p: ShutdownPhase, op: ShutdownOp) -> ShutdownPhase {
    match op {
        ShutdownOp::Start => if p == ShutdownPhase::Running {
            ShutdownPhase::AwaitingServices
        } else {
            p
        },
        ShutdownOp::Event(e) => if p == ShutdownPhase::AwaitingServices && e == ShutdownEvent::ServicesFinished {
            ShutdownPhase::StoppingBlocker
        } else if p == ShutdownPhase::StoppingBlocker && e == ShutdownEvent::BlockerStopped {
            ShutdownPhase::CancellingOrders
        } else if p == ShutdownPhase::CancellingOrders && (e == ShutdownEvent::OrdersCancelled
            || e == ShutdownEvent::OrdersTimedOut) {
            ShutdownPhase::Disconnecting
        } else if p == ShutdownPhase::Disconnecting && e == ShutdownEvent::ExchangesDisconnected {
            ShutdownPhase::Stopped
        } else {
            p
        },
    }
}

/// The work handed out by `op` in phase `p`; `fresh` is the token that a
/// new cancel-orders step would get.
pub open spec fn action_after(p: ShutdownPhase, op: ShutdownOp, fresh: CancellationToken) -> ShutdownAction {
    if phase_after(p, op) == p {
        ShutdownAction::Nothing
    } else {
        match phase_after(p, op) {
            ShutdownPhase::AwaitingServices => ShutdownAction::AwaitServices,
            ShutdownPhase::StoppingBlocker => ShutdownAction::AwaitBlockerStopped,
            ShutdownPhase::CancellingOrders => ShutdownAction::CancelOpenedOrders {
                token: fresh,
                add_missing_open_orders: true,
                timeout_ms: CANCEL_OPENED_ORDERS_TIMEOUT_MS,
            },
            ShutdownPhase::Disconnecting => ShutdownAction::DisconnectExchanges,
            _ => ShutdownAction::SignalFinished,
        }
    }
}

/// The phase reached after the calls `ops`, in order.
pub open spec fn run_phase(p: ShutdownPhase, ops: Seq<ShutdownOp>) -> ShutdownPhase
    decreases ops.len(),
{
    if ops.len() == 0 {
        p
    } else {
        run_phase(phase_after(p, ops[0]), ops.drop_first())
    }
}

/// How many of the calls `ops` perform the shutdown sequence (are the start
/// that wins).
pub open spec fn count_starts(p: ShutdownPhase, ops: Seq<ShutdownOp>) -> nat
    decreases ops.len(),
{
    if ops.len() == 0 {
        0
    } else {
        (if p == ShutdownPhase::Running && ops[0] == ShutdownOp::Start {
            1nat
        } else {
            0nat
        }) + count_starts(phase_after(p, ops[0]), ops.drop_first())
    }
}

/// How many of the calls `ops` send the finished signal.
pub open spec fn count_finish_signals(p: ShutdownPhase, ops: Seq<ShutdownOp>) -> nat
    decreases ops.len(),
{
    if ops.len() == 0 {
        0
    } else {
        (if action_after(p, ops[0], CancellationToken { index: 0 }) == ShutdownAction::SignalFinished {
            1nat
        } else {
            0nat
        }) + count_finish_signals(phase_after(p, ops[0]), ops.drop_first())
    }
}

pub open spec fn rank(p: ShutdownPhase) -> nat {
    match p {
        ShutdownPhase::Running => 0,
        ShutdownPhase::AwaitingServices => 1,
        ShutdownPhase::StoppingBlocker => 2,
        ShutdownPhase::CancellingOrders => 3,
        ShutdownPhase::Disconnecting => 4,
        ShutdownPhase::Stopped => 5,
    }
}

proof fn lemma_rank_grows(p: ShutdownPhase, ops: Seq<ShutdownOp>)
    ensures
        rank(p) <= rank(run_phase(p, ops)),
    decreases ops.len(),
{
    if ops.len() > 0 {
        lemma_rank_grows(phase_after(p, ops[0]), ops.drop_first());
    }
}

/// However many calls to start shutdown race with each other and with the
/// reports of its steps, exactly one of them performs the sequence: one when
/// the calls take the engine out of `Running`, none otherwise.
pub proof fn lemma_shutdown_starts_once(p: ShutdownPhase, ops: Seq<ShutdownOp>)
    ensures
        count_starts(p, ops) <= 1,
        count_starts(p, ops) == if p == ShutdownPhase::Running && run_phase(p, ops) != ShutdownPhase::Running {
            1nat
        } else {
            0nat
        },
    decreases ops.len(),
{
    if ops.len() > 0 {
        let q = phase_after(p, ops[0]);
        lemma_shutdown_starts_once(q, ops.drop_first());
        lemma_rank_grows(q, ops.drop_first());
    }
}

/// The finished signal is sent at most once over any run of calls, and
/// exactly once by a run that ends the sequence.
pub proof fn lemma_finish_signal_once(p: ShutdownPhase, ops: Seq<ShutdownOp>)
    ensures
        count_finish_signals(p, ops) <= 1,
        count_finish_signals(p, ops) == if p != ShutdownPhase::Stopped && run_phase(p, ops) == ShutdownPhase::Stopped {
            1nat
        } else {
            0nat
        },
    decreases ops.len(),
{
    if ops.len() > 0 {
        let q = phase_after(p, ops[0]);
        lemma_finish_signal_once(q, ops.drop_first());
        lemma_rank_grows(q, ops.drop_first());
    }
}

/// No exchange account appears twice.
pub open spec fn unique_ids(ids: Seq<AccountView>) -> bool {
    forall|i: int, j: int| 0 <= i < ids.len() && 0 <= j < ids.len() && i != j ==> #[trigger] ids[i] != #[trigger] ids[j]
}

/// The composition root's own state: the exchanges it runs, their blocker,
/// the shutdown services, the cancellation tokens, and the shutdown sequence.
pub struct EngineContext {
    exchange_account_ids: Vec<ExchangeAccountId>,
    exchange_blocker: ExchangeBlocker,
    shutdown_service: ShutdownService,
    application_manager: ApplicationManager,
    orders_token: Option<CancellationToken>,
    phase: ShutdownPhase,
    finish_signal_pending: bool,
}

impl EngineContext {
    pub closed spec fn ids_view(&self) -> Seq<AccountView> {
        self.exchange_account_ids@.map_values(|id: ExchangeAccountId| id@)
    }

    pub closed spec fn blocker_spec(&self) -> ExchangeBlocker {
        self.exchange_blocker
    }

    pub closed spec fn services_spec(&self) -> ShutdownService {
        self.shutdown_service
    }

    pub closed spec fn manager_spec(&self) -> ApplicationManager {
        self.application_manager
    }

    pub open spec fn tokens_spec(&self) -> CancellationTokens {
        self.manager_spec().tokens_spec()
    }

    pub open spec fn stop_token_spec(&self) -> CancellationToken {
        self.manager_spec().stop_token_spec()
    }

    pub closed spec fn orders_token_spec(&self) -> Option<CancellationToken> {
        self.orders_token
    }

    pub closed spec fn phase_spec(&self) -> ShutdownPhase {
        self.phase
    }

    /// The one-shot finished signal has not been sent yet.
    pub closed spec fn finish_signal_pending_spec(&self) -> bool {
        self.finish_signal_pending
    }

    pub closed spec fn wf(&self) -> bool {
        &&& self.exchange_blocker.wf()
        &&& unique_ids(self.ids_view())
        &&& self.application_manager.wf()
        &&& self.application_manager.engine_registered_spec() == (self.phase != ShutdownPhase::Stopped)
        &&& (self.orders_token matches Some(t) ==> self.application_manager.tokens_spec().contains(t))
        &&& self.phase == ShutdownPhase::CancellingOrders ==> self.orders_token is Some
        &&& rank(self.phase) >= 2 ==> self.exchange_blocker.is_stopped()
        &&& rank(self.phase) >= 1 ==> self.shutdown_service.is_terminating_spec()
        &&& self.finish_signal_pending == (self.phase != ShutdownPhase::Stopped)
        &&& self.phase == ShutdownPhase::Running ==> !self.exchange_blocker.is_stopped()
            && !self.shutdown_service.is_terminating_spec()
    }

    /// A running engine over the given exchanges, registered in its
    /// application manager: nothing blocked, the blocker running, no service,
    /// registration open. The manager's tokens are kept as they are.
    pub fn new(exchange_account_ids: Vec<ExchangeAccountId>, application_manager: ApplicationManager) -> (r: Self)
        requires
            application_manager.wf(),
            unique_ids(exchange_account_ids@.map_values(|id: ExchangeAccountId| id@)),
        ensures
            r.tokens_spec() == application_manager.tokens_spec(),
            r.stop_token_spec() == application_manager.stop_token_spec(),
            r.tokens_spec().contains(r.stop_token_spec()),
            r.manager_spec().engine_registered_spec(),
            r.wf(),
            r.ids_view() == exchange_account_ids@.map_values(|id: ExchangeAccountId| id@),
            r.phase_spec() == ShutdownPhase::Running,
            r.finish_signal_pending_spec(),
            forall|a: AccountView| !r.blocker_spec().is_blocked_spec(a),
            !r.blocker_spec().is_stopped(),
            r.services_spec().names_spec().len() == 0,
            !r.services_spec().is_terminating_spec(),
            r.orders_token_spec() is None,
    {
        let mut application_manager = application_manager;
        application_manager.setup_engine_context();
        EngineContext {
            exchange_account_ids,
            exchange_blocker: ExchangeBlocker::new(),
            shutdown_service: ShutdownService::new(),
            application_manager,
            orders_token: None,
            phase: ShutdownPhase::Running,
            finish_signal_pending: true,
        }
    }

    pub fn phase(&self) -> (r: ShutdownPhase)
        ensures
            r == self.phase_spec(),
    {
        self.phase
    }

    pub fn exchange_blocker(&self) -> (r: &ExchangeBlocker)
        requires
            self.wf(),
        ensures
            *r == self.blocker_spec(),
            r.wf(),
    {
        &self.exchange_blocker
    }

    pub fn shutdown_service(&self) -> (r: &ShutdownService)
        ensures
            *r == self.services_spec(),
    {
        &self.shutdown_service
    }

    pub fn application_manager(&self) -> (r: &ApplicationManager)
        ensures
            *r == self.manager_spec(),
    {
        &self.application_manager
    }

    pub fn tokens(&self) -> (r: &CancellationTokens)
        requires
            self.wf(),
        ensures
            *r == self.tokens_spec(),
            r.wf(),
            r.contains(self.stop_token_spec()),
    {
        self.application_manager.tokens()
    }

    pub fn stop_token(&self) -> (r: CancellationToken)
        ensures
            r == self.stop_token_spec(),
    {
        self.application_manager.stop_token()
    }

    /// Whether the sequence has begun (the flag that only one caller sets).
    pub fn is_graceful_shutdown_started(&self) -> (r: bool)
        ensures
            r == (self.phase_spec() != ShutdownPhase::Running),
    {
        self.phase != ShutdownPhase::Running
    }

    /// Blocks an exchange, as [`ExchangeBlocker::block`].
    pub fn block_exchange(&mut self, id: &ExchangeAccountId, reason: BlockReason, t: BlockType)
        requires
            old(self).wf(),
        ensures
            final(self).wf(),
            final(self).phase_spec() == old(self).phase_spec(),
            final(self).manager_spec() == old(self).manager_spec(),
            final(self).ids_view() == old(self).ids_view(),
            final(self).blocker_spec().is_stopped() == old(self).blocker_spec().is_stopped(),
            old(self).blocker_spec().is_stopped() ==> final(self).blocker_spec().entries_view()
                == old(self).blocker_spec().entries_view(),
            !old(self).blocker_spec().is_stopped() ==> forall|a: AccountView, r: BlockReason, bt: BlockType|
                #[trigger] final(self).blocker_spec().has_block(a, r, bt) == if a == id@ && r == reason {
                    bt == t
                } else {
                    old(self).blocker_spec().has_block(a, r, bt)
                },
    {
        self.exchange_blocker.block(id, reason, t)
    }

    /// Unblocks an exchange, as [`ExchangeBlocker::unblock`].
    pub fn unblock_exchange(&mut self, id: &ExchangeAccountId, reason: BlockReason, unblock_type: BlockType)
        requires
            old(self).wf(),
        ensures
            final(self).wf(),
            final(self).phase_spec() == old(self).phase_spec(),
            final(self).manager_spec() == old(self).manager_spec(),
            final(self).ids_view() == old(self).ids_view(),
            final(self).blocker_spec().is_stopped() == old(self).blocker_spec().is_stopped(),
            forall|a: AccountView, r: BlockReason, bt: BlockType|
                #[trigger] final(self).blocker_spec().has_block(a, r, bt) == (old(self).blocker_spec().has_block(a, r, bt)
                    && !(a == id@ && r == reason && unblock_lifts(bt, unblock_type))),
    {
        self.exchange_blocker.unblock(id, reason, unblock_type)
    }

    /// Registers a shutdown service, as [`ShutdownService::register`].
    pub fn register_service(&mut self, name: String) -> (r: Result<(), crate::shutdown::ShutdownError>)
        requires
            old(self).wf(),
        ensures
            final(self).wf(),
            final(self).phase_spec() == old(self).phase_spec(),
            final(self).manager_spec() == old(self).manager_spec(),
            final(self).ids_view() == old(self).ids_view(),
            final(self).services_spec().is_terminating_spec() == old(self).services_spec().is_terminating_spec(),
            r == if old(self).services_spec().is_terminating_spec() {
                Err::<(), crate::shutdown::ShutdownError>(crate::shutdown::ShutdownError::Terminating)
            } else if old(self).services_spec().names_spec().contains(name@) {
                Err(crate::shutdown::ShutdownError::DuplicateService)
            } else {
                Ok(())
            },
            final(self).services_spec().names_spec() == if r is Ok {
                old(self).services_spec().names_spec().push(name@)
            } else {
                old(self).services_spec().names_spec()
            },
    {
        self.shutdown_service.register(name)
    }

    /// Starts graceful shutdown. Only the call that finds the engine running
    /// does anything: it blocks every exchange for `GracefulShutdown`
    /// (`Manual`), cancels the stop token, closes service registration, and
    /// hands out the wait for the services.
    pub fn start_graceful_shutdown(&mut self) -> (r: ShutdownAction)
        requires
            old(self).wf(),
        ensures
            final(self).wf(),
            final(self).phase_spec() == phase_after(old(self).phase_spec(), ShutdownOp::Start),
            r == action_after(
                old(self).phase_spec(),
                ShutdownOp::Start,
                CancellationToken { index: old(self).tokens_spec().len_spec() as usize },
            ),
            final(self).ids_view() == old(self).ids_view(),
            final(self).tokens_spec().extends(&old(self).tokens_spec()),
            final(self).stop_token_spec() == old(self).stop_token_spec(),
            final(self).tokens_spec().contains(final(self).stop_token_spec()),
            final(self).manager_spec().engine_registered_spec() == (final(self).phase_spec() != ShutdownPhase::Stopped),
            old(self).phase_spec() != ShutdownPhase::Running ==> *final(self) == *old(self),
            old(self).phase_spec() == ShutdownPhase::Running ==> {
                &&& final(self).tokens_spec().is_cancelled_spec(final(self).stop_token_spec())
                &&& cancelled_below(&final(self).tokens_spec(), &old(self).tokens_spec(), old(self).stop_token_spec())
                &&& final(self).orders_token_spec() == old(self).orders_token_spec()
                &&& final(self).services_spec().is_terminating_spec()
                &&& final(self).services_spec().names_spec() == old(self).services_spec().names_spec()
                &&& forall|a: AccountView, reason: BlockReason, t: BlockType|
                    #[trigger] final(self).blocker_spec().has_block(a, reason, t) == if reason
                        == BlockReason::GracefulShutdown && old(self).ids_view().contains(a) {
                        t == BlockType::Manual
                    } else {
                        old(self).blocker_spec().has_block(a, reason, t)
                    }
            },
    {
        if self.phase != ShutdownPhase::Running {
            return ShutdownAction::Nothing;
        }
        let ghost b0 = self.exchange_blocker;
        let ghost ids = self.ids_view();
        let n = self.exchange_account_ids.len();
        let mut i: usize = 0;
        while i < n
            invariant
                0 <= i <= n,
                n == self.exchange_account_ids@.len(),
                ids == self.ids_view(),
                ids.len() == n,
                self.exchange_blocker.wf(),
                !self.exchange_blocker.is_stopped(),
                self.wf(),
                self.phase == ShutdownPhase::Running,
                self.exchange_account_ids == old(self).exchange_account_ids,
                self.shutdown_service == old(self).shutdown_service,
                self.application_manager == old(self).application_manager,
                self.orders_token == old(self).orders_token,
                self.finish_signal_pending == old(self).finish_signal_pending,
                b0 == old(self).exchange_blocker,
                forall|a: AccountView, reason: BlockReason, t: BlockType|
                    #[trigger] self.exchange_blocker.has_block(a, reason, t) == if reason
                        == BlockReason::GracefulShutdown && ids.subrange(0, i as int).contains(a) {
                        t == BlockType::Manual
                    } else {
                        b0.has_block(a, reason, t)
                    },
            decreases n - i,
        {
            let ghost before = self.exchange_blocker;
            self.exchange_blocker.block(
                &self.exchange_account_ids[i],
                BlockReason::GracefulShutdown,
                BlockType::Manual,
            );
            proof {
                assert(ids[i as int] == self.exchange_account_ids@[i as int]@);
                assert(ids.subrange(0, i + 1) =~= ids.subrange(0, i as int).push(ids[i as int]));
                assert forall|a: AccountView, reason: BlockReason, t: BlockType|
                    #[trigger] self.exchange_blocker.has_block(a, reason, t) == if reason
                        == BlockReason::GracefulShutdown && ids.subrange(0, i + 1).contains(a) {
                        t == BlockType::Manual
                    } else {
                        b0.has_block(a, reason, t)
                    } by {
                    assert(ids.subrange(0, i + 1).contains(a) == (ids.subrange(0, i as int).contains(a)
                        || a == ids[i as int])) by {
                        if ids.subrange(0, i + 1).contains(a) && a != ids[i as int] {
                            let s1 = ids.subrange(0, i + 1);
                            let k = choose|k: int| 0 <= k < s1.len() && s1[k] == a;
                            assert(ids.subrange(0, i as int)[k] == a);
                        }
                        if a == ids[i as int] {
                            assert(ids.subrange(0, i + 1)[i as int] == a);
                        }
                    }
                    assert(before.has_block(a, reason, t) == if reason == BlockReason::GracefulShutdown
                        && ids.subrange(0, i as int).contains(a) {
                        t == BlockType::Manual
                    } else {
                        b0.has_block(a, reason, t)
                    });
                }
            }
            i = i + 1;
        }
        assert(ids.subrange(0, n as int) =~= ids);
        let stop = self.application_manager.stop_token();
        self.application_manager.cancel(stop);
        self.shutdown_service.begin_graceful_shutdown();
        self.phase = ShutdownPhase::AwaitingServices;
        ShutdownAction::AwaitServices
    }

    /// A shutdown request through the application manager: the stop token is
    /// cancelled, and while this engine is registered (until its shutdown
    /// has finished) the request acts as [`Self::start_graceful_shutdown`].
    pub fn spawn_graceful_shutdown(&mut self) -> (r: ShutdownAction)
        requires
            old(self).wf(),
        ensures
            final(self).wf(),
            final(self).phase_spec() == phase_after(old(self).phase_spec(), ShutdownOp::Start),
            r == action_after(
                old(self).phase_spec(),
                ShutdownOp::Start,
                CancellationToken { index: old(self).tokens_spec().len_spec() as usize },
            ),
            final(self).ids_view() == old(self).ids_view(),
            final(self).tokens_spec().extends(&old(self).tokens_spec()),
            final(self).tokens_spec().is_cancelled_spec(final(self).stop_token_spec()),
            cancelled_below(&final(self).tokens_spec(), &old(self).tokens_spec(), old(self).stop_token_spec()),
            final(self).orders_token_spec() == old(self).orders_token_spec(),
            final(self).stop_token_spec() == old(self).stop_token_spec(),
            final(self).tokens_spec().contains(final(self).stop_token_spec()),
            final(self).manager_spec().engine_registered_spec() == (final(self).phase_spec() != ShutdownPhase::Stopped),
            old(self).phase_spec() != ShutdownPhase::Running ==> {
                &&& final(self).blocker_spec() == old(self).blocker_spec()
                &&& final(self).services_spec() == old(self).services_spec()
                &&& final(self).finish_signal_pending_spec() == old(self).finish_signal_pending_spec()
            },
            old(self).phase_spec() == ShutdownPhase::Running ==> {
                &&& final(self).services_spec().is_terminating_spec()
                &&& final(self).services_spec().names_spec() == old(self).services_spec().names_spec()
                &&& forall|a: AccountView, reason: BlockReason, t: BlockType|
                    #[trigger] final(self).blocker_spec().has_block(a, reason, t) == if reason
                        == BlockReason::GracefulShutdown && old(self).ids_view().contains(a) {
                        t == BlockType::Manual
                    } else {
                        old(self).blocker_spec().has_block(a, reason, t)
                    }
            },
    {
        let ghost t0 = self.tokens_spec();
        if self.application_manager.spawn_graceful_shutdown() {
            let ghost t1 = self.tokens_spec();
            let r = self.start_graceful_shutdown();
            proof {
                if old(self).phase_spec() == ShutdownPhase::Running {
                    lemma_cancel_twice(&t0, &t1, &self.tokens_spec(), old(self).stop_token_spec());
                }
            }
            r
        } else {
            ShutdownAction::Nothing
        }
    }

    /// Reports that the step last handed out has completed, and hands out the
    /// next one. A report that does not match the current phase changes
    /// nothing. When cancelling orders timed out, its token is cancelled.
    pub fn on_shutdown_event(&mut self, event: ShutdownEvent) -> (r: ShutdownAction)
        requires
            old(self).wf(),
        ensures
            final(self).wf(),
            final(self).phase_spec() == phase_after(old(self).phase_spec(), ShutdownOp::Event(event)),
            r == action_after(
                old(self).phase_spec(),
                ShutdownOp::Event(event),
                CancellationToken { index: old(self).tokens_spec().len_spec() as usize },
            ),
            final(self).ids_view() == old(self).ids_view(),
            final(self).tokens_spec().extends(&old(self).tokens_spec()),
            final(self).blocker_spec().entries_view() == old(self).blocker_spec().entries_view(),
            final(self).services_spec() == old(self).services_spec(),
            final(self).stop_token_spec() == old(self).stop_token_spec(),
            final(self).tokens_spec().contains(final(self).stop_token_spec()),
            final(self).manager_spec().engine_registered_spec() == (final(self).phase_spec() != ShutdownPhase::Stopped),
            rank(final(self).phase_spec()) >= 2 ==> final(self).blocker_spec().is_stopped(),
            r matches ShutdownAction::CancelOpenedOrders { token, .. } ==> {
                &&& final(self).orders_token_spec() == Some(token)
                &&& final(self).tokens_spec().contains(token)
                &&& !final(self).tokens_spec().is_cancelled_spec(token)
                &&& final(self).tokens_spec().flags() == old(self).tokens_spec().flags().push(false)
            },
            final(self).orders_token_spec() matches Some(t) ==> final(self).tokens_spec().contains(t),
            old(self).phase_spec() == ShutdownPhase::CancellingOrders && event == ShutdownEvent::OrdersTimedOut
                ==> (old(self).orders_token_spec() matches Some(t) && final(self).tokens_spec().is_cancelled_spec(t)
                && cancelled_below(&final(self).tokens_spec(), &old(self).tokens_spec(), t)),
            !(r is CancelOpenedOrders) && !(old(self).phase_spec() == ShutdownPhase::CancellingOrders && event
                == ShutdownEvent::OrdersTimedOut) ==> final(self).tokens_spec() == old(self).tokens_spec(),
            final(self).finish_signal_pending_spec() == (old(self).finish_signal_pending_spec() && r
                != ShutdownAction::SignalFinished),
    {
        match (self.phase, event) {
            (ShutdownPhase::AwaitingServices, ShutdownEvent::ServicesFinished) => {
                self.exchange_blocker.stop_blocker();
                self.phase = ShutdownPhase::StoppingBlocker;
                ShutdownAction::AwaitBlockerStopped
            },
            (ShutdownPhase::StoppingBlocker, ShutdownEvent::BlockerStopped) => {
                let token = self.application_manager.new_token();
                self.orders_token = Some(token);
                self.phase = ShutdownPhase::CancellingOrders;
                ShutdownAction::CancelOpenedOrders {
                    token,
                    add_missing_open_orders: true,
                    timeout_ms: CANCEL_OPENED_ORDERS_TIMEOUT_MS,
                }
            },
            (ShutdownPhase::CancellingOrders, ShutdownEvent::OrdersCancelled) => {
                self.phase = ShutdownPhase::Disconnecting;
                ShutdownAction::DisconnectExchanges
            },
            (ShutdownPhase::CancellingOrders, ShutdownEvent::OrdersTimedOut) => {
                match self.orders_token {
                    Some(t) => self.application_manager.cancel(t),
                    None => {},
                }
                self.phase = ShutdownPhase::Disconnecting;
                ShutdownAction::DisconnectExchanges
            },
            (ShutdownPhase::Disconnecting, ShutdownEvent::ExchangesDisconnected) => {
                self.finish_signal_pending = false;
                self.application_manager.unset_engine_context();
                self.phase = ShutdownPhase::Stopped;
                ShutdownAction::SignalFinished
            },
            _ => ShutdownAction::Nothing,
        }
    }
}

} // verus!
