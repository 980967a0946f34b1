use mmb_core::account::ExchangeAccountId;
use mmb_core::application_manager::ApplicationManager;
use mmb_core::cancellation::CancellationTokens;
use mmb_core::engine::{
    EngineContext, ShutdownAction, ShutdownEvent, ShutdownPhase, CANCEL_OPENED_ORDERS_TIMEOUT_MS,
};
use mmb_core::shutdown::{ShutdownError, ShutdownService};
use mmb_core::strategy::{Amount, ExampleStrategySettings};

fn engine() -> EngineContext {
    EngineContext::new(
        vec![
            ExchangeAccountId::new("Binance".to_string(), 0),
            ExchangeAccountId::new("Binance".to_string(), 1),
        ],
        ApplicationManager::new(),
    )
}

#[test]
fn cancellation_stays_and_reaches_children() {
    let mut tokens = CancellationTokens::new();
    let root = tokens.new_token();
    let child = tokens.child(root);
    let grandchild = tokens.child(child);
    let other = tokens.new_token();
    tokens.cancel(child);
    assert!(!tokens.is_cancelled(root));
    assert!(tokens.is_cancelled(child));
    assert!(tokens.is_cancelled(grandchild));
    assert!(!tokens.is_cancelled(other));
    tokens.cancel(root);
    tokens.cancel(root);
    assert!(tokens.is_cancelled(child));
    let late = tokens.child(root);
    assert!(tokens.is_cancelled(late));
    assert_eq!(tokens.len(), 5);
}

#[test]
fn parallel_shutdown_starts_once() {
    let mut ctx = engine();
    let mut started = 0;
    for _ in 0..100 {
        if ctx.start_graceful_shutdown() == ShutdownAction::AwaitServices {
            started += 1;
        }
    }
    assert_eq!(started, 1);
    assert!(ctx.is_graceful_shutdown_started());
}

#[test]
fn parallel_spawned_shutdown_starts_once() {
    let mut ctx = engine();
    let mut started = 0;
    for _ in 0..100 {
        if ctx.spawn_graceful_shutdown() == ShutdownAction::AwaitServices {
            started += 1;
        }
        assert!(ctx.tokens().is_cancelled(ctx.stop_token()));
    }
    assert_eq!(started, 1);
}

#[test]
fn manager_without_engine_only_cancels_stop_token() {
    let mut manager = ApplicationManager::new();
    let stop = manager.stop_token();
    let child = manager.child_token(stop);
    assert!(!manager.spawn_graceful_shutdown());
    assert!(manager.tokens().is_cancelled(stop));
    assert!(manager.tokens().is_cancelled(child));
    assert!(manager.spawn_graceful_shutdown() == false);
}

#[test]
fn manager_honours_first_registration() {
    let mut manager = ApplicationManager::new();
    assert!(manager.setup_engine_context());
    assert!(!manager.setup_engine_context());
    assert!(manager.is_engine_registered());
    assert!(manager.spawn_graceful_shutdown());
    manager.unset_engine_context();
    assert!(!manager.is_engine_registered());
}

#[test]
fn engine_registration_ends_with_shutdown() {
    let mut ctx = engine();
    assert!(ctx.application_manager().is_engine_registered());
    ctx.start_graceful_shutdown();
    ctx.on_shutdown_event(ShutdownEvent::ServicesFinished);
    ctx.on_shutdown_event(ShutdownEvent::BlockerStopped);
    ctx.on_shutdown_event(ShutdownEvent::OrdersCancelled);
    assert!(ctx.application_manager().is_engine_registered());
    assert_eq!(
        ctx.on_shutdown_event(ShutdownEvent::ExchangesDisconnected),
        ShutdownAction::SignalFinished
    );
    assert!(!ctx.application_manager().is_engine_registered());
    assert_eq!(ctx.spawn_graceful_shutdown(), ShutdownAction::Nothing);
}

#[test]
fn full_shutdown_sequence() {
    let mut ctx = engine();
    assert_eq!(ctx.register_service("strategy".to_string()), Ok(()));
    assert_eq!(
        ctx.register_service("strategy".to_string()),
        Err(ShutdownError::DuplicateService)
    );
    let id = ExchangeAccountId::new("Binance".to_string(), 1);
    assert!(!ctx.exchange_blocker().is_blocked(&id));
    assert_eq!(ctx.start_graceful_shutdown(), ShutdownAction::AwaitServices);
    assert!(ctx.exchange_blocker().is_blocked(&id));
    assert!(ctx.tokens().is_cancelled(ctx.stop_token()));
    assert_eq!(
        ctx.register_service("late".to_string()),
        Err(ShutdownError::Terminating)
    );
    assert_eq!(ctx.on_shutdown_event(ShutdownEvent::OrdersCancelled), ShutdownAction::Nothing);
    assert_eq!(
        ctx.on_shutdown_event(ShutdownEvent::ServicesFinished),
        ShutdownAction::AwaitBlockerStopped
    );
    let token = match ctx.on_shutdown_event(ShutdownEvent::BlockerStopped) {
        ShutdownAction::CancelOpenedOrders { token, add_missing_open_orders, timeout_ms } => {
            assert!(add_missing_open_orders);
            assert_eq!(timeout_ms, CANCEL_OPENED_ORDERS_TIMEOUT_MS);
            token
        }
        other => panic!("unexpected action {:?}", other),
    };
    assert!(!ctx.tokens().is_cancelled(token));
    assert_eq!(
        ctx.on_shutdown_event(ShutdownEvent::OrdersCancelled),
        ShutdownAction::DisconnectExchanges
    );
    assert!(!ctx.tokens().is_cancelled(token));
    assert_eq!(
        ctx.on_shutdown_event(ShutdownEvent::ExchangesDisconnected),
        ShutdownAction::SignalFinished
    );
    assert_eq!(ctx.phase(), ShutdownPhase::Stopped);
    assert_eq!(
        ctx.on_shutdown_event(ShutdownEvent::ExchangesDisconnected),
        ShutdownAction::Nothing
    );
    assert_eq!(ctx.start_graceful_shutdown(), ShutdownAction::Nothing);
}

#[test]
fn shutdown_timeout_cancels_orders_token() {
    let mut ctx = engine();
    ctx.start_graceful_shutdown();
    ctx.on_shutdown_event(ShutdownEvent::ServicesFinished);
    let token = match ctx.on_shutdown_event(ShutdownEvent::BlockerStopped) {
        ShutdownAction::CancelOpenedOrders { token, .. } => token,
        other => panic!("unexpected action {:?}", other),
    };
    assert_eq!(
        ctx.on_shutdown_event(ShutdownEvent::OrdersTimedOut),
        ShutdownAction::DisconnectExchanges
    );
    assert!(ctx.tokens().is_cancelled(token));
    assert_eq!(
        ctx.on_shutdown_event(ShutdownEvent::ExchangesDisconnected),
        ShutdownAction::SignalFinished
    );
}

#[test]
fn shutdown_service_registration() {
    let mut service = ShutdownService::new();
    assert_eq!(service.register("a".to_string()), Ok(()));
    assert_eq!(service.register("b".to_string()), Ok(()));
    assert_eq!(service.register("a".to_string()), Err(ShutdownError::DuplicateService));
    assert_eq!(service.service_count(), 2);
    service.begin_graceful_shutdown();
    assert!(service.is_terminating());
    assert_eq!(service.register("c".to_string()), Err(ShutdownError::Terminating));
}

#[test]
fn example_strategy_settings() {
    let settings = ExampleStrategySettings::default();
    assert_eq!(
        settings.exchange_account_id(),
        ExchangeAccountId::new("Binance".to_string(), 0)
    );
    let pair = settings.currency_pair();
    assert_eq!(pair.base, "eos");
    assert_eq!(pair.quote, "btc");
    assert_eq!(settings.max_amount(), Amount { mantissa: 1, scale: 0 });
}

#[test]
fn shutdown_blocks_only_known_exchanges() {
    let mut ctx = engine();
    ctx.start_graceful_shutdown();
    let blocker = ctx.exchange_blocker();
    assert!(blocker.is_blocked(&ExchangeAccountId::new("Binance".to_string(), 0)));
    assert!(!blocker.is_blocked(&ExchangeAccountId::new("Kraken".to_string(), 0)));
}

#[test]
fn engine_from_manager_stopped_before_registration() {
    let mut manager = ApplicationManager::new();
    assert!(!manager.spawn_graceful_shutdown());
    let mut ctx = EngineContext::new(vec![ExchangeAccountId::new("Binance".to_string(), 0)], manager);
    assert!(ctx.tokens().is_cancelled(ctx.stop_token()));
    assert!(ctx.application_manager().is_engine_registered());
    assert!(!ctx.shutdown_service().is_terminating());
    assert_eq!(ctx.phase(), ShutdownPhase::Running);
    assert_eq!(ctx.spawn_graceful_shutdown(), ShutdownAction::AwaitServices);
}

#[test]
fn shutdown_request_cancels_only_the_stop_subtree() {
    let mut manager = ApplicationManager::new();
    let stop = manager.stop_token();
    let below = manager.child_token(stop);
    let other = manager.new_token();
    manager.spawn_graceful_shutdown();
    assert!(manager.tokens().is_cancelled(below));
    assert!(!manager.tokens().is_cancelled(other));
    let mut ctx = EngineContext::new(vec![ExchangeAccountId::new("Binance".to_string(), 0)], manager);
    ctx.spawn_graceful_shutdown();
    ctx.on_shutdown_event(ShutdownEvent::ServicesFinished);
    ctx.on_shutdown_event(ShutdownEvent::BlockerStopped);
    ctx.on_shutdown_event(ShutdownEvent::OrdersTimedOut);
    assert!(!ctx.tokens().is_cancelled(other));
    assert!(ctx.tokens().is_cancelled(stop));
}
