use mmb_core::account::ExchangeAccountId;
use mmb_core::application_manager::ApplicationManager;
use mmb_core::engine::EngineContext;
use mmb_core::blocker::{BlockReason, BlockType, ExchangeBlocker, WaitOutcome};

fn binance(n: u8) -> ExchangeAccountId {
    ExchangeAccountId::new("Binance".to_string(), n)
}

#[test]
fn block_wait_unblock() {
    let mut blocker = ExchangeBlocker::new();
    let id = binance(0);
    blocker.block(&id, BlockReason::GracefulShutdown, BlockType::Manual);
    assert!(blocker.is_blocked(&id));
    assert_eq!(blocker.poll_unblocked(&id, false), WaitOutcome::Pending);
    blocker.unblock(&id, BlockReason::RateLimited, BlockType::Manual);
    assert_eq!(blocker.poll_unblocked(&id, false), WaitOutcome::Pending);
    blocker.unblock(&id, BlockReason::GracefulShutdown, BlockType::Manual);
    assert_eq!(blocker.poll_unblocked(&id, false), WaitOutcome::Unblocked);
    assert!(!blocker.is_blocked(&id));
}

#[test]
fn automatic_unblock_leaves_manual_block() {
    let mut blocker = ExchangeBlocker::new();
    let id = binance(1);
    blocker.block(&id, BlockReason::ExchangeUnavailable, BlockType::Manual);
    blocker.unblock(&id, BlockReason::ExchangeUnavailable, BlockType::Automatic);
    assert!(blocker.is_blocked(&id));
    blocker.block(&id, BlockReason::RateLimited, BlockType::Automatic);
    blocker.unblock(&id, BlockReason::RateLimited, BlockType::Automatic);
    blocker.unblock(&id, BlockReason::ExchangeUnavailable, BlockType::Manual);
    assert!(!blocker.is_blocked(&id));
}

#[test]
fn blocks_are_per_exchange() {
    let mut blocker = ExchangeBlocker::new();
    blocker.block(&binance(0), BlockReason::RateLimited, BlockType::Automatic);
    blocker.block(&binance(0), BlockReason::RateLimited, BlockType::Automatic);
    assert!(blocker.is_blocked(&binance(0)));
    assert!(!blocker.is_blocked(&binance(1)));
    assert!(!blocker.is_blocked(&ExchangeAccountId::new("Bitmex".to_string(), 0)));
    blocker.unblock(&binance(0), BlockReason::RateLimited, BlockType::Automatic);
    assert!(!blocker.is_blocked(&binance(0)));
}

#[test]
fn stopped_blocker_cancels_waiters_and_refuses_blocks() {
    let mut blocker = ExchangeBlocker::new();
    let id = binance(0);
    blocker.block(&id, BlockReason::RateLimited, BlockType::Manual);
    assert_eq!(blocker.poll_unblocked(&id, true), WaitOutcome::Cancelled);
    blocker.stop_blocker();
    assert_eq!(blocker.poll_unblocked(&id, false), WaitOutcome::Cancelled);
    let other = binance(2);
    blocker.block(&other, BlockReason::RateLimited, BlockType::Manual);
    assert!(!blocker.is_blocked(&other));
}

#[test]
fn account_ids_compare_by_value() {
    assert_eq!(binance(0), binance(0).duplicate());
    assert_ne!(binance(0), binance(1));
    assert!(binance(3).same_as(&binance(3)));
}

#[test]
fn engine_forwards_blocks() {
    let mut ctx = EngineContext::new(vec![binance(0)], ApplicationManager::new());
    ctx.block_exchange(&binance(0), BlockReason::RateLimited, BlockType::Automatic);
    assert!(ctx.exchange_blocker().is_blocked(&binance(0)));
    ctx.unblock_exchange(&binance(0), BlockReason::RateLimited, BlockType::Automatic);
    assert!(!ctx.exchange_blocker().is_blocked(&binance(0)));
}
