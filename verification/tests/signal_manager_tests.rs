use std::time::Instant;

use liscov_core::models::{GuiChatMessage, MessageType};
use liscov_core::monitoring::ServiceState;
use liscov_core::signal_manager::{
    sort_by_priority, split_messages, SignalManager, SignalUpdateRequest, SignalUpdateType, UpdatePriority,
};

fn request(update_type: SignalUpdateType, priority: UpdatePriority) -> SignalUpdateRequest {
    SignalUpdateRequest { update_type, priority, timestamp: Instant::now(), debounce_key: None }
}

fn msg(author: &str) -> GuiChatMessage {
    GuiChatMessage::new_for_test(author, "hi", MessageType::Text, 1)
}

#[test]
fn batches_apply_by_priority_keeping_order() {
    let mut manager = SignalManager::new();
    let batch = vec![
        request(SignalUpdateType::MessageAdded(msg("a")), UpdatePriority::Medium),
        request(SignalUpdateType::StatsUpdated, UpdatePriority::Low),
        request(SignalUpdateType::ConnectionChanged(true), UpdatePriority::High),
        request(SignalUpdateType::MessagesAdded(vec![msg("b"), msg("c")]), UpdatePriority::Medium),
        request(SignalUpdateType::MessageAdded(msg("d")), UpdatePriority::High),
        request(SignalUpdateType::ServiceStateChanged(ServiceState::Connected), UpdatePriority::High),
    ];
    let (messages, others) = manager.process_batch_updates(batch);
    let authors: Vec<&str> = messages.iter().map(|m| m.author.as_str()).collect();
    assert_eq!(authors, vec!["d", "a", "b", "c"]);
    assert_eq!(others.len(), 3);
    assert!(matches!(others[0].update_type, SignalUpdateType::ConnectionChanged(true)));
    assert!(matches!(others[1].update_type, SignalUpdateType::ServiceStateChanged(ServiceState::Connected)));
    assert!(matches!(others[2].update_type, SignalUpdateType::StatsUpdated));
    assert_eq!(manager.get_stats(), "📊 [SIGNAL_MGR] Stats: 6 total, 1 batched, 0 debounced, 0 high-priority");
    let (m2, o2) = manager.process_batch_updates(vec![request(SignalUpdateType::MessagesClear, UpdatePriority::High)]);
    assert!(m2.is_empty());
    assert_eq!(o2.len(), 1);
    assert_eq!(manager.get_stats(), "📊 [SIGNAL_MGR] Stats: 7 total, 1 batched, 0 debounced, 0 high-priority");
}

#[test]
fn sorting_is_stable_and_complete() {
    let sorted = sort_by_priority(vec![
        request(SignalUpdateType::ConnectionChanged(false), UpdatePriority::Low),
        request(SignalUpdateType::StoppingChanged(true), UpdatePriority::High),
        request(SignalUpdateType::StoppingChanged(false), UpdatePriority::High),
    ]);
    assert_eq!(sorted.len(), 3);
    assert!(matches!(sorted[0].update_type, SignalUpdateType::StoppingChanged(true)));
    assert!(matches!(sorted[1].update_type, SignalUpdateType::StoppingChanged(false)));
    assert!(matches!(sorted[2].update_type, SignalUpdateType::ConnectionChanged(false)));
    let (m, o) = split_messages(Vec::new());
    assert!(m.is_empty() && o.is_empty());
}

#[test]
fn keyed_requests_are_debounced_for_ten_milliseconds() {
    let mut manager = SignalManager::new();
    assert!(manager.accept_request_at(None, 0));
    assert!(manager.accept_request_at(None, 0));
    assert!(manager.accept_request_at(Some("service_state"), 1_000));
    assert!(!manager.accept_request_at(Some("service_state"), 10_999));
    assert!(manager.accept_request_at(Some("connection_state"), 10_999));
    assert!(manager.accept_request_at(Some("service_state"), 11_000));
    assert!(SignalManager::applies_at_once(UpdatePriority::High));
    assert!(!SignalManager::applies_at_once(UpdatePriority::Low));
}
