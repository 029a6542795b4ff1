use std::sync::Arc;

use liscov_core::memory_optimized::{
    BatchConfig, BufferStrategy, FlexibleMessageBuffer, MessagePool, OptimizedMessageManager, SharedDataCache,
};
use liscov_core::models::{GuiChatMessage, MessageType};

fn create_test_message(author: &str, content: &str) -> GuiChatMessage {
    GuiChatMessage {
        timestamp: chrono::Utc::now().format("%H:%M:%S").to_string(),
        message_type: MessageType::Text,
        author: author.to_string(),
        channel_id: format!("channel_{}", author),
        content: content.to_string(),
        runs: Vec::new(),
        metadata: None,
        is_member: false,
        ..Default::default()
    }
}

#[test]
fn test_flexible_buffer_unlimited() {
    let mut buffer = FlexibleMessageBuffer::new(BufferStrategy::Unlimited);
    for i in 0..10000 {
        buffer.push(create_test_message(&format!("user{}", i), "msg"));
    }
    assert_eq!(buffer.len(), 10000);
    assert_eq!(buffer.dropped_count(), 0);
    assert_eq!(buffer.total_count(), 10000);
}

#[test]
fn test_flexible_buffer_fixed_limit() {
    let mut buffer = FlexibleMessageBuffer::new(BufferStrategy::FixedLimit(3));
    buffer.push(create_test_message("user1", "msg1"));
    buffer.push(create_test_message("user2", "msg2"));
    assert_eq!(buffer.len(), 2);
    assert_eq!(buffer.dropped_count(), 0);
    buffer.push(create_test_message("user3", "msg3"));
    buffer.push(create_test_message("user4", "msg4"));
    assert_eq!(buffer.len(), 3);
    assert_eq!(buffer.dropped_count(), 1);
    assert_eq!(buffer.total_count(), 4);
    let messages = buffer.to_vec();
    assert_eq!(messages[2].author, "user4");
}

#[test]
fn test_backward_compatibility() {
    let mut buffer = FlexibleMessageBuffer::new_circular(3);
    buffer.push(create_test_message("user1", "msg1"));
    buffer.push(create_test_message("user2", "msg2"));
    buffer.push(create_test_message("user3", "msg3"));
    buffer.push(create_test_message("user4", "msg4"));
    assert_eq!(buffer.len(), 3);
    assert_eq!(buffer.capacity(), 3);
    assert_eq!(buffer.dropped_count(), 1);
    assert!(buffer.is_full());
}

#[test]
fn test_strategy_switching() {
    let mut buffer = FlexibleMessageBuffer::new(BufferStrategy::Unlimited);
    for i in 0..1000 {
        buffer.push(create_test_message(&format!("user{}", i), "msg"));
    }
    assert_eq!(buffer.len(), 1000);
    buffer.set_strategy(BufferStrategy::FixedLimit(500));
    assert_eq!(buffer.len(), 500);
    assert_eq!(buffer.dropped_count(), 500);
}

#[test]
fn test_circular_buffer() {
    test_flexible_buffer_fixed_limit();
}

#[test]
fn test_batch_processing() {
    let mut buffer = FlexibleMessageBuffer::new(BufferStrategy::FixedLimit(5));
    let batch = vec![
        create_test_message("user1", "msg1"),
        create_test_message("user2", "msg2"),
        create_test_message("user3", "msg3"),
    ];
    buffer.push_batch(batch);
    assert_eq!(buffer.len(), 3);
    assert_eq!(buffer.dropped_count(), 0);
    let large_batch = vec![
        create_test_message("user4", "msg4"),
        create_test_message("user5", "msg5"),
        create_test_message("user6", "msg6"),
        create_test_message("user7", "msg7"),
    ];
    buffer.push_batch(large_batch);
    assert_eq!(buffer.len(), 5);
    assert_eq!(buffer.dropped_count(), 2);
}

#[test]
fn time_based_drops_a_tenth_past_a_thousand() {
    let mut buffer = FlexibleMessageBuffer::new(BufferStrategy::TimeBased { max_hours: 1 });
    for i in 0..1001 {
        buffer.push(create_test_message(&format!("user{}", i), "msg"));
    }
    assert_eq!(buffer.len(), 901);
    assert_eq!(buffer.dropped_count(), 100);
    assert_eq!(buffer.messages()[0].author, "user100");
    assert!(!buffer.is_full());
    assert_eq!(buffer.capacity(), usize::MAX);
}

#[test]
fn memory_based_capacity_and_clear() {
    let buffer = FlexibleMessageBuffer::new(BufferStrategy::MemoryBased { max_memory_mb: 1 });
    let expected = 1024 * 1024 / std::mem::size_of::<GuiChatMessage>();
    assert_eq!(buffer.capacity(), expected);
    let mut buffer = FlexibleMessageBuffer::new(BufferStrategy::FixedLimit(2));
    for i in 0..5 {
        buffer.push(create_test_message(&format!("user{}", i), "msg"));
    }
    let recent = buffer.recent_messages(1);
    assert_eq!(recent.len(), 1);
    assert_eq!(recent[0].author, "user4");
    buffer.optimize_memory();
    assert_eq!(buffer.len(), 2);
    buffer.set_capacity(1);
    assert_eq!(buffer.len(), 1);
    assert_eq!(buffer.dropped_count(), 4);
    buffer.clear();
    assert!(buffer.is_empty());
    assert_eq!(buffer.total_count(), 0);
    assert_eq!(buffer.dropped_count(), 0);
}

#[test]
fn batch_config_default() {
    let c = BatchConfig::default();
    assert_eq!(c.batch_size, 50);
    assert_eq!(c.batch_interval_ms, 100);
    assert_eq!(c.max_batches, 10);
}

#[test]
fn test_flexible_buffer_memory_based() {
    let mut buffer = FlexibleMessageBuffer::new(BufferStrategy::MemoryBased { max_memory_mb: 1 });
    for i in 0..100 {
        buffer.push(create_test_message(&format!("user{}", i), "msg"));
    }
    let stats = buffer.memory_stats();
    assert!(stats.used_memory <= 1024 * 1024);
}

#[test]
fn test_optimized_manager_unlimited() {
    let mut manager = OptimizedMessageManager::with_defaults();
    for i in 0..10000 {
        manager.add_message(create_test_message(&format!("user{}", i), "test"));
    }
    let stats = manager.comprehensive_stats();
    assert_eq!(stats.message_count, 10000);
    assert_eq!(stats.dropped_count, 0);
}

#[test]
fn test_optimized_manager_with_limits() {
    let mut manager = OptimizedMessageManager::with_fixed_limit(100);
    for i in 0..200 {
        manager.add_message(create_test_message(&format!("user{}", i), "test"));
    }
    let stats = manager.comprehensive_stats();
    assert_eq!(stats.message_count, 100);
    assert_eq!(stats.dropped_count, 100);
}

#[test]
fn test_memory_optimization() {
    let mut manager = OptimizedMessageManager::with_defaults();
    for i in 0..1500 {
        manager.add_message(create_test_message(&format!("user{}", i), "test"));
    }
    let stats_before = manager.comprehensive_stats();
    manager.optimize_memory();
    let stats_after = manager.comprehensive_stats();
    assert_eq!(stats_before.message_count, stats_after.message_count);
    assert_eq!(stats_after.message_count, 1500);
    assert_eq!(stats_after.dropped_count, 0);
}

#[test]
fn test_message_pool() {
    let mut pool = MessagePool::new(2);
    let msg1 = pool.acquire();
    let msg2 = pool.acquire();
    pool.release(msg1);
    pool.release(msg2);
    let _msg3 = pool.acquire();
    let _msg4 = pool.acquire();
    let stats = pool.stats();
    assert_eq!(stats.pool_size, 0);
    assert_eq!(stats.created_count, 2);
    assert_eq!(stats.reused_count, 2);
    let reuse_rate = stats.reused_count as f64 / (stats.created_count + stats.reused_count) as f64;
    assert_eq!(reuse_rate, 0.5);
}

#[test]
fn test_shared_cache() {
    let mut cache = SharedDataCache::new(100);
    let author1 = cache.get_shared_author("user1");
    let author1_again = cache.get_shared_author("user1");
    assert!(Arc::ptr_eq(&author1, &author1_again));
    let stats = cache.cache_stats();
    assert_eq!(stats.author_cache_size, 1);
}

#[test]
fn test_optimized_manager() {
    let mut manager = OptimizedMessageManager::with_defaults();
    manager.add_message(create_test_message("user1", "Hello"));
    manager.add_message(create_test_message("user2", "World"));
    assert_eq!(manager.messages().len(), 2);
    let stats = manager.comprehensive_stats();
    assert_eq!(stats.message_count, 2);
    let used_memory = stats.message_count * std::mem::size_of::<GuiChatMessage>();
    assert!(used_memory > 0);
}

#[test]
fn pool_blanks_reused_messages_and_respects_its_limit() {
    let mut pool = MessagePool::new(1);
    let mut m = create_test_message("ann", "hello");
    m.id = "keep".to_string();
    pool.release(m);
    pool.release(create_test_message("bob", "dropped"));
    assert_eq!(pool.stats().pool_size, 1);
    let r = pool.acquire();
    assert_eq!(r.id, "keep");
    assert!(r.author.is_empty() && r.content.is_empty() && r.channel_id.is_empty());
    assert_eq!(r.message_type, MessageType::Text);
    let fresh = pool.acquire();
    assert!(fresh.id.is_empty());
    pool.clear();
    assert_eq!(pool.stats().created_count, 1);
}

#[test]
fn shared_cache_evicts_the_oldest_when_full() {
    let mut cache = SharedDataCache::new(4);
    let a = cache.get_shared_author("a");
    cache.get_shared_author("b");
    cache.get_shared_author("c");
    assert_eq!(cache.cache_stats().author_cache_size, 2);
    let a2 = cache.get_shared_author("a");
    assert!(!Arc::ptr_eq(&a, &a2));
    assert_eq!(*a2, "a");
    let ch = cache.get_shared_channel_id("x");
    assert_eq!(*ch, "x");
    let stats = cache.cache_stats();
    assert_eq!(stats.total_cache_size, 3);
    assert_eq!(stats.max_cache_size, 4);
    cache.clear();
    assert_eq!(cache.cache_stats().total_cache_size, 0);
    let mut manager = OptimizedMessageManager::with_time_limit(1);
    manager.add_messages_batch(vec![create_test_message("u", "m")]);
    assert_eq!(manager.len(), 1);
    manager.clear_all();
    assert!(manager.is_empty());
    assert!(matches!(manager.get_buffer_strategy(), BufferStrategy::TimeBased { max_hours: 1 }));
}

#[test]
fn buffers_with_any_memory_budget_can_be_made() {
    let b = FlexibleMessageBuffer::new(BufferStrategy::MemoryBased { max_memory_mb: usize::MAX });
    assert_eq!(b.len(), 0);
    assert!(b.is_empty());
    assert_eq!(b.messages().len(), 0);
    assert_eq!(b.total_count(), 0);
    assert_eq!(b.dropped_count(), 0);
    let m = OptimizedMessageManager::with_memory_limit(usize::MAX);
    assert!(m.is_empty());
}

#[test]
fn optimizing_memory_empties_the_pool() {
    let mut m = OptimizedMessageManager::with_defaults();
    m.add_message(create_test_message("a", "hello"));
    m.optimize_memory();
    let stats = m.comprehensive_stats();
    assert_eq!(stats.pool_stats.pool_size, 0);
    assert_eq!(stats.pool_stats.max_pool_size, 100);
    assert_eq!(stats.cache_stats.max_cache_size, 500);
    assert_eq!(m.len(), 1);
}

#[test]
fn fixed_limit_keeps_the_newest_over_pushes_and_batches() {
    let mut b = FlexibleMessageBuffer::new(BufferStrategy::FixedLimit(3));
    b.push(create_test_message("a", "1"));
    b.push_batch(vec![create_test_message("b", "2"), create_test_message("c", "3")]);
    b.push(create_test_message("d", "4"));
    b.push_batch(vec![create_test_message("e", "5"), create_test_message("f", "6")]);
    let kept: Vec<&str> = b.messages().iter().map(|m| m.content.as_str()).collect();
    assert_eq!(kept, vec!["4", "5", "6"]);
    assert_eq!(b.dropped_count(), 3);
    assert_eq!(b.total_count(), 6);
}

#[test]
fn memory_stats_count_bytes_of_messages_and_allocation() {
    let mut buffer = FlexibleMessageBuffer::new(BufferStrategy::Unlimited);
    for i in 0..5 {
        buffer.push(create_test_message(&format!("user{}", i), "msg"));
    }
    let stats = buffer.memory_stats();
    let size = std::mem::size_of::<GuiChatMessage>();
    assert_eq!(stats.message_count, 5);
    assert_eq!(stats.used_memory, 5 * size);
    assert!(stats.buffer_capacity >= 5);
    assert_eq!(stats.allocated_memory, stats.buffer_capacity * size);
}
