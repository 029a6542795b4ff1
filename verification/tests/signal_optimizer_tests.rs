use liscov_core::signal_optimizer::{
    next_batch_step, wait_before_next_frame, BatchStep,
    BatchUpdateManager, BatchUpdateType, OptimizationType, SignalDependencyGraph, SignalType,
};

fn sample_graph() -> SignalDependencyGraph {
    let mut g = SignalDependencyGraph::new();
    g.register_signal("chat_a".to_string(), SignalType::ChatMessage, "ChatDisplay".to_string());
    g.register_signal("chat_b".to_string(), SignalType::ChatMessage, "Sidebar".to_string());
    g.register_signal("scroll".to_string(), SignalType::ScrollPosition, "ChatDisplay".to_string());
    g.register_signal("custom".to_string(), SignalType::Custom("x".to_string()), "Sidebar".to_string());
    g
}

#[test]
fn signal_registration_counts() {
    let mut g = sample_graph();
    assert_eq!(g.get_stats().total_signals, 4);
    assert_eq!(g.list_signals().len(), 4);
    g.register_signal("chat_a".to_string(), SignalType::FilteredMessage, "Other".to_string());
    assert_eq!(g.get_stats().total_signals, 4);
    let signals = g.list_signals();
    assert_eq!(signals[0].id, "chat_a");
    assert_eq!(signals[0].signal_type, SignalType::FilteredMessage);
    assert_eq!(signals[0].component, "Other");
}

#[test]
fn signal_duplicates_and_unused() {
    let mut g = sample_graph();
    assert_eq!(g.detect_duplicate_signals(), vec![vec!["chat_a".to_string(), "chat_b".to_string()]]);
    g.record_update("chat_a");
    g.record_update("chat_a");
    g.record_update("missing");
    assert_eq!(g.list_signals()[0].update_count, 2);
    assert!(g.list_signals()[0].last_updated.is_some());
    assert_eq!(g.detect_unused_signals(), vec!["chat_b".to_string(), "scroll".to_string(), "custom".to_string()]);
    g.update_stats();
    let stats = g.get_stats();
    assert_eq!(stats.total_signals, 4);
    assert_eq!(stats.duplicate_signals, 1);
    assert_eq!(stats.unused_signals, 3);
    assert_eq!(stats.memory_usage, 0);
}

#[test]
fn signal_custom_kinds_compare_by_name() {
    let mut g = SignalDependencyGraph::new();
    g.register_signal("a".to_string(), SignalType::Custom("x".to_string()), "C".to_string());
    g.register_signal("b".to_string(), SignalType::Custom("y".to_string()), "C".to_string());
    g.register_signal("c".to_string(), SignalType::Custom("x".to_string()), "C".to_string());
    assert_eq!(g.detect_duplicate_signals(), vec![vec!["a".to_string(), "c".to_string()]]);
}

#[test]
fn signal_analysis_report_text() {
    let mut g = sample_graph();
    g.record_update("scroll");
    let report = g.generate_analysis_report();
    let expected_lines = [
        "=== Signal Optimization Analysis Report ===\n",
        "\n",
        "📊 Total Signals: 4\n",
        "🔄 Duplicate Signals: 1\n",
        "🗑️ Unused Signals: 3\n",
        "💾 Memory Usage: 0 bytes\n",
        "\n",
        "📦 Signals by Component:\n",
        "  ChatDisplay -> 2 signals\n",
        "  Sidebar -> 2 signals\n",
        "\n",
        "🔍 Duplicate Signal Groups:\n",
        "  Group 1: ChatMessage (2 signals)\n",
        "    - chat_a (ChatDisplay)\n",
        "    - chat_b (Sidebar)\n",
        "\n",
        "💡 Optimization Recommendations:\n",
        "  1. [Priority 1] Merge 2 duplicate signals of same type\n",
        "     Expected improvement: 20.0%\n",
        "     Affected signals: 2\n",
        "  2. [Priority 2] Remove 3 unused signals\n",
        "     Expected improvement: 30.0%\n",
        "     Affected signals: 3\n",
    ];
    let expected: String = expected_lines.concat();
    assert_eq!(report, expected);
    assert_eq!(g.get_stats().unused_signals, 3);
}

#[test]
fn signal_report_without_recommendations() {
    let mut g = SignalDependencyGraph::new();
    g.register_signal("only".to_string(), SignalType::Custom("q\"x".to_string()), "C".to_string());
    g.record_update("only");
    let report = g.generate_analysis_report();
    assert!(report.ends_with("  C -> 1 signals\n\n✅ No optimization recommendations at this time.\n"));
    let mut g = SignalDependencyGraph::new();
    g.register_signal("a".to_string(), SignalType::Custom("q\"x".to_string()), "C".to_string());
    g.register_signal("b".to_string(), SignalType::Custom("q\"x".to_string()), "C".to_string());
    let report = g.generate_analysis_report();
    assert!(report.contains("  Group 1: Custom(\"q\\\"x\") (2 signals)\n"));
}

#[test]
fn batch_queue_priorities() {
    let mut m = BatchUpdateManager::new();
    m.queue_update("n1".to_string(), BatchUpdateType::Normal);
    m.queue_update("h1".to_string(), BatchUpdateType::HighPriority);
    m.queue_update("d1".to_string(), BatchUpdateType::DomUpdate);
    m.queue_update("h2".to_string(), BatchUpdateType::HighPriority);
    m.queue_update("l1".to_string(), BatchUpdateType::LowPriority);
    m.queue_update("d2".to_string(), BatchUpdateType::DomUpdate);
    assert_eq!(m.queue_size(), 6);
    let stats = m.get_stats();
    assert_eq!(stats.total_batched, 6);
    assert_eq!(stats.high_priority_count, 2);
    assert_eq!(stats.dom_update_count, 2);
    let frame = m.collect_frame_items();
    let ids: Vec<&str> = frame.iter().map(|i| i.signal_id.as_str()).collect();
    assert_eq!(ids, vec!["h2", "h1", "d2", "d1", "n1"]);
    assert_eq!(m.queue_size(), 1);
    let rest = m.collect_frame_items();
    assert_eq!(rest[0].signal_id, "l1");
    assert_eq!(m.queue_size(), 0);
    assert!(m.collect_frame_items().is_empty());
}

#[test]
fn signal_duplicate_figure_sums_group_excess() {
    let mut g = SignalDependencyGraph::new();
    g.register_signal("a".to_string(), SignalType::ShowTimestamps, "X".to_string());
    g.register_signal("b".to_string(), SignalType::ShowTimestamps, "X".to_string());
    g.register_signal("c".to_string(), SignalType::ScrollPosition, "Y".to_string());
    g.register_signal("d".to_string(), SignalType::ShowTimestamps, "Y".to_string());
    g.register_signal("e".to_string(), SignalType::ScrollPosition, "Y".to_string());
    g.register_signal("f".to_string(), SignalType::MessageFilter, "Z".to_string());
    g.update_stats();
    let groups = g.detect_duplicate_signals();
    let excess: usize = groups.iter().map(|grp| grp.len() - 1).sum();
    assert_eq!(g.get_stats().duplicate_signals, excess);
    assert_eq!(excess, 3);
}

#[test]
fn optimization_recommendations_merge_then_remove() {
    let mut g = sample_graph();
    g.record_update("chat_a");
    let recs = g.generate_optimization_recommendations();
    assert_eq!(recs.len(), 2);
    assert_eq!(recs[0].recommendation_type, OptimizationType::MergeDuplicate);
    assert_eq!(recs[0].signal_ids, vec!["chat_a".to_string(), "chat_b".to_string()]);
    assert_eq!(recs[0].expected_improvement_percent, 20);
    assert_eq!(recs[0].description, "Merge 2 duplicate signals of same type");
    assert_eq!(recs[0].priority, 1);
    assert_eq!(recs[1].recommendation_type, OptimizationType::RemoveUnused);
    assert_eq!(recs[1].signal_ids.len(), 3);
    assert_eq!(recs[1].expected_improvement_percent, 30);
    assert_eq!(recs[1].description, "Remove 3 unused signals");
    assert_eq!(recs[1].priority, 2);
    let mut empty = SignalDependencyGraph::new();
    assert!(empty.generate_optimization_recommendations().is_empty());
}

#[test]
fn unused_signals_follow_the_history() {
    let mut g = SignalDependencyGraph::new();
    g.register_signal("a".to_string(), SignalType::ChatMessage, "C".to_string());
    g.register_signal("b".to_string(), SignalType::ChatMessage, "C".to_string());
    g.record_update("a");
    assert_eq!(g.detect_unused_signals(), vec!["b".to_string()]);
    g.record_update("nobody");
    assert_eq!(g.detect_unused_signals(), vec!["b".to_string()]);
    // Registering again starts the signal over, unused.
    g.register_signal("a".to_string(), SignalType::ChatMessage, "C".to_string());
    assert_eq!(g.detect_unused_signals(), vec!["a".to_string(), "b".to_string()]);
}

#[test]
fn batch_runs_stop_when_empty_or_past_the_budget() {
    assert_eq!(next_batch_step(0, 0), BatchStep::Done);
    assert_eq!(next_batch_step(0, 500_000_000), BatchStep::Done);
    assert_eq!(next_batch_step(3, 100_000_000), BatchStep::RunFrame);
    assert_eq!(next_batch_step(3, 100_000_001), BatchStep::TimedOut);
    assert!(wait_before_next_frame(5, 12));
    assert!(!wait_before_next_frame(12, 12));
}

#[test]
fn duplicate_figure_is_signals_less_kinds() {
    let mut g = sample_graph();
    g.update_stats();
    // Four signals of three kinds (two chat messages).
    assert_eq!(g.get_stats().duplicate_signals, 1);
}
