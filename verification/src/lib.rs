//! Verified core of a YouTube live chat monitor.
pub mod analytics;
pub mod app_state;
pub mod chat_display_state;
pub mod chat_item;
pub mod clock;
pub mod highlight;
pub mod launcher;
pub mod memory_optimized;
pub mod message_filter;
pub mod message_processor;
pub mod message_stream;
pub mod models;
pub mod monitoring;
pub mod notification;
pub mod patterns;
pub mod plugin_system;
pub mod signal_manager;
pub mod signal_optimizer;
pub mod stream_end_detector;
pub mod system_messages;
pub mod text;
pub mod theme;
pub mod timer_service;
pub mod traits;
pub mod tts;
pub mod unified_config;
pub mod utils;
