//! Error types and repository settings shared by the services.
use vstd::prelude::*;

use crate::text::push_str;

verus! {

/// Failure while processing a chat message.
#[derive(Debug, Clone, PartialEq, Eq)]
pub enum ProcessingError {
    Conversion(String),
    Validation(String),
    Format(String),
    Processing(String),
}

/// Failure of a message repository.
#[derive(Debug, Clone, PartialEq, Eq)]
pub enum RepositoryError {
    Database(String),
    FileSystem(String),
    Serialization(String),
    Network(String),
    NotFound(String),
}

/// Failure of the configuration store.
#[derive(Debug, Clone, PartialEq, Eq)]
pub enum ConfigError {
    Serialization(String),
    Validation(String),
    FileAccess(String),
    PermissionDenied(String),
}

/// `prefix` followed by `detail`.
fn labelled(prefix: &str, detail: &String) -> (s: String)
    ensures
        s@ == prefix@ + detail@,
{
    let mut s = String::from_str(prefix);
    push_str(&mut s, detail.as_str());
    s
}

impl ProcessingError {
    /// The error's message.
    pub open spec fn message(&self) -> Seq<char> {
        match self {
            ProcessingError::Conversion(d) => "Conversion error: "@ + d@,
            ProcessingError::Validation(d) => "Validation error: "@ + d@,
            ProcessingError::Format(d) => "Format error: "@ + d@,
            ProcessingError::Processing(d) => "Processing failed: "@ + d@,
        }
    }

    /// The error's message.
    pub fn to_message(&self) -> (s: String)
        ensures
            s@ == self.message(),
    {
        match self {
            ProcessingError::Conversion(d) => labelled("Conversion error: ", d),
            ProcessingError::Validation(d) => labelled("Validation error: ", d),
            ProcessingError::Format(d) => labelled("Format error: ", d),
            ProcessingError::Processing(d) => labelled("Processing failed: ", d),
        }
    }
}

impl RepositoryError {
    /// The error's message.
    pub open spec fn message(&self) -> Seq<char> {
        match self {
            RepositoryError::Database(d) => "Database error: "@ + d@,
            RepositoryError::FileSystem(d) => "File system error: "@ + d@,
            RepositoryError::Serialization(d) => "Serialization error: "@ + d@,
            RepositoryError::Network(d) => "Network error: "@ + d@,
            RepositoryError::NotFound(d) => "Not found: "@ + d@,
        }
    }

    /// The error's message.
    pub fn to_message(&self) -> (s: String)
        ensures
            s@ == self.message(),
    {
        match self {
            RepositoryError::Database(d) => labelled("Database error: ", d),
            RepositoryError::FileSystem(d) => labelled("File system error: ", d),
            RepositoryError::Serialization(d) => labelled("Serialization error: ", d),
            RepositoryError::Network(d) => labelled("Network error: ", d),
            RepositoryError::NotFound(d) => labelled("Not found: ", d),
        }
    }
}

impl ConfigError {
    /// The error's message.
    pub open spec fn message(&self) -> Seq<char> {
        match self {
            ConfigError::Serialization(d) => "Serialization error: "@ + d@,
            ConfigError::Validation(d) => "Validation error: "@ + d@,
            ConfigError::FileAccess(d) => "File access error: "@ + d@,
            ConfigError::PermissionDenied(d) => "Permission denied: "@ + d@,
        }
    }

    /// The error's message.
    pub fn to_message(&self) -> (s: String)
        ensures
            s@ == self.message(),
    {
        match self {
            ConfigError::Serialization(d) => labelled("Serialization error: ", d),
            ConfigError::Validation(d) => labelled("Validation error: ", d),
            ConfigError::FileAccess(d) => labelled("File access error: ", d),
            ConfigError::PermissionDenied(d) => labelled("Permission denied: ", d),
        }
    }
}

/// Order in which stored messages are listed.
#[derive(Debug, Clone, Copy, PartialEq, Eq, Structural)]
pub enum MessageSortOrder {
    Chronological,
    ReverseChronological,
    ByAuthor,
    ByAmount,
}

/// Kind of message store.
#[derive(Debug, Clone, Copy, PartialEq, Eq, Structural)]
pub enum RepositoryType {
    Memory,
    File,
    Database,
    Network,
}

/// Settings of a message store.
#[derive(Debug, Clone)]
pub struct RepositoryConfig {
    pub repository_type: RepositoryType,
    pub connection_string: String,
    pub batch_size: usize,
    pub auto_flush: bool,
    pub compression_enabled: bool,
}

impl Default for RepositoryConfig {
    fn default() -> (c: Self)
        ensures
            c.repository_type == RepositoryType::Memory,
            c.connection_string@ == "memory://"@,
            c.batch_size == 100,
            c.auto_flush,
            !c.compression_enabled,
    {
        RepositoryConfig {
            repository_type: RepositoryType::Memory,
            connection_string: String::from_str("memory://"),
            batch_size: 100,
            auto_flush: true,
            compression_enabled: false,
        }
    }
}


/// Which messages a view shows. (Bounds on the amounts of paid messages
/// are applied by the caller, who reads amounts as numbers.)
#[derive(Debug, Clone)]
pub struct MessageFilterConfig {
    pub include_system_messages: bool,
    pub include_super_chat: bool,
    pub include_membership: bool,
    /// When set, only authors whose name contains this (in any case).
    pub author_filter: Option<String>,
    /// When set, only messages whose text contains this (in any case).
    pub content_filter: Option<String>,
}

impl Default for MessageFilterConfig {
    /// System messages hidden, paid and membership messages shown, no
    /// author or text filter.
    fn default() -> (c: Self)
        ensures
            !c.include_system_messages,
            c.include_super_chat,
            c.include_membership,
            c.author_filter is None,
            c.content_filter is None,
    {
        MessageFilterConfig {
            include_system_messages: false,
            include_super_chat: true,
            include_membership: true,
            author_filter: None,
            content_filter: None,
        }
    }
}

/// A query for stored messages.
#[derive(Debug, Clone)]
pub struct MessageQuery {
    pub limit: Option<usize>,
    pub offset: Option<usize>,
    pub author: Option<String>,
    pub message_type: Option<String>,
    /// From and to, in microseconds after the Unix epoch.
    pub date_range: Option<(i64, i64)>,
    pub sort_order: MessageSortOrder,
}

impl Default for MessageQuery {
    /// Everything, in chronological order.
    fn default() -> (q: Self)
        ensures
            q.limit is None,
            q.offset is None,
            q.author is None,
            q.message_type is None,
            q.date_range is None,
            q.sort_order == MessageSortOrder::Chronological,
    {
        MessageQuery {
            limit: None,
            offset: None,
            author: None,
            message_type: None,
            date_range: None,
            sort_order: MessageSortOrder::Chronological,
        }
    }
}

/// Counts over the messages processed. (Amounts of paid messages are
/// summed by the caller, who reads them as numbers.)
#[derive(Debug, Clone)]
pub struct MessageStatistics {
    pub total_messages: usize,
    /// The distinct authors, in the order they first wrote.
    pub unique_authors: Vec<String>,
    /// Paid messages (Super Chats and Super Stickers).
    pub super_chat_count: usize,
    pub membership_count: usize,
    /// Bytes of message text, summed.
    pub total_message_length: usize,
    pub emoji_count: usize,
}

impl Default for MessageStatistics {
    /// Nothing counted.
    fn default() -> (s: Self)
        ensures
            s.total_messages == 0,
            s.unique_authors@.len() == 0,
            s.super_chat_count == 0,
            s.membership_count == 0,
            s.total_message_length == 0,
            s.emoji_count == 0,
    {
        MessageStatistics {
            total_messages: 0,
            unique_authors: Vec::new(),
            super_chat_count: 0,
            membership_count: 0,
            total_message_length: 0,
            emoji_count: 0,
        }
    }
}

} // verus!
