//! Settings of the highlighting of recent messages.
use vstd::prelude::*;

verus! {

/// How recent messages are highlighted.
#[derive(Debug, Clone)]
pub struct HighlightConfig {
    /// Whether highlighting is on.
    pub enabled: bool,
    /// How long a message stays highlighted, in seconds.
    pub duration_seconds: u64,
    /// How many messages may be highlighted at once.
    pub max_messages: usize,
}

impl Default for HighlightConfig {
    /// On, eight seconds, at most twenty messages.
    fn default() -> (c: Self)
        ensures
            c.enabled,
            c.duration_seconds == 8,
            c.max_messages == 20,
    {
        HighlightConfig { enabled: true, duration_seconds: 8, max_messages: 20 }
    }
}

impl HighlightConfig {
    /// How many messages the backup highlighting may mark: half of
    /// `max_messages`, rounded up.
    pub fn get_backup_max_messages(&self) -> (n: usize)
        ensures
            n == (self.max_messages + 1) / 2,
            2 * n == self.max_messages || 2 * n == self.max_messages + 1,
    {
        self.max_messages / 2 + self.max_messages % 2
    }

    /// How often the backup highlighting checks, in milliseconds: always 500.
    pub fn get_backup_check_interval_ms(&self) -> (ms: u64)
        ensures
            ms == 500,
    {
        500
    }
}

} // verus!
