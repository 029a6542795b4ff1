//! The display state of the chat view: the messages shown, the scrolling
//! flags and how many messages have already been seen.
use vstd::prelude::*;

use crate::models::{ActiveTab, GuiChatMessage};

verus! {

/// The display state of the chat view.
pub struct ChatDisplayState {
    /// The messages received.
    pub messages: Vec<GuiChatMessage>,
    /// The messages that pass the filter.
    pub filtered_messages: Vec<GuiChatMessage>,
    /// Whether the view follows new messages.
    pub auto_scroll_enabled: bool,
    /// Whether the user scrolled by hand.
    pub user_has_scrolled: bool,
    pub current_tab: ActiveTab,
    pub show_filter_panel: bool,
    pub show_timestamps: bool,
    /// How many filtered messages had been shown when last looked at.
    pub last_message_count: usize,
    pub show_test_button: bool,
}

/// Whether `current` messages hold some not yet seen when `last` were.
pub open spec fn has_new(current: nat, last: nat) -> bool {
    current > last
}

/// How many of `current` messages came after the `last` seen (none when
/// fewer are shown now).
pub open spec fn new_count(current: nat, last: nat) -> nat {
    if current > last {
        (current - last) as nat
    } else {
        0
    }
}

impl ChatDisplayState {
    /// The state at start: no messages, following new ones, the chat tab.
    pub fn new() -> (s: Self)
        ensures
            s.messages@.len() == 0,
            s.filtered_messages@.len() == 0,
            s.auto_scroll_enabled,
            !s.user_has_scrolled,
            s.current_tab == ActiveTab::ChatMonitor,
            !s.show_filter_panel,
            s.show_timestamps,
            s.last_message_count == 0,
            !s.show_test_button,
    {
        ChatDisplayState {
            messages: Vec::new(),
            filtered_messages: Vec::new(),
            auto_scroll_enabled: true,
            user_has_scrolled: false,
            current_tab: ActiveTab::ChatMonitor,
            show_filter_panel: false,
            show_timestamps: true,
            last_message_count: 0,
            show_test_button: false,
        }
    }

    /// A state showing `messages` as they are.
    pub fn from_external_signals(messages: Vec<GuiChatMessage>) -> (s: Self)
        ensures
            s.messages@ == messages@,
            s.filtered_messages@.len() == 0,
            s.auto_scroll_enabled,
            !s.user_has_scrolled,
            s.current_tab == ActiveTab::ChatMonitor,
            s.last_message_count == 0,
    {
        let mut state = ChatDisplayState::new();
        state.messages = messages;
        state
    }

    /// Whether more filtered messages are shown than were last seen.
    pub fn has_new_messages(&self) -> (r: bool)
        ensures
            r == has_new(self.filtered_messages@.len(), self.last_message_count as nat),
    {
        self.filtered_messages.len() > self.last_message_count
    }

    /// How many filtered messages came since they were last seen.
    pub fn get_new_message_count(&self) -> (n: usize)
        ensures
            n == new_count(self.filtered_messages@.len(), self.last_message_count as nat),
    {
        let current = self.filtered_messages.len();
        if current > self.last_message_count {
            current - self.last_message_count
        } else {
            0
        }
    }

    /// Marks the filtered messages as seen.
    pub fn update_last_message_count(&mut self)
        ensures
            final(self).last_message_count == old(self).filtered_messages@.len(),
            final(self).filtered_messages == old(self).filtered_messages,
            final(self).messages == old(self).messages,
            final(self).auto_scroll_enabled == old(self).auto_scroll_enabled,
            final(self).user_has_scrolled == old(self).user_has_scrolled,
    {
        self.last_message_count = self.filtered_messages.len();
    }

    /// Whether the view scrolls to new messages: following is on and the
    /// user has not scrolled by hand.
    pub fn should_auto_scroll(&self) -> (r: bool)
        ensures
            r == (self.auto_scroll_enabled && !self.user_has_scrolled),
    {
        self.auto_scroll_enabled && !self.user_has_scrolled
    }

    /// Starts over after the connection was reset: nothing seen, no
    /// scrolling by hand.
    pub fn reset_state(&mut self)
        ensures
            final(self).last_message_count == 0,
            !final(self).user_has_scrolled,
            final(self).messages == old(self).messages,
            final(self).filtered_messages == old(self).filtered_messages,
            final(self).auto_scroll_enabled == old(self).auto_scroll_enabled,
            final(self).current_tab == old(self).current_tab,
    {
        self.last_message_count = 0;
        self.user_has_scrolled = false;
    }
}

/// Once the shown messages are marked as seen, none is new until more are
/// shown; and there are new messages exactly when their count is not zero.
pub proof fn lemma_seen_messages_are_not_new(current: nat, last: nat)
    ensures
        has_new(current, last) <==> new_count(current, last) > 0,
        !has_new(current, current),
        new_count(current, current) == 0,
        new_count(current, last) <= current,
{
}

impl Default for ChatDisplayState {
    fn default() -> (s: Self)
        ensures
            s.messages@.len() == 0,
            s.filtered_messages@.len() == 0,
            s.auto_scroll_enabled,
            !s.user_has_scrolled,
            s.current_tab == ActiveTab::ChatMonitor,
            s.last_message_count == 0,
    {
        ChatDisplayState::new()
    }
}

} // verus!
