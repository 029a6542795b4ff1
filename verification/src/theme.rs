//! CSS class names for messages, the connection status and buttons.
use vstd::prelude::*;

use crate::models::MessageType;
use crate::text::{push_str, str_eq};

verus! {

/// Names of the CSS classes of the user interface.
pub struct CssClasses;

impl CssClasses {
    pub const APP: &'static str = "app";
    pub const MAIN_WINDOW: &'static str = "main-window";
    pub const MAIN_CONTENT: &'static str = "main-content";
    pub const LEFT_PANEL: &'static str = "left-panel";
    pub const RIGHT_PANEL: &'static str = "right-panel";
    pub const APP_HEADER: &'static str = "app-header";
    pub const APP_TITLE: &'static str = "app-title";
    pub const APP_SUBTITLE: &'static str = "app-subtitle";
    pub const INPUT_SECTION: &'static str = "input-section";
    pub const FORM_GROUP: &'static str = "form-group";
    pub const FORM_LABEL: &'static str = "form-label";
    pub const FORM_INPUT: &'static str = "form-input";
    pub const BTN: &'static str = "btn";
    pub const BTN_PRIMARY: &'static str = "btn-primary";
    pub const BTN_DANGER: &'static str = "btn-danger";
    pub const BTN_WARNING: &'static str = "btn-warning";
    pub const BTN_SECONDARY: &'static str = "btn-secondary";
    pub const BTN_GROUP: &'static str = "btn-group";
    pub const CHAT_DISPLAY: &'static str = "chat-display";
    pub const CHAT_HEADER: &'static str = "chat-header";
    pub const CHAT_FOOTER: &'static str = "chat-footer";
    pub const CONNECTION_STATUS: &'static str = "connection-status";
    pub const CHAT_CONTROLS: &'static str = "chat-controls";
    pub const CHECKBOX_LABEL: &'static str = "checkbox-label";
    pub const MESSAGE_LIST: &'static str = "message-list";
    pub const CHAT_MESSAGE: &'static str = "chat-message";
    pub const MESSAGE_HEADER: &'static str = "message-header";
    pub const MESSAGE_AUTHOR: &'static str = "message-author";
    pub const MESSAGE_TIMESTAMP: &'static str = "message-timestamp";
    pub const MESSAGE_CONTENT: &'static str = "message-content";
    pub const NO_MESSAGES: &'static str = "no-messages";
    pub const STATUS_PANEL: &'static str = "status-panel";
    pub const STATUS_HEADER: &'static str = "status-header";
    pub const STATS_GRID: &'static str = "stats-grid";
    pub const STAT_ITEM: &'static str = "stat-item";
    pub const STAT_VALUE: &'static str = "stat-value";
    pub const STAT_LABEL: &'static str = "stat-label";
    pub const ERROR_MESSAGE: &'static str = "error-message";
    pub const FOOTER_STATS: &'static str = "footer-stats";
}

/// The class of a message type.
pub open spec fn type_class(t: MessageType) -> Seq<char> {
    match t {
        MessageType::Text => "text"@,
        MessageType::System => "system"@,
        MessageType::SuperChat { .. } => "superchat"@,
        MessageType::SuperSticker { .. } => "superchat"@,
        MessageType::Membership { .. } => "system"@,
        MessageType::MembershipGift { .. } => "membership-gift"@,
    }
}

/// The classes of a message: `chat-message` and the class of its type.
pub fn get_message_class(message_type: &MessageType) -> (r: String)
    ensures
        r@ == "chat-message "@ + type_class(*message_type),
{
    let type_class = match message_type {
        MessageType::Text => "text",
        MessageType::System => "system",
        MessageType::SuperChat { .. } => "superchat",
        MessageType::SuperSticker { .. } => "superchat",
        MessageType::Membership { .. } => "system",
        MessageType::MembershipGift { .. } => "membership-gift",
    };
    let mut s = String::from_str("chat-message ");
    push_str(&mut s, type_class);
    s
}

/// The class of a connection state.
pub open spec fn status_class(is_connected: bool, is_connecting: bool) -> Seq<char> {
    if is_connecting {
        "connecting"@
    } else if is_connected {
        "connected"@
    } else {
        "disconnected"@
    }
}

/// The classes of the connection status: `connection-status` and the state.
pub fn get_connection_status_class(is_connected: bool, is_connecting: bool) -> (r: String)
    ensures
        r@ == "connection-status "@ + status_class(is_connected, is_connecting),
{
    let status = if is_connecting {
        "connecting"
    } else if is_connected {
        "connected"
    } else {
        "disconnected"
    };
    let mut s = String::from_str("connection-status ");
    push_str(&mut s, status);
    s
}

/// The class of a button variant; unknown variants are primary buttons.
pub open spec fn variant_class(variant: Seq<char>) -> Seq<char> {
    if variant == "primary"@ {
        "btn-primary"@
    } else if variant == "danger"@ {
        "btn-danger"@
    } else if variant == "warning"@ {
        "btn-warning"@
    } else if variant == "secondary"@ {
        "btn-secondary"@
    } else {
        "btn-primary"@
    }
}

/// The classes of a button: `btn`, its variant, and `disabled` if so.
pub fn get_button_class(variant: &str, disabled: bool) -> (r: String)
    ensures
        r@ == "btn "@ + variant_class(variant@) + (if disabled { " disabled"@ } else { ""@ }),
{
    let chosen = if str_eq(variant, "primary") {
        "btn-primary"
    } else if str_eq(variant, "danger") {
        "btn-danger"
    } else if str_eq(variant, "warning") {
        "btn-warning"
    } else if str_eq(variant, "secondary") {
        "btn-secondary"
    } else {
        "btn-primary"
    };
    let mut s = String::from_str("btn ");
    push_str(&mut s, chosen);
    if disabled {
        push_str(&mut s, " disabled");
    }
    proof {
        reveal_strlit("");
    }
    assert(s@ =~= "btn "@ + variant_class(variant@) + (if disabled { " disabled"@ } else { ""@ }));
    s
}

} // verus!
