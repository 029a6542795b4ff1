//! Decisions of the live chat monitor: its service states, the pacing of
//! its polls, and what it does after a failed request.
use vstd::prelude::*;

use crate::stream_end_detector::DetectionResult;
use crate::text::{decimal, push_decimal, push_str, seq_contains, str_contains};

verus! {

/// State of the live chat service.
#[derive(Debug, Clone, PartialEq)]
pub enum ServiceState {
    Idle,
    Connecting,
    Connected,
    Paused,
    Error(String),
}

/// Poll interval used when the server suggests none, or after an error (ms).
pub open spec fn default_poll_interval() -> u64 {
    1500
}

/// A suggested poll interval, kept between 300 ms and 1500 ms.
pub open spec fn clamped_interval(ms: u64) -> u64 {
    if ms < 300 {
        300
    } else if ms > 1500 {
        1500
    } else {
        ms
    }
}

/// The wait before the next poll after a successful response: with a next
/// continuation, its suggested interval (kept between 300 and 1500 ms,
/// 1500 when it suggests none) less the time the request took, but at least
/// 100 ms; without one, 1500 ms.
pub open spec fn delay_after_response(has_continuation: bool, timeout_ms: Option<u64>, elapsed_ms: u64) -> u64 {
    if has_continuation {
        let target = match timeout_ms {
            Some(ms) => clamped_interval(ms),
            None => default_poll_interval(),
        };
        let rest = if target >= elapsed_ms {
            (target - elapsed_ms) as u64
        } else {
            0
        };
        if rest < 100 {
            100
        } else {
            rest
        }
    } else {
        default_poll_interval()
    }
}

/// The wait before the next poll after a successful response.
pub fn poll_delay_after_response(has_continuation: bool, timeout_ms: Option<u64>, elapsed_ms: u64) -> (d: u64)
    ensures
        d == delay_after_response(has_continuation, timeout_ms, elapsed_ms),
        100 <= d <= 1500,
{
    if !has_continuation {
        return 1500;
    }
    let target: u64 = match timeout_ms {
        Some(ms) => if ms < 300 {
            300
        } else if ms > 1500 {
            1500
        } else {
            ms
        },
        None => 1500,
    };
    let rest = target.saturating_sub(elapsed_ms);
    if rest < 100 {
        100
    } else {
        rest
    }
}

/// The pause after the `n`-th consecutive failed request, in seconds: none
/// before the third; then, for an error that names 403 or Forbidden,
/// three seconds per error up to thirty, else two per error up to twenty.
pub open spec fn error_wait(error: Seq<char>, n: nat) -> Option<u64> {
    if n < 3 {
        None
    } else if seq_contains(error, "403"@) || seq_contains(error, "Forbidden"@) {
        Some(if 3 * n < 30 { (3 * n) as u64 } else { 30 })
    } else {
        Some(if 2 * n < 20 { (2 * n) as u64 } else { 20 })
    }
}

/// The pause after the `n`-th consecutive failed request with error text `error`.
pub fn error_wait_secs(error: &str, consecutive_errors: usize) -> (w: Option<u64>)
    ensures
        w == error_wait(error@, consecutive_errors as nat),
        w matches Some(x) ==> 6 <= x <= 30,
{
    if consecutive_errors < 3 {
        return None;
    }
    let n: u64 = if consecutive_errors < 100 { consecutive_errors as u64 } else { 100 };
    if str_contains(error, "403") || str_contains(error, "Forbidden") {
        Some(if n < 10 { 3 * n } else { 30 })
    } else {
        Some(if n < 10 { 2 * n } else { 20 })
    }
}

/// The pause after the `n`-th consecutive timed-out request, in seconds:
/// none before the third, then two per error up to twenty.
pub open spec fn timeout_wait(n: nat) -> Option<u64> {
    if n < 3 {
        None
    } else {
        Some(if 2 * n < 20 { (2 * n) as u64 } else { 20 })
    }
}

/// The pause after the `n`-th consecutive timed-out request.
pub fn timeout_wait_secs(consecutive_errors: usize) -> (w: Option<u64>)
    ensures
        w == timeout_wait(consecutive_errors as nat),
        w matches Some(x) ==> 6 <= x <= 20,
{
    if consecutive_errors < 3 {
        None
    } else if consecutive_errors < 10 {
        Some(2 * consecutive_errors as u64)
    } else {
        Some(20)
    }
}

/// The service's state message after the `n`-th consecutive API error.
pub open spec fn api_error_text(n: nat, error: Seq<char>) -> Seq<char> {
    "API Error ("@ + decimal(n) + "): "@ + error
}

/// The service's state message after the `n`-th consecutive API error.
pub fn api_error_message(consecutive_errors: usize, error: &str) -> (m: String)
    ensures
        m@ == api_error_text(consecutive_errors as nat, error@),
{
    let mut m = String::from_str("API Error (");
    push_decimal(&mut m, consecutive_errors as u64);
    push_str(&mut m, "): ");
    push_str(&mut m, error);
    m
}

/// The service's state message after the `n`-th consecutive timeout.
pub open spec fn timeout_text(n: nat) -> Seq<char> {
    "Timeout ("@ + decimal(n) + ")"@
}

/// The service's state message after the `n`-th consecutive timeout.
pub fn timeout_message(consecutive_errors: usize) -> (m: String)
    ensures
        m@ == timeout_text(consecutive_errors as nat),
{
    let mut m = String::from_str("Timeout (");
    push_decimal(&mut m, consecutive_errors as u64);
    push_str(&mut m, ")");
    m
}

/// The service's state message when the first page cannot be fetched.
pub fn failed_start_message(error: &str) -> (m: String)
    ensures
        m@ == "Failed to initialize live chat: "@ + error@,
{
    let mut m = String::from_str("Failed to initialize live chat: ");
    push_str(&mut m, error);
    m
}

/// What the receiver does after a failed request.
#[derive(Debug, Clone, PartialEq)]
pub struct ErrorStep {
    /// The service's new state.
    pub state: ServiceState,
    /// Stop receiving.
    pub stop: bool,
    /// Seconds to pause before the next request.
    pub wait_secs: Option<u64>,
}

/// What follows a failed request, given how the end detector judged it:
/// an ended stream makes the service idle and stops it; otherwise the
/// service shows `error_state_message` and goes on, after the given pause
/// if it is not zero.
pub fn handle_detection_result(
    detection_result: DetectionResult,
    error_state_message: String,
    wait_duration_secs: Option<u64>,
) -> (step: ErrorStep)
    ensures
        match detection_result {
            DetectionResult::StreamEnded | DetectionResult::AlreadyEnded => {
                &&& step.state == ServiceState::Idle
                &&& step.stop
                &&& step.wait_secs is None
            },
            _ => {
                &&& step.state == ServiceState::Error(error_state_message)
                &&& !step.stop
                &&& step.wait_secs == (match wait_duration_secs {
                    Some(w) => if w > 0 {
                        Some(w)
                    } else {
                        None
                    },
                    None => None,
                })
            },
        },
{
    match detection_result {
        DetectionResult::StreamEnded | DetectionResult::AlreadyEnded => ErrorStep {
            state: ServiceState::Idle,
            stop: true,
            wait_secs: None,
        },
        _ => {
            let wait_secs = match wait_duration_secs {
                Some(w) => if w > 0 {
                    Some(w)
                } else {
                    None
                },
                None => None,
            };
            ErrorStep { state: ServiceState::Error(error_state_message), stop: false, wait_secs }
        },
    }
}

/// The counters of the message receiver loop.
pub struct MessageReceiverLoop {
    request_count: u64,
    consecutive_errors: usize,
    next_poll_delay_ms: u64,
}

impl MessageReceiverLoop {
    /// Requests started so far.
    pub closed spec fn requests(&self) -> nat {
        self.request_count as nat
    }

    /// Failed requests since the last success.
    pub closed spec fn errors(&self) -> nat {
        self.consecutive_errors as nat
    }

    /// Wait before the next poll, in milliseconds.
    pub closed spec fn delay(&self) -> nat {
        self.next_poll_delay_ms as nat
    }

    /// A loop before its first request, which is made at once.
    pub fn new() -> (l: Self)
        ensures
            l.requests() == 0,
            l.errors() == 0,
            l.delay() == 0,
    {
        MessageReceiverLoop { request_count: 0, consecutive_errors: 0, next_poll_delay_ms: 0 }
    }

    /// Starts a request; returns its number.
    pub fn begin_request(&mut self) -> (n: u64)
        requires
            old(self).requests() < u64::MAX,
        ensures
            n == old(self).requests() + 1,
            final(self).requests() == n,
            final(self).errors() == old(self).errors(),
            final(self).delay() == old(self).delay(),
    {
        self.request_count = self.request_count + 1;
        self.request_count
    }

    /// A successful response: the error count goes back to zero and the
    /// next poll is paced by the response.
    pub fn on_response(&mut self, has_continuation: bool, timeout_ms: Option<u64>, elapsed_ms: u64)
        ensures
            final(self).errors() == 0,
            final(self).delay() == delay_after_response(has_continuation, timeout_ms, elapsed_ms),
            final(self).requests() == old(self).requests(),
    {
        self.consecutive_errors = 0;
        self.next_poll_delay_ms = poll_delay_after_response(has_continuation, timeout_ms, elapsed_ms);
    }

    /// A failed request with error text `error`, and the end detector's
    /// verdict on it.
    pub fn on_api_error(&mut self, error: &str, detection_result: DetectionResult) -> (step: ErrorStep)
        requires
            old(self).errors() < usize::MAX,
        ensures
            final(self).errors() == old(self).errors() + 1,
            final(self).delay() == default_poll_interval(),
            final(self).requests() == old(self).requests(),
            match detection_result {
                DetectionResult::StreamEnded | DetectionResult::AlreadyEnded => step.state
                    == ServiceState::Idle && step.stop && step.wait_secs is None,
                _ => step.state matches ServiceState::Error(m) && m@ == api_error_text(
                    final(self).errors(),
                    error@,
                ) && !step.stop && step.wait_secs == error_wait(error@, final(self).errors()),
            },
    {
        self.consecutive_errors = self.consecutive_errors + 1;
        self.next_poll_delay_ms = 1500;
        let wait = error_wait_secs(error, self.consecutive_errors);
        let message = api_error_message(self.consecutive_errors, error);
        handle_detection_result(detection_result, message, wait)
    }

    /// A timed-out request, and the end detector's verdict on it.
    pub fn on_timeout(&mut self, detection_result: DetectionResult) -> (step: ErrorStep)
        requires
            old(self).errors() < usize::MAX,
        ensures
            final(self).errors() == old(self).errors() + 1,
            final(self).delay() == default_poll_interval(),
            final(self).requests() == old(self).requests(),
            match detection_result {
                DetectionResult::StreamEnded | DetectionResult::AlreadyEnded => step.state
                    == ServiceState::Idle && step.stop && step.wait_secs is None,
                _ => step.state matches ServiceState::Error(m) && m@ == timeout_text(
                    final(self).errors(),
                ) && !step.stop && step.wait_secs == timeout_wait(final(self).errors()),
            },
    {
        self.consecutive_errors = self.consecutive_errors + 1;
        self.next_poll_delay_ms = 1500;
        let wait = timeout_wait_secs(self.consecutive_errors);
        let message = timeout_message(self.consecutive_errors);
        handle_detection_result(detection_result, message, wait)
    }

    /// Requests started so far.
    pub fn request_count(&self) -> (n: u64)
        ensures
            n == self.requests(),
    {
        self.request_count
    }

    /// Failed requests since the last success.
    pub fn consecutive_errors(&self) -> (n: usize)
        ensures
            n == self.errors(),
    {
        self.consecutive_errors
    }

    /// Wait before the next poll, in milliseconds.
    pub fn next_poll_delay_ms(&self) -> (d: u64)
        ensures
            d == self.delay(),
    {
        self.next_poll_delay_ms
    }
}

/// The page to resume from: the last monitored URL, else the one the
/// application state remembers; `None` when neither is known.
pub fn resume_url(last_url: &Option<String>, current_url: &Option<String>) -> (r: Option<String>)
    ensures
        r == match (*last_url, *current_url) {
            (Some(l), _) => Some(l),
            (None, Some(c)) => Some(c),
            _ => None,
        },
{
    match (last_url, current_url) {
        (Some(last), _) => Some(last.clone()),
        (None, Some(current)) => Some(current.clone()),
        _ => None,
    }
}

/// What tells two service states apart: the variant, and an error's text.
pub open spec fn state_view(s: ServiceState) -> (nat, Seq<char>) {
    match s {
        ServiceState::Idle => (0, Seq::empty()),
        ServiceState::Connecting => (1, Seq::empty()),
        ServiceState::Connected => (2, Seq::empty()),
        ServiceState::Paused => (3, Seq::empty()),
        ServiceState::Error(m) => (4, m@),
    }
}

/// Whether two service states are the same.
pub fn same_state(a: &ServiceState, b: &ServiceState) -> (r: bool)
    ensures
        r == (state_view(*a) == state_view(*b)),
{
    match (a, b) {
        (ServiceState::Idle, ServiceState::Idle) => true,
        (ServiceState::Connecting, ServiceState::Connecting) => true,
        (ServiceState::Connected, ServiceState::Connected) => true,
        (ServiceState::Paused, ServiceState::Paused) => true,
        (ServiceState::Error(x), ServiceState::Error(y)) => crate::text::str_eq(x.as_str(), y.as_str()),
        _ => false,
    }
}

/// What the interface follows of the application state.
#[derive(Debug, Clone, PartialEq)]
pub struct UiSnapshot {
    pub message_count: usize,
    pub service_state: ServiceState,
    pub is_connected: bool,
    pub is_stopping: bool,
}

/// The interface needs redrawing: on the first look, or when the number of
/// messages, the service state, the connection or the stopping flag changed.
pub fn ui_needs_update(last: &Option<UiSnapshot>, current: &UiSnapshot) -> (r: bool)
    ensures
        r == match *last {
            None => true,
            Some(l) => l.message_count != current.message_count || state_view(l.service_state)
                != state_view(current.service_state) || l.is_connected != current.is_connected
                || l.is_stopping != current.is_stopping,
        },
{
    match last {
        None => true,
        Some(l) => l.message_count != current.message_count || !same_state(
            &l.service_state,
            &current.service_state,
        ) || l.is_connected != current.is_connected || l.is_stopping != current.is_stopping,
    }
}

/// The advice shown when starting fails with error text `error`.
pub open spec fn friendly_error_text(error: Seq<char>) -> Seq<char> {
    if seq_contains(error, "continuation not found"@) {
        "❌ YouTubeライブ配信が見つかりません。\n\n考えられる原因:\n• 配信が終了している\n• URLが間違っている\n• 配信がプライベートまたは制限されている\n• チャットが無効になっている\n\n✅ 解決方法:\n• 現在進行中のライブ配信URLを使用してください\n• URLが正確であることを確認してください"@
    } else if seq_contains(error, "network"@) || seq_contains(error, "timeout"@) {
        "❌ ネットワーク接続エラー\n\n• インターネット接続を確認してください\n• ファイアウォールがブロックしていないか確認してください"@
    } else if seq_contains(error, "rate limit"@) {
        "❌ API制限に達しました\n\n• しばらく待ってから再試行してください\n• 短時間での連続アクセスを避けてください"@
    } else {
        "❌ 監視開始エラー: "@ + error
    }
}

/// The advice shown when starting fails with error text `error`: a
/// missing stream, a network problem, the rate limit, or the error itself.
pub fn user_friendly_error(error: &str) -> (m: String)
    ensures
        m@ == friendly_error_text(error@),
{
    if str_contains(error, "continuation not found") {
        String::from_str("❌ YouTubeライブ配信が見つかりません。\n\n考えられる原因:\n• 配信が終了している\n• URLが間違っている\n• 配信がプライベートまたは制限されている\n• チャットが無効になっている\n\n✅ 解決方法:\n• 現在進行中のライブ配信URLを使用してください\n• URLが正確であることを確認してください")
    } else if str_contains(error, "network") || str_contains(error, "timeout") {
        String::from_str("❌ ネットワーク接続エラー\n\n• インターネット接続を確認してください\n• ファイアウォールがブロックしていないか確認してください")
    } else if str_contains(error, "rate limit") {
        String::from_str("❌ API制限に達しました\n\n• しばらく待ってから再試行してください\n• 短時間での連続アクセスを避けてください")
    } else {
        let mut m = String::from_str("❌ 監視開始エラー: ");
        push_str(&mut m, error);
        m
    }
}

/// The pause after failed requests: none before the third consecutive
/// failure; from the third on, three seconds per failure (at most 30) when
/// the error names 403 or Forbidden, and two seconds per failure (at most
/// 20) otherwise; so a 403 error waits `min(n, 10)` seconds longer than an
/// ordinary one. (`error_wait_secs` answers `error_wait`.)
pub proof fn lemma_error_pause(error: Seq<char>, n: nat, other: Seq<char>)
    ensures
        n >= 3 && seq_contains(error, "403"@) && !seq_contains(other, "403"@) && !seq_contains(other, "Forbidden"@)
            ==> error_wait(error, n).unwrap() == error_wait(other, n).unwrap() + if n < 10 { n } else { 10 },
        n < 3 ==> error_wait(error, n) is None,
        n >= 3 && (seq_contains(error, "403"@) || seq_contains(error, "Forbidden"@)) ==> error_wait(error, n)
            == Some(if 3 * n < 30 { (3 * n) as u64 } else { 30u64 }),
        n >= 3 && !seq_contains(error, "403"@) && !seq_contains(error, "Forbidden"@) ==> error_wait(error, n)
            == Some(if 2 * n < 20 { (2 * n) as u64 } else { 20u64 }),
{
}

} // verus!
