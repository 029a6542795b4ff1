//! Detection of a stream's end from consecutive API errors.
//!
//! Eight consecutive "403" errors, or errors that keep coming for more than
//! two minutes, mean the stream has ended. Warnings are raised at most once
//! every thirty seconds. The notices the detector raises are queued for the
//! caller to deliver.
use vstd::prelude::*;

use crate::clock::{instant_now, micros_since};
use crate::text::{lowercase, seq_contains, str_contains, to_lowercase};

verus! {

/// Class of an API error.
#[derive(Debug, Clone, PartialEq)]
pub enum ErrorType {
    /// 403 Forbidden: the stream may have ended.
    Forbidden,
    /// 404 Not Found.
    NotFound,
    Timeout,
    Network,
    RateLimit,
    /// Anything else, with the original error text.
    Other(String),
}

/// The class an error text falls in, from its lower-case form.
pub open spec fn error_class(lower: Seq<char>) -> nat {
    if seq_contains(lower, "403"@) || seq_contains(lower, "forbidden"@) {
        0
    } else if seq_contains(lower, "404"@) || seq_contains(lower, "not found"@) {
        1
    } else if seq_contains(lower, "timeout"@) {
        2
    } else if seq_contains(lower, "connection"@) || seq_contains(lower, "network"@) {
        3
    } else if seq_contains(lower, "rate limit"@) || seq_contains(lower, "429"@) {
        4
    } else {
        5
    }
}

impl ErrorType {
    /// The class number of this error type, in declaration order.
    pub open spec fn class(self) -> nat {
        match self {
            ErrorType::Forbidden => 0,
            ErrorType::NotFound => 1,
            ErrorType::Timeout => 2,
            ErrorType::Network => 3,
            ErrorType::RateLimit => 4,
            ErrorType::Other(_) => 5,
        }
    }

    /// The display name of this error type.
    pub open spec fn name(self) -> Seq<char> {
        match self {
            ErrorType::Forbidden => "403 Forbidden"@,
            ErrorType::NotFound => "404 Not Found"@,
            ErrorType::Timeout => "Timeout"@,
            ErrorType::Network => "Network Error"@,
            ErrorType::RateLimit => "Rate Limit"@,
            ErrorType::Other(_) => "Unknown Error"@,
        }
    }

    /// Classifies an error whose lower-case text is `lower`; `Other` keeps
    /// `original`.
    pub fn classify_lowered(lower: &str, original: &str) -> (r: ErrorType)
        ensures
            r.class() == error_class(lower@),
            r matches ErrorType::Other(t) ==> t@ == original@,
    {
        if str_contains(lower, "403") || str_contains(lower, "forbidden") {
            ErrorType::Forbidden
        } else if str_contains(lower, "404") || str_contains(lower, "not found") {
            ErrorType::NotFound
        } else if str_contains(lower, "timeout") {
            ErrorType::Timeout
        } else if str_contains(lower, "connection") || str_contains(lower, "network") {
            ErrorType::Network
        } else if str_contains(lower, "rate limit") || str_contains(lower, "429") {
            ErrorType::RateLimit
        } else {
            ErrorType::Other(String::from_str(original))
        }
    }

    /// Classifies an error text, case-insensitively.
    pub fn from_error_string(error_str: &str) -> (r: ErrorType)
        ensures
            r.class() == error_class(lowercase(error_str@)),
            r matches ErrorType::Other(t) ==> t@ == error_str@,
    {
        let lower = to_lowercase(error_str);
        Self::classify_lowered(lower.as_str(), error_str)
    }

    /// The display name of this error type.
    pub fn display_name(&self) -> (r: &str)
        ensures
            r@ == self.name(),
    {
        match self {
            ErrorType::Forbidden => "403 Forbidden",
            ErrorType::NotFound => "404 Not Found",
            ErrorType::Timeout => "Timeout",
            ErrorType::Network => "Network Error",
            ErrorType::RateLimit => "Rate Limit",
            ErrorType::Other(_) => "Unknown Error",
        }
    }

    /// A copy of this error type.
    pub fn duplicate(&self) -> (r: ErrorType)
        ensures
            r == *self,
    {
        match self {
            ErrorType::Forbidden => ErrorType::Forbidden,
            ErrorType::NotFound => ErrorType::NotFound,
            ErrorType::Timeout => ErrorType::Timeout,
            ErrorType::Network => ErrorType::Network,
            ErrorType::RateLimit => ErrorType::RateLimit,
            ErrorType::Other(s) => ErrorType::Other(s.clone()),
        }
    }
}

/// What an error means for the stream.
#[derive(Debug, Clone, PartialEq, Eq, Structural)]
pub enum DetectionResult {
    /// An error, but the stream goes on.
    Continue,
    /// A warning should be shown.
    Warning,
    /// The stream has ended; monitoring should stop.
    StreamEnded,
    /// The end was already detected.
    AlreadyEnded,
}

/// A notice the detector raises for the caller to deliver.
#[derive(Debug, Clone, PartialEq, Eq, Structural)]
pub enum DetectorNotice {
    /// Warn about `consecutive_errors` errors of kind `error_class`
    /// (the class number of `ErrorType`).
    ErrorWarning { consecutive_errors: u32, error_class: u8 },
    /// Announce the end of the stream that started at `stream_start`
    /// (microseconds on the detector's monotonic clock) after `consecutive_errors` errors.
    StreamEnded { consecutive_errors: u32, stream_start: Option<i64> },
}

/// Microseconds of continuous errors after which the stream counts as ended.
pub open spec fn error_window() -> int {
    120_000_000
}

/// Microseconds that must pass between two warnings.
pub open spec fn warning_interval() -> int {
    30_000_000
}

/// The display name of an error class number.
pub open spec fn class_name(class: nat) -> Seq<char> {
    if class == 0 {
        "403 Forbidden"@
    } else if class == 1 {
        "404 Not Found"@
    } else if class == 2 {
        "Timeout"@
    } else if class == 3 {
        "Network Error"@
    } else if class == 4 {
        "Rate Limit"@
    } else {
        "Unknown Error"@
    }
}

/// The display name of an error class number.
pub fn error_class_name(class: u8) -> (r: &'static str)
    ensures
        r@ == class_name(class as nat),
{
    if class == 0 {
        "403 Forbidden"
    } else if class == 1 {
        "404 Not Found"
    } else if class == 2 {
        "Timeout"
    } else if class == 3 {
        "Network Error"
    } else if class == 4 {
        "Rate Limit"
    } else {
        "Unknown Error"
    }
}

/// Detector of a stream's end from consecutive errors.
#[derive(Debug)]
pub struct StreamEndDetector {
    consecutive_errors: u32,
    last_error_type: Option<ErrorType>,
    stream_start_time: Option<i64>,
    stream_ended: bool,
    last_system_message_time: Option<i64>,
    first_error_time: Option<i64>,
    notices: Vec<DetectorNotice>,
    /// The origin of the detector's clock: its times are microseconds on
    /// the monotonic clock after this instant.
    clock: std::time::Instant,
}

/// The state of a detector, as the contracts see it.
pub struct DetectorState {
    pub consecutive_errors: u32,
    pub last_error_type: Option<ErrorType>,
    pub stream_start_time: Option<i64>,
    pub stream_ended: bool,
    pub last_system_message_time: Option<i64>,
    pub first_error_time: Option<i64>,
    pub notices: Seq<DetectorNotice>,
}

/// A warning may be sent at `now` when none was sent, or the last one was
/// sent more than thirty seconds earlier.
pub open spec fn may_warn(last: Option<i64>, now: i64) -> bool {
    match last {
        Some(t) => now - t > warning_interval(),
        None => true,
    }
}

/// The state after a warning of class `class` at `now`, if one may be sent.
pub open spec fn warned(s: DetectorState, class: nat, now: i64) -> DetectorState {
    if may_warn(s.last_system_message_time, now) {
        DetectorState {
            last_system_message_time: Some(now),
            notices: s.notices.push(
                DetectorNotice::ErrorWarning {
                    consecutive_errors: s.consecutive_errors,
                    error_class: class as u8,
                },
            ),
            ..s
        }
    } else {
        s
    }
}

/// The state after the stream's end was detected.
pub open spec fn ended(s: DetectorState) -> DetectorState {
    DetectorState {
        stream_ended: true,
        notices: s.notices.push(
            DetectorNotice::StreamEnded {
                consecutive_errors: s.consecutive_errors,
                stream_start: s.stream_start_time,
            },
        ),
        ..s
    }
}

/// The result and state after an error of class `class` at `now`.
pub open spec fn after_error(s: DetectorState, error: ErrorType, now: i64) -> (
    DetectionResult,
    DetectorState,
) {
    if s.stream_ended {
        (DetectionResult::AlreadyEnded, s)
    } else {
        let first = match s.first_error_time {
            Some(t) => t,
            None => now,
        };
        let s1 = DetectorState {
            consecutive_errors: (s.consecutive_errors + 1) as u32,
            last_error_type: Some(error),
            first_error_time: Some(first),
            ..s
        };
        if now - first > error_window() {
            (DetectionResult::StreamEnded, ended(s1))
        } else if error.class() == 0 {
            let n = s1.consecutive_errors;
            if n <= 2 {
                (DetectionResult::Continue, s1)
            } else if n <= 7 {
                (DetectionResult::Warning, warned(s1, 0, now))
            } else {
                (DetectionResult::StreamEnded, ended(s1))
            }
        } else if s1.consecutive_errors >= 3 {
            (DetectionResult::Continue, warned(s1, error.class(), now))
        } else {
            (DetectionResult::Continue, s1)
        }
    }
}

impl StreamEndDetector {
    /// The detector's state.
    pub closed spec fn state(&self) -> DetectorState {
        DetectorState {
            consecutive_errors: self.consecutive_errors,
            last_error_type: self.last_error_type,
            stream_start_time: self.stream_start_time,
            stream_ended: self.stream_ended,
            last_system_message_time: self.last_system_message_time,
            first_error_time: self.first_error_time,
            notices: self.notices@,
        }
    }

    /// A detector for a stream starting at `now` (microseconds on the detector's monotonic clock).
    pub fn new_at(now: i64) -> (d: Self)
        ensures
            d.state().consecutive_errors == 0,
            d.state().last_error_type is None,
            d.state().stream_start_time == Some(now),
            !d.state().stream_ended,
            d.state().last_system_message_time is None,
            d.state().first_error_time is None,
            d.state().notices.len() == 0,
    {
        StreamEndDetector {
            consecutive_errors: 0,
            last_error_type: None,
            stream_start_time: Some(now),
            stream_ended: false,
            last_system_message_time: None,
            first_error_time: None,
            notices: Vec::new(),
            clock: instant_now(),
        }
    }

    /// The current time on the detector's monotonic clock, in
    /// microseconds after its origin.
    fn now(&self) -> i64 {
        let m = micros_since(&self.clock);
        if m > 9223372036854775807u128 {
            9223372036854775807i64
        } else {
            m as i64
        }
    }

    /// A detector for a stream starting now: the origin of its clock.
    pub fn new() -> (d: Self)
        ensures
            d.state().consecutive_errors == 0,
            d.state().last_error_type is None,
            d.state().stream_start_time == Some(0i64),
            !d.state().stream_ended,
            d.state().last_system_message_time is None,
            d.state().first_error_time is None,
            d.state().notices.len() == 0,
    {
        Self::new_at(0)
    }

    /// A successful request: the error count and the end flag are reset.
    pub fn on_success(&mut self)
        ensures
            final(self).state() == (DetectorState {
                consecutive_errors: 0,
                last_error_type: None,
                first_error_time: None,
                stream_ended: false,
                ..old(self).state()
            }),
            final(self).state() == detector_step(old(self).state(), DetectorEvent::Success),
    {
        self.consecutive_errors = 0;
        self.last_error_type = None;
        self.first_error_time = None;
        self.stream_ended = false;
    }

    fn warn(&mut self, class: u8, now: i64)
        ensures
            final(self).state() == warned(old(self).state(), class as nat, now),
    {
        let may = match self.last_system_message_time {
            Some(t) => (now as i128) - (t as i128) > 30_000_000,
            None => true,
        };
        if may {
            self.last_system_message_time = Some(now);
            self.notices.push(
                DetectorNotice::ErrorWarning {
                    consecutive_errors: self.consecutive_errors,
                    error_class: class,
                },
            );
        }
    }

    fn end_stream(&mut self)
        ensures
            final(self).state() == ended(old(self).state()),
    {
        self.stream_ended = true;
        self.notices.push(
            DetectorNotice::StreamEnded {
                consecutive_errors: self.consecutive_errors,
                stream_start: self.stream_start_time,
            },
        );
    }

    /// An error with text `error_str` at time `now` (microseconds on the detector's monotonic clock).
    pub fn on_error_at(&mut self, error_str: &str, now: i64) -> (r: DetectionResult)
        requires
            old(self).state().consecutive_errors < u32::MAX,
        ensures
            old(self).state().stream_ended ==> r == DetectionResult::AlreadyEnded && final(self).state()
                == old(self).state(),
            !old(self).state().stream_ended ==> exists|e: ErrorType|
                #![trigger after_error(old(self).state(), e, now)]
                e.class() == error_class(lowercase(error_str@)) && (e matches ErrorType::Other(t)
                    ==> t@ == error_str@) && (r, final(self).state()) == after_error(
                    old(self).state(),
                    e,
                    now,
                ),
            exists|e: ErrorType|
                e.class() == error_class(lowercase(error_str@)) && final(self).state() == #[trigger] detector_step(
                    old(self).state(),
                    DetectorEvent::Error(e, now),
                ) && r == after_error(old(self).state(), e, now).0,
    {
        if self.stream_ended {
            proof {
                let c = error_class(lowercase(error_str@));
                let e = if c == 0 {
                    ErrorType::Forbidden
                } else if c == 1 {
                    ErrorType::NotFound
                } else if c == 2 {
                    ErrorType::Timeout
                } else if c == 3 {
                    ErrorType::Network
                } else if c == 4 {
                    ErrorType::RateLimit
                } else {
                    ErrorType::Other(vstd::pervasive::arbitrary())
                };
                assert(e.class() == c);
                assert(detector_step(old(self).state(), DetectorEvent::Error(e, now)) == old(self).state());
            }
            return DetectionResult::AlreadyEnded;
        }
        let ghost s0 = self.state();
        let error_type = ErrorType::from_error_string(error_str);
        let ghost e = error_type;
        let class: u8 = match &error_type {
            ErrorType::Forbidden => 0,
            ErrorType::NotFound => 1,
            ErrorType::Timeout => 2,
            ErrorType::Network => 3,
            ErrorType::RateLimit => 4,
            ErrorType::Other(_) => 5,
        };
        self.consecutive_errors = self.consecutive_errors + 1;
        self.last_error_type = Some(error_type);
        let first = match self.first_error_time {
            Some(t) => t,
            None => now,
        };
        self.first_error_time = Some(first);
        let r = if (now as i128) - (first as i128) > 120_000_000 {
            self.end_stream();
            DetectionResult::StreamEnded
        } else if class == 0 {
            if self.consecutive_errors <= 2 {
                DetectionResult::Continue
            } else if self.consecutive_errors <= 7 {
                self.warn(0, now);
                DetectionResult::Warning
            } else {
                self.end_stream();
                DetectionResult::StreamEnded
            }
        } else {
            if self.consecutive_errors >= 3 {
                self.warn(class, now);
            }
            DetectionResult::Continue
        };
        assert((r, self.state()) == after_error(s0, e, now));
        assert(self.state() == detector_step(s0, DetectorEvent::Error(e, now)));
        r
    }

    /// An error with text `error_str`, at the current time.
    pub fn on_error(&mut self, error_str: &str) -> (r: DetectionResult)
        requires
            old(self).state().consecutive_errors < u32::MAX,
        ensures
            old(self).state().stream_ended ==> r == DetectionResult::AlreadyEnded && final(self).state()
                == old(self).state(),
            !old(self).state().stream_ended ==> exists|e: ErrorType, now: i64|
                #![trigger after_error(old(self).state(), e, now)]
                e.class() == error_class(lowercase(error_str@)) && (e matches ErrorType::Other(t)
                    ==> t@ == error_str@) && (r, final(self).state()) == after_error(
                    old(self).state(),
                    e,
                    now,
                ),
    {
        let now = self.now();
        self.on_error_at(error_str, now)
    }

    /// Whether the stream's end was detected.
    pub fn is_stream_ended(&self) -> (r: bool)
        ensures
            r == self.state().stream_ended,
    {
        self.stream_ended
    }

    /// Number of consecutive errors.
    pub fn consecutive_errors(&self) -> (n: u32)
        ensures
            n == self.state().consecutive_errors,
    {
        self.consecutive_errors
    }

    /// Whole minutes from the stream's start to `now` (0 without a start or
    /// when the start is not in the past).
    pub fn stream_duration_minutes_at(&self, now: i64) -> (m: u64)
        ensures
            m == crate::system_messages::duration_minutes(self.state().stream_start_time, now),
    {
        match self.stream_start_time {
            Some(st) => {
                let diff: i128 = now as i128 - st as i128;
                if diff > 0 {
                    (diff / 1000000 / 60) as u64
                } else {
                    0
                }
            },
            None => 0,
        }
    }

    /// Whole minutes since the stream's start.
    pub fn stream_duration_minutes(&self) -> (m: u64)
        ensures
            exists|now: i64| m == #[trigger] crate::system_messages::duration_minutes(self.state().stream_start_time, now),
            self.state().stream_start_time is None ==> m == 0,
    {
        let now = self.now();
        self.stream_duration_minutes_at(now)
    }

    /// Marks the stream as ended after eight errors that began at `now`.
    pub fn force_stream_ended_at(&mut self, now: i64)
        ensures
            final(self).state() == (DetectorState {
                stream_ended: true,
                consecutive_errors: 8,
                first_error_time: Some(now),
                ..old(self).state()
            }),
    {
        self.stream_ended = true;
        self.consecutive_errors = 8;
        self.first_error_time = Some(now);
    }

    /// Marks the stream as ended after eight errors that began now.
    pub fn force_stream_ended(&mut self)
        ensures
            final(self).state().stream_ended,
            final(self).state().consecutive_errors == 8,
            final(self).state().first_error_time is Some,
            final(self).state().notices == old(self).state().notices,
    {
        let now = self.now();
        self.force_stream_ended_at(now);
    }

    /// Resets every counter and flag for a stream starting at `now`.
    pub fn reset_at(&mut self, now: i64)
        ensures
            final(self).state() == (DetectorState {
                consecutive_errors: 0,
                last_error_type: None,
                stream_start_time: Some(now),
                stream_ended: false,
                last_system_message_time: None,
                first_error_time: None,
                notices: old(self).state().notices,
            }),
            final(self).state() == detector_step(old(self).state(), DetectorEvent::Reset(now)),
    {
        self.consecutive_errors = 0;
        self.last_error_type = None;
        self.stream_start_time = Some(now);
        self.stream_ended = false;
        self.last_system_message_time = None;
        self.first_error_time = None;
    }

    /// Resets every counter and flag for a stream starting now.
    pub fn reset(&mut self)
        ensures
            final(self).state().consecutive_errors == 0,
            final(self).state().last_error_type is None,
            final(self).state().stream_start_time is Some,
            !final(self).state().stream_ended,
            final(self).state().last_system_message_time is None,
            final(self).state().first_error_time is None,
            final(self).state().notices == old(self).state().notices,
    {
        let now = self.now();
        self.reset_at(now);
    }

    /// Removes and returns the notices raised so far, oldest first.
    pub fn take_notices(&mut self) -> (r: Vec<DetectorNotice>)
        ensures
            r@ == old(self).state().notices,
            final(self).state() == (DetectorState { notices: Seq::empty(), ..old(self).state() }),
    {
        let mut out: Vec<DetectorNotice> = Vec::new();
        std::mem::swap(&mut out, &mut self.notices);
        out
    }
}

impl Default for StreamEndDetector {
    fn default() -> (d: Self)
        ensures
            d.state().consecutive_errors == 0,
            d.state().stream_start_time is Some,
            !d.state().stream_ended,
            d.state().notices.len() == 0,
    {
        Self::new()
    }
}


/// An error other than 403 never ends the stream while the errors have
/// lasted no longer than two minutes.
pub proof fn lemma_other_errors_never_end(s: DetectorState, e: ErrorType, now: i64)
    requires
        !s.stream_ended,
        e.class() != 0,
        s.first_error_time matches Some(t) ==> now - t <= error_window(),
    ensures
        after_error(s, e, now).0 == DetectionResult::Continue,
        !after_error(s, e, now).1.stream_ended,
{
}

/// Within two minutes of errors, the n-th consecutive 403 error means
/// Continue for n <= 2, Warning for 3 <= n <= 7 and the stream's end after.
pub proof fn lemma_forbidden_thresholds(s: DetectorState, now: i64)
    requires
        !s.stream_ended,
        s.consecutive_errors < u32::MAX,
        s.first_error_time matches Some(t) ==> now - t <= error_window(),
    ensures
        ({
            let n = s.consecutive_errors + 1;
            let r = after_error(s, ErrorType::Forbidden, now);
            &&& r.1.consecutive_errors == n
            &&& (n <= 2 ==> r.0 == DetectionResult::Continue)
            &&& (3 <= n <= 7 ==> r.0 == DetectionResult::Warning)
            &&& (n >= 8 ==> r.0 == DetectionResult::StreamEnded && r.1.stream_ended)
        }),
{
}

/// Errors that keep coming for more than two minutes end the stream.
pub proof fn lemma_errors_time_out(s: DetectorState, e: ErrorType, now: i64)
    requires
        !s.stream_ended,
        s.first_error_time matches Some(t) && now - t > error_window(),
    ensures
        after_error(s, e, now).0 == DetectionResult::StreamEnded,
        after_error(s, e, now).1.stream_ended,
{
}

/// Once the end is detected, every further error answers AlreadyEnded and
/// changes nothing.
pub proof fn lemma_ended_is_final(s: DetectorState, e: ErrorType, now: i64)
    requires
        s.stream_ended,
    ensures
        after_error(s, e, now) == (DetectionResult::AlreadyEnded, s),
{
}

/// Two warnings are never raised less than thirty seconds apart.
pub proof fn lemma_warnings_spaced(s: DetectorState, class: nat, now: i64, later: i64)
    requires
        may_warn(s.last_system_message_time, now),
        later - now <= warning_interval(),
    ensures
        warned(warned(s, class, now), class, later) == warned(s, class, now),
{
}

/// Errors only ever add notices: the notices raised before stay in place.
pub proof fn lemma_notices_grow(s: DetectorState, e: ErrorType, now: i64)
    ensures
        ({
            let n = after_error(s, e, now).1.notices;
            n.len() >= s.notices.len() && n.take(s.notices.len() as int) == s.notices
        }),
{
    let n = after_error(s, e, now).1.notices;
    assert(n.take(s.notices.len() as int) =~= s.notices);
}

/// What happens to a detector: an error with its class and time, a
/// successful request, or a reset at a time.
pub enum DetectorEvent {
    Error(ErrorType, i64),
    Success,
    Reset(i64),
}

/// The state after one event, as `on_error_at`, `on_success` and
/// `reset_at` leave it.
pub open spec fn detector_step(s: DetectorState, ev: DetectorEvent) -> DetectorState {
    match ev {
        DetectorEvent::Error(e, now) => after_error(s, e, now).1,
        DetectorEvent::Success => DetectorState {
            consecutive_errors: 0,
            last_error_type: None,
            first_error_time: None,
            stream_ended: false,
            ..s
        },
        DetectorEvent::Reset(now) => DetectorState {
            consecutive_errors: 0,
            last_error_type: None,
            stream_start_time: Some(now),
            stream_ended: false,
            last_system_message_time: None,
            first_error_time: None,
            notices: s.notices,
        },
    }
}

/// The state after the events `evs`, in order, from `s`.
pub open spec fn run_detector(s: DetectorState, evs: Seq<DetectorEvent>) -> DetectorState
    decreases evs.len(),
{
    if evs.len() == 0 {
        s
    } else {
        detector_step(run_detector(s, evs.drop_last()), evs.last())
    }
}

/// The event at `k` of `evs` is an error answered `StreamEnded`.
pub open spec fn ended_by(s0: DetectorState, evs: Seq<DetectorEvent>, k: int) -> bool {
    match evs[k] {
        DetectorEvent::Error(e, now) => after_error(run_detector(s0, evs.take(k)), e, now).0
            == DetectionResult::StreamEnded,
        _ => false,
    }
}

/// The errors among `evs` since the last success or reset that were
/// counted: those not answered `AlreadyEnded` (the stream had not ended
/// before them).
pub open spec fn counted_errors(s0: DetectorState, evs: Seq<DetectorEvent>) -> nat
    decreases evs.len(),
{
    if evs.len() == 0 {
        0
    } else {
        match evs.last() {
            DetectorEvent::Error(_, _) => counted_errors(s0, evs.drop_last()) + if run_detector(
                s0,
                evs.drop_last(),
            ).stream_ended {
                0nat
            } else {
                1nat
            },
            _ => 0,
        }
    }
}

/// Where the events after the last success or reset begin.
pub open spec fn last_clear(evs: Seq<DetectorEvent>) -> int
    decreases evs.len(),
{
    if evs.len() == 0 {
        0
    } else if evs.last() is Error {
        last_clear(evs.drop_last())
    } else {
        evs.len() as int
    }
}

/// Over any history of errors, successes and resets (`on_error_at`,
/// `on_success` and `reset_at` each take the step `detector_step`, as
/// their contracts state), from a detector with no error counted and the
/// stream not ended: the error count is the number of errors since the
/// last success or reset that were not answered `AlreadyEnded` (so all of
/// them while the stream has not ended), and the stream counts as ended
/// exactly when one of those errors was answered `StreamEnded`.
pub proof fn lemma_detector_history(s0: DetectorState, evs: Seq<DetectorEvent>)
    requires
        s0.consecutive_errors == 0,
        !s0.stream_ended,
        forall|k: int| 0 <= k <= evs.len() ==> k - last_clear(#[trigger] evs.take(k)) < u32::MAX,
    ensures
        0 <= last_clear(evs) <= evs.len(),
        run_detector(s0, evs).consecutive_errors == counted_errors(s0, evs),
        counted_errors(s0, evs) <= evs.len() - last_clear(evs),
        run_detector(s0, evs).consecutive_errors <= evs.len() - last_clear(evs),
        !run_detector(s0, evs).stream_ended ==> run_detector(s0, evs).consecutive_errors == evs.len()
            - last_clear(evs),
        run_detector(s0, evs).stream_ended <==> exists|k: int|
            last_clear(evs) <= k < evs.len() && #[trigger] ended_by(s0, evs, k),
    decreases evs.len(),
{
    lemma_last_clear_bound(evs);
    if evs.len() > 0 {
        let rest = evs.drop_last();
        let n = evs.len() as int;
        assert(evs.take(n) =~= evs);
        assert forall|k: int| 0 <= k <= rest.len() implies k - last_clear(#[trigger] rest.take(k)) < u32::MAX by {
            assert(rest.take(k) =~= evs.take(k));
        }
        lemma_detector_history(s0, rest);
        let r = run_detector(s0, rest);
        assert(evs.take(rest.len() as int) =~= rest);
        assert forall|j: int| 0 <= j < rest.len() implies #[trigger] ended_by(s0, evs, j) == ended_by(s0, rest, j) by {
            assert(evs[j] == rest[j]);
            assert(evs.take(j) =~= rest.take(j));
        }
        match evs.last() {
            DetectorEvent::Error(e, now) => {
                let k = rest.len() as int;
                assert(evs[k] == evs.last());
                assert(last_clear(evs) == last_clear(rest));
                assert(ended_by(s0, evs, k) == (after_error(r, e, now).0 == DetectionResult::StreamEnded));
                if r.stream_ended {
                    assert(after_error(r, e, now).1 == r);
                    let j = choose|j: int| last_clear(rest) <= j < rest.len() && #[trigger] ended_by(s0, rest, j);
                    assert(ended_by(s0, evs, j));
                } else {
                    assert(run_detector(s0, evs).stream_ended == (after_error(r, e, now).0
                        == DetectionResult::StreamEnded));
                    if exists|j: int| last_clear(evs) <= j < evs.len() && #[trigger] ended_by(s0, evs, j) {
                        let j = choose|j: int| last_clear(evs) <= j < evs.len() && #[trigger] ended_by(s0, evs, j);
                        if j < k {
                            assert(ended_by(s0, rest, j));
                        }
                    }
                }
            },
            _ => {
                assert(last_clear(evs) == n);
            },
        }
    }
}

proof fn lemma_last_clear_bound(evs: Seq<DetectorEvent>)
    ensures
        0 <= last_clear(evs) <= evs.len(),
    decreases evs.len(),
{
    if evs.len() > 0 {
        lemma_last_clear_bound(evs.drop_last());
    }
}

} // verus!
