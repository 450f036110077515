//! The message of the status line and the moment at which it was set.

use std::time::{Duration, Instant};
use vstd::prelude::*;
use crate::text::{chars_of, string_of_range};

verus! {

/// A moment of the monotonic clock of `std`.
#[verifier::external_type_specification]
#[verifier::external_body]
pub struct ExInstant(Instant);

/// `Instant::now` reads the clock. Nothing is claimed of the moment that
/// it returns.
pub assume_specification[ Instant::now ]() -> (now: Instant)
;

/// `Instant::elapsed` measures the time since the moment. Nothing is
/// claimed of the amount that it returns.
pub assume_specification[ Instant::elapsed ](since: &Instant) -> (passed: Duration)
;

/// `Duration::as_secs` gives the whole seconds of a span of time. Nothing
/// is claimed of the number that it returns.
pub assume_specification[ Duration::as_secs ](span: &Duration) -> (seconds: u64)
;

/// A message stays on the screen for this many seconds.
pub const MESSAGE_SECONDS: u64 = 5;

/// A message for the user, with the moment at which it was set. Its view
/// is the text.
pub struct StatusMessage {
    text: String,
    time: Instant,
}

impl View for StatusMessage {
    type V = Seq<char>;

    closed spec fn view(&self) -> Seq<char> {
        self.text@
    }
}

/// What the message line shows of a message `seconds` old on a screen
/// `width` cells wide: the beginning of a message that is still fresh,
/// and nothing of one that has expired.
pub open spec fn shown_text(text: Seq<char>, seconds: u64, width: usize) -> Seq<char> {
    if seconds < MESSAGE_SECONDS {
        if width < text.len() {
            text.take(width as int)
        } else {
            text
        }
    } else {
        Seq::empty()
    }
}

impl StatusMessage {
    /// The message `message`, set now.
    pub fn from(message: String) -> (status: StatusMessage)
        ensures
            status@ == message@,
    {
        StatusMessage { time: Instant::now(), text: message }
    }

    /// The text of the message.
    pub fn text(&self) -> (text: &String)
        ensures
            text@ == self@,
    {
        &self.text
    }

    /// The whole seconds that have passed since the message was set.
    pub fn age(&self) -> (seconds: u64) {
        let passed = self.time.elapsed();
        passed.as_secs()
    }

    /// What the message line shows of the message when it is `seconds`
    /// old, on a screen `width` cells wide.
    pub fn shown_after(&self, seconds: u64, width: usize) -> (shown: String)
        ensures
            shown@ == shown_text(self@, seconds, width),
    {
        if seconds < MESSAGE_SECONDS {
            let chars = chars_of(self.text.as_str());
            let end: usize = if width < chars.len() {
                width
            } else {
                chars.len()
            };
            let shown = string_of_range(&chars, 0, end);
            assert(chars@.subrange(0, end as int) =~= shown_text(self@, seconds, width));
            shown
        } else {
            String::new()
        }
    }

    /// What the message line shows of the message now, on a screen `width`
    /// cells wide: for some age of the message, what is shown at that age.
    pub fn shown_now(&self, width: usize) -> (shown: String)
        ensures
            exists|seconds: u64| shown@ == shown_text(self@, seconds, width),
    {
        let seconds = self.age();
        self.shown_after(seconds, width)
    }
}

} // verus!
