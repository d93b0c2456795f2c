//! Status messages, which are shown for a few seconds.

use std::time::Duration;
use std::time::Instant;
use vstd::prelude::*;

verus! {

/// A point in time of the standard library's monotonic clock. The crate
/// only keeps such a value and asks how long ago it was.
#[verifier::external_type_specification]
#[verifier::external_body]
pub struct ExInstant(Instant);

/// `Instant::now` reads the clock; nothing is known of what it gives.
pub assume_specification[ Instant::now ]() -> Instant;

/// `Instant::elapsed` gives the time since the instant, by the clock;
/// nothing is known of what it gives.
pub assume_specification[ Instant::elapsed ](instant: &Instant) -> Duration;

/// `Duration::as_secs` gives the whole seconds of a span; the span is not
/// looked into, so nothing is stated of the number.
pub assume_specification[ Duration::as_secs ](duration: &Duration) -> u64;

/// For how many seconds a message is shown.
pub const MESSAGE_SECS: u64 = 5;

/// A status text and the time at which it was made.
pub struct Message {
    text: String,
    time: Instant,
}

impl View for Message {
    type V = Seq<char>;

    /// The text of the message.
    closed spec fn view(&self) -> Seq<char> {
        self.text@
    }
}

impl Message {
    /// A message with the text `text`, made now.
    pub fn new(text: String) -> (m: Self)
        ensures
            m@ == text@,
    {
        Message { text, time: Instant::now() }
    }

    /// The text of the message.
    pub fn text(&self) -> (s: &str)
        ensures
            s@ == self@,
    {
        self.text.as_str()
    }

    /// Whether a message that was made `elapsed_secs` seconds ago is still
    /// shown: for `MESSAGE_SECS` seconds it is.
    pub fn shown_after(elapsed_secs: u64) -> (shown: bool)
        ensures
            shown == (elapsed_secs < MESSAGE_SECS),
    {
        elapsed_secs < MESSAGE_SECS
    }

    /// Whether the message is still shown, by the clock.
    pub fn is_shown(&self) -> bool {
        let elapsed = self.time.elapsed();
        Self::shown_after(elapsed.as_secs())
    }
}

} // verus!
