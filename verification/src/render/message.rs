//! The transient message bar: a text that is shown for a limited
//! time after it was set. The host supplies the elapsed time; the
//! clock itself stays outside the library.

use vstd::prelude::*;
use vstd::string::StringExecFns;

verus! {

/// A message with the time span it stays visible, in milliseconds.
pub struct MessageBar {
    content: String,
    delay_ms: u64,
}

impl MessageBar {
    pub closed spec fn content_spec(&self) -> Seq<char> {
        self.content@
    }

    pub closed spec fn delay_spec(&self) -> u64 {
        self.delay_ms
    }

    /// A message that stays visible for `delay_ms` milliseconds.
    pub fn new(content: String, delay_ms: u64) -> (r: MessageBar)
        ensures
            r.content_spec() == content@,
            r.delay_spec() == delay_ms,
    {
        MessageBar { content, delay_ms }
    }

    /// Whether the bar should still be drawn, `elapsed_ms`
    /// milliseconds after the message was set: only while there is a
    /// message and its time span has not run out.
    pub fn should_render(&self, elapsed_ms: u64) -> (r: bool)
        ensures
            r == (self.content_spec().len() > 0 && elapsed_ms < self.delay_spec()),
    {
        if self.content.as_str().is_empty() {
            return false;
        }
        elapsed_ms < self.delay_ms
    }

    /// The message's text.
    pub fn content(&self) -> (r: String)
        ensures
            r@ == self.content_spec(),
    {
        self.content.clone()
    }
}

impl Default for MessageBar {
    /// The greeting shown until the first real message, visible for
    /// five seconds.
    fn default() -> (r: MessageBar)
        ensures
            r.content_spec() == "11111111"@,
            r.delay_spec() == 5000,
    {
        MessageBar { content: String::from_str("11111111"), delay_ms: 5000 }
    }
}

} // verus!
