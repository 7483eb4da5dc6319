//! Editor-level value types: search direction, status messages, and
//! the explicit session state machines that replace the mutable
//! closures of an event-loop-driven editor — search-as-you-type and
//! line-input prompting become values passed between the host loop
//! and the document.

use crate::position::Position;
use vstd::prelude::*;
use vstd::string::StringExecFns;

verus! {

/// Direction of a text search.
#[derive(PartialEq, Eq, Copy, Clone, Structural, Debug)]
pub enum SearchDirection {
    Forward,
    Backward,
}

/// A status message shown to the user: a severity prefix and a text.
pub struct Message {
    text: String,
}

impl Message {
    /// The message's full text.
    pub closed spec fn text_spec(&self) -> Seq<char> {
        self.text@
    }

    /// A message holding `message` verbatim.
    pub fn from(message: String) -> (r: Message)
        ensures
            r.text_spec() == message@,
    {
        Message { text: message }
    }

    /// The message's text.
    pub fn text(&self) -> (r: String)
        ensures
            r@ == self.text_spec(),
    {
        self.text.clone()
    }

    /// The empty message.
    pub fn default() -> (r: Message)
        ensures
            r.text_spec() == Seq::<char>::empty(),
    {
        Message { text: String::new() }
    }

    /// A prefixed message: the prefix, one space, the text.
    pub fn new(prefix: String, suffix: String) -> (r: Message)
        ensures
            r.text_spec() == prefix@ + " "@ + suffix@,
    {
        let mut text = prefix;
        text.append(" ");
        text.append(suffix.as_str());
        Message { text }
    }

    /// An error message naming its cause.
    pub fn error(message: String, cause: String) -> (r: Message)
        ensures
            r.text_spec() == "ERROR"@ + " "@ + message@ + ". Cause is "@ + cause@,
    {
        let ghost m0 = message@;
        let mut suffix = message;
        suffix.append(". Cause is ");
        suffix.append(cause.as_str());
        let r = Message::new(String::from_str("ERROR"), suffix);
        proof {
            assert(r.text_spec() =~= "ERROR"@ + " "@ + m0 + ". Cause is "@ + cause@);
        }
        r
    }

    /// A warning.
    pub fn warn(message: String) -> (r: Message)
        ensures
            r.text_spec() == "WARNING"@ + " "@ + message@,
    {
        Message::new(String::from_str("WARNING"), message)
    }

    /// An informational message.
    pub fn info(message: String) -> (r: Message)
        ensures
            r.text_spec() == "INFO"@ + " "@ + message@,
    {
        Message::new(String::from_str("INFO"), message)
    }

    /// A prompt line shown while the user types.
    pub fn prompt(message: String) -> (r: Message)
        ensures
            r.text_spec() == "PROMPT"@ + " "@ + message@,
    {
        Message::new(String::from_str("PROMPT"), message)
    }

    /// An error built from string slices.
    pub fn error_raw(message: &str, cause: String) -> (r: Message)
        ensures
            r.text_spec() == "ERROR"@ + " "@ + message@ + ". Cause is "@ + cause@,
    {
        Message::error(String::from_str(message), cause)
    }

    /// An informational message built from a string slice.
    pub fn info_raw(message: &str) -> (r: Message)
        ensures
            r.text_spec() == "INFO"@ + " "@ + message@,
    {
        Message::info(String::from_str(message))
    }
}

/// A key press while a search session is active.
#[derive(PartialEq, Eq, Copy, Clone, Structural, Debug)]
pub enum SearchKey {
    /// Move to the next match (right or down arrow).
    Next,
    /// Move to the previous match (left or up arrow).
    Prev,
    /// The query itself changed.
    Refine,
}

/// The state of a search-as-you-type session: the cursor to restore
/// on cancel and the current direction. An explicit value passed
/// between the host loop and the document, in place of a closure
/// capturing the editor.
pub struct SearchSession {
    pub origin: Position,
    pub direction: SearchDirection,
}

impl SearchSession {
    /// Opens a session at the cursor position to restore on cancel.
    pub fn new(origin: Position) -> (r: SearchSession)
        ensures
            r.origin == origin,
            r.direction == SearchDirection::Forward,
    {
        SearchSession { origin, direction: SearchDirection::Forward }
    }

    /// Turns one key into the direction of the next find, and says
    /// whether the cursor should first step right past the current
    /// match.
    pub fn on_key(&mut self, key: SearchKey) -> (moved: bool)
        ensures
            final(self).origin == old(self).origin,
            final(self).direction == (if key == SearchKey::Prev {
                SearchDirection::Backward
            } else {
                SearchDirection::Forward
            }),
            moved == (key == SearchKey::Next),
    {
        match key {
            SearchKey::Next => {
                self.direction = SearchDirection::Forward;
                true
            },
            SearchKey::Prev => {
                self.direction = SearchDirection::Backward;
                false
            },
            SearchKey::Refine => {
                self.direction = SearchDirection::Forward;
                false
            },
        }
    }

    /// Where the cursor goes when the search is cancelled.
    pub fn cancelled(&self) -> (r: Position)
        ensures
            r == self.origin,
    {
        self.origin
    }
}

/// Whether `c` is a control character (the Unicode `Cc` category).
pub open spec fn is_control_char(c: char) -> bool {
    let u = c as u32;
    u < 0x20 || (0x7F <= u && u <= 0x9F)
}

/// A key press while a prompt is open.
#[derive(PartialEq, Eq, Copy, Clone, Structural, Debug)]
pub enum PromptKey {
    Char(char),
    Backspace,
    Enter,
    Cancel,
    Other,
}

/// What a prompt key press led to.
#[derive(PartialEq, Eq, Copy, Clone, Structural, Debug)]
pub enum PromptOutcome {
    /// Keep prompting.
    Pending,
    /// The user confirmed the input.
    Submitted,
    /// The user abandoned the prompt; the input was discarded.
    Cancelled,
}

/// The state of a line-input prompt: the characters typed so far.
/// The host loop feeds keys in and reads the text back out.
pub struct PromptSession {
    input: Vec<char>,
}

impl PromptSession {
    /// The characters typed so far.
    pub closed spec fn input_spec(&self) -> Seq<char> {
        self.input@
    }

    /// An empty prompt.
    pub fn new() -> (r: PromptSession)
        ensures
            r.input_spec() == Seq::<char>::empty(),
    {
        PromptSession { input: Vec::new() }
    }

    /// Feeds one key press: a printable character is appended,
    /// backspace drops the last character, enter submits, escape
    /// clears and cancels; anything else is ignored.
    pub fn on_key(&mut self, key: PromptKey) -> (r: PromptOutcome)
        ensures
            ({
                let before = old(self).input_spec();
                match key {
                    PromptKey::Char(c) => r == PromptOutcome::Pending && final(self).input_spec()
                        == (if is_control_char(c) {
                        before
                    } else {
                        before.push(c)
                    }),
                    PromptKey::Backspace => r == PromptOutcome::Pending && final(self).input_spec()
                        == (if before.len() == 0 {
                        before
                    } else {
                        before.drop_last()
                    }),
                    PromptKey::Enter => r == PromptOutcome::Submitted && final(self).input_spec()
                        == before,
                    PromptKey::Cancel => r == PromptOutcome::Cancelled && final(self).input_spec()
                        == Seq::<char>::empty(),
                    PromptKey::Other => r == PromptOutcome::Pending && final(self).input_spec()
                        == before,
                }
            }),
    {
        match key {
            PromptKey::Char(c) => {
                let u = c as u32;
                if !(u < 0x20 || (0x7F <= u && u <= 0x9F)) {
                    self.input.push(c);
                }
                PromptOutcome::Pending
            },
            PromptKey::Backspace => {
                if self.input.len() > 0 {
                    self.input.pop();
                    proof {
                        assert(self.input@ =~= old(self).input@.drop_last());
                    }
                }
                PromptOutcome::Pending
            },
            PromptKey::Enter => PromptOutcome::Submitted,
            PromptKey::Cancel => {
                self.input.clear();
                PromptOutcome::Cancelled
            },
            PromptKey::Other => PromptOutcome::Pending,
        }
    }

    pub fn is_empty(&self) -> (r: bool)
        ensures
            r == (self.input_spec().len() == 0),
    {
        self.input.len() == 0
    }

    /// The typed text.
    pub fn text(&self) -> (r: String)
        ensures
            r@ == self.input_spec(),
    {
        let mut out = String::new();
        let mut i: usize = 0;
        while i < self.input.len()
            invariant
                i <= self.input@.len(),
                out@ == self.input@.take(i as int),
            decreases self.input@.len() - i,
        {
            crate::grapheme::push_char(&mut out, self.input[i]);
            proof {
                assert(out@ =~= self.input@.take(i + 1));
            }
            i += 1;
        }
        proof {
            assert(self.input@.take(self.input@.len() as int) =~= self.input@);
        }
        out
    }
}

} // verus!
