//! The status line's state: which file is shown and its type.

use crate::buffer::text::Text;
use crate::buffer::Buffered;
use vstd::prelude::*;

verus! {

/// What the status line shows: the current buffer's name and file
/// type.
pub struct StatusLine {
    filename: String,
    filetype: String,
}

impl StatusLine {
    pub closed spec fn filename_spec(&self) -> Seq<char> {
        self.filename@
    }

    pub closed spec fn filetype_spec(&self) -> Seq<char> {
        self.filetype@
    }

    /// Takes the name and file type over from the current buffer;
    /// with no buffer, keeps what it shows.
    pub fn refresh(&mut self, text: Option<&Text>)
        ensures
            match text {
                Some(t) => final(self).filename_spec() == t.name_spec()
                    && final(self).filetype_spec() == t.filetype_spec().name_spec(),
                None => *final(self) == *old(self),
            },
    {
        match text {
            Option::None => {},
            Option::Some(text) => {
                self.filename = text.name();
                self.filetype = text.filetype().name();
            },
        }
    }

    /// The shown file name.
    pub fn filename(&self) -> (r: String)
        ensures
            r@ == self.filename_spec(),
    {
        self.filename.clone()
    }

    /// The shown file type.
    pub fn filetype(&self) -> (r: String)
        ensures
            r@ == self.filetype_spec(),
    {
        self.filetype.clone()
    }
}

impl Default for StatusLine {
    /// A status line showing nothing yet.
    fn default() -> (r: StatusLine)
        ensures
            r.filename_spec() == Seq::<char>::empty(),
            r.filetype_spec() == Seq::<char>::empty(),
    {
        StatusLine { filename: String::new(), filetype: String::new() }
    }
}

} // verus!
