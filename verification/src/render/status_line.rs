//! The status line's state in the switcher-based layout: the shown
//! file name and file type as plain strings.

use vstd::prelude::*;

verus! {

/// What the status line shows.
pub struct StatusLine {
    filename: String,
    filetype: String,
}

impl StatusLine {
    pub closed spec fn filename_spec(&self) -> Seq<char> {
        self.filename@
    }

    pub closed spec fn filetype_spec(&self) -> Seq<char> {
        self.filetype@
    }

    /// Takes over the current document's name and file type.
    pub fn refresh(&mut self, name: String, file_type: String)
        ensures
            final(self).filename_spec() == name@,
            final(self).filetype_spec() == file_type@,
    {
        self.filename = name;
        self.filetype = file_type;
    }

    /// The shown file name.
    pub fn filename(&self) -> (r: String)
        ensures
            r@ == self.filename_spec(),
    {
        self.filename.clone()
    }

    /// The shown file type.
    pub fn filetype(&self) -> (r: String)
        ensures
            r@ == self.filetype_spec(),
    {
        self.filetype.clone()
    }
}

impl Default for StatusLine {
    /// A status line that does not know its document yet.
    fn default() -> (r: StatusLine)
        ensures
            r.filename_spec() == Seq::<char>::empty(),
            r.filetype_spec() == Seq::<char>::empty(),
    {
        StatusLine { filename: String::new(), filetype: String::new() }
    }
}

} // verus!
