//! Read-only text buffers and the container that holds several of
//! them and switches between them.

use crate::buffer::Buffered;
use crate::document::lines_of;
use crate::filetype::FileType;
use crate::grapheme::graphemes_of;
use crate::row::Row;
use vstd::prelude::*;
use vstd::string::StringExecFns;

verus! {

/// A minimal named text buffer: its lines and the name it was read
/// from.
pub struct TextBuffer {
    rows: Vec<Row>,
    filename: String,
}

impl TextBuffer {
    pub closed spec fn contents(&self) -> Seq<Seq<Seq<char>>> {
        self.rows@.map_values(|r: Row| r.clusters())
    }

    /// The compute part of opening a file: the host reads the text
    /// and hands it over with the name.
    pub fn from_text(filename: &str, contents: &str) -> (r: TextBuffer)
        ensures
            r.name_spec() == filename@,
            r.contents().len() == lines_of(contents@).len(),
            forall|i: int|
                0 <= i < r.contents().len() ==> r.contents()[i] == graphemes_of(
                    #[trigger] lines_of(contents@)[i],
                ),
    {
        TextBuffer {
            rows: crate::document::rows_from_lines(crate::document::split_lines(contents)),
            filename: String::from_str(filename),
        }
    }

    /// The number of lines.
    pub fn len(&self) -> (r: usize)
        ensures
            r == self.contents().len(),
    {
        self.rows.len()
    }

    /// The row at `index`, if any.
    pub fn row(&self, index: usize) -> (r: Option<&Row>)
        ensures
            match r {
                Some(row) => index < self.contents().len() && row.clusters()
                    == self.contents()[index as int],
                None => index >= self.contents().len(),
            },
    {
        if index < self.rows.len() {
            Option::Some(&self.rows[index])
        } else {
            Option::None
        }
    }
}

impl Buffered for TextBuffer {
    closed spec fn name_spec(&self) -> Seq<char> {
        self.filename@
    }

    open spec fn buffered_empty(&self) -> bool {
        self.contents().len() == 0
    }

    fn name(&self) -> (r: String) {
        self.filename.clone()
    }

    fn is_empty(&self) -> (r: bool) {
        self.rows.is_empty()
    }
}

/// A named text buffer that also knows its file type.
pub struct Text {
    rows: Vec<Row>,
    filename: String,
    filetype: FileType,
}

impl Text {
    pub closed spec fn contents(&self) -> Seq<Seq<Seq<char>>> {
        self.rows@.map_values(|r: Row| r.clusters())
    }

    pub closed spec fn filetype_spec(&self) -> FileType {
        self.filetype
    }

    /// The compute part of opening a file: splits the text into
    /// lines and derives the file type from the name.
    pub fn from_text(filename: &str, contents: &str) -> (r: Text)
        ensures
            r.name_spec() == filename@,
            r.filetype_spec().wf(),
            r.contents().len() == lines_of(contents@).len(),
            forall|i: int|
                0 <= i < r.contents().len() ==> r.contents()[i] == graphemes_of(
                    #[trigger] lines_of(contents@)[i],
                ),
    {
        Text {
            rows: crate::document::rows_from_lines(crate::document::split_lines(contents)),
            filename: String::from_str(filename),
            filetype: FileType::from(filename),
        }
    }

    /// The buffer's file type.
    pub fn filetype(&self) -> (r: &FileType)
        ensures
            *r == self.filetype_spec(),
    {
        &self.filetype
    }

    /// The number of lines.
    pub fn len(&self) -> (r: usize)
        ensures
            r == self.contents().len(),
    {
        self.rows.len()
    }

    /// The row at `index`, if any.
    pub fn row(&self, index: usize) -> (r: Option<&Row>)
        ensures
            match r {
                Some(row) => index < self.contents().len() && row.clusters()
                    == self.contents()[index as int],
                None => index >= self.contents().len(),
            },
    {
        if index < self.rows.len() {
            Option::Some(&self.rows[index])
        } else {
            Option::None
        }
    }
}

impl Buffered for Text {
    closed spec fn name_spec(&self) -> Seq<char> {
        self.filename@
    }

    open spec fn buffered_empty(&self) -> bool {
        self.contents().len() == 0
    }

    fn name(&self) -> (r: String) {
        self.filename.clone()
    }

    fn is_empty(&self) -> (r: bool) {
        self.rows.is_empty()
    }
}

/// Holds the open text buffers and which one is current. The `empty`
/// flag turns false once a non-empty buffer has been added, and true
/// again when the container is cleared out.
pub struct TextBufferContainer {
    texts: Vec<Text>,
    index: usize,
    empty: bool,
}

impl TextBufferContainer {
    pub closed spec fn texts_seq(&self) -> Seq<Text> {
        self.texts@
    }

    pub closed spec fn index_spec(&self) -> nat {
        self.index as nat
    }

    pub closed spec fn empty_flag(&self) -> bool {
        self.empty
    }

    /// An empty container.
    pub fn default() -> (r: TextBufferContainer)
        ensures
            r.texts_seq().len() == 0,
            r.index_spec() == 0,
            r.empty_flag(),
    {
        TextBufferContainer { texts: Vec::new(), index: 0, empty: true }
    }

    /// Adds a buffer at the end; the container stops counting as
    /// empty once a non-empty buffer arrives.
    pub fn add(&mut self, text: Text)
        ensures
            final(self).texts_seq() == old(self).texts_seq().push(text),
            final(self).index_spec() == old(self).index_spec(),
            final(self).empty_flag() == (old(self).empty_flag() && text.buffered_empty()),
    {
        let text_empty = text.is_empty();
        self.texts.push(text);
        self.update_empty(text_empty);
    }

    /// Removes and returns the current buffer.
    pub fn remove_current(&mut self) -> (r: Text)
        requires
            old(self).index_spec() < old(self).texts_seq().len(),
        ensures
            r == old(self).texts_seq()[old(self).index_spec() as int],
            final(self).texts_seq() == old(self).texts_seq().remove(
                old(self).index_spec() as int,
            ),
            final(self).index_spec() == old(self).index_spec(),
            final(self).empty_flag() == (final(self).texts_seq().len() == 0 || old(
                self,
            ).empty_flag()),
    {
        let index = self.index;
        self.remove(index)
    }

    /// Removes and returns the buffer at `index`.
    pub fn remove(&mut self, index: usize) -> (r: Text)
        requires
            index < old(self).texts_seq().len(),
        ensures
            r == old(self).texts_seq()[index as int],
            final(self).texts_seq() == old(self).texts_seq().remove(index as int),
            final(self).index_spec() == old(self).index_spec(),
            final(self).empty_flag() == (final(self).texts_seq().len() == 0 || old(
                self,
            ).empty_flag()),
    {
        let result = self.texts.remove(index);
        if self.texts.is_empty() {
            self.empty = true;
        }
        result
    }

    /// Moves to the next buffer, wrapping around at the end.
    pub fn next(&mut self)
        requires
            old(self).texts_seq().len() > 0,
            old(self).index_spec() < usize::MAX,
        ensures
            final(self).texts_seq() == old(self).texts_seq(),
            final(self).empty_flag() == old(self).empty_flag(),
            final(self).index_spec() == (old(self).index_spec() + 1) % old(
                self,
            ).texts_seq().len(),
    {
        self.index = (self.index + 1) % self.texts.len();
    }

    /// Moves to the previous buffer, wrapping around at the start.
    pub fn prev(&mut self)
        requires
            old(self).texts_seq().len() > 0,
        ensures
            final(self).texts_seq() == old(self).texts_seq(),
            final(self).empty_flag() == old(self).empty_flag(),
            final(self).index_spec() == (if old(self).index_spec() > 0 {
                old(self).index_spec() - 1
            } else {
                old(self).texts_seq().len() - 1
            }),
    {
        if self.index > 0 {
            self.index = self.index - 1;
        } else {
            self.index = self.texts.len() - 1;
        }
    }

    /// Moves back to the first buffer.
    pub fn reset(&mut self)
        ensures
            final(self).texts_seq() == old(self).texts_seq(),
            final(self).empty_flag() == old(self).empty_flag(),
            final(self).index_spec() == 0,
    {
        self.index = 0;
    }

    /// The buffer at `index`, without moving to it.
    pub fn get(&self, index: usize) -> (r: Option<&Text>)
        ensures
            match r {
                Some(t) => index < self.texts_seq().len() && *t == self.texts_seq()[index as int],
                None => index >= self.texts_seq().len(),
            },
    {
        if index < self.texts.len() {
            Option::Some(&self.texts[index])
        } else {
            Option::None
        }
    }

    /// The current buffer, if the index is in range.
    pub fn current(&self) -> (r: Option<&Text>)
        ensures
            match r {
                Some(t) => self.index_spec() < self.texts_seq().len() && *t == self.texts_seq()[self.index_spec() as int],
                None => self.index_spec() >= self.texts_seq().len(),
            },
    {
        let index = self.index;
        self.get(index)
    }

    /// How many buffers the container holds.
    pub fn size(&self) -> (r: usize)
        ensures
            r == self.texts_seq().len(),
    {
        self.texts.len()
    }

    /// Adds buffers the host has already read; the I/O itself is the
    /// host's.
    pub fn load(&mut self, texts: Vec<Text>)
        ensures
            final(self).texts_seq() == old(self).texts_seq() + texts@,
            final(self).index_spec() == old(self).index_spec(),
            final(self).empty_flag() == (old(self).empty_flag() && (forall|i: int|
                0 <= i < texts@.len() ==> (#[trigger] texts@[i]).buffered_empty())),
    {
        let mut texts = texts;
        let ghost incoming = texts@;
        let ghost orig = self.texts@;
        let ghost empty0 = self.empty;
        let mut i: usize = 0;
        let n = texts.len();
        proof {
            assert(texts@ =~= incoming.skip(0));
            assert(self.texts@ =~= orig + incoming.take(0));
        }
        while i < n
            invariant
                i <= n,
                n == incoming.len(),
                texts@ == incoming.skip(i as int),
                self.texts@ == orig + incoming.take(i as int),
                self.index == old(self).index,
                self.empty == (empty0 && (forall|j: int|
                    0 <= j < i ==> (#[trigger] incoming[j]).buffered_empty())),
            decreases n - i,
        {
            let t = texts.remove(0);
            proof {
                assert(t == incoming[i as int]);
                assert(texts@ =~= incoming.skip(i + 1));
            }
            self.add(t);
            proof {
                assert(self.texts@ =~= orig + incoming.take(i + 1));
            }
            i += 1;
        }
        proof {
            assert(incoming.take(n as int) =~= incoming);
        }
    }

    /// Clears the emptiness flag once a non-empty buffer arrives.
    fn update_empty(&mut self, text_empty: bool)
        ensures
            final(self).texts_seq() == old(self).texts_seq(),
            final(self).index_spec() == old(self).index_spec(),
            final(self).empty_flag() == (old(self).empty_flag() && text_empty),
    {
        if !self.empty {
            return ;
        }
        if text_empty {
            return ;
        }
        self.empty = text_empty;
    }
}

impl Buffered for TextBufferContainer {
    open spec fn name_spec(&self) -> Seq<char> {
        if self.index_spec() < self.texts_seq().len() {
            self.texts_seq()[self.index_spec() as int].name_spec()
        } else {
            Seq::empty()
        }
    }

    open spec fn buffered_empty(&self) -> bool {
        self.empty_flag()
    }

    /// The current buffer's name, or nothing when the index is out
    /// of range.
    fn name(&self) -> (r: String) {
        match self.current() {
            Option::Some(t) => t.name(),
            Option::None => String::new(),
        }
    }

    fn is_empty(&self) -> (r: bool) {
        self.empty
    }
}

} // verus!
