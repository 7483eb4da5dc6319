//! The document switcher: holds the open documents, which one is
//! current, and the widget state shown beneath them.

use crate::document::Document;
use crate::render::message::MessageBar;
use crate::render::status_line::StatusLine;
use crate::width::{line_width_of, Line};
use vstd::prelude::*;

verus! {

/// The open documents and the current index, plus the status line
/// and message bar drawn under the text area.
pub struct DocumentSwitcher {
    documents: Vec<Document>,
    index: usize,
    empty: bool,
    status_line: StatusLine,
    message_bar: MessageBar,
}

impl DocumentSwitcher {
    pub closed spec fn docs_seq(&self) -> Seq<Document> {
        self.documents@
    }

    pub closed spec fn index_spec(&self) -> nat {
        self.index as nat
    }

    pub closed spec fn empty_flag(&self) -> bool {
        self.empty
    }

    pub closed spec fn message_bar_spec(&self) -> MessageBar {
        self.message_bar
    }

    pub closed spec fn status_line_spec(&self) -> StatusLine {
        self.status_line
    }

    /// Every held document is internally consistent.
    pub open spec fn inv(&self) -> bool {
        forall|i: int| 0 <= i < self.docs_seq().len() ==> (#[trigger] self.docs_seq()[i]).inv()
    }

    /// An empty switcher.
    pub fn default() -> (r: DocumentSwitcher)
        ensures
            r.docs_seq().len() == 0,
            r.index_spec() == 0,
            r.empty_flag(),
            r.inv(),
    {
        DocumentSwitcher {
            documents: Vec::new(),
            index: 0,
            empty: true,
            status_line: StatusLine::default(),
            message_bar: MessageBar::default(),
        }
    }

    pub fn is_empty(&self) -> (r: bool)
        ensures
            r == self.empty_flag(),
    {
        self.empty
    }

    /// The current document's name; empty when the index is out of
    /// range.
    pub fn name(&self) -> (r: String)
        ensures
            self.index_spec() < self.docs_seq().len() ==> match self.docs_seq()[
            self.index_spec() as int].filename_spec() {
                Some(f) => r@ == f,
                None => r@ == Seq::<char>::empty(),
            },
    {
        match self.current() {
            Option::Some(doc) => doc.name(),
            Option::None => String::new(),
        }
    }

    /// How many screen rows the widgets below the text area take:
    /// the status line, the cursor row indicator, and the message
    /// bar while it is shown (`elapsed_ms` after its message was
    /// set).
    pub fn get_bottom_height(&self, elapsed_ms: u64) -> (r: usize)
        ensures
            r == 2 + (if self.message_bar_spec().content_spec().len() > 0 && elapsed_ms
                < self.message_bar_spec().delay_spec() {
                1int
            } else {
                0int
            }),
    {
        let mut bottom_height: usize = 2;
        if self.message_bar.should_render(elapsed_ms) {
            bottom_height = bottom_height + 1;
        }
        bottom_height
    }

    /// The current document's `(row width, line count)`.
    pub fn current_doc_size(&self, row: usize) -> (r: (usize, usize))
        requires
            self.inv(),
        ensures
            ({
                let i = self.index_spec() as int;
                if self.index_spec() < self.docs_seq().len() {
                    &&& (row < self.docs_seq()[i].line_count() ==> r.0 as nat == line_width_of(
                        self.docs_seq()[i].contents()[row as int],
                    ))
                    &&& (row >= self.docs_seq()[i].line_count() ==> r.0 == 0)
                    &&& r.1 == self.docs_seq()[i].line_count()
                } else {
                    r == (0usize, 0usize)
                }
            }),
    {
        match self.current() {
            Option::None => (0, 0),
            Option::Some(doc) => (doc.line_width(row), doc.len()),
        }
    }

    /// The current document's line count.
    pub fn current_doc_height(&self) -> (r: usize)
        ensures
            self.index_spec() < self.docs_seq().len() ==> r == self.docs_seq()[
            self.index_spec() as int].line_count(),
            self.index_spec() >= self.docs_seq().len() ==> r == 0,
    {
        match self.current() {
            Option::None => 0,
            Option::Some(doc) => doc.len(),
        }
    }

    /// The display-width index of row `index` of the current
    /// document; empty out of range.
    pub fn current_doc_row_to_line(&self, index: usize) -> (r: Line)
        requires
            self.inv(),
        ensures
            r.wf(),
            ({
                let i = self.index_spec() as int;
                if self.index_spec() < self.docs_seq().len() && index < self.docs_seq()[
                i].line_count() {
                    r.clusters() == self.docs_seq()[i].contents()[index as int]
                } else {
                    r.clusters() == Seq::<Seq<char>>::empty()
                }
            }),
    {
        match self.current() {
            Option::None => Line::new(),
            Option::Some(doc) => doc.to_line(index),
        }
    }

    /// The display width of row `row` of the current document.
    pub fn get_row_width_split_by_word_boundary(&self, row: usize) -> (r: usize)
        requires
            self.inv(),
        ensures
            ({
                let i = self.index_spec() as int;
                if self.index_spec() < self.docs_seq().len() {
                    &&& (row < self.docs_seq()[i].line_count() ==> r as nat == line_width_of(
                        self.docs_seq()[i].contents()[row as int],
                    ))
                    &&& (row >= self.docs_seq()[i].line_count() ==> r == 0)
                } else {
                    r == 0
                }
            }),
    {
        match self.current() {
            Option::None => 0,
            Option::Some(doc) => doc.line_width(row),
        }
    }

    /// Adds a document at the end; the switcher stops counting as
    /// empty once a document with lines arrives.
    pub fn add(&mut self, doc: Document)
        ensures
            final(self).docs_seq() == old(self).docs_seq().push(doc),
            final(self).index_spec() == old(self).index_spec(),
            final(self).empty_flag() == (old(self).empty_flag() && doc.line_count() == 0),
            final(self).message_bar_spec() == old(self).message_bar_spec(),
            final(self).status_line_spec() == old(self).status_line_spec(),
            old(self).inv() && doc.inv() ==> final(self).inv(),
    {
        let doc_empty = doc.is_empty();
        self.documents.push(doc);
        self.update_empty(doc_empty);
    }

    /// Removes and returns the current document.
    pub fn remove_current(&mut self) -> (r: Document)
        requires
            old(self).index_spec() < old(self).docs_seq().len(),
        ensures
            r == old(self).docs_seq()[old(self).index_spec() as int],
            final(self).docs_seq() == old(self).docs_seq().remove(old(self).index_spec() as int),
            final(self).index_spec() == old(self).index_spec(),
            final(self).empty_flag() == (final(self).docs_seq().len() == 0 || old(
                self,
            ).empty_flag()),
            old(self).inv() ==> final(self).inv(),
    {
        let index = self.index;
        self.remove(index)
    }

    /// Removes and returns the document at `index`.
    pub fn remove(&mut self, index: usize) -> (r: Document)
        requires
            index < old(self).docs_seq().len(),
        ensures
            r == old(self).docs_seq()[index as int],
            final(self).docs_seq() == old(self).docs_seq().remove(index as int),
            final(self).index_spec() == old(self).index_spec(),
            final(self).empty_flag() == (final(self).docs_seq().len() == 0 || old(
                self,
            ).empty_flag()),
            old(self).inv() ==> final(self).inv(),
    {
        let result = self.documents.remove(index);
        if self.documents.is_empty() {
            self.empty = true;
        }
        result
    }

    /// Moves to the next document, wrapping around; with nothing
    /// open, stays put.
    pub fn next(&mut self)
        requires
            old(self).index_spec() < usize::MAX,
        ensures
            final(self).docs_seq() == old(self).docs_seq(),
            final(self).index_spec() == (if old(self).empty_flag() || old(self).docs_seq().len()
                == 0 {
                old(self).index_spec() as int
            } else {
                ((old(self).index_spec() + 1) % old(self).docs_seq().len()) as int
            }),
            final(self).empty_flag() == old(self).empty_flag(),
            old(self).inv() ==> final(self).inv(),
    {
        if self.empty || self.documents.len() == 0 {
            return ;
        }
        self.index = (self.index + 1) % self.documents.len();
    }

    /// Moves to the previous document, wrapping around; with nothing
    /// open, stays put.
    pub fn prev(&mut self)
        ensures
            final(self).docs_seq() == old(self).docs_seq(),
            final(self).index_spec() == (if old(self).empty_flag() || old(self).docs_seq().len()
                == 0 {
                old(self).index_spec() as int
            } else if old(self).index_spec() > 0 {
                old(self).index_spec() - 1
            } else {
                old(self).docs_seq().len() - 1
            }),
            final(self).empty_flag() == old(self).empty_flag(),
            old(self).inv() ==> final(self).inv(),
    {
        if self.empty || self.documents.len() == 0 {
            return ;
        }
        if self.index > 0 {
            self.index = self.index - 1;
        } else {
            self.index = self.documents.len() - 1;
        }
    }

    /// Moves back to the first document.
    pub fn reset(&mut self)
        ensures
            final(self).docs_seq() == old(self).docs_seq(),
            final(self).index_spec() == 0,
            final(self).empty_flag() == old(self).empty_flag(),
            old(self).inv() ==> final(self).inv(),
    {
        self.index = 0;
    }

    /// The document at `index`, without moving to it.
    pub fn get(&self, index: usize) -> (r: Option<&Document>)
        ensures
            match r {
                Some(d) => index < self.docs_seq().len() && *d == self.docs_seq()[index as int],
                None => index >= self.docs_seq().len(),
            },
    {
        if index < self.documents.len() {
            Option::Some(&self.documents[index])
        } else {
            Option::None
        }
    }

    /// The current document, if the index is in range.
    pub fn current(&self) -> (r: Option<&Document>)
        ensures
            match r {
                Some(d) => self.index_spec() < self.docs_seq().len() && *d == self.docs_seq()[self.index_spec() as int],
                None => self.index_spec() >= self.docs_seq().len(),
            },
    {
        let index = self.index;
        self.get(index)
    }

    /// How many documents are open.
    pub fn size(&self) -> (r: usize)
        ensures
            r == self.docs_seq().len(),
    {
        self.documents.len()
    }

    /// Adds documents the host has already opened; the I/O itself is
    /// the host's.
    pub fn load(&mut self, docs: Vec<Document>)
        ensures
            final(self).docs_seq() == old(self).docs_seq() + docs@,
            final(self).index_spec() == old(self).index_spec(),
            final(self).empty_flag() == (old(self).empty_flag() && (forall|i: int|
                0 <= i < docs@.len() ==> (#[trigger] docs@[i]).line_count() == 0)),
            old(self).inv() && (forall|i: int| 0 <= i < docs@.len() ==> (#[trigger] docs@[i]).inv())
                ==> final(self).inv(),
    {
        let mut docs = docs;
        let ghost incoming = docs@;
        let ghost orig = self.documents@;
        let ghost empty0 = self.empty;
        let mut i: usize = 0;
        let n = docs.len();
        proof {
            assert(docs@ =~= incoming.skip(0));
            assert(self.documents@ =~= orig + incoming.take(0));
        }
        while i < n
            invariant
                i <= n,
                n == incoming.len(),
                docs@ == incoming.skip(i as int),
                self.documents@ == orig + incoming.take(i as int),
                self.index == old(self).index,
                self.empty == (empty0 && (forall|j: int|
                    0 <= j < i ==> (#[trigger] incoming[j]).line_count() == 0)),
            decreases n - i,
        {
            let d = docs.remove(0);
            proof {
                assert(d == incoming[i as int]);
                assert(docs@ =~= incoming.skip(i + 1));
            }
            let doc_empty = d.is_empty();
            self.documents.push(d);
            self.update_empty(doc_empty);
            proof {
                assert(self.documents@ =~= orig + incoming.take(i + 1));
            }
            i += 1;
        }
        proof {
            assert(incoming.take(n as int) =~= incoming);
            if old(self).inv() && (forall|k: int|
                0 <= k < incoming.len() ==> (#[trigger] incoming[k]).inv()) {
                assert forall|j: int|
                    0 <= j < self.documents@.len() implies (#[trigger] self.documents@[j]).inv() by {
                    if j < orig.len() {
                        assert(old(self).docs_seq()[j].inv());
                    } else {
                        assert(incoming[j - orig.len()].inv());
                    }
                }
            }
        }
    }

    /// Replaces the message shown under the text area.
    pub fn set_message(&mut self, bar: MessageBar)
        ensures
            final(self).message_bar_spec() == bar,
            final(self).docs_seq() == old(self).docs_seq(),
            final(self).index_spec() == old(self).index_spec(),
            final(self).empty_flag() == old(self).empty_flag(),
            old(self).inv() ==> final(self).inv(),
    {
        self.message_bar = bar;
    }

    /// Refreshes the status line from the current document.
    pub fn refresh_status(&mut self)
        ensures
            final(self).docs_seq() == old(self).docs_seq(),
            final(self).index_spec() == old(self).index_spec(),
            final(self).empty_flag() == old(self).empty_flag(),
            old(self).inv() ==> final(self).inv(),
            old(self).index_spec() < old(self).docs_seq().len() ==> {
                let doc = old(self).docs_seq()[old(self).index_spec() as int];
                final(self).status_line_spec().filetype_spec()
                    == doc.file_type_spec().name_spec()
            },
    {
        let (name, kind) = match self.current() {
            Option::Some(doc) => (doc.name(), doc.file_type()),
            Option::None => (String::new(), String::new()),
        };
        self.status_line.refresh(name, kind);
    }

    /// The status line's state.
    pub fn status_line(&self) -> (r: &StatusLine)
        ensures
            *r == self.status_line_spec(),
    {
        &self.status_line
    }

    /// The message bar's state.
    pub fn message_bar(&self) -> (r: &MessageBar)
        ensures
            *r == self.message_bar_spec(),
    {
        &self.message_bar
    }

    /// Clears the emptiness flag once a non-empty document arrives.
    fn update_empty(&mut self, doc_empty: bool)
        ensures
            final(self).docs_seq() == old(self).docs_seq(),
            final(self).index_spec() == old(self).index_spec(),
            final(self).empty_flag() == (old(self).empty_flag() && doc_empty),
            final(self).message_bar_spec() == old(self).message_bar_spec(),
            final(self).status_line_spec() == old(self).status_line_spec(),
            old(self).inv() ==> final(self).inv(),
    {
        if self.empty && !doc_empty {
            self.empty = false;
        }
        proof {
            if old(self).inv() {
                lemma_switcher_inv_transfer(old(self), self);
            }
        }
    }
}

/// A switcher whose documents are those of a consistent one is
/// itself consistent.
proof fn lemma_switcher_inv_transfer(a: &DocumentSwitcher, b: &DocumentSwitcher)
    requires
        a.inv(),
        a.docs_seq() == b.docs_seq(),
    ensures
        b.inv(),
{
    assert forall|i: int| 0 <= i < b.docs_seq().len() implies (#[trigger] b.docs_seq()[i]).inv() by {
        assert(a.docs_seq()[i].inv());
    }
}

} // verus!
