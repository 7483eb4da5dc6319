//! The document: an ordered collection of lines, dirty tracking, the
//! file-type-derived rule set, whole-document search, and the
//! forward-only invalidation that keeps incremental highlighting
//! cheap.

use crate::editor::SearchDirection;
use crate::filetype::FileType;
use crate::grapheme::{graphemes_of, match_at};
use crate::highlighting::{full_highlight, scan_ends, word_view, HighlightRuleSet};
use crate::position::Position;
use crate::row::Row;
use crate::width::{line_width_of, Line};
use vstd::prelude::*;
use vstd::string::StringExecFns;

verus! {

/// The least index at or after `i` holding a newline, if any.
pub open spec fn find_nl(s: Seq<char>, i: int) -> Option<int>
    decreases s.len() - i,
{
    if i < 0 || i >= s.len() {
        Option::None
    } else if s[i] == '\n' {
        Option::Some(i)
    } else {
        find_nl(s, i + 1)
    }
}

/// The text from `i` on, split at line boundaries: lines end at `\n`
/// or `\r\n`, and a final line ending is optional.
pub open spec fn lines_from(s: Seq<char>, i: int) -> Seq<Seq<char>>
    decreases s.len() - i,
{
    if i < 0 || i >= s.len() {
        Seq::empty()
    } else {
        match find_nl(s, i) {
            Option::None => seq![s.subrange(i, s.len() as int)],
            Option::Some(j) => {
                // find_nl keeps j within [i, len); the clamps only
                // make the definition total for the checker.
                let jn = if j < i {
                    i
                } else if j >= s.len() {
                    s.len() - 1
                } else {
                    j
                };
                let end = if jn > i && s[jn - 1] == '\r' {
                    jn - 1
                } else {
                    jn
                };
                seq![s.subrange(i, end)] + lines_from(s, jn + 1)
            },
        }
    }
}

/// The line boundaries of a text.
pub open spec fn lines_of(s: Seq<char>) -> Seq<Seq<char>> {
    lines_from(s, 0)
}

proof fn lemma_find_nl_bounds(s: Seq<char>, i: int)
    ensures
        match find_nl(s, i) {
            Option::Some(j) => i <= j < s.len() && s[j] == '\n',
            Option::None => true,
        },
    decreases s.len() - i,
{
    if !(i < 0 || i >= s.len()) && !(s[i] == '\n') {
        lemma_find_nl_bounds(s, i + 1);
    }
}

fn find_nl_exec(s: &str, i: usize) -> (r: Option<usize>)
    requires
        i <= s@.len(),
    ensures
        match r {
            Option::Some(j) => find_nl(s@, i as int) == Option::Some(j as int) && i <= j
                < s@.len(),
            Option::None => find_nl(s@, i as int) is None,
        },
{
    let n = s.unicode_len();
    let mut j = i;
    while j < n
        invariant
            i <= j <= n,
            n == s@.len(),
            find_nl(s@, i as int) == find_nl(s@, j as int),
        decreases n - j,
    {
        if s.get_char(j) == '\n' {
            return Option::Some(j);
        }
        j += 1;
    }
    Option::None
}

/// Splits a text into its lines.
pub(crate) fn split_lines(s: &str) -> (r: Vec<String>)
    ensures
        r.deep_view() == lines_of(s@),
{
    let n = s.unicode_len();
    let mut out: Vec<String> = Vec::new();
    let mut pos: usize = 0;
    proof {
        assert(out.deep_view() =~= Seq::<Seq<char>>::empty());
        assert(Seq::<Seq<char>>::empty() + lines_from(s@, 0) =~= lines_from(s@, 0));
    }
    while pos < n
        invariant
            pos <= n,
            n == s@.len(),
            lines_of(s@) == out.deep_view() + lines_from(s@, pos as int),
        decreases n - pos,
    {
        let ghost before = out.deep_view();
        match find_nl_exec(s, pos) {
            Option::None => {
                let line = s.substring_char(pos, n).to_owned();
                out.push(line);
                proof {
                    crate::grapheme::lemma_dv(&out);
                    assert forall|k: int| 0 <= k < out.deep_view().len() implies out.deep_view()[k]
                        == (before + lines_from(s@, pos as int))[k] by {
                        if k < before.len() {
                            assert(out@[k]@ == before[k]);
                        }
                    }
                    assert(out.deep_view() =~= before + lines_from(s@, pos as int));
                }
                return out;
            },
            Option::Some(j) => {
                let end = if j > pos && s.get_char(j - 1) == '\r' {
                    j - 1
                } else {
                    j
                };
                let line = s.substring_char(pos, end).to_owned();
                out.push(line);
                proof {
                    crate::grapheme::lemma_dv(&out);
                    assert(lines_from(s@, pos as int) == seq![s@.subrange(pos as int, end as int)]
                        + lines_from(s@, j + 1));
                    assert forall|k: int| 0 <= k < out.deep_view().len() implies out.deep_view()[k]
                        == (before + seq![s@.subrange(pos as int, end as int)])[k] by {
                        if k < before.len() {
                            assert(out@[k]@ == before[k]);
                        }
                    }
                    assert(out.deep_view() =~= before + seq![
                        s@.subrange(pos as int, end as int),
                    ]);
                    assert((before + seq![s@.subrange(pos as int, end as int)]) + lines_from(
                        s@,
                        j + 1,
                    ) =~= before + (seq![s@.subrange(pos as int, end as int)] + lines_from(
                        s@,
                        j + 1,
                    )));
                }
                pos = j + 1;
            },
        }
    }
    proof {
        assert(lines_from(s@, pos as int) =~= Seq::<Seq<char>>::empty());
        assert(out.deep_view() + Seq::<Seq<char>>::empty() =~= out.deep_view());
    }
    out
}

/// The block-comment state entering line `i` when a document with
/// these line contents is highlighted top to bottom from a clean
/// start.
pub open spec fn thread_state(cont: Seq<Seq<Seq<char>>>, rules: HighlightRuleSet, i: int) -> bool
    decreases i,
{
    if i <= 0 {
        false
    } else {
        scan_ends(cont[i - 1], rules, 0, thread_state(cont, rules, i - 1))
    }
}

/// The document's text: every line followed by a newline.
pub open spec fn doc_text_from(cont: Seq<Seq<Seq<char>>>, i: int) -> Seq<char>
    decreases cont.len() - i,
{
    if i < 0 || i >= cont.len() {
        Seq::empty()
    } else {
        cont[i].flatten() + seq!['\n'] + doc_text_from(cont, i + 1)
    }
}

/// The document.
pub struct Document {
    rows: Vec<Row>,
    dirty: bool,
    file_type: FileType,
    pub filename: Option<String>,
}

impl Document {
    /// The rows of the document.
    pub closed spec fn rows_seq(&self) -> Seq<Row> {
        self.rows@
    }

    /// The row at index `i`.
    pub open spec fn rows_at(&self, i: int) -> Row {
        self.rows_seq()[i]
    }

    /// The cluster contents of every line.
    pub closed spec fn contents(&self) -> Seq<Seq<Seq<char>>> {
        self.rows@.map_values(|r: Row| r.clusters())
    }

    /// The number of lines.
    pub open spec fn line_count(&self) -> nat {
        self.contents().len()
    }

    /// The highlighting rules the document was opened with.
    pub closed spec fn rules(&self) -> HighlightRuleSet {
        self.file_type.options()
    }

    pub closed spec fn is_dirty_spec(&self) -> bool {
        self.dirty
    }

    pub closed spec fn file_type_spec(&self) -> FileType {
        self.file_type
    }

    /// The name the document will be saved under, if any.
    pub closed spec fn filename_spec(&self) -> Option<Seq<char>> {
        match self.filename {
            Option::Some(f) => Option::Some(f@),
            Option::None => Option::None,
        }
    }

    /// Every row is well formed and its highlight cache, when marked
    /// current, really is the scan of its content.
    pub closed spec fn inv(&self) -> bool {
        &&& self.file_type.wf()
        &&& forall|i: int| 0 <= i < self.rows@.len() ==> (#[trigger] self.rows@[i]).wf()
        &&& forall|i: int|
            0 <= i < self.rows@.len() ==> (#[trigger] self.rows@[i]).cache_valid(
                self.file_type.options(),
            )
    }

    /// An empty document: no lines, not dirty, no name.
    pub fn default() -> (r: Document)
        ensures
            r.inv(),
            r.line_count() == 0,
            !r.is_dirty_spec(),
            r.filename_spec() is None,
    {
        let r = Document {
            rows: Vec::new(),
            dirty: false,
            file_type: FileType::default(),
            filename: Option::None,
        };
        proof {
            assert(r.contents() =~= Seq::<Seq<Seq<char>>>::empty());
        }
        r
    }

    /// An empty document that remembers the name it will be saved
    /// under; the file type follows the name.
    pub fn with_file_name(filename: &str) -> (r: Document)
        ensures
            r.inv(),
            r.line_count() == 0,
            !r.is_dirty_spec(),
            r.filename_spec() == Option::Some(filename@),
    {
        let r = Document {
            rows: Vec::new(),
            dirty: false,
            file_type: FileType::from(filename),
            filename: Option::Some(String::from_str(filename)),
        };
        proof {
            assert(r.contents() =~= Seq::<Seq<Seq<char>>>::empty());
        }
        r
    }

    /// A document holding the given text, split at line boundaries;
    /// it has no name and highlights nothing.
    pub fn with_string(text: &str) -> (r: Document)
        ensures
            r.inv(),
            !r.is_dirty_spec(),
            r.filename_spec() is None,
            r.line_count() == lines_of(text@).len(),
            forall|i: int|
                0 <= i < r.line_count() ==> r.contents()[i] == graphemes_of(
                    #[trigger] lines_of(text@)[i],
                ),
    {
        let rows = rows_from_lines(split_lines(text));
        Document { rows, dirty: false, file_type: FileType::default(), filename: Option::None }
    }

    /// The compute part of opening a file: the host reads the text,
    /// this derives the file type from the name and splits the text
    /// into lines.
    pub fn open_text(filename: &str, text: &str) -> (r: Document)
        ensures
            r.inv(),
            !r.is_dirty_spec(),
            r.filename_spec() == Option::Some(filename@),
            r.line_count() == lines_of(text@).len(),
            forall|i: int|
                0 <= i < r.line_count() ==> r.contents()[i] == graphemes_of(
                    #[trigger] lines_of(text@)[i],
                ),
    {
        let rows = rows_from_lines(split_lines(text));
        Document {
            rows,
            dirty: false,
            file_type: FileType::from(filename),
            filename: Option::Some(String::from_str(filename)),
        }
    }

    /// The number of lines.
    pub fn len(&self) -> (r: usize)
        ensures
            r == self.line_count(),
    {
        self.rows.len()
    }

    pub fn is_empty(&self) -> (r: bool)
        ensures
            r == (self.line_count() == 0),
    {
        self.rows.is_empty()
    }

    pub fn is_dirty(&self) -> (r: bool)
        ensures
            r == self.is_dirty_spec(),
    {
        self.dirty
    }

    /// The display name of the document's file type.
    pub fn file_type(&self) -> (r: String)
        ensures
            r@ == self.file_type_spec().name_spec(),
    {
        self.file_type.name()
    }

    /// The display name: the file name, or nothing for an unnamed
    /// buffer.
    pub fn name(&self) -> (r: String)
        ensures
            match self.filename_spec() {
                Some(f) => r@ == f,
                None => r@ == Seq::<char>::empty(),
            },
    {
        match &self.filename {
            Option::Some(f) => f.clone(),
            Option::None => String::new(),
        }
    }

    /// Renames the document; the file type is not re-derived, as a
    /// save under the new name does that.
    pub fn set_filename(&mut self, filename: Option<String>)
        ensures
            final(self).filename_spec() == (match filename {
                Option::Some(f) => Option::Some(f@),
                Option::None => Option::<Seq<char>>::None,
            }),
            final(self).contents() == old(self).contents(),
            final(self).rows_seq() == old(self).rows_seq(),
            final(self).rules() == old(self).rules(),
            final(self).file_type_spec() == old(self).file_type_spec(),
            final(self).is_dirty_spec() == old(self).is_dirty_spec(),
            old(self).inv() ==> final(self).inv(),
    {
        self.filename = filename;
    }

    /// The row at `index`, if any.
    pub fn row(&self, index: usize) -> (r: Option<&Row>)
        ensures
            match r {
                Some(row) => index < self.line_count() && *row == self.rows_at(index as int),
                None => index >= self.line_count(),
            },
    {
        if index < self.rows.len() {
            Option::Some(&self.rows[index])
        } else {
            Option::None
        }
    }

    /// All rows.
    pub fn rows(&self) -> (r: &Vec<Row>)
        ensures
            r@ == self.rows_seq(),
    {
        &self.rows
    }

    /// The grapheme-cluster count of line `index`; zero past the end.
    pub fn line_len(&self, index: usize) -> (r: usize)
        ensures
            index < self.line_count() ==> r == self.contents()[index as int].len(),
            index >= self.line_count() ==> r == 0,
    {
        if index < self.rows.len() {
            self.rows[index].len()
        } else {
            0
        }
    }

    /// The display width of line `index`; zero past the end.
    pub fn line_width(&self, index: usize) -> (r: usize)
        requires
            self.inv(),
        ensures
            index < self.line_count() ==> r as nat == line_width_of(self.contents()[index as int]),
            index >= self.line_count() ==> r == 0,
    {
        if index < self.rows.len() {
            let line = Line::from_grapheme(self.rows[index].grapheme_string());
            line.total_width()
        } else {
            0
        }
    }

    /// The display-width index of line `index`; empty past the end.
    pub fn to_line(&self, index: usize) -> (r: Line)
        requires
            self.inv(),
        ensures
            r.wf(),
            index < self.line_count() ==> r.clusters() == self.contents()[index as int],
            index >= self.line_count() ==> r.clusters() == Seq::<Seq<char>>::empty(),
    {
        if index < self.rows.len() {
            Line::from_grapheme(self.rows[index].grapheme_string())
        } else {
            Line::new()
        }
    }

    /// The document's text: every line followed by a newline; what a
    /// save writes to disk.
    pub fn contents_string(&self) -> (r: String)
        ensures
            r@ == doc_text_from(self.contents(), 0),
    {
        let ghost cont = self.contents();
        let n = self.rows.len();
        let mut out = String::new();
        let mut i: usize = 0;
        proof {
            assert(cont.len() == n);
        }
        while i < n
            invariant
                i <= n,
                n == cont.len(),
                cont == self.contents(),
                n == self.rows_seq().len(),
                doc_text_from(cont, 0) == out@ + doc_text_from(cont, i as int),
            decreases n - i,
        {
            let ghost before = out@;
            let line = self.rows[i].to_string();
            out.append(line.as_str());
            crate::grapheme::push_char(&mut out, '\n');
            proof {
                assert(self.rows_at(i as int).clusters() == cont[i as int]);
                assert(out@ =~= before + (cont[i as int].flatten() + seq!['\n']));
                assert(doc_text_from(cont, i as int) == cont[i as int].flatten() + seq!['\n']
                    + doc_text_from(cont, i + 1));
                assert(before + (cont[i as int].flatten() + seq!['\n'] + doc_text_from(
                    cont,
                    i + 1,
                )) =~= (before + (cont[i as int].flatten() + seq!['\n'])) + doc_text_from(
                    cont,
                    i + 1,
                ));
            }
            i += 1;
        }
        proof {
            assert(doc_text_from(cont, n as int) =~= Seq::<char>::empty());
            assert(out@ + Seq::<char>::empty() =~= out@);
        }
        out
    }

    /// The bookkeeping of a completed save: the dirty flag clears
    /// and the file type follows the (possibly new) name. The write
    /// itself is the host's.
    pub fn mark_saved(&mut self)
        requires
            old(self).inv(),
        ensures
            final(self).inv(),
            !final(self).is_dirty_spec(),
            final(self).contents() == old(self).contents(),
            final(self).filename_spec() == old(self).filename_spec(),
            forall|i: int|
                0 <= i < final(self).rows_seq().len() ==> (#[trigger] final(self).rows_at(
                    i,
                )).is_stale(),
    {
        self.dirty = false;
        let new_type = match &self.filename {
            Option::Some(name) => FileType::from(name.as_str()),
            Option::None => FileType::default(),
        };
        self.file_type = new_type;
        // The caches were computed under the previous rule set; the
        // next highlight rescans under the new one.
        self.unhighlight_rows(0);
        proof {
            assert forall|i: int| 0 <= i < self.rows@.len() implies (#[trigger] self.rows@[i]).wf()
                && self.rows@[i].cache_valid(self.file_type.options()) by {
                assert(self.rows_at(i).cache_valid(self.file_type.options()));
                assert(old(self).rows_at(i).wf());
            }
        }
    }

    /// Marks every line from `start` onward stale. Invalidation only
    /// ever flows forward from an edit point: a block-comment change
    /// on a line can only affect the lines after it.
    fn unhighlight_rows(&mut self, start: usize)
        ensures
            final(self).rows_seq().len() == old(self).rows_seq().len(),
            final(self).contents() == old(self).contents(),
            forall|i: int|
                0 <= i < start && i < final(self).rows_seq().len() ==> final(self).rows_at(i)
                    == old(self).rows_at(i),
            forall|i: int|
                start <= i < final(self).rows_seq().len() ==> (#[trigger] final(self).rows_at(
                    i,
                )).is_stale() && final(self).rows_at(i).wf() == old(self).rows_at(i).wf() && (
                forall|rules: HighlightRuleSet| final(self).rows_at(i).cache_valid(rules)),
            final(self).is_dirty_spec() == old(self).is_dirty_spec(),
            final(self).filename_spec() == old(self).filename_spec(),
            final(self).file_type_spec() == old(self).file_type_spec(),
            old(self).inv() ==> final(self).inv(),
    {
        let n = self.rows.len();
        let mut i = if start > n {
            n
        } else {
            start
        };
        while i < n
            invariant
                i <= n,
                start <= i || (start > n && i == n),
                n == self.rows@.len(),
                self.dirty == old(self).dirty,
                self.filename == old(self).filename,
                self.file_type == old(self).file_type,
                forall|j: int|
                    (0 <= j < start && j < n) ==> self.rows@[j] == old(self).rows@[j],
                forall|j: int| i <= j < n ==> #[trigger] self.rows@[j] == old(self).rows@[j],
                forall|j: int|
                    start <= j < i ==> (#[trigger] self.rows@[j]).is_stale() && self.rows@[j].clusters()
                        == old(self).rows@[j].clusters() && self.rows@[j].wf() == old(
                        self,
                    ).rows@[j].wf() && (forall|rules: HighlightRuleSet|
                        self.rows@[j].cache_valid(rules)),
            decreases n - i,
        {
            let ghost prev = self.rows@;
            let row = &mut self.rows[i];
            row.mark_stale();
            proof {
                assert(self.rows@[i as int].is_stale());
                assert forall|j: int| 0 <= j < n && j != i implies self.rows@[j] == prev[j] by {}
            }
            i += 1;
        }
        proof {
            assert forall|j: int| 0 <= j < n implies self.rows@[j].clusters() == old(
                self,
            ).rows@[j].clusters() by {}
            assert(final(self).contents() =~= old(self).contents());
        }
    }
    /// Inserts `c` at `at`. A newline splits the line in two; a row
    /// index one past the last line appends a new line; a row index
    /// further out is a guarded no-op. Marks the document dirty and
    /// every line from `at.y` onward stale — a block-comment change
    /// here can only affect later lines, never earlier ones.
    pub fn insert(&mut self, at: &Position, c: char)
        requires
            old(self).inv(),
            at.y < old(self).line_count() ==> at.x <= old(self).contents()[at.y as int].len(),
        ensures
            final(self).inv(),
            final(self).rules() == old(self).rules(),
            final(self).filename_spec() == old(self).filename_spec(),
            final(self).file_type_spec() == old(self).file_type_spec(),
            at.y > old(self).line_count() ==> *final(self) == *old(self),
            at.y <= old(self).line_count() ==> {
                let cont = old(self).contents();
                let y = at.y as int;
                &&& final(self).is_dirty_spec()
                &&& (if c == '\n' {
                    if y == cont.len() {
                        final(self).contents() == cont.push(Seq::<Seq<char>>::empty())
                    } else {
                        final(self).contents() == cont.update(y, cont[y].take(at.x as int)).insert(
                            y + 1,
                            cont[y].skip(at.x as int),
                        )
                    }
                } else {
                    if y == cont.len() {
                        final(self).contents() == cont.push(seq![seq![c]])
                    } else {
                        final(self).contents() == cont.update(
                            y,
                            cont[y].insert(at.x as int, seq![c]),
                        )
                    }
                })
                &&& forall|i: int|
                    0 <= i < y && i < final(self).rows_seq().len() ==> final(self).rows_at(i)
                        == old(self).rows_at(i)
                &&& forall|i: int|
                    y <= i < final(self).rows_seq().len() ==> (#[trigger] final(self).rows_at(
                        i,
                    )).is_stale()
            },
    {
        if at.y > self.rows.len() {
            return ;
        }
        self.dirty = true;
        if c == '\n' {
            self.insert_new_line(at);
            self.unhighlight_rows(at.y);
            return ;
        }
        let ghost cont = self.contents();
        if at.y == self.rows.len() {
            let mut row = Row::empty();
            row.insert(0, c);
            self.rows.push(row);
            proof {
                assert(row.clusters() =~= seq![seq![c]]);
                assert(self.contents() =~= cont.push(seq![seq![c]]));
            }
        } else {
            let ghost prev = self.rows@;
            let row = &mut self.rows[at.y];
            row.insert(at.x, c);
            proof {
                assert forall|i: int| 0 <= i < self.rows@.len() && i != at.y implies self.rows@[i]
                    == prev[i] by {}
                assert(self.contents() =~= cont.update(
                    at.y as int,
                    cont[at.y as int].insert(at.x as int, seq![c]),
                ));
            }
        }
        self.unhighlight_rows(at.y);
    }

    /// Splits the line at `at` into two lines, or appends an empty
    /// line when `at.y` is one past the end.
    fn insert_new_line(&mut self, at: &Position)
        requires
            old(self).inv(),
            at.y < old(self).line_count() ==> at.x <= old(self).contents()[at.y as int].len(),
        ensures
            final(self).inv(),
            final(self).rules() == old(self).rules(),
            final(self).filename_spec() == old(self).filename_spec(),
            final(self).file_type_spec() == old(self).file_type_spec(),
            final(self).is_dirty_spec() == old(self).is_dirty_spec(),
            at.y > old(self).line_count() ==> *final(self) == *old(self),
            at.y == old(self).line_count() ==> final(self).contents() == old(
                self,
            ).contents().push(Seq::<Seq<char>>::empty()),
            at.y < old(self).line_count() ==> {
                let cont = old(self).contents();
                let y = at.y as int;
                final(self).contents() == cont.update(y, cont[y].take(at.x as int)).insert(
                    y + 1,
                    cont[y].skip(at.x as int),
                )
            },
            forall|i: int|
                0 <= i < at.y && i < final(self).rows_seq().len() ==> final(self).rows_at(i) == old(
                    self,
                ).rows_at(i),
    {
        if at.y > self.rows.len() {
            return ;
        }
        let ghost cont = self.contents();
        if at.y == self.rows.len() {
            self.rows.push(Row::empty());
            proof {
                assert(self.contents() =~= cont.push(Seq::<Seq<char>>::empty()));
            }
            return ;
        }
        let ghost prev = self.rows@;
        let new_row = {
            let current_row = &mut self.rows[at.y];
            current_row.split(at.x)
        };
        proof {
            assert forall|i: int| 0 <= i < self.rows@.len() && i != at.y implies self.rows@[i]
                == prev[i] by {}
        }
        self.rows.insert(at.y + 1, new_row);
        proof {
            assert(self.contents() =~= cont.update(
                at.y as int,
                cont[at.y as int].take(at.x as int),
            ).insert(at.y + 1, cont[at.y as int].skip(at.x as int)));
        }
    }

    /// Deletes the cluster at `at`; at a line end it merges the next
    /// line into this one. A row index past the end is a guarded
    /// no-op. Marks the document dirty and every line from `at.y`
    /// onward stale.
    pub fn delete(&mut self, at: &Position)
        requires
            old(self).inv(),
        ensures
            final(self).inv(),
            final(self).rules() == old(self).rules(),
            final(self).filename_spec() == old(self).filename_spec(),
            final(self).file_type_spec() == old(self).file_type_spec(),
            at.y >= old(self).line_count() ==> *final(self) == *old(self),
            at.y < old(self).line_count() ==> {
                let cont = old(self).contents();
                let y = at.y as int;
                let merge = at.x == cont[y].len() && y + 1 < cont.len();
                &&& final(self).is_dirty_spec()
                &&& (merge ==> final(self).contents() == cont.update(y, cont[y] + cont[y + 1]).remove(
                    y + 1,
                ))
                &&& (!merge ==> final(self).contents() == cont.update(
                    y,
                    if at.x < cont[y].len() {
                        cont[y].remove(at.x as int)
                    } else {
                        cont[y]
                    },
                ))
                &&& forall|i: int|
                    0 <= i < y && i < final(self).rows_seq().len() ==> final(self).rows_at(i)
                        == old(self).rows_at(i)
                &&& forall|i: int|
                    y <= i < final(self).rows_seq().len() ==> (#[trigger] final(self).rows_at(
                        i,
                    )).is_stale()
            },
    {
        let len = self.rows.len();
        if at.y >= len {
            return ;
        }
        self.dirty = true;
        let ghost cont = self.contents();
        let row_len = self.rows[at.y].len();
        if at.x == row_len && at.y + 1 < len {
            let next_row = self.rows.remove(at.y + 1);
            proof {
                assert(next_row.clusters() == cont[at.y + 1]);
            }
            let ghost prev = self.rows@;
            let row = &mut self.rows[at.y];
            row.concat(&next_row);
            proof {
                assert forall|i: int| 0 <= i < self.rows@.len() && i != at.y implies self.rows@[i]
                    == prev[i] by {}
                assert(self.contents() =~= cont.update(
                    at.y as int,
                    cont[at.y as int] + cont[at.y + 1],
                ).remove(at.y + 1));
            }
        } else {
            let ghost prev = self.rows@;
            let row = &mut self.rows[at.y];
            row.delete(at.x);
            proof {
                assert forall|i: int| 0 <= i < self.rows@.len() && i != at.y implies self.rows@[i]
                    == prev[i] by {}
                assert(self.contents() =~= cont.update(
                    at.y as int,
                    if at.x < cont[at.y as int].len() {
                        cont[at.y as int].remove(at.x as int)
                    } else {
                        cont[at.y as int]
                    },
                ));
            }
        }
        self.unhighlight_rows(at.y);
    }

    /// Re-highlights the lines before `until` (all lines when it is
    /// `None`), threading the block-comment state from line to line
    /// starting clean at the top. Lines whose caches are current are
    /// skipped without rescanning, so the walk from the top costs
    /// next to nothing and the state entering the visible window is
    /// always right, even for edits above it.
    pub fn highlight(&mut self, word: &Option<String>, until: Option<usize>)
        requires
            old(self).inv(),
        ensures
            final(self).inv(),
            final(self).contents() == old(self).contents(),
            final(self).rules() == old(self).rules(),
            final(self).filename_spec() == old(self).filename_spec(),
            final(self).file_type_spec() == old(self).file_type_spec(),
            final(self).is_dirty_spec() == old(self).is_dirty_spec(),
            ({
                let cont = old(self).contents();
                let rules = old(self).rules();
                let lim = match until {
                    Option::Some(u) => if u + 1 < cont.len() {
                        u + 1
                    } else {
                        cont.len() as int
                    },
                    Option::None => cont.len() as int,
                };
                &&& forall|i: int|
                    0 <= i < lim ==> (#[trigger] final(self).rows_at(i)).spans() == full_highlight(
                        cont[i],
                        rules,
                        word_view(word),
                        thread_state(cont, rules, i),
                    )
                &&& (word is None ==> forall|i: int|
                    0 <= i < lim ==> !(#[trigger] final(self).rows_at(i)).is_stale())
                &&& forall|i: int|
                    lim <= i < cont.len() ==> final(self).rows_at(i) == old(self).rows_at(i)
            }),
    {
        let n = self.rows.len();
        let lim = match until {
            Option::Some(u) => {
                let u1 = u.saturating_add(1);
                if u1 < n {
                    u1
                } else {
                    n
                }
            },
            Option::None => n,
        };
        let ghost cont = self.contents();
        let ghost rules = self.rules();
        let mut inside = false;
        let mut i: usize = 0;
        while i < lim
            invariant
                i <= lim <= n,
                n == self.rows@.len(),
                self.contents() == cont,
                self.file_type == old(self).file_type,
                self.dirty == old(self).dirty,
                self.filename == old(self).filename,
                rules == self.rules(),
                self.file_type.wf(),
                inside == thread_state(cont, rules, i as int),
                forall|j: int| i <= j < n ==> #[trigger] self.rows@[j] == old(self).rows@[j],
                forall|j: int|
                    0 <= j < n ==> (#[trigger] self.rows@[j]).wf() && self.rows@[j].cache_valid(
                        rules,
                    ),
                forall|j: int|
                    0 <= j < i ==> (#[trigger] self.rows@[j]).spans() == full_highlight(
                        cont[j],
                        rules,
                        word_view(word),
                        thread_state(cont, rules, j),
                    ),
                word is None ==> forall|j: int|
                    0 <= j < i ==> !(#[trigger] self.rows@[j]).is_stale(),
                old(self).inv(),
            decreases lim - i,
        {
            let ghost prev = self.rows@;
            let ends = {
                let row = &mut self.rows[i];
                row.highlight(self.file_type.highlighting_options(), word, inside)
            };
            proof {
                assert forall|j: int| 0 <= j < self.rows@.len() && j != i implies self.rows@[j]
                    == prev[j] by {}
                assert(self.rows@[i as int].clusters() == prev[i as int].clusters());
                assert(self.contents() =~= cont);
                assert(ends == scan_ends(cont[i as int], rules, 0, thread_state(
                    cont,
                    rules,
                    i as int,
                )));
                assert(thread_state(cont, rules, i + 1) == scan_ends(
                    cont[i as int],
                    rules,
                    0,
                    thread_state(cont, rules, i as int),
                ));
            }
            inside = ends;
            i += 1;
        }
    }

    /// Whole-document search. `Forward` scans line `at.y` from column
    /// `at.x`, then each later line from column zero, and returns the
    /// first match; `Backward` scans line `at.y` for matches ending
    /// by column `at.x`, then each earlier line in full, and returns
    /// the last match of the first line holding one. The scan does
    /// not wrap around past the document's ends.
    pub fn find(&self, query: &str, at: &Position, direction: SearchDirection) -> (r: Option<
        Position,
    >)
        ensures
            ({
                let cont = self.contents();
                let q = graphemes_of(query@);
                let n = cont.len() as int;
                match r {
                    Some(p) => {
                        &&& q.len() > 0
                        &&& at.y < n
                        &&& p.y < n
                        &&& match_at(cont[p.y as int], q, p.x as int)
                        &&& if direction == SearchDirection::Forward {
                            &&& at.y <= p.y
                            &&& (p.y == at.y ==> at.x <= p.x && forall|j: int|
                                at.x <= j < p.x ==> !match_at(cont[at.y as int], q, j))
                            &&& (p.y > at.y ==> (forall|j: int|
                                at.x <= j ==> !match_at(cont[at.y as int], q, j)) && (forall|
                                yy: int,
                                j: int,
                            |
                                at.y < yy < p.y ==> !(#[trigger] match_at(cont[yy], q, j))) && (forall|
                                j: int,
                            |
                                0 <= j < p.x ==> !match_at(cont[p.y as int], q, j)))
                        } else {
                            &&& p.y <= at.y
                            &&& (p.y == at.y ==> p.x + q.len() <= at.x && forall|j: int|
                                p.x < j && j + q.len() <= at.x ==> !match_at(
                                    cont[at.y as int],
                                    q,
                                    j,
                                ))
                            &&& (p.y < at.y ==> (forall|j: int|
                                j + q.len() <= at.x ==> !match_at(cont[at.y as int], q, j)) && (
                            forall|yy: int, j: int|
                                p.y < yy < at.y ==> !(#[trigger] match_at(cont[yy], q, j))) && (forall|
                                j: int,
                            |
                                p.x < j ==> !match_at(cont[p.y as int], q, j)))
                        }
                    },
                    None => q.len() == 0 || at.y >= n || if direction == SearchDirection::Forward {
                        (forall|j: int| at.x <= j ==> !match_at(cont[at.y as int], q, j)) && (
                        forall|yy: int, j: int|
                            at.y < yy < n ==> !(#[trigger] match_at(cont[yy], q, j)))
                    } else {
                        (forall|j: int| j + q.len() <= at.x ==> !match_at(cont[at.y as int], q, j))
                            && (forall|yy: int, j: int|
                            0 <= yy < at.y ==> !(#[trigger] match_at(cont[yy], q, j)))
                    },
                }
            }),
    {
        let ghost cont = self.contents();
        let ghost q = graphemes_of(query@);
        let n = self.rows.len();
        if at.y >= n {
            return Option::None;
        }
        if direction == SearchDirection::Forward {
            let mut y = at.y;
            let mut from = at.x;
            while y < n
                invariant
                    direction == SearchDirection::Forward,
                    at.y <= y <= n,
                    at.y < n,
                    n == cont.len(),
                    cont == self.contents(),
                    q == graphemes_of(query@),
                    n == self.rows@.len(),
                    y == at.y ==> from == at.x,
                    y > at.y ==> from == 0,
                    y > at.y ==> q.len() == 0 || (forall|j: int|
                        at.x <= j ==> !match_at(cont[at.y as int], q, j)),
                    forall|yy: int, j: int|
                        at.y < yy < y ==> q.len() == 0 || !(#[trigger] match_at(cont[yy], q, j)),
                decreases n - y,
            {
                let row = &self.rows[y];
                proof {
                    assert(row.clusters() == cont[y as int]);
                }
                match row.find(query, from, SearchDirection::Forward) {
                    Option::Some(x) => {
                        return Option::Some(Position { x, y });
                    },
                    Option::None => {
                        proof {
                            if q.len() > 0 {
                                assert(from > cont[y as int].len() ==> forall|j: int|
                                    from <= j ==> !match_at(cont[y as int], q, j));
                            }
                        }
                        y += 1;
                        from = 0;
                    },
                }
            }
            Option::None
        } else {
            let mut y = at.y;
            let first_len = self.rows[at.y].len();
            let mut from = if at.x < first_len {
                at.x
            } else {
                first_len
            };
            loop
                invariant
                    direction == SearchDirection::Backward,
                    y <= at.y < n,
                    n == cont.len(),
                    cont == self.contents(),
                    q == graphemes_of(query@),
                    n == self.rows@.len(),
                    y == at.y ==> from as int == (if at.x as int <= cont[at.y as int].len() {
                        at.x as int
                    } else {
                        cont[at.y as int].len() as int
                    }),
                    y < at.y ==> from as int == cont[y as int].len(),
                    y < at.y ==> q.len() == 0 || (forall|j: int|
                        j + q.len() <= at.x ==> !match_at(cont[at.y as int], q, j)),
                    forall|yy: int, j: int|
                        y < yy < at.y ==> q.len() == 0 || !(#[trigger] match_at(cont[yy], q, j)),
                ensures
                    q.len() == 0 || ((forall|j: int|
                        j + q.len() <= at.x ==> !match_at(cont[at.y as int], q, j)) && (forall|
                        yy: int,
                        j: int,
                    |
                        0 <= yy < at.y ==> !(#[trigger] match_at(cont[yy], q, j)))),
                decreases y,
            {
                let row = &self.rows[y];
                proof {
                    assert(row.clusters() == cont[y as int]);
                }
                match row.find(query, from, SearchDirection::Backward) {
                    Option::Some(x) => {
                        return Option::Some(Position { x, y });
                    },
                    Option::None => {
                        proof {
                            if q.len() > 0 {
                                assert(forall|j: int|
                                    j + q.len() <= from ==> !match_at(cont[y as int], q, j));
                                if y < at.y {
                                    assert forall|j: int| !match_at(cont[y as int], q, j) by {}
                                } else {
                                    assert forall|j: int|
                                        j + q.len() <= at.x implies !match_at(
                                        cont[at.y as int],
                                        q,
                                        j,
                                    ) by {
                                        if j + q.len() > cont[at.y as int].len() {
                                            assert(!match_at(cont[at.y as int], q, j));
                                        }
                                    }
                                }
                            }
                        }
                        if y == 0 {
                            break ;
                        }
                        y -= 1;
                        from = self.rows[y].len();
                    },
                }
            }
            Option::None
        }
    }
}

/// Builds one unhighlighted row per line.
pub(crate) fn rows_from_lines(lines: Vec<String>) -> (r: Vec<Row>)
    ensures
        r@.len() == lines.deep_view().len(),
        forall|i: int|
            0 <= i < r@.len() ==> (#[trigger] r@[i]).clusters() == graphemes_of(
                lines.deep_view()[i],
            ) && r@[i].wf() && r@[i].is_stale() && (forall|rules: HighlightRuleSet|
                r@[i].cache_valid(rules)),
{
    let ghost lv = lines.deep_view();
    proof {
        crate::grapheme::lemma_dv(&lines);
    }
    let mut rows: Vec<Row> = Vec::new();
    let mut i: usize = 0;
    let n = lines.len();
    while i < n
        invariant
            i <= n,
            n == lines@.len(),
            lv == lines.deep_view(),
            lv.len() == n,
            rows@.len() == i,
            forall|j: int|
                0 <= j < i ==> (#[trigger] rows@[j]).clusters() == graphemes_of(lv[j])
                    && rows@[j].wf() && rows@[j].is_stale() && (forall|rules: HighlightRuleSet|
                    rows@[j].cache_valid(rules)),
        decreases n - i,
    {
        let line = lines[i].clone();
        proof {
            crate::grapheme::lemma_dv(&lines);
            assert(line@ == lv[i as int]);
        }
        rows.push(Row::new(line));
        i += 1;
    }
    rows
}

} // verus!
