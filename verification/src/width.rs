//! Display-width indexing for a line of grapheme clusters.
//!
//! On-screen column position is not the cluster count: wide clusters
//! occupy two terminal columns and some clusters occupy none. The
//! [`Line`] index derives, for one line, the column at which every
//! cluster begins; all cursor and scroll math goes through it. The
//! width of a single cluster is delegated to the `unicode_width`
//! crate behind a trusted wrapper.

use crate::grapheme::GraphemeString;
use unicode_width::UnicodeWidthStr;
use vstd::prelude::*;
use vstd::string::StringExecFns;

verus! {

/// The displayed column width of a string, as the `unicode_width`
/// crate computes it; its exact value is only named.
pub uninterp spec fn display_width_of(s: Seq<char>) -> nat;

/// Relies on `unicode_width::UnicodeWidthStr::width`: the string's
/// displayed width in columns, a function of its characters alone.
#[verifier::external_body]
fn str_display_width(s: &str) -> (r: usize)
    ensures
        r as nat == display_width_of(s@),
{
    s.width()
}

/// Addition capped at `usize::MAX`, matching the saturating
/// accumulation of column offsets.
pub open spec fn sat_add(a: nat, b: nat) -> nat {
    if a + b > usize::MAX as nat {
        usize::MAX as nat
    } else {
        a + b
    }
}

/// The display column at which cluster `i` of `cs` begins; for
/// `i >= cs.len()` this is the total width of the line.
pub open spec fn offset_spec(cs: Seq<Seq<char>>, i: int) -> nat
    decreases i,
{
    let p = if i > cs.len() {
        cs.len() as int
    } else {
        i
    };
    if p <= 0 {
        0
    } else {
        sat_add(offset_spec(cs, p - 1), display_width_of(cs[p - 1]))
    }
}

/// The total display width of a line.
pub open spec fn line_width_of(cs: Seq<Seq<char>>) -> nat {
    offset_spec(cs, cs.len() as int)
}

pub proof fn lemma_offset_le_max(cs: Seq<Seq<char>>, i: int)
    ensures
        offset_spec(cs, i) <= usize::MAX as nat,
{
}

/// For indices at or past the end, the offset equals the total width.
proof fn lemma_offset_clamp(cs: Seq<Seq<char>>, i: int)
    requires
        i >= cs.len(),
    ensures
        offset_spec(cs, i) == offset_spec(cs, cs.len() as int),
{
}

/// A per-line display-width index: for each grapheme cluster of the
/// line, the display column at which it begins.
pub struct Line {
    /// `offset_mapping[i]` is the display column at which cluster `i`
    /// begins.
    pub offset_mapping: Vec<usize>,
    /// The clusters of the line.
    pub str_list: Vec<String>,
    /// The total display width of the line.
    pub width: usize,
}

impl Line {
    /// The clusters the index was built from.
    pub open spec fn clusters(&self) -> Seq<Seq<char>> {
        self.str_list.deep_view()
    }

    /// The offsets are exactly the accumulated cluster widths.
    pub open spec fn wf(&self) -> bool {
        &&& self.offset_mapping@.len() == self.clusters().len()
        &&& forall|i: int|
            0 <= i < self.offset_mapping@.len() ==> (#[trigger] self.offset_mapping@[i]) as nat
                == offset_spec(self.clusters(), i)
        &&& self.width as nat == line_width_of(self.clusters())
    }

    /// An index for the empty line.
    pub fn new() -> (r: Line)
        ensures
            r.wf(),
            r.clusters() == Seq::<Seq<char>>::empty(),
    {
        let r = Line { offset_mapping: Vec::new(), str_list: Vec::new(), width: 0 };
        proof {
            assert(r.clusters() =~= Seq::<Seq<char>>::empty());
        }
        r
    }

    /// Builds the index by scanning the clusters of `s` once.
    pub fn from_grapheme(s: &GraphemeString) -> (r: Line)
        ensures
            r.wf(),
            r.clusters() == s@,
    {
        let n = s.len();
        let mut offset_mapping: Vec<usize> = Vec::new();
        let mut str_list: Vec<String> = Vec::new();
        let mut width: usize = 0;
        let mut i: usize = 0;
        proof {
            assert(str_list.deep_view() =~= s@.take(0));
        }
        while i < n
            invariant
                i <= n,
                n == s@.len(),
                str_list.deep_view() == s@.take(i as int),
                str_list@.len() == i,
                offset_mapping@.len() == i,
                forall|j: int|
                    0 <= j < i ==> (#[trigger] offset_mapping@[j]) as nat == offset_spec(s@, j),
                width as nat == offset_spec(s@, i as int),
            decreases n - i,
        {
            let cl = s.cluster(i).clone();
            let cw = str_display_width(cl.as_str());
            offset_mapping.push(width);
            width = if width > usize::MAX - cw {
                usize::MAX
            } else {
                width + cw
            };
            let ghost before: Seq<Seq<char>> = str_list.deep_view();
            str_list.push(cl);
            proof {
                assert(str_list.deep_view() =~= s@.take(i + 1)) by {
                    assert forall|j: int| 0 <= j < i + 1 implies str_list.deep_view()[j] == s@.take(
                        i + 1,
                    )[j] by {
                        if j < i {
                            assert(before[j] == s@.take(i as int)[j]);
                        }
                    }
                }
                assert(width as nat == offset_spec(s@, i + 1));
            }
            i += 1;
        }
        proof {
            assert(s@.take(n as int) =~= s@);
        }
        Line { offset_mapping, str_list, width }
    }

    /// Builds the index directly from a string slice.
    pub fn from_str(s: &str) -> (r: Line)
        ensures
            r.wf(),
            r.clusters() == crate::grapheme::graphemes_of(s@),
    {
        let g = GraphemeString::from_str(s);
        Line::from_grapheme(&g)
    }

    /// The display column at which cluster `x` begins; for `x` at or
    /// past the end, one past the last cluster's end column.
    pub fn offset_of(&self, x: usize) -> (r: usize)
        requires
            self.wf(),
        ensures
            r as nat == offset_spec(self.clusters(), x as int),
    {
        if x < self.offset_mapping.len() {
            self.offset_mapping[x]
        } else {
            proof {
                if x as int > self.clusters().len() {
                    lemma_offset_clamp(self.clusters(), x as int);
                }
            }
            self.width
        }
    }

    /// The column at which `x` begins in the current line; the
    /// original name for [`Line::offset_of`].
    pub fn get_offset(&self, x: usize) -> (r: usize)
        requires
            self.wf(),
        ensures
            r as nat == offset_spec(self.clusters(), x as int),
    {
        self.offset_of(x)
    }

    /// The inverse lookup: the last cluster index whose starting
    /// column is at or before `column`; used to translate a desired
    /// screen column back into a grapheme index.
    pub fn grapheme_at_or_before(&self, column: usize) -> (r: usize)
        requires
            self.wf(),
        ensures
            r <= self.clusters().len(),
            offset_spec(self.clusters(), r as int) <= column as nat,
            r < self.clusters().len() ==> offset_spec(self.clusters(), r + 1) > column as nat,
    {
        let n = self.str_list.len();
        let mut i: usize = n;
        while i > 0
            invariant
                self.wf(),
                n == self.clusters().len(),
                i <= n,
                forall|k: int| i < k <= n ==> offset_spec(self.clusters(), k) > column as nat,
            decreases i,
        {
            if self.offset_of(i) <= column {
                return i;
            }
            i -= 1;
        }
        i
    }

    /// The total display width of the line.
    pub fn total_width(&self) -> (r: usize)
        requires
            self.wf(),
        ensures
            r as nat == line_width_of(self.clusters()),
    {
        self.width
    }

    /// Renders the line from cluster `offset` on: the remaining
    /// clusters, concatenated.
    pub fn render(&self, offset: usize) -> (r: String)
        ensures
            ({
                let lo = if offset as int > self.clusters().len() {
                    self.clusters().len() as int
                } else {
                    offset as int
                };
                r@ == self.clusters().skip(lo).flatten()
            }),
    {
        let n = self.str_list.len();
        let lo = if offset > n {
            n
        } else {
            offset
        };
        let mut out = String::new();
        let mut i = lo;
        proof {
            assert(self.clusters().skip(lo as int).take(0) =~= Seq::<Seq<char>>::empty());
        }
        while i < n
            invariant
                lo <= i <= n,
                n == self.clusters().len(),
                n == self.str_list@.len(),
                out@ == self.clusters().skip(lo as int).take(i - lo).flatten(),
            decreases n - i,
        {
            out.append(self.str_list[i].as_str());
            proof {
                let sk = self.clusters().skip(lo as int);
                assert(self.str_list@[i as int]@ == self.clusters()[i as int]);
                assert(sk.take(i - lo).push(sk[i - lo]) =~= sk.take(i + 1 - lo));
                sk.take(i - lo).lemma_flatten_push(sk[i - lo]);
            }
            i += 1;
        }
        proof {
            let sk = self.clusters().skip(lo as int);
            assert(sk.take(n - lo) =~= sk);
        }
        out
    }

    /// The whole line as a string.
    pub fn to_string(&self) -> (r: String)
        ensures
            r@ == self.clusters().flatten(),
    {
        let r = self.render(0);
        proof {
            assert(self.clusters().skip(0) =~= self.clusters());
        }
        r
    }
}

} // verus!
