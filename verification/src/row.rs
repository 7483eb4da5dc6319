//! One line of a document: its grapheme string, its cached highlight
//! spans, and the staleness flag that drives incremental
//! re-highlighting.

use crate::editor::SearchDirection;
use crate::grapheme::{graphemes_of, match_at, render_seq, GraphemeString};
use crate::highlighting::{
    full_highlight, scan_ends, scan_spans, word_view, HighlightRuleSet, Type,
};
use vstd::prelude::*;

verus! {

/// A text line. `spans` caches the result of the last highlight scan;
/// `stale` records that the cache no longer reflects the content and
/// must be recomputed before use.
pub struct Row {
    content: GraphemeString,
    spans: Vec<Type>,
    stale: bool,
    cached_starts: bool,
    cached_ends: bool,
    scans: usize,
}

impl Row {
    /// The grapheme clusters of the line.
    pub closed spec fn clusters(&self) -> Seq<Seq<char>> {
        self.content@
    }

    /// The cached highlight spans.
    pub closed spec fn spans(&self) -> Seq<Type> {
        self.spans@
    }

    /// Whether the cached spans are out of date.
    pub closed spec fn is_stale(&self) -> bool {
        self.stale
    }

    /// The block-comment input state the cache was computed with.
    pub closed spec fn cached_starts(&self) -> bool {
        self.cached_starts
    }

    /// The block-comment output state of the last scan.
    pub closed spec fn cached_ends(&self) -> bool {
        self.cached_ends
    }

    /// How many real scans have run; the instrumentation hook that
    /// makes the incremental-skip fast path observable.
    pub closed spec fn scan_count(&self) -> nat {
        self.scans as nat
    }

    pub closed spec fn wf(&self) -> bool {
        self.content.wf()
    }

    /// When the line is not stale, the cache is exactly the scan of
    /// the current content under `rules`, starting from the cached
    /// input state.
    pub closed spec fn cache_valid(&self, rules: HighlightRuleSet) -> bool {
        !self.stale ==> {
            &&& self.spans@ == scan_spans(self.content@, rules, 0, self.cached_starts)
            &&& self.cached_ends == scan_ends(self.content@, rules, 0, self.cached_starts)
        }
    }

    /// A new, not yet highlighted line.
    pub fn new(source: String) -> (r: Row)
        ensures
            r.clusters() == graphemes_of(source@),
            r.is_stale(),
            r.wf(),
            r.scan_count() == 0,
            forall|rules: HighlightRuleSet| r.cache_valid(rules),
    {
        Row {
            content: GraphemeString::from_str(source.as_str()),
            spans: Vec::new(),
            stale: true,
            cached_starts: false,
            cached_ends: false,
            scans: 0,
        }
    }

    /// An empty line.
    pub fn empty() -> (r: Row)
        ensures
            r.clusters() == Seq::<Seq<char>>::empty(),
            r.is_stale(),
            r.wf(),
            r.scan_count() == 0,
            forall|rules: HighlightRuleSet| r.cache_valid(rules),
    {
        Row {
            content: GraphemeString::new(),
            spans: Vec::new(),
            stale: true,
            cached_starts: false,
            cached_ends: false,
            scans: 0,
        }
    }

    /// The grapheme-cluster count of the line.
    pub fn len(&self) -> (r: usize)
        ensures
            r == self.clusters().len(),
    {
        self.content.len()
    }

    pub fn is_empty(&self) -> (r: bool)
        ensures
            r == (self.clusters().len() == 0),
    {
        self.content.is_empty()
    }

    /// The line's grapheme string.
    pub fn grapheme_string(&self) -> (r: &GraphemeString)
        ensures
            r@ == self.clusters(),
            self.wf() ==> r.wf(),
    {
        &self.content
    }

    /// The cached spans, one per cluster once highlighted.
    pub fn spans_ref(&self) -> (r: &Vec<Type>)
        ensures
            r@ == self.spans(),
    {
        &self.spans
    }

    /// How many real highlight scans have run on this line.
    pub fn scans(&self) -> (r: usize)
        ensures
            r == self.scan_count(),
    {
        self.scans
    }

    pub fn is_stale_now(&self) -> (r: bool)
        ensures
            r == self.is_stale(),
    {
        self.stale
    }

    /// Marks the cached spans out of date.
    pub fn mark_stale(&mut self)
        ensures
            final(self).clusters() == old(self).clusters(),
            final(self).is_stale(),
            final(self).scan_count() == old(self).scan_count(),
            final(self).wf() == old(self).wf(),
            forall|rules: HighlightRuleSet| final(self).cache_valid(rules),
    {
        self.stale = true;
    }

    /// Inserts `c` as a new cluster before position `at` and marks
    /// the line stale.
    pub fn insert(&mut self, at: usize, c: char)
        requires
            at <= old(self).clusters().len(),
        ensures
            final(self).clusters() == old(self).clusters().insert(at as int, seq![c]),
            final(self).is_stale(),
            final(self).scan_count() == old(self).scan_count(),
            old(self).wf() ==> final(self).wf(),
            forall|rules: HighlightRuleSet| final(self).cache_valid(rules),
    {
        self.content.insert(at, c);
        self.stale = true;
    }

    /// Deletes the cluster at `at`; a guarded no-op past the end.
    pub fn delete(&mut self, at: usize)
        ensures
            at < old(self).clusters().len() ==> final(self).clusters() == old(
                self,
            ).clusters().remove(at as int) && final(self).is_stale(),
            at >= old(self).clusters().len() ==> *final(self) == *old(self),
            final(self).scan_count() == old(self).scan_count(),
            old(self).wf() ==> final(self).wf(),
            at < old(self).clusters().len() ==> (forall|rules: HighlightRuleSet|
                final(self).cache_valid(rules)),
    {
        if at < self.content.len() {
            self.content.delete(at);
            self.stale = true;
        }
    }

    /// Truncates the line to clusters `[0, at)` and returns a new
    /// line owning the rest. Both lines are stale.
    pub fn split(&mut self, at: usize) -> (r: Row)
        requires
            at <= old(self).clusters().len(),
        ensures
            final(self).clusters() == old(self).clusters().take(at as int),
            r.clusters() == old(self).clusters().skip(at as int),
            final(self).is_stale(),
            r.is_stale(),
            final(self).scan_count() == old(self).scan_count(),
            r.scan_count() == 0,
            old(self).wf() ==> final(self).wf() && r.wf(),
            forall|rules: HighlightRuleSet| final(self).cache_valid(rules),
            forall|rules: HighlightRuleSet| r.cache_valid(rules),
    {
        let tail = self.content.split(at);
        self.stale = true;
        Row {
            content: tail,
            spans: Vec::new(),
            stale: true,
            cached_starts: false,
            cached_ends: false,
            scans: 0,
        }
    }

    /// Appends `other`'s clusters; `other` is unaffected. The line is
    /// stale afterwards.
    pub fn concat(&mut self, other: &Row)
        ensures
            final(self).clusters() == old(self).clusters() + other.clusters(),
            final(self).is_stale(),
            final(self).scan_count() == old(self).scan_count(),
            old(self).wf() && other.wf() ==> final(self).wf(),
            forall|rules: HighlightRuleSet| final(self).cache_valid(rules),
    {
        self.content.concat(&other.content);
        self.stale = true;
    }

    /// Cluster-boundary-correct search; see
    /// [`GraphemeString::find`].
    pub fn find(&self, query: &str, at: usize, direction: SearchDirection) -> (r: Option<usize>)
        ensures
            ({
                let cs = self.clusters();
                let q = graphemes_of(query@);
                match r {
                    Some(i) => {
                        &&& q.len() > 0
                        &&& at <= cs.len()
                        &&& match_at(cs, q, i as int)
                        &&& if direction == SearchDirection::Forward {
                            &&& at <= i
                            &&& forall|j: int| at <= j < i ==> !match_at(cs, q, j)
                        } else {
                            &&& i + q.len() <= at
                            &&& forall|j: int|
                                i < j && j + q.len() <= at ==> !match_at(cs, q, j)
                        }
                    },
                    None => q.len() == 0 || at > cs.len() || if direction
                        == SearchDirection::Forward {
                        forall|j: int| at <= j ==> !match_at(cs, q, j)
                    } else {
                        forall|j: int| j + q.len() <= at ==> !match_at(cs, q, j)
                    },
                }
            }),
    {
        self.content.find(query, at, direction)
    }

    /// Renders clusters `[start, end)`, clamped, tabs as spaces.
    pub fn render(&self, start: usize, end: usize) -> (r: String)
        ensures
            ({
                let hi = if end > self.clusters().len() {
                    self.clusters().len() as int
                } else {
                    end as int
                };
                let lo = if start as int > hi {
                    hi
                } else {
                    start as int
                };
                r@ == render_seq(self.clusters(), lo, hi)
            }),
    {
        self.content.render(start, end)
    }

    /// The line's text.
    pub fn to_string(&self) -> (r: String)
        ensures
            r@ == self.clusters().flatten(),
    {
        self.content.to_string()
    }

    /// Highlights the line: recomputes the cached spans unless they
    /// are current, no search term is active and the carried-over
    /// block-comment state matches the cached one — the
    /// incremental-skip fast path, which rescans nothing. Returns
    /// whether the line ends inside an open block comment.
    pub fn highlight(
        &mut self,
        rules: &HighlightRuleSet,
        word: &Option<String>,
        starts_inside: bool,
    ) -> (r: bool)
        requires
            rules.wf(),
            old(self).cache_valid(*rules),
        ensures
            final(self).clusters() == old(self).clusters(),
            final(self).wf() == old(self).wf(),
            final(self).spans() == full_highlight(
                old(self).clusters(),
                *rules,
                word_view(word),
                starts_inside,
            ),
            final(self).spans().len() == old(self).clusters().len(),
            r == scan_ends(old(self).clusters(), *rules, 0, starts_inside),
            final(self).cache_valid(*rules),
            word is None ==> !final(self).is_stale() && final(self).cached_starts()
                == starts_inside && final(self).cached_ends() == r,
            word is Some ==> final(self).is_stale(),
            (!old(self).is_stale() && word is None && old(self).cached_starts() == starts_inside)
                ==> *final(self) == *old(self) && final(self).scan_count() == old(self).scan_count(),
    {
        if !self.stale && word.is_none() && self.cached_starts == starts_inside {
            proof {
                crate::highlighting::lemma_scan_len(self.content@, *rules, 0, starts_inside);
            }
            return self.cached_ends;
        }
        let (spans, ends) = crate::highlighting::highlight_line(
            &self.content,
            rules,
            word,
            starts_inside,
        );
        self.spans = spans;
        self.cached_starts = starts_inside;
        self.cached_ends = ends;
        self.stale = word.is_some();
        self.scans = if self.scans < usize::MAX {
            self.scans + 1
        } else {
            self.scans
        };
        ends
    }
}

} // verus!
