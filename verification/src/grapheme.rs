//! A string container addressed by grapheme-cluster index.
//!
//! Every public index refers to a grapheme-cluster boundary; the
//! cluster segmentation itself is delegated to the
//! `unicode_segmentation` crate behind a trusted wrapper.

use crate::editor::SearchDirection;
use unicode_segmentation::UnicodeSegmentation;
use vstd::prelude::*;
use vstd::string::StringExecFns;

verus! {

/// The grapheme clusters of a string, in order. The segmentation is
/// computed by the `unicode_segmentation` crate; its exact value is
/// not axiomatised here, only named.
pub uninterp spec fn graphemes_of(s: Seq<char>) -> Seq<Seq<char>>;

/// Relies on `unicode_segmentation::UnicodeSegmentation::graphemes`
/// (extended grapheme clusters): the clusters are non-empty substrings
/// of the input and concatenate back to it.
#[verifier::external_body]
fn segment_graphemes(s: &str) -> (r: Vec<String>)
    ensures
        r.deep_view() == graphemes_of(s@),
        r.deep_view().flatten() == s@,
        forall|i: int| 0 <= i < r.deep_view().len() ==> (#[trigger] r.deep_view()[i]).len() > 0,
{
    s.graphemes(true).map(|g| g.to_string()).collect()
}

/// Relies on `char::to_string` (through `ToString`): the resulting
/// string holds exactly that one character.
#[verifier::external_body]
pub(crate) fn char_to_string(c: char) -> (r: String)
    ensures
        r@ == seq![c],
{
    c.to_string()
}

/// Relies on `String::push`: appends one character at the end.
#[verifier::external_body]
pub(crate) fn push_char(s: &mut String, c: char)
    ensures
        final(s)@ == old(s)@.push(c),
{
    s.push(c)
}

/// Whether a cluster is exactly the single character `ch`.
pub fn cluster_is_char(c: &String, ch: char) -> (r: bool)
    ensures
        r == (c@ == seq![ch]),
{
    let s = c.as_str();
    if s.unicode_len() == 1 {
        let c0 = s.get_char(0);
        proof {
            if c0 == ch {
                assert(c@ =~= seq![ch]);
            }
        }
        c0 == ch
    } else {
        false
    }
}

/// A match of the cluster sequence `q` inside `cs` starting at
/// cluster index `i`.
pub open spec fn match_at(cs: Seq<Seq<char>>, q: Seq<Seq<char>>, i: int) -> bool {
    &&& 0 <= i
    &&& i + q.len() <= cs.len()
    &&& cs.subrange(i, i + q.len() as int) == q
}

/// How one cluster renders on screen: the tab cluster renders as a
/// single space, every other cluster as itself.
pub open spec fn rendered_cluster(c: Seq<char>) -> Seq<char> {
    if c == seq!['\t'] {
        seq![' ']
    } else {
        c
    }
}

/// The rendering of clusters `[lo, hi)` of `cs`, concatenated.
pub open spec fn render_seq(cs: Seq<Seq<char>>, lo: int, hi: int) -> Seq<char>
    decreases hi - lo,
{
    if lo >= hi {
        Seq::empty()
    } else {
        rendered_cluster(cs[lo]) + render_seq(cs, lo + 1, hi)
    }
}

proof fn lemma_render_seq_snoc(cs: Seq<Seq<char>>, lo: int, hi: int)
    requires
        lo <= hi,
        0 <= lo,
        hi < cs.len(),
    ensures
        render_seq(cs, lo, hi + 1) == render_seq(cs, lo, hi) + rendered_cluster(cs[hi]),
    decreases hi - lo,
{
    if lo >= hi {
        assert(render_seq(cs, hi + 1, hi + 1) =~= Seq::empty());
        assert(render_seq(cs, lo, hi) =~= Seq::empty());
        assert(render_seq(cs, lo, hi + 1) =~= render_seq(cs, lo, hi) + rendered_cluster(cs[hi]));
    } else {
        lemma_render_seq_snoc(cs, lo + 1, hi);
        assert(render_seq(cs, lo, hi + 1) =~= render_seq(cs, lo, hi) + rendered_cluster(cs[hi]));
    }
}

/// Bridges the deep view of a cluster vector to the views of its
/// elements.
pub(crate) proof fn lemma_dv(v: &Vec<String>)
    ensures
        v.deep_view().len() == v@.len(),
        forall|j: int| 0 <= j < v@.len() ==> v.deep_view()[j] == v@[j]@,
{
}

/// A string owned as a sequence of grapheme clusters, addressed by
/// cluster index.
pub struct GraphemeString {
    clusters: Vec<String>,
}

impl View for GraphemeString {
    type V = Seq<Seq<char>>;

    /// The abstract value: one `Seq<char>` per grapheme cluster.
    closed spec fn view(&self) -> Seq<Seq<char>> {
        self.clusters.deep_view()
    }
}

impl GraphemeString {
    /// Every cluster is non-empty.
    pub open spec fn wf(&self) -> bool {
        forall|i: int| 0 <= i < self@.len() ==> (#[trigger] self@[i]).len() > 0
    }

    /// An empty grapheme string.
    pub fn new() -> (r: GraphemeString)
        ensures
            r@ == Seq::<Seq<char>>::empty(),
            r.wf(),
    {
        let r = GraphemeString { clusters: Vec::new() };
        proof {
            assert(r@ =~= Seq::<Seq<char>>::empty());
        }
        r
    }

    /// Segments `s` into grapheme clusters.
    pub fn from_str(s: &str) -> (r: GraphemeString)
        ensures
            r@ == graphemes_of(s@),
            r@.flatten() == s@,
            r.wf(),
    {
        GraphemeString { clusters: segment_graphemes(s) }
    }

    /// The grapheme-cluster count.
    pub fn len(&self) -> (r: usize)
        ensures
            r == self@.len(),
    {
        self.clusters.len()
    }

    pub fn is_empty(&self) -> (r: bool)
        ensures
            r == (self@.len() == 0),
    {
        self.clusters.len() == 0
    }

    /// The cluster at index `i`.
    pub fn cluster(&self, i: usize) -> (r: &String)
        requires
            i < self@.len(),
        ensures
            r@ == self@[i as int],
    {
        &self.clusters[i]
    }

    /// Inserts `ch` as a new single-cluster unit before cluster `at`.
    /// Out-of-range indices are a caller error, ruled out here.
    pub fn insert(&mut self, at: usize, ch: char)
        requires
            at <= old(self)@.len(),
        ensures
            final(self)@ == old(self)@.insert(at as int, seq![ch]),
            final(self)@.len() == old(self)@.len() + 1,
            old(self).wf() ==> final(self).wf(),
    {
        let cl = char_to_string(ch);
        self.clusters.insert(at, cl);
        proof {
            assert(self@ =~= old(self)@.insert(at as int, seq![ch]));
        }
    }

    /// Removes the cluster at `at`; a guarded no-op when `at` is past
    /// the end.
    pub fn delete(&mut self, at: usize)
        ensures
            at < old(self)@.len() ==> final(self)@ == old(self)@.remove(at as int),
            at < old(self)@.len() ==> final(self)@.len() == old(self)@.len() - 1,
            at >= old(self)@.len() ==> final(self)@ == old(self)@,
            old(self).wf() ==> final(self).wf(),
    {
        if at < self.clusters.len() {
            self.clusters.remove(at);
            proof {
                assert(self@ =~= old(self)@.remove(at as int));
            }
        } else {
            proof {
                assert(self@ =~= old(self)@);
            }
        }
    }

    /// Truncates `self` to clusters `[0, at)` and returns a new string
    /// owning clusters `[at, len())`.
    pub fn split(&mut self, at: usize) -> (r: GraphemeString)
        requires
            at <= old(self)@.len(),
        ensures
            final(self)@ == old(self)@.take(at as int),
            r@ == old(self)@.skip(at as int),
            old(self).wf() ==> final(self).wf() && r.wf(),
    {
        let tail = self.clusters.split_off(at);
        let r = GraphemeString { clusters: tail };
        proof {
            assert(self@ =~= old(self)@.take(at as int));
            assert(r@ =~= old(self)@.skip(at as int));
        }
        r
    }

    /// Appends the clusters of `other`; `other` is unaffected.
    pub fn concat(&mut self, other: &GraphemeString)
        ensures
            final(self)@ == old(self)@ + other@,
            old(self).wf() && other.wf() ==> final(self).wf(),
    {
        let ghost orig: Seq<Seq<char>> = self@;
        let mut i: usize = 0;
        proof {
            lemma_dv(&self.clusters);
            lemma_dv(&other.clusters);
        }
        while i < other.clusters.len()
            invariant
                i <= other@.len(),
                other@.len() == other.clusters@.len(),
                self.clusters@.len() == orig.len() + i,
                forall|j: int| 0 <= j < orig.len() ==> (#[trigger] self.clusters@[j])@ == orig[j],
                forall|j: int|
                    0 <= j < i ==> (#[trigger] self.clusters@[orig.len() + j])@ == other@[j],
            decreases other@.len() - i,
        {
            let cl = other.clusters[i].clone();
            proof {
                lemma_dv(&other.clusters);
                assert(cl@ == other@[i as int]);
            }
            self.clusters.push(cl);
            i += 1;
        }
        proof {
            lemma_dv(&self.clusters);
            assert forall|j: int| 0 <= j < self.clusters@.len() implies self@[j] == (orig
                + other@)[j] by {
                if j < orig.len() {
                    assert(self.clusters@[j]@ == orig[j]);
                } else {
                    let m = j - orig.len();
                    assert(self.clusters@[orig.len() + m]@ == other@[m]);
                }
            }
            assert(self@ =~= orig + other@);
        }
    }

    /// Renders clusters `[start, end)`, clamped to bounds, converting
    /// the tab cluster to a single space.
    pub fn render(&self, start: usize, end: usize) -> (r: String)
        ensures
            ({
                let hi = if end > self@.len() {
                    self@.len() as int
                } else {
                    end as int
                };
                let lo = if start as int > hi {
                    hi
                } else {
                    start as int
                };
                r@ == render_seq(self@, lo, hi)
            }),
    {
        let n = self.clusters.len();
        let hi = if end > n {
            n
        } else {
            end
        };
        let lo = if start > hi {
            hi
        } else {
            start
        };
        let mut out = String::new();
        let mut i = lo;
        while i < hi
            invariant
                lo <= i <= hi <= self@.len(),
                out@ == render_seq(self@, lo as int, i as int),
            decreases hi - i,
        {
            let c = &self.clusters[i];
            proof {
                lemma_render_seq_snoc(self@, lo as int, i as int);
            }
            if cluster_is_char(c, '\t') {
                push_char(&mut out, ' ');
                proof {
                    assert(out@ =~= render_seq(self@, lo as int, i + 1));
                }
            } else {
                out.append(c.as_str());
                proof {
                    assert(out@ =~= render_seq(self@, lo as int, i + 1));
                }
            }
            i += 1;
        }
        out
    }

    /// The underlying text: all clusters concatenated.
    pub fn to_string(&self) -> (r: String)
        ensures
            r@ == self@.flatten(),
    {
        let mut out = String::new();
        let mut i: usize = 0;
        proof {
            assert(self@.take(0) =~= Seq::<Seq<char>>::empty());
            assert(out@ =~= Seq::<Seq<char>>::empty().flatten());
        }
        while i < self.clusters.len()
            invariant
                i <= self@.len(),
                out@ == self@.take(i as int).flatten(),
            decreases self@.len() - i,
        {
            out.append(self.clusters[i].as_str());
            proof {
                assert(self@.take(i as int).push(self@[i as int]) =~= self@.take(i + 1));
                self@.take(i as int).lemma_flatten_push(self@[i as int]);
            }
            i += 1;
        }
        proof {
            assert(self@.take(self@.len() as int) =~= self@);
        }
        out
    }

    /// Whether clusters `[i, i + q.len())` equal `q`.
    fn clusters_match(&self, q: &Vec<String>, i: usize) -> (r: bool)
        requires
            i + q.deep_view().len() <= self@.len(),
        ensures
            r == match_at(self@, q.deep_view(), i as int),
    {
        let ghost qv = q.deep_view();
        let qlen = q.len();
        let n = self.clusters.len();
        proof {
            lemma_dv(q);
            lemma_dv(&self.clusters);
        }
        let mut k: usize = 0;
        while k < qlen
            invariant
                k <= qlen,
                qlen == qv.len(),
                qv == q.deep_view(),
                qlen == q@.len(),
                i + qlen <= n,
                n == self@.len(),
                n == self.clusters@.len(),
                forall|m: int| 0 <= m < k ==> self@[i + m] == qv[m],
            decreases qlen - k,
        {
            let same = self.clusters[i + k].eq(&q[k]);
            proof {
                lemma_dv(q);
                lemma_dv(&self.clusters);
                assert(self@[i + k as int] == self.clusters@[i + k as int]@);
                assert(qv[k as int] == q@[k as int]@);
            }
            if !same {
                proof {
                    assert(self@.subrange(i as int, i + qv.len() as int)[k as int] == self@[i
                        + k as int]);
                }
                return false;
            }
            k += 1;
        }
        proof {
            assert(self@.subrange(i as int, i + qv.len() as int) =~= qv);
        }
        true
    }

    /// Cluster-boundary-correct substring search. `Forward` scans
    /// matches starting in `[at, len())`; `Backward` scans matches
    /// lying wholly in `[0, at)`. Returns the cluster index of the
    /// match start: the first match for `Forward`, the last for
    /// `Backward`. Returns `None` exactly when the query is empty,
    /// `at` is past the end, or no match lies in the scanned range.
    pub fn find(&self, query: &str, at: usize, direction: SearchDirection) -> (r: Option<usize>)
        ensures
            ({
                let cs = self@;
                let q = graphemes_of(query@);
                match r {
                    Some(i) => {
                        &&& q.len() > 0
                        &&& at <= cs.len()
                        &&& match_at(cs, q, i as int)
                        &&& if direction == SearchDirection::Forward {
                            &&& at <= i
                            &&& forall|j: int| at <= j < i ==> !match_at(cs, q, j)
                        } else {
                            &&& i + q.len() <= at
                            &&& forall|j: int|
                                i < j && j + q.len() <= at ==> !match_at(cs, q, j)
                        }
                    },
                    None => q.len() == 0 || at > cs.len() || if direction
                        == SearchDirection::Forward {
                        forall|j: int| at <= j ==> !match_at(cs, q, j)
                    } else {
                        forall|j: int| j + q.len() <= at ==> !match_at(cs, q, j)
                    },
                }
            }),
    {
        let q = segment_graphemes(query);
        let ghost qv = graphemes_of(query@);
        proof {
            lemma_dv(&q);
            lemma_dv(&self.clusters);
        }
        let qlen = q.len();
        let n = self.clusters.len();
        if qlen == 0 || at > n {
            return None;
        }
        if qlen > n {
            proof {
                assert(forall|j: int| !match_at(self@, qv, j));
            }
            return None;
        }
        if direction == SearchDirection::Forward {
            let last = n - qlen;
            let mut i = at;
            while i <= last
                invariant
                    at <= i,
                    qlen == qv.len(),
                    0 < qlen <= n,
                    last == n - qlen,
                    q.deep_view() == qv,
                    qv == graphemes_of(query@),
                    direction == SearchDirection::Forward,
                    at <= n,
                    n == self@.len(),
                    forall|j: int| at <= j < i ==> !match_at(self@, qv, j),
                decreases n - i,
            {
                if self.clusters_match(&q, i) {
                    return Some(i);
                }
                i += 1;
            }
            proof {
                assert(forall|j: int| j + qv.len() > self@.len() ==> !match_at(self@, qv, j));
            }
            None
        } else {
            if qlen > at {
                proof {
                    assert(forall|j: int| 0 <= j && j + qv.len() <= at ==> !match_at(self@, qv, j));
                }
                return None;
            }
            let start = at - qlen;
            let mut off: usize = 0;
            while off <= start
                invariant
                    off <= start + 1,
                    start == at - qlen,
                    qlen == qv.len(),
                    0 < qlen,
                    qlen <= at <= n,
                    q.deep_view() == qv,
                    qv == graphemes_of(query@),
                    direction == SearchDirection::Backward,
                    n == self@.len(),
                    forall|j: int|
                        start - off < j && j + qv.len() <= at ==> !match_at(self@, qv, j),
                decreases start + 1 - off,
            {
                let i = start - off;
                if self.clusters_match(&q, i) {
                    return Some(i);
                }
                off += 1;
            }
            None
        }
    }
}

/// Splitting at any boundary and concatenating the two halves
/// reconstructs the original exactly: for every grapheme string `s`
/// and every `i <= s.len()`, what [`GraphemeString::split`] leaves
/// behind plus what it returns, joined by
/// [`GraphemeString::concat`], is `s` again.
pub proof fn lemma_split_concat_identity(s: Seq<Seq<char>>, i: int)
    requires
        0 <= i <= s.len(),
    ensures
        s.take(i) + s.skip(i) == s,
{
    assert(s.take(i) + s.skip(i) =~= s);
}

} // verus!
