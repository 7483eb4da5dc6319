//! The syntax-highlight classifier.
//!
//! A single pass over one line's grapheme clusters produces one
//! semantic category per cluster, given a rule set and the
//! block-comment state carried over from the preceding line. A second
//! pass overlays the active search term's matches.

use crate::grapheme::{cluster_is_char, match_at, GraphemeString};
use vstd::prelude::*;

verus! {

/// The semantic category of one grapheme cluster of a line.
#[derive(PartialEq, Eq, Copy, Clone, Structural, Debug)]
pub enum Type {
    Plain,
    Number,
    Str,
    Character,
    LineComment,
    BlockComment,
    PrimaryKeyword,
    SecondaryKeyword,
    SearchMatch,
}

/// Which constructs a file type wants highlighted. Derived once from
/// a file name's extension and immutable afterwards.
pub struct HighlightRuleSet {
    pub enable_numbers: bool,
    pub enable_strings: bool,
    pub enable_characters: bool,
    pub enable_line_comments: bool,
    pub enable_block_comments: bool,
    pub primary_keywords: Vec<String>,
    pub secondary_keywords: Vec<String>,
}

impl HighlightRuleSet {
    pub open spec fn primary(&self) -> Seq<Seq<char>> {
        self.primary_keywords.deep_view()
    }

    pub open spec fn secondary(&self) -> Seq<Seq<char>> {
        self.secondary_keywords.deep_view()
    }

    /// Keywords are non-empty; scanning one always advances.
    pub open spec fn wf(&self) -> bool {
        &&& forall|k: int| 0 <= k < self.primary().len() ==> (#[trigger] self.primary()[k]).len() > 0
        &&& forall|k: int|
            0 <= k < self.secondary().len() ==> (#[trigger] self.secondary()[k]).len() > 0
    }

    /// A rule set that highlights nothing.
    pub fn plain() -> (r: HighlightRuleSet)
        ensures
            r.wf(),
            !r.enable_numbers && !r.enable_strings && !r.enable_characters
                && !r.enable_line_comments && !r.enable_block_comments,
            r.primary().len() == 0,
            r.secondary().len() == 0,
    {
        let r = HighlightRuleSet {
            enable_numbers: false,
            enable_strings: false,
            enable_characters: false,
            enable_line_comments: false,
            enable_block_comments: false,
            primary_keywords: Vec::new(),
            secondary_keywords: Vec::new(),
        };
        proof {
            assert(r.primary() =~= Seq::<Seq<char>>::empty());
            assert(r.secondary() =~= Seq::<Seq<char>>::empty());
        }
        r
    }
}

/// Whether `c` is a separator character: ASCII punctuation or ASCII
/// whitespace. Keywords and numbers only start and end at separators
/// or line boundaries.
pub open spec fn sep_char(c: char) -> bool {
    let u = c as u32;
    ||| u == 0x20
    ||| u == 0x09
    ||| u == 0x0A
    ||| u == 0x0C
    ||| u == 0x0D
    ||| (0x21 <= u && u <= 0x2F)
    ||| (0x3A <= u && u <= 0x40)
    ||| (0x5B <= u && u <= 0x60)
    ||| (0x7B <= u && u <= 0x7E)
}

fn is_sep_char(c: char) -> (r: bool)
    ensures
        r == sep_char(c),
{
    let u = c as u32;
    u == 0x20 || u == 0x09 || u == 0x0A || u == 0x0C || u == 0x0D || (0x21 <= u && u <= 0x2F) || (
    0x3A <= u && u <= 0x40) || (0x5B <= u && u <= 0x60) || (0x7B <= u && u <= 0x7E)
}

/// A single-character separator cluster.
pub open spec fn is_sep(c: Seq<char>) -> bool {
    c.len() == 1 && sep_char(c[0])
}

fn cluster_is_sep(c: &String) -> (r: bool)
    ensures
        r == is_sep(c@),
{
    let s = c.as_str();
    if s.unicode_len() == 1 {
        is_sep_char(s.get_char(0))
    } else {
        false
    }
}

/// A single-digit cluster.
pub open spec fn is_digit(c: Seq<char>) -> bool {
    c.len() == 1 && 0x30 <= c[0] as u32 <= 0x39
}

fn cluster_is_digit(c: &String) -> (r: bool)
    ensures
        r == is_digit(c@),
{
    let s = c.as_str();
    if s.unicode_len() == 1 {
        let u = s.get_char(0) as u32;
        0x30 <= u && u <= 0x39
    } else {
        false
    }
}

/// A cluster a numeric literal may continue with: a digit or the
/// decimal point.
pub open spec fn is_numlike(c: Seq<char>) -> bool {
    is_digit(c) || c == seq!['.']
}

/// The scan position is at a token boundary: the line start or just
/// after a separator cluster.
pub open spec fn boundary_before(cs: Seq<Seq<char>>, i: int) -> bool {
    i == 0 || (0 <= i - 1 < cs.len() && is_sep(cs[i - 1]))
}

/// The least `j >= i` at which a `*/` pair of clusters closes a block
/// comment, if any.
pub open spec fn find_close(cs: Seq<Seq<char>>, i: int) -> Option<int>
    decreases cs.len() - i,
{
    if i < 0 || i + 1 >= cs.len() {
        Option::None
    } else if cs[i] == seq!['*'] && cs[i + 1] == seq!['/'] {
        Option::Some(i)
    } else {
        find_close(cs, i + 1)
    }
}

/// The least `j >= i` at which an unescaped `"` cluster closes a
/// string literal, if any; a quote is escaped when the cluster just
/// before it is a backslash.
pub open spec fn find_str_close(cs: Seq<Seq<char>>, i: int) -> Option<int>
    decreases cs.len() - i,
{
    if i < 0 || i >= cs.len() {
        Option::None
    } else if cs[i] == seq!['"'] && !(i - 1 >= 0 && cs[i - 1] == seq!['\\']) {
        Option::Some(i)
    } else {
        find_str_close(cs, i + 1)
    }
}

/// The end of a numeric run that began before `i`: the least `j >= i`
/// holding no digit and no decimal point, or the line end.
pub open spec fn num_end(cs: Seq<Seq<char>>, i: int) -> int
    decreases cs.len() - i,
{
    if i < 0 || i >= cs.len() {
        cs.len() as int
    } else if is_numlike(cs[i]) {
        num_end(cs, i + 1)
    } else {
        i
    }
}

/// The keyword `w` matches at `i`: each of its characters is the
/// single-character cluster there, and a separator or the line end
/// follows.
pub open spec fn kw_match(cs: Seq<Seq<char>>, i: int, w: Seq<char>) -> bool {
    &&& 0 <= i
    &&& i + w.len() <= cs.len()
    &&& forall|m: int| 0 <= m < w.len() ==> cs[i + m] == seq![#[trigger] w[m]]
    &&& (i + w.len() == cs.len() || is_sep(cs[i + w.len()]))
}

/// The first keyword of the list matching at `i`, if any.
pub open spec fn find_kw(kws: Seq<Seq<char>>, cs: Seq<Seq<char>>, i: int, k: int) -> Option<int>
    decreases kws.len() - k,
{
    if k < 0 || k >= kws.len() {
        Option::None
    } else if kw_match(cs, i, kws[k]) {
        Option::Some(k)
    } else {
        find_kw(kws, cs, i, k + 1)
    }
}

/// The token the scanner recognises at position `i`: its category,
/// the position just after it, and whether it runs to the line end
/// inside an unterminated block comment. Priority order, first match
/// wins: carried-over block comment, character literal, block-comment
/// opener, line comment, primary keyword, secondary keyword, string
/// literal, numeric literal, plain.
pub open spec fn token_at(cs: Seq<Seq<char>>, rules: HighlightRuleSet, i: int, inside: bool) -> (
    Type,
    int,
    bool,
) {
    let n = cs.len() as int;
    if inside {
        match find_close(cs, i) {
            Option::Some(j) => (Type::BlockComment, j + 2, false),
            Option::None => (Type::BlockComment, n, true),
        }
    } else if rules.enable_characters && cs[i] == seq!['\''] {
        let ci = if i + 1 < n && cs[i + 1] == seq!['\\'] {
            i + 3
        } else {
            i + 2
        };
        if ci < n && cs[ci] == seq!['\''] {
            (Type::Character, ci + 1, false)
        } else {
            (Type::Character, n, false)
        }
    } else if rules.enable_block_comments && i + 1 < n && cs[i] == seq!['/'] && cs[i + 1]
        == seq!['*'] {
        match find_close(cs, i + 2) {
            Option::Some(j) => (Type::BlockComment, j + 2, false),
            Option::None => (Type::BlockComment, n, true),
        }
    } else if rules.enable_line_comments && i + 1 < n && cs[i] == seq!['/'] && cs[i + 1]
        == seq!['/'] {
        (Type::LineComment, n, false)
    } else if boundary_before(cs, i) && find_kw(rules.primary(), cs, i, 0) is Some {
        let k = find_kw(rules.primary(), cs, i, 0)->Some_0;
        (Type::PrimaryKeyword, i + rules.primary()[k].len(), false)
    } else if boundary_before(cs, i) && find_kw(rules.secondary(), cs, i, 0) is Some {
        let k = find_kw(rules.secondary(), cs, i, 0)->Some_0;
        (Type::SecondaryKeyword, i + rules.secondary()[k].len(), false)
    } else if rules.enable_strings && cs[i] == seq!['"'] {
        match find_str_close(cs, i + 1) {
            Option::Some(j) => (Type::Str, j + 1, false),
            Option::None => (Type::Str, n, false),
        }
    } else if rules.enable_numbers && is_digit(cs[i]) && boundary_before(cs, i) {
        (Type::Number, num_end(cs, i + 1), false)
    } else {
        (Type::Plain, i + 1, false)
    }
}

proof fn lemma_find_close_bounds(cs: Seq<Seq<char>>, i: int)
    ensures
        match find_close(cs, i) {
            Option::Some(j) => i <= j && j + 2 <= cs.len(),
            Option::None => true,
        },
    decreases cs.len() - i,
{
    if !(i < 0 || i + 1 >= cs.len()) && !(cs[i] == seq!['*'] && cs[i + 1] == seq!['/']) {
        lemma_find_close_bounds(cs, i + 1);
    }
}

proof fn lemma_find_str_close_bounds(cs: Seq<Seq<char>>, i: int)
    ensures
        match find_str_close(cs, i) {
            Option::Some(j) => i <= j && j < cs.len(),
            Option::None => true,
        },
    decreases cs.len() - i,
{
    if !(i < 0 || i >= cs.len()) && !(cs[i] == seq!['"'] && !(i - 1 >= 0 && cs[i - 1]
        == seq!['\\'])) {
        lemma_find_str_close_bounds(cs, i + 1);
    }
}

proof fn lemma_num_end_bounds(cs: Seq<Seq<char>>, i: int)
    requires
        0 <= i <= cs.len(),
    ensures
        i <= num_end(cs, i) <= cs.len(),
    decreases cs.len() - i,
{
    if i < cs.len() && is_numlike(cs[i]) {
        lemma_num_end_bounds(cs, i + 1);
    }
}

proof fn lemma_find_kw_bounds(kws: Seq<Seq<char>>, cs: Seq<Seq<char>>, i: int, k: int)
    ensures
        match find_kw(kws, cs, i, k) {
            Option::Some(m) => k <= m < kws.len() && kw_match(cs, i, kws[m]),
            Option::None => true,
        },
    decreases kws.len() - k,
{
    if !(k < 0 || k >= kws.len()) && !kw_match(cs, i, kws[k]) {
        lemma_find_kw_bounds(kws, cs, i, k + 1);
    }
}

fn scan_close(content: &GraphemeString, i: usize) -> (r: Option<usize>)
    ensures
        match r {
            Option::Some(j) => find_close(content@, i as int) == Option::Some(j as int),
            Option::None => find_close(content@, i as int) is None,
        },
{
    let n = content.len();
    if n < 2 {
        return Option::None;
    }
    let mut j = i;
    while j < n - 1
        invariant
            i <= j,
            n == content@.len(),
            2 <= n,
            find_close(content@, i as int) == find_close(content@, j as int),
        decreases n - j,
    {
        if cluster_is_char(content.cluster(j), '*') && cluster_is_char(content.cluster(j + 1), '/')
        {
            return Option::Some(j);
        }
        j += 1;
    }
    Option::None
}

fn scan_str_close(content: &GraphemeString, i: usize) -> (r: Option<usize>)
    ensures
        match r {
            Option::Some(j) => find_str_close(content@, i as int) == Option::Some(j as int),
            Option::None => find_str_close(content@, i as int) is None,
        },
{
    let n = content.len();
    let mut j = i;
    while j < n
        invariant
            i <= j,
            n == content@.len(),
            find_str_close(content@, i as int) == find_str_close(content@, j as int),
        decreases n - j,
    {
        let quote = cluster_is_char(content.cluster(j), '"');
        let escaped = j > 0 && cluster_is_char(content.cluster(j - 1), '\\');
        if quote && !escaped {
            return Option::Some(j);
        }
        j += 1;
    }
    Option::None
}

fn scan_num_end(content: &GraphemeString, i: usize) -> (r: usize)
    requires
        i <= content@.len(),
    ensures
        r as int == num_end(content@, i as int),
        i <= r <= content@.len(),
{
    let n = content.len();
    let mut j = i;
    while j < n
        invariant
            i <= j <= n,
            n == content@.len(),
            num_end(content@, i as int) == num_end(content@, j as int),
        decreases n - j,
    {
        let c = content.cluster(j);
        if !(cluster_is_digit(c) || cluster_is_char(c, '.')) {
            return j;
        }
        j += 1;
    }
    n
}

fn kw_match_exec(content: &GraphemeString, i: usize, w: &String) -> (r: bool)
    requires
        i <= content@.len(),
    ensures
        r == kw_match(content@, i as int, w@),
{
    let n = content.len();
    let wl = w.as_str().unicode_len();
    if wl > n - i {
        return false;
    }
    let mut m: usize = 0;
    while m < wl
        invariant
            m <= wl,
            wl == w@.len(),
            i + wl <= n,
            n == content@.len(),
            forall|p: int| 0 <= p < m ==> content@[i + p] == seq![#[trigger] w@[p]],
        decreases wl - m,
    {
        if !cluster_is_char(content.cluster(i + m), w.as_str().get_char(m)) {
            return false;
        }
        m += 1;
    }
    if i + wl == n {
        true
    } else {
        cluster_is_sep(content.cluster(i + wl))
    }
}

fn find_kw_exec(content: &GraphemeString, i: usize, kws: &Vec<String>) -> (r: Option<usize>)
    requires
        i <= content@.len(),
    ensures
        match r {
            Option::Some(k) => find_kw(kws.deep_view(), content@, i as int, 0) == Option::Some(
                k as int,
            ),
            Option::None => find_kw(kws.deep_view(), content@, i as int, 0) is None,
        },
{
    let ghost kv = kws.deep_view();
    proof {
        crate::grapheme::lemma_dv(kws);
    }
    let mut k: usize = 0;
    while k < kws.len()
        invariant
            k <= kv.len(),
            kv == kws.deep_view(),
            kv.len() == kws@.len(),
            i <= content@.len(),
            find_kw(kv, content@, i as int, 0) == find_kw(kv, content@, i as int, k as int),
        decreases kv.len() - k,
    {
        let hit = kw_match_exec(content, i, &kws[k]);
        proof {
            crate::grapheme::lemma_dv(kws);
            assert(kws@[k as int]@ == kv[k as int]);
        }
        if hit {
            return Option::Some(k);
        }
        k += 1;
    }
    Option::None
}

/// Recognises one token at position `i`, exactly as [`token_at`]
/// describes it.
fn token_exec(content: &GraphemeString, rules: &HighlightRuleSet, i: usize, inside: bool) -> (r: (
    Type,
    usize,
    bool,
))
    requires
        rules.wf(),
        i < content@.len(),
    ensures
        (r.0, r.1 as int, r.2) == token_at(content@, *rules, i as int, inside),
        i < r.1 <= content@.len(),
        r.2 ==> r.1 == content@.len(),
{
    proof {
        lemma_token_bounds(content@, *rules, i as int, inside);
    }
    let n = content.len();
    if inside {
        match scan_close(content, i) {
            Option::Some(j) => {
                proof {
                    lemma_find_close_bounds(content@, i as int);
                }
                return (Type::BlockComment, j + 2, false);
            },
            Option::None => {
                return (Type::BlockComment, n, true);
            },
        }
    }
    let c0 = content.cluster(i);
    if rules.enable_characters && cluster_is_char(c0, '\'') {
        let escape = i + 1 < n && cluster_is_char(content.cluster(i + 1), '\\');
        if escape {
            if n - i > 3 && cluster_is_char(content.cluster(i + 3), '\'') {
                return (Type::Character, i + 4, false);
            }
            return (Type::Character, n, false);
        } else {
            if n - i > 2 && cluster_is_char(content.cluster(i + 2), '\'') {
                return (Type::Character, i + 3, false);
            }
            return (Type::Character, n, false);
        }
    }
    if rules.enable_block_comments && i + 1 < n && cluster_is_char(c0, '/') && cluster_is_char(
        content.cluster(i + 1),
        '*',
    ) {
        match scan_close(content, i + 2) {
            Option::Some(j) => {
                proof {
                    lemma_find_close_bounds(content@, i + 2);
                }
                return (Type::BlockComment, j + 2, false);
            },
            Option::None => {
                return (Type::BlockComment, n, true);
            },
        }
    }
    if rules.enable_line_comments && i + 1 < n && cluster_is_char(c0, '/') && cluster_is_char(
        content.cluster(i + 1),
        '/',
    ) {
        return (Type::LineComment, n, false);
    }
    let at_boundary = i == 0 || cluster_is_sep(content.cluster(i - 1));
    if at_boundary {
        match find_kw_exec(content, i, &rules.primary_keywords) {
            Option::Some(k) => {
                proof {
                    lemma_find_kw_bounds(rules.primary(), content@, i as int, 0);
                }
                let wl = rules.primary_keywords[k].as_str().unicode_len();
                proof {
                    crate::grapheme::lemma_dv(&rules.primary_keywords);
                }
                return (Type::PrimaryKeyword, i + wl, false);
            },
            Option::None => {},
        }
        match find_kw_exec(content, i, &rules.secondary_keywords) {
            Option::Some(k) => {
                proof {
                    lemma_find_kw_bounds(rules.secondary(), content@, i as int, 0);
                }
                let wl = rules.secondary_keywords[k].as_str().unicode_len();
                proof {
                    crate::grapheme::lemma_dv(&rules.secondary_keywords);
                }
                return (Type::SecondaryKeyword, i + wl, false);
            },
            Option::None => {},
        }
    }
    if rules.enable_strings && cluster_is_char(c0, '"') {
        match scan_str_close(content, i + 1) {
            Option::Some(j) => {
                proof {
                    lemma_find_str_close_bounds(content@, i + 1);
                }
                return (Type::Str, j + 1, false);
            },
            Option::None => {
                return (Type::Str, n, false);
            },
        }
    }
    if rules.enable_numbers && cluster_is_digit(c0) && at_boundary {
        let e = scan_num_end(content, i + 1);
        return (Type::Number, e, false);
    }
    (Type::Plain, i + 1, false)
}

/// Every token is non-empty and lies inside the line; a token flagged
/// as still inside a block comment runs to the line end.
proof fn lemma_token_bounds(cs: Seq<Seq<char>>, rules: HighlightRuleSet, i: int, inside: bool)
    requires
        rules.wf(),
        0 <= i < cs.len(),
    ensures
        ({
            let t = token_at(cs, rules, i, inside);
            &&& i < t.1 <= cs.len()
            &&& (t.2 ==> t.1 == cs.len())
        }),
{
    lemma_find_close_bounds(cs, i);
    lemma_find_close_bounds(cs, i + 2);
    lemma_find_str_close_bounds(cs, i + 1);
    lemma_num_end_bounds(cs, i + 1);
    lemma_find_kw_bounds(rules.primary(), cs, i, 0);
    lemma_find_kw_bounds(rules.secondary(), cs, i, 0);
}

/// The clamped end of the token at `i`: past `i`, at most the line
/// end. With a well-formed rule set this is the token's own end.
pub open spec fn token_end(cs: Seq<Seq<char>>, rules: HighlightRuleSet, i: int, inside: bool) -> int {
    let e = token_at(cs, rules, i, inside).1;
    if e <= i {
        i + 1
    } else if e > cs.len() {
        cs.len() as int
    } else {
        e
    }
}

/// The categories of clusters `[i, len)`, scanned token by token.
pub open spec fn scan_spans(cs: Seq<Seq<char>>, rules: HighlightRuleSet, i: int, inside: bool) -> Seq<
    Type,
>
    decreases cs.len() - i,
{
    if i < 0 || i >= cs.len() {
        Seq::empty()
    } else {
        let t = token_at(cs, rules, i, inside);
        let e = token_end(cs, rules, i, inside);
        Seq::new((e - i) as nat, |m: int| t.0) + scan_spans(cs, rules, e, false)
    }
}

/// Whether the line, scanned from `i` on, ends inside an open block
/// comment.
pub open spec fn scan_ends(cs: Seq<Seq<char>>, rules: HighlightRuleSet, i: int, inside: bool) -> bool
    decreases cs.len() - i,
{
    if i < 0 || i >= cs.len() {
        inside
    } else {
        let t = token_at(cs, rules, i, inside);
        let e = token_end(cs, rules, i, inside);
        if e >= cs.len() {
            t.2
        } else {
            scan_ends(cs, rules, e, false)
        }
    }
}

/// Cluster `k` lies inside some occurrence of the search term `q`.
pub open spec fn covered(cs: Seq<Seq<char>>, q: Seq<Seq<char>>, k: int) -> bool {
    exists|j: int| #![auto] j <= k < j + q.len() && match_at(cs, q, j)
}

/// The full highlighting of one line: the categorical scan, with the
/// search term's occurrences overlaid on top.
pub open spec fn full_highlight(
    cs: Seq<Seq<char>>,
    rules: HighlightRuleSet,
    word: Option<Seq<char>>,
    inside: bool,
) -> Seq<Type> {
    let base = scan_spans(cs, rules, 0, inside);
    match word {
        Option::Some(w) => Seq::new(
            base.len(),
            |k: int|
                if covered(cs, crate::grapheme::graphemes_of(w), k) {
                    Type::SearchMatch
                } else {
                    base[k]
                },
        ),
        Option::None => base,
    }
}

/// The scan covers every cluster exactly once.
pub proof fn lemma_scan_len(cs: Seq<Seq<char>>, rules: HighlightRuleSet, i: int, inside: bool)
    requires
        0 <= i <= cs.len(),
    ensures
        scan_spans(cs, rules, i, inside).len() == cs.len() - i,
    decreases cs.len() - i,
{
    if i < cs.len() {
        lemma_scan_len(cs, rules, token_end(cs, rules, i, inside), false);
    }
}

/// Classifies one line. Returns one category per grapheme cluster,
/// plus whether the line ends inside an open block comment — the
/// state to thread into the next line.
pub fn highlight_line(
    content: &GraphemeString,
    rules: &HighlightRuleSet,
    word: &Option<String>,
    starts_inside: bool,
) -> (r: (Vec<Type>, bool))
    requires
        rules.wf(),
    ensures
        r.0@ == full_highlight(content@, *rules, word_view(word), starts_inside),
        r.0@.len() == content@.len(),
        r.1 == scan_ends(content@, *rules, 0, starts_inside),
{
    let ghost cs = content@;
    let n = content.len();
    let mut spans: Vec<Type> = Vec::new();
    let mut inside = starts_inside;
    let mut i: usize = 0;
    while i < n
        invariant
            i <= n,
            n == cs.len(),
            cs == content@,
            rules.wf(),
            spans@.len() == i,
            scan_spans(cs, *rules, 0, starts_inside) == spans@ + scan_spans(
                cs,
                *rules,
                i as int,
                inside,
            ),
            scan_ends(cs, *rules, 0, starts_inside) == scan_ends(cs, *rules, i as int, inside),
        decreases n - i,
    {
        let (t, e, ei) = token_exec(content, rules, i, inside);
        let ghost spans0 = spans@;
        let mut k = i;
        while k < e
            invariant
                i <= k <= e,
                spans@ == spans0 + Seq::new((k - i) as nat, |m: int| t),
            decreases e - k,
        {
            spans.push(t);
            proof {
                assert(spans@ =~= spans0 + Seq::new((k + 1 - i) as nat, |m: int| t));
            }
            k += 1;
        }
        proof {
            assert(token_end(cs, *rules, i as int, inside) == e as int);
            assert(scan_spans(cs, *rules, i as int, inside) == Seq::new(
                (e - i) as nat,
                |m: int| t,
            ) + scan_spans(cs, *rules, e as int, false));
            assert(spans0 + Seq::new((e - i) as nat, |m: int| t) + scan_spans(
                cs,
                *rules,
                e as int,
                false,
            ) =~= spans0 + (Seq::new((e - i) as nat, |m: int| t) + scan_spans(
                cs,
                *rules,
                e as int,
                false,
            )));
            if e < n {
                assert(scan_ends(cs, *rules, i as int, inside) == scan_ends(
                    cs,
                    *rules,
                    e as int,
                    false,
                ));
            } else {
                assert(scan_ends(cs, *rules, i as int, inside) == ei);
                assert(scan_ends(cs, *rules, e as int, ei) == ei);
            }
        }
        inside = if e < n {
            false
        } else {
            ei
        };
        i = e;
    }
    proof {
        assert(scan_spans(cs, *rules, n as int, inside) =~= Seq::empty());
        assert(spans@ + Seq::<Type>::empty() =~= spans@);
    }
    let ends = inside;
    match word {
        Option::None => (spans, ends),
        Option::Some(w) => {
            let marked = overlay_matches(content, spans, w);
            (marked, ends)
        },
    }
}

/// The search term's cluster sequence, when one is active.
pub open spec fn word_view(word: &Option<String>) -> Option<Seq<char>> {
    match word {
        Option::Some(w) => Option::Some(w@),
        Option::None => Option::None,
    }
}

/// Overlays `Type::SearchMatch` on every cluster lying inside an
/// occurrence of `w`; search highlighting is visually dominant.
fn overlay_matches(content: &GraphemeString, spans: Vec<Type>, w: &String) -> (r: Vec<Type>)
    requires
        spans@.len() == content@.len(),
    ensures
        r@.len() == spans@.len(),
        r@ == Seq::new(
            spans@.len(),
            |k: int|
                if covered(content@, crate::grapheme::graphemes_of(w@), k) {
                    Type::SearchMatch
                } else {
                    spans@[k]
                },
        ),
{
    let ghost cs = content@;
    let ghost q = crate::grapheme::graphemes_of(w@);
    let ghost base = spans@;
    let n = content.len();
    let mut spans = spans;
    let qg = GraphemeString::from_str(w.as_str());
    let qlen = qg.len();
    if qlen == 0 {
        proof {
            assert forall|k: int| 0 <= k < base.len() implies !covered(cs, q, k) by {}
            assert(spans@ =~= Seq::new(
                base.len(),
                |k: int|
                    if covered(cs, q, k) {
                        Type::SearchMatch
                    } else {
                        base[k]
                    },
            ));
        }
        return spans;
    }
    let mut from: usize = 0;
    loop
        invariant
            from <= n + 1,
            n == cs.len(),
            cs == content@,
            q == crate::grapheme::graphemes_of(w@),
            qlen == q.len(),
            0 < qlen,
            spans@.len() == n,
            base.len() == n,
            forall|k: int|
                0 <= k < n ==> spans@[k] == (if (exists|j: int|
                    #![auto]
                    j < from && j <= k < j + q.len() && match_at(cs, q, j)) {
                    Type::SearchMatch
                } else {
                    base[k]
                }),
        ensures
            forall|k: int|
                0 <= k < n ==> spans@[k] == (if covered(cs, q, k) {
                    Type::SearchMatch
                } else {
                    base[k]
                }),
            spans@.len() == n,
        decreases n + 1 - from,
    {
        if from > n {
            proof {
                assert forall|k: int| 0 <= k < n implies spans@[k] == (if covered(cs, q, k) {
                    Type::SearchMatch
                } else {
                    base[k]
                }) by {
                    if covered(cs, q, k) {
                        let j = choose|j: int| #![auto] j <= k < j + q.len() && match_at(cs, q, j);
                        assert(j < from && j <= k < j + q.len() && match_at(cs, q, j));
                    }
                }
            }
            break ;
        }
        match content.find(w.as_str(), from, crate::editor::SearchDirection::Forward) {
            Option::None => {
                proof {
                    assert forall|k: int| 0 <= k < n implies spans@[k] == (if covered(cs, q, k) {
                        Type::SearchMatch
                    } else {
                        base[k]
                    }) by {
                        if covered(cs, q, k) {
                            let j = choose|j: int|
                                #![auto]
                                j <= k < j + q.len() && match_at(cs, q, j);
                            assert(!(j >= from));
                            assert(j < from && j <= k < j + q.len() && match_at(cs, q, j));
                        }
                    }
                }
                break ;
            },
            Option::Some(j) => {
                let ghost spans_before = spans@;
                let mut m = j;
                while m < j + qlen
                    invariant
                        j <= m <= j + qlen,
                        j + qlen <= n,
                        spans@.len() == n,
                        forall|k: int|
                            0 <= k < n ==> spans@[k] == (if j <= k < m {
                                Type::SearchMatch
                            } else {
                                spans_before[k]
                            }),
                    decreases j + qlen - m,
                {
                    spans[m] = Type::SearchMatch;
                    m += 1;
                }
                proof {
                    assert forall|k: int|
                        0 <= k < n implies spans@[k] == (if (exists|jj: int|
                        #![auto]
                        jj < j + 1 && jj <= k < jj + q.len() && match_at(cs, q, jj)) {
                        Type::SearchMatch
                    } else {
                        base[k]
                    }) by {
                        if j <= k < j + q.len() {
                            assert(j < j + 1 && j <= k < j + q.len() && match_at(cs, q, j as int));
                        } else {
                            if exists|jj: int|
                                #![auto]
                                jj < j + 1 && jj <= k < jj + q.len() && match_at(cs, q, jj) {
                                let jj = choose|jj: int|
                                    #![auto]
                                    jj < j + 1 && jj <= k < jj + q.len() && match_at(cs, q, jj);
                                if jj >= from {
                                    assert(!(from <= jj < j));
                                    assert(jj == j);
                                    assert(false);
                                }
                            }
                        }
                    }
                }
                from = j + 1;
            },
        }
    }
    proof {
        assert(spans@ =~= Seq::new(
            base.len(),
            |k: int|
                if covered(cs, q, k) {
                    Type::SearchMatch
                } else {
                    base[k]
                },
        ));
    }
    spans
}

} // verus!
