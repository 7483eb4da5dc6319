//! File types and the highlighting rules they select.
//!
//! A document's rule set is derived once from its file name's
//! extension and never re-dispatched afterwards.

use crate::highlighting::HighlightRuleSet;
use vstd::prelude::*;
use vstd::string::StringExecFns;

verus! {

/// Case-insensitive equality of two characters, folding ASCII letters
/// only.
pub open spec fn eq_ci(a: char, b: char) -> bool {
    let ua = a as u32;
    let ub = b as u32;
    ||| ua == ub
    ||| (0x41 <= ua <= 0x5A && ua + 0x20 == ub)
    ||| (0x41 <= ub <= 0x5A && ub + 0x20 == ua)
}

fn eq_ci_exec(a: char, b: char) -> (r: bool)
    ensures
        r == eq_ci(a, b),
{
    let ua = a as u32;
    let ub = b as u32;
    ua == ub || (0x41 <= ua && ua <= 0x5A && ua + 0x20 == ub) || (0x41 <= ub && ub <= 0x5A && ub
        + 0x20 == ua)
}

/// The name ends in `.` followed by `ext`, compared
/// case-insensitively over ASCII letters.
pub open spec fn ext_matches(name: Seq<char>, ext: Seq<char>) -> bool {
    &&& name.len() > ext.len()
    &&& name[name.len() - ext.len() - 1] == '.'
    &&& forall|k: int| 0 <= k < ext.len() ==> eq_ci(name[name.len() - ext.len() + k], #[trigger] ext[k])
}

/// Whether the file name carries the extension `ext`, matched
/// case-insensitively.
pub fn is_file_of_type(name: &str, ext: &str) -> (r: bool)
    ensures
        r == ext_matches(name@, ext@),
{
    let nl = name.unicode_len();
    let el = ext.unicode_len();
    if nl <= el {
        return false;
    }
    if name.get_char(nl - el - 1) != '.' {
        return false;
    }
    let mut k: usize = 0;
    while k < el
        invariant
            k <= el,
            el < nl,
            nl == name@.len(),
            el == ext@.len(),
            forall|m: int| 0 <= m < k ==> eq_ci(name@[nl - el + m], #[trigger] ext@[m]),
        decreases el - k,
    {
        if !eq_ci_exec(name.get_char(nl - el + k), ext.get_char(k)) {
            return false;
        }
        k += 1;
    }
    true
}

/// Extension checks on anything name-like; file names use it to pick
/// their type.
pub trait FileTypeChecker {
    /// What it means for this name to carry the extension.
    spec fn type_matches(&self, ext: Seq<char>) -> bool;

    /// Whether this name carries the extension `ext`,
    /// case-insensitively.
    fn is_xxx_file(&self, ext: &str) -> (r: bool)
        ensures
            r == self.type_matches(ext@),
    ;
}

impl FileTypeChecker for str {
    open spec fn type_matches(&self, ext: Seq<char>) -> bool {
        ext_matches(self@, ext)
    }

    fn is_xxx_file(&self, ext: &str) -> (r: bool) {
        is_file_of_type(self, ext)
    }
}

/// Appends a keyword to a list, keeping every entry non-empty.
fn push_kw(v: &mut Vec<String>, w: &str)
    ensures
        final(v).deep_view() == if w@.len() > 0 {
            old(v).deep_view().push(w@)
        } else {
            old(v).deep_view()
        },
{
    if !w.is_empty() {
        let s = String::from_str(w);
        let ghost before = v.deep_view();
        v.push(s);
        proof {
            crate::grapheme::lemma_dv(v);
            assert forall|j: int| 0 <= j < v@.len() implies v.deep_view()[j] == before.push(w@)[j] by {
                if j < before.len() {
                    assert(v@[j]@ == before[j]);
                }
            }
            assert(v.deep_view() =~= before.push(w@));
        }
    }
}

/// The keyword lists of the Rust rule set.
fn rust_keywords() -> (r: (Vec<String>, Vec<String>))
    ensures
        forall|k: int| 0 <= k < r.0.deep_view().len() ==> (#[trigger] r.0.deep_view()[k]).len() > 0,
        forall|k: int| 0 <= k < r.1.deep_view().len() ==> (#[trigger] r.1.deep_view()[k]).len() > 0,
{
    let primary_words: [&str; 35] = [
        "as",
        "break",
        "const",
        "continue",
        "crate",
        "dyn",
        "else",
        "enum",
        "false",
        "fn",
        "for",
        "if",
        "impl",
        "in",
        "let",
        "loop",
        "match",
        "mod",
        "move",
        "mut",
        "pub",
        "ref",
        "return",
        "self",
        "Self",
        "static",
        "struct",
        "super",
        "trait",
        "true",
        "type",
        "unsafe",
        "use",
        "where",
        "while",
    ];
    let secondary_words: [&str; 14] = [
        "bool",
        "char",
        "i8",
        "i16",
        "i32",
        "i64",
        "isize",
        "u8",
        "u16",
        "u32",
        "u64",
        "usize",
        "f32",
        "f64",
    ];
    let mut primary: Vec<String> = Vec::new();
    let mut secondary: Vec<String> = Vec::new();
    proof {
        assert(primary.deep_view() =~= Seq::<Seq<char>>::empty());
        assert(secondary.deep_view() =~= Seq::<Seq<char>>::empty());
    }
    let mut k: usize = 0;
    while k < 35
        invariant
            forall|j: int|
                0 <= j < primary.deep_view().len() ==> (#[trigger] primary.deep_view()[j]).len()
                    > 0,
        decreases 35 - k,
    {
        push_kw(&mut primary, primary_words[k]);
        k += 1;
    }
    let mut m: usize = 0;
    while m < 14
        invariant
            forall|j: int|
                0 <= j < secondary.deep_view().len() ==> (#[trigger] secondary.deep_view()[j]).len()
                    > 0,
        decreases 14 - m,
    {
        push_kw(&mut secondary, secondary_words[m]);
        m += 1;
    }
    (primary, secondary)
}

/// A file type: a display name and the highlighting rules it selects.
pub struct FileType {
    name: String,
    hlopts: HighlightRuleSet,
}

impl FileType {
    /// The display name.
    pub closed spec fn name_spec(&self) -> Seq<char> {
        self.name@
    }

    /// The selected rule set.
    pub closed spec fn options(&self) -> HighlightRuleSet {
        self.hlopts
    }

    pub open spec fn wf(&self) -> bool {
        self.options().wf()
    }

    /// Whether this type highlights anything at all.
    pub open spec fn highlights(&self) -> bool {
        ||| self.options().enable_numbers
        ||| self.options().enable_strings
        ||| self.options().enable_characters
        ||| self.options().enable_line_comments
        ||| self.options().enable_block_comments
        ||| self.options().primary().len() > 0
        ||| self.options().secondary().len() > 0
    }

    /// Derives the type from a file name: Rust highlighting for an
    /// `.rs` extension, no highlighting otherwise.
    pub fn from(filename: &str) -> (r: FileType)
        ensures
            r.wf(),
            ext_matches(filename@, "rs"@) ==> r.options().enable_numbers
                && r.options().enable_strings && r.options().enable_characters
                && r.options().enable_line_comments && r.options().enable_block_comments,
            !ext_matches(filename@, "rs"@) ==> !r.highlights(),
    {
        if is_file_of_type(filename, "rs") {
            let (primary_keywords, secondary_keywords) = rust_keywords();
            FileType {
                name: String::from_str("Rust"),
                hlopts: HighlightRuleSet {
                    enable_numbers: true,
                    enable_strings: true,
                    enable_characters: true,
                    enable_line_comments: true,
                    enable_block_comments: true,
                    primary_keywords,
                    secondary_keywords,
                },
            }
        } else {
            FileType::plain()
        }
    }

    /// The type that highlights nothing, named as the fallback.
    fn plain() -> (r: FileType)
        ensures
            r.wf(),
            !r.highlights(),
    {
        FileType { name: String::from_str("normal"), hlopts: HighlightRuleSet::plain() }
    }

    /// The display name of the type.
    pub fn name(&self) -> (r: String)
        ensures
            r@ == self.name_spec(),
    {
        self.name.clone()
    }

    /// The display name; offered in place of a `Display`
    /// implementation.
    pub fn to_string(&self) -> (r: String)
        ensures
            r@ == self.name_spec(),
    {
        self.name.clone()
    }

    /// The highlighting rules of this type.
    pub fn highlighting_options(&self) -> (r: &HighlightRuleSet)
        ensures
            *r == self.options(),
    {
        &self.hlopts
    }
}

impl Default for FileType {
    /// The fallback type, which highlights nothing.
    fn default() -> (r: FileType)
        ensures
            r.wf(),
            !r.highlights(),
    {
        FileType::plain()
    }
}

} // verus!
