//! Text buffers and the container that switches between them.

pub mod statusline;
pub mod text;

use vstd::prelude::*;

verus! {

/// Anything buffer-like: it has a display name and can be empty.
pub trait Buffered {
    /// The display name.
    spec fn name_spec(&self) -> Seq<char>;

    /// Whether the buffer holds nothing to show.
    spec fn buffered_empty(&self) -> bool;

    fn name(&self) -> (r: String)
        ensures
            r@ == self.name_spec(),
    ;

    fn is_empty(&self) -> (r: bool)
        ensures
            r == self.buffered_empty(),
    ;
}

} // verus!
