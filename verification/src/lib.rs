//! Terminal text core: an ANSI SGR escape-sequence parser, the cell grid
//! geometry of a monospace terminal, and the decisions made around font
//! selection, glyph rasterisation and text shaping.

pub mod ansi_parser;
pub mod font_registry;
pub mod glyph_layout;
pub mod screen;
pub mod sgr;
pub mod shaping;
pub mod text_manager;

use vstd::prelude::*;

verus! {

/// Pushing onto a sequence appends exactly one element.
pub(crate) proof fn lemma_seq_push<A>(s: Seq<A>, a: A)
    ensures
        s.push(a).len() == s.len() + 1,
        s.push(a)[s.len() as int] == a,
        forall|k: int| 0 <= k < s.len() ==> s.push(a)[k] == s[k],
{
}

} // verus!
