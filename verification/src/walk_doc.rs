//! Type-preserving rewrite targeting the whole document.
//!
//! A document contains no document other than itself, so this walk has no
//! recursion: the caller's function is applied once, to the document.
use vstd::prelude::*;
use crate::definition::Pandoc;
use crate::model::{pandoc_view, SpecPandoc};

verus! {

/// The caller's function can be applied to every document.
pub open spec fn doc_fn_callable<F: Fn(Pandoc) -> Pandoc>(f: F) -> bool {
    forall|a: Pandoc| #[trigger] f.requires((a,))
}

/// `g` is the mathematical meaning of the caller's function `f`.
pub open spec fn doc_fn_models<F: Fn(Pandoc) -> Pandoc>(
    f: F,
    g: spec_fn(SpecPandoc) -> SpecPandoc,
) -> bool {
    &&& doc_fn_callable(f)
    &&& forall|a: Pandoc, r: Pandoc|
        #[trigger] f.ensures((a,), r) ==> pandoc_view(r) == g(pandoc_view(a))
}

/// Rewrite of a whole document as a node of its own kind.
pub open spec fn spec_walk_doc(d: SpecPandoc, g: spec_fn(SpecPandoc) -> SpecPandoc) -> SpecPandoc {
    g(d)
}

/// Apply `f` to the document itself.
pub fn walk_doc<F: Fn(Pandoc) -> Pandoc>(d: Pandoc, f: &F) -> (r: Pandoc)
    requires
        doc_fn_callable(*f),
    ensures
        forall|g: spec_fn(SpecPandoc) -> SpecPandoc|
            #[trigger] doc_fn_models(*f, g) ==> pandoc_view(r) == spec_walk_doc(pandoc_view(d), g),
{
    let ghost d0 = d;
    let r = f(d);
    proof {
        assert forall|g: spec_fn(SpecPandoc) -> SpecPandoc| #[trigger] doc_fn_models(
            *f,
            g,
        ) implies pandoc_view(r) == spec_walk_doc(pandoc_view(d0), g) by {
            assert(f.ensures((d0,), r));
        }
    }
    r
}

} // verus!
