//! The generic rewrite capability, as a trait.
//!
//! `value.walk(&f)` applies `f` to every node of the kind that `f` accepts,
//! anywhere within `value`, in postorder. The target kind and the rewrite
//! contract are chosen by `f`'s type: a function returning one node
//! rewrites in place; one returning a `Vec` of nodes splices its yields
//! into the surrounding sequence. Each implementation's contract ties the
//! result to the corresponding spec-level traversal of the walk modules.
use vstd::prelude::*;
use crate::definition::{
    Block, Caption, Cell, Citation, Inline, Meta, MetaValue, Pandoc, Row, TableBody, TableFoot,
    TableHead,
};
use crate::model::{
    block_view, blocks_view, caption_view, cell_view, cells_view, citation_view, citations_view,
    inline_view, inlines_view, meta_value_view, meta_values_view, meta_view, pandoc_view,
    row_view, rows_view, table_bodies_view, table_body_view, table_foot_view, table_head_view,
    SpecBlock, SpecInline, SpecMeta, SpecPandoc,
};
use crate::walk_doc::{doc_fn_models, spec_walk_doc, walk_doc};
use crate::walk_meta::{
    meta_fn_models, spec_walk_meta, spec_walk_meta_in_meta_value, spec_walk_meta_in_meta_values,
    walk_meta, walk_meta_in_meta_value, walk_meta_in_meta_values,
};
use crate::walk_inline::{
    inline_fn_models, spec_walk_inline, spec_walk_inline_in_blocks, spec_walk_inline_in_bodies,
    spec_walk_inline_in_body, spec_walk_inline_in_caption, spec_walk_inline_in_cell,
    spec_walk_inline_in_cells, spec_walk_inline_in_citation, spec_walk_inline_in_citations,
    spec_walk_inline_in_foot, spec_walk_inline_in_head, spec_walk_inline_in_inlines,
    spec_walk_inline_in_meta, spec_walk_inline_in_meta_value, spec_walk_inline_in_meta_values,
    spec_walk_inline_in_pandoc, spec_walk_inline_in_block, spec_walk_inline_in_row,
    spec_walk_inline_in_rows, walk_inline, walk_inline_in_blocks, walk_inline_in_bodies,
    walk_inline_in_body, walk_inline_in_caption, walk_inline_in_cell, walk_inline_in_cells,
    walk_inline_in_citation, walk_inline_in_citations, walk_inline_in_foot, walk_inline_in_head,
    walk_inline_in_inlines, walk_inline_in_meta, walk_inline_in_meta_value,
    walk_inline_in_meta_values, walk_inline_in_pandoc, walk_inline_in_block, walk_inline_in_row,
    walk_inline_in_rows,
};
use crate::splice_inline::{
    inline_splice_models, spec_splice_inline_in_block, spec_splice_inline_in_blocks,
    spec_splice_inline_in_bodies, spec_splice_inline_in_body, spec_splice_inline_in_caption,
    spec_splice_inline_in_cell, spec_splice_inline_in_cells, spec_splice_inline_in_citation,
    spec_splice_inline_in_citations, spec_splice_inline_in_foot, spec_splice_inline_in_head,
    spec_splice_inline_in_inline, spec_splice_inline_in_inlines, spec_splice_inline_in_meta,
    spec_splice_inline_in_meta_value, spec_splice_inline_in_meta_values,
    spec_splice_inline_in_pandoc, spec_splice_inline_in_row, spec_splice_inline_in_rows,
    splice_inline_in_block, splice_inline_in_blocks, splice_inline_in_bodies,
    splice_inline_in_body, splice_inline_in_caption, splice_inline_in_cell,
    splice_inline_in_cells, splice_inline_in_citation, splice_inline_in_citations,
    splice_inline_in_foot, splice_inline_in_head, splice_inline_in_inline,
    splice_inline_in_inlines, splice_inline_in_meta, splice_inline_in_meta_value,
    splice_inline_in_meta_values, splice_inline_in_pandoc, splice_inline_in_row,
    splice_inline_in_rows,
};
use crate::walk_block::{
    block_fn_models, spec_walk_block, spec_walk_block_in_blocks, spec_walk_block_in_bodies,
    spec_walk_block_in_body, spec_walk_block_in_caption, spec_walk_block_in_cell,
    spec_walk_block_in_cells, spec_walk_block_in_citation, spec_walk_block_in_citations,
    spec_walk_block_in_foot, spec_walk_block_in_head, spec_walk_block_in_inline,
    spec_walk_block_in_inlines, spec_walk_block_in_meta, spec_walk_block_in_meta_value,
    spec_walk_block_in_meta_values, spec_walk_block_in_pandoc, spec_walk_block_in_row,
    spec_walk_block_in_rows, walk_block, walk_block_in_blocks, walk_block_in_bodies,
    walk_block_in_body, walk_block_in_caption, walk_block_in_cell, walk_block_in_cells,
    walk_block_in_citation, walk_block_in_citations, walk_block_in_foot, walk_block_in_head,
    walk_block_in_inline, walk_block_in_inlines, walk_block_in_meta, walk_block_in_meta_value,
    walk_block_in_meta_values, walk_block_in_pandoc, walk_block_in_row, walk_block_in_rows,
};
use crate::splice_block::{
    block_splice_models, spec_splice_block_in_block, spec_splice_block_in_blocks,
    spec_splice_block_in_bodies, spec_splice_block_in_body, spec_splice_block_in_caption,
    spec_splice_block_in_cell, spec_splice_block_in_cells, spec_splice_block_in_citation,
    spec_splice_block_in_citations, spec_splice_block_in_foot, spec_splice_block_in_head,
    spec_splice_block_in_inline, spec_splice_block_in_inlines, spec_splice_block_in_meta,
    spec_splice_block_in_meta_value, spec_splice_block_in_meta_values,
    spec_splice_block_in_pandoc, spec_splice_block_in_row, spec_splice_block_in_rows,
    splice_block_in_block, splice_block_in_blocks, splice_block_in_bodies, splice_block_in_body,
    splice_block_in_caption, splice_block_in_cell, splice_block_in_cells,
    splice_block_in_citation, splice_block_in_citations, splice_block_in_foot,
    splice_block_in_head, splice_block_in_inline, splice_block_in_inlines, splice_block_in_meta,
    splice_block_in_meta_value, splice_block_in_meta_values, splice_block_in_pandoc,
    splice_block_in_row, splice_block_in_rows,
};

verus! {

/// The rewrite capability: apply `f` to every node of kind `T` within
/// `self`, in postorder, with `U` the replacement shape (`U = T` rewrites
/// in place; `U = Vec<T>` splices).
pub trait Walkable<T, U>: Sized {
    fn walk<F: Fn(T) -> U>(self, f: &F) -> Self
        requires
            forall|a: T| #[trigger] f.requires((a,)),
    ;
}

impl Walkable<Pandoc, Pandoc> for Pandoc {
    fn walk<F: Fn(Pandoc) -> Pandoc>(self, f: &F) -> (r: Pandoc)
        ensures
            forall|g: spec_fn(SpecPandoc) -> SpecPandoc|
                #[trigger] doc_fn_models(*f, g) ==> pandoc_view(r) == spec_walk_doc(
                    pandoc_view(self),
                    g,
                ),
    {
        walk_doc(self, f)
    }
}

impl Walkable<Inline, Inline> for Pandoc {
    fn walk<F: Fn(Inline) -> Inline>(self, f: &F) -> (r: Pandoc)
        ensures
            forall|g: spec_fn(SpecInline) -> SpecInline|
                #[trigger] inline_fn_models(*f, g) ==> pandoc_view(r) == spec_walk_inline_in_pandoc(
                    pandoc_view(self),
                    g,
                ),
    {
        walk_inline_in_pandoc(self, f)
    }
}

impl Walkable<Inline, Vec<Inline>> for Pandoc {
    fn walk<F: Fn(Inline) -> Vec<Inline>>(self, f: &F) -> (r: Pandoc)
        ensures
            forall|g: spec_fn(SpecInline) -> Seq<SpecInline>|
                #[trigger] inline_splice_models(*f, g) ==> pandoc_view(r) == spec_splice_inline_in_pandoc(
                    pandoc_view(self),
                    g,
                ),
    {
        splice_inline_in_pandoc(self, f)
    }
}

impl Walkable<Block, Block> for Pandoc {
    fn walk<F: Fn(Block) -> Block>(self, f: &F) -> (r: Pandoc)
        ensures
            forall|g: spec_fn(SpecBlock) -> SpecBlock|
                #[trigger] block_fn_models(*f, g) ==> pandoc_view(r) == spec_walk_block_in_pandoc(
                    pandoc_view(self),
                    g,
                ),
    {
        walk_block_in_pandoc(self, f)
    }
}

impl Walkable<Block, Vec<Block>> for Pandoc {
    fn walk<F: Fn(Block) -> Vec<Block>>(self, f: &F) -> (r: Pandoc)
        ensures
            forall|g: spec_fn(SpecBlock) -> Seq<SpecBlock>|
                #[trigger] block_splice_models(*f, g) ==> pandoc_view(r) == spec_splice_block_in_pandoc(
                    pandoc_view(self),
                    g,
                ),
    {
        splice_block_in_pandoc(self, f)
    }
}

impl Walkable<Inline, Inline> for Meta {
    fn walk<F: Fn(Inline) -> Inline>(self, f: &F) -> (r: Meta)
        ensures
            forall|g: spec_fn(SpecInline) -> SpecInline|
                #[trigger] inline_fn_models(*f, g) ==> meta_view(r) == spec_walk_inline_in_meta(
                    meta_view(self),
                    g,
                ),
    {
        walk_inline_in_meta(self, f)
    }
}

impl Walkable<Inline, Vec<Inline>> for Meta {
    fn walk<F: Fn(Inline) -> Vec<Inline>>(self, f: &F) -> (r: Meta)
        ensures
            forall|g: spec_fn(SpecInline) -> Seq<SpecInline>|
                #[trigger] inline_splice_models(*f, g) ==> meta_view(r) == spec_splice_inline_in_meta(
                    meta_view(self),
                    g,
                ),
    {
        splice_inline_in_meta(self, f)
    }
}

impl Walkable<Block, Block> for Meta {
    fn walk<F: Fn(Block) -> Block>(self, f: &F) -> (r: Meta)
        ensures
            forall|g: spec_fn(SpecBlock) -> SpecBlock|
                #[trigger] block_fn_models(*f, g) ==> meta_view(r) == spec_walk_block_in_meta(
                    meta_view(self),
                    g,
                ),
    {
        walk_block_in_meta(self, f)
    }
}

impl Walkable<Block, Vec<Block>> for Meta {
    fn walk<F: Fn(Block) -> Vec<Block>>(self, f: &F) -> (r: Meta)
        ensures
            forall|g: spec_fn(SpecBlock) -> Seq<SpecBlock>|
                #[trigger] block_splice_models(*f, g) ==> meta_view(r) == spec_splice_block_in_meta(
                    meta_view(self),
                    g,
                ),
    {
        splice_block_in_meta(self, f)
    }
}

impl Walkable<Meta, Meta> for Meta {
    fn walk<F: Fn(Meta) -> Meta>(self, f: &F) -> (r: Meta)
        ensures
            forall|g: spec_fn(SpecMeta) -> SpecMeta|
                #[trigger] meta_fn_models(*f, g) ==> meta_view(r) == spec_walk_meta(
                    meta_view(self),
                    g,
                ),
    {
        walk_meta(self, f)
    }
}

impl Walkable<Inline, Inline> for MetaValue {
    fn walk<F: Fn(Inline) -> Inline>(self, f: &F) -> (r: MetaValue)
        ensures
            forall|g: spec_fn(SpecInline) -> SpecInline|
                #[trigger] inline_fn_models(*f, g) ==> meta_value_view(r) == spec_walk_inline_in_meta_value(
                    meta_value_view(self),
                    g,
                ),
    {
        walk_inline_in_meta_value(self, f)
    }
}

impl Walkable<Inline, Vec<Inline>> for MetaValue {
    fn walk<F: Fn(Inline) -> Vec<Inline>>(self, f: &F) -> (r: MetaValue)
        ensures
            forall|g: spec_fn(SpecInline) -> Seq<SpecInline>|
                #[trigger] inline_splice_models(*f, g) ==> meta_value_view(r) == spec_splice_inline_in_meta_value(
                    meta_value_view(self),
                    g,
                ),
    {
        splice_inline_in_meta_value(self, f)
    }
}

impl Walkable<Block, Block> for MetaValue {
    fn walk<F: Fn(Block) -> Block>(self, f: &F) -> (r: MetaValue)
        ensures
            forall|g: spec_fn(SpecBlock) -> SpecBlock|
                #[trigger] block_fn_models(*f, g) ==> meta_value_view(r) == spec_walk_block_in_meta_value(
                    meta_value_view(self),
                    g,
                ),
    {
        walk_block_in_meta_value(self, f)
    }
}

impl Walkable<Block, Vec<Block>> for MetaValue {
    fn walk<F: Fn(Block) -> Vec<Block>>(self, f: &F) -> (r: MetaValue)
        ensures
            forall|g: spec_fn(SpecBlock) -> Seq<SpecBlock>|
                #[trigger] block_splice_models(*f, g) ==> meta_value_view(r) == spec_splice_block_in_meta_value(
                    meta_value_view(self),
                    g,
                ),
    {
        splice_block_in_meta_value(self, f)
    }
}

impl Walkable<Meta, Meta> for MetaValue {
    fn walk<F: Fn(Meta) -> Meta>(self, f: &F) -> (r: MetaValue)
        ensures
            forall|g: spec_fn(SpecMeta) -> SpecMeta|
                #[trigger] meta_fn_models(*f, g) ==> meta_value_view(r) == spec_walk_meta_in_meta_value(
                    meta_value_view(self),
                    g,
                ),
    {
        walk_meta_in_meta_value(self, f)
    }
}

impl Walkable<Meta, Meta> for Vec<MetaValue> {
    fn walk<F: Fn(Meta) -> Meta>(self, f: &F) -> (r: Vec<MetaValue>)
        ensures
            forall|g: spec_fn(SpecMeta) -> SpecMeta|
                #[trigger] meta_fn_models(*f, g) ==> meta_values_view(r@) == spec_walk_meta_in_meta_values(
                    meta_values_view(self@),
                    g,
                ),
    {
        walk_meta_in_meta_values(self, f)
    }
}

impl Walkable<Inline, Inline> for Vec<MetaValue> {
    fn walk<F: Fn(Inline) -> Inline>(self, f: &F) -> (r: Vec<MetaValue>)
        ensures
            forall|g: spec_fn(SpecInline) -> SpecInline|
                #[trigger] inline_fn_models(*f, g) ==> meta_values_view(r@) == spec_walk_inline_in_meta_values(
                    meta_values_view(self@),
                    g,
                ),
    {
        walk_inline_in_meta_values(self, f)
    }
}

impl Walkable<Inline, Vec<Inline>> for Vec<MetaValue> {
    fn walk<F: Fn(Inline) -> Vec<Inline>>(self, f: &F) -> (r: Vec<MetaValue>)
        ensures
            forall|g: spec_fn(SpecInline) -> Seq<SpecInline>|
                #[trigger] inline_splice_models(*f, g) ==> meta_values_view(r@) == spec_splice_inline_in_meta_values(
                    meta_values_view(self@),
                    g,
                ),
    {
        splice_inline_in_meta_values(self, f)
    }
}

impl Walkable<Block, Block> for Vec<MetaValue> {
    fn walk<F: Fn(Block) -> Block>(self, f: &F) -> (r: Vec<MetaValue>)
        ensures
            forall|g: spec_fn(SpecBlock) -> SpecBlock|
                #[trigger] block_fn_models(*f, g) ==> meta_values_view(r@) == spec_walk_block_in_meta_values(
                    meta_values_view(self@),
                    g,
                ),
    {
        walk_block_in_meta_values(self, f)
    }
}

impl Walkable<Block, Vec<Block>> for Vec<MetaValue> {
    fn walk<F: Fn(Block) -> Vec<Block>>(self, f: &F) -> (r: Vec<MetaValue>)
        ensures
            forall|g: spec_fn(SpecBlock) -> Seq<SpecBlock>|
                #[trigger] block_splice_models(*f, g) ==> meta_values_view(r@) == spec_splice_block_in_meta_values(
                    meta_values_view(self@),
                    g,
                ),
    {
        splice_block_in_meta_values(self, f)
    }
}

impl Walkable<Inline, Inline> for Block {
    fn walk<F: Fn(Inline) -> Inline>(self, f: &F) -> (r: Block)
        ensures
            forall|g: spec_fn(SpecInline) -> SpecInline|
                #[trigger] inline_fn_models(*f, g) ==> block_view(r) == spec_walk_inline_in_block(
                    block_view(self),
                    g,
                ),
    {
        walk_inline_in_block(self, f)
    }
}

impl Walkable<Inline, Vec<Inline>> for Block {
    fn walk<F: Fn(Inline) -> Vec<Inline>>(self, f: &F) -> (r: Block)
        ensures
            forall|g: spec_fn(SpecInline) -> Seq<SpecInline>|
                #[trigger] inline_splice_models(*f, g) ==> block_view(r) == spec_splice_inline_in_block(
                    block_view(self),
                    g,
                ),
    {
        splice_inline_in_block(self, f)
    }
}

impl Walkable<Block, Block> for Block {
    fn walk<F: Fn(Block) -> Block>(self, f: &F) -> (r: Block)
        ensures
            forall|g: spec_fn(SpecBlock) -> SpecBlock|
                #[trigger] block_fn_models(*f, g) ==> block_view(r) == spec_walk_block(
                    block_view(self),
                    g,
                ),
    {
        walk_block(self, f)
    }
}

impl Walkable<Block, Vec<Block>> for Block {
    fn walk<F: Fn(Block) -> Vec<Block>>(self, f: &F) -> (r: Block)
        ensures
            forall|g: spec_fn(SpecBlock) -> Seq<SpecBlock>|
                #[trigger] block_splice_models(*f, g) ==> block_view(r) == spec_splice_block_in_block(
                    block_view(self),
                    g,
                ),
    {
        splice_block_in_block(self, f)
    }
}

impl Walkable<Inline, Inline> for Vec<Block> {
    fn walk<F: Fn(Inline) -> Inline>(self, f: &F) -> (r: Vec<Block>)
        ensures
            forall|g: spec_fn(SpecInline) -> SpecInline|
                #[trigger] inline_fn_models(*f, g) ==> blocks_view(r@) == spec_walk_inline_in_blocks(
                    blocks_view(self@),
                    g,
                ),
    {
        walk_inline_in_blocks(self, f)
    }
}

impl Walkable<Inline, Vec<Inline>> for Vec<Block> {
    fn walk<F: Fn(Inline) -> Vec<Inline>>(self, f: &F) -> (r: Vec<Block>)
        ensures
            forall|g: spec_fn(SpecInline) -> Seq<SpecInline>|
                #[trigger] inline_splice_models(*f, g) ==> blocks_view(r@) == spec_splice_inline_in_blocks(
                    blocks_view(self@),
                    g,
                ),
    {
        splice_inline_in_blocks(self, f)
    }
}

impl Walkable<Block, Block> for Vec<Block> {
    fn walk<F: Fn(Block) -> Block>(self, f: &F) -> (r: Vec<Block>)
        ensures
            forall|g: spec_fn(SpecBlock) -> SpecBlock|
                #[trigger] block_fn_models(*f, g) ==> blocks_view(r@) == spec_walk_block_in_blocks(
                    blocks_view(self@),
                    g,
                ),
    {
        walk_block_in_blocks(self, f)
    }
}

impl Walkable<Block, Vec<Block>> for Vec<Block> {
    fn walk<F: Fn(Block) -> Vec<Block>>(self, f: &F) -> (r: Vec<Block>)
        ensures
            forall|g: spec_fn(SpecBlock) -> Seq<SpecBlock>|
                #[trigger] block_splice_models(*f, g) ==> blocks_view(r@) == spec_splice_block_in_blocks(
                    blocks_view(self@),
                    g,
                ),
    {
        splice_block_in_blocks(self, f)
    }
}

impl Walkable<Inline, Inline> for Inline {
    fn walk<F: Fn(Inline) -> Inline>(self, f: &F) -> (r: Inline)
        ensures
            forall|g: spec_fn(SpecInline) -> SpecInline|
                #[trigger] inline_fn_models(*f, g) ==> inline_view(r) == spec_walk_inline(
                    inline_view(self),
                    g,
                ),
    {
        walk_inline(self, f)
    }
}

impl Walkable<Inline, Vec<Inline>> for Inline {
    fn walk<F: Fn(Inline) -> Vec<Inline>>(self, f: &F) -> (r: Inline)
        ensures
            forall|g: spec_fn(SpecInline) -> Seq<SpecInline>|
                #[trigger] inline_splice_models(*f, g) ==> inline_view(r) == spec_splice_inline_in_inline(
                    inline_view(self),
                    g,
                ),
    {
        splice_inline_in_inline(self, f)
    }
}

impl Walkable<Block, Block> for Inline {
    fn walk<F: Fn(Block) -> Block>(self, f: &F) -> (r: Inline)
        ensures
            forall|g: spec_fn(SpecBlock) -> SpecBlock|
                #[trigger] block_fn_models(*f, g) ==> inline_view(r) == spec_walk_block_in_inline(
                    inline_view(self),
                    g,
                ),
    {
        walk_block_in_inline(self, f)
    }
}

impl Walkable<Block, Vec<Block>> for Inline {
    fn walk<F: Fn(Block) -> Vec<Block>>(self, f: &F) -> (r: Inline)
        ensures
            forall|g: spec_fn(SpecBlock) -> Seq<SpecBlock>|
                #[trigger] block_splice_models(*f, g) ==> inline_view(r) == spec_splice_block_in_inline(
                    inline_view(self),
                    g,
                ),
    {
        splice_block_in_inline(self, f)
    }
}

impl Walkable<Inline, Inline> for Vec<Inline> {
    fn walk<F: Fn(Inline) -> Inline>(self, f: &F) -> (r: Vec<Inline>)
        ensures
            forall|g: spec_fn(SpecInline) -> SpecInline|
                #[trigger] inline_fn_models(*f, g) ==> inlines_view(r@) == spec_walk_inline_in_inlines(
                    inlines_view(self@),
                    g,
                ),
    {
        walk_inline_in_inlines(self, f)
    }
}

impl Walkable<Inline, Vec<Inline>> for Vec<Inline> {
    fn walk<F: Fn(Inline) -> Vec<Inline>>(self, f: &F) -> (r: Vec<Inline>)
        ensures
            forall|g: spec_fn(SpecInline) -> Seq<SpecInline>|
                #[trigger] inline_splice_models(*f, g) ==> inlines_view(r@) == spec_splice_inline_in_inlines(
                    inlines_view(self@),
                    g,
                ),
    {
        splice_inline_in_inlines(self, f)
    }
}

impl Walkable<Block, Block> for Vec<Inline> {
    fn walk<F: Fn(Block) -> Block>(self, f: &F) -> (r: Vec<Inline>)
        ensures
            forall|g: spec_fn(SpecBlock) -> SpecBlock|
                #[trigger] block_fn_models(*f, g) ==> inlines_view(r@) == spec_walk_block_in_inlines(
                    inlines_view(self@),
                    g,
                ),
    {
        walk_block_in_inlines(self, f)
    }
}

impl Walkable<Block, Vec<Block>> for Vec<Inline> {
    fn walk<F: Fn(Block) -> Vec<Block>>(self, f: &F) -> (r: Vec<Inline>)
        ensures
            forall|g: spec_fn(SpecBlock) -> Seq<SpecBlock>|
                #[trigger] block_splice_models(*f, g) ==> inlines_view(r@) == spec_splice_block_in_inlines(
                    inlines_view(self@),
                    g,
                ),
    {
        splice_block_in_inlines(self, f)
    }
}

impl Walkable<Inline, Inline> for Caption {
    fn walk<F: Fn(Inline) -> Inline>(self, f: &F) -> (r: Caption)
        ensures
            forall|g: spec_fn(SpecInline) -> SpecInline|
                #[trigger] inline_fn_models(*f, g) ==> caption_view(r) == spec_walk_inline_in_caption(
                    caption_view(self),
                    g,
                ),
    {
        walk_inline_in_caption(self, f)
    }
}

impl Walkable<Inline, Vec<Inline>> for Caption {
    fn walk<F: Fn(Inline) -> Vec<Inline>>(self, f: &F) -> (r: Caption)
        ensures
            forall|g: spec_fn(SpecInline) -> Seq<SpecInline>|
                #[trigger] inline_splice_models(*f, g) ==> caption_view(r) == spec_splice_inline_in_caption(
                    caption_view(self),
                    g,
                ),
    {
        splice_inline_in_caption(self, f)
    }
}

impl Walkable<Block, Block> for Caption {
    fn walk<F: Fn(Block) -> Block>(self, f: &F) -> (r: Caption)
        ensures
            forall|g: spec_fn(SpecBlock) -> SpecBlock|
                #[trigger] block_fn_models(*f, g) ==> caption_view(r) == spec_walk_block_in_caption(
                    caption_view(self),
                    g,
                ),
    {
        walk_block_in_caption(self, f)
    }
}

impl Walkable<Block, Vec<Block>> for Caption {
    fn walk<F: Fn(Block) -> Vec<Block>>(self, f: &F) -> (r: Caption)
        ensures
            forall|g: spec_fn(SpecBlock) -> Seq<SpecBlock>|
                #[trigger] block_splice_models(*f, g) ==> caption_view(r) == spec_splice_block_in_caption(
                    caption_view(self),
                    g,
                ),
    {
        splice_block_in_caption(self, f)
    }
}

impl Walkable<Inline, Inline> for Row {
    fn walk<F: Fn(Inline) -> Inline>(self, f: &F) -> (r: Row)
        ensures
            forall|g: spec_fn(SpecInline) -> SpecInline|
                #[trigger] inline_fn_models(*f, g) ==> row_view(r) == spec_walk_inline_in_row(
                    row_view(self),
                    g,
                ),
    {
        walk_inline_in_row(self, f)
    }
}

impl Walkable<Inline, Vec<Inline>> for Row {
    fn walk<F: Fn(Inline) -> Vec<Inline>>(self, f: &F) -> (r: Row)
        ensures
            forall|g: spec_fn(SpecInline) -> Seq<SpecInline>|
                #[trigger] inline_splice_models(*f, g) ==> row_view(r) == spec_splice_inline_in_row(
                    row_view(self),
                    g,
                ),
    {
        splice_inline_in_row(self, f)
    }
}

impl Walkable<Block, Block> for Row {
    fn walk<F: Fn(Block) -> Block>(self, f: &F) -> (r: Row)
        ensures
            forall|g: spec_fn(SpecBlock) -> SpecBlock|
                #[trigger] block_fn_models(*f, g) ==> row_view(r) == spec_walk_block_in_row(
                    row_view(self),
                    g,
                ),
    {
        walk_block_in_row(self, f)
    }
}

impl Walkable<Block, Vec<Block>> for Row {
    fn walk<F: Fn(Block) -> Vec<Block>>(self, f: &F) -> (r: Row)
        ensures
            forall|g: spec_fn(SpecBlock) -> Seq<SpecBlock>|
                #[trigger] block_splice_models(*f, g) ==> row_view(r) == spec_splice_block_in_row(
                    row_view(self),
                    g,
                ),
    {
        splice_block_in_row(self, f)
    }
}

impl Walkable<Inline, Inline> for Vec<Row> {
    fn walk<F: Fn(Inline) -> Inline>(self, f: &F) -> (r: Vec<Row>)
        ensures
            forall|g: spec_fn(SpecInline) -> SpecInline|
                #[trigger] inline_fn_models(*f, g) ==> rows_view(r@) == spec_walk_inline_in_rows(
                    rows_view(self@),
                    g,
                ),
    {
        walk_inline_in_rows(self, f)
    }
}

impl Walkable<Inline, Vec<Inline>> for Vec<Row> {
    fn walk<F: Fn(Inline) -> Vec<Inline>>(self, f: &F) -> (r: Vec<Row>)
        ensures
            forall|g: spec_fn(SpecInline) -> Seq<SpecInline>|
                #[trigger] inline_splice_models(*f, g) ==> rows_view(r@) == spec_splice_inline_in_rows(
                    rows_view(self@),
                    g,
                ),
    {
        splice_inline_in_rows(self, f)
    }
}

impl Walkable<Block, Block> for Vec<Row> {
    fn walk<F: Fn(Block) -> Block>(self, f: &F) -> (r: Vec<Row>)
        ensures
            forall|g: spec_fn(SpecBlock) -> SpecBlock|
                #[trigger] block_fn_models(*f, g) ==> rows_view(r@) == spec_walk_block_in_rows(
                    rows_view(self@),
                    g,
                ),
    {
        walk_block_in_rows(self, f)
    }
}

impl Walkable<Block, Vec<Block>> for Vec<Row> {
    fn walk<F: Fn(Block) -> Vec<Block>>(self, f: &F) -> (r: Vec<Row>)
        ensures
            forall|g: spec_fn(SpecBlock) -> Seq<SpecBlock>|
                #[trigger] block_splice_models(*f, g) ==> rows_view(r@) == spec_splice_block_in_rows(
                    rows_view(self@),
                    g,
                ),
    {
        splice_block_in_rows(self, f)
    }
}

impl Walkable<Inline, Inline> for TableHead {
    fn walk<F: Fn(Inline) -> Inline>(self, f: &F) -> (r: TableHead)
        ensures
            forall|g: spec_fn(SpecInline) -> SpecInline|
                #[trigger] inline_fn_models(*f, g) ==> table_head_view(r) == spec_walk_inline_in_head(
                    table_head_view(self),
                    g,
                ),
    {
        walk_inline_in_head(self, f)
    }
}

impl Walkable<Inline, Vec<Inline>> for TableHead {
    fn walk<F: Fn(Inline) -> Vec<Inline>>(self, f: &F) -> (r: TableHead)
        ensures
            forall|g: spec_fn(SpecInline) -> Seq<SpecInline>|
                #[trigger] inline_splice_models(*f, g) ==> table_head_view(r) == spec_splice_inline_in_head(
                    table_head_view(self),
                    g,
                ),
    {
        splice_inline_in_head(self, f)
    }
}

impl Walkable<Block, Block> for TableHead {
    fn walk<F: Fn(Block) -> Block>(self, f: &F) -> (r: TableHead)
        ensures
            forall|g: spec_fn(SpecBlock) -> SpecBlock|
                #[trigger] block_fn_models(*f, g) ==> table_head_view(r) == spec_walk_block_in_head(
                    table_head_view(self),
                    g,
                ),
    {
        walk_block_in_head(self, f)
    }
}

impl Walkable<Block, Vec<Block>> for TableHead {
    fn walk<F: Fn(Block) -> Vec<Block>>(self, f: &F) -> (r: TableHead)
        ensures
            forall|g: spec_fn(SpecBlock) -> Seq<SpecBlock>|
                #[trigger] block_splice_models(*f, g) ==> table_head_view(r) == spec_splice_block_in_head(
                    table_head_view(self),
                    g,
                ),
    {
        splice_block_in_head(self, f)
    }
}

impl Walkable<Inline, Inline> for TableBody {
    fn walk<F: Fn(Inline) -> Inline>(self, f: &F) -> (r: TableBody)
        ensures
            forall|g: spec_fn(SpecInline) -> SpecInline|
                #[trigger] inline_fn_models(*f, g) ==> table_body_view(r) == spec_walk_inline_in_body(
                    table_body_view(self),
                    g,
                ),
    {
        walk_inline_in_body(self, f)
    }
}

impl Walkable<Inline, Vec<Inline>> for TableBody {
    fn walk<F: Fn(Inline) -> Vec<Inline>>(self, f: &F) -> (r: TableBody)
        ensures
            forall|g: spec_fn(SpecInline) -> Seq<SpecInline>|
                #[trigger] inline_splice_models(*f, g) ==> table_body_view(r) == spec_splice_inline_in_body(
                    table_body_view(self),
                    g,
                ),
    {
        splice_inline_in_body(self, f)
    }
}

impl Walkable<Block, Block> for TableBody {
    fn walk<F: Fn(Block) -> Block>(self, f: &F) -> (r: TableBody)
        ensures
            forall|g: spec_fn(SpecBlock) -> SpecBlock|
                #[trigger] block_fn_models(*f, g) ==> table_body_view(r) == spec_walk_block_in_body(
                    table_body_view(self),
                    g,
                ),
    {
        walk_block_in_body(self, f)
    }
}

impl Walkable<Block, Vec<Block>> for TableBody {
    fn walk<F: Fn(Block) -> Vec<Block>>(self, f: &F) -> (r: TableBody)
        ensures
            forall|g: spec_fn(SpecBlock) -> Seq<SpecBlock>|
                #[trigger] block_splice_models(*f, g) ==> table_body_view(r) == spec_splice_block_in_body(
                    table_body_view(self),
                    g,
                ),
    {
        splice_block_in_body(self, f)
    }
}

impl Walkable<Inline, Inline> for Vec<TableBody> {
    fn walk<F: Fn(Inline) -> Inline>(self, f: &F) -> (r: Vec<TableBody>)
        ensures
            forall|g: spec_fn(SpecInline) -> SpecInline|
                #[trigger] inline_fn_models(*f, g) ==> table_bodies_view(r@) == spec_walk_inline_in_bodies(
                    table_bodies_view(self@),
                    g,
                ),
    {
        walk_inline_in_bodies(self, f)
    }
}

impl Walkable<Inline, Vec<Inline>> for Vec<TableBody> {
    fn walk<F: Fn(Inline) -> Vec<Inline>>(self, f: &F) -> (r: Vec<TableBody>)
        ensures
            forall|g: spec_fn(SpecInline) -> Seq<SpecInline>|
                #[trigger] inline_splice_models(*f, g) ==> table_bodies_view(r@) == spec_splice_inline_in_bodies(
                    table_bodies_view(self@),
                    g,
                ),
    {
        splice_inline_in_bodies(self, f)
    }
}

impl Walkable<Block, Block> for Vec<TableBody> {
    fn walk<F: Fn(Block) -> Block>(self, f: &F) -> (r: Vec<TableBody>)
        ensures
            forall|g: spec_fn(SpecBlock) -> SpecBlock|
                #[trigger] block_fn_models(*f, g) ==> table_bodies_view(r@) == spec_walk_block_in_bodies(
                    table_bodies_view(self@),
                    g,
                ),
    {
        walk_block_in_bodies(self, f)
    }
}

impl Walkable<Block, Vec<Block>> for Vec<TableBody> {
    fn walk<F: Fn(Block) -> Vec<Block>>(self, f: &F) -> (r: Vec<TableBody>)
        ensures
            forall|g: spec_fn(SpecBlock) -> Seq<SpecBlock>|
                #[trigger] block_splice_models(*f, g) ==> table_bodies_view(r@) == spec_splice_block_in_bodies(
                    table_bodies_view(self@),
                    g,
                ),
    {
        splice_block_in_bodies(self, f)
    }
}

impl Walkable<Inline, Inline> for TableFoot {
    fn walk<F: Fn(Inline) -> Inline>(self, f: &F) -> (r: TableFoot)
        ensures
            forall|g: spec_fn(SpecInline) -> SpecInline|
                #[trigger] inline_fn_models(*f, g) ==> table_foot_view(r) == spec_walk_inline_in_foot(
                    table_foot_view(self),
                    g,
                ),
    {
        walk_inline_in_foot(self, f)
    }
}

impl Walkable<Inline, Vec<Inline>> for TableFoot {
    fn walk<F: Fn(Inline) -> Vec<Inline>>(self, f: &F) -> (r: TableFoot)
        ensures
            forall|g: spec_fn(SpecInline) -> Seq<SpecInline>|
                #[trigger] inline_splice_models(*f, g) ==> table_foot_view(r) == spec_splice_inline_in_foot(
                    table_foot_view(self),
                    g,
                ),
    {
        splice_inline_in_foot(self, f)
    }
}

impl Walkable<Block, Block> for TableFoot {
    fn walk<F: Fn(Block) -> Block>(self, f: &F) -> (r: TableFoot)
        ensures
            forall|g: spec_fn(SpecBlock) -> SpecBlock|
                #[trigger] block_fn_models(*f, g) ==> table_foot_view(r) == spec_walk_block_in_foot(
                    table_foot_view(self),
                    g,
                ),
    {
        walk_block_in_foot(self, f)
    }
}

impl Walkable<Block, Vec<Block>> for TableFoot {
    fn walk<F: Fn(Block) -> Vec<Block>>(self, f: &F) -> (r: TableFoot)
        ensures
            forall|g: spec_fn(SpecBlock) -> Seq<SpecBlock>|
                #[trigger] block_splice_models(*f, g) ==> table_foot_view(r) == spec_splice_block_in_foot(
                    table_foot_view(self),
                    g,
                ),
    {
        splice_block_in_foot(self, f)
    }
}

impl Walkable<Inline, Inline> for Cell {
    fn walk<F: Fn(Inline) -> Inline>(self, f: &F) -> (r: Cell)
        ensures
            forall|g: spec_fn(SpecInline) -> SpecInline|
                #[trigger] inline_fn_models(*f, g) ==> cell_view(r) == spec_walk_inline_in_cell(
                    cell_view(self),
                    g,
                ),
    {
        walk_inline_in_cell(self, f)
    }
}

impl Walkable<Inline, Vec<Inline>> for Cell {
    fn walk<F: Fn(Inline) -> Vec<Inline>>(self, f: &F) -> (r: Cell)
        ensures
            forall|g: spec_fn(SpecInline) -> Seq<SpecInline>|
                #[trigger] inline_splice_models(*f, g) ==> cell_view(r) == spec_splice_inline_in_cell(
                    cell_view(self),
                    g,
                ),
    {
        splice_inline_in_cell(self, f)
    }
}

impl Walkable<Block, Block> for Cell {
    fn walk<F: Fn(Block) -> Block>(self, f: &F) -> (r: Cell)
        ensures
            forall|g: spec_fn(SpecBlock) -> SpecBlock|
                #[trigger] block_fn_models(*f, g) ==> cell_view(r) == spec_walk_block_in_cell(
                    cell_view(self),
                    g,
                ),
    {
        walk_block_in_cell(self, f)
    }
}

impl Walkable<Block, Vec<Block>> for Cell {
    fn walk<F: Fn(Block) -> Vec<Block>>(self, f: &F) -> (r: Cell)
        ensures
            forall|g: spec_fn(SpecBlock) -> Seq<SpecBlock>|
                #[trigger] block_splice_models(*f, g) ==> cell_view(r) == spec_splice_block_in_cell(
                    cell_view(self),
                    g,
                ),
    {
        splice_block_in_cell(self, f)
    }
}

impl Walkable<Inline, Inline> for Vec<Cell> {
    fn walk<F: Fn(Inline) -> Inline>(self, f: &F) -> (r: Vec<Cell>)
        ensures
            forall|g: spec_fn(SpecInline) -> SpecInline|
                #[trigger] inline_fn_models(*f, g) ==> cells_view(r@) == spec_walk_inline_in_cells(
                    cells_view(self@),
                    g,
                ),
    {
        walk_inline_in_cells(self, f)
    }
}

impl Walkable<Inline, Vec<Inline>> for Vec<Cell> {
    fn walk<F: Fn(Inline) -> Vec<Inline>>(self, f: &F) -> (r: Vec<Cell>)
        ensures
            forall|g: spec_fn(SpecInline) -> Seq<SpecInline>|
                #[trigger] inline_splice_models(*f, g) ==> cells_view(r@) == spec_splice_inline_in_cells(
                    cells_view(self@),
                    g,
                ),
    {
        splice_inline_in_cells(self, f)
    }
}

impl Walkable<Block, Block> for Vec<Cell> {
    fn walk<F: Fn(Block) -> Block>(self, f: &F) -> (r: Vec<Cell>)
        ensures
            forall|g: spec_fn(SpecBlock) -> SpecBlock|
                #[trigger] block_fn_models(*f, g) ==> cells_view(r@) == spec_walk_block_in_cells(
                    cells_view(self@),
                    g,
                ),
    {
        walk_block_in_cells(self, f)
    }
}

impl Walkable<Block, Vec<Block>> for Vec<Cell> {
    fn walk<F: Fn(Block) -> Vec<Block>>(self, f: &F) -> (r: Vec<Cell>)
        ensures
            forall|g: spec_fn(SpecBlock) -> Seq<SpecBlock>|
                #[trigger] block_splice_models(*f, g) ==> cells_view(r@) == spec_splice_block_in_cells(
                    cells_view(self@),
                    g,
                ),
    {
        splice_block_in_cells(self, f)
    }
}

impl Walkable<Inline, Inline> for Citation {
    fn walk<F: Fn(Inline) -> Inline>(self, f: &F) -> (r: Citation)
        ensures
            forall|g: spec_fn(SpecInline) -> SpecInline|
                #[trigger] inline_fn_models(*f, g) ==> citation_view(r) == spec_walk_inline_in_citation(
                    citation_view(self),
                    g,
                ),
    {
        walk_inline_in_citation(self, f)
    }
}

impl Walkable<Inline, Vec<Inline>> for Citation {
    fn walk<F: Fn(Inline) -> Vec<Inline>>(self, f: &F) -> (r: Citation)
        ensures
            forall|g: spec_fn(SpecInline) -> Seq<SpecInline>|
                #[trigger] inline_splice_models(*f, g) ==> citation_view(r) == spec_splice_inline_in_citation(
                    citation_view(self),
                    g,
                ),
    {
        splice_inline_in_citation(self, f)
    }
}

impl Walkable<Block, Block> for Citation {
    fn walk<F: Fn(Block) -> Block>(self, f: &F) -> (r: Citation)
        ensures
            forall|g: spec_fn(SpecBlock) -> SpecBlock|
                #[trigger] block_fn_models(*f, g) ==> citation_view(r) == spec_walk_block_in_citation(
                    citation_view(self),
                    g,
                ),
    {
        walk_block_in_citation(self, f)
    }
}

impl Walkable<Block, Vec<Block>> for Citation {
    fn walk<F: Fn(Block) -> Vec<Block>>(self, f: &F) -> (r: Citation)
        ensures
            forall|g: spec_fn(SpecBlock) -> Seq<SpecBlock>|
                #[trigger] block_splice_models(*f, g) ==> citation_view(r) == spec_splice_block_in_citation(
                    citation_view(self),
                    g,
                ),
    {
        splice_block_in_citation(self, f)
    }
}

impl Walkable<Inline, Inline> for Vec<Citation> {
    fn walk<F: Fn(Inline) -> Inline>(self, f: &F) -> (r: Vec<Citation>)
        ensures
            forall|g: spec_fn(SpecInline) -> SpecInline|
                #[trigger] inline_fn_models(*f, g) ==> citations_view(r@) == spec_walk_inline_in_citations(
                    citations_view(self@),
                    g,
                ),
    {
        walk_inline_in_citations(self, f)
    }
}

impl Walkable<Inline, Vec<Inline>> for Vec<Citation> {
    fn walk<F: Fn(Inline) -> Vec<Inline>>(self, f: &F) -> (r: Vec<Citation>)
        ensures
            forall|g: spec_fn(SpecInline) -> Seq<SpecInline>|
                #[trigger] inline_splice_models(*f, g) ==> citations_view(r@) == spec_splice_inline_in_citations(
                    citations_view(self@),
                    g,
                ),
    {
        splice_inline_in_citations(self, f)
    }
}

impl Walkable<Block, Block> for Vec<Citation> {
    fn walk<F: Fn(Block) -> Block>(self, f: &F) -> (r: Vec<Citation>)
        ensures
            forall|g: spec_fn(SpecBlock) -> SpecBlock|
                #[trigger] block_fn_models(*f, g) ==> citations_view(r@) == spec_walk_block_in_citations(
                    citations_view(self@),
                    g,
                ),
    {
        walk_block_in_citations(self, f)
    }
}

impl Walkable<Block, Vec<Block>> for Vec<Citation> {
    fn walk<F: Fn(Block) -> Vec<Block>>(self, f: &F) -> (r: Vec<Citation>)
        ensures
            forall|g: spec_fn(SpecBlock) -> Seq<SpecBlock>|
                #[trigger] block_splice_models(*f, g) ==> citations_view(r@) == spec_splice_block_in_citations(
                    citations_view(self@),
                    g,
                ),
    {
        splice_block_in_citations(self, f)
    }
}

} // verus!
