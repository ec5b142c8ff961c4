//! The laws of the rewrite engine.
//!
//! Proof functions stating, over the spec-level traversals, what every
//! caller may rely on: rewriting with an identity function returns the
//! input unchanged, for each of the four target kinds; type-preserving
//! rewrites keep sequence lengths and sibling order, and never touch
//! metadata keys or their order; and a splicing rewrite concatenates the
//! per-element yields in the original element order, so that replacing a
//! node by an empty sequence removes exactly its occurrences and replacing
//! one node by two inserts the copy at the node's own position.
use vstd::prelude::*;
use crate::model::{
    spec_meta_sorted, SpecBlock, SpecCaption, SpecCell, SpecCitation, SpecInline, SpecMeta,
    SpecMetaValue, SpecPandoc, SpecRow, SpecTableBody, SpecTableFoot, SpecTableHead,
};
use crate::walk_inline::{
    spec_walk_inline, spec_walk_inline_in_blocks, spec_walk_inline_in_blockss,
    spec_walk_inline_in_bodies, spec_walk_inline_in_body, spec_walk_inline_in_caption,
    spec_walk_inline_in_cell, spec_walk_inline_in_cells, spec_walk_inline_in_citation,
    spec_walk_inline_in_citations, spec_walk_inline_in_defs, spec_walk_inline_in_foot,
    spec_walk_inline_in_head, spec_walk_inline_in_inlines, spec_walk_inline_in_inliness,
    spec_walk_inline_in_meta, spec_walk_inline_in_meta_value, spec_walk_inline_in_meta_values,
    spec_walk_inline_in_pandoc, spec_walk_inline_in_block, spec_walk_inline_in_row,
    spec_walk_inline_in_rows,
};
use crate::walk_block::{
    spec_walk_block, spec_walk_block_in_blocks, spec_walk_block_in_blockss,
    spec_walk_block_in_bodies, spec_walk_block_in_body, spec_walk_block_in_caption,
    spec_walk_block_in_cell, spec_walk_block_in_cells, spec_walk_block_in_citation,
    spec_walk_block_in_citations, spec_walk_block_in_defs, spec_walk_block_in_foot,
    spec_walk_block_in_head, spec_walk_block_in_inline, spec_walk_block_in_inlines,
    spec_walk_block_in_inliness, spec_walk_block_in_meta, spec_walk_block_in_meta_value,
    spec_walk_block_in_meta_values, spec_walk_block_in_pandoc, spec_walk_block_in_row,
    spec_walk_block_in_rows,
};
use crate::walk_meta::{
    spec_walk_meta, spec_walk_meta_entries, spec_walk_meta_in_meta_value,
    spec_walk_meta_in_meta_values,
};
use crate::walk_doc::spec_walk_doc;
use crate::splice_inline::{
    spec_splice_inline_in_block, spec_splice_inline_in_blocks, spec_splice_inline_in_blockss,
    spec_splice_inline_in_bodies, spec_splice_inline_in_body, spec_splice_inline_in_caption,
    spec_splice_inline_in_cell, spec_splice_inline_in_cells, spec_splice_inline_in_citation,
    spec_splice_inline_in_citations, spec_splice_inline_in_defs, spec_splice_inline_in_foot,
    spec_splice_inline_in_head, spec_splice_inline_in_inline, spec_splice_inline_in_inlines,
    spec_splice_inline_in_inliness, spec_splice_inline_in_meta, spec_splice_inline_in_meta_value,
    spec_splice_inline_in_meta_values, spec_splice_inline_in_pandoc, spec_splice_inline_in_row,
    spec_splice_inline_in_rows,
};
use crate::splice_block::{
    spec_splice_block_in_block, spec_splice_block_in_blocks, spec_splice_block_in_blockss,
    spec_splice_block_in_bodies, spec_splice_block_in_body, spec_splice_block_in_caption,
    spec_splice_block_in_cell, spec_splice_block_in_cells, spec_splice_block_in_citation,
    spec_splice_block_in_citations, spec_splice_block_in_defs, spec_splice_block_in_foot,
    spec_splice_block_in_head, spec_splice_block_in_inline, spec_splice_block_in_inlines,
    spec_splice_block_in_inliness, spec_splice_block_in_meta, spec_splice_block_in_meta_value,
    spec_splice_block_in_meta_values, spec_splice_block_in_pandoc, spec_splice_block_in_row,
    spec_splice_block_in_rows,
};

verus! {

/// `g` maps every text-level node to itself.
pub open spec fn inline_identity(g: spec_fn(SpecInline) -> SpecInline) -> bool {
    forall|n: SpecInline| #[trigger] g(n) == n
}

/// `g` maps every structural node to itself.
pub open spec fn block_identity(g: spec_fn(SpecBlock) -> SpecBlock) -> bool {
    forall|n: SpecBlock| #[trigger] g(n) == n
}

/// `g` maps every metadata mapping to itself.
pub open spec fn meta_identity(g: spec_fn(SpecMeta) -> SpecMeta) -> bool {
    forall|n: SpecMeta| #[trigger] g(n) == n
}

/// `g` maps every document to itself.
pub open spec fn doc_identity(g: spec_fn(SpecPandoc) -> SpecPandoc) -> bool {
    forall|n: SpecPandoc| #[trigger] g(n) == n
}

/// Rewriting with an identity function leaves the node unchanged.
pub proof fn lemma_walk_inline_identity_inline(x: SpecInline, g: spec_fn(SpecInline) -> SpecInline)
    requires
        inline_identity(g),
    ensures
        spec_walk_inline(x, g) == x,
    decreases x,
{
    match x {
        SpecInline::Emph(ils) => lemma_walk_inline_identity_inlines(ils, g),
        SpecInline::Underline(ils) => lemma_walk_inline_identity_inlines(ils, g),
        SpecInline::Strong(ils) => lemma_walk_inline_identity_inlines(ils, g),
        SpecInline::Strikeout(ils) => lemma_walk_inline_identity_inlines(ils, g),
        SpecInline::Superscript(ils) => lemma_walk_inline_identity_inlines(ils, g),
        SpecInline::Subscript(ils) => lemma_walk_inline_identity_inlines(ils, g),
        SpecInline::SmallCaps(ils) => lemma_walk_inline_identity_inlines(ils, g),
        SpecInline::Quoted(_q, ils) => lemma_walk_inline_identity_inlines(ils, g),
        SpecInline::Cite(cits, ils) => {
            lemma_walk_inline_identity_citations(cits, g);
            lemma_walk_inline_identity_inlines(ils, g);
        }
        SpecInline::Link(_a, ils, _t) => lemma_walk_inline_identity_inlines(ils, g),
        SpecInline::Image(_a, ils, _t) => lemma_walk_inline_identity_inlines(ils, g),
        SpecInline::Note(bs) => lemma_walk_inline_identity_blocks(bs, g),
        SpecInline::Span(_a, ils) => lemma_walk_inline_identity_inlines(ils, g),
        _ => {}
    }
}

/// Rewriting with an identity function leaves the node unchanged.
pub proof fn lemma_walk_inline_identity_in_block(b: SpecBlock, g: spec_fn(SpecInline) -> SpecInline)
    requires
        inline_identity(g),
    ensures
        spec_walk_inline_in_block(b, g) == b,
    decreases b,
{
    match b {
        SpecBlock::Plain(ils) => lemma_walk_inline_identity_inlines(ils, g),
        SpecBlock::Para(ils) => lemma_walk_inline_identity_inlines(ils, g),
        SpecBlock::LineBlock(ilss) => lemma_walk_inline_identity_inliness(ilss, g),
        SpecBlock::BlockQuote(bs) => lemma_walk_inline_identity_blocks(bs, g),
        SpecBlock::OrderedList(_la, bss) => lemma_walk_inline_identity_blockss(bss, g),
        SpecBlock::BulletList(bss) => lemma_walk_inline_identity_blockss(bss, g),
        SpecBlock::DefinitionList(defs) => lemma_walk_inline_identity_defs(defs, g),
        SpecBlock::Header(_lvl, _a, ils) => lemma_walk_inline_identity_inlines(ils, g),
        SpecBlock::Table(_a, c, _cs, h, bs, ft) => {
            lemma_walk_inline_identity_caption(c, g);
            lemma_walk_inline_identity_head(h, g);
            lemma_walk_inline_identity_bodies(bs, g);
            lemma_walk_inline_identity_foot(ft, g);
        }
        SpecBlock::Div(_a, bs) => lemma_walk_inline_identity_blocks(bs, g),
        _ => {}
    }
}

/// Rewriting with an identity function leaves the value unchanged.
pub proof fn lemma_walk_inline_identity_inlines(s: Seq<SpecInline>, g: spec_fn(SpecInline) -> SpecInline)
    requires
        inline_identity(g),
    ensures
        spec_walk_inline_in_inlines(s, g) == s,
    decreases s,
{
    if s.len() == 0 {
        assert(spec_walk_inline_in_inlines(s, g) =~= s);
    } else {
        lemma_walk_inline_identity_inlines(s.drop_last(), g);
        lemma_walk_inline_identity_inline(s.last(), g);
        assert(spec_walk_inline_in_inlines(s, g) =~= s);
    }
}

/// Rewriting with an identity function leaves the value unchanged.
pub proof fn lemma_walk_inline_identity_inliness(s: Seq<Seq<SpecInline>>, g: spec_fn(SpecInline) -> SpecInline)
    requires
        inline_identity(g),
    ensures
        spec_walk_inline_in_inliness(s, g) == s,
    decreases s,
{
    if s.len() == 0 {
        assert(spec_walk_inline_in_inliness(s, g) =~= s);
    } else {
        lemma_walk_inline_identity_inliness(s.drop_last(), g);
        lemma_walk_inline_identity_inlines(s.last(), g);
        assert(spec_walk_inline_in_inliness(s, g) =~= s);
    }
}

/// Rewriting with an identity function leaves the value unchanged.
pub proof fn lemma_walk_inline_identity_blocks(s: Seq<SpecBlock>, g: spec_fn(SpecInline) -> SpecInline)
    requires
        inline_identity(g),
    ensures
        spec_walk_inline_in_blocks(s, g) == s,
    decreases s,
{
    if s.len() == 0 {
        assert(spec_walk_inline_in_blocks(s, g) =~= s);
    } else {
        lemma_walk_inline_identity_blocks(s.drop_last(), g);
        lemma_walk_inline_identity_in_block(s.last(), g);
        assert(spec_walk_inline_in_blocks(s, g) =~= s);
    }
}

/// Rewriting with an identity function leaves the value unchanged.
pub proof fn lemma_walk_inline_identity_blockss(s: Seq<Seq<SpecBlock>>, g: spec_fn(SpecInline) -> SpecInline)
    requires
        inline_identity(g),
    ensures
        spec_walk_inline_in_blockss(s, g) == s,
    decreases s,
{
    if s.len() == 0 {
        assert(spec_walk_inline_in_blockss(s, g) =~= s);
    } else {
        lemma_walk_inline_identity_blockss(s.drop_last(), g);
        lemma_walk_inline_identity_blocks(s.last(), g);
        assert(spec_walk_inline_in_blockss(s, g) =~= s);
    }
}

/// Rewriting with an identity function leaves the value unchanged.
pub proof fn lemma_walk_inline_identity_defs(s: Seq<(Seq<SpecInline>, Seq<Seq<SpecBlock>>)>, g: spec_fn(SpecInline) -> SpecInline)
    requires
        inline_identity(g),
    ensures
        spec_walk_inline_in_defs(s, g) == s,
    decreases s,
{
    if s.len() == 0 {
        assert(spec_walk_inline_in_defs(s, g) =~= s);
    } else {
        lemma_walk_inline_identity_defs(s.drop_last(), g);
        lemma_walk_inline_identity_inlines(s.last().0, g);
        lemma_walk_inline_identity_blockss(s.last().1, g);
        assert(spec_walk_inline_in_defs(s, g) =~= s);
    }
}

/// Rewriting with an identity function leaves the value unchanged.
pub proof fn lemma_walk_inline_identity_citations(s: Seq<SpecCitation>, g: spec_fn(SpecInline) -> SpecInline)
    requires
        inline_identity(g),
    ensures
        spec_walk_inline_in_citations(s, g) == s,
    decreases s,
{
    if s.len() == 0 {
        assert(spec_walk_inline_in_citations(s, g) =~= s);
    } else {
        lemma_walk_inline_identity_citations(s.drop_last(), g);
        lemma_walk_inline_identity_citation(s.last(), g);
        assert(spec_walk_inline_in_citations(s, g) =~= s);
    }
}

/// Rewriting with an identity function leaves the value unchanged.
pub proof fn lemma_walk_inline_identity_rows(s: Seq<SpecRow>, g: spec_fn(SpecInline) -> SpecInline)
    requires
        inline_identity(g),
    ensures
        spec_walk_inline_in_rows(s, g) == s,
    decreases s,
{
    if s.len() == 0 {
        assert(spec_walk_inline_in_rows(s, g) =~= s);
    } else {
        lemma_walk_inline_identity_rows(s.drop_last(), g);
        lemma_walk_inline_identity_row(s.last(), g);
        assert(spec_walk_inline_in_rows(s, g) =~= s);
    }
}

/// Rewriting with an identity function leaves the value unchanged.
pub proof fn lemma_walk_inline_identity_cells(s: Seq<SpecCell>, g: spec_fn(SpecInline) -> SpecInline)
    requires
        inline_identity(g),
    ensures
        spec_walk_inline_in_cells(s, g) == s,
    decreases s,
{
    if s.len() == 0 {
        assert(spec_walk_inline_in_cells(s, g) =~= s);
    } else {
        lemma_walk_inline_identity_cells(s.drop_last(), g);
        lemma_walk_inline_identity_cell(s.last(), g);
        assert(spec_walk_inline_in_cells(s, g) =~= s);
    }
}

/// Rewriting with an identity function leaves the value unchanged.
pub proof fn lemma_walk_inline_identity_bodies(s: Seq<SpecTableBody>, g: spec_fn(SpecInline) -> SpecInline)
    requires
        inline_identity(g),
    ensures
        spec_walk_inline_in_bodies(s, g) == s,
    decreases s,
{
    if s.len() == 0 {
        assert(spec_walk_inline_in_bodies(s, g) =~= s);
    } else {
        lemma_walk_inline_identity_bodies(s.drop_last(), g);
        lemma_walk_inline_identity_body(s.last(), g);
        assert(spec_walk_inline_in_bodies(s, g) =~= s);
    }
}

/// Rewriting with an identity function leaves the value unchanged.
pub proof fn lemma_walk_inline_identity_meta_values(s: Seq<SpecMetaValue>, g: spec_fn(SpecInline) -> SpecInline)
    requires
        inline_identity(g),
    ensures
        spec_walk_inline_in_meta_values(s, g) == s,
    decreases s,
{
    if s.len() == 0 {
        assert(spec_walk_inline_in_meta_values(s, g) =~= s);
    } else {
        lemma_walk_inline_identity_meta_values(s.drop_last(), g);
        lemma_walk_inline_identity_meta_value(s.last(), g);
        assert(spec_walk_inline_in_meta_values(s, g) =~= s);
    }
}

/// Rewriting with an identity function leaves the value unchanged.
pub proof fn lemma_walk_inline_identity_meta(s: SpecMeta, g: spec_fn(SpecInline) -> SpecInline)
    requires
        inline_identity(g),
    ensures
        spec_walk_inline_in_meta(s, g) == s,
    decreases s,
{
    if s.len() == 0 {
        assert(spec_walk_inline_in_meta(s, g) =~= s);
    } else {
        lemma_walk_inline_identity_meta(s.drop_last(), g);
        lemma_walk_inline_identity_meta_value(s.last().1, g);
        assert(spec_walk_inline_in_meta(s, g) =~= s);
    }
}

/// Rewriting with an identity function leaves the value unchanged.
pub proof fn lemma_walk_inline_identity_caption(c: SpecCaption, g: spec_fn(SpecInline) -> SpecInline)
    requires
        inline_identity(g),
    ensures
        spec_walk_inline_in_caption(c, g) == c,
    decreases c,
{
    match c.0 {
        Option::Some(sc) => lemma_walk_inline_identity_inlines(sc, g),
        Option::None => {}
    }
    lemma_walk_inline_identity_blocks(c.1, g);
}

/// Rewriting with an identity function leaves the value unchanged.
pub proof fn lemma_walk_inline_identity_citation(c: SpecCitation, g: spec_fn(SpecInline) -> SpecInline)
    requires
        inline_identity(g),
    ensures
        spec_walk_inline_in_citation(c, g) == c,
    decreases c,
{
    lemma_walk_inline_identity_inlines(c.citation_prefix, g);
    lemma_walk_inline_identity_inlines(c.citation_suffix, g);
}

/// Rewriting with an identity function leaves the value unchanged.
pub proof fn lemma_walk_inline_identity_row(r: SpecRow, g: spec_fn(SpecInline) -> SpecInline)
    requires
        inline_identity(g),
    ensures
        spec_walk_inline_in_row(r, g) == r,
    decreases r,
{
    lemma_walk_inline_identity_cells(r.1, g);
}

/// Rewriting with an identity function leaves the value unchanged.
pub proof fn lemma_walk_inline_identity_cell(c: SpecCell, g: spec_fn(SpecInline) -> SpecInline)
    requires
        inline_identity(g),
    ensures
        spec_walk_inline_in_cell(c, g) == c,
    decreases c,
{
    lemma_walk_inline_identity_blocks(c.4, g);
}

/// Rewriting with an identity function leaves the value unchanged.
pub proof fn lemma_walk_inline_identity_head(h: SpecTableHead, g: spec_fn(SpecInline) -> SpecInline)
    requires
        inline_identity(g),
    ensures
        spec_walk_inline_in_head(h, g) == h,
    decreases h,
{
    lemma_walk_inline_identity_rows(h.1, g);
}

/// Rewriting with an identity function leaves the value unchanged.
pub proof fn lemma_walk_inline_identity_body(b: SpecTableBody, g: spec_fn(SpecInline) -> SpecInline)
    requires
        inline_identity(g),
    ensures
        spec_walk_inline_in_body(b, g) == b,
    decreases b,
{
    lemma_walk_inline_identity_rows(b.2, g);
    lemma_walk_inline_identity_rows(b.3, g);
}

/// Rewriting with an identity function leaves the value unchanged.
pub proof fn lemma_walk_inline_identity_foot(ft: SpecTableFoot, g: spec_fn(SpecInline) -> SpecInline)
    requires
        inline_identity(g),
    ensures
        spec_walk_inline_in_foot(ft, g) == ft,
    decreases ft,
{
    lemma_walk_inline_identity_rows(ft.1, g);
}

/// Rewriting with an identity function leaves the value unchanged.
pub proof fn lemma_walk_inline_identity_meta_value(v: SpecMetaValue, g: spec_fn(SpecInline) -> SpecInline)
    requires
        inline_identity(g),
    ensures
        spec_walk_inline_in_meta_value(v, g) == v,
    decreases v,
{
    match v {
        SpecMetaValue::MetaMap(m) => lemma_walk_inline_identity_meta(m, g),
        SpecMetaValue::MetaList(vs) => lemma_walk_inline_identity_meta_values(vs, g),
        SpecMetaValue::MetaInlines(ils) => lemma_walk_inline_identity_inlines(ils, g),
        SpecMetaValue::MetaBlocks(bs) => lemma_walk_inline_identity_blocks(bs, g),
        _ => {}
    }
}

/// Rewriting with an identity function leaves the value unchanged.
pub proof fn lemma_walk_inline_identity_pandoc(d: SpecPandoc, g: spec_fn(SpecInline) -> SpecInline)
    requires
        inline_identity(g),
    ensures
        spec_walk_inline_in_pandoc(d, g) == d,
    decreases d,
{
    lemma_walk_inline_identity_meta(d.meta, g);
    lemma_walk_inline_identity_blocks(d.blocks, g);
}

/// Rewriting with an identity function leaves the node unchanged.
pub proof fn lemma_walk_block_identity_in_inline(x: SpecInline, g: spec_fn(SpecBlock) -> SpecBlock)
    requires
        block_identity(g),
    ensures
        spec_walk_block_in_inline(x, g) == x,
    decreases x,
{
    match x {
        SpecInline::Emph(ils) => lemma_walk_block_identity_inlines(ils, g),
        SpecInline::Underline(ils) => lemma_walk_block_identity_inlines(ils, g),
        SpecInline::Strong(ils) => lemma_walk_block_identity_inlines(ils, g),
        SpecInline::Strikeout(ils) => lemma_walk_block_identity_inlines(ils, g),
        SpecInline::Superscript(ils) => lemma_walk_block_identity_inlines(ils, g),
        SpecInline::Subscript(ils) => lemma_walk_block_identity_inlines(ils, g),
        SpecInline::SmallCaps(ils) => lemma_walk_block_identity_inlines(ils, g),
        SpecInline::Quoted(_q, ils) => lemma_walk_block_identity_inlines(ils, g),
        SpecInline::Cite(cits, ils) => {
            lemma_walk_block_identity_citations(cits, g);
            lemma_walk_block_identity_inlines(ils, g);
        }
        SpecInline::Link(_a, ils, _t) => lemma_walk_block_identity_inlines(ils, g),
        SpecInline::Image(_a, ils, _t) => lemma_walk_block_identity_inlines(ils, g),
        SpecInline::Note(bs) => lemma_walk_block_identity_blocks(bs, g),
        SpecInline::Span(_a, ils) => lemma_walk_block_identity_inlines(ils, g),
        _ => {}
    }
}

/// Rewriting with an identity function leaves the node unchanged.
pub proof fn lemma_walk_block_identity_block(b: SpecBlock, g: spec_fn(SpecBlock) -> SpecBlock)
    requires
        block_identity(g),
    ensures
        spec_walk_block(b, g) == b,
    decreases b,
{
    match b {
        SpecBlock::Plain(ils) => lemma_walk_block_identity_inlines(ils, g),
        SpecBlock::Para(ils) => lemma_walk_block_identity_inlines(ils, g),
        SpecBlock::LineBlock(ilss) => lemma_walk_block_identity_inliness(ilss, g),
        SpecBlock::BlockQuote(bs) => lemma_walk_block_identity_blocks(bs, g),
        SpecBlock::OrderedList(_la, bss) => lemma_walk_block_identity_blockss(bss, g),
        SpecBlock::BulletList(bss) => lemma_walk_block_identity_blockss(bss, g),
        SpecBlock::DefinitionList(defs) => lemma_walk_block_identity_defs(defs, g),
        SpecBlock::Header(_lvl, _a, ils) => lemma_walk_block_identity_inlines(ils, g),
        SpecBlock::Table(_a, c, _cs, h, bs, ft) => {
            lemma_walk_block_identity_caption(c, g);
            lemma_walk_block_identity_head(h, g);
            lemma_walk_block_identity_bodies(bs, g);
            lemma_walk_block_identity_foot(ft, g);
        }
        SpecBlock::Div(_a, bs) => lemma_walk_block_identity_blocks(bs, g),
        _ => {}
    }
}

/// Rewriting with an identity function leaves the value unchanged.
pub proof fn lemma_walk_block_identity_inlines(s: Seq<SpecInline>, g: spec_fn(SpecBlock) -> SpecBlock)
    requires
        block_identity(g),
    ensures
        spec_walk_block_in_inlines(s, g) == s,
    decreases s,
{
    if s.len() == 0 {
        assert(spec_walk_block_in_inlines(s, g) =~= s);
    } else {
        lemma_walk_block_identity_inlines(s.drop_last(), g);
        lemma_walk_block_identity_in_inline(s.last(), g);
        assert(spec_walk_block_in_inlines(s, g) =~= s);
    }
}

/// Rewriting with an identity function leaves the value unchanged.
pub proof fn lemma_walk_block_identity_inliness(s: Seq<Seq<SpecInline>>, g: spec_fn(SpecBlock) -> SpecBlock)
    requires
        block_identity(g),
    ensures
        spec_walk_block_in_inliness(s, g) == s,
    decreases s,
{
    if s.len() == 0 {
        assert(spec_walk_block_in_inliness(s, g) =~= s);
    } else {
        lemma_walk_block_identity_inliness(s.drop_last(), g);
        lemma_walk_block_identity_inlines(s.last(), g);
        assert(spec_walk_block_in_inliness(s, g) =~= s);
    }
}

/// Rewriting with an identity function leaves the value unchanged.
pub proof fn lemma_walk_block_identity_blocks(s: Seq<SpecBlock>, g: spec_fn(SpecBlock) -> SpecBlock)
    requires
        block_identity(g),
    ensures
        spec_walk_block_in_blocks(s, g) == s,
    decreases s,
{
    if s.len() == 0 {
        assert(spec_walk_block_in_blocks(s, g) =~= s);
    } else {
        lemma_walk_block_identity_blocks(s.drop_last(), g);
        lemma_walk_block_identity_block(s.last(), g);
        assert(spec_walk_block_in_blocks(s, g) =~= s);
    }
}

/// Rewriting with an identity function leaves the value unchanged.
pub proof fn lemma_walk_block_identity_blockss(s: Seq<Seq<SpecBlock>>, g: spec_fn(SpecBlock) -> SpecBlock)
    requires
        block_identity(g),
    ensures
        spec_walk_block_in_blockss(s, g) == s,
    decreases s,
{
    if s.len() == 0 {
        assert(spec_walk_block_in_blockss(s, g) =~= s);
    } else {
        lemma_walk_block_identity_blockss(s.drop_last(), g);
        lemma_walk_block_identity_blocks(s.last(), g);
        assert(spec_walk_block_in_blockss(s, g) =~= s);
    }
}

/// Rewriting with an identity function leaves the value unchanged.
pub proof fn lemma_walk_block_identity_defs(s: Seq<(Seq<SpecInline>, Seq<Seq<SpecBlock>>)>, g: spec_fn(SpecBlock) -> SpecBlock)
    requires
        block_identity(g),
    ensures
        spec_walk_block_in_defs(s, g) == s,
    decreases s,
{
    if s.len() == 0 {
        assert(spec_walk_block_in_defs(s, g) =~= s);
    } else {
        lemma_walk_block_identity_defs(s.drop_last(), g);
        lemma_walk_block_identity_inlines(s.last().0, g);
        lemma_walk_block_identity_blockss(s.last().1, g);
        assert(spec_walk_block_in_defs(s, g) =~= s);
    }
}

/// Rewriting with an identity function leaves the value unchanged.
pub proof fn lemma_walk_block_identity_citations(s: Seq<SpecCitation>, g: spec_fn(SpecBlock) -> SpecBlock)
    requires
        block_identity(g),
    ensures
        spec_walk_block_in_citations(s, g) == s,
    decreases s,
{
    if s.len() == 0 {
        assert(spec_walk_block_in_citations(s, g) =~= s);
    } else {
        lemma_walk_block_identity_citations(s.drop_last(), g);
        lemma_walk_block_identity_citation(s.last(), g);
        assert(spec_walk_block_in_citations(s, g) =~= s);
    }
}

/// Rewriting with an identity function leaves the value unchanged.
pub proof fn lemma_walk_block_identity_rows(s: Seq<SpecRow>, g: spec_fn(SpecBlock) -> SpecBlock)
    requires
        block_identity(g),
    ensures
        spec_walk_block_in_rows(s, g) == s,
    decreases s,
{
    if s.len() == 0 {
        assert(spec_walk_block_in_rows(s, g) =~= s);
    } else {
        lemma_walk_block_identity_rows(s.drop_last(), g);
        lemma_walk_block_identity_row(s.last(), g);
        assert(spec_walk_block_in_rows(s, g) =~= s);
    }
}

/// Rewriting with an identity function leaves the value unchanged.
pub proof fn lemma_walk_block_identity_cells(s: Seq<SpecCell>, g: spec_fn(SpecBlock) -> SpecBlock)
    requires
        block_identity(g),
    ensures
        spec_walk_block_in_cells(s, g) == s,
    decreases s,
{
    if s.len() == 0 {
        assert(spec_walk_block_in_cells(s, g) =~= s);
    } else {
        lemma_walk_block_identity_cells(s.drop_last(), g);
        lemma_walk_block_identity_cell(s.last(), g);
        assert(spec_walk_block_in_cells(s, g) =~= s);
    }
}

/// Rewriting with an identity function leaves the value unchanged.
pub proof fn lemma_walk_block_identity_bodies(s: Seq<SpecTableBody>, g: spec_fn(SpecBlock) -> SpecBlock)
    requires
        block_identity(g),
    ensures
        spec_walk_block_in_bodies(s, g) == s,
    decreases s,
{
    if s.len() == 0 {
        assert(spec_walk_block_in_bodies(s, g) =~= s);
    } else {
        lemma_walk_block_identity_bodies(s.drop_last(), g);
        lemma_walk_block_identity_body(s.last(), g);
        assert(spec_walk_block_in_bodies(s, g) =~= s);
    }
}

/// Rewriting with an identity function leaves the value unchanged.
pub proof fn lemma_walk_block_identity_meta_values(s: Seq<SpecMetaValue>, g: spec_fn(SpecBlock) -> SpecBlock)
    requires
        block_identity(g),
    ensures
        spec_walk_block_in_meta_values(s, g) == s,
    decreases s,
{
    if s.len() == 0 {
        assert(spec_walk_block_in_meta_values(s, g) =~= s);
    } else {
        lemma_walk_block_identity_meta_values(s.drop_last(), g);
        lemma_walk_block_identity_meta_value(s.last(), g);
        assert(spec_walk_block_in_meta_values(s, g) =~= s);
    }
}

/// Rewriting with an identity function leaves the value unchanged.
pub proof fn lemma_walk_block_identity_meta(s: SpecMeta, g: spec_fn(SpecBlock) -> SpecBlock)
    requires
        block_identity(g),
    ensures
        spec_walk_block_in_meta(s, g) == s,
    decreases s,
{
    if s.len() == 0 {
        assert(spec_walk_block_in_meta(s, g) =~= s);
    } else {
        lemma_walk_block_identity_meta(s.drop_last(), g);
        lemma_walk_block_identity_meta_value(s.last().1, g);
        assert(spec_walk_block_in_meta(s, g) =~= s);
    }
}

/// Rewriting with an identity function leaves the value unchanged.
pub proof fn lemma_walk_block_identity_caption(c: SpecCaption, g: spec_fn(SpecBlock) -> SpecBlock)
    requires
        block_identity(g),
    ensures
        spec_walk_block_in_caption(c, g) == c,
    decreases c,
{
    match c.0 {
        Option::Some(sc) => lemma_walk_block_identity_inlines(sc, g),
        Option::None => {}
    }
    lemma_walk_block_identity_blocks(c.1, g);
}

/// Rewriting with an identity function leaves the value unchanged.
pub proof fn lemma_walk_block_identity_citation(c: SpecCitation, g: spec_fn(SpecBlock) -> SpecBlock)
    requires
        block_identity(g),
    ensures
        spec_walk_block_in_citation(c, g) == c,
    decreases c,
{
    lemma_walk_block_identity_inlines(c.citation_prefix, g);
    lemma_walk_block_identity_inlines(c.citation_suffix, g);
}

/// Rewriting with an identity function leaves the value unchanged.
pub proof fn lemma_walk_block_identity_row(r: SpecRow, g: spec_fn(SpecBlock) -> SpecBlock)
    requires
        block_identity(g),
    ensures
        spec_walk_block_in_row(r, g) == r,
    decreases r,
{
    lemma_walk_block_identity_cells(r.1, g);
}

/// Rewriting with an identity function leaves the value unchanged.
pub proof fn lemma_walk_block_identity_cell(c: SpecCell, g: spec_fn(SpecBlock) -> SpecBlock)
    requires
        block_identity(g),
    ensures
        spec_walk_block_in_cell(c, g) == c,
    decreases c,
{
    lemma_walk_block_identity_blocks(c.4, g);
}

/// Rewriting with an identity function leaves the value unchanged.
pub proof fn lemma_walk_block_identity_head(h: SpecTableHead, g: spec_fn(SpecBlock) -> SpecBlock)
    requires
        block_identity(g),
    ensures
        spec_walk_block_in_head(h, g) == h,
    decreases h,
{
    lemma_walk_block_identity_rows(h.1, g);
}

/// Rewriting with an identity function leaves the value unchanged.
pub proof fn lemma_walk_block_identity_body(b: SpecTableBody, g: spec_fn(SpecBlock) -> SpecBlock)
    requires
        block_identity(g),
    ensures
        spec_walk_block_in_body(b, g) == b,
    decreases b,
{
    lemma_walk_block_identity_rows(b.2, g);
    lemma_walk_block_identity_rows(b.3, g);
}

/// Rewriting with an identity function leaves the value unchanged.
pub proof fn lemma_walk_block_identity_foot(ft: SpecTableFoot, g: spec_fn(SpecBlock) -> SpecBlock)
    requires
        block_identity(g),
    ensures
        spec_walk_block_in_foot(ft, g) == ft,
    decreases ft,
{
    lemma_walk_block_identity_rows(ft.1, g);
}

/// Rewriting with an identity function leaves the value unchanged.
pub proof fn lemma_walk_block_identity_meta_value(v: SpecMetaValue, g: spec_fn(SpecBlock) -> SpecBlock)
    requires
        block_identity(g),
    ensures
        spec_walk_block_in_meta_value(v, g) == v,
    decreases v,
{
    match v {
        SpecMetaValue::MetaMap(m) => lemma_walk_block_identity_meta(m, g),
        SpecMetaValue::MetaList(vs) => lemma_walk_block_identity_meta_values(vs, g),
        SpecMetaValue::MetaInlines(ils) => lemma_walk_block_identity_inlines(ils, g),
        SpecMetaValue::MetaBlocks(bs) => lemma_walk_block_identity_blocks(bs, g),
        _ => {}
    }
}

/// Rewriting with an identity function leaves the value unchanged.
pub proof fn lemma_walk_block_identity_pandoc(d: SpecPandoc, g: spec_fn(SpecBlock) -> SpecBlock)
    requires
        block_identity(g),
    ensures
        spec_walk_block_in_pandoc(d, g) == d,
    decreases d,
{
    lemma_walk_block_identity_meta(d.meta, g);
    lemma_walk_block_identity_blocks(d.blocks, g);
}

} // verus!

verus! {

/// `g` maps every text-level node to the one-element sequence holding it.
pub open spec fn inline_singleton(g: spec_fn(SpecInline) -> Seq<SpecInline>) -> bool {
    forall|n: SpecInline| #[trigger] g(n) == seq![n]
}

/// `g` maps every structural node to the one-element sequence holding it.
pub open spec fn block_singleton(g: spec_fn(SpecBlock) -> Seq<SpecBlock>) -> bool {
    forall|n: SpecBlock| #[trigger] g(n) == seq![n]
}

/// A splicing rewrite whose function wraps every node in a one-element
/// sequence leaves the node unchanged.
pub proof fn lemma_splice_inline_identity_inline(x: SpecInline, g: spec_fn(SpecInline) -> Seq<SpecInline>)
    requires
        inline_singleton(g),
    ensures
        spec_splice_inline_in_inline(x, g) == x,
    decreases x,
{
    match x {
        SpecInline::Emph(ils) => lemma_splice_inline_identity_inlines(ils, g),
        SpecInline::Underline(ils) => lemma_splice_inline_identity_inlines(ils, g),
        SpecInline::Strong(ils) => lemma_splice_inline_identity_inlines(ils, g),
        SpecInline::Strikeout(ils) => lemma_splice_inline_identity_inlines(ils, g),
        SpecInline::Superscript(ils) => lemma_splice_inline_identity_inlines(ils, g),
        SpecInline::Subscript(ils) => lemma_splice_inline_identity_inlines(ils, g),
        SpecInline::SmallCaps(ils) => lemma_splice_inline_identity_inlines(ils, g),
        SpecInline::Quoted(_q, ils) => lemma_splice_inline_identity_inlines(ils, g),
        SpecInline::Cite(cits, ils) => {
            lemma_splice_inline_identity_citations(cits, g);
            lemma_splice_inline_identity_inlines(ils, g);
        }
        SpecInline::Link(_a, ils, _t) => lemma_splice_inline_identity_inlines(ils, g),
        SpecInline::Image(_a, ils, _t) => lemma_splice_inline_identity_inlines(ils, g),
        SpecInline::Note(bs) => lemma_splice_inline_identity_blocks(bs, g),
        SpecInline::Span(_a, ils) => lemma_splice_inline_identity_inlines(ils, g),
        _ => {}
    }
}

/// A splicing rewrite whose function wraps every node in a one-element
/// sequence leaves the node unchanged.
pub proof fn lemma_splice_inline_identity_block(b: SpecBlock, g: spec_fn(SpecInline) -> Seq<SpecInline>)
    requires
        inline_singleton(g),
    ensures
        spec_splice_inline_in_block(b, g) == b,
    decreases b,
{
    match b {
        SpecBlock::Plain(ils) => lemma_splice_inline_identity_inlines(ils, g),
        SpecBlock::Para(ils) => lemma_splice_inline_identity_inlines(ils, g),
        SpecBlock::LineBlock(ilss) => lemma_splice_inline_identity_inliness(ilss, g),
        SpecBlock::BlockQuote(bs) => lemma_splice_inline_identity_blocks(bs, g),
        SpecBlock::OrderedList(_la, bss) => lemma_splice_inline_identity_blockss(bss, g),
        SpecBlock::BulletList(bss) => lemma_splice_inline_identity_blockss(bss, g),
        SpecBlock::DefinitionList(defs) => lemma_splice_inline_identity_defs(defs, g),
        SpecBlock::Header(_lvl, _a, ils) => lemma_splice_inline_identity_inlines(ils, g),
        SpecBlock::Table(_a, c, _cs, h, bs, ft) => {
            lemma_splice_inline_identity_caption(c, g);
            lemma_splice_inline_identity_head(h, g);
            lemma_splice_inline_identity_bodies(bs, g);
            lemma_splice_inline_identity_foot(ft, g);
        }
        SpecBlock::Div(_a, bs) => lemma_splice_inline_identity_blocks(bs, g),
        _ => {}
    }
}

/// A splicing rewrite whose function wraps every node in a one-element
/// sequence leaves the value unchanged.
pub proof fn lemma_splice_inline_identity_inlines(s: Seq<SpecInline>, g: spec_fn(SpecInline) -> Seq<SpecInline>)
    requires
        inline_singleton(g),
    ensures
        spec_splice_inline_in_inlines(s, g) == s,
    decreases s,
{
    if s.len() == 0 {
        assert(spec_splice_inline_in_inlines(s, g) =~= s);
    } else {
        lemma_splice_inline_identity_inlines(s.drop_last(), g);
        lemma_splice_inline_identity_inline(s.last(), g);
        assert(spec_splice_inline_in_inlines(s, g) =~= s);
    }
}

/// A splicing rewrite whose function wraps every node in a one-element
/// sequence leaves the value unchanged.
pub proof fn lemma_splice_inline_identity_inliness(s: Seq<Seq<SpecInline>>, g: spec_fn(SpecInline) -> Seq<SpecInline>)
    requires
        inline_singleton(g),
    ensures
        spec_splice_inline_in_inliness(s, g) == s,
    decreases s,
{
    if s.len() == 0 {
        assert(spec_splice_inline_in_inliness(s, g) =~= s);
    } else {
        lemma_splice_inline_identity_inliness(s.drop_last(), g);
        lemma_splice_inline_identity_inlines(s.last(), g);
        assert(spec_splice_inline_in_inliness(s, g) =~= s);
    }
}

/// A splicing rewrite whose function wraps every node in a one-element
/// sequence leaves the value unchanged.
pub proof fn lemma_splice_inline_identity_blocks(s: Seq<SpecBlock>, g: spec_fn(SpecInline) -> Seq<SpecInline>)
    requires
        inline_singleton(g),
    ensures
        spec_splice_inline_in_blocks(s, g) == s,
    decreases s,
{
    if s.len() == 0 {
        assert(spec_splice_inline_in_blocks(s, g) =~= s);
    } else {
        lemma_splice_inline_identity_blocks(s.drop_last(), g);
        lemma_splice_inline_identity_block(s.last(), g);
        assert(spec_splice_inline_in_blocks(s, g) =~= s);
    }
}

/// A splicing rewrite whose function wraps every node in a one-element
/// sequence leaves the value unchanged.
pub proof fn lemma_splice_inline_identity_blockss(s: Seq<Seq<SpecBlock>>, g: spec_fn(SpecInline) -> Seq<SpecInline>)
    requires
        inline_singleton(g),
    ensures
        spec_splice_inline_in_blockss(s, g) == s,
    decreases s,
{
    if s.len() == 0 {
        assert(spec_splice_inline_in_blockss(s, g) =~= s);
    } else {
        lemma_splice_inline_identity_blockss(s.drop_last(), g);
        lemma_splice_inline_identity_blocks(s.last(), g);
        assert(spec_splice_inline_in_blockss(s, g) =~= s);
    }
}

/// A splicing rewrite whose function wraps every node in a one-element
/// sequence leaves the value unchanged.
pub proof fn lemma_splice_inline_identity_defs(s: Seq<(Seq<SpecInline>, Seq<Seq<SpecBlock>>)>, g: spec_fn(SpecInline) -> Seq<SpecInline>)
    requires
        inline_singleton(g),
    ensures
        spec_splice_inline_in_defs(s, g) == s,
    decreases s,
{
    if s.len() == 0 {
        assert(spec_splice_inline_in_defs(s, g) =~= s);
    } else {
        lemma_splice_inline_identity_defs(s.drop_last(), g);
        lemma_splice_inline_identity_inlines(s.last().0, g);
        lemma_splice_inline_identity_blockss(s.last().1, g);
        assert(spec_splice_inline_in_defs(s, g) =~= s);
    }
}

/// A splicing rewrite whose function wraps every node in a one-element
/// sequence leaves the value unchanged.
pub proof fn lemma_splice_inline_identity_citations(s: Seq<SpecCitation>, g: spec_fn(SpecInline) -> Seq<SpecInline>)
    requires
        inline_singleton(g),
    ensures
        spec_splice_inline_in_citations(s, g) == s,
    decreases s,
{
    if s.len() == 0 {
        assert(spec_splice_inline_in_citations(s, g) =~= s);
    } else {
        lemma_splice_inline_identity_citations(s.drop_last(), g);
        lemma_splice_inline_identity_citation(s.last(), g);
        assert(spec_splice_inline_in_citations(s, g) =~= s);
    }
}

/// A splicing rewrite whose function wraps every node in a one-element
/// sequence leaves the value unchanged.
pub proof fn lemma_splice_inline_identity_rows(s: Seq<SpecRow>, g: spec_fn(SpecInline) -> Seq<SpecInline>)
    requires
        inline_singleton(g),
    ensures
        spec_splice_inline_in_rows(s, g) == s,
    decreases s,
{
    if s.len() == 0 {
        assert(spec_splice_inline_in_rows(s, g) =~= s);
    } else {
        lemma_splice_inline_identity_rows(s.drop_last(), g);
        lemma_splice_inline_identity_row(s.last(), g);
        assert(spec_splice_inline_in_rows(s, g) =~= s);
    }
}

/// A splicing rewrite whose function wraps every node in a one-element
/// sequence leaves the value unchanged.
pub proof fn lemma_splice_inline_identity_cells(s: Seq<SpecCell>, g: spec_fn(SpecInline) -> Seq<SpecInline>)
    requires
        inline_singleton(g),
    ensures
        spec_splice_inline_in_cells(s, g) == s,
    decreases s,
{
    if s.len() == 0 {
        assert(spec_splice_inline_in_cells(s, g) =~= s);
    } else {
        lemma_splice_inline_identity_cells(s.drop_last(), g);
        lemma_splice_inline_identity_cell(s.last(), g);
        assert(spec_splice_inline_in_cells(s, g) =~= s);
    }
}

/// A splicing rewrite whose function wraps every node in a one-element
/// sequence leaves the value unchanged.
pub proof fn lemma_splice_inline_identity_bodies(s: Seq<SpecTableBody>, g: spec_fn(SpecInline) -> Seq<SpecInline>)
    requires
        inline_singleton(g),
    ensures
        spec_splice_inline_in_bodies(s, g) == s,
    decreases s,
{
    if s.len() == 0 {
        assert(spec_splice_inline_in_bodies(s, g) =~= s);
    } else {
        lemma_splice_inline_identity_bodies(s.drop_last(), g);
        lemma_splice_inline_identity_body(s.last(), g);
        assert(spec_splice_inline_in_bodies(s, g) =~= s);
    }
}

/// A splicing rewrite whose function wraps every node in a one-element
/// sequence leaves the value unchanged.
pub proof fn lemma_splice_inline_identity_meta_values(s: Seq<SpecMetaValue>, g: spec_fn(SpecInline) -> Seq<SpecInline>)
    requires
        inline_singleton(g),
    ensures
        spec_splice_inline_in_meta_values(s, g) == s,
    decreases s,
{
    if s.len() == 0 {
        assert(spec_splice_inline_in_meta_values(s, g) =~= s);
    } else {
        lemma_splice_inline_identity_meta_values(s.drop_last(), g);
        lemma_splice_inline_identity_meta_value(s.last(), g);
        assert(spec_splice_inline_in_meta_values(s, g) =~= s);
    }
}

/// A splicing rewrite whose function wraps every node in a one-element
/// sequence leaves the value unchanged.
pub proof fn lemma_splice_inline_identity_meta(s: SpecMeta, g: spec_fn(SpecInline) -> Seq<SpecInline>)
    requires
        inline_singleton(g),
    ensures
        spec_splice_inline_in_meta(s, g) == s,
    decreases s,
{
    if s.len() == 0 {
        assert(spec_splice_inline_in_meta(s, g) =~= s);
    } else {
        lemma_splice_inline_identity_meta(s.drop_last(), g);
        lemma_splice_inline_identity_meta_value(s.last().1, g);
        assert(spec_splice_inline_in_meta(s, g) =~= s);
    }
}

/// A splicing rewrite whose function wraps every node in a one-element
/// sequence leaves the value unchanged.
pub proof fn lemma_splice_inline_identity_caption(c: SpecCaption, g: spec_fn(SpecInline) -> Seq<SpecInline>)
    requires
        inline_singleton(g),
    ensures
        spec_splice_inline_in_caption(c, g) == c,
    decreases c,
{
    match c.0 {
        Option::Some(sc) => lemma_splice_inline_identity_inlines(sc, g),
        Option::None => {}
    }
    lemma_splice_inline_identity_blocks(c.1, g);
}

/// A splicing rewrite whose function wraps every node in a one-element
/// sequence leaves the value unchanged.
pub proof fn lemma_splice_inline_identity_citation(c: SpecCitation, g: spec_fn(SpecInline) -> Seq<SpecInline>)
    requires
        inline_singleton(g),
    ensures
        spec_splice_inline_in_citation(c, g) == c,
    decreases c,
{
    lemma_splice_inline_identity_inlines(c.citation_prefix, g);
    lemma_splice_inline_identity_inlines(c.citation_suffix, g);
}

/// A splicing rewrite whose function wraps every node in a one-element
/// sequence leaves the value unchanged.
pub proof fn lemma_splice_inline_identity_row(r: SpecRow, g: spec_fn(SpecInline) -> Seq<SpecInline>)
    requires
        inline_singleton(g),
    ensures
        spec_splice_inline_in_row(r, g) == r,
    decreases r,
{
    lemma_splice_inline_identity_cells(r.1, g);
}

/// A splicing rewrite whose function wraps every node in a one-element
/// sequence leaves the value unchanged.
pub proof fn lemma_splice_inline_identity_cell(c: SpecCell, g: spec_fn(SpecInline) -> Seq<SpecInline>)
    requires
        inline_singleton(g),
    ensures
        spec_splice_inline_in_cell(c, g) == c,
    decreases c,
{
    lemma_splice_inline_identity_blocks(c.4, g);
}

/// A splicing rewrite whose function wraps every node in a one-element
/// sequence leaves the value unchanged.
pub proof fn lemma_splice_inline_identity_head(h: SpecTableHead, g: spec_fn(SpecInline) -> Seq<SpecInline>)
    requires
        inline_singleton(g),
    ensures
        spec_splice_inline_in_head(h, g) == h,
    decreases h,
{
    lemma_splice_inline_identity_rows(h.1, g);
}

/// A splicing rewrite whose function wraps every node in a one-element
/// sequence leaves the value unchanged.
pub proof fn lemma_splice_inline_identity_body(b: SpecTableBody, g: spec_fn(SpecInline) -> Seq<SpecInline>)
    requires
        inline_singleton(g),
    ensures
        spec_splice_inline_in_body(b, g) == b,
    decreases b,
{
    lemma_splice_inline_identity_rows(b.2, g);
    lemma_splice_inline_identity_rows(b.3, g);
}

/// A splicing rewrite whose function wraps every node in a one-element
/// sequence leaves the value unchanged.
pub proof fn lemma_splice_inline_identity_foot(ft: SpecTableFoot, g: spec_fn(SpecInline) -> Seq<SpecInline>)
    requires
        inline_singleton(g),
    ensures
        spec_splice_inline_in_foot(ft, g) == ft,
    decreases ft,
{
    lemma_splice_inline_identity_rows(ft.1, g);
}

/// A splicing rewrite whose function wraps every node in a one-element
/// sequence leaves the value unchanged.
pub proof fn lemma_splice_inline_identity_meta_value(v: SpecMetaValue, g: spec_fn(SpecInline) -> Seq<SpecInline>)
    requires
        inline_singleton(g),
    ensures
        spec_splice_inline_in_meta_value(v, g) == v,
    decreases v,
{
    match v {
        SpecMetaValue::MetaMap(m) => lemma_splice_inline_identity_meta(m, g),
        SpecMetaValue::MetaList(vs) => lemma_splice_inline_identity_meta_values(vs, g),
        SpecMetaValue::MetaInlines(ils) => lemma_splice_inline_identity_inlines(ils, g),
        SpecMetaValue::MetaBlocks(bs) => lemma_splice_inline_identity_blocks(bs, g),
        _ => {}
    }
}

/// A splicing rewrite whose function wraps every node in a one-element
/// sequence leaves the value unchanged.
pub proof fn lemma_splice_inline_identity_pandoc(d: SpecPandoc, g: spec_fn(SpecInline) -> Seq<SpecInline>)
    requires
        inline_singleton(g),
    ensures
        spec_splice_inline_in_pandoc(d, g) == d,
    decreases d,
{
    lemma_splice_inline_identity_meta(d.meta, g);
    lemma_splice_inline_identity_blocks(d.blocks, g);
}

/// A splicing rewrite whose function wraps every node in a one-element
/// sequence leaves the node unchanged.
pub proof fn lemma_splice_block_identity_inline(x: SpecInline, g: spec_fn(SpecBlock) -> Seq<SpecBlock>)
    requires
        block_singleton(g),
    ensures
        spec_splice_block_in_inline(x, g) == x,
    decreases x,
{
    match x {
        SpecInline::Emph(ils) => lemma_splice_block_identity_inlines(ils, g),
        SpecInline::Underline(ils) => lemma_splice_block_identity_inlines(ils, g),
        SpecInline::Strong(ils) => lemma_splice_block_identity_inlines(ils, g),
        SpecInline::Strikeout(ils) => lemma_splice_block_identity_inlines(ils, g),
        SpecInline::Superscript(ils) => lemma_splice_block_identity_inlines(ils, g),
        SpecInline::Subscript(ils) => lemma_splice_block_identity_inlines(ils, g),
        SpecInline::SmallCaps(ils) => lemma_splice_block_identity_inlines(ils, g),
        SpecInline::Quoted(_q, ils) => lemma_splice_block_identity_inlines(ils, g),
        SpecInline::Cite(cits, ils) => {
            lemma_splice_block_identity_citations(cits, g);
            lemma_splice_block_identity_inlines(ils, g);
        }
        SpecInline::Link(_a, ils, _t) => lemma_splice_block_identity_inlines(ils, g),
        SpecInline::Image(_a, ils, _t) => lemma_splice_block_identity_inlines(ils, g),
        SpecInline::Note(bs) => lemma_splice_block_identity_blocks(bs, g),
        SpecInline::Span(_a, ils) => lemma_splice_block_identity_inlines(ils, g),
        _ => {}
    }
}

/// A splicing rewrite whose function wraps every node in a one-element
/// sequence leaves the node unchanged.
pub proof fn lemma_splice_block_identity_block(b: SpecBlock, g: spec_fn(SpecBlock) -> Seq<SpecBlock>)
    requires
        block_singleton(g),
    ensures
        spec_splice_block_in_block(b, g) == b,
    decreases b,
{
    match b {
        SpecBlock::Plain(ils) => lemma_splice_block_identity_inlines(ils, g),
        SpecBlock::Para(ils) => lemma_splice_block_identity_inlines(ils, g),
        SpecBlock::LineBlock(ilss) => lemma_splice_block_identity_inliness(ilss, g),
        SpecBlock::BlockQuote(bs) => lemma_splice_block_identity_blocks(bs, g),
        SpecBlock::OrderedList(_la, bss) => lemma_splice_block_identity_blockss(bss, g),
        SpecBlock::BulletList(bss) => lemma_splice_block_identity_blockss(bss, g),
        SpecBlock::DefinitionList(defs) => lemma_splice_block_identity_defs(defs, g),
        SpecBlock::Header(_lvl, _a, ils) => lemma_splice_block_identity_inlines(ils, g),
        SpecBlock::Table(_a, c, _cs, h, bs, ft) => {
            lemma_splice_block_identity_caption(c, g);
            lemma_splice_block_identity_head(h, g);
            lemma_splice_block_identity_bodies(bs, g);
            lemma_splice_block_identity_foot(ft, g);
        }
        SpecBlock::Div(_a, bs) => lemma_splice_block_identity_blocks(bs, g),
        _ => {}
    }
}

/// A splicing rewrite whose function wraps every node in a one-element
/// sequence leaves the value unchanged.
pub proof fn lemma_splice_block_identity_inlines(s: Seq<SpecInline>, g: spec_fn(SpecBlock) -> Seq<SpecBlock>)
    requires
        block_singleton(g),
    ensures
        spec_splice_block_in_inlines(s, g) == s,
    decreases s,
{
    if s.len() == 0 {
        assert(spec_splice_block_in_inlines(s, g) =~= s);
    } else {
        lemma_splice_block_identity_inlines(s.drop_last(), g);
        lemma_splice_block_identity_inline(s.last(), g);
        assert(spec_splice_block_in_inlines(s, g) =~= s);
    }
}

/// A splicing rewrite whose function wraps every node in a one-element
/// sequence leaves the value unchanged.
pub proof fn lemma_splice_block_identity_inliness(s: Seq<Seq<SpecInline>>, g: spec_fn(SpecBlock) -> Seq<SpecBlock>)
    requires
        block_singleton(g),
    ensures
        spec_splice_block_in_inliness(s, g) == s,
    decreases s,
{
    if s.len() == 0 {
        assert(spec_splice_block_in_inliness(s, g) =~= s);
    } else {
        lemma_splice_block_identity_inliness(s.drop_last(), g);
        lemma_splice_block_identity_inlines(s.last(), g);
        assert(spec_splice_block_in_inliness(s, g) =~= s);
    }
}

/// A splicing rewrite whose function wraps every node in a one-element
/// sequence leaves the value unchanged.
pub proof fn lemma_splice_block_identity_blocks(s: Seq<SpecBlock>, g: spec_fn(SpecBlock) -> Seq<SpecBlock>)
    requires
        block_singleton(g),
    ensures
        spec_splice_block_in_blocks(s, g) == s,
    decreases s,
{
    if s.len() == 0 {
        assert(spec_splice_block_in_blocks(s, g) =~= s);
    } else {
        lemma_splice_block_identity_blocks(s.drop_last(), g);
        lemma_splice_block_identity_block(s.last(), g);
        assert(spec_splice_block_in_blocks(s, g) =~= s);
    }
}

/// A splicing rewrite whose function wraps every node in a one-element
/// sequence leaves the value unchanged.
pub proof fn lemma_splice_block_identity_blockss(s: Seq<Seq<SpecBlock>>, g: spec_fn(SpecBlock) -> Seq<SpecBlock>)
    requires
        block_singleton(g),
    ensures
        spec_splice_block_in_blockss(s, g) == s,
    decreases s,
{
    if s.len() == 0 {
        assert(spec_splice_block_in_blockss(s, g) =~= s);
    } else {
        lemma_splice_block_identity_blockss(s.drop_last(), g);
        lemma_splice_block_identity_blocks(s.last(), g);
        assert(spec_splice_block_in_blockss(s, g) =~= s);
    }
}

/// A splicing rewrite whose function wraps every node in a one-element
/// sequence leaves the value unchanged.
pub proof fn lemma_splice_block_identity_defs(s: Seq<(Seq<SpecInline>, Seq<Seq<SpecBlock>>)>, g: spec_fn(SpecBlock) -> Seq<SpecBlock>)
    requires
        block_singleton(g),
    ensures
        spec_splice_block_in_defs(s, g) == s,
    decreases s,
{
    if s.len() == 0 {
        assert(spec_splice_block_in_defs(s, g) =~= s);
    } else {
        lemma_splice_block_identity_defs(s.drop_last(), g);
        lemma_splice_block_identity_inlines(s.last().0, g);
        lemma_splice_block_identity_blockss(s.last().1, g);
        assert(spec_splice_block_in_defs(s, g) =~= s);
    }
}

/// A splicing rewrite whose function wraps every node in a one-element
/// sequence leaves the value unchanged.
pub proof fn lemma_splice_block_identity_citations(s: Seq<SpecCitation>, g: spec_fn(SpecBlock) -> Seq<SpecBlock>)
    requires
        block_singleton(g),
    ensures
        spec_splice_block_in_citations(s, g) == s,
    decreases s,
{
    if s.len() == 0 {
        assert(spec_splice_block_in_citations(s, g) =~= s);
    } else {
        lemma_splice_block_identity_citations(s.drop_last(), g);
        lemma_splice_block_identity_citation(s.last(), g);
        assert(spec_splice_block_in_citations(s, g) =~= s);
    }
}

/// A splicing rewrite whose function wraps every node in a one-element
/// sequence leaves the value unchanged.
pub proof fn lemma_splice_block_identity_rows(s: Seq<SpecRow>, g: spec_fn(SpecBlock) -> Seq<SpecBlock>)
    requires
        block_singleton(g),
    ensures
        spec_splice_block_in_rows(s, g) == s,
    decreases s,
{
    if s.len() == 0 {
        assert(spec_splice_block_in_rows(s, g) =~= s);
    } else {
        lemma_splice_block_identity_rows(s.drop_last(), g);
        lemma_splice_block_identity_row(s.last(), g);
        assert(spec_splice_block_in_rows(s, g) =~= s);
    }
}

/// A splicing rewrite whose function wraps every node in a one-element
/// sequence leaves the value unchanged.
pub proof fn lemma_splice_block_identity_cells(s: Seq<SpecCell>, g: spec_fn(SpecBlock) -> Seq<SpecBlock>)
    requires
        block_singleton(g),
    ensures
        spec_splice_block_in_cells(s, g) == s,
    decreases s,
{
    if s.len() == 0 {
        assert(spec_splice_block_in_cells(s, g) =~= s);
    } else {
        lemma_splice_block_identity_cells(s.drop_last(), g);
        lemma_splice_block_identity_cell(s.last(), g);
        assert(spec_splice_block_in_cells(s, g) =~= s);
    }
}

/// A splicing rewrite whose function wraps every node in a one-element
/// sequence leaves the value unchanged.
pub proof fn lemma_splice_block_identity_bodies(s: Seq<SpecTableBody>, g: spec_fn(SpecBlock) -> Seq<SpecBlock>)
    requires
        block_singleton(g),
    ensures
        spec_splice_block_in_bodies(s, g) == s,
    decreases s,
{
    if s.len() == 0 {
        assert(spec_splice_block_in_bodies(s, g) =~= s);
    } else {
        lemma_splice_block_identity_bodies(s.drop_last(), g);
        lemma_splice_block_identity_body(s.last(), g);
        assert(spec_splice_block_in_bodies(s, g) =~= s);
    }
}

/// A splicing rewrite whose function wraps every node in a one-element
/// sequence leaves the value unchanged.
pub proof fn lemma_splice_block_identity_meta_values(s: Seq<SpecMetaValue>, g: spec_fn(SpecBlock) -> Seq<SpecBlock>)
    requires
        block_singleton(g),
    ensures
        spec_splice_block_in_meta_values(s, g) == s,
    decreases s,
{
    if s.len() == 0 {
        assert(spec_splice_block_in_meta_values(s, g) =~= s);
    } else {
        lemma_splice_block_identity_meta_values(s.drop_last(), g);
        lemma_splice_block_identity_meta_value(s.last(), g);
        assert(spec_splice_block_in_meta_values(s, g) =~= s);
    }
}

/// A splicing rewrite whose function wraps every node in a one-element
/// sequence leaves the value unchanged.
pub proof fn lemma_splice_block_identity_meta(s: SpecMeta, g: spec_fn(SpecBlock) -> Seq<SpecBlock>)
    requires
        block_singleton(g),
    ensures
        spec_splice_block_in_meta(s, g) == s,
    decreases s,
{
    if s.len() == 0 {
        assert(spec_splice_block_in_meta(s, g) =~= s);
    } else {
        lemma_splice_block_identity_meta(s.drop_last(), g);
        lemma_splice_block_identity_meta_value(s.last().1, g);
        assert(spec_splice_block_in_meta(s, g) =~= s);
    }
}

/// A splicing rewrite whose function wraps every node in a one-element
/// sequence leaves the value unchanged.
pub proof fn lemma_splice_block_identity_caption(c: SpecCaption, g: spec_fn(SpecBlock) -> Seq<SpecBlock>)
    requires
        block_singleton(g),
    ensures
        spec_splice_block_in_caption(c, g) == c,
    decreases c,
{
    match c.0 {
        Option::Some(sc) => lemma_splice_block_identity_inlines(sc, g),
        Option::None => {}
    }
    lemma_splice_block_identity_blocks(c.1, g);
}

/// A splicing rewrite whose function wraps every node in a one-element
/// sequence leaves the value unchanged.
pub proof fn lemma_splice_block_identity_citation(c: SpecCitation, g: spec_fn(SpecBlock) -> Seq<SpecBlock>)
    requires
        block_singleton(g),
    ensures
        spec_splice_block_in_citation(c, g) == c,
    decreases c,
{
    lemma_splice_block_identity_inlines(c.citation_prefix, g);
    lemma_splice_block_identity_inlines(c.citation_suffix, g);
}

/// A splicing rewrite whose function wraps every node in a one-element
/// sequence leaves the value unchanged.
pub proof fn lemma_splice_block_identity_row(r: SpecRow, g: spec_fn(SpecBlock) -> Seq<SpecBlock>)
    requires
        block_singleton(g),
    ensures
        spec_splice_block_in_row(r, g) == r,
    decreases r,
{
    lemma_splice_block_identity_cells(r.1, g);
}

/// A splicing rewrite whose function wraps every node in a one-element
/// sequence leaves the value unchanged.
pub proof fn lemma_splice_block_identity_cell(c: SpecCell, g: spec_fn(SpecBlock) -> Seq<SpecBlock>)
    requires
        block_singleton(g),
    ensures
        spec_splice_block_in_cell(c, g) == c,
    decreases c,
{
    lemma_splice_block_identity_blocks(c.4, g);
}

/// A splicing rewrite whose function wraps every node in a one-element
/// sequence leaves the value unchanged.
pub proof fn lemma_splice_block_identity_head(h: SpecTableHead, g: spec_fn(SpecBlock) -> Seq<SpecBlock>)
    requires
        block_singleton(g),
    ensures
        spec_splice_block_in_head(h, g) == h,
    decreases h,
{
    lemma_splice_block_identity_rows(h.1, g);
}

/// A splicing rewrite whose function wraps every node in a one-element
/// sequence leaves the value unchanged.
pub proof fn lemma_splice_block_identity_body(b: SpecTableBody, g: spec_fn(SpecBlock) -> Seq<SpecBlock>)
    requires
        block_singleton(g),
    ensures
        spec_splice_block_in_body(b, g) == b,
    decreases b,
{
    lemma_splice_block_identity_rows(b.2, g);
    lemma_splice_block_identity_rows(b.3, g);
}

/// A splicing rewrite whose function wraps every node in a one-element
/// sequence leaves the value unchanged.
pub proof fn lemma_splice_block_identity_foot(ft: SpecTableFoot, g: spec_fn(SpecBlock) -> Seq<SpecBlock>)
    requires
        block_singleton(g),
    ensures
        spec_splice_block_in_foot(ft, g) == ft,
    decreases ft,
{
    lemma_splice_block_identity_rows(ft.1, g);
}

/// A splicing rewrite whose function wraps every node in a one-element
/// sequence leaves the value unchanged.
pub proof fn lemma_splice_block_identity_meta_value(v: SpecMetaValue, g: spec_fn(SpecBlock) -> Seq<SpecBlock>)
    requires
        block_singleton(g),
    ensures
        spec_splice_block_in_meta_value(v, g) == v,
    decreases v,
{
    match v {
        SpecMetaValue::MetaMap(m) => lemma_splice_block_identity_meta(m, g),
        SpecMetaValue::MetaList(vs) => lemma_splice_block_identity_meta_values(vs, g),
        SpecMetaValue::MetaInlines(ils) => lemma_splice_block_identity_inlines(ils, g),
        SpecMetaValue::MetaBlocks(bs) => lemma_splice_block_identity_blocks(bs, g),
        _ => {}
    }
}

/// A splicing rewrite whose function wraps every node in a one-element
/// sequence leaves the value unchanged.
pub proof fn lemma_splice_block_identity_pandoc(d: SpecPandoc, g: spec_fn(SpecBlock) -> Seq<SpecBlock>)
    requires
        block_singleton(g),
    ensures
        spec_splice_block_in_pandoc(d, g) == d,
    decreases d,
{
    lemma_splice_block_identity_meta(d.meta, g);
    lemma_splice_block_identity_blocks(d.blocks, g);
}

/// Rewriting every metadata mapping with an identity function leaves the
/// mapping unchanged.
pub proof fn lemma_walk_meta_identity(m: SpecMeta, g: spec_fn(SpecMeta) -> SpecMeta)
    requires
        meta_identity(g),
    ensures
        spec_walk_meta(m, g) == m,
    decreases m, 1int,
{
    lemma_walk_meta_identity_entries(m, g);
}

/// Rewriting every metadata mapping with an identity function leaves the
/// entries unchanged.
pub proof fn lemma_walk_meta_identity_entries(m: SpecMeta, g: spec_fn(SpecMeta) -> SpecMeta)
    requires
        meta_identity(g),
    ensures
        spec_walk_meta_entries(m, g) == m,
    decreases m, 0int,
{
    if m.len() == 0 {
        assert(spec_walk_meta_entries(m, g) =~= m);
    } else {
        lemma_walk_meta_identity_entries(m.drop_last(), g);
        lemma_walk_meta_identity_meta_value(m.last().1, g);
        assert(spec_walk_meta_entries(m, g) =~= m);
    }
}

/// Rewriting every metadata mapping with an identity function leaves the
/// value unchanged.
pub proof fn lemma_walk_meta_identity_meta_value(v: SpecMetaValue, g: spec_fn(SpecMeta) -> SpecMeta)
    requires
        meta_identity(g),
    ensures
        spec_walk_meta_in_meta_value(v, g) == v,
    decreases v, 0int,
{
    match v {
        SpecMetaValue::MetaMap(m) => lemma_walk_meta_identity(m, g),
        SpecMetaValue::MetaList(vs) => lemma_walk_meta_identity_meta_values(vs, g),
        _ => {}
    }
}

/// Rewriting every metadata mapping with an identity function leaves the
/// values unchanged.
pub proof fn lemma_walk_meta_identity_meta_values(
    s: Seq<SpecMetaValue>,
    g: spec_fn(SpecMeta) -> SpecMeta,
)
    requires
        meta_identity(g),
    ensures
        spec_walk_meta_in_meta_values(s, g) == s,
    decreases s, 0int,
{
    if s.len() == 0 {
        assert(spec_walk_meta_in_meta_values(s, g) =~= s);
    } else {
        lemma_walk_meta_identity_meta_values(s.drop_last(), g);
        lemma_walk_meta_identity_meta_value(s.last(), g);
        assert(spec_walk_meta_in_meta_values(s, g) =~= s);
    }
}

/// Rewriting the whole document with an identity function returns it
/// unchanged.
pub proof fn lemma_walk_doc_identity(d: SpecPandoc, g: spec_fn(SpecPandoc) -> SpecPandoc)
    requires
        doc_identity(g),
    ensures
        spec_walk_doc(d, g) == d,
{
}

} // verus!

verus! {

/// A type-preserving rewrite keeps the length of a sibling sequence and the
/// position of every element: the element at `k` of the result is the
/// rewrite of the element at `k` of the input.
pub proof fn lemma_walk_inline_elementwise_inlines(s: Seq<SpecInline>, g: spec_fn(SpecInline) -> SpecInline)
    ensures
        spec_walk_inline_in_inlines(s, g).len() == s.len(),
        forall|k: int| 0 <= k < s.len() ==> (#[trigger] spec_walk_inline_in_inlines(s, g)[k]) == spec_walk_inline(s[k], g),
    decreases s,
{
    if s.len() != 0 {
        lemma_walk_inline_elementwise_inlines(s.drop_last(), g);
        assert forall|k: int| 0 <= k < s.len() implies (#[trigger] spec_walk_inline_in_inlines(s, g)[k]) == spec_walk_inline(s[k], g) by {
            if k < s.len() - 1 {
                assert(spec_walk_inline_in_inlines(s, g)[k] == spec_walk_inline_in_inlines(s.drop_last(), g)[k]);
                assert(s.drop_last()[k] == s[k]);
            }
        }
    }
}

/// A type-preserving rewrite keeps the length of a sibling sequence and the
/// position of every element: the element at `k` of the result is the
/// rewrite of the element at `k` of the input.
pub proof fn lemma_walk_inline_elementwise_inliness(s: Seq<Seq<SpecInline>>, g: spec_fn(SpecInline) -> SpecInline)
    ensures
        spec_walk_inline_in_inliness(s, g).len() == s.len(),
        forall|k: int| 0 <= k < s.len() ==> (#[trigger] spec_walk_inline_in_inliness(s, g)[k]) == spec_walk_inline_in_inlines(s[k], g),
    decreases s,
{
    if s.len() != 0 {
        lemma_walk_inline_elementwise_inliness(s.drop_last(), g);
        assert forall|k: int| 0 <= k < s.len() implies (#[trigger] spec_walk_inline_in_inliness(s, g)[k]) == spec_walk_inline_in_inlines(s[k], g) by {
            if k < s.len() - 1 {
                assert(spec_walk_inline_in_inliness(s, g)[k] == spec_walk_inline_in_inliness(s.drop_last(), g)[k]);
                assert(s.drop_last()[k] == s[k]);
            }
        }
    }
}

/// A type-preserving rewrite keeps the length of a sibling sequence and the
/// position of every element: the element at `k` of the result is the
/// rewrite of the element at `k` of the input.
pub proof fn lemma_walk_inline_elementwise_blocks(s: Seq<SpecBlock>, g: spec_fn(SpecInline) -> SpecInline)
    ensures
        spec_walk_inline_in_blocks(s, g).len() == s.len(),
        forall|k: int| 0 <= k < s.len() ==> (#[trigger] spec_walk_inline_in_blocks(s, g)[k]) == spec_walk_inline_in_block(s[k], g),
    decreases s,
{
    if s.len() != 0 {
        lemma_walk_inline_elementwise_blocks(s.drop_last(), g);
        assert forall|k: int| 0 <= k < s.len() implies (#[trigger] spec_walk_inline_in_blocks(s, g)[k]) == spec_walk_inline_in_block(s[k], g) by {
            if k < s.len() - 1 {
                assert(spec_walk_inline_in_blocks(s, g)[k] == spec_walk_inline_in_blocks(s.drop_last(), g)[k]);
                assert(s.drop_last()[k] == s[k]);
            }
        }
    }
}

/// A type-preserving rewrite keeps the length of a sibling sequence and the
/// position of every element: the element at `k` of the result is the
/// rewrite of the element at `k` of the input.
pub proof fn lemma_walk_inline_elementwise_blockss(s: Seq<Seq<SpecBlock>>, g: spec_fn(SpecInline) -> SpecInline)
    ensures
        spec_walk_inline_in_blockss(s, g).len() == s.len(),
        forall|k: int| 0 <= k < s.len() ==> (#[trigger] spec_walk_inline_in_blockss(s, g)[k]) == spec_walk_inline_in_blocks(s[k], g),
    decreases s,
{
    if s.len() != 0 {
        lemma_walk_inline_elementwise_blockss(s.drop_last(), g);
        assert forall|k: int| 0 <= k < s.len() implies (#[trigger] spec_walk_inline_in_blockss(s, g)[k]) == spec_walk_inline_in_blocks(s[k], g) by {
            if k < s.len() - 1 {
                assert(spec_walk_inline_in_blockss(s, g)[k] == spec_walk_inline_in_blockss(s.drop_last(), g)[k]);
                assert(s.drop_last()[k] == s[k]);
            }
        }
    }
}

/// A type-preserving rewrite keeps the length of a sibling sequence and the
/// position of every element: the element at `k` of the result is the
/// rewrite of the element at `k` of the input.
pub proof fn lemma_walk_inline_elementwise_defs(s: Seq<(Seq<SpecInline>, Seq<Seq<SpecBlock>>)>, g: spec_fn(SpecInline) -> SpecInline)
    ensures
        spec_walk_inline_in_defs(s, g).len() == s.len(),
        forall|k: int| 0 <= k < s.len() ==> (#[trigger] spec_walk_inline_in_defs(s, g)[k]) == (spec_walk_inline_in_inlines(s[k].0, g), spec_walk_inline_in_blockss(s[k].1, g)),
    decreases s,
{
    if s.len() != 0 {
        lemma_walk_inline_elementwise_defs(s.drop_last(), g);
        assert forall|k: int| 0 <= k < s.len() implies (#[trigger] spec_walk_inline_in_defs(s, g)[k]) == (spec_walk_inline_in_inlines(s[k].0, g), spec_walk_inline_in_blockss(s[k].1, g)) by {
            if k < s.len() - 1 {
                assert(spec_walk_inline_in_defs(s, g)[k] == spec_walk_inline_in_defs(s.drop_last(), g)[k]);
                assert(s.drop_last()[k] == s[k]);
            }
        }
    }
}

/// A type-preserving rewrite keeps the length of a sibling sequence and the
/// position of every element: the element at `k` of the result is the
/// rewrite of the element at `k` of the input.
pub proof fn lemma_walk_inline_elementwise_citations(s: Seq<SpecCitation>, g: spec_fn(SpecInline) -> SpecInline)
    ensures
        spec_walk_inline_in_citations(s, g).len() == s.len(),
        forall|k: int| 0 <= k < s.len() ==> (#[trigger] spec_walk_inline_in_citations(s, g)[k]) == spec_walk_inline_in_citation(s[k], g),
    decreases s,
{
    if s.len() != 0 {
        lemma_walk_inline_elementwise_citations(s.drop_last(), g);
        assert forall|k: int| 0 <= k < s.len() implies (#[trigger] spec_walk_inline_in_citations(s, g)[k]) == spec_walk_inline_in_citation(s[k], g) by {
            if k < s.len() - 1 {
                assert(spec_walk_inline_in_citations(s, g)[k] == spec_walk_inline_in_citations(s.drop_last(), g)[k]);
                assert(s.drop_last()[k] == s[k]);
            }
        }
    }
}

/// A type-preserving rewrite keeps the length of a sibling sequence and the
/// position of every element: the element at `k` of the result is the
/// rewrite of the element at `k` of the input.
pub proof fn lemma_walk_inline_elementwise_rows(s: Seq<SpecRow>, g: spec_fn(SpecInline) -> SpecInline)
    ensures
        spec_walk_inline_in_rows(s, g).len() == s.len(),
        forall|k: int| 0 <= k < s.len() ==> (#[trigger] spec_walk_inline_in_rows(s, g)[k]) == spec_walk_inline_in_row(s[k], g),
    decreases s,
{
    if s.len() != 0 {
        lemma_walk_inline_elementwise_rows(s.drop_last(), g);
        assert forall|k: int| 0 <= k < s.len() implies (#[trigger] spec_walk_inline_in_rows(s, g)[k]) == spec_walk_inline_in_row(s[k], g) by {
            if k < s.len() - 1 {
                assert(spec_walk_inline_in_rows(s, g)[k] == spec_walk_inline_in_rows(s.drop_last(), g)[k]);
                assert(s.drop_last()[k] == s[k]);
            }
        }
    }
}

/// A type-preserving rewrite keeps the length of a sibling sequence and the
/// position of every element: the element at `k` of the result is the
/// rewrite of the element at `k` of the input.
pub proof fn lemma_walk_inline_elementwise_cells(s: Seq<SpecCell>, g: spec_fn(SpecInline) -> SpecInline)
    ensures
        spec_walk_inline_in_cells(s, g).len() == s.len(),
        forall|k: int| 0 <= k < s.len() ==> (#[trigger] spec_walk_inline_in_cells(s, g)[k]) == spec_walk_inline_in_cell(s[k], g),
    decreases s,
{
    if s.len() != 0 {
        lemma_walk_inline_elementwise_cells(s.drop_last(), g);
        assert forall|k: int| 0 <= k < s.len() implies (#[trigger] spec_walk_inline_in_cells(s, g)[k]) == spec_walk_inline_in_cell(s[k], g) by {
            if k < s.len() - 1 {
                assert(spec_walk_inline_in_cells(s, g)[k] == spec_walk_inline_in_cells(s.drop_last(), g)[k]);
                assert(s.drop_last()[k] == s[k]);
            }
        }
    }
}

/// A type-preserving rewrite keeps the length of a sibling sequence and the
/// position of every element: the element at `k` of the result is the
/// rewrite of the element at `k` of the input.
pub proof fn lemma_walk_inline_elementwise_bodies(s: Seq<SpecTableBody>, g: spec_fn(SpecInline) -> SpecInline)
    ensures
        spec_walk_inline_in_bodies(s, g).len() == s.len(),
        forall|k: int| 0 <= k < s.len() ==> (#[trigger] spec_walk_inline_in_bodies(s, g)[k]) == spec_walk_inline_in_body(s[k], g),
    decreases s,
{
    if s.len() != 0 {
        lemma_walk_inline_elementwise_bodies(s.drop_last(), g);
        assert forall|k: int| 0 <= k < s.len() implies (#[trigger] spec_walk_inline_in_bodies(s, g)[k]) == spec_walk_inline_in_body(s[k], g) by {
            if k < s.len() - 1 {
                assert(spec_walk_inline_in_bodies(s, g)[k] == spec_walk_inline_in_bodies(s.drop_last(), g)[k]);
                assert(s.drop_last()[k] == s[k]);
            }
        }
    }
}

/// A type-preserving rewrite keeps the length of a sibling sequence and the
/// position of every element: the element at `k` of the result is the
/// rewrite of the element at `k` of the input.
pub proof fn lemma_walk_inline_elementwise_meta_values(s: Seq<SpecMetaValue>, g: spec_fn(SpecInline) -> SpecInline)
    ensures
        spec_walk_inline_in_meta_values(s, g).len() == s.len(),
        forall|k: int| 0 <= k < s.len() ==> (#[trigger] spec_walk_inline_in_meta_values(s, g)[k]) == spec_walk_inline_in_meta_value(s[k], g),
    decreases s,
{
    if s.len() != 0 {
        lemma_walk_inline_elementwise_meta_values(s.drop_last(), g);
        assert forall|k: int| 0 <= k < s.len() implies (#[trigger] spec_walk_inline_in_meta_values(s, g)[k]) == spec_walk_inline_in_meta_value(s[k], g) by {
            if k < s.len() - 1 {
                assert(spec_walk_inline_in_meta_values(s, g)[k] == spec_walk_inline_in_meta_values(s.drop_last(), g)[k]);
                assert(s.drop_last()[k] == s[k]);
            }
        }
    }
}

/// A type-preserving rewrite keeps the length of a sibling sequence and the
/// position of every element: the element at `k` of the result is the
/// rewrite of the element at `k` of the input.
pub proof fn lemma_walk_inline_elementwise_meta(s: SpecMeta, g: spec_fn(SpecInline) -> SpecInline)
    ensures
        spec_walk_inline_in_meta(s, g).len() == s.len(),
        forall|k: int| 0 <= k < s.len() ==> (#[trigger] spec_walk_inline_in_meta(s, g)[k]) == (s[k].0, spec_walk_inline_in_meta_value(s[k].1, g)),
    decreases s,
{
    if s.len() != 0 {
        lemma_walk_inline_elementwise_meta(s.drop_last(), g);
        assert forall|k: int| 0 <= k < s.len() implies (#[trigger] spec_walk_inline_in_meta(s, g)[k]) == (s[k].0, spec_walk_inline_in_meta_value(s[k].1, g)) by {
            if k < s.len() - 1 {
                assert(spec_walk_inline_in_meta(s, g)[k] == spec_walk_inline_in_meta(s.drop_last(), g)[k]);
                assert(s.drop_last()[k] == s[k]);
            }
        }
    }
}

/// A type-preserving rewrite never touches metadata keys or their order;
/// in particular it preserves the lexicographic sortedness that conforming
/// producers maintain.
pub proof fn lemma_walk_inline_meta_keys_preserved(m: SpecMeta, g: spec_fn(SpecInline) -> SpecInline)
    ensures
        spec_walk_inline_in_meta(m, g).len() == m.len(),
        forall|k: int| 0 <= k < m.len() ==> (#[trigger] spec_walk_inline_in_meta(m, g)[k]).0 == m[k].0,
        spec_meta_sorted(m) ==> spec_meta_sorted(spec_walk_inline_in_meta(m, g)),
{
    lemma_walk_inline_elementwise_meta(m, g);
    if spec_meta_sorted(m) {
        assert forall|i: int, j: int|
            0 <= i < j < spec_walk_inline_in_meta(m, g).len() implies crate::model::spec_str_lt(
            spec_walk_inline_in_meta(m, g)[i].0,
            spec_walk_inline_in_meta(m, g)[j].0,
        ) by {
            assert(spec_walk_inline_in_meta(m, g)[i].0 == m[i].0);
            assert(spec_walk_inline_in_meta(m, g)[j].0 == m[j].0);
        }
    }
}

/// A type-preserving rewrite keeps the length of a sibling sequence and the
/// position of every element: the element at `k` of the result is the
/// rewrite of the element at `k` of the input.
pub proof fn lemma_walk_block_elementwise_inlines(s: Seq<SpecInline>, g: spec_fn(SpecBlock) -> SpecBlock)
    ensures
        spec_walk_block_in_inlines(s, g).len() == s.len(),
        forall|k: int| 0 <= k < s.len() ==> (#[trigger] spec_walk_block_in_inlines(s, g)[k]) == spec_walk_block_in_inline(s[k], g),
    decreases s,
{
    if s.len() != 0 {
        lemma_walk_block_elementwise_inlines(s.drop_last(), g);
        assert forall|k: int| 0 <= k < s.len() implies (#[trigger] spec_walk_block_in_inlines(s, g)[k]) == spec_walk_block_in_inline(s[k], g) by {
            if k < s.len() - 1 {
                assert(spec_walk_block_in_inlines(s, g)[k] == spec_walk_block_in_inlines(s.drop_last(), g)[k]);
                assert(s.drop_last()[k] == s[k]);
            }
        }
    }
}

/// A type-preserving rewrite keeps the length of a sibling sequence and the
/// position of every element: the element at `k` of the result is the
/// rewrite of the element at `k` of the input.
pub proof fn lemma_walk_block_elementwise_inliness(s: Seq<Seq<SpecInline>>, g: spec_fn(SpecBlock) -> SpecBlock)
    ensures
        spec_walk_block_in_inliness(s, g).len() == s.len(),
        forall|k: int| 0 <= k < s.len() ==> (#[trigger] spec_walk_block_in_inliness(s, g)[k]) == spec_walk_block_in_inlines(s[k], g),
    decreases s,
{
    if s.len() != 0 {
        lemma_walk_block_elementwise_inliness(s.drop_last(), g);
        assert forall|k: int| 0 <= k < s.len() implies (#[trigger] spec_walk_block_in_inliness(s, g)[k]) == spec_walk_block_in_inlines(s[k], g) by {
            if k < s.len() - 1 {
                assert(spec_walk_block_in_inliness(s, g)[k] == spec_walk_block_in_inliness(s.drop_last(), g)[k]);
                assert(s.drop_last()[k] == s[k]);
            }
        }
    }
}

/// A type-preserving rewrite keeps the length of a sibling sequence and the
/// position of every element: the element at `k` of the result is the
/// rewrite of the element at `k` of the input.
pub proof fn lemma_walk_block_elementwise_blocks(s: Seq<SpecBlock>, g: spec_fn(SpecBlock) -> SpecBlock)
    ensures
        spec_walk_block_in_blocks(s, g).len() == s.len(),
        forall|k: int| 0 <= k < s.len() ==> (#[trigger] spec_walk_block_in_blocks(s, g)[k]) == spec_walk_block(s[k], g),
    decreases s,
{
    if s.len() != 0 {
        lemma_walk_block_elementwise_blocks(s.drop_last(), g);
        assert forall|k: int| 0 <= k < s.len() implies (#[trigger] spec_walk_block_in_blocks(s, g)[k]) == spec_walk_block(s[k], g) by {
            if k < s.len() - 1 {
                assert(spec_walk_block_in_blocks(s, g)[k] == spec_walk_block_in_blocks(s.drop_last(), g)[k]);
                assert(s.drop_last()[k] == s[k]);
            }
        }
    }
}

/// A type-preserving rewrite keeps the length of a sibling sequence and the
/// position of every element: the element at `k` of the result is the
/// rewrite of the element at `k` of the input.
pub proof fn lemma_walk_block_elementwise_blockss(s: Seq<Seq<SpecBlock>>, g: spec_fn(SpecBlock) -> SpecBlock)
    ensures
        spec_walk_block_in_blockss(s, g).len() == s.len(),
        forall|k: int| 0 <= k < s.len() ==> (#[trigger] spec_walk_block_in_blockss(s, g)[k]) == spec_walk_block_in_blocks(s[k], g),
    decreases s,
{
    if s.len() != 0 {
        lemma_walk_block_elementwise_blockss(s.drop_last(), g);
        assert forall|k: int| 0 <= k < s.len() implies (#[trigger] spec_walk_block_in_blockss(s, g)[k]) == spec_walk_block_in_blocks(s[k], g) by {
            if k < s.len() - 1 {
                assert(spec_walk_block_in_blockss(s, g)[k] == spec_walk_block_in_blockss(s.drop_last(), g)[k]);
                assert(s.drop_last()[k] == s[k]);
            }
        }
    }
}

/// A type-preserving rewrite keeps the length of a sibling sequence and the
/// position of every element: the element at `k` of the result is the
/// rewrite of the element at `k` of the input.
pub proof fn lemma_walk_block_elementwise_defs(s: Seq<(Seq<SpecInline>, Seq<Seq<SpecBlock>>)>, g: spec_fn(SpecBlock) -> SpecBlock)
    ensures
        spec_walk_block_in_defs(s, g).len() == s.len(),
        forall|k: int| 0 <= k < s.len() ==> (#[trigger] spec_walk_block_in_defs(s, g)[k]) == (spec_walk_block_in_inlines(s[k].0, g), spec_walk_block_in_blockss(s[k].1, g)),
    decreases s,
{
    if s.len() != 0 {
        lemma_walk_block_elementwise_defs(s.drop_last(), g);
        assert forall|k: int| 0 <= k < s.len() implies (#[trigger] spec_walk_block_in_defs(s, g)[k]) == (spec_walk_block_in_inlines(s[k].0, g), spec_walk_block_in_blockss(s[k].1, g)) by {
            if k < s.len() - 1 {
                assert(spec_walk_block_in_defs(s, g)[k] == spec_walk_block_in_defs(s.drop_last(), g)[k]);
                assert(s.drop_last()[k] == s[k]);
            }
        }
    }
}

/// A type-preserving rewrite keeps the length of a sibling sequence and the
/// position of every element: the element at `k` of the result is the
/// rewrite of the element at `k` of the input.
pub proof fn lemma_walk_block_elementwise_citations(s: Seq<SpecCitation>, g: spec_fn(SpecBlock) -> SpecBlock)
    ensures
        spec_walk_block_in_citations(s, g).len() == s.len(),
        forall|k: int| 0 <= k < s.len() ==> (#[trigger] spec_walk_block_in_citations(s, g)[k]) == spec_walk_block_in_citation(s[k], g),
    decreases s,
{
    if s.len() != 0 {
        lemma_walk_block_elementwise_citations(s.drop_last(), g);
        assert forall|k: int| 0 <= k < s.len() implies (#[trigger] spec_walk_block_in_citations(s, g)[k]) == spec_walk_block_in_citation(s[k], g) by {
            if k < s.len() - 1 {
                assert(spec_walk_block_in_citations(s, g)[k] == spec_walk_block_in_citations(s.drop_last(), g)[k]);
                assert(s.drop_last()[k] == s[k]);
            }
        }
    }
}

/// A type-preserving rewrite keeps the length of a sibling sequence and the
/// position of every element: the element at `k` of the result is the
/// rewrite of the element at `k` of the input.
pub proof fn lemma_walk_block_elementwise_rows(s: Seq<SpecRow>, g: spec_fn(SpecBlock) -> SpecBlock)
    ensures
        spec_walk_block_in_rows(s, g).len() == s.len(),
        forall|k: int| 0 <= k < s.len() ==> (#[trigger] spec_walk_block_in_rows(s, g)[k]) == spec_walk_block_in_row(s[k], g),
    decreases s,
{
    if s.len() != 0 {
        lemma_walk_block_elementwise_rows(s.drop_last(), g);
        assert forall|k: int| 0 <= k < s.len() implies (#[trigger] spec_walk_block_in_rows(s, g)[k]) == spec_walk_block_in_row(s[k], g) by {
            if k < s.len() - 1 {
                assert(spec_walk_block_in_rows(s, g)[k] == spec_walk_block_in_rows(s.drop_last(), g)[k]);
                assert(s.drop_last()[k] == s[k]);
            }
        }
    }
}

/// A type-preserving rewrite keeps the length of a sibling sequence and the
/// position of every element: the element at `k` of the result is the
/// rewrite of the element at `k` of the input.
pub proof fn lemma_walk_block_elementwise_cells(s: Seq<SpecCell>, g: spec_fn(SpecBlock) -> SpecBlock)
    ensures
        spec_walk_block_in_cells(s, g).len() == s.len(),
        forall|k: int| 0 <= k < s.len() ==> (#[trigger] spec_walk_block_in_cells(s, g)[k]) == spec_walk_block_in_cell(s[k], g),
    decreases s,
{
    if s.len() != 0 {
        lemma_walk_block_elementwise_cells(s.drop_last(), g);
        assert forall|k: int| 0 <= k < s.len() implies (#[trigger] spec_walk_block_in_cells(s, g)[k]) == spec_walk_block_in_cell(s[k], g) by {
            if k < s.len() - 1 {
                assert(spec_walk_block_in_cells(s, g)[k] == spec_walk_block_in_cells(s.drop_last(), g)[k]);
                assert(s.drop_last()[k] == s[k]);
            }
        }
    }
}

/// A type-preserving rewrite keeps the length of a sibling sequence and the
/// position of every element: the element at `k` of the result is the
/// rewrite of the element at `k` of the input.
pub proof fn lemma_walk_block_elementwise_bodies(s: Seq<SpecTableBody>, g: spec_fn(SpecBlock) -> SpecBlock)
    ensures
        spec_walk_block_in_bodies(s, g).len() == s.len(),
        forall|k: int| 0 <= k < s.len() ==> (#[trigger] spec_walk_block_in_bodies(s, g)[k]) == spec_walk_block_in_body(s[k], g),
    decreases s,
{
    if s.len() != 0 {
        lemma_walk_block_elementwise_bodies(s.drop_last(), g);
        assert forall|k: int| 0 <= k < s.len() implies (#[trigger] spec_walk_block_in_bodies(s, g)[k]) == spec_walk_block_in_body(s[k], g) by {
            if k < s.len() - 1 {
                assert(spec_walk_block_in_bodies(s, g)[k] == spec_walk_block_in_bodies(s.drop_last(), g)[k]);
                assert(s.drop_last()[k] == s[k]);
            }
        }
    }
}

/// A type-preserving rewrite keeps the length of a sibling sequence and the
/// position of every element: the element at `k` of the result is the
/// rewrite of the element at `k` of the input.
pub proof fn lemma_walk_block_elementwise_meta_values(s: Seq<SpecMetaValue>, g: spec_fn(SpecBlock) -> SpecBlock)
    ensures
        spec_walk_block_in_meta_values(s, g).len() == s.len(),
        forall|k: int| 0 <= k < s.len() ==> (#[trigger] spec_walk_block_in_meta_values(s, g)[k]) == spec_walk_block_in_meta_value(s[k], g),
    decreases s,
{
    if s.len() != 0 {
        lemma_walk_block_elementwise_meta_values(s.drop_last(), g);
        assert forall|k: int| 0 <= k < s.len() implies (#[trigger] spec_walk_block_in_meta_values(s, g)[k]) == spec_walk_block_in_meta_value(s[k], g) by {
            if k < s.len() - 1 {
                assert(spec_walk_block_in_meta_values(s, g)[k] == spec_walk_block_in_meta_values(s.drop_last(), g)[k]);
                assert(s.drop_last()[k] == s[k]);
            }
        }
    }
}

/// A type-preserving rewrite keeps the length of a sibling sequence and the
/// position of every element: the element at `k` of the result is the
/// rewrite of the element at `k` of the input.
pub proof fn lemma_walk_block_elementwise_meta(s: SpecMeta, g: spec_fn(SpecBlock) -> SpecBlock)
    ensures
        spec_walk_block_in_meta(s, g).len() == s.len(),
        forall|k: int| 0 <= k < s.len() ==> (#[trigger] spec_walk_block_in_meta(s, g)[k]) == (s[k].0, spec_walk_block_in_meta_value(s[k].1, g)),
    decreases s,
{
    if s.len() != 0 {
        lemma_walk_block_elementwise_meta(s.drop_last(), g);
        assert forall|k: int| 0 <= k < s.len() implies (#[trigger] spec_walk_block_in_meta(s, g)[k]) == (s[k].0, spec_walk_block_in_meta_value(s[k].1, g)) by {
            if k < s.len() - 1 {
                assert(spec_walk_block_in_meta(s, g)[k] == spec_walk_block_in_meta(s.drop_last(), g)[k]);
                assert(s.drop_last()[k] == s[k]);
            }
        }
    }
}

/// A type-preserving rewrite never touches metadata keys or their order;
/// in particular it preserves the lexicographic sortedness that conforming
/// producers maintain.
pub proof fn lemma_walk_block_meta_keys_preserved(m: SpecMeta, g: spec_fn(SpecBlock) -> SpecBlock)
    ensures
        spec_walk_block_in_meta(m, g).len() == m.len(),
        forall|k: int| 0 <= k < m.len() ==> (#[trigger] spec_walk_block_in_meta(m, g)[k]).0 == m[k].0,
        spec_meta_sorted(m) ==> spec_meta_sorted(spec_walk_block_in_meta(m, g)),
{
    lemma_walk_block_elementwise_meta(m, g);
    if spec_meta_sorted(m) {
        assert forall|i: int, j: int|
            0 <= i < j < spec_walk_block_in_meta(m, g).len() implies crate::model::spec_str_lt(
            spec_walk_block_in_meta(m, g)[i].0,
            spec_walk_block_in_meta(m, g)[j].0,
        ) by {
            assert(spec_walk_block_in_meta(m, g)[i].0 == m[i].0);
            assert(spec_walk_block_in_meta(m, g)[j].0 == m[j].0);
        }
    }
}

/// The metadata-targeting rewrite keeps the entry count, every key, and the
/// entry order: entry `k` of the argument handed to the caller's function
/// keeps key `m[k].0`, with only its value rewritten.
pub proof fn lemma_walk_meta_elementwise_entries(m: SpecMeta, g: spec_fn(SpecMeta) -> SpecMeta)
    ensures
        spec_walk_meta_entries(m, g).len() == m.len(),
        forall|k: int|
            0 <= k < m.len() ==> (#[trigger] spec_walk_meta_entries(m, g)[k]) == (
                m[k].0,
                spec_walk_meta_in_meta_value(m[k].1, g),
            ),
    decreases m,
{
    if m.len() != 0 {
        lemma_walk_meta_elementwise_entries(m.drop_last(), g);
        assert forall|k: int|
            0 <= k < m.len() implies (#[trigger] spec_walk_meta_entries(m, g)[k]) == (
            m[k].0,
            spec_walk_meta_in_meta_value(m[k].1, g),
        ) by {
            if k < m.len() - 1 {
                assert(spec_walk_meta_entries(m, g)[k] == spec_walk_meta_entries(m.drop_last(), g)[k]);
                assert(m.drop_last()[k] == m[k]);
            }
        }
    }
}

} // verus!

verus! {

/// Each element of a run as the caller's function receives it during a
/// splicing rewrite: fully rewritten, before the function is applied.
pub open spec fn rebuilt_inlines(
    s: Seq<SpecInline>,
    g: spec_fn(SpecInline) -> Seq<SpecInline>,
) -> Seq<SpecInline>
    decreases s,
{
    if s.len() == 0 {
        Seq::empty()
    } else {
        rebuilt_inlines(s.drop_last(), g).push(spec_splice_inline_in_inline(s.last(), g))
    }
}

/// `s` with every occurrence of `tgt` removed; all other elements keep
/// their relative order.
pub open spec fn seq_without_inline(s: Seq<SpecInline>, tgt: SpecInline) -> Seq<SpecInline>
    decreases s,
{
    if s.len() == 0 {
        Seq::empty()
    } else if s.last() == tgt {
        seq_without_inline(s.drop_last(), tgt)
    } else {
        seq_without_inline(s.drop_last(), tgt).push(s.last())
    }
}

/// How often `tgt` occurs in `s`.
pub open spec fn count_inline(s: Seq<SpecInline>, tgt: SpecInline) -> nat
    decreases s,
{
    if s.len() == 0 {
        0
    } else {
        count_inline(s.drop_last(), tgt) + (if s.last() == tgt { 1nat } else { 0nat })
    }
}

/// Removing a node by splicing: a function that maps one specific
/// text-level node to the empty sequence and every other node to itself
/// yields, for any run, exactly the rewritten elements with the target's
/// occurrences removed — subsequent siblings shift into their places.
pub proof fn lemma_splice_inline_removes(
    s: Seq<SpecInline>,
    g: spec_fn(SpecInline) -> Seq<SpecInline>,
    tgt: SpecInline,
)
    requires
        forall|n: SpecInline|
            #[trigger] g(n) == if n == tgt {
                Seq::<SpecInline>::empty()
            } else {
                seq![n]
            },
    ensures
        spec_splice_inline_in_inlines(s, g) == seq_without_inline(rebuilt_inlines(s, g), tgt),
    decreases s,
{
    if s.len() == 0 {
        assert(spec_splice_inline_in_inlines(s, g) =~= seq_without_inline(
            rebuilt_inlines(s, g),
            tgt,
        ));
    } else {
        lemma_splice_inline_removes(s.drop_last(), g, tgt);
        assert(rebuilt_inlines(s, g).drop_last() =~= rebuilt_inlines(s.drop_last(), g));
        assert(spec_splice_inline_in_inlines(s, g) =~= seq_without_inline(
            rebuilt_inlines(s, g),
            tgt,
        ));
    }
}

/// Removal changes the length by exactly the number of occurrences.
pub proof fn lemma_seq_without_inline_len(s: Seq<SpecInline>, tgt: SpecInline)
    ensures
        seq_without_inline(s, tgt).len() == s.len() - count_inline(s, tgt),
        count_inline(s, tgt) <= s.len(),
    decreases s,
{
    if s.len() != 0 {
        lemma_seq_without_inline_len(s.drop_last(), tgt);
    }
}

/// Each element of a sequence of structural nodes as the caller's function
/// receives it during a splicing rewrite.
pub open spec fn rebuilt_blocks(
    s: Seq<SpecBlock>,
    g: spec_fn(SpecBlock) -> Seq<SpecBlock>,
) -> Seq<SpecBlock>
    decreases s,
{
    if s.len() == 0 {
        Seq::empty()
    } else {
        rebuilt_blocks(s.drop_last(), g).push(spec_splice_block_in_block(s.last(), g))
    }
}

/// `s` with every occurrence of `tgt` doubled in place; all other elements
/// keep their relative order.
pub open spec fn seq_with_double_block(s: Seq<SpecBlock>, tgt: SpecBlock) -> Seq<SpecBlock>
    decreases s,
{
    if s.len() == 0 {
        Seq::empty()
    } else if s.last() == tgt {
        seq_with_double_block(s.drop_last(), tgt).push(s.last()).push(s.last())
    } else {
        seq_with_double_block(s.drop_last(), tgt).push(s.last())
    }
}

/// How often `tgt` occurs in `s`.
pub open spec fn count_block(s: Seq<SpecBlock>, tgt: SpecBlock) -> nat
    decreases s,
{
    if s.len() == 0 {
        0
    } else {
        count_block(s.drop_last(), tgt) + (if s.last() == tgt { 1nat } else { 0nat })
    }
}

/// Fanning a node out by splicing: a function that maps one specific
/// structural node to two copies of itself and every other node to itself
/// yields, for any sibling sequence, exactly the rewritten elements with
/// the target's occurrences doubled in place — sibling count grows by one
/// per occurrence and all other siblings keep their relative order.
pub proof fn lemma_splice_block_doubles(
    s: Seq<SpecBlock>,
    g: spec_fn(SpecBlock) -> Seq<SpecBlock>,
    tgt: SpecBlock,
)
    requires
        forall|n: SpecBlock|
            #[trigger] g(n) == if n == tgt {
                seq![n, n]
            } else {
                seq![n]
            },
    ensures
        spec_splice_block_in_blocks(s, g) == seq_with_double_block(rebuilt_blocks(s, g), tgt),
    decreases s,
{
    if s.len() == 0 {
        assert(spec_splice_block_in_blocks(s, g) =~= seq_with_double_block(
            rebuilt_blocks(s, g),
            tgt,
        ));
    } else {
        lemma_splice_block_doubles(s.drop_last(), g, tgt);
        assert(rebuilt_blocks(s, g).drop_last() =~= rebuilt_blocks(s.drop_last(), g));
        assert(spec_splice_block_in_blocks(s, g) =~= seq_with_double_block(
            rebuilt_blocks(s, g),
            tgt,
        ));
    }
}

/// Doubling changes the length by exactly the number of occurrences.
pub proof fn lemma_seq_with_double_block_len(s: Seq<SpecBlock>, tgt: SpecBlock)
    ensures
        seq_with_double_block(s, tgt).len() == s.len() + count_block(s, tgt),
    decreases s,
{
    if s.len() != 0 {
        lemma_seq_with_double_block_len(s.drop_last(), tgt);
    }
}

} // verus!
