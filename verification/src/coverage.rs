//! Coverage and postorder of the text-level-node rewrite.
//!
//! [`inline_nodes_in_pandoc`] and its companions enumerate, independently of
//! any rewrite, every text-level node of a value in postorder: for each node,
//! everything in every child position first — including positions nested in
//! metadata, list items, table sections, captions, footnotes and citation
//! prefixes/suffixes — and the node itself last. [`inline_trace_in_pandoc`]
//! and its companions give the sequence of arguments the rewrite hands to
//! the caller's function, in invocation order. The postorder theorem
//! ([`lemma_inline_postorder_in_pandoc`]) states that the two coincide:
//! the function is invoked exactly once per enumerated occurrence, in
//! enumeration order, each time on the node's rebuilt form — so no child
//! position is ever skipped, and every descendant of a node is handed to
//! the function strictly before the node itself.
use vstd::prelude::*;
use crate::model::{
    SpecBlock, SpecCaption, SpecCell, SpecCitation, SpecInline, SpecMeta, SpecMetaValue,
    SpecPandoc, SpecRow, SpecTableBody, SpecTableFoot, SpecTableHead,
};
use crate::walk_inline::spec_rebuild_inline;

verus! {

/// Every text-level node within one text-level node, in postorder: the
/// node's own entry comes last, after all entries of its children.
pub open spec fn inline_nodes_in_inline(x: SpecInline) -> Seq<SpecInline>
    decreases x,
{
    (match x {
        SpecInline::Emph(ils) => inline_nodes_in_inlines(ils),
        SpecInline::Underline(ils) => inline_nodes_in_inlines(ils),
        SpecInline::Strong(ils) => inline_nodes_in_inlines(ils),
        SpecInline::Strikeout(ils) => inline_nodes_in_inlines(ils),
        SpecInline::Superscript(ils) => inline_nodes_in_inlines(ils),
        SpecInline::Subscript(ils) => inline_nodes_in_inlines(ils),
        SpecInline::SmallCaps(ils) => inline_nodes_in_inlines(ils),
        SpecInline::Quoted(_q, ils) => inline_nodes_in_inlines(ils),
        SpecInline::Cite(cits, ils) => inline_nodes_in_citations(cits)
            + inline_nodes_in_inlines(ils),
        SpecInline::Link(_a, ils, _t) => inline_nodes_in_inlines(ils),
        SpecInline::Image(_a, ils, _t) => inline_nodes_in_inlines(ils),
        SpecInline::Note(bs) => inline_nodes_in_blocks(bs),
        SpecInline::Span(_a, ils) => inline_nodes_in_inlines(ils),
        _ => Seq::empty(),
    }).push(x)
}

/// Every text-level node within a run, in postorder.
pub open spec fn inline_nodes_in_inlines(s: Seq<SpecInline>) -> Seq<SpecInline>
    decreases s,
{
    if s.len() == 0 {
        Seq::empty()
    } else {
        inline_nodes_in_inlines(s.drop_last()) + inline_nodes_in_inline(s.last())
    }
}

/// Every text-level node within a sequence of runs, in postorder.
pub open spec fn inline_nodes_in_inliness(s: Seq<Seq<SpecInline>>) -> Seq<SpecInline>
    decreases s,
{
    if s.len() == 0 {
        Seq::empty()
    } else {
        inline_nodes_in_inliness(s.drop_last()) + inline_nodes_in_inlines(s.last())
    }
}

/// Every text-level node within one structural node, in postorder.
pub open spec fn inline_nodes_in_block(b: SpecBlock) -> Seq<SpecInline>
    decreases b,
{
    match b {
        SpecBlock::Plain(ils) => inline_nodes_in_inlines(ils),
        SpecBlock::Para(ils) => inline_nodes_in_inlines(ils),
        SpecBlock::LineBlock(ilss) => inline_nodes_in_inliness(ilss),
        SpecBlock::BlockQuote(bs) => inline_nodes_in_blocks(bs),
        SpecBlock::OrderedList(_la, bss) => inline_nodes_in_blockss(bss),
        SpecBlock::BulletList(bss) => inline_nodes_in_blockss(bss),
        SpecBlock::DefinitionList(defs) => inline_nodes_in_defs(defs),
        SpecBlock::Header(_lvl, _a, ils) => inline_nodes_in_inlines(ils),
        SpecBlock::Table(_a, c, _cs, h, bs, ft) => inline_nodes_in_caption(c)
            + inline_nodes_in_head(h) + inline_nodes_in_bodies(bs) + inline_nodes_in_foot(ft),
        SpecBlock::Div(_a, bs) => inline_nodes_in_blocks(bs),
        _ => Seq::empty(),
    }
}

/// Every text-level node within a sequence of structural nodes.
pub open spec fn inline_nodes_in_blocks(s: Seq<SpecBlock>) -> Seq<SpecInline>
    decreases s,
{
    if s.len() == 0 {
        Seq::empty()
    } else {
        inline_nodes_in_blocks(s.drop_last()) + inline_nodes_in_block(s.last())
    }
}

/// Every text-level node within a sequence of structural-node sequences.
pub open spec fn inline_nodes_in_blockss(s: Seq<Seq<SpecBlock>>) -> Seq<SpecInline>
    decreases s,
{
    if s.len() == 0 {
        Seq::empty()
    } else {
        inline_nodes_in_blockss(s.drop_last()) + inline_nodes_in_blocks(s.last())
    }
}

/// Every text-level node within a definition list's pairs.
pub open spec fn inline_nodes_in_defs(
    s: Seq<(Seq<SpecInline>, Seq<Seq<SpecBlock>>)>,
) -> Seq<SpecInline>
    decreases s,
{
    if s.len() == 0 {
        Seq::empty()
    } else {
        inline_nodes_in_defs(s.drop_last()) + (inline_nodes_in_inlines(s.last().0)
            + inline_nodes_in_blockss(s.last().1))
    }
}

/// Every text-level node within a caption.
pub open spec fn inline_nodes_in_caption(c: SpecCaption) -> Seq<SpecInline>
    decreases c,
{
    (match c.0 {
        Option::Some(sc) => inline_nodes_in_inlines(sc),
        Option::None => Seq::empty(),
    }) + inline_nodes_in_blocks(c.1)
}

/// Every text-level node within one citation record.
pub open spec fn inline_nodes_in_citation(c: SpecCitation) -> Seq<SpecInline>
    decreases c,
{
    inline_nodes_in_inlines(c.citation_prefix) + inline_nodes_in_inlines(c.citation_suffix)
}

/// Every text-level node within a sequence of citation records.
pub open spec fn inline_nodes_in_citations(s: Seq<SpecCitation>) -> Seq<SpecInline>
    decreases s,
{
    if s.len() == 0 {
        Seq::empty()
    } else {
        inline_nodes_in_citations(s.drop_last()) + inline_nodes_in_citation(s.last())
    }
}

/// Every text-level node within a table row.
pub open spec fn inline_nodes_in_row(r: SpecRow) -> Seq<SpecInline>
    decreases r,
{
    inline_nodes_in_cells(r.1)
}

/// Every text-level node within a sequence of table rows.
pub open spec fn inline_nodes_in_rows(s: Seq<SpecRow>) -> Seq<SpecInline>
    decreases s,
{
    if s.len() == 0 {
        Seq::empty()
    } else {
        inline_nodes_in_rows(s.drop_last()) + inline_nodes_in_row(s.last())
    }
}

/// Every text-level node within a table cell.
pub open spec fn inline_nodes_in_cell(c: SpecCell) -> Seq<SpecInline>
    decreases c,
{
    inline_nodes_in_blocks(c.4)
}

/// Every text-level node within a sequence of table cells.
pub open spec fn inline_nodes_in_cells(s: Seq<SpecCell>) -> Seq<SpecInline>
    decreases s,
{
    if s.len() == 0 {
        Seq::empty()
    } else {
        inline_nodes_in_cells(s.drop_last()) + inline_nodes_in_cell(s.last())
    }
}

/// Every text-level node within a table head.
pub open spec fn inline_nodes_in_head(h: SpecTableHead) -> Seq<SpecInline>
    decreases h,
{
    inline_nodes_in_rows(h.1)
}

/// Every text-level node within one table body.
pub open spec fn inline_nodes_in_body(b: SpecTableBody) -> Seq<SpecInline>
    decreases b,
{
    inline_nodes_in_rows(b.2) + inline_nodes_in_rows(b.3)
}

/// Every text-level node within a sequence of table bodies.
pub open spec fn inline_nodes_in_bodies(s: Seq<SpecTableBody>) -> Seq<SpecInline>
    decreases s,
{
    if s.len() == 0 {
        Seq::empty()
    } else {
        inline_nodes_in_bodies(s.drop_last()) + inline_nodes_in_body(s.last())
    }
}

/// Every text-level node within a table foot.
pub open spec fn inline_nodes_in_foot(ft: SpecTableFoot) -> Seq<SpecInline>
    decreases ft,
{
    inline_nodes_in_rows(ft.1)
}

/// Every text-level node within one metadata value.
pub open spec fn inline_nodes_in_meta_value(v: SpecMetaValue) -> Seq<SpecInline>
    decreases v,
{
    match v {
        SpecMetaValue::MetaMap(m) => inline_nodes_in_meta(m),
        SpecMetaValue::MetaList(vs) => inline_nodes_in_meta_values(vs),
        SpecMetaValue::MetaInlines(ils) => inline_nodes_in_inlines(ils),
        SpecMetaValue::MetaBlocks(bs) => inline_nodes_in_blocks(bs),
        _ => Seq::empty(),
    }
}

/// Every text-level node within a sequence of metadata values.
pub open spec fn inline_nodes_in_meta_values(s: Seq<SpecMetaValue>) -> Seq<SpecInline>
    decreases s,
{
    if s.len() == 0 {
        Seq::empty()
    } else {
        inline_nodes_in_meta_values(s.drop_last()) + inline_nodes_in_meta_value(s.last())
    }
}

/// Every text-level node within the metadata mapping.
pub open spec fn inline_nodes_in_meta(m: SpecMeta) -> Seq<SpecInline>
    decreases m,
{
    if m.len() == 0 {
        Seq::empty()
    } else {
        inline_nodes_in_meta(m.drop_last()) + inline_nodes_in_meta_value(m.last().1)
    }
}

/// Every text-level node of a whole document: first those in the metadata,
/// then those in the body.
pub open spec fn inline_nodes_in_pandoc(d: SpecPandoc) -> Seq<SpecInline>
    decreases d,
{
    inline_nodes_in_meta(d.meta) + inline_nodes_in_blocks(d.blocks)
}


/// The arguments handed to the caller's function within one text-level node, in invocation order:
/// the node's own invocation comes last, after those of its children.
pub open spec fn inline_trace_in_inline(x: SpecInline, g: spec_fn(SpecInline) -> SpecInline) -> Seq<SpecInline>
    decreases x,
{
    (match x {
        SpecInline::Emph(ils) => inline_trace_in_inlines(ils, g),
        SpecInline::Underline(ils) => inline_trace_in_inlines(ils, g),
        SpecInline::Strong(ils) => inline_trace_in_inlines(ils, g),
        SpecInline::Strikeout(ils) => inline_trace_in_inlines(ils, g),
        SpecInline::Superscript(ils) => inline_trace_in_inlines(ils, g),
        SpecInline::Subscript(ils) => inline_trace_in_inlines(ils, g),
        SpecInline::SmallCaps(ils) => inline_trace_in_inlines(ils, g),
        SpecInline::Quoted(_q, ils) => inline_trace_in_inlines(ils, g),
        SpecInline::Cite(cits, ils) => inline_trace_in_citations(cits, g)
            + inline_trace_in_inlines(ils, g),
        SpecInline::Link(_a, ils, _t) => inline_trace_in_inlines(ils, g),
        SpecInline::Image(_a, ils, _t) => inline_trace_in_inlines(ils, g),
        SpecInline::Note(bs) => inline_trace_in_blocks(bs, g),
        SpecInline::Span(_a, ils) => inline_trace_in_inlines(ils, g),
        _ => Seq::empty(),
    }).push(spec_rebuild_inline(x, g))
}

/// The arguments handed to the caller's function within a run, in invocation order.
pub open spec fn inline_trace_in_inlines(s: Seq<SpecInline>, g: spec_fn(SpecInline) -> SpecInline) -> Seq<SpecInline>
    decreases s,
{
    if s.len() == 0 {
        Seq::empty()
    } else {
        inline_trace_in_inlines(s.drop_last(), g) + inline_trace_in_inline(s.last(), g)
    }
}

/// The arguments handed to the caller's function within a sequence of runs, in invocation order.
pub open spec fn inline_trace_in_inliness(s: Seq<Seq<SpecInline>>, g: spec_fn(SpecInline) -> SpecInline) -> Seq<SpecInline>
    decreases s,
{
    if s.len() == 0 {
        Seq::empty()
    } else {
        inline_trace_in_inliness(s.drop_last(), g) + inline_trace_in_inlines(s.last(), g)
    }
}

/// The arguments handed to the caller's function within one structural node, in invocation order.
pub open spec fn inline_trace_in_block(b: SpecBlock, g: spec_fn(SpecInline) -> SpecInline) -> Seq<SpecInline>
    decreases b,
{
    match b {
        SpecBlock::Plain(ils) => inline_trace_in_inlines(ils, g),
        SpecBlock::Para(ils) => inline_trace_in_inlines(ils, g),
        SpecBlock::LineBlock(ilss) => inline_trace_in_inliness(ilss, g),
        SpecBlock::BlockQuote(bs) => inline_trace_in_blocks(bs, g),
        SpecBlock::OrderedList(_la, bss) => inline_trace_in_blockss(bss, g),
        SpecBlock::BulletList(bss) => inline_trace_in_blockss(bss, g),
        SpecBlock::DefinitionList(defs) => inline_trace_in_defs(defs, g),
        SpecBlock::Header(_lvl, _a, ils) => inline_trace_in_inlines(ils, g),
        SpecBlock::Table(_a, c, _cs, h, bs, ft) => inline_trace_in_caption(c, g)
            + inline_trace_in_head(h, g) + inline_trace_in_bodies(bs, g) + inline_trace_in_foot(ft, g),
        SpecBlock::Div(_a, bs) => inline_trace_in_blocks(bs, g),
        _ => Seq::empty(),
    }
}

/// The arguments handed to the caller's function within a sequence of structural nodes.
pub open spec fn inline_trace_in_blocks(s: Seq<SpecBlock>, g: spec_fn(SpecInline) -> SpecInline) -> Seq<SpecInline>
    decreases s,
{
    if s.len() == 0 {
        Seq::empty()
    } else {
        inline_trace_in_blocks(s.drop_last(), g) + inline_trace_in_block(s.last(), g)
    }
}

/// The arguments handed to the caller's function within a sequence of structural-node sequences.
pub open spec fn inline_trace_in_blockss(s: Seq<Seq<SpecBlock>>, g: spec_fn(SpecInline) -> SpecInline) -> Seq<SpecInline>
    decreases s,
{
    if s.len() == 0 {
        Seq::empty()
    } else {
        inline_trace_in_blockss(s.drop_last(), g) + inline_trace_in_blocks(s.last(), g)
    }
}

/// The arguments handed to the caller's function within a definition list's pairs.
pub open spec fn inline_trace_in_defs(
    s: Seq<(Seq<SpecInline>, Seq<Seq<SpecBlock>>)>,
    g: spec_fn(SpecInline) -> SpecInline,
) -> Seq<SpecInline>
    decreases s,
{
    if s.len() == 0 {
        Seq::empty()
    } else {
        inline_trace_in_defs(s.drop_last(), g) + (inline_trace_in_inlines(s.last().0, g)
            + inline_trace_in_blockss(s.last().1, g))
    }
}

/// The arguments handed to the caller's function within a caption.
pub open spec fn inline_trace_in_caption(c: SpecCaption, g: spec_fn(SpecInline) -> SpecInline) -> Seq<SpecInline>
    decreases c,
{
    (match c.0 {
        Option::Some(sc) => inline_trace_in_inlines(sc, g),
        Option::None => Seq::empty(),
    }) + inline_trace_in_blocks(c.1, g)
}

/// The arguments handed to the caller's function within one citation record.
pub open spec fn inline_trace_in_citation(c: SpecCitation, g: spec_fn(SpecInline) -> SpecInline) -> Seq<SpecInline>
    decreases c,
{
    inline_trace_in_inlines(c.citation_prefix, g) + inline_trace_in_inlines(c.citation_suffix, g)
}

/// The arguments handed to the caller's function within a sequence of citation records.
pub open spec fn inline_trace_in_citations(s: Seq<SpecCitation>, g: spec_fn(SpecInline) -> SpecInline) -> Seq<SpecInline>
    decreases s,
{
    if s.len() == 0 {
        Seq::empty()
    } else {
        inline_trace_in_citations(s.drop_last(), g) + inline_trace_in_citation(s.last(), g)
    }
}

/// The arguments handed to the caller's function within a table row.
pub open spec fn inline_trace_in_row(r: SpecRow, g: spec_fn(SpecInline) -> SpecInline) -> Seq<SpecInline>
    decreases r,
{
    inline_trace_in_cells(r.1, g)
}

/// The arguments handed to the caller's function within a sequence of table rows.
pub open spec fn inline_trace_in_rows(s: Seq<SpecRow>, g: spec_fn(SpecInline) -> SpecInline) -> Seq<SpecInline>
    decreases s,
{
    if s.len() == 0 {
        Seq::empty()
    } else {
        inline_trace_in_rows(s.drop_last(), g) + inline_trace_in_row(s.last(), g)
    }
}

/// The arguments handed to the caller's function within a table cell.
pub open spec fn inline_trace_in_cell(c: SpecCell, g: spec_fn(SpecInline) -> SpecInline) -> Seq<SpecInline>
    decreases c,
{
    inline_trace_in_blocks(c.4, g)
}

/// The arguments handed to the caller's function within a sequence of table cells.
pub open spec fn inline_trace_in_cells(s: Seq<SpecCell>, g: spec_fn(SpecInline) -> SpecInline) -> Seq<SpecInline>
    decreases s,
{
    if s.len() == 0 {
        Seq::empty()
    } else {
        inline_trace_in_cells(s.drop_last(), g) + inline_trace_in_cell(s.last(), g)
    }
}

/// The arguments handed to the caller's function within a table head.
pub open spec fn inline_trace_in_head(h: SpecTableHead, g: spec_fn(SpecInline) -> SpecInline) -> Seq<SpecInline>
    decreases h,
{
    inline_trace_in_rows(h.1, g)
}

/// The arguments handed to the caller's function within one table body.
pub open spec fn inline_trace_in_body(b: SpecTableBody, g: spec_fn(SpecInline) -> SpecInline) -> Seq<SpecInline>
    decreases b,
{
    inline_trace_in_rows(b.2, g) + inline_trace_in_rows(b.3, g)
}

/// The arguments handed to the caller's function within a sequence of table bodies.
pub open spec fn inline_trace_in_bodies(s: Seq<SpecTableBody>, g: spec_fn(SpecInline) -> SpecInline) -> Seq<SpecInline>
    decreases s,
{
    if s.len() == 0 {
        Seq::empty()
    } else {
        inline_trace_in_bodies(s.drop_last(), g) + inline_trace_in_body(s.last(), g)
    }
}

/// The arguments handed to the caller's function within a table foot.
pub open spec fn inline_trace_in_foot(ft: SpecTableFoot, g: spec_fn(SpecInline) -> SpecInline) -> Seq<SpecInline>
    decreases ft,
{
    inline_trace_in_rows(ft.1, g)
}

/// The arguments handed to the caller's function within one metadata value.
pub open spec fn inline_trace_in_meta_value(v: SpecMetaValue, g: spec_fn(SpecInline) -> SpecInline) -> Seq<SpecInline>
    decreases v,
{
    match v {
        SpecMetaValue::MetaMap(m) => inline_trace_in_meta(m, g),
        SpecMetaValue::MetaList(vs) => inline_trace_in_meta_values(vs, g),
        SpecMetaValue::MetaInlines(ils) => inline_trace_in_inlines(ils, g),
        SpecMetaValue::MetaBlocks(bs) => inline_trace_in_blocks(bs, g),
        _ => Seq::empty(),
    }
}

/// The arguments handed to the caller's function within a sequence of metadata values.
pub open spec fn inline_trace_in_meta_values(s: Seq<SpecMetaValue>, g: spec_fn(SpecInline) -> SpecInline) -> Seq<SpecInline>
    decreases s,
{
    if s.len() == 0 {
        Seq::empty()
    } else {
        inline_trace_in_meta_values(s.drop_last(), g) + inline_trace_in_meta_value(s.last(), g)
    }
}

/// The arguments handed to the caller's function within the metadata mapping.
pub open spec fn inline_trace_in_meta(m: SpecMeta, g: spec_fn(SpecInline) -> SpecInline) -> Seq<SpecInline>
    decreases m,
{
    if m.len() == 0 {
        Seq::empty()
    } else {
        inline_trace_in_meta(m.drop_last(), g) + inline_trace_in_meta_value(m.last().1, g)
    }
}

/// The arguments handed to the caller's function over a whole document,
/// in invocation order: first the metadata, then the body.
pub open spec fn inline_trace_in_pandoc(d: SpecPandoc, g: spec_fn(SpecInline) -> SpecInline) -> Seq<SpecInline>
    decreases d,
{
    inline_trace_in_meta(d.meta, g) + inline_trace_in_blocks(d.blocks, g)
}


/// Each enumerated node in its rebuilt form: the shape every invocation
/// argument takes.
pub open spec fn rebuilt_nodes(s: Seq<SpecInline>, g: spec_fn(SpecInline) -> SpecInline) -> Seq<
    SpecInline,
> {
    s.map_values(|n: SpecInline| spec_rebuild_inline(n, g))
}

pub proof fn lemma_rebuilt_nodes_empty(g: spec_fn(SpecInline) -> SpecInline)
    ensures
        rebuilt_nodes(Seq::empty(), g) == Seq::<SpecInline>::empty(),
{
    assert(rebuilt_nodes(Seq::empty(), g) =~= Seq::<SpecInline>::empty());
}

pub proof fn lemma_rebuilt_nodes_concat(
    a: Seq<SpecInline>,
    b: Seq<SpecInline>,
    g: spec_fn(SpecInline) -> SpecInline,
)
    ensures
        rebuilt_nodes(a + b, g) == rebuilt_nodes(a, g) + rebuilt_nodes(b, g),
{
    assert(rebuilt_nodes(a + b, g) =~= rebuilt_nodes(a, g) + rebuilt_nodes(b, g));
}

pub proof fn lemma_rebuilt_nodes_push(
    a: Seq<SpecInline>,
    x: SpecInline,
    g: spec_fn(SpecInline) -> SpecInline,
)
    ensures
        rebuilt_nodes(a.push(x), g) == rebuilt_nodes(a, g).push(spec_rebuild_inline(x, g)),
{
    assert(rebuilt_nodes(a.push(x), g) =~= rebuilt_nodes(a, g).push(spec_rebuild_inline(x, g)));
}

/// The node itself stands last in its own enumeration: everything in its
/// child positions is enumerated strictly before it.
pub proof fn lemma_inline_nodes_last(x: SpecInline)
    ensures
        inline_nodes_in_inline(x).len() >= 1,
        inline_nodes_in_inline(x).last() == x,
{
}

} // verus!

verus! {

/// The rewrite's invocations are exactly the postorder enumeration: one
/// invocation per enumerated node, in enumeration order, each on the
/// node's rebuilt form.
pub proof fn lemma_inline_postorder_in_inline(x: SpecInline, g: spec_fn(SpecInline) -> SpecInline)
    ensures
        inline_trace_in_inline(x, g) == rebuilt_nodes(inline_nodes_in_inline(x), g),
    decreases x,
{
    match x {
        SpecInline::Emph(ils) => {
            lemma_inline_postorder_in_inlines(ils, g);
            lemma_rebuilt_nodes_push(inline_nodes_in_inlines(ils), x, g);
        }
        SpecInline::Underline(ils) => {
            lemma_inline_postorder_in_inlines(ils, g);
            lemma_rebuilt_nodes_push(inline_nodes_in_inlines(ils), x, g);
        }
        SpecInline::Strong(ils) => {
            lemma_inline_postorder_in_inlines(ils, g);
            lemma_rebuilt_nodes_push(inline_nodes_in_inlines(ils), x, g);
        }
        SpecInline::Strikeout(ils) => {
            lemma_inline_postorder_in_inlines(ils, g);
            lemma_rebuilt_nodes_push(inline_nodes_in_inlines(ils), x, g);
        }
        SpecInline::Superscript(ils) => {
            lemma_inline_postorder_in_inlines(ils, g);
            lemma_rebuilt_nodes_push(inline_nodes_in_inlines(ils), x, g);
        }
        SpecInline::Subscript(ils) => {
            lemma_inline_postorder_in_inlines(ils, g);
            lemma_rebuilt_nodes_push(inline_nodes_in_inlines(ils), x, g);
        }
        SpecInline::SmallCaps(ils) => {
            lemma_inline_postorder_in_inlines(ils, g);
            lemma_rebuilt_nodes_push(inline_nodes_in_inlines(ils), x, g);
        }
        SpecInline::Quoted(_q, ils) => {
            lemma_inline_postorder_in_inlines(ils, g);
            lemma_rebuilt_nodes_push(inline_nodes_in_inlines(ils), x, g);
        }
        SpecInline::Cite(cits, ils) => {
            lemma_inline_postorder_in_citations(cits, g);
            lemma_inline_postorder_in_inlines(ils, g);
            lemma_rebuilt_nodes_concat(
                inline_nodes_in_citations(cits),
                inline_nodes_in_inlines(ils),
                g,
            );
            lemma_rebuilt_nodes_push(
                inline_nodes_in_citations(cits) + inline_nodes_in_inlines(ils),
                x,
                g,
            );
        }
        SpecInline::Link(_a, ils, _t) => {
            lemma_inline_postorder_in_inlines(ils, g);
            lemma_rebuilt_nodes_push(inline_nodes_in_inlines(ils), x, g);
        }
        SpecInline::Image(_a, ils, _t) => {
            lemma_inline_postorder_in_inlines(ils, g);
            lemma_rebuilt_nodes_push(inline_nodes_in_inlines(ils), x, g);
        }
        SpecInline::Note(bs) => {
            lemma_inline_postorder_in_blocks(bs, g);
            lemma_rebuilt_nodes_push(inline_nodes_in_blocks(bs), x, g);
        }
        SpecInline::Span(_a, ils) => {
            lemma_inline_postorder_in_inlines(ils, g);
            lemma_rebuilt_nodes_push(inline_nodes_in_inlines(ils), x, g);
        }
        _ => {
            lemma_rebuilt_nodes_empty(g);
            lemma_rebuilt_nodes_push(Seq::empty(), x, g);
        }
    }
}

/// The rewrite's invocations are exactly the postorder enumeration: one
/// invocation per enumerated node, in enumeration order, each on the
/// node's rebuilt form.
pub proof fn lemma_inline_postorder_in_block(b: SpecBlock, g: spec_fn(SpecInline) -> SpecInline)
    ensures
        inline_trace_in_block(b, g) == rebuilt_nodes(inline_nodes_in_block(b), g),
    decreases b,
{
    match b {
        SpecBlock::Plain(ils) => lemma_inline_postorder_in_inlines(ils, g),
        SpecBlock::Para(ils) => lemma_inline_postorder_in_inlines(ils, g),
        SpecBlock::LineBlock(ilss) => lemma_inline_postorder_in_inliness(ilss, g),
        SpecBlock::BlockQuote(bs) => lemma_inline_postorder_in_blocks(bs, g),
        SpecBlock::OrderedList(_la, bss) => lemma_inline_postorder_in_blockss(bss, g),
        SpecBlock::BulletList(bss) => lemma_inline_postorder_in_blockss(bss, g),
        SpecBlock::DefinitionList(defs) => lemma_inline_postorder_in_defs(defs, g),
        SpecBlock::Header(_lvl, _a, ils) => lemma_inline_postorder_in_inlines(ils, g),
        SpecBlock::Table(_a, c, _cs, h, bs, ft) => {
            lemma_inline_postorder_in_caption(c, g);
            lemma_inline_postorder_in_head(h, g);
            lemma_inline_postorder_in_bodies(bs, g);
            lemma_inline_postorder_in_foot(ft, g);
            lemma_rebuilt_nodes_concat(inline_nodes_in_caption(c), inline_nodes_in_head(h), g);
            lemma_rebuilt_nodes_concat(
                inline_nodes_in_caption(c) + inline_nodes_in_head(h),
                inline_nodes_in_bodies(bs),
                g,
            );
            lemma_rebuilt_nodes_concat(
                inline_nodes_in_caption(c) + inline_nodes_in_head(h) + inline_nodes_in_bodies(bs),
                inline_nodes_in_foot(ft),
                g,
            );
        }
        SpecBlock::Div(_a, bs) => lemma_inline_postorder_in_blocks(bs, g),
        _ => lemma_rebuilt_nodes_empty(g),
    }
}

/// The rewrite's invocations are exactly the postorder enumeration: one
/// invocation per enumerated node, in enumeration order, each on the
/// node's rebuilt form.
pub proof fn lemma_inline_postorder_in_inlines(s: Seq<SpecInline>, g: spec_fn(SpecInline) -> SpecInline)
    ensures
        inline_trace_in_inlines(s, g) == rebuilt_nodes(inline_nodes_in_inlines(s), g),
    decreases s,
{
    if s.len() == 0 {
        lemma_rebuilt_nodes_empty(g);
    } else {
        lemma_inline_postorder_in_inlines(s.drop_last(), g);
        lemma_inline_postorder_in_inline(s.last(), g);
        lemma_rebuilt_nodes_concat(inline_nodes_in_inlines(s.drop_last()), inline_nodes_in_inline(s.last()), g);
    }
}

/// The rewrite's invocations are exactly the postorder enumeration: one
/// invocation per enumerated node, in enumeration order, each on the
/// node's rebuilt form.
pub proof fn lemma_inline_postorder_in_inliness(s: Seq<Seq<SpecInline>>, g: spec_fn(SpecInline) -> SpecInline)
    ensures
        inline_trace_in_inliness(s, g) == rebuilt_nodes(inline_nodes_in_inliness(s), g),
    decreases s,
{
    if s.len() == 0 {
        lemma_rebuilt_nodes_empty(g);
    } else {
        lemma_inline_postorder_in_inliness(s.drop_last(), g);
        lemma_inline_postorder_in_inlines(s.last(), g);
        lemma_rebuilt_nodes_concat(inline_nodes_in_inliness(s.drop_last()), inline_nodes_in_inlines(s.last()), g);
    }
}

/// The rewrite's invocations are exactly the postorder enumeration: one
/// invocation per enumerated node, in enumeration order, each on the
/// node's rebuilt form.
pub proof fn lemma_inline_postorder_in_blocks(s: Seq<SpecBlock>, g: spec_fn(SpecInline) -> SpecInline)
    ensures
        inline_trace_in_blocks(s, g) == rebuilt_nodes(inline_nodes_in_blocks(s), g),
    decreases s,
{
    if s.len() == 0 {
        lemma_rebuilt_nodes_empty(g);
    } else {
        lemma_inline_postorder_in_blocks(s.drop_last(), g);
        lemma_inline_postorder_in_block(s.last(), g);
        lemma_rebuilt_nodes_concat(inline_nodes_in_blocks(s.drop_last()), inline_nodes_in_block(s.last()), g);
    }
}

/// The rewrite's invocations are exactly the postorder enumeration: one
/// invocation per enumerated node, in enumeration order, each on the
/// node's rebuilt form.
pub proof fn lemma_inline_postorder_in_blockss(s: Seq<Seq<SpecBlock>>, g: spec_fn(SpecInline) -> SpecInline)
    ensures
        inline_trace_in_blockss(s, g) == rebuilt_nodes(inline_nodes_in_blockss(s), g),
    decreases s,
{
    if s.len() == 0 {
        lemma_rebuilt_nodes_empty(g);
    } else {
        lemma_inline_postorder_in_blockss(s.drop_last(), g);
        lemma_inline_postorder_in_blocks(s.last(), g);
        lemma_rebuilt_nodes_concat(inline_nodes_in_blockss(s.drop_last()), inline_nodes_in_blocks(s.last()), g);
    }
}

/// The rewrite's invocations are exactly the postorder enumeration: one
/// invocation per enumerated node, in enumeration order, each on the
/// node's rebuilt form.
pub proof fn lemma_inline_postorder_in_citations(s: Seq<SpecCitation>, g: spec_fn(SpecInline) -> SpecInline)
    ensures
        inline_trace_in_citations(s, g) == rebuilt_nodes(inline_nodes_in_citations(s), g),
    decreases s,
{
    if s.len() == 0 {
        lemma_rebuilt_nodes_empty(g);
    } else {
        lemma_inline_postorder_in_citations(s.drop_last(), g);
        lemma_inline_postorder_in_citation(s.last(), g);
        lemma_rebuilt_nodes_concat(inline_nodes_in_citations(s.drop_last()), inline_nodes_in_citation(s.last()), g);
    }
}

/// The rewrite's invocations are exactly the postorder enumeration: one
/// invocation per enumerated node, in enumeration order, each on the
/// node's rebuilt form.
pub proof fn lemma_inline_postorder_in_rows(s: Seq<SpecRow>, g: spec_fn(SpecInline) -> SpecInline)
    ensures
        inline_trace_in_rows(s, g) == rebuilt_nodes(inline_nodes_in_rows(s), g),
    decreases s,
{
    if s.len() == 0 {
        lemma_rebuilt_nodes_empty(g);
    } else {
        lemma_inline_postorder_in_rows(s.drop_last(), g);
        lemma_inline_postorder_in_row(s.last(), g);
        lemma_rebuilt_nodes_concat(inline_nodes_in_rows(s.drop_last()), inline_nodes_in_row(s.last()), g);
    }
}

/// The rewrite's invocations are exactly the postorder enumeration: one
/// invocation per enumerated node, in enumeration order, each on the
/// node's rebuilt form.
pub proof fn lemma_inline_postorder_in_cells(s: Seq<SpecCell>, g: spec_fn(SpecInline) -> SpecInline)
    ensures
        inline_trace_in_cells(s, g) == rebuilt_nodes(inline_nodes_in_cells(s), g),
    decreases s,
{
    if s.len() == 0 {
        lemma_rebuilt_nodes_empty(g);
    } else {
        lemma_inline_postorder_in_cells(s.drop_last(), g);
        lemma_inline_postorder_in_cell(s.last(), g);
        lemma_rebuilt_nodes_concat(inline_nodes_in_cells(s.drop_last()), inline_nodes_in_cell(s.last()), g);
    }
}

/// The rewrite's invocations are exactly the postorder enumeration: one
/// invocation per enumerated node, in enumeration order, each on the
/// node's rebuilt form.
pub proof fn lemma_inline_postorder_in_bodies(s: Seq<SpecTableBody>, g: spec_fn(SpecInline) -> SpecInline)
    ensures
        inline_trace_in_bodies(s, g) == rebuilt_nodes(inline_nodes_in_bodies(s), g),
    decreases s,
{
    if s.len() == 0 {
        lemma_rebuilt_nodes_empty(g);
    } else {
        lemma_inline_postorder_in_bodies(s.drop_last(), g);
        lemma_inline_postorder_in_body(s.last(), g);
        lemma_rebuilt_nodes_concat(inline_nodes_in_bodies(s.drop_last()), inline_nodes_in_body(s.last()), g);
    }
}

/// The rewrite's invocations are exactly the postorder enumeration: one
/// invocation per enumerated node, in enumeration order, each on the
/// node's rebuilt form.
pub proof fn lemma_inline_postorder_in_meta_values(s: Seq<SpecMetaValue>, g: spec_fn(SpecInline) -> SpecInline)
    ensures
        inline_trace_in_meta_values(s, g) == rebuilt_nodes(inline_nodes_in_meta_values(s), g),
    decreases s,
{
    if s.len() == 0 {
        lemma_rebuilt_nodes_empty(g);
    } else {
        lemma_inline_postorder_in_meta_values(s.drop_last(), g);
        lemma_inline_postorder_in_meta_value(s.last(), g);
        lemma_rebuilt_nodes_concat(inline_nodes_in_meta_values(s.drop_last()), inline_nodes_in_meta_value(s.last()), g);
    }
}

/// The rewrite's invocations are exactly the postorder enumeration: one
/// invocation per enumerated node, in enumeration order, each on the
/// node's rebuilt form.
pub proof fn lemma_inline_postorder_in_defs(s: Seq<(Seq<SpecInline>, Seq<Seq<SpecBlock>>)>, g: spec_fn(SpecInline) -> SpecInline)
    ensures
        inline_trace_in_defs(s, g) == rebuilt_nodes(inline_nodes_in_defs(s), g),
    decreases s,
{
    if s.len() == 0 {
        lemma_rebuilt_nodes_empty(g);
    } else {
        lemma_inline_postorder_in_defs(s.drop_last(), g);
        lemma_inline_postorder_in_inlines(s.last().0, g);
        lemma_inline_postorder_in_blockss(s.last().1, g);
        lemma_rebuilt_nodes_concat(
            inline_nodes_in_inlines(s.last().0),
            inline_nodes_in_blockss(s.last().1),
            g,
        );
        lemma_rebuilt_nodes_concat(
            inline_nodes_in_defs(s.drop_last()),
            inline_nodes_in_inlines(s.last().0) + inline_nodes_in_blockss(s.last().1),
            g,
        );
    }
}

/// The rewrite's invocations are exactly the postorder enumeration: one
/// invocation per enumerated node, in enumeration order, each on the
/// node's rebuilt form.
pub proof fn lemma_inline_postorder_in_meta(m: SpecMeta, g: spec_fn(SpecInline) -> SpecInline)
    ensures
        inline_trace_in_meta(m, g) == rebuilt_nodes(inline_nodes_in_meta(m), g),
    decreases m,
{
    if m.len() == 0 {
        lemma_rebuilt_nodes_empty(g);
    } else {
        lemma_inline_postorder_in_meta(m.drop_last(), g);
        lemma_inline_postorder_in_meta_value(m.last().1, g);
        lemma_rebuilt_nodes_concat(
            inline_nodes_in_meta(m.drop_last()),
            inline_nodes_in_meta_value(m.last().1),
            g,
        );
    }
}

/// The rewrite's invocations are exactly the postorder enumeration: one
/// invocation per enumerated node, in enumeration order, each on the
/// node's rebuilt form.
pub proof fn lemma_inline_postorder_in_caption(c: SpecCaption, g: spec_fn(SpecInline) -> SpecInline)
    ensures
        inline_trace_in_caption(c, g) == rebuilt_nodes(inline_nodes_in_caption(c), g),
    decreases c,
{
    match c.0 {
        Option::Some(sc) => {
            lemma_inline_postorder_in_inlines(sc, g);
            lemma_inline_postorder_in_blocks(c.1, g);
            lemma_rebuilt_nodes_concat(inline_nodes_in_inlines(sc), inline_nodes_in_blocks(c.1), g);
        }
        Option::None => {
            lemma_inline_postorder_in_blocks(c.1, g);
            lemma_rebuilt_nodes_empty(g);
            lemma_rebuilt_nodes_concat(Seq::empty(), inline_nodes_in_blocks(c.1), g);
        }
    }
}

/// The rewrite's invocations are exactly the postorder enumeration: one
/// invocation per enumerated node, in enumeration order, each on the
/// node's rebuilt form.
pub proof fn lemma_inline_postorder_in_citation(c: SpecCitation, g: spec_fn(SpecInline) -> SpecInline)
    ensures
        inline_trace_in_citation(c, g) == rebuilt_nodes(inline_nodes_in_citation(c), g),
    decreases c,
{
    lemma_inline_postorder_in_inlines(c.citation_prefix, g);
    lemma_inline_postorder_in_inlines(c.citation_suffix, g);
    lemma_rebuilt_nodes_concat(
        inline_nodes_in_inlines(c.citation_prefix),
        inline_nodes_in_inlines(c.citation_suffix),
        g,
    );
}

/// The rewrite's invocations are exactly the postorder enumeration: one
/// invocation per enumerated node, in enumeration order, each on the
/// node's rebuilt form.
pub proof fn lemma_inline_postorder_in_row(r: SpecRow, g: spec_fn(SpecInline) -> SpecInline)
    ensures
        inline_trace_in_row(r, g) == rebuilt_nodes(inline_nodes_in_row(r), g),
    decreases r,
{
    lemma_inline_postorder_in_cells(r.1, g);
}

/// The rewrite's invocations are exactly the postorder enumeration: one
/// invocation per enumerated node, in enumeration order, each on the
/// node's rebuilt form.
pub proof fn lemma_inline_postorder_in_cell(c: SpecCell, g: spec_fn(SpecInline) -> SpecInline)
    ensures
        inline_trace_in_cell(c, g) == rebuilt_nodes(inline_nodes_in_cell(c), g),
    decreases c,
{
    lemma_inline_postorder_in_blocks(c.4, g);
}

/// The rewrite's invocations are exactly the postorder enumeration: one
/// invocation per enumerated node, in enumeration order, each on the
/// node's rebuilt form.
pub proof fn lemma_inline_postorder_in_head(h: SpecTableHead, g: spec_fn(SpecInline) -> SpecInline)
    ensures
        inline_trace_in_head(h, g) == rebuilt_nodes(inline_nodes_in_head(h), g),
    decreases h,
{
    lemma_inline_postorder_in_rows(h.1, g);
}

/// The rewrite's invocations are exactly the postorder enumeration: one
/// invocation per enumerated node, in enumeration order, each on the
/// node's rebuilt form.
pub proof fn lemma_inline_postorder_in_body(b: SpecTableBody, g: spec_fn(SpecInline) -> SpecInline)
    ensures
        inline_trace_in_body(b, g) == rebuilt_nodes(inline_nodes_in_body(b), g),
    decreases b,
{
    lemma_inline_postorder_in_rows(b.2, g);
    lemma_inline_postorder_in_rows(b.3, g);
    lemma_rebuilt_nodes_concat(inline_nodes_in_rows(b.2), inline_nodes_in_rows(b.3), g);
}

/// The rewrite's invocations are exactly the postorder enumeration: one
/// invocation per enumerated node, in enumeration order, each on the
/// node's rebuilt form.
pub proof fn lemma_inline_postorder_in_foot(ft: SpecTableFoot, g: spec_fn(SpecInline) -> SpecInline)
    ensures
        inline_trace_in_foot(ft, g) == rebuilt_nodes(inline_nodes_in_foot(ft), g),
    decreases ft,
{
    lemma_inline_postorder_in_rows(ft.1, g);
}

/// The rewrite's invocations are exactly the postorder enumeration: one
/// invocation per enumerated node, in enumeration order, each on the
/// node's rebuilt form.
pub proof fn lemma_inline_postorder_in_meta_value(v: SpecMetaValue, g: spec_fn(SpecInline) -> SpecInline)
    ensures
        inline_trace_in_meta_value(v, g) == rebuilt_nodes(inline_nodes_in_meta_value(v), g),
    decreases v,
{
    match v {
        SpecMetaValue::MetaMap(m) => lemma_inline_postorder_in_meta(m, g),
        SpecMetaValue::MetaList(vs) => lemma_inline_postorder_in_meta_values(vs, g),
        SpecMetaValue::MetaInlines(ils) => lemma_inline_postorder_in_inlines(ils, g),
        SpecMetaValue::MetaBlocks(bs) => lemma_inline_postorder_in_blocks(bs, g),
        _ => lemma_rebuilt_nodes_empty(g),
    }
}

/// The rewrite's invocations are exactly the postorder enumeration: one
/// invocation per enumerated node, in enumeration order, each on the
/// node's rebuilt form.
pub proof fn lemma_inline_postorder_in_pandoc(d: SpecPandoc, g: spec_fn(SpecInline) -> SpecInline)
    ensures
        inline_trace_in_pandoc(d, g) == rebuilt_nodes(inline_nodes_in_pandoc(d), g),
    decreases d,
{
    lemma_inline_postorder_in_meta(d.meta, g);
    lemma_inline_postorder_in_blocks(d.blocks, g);
    lemma_rebuilt_nodes_concat(inline_nodes_in_meta(d.meta), inline_nodes_in_blocks(d.blocks), g);
}

/// Full coverage, counted: over a whole document the caller's function is
/// invoked exactly as many times as there are text-level nodes — zero
/// missed positions.
pub proof fn lemma_inline_coverage_count_in_pandoc(
    d: SpecPandoc,
    g: spec_fn(SpecInline) -> SpecInline,
)
    ensures
        inline_trace_in_pandoc(d, g).len() == inline_nodes_in_pandoc(d).len(),
{
    lemma_inline_postorder_in_pandoc(d, g);
}

} // verus!

verus! {

/// `y` is `x` itself or stands in one of `x`'s child positions, at any
/// depth.
pub open spec fn inline_occurs_in_inline(y: SpecInline, x: SpecInline) -> bool
    decreases x,
{
    ||| y == x
    ||| match x {
        SpecInline::Emph(ils) => inline_occurs_in_inlines(y, ils),
        SpecInline::Underline(ils) => inline_occurs_in_inlines(y, ils),
        SpecInline::Strong(ils) => inline_occurs_in_inlines(y, ils),
        SpecInline::Strikeout(ils) => inline_occurs_in_inlines(y, ils),
        SpecInline::Superscript(ils) => inline_occurs_in_inlines(y, ils),
        SpecInline::Subscript(ils) => inline_occurs_in_inlines(y, ils),
        SpecInline::SmallCaps(ils) => inline_occurs_in_inlines(y, ils),
        SpecInline::Quoted(_q, ils) => inline_occurs_in_inlines(y, ils),
        SpecInline::Cite(cits, ils) => inline_occurs_in_citations(y, cits)
            || inline_occurs_in_inlines(y, ils),
        SpecInline::Link(_a, ils, _t) => inline_occurs_in_inlines(y, ils),
        SpecInline::Image(_a, ils, _t) => inline_occurs_in_inlines(y, ils),
        SpecInline::Note(bs) => inline_occurs_in_blocks(y, bs),
        SpecInline::Span(_a, ils) => inline_occurs_in_inlines(y, ils),
        _ => false,
    }
}

/// `y` stands somewhere in one of the structural node's child positions.
pub open spec fn inline_occurs_in_block(y: SpecInline, b: SpecBlock) -> bool
    decreases b,
{
    match b {
        SpecBlock::Plain(ils) => inline_occurs_in_inlines(y, ils),
        SpecBlock::Para(ils) => inline_occurs_in_inlines(y, ils),
        SpecBlock::LineBlock(ilss) => inline_occurs_in_inliness(y, ilss),
        SpecBlock::BlockQuote(bs) => inline_occurs_in_blocks(y, bs),
        SpecBlock::OrderedList(_la, bss) => inline_occurs_in_blockss(y, bss),
        SpecBlock::BulletList(bss) => inline_occurs_in_blockss(y, bss),
        SpecBlock::DefinitionList(defs) => inline_occurs_in_defs(y, defs),
        SpecBlock::Header(_lvl, _a, ils) => inline_occurs_in_inlines(y, ils),
        SpecBlock::Table(_a, c, _cs, h, bs, ft) => inline_occurs_in_caption(y, c)
            || inline_occurs_in_head(y, h) || inline_occurs_in_bodies(y, bs)
            || inline_occurs_in_foot(y, ft),
        SpecBlock::Div(_a, bs) => inline_occurs_in_blocks(y, bs),
        _ => false,
    }
}

/// `y` stands somewhere within one of the elements.
pub open spec fn inline_occurs_in_inlines(y: SpecInline, s: Seq<SpecInline>) -> bool
    decreases s,
{
    s.len() > 0 && (inline_occurs_in_inlines(y, s.drop_last()) || inline_occurs_in_inline(
        y,
        s.last(),
    ))
}

/// `y` stands somewhere within one of the elements.
pub open spec fn inline_occurs_in_inliness(y: SpecInline, s: Seq<Seq<SpecInline>>) -> bool
    decreases s,
{
    s.len() > 0 && (inline_occurs_in_inliness(y, s.drop_last()) || inline_occurs_in_inlines(
        y,
        s.last(),
    ))
}

/// `y` stands somewhere within one of the elements.
pub open spec fn inline_occurs_in_blocks(y: SpecInline, s: Seq<SpecBlock>) -> bool
    decreases s,
{
    s.len() > 0 && (inline_occurs_in_blocks(y, s.drop_last()) || inline_occurs_in_block(
        y,
        s.last(),
    ))
}

/// `y` stands somewhere within one of the elements.
pub open spec fn inline_occurs_in_blockss(y: SpecInline, s: Seq<Seq<SpecBlock>>) -> bool
    decreases s,
{
    s.len() > 0 && (inline_occurs_in_blockss(y, s.drop_last()) || inline_occurs_in_blocks(
        y,
        s.last(),
    ))
}

/// `y` stands somewhere within one of the elements.
pub open spec fn inline_occurs_in_citations(y: SpecInline, s: Seq<SpecCitation>) -> bool
    decreases s,
{
    s.len() > 0 && (inline_occurs_in_citations(y, s.drop_last()) || inline_occurs_in_citation(
        y,
        s.last(),
    ))
}

/// `y` stands somewhere within one of the elements.
pub open spec fn inline_occurs_in_rows(y: SpecInline, s: Seq<SpecRow>) -> bool
    decreases s,
{
    s.len() > 0 && (inline_occurs_in_rows(y, s.drop_last()) || inline_occurs_in_row(
        y,
        s.last(),
    ))
}

/// `y` stands somewhere within one of the elements.
pub open spec fn inline_occurs_in_cells(y: SpecInline, s: Seq<SpecCell>) -> bool
    decreases s,
{
    s.len() > 0 && (inline_occurs_in_cells(y, s.drop_last()) || inline_occurs_in_cell(
        y,
        s.last(),
    ))
}

/// `y` stands somewhere within one of the elements.
pub open spec fn inline_occurs_in_bodies(y: SpecInline, s: Seq<SpecTableBody>) -> bool
    decreases s,
{
    s.len() > 0 && (inline_occurs_in_bodies(y, s.drop_last()) || inline_occurs_in_body(
        y,
        s.last(),
    ))
}

/// `y` stands somewhere within one of the elements.
pub open spec fn inline_occurs_in_meta_values(y: SpecInline, s: Seq<SpecMetaValue>) -> bool
    decreases s,
{
    s.len() > 0 && (inline_occurs_in_meta_values(y, s.drop_last()) || inline_occurs_in_meta_value(
        y,
        s.last(),
    ))
}

/// `y` stands somewhere within one of the pairs.
pub open spec fn inline_occurs_in_defs(
    y: SpecInline,
    s: Seq<(Seq<SpecInline>, Seq<Seq<SpecBlock>>)>,
) -> bool
    decreases s,
{
    s.len() > 0 && (inline_occurs_in_defs(y, s.drop_last()) || inline_occurs_in_inlines(
        y,
        s.last().0,
    ) || inline_occurs_in_blockss(y, s.last().1))
}

/// `y` stands somewhere in the caption.
pub open spec fn inline_occurs_in_caption(y: SpecInline, c: SpecCaption) -> bool
    decreases c,
{
    (match c.0 {
        Option::Some(sc) => inline_occurs_in_inlines(y, sc),
        Option::None => false,
    }) || inline_occurs_in_blocks(y, c.1)
}

/// `y` stands in the citation's prefix or suffix run.
pub open spec fn inline_occurs_in_citation(y: SpecInline, c: SpecCitation) -> bool
    decreases c,
{
    inline_occurs_in_inlines(y, c.citation_prefix) || inline_occurs_in_inlines(
        y,
        c.citation_suffix,
    )
}

/// `y` stands in one of the row's cells.
pub open spec fn inline_occurs_in_row(y: SpecInline, r: SpecRow) -> bool
    decreases r,
{
    inline_occurs_in_cells(y, r.1)
}

/// `y` stands in the cell's contents.
pub open spec fn inline_occurs_in_cell(y: SpecInline, c: SpecCell) -> bool
    decreases c,
{
    inline_occurs_in_blocks(y, c.4)
}

/// `y` stands in one of the head's rows.
pub open spec fn inline_occurs_in_head(y: SpecInline, h: SpecTableHead) -> bool
    decreases h,
{
    inline_occurs_in_rows(y, h.1)
}

/// `y` stands in one of the body's rows.
pub open spec fn inline_occurs_in_body(y: SpecInline, b: SpecTableBody) -> bool
    decreases b,
{
    inline_occurs_in_rows(y, b.2) || inline_occurs_in_rows(y, b.3)
}

/// `y` stands in one of the foot's rows.
pub open spec fn inline_occurs_in_foot(y: SpecInline, ft: SpecTableFoot) -> bool
    decreases ft,
{
    inline_occurs_in_rows(y, ft.1)
}

/// `y` stands somewhere in the metadata value.
pub open spec fn inline_occurs_in_meta_value(y: SpecInline, v: SpecMetaValue) -> bool
    decreases v,
{
    match v {
        SpecMetaValue::MetaMap(m) => inline_occurs_in_meta(y, m),
        SpecMetaValue::MetaList(vs) => inline_occurs_in_meta_values(y, vs),
        SpecMetaValue::MetaInlines(ils) => inline_occurs_in_inlines(y, ils),
        SpecMetaValue::MetaBlocks(bs) => inline_occurs_in_blocks(y, bs),
        _ => false,
    }
}

/// `y` stands somewhere in one of the mapping's values.
pub open spec fn inline_occurs_in_meta(y: SpecInline, m: SpecMeta) -> bool
    decreases m,
{
    m.len() > 0 && (inline_occurs_in_meta(y, m.drop_last()) || inline_occurs_in_meta_value(
        y,
        m.last().1,
    ))
}

/// `y` stands somewhere in the document's metadata or body.
pub open spec fn inline_occurs_in_pandoc(y: SpecInline, d: SpecPandoc) -> bool
    decreases d,
{
    inline_occurs_in_meta(y, d.meta) || inline_occurs_in_blocks(y, d.blocks)
}

pub proof fn lemma_contains_concat_left(a: Seq<SpecInline>, b: Seq<SpecInline>, e: SpecInline)
    requires
        a.contains(e),
    ensures
        (a + b).contains(e),
{
    let i = choose|i: int| 0 <= i < a.len() && a[i] == e;
    assert((a + b)[i] == e);
}

pub proof fn lemma_contains_concat_right(a: Seq<SpecInline>, b: Seq<SpecInline>, e: SpecInline)
    requires
        b.contains(e),
    ensures
        (a + b).contains(e),
{
    let i = choose|i: int| 0 <= i < b.len() && b[i] == e;
    assert((a + b)[a.len() + i] == e);
}

pub proof fn lemma_contains_push(a: Seq<SpecInline>, x: SpecInline, e: SpecInline)
    requires
        a.contains(e),
    ensures
        a.push(x).contains(e),
{
    let i = choose|i: int| 0 <= i < a.len() && a[i] == e;
    assert(a.push(x)[i] == e);
}

} // verus!

verus! {

/// Whatever occurs in a value is enumerated: the postorder enumeration
/// holds an entry for it.
pub proof fn lemma_inline_occurs_enumerated_in_inline(y: SpecInline, x: SpecInline)
    requires
        inline_occurs_in_inline(y, x),
    ensures
        inline_nodes_in_inline(x).contains(y),
    decreases x,
{
    if y == x {
        assert(inline_nodes_in_inline(x).last() == y);
    } else {
        match x {
            SpecInline::Emph(ils) => {
                lemma_inline_occurs_enumerated_in_inlines(y, ils);
                lemma_contains_push(inline_nodes_in_inlines(ils), x, y);
            }
            SpecInline::Underline(ils) => {
                lemma_inline_occurs_enumerated_in_inlines(y, ils);
                lemma_contains_push(inline_nodes_in_inlines(ils), x, y);
            }
            SpecInline::Strong(ils) => {
                lemma_inline_occurs_enumerated_in_inlines(y, ils);
                lemma_contains_push(inline_nodes_in_inlines(ils), x, y);
            }
            SpecInline::Strikeout(ils) => {
                lemma_inline_occurs_enumerated_in_inlines(y, ils);
                lemma_contains_push(inline_nodes_in_inlines(ils), x, y);
            }
            SpecInline::Superscript(ils) => {
                lemma_inline_occurs_enumerated_in_inlines(y, ils);
                lemma_contains_push(inline_nodes_in_inlines(ils), x, y);
            }
            SpecInline::Subscript(ils) => {
                lemma_inline_occurs_enumerated_in_inlines(y, ils);
                lemma_contains_push(inline_nodes_in_inlines(ils), x, y);
            }
            SpecInline::SmallCaps(ils) => {
                lemma_inline_occurs_enumerated_in_inlines(y, ils);
                lemma_contains_push(inline_nodes_in_inlines(ils), x, y);
            }
            SpecInline::Link(_a, ils, _t) => {
                lemma_inline_occurs_enumerated_in_inlines(y, ils);
                lemma_contains_push(inline_nodes_in_inlines(ils), x, y);
            }
            SpecInline::Image(_a, ils, _t) => {
                lemma_inline_occurs_enumerated_in_inlines(y, ils);
                lemma_contains_push(inline_nodes_in_inlines(ils), x, y);
            }
            SpecInline::Span(_a, ils) => {
                lemma_inline_occurs_enumerated_in_inlines(y, ils);
                lemma_contains_push(inline_nodes_in_inlines(ils), x, y);
            }
            SpecInline::Note(bs) => {
                lemma_inline_occurs_enumerated_in_blocks(y, bs);
                lemma_contains_push(inline_nodes_in_blocks(bs), x, y);
            }
            SpecInline::Quoted(_q, ils) => {
                lemma_inline_occurs_enumerated_in_inlines(y, ils);
                lemma_contains_push(inline_nodes_in_inlines(ils), x, y);
            }
            SpecInline::Cite(cits, ils) => {
                if inline_occurs_in_citations(y, cits) {
                    lemma_inline_occurs_enumerated_in_citations(y, cits);
                    lemma_contains_concat_left(
                        inline_nodes_in_citations(cits),
                        inline_nodes_in_inlines(ils),
                        y,
                    );
                } else {
                    lemma_inline_occurs_enumerated_in_inlines(y, ils);
                    lemma_contains_concat_right(
                        inline_nodes_in_citations(cits),
                        inline_nodes_in_inlines(ils),
                        y,
                    );
                }
                lemma_contains_push(
                    inline_nodes_in_citations(cits) + inline_nodes_in_inlines(ils),
                    x,
                    y,
                );
            }
            _ => {}
        }
    }
}

/// Whatever occurs in a value is enumerated: the postorder enumeration
/// holds an entry for it.
pub proof fn lemma_inline_occurs_enumerated_in_block(y: SpecInline, b: SpecBlock)
    requires
        inline_occurs_in_block(y, b),
    ensures
        inline_nodes_in_block(b).contains(y),
    decreases b,
{
    match b {
        SpecBlock::Plain(ils) => lemma_inline_occurs_enumerated_in_inlines(y, ils),
        SpecBlock::Para(ils) => lemma_inline_occurs_enumerated_in_inlines(y, ils),
        SpecBlock::LineBlock(ilss) => lemma_inline_occurs_enumerated_in_inliness(y, ilss),
        SpecBlock::BlockQuote(bs) => lemma_inline_occurs_enumerated_in_blocks(y, bs),
        SpecBlock::OrderedList(_la, bss) => lemma_inline_occurs_enumerated_in_blockss(y, bss),
        SpecBlock::BulletList(bss) => lemma_inline_occurs_enumerated_in_blockss(y, bss),
        SpecBlock::DefinitionList(defs) => lemma_inline_occurs_enumerated_in_defs(y, defs),
        SpecBlock::Header(_lvl, _a, ils) => lemma_inline_occurs_enumerated_in_inlines(y, ils),
        SpecBlock::Table(_a, c, _cs, h, bs, ft) => {
            let nc = inline_nodes_in_caption(c);
            let nh = inline_nodes_in_head(h);
            let nb = inline_nodes_in_bodies(bs);
            let nf = inline_nodes_in_foot(ft);
            if inline_occurs_in_caption(y, c) {
                lemma_inline_occurs_enumerated_in_caption(y, c);
                lemma_contains_concat_left(nc, nh, y);
                lemma_contains_concat_left(nc + nh, nb, y);
                lemma_contains_concat_left(nc + nh + nb, nf, y);
            } else if inline_occurs_in_head(y, h) {
                lemma_inline_occurs_enumerated_in_head(y, h);
                lemma_contains_concat_right(nc, nh, y);
                lemma_contains_concat_left(nc + nh, nb, y);
                lemma_contains_concat_left(nc + nh + nb, nf, y);
            } else if inline_occurs_in_bodies(y, bs) {
                lemma_inline_occurs_enumerated_in_bodies(y, bs);
                lemma_contains_concat_right(nc + nh, nb, y);
                lemma_contains_concat_left(nc + nh + nb, nf, y);
            } else {
                lemma_inline_occurs_enumerated_in_foot(y, ft);
                lemma_contains_concat_right(nc + nh + nb, nf, y);
            }
        }
        SpecBlock::Div(_a, bs) => lemma_inline_occurs_enumerated_in_blocks(y, bs),
        _ => {}
    }
}

/// Whatever occurs in a value is enumerated: the postorder enumeration
/// holds an entry for it.
pub proof fn lemma_inline_occurs_enumerated_in_inlines(y: SpecInline, s: Seq<SpecInline>)
    requires
        inline_occurs_in_inlines(y, s),
    ensures
        inline_nodes_in_inlines(s).contains(y),
    decreases s,
{
    if inline_occurs_in_inlines(y, s.drop_last()) {
        lemma_inline_occurs_enumerated_in_inlines(y, s.drop_last());
        lemma_contains_concat_left(inline_nodes_in_inlines(s.drop_last()), inline_nodes_in_inline(s.last()), y);
    } else {
        lemma_inline_occurs_enumerated_in_inline(y, s.last());
        lemma_contains_concat_right(inline_nodes_in_inlines(s.drop_last()), inline_nodes_in_inline(s.last()), y);
    }
}

/// Whatever occurs in a value is enumerated: the postorder enumeration
/// holds an entry for it.
pub proof fn lemma_inline_occurs_enumerated_in_inliness(y: SpecInline, s: Seq<Seq<SpecInline>>)
    requires
        inline_occurs_in_inliness(y, s),
    ensures
        inline_nodes_in_inliness(s).contains(y),
    decreases s,
{
    if inline_occurs_in_inliness(y, s.drop_last()) {
        lemma_inline_occurs_enumerated_in_inliness(y, s.drop_last());
        lemma_contains_concat_left(inline_nodes_in_inliness(s.drop_last()), inline_nodes_in_inlines(s.last()), y);
    } else {
        lemma_inline_occurs_enumerated_in_inlines(y, s.last());
        lemma_contains_concat_right(inline_nodes_in_inliness(s.drop_last()), inline_nodes_in_inlines(s.last()), y);
    }
}

/// Whatever occurs in a value is enumerated: the postorder enumeration
/// holds an entry for it.
pub proof fn lemma_inline_occurs_enumerated_in_blocks(y: SpecInline, s: Seq<SpecBlock>)
    requires
        inline_occurs_in_blocks(y, s),
    ensures
        inline_nodes_in_blocks(s).contains(y),
    decreases s,
{
    if inline_occurs_in_blocks(y, s.drop_last()) {
        lemma_inline_occurs_enumerated_in_blocks(y, s.drop_last());
        lemma_contains_concat_left(inline_nodes_in_blocks(s.drop_last()), inline_nodes_in_block(s.last()), y);
    } else {
        lemma_inline_occurs_enumerated_in_block(y, s.last());
        lemma_contains_concat_right(inline_nodes_in_blocks(s.drop_last()), inline_nodes_in_block(s.last()), y);
    }
}

/// Whatever occurs in a value is enumerated: the postorder enumeration
/// holds an entry for it.
pub proof fn lemma_inline_occurs_enumerated_in_blockss(y: SpecInline, s: Seq<Seq<SpecBlock>>)
    requires
        inline_occurs_in_blockss(y, s),
    ensures
        inline_nodes_in_blockss(s).contains(y),
    decreases s,
{
    if inline_occurs_in_blockss(y, s.drop_last()) {
        lemma_inline_occurs_enumerated_in_blockss(y, s.drop_last());
        lemma_contains_concat_left(inline_nodes_in_blockss(s.drop_last()), inline_nodes_in_blocks(s.last()), y);
    } else {
        lemma_inline_occurs_enumerated_in_blocks(y, s.last());
        lemma_contains_concat_right(inline_nodes_in_blockss(s.drop_last()), inline_nodes_in_blocks(s.last()), y);
    }
}

/// Whatever occurs in a value is enumerated: the postorder enumeration
/// holds an entry for it.
pub proof fn lemma_inline_occurs_enumerated_in_citations(y: SpecInline, s: Seq<SpecCitation>)
    requires
        inline_occurs_in_citations(y, s),
    ensures
        inline_nodes_in_citations(s).contains(y),
    decreases s,
{
    if inline_occurs_in_citations(y, s.drop_last()) {
        lemma_inline_occurs_enumerated_in_citations(y, s.drop_last());
        lemma_contains_concat_left(inline_nodes_in_citations(s.drop_last()), inline_nodes_in_citation(s.last()), y);
    } else {
        lemma_inline_occurs_enumerated_in_citation(y, s.last());
        lemma_contains_concat_right(inline_nodes_in_citations(s.drop_last()), inline_nodes_in_citation(s.last()), y);
    }
}

/// Whatever occurs in a value is enumerated: the postorder enumeration
/// holds an entry for it.
pub proof fn lemma_inline_occurs_enumerated_in_rows(y: SpecInline, s: Seq<SpecRow>)
    requires
        inline_occurs_in_rows(y, s),
    ensures
        inline_nodes_in_rows(s).contains(y),
    decreases s,
{
    if inline_occurs_in_rows(y, s.drop_last()) {
        lemma_inline_occurs_enumerated_in_rows(y, s.drop_last());
        lemma_contains_concat_left(inline_nodes_in_rows(s.drop_last()), inline_nodes_in_row(s.last()), y);
    } else {
        lemma_inline_occurs_enumerated_in_row(y, s.last());
        lemma_contains_concat_right(inline_nodes_in_rows(s.drop_last()), inline_nodes_in_row(s.last()), y);
    }
}

/// Whatever occurs in a value is enumerated: the postorder enumeration
/// holds an entry for it.
pub proof fn lemma_inline_occurs_enumerated_in_cells(y: SpecInline, s: Seq<SpecCell>)
    requires
        inline_occurs_in_cells(y, s),
    ensures
        inline_nodes_in_cells(s).contains(y),
    decreases s,
{
    if inline_occurs_in_cells(y, s.drop_last()) {
        lemma_inline_occurs_enumerated_in_cells(y, s.drop_last());
        lemma_contains_concat_left(inline_nodes_in_cells(s.drop_last()), inline_nodes_in_cell(s.last()), y);
    } else {
        lemma_inline_occurs_enumerated_in_cell(y, s.last());
        lemma_contains_concat_right(inline_nodes_in_cells(s.drop_last()), inline_nodes_in_cell(s.last()), y);
    }
}

/// Whatever occurs in a value is enumerated: the postorder enumeration
/// holds an entry for it.
pub proof fn lemma_inline_occurs_enumerated_in_bodies(y: SpecInline, s: Seq<SpecTableBody>)
    requires
        inline_occurs_in_bodies(y, s),
    ensures
        inline_nodes_in_bodies(s).contains(y),
    decreases s,
{
    if inline_occurs_in_bodies(y, s.drop_last()) {
        lemma_inline_occurs_enumerated_in_bodies(y, s.drop_last());
        lemma_contains_concat_left(inline_nodes_in_bodies(s.drop_last()), inline_nodes_in_body(s.last()), y);
    } else {
        lemma_inline_occurs_enumerated_in_body(y, s.last());
        lemma_contains_concat_right(inline_nodes_in_bodies(s.drop_last()), inline_nodes_in_body(s.last()), y);
    }
}

/// Whatever occurs in a value is enumerated: the postorder enumeration
/// holds an entry for it.
pub proof fn lemma_inline_occurs_enumerated_in_meta_values(y: SpecInline, s: Seq<SpecMetaValue>)
    requires
        inline_occurs_in_meta_values(y, s),
    ensures
        inline_nodes_in_meta_values(s).contains(y),
    decreases s,
{
    if inline_occurs_in_meta_values(y, s.drop_last()) {
        lemma_inline_occurs_enumerated_in_meta_values(y, s.drop_last());
        lemma_contains_concat_left(inline_nodes_in_meta_values(s.drop_last()), inline_nodes_in_meta_value(s.last()), y);
    } else {
        lemma_inline_occurs_enumerated_in_meta_value(y, s.last());
        lemma_contains_concat_right(inline_nodes_in_meta_values(s.drop_last()), inline_nodes_in_meta_value(s.last()), y);
    }
}

/// Whatever occurs in a value is enumerated: the postorder enumeration
/// holds an entry for it.
pub proof fn lemma_inline_occurs_enumerated_in_defs(y: SpecInline, s: Seq<(Seq<SpecInline>, Seq<Seq<SpecBlock>>)>)
    requires
        inline_occurs_in_defs(y, s),
    ensures
        inline_nodes_in_defs(s).contains(y),
    decreases s,
{
    let inner = inline_nodes_in_inlines(s.last().0) + inline_nodes_in_blockss(s.last().1);
    if inline_occurs_in_defs(y, s.drop_last()) {
        lemma_inline_occurs_enumerated_in_defs(y, s.drop_last());
        lemma_contains_concat_left(inline_nodes_in_defs(s.drop_last()), inner, y);
    } else {
        if inline_occurs_in_inlines(y, s.last().0) {
            lemma_inline_occurs_enumerated_in_inlines(y, s.last().0);
            lemma_contains_concat_left(
                inline_nodes_in_inlines(s.last().0),
                inline_nodes_in_blockss(s.last().1),
                y,
            );
        } else {
            lemma_inline_occurs_enumerated_in_blockss(y, s.last().1);
            lemma_contains_concat_right(
                inline_nodes_in_inlines(s.last().0),
                inline_nodes_in_blockss(s.last().1),
                y,
            );
        }
        lemma_contains_concat_right(inline_nodes_in_defs(s.drop_last()), inner, y);
    }
}

/// Whatever occurs in a value is enumerated: the postorder enumeration
/// holds an entry for it.
pub proof fn lemma_inline_occurs_enumerated_in_caption(y: SpecInline, c: SpecCaption)
    requires
        inline_occurs_in_caption(y, c),
    ensures
        inline_nodes_in_caption(c).contains(y),
    decreases c,
{
    let short = match c.0 {
        Option::Some(sc) => inline_nodes_in_inlines(sc),
        Option::None => Seq::empty(),
    };
    match c.0 {
        Option::Some(sc) => {
            if inline_occurs_in_inlines(y, sc) {
                lemma_inline_occurs_enumerated_in_inlines(y, sc);
                lemma_contains_concat_left(short, inline_nodes_in_blocks(c.1), y);
            } else {
                lemma_inline_occurs_enumerated_in_blocks(y, c.1);
                lemma_contains_concat_right(short, inline_nodes_in_blocks(c.1), y);
            }
        }
        Option::None => {
            lemma_inline_occurs_enumerated_in_blocks(y, c.1);
            lemma_contains_concat_right(short, inline_nodes_in_blocks(c.1), y);
        }
    }
}

/// Whatever occurs in a value is enumerated: the postorder enumeration
/// holds an entry for it.
pub proof fn lemma_inline_occurs_enumerated_in_citation(y: SpecInline, c: SpecCitation)
    requires
        inline_occurs_in_citation(y, c),
    ensures
        inline_nodes_in_citation(c).contains(y),
    decreases c,
{
    if inline_occurs_in_inlines(y, c.citation_prefix) {
        lemma_inline_occurs_enumerated_in_inlines(y, c.citation_prefix);
        lemma_contains_concat_left(
            inline_nodes_in_inlines(c.citation_prefix),
            inline_nodes_in_inlines(c.citation_suffix),
            y,
        );
    } else {
        lemma_inline_occurs_enumerated_in_inlines(y, c.citation_suffix);
        lemma_contains_concat_right(
            inline_nodes_in_inlines(c.citation_prefix),
            inline_nodes_in_inlines(c.citation_suffix),
            y,
        );
    }
}

/// Whatever occurs in a value is enumerated: the postorder enumeration
/// holds an entry for it.
pub proof fn lemma_inline_occurs_enumerated_in_row(y: SpecInline, r: SpecRow)
    requires
        inline_occurs_in_row(y, r),
    ensures
        inline_nodes_in_row(r).contains(y),
    decreases r,
{
    lemma_inline_occurs_enumerated_in_cells(y, r.1);
}

/// Whatever occurs in a value is enumerated: the postorder enumeration
/// holds an entry for it.
pub proof fn lemma_inline_occurs_enumerated_in_cell(y: SpecInline, c: SpecCell)
    requires
        inline_occurs_in_cell(y, c),
    ensures
        inline_nodes_in_cell(c).contains(y),
    decreases c,
{
    lemma_inline_occurs_enumerated_in_blocks(y, c.4);
}

/// Whatever occurs in a value is enumerated: the postorder enumeration
/// holds an entry for it.
pub proof fn lemma_inline_occurs_enumerated_in_head(y: SpecInline, h: SpecTableHead)
    requires
        inline_occurs_in_head(y, h),
    ensures
        inline_nodes_in_head(h).contains(y),
    decreases h,
{
    lemma_inline_occurs_enumerated_in_rows(y, h.1);
}

/// Whatever occurs in a value is enumerated: the postorder enumeration
/// holds an entry for it.
pub proof fn lemma_inline_occurs_enumerated_in_body(y: SpecInline, b: SpecTableBody)
    requires
        inline_occurs_in_body(y, b),
    ensures
        inline_nodes_in_body(b).contains(y),
    decreases b,
{
    if inline_occurs_in_rows(y, b.2) {
        lemma_inline_occurs_enumerated_in_rows(y, b.2);
        lemma_contains_concat_left(inline_nodes_in_rows(b.2), inline_nodes_in_rows(b.3), y);
    } else {
        lemma_inline_occurs_enumerated_in_rows(y, b.3);
        lemma_contains_concat_right(inline_nodes_in_rows(b.2), inline_nodes_in_rows(b.3), y);
    }
}

/// Whatever occurs in a value is enumerated: the postorder enumeration
/// holds an entry for it.
pub proof fn lemma_inline_occurs_enumerated_in_foot(y: SpecInline, ft: SpecTableFoot)
    requires
        inline_occurs_in_foot(y, ft),
    ensures
        inline_nodes_in_foot(ft).contains(y),
    decreases ft,
{
    lemma_inline_occurs_enumerated_in_rows(y, ft.1);
}

/// Whatever occurs in a value is enumerated: the postorder enumeration
/// holds an entry for it.
pub proof fn lemma_inline_occurs_enumerated_in_meta_value(y: SpecInline, v: SpecMetaValue)
    requires
        inline_occurs_in_meta_value(y, v),
    ensures
        inline_nodes_in_meta_value(v).contains(y),
    decreases v,
{
    match v {
        SpecMetaValue::MetaMap(m) => lemma_inline_occurs_enumerated_in_meta(y, m),
        SpecMetaValue::MetaList(vs) => lemma_inline_occurs_enumerated_in_meta_values(y, vs),
        SpecMetaValue::MetaInlines(ils) => lemma_inline_occurs_enumerated_in_inlines(y, ils),
        SpecMetaValue::MetaBlocks(bs) => lemma_inline_occurs_enumerated_in_blocks(y, bs),
        _ => {}
    }
}

/// Whatever occurs in a value is enumerated: the postorder enumeration
/// holds an entry for it.
pub proof fn lemma_inline_occurs_enumerated_in_meta(y: SpecInline, m: SpecMeta)
    requires
        inline_occurs_in_meta(y, m),
    ensures
        inline_nodes_in_meta(m).contains(y),
    decreases m,
{
    if inline_occurs_in_meta(y, m.drop_last()) {
        lemma_inline_occurs_enumerated_in_meta(y, m.drop_last());
        lemma_contains_concat_left(
            inline_nodes_in_meta(m.drop_last()),
            inline_nodes_in_meta_value(m.last().1),
            y,
        );
    } else {
        lemma_inline_occurs_enumerated_in_meta_value(y, m.last().1);
        lemma_contains_concat_right(
            inline_nodes_in_meta(m.drop_last()),
            inline_nodes_in_meta_value(m.last().1),
            y,
        );
    }
}

/// Whatever occurs in a value is enumerated: the postorder enumeration
/// holds an entry for it.
pub proof fn lemma_inline_occurs_enumerated_in_pandoc(y: SpecInline, d: SpecPandoc)
    requires
        inline_occurs_in_pandoc(y, d),
    ensures
        inline_nodes_in_pandoc(d).contains(y),
    decreases d,
{
    if inline_occurs_in_meta(y, d.meta) {
        lemma_inline_occurs_enumerated_in_meta(y, d.meta);
        lemma_contains_concat_left(
            inline_nodes_in_meta(d.meta),
            inline_nodes_in_blocks(d.blocks),
            y,
        );
    } else {
        lemma_inline_occurs_enumerated_in_blocks(y, d.blocks);
        lemma_contains_concat_right(
            inline_nodes_in_meta(d.meta),
            inline_nodes_in_blocks(d.blocks),
            y,
        );
    }
}

/// Postorder, stated of descendants: every text-level node that occurs
/// anywhere within a node, other than the node itself, is enumerated — and
/// so, by the postorder theorem, handed to the caller's function — strictly
/// before the node's own final entry.
pub proof fn lemma_inline_descendant_before_node(y: SpecInline, x: SpecInline)
    requires
        inline_occurs_in_inline(y, x),
        y != x,
    ensures
        exists|k: int|
            0 <= k < inline_nodes_in_inline(x).len() - 1 && inline_nodes_in_inline(x)[k] == y,
{
    lemma_inline_occurs_enumerated_in_inline(y, x);
    let nodes = inline_nodes_in_inline(x);
    let k = choose|k: int| 0 <= k < nodes.len() && nodes[k] == y;
    assert(nodes.last() == x);
    assert(k < nodes.len() - 1);
    assert(0 <= k < nodes.len() - 1 && nodes[k] == y);
}

} // verus!
