//! Cardinality-changing (splicing) rewrite targeting structural nodes.
//!
//! Here the caller's function maps one [`Block`] to a *sequence* of
//! replacement nodes: a node may vanish, pass through, or fan out into
//! siblings. Within every sequence of structural nodes anywhere in a value,
//! each element is first fully rewritten bottom-up, then the function is
//! applied to it and all yields are concatenated in the original element
//! order, so spliced replacements stand exactly where the original stood.
use vstd::prelude::*;
use crate::definition::{
    Block, Caption, Cell, Citation, Inline, Meta, MetaValue, Pandoc, Row, TableBody,
    TableFoot, TableHead,
};
use crate::model::{
    block_view, blocks_view, blockss_view, caption_view, cell_view, cells_view,
    citation_view, citations_view, defs_view, inline_view, inlines_view, inliness_view,
    lemma_blocks_view_push, lemma_blockss_view_push, lemma_cells_view_push,
    lemma_citations_view_push, lemma_defs_view_push, lemma_inlines_view_push,
    lemma_inliness_view_push, lemma_blocks_view_concat, lemma_meta_entries_view_push,
    lemma_meta_values_view_push,
    lemma_rows_view_push, lemma_table_bodies_view_push, meta_entries_view, meta_value_view,
    meta_values_view, meta_view, pandoc_view, row_view, rows_view, table_bodies_view,
    table_body_view, table_foot_view, table_head_view, SpecBlock, SpecCaption, SpecCell,
    SpecCitation, SpecInline, SpecMeta, SpecMetaValue, SpecPandoc, SpecRow, SpecTableBody,
    SpecTableFoot, SpecTableHead,
};

verus! {

/// The caller's function can be applied to every text-level node.
pub open spec fn block_splice_callable<F: Fn(Block) -> Vec<Block>>(f: F) -> bool {
    forall|a: Block| #[trigger] f.requires((a,))
}

/// `g` is the mathematical meaning of the caller's function `f`: whatever
/// `f` returns for an argument, its model is `g` of the argument's model.
pub open spec fn block_splice_models<F: Fn(Block) -> Vec<Block>>(
    f: F,
    g: spec_fn(SpecBlock) -> Seq<SpecBlock>,
) -> bool {
    &&& block_splice_callable(f)
    &&& forall|a: Block, r: Vec<Block>|
        #[trigger] f.ensures((a,), r) ==> blocks_view(r@) == g(block_view(a))
}

/// Rewrite with splicing of the structural nodes inside one text-level
/// node.
pub open spec fn spec_splice_block_in_inline(x: SpecInline, g: spec_fn(SpecBlock) -> Seq<SpecBlock>) -> SpecInline
    decreases x,
{
    match x {
            SpecInline::Str(s) => SpecInline::Str(s),
            SpecInline::Emph(ils) => SpecInline::Emph(spec_splice_block_in_inlines(ils, g)),
            SpecInline::Underline(ils) => SpecInline::Underline(spec_splice_block_in_inlines(ils, g)),
            SpecInline::Strong(ils) => SpecInline::Strong(spec_splice_block_in_inlines(ils, g)),
            SpecInline::Strikeout(ils) => SpecInline::Strikeout(spec_splice_block_in_inlines(ils, g)),
            SpecInline::Superscript(ils) => SpecInline::Superscript(
                spec_splice_block_in_inlines(ils, g),
            ),
            SpecInline::Subscript(ils) => SpecInline::Subscript(spec_splice_block_in_inlines(ils, g)),
            SpecInline::SmallCaps(ils) => SpecInline::SmallCaps(spec_splice_block_in_inlines(ils, g)),
            SpecInline::Quoted(q, ils) => SpecInline::Quoted(q, spec_splice_block_in_inlines(ils, g)),
            SpecInline::Cite(cits, ils) => SpecInline::Cite(
                spec_splice_block_in_citations(cits, g),
                spec_splice_block_in_inlines(ils, g),
            ),
            SpecInline::Code(a, s) => SpecInline::Code(a, s),
            SpecInline::Space => SpecInline::Space,
            SpecInline::SoftBreak => SpecInline::SoftBreak,
            SpecInline::LineBreak => SpecInline::LineBreak,
            SpecInline::Math(m, s) => SpecInline::Math(m, s),
            SpecInline::RawInline(fmt, s) => SpecInline::RawInline(fmt, s),
            SpecInline::Link(a, ils, t) => SpecInline::Link(
                a,
                spec_splice_block_in_inlines(ils, g),
                t,
            ),
            SpecInline::Image(a, ils, t) => SpecInline::Image(
                a,
                spec_splice_block_in_inlines(ils, g),
                t,
            ),
            SpecInline::Note(bs) => SpecInline::Note(spec_splice_block_in_blocks(bs, g)),
            SpecInline::Span(a, ils) => SpecInline::Span(a, spec_splice_block_in_inlines(ils, g)),
    }
}

/// Elementwise postorder rewrite of a run of text-level nodes.
pub open spec fn spec_splice_block_in_inlines(
    s: Seq<SpecInline>,
    g: spec_fn(SpecBlock) -> Seq<SpecBlock>,
) -> Seq<SpecInline>
    decreases s,
{
    if s.len() == 0 {
        Seq::empty()
    } else {
        spec_splice_block_in_inlines(s.drop_last(), g).push(spec_splice_block_in_inline(s.last(), g))
    }
}

/// Rewrite inside a sequence of text-level-node runs.
pub open spec fn spec_splice_block_in_inliness(
    s: Seq<Seq<SpecInline>>,
    g: spec_fn(SpecBlock) -> Seq<SpecBlock>,
) -> Seq<Seq<SpecInline>>
    decreases s,
{
    if s.len() == 0 {
        Seq::empty()
    } else {
        spec_splice_block_in_inliness(s.drop_last(), g).push(
            spec_splice_block_in_inlines(s.last(), g),
        )
    }
}

/// Rewrite of the text-level nodes inside one structural node.
pub open spec fn spec_splice_block_in_block(
    b: SpecBlock,
    g: spec_fn(SpecBlock) -> Seq<SpecBlock>,
) -> SpecBlock
    decreases b,
{
    match b {
        SpecBlock::Plain(ils) => SpecBlock::Plain(spec_splice_block_in_inlines(ils, g)),
        SpecBlock::Para(ils) => SpecBlock::Para(spec_splice_block_in_inlines(ils, g)),
        SpecBlock::LineBlock(ilss) => SpecBlock::LineBlock(spec_splice_block_in_inliness(ilss, g)),
        SpecBlock::CodeBlock(a, s) => SpecBlock::CodeBlock(a, s),
        SpecBlock::RawBlock(fmt, s) => SpecBlock::RawBlock(fmt, s),
        SpecBlock::BlockQuote(bs) => SpecBlock::BlockQuote(spec_splice_block_in_blocks(bs, g)),
        SpecBlock::OrderedList(la, bss) => SpecBlock::OrderedList(
            la,
            spec_splice_block_in_blockss(bss, g),
        ),
        SpecBlock::BulletList(bss) => SpecBlock::BulletList(spec_splice_block_in_blockss(bss, g)),
        SpecBlock::DefinitionList(defs) => SpecBlock::DefinitionList(
            spec_splice_block_in_defs(defs, g),
        ),
        SpecBlock::Header(lvl, a, ils) => SpecBlock::Header(
            lvl,
            a,
            spec_splice_block_in_inlines(ils, g),
        ),
        SpecBlock::HorizontalRule => SpecBlock::HorizontalRule,
        SpecBlock::Table(a, c, cs, h, bs, ft) => SpecBlock::Table(
            a,
            spec_splice_block_in_caption(c, g),
            cs,
            spec_splice_block_in_head(h, g),
            spec_splice_block_in_bodies(bs, g),
            spec_splice_block_in_foot(ft, g),
        ),
        SpecBlock::Div(a, bs) => SpecBlock::Div(a, spec_splice_block_in_blocks(bs, g)),
        SpecBlock::Null => SpecBlock::Null,
    }
}

/// Rewrite inside a sequence of structural nodes.
pub open spec fn spec_splice_block_in_blocks(
    s: Seq<SpecBlock>,
    g: spec_fn(SpecBlock) -> Seq<SpecBlock>,
) -> Seq<SpecBlock>
    decreases s,
{
    if s.len() == 0 {
        Seq::empty()
    } else {
        spec_splice_block_in_blocks(s.drop_last(), g) + g(
            spec_splice_block_in_block(s.last(), g),
        )
    }
}

/// Rewrite inside a sequence of structural-node sequences.
pub open spec fn spec_splice_block_in_blockss(
    s: Seq<Seq<SpecBlock>>,
    g: spec_fn(SpecBlock) -> Seq<SpecBlock>,
) -> Seq<Seq<SpecBlock>>
    decreases s,
{
    if s.len() == 0 {
        Seq::empty()
    } else {
        spec_splice_block_in_blockss(s.drop_last(), g).push(
            spec_splice_block_in_blocks(s.last(), g),
        )
    }
}

/// Rewrite inside a sequence of term/definition pairs.
pub open spec fn spec_splice_block_in_defs(
    s: Seq<(Seq<SpecInline>, Seq<Seq<SpecBlock>>)>,
    g: spec_fn(SpecBlock) -> Seq<SpecBlock>,
) -> Seq<(Seq<SpecInline>, Seq<Seq<SpecBlock>>)>
    decreases s,
{
    if s.len() == 0 {
        Seq::empty()
    } else {
        spec_splice_block_in_defs(s.drop_last(), g).push(
            (
                spec_splice_block_in_inlines(s.last().0, g),
                spec_splice_block_in_blockss(s.last().1, g),
            ),
        )
    }
}

/// Rewrite inside a caption.
pub open spec fn spec_splice_block_in_caption(
    c: SpecCaption,
    g: spec_fn(SpecBlock) -> Seq<SpecBlock>,
) -> SpecCaption
    decreases c,
{
    SpecCaption(
        match c.0 {
            Option::Some(sc) => Option::Some(spec_splice_block_in_inlines(sc, g)),
            Option::None => Option::None,
        },
        spec_splice_block_in_blocks(c.1, g),
    )
}

/// Rewrite inside one citation record: its prefix and suffix runs.
pub open spec fn spec_splice_block_in_citation(
    c: SpecCitation,
    g: spec_fn(SpecBlock) -> Seq<SpecBlock>,
) -> SpecCitation
    decreases c,
{
    SpecCitation {
        citation_id: c.citation_id,
        citation_prefix: spec_splice_block_in_inlines(c.citation_prefix, g),
        citation_suffix: spec_splice_block_in_inlines(c.citation_suffix, g),
        citation_mode: c.citation_mode,
        citation_note_num: c.citation_note_num,
        citation_hash: c.citation_hash,
    }
}

/// Rewrite inside a sequence of citation records.
pub open spec fn spec_splice_block_in_citations(
    s: Seq<SpecCitation>,
    g: spec_fn(SpecBlock) -> Seq<SpecBlock>,
) -> Seq<SpecCitation>
    decreases s,
{
    if s.len() == 0 {
        Seq::empty()
    } else {
        spec_splice_block_in_citations(s.drop_last(), g).push(
            spec_splice_block_in_citation(s.last(), g),
        )
    }
}

/// Rewrite inside a table row.
pub open spec fn spec_splice_block_in_row(r: SpecRow, g: spec_fn(SpecBlock) -> Seq<SpecBlock>) -> SpecRow
    decreases r,
{
    SpecRow(r.0, spec_splice_block_in_cells(r.1, g))
}

/// Rewrite inside a sequence of table rows.
pub open spec fn spec_splice_block_in_rows(
    s: Seq<SpecRow>,
    g: spec_fn(SpecBlock) -> Seq<SpecBlock>,
) -> Seq<SpecRow>
    decreases s,
{
    if s.len() == 0 {
        Seq::empty()
    } else {
        spec_splice_block_in_rows(s.drop_last(), g).push(spec_splice_block_in_row(s.last(), g))
    }
}

/// Rewrite inside a table cell.
pub open spec fn spec_splice_block_in_cell(
    c: SpecCell,
    g: spec_fn(SpecBlock) -> Seq<SpecBlock>,
) -> SpecCell
    decreases c,
{
    SpecCell(c.0, c.1, c.2, c.3, spec_splice_block_in_blocks(c.4, g))
}

/// Rewrite inside a sequence of table cells.
pub open spec fn spec_splice_block_in_cells(
    s: Seq<SpecCell>,
    g: spec_fn(SpecBlock) -> Seq<SpecBlock>,
) -> Seq<SpecCell>
    decreases s,
{
    if s.len() == 0 {
        Seq::empty()
    } else {
        spec_splice_block_in_cells(s.drop_last(), g).push(spec_splice_block_in_cell(s.last(), g))
    }
}

/// Rewrite inside a table head.
pub open spec fn spec_splice_block_in_head(
    h: SpecTableHead,
    g: spec_fn(SpecBlock) -> Seq<SpecBlock>,
) -> SpecTableHead
    decreases h,
{
    SpecTableHead(h.0, spec_splice_block_in_rows(h.1, g))
}

/// Rewrite inside one table body.
pub open spec fn spec_splice_block_in_body(
    b: SpecTableBody,
    g: spec_fn(SpecBlock) -> Seq<SpecBlock>,
) -> SpecTableBody
    decreases b,
{
    SpecTableBody(b.0, b.1, spec_splice_block_in_rows(b.2, g), spec_splice_block_in_rows(b.3, g))
}

/// Rewrite inside a sequence of table bodies.
pub open spec fn spec_splice_block_in_bodies(
    s: Seq<SpecTableBody>,
    g: spec_fn(SpecBlock) -> Seq<SpecBlock>,
) -> Seq<SpecTableBody>
    decreases s,
{
    if s.len() == 0 {
        Seq::empty()
    } else {
        spec_splice_block_in_bodies(s.drop_last(), g).push(spec_splice_block_in_body(s.last(), g))
    }
}

/// Rewrite inside a table foot.
pub open spec fn spec_splice_block_in_foot(
    ft: SpecTableFoot,
    g: spec_fn(SpecBlock) -> Seq<SpecBlock>,
) -> SpecTableFoot
    decreases ft,
{
    SpecTableFoot(ft.0, spec_splice_block_in_rows(ft.1, g))
}

/// Rewrite inside one metadata value.
pub open spec fn spec_splice_block_in_meta_value(
    v: SpecMetaValue,
    g: spec_fn(SpecBlock) -> Seq<SpecBlock>,
) -> SpecMetaValue
    decreases v,
{
    match v {
        SpecMetaValue::MetaMap(m) => SpecMetaValue::MetaMap(spec_splice_block_in_meta(m, g)),
        SpecMetaValue::MetaList(vs) => SpecMetaValue::MetaList(
            spec_splice_block_in_meta_values(vs, g),
        ),
        SpecMetaValue::MetaBool(b) => SpecMetaValue::MetaBool(b),
        SpecMetaValue::MetaString(s) => SpecMetaValue::MetaString(s),
        SpecMetaValue::MetaInlines(ils) => SpecMetaValue::MetaInlines(
            spec_splice_block_in_inlines(ils, g),
        ),
        SpecMetaValue::MetaBlocks(bs) => SpecMetaValue::MetaBlocks(
            spec_splice_block_in_blocks(bs, g),
        ),
    }
}

/// Rewrite inside a sequence of metadata values.
pub open spec fn spec_splice_block_in_meta_values(
    s: Seq<SpecMetaValue>,
    g: spec_fn(SpecBlock) -> Seq<SpecBlock>,
) -> Seq<SpecMetaValue>
    decreases s,
{
    if s.len() == 0 {
        Seq::empty()
    } else {
        spec_splice_block_in_meta_values(s.drop_last(), g).push(
            spec_splice_block_in_meta_value(s.last(), g),
        )
    }
}

/// Rewrite inside the metadata mapping: keys and their order are untouched.
pub open spec fn spec_splice_block_in_meta(
    m: SpecMeta,
    g: spec_fn(SpecBlock) -> Seq<SpecBlock>,
) -> SpecMeta
    decreases m,
{
    if m.len() == 0 {
        Seq::empty()
    } else {
        spec_splice_block_in_meta(m.drop_last(), g).push(
            (m.last().0, spec_splice_block_in_meta_value(m.last().1, g)),
        )
    }
}

/// Rewrite of every text-level node of a whole document.
pub open spec fn spec_splice_block_in_pandoc(
    d: SpecPandoc,
    g: spec_fn(SpecBlock) -> Seq<SpecBlock>,
) -> SpecPandoc
    decreases d,
{
    SpecPandoc {
        version: d.version,
        meta: spec_splice_block_in_meta(d.meta, g),
        blocks: spec_splice_block_in_blocks(d.blocks, g),
    }
}

pub proof fn lemma_spec_splice_block_in_inlines_push(
    s: Seq<SpecInline>,
    x: SpecInline,
    g: spec_fn(SpecBlock) -> Seq<SpecBlock>,
)
    ensures
        spec_splice_block_in_inlines(s.push(x), g) == spec_splice_block_in_inlines(s, g).push(
            spec_splice_block_in_inline(x, g),
        ),
{
    assert(s.push(x).drop_last() =~= s);
}

pub proof fn lemma_spec_splice_block_in_inliness_push(
    s: Seq<Seq<SpecInline>>,
    x: Seq<SpecInline>,
    g: spec_fn(SpecBlock) -> Seq<SpecBlock>,
)
    ensures
        spec_splice_block_in_inliness(s.push(x), g) == spec_splice_block_in_inliness(s, g).push(
            spec_splice_block_in_inlines(x, g),
        ),
{
    assert(s.push(x).drop_last() =~= s);
}

pub proof fn lemma_spec_splice_block_in_blocks_push(
    s: Seq<SpecBlock>,
    x: SpecBlock,
    g: spec_fn(SpecBlock) -> Seq<SpecBlock>,
)
    ensures
        spec_splice_block_in_blocks(s.push(x), g) == spec_splice_block_in_blocks(s, g) + g(
            spec_splice_block_in_block(x, g),
        ),
{
    assert(s.push(x).drop_last() =~= s);
}

pub proof fn lemma_spec_splice_block_in_blockss_push(
    s: Seq<Seq<SpecBlock>>,
    x: Seq<SpecBlock>,
    g: spec_fn(SpecBlock) -> Seq<SpecBlock>,
)
    ensures
        spec_splice_block_in_blockss(s.push(x), g) == spec_splice_block_in_blockss(s, g).push(
            spec_splice_block_in_blocks(x, g),
        ),
{
    assert(s.push(x).drop_last() =~= s);
}

pub proof fn lemma_spec_splice_block_in_defs_push(
    s: Seq<(Seq<SpecInline>, Seq<Seq<SpecBlock>>)>,
    x: (Seq<SpecInline>, Seq<Seq<SpecBlock>>),
    g: spec_fn(SpecBlock) -> Seq<SpecBlock>,
)
    ensures
        spec_splice_block_in_defs(s.push(x), g) == spec_splice_block_in_defs(s, g).push(
            (spec_splice_block_in_inlines(x.0, g), spec_splice_block_in_blockss(x.1, g)),
        ),
{
    assert(s.push(x).drop_last() =~= s);
}

pub proof fn lemma_spec_splice_block_in_citations_push(
    s: Seq<SpecCitation>,
    x: SpecCitation,
    g: spec_fn(SpecBlock) -> Seq<SpecBlock>,
)
    ensures
        spec_splice_block_in_citations(s.push(x), g) == spec_splice_block_in_citations(s, g).push(
            spec_splice_block_in_citation(x, g),
        ),
{
    assert(s.push(x).drop_last() =~= s);
}

pub proof fn lemma_spec_splice_block_in_rows_push(
    s: Seq<SpecRow>,
    x: SpecRow,
    g: spec_fn(SpecBlock) -> Seq<SpecBlock>,
)
    ensures
        spec_splice_block_in_rows(s.push(x), g) == spec_splice_block_in_rows(s, g).push(
            spec_splice_block_in_row(x, g),
        ),
{
    assert(s.push(x).drop_last() =~= s);
}

pub proof fn lemma_spec_splice_block_in_cells_push(
    s: Seq<SpecCell>,
    x: SpecCell,
    g: spec_fn(SpecBlock) -> Seq<SpecBlock>,
)
    ensures
        spec_splice_block_in_cells(s.push(x), g) == spec_splice_block_in_cells(s, g).push(
            spec_splice_block_in_cell(x, g),
        ),
{
    assert(s.push(x).drop_last() =~= s);
}

pub proof fn lemma_spec_splice_block_in_bodies_push(
    s: Seq<SpecTableBody>,
    x: SpecTableBody,
    g: spec_fn(SpecBlock) -> Seq<SpecBlock>,
)
    ensures
        spec_splice_block_in_bodies(s.push(x), g) == spec_splice_block_in_bodies(s, g).push(
            spec_splice_block_in_body(x, g),
        ),
{
    assert(s.push(x).drop_last() =~= s);
}

pub proof fn lemma_spec_splice_block_in_meta_values_push(
    s: Seq<SpecMetaValue>,
    x: SpecMetaValue,
    g: spec_fn(SpecBlock) -> Seq<SpecBlock>,
)
    ensures
        spec_splice_block_in_meta_values(s.push(x), g) == spec_splice_block_in_meta_values(
            s,
            g,
        ).push(spec_splice_block_in_meta_value(x, g)),
{
    assert(s.push(x).drop_last() =~= s);
}

pub proof fn lemma_spec_splice_block_in_meta_push(
    m: SpecMeta,
    x: (Seq<char>, SpecMetaValue),
    g: spec_fn(SpecBlock) -> Seq<SpecBlock>,
)
    ensures
        spec_splice_block_in_meta(m.push(x), g) == spec_splice_block_in_meta(m, g).push(
            (x.0, spec_splice_block_in_meta_value(x.1, g)),
        ),
{
    assert(m.push(x).drop_last() =~= m);
}

} // verus!

verus! {

/// Apply `f` to every structural node within one text-level node, in
/// postorder: children first, then `f` on the rebuilt node itself.
pub fn splice_block_in_inline<F: Fn(Block) -> Vec<Block>>(x: Inline, f: &F) -> (r: Inline)
    requires
        block_splice_callable(*f),
    ensures
        forall|g: spec_fn(SpecBlock) -> Seq<SpecBlock>|
            #[trigger] block_splice_models(*f, g) ==> inline_view(r) == spec_splice_block_in_inline(
                inline_view(x),
                g,
            ),
    decreases x,
{
    let rebuilt = match x {
        Inline::Str(s) => {
            proof {
                assert(x == Inline::Str(s));
            }
            Inline::Str(s)
        }
        Inline::Emph(ils) => {
            proof {
                assert(x == Inline::Emph(ils));
                assert(decreases_to!(Inline::Emph(ils) => ils));
            }
            Inline::Emph(splice_block_in_inlines(ils, f))
        }
        Inline::Underline(ils) => {
            proof {
                assert(x == Inline::Underline(ils));
                assert(decreases_to!(Inline::Underline(ils) => ils));
            }
            Inline::Underline(splice_block_in_inlines(ils, f))
        }
        Inline::Strong(ils) => {
            proof {
                assert(x == Inline::Strong(ils));
                assert(decreases_to!(Inline::Strong(ils) => ils));
            }
            Inline::Strong(splice_block_in_inlines(ils, f))
        }
        Inline::Strikeout(ils) => {
            proof {
                assert(x == Inline::Strikeout(ils));
                assert(decreases_to!(Inline::Strikeout(ils) => ils));
            }
            Inline::Strikeout(splice_block_in_inlines(ils, f))
        }
        Inline::Superscript(ils) => {
            proof {
                assert(x == Inline::Superscript(ils));
                assert(decreases_to!(Inline::Superscript(ils) => ils));
            }
            Inline::Superscript(splice_block_in_inlines(ils, f))
        }
        Inline::Subscript(ils) => {
            proof {
                assert(x == Inline::Subscript(ils));
                assert(decreases_to!(Inline::Subscript(ils) => ils));
            }
            Inline::Subscript(splice_block_in_inlines(ils, f))
        }
        Inline::SmallCaps(ils) => {
            proof {
                assert(x == Inline::SmallCaps(ils));
                assert(decreases_to!(Inline::SmallCaps(ils) => ils));
            }
            Inline::SmallCaps(splice_block_in_inlines(ils, f))
        }
        Inline::Quoted(q, ils) => {
            proof {
                assert(x == Inline::Quoted(q, ils));
                assert(decreases_to!(Inline::Quoted(q, ils) => ils));
            }
            Inline::Quoted(q, splice_block_in_inlines(ils, f))
        }
        Inline::Cite(cits, ils) => {
            proof {
                assert(x == Inline::Cite(cits, ils));
                assert(decreases_to!(Inline::Cite(cits, ils) => cits));
                assert(decreases_to!(Inline::Cite(cits, ils) => ils));
            }
            Inline::Cite(splice_block_in_citations(cits, f), splice_block_in_inlines(ils, f))
        }
        Inline::Code(a, s) => {
            proof {
                assert(x == Inline::Code(a, s));
            }
            Inline::Code(a, s)
        }
        Inline::Space => Inline::Space,
        Inline::SoftBreak => Inline::SoftBreak,
        Inline::LineBreak => Inline::LineBreak,
        Inline::Math(m, s) => {
            proof {
                assert(x == Inline::Math(m, s));
            }
            Inline::Math(m, s)
        }
        Inline::RawInline(fmt, s) => {
            proof {
                assert(x == Inline::RawInline(fmt, s));
            }
            Inline::RawInline(fmt, s)
        }
        Inline::Link(a, ils, t) => {
            proof {
                assert(x == Inline::Link(a, ils, t));
                assert(decreases_to!(Inline::Link(a, ils, t) => ils));
            }
            Inline::Link(a, splice_block_in_inlines(ils, f), t)
        }
        Inline::Image(a, ils, t) => {
            proof {
                assert(x == Inline::Image(a, ils, t));
                assert(decreases_to!(Inline::Image(a, ils, t) => ils));
            }
            Inline::Image(a, splice_block_in_inlines(ils, f), t)
        }
        Inline::Note(bs) => {
            proof {
                assert(x == Inline::Note(bs));
                assert(decreases_to!(Inline::Note(bs) => bs));
            }
            Inline::Note(splice_block_in_blocks(bs, f))
        }
        Inline::Span(a, ils) => {
            proof {
                assert(x == Inline::Span(a, ils));
                assert(decreases_to!(Inline::Span(a, ils) => ils));
            }
            Inline::Span(a, splice_block_in_inlines(ils, f))
        }
    };
    proof {
        assert forall|g: spec_fn(SpecBlock) -> Seq<SpecBlock>| #[trigger] block_splice_models(
            *f,
            g,
        ) implies inline_view(rebuilt) == spec_splice_block_in_inline(inline_view(x), g) by {}
    }
    rebuilt
}

/// Apply `f` to every structural node within a run, elementwise.
pub fn splice_block_in_inlines<F: Fn(Block) -> Vec<Block>>(v: Vec<Inline>, f: &F) -> (r: Vec<Inline>)
    requires
        block_splice_callable(*f),
    ensures
        forall|g: spec_fn(SpecBlock) -> Seq<SpecBlock>|
            #[trigger] block_splice_models(*f, g) ==> inlines_view(r@) == spec_splice_block_in_inlines(
                inlines_view(v@),
                g,
            ),
    decreases v,
{
    let ghost orig: Seq<Inline> = v@;
    proof {
        assert(decreases_to!(v => orig));
    }
    let mut rest = v;
    let mut out: Vec<Inline> = Vec::new();
    let ghost mut i: int = 0;
    while rest.len() > 0
        invariant
            block_splice_callable(*f),
            0 <= i <= orig.len(),
            rest@ == orig.subrange(i, orig.len() as int),
            decreases_to!(v => orig),
            forall|g: spec_fn(SpecBlock) -> Seq<SpecBlock>|
                #[trigger] block_splice_models(*f, g) ==> inlines_view(out@)
                    == spec_splice_block_in_inlines(inlines_view(orig.subrange(0, i)), g),
        decreases rest@.len(),
    {
        let x = rest.remove(0);
        proof {
            assert(x == orig[i]);
            assert(decreases_to!(orig => orig[i]));
        }
        let ghost out_before = out@;
        let y = splice_block_in_inline(x, f);
        out.push(y);
        proof {
            assert forall|g: spec_fn(SpecBlock) -> Seq<SpecBlock>| #[trigger] block_splice_models(
                *f,
                g,
            ) implies inlines_view(out@) == spec_splice_block_in_inlines(
                inlines_view(orig.subrange(0, i + 1)),
                g,
            ) by {
                assert(orig.subrange(0, i + 1) =~= orig.subrange(0, i).push(orig[i]));
                lemma_inlines_view_push(orig.subrange(0, i), orig[i]);
                lemma_spec_splice_block_in_inlines_push(
                    inlines_view(orig.subrange(0, i)),
                    inline_view(orig[i]),
                    g,
                );
                assert(out@ == out_before.push(y));
                lemma_inlines_view_push(out_before, y);
            }
            i = i + 1;
            assert(rest@ == orig.subrange(i, orig.len() as int));
        }
    }
    proof {
        assert(orig.subrange(0, i) =~= orig);
    }
    out
}

/// Apply `f` to every structural node within each run of a sequence of runs.
pub fn splice_block_in_inliness<F: Fn(Block) -> Vec<Block>>(v: Vec<Vec<Inline>>, f: &F) -> (r: Vec<
    Vec<Inline>,
>)
    requires
        block_splice_callable(*f),
    ensures
        forall|g: spec_fn(SpecBlock) -> Seq<SpecBlock>|
            #[trigger] block_splice_models(*f, g) ==> inliness_view(r@)
                == spec_splice_block_in_inliness(inliness_view(v@), g),
    decreases v,
{
    let ghost orig: Seq<Vec<Inline>> = v@;
    proof {
        assert(decreases_to!(v => orig));
    }
    let mut rest = v;
    let mut out: Vec<Vec<Inline>> = Vec::new();
    let ghost mut i: int = 0;
    while rest.len() > 0
        invariant
            block_splice_callable(*f),
            0 <= i <= orig.len(),
            rest@ == orig.subrange(i, orig.len() as int),
            decreases_to!(v => orig),
            forall|g: spec_fn(SpecBlock) -> Seq<SpecBlock>|
                #[trigger] block_splice_models(*f, g) ==> inliness_view(out@)
                    == spec_splice_block_in_inliness(inliness_view(orig.subrange(0, i)), g),
        decreases rest@.len(),
    {
        let x = rest.remove(0);
        proof {
            assert(x == orig[i]);
            assert(decreases_to!(orig => orig[i]));
        }
        let ghost out_before = out@;
        let y = splice_block_in_inlines(x, f);
        out.push(y);
        proof {
            assert forall|g: spec_fn(SpecBlock) -> Seq<SpecBlock>| #[trigger] block_splice_models(
                *f,
                g,
            ) implies inliness_view(out@) == spec_splice_block_in_inliness(
                inliness_view(orig.subrange(0, i + 1)),
                g,
            ) by {
                assert(orig.subrange(0, i + 1) =~= orig.subrange(0, i).push(orig[i]));
                lemma_inliness_view_push(orig.subrange(0, i), orig[i]);
                lemma_spec_splice_block_in_inliness_push(
                    inliness_view(orig.subrange(0, i)),
                    inlines_view(orig[i]@),
                    g,
                );
                assert(out@ == out_before.push(y));
                lemma_inliness_view_push(out_before, y);
            }
            i = i + 1;
            assert(rest@ == orig.subrange(i, orig.len() as int));
        }
    }
    proof {
        assert(orig.subrange(0, i) =~= orig);
    }
    out
}

} // verus!

verus! {

/// Apply `f` to every structural node within one structural node.
pub fn splice_block_in_block<F: Fn(Block) -> Vec<Block>>(b: Block, f: &F) -> (r: Block)
    requires
        block_splice_callable(*f),
    ensures
        forall|g: spec_fn(SpecBlock) -> Seq<SpecBlock>|
            #[trigger] block_splice_models(*f, g) ==> block_view(r) == spec_splice_block_in_block(
                block_view(b),
                g,
            ),
    decreases b,
{
    let rebuilt = match b {
        Block::Plain(ils) => {
            proof {
                assert(b == Block::Plain(ils));
                assert(decreases_to!(Block::Plain(ils) => ils));
            }
            Block::Plain(splice_block_in_inlines(ils, f))
        }
        Block::Para(ils) => {
            proof {
                assert(b == Block::Para(ils));
                assert(decreases_to!(Block::Para(ils) => ils));
            }
            Block::Para(splice_block_in_inlines(ils, f))
        }
        Block::LineBlock(ilss) => {
            proof {
                assert(b == Block::LineBlock(ilss));
                assert(decreases_to!(Block::LineBlock(ilss) => ilss));
            }
            Block::LineBlock(splice_block_in_inliness(ilss, f))
        }
        Block::CodeBlock(a, s) => {
            proof {
                assert(b == Block::CodeBlock(a, s));
            }
            Block::CodeBlock(a, s)
        }
        Block::RawBlock(fmt, s) => {
            proof {
                assert(b == Block::RawBlock(fmt, s));
            }
            Block::RawBlock(fmt, s)
        }
        Block::BlockQuote(bs) => {
            proof {
                assert(b == Block::BlockQuote(bs));
                assert(decreases_to!(Block::BlockQuote(bs) => bs));
            }
            Block::BlockQuote(splice_block_in_blocks(bs, f))
        }
        Block::OrderedList(la, bss) => {
            proof {
                assert(b == Block::OrderedList(la, bss));
                assert(decreases_to!(Block::OrderedList(la, bss) => bss));
            }
            Block::OrderedList(la, splice_block_in_blockss(bss, f))
        }
        Block::BulletList(bss) => {
            proof {
                assert(b == Block::BulletList(bss));
                assert(decreases_to!(Block::BulletList(bss) => bss));
            }
            Block::BulletList(splice_block_in_blockss(bss, f))
        }
        Block::DefinitionList(defs) => {
            proof {
                assert(b == Block::DefinitionList(defs));
                assert(decreases_to!(Block::DefinitionList(defs) => defs));
            }
            Block::DefinitionList(splice_block_in_defs(defs, f))
        }
        Block::Header(lvl, a, ils) => {
            proof {
                assert(b == Block::Header(lvl, a, ils));
                assert(decreases_to!(Block::Header(lvl, a, ils) => ils));
            }
            Block::Header(lvl, a, splice_block_in_inlines(ils, f))
        }
        Block::HorizontalRule => Block::HorizontalRule,
        Block::Table(a, c, cs, h, bs, ft) => {
            proof {
                assert(b == Block::Table(a, c, cs, h, bs, ft));
                assert(decreases_to!(Block::Table(a, c, cs, h, bs, ft) => c));
                assert(decreases_to!(Block::Table(a, c, cs, h, bs, ft) => h));
                assert(decreases_to!(Block::Table(a, c, cs, h, bs, ft) => bs));
                assert(decreases_to!(Block::Table(a, c, cs, h, bs, ft) => ft));
            }
            Block::Table(
                a,
                splice_block_in_caption(c, f),
                cs,
                splice_block_in_head(h, f),
                splice_block_in_bodies(bs, f),
                splice_block_in_foot(ft, f),
            )
        }
        Block::Div(a, bs) => {
            proof {
                assert(b == Block::Div(a, bs));
                assert(decreases_to!(Block::Div(a, bs) => bs));
            }
            Block::Div(a, splice_block_in_blocks(bs, f))
        }
        Block::Null => Block::Null,
    };
    proof {
        assert forall|g: spec_fn(SpecBlock) -> Seq<SpecBlock>| #[trigger] block_splice_models(
            *f,
            g,
        ) implies block_view(rebuilt) == spec_splice_block_in_block(block_view(b), g) by {}
    }
    rebuilt
}

/// Rewrite a sequence of structural nodes with splicing: each element is
/// fully rewritten, then `f` is applied to it and may yield zero, one or
/// many replacement elements, concatenated in the original element order.
pub fn splice_block_in_blocks<F: Fn(Block) -> Vec<Block>>(v: Vec<Block>, f: &F) -> (r: Vec<Block>)
    requires
        block_splice_callable(*f),
    ensures
        forall|g: spec_fn(SpecBlock) -> Seq<SpecBlock>|
            #[trigger] block_splice_models(*f, g) ==> blocks_view(r@) == spec_splice_block_in_blocks(
                blocks_view(v@),
                g,
            ),
    decreases v,
{
    let ghost orig: Seq<Block> = v@;
    proof {
        assert(decreases_to!(v => orig));
    }
    let mut rest = v;
    let mut out: Vec<Block> = Vec::new();
    let ghost mut i: int = 0;
    while rest.len() > 0
        invariant
            block_splice_callable(*f),
            0 <= i <= orig.len(),
            rest@ == orig.subrange(i, orig.len() as int),
            decreases_to!(v => orig),
            forall|g: spec_fn(SpecBlock) -> Seq<SpecBlock>|
                #[trigger] block_splice_models(*f, g) ==> blocks_view(out@)
                    == spec_splice_block_in_blocks(blocks_view(orig.subrange(0, i)), g),
        decreases rest@.len(),
    {
        let x = rest.remove(0);
        proof {
            assert(x == orig[i]);
            assert(decreases_to!(orig => orig[i]));
        }
        let ghost out_before = out@;
        let y = splice_block_in_block(x, f);
        let mut ys = f(y);
        let ghost ys_snap = ys@;
        out.append(&mut ys);
        proof {
            assert forall|g: spec_fn(SpecBlock) -> Seq<SpecBlock>| #[trigger] block_splice_models(
                *f,
                g,
            ) implies blocks_view(out@) == spec_splice_block_in_blocks(
                blocks_view(orig.subrange(0, i + 1)),
                g,
            ) by {
                assert(orig.subrange(0, i + 1) =~= orig.subrange(0, i).push(orig[i]));
                lemma_blocks_view_push(orig.subrange(0, i), orig[i]);
                lemma_spec_splice_block_in_blocks_push(
                    blocks_view(orig.subrange(0, i)),
                    block_view(orig[i]),
                    g,
                );
                assert(out@ == out_before + ys_snap);
                lemma_blocks_view_concat(out_before, ys_snap);
            }
            i = i + 1;
            assert(rest@ == orig.subrange(i, orig.len() as int));
        }
    }
    proof {
        assert(orig.subrange(0, i) =~= orig);
    }
    out
}

/// sequences (list items).
pub fn splice_block_in_blockss<F: Fn(Block) -> Vec<Block>>(v: Vec<Vec<Block>>, f: &F) -> (r: Vec<
    Vec<Block>,
>)
    requires
        block_splice_callable(*f),
    ensures
        forall|g: spec_fn(SpecBlock) -> Seq<SpecBlock>|
            #[trigger] block_splice_models(*f, g) ==> blockss_view(r@)
                == spec_splice_block_in_blockss(blockss_view(v@), g),
    decreases v,
{
    let ghost orig: Seq<Vec<Block>> = v@;
    proof {
        assert(decreases_to!(v => orig));
    }
    let mut rest = v;
    let mut out: Vec<Vec<Block>> = Vec::new();
    let ghost mut i: int = 0;
    while rest.len() > 0
        invariant
            block_splice_callable(*f),
            0 <= i <= orig.len(),
            rest@ == orig.subrange(i, orig.len() as int),
            decreases_to!(v => orig),
            forall|g: spec_fn(SpecBlock) -> Seq<SpecBlock>|
                #[trigger] block_splice_models(*f, g) ==> blockss_view(out@)
                    == spec_splice_block_in_blockss(blockss_view(orig.subrange(0, i)), g),
        decreases rest@.len(),
    {
        let x = rest.remove(0);
        proof {
            assert(x == orig[i]);
            assert(decreases_to!(orig => orig[i]));
        }
        let ghost out_before = out@;
        let y = splice_block_in_blocks(x, f);
        out.push(y);
        proof {
            assert forall|g: spec_fn(SpecBlock) -> Seq<SpecBlock>| #[trigger] block_splice_models(
                *f,
                g,
            ) implies blockss_view(out@) == spec_splice_block_in_blockss(
                blockss_view(orig.subrange(0, i + 1)),
                g,
            ) by {
                assert(orig.subrange(0, i + 1) =~= orig.subrange(0, i).push(orig[i]));
                lemma_blockss_view_push(orig.subrange(0, i), orig[i]);
                lemma_spec_splice_block_in_blockss_push(
                    blockss_view(orig.subrange(0, i)),
                    blocks_view(orig[i]@),
                    g,
                );
                assert(out@ == out_before.push(y));
                lemma_blockss_view_push(out_before, y);
            }
            i = i + 1;
            assert(rest@ == orig.subrange(i, orig.len() as int));
        }
    }
    proof {
        assert(orig.subrange(0, i) =~= orig);
    }
    out
}

/// Apply `f` to every structural node within a definition list's pairs.
pub fn splice_block_in_defs<F: Fn(Block) -> Vec<Block>>(
    v: Vec<(Vec<Inline>, Vec<Vec<Block>>)>,
    f: &F,
) -> (r: Vec<(Vec<Inline>, Vec<Vec<Block>>)>)
    requires
        block_splice_callable(*f),
    ensures
        forall|g: spec_fn(SpecBlock) -> Seq<SpecBlock>|
            #[trigger] block_splice_models(*f, g) ==> defs_view(r@) == spec_splice_block_in_defs(
                defs_view(v@),
                g,
            ),
    decreases v,
{
    let ghost orig: Seq<(Vec<Inline>, Vec<Vec<Block>>)> = v@;
    proof {
        assert(decreases_to!(v => orig));
    }
    let mut rest = v;
    let mut out: Vec<(Vec<Inline>, Vec<Vec<Block>>)> = Vec::new();
    let ghost mut i: int = 0;
    while rest.len() > 0
        invariant
            block_splice_callable(*f),
            0 <= i <= orig.len(),
            rest@ == orig.subrange(i, orig.len() as int),
            decreases_to!(v => orig),
            forall|g: spec_fn(SpecBlock) -> Seq<SpecBlock>|
                #[trigger] block_splice_models(*f, g) ==> defs_view(out@) == spec_splice_block_in_defs(
                    defs_view(orig.subrange(0, i)),
                    g,
                ),
        decreases rest@.len(),
    {
        let x = rest.remove(0);
        proof {
            assert(x == orig[i]);
            assert(decreases_to!(orig => orig[i]));
        }
        let (term, ds) = x;
        proof {
            assert(x == (term, ds));
            assert(decreases_to!(orig[i] => term));
            assert(decreases_to!(orig[i] => ds));
        }
        let ghost out_before = out@;
        let y = (splice_block_in_inlines(term, f), splice_block_in_blockss(ds, f));
        out.push(y);
        proof {
            assert forall|g: spec_fn(SpecBlock) -> Seq<SpecBlock>| #[trigger] block_splice_models(
                *f,
                g,
            ) implies defs_view(out@) == spec_splice_block_in_defs(
                defs_view(orig.subrange(0, i + 1)),
                g,
            ) by {
                assert(orig.subrange(0, i + 1) =~= orig.subrange(0, i).push(orig[i]));
                lemma_defs_view_push(orig.subrange(0, i), orig[i]);
                lemma_spec_splice_block_in_defs_push(
                    defs_view(orig.subrange(0, i)),
                    (inlines_view(orig[i].0@), blockss_view(orig[i].1@)),
                    g,
                );
                assert(out@ == out_before.push(y));
                lemma_defs_view_push(out_before, y);
            }
            i = i + 1;
            assert(rest@ == orig.subrange(i, orig.len() as int));
        }
    }
    proof {
        assert(orig.subrange(0, i) =~= orig);
    }
    out
}

/// Apply `f` to every structural node within a caption.
pub fn splice_block_in_caption<F: Fn(Block) -> Vec<Block>>(c: Caption, f: &F) -> (r: Caption)
    requires
        block_splice_callable(*f),
    ensures
        forall|g: spec_fn(SpecBlock) -> Seq<SpecBlock>|
            #[trigger] block_splice_models(*f, g) ==> caption_view(r) == spec_splice_block_in_caption(
                caption_view(c),
                g,
            ),
    decreases c,
{
    let Caption(short, long) = c;
    proof {
        assert(c == Caption(short, long));
        assert(decreases_to!(Caption(short, long) => short));
        assert(decreases_to!(Caption(short, long) => long));
    }
    let new_short = match short {
        Option::Some(sc) => {
            proof {
                assert(short == Option::Some(sc));
                assert(decreases_to!(Option::Some(sc) => sc));
            }
            Option::Some(splice_block_in_inlines(sc, f))
        }
        Option::None => Option::None,
    };
    let new_long = splice_block_in_blocks(long, f);
    Caption(new_short, new_long)
}

/// Apply `f` to every structural node within one citation record.
pub fn splice_block_in_citation<F: Fn(Block) -> Vec<Block>>(c: Citation, f: &F) -> (r: Citation)
    requires
        block_splice_callable(*f),
    ensures
        forall|g: spec_fn(SpecBlock) -> Seq<SpecBlock>|
            #[trigger] block_splice_models(*f, g) ==> citation_view(r)
                == spec_splice_block_in_citation(citation_view(c), g),
    decreases c,
{
    let Citation {
        citation_id,
        citation_prefix,
        citation_suffix,
        citation_mode,
        citation_note_num,
        citation_hash,
    } = c;
    proof {
        assert(c == Citation {
            citation_id,
            citation_prefix,
            citation_suffix,
            citation_mode,
            citation_note_num,
            citation_hash,
        });
        assert(decreases_to!(c => citation_prefix));
        assert(decreases_to!(c => citation_suffix));
    }
    Citation {
        citation_id,
        citation_prefix: splice_block_in_inlines(citation_prefix, f),
        citation_suffix: splice_block_in_inlines(citation_suffix, f),
        citation_mode,
        citation_note_num,
        citation_hash,
    }
}

/// Apply `f` to every structural node within a sequence of citation records.
pub fn splice_block_in_citations<F: Fn(Block) -> Vec<Block>>(v: Vec<Citation>, f: &F) -> (r: Vec<
    Citation,
>)
    requires
        block_splice_callable(*f),
    ensures
        forall|g: spec_fn(SpecBlock) -> Seq<SpecBlock>|
            #[trigger] block_splice_models(*f, g) ==> citations_view(r@)
                == spec_splice_block_in_citations(citations_view(v@), g),
    decreases v,
{
    let ghost orig: Seq<Citation> = v@;
    proof {
        assert(decreases_to!(v => orig));
    }
    let mut rest = v;
    let mut out: Vec<Citation> = Vec::new();
    let ghost mut i: int = 0;
    while rest.len() > 0
        invariant
            block_splice_callable(*f),
            0 <= i <= orig.len(),
            rest@ == orig.subrange(i, orig.len() as int),
            decreases_to!(v => orig),
            forall|g: spec_fn(SpecBlock) -> Seq<SpecBlock>|
                #[trigger] block_splice_models(*f, g) ==> citations_view(out@)
                    == spec_splice_block_in_citations(citations_view(orig.subrange(0, i)), g),
        decreases rest@.len(),
    {
        let x = rest.remove(0);
        proof {
            assert(x == orig[i]);
            assert(decreases_to!(orig => orig[i]));
        }
        let ghost out_before = out@;
        let y = splice_block_in_citation(x, f);
        out.push(y);
        proof {
            assert forall|g: spec_fn(SpecBlock) -> Seq<SpecBlock>| #[trigger] block_splice_models(
                *f,
                g,
            ) implies citations_view(out@) == spec_splice_block_in_citations(
                citations_view(orig.subrange(0, i + 1)),
                g,
            ) by {
                assert(orig.subrange(0, i + 1) =~= orig.subrange(0, i).push(orig[i]));
                lemma_citations_view_push(orig.subrange(0, i), orig[i]);
                lemma_spec_splice_block_in_citations_push(
                    citations_view(orig.subrange(0, i)),
                    citation_view(orig[i]),
                    g,
                );
                assert(out@ == out_before.push(y));
                lemma_citations_view_push(out_before, y);
            }
            i = i + 1;
            assert(rest@ == orig.subrange(i, orig.len() as int));
        }
    }
    proof {
        assert(orig.subrange(0, i) =~= orig);
    }
    out
}

} // verus!

verus! {

/// Apply `f` to every structural node within a table row.
pub fn splice_block_in_row<F: Fn(Block) -> Vec<Block>>(rw: Row, f: &F) -> (r: Row)
    requires
        block_splice_callable(*f),
    ensures
        forall|g: spec_fn(SpecBlock) -> Seq<SpecBlock>|
            #[trigger] block_splice_models(*f, g) ==> row_view(r) == spec_splice_block_in_row(
                row_view(rw),
                g,
            ),
    decreases rw,
{
    let Row(a, cells) = rw;
    proof {
        assert(rw == Row(a, cells));
        assert(decreases_to!(Row(a, cells) => cells));
    }
    Row(a, splice_block_in_cells(cells, f))
}

/// Apply `f` to every structural node within a sequence of table rows.
pub fn splice_block_in_rows<F: Fn(Block) -> Vec<Block>>(v: Vec<Row>, f: &F) -> (r: Vec<Row>)
    requires
        block_splice_callable(*f),
    ensures
        forall|g: spec_fn(SpecBlock) -> Seq<SpecBlock>|
            #[trigger] block_splice_models(*f, g) ==> rows_view(r@) == spec_splice_block_in_rows(
                rows_view(v@),
                g,
            ),
    decreases v,
{
    let ghost orig: Seq<Row> = v@;
    proof {
        assert(decreases_to!(v => orig));
    }
    let mut rest = v;
    let mut out: Vec<Row> = Vec::new();
    let ghost mut i: int = 0;
    while rest.len() > 0
        invariant
            block_splice_callable(*f),
            0 <= i <= orig.len(),
            rest@ == orig.subrange(i, orig.len() as int),
            decreases_to!(v => orig),
            forall|g: spec_fn(SpecBlock) -> Seq<SpecBlock>|
                #[trigger] block_splice_models(*f, g) ==> rows_view(out@)
                    == spec_splice_block_in_rows(rows_view(orig.subrange(0, i)), g),
        decreases rest@.len(),
    {
        let x = rest.remove(0);
        proof {
            assert(x == orig[i]);
            assert(decreases_to!(orig => orig[i]));
        }
        let ghost out_before = out@;
        let y = splice_block_in_row(x, f);
        out.push(y);
        proof {
            assert forall|g: spec_fn(SpecBlock) -> Seq<SpecBlock>| #[trigger] block_splice_models(
                *f,
                g,
            ) implies rows_view(out@) == spec_splice_block_in_rows(
                rows_view(orig.subrange(0, i + 1)),
                g,
            ) by {
                assert(orig.subrange(0, i + 1) =~= orig.subrange(0, i).push(orig[i]));
                lemma_rows_view_push(orig.subrange(0, i), orig[i]);
                lemma_spec_splice_block_in_rows_push(
                    rows_view(orig.subrange(0, i)),
                    row_view(orig[i]),
                    g,
                );
                assert(out@ == out_before.push(y));
                lemma_rows_view_push(out_before, y);
            }
            i = i + 1;
            assert(rest@ == orig.subrange(i, orig.len() as int));
        }
    }
    proof {
        assert(orig.subrange(0, i) =~= orig);
    }
    out
}

/// Apply `f` to every structural node within a table cell.
pub fn splice_block_in_cell<F: Fn(Block) -> Vec<Block>>(c: Cell, f: &F) -> (r: Cell)
    requires
        block_splice_callable(*f),
    ensures
        forall|g: spec_fn(SpecBlock) -> Seq<SpecBlock>|
            #[trigger] block_splice_models(*f, g) ==> cell_view(r) == spec_splice_block_in_cell(
                cell_view(c),
                g,
            ),
    decreases c,
{
    let Cell(a, al, rs, cs, bs) = c;
    proof {
        assert(c == Cell(a, al, rs, cs, bs));
        assert(decreases_to!(Cell(a, al, rs, cs, bs) => bs));
    }
    Cell(a, al, rs, cs, splice_block_in_blocks(bs, f))
}

/// Apply `f` to every structural node within a sequence of table cells.
pub fn splice_block_in_cells<F: Fn(Block) -> Vec<Block>>(v: Vec<Cell>, f: &F) -> (r: Vec<Cell>)
    requires
        block_splice_callable(*f),
    ensures
        forall|g: spec_fn(SpecBlock) -> Seq<SpecBlock>|
            #[trigger] block_splice_models(*f, g) ==> cells_view(r@) == spec_splice_block_in_cells(
                cells_view(v@),
                g,
            ),
    decreases v,
{
    let ghost orig: Seq<Cell> = v@;
    proof {
        assert(decreases_to!(v => orig));
    }
    let mut rest = v;
    let mut out: Vec<Cell> = Vec::new();
    let ghost mut i: int = 0;
    while rest.len() > 0
        invariant
            block_splice_callable(*f),
            0 <= i <= orig.len(),
            rest@ == orig.subrange(i, orig.len() as int),
            decreases_to!(v => orig),
            forall|g: spec_fn(SpecBlock) -> Seq<SpecBlock>|
                #[trigger] block_splice_models(*f, g) ==> cells_view(out@)
                    == spec_splice_block_in_cells(cells_view(orig.subrange(0, i)), g),
        decreases rest@.len(),
    {
        let x = rest.remove(0);
        proof {
            assert(x == orig[i]);
            assert(decreases_to!(orig => orig[i]));
        }
        let ghost out_before = out@;
        let y = splice_block_in_cell(x, f);
        out.push(y);
        proof {
            assert forall|g: spec_fn(SpecBlock) -> Seq<SpecBlock>| #[trigger] block_splice_models(
                *f,
                g,
            ) implies cells_view(out@) == spec_splice_block_in_cells(
                cells_view(orig.subrange(0, i + 1)),
                g,
            ) by {
                assert(orig.subrange(0, i + 1) =~= orig.subrange(0, i).push(orig[i]));
                lemma_cells_view_push(orig.subrange(0, i), orig[i]);
                lemma_spec_splice_block_in_cells_push(
                    cells_view(orig.subrange(0, i)),
                    cell_view(orig[i]),
                    g,
                );
                assert(out@ == out_before.push(y));
                lemma_cells_view_push(out_before, y);
            }
            i = i + 1;
            assert(rest@ == orig.subrange(i, orig.len() as int));
        }
    }
    proof {
        assert(orig.subrange(0, i) =~= orig);
    }
    out
}

/// Apply `f` to every structural node within a table head.
pub fn splice_block_in_head<F: Fn(Block) -> Vec<Block>>(h: TableHead, f: &F) -> (r: TableHead)
    requires
        block_splice_callable(*f),
    ensures
        forall|g: spec_fn(SpecBlock) -> Seq<SpecBlock>|
            #[trigger] block_splice_models(*f, g) ==> table_head_view(r) == spec_splice_block_in_head(
                table_head_view(h),
                g,
            ),
    decreases h,
{
    let TableHead(a, rows) = h;
    proof {
        assert(h == TableHead(a, rows));
        assert(decreases_to!(TableHead(a, rows) => rows));
    }
    TableHead(a, splice_block_in_rows(rows, f))
}

/// Apply `f` to every structural node within one table body.
pub fn splice_block_in_body<F: Fn(Block) -> Vec<Block>>(b: TableBody, f: &F) -> (r: TableBody)
    requires
        block_splice_callable(*f),
    ensures
        forall|g: spec_fn(SpecBlock) -> Seq<SpecBlock>|
            #[trigger] block_splice_models(*f, g) ==> table_body_view(r) == spec_splice_block_in_body(
                table_body_view(b),
                g,
            ),
    decreases b,
{
    let TableBody(a, n, head_rows, body_rows) = b;
    proof {
        assert(b == TableBody(a, n, head_rows, body_rows));
        assert(decreases_to!(TableBody(a, n, head_rows, body_rows) => head_rows));
        assert(decreases_to!(TableBody(a, n, head_rows, body_rows) => body_rows));
    }
    TableBody(a, n, splice_block_in_rows(head_rows, f), splice_block_in_rows(body_rows, f))
}

/// Apply `f` to every structural node within a sequence of table bodies.
pub fn splice_block_in_bodies<F: Fn(Block) -> Vec<Block>>(v: Vec<TableBody>, f: &F) -> (r: Vec<
    TableBody,
>)
    requires
        block_splice_callable(*f),
    ensures
        forall|g: spec_fn(SpecBlock) -> Seq<SpecBlock>|
            #[trigger] block_splice_models(*f, g) ==> table_bodies_view(r@)
                == spec_splice_block_in_bodies(table_bodies_view(v@), g),
    decreases v,
{
    let ghost orig: Seq<TableBody> = v@;
    proof {
        assert(decreases_to!(v => orig));
    }
    let mut rest = v;
    let mut out: Vec<TableBody> = Vec::new();
    let ghost mut i: int = 0;
    while rest.len() > 0
        invariant
            block_splice_callable(*f),
            0 <= i <= orig.len(),
            rest@ == orig.subrange(i, orig.len() as int),
            decreases_to!(v => orig),
            forall|g: spec_fn(SpecBlock) -> Seq<SpecBlock>|
                #[trigger] block_splice_models(*f, g) ==> table_bodies_view(out@)
                    == spec_splice_block_in_bodies(table_bodies_view(orig.subrange(0, i)), g),
        decreases rest@.len(),
    {
        let x = rest.remove(0);
        proof {
            assert(x == orig[i]);
            assert(decreases_to!(orig => orig[i]));
        }
        let ghost out_before = out@;
        let y = splice_block_in_body(x, f);
        out.push(y);
        proof {
            assert forall|g: spec_fn(SpecBlock) -> Seq<SpecBlock>| #[trigger] block_splice_models(
                *f,
                g,
            ) implies table_bodies_view(out@) == spec_splice_block_in_bodies(
                table_bodies_view(orig.subrange(0, i + 1)),
                g,
            ) by {
                assert(orig.subrange(0, i + 1) =~= orig.subrange(0, i).push(orig[i]));
                lemma_table_bodies_view_push(orig.subrange(0, i), orig[i]);
                lemma_spec_splice_block_in_bodies_push(
                    table_bodies_view(orig.subrange(0, i)),
                    table_body_view(orig[i]),
                    g,
                );
                assert(out@ == out_before.push(y));
                lemma_table_bodies_view_push(out_before, y);
            }
            i = i + 1;
            assert(rest@ == orig.subrange(i, orig.len() as int));
        }
    }
    proof {
        assert(orig.subrange(0, i) =~= orig);
    }
    out
}

/// Apply `f` to every structural node within a table foot.
pub fn splice_block_in_foot<F: Fn(Block) -> Vec<Block>>(ft: TableFoot, f: &F) -> (r: TableFoot)
    requires
        block_splice_callable(*f),
    ensures
        forall|g: spec_fn(SpecBlock) -> Seq<SpecBlock>|
            #[trigger] block_splice_models(*f, g) ==> table_foot_view(r) == spec_splice_block_in_foot(
                table_foot_view(ft),
                g,
            ),
    decreases ft,
{
    let TableFoot(a, rows) = ft;
    proof {
        assert(ft == TableFoot(a, rows));
        assert(decreases_to!(TableFoot(a, rows) => rows));
    }
    TableFoot(a, splice_block_in_rows(rows, f))
}

/// Apply `f` to every structural node within one metadata value.
pub fn splice_block_in_meta_value<F: Fn(Block) -> Vec<Block>>(v: MetaValue, f: &F) -> (r: MetaValue)
    requires
        block_splice_callable(*f),
    ensures
        forall|g: spec_fn(SpecBlock) -> Seq<SpecBlock>|
            #[trigger] block_splice_models(*f, g) ==> meta_value_view(r)
                == spec_splice_block_in_meta_value(meta_value_view(v), g),
    decreases v,
{
    match v {
        MetaValue::MetaMap(m) => {
            proof {
                assert(v == MetaValue::MetaMap(m));
                assert(decreases_to!(MetaValue::MetaMap(m) => m));
            }
            MetaValue::MetaMap(splice_block_in_meta(m, f))
        }
        MetaValue::MetaList(vs) => {
            proof {
                assert(v == MetaValue::MetaList(vs));
                assert(decreases_to!(MetaValue::MetaList(vs) => vs));
            }
            MetaValue::MetaList(splice_block_in_meta_values(vs, f))
        }
        MetaValue::MetaBool(b) => {
            proof {
                assert(v == MetaValue::MetaBool(b));
            }
            MetaValue::MetaBool(b)
        }
        MetaValue::MetaString(s) => {
            proof {
                assert(v == MetaValue::MetaString(s));
            }
            MetaValue::MetaString(s)
        }
        MetaValue::MetaInlines(ils) => {
            proof {
                assert(v == MetaValue::MetaInlines(ils));
            }
            MetaValue::MetaInlines(splice_block_in_inlines(ils, f))
        }
        MetaValue::MetaBlocks(bs) => {
            proof {
                assert(v == MetaValue::MetaBlocks(bs));
            }
            MetaValue::MetaBlocks(splice_block_in_blocks(bs, f))
        }
    }
}

/// Apply `f` to every structural node within a sequence of metadata values.
pub fn splice_block_in_meta_values<F: Fn(Block) -> Vec<Block>>(v: Vec<MetaValue>, f: &F) -> (r: Vec<
    MetaValue,
>)
    requires
        block_splice_callable(*f),
    ensures
        forall|g: spec_fn(SpecBlock) -> Seq<SpecBlock>|
            #[trigger] block_splice_models(*f, g) ==> meta_values_view(r@)
                == spec_splice_block_in_meta_values(meta_values_view(v@), g),
    decreases v,
{
    let ghost orig: Seq<MetaValue> = v@;
    proof {
        assert(decreases_to!(v => orig));
    }
    let mut rest = v;
    let mut out: Vec<MetaValue> = Vec::new();
    let ghost mut i: int = 0;
    while rest.len() > 0
        invariant
            block_splice_callable(*f),
            0 <= i <= orig.len(),
            rest@ == orig.subrange(i, orig.len() as int),
            decreases_to!(v => orig),
            forall|g: spec_fn(SpecBlock) -> Seq<SpecBlock>|
                #[trigger] block_splice_models(*f, g) ==> meta_values_view(out@)
                    == spec_splice_block_in_meta_values(meta_values_view(orig.subrange(0, i)), g),
        decreases rest@.len(),
    {
        let x = rest.remove(0);
        proof {
            assert(x == orig[i]);
            assert(decreases_to!(orig => orig[i]));
        }
        let ghost out_before = out@;
        let y = splice_block_in_meta_value(x, f);
        out.push(y);
        proof {
            assert forall|g: spec_fn(SpecBlock) -> Seq<SpecBlock>| #[trigger] block_splice_models(
                *f,
                g,
            ) implies meta_values_view(out@) == spec_splice_block_in_meta_values(
                meta_values_view(orig.subrange(0, i + 1)),
                g,
            ) by {
                assert(orig.subrange(0, i + 1) =~= orig.subrange(0, i).push(orig[i]));
                lemma_meta_values_view_push(orig.subrange(0, i), orig[i]);
                lemma_spec_splice_block_in_meta_values_push(
                    meta_values_view(orig.subrange(0, i)),
                    meta_value_view(orig[i]),
                    g,
                );
                assert(out@ == out_before.push(y));
                lemma_meta_values_view_push(out_before, y);
            }
            i = i + 1;
            assert(rest@ == orig.subrange(i, orig.len() as int));
        }
    }
    proof {
        assert(orig.subrange(0, i) =~= orig);
    }
    out
}

/// Apply `f` to every structural node within the metadata mapping. Keys and
/// their order are untouched.
pub fn splice_block_in_meta<F: Fn(Block) -> Vec<Block>>(m: Meta, f: &F) -> (r: Meta)
    requires
        block_splice_callable(*f),
    ensures
        forall|g: spec_fn(SpecBlock) -> Seq<SpecBlock>|
            #[trigger] block_splice_models(*f, g) ==> meta_view(r) == spec_splice_block_in_meta(
                meta_view(m),
                g,
            ),
    decreases m,
{
    let Meta { entries } = m;
    proof {
        assert(m == Meta { entries });
        assert(decreases_to!(m => entries));
    }
    let ghost orig: Seq<(String, MetaValue)> = entries@;
    proof {
        assert(decreases_to!(entries => orig));
    }
    let mut rest = entries;
    let mut out: Vec<(String, MetaValue)> = Vec::new();
    let ghost mut i: int = 0;
    while rest.len() > 0
        invariant
            block_splice_callable(*f),
            0 <= i <= orig.len(),
            rest@ == orig.subrange(i, orig.len() as int),
            decreases_to!(m => orig),
            forall|g: spec_fn(SpecBlock) -> Seq<SpecBlock>|
                #[trigger] block_splice_models(*f, g) ==> meta_entries_view(out@)
                    == spec_splice_block_in_meta(meta_entries_view(orig.subrange(0, i)), g),
        decreases rest@.len(),
    {
        let x = rest.remove(0);
        proof {
            assert(x == orig[i]);
            assert(decreases_to!(orig => orig[i]));
        }
        let (k, val) = x;
        proof {
            assert(x == (k, val));
            assert(decreases_to!(orig[i] => val));
        }
        let ghost out_before = out@;
        let y = (k, splice_block_in_meta_value(val, f));
        out.push(y);
        proof {
            assert forall|g: spec_fn(SpecBlock) -> Seq<SpecBlock>| #[trigger] block_splice_models(
                *f,
                g,
            ) implies meta_entries_view(out@) == spec_splice_block_in_meta(
                meta_entries_view(orig.subrange(0, i + 1)),
                g,
            ) by {
                assert(orig.subrange(0, i + 1) =~= orig.subrange(0, i).push(orig[i]));
                lemma_meta_entries_view_push(orig.subrange(0, i), orig[i]);
                lemma_spec_splice_block_in_meta_push(
                    meta_entries_view(orig.subrange(0, i)),
                    (orig[i].0@, meta_value_view(orig[i].1)),
                    g,
                );
                assert(out@ == out_before.push(y));
                lemma_meta_entries_view_push(out_before, y);
            }
            i = i + 1;
            assert(rest@ == orig.subrange(i, orig.len() as int));
        }
    }
    proof {
        assert(orig.subrange(0, i) =~= orig);
    }
    Meta { entries: out }
}

/// Apply `f` to every structural node of a whole document: in the metadata
/// and in the body. The version marker is untouched.
pub fn splice_block_in_pandoc<F: Fn(Block) -> Vec<Block>>(d: Pandoc, f: &F) -> (r: Pandoc)
    requires
        block_splice_callable(*f),
    ensures
        forall|g: spec_fn(SpecBlock) -> Seq<SpecBlock>|
            #[trigger] block_splice_models(*f, g) ==> pandoc_view(r) == spec_splice_block_in_pandoc(
                pandoc_view(d),
                g,
            ),
    decreases d,
{
    let Pandoc { version, meta, blocks } = d;
    proof {
        assert(d == Pandoc { version, meta, blocks });
    }
    Pandoc {
        version,
        meta: splice_block_in_meta(meta, f),
        blocks: splice_block_in_blocks(blocks, f),
    }
}

} // verus!

