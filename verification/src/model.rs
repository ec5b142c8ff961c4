//! The mathematical model of the document tree.
//!
//! Every type of [`crate::definition`] has a spec-level twin here in which
//! every `Vec` is a `Seq` and every `String` a `Seq<char>`, together with a
//! view function mapping the executable value to its model. All contracts of
//! the rewrite engine are stated over these models: two trees are "the same
//! document" exactly when their models are equal.
use vstd::prelude::*;
use crate::definition::{
    Alignment, Attr, Block, Caption, Cell, Citation, CitationMode, ColSpec, ColWidth, Inline,
    ListNumberDelim, ListNumberStyle, MathType, Meta, MetaValue, Pandoc, QuoteType, Row, TableBody,
    TableFoot, TableHead,
};

verus! {

/// Model of a whole document.
pub struct SpecPandoc {
    pub version: Seq<u32>,
    pub meta: SpecMeta,
    pub blocks: Seq<SpecBlock>,
}

/// Model of the metadata mapping: its entries, in order.
pub type SpecMeta = Seq<(Seq<char>, SpecMetaValue)>;

/// Model of a metadata value.
pub enum SpecMetaValue {
    MetaMap(SpecMeta),
    MetaList(Seq<SpecMetaValue>),
    MetaBool(bool),
    MetaString(Seq<char>),
    MetaInlines(Seq<SpecInline>),
    MetaBlocks(Seq<SpecBlock>),
}

/// Model of a structural node.
pub enum SpecBlock {
    Plain(Seq<SpecInline>),
    Para(Seq<SpecInline>),
    LineBlock(Seq<Seq<SpecInline>>),
    CodeBlock(SpecAttr, Seq<char>),
    RawBlock(Seq<char>, Seq<char>),
    BlockQuote(Seq<SpecBlock>),
    OrderedList(SpecListAttributes, Seq<Seq<SpecBlock>>),
    BulletList(Seq<Seq<SpecBlock>>),
    DefinitionList(Seq<(Seq<SpecInline>, Seq<Seq<SpecBlock>>)>),
    Header(u8, SpecAttr, Seq<SpecInline>),
    HorizontalRule,
    Table(
        SpecAttr,
        SpecCaption,
        Seq<SpecColSpec>,
        SpecTableHead,
        Seq<SpecTableBody>,
        SpecTableFoot,
    ),
    Div(SpecAttr, Seq<SpecBlock>),
    Null,
}

/// Model of a text-level node.
pub enum SpecInline {
    Str(Seq<char>),
    Emph(Seq<SpecInline>),
    Underline(Seq<SpecInline>),
    Strong(Seq<SpecInline>),
    Strikeout(Seq<SpecInline>),
    Superscript(Seq<SpecInline>),
    Subscript(Seq<SpecInline>),
    SmallCaps(Seq<SpecInline>),
    Quoted(QuoteType, Seq<SpecInline>),
    Cite(Seq<SpecCitation>, Seq<SpecInline>),
    Code(SpecAttr, Seq<char>),
    Space,
    SoftBreak,
    LineBreak,
    Math(MathType, Seq<char>),
    RawInline(Seq<char>, Seq<char>),
    Link(SpecAttr, Seq<SpecInline>, SpecTarget),
    Image(SpecAttr, Seq<SpecInline>, SpecTarget),
    Note(Seq<SpecBlock>),
    Span(SpecAttr, Seq<SpecInline>),
}

/// Model of an attribute triple.
pub struct SpecAttr {
    pub id: Seq<char>,
    pub classes: Seq<Seq<char>>,
    pub attributes: Seq<(Seq<char>, Seq<char>)>,
}

/// Model of a link or image target.
pub type SpecTarget = (Seq<char>, Seq<char>);

/// Model of ordered-list attributes.
pub type SpecListAttributes = (u64, ListNumberStyle, ListNumberDelim);

/// Model of a citation record.
pub struct SpecCitation {
    pub citation_id: Seq<char>,
    pub citation_prefix: Seq<SpecInline>,
    pub citation_suffix: Seq<SpecInline>,
    pub citation_mode: CitationMode,
    pub citation_note_num: u64,
    pub citation_hash: u64,
}

/// Model of a caption.
pub struct SpecCaption(pub Option<Seq<SpecInline>>, pub Seq<SpecBlock>);

/// Model of a column width.
pub enum SpecColWidth {
    ColWidth(Seq<char>),
    ColWidthDefault,
}

/// Model of a column spec.
pub struct SpecColSpec(pub Alignment, pub SpecColWidth);

/// Model of a table head.
pub struct SpecTableHead(pub SpecAttr, pub Seq<SpecRow>);

/// Model of a table row.
pub struct SpecRow(pub SpecAttr, pub Seq<SpecCell>);

/// Model of a table cell.
pub struct SpecCell(pub SpecAttr, pub Alignment, pub u32, pub u32, pub Seq<SpecBlock>);

/// Model of one table body.
pub struct SpecTableBody(pub SpecAttr, pub u32, pub Seq<SpecRow>, pub Seq<SpecRow>);

/// Model of a table foot.
pub struct SpecTableFoot(pub SpecAttr, pub Seq<SpecRow>);

/// Model of an attribute triple.
pub open spec fn attr_view(a: Attr) -> SpecAttr {
    SpecAttr {
        id: a.id@,
        classes: a.classes@.map_values(|c: String| c@),
        attributes: a.attributes@.map_values(|kv: (String, String)| (kv.0@, kv.1@)),
    }
}

/// Model of a target.
pub open spec fn target_view(t: (String, String)) -> SpecTarget {
    (t.0@, t.1@)
}

/// Model of a column width.
pub open spec fn colwidth_view(w: ColWidth) -> SpecColWidth {
    match w {
        ColWidth::ColWidth(s) => SpecColWidth::ColWidth(s@),
        ColWidth::ColWidthDefault => SpecColWidth::ColWidthDefault,
    }
}

/// Model of a column spec.
pub open spec fn colspec_view(c: ColSpec) -> SpecColSpec {
    SpecColSpec(c.0, colwidth_view(c.1))
}

/// Model of a sequence of column specs.
pub open spec fn colspecs_view(s: Seq<ColSpec>) -> Seq<SpecColSpec> {
    s.map_values(|c: ColSpec| colspec_view(c))
}

/// Model of a whole document.
pub open spec fn pandoc_view(d: Pandoc) -> SpecPandoc
    decreases d,
{
    SpecPandoc { version: d.version@, meta: meta_view(d.meta), blocks: blocks_view(d.blocks@) }
}

/// Model of the metadata mapping.
pub open spec fn meta_view(m: Meta) -> SpecMeta
    decreases m,
{
    meta_entries_view(m.entries@)
}

/// Model of a sequence of metadata entries.
pub open spec fn meta_entries_view(s: Seq<(String, MetaValue)>) -> SpecMeta
    decreases s,
{
    if s.len() == 0 {
        Seq::empty()
    } else {
        meta_entries_view(s.drop_last()).push((s.last().0@, meta_value_view(s.last().1)))
    }
}

/// Model of a metadata value.
pub open spec fn meta_value_view(v: MetaValue) -> SpecMetaValue
    decreases v,
{
    match v {
        MetaValue::MetaMap(m) => SpecMetaValue::MetaMap(meta_view(m)),
        MetaValue::MetaList(vs) => SpecMetaValue::MetaList(meta_values_view(vs@)),
        MetaValue::MetaBool(b) => SpecMetaValue::MetaBool(b),
        MetaValue::MetaString(s) => SpecMetaValue::MetaString(s@),
        MetaValue::MetaInlines(ils) => SpecMetaValue::MetaInlines(inlines_view(ils@)),
        MetaValue::MetaBlocks(bs) => SpecMetaValue::MetaBlocks(blocks_view(bs@)),
    }
}

/// Model of a sequence of metadata values.
pub open spec fn meta_values_view(s: Seq<MetaValue>) -> Seq<SpecMetaValue>
    decreases s,
{
    if s.len() == 0 {
        Seq::empty()
    } else {
        meta_values_view(s.drop_last()).push(meta_value_view(s.last()))
    }
}

/// Model of a structural node.
pub open spec fn block_view(b: Block) -> SpecBlock
    decreases b,
{
    match b {
        Block::Plain(ils) => SpecBlock::Plain(inlines_view(ils@)),
        Block::Para(ils) => SpecBlock::Para(inlines_view(ils@)),
        Block::LineBlock(ilss) => SpecBlock::LineBlock(inliness_view(ilss@)),
        Block::CodeBlock(a, s) => SpecBlock::CodeBlock(attr_view(a), s@),
        Block::RawBlock(f, s) => SpecBlock::RawBlock(f@, s@),
        Block::BlockQuote(bs) => SpecBlock::BlockQuote(blocks_view(bs@)),
        Block::OrderedList(la, bss) => SpecBlock::OrderedList(
            (la.0, la.1, la.2),
            blockss_view(bss@),
        ),
        Block::BulletList(bss) => SpecBlock::BulletList(blockss_view(bss@)),
        Block::DefinitionList(defs) => SpecBlock::DefinitionList(defs_view(defs@)),
        Block::Header(lvl, a, ils) => SpecBlock::Header(lvl, attr_view(a), inlines_view(ils@)),
        Block::HorizontalRule => SpecBlock::HorizontalRule,
        Block::Table(a, c, cs, h, bs, ft) => SpecBlock::Table(
            attr_view(a),
            caption_view(c),
            colspecs_view(cs@),
            table_head_view(h),
            table_bodies_view(bs@),
            table_foot_view(ft),
        ),
        Block::Div(a, bs) => SpecBlock::Div(attr_view(a), blocks_view(bs@)),
        Block::Null => SpecBlock::Null,
    }
}

/// Model of a sequence of structural nodes.
pub open spec fn blocks_view(s: Seq<Block>) -> Seq<SpecBlock>
    decreases s,
{
    if s.len() == 0 {
        Seq::empty()
    } else {
        blocks_view(s.drop_last()).push(block_view(s.last()))
    }
}

/// Model of a sequence of structural-node sequences.
pub open spec fn blockss_view(s: Seq<Vec<Block>>) -> Seq<Seq<SpecBlock>>
    decreases s,
{
    if s.len() == 0 {
        Seq::empty()
    } else {
        blockss_view(s.drop_last()).push(blocks_view(s.last()@))
    }
}

/// Model of a sequence of term/definition pairs.
pub open spec fn defs_view(s: Seq<(Vec<Inline>, Vec<Vec<Block>>)>) -> Seq<
    (Seq<SpecInline>, Seq<Seq<SpecBlock>>),
>
    decreases s,
{
    if s.len() == 0 {
        Seq::empty()
    } else {
        defs_view(s.drop_last()).push(
            (inlines_view(s.last().0@), blockss_view(s.last().1@)),
        )
    }
}

/// Model of a text-level node.
pub open spec fn inline_view(i: Inline) -> SpecInline
    decreases i,
{
    match i {
        Inline::Str(s) => SpecInline::Str(s@),
        Inline::Emph(ils) => SpecInline::Emph(inlines_view(ils@)),
        Inline::Underline(ils) => SpecInline::Underline(inlines_view(ils@)),
        Inline::Strong(ils) => SpecInline::Strong(inlines_view(ils@)),
        Inline::Strikeout(ils) => SpecInline::Strikeout(inlines_view(ils@)),
        Inline::Superscript(ils) => SpecInline::Superscript(inlines_view(ils@)),
        Inline::Subscript(ils) => SpecInline::Subscript(inlines_view(ils@)),
        Inline::SmallCaps(ils) => SpecInline::SmallCaps(inlines_view(ils@)),
        Inline::Quoted(q, ils) => SpecInline::Quoted(q, inlines_view(ils@)),
        Inline::Cite(cits, ils) => SpecInline::Cite(citations_view(cits@), inlines_view(ils@)),
        Inline::Code(a, s) => SpecInline::Code(attr_view(a), s@),
        Inline::Space => SpecInline::Space,
        Inline::SoftBreak => SpecInline::SoftBreak,
        Inline::LineBreak => SpecInline::LineBreak,
        Inline::Math(m, s) => SpecInline::Math(m, s@),
        Inline::RawInline(f, s) => SpecInline::RawInline(f@, s@),
        Inline::Link(a, ils, t) => SpecInline::Link(attr_view(a), inlines_view(ils@), target_view(t)),
        Inline::Image(a, ils, t) => SpecInline::Image(
            attr_view(a),
            inlines_view(ils@),
            target_view(t),
        ),
        Inline::Note(bs) => SpecInline::Note(blocks_view(bs@)),
        Inline::Span(a, ils) => SpecInline::Span(attr_view(a), inlines_view(ils@)),
    }
}

/// Model of a sequence of text-level nodes.
pub open spec fn inlines_view(s: Seq<Inline>) -> Seq<SpecInline>
    decreases s,
{
    if s.len() == 0 {
        Seq::empty()
    } else {
        inlines_view(s.drop_last()).push(inline_view(s.last()))
    }
}

/// Model of a sequence of text-level-node runs.
pub open spec fn inliness_view(s: Seq<Vec<Inline>>) -> Seq<Seq<SpecInline>>
    decreases s,
{
    if s.len() == 0 {
        Seq::empty()
    } else {
        inliness_view(s.drop_last()).push(inlines_view(s.last()@))
    }
}

/// Model of a caption.
pub open spec fn caption_view(c: Caption) -> SpecCaption
    decreases c,
{
    SpecCaption(
        match c.0 {
            Option::Some(sc) => Option::Some(inlines_view(sc@)),
            Option::None => Option::None,
        },
        blocks_view(c.1@),
    )
}

/// Model of a citation record.
pub open spec fn citation_view(c: Citation) -> SpecCitation
    decreases c,
{
    SpecCitation {
        citation_id: c.citation_id@,
        citation_prefix: inlines_view(c.citation_prefix@),
        citation_suffix: inlines_view(c.citation_suffix@),
        citation_mode: c.citation_mode,
        citation_note_num: c.citation_note_num,
        citation_hash: c.citation_hash,
    }
}

/// Model of a sequence of citation records.
pub open spec fn citations_view(s: Seq<Citation>) -> Seq<SpecCitation>
    decreases s,
{
    if s.len() == 0 {
        Seq::empty()
    } else {
        citations_view(s.drop_last()).push(citation_view(s.last()))
    }
}

/// Model of a table row.
pub open spec fn row_view(r: Row) -> SpecRow
    decreases r,
{
    SpecRow(attr_view(r.0), cells_view(r.1@))
}

/// Model of a sequence of table rows.
pub open spec fn rows_view(s: Seq<Row>) -> Seq<SpecRow>
    decreases s,
{
    if s.len() == 0 {
        Seq::empty()
    } else {
        rows_view(s.drop_last()).push(row_view(s.last()))
    }
}

/// Model of a table cell.
pub open spec fn cell_view(c: Cell) -> SpecCell
    decreases c,
{
    SpecCell(attr_view(c.0), c.1, c.2, c.3, blocks_view(c.4@))
}

/// Model of a sequence of table cells.
pub open spec fn cells_view(s: Seq<Cell>) -> Seq<SpecCell>
    decreases s,
{
    if s.len() == 0 {
        Seq::empty()
    } else {
        cells_view(s.drop_last()).push(cell_view(s.last()))
    }
}

/// Model of a table head.
pub open spec fn table_head_view(h: TableHead) -> SpecTableHead
    decreases h,
{
    SpecTableHead(attr_view(h.0), rows_view(h.1@))
}

/// Model of one table body.
pub open spec fn table_body_view(b: TableBody) -> SpecTableBody
    decreases b,
{
    SpecTableBody(attr_view(b.0), b.1, rows_view(b.2@), rows_view(b.3@))
}

/// Model of a sequence of table bodies.
pub open spec fn table_bodies_view(s: Seq<TableBody>) -> Seq<SpecTableBody>
    decreases s,
{
    if s.len() == 0 {
        Seq::empty()
    } else {
        table_bodies_view(s.drop_last()).push(table_body_view(s.last()))
    }
}

/// Model of a table foot.
pub open spec fn table_foot_view(f: TableFoot) -> SpecTableFoot
    decreases f,
{
    SpecTableFoot(attr_view(f.0), rows_view(f.1@))
}

/// Extending a sequence of structural nodes extends its model.
pub proof fn lemma_blocks_view_push(s: Seq<Block>, x: Block)
    ensures
        blocks_view(s.push(x)) == blocks_view(s).push(block_view(x)),
{
    assert(s.push(x).drop_last() =~= s);
}

/// Extending a sequence of structural-node sequences extends its model.
pub proof fn lemma_blockss_view_push(s: Seq<Vec<Block>>, x: Vec<Block>)
    ensures
        blockss_view(s.push(x)) == blockss_view(s).push(blocks_view(x@)),
{
    assert(s.push(x).drop_last() =~= s);
}

/// Extending a sequence of term/definition pairs extends its model.
pub proof fn lemma_defs_view_push(s: Seq<(Vec<Inline>, Vec<Vec<Block>>)>, x: (Vec<Inline>, Vec<Vec<Block>>))
    ensures
        defs_view(s.push(x)) == defs_view(s).push((inlines_view(x.0@), blockss_view(x.1@))),
{
    assert(s.push(x).drop_last() =~= s);
}

/// Extending a sequence of text-level nodes extends its model.
pub proof fn lemma_inlines_view_push(s: Seq<Inline>, x: Inline)
    ensures
        inlines_view(s.push(x)) == inlines_view(s).push(inline_view(x)),
{
    assert(s.push(x).drop_last() =~= s);
}

/// Extending a sequence of text-level-node runs extends its model.
pub proof fn lemma_inliness_view_push(s: Seq<Vec<Inline>>, x: Vec<Inline>)
    ensures
        inliness_view(s.push(x)) == inliness_view(s).push(inlines_view(x@)),
{
    assert(s.push(x).drop_last() =~= s);
}

/// Extending a sequence of citation records extends its model.
pub proof fn lemma_citations_view_push(s: Seq<Citation>, x: Citation)
    ensures
        citations_view(s.push(x)) == citations_view(s).push(citation_view(x)),
{
    assert(s.push(x).drop_last() =~= s);
}

/// Extending a sequence of rows extends its model.
pub proof fn lemma_rows_view_push(s: Seq<Row>, x: Row)
    ensures
        rows_view(s.push(x)) == rows_view(s).push(row_view(x)),
{
    assert(s.push(x).drop_last() =~= s);
}

/// Extending a sequence of cells extends its model.
pub proof fn lemma_cells_view_push(s: Seq<Cell>, x: Cell)
    ensures
        cells_view(s.push(x)) == cells_view(s).push(cell_view(x)),
{
    assert(s.push(x).drop_last() =~= s);
}

/// Extending a sequence of table bodies extends its model.
pub proof fn lemma_table_bodies_view_push(s: Seq<TableBody>, x: TableBody)
    ensures
        table_bodies_view(s.push(x)) == table_bodies_view(s).push(table_body_view(x)),
{
    assert(s.push(x).drop_last() =~= s);
}

/// Extending a sequence of metadata entries extends its model.
pub proof fn lemma_meta_entries_view_push(s: Seq<(String, MetaValue)>, x: (String, MetaValue))
    ensures
        meta_entries_view(s.push(x)) == meta_entries_view(s).push((x.0@, meta_value_view(x.1))),
{
    assert(s.push(x).drop_last() =~= s);
}

/// Extending a sequence of metadata values extends its model.
pub proof fn lemma_meta_values_view_push(s: Seq<MetaValue>, x: MetaValue)
    ensures
        meta_values_view(s.push(x)) == meta_values_view(s).push(meta_value_view(x)),
{
    assert(s.push(x).drop_last() =~= s);
}

/// The model of a concatenation of text-level-node sequences is the
/// concatenation of the models.
pub proof fn lemma_inlines_view_concat(a: Seq<Inline>, b: Seq<Inline>)
    ensures
        inlines_view(a + b) == inlines_view(a) + inlines_view(b),
    decreases b.len(),
{
    if b.len() == 0 {
        assert(a + b =~= a);
        assert(inlines_view(a) + inlines_view(b) =~= inlines_view(a));
    } else {
        lemma_inlines_view_concat(a, b.drop_last());
        assert((a + b).drop_last() =~= a + b.drop_last());
        assert((a + b).last() == b.last());
        assert(inlines_view(a + b) =~= inlines_view(a) + inlines_view(b));
    }
}

/// The model of a concatenation of structural-node sequences is the
/// concatenation of the models.
pub proof fn lemma_blocks_view_concat(a: Seq<Block>, b: Seq<Block>)
    ensures
        blocks_view(a + b) == blocks_view(a) + blocks_view(b),
    decreases b.len(),
{
    if b.len() == 0 {
        assert(a + b =~= a);
        assert(blocks_view(a) + blocks_view(b) =~= blocks_view(a));
    } else {
        lemma_blocks_view_concat(a, b.drop_last());
        assert((a + b).drop_last() =~= a + b.drop_last());
        assert((a + b).last() == b.last());
        assert(blocks_view(a + b) =~= blocks_view(a) + blocks_view(b));
    }
}

/// Strict lexicographic order on text, by character code.
pub open spec fn spec_str_lt(a: Seq<char>, b: Seq<char>) -> bool
    decreases a.len(),
{
    if b.len() == 0 {
        false
    } else if a.len() == 0 {
        true
    } else if a[0] != b[0] {
        (a[0] as u32) < (b[0] as u32)
    } else {
        spec_str_lt(a.skip(1), b.skip(1))
    }
}

/// The metadata mapping's well-formedness: keys strictly increasing, hence
/// unique, in lexicographic order. Conforming producers maintain this; the
/// rewrite engine preserves keys and their order (see the key-preservation
/// lemmas of the walk modules) but does not itself enforce it.
pub open spec fn spec_meta_sorted(m: SpecMeta) -> bool {
    forall|i: int, j: int| 0 <= i < j < m.len() ==> spec_str_lt(m[i].0, m[j].0)
}

} // verus!
