//! The document model: a typed abstract syntax tree for structured documents.
//!
//! A document holds a version marker, a metadata mapping and an ordered
//! sequence of structural nodes ([`Block`]); structural nodes contain runs of
//! text-level nodes ([`Inline`]). Every value is plain data; the rewrite
//! engine in the walk modules consumes a tree by ownership and produces a
//! brand-new tree.
use vstd::prelude::*;

verus! {

/// A whole document: version marker, metadata, and structural nodes.
#[derive(Debug, PartialEq)]
pub struct Pandoc {
    /// Grammar revision identifier, e.g. `[1, 23, 1]`.
    pub version: Vec<u32>,
    /// Out-of-band key/value annotations.
    pub meta: Meta,
    /// The document body, in order.
    pub blocks: Vec<Block>,
}

/// The metadata mapping: entries of unique keys and metadata values.
///
/// Conforming producers keep the entries sorted lexicographically by key
/// (see [`crate::model::spec_meta_sorted`]); the rewrite engine never
/// reorders them.
#[derive(Debug, PartialEq)]
pub struct Meta {
    pub entries: Vec<(String, MetaValue)>,
}

/// A metadata value.
#[derive(Debug, PartialEq)]
pub enum MetaValue {
    MetaMap(Meta),
    MetaList(Vec<MetaValue>),
    MetaBool(bool),
    MetaString(String),
    MetaInlines(Vec<Inline>),
    MetaBlocks(Vec<Block>),
}

/// A structural (block-level) node.
#[derive(Debug, PartialEq)]
pub enum Block {
    /// Plain text, not a paragraph
    Plain(Vec<Inline>),
    /// Paragraph
    Para(Vec<Inline>),
    /// Multiple non-breaking lines
    LineBlock(Vec<Vec<Inline>>),
    /// Literal code block
    CodeBlock(Attr, String),
    /// Raw passthrough block, tagged by target format
    RawBlock(Format, String),
    /// Block quote
    BlockQuote(Vec<Block>),
    /// Ordered (numbered) list
    OrderedList(ListAttributes, Vec<Vec<Block>>),
    /// Bullet list
    BulletList(Vec<Vec<Block>>),
    /// Definition list: term/definition pairs
    DefinitionList(Vec<(Vec<Inline>, Vec<Vec<Block>>)>),
    /// Heading: level, attributes, text
    Header(u8, Attr, Vec<Inline>),
    /// Horizontal rule
    HorizontalRule,
    /// Table: attributes, caption, column specs, head, bodies, foot
    Table(Attr, Caption, Vec<ColSpec>, TableHead, Vec<TableBody>, TableFoot),
    /// Generic container with attributes
    Div(Attr, Vec<Block>),
    /// No-op placeholder
    Null,
}

/// A text-level (inline) node.
#[derive(Debug, PartialEq)]
pub enum Inline {
    /// Text
    Str(String),
    /// Emphasized text
    Emph(Vec<Inline>),
    /// Underlined text
    Underline(Vec<Inline>),
    /// Strongly emphasized text
    Strong(Vec<Inline>),
    /// Strikeout text
    Strikeout(Vec<Inline>),
    /// Superscripted text
    Superscript(Vec<Inline>),
    /// Subscripted text
    Subscript(Vec<Inline>),
    /// Small caps text
    SmallCaps(Vec<Inline>),
    /// Quoted text
    Quoted(QuoteType, Vec<Inline>),
    /// Citation
    Cite(Vec<Citation>, Vec<Inline>),
    /// Inline code
    Code(Attr, String),
    /// Inter-word space
    Space,
    /// Soft line break
    SoftBreak,
    /// Hard line break
    LineBreak,
    /// TeX math
    Math(MathType, String),
    /// Raw inline passthrough
    RawInline(Format, String),
    /// Hyperlink: alt text, target
    Link(Attr, Vec<Inline>, Target),
    /// Image: alt text, target
    Image(Attr, Vec<Inline>, Target),
    /// Footnote or endnote
    Note(Vec<Block>),
    /// Generic inline container with attributes
    Span(Attr, Vec<Inline>),
}

/// Key/value pairs of an attribute triple.
pub type AttrList = Vec<(String, String)>;

/// Attributes: identifier, class names, key/value pairs.
#[derive(Debug, PartialEq)]
pub struct Attr {
    pub id: String,
    pub classes: Vec<String>,
    pub attributes: AttrList,
}

impl Attr {
    /// An empty attribute triple.
    pub fn empty() -> (r: Attr)
        ensures
            r.id@.len() == 0,
            r.classes@.len() == 0,
            r.attributes@.len() == 0,
    {
        Attr { id: String::new(), classes: Vec::new(), attributes: Vec::new() }
    }
}

/// The optional short form of a caption.
pub type ShortCaption = Vec<Inline>;

/// A table caption: optional short form and a long form.
#[derive(Debug, PartialEq)]
pub struct Caption(pub Option<ShortCaption>, pub Vec<Block>);

/// Display or inline mathematics.
#[derive(Debug, PartialEq)]
pub enum MathType {
    DisplayMath,
    InlineMath,
}

/// Single or double quotes.
#[derive(Debug, PartialEq)]
pub enum QuoteType {
    SingleQuote,
    DoubleQuote,
}

/// A hyperlink or image target: URL and title.
pub type Target = (String, String);

/// The name of an output format, for raw passthrough nodes.
pub type Format = String;

/// How a citation is presented.
#[derive(Debug, PartialEq)]
pub enum CitationMode {
    AuthorInText,
    SuppressAuthor,
    NormalCitation,
}

/// One citation record inside a [`Inline::Cite`] node.
#[derive(Debug, PartialEq)]
pub struct Citation {
    pub citation_id: String,
    pub citation_prefix: Vec<Inline>,
    pub citation_suffix: Vec<Inline>,
    pub citation_mode: CitationMode,
    pub citation_note_num: u64,
    pub citation_hash: u64,
}

/// Numbering style of an ordered list.
#[derive(Debug, PartialEq)]
pub enum ListNumberStyle {
    DefaultStyle,
    Example,
    Decimal,
    LowerRoman,
    UpperRoman,
    LowerAlpha,
    UpperAlpha,
}

/// Delimiter of an ordered list's numbers.
#[derive(Debug, PartialEq)]
pub enum ListNumberDelim {
    DefaultDelim,
    Period,
    OneParen,
    TwoParens,
}

/// Start number, numbering style and delimiter of an ordered list.
pub type ListAttributes = (u64, ListNumberStyle, ListNumberDelim);

/// Horizontal alignment of a table column or cell.
#[derive(Debug, PartialEq)]
pub enum Alignment {
    AlignLeft,
    AlignRight,
    AlignCenter,
    AlignDefault,
}

/// One column's alignment and width.
#[derive(Debug, PartialEq)]
pub struct ColSpec(pub Alignment, pub ColWidth);

/// A column width: a fraction of the page width, or the default.
///
/// The fraction is carried as its decimal text (for example `"0.5"`): the
/// rewrite engine never computes with it, only carries it through, and the
/// text form keeps the value exact.
#[derive(Debug, PartialEq)]
pub enum ColWidth {
    ColWidth(String),
    ColWidthDefault,
}

/// A table head: attributes and header rows.
#[derive(Debug, PartialEq)]
pub struct TableHead(pub Attr, pub Vec<Row>);

/// A table row: attributes and cells.
#[derive(Debug, PartialEq)]
pub struct Row(pub Attr, pub Vec<Cell>);

/// How many rows a cell spans.
pub type RowSpan = u32;

/// How many columns a cell spans.
pub type ColSpan = u32;

/// A table cell: attributes, alignment, spans, and contents.
#[derive(Debug, PartialEq)]
pub struct Cell(pub Attr, pub Alignment, pub RowSpan, pub ColSpan, pub Vec<Block>);

/// How many columns of a body's rows are header columns.
pub type RowHeadColumns = u32;

/// One table body: attributes, header-column count, header rows, body rows.
#[derive(Debug, PartialEq)]
pub struct TableBody(pub Attr, pub RowHeadColumns, pub Vec<Row>, pub Vec<Row>);

/// A table foot: attributes and footer rows.
#[derive(Debug, PartialEq)]
pub struct TableFoot(pub Attr, pub Vec<Row>);

} // verus!
