//! Postorder invocation order and full coverage of every child position.
use pandoc::definition::{
    Alignment, Attr, Block, Caption, Cell, Citation, CitationMode, ColSpec, ColWidth, Inline,
    ListNumberDelim, ListNumberStyle, MathType, Meta, MetaValue, Pandoc, QuoteType, Row,
    TableBody, TableFoot, TableHead,
};
use pandoc::walk_inline::{walk_inline_in_inlines, walk_inline_in_pandoc};
use std::cell::RefCell;

fn s(t: &str) -> Inline {
    Inline::Str(t.to_string())
}

// An independent count of the text-level nodes in a value: every composite
// text-level node counts itself, plus everything in every child position.
fn count_in_inline(i: &Inline) -> usize {
    1 + match i {
        Inline::Emph(ils)
        | Inline::Underline(ils)
        | Inline::Strong(ils)
        | Inline::Strikeout(ils)
        | Inline::Superscript(ils)
        | Inline::Subscript(ils)
        | Inline::SmallCaps(ils)
        | Inline::Quoted(_, ils)
        | Inline::Link(_, ils, _)
        | Inline::Image(_, ils, _)
        | Inline::Span(_, ils) => count_in_inlines(ils),
        Inline::Cite(cits, ils) => {
            cits.iter()
                .map(|c| count_in_inlines(&c.citation_prefix) + count_in_inlines(&c.citation_suffix))
                .sum::<usize>()
                + count_in_inlines(ils)
        }
        Inline::Note(bs) => count_in_blocks(bs),
        _ => 0,
    }
}

fn count_in_inlines(ils: &[Inline]) -> usize {
    ils.iter().map(count_in_inline).sum()
}

fn count_in_blocks(bs: &[Block]) -> usize {
    bs.iter().map(count_in_block).sum()
}

fn count_in_rows(rows: &[Row]) -> usize {
    rows.iter()
        .map(|r| r.1.iter().map(|c| count_in_blocks(&c.4)).sum::<usize>())
        .sum()
}

fn count_in_block(b: &Block) -> usize {
    match b {
        Block::Plain(ils) | Block::Para(ils) | Block::Header(_, _, ils) => count_in_inlines(ils),
        Block::LineBlock(ilss) => ilss.iter().map(|r| count_in_inlines(r)).sum(),
        Block::BlockQuote(bs) | Block::Div(_, bs) => count_in_blocks(bs),
        Block::OrderedList(_, bss) | Block::BulletList(bss) => {
            bss.iter().map(|bs| count_in_blocks(bs)).sum()
        }
        Block::DefinitionList(defs) => defs
            .iter()
            .map(|(term, dss)| {
                count_in_inlines(term) + dss.iter().map(|bs| count_in_blocks(bs)).sum::<usize>()
            })
            .sum(),
        Block::Table(_, caption, _, head, bodies, foot) => {
            let Caption(short, long) = caption;
            short.as_ref().map_or(0, |sc| count_in_inlines(sc))
                + count_in_blocks(long)
                + count_in_rows(&head.1)
                + bodies
                    .iter()
                    .map(|tb| count_in_rows(&tb.2) + count_in_rows(&tb.3))
                    .sum::<usize>()
                + count_in_rows(&foot.1)
        }
        _ => 0,
    }
}

fn count_in_meta_value(v: &MetaValue) -> usize {
    match v {
        MetaValue::MetaMap(m) => count_in_meta(m),
        MetaValue::MetaList(vs) => vs.iter().map(count_in_meta_value).sum(),
        MetaValue::MetaInlines(ils) => count_in_inlines(ils),
        MetaValue::MetaBlocks(bs) => count_in_blocks(bs),
        _ => 0,
    }
}

fn count_in_meta(m: &Meta) -> usize {
    m.entries.iter().map(|e| count_in_meta_value(&e.1)).sum()
}

fn count_in_pandoc(d: &Pandoc) -> usize {
    count_in_meta(&d.meta) + count_in_blocks(&d.blocks)
}

// A document holding one instance of every structural-node variant and
// every text-level-node variant, with a table carrying head, body and foot
// sections, a definition list, and a citation with prefix and suffix.
fn synthetic_doc() -> Pandoc {
    let cell = |t: &str| Cell(Attr::empty(), Alignment::AlignDefault, 1, 1, vec![Block::Plain(vec![s(t)])]);
    let every_inline = vec![
        s("plain"),
        Inline::Emph(vec![s("em")]),
        Inline::Underline(vec![s("ul")]),
        Inline::Strong(vec![s("st")]),
        Inline::Strikeout(vec![s("so")]),
        Inline::Superscript(vec![s("sup")]),
        Inline::Subscript(vec![s("sub")]),
        Inline::SmallCaps(vec![s("sc")]),
        Inline::Quoted(QuoteType::SingleQuote, vec![s("q")]),
        Inline::Cite(
            vec![Citation {
                citation_id: "ref".to_string(),
                citation_prefix: vec![s("pre")],
                citation_suffix: vec![s("post")],
                citation_mode: CitationMode::NormalCitation,
                citation_note_num: 1,
                citation_hash: 0,
            }],
            vec![s("cited")],
        ),
        Inline::Code(Attr::empty(), "code".to_string()),
        Inline::Space,
        Inline::SoftBreak,
        Inline::LineBreak,
        Inline::Math(MathType::InlineMath, "x^2".to_string()),
        Inline::RawInline("tex".to_string(), "\\par".to_string()),
        Inline::Link(Attr::empty(), vec![s("text")], ("u".to_string(), "t".to_string())),
        Inline::Image(Attr::empty(), vec![s("alt")], ("u".to_string(), "t".to_string())),
        Inline::Note(vec![Block::Para(vec![s("note")])]),
        Inline::Span(Attr::empty(), vec![s("span")]),
    ];
    Pandoc {
        version: vec![1, 23, 1],
        meta: Meta {
            entries: vec![
                ("inl".to_string(), MetaValue::MetaInlines(vec![s("m1")])),
                (
                    "map".to_string(),
                    MetaValue::MetaMap(Meta {
                        entries: vec![(
                            "blocks".to_string(),
                            MetaValue::MetaBlocks(vec![Block::Para(vec![s("m2")])]),
                        )],
                    }),
                ),
                (
                    "list".to_string(),
                    MetaValue::MetaList(vec![
                        MetaValue::MetaString("str".to_string()),
                        MetaValue::MetaBool(true),
                        MetaValue::MetaInlines(vec![s("m3")]),
                    ]),
                ),
            ],
        },
        blocks: vec![
            Block::Plain(vec![s("pl")]),
            Block::Para(every_inline),
            Block::LineBlock(vec![vec![s("l1")], vec![s("l2")]]),
            Block::CodeBlock(Attr::empty(), "let x = 1;".to_string()),
            Block::RawBlock("html".to_string(), "<hr>".to_string()),
            Block::BlockQuote(vec![Block::Para(vec![s("quote")])]),
            Block::OrderedList(
                (1, ListNumberStyle::Decimal, ListNumberDelim::Period),
                vec![vec![Block::Para(vec![s("o1")])], vec![Block::Plain(vec![s("o2")])]],
            ),
            Block::BulletList(vec![vec![Block::Para(vec![s("b1")])]]),
            Block::DefinitionList(vec![(
                vec![s("term")],
                vec![vec![Block::Para(vec![s("def")])]],
            )]),
            Block::Header(2, Attr::empty(), vec![s("head")]),
            Block::HorizontalRule,
            Block::Table(
                Attr::empty(),
                Caption(Some(vec![s("short")]), vec![Block::Para(vec![s("long")])]),
                vec![
                    ColSpec(Alignment::AlignLeft, ColWidth::ColWidthDefault),
                    ColSpec(Alignment::AlignRight, ColWidth::ColWidth("0.5".to_string())),
                ],
                TableHead(Attr::empty(), vec![Row(Attr::empty(), vec![cell("h1"), cell("h2")])]),
                vec![TableBody(
                    Attr::empty(),
                    1,
                    vec![Row(Attr::empty(), vec![cell("ih")])],
                    vec![Row(Attr::empty(), vec![cell("b1"), cell("b2")])],
                )],
                TableFoot(Attr::empty(), vec![Row(Attr::empty(), vec![cell("f1")])]),
            ),
            Block::Div(Attr::empty(), vec![Block::Para(vec![s("div")])]),
            Block::Null,
        ],
    }
}

#[test]
fn full_coverage_every_position_visited_once() {
    let doc = synthetic_doc();
    let expected = count_in_pandoc(&doc);
    let hits: RefCell<usize> = RefCell::new(0);
    let counter = |x: Inline| {
        *hits.borrow_mut() += 1;
        x
    };
    let walked = walk_inline_in_pandoc(doc, &counter);
    assert_eq!(*hits.borrow(), expected);
    assert_eq!(walked, synthetic_doc());
}

#[test]
fn full_coverage_rewrites_every_position() {
    // Upper-casing every literal-text node must reach every nesting place;
    // the rewritten document must differ from the original wherever a
    // literal-text node stood, and nowhere hold a lowercase literal.
    let doc = synthetic_doc();
    let upper = |x: Inline| match x {
        Inline::Str(t) => Inline::Str(t.to_uppercase()),
        other => other,
    };
    let walked = walk_inline_in_pandoc(doc, &upper);
    let lowercase_left: RefCell<usize> = RefCell::new(0);
    let check = |x: Inline| {
        if let Inline::Str(t) = &x {
            if t.chars().any(|c| c.is_ascii_lowercase()) {
                *lowercase_left.borrow_mut() += 1;
            }
        }
        x
    };
    let _ = walk_inline_in_pandoc(walked, &check);
    assert_eq!(*lowercase_left.borrow(), 0);
}

#[test]
fn postorder_every_descendant_before_its_node() {
    // Record each invocation; every node's recorded entry must come after
    // the entries of everything nested inside it.
    let log: RefCell<Vec<String>> = RefCell::new(Vec::new());
    let tag = |x: &Inline| -> String {
        match x {
            Inline::Str(t) => format!("Str:{}", t),
            Inline::Strong(_) => "Strong".to_string(),
            Inline::Emph(_) => "Emph".to_string(),
            Inline::Note(_) => "Note".to_string(),
            Inline::Space => "Space".to_string(),
            _ => "other".to_string(),
        }
    };
    let recorder = |x: Inline| {
        log.borrow_mut().push(tag(&x));
        x
    };
    let run = vec![Inline::Emph(vec![
        s("a"),
        Inline::Strong(vec![s("b"), Inline::Space]),
        Inline::Note(vec![Block::Para(vec![s("c")])]),
    ])];
    let _ = walk_inline_in_inlines(run, &recorder);
    let seen = log.into_inner();
    assert_eq!(
        seen,
        vec![
            "Str:a".to_string(),
            "Str:b".to_string(),
            "Space".to_string(),
            "Strong".to_string(),
            "Str:c".to_string(),
            "Note".to_string(),
            "Emph".to_string(),
        ]
    );
}

#[test]
fn postorder_node_sees_rewritten_children() {
    // When the function is invoked on a composite node, the children it
    // observes are already rewritten.
    let ok: RefCell<bool> = RefCell::new(true);
    let f = |x: Inline| match x {
        Inline::Str(t) => Inline::Str(t.to_uppercase()),
        Inline::Emph(ils) => {
            if ils != vec![Inline::Str("A".to_string())] {
                *ok.borrow_mut() = false;
            }
            Inline::Emph(ils)
        }
        other => other,
    };
    let _ = walk_inline_in_inlines(vec![Inline::Emph(vec![s("a")])], &f);
    assert!(*ok.borrow());
}

#[test]
fn citation_prefix_and_suffix_visited() {
    let run = vec![Inline::Cite(
        vec![Citation {
            citation_id: "k".to_string(),
            citation_prefix: vec![s("see")],
            citation_suffix: vec![s("p7")],
            citation_mode: CitationMode::AuthorInText,
            citation_note_num: 0,
            citation_hash: 0,
        }],
        vec![s("body")],
    )];
    let upper = |x: Inline| match x {
        Inline::Str(t) => Inline::Str(t.to_uppercase()),
        other => other,
    };
    let walked = walk_inline_in_inlines(run, &upper);
    match &walked[0] {
        Inline::Cite(cits, ils) => {
            assert_eq!(cits[0].citation_prefix, vec![s("SEE")]);
            assert_eq!(cits[0].citation_suffix, vec![s("P7")]);
            assert_eq!(ils, &vec![s("BODY")]);
        }
        other => panic!("unexpected node {:?}", other),
    }
}
