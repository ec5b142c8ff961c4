//! Identity, order preservation, and the concrete uppercase scenario.
use pandoc::definition::{Attr, Block, Caption, Inline, Meta, MetaValue, Pandoc, QuoteType};
use pandoc::walk_block::walk_block_in_pandoc;
use pandoc::walk_doc::walk_doc;
use pandoc::walk_inline::{walk_inline_in_inlines, walk_inline_in_pandoc};
use pandoc::walk_meta::walk_meta;
use pandoc::walkable::Walkable;
use std::cell::RefCell;

fn s(t: &str) -> Inline {
    Inline::Str(t.to_string())
}

fn sample_doc() -> Pandoc {
    Pandoc {
        version: vec![1, 23, 1],
        meta: Meta {
            entries: vec![
                (
                    "author".to_string(),
                    MetaValue::MetaInlines(vec![s("ada"), Inline::Space, s("lovelace")]),
                ),
                (
                    "nested".to_string(),
                    MetaValue::MetaMap(Meta {
                        entries: vec![(
                            "inner".to_string(),
                            MetaValue::MetaBlocks(vec![Block::Para(vec![s("deep")])]),
                        )],
                    }),
                ),
            ],
        },
        blocks: vec![
            Block::Para(vec![s("hello"), Inline::Space, Inline::Emph(vec![s("world")])]),
            Block::BlockQuote(vec![Block::Plain(vec![s("quoted")])]),
            Block::Header(2, Attr::empty(), vec![s("title")]),
            Block::Div(
                Attr::empty(),
                vec![Block::BulletList(vec![vec![Block::Para(vec![s("item")])]])],
            ),
        ],
    }
}

#[test]
fn identity_inline_walk() {
    let doc = sample_doc();
    let walked = walk_inline_in_pandoc(doc, &|x: Inline| x);
    assert_eq!(walked, sample_doc());
}

#[test]
fn identity_block_walk() {
    let doc = sample_doc();
    let walked = walk_block_in_pandoc(doc, &|x: Block| x);
    assert_eq!(walked, sample_doc());
}

#[test]
fn identity_meta_walk() {
    let meta = sample_doc().meta;
    let walked = walk_meta(meta, &|m: Meta| m);
    assert_eq!(walked, sample_doc().meta);
}

#[test]
fn identity_doc_walk() {
    let doc = sample_doc();
    let walked = walk_doc(doc, &|d: Pandoc| d);
    assert_eq!(walked, sample_doc());
}

#[test]
fn order_and_length_preserved() {
    let run = vec![s("one"), Inline::Space, s("two"), Inline::LineBreak, s("three")];
    let upper = |x: Inline| match x {
        Inline::Str(t) => Inline::Str(t.to_uppercase()),
        other => other,
    };
    let walked = walk_inline_in_inlines(run, &upper);
    assert_eq!(
        walked,
        vec![s("ONE"), Inline::Space, s("TWO"), Inline::LineBreak, s("THREE")]
    );
}

#[test]
fn concrete_scenario_uppercase() {
    // The document {"pandoc-api-version":[1,23,1],"meta":{},
    //   "blocks":[{"t":"Para","c":[{"t":"Str","c":"hi"}]}]}
    let doc = Pandoc {
        version: vec![1, 23, 1],
        meta: Meta { entries: vec![] },
        blocks: vec![Block::Para(vec![s("hi")])],
    };
    let upper = |x: Inline| match x {
        Inline::Str(t) => Inline::Str(t.to_uppercase()),
        other => other,
    };
    let walked = walk_inline_in_pandoc(doc, &upper);
    assert_eq!(walked.blocks, vec![Block::Para(vec![s("HI")])]);
    assert_eq!(walked.version, vec![1, 23, 1]);
    assert_eq!(walked.meta, Meta { entries: vec![] });
}

#[test]
fn underline_children_are_walked() {
    let run = vec![Inline::Underline(vec![s("under")])];
    let upper = |x: Inline| match x {
        Inline::Str(t) => Inline::Str(t.to_uppercase()),
        other => other,
    };
    let walked = walk_inline_in_inlines(run, &upper);
    assert_eq!(walked, vec![Inline::Underline(vec![s("UNDER")])]);
}

#[test]
fn walkable_trait_dispatch() {
    let upper = |x: Inline| match x {
        Inline::Str(t) => Inline::Str(t.to_uppercase()),
        other => other,
    };
    let b = Block::Para(vec![s("a"), Inline::Quoted(QuoteType::DoubleQuote, vec![s("b")])]);
    let walked: Block = Walkable::<Inline, Inline>::walk(b, &upper);
    assert_eq!(
        walked,
        Block::Para(vec![s("A"), Inline::Quoted(QuoteType::DoubleQuote, vec![s("B")])])
    );

    let c = Caption(Some(vec![s("short")]), vec![Block::Para(vec![s("long")])]);
    let walked: Caption = Walkable::<Inline, Inline>::walk(c, &upper);
    assert_eq!(
        walked,
        Caption(Some(vec![s("SHORT")]), vec![Block::Para(vec![s("LONG")])])
    );

    let drop_rules = |b: Block| match b {
        Block::HorizontalRule => vec![],
        other => vec![other],
    };
    let blocks = vec![Block::Para(vec![s("x")]), Block::HorizontalRule];
    let walked: Vec<Block> = Walkable::<Block, Vec<Block>>::walk(blocks, &drop_rules);
    assert_eq!(walked, vec![Block::Para(vec![s("x")])]);
}

#[test]
fn meta_walk_is_bottom_up() {
    // Record the key sets of the mappings in invocation order: the inner
    // mapping must be seen before the outer one.
    let log: RefCell<Vec<Vec<String>>> = RefCell::new(Vec::new());
    let meta = Meta {
        entries: vec![(
            "outer".to_string(),
            MetaValue::MetaMap(Meta {
                entries: vec![("inner".to_string(), MetaValue::MetaBool(true))],
            }),
        )],
    };
    let recorder = |m: Meta| {
        log.borrow_mut()
            .push(m.entries.iter().map(|e| e.0.clone()).collect());
        m
    };
    let walked = walk_meta(meta, &recorder);
    assert_eq!(walked.entries.len(), 1);
    let seen = log.into_inner();
    assert_eq!(
        seen,
        vec![vec!["inner".to_string()], vec!["outer".to_string()]]
    );
}

#[test]
fn meta_keys_and_order_untouched() {
    let meta = Meta {
        entries: vec![
            ("alpha".to_string(), MetaValue::MetaString("x".to_string())),
            ("beta".to_string(), MetaValue::MetaInlines(vec![s("y")])),
            ("gamma".to_string(), MetaValue::MetaBool(false)),
        ],
    };
    let upper = |x: Inline| match x {
        Inline::Str(t) => Inline::Str(t.to_uppercase()),
        other => other,
    };
    let doc = Pandoc { version: vec![1, 23, 1], meta, blocks: vec![] };
    let walked = walk_inline_in_pandoc(doc, &upper);
    let keys: Vec<String> = walked.meta.entries.iter().map(|e| e.0.clone()).collect();
    assert_eq!(keys, vec!["alpha", "beta", "gamma"]);
    assert_eq!(
        walked.meta.entries[1].1,
        MetaValue::MetaInlines(vec![s("Y")])
    );
}
