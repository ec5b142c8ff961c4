//! Splicing: removal, pass-through, fan-out, and cardinality.
use pandoc::definition::{Block, Inline};
use pandoc::splice_block::splice_block_in_blocks;
use pandoc::splice_inline::{splice_inline_in_blocks, splice_inline_in_inlines};

fn s(t: &str) -> Inline {
    Inline::Str(t.to_string())
}

#[test]
fn splice_removes_every_space() {
    let run = vec![s("a"), Inline::Space, s("b"), Inline::Space, s("c")];
    let drop_spaces = |x: Inline| match x {
        Inline::Space => vec![],
        other => vec![other],
    };
    let walked = splice_inline_in_inlines(run, &drop_spaces);
    assert_eq!(walked, vec![s("a"), s("b"), s("c")]);
}

#[test]
fn splice_removes_nested_occurrences() {
    let blocks = vec![Block::Para(vec![
        s("a"),
        Inline::Space,
        Inline::Emph(vec![s("b"), Inline::Space, s("c")]),
    ])];
    let drop_spaces = |x: Inline| match x {
        Inline::Space => vec![],
        other => vec![other],
    };
    let walked = splice_inline_in_blocks(blocks, &drop_spaces);
    assert_eq!(
        walked,
        vec![Block::Para(vec![s("a"), Inline::Emph(vec![s("b"), s("c")])])]
    );
}

#[test]
fn splice_singleton_passes_through() {
    let run = vec![s("a"), Inline::Space, Inline::Strong(vec![s("b")])];
    let keep = |x: Inline| vec![x];
    let walked = splice_inline_in_inlines(run, &keep);
    assert_eq!(walked, vec![s("a"), Inline::Space, Inline::Strong(vec![s("b")])]);
}

#[test]
fn splice_fans_out_in_place() {
    let run = vec![s("x"), Inline::SoftBreak, s("y")];
    let split_breaks = |x: Inline| match x {
        Inline::SoftBreak => vec![Inline::Space, Inline::Space],
        other => vec![other],
    };
    let walked = splice_inline_in_inlines(run, &split_breaks);
    assert_eq!(walked, vec![s("x"), Inline::Space, Inline::Space, s("y")]);
}

#[test]
fn splice_doubles_one_block_in_place() {
    let blocks = vec![
        Block::Para(vec![s("before")]),
        Block::HorizontalRule,
        Block::Para(vec![s("after")]),
    ];
    let double_rule = |b: Block| match b {
        Block::HorizontalRule => vec![Block::HorizontalRule, Block::HorizontalRule],
        other => vec![other],
    };
    let walked = splice_block_in_blocks(blocks, &double_rule);
    // one occurrence doubled: sibling count grows by exactly one, the copy
    // stands at the original's position, other siblings keep their order
    assert_eq!(
        walked,
        vec![
            Block::Para(vec![s("before")]),
            Block::HorizontalRule,
            Block::HorizontalRule,
            Block::Para(vec![s("after")]),
        ]
    );
}

#[test]
fn splice_block_vanishes_nested() {
    let blocks = vec![
        Block::BlockQuote(vec![Block::Null, Block::Para(vec![s("kept")])]),
        Block::Null,
    ];
    let drop_null = |b: Block| match b {
        Block::Null => vec![],
        other => vec![other],
    };
    let walked = splice_block_in_blocks(blocks, &drop_null);
    assert_eq!(walked, vec![Block::BlockQuote(vec![Block::Para(vec![s("kept")])])]);
}
