//! Tests of the directive lexer and the slide-tree builder, including
//! the full two-slide scenario with title inheritance.

use eileda::md::{lex, parse, Diag, DocNode, Item, RawItem};
use eileda::slide::{Content, GlobalConfig, Grid, ImageRef, Margin, Presentation, Slide};

#[test]
fn lex_splits_directives_and_markdown() {
    let data = b".SLD Intro\nHello **world**\n.IMG pic.png\n.SLD\nBye";
    let (items, diags) = lex(data);
    assert_eq!(
        items,
        vec![
            RawItem::BeginSlide(Some(b"Intro".to_vec())),
            RawItem::Md(b"Hello **world**\n".to_vec()),
            RawItem::Img(b"pic.png".to_vec()),
            RawItem::BeginSlide(None),
            RawItem::Md(b"Bye\n".to_vec()),
        ]
    );
    assert!(diags.is_empty());
}

#[test]
fn lex_header_directives() {
    let data = b".PAD 20\n.MAR 300 side.png\n.GRD 30\n.GRD\n.GRD end\n.COL\n";
    let (items, diags) = lex(data);
    assert_eq!(
        items,
        vec![
            RawItem::Pad(20),
            RawItem::Margin(300, b"side.png".to_vec()),
            RawItem::BeginGrid(30),
            RawItem::BeginGrid(50),
            RawItem::EndGrid,
            RawItem::NextColumn,
            RawItem::Md(b"".to_vec()),
        ]
    );
    assert!(diags.is_empty());
}

#[test]
fn lex_reports_bad_and_unknown_directives() {
    let data = b".GRD xx\n.WAT\n..dots\n";
    let (items, diags) = lex(data);
    assert_eq!(items, vec![RawItem::Md(b"..dots\n".to_vec())]);
    assert_eq!(diags, vec![Diag::BadGridDirective, Diag::UnknownDirective]);
}

#[test]
fn lex_grid_ratio_above_percentage_is_rejected() {
    let (items, diags) = lex(b".GRD 150\n");
    assert_eq!(items, vec![RawItem::Md(b"".to_vec())]);
    assert_eq!(diags, vec![Diag::BadGridDirective]);
}

#[test]
fn lex_unparsable_pad_becomes_zero() {
    let (items, _) = lex(b".PAD 99999999999999999999999999\n");
    assert_eq!(items[0], RawItem::Pad(0));
}

#[test]
fn lex_title_keeps_rest_of_line() {
    let (items, _) = lex(b".SLD A Long  Title\n");
    assert_eq!(items[0], RawItem::BeginSlide(Some(b"A Long  Title".to_vec())));
}

#[test]
fn lex_flushes_markdown_before_directive() {
    let (items, _) = lex(b"one\ntwo\n.SLD T\nthree");
    assert_eq!(
        items,
        vec![
            RawItem::Md(b"one\ntwo\n".to_vec()),
            RawItem::BeginSlide(Some(b"T".to_vec())),
            RawItem::Md(b"three\n".to_vec()),
        ]
    );
}

/// The parsed tree for `"Hello **world**"`.
fn hello_world_tree() -> DocNode {
    DocNode::Root {
        children: vec![DocNode::Paragraph {
            children: vec![
                DocNode::Text { value: b"Hello ".to_vec() },
                DocNode::Strong { children: vec![DocNode::Text { value: b"world".to_vec() }] },
            ],
        }],
    }
}

/// The parsed tree for `"Bye"`.
fn bye_tree() -> DocNode {
    DocNode::Root {
        children: vec![DocNode::Paragraph {
            children: vec![DocNode::Text { value: b"Bye".to_vec() }],
        }],
    }
}

#[test]
fn two_slide_document_with_inherited_title() {
    // The document ".SLD Intro / Hello **world** / .IMG pic.png /
    // .SLD / Bye" parses into two slides: slide one titled "Intro"
    // with one text block (holding the bold span "world") and one
    // image; slide two inherits the title "Intro" and holds "Bye".
    let pic = ImageRef { id: 0, width: 800, height: 400 };
    let items = vec![
        Item::BeginSlide(Some(b"Intro".to_vec())),
        Item::Md(hello_world_tree()),
        Item::Img(pic),
        Item::BeginSlide(None),
        Item::Md(bye_tree()),
    ];
    let (p, diags) = parse(items);
    let expect = Presentation {
        config: GlobalConfig { padding: 16, margin: None },
        slides: vec![
            Slide {
                title: Some(b"Intro".to_vec()),
                content: vec![Content::Md(hello_world_tree()), Content::Img(pic)],
            },
            Slide {
                title: Some(b"Intro".to_vec()),
                content: vec![Content::Md(bye_tree())],
            },
        ],
    };
    assert_eq!(p, expect);
    assert!(diags.is_empty());
}

/// A plain text node.
fn text_node(s: &[u8]) -> DocNode {
    DocNode::Text { value: s.to_vec() }
}

#[test]
fn grid_collects_columns_until_closed() {
    let items = vec![
        Item::BeginSlide(None),
        Item::BeginGrid(40),
        Item::Md(text_node(b"a")),
        Item::NextColumn,
        Item::Md(text_node(b"b")),
        Item::EndGrid,
        Item::Md(text_node(b"c")),
    ];
    let (p, diags) = parse(items);
    assert!(diags.is_empty());
    assert_eq!(
        p.slides[0].content,
        vec![
            Content::Grid(Grid {
                ratio: 40,
                first: vec![Content::Md(text_node(b"a"))],
                second: vec![Content::Md(text_node(b"b"))],
            }),
            Content::Dummy,
            Content::Md(text_node(b"c")),
        ]
    );
}

#[test]
fn header_config_applies_before_first_slide() {
    let side = ImageRef { id: 9, width: 50, height: 60 };
    let items = vec![
        Item::Pad(7),
        Item::Margin(300, side),
        Item::BeginSlide(Some(b"T".to_vec())),
    ];
    let (p, diags) = parse(items);
    assert!(diags.is_empty());
    assert_eq!(p.config, GlobalConfig { padding: 7, margin: Some(Margin { image: side, middle: 300 }) });
    assert_eq!(p.slides.len(), 1);
}

#[test]
fn misplaced_items_are_reported_and_skipped() {
    let items = vec![
        Item::EndGrid,
        Item::BeginSlide(None),
        Item::Pad(3),
        Item::NextColumn,
        Item::BeginGrid(50),
        Item::NextColumn,
        Item::NextColumn,
    ];
    let (p, diags) = parse(items);
    assert_eq!(
        diags,
        vec![
            Diag::UnexpectedHeader,
            Diag::UnexpectedContent,
            Diag::SpuriousColumnNoGrid,
            Diag::SpuriousColumn,
        ]
    );
    assert_eq!(p.config.padding, 16);
    assert_eq!(p.slides.len(), 1);
}

#[test]
fn unclosed_grid_is_finished_at_the_end() {
    let items = vec![Item::BeginSlide(None), Item::BeginGrid(50), Item::Img(ImageRef {
        id: 2,
        width: 10,
        height: 10,
    })];
    let (p, _) = parse(items);
    assert_eq!(
        p.slides[0].content,
        vec![Content::Grid(Grid {
            ratio: 50,
            first: vec![Content::Img(ImageRef { id: 2, width: 10, height: 10 })],
            second: vec![],
        })]
    );
}

#[test]
fn nested_grid_lands_in_open_column() {
    // A second grid opened inside an open grid is placed, empty, into
    // the open grid's current column; the outer grid stays open.
    let items = vec![
        Item::BeginSlide(None),
        Item::BeginGrid(50),
        Item::NextColumn,
        Item::BeginGrid(30),
        Item::Img(ImageRef { id: 1, width: 5, height: 5 }),
    ];
    let (p, _) = parse(items);
    assert_eq!(
        p.slides[0].content,
        vec![Content::Grid(Grid {
            ratio: 50,
            first: vec![],
            second: vec![
                Content::Grid(Grid { ratio: 30, first: vec![], second: vec![] }),
                Content::Img(ImageRef { id: 1, width: 5, height: 5 }),
            ],
        })]
    );
}
