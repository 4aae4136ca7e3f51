//! Tests of the rendering engine: grid splits, image fitting, list
//! labels, the document renderer, the compositor, and the slide frame.

use eileda::draw::DrawOp;
use eileda::md::DocNode;
use eileda::slide::{
    draw_content, draw_md, fit_image, fmt_label, grid_split, Content, DrawFl, FontSet,
    GlobalConfig, Grid, ImageRef, Margin, Presentation, Slide,
};
use eileda::uf2::{parse, Ufx};

/// A font whose glyphs are 10 pixels wide with empty bitmaps.
fn flat_font() -> Ufx {
    parse(&[10u8; 256], 1, 12)
}

/// A font where glyph `c` has exactly bit `c % 64` of its tile set,
/// so each drawn glyph emits one identifying point.
fn marker_font() -> Ufx {
    let mut f = parse(&[10u8; 256], 1, 12);
    for c in 0..256usize {
        f.glyphs[c].inner[0].raw = 1u64 << (c % 64);
    }
    f
}

fn font_set(f: &Ufx) -> FontSet {
    FontSet {
        body: f.clone(),
        bold: f.clone(),
        emph: f.clone(),
        head: f.clone(),
        title: f.clone(),
        list: f.clone(),
    }
}

#[test]
fn grid_split_is_ratio_of_span() {
    assert_eq!(grid_split(0, 100, 50), 50);
    assert_eq!(grid_split(10, 110, 25), 35);
    assert_eq!(grid_split(0, 100, 0), 0);
    assert_eq!(grid_split(0, 100, 100), 100);
    assert_eq!(grid_split(0, 99, 50), 49);
}

#[test]
fn fit_image_width_bound_scales_down() {
    assert_eq!(fit_image(800, 400, 400, 400), (400, 200));
}

#[test]
fn fit_image_already_fits_draws_unscaled() {
    assert_eq!(fit_image(300, 300, 400, 400), (300, 300));
}

#[test]
fn fit_image_height_bound_scales_down() {
    assert_eq!(fit_image(400, 800, 400, 400), (200, 400));
}

#[test]
fn labels_count_from_start() {
    assert_eq!(fmt_label(3), b"3) ".to_vec());
    assert_eq!(fmt_label(4), b"4) ".to_vec());
    assert_eq!(fmt_label(0), b"0) ".to_vec());
    assert_eq!(fmt_label(10), b"10) ".to_vec());
    assert_eq!(fmt_label(907), b"907) ".to_vec());
}

/// The point glyph `c` of [`marker_font`] leaves when drawn at
/// `(x, y)`.
fn mark(c: u8, x: usize, y: usize) -> DrawOp {
    let bit = (c as usize) % 64;
    DrawOp::Point { x: x + 7 - bit % 8, y: y + bit / 8 }
}

#[test]
fn ordered_list_renders_successive_labels() {
    // List(ordered, start 3) with two items: labels "3) " then "4) ",
    // each drawn at the list margin before its item.
    let f = marker_font();
    let fonts = font_set(&f);
    let node = DocNode::List {
        ordered: true,
        start: Some(3),
        children: vec![DocNode::Other, DocNode::Other],
    };
    let mut ops = Vec::new();
    let cur = draw_md(&mut ops, &fonts, &node, 0, 200, 0, 0, DrawFl::none());
    let expect = vec![
        mark(b'3', 8, 0),
        mark(b')', 18, 0),
        mark(b' ', 28, 0),
        mark(b'4', 8, 0),
        mark(b')', 18, 0),
        mark(b' ', 28, 0),
    ];
    assert_eq!(ops, expect);
    assert_eq!(cur, (0, 12));
}

#[test]
fn unordered_list_renders_bullets() {
    let f = marker_font();
    let fonts = font_set(&f);
    let node = DocNode::List {
        ordered: false,
        start: None,
        children: vec![DocNode::Other, DocNode::Other],
    };
    let mut ops = Vec::new();
    let cur = draw_md(&mut ops, &fonts, &node, 0, 200, 0, 0, DrawFl::none());
    assert_eq!(ops, vec![mark(0xA5, 8, 0), mark(0xA5, 8, 0)]);
    assert_eq!(cur, (0, 12));
}

#[test]
fn heading_draws_panel_and_recolors() {
    let f = flat_font();
    let fonts = font_set(&f);
    let node = DocNode::Heading {
        depth: 1,
        children: vec![DocNode::Text { value: b"ab".to_vec() }],
    };
    let mut ops = Vec::new();
    let cur = draw_md(&mut ops, &fonts, &node, 0, 100, 10, 10, DrawFl::none());
    let expect = vec![
        DrawOp::Rect { x: 6, y: 6, w: 28, h: 20, color: 0x232334 },
        DrawOp::Rect { x: 6, y: 26, w: 90, h: 4, color: 0x232334 },
        DrawOp::SetColor { color: 0xDCDCC8 },
        DrawOp::SetColor { color: 0x000000 },
    ];
    assert_eq!(ops, expect);
    assert_eq!(cur, (10, 40));
}

#[test]
fn paragraph_adds_gap_and_padding() {
    let f = flat_font();
    let fonts = font_set(&f);
    let node = DocNode::Paragraph { children: vec![DocNode::Text { value: b"ab".to_vec() }] };
    let mut ops = Vec::new();
    let cur = draw_md(&mut ops, &fonts, &node, 0, 100, 0, 0, DrawFl::none());
    assert_eq!(cur, (0, 28));
}

#[test]
fn block_quote_indents_and_draws_bar() {
    let f = flat_font();
    let fonts = font_set(&f);
    let node = DocNode::BlockQuote {
        children: vec![DocNode::Paragraph { children: vec![] }],
    };
    let mut ops = Vec::new();
    // The empty paragraph still advances y by gap + padding (28); the
    // side bar spans from the quote's start to that y minus padding.
    let cur = draw_md(&mut ops, &fonts, &node, 0, 100, 0, 0, DrawFl::none());
    assert_eq!(
        ops,
        vec![DrawOp::Rect { x: 0, y: 0, w: 4, h: 16, color: 0xBABBBA }]
    );
    assert_eq!(cur, (0, 28));
}

#[test]
fn unknown_node_is_a_no_op() {
    let f = flat_font();
    let fonts = font_set(&f);
    let mut ops = Vec::new();
    let cur = draw_md(&mut ops, &fonts, &DocNode::Other, 0, 100, 30, 40, DrawFl::none());
    assert!(ops.is_empty());
    assert_eq!(cur, (30, 40));
}

#[test]
fn image_advances_by_unscaled_height() {
    // The image is fitted to 400x200 for drawing, but y advances by
    // the image's original height plus the image spacing.
    let f = flat_font();
    let fonts = font_set(&f);
    let content = vec![Content::Img(ImageRef { id: 3, width: 800, height: 400 })];
    let mut ops = Vec::new();
    let ny = draw_content(&mut ops, &fonts, &content, 0, 400, 0, 400);
    assert_eq!(
        ops,
        vec![DrawOp::Blit {
            image: 3,
            src_x: 0,
            src_y: 0,
            src_w: 800,
            src_h: 400,
            dst_x: 0,
            dst_y: 0,
            dst_w: 400,
            dst_h: 200,
        }]
    );
    assert_eq!(ny, 412);
}

#[test]
fn grid_lays_out_columns_and_takes_taller() {
    let f = flat_font();
    let fonts = font_set(&f);
    let content = vec![Content::Grid(Grid {
        ratio: 50,
        first: vec![Content::Img(ImageRef { id: 1, width: 100, height: 50 })],
        second: vec![Content::Img(ImageRef { id: 2, width: 100, height: 300 })],
    })];
    let mut ops = Vec::new();
    let ny = draw_content(&mut ops, &fonts, &content, 0, 100, 0, 1000);
    let expect = vec![
        DrawOp::Blit {
            image: 1,
            src_x: 0,
            src_y: 0,
            src_w: 100,
            src_h: 50,
            dst_x: 0,
            dst_y: 0,
            dst_w: 50,
            dst_h: 25,
        },
        DrawOp::Blit {
            image: 2,
            src_x: 0,
            src_y: 0,
            src_w: 100,
            src_h: 300,
            dst_x: 62,
            dst_y: 0,
            dst_w: 38,
            dst_h: 114,
        },
    ];
    assert_eq!(ops, expect);
    assert_eq!(ny, 312);
}

#[test]
fn dummy_content_has_no_effect() {
    let f = flat_font();
    let fonts = font_set(&f);
    let content = vec![Content::Dummy];
    let mut ops = Vec::new();
    let ny = draw_content(&mut ops, &fonts, &content, 0, 100, 17, 400);
    assert!(ops.is_empty());
    assert_eq!(ny, 17);
}

#[test]
fn slide_clears_and_sets_ink() {
    let f = flat_font();
    let fonts = font_set(&f);
    let p = Presentation {
        config: GlobalConfig { padding: 16, margin: None },
        slides: vec![Slide { title: None, content: vec![] }],
    };
    let ops = p.draw(0, &fonts);
    assert_eq!(
        ops,
        vec![
            DrawOp::Clear { color: 0xFFFFFF },
            DrawOp::SetColor { color: 0x000000 },
        ]
    );
}

#[test]
fn title_line_moves_content_down() {
    let f = flat_font();
    let fonts = font_set(&f);
    let p = Presentation {
        config: GlobalConfig { padding: 16, margin: None },
        slides: vec![Slide {
            title: Some(b"T".to_vec()),
            content: vec![Content::Img(ImageRef { id: 1, width: 10, height: 10 })],
        }],
    };
    let ops = p.draw(0, &fonts);
    assert_eq!(
        ops,
        vec![
            DrawOp::Clear { color: 0xFFFFFF },
            DrawOp::SetColor { color: 0x000000 },
            DrawOp::Blit {
                image: 1,
                src_x: 0,
                src_y: 0,
                src_w: 10,
                src_h: 10,
                dst_x: 16,
                dst_y: 68,
                dst_w: 10,
                dst_h: 10,
            },
        ]
    );
}

#[test]
fn margin_frame_slices_side_image() {
    let f = flat_font();
    let fonts = font_set(&f);
    let p = Presentation {
        config: GlobalConfig {
            padding: 16,
            margin: Some(Margin { image: ImageRef { id: 5, width: 100, height: 500 }, middle: 400 }),
        },
        slides: vec![Slide {
            title: None,
            content: vec![Content::Img(ImageRef { id: 1, width: 100, height: 100 })],
        }],
    };
    let ops = p.draw(0, &fonts);
    let expect = vec![
        DrawOp::Clear { color: 0xFFFFFF },
        DrawOp::SetColor { color: 0x000000 },
        DrawOp::Blit {
            image: 5,
            src_x: 0,
            src_y: 0,
            src_w: 100,
            src_h: 420,
            dst_x: 0,
            dst_y: 0,
            dst_w: 140,
            dst_h: 420,
        },
        DrawOp::Blit {
            image: 5,
            src_x: 0,
            src_y: 0,
            src_w: 100,
            src_h: 420,
            dst_x: 340,
            dst_y: 0,
            dst_w: 140,
            dst_h: 420,
        },
        DrawOp::Blit {
            image: 1,
            src_x: 0,
            src_y: 0,
            src_w: 100,
            src_h: 100,
            dst_x: 156,
            dst_y: 16,
            dst_w: 100,
            dst_h: 100,
        },
    ];
    assert_eq!(ops, expect);
}
