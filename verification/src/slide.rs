//! The slide content model and the layout/rendering engine: the
//! document-tree renderer with style flags and word wrap, the
//! slide/grid compositor with ratio splits and image fitting, and the
//! margin/title frame. Every renderer appends to a draw-operation
//! stream; an external canvas consumes it.

use vstd::prelude::*;

use crate::draw::COLOR_BLACK;
use crate::draw::COLOR_HEAD_TEXT;
use crate::draw::COLOR_PANEL;
use crate::draw::COLOR_QUOTE_BAR;
use crate::draw::COLOR_WHITE;
use crate::draw::DrawOp;
use crate::draw::add_sat;
use crate::draw::sat_add;
use crate::draw::sat_sub;
use crate::draw::sub_sat;
use crate::md::DocNode;
use crate::uf2::Ufx;
use crate::uf2::char_ops;
use crate::uf2::clamp_usize;
use crate::uf2::draw_char;
use crate::uf2::measure;
use crate::uf2::text_ops_from;
use crate::uf2::text_width;

verus! {

/// Vertical padding after paragraphs, headings and lists.
pub const PAR_PAD: usize = 12;

/// Fixed vertical gap after a paragraph, in addition to its padding.
pub const PAR_GAP: usize = 16;

/// Left margin before a list bullet or number.
pub const LST_MAR: usize = 8;

/// Vertical spacing after an image.
pub const IMG_SPC: usize = 12;

/// Horizontal gap between the two columns of a grid.
pub const COL_SPC: usize = 12;

/// Left indent of block-quote bodies.
pub const QUOTE_INDENT: usize = 10;

/// Width of the block-quote side bar.
pub const QUOTE_BAR_W: usize = 4;

/// The glyph code of the unordered-list bullet; the same code is used
/// for drawing the bullet and for measuring its advance.
pub const BULLET_GLYPH: u8 = 0xA5;

/// Logical pixels the rendered surface is scaled by on screen.
pub const SCREEN_SCALE: usize = 2;

/// Width of the logical rendering surface, in pixels.
pub const SCREEN_W: usize = 960 / SCREEN_SCALE;

/// Height of the logical rendering surface, in pixels.
pub const SCREEN_H: usize = 840 / SCREEN_SCALE;

/// A loaded image as the renderer sees it: a handle for the canvas to
/// resolve, and its pixel dimensions.
#[derive(Clone, Copy, Debug, PartialEq, Eq)]
pub struct ImageRef {
    pub id: usize,
    pub width: usize,
    pub height: usize,
}

impl ImageRef {
    /// A loadable image has positive dimensions.
    pub open spec fn wf(&self) -> bool {
        self.width >= 1 && self.height >= 1
    }
}

/// An optional full-height side-margin frame: an image whose left and
/// right edges fill the two margins, leaving `middle` screen pixels of
/// content width between them.
#[derive(Clone, Copy, Debug, PartialEq, Eq)]
pub struct Margin {
    pub image: ImageRef,
    pub middle: usize,
}

/// Presentation-wide settings gathered from directives before the
/// first slide.
#[derive(Clone, Copy, Debug, PartialEq, Eq)]
pub struct GlobalConfig {
    pub padding: usize,
    pub margin: Option<Margin>,
}

/// A whole deck: global settings and the slides in order.
#[derive(Debug, PartialEq, Eq)]
pub struct Presentation {
    pub config: GlobalConfig,
    pub slides: Vec<Slide>,
}

/// One slide: an optional title line and its content sequence.
#[derive(Debug, PartialEq, Eq)]
pub struct Slide {
    pub title: Option<Vec<u8>>,
    pub content: Vec<Content>,
}

/// One element of a slide's content sequence.
#[derive(Debug, PartialEq, Eq)]
pub enum Content {
    /// A two-column layout container.
    Grid(Grid),
    /// A markdown block, already parsed into a document tree.
    Md(DocNode),
    /// A loaded image.
    Img(ImageRef),
    /// A no-op placeholder closing a grid; carries no rendering effect.
    Dummy,
}

/// A two-column container: the split position as a percentage of the
/// available width, and the two column sequences.
#[derive(Debug, PartialEq, Eq)]
pub struct Grid {
    pub ratio: u8,
    pub first: Vec<Content>,
    pub second: Vec<Content>,
}

/// The transient style-flag set threaded through document rendering;
/// flags combine additively and only influence font selection.
#[derive(Clone, Copy, Debug, PartialEq, Eq, Structural)]
pub struct DrawFl {
    pub bold: bool,
    pub emph: bool,
    pub head: bool,
}

impl DrawFl {
    /// The empty flag set.
    pub fn none() -> (fl: DrawFl)
        ensures
            fl == (DrawFl { bold: false, emph: false, head: false }),
    {
        DrawFl { bold: false, emph: false, head: false }
    }

    /// This set with the bold flag added.
    pub fn with_bold(self) -> (fl: DrawFl)
        ensures
            fl == (DrawFl { bold: true, ..self }),
    {
        DrawFl { bold: true, ..self }
    }

    /// This set with the emphasis flag added.
    pub fn with_emph(self) -> (fl: DrawFl)
        ensures
            fl == (DrawFl { emph: true, ..self }),
    {
        DrawFl { emph: true, ..self }
    }

    /// This set with the heading flag added.
    pub fn with_head(self) -> (fl: DrawFl)
        ensures
            fl == (DrawFl { head: true, ..self }),
    {
        DrawFl { head: true, ..self }
    }
}

/// The font registry: one decoded font per rendering role, built once
/// and passed by shared reference into every layout call.
#[derive(Debug)]
pub struct FontSet {
    /// Body text.
    pub body: Ufx,
    /// Bold (strong) spans.
    pub bold: Ufx,
    /// Emphasized spans.
    pub emph: Ufx,
    /// Heading text.
    pub head: Ufx,
    /// The slide title line.
    pub title: Ufx,
    /// List bullets and numbers.
    pub list: Ufx,
}

impl FontSet {
    /// Every font of the registry is well formed.
    pub open spec fn wf(&self) -> bool {
        &&& self.body.wf()
        &&& self.bold.wf()
        &&& self.emph.wf()
        &&& self.head.wf()
        &&& self.title.wf()
        &&& self.list.wf()
    }
}

/// Font precedence for a flag set: bold, then heading, then emphasis,
/// then the default body font. Exactly one font is active at a time.
pub open spec fn spec_select_font(fonts: FontSet, fl: DrawFl) -> Ufx {
    if fl.bold {
        fonts.bold
    } else if fl.head {
        fonts.head
    } else if fl.emph {
        fonts.emph
    } else {
        fonts.body
    }
}

/// Select the active font for a flag set, by the fixed precedence.
pub fn select_font<'a>(fonts: &'a FontSet, fl: DrawFl) -> (f: &'a Ufx)
    ensures
        *f == spec_select_font(*fonts, fl),
{
    if fl.bold {
        &fonts.bold
    } else if fl.head {
        &fonts.head
    } else if fl.emph {
        &fonts.emph
    } else {
        &fonts.body
    }
}

/// Where a grid splits the span `[lx, ex)`: `lx` plus `ratio` percent
/// of the width, rounded down; an inverted span splits at `lx`.
pub open spec fn spec_grid_split(lx: usize, ex: usize, ratio: u8) -> usize {
    (lx + sat_sub(ex, lx) * ratio / 100) as usize
}

/// Compute the grid split position.
pub fn grid_split(lx: usize, ex: usize, ratio: u8) -> (bx: usize)
    requires
        ratio <= 100,
    ensures
        bx == spec_grid_split(lx, ex, ratio),
        lx <= bx,
        lx <= ex ==> bx <= ex,
{
    let d = sub_sat(ex, lx);
    proof {
        assert(d * ratio / 100 <= d) by (nonlinear_arith)
            requires
                0 <= ratio <= 100,
                0 <= d,
        ;
    }
    let part = crate::draw::mul_div(d, ratio as usize, 100);
    lx + part
}

/// How an `iw` by `ih` image fits a `mw` by `mh` box: unscaled when it
/// already fits both dimensions; otherwise scaled down along the
/// dimension that overflows by the larger amount, the other dimension
/// following proportionally, rounded down.
pub open spec fn spec_fit_image(iw: usize, ih: usize, mw: usize, mh: usize) -> (usize, usize) {
    if iw <= mw && ih <= mh {
        (iw, ih)
    } else if sat_sub(iw, mw) > sat_sub(ih, mh) {
        (mw, (ih * mw / (iw as int)) as usize)
    } else {
        ((iw * mh / (ih as int)) as usize, mh)
    }
}

/// Fit an image into a bounding box, preserving aspect ratio and never
/// scaling up.
pub fn fit_image(iw: usize, ih: usize, mw: usize, mh: usize) -> (r: (usize, usize))
    requires
        iw >= 1,
        ih >= 1,
    ensures
        r == spec_fit_image(iw, ih, mw, mh),
        r.0 <= iw || r.0 <= mw,
        r.1 <= ih || r.1 <= mh,
{
    if iw <= mw && ih <= mh {
        (iw, ih)
    } else if sub_sat(iw, mw) > sub_sat(ih, mh) {
        proof {
            assert(ih * mw / (iw as int) <= ih) by (nonlinear_arith)
                requires
                    1 <= iw,
                    0 <= ih,
                    0 <= mw < iw,
            ;
        }
        let ch = crate::draw::mul_div(ih, mw, iw);
        (mw, ch)
    } else {
        proof {
            assert(iw * mh / (ih as int) <= iw) by (nonlinear_arith)
                requires
                    1 <= ih,
                    0 <= iw,
                    0 <= mh < ih,
            ;
        }
        let cw = crate::draw::mul_div(iw, mh, ih);
        (cw, mh)
    }
}

/// The decimal digits of `n`, most significant first.
pub open spec fn dec_digits(n: int) -> Seq<u8>
    decreases n,
{
    if n < 10 {
        seq![(48 + if n < 0 { 0int } else { n }) as u8]
    } else {
        dec_digits(n / 10) + seq![(48 + n % 10) as u8]
    }
}

/// The label rendered before an ordered list item numbered `n`: its
/// decimal digits followed by `") "`.
pub open spec fn label_bytes(n: int) -> Seq<u8> {
    dec_digits(n) + seq![41u8, 32u8]
}

/// Append the decimal digits of `n`.
fn push_digits(out: &mut Vec<u8>, n: u64)
    ensures
        final(out)@ == old(out)@ + dec_digits(n as int),
    decreases n,
{
    if n < 10 {
        out.push(48 + n as u8);
    } else {
        push_digits(out, n / 10);
        out.push(48 + (n % 10) as u8);
        proof {
            assert(final(out)@ =~= old(out)@ + dec_digits(n as int));
        }
    }
}

/// Format the label of an ordered list item numbered `n`.
pub fn fmt_label(n: u64) -> (label: Vec<u8>)
    ensures
        label@ == label_bytes(n as int),
{
    let mut label: Vec<u8> = Vec::new();
    push_digits(&mut label, n);
    label.push(41);
    label.push(32);
    proof {
        assert(label@ =~= label_bytes(n as int));
    }
    label
}

/// The draw operations and final cursor of rendering one document
/// node with cursor `(sx, sy)`, style flags `fl`, and wrap bounds
/// `[lx, ex)`. This is the layout semantics the renderer implements.
pub open spec fn doc_ops(
    fonts: FontSet,
    node: DocNode,
    lx: usize,
    ex: usize,
    sx: usize,
    sy: usize,
    fl: DrawFl,
) -> (Seq<DrawOp>, usize, usize)
    decreases node, 0int,
{
    match node {
        DocNode::Root { children } => {
            let c = doc_children_ops(fonts, children@, children@.len() as int, lx, ex, sx, sy, fl);
            (c.0, sx, c.2)
        },
        DocNode::Paragraph { children } => {
            let c = doc_children_ops(fonts, children@, children@.len() as int, lx, ex, sx, sy, fl);
            (c.0, sx, sat_add(sat_add(c.2, PAR_GAP), PAR_PAD))
        },
        DocNode::Heading { depth, children } => {
            let fnt = spec_select_font(fonts, fl);
            let c = doc_children_ops(
                fonts,
                children@,
                children@.len() as int,
                lx,
                ex,
                sx,
                sy,
                DrawFl { head: true, ..fl },
            );
            let panel = DrawOp::Rect {
                x: sat_sub(sx, 4),
                y: sat_sub(sy, 4),
                w: sat_add(sat_sub(c.1, sx), 8),
                h: sat_add(fnt.height, 8),
                color: COLOR_PANEL,
            };
            let bar = DrawOp::Rect {
                x: sat_sub(sx, 4),
                y: sat_add(sat_add(sy, fnt.height), 4),
                w: sat_sub(ex, sx),
                h: 4,
                color: COLOR_PANEL,
            };
            let ops = c.0 + seq![panel, bar, DrawOp::SetColor { color: COLOR_HEAD_TEXT }] + c.0
                + seq![DrawOp::SetColor { color: COLOR_BLACK }];
            (ops, sx, sat_add(sat_add(c.2, fnt.height), (PAR_PAD + PAR_PAD / 2) as usize))
        },
        DocNode::Strong { children } => {
            doc_children_ops(
                fonts,
                children@,
                children@.len() as int,
                lx,
                ex,
                sx,
                sy,
                DrawFl { bold: true, ..fl },
            )
        },
        DocNode::Emphasis { children } => {
            doc_children_ops(
                fonts,
                children@,
                children@.len() as int,
                lx,
                ex,
                sx,
                sy,
                DrawFl { emph: true, ..fl },
            )
        },
        DocNode::List { ordered, start, children } => {
            let base = match start {
                Some(v) => v,
                None => 1u32,
            };
            let l = doc_list_ops(
                fonts,
                children@,
                children@.len() as int,
                base,
                ordered,
                lx,
                ex,
                sx,
                sy,
                fl,
            );
            (l.0, sx, sat_add(l.2, PAR_PAD))
        },
        DocNode::ListItem { children } => {
            doc_item_ops(fonts, children@, children@.len() as int, lx, ex, sx, sy, fl)
        },
        DocNode::BlockQuote { children } => {
            let c = doc_quote_ops(fonts, children@, children@.len() as int, lx, ex, sx, sy, fl);
            let bar = DrawOp::Rect {
                x: lx,
                y: sy,
                w: QUOTE_BAR_W,
                h: sat_sub(sat_sub(c.2, sy), PAR_PAD),
                color: COLOR_QUOTE_BAR,
            };
            (c.0 + seq![bar], lx, c.2)
        },
        DocNode::Text { value } => {
            let fnt = spec_select_font(fonts, fl);
            text_ops_from(fnt, value@, lx, ex, 0, sx, sy)
        },
        DocNode::Other => (Seq::empty(), sx, sy),
    }
}

/// Render the first `k` of a node's children in order, each receiving
/// the running cursor.
pub open spec fn doc_children_ops(
    fonts: FontSet,
    nodes: Seq<DocNode>,
    k: int,
    lx: usize,
    ex: usize,
    sx: usize,
    sy: usize,
    fl: DrawFl,
) -> (Seq<DrawOp>, usize, usize)
    decreases nodes, k,
{
    if k <= 0 || k > nodes.len() {
        (Seq::empty(), sx, sy)
    } else {
        let p = doc_children_ops(fonts, nodes, k - 1, lx, ex, sx, sy, fl);
        let c = doc_ops(fonts, nodes[k - 1], lx, ex, p.1, p.2, fl);
        (p.0 + c.0, c.1, c.2)
    }
}

/// Render the first `k` items of a list: each item gets its bullet or
/// `"{n}) "` label, renders indented by the label's width, and the
/// indent is subtracted back out of the running x afterwards.
pub open spec fn doc_list_ops(
    fonts: FontSet,
    nodes: Seq<DocNode>,
    k: int,
    base: u32,
    ordered: bool,
    lx: usize,
    ex: usize,
    sx: usize,
    sy: usize,
    fl: DrawFl,
) -> (Seq<DrawOp>, usize, usize)
    decreases nodes, k,
{
    if k <= 0 || k > nodes.len() {
        (Seq::empty(), sx, sy)
    } else {
        let p = doc_list_ops(fonts, nodes, k - 1, base, ordered, lx, ex, sx, sy, fl);
        let x = p.1;
        let y = p.2;
        let i = k - 1;
        if !ordered {
            let mark = char_ops(fonts.list, BULLET_GLYPH, sat_add(x, LST_MAR), y);
            let o = (LST_MAR + fonts.list.glyph_width(BULLET_GLYPH)
                + fonts.list.glyph_width(32)) as usize;
            let c = doc_ops(fonts, nodes[i], sat_add(lx, o), ex, sat_add(x, o), y, fl);
            (p.0 + mark + c.0, sat_sub(c.1, o), c.2)
        } else {
            let n = crate::draw::sat_add64(base as u64, i as u64);
            let label = label_bytes(n as int);
            let t = text_ops_from(
                fonts.list,
                label,
                sat_add(lx, LST_MAR),
                ex,
                0,
                sat_add(x, LST_MAR),
                y,
            );
            let o = sat_add(
                LST_MAR,
                clamp_usize(text_width(fonts.list, label, 0, label.len() as int) as int),
            );
            let c = doc_ops(fonts, nodes[i], sat_add(lx, o), ex, sat_add(x, o), y, fl);
            (p.0 + t.0 + c.0, sat_sub(c.1, o), c.2)
        }
    }
}

/// Render the first `k` children of a list item: like a plain child
/// sequence, but each child's resulting y is pulled back by the
/// paragraph padding, for tight spacing between items.
pub open spec fn doc_item_ops(
    fonts: FontSet,
    nodes: Seq<DocNode>,
    k: int,
    lx: usize,
    ex: usize,
    sx: usize,
    sy: usize,
    fl: DrawFl,
) -> (Seq<DrawOp>, usize, usize)
    decreases nodes, k,
{
    if k <= 0 || k > nodes.len() {
        (Seq::empty(), sx, sy)
    } else {
        let p = doc_item_ops(fonts, nodes, k - 1, lx, ex, sx, sy, fl);
        let c = doc_ops(fonts, nodes[k - 1], lx, ex, p.1, p.2, fl);
        (p.0 + c.0, c.1, sat_sub(c.2, PAR_PAD))
    }
}

/// Render the first `k` children of a block quote: each child is
/// indented by the quote indent, measured from the running x.
pub open spec fn doc_quote_ops(
    fonts: FontSet,
    nodes: Seq<DocNode>,
    k: int,
    lx: usize,
    ex: usize,
    sx: usize,
    sy: usize,
    fl: DrawFl,
) -> (Seq<DrawOp>, usize, usize)
    decreases nodes, k,
{
    if k <= 0 || k > nodes.len() {
        (Seq::empty(), sx, sy)
    } else {
        let p = doc_quote_ops(fonts, nodes, k - 1, lx, ex, sx, sy, fl);
        let c = doc_ops(
            fonts,
            nodes[k - 1],
            sat_add(lx, QUOTE_INDENT),
            ex,
            sat_add(p.1, QUOTE_INDENT),
            p.2,
            fl,
        );
        (p.0 + c.0, c.1, c.2)
    }
}

/// Render a document node at `(sx, sy)` with wrap bounds `[lx, ex)`
/// and style flags `fl`, appending its draw operations; returns the
/// updated cursor. The result is exactly [`doc_ops`].
#[verifier::loop_isolation(false)]
pub fn draw_md(
    ops: &mut Vec<DrawOp>,
    fonts: &FontSet,
    node: &DocNode,
    lx: usize,
    ex: usize,
    sx: usize,
    sy: usize,
    fl: DrawFl,
) -> (cur: (usize, usize))
    requires
        fonts.wf(),
    ensures
        ({
            let r = doc_ops(*fonts, *node, lx, ex, sx, sy, fl);
            &&& final(ops)@ == old(ops)@ + r.0
            &&& cur.0 == r.1
            &&& cur.1 == r.2
        }),
    decreases *node,
{
    match node {
        DocNode::Root { children } => {
            let c = draw_md_children(ops, fonts, children, lx, ex, sx, sy, fl);
            (sx, c.1)
        },
        DocNode::Paragraph { children } => {
            let c = draw_md_children(ops, fonts, children, lx, ex, sx, sy, fl);
            (sx, add_sat(add_sat(c.1, PAR_GAP), PAR_PAD))
        },
        DocNode::Heading { depth: _, children } => {
            let fnt = select_font(fonts, fl);
            let c1 = draw_md_children(ops, fonts, children, lx, ex, sx, sy, fl.with_head());
            ops.push(
                DrawOp::Rect {
                    x: sub_sat(sx, 4),
                    y: sub_sat(sy, 4),
                    w: add_sat(sub_sat(c1.0, sx), 8),
                    h: add_sat(fnt.height, 8),
                    color: COLOR_PANEL,
                },
            );
            ops.push(
                DrawOp::Rect {
                    x: sub_sat(sx, 4),
                    y: add_sat(add_sat(sy, fnt.height), 4),
                    w: sub_sat(ex, sx),
                    h: 4,
                    color: COLOR_PANEL,
                },
            );
            ops.push(DrawOp::SetColor { color: COLOR_HEAD_TEXT });
            let c2 = draw_md_children(ops, fonts, children, lx, ex, sx, sy, fl.with_head());
            ops.push(DrawOp::SetColor { color: COLOR_BLACK });
            proof {
                let r = doc_ops(*fonts, *node, lx, ex, sx, sy, fl);
                assert(ops@ =~= old(ops)@ + r.0);
            }
            (sx, add_sat(add_sat(c2.1, fnt.height), PAR_PAD + PAR_PAD / 2))
        },
        DocNode::Strong { children } => {
            draw_md_children(ops, fonts, children, lx, ex, sx, sy, fl.with_bold())
        },
        DocNode::Emphasis { children } => {
            draw_md_children(ops, fonts, children, lx, ex, sx, sy, fl.with_emph())
        },
        DocNode::List { ordered, start, children } => {
            let base: u32 = match start {
                Some(v) => *v,
                None => 1,
            };
            let l = draw_md_list(ops, fonts, children, base, *ordered, lx, ex, sx, sy, fl);
            (sx, add_sat(l.1, PAR_PAD))
        },
        DocNode::ListItem { children } => {
            draw_md_items(ops, fonts, children, lx, ex, sx, sy, fl)
        },
        DocNode::BlockQuote { children } => {
            let c = draw_md_quote(ops, fonts, children, lx, ex, sx, sy, fl);
            ops.push(
                DrawOp::Rect {
                    x: lx,
                    y: sy,
                    w: QUOTE_BAR_W,
                    h: sub_sat(sub_sat(c.1, sy), PAR_PAD),
                    color: COLOR_QUOTE_BAR,
                },
            );
            proof {
                let r = doc_ops(*fonts, *node, lx, ex, sx, sy, fl);
                assert(ops@ =~= old(ops)@ + r.0);
            }
            (lx, c.1)
        },
        DocNode::Text { value } => {
            let fnt = select_font(fonts, fl);
            crate::uf2::draw(ops, fnt, lx, ex, sx, sy, value.as_slice())
        },
        DocNode::Other => {
            proof {
                assert(ops@ =~= old(ops)@ + Seq::<DrawOp>::empty());
            }
            (sx, sy)
        },
    }
}

/// Render a node's children in order, threading the cursor.
#[verifier::loop_isolation(false)]
fn draw_md_children(
    ops: &mut Vec<DrawOp>,
    fonts: &FontSet,
    children: &Vec<DocNode>,
    lx: usize,
    ex: usize,
    sx: usize,
    sy: usize,
    fl: DrawFl,
) -> (cur: (usize, usize))
    requires
        fonts.wf(),
    ensures
        ({
            let r = doc_children_ops(*fonts, children@, children@.len() as int, lx, ex, sx, sy, fl);
            &&& final(ops)@ == old(ops)@ + r.0
            &&& cur.0 == r.1
            &&& cur.1 == r.2
        }),
    decreases *children,
{
    let mut x = sx;
    let mut y = sy;
    let mut i: usize = 0;
    while i < children.len()
        invariant
            i <= children@.len(),
            ({
                let p = doc_children_ops(*fonts, children@, i as int, lx, ex, sx, sy, fl);
                &&& ops@ == old(ops)@ + p.0
                &&& x == p.1
                &&& y == p.2
            }),
        decreases children@.len() - i,
    {
        let c = draw_md(ops, fonts, &children[i], lx, ex, x, y, fl);
        x = c.0;
        y = c.1;
        proof {
            let p = doc_children_ops(*fonts, children@, i as int + 1, lx, ex, sx, sy, fl);
            assert(ops@ =~= old(ops)@ + p.0);
        }
        i = i + 1;
    }
    (x, y)
}

/// Render list items in order: bullet or numbered label, then the
/// item's content indented past it.
#[verifier::loop_isolation(false)]
fn draw_md_list(
    ops: &mut Vec<DrawOp>,
    fonts: &FontSet,
    children: &Vec<DocNode>,
    base: u32,
    ordered: bool,
    lx: usize,
    ex: usize,
    sx: usize,
    sy: usize,
    fl: DrawFl,
) -> (cur: (usize, usize))
    requires
        fonts.wf(),
    ensures
        ({
            let r = doc_list_ops(
                *fonts,
                children@,
                children@.len() as int,
                base,
                ordered,
                lx,
                ex,
                sx,
                sy,
                fl,
            );
            &&& final(ops)@ == old(ops)@ + r.0
            &&& cur.0 == r.1
            &&& cur.1 == r.2
        }),
    decreases *children,
{
    let mut x = sx;
    let mut y = sy;
    let mut i: usize = 0;
    while i < children.len()
        invariant
            i <= children@.len(),
            ({
                let p = doc_list_ops(
                    *fonts,
                    children@,
                    i as int,
                    base,
                    ordered,
                    lx,
                    ex,
                    sx,
                    sy,
                    fl,
                );
                &&& ops@ == old(ops)@ + p.0
                &&& x == p.1
                &&& y == p.2
            }),
        decreases children@.len() - i,
    {
        let o: usize;
        if !ordered {
            draw_char(ops, &fonts.list, add_sat(x, LST_MAR), y, BULLET_GLYPH);
            o = LST_MAR + fonts.list.glyphs[BULLET_GLYPH as usize].width as usize
                + fonts.list.glyphs[32].width as usize;
        } else {
            let n = crate::draw::add_sat64(base as u64, i as u64);
            let label = fmt_label(n);
            crate::uf2::draw(
                ops,
                &fonts.list,
                add_sat(lx, LST_MAR),
                ex,
                add_sat(x, LST_MAR),
                y,
                label.as_slice(),
            );
            o = add_sat(LST_MAR, measure(&fonts.list, label.as_slice()));
        }
        let c = draw_md(ops, fonts, &children[i], add_sat(lx, o), ex, add_sat(x, o), y, fl);
        x = sub_sat(c.0, o);
        y = c.1;
        proof {
            let p = doc_list_ops(*fonts, children@, i as int + 1, base, ordered, lx, ex, sx, sy, fl);
            assert(ops@ =~= old(ops)@ + p.0);
        }
        i = i + 1;
    }
    (x, y)
}

/// Render a list item's children, pulling each child's y advance back
/// by the paragraph padding.
#[verifier::loop_isolation(false)]
fn draw_md_items(
    ops: &mut Vec<DrawOp>,
    fonts: &FontSet,
    children: &Vec<DocNode>,
    lx: usize,
    ex: usize,
    sx: usize,
    sy: usize,
    fl: DrawFl,
) -> (cur: (usize, usize))
    requires
        fonts.wf(),
    ensures
        ({
            let r = doc_item_ops(*fonts, children@, children@.len() as int, lx, ex, sx, sy, fl);
            &&& final(ops)@ == old(ops)@ + r.0
            &&& cur.0 == r.1
            &&& cur.1 == r.2
        }),
    decreases *children,
{
    let mut x = sx;
    let mut y = sy;
    let mut i: usize = 0;
    while i < children.len()
        invariant
            i <= children@.len(),
            ({
                let p = doc_item_ops(*fonts, children@, i as int, lx, ex, sx, sy, fl);
                &&& ops@ == old(ops)@ + p.0
                &&& x == p.1
                &&& y == p.2
            }),
        decreases children@.len() - i,
    {
        let c = draw_md(ops, fonts, &children[i], lx, ex, x, y, fl);
        x = c.0;
        y = sub_sat(c.1, PAR_PAD);
        proof {
            let p = doc_item_ops(*fonts, children@, i as int + 1, lx, ex, sx, sy, fl);
            assert(ops@ =~= old(ops)@ + p.0);
        }
        i = i + 1;
    }
    (x, y)
}

/// Render a block quote's children, each indented by the quote indent
/// from the running x.
#[verifier::loop_isolation(false)]
fn draw_md_quote(
    ops: &mut Vec<DrawOp>,
    fonts: &FontSet,
    children: &Vec<DocNode>,
    lx: usize,
    ex: usize,
    sx: usize,
    sy: usize,
    fl: DrawFl,
) -> (cur: (usize, usize))
    requires
        fonts.wf(),
    ensures
        ({
            let r = doc_quote_ops(*fonts, children@, children@.len() as int, lx, ex, sx, sy, fl);
            &&& final(ops)@ == old(ops)@ + r.0
            &&& cur.0 == r.1
            &&& cur.1 == r.2
        }),
    decreases *children,
{
    let mut x = sx;
    let mut y = sy;
    let mut i: usize = 0;
    while i < children.len()
        invariant
            i <= children@.len(),
            ({
                let p = doc_quote_ops(*fonts, children@, i as int, lx, ex, sx, sy, fl);
                &&& ops@ == old(ops)@ + p.0
                &&& x == p.1
                &&& y == p.2
            }),
        decreases children@.len() - i,
    {
        let c = draw_md(
            ops,
            fonts,
            &children[i],
            add_sat(lx, QUOTE_INDENT),
            ex,
            add_sat(x, QUOTE_INDENT),
            y,
            fl,
        );
        x = c.0;
        y = c.1;
        proof {
            let p = doc_quote_ops(*fonts, children@, i as int + 1, lx, ex, sx, sy, fl);
            assert(ops@ =~= old(ops)@ + p.0);
        }
        i = i + 1;
    }
    (x, y)
}

/// Well-formedness of one content item: grid ratios are percentages,
/// grid columns are well formed throughout, images have positive
/// dimensions.
pub open spec fn content_wf(item: Content) -> bool
    decreases item,
{
    match item {
        Content::Grid(g) => {
            &&& g.ratio <= 100
            &&& forall|i: int| 0 <= i < g.first@.len() ==> content_wf(#[trigger] g.first@[i])
            &&& forall|i: int| 0 <= i < g.second@.len() ==> content_wf(#[trigger] g.second@[i])
        },
        Content::Img(img) => img.wf(),
        _ => true,
    }
}

/// Every item of a content sequence is well formed.
pub open spec fn content_seq_wf(items: Seq<Content>) -> bool {
    forall|i: int| 0 <= i < items.len() ==> content_wf(#[trigger] items[i])
}

/// The draw operations and resulting y of laying out one content item
/// in the box `[lx, ex) x [sy, ey)`, starting at `sy`.
pub open spec fn content_ops(
    fonts: FontSet,
    item: Content,
    lx: usize,
    ex: usize,
    sy: usize,
    ey: usize,
) -> (Seq<DrawOp>, usize)
    decreases item, 0int,
{
    match item {
        Content::Dummy => (Seq::empty(), sy),
        Content::Grid(g) => {
            let bx = spec_grid_split(lx, ex, g.ratio);
            let c1 = content_seq_ops(fonts, g.first@, g.first@.len() as int, lx, bx, sy, ey);
            let c2 = content_seq_ops(
                fonts,
                g.second@,
                g.second@.len() as int,
                sat_add(bx, COL_SPC),
                ex,
                sy,
                ey,
            );
            (c1.0 + c2.0, if c1.1 >= c2.1 { c1.1 } else { c2.1 })
        },
        Content::Img(img) => {
            let f = spec_fit_image(img.width, img.height, sat_sub(ex, lx), sat_sub(ey, sy));
            let blit = DrawOp::Blit {
                image: img.id,
                src_x: 0,
                src_y: 0,
                src_w: img.width,
                src_h: img.height,
                dst_x: lx,
                dst_y: sy,
                dst_w: f.0,
                dst_h: f.1,
            };
            (seq![blit], sat_add(sat_add(sy, img.height), IMG_SPC))
        },
        Content::Md(node) => {
            let d = doc_ops(
                fonts,
                node,
                lx,
                ex,
                lx,
                sy,
                DrawFl { bold: false, emph: false, head: false },
            );
            (d.0, d.2)
        },
    }
}

/// Lay out the first `k` items of a content sequence in order, each
/// starting at the running y.
pub open spec fn content_seq_ops(
    fonts: FontSet,
    items: Seq<Content>,
    k: int,
    lx: usize,
    ex: usize,
    sy: usize,
    ey: usize,
) -> (Seq<DrawOp>, usize)
    decreases items, k,
{
    if k <= 0 || k > items.len() {
        (Seq::empty(), sy)
    } else {
        let p = content_seq_ops(fonts, items, k - 1, lx, ex, sy, ey);
        let c = content_ops(fonts, items[k - 1], lx, ex, p.1, ey);
        (p.0 + c.0, c.1)
    }
}

/// Lay out a content sequence in the box `[lx, ex) x [sy, ey)`:
/// grids split the width by their ratio and take the taller column's
/// y; images are fitted and advance y by their unscaled height plus
/// the image spacing; markdown blocks render with empty style flags.
/// Returns the maximum y reached.
#[verifier::loop_isolation(false)]
pub fn draw_content(
    ops: &mut Vec<DrawOp>,
    fonts: &FontSet,
    content: &Vec<Content>,
    lx: usize,
    ex: usize,
    sy: usize,
    ey: usize,
) -> (ny: usize)
    requires
        fonts.wf(),
        content_seq_wf(content@),
    ensures
        ({
            let r = content_seq_ops(*fonts, content@, content@.len() as int, lx, ex, sy, ey);
            &&& final(ops)@ == old(ops)@ + r.0
            &&& ny == r.1
        }),
    decreases *content,
{
    let mut y = sy;
    let mut i: usize = 0;
    while i < content.len()
        invariant
            i <= content@.len(),
            ({
                let p = content_seq_ops(*fonts, content@, i as int, lx, ex, sy, ey);
                &&& ops@ == old(ops)@ + p.0
                &&& y == p.1
            }),
        decreases content@.len() - i,
    {
        let item = &content[i];
        match item {
            Content::Dummy => {},
            Content::Grid(g) => {
                let bx = grid_split(lx, ex, g.ratio);
                let y1 = draw_content(ops, fonts, &g.first, lx, bx, y, ey);
                let y2 = draw_content(ops, fonts, &g.second, add_sat(bx, COL_SPC), ex, y, ey);
                y = if y1 >= y2 {
                    y1
                } else {
                    y2
                };
            },
            Content::Img(img) => {
                let f = fit_image(img.width, img.height, sub_sat(ex, lx), sub_sat(ey, y));
                ops.push(
                    DrawOp::Blit {
                        image: img.id,
                        src_x: 0,
                        src_y: 0,
                        src_w: img.width,
                        src_h: img.height,
                        dst_x: lx,
                        dst_y: y,
                        dst_w: f.0,
                        dst_h: f.1,
                    },
                );
                y = add_sat(add_sat(y, img.height), IMG_SPC);
            },
            Content::Md(node) => {
                let d = draw_md(ops, fonts, node, lx, ex, lx, y, DrawFl::none());
                y = d.1;
            },
        }
        proof {
            let pi = content_seq_ops(*fonts, content@, i as int, lx, ex, sy, ey);
            let ci = content_ops(*fonts, content@[i as int], lx, ex, pi.1, ey);
            let p = content_seq_ops(*fonts, content@, i as int + 1, lx, ex, sy, ey);
            assert(p.0 == pi.0 + ci.0 && p.1 == ci.1);
            assert(ops@ =~= old(ops)@ + (pi.0 + ci.0));
            assert(y == ci.1);
            assert(ops@ =~= old(ops)@ + p.0);
        }
        i = i + 1;
    }
    y
}

/// The two blits of the optional margin frame, and the content bounds
/// it leaves: the side image's left edge fills the left margin, its
/// right edge the right margin, with source regions clipped to the
/// image; `middle` screen pixels of content width stay free between
/// them.
pub open spec fn margin_frame(m: Margin) -> (Seq<DrawOp>, usize, usize) {
    let x_pad = (sat_sub(SCREEN_W, ((m.middle as int) / (SCREEN_SCALE as int)) as usize)
        / 2) as usize;
    let lx = x_pad;
    let ex = (SCREEN_W - x_pad) as usize;
    let iw = m.image.width;
    let ih = m.image.height;
    let left = DrawOp::Blit {
        image: m.image.id,
        src_x: 0,
        src_y: 0,
        src_w: if lx <= iw { lx } else { iw },
        src_h: if SCREEN_H <= ih { SCREEN_H } else { ih },
        dst_x: 0,
        dst_y: 0,
        dst_w: lx,
        dst_h: SCREEN_H,
    };
    let rmw = x_pad;
    let right = DrawOp::Blit {
        image: m.image.id,
        src_x: sat_sub(iw, rmw),
        src_y: 0,
        src_w: if rmw <= iw { rmw } else { iw },
        src_h: if SCREEN_H <= ih { SCREEN_H } else { ih },
        dst_x: ex,
        dst_y: 0,
        dst_w: rmw,
        dst_h: SCREEN_H,
    };
    (seq![left, right], lx, ex)
}

/// The whole draw stream of one slide: clear to white, draw in black,
/// the optional margin frame, the uniform padding, the optional title
/// line in the title font, then the slide's content.
pub open spec fn slide_ops(config: GlobalConfig, slide: Slide, fonts: FontSet) -> Seq<DrawOp> {
    let intro = seq![
        DrawOp::Clear { color: COLOR_WHITE },
        DrawOp::SetColor { color: COLOR_BLACK },
    ];
    let frame = match config.margin {
        Some(m) => margin_frame(m),
        None => (Seq::empty(), 0usize, SCREEN_W),
    };
    let p = config.padding;
    let lx = sat_add(frame.1, p);
    let ex = sat_sub(frame.2, p);
    let sy = p;
    let ey = sat_sub(SCREEN_H, p);
    let titled = match slide.title {
        Some(t) => {
            let r = text_ops_from(fonts.title, t@, lx, ex, 0, lx, sy);
            (r.0, sat_add(sy, sat_add(r.2, (PAR_PAD * 3) as usize)))
        },
        None => (Seq::empty(), sy),
    };
    let c = content_seq_ops(
        fonts,
        slide.content@,
        slide.content@.len() as int,
        lx,
        ex,
        titled.1,
        ey,
    );
    intro + frame.0 + titled.0 + c.0
}

impl Presentation {
    /// Every slide's content is well formed.
    pub open spec fn wf(&self) -> bool {
        forall|i: int|
            0 <= i < self.slides@.len() ==> content_seq_wf(#[trigger] self.slides@[i].content@)
    }

    /// Render slide number `slide` into a fresh draw stream, exactly
    /// as [`slide_ops`] describes.
    pub fn draw(&self, slide: usize, fonts: &FontSet) -> (ops: Vec<DrawOp>)
        requires
            self.wf(),
            slide < self.slides@.len(),
            fonts.wf(),
        ensures
            ops@ == slide_ops(self.config, self.slides@[slide as int], *fonts),
    {
        let mut ops: Vec<DrawOp> = Vec::new();
        ops.push(DrawOp::Clear { color: COLOR_WHITE });
        ops.push(DrawOp::SetColor { color: COLOR_BLACK });
        let mut lx: usize = 0;
        let mut ex: usize = SCREEN_W;
        match &self.config.margin {
            Some(m) => {
                let x_pad = sub_sat(SCREEN_W, m.middle / SCREEN_SCALE) / 2;
                lx = x_pad;
                ex = SCREEN_W - x_pad;
                let iw = m.image.width;
                let ih = m.image.height;
                ops.push(
                    DrawOp::Blit {
                        image: m.image.id,
                        src_x: 0,
                        src_y: 0,
                        src_w: if lx <= iw {
                            lx
                        } else {
                            iw
                        },
                        src_h: if SCREEN_H <= ih {
                            SCREEN_H
                        } else {
                            ih
                        },
                        dst_x: 0,
                        dst_y: 0,
                        dst_w: lx,
                        dst_h: SCREEN_H,
                    },
                );
                ops.push(
                    DrawOp::Blit {
                        image: m.image.id,
                        src_x: sub_sat(iw, x_pad),
                        src_y: 0,
                        src_w: if x_pad <= iw {
                            x_pad
                        } else {
                            iw
                        },
                        src_h: if SCREEN_H <= ih {
                            SCREEN_H
                        } else {
                            ih
                        },
                        dst_x: ex,
                        dst_y: 0,
                        dst_w: x_pad,
                        dst_h: SCREEN_H,
                    },
                );
            },
            None => {},
        }
        let p = self.config.padding;
        lx = add_sat(lx, p);
        ex = sub_sat(ex, p);
        let mut sy: usize = p;
        let ey = sub_sat(SCREEN_H, p);
        match &self.slides[slide].title {
            Some(t) => {
                let r = crate::uf2::draw(&mut ops, &fonts.title, lx, ex, lx, sy, t.as_slice());
                sy = add_sat(sy, add_sat(r.1, PAR_PAD * 3));
            },
            None => {},
        }
        draw_content(&mut ops, fonts, &self.slides[slide].content, lx, ex, sy, ey);
        proof {
            assert(ops@ =~= slide_ops(self.config, self.slides@[slide as int], *fonts));
        }
        ops
    }
}

} // verus!
