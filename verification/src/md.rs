//! The document-tree model, the line-oriented directive lexer, and the
//! slide-tree builder that assembles a presentation from lexed items.
//!
//! A source document is byte text. Lines beginning with `.` (but not
//! `..`) are directives; all other contiguous lines accumulate into
//! markdown chunks, which an external markdown parser turns into
//! [`DocNode`] trees between [`lex`] and [`parse`].

use vstd::prelude::*;

use crate::slide::Content;
use crate::slide::Grid;
use crate::slide::GlobalConfig;
use crate::slide::ImageRef;
use crate::slide::Margin;
use crate::slide::Presentation;
use crate::slide::Slide;

verus! {

/// One node of a parsed markup document: a closed set of block and
/// inline kinds, children owned strictly top-down. Text is byte text;
/// glyph lookup is by byte value. `Other` stands for any node kind the
/// renderer does not know: it contributes no drawing and no cursor
/// advance.
#[derive(Debug, PartialEq, Eq)]
pub enum DocNode {
    Root { children: Vec<DocNode> },
    Paragraph { children: Vec<DocNode> },
    Heading { depth: u8, children: Vec<DocNode> },
    Strong { children: Vec<DocNode> },
    Emphasis { children: Vec<DocNode> },
    List { ordered: bool, start: Option<u32>, children: Vec<DocNode> },
    ListItem { children: Vec<DocNode> },
    BlockQuote { children: Vec<DocNode> },
    Text { value: Vec<u8> },
    Other,
}

/// A diagnostic from lexing or parsing: every fault is reported and
/// skipped, never fatal.
#[derive(Clone, Copy, Debug, PartialEq, Eq, Structural)]
pub enum Diag {
    /// A directive line with an unknown name or the wrong shape.
    UnknownDirective,
    /// A grid directive whose argument is neither a percentage nor
    /// `end`.
    BadGridDirective,
    /// A content item before the first slide began.
    UnexpectedHeader,
    /// A header-only item after the first slide began.
    UnexpectedContent,
    /// A column switch in a grid already on its second column.
    SpuriousColumn,
    /// A column switch with no open grid to apply it to.
    SpuriousColumnNoGrid,
}

/// One lexed item, before images are loaded and markdown chunks are
/// parsed: paths and markdown are still raw bytes.
#[derive(Debug, PartialEq, Eq)]
pub enum RawItem {
    Pad(usize),
    Margin(usize, Vec<u8>),
    BeginSlide(Option<Vec<u8>>),
    Md(Vec<u8>),
    Img(Vec<u8>),
    BeginGrid(u8),
    NextColumn,
    EndGrid,
}

/// The mathematical shape of a [`RawItem`]: byte payloads as
/// sequences.
pub enum RawItemV {
    Pad(usize),
    Margin(usize, Seq<u8>),
    BeginSlide(Option<Seq<u8>>),
    Md(Seq<u8>),
    Img(Seq<u8>),
    BeginGrid(u8),
    NextColumn,
    EndGrid,
}

impl View for RawItem {
    type V = RawItemV;

    open spec fn view(&self) -> RawItemV {
        match self {
            RawItem::Pad(p) => RawItemV::Pad(*p),
            RawItem::Margin(m, path) => RawItemV::Margin(*m, path@),
            RawItem::BeginSlide(t) => RawItemV::BeginSlide(
                match t {
                    Some(v) => Some(v@),
                    None => None,
                },
            ),
            RawItem::Md(text) => RawItemV::Md(text@),
            RawItem::Img(path) => RawItemV::Img(path@),
            RawItem::BeginGrid(r) => RawItemV::BeginGrid(*r),
            RawItem::NextColumn => RawItemV::NextColumn,
            RawItem::EndGrid => RawItemV::EndGrid,
        }
    }
}

/// One item handed to the slide-tree builder: markdown chunks already
/// parsed into trees, images already loaded.
#[derive(Debug, PartialEq, Eq)]
pub enum Item {
    Pad(usize),
    Margin(usize, ImageRef),
    BeginSlide(Option<Vec<u8>>),
    Md(DocNode),
    Img(ImageRef),
    BeginGrid(u8),
    NextColumn,
    EndGrid,
}

/// Every byte of `s[from..to]` is a decimal digit.
pub open spec fn is_digits(s: Seq<u8>, from: int, to: int) -> bool {
    forall|k: int| from <= k < to ==> 48 <= #[trigger] s[k] <= 57
}

/// The number the digits `s[from..to]` denote.
pub open spec fn dec_value(s: Seq<u8>, from: int, to: int) -> nat
    decreases to - from,
{
    if to <= from {
        0
    } else {
        dec_value(s, from, to - 1) * 10 + (if s[to - 1] >= 48 {
            (s[to - 1] - 48) as nat
        } else {
            0
        })
    }
}

/// A nonempty all-digit run whose value fits in `usize`.
pub open spec fn is_dec_usize(s: Seq<u8>, from: int, to: int) -> bool {
    &&& from < to
    &&& is_digits(s, from, to)
    &&& dec_value(s, from, to) <= usize::MAX
}

/// Appending digits never decreases the value.
proof fn lemma_dec_value_mono(s: Seq<u8>, from: int, mid: int, to: int)
    requires
        from <= mid <= to,
    ensures
        dec_value(s, from, mid) <= dec_value(s, from, to),
    decreases to - mid,
{
    if mid < to {
        lemma_dec_value_mono(s, from, mid, to - 1);
    }
}

/// Parse `s[from..to]` as a decimal number: the value when the run is
/// nonempty, all digits, and fits in `usize`; `None` otherwise.
#[verifier::loop_isolation(false)]
pub fn parse_usize(s: &[u8], from: usize, to: usize) -> (r: Option<usize>)
    requires
        from <= to <= s@.len(),
    ensures
        r is Some <==> is_dec_usize(s@, from as int, to as int),
        r matches Some(v) ==> v == dec_value(s@, from as int, to as int),
{
    if from == to {
        return None;
    }
    let mut acc: usize = 0;
    let mut i = from;
    while i < to
        invariant
            from <= i <= to,
            is_digits(s@, from as int, i as int),
            acc == dec_value(s@, from as int, i as int),
        decreases to - i,
    {
        let b = s[i];
        if b < 48 || b > 57 {
            return None;
        }
        let d = (b - 48) as usize;
        if acc > (usize::MAX - d) / 10 {
            proof {
                assert(acc * 10 + d > usize::MAX) by (nonlinear_arith)
                    requires
                        acc > (usize::MAX - d) / 10,
                        0 <= d <= 9,
                ;
                lemma_dec_value_mono(s@, from as int, i as int + 1, to as int);
            }
            return None;
        }
        proof {
            assert(acc * 10 + d <= usize::MAX) by (nonlinear_arith)
                requires
                    acc <= (usize::MAX - d) / 10,
                    0 <= d <= 9,
            ;
        }
        acc = acc * 10 + d;
        i = i + 1;
    }
    Some(acc)
}

/// Length of the run starting at `pos` that contains no `stop` byte.
pub open spec fn run_len(s: Seq<u8>, pos: int, stop: u8) -> nat
    decreases s.len() - pos,
{
    if !(0 <= pos < s.len()) {
        0
    } else if s[pos] == stop {
        0
    } else {
        1 + run_len(s, pos + 1, stop)
    }
}

/// Position of the first `stop` byte at or after `pos`, clamped to the
/// length of `s`.
pub open spec fn run_end(s: Seq<u8>, pos: int, stop: u8) -> int {
    let e = pos + run_len(s, pos, stop) as int;
    if e > s.len() {
        s.len() as int
    } else if e < pos {
        pos
    } else {
        e
    }
}

/// Number of `b` bytes at or after `pos`.
pub open spec fn count_byte(s: Seq<u8>, pos: int, b: u8) -> nat
    decreases s.len() - pos,
{
    if !(0 <= pos < s.len()) {
        0
    } else {
        (if s[pos] == b {
            1nat
        } else {
            0nat
        }) + count_byte(s, pos + 1, b)
    }
}

/// How a count relates to the first occurrence: either there is none
/// at or after `pos`, or one stands at the run's end and the rest
/// follow it.
proof fn lemma_count_at_run_end(s: Seq<u8>, pos: int, b: u8)
    requires
        0 <= pos,
    ensures
        count_byte(s, pos, b) == if run_end(s, pos, b) < s.len() {
            1 + count_byte(s, run_end(s, pos, b) + 1, b)
        } else {
            0nat
        },
    decreases s.len() - pos,
{
    if 0 <= pos < s.len() && s[pos] != b {
        lemma_count_at_run_end(s, pos + 1, b);
    }
}

/// Scan for the first `stop` byte at or after `from`.
#[verifier::loop_isolation(false)]
fn scan_to(s: &[u8], from: usize, stop: u8) -> (e: usize)
    requires
        from <= s@.len(),
    ensures
        e == run_end(s@, from as int, stop),
        from <= e <= s@.len(),
        e < s@.len() ==> s@[e as int] == stop,
        forall|k: int| from <= k < e ==> s@[k] != stop,
{
    let mut j = from;
    while j < s.len()
        invariant
            from <= j <= s@.len(),
            run_len(s@, from as int, stop) == j - from + run_len(s@, j as int, stop),
            forall|k: int| from <= k < j ==> s@[k] != stop,
        decreases s@.len() - j,
    {
        if s[j] == stop {
            return j;
        }
        j = j + 1;
    }
    j
}

/// Copy `s[from..to]` into a fresh vector.
#[verifier::loop_isolation(false)]
fn copy_range(s: &[u8], from: usize, to: usize) -> (out: Vec<u8>)
    requires
        from <= to <= s@.len(),
    ensures
        out@ == s@.subrange(from as int, to as int),
{
    let mut out: Vec<u8> = Vec::new();
    let mut j = from;
    while j < to
        invariant
            from <= j <= to,
            out@ == s@.subrange(from as int, j as int),
        decreases to - j,
    {
        out.push(s[j]);
        proof {
            assert(out@ =~= s@.subrange(from as int, j as int + 1));
        }
        j = j + 1;
    }
    out
}

/// A directive line: it begins with `.` but not with `..`.
pub open spec fn is_directive_line(line: Seq<u8>) -> bool {
    &&& line.len() >= 1
    &&& line[0] == 46
    &&& !(line.len() >= 2 && line[1] == 46)
}

/// The line's first field is `.` followed by the three given bytes.
pub open spec fn cmd_is(line: Seq<u8>, c1: u8, c2: u8, c3: u8) -> bool {
    &&& run_end(line, 0, 32) == 4
    &&& line.len() >= 4
    &&& line[0] == 46
    &&& line[1] == c1
    &&& line[2] == c2
    &&& line[3] == c3
}

/// The items and diagnostics one directive line produces, following
/// the directive grammar: `.SLD [title]`, `.PAD n`, `.MAR mid path`,
/// `.IMG path`, `.GRD [ratio|end]`, `.COL`. A directive with an
/// unknown name or the wrong number of fields is reported and skipped;
/// a grid ratio must be a percentage.
pub open spec fn directive_effect(line: Seq<u8>) -> (Seq<RawItemV>, Seq<Diag>) {
    let nf = count_byte(line, 0, 32) + 1;
    let s1 = run_end(line, 0, 32);
    let s2 = run_end(line, s1 + 1, 32);
    let s3 = run_end(line, s2 + 1, 32);
    if cmd_is(line, 83, 76, 68) {
        let title = if nf == 1 {
            None
        } else {
            Some(line.subrange(5, line.len() as int))
        };
        (seq![RawItemV::BeginSlide(title)], Seq::empty())
    } else if cmd_is(line, 77, 65, 82) && nf == 3 {
        let m = if is_dec_usize(line, s1 + 1, s2) {
            dec_value(line, s1 + 1, s2) as usize
        } else {
            0usize
        };
        (seq![RawItemV::Margin(m, line.subrange(s2 + 1, s3))], Seq::empty())
    } else if cmd_is(line, 80, 65, 68) && nf == 2 {
        let p = if is_dec_usize(line, s1 + 1, s2) {
            dec_value(line, s1 + 1, s2) as usize
        } else {
            0usize
        };
        (seq![RawItemV::Pad(p)], Seq::empty())
    } else if cmd_is(line, 73, 77, 71) && nf == 2 {
        (seq![RawItemV::Img(line.subrange(s1 + 1, s2))], Seq::empty())
    } else if cmd_is(line, 71, 82, 68) {
        if nf == 1 {
            (seq![RawItemV::BeginGrid(50)], Seq::empty())
        } else if nf == 2 {
            if is_dec_usize(line, s1 + 1, s2) && dec_value(line, s1 + 1, s2) <= 100 {
                (seq![RawItemV::BeginGrid(dec_value(line, s1 + 1, s2) as u8)], Seq::empty())
            } else if line.subrange(s1 + 1, s2) == seq![101u8, 110u8, 100u8] {
                (seq![RawItemV::EndGrid], Seq::empty())
            } else {
                (Seq::empty(), seq![Diag::BadGridDirective])
            }
        } else {
            (Seq::empty(), Seq::empty())
        }
    } else if cmd_is(line, 67, 79, 76) {
        if nf == 1 {
            (seq![RawItemV::NextColumn], Seq::empty())
        } else {
            (Seq::empty(), Seq::empty())
        }
    } else {
        (Seq::empty(), seq![Diag::UnknownDirective])
    }
}

/// The whole lex of `data` from position `pos`, with `mdbuf` the
/// markdown text accumulated so far: directive lines first flush any
/// accumulated markdown as one chunk, then produce their items; other
/// lines accumulate, newline restored. At the end the remaining
/// buffer is always flushed, even when it is empty.
pub open spec fn lex_from(data: Seq<u8>, pos: int, mdbuf: Seq<u8>) -> (Seq<RawItemV>, Seq<Diag>)
    decreases data.len() - pos,
{
    if !(0 <= pos < data.len()) {
        (seq![RawItemV::Md(mdbuf)], Seq::empty())
    } else {
        let e = run_end(data, pos, 10);
        let line = data.subrange(pos, e);
        let next = if e + 1 > data.len() {
            data.len() as int
        } else {
            e + 1
        };
        if is_directive_line(line) {
            let flushed: Seq<RawItemV> = if mdbuf.len() > 0 {
                seq![RawItemV::Md(mdbuf)]
            } else {
                Seq::empty()
            };
            let d = directive_effect(line);
            let rest = lex_from(data, next, Seq::empty());
            (flushed + d.0 + rest.0, d.1 + rest.1)
        } else {
            lex_from(data, next, mdbuf + line + seq![10u8])
        }
    }
}

/// Split a source document into directive items and markdown chunks,
/// reporting malformed directives: exactly the lex that [`lex_from`]
/// describes, from the start with an empty buffer.
#[verifier::loop_isolation(false)]
pub fn lex(data: &[u8]) -> (out: (Vec<RawItem>, Vec<Diag>))
    ensures
        ({
            let r = lex_from(data@, 0, Seq::empty());
            &&& out.0@.map_values(|it: RawItem| it@) == r.0
            &&& out.1@ == r.1
        }),
{
    let ghost full = lex_from(data@, 0, Seq::empty());
    let mut items: Vec<RawItem> = Vec::new();
    let mut diags: Vec<Diag> = Vec::new();
    let mut mdbuf: Vec<u8> = Vec::new();
    let mut pos: usize = 0;
    while pos < data.len()
        invariant
            pos <= data@.len(),
            ({
                let rest = lex_from(data@, pos as int, mdbuf@);
                &&& full.0 == items@.map_values(|it: RawItem| it@) + rest.0
                &&& full.1 == diags@ + rest.1
            }),
        decreases data@.len() - pos,
    {
        let ghost mdbuf0 = mdbuf@;
        let ghost items0 = items@;
        let ghost diags0 = diags@;
        let e = scan_to(data, pos, 10);
        let mut line = copy_range(data, pos, e);
        let next = if e < data.len() {
            e + 1
        } else {
            e
        };
        let ghost line_s = data@.subrange(pos as int, e as int);
        let ghost rest0 = lex_from(data@, pos as int, mdbuf0);
        let directive = line.len() >= 1 && line[0] == 46 && !(line.len() >= 2 && line[1] == 46);
        if directive {
            if mdbuf.len() > 0 {
                items.push(RawItem::Md(mdbuf));
                mdbuf = Vec::new();
            }
            proof {
                let flushed: Seq<RawItemV> = if mdbuf0.len() > 0 {
                    seq![RawItemV::Md(mdbuf0)]
                } else {
                    Seq::empty()
                };
                assert(items@.map_values(|it: RawItem| it@) =~= items0.map_values(
                    |it: RawItem| it@,
                ) + flushed);
            }
            lex_directive(&line, &mut items, &mut diags);
            proof {
                let flushed: Seq<RawItemV> = if mdbuf0.len() > 0 {
                    seq![RawItemV::Md(mdbuf0)]
                } else {
                    Seq::empty()
                };
                let d = directive_effect(line_s);
                let restn = lex_from(data@, next as int, Seq::<u8>::empty());
                assert(mdbuf@ =~= Seq::<u8>::empty());
                assert(rest0.0 == flushed + d.0 + restn.0);
                assert(rest0.1 == d.1 + restn.1);
                assert(items@.map_values(|it: RawItem| it@) =~= items0.map_values(
                    |it: RawItem| it@,
                ) + flushed + d.0);
                assert(full.0 =~= items@.map_values(|it: RawItem| it@) + restn.0);
                assert(full.1 =~= diags@ + restn.1);
            }
        } else {
            mdbuf.append(&mut line);
            mdbuf.push(10);
            proof {
                assert(mdbuf@ =~= mdbuf0 + line_s + seq![10u8]);
                assert(rest0.0 == lex_from(data@, next as int, mdbuf0 + line_s + seq![10u8]).0);
                assert(full.0 =~= items@.map_values(|it: RawItem| it@) + lex_from(
                    data@,
                    next as int,
                    mdbuf@,
                ).0);
                assert(full.1 =~= diags@ + lex_from(data@, next as int, mdbuf@).1);
            }
        }
        proof {
            let rest = lex_from(data@, next as int, mdbuf@);
            assert(full.0 =~= items@.map_values(|it: RawItem| it@) + rest.0);
            assert(full.1 =~= diags@ + rest.1);
        }
        pos = next;
    }
    items.push(RawItem::Md(mdbuf));
    proof {
        assert(full.0 =~= items@.map_values(|it: RawItem| it@));
        assert(full.1 =~= diags@);
    }
    (items, diags)
}

/// Process one directive line, appending its items and diagnostics.
#[verifier::loop_isolation(false)]
fn lex_directive(line: &Vec<u8>, items: &mut Vec<RawItem>, diags: &mut Vec<Diag>)
    requires
        is_directive_line(line@),
    ensures
        ({
            let d = directive_effect(line@);
            &&& final(items)@.map_values(|it: RawItem| it@) == old(items)@.map_values(
                |it: RawItem| it@,
            ) + d.0
            &&& final(diags)@ == old(diags)@ + d.1
        }),
{
    let n = line.len();
    let s1 = scan_to(line.as_slice(), 0, 32);
    let s2 = if s1 < n {
        scan_to(line.as_slice(), s1 + 1, 32)
    } else {
        n
    };
    let s3 = if s2 < n {
        scan_to(line.as_slice(), s2 + 1, 32)
    } else {
        n
    };
    proof {
        assert(s2 == run_end(line@, s1 as int + 1, 32));
        assert(s3 == run_end(line@, s2 as int + 1, 32));
        lemma_count_at_run_end(line@, 0, 32);
        lemma_count_at_run_end(line@, s1 as int + 1, 32);
        lemma_count_at_run_end(line@, s2 as int + 1, 32);
    }
    let nspaces = count_spaces(line.as_slice());
    let cmd_sld = s1 == 4 && line[1] == 83 && line[2] == 76 && line[3] == 68;
    let cmd_mar = s1 == 4 && line[1] == 77 && line[2] == 65 && line[3] == 82;
    let cmd_pad = s1 == 4 && line[1] == 80 && line[2] == 65 && line[3] == 68;
    let cmd_img = s1 == 4 && line[1] == 73 && line[2] == 77 && line[3] == 71;
    let cmd_grd = s1 == 4 && line[1] == 71 && line[2] == 82 && line[3] == 68;
    let cmd_col = s1 == 4 && line[1] == 67 && line[2] == 79 && line[3] == 76;
    if cmd_sld {
        let title = if nspaces == 0 {
            None
        } else {
            Some(copy_range(line.as_slice(), 5, n))
        };
        items.push(RawItem::BeginSlide(title));
    } else if cmd_mar && nspaces == 2 {
        let m = match parse_usize(line.as_slice(), s1 + 1, s2) {
            Some(v) => v,
            None => 0,
        };
        items.push(RawItem::Margin(m, copy_range(line.as_slice(), s2 + 1, s3)));
    } else if cmd_pad && nspaces == 1 {
        let p = match parse_usize(line.as_slice(), s1 + 1, s2) {
            Some(v) => v,
            None => 0,
        };
        items.push(RawItem::Pad(p));
    } else if cmd_img && nspaces == 1 {
        items.push(RawItem::Img(copy_range(line.as_slice(), s1 + 1, s2)));
    } else if cmd_grd {
        if nspaces == 0 {
            items.push(RawItem::BeginGrid(50));
        } else if nspaces == 1 {
            let rat = parse_usize(line.as_slice(), s1 + 1, s2);
            match rat {
                Some(v) if v <= 100 => {
                    items.push(RawItem::BeginGrid(v as u8));
                },
                _ => {
                    if s2 - (s1 + 1) == 3 && line[s1 + 1] == 101 && line[s1 + 2] == 110 && line[s1
                        + 3] == 100 {
                        proof {
                            assert(line@.subrange(s1 as int + 1, s2 as int) =~= seq![
                                101u8,
                                110u8,
                                100u8,
                            ]);
                        }
                        items.push(RawItem::EndGrid);
                    } else {
                        proof {
                            let sub = line@.subrange(s1 as int + 1, s2 as int);
                            let endw = seq![101u8, 110u8, 100u8];
                            assert(endw.len() == 3 && endw[0] == 101 && endw[1] == 110 && endw[2]
                                == 100);
                            if sub.len() == 3 {
                                assert(sub[0] == line@[s1 as int + 1]);
                                assert(sub[1] == line@[s1 as int + 2]);
                                assert(sub[2] == line@[s1 as int + 3]);
                            }
                            assert(sub != endw);
                        }
                        diags.push(Diag::BadGridDirective);
                    }
                },
            }
        }
    } else if cmd_col {
        if nspaces == 0 {
            items.push(RawItem::NextColumn);
        }
    } else {
        diags.push(Diag::UnknownDirective);
    }
    proof {
        let d = directive_effect(line@);
        assert(items@.map_values(|it: RawItem| it@) =~= old(items)@.map_values(|it: RawItem| it@)
            + d.0);
        assert(diags@ =~= old(diags)@ + d.1);
    }
}

/// Count the space bytes of a line.
#[verifier::loop_isolation(false)]
fn count_spaces(s: &[u8]) -> (n: usize)
    ensures
        n == count_byte(s@, 0, 32),
        n <= s@.len(),
{
    let mut n: usize = 0;
    let mut j: usize = 0;
    while j < s.len()
        invariant
            j <= s@.len(),
            n <= j,
            count_byte(s@, 0, 32) == n + count_byte(s@, j as int, 32),
        decreases s@.len() - j,
    {
        if s[j] == 32 {
            n = n + 1;
        }
        j = j + 1;
    }
    n
}

/// The mathematical shape of a [`Content`] item: grid columns as
/// sequences.
pub enum ContentV {
    Grid { ratio: u8, first: Seq<ContentV>, second: Seq<ContentV> },
    Md(DocNode),
    Img(ImageRef),
    Dummy,
}

/// The shape of one content item.
pub open spec fn content_view(c: Content) -> ContentV
    decreases c, 0int,
{
    match c {
        Content::Grid(g) => ContentV::Grid {
            ratio: g.ratio,
            first: content_views_upto(g.first@, g.first@.len() as int),
            second: content_views_upto(g.second@, g.second@.len() as int),
        },
        Content::Md(n) => ContentV::Md(n),
        Content::Img(r) => ContentV::Img(r),
        Content::Dummy => ContentV::Dummy,
    }
}

/// The shapes of the first `k` items of a content sequence.
pub open spec fn content_views_upto(items: Seq<Content>, k: int) -> Seq<ContentV>
    decreases items, k,
{
    if k <= 0 || k > items.len() {
        Seq::empty()
    } else {
        content_views_upto(items, k - 1).push(content_view(items[k - 1]))
    }
}

/// The shape of a whole content sequence.
pub open spec fn content_views(items: Seq<Content>) -> Seq<ContentV> {
    content_views_upto(items, items.len() as int)
}

/// Appending an item appends its shape.
proof fn lemma_content_views_push(s: Seq<Content>, c: Content)
    ensures
        content_views(s.push(c)) == content_views(s).push(content_view(c)),
{
    lemma_content_views_upto_stable(s, c, s.len() as int);
    assert(s.push(c)[s.len() as int] == c);
}

/// A prefix of the shapes does not change when an item is appended.
proof fn lemma_content_views_upto_stable(s: Seq<Content>, c: Content, k: int)
    requires
        k <= s.len(),
    ensures
        content_views_upto(s.push(c), k) == content_views_upto(s, k),
    decreases k,
{
    if k > 0 {
        lemma_content_views_upto_stable(s, c, k - 1);
        assert(s.push(c)[k - 1] == s[k - 1]);
    }
}

/// The shape of an optional byte payload.
pub open spec fn opt_bytes_view(t: Option<Vec<u8>>) -> Option<Seq<u8>> {
    match t {
        Some(v) => Some(v@),
        None => None,
    }
}

/// The mathematical shape of a finished [`Slide`].
pub struct SlideV {
    pub title: Option<Seq<u8>>,
    pub content: Seq<ContentV>,
}

/// The shape of one slide.
pub open spec fn slide_view(s: Slide) -> SlideV {
    SlideV { title: opt_bytes_view(s.title), content: content_views(s.content@) }
}

/// The shapes of the first `k` slides.
pub open spec fn slides_view_upto(ss: Seq<Slide>, k: int) -> Seq<SlideV>
    decreases k,
{
    if k <= 0 || k > ss.len() {
        Seq::empty()
    } else {
        slides_view_upto(ss, k - 1).push(slide_view(ss[k - 1]))
    }
}

/// The shapes of a slide sequence.
pub open spec fn slides_view(ss: Seq<Slide>) -> Seq<SlideV> {
    slides_view_upto(ss, ss.len() as int)
}

/// Appending a slide appends its shape.
proof fn lemma_slides_view_push(ss: Seq<Slide>, s: Slide)
    ensures
        slides_view(ss.push(s)) == slides_view(ss).push(slide_view(s)),
{
    lemma_slides_view_upto_stable(ss, s, ss.len() as int);
    assert(ss.push(s)[ss.len() as int] == s);
}

/// A prefix of the slide shapes does not change when one is appended.
proof fn lemma_slides_view_upto_stable(ss: Seq<Slide>, s: Slide, k: int)
    requires
        k <= ss.len(),
    ensures
        slides_view_upto(ss.push(s), k) == slides_view_upto(ss, k),
    decreases k,
{
    if k > 0 {
        lemma_slides_view_upto_stable(ss, s, k - 1);
        assert(ss.push(s)[k - 1] == ss[k - 1]);
    }
}

/// The mathematical shape of an [`Item`].
pub enum ItemV {
    Pad(usize),
    Margin(usize, ImageRef),
    BeginSlide(Option<Seq<u8>>),
    Md(DocNode),
    Img(ImageRef),
    BeginGrid(u8),
    NextColumn,
    EndGrid,
}

impl View for Item {
    type V = ItemV;

    open spec fn view(&self) -> ItemV {
        match self {
            Item::Pad(p) => ItemV::Pad(*p),
            Item::Margin(m, img) => ItemV::Margin(*m, *img),
            Item::BeginSlide(t) => ItemV::BeginSlide(
                match t {
                    Some(v) => Some(v@),
                    None => None,
                },
            ),
            Item::Md(n) => ItemV::Md(*n),
            Item::Img(r) => ItemV::Img(*r),
            Item::BeginGrid(r) => ItemV::BeginGrid(*r),
            Item::NextColumn => ItemV::NextColumn,
            Item::EndGrid => ItemV::EndGrid,
        }
    }
}

/// A grid while it is being assembled: its columns so far and whether
/// the column switch has happened. This is parser state only; it never
/// reaches the renderer's view of a grid.
pub struct GridStV {
    pub ratio: u8,
    pub first: Seq<ContentV>,
    pub second: Seq<ContentV>,
    pub col_adv: bool,
}

/// The slide currently being assembled.
pub struct SlideStV {
    pub title: Option<Seq<u8>>,
    pub content: Seq<ContentV>,
    pub open: Option<GridStV>,
}

/// The whole state of the slide-tree builder.
pub struct ParseStV {
    pub padding: usize,
    pub margin: Option<Margin>,
    pub slides: Seq<SlideV>,
    pub cur: Option<SlideStV>,
    pub last_title: Option<Seq<u8>>,
    pub diags: Seq<Diag>,
}

/// Append a content item to the grid's current column.
pub open spec fn grid_push(g: GridStV, c: ContentV) -> GridStV {
    if g.col_adv {
        GridStV { second: g.second.push(c), ..g }
    } else {
        GridStV { first: g.first.push(c), ..g }
    }
}

/// Append a content item to the growing slide: into the open grid's
/// current column if a grid is open, else at the top level.
pub open spec fn slide_push(sb: SlideStV, c: ContentV) -> SlideStV {
    match sb.open {
        Some(g) => SlideStV { open: Some(grid_push(g, c)), ..sb },
        None => SlideStV { content: sb.content.push(c), ..sb },
    }
}

/// Close the open grid, if any: its finished, immutable form joins the
/// slide content; the column-switch flag is discarded.
pub open spec fn slide_close(sb: SlideStV) -> SlideStV {
    match sb.open {
        Some(g) => SlideStV {
            content: sb.content.push(
                ContentV::Grid { ratio: g.ratio, first: g.first, second: g.second },
            ),
            open: None,
            ..sb
        },
        None => sb,
    }
}

/// Finish the growing slide into its immutable form.
pub open spec fn slide_finish(sb: SlideStV) -> SlideV {
    let c = slide_close(sb);
    SlideV { title: c.title, content: c.content }
}

/// The builder's starting state: default padding, no margin, nothing
/// built.
pub open spec fn initial_parse_state() -> ParseStV {
    ParseStV {
        padding: 16,
        margin: None,
        slides: Seq::empty(),
        cur: None,
        last_title: None,
        diags: Seq::empty(),
    }
}

/// One step of the slide-tree builder. Before the first slide begins,
/// only padding, margin and slide-begin items apply; anything else is
/// reported. After it, content items join the growing slide (routed
/// into an open grid's current column), a new slide inherits the last
/// title when it brings none, a column switch applies to the open grid
/// once, and a grid end closes the open grid and leaves a marker.
pub open spec fn parse_step(st: ParseStV, item: ItemV) -> ParseStV {
    match st.cur {
        None => match item {
            ItemV::Pad(p) => ParseStV { padding: p, ..st },
            ItemV::Margin(m, img) => ParseStV {
                margin: Some(Margin { image: img, middle: m }),
                ..st
            },
            ItemV::BeginSlide(t) => {
                let newt = if t is Some {
                    t
                } else {
                    st.last_title
                };
                ParseStV {
                    cur: Some(SlideStV { title: newt, content: Seq::empty(), open: None }),
                    last_title: newt,
                    ..st
                }
            },
            _ => ParseStV { diags: st.diags.push(Diag::UnexpectedHeader), ..st },
        },
        Some(sb) => match item {
            ItemV::BeginSlide(t) => {
                let newt = if t is Some {
                    t
                } else {
                    st.last_title
                };
                ParseStV {
                    slides: st.slides.push(slide_finish(sb)),
                    cur: Some(SlideStV { title: newt, content: Seq::empty(), open: None }),
                    last_title: newt,
                    ..st
                }
            },
            ItemV::BeginGrid(r) => match sb.open {
                Some(g) => ParseStV {
                    cur: Some(
                        SlideStV {
                            open: Some(
                                grid_push(
                                    g,
                                    ContentV::Grid {
                                        ratio: r,
                                        first: Seq::empty(),
                                        second: Seq::empty(),
                                    },
                                ),
                            ),
                            ..sb
                        },
                    ),
                    ..st
                },
                None => ParseStV {
                    cur: Some(
                        SlideStV {
                            open: Some(
                                GridStV {
                                    ratio: r,
                                    first: Seq::empty(),
                                    second: Seq::empty(),
                                    col_adv: false,
                                },
                            ),
                            ..sb
                        },
                    ),
                    ..st
                },
            },
            ItemV::NextColumn => match sb.open {
                Some(g) => {
                    if g.col_adv {
                        ParseStV { diags: st.diags.push(Diag::SpuriousColumn), ..st }
                    } else {
                        ParseStV {
                            cur: Some(SlideStV { open: Some(GridStV { col_adv: true, ..g }), ..sb }),
                            ..st
                        }
                    }
                },
                None => ParseStV { diags: st.diags.push(Diag::SpuriousColumnNoGrid), ..st },
            },
            ItemV::EndGrid => {
                let sb2 = slide_close(sb);
                ParseStV {
                    cur: Some(SlideStV { content: sb2.content.push(ContentV::Dummy), ..sb2 }),
                    ..st
                }
            },
            ItemV::Md(n) => ParseStV { cur: Some(slide_push(sb, ContentV::Md(n))), ..st },
            ItemV::Img(r) => ParseStV { cur: Some(slide_push(sb, ContentV::Img(r))), ..st },
            _ => ParseStV { diags: st.diags.push(Diag::UnexpectedContent), ..st },
        },
    }
}

/// The builder's state after the first `k` items.
pub open spec fn parse_items(items: Seq<ItemV>, k: int) -> ParseStV
    decreases k,
{
    if k <= 0 {
        initial_parse_state()
    } else {
        parse_step(parse_items(items, k - 1), items[k - 1])
    }
}

/// The final slide sequence: the growing slide, if any, is finished
/// and appended.
pub open spec fn finish_slides(st: ParseStV) -> Seq<SlideV> {
    match st.cur {
        Some(sb) => st.slides.push(slide_finish(sb)),
        None => st.slides,
    }
}

/// Copy an optional byte string.
fn copy_opt_bytes(t: &Option<Vec<u8>>) -> (r: Option<Vec<u8>>)
    ensures
        opt_bytes_view(r) == opt_bytes_view(*t),
{
    match t {
        Some(v) => Some(copy_range(v.as_slice(), 0, v.len())),
        None => None,
    }
}

/// Assemble a presentation from lexed items, consuming them: exactly
/// the fold of [`parse_step`] over the items, its slides finished by
/// [`finish_slides`], with every fault reported in the diagnostics.
#[verifier::loop_isolation(false)]
pub fn parse(items: Vec<Item>) -> (out: (Presentation, Vec<Diag>))
    ensures
        ({
            let st = parse_items(items@.map_values(|it: Item| it@), items@.len() as int);
            &&& out.0.config == (GlobalConfig { padding: st.padding, margin: st.margin })
            &&& slides_view(out.0.slides@) == finish_slides(st)
            &&& out.1@ == st.diags
        }),
{
    let ghost itemsv = items@.map_values(|it: Item| it@);
    let ghost total = items@.len() as int;
    let mut items = items;
    let mut padding: usize = 16;
    let mut margin: Option<Margin> = None;
    let mut slides: Vec<Slide> = Vec::new();
    let mut cur_active = false;
    let mut cur_title: Option<Vec<u8>> = None;
    let mut cur_content: Vec<Content> = Vec::new();
    let mut open_active = false;
    let mut open_ratio: u8 = 0;
    let mut open_first: Vec<Content> = Vec::new();
    let mut open_second: Vec<Content> = Vec::new();
    let mut open_col = false;
    let mut last_title: Option<Vec<u8>> = None;
    let mut diags: Vec<Diag> = Vec::new();
    let ghost mut k: int = 0;
    while items.len() > 0
        invariant
            0 <= k <= total,
            items@.map_values(|it: Item| it@) == itemsv.skip(k),
            items@.len() == total - k,
            ({
                let st = parse_items(itemsv, k);
                &&& st.padding == padding
                &&& st.margin == margin
                &&& st.slides == slides_view(slides@)
                &&& st.last_title == opt_bytes_view(last_title)
                &&& st.diags == diags@
                &&& cur_active ==> st.cur == Some(
                    SlideStV {
                        title: opt_bytes_view(cur_title),
                        content: content_views(cur_content@),
                        open: if open_active {
                            Some(
                                GridStV {
                                    ratio: open_ratio,
                                    first: content_views(open_first@),
                                    second: content_views(open_second@),
                                    col_adv: open_col,
                                },
                            )
                        } else {
                            None
                        },
                    },
                )
                &&& !cur_active ==> st.cur is None
            }),
            !cur_active ==> cur_content@ == Seq::<Content>::empty(),
        decreases items@.len(),
    {
        let ghost st0 = parse_items(itemsv, k);
        let ghost pre = items@;
        let item = items.remove(0);
        proof {
            assert(pre.map_values(|it: Item| it@)[0] == itemsv.skip(k)[0]);
            assert(item@ == itemsv[k]);
            assert(items@ =~= pre.skip(1));
            assert forall|j: int| 0 <= j < items@.len() implies (#[trigger] items@[j])@ == itemsv[k
                + 1 + j] by {
                assert(items@[j] == pre[j + 1]);
                assert(pre.map_values(|it: Item| it@)[j + 1] == itemsv.skip(k)[j + 1]);
            }
            assert(items@.map_values(|it: Item| it@) =~= itemsv.skip(k + 1));
            assert(parse_items(itemsv, k + 1) == parse_step(st0, itemsv[k]));
        }
        match item {
            Item::Pad(p) => {
                if !cur_active {
                    padding = p;
                } else {
                    diags.push(Diag::UnexpectedContent);
                }
            },
            Item::Margin(m, img) => {
                if !cur_active {
                    margin = Some(Margin { image: img, middle: m });
                } else {
                    diags.push(Diag::UnexpectedContent);
                }
            },
            Item::BeginSlide(t) => {
                let newt: Option<Vec<u8>> = match t {
                    Some(v) => Some(v),
                    None => copy_opt_bytes(&last_title),
                };
                if cur_active {
                    if open_active {
                        let finished = Content::Grid(
                            Grid { ratio: open_ratio, first: open_first, second: open_second },
                        );
                        proof {
                            lemma_content_views_push(cur_content@, finished);
                        }
                        cur_content.push(finished);
                        open_first = Vec::new();
                        open_second = Vec::new();
                        open_active = false;
                    }
                    let done = Slide { title: cur_title, content: cur_content };
                    proof {
                        lemma_slides_view_push(slides@, done);
                    }
                    slides.push(done);
                    cur_content = Vec::new();
                }
                cur_title = copy_opt_bytes(&newt);
                last_title = newt;
                cur_active = true;
                open_active = false;
            },
            Item::BeginGrid(r) => {
                if !cur_active {
                    diags.push(Diag::UnexpectedHeader);
                } else if open_active {
                    let g = Content::Grid(Grid { ratio: r, first: Vec::new(), second: Vec::new() });
                    if open_col {
                        proof {
                            lemma_content_views_push(open_second@, g);
                        }
                        open_second.push(g);
                    } else {
                        proof {
                            lemma_content_views_push(open_first@, g);
                        }
                        open_first.push(g);
                    }
                } else {
                    open_active = true;
                    open_ratio = r;
                    open_first = Vec::new();
                    open_second = Vec::new();
                    open_col = false;
                }
            },
            Item::NextColumn => {
                if !cur_active {
                    diags.push(Diag::UnexpectedHeader);
                } else if open_active {
                    if open_col {
                        diags.push(Diag::SpuriousColumn);
                    } else {
                        open_col = true;
                    }
                } else {
                    diags.push(Diag::SpuriousColumnNoGrid);
                }
            },
            Item::EndGrid => {
                if !cur_active {
                    diags.push(Diag::UnexpectedHeader);
                } else {
                    if open_active {
                        let finished = Content::Grid(
                            Grid { ratio: open_ratio, first: open_first, second: open_second },
                        );
                        proof {
                            lemma_content_views_push(cur_content@, finished);
                        }
                        cur_content.push(finished);
                        open_first = Vec::new();
                        open_second = Vec::new();
                        open_active = false;
                    }
                    proof {
                        lemma_content_views_push(cur_content@, Content::Dummy);
                    }
                    cur_content.push(Content::Dummy);
                }
            },
            Item::Md(n) => {
                if !cur_active {
                    diags.push(Diag::UnexpectedHeader);
                } else {
                    let c = Content::Md(n);
                    if open_active {
                        if open_col {
                            proof {
                                lemma_content_views_push(open_second@, c);
                            }
                            open_second.push(c);
                        } else {
                            proof {
                                lemma_content_views_push(open_first@, c);
                            }
                            open_first.push(c);
                        }
                    } else {
                        proof {
                            lemma_content_views_push(cur_content@, c);
                        }
                        cur_content.push(c);
                    }
                }
            },
            Item::Img(r) => {
                if !cur_active {
                    diags.push(Diag::UnexpectedHeader);
                } else {
                    let c = Content::Img(r);
                    if open_active {
                        if open_col {
                            proof {
                                lemma_content_views_push(open_second@, c);
                            }
                            open_second.push(c);
                        } else {
                            proof {
                                lemma_content_views_push(open_first@, c);
                            }
                            open_first.push(c);
                        }
                    } else {
                        proof {
                            lemma_content_views_push(cur_content@, c);
                        }
                        cur_content.push(c);
                    }
                }
            },
        }
        proof {
            k = k + 1;
            let st1 = parse_items(itemsv, k);
            assert(st1 == parse_step(st0, itemsv[k - 1]));
            assert(st1.padding == padding);
            assert(st1.margin == margin);
            assert(st1.slides == slides_view(slides@));
            assert(st1.last_title == opt_bytes_view(last_title));
            assert(st1.diags == diags@);
            if cur_active {
                let expect = Some(
                    SlideStV {
                        title: opt_bytes_view(cur_title),
                        content: content_views(cur_content@),
                        open: if open_active {
                            Some(
                                GridStV {
                                    ratio: open_ratio,
                                    first: content_views(open_first@),
                                    second: content_views(open_second@),
                                    col_adv: open_col,
                                },
                            )
                        } else {
                            None
                        },
                    },
                );
                assert(st1.cur == expect);
            } else {
                assert(st1.cur is None);
            }
        }
    }
    if cur_active {
        if open_active {
            let finished = Content::Grid(
                Grid { ratio: open_ratio, first: open_first, second: open_second },
            );
            proof {
                lemma_content_views_push(cur_content@, finished);
            }
            cur_content.push(finished);
        }
        let done = Slide { title: cur_title, content: cur_content };
        proof {
            lemma_slides_view_push(slides@, done);
        }
        slides.push(done);
    }
    let p = Presentation { config: GlobalConfig { padding, margin }, slides };
    (p, diags)
}

} // verus!
