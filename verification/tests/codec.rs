//! Tests of the glyph codec: decoding, truncation behavior, the
//! encode/decode round trip, measuring, and the pixel mapping.

use eileda::draw::DrawOp;
use eileda::uf2::{draw_char, encode, measure, parse, UfGlyph, Ufx};

/// A stream with the given widths and tile bytes appended.
fn stream(widths: &[u8], tiles: &[u8]) -> Vec<u8> {
    let mut v = vec![0u8; 256];
    v[..widths.len()].copy_from_slice(widths);
    v.extend_from_slice(tiles);
    v
}

#[test]
fn decode_empty_stream() {
    let f = parse(&[], 2, 12);
    assert_eq!(f.height, 12);
    assert_eq!(f.side, 2);
    assert_eq!(f.glyphs.len(), 256);
    for g in &f.glyphs {
        assert_eq!(g.width, 0);
        assert_eq!(g.inner.len(), 4);
        for t in &g.inner {
            assert_eq!(t.raw, 0);
        }
    }
}

#[test]
fn empty_glyph_is_the_default() {
    let g = UfGlyph::empty(5);
    assert_eq!(g.width, 0);
    assert_eq!(g.inner.len(), 25);
    assert!(g.inner.iter().all(|t| t.raw == 0));
    let f = parse(&[], 5, 34);
    assert_eq!(f.glyphs[17], UfGlyph::empty(5));
}

#[test]
fn decode_widths_in_order() {
    let widths: Vec<u8> = (0..=255).collect();
    let f = parse(&widths, 1, 8);
    for (i, g) in f.glyphs.iter().enumerate() {
        assert_eq!(g.width as usize, i);
    }
}

#[test]
fn decode_tile_bytes_low_first() {
    let tiles = [1u8, 2, 3, 4, 5, 6, 7, 8];
    let f = parse(&stream(&[], &tiles), 2, 12);
    let expect = 0x0807060504030201u64;
    assert_eq!(f.glyphs[0].inner[0].raw, expect);
    assert_eq!(f.glyphs[0].inner[1].raw, 0);
}

#[test]
fn decode_tiles_fill_slots_then_glyphs() {
    // side 1: one tile per glyph, so tile k belongs to glyph k.
    let mut tiles = Vec::new();
    for k in 0..3u8 {
        tiles.extend_from_slice(&[k + 1, 0, 0, 0, 0, 0, 0, 0]);
    }
    let f = parse(&stream(&[], &tiles), 1, 8);
    assert_eq!(f.glyphs[0].inner[0].raw, 1);
    assert_eq!(f.glyphs[1].inner[0].raw, 2);
    assert_eq!(f.glyphs[2].inner[0].raw, 3);
    assert_eq!(f.glyphs[3].inner[0].raw, 0);
}

#[test]
fn decode_never_fails_on_truncation() {
    // Any truncation of a stream decodes; glyphs beyond the last
    // complete tile group keep the default value.
    let mut data = Vec::new();
    for i in 0..300usize {
        data.push((i % 251) as u8);
    }
    for len in 0..data.len() {
        let f = parse(&data[..len], 2, 12);
        assert_eq!(f.glyphs.len(), 256);
    }
    // 256 widths, one complete tile, then a 3-byte partial group: the
    // partial group is not a tile and every later slot stays empty.
    let f = parse(&stream(&[7], &[9, 0, 0, 0, 0, 0, 0, 0, 1, 2, 3]), 2, 12);
    assert_eq!(f.glyphs[0].width, 7);
    assert_eq!(f.glyphs[0].inner[0].raw, 9);
    assert_eq!(f.glyphs[0].inner[1].raw, 0);
    for g in 1..256 {
        assert_eq!(f.glyphs[g].width, 0);
        for s in 0..4 {
            assert_eq!(f.glyphs[g].inner[s].raw, 0);
        }
    }
}

#[test]
fn encode_decode_round_trip() {
    // A synthetic width table and tile set survive the round trip
    // bit for bit.
    let widths: Vec<u8> = (0..=255u8).map(|b| b.wrapping_mul(3)).collect();
    let mut tiles = Vec::new();
    for t in 0..256 * 4usize {
        for k in 0..8usize {
            tiles.push(((t * 8 + k) % 253) as u8);
        }
    }
    let f = parse(&stream(&widths, &tiles), 2, 14);
    let bytes = encode(&f);
    let g = parse(&bytes, 2, 14);
    assert_eq!(f, g);
}

#[test]
fn measure_sums_advance_widths() {
    let mut widths = vec![0u8; 256];
    widths[b'a' as usize] = 5;
    widths[b'b' as usize] = 7;
    widths[b' ' as usize] = 3;
    let f = parse(&stream(&widths, &[]), 1, 8);
    assert_eq!(measure(&f, b""), 0);
    assert_eq!(measure(&f, b"ab"), 12);
    assert_eq!(measure(&f, b"a b a"), 23);
}

#[test]
fn pixel_mapping_bit_to_point() {
    // Bit (y%8)*8 + (7 - x%8) of a tile is pixel (x, y); drawing glyph
    // 0 at (100, 200) with only that bit set emits exactly one point.
    let x = 2usize;
    let y = 5usize;
    let bit = (y % 8) * 8 + (7 - (x % 8));
    let mut f: Ufx = parse(&[], 1, 8);
    f.glyphs[0].width = 8;
    f.glyphs[0].inner[0].raw = 1u64 << bit;
    let mut ops = Vec::new();
    draw_char(&mut ops, &f, 100, 200, 0);
    assert_eq!(ops, vec![DrawOp::Point { x: 100 + x, y: 200 + y }]);
}

#[test]
fn pixel_outside_width_not_drawn() {
    // The same bit is not emitted when the advance width ends before
    // its column.
    let bit = (5 % 8) * 8 + (7 - (6 % 8));
    let mut f: Ufx = parse(&[], 1, 8);
    f.glyphs[0].width = 3;
    f.glyphs[0].inner[0].raw = 1u64 << bit;
    let mut ops = Vec::new();
    draw_char(&mut ops, &f, 0, 0, 0);
    assert!(ops.is_empty());
}
