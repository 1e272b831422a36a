//! Spreading one picture over a grid of buttons: the grid's geometry, which tile
//! a deck slot shows, and the tiles of a frame.

use vstd::prelude::*;
use crate::raster::{crop, encode_tile, spec_crop, spec_tile_url, RgbFrame};
use crate::text::{chars_are, dot_parts, parse_usize, parse_usize_spec, split_dots_chars, to_chars, views};


verus! {

/// Side of a button's screen in pixels.
pub const BTN: u32 = 72;

/// Slots per deck row: five buttons and the display column.
pub const ROW_SLOTS: usize = 6;

/// A grid of `cols` × `rows` buttons whose top-left button is the slot at
/// (`start_col`, `start_row`), with `gap_x` and `gap_y` pixels between buttons;
/// `width` × `height` is the whole canvas, gaps included.
#[derive(Clone, Copy, Debug, PartialEq, Eq, Structural)]
pub struct TileGrid {
    pub cols: u32,
    pub rows: u32,
    pub gap_x: u32,
    pub gap_y: u32,
    pub start_col: u32,
    pub start_row: u32,
    pub width: u32,
    pub height: u32,
}

/// The canvas length of `n` buttons with `gap` pixels between neighbours.
pub open spec fn span(n: nat, gap: nat) -> nat {
    (n * 72 + (n - 1) * gap) as nat
}

/// The grid size a setting gives: at least 1, cut to 32 bits.
pub open spec fn grid_count(n: usize) -> nat {
    (if n >= 1 { n } else { 1 }) as u32 as nat
}

/// The settings give a grid whose canvas size is computed without overflow.
pub open spec fn spec_grid_fits(cols: usize, rows: usize, gap_x: u32, gap_y: u32) -> bool {
    let c = grid_count(cols);
    let r = grid_count(rows);
    &&& c >= 1
    &&& r >= 1
    &&& c * 72 + (c - 1) * gap_x <= u32::MAX
    &&& r * 72 + (r - 1) * gap_y <= u32::MAX
}

impl TileGrid {
    pub open spec fn wf(&self) -> bool {
        &&& self.cols >= 1
        &&& self.rows >= 1
        &&& self.start_col < 6
        &&& self.width == span(self.cols as nat, self.gap_x as nat)
        &&& self.height == span(self.rows as nat, self.gap_y as nat)
    }

    /// The grid of the settings `cols`, `rows`, `gap_x`, `gap_y` and `start` (the
    /// slot of the top-left button).
    pub fn new(cols: usize, rows: usize, gap_x: u32, gap_y: u32, start: usize) -> (g: TileGrid)
        requires
            spec_grid_fits(cols, rows, gap_x, gap_y),
        ensures
            g.wf(),
            g.cols == grid_count(cols),
            g.rows == grid_count(rows),
            g.gap_x == gap_x,
            g.gap_y == gap_y,
            g.start_col == start % 6,
            g.start_row == (start / 6) as u32,
    {
        let c = (if cols >= 1 { cols } else { 1 }) as u32;
        let r = (if rows >= 1 { rows } else { 1 }) as u32;
        let width = c * BTN + (c - 1) * gap_x;
        let height = r * BTN + (r - 1) * gap_y;
        TileGrid {
            cols: c,
            rows: r,
            gap_x,
            gap_y,
            start_col: (start % ROW_SLOTS) as u32,
            start_row: (start / ROW_SLOTS) as u32,
            width,
            height,
        }
    }
}

proof fn lemma_mul_small(a: nat, b: nat)
    requires
        a <= u32::MAX,
        b <= u32::MAX,
    ensures
        a * b <= 0xffff_fffe_0000_0001,
{
    assert(a * b <= 0xffff_ffff * 0xffff_ffff) by (nonlinear_arith)
        requires
            a <= 0xffff_ffff,
            b <= 0xffff_ffff,
    ;
}

/// Whether the settings give a grid whose canvas size fits in 32 bits (where it
/// does not, computing it overflows).
pub fn grid_fits(cols: usize, rows: usize, gap_x: u32, gap_y: u32) -> (r: bool)
    ensures
        r == spec_grid_fits(cols, rows, gap_x, gap_y),
{
    let c = (if cols >= 1 { cols } else { 1 }) as u32;
    let r = (if rows >= 1 { rows } else { 1 }) as u32;
    if c == 0 || r == 0 {
        return false;
    }
    proof {
        lemma_mul_small((c - 1) as nat, gap_x as nat);
        lemma_mul_small((r - 1) as nat, gap_y as nat);
    }
    let wa = (c as u64) * 72;
    let wb = ((c - 1) as u64) * (gap_x as u64);
    let ha = (r as u64) * 72;
    let hb = ((r - 1) as u64) * (gap_y as u64);
    let m = u32::MAX as u64;
    wa <= m && wb <= m && wa + wb <= m && ha <= m && hb <= m && ha + hb <= m
}

/// The byte length of one raw RGB frame of the canvas fits in 32 bits.
pub open spec fn spec_frame_bytes_fit(g: TileGrid) -> bool {
    g.width * g.height * 3 <= u32::MAX
}

pub fn frame_bytes_fit(g: &TileGrid) -> (r: bool)
    ensures
        r == spec_frame_bytes_fit(*g),
{
    proof {
        lemma_mul_small(g.width as nat, g.height as nat);
    }
    (g.width as u64) * (g.height as u64) <= (u32::MAX / 3) as u64
}

/// The byte length of one raw RGB frame of the canvas.
pub fn frame_bytes(g: &TileGrid) -> (n: usize)
    requires
        spec_frame_bytes_fit(*g),
    ensures
        n == g.width * g.height * 3,
{
    (g.width * g.height * 3) as usize
}

/// The tile (column, row within the grid) that the deck slot `slot` shows, if
/// the slot lies inside the grid.
pub open spec fn spec_tile_for_slot(g: TileGrid, slot: usize) -> Option<(u32, u32)> {
    let sc = (slot % 6) as nat;
    let sr = (slot / 6) as u32 as nat;
    if sc < g.start_col || sc >= g.start_col + g.cols {
        None
    } else if sr < g.start_row || sr >= g.start_row + g.rows {
        None
    } else {
        Some(((sc - g.start_col) as u32, (sr - g.start_row) as u32))
    }
}

/// Looking up the tile of `slot` computes the end of the grid's rows in 32 bits
/// without overflow (it does so only for slots in the grid's columns at or below
/// its first row).
pub open spec fn spec_tile_lookup_fits(g: TileGrid, slot: usize) -> bool {
    let sc = (slot % 6) as nat;
    let sr = (slot / 6) as u32 as nat;
    (g.start_col <= sc < g.start_col + g.cols && sr >= g.start_row) ==> g.start_row + g.rows <= u32::MAX
}

pub fn tile_lookup_fits(g: &TileGrid, slot: usize) -> (r: bool)
    requires
        g.wf(),
    ensures
        r == spec_tile_lookup_fits(*g, slot),
{
    let sc = (slot % ROW_SLOTS) as u32;
    let sr = (slot / ROW_SLOTS) as u32;
    if sc < g.start_col || sc as u64 >= g.start_col as u64 + g.cols as u64 || sr < g.start_row {
        true
    } else {
        g.start_row as u64 + g.rows as u64 <= u32::MAX as u64
    }
}

/// The tile that the deck slot `slot` shows, if the slot lies inside the grid.
pub fn tile_for_slot(g: &TileGrid, slot: usize) -> (r: Option<(u32, u32)>)
    requires
        g.wf(),
        spec_tile_lookup_fits(*g, slot),
    ensures
        r == spec_tile_for_slot(*g, slot),
{
    let sc = (slot % ROW_SLOTS) as u32;
    let sr = (slot / ROW_SLOTS) as u32;
    if sc < g.start_col || sc >= g.start_col + g.cols {
        return None;
    }
    if sr < g.start_row || sr >= g.start_row + g.rows {
        return None;
    }
    Some((sc - g.start_col, sr - g.start_row))
}

/// The gaps are small enough that a button plus a gap fits in 32 bits.
pub open spec fn spec_gaps_fit(g: TileGrid) -> bool {
    72 + g.gap_x <= u32::MAX && 72 + g.gap_y <= u32::MAX
}

pub fn gaps_fit(g: &TileGrid) -> (r: bool)
    ensures
        r == spec_gaps_fit(*g),
{
    g.gap_x <= u32::MAX - BTN && g.gap_y <= u32::MAX - BTN
}

/// The top-left pixel of tile (`tc`, `tr`) on the canvas.
pub open spec fn spec_tile_origin(g: TileGrid, tc: nat, tr: nat) -> (nat, nat) {
    ((tc * (72 + g.gap_x)) as nat, (tr * (72 + g.gap_y)) as nat)
}

proof fn lemma_tile_origin_bound(n: nat, gap: nat, t: nat)
    requires
        t < n,
    ensures
        t * (72 + gap) + 72 <= span(n, gap),
{
    assert(t * (72 + gap) <= (n - 1) * (72 + gap)) by (nonlinear_arith)
        requires
            t < n,
    ;
    assert((n - 1) * (72 + gap) == (n - 1) * 72 + (n - 1) * gap) by (nonlinear_arith);
}

/// Every tile of the grid lies on the canvas.
proof fn lemma_tile_on_canvas(g: TileGrid, tc: nat, tr: nat)
    requires
        g.wf(),
        tc < g.cols,
        tr < g.rows,
    ensures
        spec_tile_origin(g, tc, tr).0 + 72 <= g.width,
        spec_tile_origin(g, tc, tr).1 + 72 <= g.height,
{
    lemma_tile_origin_bound(g.cols as nat, g.gap_x as nat, tc);
    lemma_tile_origin_bound(g.rows as nat, g.gap_y as nat, tr);
}

/// The top-left pixel of tile (`tc`, `tr`) on the canvas; the whole button lies
/// on the canvas.
pub fn tile_origin(g: &TileGrid, tc: u32, tr: u32) -> (r: (u32, u32))
    requires
        g.wf(),
        spec_gaps_fit(*g),
        tc < g.cols,
        tr < g.rows,
    ensures
        (r.0 as nat, r.1 as nat) == spec_tile_origin(*g, tc as nat, tr as nat),
        r.0 + 72 <= g.width,
        r.1 + 72 <= g.height,
{
    proof {
        lemma_tile_origin_bound(g.cols as nat, g.gap_x as nat, tc as nat);
        lemma_tile_origin_bound(g.rows as nat, g.gap_y as nat, tr as nat);
    }
    (tc * (BTN + g.gap_x), tr * (BTN + g.gap_y))
}

/// The tiles are laid out with the physical gaps: each tile starts one button
/// and one gap after its left and upper neighbours, the first at the canvas's
/// corner, and the last tile of a row or column ends at the canvas's edge.
pub proof fn lemma_tiles_leave_gaps(g: TileGrid, tc: nat, tr: nat)
    requires
        g.wf(),
        tc < g.cols,
        tr < g.rows,
    ensures
        spec_tile_origin(g, 0, tr).0 == 0,
        spec_tile_origin(g, tc, 0).1 == 0,
        tc + 1 < g.cols ==> spec_tile_origin(g, tc + 1, tr).0 == spec_tile_origin(g, tc, tr).0 + 72 + g.gap_x,
        tr + 1 < g.rows ==> spec_tile_origin(g, tc, tr + 1).1 == spec_tile_origin(g, tc, tr).1 + 72 + g.gap_y,
        spec_tile_origin(g, (g.cols - 1) as nat, tr).0 + 72 == g.width,
        spec_tile_origin(g, tc, (g.rows - 1) as nat).1 + 72 == g.height,
{
    assert((tc + 1) * (72 + g.gap_x) == tc * (72 + g.gap_x) + 72 + g.gap_x) by (nonlinear_arith);
    assert((tr + 1) * (72 + g.gap_y) == tr * (72 + g.gap_y) + 72 + g.gap_y) by (nonlinear_arith);
    assert(((g.cols - 1) as nat) * (72 + g.gap_x) + 72 == g.cols * 72 + (g.cols - 1) * g.gap_x)
        by (nonlinear_arith)
        requires
            g.cols >= 1,
    ;
    assert(((g.rows - 1) as nat) * (72 + g.gap_y) + 72 == g.rows * 72 + (g.rows - 1) * g.gap_y)
        by (nonlinear_arith)
        requires
            g.rows >= 1,
    ;
}

/// The data URL of tile (`tc`, `tr`) of `img`: the button-sized window at the
/// tile's origin, clamped to the image, encoded at `quality`.
pub open spec fn spec_grid_tile_url(img: RgbFrame, g: TileGrid, tc: nat, tr: nat, quality: u8) -> Seq<char> {
    let o = spec_tile_origin(g, tc, tr);
    let t = spec_crop(img, o.0, o.1, 72, 72);
    spec_tile_url(t.0 as u32, t.1 as u32, t.2, quality)
}

/// The window of tile (`tc`, `tr`), clamped to `img`, holds at least one pixel.
pub open spec fn spec_tile_visible(img: RgbFrame, g: TileGrid, tc: nat, tr: nat) -> bool {
    let o = spec_tile_origin(g, tc, tr);
    let t = spec_crop(img, o.0, o.1, 72, 72);
    t.0 >= 1 && t.1 >= 1
}

pub fn tile_visible(img: &RgbFrame, g: &TileGrid, tc: u32, tr: u32) -> (r: bool)
    requires
        g.wf(),
        spec_gaps_fit(*g),
        tc < g.cols,
        tr < g.rows,
    ensures
        r == spec_tile_visible(*img, *g, tc as nat, tr as nat),
{
    let (x, y) = tile_origin(g, tc, tr);
    x < img.width && y < img.height
}

/// The data URL of tile (`tc`, `tr`) of `img` at `quality`.
pub fn tile_url(img: &RgbFrame, g: &TileGrid, tc: u32, tr: u32, quality: u8) -> (r: String)
    requires
        img.wf(),
        g.wf(),
        spec_gaps_fit(*g),
        tc < g.cols,
        tr < g.rows,
        spec_tile_visible(*img, *g, tc as nat, tr as nat),
    ensures
        r@ == spec_grid_tile_url(*img, *g, tc as nat, tr as nat, quality),
{
    let (x, y) = tile_origin(g, tc, tr);
    let t = crop(img, x, y, BTN, BTN);
    encode_tile(&t, quality)
}


/// The slot number after the first `Keypad` part at or after part `i` that has a
/// part after it; 0 where there is none or that part is not a number.
pub open spec fn keypad_slot_from(parts: Seq<Seq<char>>, i: nat) -> usize
    decreases parts.len() - i,
{
    if i + 1 >= parts.len() {
        0
    } else if parts[i as int] == "Keypad"@ {
        match parse_usize_spec(parts[i + 1 as int]) {
            Some(v) => v,
            None => 0,
        }
    } else {
        keypad_slot_from(parts, i + 1)
    }
}

/// The deck slot named in an instance's context, e.g. `...Keypad.7.0` gives 7.
pub open spec fn spec_parse_slot(context: Seq<char>) -> usize {
    keypad_slot_from(dot_parts(context), 0)
}

/// The deck slot named in an instance's context: the number after the first
/// `Keypad` part, or 0.
pub fn parse_slot(context: &str) -> (r: usize)
    ensures
        r == spec_parse_slot(context@),
{
    let chars = to_chars(context);
    let parts = split_dots_chars(&chars);
    let ghost ps = views(parts@);
    let n = parts.len();
    let mut i: usize = 0;
    let limit = if n > 0 { n - 1 } else { 0 };
    while i < limit
        invariant
            limit == (if n > 0 { n - 1 } else { 0 }),
            n == parts.len(),
            ps == views(parts@),
            ps == dot_parts(context@),
            i <= n,
            keypad_slot_from(ps, 0) == keypad_slot_from(ps, i as nat),
        decreases n - i,
    {
        assert(ps[i as int] == parts@[i as int]@);
        if chars_are(&parts[i], "Keypad") {
            assert(ps[i + 1] == parts@[i + 1]@);
            let r = match parse_usize(&parts[i + 1]) {
                Some(v) => v,
                None => 0,
            };
            assert(keypad_slot_from(ps, i as nat) == r);
            return r;
        }
        i += 1;
    }
    0
}

/// The tiles of one frame, column by column: (column, row, data URL) for every
/// tile of the grid.
pub open spec fn spec_frame_entry(img: RgbFrame, g: TileGrid, k: int, quality: u8) -> (u32, u32, Seq<char>) {
    let tc = k / (g.rows as int);
    let tr = k % (g.rows as int);
    (tc as u32, tr as u32, spec_grid_tile_url(img, g, tc as nat, tr as nat, quality))
}

proof fn lemma_div_mod_index(tc: int, tr: int, rows: int)
    requires
        rows > 0,
        0 <= tr < rows,
        0 <= tc,
    ensures
        (tc * rows + tr) / rows == tc,
        (tc * rows + tr) % rows == tr,
{
    vstd::arithmetic::div_mod::lemma_fundamental_div_mod_converse(tc * rows + tr, rows, tc, tr);
}

/// All tiles of a canvas-sized frame, column by column, each encoded at
/// `quality`: the entry at `tc * rows + tr` is tile (`tc`, `tr`).
pub fn frame_tiles(img: &RgbFrame, g: &TileGrid, quality: u8) -> (r: Vec<(u32, u32, String)>)
    requires
        img.wf(),
        g.wf(),
        spec_gaps_fit(*g),
        spec_frame_bytes_fit(*g),
        img.width == g.width,
        img.height == g.height,
    ensures
        r.len() == g.cols * g.rows,
        forall|k: int|
            0 <= k < r.len() ==> {
                let e = spec_frame_entry(*img, *g, k, quality);
                &&& (#[trigger] r@[k]).0 == e.0
                &&& r@[k].1 == e.1
                &&& r@[k].2@ == e.2
            },
{
    let mut frame: Vec<(u32, u32, String)> = Vec::new();
    let mut tc: u32 = 0;
    while tc < g.cols
        invariant
            img.wf(),
            g.wf(),
            spec_gaps_fit(*g),
            img.width == g.width,
            img.height == g.height,
            tc <= g.cols,
            frame.len() == tc * g.rows,
            forall|k: int|
                0 <= k < frame.len() ==> {
                    let e = spec_frame_entry(*img, *g, k, quality);
                    &&& (#[trigger] frame@[k]).0 == e.0
                    &&& frame@[k].1 == e.1
                    &&& frame@[k].2@ == e.2
                },
        decreases g.cols - tc,
    {
        let mut tr: u32 = 0;
        while tr < g.rows
            invariant
                img.wf(),
                g.wf(),
                spec_gaps_fit(*g),
                img.width == g.width,
                img.height == g.height,
                tc < g.cols,
                tr <= g.rows,
                frame.len() == tc * g.rows + tr,
                forall|k: int|
                    0 <= k < frame.len() ==> {
                        let e = spec_frame_entry(*img, *g, k, quality);
                        &&& (#[trigger] frame@[k]).0 == e.0
                        &&& frame@[k].1 == e.1
                        &&& frame@[k].2@ == e.2
                    },
            decreases g.rows - tr,
        {
            proof {
                lemma_tile_on_canvas(*g, tc as nat, tr as nat);
            }
            let data = tile_url(img, g, tc, tr, quality);
            proof {
                lemma_div_mod_index(tc as int, tr as int, g.rows as int);
            }
            let ghost k = frame.len() as int;
            frame.push((tc, tr, data));
            assert(frame@[k].0 == spec_frame_entry(*img, *g, k, quality).0);
            tr += 1;
        }
        assert((tc + 1) * g.rows == tc * g.rows + g.rows) by (nonlinear_arith);
        tc += 1;
    }
    frame
}

/// The index of the first entry of `frame` for tile (`tc`, `tr`).
pub fn find_tile(frame: &Vec<(u32, u32, String)>, tc: u32, tr: u32) -> (r: Option<usize>)
    ensures
        match r {
            Some(k) => k < frame.len() && frame@[k as int].0 == tc && frame@[k as int].1 == tr
                && forall|j: int| 0 <= j < k ==> !(frame@[j].0 == tc && frame@[j].1 == tr),
            None => forall|j: int| 0 <= j < frame.len() ==> !(frame@[j].0 == tc && frame@[j].1 == tr),
        },
{
    let mut i: usize = 0;
    while i < frame.len()
        invariant
            i <= frame.len(),
            forall|j: int| 0 <= j < i ==> !(frame@[j].0 == tc && frame@[j].1 == tr),
        decreases frame.len() - i,
    {
        if frame[i].0 == tc && frame[i].1 == tr {
            return Some(i);
        }
        i += 1;
    }
    None
}

/// In the tiles of a frame, the entry found for tile (`tc`, `tr`) of the grid is
/// that tile's own: every button of the grid is sent its part of the picture.
pub proof fn lemma_frame_lookup(
    img: RgbFrame,
    g: TileGrid,
    quality: u8,
    frame: Seq<(u32, u32, String)>,
    tc: u32,
    tr: u32,
    k: int,
)
    requires
        g.wf(),
        frame.len() == g.cols * g.rows,
        forall|i: int|
            0 <= i < frame.len() ==> {
                let e = spec_frame_entry(img, g, i, quality);
                &&& (#[trigger] frame[i]).0 == e.0
                &&& frame[i].1 == e.1
                &&& frame[i].2@ == e.2
            },
        tc < g.cols,
        tr < g.rows,
        0 <= k < frame.len(),
        frame[k].0 == tc,
        frame[k].1 == tr,
    ensures
        k == tc * g.rows + tr,
        frame[k].2@ == spec_grid_tile_url(img, g, tc as nat, tr as nat, quality),
{
    let rows = g.rows as int;
    let e = spec_frame_entry(img, g, k, quality);
    assert(frame[k].0 == e.0);
    vstd::arithmetic::div_mod::lemma_fundamental_div_mod(k, rows);
    assert(k / rows < g.cols) by (nonlinear_arith)
        requires
            0 <= k < g.cols * g.rows,
            rows == g.rows,
            rows > 0,
    ;
    assert(0 <= k % rows < rows);
}

/// The data URL for the deck slot `slot` from a canvas-sized frame, if the slot
/// shows a tile of the grid.
pub fn slot_tile_url(img: &RgbFrame, g: &TileGrid, slot: usize, quality: u8) -> (r: Option<String>)
    requires
        img.wf(),
        g.wf(),
        spec_gaps_fit(*g),
        spec_tile_lookup_fits(*g, slot),
        img.width == g.width,
        img.height == g.height,
    ensures
        match spec_tile_for_slot(*g, slot) {
            Some((tc, tr)) => r is Some && r->0@ == spec_grid_tile_url(*img, *g, tc as nat, tr as nat, quality),
            None => r is None,
        },
{
    match tile_for_slot(g, slot) {
        Some((tc, tr)) => {
            proof {
                lemma_tile_on_canvas(*g, tc as nat, tr as nat);
            }
            Some(tile_url(img, g, tc, tr, quality))
        },
        None => None,
    }
}

/// A slot shows the tile of its place in the grid: the tile found for a slot is
/// its column and row counted from the grid's first slot, and each tile of the
/// grid is found from the slot at that place (six slots to a row).
pub proof fn lemma_tile_slot_place(g: TileGrid, slot: usize, tc: u32, tr: u32)
    requires
        g.wf(),
        slot / 6 <= u32::MAX,
    ensures
        spec_tile_for_slot(g, slot) matches Some((c, r)) ==> c < g.cols && r < g.rows && slot % 6 == g.start_col + c
            && slot / 6 == g.start_row + r,
        (tc < g.cols && tr < g.rows && g.start_col + tc < 6 && slot == (g.start_row + tr) * 6 + g.start_col + tc)
            ==> spec_tile_for_slot(g, slot) == Some((tc, tr)),
{
    if tc < g.cols && tr < g.rows && g.start_col + tc < 6 && slot == (g.start_row + tr) * 6 + g.start_col + tc {
        vstd::arithmetic::div_mod::lemma_fundamental_div_mod_converse(
            slot as int,
            6,
            (g.start_row + tr) as int,
            (g.start_col + tc) as int,
        );
    }
}

} // verus!
