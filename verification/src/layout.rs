//! Where things stand on the screen.
//!
//! The tiles stand in one row, left to right, half a tile apart and half a
//! tile from the window's left edge. Their top is one and a half tiles above
//! the window's lower edge, which leaves the room above them to the bars.
//! Halves are of whole pixels, rounded down.
//!
//! Sizes come as unsigned 32-bit numbers and rectangles hold signed ones, so
//! not every configuration can be laid out: `tile_fits` and `row_fits` say
//! which can, `check_tile` and `check_row` find it out.

use crate::canvas::{Rect, RectView};
use vstd::prelude::*;

verus! {

/// The tile of the key at `index`, counted from 0.
pub open spec fn tile_rect(index: nat, size: nat, window_height: nat) -> RectView {
    RectView {
        x: (size / 2 * (1 + 3 * index)) as int,
        y: window_height - size * 3 / 2,
        w: size as int,
        h: size as int,
    }
}

/// The outline that is drawn `inset` pixels inside a tile. It stands one
/// pixel lower than the tile.
pub open spec fn border_rect(tile: RectView, size: nat, inset: nat) -> RectView {
    RectView {
        x: tile.x + inset,
        y: tile.y + inset + 1,
        w: size - 2 * inset,
        h: size - 2 * inset,
    }
}

/// The place of a key's glyph: a fifth of the tile wide, a third of it high,
/// in the middle of the tile.
pub open spec fn glyph_rect(tile: RectView, size: nat) -> RectView {
    RectView {
        x: tile.x + (size - size / 5) / 2,
        y: tile.y + (size - size / 3) / 2,
        w: (size / 5) as int,
        h: (size / 3) as int,
    }
}

/// The width of a window that shows `keys` tiles.
pub open spec fn window_width(keys: nat, size: nat) -> nat {
    keys * (size + size / 2) + size / 2
}

/// The tile at `index`, its glyph and each outline of its border can be held
/// in a `Rect`, and no outline is inset by more than half the tile.
pub open spec fn tile_fits(index: nat, size: nat, border_width: nat, window_height: nat) -> bool {
    let tile = tile_rect(index, size, window_height);
    &&& tile.representable()
    &&& glyph_rect(tile, size).representable()
    &&& forall|inset: nat|
        inset < border_width ==> 2 * inset <= size && #[trigger] border_rect(
            tile,
            size,
            inset,
        ).representable()
}

/// All of `keys` tiles fit, there are not more of them than can be counted
/// in 32 bits, and the width of the window that shows them can be held in
/// 32 bits too.
pub open spec fn row_fits(keys: nat, size: nat, border_width: nat, window_height: nat) -> bool {
    &&& keys <= u32::MAX
    &&& window_width(keys, size) <= u32::MAX
    &&& forall|index: nat|
        index < keys ==> #[trigger] tile_fits(index, size, border_width, window_height)
}

/// The tile of the key at `index`.
pub fn tile(index: u32, size: u32, window_height: u32) -> (r: Rect)
    requires
        tile_rect(index as nat, size as nat, window_height as nat).representable(),
    ensures
        r@ == tile_rect(index as nat, size as nat, window_height as nat),
{
    let half: u64 = (size / 2) as u64;
    let count: u64 = 1 + 3 * (index as u64);
    let x: u64 = half * count;
    let y: i64 = window_height as i64 - (size as i64 * 3 / 2);
    Rect::new(x as i32, y as i32, size as i32, size as i32)
}

/// The width of a window that shows `keys` tiles.
pub fn width_of_window(keys: usize, size: u32) -> (width: u32)
    requires
        window_width(keys as nat, size as nat) <= u32::MAX,
    ensures
        width == window_width(keys as nat, size as nat),
{
    let spacing: u128 = (size / 2) as u128;
    let each: u128 = size as u128 + spacing;
    let count: u128 = keys as u128;
    assert(count * each <= 0xffff_ffff_ffff_ffff * 0x1_7fff_ffff) by (nonlinear_arith)
        requires
            0 <= count <= 0xffff_ffff_ffff_ffff,
            0 <= each <= 0x1_7fff_ffff,
    ;
    (count * each + spacing) as u32
}

/// Whether `tile_fits` holds.
pub fn check_tile(index: u32, size: u32, border_width: u32, window_height: u32) -> (ok: bool)
    ensures
        ok == tile_fits(index as nat, size as nat, border_width as nat, window_height as nat),
{
    proof {
        lemma_innermost_outline_decides(
            index as nat,
            size as nat,
            border_width as nat,
            window_height as nat,
        );
    }
    let max: i128 = 0x7fff_ffff;
    let min: i128 = -0x8000_0000;
    let side: i128 = size as i128;
    let half: i128 = side / 2;
    let count: i128 = 1 + 3 * (index as i128);
    assert(0 <= half * count <= 0x8000_0000 * 0x3_0000_0000) by (nonlinear_arith)
        requires
            0 <= half <= 0x8000_0000,
            0 <= count <= 0x3_0000_0000,
    ;
    let x: i128 = half * count;
    let y: i128 = window_height as i128 - side * 3 / 2;
    if x > max || y < min || y > max || side > max {
        return false;
    }
    let glyph_x: i128 = x + (side - side / 5) / 2;
    let glyph_y: i128 = y + (side - side / 3) / 2;
    if glyph_x > max || glyph_y > max {
        return false;
    }
    if border_width == 0 {
        return true;
    }
    let last: i128 = border_width as i128 - 1;
    2 * last <= side && x + last <= max && y + last + 1 <= max
}

/// Whether `row_fits` holds.
pub fn check_row(keys: usize, size: u32, border_width: u32, window_height: u32) -> (ok: bool)
    ensures
        ok == row_fits(keys as nat, size as nat, border_width as nat, window_height as nat),
{
    if keys > u32::MAX as usize {
        return false;
    }
    let count: u128 = keys as u128;
    let side: u128 = size as u128;
    assert(count * (side + side / 2) <= 0xffff_ffff * 0x1_7fff_ffff) by (nonlinear_arith)
        requires
            0 <= count <= 0xffff_ffff,
            0 <= side + side / 2 <= 0x1_7fff_ffff,
    ;
    let width: u128 = count * (side + side / 2) + side / 2;
    if width > u32::MAX as u128 {
        return false;
    }
    if keys == 0 {
        return true;
    }
    let last = (keys - 1) as u32;
    let ok = check_tile(last, size, border_width, window_height);
    proof {
        if ok {
            assert forall|index: nat| index < keys implies #[trigger] tile_fits(
                index,
                size as nat,
                border_width as nat,
                window_height as nat,
            ) by {
                lemma_earlier_tiles_fit(
                    index,
                    last as nat,
                    size as nat,
                    border_width as nat,
                    window_height as nat,
                );
            }
        }
    }
    ok
}

/// Tiles do not overlap: each ends where or before the next begins, and all
/// stand at one height. (A tile of one pixel is the exception: half of it is
/// no distance at all.)
pub proof fn lemma_tiles_do_not_overlap(index: nat, size: nat, window_height: nat)
    requires
        size != 1,
    ensures
        tile_rect(index, size, window_height).x + size <= tile_rect(
            index + 1,
            size,
            window_height,
        ).x,
        tile_rect(index, size, window_height).y == tile_rect(index + 1, size, window_height).y,
{
    let half = size / 2;
    assert(half * (1 + 3 * (index + 1)) == half * (1 + 3 * index) + 3 * half)
        by (nonlinear_arith);
}

/// Tiles stand further right as the index grows.
pub proof fn lemma_tiles_ordered(i: nat, j: nat, size: nat, window_height: nat)
    requires
        i <= j,
    ensures
        tile_rect(i, size, window_height).x <= tile_rect(j, size, window_height).x,
{
    let half = size / 2;
    assert(half * (1 + 3 * i) <= half * (1 + 3 * j)) by (nonlinear_arith)
        requires
            i <= j,
            half >= 0,
    ;
}

/// `tile_fits` asks of every outline what it is enough to ask of the
/// innermost one.
pub proof fn lemma_innermost_outline_decides(
    index: nat,
    size: nat,
    border_width: nat,
    window_height: nat,
)
    ensures
        tile_fits(index, size, border_width, window_height) <==> {
            let tile = tile_rect(index, size, window_height);
            &&& tile.representable()
            &&& glyph_rect(tile, size).representable()
            &&& border_width > 0 ==> 2 * (border_width - 1) <= size && border_rect(
                tile,
                size,
                (border_width - 1) as nat,
            ).representable()
        },
{
    let tile = tile_rect(index, size, window_height);
    if tile_fits(index, size, border_width, window_height) {
        if border_width > 0 {
            assert(border_rect(tile, size, (border_width - 1) as nat).representable());
        }
    }
    if tile.representable() && glyph_rect(tile, size).representable() && (border_width > 0 ==> 2
        * (border_width - 1) <= size && border_rect(
        tile,
        size,
        (border_width - 1) as nat,
    ).representable()) {
        assert(tile.x >= 0) by (nonlinear_arith)
            requires
                tile.x == (size / 2) * (1 + 3 * index),
        ;
        assert forall|inset: nat| inset < border_width implies 2 * inset <= size
            && #[trigger] border_rect(tile, size, inset).representable() by {}
    }
}

/// Where a tile fits, the tiles to the left of it fit too.
pub proof fn lemma_earlier_tiles_fit(
    i: nat,
    j: nat,
    size: nat,
    border_width: nat,
    window_height: nat,
)
    requires
        i <= j,
        tile_fits(j, size, border_width, window_height),
    ensures
        tile_fits(i, size, border_width, window_height),
{
    lemma_innermost_outline_decides(i, size, border_width, window_height);
    lemma_innermost_outline_decides(j, size, border_width, window_height);
    lemma_tiles_ordered(i, j, size, window_height);
    lemma_tiles_ordered(0, i, size, window_height);
}

} // verus!
