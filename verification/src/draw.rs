//! The sprite drawing rule. A sprite is a run of memory bytes, one byte per
//! row, the most significant bit leftmost. Drawing XORs each sprite bit into
//! the framebuffer; both coordinates wrap around the screen edges. The flag
//! result records whether a set sprite bit landed on a cell that was already
//! on, judged against the framebuffer as it stood before the draw.

use vstd::prelude::*;

verus! {

use vstd::arithmetic::div_mod::lemma_mod_bound;
use vstd::arithmetic::div_mod::lemma_mod_sub_multiples_vanish;
use vstd::arithmetic::div_mod::lemma_small_mod;
use vstd::pervasive::VecAdditionalExecFns;

/// Bit `col` of a sprite row byte, counting the most significant bit as
/// column 0.
pub open spec fn sprite_row_bit(b: u8, col: int) -> bool {
    (b >> ((7 - col) as u8)) & 1 == 1
}

/// The framebuffer index that sprite cell (`row`, `col`) lands on when the
/// sprite is drawn at origin (`ox`, `oy`).
pub open spec fn target_cell(ox: int, oy: int, row: int, col: int) -> int {
    ((oy + row) % 32) * 64 + ((ox + col) % 64)
}

/// Some set sprite bit lands on framebuffer cell `idx`.
pub open spec fn sprite_hits(rows: Seq<u8>, ox: int, oy: int, idx: int) -> bool {
    exists|r: int, c: int|
        #![trigger target_cell(ox, oy, r, c)]
        0 <= r < rows.len() && 0 <= c < 8 && sprite_row_bit(rows[r], c)
            && target_cell(ox, oy, r, c) == idx
}

/// The framebuffer after the sprite is XORed in at origin (`ox`, `oy`).
pub open spec fn draw_grid(p: Seq<bool>, rows: Seq<u8>, ox: int, oy: int) -> Seq<bool> {
    Seq::new(p.len(), |idx: int| p[idx] != sprite_hits(rows, ox, oy, idx))
}

/// Some set sprite bit lands on a cell of `p` that is already on.
pub open spec fn draw_collides(p: Seq<bool>, rows: Seq<u8>, ox: int, oy: int) -> bool {
    exists|r: int, c: int|
        #![trigger target_cell(ox, oy, r, c)]
        0 <= r < rows.len() && 0 <= c < 8 && sprite_row_bit(rows[r], c)
            && p[target_cell(ox, oy, r, c)]
}

/// The sprite has at least one set bit, so drawing it changes some cell.
pub open spec fn sprite_any_set(rows: Seq<u8>) -> bool {
    exists|r: int, c: int|
        #![trigger sprite_row_bit(rows[r], c)]
        0 <= r < rows.len() && 0 <= c < 8 && sprite_row_bit(rows[r], c)
}

/// Sprite cell (`r`, `c`) comes before cell (`row`, `col`) in drawing order:
/// row by row, and left to right within a row.
spec fn seen(r: int, c: int, row: int, col: int) -> bool {
    r < row || (r == row && c < col)
}

/// `sprite_hits` restricted to the sprite cells drawn before (`row`, `col`).
spec fn hits_upto(rows: Seq<u8>, ox: int, oy: int, idx: int, row: int, col: int) -> bool {
    exists|r: int, c: int|
        #![trigger target_cell(ox, oy, r, c)]
        0 <= r < rows.len() && 0 <= c < 8 && seen(r, c, row, col) && sprite_row_bit(rows[r], c)
            && target_cell(ox, oy, r, c) == idx
}

/// `draw_collides` restricted to the sprite cells drawn before (`row`, `col`).
spec fn collides_upto(p: Seq<bool>, rows: Seq<u8>, ox: int, oy: int, row: int, col: int) -> bool {
    exists|r: int, c: int|
        #![trigger target_cell(ox, oy, r, c)]
        0 <= r < rows.len() && 0 <= c < 8 && seen(r, c, row, col) && sprite_row_bit(rows[r], c)
            && p[target_cell(ox, oy, r, c)]
}

/// `sprite_any_set` restricted to the sprite cells drawn before (`row`, `col`).
spec fn any_set_upto(rows: Seq<u8>, row: int, col: int) -> bool {
    exists|r: int, c: int|
        #![trigger sprite_row_bit(rows[r], c)]
        0 <= r < rows.len() && 0 <= c < 8 && seen(r, c, row, col) && sprite_row_bit(rows[r], c)
}

/// For `0 <= a < 64`, `a % 32` is `a` or `a - 32`.
proof fn lemma_wrap_32(a: int)
    requires
        0 <= a < 64,
    ensures
        a % 32 == if a < 32 { a } else { a - 32 },
{
    if a < 32 {
        lemma_small_mod(a as nat, 32);
    } else {
        lemma_mod_sub_multiples_vanish(a - 32, 32);
        lemma_small_mod((a - 32) as nat, 32);
    }
}

/// For `0 <= a < 128`, `a % 64` is `a` or `a - 64`.
proof fn lemma_wrap_64(a: int)
    requires
        0 <= a < 128,
    ensures
        a % 64 == if a < 64 { a } else { a - 64 },
{
    if a < 64 {
        lemma_small_mod(a as nat, 64);
    } else {
        lemma_mod_sub_multiples_vanish(a - 64, 64);
        lemma_small_mod((a - 64) as nat, 64);
    }
}

/// Distinct sprite cells land on distinct framebuffer cells: a sprite is at
/// most 16 rows of 8 columns, so the wrapped row offsets, and within a row
/// the wrapped column offsets, cannot coincide.
proof fn lemma_target_cell_distinct(ox: int, oy: int, r1: int, c1: int, r2: int, c2: int)
    requires
        0 <= ox < 64,
        0 <= oy < 32,
        0 <= r1 < 16,
        0 <= c1 < 8,
        0 <= r2 < 16,
        0 <= c2 < 8,
        !(r1 == r2 && c1 == c2),
    ensures
        target_cell(ox, oy, r1, c1) != target_cell(ox, oy, r2, c2),
{
    lemma_wrap_32(oy + r1);
    lemma_wrap_32(oy + r2);
    lemma_wrap_64(ox + c1);
    lemma_wrap_64(ox + c2);
}

/// The wrapped target of a sprite cell is a valid framebuffer index.
proof fn lemma_target_cell_in_range(ox: int, oy: int, r: int, c: int)
    ensures
        0 <= target_cell(ox, oy, r, c) < 2048,
{
    lemma_mod_bound(oy + r, 32);
    lemma_mod_bound(ox + c, 64);
}

/// Extending the drawn prefix by one sprite cell extends each prefix
/// predicate by exactly that cell's contribution.
proof fn lemma_hits_step(rows: Seq<u8>, ox: int, oy: int, idx: int, row: int, col: int)
    requires
        0 <= row < rows.len(),
        0 <= col < 8,
    ensures
        hits_upto(rows, ox, oy, idx, row, col + 1) == (hits_upto(rows, ox, oy, idx, row, col) || (
        sprite_row_bit(rows[row], col) && target_cell(ox, oy, row, col) == idx)),
{
    if hits_upto(rows, ox, oy, idx, row, col + 1) {
        let (r, c) = choose|r: int, c: int|
            0 <= r < rows.len() && 0 <= c < 8 && seen(r, c, row, col + 1) && sprite_row_bit(
                rows[r],
                c,
            ) && target_cell(ox, oy, r, c) == idx;
        if seen(r, c, row, col) {
            assert(hits_upto(rows, ox, oy, idx, row, col));
        } else {
            assert(r == row && c == col);
        }
    }
    if hits_upto(rows, ox, oy, idx, row, col) {
        let (r, c) = choose|r: int, c: int|
            0 <= r < rows.len() && 0 <= c < 8 && seen(r, c, row, col) && sprite_row_bit(rows[r], c)
                && target_cell(ox, oy, r, c) == idx;
        assert(seen(r, c, row, col + 1));
        assert(hits_upto(rows, ox, oy, idx, row, col + 1));
    }
    if sprite_row_bit(rows[row], col) && target_cell(ox, oy, row, col) == idx {
        assert(seen(row, col, row, col + 1));
        assert(hits_upto(rows, ox, oy, idx, row, col + 1));
    }
}

proof fn lemma_collides_step(p: Seq<bool>, rows: Seq<u8>, ox: int, oy: int, row: int, col: int)
    requires
        0 <= row < rows.len(),
        0 <= col < 8,
    ensures
        collides_upto(p, rows, ox, oy, row, col + 1) == (collides_upto(p, rows, ox, oy, row, col)
            || (sprite_row_bit(rows[row], col) && p[target_cell(ox, oy, row, col)])),
{
    if collides_upto(p, rows, ox, oy, row, col + 1) {
        let (r, c) = choose|r: int, c: int|
            0 <= r < rows.len() && 0 <= c < 8 && seen(r, c, row, col + 1) && sprite_row_bit(
                rows[r],
                c,
            ) && p[target_cell(ox, oy, r, c)];
        if seen(r, c, row, col) {
            assert(collides_upto(p, rows, ox, oy, row, col));
        } else {
            assert(r == row && c == col);
        }
    }
    if collides_upto(p, rows, ox, oy, row, col) {
        let (r, c) = choose|r: int, c: int|
            0 <= r < rows.len() && 0 <= c < 8 && seen(r, c, row, col) && sprite_row_bit(rows[r], c)
                && p[target_cell(ox, oy, r, c)];
        assert(seen(r, c, row, col + 1));
        assert(collides_upto(p, rows, ox, oy, row, col + 1));
    }
    if sprite_row_bit(rows[row], col) && p[target_cell(ox, oy, row, col)] {
        assert(seen(row, col, row, col + 1));
        assert(collides_upto(p, rows, ox, oy, row, col + 1));
    }
}

proof fn lemma_any_set_step(rows: Seq<u8>, row: int, col: int)
    requires
        0 <= row < rows.len(),
        0 <= col < 8,
    ensures
        any_set_upto(rows, row, col + 1) == (any_set_upto(rows, row, col) || sprite_row_bit(
            rows[row],
            col,
        )),
{
    if any_set_upto(rows, row, col + 1) {
        let (r, c) = choose|r: int, c: int|
            0 <= r < rows.len() && 0 <= c < 8 && seen(r, c, row, col + 1) && sprite_row_bit(
                rows[r],
                c,
            );
        if seen(r, c, row, col) {
            assert(any_set_upto(rows, row, col));
        } else {
            assert(r == row && c == col);
        }
    }
    if any_set_upto(rows, row, col) {
        let (r, c) = choose|r: int, c: int|
            0 <= r < rows.len() && 0 <= c < 8 && seen(r, c, row, col) && sprite_row_bit(rows[r], c);
        assert(seen(r, c, row, col + 1));
        assert(any_set_upto(rows, row, col + 1));
    }
    if sprite_row_bit(rows[row], col) {
        assert(seen(row, col, row, col + 1));
        assert(any_set_upto(rows, row, col + 1));
    }
}

/// A finished row: the prefix up to (`row`, 8) is the prefix up to
/// (`row + 1`, 0).
proof fn lemma_row_boundary(p: Seq<bool>, rows: Seq<u8>, ox: int, oy: int, idx: int, row: int)
    ensures
        hits_upto(rows, ox, oy, idx, row, 8) == hits_upto(rows, ox, oy, idx, row + 1, 0),
        collides_upto(p, rows, ox, oy, row, 8) == collides_upto(p, rows, ox, oy, row + 1, 0),
        any_set_upto(rows, row, 8) == any_set_upto(rows, row + 1, 0),
{
    assert forall|r: int, c: int| 0 <= c < 8 implies seen(r, c, row, 8) == seen(
        r,
        c,
        row + 1,
        0,
    ) by {}
    if hits_upto(rows, ox, oy, idx, row, 8) {
        let (r, c) = choose|r: int, c: int|
            0 <= r < rows.len() && 0 <= c < 8 && seen(r, c, row, 8) && sprite_row_bit(rows[r], c)
                && target_cell(ox, oy, r, c) == idx;
        assert(hits_upto(rows, ox, oy, idx, row + 1, 0));
    }
    if hits_upto(rows, ox, oy, idx, row + 1, 0) {
        let (r, c) = choose|r: int, c: int|
            0 <= r < rows.len() && 0 <= c < 8 && seen(r, c, row + 1, 0) && sprite_row_bit(
                rows[r],
                c,
            ) && target_cell(ox, oy, r, c) == idx;
        assert(hits_upto(rows, ox, oy, idx, row, 8));
    }
    if collides_upto(p, rows, ox, oy, row, 8) {
        let (r, c) = choose|r: int, c: int|
            0 <= r < rows.len() && 0 <= c < 8 && seen(r, c, row, 8) && sprite_row_bit(rows[r], c)
                && p[target_cell(ox, oy, r, c)];
        assert(collides_upto(p, rows, ox, oy, row + 1, 0));
    }
    if collides_upto(p, rows, ox, oy, row + 1, 0) {
        let (r, c) = choose|r: int, c: int|
            0 <= r < rows.len() && 0 <= c < 8 && seen(r, c, row + 1, 0) && sprite_row_bit(
                rows[r],
                c,
            ) && p[target_cell(ox, oy, r, c)];
        assert(collides_upto(p, rows, ox, oy, row, 8));
    }
    if any_set_upto(rows, row, 8) {
        let (r, c) = choose|r: int, c: int|
            0 <= r < rows.len() && 0 <= c < 8 && seen(r, c, row, 8) && sprite_row_bit(rows[r], c);
        assert(any_set_upto(rows, row + 1, 0));
    }
    if any_set_upto(rows, row + 1, 0) {
        let (r, c) = choose|r: int, c: int|
            0 <= r < rows.len() && 0 <= c < 8 && seen(r, c, row + 1, 0) && sprite_row_bit(
                rows[r],
                c,
            );
        assert(any_set_upto(rows, row, 8));
    }
}

/// Once every sprite cell has been drawn, the prefix predicates agree with
/// the full ones.
proof fn lemma_upto_full(p: Seq<bool>, rows: Seq<u8>, ox: int, oy: int, idx: int)
    ensures
        hits_upto(rows, ox, oy, idx, rows.len() as int, 0) == sprite_hits(rows, ox, oy, idx),
        collides_upto(p, rows, ox, oy, rows.len() as int, 0) == draw_collides(p, rows, ox, oy),
        any_set_upto(rows, rows.len() as int, 0) == sprite_any_set(rows),
{
    let n = rows.len() as int;
    if sprite_hits(rows, ox, oy, idx) {
        let (r, c) = choose|r: int, c: int|
            0 <= r < rows.len() && 0 <= c < 8 && sprite_row_bit(rows[r], c) && target_cell(
                ox,
                oy,
                r,
                c,
            ) == idx;
        assert(seen(r, c, n, 0));
        assert(hits_upto(rows, ox, oy, idx, n, 0));
    }
    if draw_collides(p, rows, ox, oy) {
        let (r, c) = choose|r: int, c: int|
            0 <= r < rows.len() && 0 <= c < 8 && sprite_row_bit(rows[r], c) && p[target_cell(
                ox,
                oy,
                r,
                c,
            )];
        assert(seen(r, c, n, 0));
        assert(collides_upto(p, rows, ox, oy, n, 0));
    }
    if sprite_any_set(rows) {
        let (r, c) = choose|r: int, c: int|
            0 <= r < rows.len() && 0 <= c < 8 && sprite_row_bit(rows[r], c);
        assert(seen(r, c, n, 0));
        assert(any_set_upto(rows, n, 0));
    }
}

/// Drawing a sprite onto a blank screen and then drawing it again at the same
/// origin restores the blank screen, because XOR is self-inverse; the second
/// draw reports a collision exactly when the sprite has any set bit at all.
pub proof fn lemma_draw_twice_restores(rows: Seq<u8>, ox: int, oy: int)
    ensures
        ({
            let blank = Seq::new(2048, |idx: int| false);
            let once = draw_grid(blank, rows, ox, oy);
            &&& draw_grid(once, rows, ox, oy) =~= blank
            &&& draw_collides(once, rows, ox, oy) == sprite_any_set(rows)
        }),
{
    let blank = Seq::new(2048, |idx: int| false);
    let once = draw_grid(blank, rows, ox, oy);
    assert forall|idx: int| 0 <= idx < 2048 implies !draw_grid(once, rows, ox, oy)[idx] by {}
    if draw_collides(once, rows, ox, oy) {
        let (r, c) = choose|r: int, c: int|
            0 <= r < rows.len() && 0 <= c < 8 && sprite_row_bit(rows[r], c) && once[target_cell(
                ox,
                oy,
                r,
                c,
            )];
        assert(sprite_any_set(rows));
    }
    if sprite_any_set(rows) {
        let (r, c) = choose|r: int, c: int|
            0 <= r < rows.len() && 0 <= c < 8 && sprite_row_bit(rows[r], c);
        lemma_target_cell_in_range(ox, oy, r, c);
        assert(sprite_hits(rows, ox, oy, target_cell(ox, oy, r, c)));
        assert(once[target_cell(ox, oy, r, c)]);
        assert(draw_collides(once, rows, ox, oy));
    }
}

/// XOR the sprite held in `mem[start..start + n]` into the framebuffer at
/// origin (`ox`, `oy`). Returns whether any set sprite bit overlapped an
/// already-set cell, and whether the sprite had any set bit at all.
pub fn draw_sprite(
    pixels: &mut Vec<bool>,
    mem: &Vec<u8>,
    start: usize,
    n: usize,
    ox: usize,
    oy: usize,
) -> (r: (bool, bool))
    requires
        old(pixels)@.len() == 2048,
        mem@.len() == 4096,
        start + n <= 4096,
        n < 16,
        ox < 64,
        oy < 32,
    ensures
        final(pixels)@ == draw_grid(
            old(pixels)@,
            mem@.subrange(start as int, (start + n) as int),
            ox as int,
            oy as int,
        ),
        r.0 == draw_collides(
            old(pixels)@,
            mem@.subrange(start as int, (start + n) as int),
            ox as int,
            oy as int,
        ),
        r.1 == sprite_any_set(mem@.subrange(start as int, (start + n) as int)),
{
    let ghost p0 = pixels@;
    let ghost rows = mem@.subrange(start as int, (start + n) as int);
    let ghost oxi = ox as int;
    let ghost oyi = oy as int;
    let mut collision = false;
    let mut any_set = false;
    let mut row: usize = 0;
    while row < n
        invariant
            row <= n,
            n < 16,
            ox < 64,
            oy < 32,
            start + n <= 4096,
            mem@.len() == 4096,
            rows == mem@.subrange(start as int, (start + n) as int),
            oxi == ox as int,
            oyi == oy as int,
            p0.len() == 2048,
            pixels@.len() == 2048,
            forall|idx: int|
                0 <= idx < 2048 ==> pixels@[idx] == (p0[idx] != hits_upto(
                    rows,
                    oxi,
                    oyi,
                    idx,
                    row as int,
                    0,
                )),
            collision == collides_upto(p0, rows, oxi, oyi, row as int, 0),
            any_set == any_set_upto(rows, row as int, 0),
        decreases n - row,
    {
        let byte = mem[start + row];
        assert(byte == rows[row as int]);
        let mut col: usize = 0;
        while col < 8
            invariant
                col <= 8,
                row < n,
                n < 16,
                ox < 64,
                oy < 32,
                start + n <= 4096,
                mem@.len() == 4096,
                rows == mem@.subrange(start as int, (start + n) as int),
                oxi == ox as int,
                oyi == oy as int,
                byte == rows[row as int],
                p0.len() == 2048,
                pixels@.len() == 2048,
                forall|idx: int|
                    0 <= idx < 2048 ==> pixels@[idx] == (p0[idx] != hits_upto(
                        rows,
                        oxi,
                        oyi,
                        idx,
                        row as int,
                        col as int,
                    )),
                collision == collides_upto(p0, rows, oxi, oyi, row as int, col as int),
                any_set == any_set_upto(rows, row as int, col as int),
            decreases 8 - col,
        {
            let ghost rowi = row as int;
            let ghost coli = col as int;
            let bit_set = (byte >> ((7 - col) as u8)) & 1 == 1;
            let tx = (ox + col) % 64;
            let ty = (oy + row) % 32;
            let ti = ty * 64 + tx;
            proof {
                lemma_target_cell_in_range(oxi, oyi, rowi, coli);
                assert(target_cell(oxi, oyi, rowi, coli) == ti as int);
                assert(bit_set == sprite_row_bit(rows[rowi], coli));
                // No sprite cell drawn before (row, col) landed on this cell,
                // so the framebuffer still shows its pre-draw value here.
                assert(!hits_upto(rows, oxi, oyi, ti as int, rowi, coli)) by {
                    assert forall|r: int, c: int|
                        0 <= r < rows.len() && 0 <= c < 8 && seen(r, c, rowi, coli) implies #[trigger] target_cell(
                        oxi,
                        oyi,
                        r,
                        c,
                    ) != ti as int by {
                        lemma_target_cell_distinct(oxi, oyi, r, c, rowi, coli);
                    }
                }
            }
            let cur = pixels[ti];
            assert(cur == p0[ti as int]);
            if bit_set {
                any_set = true;
                if cur {
                    collision = true;
                }
                pixels.set(ti, !cur);
            }
            proof {
                assert forall|idx: int| 0 <= idx < 2048 implies pixels@[idx] == (p0[idx]
                    != hits_upto(rows, oxi, oyi, idx, rowi, coli + 1)) by {
                    lemma_hits_step(rows, oxi, oyi, idx, rowi, coli);
                }
                lemma_collides_step(p0, rows, oxi, oyi, rowi, coli);
                lemma_any_set_step(rows, rowi, coli);
            }
            col += 1;
        }
        proof {
            assert forall|idx: int| 0 <= idx < 2048 implies pixels@[idx] == (p0[idx] != hits_upto(
                rows,
                oxi,
                oyi,
                idx,
                row as int + 1,
                0,
            )) by {
                lemma_row_boundary(p0, rows, oxi, oyi, idx, row as int);
            }
            lemma_row_boundary(p0, rows, oxi, oyi, 0, row as int);
        }
        row += 1;
    }
    proof {
        assert forall|idx: int| 0 <= idx < 2048 implies pixels@[idx] == (p0[idx] != sprite_hits(
            rows,
            oxi,
            oyi,
            idx,
        )) by {
            lemma_upto_full(p0, rows, oxi, oyi, idx);
        }
        lemma_upto_full(p0, rows, oxi, oyi, 0);
        assert(pixels@ =~= draw_grid(p0, rows, oxi, oyi));
    }
    (collision, any_set)
}

} // verus!
