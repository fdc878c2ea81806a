//! The draw operation: an n-row, eight-pixel-wide sprite read from memory
//! at the index register is XOR-composited onto the pixel grid, wrapping on
//! both axes, and the flag reports whether any previously set pixel was
//! turned off.

use vstd::prelude::*;

use vstd::arithmetic::div_mod::lemma_fundamental_div_mod;
use vstd::arithmetic::div_mod::lemma_mod_bound;

use crate::state::Chip8;
use crate::state::State;
use crate::CHIP8_SCREEN_HEIGHT;
use crate::CHIP8_SCREEN_WIDTH;
use crate::MEM_SIZE;

verus! {

/// Whether column `c` (0 = leftmost) of a sprite row byte is set.
pub open spec fn sprite_bit(b: u8, c: int) -> bool {
    b & (0x80u8 >> (c as u8)) != 0
}

/// The grid cell that row `r`, column `c` of a sprite drawn at `(vx, vy)`
/// lands on: both coordinates wrap around their axis.
pub open spec fn pix(vx: int, vy: int, r: int, c: int) -> int {
    ((vy + r) % (CHIP8_SCREEN_HEIGHT as int)) * (CHIP8_SCREEN_WIDTH as int) + ((vx + c) % (
    CHIP8_SCREEN_WIDTH as int))
}

/// Whether the sprite of `rows` rows at memory address `i`, drawn at
/// `(vx, vy)`, toggles the grid cell `p`.
pub open spec fn sprite_hits(mem: Seq<u8>, i: int, vx: int, vy: int, rows: int, p: int) -> bool {
    exists|r: int, c: int|
        0 <= r < rows && 0 <= c < 8 && sprite_bit(mem[i + r], c) && p == #[trigger] pix(
            vx,
            vy,
            r,
            c,
        )
}

/// Row-column pairs in the order the draw operation visits them.
pub open spec fn sprite_earlier(r1: int, c1: int, r2: int, c2: int) -> bool {
    r1 < r2 || (r1 == r2 && c1 < c2)
}

/// Like [`sprite_hits`], restricted to the sprite cells visited before row
/// `r_lim`, column `c_lim`.
pub open spec fn sprite_hits_before(
    mem: Seq<u8>,
    i: int,
    vx: int,
    vy: int,
    r_lim: int,
    c_lim: int,
    p: int,
) -> bool {
    exists|r: int, c: int|
        0 <= r && 0 <= c < 8 && sprite_earlier(r, c, r_lim, c_lim) && sprite_bit(mem[i + r], c)
            && p == #[trigger] pix(vx, vy, r, c)
}

/// The pixel grid after the draw: every cell the sprite hits is toggled,
/// every other cell keeps its value.
pub open spec fn draw_gfx(
    gfx: Seq<bool>,
    mem: Seq<u8>,
    i: int,
    vx: int,
    vy: int,
    rows: int,
) -> Seq<bool> {
    Seq::new(gfx.len(), |p: int| gfx[p] != sprite_hits(mem, i, vx, vy, rows, p))
}

/// Whether the draw turns off some previously set cell: a collision.
pub open spec fn draw_collides(
    gfx: Seq<bool>,
    mem: Seq<u8>,
    i: int,
    vx: int,
    vy: int,
    rows: int,
) -> bool {
    exists|p: int| 0 <= p < gfx.len() && gfx[p] && #[trigger] sprite_hits(mem, i, vx, vy, rows, p)
}

/// The machine state after drawing the `rows`-row sprite at memory address
/// `i` at the position named by registers `x` and `y`: the grid is
/// XOR-composited, the flag register reports a collision, and the host is
/// told the grid changed.
pub open spec fn draw_state(s: State, x: int, y: int, rows: int) -> State {
    State {
        gfx: draw_gfx(s.gfx, s.mem, s.i as int, s.v[x] as int, s.v[y] as int, rows),
        v: s.v.update(
            15,
            if draw_collides(s.gfx, s.mem, s.i as int, s.v[x] as int, s.v[y] as int, rows) {
                1u8
            } else {
                0u8
            },
        ),
        gfx_updated: true,
        ..s
    }
}

/// Two distinct remainder-class offsets below the modulus land on distinct
/// remainders.
proof fn lemma_mod_distinct(t: int, d1: int, d2: int, m: int)
    requires
        0 <= t,
        0 < m,
        0 <= d1 < m,
        0 <= d2 < m,
        d1 != d2,
    ensures
        (t + d1) % m != (t + d2) % m,
{
    lemma_fundamental_div_mod(t + d1, m);
    lemma_fundamental_div_mod(t + d2, m);
    if (t + d1) % m == (t + d2) % m {
        let q1 = (t + d1) / m;
        let q2 = (t + d2) / m;
        assert(d1 - d2 == m * (q1 - q2)) by (nonlinear_arith)
            requires
                t + d1 == m * q1 + ((t + d1) % m),
                t + d2 == m * q2 + ((t + d2) % m),
                (t + d1) % m == (t + d2) % m,
        ;
        assert(false) by (nonlinear_arith)
            requires
                d1 - d2 == m * (q1 - q2),
                -m < d1 - d2 < m,
                d1 != d2,
                0 < m,
        ;
    }
}

/// The grid cell a sprite cell lands on is within the grid.
pub(crate) proof fn lemma_pix_bounds(vx: int, vy: int, r: int, c: int)
    requires
        0 <= vx,
        0 <= vy,
        0 <= r,
        0 <= c,
    ensures
        0 <= pix(vx, vy, r, c) < CHIP8_SCREEN_WIDTH * CHIP8_SCREEN_HEIGHT,
{
    lemma_mod_bound(vy + r, CHIP8_SCREEN_HEIGHT as int);
    lemma_mod_bound(vx + c, CHIP8_SCREEN_WIDTH as int);
}

/// Distinct cells of a sprite of at most sixteen rows land on distinct
/// grid cells: within a row the eight columns stay distinct modulo the
/// grid width, and the rows stay distinct modulo the grid height.
proof fn lemma_pix_injective(vx: int, vy: int, r1: int, c1: int, r2: int, c2: int)
    requires
        0 <= vx,
        0 <= vy,
        0 <= r1 < 16,
        0 <= c1 < 8,
        0 <= r2 < 16,
        0 <= c2 < 8,
        !(r1 == r2 && c1 == c2),
    ensures
        pix(vx, vy, r1, c1) != pix(vx, vy, r2, c2),
{
    lemma_mod_bound(vy + r1, CHIP8_SCREEN_HEIGHT as int);
    lemma_mod_bound(vy + r2, CHIP8_SCREEN_HEIGHT as int);
    lemma_mod_bound(vx + c1, CHIP8_SCREEN_WIDTH as int);
    lemma_mod_bound(vx + c2, CHIP8_SCREEN_WIDTH as int);
    if r1 != r2 {
        lemma_mod_distinct(vy, r1, r2, CHIP8_SCREEN_HEIGHT as int);
    } else {
        lemma_mod_distinct(vx, c1, c2, CHIP8_SCREEN_WIDTH as int);
    }
}

/// Whether some set cell of `gfx` is hit before row `r_lim`, column
/// `c_lim`: the collision flag's value at that point of the draw.
pub open spec fn collides_before(
    gfx: Seq<bool>,
    mem: Seq<u8>,
    i: int,
    vx: int,
    vy: int,
    r_lim: int,
    c_lim: int,
) -> bool {
    exists|p: int|
        0 <= p < gfx.len() && gfx[p] && #[trigger] sprite_hits_before(
            mem,
            i,
            vx,
            vy,
            r_lim,
            c_lim,
            p,
        )
}

/// Two visit limits with the same hit set collide on the same grids.
proof fn lemma_collides_transfer(
    gfx: Seq<bool>,
    mem: Seq<u8>,
    i: int,
    vx: int,
    vy: int,
    r1: int,
    c1: int,
    r2: int,
    c2: int,
)
    requires
        forall|p: int|
            0 <= p < gfx.len() ==> (#[trigger] sprite_hits_before(mem, i, vx, vy, r1, c1, p)
                == sprite_hits_before(mem, i, vx, vy, r2, c2, p)),
    ensures
        collides_before(gfx, mem, i, vx, vy, r1, c1) == collides_before(gfx, mem, i, vx, vy, r2, c2),
{
    if collides_before(gfx, mem, i, vx, vy, r1, c1) {
        let p = choose|p: int|
            0 <= p < gfx.len() && gfx[p] && #[trigger] sprite_hits_before(mem, i, vx, vy, r1, c1, p);
        assert(sprite_hits_before(mem, i, vx, vy, r2, c2, p));
    }
    if collides_before(gfx, mem, i, vx, vy, r2, c2) {
        let p = choose|p: int|
            0 <= p < gfx.len() && gfx[p] && #[trigger] sprite_hits_before(mem, i, vx, vy, r2, c2, p);
        assert(sprite_hits_before(mem, i, vx, vy, r1, c1, p));
    }
}

/// Extending the visit limit by exactly one hit cell either keeps the
/// collision flag or raises it when that cell was set.
proof fn lemma_collides_extend(
    gfx: Seq<bool>,
    mem: Seq<u8>,
    i: int,
    vx: int,
    vy: int,
    r1: int,
    c1: int,
    r2: int,
    c2: int,
    idx: int,
)
    requires
        0 <= idx < gfx.len(),
        forall|p: int|
            0 <= p < gfx.len() ==> (#[trigger] sprite_hits_before(mem, i, vx, vy, r2, c2, p) == (
            sprite_hits_before(mem, i, vx, vy, r1, c1, p) || p == idx)),
    ensures
        collides_before(gfx, mem, i, vx, vy, r2, c2) == (collides_before(gfx, mem, i, vx, vy, r1, c1)
            || gfx[idx]),
{
    if collides_before(gfx, mem, i, vx, vy, r2, c2) {
        let p = choose|p: int|
            0 <= p < gfx.len() && gfx[p] && #[trigger] sprite_hits_before(mem, i, vx, vy, r2, c2, p);
        if p != idx {
            assert(sprite_hits_before(mem, i, vx, vy, r1, c1, p));
        }
    }
    if collides_before(gfx, mem, i, vx, vy, r1, c1) {
        let p = choose|p: int|
            0 <= p < gfx.len() && gfx[p] && #[trigger] sprite_hits_before(mem, i, vx, vy, r1, c1, p);
        assert(sprite_hits_before(mem, i, vx, vy, r2, c2, p));
    }
    if gfx[idx] {
        assert(sprite_hits_before(mem, i, vx, vy, r2, c2, idx));
    }
}

impl Chip8 {
    /// Draw a `rows`-row sprite read from memory at the index register at
    /// the position named by registers `x` and `y`.
    pub(crate) fn op_draw(&mut self, x: usize, y: usize, rows: u16)
        requires
            old(self).wf(),
            x < 16,
            y < 16,
            rows < 16,
            old(self)@.i + rows <= MEM_SIZE,
        ensures
            final(self).wf(),
            final(self)@ == draw_state(old(self)@, x as int, y as int, rows as int),
    {
        let ghost s0 = self@;
        let ghost gi = self@.i as int;
        let vx = self.v[x];
        let vy = self.v[y];
        self.gfx_updated = true;
        self.v[0xF] = 0;
        let mut r: usize = 0;
        while r < rows as usize
            invariant
                s0.wf(),
                x < 16,
                y < 16,
                r <= rows < 16,
                s0.i + rows <= MEM_SIZE,
                gi == s0.i as int,
                vx == s0.v[x as int],
                vy == s0.v[y as int],
                self.i == s0.i,
                self.pc == s0.pc,
                self.sp == s0.sp,
                self.dt == s0.dt,
                self.st == s0.st,
                self.mem@ == s0.mem,
                self.stack@ == s0.stack,
                self.key@ == s0.key,
                self.v@.len() == 16,
                self.gfx@.len() == s0.gfx.len(),
                self.gfx_updated == true,
                forall|p: int|
                    0 <= p < s0.gfx.len() ==> self.gfx@[p] == (s0.gfx[p] != sprite_hits_before(
                        s0.mem,
                        gi,
                        vx as int,
                        vy as int,
                        r as int,
                        0,
                        p,
                    )),
                self.v@ == s0.v.update(
                    15,
                    if collides_before(s0.gfx, s0.mem, gi, vx as int, vy as int, r as int, 0) {
                        1u8
                    } else {
                        0u8
                    },
                ),
            decreases rows - r,
        {
            let sprite = self.mem[self.i as usize + r];
            let mut c: usize = 0;
            while c < 8
                invariant
                    s0.wf(),
                    x < 16,
                    y < 16,
                    r < rows < 16,
                    c <= 8,
                    s0.i + rows <= MEM_SIZE,
                    gi == s0.i as int,
                    vx == s0.v[x as int],
                    vy == s0.v[y as int],
                    sprite == s0.mem[gi + r],
                    self.i == s0.i,
                    self.pc == s0.pc,
                    self.sp == s0.sp,
                    self.dt == s0.dt,
                    self.st == s0.st,
                    self.mem@ == s0.mem,
                    self.stack@ == s0.stack,
                    self.key@ == s0.key,
                    self.v@.len() == 16,
                    self.gfx@.len() == s0.gfx.len(),
                    self.gfx_updated == true,
                    forall|p: int|
                        0 <= p < s0.gfx.len() ==> self.gfx@[p] == (s0.gfx[p]
                            != sprite_hits_before(
                            s0.mem,
                            gi,
                            vx as int,
                            vy as int,
                            r as int,
                            c as int,
                            p,
                        )),
                    self.v@ == s0.v.update(
                        15,
                        if collides_before(
                            s0.gfx,
                            s0.mem,
                            gi,
                            vx as int,
                            vy as int,
                            r as int,
                            c as int,
                        ) {
                            1u8
                        } else {
                            0u8
                        },
                    ),
                decreases 8 - c,
            {
                if sprite & (0x80u8 >> (c as u8)) != 0 {
                    let py = (vy as usize + r) % CHIP8_SCREEN_HEIGHT;
                    let px = (vx as usize + c) % CHIP8_SCREEN_WIDTH;
                    let idx = py * CHIP8_SCREEN_WIDTH + px;
                    proof {
                        lemma_pix_bounds(vx as int, vy as int, r as int, c as int);
                        assert(idx == pix(vx as int, vy as int, r as int, c as int));
                        // No earlier sprite cell lands on this grid cell,
                        // so the cell still holds its pre-draw value.
                        assert(!sprite_hits_before(
                            s0.mem,
                            gi,
                            vx as int,
                            vy as int,
                            r as int,
                            c as int,
                            idx as int,
                        )) by {
                            if sprite_hits_before(
                                s0.mem,
                                gi,
                                vx as int,
                                vy as int,
                                r as int,
                                c as int,
                                idx as int,
                            ) {
                                let (pr, pc) = choose|pr: int, pc: int|
                                    0 <= pr && 0 <= pc < 8 && sprite_earlier(
                                        pr,
                                        pc,
                                        r as int,
                                        c as int,
                                    ) && sprite_bit(s0.mem[gi + pr], pc) && idx as int
                                        == #[trigger] pix(vx as int, vy as int, pr, pc);
                                lemma_pix_injective(
                                    vx as int,
                                    vy as int,
                                    pr,
                                    pc,
                                    r as int,
                                    c as int,
                                );
                            }
                        }
                    }
                    let cur = self.gfx[idx];
                    if cur {
                        self.v[0xF] = 1;
                    }
                    self.gfx[idx] = !cur;
                    proof {
                        let ghost rl = r as int;
                        let ghost cl = c as int;
                        let ghost vxi = vx as int;
                        let ghost vyi = vy as int;
                        // The cells hit before (r, c + 1) are those hit
                        // before (r, c) plus, newly, this one.
                        assert forall|p: int| 0 <= p < s0.gfx.len() implies #[trigger]
                            sprite_hits_before(s0.mem, gi, vxi, vyi, rl, cl + 1, p) == (
                            sprite_hits_before(s0.mem, gi, vxi, vyi, rl, cl, p) || p
                                == idx as int) by {
                            if sprite_hits_before(s0.mem, gi, vxi, vyi, rl, cl + 1, p) {
                                let (pr, pc) = choose|pr: int, pc: int|
                                    0 <= pr && 0 <= pc < 8 && sprite_earlier(pr, pc, rl, cl + 1)
                                        && sprite_bit(s0.mem[gi + pr], pc) && p == #[trigger] pix(
                                        vxi,
                                        vyi,
                                        pr,
                                        pc,
                                    );
                                if pr == rl && pc == cl {
                                    assert(p == idx as int);
                                } else {
                                    assert(sprite_earlier(pr, pc, rl, cl));
                                    assert(sprite_hits_before(s0.mem, gi, vxi, vyi, rl, cl, p));
                                }
                            }
                            if sprite_hits_before(s0.mem, gi, vxi, vyi, rl, cl, p) {
                                let (pr, pc) = choose|pr: int, pc: int|
                                    0 <= pr && 0 <= pc < 8 && sprite_earlier(pr, pc, rl, cl)
                                        && sprite_bit(s0.mem[gi + pr], pc) && p == #[trigger] pix(
                                        vxi,
                                        vyi,
                                        pr,
                                        pc,
                                    );
                                assert(sprite_earlier(pr, pc, rl, cl + 1));
                                assert(sprite_hits_before(s0.mem, gi, vxi, vyi, rl, cl + 1, p));
                            }
                            if p == idx as int {
                                assert(sprite_bit(s0.mem[gi + rl], cl));
                                assert(sprite_earlier(rl, cl, rl, cl + 1));
                                assert(p == pix(vxi, vyi, rl, cl));
                                assert(sprite_hits_before(s0.mem, gi, vxi, vyi, rl, cl + 1, p));
                            }
                        }
                        lemma_collides_extend(
                            s0.gfx,
                            s0.mem,
                            gi,
                            vxi,
                            vyi,
                            rl,
                            cl,
                            rl,
                            cl + 1,
                            idx as int,
                        );
                        if cur {
                            assert(self.v@ =~= s0.v.update(15, 1u8));
                        }
                    }
                } else {
                    proof {
                        let ghost rl = r as int;
                        let ghost cl = c as int;
                        let ghost vxi = vx as int;
                        let ghost vyi = vy as int;
                        // This sprite cell is clear, so the hit set does
                        // not grow.
                        assert forall|p: int| 0 <= p < s0.gfx.len() implies #[trigger]
                            sprite_hits_before(s0.mem, gi, vxi, vyi, rl, cl + 1, p)
                            == sprite_hits_before(s0.mem, gi, vxi, vyi, rl, cl, p) by {
                            if sprite_hits_before(s0.mem, gi, vxi, vyi, rl, cl + 1, p) {
                                let (pr, pc) = choose|pr: int, pc: int|
                                    0 <= pr && 0 <= pc < 8 && sprite_earlier(pr, pc, rl, cl + 1)
                                        && sprite_bit(s0.mem[gi + pr], pc) && p == #[trigger] pix(
                                        vxi,
                                        vyi,
                                        pr,
                                        pc,
                                    );
                                assert(sprite_earlier(pr, pc, rl, cl));
                                assert(sprite_hits_before(s0.mem, gi, vxi, vyi, rl, cl, p));
                            }
                            if sprite_hits_before(s0.mem, gi, vxi, vyi, rl, cl, p) {
                                let (pr, pc) = choose|pr: int, pc: int|
                                    0 <= pr && 0 <= pc < 8 && sprite_earlier(pr, pc, rl, cl)
                                        && sprite_bit(s0.mem[gi + pr], pc) && p == #[trigger] pix(
                                        vxi,
                                        vyi,
                                        pr,
                                        pc,
                                    );
                                assert(sprite_earlier(pr, pc, rl, cl + 1));
                                assert(sprite_hits_before(s0.mem, gi, vxi, vyi, rl, cl + 1, p));
                            }
                        }
                        lemma_collides_transfer(
                            s0.gfx,
                            s0.mem,
                            gi,
                            vxi,
                            vyi,
                            rl,
                            cl + 1,
                            rl,
                            cl,
                        );
                    }
                }
                c += 1;
            }
            proof {
                let ghost rl = r as int;
                let ghost vxi = vx as int;
                let ghost vyi = vy as int;
                // Finishing a row: everything before (r + 1, 0) was visited
                // before (r, 8).
                assert forall|p: int| 0 <= p < s0.gfx.len() implies #[trigger] sprite_hits_before(
                    s0.mem,
                    gi,
                    vxi,
                    vyi,
                    rl + 1,
                    0,
                    p,
                ) == sprite_hits_before(s0.mem, gi, vxi, vyi, rl, 8, p) by {
                    if sprite_hits_before(s0.mem, gi, vxi, vyi, rl + 1, 0, p) {
                        let (pr, pc) = choose|pr: int, pc: int|
                            0 <= pr && 0 <= pc < 8 && sprite_earlier(pr, pc, rl + 1, 0)
                                && sprite_bit(s0.mem[gi + pr], pc) && p == #[trigger] pix(
                                vxi,
                                vyi,
                                pr,
                                pc,
                            );
                        assert(sprite_earlier(pr, pc, rl, 8));
                        assert(sprite_hits_before(s0.mem, gi, vxi, vyi, rl, 8, p));
                    }
                    if sprite_hits_before(s0.mem, gi, vxi, vyi, rl, 8, p) {
                        let (pr, pc) = choose|pr: int, pc: int|
                            0 <= pr && 0 <= pc < 8 && sprite_earlier(pr, pc, rl, 8) && sprite_bit(
                                s0.mem[gi + pr],
                                pc,
                            ) && p == #[trigger] pix(vxi, vyi, pr, pc);
                        assert(sprite_earlier(pr, pc, rl + 1, 0));
                        assert(sprite_hits_before(s0.mem, gi, vxi, vyi, rl + 1, 0, p));
                    }
                }
                lemma_collides_transfer(s0.gfx, s0.mem, gi, vxi, vyi, rl + 1, 0, rl, 8);
            }
            r += 1;
        }
        proof {
            let ghost rowsl = rows as int;
            let ghost vxi = vx as int;
            let ghost vyi = vy as int;
            // The cells visited before (rows, 0) are exactly the sprite's
            // cells.
            assert forall|p: int| 0 <= p < s0.gfx.len() implies #[trigger] sprite_hits_before(
                s0.mem,
                gi,
                vxi,
                vyi,
                rowsl,
                0,
                p,
            ) == sprite_hits(s0.mem, gi, vxi, vyi, rowsl, p) by {
                if sprite_hits_before(s0.mem, gi, vxi, vyi, rowsl, 0, p) {
                    let (pr, pc) = choose|pr: int, pc: int|
                        0 <= pr && 0 <= pc < 8 && sprite_earlier(pr, pc, rowsl, 0) && sprite_bit(
                            s0.mem[gi + pr],
                            pc,
                        ) && p == #[trigger] pix(vxi, vyi, pr, pc);
                    assert(sprite_hits(s0.mem, gi, vxi, vyi, rowsl, p));
                }
                if sprite_hits(s0.mem, gi, vxi, vyi, rowsl, p) {
                    let (pr, pc) = choose|pr: int, pc: int|
                        0 <= pr < rowsl && 0 <= pc < 8 && sprite_bit(s0.mem[gi + pr], pc) && p
                            == #[trigger] pix(vxi, vyi, pr, pc);
                    assert(sprite_earlier(pr, pc, rowsl, 0));
                    assert(sprite_hits_before(s0.mem, gi, vxi, vyi, rowsl, 0, p));
                }
            }
            assert(collides_before(s0.gfx, s0.mem, gi, vxi, vyi, rowsl, 0) == draw_collides(
                s0.gfx,
                s0.mem,
                gi,
                vxi,
                vyi,
                rowsl,
            )) by {
                if collides_before(s0.gfx, s0.mem, gi, vxi, vyi, rowsl, 0) {
                    let p = choose|p: int|
                        0 <= p < s0.gfx.len() && s0.gfx[p] && #[trigger] sprite_hits_before(
                            s0.mem,
                            gi,
                            vxi,
                            vyi,
                            rowsl,
                            0,
                            p,
                        );
                    assert(sprite_hits(s0.mem, gi, vxi, vyi, rowsl, p));
                }
                if draw_collides(s0.gfx, s0.mem, gi, vxi, vyi, rowsl) {
                    let p = choose|p: int|
                        0 <= p < s0.gfx.len() && s0.gfx[p] && #[trigger] sprite_hits(
                            s0.mem,
                            gi,
                            vxi,
                            vyi,
                            rowsl,
                            p,
                        );
                    assert(sprite_hits_before(s0.mem, gi, vxi, vyi, rowsl, 0, p));
                }
            }
            assert(self@.gfx =~= draw_state(s0, x as int, y as int, rows as int).gfx);
            assert(self@.v =~= draw_state(s0, x as int, y as int, rows as int).v);
            assert(self@ =~= draw_state(s0, x as int, y as int, rows as int));
        }
    }
}

} // verus!
