//! Laws of the instruction set: properties that relate several operations,
//! stated over [`spec_exec`] and proved once for every machine state they
//! apply to.

use vstd::prelude::*;

use vstd::arithmetic::div_mod::lemma_add_mod_noop;
use vstd::arithmetic::div_mod::lemma_mod_add_multiples_vanish;
use vstd::arithmetic::div_mod::lemma_small_mod;

use crate::cpu::lemma_first_key_none;
use crate::cpu::spec_exec;
use crate::cpu::spec_fetch;
use crate::cpu::spec_tick;
use crate::inst::spec_decode;
use crate::draw::lemma_pix_bounds;
use crate::draw::pix;
use crate::draw::sprite_bit;
use crate::draw::sprite_hits;
use crate::inst::Chip8Error;
use crate::inst::Flow;
use crate::inst::Inst;
use crate::state::State;
use crate::MEM_SIZE;

verus! {

/// Adding the same immediate to a register twice increases it by twice the
/// immediate, modulo 256: with an immediate of one, 255 wraps to 0 and
/// then to 1. The flag register is never touched by the immediate add.
#[verifier::rlimit(100)]
pub proof fn lemma_add_imm_twice(s: State, r: usize, k: u8)
    requires
        s.wf(),
        r < 16,
    ensures
        ({
            let s1 = spec_exec(s, Inst::Op7XKK(r, k), 0).0;
            let s2 = spec_exec(s1, Inst::Op7XKK(r, k), 0).0;
            &&& s2.v[r as int] == (s.v[r as int] + 2 * k) % 256
            &&& s2.v.remove(r as int) == s.v.remove(r as int)
        }),
{
    let s1 = spec_exec(s, Inst::Op7XKK(r, k), 0).0;
    let s2 = spec_exec(s1, Inst::Op7XKK(r, k), 0).0;
    let v0 = s.v[r as int] as int;
    assert(s1.v[r as int] == (v0 + k) % 256);
    assert(s2.v[r as int] == ((v0 + k) % 256 + k) % 256);
    assert(((v0 + k) % 256 + k) % 256 == (v0 + 2 * k) % 256) by {
        lemma_add_mod_noop(v0 + k, k as int, 256);
        lemma_small_mod(k as nat, 256);
    }
    assert(s2.v.remove(r as int) =~= s.v.remove(r as int));
}

/// Subtracting a register and then adding the same register back restores
/// the first register, for every pair of byte values, as long as the two
/// registers are distinct and neither is the flag register, which both
/// operations overwrite. The flag afterwards reflects only the final add:
/// it carries exactly when the earlier subtraction borrowed.
#[verifier::rlimit(100)]
pub proof fn lemma_sub_then_add_restores(s: State, x: usize, y: usize)
    requires
        s.wf(),
        x < 16,
        y < 16,
        x != y,
        x != 15,
        y != 15,
    ensures
        ({
            let s1 = spec_exec(s, Inst::Op8XY5(x, y), 0).0;
            let s2 = spec_exec(s1, Inst::Op8XY4(x, y), 0).0;
            &&& s2.v[x as int] == s.v[x as int]
            &&& s2.v[y as int] == s.v[y as int]
            &&& s2.v[15] == (if s.v[x as int] < s.v[y as int] {
                1u8
            } else {
                0u8
            })
        }),
{
    let s1 = spec_exec(s, Inst::Op8XY5(x, y), 0).0;
    let s2 = spec_exec(s1, Inst::Op8XY4(x, y), 0).0;
    let vx = s.v[x as int] as int;
    let vy = s.v[y as int] as int;
    assert(s1.v[x as int] == (vx - vy) % 256);
    assert(s1.v[y as int] == vy);
    if vx >= vy {
        assert((vx - vy) % 256 == vx - vy) by {
            lemma_small_mod((vx - vy) as nat, 256);
        }
        assert((vx - vy + vy) % 256 == vx) by {
            lemma_small_mod(vx as nat, 256);
        }
    } else {
        assert((vx - vy) % 256 == vx - vy + 256) by {
            lemma_mod_add_multiples_vanish(vx - vy, 256);
            lemma_small_mod((vx - vy + 256) as nat, 256);
        }
        assert((vx - vy + 256 + vy) % 256 == vx) by {
            lemma_mod_add_multiples_vanish(vx, 256);
            lemma_small_mod(vx as nat, 256);
        }
    }
}

/// On a cleared display no draw can collide: the first draw of any sprite
/// leaves the flag register zero.
pub proof fn lemma_clear_then_draw_no_collision(s: State, x: usize, y: usize, n: u16)
    requires
        s.wf(),
        x < 16,
        y < 16,
        n < 16,
        s.i + n <= MEM_SIZE,
    ensures
        ({
            let s1 = spec_exec(s, Inst::Op00E0, 0).0;
            let step = spec_exec(s1, Inst::OpDXYN(x, y, n), 0);
            &&& step.1 == Ok::<Flow, Chip8Error>(Flow::Next)
            &&& step.0.v[15] == 0
        }),
{
}

/// Drawing the same sprite twice at the same position restores the display
/// the clear left behind, and the second draw collides exactly when the
/// sprite has any set bit: each set bit turns its own first copy off
/// again. The position registers must not be the flag register, which the
/// first draw overwrites.
pub proof fn lemma_second_draw_self_collides(s: State, x: usize, y: usize, n: u16)
    requires
        s.wf(),
        x < 16,
        y < 16,
        x != 15,
        y != 15,
        n < 16,
        s.i + n <= MEM_SIZE,
    ensures
        ({
            let s1 = spec_exec(s, Inst::Op00E0, 0).0;
            let s2 = spec_exec(s1, Inst::OpDXYN(x, y, n), 0).0;
            let s3 = spec_exec(s2, Inst::OpDXYN(x, y, n), 0).0;
            &&& s3.gfx == s1.gfx
            &&& (s3.v[15] == 1 <==> exists|r: int, c: int|
                0 <= r < n && 0 <= c < 8 && #[trigger] sprite_bit(s.mem[s.i + r], c))
        }),
{
    let s1 = spec_exec(s, Inst::Op00E0, 0).0;
    let s2 = spec_exec(s1, Inst::OpDXYN(x, y, n), 0).0;
    let s3 = spec_exec(s2, Inst::OpDXYN(x, y, n), 0).0;
    let i = s.i as int;
    let vx = s.v[x as int] as int;
    let vy = s.v[y as int] as int;
    assert(s2.v[x as int] == s.v[x as int]);
    assert(s2.v[y as int] == s.v[y as int]);
    // Toggling the same cells twice restores the cleared grid.
    assert(s3.gfx =~= s1.gfx);
    // After the first draw, exactly the hit cells are lit, so the second
    // draw collides exactly when some cell is hit, that is, when some
    // sprite bit is set.
    if s3.v[15] == 1 {
        let p = choose|p: int|
            0 <= p < s2.gfx.len() && s2.gfx[p] && #[trigger] sprite_hits(s.mem, i, vx, vy, n as int, p);
        let (r, c) = choose|r: int, c: int|
            0 <= r < n && 0 <= c < 8 && sprite_bit(s.mem[i + r], c) && p == #[trigger] pix(
                vx,
                vy,
                r,
                c,
            );
        assert(sprite_bit(s.mem[s.i + r], c));
    }
    if exists|r: int, c: int| 0 <= r < n && 0 <= c < 8 && #[trigger] sprite_bit(s.mem[s.i + r], c) {
        let (r, c) = choose|r: int, c: int|
            0 <= r < n && 0 <= c < 8 && #[trigger] sprite_bit(s.mem[s.i + r], c);
        let p = pix(vx, vy, r, c);
        lemma_pix_bounds(vx, vy, r, c);
        assert(sprite_hits(s.mem, i, vx, vy, n as int, p));
        assert(s2.gfx[p]);
        assert(s3.v[15] == 1);
    }
}

/// Round trip of the bulk register transfers: storing registers 0 through
/// 5 at an address, pointing the index register back at that address, and
/// loading registers 0 through 5 from it reproduces the original six
/// register values exactly.
pub proof fn lemma_store_load_registers(s: State, a: u16)
    requires
        s.wf(),
        s.i == a,
        a + 5 < MEM_SIZE,
    ensures
        ({
            let s1 = spec_exec(s, Inst::OpFX55(5), 0).0;
            let s2 = spec_exec(s1, Inst::OpANNN(a), 0).0;
            let s3 = spec_exec(s2, Inst::OpFX65(5), 0).0;
            forall|j: int| 0 <= j <= 5 ==> s3.v[j] == s.v[j]
        }),
{
}

/// The key-wait operation with no key held mutates nothing and asks for
/// the same instruction again: the machine blocks, idempotently, until a
/// key appears.
pub proof fn lemma_key_wait_blocks(s: State, x: usize)
    requires
        s.wf(),
        x < 16,
        forall|j: int| 0 <= j < 16 ==> !s.key[j],
    ensures
        spec_exec(s, Inst::OpFX0A(x), 0) == (s, Ok::<Flow, Chip8Error>(Flow::Halt)),
{
    lemma_first_key_none(s.key, 0);
}

/// A whole cycle whose instruction is the key-wait, run with no key held
/// and no timer pulse, is a retry: the machine, the program counter
/// included, comes out exactly as it went in, however often the cycle is
/// repeated and whatever byte the random generator would have drawn.
pub proof fn lemma_key_wait_cycle_retries(s: State, rnd: u8, x: usize)
    requires
        s.wf(),
        x < 16,
        spec_fetch(s) matches Ok(w) && spec_decode(w, s.pc) == Ok::<Inst, Chip8Error>(
            Inst::OpFX0A(x),
        ),
        forall|j: int| 0 <= j < 16 ==> !s.key[j],
    ensures
        spec_tick(s, rnd, false) == (s, Ok::<bool, Chip8Error>(false)),
{
    let s1 = State { pc: (s.pc + 2) as u16, ..s };
    lemma_first_key_none(s.key, 0);
    assert(spec_exec(s1, Inst::OpFX0A(x), rnd) == (s1, Ok::<Flow, Chip8Error>(Flow::Halt)));
    assert(spec_tick(s, rnd, false).0 =~= s);
}

} // verus!
