//! The executor and the cycle driver: what each decoded operation does to
//! the machine state, which control-flow effect it produces, and the
//! fetch / decode / execute / timer cycle that drives them.

use vstd::prelude::*;

use crate::draw::draw_state;
use crate::inst::spec_decode;
use crate::inst::Chip8Error;
use crate::inst::Flow;
use crate::inst::Inst;
use crate::state::Chip8;
use crate::state::State;
use crate::MEM_SIZE;

verus! {

/// Relies on rand::random: draws one byte from the thread-local generator.
/// The value is random, so nothing is promised of it; whoever uses it must
/// be correct for every byte.
#[verifier::external_body]
fn random_byte() -> u8 {
    rand::random::<u8>()
}

/// The lowest held key at or above index `k`, if any.
pub open spec fn first_key_from(keys: Seq<bool>, k: int) -> Option<u8>
    decreases 16 - k,
{
    if k < 0 || k >= 16 {
        None
    } else if keys[k] {
        Some(k as u8)
    } else {
        first_key_from(keys, k + 1)
    }
}

/// When key `k` is held and none below it is, the scan from `m` finds `k`.
pub(crate) proof fn lemma_first_key_found(keys: Seq<bool>, m: int, k: int)
    requires
        0 <= m <= k < 16,
        keys[k],
        forall|j: int| m <= j < k ==> !keys[j],
    ensures
        first_key_from(keys, m) == Some(k as u8),
    decreases k - m,
{
    if m < k {
        lemma_first_key_found(keys, m + 1, k);
    }
}

/// When no key at or above `m` is held, the scan from `m` finds none.
pub(crate) proof fn lemma_first_key_none(keys: Seq<bool>, m: int)
    requires
        0 <= m <= 16,
        forall|j: int| m <= j < 16 ==> !keys[j],
    ensures
        first_key_from(keys, m) == None::<u8>,
    decreases 16 - m,
{
    if m < 16 {
        lemma_first_key_none(keys, m + 1);
    }
}

/// What executing one decoded operation does: the state after it and the
/// control-flow effect it returns, or the error it fails with. A failing
/// operation leaves the state exactly as it was. `rnd` is the byte the
/// random-number operation combines with its mask; every other operation
/// ignores it.
pub open spec fn spec_exec(s: State, inst: Inst, rnd: u8) -> (State, Result<Flow, Chip8Error>) {
    match inst {
        Inst::Op00E0 => (
            State { gfx: Seq::new(s.gfx.len(), |p: int| false), gfx_updated: true, ..s },
            Ok(Flow::Next),
        ),
        Inst::Op00EE => if s.sp == 0 {
            (s, Err(Chip8Error::StackUnderflow))
        } else {
            (State { sp: (s.sp - 1) as u8, ..s }, Ok(Flow::Jump(s.stack[s.sp - 1])))
        },
        Inst::Op1NNN(nnn) => (s, Ok(Flow::Jump(nnn))),
        Inst::Op2NNN(nnn) => if s.sp >= 16 {
            (s, Err(Chip8Error::StackOverflow))
        } else {
            (
                State { stack: s.stack.update(s.sp as int, s.pc), sp: (s.sp + 1) as u8, ..s },
                Ok(Flow::Jump(nnn)),
            )
        },
        Inst::Op3XKK(x, kk) => (
            s,
            Ok(if s.v[x as int] == kk {
                Flow::Skip
            } else {
                Flow::Next
            }),
        ),
        Inst::Op4XKK(x, kk) => (
            s,
            Ok(if s.v[x as int] != kk {
                Flow::Skip
            } else {
                Flow::Next
            }),
        ),
        Inst::Op5XY0(x, y) => (
            s,
            Ok(if s.v[x as int] == s.v[y as int] {
                Flow::Skip
            } else {
                Flow::Next
            }),
        ),
        Inst::Op6XKK(x, kk) => (State { v: s.v.update(x as int, kk), ..s }, Ok(Flow::Next)),
        Inst::Op7XKK(x, kk) => (
            State { v: s.v.update(x as int, ((s.v[x as int] + kk) % 256) as u8), ..s },
            Ok(Flow::Next),
        ),
        Inst::Op8XY0(x, y) => (State { v: s.v.update(x as int, s.v[y as int]), ..s }, Ok(Flow::Next)),
        Inst::Op8XY1(x, y) => (
            State { v: s.v.update(x as int, s.v[x as int] | s.v[y as int]), ..s },
            Ok(Flow::Next),
        ),
        Inst::Op8XY2(x, y) => (
            State { v: s.v.update(x as int, s.v[x as int] & s.v[y as int]), ..s },
            Ok(Flow::Next),
        ),
        Inst::Op8XY3(x, y) => (
            State { v: s.v.update(x as int, s.v[x as int] ^ s.v[y as int]), ..s },
            Ok(Flow::Next),
        ),
        Inst::Op8XY4(x, y) => {
            let sum = s.v[x as int] + s.v[y as int];
            let flag: u8 = if sum > 255 {
                1
            } else {
                0
            };
            (
                State { v: s.v.update(15, flag).update(x as int, (sum % 256) as u8), ..s },
                Ok(Flow::Next),
            )
        },
        Inst::Op8XY5(x, y) => {
            let flag: u8 = if s.v[x as int] >= s.v[y as int] {
                1
            } else {
                0
            };
            let res = ((s.v[x as int] - s.v[y as int]) % 256) as u8;
            (State { v: s.v.update(15, flag).update(x as int, res), ..s }, Ok(Flow::Next))
        },
        Inst::Op8XY6(x, _y) => {
            let v1 = s.v.update(15, (s.v[x as int] % 2) as u8);
            (State { v: v1.update(x as int, (v1[x as int] / 2) as u8), ..s }, Ok(Flow::Next))
        },
        Inst::Op8XY7(x, y) => {
            let flag: u8 = if s.v[y as int] >= s.v[x as int] {
                1
            } else {
                0
            };
            let res = ((s.v[y as int] - s.v[x as int]) % 256) as u8;
            (State { v: s.v.update(15, flag).update(x as int, res), ..s }, Ok(Flow::Next))
        },
        Inst::Op8XYE(x, _y) => {
            let v1 = s.v.update(15, (s.v[x as int] / 128) as u8);
            (
                State { v: v1.update(x as int, ((v1[x as int] * 2) % 256) as u8), ..s },
                Ok(Flow::Next),
            )
        },
        Inst::Op9XY0(x, y) => (
            s,
            Ok(if s.v[x as int] != s.v[y as int] {
                Flow::Skip
            } else {
                Flow::Next
            }),
        ),
        Inst::OpANNN(nnn) => (State { i: nnn, ..s }, Ok(Flow::Next)),
        Inst::OpBNNN(nnn) => (s, Ok(Flow::Jump((s.v[0] + nnn) as u16))),
        Inst::OpCXKK(x, kk) => (State { v: s.v.update(x as int, rnd & kk), ..s }, Ok(Flow::Next)),
        Inst::OpDXYN(x, y, n) => if s.i + n > MEM_SIZE {
            (s, Err(Chip8Error::OutOfBoundsAddress))
        } else {
            (draw_state(s, x as int, y as int, n as int), Ok(Flow::Next))
        },
        Inst::OpEX9E(x) => (
            s,
            Ok(if s.key[(s.v[x as int] % 16) as int] {
                Flow::Skip
            } else {
                Flow::Next
            }),
        ),
        Inst::OpEXA1(x) => (
            s,
            Ok(if !s.key[(s.v[x as int] % 16) as int] {
                Flow::Skip
            } else {
                Flow::Next
            }),
        ),
        Inst::OpFX07(x) => (State { v: s.v.update(x as int, s.dt), ..s }, Ok(Flow::Next)),
        Inst::OpFX0A(x) => match first_key_from(s.key, 0) {
            Some(k) => (State { v: s.v.update(x as int, k), ..s }, Ok(Flow::Next)),
            None => (s, Ok(Flow::Halt)),
        },
        Inst::OpFX15(x) => (State { dt: s.v[x as int], ..s }, Ok(Flow::Next)),
        Inst::OpFX18(x) => (State { st: s.v[x as int], ..s }, Ok(Flow::Next)),
        Inst::OpFX1E(x) => (
            State { i: ((s.i + s.v[x as int]) % 0x10000) as u16, ..s },
            Ok(Flow::Next),
        ),
        Inst::OpFX29(x) => (State { i: (s.v[x as int] * 5) as u16, ..s }, Ok(Flow::Next)),
        Inst::OpFX33(x) => if s.i + 2 >= MEM_SIZE {
            (s, Err(Chip8Error::OutOfBoundsAddress))
        } else {
            (
                State {
                    mem: s.mem.update(s.i as int, (s.v[x as int] / 100) as u8).update(
                        s.i + 1,
                        ((s.v[x as int] / 10) % 10) as u8,
                    ).update(s.i + 2, (s.v[x as int] % 10) as u8),
                    ..s
                },
                Ok(Flow::Next),
            )
        },
        Inst::OpFX55(x) => if s.i + x >= MEM_SIZE {
            (s, Err(Chip8Error::OutOfBoundsAddress))
        } else {
            (
                State {
                    mem: Seq::new(
                        s.mem.len(),
                        |a: int| if s.i <= a <= s.i + x {
                            s.v[a - s.i]
                        } else {
                            s.mem[a]
                        },
                    ),
                    i: (s.i + x + 1) as u16,
                    ..s
                },
                Ok(Flow::Next),
            )
        },
        Inst::OpFX65(x) => if s.i + x >= MEM_SIZE {
            (s, Err(Chip8Error::OutOfBoundsAddress))
        } else {
            (
                State {
                    v: Seq::new(
                        16,
                        |j: int| if 0 <= j <= x {
                            s.mem[s.i + j]
                        } else {
                            s.v[j]
                        },
                    ),
                    i: (s.i + x + 1) as u16,
                    ..s
                },
                Ok(Flow::Next),
            )
        },
    }
}

/// What the fetch step yields: the two bytes at the program counter,
/// combined big-endian into the instruction word, or a bounds error when
/// even the second byte would lie outside memory.
pub open spec fn spec_fetch(s: State) -> Result<u16, Chip8Error> {
    if s.pc + 1 < MEM_SIZE {
        Ok((s.mem[s.pc as int] * 256 + s.mem[s.pc as int + 1]) as u16)
    } else {
        Err(Chip8Error::OutOfBoundsAddress)
    }
}

/// What the timer step does: on a pulse each nonzero timer counts down by
/// one, and the audible event fires exactly when the sound timer steps
/// from one to zero. Without a pulse nothing happens.
pub open spec fn spec_timer(s: State, pulse: bool) -> (State, bool) {
    if pulse {
        (
            State {
                dt: if s.dt > 0 {
                    (s.dt - 1) as u8
                } else {
                    0
                },
                st: if s.st > 0 {
                    (s.st - 1) as u8
                } else {
                    0
                },
                ..s
            },
            s.st == 1,
        )
    } else {
        (s, false)
    }
}

/// One whole cycle: fetch, decode, execute, apply the control-flow effect
/// to the program counter, tick the timers. On any error the machine is
/// left exactly as it was. The returned flag says whether the audible
/// event fired.
pub open spec fn spec_tick(s: State, rnd: u8, pulse: bool) -> (State, Result<bool, Chip8Error>) {
    match spec_fetch(s) {
        Err(e) => (s, Err(e)),
        Ok(opcode) => match spec_decode(opcode, s.pc) {
            Err(e) => (s, Err(e)),
            Ok(inst) => {
                let stepped = spec_exec(State { pc: (s.pc + 2) as u16, ..s }, inst, rnd);
                match stepped.1 {
                    Err(e) => (s, Err(e)),
                    Ok(flow) => {
                        let pc2: u16 = match flow {
                            Flow::Halt => s.pc,
                            Flow::Next => (s.pc + 2) as u16,
                            Flow::Skip => (s.pc + 4) as u16,
                            Flow::Jump(a) => a,
                        };
                        let timed = spec_timer(State { pc: pc2, ..stepped.0 }, pulse);
                        (timed.0, Ok(timed.1))
                    },
                }
            },
        },
    }
}

impl Chip8 {
    /// Clear the pixel grid.
    fn op_cls(&mut self)
        requires
            old(self).wf(),
        ensures
            final(self).wf(),
            final(self)@ == (State {
                gfx: Seq::new(old(self)@.gfx.len(), |p: int| false),
                gfx_updated: true,
                ..old(self)@
            }),
    {
        let ghost s0 = self@;
        self.gfx_updated = true;
        let count = self.gfx.len();
        let mut p: usize = 0;
        while p < count
            invariant
                count == self.gfx@.len(),
                p <= count,
                forall|q: int| 0 <= q < p ==> self.gfx@[q] == false,
                forall|q: int| p <= q < count ==> self.gfx@[q] == s0.gfx[q],
                self.i == s0.i,
                self.pc == s0.pc,
                self.sp == s0.sp,
                self.dt == s0.dt,
                self.st == s0.st,
                self.v@ == s0.v,
                self.mem@ == s0.mem,
                self.stack@ == s0.stack,
                self.key@ == s0.key,
                self.gfx_updated == true,
            decreases count - p,
        {
            self.gfx[p] = false;
            p += 1;
        }
        proof {
            assert(self@.gfx =~= Seq::new(s0.gfx.len(), |q: int| false));
            assert(self@ =~= (State {
                gfx: Seq::new(s0.gfx.len(), |q: int| false),
                gfx_updated: true,
                ..s0
            }));
        }
    }

    /// Store registers 0 through `x` into memory at the index register,
    /// which then moves past the written block.
    fn op_store_regs(&mut self, x: usize)
        requires
            old(self).wf(),
            x < 16,
            old(self)@.i + x < MEM_SIZE,
        ensures
            final(self).wf(),
            final(self)@ == (State {
                mem: Seq::new(
                    old(self)@.mem.len(),
                    |a: int| if old(self)@.i <= a <= old(self)@.i + x {
                        old(self)@.v[a - old(self)@.i]
                    } else {
                        old(self)@.mem[a]
                    },
                ),
                i: (old(self)@.i + x + 1) as u16,
                ..old(self)@
            }),
    {
        let ghost s0 = self@;
        let i0 = self.i as usize;
        let mut j: usize = 0;
        while j <= x
            invariant
                s0.wf(),
                x < 16,
                s0.i + x < MEM_SIZE,
                i0 == s0.i,
                j <= x + 1,
                self.mem@.len() == s0.mem.len(),
                forall|a: int|
                    0 <= a < s0.mem.len() ==> self.mem@[a] == (if i0 <= a < i0 + j {
                        s0.v[a - i0]
                    } else {
                        s0.mem[a]
                    }),
                self.i == s0.i,
                self.pc == s0.pc,
                self.sp == s0.sp,
                self.dt == s0.dt,
                self.st == s0.st,
                self.v@ == s0.v,
                self.stack@ == s0.stack,
                self.gfx@ == s0.gfx,
                self.key@ == s0.key,
                self.gfx_updated == s0.gfx_updated,
            decreases x + 1 - j,
        {
            let b = self.v[j];
            self.mem[i0 + j] = b;
            j += 1;
        }
        self.i = self.i + (x as u16) + 1;
        proof {
            assert(self@.mem =~= Seq::new(
                s0.mem.len(),
                |a: int| if s0.i <= a <= s0.i + x {
                    s0.v[a - s0.i]
                } else {
                    s0.mem[a]
                },
            ));
            assert(self@ =~= (State {
                mem: Seq::new(
                    s0.mem.len(),
                    |a: int| if s0.i <= a <= s0.i + x {
                        s0.v[a - s0.i]
                    } else {
                        s0.mem[a]
                    },
                ),
                i: (s0.i + x + 1) as u16,
                ..s0
            }));
        }
    }

    /// Load registers 0 through `x` from memory at the index register,
    /// which then moves past the read block.
    fn op_load_regs(&mut self, x: usize)
        requires
            old(self).wf(),
            x < 16,
            old(self)@.i + x < MEM_SIZE,
        ensures
            final(self).wf(),
            final(self)@ == (State {
                v: Seq::new(
                    16,
                    |j: int| if 0 <= j <= x {
                        old(self)@.mem[old(self)@.i + j]
                    } else {
                        old(self)@.v[j]
                    },
                ),
                i: (old(self)@.i + x + 1) as u16,
                ..old(self)@
            }),
    {
        let ghost s0 = self@;
        let i0 = self.i as usize;
        let mut j: usize = 0;
        while j <= x
            invariant
                s0.wf(),
                x < 16,
                s0.i + x < MEM_SIZE,
                i0 == s0.i,
                j <= x + 1,
                self.v@.len() == 16,
                forall|q: int|
                    0 <= q < 16 ==> self.v@[q] == (if 0 <= q < j {
                        s0.mem[i0 + q]
                    } else {
                        s0.v[q]
                    }),
                self.i == s0.i,
                self.pc == s0.pc,
                self.sp == s0.sp,
                self.dt == s0.dt,
                self.st == s0.st,
                self.mem@ == s0.mem,
                self.stack@ == s0.stack,
                self.gfx@ == s0.gfx,
                self.key@ == s0.key,
                self.gfx_updated == s0.gfx_updated,
            decreases x + 1 - j,
        {
            let b = self.mem[i0 + j];
            self.v[j] = b;
            j += 1;
        }
        self.i = self.i + (x as u16) + 1;
        proof {
            assert(self@.v =~= Seq::new(
                16,
                |q: int| if 0 <= q <= x {
                    s0.mem[s0.i + q]
                } else {
                    s0.v[q]
                },
            ));
            assert(self@ =~= (State {
                v: Seq::new(
                    16,
                    |q: int| if 0 <= q <= x {
                        s0.mem[s0.i + q]
                    } else {
                        s0.v[q]
                    },
                ),
                i: (s0.i + x + 1) as u16,
                ..s0
            }));
        }
    }

    /// Execute one decoded operation against the machine state. The state
    /// afterwards and the returned control-flow effect, or the error and
    /// the untouched state, are exactly what [`spec_exec`] gives for this
    /// operation; `rnd` is the byte the random-number operation masks.
    #[verifier::rlimit(100)]
    pub fn exec(&mut self, inst: Inst, rnd: u8) -> (r: Result<Flow, Chip8Error>)
        requires
            old(self).wf(),
            inst.wf(),
        ensures
            final(self).wf(),
            final(self)@ == spec_exec(old(self)@, inst, rnd).0,
            r == spec_exec(old(self)@, inst, rnd).1,
    {
        let ghost s0 = self@;
        match inst {
            Inst::Op00E0 => {
                self.op_cls();
                Ok(Flow::Next)
            },
            Inst::Op00EE => {
                if self.sp == 0 {
                    Err(Chip8Error::StackUnderflow)
                } else {
                    self.sp = self.sp - 1;
                    Ok(Flow::Jump(self.stack[self.sp as usize]))
                }
            },
            Inst::Op1NNN(nnn) => Ok(Flow::Jump(nnn)),
            Inst::Op2NNN(nnn) => {
                if self.sp >= 16 {
                    Err(Chip8Error::StackOverflow)
                } else {
                    let pc = self.pc;
                    self.stack[self.sp as usize] = pc;
                    self.sp = self.sp + 1;
                    Ok(Flow::Jump(nnn))
                }
            },
            Inst::Op3XKK(x, kk) => {
                if self.v[x] == kk {
                    Ok(Flow::Skip)
                } else {
                    Ok(Flow::Next)
                }
            },
            Inst::Op4XKK(x, kk) => {
                if self.v[x] != kk {
                    Ok(Flow::Skip)
                } else {
                    Ok(Flow::Next)
                }
            },
            Inst::Op5XY0(x, y) => {
                if self.v[x] == self.v[y] {
                    Ok(Flow::Skip)
                } else {
                    Ok(Flow::Next)
                }
            },
            Inst::Op6XKK(x, kk) => {
                self.v[x] = kk;
                Ok(Flow::Next)
            },
            Inst::Op7XKK(x, kk) => {
                let sum = self.v[x] as u16 + kk as u16;
                self.v[x] = (sum % 256) as u8;
                Ok(Flow::Next)
            },
            Inst::Op8XY0(x, y) => {
                let b = self.v[y];
                self.v[x] = b;
                Ok(Flow::Next)
            },
            Inst::Op8XY1(x, y) => {
                let b = self.v[x] | self.v[y];
                self.v[x] = b;
                Ok(Flow::Next)
            },
            Inst::Op8XY2(x, y) => {
                let b = self.v[x] & self.v[y];
                self.v[x] = b;
                Ok(Flow::Next)
            },
            Inst::Op8XY3(x, y) => {
                let b = self.v[x] ^ self.v[y];
                self.v[x] = b;
                Ok(Flow::Next)
            },
            Inst::Op8XY4(x, y) => {
                let sum = self.v[x] as u16 + self.v[y] as u16;
                self.v[0xF] = if sum > 255 {
                    1
                } else {
                    0
                };
                self.v[x] = (sum % 256) as u8;
                Ok(Flow::Next)
            },
            Inst::Op8XY5(x, y) => {
                let vx = self.v[x];
                let vy = self.v[y];
                self.v[0xF] = if vx >= vy {
                    1
                } else {
                    0
                };
                let res = ((vx as u16 + 256 - vy as u16) % 256) as u8;
                proof {
                    assert(res == ((s0.v[x as int] - s0.v[y as int]) % 256) as u8);
                }
                self.v[x] = res;
                Ok(Flow::Next)
            },
            Inst::Op8XY6(x, _y) => {
                let flag = self.v[x] % 2;
                self.v[0xF] = flag;
                let b = self.v[x] / 2;
                self.v[x] = b;
                Ok(Flow::Next)
            },
            Inst::Op8XY7(x, y) => {
                let vx = self.v[x];
                let vy = self.v[y];
                self.v[0xF] = if vy >= vx {
                    1
                } else {
                    0
                };
                let res = ((vy as u16 + 256 - vx as u16) % 256) as u8;
                proof {
                    assert(res == ((s0.v[y as int] - s0.v[x as int]) % 256) as u8);
                }
                self.v[x] = res;
                Ok(Flow::Next)
            },
            Inst::Op8XYE(x, _y) => {
                let flag = self.v[x] / 128;
                self.v[0xF] = flag;
                let b = ((self.v[x] as u16 * 2) % 256) as u8;
                self.v[x] = b;
                Ok(Flow::Next)
            },
            Inst::Op9XY0(x, y) => {
                if self.v[x] != self.v[y] {
                    Ok(Flow::Skip)
                } else {
                    Ok(Flow::Next)
                }
            },
            Inst::OpANNN(nnn) => {
                self.i = nnn;
                Ok(Flow::Next)
            },
            Inst::OpBNNN(nnn) => Ok(Flow::Jump(self.v[0] as u16 + nnn)),
            Inst::OpCXKK(x, kk) => {
                self.v[x] = rnd & kk;
                Ok(Flow::Next)
            },
            Inst::OpDXYN(x, y, n) => {
                if self.i as usize + n as usize > MEM_SIZE {
                    Err(Chip8Error::OutOfBoundsAddress)
                } else {
                    self.op_draw(x, y, n);
                    Ok(Flow::Next)
                }
            },
            Inst::OpEX9E(x) => {
                if self.key[(self.v[x] % 16) as usize] {
                    Ok(Flow::Skip)
                } else {
                    Ok(Flow::Next)
                }
            },
            Inst::OpEXA1(x) => {
                if !self.key[(self.v[x] % 16) as usize] {
                    Ok(Flow::Skip)
                } else {
                    Ok(Flow::Next)
                }
            },
            Inst::OpFX07(x) => {
                let b = self.dt;
                self.v[x] = b;
                Ok(Flow::Next)
            },
            Inst::OpFX0A(x) => {
                let mut k: usize = 0;
                while k < 16 && !self.key[k]
                    invariant
                        old(self).wf(),
                        self == old(self),
                        k <= 16,
                        forall|j: int| 0 <= j < k ==> !self.key@[j],
                    decreases 16 - k,
                {
                    k += 1;
                }
                if k < 16 {
                    proof {
                        lemma_first_key_found(s0.key, 0, k as int);
                    }
                    self.v[x] = k as u8;
                    Ok(Flow::Next)
                } else {
                    proof {
                        lemma_first_key_none(s0.key, 0);
                    }
                    Ok(Flow::Halt)
                }
            },
            Inst::OpFX15(x) => {
                self.dt = self.v[x];
                Ok(Flow::Next)
            },
            Inst::OpFX18(x) => {
                self.st = self.v[x];
                Ok(Flow::Next)
            },
            Inst::OpFX1E(x) => {
                let sum = self.i as u32 + self.v[x] as u32;
                self.i = (sum % 0x10000) as u16;
                Ok(Flow::Next)
            },
            Inst::OpFX29(x) => {
                self.i = self.v[x] as u16 * 5;
                Ok(Flow::Next)
            },
            Inst::OpFX33(x) => {
                if self.i as usize + 2 >= MEM_SIZE {
                    Err(Chip8Error::OutOfBoundsAddress)
                } else {
                    let i0 = self.i as usize;
                    let vx = self.v[x];
                    self.mem[i0] = vx / 100;
                    self.mem[i0 + 1] = (vx / 10) % 10;
                    self.mem[i0 + 2] = vx % 10;
                    Ok(Flow::Next)
                }
            },
            Inst::OpFX55(x) => {
                if self.i as usize + x >= MEM_SIZE {
                    Err(Chip8Error::OutOfBoundsAddress)
                } else {
                    self.op_store_regs(x);
                    Ok(Flow::Next)
                }
            },
            Inst::OpFX65(x) => {
                if self.i as usize + x >= MEM_SIZE {
                    Err(Chip8Error::OutOfBoundsAddress)
                } else {
                    self.op_load_regs(x);
                    Ok(Flow::Next)
                }
            },
        }
    }

    /// Read the two bytes at the program counter and combine them
    /// big-endian into the instruction word; the machine is not touched.
    pub fn fetch(&self) -> (r: Result<u16, Chip8Error>)
        requires
            self.wf(),
        ensures
            r == spec_fetch(self@),
    {
        let pc = self.pc as usize;
        if pc + 1 < MEM_SIZE {
            Ok((self.mem[pc] as u16) * 256 + (self.mem[pc + 1] as u16))
        } else {
            Err(Chip8Error::OutOfBoundsAddress)
        }
    }

    /// Run one instruction cycle: fetch, decode, execute, apply the
    /// control-flow effect to the program counter, and, when the caller
    /// reports that a sixtieth of a second has elapsed since the last
    /// pulse, count the timers down. Returns whether the audible event
    /// fired, or the error that aborted the cycle, in which case the
    /// machine is left exactly as it was. The random-number operation
    /// draws a fresh byte, so the outcome is what [`spec_tick`] gives for
    /// some byte; every other operation's outcome does not depend on it.
    pub fn tick(&mut self, timer_pulse: bool) -> (r: Result<bool, Chip8Error>)
        requires
            old(self).wf(),
        ensures
            final(self).wf(),
            exists|rnd: u8| (#[trigger] spec_tick(old(self)@, rnd, timer_pulse)) == (
            final(self)@,
            r,
            ),
    {
        let ghost s0 = self@;
        let opcode = match self.fetch() {
            Ok(w) => w,
            Err(e) => {
                proof {
                    assert(spec_tick(s0, 0u8, timer_pulse) == (self@, Err::<bool, Chip8Error>(e)));
                }
                return Err(e);
            },
        };
        let inst = match Inst::decode(opcode, self.pc) {
            Ok(i) => i,
            Err(e) => {
                proof {
                    assert(spec_tick(s0, 0u8, timer_pulse) == (self@, Err::<bool, Chip8Error>(e)));
                }
                return Err(e);
            },
        };
        let rnd: u8 = if let Inst::OpCXKK(_, _) = inst {
            random_byte()
        } else {
            0
        };
        let pc0 = self.pc;
        self.pc = pc0 + 2;
        let flow = match self.exec(inst, rnd) {
            Ok(f) => f,
            Err(e) => {
                self.pc = pc0;
                proof {
                    assert(self@ =~= s0);
                    assert(spec_tick(s0, rnd, timer_pulse) == (self@, Err::<bool, Chip8Error>(e)));
                }
                return Err(e);
            },
        };
        self.pc = match flow {
            Flow::Halt => pc0,
            Flow::Next => self.pc,
            Flow::Skip => pc0 + 4,
            Flow::Jump(a) => a,
        };
        let mut beep = false;
        if timer_pulse {
            if self.dt > 0 {
                self.dt = self.dt - 1;
            }
            if self.st > 0 {
                if self.st == 1 {
                    beep = true;
                }
                self.st = self.st - 1;
            }
        }
        proof {
            assert(spec_tick(s0, rnd, timer_pulse).0 =~= self@);
            assert(spec_tick(s0, rnd, timer_pulse) == (self@, Ok::<bool, Chip8Error>(beep)));
        }
        Ok(beep)
    }
}

} // verus!
