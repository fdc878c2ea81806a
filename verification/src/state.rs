//! The machine state: memory, registers, call stack, timers, pixel grid and
//! keypad, together with its mathematical view and its construction
//! (power-on value, reset, program loading).

use vstd::prelude::*;

use crate::CHIP8_SCREEN_HEIGHT;
use crate::CHIP8_SCREEN_WIDTH;
use crate::MEM_SIZE;
use crate::PROGRAM_CAPACITY;
use crate::PROGRAM_START;

verus! {

/// Mathematical view of a machine: the same components as [`Chip8`], with
/// the collections abstracted to sequences.
#[verifier::ext_equal]
pub ghost struct State {
    /// Index register.
    pub i: u16,
    /// Program counter.
    pub pc: u16,
    /// Call-stack pointer: number of saved return addresses.
    pub sp: u8,
    /// Delay timer.
    pub dt: u8,
    /// Sound timer.
    pub st: u8,
    /// The sixteen general-purpose registers.
    pub v: Seq<u8>,
    /// The 4096 bytes of memory.
    pub mem: Seq<u8>,
    /// The sixteen call-stack slots.
    pub stack: Seq<u16>,
    /// The pixel grid, row-major.
    pub gfx: Seq<bool>,
    /// The keypad: true means the key is currently held.
    pub key: Seq<bool>,
    /// Whether the pixel grid changed since the host last read it.
    pub gfx_updated: bool,
}

impl State {
    /// The components have their fixed sizes and the stack pointer stays
    /// within the sixteen slots.
    pub open spec fn wf(self) -> bool {
        &&& self.v.len() == 16
        &&& self.mem.len() == MEM_SIZE
        &&& self.stack.len() == 16
        &&& self.gfx.len() == CHIP8_SCREEN_WIDTH * CHIP8_SCREEN_HEIGHT
        &&& self.key.len() == 16
        &&& self.sp <= 16
    }
}

/// The CPU of a CHIP-8 virtual machine.
pub struct Chip8 {
    /// Index register.
    pub i: u16,
    /// Program counter.
    pub pc: u16,
    /// Call-stack pointer: number of saved return addresses.
    pub sp: u8,
    /// Delay timer register.
    pub dt: u8,
    /// Sound timer register.
    pub st: u8,
    /// The sixteen general-purpose registers; the last one doubles as the
    /// carry, borrow and collision flag.
    pub v: Vec<u8>,
    /// The 4096 bytes of memory: the interpreter's reserved region below
    /// the program start, the loaded program above it.
    pub mem: Vec<u8>,
    /// The sixteen-slot call stack.
    pub stack: Vec<u16>,
    /// The pixel grid, row-major; sprites are composited onto it in XOR
    /// mode by the draw operation.
    pub gfx: Vec<bool>,
    /// The keypad: true means the key is currently held.
    pub key: Vec<bool>,
    /// Whether the pixel grid changed since the host last read it.
    pub gfx_updated: bool,
}

impl View for Chip8 {
    type V = State;

    open spec fn view(&self) -> State {
        State {
            i: self.i,
            pc: self.pc,
            sp: self.sp,
            dt: self.dt,
            st: self.st,
            v: self.v@,
            mem: self.mem@,
            stack: self.stack@,
            gfx: self.gfx@,
            key: self.key@,
            gfx_updated: self.gfx_updated,
        }
    }
}

impl Chip8 {
    /// The machine's components have their fixed sizes.
    pub open spec fn wf(&self) -> bool {
        self@.wf()
    }
}

/// A vector holding `count` copies of `value`.
fn filled_vec<T: Copy>(value: T, count: usize) -> (r: Vec<T>)
    ensures
        r@.len() == count,
        forall|j: int| 0 <= j < count ==> r@[j] == value,
{
    let mut r: Vec<T> = Vec::new();
    while r.len() < count
        invariant
            r@.len() <= count,
            forall|j: int| 0 <= j < r@.len() ==> r@[j] == value,
        decreases count - r@.len(),
    {
        r.push(value);
    }
    r
}

/// The power-on state: everything zero, all pixels off, all keys up.
pub open spec fn power_on_state() -> State {
    State {
        i: 0,
        pc: 0,
        sp: 0,
        dt: 0,
        st: 0,
        v: Seq::new(16, |j: int| 0u8),
        mem: Seq::new(MEM_SIZE as nat, |j: int| 0u8),
        stack: Seq::new(16, |j: int| 0u16),
        gfx: Seq::new((CHIP8_SCREEN_WIDTH * CHIP8_SCREEN_HEIGHT) as nat, |j: int| false),
        key: Seq::new(16, |j: int| false),
        gfx_updated: false,
    }
}

/// The eighty bytes of font glyphs: five rows for each of the sixteen
/// hexadecimal digits, installed at the bottom of memory by `reset`.
pub open spec fn font_data() -> Seq<u8> {
    seq![
        0xF0u8, 0x90u8, 0x90u8, 0x90u8, 0xF0u8,
        0x20u8, 0x60u8, 0x20u8, 0x20u8, 0x70u8,
        0xF0u8, 0x10u8, 0xF0u8, 0x80u8, 0xF0u8,
        0xF0u8, 0x10u8, 0xF0u8, 0x10u8, 0xF0u8,
        0x90u8, 0x90u8, 0xF0u8, 0x10u8, 0x10u8,
        0xF0u8, 0x80u8, 0xF0u8, 0x10u8, 0xF0u8,
        0xF0u8, 0x80u8, 0xF0u8, 0x90u8, 0xF0u8,
        0xF0u8, 0x10u8, 0x20u8, 0x40u8, 0x40u8,
        0xF0u8, 0x90u8, 0xF0u8, 0x90u8, 0xF0u8,
        0xF0u8, 0x90u8, 0xF0u8, 0x10u8, 0xF0u8,
        0xF0u8, 0x90u8, 0xF0u8, 0x90u8, 0x90u8,
        0xE0u8, 0x90u8, 0xE0u8, 0x90u8, 0xE0u8,
        0xF0u8, 0x80u8, 0x80u8, 0x80u8, 0xF0u8,
        0xE0u8, 0x90u8, 0x90u8, 0x90u8, 0xE0u8,
        0xF0u8, 0x80u8, 0xF0u8, 0x80u8, 0xF0u8,
        0xF0u8, 0x80u8, 0xF0u8, 0x80u8, 0x80u8,
    ]
}

/// The font glyphs as a vector.
fn font_vec() -> (r: Vec<u8>)
    ensures
        r@ == font_data(),
{
    let mut r: Vec<u8> = Vec::new();
    r.push(0xF0); r.push(0x90); r.push(0x90); r.push(0x90); r.push(0xF0);
    r.push(0x20); r.push(0x60); r.push(0x20); r.push(0x20); r.push(0x70);
    r.push(0xF0); r.push(0x10); r.push(0xF0); r.push(0x80); r.push(0xF0);
    r.push(0xF0); r.push(0x10); r.push(0xF0); r.push(0x10); r.push(0xF0);
    r.push(0x90); r.push(0x90); r.push(0xF0); r.push(0x10); r.push(0x10);
    r.push(0xF0); r.push(0x80); r.push(0xF0); r.push(0x10); r.push(0xF0);
    r.push(0xF0); r.push(0x80); r.push(0xF0); r.push(0x90); r.push(0xF0);
    r.push(0xF0); r.push(0x10); r.push(0x20); r.push(0x40); r.push(0x40);
    r.push(0xF0); r.push(0x90); r.push(0xF0); r.push(0x90); r.push(0xF0);
    r.push(0xF0); r.push(0x90); r.push(0xF0); r.push(0x10); r.push(0xF0);
    r.push(0xF0); r.push(0x90); r.push(0xF0); r.push(0x90); r.push(0x90);
    r.push(0xE0); r.push(0x90); r.push(0xE0); r.push(0x90); r.push(0xE0);
    r.push(0xF0); r.push(0x80); r.push(0x80); r.push(0x80); r.push(0xF0);
    r.push(0xE0); r.push(0x90); r.push(0x90); r.push(0x90); r.push(0xE0);
    r.push(0xF0); r.push(0x80); r.push(0xF0); r.push(0x80); r.push(0xF0);
    r.push(0xF0); r.push(0x80); r.push(0xF0); r.push(0x80); r.push(0x80);
    proof {
        assert(r@ =~= font_data());
    }
    r
}

/// The state `reset` establishes: registers, stack, timers, pixels and keys
/// cleared, the font glyphs in low memory, the program counter at the start
/// of the program region.
pub open spec fn reset_state() -> State {
    State {
        pc: PROGRAM_START as u16,
        mem: Seq::new(
            MEM_SIZE as nat,
            |a: int| if a < font_data().len() { font_data()[a] } else { 0u8 },
        ),
        ..power_on_state()
    }
}

/// A program image: a fixed-size byte buffer that `Chip8::load` copies into
/// the program region of memory.
pub struct Rom {
    data: Vec<u8>,
}

impl Rom {
    /// The buffer has its fixed size.
    pub closed spec fn wf(&self) -> bool {
        self.data@.len() == PROGRAM_CAPACITY
    }

    /// The byte at offset `j` of the buffer.
    pub closed spec fn byte(&self, j: int) -> u8 {
        self.data@[j]
    }

    /// A program image holding the given bytes, zero-padded to the fixed
    /// buffer size. Bytes beyond the buffer's capacity are ignored, as a
    /// host that reads a file into the fixed buffer would drop them.
    pub fn new(bytes: &Vec<u8>) -> (r: Rom)
        ensures
            r.wf(),
            forall|j: int|
                0 <= j < PROGRAM_CAPACITY ==> r.byte(j) == (if j < bytes@.len() {
                    bytes@[j]
                } else {
                    0u8
                }),
    {
        let mut data: Vec<u8> = Vec::new();
        while data.len() < PROGRAM_CAPACITY
            invariant
                data@.len() <= PROGRAM_CAPACITY,
                forall|j: int|
                    0 <= j < data@.len() ==> data@[j] == (if j < bytes@.len() {
                        bytes@[j]
                    } else {
                        0u8
                    }),
            decreases PROGRAM_CAPACITY - data@.len(),
        {
            if data.len() < bytes.len() {
                let b = bytes[data.len()];
                data.push(b);
            } else {
                data.push(0);
            }
        }
        Rom { data }
    }
}

impl Chip8 {
    /// Return the machine to its initial configuration: everything cleared,
    /// the font glyphs installed in the reserved low-memory region, and the
    /// program counter set to the start of the program region.
    pub fn reset(&mut self)
        ensures
            final(self).wf(),
            final(self)@ == reset_state(),
    {
        self.i = 0;
        self.pc = 0x200;
        self.sp = 0;
        self.dt = 0;
        self.st = 0;
        self.v = filled_vec(0u8, 16);
        self.mem = filled_vec(0u8, MEM_SIZE);
        self.stack = filled_vec(0u16, 16);
        self.gfx = filled_vec(false, CHIP8_SCREEN_WIDTH * CHIP8_SCREEN_HEIGHT);
        self.key = filled_vec(false, 16);
        self.gfx_updated = false;
        let font = font_vec();
        let mut j: usize = 0;
        while j < 80
            invariant
                self.mem@.len() == MEM_SIZE,
                font@ == font_data(),
                j <= 80,
                forall|a: int| 0 <= a < j ==> self.mem@[a] == font_data()[a],
                forall|a: int| j <= a < MEM_SIZE ==> self.mem@[a] == 0u8,
                self.i == 0,
                self.pc == 0x200,
                self.sp == 0,
                self.dt == 0,
                self.st == 0,
                self.v@ =~= reset_state().v,
                self.stack@ =~= reset_state().stack,
                self.gfx@ =~= reset_state().gfx,
                self.key@ =~= reset_state().key,
                self.gfx_updated == false,
            decreases 80 - j,
        {
            self.mem[j] = font[j];
            j += 1;
        }
        proof {
            assert(self@.mem =~= reset_state().mem);
            assert(self@ =~= reset_state());
        }
    }

    /// Copy the first `prog_len` bytes of a program image into memory,
    /// starting at the program region; the rest of memory is untouched.
    pub fn load(&mut self, prog_mem: &Rom, prog_len: usize)
        requires
            old(self).wf(),
            prog_mem.wf(),
            prog_len <= PROGRAM_CAPACITY,
        ensures
            final(self).wf(),
            final(self)@ == (State {
                mem: Seq::new(
                    MEM_SIZE as nat,
                    |a: int| if PROGRAM_START <= a < PROGRAM_START + prog_len {
                        prog_mem.byte(a - PROGRAM_START)
                    } else {
                        old(self)@.mem[a]
                    },
                ),
                ..old(self)@
            }),
    {
        let ghost mem0 = self.mem@;
        let mut j: usize = 0;
        while j < prog_len
            invariant
                self.mem@.len() == MEM_SIZE,
                prog_mem.wf(),
                prog_len <= PROGRAM_CAPACITY,
                j <= prog_len,
                forall|a: int|
                    #![auto]
                    PROGRAM_START <= a < PROGRAM_START + j ==> self.mem@[a] == prog_mem.byte(
                        a - PROGRAM_START,
                    ),
                forall|a: int|
                    #![auto]
                    0 <= a < MEM_SIZE && !(PROGRAM_START <= a < PROGRAM_START + j)
                        ==> self.mem@[a] == mem0[a],
                self.i == old(self).i,
                self.pc == old(self).pc,
                self.sp == old(self).sp,
                self.dt == old(self).dt,
                self.st == old(self).st,
                self.v@ == old(self)@.v,
                self.stack@ == old(self)@.stack,
                self.gfx@ == old(self)@.gfx,
                self.key@ == old(self)@.key,
                self.gfx_updated == old(self).gfx_updated,
            decreases prog_len - j,
        {
            let b = prog_mem.data[j];
            self.mem[0x200 + j] = b;
            j += 1;
        }
        proof {
            assert(self@.mem =~= Seq::new(
                MEM_SIZE as nat,
                |a: int| if PROGRAM_START <= a < PROGRAM_START + prog_len {
                    prog_mem.byte(a - PROGRAM_START)
                } else {
                    old(self)@.mem[a]
                },
            ));
            assert(self@ =~= (State {
                mem: Seq::new(
                    MEM_SIZE as nat,
                    |a: int| if PROGRAM_START <= a < PROGRAM_START + prog_len {
                        prog_mem.byte(a - PROGRAM_START)
                    } else {
                        old(self)@.mem[a]
                    },
                ),
                ..old(self)@
            }));
        }
    }
}

impl Default for Chip8 {
    /// A machine in its power-on state; `reset` must still install the font
    /// and point the program counter at the program region.
    fn default() -> (r: Self)
        ensures
            r.wf(),
            r@ == power_on_state(),
    {
        let r = Chip8 {
            i: 0,
            pc: 0,
            sp: 0,
            dt: 0,
            st: 0,
            v: filled_vec(0u8, 16),
            mem: filled_vec(0u8, MEM_SIZE),
            stack: filled_vec(0u16, 16),
            gfx: filled_vec(false, CHIP8_SCREEN_WIDTH * CHIP8_SCREEN_HEIGHT),
            key: filled_vec(false, 16),
            gfx_updated: false,
        };
        proof {
            assert(r@.v =~= power_on_state().v);
            assert(r@.mem =~= power_on_state().mem);
            assert(r@.stack =~= power_on_state().stack);
            assert(r@.gfx =~= power_on_state().gfx);
            assert(r@.key =~= power_on_state().key);
            assert(r@ =~= power_on_state());
        }
        r
    }
}

} // verus!
