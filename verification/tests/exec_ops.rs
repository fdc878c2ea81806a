//! Per-operation semantics of the executor, driven through the public
//! `exec`, plus the decoder and every error variant.

use chip8::Chip8;
use chip8::Chip8Error;
use chip8::Flow;
use chip8::Inst;

fn fresh() -> Chip8 {
    let mut c = Chip8::default();
    c.reset();
    c
}

#[test]
fn load_imm_and_add_imm() {
    let mut c = fresh();
    assert_eq!(c.exec(Inst::Op6XKK(0, 0x0A), 0), Ok(Flow::Next));
    assert_eq!(c.v[0], 10);
    assert_eq!(c.exec(Inst::Op7XKK(0, 5), 0), Ok(Flow::Next));
    assert_eq!(c.v[0], 15);
    assert_eq!(c.v[0xF], 0);
}

#[test]
fn add_imm_wraps_without_flag() {
    let mut c = fresh();
    c.v[3] = 255;
    c.v[0xF] = 7;
    assert_eq!(c.exec(Inst::Op7XKK(3, 1), 0), Ok(Flow::Next));
    assert_eq!(c.v[3], 0);
    assert_eq!(c.exec(Inst::Op7XKK(3, 1), 0), Ok(Flow::Next));
    assert_eq!(c.v[3], 1);
    // The immediate add never touches the flag register.
    assert_eq!(c.v[0xF], 7);
}

#[test]
fn add_reg_sets_carry() {
    let mut c = fresh();
    c.v[0] = 200;
    c.v[1] = 100;
    assert_eq!(c.exec(Inst::Op8XY4(0, 1), 0), Ok(Flow::Next));
    assert_eq!(c.v[0], 44);
    assert_eq!(c.v[0xF], 1);
    c.v[2] = 3;
    c.v[3] = 4;
    assert_eq!(c.exec(Inst::Op8XY4(2, 3), 0), Ok(Flow::Next));
    assert_eq!(c.v[2], 7);
    assert_eq!(c.v[0xF], 0);
}

#[test]
fn sub_sets_no_borrow_flag() {
    let mut c = fresh();
    c.v[0] = 10;
    c.v[1] = 3;
    assert_eq!(c.exec(Inst::Op8XY5(0, 1), 0), Ok(Flow::Next));
    assert_eq!(c.v[0], 7);
    assert_eq!(c.v[0xF], 1);
    c.v[2] = 3;
    c.v[3] = 10;
    assert_eq!(c.exec(Inst::Op8XY5(2, 3), 0), Ok(Flow::Next));
    assert_eq!(c.v[2], 249);
    assert_eq!(c.v[0xF], 0);
}

#[test]
fn sub_then_add_restores() {
    let mut c = fresh();
    c.v[4] = 33;
    c.v[5] = 200;
    assert_eq!(c.exec(Inst::Op8XY5(4, 5), 0), Ok(Flow::Next));
    assert_eq!(c.exec(Inst::Op8XY4(4, 5), 0), Ok(Flow::Next));
    assert_eq!(c.v[4], 33);
    assert_eq!(c.v[5], 200);
    // The flag reflects the final add, which carries exactly because the
    // subtraction borrowed.
    assert_eq!(c.v[0xF], 1);
}

#[test]
fn subn_concrete_values() {
    let mut c = fresh();
    c.v[0x05] = 10;
    c.v[0x06] = 20;
    assert_eq!(c.exec(Inst::Op8XY7(0x05, 0x06), 0), Ok(Flow::Next));
    // No borrow, since Vy >= Vx; the destination takes Vy - Vx.
    assert_eq!(c.v[0xF], 1);
    assert_eq!(c.v[0x05], 10);
    assert_eq!(c.v[0x06], 20);
}

#[test]
fn bitwise_ops() {
    let mut c = fresh();
    c.v[0] = 0b1100;
    c.v[1] = 0b1010;
    assert_eq!(c.exec(Inst::Op8XY1(0, 1), 0), Ok(Flow::Next));
    assert_eq!(c.v[0], 0b1110);
    c.v[0] = 0b1100;
    assert_eq!(c.exec(Inst::Op8XY2(0, 1), 0), Ok(Flow::Next));
    assert_eq!(c.v[0], 0b1000);
    c.v[0] = 0b1100;
    assert_eq!(c.exec(Inst::Op8XY3(0, 1), 0), Ok(Flow::Next));
    assert_eq!(c.v[0], 0b0110);
    assert_eq!(c.exec(Inst::Op8XY0(0, 1), 0), Ok(Flow::Next));
    assert_eq!(c.v[0], 0b1010);
}

#[test]
fn shifts_capture_edge_bits() {
    let mut c = fresh();
    c.v[2] = 0b1000_0101;
    assert_eq!(c.exec(Inst::Op8XY6(2, 0), 0), Ok(Flow::Next));
    assert_eq!(c.v[2], 0b0100_0010);
    assert_eq!(c.v[0xF], 1);
    c.v[2] = 0b1000_0100;
    assert_eq!(c.exec(Inst::Op8XYE(2, 0), 0), Ok(Flow::Next));
    assert_eq!(c.v[2], 0b0000_1000);
    assert_eq!(c.v[0xF], 1);
    c.v[2] = 0b0100_0010;
    assert_eq!(c.exec(Inst::Op8XYE(2, 0), 0), Ok(Flow::Next));
    assert_eq!(c.v[2], 0b1000_0100);
    assert_eq!(c.v[0xF], 0);
}

#[test]
fn skip_ops() {
    let mut c = fresh();
    c.v[0] = 7;
    c.v[1] = 7;
    c.v[2] = 9;
    assert_eq!(c.exec(Inst::Op3XKK(0, 7), 0), Ok(Flow::Skip));
    assert_eq!(c.exec(Inst::Op3XKK(0, 8), 0), Ok(Flow::Next));
    assert_eq!(c.exec(Inst::Op4XKK(0, 7), 0), Ok(Flow::Next));
    assert_eq!(c.exec(Inst::Op4XKK(0, 8), 0), Ok(Flow::Skip));
    assert_eq!(c.exec(Inst::Op5XY0(0, 1), 0), Ok(Flow::Skip));
    assert_eq!(c.exec(Inst::Op5XY0(0, 2), 0), Ok(Flow::Next));
    assert_eq!(c.exec(Inst::Op9XY0(0, 1), 0), Ok(Flow::Next));
    assert_eq!(c.exec(Inst::Op9XY0(0, 2), 0), Ok(Flow::Skip));
}

#[test]
fn jumps_and_calls() {
    let mut c = fresh();
    assert_eq!(c.exec(Inst::Op1NNN(0x345), 0), Ok(Flow::Jump(0x345)));
    c.v[0] = 4;
    assert_eq!(c.exec(Inst::OpBNNN(0x300), 0), Ok(Flow::Jump(0x304)));
    c.pc = 0x202;
    assert_eq!(c.exec(Inst::Op2NNN(0x400), 0), Ok(Flow::Jump(0x400)));
    assert_eq!(c.sp, 1);
    assert_eq!(c.stack[0], 0x202);
    assert_eq!(c.exec(Inst::Op00EE, 0), Ok(Flow::Jump(0x202)));
    assert_eq!(c.sp, 0);
}

#[test]
fn stack_underflow_and_overflow() {
    let mut c = fresh();
    assert_eq!(c.exec(Inst::Op00EE, 0), Err(Chip8Error::StackUnderflow));
    for _ in 0..16 {
        assert_eq!(c.exec(Inst::Op2NNN(0x300), 0), Ok(Flow::Jump(0x300)));
    }
    assert_eq!(c.sp, 16);
    assert_eq!(c.exec(Inst::Op2NNN(0x300), 0), Err(Chip8Error::StackOverflow));
    // The failed call left the machine untouched.
    assert_eq!(c.sp, 16);
}

#[test]
fn index_register_ops() {
    let mut c = fresh();
    assert_eq!(c.exec(Inst::OpANNN(0xABC), 0), Ok(Flow::Next));
    assert_eq!(c.i, 0xABC);
    c.v[1] = 0x10;
    assert_eq!(c.exec(Inst::OpFX1E(1), 0), Ok(Flow::Next));
    assert_eq!(c.i, 0xACC);
    c.i = 0xFFFF;
    c.v[1] = 2;
    assert_eq!(c.exec(Inst::OpFX1E(1), 0), Ok(Flow::Next));
    // The index register wraps modulo 65536.
    assert_eq!(c.i, 1);
}

#[test]
fn font_addressing() {
    let mut c = fresh();
    c.v[6] = 0xA;
    assert_eq!(c.exec(Inst::OpFX29(6), 0), Ok(Flow::Next));
    // Each glyph occupies five bytes in the reserved region.
    assert_eq!(c.i, 50);
    // The glyph for digit 0xA starts with its top row.
    assert_eq!(c.mem[50], 0xF0);
}

#[test]
fn timers_and_random_mask() {
    let mut c = fresh();
    c.v[3] = 42;
    assert_eq!(c.exec(Inst::OpFX15(3), 0), Ok(Flow::Next));
    assert_eq!(c.dt, 42);
    assert_eq!(c.exec(Inst::OpFX18(3), 0), Ok(Flow::Next));
    assert_eq!(c.st, 42);
    c.dt = 9;
    assert_eq!(c.exec(Inst::OpFX07(5), 0), Ok(Flow::Next));
    assert_eq!(c.v[5], 9);
    // The random byte is masked with the immediate.
    assert_eq!(c.exec(Inst::OpCXKK(2, 0x0F), 0b1010_1010), Ok(Flow::Next));
    assert_eq!(c.v[2], 0b0000_1010);
    assert_eq!(c.exec(Inst::OpCXKK(2, 0x00), 0xFF), Ok(Flow::Next));
    assert_eq!(c.v[2], 0);
}

#[test]
fn store_bcd_concrete() {
    let mut c = fresh();
    c.v[7] = 205;
    c.i = 0x300;
    assert_eq!(c.exec(Inst::OpFX33(7), 0), Ok(Flow::Next));
    assert_eq!(c.mem[0x300], 2);
    assert_eq!(c.mem[0x301], 0);
    assert_eq!(c.mem[0x302], 5);
}

#[test]
fn store_bcd_out_of_bounds() {
    let mut c = fresh();
    c.i = 4094;
    assert_eq!(c.exec(Inst::OpFX33(0), 0), Err(Chip8Error::OutOfBoundsAddress));
}

#[test]
fn store_and_load_registers_round_trip() {
    let mut c = fresh();
    for j in 0..6 {
        c.v[j] = (j as u8) * 11 + 1;
    }
    c.i = 0x320;
    assert_eq!(c.exec(Inst::OpFX55(5), 0), Ok(Flow::Next));
    // The index register is left just past the written block.
    assert_eq!(c.i, 0x326);
    for j in 0..6 {
        assert_eq!(c.mem[0x320 + j], (j as u8) * 11 + 1);
    }
    // Scramble the registers, then load them back from the same region.
    for j in 0..6 {
        c.v[j] = 0xEE;
    }
    assert_eq!(c.exec(Inst::OpANNN(0x320), 0), Ok(Flow::Next));
    assert_eq!(c.exec(Inst::OpFX65(5), 0), Ok(Flow::Next));
    assert_eq!(c.i, 0x326);
    for j in 0..6 {
        assert_eq!(c.v[j], (j as u8) * 11 + 1);
    }
    // Register 6 was beyond the transfer and is untouched.
    assert_eq!(c.v[6], 0);
}

#[test]
fn bulk_transfer_out_of_bounds() {
    let mut c = fresh();
    c.i = 4090;
    assert_eq!(c.exec(Inst::OpFX55(7), 0), Err(Chip8Error::OutOfBoundsAddress));
    assert_eq!(c.exec(Inst::OpFX65(7), 0), Err(Chip8Error::OutOfBoundsAddress));
    // The largest transfer that still fits succeeds.
    assert_eq!(c.exec(Inst::OpFX55(5), 0), Ok(Flow::Next));
    assert_eq!(c.i, 4096);
}

#[test]
fn key_ops() {
    let mut c = fresh();
    c.v[0] = 5;
    assert_eq!(c.exec(Inst::OpEX9E(0), 0), Ok(Flow::Next));
    assert_eq!(c.exec(Inst::OpEXA1(0), 0), Ok(Flow::Skip));
    c.key[5] = true;
    assert_eq!(c.exec(Inst::OpEX9E(0), 0), Ok(Flow::Skip));
    assert_eq!(c.exec(Inst::OpEXA1(0), 0), Ok(Flow::Next));
    // The key index is the register value masked to its low four bits.
    c.v[0] = 0xF5;
    assert_eq!(c.exec(Inst::OpEX9E(0), 0), Ok(Flow::Skip));
}

#[test]
fn key_wait_blocks_then_takes_lowest() {
    let mut c = fresh();
    assert_eq!(c.exec(Inst::OpFX0A(4), 0), Ok(Flow::Halt));
    assert_eq!(c.v[4], 0);
    c.key[9] = true;
    c.key[3] = true;
    assert_eq!(c.exec(Inst::OpFX0A(4), 0), Ok(Flow::Next));
    assert_eq!(c.v[4], 3);
}

#[test]
fn clear_and_draw_collision() {
    let mut c = fresh();
    // A two-row sprite: a solid top row, one pixel in the second row.
    c.mem[0x340] = 0xFF;
    c.mem[0x341] = 0x80;
    c.i = 0x340;
    c.v[0] = 3;
    c.v[1] = 5;
    assert_eq!(c.exec(Inst::Op00E0, 0), Ok(Flow::Next));
    assert_eq!(c.exec(Inst::OpDXYN(0, 1, 2), 0), Ok(Flow::Next));
    // First draw on a cleared display never collides.
    assert_eq!(c.v[0xF], 0);
    assert!(c.gfx_updated);
    for dx in 0..8 {
        assert!(c.gfx[5 * 64 + 3 + dx]);
    }
    assert!(c.gfx[6 * 64 + 3]);
    assert!(!c.gfx[6 * 64 + 4]);
    // Drawing the same sprite again turns its own pixels off: collision.
    assert_eq!(c.exec(Inst::OpDXYN(0, 1, 2), 0), Ok(Flow::Next));
    assert_eq!(c.v[0xF], 1);
    for dx in 0..8 {
        assert!(!c.gfx[5 * 64 + 3 + dx]);
    }
    assert!(!c.gfx[6 * 64 + 3]);
}

#[test]
fn draw_wraps_both_axes() {
    let mut c = fresh();
    c.mem[0x350] = 0b1000_0001;
    c.i = 0x350;
    c.v[0] = 60;  // column: bits land on 60..63 and wrap to 0..3
    c.v[1] = 31;  // last row
    assert_eq!(c.exec(Inst::Op00E0, 0), Ok(Flow::Next));
    assert_eq!(c.exec(Inst::OpDXYN(0, 1, 1), 0), Ok(Flow::Next));
    assert!(c.gfx[31 * 64 + 60]);
    assert!(c.gfx[31 * 64 + 3]);
    // A second row would have wrapped to row 0; with one row nothing else
    // is lit.
    assert!(!c.gfx[0]);
    assert_eq!(c.v[0xF], 0);
}

#[test]
fn draw_out_of_bounds() {
    let mut c = fresh();
    c.i = 4090;
    assert_eq!(c.exec(Inst::OpDXYN(0, 1, 7), 0), Err(Chip8Error::OutOfBoundsAddress));
    assert_eq!(c.exec(Inst::OpDXYN(0, 1, 6), 0), Ok(Flow::Next));
}

#[test]
fn decode_every_family() {
    assert_eq!(Inst::decode(0x00E0, 0), Ok(Inst::Op00E0));
    assert_eq!(Inst::decode(0x00EE, 0), Ok(Inst::Op00EE));
    assert_eq!(Inst::decode(0x1234, 0), Ok(Inst::Op1NNN(0x234)));
    assert_eq!(Inst::decode(0x2345, 0), Ok(Inst::Op2NNN(0x345)));
    assert_eq!(Inst::decode(0x3A7F, 0), Ok(Inst::Op3XKK(0xA, 0x7F)));
    assert_eq!(Inst::decode(0x4A7F, 0), Ok(Inst::Op4XKK(0xA, 0x7F)));
    assert_eq!(Inst::decode(0x5AB0, 0), Ok(Inst::Op5XY0(0xA, 0xB)));
    assert_eq!(Inst::decode(0x6C42, 0), Ok(Inst::Op6XKK(0xC, 0x42)));
    assert_eq!(Inst::decode(0x7C42, 0), Ok(Inst::Op7XKK(0xC, 0x42)));
    assert_eq!(Inst::decode(0x8120, 0), Ok(Inst::Op8XY0(1, 2)));
    assert_eq!(Inst::decode(0x8121, 0), Ok(Inst::Op8XY1(1, 2)));
    assert_eq!(Inst::decode(0x8122, 0), Ok(Inst::Op8XY2(1, 2)));
    assert_eq!(Inst::decode(0x8123, 0), Ok(Inst::Op8XY3(1, 2)));
    assert_eq!(Inst::decode(0x8124, 0), Ok(Inst::Op8XY4(1, 2)));
    assert_eq!(Inst::decode(0x8125, 0), Ok(Inst::Op8XY5(1, 2)));
    assert_eq!(Inst::decode(0x8126, 0), Ok(Inst::Op8XY6(1, 2)));
    assert_eq!(Inst::decode(0x8127, 0), Ok(Inst::Op8XY7(1, 2)));
    assert_eq!(Inst::decode(0x812E, 0), Ok(Inst::Op8XYE(1, 2)));
    assert_eq!(Inst::decode(0x9120, 0), Ok(Inst::Op9XY0(1, 2)));
    assert_eq!(Inst::decode(0xA9AB, 0), Ok(Inst::OpANNN(0x9AB)));
    assert_eq!(Inst::decode(0xB9AB, 0), Ok(Inst::OpBNNN(0x9AB)));
    assert_eq!(Inst::decode(0xC377, 0), Ok(Inst::OpCXKK(3, 0x77)));
    assert_eq!(Inst::decode(0xD125, 0), Ok(Inst::OpDXYN(1, 2, 5)));
    assert_eq!(Inst::decode(0xE39E, 0), Ok(Inst::OpEX9E(3)));
    assert_eq!(Inst::decode(0xE3A1, 0), Ok(Inst::OpEXA1(3)));
    assert_eq!(Inst::decode(0xF407, 0), Ok(Inst::OpFX07(4)));
    assert_eq!(Inst::decode(0xF40A, 0), Ok(Inst::OpFX0A(4)));
    assert_eq!(Inst::decode(0xF415, 0), Ok(Inst::OpFX15(4)));
    assert_eq!(Inst::decode(0xF418, 0), Ok(Inst::OpFX18(4)));
    assert_eq!(Inst::decode(0xF41E, 0), Ok(Inst::OpFX1E(4)));
    assert_eq!(Inst::decode(0xF429, 0), Ok(Inst::OpFX29(4)));
    assert_eq!(Inst::decode(0xF433, 0), Ok(Inst::OpFX33(4)));
    assert_eq!(Inst::decode(0xF455, 0), Ok(Inst::OpFX55(4)));
    assert_eq!(Inst::decode(0xF465, 0), Ok(Inst::OpFX65(4)));
}

#[test]
fn decode_failures() {
    assert_eq!(
        Inst::decode(0x5AB1, 0x200),
        Err(Chip8Error::DecodeFailure { opcode: 0x5AB1, pc: 0x200 })
    );
    assert_eq!(
        Inst::decode(0x8128, 0x204),
        Err(Chip8Error::DecodeFailure { opcode: 0x8128, pc: 0x204 })
    );
    assert_eq!(
        Inst::decode(0x9121, 0x206),
        Err(Chip8Error::DecodeFailure { opcode: 0x9121, pc: 0x206 })
    );
    assert_eq!(
        Inst::decode(0xE3A2, 0x208),
        Err(Chip8Error::DecodeFailure { opcode: 0xE3A2, pc: 0x208 })
    );
    assert_eq!(
        Inst::decode(0xF466, 0x20A),
        Err(Chip8Error::DecodeFailure { opcode: 0xF466, pc: 0x20A })
    );
}

#[test]
fn decode_native_call_is_distinct() {
    // The legacy native-call family is recognized but rejected with its
    // own error, not a generic decode failure.
    assert_eq!(
        Inst::decode(0x0123, 0x200),
        Err(Chip8Error::UnsupportedHostOperation { opcode: 0x0123, pc: 0x200 })
    );
    assert_eq!(
        Inst::decode(0x0000, 0x200),
        Err(Chip8Error::UnsupportedHostOperation { opcode: 0x0000, pc: 0x200 })
    );
}
