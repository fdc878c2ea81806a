//! Whole-machine scenarios: reset, program loading, and full cycles driven
//! through `tick`.

use chip8::Chip8;
use chip8::Chip8Error;
use chip8::Rom;

#[test]
fn reset_installs_font_and_program_counter() {
    let mut c = Chip8::default();
    assert_eq!(c.pc, 0);
    c.reset();
    assert_eq!(c.pc, 0x200);
    assert_eq!(c.i, 0);
    assert_eq!(c.sp, 0);
    assert_eq!(c.dt, 0);
    assert_eq!(c.st, 0);
    // The first glyph row and the last glyph row of the font.
    assert_eq!(c.mem[0], 0xF0);
    assert_eq!(c.mem[79], 0x80);
    // Beyond the font everything is zero.
    assert_eq!(c.mem[80], 0);
    assert_eq!(c.mem[4095], 0);
    assert!(c.v.iter().all(|b| *b == 0));
    assert!(c.gfx.iter().all(|p| !*p));
    assert!(c.key.iter().all(|k| !*k));
    assert!(!c.gfx_updated);
}

#[test]
fn rom_pads_and_load_copies() {
    let bytes: Vec<u8> = vec![0x60, 0x0A, 0x61, 0x05];
    let rom = Rom::new(&bytes);
    let mut c = Chip8::default();
    c.reset();
    c.load(&rom, 4);
    assert_eq!(c.mem[0x200], 0x60);
    assert_eq!(c.mem[0x201], 0x0A);
    assert_eq!(c.mem[0x202], 0x61);
    assert_eq!(c.mem[0x203], 0x05);
    // Memory past the loaded bytes stays zero.
    assert_eq!(c.mem[0x204], 0);
    // The font below the program region is untouched.
    assert_eq!(c.mem[0], 0xF0);
}

#[test]
fn load_shorter_than_rom_capacity() {
    let bytes: Vec<u8> = vec![0xAB; 10];
    let rom = Rom::new(&bytes);
    let mut c = Chip8::default();
    c.reset();
    c.load(&rom, 3);
    assert_eq!(c.mem[0x202], 0xAB);
    assert_eq!(c.mem[0x203], 0);
}

#[test]
fn load_largest_program_fills_memory_to_the_end() {
    let bytes: Vec<u8> = vec![0x77; 0xDFF];
    let rom = Rom::new(&bytes);
    let mut c = Chip8::default();
    c.reset();
    c.load(&rom, 0xDFF);
    assert_eq!(c.mem[0x200], 0x77);
    assert_eq!(c.mem[0xFFE], 0x77);
    // The last memory byte lies past the program capacity.
    assert_eq!(c.mem[0xFFF], 0);
}

#[test]
fn three_cycle_add_program() {
    // Load V0 := 10, load V1 := 5, add V1 into V0.
    let bytes: Vec<u8> = vec![0x60, 0x0A, 0x61, 0x05, 0x80, 0x14];
    let rom = Rom::new(&bytes);
    let mut c = Chip8::default();
    c.reset();
    c.load(&rom, 6);
    for _ in 0..3 {
        assert_eq!(c.tick(false), Ok(false));
    }
    assert_eq!(c.v[0], 15);
    assert_eq!(c.v[0xF], 0);
    assert_eq!(c.pc, 0x206);
}

#[test]
fn key_wait_retries_until_key_held() {
    // A program of just the key-wait into V0.
    let bytes: Vec<u8> = vec![0xF0, 0x0A];
    let rom = Rom::new(&bytes);
    let mut c = Chip8::default();
    c.reset();
    c.load(&rom, 2);
    for _ in 0..5 {
        assert_eq!(c.tick(false), Ok(false));
        assert_eq!(c.pc, 0x200);
    }
    assert_eq!(c.v[0], 0);
    c.key[3] = true;
    assert_eq!(c.tick(false), Ok(false));
    assert_eq!(c.v[0], 3);
    assert_eq!(c.pc, 0x202);
}

#[test]
fn random_mask_of_zero_through_tick() {
    // RND V0 with mask 0: whatever byte the generator hands back, the
    // register must end up zero.
    let bytes: Vec<u8> = vec![0xC0, 0x00];
    let rom = Rom::new(&bytes);
    let mut c = Chip8::default();
    c.reset();
    c.load(&rom, 2);
    c.v[0] = 0x5A;
    assert_eq!(c.tick(false), Ok(false));
    assert_eq!(c.v[0], 0);
    assert_eq!(c.pc, 0x202);
}

#[test]
fn timers_count_down_only_on_pulse_and_beep_fires_once() {
    // Set the sound timer and the delay timer to two, then spin on a jump.
    let bytes: Vec<u8> = vec![0x62, 0x02, 0xF2, 0x15, 0xF2, 0x18, 0x12, 0x06];
    let rom = Rom::new(&bytes);
    let mut c = Chip8::default();
    c.reset();
    c.load(&rom, 8);
    assert_eq!(c.tick(false), Ok(false));
    assert_eq!(c.tick(false), Ok(false));
    assert_eq!(c.tick(false), Ok(false));
    assert_eq!(c.dt, 2);
    assert_eq!(c.st, 2);
    // Without a pulse nothing counts down.
    assert_eq!(c.tick(false), Ok(false));
    assert_eq!(c.dt, 2);
    // The first pulse steps both timers; the audible event fires exactly
    // when the sound timer steps from one to zero.
    assert_eq!(c.tick(true), Ok(false));
    assert_eq!(c.dt, 1);
    assert_eq!(c.st, 1);
    assert_eq!(c.tick(true), Ok(true));
    assert_eq!(c.dt, 0);
    assert_eq!(c.st, 0);
    assert_eq!(c.tick(true), Ok(false));
    assert_eq!(c.dt, 0);
    assert_eq!(c.st, 0);
}

#[test]
fn decode_error_aborts_cycle_without_mutation() {
    let bytes: Vec<u8> = vec![0xF0, 0x66];
    let rom = Rom::new(&bytes);
    let mut c = Chip8::default();
    c.reset();
    c.load(&rom, 2);
    assert_eq!(
        c.tick(false),
        Err(Chip8Error::DecodeFailure { opcode: 0xF066, pc: 0x200 })
    );
    assert_eq!(c.pc, 0x200);
}

#[test]
fn native_call_error_through_tick() {
    let bytes: Vec<u8> = vec![0x02, 0x34];
    let rom = Rom::new(&bytes);
    let mut c = Chip8::default();
    c.reset();
    c.load(&rom, 2);
    assert_eq!(
        c.tick(false),
        Err(Chip8Error::UnsupportedHostOperation { opcode: 0x0234, pc: 0x200 })
    );
    assert_eq!(c.pc, 0x200);
}

#[test]
fn exec_error_leaves_machine_untouched() {
    // A return with an empty stack, reached through a full cycle.
    let bytes: Vec<u8> = vec![0x00, 0xEE];
    let rom = Rom::new(&bytes);
    let mut c = Chip8::default();
    c.reset();
    c.load(&rom, 2);
    assert_eq!(c.tick(false), Err(Chip8Error::StackUnderflow));
    assert_eq!(c.pc, 0x200);
    assert_eq!(c.sp, 0);
}

#[test]
fn fetch_out_of_bounds() {
    let mut c = Chip8::default();
    c.reset();
    c.pc = 4095;
    assert_eq!(c.tick(false), Err(Chip8Error::OutOfBoundsAddress));
    assert_eq!(c.pc, 4095);
}

#[test]
fn skip_moves_past_one_instruction() {
    // V0 := 7; skip if V0 == 7 (it does); the skipped slot would load
    // V1 := 0xFF; then V1 := 1.
    let bytes: Vec<u8> = vec![0x60, 0x07, 0x30, 0x07, 0x61, 0xFF, 0x61, 0x01];
    let rom = Rom::new(&bytes);
    let mut c = Chip8::default();
    c.reset();
    c.load(&rom, 8);
    assert_eq!(c.tick(false), Ok(false));
    assert_eq!(c.tick(false), Ok(false));
    assert_eq!(c.pc, 0x206);
    assert_eq!(c.tick(false), Ok(false));
    assert_eq!(c.v[1], 1);
}

#[test]
fn call_and_return_through_ticks() {
    // Call the subroutine at 0x206; it sets V3 := 9 and returns; the main
    // line then sets V4 := 8.
    let bytes: Vec<u8> = vec![
        0x22, 0x06, // 0x200: call 0x206
        0x64, 0x08, // 0x202: V4 := 8
        0x12, 0x04, // 0x204: spin
        0x63, 0x09, // 0x206: V3 := 9
        0x00, 0xEE, // 0x208: return
    ];
    let rom = Rom::new(&bytes);
    let mut c = Chip8::default();
    c.reset();
    c.load(&rom, 10);
    assert_eq!(c.tick(false), Ok(false));
    assert_eq!(c.pc, 0x206);
    assert_eq!(c.sp, 1);
    assert_eq!(c.tick(false), Ok(false));
    assert_eq!(c.v[3], 9);
    assert_eq!(c.tick(false), Ok(false));
    assert_eq!(c.pc, 0x202);
    assert_eq!(c.sp, 0);
    assert_eq!(c.tick(false), Ok(false));
    assert_eq!(c.v[4], 8);
    assert_eq!(c.pc, 0x204);
}
