//! The execution engine: memory, registers, timers, call stack, the
//! instruction set, and the per-step scheduling decisions.

use vstd::prelude::*;
use crate::display::{Display, COLS, ROWS, NUM_OF_BLOCKS, block_index, lemma_block_coords, lemma_index_split};
use crate::keyboard::{Keyboard, KeyboardView, KeyEvent, NUM_KEYS, drain_pressed, next_key};

verus! {

/// Size of the address space in bytes.
pub const MEMORY_SIZE: usize = 4096;

/// Address at which programs are loaded.
pub const PROGRAM_START: usize = 0x200;

/// Number of general-purpose registers.
pub const NUM_REGISTERS: usize = 16;

/// Index of the flag register VF.
pub const FLAG: usize = 0xF;

/// Length of one frame in milliseconds (60 frames per second).
pub const FRAME_MS: u64 = 16;

/// Target instruction rate in instructions per second.
pub const CLOCK_HZ: u64 = 700;

/// Instructions executed per frame: `CLOCK_HZ * FRAME_MS / 1000`, rounded down.
pub const CYCLES_PER_FRAME: u16 = 11;

/// The number of instructions per frame follows from the clock rate and
/// the frame length.
pub proof fn lemma_cycles_per_frame()
    ensures
        CYCLES_PER_FRAME == CLOCK_HZ * FRAME_MS / 1000,
{
}

/// Number of bytes of built-in font data.
pub const FONT_LEN: usize = 0x50;

/// The built-in font: one five-byte glyph for each hex digit 0 to F.
pub open spec fn spec_font() -> Seq<u8> {
    seq![
        0xF0u8, 0x90, 0x90, 0x90, 0xF0, 0x20, 0x60, 0x20, 0x20, 0x70,
        0xF0, 0x10, 0xF0, 0x80, 0xF0, 0xF0, 0x10, 0xF0, 0x10, 0xF0,
        0x90, 0x90, 0xF0, 0x10, 0x10, 0xF0, 0x80, 0xF0, 0x10, 0xF0,
        0xF0, 0x80, 0xF0, 0x90, 0xF0, 0xF0, 0x10, 0x20, 0x40, 0x40,
        0xF0, 0x90, 0xF0, 0x90, 0xF0, 0xF0, 0x90, 0xF0, 0x10, 0xF0,
        0xF0, 0x90, 0xF0, 0x90, 0x90, 0xE0, 0x90, 0xE0, 0x90, 0xE0,
        0xF0, 0x80, 0x80, 0x80, 0xF0, 0xE0, 0x90, 0x90, 0x90, 0xE0,
        0xF0, 0x80, 0xF0, 0x80, 0xF0, 0xF0, 0x80, 0xF0, 0x80, 0x80
    ]
}

fn font_bytes() -> (r: Vec<u8>)
    ensures
        r@ == spec_font(),
{
    let r = vec![
        0xF0u8, 0x90, 0x90, 0x90, 0xF0, 0x20, 0x60, 0x20, 0x20, 0x70,
        0xF0, 0x10, 0xF0, 0x80, 0xF0, 0xF0, 0x10, 0xF0, 0x10, 0xF0,
        0x90, 0x90, 0xF0, 0x10, 0x10, 0xF0, 0x80, 0xF0, 0x10, 0xF0,
        0xF0, 0x80, 0xF0, 0x90, 0xF0, 0xF0, 0x10, 0x20, 0x40, 0x40,
        0xF0, 0x90, 0xF0, 0x90, 0xF0, 0xF0, 0x90, 0xF0, 0x10, 0xF0,
        0xF0, 0x90, 0xF0, 0x90, 0x90, 0xE0, 0x90, 0xE0, 0x90, 0xE0,
        0xF0, 0x80, 0x80, 0x80, 0xF0, 0xE0, 0x90, 0x90, 0x90, 0xE0,
        0xF0, 0x80, 0xF0, 0x80, 0xF0, 0xF0, 0x80, 0xF0, 0x80, 0x80
    ];
    assert(r@ =~= spec_font());
    r
}

/// A fatal condition of the machine or of loading a program.
#[derive(Clone, Copy, Debug, PartialEq, Eq, Structural)]
pub enum CpuError {
    /// The opcode is not in the instruction table.
    UnknownOpcode(u16),
    /// A return was executed with an empty call stack.
    StackUnderflow,
    /// An instruction addressed memory past its end.
    MemoryOutOfBounds,
    /// The program does not fit in memory after the program start.
    RomTooLarge,
}

/// A pending wait for a key press.
#[derive(Clone, Copy, Debug, PartialEq, Eq, Structural)]
pub struct NextKeyParams {
    /// Register that receives the key.
    pub destination_idx: usize,
    /// Only presses at or after this time (milliseconds) end the wait.
    pub valid_after: u64,
}

/// The abstract state of the machine.
pub ghost struct CpuView {
    pub memory: Seq<u8>,
    pub v: Seq<u8>,
    pub i: u16,
    pub delay_timer: u8,
    pub sound_timer: u8,
    pub pc: u16,
    pub stack: Seq<u16>,
    pub paused: bool,
    pub should_quit: bool,
    pub speed: u16,
    pub next_key_params: Option<NextKeyParams>,
    pub display: Seq<bool>,
    pub keyboard: KeyboardView,
}

impl CpuView {
    pub open spec fn wf(self) -> bool {
        &&& self.memory.len() == MEMORY_SIZE
        &&& self.v.len() == NUM_REGISTERS
        &&& self.display.len() == NUM_OF_BLOCKS
        &&& self.keyboard.wf()
        &&& self.next_key_params matches Some(p) ==> p.destination_idx < NUM_REGISTERS
    }
}

/// The machine.
pub struct Cpu {
    memory: Vec<u8>,
    v: Vec<u8>,
    i: u16,
    delay_timer: u8,
    sound_timer: u8,
    pc: u16,
    stack: Vec<u16>,
    paused: bool,
    should_quit: bool,
    speed: u16,
    next_key_params: Option<NextKeyParams>,
    display: Display,
    keyboard: Keyboard,
}

impl View for Cpu {
    type V = CpuView;

    closed spec fn view(&self) -> CpuView {
        CpuView {
            memory: self.memory@,
            v: self.v@,
            i: self.i,
            delay_timer: self.delay_timer,
            sound_timer: self.sound_timer,
            pc: self.pc,
            stack: self.stack@,
            paused: self.paused,
            should_quit: self.should_quit,
            speed: self.speed,
            next_key_params: self.next_key_params,
            display: self.display@,
            keyboard: self.keyboard@,
        }
    }
}

/// `mem` with `bytes` written from address `start` on.
pub open spec fn write_bytes(mem: Seq<u8>, start: int, bytes: Seq<u8>) -> Seq<u8> {
    Seq::new(
        mem.len(),
        |k: int| if start <= k < start + bytes.len() { bytes[k - start] } else { mem[k] },
    )
}

/// One delay or sound timer after a frame: one less, but never below zero.
pub open spec fn tick(t: u8) -> u8 {
    if t > 0 { (t - 1) as u8 } else { 0 }
}

/// Bit `col` of a sprite row, counting from the most significant bit.
pub open spec fn sprite_bit(byte: u8, col: int) -> bool {
    (byte >> ((7 - col) as u8)) & 1u8 == 1u8
}

/// Whether the `n`-row sprite read from `mem[i..]` and placed at
/// `(xs, ys)` has a set bit over pixel `(px, py)`.
pub open spec fn sprite_pixel(mem: Seq<u8>, i: int, n: int, xs: int, ys: int, px: int, py: int) -> bool {
    &&& xs <= px < xs + 8
    &&& ys <= py < ys + n
    &&& sprite_bit(mem[i + (py - ys)], px - xs)
}

/// Whether the sprite has a set bit over the pixel of index `k`.
pub open spec fn sprite_at(mem: Seq<u8>, i: int, n: int, xs: int, ys: int, k: int) -> bool {
    sprite_pixel(mem, i, n, xs, ys, k % (COLS as int), k / (COLS as int))
}

/// The display after XOR-ing the sprite onto it; the parts of the sprite
/// past the right or bottom edge are cut off.
pub open spec fn blit(d: Seq<bool>, mem: Seq<u8>, i: int, n: int, xs: int, ys: int) -> Seq<bool> {
    Seq::new(d.len(), |k: int| d[k] != sprite_at(mem, i, n, xs, ys, k))
}

/// Whether XOR-ing the sprite onto the display turns some pixel off.
pub open spec fn blit_collides(d: Seq<bool>, mem: Seq<u8>, i: int, n: int, xs: int, ys: int) -> bool {
    exists|k: int| 0 <= k < d.len() && #[trigger] d[k] && sprite_at(mem, i, n, xs, ys, k)
}

/// Number of sprite rows that fall on the grid when drawing `n` rows from row `ys`.
pub open spec fn visible_rows(n: int, ys: int) -> int {
    if n < ROWS - ys { n } else { ROWS - ys }
}

/// Pixel `k` lies before column `col` of sprite row `row`, in drawing order.
spec fn drawn_before(k: int, xs: int, ys: int, row: int, col: int) -> bool {
    let px = k % (COLS as int);
    let py = k / (COLS as int);
    py - ys < row || (py - ys == row && px - xs < col)
}

/// The instruction family: the top nibble of the opcode.
pub open spec fn op_family(op: u16) -> u16 {
    op >> 12u16
}

/// The first register operand: bits 8 to 11.
pub open spec fn op_x(op: u16) -> int {
    ((op & 0x0F00u16) >> 8u16) as int
}

/// The second register operand: bits 4 to 7.
pub open spec fn op_y(op: u16) -> int {
    ((op & 0x00F0u16) >> 4u16) as int
}

/// The bottom nibble.
pub open spec fn op_n(op: u16) -> u16 {
    op & 0x000Fu16
}

/// The bottom byte.
pub open spec fn op_kk(op: u16) -> u8 {
    (op & 0x00FFu16) as u8
}

/// The bottom twelve bits: an address.
pub open spec fn op_nnn(op: u16) -> u16 {
    op & 0x0FFFu16
}

/// The fields of an opcode lie in their ranges.
pub proof fn lemma_decode(op: u16)
    ensures
        op_family(op) < 16,
        0 <= op_x(op) < 16,
        0 <= op_y(op) < 16,
        op_n(op) < 16,
        op_nnn(op) < 0x1000,
        (op & 0x00FFu16) < 0x100,
{
    assert(op >> 12u16 < 16u16) by (bit_vector);
    assert((op & 0x0F00u16) >> 8u16 < 16u16) by (bit_vector);
    assert((op & 0x00F0u16) >> 4u16 < 16u16) by (bit_vector);
    assert(op & 0x000Fu16 < 16u16) by (bit_vector);
    assert(op & 0x0FFFu16 < 0x1000u16) by (bit_vector);
    assert(op & 0x00FFu16 < 0x100u16) by (bit_vector);
}

/// `a - b` wrapped into eight bits.
pub open spec fn wrap_sub(a: u8, b: u8) -> u8 {
    ((a - b + 256) % 256) as u8
}

/// The registers after the arithmetic and logic instruction `8xyn`, or
/// `None` where `n` names no such instruction. Where an instruction sets
/// the flag register before writing `Vx`, the write to `Vx` reads the
/// registers as they are after the flag was set.
pub open spec fn alu(v: Seq<u8>, x: int, y: int, n: u16) -> Option<Seq<u8>> {
    let vx = v[x];
    let vy = v[y];
    if n == 0x0 {
        Some(v.update(x, vy))
    } else if n == 0x1 {
        Some(v.update(x, vx | vy))
    } else if n == 0x2 {
        Some(v.update(x, vx & vy))
    } else if n == 0x3 {
        Some(v.update(x, vx ^ vy))
    } else if n == 0x4 {
        let sum = vx + vy;
        Some(v.update(x, (sum % 256) as u8).update(FLAG as int, if sum > 255 { 1u8 } else { 0u8 }))
    } else if n == 0x5 {
        let v1 = v.update(FLAG as int, if vx > vy { 1u8 } else { 0u8 });
        Some(v1.update(x, wrap_sub(v1[x], v1[y])))
    } else if n == 0x6 {
        let v1 = v.update(FLAG as int, vx % 2);
        Some(v1.update(x, v1[x] / 2))
    } else if n == 0x7 {
        let v1 = v.update(FLAG as int, if vy > vx { 1u8 } else { 0u8 });
        Some(v1.update(x, wrap_sub(v1[y], v1[x])))
    } else if n == 0xE {
        let v1 = v.update(FLAG as int, if vx >= 128 { 0x80u8 } else { 0u8 });
        Some(v1.update(x, ((v1[x] * 2) % 256) as u8))
    } else {
        None
    }
}

/// The state after an `Fxkk` instruction; `s1` is the state with the
/// program counter already advanced.
pub open spec fn exec_misc(s: CpuView, s1: CpuView, op: u16, now: u64) -> Result<CpuView, CpuError> {
    let x = op_x(op);
    let vx = s.v[x];
    let kk = op_kk(op);
    if kk == 0x07 {
        Ok(CpuView { v: s.v.update(x, s.delay_timer), ..s1 })
    } else if kk == 0x0A {
        Ok(CpuView {
            next_key_params: Some(NextKeyParams { destination_idx: x as usize, valid_after: now }),
            paused: true,
            ..s1
        })
    } else if kk == 0x15 {
        Ok(CpuView { delay_timer: vx, ..s1 })
    } else if kk == 0x18 {
        Ok(CpuView { sound_timer: vx, ..s1 })
    } else if kk == 0x1E {
        Ok(CpuView { i: ((s.i + vx) % 0x10000) as u16, ..s1 })
    } else if kk == 0x29 {
        Ok(CpuView { i: (vx * 5) as u16, ..s1 })
    } else if kk == 0x33 {
        if s.i + 2 >= MEMORY_SIZE {
            Err(CpuError::MemoryOutOfBounds)
        } else {
            Ok(CpuView {
                memory: s.memory.update(s.i as int, vx / 100).update(s.i + 1, (vx % 100) / 10).update(
                    s.i + 2,
                    vx % 10,
                ),
                ..s1
            })
        }
    } else if kk == 0x55 {
        if s.i + x >= MEMORY_SIZE {
            Err(CpuError::MemoryOutOfBounds)
        } else {
            Ok(CpuView { memory: write_bytes(s.memory, s.i as int, s.v.subrange(0, x + 1)), ..s1 })
        }
    } else if kk == 0x65 {
        if s.i + x >= MEMORY_SIZE {
            Err(CpuError::MemoryOutOfBounds)
        } else {
            Ok(CpuView { v: write_bytes(s.v, 0, s.memory.subrange(s.i as int, s.i + x + 1)), ..s1 })
        }
    } else {
        Err(CpuError::UnknownOpcode(op))
    }
}

/// The state after executing opcode `op` in state `s`, at time `now`, with
/// `rnd` as the random byte; or the fatal error it raises.
pub open spec fn exec_spec(s: CpuView, op: u16, now: u64, rnd: u8) -> Result<CpuView, CpuError> {
    let x = op_x(op);
    let y = op_y(op);
    let vx = s.v[x];
    let vy = s.v[y];
    let kk = op_kk(op);
    let nnn = op_nnn(op);
    let next = (s.pc + 2) as u16;
    let s1 = CpuView { pc: next, ..s };
    let skip = CpuView { pc: (s.pc + 4) as u16, ..s };
    let f = op_family(op);
    if f == 0x0 {
        if op == 0x00E0 {
            Ok(CpuView { display: Seq::new(NUM_OF_BLOCKS as nat, |k: int| false), ..s1 })
        } else if op == 0x00EE {
            if s.stack.len() == 0 {
                Err(CpuError::StackUnderflow)
            } else {
                Ok(CpuView { pc: s.stack.last(), stack: s.stack.drop_last(), ..s1 })
            }
        } else {
            Ok(s1)
        }
    } else if f == 0x1 {
        Ok(CpuView { pc: nnn, ..s1 })
    } else if f == 0x2 {
        Ok(CpuView { pc: nnn, stack: s.stack.push(next), ..s1 })
    } else if f == 0x3 {
        Ok(if vx == kk { skip } else { s1 })
    } else if f == 0x4 {
        Ok(if vx != kk { skip } else { s1 })
    } else if f == 0x5 {
        Ok(if vx == vy { skip } else { s1 })
    } else if f == 0x6 {
        Ok(CpuView { v: s.v.update(x, kk), ..s1 })
    } else if f == 0x7 {
        Ok(CpuView { v: s.v.update(x, ((vx + kk) % 256) as u8), ..s1 })
    } else if f == 0x8 {
        match alu(s.v, x, y, op_n(op)) {
            Some(v2) => Ok(CpuView { v: v2, ..s1 }),
            None => Err(CpuError::UnknownOpcode(op)),
        }
    } else if f == 0x9 {
        Ok(if vx != vy { skip } else { s1 })
    } else if f == 0xA {
        Ok(CpuView { i: nnn, ..s1 })
    } else if f == 0xB {
        Ok(CpuView { pc: (nnn + s.v[0]) as u16, ..s1 })
    } else if f == 0xC {
        Ok(CpuView { v: s.v.update(x, rnd & kk), ..s1 })
    } else if f == 0xD {
        let xs = (vx % 64) as int;
        let ys = (vy % 32) as int;
        let n = op_n(op) as int;
        if visible_rows(n, ys) > 0 && s.i + visible_rows(n, ys) > MEMORY_SIZE {
            Err(CpuError::MemoryOutOfBounds)
        } else {
            Ok(CpuView {
                display: blit(s.display, s.memory, s.i as int, n, xs, ys),
                v: s.v.update(
                    FLAG as int,
                    if blit_collides(s.display, s.memory, s.i as int, n, xs, ys) { 1u8 } else { 0u8 },
                ),
                ..s1
            })
        }
    } else if f == 0xE {
        if kk == 0x9E {
            Ok(if s.keyboard.held(vx, now) { skip } else { s1 })
        } else if kk == 0xA1 {
            Ok(if !s.keyboard.held(vx, now) { skip } else { s1 })
        } else {
            Err(CpuError::UnknownOpcode(op))
        }
    } else {
        exec_misc(s, s1, op, now)
    }
}

/// The machine moved from `before` to `after` with result `r` as
/// `expected` says: on success to its state, on error to nowhere.
pub open spec fn ends_as(
    before: CpuView,
    expected: Result<CpuView, CpuError>,
    after: CpuView,
    r: Result<(), CpuError>,
) -> bool {
    match expected {
        Ok(s) => r == Ok::<(), CpuError>(()) && after == s,
        Err(e) => r == Err::<(), CpuError>(e) && after == before,
    }
}

/// The state after trying to end a pending wait for a key: a key found
/// ends the wait, goes to the destination register and resumes the
/// machine, unless the quit flag or the pause toggle is on by then.
pub open spec fn resolve_wait(s: CpuView) -> CpuView {
    match s.next_key_params {
        Some(p) => {
            let found = next_key(s.keyboard, p.valid_after);
            let kb = found.0;
            let s1 = CpuView { keyboard: kb, ..s };
            match found.1 {
                Some(val) => if kb.esc_pressed || kb.pause_toggle_on {
                    s1
                } else {
                    CpuView {
                        v: s.v.update(p.destination_idx as int, val),
                        paused: false,
                        next_key_params: None,
                        ..s1
                    }
                },
                None => s1,
            }
        },
        None => s,
    }
}

/// The state after the input part of a step: resolve a pending wait, or
/// else drain key presses and resume a pause whose toggle went off; then
/// quit on the quit key, or pause while the toggle is on.
pub open spec fn before_fetch(s: CpuView) -> CpuView {
    let s1 = if s.next_key_params is Some {
        resolve_wait(s)
    } else {
        let kb = drain_pressed(s.keyboard);
        CpuView { keyboard: kb, paused: s.paused && kb.pause_toggle_on, ..s }
    };
    if s1.keyboard.esc_pressed {
        CpuView { should_quit: true, ..s1 }
    } else if s1.keyboard.pause_toggle_on {
        CpuView { paused: true, ..s1 }
    } else {
        s1
    }
}

/// The big-endian opcode stored at `pc`.
pub open spec fn fetch(mem: Seq<u8>, pc: int) -> u16 {
    (mem[pc] * 256 + mem[pc + 1]) as u16
}

/// The state and result of one scheduling step at time `now`, with `rnd`
/// as the random byte: the input part, then, unless the machine quits or
/// is paused, fetching and executing one instruction.
pub open spec fn step_spec(s: CpuView, now: u64, rnd: u8) -> (CpuView, Result<(), CpuError>) {
    let s2 = before_fetch(s);
    if s2.keyboard.esc_pressed || s2.paused {
        (s2, Ok(()))
    } else if s2.pc + 1 >= MEMORY_SIZE {
        (s2, Err(CpuError::MemoryOutOfBounds))
    } else {
        match exec_spec(s2, fetch(s2.memory, s2.pc as int), now, rnd) {
            Ok(s3) => (s3, Ok(())),
            Err(e) => (s2, Err(e)),
        }
    }
}

/// Relies on rand's `thread_rng` and `Rng::gen_range` over `0..=0xFF`: a
/// uniformly drawn byte. Any byte may come back.
#[verifier::external_body]
fn random_byte() -> (r: u8) {
    rand::Rng::gen_range(&mut rand::thread_rng(), 0..=0xFFu8)
}

fn zeroed(n: usize) -> (r: Vec<u8>)
    ensures
        r@ == Seq::new(n as nat, |k: int| 0u8),
{
    let mut r: Vec<u8> = Vec::new();
    let mut k: usize = 0;
    while k < n
        invariant
            k <= n,
            r@ =~= Seq::new(k as nat, |j: int| 0u8),
        decreases n - k,
    {
        r.push(0);
        k = k + 1;
    }
    r
}

impl Cpu {
    pub open spec fn wf(&self) -> bool {
        self@.wf()
    }

    /// A machine with zeroed memory, registers, timers and index, an empty
    /// stack, the program counter at the program start, running.
    pub fn new(display: Display, keyboard: Keyboard) -> (r: Cpu)
        requires
            display.wf(),
            keyboard.wf(),
        ensures
            r.wf(),
            r@ == (CpuView {
                memory: Seq::new(MEMORY_SIZE as nat, |k: int| 0u8),
                v: Seq::new(NUM_REGISTERS as nat, |k: int| 0u8),
                i: 0,
                delay_timer: 0,
                sound_timer: 0,
                pc: PROGRAM_START as u16,
                stack: Seq::empty(),
                paused: false,
                should_quit: false,
                speed: CYCLES_PER_FRAME,
                next_key_params: None,
                display: display@,
                keyboard: keyboard@,
            }),
    {
        let r = Cpu {
            memory: zeroed(MEMORY_SIZE),
            v: zeroed(NUM_REGISTERS),
            i: 0,
            delay_timer: 0,
            sound_timer: 0,
            pc: PROGRAM_START as u16,
            stack: Vec::new(),
            paused: false,
            should_quit: false,
            speed: CYCLES_PER_FRAME,
            next_key_params: None,
            display,
            keyboard,
        };
        assert(r@.stack =~= Seq::empty());
        r
    }

    /// Writes `bytes` into memory from address `start` on.
    fn write_memory(&mut self, start: usize, bytes: &Vec<u8>)
        requires
            old(self).wf(),
            start + bytes@.len() <= MEMORY_SIZE,
        ensures
            final(self)@ == (CpuView {
                memory: write_bytes(old(self)@.memory, start as int, bytes@),
                ..old(self)@
            }),
    {
        let ghost mem0 = self.memory@;
        let mut k: usize = 0;
        while k < bytes.len()
            invariant
                k <= bytes@.len(),
                start + bytes@.len() <= MEMORY_SIZE,
                self@ == (CpuView { memory: self.memory@, ..old(self)@ }),
                self.memory@.len() == MEMORY_SIZE,
                mem0 == old(self)@.memory,
                forall|j: int| 0 <= j < MEMORY_SIZE ==> #[trigger] self.memory@[j]
                    == if start <= j < start + k { bytes@[j - start] } else { mem0[j] },
            decreases bytes@.len() - k,
        {
            self.memory.set(start + k, bytes[k]);
            k = k + 1;
        }
        assert(self.memory@ =~= write_bytes(mem0, start as int, bytes@));
    }

    /// Writes the built-in font at address 0.
    pub fn read_sprites_into_memory(&mut self)
        requires
            old(self).wf(),
        ensures
            final(self).wf(),
            final(self)@ == (CpuView {
                memory: write_bytes(old(self)@.memory, 0, spec_font()),
                ..old(self)@
            }),
    {
        let font = font_bytes();
        self.write_memory(0, &font);
    }

    /// Copies a program into memory at the program start; fails, changing
    /// nothing, when it does not fit.
    pub fn load_rom(&mut self, rom: &Vec<u8>) -> (r: Result<(), CpuError>)
        requires
            old(self).wf(),
        ensures
            final(self).wf(),
            PROGRAM_START + rom@.len() > MEMORY_SIZE ==> r == Err::<(), CpuError>(CpuError::RomTooLarge)
                && final(self)@ == old(self)@,
            PROGRAM_START + rom@.len() <= MEMORY_SIZE ==> r is Ok && final(self)@ == (CpuView {
                memory: write_bytes(old(self)@.memory, PROGRAM_START as int, rom@),
                ..old(self)@
            }),
    {
        if rom.len() > MEMORY_SIZE - PROGRAM_START {
            return Err(CpuError::RomTooLarge);
        }
        self.write_memory(PROGRAM_START, rom);
        Ok(())
    }

    /// XORs the `n`-row sprite at the index register onto the display at
    /// `(xs, ys)`, clipped at the edges, and reports whether a pixel went off.
    fn draw_sprite(&mut self, xs: u16, ys: u16, n: u16) -> (collided: bool)
        requires
            old(self).wf(),
            xs < COLS,
            ys < ROWS,
            n < 16,
            visible_rows(n as int, ys as int) == 0
                || old(self)@.i + visible_rows(n as int, ys as int) <= MEMORY_SIZE,
        ensures
            final(self)@ == (CpuView {
                display: blit(old(self)@.display, old(self)@.memory, old(self)@.i as int, n as int, xs as int, ys as int),
                ..old(self)@
            }),
            collided == blit_collides(old(self)@.display, old(self)@.memory, old(self)@.i as int, n as int, xs as int, ys as int),
    {
        let ghost d0 = self@.display;
        let ghost mem = self@.memory;
        let ghost i0 = self@.i as int;
        let rows: u16 = if n < ROWS as u16 - ys { n } else { ROWS as u16 - ys };
        let cols: u16 = if 8 < COLS as u16 - xs { 8 } else { COLS as u16 - xs };
        let start = self.i as usize;
        let mut collided = false;
        let mut row: u16 = 0;
        while row < rows
            invariant
                self.wf(),
                row <= rows,
                rows == visible_rows(n as int, ys as int),
                cols == if 8 < COLS - xs { 8 } else { COLS - xs },
                xs < COLS, ys < ROWS, n < 16,
                start == i0,
                rows == 0 || i0 + rows <= MEMORY_SIZE,
                d0 == old(self)@.display,
                mem == old(self)@.memory,
                i0 == old(self)@.i,
                self@ == (CpuView { display: self@.display, ..old(self)@ }),
                forall|k: int| 0 <= k < NUM_OF_BLOCKS ==> #[trigger] self@.display[k]
                    == (d0[k] != (sprite_at(mem, i0, n as int, xs as int, ys as int, k)
                        && drawn_before(k, xs as int, ys as int, row as int, 0))),
                collided == exists|k: int| 0 <= k < NUM_OF_BLOCKS && #[trigger] d0[k]
                    && sprite_at(mem, i0, n as int, xs as int, ys as int, k)
                    && drawn_before(k, xs as int, ys as int, row as int, 0),
            decreases rows - row,
        {
            let byte = self.memory[start + row as usize];
            let mut col: u16 = 0;
            while col < cols
                invariant
                    self.wf(),
                    row < rows,
                    col <= cols,
                    rows == visible_rows(n as int, ys as int),
                    cols == if 8 < COLS - xs { 8 } else { COLS - xs },
                    xs < COLS, ys < ROWS, n < 16,
                    start == i0,
                    rows == 0 || i0 + rows <= MEMORY_SIZE,
                    byte == mem[i0 + row],
                    d0 == old(self)@.display,
                    mem == old(self)@.memory,
                    i0 == old(self)@.i,
                    self@ == (CpuView { display: self@.display, ..old(self)@ }),
                    forall|k: int| 0 <= k < NUM_OF_BLOCKS ==> #[trigger] self@.display[k]
                        == (d0[k] != (sprite_at(mem, i0, n as int, xs as int, ys as int, k)
                            && drawn_before(k, xs as int, ys as int, row as int, col as int))),
                    collided == exists|k: int| 0 <= k < NUM_OF_BLOCKS && #[trigger] d0[k]
                        && sprite_at(mem, i0, n as int, xs as int, ys as int, k)
                        && drawn_before(k, xs as int, ys as int, row as int, col as int),
                decreases cols - col,
            {
                let px = xs + col;
                let py = ys + row;
                let ghost k0 = block_index(px as int, py as int);
                proof {
                    lemma_block_coords(px as int, py as int);
                    assert forall|k: int| 0 <= k < NUM_OF_BLOCKS && k != k0 implies
                        (drawn_before(k, xs as int, ys as int, row as int, col as int + 1)
                            == drawn_before(k, xs as int, ys as int, row as int, col as int)) by {
                        lemma_index_split(k);
                    }
                }
                let ghost before = self@.display;
                let bit = (byte >> ((7 - col) as u8)) & 1u8;
                assert(sprite_at(mem, i0, n as int, xs as int, ys as int, k0) == (bit == 1u8));
                if bit == 1u8 {
                    let erased = self.display.set_block(px, py);
                    if erased {
                        collided = true;
                    }
                }
                proof {
                    let ghost now_col = col as int + 1;
                    assert(drawn_before(k0, xs as int, ys as int, row as int, now_col));
                    assert(!drawn_before(k0, xs as int, ys as int, row as int, col as int));
                    assert forall|k: int| 0 <= k < NUM_OF_BLOCKS implies #[trigger] self@.display[k]
                        == (d0[k] != (sprite_at(mem, i0, n as int, xs as int, ys as int, k)
                            && drawn_before(k, xs as int, ys as int, row as int, now_col))) by {
                        if k != k0 {
                            assert(self@.display[k] == before[k]);
                        }
                    }
                    let ghost hit = d0[k0] && sprite_at(mem, i0, n as int, xs as int, ys as int, k0);
                    if hit {
                        assert(d0[k0] && sprite_at(mem, i0, n as int, xs as int, ys as int, k0)
                            && drawn_before(k0, xs as int, ys as int, row as int, now_col));
                    }
                }
                col = col + 1;
            }
            proof {
                assert forall|k: int| 0 <= k < NUM_OF_BLOCKS implies
                    (sprite_at(mem, i0, n as int, xs as int, ys as int, k)
                        && drawn_before(k, xs as int, ys as int, row as int, cols as int))
                    == (sprite_at(mem, i0, n as int, xs as int, ys as int, k)
                        && drawn_before(k, xs as int, ys as int, row as int + 1, 0)) by {
                    lemma_index_split(k);
                }
            }
            row = row + 1;
        }
        proof {
            assert forall|k: int| 0 <= k < NUM_OF_BLOCKS implies
                (sprite_at(mem, i0, n as int, xs as int, ys as int, k)
                    && drawn_before(k, xs as int, ys as int, rows as int, 0))
                == sprite_at(mem, i0, n as int, xs as int, ys as int, k) by {
                lemma_index_split(k);
            }
            assert(self@.display =~= blit(d0, mem, i0, n as int, xs as int, ys as int));
        }
        collided
    }

    /// Applies the arithmetic and logic instruction `8xyn` to the registers.
    fn alu_op(&mut self, x: usize, y: usize, n: u16)
        requires
            old(self).wf(),
            x < NUM_REGISTERS,
            y < NUM_REGISTERS,
            alu(old(self)@.v, x as int, y as int, n) is Some,
        ensures
            final(self)@ == (CpuView { v: alu(old(self)@.v, x as int, y as int, n)->Some_0, ..old(self)@ }),
    {
        let vx = self.v[x];
        let vy = self.v[y];
        if n == 0x0 {
            self.v.set(x, vy);
        } else if n == 0x1 {
            self.v.set(x, vx | vy);
        } else if n == 0x2 {
            self.v.set(x, vx & vy);
        } else if n == 0x3 {
            self.v.set(x, vx ^ vy);
        } else if n == 0x4 {
            let sum: u16 = vx as u16 + vy as u16;
            self.v.set(x, (sum % 256) as u8);
            self.v.set(FLAG, if sum > 0xFF { 1 } else { 0 });
        } else if n == 0x5 {
            self.v.set(FLAG, if vx > vy { 1 } else { 0 });
            let a = self.v[x];
            let b = self.v[y];
            self.v.set(x, ((a as u16 + 256 - b as u16) % 256) as u8);
        } else if n == 0x6 {
            self.v.set(FLAG, vx % 2);
            let a = self.v[x];
            self.v.set(x, a / 2);
        } else if n == 0x7 {
            self.v.set(FLAG, if vy > vx { 1 } else { 0 });
            let a = self.v[x];
            let b = self.v[y];
            self.v.set(x, ((b as u16 + 256 - a as u16) % 256) as u8);
        } else {
            let msb = vx & 0x80;
            assert(msb == if vx >= 128 { 0x80u8 } else { 0u8 }) by (bit_vector)
                requires
                    msb == vx & 0x80u8,
            ;
            self.v.set(FLAG, msb);
            let a = self.v[x];
            self.v.set(x, ((a as u16 * 2) % 256) as u8);
        }
    }

    /// Copies `V0..=Vx` into memory from the index register on.
    fn store_registers(&mut self, x: usize)
        requires
            old(self).wf(),
            x < NUM_REGISTERS,
            old(self)@.i + x < MEMORY_SIZE,
        ensures
            final(self)@ == (CpuView {
                memory: write_bytes(old(self)@.memory, old(self)@.i as int, old(self)@.v.subrange(0, x + 1)),
                ..old(self)@
            }),
    {
        let start = self.i as usize;
        let ghost mem0 = self.memory@;
        let mut k: usize = 0;
        while k <= x
            invariant
                old(self).wf(),
                k <= x + 1,
                x < NUM_REGISTERS,
                start == old(self)@.i,
                start + x < MEMORY_SIZE,
                self@ == (CpuView { memory: self.memory@, ..old(self)@ }),
                self.memory@.len() == MEMORY_SIZE,
                mem0 == old(self)@.memory,
                forall|j: int| 0 <= j < MEMORY_SIZE ==> #[trigger] self.memory@[j]
                    == if start <= j < start + k { old(self)@.v[j - start] } else { mem0[j] },
            decreases x + 1 - k,
        {
            let b = self.v[k];
            self.memory.set(start + k, b);
            k = k + 1;
        }
        assert(self.memory@ =~= write_bytes(mem0, start as int, old(self)@.v.subrange(0, x + 1)));
    }

    /// Copies memory from the index register on into `V0..=Vx`.
    fn load_registers(&mut self, x: usize)
        requires
            old(self).wf(),
            x < NUM_REGISTERS,
            old(self)@.i + x < MEMORY_SIZE,
        ensures
            final(self)@ == (CpuView {
                v: write_bytes(old(self)@.v, 0, old(self)@.memory.subrange(old(self)@.i as int, old(self)@.i + x + 1)),
                ..old(self)@
            }),
    {
        let start = self.i as usize;
        let ghost v0 = self.v@;
        let mut k: usize = 0;
        while k <= x
            invariant
                old(self).wf(),
                k <= x + 1,
                x < NUM_REGISTERS,
                start == old(self)@.i,
                start + x < MEMORY_SIZE,
                self@ == (CpuView { v: self.v@, ..old(self)@ }),
                self.v@.len() == NUM_REGISTERS,
                v0 == old(self)@.v,
                forall|j: int| 0 <= j < NUM_REGISTERS ==> #[trigger] self.v@[j]
                    == if j < k { old(self)@.memory[start + j] } else { v0[j] },
            decreases x + 1 - k,
        {
            let b = self.memory[start + k];
            self.v.set(k, b);
            k = k + 1;
        }
        assert(self.v@ =~= write_bytes(v0, 0, old(self)@.memory.subrange(start as int, start + x + 1)));
    }

    /// Executes an `Fxkk` instruction.
    fn exec_misc_op(&mut self, opcode: u16, now: u64) -> (r: Result<(), CpuError>)
        requires
            old(self).wf(),
            old(self)@.pc < MEMORY_SIZE,
        ensures
            final(self).wf(),
            ends_as(
                old(self)@,
                exec_misc(old(self)@, CpuView { pc: (old(self)@.pc + 2) as u16, ..old(self)@ }, opcode, now),
                final(self)@,
                r,
            ),
    {
        proof { lemma_decode(opcode); }
        let x = ((opcode & 0x0F00) >> 8) as usize;
        let kk = (opcode & 0x00FF) as u8;
        let vx = self.v[x];
        let next = self.pc + 2;
        if kk == 0x07 {
            self.pc = next;
            self.v.set(x, self.delay_timer);
        } else if kk == 0x0A {
            self.pc = next;
            self.next_key_params = Some(NextKeyParams { destination_idx: x, valid_after: now });
            self.paused = true;
        } else if kk == 0x15 {
            self.pc = next;
            self.delay_timer = vx;
        } else if kk == 0x18 {
            self.pc = next;
            self.sound_timer = vx;
        } else if kk == 0x1E {
            self.pc = next;
            self.i = ((self.i as u32 + vx as u32) % 0x10000) as u16;
        } else if kk == 0x29 {
            self.pc = next;
            self.i = vx as u16 * 5;
        } else if kk == 0x33 {
            let idx = self.i as usize;
            if idx + 2 >= MEMORY_SIZE {
                return Err(CpuError::MemoryOutOfBounds);
            }
            self.pc = next;
            self.memory.set(idx, vx / 100);
            self.memory.set(idx + 1, (vx % 100) / 10);
            self.memory.set(idx + 2, vx % 10);
        } else if kk == 0x55 {
            if self.i as usize + x >= MEMORY_SIZE {
                return Err(CpuError::MemoryOutOfBounds);
            }
            self.pc = next;
            self.store_registers(x);
        } else if kk == 0x65 {
            if self.i as usize + x >= MEMORY_SIZE {
                return Err(CpuError::MemoryOutOfBounds);
            }
            self.pc = next;
            self.load_registers(x);
        } else {
            return Err(CpuError::UnknownOpcode(opcode));
        }
        Ok(())
    }

    /// Executes one opcode, with `now` as the current time and `rnd` as the
    /// random byte that `Cxkk` uses. On a fatal error nothing changes.
    pub fn exec_instruction_with(&mut self, opcode: u16, now: u64, rnd: u8) -> (r: Result<(), CpuError>)
        requires
            old(self).wf(),
            old(self)@.pc < MEMORY_SIZE,
        ensures
            final(self).wf(),
            ends_as(old(self)@, exec_spec(old(self)@, opcode, now, rnd), final(self)@, r),
    {
        proof { lemma_decode(opcode); }
        let x = ((opcode & 0x0F00) >> 8) as usize;
        let y = ((opcode & 0x00F0) >> 4) as usize;
        let kk = (opcode & 0x00FF) as u8;
        let nnn = opcode & 0x0FFF;
        let vx = self.v[x];
        let vy = self.v[y];
        let next = self.pc + 2;
        let family = opcode >> 12;
        if family == 0x0 {
            if opcode == 0x00E0 {
                self.pc = next;
                self.display.clear();
                assert(self@.display =~= Seq::new(NUM_OF_BLOCKS as nat, |k: int| false));
            } else if opcode == 0x00EE {
                match self.stack.pop() {
                    Some(addr) => {
                        self.pc = addr;
                    },
                    None => {
                        return Err(CpuError::StackUnderflow);
                    },
                }
            } else {
                self.pc = next;
            }
        } else if family == 0x1 {
            self.pc = nnn;
        } else if family == 0x2 {
            self.stack.push(next);
            self.pc = nnn;
        } else if family == 0x3 {
            self.pc = if vx == kk { next + 2 } else { next };
        } else if family == 0x4 {
            self.pc = if vx != kk { next + 2 } else { next };
        } else if family == 0x5 {
            self.pc = if vx == vy { next + 2 } else { next };
        } else if family == 0x6 {
            self.pc = next;
            self.v.set(x, kk);
        } else if family == 0x7 {
            self.pc = next;
            self.v.set(x, ((vx as u16 + kk as u16) % 256) as u8);
        } else if family == 0x8 {
            let n = opcode & 0x000F;
            if !(n <= 0x7 || n == 0xE) {
                return Err(CpuError::UnknownOpcode(opcode));
            }
            self.pc = next;
            self.alu_op(x, y, n);
        } else if family == 0x9 {
            self.pc = if vx != vy { next + 2 } else { next };
        } else if family == 0xA {
            self.pc = next;
            self.i = nnn;
        } else if family == 0xB {
            self.pc = nnn + self.v[0] as u16;
        } else if family == 0xC {
            self.pc = next;
            self.v.set(x, rnd & kk);
        } else if family == 0xD {
            let xs = vx as u16 % COLS as u16;
            let ys = vy as u16 % ROWS as u16;
            let n = opcode & 0x000F;
            let rows: u16 = if n < ROWS as u16 - ys { n } else { ROWS as u16 - ys };
            if rows > 0 && self.i as usize + rows as usize > MEMORY_SIZE {
                return Err(CpuError::MemoryOutOfBounds);
            }
            self.pc = next;
            let collided = self.draw_sprite(xs, ys, n);
            self.v.set(FLAG, if collided { 1 } else { 0 });
        } else if family == 0xE {
            if kk == 0x9E {
                let held = self.keyboard.is_key_pressed(vx, now);
                self.pc = if held { next + 2 } else { next };
            } else if kk == 0xA1 {
                let held = self.keyboard.is_key_pressed(vx, now);
                self.pc = if !held { next + 2 } else { next };
            } else {
                return Err(CpuError::UnknownOpcode(opcode));
            }
        } else {
            return self.exec_misc_op(opcode, now);
        }
        Ok(())
    }

    /// Executes one opcode at time `now`, drawing the random byte that
    /// `Cxkk` uses. On a fatal error nothing changes.
    pub fn exec_instruction(&mut self, opcode: u16, now: u64) -> (r: Result<(), CpuError>)
        requires
            old(self).wf(),
            old(self)@.pc < MEMORY_SIZE,
        ensures
            final(self).wf(),
            exists|rnd: u8| ends_as(old(self)@, #[trigger] exec_spec(old(self)@, opcode, now, rnd), final(self)@, r),
    {
        let rnd = if opcode >> 12 == 0xC { random_byte() } else { 0 };
        let r = self.exec_instruction_with(opcode, now, rnd);
        assert(ends_as(old(self)@, exec_spec(old(self)@, opcode, now, rnd), self@, r));
        r
    }

    /// Tries to end the pending wait for a key, as `resolve_wait` says.
    fn process_next_key(&mut self)
        requires
            old(self).wf(),
            old(self)@.next_key_params is Some,
        ensures
            final(self).wf(),
            final(self)@ == resolve_wait(old(self)@),
    {
        let params = match self.next_key_params {
            Some(p) => p,
            None => { return; },
        };
        match self.keyboard.get_next_key(params.valid_after) {
            Some(val) => {
                if self.keyboard.esc_pressed() || self.keyboard.pause_toggle_on() {
                    return;
                }
                self.v.set(params.destination_idx, val);
                self.paused = false;
                self.next_key_params = None;
            },
            None => {},
        }
    }

    /// One scheduling step at time `now`, as `step_spec` says for some
    /// random byte.
    pub fn step(&mut self, now: u64) -> (r: Result<(), CpuError>)
        requires
            old(self).wf(),
        ensures
            final(self).wf(),
            exists|rnd: u8| (final(self)@, r) == #[trigger] step_spec(old(self)@, now, rnd),
    {
        if self.next_key_params.is_some() {
            self.process_next_key();
        } else {
            self.keyboard.process_pressed_keys();
            if self.paused && !self.keyboard.pause_toggle_on() {
                self.paused = false;
            }
        }
        if self.keyboard.esc_pressed() {
            self.should_quit = true;
            assert(step_spec(old(self)@, now, 0).0 == self@);
            return Ok(());
        } else if self.keyboard.pause_toggle_on() {
            self.paused = true;
        }
        if self.paused {
            assert(step_spec(old(self)@, now, 0).0 == self@);
            return Ok(());
        }
        let pc = self.pc as usize;
        if pc + 1 >= MEMORY_SIZE {
            assert(step_spec(old(self)@, now, 0).0 == self@);
            return Err(CpuError::MemoryOutOfBounds);
        }
        let opcode = self.memory[pc] as u16 * 256 + self.memory[pc + 1] as u16;
        let ghost s2 = self@;
        assert(s2 == before_fetch(old(self)@));
        assert(opcode == fetch(s2.memory, s2.pc as int));
        let r = self.exec_instruction(opcode, now);
        let ghost rnd = choose|rnd: u8| ends_as(s2, #[trigger] exec_spec(s2, opcode, now, rnd), self@, r);
        assert((self@, r) == step_spec(old(self)@, now, rnd));
        r
    }

    /// Closes a frame: counts the timers down unless the machine is paused,
    /// and tells whether the key map is to be shown in place of the display.
    pub fn end_frame(&mut self) -> (show_key_map: bool)
        requires
            old(self).wf(),
        ensures
            final(self).wf(),
            old(self)@.paused ==> final(self)@ == old(self)@,
            !old(self)@.paused ==> final(self)@ == (CpuView {
                delay_timer: tick(old(self)@.delay_timer),
                sound_timer: tick(old(self)@.sound_timer),
                ..old(self)@
            }),
            show_key_map == old(self)@.keyboard.pause_toggle_on,
    {
        if !self.paused {
            self.update_timers();
        }
        self.keyboard.pause_toggle_on()
    }

    /// Queues a key press delivered by the input source.
    pub fn push_key_event(&mut self, ev: KeyEvent)
        requires
            old(self).wf(),
        ensures
            final(self).wf(),
            final(self)@ == (CpuView {
                keyboard: KeyboardView { pending: old(self)@.keyboard.pending.push(ev), ..old(self)@.keyboard },
                ..old(self)@
            }),
    {
        self.keyboard.push_event(ev);
    }

    /// Number of steps that make up one frame.
    pub fn speed(&self) -> (r: u16)
        ensures
            r == self@.speed,
    {
        self.speed
    }

    /// The program counter.
    pub fn pc(&self) -> (r: u16)
        ensures
            r == self@.pc,
    {
        self.pc
    }

    /// Register `Vidx`.
    pub fn register(&self, idx: usize) -> (r: u8)
        requires
            self.wf(),
            idx < NUM_REGISTERS,
        ensures
            r == self@.v[idx as int],
    {
        self.v[idx]
    }

    /// The index register.
    pub fn index_register(&self) -> (r: u16)
        ensures
            r == self@.i,
    {
        self.i
    }

    /// The delay timer.
    pub fn delay_timer(&self) -> (r: u8)
        ensures
            r == self@.delay_timer,
    {
        self.delay_timer
    }

    /// The sound timer.
    pub fn sound_timer(&self) -> (r: u8)
        ensures
            r == self@.sound_timer,
    {
        self.sound_timer
    }

    /// The byte at address `addr`.
    pub fn memory_at(&self, addr: usize) -> (r: u8)
        requires
            self.wf(),
            addr < MEMORY_SIZE,
        ensures
            r == self@.memory[addr as int],
    {
        self.memory[addr]
    }

    /// The return addresses on the call stack, oldest first.
    pub fn call_stack(&self) -> (r: &Vec<u16>)
        ensures
            r@ == self@.stack,
    {
        &self.stack
    }

    /// Whether execution is paused.
    pub fn is_paused(&self) -> (r: bool)
        ensures
            r == self@.paused,
    {
        self.paused
    }

    /// Whether the quit key was seen.
    pub fn should_quit(&self) -> (r: bool)
        ensures
            r == self@.should_quit,
    {
        self.should_quit
    }

    /// Whether a wait for a key is pending.
    pub fn is_waiting_for_key(&self) -> (r: bool)
        ensures
            r == self@.next_key_params is Some,
    {
        self.next_key_params.is_some()
    }

    /// The frame buffer.
    pub fn display(&self) -> (r: &Display)
        ensures
            r@ == self@.display,
            self@.wf() ==> r.wf(),
    {
        &self.display
    }

    /// The keypad.
    pub fn keyboard(&self) -> (r: &Keyboard)
        ensures
            r@ == self@.keyboard,
    {
        &self.keyboard
    }

    /// Counts both timers down by one, stopping at zero.
    fn update_timers(&mut self)
        ensures
            final(self)@ == (CpuView {
                delay_timer: tick(old(self)@.delay_timer),
                sound_timer: tick(old(self)@.sound_timer),
                ..old(self)@
            }),
    {
        if self.delay_timer > 0 {
            self.delay_timer = self.delay_timer - 1;
        }
        if self.sound_timer > 0 {
            self.sound_timer = self.sound_timer - 1;
        }
    }
}

} // verus!
