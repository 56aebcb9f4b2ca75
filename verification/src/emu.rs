//! The fetch-decode-execute engine and the architectural state it
//! mutates.
//!
//! `Chip8` owns the whole machine: registers, memory, call stack,
//! framebuffer, input latch and timers. Its abstract state is
//! [`Chip8View`]; every public operation is specified as a function of
//! that view. One cycle of the engine is specified by [`cycle_result`]:
//! fetch the two bytes at the program counter, advance it by two,
//! decode, and apply [`exec_instruction`] — the transition relation of
//! the instruction set.
//!
//! Two points where historical machines disagree are exposed as named
//! behavioral flags rather than silently picked: whether a return from
//! an empty call stack resolves to address 0 or is reported as a fault
//! (`empty_stack_return_to_zero`), and whether the register block
//! transfers advance the index register past the transferred block
//! (`index_advance_on_transfer`).

use vstd::prelude::*;

verus! {

use vstd::arithmetic::div_mod::{
    lemma_fundamental_div_mod_converse_div,
    lemma_fundamental_div_mod_converse_mod,
    lemma_mod_add_multiples_vanish,
    lemma_small_mod,
};

use crate::decode::{decode, spec_decode, Instruction, instruction_wf};
use crate::display::{
    Display,
    display_wf,
    drawn_collision,
    drawn_display,
    flip,
    lemma_pair_target_bounds,
    lemma_pair_target_injective,
    pair_bit,
    pair_target,
    pix,
    sprite_bit,
    wrap_col,
    wrap_row,
    DISPLAY_PIXELS,
};
use crate::keyboard::{Keyboard, keyboard_wf, KeyboardView, KEY_COUNT};
use crate::memory::{Memory, MEMORY_SIZE};

/// Lowest address a program image may occupy; the program counter
/// starts here.
pub const PROGRAM_START: u16 = 0x200;

/// Architectural bound on call nesting depth.
pub const STACK_DEPTH: usize = 16;

/// Abstract state of the whole machine.
pub ghost struct Chip8View {
    /// The sixteen 8-bit general registers `V0` through `VF`.
    pub registers: Seq<u8>,
    /// Return addresses of the calls in progress, innermost last.
    pub stack: Seq<u16>,
    /// The 4096 bytes of memory.
    pub memory: Seq<u8>,
    /// The 2048 pixel bits of the framebuffer, column-major.
    pub display: Seq<u8>,
    /// The program counter.
    pub pc: u16,
    /// The index register `I`.
    pub i: u16,
    /// The delay timer, decremented towards zero by the external tick.
    pub delay_timer: u8,
    /// The sound timer, decremented towards zero by the external tick.
    pub sound_timer: u8,
    /// The input latch.
    pub key: KeyboardView,
    /// Behavioral flag: the register block transfers advance `I` by
    /// `x + 1` after the copy.
    pub index_advance_on_transfer: bool,
    /// Behavioral flag: a return from an empty call stack sets the
    /// program counter to 0 instead of faulting.
    pub empty_stack_return_to_zero: bool,
}

/// A well-formed machine view.
pub open spec fn chip8_view_wf(s: Chip8View) -> bool {
    &&& s.registers.len() == 16
    &&& s.stack.len() <= STACK_DEPTH
    &&& s.memory.len() == MEMORY_SIZE
    &&& display_wf(s.display)
    &&& keyboard_wf(s.key)
}

/// The condition a cycle reports instead of completing silently. An
/// unmatched instruction pattern carries the raw word and the program
/// counter it was fetched from; the machine has already advanced past
/// it, so the driver may log the diagnostic and keep stepping.
#[derive(Clone, Copy, Debug, PartialEq, Eq, Structural)]
pub enum StepFault {
    /// The fetched word matches no instruction pattern.
    UnknownOpcode { word: u16, pc: u16 },
    /// A call would nest deeper than the sixteen architectural frames.
    StackOverflow,
    /// A return found the call stack empty while
    /// `empty_stack_return_to_zero` is off.
    StackUnderflow,
    /// A fetch or an index-register access would touch an address
    /// beyond the 4096-byte memory.
    AddressOutOfRange,
    /// A key-skip instruction named a key code above 0xF.
    InvalidKey { key: u8 },
}

/// The 16-bit word formed by the two bytes at `pc`, big-endian.
pub open spec fn word_at(mem: Seq<u8>, pc: int) -> u16 {
    (mem[pc] * 256 + mem[pc + 1]) as u16
}

/// `s` with the program counter moved past one more instruction when
/// `cond` holds.
pub open spec fn skipped(s: Chip8View, cond: bool) -> Chip8View {
    if cond {
        Chip8View { pc: ((s.pc + 2) % 0x10000) as u16, ..s }
    } else {
        s
    }
}

/// `s` with register `x` set to `v`.
pub open spec fn with_register(s: Chip8View, x: int, v: u8) -> Chip8View {
    Chip8View { registers: s.registers.update(x, v), ..s }
}

/// `s` with register `x` set to `v` and the flag register `VF` then
/// overwritten with `f`; when `x` is 15 the flag wins.
pub open spec fn with_register_and_flag(s: Chip8View, x: int, v: u8, f: u8) -> Chip8View {
    Chip8View { registers: s.registers.update(x, v).update(15, f), ..s }
}

/// `mem` with `data` written over the block starting at `at`.
pub open spec fn write_block(mem: Seq<u8>, at: int, data: Seq<u8>) -> Seq<u8> {
    Seq::new(
        mem.len(),
        |a: int|
            if at <= a < at + data.len() {
                data[a - at]
            } else {
                mem[a]
            },
    )
}

/// `mem` with registers `V0 ..= Vx` written at `i`.
pub open spec fn stored_registers(mem: Seq<u8>, i: int, regs: Seq<u8>, x: int) -> Seq<u8> {
    Seq::new(
        mem.len(),
        |a: int|
            if i <= a <= i + x {
                regs[a - i]
            } else {
                mem[a]
            },
    )
}

/// The register file after loading `V0 ..= Vx` from `mem` at `i`.
pub open spec fn loaded_registers(regs: Seq<u8>, mem: Seq<u8>, i: int, x: int) -> Seq<u8> {
    Seq::new(
        regs.len(),
        |r: int|
            if r <= x {
                mem[i + r]
            } else {
                regs[r]
            },
    )
}

/// What one decoded instruction does to the machine: the state after it
/// and the fault it reports, if any. `s` is the state with the program
/// counter already advanced past the instruction. A faulting
/// instruction leaves the state unchanged apart from that advance.
pub open spec fn exec_instruction(s: Chip8View, ins: Instruction) -> (Chip8View, Option<
    StepFault,
>) {
    match ins {
        Instruction::ClearScreen => (
            Chip8View { display: Seq::new(DISPLAY_PIXELS as nat, |p: int| 0u8), ..s },
            None,
        ),
        Instruction::Return => {
            if s.stack.len() > 0 {
                (Chip8View { pc: s.stack.last(), stack: s.stack.drop_last(), ..s }, None)
            } else if s.empty_stack_return_to_zero {
                (Chip8View { pc: 0u16, ..s }, None)
            } else {
                (s, Some(StepFault::StackUnderflow))
            }
        },
        Instruction::Jump(nnn) => (Chip8View { pc: nnn, ..s }, None),
        Instruction::Call(nnn) => {
            if s.stack.len() < STACK_DEPTH {
                (Chip8View { stack: s.stack.push(s.pc), pc: nnn, ..s }, None)
            } else {
                (s, Some(StepFault::StackOverflow))
            }
        },
        Instruction::SkipEqImm(x, nn) => (skipped(s, s.registers[x as int] == nn), None),
        Instruction::SkipNeImm(x, nn) => (skipped(s, s.registers[x as int] != nn), None),
        Instruction::SkipEqReg(x, y) => (
            skipped(s, s.registers[x as int] == s.registers[y as int]),
            None,
        ),
        Instruction::LoadImm(x, nn) => (with_register(s, x as int, nn), None),
        Instruction::AddImm(x, nn) => (
            with_register(s, x as int, ((s.registers[x as int] + nn) % 256) as u8),
            None,
        ),
        Instruction::Move(x, y) => (with_register(s, x as int, s.registers[y as int]), None),
        Instruction::Or(x, y) => (
            with_register(s, x as int, s.registers[x as int] | s.registers[y as int]),
            None,
        ),
        Instruction::And(x, y) => (
            with_register(s, x as int, s.registers[x as int] & s.registers[y as int]),
            None,
        ),
        Instruction::Xor(x, y) => (
            with_register(s, x as int, s.registers[x as int] ^ s.registers[y as int]),
            None,
        ),
        Instruction::Add(x, y) => {
            let vx = s.registers[x as int];
            let vy = s.registers[y as int];
            (
                with_register_and_flag(
                    s,
                    x as int,
                    ((vx + vy) % 256) as u8,
                    if vx + vy > 255 {
                        1u8
                    } else {
                        0u8
                    },
                ),
                None,
            )
        },
        Instruction::Sub(x, y) => {
            let vx = s.registers[x as int];
            let vy = s.registers[y as int];
            (
                with_register_and_flag(
                    s,
                    x as int,
                    ((vx - vy) % 256) as u8,
                    if vx >= vy {
                        1u8
                    } else {
                        0u8
                    },
                ),
                None,
            )
        },
        Instruction::ShiftRight(x, y) => {
            let vy = s.registers[y as int];
            (with_register_and_flag(s, x as int, vy >> 1u8, vy & 1u8), None)
        },
        Instruction::SubNegate(x, y) => {
            let vx = s.registers[x as int];
            let vy = s.registers[y as int];
            (
                with_register_and_flag(
                    s,
                    x as int,
                    ((vy - vx) % 256) as u8,
                    if vy >= vx {
                        1u8
                    } else {
                        0u8
                    },
                ),
                None,
            )
        },
        Instruction::ShiftLeft(x, y) => {
            let vy = s.registers[y as int];
            (with_register_and_flag(s, x as int, vy << 1u8, vy >> 7u8), None)
        },
        Instruction::SkipNeReg(x, y) => (
            skipped(s, s.registers[x as int] != s.registers[y as int]),
            None,
        ),
        Instruction::SetIndex(nnn) => (Chip8View { i: nnn, ..s }, None),
        Instruction::Draw(x, y, n) => {
            if s.i + n > MEMORY_SIZE {
                (s, Some(StepFault::AddressOutOfRange))
            } else {
                let vx = s.registers[x as int];
                let vy = s.registers[y as int];
                let hit = drawn_collision(s.display, s.memory, s.i, vx, vy, 8 * n);
                (
                    Chip8View {
                        display: drawn_display(s.display, s.memory, s.i, vx, vy, 8 * n),
                        registers: s.registers.update(
                            15,
                            if hit {
                                1u8
                            } else {
                                0u8
                            },
                        ),
                        ..s
                    },
                    None,
                )
            }
        },
        Instruction::SkipKeyPressed(x) => {
            let k = s.registers[x as int];
            if k >= KEY_COUNT {
                (s, Some(StepFault::InvalidKey { key: k }))
            } else {
                (skipped(s, s.key.keys[k as int]), None)
            }
        },
        Instruction::SkipKeyNotPressed(x) => {
            let k = s.registers[x as int];
            if k >= KEY_COUNT {
                (s, Some(StepFault::InvalidKey { key: k }))
            } else {
                (skipped(s, !s.key.keys[k as int]), None)
            }
        },
        Instruction::LoadDelay(x) => (with_register(s, x as int, s.delay_timer), None),
        Instruction::WaitKey(x) => {
            match s.key.key_register {
                Some(k) => (
                    Chip8View {
                        registers: s.registers.update(x as int, k as u8),
                        key: KeyboardView { key_register: None, ..s.key },
                        ..s
                    },
                    None,
                ),
                None => (
                    Chip8View {
                        pc: ((s.pc - 2) % 0x10000) as u16,
                        key: KeyboardView { waiting: true, ..s.key },
                        ..s
                    },
                    None,
                ),
            }
        },
        Instruction::SetDelay(x) => (
            Chip8View { delay_timer: s.registers[x as int], ..s },
            None,
        ),
        Instruction::SetSound(x) => (
            Chip8View { sound_timer: s.registers[x as int], ..s },
            None,
        ),
        Instruction::AddIndex(x) => (
            Chip8View { i: ((s.i + s.registers[x as int]) % 0x10000) as u16, ..s },
            None,
        ),
        Instruction::StoreDigits(x) => {
            if s.i + 3 > MEMORY_SIZE {
                (s, Some(StepFault::AddressOutOfRange))
            } else {
                let vx = s.registers[x as int];
                let digits = seq![(vx / 100) as u8, ((vx / 10) % 10) as u8, (vx % 10) as u8];
                (Chip8View { memory: write_block(s.memory, s.i as int, digits), ..s }, None)
            }
        },
        Instruction::StoreRegisters(x) => {
            if s.i + x + 1 > MEMORY_SIZE {
                (s, Some(StepFault::AddressOutOfRange))
            } else {
                (
                    Chip8View {
                        memory: stored_registers(s.memory, s.i as int, s.registers, x as int),
                        i: if s.index_advance_on_transfer {
                            (s.i + x + 1) as u16
                        } else {
                            s.i
                        },
                        ..s
                    },
                    None,
                )
            }
        },
        Instruction::LoadRegisters(x) => {
            if s.i + x + 1 > MEMORY_SIZE {
                (s, Some(StepFault::AddressOutOfRange))
            } else {
                (
                    Chip8View {
                        registers: loaded_registers(s.registers, s.memory, s.i as int, x as int),
                        i: if s.index_advance_on_transfer {
                            (s.i + x + 1) as u16
                        } else {
                            s.i
                        },
                        ..s
                    },
                    None,
                )
            }
        },
    }
}

/// The ADD of the register family sets `VF` to 1 exactly when
/// `Vx + Vy` exceeds 255, and the destination receives
/// `(Vx + Vy) mod 256`; when the destination is `VF` itself, the carry
/// bit overwrites it last.
pub proof fn lemma_add_sets_carry(s: Chip8View, x: u8, y: u8)
    requires
        chip8_view_wf(s),
        x < 16,
        y < 16,
    ensures
        ({
            let t = exec_instruction(s, Instruction::Add(x, y)).0;
            let vx = s.registers[x as int];
            let vy = s.registers[y as int];
            &&& t.registers[15] == (if vx + vy > 255 {
                1u8
            } else {
                0u8
            })
            &&& x != 15 ==> t.registers[x as int] == ((vx + vy) % 256) as u8
            &&& exec_instruction(s, Instruction::Add(x, y)).1 is None
        }),
{
}

/// The SUB of the register family sets `VF` to 1 exactly when
/// `Vx >= Vy` (not-borrow), and the destination receives
/// `(Vx - Vy) mod 256`; when the destination is `VF` itself, the
/// not-borrow bit overwrites it last.
pub proof fn lemma_sub_sets_not_borrow(s: Chip8View, x: u8, y: u8)
    requires
        chip8_view_wf(s),
        x < 16,
        y < 16,
    ensures
        ({
            let t = exec_instruction(s, Instruction::Sub(x, y)).0;
            let vx = s.registers[x as int];
            let vy = s.registers[y as int];
            &&& t.registers[15] == (if vx >= vy {
                1u8
            } else {
                0u8
            })
            &&& x != 15 ==> t.registers[x as int] == ((vx - vy) % 256) as u8
            &&& exec_instruction(s, Instruction::Sub(x, y)).1 is None
        }),
{
}

/// Both shifts read their source from `Vy`, not from `Vx`, and `VF`
/// receives exactly the bit shifted out — for every destination,
/// including `VF` itself, where the shifted-out bit overwrites the
/// shifted value last.
pub proof fn lemma_shifts_copy_source_and_flag(s: Chip8View, x: u8, y: u8)
    requires
        chip8_view_wf(s),
        x < 16,
        y < 16,
    ensures
        ({
            let right = exec_instruction(s, Instruction::ShiftRight(x, y)).0;
            let left = exec_instruction(s, Instruction::ShiftLeft(x, y)).0;
            let vy = s.registers[y as int];
            &&& right.registers[15] == vy & 1u8
            &&& x != 15 ==> right.registers[x as int] == vy >> 1u8
            &&& left.registers[15] == vy >> 7u8
            &&& x != 15 ==> left.registers[x as int] == vy << 1u8
        }),
{
}

/// Drawing a sprite with at least one set bit twice, at the same
/// coordinates, onto a clear framebuffer restores every pixel the
/// first draw set and reports a collision on the second draw. The
/// coordinate registers must not be `VF`, which the first draw
/// overwrites.
pub proof fn lemma_draw_twice_clears_and_collides(s: Chip8View, x: u8, y: u8, n: u8)
    requires
        chip8_view_wf(s),
        x < 15,
        y < 15,
        n < 16,
        s.i + n <= MEMORY_SIZE,
        forall|p: int| 0 <= p < DISPLAY_PIXELS ==> s.display[p] == 0u8,
        exists|j: int| 0 <= j < 8 * n && #[trigger] pair_bit(s.memory, s.i, j),
    ensures
        ({
            let once = exec_instruction(s, Instruction::Draw(x, y, n)).0;
            let twice = exec_instruction(once, Instruction::Draw(x, y, n)).0;
            &&& twice.display == s.display
            &&& twice.registers[15] == 1u8
        }),
{
    let once = exec_instruction(s, Instruction::Draw(x, y, n)).0;
    let vx = s.registers[x as int];
    let vy = s.registers[y as int];
    assert(once.registers[x as int] == vx && once.registers[y as int] == vy);
    assert(once.memory == s.memory && once.i == s.i);
    crate::display::lemma_draw_twice_restores(s.display, s.memory, s.i, vx, vy, 8 * n as int);
    crate::display::lemma_second_draw_collides(s.display, s.memory, s.i, vx, vy, 8 * n as int);
}

/// One full cycle: fetch the word at the program counter, advance by
/// two, decode, execute. A fetch that would read past the end of
/// memory faults without touching anything; an unmatched pattern
/// faults with the word and its address, the advance already applied.
pub open spec fn cycle_result(s: Chip8View) -> (Chip8View, Option<StepFault>) {
    if s.pc + 1 >= MEMORY_SIZE {
        (s, Some(StepFault::AddressOutOfRange))
    } else {
        let w = word_at(s.memory, s.pc as int);
        let advanced = Chip8View { pc: (s.pc + 2) as u16, ..s };
        match spec_decode(w) {
            None => (advanced, Some(StepFault::UnknownOpcode { word: w, pc: s.pc })),
            Some(ins) => exec_instruction(advanced, ins),
        }
    }
}

/// The machine state after a full reset, keeping the behavioral flags
/// of `s`: cleared registers, memory, framebuffer, stack and latch, the
/// program counter at `PROGRAM_START`, timers at zero.
pub open spec fn reset_view(s: Chip8View) -> Chip8View {
    Chip8View {
        registers: Seq::new(16, |r: int| 0u8),
        stack: Seq::empty(),
        memory: Seq::new(MEMORY_SIZE as nat, |a: int| 0u8),
        display: Seq::new(DISPLAY_PIXELS as nat, |p: int| 0u8),
        pc: PROGRAM_START,
        i: 0u16,
        delay_timer: 0u8,
        sound_timer: 0u8,
        key: KeyboardView {
            keys: Seq::new(KEY_COUNT as nat, |k: int| false),
            waiting: false,
            key_register: None,
        },
        index_advance_on_transfer: s.index_advance_on_transfer,
        empty_stack_return_to_zero: s.empty_stack_return_to_zero,
    }
}

/// Resetting an already-reset machine changes nothing: the full reset
/// is idempotent.
pub proof fn lemma_reset_idempotent(s: Chip8View)
    ensures
        reset_view(reset_view(s)) == reset_view(s),
{
}

/// The machine.
pub struct Chip8 {
    registers: [u8; 16],
    stack: Vec<u16>,
    memory: Memory,
    display: Display,
    pc: u16,
    i: u16,
    delay_timer: u8,
    sound_timer: u8,
    key: Keyboard,
    index_advance_on_transfer: bool,
    empty_stack_return_to_zero: bool,
}

impl View for Chip8 {
    type V = Chip8View;

    closed spec fn view(&self) -> Chip8View {
        Chip8View {
            registers: self.registers@,
            stack: self.stack@,
            memory: self.memory@,
            display: self.display@,
            pc: self.pc,
            i: self.i,
            delay_timer: self.delay_timer,
            sound_timer: self.sound_timer,
            key: self.key@,
            index_advance_on_transfer: self.index_advance_on_transfer,
            empty_stack_return_to_zero: self.empty_stack_return_to_zero,
        }
    }
}

impl Chip8 {
    /// A freshly reset machine, with both behavioral flags on: block
    /// transfers advance the index register, and a return from an
    /// empty stack resolves to address 0.
    pub fn new() -> (r: Self)
        ensures
            chip8_view_wf(r@),
            r@ == (Chip8View {
                index_advance_on_transfer: true,
                empty_stack_return_to_zero: true,
                ..reset_view(r@)
            }),
    {
        let c = Chip8 {
            registers: [0u8;16],
            stack: Vec::new(),
            memory: Memory::new(),
            display: Display::new(),
            pc: PROGRAM_START,
            i: 0,
            delay_timer: 0,
            sound_timer: 0,
            key: Keyboard::new(),
            index_advance_on_transfer: true,
            empty_stack_return_to_zero: true,
        };
        proof {
            assert(c@.registers =~= Seq::new(16, |r: int| 0u8));
            assert(c@.stack =~= Seq::<u16>::empty());
            assert(c@.memory =~= Seq::new(MEMORY_SIZE as nat, |a: int| 0u8));
            assert(c@.display =~= Seq::new(DISPLAY_PIXELS as nat, |p: int| 0u8));
            assert(c@.key.keys =~= Seq::new(KEY_COUNT as nat, |k: int| false));
        }
        c
    }

    /// Reset every architectural entity at once, keeping only the
    /// behavioral flags. Calling this twice in a row leaves the same
    /// state as calling it once.
    pub fn reset(&mut self)
        ensures
            chip8_view_wf(final(self)@),
            final(self)@ == reset_view(old(self)@),
    {
        self.registers = [0u8;16];
        self.stack = Vec::new();
        self.memory = Memory::new();
        self.display = Display::new();
        self.pc = PROGRAM_START;
        self.i = 0;
        self.delay_timer = 0;
        self.sound_timer = 0;
        self.key = Keyboard::new();
        proof {
            assert(self@.registers =~= Seq::new(16, |r: int| 0u8));
            assert(self@.stack =~= Seq::<u16>::empty());
            assert(self@.memory =~= Seq::new(MEMORY_SIZE as nat, |a: int| 0u8));
            assert(self@.display =~= Seq::new(DISPLAY_PIXELS as nat, |p: int| 0u8));
            assert(self@.key.keys =~= Seq::new(KEY_COUNT as nat, |k: int| false));
        }
    }

    /// Choose whether the register block transfers advance the index
    /// register past the copied block.
    pub fn set_index_advance_on_transfer(&mut self, on: bool)
        ensures
            final(self)@ == (Chip8View { index_advance_on_transfer: on, ..old(self)@ }),
    {
        self.index_advance_on_transfer = on;
    }

    /// Choose whether a return from an empty call stack resolves to
    /// address 0 rather than reporting a fault.
    pub fn set_empty_stack_return_to_zero(&mut self, on: bool)
        ensures
            final(self)@ == (Chip8View { empty_stack_return_to_zero: on, ..old(self)@ }),
    {
        self.empty_stack_return_to_zero = on;
    }

    /// The input latch, for the key-event bridge.
    pub fn key_mut(&mut self) -> (r: &mut Keyboard)
        ensures
            (*r)@ == old(self)@.key,
            final(self)@ == (Chip8View { key: final(r)@, ..old(self)@ }),
    {
        &mut self.key
    }

    /// The framebuffer, for the renderer.
    pub fn display_mut(&mut self) -> (r: &mut Display)
        ensures
            (*r)@ == old(self)@.display,
            final(self)@ == (Chip8View { display: final(r)@, ..old(self)@ }),
    {
        &mut self.display
    }

    /// The byte store.
    pub fn memory_mut(&mut self) -> (r: &mut Memory)
        ensures
            (*r)@ == old(self)@.memory,
            final(self)@ == (Chip8View { memory: final(r)@, ..old(self)@ }),
    {
        &mut self.memory
    }

    /// Write a program image into memory starting at `PROGRAM_START`.
    /// The image must fit in the 3584 bytes above the reserved area.
    pub fn load_rom(&mut self, rom: &[u8])
        requires
            chip8_view_wf(old(self)@),
            rom@.len() <= MEMORY_SIZE - PROGRAM_START,
        ensures
            chip8_view_wf(final(self)@),
            final(self)@ == (Chip8View {
                memory: write_block(old(self)@.memory, PROGRAM_START as int, rom@),
                ..old(self)@
            }),
    {
        self.memory.write_slice_at(0x200, rom);
        proof {
            assert(self@.memory =~= write_block(old(self)@.memory, PROGRAM_START as int, rom@));
        }
    }

    /// One tick of the externally driven delay timer: decrement towards
    /// zero, saturating.
    pub fn delay_timer_tick(&mut self)
        ensures
            final(self)@ == (Chip8View {
                delay_timer: if old(self)@.delay_timer > 0 {
                    (old(self)@.delay_timer - 1) as u8
                } else {
                    0u8
                },
                ..old(self)@
            }),
    {
        if self.delay_timer != 0 {
            self.delay_timer = self.delay_timer - 1;
        }
    }

    /// One tick of the externally driven sound timer: decrement towards
    /// zero, saturating.
    pub fn sound_timer_tick(&mut self)
        ensures
            final(self)@ == (Chip8View {
                sound_timer: if old(self)@.sound_timer > 0 {
                    (old(self)@.sound_timer - 1) as u8
                } else {
                    0u8
                },
                ..old(self)@
            }),
    {
        if self.sound_timer != 0 {
            self.sound_timer = self.sound_timer - 1;
        }
    }

    /// The value of register `Vx`.
    pub fn register(&self, x: u8) -> (r: u8)
        requires
            chip8_view_wf(self@),
            x < 16,
        ensures
            r == self@.registers[x as int],
    {
        self.registers[x as usize]
    }

    /// Set register `Vx` to `v`.
    pub fn set_register(&mut self, x: u8, v: u8)
        requires
            chip8_view_wf(old(self)@),
            x < 16,
        ensures
            final(self)@ == with_register(old(self)@, x as int, v),
    {
        self.registers[x as usize] = v;
    }

    /// The program counter.
    pub fn pc(&self) -> (r: u16)
        ensures
            r == self@.pc,
    {
        self.pc
    }

    /// Set the program counter.
    pub fn set_pc(&mut self, pc: u16)
        ensures
            final(self)@ == (Chip8View { pc: pc, ..old(self)@ }),
    {
        self.pc = pc;
    }

    /// The index register `I`.
    pub fn index_register(&self) -> (r: u16)
        ensures
            r == self@.i,
    {
        self.i
    }

    /// The delay timer.
    pub fn delay_timer(&self) -> (r: u8)
        ensures
            r == self@.delay_timer,
    {
        self.delay_timer
    }

    /// The sound timer.
    pub fn sound_timer(&self) -> (r: u8)
        ensures
            r == self@.sound_timer,
    {
        self.sound_timer
    }

    /// How many calls are in progress.
    pub fn stack_len(&self) -> (r: usize)
        ensures
            r == self@.stack.len(),
    {
        self.stack.len()
    }
}

// The operations the decoded instructions dispatch to. Each is proved
// against its case of `exec_instruction`; the preconditions are the
// conditions under which that case completes without a fault, checked
// by `emulate_cycle` before it dispatches.
impl Chip8 {
    /// 00E0: clear the framebuffer.
    fn op_00e0(&mut self)
        requires
            chip8_view_wf(old(self)@),
        ensures
            final(self)@ == exec_instruction(old(self)@, Instruction::ClearScreen).0,
    {
        self.display = Display::new();
        proof {
            assert(self@.display =~= Seq::new(DISPLAY_PIXELS as nat, |p: int| 0u8));
        }
    }

    /// 00EE: pop the call stack into the program counter; from an empty
    /// stack, resolve to address 0.
    fn op_00ee(&mut self)
        requires
            chip8_view_wf(old(self)@),
            old(self)@.stack.len() > 0 || old(self)@.empty_stack_return_to_zero,
        ensures
            final(self)@ == exec_instruction(old(self)@, Instruction::Return).0,
    {
        match self.stack.pop() {
            Some(addr) => {
                self.pc = addr;
                proof {
                    assert(self@.stack =~= old(self)@.stack.drop_last());
                }
            },
            None => {
                self.pc = 0;
            },
        }
    }

    /// 1NNN: jump.
    fn op_1nnn(&mut self, nnn: u16)
        requires
            chip8_view_wf(old(self)@),
        ensures
            final(self)@ == exec_instruction(old(self)@, Instruction::Jump(nnn)).0,
    {
        self.pc = nnn;
    }

    /// 2NNN: call; push the (already advanced) program counter.
    fn op_2nnn(&mut self, nnn: u16)
        requires
            chip8_view_wf(old(self)@),
            old(self)@.stack.len() < STACK_DEPTH,
        ensures
            final(self)@ == exec_instruction(old(self)@, Instruction::Call(nnn)).0,
    {
        self.stack.push(self.pc);
        self.pc = nnn;
    }

    /// Advance the program counter past the next instruction.
    fn skip_next(&mut self)
        requires
            chip8_view_wf(old(self)@),
            old(self)@.pc + 2 < 0x10000,
        ensures
            final(self)@ == skipped(old(self)@, true),
    {
        proof {
            lemma_small_mod((old(self)@.pc + 2) as nat, 0x10000);
        }
        self.pc = self.pc + 2;
    }

    /// 3XNN: skip if `Vx == nn`.
    fn op_3xnn(&mut self, x: u8, nn: u8)
        requires
            chip8_view_wf(old(self)@),
            x < 16,
            old(self)@.pc + 2 < 0x10000,
        ensures
            final(self)@ == exec_instruction(old(self)@, Instruction::SkipEqImm(x, nn)).0,
    {
        if self.registers[x as usize] == nn {
            self.skip_next();
        }
    }

    /// 4XNN: skip if `Vx != nn`.
    fn op_4xnn(&mut self, x: u8, nn: u8)
        requires
            chip8_view_wf(old(self)@),
            x < 16,
            old(self)@.pc + 2 < 0x10000,
        ensures
            final(self)@ == exec_instruction(old(self)@, Instruction::SkipNeImm(x, nn)).0,
    {
        if self.registers[x as usize] != nn {
            self.skip_next();
        }
    }

    /// 5XY0: skip if `Vx == Vy`.
    fn op_5xy0(&mut self, x: u8, y: u8)
        requires
            chip8_view_wf(old(self)@),
            x < 16,
            y < 16,
            old(self)@.pc + 2 < 0x10000,
        ensures
            final(self)@ == exec_instruction(old(self)@, Instruction::SkipEqReg(x, y)).0,
    {
        if self.registers[x as usize] == self.registers[y as usize] {
            self.skip_next();
        }
    }

    /// 6XNN: load immediate.
    fn op_6xnn(&mut self, x: u8, nn: u8)
        requires
            chip8_view_wf(old(self)@),
            x < 16,
        ensures
            final(self)@ == exec_instruction(old(self)@, Instruction::LoadImm(x, nn)).0,
    {
        self.registers[x as usize] = nn;
    }

    /// 7XNN: add immediate, wrapping, no flag effect.
    fn op_7xnn(&mut self, x: u8, nn: u8)
        requires
            chip8_view_wf(old(self)@),
            x < 16,
        ensures
            final(self)@ == exec_instruction(old(self)@, Instruction::AddImm(x, nn)).0,
    {
        let sum: u16 = self.registers[x as usize] as u16 + nn as u16;
        self.registers[x as usize] = (sum % 256) as u8;
    }

    /// 8XY0: copy `Vy` into `Vx`.
    fn op_8xy0(&mut self, x: u8, y: u8)
        requires
            chip8_view_wf(old(self)@),
            x < 16,
            y < 16,
        ensures
            final(self)@ == exec_instruction(old(self)@, Instruction::Move(x, y)).0,
    {
        self.registers[x as usize] = self.registers[y as usize];
    }

    /// 8XY1: or `Vy` into `Vx`.
    fn op_8xy1(&mut self, x: u8, y: u8)
        requires
            chip8_view_wf(old(self)@),
            x < 16,
            y < 16,
        ensures
            final(self)@ == exec_instruction(old(self)@, Instruction::Or(x, y)).0,
    {
        self.registers[x as usize] = self.registers[x as usize] | self.registers[y as usize];
    }

    /// 8XY2: and `Vy` into `Vx`.
    fn op_8xy2(&mut self, x: u8, y: u8)
        requires
            chip8_view_wf(old(self)@),
            x < 16,
            y < 16,
        ensures
            final(self)@ == exec_instruction(old(self)@, Instruction::And(x, y)).0,
    {
        self.registers[x as usize] = self.registers[x as usize] & self.registers[y as usize];
    }

    /// 8XY3: exclusive-or `Vy` into `Vx`.
    fn op_8xy3(&mut self, x: u8, y: u8)
        requires
            chip8_view_wf(old(self)@),
            x < 16,
            y < 16,
        ensures
            final(self)@ == exec_instruction(old(self)@, Instruction::Xor(x, y)).0,
    {
        self.registers[x as usize] = self.registers[x as usize] ^ self.registers[y as usize];
    }

    /// 8XY4: add `Vy` into `Vx`; `VF` becomes the carry bit.
    fn op_8xy4(&mut self, x: u8, y: u8)
        requires
            chip8_view_wf(old(self)@),
            x < 16,
            y < 16,
        ensures
            final(self)@ == exec_instruction(old(self)@, Instruction::Add(x, y)).0,
    {
        let vx = self.registers[x as usize];
        let vy = self.registers[y as usize];
        let sum: u16 = vx as u16 + vy as u16;
        self.registers[x as usize] = (sum % 256) as u8;
        self.registers[15] = if sum > 255 {
            1
        } else {
            0
        };
    }

    /// 8XY5: subtract `Vy` from `Vx`; `VF` becomes the not-borrow bit.
    fn op_8xy5(&mut self, x: u8, y: u8)
        requires
            chip8_view_wf(old(self)@),
            x < 16,
            y < 16,
        ensures
            final(self)@ == exec_instruction(old(self)@, Instruction::Sub(x, y)).0,
    {
        let vx = self.registers[x as usize];
        let vy = self.registers[y as usize];
        let diff: u16 = (256 + vx as u16 - vy as u16) % 256;
        proof {
            lemma_mod_add_multiples_vanish(vx - vy, 256);
            if vx >= vy {
                lemma_small_mod((vx - vy) as nat, 256);
            }
        }
        self.registers[x as usize] = diff as u8;
        self.registers[15] = if vx >= vy {
            1
        } else {
            0
        };
    }

    /// 8XY6: copy `Vy` shifted right by one into `Vx`; `VF` receives
    /// the bit shifted out.
    fn op_8xy6(&mut self, x: u8, y: u8)
        requires
            chip8_view_wf(old(self)@),
            x < 16,
            y < 16,
        ensures
            final(self)@ == exec_instruction(old(self)@, Instruction::ShiftRight(x, y)).0,
    {
        let src = self.registers[y as usize];
        self.registers[x as usize] = src >> 1u8;
        self.registers[15] = src & 1u8;
    }

    /// 8XY7: store `Vy - Vx` into `Vx`; `VF` becomes the not-borrow
    /// bit.
    fn op_8xy7(&mut self, x: u8, y: u8)
        requires
            chip8_view_wf(old(self)@),
            x < 16,
            y < 16,
        ensures
            final(self)@ == exec_instruction(old(self)@, Instruction::SubNegate(x, y)).0,
    {
        let vx = self.registers[x as usize];
        let vy = self.registers[y as usize];
        let diff: u16 = (256 + vy as u16 - vx as u16) % 256;
        proof {
            lemma_mod_add_multiples_vanish(vy - vx, 256);
            if vy >= vx {
                lemma_small_mod((vy - vx) as nat, 256);
            }
        }
        self.registers[x as usize] = diff as u8;
        self.registers[15] = if vy >= vx {
            1
        } else {
            0
        };
    }

    /// 8XYE: copy `Vy` shifted left by one into `Vx`; `VF` receives the
    /// bit shifted out.
    fn op_8xye(&mut self, x: u8, y: u8)
        requires
            chip8_view_wf(old(self)@),
            x < 16,
            y < 16,
        ensures
            final(self)@ == exec_instruction(old(self)@, Instruction::ShiftLeft(x, y)).0,
    {
        let src = self.registers[y as usize];
        self.registers[x as usize] = src << 1u8;
        self.registers[15] = src >> 7u8;
    }

    /// 9XY0: skip if `Vx != Vy`.
    fn op_9xy0(&mut self, x: u8, y: u8)
        requires
            chip8_view_wf(old(self)@),
            x < 16,
            y < 16,
            old(self)@.pc + 2 < 0x10000,
        ensures
            final(self)@ == exec_instruction(old(self)@, Instruction::SkipNeReg(x, y)).0,
    {
        if self.registers[x as usize] != self.registers[y as usize] {
            self.skip_next();
        }
    }

    /// ANNN: load the index register.
    fn op_annn(&mut self, nnn: u16)
        requires
            chip8_view_wf(old(self)@),
        ensures
            final(self)@ == exec_instruction(old(self)@, Instruction::SetIndex(nnn)).0,
    {
        self.i = nnn;
    }

    /// EX9E: skip if the key numbered `Vx` is down.
    fn op_ex9e(&mut self, x: u8)
        requires
            chip8_view_wf(old(self)@),
            x < 16,
            old(self)@.registers[x as int] < KEY_COUNT,
            old(self)@.pc + 2 < 0x10000,
        ensures
            final(self)@ == exec_instruction(old(self)@, Instruction::SkipKeyPressed(x)).0,
    {
        let key = self.registers[x as usize];
        if self.key.key_is_pressed(key) {
            self.skip_next();
        }
    }

    /// EXA1: skip if the key numbered `Vx` is up.
    fn op_exa1(&mut self, x: u8)
        requires
            chip8_view_wf(old(self)@),
            x < 16,
            old(self)@.registers[x as int] < KEY_COUNT,
            old(self)@.pc + 2 < 0x10000,
        ensures
            final(self)@ == exec_instruction(old(self)@, Instruction::SkipKeyNotPressed(x)).0,
    {
        let key = self.registers[x as usize];
        if !self.key.key_is_pressed(key) {
            self.skip_next();
        }
    }

    /// FX07: load the delay timer into `Vx`.
    fn op_fx07(&mut self, x: u8)
        requires
            chip8_view_wf(old(self)@),
            x < 16,
        ensures
            final(self)@ == exec_instruction(old(self)@, Instruction::LoadDelay(x)).0,
    {
        self.registers[x as usize] = self.delay_timer;
    }

    /// FX0A: consume the key that resolved the wait, or arm the wait
    /// and roll the program counter back so the instruction re-executes
    /// on the next cycle.
    fn op_fx0a(&mut self, x: u8)
        requires
            chip8_view_wf(old(self)@),
            x < 16,
            old(self)@.pc >= 2,
        ensures
            final(self)@ == exec_instruction(old(self)@, Instruction::WaitKey(x)).0,
    {
        match self.key.take_key_register() {
            Some(key) => {
                self.registers[x as usize] = key as u8;
            },
            None => {
                self.key.set_waiting_for_key_release();
                proof {
                    lemma_small_mod((old(self)@.pc - 2) as nat, 0x10000);
                }
                self.pc = self.pc - 2;
            },
        }
    }

    /// FX15: load `Vx` into the delay timer.
    fn op_fx15(&mut self, x: u8)
        requires
            chip8_view_wf(old(self)@),
            x < 16,
        ensures
            final(self)@ == exec_instruction(old(self)@, Instruction::SetDelay(x)).0,
    {
        self.delay_timer = self.registers[x as usize];
    }

    /// FX18: load `Vx` into the sound timer.
    fn op_fx18(&mut self, x: u8)
        requires
            chip8_view_wf(old(self)@),
            x < 16,
        ensures
            final(self)@ == exec_instruction(old(self)@, Instruction::SetSound(x)).0,
    {
        self.sound_timer = self.registers[x as usize];
    }

    /// DXYN: XOR the `n`-row sprite at the index register onto the
    /// framebuffer at `(Vx, Vy)`, wrapping coordinates; `VF` is reset
    /// first and receives 1 exactly when some set sprite bit lands on
    /// an already-set pixel.
    fn op_dxyn(&mut self, x: u8, y: u8, n: u8)
        requires
            chip8_view_wf(old(self)@),
            x < 16,
            y < 16,
            n < 16,
            old(self)@.i + n <= MEMORY_SIZE,
        ensures
            final(self)@ == exec_instruction(old(self)@, Instruction::Draw(x, y, n)).0,
    {
        let vxv = self.registers[x as usize];
        let vyv = self.registers[y as usize];
        self.registers[15] = 0;
        let at = self.i as usize;
        let mut ri: usize = 0;
        proof {
            assert(self@.registers =~= old(self)@.registers.update(15, 0u8));
        }
        while ri < n as usize
            invariant
                chip8_view_wf(old(self)@),
                x < 16,
                y < 16,
                n < 16,
                old(self)@.i + n <= MEMORY_SIZE,
                at == old(self)@.i,
                vxv == old(self)@.registers[x as int],
                vyv == old(self)@.registers[y as int],
                ri <= n,
                self@ == (Chip8View {
                    display: self@.display,
                    registers: self@.registers,
                    ..old(self)@
                }),
                display_wf(self@.display),
                self@.display == drawn_display(
                    old(self)@.display,
                    old(self)@.memory,
                    old(self)@.i,
                    vxv,
                    vyv,
                    8 * (ri as int),
                ),
                self@.registers == old(self)@.registers.update(
                    15,
                    if drawn_collision(
                        old(self)@.display,
                        old(self)@.memory,
                        old(self)@.i,
                        vxv,
                        vyv,
                        8 * (ri as int),
                    ) {
                        1u8
                    } else {
                        0u8
                    },
                ),
            decreases n - ri,
        {
            let byte = self.memory.get_byte(at + ri);
            let mut bi: usize = 0;
            while bi < 8
                invariant
                    chip8_view_wf(old(self)@),
                    x < 16,
                    y < 16,
                    n < 16,
                    old(self)@.i + n <= MEMORY_SIZE,
                    at == old(self)@.i,
                    vxv == old(self)@.registers[x as int],
                    vyv == old(self)@.registers[y as int],
                    ri < n,
                    bi <= 8,
                    byte == old(self)@.memory[old(self)@.i + ri],
                    self@ == (Chip8View {
                        display: self@.display,
                        registers: self@.registers,
                        ..old(self)@
                    }),
                    display_wf(self@.display),
                    self@.display == drawn_display(
                        old(self)@.display,
                        old(self)@.memory,
                        old(self)@.i,
                        vxv,
                        vyv,
                        8 * (ri as int) + bi as int,
                    ),
                    self@.registers == old(self)@.registers.update(
                        15,
                        if drawn_collision(
                            old(self)@.display,
                            old(self)@.memory,
                            old(self)@.i,
                            vxv,
                            vyv,
                            8 * (ri as int) + bi as int,
                        ) {
                            1u8
                        } else {
                            0u8
                        },
                    ),
                decreases 8 - bi,
            {
                let ghost d0 = old(self)@.display;
                let ghost mem = old(self)@.memory;
                let ghost i0 = old(self)@.i;
                let ghost j: int = 8 * (ri as int) + (bi as int);
                proof {
                    lemma_fundamental_div_mod_converse_div(j, 8, ri as int, bi as int);
                    lemma_fundamental_div_mod_converse_mod(j, 8, ri as int, bi as int);
                }
                let px = (vxv as usize + bi) % 64;
                let py = (vyv as usize + ri) % 32;
                let sh: u8 = (7 - bi) as u8;
                let sbit: u8 = (byte >> sh) & 1;
                let ghost t = pair_target(vxv, vyv, j);
                proof {
                    assert((byte >> sh) & 1 <= 1) by (bit_vector);
                    assert(px as int == wrap_col(vxv, bi as int));
                    assert(py as int == wrap_row(vyv, ri as int));
                    assert(t == pix(px as int, py as int));
                    lemma_pair_target_bounds(vxv, vyv, j);
                    assert(pair_bit(mem, i0, j) == sprite_bit(byte, bi as int));
                    assert(pair_bit(mem, i0, j) == (sbit == 1));
                    // No earlier sprite position lands on this pixel, so the
                    // pixel still holds its pre-draw value.
                    assert forall|j2: int| 0 <= j2 < j implies !(#[trigger] pair_target(
                        vxv,
                        vyv,
                        j2,
                    ) == t && pair_bit(mem, i0, j2)) by {
                        if pair_target(vxv, vyv, j2) == t {
                            lemma_pair_target_injective(vxv, vyv, j2, j);
                        }
                    }
                    assert(self@.display[t] == d0[t]);
                }
                let cur = self.display.get_pixel(px, py);
                let newp: u8 = if sbit == 1 {
                    if cur == 1 {
                        0
                    } else {
                        1
                    }
                } else {
                    cur
                };
                if cur == 1 && newp == 0 {
                    self.registers[15] = 1;
                }
                self.display.update_pixel(px, py, newp);
                proof {
                    let dprev = drawn_display(d0, mem, i0, vxv, vyv, j);
                    assert(self@.display == dprev.update(t, newp));
                    // The framebuffer now reflects one more sprite position.
                    assert forall|p: int| 0 <= p < DISPLAY_PIXELS implies self@.display[p]
                        == drawn_display(d0, mem, i0, vxv, vyv, j + 1)[p] by {
                        if p == t {
                            if sbit == 1 {
                                assert(pair_target(vxv, vyv, j) == p && pair_bit(mem, i0, j));
                                assert(self@.display[p] == flip(d0[p]));
                            } else {
                                assert forall|j2: int| 0 <= j2 < j + 1 implies !(
                                #[trigger] pair_target(vxv, vyv, j2) == p && pair_bit(
                                    mem,
                                    i0,
                                    j2,
                                )) by {
                                    if j2 < j && pair_target(vxv, vyv, j2) == p {
                                        lemma_pair_target_injective(vxv, vyv, j2, j);
                                    }
                                }
                                assert(self@.display[p] == d0[p]);
                            }
                        } else {
                            assert(self@.display[p] == dprev[p]);
                            if exists|j2: int|
                                0 <= j2 < j + 1 && #[trigger] pair_target(vxv, vyv, j2) == p
                                    && pair_bit(mem, i0, j2) {
                                let j2 = choose|j2: int|
                                    0 <= j2 < j + 1 && #[trigger] pair_target(vxv, vyv, j2) == p
                                        && pair_bit(mem, i0, j2);
                                assert(j2 != j);
                                assert(exists|j3: int|
                                    0 <= j3 < j && #[trigger] pair_target(vxv, vyv, j3) == p
                                        && pair_bit(mem, i0, j3));
                            }
                        }
                    }
                    assert(self@.display =~= drawn_display(d0, mem, i0, vxv, vyv, j + 1));
                    // The collision flag accounts for one more sprite position.
                    if sbit == 1 && cur == 1 {
                        assert(pair_bit(mem, i0, j) && d0[pair_target(vxv, vyv, j)] == 1);
                        assert(drawn_collision(d0, mem, i0, vxv, vyv, j + 1));
                    } else {
                        if drawn_collision(d0, mem, i0, vxv, vyv, j + 1) {
                            let j2 = choose|j2: int|
                                0 <= j2 < j + 1 && #[trigger] pair_bit(mem, i0, j2) && d0[
                                    pair_target(vxv, vyv, j2)] == 1;
                            assert(j2 != j);
                            assert(drawn_collision(d0, mem, i0, vxv, vyv, j));
                        }
                        assert(drawn_collision(d0, mem, i0, vxv, vyv, j + 1) == drawn_collision(
                            d0,
                            mem,
                            i0,
                            vxv,
                            vyv,
                            j,
                        ));
                    }
                }
                bi = bi + 1;
            }
            ri = ri + 1;
        }
    }

    /// FX33: store the hundreds, tens and ones decimal digits of `Vx`
    /// as three consecutive bytes at the index register.
    fn op_fx33(&mut self, x: u8)
        requires
            chip8_view_wf(old(self)@),
            x < 16,
            old(self)@.i + 3 <= MEMORY_SIZE,
        ensures
            final(self)@ == exec_instruction(old(self)@, Instruction::StoreDigits(x)).0,
    {
        let vx = self.registers[x as usize];
        let hundreds = vx / 100;
        let tens = (vx / 10) % 10;
        let ones = vx % 10;
        let at = self.i as usize;
        self.memory.set_byte(at, hundreds);
        self.memory.set_byte(at + 1, tens);
        self.memory.set_byte(at + 2, ones);
        proof {
            let digits = seq![
                (old(self)@.registers[x as int] / 100) as u8,
                ((old(self)@.registers[x as int] / 10) % 10) as u8,
                (old(self)@.registers[x as int] % 10) as u8,
            ];
            assert(self@.memory =~= write_block(old(self)@.memory, old(self)@.i as int, digits));
        }
    }

    /// FX55: block-copy registers `V0 ..= Vx` to memory at the index
    /// register; the behavioral flag decides whether `I` then advances
    /// by `x + 1`.
    fn op_fx55(&mut self, x: u8)
        requires
            chip8_view_wf(old(self)@),
            x < 16,
            old(self)@.i + x + 1 <= MEMORY_SIZE,
        ensures
            final(self)@ == exec_instruction(old(self)@, Instruction::StoreRegisters(x)).0,
    {
        let at = self.i as usize;
        let mut k: usize = 0;
        while k < x as usize + 1
            invariant
                chip8_view_wf(old(self)@),
                x < 16,
                k <= x + 1,
                at == old(self)@.i,
                at + x + 1 <= MEMORY_SIZE,
                self@ == (Chip8View { memory: self@.memory, ..old(self)@ }),
                self@.memory.len() == MEMORY_SIZE,
                forall|a: int| at <= a < at + k ==> self@.memory[a] == old(self)@.registers[a - at],
                forall|a: int|
                    0 <= a < MEMORY_SIZE && !(at <= a < at + k) ==> self@.memory[a] == old(
                        self,
                    )@.memory[a],
            decreases x + 1 - k,
        {
            let v = self.registers[k];
            self.memory.set_byte(at + k, v);
            k = k + 1;
        }
        if self.index_advance_on_transfer {
            self.i = self.i + (x as u16 + 1);
        }
        proof {
            assert(self@.memory =~= stored_registers(
                old(self)@.memory,
                old(self)@.i as int,
                old(self)@.registers,
                x as int,
            ));
        }
    }

    /// FX65: block-copy memory at the index register into registers
    /// `V0 ..= Vx`; the behavioral flag decides whether `I` then
    /// advances by `x + 1`.
    fn op_fx65(&mut self, x: u8)
        requires
            chip8_view_wf(old(self)@),
            x < 16,
            old(self)@.i + x + 1 <= MEMORY_SIZE,
        ensures
            final(self)@ == exec_instruction(old(self)@, Instruction::LoadRegisters(x)).0,
    {
        let at = self.i as usize;
        let mut k: usize = 0;
        while k < x as usize + 1
            invariant
                chip8_view_wf(old(self)@),
                x < 16,
                k <= x + 1,
                at == old(self)@.i,
                at + x + 1 <= MEMORY_SIZE,
                self@ == (Chip8View { registers: self@.registers, ..old(self)@ }),
                self@.registers.len() == 16,
                forall|r: int| 0 <= r < k ==> self@.registers[r] == old(self)@.memory[at + r],
                forall|r: int| k <= r < 16 ==> self@.registers[r] == old(self)@.registers[r],
            decreases x + 1 - k,
        {
            let v = self.memory.get_byte(at + k);
            self.registers[k] = v;
            k = k + 1;
        }
        if self.index_advance_on_transfer {
            self.i = self.i + (x as u16 + 1);
        }
        proof {
            assert(self@.registers =~= loaded_registers(
                old(self)@.registers,
                old(self)@.memory,
                old(self)@.i as int,
                x as int,
            ));
        }
    }

    /// FX1E: add `Vx` into the index register, wrapping.
    fn op_fx1e(&mut self, x: u8)
        requires
            chip8_view_wf(old(self)@),
            x < 16,
        ensures
            final(self)@ == exec_instruction(old(self)@, Instruction::AddIndex(x)).0,
    {
        let sum: u32 = self.i as u32 + self.registers[x as usize] as u32;
        self.i = (sum % 0x10000) as u16;
    }
}

/// Every instruction takes a well-formed machine to a well-formed
/// machine.
pub proof fn lemma_exec_instruction_wf(s: Chip8View, ins: Instruction)
    requires
        chip8_view_wf(s),
        instruction_wf(ins),
    ensures
        chip8_view_wf(exec_instruction(s, ins).0),
{
    let t = exec_instruction(s, ins).0;
    match ins {
        Instruction::ClearScreen => {
            assert(display_wf(t.display));
        },
        Instruction::Draw(x, y, n) => {
            if s.i + n <= MEMORY_SIZE {
                assert forall|p: int| 0 <= p < DISPLAY_PIXELS implies t.display[p] <= 1 by {
                    assert(t.display[p] == flip(s.display[p]) || t.display[p] == s.display[p]);
                }
            }
        },
        _ => {},
    }
}

impl Chip8 {
    /// One fetch-decode-execute cycle, as `cycle_result` describes it:
    /// fetch the big-endian word at the program counter, advance the
    /// counter by two, decode, and apply the instruction. A fault is
    /// returned as a value — a fetch past the end of memory leaves the
    /// machine untouched, any other fault leaves it advanced past the
    /// offending instruction — so the driver decides whether to log,
    /// halt or ignore and keep stepping.
    pub fn emulate_cycle(&mut self) -> (r: Result<(), StepFault>)
        requires
            chip8_view_wf(old(self)@),
        ensures
            chip8_view_wf(final(self)@),
            final(self)@ == cycle_result(old(self)@).0,
            r is Ok <==> cycle_result(old(self)@).1 is None,
            (r matches Err(f) ==> cycle_result(old(self)@).1 == Some(f)),
    {
        let pcv = self.pc;
        if pcv as usize + 1 >= MEMORY_SIZE {
            return Err(StepFault::AddressOutOfRange);
        }
        let b0 = self.memory.get_byte(pcv as usize);
        let b1 = self.memory.get_byte(pcv as usize + 1);
        let w: u16 = b0 as u16 * 256 + b1 as u16;
        self.pc = pcv + 2;
        proof {
            assert(w == word_at(old(self)@.memory, old(self)@.pc as int));
        }
        let ins = match decode(w) {
            None => {
                return Err(StepFault::UnknownOpcode { word: w, pc: pcv });
            },
            Some(ins) => ins,
        };
        let ghost advanced = self@;
        proof {
            lemma_exec_instruction_wf(advanced, ins);
        }
        match ins {
            Instruction::ClearScreen => self.op_00e0(),
            Instruction::Return => {
                if self.stack.len() == 0 && !self.empty_stack_return_to_zero {
                    return Err(StepFault::StackUnderflow);
                }
                self.op_00ee();
            },
            Instruction::Jump(nnn) => self.op_1nnn(nnn),
            Instruction::Call(nnn) => {
                if self.stack.len() >= STACK_DEPTH {
                    return Err(StepFault::StackOverflow);
                }
                self.op_2nnn(nnn);
            },
            Instruction::SkipEqImm(x, nn) => self.op_3xnn(x, nn),
            Instruction::SkipNeImm(x, nn) => self.op_4xnn(x, nn),
            Instruction::SkipEqReg(x, y) => self.op_5xy0(x, y),
            Instruction::LoadImm(x, nn) => self.op_6xnn(x, nn),
            Instruction::AddImm(x, nn) => self.op_7xnn(x, nn),
            Instruction::Move(x, y) => self.op_8xy0(x, y),
            Instruction::Or(x, y) => self.op_8xy1(x, y),
            Instruction::And(x, y) => self.op_8xy2(x, y),
            Instruction::Xor(x, y) => self.op_8xy3(x, y),
            Instruction::Add(x, y) => self.op_8xy4(x, y),
            Instruction::Sub(x, y) => self.op_8xy5(x, y),
            Instruction::ShiftRight(x, y) => self.op_8xy6(x, y),
            Instruction::SubNegate(x, y) => self.op_8xy7(x, y),
            Instruction::ShiftLeft(x, y) => self.op_8xye(x, y),
            Instruction::SkipNeReg(x, y) => self.op_9xy0(x, y),
            Instruction::SetIndex(nnn) => self.op_annn(nnn),
            Instruction::Draw(x, y, n) => {
                if self.i as usize + n as usize > MEMORY_SIZE {
                    return Err(StepFault::AddressOutOfRange);
                }
                self.op_dxyn(x, y, n);
            },
            Instruction::SkipKeyPressed(x) => {
                let key = self.registers[x as usize];
                if key >= KEY_COUNT as u8 {
                    return Err(StepFault::InvalidKey { key });
                }
                self.op_ex9e(x);
            },
            Instruction::SkipKeyNotPressed(x) => {
                let key = self.registers[x as usize];
                if key >= KEY_COUNT as u8 {
                    return Err(StepFault::InvalidKey { key });
                }
                self.op_exa1(x);
            },
            Instruction::LoadDelay(x) => self.op_fx07(x),
            Instruction::WaitKey(x) => self.op_fx0a(x),
            Instruction::SetDelay(x) => self.op_fx15(x),
            Instruction::SetSound(x) => self.op_fx18(x),
            Instruction::AddIndex(x) => self.op_fx1e(x),
            Instruction::StoreDigits(x) => {
                if self.i as usize + 3 > MEMORY_SIZE {
                    return Err(StepFault::AddressOutOfRange);
                }
                self.op_fx33(x);
            },
            Instruction::StoreRegisters(x) => {
                if self.i as usize + x as usize + 1 > MEMORY_SIZE {
                    return Err(StepFault::AddressOutOfRange);
                }
                self.op_fx55(x);
            },
            Instruction::LoadRegisters(x) => {
                if self.i as usize + x as usize + 1 > MEMORY_SIZE {
                    return Err(StepFault::AddressOutOfRange);
                }
                self.op_fx65(x);
            },
        }
        Ok(())
    }
}

} // verus!
