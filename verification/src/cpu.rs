//! The machine: CPU state and the fetch/decode/execute/timer step.
//!
//! A step fetches the two bytes at the program counter, combines them
//! big-endian into an opcode, advances the program counter by two, decodes
//! and executes the instruction, and then decrements each nonzero timer once.
//! Faults that the architecture leaves unguarded are reported as
//! explicit errors and leave the state as it stood when the fault was found:
//! call stack overflow and underflow, computed memory ranges that leave the
//! 4096-byte image, and a key index above 15.

use crate::draw::draw_collides;
use crate::draw::draw_grid;
use crate::draw::draw_sprite;
use crate::draw::sprite_any_set;
use crate::instruction::Instruction;
use rand::Rng;
use vstd::prelude::*;

verus! {

use vstd::pervasive::VecAdditionalExecFns;

/// Programs are loaded, and execution begins, at this memory offset.
pub const START_ADDRESS: u16 = 0x200;

/// The font glyph region begins at this memory offset: 16 glyphs of 5 bytes.
pub const FONT_START_ADDRESS: u16 = 0x50;

/// Framebuffer width in pixels.
pub const WIDTH: usize = 64;

/// Framebuffer height in pixels.
pub const HEIGHT: usize = 32;

/// The CPU state. The framebuffer is kept as one row-major vector of
/// `WIDTH * HEIGHT` cells; the cell for column `x` of row `y` sits at index
/// `y * WIDTH + x`.
pub struct Cpu {
    /// 4096 bytes of memory; 0x000 to 0x1FF is reserved, the font sits at
    /// `FONT_START_ADDRESS`, programs start at `START_ADDRESS`.
    pub mem: Vec<u8>,
    /// The 16 general-purpose registers; register 0xF doubles as the
    /// carry/borrow/collision flag.
    pub v: Vec<u8>,
    /// The index register, holding a memory address.
    pub i: u16,
    /// The delay timer.
    pub dt: u8,
    /// The sound timer.
    pub st: u8,
    /// The program counter.
    pub pc: u16,
    /// The stack pointer: the number of call frames in use.
    pub sp: u8,
    /// The 16-entry call stack of return addresses.
    pub stack: Vec<u16>,
    /// The framebuffer, row-major.
    pub pixels: Vec<bool>,
    /// Set whenever a drawing operation changed at least one cell's visible
    /// state; the display glue consumes and clears it.
    pub should_draw: bool,
    /// The key latch: pressed state of the 16 hexadecimal keys.
    pub keys: Vec<bool>,
}

/// The machine state as mathematical values; `cpu@` is the view of a `Cpu`.
#[verifier::ext_equal]
pub ghost struct CpuView {
    pub mem: Seq<u8>,
    pub v: Seq<u8>,
    pub i: u16,
    pub dt: u8,
    pub st: u8,
    pub pc: u16,
    pub sp: u8,
    pub stack: Seq<u16>,
    pub pixels: Seq<bool>,
    pub should_draw: bool,
    pub keys: Seq<bool>,
}

impl View for Cpu {
    type V = CpuView;

    open spec fn view(&self) -> CpuView {
        CpuView {
            mem: self.mem@,
            v: self.v@,
            i: self.i,
            dt: self.dt,
            st: self.st,
            pc: self.pc,
            sp: self.sp,
            stack: self.stack@,
            pixels: self.pixels@,
            should_draw: self.should_draw,
            keys: self.keys@,
        }
    }
}

impl CpuView {
    /// Every container has its architectural size and the stack pointer stays
    /// within the 16 call frames.
    pub open spec fn wf(self) -> bool {
        &&& self.mem.len() == 4096
        &&& self.v.len() == 16
        &&& self.stack.len() == 16
        &&& self.pixels.len() == 2048
        &&& self.keys.len() == 16
        &&& self.sp <= 16
    }
}

/// An execution fault: a condition the architecture leaves undefined, made an
/// explicit error rather than silently tolerated.
#[derive(Debug, Clone, Copy, PartialEq, Eq, Structural)]
pub enum ExecError {
    /// RETURN with no call frame in use.
    StackUnderflow,
    /// A seventeenth nested CALL.
    StackOverflow,
    /// A computed memory range leaves the 4096-byte image.
    MemoryOutOfRange,
    /// A key instruction named a key index above 15.
    KeyOutOfRange,
}

/// A fault found during one step; each is fatal to the running program.
#[derive(Debug, Clone, Copy, PartialEq, Eq, Structural)]
pub enum StepError {
    /// The program counter does not leave room for a two-byte fetch.
    FetchOutOfRange { addr: u16 },
    /// The fetched opcode matches no known encoding; `addr` is where it was
    /// fetched from.
    Decode { opcode: u16, addr: u16 },
    /// The decoded instruction faulted.
    Exec(ExecError),
}

/// The ROM does not fit between `START_ADDRESS` and the end of memory.
#[derive(Debug, Clone, Copy, PartialEq, Eq, Structural)]
pub struct LoadError {
    pub rom_len: usize,
}

/// The program counter advanced by two, wrapping at the 16-bit boundary.
pub open spec fn pc_skip(pc: u16) -> u16 {
    ((pc + 2) % 0x10000) as u16
}

/// The program counter rewound by two, wrapping at the 16-bit boundary.
pub open spec fn pc_rewind(pc: u16) -> u16 {
    ((pc + 0xFFFE) % 0x10000) as u16
}

/// The lowest pressed key at index `from` or above, if any.
pub open spec fn first_pressed(keys: Seq<bool>, from: int) -> Option<int>
    decreases 16 - from,
{
    if from >= 16 {
        None
    } else if keys[from] {
        Some(from)
    } else {
        first_pressed(keys, from + 1)
    }
}

/// What `first_pressed` finds: the lowest pressed key at or above `from`,
/// every key below it unpressed; or no key at all when none is pressed.
pub proof fn lemma_first_pressed(keys: Seq<bool>, from: int)
    requires
        0 <= from,
    ensures
        match first_pressed(keys, from) {
            Some(k) => from <= k < 16 && keys[k] && (forall|j: int| from <= j < k ==> !keys[j]),
            None => forall|j: int| from <= j < 16 ==> !keys[j],
        },
    decreases 16 - from,
{
    if from < 16 && !keys[from] {
        lemma_first_pressed(keys, from + 1);
    }
}

/// The 16 five-byte font glyphs for the hexadecimal digits.
pub open spec fn font_data() -> Seq<u8> {
    seq![
        0xF0u8, 0x90, 0x90, 0x90, 0xF0, 0x20, 0x60, 0x20, 0x20, 0x70, 0xF0, 0x10, 0xF0, 0x80,
        0xF0, 0xF0, 0x10, 0xF0, 0x10, 0xF0, 0x90, 0x90, 0xF0, 0x10, 0x10, 0xF0, 0x80, 0xF0,
        0x10, 0xF0, 0xF0, 0x80, 0xF0, 0x90, 0xF0, 0xF0, 0x10, 0x20, 0x40, 0x40, 0xF0, 0x90,
        0xF0, 0x90, 0xF0, 0xF0, 0x90, 0xF0, 0x10, 0xF0, 0xF0, 0x90, 0xF0, 0x90, 0x90, 0xE0,
        0x90, 0xE0, 0x90, 0xE0, 0xF0, 0x80, 0x80, 0x80, 0xF0, 0xE0, 0x90, 0x90, 0x90, 0xE0,
        0xF0, 0x80, 0xF0, 0x80, 0xF0, 0xF0, 0x80, 0xF0, 0x80, 0x80,
    ]
}

/// The state after the random instruction stored the drawn byte `b`, masked,
/// into register `x`.
pub open spec fn rnd_step(s: CpuView, x: u16, kk: u8, b: u8) -> CpuView {
    CpuView { v: s.v.update(x as int, b & kk), ..s }
}

/// Each nonzero timer decremented once; zero timers stay at zero.
pub open spec fn tick_timers(s: CpuView) -> CpuView {
    CpuView {
        dt: if s.dt > 0 { (s.dt - 1) as u8 } else { 0u8 },
        st: if s.st > 0 { (s.st - 1) as u8 } else { 0u8 },
        ..s
    }
}

/// What executing `inst` does to the machine state, for every instruction
/// except the random one, whose result is related to the drawn byte by
/// `rnd_step` in the contract of `execute`. A fault leaves the state
/// unchanged and names the fault.
pub open spec fn exec_spec(s: CpuView, inst: Instruction) -> Result<CpuView, ExecError> {
    match inst {
        Instruction::SYS(_) => Ok(s),
        Instruction::CLS => Ok(
            CpuView { pixels: Seq::new(2048, |idx: int| false), should_draw: true, ..s },
        ),
        Instruction::RET => if s.sp == 0 {
            Err(ExecError::StackUnderflow)
        } else {
            Ok(CpuView { sp: (s.sp - 1) as u8, pc: s.stack[s.sp - 1], ..s })
        },
        Instruction::JP_ADDR(addr) => Ok(CpuView { pc: addr, ..s }),
        Instruction::CALL_ADDR(addr) => if s.sp >= 16 {
            Err(ExecError::StackOverflow)
        } else {
            Ok(
                CpuView {
                    stack: s.stack.update(s.sp as int, s.pc),
                    sp: (s.sp + 1) as u8,
                    pc: addr,
                    ..s
                },
            )
        },
        Instruction::SE_BYTE(x, kk) => Ok(
            if s.v[x as int] == kk {
                CpuView { pc: pc_skip(s.pc), ..s }
            } else {
                s
            },
        ),
        Instruction::SNE_BYTE(x, kk) => Ok(
            if s.v[x as int] != kk {
                CpuView { pc: pc_skip(s.pc), ..s }
            } else {
                s
            },
        ),
        Instruction::SE(x, y) => Ok(
            if s.v[x as int] == s.v[y as int] {
                CpuView { pc: pc_skip(s.pc), ..s }
            } else {
                s
            },
        ),
        Instruction::LD_BYTE(x, kk) => Ok(CpuView { v: s.v.update(x as int, kk), ..s }),
        Instruction::ADD_BYTE(x, kk) => Ok(
            CpuView { v: s.v.update(x as int, ((s.v[x as int] + kk) % 256) as u8), ..s },
        ),
        Instruction::LD(x, y) => Ok(CpuView { v: s.v.update(x as int, s.v[y as int]), ..s }),
        Instruction::OR(x, y) => Ok(
            CpuView { v: s.v.update(x as int, s.v[x as int] | s.v[y as int]), ..s },
        ),
        Instruction::AND(x, y) => Ok(
            CpuView { v: s.v.update(x as int, s.v[x as int] & s.v[y as int]), ..s },
        ),
        Instruction::XOR(x, y) => Ok(
            CpuView { v: s.v.update(x as int, s.v[x as int] ^ s.v[y as int]), ..s },
        ),
        Instruction::ADD(x, y) => {
            let sum = s.v[x as int] + s.v[y as int];
            let v1 = s.v.update(x as int, (sum % 256) as u8);
            Ok(CpuView { v: v1.update(15, if sum >= 256 { 1u8 } else { 0u8 }), ..s })
        },
        Instruction::SUB(x, y) => {
            // The flag is written first, so a flag-register operand is read
            // back as the flag, as the architecture's in-place update has it.
            let v1 = s.v.update(15, if s.v[x as int] > s.v[y as int] { 1u8 } else { 0u8 });
            Ok(
                CpuView {
                    v: v1.update(x as int, ((v1[x as int] - v1[y as int] + 256) % 256) as u8),
                    ..s
                },
            )
        },
        Instruction::SHR(x) => {
            let v1 = s.v.update(15, s.v[x as int] & 1);
            Ok(CpuView { v: v1.update(x as int, v1[x as int] >> 1u8), ..s })
        },
        Instruction::SUBN(x, y) => {
            let v1 = s.v.update(15, if s.v[y as int] > s.v[x as int] { 1u8 } else { 0u8 });
            Ok(
                CpuView {
                    v: v1.update(x as int, ((v1[y as int] - v1[x as int] + 256) % 256) as u8),
                    ..s
                },
            )
        },
        Instruction::SHL(x) => {
            let v1 = s.v.update(15, (s.v[x as int] & 0x80) >> 7u8);
            Ok(CpuView { v: v1.update(x as int, v1[x as int] << 1u8), ..s })
        },
        Instruction::SNE(x, y) => Ok(
            if s.v[x as int] != s.v[y as int] {
                CpuView { pc: pc_skip(s.pc), ..s }
            } else {
                s
            },
        ),
        Instruction::LD_I(addr) => Ok(CpuView { i: addr, ..s }),
        Instruction::JP_V0(addr) => Ok(CpuView { pc: (addr + s.v[0]) as u16, ..s }),
        Instruction::RND_BYTE(_, _) => Ok(s),
        Instruction::DRW(x, y, n) => if s.i + n > 4096 {
            Err(ExecError::MemoryOutOfRange)
        } else {
            let ox = s.v[x as int] as int % 64;
            let oy = s.v[y as int] as int % 32;
            let rows = s.mem.subrange(s.i as int, s.i + n);
            Ok(
                CpuView {
                    pixels: draw_grid(s.pixels, rows, ox, oy),
                    v: s.v.update(
                        15,
                        if draw_collides(s.pixels, rows, ox, oy) { 1u8 } else { 0u8 },
                    ),
                    should_draw: s.should_draw || sprite_any_set(rows),
                    ..s
                },
            )
        },
        Instruction::SKP(x) => if s.v[x as int] >= 16 {
            Err(ExecError::KeyOutOfRange)
        } else {
            Ok(
                if s.keys[s.v[x as int] as int] {
                    CpuView { pc: pc_skip(s.pc), ..s }
                } else {
                    s
                },
            )
        },
        Instruction::SKNP(x) => if s.v[x as int] >= 16 {
            Err(ExecError::KeyOutOfRange)
        } else {
            Ok(
                if !s.keys[s.v[x as int] as int] {
                    CpuView { pc: pc_skip(s.pc), ..s }
                } else {
                    s
                },
            )
        },
        Instruction::LD_DT(x) => Ok(CpuView { v: s.v.update(x as int, s.dt), ..s }),
        Instruction::LD_KEY(x) => Ok(
            match first_pressed(s.keys, 0) {
                Some(k) => CpuView { v: s.v.update(x as int, k as u8), ..s },
                None => CpuView { pc: pc_rewind(s.pc), ..s },
            },
        ),
        Instruction::LD_DT_SET(x) => Ok(CpuView { dt: s.v[x as int], ..s }),
        Instruction::LD_ST_SET(x) => Ok(CpuView { st: s.v[x as int], ..s }),
        Instruction::ADD_I(x) => Ok(CpuView { i: ((s.i + s.v[x as int]) % 0x10000) as u16, ..s }),
        Instruction::LD_F(x) => Ok(
            CpuView { i: (FONT_START_ADDRESS + s.v[x as int] * 5) as u16, ..s },
        ),
        Instruction::LD_B(x) => if s.i + 2 > 4095 {
            Err(ExecError::MemoryOutOfRange)
        } else {
            let vx = s.v[x as int];
            Ok(
                CpuView {
                    mem: s.mem.update(s.i as int, vx / 100).update(
                        s.i + 1,
                        (vx / 10) % 10,
                    ).update(s.i + 2, vx % 10),
                    ..s
                },
            )
        },
        Instruction::LD_STORE_I(x) => if s.i + x + 1 > 4096 {
            Err(ExecError::MemoryOutOfRange)
        } else {
            Ok(
                CpuView {
                    mem: Seq::new(
                        4096,
                        |k: int|
                            if s.i <= k < s.i + x + 1 {
                                s.v[k - s.i]
                            } else {
                                s.mem[k]
                            },
                    ),
                    ..s
                },
            )
        },
        Instruction::LD_READ_I(x) => if s.i + x + 1 > 4096 {
            Err(ExecError::MemoryOutOfRange)
        } else {
            Ok(
                CpuView {
                    v: Seq::new(
                        16,
                        |k: int|
                            if 0 <= k < x + 1 {
                                s.mem[s.i + k]
                            } else {
                                s.v[k]
                            },
                    ),
                    ..s
                },
            )
        },
    }
}

/// Whether the program counter leaves room for a two-byte fetch.
pub open spec fn fetch_ok(s: CpuView) -> bool {
    s.pc + 1 < 4096
}

/// The two bytes at the program counter, combined big-endian.
pub open spec fn fetched_opcode(s: CpuView) -> u16 {
    (s.mem[s.pc as int] as u16) << 8u16 | s.mem[s.pc + 1] as u16
}

/// The state once the fetch has advanced the program counter past the opcode.
pub open spec fn after_fetch(s: CpuView) -> CpuView {
    CpuView { pc: (s.pc + 2) as u16, ..s }
}

/// What one whole step does: how the state `s1` after `cycle` and its result
/// relate to the state `s0` before it. A fault is reported exactly when the
/// fetch, the decode or the execution faults, and the state then stays as it
/// stood at the fault; otherwise the decoded instruction's effect is followed
/// by one timer tick.
pub open spec fn cycle_result(s0: CpuView, s1: CpuView, r: Result<(), StepError>) -> bool {
    if !fetch_ok(s0) {
        &&& r == Err::<(), StepError>(StepError::FetchOutOfRange { addr: s0.pc })
        &&& s1 == s0
    } else {
        let op = fetched_opcode(s0);
        let sf = after_fetch(s0);
        match Instruction::parse_spec(op) {
            Err(_) => {
                &&& r == Err::<(), StepError>(StepError::Decode { opcode: op, addr: s0.pc })
                &&& s1 == sf
            },
            Ok(inst) => match inst {
                Instruction::RND_BYTE(x, kk) => {
                    &&& r == Ok::<(), StepError>(())
                    &&& exists|b: u8| s1 == tick_timers(#[trigger] rnd_step(sf, x, kk, b))
                },
                _ => match exec_spec(sf, inst) {
                    Ok(s2) => {
                        &&& r == Ok::<(), StepError>(())
                        &&& s1 == tick_timers(s2)
                    },
                    Err(e) => {
                        &&& r == Err::<(), StepError>(StepError::Exec(e))
                        &&& s1 == sf
                    },
                },
            },
        }
    }
}

/// Relies on rand::thread_rng and rand::Rng::gen: draws one byte from the
/// thread-local generator; nothing is assumed of the value.
#[verifier::external_body]
fn random_byte() -> u8 {
    let mut rng = rand::thread_rng();
    rng.gen()
}

/// A vector of `n` copies of `value`.
fn filled_bytes(n: usize, value: u8) -> (v: Vec<u8>)
    ensures
        v@.len() == n,
        forall|k: int| 0 <= k < n ==> v@[k] == value,
{
    let mut v: Vec<u8> = Vec::new();
    while v.len() < n
        invariant
            v@.len() <= n,
            forall|k: int| 0 <= k < v@.len() ==> v@[k] == value,
        decreases n - v@.len(),
    {
        v.push(value);
    }
    v
}

/// A vector of `n` copies of `value`.
fn filled_words(n: usize, value: u16) -> (v: Vec<u16>)
    ensures
        v@.len() == n,
        forall|k: int| 0 <= k < n ==> v@[k] == value,
{
    let mut v: Vec<u16> = Vec::new();
    while v.len() < n
        invariant
            v@.len() <= n,
            forall|k: int| 0 <= k < v@.len() ==> v@[k] == value,
        decreases n - v@.len(),
    {
        v.push(value);
    }
    v
}

/// A vector of `n` copies of `value`.
fn filled_bools(n: usize, value: bool) -> (v: Vec<bool>)
    ensures
        v@.len() == n,
        forall|k: int| 0 <= k < n ==> v@[k] == value,
{
    let mut v: Vec<bool> = Vec::new();
    while v.len() < n
        invariant
            v@.len() <= n,
            forall|k: int| 0 <= k < v@.len() ==> v@[k] == value,
        decreases n - v@.len(),
    {
        v.push(value);
    }
    v
}

/// Copy `src[0..count]` to `mem[start..start + count]`.
fn copy_to_mem(mem: &mut Vec<u8>, src: &Vec<u8>, start: usize, count: usize)
    requires
        old(mem)@.len() == 4096,
        count <= src@.len(),
        start + count <= 4096,
    ensures
        final(mem)@.len() == 4096,
        forall|k: int|
            0 <= k < 4096 ==> final(mem)@[k] == (if start <= k < start + count {
                src@[k - start]
            } else {
                old(mem)@[k]
            }),
{
    let mut j: usize = 0;
    while j < count
        invariant
            j <= count,
            count <= src@.len(),
            start + count <= 4096,
            mem@.len() == 4096,
            forall|k: int|
                0 <= k < 4096 ==> mem@[k] == (if start <= k < start + j {
                    src@[k - start]
                } else {
                    old(mem)@[k]
                }),
        decreases count - j,
    {
        let b = src[j];
        mem.set(start + j, b);
        j += 1;
    }
}

/// Copy `mem[start..start + count]` to `v[0..count]`.
fn copy_from_mem(v: &mut Vec<u8>, mem: &Vec<u8>, start: usize, count: usize)
    requires
        old(v)@.len() == 16,
        count <= 16,
        start + count <= 4096,
        mem@.len() == 4096,
    ensures
        final(v)@.len() == 16,
        forall|k: int|
            0 <= k < 16 ==> final(v)@[k] == (if 0 <= k < count {
                mem@[start + k]
            } else {
                old(v)@[k]
            }),
{
    let mut j: usize = 0;
    while j < count
        invariant
            j <= count,
            count <= 16,
            start + count <= 4096,
            mem@.len() == 4096,
            v@.len() == 16,
            forall|k: int|
                0 <= k < 16 ==> v@[k] == (if 0 <= k < j {
                    mem@[start + k]
                } else {
                    old(v)@[k]
                }),
        decreases count - j,
    {
        let b = mem[start + j];
        v.set(j, b);
        j += 1;
    }
}

/// The program counter advanced by two, wrapping at the 16-bit boundary.
fn advance_by_2(pc: u16) -> (r: u16)
    ensures
        r == pc_skip(pc),
{
    ((pc as u32 + 2) % 0x10000) as u16
}

/// The program counter rewound by two, wrapping at the 16-bit boundary.
fn rewind_by_2(pc: u16) -> (r: u16)
    ensures
        r == pc_rewind(pc),
{
    ((pc as u32 + 0xFFFE) % 0x10000) as u16
}

impl Cpu {
    /// A machine in its start state: zeroed registers, memory and stack, the
    /// font loaded, the program counter at `START_ADDRESS`, and the redraw
    /// flag set so an initial blank frame is shown.
    pub fn init() -> (cpu: Cpu)
        ensures
            cpu@.wf(),
            cpu@.pc == START_ADDRESS,
            cpu@.sp == 0,
            cpu@.i == 0,
            cpu@.dt == 0,
            cpu@.st == 0,
            cpu@.should_draw,
            forall|j: int| 0 <= j < 16 ==> cpu@.v[j] == 0,
            forall|j: int| 0 <= j < 16 ==> cpu@.stack[j] == 0,
            forall|j: int| 0 <= j < 16 ==> !cpu@.keys[j],
            forall|j: int| 0 <= j < 2048 ==> !cpu@.pixels[j],
            forall|j: int|
                0 <= j < 4096 ==> cpu@.mem[j] == (if FONT_START_ADDRESS <= j
                    < FONT_START_ADDRESS + 80 {
                    font_data()[j - FONT_START_ADDRESS]
                } else {
                    0u8
                }),
    {
        let mut cpu = Cpu {
            mem: filled_bytes(4096, 0),
            v: filled_bytes(16, 0),
            i: 0,
            dt: 0,
            st: 0,
            pc: START_ADDRESS,
            sp: 0,
            stack: filled_words(16, 0),
            pixels: filled_bools(WIDTH * HEIGHT, false),
            should_draw: true,
            keys: filled_bools(16, false),
        };
        cpu.load_fonts();
        cpu
    }

    /// Write the font glyphs at `FONT_START_ADDRESS`, leaving the rest of
    /// memory as it was.
    fn load_fonts(&mut self)
        requires
            old(self)@.wf(),
        ensures
            final(self)@.wf(),
            final(self)@ == (CpuView { mem: final(self)@.mem, ..old(self)@ }),
            forall|j: int|
                0 <= j < 4096 ==> final(self)@.mem[j] == (if FONT_START_ADDRESS <= j
                    < FONT_START_ADDRESS + 80 {
                    font_data()[j - FONT_START_ADDRESS]
                } else {
                    old(self)@.mem[j]
                }),
    {
        let fonts: Vec<u8> = vec![
            0xF0, 0x90, 0x90, 0x90, 0xF0, 0x20, 0x60, 0x20, 0x20, 0x70, 0xF0, 0x10, 0xF0, 0x80,
            0xF0, 0xF0, 0x10, 0xF0, 0x10, 0xF0, 0x90, 0x90, 0xF0, 0x10, 0x10, 0xF0, 0x80, 0xF0,
            0x10, 0xF0, 0xF0, 0x80, 0xF0, 0x90, 0xF0, 0xF0, 0x10, 0x20, 0x40, 0x40, 0xF0, 0x90,
            0xF0, 0x90, 0xF0, 0xF0, 0x90, 0xF0, 0x10, 0xF0, 0xF0, 0x90, 0xF0, 0x90, 0x90, 0xE0,
            0x90, 0xE0, 0x90, 0xE0, 0xF0, 0x80, 0x80, 0x80, 0xF0, 0xE0, 0x90, 0x90, 0x90, 0xE0,
            0xF0, 0x80, 0xF0, 0x80, 0xF0, 0xF0, 0x80, 0xF0, 0x80, 0x80,
        ];
        proof {
            assert(fonts@ =~= font_data());
        }
        copy_to_mem(&mut self.mem, &fonts, 0x50, 80);
    }

    /// Copy the ROM into memory starting at `START_ADDRESS`, or report that
    /// it does not fit. Must be called before the first step.
    pub fn load_rom(&mut self, rom: &[u8]) -> (r: Result<(), LoadError>)
        requires
            old(self)@.wf(),
        ensures
            final(self)@.wf(),
            rom@.len() <= 4096 - START_ADDRESS ==> {
                &&& r == Ok::<(), LoadError>(())
                &&& final(self)@ == (CpuView { mem: final(self)@.mem, ..old(self)@ })
                &&& forall|j: int|
                    0 <= j < 4096 ==> final(self)@.mem[j] == (if START_ADDRESS <= j
                        < START_ADDRESS + rom@.len() {
                        rom@[j - START_ADDRESS]
                    } else {
                        old(self)@.mem[j]
                    })
            },
            rom@.len() > 4096 - START_ADDRESS ==> {
                &&& r == Err::<(), LoadError>(LoadError { rom_len: rom@.len() as usize })
                &&& final(self)@ == old(self)@
            },
    {
        let len = rom.len();
        if len > 4096 - (START_ADDRESS as usize) {
            return Err(LoadError { rom_len: len });
        }
        let mut j: usize = 0;
        let start = START_ADDRESS as usize;
        while j < len
            invariant
                j <= len,
                len == rom@.len(),
                start == START_ADDRESS,
                start + len <= 4096,
                self.mem@.len() == 4096,
                self.v == old(self).v,
                self.i == old(self).i,
                self.dt == old(self).dt,
                self.st == old(self).st,
                self.pc == old(self).pc,
                self.sp == old(self).sp,
                self.stack == old(self).stack,
                self.pixels == old(self).pixels,
                self.should_draw == old(self).should_draw,
                self.keys == old(self).keys,
                forall|k: int|
                    0 <= k < 4096 ==> self.mem@[k] == (if start <= k < start + j {
                        rom@[k - start]
                    } else {
                        old(self)@.mem[k]
                    }),
            decreases len - j,
        {
            let b = rom[j];
            self.mem.set(start + j, b);
            j += 1;
        }
        Ok(())
    }

    /// Execute one decoded instruction against the machine state. A fault
    /// leaves the state unchanged and reports the fault; the random
    /// instruction stores some drawn byte, masked; every other instruction
    /// effects exactly the transition `exec_spec` gives.
    pub fn execute(&mut self, instruction: Instruction) -> (r: Result<(), ExecError>)
        requires
            old(self)@.wf(),
            instruction.wf(),
        ensures
            final(self)@.wf(),
            (match instruction {
                Instruction::RND_BYTE(x, kk) => r == Ok::<(), ExecError>(()) && (exists|b: u8|
                    final(self)@ == #[trigger] rnd_step(old(self)@, x, kk, b)),
                _ => (match exec_spec(old(self)@, instruction) {
                    Ok(s2) => r == Ok::<(), ExecError>(()) && final(self)@ == s2,
                    Err(e) => r == Err::<(), ExecError>(e) && final(self)@ == old(self)@,
                }),
            }),
    {
        match instruction {
            Instruction::SYS(_) => Ok(()),
            Instruction::CLS => {
                self.pixels = filled_bools(WIDTH * HEIGHT, false);
                self.should_draw = true;
                proof {
                    assert(self@.pixels =~= Seq::new(2048, |idx: int| false));
                    assert(self@ =~= exec_spec(old(self)@, instruction)->Ok_0);
                }
                Ok(())
            },
            Instruction::RET => {
                if self.sp == 0 {
                    return Err(ExecError::StackUnderflow);
                }
                self.sp = self.sp - 1;
                self.pc = self.stack[self.sp as usize];
                Ok(())
            },
            Instruction::JP_ADDR(addr) => {
                self.pc = addr;
                Ok(())
            },
            Instruction::CALL_ADDR(addr) => {
                if self.sp >= 16 {
                    return Err(ExecError::StackOverflow);
                }
                self.stack.set(self.sp as usize, self.pc);
                self.sp = self.sp + 1;
                self.pc = addr;
                Ok(())
            },
            Instruction::SE_BYTE(x, kk) => {
                if self.v[x as usize] == kk {
                    self.pc = advance_by_2(self.pc);
                }
                Ok(())
            },
            Instruction::SNE_BYTE(x, kk) => {
                if self.v[x as usize] != kk {
                    self.pc = advance_by_2(self.pc);
                }
                Ok(())
            },
            Instruction::SE(x, y) => {
                if self.v[x as usize] == self.v[y as usize] {
                    self.pc = advance_by_2(self.pc);
                }
                Ok(())
            },
            Instruction::LD_BYTE(x, kk) => {
                self.v.set(x as usize, kk);
                Ok(())
            },
            Instruction::ADD_BYTE(x, kk) => {
                let sum = self.v[x as usize] as u16 + kk as u16;
                self.v.set(x as usize, (sum % 256) as u8);
                Ok(())
            },
            Instruction::LD(x, y) => {
                let vy = self.v[y as usize];
                self.v.set(x as usize, vy);
                Ok(())
            },
            Instruction::OR(x, y) => {
                let vx = self.v[x as usize];
                let vy = self.v[y as usize];
                self.v.set(x as usize, vx | vy);
                Ok(())
            },
            Instruction::AND(x, y) => {
                let vx = self.v[x as usize];
                let vy = self.v[y as usize];
                self.v.set(x as usize, vx & vy);
                Ok(())
            },
            Instruction::XOR(x, y) => {
                let vx = self.v[x as usize];
                let vy = self.v[y as usize];
                self.v.set(x as usize, vx ^ vy);
                Ok(())
            },
            Instruction::ADD(x, y) => {
                let vx = self.v[x as usize];
                let vy = self.v[y as usize];
                let sum = vx as u16 + vy as u16;
                self.v.set(x as usize, (sum % 256) as u8);
                self.v.set(15, if sum >= 256 { 1 } else { 0 });
                Ok(())
            },
            Instruction::SUB(x, y) => {
                let flag: u8 = if self.v[x as usize] > self.v[y as usize] { 1 } else { 0 };
                self.v.set(15, flag);
                let vx = self.v[x as usize];
                let vy = self.v[y as usize];
                let diff = (vx as u16 + 256 - vy as u16) % 256;
                self.v.set(x as usize, diff as u8);
                Ok(())
            },
            Instruction::SHR(x) => {
                let flag = self.v[x as usize] & 1;
                self.v.set(15, flag);
                let vx = self.v[x as usize];
                self.v.set(x as usize, vx >> 1u8);
                Ok(())
            },
            Instruction::SUBN(x, y) => {
                let flag: u8 = if self.v[y as usize] > self.v[x as usize] { 1 } else { 0 };
                self.v.set(15, flag);
                let vx = self.v[x as usize];
                let vy = self.v[y as usize];
                let diff = (vy as u16 + 256 - vx as u16) % 256;
                self.v.set(x as usize, diff as u8);
                Ok(())
            },
            Instruction::SHL(x) => {
                let flag = (self.v[x as usize] & 0x80) >> 7u8;
                self.v.set(15, flag);
                let vx = self.v[x as usize];
                self.v.set(x as usize, vx << 1u8);
                Ok(())
            },
            Instruction::SNE(x, y) => {
                if self.v[x as usize] != self.v[y as usize] {
                    self.pc = advance_by_2(self.pc);
                }
                Ok(())
            },
            Instruction::LD_I(addr) => {
                self.i = addr;
                Ok(())
            },
            Instruction::JP_V0(addr) => {
                self.pc = addr + self.v[0] as u16;
                Ok(())
            },
            Instruction::RND_BYTE(x, kk) => {
                let b = random_byte();
                self.v.set(x as usize, b & kk);
                proof {
                    assert(self@ == rnd_step(old(self)@, x, kk, b));
                }
                Ok(())
            },
            Instruction::DRW(x, y, n) => {
                let ox = (self.v[x as usize] as usize) % WIDTH;
                let oy = (self.v[y as usize] as usize) % HEIGHT;
                let start = self.i as usize;
                let count = n as usize;
                if start + count > 4096 {
                    return Err(ExecError::MemoryOutOfRange);
                }
                let (collision, changed) = draw_sprite(
                    &mut self.pixels,
                    &self.mem,
                    start,
                    count,
                    ox,
                    oy,
                );
                self.v.set(15, if collision { 1 } else { 0 });
                if changed {
                    self.should_draw = true;
                }
                proof {
                    assert(self@ =~= exec_spec(old(self)@, instruction)->Ok_0);
                }
                Ok(())
            },
            Instruction::SKP(x) => {
                let key = self.v[x as usize];
                if key >= 16 {
                    return Err(ExecError::KeyOutOfRange);
                }
                if self.keys[key as usize] {
                    self.pc = advance_by_2(self.pc);
                }
                Ok(())
            },
            Instruction::SKNP(x) => {
                let key = self.v[x as usize];
                if key >= 16 {
                    return Err(ExecError::KeyOutOfRange);
                }
                if !self.keys[key as usize] {
                    self.pc = advance_by_2(self.pc);
                }
                Ok(())
            },
            Instruction::LD_DT(x) => {
                let dt = self.dt;
                self.v.set(x as usize, dt);
                Ok(())
            },
            Instruction::LD_KEY(x) => {
                // Scan from the top so that `sel` ends as the lowest pressed
                // key, or 16 when none is pressed.
                let mut sel: usize = 16;
                let mut j: usize = 16;
                while j > 0
                    invariant
                        j <= 16,
                        self == old(self),
                        self@.wf(),
                        (match first_pressed(self.keys@, j as int) {
                            Some(k) => sel == k,
                            None => sel == 16,
                        }),
                    decreases j,
                {
                    j -= 1;
                    if self.keys[j] {
                        sel = j;
                    }
                }
                if sel < 16 {
                    self.v.set(x as usize, sel as u8);
                } else {
                    self.pc = rewind_by_2(self.pc);
                }
                proof {
                    lemma_first_pressed(old(self)@.keys, 0);
                    assert(self@ =~= exec_spec(old(self)@, instruction)->Ok_0);
                }
                Ok(())
            },
            Instruction::LD_DT_SET(x) => {
                self.dt = self.v[x as usize];
                Ok(())
            },
            Instruction::LD_ST_SET(x) => {
                self.st = self.v[x as usize];
                Ok(())
            },
            Instruction::ADD_I(x) => {
                let vx = self.v[x as usize];
                self.i = ((self.i as u32 + vx as u32) % 0x10000) as u16;
                Ok(())
            },
            Instruction::LD_F(x) => {
                let vx = self.v[x as usize];
                self.i = FONT_START_ADDRESS + (vx as u16) * 5;
                Ok(())
            },
            Instruction::LD_B(x) => {
                let ii = self.i as usize;
                if ii + 2 > 4095 {
                    return Err(ExecError::MemoryOutOfRange);
                }
                let vx = self.v[x as usize];
                self.mem.set(ii, vx / 100);
                self.mem.set(ii + 1, (vx / 10) % 10);
                self.mem.set(ii + 2, vx % 10);
                Ok(())
            },
            Instruction::LD_STORE_I(x) => {
                let start = self.i as usize;
                let count = x as usize + 1;
                if start + count > 4096 {
                    return Err(ExecError::MemoryOutOfRange);
                }
                copy_to_mem(&mut self.mem, &self.v, start, count);
                proof {
                    assert(self@ =~= exec_spec(old(self)@, instruction)->Ok_0);
                }
                Ok(())
            },
            Instruction::LD_READ_I(x) => {
                let start = self.i as usize;
                let count = x as usize + 1;
                if start + count > 4096 {
                    return Err(ExecError::MemoryOutOfRange);
                }
                copy_from_mem(&mut self.v, &self.mem, start, count);
                proof {
                    assert(self@ =~= exec_spec(old(self)@, instruction)->Ok_0);
                }
                Ok(())
            },
        }
    }

    /// One whole step: fetch, decode, execute, then decrement each nonzero
    /// timer. A fault ends the step where it was found; a decode fault names
    /// the opcode and the address it was fetched from. The timers decay once
    /// per step, so their cadence follows the rate at which the driver calls
    /// this, not a wall clock.
    pub fn cycle(&mut self) -> (r: Result<(), StepError>)
        requires
            old(self)@.wf(),
        ensures
            final(self)@.wf(),
            cycle_result(old(self)@, final(self)@, r),
    {
        let pc = self.pc as usize;
        if pc + 1 >= 4096 {
            return Err(StepError::FetchOutOfRange { addr: self.pc });
        }
        let addr = self.pc;
        let bytes = (self.mem[pc] as u16) << 8u16 | self.mem[pc + 1] as u16;
        self.pc = self.pc + 2;
        match Instruction::parse(bytes) {
            Ok(inst) => {
                match self.execute(inst) {
                    Ok(()) => {},
                    Err(e) => {
                        return Err(StepError::Exec(e));
                    },
                }
            },
            Err(_) => {
                return Err(StepError::Decode { opcode: bytes, addr });
            },
        }
        if self.dt > 0 {
            self.dt = self.dt - 1;
        }
        if self.st > 0 {
            self.st = self.st - 1;
        }
        Ok(())
    }
}

/// Register ADD stores the 8-bit wrapped sum of the two operands and sets the
/// flag register to 1 exactly when the true sum reached 256. The flag write
/// comes last, so the law speaks of destinations other than the flag register
/// itself.
pub proof fn lemma_add_sets_carry(s: CpuView, x: u16, y: u16, a: u8, b: u8)
    requires
        s.wf(),
        x < 15,
        y < 16,
        s.v[x as int] == a,
        s.v[y as int] == b,
    ensures
        exec_spec(s, Instruction::ADD(x, y)) is Ok,
        exec_spec(s, Instruction::ADD(x, y))->Ok_0.v[x as int] == (a + b) % 256,
        exec_spec(s, Instruction::ADD(x, y))->Ok_0.v[15] == (if a + b >= 256 { 1u8 } else { 0u8 }),
{
}

/// Register SUB stores the 8-bit wrapped difference and sets the flag
/// register to 1 exactly when the minuend was strictly greater — the flag
/// means "no borrow". The flag is written before the difference, so the law
/// speaks of operands other than the flag register itself.
pub proof fn lemma_sub_sets_borrow(s: CpuView, x: u16, y: u16, a: u8, b: u8)
    requires
        s.wf(),
        x < 15,
        y < 15,
        s.v[x as int] == a,
        s.v[y as int] == b,
    ensures
        exec_spec(s, Instruction::SUB(x, y)) is Ok,
        exec_spec(s, Instruction::SUB(x, y))->Ok_0.v[x as int] == (a - b) % 256,
        exec_spec(s, Instruction::SUB(x, y))->Ok_0.v[15] == (if a > b { 1u8 } else { 0u8 }),
{
    assert((a - b) % 256 == (a - b + 256) % 256) by {
        vstd::arithmetic::div_mod::lemma_mod_add_multiples_vanish(a - b, 256);
    }
}

/// SHIFT-RIGHT parks the pre-shift least-significant bit in the flag register
/// and halves the value; the law speaks of operands other than the flag
/// register, which the flag write would overwrite first.
pub proof fn lemma_shift_right_flag(s: CpuView, x: u16, a: u8)
    requires
        s.wf(),
        x < 15,
        s.v[x as int] == a,
    ensures
        exec_spec(s, Instruction::SHR(x)) is Ok,
        exec_spec(s, Instruction::SHR(x))->Ok_0.v[15] == a & 1,
        exec_spec(s, Instruction::SHR(x))->Ok_0.v[x as int] == a >> 1u8,
{
}

/// SHIFT-LEFT parks the pre-shift most-significant bit, as 0 or 1, in the
/// flag register and doubles the value modulo 256; the law speaks of operands
/// other than the flag register, which the flag write would overwrite first.
pub proof fn lemma_shift_left_flag(s: CpuView, x: u16, a: u8)
    requires
        s.wf(),
        x < 15,
        s.v[x as int] == a,
    ensures
        exec_spec(s, Instruction::SHL(x)) is Ok,
        exec_spec(s, Instruction::SHL(x))->Ok_0.v[15] == (a & 0x80) >> 7u8,
        exec_spec(s, Instruction::SHL(x))->Ok_0.v[x as int] == (2 * a) % 256,
{
    assert(a << 1u8 == (2 * a) % 256) by (bit_vector);
}

/// CLEAR-SCREEN turns every framebuffer cell off and sets the redraw flag,
/// whatever the screen held before.
pub proof fn lemma_clear_screen(s: CpuView)
    requires
        s.wf(),
    ensures
        exec_spec(s, Instruction::CLS) is Ok,
        forall|idx: int| 0 <= idx < 2048 ==> !exec_spec(s, Instruction::CLS)->Ok_0.pixels[idx],
        exec_spec(s, Instruction::CLS)->Ok_0.should_draw,
{
}

/// With no key pressed, the wait-for-key instruction rewinds the program
/// counter by two — undoing the fetch, so the same instruction is refetched —
/// and leaves every register unchanged.
pub proof fn lemma_wait_no_key(s: CpuView, x: u16)
    requires
        s.wf(),
        x < 16,
        forall|j: int| 0 <= j < 16 ==> !s.keys[j],
    ensures
        exec_spec(s, Instruction::LD_KEY(x)) is Ok,
        exec_spec(s, Instruction::LD_KEY(x))->Ok_0.pc == pc_rewind(s.pc),
        exec_spec(s, Instruction::LD_KEY(x))->Ok_0.v == s.v,
{
    lemma_first_pressed(s.keys, 0);
}

/// With key 1 pressed and key 0 released, the wait-for-key instruction stores
/// 1 — the lowest pressed index — into the destination register and does not
/// rewind the program counter.
pub proof fn lemma_wait_key_pressed(s: CpuView, x: u16)
    requires
        s.wf(),
        x < 16,
        !s.keys[0],
        s.keys[1],
    ensures
        exec_spec(s, Instruction::LD_KEY(x)) is Ok,
        exec_spec(s, Instruction::LD_KEY(x))->Ok_0.v == s.v.update(x as int, 1u8),
        exec_spec(s, Instruction::LD_KEY(x))->Ok_0.pc == s.pc,
{
    lemma_first_pressed(s.keys, 0);
    let k = first_pressed(s.keys, 0)->Some_0;
    assert(k == 1) by {
        if k > 1 {
            assert(!s.keys[1]);
        }
    }
}

/// No instruction but the delay-timer set touches the delay timer.
proof fn lemma_exec_preserves_delay_timer(s: CpuView, inst: Instruction)
    requires
        !(inst is LD_DT_SET),
        exec_spec(s, inst) is Ok,
    ensures
        exec_spec(s, inst)->Ok_0.dt == s.dt,
{
}

/// A step never drives the delay timer below zero: at one it reaches zero
/// after the step, and at zero it stays there, as long as the fetched
/// instruction does not itself set the delay timer.
pub proof fn lemma_delay_timer_floor(s0: CpuView, s1: CpuView, r: Result<(), StepError>)
    requires
        cycle_result(s0, s1, r),
        r is Ok,
        !(Instruction::parse_spec(fetched_opcode(s0))->Ok_0 is LD_DT_SET),
    ensures
        s0.dt <= 1 ==> s1.dt == 0,
{
    let op = fetched_opcode(s0);
    let sf = after_fetch(s0);
    let inst = Instruction::parse_spec(op)->Ok_0;
    match inst {
        Instruction::RND_BYTE(x, kk) => {
            let b = choose|b: u8| s1 == tick_timers(#[trigger] rnd_step(sf, x, kk, b));
            assert(rnd_step(sf, x, kk, b).dt == s0.dt);
        },
        _ => {
            lemma_exec_preserves_delay_timer(sf, inst);
        },
    }
}

} // verus!

