use vstd::prelude::*;
use crate::instruction::{decode, decode_spec, Instruction};

verus! {

/// Bytes of addressable memory.
pub const MEMORY_SIZE: usize = 4096;
/// Number of general registers; the last one doubles as the flag register.
pub const REGISTERS_SIZE: usize = 16;
/// Depth of the call stack.
pub const STACK_SIZE: usize = 16;
/// Height of the framebuffer in pixels.
pub const DISPLAY_HEIGHT: usize = 32;
/// Width of the framebuffer in pixels.
pub const DISPLAY_WIDTH: usize = 64;
/// Pixels in the framebuffer, stored row by row.
pub const DISPLAY_SIZE: usize = DISPLAY_HEIGHT * DISPLAY_WIDTH;
/// Number of keys on the hexadecimal keypad.
pub const KEYBOARD_SIZE: usize = 16;
/// Address at which programs are loaded and execution starts.
pub const MEMORY_START: usize = 0x200;
/// Bytes taken by the built-in digit sprites at the start of memory.
pub const CHAR_SPRITES_SIZE: usize = 80;

/// The built-in sprites for the hexadecimal digits 0 to F, five rows each.
pub const CHAR_SPRITES: [u8; CHAR_SPRITES_SIZE] = [
    0xF0, 0x90, 0x90, 0x90, 0xF0,
    0x20, 0x60, 0x20, 0x20, 0x70,
    0xF0, 0x10, 0xF0, 0x80, 0xF0,
    0xF0, 0x10, 0xF0, 0x10, 0xF0,
    0x90, 0x90, 0xF0, 0x10, 0x10,
    0xF0, 0x80, 0xF0, 0x10, 0xF0,
    0xF0, 0x80, 0xF0, 0x90, 0xF0,
    0xF0, 0x10, 0x20, 0x40, 0x40,
    0xF0, 0x90, 0xF0, 0x90, 0xF0,
    0xF0, 0x90, 0xF0, 0x10, 0xF0,
    0xF0, 0x90, 0xF0, 0x90, 0x90,
    0xE0, 0x90, 0xE0, 0x90, 0xE0,
    0xF0, 0x80, 0x80, 0x80, 0xF0,
    0xE0, 0x90, 0x90, 0x90, 0xE0,
    0xF0, 0x80, 0xF0, 0x80, 0xF0,
    0xF0, 0x80, 0xF0, 0x80, 0x80,
];


/// Index of the register that receives carry, borrow and collision flags.
pub const FLAG_REGISTER: usize = 0xF;

/// A condition under which an instruction cannot be carried out. The machine
/// is left as it was.
#[derive(Clone, Copy, Debug, PartialEq, Eq, Structural)]
pub enum Fault {
    /// The word matches no instruction of the set.
    InvalidOpcode,
    /// A call with all stack slots in use, or a stack depth past its capacity.
    StackOverflow,
    /// A return with an empty call stack.
    StackUnderflow,
    /// A memory access past the last address.
    MemoryOutOfRange,
    /// A key instruction naming a key past the keypad.
    KeyOutOfRange,
}

/// The machine as mathematical values.
#[verifier::ext_equal]
pub struct MachineState {
    pub i: u16,
    pub pc: u16,
    pub memory: Seq<u8>,
    pub v: Seq<u8>,
    pub stack: Seq<u16>,
    pub sp: u16,
    pub dt: u8,
    pub st: u8,
    pub keyboard: Seq<bool>,
    pub display: Seq<bool>,
    pub is_drawing: bool,
}

/// The program counter two bytes further on, as a 16-bit register.
pub open spec fn pc_forward(pc: u16) -> u16 {
    ((pc + 2) % 0x10000) as u16
}

/// The program counter two bytes back, as a 16-bit register.
pub open spec fn pc_back(pc: u16) -> u16 {
    ((pc - 2) % 0x10000) as u16
}

/// A timer after one tick: down by one, never below zero.
pub open spec fn timer_tick(t: u8) -> u8 {
    if t > 0 { (t - 1) as u8 } else { 0 }
}

/// Column of the sprite that lands on pixel `p` when drawn with left edge `ox`.
pub open spec fn sprite_col(p: int, ox: u8) -> int {
    (p % DISPLAY_WIDTH as int - ox) % DISPLAY_WIDTH as int
}

/// Row of the sprite that lands on pixel `p` when drawn with top edge `oy`.
pub open spec fn sprite_row(p: int, oy: u8) -> int {
    (p / DISPLAY_WIDTH as int - oy) % DISPLAY_HEIGHT as int
}

/// Pixel `col` of a sprite row, most significant bit first.
pub open spec fn sprite_bit(b: u8, col: int) -> bool {
    (b >> ((7 - col) as u8)) & 1 == 1
}

/// Whether the `n`-row sprite stored at `i`, drawn at `(ox, oy)` with both
/// axes wrapping around the screen, has a set bit on pixel `p`.
pub open spec fn sprite_covers(memory: Seq<u8>, i: u16, n: u8, ox: u8, oy: u8, p: int) -> bool {
    let row = sprite_row(p, oy);
    let col = sprite_col(p, ox);
    row < n && col < 8 && sprite_bit(memory[i + row], col)
}

impl MachineState {
    /// Every store has the size of the machine's.
    pub open spec fn wf(self) -> bool {
        &&& self.memory.len() == MEMORY_SIZE
        &&& self.v.len() == REGISTERS_SIZE
        &&& self.stack.len() == STACK_SIZE
        &&& self.keyboard.len() == KEYBOARD_SIZE
        &&& self.display.len() == DISPLAY_SIZE
    }

    pub open spec fn reg(self, x: u8) -> u8 {
        self.v[x as int]
    }

    pub open spec fn set_reg(self, x: u8, val: u8) -> MachineState {
        MachineState { v: self.v.update(x as int, val), ..self }
    }

    pub open spec fn set_flag(self, on: bool) -> MachineState {
        self.set_reg(FLAG_REGISTER as u8, if on { 1 } else { 0 })
    }

    /// Skips the next instruction when `cond` holds.
    pub open spec fn skip_if(self, cond: bool) -> MachineState {
        if cond { MachineState { pc: pc_forward(self.pc), ..self } } else { self }
    }

    pub open spec fn release_keys(self) -> MachineState {
        MachineState { keyboard: Seq::new(KEYBOARD_SIZE as nat, |k: int| false), ..self }
    }

    /// Both timers after one tick.
    pub open spec fn tick_timers(self) -> MachineState {
        MachineState { dt: timer_tick(self.dt), st: timer_tick(self.st), ..self }
    }

    /// Whether key `k` is the lowest-numbered key that is pressed.
    pub open spec fn first_pressed(self, k: int) -> bool {
        &&& 0 <= k < KEYBOARD_SIZE
        &&& self.keyboard[k]
        &&& forall|j: int| 0 <= j < k ==> !self.keyboard[j]
    }

    pub open spec fn any_pressed(self) -> bool {
        exists|k: int| 0 <= k < KEYBOARD_SIZE && self.keyboard[k]
    }

    /// The framebuffer after XOR-drawing the `n`-row sprite at `I` at `(ox, oy)`.
    pub open spec fn drawn(self, n: u8, ox: u8, oy: u8) -> Seq<bool> {
        Seq::new(
            self.display.len(),
            |p: int| self.display[p] != sprite_covers(self.memory, self.i, n, ox, oy, p),
        )
    }

    /// Whether that draw turns off a pixel that was on.
    pub open spec fn collides(self, n: u8, ox: u8, oy: u8) -> bool {
        exists|p: int|
            0 <= p < DISPLAY_SIZE && #[trigger] sprite_covers(self.memory, self.i, n, ox, oy, p)
                && self.display[p]
    }

    /// Memory with `V0` to `Vx` copied to `I`, `I + 1`, ...
    pub open spec fn stored(self, x: u8) -> Seq<u8> {
        Seq::new(
            self.memory.len(),
            |a: int| if self.i <= a <= self.i + x { self.v[a - self.i] } else { self.memory[a] },
        )
    }

    /// Registers with `V0` to `Vx` read from `I`, `I + 1`, ...
    pub open spec fn loaded(self, x: u8) -> Seq<u8> {
        Seq::new(self.v.len(), |k: int| if k <= x { self.memory[self.i + k] } else { self.v[k] })
    }
}

/// The state after one instruction, or the fault that stops it. `rnd` is the
/// random byte that `Cxkk` uses; no other instruction reads it. Operands are
/// read before anything is written. Where `Vx` is the flag register, the
/// later of the two writes stands: the flag for `8xy4`, the result for
/// `8xy5`, `8xy6`, `8xy7` and `8xyE`.
pub open spec fn execute_spec(m: MachineState, ins: Instruction, rnd: u8) -> Result<
    MachineState,
    Fault,
> {
    match ins {
        Instruction::Cls => Ok(
            MachineState {
                display: Seq::new(DISPLAY_SIZE as nat, |p: int| false),
                is_drawing: true,
                ..m
            },
        ),
        Instruction::Ret => if m.sp == 0 {
            Err(Fault::StackUnderflow)
        } else if m.sp > STACK_SIZE {
            Err(Fault::StackOverflow)
        } else {
            Ok(MachineState { sp: (m.sp - 1) as u16, pc: m.stack[m.sp - 1], ..m })
        },
        Instruction::Sys { nnn } => Ok(MachineState { pc: nnn, ..m }),
        Instruction::Jp { nnn } => Ok(MachineState { pc: nnn, ..m }),
        Instruction::Call { nnn } => if m.sp >= STACK_SIZE {
            Err(Fault::StackOverflow)
        } else {
            Ok(
                MachineState {
                    stack: m.stack.update(m.sp as int, m.pc),
                    sp: (m.sp + 1) as u16,
                    pc: nnn,
                    ..m
                },
            )
        },
        Instruction::SeByte { x, kk } => Ok(m.skip_if(m.reg(x) == kk)),
        Instruction::SneByte { x, kk } => Ok(m.skip_if(m.reg(x) != kk)),
        Instruction::SeReg { x, y } => Ok(m.skip_if(m.reg(x) == m.reg(y))),
        Instruction::LdByte { x, kk } => Ok(m.set_reg(x, kk)),
        Instruction::AddByte { x, kk } => Ok(m.set_reg(x, ((m.reg(x) + kk) % 256) as u8)),
        Instruction::LdReg { x, y } => Ok(m.set_reg(x, m.reg(y))),
        Instruction::Or { x, y } => Ok(m.set_reg(x, m.reg(x) | m.reg(y))),
        Instruction::And { x, y } => Ok(m.set_reg(x, m.reg(x) & m.reg(y))),
        Instruction::Xor { x, y } => Ok(m.set_reg(x, m.reg(x) ^ m.reg(y))),
        Instruction::AddReg { x, y } => Ok(
            m.set_reg(x, ((m.reg(x) + m.reg(y)) % 256) as u8).set_flag(m.reg(x) + m.reg(y) > 255),
        ),
        Instruction::Sub { x, y } => Ok(
            m.set_flag(m.reg(x) > m.reg(y)).set_reg(x, ((m.reg(x) - m.reg(y)) % 256) as u8),
        ),
        Instruction::Shr { x } => Ok(
            m.set_reg(FLAG_REGISTER as u8, m.reg(x) % 2).set_reg(x, m.reg(x) / 2),
        ),
        Instruction::Subn { x, y } => Ok(
            m.set_flag(m.reg(y) > m.reg(x)).set_reg(x, ((m.reg(y) - m.reg(x)) % 256) as u8),
        ),
        Instruction::Shl { x } => Ok(
            m.set_reg(FLAG_REGISTER as u8, m.reg(x) / 128).set_reg(x, ((m.reg(x) * 2) % 256) as u8),
        ),
        Instruction::SneReg { x, y } => Ok(m.skip_if(m.reg(x) != m.reg(y))),
        Instruction::LdI { nnn } => Ok(MachineState { i: nnn, ..m }),
        Instruction::JpV0 { nnn } => Ok(MachineState { pc: (nnn + m.reg(0)) as u16, ..m }),
        Instruction::Rnd { x, kk } => Ok(m.set_reg(x, rnd & kk)),
        Instruction::Drw { x, y, n } => if m.i + n > MEMORY_SIZE {
            Err(Fault::MemoryOutOfRange)
        } else {
            let ox = m.reg(x);
            let oy = m.reg(y);
            Ok(
                MachineState {
                    display: m.drawn(n, ox, oy),
                    is_drawing: true,
                    ..m.set_flag(m.collides(n, ox, oy))
                },
            )
        },
        Instruction::Skp { x } => if m.reg(x) >= KEYBOARD_SIZE {
            Err(Fault::KeyOutOfRange)
        } else {
            Ok(m.skip_if(m.keyboard[m.reg(x) as int]))
        },
        Instruction::Sknp { x } => if m.reg(x) >= KEYBOARD_SIZE {
            Err(Fault::KeyOutOfRange)
        } else if !m.keyboard[m.reg(x) as int] {
            Ok(m.skip_if(true))
        } else {
            Ok(m.release_keys())
        },
        Instruction::LdVxDt { x } => Ok(m.set_reg(x, m.dt)),
        Instruction::LdVxK { x } => if m.any_pressed() {
            Ok(m.set_reg(x, (choose|k: int| m.first_pressed(k)) as u8).release_keys())
        } else {
            Ok(MachineState { pc: pc_back(m.pc), ..m })
        },
        Instruction::LdDtVx { x } => Ok(MachineState { dt: m.reg(x), ..m }),
        Instruction::LdStVx { x } => Ok(MachineState { st: m.reg(x), ..m }),
        Instruction::AddI { x } => Ok(MachineState { i: ((m.i + m.reg(x)) % 0x10000) as u16, ..m }),
        Instruction::LdF { x } => Ok(MachineState { i: (m.reg(x) * 5) as u16, ..m }),
        Instruction::LdB { x } => if m.i + 3 > MEMORY_SIZE {
            Err(Fault::MemoryOutOfRange)
        } else {
            Ok(
                MachineState {
                    memory: m.memory.update(m.i as int, m.reg(x) / 100).update(
                        m.i + 1,
                        (m.reg(x) / 10) % 10,
                    ).update(m.i + 2, m.reg(x) % 10),
                    ..m
                },
            )
        },
        Instruction::Store { x } => if m.i + x + 1 > MEMORY_SIZE {
            Err(Fault::MemoryOutOfRange)
        } else {
            Ok(MachineState { memory: m.stored(x), ..m })
        },
        Instruction::Load { x } => if m.i + x + 1 > MEMORY_SIZE {
            Err(Fault::MemoryOutOfRange)
        } else {
            Ok(MachineState { v: m.loaded(x), ..m })
        },
    }
}

pub open spec fn is_control(ins: Instruction) -> bool {
    ins is Cls || ins is Ret || ins is Sys || ins is Jp || ins is Call || ins is SeByte || ins is SneByte || ins is SeReg || ins is SneReg || ins is JpV0 || ins is Skp || ins is Sknp || ins is LdVxK
}

pub open spec fn is_alu(ins: Instruction) -> bool {
    ins is LdByte || ins is AddByte || ins is LdReg || ins is Or || ins is And || ins is Xor || ins is AddReg || ins is Sub || ins is Shr || ins is Subn || ins is Shl || ins is Rnd
}

pub open spec fn is_memory(ins: Instruction) -> bool {
    ins is LdI || ins is Drw || ins is LdVxDt || ins is LdDtVx || ins is LdStVx || ins is AddI || ins is LdF || ins is LdB || ins is Store || ins is Load
}

/// `after` and `r` are what `expected` describes: its state on success; on a
/// fault, that fault with the machine unchanged.
pub open spec fn outcome<E>(
    before: MachineState,
    after: MachineState,
    r: Result<(), E>,
    expected: Result<MachineState, E>,
) -> bool {
    match expected {
        Ok(m) => r is Ok && after == m,
        Err(e) => r == Err::<(), E>(e) && after == before,
    }
}

/// Why a cycle stopped: the fault, the address of the instruction, and the
/// instruction word when it could be fetched.
#[derive(Clone, Copy, Debug, PartialEq, Eq)]
pub struct CycleError {
    pub fault: Fault,
    pub pc: u16,
    pub opcode: Option<u16>,
}

/// The outcome of executing an instruction word.
pub open spec fn opcode_spec(m: MachineState, opcode: u16, rnd: u8) -> Result<MachineState, Fault> {
    match decode_spec(opcode) {
        Some(ins) => execute_spec(m, ins, rnd),
        None => Err(Fault::InvalidOpcode),
    }
}

/// Whether the word is a `Cxkk`, the one instruction that reads a random byte.
pub open spec fn draws_random(opcode: u16) -> bool {
    decode_spec(opcode) matches Some(Instruction::Rnd { .. })
}

/// The big-endian instruction word stored at `pc`.
pub open spec fn fetch_spec(m: MachineState, pc: u16) -> u16 {
    (m.memory[pc as int] * 256 + m.memory[pc + 1]) as u16
}

/// One cycle: fetch the word at the program counter, move the counter past
/// it, execute the word, then tick both timers.
pub open spec fn cycle_spec(m: MachineState, rnd: u8) -> Result<MachineState, CycleError> {
    if m.pc + 1 >= MEMORY_SIZE {
        Err(CycleError { fault: Fault::MemoryOutOfRange, pc: m.pc, opcode: None })
    } else {
        let op = fetch_spec(m, m.pc);
        match opcode_spec(MachineState { pc: (m.pc + 2) as u16, ..m }, op, rnd) {
            Ok(next) => Ok(next.tick_timers()),
            Err(fault) => Err(CycleError { fault, pc: m.pc, opcode: Some(op) }),
        }
    }
}

/// Where pixel `(col, row)` of a sprite drawn at `(ox, oy)` lands, both axes
/// wrapping around the screen.
pub open spec fn sprite_pixel(ox: u8, oy: u8, col: int, row: int) -> int {
    (ox + col) % DISPLAY_WIDTH as int + ((oy + row) % DISPLAY_HEIGHT as int) * DISPLAY_WIDTH as int
}

/// Sprite pixel `(col, row)` lands on one screen pixel, and that pixel is the
/// only one whose sprite coordinates are `(col, row)`.
pub proof fn lemma_sprite_pixel(ox: u8, oy: u8, col: int, row: int)
    requires
        0 <= col < DISPLAY_WIDTH,
        0 <= row < DISPLAY_HEIGHT,
    ensures
        0 <= sprite_pixel(ox, oy, col, row) < DISPLAY_SIZE,
        sprite_col(sprite_pixel(ox, oy, col, row), ox) == col,
        sprite_row(sprite_pixel(ox, oy, col, row), oy) == row,
        forall|p: int|
            0 <= p < DISPLAY_SIZE && sprite_col(p, ox) == col && sprite_row(p, oy) == row ==> p
                == sprite_pixel(ox, oy, col, row),
{
    let d = sprite_pixel(ox, oy, col, row);
    let cx = (ox + col) % 64;
    let ry = (oy + row) % 32;
    assert(d % 64 == cx && d / 64 == ry) by (nonlinear_arith)
        requires d == cx + ry * 64, 0 <= cx < 64, 0 <= ry < 32;
    assert forall|p: int|
        0 <= p < DISPLAY_SIZE && sprite_col(p, ox) == col && sprite_row(p, oy) == row implies p
            == d by {
        assert(p == (p % 64) + (p / 64) * 64) by (nonlinear_arith)
            requires 0 <= p;
    }
}

/// The machine as constructed: digit sprites at the start of memory,
/// everything else zero or off, the program counter at the load address.
pub open spec fn initial_state() -> MachineState {
    MachineState {
        i: 0,
        pc: MEMORY_START as u16,
        memory: Seq::new(
            MEMORY_SIZE as nat,
            |a: int| if a < CHAR_SPRITES_SIZE { CHAR_SPRITES@[a] } else { 0 },
        ),
        v: Seq::new(REGISTERS_SIZE as nat, |k: int| 0),
        stack: Seq::new(STACK_SIZE as nat, |k: int| 0),
        sp: 0,
        dt: 0,
        st: 0,
        keyboard: Seq::new(KEYBOARD_SIZE as nat, |k: int| false),
        display: Seq::new(DISPLAY_SIZE as nat, |p: int| false),
        is_drawing: false,
    }
}

/// Relies on rand::random: a byte from the thread-local generator. Nothing
/// is known of its value.
#[verifier::external_body]
fn random_byte() -> (r: u8) {
    rand::random::<u8>()
}

/// The whole state of the machine. The host reads the framebuffer, the
/// sound timer and the redraw flag between cycles, and clears the flag once
/// it has drawn.
pub struct Chip8 {
    /// Index register: the base address of memory instructions.
    pub i: u16,
    /// Program counter: the address of the next instruction word.
    pub pc: u16,
    pub memory: [u8; MEMORY_SIZE],
    /// General registers `V0` to `VF`; `VF` receives flags.
    pub v: [u8; REGISTERS_SIZE],
    /// Return addresses of the calls in progress, the oldest first.
    pub stack: [u16; STACK_SIZE],
    /// Number of return addresses on the stack.
    pub sp: u16,
    /// Delay timer, down by one each cycle until zero.
    pub dt: u8,
    /// Sound timer, down by one each cycle until zero; a tone sounds while
    /// it is not zero.
    pub st: u8,
    /// Which keys of the keypad are recorded as pressed.
    pub keyboard: [bool; KEYBOARD_SIZE],
    /// The framebuffer, row by row, `true` for a lit pixel.
    pub display: [bool; DISPLAY_SIZE],
    /// Whether the framebuffer changed since the host last drew it.
    pub is_drawing: bool,
}

impl View for Chip8 {
    type V = MachineState;

    open spec fn view(&self) -> MachineState {
        MachineState {
            i: self.i,
            pc: self.pc,
            memory: self.memory@,
            v: self.v@,
            stack: self.stack@,
            sp: self.sp,
            dt: self.dt,
            st: self.st,
            keyboard: self.keyboard@,
            display: self.display@,
            is_drawing: self.is_drawing,
        }
    }
}

/// Whether sprite pixel `(col, row)` comes before `(pixel, line)` in drawing
/// order: row by row, left to right.
pub open spec fn drawn_before(row: int, col: int, line: int, pixel: int) -> bool {
    row < line || (row == line && col < pixel)
}

impl Chip8 {
    /// A machine with the digit sprites at the start of memory, everything
    /// else zero, and the program counter at the load address.
    pub fn new() -> (r: Chip8)
        ensures
            r@ == initial_state(),
    {
        let mut chip8 = Chip8 {
            i: 0,
            pc: MEMORY_START as u16,
            memory: [0; MEMORY_SIZE],
            v: [0; REGISTERS_SIZE],
            stack: [0; STACK_SIZE],
            sp: 0,
            dt: 0,
            st: 0,
            keyboard: [false; KEYBOARD_SIZE],
            display: [false; DISPLAY_SIZE],
            is_drawing: false,
        };
        let mut k: usize = 0;
        while k < CHAR_SPRITES_SIZE
            invariant
                k <= CHAR_SPRITES_SIZE,
                chip8.i == 0,
                chip8.pc == MEMORY_START,
                forall|j: int| 0 <= j < k ==> chip8.memory@[j] == CHAR_SPRITES@[j],
                forall|j: int| k <= j < MEMORY_SIZE ==> chip8.memory@[j] == 0,
                forall|j: int| 0 <= j < REGISTERS_SIZE ==> chip8.v@[j] == 0,
                forall|j: int| 0 <= j < DISPLAY_SIZE ==> !chip8.display@[j],
                forall|j: int| 0 <= j < STACK_SIZE ==> chip8.stack@[j] == 0,
                forall|j: int| 0 <= j < KEYBOARD_SIZE ==> !chip8.keyboard@[j],
                chip8.sp == 0 && chip8.dt == 0 && chip8.st == 0 && !chip8.is_drawing,
            decreases CHAR_SPRITES_SIZE - k,
        {
            chip8.memory[k] = CHAR_SPRITES[k];
            k = k + 1;
        }
        assert(chip8@ =~= initial_state());
        chip8
    }

    /// `Dxyn` once its operands are read: XOR-draws the `n`-row sprite at `I`
    /// onto the screen at `(ox, oy)` and sets the flag register to whether a
    /// lit pixel was turned off.
    fn draw_sprite(&mut self, ox: u8, oy: u8, n: u8)
        requires
            old(self).i + n <= MEMORY_SIZE,
            n < 16,
        ensures
            final(self)@ == (MachineState {
                display: old(self)@.drawn(n, ox, oy),
                is_drawing: true,
                ..old(self)@.set_flag(old(self)@.collides(n, ox, oy))
            }),
    {
        let ghost s = self@;
        self.v[FLAG_REGISTER] = 0;
        let mut line: u8 = 0;
        while line < n
            invariant
                s.wf(),
                s.i + n <= MEMORY_SIZE,
                n < 16,
                line <= n,
                self@ == (MachineState { display: self@.display, v: self@.v, ..s }),
                self.v@ == s.v.update(FLAG_REGISTER as int, self.v@[FLAG_REGISTER as int]),
                self.v@[FLAG_REGISTER as int] <= 1,
                forall|p: int|
                    0 <= p < DISPLAY_SIZE ==> self.display@[p] == (s.display[p] != (
                    sprite_covers(s.memory, s.i, n, ox, oy, p) && drawn_before(
                        sprite_row(p, oy),
                        sprite_col(p, ox),
                        line as int,
                        0,
                    ))),
                self.v@[FLAG_REGISTER as int] == 1 <==> exists|p: int|
                    0 <= p < DISPLAY_SIZE && #[trigger] sprite_covers(s.memory, s.i, n, ox, oy, p)
                        && s.display[p] && drawn_before(
                        sprite_row(p, oy),
                        sprite_col(p, ox),
                        line as int,
                        0,
                    ),
            decreases n - line,
        {
            let row_bits = self.memory[self.i as usize + line as usize];
            let mut pixel: u8 = 0;
            while pixel < 8
                invariant
                    s.wf(),
                    s.i + n <= MEMORY_SIZE,
                    n < 16,
                    line < n,
                    pixel <= 8,
                    row_bits == s.memory[s.i + line],
                    self@ == (MachineState { display: self@.display, v: self@.v, ..s }),
                    self.v@ == s.v.update(FLAG_REGISTER as int, self.v@[FLAG_REGISTER as int]),
                    self.v@[FLAG_REGISTER as int] <= 1,
                    forall|p: int|
                        0 <= p < DISPLAY_SIZE ==> self.display@[p] == (s.display[p] != (
                        sprite_covers(s.memory, s.i, n, ox, oy, p) && drawn_before(
                            sprite_row(p, oy),
                            sprite_col(p, ox),
                            line as int,
                            pixel as int,
                        ))),
                    self.v@[FLAG_REGISTER as int] == 1 <==> exists|p: int|
                        0 <= p < DISPLAY_SIZE && #[trigger] sprite_covers(
                            s.memory,
                            s.i,
                            n,
                            ox,
                            oy,
                            p,
                        ) && s.display[p] && drawn_before(
                            sprite_row(p, oy),
                            sprite_col(p, ox),
                            line as int,
                            pixel as int,
                        ),
                decreases 8 - pixel,
            {
                proof {
                    lemma_sprite_pixel(ox, oy, pixel as int, line as int);
                }
                let ghost d = sprite_pixel(ox, oy, pixel as int, line as int);
                let dest = (ox as usize + pixel as usize) % DISPLAY_WIDTH + ((oy as usize
                    + line as usize) % DISPLAY_HEIGHT) * DISPLAY_WIDTH;
                assert(dest == d);
                if (row_bits >> (7 - pixel)) & 1 == 1 {
                    assert(sprite_covers(s.memory, s.i, n, ox, oy, d));
                    if self.display[dest] {
                        self.v[FLAG_REGISTER] = 1;
                    }
                    self.display[dest] = !self.display[dest];
                } else {
                    assert(!sprite_covers(s.memory, s.i, n, ox, oy, d));
                }
                pixel = pixel + 1;
            }
            line = line + 1;
        }
        self.is_drawing = true;
        assert(self@.display =~= s.drawn(n, ox, oy));
        assert(self@.v =~= s.set_flag(s.collides(n, ox, oy)).v);
        assert(self@ =~= (MachineState {
            display: s.drawn(n, ox, oy),
            is_drawing: true,
            ..s.set_flag(s.collides(n, ox, oy))
        }));
    }

    /// Clears every key of the latch.
    pub fn reset_all_keys(&mut self)
        ensures
            final(self)@ == old(self)@.release_keys(),
    {
        let ghost s = self@;
        let mut k: usize = 0;
        while k < KEYBOARD_SIZE
            invariant
                k <= KEYBOARD_SIZE,
                self@ == (MachineState { keyboard: self@.keyboard, ..s }),
                self.keyboard@.len() == KEYBOARD_SIZE,
                forall|j: int| 0 <= j < k ==> !self.keyboard@[j],
            decreases KEYBOARD_SIZE - k,
        {
            self.keyboard[k] = false;
            k = k + 1;
        }
        assert(self@ =~= s.release_keys());
    }

    /// `Fx0A`: stores the lowest-numbered pressed key in `Vx` and releases
    /// all keys; with no key pressed, moves the program counter back so that
    /// the instruction runs again.
    fn wait_key(&mut self, x: u8)
        requires
            x < 16,
        ensures
            execute_spec(old(self)@, Instruction::LdVxK { x }, 0) == Ok::<MachineState, Fault>(
                final(self)@,
            ),
    {
        let ghost s = self@;
        let mut k: usize = 0;
        while k < KEYBOARD_SIZE && !self.keyboard[k]
            invariant
                k <= KEYBOARD_SIZE,
                self@ == s,
                forall|j: int| 0 <= j < k ==> !self.keyboard@[j],
            decreases KEYBOARD_SIZE - k,
        {
            k = k + 1;
        }
        if k < KEYBOARD_SIZE {
            assert(s.first_pressed(k as int));
            assert(s.any_pressed());
            let ghost c = choose|j: int| s.first_pressed(j);
            assert(s.first_pressed(c));
            assert(c == k);
            self.v[x as usize] = k as u8;
            self.reset_all_keys();
            assert(self@ =~= s.set_reg(x, k as u8).release_keys());
        } else {
            assert(!s.any_pressed());
            self.pc = self.pc.wrapping_sub(2);
            assert(self@ =~= (MachineState { pc: pc_back(s.pc), ..s }));
        }
    }

    /// `Fx55`: copies `V0` to `Vx` into memory from `I` on.
    fn store_registers(&mut self, x: u8)
        requires
            x < 16,
            old(self).i + x + 1 <= MEMORY_SIZE,
        ensures
            final(self)@ == (MachineState { memory: old(self)@.stored(x), ..old(self)@ }),
    {
        let ghost s = self@;
        let base = self.i as usize;
        let mut k: usize = 0;
        while k <= x as usize
            invariant
                k <= x + 1,
                x < 16,
                base == s.i,
                base + x + 1 <= MEMORY_SIZE,
                self@ == (MachineState { memory: self@.memory, ..s }),
                self.memory@.len() == MEMORY_SIZE,
                forall|a: int|
                    0 <= a < MEMORY_SIZE ==> self.memory@[a] == if base <= a < base + k {
                        s.v[a - base]
                    } else {
                        s.memory[a]
                    },
            decreases x + 1 - k,
        {
            self.memory[base + k] = self.v[k];
            k = k + 1;
        }
        assert(self@ =~= (MachineState { memory: s.stored(x), ..s }));
    }

    /// `Fx65`: loads `V0` to `Vx` from memory from `I` on.
    fn load_registers(&mut self, x: u8)
        requires
            x < 16,
            old(self).i + x + 1 <= MEMORY_SIZE,
        ensures
            final(self)@ == (MachineState { v: old(self)@.loaded(x), ..old(self)@ }),
    {
        let ghost s = self@;
        let base = self.i as usize;
        let mut k: usize = 0;
        while k <= x as usize
            invariant
                k <= x + 1,
                x < 16,
                base == s.i,
                base + x + 1 <= MEMORY_SIZE,
                self@ == (MachineState { v: self@.v, ..s }),
                self.v@.len() == REGISTERS_SIZE,
                forall|j: int|
                    0 <= j < REGISTERS_SIZE ==> self.v@[j] == if j < k {
                        s.memory[base + j]
                    } else {
                        s.v[j]
                    },
            decreases x + 1 - k,
        {
            self.v[k] = self.memory[base + k];
            k = k + 1;
        }
        assert(self@ =~= (MachineState { v: s.loaded(x), ..s }));
    }

    /// Instructions that move the program counter, use the call stack, the
    /// keypad or clear the screen.
    fn execute_control(&mut self, ins: Instruction, rnd: u8) -> (r: Result<(), Fault>)
        requires
            ins.wf(),
            is_control(ins),
        ensures
            outcome(old(self)@, final(self)@, r, execute_spec(old(self)@, ins, rnd)),
    {
        let ghost s = self@;
        match ins {
            Instruction::Cls => {
                self.display = [false; DISPLAY_SIZE];
                self.is_drawing = true;
                assert(self@.display =~= Seq::new(DISPLAY_SIZE as nat, |p: int| false));
                proof {
                    assert(self@ =~= execute_spec(s, ins, rnd)->Ok_0);
                }
            },
            Instruction::Ret => {
                if self.sp == 0 {
                    return Err(Fault::StackUnderflow);
                }
                if self.sp as usize > STACK_SIZE {
                    return Err(Fault::StackOverflow);
                }
                self.sp = self.sp - 1;
                self.pc = self.stack[self.sp as usize];
                proof {
                    assert(self@ =~= execute_spec(s, ins, rnd)->Ok_0);
                }
            },
            Instruction::Sys { nnn } => {
                self.pc = nnn;
                proof {
                    assert(self@ =~= execute_spec(s, ins, rnd)->Ok_0);
                }
            },
            Instruction::Jp { nnn } => {
                self.pc = nnn;
                proof {
                    assert(self@ =~= execute_spec(s, ins, rnd)->Ok_0);
                }
            },
            Instruction::Call { nnn } => {
                if self.sp as usize >= STACK_SIZE {
                    return Err(Fault::StackOverflow);
                }
                self.stack[self.sp as usize] = self.pc;
                self.sp = self.sp + 1;
                self.pc = nnn;
                proof {
                    assert(self@ =~= execute_spec(s, ins, rnd)->Ok_0);
                }
            },
            Instruction::SeByte { x, kk } => {
                if self.v[x as usize] == kk {
                    self.pc = self.pc.wrapping_add(2);
                }
                proof {
                    assert(self@ =~= execute_spec(s, ins, rnd)->Ok_0);
                }
            },
            Instruction::SneByte { x, kk } => {
                if self.v[x as usize] != kk {
                    self.pc = self.pc.wrapping_add(2);
                }
                proof {
                    assert(self@ =~= execute_spec(s, ins, rnd)->Ok_0);
                }
            },
            Instruction::SeReg { x, y } => {
                if self.v[x as usize] == self.v[y as usize] {
                    self.pc = self.pc.wrapping_add(2);
                }
                proof {
                    assert(self@ =~= execute_spec(s, ins, rnd)->Ok_0);
                }
            },
            Instruction::SneReg { x, y } => {
                if self.v[x as usize] != self.v[y as usize] {
                    self.pc = self.pc.wrapping_add(2);
                }
                proof {
                    assert(self@ =~= execute_spec(s, ins, rnd)->Ok_0);
                }
            },
            Instruction::JpV0 { nnn } => {
                self.pc = nnn + self.v[0] as u16;
                proof {
                    assert(self@ =~= execute_spec(s, ins, rnd)->Ok_0);
                }
            },
            Instruction::Skp { x } => {
                let key = self.v[x as usize] as usize;
                if key >= KEYBOARD_SIZE {
                    return Err(Fault::KeyOutOfRange);
                }
                if self.keyboard[key] {
                    self.pc = self.pc.wrapping_add(2);
                }
                proof {
                    assert(self@ =~= execute_spec(s, ins, rnd)->Ok_0);
                }
            },
            Instruction::Sknp { x } => {
                let key = self.v[x as usize] as usize;
                if key >= KEYBOARD_SIZE {
                    return Err(Fault::KeyOutOfRange);
                }
                if !self.keyboard[key] {
                    self.pc = self.pc.wrapping_add(2);
                } else {
                    self.reset_all_keys();
                }
                proof {
                    assert(self@ =~= execute_spec(s, ins, rnd)->Ok_0);
                }
            },
            Instruction::LdVxK { x } => {
                self.wait_key(x);
                proof {
                    assert(self@ =~= execute_spec(s, ins, rnd)->Ok_0);
                }
            },
            _ => {},
        }
        Ok(())
    }

    /// Instructions that compute a register from registers and immediates.
    fn execute_alu(&mut self, ins: Instruction, rnd: u8) -> (r: Result<(), Fault>)
        requires
            ins.wf(),
            is_alu(ins),
        ensures
            outcome(old(self)@, final(self)@, r, execute_spec(old(self)@, ins, rnd)),
    {
        let ghost s = self@;
        match ins {
            Instruction::LdByte { x, kk } => {
                self.v[x as usize] = kk;
                proof {
                    assert(self@ =~= execute_spec(s, ins, rnd)->Ok_0);
                }
            },
            Instruction::AddByte { x, kk } => {
                self.v[x as usize] = self.v[x as usize].wrapping_add(kk);
                proof {
                    assert(self@ =~= execute_spec(s, ins, rnd)->Ok_0);
                }
            },
            Instruction::LdReg { x, y } => {
                self.v[x as usize] = self.v[y as usize];
                proof {
                    assert(self@ =~= execute_spec(s, ins, rnd)->Ok_0);
                }
            },
            Instruction::Or { x, y } => {
                self.v[x as usize] = self.v[x as usize] | self.v[y as usize];
                proof {
                    assert(self@ =~= execute_spec(s, ins, rnd)->Ok_0);
                }
            },
            Instruction::And { x, y } => {
                self.v[x as usize] = self.v[x as usize] & self.v[y as usize];
                proof {
                    assert(self@ =~= execute_spec(s, ins, rnd)->Ok_0);
                }
            },
            Instruction::Xor { x, y } => {
                self.v[x as usize] = self.v[x as usize] ^ self.v[y as usize];
                proof {
                    assert(self@ =~= execute_spec(s, ins, rnd)->Ok_0);
                }
            },
            Instruction::AddReg { x, y } => {
                let vx = self.v[x as usize];
                let vy = self.v[y as usize];
                self.v[x as usize] = vx.wrapping_add(vy);
                self.v[FLAG_REGISTER] = if vy > 0xFF - vx { 1 } else { 0 };
                proof {
                    assert(self@ =~= execute_spec(s, ins, rnd)->Ok_0);
                }
            },
            Instruction::Sub { x, y } => {
                let vx = self.v[x as usize];
                let vy = self.v[y as usize];
                self.v[FLAG_REGISTER] = if vx > vy { 1 } else { 0 };
                self.v[x as usize] = vx.wrapping_sub(vy);
                proof {
                    assert(self@ =~= execute_spec(s, ins, rnd)->Ok_0);
                }
            },
            Instruction::Shr { x } => {
                let vx = self.v[x as usize];
                assert(vx & 1 == vx % 2 && vx >> 1 == vx / 2) by (bit_vector);
                self.v[FLAG_REGISTER] = vx & 1;
                self.v[x as usize] = vx >> 1;
                proof {
                    assert(self@ =~= execute_spec(s, ins, rnd)->Ok_0);
                }
            },
            Instruction::Subn { x, y } => {
                let vx = self.v[x as usize];
                let vy = self.v[y as usize];
                self.v[FLAG_REGISTER] = if vy > vx { 1 } else { 0 };
                self.v[x as usize] = vy.wrapping_sub(vx);
                proof {
                    assert(self@ =~= execute_spec(s, ins, rnd)->Ok_0);
                }
            },
            Instruction::Shl { x } => {
                let vx = self.v[x as usize];
                assert((vx & 0x80) >> 7 == vx / 128) by (bit_vector);
                assert(vx << 1 == (vx % 128) * 2) by (bit_vector);
                self.v[FLAG_REGISTER] = (vx & 0x80) >> 7;
                self.v[x as usize] = vx << 1;
                proof {
                    assert(self@ =~= execute_spec(s, ins, rnd)->Ok_0);
                }
            },
            Instruction::Rnd { x, kk } => {
                self.v[x as usize] = rnd & kk;
                proof {
                    assert(self@ =~= execute_spec(s, ins, rnd)->Ok_0);
                }
            },
            _ => {},
        }
        Ok(())
    }

    /// Instructions on the index register, the timers, memory and the screen.
    fn execute_memory(&mut self, ins: Instruction, rnd: u8) -> (r: Result<(), Fault>)
        requires
            ins.wf(),
            is_memory(ins),
        ensures
            outcome(old(self)@, final(self)@, r, execute_spec(old(self)@, ins, rnd)),
    {
        let ghost s = self@;
        match ins {
            Instruction::LdI { nnn } => {
                self.i = nnn;
                proof {
                    assert(self@ =~= execute_spec(s, ins, rnd)->Ok_0);
                }
            },
            Instruction::Drw { x, y, n } => {
                if self.i as usize + n as usize > MEMORY_SIZE {
                    return Err(Fault::MemoryOutOfRange);
                }
                let ox = self.v[x as usize];
                let oy = self.v[y as usize];
                self.draw_sprite(ox, oy, n);
                proof {
                    assert(self@ =~= execute_spec(s, ins, rnd)->Ok_0);
                }
            },
            Instruction::LdVxDt { x } => {
                self.v[x as usize] = self.dt;
                proof {
                    assert(self@ =~= execute_spec(s, ins, rnd)->Ok_0);
                }
            },
            Instruction::LdDtVx { x } => {
                self.dt = self.v[x as usize];
                proof {
                    assert(self@ =~= execute_spec(s, ins, rnd)->Ok_0);
                }
            },
            Instruction::LdStVx { x } => {
                self.st = self.v[x as usize];
                proof {
                    assert(self@ =~= execute_spec(s, ins, rnd)->Ok_0);
                }
            },
            Instruction::AddI { x } => {
                self.i = self.i.wrapping_add(self.v[x as usize] as u16);
                proof {
                    assert(self@ =~= execute_spec(s, ins, rnd)->Ok_0);
                }
            },
            Instruction::LdF { x } => {
                self.i = self.v[x as usize] as u16 * 5;
                proof {
                    assert(self@ =~= execute_spec(s, ins, rnd)->Ok_0);
                }
            },
            Instruction::LdB { x } => {
                let base = self.i as usize;
                if base + 3 > MEMORY_SIZE {
                    return Err(Fault::MemoryOutOfRange);
                }
                let vx = self.v[x as usize];
                self.memory[base] = vx / 100;
                self.memory[base + 1] = (vx / 10) % 10;
                self.memory[base + 2] = vx % 10;
                proof {
                    assert(self@ =~= execute_spec(s, ins, rnd)->Ok_0);
                }
            },
            Instruction::Store { x } => {
                if self.i as usize + x as usize + 1 > MEMORY_SIZE {
                    return Err(Fault::MemoryOutOfRange);
                }
                self.store_registers(x);
                proof {
                    assert(self@ =~= execute_spec(s, ins, rnd)->Ok_0);
                }
            },
            Instruction::Load { x } => {
                if self.i as usize + x as usize + 1 > MEMORY_SIZE {
                    return Err(Fault::MemoryOutOfRange);
                }
                self.load_registers(x);
                proof {
                    assert(self@ =~= execute_spec(s, ins, rnd)->Ok_0);
                }
            },
            _ => {},
        }
        Ok(())
    }

    /// Carries out one decoded instruction. `rnd` is the random byte that
    /// `Cxkk` combines with its mask; no other instruction reads it. On a
    /// fault the machine is left unchanged.
    pub fn execute(&mut self, ins: Instruction, rnd: u8) -> (r: Result<(), Fault>)
        requires
            ins.wf(),
        ensures
            outcome(old(self)@, final(self)@, r, execute_spec(old(self)@, ins, rnd)),
    {
        match ins {
            Instruction::Cls
            | Instruction::Ret
            | Instruction::Sys { .. }
            | Instruction::Jp { .. }
            | Instruction::Call { .. }
            | Instruction::SeByte { .. }
            | Instruction::SneByte { .. }
            | Instruction::SeReg { .. }
            | Instruction::SneReg { .. }
            | Instruction::JpV0 { .. }
            | Instruction::Skp { .. }
            | Instruction::Sknp { .. }
            | Instruction::LdVxK { .. } => self.execute_control(ins, rnd),
            Instruction::LdByte { .. }
            | Instruction::AddByte { .. }
            | Instruction::LdReg { .. }
            | Instruction::Or { .. }
            | Instruction::And { .. }
            | Instruction::Xor { .. }
            | Instruction::AddReg { .. }
            | Instruction::Sub { .. }
            | Instruction::Shr { .. }
            | Instruction::Subn { .. }
            | Instruction::Shl { .. }
            | Instruction::Rnd { .. } => self.execute_alu(ins, rnd),
            _ => self.execute_memory(ins, rnd),
        }
    }

    /// Decodes and executes one instruction word, drawing a random byte for
    /// `Cxkk`. On a fault the machine is left unchanged.
    pub fn process_opcode(&mut self, opcode: u16) -> (r: Result<(), Fault>)
        ensures
            exists|rnd: u8| outcome(old(self)@, final(self)@, r, opcode_spec(old(self)@, opcode, rnd)),
            !draws_random(opcode) ==> outcome(
                old(self)@,
                final(self)@,
                r,
                opcode_spec(old(self)@, opcode, 0),
            ),
    {
        match decode(opcode) {
            None => Err(Fault::InvalidOpcode),
            Some(ins) => {
                let rnd = match ins {
                    Instruction::Rnd { .. } => random_byte(),
                    _ => 0,
                };
                let r = self.execute(ins, rnd);
                assert(outcome(old(self)@, self@, r, opcode_spec(old(self)@, opcode, rnd)));
                r
            },
        }
    }

    /// Ticks both timers: each goes down by one unless it is zero.
    pub fn update_timers(&mut self)
        ensures
            final(self)@ == old(self)@.tick_timers(),
    {
        if self.dt > 0 {
            self.dt = self.dt - 1;
        }
        if self.st > 0 {
            self.st = self.st - 1;
        }
    }

    /// Runs one cycle: fetches the word at the program counter, moves the
    /// counter past it, executes the word and ticks the timers. On a fault
    /// the machine is left unchanged and the error names the instruction.
    pub fn run_cycle(&mut self) -> (r: Result<(), CycleError>)
        ensures
            exists|rnd: u8| outcome(old(self)@, final(self)@, r, cycle_spec(old(self)@, rnd)),
            old(self).pc + 1 < MEMORY_SIZE && !draws_random(fetch_spec(old(self)@, old(self).pc))
                ==> outcome(old(self)@, final(self)@, r, cycle_spec(old(self)@, 0)),
    {
        let pc = self.pc;
        if pc as usize + 1 >= MEMORY_SIZE {
            let r = Err(CycleError { fault: Fault::MemoryOutOfRange, pc, opcode: None });
            assert(outcome(old(self)@, self@, r, cycle_spec(old(self)@, 0)));
            return r;
        }
        let hi = self.memory[pc as usize] as u16;
        let lo = self.memory[pc as usize + 1] as u16;
        assert(hi < 256 && lo < 256 ==> (hi << 8) | lo == hi * 256 + lo) by (bit_vector);
        let opcode = (hi << 8) | lo;
        assert(opcode == fetch_spec(old(self)@, pc));
        self.pc = pc + 2;
        let ghost advanced = self@;
        let res = self.process_opcode(opcode);
        let ghost rnd = choose|rnd: u8| outcome(advanced, self@, res, opcode_spec(advanced, opcode, rnd));
        assert(outcome(advanced, self@, res, opcode_spec(advanced, opcode, rnd)));
        match res {
            Ok(()) => {
                self.update_timers();
                assert(outcome(old(self)@, self@, Ok::<(), CycleError>(()), cycle_spec(old(self)@, rnd)));
                Ok(())
            },
            Err(fault) => {
                self.pc = pc;
                let r = Err(CycleError { fault, pc, opcode: Some(opcode) });
                assert(self@ =~= old(self)@);
                assert(outcome(old(self)@, self@, r, cycle_spec(old(self)@, rnd)));
                r
            },
        }
    }

    /// Copies a program into memory from the load address on.
    pub fn load_rom(&mut self, rom: &[u8])
        requires
            MEMORY_START + rom@.len() <= MEMORY_SIZE,
        ensures
            final(self)@ == (MachineState {
                memory: old(self)@.memory.update_subrange_with(MEMORY_START as int, rom@),
                ..old(self)@
            }),
    {
        let ghost s = self@;
        let mut k: usize = 0;
        while k < rom.len()
            invariant
                k <= rom@.len(),
                MEMORY_START + rom@.len() <= MEMORY_SIZE,
                self@ == (MachineState { memory: self@.memory, ..s }),
                self.memory@.len() == MEMORY_SIZE,
                forall|a: int|
                    0 <= a < MEMORY_SIZE ==> self.memory@[a] == if MEMORY_START <= a < MEMORY_START
                        + k {
                        rom@[a - MEMORY_START]
                    } else {
                        s.memory[a]
                    },
            decreases rom@.len() - k,
        {
            self.memory[MEMORY_START + k] = rom[k];
            k = k + 1;
        }
        assert(self@ =~= (MachineState {
            memory: s.memory.update_subrange_with(MEMORY_START as int, rom@),
            ..s
        }));
    }

    /// The framebuffer, row by row.
    pub fn get_display_data(&self) -> (r: Vec<bool>)
        ensures
            r@ == self.display@,
    {
        let mut r: Vec<bool> = Vec::with_capacity(DISPLAY_SIZE);
        let mut p: usize = 0;
        while p < DISPLAY_SIZE
            invariant
                p <= DISPLAY_SIZE,
                r@ == self.display@.subrange(0, p as int),
            decreases DISPLAY_SIZE - p,
        {
            r.push(self.display[p]);
            p = p + 1;
        }
        assert(r@ =~= self.display@);
        r
    }

    /// Records key `key` as pressed.
    pub fn set_key(&mut self, key: u8)
        requires
            key < KEYBOARD_SIZE,
        ensures
            final(self)@ == (MachineState {
                keyboard: old(self)@.keyboard.update(key as int, true),
                ..old(self)@
            }),
    {
        self.keyboard[key as usize] = true;
        assert(self@ =~= (MachineState {
            keyboard: old(self)@.keyboard.update(key as int, true),
            ..old(self)@
        }));
    }
}

} // verus!
