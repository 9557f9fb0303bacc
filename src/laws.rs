//! Properties that relate several instructions or cycles, proved over the
//! machine model.
use vstd::prelude::*;
use crate::instruction::{decode_spec, word_family, word_kk, word_x, Instruction};
use crate::machine::{
    cycle_spec, execute_spec, fetch_spec, opcode_spec, pc_back, sprite_bit, sprite_covers,
    sprite_pixel, lemma_sprite_pixel, CycleError, MachineState, DISPLAY_SIZE, FLAG_REGISTER,
    MEMORY_SIZE,
};

verus! {

/// The state after running one cycle per byte of `rnds`, each cycle drawing
/// its random byte from there, or the first error.
pub open spec fn cycles_spec(m: MachineState, rnds: Seq<u8>) -> Result<MachineState, CycleError>
    decreases rnds.len(),
{
    if rnds.len() == 0 {
        Ok(m)
    } else {
        match cycle_spec(m, rnds[0]) {
            Ok(next) => cycles_spec(next, rnds.drop_first()),
            Err(e) => Err(e),
        }
    }
}

/// The state with registers `V0` to `Vx` set to zero.
pub open spec fn zero_registers(m: MachineState, x: u8) -> MachineState {
    MachineState { v: Seq::new(m.v.len(), |k: int| if k <= x { 0 } else { m.v[k] }), ..m }
}

/// Clearing the screen twice leaves the machine as clearing it once does,
/// with every pixel off.
pub proof fn lemma_clear_idempotent(m: MachineState, rnd1: u8, rnd2: u8)
    requires
        m.wf(),
    ensures
        execute_spec(m, Instruction::Cls, rnd1) matches Ok(once) && execute_spec(
            once,
            Instruction::Cls,
            rnd2,
        ) == Ok::<MachineState, crate::machine::Fault>(once) && forall|p: int|
            0 <= p < DISPLAY_SIZE ==> !once.display[p],
{
    let once = execute_spec(m, Instruction::Cls, rnd1)->Ok_0;
    assert(execute_spec(once, Instruction::Cls, rnd2)->Ok_0 =~= once);
}

/// Storing `V0` to `Vx` at `I`, zeroing those registers, and loading them
/// back from the same `I` gives every register its first value.
pub proof fn lemma_store_load_round_trip(m: MachineState, x: u8, rnd1: u8, rnd2: u8)
    requires
        m.wf(),
        x < 16,
        m.i + x + 1 <= MEMORY_SIZE,
    ensures
        execute_spec(m, Instruction::Store { x }, rnd1) matches Ok(stored) && execute_spec(
            zero_registers(stored, x),
            Instruction::Load { x },
            rnd2,
        ) matches Ok(loaded) && loaded.v == m.v,
{
    let stored = execute_spec(m, Instruction::Store { x }, rnd1)->Ok_0;
    let loaded = execute_spec(zero_registers(stored, x), Instruction::Load { x }, rnd2)->Ok_0;
    assert(loaded.v =~= m.v);
}

/// `7xkk` sets `Vx` to `(Vx + kk) mod 256` and changes nothing else: the
/// flag register keeps its value unless it is `Vx` itself.
pub proof fn lemma_add_byte_wraps(m: MachineState, op: u16, rnd: u8)
    requires
        m.wf(),
        word_family(op) == 7,
    ensures
        opcode_spec(m, op, rnd) matches Ok(next) && next.v[word_x(op) as int] == (m.v[word_x(
            op,
        ) as int] + word_kk(op)) % 256 && next == (MachineState { v: next.v, ..m }) && forall|
            k: int,
        |
            0 <= k < 16 && k != word_x(op) ==> next.v[k] == m.v[k],
{
}

/// Each lit sprite pixel `(col, row)` lands on the screen pixel at column
/// `(ox + col) mod 64` and row `(oy + row) mod 32`, which flips.
pub proof fn lemma_draw_wraps(m: MachineState, x: u8, y: u8, n: u8, rnd: u8, col: int, row: int)
    requires
        m.wf(),
        x < 16,
        y < 16,
        n < 16,
        m.i + n <= MEMORY_SIZE,
        0 <= col < 8,
        0 <= row < n,
    ensures
        ({
            let p = sprite_pixel(m.v[x as int], m.v[y as int], col, row);
            execute_spec(m, Instruction::Drw { x, y, n }, rnd) matches Ok(next) && next.display[p]
                == (m.display[p] != sprite_bit(m.memory[m.i + row], col))
        }),
{
    lemma_sprite_pixel(m.v[x as int], m.v[y as int], col, row);
}

/// Drawing the same sprite at the same place twice in a row restores the
/// screen. When every pixel the sprite covers starts out off and the sprite
/// has a lit pixel, the first draw reports no collision and the second one
/// does. The origin registers must not be the flag register, which the
/// first draw overwrites.
pub proof fn lemma_draw_twice(m: MachineState, x: u8, y: u8, n: u8, rnd1: u8, rnd2: u8)
    requires
        m.wf(),
        x < 15,
        y < 15,
        n < 16,
        m.i + n <= MEMORY_SIZE,
    ensures
        execute_spec(m, Instruction::Drw { x, y, n }, rnd1) matches Ok(first) && execute_spec(
            first,
            Instruction::Drw { x, y, n },
            rnd2,
        ) matches Ok(second) && second.display == m.display && ((forall|p: int|
            0 <= p < DISPLAY_SIZE && sprite_covers(m.memory, m.i, n, m.v[x as int], m.v[y as int], p)
                ==> !m.display[p]) && (exists|p: int|
            0 <= p < DISPLAY_SIZE && sprite_covers(m.memory, m.i, n, m.v[x as int], m.v[y as int], p))
            ==> first.v[FLAG_REGISTER as int] == 0 && second.v[FLAG_REGISTER as int] == 1),
{
    let ins = Instruction::Drw { x, y, n };
    let first = execute_spec(m, ins, rnd1)->Ok_0;
    let second = execute_spec(first, ins, rnd2)->Ok_0;
    let ox = m.v[x as int];
    let oy = m.v[y as int];
    assert(first.v[x as int] == ox && first.v[y as int] == oy);
    assert(second.display =~= m.display);
    if (forall|p: int|
        0 <= p < DISPLAY_SIZE && sprite_covers(m.memory, m.i, n, ox, oy, p) ==> !m.display[p])
        && (exists|p: int| 0 <= p < DISPLAY_SIZE && sprite_covers(m.memory, m.i, n, ox, oy, p)) {
        let p = choose|p: int| 0 <= p < DISPLAY_SIZE && sprite_covers(m.memory, m.i, n, ox, oy, p);
        assert(!m.collides(n, ox, oy));
        assert(first.display[p]);
        assert(first.collides(n, ox, oy));
    }
}

/// With no key pressed, a cycle on `Fx0A` leaves the program counter where
/// it was: the instruction moves it back by the two bytes that the fetch
/// moved it on. Nothing the next cycle reads has changed, so the machine
/// waits there.
pub proof fn lemma_wait_key_blocks(m: MachineState, rnd: u8)
    requires
        m.wf(),
        m.pc + 1 < MEMORY_SIZE,
        decode_spec(fetch_spec(m, m.pc)) matches Some(Instruction::LdVxK { .. }),
        !m.any_pressed(),
    ensures
        cycle_spec(m, rnd) matches Ok(next) && next.wf() && next.pc == m.pc && next.memory
            == m.memory && next.keyboard == m.keyboard,
        forall|x: u8| #[trigger]
            execute_spec(m, Instruction::LdVxK { x }, rnd) == Ok::<
                MachineState,
                crate::machine::Fault,
            >(MachineState { pc: pc_back(m.pc), ..m }),
{
}

/// With no key pressed, any number of cycles on `Fx0A` leave the program
/// counter where it was.
pub proof fn lemma_wait_key_never_progresses(m: MachineState, rnds: Seq<u8>)
    requires
        m.wf(),
        m.pc + 1 < MEMORY_SIZE,
        decode_spec(fetch_spec(m, m.pc)) matches Some(Instruction::LdVxK { .. }),
        !m.any_pressed(),
    ensures
        cycles_spec(m, rnds) matches Ok(last) && last.pc == m.pc,
    decreases rnds.len(),
{
    if rnds.len() > 0 {
        lemma_wait_key_blocks(m, rnds[0]);
        let next = cycle_spec(m, rnds[0])->Ok_0;
        assert(fetch_spec(next, next.pc) == fetch_spec(m, m.pc));
        assert(!next.any_pressed());
        lemma_wait_key_never_progresses(next, rnds.drop_first());
    }
}

} // verus!
