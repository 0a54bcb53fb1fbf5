//! Properties of the instruction set that hold for every machine state.
use vstd::prelude::*;
use crate::opcode::{Opcode, decode_spec, group_of, n_of, nn_of, nnn_of};
use crate::machine::{
    Chip8State, execute_spec, initial_state, initial_memory, load_spec, cycle_spec, tick_timers, set_reg, word_at, first_pressed,
    MEMORY_SIZE, VIDEO_SIZE, NUM_KEYS,
};
use crate::draw::{drawn_video, draw_collides, sprite_covers, sprite_bit, lemma_cell};

verus! {

/// Decoding is total and deterministic: every word decodes to exactly one
/// well-formed instruction, and it is `Invalid`, carrying the word itself,
/// exactly when the word's group, or its sub-selector in groups 0, 8, E and F,
/// is not a known form.
pub proof fn lemma_decode_total(w: u16)
    ensures
        decode_spec(w).wf(),
        decode_spec(w) is Invalid ==> decode_spec(w) == Opcode::Invalid(w),
        decode_spec(w) is Invalid <==> {
            let g = group_of(w);
            ||| g == 0x0 && nnn_of(w) != 0x0E0 && nnn_of(w) != 0x0EE
            ||| g == 0x8 && !(n_of(w) <= 0x7 || n_of(w) == 0xE)
            ||| g == 0xE && nn_of(w) != 0x9E && nn_of(w) != 0xA1
            ||| g == 0xF && !(nn_of(w) == 0x07 || nn_of(w) == 0x0A || nn_of(w) == 0x15
                || nn_of(w) == 0x18 || nn_of(w) == 0x1E || nn_of(w) == 0x29 || nn_of(w) == 0x33
                || nn_of(w) == 0x55 || nn_of(w) == 0x65)
        },
{
}

/// Add-with-carry: VX receives `(a + b) mod 256` and VF is 1 if `a + b > 255`,
/// else 0, where `a` and `b` are the operands before the instruction.
pub proof fn lemma_add_with_carry(s: Chip8State, x: usize, y: usize, random: u8)
    requires
        s.wf(),
        x < 0xF,
        y < 16,
    ensures
        execute_spec(s, Opcode::Add(x, y), random) is Ok,
        ({
            let u = execute_spec(s, Opcode::Add(x, y), random)->Ok_0;
            let a = s.reg[x as int];
            let b = s.reg[y as int];
            &&& u.reg[x as int] == (a + b) % 256
            &&& u.reg[0xF] == if a + b > 255 { 1u8 } else { 0u8 }
        }),
{
}

/// Subtract-with-borrow: VX receives `(a - b) mod 256` and VF is 1 if
/// `a >= b`, else 0.
pub proof fn lemma_sub_with_borrow(s: Chip8State, x: usize, y: usize, random: u8)
    requires
        s.wf(),
        x < 0xF,
        y < 16,
    ensures
        execute_spec(s, Opcode::Sub(x, y), random) is Ok,
        ({
            let u = execute_spec(s, Opcode::Sub(x, y), random)->Ok_0;
            let a = s.reg[x as int];
            let b = s.reg[y as int];
            &&& u.reg[x as int] == (a - b) % 256
            &&& u.reg[0xF] == if a >= b { 1u8 } else { 0u8 }
        }),
{
}

/// Shifts: shift-right leaves the bit shifted out (bit 0) in VF and shifts
/// VX right by one; shift-left leaves bit 7 in VF and shifts VX left by one.
pub proof fn lemma_shifts(s: Chip8State, x: usize, random: u8)
    requires
        s.wf(),
        x < 0xF,
    ensures
        execute_spec(s, Opcode::ShiftRight(x), random) is Ok,
        execute_spec(s, Opcode::ShiftLeft(x), random) is Ok,
        ({
            let r = execute_spec(s, Opcode::ShiftRight(x), random)->Ok_0;
            let l = execute_spec(s, Opcode::ShiftLeft(x), random)->Ok_0;
            let a = s.reg[x as int];
            &&& r.reg[0xF] == a & 1
            &&& r.reg[x as int] == a >> 1u8
            &&& l.reg[0xF] == (a >> 7u8) & 1
            &&& l.reg[x as int] == a << 1u8
        }),
{
    let a = s.reg[x as int];
    assert(a & 1 == a % 2) by (bit_vector);
    assert(a >> 1u8 == a / 2) by (bit_vector);
    assert((a >> 7u8) & 1 == a / 128) by (bit_vector);
    assert(a << 1u8 == (a * 2) % 256) by (bit_vector);
}

/// Drawing a sprite with at least one set pixel onto an empty framebuffer
/// reports no collision; drawing it again at the same place reports a
/// collision and clears every pixel that the first drawing lit.
pub proof fn lemma_draw_twice(s: Chip8State, x: usize, y: usize, n: u8, random: u8)
    requires
        s.wf(),
        x < 0xF,
        y < 0xF,
        0 < n < 16,
        s.i + n <= MEMORY_SIZE,
        forall|c: int| 0 <= c < VIDEO_SIZE ==> !#[trigger] s.video[c],
        exists|dy: int, dx: int| 0 <= dy < n && 0 <= dx < 8 && #[trigger] sprite_bit(s.mem[s.i + dy], dx),
    ensures
        execute_spec(s, Opcode::Draw(x, y, n), random) is Ok,
        execute_spec(execute_spec(s, Opcode::Draw(x, y, n), random)->Ok_0, Opcode::Draw(x, y, n), random) is Ok,
        ({
            let u1 = execute_spec(s, Opcode::Draw(x, y, n), random)->Ok_0;
            let u2 = execute_spec(u1, Opcode::Draw(x, y, n), random)->Ok_0;
            &&& u1.reg[0xF] == 0
            &&& u2.reg[0xF] == 1
            &&& u2.video == s.video
        }),
{
    let vx = s.reg[x as int] as int;
    let vy = s.reg[y as int] as int;
    let i = s.i as int;
    let v1 = drawn_video(s.video, s.mem, i, vx, vy, n as int);
    let (dy, dx) = choose|dy: int, dx: int| 0 <= dy < n && 0 <= dx < 8 && #[trigger] sprite_bit(s.mem[s.i + dy], dx);
    lemma_cell(vx, vy, dx, dy, 0);
    let c = ((vy + dy) % 32) * 64 + (vx + dx) % 64;
    assert(sprite_covers(s.mem, i, vx, vy, n as int, c % 64, c / 64));
    assert(v1[c]);
    assert(draw_collides(v1, s.mem, i, vx, vy, n as int));
    assert(!draw_collides(s.video, s.mem, i, vx, vy, n as int));
    assert(drawn_video(v1, s.mem, i, vx, vy, n as int) =~= s.video);
}

/// Key-wait: when no key is pressed, a cycle on the key-wait instruction
/// `Fx0A` leaves the counter on that instruction and the registers as they
/// were; when a key is pressed, VX receives the lowest-numbered pressed key
/// and the counter moves past the instruction.
pub proof fn lemma_key_wait(s: Chip8State, x: usize, random: u8)
    requires
        s.wf(),
        x < 16,
        s.pc + 1 < MEMORY_SIZE,
        word_at(s.mem, s.pc as int) == 0xF00A + x * 0x100,
    ensures
        cycle_spec(s, random).1 is Ok,
        (forall|k: int| 0 <= k < NUM_KEYS ==> !#[trigger] s.keypad[k]) ==> cycle_spec(s, random).0
            == tick_timers(s),
        forall|k: int|
            0 <= k < NUM_KEYS && #[trigger] s.keypad[k] && (forall|j: int| 0 <= j < k ==> !s.keypad[j])
                ==> cycle_spec(s, random).0 == tick_timers(
                set_reg(Chip8State { pc: (s.pc + 2) as u16, ..s }, x, k as u8),
            ),
{
    let w = word_at(s.mem, s.pc as int);
    assert(decode_spec(w) == Opcode::LoadKeyPress(x));
    if forall|k: int| 0 <= k < NUM_KEYS ==> !#[trigger] s.keypad[k] {
        lemma_first_pressed_none(s.keypad, 0);
    }
    assert forall|k: int|
        0 <= k < NUM_KEYS && #[trigger] s.keypad[k] && (forall|j: int| 0 <= j < k ==> !s.keypad[j])
            implies first_pressed(s.keypad, 0) == k by {
        lemma_first_pressed_lowest(s.keypad, 0, k);
    }
}

proof fn lemma_first_pressed_none(keys: Seq<bool>, k: int)
    requires
        0 <= k <= NUM_KEYS,
        forall|j: int| 0 <= j < NUM_KEYS ==> !#[trigger] keys[j],
    ensures
        first_pressed(keys, k) == NUM_KEYS,
    decreases NUM_KEYS - k,
{
    if k < NUM_KEYS {
        lemma_first_pressed_none(keys, k + 1);
    }
}

proof fn lemma_first_pressed_lowest(keys: Seq<bool>, k: int, p: int)
    requires
        0 <= k <= p < NUM_KEYS,
        keys[p],
        forall|j: int| 0 <= j < p ==> !#[trigger] keys[j],
    ensures
        first_pressed(keys, k) == p,
    decreases NUM_KEYS - k,
{
    if k < p {
        lemma_first_pressed_lowest(keys, k + 1, p);
    }
}

/// Timers: in a cycle that succeeds, a nonzero timer goes down by exactly one
/// and a zero timer stays at zero, whichever instruction ran, unless the
/// instruction itself sets that timer.
pub proof fn lemma_timers(s: Chip8State, random: u8)
    requires
        s.wf(),
        cycle_spec(s, random).1 is Ok,
    ensures
        !(decode_spec(word_at(s.mem, s.pc as int)) is LoadDelayTimerSet) ==> cycle_spec(s, random).0.dt
            == if s.dt > 0 { (s.dt - 1) as u8 } else { 0u8 },
        !(decode_spec(word_at(s.mem, s.pc as int)) is LoadSoundTimer) ==> cycle_spec(s, random).0.st
            == if s.st > 0 { (s.st - 1) as u8 } else { 0u8 },
{
}

/// The machine after one cycle per byte of `randoms`, each cycle drawing its
/// random byte from there, or `None` if a cycle fails.
pub open spec fn run_cycles(s: Chip8State, randoms: Seq<u8>) -> Option<Chip8State>
    decreases randoms.len(),
{
    if randoms.len() == 0 {
        Some(s)
    } else {
        let (t, r) = cycle_spec(s, randoms[0]);
        if r is Ok {
            run_cycles(t, randoms.drop_first())
        } else {
            None
        }
    }
}

/// The program that clears the screen, then jumps to itself forever.
pub open spec fn clear_and_spin() -> Seq<u8> {
    seq![0x00u8, 0xE0, 0x12, 0x02]
}

/// Spinning on the jump at 0x202 with a blank screen goes on without error.
proof fn lemma_spin(t: Chip8State, randoms: Seq<u8>)
    requires
        t.wf(),
        t.pc == 0x202,
        t.mem[0x202] == 0x12,
        t.mem[0x203] == 0x02,
        forall|c: int| 0 <= c < VIDEO_SIZE ==> !#[trigger] t.video[c],
    ensures
        run_cycles(t, randoms) is Some,
        ({
            let u = run_cycles(t, randoms)->Some_0;
            &&& u.pc == 0x202
            &&& forall|c: int| 0 <= c < VIDEO_SIZE ==> !#[trigger] u.video[c]
        }),
    decreases randoms.len(),
{
    if randoms.len() > 0 {
        assert(word_at(t.mem, 0x202) == 0x1202);
        assert(decode_spec(0x1202) == Opcode::Jump(0x202));
        let u = cycle_spec(t, randoms[0]).0;
        lemma_spin(u, randoms.drop_first());
    }
}

/// A machine at power-on with the program that clears the screen and then
/// jumps to itself loaded shows a blank framebuffer after any number of
/// cycles, at least one, and never fails.
pub proof fn lemma_clear_and_spin(s: Chip8State, randoms: Seq<u8>)
    requires
        s == (Chip8State { mem: load_spec(initial_memory(), clear_and_spin()), ..initial_state() }),
        randoms.len() >= 1,
    ensures
        run_cycles(s, randoms) is Some,
        forall|c: int| 0 <= c < VIDEO_SIZE ==> !#[trigger] run_cycles(s, randoms)->Some_0.video[c],
{
    assert(s.mem[0x200] == 0x00 && s.mem[0x201] == 0xE0);
    assert(s.mem[0x202] == 0x12 && s.mem[0x203] == 0x02);
    assert(word_at(s.mem, 0x200) == 0x00E0);
    assert(decode_spec(0x00E0) == Opcode::ClearScreen);
    let t = cycle_spec(s, randoms[0]).0;
    assert(t.pc == 0x202);
    lemma_spin(t, randoms.drop_first());
}

} // verus!
