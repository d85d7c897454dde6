use vstd::prelude::*;
use crate::decode::{decoded, lemma_decoded_fields};
use crate::execute::{
    advanced, cycle_spec, draw_spec, execute_spec, fetch_spec, misc_spec, state_after, system_spec,
    with_reg, wrap16,
};
use crate::keypad::first_held;
use crate::machine::{addr12, blank_display, tick_spec, MachineView};
use crate::sprite::{collides, draw_grid, lights_some, touched};

verus! {

/// The machine after `n` timer ticks.
pub open spec fn ticks(s: MachineView, n: nat) -> MachineView
    decreases n,
{
    if n == 0 {
        s
    } else {
        tick_spec(ticks(s, (n - 1) as nat))
    }
}

/// Timers count down by one per tick and stop at zero: after `n` ticks each timer holds
/// its old value less `n`, or zero where that would be negative. In particular a timer
/// at zero stays at zero however many ticks follow.
pub proof fn law_timers_saturate(s: MachineView, n: nat)
    ensures
        ticks(s, n).delay_timer == (if s.delay_timer >= n { s.delay_timer - n } else { 0 }),
        ticks(s, n).sound_timer == (if s.sound_timer >= n { s.sound_timer - n } else { 0 }),
    decreases n,
{
    if n > 0 {
        law_timers_saturate(s, (n - 1) as nat);
    }
}

/// Clearing the screen (00E0) succeeds and leaves every pixel off, whatever the display
/// held before.
pub proof fn law_clear_blanks_display(s: MachineView, held: Seq<bool>, random: u8)
    ensures
        execute_spec(s, 0x00E0, held, random) is Ok,
        state_after(s, execute_spec(s, 0x00E0, held, random)).display == blank_display(),
{
    reveal(decoded);
    reveal(execute_spec);
}


proof fn lemma_execute_draw(s: MachineView, word: u16, held: Seq<bool>, random: u8)
    requires
        decoded(word).op == 0xD,
    ensures
        execute_spec(s, word, held, random) == Ok::<MachineView, crate::execute::Fault>(draw_spec(s, word)),
{
    reveal(execute_spec);
}

proof fn lemma_execute_call(s: MachineView, word: u16, held: Seq<bool>, random: u8)
    requires
        decoded(word).op == 0x2,
    ensures
        execute_spec(s, word, held, random) == Ok::<MachineView, crate::execute::Fault>(
            MachineView { stack: s.stack.push(s.pc), pc: decoded(word).addr, ..s },
        ),
{
    reveal(execute_spec);
}

proof fn lemma_execute_return(s: MachineView, held: Seq<bool>, random: u8)
    ensures
        execute_spec(s, 0x00EE, held, random) == system_spec(s, 0x00EE),
{
    reveal(execute_spec);
    assert(decoded(0x00EE).op == 0) by {
        reveal(decoded);
    }
}

proof fn lemma_execute_misc(s: MachineView, word: u16, held: Seq<bool>, random: u8)
    requires
        decoded(word).op == 0xF,
    ensures
        execute_spec(s, word, held, random) == misc_spec(s, word, held),
{
    reveal(execute_spec);
}

/// XORing the same sprite twice at the same origin gives back the display.
proof fn lemma_draw_grid_involution(
    d: Seq<Seq<bool>>,
    memory: Seq<u8>,
    index: u16,
    ox: int,
    oy: int,
    n: int,
)
    requires
        d.len() == 64,
        forall|x: int| 0 <= x < 64 ==> (#[trigger] d[x]).len() == 32,
    ensures
        draw_grid(draw_grid(d, memory, index, ox, oy, n), memory, index, ox, oy, n) == d,
        collides(draw_grid(d, memory, index, ox, oy, n), memory, index, ox, oy, n) == lights_some(
            d,
            memory,
            index,
            ox,
            oy,
            n,
        ),
{
    let d1 = draw_grid(d, memory, index, ox, oy, n);
    let d2 = draw_grid(d1, memory, index, ox, oy, n);
    assert forall|x: int| 0 <= x < 64 implies #[trigger] d2[x] =~= d[x] by {}
    assert(d2 =~= d);
    if collides(d1, memory, index, ox, oy, n) {
        let (x, y) = choose|x: int, y: int|
            0 <= x < 64 && 0 <= y < 32 && #[trigger] touched(memory, index, ox, oy, n, x, y)
                && d1[x][y];
        assert(!d[x][y]);
    }
    if lights_some(d, memory, index, ox, oy, n) {
        let (x, y) = choose|x: int, y: int|
            0 <= x < 64 && 0 <= y < 32 && #[trigger] touched(memory, index, ox, oy, n, x, y)
                && !d[x][y];
        assert(d1[x][y]);
    }
}

/// Drawing the same sprite (DXYN) twice at the same origin, with nothing in between,
/// restores every pixel; the second draw sets VF exactly when the first lit some pixel
/// that was off. The origin registers must not be VF, which the first draw overwrites.
pub proof fn law_draw_twice_restores(s: MachineView, word: u16, held: Seq<bool>, random: u8)
    requires
        s.wf(),
        decoded(word).op == 0xD,
        decoded(word).x != 0xF,
        decoded(word).y != 0xF,
    ensures
        ({
            let s1 = state_after(s, execute_spec(s, word, held, random));
            let s2 = state_after(s1, execute_spec(s1, word, held, random));
            let i = decoded(word);
            let ox = s.variables[i.x as int] as int % 64;
            let oy = s.variables[i.y as int] as int % 32;
            &&& s2.display == s.display
            &&& s2.variables[15] == (if lights_some(s.display, s.memory, s.index, ox, oy, i.n as int) {
                1u8
            } else {
                0u8
            })
        }),
{
    let i = decoded(word);
    lemma_decoded_fields(word);
    let ox = s.variables[i.x as int] as int % 64;
    let oy = s.variables[i.y as int] as int % 32;
    lemma_draw_grid_involution(s.display, s.memory, s.index, ox, oy, i.n as int);
    lemma_execute_draw(s, word, held, random);
    let s1 = state_after(s, execute_spec(s, word, held, random));
    assert(s1.variables[i.x as int] == s.variables[i.x as int]);
    assert(s1.variables[i.y as int] == s.variables[i.y as int]);
    lemma_execute_draw(s1, word, held, random);
}

/// A key wait (FX0A) with no key down replays itself: the cycle leaves the machine,
/// program counter included, as it was. With a key down, Vx receives the lowest held
/// key's value and the program counter moves past the instruction.
pub proof fn law_key_wait(s: MachineView, held: Seq<bool>, random: u8)
    requires
        s.wf(),
        decoded(fetch_spec(s)).op == 0xF,
        decoded(fetch_spec(s)).byte == 0x0A,
    ensures
        cycle_spec(s, held, random) is Ok,
        first_held(held) is None ==> state_after(s, cycle_spec(s, held, random)) == s,
        first_held(held) matches Some(k) ==> state_after(s, cycle_spec(s, held, random))
            == with_reg(advanced(s), decoded(fetch_spec(s)).x as int, k),
        first_held(held) is Some ==> state_after(s, cycle_spec(s, held, random)).pc == wrap16(
            s.pc + 2,
        ),
{
    lemma_execute_misc(advanced(s), fetch_spec(s), held, random);
}

/// A call (2NNN) followed by the return (00EE) found at its target brings the program
/// counter back to the address after the call, and the call stack back to what it was.
pub proof fn law_call_return(s: MachineView, held: Seq<bool>, r1: u8, r2: u8)
    requires
        s.wf(),
        decoded(fetch_spec(s)).op == 0x2,
        s.memory[decoded(fetch_spec(s)).addr as int] == 0x00,
        s.memory[addr12(decoded(fetch_spec(s)).addr + 1)] == 0xEE,
    ensures
        cycle_spec(s, held, r1) is Ok,
        cycle_spec(state_after(s, cycle_spec(s, held, r1)), held, r2) is Ok,
        ({
            let s2 = state_after(
                state_after(s, cycle_spec(s, held, r1)),
                cycle_spec(state_after(s, cycle_spec(s, held, r1)), held, r2),
            );
            &&& s2.pc == wrap16(s.pc + 2)
            &&& s2.stack == s.stack
        }),
{
    let word = fetch_spec(s);
    lemma_decoded_fields(word);
    lemma_execute_call(advanced(s), word, held, r1);
    let s1 = state_after(s, cycle_spec(s, held, r1));
    assert(fetch_spec(s1) == 0x00EE);
    lemma_execute_return(advanced(s1), held, r2);
    assert(s.stack.push(wrap16(s.pc + 2)).drop_last() == s.stack);
}

} // verus!
