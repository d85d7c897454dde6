use vstd::prelude::*;
use crate::decode::{decode, decoded};
use crate::keypad::{first_held, is_held, KeySnapshot};
use crate::machine::{addr12, blank_display, MachineView, CHIP8, FONT_BASE};
use crate::sprite::{collides, draw_grid};

verus! {

/// A condition on which the interpreter stops: the loaded program is at fault.
#[derive(Clone, Copy, Debug, PartialEq, Eq, Structural)]
pub enum Fault {
    /// The word fetched from `address` is no instruction.
    UnknownInstruction { word: u16, address: u16 },
    /// The return fetched from `address` found the call stack empty.
    StackUnderflow { address: u16 },
}

/// What a cycle did, for the loop that drives it.
#[derive(Clone, Copy, Debug, PartialEq, Eq, Structural)]
pub enum Outcome {
    /// The stop key was down: nothing was executed.
    Quit,
    /// One instruction ran and the display is as it was.
    Executed,
    /// One instruction ran that may have changed the display.
    Redraw,
}

/// `a` reduced to 16 bits.
pub open spec fn wrap16(a: int) -> u16 {
    (a % 0x10000) as u16
}

/// The fault for `word`, fetched two bytes before the program counter of `s`.
pub open spec fn unknown(s: MachineView, word: u16) -> Result<MachineView, Fault> {
    Err(Fault::UnknownInstruction { word, address: wrap16(s.pc - 2) })
}

/// `s` with register `x` set to `v`.
pub open spec fn with_reg(s: MachineView, x: int, v: u8) -> MachineView {
    MachineView { variables: s.variables.update(x, v), ..s }
}

/// `s` with the flag register set to `flag`, then register `x` set to `v`.
pub open spec fn with_flag_reg(s: MachineView, x: int, flag: u8, v: u8) -> MachineView {
    MachineView { variables: s.variables.update(15, flag).update(x, v), ..s }
}

/// `s` with the next instruction skipped when `c` holds.
pub open spec fn skip_if(s: MachineView, c: bool) -> MachineView {
    if c {
        MachineView { pc: wrap16(s.pc + 2), ..s }
    } else {
        s
    }
}

/// The 0x0 family: clear the screen, return from a subroutine.
pub open spec fn system_spec(s: MachineView, word: u16) -> Result<MachineView, Fault> {
    if word == 0x00E0 {
        Ok(MachineView { display: blank_display(), ..s })
    } else if word == 0x00EE {
        if s.stack.len() == 0 {
            Err(Fault::StackUnderflow { address: wrap16(s.pc - 2) })
        } else {
            Ok(MachineView { pc: s.stack.last(), stack: s.stack.drop_last(), ..s })
        }
    } else {
        unknown(s, word)
    }
}

/// The 0x8 family: register-to-register logic and arithmetic. The shifts read and
/// write Vx (Vy is not consulted).
pub open spec fn arith_spec(s: MachineView, word: u16) -> Result<MachineView, Fault> {
    let i = decoded(word);
    let x = i.x as int;
    let vx = s.variables[x];
    let vy = s.variables[i.y as int];
    if i.n == 0x0 {
        Ok(with_reg(s, x, vy))
    } else if i.n == 0x1 {
        Ok(with_reg(s, x, vx | vy))
    } else if i.n == 0x2 {
        Ok(with_reg(s, x, vx & vy))
    } else if i.n == 0x3 {
        Ok(with_reg(s, x, vx ^ vy))
    } else if i.n == 0x4 {
        Ok(with_flag_reg(s, x, if vx + vy > 0xFF { 1 } else { 0 }, ((vx + vy) % 0x100) as u8))
    } else if i.n == 0x5 {
        Ok(with_flag_reg(s, x, if vx >= vy { 1 } else { 0 }, ((vx - vy) % 0x100) as u8))
    } else if i.n == 0x6 {
        Ok(with_flag_reg(s, x, (vx % 2) as u8, (vx / 2) as u8))
    } else if i.n == 0x7 {
        Ok(with_flag_reg(s, x, if vy >= vx { 1 } else { 0 }, ((vy - vx) % 0x100) as u8))
    } else if i.n == 0xE {
        Ok(with_flag_reg(s, x, (vx / 0x80) as u8, ((vx * 2) % 0x100) as u8))
    } else {
        unknown(s, word)
    }
}

/// The 0xE family: skip on the state of the key named by a register.
pub open spec fn key_spec(s: MachineView, word: u16, held: Seq<bool>) -> Result<
    MachineView,
    Fault,
> {
    let i = decoded(word);
    let vx = s.variables[i.x as int];
    if i.byte == 0x9E {
        Ok(skip_if(s, is_held(held, vx as int)))
    } else if i.byte == 0xA1 {
        Ok(skip_if(s, !is_held(held, vx as int)))
    } else {
        unknown(s, word)
    }
}

/// Memory after the decimal digits of `v` are stored at `index`, `index + 1`, `index + 2`.
pub open spec fn bcd_stored(memory: Seq<u8>, index: u16, v: u8) -> Seq<u8> {
    memory.update(addr12(index as int), (v / 100) as u8).update(
        addr12(index + 1),
        (v / 10 % 10) as u8,
    ).update(addr12(index + 2), (v % 10) as u8)
}

/// Memory after registers V0..=Vx are stored from `index` on.
pub open spec fn regs_stored(memory: Seq<u8>, index: u16, variables: Seq<u8>, x: int) -> Seq<u8> {
    Seq::new(
        memory.len(),
        |a: int|
            if (a - index) % 4096 <= x {
                variables[(a - index) % 4096]
            } else {
                memory[a]
            },
    )
}

/// Registers after V0..=Vx are loaded from memory at `index` on.
pub open spec fn regs_loaded(memory: Seq<u8>, index: u16, variables: Seq<u8>, x: int) -> Seq<u8> {
    Seq::new(
        variables.len(),
        |k: int|
            if k <= x {
                memory[addr12(index + k)]
            } else {
                variables[k]
            },
    )
}

/// The 0xF family: timers, the index register, key wait, memory transfers.
pub open spec fn misc_spec(s: MachineView, word: u16, held: Seq<bool>) -> Result<
    MachineView,
    Fault,
> {
    let i = decoded(word);
    let x = i.x as int;
    let vx = s.variables[x];
    if i.byte == 0x07 {
        Ok(with_reg(s, x, s.delay_timer))
    } else if i.byte == 0x0A {
        match first_held(held) {
            Some(k) => Ok(with_reg(s, x, k)),
            None => Ok(MachineView { pc: wrap16(s.pc - 2), ..s }),
        }
    } else if i.byte == 0x15 {
        Ok(MachineView { delay_timer: vx, ..s })
    } else if i.byte == 0x18 {
        Ok(MachineView { sound_timer: vx, ..s })
    } else if i.byte == 0x1E {
        Ok(MachineView { index: wrap16(s.index + vx), ..s })
    } else if i.byte == 0x29 {
        Ok(MachineView { index: (FONT_BASE + vx * 5) as u16, ..s })
    } else if i.byte == 0x33 {
        Ok(MachineView { memory: bcd_stored(s.memory, s.index, vx), ..s })
    } else if i.byte == 0x55 {
        Ok(MachineView { memory: regs_stored(s.memory, s.index, s.variables, x), ..s })
    } else if i.byte == 0x65 {
        Ok(MachineView { variables: regs_loaded(s.memory, s.index, s.variables, x), ..s })
    } else {
        unknown(s, word)
    }
}

/// DXYN: the sprite of N rows at (Vx mod 64, Vy mod 32); VF tells whether it collided.
pub open spec fn draw_spec(s: MachineView, word: u16) -> MachineView {
    let i = decoded(word);
    let ox = s.variables[i.x as int] as int % 64;
    let oy = s.variables[i.y as int] as int % 32;
    let n = i.n as int;
    MachineView {
        display: draw_grid(s.display, s.memory, s.index, ox, oy, n),
        variables: s.variables.update(
            15,
            if collides(s.display, s.memory, s.index, ox, oy, n) {
                1
            } else {
                0
            },
        ),
        ..s
    }
}

/// The effect of `word` on `s`, whose program counter already points past it, with
/// `held` the keypad state and `random` the byte that CXNN masks.
pub open spec fn execute_spec(s: MachineView, word: u16, held: Seq<bool>, random: u8) -> Result<
    MachineView,
    Fault,
> {
    let i = decoded(word);
    let x = i.x as int;
    let vx = s.variables[x];
    let vy = s.variables[i.y as int];
    if i.op == 0x0 {
        system_spec(s, word)
    } else if i.op == 0x1 {
        Ok(MachineView { pc: i.addr, ..s })
    } else if i.op == 0x2 {
        Ok(MachineView { stack: s.stack.push(s.pc), pc: i.addr, ..s })
    } else if i.op == 0x3 {
        Ok(skip_if(s, vx == i.byte))
    } else if i.op == 0x4 {
        Ok(skip_if(s, vx != i.byte))
    } else if i.op == 0x5 {
        if i.n == 0 {
            Ok(skip_if(s, vx == vy))
        } else {
            unknown(s, word)
        }
    } else if i.op == 0x6 {
        Ok(with_reg(s, x, i.byte))
    } else if i.op == 0x7 {
        Ok(with_reg(s, x, ((vx + i.byte) % 0x100) as u8))
    } else if i.op == 0x8 {
        arith_spec(s, word)
    } else if i.op == 0x9 {
        if i.n == 0 {
            Ok(skip_if(s, vx != vy))
        } else {
            unknown(s, word)
        }
    } else if i.op == 0xA {
        Ok(MachineView { index: i.addr, ..s })
    } else if i.op == 0xB {
        Ok(MachineView { pc: (i.addr + s.variables[0]) as u16, ..s })
    } else if i.op == 0xC {
        Ok(with_reg(s, x, i.byte & random))
    } else if i.op == 0xD {
        Ok(draw_spec(s, word))
    } else if i.op == 0xE {
        key_spec(s, word, held)
    } else {
        misc_spec(s, word, held)
    }
}

/// Whether `word` is an instruction that may change the display.
pub open spec fn redraws(word: u16) -> bool {
    word == 0x00E0 || decoded(word).op == 0xD
}

/// What `execute` returns.
pub open spec fn execute_result(s: MachineView, word: u16, held: Seq<bool>, random: u8) -> Result<
    Outcome,
    Fault,
> {
    match execute_spec(s, word, held, random) {
        Ok(_) => Ok(
            if redraws(word) {
                Outcome::Redraw
            } else {
                Outcome::Executed
            },
        ),
        Err(f) => Err(f),
    }
}

/// The state that a step leads to: the new state, or the old one on a fault.
pub open spec fn state_after(s: MachineView, r: Result<MachineView, Fault>) -> MachineView {
    match r {
        Ok(t) => t,
        Err(_) => s,
    }
}

/// Whether a step succeeded, and on which fault it failed.
pub open spec fn status(r: Result<MachineView, Fault>) -> Result<(), Fault> {
    match r {
        Ok(_) => Ok(()),
        Err(f) => Err(f),
    }
}

/// The state just after `s` fetched its instruction: the program counter two bytes on.
pub open spec fn advanced(s: MachineView) -> MachineView {
    MachineView { pc: wrap16(s.pc + 2), ..s }
}

/// The big-endian instruction word at the program counter.
pub open spec fn fetch_spec(s: MachineView) -> u16 {
    (s.memory[addr12(s.pc as int)] * 0x100 + s.memory[addr12(s.pc + 1)]) as u16
}

/// One fetch-decode-execute step of `s`.
pub open spec fn cycle_spec(s: MachineView, held: Seq<bool>, random: u8) -> Result<
    MachineView,
    Fault,
> {
    execute_spec(advanced(s), fetch_spec(s), held, random)
}

/// What `cycle_with` returns.
pub open spec fn cycle_result(s: MachineView, keys: KeySnapshot, random: u8) -> Result<
    Outcome,
    Fault,
> {
    if keys.quit {
        Ok(Outcome::Quit)
    } else {
        execute_result(advanced(s), fetch_spec(s), keys.held@, random)
    }
}

/// The state that `cycle_with` leaves: unchanged when it stops or faults.
pub open spec fn cycle_state(s: MachineView, keys: KeySnapshot, random: u8) -> MachineView {
    if keys.quit {
        s
    } else {
        state_after(s, cycle_spec(s, keys.held@, random))
    }
}

/// Relies on `rand::random::<u8>`, which draws from the thread-local generator: any
/// byte may come back.
#[verifier::external_body]
fn random_byte() -> (r: u8) {
    rand::random::<u8>()
}

impl CHIP8 {
    /// The fault for `word`, which was fetched two bytes before the program counter.
    fn unknown_instruction(&self, word: u16) -> (f: Fault)
        ensures
            unknown(self@, word) == Err::<MachineView, Fault>(f),
    {
        Fault::UnknownInstruction { word, address: self.pc.wrapping_sub(2) }
    }

    /// Skips the next instruction.
    fn skip_next(&mut self)
        ensures
            final(self)@ == skip_if(old(self)@, true),
    {
        self.pc = self.pc.wrapping_add(2);
    }

    /// 00E0 and 00EE.
    fn exec_system(&mut self, word: u16) -> (r: Result<(), Fault>)
        ensures
            r == status(system_spec(old(self)@, word)),
            final(self)@ == state_after(old(self)@, system_spec(old(self)@, word)),
    {
        if word == 0x00E0 {
            self.display = [[false; 32]; 64];
            assert(self@.display =~= blank_display()) by {
                assert forall|x: int| 0 <= x < 64 implies #[trigger] self@.display[x]
                    =~= blank_display()[x] by {
                    assert(self@.display[x] == self.display@[x]@);
                }
            }
            Ok(())
        } else if word == 0x00EE {
            match self.stack.pop() {
                Some(ret) => {
                    self.pc = ret;
                    Ok(())
                },
                None => Err(Fault::StackUnderflow { address: self.pc.wrapping_sub(2) }),
            }
        } else {
            Err(self.unknown_instruction(word))
        }
    }

    /// Sets register `x` to `v`.
    fn set_reg(&mut self, x: usize, v: u8)
        requires
            x < 16,
        ensures
            final(self)@ == with_reg(old(self)@, x as int, v),
    {
        self.variables[x] = v;
    }

    /// Sets the flag register to `flag`, then register `x` to `v`.
    fn set_flag_reg(&mut self, x: usize, flag: u8, v: u8)
        requires
            x < 16,
        ensures
            final(self)@ == with_flag_reg(old(self)@, x as int, flag, v),
    {
        self.variables[15] = flag;
        self.variables[x] = v;
    }

    /// The 8XYN family.
    fn exec_arith(&mut self, word: u16) -> (r: Result<(), Fault>)
        ensures
            r == status(arith_spec(old(self)@, word)),
            final(self)@ == state_after(old(self)@, arith_spec(old(self)@, word)),
    {
        let i = decode(word);
        let x = i.x as usize;
        let vx = self.variables[x];
        let vy = self.variables[i.y as usize];
        if i.n == 0x0 {
            self.set_reg(x, vy);
        } else if i.n == 0x1 {
            self.set_reg(x, vx | vy);
        } else if i.n == 0x2 {
            self.set_reg(x, vx & vy);
        } else if i.n == 0x3 {
            self.set_reg(x, vx ^ vy);
        } else if i.n == 0x4 {
            let flag: u8 = if vx as u16 + vy as u16 > 0xFF { 1 } else { 0 };
            self.set_flag_reg(x, flag, vx.wrapping_add(vy));
        } else if i.n == 0x5 {
            let flag: u8 = if vx >= vy { 1 } else { 0 };
            self.set_flag_reg(x, flag, vx.wrapping_sub(vy));
        } else if i.n == 0x6 {
            assert(vx & 1 == vx % 2) by (bit_vector);
            assert(vx >> 1 == vx / 2) by (bit_vector);
            self.set_flag_reg(x, vx & 1, vx >> 1);
        } else if i.n == 0x7 {
            let flag: u8 = if vy >= vx { 1 } else { 0 };
            self.set_flag_reg(x, flag, vy.wrapping_sub(vx));
        } else if i.n == 0xE {
            assert((vx >> 7) & 1 == vx / 0x80) by (bit_vector);
            assert(vx << 1 == ((vx * 2) % 0x100) as u8) by (bit_vector);
            self.set_flag_reg(x, (vx >> 7) & 1, vx << 1);
        } else {
            return Err(self.unknown_instruction(word));
        }
        Ok(())
    }

    /// EX9E and EXA1.
    fn exec_keys(&mut self, word: u16, keys: &KeySnapshot) -> (r: Result<(), Fault>)
        ensures
            r == status(key_spec(old(self)@, word, keys.held@)),
            final(self)@ == state_after(old(self)@, key_spec(old(self)@, word, keys.held@)),
    {
        let i = decode(word);
        let vx = self.variables[i.x as usize];
        let down = vx < 16 && keys.held[vx as usize];
        if i.byte == 0x9E {
            if down {
                self.skip_next();
            }
            Ok(())
        } else if i.byte == 0xA1 {
            if !down {
                self.skip_next();
            }
            Ok(())
        } else {
            Err(self.unknown_instruction(word))
        }
    }

    /// FX55: stores V0..=Vx at the index register and on.
    fn store_registers(&mut self, x: usize)
        requires
            x < 16,
        ensures
            final(self)@ == (MachineView {
                memory: regs_stored(old(self)@.memory, old(self)@.index, old(self)@.variables, x as int),
                ..old(self)@
            }),
    {
        let ghost before = self@;
        let mut k: usize = 0;
        while k <= x
            invariant
                x < 16,
                k <= x + 1,
                self@ == (MachineView { memory: self@.memory, ..before }),
                self@.memory.len() == 4096,
                before.variables.len() == 16,
                forall|a: int|
                    0 <= a < 4096 ==> #[trigger] self@.memory[a] == if (a - before.index) % 4096 < k {
                        before.variables[(a - before.index) % 4096]
                    } else {
                        before.memory[a]
                    },
            decreases x + 1 - k,
        {
            let w = (self.index as usize + k) % 4096;
            self.memory[w] = self.variables[k];
            proof {
                assert forall|a: int| 0 <= a < 4096 implies #[trigger] self@.memory[a] == if (a
                    - before.index) % 4096 < k + 1 {
                    before.variables[(a - before.index) % 4096]
                } else {
                    before.memory[a]
                } by {
                    lemma_offset(before.index as int, a, k as int);
                }
            }
            k = k + 1;
        }
        assert(self@.memory =~= regs_stored(before.memory, before.index, before.variables, x as int));
    }

    /// FX65: loads V0..=Vx from the index register and on.
    fn load_registers(&mut self, x: usize)
        requires
            x < 16,
        ensures
            final(self)@ == (MachineView {
                variables: regs_loaded(old(self)@.memory, old(self)@.index, old(self)@.variables, x as int),
                ..old(self)@
            }),
    {
        let ghost before = self@;
        let mut k: usize = 0;
        while k <= x
            invariant
                x < 16,
                k <= x + 1,
                self@ == (MachineView { variables: self@.variables, ..before }),
                self@.variables.len() == 16,
                before.memory.len() == 4096,
                forall|j: int|
                    0 <= j < 16 ==> #[trigger] self@.variables[j] == if j < k {
                        before.memory[addr12(before.index + j)]
                    } else {
                        before.variables[j]
                    },
            decreases x + 1 - k,
        {
            self.variables[k] = self.memory[(self.index as usize + k) % 4096];
            k = k + 1;
        }
        assert(self@.variables =~= regs_loaded(before.memory, before.index, before.variables, x as int));
    }

    /// The FXNN family.
    fn exec_misc(&mut self, word: u16, keys: &KeySnapshot) -> (r: Result<(), Fault>)
        ensures
            r == status(misc_spec(old(self)@, word, keys.held@)),
            final(self)@ == state_after(old(self)@, misc_spec(old(self)@, word, keys.held@)),
    {
        let i = decode(word);
        let x = i.x as usize;
        let vx = self.variables[x];
        if i.byte == 0x07 {
            self.variables[x] = self.delay_timer;
        } else if i.byte == 0x0A {
            match keys.lowest_held() {
                Some(k) => {
                    self.variables[x] = k;
                },
                None => {
                    self.pc = self.pc.wrapping_sub(2);
                },
            }
        } else if i.byte == 0x15 {
            self.delay_timer = vx;
        } else if i.byte == 0x18 {
            self.sound_timer = vx;
        } else if i.byte == 0x1E {
            self.index = self.index.wrapping_add(vx as u16);
        } else if i.byte == 0x29 {
            self.index = FONT_BASE + vx as u16 * 5;
        } else if i.byte == 0x33 {
            let at = self.index as usize;
            self.memory[at % 4096] = vx / 100;
            self.memory[(at + 1) % 4096] = vx / 10 % 10;
            self.memory[(at + 2) % 4096] = vx % 10;
        } else if i.byte == 0x55 {
            self.store_registers(x);
        } else if i.byte == 0x65 {
            self.load_registers(x);
        } else {
            return Err(self.unknown_instruction(word));
        }
        Ok(())
    }

    /// Executes `word`, which was fetched two bytes before the program counter, with
    /// `keys` the keypad sample of this cycle and `random` the byte that CXNN masks.
    /// On a fault the machine is left as it was.
    pub fn execute(&mut self, word: u16, keys: &KeySnapshot, random: u8) -> (r: Result<
        Outcome,
        Fault,
    >)
        ensures
            r == execute_result(old(self)@, word, keys.held@, random),
            final(self)@ == state_after(old(self)@, execute_spec(old(self)@, word, keys.held@, random)),
    {
        reveal(execute_spec);
        let i = decode(word);
        let x = i.x as usize;
        let vx = self.variables[x];
        let vy = self.variables[i.y as usize];
        let done: Result<(), Fault> = if i.op == 0x0 {
            self.exec_system(word)
        } else if i.op == 0x1 {
            self.pc = i.addr;
            Ok(())
        } else if i.op == 0x2 {
            let ret = self.pc;
            self.stack.push(ret);
            self.pc = i.addr;
            Ok(())
        } else if i.op == 0x3 {
            if vx == i.byte {
                self.skip_next();
            }
            Ok(())
        } else if i.op == 0x4 {
            if vx != i.byte {
                self.skip_next();
            }
            Ok(())
        } else if i.op == 0x5 {
            if i.n != 0 {
                Err(self.unknown_instruction(word))
            } else {
                if vx == vy {
                    self.skip_next();
                }
                Ok(())
            }
        } else if i.op == 0x6 {
            self.variables[x] = i.byte;
            Ok(())
        } else if i.op == 0x7 {
            self.variables[x] = vx.wrapping_add(i.byte);
            Ok(())
        } else if i.op == 0x8 {
            self.exec_arith(word)
        } else if i.op == 0x9 {
            if i.n != 0 {
                Err(self.unknown_instruction(word))
            } else {
                if vx != vy {
                    self.skip_next();
                }
                Ok(())
            }
        } else if i.op == 0xA {
            self.index = i.addr;
            Ok(())
        } else if i.op == 0xB {
            self.pc = i.addr + self.variables[0] as u16;
            Ok(())
        } else if i.op == 0xC {
            self.variables[x] = i.byte & random;
            Ok(())
        } else if i.op == 0xD {
            let collision = self.draw_sprite((vx % 64) as usize, (vy % 32) as usize, i.n);
            self.variables[15] = if collision { 1 } else { 0 };
            Ok(())
        } else if i.op == 0xE {
            self.exec_keys(word, keys)
        } else {
            self.exec_misc(word, keys)
        };
        match done {
            Ok(()) => Ok(
                if word == 0x00E0 || i.op == 0xD {
                    Outcome::Redraw
                } else {
                    Outcome::Executed
                },
            ),
            Err(f) => Err(f),
        }
    }

    /// The instruction word at the program counter, high byte first.
    pub fn fetch(&self) -> (word: u16)
        ensures
            word == fetch_spec(self@),
    {
        let hi = self.memory[self.pc as usize % 4096];
        let lo = self.memory[(self.pc as usize + 1) % 4096];
        assert(((hi as u16) << 8) | (lo as u16) == hi * 0x100 + lo) by (bit_vector);
        ((hi as u16) << 8) | (lo as u16)
    }

    /// One cycle with the keypad sample `keys` and `random` as the byte that CXNN masks:
    /// stops when the stop key is down, else fetches, advances the program counter and
    /// executes. On a fault the machine is left as it was before the cycle.
    pub fn cycle_with(&mut self, keys: &KeySnapshot, random: u8) -> (r: Result<Outcome, Fault>)
        ensures
            r == cycle_result(old(self)@, *keys, random),
            final(self)@ == cycle_state(old(self)@, *keys, random),
    {
        if keys.quit {
            return Ok(Outcome::Quit);
        }
        let word = self.fetch();
        let start = self.pc;
        self.pc = self.pc.wrapping_add(2);
        let r = self.execute(word, keys, random);
        if r.is_err() {
            self.pc = start;
        }
        r
    }

    /// One cycle with the keypad sample `keys`; a CXNN instruction draws its random byte
    /// from the thread-local generator.
    pub fn cycle(&mut self, keys: &KeySnapshot) -> (r: Result<Outcome, Fault>)
        ensures
            exists|random: u8|
                r == #[trigger] cycle_result(old(self)@, *keys, random) && final(self)@
                    == cycle_state(old(self)@, *keys, random),
    {
        let random: u8 = if !keys.quit && decode(self.fetch()).op == 0xC {
            random_byte()
        } else {
            0
        };
        self.cycle_with(keys, random)
    }
}

proof fn lemma_offset(index: int, a: int, k: int)
    requires
        0 <= index,
        0 <= a < 4096,
        0 <= k < 4096,
    ensures
        ((a - index) % 4096 == k) == (a == (index + k) % 4096),
{
}

} // verus!
