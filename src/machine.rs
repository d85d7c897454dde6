use vstd::prelude::*;

verus! {

/// Bytes of addressable memory.
pub const MEMORY_SIZE: usize = 4096;

/// Address of the first font glyph.
pub const FONT_BASE: u16 = 0x050;

/// Address at which a program is loaded and starts.
pub const PROGRAM_START: u16 = 0x200;

/// Display width in pixels.
pub const DISPLAY_WIDTH: usize = 64;

/// Display height in pixels.
pub const DISPLAY_HEIGHT: usize = 32;

/// The mathematical model of a machine: every field as a plain value or sequence.
pub struct MachineView {
    pub memory: Seq<u8>,
    pub pc: u16,
    pub index: u16,
    pub stack: Seq<u16>,
    pub delay_timer: u8,
    pub sound_timer: u8,
    pub variables: Seq<u8>,
    /// `display[x][y]`: column `x`, row `y`.
    pub display: Seq<Seq<bool>>,
}

/// The sixteen 5-byte glyphs of the hex digits 0 to F, in order.
pub open spec fn font_glyphs() -> Seq<u8> {
    seq![
        0xF0u8, 0x90, 0x90, 0x90, 0xF0,
        0x20, 0x60, 0x20, 0x20, 0x70,
        0xF0, 0x10, 0xF0, 0x80, 0xF0,
        0xF0, 0x10, 0xF0, 0x10, 0xF0,
        0x90, 0x90, 0xF0, 0x10, 0x10,
        0xF0, 0x80, 0xF0, 0x10, 0xF0,
        0xF0, 0x80, 0xF0, 0x90, 0xF0,
        0xF0, 0x10, 0x20, 0x40, 0x40,
        0xF0, 0x90, 0xF0, 0x90, 0xF0,
        0xF0, 0x90, 0xF0, 0x10, 0xF0,
        0xF0, 0x90, 0xF0, 0x90, 0x90,
        0xE0, 0x90, 0xE0, 0x90, 0xE0,
        0xF0, 0x80, 0x80, 0x80, 0xF0,
        0xE0, 0x90, 0x90, 0x90, 0xE0,
        0xF0, 0x80, 0xF0, 0x80, 0xF0,
        0xF0, 0x80, 0xF0, 0x80, 0x80,
    ]
}

/// The display with every pixel off.
pub open spec fn blank_display() -> Seq<Seq<bool>> {
    Seq::new(64, |x: int| Seq::new(32, |y: int| false))
}

impl MachineView {
    /// The shape that every machine has: 4096 bytes, 16 registers, a 64 by 32 grid.
    pub open spec fn wf(self) -> bool {
        &&& self.memory.len() == 4096
        &&& self.variables.len() == 16
        &&& self.display.len() == 64
        &&& forall|x: int| 0 <= x < 64 ==> (#[trigger] self.display[x]).len() == 32
    }
}

/// The machine at start-up: zeroed memory with the font installed, all else zero or empty.
pub open spec fn initial_state() -> MachineView {
    MachineView {
        memory: Seq::new(
            4096,
            |a: int|
                if FONT_BASE <= a < FONT_BASE + 80 {
                    font_glyphs()[a - FONT_BASE]
                } else {
                    0u8
                },
        ),
        pc: 0,
        index: 0,
        stack: Seq::empty(),
        delay_timer: 0,
        sound_timer: 0,
        variables: Seq::new(16, |i: int| 0u8),
        display: blank_display(),
    }
}

/// The byte address that a 16-bit address reaches: its low twelve bits.
pub open spec fn addr12(a: int) -> int {
    a % 4096
}

/// Counts down toward zero and stays there.
pub open spec fn count_down(t: u8) -> u8 {
    if t == 0 {
        0
    } else {
        (t - 1) as u8
    }
}

/// The machine after one 60 Hz timer tick.
pub open spec fn tick_spec(s: MachineView) -> MachineView {
    MachineView { delay_timer: count_down(s.delay_timer), sound_timer: count_down(s.sound_timer), ..s }
}

/// The machine after `program` is copied to `PROGRAM_START` and the program counter set there.
pub open spec fn loaded(s: MachineView, program: Seq<u8>) -> MachineView {
    MachineView {
        memory: s.memory.take(PROGRAM_START as int) + program + s.memory.skip(
            PROGRAM_START + program.len(),
        ),
        pc: PROGRAM_START,
        ..s
    }
}

/// Why a program could not be loaded.
#[derive(Clone, Copy, Debug, PartialEq, Eq, Structural)]
pub enum LoadError {
    /// The program does not fit between `PROGRAM_START` and the end of memory.
    ProgramTooLarge { len: usize },
}

/// The machine state of a CHIP-8 interpreter.
pub struct CHIP8 {
    /// 4 KiB of RAM; [0x000, 0x200) is reserved for the interpreter and its font.
    pub memory: [u8; 4096],
    /// Address of the next instruction.
    pub pc: u16,
    /// The index register.
    pub index: u16,
    /// Return addresses of the subroutine calls in progress.
    pub stack: Vec<u16>,
    /// Counts down at 60 Hz.
    pub delay_timer: u8,
    /// Counts down at 60 Hz; a tone sounds while it is nonzero.
    pub sound_timer: u8,
    /// Registers V0 to VF; VF doubles as the flag register.
    pub variables: [u8; 16],
    /// 64 columns of 32 pixels.
    pub display: [[bool; 32]; 64],
}

impl View for CHIP8 {
    type V = MachineView;

    open spec fn view(&self) -> MachineView {
        MachineView {
            memory: self.memory@,
            pc: self.pc,
            index: self.index,
            stack: self.stack@,
            delay_timer: self.delay_timer,
            sound_timer: self.sound_timer,
            variables: self.variables@,
            display: self.display@.map_values(|column: [bool; 32]| column@),
        }
    }
}

impl CHIP8 {
    /// Every machine has the shape that `MachineView::wf` describes.
    pub proof fn lemma_wf(&self)
        ensures
            self@.wf(),
    {
        assert forall|x: int| 0 <= x < 64 implies (#[trigger] self@.display[x]).len() == 32 by {
            assert(self@.display[x] == self.display@[x]@);
        }
    }

    /// A machine at start-up, with the font glyphs at `FONT_BASE`.
    pub fn new() -> (r: CHIP8)
        ensures
            r@ == initial_state(),
    {
        let font: [u8; 80] = [
            0xF0, 0x90, 0x90, 0x90, 0xF0,
            0x20, 0x60, 0x20, 0x20, 0x70,
            0xF0, 0x10, 0xF0, 0x80, 0xF0,
            0xF0, 0x10, 0xF0, 0x10, 0xF0,
            0x90, 0x90, 0xF0, 0x10, 0x10,
            0xF0, 0x80, 0xF0, 0x10, 0xF0,
            0xF0, 0x80, 0xF0, 0x90, 0xF0,
            0xF0, 0x10, 0x20, 0x40, 0x40,
            0xF0, 0x90, 0xF0, 0x90, 0xF0,
            0xF0, 0x90, 0xF0, 0x10, 0xF0,
            0xF0, 0x90, 0xF0, 0x90, 0x90,
            0xE0, 0x90, 0xE0, 0x90, 0xE0,
            0xF0, 0x80, 0x80, 0x80, 0xF0,
            0xE0, 0x90, 0x90, 0x90, 0xE0,
            0xF0, 0x80, 0xF0, 0x80, 0xF0,
            0xF0, 0x80, 0xF0, 0x80, 0x80,
        ];
        assert(font@ == font_glyphs());
        let mut memory: [u8; 4096] = [0u8; 4096];
        let mut i: usize = 0;
        while i < 80
            invariant
                i <= 80,
                font@ == font_glyphs(),
                forall|a: int|
                    0 <= a < 4096 ==> #[trigger] memory@[a] == if FONT_BASE <= a < FONT_BASE + i {
                        font_glyphs()[a - FONT_BASE]
                    } else {
                        0u8
                    },
            decreases 80 - i,
        {
            memory[FONT_BASE as usize + i] = font[i];
            i = i + 1;
        }
        let r = CHIP8 {
            memory,
            pc: 0,
            index: 0,
            stack: Vec::new(),
            delay_timer: 0,
            sound_timer: 0,
            variables: [0u8; 16],
            display: [[false; 32]; 64],
        };
        assert(r@.memory == initial_state().memory);
        assert(r@.variables == initial_state().variables);
        assert(r@.display == blank_display()) by {
            assert forall|x: int| 0 <= x < 64 implies #[trigger] r@.display[x] == blank_display()[x] by {
                assert(r@.display[x] == r.display@[x]@);
                assert(r.display@[x]@ == blank_display()[x]);
            }
        }
        r
    }
    /// The byte at `addr`, whose low twelve bits select it.
    pub fn mem_read(&self, addr: u16) -> (r: u8)
        ensures
            r == self@.memory[addr12(addr as int)],
    {
        assert(addr & 0x0FFF == addr % 4096) by (bit_vector);
        self.memory[(addr & 0x0FFF) as usize]
    }

    /// Writes `data` to the byte that the low twelve bits of `addr` select.
    pub fn mem_write(&mut self, addr: u16, data: u8)
        ensures
            final(self)@ == (MachineView {
                memory: old(self)@.memory.update(addr12(addr as int), data),
                ..old(self)@
            }),
    {
        assert(addr & 0x0FFF == addr % 4096) by (bit_vector);
        self.memory[(addr & 0x0FFF) as usize] = data;
    }

    /// Copies `program` into memory at `PROGRAM_START` and points the program counter
    /// there; a program longer than the space above `PROGRAM_START` is refused and the
    /// machine left as it was.
    pub fn load_program(&mut self, program: &[u8]) -> (r: Result<(), LoadError>)
        ensures
            r is Ok <==> program@.len() <= MEMORY_SIZE - PROGRAM_START,
            r is Ok ==> final(self)@ == loaded(old(self)@, program@),
            r matches Err(e) ==> e == (LoadError::ProgramTooLarge { len: program.len() })
                && final(self)@ == old(self)@,
    {
        let room: usize = MEMORY_SIZE - PROGRAM_START as usize;
        if program.len() > room {
            return Err(LoadError::ProgramTooLarge { len: program.len() });
        }
        let ghost before = self@;
        let mut i: usize = 0;
        while i < program.len()
            invariant
                i <= program@.len() <= MEMORY_SIZE - PROGRAM_START,
                self@ == (MachineView { memory: self@.memory, ..before }),
                self@.memory.len() == 4096,
                forall|a: int|
                    0 <= a < 4096 ==> #[trigger] self@.memory[a] == if PROGRAM_START <= a
                        < PROGRAM_START + i {
                        program@[a - PROGRAM_START]
                    } else {
                        before.memory[a]
                    },
            decreases program@.len() - i,
        {
            self.memory[PROGRAM_START as usize + i] = program[i];
            i = i + 1;
        }
        self.pc = PROGRAM_START;
        assert(self@.memory =~= loaded(before, program@).memory);
        Ok(())
    }

    /// One 60 Hz timer tick: both timers count down toward zero. Returns whether the
    /// tone sounds on this tick, that is whether the sound timer was nonzero.
    pub fn tick_timers(&mut self) -> (beep: bool)
        ensures
            beep == (old(self)@.sound_timer != 0),
            final(self)@ == tick_spec(old(self)@),
    {
        let beep = self.sound_timer != 0;
        self.delay_timer = self.delay_timer.saturating_sub(1);
        self.sound_timer = self.sound_timer.saturating_sub(1);
        beep
    }
}


} // verus!
