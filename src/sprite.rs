use vstd::prelude::*;
use crate::machine::{addr12, MachineView, CHIP8};

verus! {

/// Bit `col` of sprite row `row` (read from `memory[index + row]`), counted from the
/// most significant bit.
pub open spec fn sprite_bit(memory: Seq<u8>, index: u16, row: int, col: int) -> bool {
    (memory[addr12(index + row)] >> ((7 - col) as u8)) & 1u8 == 1u8
}

/// Whether the sprite of `n` rows at origin (`ox`, `oy`) flips pixel (`x`, `y`): the
/// pixel lies under a set sprite bit. The sprite is clipped at the right and bottom edges.
pub open spec fn touched(
    memory: Seq<u8>,
    index: u16,
    ox: int,
    oy: int,
    n: int,
    x: int,
    y: int,
) -> bool {
    &&& ox <= x < ox + 8
    &&& x < 64
    &&& oy <= y < oy + n
    &&& y < 32
    &&& sprite_bit(memory, index, y - oy, x - ox)
}

/// The display after the sprite is XORed onto `d`.
pub open spec fn draw_grid(
    d: Seq<Seq<bool>>,
    memory: Seq<u8>,
    index: u16,
    ox: int,
    oy: int,
    n: int,
) -> Seq<Seq<bool>> {
    Seq::new(
        64,
        |x: int|
            Seq::new(
                32,
                |y: int|
                    if touched(memory, index, ox, oy, n, x, y) {
                        !d[x][y]
                    } else {
                        d[x][y]
                    },
            ),
    )
}

/// Whether drawing the sprite onto `d` turns some lit pixel off.
pub open spec fn collides(
    d: Seq<Seq<bool>>,
    memory: Seq<u8>,
    index: u16,
    ox: int,
    oy: int,
    n: int,
) -> bool {
    exists|x: int, y: int|
        0 <= x < 64 && 0 <= y < 32 && #[trigger] touched(memory, index, ox, oy, n, x, y)
            && d[x][y]
}

/// Whether drawing the sprite onto `d` lights some pixel that was off.
pub open spec fn lights_some(
    d: Seq<Seq<bool>>,
    memory: Seq<u8>,
    index: u16,
    ox: int,
    oy: int,
    n: int,
) -> bool {
    exists|x: int, y: int|
        0 <= x < 64 && 0 <= y < 32 && #[trigger] touched(memory, index, ox, oy, n, x, y)
            && !d[x][y]
}

/// `touched`, restricted to the rows before `oy + r` and, in row `oy + r`, to the
/// columns before `ox + k`: the pixels that a row-by-row drawing has reached.
spec fn reached(
    memory: Seq<u8>,
    index: u16,
    ox: int,
    oy: int,
    n: int,
    r: int,
    k: int,
    x: int,
    y: int,
) -> bool {
    &&& touched(memory, index, ox, oy, n, x, y)
    &&& (y < oy + r || (y == oy + r && x < ox + k))
}

spec fn collides_reached(
    d: Seq<Seq<bool>>,
    memory: Seq<u8>,
    index: u16,
    ox: int,
    oy: int,
    n: int,
    r: int,
    k: int,
) -> bool {
    exists|x: int, y: int|
        0 <= x < 64 && 0 <= y < 32 && #[trigger] reached(memory, index, ox, oy, n, r, k, x, y)
            && d[x][y]
}

proof fn lemma_collides_step(
    d: Seq<Seq<bool>>,
    memory: Seq<u8>,
    index: u16,
    ox: int,
    oy: int,
    n: int,
    r: int,
    k: int,
)
    requires
        0 <= ox + k < 64,
        0 <= oy + r < 32,
    ensures
        collides_reached(d, memory, index, ox, oy, n, r, k + 1) == (collides_reached(
            d,
            memory,
            index,
            ox,
            oy,
            n,
            r,
            k,
        ) || (touched(memory, index, ox, oy, n, ox + k, oy + r) && d[ox + k][oy + r])),
{
    if collides_reached(d, memory, index, ox, oy, n, r, k + 1) {
        let (x, y) = choose|x: int, y: int|
            0 <= x < 64 && 0 <= y < 32 && #[trigger] reached(memory, index, ox, oy, n, r, k + 1, x, y)
                && d[x][y];
        if !(x == ox + k && y == oy + r) {
            assert(reached(memory, index, ox, oy, n, r, k, x, y));
        }
    }
    if collides_reached(d, memory, index, ox, oy, n, r, k) {
        let (x, y) = choose|x: int, y: int|
            0 <= x < 64 && 0 <= y < 32 && #[trigger] reached(memory, index, ox, oy, n, r, k, x, y)
                && d[x][y];
        assert(reached(memory, index, ox, oy, n, r, k + 1, x, y));
    }
    if touched(memory, index, ox, oy, n, ox + k, oy + r) && d[ox + k][oy + r] {
        assert(reached(memory, index, ox, oy, n, r, k + 1, ox + k, oy + r));
    }
}

proof fn lemma_collides_row(
    d: Seq<Seq<bool>>,
    memory: Seq<u8>,
    index: u16,
    ox: int,
    oy: int,
    n: int,
    r: int,
    cols: int,
)
    requires
        0 <= ox < 64,
        cols == if ox + 8 <= 64 { 8 } else { 64 - ox },
    ensures
        collides_reached(d, memory, index, ox, oy, n, r, cols) == collides_reached(
            d,
            memory,
            index,
            ox,
            oy,
            n,
            r + 1,
            0,
        ),
{
    if collides_reached(d, memory, index, ox, oy, n, r, cols) {
        let (x, y) = choose|x: int, y: int|
            0 <= x < 64 && 0 <= y < 32 && #[trigger] reached(memory, index, ox, oy, n, r, cols, x, y)
                && d[x][y];
        assert(reached(memory, index, ox, oy, n, r + 1, 0, x, y));
    }
    if collides_reached(d, memory, index, ox, oy, n, r + 1, 0) {
        let (x, y) = choose|x: int, y: int|
            0 <= x < 64 && 0 <= y < 32 && #[trigger] reached(memory, index, ox, oy, n, r + 1, 0, x, y)
                && d[x][y];
        assert(reached(memory, index, ox, oy, n, r, cols, x, y));
    }
}

proof fn lemma_collides_all(
    d: Seq<Seq<bool>>,
    memory: Seq<u8>,
    index: u16,
    ox: int,
    oy: int,
    n: int,
    rows: int,
)
    requires
        0 <= oy < 32,
        rows == if oy + n <= 32 { n } else { 32 - oy },
    ensures
        collides_reached(d, memory, index, ox, oy, n, rows, 0) == collides(d, memory, index, ox, oy, n),
{
    if collides_reached(d, memory, index, ox, oy, n, rows, 0) {
        let (x, y) = choose|x: int, y: int|
            0 <= x < 64 && 0 <= y < 32 && #[trigger] reached(memory, index, ox, oy, n, rows, 0, x, y)
                && d[x][y];
        assert(touched(memory, index, ox, oy, n, x, y));
    }
    if collides(d, memory, index, ox, oy, n) {
        let (x, y) = choose|x: int, y: int|
            0 <= x < 64 && 0 <= y < 32 && #[trigger] touched(memory, index, ox, oy, n, x, y) && d[x][y];
        assert(reached(memory, index, ox, oy, n, rows, 0, x, y));
    }
}

impl CHIP8 {
    /// Whether pixel (`x`, `y`) is lit.
    pub fn pixel(&self, x: usize, y: usize) -> (on: bool)
        requires
            x < 64,
            y < 32,
        ensures
            on == self@.display[x as int][y as int],
    {
        self.display[x][y]
    }

    /// Lights or clears pixel (`x`, `y`).
    pub fn set_pixel(&mut self, x: usize, y: usize, on: bool)
        requires
            x < 64,
            y < 32,
        ensures
            final(self)@ == (MachineView {
                display: old(self)@.display.update(
                    x as int,
                    old(self)@.display[x as int].update(y as int, on),
                ),
                ..old(self)@
            }),
    {
        let ghost before = self@;
        self.display[x][y] = on;
        assert(self@.display =~= before.display.update(x as int, before.display[x as int].update(y as int, on)));
    }

    /// XORs the sprite of `n` rows, read from memory at the index register, onto the
    /// display at origin (`ox`, `oy`), clipped at the right and bottom edges. Returns
    /// whether a lit pixel was turned off.
    pub fn draw_sprite(&mut self, ox: usize, oy: usize, n: u8) -> (collision: bool)
        requires
            ox < 64,
            oy < 32,
        ensures
            collision == collides(
                old(self)@.display,
                old(self)@.memory,
                old(self)@.index,
                ox as int,
                oy as int,
                n as int,
            ),
            final(self)@ == (MachineView {
                display: draw_grid(
                    old(self)@.display,
                    old(self)@.memory,
                    old(self)@.index,
                    ox as int,
                    oy as int,
                    n as int,
                ),
                ..old(self)@
            }),
    {
        let ghost before = self@;
        proof {
            self.lemma_wf();
        }
        let rows: usize = if n as usize <= 32 - oy {
            n as usize
        } else {
            32 - oy
        };
        let cols: usize = if 8 <= 64 - ox {
            8
        } else {
            64 - ox
        };
        let mut collision = false;
        let mut r: usize = 0;
        while r < rows
            invariant
                ox < 64,
                oy < 32,
                rows == if oy + n <= 32 { n as int } else { 32 - oy },
                cols == if ox + 8 <= 64 { 8 } else { 64 - ox },
                r <= rows,
                before.wf(),
                self@ == (MachineView { display: self@.display, ..before }),
                self@.wf(),
                forall|x: int, y: int|
                    0 <= x < 64 && 0 <= y < 32 ==> #[trigger] self@.display[x][y] == if reached(
                        before.memory,
                        before.index,
                        ox as int,
                        oy as int,
                        n as int,
                        r as int,
                        0,
                        x,
                        y,
                    ) {
                        !before.display[x][y]
                    } else {
                        before.display[x][y]
                    },
                collision == collides_reached(
                    before.display,
                    before.memory,
                    before.index,
                    ox as int,
                    oy as int,
                    n as int,
                    r as int,
                    0,
                ),
            decreases rows - r,
        {
            let row_byte = self.memory[(self.index as usize + r) % 4096];
            let mut k: usize = 0;
            while k < cols
                invariant
                    ox < 64,
                    oy < 32,
                    rows == if oy + n <= 32 { n as int } else { 32 - oy },
                    cols == if ox + 8 <= 64 { 8 } else { 64 - ox },
                    r < rows,
                    k <= cols,
                    row_byte == before.memory[addr12(before.index + r)],
                    before.wf(),
                    self@ == (MachineView { display: self@.display, ..before }),
                    self@.wf(),
                    forall|x: int, y: int|
                        0 <= x < 64 && 0 <= y < 32 ==> #[trigger] self@.display[x][y] == if reached(
                            before.memory,
                            before.index,
                            ox as int,
                            oy as int,
                            n as int,
                            r as int,
                            k as int,
                            x,
                            y,
                        ) {
                            !before.display[x][y]
                        } else {
                            before.display[x][y]
                        },
                    collision == collides_reached(
                        before.display,
                        before.memory,
                        before.index,
                        ox as int,
                        oy as int,
                        n as int,
                        r as int,
                        k as int,
                    ),
                decreases cols - k,
            {
                let x = ox + k;
                let y = oy + r;
                proof {
                    lemma_collides_step(
                        before.display,
                        before.memory,
                        before.index,
                        ox as int,
                        oy as int,
                        n as int,
                        r as int,
                        k as int,
                    );
                }
                let shift: u8 = 7 - k as u8;
                if (row_byte >> shift) & 1 == 1 {
                    let on = self.pixel(x, y);
                    if on {
                        collision = true;
                    }
                    self.set_pixel(x, y, !on);
                }
                k = k + 1;
            }
            proof {
                lemma_collides_row(
                    before.display,
                    before.memory,
                    before.index,
                    ox as int,
                    oy as int,
                    n as int,
                    r as int,
                    cols as int,
                );
            }
            r = r + 1;
        }
        proof {
            lemma_collides_all(
                before.display,
                before.memory,
                before.index,
                ox as int,
                oy as int,
                n as int,
                rows as int,
            );
            let g = draw_grid(before.display, before.memory, before.index, ox as int, oy as int, n as int);
            assert forall|x: int| 0 <= x < 64 implies #[trigger] self@.display[x] =~= g[x] by {
                assert forall|y: int| 0 <= y < 32 implies self@.display[x][y] == g[x][y] by {
                    assert(reached(before.memory, before.index, ox as int, oy as int, n as int, rows as int, 0, x, y)
                        == touched(before.memory, before.index, ox as int, oy as int, n as int, x, y));
                }
            }
            assert(self@.display =~= g);
        }
        collision
    }
}

} // verus!
