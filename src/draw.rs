use vstd::prelude::*;

use vstd::arithmetic::div_mod::{
    lemma_add_mod_noop_right, lemma_small_mod, lemma_sub_mod_noop, lemma_sub_mod_noop_right,
};

use crate::state::{blank_display, Chip8, Chip8View, FaultKind, MEMORY_SIZE};

verus! {

/// Bit `7 - j` of a sprite row: the pixel in column `j` of that row.
pub open spec fn sprite_bit(b: u8, j: int) -> u8 {
    (b >> ((7 - j) as u8)) & 1u8
}

/// The sprite row that lands on display row `r` when drawing at row `vy`.
pub open spec fn row_offset(r: int, vy: int) -> int {
    (r - vy) % 32
}

/// The sprite column that lands on display column `c` when drawing at column `vx`.
pub open spec fn col_offset(c: int, vx: int) -> int {
    (c - vx) % 64
}

/// A pixel after `sprite` was XOR-ed onto display `d` at `(vx, vy)`, wrapping at the edges.
pub open spec fn drawn_pixel(d: Seq<Seq<u8>>, sprite: Seq<u8>, vx: int, vy: int, r: int, c: int) -> u8 {
    let k = row_offset(r, vy);
    let j = col_offset(c, vx);
    if k < sprite.len() && j < 8 {
        d[r][c] ^ sprite_bit(sprite[k], j)
    } else {
        d[r][c]
    }
}

pub open spec fn drawn_display(d: Seq<Seq<u8>>, sprite: Seq<u8>, vx: int, vy: int) -> Seq<Seq<u8>> {
    Seq::new(32, |r: int| Seq::new(64, |c: int| drawn_pixel(d, sprite, vx, vy, r, c)))
}

/// Whether drawing `sprite` at `(vx, vy)` turns off a pixel that was on.
pub open spec fn collides(d: Seq<Seq<u8>>, sprite: Seq<u8>, vx: int, vy: int) -> bool {
    exists|k: int, j: int|
        0 <= k < sprite.len() && 0 <= j < 8 && d[(vy + k) % 32][(vx + j) % 64] == 1
            && #[trigger] sprite_bit(sprite[k], j) == 1
}

/// The pixels as far as the drawing loop has come: every sprite row before `k`,
/// and the columns before `j` of row `k`.
spec fn partly_drawn(d: Seq<Seq<u8>>, sprite: Seq<u8>, vx: int, vy: int, k: int, j: int, r: int, c: int) -> u8 {
    let kr = row_offset(r, vy);
    let jc = col_offset(c, vx);
    if kr < sprite.len() && jc < 8 && (kr < k || (kr == k && jc < j)) {
        d[r][c] ^ sprite_bit(sprite[kr], jc)
    } else {
        d[r][c]
    }
}

spec fn collides_before(d: Seq<Seq<u8>>, sprite: Seq<u8>, vx: int, vy: int, k: int, j: int) -> bool {
    exists|k2: int, j2: int|
        0 <= k2 && 0 <= j2 < 8 && (k2 < k || (k2 == k && j2 < j)) && k2 < sprite.len()
            && d[(vy + k2) % 32][(vx + j2) % 64] == 1 && #[trigger] sprite_bit(sprite[k2], j2) == 1
}

impl Chip8View {
    /// `Dxyn`: the `n` bytes at `I` drawn at `(Vx, Vy)`, with VF telling whether a lit pixel
    /// was erased.
    pub open spec fn drawn(self, x: int, y: int, n: int) -> Chip8View {
        let vx = self.v[x] as int;
        let vy = self.v[y] as int;
        let sprite = self.memory.subrange(self.i as int, self.i + n);
        let flag: u8 = if collides(self.display, sprite, vx, vy) { 1 } else { 0 };
        Chip8View {
            display: drawn_display(self.display, sprite, vx, vy),
            draw: true,
            ..self
        }.with_reg(15, flag)
    }
}

/// Stepping `t` places from `a` and wrapping at `m`, then measuring back from `a`, gives `t`.
proof fn lemma_offset_of_wrapped(a: int, t: int, m: int)
    requires
        0 <= t < m,
    ensures
        ((a + t) % m - a) % m == t,
{
    lemma_sub_mod_noop_right((a + t) % m, a, m);
    lemma_sub_mod_noop(a + t, a, m);
    lemma_small_mod(t as nat, m as nat);
}

/// Measuring `r` back from `a` and stepping forward again from `a` wraps to `r`.
proof fn lemma_wrapped_of_offset(a: int, r: int, m: int)
    requires
        0 <= r < m,
    ensures
        (a + (r - a) % m) % m == r,
{
    lemma_add_mod_noop_right(a, r - a, m);
    lemma_small_mod(r as nat, m as nat);
}

pub(crate) proof fn lemma_bits()
    ensures
        forall|a: u8, b: u8| a <= 1 && b <= 1 ==> #[trigger] (a ^ b) <= 1,
        forall|b: u8, s: u8| #[trigger] ((b >> s) & 1u8) <= 1,
{
    assert forall|a: u8, b: u8| a <= 1 && b <= 1 implies #[trigger] (a ^ b) <= 1 by {
        assert(a <= 1 && b <= 1 ==> (a ^ b) <= 1) by (bit_vector);
    }
    assert forall|b: u8, s: u8| #[trigger] ((b >> s) & 1u8) <= 1 by {
        assert(((b >> s) & 1u8) <= 1) by (bit_vector);
    }
}

impl Chip8 {
    /// `00E0`: turns every pixel off.
    pub fn cls(&mut self)
        requires
            old(self).wf(),
        ensures
            final(self).wf(),
            final(self)@ == old(self)@.cleared(),
    {
        self.display = [[0u8; 64]; 32];
        self.draw = true;
        assert(self@.display =~~= blank_display());
    }

    /// `Dxyn`: XORs the `n`-byte sprite at `I` onto the display at `(Vx, Vy)`.
    /// Fails, changing nothing, when the sprite reaches past the end of memory.
    #[verifier::rlimit(40)]
    pub fn drw(&mut self, x: u16, y: u16, n: u16) -> (r: Result<(), FaultKind>)
        requires
            old(self).wf(),
            x < 16,
            y < 16,
            n < 16,
        ensures
            final(self).wf(),
            old(self).regI + n > 4096 ==> r == Err::<(), FaultKind>(FaultKind::BoundsViolation)
                && final(self)@ == old(self)@,
            old(self).regI + n <= 4096 ==> r == Ok::<(), FaultKind>(())
                && final(self)@ == old(self)@.drawn(x as int, y as int, n as int),
    {
        let vx = self.registers[x as usize];
        let vy = self.registers[y as usize];
        let base = self.regI as usize;
        let n = n as usize;
        if base + n > MEMORY_SIZE {
            return Err(FaultKind::BoundsViolation);
        }
        let ghost d = self@.display;
        let ghost sprite = self@.memory.subrange(base as int, base + n);
        let ghost ivx = vx as int;
        let ghost ivy = vy as int;
        proof {
            lemma_bits();
        }
        let mut display = self.display;
        let mut collided = false;
        let mut k: usize = 0;
        while k < n
            invariant
                0 <= k <= n,
                n < 16,
                ivx == vx as int,
                ivy == vy as int,
                base + n <= 4096,
                sprite == self@.memory.subrange(base as int, base + n),
                d == self@.display,
                self.wf(),
                forall|r: int, c: int|
                    0 <= r < 32 && 0 <= c < 64 ==> #[trigger] display@[r]@[c]
                        == partly_drawn(d, sprite, ivx, ivy, k as int, 0, r, c),
                collided == collides_before(d, sprite, ivx, ivy, k as int, 0),
            decreases n - k,
        {
            let byte = self.memory[base + k];
            let row_idx = (vy as usize + k) % 32;
            proof {
                lemma_offset_of_wrapped(ivy, k as int, 32);
            }
            let mut row = display[row_idx];
            let mut j: usize = 0;
            while j < 8
                invariant
                    0 <= k < n,
                    n < 16,
                    ivx == vx as int,
                    ivy == vy as int,
                    0 <= j <= 8,
                    row_idx == (ivy + k) % 32,
                    row_offset(row_idx as int, ivy) == k,
                    byte == sprite[k as int],
                    sprite.len() == n,
                    d == self@.display,
                    self.wf(),
                    forall|c: int|
                        0 <= c < 64 ==> #[trigger] row@[c]
                            == partly_drawn(d, sprite, ivx, ivy, k as int, j as int, row_idx as int, c),
                    forall|r: int, c: int|
                        0 <= r < 32 && 0 <= c < 64 && r != row_idx ==> #[trigger] display@[r]@[c]
                            == partly_drawn(d, sprite, ivx, ivy, k as int, 0, r, c),
                    collided == collides_before(d, sprite, ivx, ivy, k as int, j as int),
                decreases 8 - j,
            {
                let col = (vx as usize + j) % 64;
                let bit = (byte >> (7 - j as u8)) & 1;
                proof {
                    lemma_offset_of_wrapped(ivx, j as int, 64);
                    assert(bit == sprite_bit(sprite[k as int], j as int));
                    assert forall|c: int| 0 <= c < 64 && c != col implies col_offset(c, ivx) != j by {
                        lemma_wrapped_of_offset(ivx, c, 64);
                    }
                    assert(row@[col as int] == d[row_idx as int][col as int]);
                }
                let ghost before = collided;
                if row[col] == 1 && bit == 1 {
                    collided = true;
                }
                row[col] = row[col] ^ bit;
                proof {
                    if before {
                        let (k2, j2) = choose|k2: int, j2: int|
                            0 <= k2 && 0 <= j2 < 8 && (k2 < k || (k2 == k && j2 < j)) && k2 < sprite.len()
                                && d[(ivy + k2) % 32][(ivx + j2) % 64] == 1
                                && #[trigger] sprite_bit(sprite[k2], j2) == 1;
                        assert(collides_before(d, sprite, ivx, ivy, k as int, j + 1)) by {
                            assert(sprite_bit(sprite[k2], j2) == 1);
                        }
                    } else if collided {
                        assert(collides_before(d, sprite, ivx, ivy, k as int, j + 1)) by {
                            assert(sprite_bit(sprite[k as int], j as int) == 1);
                        }
                    } else {
                        assert(!collides_before(d, sprite, ivx, ivy, k as int, j + 1)) by {
                            if collides_before(d, sprite, ivx, ivy, k as int, j + 1) {
                                let (k2, j2) = choose|k2: int, j2: int|
                                    0 <= k2 && 0 <= j2 < 8 && (k2 < k || (k2 == k && j2 < j + 1))
                                        && k2 < sprite.len()
                                        && d[(ivy + k2) % 32][(ivx + j2) % 64] == 1
                                        && #[trigger] sprite_bit(sprite[k2], j2) == 1;
                                if k2 < k || j2 < j {
                                    assert(collides_before(d, sprite, ivx, ivy, k as int, j as int));
                                }
                            }
                        }
                    }
                }
                j += 1;
            }
            display[row_idx] = row;
            proof {
                assert forall|r: int, c: int| 0 <= r < 32 && 0 <= c < 64 implies #[trigger] display@[r]@[c]
                    == partly_drawn(d, sprite, ivx, ivy, k + 1, 0, r, c) by {
                    if r != row_idx {
                        lemma_wrapped_of_offset(ivy, r, 32);
                    }
                }
                if collides_before(d, sprite, ivx, ivy, k + 1, 0) {
                    let (k2, j2) = choose|k2: int, j2: int|
                        0 <= k2 && 0 <= j2 < 8 && (k2 < k + 1 || (k2 == k + 1 && j2 < 0))
                            && k2 < sprite.len()
                            && d[(ivy + k2) % 32][(ivx + j2) % 64] == 1
                            && #[trigger] sprite_bit(sprite[k2], j2) == 1;
                    assert(collides_before(d, sprite, ivx, ivy, k as int, 8));
                }
                if collides_before(d, sprite, ivx, ivy, k as int, 8) {
                    let (k2, j2) = choose|k2: int, j2: int|
                        0 <= k2 && 0 <= j2 < 8 && (k2 < k || (k2 == k && j2 < 8))
                            && k2 < sprite.len()
                            && d[(ivy + k2) % 32][(ivx + j2) % 64] == 1
                            && #[trigger] sprite_bit(sprite[k2], j2) == 1;
                    assert(collides_before(d, sprite, ivx, ivy, k + 1, 0));
                }
            }
            k += 1;
        }
        let ghost old_view = self@;
        self.display = display;
        self.registers[15] = if collided { 1 } else { 0 };
        self.draw = true;
        proof {
            assert(self@.display =~~= drawn_display(d, sprite, ivx, ivy));
            assert(collided == collides(d, sprite, ivx, ivy)) by {
                if collided {
                    let (k2, j2) = choose|k2: int, j2: int|
                        0 <= k2 && 0 <= j2 < 8 && (k2 < n || (k2 == n && j2 < 0)) && k2 < sprite.len()
                            && d[(ivy + k2) % 32][(ivx + j2) % 64] == 1
                            && #[trigger] sprite_bit(sprite[k2], j2) == 1;
                }
                if collides(d, sprite, ivx, ivy) {
                    let (k2, j2) = choose|k2: int, j2: int|
                        0 <= k2 < sprite.len() && 0 <= j2 < 8 && d[(ivy + k2) % 32][(ivx + j2) % 64] == 1
                            && #[trigger] sprite_bit(sprite[k2], j2) == 1;
                    assert(collides_before(d, sprite, ivx, ivy, n as int, 0));
                }
            }
            assert(self@ == old_view.drawn(x as int, y as int, n as int));
        }
        Ok(())
    }
}

} // verus!
