use vstd::prelude::*;

verus! {

/// Width of the display in pixels.
pub const WIDTH: usize = 64;

/// Height of the display in pixels.
pub const HEIGHT: usize = 32;

/// Number of pixels on the display.
pub const PIXELS: usize = 2048;

/// Bit `c` (0 is the most significant) of one sprite row, as 0 or 1.
pub open spec fn sprite_bit(row: u8, c: int) -> u8 {
    (row >> ((7 - c) as u8)) & 1
}

/// The sprite row that lands on pixel `i` when the sprite's origin is at `oy`.
pub open spec fn row_of(oy: int, i: int) -> int {
    (i / 64 - oy) % 32
}

/// The sprite column that lands on pixel `i` when the sprite's origin is at `ox`.
pub open spec fn col_of(ox: int, i: int) -> int {
    (i % 64 - ox) % 64
}

/// The bit that a sprite drawn at (`ox`, `oy`) puts onto pixel `i`
/// (0 where the sprite does not cover the pixel).
pub open spec fn pixel_bit(sprite: Seq<u8>, ox: int, oy: int, i: int) -> u8 {
    let r = row_of(oy, i);
    let c = col_of(ox, i);
    if r < sprite.len() && c < 8 {
        sprite_bit(sprite[r], c)
    } else {
        0
    }
}

/// The screen after drawing `sprite` at (`ox`, `oy`) with XOR.
pub open spec fn drawn(screen: Seq<u8>, ox: int, oy: int, sprite: Seq<u8>) -> Seq<u8> {
    Seq::new(screen.len(), |i: int| screen[i] ^ pixel_bit(sprite, ox, oy, i))
}

/// Whether drawing `sprite` at (`ox`, `oy`) turns some lit pixel off.
pub open spec fn collides(screen: Seq<u8>, ox: int, oy: int, sprite: Seq<u8>) -> bool {
    exists|i: int| 0 <= i < screen.len() && screen[i] == 1 && pixel_bit(sprite, ox, oy, i) == 1
}

/// A screen with every pixel off.
pub open spec fn blank() -> Seq<u8> {
    Seq::new(PIXELS as nat, |i: int| 0u8)
}

/// A screen of the right size whose pixels are all 0 or 1.
pub open spec fn screen_wf(s: Seq<u8>) -> bool {
    &&& s.len() == PIXELS
    &&& forall|i: int| 0 <= i < s.len() ==> #[trigger] s[i] <= 1
}

/// Whether the sprite has at least one lit bit.
pub open spec fn has_lit_bit(sprite: Seq<u8>) -> bool {
    exists|r: int, c: int| 0 <= r < sprite.len() && 0 <= c < 8 && sprite_bit(sprite[r], c) == 1
}

/// The pixel that row `r`, column `c` of a sprite drawn at (`ox`, `oy`) lands on.
pub open spec fn target(ox: int, oy: int, r: int, c: int) -> int {
    ((oy + r) % 32) * 64 + (ox + c) % 64
}

pub proof fn lemma_sprite_bit_le_1(row: u8, c: int)
    requires
        0 <= c < 8,
    ensures
        sprite_bit(row, c) <= 1,
{
    let s = (7 - c) as u8;
    assert((row >> s) & 1 <= 1) by (bit_vector);
}

pub proof fn lemma_pixel_bit_le_1(sprite: Seq<u8>, ox: int, oy: int, i: int)
    ensures
        pixel_bit(sprite, ox, oy, i) <= 1,
{
    let r = row_of(oy, i);
    let c = col_of(ox, i);
    if r < sprite.len() && c < 8 {
        assert(0 <= c);
        lemma_sprite_bit_le_1(sprite[r], c);
    }
}

proof fn lemma_xor_zero(a: u8)
    ensures
        a ^ 0 == a,
{
    assert(a ^ 0 == a) by (bit_vector);
}

proof fn lemma_xor_twice(a: u8, b: u8)
    ensures
        (a ^ b) ^ b == a,
{
    assert((a ^ b) ^ b == a) by (bit_vector);
}

proof fn lemma_xor_bit(a: u8, b: u8)
    requires
        a <= 1,
        b <= 1,
    ensures
        a ^ b <= 1,
        (a & b == 1) == (a == 1 && b == 1),
        b == 1 ==> (a ^ b == 1) == (a == 0),
{
    assert(a <= 1 && b <= 1 ==> a ^ b <= 1) by (bit_vector);
    assert(a <= 1 && b <= 1 ==> ((a & b == 1) == (a == 1 && b == 1))) by (bit_vector);
    assert(a <= 1 && b == 1 ==> ((a ^ b == 1) == (a == 0))) by (bit_vector);
}

proof fn lemma_mod_shift(a: int, o: int, r: int, m: int)
    requires
        m > 0,
        0 <= r < m,
        0 <= a < m,
    ensures
        ((o + r) % m - o) % m == r,
        (a - o) % m == r ==> a == (o + r) % m,
{
    let q = (o + r) % m;
    let d = (o + r) / m;
    vstd::arithmetic::div_mod::lemma_fundamental_div_mod(o + r, m);
    assert(q - o == m * (-d) + r) by (nonlinear_arith)
        requires
            o + r == m * d + q,
    ;
    vstd::arithmetic::div_mod::lemma_mod_multiples_vanish(-d, r, m);
    vstd::arithmetic::div_mod::lemma_small_mod(r as nat, m as nat);
    if (a - o) % m == r {
        let k = (a - o) / m;
        vstd::arithmetic::div_mod::lemma_fundamental_div_mod(a - o, m);
        assert(o + r == m * (-k) + a) by (nonlinear_arith)
            requires
                a - o == m * k + r,
        ;
        vstd::arithmetic::div_mod::lemma_mod_multiples_vanish(-k, a, m);
        vstd::arithmetic::div_mod::lemma_small_mod(a as nat, m as nat);
    }
}

/// Row `r`, column `c` of a sprite lands on pixel `target(..)`, and on no other.
pub proof fn lemma_target(ox: int, oy: int, r: int, c: int)
    requires
        0 <= ox,
        0 <= oy,
        0 <= r < 32,
        0 <= c < 64,
    ensures
        0 <= target(ox, oy, r, c) < PIXELS,
        row_of(oy, target(ox, oy, r, c)) == r,
        col_of(ox, target(ox, oy, r, c)) == c,
        forall|i: int|
            0 <= i < PIXELS && #[trigger] row_of(oy, i) == r && col_of(ox, i) == c ==> i == target(
                ox,
                oy,
                r,
                c,
            ),
{
    let t = target(ox, oy, r, c);
    let q = (oy + r) % 32;
    let m = (ox + c) % 64;
    vstd::arithmetic::div_mod::lemma_fundamental_div_mod_converse(t, 64, q, m);
    lemma_mod_shift(0, oy, r, 32);
    lemma_mod_shift(0, ox, c, 64);
    assert forall|i: int| 0 <= i < PIXELS && #[trigger] row_of(oy, i) == r && col_of(ox, i) == c implies i
        == t by {
        vstd::arithmetic::div_mod::lemma_fundamental_div_mod(i, 64);
        vstd::arithmetic::div_mod::lemma_div_pos_is_pos(i, 64);
        vstd::arithmetic::div_mod::lemma_div_is_ordered(i, 2047, 64);
        lemma_mod_shift(i / 64, oy, r, 32);
        lemma_mod_shift(i % 64, ox, c, 64);
    }
}

/// A monochrome 64 by 32 display, stored row by row, one byte (0 or 1) per pixel.
pub struct Gpu {
    screen: Vec<u8>,
}

impl Gpu {
    pub closed spec fn view(&self) -> Seq<u8> {
        self.screen@
    }

    pub open spec fn wf(&self) -> bool {
        screen_wf(self@)
    }

    /// A display with every pixel off.
    pub fn new() -> (r: Gpu)
        ensures
            r.wf(),
            r@ == blank(),
    {
        let r = Gpu { screen: vec_of_zeros(PIXELS) };
        assert(r.screen@ =~= blank());
        r
    }

    /// The pixels, row by row.
    pub fn screen(&self) -> (r: &Vec<u8>)
        ensures
            r@ == self@,
    {
        &self.screen
    }

    /// The pixel at column `x`, row `y`.
    pub fn pixel(&self, x: usize, y: usize) -> (r: u8)
        requires
            self.wf(),
            x < WIDTH,
            y < HEIGHT,
        ensures
            r == self@[y * 64 + x],
    {
        self.screen[y * 64 + x]
    }

    /// Turns every pixel off.
    pub fn clear(&mut self)
        requires
            old(self).wf(),
        ensures
            final(self).wf(),
            final(self)@ == blank(),
    {
        let mut k: usize = 0;
        while k < PIXELS
            invariant
                k <= PIXELS,
                self.screen@.len() == PIXELS,
                forall|i: int| 0 <= i < k ==> self.screen@[i] == 0,
            decreases PIXELS - k,
        {
            self.screen.set(k, 0);
            k += 1;
        }
        assert(self.screen@ =~= blank());
    }

    /// XORs `sprite` onto the display with its top-left corner at (`x`, `y`), one
    /// byte per row, most significant bit leftmost, wrapping around both edges.
    /// Returns whether some lit pixel was turned off.
    pub fn draw(&mut self, x: u8, y: u8, sprite: &[u8]) -> (collision: bool)
        requires
            old(self).wf(),
            sprite@.len() <= HEIGHT,
        ensures
            final(self).wf(),
            final(self)@ == drawn(old(self)@, x as int, y as int, sprite@),
            collision == collides(old(self)@, x as int, y as int, sprite@),
    {
        let ghost start = self.screen@;
        let ghost ox = x as int;
        let ghost oy = y as int;
        let mut collision = false;
        let n = sprite.len();
        let mut r: usize = 0;
        while r < n
            invariant
                n == sprite@.len(),
                n <= 32,
                r <= n,
                ox == x as int,
                oy == y as int,
                screen_wf(start),
                self.screen@.len() == PIXELS,
                forall|i: int|
                    0 <= i < PIXELS ==> #[trigger] self.screen@[i] == if row_of(oy, i) < r {
                        start[i] ^ pixel_bit(sprite@, ox, oy, i)
                    } else {
                        start[i]
                    },
                collision == exists|i: int|
                    0 <= i < PIXELS && row_of(oy, i) < r && start[i] == 1 && pixel_bit(
                        sprite@,
                        ox,
                        oy,
                        i,
                    ) == 1,
            decreases n - r,
        {
            let row = sprite[r];
            let mut c: usize = 0;
            while c < 8
                invariant
                    n == sprite@.len(),
                    n <= 32,
                    r < n,
                    ox == x as int,
                    oy == y as int,
                    c <= 8,
                    row == sprite@[r as int],
                    screen_wf(start),
                    self.screen@.len() == PIXELS,
                    forall|i: int|
                        0 <= i < PIXELS ==> #[trigger] self.screen@[i] == if row_of(oy, i) < r || (
                        row_of(oy, i) == r && col_of(ox, i) < c) {
                            start[i] ^ pixel_bit(sprite@, ox, oy, i)
                        } else {
                            start[i]
                        },
                    collision == exists|i: int|
                        0 <= i < PIXELS && (row_of(oy, i) < r || (row_of(oy, i) == r && col_of(
                            ox,
                            i,
                        ) < c)) && start[i] == 1 && pixel_bit(sprite@, ox, oy, i) == 1,
                decreases 8 - c,
            {
                let idx: usize = ((y as usize + r) % 32) * 64 + (x as usize + c) % 64;
                let bit: u8 = (row >> ((7 - c) as u8)) & 1;
                proof {
                    lemma_target(ox, oy, r as int, c as int);
                    assert(idx == target(ox, oy, r as int, c as int));
                    assert(pixel_bit(sprite@, ox, oy, idx as int) == bit);
                    lemma_sprite_bit_le_1(row, c as int);
                    lemma_xor_bit(start[idx as int], bit);
                }
                let old_px = self.screen[idx];
                let hit = (old_px & bit) == 1;
                collision = collision || hit;
                self.screen.set(idx, old_px ^ bit);
                proof {
                    let t = idx as int;
                    assert forall|i: int| 0 <= i < PIXELS implies #[trigger] self.screen@[i] == if row_of(
                        oy,
                        i,
                    ) < r || (row_of(oy, i) == r && col_of(ox, i) < c + 1) {
                        start[i] ^ pixel_bit(sprite@, ox, oy, i)
                    } else {
                        start[i]
                    } by {
                        if i != t {
                            assert(!(row_of(oy, i) == r && col_of(ox, i) == c));
                        }
                    }
                    if hit {
                        assert(start[t] == 1 && pixel_bit(sprite@, ox, oy, t) == 1);
                    }
                    assert(collision == exists|i: int|
                        0 <= i < PIXELS && (row_of(oy, i) < r || (row_of(oy, i) == r && col_of(
                            ox,
                            i,
                        ) < c + 1)) && start[i] == 1 && pixel_bit(sprite@, ox, oy, i) == 1) by {
                        if !collision {
                            assert forall|i: int|
                                0 <= i < PIXELS && (row_of(oy, i) < r || (row_of(oy, i) == r
                                    && col_of(ox, i) < c + 1)) && start[i] == 1 implies pixel_bit(
                                sprite@,
                                ox,
                                oy,
                                i,
                            ) != 1 by {
                                if i != t {
                                    assert(!(row_of(oy, i) == r && col_of(ox, i) == c));
                                }
                            }
                        }
                    }
                }
                c += 1;
            }
            proof {
                assert forall|i: int| 0 <= i < PIXELS implies #[trigger] self.screen@[i] == if row_of(
                    oy,
                    i,
                ) < r + 1 {
                    start[i] ^ pixel_bit(sprite@, ox, oy, i)
                } else {
                    start[i]
                } by {
                    if row_of(oy, i) == r && col_of(ox, i) >= 8 {
                        lemma_xor_zero(start[i]);
                    }
                }
                assert(collision == exists|i: int|
                    0 <= i < PIXELS && row_of(oy, i) < r + 1 && start[i] == 1 && pixel_bit(
                        sprite@,
                        ox,
                        oy,
                        i,
                    ) == 1) by {
                    if !collision {
                        assert forall|i: int|
                            0 <= i < PIXELS && row_of(oy, i) < r + 1 && start[i] == 1 implies pixel_bit(
                            sprite@,
                            ox,
                            oy,
                            i,
                        ) != 1 by {
                            if row_of(oy, i) == r && col_of(ox, i) >= 8 {
                            }
                        }
                    }
                }
            }
            r += 1;
        }
        proof {
            assert forall|i: int| 0 <= i < PIXELS implies #[trigger] self.screen@[i] == start[i]
                ^ pixel_bit(sprite@, ox, oy, i) by {
                if row_of(oy, i) >= n {
                    lemma_xor_zero(start[i]);
                }
            }
            assert(self.screen@ =~= drawn(start, ox, oy, sprite@));
            assert forall|i: int| 0 <= i < PIXELS implies #[trigger] self.screen@[i] <= 1 by {
                lemma_pixel_bit_le_1(sprite@, ox, oy, i);
                lemma_xor_bit(start[i], pixel_bit(sprite@, ox, oy, i));
            }
            if !collision {
                assert forall|i: int| 0 <= i < PIXELS && start[i] == 1 implies pixel_bit(
                    sprite@,
                    ox,
                    oy,
                    i,
                ) != 1 by {
                    if row_of(oy, i) >= n {
                    }
                }
            }
        }
        collision
    }
}

/// A vector of `n` zero bytes.
pub fn vec_of_zeros(n: usize) -> (v: Vec<u8>)
    ensures
        v@.len() == n,
        forall|i: int| 0 <= i < n ==> v@[i] == 0,
{
    let mut v: Vec<u8> = Vec::new();
    while v.len() < n
        invariant
            v@.len() <= n,
            forall|i: int| 0 <= i < v@.len() ==> v@[i] == 0,
        decreases n - v@.len(),
    {
        v.push(0);
    }
    v
}

/// Drawing the same sprite twice at the same place gives back the display as it
/// was; the second draw collides whenever some lit bit of the sprite fell on a
/// pixel that was off before the first (on a blank display: whenever the sprite
/// has a lit bit).
pub proof fn lemma_draw_twice(screen: Seq<u8>, ox: int, oy: int, sprite: Seq<u8>)
    requires
        screen_wf(screen),
        0 <= ox,
        0 <= oy,
        sprite.len() <= HEIGHT,
    ensures
        drawn(drawn(screen, ox, oy, sprite), ox, oy, sprite) == screen,
        collides(drawn(screen, ox, oy, sprite), ox, oy, sprite) == exists|i: int|
            0 <= i < PIXELS && screen[i] == 0 && pixel_bit(sprite, ox, oy, i) == 1,
        screen == blank() && has_lit_bit(sprite) ==> collides(
            drawn(screen, ox, oy, sprite),
            ox,
            oy,
            sprite,
        ),
{
    let once = drawn(screen, ox, oy, sprite);
    assert forall|i: int| 0 <= i < PIXELS implies #[trigger] drawn(once, ox, oy, sprite)[i]
        == screen[i] by {
        lemma_xor_twice(screen[i], pixel_bit(sprite, ox, oy, i));
    }
    assert(drawn(once, ox, oy, sprite) =~= screen);
    assert forall|i: int| 0 <= i < PIXELS implies (#[trigger] once[i] == 1 && pixel_bit(
        sprite,
        ox,
        oy,
        i,
    ) == 1) == (screen[i] == 0 && pixel_bit(sprite, ox, oy, i) == 1) by {
        lemma_pixel_bit_le_1(sprite, ox, oy, i);
        lemma_xor_bit(screen[i], pixel_bit(sprite, ox, oy, i));
    }
    if screen == blank() && has_lit_bit(sprite) {
        let (r, c) = choose|r: int, c: int|
            0 <= r < sprite.len() && 0 <= c < 8 && sprite_bit(sprite[r], c) == 1;
        lemma_target(ox, oy, r, c);
        let t = target(ox, oy, r, c);
        assert(screen[t] == 0 && pixel_bit(sprite, ox, oy, t) == 1);
        assert(once[t] == 1 && pixel_bit(sprite, ox, oy, t) == 1);
    }
}

} // verus!
