//! The display/input capability the executor draws and polls through, and a
//! verified pixel frame buffer with a headless front end built on it.

use vstd::prelude::*;

verus! {

/// Width of the pixel grid.
pub const SCREEN_WIDTH: u8 = 64;

/// Height of the pixel grid.
pub const SCREEN_HEIGHT: u8 = 32;

/// The capability the executor calls into for video mutation, key-state
/// queries and screen presentation. A renderer (terminal, graphical or
/// headless) implements it; the executor never names a concrete one.
pub trait Interface: Sized {
    /// Prepare an empty presentation surface.
    fn new() -> Self;

    /// XOR-composite the sprite rows at wrapped coordinates starting from
    /// `(x, y)`; report whether any previously lit pixel was erased.
    fn draw_sprite(&mut self, x: u8, y: u8, sprite: Vec<u8>) -> bool
        requires
            sprite@.len() <= 32,
    ;

    /// Flush the pixel grid to the output device.
    fn update_screen(&mut self);

    /// Turn every pixel off and present.
    fn clear_screen(&mut self);

    /// Whether the key `key` (0x0..=0xF) is currently pressed.
    fn get_key(&self, key: u8) -> bool;

    /// A snapshot of every currently pressed key.
    fn get_keys_pressed(&self) -> Vec<u8>;

    /// Prepare the output device; called once before the loop starts.
    fn init(&self);

    /// Restore the output device; called once after the loop ends.
    fn stop(&self);
}

/// Position of pixel `(x, y)` in the row-major pixel sequence.
pub open spec fn pixel_index(x: int, y: int) -> int {
    y * 64 + x
}

/// Bit `bit` of sprite row `row`, bit 0 being the leftmost (highest) bit.
pub open spec fn sprite_bit(sprite: Seq<u8>, row: int, bit: int) -> bool {
    (sprite[row] >> ((7 - bit) as u8)) & 1 == 1
}

/// Where bit `bit` of sprite row `row` lands when drawn at `(x, y)`:
/// coordinates wrap at the screen edges.
pub open spec fn draw_pos(x: u8, y: u8, row: int, bit: int) -> int {
    pixel_index((x + bit) % 64, (y + row) % 32)
}

/// The pixel grid after XOR-compositing `sprite` at `(x, y)`, but with only
/// the first `t` sprite bits (in row-major sprite order) applied.
pub open spec fn drawn_upto(pix: Seq<bool>, x: u8, y: u8, sprite: Seq<u8>, t: int) -> Seq<bool> {
    Seq::new(
        pix.len(),
        |p: int|
            {
                let drow = (p / 64 - y) % 32;
                let dbit = (p % 64 - x) % 64;
                if drow < sprite.len() && dbit < 8 && drow * 8 + dbit < t {
                    pix[p] != sprite_bit(sprite, drow, dbit)
                } else {
                    pix[p]
                }
            },
    )
}

/// The pixel grid after XOR-compositing the whole sprite at `(x, y)`.
pub open spec fn drawn(pix: Seq<bool>, x: u8, y: u8, sprite: Seq<u8>) -> Seq<bool> {
    drawn_upto(pix, x, y, sprite, sprite.len() * 8 as int)
}

/// Whether one of the first `t` sprite bits erases a lit pixel.
pub open spec fn collision_upto(pix: Seq<bool>, x: u8, y: u8, sprite: Seq<u8>, t: int) -> bool {
    exists|row: int, bit: int|
        0 <= row < sprite.len() && 0 <= bit < 8 && row * 8 + bit < t && sprite_bit(
            sprite,
            row,
            bit,
        ) && pix[draw_pos(x, y, row, bit)]
}

/// Whether compositing `sprite` at `(x, y)` erases some lit pixel: a set
/// sprite bit lands on a set screen pixel.
pub open spec fn draw_collision(pix: Seq<bool>, x: u8, y: u8, sprite: Seq<u8>) -> bool {
    exists|row: int, bit: int|
        0 <= row < sprite.len() && 0 <= bit < 8 && sprite_bit(sprite, row, bit) && pix[draw_pos(
            x,
            y,
            row,
            bit,
        )]
}

/// Shifting a coordinate by `d` and wrapping, then unwrapping against the
/// base, yields `d` again.
proof fn lemma_mod_shift(base: int, d: int, m: int)
    requires
        m > 0,
        0 <= d < m,
        base >= 0,
    ensures
        ((base + d) % m - base) % m == d,
{
    vstd::arithmetic::div_mod::lemma_fundamental_div_mod(base + d, m);
    let q = (base + d) / m;
    assert((base + d) % m - base == d - m * q);
    vstd::arithmetic::div_mod::lemma_mod_multiples_vanish(-q, d, m);
    assert(m * -q + d == d - m * q) by (nonlinear_arith);
    vstd::arithmetic::div_mod::lemma_small_mod(d as nat, m as nat);
}

/// A wrapped coordinate is determined by its offset from the base: if `v`
/// lies in range and unwraps to `d`, then `v` is the wrap of `base + d`.
proof fn lemma_wrap_unique(base: int, d: int, v: int, m: int)
    requires
        m > 0,
        0 <= d < m,
        0 <= v < m,
        base >= 0,
        (v - base) % m == d,
    ensures
        v == (base + d) % m,
{
    let w = (base + d) % m;
    lemma_mod_shift(base, d, m);
    vstd::arithmetic::div_mod::lemma_mod_bound(base + d, m);
    vstd::arithmetic::div_mod::lemma_mod_equivalence(v - base, w - base, m);
    assert((v - w) % m == 0);
    if v > w {
        vstd::arithmetic::div_mod::lemma_small_mod((v - w) as nat, m as nat);
    } else if v < w {
        vstd::arithmetic::div_mod::lemma_mod_equivalence(w - base, v - base, m);
        vstd::arithmetic::div_mod::lemma_small_mod((w - v) as nat, m as nat);
    }
}

/// The 64x32 monochrome pixel grid, viewed as a row-major sequence of
/// 2048 booleans.
pub struct FrameBuffer {
    pixels: Vec<bool>,
}

impl View for FrameBuffer {
    type V = Seq<bool>;

    closed spec fn view(&self) -> Seq<bool> {
        self.pixels@
    }
}

impl FrameBuffer {
    #[verifier::type_invariant]
    spec fn type_wf(&self) -> bool {
        self@.len() == 2048
    }

    /// A frame buffer with every pixel off.
    pub fn new() -> (r: FrameBuffer)
        ensures
            r@ =~= Seq::new(2048, |p: int| false),
    {
        FrameBuffer { pixels: vec![false; 2048] }
    }

    /// Whether pixel `(x, y)` is lit.
    pub fn get_pixel(&self, x: u8, y: u8) -> (r: bool)
        requires
            x < 64,
            y < 32,
        ensures
            r == self@[pixel_index(x as int, y as int)],
    {
        proof {
            use_type_invariant(&*self);
        }
        self.pixels[y as usize * 64 + x as usize]
    }

    /// XOR `val` onto pixel `(x, y)`; report whether the pixel was erased,
    /// that is, was lit before and `val` is set.
    pub fn set_pixel(&mut self, x: u8, y: u8, val: bool) -> (erased: bool)
        requires
            x < 64,
            y < 32,
        ensures
            final(self)@ == old(self)@.update(
                pixel_index(x as int, y as int),
                old(self)@[pixel_index(x as int, y as int)] != val,
            ),
            erased == (old(self)@[pixel_index(x as int, y as int)] && val),
        no_unwind
    {
        proof {
            use_type_invariant(&*self);
        }
        let idx = y as usize * 64 + x as usize;
        let before = self.pixels[idx];
        self.pixels[idx] = before != val;
        before && val
    }

    /// XOR-composite `sprite` at `(x, y)`, each bit at coordinates wrapped
    /// at the screen edges; report whether any lit pixel was erased.
    #[verifier::rlimit(100)]
    pub fn draw_sprite(&mut self, x: u8, y: u8, sprite: &Vec<u8>) -> (erased: bool)
        requires
            sprite@.len() <= 32,
        ensures
            final(self)@ == drawn(old(self)@, x, y, sprite@),
            erased == draw_collision(old(self)@, x, y, sprite@),
        no_unwind
    {
        proof {
            use_type_invariant(&*self);
        }
        let ghost pix0 = self@;
        let ghost s = sprite@;
        let len = sprite.len();
        let total = len * 8;
        let mut erased = false;
        let mut t: usize = 0;
        while t < total
            invariant
                self@.len() == 2048,
                pix0.len() == 2048,
                s == sprite@,
                s.len() <= 32,
                total == s.len() * 8,
                t <= total,
                self@ =~= drawn_upto(pix0, x, y, s, t as int),
                erased == collision_upto(pix0, x, y, s, t as int),
            decreases total - t,
        {
            let row = t / 8;
            let bit = t % 8;
            proof {
                vstd::arithmetic::div_mod::lemma_fundamental_div_mod(t as int, 8);
                vstd::arithmetic::div_mod::lemma_div_pos_is_pos(t as int, 8);
                vstd::arithmetic::div_mod::lemma_mod_bound(t as int, 8);
                vstd::arithmetic::div_mod::lemma_multiply_divide_lt(t as int, 8, s.len() as int);
            }
            let px = ((x as usize + bit) % 64) as u8;
            let py = ((y as usize + row) % 32) as u8;
            let rowbyte = sprite[row];
            let shift: u8 = (7 - bit) as u8;
            let val = ((rowbyte >> shift) & 1) == 1;
            proof {
                lemma_mod_shift(y as int, row as int, 32);
                lemma_mod_shift(x as int, bit as int, 64);
                vstd::arithmetic::div_mod::lemma_mod_bound(x as int + bit, 64);
                vstd::arithmetic::div_mod::lemma_mod_bound(y as int + row, 32);
            }
            let e = self.set_pixel(px, py, val);
            proof {
                let p0 = pixel_index(px as int, py as int);
                vstd::arithmetic::div_mod::lemma_fundamental_div_mod_converse(
                    p0,
                    64,
                    py as int,
                    px as int,
                );
                assert(val == sprite_bit(s, row as int, bit as int));
                assert(drawn_upto(pix0, x, y, s, t as int)[p0] == pix0[p0]);
                assert forall|p: int| 0 <= p < 2048 implies self@[p] == drawn_upto(
                    pix0,
                    x,
                    y,
                    s,
                    t as int + 1,
                )[p] by {
                    vstd::arithmetic::div_mod::lemma_mod_bound(p / 64 - y, 32);
                    vstd::arithmetic::div_mod::lemma_mod_bound(p % 64 - x, 64);
                    vstd::arithmetic::div_mod::lemma_mod_bound(p, 64);
                    vstd::arithmetic::div_mod::lemma_div_pos_is_pos(p, 64);
                    vstd::arithmetic::div_mod::lemma_multiply_divide_lt(p, 64, 32);
                    vstd::arithmetic::div_mod::lemma_fundamental_div_mod(p, 64);
                    if p != p0 {
                        let drow = (p / 64 - y) % 32;
                        let dbit = (p % 64 - x) % 64;
                        if drow < s.len() && dbit < 8 && drow * 8 + dbit == t {
                            vstd::arithmetic::div_mod::lemma_fundamental_div_mod_converse(
                                t as int,
                                8,
                                drow,
                                dbit,
                            );
                            lemma_wrap_unique(y as int, drow, p / 64, 32);
                            lemma_wrap_unique(x as int, dbit, p % 64, 64);
                            assert(p == p0);
                        }
                    }
                };
                assert(self@ =~= drawn_upto(pix0, x, y, s, t as int + 1));
                assert(pix0[p0] == pix0[draw_pos(x, y, row as int, bit as int)]);
                if e {
                    assert(collision_upto(pix0, x, y, s, t as int + 1));
                } else if !erased {
                    if collision_upto(pix0, x, y, s, t as int + 1) {
                        let (r2, b2) = choose|r2: int, b2: int|
                            0 <= r2 < s.len() && 0 <= b2 < 8 && r2 * 8 + b2 < t as int + 1
                                && sprite_bit(s, r2, b2) && pix0[draw_pos(x, y, r2, b2)];
                        if r2 * 8 + b2 == t as int {
                            vstd::arithmetic::div_mod::lemma_fundamental_div_mod_converse(
                                t as int,
                                8,
                                r2,
                                b2,
                            );
                            assert(false);
                        }
                        assert(collision_upto(pix0, x, y, s, t as int));
                        assert(false);
                    }
                }
            }
            erased = erased || e;
            t += 1;
        }
        proof {
            if draw_collision(pix0, x, y, s) {
                let (r2, b2) = choose|r2: int, b2: int|
                    0 <= r2 < s.len() && 0 <= b2 < 8 && sprite_bit(s, r2, b2) && pix0[draw_pos(
                        x,
                        y,
                        r2,
                        b2,
                    )];
                assert(r2 * 8 + b2 < total as int);
                assert(collision_upto(pix0, x, y, s, total as int));
            }
        }
        erased
    }

    /// Turn every pixel off.
    pub fn clear(&mut self)
        ensures
            final(self)@ =~= Seq::new(2048, |p: int| false),
        no_unwind
    {
        proof {
            use_type_invariant(&*self);
        }
        let mut p: usize = 0;
        while p < 2048
            invariant
                self@.len() == 2048,
                p <= 2048,
                forall|q: int| 0 <= q < p ==> !self@[q],
            decreases 2048 - p,
        {
            self.pixels[p] = false;
            p += 1;
        }
    }
}

/// A headless front end: the verified frame buffer and a key set held in
/// memory, with no output device. It serves tests and any driver that
/// presents the pixels itself.
pub struct Headless {
    fb: FrameBuffer,
    keys: Vec<bool>,
}

impl Headless {
    #[verifier::type_invariant]
    spec fn type_wf(&self) -> bool {
        self.keys@.len() == 16
    }

    /// The pixel grid contents, row-major.
    pub closed spec fn pixels(&self) -> Seq<bool> {
        self.fb@
    }

    /// Whether key `k` is recorded as pressed.
    pub closed spec fn key_down(&self, k: int) -> bool {
        0 <= k < 16 && self.keys@[k]
    }

    /// Whether pixel `(x, y)` is lit.
    pub fn pixel_at(&self, x: u8, y: u8) -> (r: bool)
        requires
            x < 64,
            y < 32,
        ensures
            r == self.pixels()[pixel_index(x as int, y as int)],
    {
        self.fb.get_pixel(x, y)
    }

    /// Record key `k` as pressed.
    pub fn press_key(&mut self, k: u8)
        requires
            k < 16,
        ensures
            final(self).pixels() == old(self).pixels(),
            forall|j: int| final(self).key_down(j) == (old(self).key_down(j) || j == k),
    {
        proof {
            use_type_invariant(&*self);
        }
        self.keys[k as usize] = true;
    }

    /// Record key `k` as released.
    pub fn release_key(&mut self, k: u8)
        requires
            k < 16,
        ensures
            final(self).pixels() == old(self).pixels(),
            forall|j: int| final(self).key_down(j) == (old(self).key_down(j) && j != k),
    {
        proof {
            use_type_invariant(&*self);
        }
        self.keys[k as usize] = false;
    }
}

impl Interface for Headless {
    fn new() -> (r: Self)
        ensures
            r.pixels().len() == 2048,
            forall|p: int| 0 <= p < 2048 ==> !r.pixels()[p],
            forall|j: int| !r.key_down(j),
    {
        Headless { fb: FrameBuffer::new(), keys: vec![false; 16] }
    }

    fn draw_sprite(&mut self, x: u8, y: u8, sprite: Vec<u8>) -> (erased: bool)
        ensures
            final(self).pixels() == drawn(old(self).pixels(), x, y, sprite@),
            erased == draw_collision(old(self).pixels(), x, y, sprite@),
            forall|j: int| final(self).key_down(j) == old(self).key_down(j),
    {
        proof {
            use_type_invariant(&*self);
        }
        self.fb.draw_sprite(x, y, &sprite)
    }

    fn update_screen(&mut self)
        ensures
            *final(self) == *old(self),
    {
    }

    fn clear_screen(&mut self)
        ensures
            final(self).pixels().len() == 2048,
            forall|p: int| 0 <= p < 2048 ==> !final(self).pixels()[p],
            forall|j: int| final(self).key_down(j) == old(self).key_down(j),
    {
        proof {
            use_type_invariant(&*self);
        }
        self.fb.clear();
    }

    fn get_key(&self, key: u8) -> (r: bool)
        ensures
            r == self.key_down(key as int),
    {
        proof {
            use_type_invariant(&*self);
        }
        if key < 16 {
            self.keys[key as usize]
        } else {
            false
        }
    }

    fn get_keys_pressed(&self) -> (r: Vec<u8>)
        ensures
            forall|idx: int| 0 <= idx < r@.len() ==> self.key_down(#[trigger] r@[idx] as int),
            (r@.len() == 0) <==> (forall|j: int| 0 <= j < 16 ==> !self.key_down(j)),
    {
        proof {
            use_type_invariant(&*self);
        }
        let mut out: Vec<u8> = Vec::new();
        let mut k: usize = 0;
        while k < 16
            invariant
                self.keys@.len() == 16,
                k <= 16,
                forall|idx: int|
                    0 <= idx < out@.len() ==> (#[trigger] out@[idx]) < 16
                        && self.keys@[out@[idx] as int],
                (out@.len() == 0) <==> (forall|j: int| 0 <= j < k ==> !self.keys@[j]),
            decreases 16 - k,
        {
            if self.keys[k] {
                out.push(k as u8);
            }
            k += 1;
        }
        proof {
            if out@.len() == 0 {
                assert forall|j: int| 0 <= j < 16 implies !self.key_down(j) by {
                    assert(!self.keys@[j]);
                }
            } else {
                assert(self.key_down(out@[0] as int));
            }
        }
        out
    }

    fn init(&self) {
    }

    fn stop(&self) {
    }
}

} // verus!
