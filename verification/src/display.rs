//! The 64x32 monochrome framebuffer, and the mathematical model of
//! XOR-sprite drawing.
//!
//! Pixels hold a single bit, stored column-major: the pixel at
//! column `x`, row `y` sits at index `x * 32 + y` of the view. Coordinates
//! wrap modulo the width and height on every pixel the draw instruction
//! touches.
//!
//! The drawing model works over flattened sprite positions: a sprite of
//! `n` rows contributes positions `j` in `0 .. 8 * n`, where position `j`
//! means bit `j % 8` (most significant first) of sprite row `j / 8`. The
//! interpreter's draw instruction is proved against `drawn_display` and
//! `drawn_collision` below.

use vstd::prelude::*;

verus! {

use vstd::arithmetic::div_mod::lemma_fundamental_div_mod;

/// Width of the framebuffer in pixels.
pub const DISPLAY_WIDTH: usize = 64;

/// Height of the framebuffer in pixels.
pub const DISPLAY_HEIGHT: usize = 32;

/// Total number of pixels.
pub const DISPLAY_PIXELS: usize = 2048;

/// The framebuffer. Its view is the flat sequence of its 2048 pixel bits.
pub struct Display {
    pixels: [u8; 2048],
}

/// A well-formed framebuffer view: 2048 cells, each 0 or 1.
pub open spec fn display_wf(d: Seq<u8>) -> bool {
    &&& d.len() == DISPLAY_PIXELS
    &&& forall|p: int| 0 <= p < DISPLAY_PIXELS ==> d[p] <= 1
}

/// Flat index of the pixel at column `x`, row `y`.
pub open spec fn pix(x: int, y: int) -> int {
    x * 32 + y
}

/// Column a sprite bit lands in: horizontal wrap modulo the width.
pub open spec fn wrap_col(vx: u8, b: int) -> int {
    (vx + b) % 64
}

/// Row a sprite row lands in: vertical wrap modulo the height.
pub open spec fn wrap_row(vy: u8, r: int) -> int {
    (vy + r) % 32
}

/// Bit `b` of a sprite byte, most significant bit first.
pub open spec fn sprite_bit(byte: u8, b: int) -> bool {
    (byte >> ((7 - b) as u8)) & 1 == 1
}

/// Flat index of the pixel that sprite position `j` lands on when the
/// sprite is drawn at `(vx, vy)`.
pub open spec fn pair_target(vx: u8, vy: u8, j: int) -> int {
    pix(wrap_col(vx, j % 8), wrap_row(vy, j / 8))
}

/// Whether sprite position `j` is a set bit, for a sprite read from
/// `mem` starting at address `i`.
pub open spec fn pair_bit(mem: Seq<u8>, i: u16, j: int) -> bool {
    sprite_bit(mem[i + j / 8], j % 8)
}

/// The opposite pixel bit.
pub open spec fn flip(v: u8) -> u8 {
    if v == 0 {
        1u8
    } else {
        0u8
    }
}

/// The framebuffer after XOR-compositing the first `k` sprite positions
/// of the sprite at address `i` of `mem`, drawn at `(vx, vy)`, onto `d`.
/// A pixel hit by a set sprite bit is inverted; every other pixel keeps
/// its value. The full draw of an `n`-row sprite is `k == 8 * n`.
pub open spec fn drawn_display(d: Seq<u8>, mem: Seq<u8>, i: u16, vx: u8, vy: u8, k: int) -> Seq<
    u8,
> {
    Seq::new(
        d.len(),
        |p: int|
            if (exists|j: int|
                0 <= j < k && #[trigger] pair_target(vx, vy, j) == p && pair_bit(mem, i, j)) {
                flip(d[p])
            } else {
                d[p]
            },
    )
}

/// Whether the same draw reports a collision: some set sprite bit among
/// the first `k` positions lands on a pixel of `d` that is already set.
pub open spec fn drawn_collision(d: Seq<u8>, mem: Seq<u8>, i: u16, vx: u8, vy: u8, k: int) -> bool {
    exists|j: int|
        0 <= j < k && #[trigger] pair_bit(mem, i, j) && d[pair_target(vx, vy, j)] == 1
}

/// Every sprite position lands inside the framebuffer.
pub proof fn lemma_pair_target_bounds(vx: u8, vy: u8, j: int)
    requires
        0 <= j,
    ensures
        0 <= pair_target(vx, vy, j) < DISPLAY_PIXELS,
{
    let x = wrap_col(vx, j % 8);
    let y = wrap_row(vy, j / 8);
    assert(0 <= x < 64);
    assert(0 <= y < 32);
}

/// Two sums that agree modulo `m` and whose offsets both lie below `m`
/// have equal offsets.
proof fn lemma_mod_offset_cancel(base: int, o1: int, o2: int, m: int)
    requires
        0 <= base,
        0 <= o1 < m,
        0 <= o2 < m,
        (base + o1) % m == (base + o2) % m,
    ensures
        o1 == o2,
{
    lemma_fundamental_div_mod(base + o1, m);
    lemma_fundamental_div_mod(base + o2, m);
    let q1 = (base + o1) / m;
    let q2 = (base + o2) / m;
    assert(o1 - o2 == m * (q1 - q2)) by (nonlinear_arith)
        requires
            base + o1 == m * q1 + (base + o1) % m,
            base + o2 == m * q2 + (base + o2) % m,
            (base + o1) % m == (base + o2) % m,
    {}
    assert(q1 == q2) by (nonlinear_arith)
        requires
            o1 - o2 == m * (q1 - q2),
            0 <= o1 < m,
            0 <= o2 < m,
            0 < m,
    {}
}

/// Distinct sprite positions of one draw land on distinct pixels: the
/// eight columns of a row are distinct modulo 64, and the at most sixteen
/// rows are distinct modulo 32.
pub proof fn lemma_pair_target_injective(vx: u8, vy: u8, j1: int, j2: int)
    requires
        0 <= j1 < 128,
        0 <= j2 < 128,
        j1 != j2,
    ensures
        pair_target(vx, vy, j1) != pair_target(vx, vy, j2),
{
    let x1 = wrap_col(vx, j1 % 8);
    let y1 = wrap_row(vy, j1 / 8);
    let x2 = wrap_col(vx, j2 % 8);
    let y2 = wrap_row(vy, j2 / 8);
    assert(0 <= x1 < 64 && 0 <= x2 < 64);
    assert(0 <= y1 < 32 && 0 <= y2 < 32);
    if pair_target(vx, vy, j1) == pair_target(vx, vy, j2) {
        assert(x1 * 32 + y1 == x2 * 32 + y2);
        assert((x1 - x2) * 32 == y2 - y1) by (nonlinear_arith)
            requires
                x1 * 32 + y1 == x2 * 32 + y2,
        {}
        assert(x1 == x2) by (nonlinear_arith)
            requires
                (x1 - x2) * 32 == y2 - y1,
                0 <= y1 < 32,
                0 <= y2 < 32,
        {}
        assert(y1 == y2);
        lemma_mod_offset_cancel(vx as int, j1 % 8, j2 % 8, 64);
        lemma_mod_offset_cancel(vy as int, j1 / 8, j2 / 8, 32);
        lemma_fundamental_div_mod(j1, 8);
        lemma_fundamental_div_mod(j2, 8);
        assert(false);
    }
}

/// XOR compositing is an involution: drawing the same sprite twice at
/// the same coordinates restores every pixel the first draw changed.
pub proof fn lemma_draw_twice_restores(d: Seq<u8>, mem: Seq<u8>, i: u16, vx: u8, vy: u8, k: int)
    requires
        display_wf(d),
    ensures
        drawn_display(drawn_display(d, mem, i, vx, vy, k), mem, i, vx, vy, k) == d,
{
    let d1 = drawn_display(d, mem, i, vx, vy, k);
    let d2 = drawn_display(d1, mem, i, vx, vy, k);
    assert forall|p: int| 0 <= p < DISPLAY_PIXELS implies d2[p] == d[p] by {
        if exists|j: int|
            0 <= j < k && #[trigger] pair_target(vx, vy, j) == p && pair_bit(mem, i, j) {
            assert(d1[p] == flip(d[p]));
            assert(d2[p] == flip(d1[p]));
        }
    }
    assert(d2 =~= d);
}

/// On a framebuffer whose pixels are all clear, a sprite with at least
/// one set bit collides when drawn a second time: the first draw set
/// the pixel under that bit, so the second draw finds it set.
pub proof fn lemma_second_draw_collides(d: Seq<u8>, mem: Seq<u8>, i: u16, vx: u8, vy: u8, k: int)
    requires
        display_wf(d),
        forall|p: int| 0 <= p < DISPLAY_PIXELS ==> d[p] == 0u8,
        exists|j: int| 0 <= j < k && #[trigger] pair_bit(mem, i, j),
    ensures
        drawn_collision(drawn_display(d, mem, i, vx, vy, k), mem, i, vx, vy, k),
{
    let j = choose|j: int| 0 <= j < k && #[trigger] pair_bit(mem, i, j);
    let d1 = drawn_display(d, mem, i, vx, vy, k);
    let t = pair_target(vx, vy, j);
    lemma_pair_target_bounds(vx, vy, j);
    assert(pair_target(vx, vy, j) == t && pair_bit(mem, i, j));
    assert(d1[t] == flip(d[t]));
    assert(d1[t] == 1);
}

impl View for Display {
    type V = Seq<u8>;

    closed spec fn view(&self) -> Seq<u8> {
        self.pixels@
    }
}

impl Display {
    /// A fresh framebuffer with every pixel clear.
    pub fn new() -> (r: Self)
        ensures
            display_wf(r@),
            forall|p: int| 0 <= p < DISPLAY_PIXELS ==> r@[p] == 0u8,
    {
        Display { pixels: [0u8; 2048] }
    }

    /// Write pixel bit `val` at column `x`, row `y`.
    pub fn update_pixel(&mut self, x: usize, y: usize, val: u8)
        requires
            x < DISPLAY_WIDTH,
            y < DISPLAY_HEIGHT,
            val <= 1,
        ensures
            final(self)@ == old(self)@.update(pix(x as int, y as int), val),
    {
        self.pixels[x * 32 + y] = val;
    }

    /// Read the pixel bit at column `x`, row `y`.
    pub fn get_pixel(&mut self, x: usize, y: usize) -> (r: u8)
        requires
            x < DISPLAY_WIDTH,
            y < DISPLAY_HEIGHT,
        ensures
            *final(self) == *old(self),
            r == old(self)@[pix(x as int, y as int)],
    {
        self.pixels[x * 32 + y]
    }
}

} // verus!
