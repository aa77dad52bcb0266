//! The display surface: a monochrome 64x32 bitmap. Cells are toggled by
//! XOR-blits of 8-wide sprites, with coordinates wrapping at the edges.

use vstd::arithmetic::div_mod::{
    lemma_add_mod_noop, lemma_mod_division_less_than_divisor, lemma_mod_sub_multiples_vanish,
    lemma_small_mod,
};
use vstd::prelude::*;

verus! {

/// Width of the display grid in pixels.
pub const WIDTH: usize = 64;

/// Height of the display grid in pixels.
pub const HEIGHT: usize = 32;

/// Total number of pixels.
pub const NUM_PIXELS: usize = 2048;

/// Index of the cell a coordinate pair lands on, wrapping modulo the grid
/// size.
pub open spec fn pix_idx(x: int, y: int) -> int {
    (x % (WIDTH as int)) + (WIDTH as int) * (y % (HEIGHT as int))
}

/// Whether bit `j` of a sprite row is set, counting bit 0 as the leftmost
/// (most significant) pixel.
pub open spec fn bit_set(row: u8, j: int) -> bool {
    (row >> ((7 - j) as u8)) & 1 == 1
}

/// Whether sprite position `(i, j)` is inside the sprite and its bit set.
pub open spec fn lights(rows: Seq<u8>, i: int, j: int) -> bool {
    &&& 0 <= i < rows.len()
    &&& 0 <= j < 8
    &&& bit_set(rows[i], j)
}

/// The cell sprite position `(i, j)` lands on when drawn at `(x, y)`.
pub open spec fn target(x: u8, y: u8, i: int, j: int) -> int {
    pix_idx(x + j, y + i)
}

/// Strict ordering of sprite positions: row-major, leftmost bit first.
pub open spec fn pos_before(i: int, j: int, ri: int, rj: int) -> bool {
    i < ri || (i == ri && j < rj)
}

/// Whether some lit sprite position strictly before `(ri, rj)` lands on
/// cell `k`.
pub open spec fn touched_before(rows: Seq<u8>, x: u8, y: u8, k: int, ri: int, rj: int) -> bool {
    exists|i: int, j: int|
        lights(rows, i, j) && pos_before(i, j, ri, rj) && target(x, y, i, j) == k
}

/// Whether some lit sprite position lands on cell `k`.
pub open spec fn touched(rows: Seq<u8>, x: u8, y: u8, k: int) -> bool {
    touched_before(rows, x, y, k, rows.len() as int, 0)
}

/// Whether some lit sprite position strictly before `(ri, rj)` lands on a
/// cell that is on in `p`.
pub open spec fn collision_before(
    p: Seq<bool>,
    rows: Seq<u8>,
    x: u8,
    y: u8,
    ri: int,
    rj: int,
) -> bool {
    exists|i: int, j: int|
        lights(rows, i, j) && pos_before(i, j, ri, rj) && p[target(x, y, i, j)]
}

/// Whether the blit turns some pixel from on to off: the collision flag of
/// the draw operation.
pub open spec fn spec_collision(p: Seq<bool>, rows: Seq<u8>, x: u8, y: u8) -> bool {
    collision_before(p, rows, x, y, rows.len() as int, 0)
}

/// The display after XOR-blitting `rows` at `(x, y)`: every cell some lit
/// sprite position lands on is toggled, every other cell keeps its state.
pub open spec fn spec_draw(p: Seq<bool>, rows: Seq<u8>, x: u8, y: u8) -> Seq<bool> {
    Seq::new(p.len(), |k: int| if touched(rows, x, y, k) { !p[k] } else { p[k] })
}

/// Every target cell lies inside the grid.
pub proof fn lemma_target_in_range(x: u8, y: u8, i: int, j: int)
    requires
        0 <= i,
        0 <= j,
    ensures
        0 <= target(x, y, i, j) < NUM_PIXELS,
{
    lemma_mod_division_less_than_divisor(x + j, WIDTH as int);
    lemma_mod_division_less_than_divisor(y + i, HEIGHT as int);
}

/// Adding distinct small offsets to the same base never collides modulo
/// `m`.
proof fn lemma_mod_offset_inj(a: int, d1: int, d2: int, m: int)
    requires
        0 <= a,
        0 < m,
        0 <= d1 < m,
        0 <= d2 < m,
        d1 != d2,
    ensures
        (a + d1) % m != (a + d2) % m,
{
    let u = a % m;
    lemma_mod_division_less_than_divisor(a, m);
    lemma_add_mod_noop(a, d1, m);
    lemma_add_mod_noop(a, d2, m);
    lemma_small_mod(d1 as nat, m as nat);
    lemma_small_mod(d2 as nat, m as nat);
    assert((a + d1) % m == (u + d1) % m);
    assert((a + d2) % m == (u + d2) % m);
    if u + d1 < m {
        lemma_small_mod((u + d1) as nat, m as nat);
    } else {
        lemma_mod_sub_multiples_vanish(u + d1, m);
        lemma_small_mod((u + d1 - m) as nat, m as nat);
    }
    if u + d2 < m {
        lemma_small_mod((u + d2) as nat, m as nat);
    } else {
        lemma_mod_sub_multiples_vanish(u + d2, m);
        lemma_small_mod((u + d2 - m) as nat, m as nat);
    }
}

/// Distinct sprite positions of one blit land on distinct cells: the rows
/// are fewer than the grid's height and a row is narrower than the grid.
pub proof fn lemma_target_inj(x: u8, y: u8, i1: int, j1: int, i2: int, j2: int)
    requires
        0 <= i1 < HEIGHT,
        0 <= i2 < HEIGHT,
        0 <= j1 < 8,
        0 <= j2 < 8,
        !(i1 == i2 && j1 == j2),
    ensures
        target(x, y, i1, j1) != target(x, y, i2, j2),
{
    let c1 = (x + j1) % (WIDTH as int);
    let c2 = (x + j2) % (WIDTH as int);
    let r1 = (y + i1) % (HEIGHT as int);
    let r2 = (y + i2) % (HEIGHT as int);
    lemma_mod_division_less_than_divisor(x + j1, WIDTH as int);
    lemma_mod_division_less_than_divisor(x + j2, WIDTH as int);
    lemma_mod_division_less_than_divisor(y + i1, HEIGHT as int);
    lemma_mod_division_less_than_divisor(y + i2, HEIGHT as int);
    if target(x, y, i1, j1) == target(x, y, i2, j2) {
        assert(c1 == c2 && r1 == r2);
        if j1 != j2 {
            lemma_mod_offset_inj(x as int, j1, j2, WIDTH as int);
        } else {
            lemma_mod_offset_inj(y as int, i1, i2, HEIGHT as int);
        }
    }
}

/// XOR-blitting is an involution: drawing the same sprite at the same
/// coordinates twice restores every pixel, and the second call's collision
/// flag reports exactly the lit sprite positions whose cells were off
/// before the first call.
pub proof fn lemma_draw_twice(p: Seq<bool>, rows: Seq<u8>, x: u8, y: u8)
    requires
        p.len() == NUM_PIXELS,
    ensures
        spec_draw(spec_draw(p, rows, x, y), rows, x, y) =~= p,
        spec_collision(spec_draw(p, rows, x, y), rows, x, y) == (exists|i: int, j: int|
            lights(rows, i, j) && !p[target(x, y, i, j)]),
{
    let p1 = spec_draw(p, rows, x, y);
    assert forall|k: int| 0 <= k < p.len() implies spec_draw(p1, rows, x, y)[k] == p[k] by {}
    if spec_collision(p1, rows, x, y) {
        let (i, j): (int, int) = choose|i: int, j: int|
            lights(rows, i, j) && pos_before(i, j, rows.len() as int, 0) && p1[target(
                x,
                y,
                i,
                j,
            )];
        lemma_target_in_range(x, y, i, j);
        assert(touched(rows, x, y, target(x, y, i, j)));
        assert(lights(rows, i, j) && !p[target(x, y, i, j)]);
    }
    if exists|i: int, j: int| lights(rows, i, j) && !p[target(x, y, i, j)] {
        let (i, j): (int, int) = choose|i: int, j: int|
            lights(rows, i, j) && !p[target(x, y, i, j)];
        lemma_target_in_range(x, y, i, j);
        assert(touched(rows, x, y, target(x, y, i, j)));
        assert(p1[target(x, y, i, j)]);
        assert(pos_before(i, j, rows.len() as int, 0));
        assert(spec_collision(p1, rows, x, y));
    }
}

/// The display surface: one boolean per cell, row-major.
pub struct Monitor {
    pub pixels: Vec<bool>,
}

impl View for Monitor {
    type V = Seq<bool>;

    open spec fn view(&self) -> Seq<bool> {
        self.pixels@
    }
}

impl Monitor {
    /// A display with every pixel off.
    pub fn new() -> (m: Monitor)
        ensures
            m@.len() == NUM_PIXELS,
            forall|k: int| 0 <= k < NUM_PIXELS ==> !m@[k],
    {
        let mut pixels: Vec<bool> = Vec::new();
        let mut k: usize = 0;
        while k < NUM_PIXELS
            invariant
                k <= NUM_PIXELS,
                pixels@.len() == k,
                forall|i: int| 0 <= i < k ==> !pixels@[i],
            decreases NUM_PIXELS - k,
        {
            pixels.push(false);
            k = k + 1;
        }
        Monitor { pixels }
    }

    /// Toggles the pixel at `(x, y)`.
    pub fn set_pixel(&mut self, x: usize, y: usize)
        requires
            old(self)@.len() == NUM_PIXELS,
            x < WIDTH,
            y < HEIGHT,
        ensures
            final(self)@ == old(self)@.update(
                x + WIDTH * y,
                !old(self)@[x + WIDTH * y],
            ),
    {
        let index = x + WIDTH * y;
        let cur = self.pixels[index];
        self.pixels.set(index, !cur);
    }

    /// Turns every pixel off.
    pub fn clear(&mut self)
        requires
            old(self)@.len() == NUM_PIXELS,
        ensures
            final(self)@.len() == NUM_PIXELS,
            forall|k: int| 0 <= k < NUM_PIXELS ==> !final(self)@[k],
    {
        let mut k: usize = 0;
        while k < NUM_PIXELS
            invariant
                k <= NUM_PIXELS,
                self@.len() == NUM_PIXELS,
                forall|i: int| 0 <= i < k ==> !self@[i],
            decreases NUM_PIXELS - k,
        {
            self.pixels.set(k, false);
            k = k + 1;
        }
    }

    /// XOR-blits an 8-wide sprite at `(x, y)`, wrapping at the grid edges,
    /// and reports whether any pixel flipped from on to off.
    pub fn xor_sprite(&mut self, x: u8, y: u8, rows: &Vec<u8>) -> (col: bool)
        requires
            old(self)@.len() == NUM_PIXELS,
            rows@.len() <= HEIGHT,
        ensures
            final(self)@ == spec_draw(old(self)@, rows@, x, y),
            col == spec_collision(old(self)@, rows@, x, y),
    {
        let ghost p0 = self@;
        let mut collision = false;
        let mut i: usize = 0;
        while i < rows.len()
            invariant
                self@.len() == NUM_PIXELS,
                p0.len() == NUM_PIXELS,
                rows@.len() <= HEIGHT,
                i <= rows@.len(),
                forall|k: int|
                    0 <= k < NUM_PIXELS ==> self@[k] == (if touched_before(
                        rows@,
                        x,
                        y,
                        k,
                        i as int,
                        0,
                    ) {
                        !p0[k]
                    } else {
                        p0[k]
                    }),
                collision == collision_before(p0, rows@, x, y, i as int, 0),
            decreases rows@.len() - i,
        {
            let row = rows[i];
            let mut j: usize = 0;
            while j < 8
                invariant
                    self@.len() == NUM_PIXELS,
                    p0.len() == NUM_PIXELS,
                    rows@.len() <= HEIGHT,
                    i < rows@.len(),
                    j <= 8,
                    row == rows@[i as int],
                    forall|k: int|
                        0 <= k < NUM_PIXELS ==> self@[k] == (if touched_before(
                            rows@,
                            x,
                            y,
                            k,
                            i as int,
                            j as int,
                        ) {
                            !p0[k]
                        } else {
                            p0[k]
                        }),
                    collision == collision_before(p0, rows@, x, y, i as int, j as int),
                decreases 8 - j,
            {
                let bit = (row >> ((7 - j) as u8)) & 1;
                if bit == 1 {
                    proof {
                        assert(bit_set(rows@[i as int], j as int));
                        assert(lights(rows@, i as int, j as int));
                    }
                    let px = (x as usize + j) % WIDTH;
                    let py = (y as usize + i) % HEIGHT;
                    let idx = px + WIDTH * py;
                    proof {
                        lemma_target_in_range(x, y, i as int, j as int);
                        assert(idx == target(x, y, i as int, j as int));
                        assert(!touched_before(rows@, x, y, idx as int, i as int, j as int)) by {
                            if touched_before(rows@, x, y, idx as int, i as int, j as int) {
                                let (a, b): (int, int) = choose|a: int, b: int|
                                    lights(rows@, a, b) && pos_before(a, b, i as int, j as int)
                                        && target(x, y, a, b) == idx;
                                lemma_target_inj(x, y, a, b, i as int, j as int);
                            }
                        }
                    }
                    let cur = self.pixels[idx];
                    if cur {
                        collision = true;
                    }
                    self.pixels.set(idx, !cur);
                    proof {
                        let gi = i as int;
                        let gj = j as int;
                        let gidx = idx as int;
                        assert forall|k: int| 0 <= k < NUM_PIXELS implies self@[k] == (
                        if touched_before(rows@, x, y, k, gi, gj + 1) {
                            !p0[k]
                        } else {
                            p0[k]
                        }) by {
                            if k == gidx {
                                assert(touched_before(rows@, x, y, k, gi, gj + 1));
                            } else {
                                if touched_before(rows@, x, y, k, gi, gj + 1) {
                                    let (a, b): (int, int) = choose|a: int, b: int|
                                        lights(rows@, a, b) && pos_before(a, b, gi, gj + 1)
                                            && target(x, y, a, b) == k;
                                    assert(!(a == gi && b == gj));
                                    assert(touched_before(rows@, x, y, k, gi, gj));
                                } else {
                                    assert(!touched_before(rows@, x, y, k, gi, gj));
                                }
                            }
                        }
                        assert(collision == collision_before(p0, rows@, x, y, gi, gj + 1)) by {
                            if collision_before(p0, rows@, x, y, gi, gj + 1) {
                                let (a, b): (int, int) = choose|a: int, b: int|
                                    lights(rows@, a, b) && pos_before(a, b, gi, gj + 1) && p0[target(
                                        x,
                                        y,
                                        a,
                                        b,
                                    )];
                                if a == gi && b == gj {
                                    assert(cur == p0[gidx]);
                                } else {
                                    assert(collision_before(p0, rows@, x, y, gi, gj));
                                }
                            } else {
                                assert(!collision_before(p0, rows@, x, y, gi, gj));
                                assert(!p0[gidx]);
                            }
                        }
                    }
                } else {
                    proof {
                        let gi = i as int;
                        let gj = j as int;
                        assert(!bit_set(rows@[gi], gj));
                        assert forall|k: int| 0 <= k < NUM_PIXELS implies touched_before(
                            rows@,
                            x,
                            y,
                            k,
                            gi,
                            gj + 1,
                        ) == touched_before(rows@, x, y, k, gi, gj) by {
                            if touched_before(rows@, x, y, k, gi, gj + 1) {
                                let (a, b): (int, int) = choose|a: int, b: int|
                                    lights(rows@, a, b) && pos_before(a, b, gi, gj + 1)
                                        && target(x, y, a, b) == k;
                                assert(!(a == gi && b == gj));
                                assert(touched_before(rows@, x, y, k, gi, gj));
                            }
                        }
                        assert(collision_before(p0, rows@, x, y, gi, gj + 1) == collision_before(
                            p0,
                            rows@,
                            x,
                            y,
                            gi,
                            gj,
                        )) by {
                            if collision_before(p0, rows@, x, y, gi, gj + 1) {
                                let (a, b): (int, int) = choose|a: int, b: int|
                                    lights(rows@, a, b) && pos_before(a, b, gi, gj + 1) && p0[target(
                                        x,
                                        y,
                                        a,
                                        b,
                                    )];
                                assert(!(a == gi && b == gj));
                                assert(collision_before(p0, rows@, x, y, gi, gj));
                            }
                        }
                    }
                }
                j = j + 1;
            }
            proof {
                let gi = i as int;
                assert forall|k: int| 0 <= k < NUM_PIXELS implies touched_before(
                    rows@,
                    x,
                    y,
                    k,
                    gi + 1,
                    0,
                ) == touched_before(rows@, x, y, k, gi, 8) by {
                    if touched_before(rows@, x, y, k, gi + 1, 0) {
                        let (a, b): (int, int) = choose|a: int, b: int|
                            lights(rows@, a, b) && pos_before(a, b, gi + 1, 0) && target(
                                x,
                                y,
                                a,
                                b,
                            ) == k;
                        assert(pos_before(a, b, gi, 8));
                    }
                    if touched_before(rows@, x, y, k, gi, 8) {
                        let (a, b): (int, int) = choose|a: int, b: int|
                            lights(rows@, a, b) && pos_before(a, b, gi, 8) && target(x, y, a, b)
                                == k;
                        assert(pos_before(a, b, gi + 1, 0));
                    }
                }
                assert(collision_before(p0, rows@, x, y, gi + 1, 0) == collision_before(
                    p0,
                    rows@,
                    x,
                    y,
                    gi,
                    8,
                )) by {
                    if collision_before(p0, rows@, x, y, gi + 1, 0) {
                        let (a, b): (int, int) = choose|a: int, b: int|
                            lights(rows@, a, b) && pos_before(a, b, gi + 1, 0) && p0[target(
                                x,
                                y,
                                a,
                                b,
                            )];
                        assert(pos_before(a, b, gi, 8));
                    }
                    if collision_before(p0, rows@, x, y, gi, 8) {
                        let (a, b): (int, int) = choose|a: int, b: int|
                            lights(rows@, a, b) && pos_before(a, b, gi, 8) && p0[target(
                                x,
                                y,
                                a,
                                b,
                            )];
                        assert(pos_before(a, b, gi + 1, 0));
                    }
                }
            }
            i = i + 1;
        }
        proof {
            assert(self@ =~= spec_draw(p0, rows@, x, y));
        }
        collision
    }
}

/// The four frame bytes of cell `k` carry its colour: white when on,
/// black when off, alpha always full.
pub open spec fn rgba_ok(pix: Seq<bool>, frame: Seq<u8>, k: int) -> bool {
    let c: u8 = if pix[k] {
        0xFF
    } else {
        0x00
    };
    &&& frame[4 * k] == c
    &&& frame[4 * k + 1] == c
    &&& frame[4 * k + 2] == c
    &&& frame[4 * k + 3] == 0xFFu8
}

/// Renders the display into an RGBA frame buffer, four bytes per pixel:
/// white where the pixel is on, black where it is off, alpha always full.
pub fn draw_monitor(monitor: &Monitor, frame: &mut Vec<u8>)
    requires
        monitor@.len() == NUM_PIXELS,
        old(frame)@.len() == 4 * NUM_PIXELS,
    ensures
        final(frame)@.len() == 4 * NUM_PIXELS,
        forall|k: int| 0 <= k < NUM_PIXELS ==> #[trigger] rgba_ok(monitor@, final(frame)@, k),
{
    let mut k: usize = 0;
    while k < NUM_PIXELS
        invariant
            monitor@.len() == NUM_PIXELS,
            frame@.len() == 4 * NUM_PIXELS,
            k <= NUM_PIXELS,
            forall|t: int| 0 <= t < k ==> #[trigger] rgba_ok(monitor@, frame@, t),
        decreases NUM_PIXELS - k,
    {
        let c: u8 = if monitor.pixels[k] {
            0xFF
        } else {
            0x00
        };
        let ghost before = frame@;
        frame.set(4 * k, c);
        frame.set(4 * k + 1, c);
        frame.set(4 * k + 2, c);
        frame.set(4 * k + 3, 0xFF);
        proof {
            let gk = k as int;
            assert(rgba_ok(monitor@, frame@, gk));
            assert forall|t: int| 0 <= t < gk implies #[trigger] rgba_ok(monitor@, frame@, t) by {
                assert(rgba_ok(monitor@, before, t));
                assert(4 * t + 3 < 4 * gk);
            }
        }
        k = k + 1;
    }
}

} // verus!
