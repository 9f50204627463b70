use vstd::prelude::*;
use vstd::arithmetic::div_mod::{
    lemma_fundamental_div_mod, lemma_fundamental_div_mod_converse, lemma_mod_add_multiples_vanish, lemma_mod_pos_bound,
};

verus! {

/// Angle units in one full turn. Angles are measured counter-clockwise
/// from the positive x axis.
pub const TURN: u64 = 1_000_000;

/// Ceiling of `p / q` for `q > 0`.
pub open spec fn ceil_div(p: int, q: int) -> int {
    (p + q - 1) / q
}

/// Squared distance of `(x, y)` from the origin.
pub open spec fn dist2(x: int, y: int) -> int {
    x * x + y * y
}

/// `(x / scale, y / scale)` lies strictly inside the unit disc.
pub open spec fn inside_disc(x: int, y: int, scale: int) -> bool {
    dist2(x, y) < scale * scale
}

/// `k` is the ring of a point at distance `sqrt(d2) / scale` from the centre
/// when the unit disc is cut into `nr` rings of equal width:
/// `k * pitch <= radius < (k + 1) * pitch` with `pitch = 1 / nr`,
/// written with both sides squared.
pub open spec fn is_ring_of(k: int, nr: int, d2: int, scale: int) -> bool {
    &&& 0 <= k < nr
    &&& k * k * (scale * scale) <= nr * nr * d2
    &&& nr * nr * d2 < (k + 1) * (k + 1) * (scale * scale)
}

/// The ring of a point inside the disc (unique, see `lemma_ring_unique`).
pub open spec fn ring_of(nr: int, d2: int, scale: int) -> int {
    choose|k: int| is_ring_of(k, nr, d2, scale)
}

/// Angular bin of an angle when a turn is cut into `na` bins: the angle
/// is brought into `[0, TURN)` and its bin boundary is taken at the upper
/// edge, `ceil(angle / pitch)`, wrapping the last edge to bin 0.
pub open spec fn sector_of(na: int, angle: int) -> int {
    ceil_div((angle % (TURN as int)) * na, TURN as int) % na
}

/// One cell of the grid: a ring and an angular bin.
#[derive(Clone, Copy, Debug, PartialEq, Eq, Structural)]
pub struct GridCell {
    pub radial_index: u32,
    pub angular_index: u32,
}

/// The cells of a point `(x / scale, y / scale)` at angle `angle`: none
/// outside the unit disc.
pub open spec fn cell_spec(nr: int, na: int, x: int, y: int, scale: int, angle: int) -> Option<(int, int)> {
    if inside_disc(x, y, scale) {
        Some((ring_of(nr, dist2(x, y), scale), sector_of(na, angle)))
    } else {
        None
    }
}

/// A disc of unit radius cut into `radial_bins` rings of equal width and
/// `angular_bins` sectors of equal angle.
#[derive(Clone, Copy, Debug, PartialEq, Eq, Structural)]
pub struct PolarGrid {
    pub radial_bins: u32,
    pub angular_bins: u32,
}

/// Two ring indices that both fit a point are the same.
pub proof fn lemma_ring_unique(k1: int, k2: int, nr: int, d2: int, scale: int)
    requires
        is_ring_of(k1, nr, d2, scale),
        is_ring_of(k2, nr, d2, scale),
    ensures
        k1 == k2,
{
    let s2 = scale * scale;
    assert(s2 >= 0) by (nonlinear_arith)
        requires s2 == scale * scale;
    if k1 < k2 {
        assert((k1 + 1) * (k1 + 1) * s2 <= k2 * k2 * s2) by (nonlinear_arith)
            requires 0 <= k1 < k2, s2 >= 0;
    } else if k2 < k1 {
        assert((k2 + 1) * (k2 + 1) * s2 <= k1 * k1 * s2) by (nonlinear_arith)
            requires 0 <= k2 < k1, s2 >= 0;
    }
}

/// The Euclidean remainder of an angle by a full turn.
fn angle_in_turn(angle: i64) -> (m: u64)
    ensures
        m as int == angle as int % (TURN as int),
        m < TURN,
{
    if angle >= 0 {
        (angle as u64) % TURN
    } else {
        let p = (-(angle + 1)) as u64;
        let n = p % TURN;
        proof {
            let q = p as int / TURN as int;
            lemma_fundamental_div_mod_converse(p as int, TURN as int, q, n as int);
            lemma_fundamental_div_mod_converse(
                angle as int,
                TURN as int,
                -q - 1,
                TURN as int - 1 - n as int,
            );
        }
        TURN - 1 - n
    }
}

impl PolarGrid {
    pub open spec fn wf(&self) -> bool {
        self.radial_bins >= 1 && self.angular_bins >= 1
    }

    pub fn new(radial_bins: u32, angular_bins: u32) -> (g: PolarGrid)
        requires
            radial_bins >= 1,
            angular_bins >= 1,
        ensures
            g.wf(),
            g.radial_bins == radial_bins,
            g.angular_bins == angular_bins,
    {
        PolarGrid { radial_bins, angular_bins }
    }

    /// Angular bin of `angle`.
    pub fn sector(&self, angle: i64) -> (a: u32)
        requires
            self.wf(),
        ensures
            a as int == sector_of(self.angular_bins as int, angle as int),
            a < self.angular_bins,
    {
        let m = angle_in_turn(angle);
        let na = self.angular_bins as u64;
        assert(m * na <= (TURN - 1) * na) by (nonlinear_arith)
            requires m < TURN, na <= 0xffff_ffff;
        assert((TURN - 1) * na <= (TURN - 1) * 0xffff_ffff) by (nonlinear_arith)
            requires na <= 0xffff_ffff;
        let c = (m * na + TURN - 1) / TURN;
        (c % na) as u32
    }

    /// Ring of the point `(x / scale, y / scale)`, or `None` when it lies
    /// on or outside the unit circle.
    pub fn ring(&self, x: i64, y: i64, scale: u32) -> (r: Option<u32>)
        requires
            self.wf(),
        ensures
            r is None <==> !inside_disc(x as int, y as int, scale as int),
            r matches Some(k) ==> is_ring_of(k as int, self.radial_bins as int, dist2(x as int, y as int), scale as int),
            r matches Some(k) ==> k as int == ring_of(self.radial_bins as int, dist2(x as int, y as int), scale as int),
    {
        let xa: u128 = if x < 0 { (-(x as i128)) as u128 } else { x as u128 };
        let ya: u128 = if y < 0 { (-(y as i128)) as u128 } else { y as u128 };
        assert(xa * xa <= 0x4000_0000_0000_0000_0000_0000_0000_0000) by (nonlinear_arith)
            requires xa <= 0x8000_0000_0000_0000;
        assert(ya * ya <= 0x4000_0000_0000_0000_0000_0000_0000_0000) by (nonlinear_arith)
            requires ya <= 0x8000_0000_0000_0000;
        assert(xa * xa == x * x && ya * ya == y * y) by (nonlinear_arith)
            requires xa == x || xa == -x, ya == y || ya == -y;
        let d2 = xa * xa + ya * ya;
        let s = scale as u128;
        assert(s * s <= 0xffff_ffff * 0xffff_ffff) by (nonlinear_arith)
            requires s <= 0xffff_ffff;
        let s2 = s * s;
        if d2 >= s2 {
            return None;
        }
        let n = self.radial_bins as u128;
        assert(n * n <= 0xffff_ffff_ffff_ffff) by (nonlinear_arith)
            requires n <= 0xffff_ffff;
        assert(n * n * d2 < n * n * s2) by (nonlinear_arith)
            requires d2 < s2, n >= 1;
        assert(n * n * s2 <= 0xffff_ffff_ffff_ffff * 0xffff_ffff_ffff_ffff) by (nonlinear_arith)
            requires n * n <= 0xffff_ffff_ffff_ffff, s2 <= 0xffff_ffff_ffff_ffff, s2 == s * s, s <= 0xffff_ffff;
        let lhs = n * n * d2;
        assert(0int * 0int * (s2 as int) <= lhs as int) by (nonlinear_arith)
            requires lhs >= 0;
        let mut k: u32 = 0;
        let mut done = false;
        while k + 1 < self.radial_bins && !done
            invariant
                0 <= k < self.radial_bins,
                n == self.radial_bins as u128,
                lhs == n * n * d2,
                lhs < n * n * s2,
                n * n * s2 <= 0xffff_ffff_ffff_ffff * 0xffff_ffff_ffff_ffff,
                s2 == s * s,
                n * n <= 0xffff_ffff_ffff_ffff,
                (k as int) * (k as int) * (s2 as int) <= lhs as int,
                done ==> (lhs as int) < (k as int + 1) * (k as int + 1) * (s2 as int),
            decreases self.radial_bins - k + (if done { 0int } else { 1int }),
        {
            let k1 = (k + 1) as u128;
            assert(k1 * k1 <= n * n) by (nonlinear_arith)
                requires 1 <= k1 <= n;
            assert(k1 * k1 * s2 <= n * n * s2) by (nonlinear_arith)
                requires 1 <= k1 <= n, s2 >= 0;
            if k1 * k1 * s2 <= lhs {
                k = k + 1;
            } else {
                done = true;
            }
        }
        proof {
            let kk = k as int;
            if kk + 1 == self.radial_bins as int {
                assert((kk + 1) * (kk + 1) * s2 == n * n * s2);
            }
            assert(is_ring_of(kk, n as int, d2 as int, scale as int));
            lemma_ring_unique(kk, ring_of(n as int, d2 as int, scale as int), n as int, d2 as int, scale as int);
        }
        Some(k)
    }

    /// The sampling angle of a sector, its lower edge, in units of `TURN`
    /// rounded down.
    pub fn sector_angle(&self, angular_index: u32) -> (t: u64)
        requires
            self.wf(),
            angular_index < self.angular_bins,
        ensures
            t as int == angular_index as int * TURN as int / self.angular_bins as int,
            t < TURN,
    {
        let a = angular_index as u64;
        let na = self.angular_bins as u64;
        assert(a * TURN < na * TURN) by (nonlinear_arith)
            requires a < na;
        assert(na * TURN <= 0xffff_ffff * TURN) by (nonlinear_arith)
            requires na <= 0xffff_ffff;
        let t = a * TURN / na;
        proof {
            let p = (a * TURN) as int;
            lemma_fundamental_div_mod(p, na as int);
            lemma_mod_pos_bound(p, na as int);
            let rem = p % (na as int);
            assert(t < TURN) by (nonlinear_arith)
                requires na * t + rem == a * TURN, rem >= 0, a < na, na > 0;
        }
        t
    }

    /// The inner edge of a ring, where its LEDs are sampled, for a disc of
    /// radius `scale`: `radial_index * scale / radial_bins` rounded down.
    pub fn ring_radius(&self, radial_index: u32, scale: u32) -> (r: u64)
        requires
            self.wf(),
            radial_index < self.radial_bins,
        ensures
            r as int == radial_index as int * scale as int / self.radial_bins as int,
            r < scale || scale == 0,
    {
        let k = radial_index as u64;
        let s = scale as u64;
        let nr = self.radial_bins as u64;
        assert(k * s <= 0xffff_ffff * 0xffff_ffff) by (nonlinear_arith)
            requires k <= 0xffff_ffff, s <= 0xffff_ffff;
        let r = k * s / nr;
        proof {
            let p = (k * s) as int;
            lemma_fundamental_div_mod(p, nr as int);
            lemma_mod_pos_bound(p, nr as int);
            let rem = p % (nr as int);
            assert(r < s || s == 0) by (nonlinear_arith)
                requires nr * r + rem == k * s, rem >= 0, k < nr, nr > 0;
        }
        r
    }

    /// The cell of the point `(x / scale, y / scale)` whose angle is
    /// `angle`, or `None` when the point lies on or outside the unit circle.
    pub fn cell_at(&self, x: i64, y: i64, scale: u32, angle: i64) -> (c: Option<GridCell>)
        requires
            self.wf(),
        ensures
            c is None <==> !inside_disc(x as int, y as int, scale as int),
            c matches Some(cell) ==> cell.radial_index < self.radial_bins
                && cell.angular_index < self.angular_bins
                && is_ring_of(cell.radial_index as int, self.radial_bins as int, dist2(x as int, y as int), scale as int),
            match c {
                Some(cell) => cell_spec(self.radial_bins as int, self.angular_bins as int, x as int, y as int, scale as int, angle as int)
                    == Some((cell.radial_index as int, cell.angular_index as int)),
                None => cell_spec(self.radial_bins as int, self.angular_bins as int, x as int, y as int, scale as int, angle as int) is None,
            },
    {
        match self.ring(x, y, scale) {
            None => None,
            Some(k) => {
                let a = self.sector(angle);
                Some(GridCell { radial_index: k, angular_index: a })
            },
        }
    }
}

/// A point outside the disc, or on its edge, has no cell.
pub proof fn lemma_outside_has_no_cell(nr: int, na: int, x: int, y: int, scale: int, angle: int)
    requires
        dist2(x, y) >= scale * scale,
    ensures
        cell_spec(nr, na, x, y, scale, angle) is None,
{
}

/// Some ring at or beyond `k` fits a point inside the disc whose distance
/// is at least `k` ring widths.
proof fn lemma_ring_exists_from(k: int, nr: int, d2: int, scale: int)
    requires
        0 <= k < nr,
        k * k * (scale * scale) <= nr * nr * d2,
        nr * nr * d2 < nr * nr * (scale * scale),
    ensures
        exists|j: int| is_ring_of(j, nr, d2, scale),
    decreases nr - k,
{
    if nr * nr * d2 < (k + 1) * (k + 1) * (scale * scale) {
        assert(is_ring_of(k, nr, d2, scale));
    } else {
        lemma_ring_exists_from(k + 1, nr, d2, scale);
    }
}

/// Every point strictly inside the disc falls in exactly one cell, and its
/// ring `k` satisfies `k * pitch <= radius < (k + 1) * pitch` (squared).
pub proof fn lemma_inside_has_cell(nr: int, na: int, x: int, y: int, scale: int, angle: int)
    requires
        nr >= 1,
        na >= 1,
        inside_disc(x, y, scale),
    ensures
        cell_spec(nr, na, x, y, scale, angle) matches Some((r, a))
            && is_ring_of(r, nr, dist2(x, y), scale)
            && 0 <= a < na,
{
    let d2 = dist2(x, y);
    assert(d2 >= 0) by (nonlinear_arith)
        requires d2 == x * x + y * y;
    assert(nr * nr * d2 < nr * nr * (scale * scale)) by (nonlinear_arith)
        requires d2 < scale * scale, nr >= 1;
    assert(0 * 0 * (scale * scale) <= nr * nr * d2) by (nonlinear_arith)
        requires d2 >= 0;
    lemma_ring_exists_from(0, nr, d2, scale);
}

/// Adding a full turn to an angle keeps its sector.
pub proof fn lemma_sector_wraps(na: int, angle: int)
    ensures
        sector_of(na, angle) == sector_of(na, angle + TURN as int),
{
    lemma_mod_add_multiples_vanish(angle, TURN as int);
    assert(angle + TURN as int == TURN as int + angle);
}

} // verus!
