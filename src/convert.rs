use vstd::prelude::*;
use crate::color::Rgb;

verus! {

/// Fixed-point one for the components of a direction.
pub const DIR_ONE: i32 = 1048576;

/// Where the LEDs sit along one ray of the disc, all in one length unit:
/// `led_count` LEDs of diameter `led_diameter`, `led_gap` apart, the first
/// `inner_offset` from the centre.
#[derive(Clone, Copy, Debug, PartialEq, Eq, Structural)]
pub struct LedGeometry {
    pub led_count: u32,
    pub inner_offset: u32,
    pub led_diameter: u32,
    pub led_gap: u32,
}

/// A unit direction as fixed-point cosine and sine (scaled by `DIR_ONE`).
#[derive(Clone, Copy, Debug, PartialEq, Eq, Structural)]
pub struct Direction {
    pub cos: i32,
    pub sin: i32,
}

/// A raster image, row by row from the top.
pub struct Raster {
    pub width: u32,
    pub height: u32,
    pub pixels: Vec<Rgb>,
}

#[derive(Clone, Copy, Debug, PartialEq, Eq, Structural)]
pub enum ConvertError {
    /// A sampling position fell outside the image.
    OutOfBounds,
}

impl LedGeometry {
    /// Physical radius of the disc: the offset, every LED, and the gaps
    /// between them.
    pub open spec fn span(&self) -> int {
        self.inner_offset + self.led_diameter * self.led_count + self.led_gap * (self.led_count - 1)
    }

    pub open spec fn wf(&self) -> bool {
        self.led_count >= 1 && self.span() > 0
    }
}

impl Direction {
    pub open spec fn wf(&self) -> bool {
        -DIR_ONE <= self.cos <= DIR_ONE && -DIR_ONE <= self.sin <= DIR_ONE
    }
}

impl Raster {
    pub open spec fn wf(&self) -> bool {
        self.pixels@.len() == self.width as int * self.height as int
    }

    pub open spec fn pixel(&self, x: int, y: int) -> Rgb {
        self.pixels@[y * self.width + x]
    }
}

/// `p / q` rounded to the nearest integer, halves away from zero.
pub open spec fn round_div(p: int, q: int) -> int {
    if p >= 0 {
        (2 * p + q) / (2 * q)
    } else {
        -((2 * -p + q) / (2 * q))
    }
}

/// Ring `i`'s radius in pixels is `ring_num / ring_den`: the disc's physical
/// radius is scaled onto half the shorter side of the image, the first ring
/// sits at the inner offset and each further one half an LED pitch out.
pub open spec fn ring_num(g: LedGeometry, short_side: int, i: int) -> int {
    (2 * g.inner_offset + (g.led_diameter + g.led_gap) * i) * short_side
}

pub open spec fn ring_den(g: LedGeometry) -> int {
    4 * g.span()
}

/// Offset in pixels along one axis of ring `i` in the direction with
/// component `c`.
pub open spec fn ring_offset(g: LedGeometry, short_side: int, i: int, c: int) -> int {
    round_div(ring_num(g, short_side, i) * c, ring_den(g) * DIR_ONE)
}

pub open spec fn short_side(img: &Raster) -> int {
    if img.width < img.height { img.width as int } else { img.height as int }
}

pub open spec fn sample_x(img: &Raster, g: LedGeometry, d: Direction, i: int) -> int {
    ring_offset(g, short_side(img), i, d.cos as int) + img.width / 2
}

pub open spec fn sample_y(img: &Raster, g: LedGeometry, d: Direction, i: int) -> int {
    ring_offset(g, short_side(img), i, d.sin as int) + img.height / 2
}

pub open spec fn sample_in_bounds(img: &Raster, g: LedGeometry, d: Direction, i: int) -> bool {
    &&& 0 <= sample_x(img, g, d, i) < img.width
    &&& 0 <= sample_y(img, g, d, i) < img.height
}

/// Every LED position of every slice lies on the image.
pub open spec fn all_in_bounds(img: &Raster, g: LedGeometry, dirs: Seq<Direction>) -> bool {
    forall|s: int, i: int| 0 <= s < dirs.len() && 0 <= i < g.led_count ==> sample_in_bounds(img, g, dirs[s], i)
}

/// `rows` holds one row per slice, in slice order, and each row the colour
/// of the pixel under each LED, innermost first.
pub open spec fn is_sampling(img: &Raster, g: LedGeometry, dirs: Seq<Direction>, rows: Seq<Seq<Rgb>>) -> bool {
    &&& rows.len() == dirs.len()
    &&& forall|s: int| 0 <= s < rows.len() ==> #[trigger] rows[s].len() == g.led_count
    &&& forall|s: int, i: int| 0 <= s < rows.len() && 0 <= i < g.led_count ==>
        #[trigger] rows[s][i] == img.pixel(sample_x(img, g, dirs[s], i), sample_y(img, g, dirs[s], i))
}

/// A sampling is fixed by the image, the geometry and the directions: two
/// runs on the same inputs give the same rows.
pub proof fn lemma_sampling_unique(img: &Raster, g: LedGeometry, dirs: Seq<Direction>, a: Seq<Seq<Rgb>>, b: Seq<Seq<Rgb>>)
    requires
        is_sampling(img, g, dirs, a),
        is_sampling(img, g, dirs, b),
    ensures
        a == b,
        a.len() == dirs.len(),
        forall|s: int| 0 <= s < a.len() ==> #[trigger] a[s].len() == g.led_count,
{
    assert forall|s: int| 0 <= s < a.len() implies a[s] == b[s] by {
        assert(a[s] =~= b[s]);
    }
    assert(a =~= b);
}

/// `(2 * m + q) / (2 * q)`: a non-negative `m / q` rounded, halves up.
fn round_half_up(m: u128, q: u128) -> (r: u128)
    requires
        q > 0,
        m <= 0x0100_0000_0000_0000_0000_0000_0000_0000,
        q <= 0x1_0000_0000_0000_0000_0000_0000,
    ensures
        r as int == (2 * m + q) / (2 * q),
        r <= m,
{
    let r = (2 * m + q) / (2 * q);
    proof {
        vstd::arithmetic::div_mod::lemma_div_is_ordered_by_denominator((2 * m + q) as int, 2, (2 * q) as int);
    }
    assert((2 * m + q) / 2 <= m + q / 2);
    assert(r <= m) by (nonlinear_arith)
        requires r == (2 * m + q) / (2 * q), q >= 1;
    r
}

/// The rounded offset `round_div(num * c, den * DIR_ONE)`.
fn offset(num: u128, c: i32, den: u128) -> (o: i128)
    requires
        num <= 0x4_0000_0000_0000_0000_0000_0000,
        0 < den <= 0x10_0000_0000_0000_0000,
        -DIR_ONE <= c <= DIR_ONE,
    ensures
        o == round_div(num * c, den * DIR_ONE),
        -0x0100_0000_0000_0000_0000_0000_0000_0000 <= o <= 0x0100_0000_0000_0000_0000_0000_0000_0000,
{
    assert(den * (DIR_ONE as u128) <= 0x1_0000_0000_0000_0000_0000_0000) by (nonlinear_arith)
        requires den <= 0x10_0000_0000_0000_0000;
    let q = den * (DIR_ONE as u128);
    if c >= 0 {
        let cu = c as u128;
        assert(num * cu <= 0x0100_0000_0000_0000_0000_0000_0000_0000) by (nonlinear_arith)
            requires num <= 0x4_0000_0000_0000_0000_0000_0000, cu <= DIR_ONE;
        assert(num * cu >= 0) by (nonlinear_arith);
        let m = num * cu;
        round_half_up(m, q) as i128
    } else {
        let cu = (-(c as i64)) as u128;
        assert(num * cu <= 0x0100_0000_0000_0000_0000_0000_0000_0000) by (nonlinear_arith)
            requires num <= 0x4_0000_0000_0000_0000_0000_0000, cu <= DIR_ONE;
        let m = num * cu;
        let r = round_half_up(m, q);
        proof {
            if num == 0 {
                assert(num * c == 0);
                assert(m == 0);
            } else {
                assert(num * c < 0) by (nonlinear_arith)
                    requires num > 0, c < 0;
                assert(-(num * c) == num * cu) by (nonlinear_arith)
                    requires cu == -c;
            }
        }
        -(r as i128)
    }
}

/// Samples `img` under every LED of every slice: one row per direction of
/// `dirs`, in order, each holding the pixel nearest to each LED position,
/// innermost LED first. Fails when any position falls outside the image.
pub fn sample_polar(img: &Raster, g: LedGeometry, dirs: &Vec<Direction>) -> (r: Result<Vec<Vec<Rgb>>, ConvertError>)
    requires
        img.wf(),
        g.wf(),
        forall|s: int| 0 <= s < dirs@.len() ==> (#[trigger] dirs@[s]).wf(),
    ensures
        match r {
            Ok(rows) => all_in_bounds(img, g, dirs@)
                && is_sampling(img, g, dirs@, rows@.map_values(|v: Vec<Rgb>| v@)),
            Err(e) => e == ConvertError::OutOfBounds && !all_in_bounds(img, g, dirs@),
        },
{
    let w = img.width;
    let h = img.height;
    let short = if w < h { w } else { h };
    let count = g.led_count;
    let inner = g.inner_offset as u128;
    let step = g.led_diameter as u128 + g.led_gap as u128;
    assert((g.led_diameter as u128) * (count as u128) <= 0xffff_ffff * 0xffff_ffff) by (nonlinear_arith)
        requires g.led_diameter <= 0xffff_ffff, count <= 0xffff_ffff;
    let gaps = (count - 1) as u128;
    assert((g.led_gap as u128) * gaps <= 0xffff_ffff * 0xffff_ffff) by (nonlinear_arith)
        requires g.led_gap <= 0xffff_ffff, gaps <= 0xffff_ffff;
    let span = inner + (g.led_diameter as u128) * (count as u128) + (g.led_gap as u128) * gaps;
    let den = 4 * span;
    let mut rows: Vec<Vec<Rgb>> = Vec::new();
    let mut s: usize = 0;
    while s < dirs.len()
        invariant
            img.wf(),
            g.wf(),
            forall|k: int| 0 <= k < dirs@.len() ==> (#[trigger] dirs@[k]).wf(),
            w == img.width && h == img.height,
            short as int == short_side(img),
            count == g.led_count,
            inner == g.inner_offset,
            step == g.led_diameter + g.led_gap,
            den == ring_den(g),
            0 < den <= 0x10_0000_0000_0000_0000,
            s <= dirs@.len(),
            rows@.len() == s,
            forall|k: int, i: int| 0 <= k < s && 0 <= i < count ==> sample_in_bounds(img, g, dirs@[k], i),
            forall|k: int| 0 <= k < s ==> (#[trigger] rows@[k])@.len() == count,
            forall|k: int, i: int| 0 <= k < s && 0 <= i < count ==>
                #[trigger] rows@[k]@[i] == img.pixel(sample_x(img, g, dirs@[k], i), sample_y(img, g, dirs@[k], i)),
        decreases dirs.len() - s,
    {
        let d = dirs[s];
        let mut row: Vec<Rgb> = Vec::new();
        let mut i: u32 = 0;
        while i < count
            invariant
                img.wf(),
                w == img.width && h == img.height,
                short as int == short_side(img),
                count == g.led_count,
                inner == g.inner_offset,
                step == g.led_diameter + g.led_gap,
                den == ring_den(g),
                0 < den <= 0x10_0000_0000_0000_0000,
                s < dirs@.len(),
                d == dirs@[s as int],
                d.wf(),
                i <= count,
                row@.len() == i,
                forall|j: int| 0 <= j < i ==> sample_in_bounds(img, g, d, j),
                forall|j: int| 0 <= j < i ==>
                    #[trigger] row@[j] == img.pixel(sample_x(img, g, d, j), sample_y(img, g, d, j)),
            decreases count - i,
        {
            assert(step * (i as u128) <= 0x2_0000_0000 * 0xffff_ffff) by (nonlinear_arith)
                requires step <= 0x2_0000_0000, i <= 0xffff_ffff;
            let base = 2 * inner + step * (i as u128);
            assert(base * (short as u128) <= 0x4_0000_0000_0000_0000_0000_0000) by (nonlinear_arith)
                requires base <= 0x4_0000_0000_0000_0000, short <= 0xffff_ffff;
            let num = base * (short as u128);
            assert(num == ring_num(g, short_side(img), i as int));
            let ox = offset(num, d.cos, den);
            let oy = offset(num, d.sin, den);
            let x = ox + (w / 2) as i128;
            let y = oy + (h / 2) as i128;
            assert(x == sample_x(img, g, d, i as int));
            assert(y == sample_y(img, g, d, i as int));
            if x < 0 || x >= w as i128 || y < 0 || y >= h as i128 {
                assert(!all_in_bounds(img, g, dirs@)) by {
                    assert(!sample_in_bounds(img, g, dirs@[s as int], i as int));
                }
                return Err(ConvertError::OutOfBounds);
            }
            let xu = x as usize;
            let yu = y as usize;
            assert(yu * (w as int) + xu < (w as int) * (h as int)) by (nonlinear_arith)
                requires xu < w, yu < h;
            assert(yu * (w as int) + xu >= 0) by (nonlinear_arith)
                requires xu >= 0, yu >= 0, w >= 0;
            let n_pixels = img.pixels.len();
            assert(yu * (w as int) + xu < n_pixels);
            let p = img.pixels[yu * w as usize + xu];
            row.push(p);
            i = i + 1;
        }
        rows.push(row);
        s = s + 1;
    }
    let ghost views = rows@.map_values(|v: Vec<Rgb>| v@);
    assert(forall|k: int| 0 <= k < rows@.len() ==> #[trigger] views[k] == rows@[k]@);
    Ok(rows)
}

} // verus!
