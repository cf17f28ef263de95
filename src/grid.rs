//! The elevation grid read back from the heightmap texture.
//!
//! Texels are four 32-bit channels; the first channel is the elevation and
//! arrives here as the raw bit pattern of an IEEE-754 single. Elevations are
//! kept as integer keys whose order is the order of the sample values, so
//! that the analysis can be stated and proved over integers.
use vstd::prelude::*;
use vstd::arithmetic::power2::{lemma2_to64, lemma_pow2_pos, lemma_pow2_strictly_increases, lemma_pow2_unfold, pow2};

verus! {

/// Channels per texel of the heightmap texture.
pub const CHANNELS: usize = 4;

/// Key of a NaN sample: one above the key of positive infinity. A NaN is
/// unordered, so a point with this key never counts as a minimum; every
/// other sample, infinities included, does.
pub const NAN_KEY: i64 = 0x7f80_0001;

/// One grid sample: an elevation key and its grid coordinates.
#[derive(Clone, Copy, Debug, PartialEq, Eq, Structural)]
pub struct Point {
    pub elevation: i64,
    pub x: u32,
    pub y: u32,
}

/// Sum of the absolute coordinate differences of two grid positions.
pub open spec fn manhattan(ax: u32, ay: u32, bx: u32, by: u32) -> int {
    let dx = if ax >= bx { ax - bx } else { bx - ax };
    let dy = if ay >= by { ay - by } else { by - ay };
    dx + dy
}

/// Manhattan distance between the positions of two points.
pub open spec fn dist(a: Point, b: Point) -> int {
    manhattan(a.x, a.y, b.x, b.y)
}

impl Point {
    /// `|dx| + |dy|`; computed in 64 bits, where it cannot overflow.
    pub fn manhattan_distance(&self, other: &Point) -> (d: u64)
        ensures
            d == dist(*self, *other),
    {
        let dx: u32 = if self.x >= other.x { self.x - other.x } else { other.x - self.x };
        let dy: u32 = if self.y >= other.y { self.y - other.y } else { other.y - self.y };
        dx as u64 + dy as u64
    }
}

/// The 31 low bits of a single-precision bit pattern.
pub open spec fn magnitude_bits(bits: u32) -> int {
    bits as int % 0x8000_0000
}

/// Whether a single-precision bit pattern is a NaN.
pub open spec fn is_nan_bits(bits: u32) -> bool {
    magnitude_bits(bits) > 0x7f80_0000
}

/// The key of a sample's bit pattern. For non-NaN values sign and magnitude
/// read as one integer order exactly as the values do (both zeros get key 0);
/// every NaN gets `NAN_KEY`, above positive infinity's key.
pub open spec fn elevation_key_spec(bits: u32) -> int {
    if is_nan_bits(bits) {
        NAN_KEY as int
    } else if bits >= 0x8000_0000 {
        -magnitude_bits(bits)
    } else {
        magnitude_bits(bits)
    }
}

/// Key of one elevation sample, given as its bit pattern.
pub fn elevation_key(bits: u32) -> (k: i64)
    ensures
        k == elevation_key_spec(bits),
{
    let magnitude: u32 = if bits >= 0x8000_0000 { bits - 0x8000_0000 } else { bits };
    if magnitude > 0x7f80_0000 {
        NAN_KEY
    } else if bits >= 0x8000_0000 {
        -(magnitude as i64)
    } else {
        magnitude as i64
    }
}

/// Whether a single-precision bit pattern is a finite value (neither an
/// infinity nor a NaN).
pub open spec fn is_finite_bits(bits: u32) -> bool {
    magnitude_bits(bits) < 0x7f80_0000
}

/// The value of a non-negative finite single with magnitude bits `mag`,
/// times `2^149` (every finite single is a whole multiple of `2^-149`):
/// exponent field `e = mag / 2^23` and fraction `f = mag % 2^23` give `f`
/// when `e` is zero (subnormal) and `(2^23 + f) * 2^(e - 1)` otherwise.
pub open spec fn scaled_magnitude(mag: int) -> int {
    let e = mag / 0x80_0000;
    let f = mag % 0x80_0000;
    if e == 0 {
        f
    } else {
        (0x80_0000 + f) * pow2((e - 1) as nat)
    }
}

/// The value of a finite single, times `2^149`.
pub open spec fn scaled_value(bits: u32) -> int {
    if bits >= 0x8000_0000 {
        -scaled_magnitude(magnitude_bits(bits))
    } else {
        scaled_magnitude(magnitude_bits(bits))
    }
}

proof fn lemma_scaled_magnitude_bounds(mag: int)
    requires
        0 <= mag,
    ensures
        0 <= scaled_magnitude(mag) < 0x80_0000 * pow2((mag / 0x80_0000) as nat),
        mag / 0x80_0000 >= 1 ==> scaled_magnitude(mag) >= 0x80_0000 * pow2(
            (mag / 0x80_0000 - 1) as nat,
        ),
{
    let e = mag / 0x80_0000;
    let f = mag % 0x80_0000;
    if e == 0 {
        lemma2_to64();
    } else {
        let p = pow2((e - 1) as nat);
        lemma_pow2_pos((e - 1) as nat);
        lemma_pow2_unfold(e as nat);
        assert((0x80_0000 + f) * p < 0x80_0000 * (2 * p)) by (nonlinear_arith)
            requires
                0 <= f < 0x80_0000,
                p > 0,
        ;
        assert((0x80_0000 + f) * p >= 0x80_0000 * p) by (nonlinear_arith)
            requires
                0 <= f,
                p > 0,
        ;
    }
}

proof fn lemma_scaled_magnitude_increases(a: int, b: int)
    requires
        0 <= a < b,
    ensures
        scaled_magnitude(a) < scaled_magnitude(b),
{
    let ea = a / 0x80_0000;
    let eb = b / 0x80_0000;
    if ea == eb {
        if ea > 0 {
            let p = pow2((ea - 1) as nat);
            lemma_pow2_pos((ea - 1) as nat);
            let fa = a % 0x80_0000;
            let fb = b % 0x80_0000;
            assert((0x80_0000 + fa) * p < (0x80_0000 + fb) * p) by (nonlinear_arith)
                requires
                    fa < fb,
                    p > 0,
            ;
        }
    } else {
        lemma_scaled_magnitude_bounds(a);
        lemma_scaled_magnitude_bounds(b);
        let pa = pow2(ea as nat);
        let pb = pow2((eb - 1) as nat);
        if ea < eb - 1 {
            lemma_pow2_strictly_increases(ea as nat, (eb - 1) as nat);
        }
        assert(0x80_0000 * pa <= 0x80_0000 * pb) by (nonlinear_arith)
            requires
                pa <= pb,
        ;
    }
}

/// For finite samples, keys compare exactly as the sample values do: one
/// key is below another if and only if its value is, and two keys are equal
/// if and only if the values are (so `-0.0` and `0.0` share a key).
pub proof fn lemma_key_orders_values(a: u32, b: u32)
    requires
        is_finite_bits(a),
        is_finite_bits(b),
    ensures
        elevation_key_spec(a) < elevation_key_spec(b) <==> scaled_value(a) < scaled_value(b),
        elevation_key_spec(a) == elevation_key_spec(b) <==> scaled_value(a) == scaled_value(b),
{
    let ma = magnitude_bits(a);
    let mb = magnitude_bits(b);
    lemma2_to64();
    if ma < mb {
        lemma_scaled_magnitude_increases(ma, mb);
    } else if mb < ma {
        lemma_scaled_magnitude_increases(mb, ma);
    }
    if ma > 0 {
        lemma_scaled_magnitude_increases(0, ma);
    }
    if mb > 0 {
        lemma_scaled_magnitude_increases(0, mb);
    }
}

/// The point for texel `t` of a row-major texture `width` texels wide.
pub open spec fn sample_point(words: Seq<u32>, width: u32, t: int) -> Point {
    Point {
        elevation: elevation_key_spec(words[4 * t]) as i64,
        x: (t % width as int) as u32,
        y: (t / width as int) as u32,
    }
}

/// Builds the elevation grid from the flattened channel words of a
/// row-major texture: one point per complete texel, taken from its first
/// channel, at `x = t % width`, `y = t / width`.
pub fn elevation_grid(words: &Vec<u32>, width: u32) -> (grid: Vec<Point>)
    requires
        width > 0,
        words@.len() / (CHANNELS as nat) <= 0x1_0000_0000,
    ensures
        grid@.len() == words@.len() / (CHANNELS as nat),
        forall|t: int| 0 <= t < grid@.len() ==> grid@[t] == sample_point(words@, width, t),
{
    let n: usize = words.len() / CHANNELS;
    let mut grid: Vec<Point> = Vec::with_capacity(n);
    let mut t: usize = 0;
    while t < n
        invariant
            width > 0,
            n == words@.len() / (CHANNELS as nat),
            n <= 0x1_0000_0000,
            t <= n,
            grid@.len() == t,
            forall|i: int| 0 <= i < t ==> grid@[i] == sample_point(words@, width, i),
        decreases n - t,
    {
        let len: usize = words.len();
        assert(4 * t + 3 < len);
        let tt: u32 = t as u32;
        let p = Point { elevation: elevation_key(words[4 * t]), x: tt % width, y: tt / width };
        grid.push(p);
        t += 1;
    }
    grid
}

/// The word at `i` after the direction pair of each texel has been written
/// into its second and third channels.
pub open spec fn with_directions(old_words: Seq<u32>, dirs: Seq<(u32, u32)>, i: int) -> u32 {
    if i % CHANNELS as int == 1 {
        dirs[i / CHANNELS as int].0
    } else if i % CHANNELS as int == 2 {
        dirs[i / CHANNELS as int].1
    } else {
        old_words[i]
    }
}

/// Writes one direction pair (as bit patterns) into the second and third
/// channel of each texel; the first (elevation) and fourth channels stay.
pub fn write_directions(words: &mut Vec<u32>, dirs: &Vec<(u32, u32)>)
    requires
        old(words)@.len() == CHANNELS * dirs@.len(),
    ensures
        final(words)@.len() == old(words)@.len(),
        forall|i: int|
            0 <= i < old(words)@.len() ==> final(words)@[i] == with_directions(
                old(words)@,
                dirs@,
                i,
            ),
{
    let n: usize = dirs.len();
    let mut t: usize = 0;
    while t < n
        invariant
            n == dirs@.len(),
            t <= n,
            old(words)@.len() == CHANNELS * n,
            words@.len() == old(words)@.len(),
            forall|i: int|
                0 <= i < CHANNELS * t ==> words@[i] == with_directions(old(words)@, dirs@, i),
            forall|i: int| CHANNELS * t <= i < words@.len() ==> words@[i] == old(words)@[i],
        decreases n - t,
    {
        let len: usize = words.len();
        assert(4 * t + 3 < len);
        let (dx, dy) = dirs[t];
        words.set(4 * t + 1, dx);
        words.set(4 * t + 2, dy);
        t += 1;
    }
}

} // verus!
