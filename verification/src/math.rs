//! Fixed-point coordinate math for the motion commands.
//!
//! World coordinates are carried as signed 64-bit integers counting
//! thousandths of a world unit, so that per-frame interpolation is exact
//! and reproducible.  The motion step itself — advance a bounded distance
//! along the straight line towards a destination, snapping onto it once it
//! is within reach — is proved to shrink the squared remaining distance on
//! every non-final frame, which is what makes every motion command finish
//! in finitely many frames.

use vstd::prelude::*;
use vstd::arithmetic::div_mod::{lemma_fundamental_div_mod, lemma_mod_bound};

verus! {

/// Coordinates are kept within this many fixed-point units of the origin
/// so that squared distances fit comfortably in 64 bits.
pub const COORD_LIMIT: i64 = 0x2000_0000;

/// Smallest admissible per-frame step (in fixed-point units).  Below this
/// the integer rounding of the direction vector could stall the motion.
pub const MIN_STEP: i64 = 7;

/// Largest admissible per-frame step.
pub const MAX_STEP: i64 = 0x4000_0000;

/// A point or translation in scene space, in fixed-point units.
#[derive(Clone, Copy, PartialEq, Eq, Structural, Debug)]
pub struct Vec3 {
    pub x: i64,
    pub y: i64,
    pub z: i64,
}

impl Vec3 {
    /// All components within the coordinate budget.
    pub open spec fn wf(self) -> bool {
        &&& -COORD_LIMIT <= self.x <= COORD_LIMIT
        &&& -COORD_LIMIT <= self.y <= COORD_LIMIT
        &&& -COORD_LIMIT <= self.z <= COORD_LIMIT
    }

    pub fn new(x: i64, y: i64, z: i64) -> (r: Vec3)
        ensures
            r == (Vec3 { x, y, z }),
    {
        Vec3 { x, y, z }
    }

    /// Executable mirror of `wf`, for callers outside the proofs.
    pub fn check_wf(&self) -> (r: bool)
        ensures
            r == self.wf(),
    {
        -COORD_LIMIT <= self.x && self.x <= COORD_LIMIT
            && -COORD_LIMIT <= self.y && self.y <= COORD_LIMIT
            && -COORD_LIMIT <= self.z && self.z <= COORD_LIMIT
    }
}

/// Squared length of the vector `(dx, dy, dz)`.
pub open spec fn sq_len3(dx: int, dy: int, dz: int) -> int {
    dx * dx + dy * dy + dz * dz
}

/// Squared distance between two points.
pub open spec fn sq_dist(a: Vec3, b: Vec3) -> int {
    sq_len3(b.x - a.x, b.y - a.y, b.z - a.z)
}

/// `r` is the integer square root (rounded down) of `n`.
pub open spec fn is_sqrt_floor(n: int, r: int) -> bool {
    0 <= r && r * r <= n && n < (r + 1) * (r + 1)
}

/// The integer square root of `n`, rounded down.
pub open spec fn sqrt_floor(n: int) -> int {
    choose|r: int| is_sqrt_floor(n, r)
}

proof fn lemma_sqrt_floor_exists(n: int) -> (r: int)
    requires
        n >= 0,
    ensures
        is_sqrt_floor(n, r),
    decreases n,
{
    if n == 0 {
        assert(is_sqrt_floor(0, 0));
        0
    } else {
        let p = lemma_sqrt_floor_exists(n - 1);
        if (p + 1) * (p + 1) <= n {
            assert(n - 1 < (p + 1) * (p + 1));
            assert(n == (p + 1) * (p + 1));
            assert(n < (p + 2) * (p + 2)) by (nonlinear_arith)
                requires n == (p + 1) * (p + 1), p >= 0;
            assert(is_sqrt_floor(n, p + 1));
            p + 1
        } else {
            assert(is_sqrt_floor(n, p));
            p
        }
    }
}

pub proof fn lemma_sqrt_floor_is(n: int)
    requires
        n >= 0,
    ensures
        is_sqrt_floor(n, sqrt_floor(n)),
{
    let w = lemma_sqrt_floor_exists(n);
    assert(is_sqrt_floor(n, w));
}

pub proof fn lemma_sqrt_floor_unique(n: int, a: int, b: int)
    requires
        is_sqrt_floor(n, a),
        is_sqrt_floor(n, b),
    ensures
        a == b,
{
    if a < b {
        assert((a + 1) * (a + 1) <= b * b) by (nonlinear_arith)
            requires 0 <= a, a < b;
        assert(false);
    }
    if b < a {
        assert((b + 1) * (b + 1) <= a * a) by (nonlinear_arith)
            requires 0 <= b, b < a;
        assert(false);
    }
}

/// Integer square root, rounded down.
pub fn isqrt64(n: u64) -> (r: u64)
    requires
        n < 0x4000_0000_0000_0000,
    ensures
        is_sqrt_floor(n as int, r as int),
        r == sqrt_floor(n as int),
        r <= 0x8000_0000,
{
    let mut lo: u64 = 0;
    let mut hi: u64 = 0x8000_0000;
    assert((hi as int) * (hi as int) > n as int) by (nonlinear_arith)
        requires hi == 0x8000_0000u64, n < 0x4000_0000_0000_0000u64;
    while hi - lo > 1
        invariant
            lo < hi <= 0x8000_0000,
            (lo as int) * (lo as int) <= n as int,
            (n as int) < (hi as int) * (hi as int),
        decreases hi - lo,
    {
        let mid: u64 = lo + (hi - lo) / 2;
        assert(lo < mid < hi);
        proof {
            assert((mid as int) * (mid as int) < 0x4000_0000_0000_0000) by (nonlinear_arith)
                requires 0 <= (mid as int) < 0x8000_0000;
        }
        if mid * mid <= n {
            lo = mid;
        } else {
            hi = mid;
        }
    }
    proof {
        assert(is_sqrt_floor(n as int, lo as int));
        lemma_sqrt_floor_is(n as int);
        lemma_sqrt_floor_unique(n as int, lo as int, sqrt_floor(n as int));
    }
    lo
}

/// Movement along one axis: the step length `s` projected onto the axis
/// component `d` of the remaining vector, whose length rounds down to `nrm`.
pub open spec fn axis_step(d: int, s: int, nrm: int) -> int {
    if d >= 0 {
        (s * d) / nrm
    } else {
        -((s * (-d)) / nrm)
    }
}

/// The position after one non-final motion frame: every axis advances by
/// its share of the step, rounding towards the current position.
pub open spec fn stepped(pos: Vec3, to: Vec3, s: int) -> Vec3 {
    let nrm = sqrt_floor(sq_dist(pos, to));
    Vec3 {
        x: (pos.x + axis_step(to.x - pos.x, s, nrm)) as i64,
        y: (pos.y + axis_step(to.y - pos.y, s, nrm)) as i64,
        z: (pos.z + axis_step(to.z - pos.z, s, nrm)) as i64,
    }
}

proof fn lemma_div_bounds(x: int, d: int)
    requires
        x >= 0,
        d >= 1,
    ensures
        0 <= x / d,
        d * (x / d) <= x,
        x < d * (x / d) + d,
{
    lemma_fundamental_div_mod(x, d);
    lemma_mod_bound(x, d);
    if x / d < 0 {
        assert(d * (x / d) <= -d) by (nonlinear_arith)
            requires d >= 1, x / d <= -1;
        assert(false);
    }
}

/// Facts about one axis share `q = (s*a)/nrm` of the step.
proof fn lemma_axis_share(a: int, s: int, nrm: int, q: int)
    requires
        0 <= a,
        1 <= s <= nrm,
        q == (s * a) / nrm,
    ensures
        0 <= q <= a,
        nrm * q <= s * a,
        s * a < nrm * q + nrm,
        nrm * (a * q) >= s * (a * a) - nrm * a,
        (nrm * q) * (nrm * q) <= (s * a) * (s * a),
{
    assert(s * a >= 0) by (nonlinear_arith)
        requires s >= 1, a >= 0;
    lemma_div_bounds(s * a, nrm);
    assert(nrm * q <= s * a);
    assert(s * a < nrm * q + nrm);
    assert(s * a <= nrm * a) by (nonlinear_arith)
        requires s <= nrm, a >= 0;
    if q > a {
        assert(nrm * q >= nrm * (a + 1)) by (nonlinear_arith)
            requires nrm >= 1, q >= a + 1;
        assert(nrm * (a + 1) == nrm * a + nrm) by (nonlinear_arith);
        assert(false);
    }
    assert(nrm * (a * q) >= s * (a * a) - nrm * a) by (nonlinear_arith)
        requires nrm * q + nrm > s * a, a >= 0;
    assert((nrm * q) * (nrm * q) <= (s * a) * (s * a)) by (nonlinear_arith)
        requires 0 <= nrm * q, nrm * q <= s * a;
}

/// The core progress bound: one non-final motion frame strictly shrinks
/// the squared remaining distance, provided the step is at least
/// `MIN_STEP` fixed-point units.
proof fn lemma_progress_core(ax: int, ay: int, az: int, s: int, nrm: int, qx: int, qy: int, qz: int)
    requires
        0 <= ax,
        0 <= ay,
        0 <= az,
        7 <= s,
        s * s < ax * ax + ay * ay + az * az,
        is_sqrt_floor(ax * ax + ay * ay + az * az, nrm),
        qx == (s * ax) / nrm,
        qy == (s * ay) / nrm,
        qz == (s * az) / nrm,
    ensures
        0 <= qx <= ax,
        0 <= qy <= ay,
        0 <= qz <= az,
        (ax - qx) * (ax - qx) + (ay - qy) * (ay - qy) + (az - qz) * (az - qz)
            < ax * ax + ay * ay + az * az,
{
    let n2 = ax * ax + ay * ay + az * az;
    // The step is no longer than the remaining distance, so it fits within
    // the rounded-down length as well.
    assert(s <= nrm) by (nonlinear_arith)
        requires s * s < n2, n2 < (nrm + 1) * (nrm + 1), s >= 0, nrm >= 0,
            n2 == ax * ax + ay * ay + az * az;
    assert(nrm >= 7);
    // Each axis component is at most the rounded-down length.
    assert(ax * ax <= n2 && ay * ay <= n2 && az * az <= n2) by (nonlinear_arith)
        requires n2 == ax * ax + ay * ay + az * az;
    assert(ax <= nrm) by (nonlinear_arith)
        requires ax >= 0, nrm >= 0, ax * ax <= n2, n2 < (nrm + 1) * (nrm + 1);
    assert(ay <= nrm) by (nonlinear_arith)
        requires ay >= 0, nrm >= 0, ay * ay <= n2, n2 < (nrm + 1) * (nrm + 1);
    assert(az <= nrm) by (nonlinear_arith)
        requires az >= 0, nrm >= 0, az * az <= n2, n2 < (nrm + 1) * (nrm + 1);
    lemma_axis_share(ax, s, nrm, qx);
    lemma_axis_share(ay, s, nrm, qy);
    lemma_axis_share(az, s, nrm, qz);

    let saq = ax * qx + ay * qy + az * qz;
    let sqq = qx * qx + qy * qy + qz * qz;
    let n2p = (ax - qx) * (ax - qx) + (ay - qy) * (ay - qy) + (az - qz) * (az - qz);

    // Lower bound on the projection of the move onto the remaining vector.
    assert(nrm * saq >= s * n2 - 3 * (nrm * nrm)) by (nonlinear_arith)
        requires
            nrm * (ax * qx) >= s * (ax * ax) - nrm * ax,
            nrm * (ay * qy) >= s * (ay * ay) - nrm * ay,
            nrm * (az * qz) >= s * (az * az) - nrm * az,
            ax <= nrm, ay <= nrm, az <= nrm,
            nrm >= 1,
            saq == ax * qx + ay * qy + az * qz,
            n2 == ax * ax + ay * ay + az * az;
    // Upper bound on the squared length of the move, one axis at a time.
    assert((nrm * nrm) * (qx * qx) == (nrm * qx) * (nrm * qx)) by (nonlinear_arith);
    assert((nrm * nrm) * (qy * qy) == (nrm * qy) * (nrm * qy)) by (nonlinear_arith);
    assert((nrm * nrm) * (qz * qz) == (nrm * qz) * (nrm * qz)) by (nonlinear_arith);
    assert((s * s) * (ax * ax) == (s * ax) * (s * ax)) by (nonlinear_arith);
    assert((s * s) * (ay * ay) == (s * ay) * (s * ay)) by (nonlinear_arith);
    assert((s * s) * (az * az) == (s * az) * (s * az)) by (nonlinear_arith);
    assert((nrm * nrm) * sqq
        == (nrm * nrm) * (qx * qx) + (nrm * nrm) * (qy * qy) + (nrm * nrm) * (qz * qz))
        by (nonlinear_arith)
        requires sqq == qx * qx + qy * qy + qz * qz;
    assert((s * s) * n2 == (s * s) * (ax * ax) + (s * s) * (ay * ay) + (s * s) * (az * az))
        by (nonlinear_arith)
        requires n2 == ax * ax + ay * ay + az * az;
    assert((nrm * nrm) * sqq <= (s * s) * n2);
    // Expand the new squared distance.
    assert(n2p == n2 - 2 * saq + sqq) by (nonlinear_arith)
        requires
            n2p == (ax - qx) * (ax - qx) + (ay - qy) * (ay - qy) + (az - qz) * (az - qz),
            n2 == ax * ax + ay * ay + az * az,
            saq == ax * qx + ay * qy + az * qz,
            sqq == qx * qx + qy * qy + qz * qz;
    // Scale by nrm^2 and combine the bounds.
    assert((nrm * nrm) * n2p <= (nrm * nrm) * n2 - 2 * (nrm * (s * n2 - 3 * (nrm * nrm))) + (s * s) * n2)
        by (nonlinear_arith)
        requires
            n2p == n2 - 2 * saq + sqq,
            nrm * saq >= s * n2 - 3 * (nrm * nrm),
            (nrm * nrm) * sqq <= (s * s) * n2,
            nrm >= 1;
    assert((s * s) * n2 <= (s * nrm) * n2) by (nonlinear_arith)
        requires s <= nrm, s >= 0, n2 >= 0;
    assert((nrm * nrm) * n2p <= (nrm * nrm) * n2 - (s * nrm) * n2 + 6 * ((nrm * nrm) * nrm))
        by (nonlinear_arith)
        requires
            (nrm * nrm) * n2p <= (nrm * nrm) * n2 - 2 * (nrm * (s * n2 - 3 * (nrm * nrm))) + (s * s) * n2,
            (s * s) * n2 <= (s * nrm) * n2;
    assert((s * nrm) * n2 >= s * ((nrm * nrm) * nrm)) by (nonlinear_arith)
        requires n2 >= nrm * nrm, s >= 0, nrm >= 0;
    assert((nrm * nrm) * n2p <= (nrm * nrm) * n2 - (s - 6) * ((nrm * nrm) * nrm))
        by (nonlinear_arith)
        requires
            (nrm * nrm) * n2p <= (nrm * nrm) * n2 - (s * nrm) * n2 + 6 * ((nrm * nrm) * nrm),
            (s * nrm) * n2 >= s * ((nrm * nrm) * nrm);
    assert((nrm * nrm) * n2p < (nrm * nrm) * n2) by (nonlinear_arith)
        requires
            (nrm * nrm) * n2p <= (nrm * nrm) * n2 - (s - 6) * ((nrm * nrm) * nrm),
            s >= 7,
            nrm >= 1;
    assert(n2p < n2) by (nonlinear_arith)
        requires (nrm * nrm) * n2p < (nrm * nrm) * n2, nrm >= 1;
}

/// Squared distances are never negative.
pub proof fn lemma_sq_dist_nonneg(a: Vec3, b: Vec3)
    ensures
        sq_dist(a, b) >= 0,
{
    let dx = b.x - a.x;
    let dy = b.y - a.y;
    let dz = b.z - a.z;
    assert(dx * dx >= 0 && dy * dy >= 0 && dz * dz >= 0) by (nonlinear_arith);
}

/// One non-final motion frame keeps the position well-formed and strictly
/// shrinks the squared remaining distance.
pub proof fn lemma_stepped_progress(pos: Vec3, to: Vec3, s: int)
    requires
        pos.wf(),
        to.wf(),
        MIN_STEP <= s <= MAX_STEP,
        sq_dist(pos, to) > s * s,
    ensures
        stepped(pos, to, s).wf(),
        sq_dist(stepped(pos, to, s), to) < sq_dist(pos, to),
{
    let n2 = sq_dist(pos, to);
    lemma_sq_dist_nonneg(pos, to);
    lemma_sqrt_floor_is(n2);
    let nrm = sqrt_floor(n2);
    let dx = to.x - pos.x;
    let dy = to.y - pos.y;
    let dz = to.z - pos.z;
    let ax = if dx >= 0 { dx } else { -dx };
    let ay = if dy >= 0 { dy } else { -dy };
    let az = if dz >= 0 { dz } else { -dz };
    assert(ax * ax == dx * dx) by (nonlinear_arith)
        requires ax == if dx >= 0 { dx } else { -dx };
    assert(ay * ay == dy * dy) by (nonlinear_arith)
        requires ay == if dy >= 0 { dy } else { -dy };
    assert(az * az == dz * dz) by (nonlinear_arith)
        requires az == if dz >= 0 { dz } else { -dz };
    assert(n2 == ax * ax + ay * ay + az * az);
    assert(s >= 7);
    if nrm < s {
        assert((nrm + 1) * (nrm + 1) <= s * s) by (nonlinear_arith)
            requires 0 <= nrm, nrm < s;
        assert(false);
    }
    let qx = (s * ax) / nrm;
    let qy = (s * ay) / nrm;
    let qz = (s * az) / nrm;
    lemma_progress_core(ax, ay, az, s, nrm, qx, qy, qz);
    assert(axis_step(dx, s, nrm) == if dx >= 0 { qx } else { -qx });
    assert(axis_step(dy, s, nrm) == if dy >= 0 { qy } else { -qy });
    assert(axis_step(dz, s, nrm) == if dz >= 0 { qz } else { -qz });
    let np = stepped(pos, to, s);
    assert(pos.x + axis_step(dx, s, nrm) == np.x);
    assert(pos.y + axis_step(dy, s, nrm) == np.y);
    assert(pos.z + axis_step(dz, s, nrm) == np.z);
    let ex = to.x - np.x;
    let ey = to.y - np.y;
    let ez = to.z - np.z;
    assert(ex == if dx >= 0 { dx - qx } else { dx + qx });
    assert(ex * ex == (ax - qx) * (ax - qx)) by (nonlinear_arith)
        requires
            ex == if dx >= 0 { dx - qx } else { dx + qx },
            ax == if dx >= 0 { dx } else { -dx };
    assert(ey * ey == (ay - qy) * (ay - qy)) by (nonlinear_arith)
        requires
            ey == if dy >= 0 { dy - qy } else { dy + qy },
            ay == if dy >= 0 { dy } else { -dy };
    assert(ez * ez == (az - qz) * (az - qz)) by (nonlinear_arith)
        requires
            ez == if dz >= 0 { dz - qz } else { dz + qz },
            az == if dz >= 0 { dz } else { -dz };
    assert(sq_dist(np, to) == ex * ex + ey * ey + ez * ez);
}

/// Reachability of the destination within `fuel` motion frames.
pub open spec fn completes_within(pos: Vec3, to: Vec3, s: int, fuel: nat) -> bool
    decreases fuel,
{
    if sq_dist(pos, to) <= s * s {
        true
    } else if fuel == 0 {
        false
    } else {
        completes_within(stepped(pos, to, s), to, s, (fuel - 1) as nat)
    }
}

proof fn lemma_completes_fuel_mono(pos: Vec3, to: Vec3, s: int, f1: nat, f2: nat)
    requires
        completes_within(pos, to, s, f1),
        f1 <= f2,
    ensures
        completes_within(pos, to, s, f2),
    decreases f1,
{
    if sq_dist(pos, to) <= s * s {
    } else {
        lemma_completes_fuel_mono(stepped(pos, to, s), to, s, (f1 - 1) as nat, (f2 - 1) as nat);
    }
}

/// Motion termination: from any well-formed start and destination, a step
/// of at least `MIN_STEP` per frame reaches the destination within at most
/// squared-initial-distance many frames.
pub proof fn lemma_motion_terminates(pos: Vec3, to: Vec3, s: int)
    requires
        pos.wf(),
        to.wf(),
        MIN_STEP <= s <= MAX_STEP,
    ensures
        completes_within(pos, to, s, sq_dist(pos, to) as nat),
    decreases sq_dist(pos, to),
{
    lemma_sq_dist_nonneg(pos, to);
    if sq_dist(pos, to) <= s * s {
    } else {
        let np = stepped(pos, to, s);
        lemma_stepped_progress(pos, to, s);
        lemma_sq_dist_nonneg(np, to);
        lemma_motion_terminates(np, to, s);
        lemma_completes_fuel_mono(np, to, s, sq_dist(np, to) as nat, (sq_dist(pos, to) - 1) as nat);
    }
}

/// One axis of the motion step: `d` is the remaining distance along the
/// axis, `s` the step length, `nrm` the rounded-down remaining distance.
fn axis_advance(d: i64, s: i64, nrm: i64) -> (m: i64)
    requires
        -0x4000_0000 <= d <= 0x4000_0000,
        1 <= s <= nrm,
        nrm <= 0x8000_0000,
    ensures
        m == axis_step(d as int, s as int, nrm as int),
        d >= 0 ==> 0 <= m <= d,
        d < 0 ==> d <= m <= 0,
{
    let a: u64 = if d >= 0 { d as u64 } else { (-d) as u64 };
    proof {
        assert((s as int) * (a as int) <= 0x2000_0000_0000_0000) by (nonlinear_arith)
            requires 1 <= (s as int) <= 0x8000_0000, 0 <= (a as int) <= 0x4000_0000;
    }
    let prod: u64 = (s as u64) * a;
    let q: u64 = prod / (nrm as u64);
    proof {
        lemma_div_bounds((s as int) * (a as int), nrm as int);
        assert((s as int) * (a as int) <= (nrm as int) * (a as int)) by (nonlinear_arith)
            requires s <= nrm, a >= 0;
        if (q as int) > (a as int) {
            assert((nrm as int) * (q as int) >= (nrm as int) * ((a as int) + 1))
                by (nonlinear_arith)
                requires nrm >= 1, (q as int) >= (a as int) + 1;
            assert((nrm as int) * ((a as int) + 1) == (nrm as int) * (a as int) + (nrm as int))
                by (nonlinear_arith);
            assert(false);
        }
    }
    if d >= 0 {
        q as i64
    } else {
        -(q as i64)
    }
}

/// Advance `pos` one frame towards `to` with step length `step`: snap onto
/// the destination once it is within the step, otherwise move the step
/// along the straight line.  Returns the new position and whether the
/// destination was reached.
pub fn step_towards(pos: &Vec3, to: &Vec3, step: i64) -> (r: (Vec3, bool))
    requires
        pos.wf(),
        to.wf(),
        MIN_STEP <= step <= MAX_STEP,
    ensures
        r.1 <==> sq_dist(*pos, *to) <= step * step,
        r.1 ==> r.0 == *to,
        !r.1 ==> r.0 == stepped(*pos, *to, step as int),
        !r.1 ==> sq_dist(r.0, *to) < sq_dist(*pos, *to),
        r.0.wf(),
{
    let dx = to.x - pos.x;
    let dy = to.y - pos.y;
    let dz = to.z - pos.z;
    proof {
        assert(dx * dx <= 0x1000_0000_0000_0000 && dy * dy <= 0x1000_0000_0000_0000
            && dz * dz <= 0x1000_0000_0000_0000) by (nonlinear_arith)
            requires
                -0x4000_0000 <= dx <= 0x4000_0000,
                -0x4000_0000 <= dy <= 0x4000_0000,
                -0x4000_0000 <= dz <= 0x4000_0000;
        assert(dx * dx >= 0 && dy * dy >= 0 && dz * dz >= 0) by (nonlinear_arith);
        assert(step * step <= 0x1000_0000_0000_0000) by (nonlinear_arith)
            requires 0 < step <= 0x4000_0000;
    }
    let n2: i64 = dx * dx + dy * dy + dz * dz;
    if n2 <= step * step {
        return (*to, true);
    }
    let nrm: i64 = isqrt64(n2 as u64) as i64;
    proof {
        if nrm < step {
            assert(((nrm as int) + 1) * ((nrm as int) + 1) <= step * step) by (nonlinear_arith)
                requires 0 <= (nrm as int), (nrm as int) < (step as int);
            assert(false);
        }
    }
    let mx = axis_advance(dx, step, nrm);
    let my = axis_advance(dy, step, nrm);
    let mz = axis_advance(dz, step, nrm);
    let np = Vec3 { x: pos.x + mx, y: pos.y + my, z: pos.z + mz };
    proof {
        lemma_stepped_progress(*pos, *to, step as int);
        assert(np == stepped(*pos, *to, step as int));
    }
    (np, false)
}

} // verus!
