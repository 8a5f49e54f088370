use vstd::prelude::*;

verus! {

/// Largest number of samples kept for the trend fit.
pub const HISTORY_CAPACITY: usize = 64;

/// Largest change of the clock drift, in seconds, from that of the first
/// sample that the fit takes in (about 97 days); a larger jump is flagged.
pub const MAX_DRIFT: i64 = 0x80_0000;

/// Largest distance, in seconds, of a sample from the first one (about 136
/// years); a larger one is flagged.
pub const MAX_ELAPSED: i64 = 0x1_0000_0000;

/// Outcome of the clock drift check.
#[derive(Clone, Copy, Debug, PartialEq, Eq, Structural)]
pub enum DriftVerdict {
    /// The history follows its linear trend.
    Consistent,
    /// The mean absolute residual of the trend exceeds the allowed deviation,
    /// or the history holds a jump beyond the range of the fit.
    Suspicious,
    /// Too few samples, or no trend to fit (all drifts equal).
    Inconclusive,
}

pub open spec fn sample_fits(drift: int, elapsed: int) -> bool {
    -MAX_DRIFT <= drift <= MAX_DRIFT && -MAX_ELAPSED <= elapsed <= MAX_ELAPSED
}

/// Every sample of `h` lies in the range of the fit.
pub open spec fn all_fit(h: Seq<(i128, i128)>) -> bool {
    forall|i: int| 0 <= i < h.len() ==> sample_fits((#[trigger] h[i]).0 as int, h[i].1 as int)
}

/// Sums over the first `k` samples `(u, v)`: `(Σu, Σv, Σu², Σuv)`.
pub open spec fn moments(h: Seq<(i128, i128)>, k: int) -> (int, int, int, int)
    decreases k,
{
    if k <= 0 {
        (0, 0, 0, 0)
    } else {
        let m = moments(h, k - 1);
        let u = h[k - 1].0 as int;
        let v = h[k - 1].1 as int;
        (m.0 + u, m.1 + v, m.2 + u * u, m.3 + u * v)
    }
}

/// Denominator of the least-squares slope: `nΣu² - (Σu)²`.
pub open spec fn slope_den(h: Seq<(i128, i128)>) -> int {
    let n = h.len() as int;
    let m = moments(h, n);
    n * m.2 - m.0 * m.0
}

/// Numerator of the least-squares slope: `nΣuv - ΣuΣv`.
pub open spec fn slope_num(h: Seq<(i128, i128)>) -> int {
    let n = h.len() as int;
    let m = moments(h, n);
    n * m.3 - m.0 * m.1
}

/// Residual of sample `i` against the least-squares line of `v` on `u`,
/// times `n * slope_den(h)`.
pub open spec fn scaled_residual(h: Seq<(i128, i128)>, i: int) -> int {
    let n = h.len() as int;
    let m = moments(h, n);
    let d = slope_den(h);
    let s = slope_num(h);
    n * d * h[i].1 - d * m.1 + s * m.0 - n * s * h[i].0
}

pub open spec fn abs(x: int) -> int {
    if x < 0 {
        -x
    } else {
        x
    }
}

/// `Σ |scaled_residual|` over the first `k` samples.
pub open spec fn total_scaled_residual(h: Seq<(i128, i128)>, k: int) -> int
    decreases k,
{
    if k <= 0 {
        0
    } else {
        total_scaled_residual(h, k - 1) + abs(scaled_residual(h, k - 1))
    }
}

/// The mean absolute residual, in seconds, is
/// `total_scaled_residual / (n * n * slope_den)`; it is compared with
/// `max_dev` milliseconds without division.
pub open spec fn verdict_of(h: Seq<(i128, i128)>, max_dev: int) -> DriftVerdict {
    let n = h.len() as int;
    let d = slope_den(h);
    if n < 2 {
        DriftVerdict::Inconclusive
    } else if !all_fit(h) {
        DriftVerdict::Suspicious
    } else if d <= 0 {
        DriftVerdict::Inconclusive
    } else if 1000 * total_scaled_residual(h, n) > max_dev * n * n * d {
        DriftVerdict::Suspicious
    } else {
        DriftVerdict::Consistent
    }
}

/// The window of at most `capacity` samples after `s` received its newest
/// sample: the oldest leaves.
pub open spec fn retained(s: Seq<(i128, i128)>, capacity: int) -> Seq<(i128, i128)> {
    if s.len() > capacity {
        s.subrange(1, s.len() as int)
    } else {
        s
    }
}

/// The session's origin, `(local, gps)` of its first sample, once a sample
/// at `(local, gps)` has been seen.
pub open spec fn origin_after(origin: Option<(i64, i64)>, local: i64, gps: i64) -> (i64, i64) {
    match origin {
        Some(o) => o,
        None => (local, gps),
    }
}

proof fn lemma_mul_abs(a: int, b: int, x: int, y: int)
    requires
        0 <= x,
        0 <= y,
        -x <= a <= x,
        -y <= b <= y,
    ensures
        -(x * y) <= a * b <= x * y,
{
    assert(-(x * y) <= a * b <= x * y) by (nonlinear_arith)
        requires
            0 <= x,
            0 <= y,
            -x <= a <= x,
            -y <= b <= y,
    ;
}

/// Detects a forged satellite time: the clock drift of a genuine receiver
/// (local time minus satellite time) follows a near-linear trend.
/// Samples are `(drift minus the first sample's drift, seconds since the
/// first sample)`.
pub struct TimeDriftMethod {
    pub past_measurements: Vec<(i128, i128)>,
    /// Largest mean absolute residual, in milliseconds, that is not flagged.
    pub max_clock_drift_dev: u32,
    /// Samples kept for the fit, between 2 and `HISTORY_CAPACITY`.
    pub history_capacity: usize,
    /// Local and satellite time of the first sample, in seconds.
    pub origin: Option<(i64, i64)>,
}

impl TimeDriftMethod {
    pub open spec fn wf(&self) -> bool {
        &&& 2 <= self.history_capacity <= HISTORY_CAPACITY
        &&& self.past_measurements.len() <= self.history_capacity
    }

    /// The sample that local time `local` and satellite time `gps` make.
    pub open spec fn sample_of(&self, local: i64, gps: i64) -> (int, int) {
        let o = origin_after(self.origin, local, gps);
        ((local - gps) - (o.0 - o.1), local - o.0)
    }

    /// The history after a sample is taken in: every sample is kept, the
    /// oldest leaving a full window.
    pub open spec fn history_after(&self, local: i64, gps: i64) -> Seq<(i128, i128)> {
        let (drift, elapsed) = self.sample_of(local, gps);
        retained(
            self.past_measurements@.push((drift as i128, elapsed as i128)),
            self.history_capacity as int,
        )
    }

    /// The verdict on a new sample.
    pub open spec fn verdict_after(&self, local: i64, gps: i64) -> DriftVerdict {
        verdict_of(self.history_after(local, gps), self.max_clock_drift_dev as int)
    }

    /// A method keeping the largest window, `HISTORY_CAPACITY` samples.
    pub fn new(max_clock_drift_dev: u32) -> (r: Self)
        ensures
            r.wf(),
            r.past_measurements@.len() == 0,
            r.max_clock_drift_dev == max_clock_drift_dev,
            r.history_capacity == HISTORY_CAPACITY,
            r.origin is None,
    {
        Self::with_capacity(max_clock_drift_dev, HISTORY_CAPACITY)
    }

    /// A method keeping the last `history_capacity` samples.
    pub fn with_capacity(max_clock_drift_dev: u32, history_capacity: usize) -> (r: Self)
        requires
            2 <= history_capacity <= HISTORY_CAPACITY,
        ensures
            r.wf(),
            r.past_measurements@.len() == 0,
            r.max_clock_drift_dev == max_clock_drift_dev,
            r.history_capacity == history_capacity,
            r.origin is None,
    {
        Self { past_measurements: Vec::new(), max_clock_drift_dev, history_capacity, origin: None }
    }

    /// Takes in one sample (times in seconds) and judges the whole history:
    /// `Suspicious`, `Consistent`, or `Inconclusive` where no trend can be
    /// fitted. The first sample is never suspicious.
    pub fn detect_spoofing_attack(&mut self, local_system_time: i64, gps_time: i64) -> (r: DriftVerdict)
        requires
            old(self).wf(),
        ensures
            final(self).wf(),
            r == old(self).verdict_after(local_system_time, gps_time),
            final(self).past_measurements@ == old(self).history_after(
                local_system_time,
                gps_time,
            ),
            final(self).max_clock_drift_dev == old(self).max_clock_drift_dev,
            final(self).history_capacity == old(self).history_capacity,
            final(self).origin == Some(
                origin_after(old(self).origin, local_system_time, gps_time),
            ),
    {
        let origin: (i64, i64) = match self.origin {
            Some(o) => o,
            None => (local_system_time, gps_time),
        };
        let drift: i128 = (local_system_time as i128 - gps_time as i128) - (origin.0 as i128
            - origin.1 as i128);
        let elapsed: i128 = local_system_time as i128 - origin.0 as i128;
        self.origin = Some(origin);
        self.past_measurements.push((drift, elapsed));
        if self.past_measurements.len() > self.history_capacity {
            self.past_measurements.remove(0);
        }
        proof {
            assert(self.past_measurements@ == old(self).history_after(local_system_time, gps_time));
        }
        fit_verdict(&self.past_measurements, self.max_clock_drift_dev)
    }
}

/// Fits the least-squares line of elapsed time on drift over `h` and judges
/// the mean absolute residual against `max_dev` milliseconds.
pub fn fit_verdict(h: &Vec<(i128, i128)>, max_dev: u32) -> (r: DriftVerdict)
    requires
        h.len() <= HISTORY_CAPACITY,
    ensures
        r == verdict_of(h@, max_dev as int),
{
    let n = h.len();
    if n < 2 {
        return DriftVerdict::Inconclusive;
    }
    let mut j: usize = 0;
    while j < n
        invariant
            n == h.len(),
            n >= 2,
            j <= n,
            forall|k: int| 0 <= k < j ==> sample_fits((#[trigger] h@[k]).0 as int, h@[k].1 as int),
        decreases n - j,
    {
        let (u, v) = h[j];
        if !(-(MAX_DRIFT as i128) <= u && u <= MAX_DRIFT as i128 && -(MAX_ELAPSED as i128) <= v
            && v <= MAX_ELAPSED as i128) {
            assert(!sample_fits(h@[j as int].0 as int, h@[j as int].1 as int));
            assert(!all_fit(h@));
            return DriftVerdict::Suspicious;
        }
        j = j + 1;
    }
    let mut sx: i128 = 0;
    let mut sy: i128 = 0;
    let mut sxx: i128 = 0;
    let mut sxy: i128 = 0;
    let mut i: usize = 0;
    while i < n
        invariant
            n == h.len(),
            n <= HISTORY_CAPACITY,
            i <= n,
            forall|k: int| 0 <= k < h.len() ==> sample_fits((#[trigger] h@[k]).0 as int, h@[k].1 as int),
            (sx as int, sy as int, sxx as int, sxy as int) == moments(h@, i as int),
            -(i * 0x80_0000) <= sx <= i * 0x80_0000,
            -(i * 0x1_0000_0000) <= sy <= i * 0x1_0000_0000,
            0 <= sxx <= i * 0x4000_0000_0000,
            -(i * 0x80_0000_0000_0000) <= sxy <= i * 0x80_0000_0000_0000,
        decreases n - i,
    {
        let (u, v) = h[i];
        proof {
            assert(sample_fits(h@[i as int].0 as int, h@[i as int].1 as int));
            lemma_mul_abs(u as int, u as int, 0x80_0000, 0x80_0000);
            lemma_mul_abs(u as int, v as int, 0x80_0000, 0x1_0000_0000);
            assert(u * u >= 0) by (nonlinear_arith);
        }
        sx = sx + u as i128;
        sy = sy + v as i128;
        sxx = sxx + u as i128 * u as i128;
        sxy = sxy + u as i128 * v as i128;
        i = i + 1;
    }
    let nn: i128 = n as i128;
    proof {
        lemma_mul_abs(nn as int, sxx as int, 64, 0x10_0000_0000_0000);
        lemma_mul_abs(sx as int, sx as int, 0x2000_0000, 0x2000_0000);
        lemma_mul_abs(nn as int, sxy as int, 64, 0x2000_0000_0000_0000);
        lemma_mul_abs(sx as int, sy as int, 0x2000_0000, 0x40_0000_0000);
    }
    let d: i128 = nn * sxx - sx * sx;
    if d <= 0 {
        return DriftVerdict::Inconclusive;
    }
    let s: i128 = nn * sxy - sx * sy;
    proof {
        lemma_mul_abs(nn as int, d as int, 64, 0x800_0000_0000_0000);
        lemma_mul_abs(nn as int, s as int, 64, 0x10_0000_0000_0000_0000);
        lemma_mul_abs(d as int, sy as int, 0x800_0000_0000_0000, 0x40_0000_0000);
        lemma_mul_abs(s as int, sx as int, 0x10_0000_0000_0000_0000, 0x2000_0000);
    }
    let nd: i128 = nn * d;
    let ns: i128 = nn * s;
    let c: i128 = s * sx - d * sy;
    let mut total: i128 = 0;
    let mut k: usize = 0;
    while k < n
        invariant
            n == h.len(),
            2 <= n <= HISTORY_CAPACITY,
            k <= n,
            forall|j: int| 0 <= j < h.len() ==> sample_fits((#[trigger] h@[j]).0 as int, h@[j].1 as int),
            (sx as int, sy as int, sxx as int, sxy as int) == moments(h@, n as int),
            d == slope_den(h@),
            s == slope_num(h@),
            nd == n * d,
            ns == n * s,
            c == s * sx - d * sy,
            -0x2_0000_0000_0000_0000 <= nd <= 0x2_0000_0000_0000_0000,
            -0x400_0000_0000_0000_0000 <= ns <= 0x400_0000_0000_0000_0000,
            -0x4_0000_0000_0000_0000_0000_0000 <= c <= 0x4_0000_0000_0000_0000_0000_0000,
            total == total_scaled_residual(h@, k as int),
            0 <= total <= k * 0x10_0000_0000_0000_0000_0000_0000,
        decreases n - k,
    {
        let (u, v) = h[k];
        proof {
            assert(sample_fits(h@[k as int].0 as int, h@[k as int].1 as int));
            lemma_mul_abs(nd as int, v as int, 0x2_0000_0000_0000_0000, 0x1_0000_0000);
            lemma_mul_abs(ns as int, u as int, 0x400_0000_0000_0000_0000, 0x80_0000);
        }
        let e: i128 = nd * v as i128 - ns * u as i128 + c;
        let a: i128 = if e < 0 {
            -e
        } else {
            e
        };
        assert(e == scaled_residual(h@, k as int));
        total = total + a;
        k = k + 1;
    }
    proof {
        let m = max_dev as int;
        lemma_mul_abs(m, n as int, 0x1_0000_0000, 64);
        lemma_mul_abs(m * n, n as int, 0x40_0000_0000, 64);
        lemma_mul_abs(m * n * n, d as int, 0x1000_0000_0000, 0x800_0000_0000_0000);
    }
    let limit: i128 = max_dev as i128 * nn * nn * d;
    if total * 1000 > limit {
        DriftVerdict::Suspicious
    } else {
        DriftVerdict::Consistent
    }
}

proof fn lemma_moments_on_line(h: Seq<(i128, i128)>, p: int, q: int, c: int, k: int)
    requires
        0 <= k <= h.len(),
        forall|i: int| 0 <= i < h.len() ==> q * (#[trigger] h[i]).1 == p * h[i].0 + c,
    ensures
        q * moments(h, k).1 == p * moments(h, k).0 + k * c,
        q * moments(h, k).3 == p * moments(h, k).2 + c * moments(h, k).0,
    decreases k,
{
    if k > 0 {
        lemma_moments_on_line(h, p, q, c, k - 1);
        let m = moments(h, k - 1);
        let u = h[k - 1].0 as int;
        let v = h[k - 1].1 as int;
        assert(q * v == p * u + c);
        let mk = moments(h, k);
        assert(mk.0 == m.0 + u && mk.1 == m.1 + v && mk.2 == m.2 + u * u && mk.3 == m.3 + u * v);
        let uv = u * v;
        let uu = u * u;
        assert(q * (m.3 + uv) == q * m.3 + q * uv) by (nonlinear_arith);
        assert(q * uv == u * (q * v)) by (nonlinear_arith)
            requires
                uv == u * v,
        ;
        assert(u * (p * u + c) == p * uu + c * u) by (nonlinear_arith)
            requires
                uu == u * u,
        ;
        assert(p * (m.2 + uu) + c * (m.0 + u) == p * m.2 + p * uu + c * m.0 + c * u)
            by (nonlinear_arith);
        assert(q * (m.3 + u * v) == p * (m.2 + u * u) + c * (m.0 + u));
        assert(q * (m.1 + v) == p * (m.0 + u) + k * c) by (nonlinear_arith)
            requires
                q * v == p * u + c,
                q * m.1 == p * m.0 + (k - 1) * c,
        ;
        assert(q * mk.1 == p * mk.0 + k * c);
        assert(q * mk.3 == p * mk.2 + c * mk.0);
    } else {
        let mk = moments(h, k);
        assert(mk == (0int, 0int, 0int, 0int));
        assert(q * 0 == 0 && p * 0 == 0 && c * 0 == 0 && k * c == 0) by (nonlinear_arith)
            requires
                k == 0,
        ;
    }
}

proof fn lemma_total_zero(h: Seq<(i128, i128)>, k: int)
    requires
        0 <= k <= h.len(),
        forall|i: int| 0 <= i < h.len() ==> #[trigger] scaled_residual(h, i) == 0,
    ensures
        total_scaled_residual(h, k) == 0,
    decreases k,
{
    if k > 0 {
        lemma_total_zero(h, k - 1);
        assert(scaled_residual(h, k - 1) == 0);
    }
}

/// A history within the range of the fit whose samples all lie on one line,
/// `q * elapsed == p * drift + c` (drift exactly linear in time), is never
/// flagged, whatever the allowed deviation.
pub proof fn lemma_linear_history_not_flagged(
    h: Seq<(i128, i128)>,
    p: int,
    q: int,
    c: int,
    max_dev: int,
)
    requires
        q != 0,
        max_dev >= 0,
        all_fit(h),
        forall|i: int| 0 <= i < h.len() ==> q * (#[trigger] h[i]).1 == p * h[i].0 + c,
    ensures
        verdict_of(h, max_dev) != DriftVerdict::Suspicious,
{
    let n = h.len() as int;
    lemma_moments_on_line(h, p, q, c, n);
    let m = moments(h, n);
    let d = slope_den(h);
    let s = slope_num(h);
    let qm1 = q * m.1;
    let qm3 = q * m.3;
    assert(q * s == n * qm3 - m.0 * qm1) by (nonlinear_arith)
        requires
            s == n * m.3 - m.0 * m.1,
            qm1 == q * m.1,
            qm3 == q * m.3,
    ;
    assert(n * (p * m.2 + c * m.0) - m.0 * (p * m.0 + n * c) == p * d) by (nonlinear_arith)
        requires
            d == n * m.2 - m.0 * m.0,
    ;
    let qs = q * s;
    assert(qs == p * d);
    assert forall|i: int| 0 <= i < n implies #[trigger] scaled_residual(h, i) == 0 by {
        let u = h[i].0 as int;
        let v = h[i].1 as int;
        let e = scaled_residual(h, i);
        let qv = q * v;
        assert(qv == p * u + c);
        let t1 = n * d * v;
        let t2 = d * m.1;
        let t3 = s * m.0;
        let t4 = n * s * u;
        assert(q * e == q * t1 - q * t2 + q * t3 - q * t4) by (nonlinear_arith)
            requires
                e == t1 - t2 + t3 - t4,
        ;
        assert(q * t1 == n * d * qv) by (nonlinear_arith)
            requires
                t1 == n * d * v,
                qv == q * v,
        ;
        assert(q * t2 == d * qm1) by (nonlinear_arith)
            requires
                t2 == d * m.1,
                qm1 == q * m.1,
        ;
        assert(q * t3 == qs * m.0) by (nonlinear_arith)
            requires
                t3 == s * m.0,
                qs == q * s,
        ;
        assert(q * t4 == n * qs * u) by (nonlinear_arith)
            requires
                t4 == n * s * u,
                qs == q * s,
        ;
        let nd = n * d;
        let pd = p * d;
        assert(nd * (p * u + c) == nd * p * u + nd * c) by (nonlinear_arith);
        assert(d * (p * m.0 + n * c) == pd * m.0 + nd * c) by (nonlinear_arith)
            requires
                nd == n * d,
                pd == p * d,
        ;
        assert(n * pd * u == nd * p * u) by (nonlinear_arith)
            requires
                nd == n * d,
                pd == p * d,
        ;
        assert(n * d * (p * u + c) - d * (p * m.0 + n * c) + (p * d) * m.0 - n * (p * d) * u == 0);
        assert(q * e == 0);
        assert(e == 0) by (nonlinear_arith)
            requires
                q * e == 0,
                q != 0,
        ;
    }
    lemma_total_zero(h, n);
    if n >= 2 && d > 0 {
        assert(max_dev * n * n * d >= 0) by (nonlinear_arith)
            requires
                max_dev >= 0,
                n >= 2,
                d > 0,
        ;
    }
}

/// A larger allowed deviation never adds a flag.
pub proof fn lemma_larger_deviation_flags_less(h: Seq<(i128, i128)>, d1: int, d2: int)
    requires
        0 <= d1 <= d2,
        verdict_of(h, d2) == DriftVerdict::Suspicious,
    ensures
        verdict_of(h, d1) == DriftVerdict::Suspicious,
{
    let n = h.len() as int;
    let d = slope_den(h);
    if !all_fit(h) {
        return;
    }
    assert(d1 * n * n * d <= d2 * n * n * d) by (nonlinear_arith)
        requires
            0 <= d1 <= d2,
            n >= 2,
            d > 0,
    ;
}

impl TimeDriftMethod {
    /// Two methods alike but for origins `c` seconds apart, fed the same
    /// sample with both times `c` seconds later, give the same verdict, keep
    /// the same history and stay `c` seconds apart.
    pub proof fn lemma_time_shift_invariant(
        m1: &TimeDriftMethod,
        m2: &TimeDriftMethod,
        local1: i64,
        gps1: i64,
        local2: i64,
        gps2: i64,
        c: int,
    )
        requires
            m2.past_measurements@ == m1.past_measurements@,
            m2.max_clock_drift_dev == m1.max_clock_drift_dev,
            m2.history_capacity == m1.history_capacity,
            m1.origin is None <==> m2.origin is None,
            m1.origin matches Some(o1) ==> m2.origin matches Some(o2) && o2.0 == o1.0 + c
                && o2.1 == o1.1 + c,
            local2 == local1 + c,
            gps2 == gps1 + c,
        ensures
            m2.verdict_after(local2, gps2) == m1.verdict_after(local1, gps1),
            m2.history_after(local2, gps2) == m1.history_after(local1, gps1),
            origin_after(m2.origin, local2, gps2).0 == origin_after(m1.origin, local1, gps1).0 + c,
            origin_after(m2.origin, local2, gps2).1 == origin_after(m1.origin, local1, gps1).1 + c,
    {
        assert(m1.sample_of(local1, gps1) == m2.sample_of(local2, gps2));
    }
}

} // verus!
