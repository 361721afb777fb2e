//! Two-dimensional integer vectors and the length arithmetic that motion needs.
use vstd::prelude::*;

verus! {

/// Largest magnitude of a coordinate, a speed or a change of speed that the
/// library accepts; squares and products of such values fit in `i128`.
pub const LIMIT: i64 = 1_000_000_000;

/// A vector of two integer components.
#[derive(Clone, Copy, Debug, PartialEq, Eq, Structural)]
pub struct Vec2 {
    pub x: i64,
    pub y: i64,
}

/// Squared Euclidean length.
pub open spec fn len_sq(v: Vec2) -> int {
    v.x * v.x + v.y * v.y
}

/// Both components lie in `[-m, m]`.
pub open spec fn within(v: Vec2, m: int) -> bool {
    -m <= v.x <= m && -m <= v.y <= m
}

pub open spec fn is_zero(v: Vec2) -> bool {
    v.x == 0 && v.y == 0
}

pub open spec fn abs(a: int) -> int {
    if a < 0 { -a } else { a }
}

/// Division of `a` by `b > 0` rounded toward zero.
pub open spec fn div_toward_zero(a: int, b: int) -> int {
    if a < 0 { -((-a) / b) } else { a / b }
}

/// Whether `s` is the smallest `s >= 0` with `s * s >= n`.
pub open spec fn is_ceil_sqrt(n: int, s: int) -> bool {
    &&& 0 <= s
    &&& s * s >= n
    &&& (s == 0 || (s - 1) * (s - 1) < n)
}

/// The smallest `s` with `s * s >= n`.
pub open spec fn ceil_sqrt_of(n: int) -> int {
    choose|s: int| is_ceil_sqrt(n, s)
}

/// Every natural number has a rounded-up square root.
pub proof fn lemma_ceil_sqrt_exists(n: int)
    requires
        0 <= n,
    ensures
        is_ceil_sqrt(n, ceil_sqrt_of(n)),
    decreases n,
{
    if n == 0 {
        assert(is_ceil_sqrt(0, 0));
    } else {
        lemma_ceil_sqrt_exists(n - 1);
        let s = ceil_sqrt_of(n - 1);
        if s * s >= n {
            assert(is_ceil_sqrt(n, s));
        } else {
            assert((s + 1) * (s + 1) >= n) by (nonlinear_arith)
                requires s * s >= n - 1, 0 <= s;
            assert(is_ceil_sqrt(n, s + 1));
        }
    }
}

/// The `s` of `is_ceil_sqrt` is unique.
pub proof fn lemma_ceil_sqrt_unique(n: int, s: int)
    requires
        0 <= n <= u64::MAX,
        is_ceil_sqrt(n, s),
    ensures
        ceil_sqrt_of(n) == s,
{
    lemma_ceil_sqrt_exists(n);
    let t = ceil_sqrt_of(n);
    if t < s {
        assert((s - 1) * (s - 1) >= t * t) by (nonlinear_arith)
            requires 0 <= t <= s - 1;
    } else if s < t {
        assert((t - 1) * (t - 1) >= s * s) by (nonlinear_arith)
            requires 0 <= s <= t - 1;
    }
}

/// Smallest `s` with `s * s >= n`.
pub fn ceil_sqrt(n: u64) -> (s: u64)
    ensures
        is_ceil_sqrt(n as int, s as int),
{
    if n == 0 {
        return 0;
    }
    let mut lo: u64 = 0;
    let mut hi: u64 = 4_294_967_296;
    assert(hi * hi > u64::MAX) by (nonlinear_arith)
        requires hi == 4_294_967_296u64;
    while lo + 1 < hi
        invariant
            0 <= lo < hi <= 4_294_967_296,
            (lo as int) * (lo as int) < n,
            (hi as int) * (hi as int) >= n,
        decreases hi - lo,
    {
        let mid: u64 = lo + (hi - lo) / 2;
        assert((mid as int) * (mid as int) <= 4_294_967_296 * 4_294_967_296) by (nonlinear_arith)
            requires mid <= 4_294_967_296u64;
        let sq: u128 = (mid as u128) * (mid as u128);
        if sq >= n as u128 {
            hi = mid;
        } else {
            lo = mid;
        }
    }
    hi
}

/// `w` scaled to length `len`, each component rounded toward zero, where the
/// length of `w` is rounded up; the zero vector stays zero.
pub open spec fn scaled(w: Vec2, len: int) -> Vec2 {
    if is_zero(w) {
        w
    } else {
        let s = ceil_sqrt_of(len_sq(w));
        Vec2 { x: div_toward_zero(w.x * len, s) as i64, y: div_toward_zero(w.y * len, s) as i64 }
    }
}

/// `|a| * len / s` rounded down is at most `|a|` when `len < s`, and its square
/// times `s * s` is at most `a * a * len * len`.
proof fn lemma_quotient(a: int, len: int, s: int)
    requires
        0 <= len,
        0 < s,
    ensures
        ({
            let q = (abs(a) * len) / s;
            &&& 0 <= q
            &&& q * q * (s * s) <= a * a * (len * len)
            &&& len <= s ==> q <= abs(a)
            &&& q <= abs(a) * len
            &&& div_toward_zero(a * len, s) == if a < 0 { -q } else { q }
        }),
{
    let b = abs(a);
    let q = (b * len) / s;
    assert(b * b == a * a) by (nonlinear_arith)
        requires b == abs(a);
    assert(0 <= b * len) by (nonlinear_arith)
        requires 0 <= b, 0 <= len;
    assert(0 <= q && q * s <= b * len) by (nonlinear_arith)
        requires 0 <= b * len, 0 < s, q == (b * len) / s;
    assert(q * q * (s * s) <= b * b * (len * len)) by (nonlinear_arith)
        requires 0 <= q, 0 <= q * s <= b * len, 0 <= b, 0 <= len, 0 < s;
    if len <= s {
        assert(q <= b) by (nonlinear_arith)
            requires 0 <= q, q * s <= b * len, 0 <= b, len <= s, 0 < s;
    }
    assert(q <= b * len) by (nonlinear_arith)
        requires 0 <= q, q * s <= b * len, 1 <= s;
    if a < 0 {
        assert(a * len <= 0 && -(a * len) == b * len) by (nonlinear_arith)
            requires a < 0, 0 <= len, b == -a;
    } else {
        assert(a * len >= 0 && a * len == b * len) by (nonlinear_arith)
            requires a >= 0, 0 <= len, b == a;
    }
}

/// Scaling `w` to length `len` gives a vector no longer than `len`; when
/// `len` is below the length of `w`, each component keeps its sign and
/// shrinks in magnitude.
pub proof fn lemma_scaled(w: Vec2, len: int)
    requires
        0 <= len <= LIMIT,
        within(w, 2 * LIMIT),
    ensures
        len_sq(scaled(w, len)) <= len * len,
        len * len < len_sq(w) ==> {
            let r = scaled(w, len);
            &&& (0 <= r.x <= w.x || w.x <= r.x <= 0)
            &&& (0 <= r.y <= w.y || w.y <= r.y <= 0)
        },
        within(scaled(w, len), 2 * LIMIT),
{
    if !is_zero(w) {
        let n = len_sq(w);
        assert(0 < n <= u64::MAX) by (nonlinear_arith)
            requires
                n == w.x * w.x + w.y * w.y,
                w.x != 0 || w.y != 0,
                -2 * LIMIT <= w.x <= 2 * LIMIT,
                -2 * LIMIT <= w.y <= 2 * LIMIT;
        lemma_ceil_sqrt_exists(n);
        let s = ceil_sqrt_of(n);
        assert(0 < s);
        lemma_quotient(w.x as int, len, s);
        lemma_quotient(w.y as int, len, s);
        let qx = (abs(w.x as int) * len) / s;
        let qy = (abs(w.y as int) * len) / s;
        assert((qx * qx + qy * qy) * (s * s) <= n * (len * len)) by (nonlinear_arith)
            requires
                qx * qx * (s * s) <= w.x * w.x * (len * len),
                qy * qy * (s * s) <= w.y * w.y * (len * len),
                n == w.x * w.x + w.y * w.y;
        assert(n * (len * len) <= (s * s) * (len * len)) by (nonlinear_arith)
            requires n <= s * s, 0 <= len;
        assert(qx * qx + qy * qy <= len * len) by (nonlinear_arith)
            requires (qx * qx + qy * qy) * (s * s) <= (s * s) * (len * len), 0 < s;
        if len * len < n {
            assert(len < s) by (nonlinear_arith)
                requires len * len < n, n <= s * s, 0 <= len, 0 < s;
        }
        assert(qx <= 2 * LIMIT) by (nonlinear_arith)
            requires qx * qx <= len * len, 0 <= len <= LIMIT, 0 <= qx;
        assert(qy <= 2 * LIMIT) by (nonlinear_arith)
            requires qy * qy <= len * len, 0 <= len <= LIMIT, 0 <= qy;
        assert(qx * qx + qy * qy >= 0) by (nonlinear_arith);
        let r = scaled(w, len);
        assert(r.x == (if w.x < 0 { -qx } else { qx }));
        assert(r.y == (if w.y < 0 { -qy } else { qy }));
        assert(r.x * r.x == qx * qx && r.y * r.y == qy * qy) by (nonlinear_arith)
            requires
                r.x == qx || r.x == -qx,
                r.y == qy || r.y == -qy;
    } else {
        assert(len * len >= 0) by (nonlinear_arith);
    }
}

/// A vector no longer than `m` has each component in `[-m, m]`.
pub proof fn lemma_bounded_by_length(v: Vec2, m: int)
    requires
        0 <= m,
        len_sq(v) <= m * m,
    ensures
        within(v, m),
{
    assert(-m <= v.x <= m) by (nonlinear_arith)
        requires v.x * v.x + v.y * v.y <= m * m, 0 <= m;
    assert(-m <= v.y <= m) by (nonlinear_arith)
        requires v.x * v.x + v.y * v.y <= m * m, 0 <= m;
}

/// `a * a`, widened.
pub fn square(a: i64) -> (r: i128)
    requires
        -2 * LIMIT <= a <= 2 * LIMIT,
    ensures
        r == a * a,
        0 <= r <= 4 * LIMIT * LIMIT,
{
    proof {
        assert(0 <= a * a <= 4 * LIMIT * LIMIT) by (nonlinear_arith)
            requires -2 * LIMIT <= a <= 2 * LIMIT;
    }
    (a as i128) * (a as i128)
}

/// Squared length of `v`.
pub fn length_squared(v: Vec2) -> (r: i128)
    requires
        within(v, 2 * LIMIT),
    ensures
        r == len_sq(v),
        0 <= r <= 8 * LIMIT * LIMIT,
{
    proof {
        assert(0 <= v.x * v.x <= 4 * LIMIT * LIMIT && 0 <= v.y * v.y <= 4 * LIMIT * LIMIT)
            by (nonlinear_arith)
            requires within(v, 2 * LIMIT);
    }
    (v.x as i128) * (v.x as i128) + (v.y as i128) * (v.y as i128)
}

/// Magnitude of a component, as an unsigned value.
fn magnitude(a: i64) -> (r: u64)
    ensures
        r == abs(a as int),
{
    if a < 0 {
        (0 - (a as i128)) as u64
    } else {
        a as u64
    }
}

/// `a * len / s` rounded toward zero.
fn scale_component(a: i64, len: i64, s: u64) -> (r: i64)
    requires
        -2 * LIMIT <= a <= 2 * LIMIT,
        0 <= len <= LIMIT,
        0 < s,
    ensures
        r == div_toward_zero(a * len, s as int),
{
    let m: u64 = magnitude(a);
    proof {
        lemma_quotient(a as int, len as int, s as int);
        assert(abs(a as int) * len <= 2 * LIMIT * LIMIT) by (nonlinear_arith)
            requires 0 <= abs(a as int) <= 2 * LIMIT, 0 <= len <= LIMIT;
        assert(abs(a * len) == abs(a as int) * len) by (nonlinear_arith)
            requires 0 <= len;
        if a < 0 {
            assert(a * len <= 0) by (nonlinear_arith) requires a < 0, 0 <= len;
        } else {
            assert(a * len >= 0) by (nonlinear_arith) requires a >= 0, 0 <= len;
        }
    }
    let prod: u128 = (m as u128) * (len as u128);
    let q: u128 = prod / (s as u128);
    if a < 0 {
        0 - (q as i64)
    } else {
        q as i64
    }
}

/// Rescales `w` to length `len`; the zero vector has no direction and is
/// returned as it is.
pub fn scale_to(w: Vec2, len: i64) -> (r: Vec2)
    requires
        within(w, 2 * LIMIT),
        0 <= len <= LIMIT,
    ensures
        r == scaled(w, len as int),
        len_sq(r) <= len * len,
        within(r, len as int),
{
    proof {
        lemma_scaled(w, len as int);
        lemma_bounded_by_length(scaled(w, len as int), len as int);
    }
    if w.x == 0 && w.y == 0 {
        return w;
    }
    let mx: u128 = magnitude(w.x) as u128;
    let my: u128 = magnitude(w.y) as u128;
    proof {
        assert(mx * mx + my * my == len_sq(w) <= 8 * LIMIT * LIMIT) by (nonlinear_arith)
            requires
                mx == abs(w.x as int),
                my == abs(w.y as int),
                within(w, 2 * LIMIT);
    }
    let n: u64 = (mx * mx + my * my) as u64;
    proof {
        assert(n > 0) by (nonlinear_arith)
            requires n == len_sq(w), w.x != 0 || w.y != 0;
    }
    let s: u64 = ceil_sqrt(n);
    proof {
        lemma_ceil_sqrt_unique(n as int, s as int);
    }
    Vec2 { x: scale_component(w.x, len, s), y: scale_component(w.y, len, s) }
}

} // verus!
