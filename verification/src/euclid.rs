//! Even-distribution Euclidean rhythms (the Bresenham "bucket" method): an
//! onset falls on a step exactly where `floor(step * fill / len)` increments.

use vstd::prelude::*;
use vstd::arithmetic::div_mod::{lemma_fundamental_div_mod, lemma_mod_bound};

verus! {

/// Whether step `step` of a `len`-step pattern with `fill` onsets, rotated by
/// `rot`, carries an onset.
pub open spec fn euclid_hit_spec(step: int, len: int, fill: int, rot: int) -> bool {
    if fill == 0 || len == 0 {
        false
    } else {
        (((step + rot) % len) * fill) % len < fill
    }
}

/// The number of onsets among the first `n` steps of the pattern.
pub open spec fn euclid_onsets(n: nat, len: int, fill: int, rot: int) -> nat
    decreases n,
{
    if n == 0 {
        0
    } else {
        euclid_onsets((n - 1) as nat, len, fill, rot) + if euclid_hit_spec(
            n - 1,
            len,
            fill,
            rot,
        ) {
            1nat
        } else {
            0nat
        }
    }
}

/// Even-distribution Euclidean hit test: an onset falls on `step` when
/// `floor(step * fill / len)` increments. A pattern with no onsets or no
/// length never fires.
pub fn euclid_hit(step: u8, len: u8, fill: u8, rot: u8) -> (r: bool)
    ensures
        r == euclid_hit_spec(step as int, len as int, fill as int, rot as int),
{
    if fill == 0 || len == 0 {
        return false;
    }
    let l = len as u32;
    let f = fill as u32;
    let k = (step as u32 + rot as u32) % l;
    assert(k * f <= 255 * 255) by (nonlinear_arith)
        requires
            k < 255,
            f <= 255,
    ;
    let s = k * f;
    (s % l) < f
}

/// How far `floor(n * fill / len)` climbs from the step before: it rises by
/// one exactly on the onset steps and stays put elsewhere.
proof fn lemma_onset_is_increment(n: int, len: int, fill: int)
    requires
        1 <= n,
        0 < fill <= len,
    ensures
        (n * fill) / len - ((n - 1) * fill) / len == (if (n * fill) % len < fill {
            1int
        } else {
            0int
        }),
{
    let a = (n - 1) * fill;
    let b = n * fill;
    assert(b == a + fill) by (nonlinear_arith)
        requires
            a == (n - 1) * fill,
            b == n * fill,
    ;
    lemma_fundamental_div_mod(a, len);
    lemma_fundamental_div_mod(b, len);
    lemma_mod_bound(a, len);
    lemma_mod_bound(b, len);
    let qa = a / len;
    let qb = b / len;
    let ra = a % len;
    let rb = b % len;
    let d = qb - qa;
    assert(d * len == fill - rb + ra) by (nonlinear_arith)
        requires
            a == len * qa + ra,
            b == len * qb + rb,
            b == a + fill,
            d == qb - qa,
    ;
    assert(0 <= d <= 1) by (nonlinear_arith)
        requires
            d * len == fill - rb + ra,
            0 < fill <= len,
            0 <= ra < len,
            0 <= rb < len,
    ;
    if d == 0 {
        assert(d * len == 0);
        assert(rb >= fill);
    } else {
        assert(d == 1);
        assert(d * len == len) by (nonlinear_arith)
            requires
                d == 1,
        ;
        assert(rb < fill);
    }
}

/// Over the first `n` steps of an unrotated pattern (`1 <= n <= len`) there
/// are `floor((n - 1) * fill / len) + 1` onsets.
proof fn lemma_onsets_prefix(n: nat, len: int, fill: int)
    requires
        1 <= n <= len,
        0 < fill <= len,
    ensures
        euclid_onsets(n, len, fill, 0) == ((n - 1) * fill) / len + 1,
    decreases n,
{
    if n == 1 {
        assert(euclid_onsets(0, len, fill, 0) == 0);
        assert((0int % len) == 0);
        assert((0int * fill) % len == 0);
        assert(euclid_hit_spec(0, len, fill, 0));
        assert(((1 - 1) * fill) / len == 0);
    } else {
        lemma_onsets_prefix((n - 1) as nat, len, fill);
        let m = n - 1;
        assert(m % len == m) by {
            vstd::arithmetic::div_mod::lemma_small_mod(m as nat, len as nat);
        }
        assert((m + 0) % len == m);
        lemma_onset_is_increment(m, len, fill);
    }
}

/// A full cycle of an unrotated Euclidean pattern carries exactly `fill`
/// onsets: `len` steps with `fill <= len` onsets hit `fill` times.
pub proof fn lemma_euclid_onset_count(len: int, fill: int)
    requires
        0 < len,
        0 <= fill <= len,
    ensures
        euclid_onsets(len as nat, len, fill, 0) == fill,
{
    if fill == 0 {
        lemma_no_fill_no_onsets(len as nat, len);
    } else {
        lemma_onsets_prefix(len as nat, len, fill);
        assert(((len - 1) * fill) / len == fill - 1) by {
            let x = (len - 1) * fill;
            lemma_fundamental_div_mod(x, len);
            lemma_mod_bound(x, len);
            let q = x / len;
            let r = x % len;
            assert(q == fill - 1) by (nonlinear_arith)
                requires
                    x == (len - 1) * fill,
                    x == len * q + r,
                    0 <= r < len,
                    0 < fill <= len,
            ;
        }
    }
}

/// Rotating a pattern by `rot` shifts where the onsets fall and nothing else:
/// step `step` of the rotated pattern is step `(step + rot) % len` of the
/// unrotated one.
pub proof fn lemma_euclid_rotation(step: int, len: int, fill: int, rot: int)
    requires
        0 < len,
    ensures
        euclid_hit_spec(step, len, fill, rot) == euclid_hit_spec((step + rot) % len, len, fill, 0),
{
    lemma_mod_bound(step + rot, len);
    vstd::arithmetic::div_mod::lemma_small_mod(((step + rot) % len) as nat, len as nat);
}

/// The first `n` steps of a pattern rotated by `rot` (while they do not wrap
/// past the end of the cycle) are steps `rot % len .. rot % len + n` of the
/// unrotated pattern.
proof fn lemma_rotated_head(n: nat, len: int, fill: int, rot: int)
    requires
        0 < len,
        0 <= rot,
        (rot % len) + n <= len,
    ensures
        euclid_onsets(n, len, fill, rot) + euclid_onsets((rot % len) as nat, len, fill, 0)
            == euclid_onsets(((rot % len) + n) as nat, len, fill, 0),
    decreases n,
{
    lemma_mod_bound(rot, len);
    if n > 0 {
        lemma_rotated_head((n - 1) as nat, len, fill, rot);
        let s = n - 1;
        let t = (rot % len) + s;
        lemma_euclid_rotation(s, len, fill, rot);
        vstd::arithmetic::div_mod::lemma_add_mod_noop_right(s, rot, len);
        vstd::arithmetic::div_mod::lemma_small_mod(t as nat, len as nat);
        assert((s + rot) % len == t);
        assert(euclid_hit_spec(t, len, fill, 0) == euclid_hit_spec((t + 0) % len, len, fill, 0));
    }
}

/// Past the wrap point, the rotated pattern continues from the start of the
/// unrotated one.
proof fn lemma_rotated_tail(n: nat, len: int, fill: int, rot: int)
    requires
        0 < len,
        0 <= rot,
        len - (rot % len) <= n <= len,
    ensures
        euclid_onsets(n, len, fill, rot) + euclid_onsets((rot % len) as nat, len, fill, 0)
            == euclid_onsets(len as nat, len, fill, 0) + euclid_onsets(
            (n - (len - (rot % len))) as nat,
            len,
            fill,
            0,
        ),
    decreases n,
{
    lemma_mod_bound(rot, len);
    let r = rot % len;
    if n == len - r {
        lemma_rotated_head(n, len, fill, rot);
    } else {
        lemma_rotated_tail((n - 1) as nat, len, fill, rot);
        let s = n - 1;
        let t = s - (len - r);
        lemma_euclid_rotation(s, len, fill, rot);
        vstd::arithmetic::div_mod::lemma_add_mod_noop_right(s, rot, len);
        assert(s + r == len + t);
        vstd::arithmetic::div_mod::lemma_mod_add_multiples_vanish(t, len);
        vstd::arithmetic::div_mod::lemma_small_mod(t as nat, len as nat);
        assert((s + rot) % len == t);
        assert(euclid_hit_spec(t, len, fill, 0) == euclid_hit_spec((t + 0) % len, len, fill, 0));
    }
}

/// Every full cycle of a Euclidean pattern, whatever its rotation, carries
/// exactly `fill` onsets.
pub proof fn lemma_euclid_onset_count_rotated(len: int, fill: int, rot: int)
    requires
        0 < len,
        0 <= fill <= len,
        0 <= rot,
    ensures
        euclid_onsets(len as nat, len, fill, rot) == fill,
{
    lemma_mod_bound(rot, len);
    lemma_rotated_tail(len as nat, len, fill, rot);
    lemma_euclid_onset_count(len, fill);
}

/// A pattern with no onsets never fires.
proof fn lemma_no_fill_no_onsets(n: nat, len: int)
    ensures
        euclid_onsets(n, len, 0, 0) == 0,
    decreases n,
{
    if n > 0 {
        lemma_no_fill_no_onsets((n - 1) as nat, len);
    }
}

} // verus!
