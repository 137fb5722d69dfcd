//! How long a physical atom move takes under a trapezoidal (or, for short
//! moves, triangular) velocity profile.
//!
//! With `t_up = v / a_up` and `t_down = v / a_down` (the times to reach and to
//! shed the maximum speed `v`) and `t_meet = sqrt(2 d / (a_up + a_down))` (the
//! time at which the speed-up and slow-down parabolas meet), a move of
//! distance `d` takes `2 t_meet` when `t_meet <= t_up` and `t_meet <= t_down`
//! (the maximum speed is never reached), and otherwise
//! `t_up + t_down + (d - a_up t_up^2 / 2 - a_down t_down^2 / 2) / v`,
//! which equals `v / (2 a_up) + v / (2 a_down) + d / v`.
//! Both are computed exactly and rounded up to whole time units, so a move
//! over a positive distance never takes no time. Without kinematics (a zero
//! acceleration, deceleration or speed) a move is instantaneous.

use vstd::prelude::*;
use vstd::arithmetic::div_mod::lemma_fundamental_div_mod_converse;
use crate::position::{floor_sqrt, isqrt, lemma_floor_sqrt, lemma_floor_sqrt_unique};

verus! {

/// The movement kinematics of a machine, in whole length and time units.
#[derive(Debug, Clone, Copy, PartialEq, Eq, Structural)]
pub struct MovementConfig {
    /// The acceleration when speeding up
    pub acceleration_up: u32,
    /// The deceleration when slowing down
    pub acceleration_down: u32,
    /// The maximum speed
    pub speed: u32,
}

impl MovementConfig {
    /// All three quantities are positive.
    pub open spec fn wf(&self) -> bool {
        self.acceleration_up > 0 && self.acceleration_down > 0 && self.speed > 0
    }
}

/// The move never reaches the maximum speed: `t_meet <= t_up` and `t_meet <= t_down`,
/// squared and multiplied out.
pub open spec fn is_triangular(d: int, up: int, down: int, v: int) -> bool {
    2 * d * up * up <= v * v * (up + down) && 2 * d * down * down <= v * v * (up + down)
}

/// `x / y`, rounded up.
pub open spec fn ceil_div(x: int, y: int) -> int {
    (x + y - 1) / y
}

/// The smallest `r` with `r * r >= n`.
pub open spec fn ceil_sqrt(n: nat) -> nat {
    if floor_sqrt(n) * floor_sqrt(n) == n {
        floor_sqrt(n)
    } else {
        floor_sqrt(n) + 1
    }
}

/// `q` with `(q - 1) y < x <= q y` is `x / y` rounded up.
pub proof fn lemma_ceil_div_unique(x: int, y: int, q: int)
    requires
        y > 0,
        (q - 1) * y < x <= q * y,
    ensures
        ceil_div(x, y) == q,
{
    assert(x + y - 1 == q * y + (x + y - 1 - q * y)) by (nonlinear_arith);
    assert(0 <= x + y - 1 - q * y < y) by (nonlinear_arith)
        requires
            (q - 1) * y < x <= q * y,
    ;
    lemma_fundamental_div_mod_converse(x + y - 1, y, q, x + y - 1 - q * y);
}

/// `x / y` rounded up is the one `q` with `(q - 1) y < x <= q y`.
pub proof fn lemma_ceil_div(x: int, y: int)
    requires
        y > 0,
        x >= 0,
    ensures
        (ceil_div(x, y) - 1) * y < x <= ceil_div(x, y) * y,
        ceil_div(x, y) >= 0,
        x > 0 ==> ceil_div(x, y) >= 1,
{
    let q = (x + y - 1) / y;
    assert(q * y <= x + y - 1 < (q + 1) * y && q >= 0) by (nonlinear_arith)
        requires
            q == (x + y - 1) / y,
            y > 0,
            x >= 0,
    ;
    assert((q - 1) * y < x <= q * y) by (nonlinear_arith)
        requires
            q * y <= x + y - 1 < (q + 1) * y,
            y > 0,
    ;
    if x > 0 && q < 1 {
        assert(q == 0);
        assert(x <= 0) by (nonlinear_arith)
            requires
                x <= q * y,
                q == 0,
        ;
    }
}

/// `r >= 1` with `(r - 1)^2 < n <= r^2` is `ceil_sqrt(n)`.
pub proof fn lemma_ceil_sqrt_unique(n: nat, r: nat)
    requires
        r >= 1,
        (r - 1) * (r - 1) < n <= r * r,
    ensures
        ceil_sqrt(n) == r,
{
    if r * r == n {
        assert(n < (r + 1) * (r + 1)) by (nonlinear_arith)
            requires
                r * r == n,
        ;
        lemma_floor_sqrt_unique(n, r);
    } else {
        let s = (r - 1) as nat;
        assert(s * s <= n < (s + 1) * (s + 1));
        lemma_floor_sqrt_unique(n, s);
    }
}

/// `2 t_meet = sqrt(8 d / (a_up + a_down))`, rounded up.
pub open spec fn triangular_duration(d: int, up: int, down: int) -> int {
    ceil_sqrt(ceil_div(8 * d, up + down) as nat) as int
}

/// `v / (2 a_up) + v / (2 a_down) + d / v`, rounded up.
pub open spec fn trapezoidal_duration(d: int, up: int, down: int, v: int) -> int {
    ceil_div(v * v * down + v * v * up + 2 * d * up * down, 2 * up * down * v)
}

/// The duration of a move over distance `d`; `0` without kinematics.
pub open spec fn move_duration(d: int, up: int, down: int, v: int) -> int {
    if up == 0 || down == 0 || v == 0 {
        0
    } else if is_triangular(d, up, down, v) {
        triangular_duration(d, up, down)
    } else {
        trapezoidal_duration(d, up, down, v)
    }
}

/// With positive kinematics, a move over a positive distance takes time.
pub proof fn lemma_positive_move_takes_time(d: int, up: int, down: int, v: int)
    requires
        d > 0,
        up > 0,
        down > 0,
        v > 0,
    ensures
        move_duration(d, up, down, v) >= 1,
{
    if is_triangular(d, up, down, v) {
        lemma_ceil_div(8 * d, up + down);
        let n = ceil_div(8 * d, up + down) as nat;
        let f = floor_sqrt(n);
        if f * f == n {
            assert(f >= 1) by (nonlinear_arith)
                requires
                    f * f == n,
                    n >= 1,
            ;
        }
    } else {
        let num = v * v * down + v * v * up + 2 * d * up * down;
        let den = 2 * up * down * v;
        assert(num > 0 && den > 0) by (nonlinear_arith)
            requires
                num == v * v * down + v * v * up + 2 * d * up * down,
                den == 2 * up * down * v,
                d > 0,
                up > 0,
                down > 0,
                v > 0,
        ;
        lemma_ceil_div(num, den);
    }
}

/// The trapezoidal duration of a move of at most `2^34` units stays below `2^35`.
proof fn lemma_trapezoidal_bound(d: int, up: int, down: int, v: int)
    requires
        0 <= d <= 0x4_0000_0000,
        1 <= up <= 0xffff_ffff,
        1 <= down <= 0xffff_ffff,
        1 <= v <= 0xffff_ffff,
    ensures
        0 <= trapezoidal_duration(d, up, down, v) <= 0x8_0000_0000,
        d > 0 ==> trapezoidal_duration(d, up, down, v) >= 1,
{
    let den = 2 * up * down * v;
    assert(den >= 2) by (nonlinear_arith)
        requires
            den == 2 * up * down * v,
            1 <= up,
            1 <= down,
            1 <= v,
    ;
    let num = v * v * down + v * v * up + 2 * d * up * down;
    assert(v * v * down <= 0x8000_0000 * den) by (nonlinear_arith)
        requires
            den == 2 * up * down * v,
            1 <= up,
            1 <= down,
            1 <= v <= 0xffff_ffff,
    ;
    assert(v * v * up <= 0x8000_0000 * den) by (nonlinear_arith)
        requires
            den == 2 * up * down * v,
            1 <= up,
            1 <= down,
            1 <= v <= 0xffff_ffff,
    ;
    assert(2 * d * up * down <= 0x4_0000_0000 * den) by (nonlinear_arith)
        requires
            den == 2 * up * down * v,
            0 <= d <= 0x4_0000_0000,
            1 <= up,
            1 <= down,
            1 <= v,
    ;
    assert(0 <= num < 0x8_0000_0000 * den) by (nonlinear_arith)
        requires
            num == v * v * down + v * v * up + 2 * d * up * down,
            v * v * down <= 0x8000_0000 * den,
            v * v * up <= 0x8000_0000 * den,
            2 * d * up * down <= 0x4_0000_0000 * den,
            0 <= d,
            1 <= up,
            1 <= down,
            1 <= v,
            den >= 2,
    ;
    lemma_ceil_div(num, den);
    let q = ceil_div(num, den);
    assert(q <= 0x8_0000_0000) by (nonlinear_arith)
        requires
            (q - 1) * den < num < 0x8_0000_0000 * den,
            den > 0,
    ;
    if d > 0 {
        assert(num > 0) by (nonlinear_arith)
            requires
                num == v * v * down + v * v * up + 2 * d * up * down,
                d > 0,
                up >= 1,
                down >= 1,
                v >= 1,
        ;
    }
}

/// The time a move over `distance` takes with the kinematics `config`.
pub fn duration_for_distance(distance: u64, config: &MovementConfig) -> (r: i64)
    requires
        distance <= 0x4_0000_0000,
    ensures
        r == move_duration(
            distance as int,
            config.acceleration_up as int,
            config.acceleration_down as int,
            config.speed as int,
        ),
        r >= 0,
        config.wf() && distance > 0 ==> r > 0,
{
    if config.acceleration_up == 0 || config.acceleration_down == 0 || config.speed == 0 {
        return 0;
    }
    let d = distance as u128;
    let up = config.acceleration_up as u128;
    let down = config.acceleration_down as u128;
    let v = config.speed as u128;
    assert(2 * d * up * up <= 2 * 0x4_0000_0000 * 0xffff_ffff * 0xffff_ffff && 2 * d * up <= 2
        * 0x4_0000_0000 * 0xffff_ffff && 2 * d <= 2 * 0x4_0000_0000) by (nonlinear_arith)
        requires
            d <= 0x4_0000_0000,
            up <= 0xffff_ffff,
    ;
    assert(2 * d * down * down <= 2 * 0x4_0000_0000 * 0xffff_ffff * 0xffff_ffff && 2 * d * down
        <= 2 * 0x4_0000_0000 * 0xffff_ffff) by (nonlinear_arith)
        requires
            d <= 0x4_0000_0000,
            down <= 0xffff_ffff,
    ;
    assert(v * v <= 0xffff_ffff * 0xffff_ffff && v * v * (up + down) <= 0xffff_ffff * 0xffff_ffff
        * 0x1_ffff_fffe) by (nonlinear_arith)
        requires
            v <= 0xffff_ffff,
            up <= 0xffff_ffff,
            down <= 0xffff_ffff,
    ;
    let vv = v * v;
    if 2 * d * up * up <= vv * (up + down) && 2 * d * down * down <= vv * (up + down) {
        let n = (8 * d + (up + down) - 1) / (up + down);
        let f = isqrt(n);
        proof {
            lemma_floor_sqrt(n as nat);
            lemma_ceil_div(8 * d as int, (up + down) as int);
            assert(f <= n) by (nonlinear_arith)
                requires
                    f * f <= n,
                    f >= 0,
            ;
            assert(f * f <= 0x7fff_ffff_ffff_ffff) by (nonlinear_arith)
                requires
                    f * f <= n,
                    n <= 8 * 0x4_0000_0000 + 0x1_ffff_fffe,
            ;
        }
        if (f as u128) * (f as u128) == n {
            assert(d > 0 ==> f >= 1) by (nonlinear_arith)
                requires
                    f * f == n,
                    d > 0 ==> n >= 1,
            ;
            f as i64
        } else {
            (f + 1) as i64
        }
    } else {
        proof {
            lemma_trapezoidal_bound(d as int, up as int, down as int, v as int);
        }
        assert(vv * down <= 0xffff_ffff * 0xffff_ffff * 0xffff_ffff && vv * up <= 0xffff_ffff
            * 0xffff_ffff * 0xffff_ffff) by (nonlinear_arith)
            requires
                vv <= 0xffff_ffff * 0xffff_ffff,
                up <= 0xffff_ffff,
                down <= 0xffff_ffff,
        ;
        assert(2 * d * up * down <= 2 * 0x4_0000_0000 * 0xffff_ffff * 0xffff_ffff) by (nonlinear_arith)
            requires
                2 * d * up <= 2 * 0x4_0000_0000 * 0xffff_ffff,
                down <= 0xffff_ffff,
        ;
        assert(2 * up * down * v <= 2 * 0xffff_ffff * 0xffff_ffff * 0xffff_ffff && 2 * up * down
            <= 2 * 0xffff_ffff * 0xffff_ffff && 2 * up <= 2 * 0xffff_ffff) by (nonlinear_arith)
            requires
                up <= 0xffff_ffff,
                down <= 0xffff_ffff,
                v <= 0xffff_ffff,
        ;
        let num = vv * down + vv * up + 2 * d * up * down;
        let den = 2 * up * down * v;
        assert(den > 0) by (nonlinear_arith)
            requires
                den == 2 * up * down * v,
                up >= 1,
                down >= 1,
                v >= 1,
        ;
        ((num + den - 1) / den) as i64
    }
}

/// A move takes the same time in either direction between two points: the
/// duration depends on the positions only through their distance.
pub proof fn lemma_move_duration_symmetric(
    a: crate::position::Position,
    b: crate::position::Position,
    config: MovementConfig,
)
    ensures
        move_duration(
            crate::position::spec_distance(a, b) as int,
            config.acceleration_up as int,
            config.acceleration_down as int,
            config.speed as int,
        ) == move_duration(
            crate::position::spec_distance(b, a) as int,
            config.acceleration_up as int,
            config.acceleration_down as int,
            config.speed as int,
        ),
{
    let dx = a.x - b.x;
    let dy = a.y - b.y;
    assert(dx * dx == (b.x - a.x) * (b.x - a.x)) by (nonlinear_arith)
        requires
            dx == a.x - b.x,
    ;
    assert(dy * dy == (b.y - a.y) * (b.y - a.y)) by (nonlinear_arith)
        requires
            dy == a.y - b.y,
    ;
    assert(crate::position::distance_squared(a, b) == crate::position::distance_squared(b, a));
}

/// The duration of a move between two points is the same in both directions:
/// an atom at `a` moving to `b` takes as long as an atom at `b` moving to `a`.
pub proof fn lemma_move_instruction_symmetric(
    atoms_ab: Seq<crate::animator::AtomModel>,
    id_ab: String,
    atoms_ba: Seq<crate::animator::AtomModel>,
    id_ba: String,
    a: crate::position::Position,
    b: crate::position::Position,
    machine: crate::config::MachineConfig,
    t: int,
)
    requires
        crate::animator::first_index_of(crate::animator::atom_ids(atoms_ab), id_ab@) >= 0,
        crate::animator::position_at(
            atoms_ab,
            crate::animator::first_index_of(crate::animator::atom_ids(atoms_ab), id_ab@),
            t,
        ) == a,
        crate::animator::first_index_of(crate::animator::atom_ids(atoms_ba), id_ba@) >= 0,
        crate::animator::position_at(
            atoms_ba,
            crate::animator::first_index_of(crate::animator::atom_ids(atoms_ba), id_ba@),
            t,
        ) == b,
    ensures
        crate::animator::spec_duration(
            crate::input::TimedInstruction::Move { position: b, id: id_ab },
            atoms_ab,
            machine,
            t,
        ) == crate::animator::spec_duration(
            crate::input::TimedInstruction::Move { position: a, id: id_ba },
            atoms_ba,
            machine,
            t,
        ),
{
    lemma_move_duration_symmetric(a, b, machine.movement);
}

/// With equal acceleration and deceleration `a` and maximum speed `v`, a move
/// of exactly the threshold distance `d = v^2 / a` takes the same time under
/// the triangular and the trapezoidal formula (the duration is continuous there).
pub proof fn lemma_profile_boundary_continuous(a: int, v: int, d: int)
    requires
        a > 0,
        v > 0,
        d * a == v * v,
    ensures
        is_triangular(d, a, a, v),
        triangular_duration(d, a, a) == trapezoidal_duration(d, a, a, v),
        triangular_duration(d, a, a) == ceil_div(2 * v, a),
{
    assert(d >= 1) by (nonlinear_arith)
        requires
            d * a == v * v,
            a > 0,
            v > 0,
    ;
    // The triangle condition holds with equality.
    assert(2 * d * a * a == v * v * (a + a)) by (nonlinear_arith)
        requires
            d * a == v * v,
    ;
    let q = ceil_div(2 * v, a);
    lemma_ceil_div(2 * v, a);
    // n = ceil(8 d / 2a) lies in ((n - 1) a^2, n a^2] scaled: (n - 1) a^2 < 4 v^2 <= n a^2
    let n = ceil_div(8 * d, a + a);
    lemma_ceil_div(8 * d, a + a);
    assert((n - 1) * (a * a) < 4 * (v * v) <= n * (a * a)) by (nonlinear_arith)
        requires
            (n - 1) * (a + a) < 8 * d <= n * (a + a),
            d * a == v * v,
            a > 0,
    ;
    assert((q - 1) * (q - 1) * (a * a) < 4 * (v * v) <= q * q * (a * a)) by (nonlinear_arith)
        requires
            (q - 1) * a < 2 * v <= q * a,
            q >= 1,
            a > 0,
            v > 0,
    ;
    assert((q - 1) * (q - 1) < n <= q * q) by (nonlinear_arith)
        requires
            (q - 1) * (q - 1) * (a * a) < 4 * (v * v) <= q * q * (a * a),
            (n - 1) * (a * a) < 4 * (v * v) <= n * (a * a),
            a > 0,
    ;
    lemma_ceil_sqrt_unique(n as nat, q as nat);
    // the trapezoidal quotient is (2 v a)(2 v) / ((2 v a) a)
    let num = v * v * a + v * v * a + 2 * d * a * a;
    let den = 2 * a * a * v;
    assert((q - 1) * den < num <= q * den) by (nonlinear_arith)
        requires
            (q - 1) * a < 2 * v <= q * a,
            num == v * v * a + v * v * a + 2 * d * a * a,
            den == 2 * a * a * v,
            d * a == v * v,
            a > 0,
            v > 0,
    ;
    assert(den > 0) by (nonlinear_arith)
        requires
            den == 2 * a * a * v,
            a > 0,
            v > 0,
    ;
    lemma_ceil_div_unique(num, den, q);
}

} // verus!
