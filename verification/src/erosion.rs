//! The hydraulic-erosion state transition: one tick of the shallow-water
//! outflow scheme with sediment transport.
//!
//! Every derived quantity below is a function of the *previous* tick's grid
//! alone, so a whole tick is a per-cell map over a read-only snapshot: the
//! stepper builds a fresh grid and swaps it in, and no cell ever observes a
//! neighbor already updated within the same tick.
//!
//! A tick, per cell:
//! 1. precipitation raises the water level;
//! 2. each directional outflow grows by `flow_speed * own_height` less the
//!    neighbor's height, clamped at zero;
//! 3. the four outflows are scaled down so their total never exceeds the
//!    water on hand;
//! 4. the water level takes the inflow pointed at this cell by each
//!    neighbor's scaled outflow and gives up its own total outflow;
//! 5. each directional flow speed becomes the mean of its old value and the
//!    direction's inflow-plus-outflow volume;
//! 6. slope, power and carrying capacity are derived from the new speeds and
//!    the steepest drop to a neighbor;
//! 7. sediment is deposited, dissolved from the bed, or eroded from bedrock,
//!    moving mass between the cell's own reservoirs only;
//! 8. suspended sediment is advected to the neighbors in proportion to each
//!    direction's share of the total outflow, symmetrically on both sides.

use vstd::prelude::*;
use crate::field::{Cell, Dirs, HeightField};
use crate::sums::{
    grid_sum, lemma_grid_sum_add, lemma_grid_sum_congruence, lemma_grid_sum_const,
    lemma_flat_sum_is_grid_sum, lemma_sum_cyclic_shift, lemma_sum_range_add,
    lemma_sum_range_concat, lemma_sum_range_congruence, lemma_sum_range_offset, sum_range,
    sum_upto,
};
use crate::fixed::{
    div_fp, mul_fp, sat_add, sat_sub, spec_cap, spec_div_fp, spec_mul_fp, spec_sat_add,
    spec_isqrt, spec_sat_sub, spec_sqrt_fp, sqrt_fp,
};

verus! {

/// Fraction of `fixed::SCALE` under which the bed-sediment reserve counts as
/// exhausted, sending erosion into the bedrock: five hundredths.
pub const BED_GUARD: u64 = 50_000;

/// Per-tick simulation parameters, all fixed-point quantities.
#[derive(Clone, Copy, PartialEq, Eq, Structural, Debug)]
pub struct Params {
    /// Water added to every cell at the start of a tick.
    pub precipitation_rate: u64,
    /// Tick length, recorded with the run; the per-tick update rules below
    /// do not scale by it.
    pub dt: u64,
    /// Rate factor for dissolving bed sediment or eroding bedrock.
    pub erosion_rate: u64,
    /// Rate factor for settling suspended sediment onto the bed.
    pub deposition_rate: u64,
    /// Sediment-capacity constant scaling how much the flow can carry.
    pub capacity_k: u64,
    /// Deposition starts once suspended sediment exceeds capacity times this
    /// factor.
    pub target_factor: u64,
}

/// The smallest of four values.
pub open spec fn spec_min4(a: int, b: int, c: int, d: int) -> int {
    let ab = if a < b {
        a
    } else {
        b
    };
    let cd = if c < d {
        c
    } else {
        d
    };
    if ab < cd {
        ab
    } else {
        cd
    }
}

/// The cell's water level right after precipitation.
pub open spec fn spec_precipitated_water(f: HeightField, x: int, y: int, p: Params) -> int {
    spec_sat_add(f.spec_cell(x, y).water as int, p.precipitation_rate as int)
}

/// The cell's total height as the outflow growth sees it: bedrock, bed
/// sediment and the already-precipitated water of this tick.
pub open spec fn spec_th1(f: HeightField, x: int, y: int, p: Params) -> int {
    spec_sat_add(
        spec_sat_add(f.spec_cell(x, y).bedrock as int, f.spec_cell(x, y).bed_sediment as int),
        spec_precipitated_water(f, x, y, p),
    )
}

/// Total height of the cell at the given coordinate pair, from the previous
/// tick's snapshot.
pub open spec fn spec_th_at(f: HeightField, xy: (int, int)) -> int {
    f.spec_cell(xy.0, xy.1).spec_total_height()
}

/// One direction's outflow after growth: the old volume plus
/// `speed * own_height - neighbor_height`, clamped at zero. Flow grows when
/// this cell stands higher than its neighbor, in proportion to the momentum
/// already flowing that way.
pub open spec fn spec_grown_flow(volume: int, speed: int, own_th: int, nb_th: int) -> int {
    spec_sat_sub(spec_sat_add(volume, spec_mul_fp(speed, own_th)), nb_th)
}

/// All four outflows after growth, before conservation scaling.
#[verifier::opaque]
pub open spec fn spec_outflow_grown(f: HeightField, x: int, y: int, p: Params) -> Dirs {
    let c = f.spec_cell(x, y);
    let th = spec_th1(f, x, y, p);
    Dirs {
        n: spec_grown_flow(
            c.outflow.n as int,
            c.flow_speed.n as int,
            th,
            spec_th_at(f, f.spec_north(x, y)),
        ) as u64,
        e: spec_grown_flow(
            c.outflow.e as int,
            c.flow_speed.e as int,
            th,
            spec_th_at(f, f.spec_east(x, y)),
        ) as u64,
        s: spec_grown_flow(
            c.outflow.s as int,
            c.flow_speed.s as int,
            th,
            spec_th_at(f, f.spec_south(x, y)),
        ) as u64,
        w: spec_grown_flow(
            c.outflow.w as int,
            c.flow_speed.w as int,
            th,
            spec_th_at(f, f.spec_west(x, y)),
        ) as u64,
    }
}

/// The grown outflows scaled so their total never exceeds the water on
/// hand: each direction keeps its share `grown * water / total`. A total no
/// larger than the water — zero included — is left untouched, the scaler
/// being one there.
#[verifier::opaque]
pub open spec fn spec_outflow_scaled(f: HeightField, x: int, y: int, p: Params) -> Dirs {
    let o1 = spec_outflow_grown(f, x, y, p);
    let w1 = spec_precipitated_water(f, x, y, p);
    let t = o1.spec_total();
    if t <= w1 {
        o1
    } else {
        Dirs {
            n: (o1.n * w1 / t) as u64,
            e: (o1.e * w1 / t) as u64,
            s: (o1.s * w1 / t) as u64,
            w: (o1.w * w1 / t) as u64,
        }
    }
}

/// Water arriving from each direction: the scaled outflow component of that
/// neighbor which points back at this cell. Across a pole the neighbor's
/// flow toward the pole — the same cardinal component, not the opposite
/// one — is what points back here.
#[verifier::opaque]
pub open spec fn spec_inflow(f: HeightField, x: int, y: int, p: Params) -> Dirs {
    Dirs {
        n: {
            let nb = f.spec_north(x, y);
            let o = spec_outflow_scaled(f, nb.0, nb.1, p);
            if y == f.height - 1 {
                o.n
            } else {
                o.s
            }
        },
        e: {
            let nb = f.spec_east(x, y);
            spec_outflow_scaled(f, nb.0, nb.1, p).w
        },
        s: {
            let nb = f.spec_south(x, y);
            let o = spec_outflow_scaled(f, nb.0, nb.1, p);
            if y == 0 {
                o.s
            } else {
                o.n
            }
        },
        w: {
            let nb = f.spec_west(x, y);
            spec_outflow_scaled(f, nb.0, nb.1, p).e
        },
    }
}

/// Next water level: the precipitated water, less the cell's own total
/// scaled outflow, plus all inflow, saturating at the representation's
/// ceiling.
#[verifier::opaque]
pub open spec fn spec_water_next(f: HeightField, x: int, y: int, p: Params) -> int {
    spec_cap(
        spec_sat_sub(
            spec_precipitated_water(f, x, y, p),
            spec_outflow_scaled(f, x, y, p).spec_total(),
        ) + spec_inflow(f, x, y, p).spec_total(),
    )
}

/// Next per-direction flow speed: the mean of the old speed and the volume
/// that moved through that direction this tick (inflow plus outflow).
#[verifier::opaque]
pub open spec fn spec_speed_next(f: HeightField, x: int, y: int, p: Params) -> Dirs {
    let c = f.spec_cell(x, y);
    let inf = spec_inflow(f, x, y, p);
    let o2 = spec_outflow_scaled(f, x, y, p);
    Dirs {
        n: spec_cap((c.flow_speed.n + inf.n + o2.n) / 2) as u64,
        e: spec_cap((c.flow_speed.e + inf.e + o2.e) / 2) as u64,
        s: spec_cap((c.flow_speed.s + inf.s + o2.s) / 2) as u64,
        w: spec_cap((c.flow_speed.w + inf.w + o2.w) / 2) as u64,
    }
}

/// Steepest downhill drop: the cell's height less the lowest neighbor
/// height, clamped at zero when every neighbor stands at least as high.
#[verifier::opaque]
pub open spec fn spec_slope(f: HeightField, x: int, y: int, p: Params) -> int {
    spec_sat_sub(
        spec_th1(f, x, y, p),
        spec_min4(
            spec_th_at(f, f.spec_north(x, y)),
            spec_th_at(f, f.spec_east(x, y)),
            spec_th_at(f, f.spec_south(x, y)),
            spec_th_at(f, f.spec_west(x, y)),
        ),
    )
}

/// Mean of the four next-tick flow speeds.
#[verifier::opaque]
pub open spec fn spec_avg_speed(f: HeightField, x: int, y: int, p: Params) -> int {
    spec_speed_next(f, x, y, p).spec_total() / 4
}

/// Stream power: the square root of the mean flow speed times the slope.
/// The speed is nonnegative by representation, so the radicand needs no
/// further guard.
#[verifier::opaque]
pub open spec fn spec_power(f: HeightField, x: int, y: int, p: Params) -> int {
    spec_mul_fp(spec_sqrt_fp(spec_avg_speed(f, x, y, p)), spec_slope(f, x, y, p))
}

/// Sediment-carrying capacity: the capacity constant times the stream
/// power.
#[verifier::opaque]
pub open spec fn spec_capacity(f: HeightField, x: int, y: int, p: Params) -> int {
    spec_mul_fp(p.capacity_k as int, spec_power(f, x, y, p))
}

/// The within-cell sediment exchange, one of three mutually exclusive moves:
/// deposit the excess over capacity onto the bed, erode bedrock when the bed
/// reserve is nearly exhausted, or dissolve bed sediment into suspension.
/// Returns `(bedrock, bed_sediment, suspended_sediment)` after the move;
/// every transfer is clamped so no reservoir goes below zero, and a zero
/// stream power moves nothing where it would otherwise divide the excess by
/// the power's square root.
#[verifier::opaque]
pub open spec fn spec_eroded(f: HeightField, x: int, y: int, p: Params) -> (int, int, int) {
    let c = f.spec_cell(x, y);
    let rock = c.bedrock as int;
    let bed = c.bed_sediment as int;
    let sus = c.suspended_sediment as int;
    let cap = spec_capacity(f, x, y, p);
    let pw = spec_power(f, x, y, p);
    if sus > spec_mul_fp(cap, p.target_factor as int) {
        let sq = spec_sqrt_fp(pw);
        let amount = if sq == 0 {
            0
        } else {
            spec_mul_fp(spec_div_fp(spec_sat_sub(sus, cap), sq), p.deposition_rate as int)
        };
        let moved = if amount < sus {
            amount
        } else {
            sus
        };
        (rock, spec_sat_add(bed, moved), sus - moved)
    } else if bed < spec_mul_fp(cap, BED_GUARD as int) {
        let amount = spec_mul_fp(
            spec_mul_fp(spec_sat_sub(cap, sus), spec_sqrt_fp(pw)),
            p.erosion_rate as int,
        );
        let moved = if amount < rock {
            amount
        } else {
            rock
        };
        (rock - moved, bed, spec_sat_add(sus, moved))
    } else {
        let amount = spec_mul_fp(
            spec_mul_fp(spec_sat_sub(cap, sus), spec_sqrt_fp(pw)),
            p.erosion_rate as int,
        );
        let moved = if amount < bed {
            amount
        } else {
            bed
        };
        (rock, bed - moved, spec_sat_add(sus, moved))
    }
}

/// Suspended sediment leaving toward each neighbor: the post-exchange
/// suspension split in proportion to each direction's share of the total
/// scaled outflow; nothing moves when nothing flows.
#[verifier::opaque]
pub open spec fn spec_sed_out(f: HeightField, x: int, y: int, p: Params) -> Dirs {
    let o2 = spec_outflow_scaled(f, x, y, p);
    let t = o2.spec_total();
    let sus = spec_eroded(f, x, y, p).2;
    if t == 0 {
        Dirs::spec_zero()
    } else {
        Dirs {
            n: (sus * o2.n / t) as u64,
            e: (sus * o2.e / t) as u64,
            s: (sus * o2.s / t) as u64,
            w: (sus * o2.w / t) as u64,
        }
    }
}

/// Suspended sediment arriving from each direction: the neighbor's outgoing
/// share pointed back at this cell, mirroring `spec_inflow`.
#[verifier::opaque]
pub open spec fn spec_sed_in(f: HeightField, x: int, y: int, p: Params) -> Dirs {
    Dirs {
        n: {
            let nb = f.spec_north(x, y);
            let o = spec_sed_out(f, nb.0, nb.1, p);
            if y == f.height - 1 {
                o.n
            } else {
                o.s
            }
        },
        e: {
            let nb = f.spec_east(x, y);
            spec_sed_out(f, nb.0, nb.1, p).w
        },
        s: {
            let nb = f.spec_south(x, y);
            let o = spec_sed_out(f, nb.0, nb.1, p);
            if y == 0 {
                o.s
            } else {
                o.n
            }
        },
        w: {
            let nb = f.spec_west(x, y);
            spec_sed_out(f, nb.0, nb.1, p).e
        },
    }
}

/// Next suspended sediment: what the exchange left, less the advected
/// shares, plus what the neighbors sent.
#[verifier::opaque]
pub open spec fn spec_sus_next(f: HeightField, x: int, y: int, p: Params) -> int {
    spec_sat_add(
        spec_sat_sub(spec_eroded(f, x, y, p).2, spec_sed_out(f, x, y, p).spec_total()),
        spec_sed_in(f, x, y, p).spec_total(),
    )
}

/// The whole per-cell transition: the cell's state at the next tick, a
/// function of the previous tick's grid alone.
#[verifier::opaque]
pub open spec fn spec_next_cell(f: HeightField, x: int, y: int, p: Params) -> Cell {
    Cell {
        bedrock: spec_eroded(f, x, y, p).0 as u64,
        bed_sediment: spec_eroded(f, x, y, p).1 as u64,
        suspended_sediment: spec_sus_next(f, x, y, p) as u64,
        water: spec_water_next(f, x, y, p) as u64,
        outflow: spec_outflow_scaled(f, x, y, p),
        flow_speed: spec_speed_next(f, x, y, p),
    }
}

/// A scaled share `o * w / t` stays between zero and `w` whenever `o <= t`.
pub proof fn lemma_share_le(o: int, w: int, t: int)
    requires
        0 <= o <= t,
        0 <= w,
        0 < t,
    ensures
        0 <= o * w / t <= w,
{
    vstd::arithmetic::mul::lemma_mul_inequality(o, t, w);
    vstd::arithmetic::div_mod::lemma_div_is_ordered(o * w, t * w, t);
    vstd::arithmetic::div_mod::lemma_div_multiples_vanish(w, t);
    assert(t * w == w * t) by (nonlinear_arith);
    vstd::arithmetic::mul::lemma_mul_nonnegative(o, w);
    vstd::arithmetic::div_mod::lemma_div_pos_is_pos(o * w, t);
}

/// Division by a common positive divisor is superadditive: the floors of the
/// parts sum to at most the floor of the whole.
pub proof fn lemma_div_sum_le(a: int, b: int, t: int)
    requires
        a >= 0,
        b >= 0,
        t > 0,
    ensures
        a / t + b / t <= (a + b) / t,
{
    vstd::arithmetic::div_mod::lemma_fundamental_div_mod(a, t);
    vstd::arithmetic::div_mod::lemma_fundamental_div_mod(b, t);
    vstd::arithmetic::div_mod::lemma_mod_bound(a, t);
    vstd::arithmetic::div_mod::lemma_mod_bound(b, t);
    vstd::arithmetic::div_mod::lemma_div_pos_is_pos(a, t);
    vstd::arithmetic::div_mod::lemma_div_pos_is_pos(b, t);
    let q = a / t + b / t;
    assert(a + b >= t * q) by (nonlinear_arith)
        requires
            a == t * (a / t) + a % t,
            b == t * (b / t) + b % t,
            a % t >= 0,
            b % t >= 0,
            q == a / t + b / t,
    ;
    vstd::arithmetic::div_mod::lemma_div_multiples_vanish(q, t);
    vstd::arithmetic::div_mod::lemma_div_is_ordered(t * q, a + b, t);
}

/// The four scaled outflows never total more than the water on hand: the
/// conservation scaling does what it is for.
pub proof fn lemma_scaled_total_le_water(f: HeightField, x: int, y: int, p: Params)
    ensures
        0 <= spec_outflow_scaled(f, x, y, p).spec_total()
            <= spec_precipitated_water(f, x, y, p),
{
    reveal(spec_outflow_scaled);
    reveal(spec_outflow_grown);
    let o1 = spec_outflow_grown(f, x, y, p);
    let w1 = spec_precipitated_water(f, x, y, p);
    let t = o1.spec_total();
    if t <= w1 {
    } else {
        let sn = o1.n * w1 / t;
        let se = o1.e * w1 / t;
        let ss = o1.s * w1 / t;
        let sw = o1.w * w1 / t;
        lemma_share_le(o1.n as int, w1, t);
        lemma_share_le(o1.e as int, w1, t);
        lemma_share_le(o1.s as int, w1, t);
        lemma_share_le(o1.w as int, w1, t);
        vstd::arithmetic::mul::lemma_mul_nonnegative(o1.n as int, w1);
        vstd::arithmetic::mul::lemma_mul_nonnegative(o1.e as int, w1);
        vstd::arithmetic::mul::lemma_mul_nonnegative(o1.s as int, w1);
        lemma_div_sum_le(o1.n * w1, o1.e * w1, t);
        lemma_div_sum_le(o1.n * w1 + o1.e * w1, o1.s * w1, t);
        lemma_div_sum_le(o1.n * w1 + o1.e * w1 + o1.s * w1, o1.w * w1, t);
        assert(o1.n * w1 + o1.e * w1 + o1.s * w1 + o1.w * w1 == t * w1) by (nonlinear_arith)
            requires
                t == o1.n + o1.e + o1.s + o1.w,
        ;
        vstd::arithmetic::div_mod::lemma_div_multiples_vanish(w1, t);
        assert(t * w1 == w1 * t) by (nonlinear_arith);
        assert(sn + se + ss + sw <= w1);
    }
}

/// The advected sediment shares never total more than the suspension they
/// are drawn from.
pub proof fn lemma_sed_out_le_sus(f: HeightField, x: int, y: int, p: Params)
    requires
        spec_eroded(f, x, y, p).2 >= 0,
    ensures
        0 <= spec_sed_out(f, x, y, p).spec_total() <= spec_eroded(f, x, y, p).2,
{
    reveal(spec_sed_out);
    let o2 = spec_outflow_scaled(f, x, y, p);
    let t = o2.spec_total();
    let sus = spec_eroded(f, x, y, p).2;
    if t == 0 {
    } else {
        assert(sus * o2.n == o2.n * sus) by (nonlinear_arith);
        assert(sus * o2.e == o2.e * sus) by (nonlinear_arith);
        assert(sus * o2.s == o2.s * sus) by (nonlinear_arith);
        assert(sus * o2.w == o2.w * sus) by (nonlinear_arith);
        lemma_share_le(o2.n as int, sus, t);
        lemma_share_le(o2.e as int, sus, t);
        lemma_share_le(o2.s as int, sus, t);
        lemma_share_le(o2.w as int, sus, t);
        vstd::arithmetic::mul::lemma_mul_nonnegative(sus, o2.n as int);
        vstd::arithmetic::mul::lemma_mul_nonnegative(sus, o2.e as int);
        vstd::arithmetic::mul::lemma_mul_nonnegative(sus, o2.s as int);
        lemma_div_sum_le(sus * o2.n, sus * o2.e, t);
        lemma_div_sum_le(sus * o2.n + sus * o2.e, sus * o2.s, t);
        lemma_div_sum_le(sus * o2.n + sus * o2.e + sus * o2.s, sus * o2.w, t);
        assert(sus * o2.n + sus * o2.e + sus * o2.s + sus * o2.w == sus * t) by (nonlinear_arith)
            requires
                t == o2.n + o2.e + o2.s + o2.w,
        ;
        vstd::arithmetic::div_mod::lemma_div_multiples_vanish(sus, t);
        assert(sus * t == t * sus) by (nonlinear_arith);
    }
}

/// Total height at a coordinate pair, from the snapshot.
fn th_at(f: &HeightField, x: usize, y: usize) -> (r: u64)
    requires
        f.wf(),
        f.spec_in_grid(x as int, y as int),
    ensures
        r as int == spec_th_at(*f, (x as int, y as int)),
{
    f.cell(x, y).total_height()
}

/// Water level right after precipitation.
fn precipitated(f: &HeightField, x: usize, y: usize, p: &Params) -> (r: u64)
    requires
        f.wf(),
        f.spec_in_grid(x as int, y as int),
    ensures
        r as int == spec_precipitated_water(*f, x as int, y as int, *p),
{
    sat_add(f.cell(x, y).water, p.precipitation_rate)
}

/// Own total height as the outflow growth sees it.
fn theight1(f: &HeightField, x: usize, y: usize, p: &Params) -> (r: u64)
    requires
        f.wf(),
        f.spec_in_grid(x as int, y as int),
    ensures
        r as int == spec_th1(*f, x as int, y as int, *p),
{
    let c = f.cell(x, y);
    let rock_and_bed: u64 = sat_add(c.bedrock, c.bed_sediment);
    sat_add(rock_and_bed, precipitated(f, x, y, p))
}

/// One direction's grown outflow.
fn grown_flow(volume: u64, speed: u64, own_th: u64, nb_th: u64) -> (r: u64)
    ensures
        r as int == spec_grown_flow(volume as int, speed as int, own_th as int, nb_th as int),
{
    sat_sub(sat_add(volume, mul_fp(speed, own_th)), nb_th)
}

/// The four outflows after growth and conservation scaling.
fn outflow_scaled(f: &HeightField, x: usize, y: usize, p: &Params) -> (r: Dirs)
    requires
        f.wf(),
        f.spec_in_grid(x as int, y as int),
    ensures
        r == spec_outflow_scaled(*f, x as int, y as int, *p),
{
    proof {
        reveal(spec_outflow_grown);
        reveal(spec_outflow_scaled);
    }
    let nn = f.north(x, y);
    let ne = f.east(x, y);
    let ns = f.south(x, y);
    let nw = f.west(x, y);
    let th_n: u64 = th_at(f, nn.0, nn.1);
    let th_e: u64 = th_at(f, ne.0, ne.1);
    let th_s: u64 = th_at(f, ns.0, ns.1);
    let th_w: u64 = th_at(f, nw.0, nw.1);
    let th: u64 = theight1(f, x, y, p);
    let c = f.cell(x, y);
    let o1 = Dirs {
        n: grown_flow(c.outflow.n, c.flow_speed.n, th, th_n),
        e: grown_flow(c.outflow.e, c.flow_speed.e, th, th_e),
        s: grown_flow(c.outflow.s, c.flow_speed.s, th, th_s),
        w: grown_flow(c.outflow.w, c.flow_speed.w, th, th_w),
    };
    assert(o1 == spec_outflow_grown(*f, x as int, y as int, *p));
    let w1: u64 = precipitated(f, x, y, p);
    let t: u128 = o1.n as u128 + o1.e as u128 + o1.s as u128 + o1.w as u128;
    if t <= w1 as u128 {
        o1
    } else {
        proof {
            vstd::arithmetic::mul::lemma_mul_upper_bound(
                o1.n as int, u64::MAX as int, w1 as int, u64::MAX as int);
            vstd::arithmetic::mul::lemma_mul_upper_bound(
                o1.e as int, u64::MAX as int, w1 as int, u64::MAX as int);
            vstd::arithmetic::mul::lemma_mul_upper_bound(
                o1.s as int, u64::MAX as int, w1 as int, u64::MAX as int);
            vstd::arithmetic::mul::lemma_mul_upper_bound(
                o1.w as int, u64::MAX as int, w1 as int, u64::MAX as int);
            lemma_share_le(o1.n as int, w1 as int, t as int);
            lemma_share_le(o1.e as int, w1 as int, t as int);
            lemma_share_le(o1.s as int, w1 as int, t as int);
            lemma_share_le(o1.w as int, w1 as int, t as int);
        }
        Dirs {
            n: ((o1.n as u128) * (w1 as u128) / t) as u64,
            e: ((o1.e as u128) * (w1 as u128) / t) as u64,
            s: ((o1.s as u128) * (w1 as u128) / t) as u64,
            w: ((o1.w as u128) * (w1 as u128) / t) as u64,
        }
    }
}

/// Water arriving from each direction.
fn inflow(f: &HeightField, x: usize, y: usize, p: &Params) -> (r: Dirs)
    requires
        f.wf(),
        f.spec_in_grid(x as int, y as int),
    ensures
        r == spec_inflow(*f, x as int, y as int, *p),
{
    proof {
        reveal(spec_inflow);
    }
    let nn = f.north(x, y);
    let ne = f.east(x, y);
    let ns = f.south(x, y);
    let nw = f.west(x, y);
    let on = outflow_scaled(f, nn.0, nn.1, p);
    let oe = outflow_scaled(f, ne.0, ne.1, p);
    let os = outflow_scaled(f, ns.0, ns.1, p);
    let ow = outflow_scaled(f, nw.0, nw.1, p);
    Dirs {
        n: if y == f.height - 1 {
            on.n
        } else {
            on.s
        },
        e: oe.w,
        s: if y == 0 {
            os.s
        } else {
            os.n
        },
        w: ow.e,
    }
}

/// Next water level.
fn water_next(f: &HeightField, x: usize, y: usize, p: &Params) -> (r: u64)
    requires
        f.wf(),
        f.spec_in_grid(x as int, y as int),
    ensures
        r as int == spec_water_next(*f, x as int, y as int, *p),
{
    proof {
        reveal(spec_water_next);
    }
    let w1: u64 = precipitated(f, x, y, p);
    let o2 = outflow_scaled(f, x, y, p);
    let t2: u128 = o2.n as u128 + o2.e as u128 + o2.s as u128 + o2.w as u128;
    let base: u128 = if w1 as u128 >= t2 {
        w1 as u128 - t2
    } else {
        0
    };
    let inf = inflow(f, x, y, p);
    let s: u128 = base + inf.n as u128 + inf.e as u128 + inf.s as u128 + inf.w as u128;
    if s > u64::MAX as u128 {
        u64::MAX
    } else {
        s as u64
    }
}

/// Next per-direction flow speed.
fn speed_next(f: &HeightField, x: usize, y: usize, p: &Params) -> (r: Dirs)
    requires
        f.wf(),
        f.spec_in_grid(x as int, y as int),
    ensures
        r == spec_speed_next(*f, x as int, y as int, *p),
{
    proof {
        reveal(spec_speed_next);
    }
    let c = *f.cell(x, y);
    let inf = inflow(f, x, y, p);
    let o2 = outflow_scaled(f, x, y, p);
    Dirs {
        n: halved_capped(c.flow_speed.n, inf.n, o2.n),
        e: halved_capped(c.flow_speed.e, inf.e, o2.e),
        s: halved_capped(c.flow_speed.s, inf.s, o2.s),
        w: halved_capped(c.flow_speed.w, inf.w, o2.w),
    }
}

/// Half of a three-way sum, saturating at `u64::MAX`.
fn halved_capped(a: u64, b: u64, c: u64) -> (r: u64)
    ensures
        r as int == spec_cap((a + b + c) / 2),
{
    let s: u128 = (a as u128 + b as u128 + c as u128) / 2;
    if s > u64::MAX as u128 {
        u64::MAX
    } else {
        s as u64
    }
}

/// The within-cell sediment exchange. Returns the next bedrock and bed
/// sediment and the suspension before advection.
fn eroded(f: &HeightField, x: usize, y: usize, p: &Params) -> (r: (u64, u64, u64))
    requires
        f.wf(),
        f.spec_in_grid(x as int, y as int),
    ensures
        r.0 as int == spec_eroded(*f, x as int, y as int, *p).0,
        r.1 as int == spec_eroded(*f, x as int, y as int, *p).1,
        r.2 as int == spec_eroded(*f, x as int, y as int, *p).2,
{
    proof {
        reveal(spec_eroded);
        reveal(spec_slope);
        reveal(spec_avg_speed);
        reveal(spec_power);
        reveal(spec_capacity);
    }
    let c = *f.cell(x, y);
    let nn = f.north(x, y);
    let ne = f.east(x, y);
    let ns = f.south(x, y);
    let nw = f.west(x, y);
    let th_n: u64 = th_at(f, nn.0, nn.1);
    let th_e: u64 = th_at(f, ne.0, ne.1);
    let th_s: u64 = th_at(f, ns.0, ns.1);
    let th_w: u64 = th_at(f, nw.0, nw.1);
    let mut lowest: u64 = th_n;
    if th_e < lowest {
        lowest = th_e;
    }
    if th_s < lowest {
        lowest = th_s;
    }
    if th_w < lowest {
        lowest = th_w;
    }
    assert(lowest as int == spec_min4(th_n as int, th_e as int, th_s as int, th_w as int));
    let slope: u64 = sat_sub(theight1(f, x, y, p), lowest);
    let sp = speed_next(f, x, y, p);
    let avg: u64 = ((sp.n as u128 + sp.e as u128 + sp.s as u128 + sp.w as u128) / 4) as u64;
    let pw: u64 = mul_fp(sqrt_fp(avg), slope);
    let cap: u64 = mul_fp(p.capacity_k, pw);
    if c.suspended_sediment > mul_fp(cap, p.target_factor) {
        let sq: u64 = sqrt_fp(pw);
        let amount: u64 = if sq == 0 {
            0
        } else {
            mul_fp(div_fp(sat_sub(c.suspended_sediment, cap), sq), p.deposition_rate)
        };
        let moved: u64 = if amount < c.suspended_sediment {
            amount
        } else {
            c.suspended_sediment
        };
        (c.bedrock, sat_add(c.bed_sediment, moved), c.suspended_sediment - moved)
    } else if c.bed_sediment < mul_fp(cap, BED_GUARD) {
        let amount: u64 = mul_fp(mul_fp(sat_sub(cap, c.suspended_sediment), sqrt_fp(pw)), p.erosion_rate);
        let moved: u64 = if amount < c.bedrock {
            amount
        } else {
            c.bedrock
        };
        (c.bedrock - moved, c.bed_sediment, sat_add(c.suspended_sediment, moved))
    } else {
        let amount: u64 = mul_fp(mul_fp(sat_sub(cap, c.suspended_sediment), sqrt_fp(pw)), p.erosion_rate);
        let moved: u64 = if amount < c.bed_sediment {
            amount
        } else {
            c.bed_sediment
        };
        (c.bedrock, c.bed_sediment - moved, sat_add(c.suspended_sediment, moved))
    }
}

/// Suspended sediment leaving toward each neighbor.
fn sed_out(f: &HeightField, x: usize, y: usize, p: &Params) -> (r: Dirs)
    requires
        f.wf(),
        f.spec_in_grid(x as int, y as int),
    ensures
        r == spec_sed_out(*f, x as int, y as int, *p),
{
    proof {
        reveal(spec_sed_out);
    }
    let o2 = outflow_scaled(f, x, y, p);
    let e = eroded(f, x, y, p);
    let sus: u64 = e.2;
    let t: u128 = o2.n as u128 + o2.e as u128 + o2.s as u128 + o2.w as u128;
    if t == 0 {
        Dirs::zero()
    } else {
        proof {
            vstd::arithmetic::mul::lemma_mul_upper_bound(
                sus as int, u64::MAX as int, o2.n as int, u64::MAX as int);
            vstd::arithmetic::mul::lemma_mul_upper_bound(
                sus as int, u64::MAX as int, o2.e as int, u64::MAX as int);
            vstd::arithmetic::mul::lemma_mul_upper_bound(
                sus as int, u64::MAX as int, o2.s as int, u64::MAX as int);
            vstd::arithmetic::mul::lemma_mul_upper_bound(
                sus as int, u64::MAX as int, o2.w as int, u64::MAX as int);
            lemma_share_le(o2.n as int, sus as int, t as int);
            lemma_share_le(o2.e as int, sus as int, t as int);
            lemma_share_le(o2.s as int, sus as int, t as int);
            lemma_share_le(o2.w as int, sus as int, t as int);
        }
        Dirs {
            n: ((sus as u128) * (o2.n as u128) / t) as u64,
            e: ((sus as u128) * (o2.e as u128) / t) as u64,
            s: ((sus as u128) * (o2.s as u128) / t) as u64,
            w: ((sus as u128) * (o2.w as u128) / t) as u64,
        }
    }
}

/// Suspended sediment arriving from each direction.
fn sed_in(f: &HeightField, x: usize, y: usize, p: &Params) -> (r: Dirs)
    requires
        f.wf(),
        f.spec_in_grid(x as int, y as int),
    ensures
        r == spec_sed_in(*f, x as int, y as int, *p),
{
    proof {
        reveal(spec_sed_in);
    }
    let nn = f.north(x, y);
    let ne = f.east(x, y);
    let ns = f.south(x, y);
    let nw = f.west(x, y);
    let on = sed_out(f, nn.0, nn.1, p);
    let oe = sed_out(f, ne.0, ne.1, p);
    let os = sed_out(f, ns.0, ns.1, p);
    let ow = sed_out(f, nw.0, nw.1, p);
    Dirs {
        n: if y == f.height - 1 {
            on.n
        } else {
            on.s
        },
        e: oe.w,
        s: if y == 0 {
            os.s
        } else {
            os.n
        },
        w: ow.e,
    }
}

/// The whole per-cell transition, executably.
fn next_cell(f: &HeightField, x: usize, y: usize, p: &Params) -> (c: Cell)
    requires
        f.wf(),
        f.spec_in_grid(x as int, y as int),
    ensures
        c == spec_next_cell(*f, x as int, y as int, *p),
{
    proof {
        reveal(spec_next_cell);
        reveal(spec_sus_next);
    }
    let er = eroded(f, x, y, p);
    let so = sed_out(f, x, y, p);
    let si = sed_in(f, x, y, p);
    proof {
        lemma_sed_out_le_sus(*f, x as int, y as int, *p);
    }
    let so_t: u128 = so.n as u128 + so.e as u128 + so.s as u128 + so.w as u128;
    let base: u64 = er.2 - (so_t as u64);
    let si_t: u128 = si.n as u128 + si.e as u128 + si.s as u128 + si.w as u128;
    let sum: u128 = base as u128 + si_t;
    let sus: u64 = if sum > u64::MAX as u128 {
        u64::MAX
    } else {
        sum as u64
    };
    Cell {
        bedrock: er.0,
        bed_sediment: er.1,
        suspended_sediment: sus,
        water: water_next(f, x, y, p),
        outflow: outflow_scaled(f, x, y, p),
        flow_speed: speed_next(f, x, y, p),
    }
}

/// Advances a `HeightField` by whole simulation ticks.
pub struct ErosionStepper;

impl ErosionStepper {
    /// Advance the field by one tick: every cell takes the value of the
    /// per-cell transition applied to the previous state, as if all cells
    /// were updated at once.
    pub fn step(field: &mut HeightField, params: &Params)
        requires
            old(field).wf(),
        ensures
            final(field).wf(),
            final(field).width == old(field).width,
            final(field).height == old(field).height,
            forall|x: int, y: int|
                old(field).spec_in_grid(x, y) ==> final(field).spec_cell(x, y) == spec_next_cell(
                    *old(field),
                    x,
                    y,
                    *params,
                ),
    {
        let w: usize = field.width;
        let h: usize = field.height;
        let ghost snapshot = *field;
        let mut next: Vec<Cell> = Vec::new();
        let mut y: usize = 0;
        while y < h
            invariant
                *field == snapshot,
                field.wf(),
                field.width == w,
                field.height == h,
                y <= h,
                next@.len() == y * w,
                forall|i: int|
                    0 <= i < next@.len() ==> next@[i] == spec_next_cell(
                        snapshot,
                        i % (w as int),
                        i / (w as int),
                        *params,
                    ),
            decreases h - y,
        {
            let mut x: usize = 0;
            while x < w
                invariant
                    *field == snapshot,
                    field.wf(),
                    field.width == w,
                    field.height == h,
                    y < h,
                    x <= w,
                    next@.len() == y * w + x,
                    forall|i: int|
                        0 <= i < next@.len() ==> next@[i] == spec_next_cell(
                            snapshot,
                            i % (w as int),
                            i / (w as int),
                            *params,
                        ),
                decreases w - x,
            {
                proof {
                    crate::field::lemma_idx_in_range(*field, x as int, y as int);
                    vstd::arithmetic::div_mod::lemma_fundamental_div_mod_converse(
                        y * w + x,
                        w as int,
                        y as int,
                        x as int,
                    );
                }
                next.push(next_cell(field, x, y, params));
                x = x + 1;
            }
            proof {
                assert((y + 1) * w == y * w + w) by (nonlinear_arith);
            }
            y = y + 1;
        }
        field.cells = next;
        proof {
            assert(field.cells@.len() == w * h) by (nonlinear_arith)
                requires
                    field.cells@.len() == h * w,
            ;
            assert forall|xx: int, yy: int| snapshot.spec_in_grid(xx, yy) implies field.spec_cell(
                xx,
                yy,
            ) == spec_next_cell(snapshot, xx, yy, *params) by {
                crate::field::lemma_idx_in_range(*field, xx, yy);
                vstd::arithmetic::div_mod::lemma_fundamental_div_mod_converse(
                    yy * w + xx,
                    w as int,
                    yy,
                    xx,
                );
            }
        }
    }
}

/// The sediment exchange only moves mass between the cell's reservoirs:
/// with headroom against saturation, bedrock, bed sediment and suspension
/// sum to exactly what they did before, each staying nonnegative and
/// bedrock never growing.
pub proof fn lemma_eroded_exchange(f: HeightField, x: int, y: int, p: Params)
    requires
        f.spec_cell(x, y).bedrock + f.spec_cell(x, y).bed_sediment + f.spec_cell(
            x,
            y,
        ).suspended_sediment <= u64::MAX,
    ensures
        spec_eroded(f, x, y, p).0 + spec_eroded(f, x, y, p).1 + spec_eroded(f, x, y, p).2
            == f.spec_cell(x, y).bedrock + f.spec_cell(x, y).bed_sediment + f.spec_cell(
            x,
            y,
        ).suspended_sediment,
        0 <= spec_eroded(f, x, y, p).0 <= f.spec_cell(x, y).bedrock,
        0 <= spec_eroded(f, x, y, p).1,
        0 <= spec_eroded(f, x, y, p).2,
        spec_eroded(f, x, y, p).2 <= f.spec_cell(x, y).bedrock + f.spec_cell(x, y).bed_sediment
            + f.spec_cell(x, y).suspended_sediment,
{
    reveal(spec_eroded);
    lemma_next_cell_in_range(f, x, y, p);
}

/// The per-cell transition never produces a negative quantity: every
/// component of the next cell, read as an unbounded integer before it is
/// stored, lies in the representable range. Clamping, not sign, absorbs
/// every would-be negative update.
pub proof fn lemma_next_cell_in_range(f: HeightField, x: int, y: int, p: Params)
    ensures
        0 <= spec_eroded(f, x, y, p).0 <= f.spec_cell(x, y).bedrock,
        0 <= spec_eroded(f, x, y, p).1 <= u64::MAX,
        0 <= spec_eroded(f, x, y, p).2 <= u64::MAX,
        0 <= spec_water_next(f, x, y, p) <= u64::MAX,
        0 <= spec_sus_next(f, x, y, p) <= u64::MAX,
{
    reveal(spec_eroded);
    reveal(spec_water_next);
    reveal(spec_sus_next);
    let c = f.spec_cell(x, y);
    let cap = spec_capacity(f, x, y, p);
    let pw = spec_power(f, x, y, p);
    lemma_capacity_nonneg(f, x, y, p);
    if c.suspended_sediment > spec_mul_fp(cap, p.target_factor as int) {
        let sq = spec_sqrt_fp(pw);
        if sq != 0 {
            crate::fixed::lemma_div_fp_bounds(
                spec_sat_sub(c.suspended_sediment as int, cap),
                sq,
            );
            crate::fixed::lemma_mul_fp_bounds(
                spec_div_fp(spec_sat_sub(c.suspended_sediment as int, cap), sq),
                p.deposition_rate as int,
            );
        }
    } else {
        lemma_power_nonneg(f, x, y, p);
        crate::fixed::lemma_sqrt_fp_bounds(pw);
        crate::fixed::lemma_mul_fp_bounds(
            spec_sat_sub(cap, c.suspended_sediment as int),
            spec_sqrt_fp(pw),
        );
        crate::fixed::lemma_mul_fp_bounds(
            spec_mul_fp(spec_sat_sub(cap, c.suspended_sediment as int), spec_sqrt_fp(pw)),
            p.erosion_rate as int,
        );
    }
    lemma_sed_out_le_sus(f, x, y, p);
}

/// Stream power is in the representable range.
proof fn lemma_power_nonneg(f: HeightField, x: int, y: int, p: Params)
    ensures
        0 <= spec_power(f, x, y, p) <= u64::MAX,
{
    reveal(spec_power);
    reveal(spec_avg_speed);
    reveal(spec_slope);
    crate::fixed::lemma_sqrt_fp_bounds(spec_avg_speed(f, x, y, p));
    crate::fixed::lemma_mul_fp_bounds(
        spec_sqrt_fp(spec_avg_speed(f, x, y, p)),
        spec_slope(f, x, y, p),
    );
}

/// Carrying capacity is in the representable range.
proof fn lemma_capacity_nonneg(f: HeightField, x: int, y: int, p: Params)
    ensures
        0 <= spec_capacity(f, x, y, p) <= u64::MAX,
{
    reveal(spec_capacity);
    lemma_power_nonneg(f, x, y, p);
    crate::fixed::lemma_mul_fp_bounds(p.capacity_k as int, spec_power(f, x, y, p));
}

/// A field is still at height `th0` when every cell's stacked total height
/// is `th0` and no outflow or flow speed is in motion anywhere.
pub open spec fn spec_still(f: HeightField, th0: int) -> bool {
    forall|x: int, y: int|
        f.spec_in_grid(x, y) ==> {
            &&& (#[trigger] f.spec_cell(x, y)).spec_total_height() == th0
            &&& f.spec_cell(x, y).outflow == Dirs::spec_zero()
            &&& f.spec_cell(x, y).flow_speed == Dirs::spec_zero()
        }
}

/// On a still field a tick does nothing but precipitate: no outflow starts,
/// no speed builds, no sediment moves, and the water level rises by exactly
/// the precipitation rate. A flat world stays flat.
pub proof fn lemma_still_field_tick(f: HeightField, x: int, y: int, p: Params, th0: int)
    requires
        f.wf(),
        f.spec_in_grid(x, y),
        spec_still(f, th0),
    ensures
        spec_next_cell(f, x, y, p) == (Cell {
            water: spec_sat_add(
                f.spec_cell(x, y).water as int,
                p.precipitation_rate as int,
            ) as u64,
            ..f.spec_cell(x, y)
        }),
{
    reveal(spec_next_cell);
    reveal(spec_water_next);
    reveal(spec_speed_next);
    reveal(spec_inflow);
    reveal(spec_eroded);
    reveal(spec_sus_next);
    reveal(spec_sed_out);
    reveal(spec_sed_in);
    reveal(spec_power);
    reveal(spec_capacity);
    reveal(spec_avg_speed);
    reveal(spec_slope);
    crate::field::lemma_neighbors_in_grid(f, x, y);
    let nn = f.spec_north(x, y);
    let ne = f.spec_east(x, y);
    let ns = f.spec_south(x, y);
    let nw = f.spec_west(x, y);
    lemma_still_cell_no_outflow(f, x, y, p, th0);
    lemma_still_cell_no_outflow(f, nn.0, nn.1, p, th0);
    lemma_still_cell_no_outflow(f, ne.0, ne.1, p, th0);
    lemma_still_cell_no_outflow(f, ns.0, ns.1, p, th0);
    lemma_still_cell_no_outflow(f, nw.0, nw.1, p, th0);
    let c = f.spec_cell(x, y);
    assert(spec_inflow(f, x, y, p) == Dirs::spec_zero());
    assert(spec_speed_next(f, x, y, p) == Dirs::spec_zero());
    assert(spec_avg_speed(f, x, y, p) == 0) by {
        reveal(spec_avg_speed);
    }
    assert(spec_sqrt_fp(0) == 0) by {
        assert(spec_isqrt(0nat) == 0);
    }
    assert(spec_power(f, x, y, p) == 0) by {
        crate::fixed::lemma_mul_fp_zero(spec_slope(f, x, y, p));
    }
    assert(spec_capacity(f, x, y, p) == 0) by {
        crate::fixed::lemma_mul_fp_zero(p.capacity_k as int);
    }
    crate::fixed::lemma_mul_fp_zero(p.target_factor as int);
    crate::fixed::lemma_mul_fp_zero(BED_GUARD as int);
    crate::fixed::lemma_mul_fp_zero(p.erosion_rate as int);
    assert(spec_eroded(f, x, y, p) == (c.bedrock as int, c.bed_sediment as int,
    c.suspended_sediment as int)) by {
        reveal(spec_eroded);
        crate::fixed::lemma_mul_fp_zero(spec_sqrt_fp(spec_power(f, x, y, p)));
    }
    assert(spec_sed_in(f, x, y, p) == Dirs::spec_zero());
    assert(spec_sus_next(f, x, y, p) == c.suspended_sediment as int);
    assert(spec_water_next(f, x, y, p) == spec_sat_add(
        c.water as int,
        p.precipitation_rate as int,
    ));
}

/// A cell with no outflow and no flow speed emits nothing this tick, and
/// sends no sediment, whatever the surrounding heights.
pub proof fn lemma_still_cell_no_outflow(f: HeightField, x: int, y: int, p: Params, th0: int)
    requires
        f.wf(),
        f.spec_in_grid(x, y),
        spec_still(f, th0),
    ensures
        spec_outflow_scaled(f, x, y, p) == Dirs::spec_zero(),
        spec_sed_out(f, x, y, p) == Dirs::spec_zero(),
{
    reveal(spec_outflow_scaled);
    reveal(spec_outflow_grown);
    reveal(spec_sed_out);
    assert(f.spec_cell(x, y).outflow == Dirs::spec_zero());
}

/// Every cell's four mass reservoirs stay at or below `b`.
pub open spec fn spec_mass_bounded(f: HeightField, b: int) -> bool {
    forall|x: int, y: int|
        f.spec_in_grid(x, y) ==> {
            &&& (#[trigger] f.spec_cell(x, y)).bedrock <= b
            &&& f.spec_cell(x, y).bed_sediment <= b
            &&& f.spec_cell(x, y).suspended_sediment <= b
            &&& f.spec_cell(x, y).water <= b
        }
}

/// The mass ledger of one tick, per cell: the next total mass is the old
/// total mass plus precipitation, plus what flowed and advected in, minus
/// what flowed and advected out. Erosion, deposition and dissolution only
/// move mass between the cell's own reservoirs; nothing else creates or
/// destroys any. The bound `b` gives the arithmetic headroom that keeps
/// every intermediate below the saturation ceiling.
pub proof fn lemma_cell_mass_accounting(f: HeightField, x: int, y: int, p: Params, b: int)
    requires
        f.wf(),
        f.spec_in_grid(x, y),
        0 <= b,
        16 * b <= u64::MAX,
        p.precipitation_rate <= b,
        spec_mass_bounded(f, b),
    ensures
        spec_next_cell(f, x, y, p).spec_mass() == f.spec_cell(x, y).spec_mass()
            + p.precipitation_rate + spec_inflow(f, x, y, p).spec_total() - spec_outflow_scaled(
            f,
            x,
            y,
            p,
        ).spec_total() + spec_sed_in(f, x, y, p).spec_total() - spec_sed_out(
            f,
            x,
            y,
            p,
        ).spec_total(),
{
    reveal(spec_next_cell);
    reveal(spec_water_next);
    reveal(spec_sus_next);
    reveal(spec_inflow);
    reveal(spec_sed_in);
    crate::field::lemma_neighbors_in_grid(f, x, y);
    let nn = f.spec_north(x, y);
    let ne = f.spec_east(x, y);
    let ns = f.spec_south(x, y);
    let nw = f.spec_west(x, y);
    lemma_scaled_total_le_water(f, x, y, p);
    lemma_scaled_total_le_water(f, nn.0, nn.1, p);
    lemma_scaled_total_le_water(f, ne.0, ne.1, p);
    lemma_scaled_total_le_water(f, ns.0, ns.1, p);
    lemma_scaled_total_le_water(f, nw.0, nw.1, p);
    lemma_eroded_exchange(f, x, y, p);
    lemma_eroded_exchange(f, nn.0, nn.1, p);
    lemma_eroded_exchange(f, ne.0, ne.1, p);
    lemma_eroded_exchange(f, ns.0, ns.1, p);
    lemma_eroded_exchange(f, nw.0, nw.1, p);
    lemma_sed_out_le_sus(f, x, y, p);
    lemma_sed_out_le_sus(f, nn.0, nn.1, p);
    lemma_sed_out_le_sus(f, ne.0, ne.1, p);
    lemma_sed_out_le_sus(f, ns.0, ns.1, p);
    lemma_sed_out_le_sus(f, nw.0, nw.1, p);
}

/// Anything sent along the grid's directed edges is received exactly once:
/// for any four per-direction quantities leaving each cell, the grid total
/// of what arrives — each neighbor's component pointed back at the cell,
/// with the antipodal twist at the poles — equals the grid total of what
/// leaves. East/west wraps are one turn of a ring, the pole rows trade with
/// themselves half a turn around, and interior rows hand north and south
/// components up and down by one row; every reindexing is a bijection, so
/// the sums agree.
pub proof fn lemma_directed_exchange_balance(
    w: nat,
    h: nat,
    qn: spec_fn(int, int) -> int,
    qe: spec_fn(int, int) -> int,
    qs: spec_fn(int, int) -> int,
    qw: spec_fn(int, int) -> int,
    intotal: spec_fn(int, int) -> int,
    outtotal: spec_fn(int, int) -> int,
)
    requires
        w >= 1,
        h >= 1,
        forall|x: int, y: int|
            0 <= x < w && 0 <= y < h ==> #[trigger] outtotal(x, y) == qn(x, y) + qe(x, y) + qs(
                x,
                y,
            ) + qw(x, y),
        forall|x: int, y: int|
            0 <= x < w && 0 <= y < h ==> #[trigger] intotal(x, y) == (if y == h - 1 {
                qn((x + (w as int) / 2) % (w as int), y)
            } else {
                qs(x, y + 1)
            }) + qw((x + 1) % (w as int), y) + (if y == 0 {
                qs((x + (w as int) / 2) % (w as int), 0)
            } else {
                qn(x, y - 1)
            }) + qe((x + (w as int) - 1) % (w as int), y),
    ensures
        grid_sum(intotal, w, h) == grid_sum(outtotal, w, h),
{
    let wi = w as int;
    let hi = h as int;
    let k = wi / 2;
    let rn = |y: int| sum_upto(|x: int| qn(x, y), w);
    let re = |y: int| sum_upto(|x: int| qe(x, y), w);
    let rs = |y: int| sum_upto(|x: int| qs(x, y), w);
    let rw = |y: int| sum_upto(|x: int| qw(x, y), w);
    let rin = |y: int| sum_upto(|x: int| intotal(x, y), w);
    let rout = |y: int| sum_upto(|x: int| outtotal(x, y), w);
    let fromn = |y: int|
        if y == hi - 1 {
            rn(hi - 1)
        } else {
            rs(y + 1)
        };
    let frome = |y: int| rw(y);
    let froms = |y: int|
        if y == 0 {
            rs(0)
        } else {
            rn(y - 1)
        };
    let fromw = |y: int| re(y);

    // each row's arrivals are the four reindexed departures
    assert forall|y: int| 0 <= y < h implies #[trigger] rin(y) == fromn(y) + frome(y) + froms(y)
        + fromw(y) by {
        let inn = |x: int|
            if y == hi - 1 {
                qn((x + k) % wi, y)
            } else {
                qs(x, y + 1)
            };
        let ine = |x: int| qw((x + 1) % wi, y);
        let ins = |x: int|
            if y == 0 {
                qs((x + k) % wi, 0)
            } else {
                qn(x, y - 1)
            };
        let inw = |x: int| qe((x + wi - 1) % wi, y);
        let pair_ne = |x: int| inn(x) + ine(x);
        let pair_sw = |x: int| ins(x) + inw(x);
        lemma_sum_range_add(pair_ne, pair_sw, |x: int| intotal(x, y), 0, w);
        lemma_sum_range_add(inn, ine, pair_ne, 0, w);
        lemma_sum_range_add(ins, inw, pair_sw, 0, w);
        lemma_sum_cyclic_shift(|x: int| qw(x, y), ine, w, 1);
        lemma_sum_cyclic_shift(|x: int| qe(x, y), inw, w, wi - 1);
        if y == hi - 1 {
            lemma_sum_cyclic_shift(|x: int| qn(x, y), inn, w, k);
        } else {
            lemma_sum_range_congruence(inn, |x: int| qs(x, y + 1), 0, w);
        }
        if y == 0 {
            lemma_sum_cyclic_shift(|x: int| qs(x, 0), ins, w, k);
        } else {
            lemma_sum_range_congruence(ins, |x: int| qn(x, y - 1), 0, w);
        }
    }

    // each row's departures are the four components
    assert forall|y: int| 0 <= y < h implies #[trigger] rout(y) == rn(y) + re(y) + rs(y) + rw(
        y,
    ) by {
        let pair_ne = |x: int| qn(x, y) + qe(x, y);
        let pair_sw = |x: int| qs(x, y) + qw(x, y);
        lemma_sum_range_add(pair_ne, pair_sw, |x: int| outtotal(x, y), 0, w);
        lemma_sum_range_add(|x: int| qn(x, y), |x: int| qe(x, y), pair_ne, 0, w);
        lemma_sum_range_add(|x: int| qs(x, y), |x: int| qw(x, y), pair_sw, 0, w);
    }

    // stack the rows on both sides
    let pair_in_ne = |y: int| fromn(y) + frome(y);
    let pair_in_sw = |y: int| froms(y) + fromw(y);
    lemma_sum_range_add(pair_in_ne, pair_in_sw, rin, 0, h);
    lemma_sum_range_add(fromn, frome, pair_in_ne, 0, h);
    lemma_sum_range_add(froms, fromw, pair_in_sw, 0, h);
    let pair_out_ne = |y: int| rn(y) + re(y);
    let pair_out_sw = |y: int| rs(y) + rw(y);
    lemma_sum_range_add(pair_out_ne, pair_out_sw, rout, 0, h);
    lemma_sum_range_add(rn, re, pair_out_ne, 0, h);
    lemma_sum_range_add(rs, rw, pair_out_sw, 0, h);

    // the north arrivals are the south departures of rows 1..h plus the top
    // row's own northward trade across the pole
    assert(sum_upto(fromn, h) == sum_range(rs, 1, (h - 1) as nat) + rn(hi - 1)) by {
        lemma_sum_range_concat(fromn, 0, (h - 1) as nat, 1);
        lemma_sum_range_offset(rs, fromn, 0, 1, (h - 1) as nat);
    }
    // the south arrivals are the north departures of rows 0..h-1 plus the
    // bottom row's own southward trade across the pole
    assert(sum_upto(froms, h) == rs(0) + sum_range(rn, 0, (h - 1) as nat)) by {
        lemma_sum_range_concat(froms, 0, 1, (h - 1) as nat);
        assert(sum_range(froms, 0, 0) == 0);
        assert(sum_range(froms, 0, 1) == sum_range(froms, 0, 0) + froms(0));
        assert forall|y: int| 1 <= y < 1 + (h - 1) implies #[trigger] froms(y) == rn(y + (-1))
            by {}
        lemma_sum_range_offset(rn, froms, 1, -1, (h - 1) as nat);
    }
    lemma_sum_range_concat(rs, 0, 1, (h - 1) as nat);
    lemma_sum_range_concat(rn, 0, (h - 1) as nat, 1);
    assert(sum_range(rs, 0, 0) == 0);
    assert(sum_range(rs, 0, 1) == sum_range(rs, 0, 0) + rs(0));
    assert(sum_range(rn, hi - 1, 0) == 0);
    assert(sum_range(rn, hi - 1, 1) == sum_range(rn, hi - 1, 0) + rn(hi - 1));
    lemma_sum_range_congruence(frome, rw, 0, h);
    lemma_sum_range_congruence(fromw, re, 0, h);
}

/// Total mass held by a run of cells: bedrock, bed sediment, suspension and
/// water of every cell summed, as an unbounded integer.
pub open spec fn spec_grid_mass(cells: Seq<Cell>) -> int
    decreases cells.len(),
{
    if cells.len() == 0 {
        0
    } else {
        spec_grid_mass(cells.drop_last()) + cells.last().spec_mass()
    }
}

/// Total mass of a run of cells equals the flat sum of per-cell masses.
proof fn lemma_grid_mass_is_flat_sum(cells: Seq<Cell>, flat: spec_fn(int) -> int)
    requires
        forall|i: int| 0 <= i < cells.len() ==> #[trigger] flat(i) == cells[i].spec_mass(),
    ensures
        spec_grid_mass(cells) == sum_upto(flat, cells.len()),
    decreases cells.len(),
{
    if cells.len() > 0 {
        lemma_grid_mass_is_flat_sum(cells.drop_last(), flat);
    }
}

/// The mass ledger of a whole tick: over any grid whose reservoirs leave
/// the arithmetic headroom `b`, one step changes the total system mass by
/// exactly the precipitation poured in — one rate's worth per cell. Every
/// outflow and every advected grain of sediment lands in exactly one
/// neighbor, so transport moves mass without creating or destroying it.
pub proof fn lemma_step_total_mass(f: HeightField, g: HeightField, p: Params, b: int)
    requires
        f.wf(),
        0 <= b,
        16 * b <= u64::MAX,
        p.precipitation_rate <= b,
        spec_mass_bounded(f, b),
        g.width == f.width,
        g.height == f.height,
        g.cells@.len() == f.cells@.len(),
        forall|x: int, y: int|
            f.spec_in_grid(x, y) ==> #[trigger] g.spec_cell(x, y) == spec_next_cell(f, x, y, p),
    ensures
        spec_grid_mass(g.cells@) == spec_grid_mass(f.cells@) + (f.width as int) * (
        f.height as int) * p.precipitation_rate,
{
    let w = f.width as nat;
    let h = f.height as nat;
    let wi = w as int;
    let hi = h as int;
    let massq = |x: int, y: int| f.spec_cell(x, y).spec_mass();
    let nextmassq = |x: int, y: int| spec_next_cell(f, x, y, p).spec_mass();
    let inq = |x: int, y: int| spec_inflow(f, x, y, p).spec_total();
    let outq = |x: int, y: int| spec_outflow_scaled(f, x, y, p).spec_total();
    let sinq = |x: int, y: int| spec_sed_in(f, x, y, p).spec_total();
    let soutq = |x: int, y: int| spec_sed_out(f, x, y, p).spec_total();
    let precq = |x: int, y: int| p.precipitation_rate as int;

    // the two grids' total masses, as grid sums
    let flatf = |i: int| f.cells@[i].spec_mass();
    let flatg = |i: int| g.cells@[i].spec_mass();
    lemma_grid_mass_is_flat_sum(f.cells@, flatf);
    lemma_grid_mass_is_flat_sum(g.cells@, flatg);
    assert(f.cells@.len() == w * h);
    assert forall|i: int| 0 <= i < w * h implies #[trigger] flatf(i) == massq(
        i % wi,
        i / wi,
    ) by {
        lemma_flat_coords(f, i);
    }
    lemma_flat_sum_is_grid_sum(flatf, massq, w, h);
    assert forall|i: int| 0 <= i < w * h implies #[trigger] flatg(i) == nextmassq(
        i % wi,
        i / wi,
    ) by {
        lemma_flat_coords(f, i);
        assert(g.wf());
        lemma_flat_coords(g, i);
        assert(g.spec_cell(i % wi, i / wi) == spec_next_cell(f, i % wi, i / wi, p));
    }
    lemma_flat_sum_is_grid_sum(flatg, nextmassq, w, h);

    // the per-cell ledger, rearranged without subtraction
    let lhs_pair = |x: int, y: int| outq(x, y) + soutq(x, y);
    let lhs = |x: int, y: int| nextmassq(x, y) + lhs_pair(x, y);
    let rhs_p1 = |x: int, y: int| massq(x, y) + precq(x, y);
    let rhs_p2 = |x: int, y: int| inq(x, y) + sinq(x, y);
    let rhs = |x: int, y: int| rhs_p1(x, y) + rhs_p2(x, y);
    assert forall|x: int, y: int| 0 <= x < w && 0 <= y < h implies #[trigger] lhs(x, y) == rhs(
        x,
        y,
    ) by {
        lemma_cell_mass_accounting(f, x, y, p, b);
    }
    lemma_grid_sum_add(outq, soutq, lhs_pair, w, h);
    lemma_grid_sum_add(nextmassq, lhs_pair, lhs, w, h);
    lemma_grid_sum_add(massq, precq, rhs_p1, w, h);
    lemma_grid_sum_add(inq, sinq, rhs_p2, w, h);
    lemma_grid_sum_add(rhs_p1, rhs_p2, rhs, w, h);
    lemma_grid_sum_congruence(lhs, rhs, w, h);

    // water and sediment transport both balance across the grid
    lemma_transport_balances(f, p);
    lemma_grid_sum_const(precq, p.precipitation_rate as int, w, h);
}

/// Helper naming the flat-to-coordinate step: flat index `i` addresses the
/// cell at column `i % w`, row `i / w`.
proof fn lemma_flat_coords(f: HeightField, i: int)
    requires
        f.wf(),
        0 <= i < f.width * f.height,
    ensures
        f.spec_in_grid(i % (f.width as int), i / (f.width as int)),
        f.spec_cell(i % (f.width as int), i / (f.width as int)) == f.cells@[i],
{
    let wi = f.width as int;
    let hi = f.height as int;
    vstd::arithmetic::div_mod::lemma_fundamental_div_mod(i, wi);
    vstd::arithmetic::div_mod::lemma_mod_bound(i, wi);
    vstd::arithmetic::div_mod::lemma_div_pos_is_pos(i, wi);
    assert(i < wi * hi) by (nonlinear_arith)
        requires
            i < f.width * f.height,
            wi == f.width,
            hi == f.height,
    ;
    vstd::arithmetic::div_mod::lemma_multiply_divide_lt(i, wi, hi);
    assert((i / wi) * wi + i % wi == i) by (nonlinear_arith)
        requires
            i == wi * (i / wi) + i % wi,
    ;
}

/// Both transported quantities — scaled water outflow and advected
/// sediment — arrive exactly where they were sent: the grid totals of
/// inflow and outflow agree, and likewise for the sediment shares.
pub proof fn lemma_transport_balances(f: HeightField, p: Params)
    requires
        f.wf(),
    ensures
        grid_sum(
            |x: int, y: int| spec_inflow(f, x, y, p).spec_total(),
            f.width as nat,
            f.height as nat,
        ) == grid_sum(
            |x: int, y: int| spec_outflow_scaled(f, x, y, p).spec_total(),
            f.width as nat,
            f.height as nat,
        ),
        grid_sum(
            |x: int, y: int| spec_sed_in(f, x, y, p).spec_total(),
            f.width as nat,
            f.height as nat,
        ) == grid_sum(
            |x: int, y: int| spec_sed_out(f, x, y, p).spec_total(),
            f.width as nat,
            f.height as nat,
        ),
{
    let w = f.width as nat;
    let h = f.height as nat;
    let wi = w as int;
    let hi = h as int;
    let qn = |x: int, y: int| spec_outflow_scaled(f, x, y, p).n as int;
    let qe = |x: int, y: int| spec_outflow_scaled(f, x, y, p).e as int;
    let qs = |x: int, y: int| spec_outflow_scaled(f, x, y, p).s as int;
    let qw = |x: int, y: int| spec_outflow_scaled(f, x, y, p).w as int;
    let inq = |x: int, y: int| spec_inflow(f, x, y, p).spec_total();
    let outq = |x: int, y: int| spec_outflow_scaled(f, x, y, p).spec_total();
    assert forall|x: int, y: int| 0 <= x < w && 0 <= y < h implies #[trigger] inq(x, y) == (
    if y == hi - 1 {
        qn((x + wi / 2) % wi, y)
    } else {
        qs(x, y + 1)
    }) + qw((x + 1) % wi, y) + (if y == 0 {
        qs((x + wi / 2) % wi, 0)
    } else {
        qn(x, y - 1)
    }) + qe((x + wi - 1) % wi, y) by {
        reveal(spec_inflow);
    }
    lemma_directed_exchange_balance(w, h, qn, qe, qs, qw, inq, outq);
    let sn = |x: int, y: int| spec_sed_out(f, x, y, p).n as int;
    let se = |x: int, y: int| spec_sed_out(f, x, y, p).e as int;
    let ss = |x: int, y: int| spec_sed_out(f, x, y, p).s as int;
    let sw = |x: int, y: int| spec_sed_out(f, x, y, p).w as int;
    let sinq = |x: int, y: int| spec_sed_in(f, x, y, p).spec_total();
    let soutq = |x: int, y: int| spec_sed_out(f, x, y, p).spec_total();
    assert forall|x: int, y: int| 0 <= x < w && 0 <= y < h implies #[trigger] sinq(x, y) == (
    if y == hi - 1 {
        sn((x + wi / 2) % wi, y)
    } else {
        ss(x, y + 1)
    }) + sw((x + 1) % wi, y) + (if y == 0 {
        ss((x + wi / 2) % wi, 0)
    } else {
        sn(x, y - 1)
    }) + se((x + wi - 1) % wi, y) by {
        reveal(spec_sed_in);
    }
    lemma_directed_exchange_balance(w, h, sn, se, ss, sw, sinq, soutq);
}

/// With no precipitation, a still field is a fixed point of the tick: every
/// cell — and with it the total system mass — is exactly what it was. No
/// flow starts between equal-height neighbors, so nothing enters, leaves or
/// moves.
pub proof fn lemma_still_field_mass(f: HeightField, g: HeightField, p: Params, th0: int)
    requires
        f.wf(),
        spec_still(f, th0),
        p.precipitation_rate == 0,
        g.width == f.width,
        g.height == f.height,
        g.cells@.len() == f.cells@.len(),
        forall|x: int, y: int|
            f.spec_in_grid(x, y) ==> #[trigger] g.spec_cell(x, y) == spec_next_cell(f, x, y, p),
    ensures
        g.cells@ == f.cells@,
        spec_grid_mass(g.cells@) == spec_grid_mass(f.cells@),
{
    let w = f.width as int;
    let h = f.height as int;
    assert forall|x: int, y: int| f.spec_in_grid(x, y) implies #[trigger] g.spec_cell(x, y)
        == f.spec_cell(x, y) by {
        lemma_still_field_tick(f, x, y, p, th0);
    }
    assert forall|i: int| 0 <= i < f.cells@.len() implies g.cells@[i] == f.cells@[i] by {
        vstd::arithmetic::div_mod::lemma_fundamental_div_mod(i, w);
        vstd::arithmetic::div_mod::lemma_mod_bound(i, w);
        vstd::arithmetic::div_mod::lemma_div_pos_is_pos(i, w);
        vstd::arithmetic::div_mod::lemma_multiply_divide_lt(i, w, h);
        assert(i < w * h) by (nonlinear_arith)
            requires
                i < f.cells@.len(),
                f.cells@.len() == f.width * f.height,
                w == f.width,
                h == f.height,
        ;
        assert(f.spec_in_grid(i % w, i / w));
        assert(g.spec_cell(i % w, i / w) == f.spec_cell(i % w, i / w));
        assert((i / w) * w + i % w == i) by (nonlinear_arith)
            requires
                i == w * (i / w) + i % w,
        ;
    }
    assert(g.cells@ =~= f.cells@);
}

} // verus!
