//! The mathematical model of the particle swarm optimizer.
//!
//! The executable engine in `swarm` is proved to follow, step for step, the
//! transition functions defined here: one dimension's velocity and position
//! update with boundary clamping, one particle's update with personal- and
//! global-best bookkeeping, one whole sweep over the swarm, and a run of
//! many sweeps. The proof functions at the end state the laws of the
//! optimizer: positions stay inside the search bounds, a clamped particle is
//! charged the penalty, the global best never worsens, a run is a function
//! of its random stream, and a lone particle's personal best is the global
//! best.

use vstd::prelude::*;
use crate::fitness::{
    rastrigin_value, DIM_MAX, POS_LIMIT, SCALE,
};

verus! {

/// Cap on the magnitude of a velocity the engine will accept, so that the
/// update arithmetic stays inside `i64`.
pub const VEL_CAP: i64 = 200_000_000_000_000_000;

/// How much one update step can add to a velocity's magnitude, given an
/// admissible configuration.
pub const VEL_STEP: i64 = 100_000_000_000;

/// Cap on the acceleration weights: the real interval [0, 10].
pub const WEIGHT_LIMIT: i64 = 10_000_000;

/// Cap on the out-of-bounds penalty, so that a penalized fitness stays
/// inside `i64`.
pub const PENALTY_LIMIT: i64 = 1_000_000_000_000_000;

/// The configuration of a run: dimensionality, population size, the three
/// update weights, the search bounds, and the boundary penalty. All
/// fixed-point quantities are in millionths, as everywhere in this crate.
#[derive(Clone, Copy)]
pub struct SwarmConfig {
    /// Dimensionality of the search space.
    pub dim: usize,
    /// Number of particles in the swarm.
    pub particle_count: usize,
    /// Inertia weight: the fraction of the previous velocity retained.
    pub inertia: i64,
    /// Cognitive weight: pull toward a particle's own best position.
    pub cognitive: i64,
    /// Social weight: pull toward the swarm's best position.
    pub social: i64,
    /// Lower bound of every coordinate of the search space.
    pub lower: i64,
    /// Upper bound of every coordinate of the search space.
    pub upper: i64,
    /// Fitness inflation charged when a particle leaves the bounds.
    pub penalty: i64,
}

/// An admissible configuration: at least one particle and one dimension,
/// bounds in the representable range and the right way around, weights and
/// penalty within their caps, inertia at most one.
pub open spec fn config_wf(cfg: SwarmConfig) -> bool {
    &&& 1 <= cfg.dim <= DIM_MAX
    &&& 1 <= cfg.particle_count
    &&& 0 <= cfg.inertia <= SCALE
    &&& 0 <= cfg.cognitive <= WEIGHT_LIMIT
    &&& 0 <= cfg.social <= WEIGHT_LIMIT
    &&& -POS_LIMIT <= cfg.lower
    &&& cfg.lower < cfg.upper
    &&& cfg.upper <= POS_LIMIT
    &&& 0 <= cfg.penalty <= PENALTY_LIMIT
}

/// The mathematical state of one particle.
pub struct ParticleModel {
    /// Current candidate solution.
    pub pos: Seq<int>,
    /// Current per-dimension update step.
    pub vel: Seq<int>,
    /// Best position this particle has ever occupied.
    pub best_pos: Seq<int>,
    /// Evaluated fitness at `best_pos`.
    pub best_fit: int,
}

/// The mathematical state of the whole swarm.
pub struct SwarmModel {
    /// The population, in a fixed order.
    pub particles: Seq<ParticleModel>,
    /// Best position any particle has found.
    pub best_pos: Seq<int>,
    /// Evaluated fitness at `best_pos`.
    pub best_fit: int,
}

/// Every entry of a sequence lies in the closed interval [lo, hi].
pub open spec fn seq_in_range(s: Seq<int>, lo: int, hi: int) -> bool {
    forall|i: int| 0 <= i < s.len() ==> lo <= #[trigger] s[i] <= hi
}

/// A well-formed particle: three vectors of the configured dimensionality,
/// with position and personal best inside the search bounds.
pub open spec fn particle_wf(cfg: SwarmConfig, p: ParticleModel) -> bool {
    &&& p.pos.len() == cfg.dim
    &&& p.vel.len() == cfg.dim
    &&& p.best_pos.len() == cfg.dim
    &&& seq_in_range(p.pos, cfg.lower as int, cfg.upper as int)
    &&& seq_in_range(p.best_pos, cfg.lower as int, cfg.upper as int)
}

/// A well-formed swarm: the configured number of well-formed particles and
/// a global best position inside the search bounds.
pub open spec fn swarm_wf(cfg: SwarmConfig, s: SwarmModel) -> bool {
    &&& s.particles.len() == cfg.particle_count
    &&& forall|i: int| 0 <= i < s.particles.len() ==> particle_wf(cfg, #[trigger] s.particles[i])
    &&& s.best_pos.len() == cfg.dim
    &&& seq_in_range(s.best_pos, cfg.lower as int, cfg.upper as int)
}

/// Every velocity component of a particle has magnitude at most `b`.
pub open spec fn vel_within(p: ParticleModel, b: int) -> bool {
    forall|j: int| 0 <= j < p.vel.len() ==> -b <= #[trigger] p.vel[j] <= b
}

/// Every velocity component of every particle has magnitude at most `b`.
pub open spec fn swarm_vel_within(s: SwarmModel, b: int) -> bool {
    forall|i: int| 0 <= i < s.particles.len() ==> vel_within(#[trigger] s.particles[i], b)
}

/// Truncating division, as the machine performs it on signed integers:
/// the quotient is rounded toward zero.
pub open spec fn tdiv(a: int, d: int) -> int {
    if a >= 0 {
        a / d
    } else {
        -((-a) / d)
    }
}

/// The velocity update rule for one dimension, before boundary handling:
/// W*v + C1*r1*(pb - x) + C2*r2*(gb - x), in fixed point. Each product
/// carries extra factors of the scale, which one truncating division per
/// term removes.
pub open spec fn raw_velocity(cfg: SwarmConfig, v: int, x: int, pb: int, gb: int, r1: int, r2: int) -> int {
    tdiv(cfg.inertia * v, 1_000_000) + tdiv(cfg.cognitive * r1 * (pb - x), 1_000_000_000_000)
        + tdiv(cfg.social * r2 * (gb - x), 1_000_000_000_000)
}

/// Whether one dimension's updated position leaves the search bounds and is
/// therefore clamped.
pub open spec fn dim_clamped(cfg: SwarmConfig, v: int, x: int, pb: int, gb: int, r1: int, r2: int) -> bool {
    let nx = x + raw_velocity(cfg, v, x, pb, gb, r1, r2);
    nx < cfg.lower || nx > cfg.upper
}

/// One dimension's position after the update: moved by the new velocity,
/// then clamped to the search bounds.
pub open spec fn step_position(cfg: SwarmConfig, v: int, x: int, pb: int, gb: int, r1: int, r2: int) -> int {
    let nx = x + raw_velocity(cfg, v, x, pb, gb, r1, r2);
    if nx < cfg.lower {
        cfg.lower as int
    } else if nx > cfg.upper {
        cfg.upper as int
    } else {
        nx
    }
}

/// One dimension's velocity after the update: the raw updated velocity, or
/// zero if the position was clamped.
pub open spec fn step_velocity(cfg: SwarmConfig, v: int, x: int, pb: int, gb: int, r1: int, r2: int) -> int {
    if dim_clamped(cfg, v, x, pb, gb, r1, r2) {
        0
    } else {
        raw_velocity(cfg, v, x, pb, gb, r1, r2)
    }
}

/// A particle's whole position vector after one update step.
pub open spec fn stepped_positions(cfg: SwarmConfig, p: ParticleModel, g: Seq<int>, r1: int, r2: int) -> Seq<int> {
    Seq::new(p.pos.len(), |j: int| step_position(cfg, p.vel[j], p.pos[j], p.best_pos[j], g[j], r1, r2))
}

/// A particle's whole velocity vector after one update step.
pub open spec fn stepped_velocities(cfg: SwarmConfig, p: ParticleModel, g: Seq<int>, r1: int, r2: int) -> Seq<int> {
    Seq::new(p.vel.len(), |j: int| step_velocity(cfg, p.vel[j], p.pos[j], p.best_pos[j], g[j], r1, r2))
}

/// Whether any dimension of a particle is clamped during one update step.
pub open spec fn any_clamped(cfg: SwarmConfig, p: ParticleModel, g: Seq<int>, r1: int, r2: int) -> bool {
    exists|j: int|
        0 <= j < p.pos.len() && dim_clamped(cfg, p.vel[j], p.pos[j], p.best_pos[j], g[j], r1, r2)
}

/// The fitness used for best-tracking after one update step: the Rastrigin
/// value of the clamped position, inflated by the penalty if any dimension
/// was clamped.
pub open spec fn evaluated_fitness(cfg: SwarmConfig, p: ParticleModel, g: Seq<int>, r1: int, r2: int) -> int {
    rastrigin_value(stepped_positions(cfg, p, g, r1, r2)) + if any_clamped(cfg, p, g, r1, r2) {
        cfg.penalty as int
    } else {
        0
    }
}

/// One particle's update: new position and velocity, personal best
/// bookkeeping, and the swarm's best position and fitness as this particle
/// leaves them. Both comparisons are strict, so ties keep the older best.
pub open spec fn step_particle(cfg: SwarmConfig, p: ParticleModel, g: Seq<int>, gf: int, r1: int, r2: int) -> (ParticleModel, Seq<int>, int) {
    let np = stepped_positions(cfg, p, g, r1, r2);
    let nv = stepped_velocities(cfg, p, g, r1, r2);
    let f = evaluated_fitness(cfg, p, g, r1, r2);
    let p2 = ParticleModel {
        pos: np,
        vel: nv,
        best_pos: if f < p.best_fit { np } else { p.best_pos },
        best_fit: if f < p.best_fit { f } else { p.best_fit },
    };
    let g2 = if f < gf { np } else { g };
    let gf2 = if f < gf { f } else { gf };
    (p2, g2, gf2)
}

/// The swarm after the first `k` particles of one sweep have been updated,
/// in order, each seeing the global best exactly as the previous particle
/// left it.
pub open spec fn sweep_prefix(cfg: SwarmConfig, s: SwarmModel, r: Seq<(i64, i64)>, k: int) -> SwarmModel
    decreases k,
{
    if k <= 0 {
        s
    } else {
        let prev = sweep_prefix(cfg, s, r, k - 1);
        let (p2, g2, gf2) = step_particle(
            cfg,
            prev.particles[k - 1],
            prev.best_pos,
            prev.best_fit,
            r[k - 1].0 as int,
            r[k - 1].1 as int,
        );
        SwarmModel { particles: prev.particles.update(k - 1, p2), best_pos: g2, best_fit: gf2 }
    }
}

/// The swarm after one whole sweep: every particle updated once, in order.
pub open spec fn swept(cfg: SwarmConfig, s: SwarmModel, r: Seq<(i64, i64)>) -> SwarmModel {
    sweep_prefix(cfg, s, r, s.particles.len() as int)
}

/// The swarm after a run: one sweep for each entry of the random stream.
pub open spec fn run_model(cfg: SwarmConfig, s: SwarmModel, streams: Seq<Seq<(i64, i64)>>) -> SwarmModel
    decreases streams.len(),
{
    if streams.len() == 0 {
        s
    } else {
        swept(cfg, run_model(cfg, s, streams.drop_last()), streams.last())
    }
}

/// Every random pair of a sweep's draw lies in [0, SCALE).
pub open spec fn rands_wf(r: Seq<(i64, i64)>) -> bool {
    forall|i: int| 0 <= i < r.len() ==> 0 <= (#[trigger] r[i]).0 < SCALE && 0 <= r[i].1 < SCALE
}

/// Truncating division shrinks magnitudes: a numerator of magnitude at most
/// `m * d` gives a quotient of magnitude at most `m`.
pub proof fn lemma_tdiv_bound(a: int, d: int, m: int)
    requires
        d > 0,
        m >= 0,
        -(m * d) <= a <= m * d,
    ensures
        -m <= tdiv(a, d) <= m,
{
    if a >= 0 {
        vstd::arithmetic::div_mod::lemma_div_is_ordered(a, m * d, d);
        vstd::arithmetic::div_mod::lemma_div_multiples_vanish(m, d);
        vstd::arithmetic::mul::lemma_mul_is_commutative(m, d);
        assert((m * d) / d == m);
        vstd::arithmetic::div_mod::lemma_div_pos_is_pos(a, d);
    } else {
        vstd::arithmetic::div_mod::lemma_div_is_ordered(-a, m * d, d);
        vstd::arithmetic::div_mod::lemma_div_multiples_vanish(m, d);
        vstd::arithmetic::mul::lemma_mul_is_commutative(m, d);
        assert((m * d) / d == m);
        vstd::arithmetic::div_mod::lemma_div_pos_is_pos(-a, d);
    }
}

/// One update step grows a velocity component's magnitude by at most
/// `VEL_STEP`: the inertia term keeps the old magnitude, and the two
/// attraction terms are each bounded by half of `VEL_STEP`.
pub proof fn lemma_raw_velocity_bound(cfg: SwarmConfig, v: int, x: int, pb: int, gb: int, r1: int, r2: int, b: int)
    requires
        config_wf(cfg),
        0 <= b,
        -b <= v <= b,
        cfg.lower <= x <= cfg.upper,
        cfg.lower <= pb <= cfg.upper,
        cfg.lower <= gb <= cfg.upper,
        0 <= r1 < SCALE,
        0 <= r2 < SCALE,
    ensures
        -(b + VEL_STEP) <= raw_velocity(cfg, v, x, pb, gb, r1, r2) <= b + VEL_STEP,
{
    assert(-(b * 1_000_000) <= cfg.inertia * v <= b * 1_000_000) by (nonlinear_arith)
        requires 0 <= cfg.inertia <= 1_000_000 && -b <= v <= b && 0 <= b;
    lemma_tdiv_bound(cfg.inertia * v, 1_000_000, b);
    let dc = pb - x;
    assert(-(40_000_000_000 * 1_000_000_000_000) <= cfg.cognitive * r1 * dc <= 40_000_000_000
        * 1_000_000_000_000) by (nonlinear_arith)
        requires
            0 <= cfg.cognitive <= 10_000_000,
            0 <= r1 <= 1_000_000,
            -4_000_000_000 <= dc <= 4_000_000_000,
    ;
    lemma_tdiv_bound(cfg.cognitive * r1 * dc, 1_000_000_000_000, 40_000_000_000);
    let ds = gb - x;
    assert(-(40_000_000_000 * 1_000_000_000_000) <= cfg.social * r2 * ds <= 40_000_000_000
        * 1_000_000_000_000) by (nonlinear_arith)
        requires
            0 <= cfg.social <= 10_000_000,
            0 <= r2 <= 1_000_000,
            -4_000_000_000 <= ds <= 4_000_000_000,
    ;
    lemma_tdiv_bound(cfg.social * r2 * ds, 1_000_000_000_000, 40_000_000_000);
}

/// One particle's update step preserves well-formedness: the new position
/// and personal best stay inside the bounds (the boundary clamp law), the
/// velocity grows by at most `VEL_STEP`, and neither the personal nor the
/// global best fitness worsens.
pub proof fn lemma_step_particle_wf(cfg: SwarmConfig, p: ParticleModel, g: Seq<int>, gf: int, r1: int, r2: int, b: int)
    requires
        config_wf(cfg),
        particle_wf(cfg, p),
        g.len() == cfg.dim,
        seq_in_range(g, cfg.lower as int, cfg.upper as int),
        0 <= r1 < SCALE,
        0 <= r2 < SCALE,
        0 <= b,
        vel_within(p, b),
    ensures
        ({
            let (p2, g2, gf2) = step_particle(cfg, p, g, gf, r1, r2);
            &&& particle_wf(cfg, p2)
            &&& vel_within(p2, b + VEL_STEP)
            &&& g2.len() == cfg.dim
            &&& seq_in_range(g2, cfg.lower as int, cfg.upper as int)
            &&& gf2 <= gf
            &&& p2.best_fit <= p.best_fit
        }),
{
    let np = stepped_positions(cfg, p, g, r1, r2);
    let nv = stepped_velocities(cfg, p, g, r1, r2);
    assert forall|j: int| 0 <= j < np.len() implies cfg.lower <= #[trigger] np[j] <= cfg.upper by {
        assert(cfg.lower <= step_position(cfg, p.vel[j], p.pos[j], p.best_pos[j], g[j], r1, r2)
            <= cfg.upper);
    }
    assert forall|j: int| 0 <= j < nv.len() implies -(b + VEL_STEP) <= #[trigger] nv[j] <= b
        + VEL_STEP by {
        lemma_raw_velocity_bound(cfg, p.vel[j], p.pos[j], p.best_pos[j], g[j], r1, r2, b);
    }
}

/// A partial sweep preserves well-formedness, grows no velocity by more
/// than `VEL_STEP`, never worsens the global best, and leaves the particles
/// it has not yet reached untouched.
pub proof fn lemma_sweep_prefix_props(cfg: SwarmConfig, s: SwarmModel, r: Seq<(i64, i64)>, k: int, b: int)
    requires
        config_wf(cfg),
        swarm_wf(cfg, s),
        0 <= b,
        swarm_vel_within(s, b),
        0 <= k <= s.particles.len(),
        r.len() == s.particles.len(),
        rands_wf(r),
    ensures
        ({
            let s2 = sweep_prefix(cfg, s, r, k);
            &&& swarm_wf(cfg, s2)
            &&& swarm_vel_within(s2, b + VEL_STEP)
            &&& s2.best_fit <= s.best_fit
            &&& s2.particles.len() == s.particles.len()
            &&& forall|i: int| k <= i < s.particles.len() ==> #[trigger] s2.particles[i]
                == s.particles[i]
        }),
    decreases k,
{
    if k > 0 {
        lemma_sweep_prefix_props(cfg, s, r, k - 1, b);
        let prev = sweep_prefix(cfg, s, r, k - 1);
        assert(prev.particles[k - 1] == s.particles[k - 1]);
        assert(vel_within(prev.particles[k - 1], b));
        lemma_step_particle_wf(
            cfg,
            prev.particles[k - 1],
            prev.best_pos,
            prev.best_fit,
            r[k - 1].0 as int,
            r[k - 1].1 as int,
            b,
        );
    }
}

/// Boundary clamp law: after one update step, no component of a particle's
/// position lies strictly outside the closed interval [lower, upper].
pub proof fn lemma_positions_clamped(cfg: SwarmConfig, p: ParticleModel, g: Seq<int>, r1: int, r2: int)
    requires
        cfg.lower <= cfg.upper,
    ensures
        seq_in_range(stepped_positions(cfg, p, g, r1, r2), cfg.lower as int, cfg.upper as int),
{
    let np = stepped_positions(cfg, p, g, r1, r2);
    assert forall|j: int| 0 <= j < np.len() implies cfg.lower <= #[trigger] np[j] <= cfg.upper by {
        assert(np[j] == step_position(cfg, p.vel[j], p.pos[j], p.best_pos[j], g[j], r1, r2));
    }
}

/// A partial sweep never worsens the global best fitness, whatever the
/// state and the draws: each particle's update replaces it only with a
/// strictly better one.
pub proof fn lemma_sweep_prefix_monotonic(cfg: SwarmConfig, s: SwarmModel, r: Seq<(i64, i64)>, k: int)
    ensures
        sweep_prefix(cfg, s, r, k).best_fit <= s.best_fit,
    decreases k,
{
    if k > 0 {
        lemma_sweep_prefix_monotonic(cfg, s, r, k - 1);
    }
}

/// Monotonicity law: one sweep never worsens the global best fitness, so
/// across a run the reported best is non-increasing.
pub proof fn lemma_swept_monotonic(cfg: SwarmConfig, s: SwarmModel, r: Seq<(i64, i64)>)
    ensures
        swept(cfg, s, r).best_fit <= s.best_fit,
{
    lemma_sweep_prefix_monotonic(cfg, s, r, s.particles.len() as int);
}

/// Penalty law: whenever any dimension of a particle is clamped during its
/// update, the fitness used for best-tracking is exactly the Rastrigin
/// value of the clamped position plus the penalty factor, and with a
/// positive penalty factor that is strictly worse than the raw value.
pub proof fn lemma_penalty_charged(cfg: SwarmConfig, p: ParticleModel, g: Seq<int>, r1: int, r2: int)
    requires
        any_clamped(cfg, p, g, r1, r2),
    ensures
        evaluated_fitness(cfg, p, g, r1, r2) == rastrigin_value(stepped_positions(cfg, p, g, r1, r2))
            + cfg.penalty,
        cfg.penalty > 0 ==> evaluated_fitness(cfg, p, g, r1, r2) > rastrigin_value(
            stepped_positions(cfg, p, g, r1, r2),
        ),
{
}

/// Determinism law: the outcome of a run is a function of the configuration,
/// the starting swarm, and the random stream alone. Two runs that agree on
/// all three agree on everything they produce.
pub proof fn lemma_run_deterministic(cfg: SwarmConfig, s1: SwarmModel, s2: SwarmModel, t1: Seq<Seq<(i64, i64)>>, t2: Seq<Seq<(i64, i64)>>)
    requires
        s1 == s2,
        t1 == t2,
    ensures
        run_model(cfg, s1, t1) == run_model(cfg, s2, t2),
{
}

/// Lone particle law: in a swarm of one particle whose personal best agrees
/// with the global best, one sweep keeps the two in agreement, so after
/// every sweep the global best position is that particle's personal best.
pub proof fn lemma_single_particle_sync(cfg: SwarmConfig, s: SwarmModel, r: Seq<(i64, i64)>)
    requires
        s.particles.len() == 1,
        s.best_pos == s.particles[0].best_pos,
        s.best_fit == s.particles[0].best_fit,
    ensures
        ({
            let s2 = swept(cfg, s, r);
            &&& s2.best_pos == s2.particles[0].best_pos
            &&& s2.best_fit == s2.particles[0].best_fit
        }),
{
    assert(sweep_prefix(cfg, s, r, 0) == s);
}

} // verus!
