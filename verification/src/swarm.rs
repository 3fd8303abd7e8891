//! The executable particle swarm engine.
//!
//! A `Swarm` owns the population and the global best; its methods are proved
//! to follow the transition functions of the `model` module exactly. The
//! randomness of a sweep is drawn up front into a vector of scalar pairs, so
//! every update is a pure function of the state and those pairs; only the
//! drawing itself (in `rng`) is trusted.

use vstd::prelude::*;
use crate::fitness::{coords, coords_in_limit, rastrigin, rastrigin_value, POS_LIMIT, SCALE};
use crate::model::{
    any_clamped, config_wf, dim_clamped, evaluated_fitness, lemma_single_particle_sync,
    lemma_sweep_prefix_props, lemma_tdiv_bound, particle_wf, rands_wf, raw_velocity, run_model,
    seq_in_range, step_particle, step_position, step_velocity, stepped_positions,
    stepped_velocities, swarm_vel_within, swarm_wf, sweep_prefix, swept, vel_within,
    ParticleModel, SwarmConfig, SwarmModel, VEL_CAP,
};

verus! {

/// One candidate solution with its velocity and personal-best memory.
pub struct Particle {
    /// Current candidate solution.
    pub position: Vec<i64>,
    /// Current per-dimension update step.
    pub velocity: Vec<i64>,
    /// Best position this particle has ever occupied.
    pub best_position: Vec<i64>,
    /// Evaluated fitness at `best_position`.
    pub best_fitness: i64,
}

impl View for Particle {
    type V = ParticleModel;

    open spec fn view(&self) -> ParticleModel {
        ParticleModel {
            pos: coords(self.position@),
            vel: coords(self.velocity@),
            best_pos: coords(self.best_position@),
            best_fit: self.best_fitness as int,
        }
    }
}

/// The population of particles and the best position any of them has found.
pub struct Swarm {
    /// The population, in a fixed order.
    pub particles: Vec<Particle>,
    /// Best position any particle has found.
    pub global_best_position: Vec<i64>,
    /// Evaluated fitness at `global_best_position`.
    pub global_best_fitness: i64,
}

impl View for Swarm {
    type V = SwarmModel;

    open spec fn view(&self) -> SwarmModel {
        SwarmModel {
            particles: self.particles@.map_values(|p: Particle| p@),
            best_pos: coords(self.global_best_position@),
            best_fit: self.global_best_fitness as int,
        }
    }
}

/// One entry of the progress log: the sweep it closes and the global best
/// fitness as that sweep left it.
pub struct ProgressRecord {
    /// Index of the sweep, counted from zero.
    pub sweep_index: usize,
    /// Global best fitness after that sweep.
    pub best_fitness: i64,
}

/// An element-for-element copy of a coordinate vector.
fn copy_vec(v: &Vec<i64>) -> (r: Vec<i64>)
    ensures
        r@ == v@,
{
    let mut r: Vec<i64> = Vec::new();
    let mut i: usize = 0;
    while i < v.len()
        invariant
            i <= v@.len(),
            r@.len() == i,
            forall|k: int| 0 <= k < i ==> #[trigger] r@[k] == v@[k],
        decreases v@.len() - i,
    {
        r.push(v[i]);
        i = i + 1;
    }
    proof {
        assert(r@ =~= v@);
    }
    r
}

/// One dimension of one particle's update step: the velocity rule, the move,
/// and the boundary clamp, each exactly as the model states it.
fn step_dim(cfg: &SwarmConfig, v: i64, x: i64, pb: i64, gb: i64, r1: i64, r2: i64) -> (res: (
    i64,
    i64,
    bool,
))
    requires
        config_wf(*cfg),
        -VEL_CAP <= v <= VEL_CAP,
        cfg.lower <= x <= cfg.upper,
        cfg.lower <= pb <= cfg.upper,
        cfg.lower <= gb <= cfg.upper,
        0 <= r1 < SCALE,
        0 <= r2 < SCALE,
    ensures
        res.0 == step_position(*cfg, v as int, x as int, pb as int, gb as int, r1 as int, r2 as int),
        res.1 == step_velocity(*cfg, v as int, x as int, pb as int, gb as int, r1 as int, r2 as int),
        res.2 == dim_clamped(*cfg, v as int, x as int, pb as int, gb as int, r1 as int, r2 as int),
{
    assert(-(200_000_000_000_000_000_000_000) <= (cfg.inertia as int) * (v as int)
        <= 200_000_000_000_000_000_000_000) by (nonlinear_arith)
        requires
            0 <= cfg.inertia <= 1_000_000,
            -200_000_000_000_000_000 <= v <= 200_000_000_000_000_000,
    ;
    let wv: i128 = (cfg.inertia as i128) * (v as i128);
    let t1: i128 = wv / 1_000_000;
    proof {
        lemma_tdiv_bound(wv as int, 1_000_000, VEL_CAP as int);
    }
    let dc: i64 = pb - x;
    assert(-(40_000_000_000_000_000_000_000) <= (cfg.cognitive as int) * (r1 as int) * (dc as int)
        <= 40_000_000_000_000_000_000_000) by (nonlinear_arith)
        requires
            0 <= cfg.cognitive <= 10_000_000,
            0 <= r1 <= 1_000_000,
            -4_000_000_000 <= dc <= 4_000_000_000,
    ;
    assert(0 <= (cfg.cognitive as int) * (r1 as int) <= 10_000_000 * 1_000_000) by (nonlinear_arith)
        requires
            0 <= cfg.cognitive <= 10_000_000,
            0 <= r1 <= 1_000_000,
    ;
    let nc: i128 = (cfg.cognitive as i128) * (r1 as i128) * (dc as i128);
    let t2: i128 = nc / 1_000_000_000_000;
    proof {
        lemma_tdiv_bound(nc as int, 1_000_000_000_000, 40_000_000_000);
    }
    let ds: i64 = gb - x;
    assert(-(40_000_000_000_000_000_000_000) <= (cfg.social as int) * (r2 as int) * (ds as int)
        <= 40_000_000_000_000_000_000_000) by (nonlinear_arith)
        requires
            0 <= cfg.social <= 10_000_000,
            0 <= r2 <= 1_000_000,
            -4_000_000_000 <= ds <= 4_000_000_000,
    ;
    assert(0 <= (cfg.social as int) * (r2 as int) <= 10_000_000 * 1_000_000) by (nonlinear_arith)
        requires
            0 <= cfg.social <= 10_000_000,
            0 <= r2 <= 1_000_000,
    ;
    let ns: i128 = (cfg.social as i128) * (r2 as i128) * (ds as i128);
    let t3: i128 = ns / 1_000_000_000_000;
    proof {
        lemma_tdiv_bound(ns as int, 1_000_000_000_000, 40_000_000_000);
    }
    let nv128: i128 = t1 + t2 + t3;
    let nv: i64 = nv128 as i64;
    assert(nv as int == raw_velocity(*cfg, v as int, x as int, pb as int, gb as int, r1 as int,
        r2 as int));
    let nx: i64 = x + nv;
    if nx < cfg.lower {
        (cfg.lower, 0i64, true)
    } else if nx > cfg.upper {
        (cfg.upper, 0i64, true)
    } else {
        (nx, nv, false)
    }
}

impl Swarm {
    /// Update one particle in place: move it by the velocity rule, clamp it
    /// to the bounds, evaluate it (charging the penalty if it was clamped),
    /// and refresh its personal best and the swarm's global best, exactly as
    /// the model's `step_particle` states.
    pub fn update_particle(&mut self, cfg: &SwarmConfig, i: usize, r1: i64, r2: i64)
        requires
            config_wf(*cfg),
            (i as int) < old(self)@.particles.len(),
            particle_wf(*cfg, old(self)@.particles[i as int]),
            vel_within(old(self)@.particles[i as int], VEL_CAP as int),
            old(self)@.best_pos.len() == cfg.dim,
            seq_in_range(old(self)@.best_pos, cfg.lower as int, cfg.upper as int),
            0 <= r1 < SCALE,
            0 <= r2 < SCALE,
        ensures
            ({
                let (p2, g2, gf2) = step_particle(
                    *cfg,
                    old(self)@.particles[i as int],
                    old(self)@.best_pos,
                    old(self)@.best_fit,
                    r1 as int,
                    r2 as int,
                );
                &&& final(self)@.particles == old(self)@.particles.update(i as int, p2)
                &&& final(self)@.best_pos == g2
                &&& final(self)@.best_fit == gf2
            }),
    {
        let ghost pm = old(self)@.particles[i as int];
        let ghost gm = old(self)@.best_pos;
        let dim: usize = cfg.dim;
        let mut new_pos: Vec<i64> = Vec::new();
        let mut new_vel: Vec<i64> = Vec::new();
        let mut clamped: bool = false;
        let mut j: usize = 0;
        assert(self.particles@[i as int]@ == pm);
        while j < dim
            invariant
                config_wf(*cfg),
                *self == *old(self),
                dim == cfg.dim,
                j <= dim,
                (i as int) < self.particles@.len(),
                self@.particles.len() == self.particles@.len(),
                pm == self@.particles[i as int],
                pm == self.particles@[i as int]@,
                gm == self@.best_pos,
                particle_wf(*cfg, pm),
                vel_within(pm, VEL_CAP as int),
                gm.len() == cfg.dim,
                seq_in_range(gm, cfg.lower as int, cfg.upper as int),
                0 <= r1 < SCALE,
                0 <= r2 < SCALE,
                new_pos@.len() == j,
                new_vel@.len() == j,
                forall|k: int| 0 <= k < j ==> #[trigger] new_pos@[k] == stepped_positions(
                    *cfg, pm, gm, r1 as int, r2 as int)[k],
                forall|k: int| 0 <= k < j ==> #[trigger] new_vel@[k] == stepped_velocities(
                    *cfg, pm, gm, r1 as int, r2 as int)[k],
                clamped == exists|k: int| 0 <= k < j && dim_clamped(*cfg, pm.vel[k], pm.pos[k],
                    pm.best_pos[k], gm[k], r1 as int, r2 as int),
            decreases dim - j,
        {
            let p: &Particle = &self.particles[i];
            let v: i64 = p.velocity[j];
            let x: i64 = p.position[j];
            let pb: i64 = p.best_position[j];
            let gb: i64 = self.global_best_position[j];
            assert(v == pm.vel[j as int] && x == pm.pos[j as int] && pb == pm.best_pos[j as int]
                && gb == gm[j as int]);
            let res = step_dim(cfg, v, x, pb, gb, r1, r2);
            new_pos.push(res.0);
            new_vel.push(res.1);
            clamped = clamped || res.2;
            proof {
                assert(stepped_positions(*cfg, pm, gm, r1 as int, r2 as int)[j as int]
                    == step_position(*cfg, pm.vel[j as int], pm.pos[j as int],
                        pm.best_pos[j as int], gm[j as int], r1 as int, r2 as int));
                assert(stepped_velocities(*cfg, pm, gm, r1 as int, r2 as int)[j as int]
                    == step_velocity(*cfg, pm.vel[j as int], pm.pos[j as int],
                        pm.best_pos[j as int], gm[j as int], r1 as int, r2 as int));
            }
            j = j + 1;
        }
        let ghost np = stepped_positions(*cfg, pm, gm, r1 as int, r2 as int);
        let ghost nvm = stepped_velocities(*cfg, pm, gm, r1 as int, r2 as int);
        proof {
            assert(coords(new_pos@) =~= np);
            assert(coords(new_vel@) =~= nvm);
            assert(clamped == any_clamped(*cfg, pm, gm, r1 as int, r2 as int));
            assert forall|k: int| 0 <= k < new_pos@.len() implies -POS_LIMIT
                <= #[trigger] new_pos@[k] <= POS_LIMIT by {
                assert(np[k] == step_position(*cfg, pm.vel[k], pm.pos[k], pm.best_pos[k], gm[k],
                    r1 as int, r2 as int));
            }
            assert(coords_in_limit(coords(new_pos@)));
        }
        let raw: i64 = rastrigin(&new_pos);
        let eval: i64 = if clamped {
            raw + cfg.penalty
        } else {
            raw
        };
        assert(eval as int == evaluated_fitness(*cfg, pm, gm, r1 as int, r2 as int));
        let pb_fit: i64 = self.particles[i].best_fitness;
        let new_best_position: Vec<i64>;
        let new_best_fitness: i64;
        if eval < pb_fit {
            new_best_position = copy_vec(&new_pos);
            new_best_fitness = eval;
        } else {
            new_best_position = copy_vec(&self.particles[i].best_position);
            new_best_fitness = pb_fit;
        }
        if eval < self.global_best_fitness {
            self.global_best_position = copy_vec(&new_pos);
            self.global_best_fitness = eval;
        }
        let p2 = Particle {
            position: new_pos,
            velocity: new_vel,
            best_position: new_best_position,
            best_fitness: new_best_fitness,
        };
        self.particles.set(i, p2);
        proof {
            let (sp2, sg2, sgf2) = step_particle(*cfg, pm, gm, old(self)@.best_fit, r1 as int,
                r2 as int);
            assert(self.particles@[i as int]@ == sp2);
            assert(self@.particles =~= old(self)@.particles.update(i as int, sp2));
            assert(self@.best_pos =~= sg2);
        }
    }

    /// One sweep: update every particle once, in order, each seeing the
    /// global best exactly as the previous particle left it.
    pub fn sweep(&mut self, cfg: &SwarmConfig, rands: &Vec<(i64, i64)>)
        requires
            config_wf(*cfg),
            swarm_wf(*cfg, old(self)@),
            swarm_vel_within(old(self)@, VEL_CAP as int),
            rands@.len() == cfg.particle_count,
            rands_wf(rands@),
        ensures
            final(self)@ == swept(*cfg, old(self)@, rands@),
    {
        let n: usize = self.particles.len();
        assert(n == cfg.particle_count);
        let mut idx: usize = 0;
        while idx < n
            invariant
                config_wf(*cfg),
                swarm_wf(*cfg, old(self)@),
                swarm_vel_within(old(self)@, VEL_CAP as int),
                rands@.len() == n,
                n == cfg.particle_count,
                old(self)@.particles.len() == n,
                rands_wf(rands@),
                idx <= n,
                self@ == sweep_prefix(*cfg, old(self)@, rands@, idx as int),
                self.particles@.len() == n,
            decreases n - idx,
        {
            proof {
                lemma_sweep_prefix_props(*cfg, old(self)@, rands@, idx as int, VEL_CAP as int);
                assert(self@.particles[idx as int] == old(self)@.particles[idx as int]);
                assert(particle_wf(*cfg, self@.particles[idx as int]));
                assert(vel_within(self@.particles[idx as int], VEL_CAP as int));
            }
            let pr: (i64, i64) = rands[idx];
            let ghost before = self@;
            self.update_particle(cfg, idx, pr.0, pr.1);
            proof {
                let (p2, g2, gf2) = step_particle(*cfg, before.particles[idx as int],
                    before.best_pos, before.best_fit, pr.0 as int, pr.1 as int);
                assert(sweep_prefix(*cfg, old(self)@, rands@, idx + 1) == SwarmModel {
                    particles: before.particles.update(idx as int, p2),
                    best_pos: g2,
                    best_fit: gf2,
                });
                assert(self@.particles.len() == self.particles@.len());
                assert(self@.particles.len() == before.particles.len());
            }
            idx = idx + 1;
        }
    }

    /// Run the optimizer on a caller-supplied random stream: one vector of
    /// scalar pairs per sweep, one pair per particle. The outcome is exactly
    /// the model's transition function on that stream, so two calls with
    /// equal starting states and equal streams agree on everything.
    pub fn run_with(&mut self, cfg: &SwarmConfig, streams: &Vec<Vec<(i64, i64)>>)
        requires
            config_wf(*cfg),
            swarm_wf(*cfg, old(self)@),
            streams@.len() <= 1_000_000,
            forall|k: int| 0 <= k < streams@.len() ==> (#[trigger] streams@[k])@.len()
                == cfg.particle_count && rands_wf(streams@[k]@),
            swarm_vel_within(
                old(self)@,
                200_000_000_000_000_000 - streams@.len() * 100_000_000_000,
            ),
        ensures
            final(self)@ == run_model(
                *cfg,
                old(self)@,
                streams@.map_values(|v: Vec<(i64, i64)>| v@),
            ),
            swarm_wf(*cfg, final(self)@),
            final(self)@.best_fit <= old(self)@.best_fit,
    {
        let ghost start = old(self)@;
        let ghost mapped = streams@.map_values(|v: Vec<(i64, i64)>| v@);
        let total: usize = streams.len();
        let mut it: usize = 0;
        while it < total
            invariant
                config_wf(*cfg),
                it <= total,
                total == streams@.len(),
                total <= 1_000_000,
                mapped == streams@.map_values(|v: Vec<(i64, i64)>| v@),
                forall|k: int| 0 <= k < streams@.len() ==> (#[trigger] streams@[k])@.len()
                    == cfg.particle_count && rands_wf(streams@[k]@),
                swarm_wf(*cfg, self@),
                swarm_vel_within(
                    self@,
                    200_000_000_000_000_000 - ((total - it) as int) * 100_000_000_000,
                ),
                self@ == run_model(*cfg, start, mapped.take(it as int)),
                self@.best_fit <= start.best_fit,
            decreases total - it,
        {
            let rands: &Vec<(i64, i64)> = &streams[it];
            let ghost before = self@;
            self.sweep(cfg, rands);
            proof {
                lemma_sweep_prefix_props(*cfg, before, rands@, before.particles.len() as int,
                    200_000_000_000_000_000 - ((total - it) as int) * 100_000_000_000);
                assert(mapped.take(it + 1).drop_last() =~= mapped.take(it as int));
                assert(mapped.take(it + 1).last() == rands@);
                assert(self@ == run_model(*cfg, start, mapped.take(it + 1)));
            }
            it = it + 1;
        }
        proof {
            assert(mapped.take(total as int) =~= mapped);
        }
    }

    /// Run the optimizer for a fixed number of sweeps, drawing each sweep's
    /// randomness from the given generator, and return the progress log: one
    /// record per sweep with the global best fitness as that sweep left it.
    /// Whatever the generator returns, the swarm stays well formed, the
    /// logged fitness never increases, the final state is reached from the
    /// starting one by the model's transition function on some random
    /// stream, and a lone particle's personal best remains the global best.
    pub fn run(&mut self, cfg: &SwarmConfig, iterations: usize, rng: &mut rand::rngs::StdRng) -> (log: Vec<ProgressRecord>)
        requires
            config_wf(*cfg),
            swarm_wf(*cfg, old(self)@),
            iterations <= 1_000_000,
            swarm_vel_within(
                old(self)@,
                200_000_000_000_000_000 - (iterations as int) * 100_000_000_000,
            ),
        ensures
            swarm_wf(*cfg, final(self)@),
            log@.len() == iterations,
            forall|k: int| 0 <= k < iterations ==> (#[trigger] log@[k]).sweep_index == k,
            forall|k1: int, k2: int| 0 <= k1 <= k2 < iterations ==> log@[k2].best_fitness
                <= log@[k1].best_fitness,
            final(self)@.best_fit <= old(self)@.best_fit,
            iterations > 0 ==> log@[iterations - 1].best_fitness == final(self)@.best_fit,
            exists|streams: Seq<Seq<(i64, i64)>>| streams.len() == iterations && final(self)@
                == #[trigger] run_model(*cfg, old(self)@, streams),
            cfg.particle_count == 1 && old(self)@.best_pos == old(self)@.particles[0].best_pos
                && old(self)@.best_fit == old(self)@.particles[0].best_fit ==> (
                final(self)@.best_pos == final(self)@.particles[0].best_pos
                && final(self)@.best_fit == final(self)@.particles[0].best_fit),
    {
        let ghost start = old(self)@;
        let ghost mut streams: Seq<Seq<(i64, i64)>> = Seq::empty();
        let mut log: Vec<ProgressRecord> = Vec::new();
        let mut it: usize = 0;
        while it < iterations
            invariant
                config_wf(*cfg),
                it <= iterations,
                iterations <= 1_000_000,
                swarm_wf(*cfg, self@),
                swarm_vel_within(
                    self@,
                    200_000_000_000_000_000 - ((iterations - it) as int) * 100_000_000_000,
                ),
                log@.len() == it,
                forall|k: int| 0 <= k < it ==> (#[trigger] log@[k]).sweep_index == k,
                forall|k1: int, k2: int| 0 <= k1 <= k2 < it ==> log@[k2].best_fitness
                    <= log@[k1].best_fitness,
                forall|k: int| 0 <= k < it ==> self@.best_fit <= (#[trigger] log@[k]).best_fitness,
                it > 0 ==> log@[it - 1].best_fitness == self@.best_fit,
                self@.best_fit <= start.best_fit,
                streams.len() == it,
                self@ == run_model(*cfg, start, streams),
                cfg.particle_count == 1 && start.best_pos == start.particles[0].best_pos
                    && start.best_fit == start.particles[0].best_fit ==> (
                    self@.best_pos == self@.particles[0].best_pos
                    && self@.best_fit == self@.particles[0].best_fit),
            decreases iterations - it,
        {
            let rands: Vec<(i64, i64)> = crate::rng::draw_pairs(rng, cfg.particle_count);
            let ghost before = self@;
            self.sweep(cfg, &rands);
            proof {
                lemma_sweep_prefix_props(*cfg, before, rands@, before.particles.len() as int,
                    200_000_000_000_000_000 - ((iterations - it) as int) * 100_000_000_000);
                if cfg.particle_count == 1 && start.best_pos == start.particles[0].best_pos
                    && start.best_fit == start.particles[0].best_fit {
                    lemma_single_particle_sync(*cfg, before, rands@);
                }
                let prev_streams = streams;
                streams = streams.push(rands@);
                assert(streams.drop_last() =~= prev_streams);
                assert(streams.last() == rands@);
                assert(self@ == run_model(*cfg, start, streams));
            }
            log.push(ProgressRecord { sweep_index: it, best_fitness: self.global_best_fitness });
            it = it + 1;
        }
        proof {
            assert(exists|ss: Seq<Seq<(i64, i64)>>| ss.len() == iterations && self@
                == #[trigger] run_model(*cfg, start, ss)) by {
                assert(streams.len() == iterations && self@ == run_model(*cfg, start, streams));
            }
        }
        log
    }
}

/// Build a fresh swarm: every coordinate of every position and velocity
/// drawn uniformly from [lower, upper), each particle's personal best set to
/// its starting position with its exact Rastrigin value, and the global best
/// seeded from the first particle alone, not from a scan of the population:
/// a better-placed particle is recognized within the first sweep, which
/// updates the global best as soon as it reaches that particle.
pub fn init_swarm(cfg: &SwarmConfig, rng: &mut rand::rngs::StdRng) -> (s: Swarm)
    requires
        config_wf(*cfg),
    ensures
        swarm_wf(*cfg, s@),
        swarm_vel_within(s@, POS_LIMIT as int),
        forall|i: int| 0 <= i < s@.particles.len() ==> (#[trigger] s@.particles[i]).best_pos
            == s@.particles[i].pos && s@.particles[i].best_fit == rastrigin_value(
            s@.particles[i].pos),
        s@.best_pos == s@.particles[0].best_pos,
        s@.best_fit == s@.particles[0].best_fit,
{
    let mut particles: Vec<Particle> = Vec::new();
    let mut i: usize = 0;
    while i < cfg.particle_count
        invariant
            config_wf(*cfg),
            i <= cfg.particle_count,
            particles@.len() == i,
            forall|k: int| 0 <= k < i ==> particle_wf(*cfg, #[trigger] particles@[k]@),
            forall|k: int| 0 <= k < i ==> vel_within(#[trigger] particles@[k]@, POS_LIMIT as int),
            forall|k: int| 0 <= k < i ==> (#[trigger] particles@[k]@).best_pos
                == particles@[k]@.pos && particles@[k]@.best_fit == rastrigin_value(
                particles@[k]@.pos),
        decreases cfg.particle_count - i,
    {
        let params: Vec<i64> = draw_vec(cfg, rng);
        let velocity: Vec<i64> = draw_vec(cfg, rng);
        let best: Vec<i64> = copy_vec(&params);
        proof {
            assert forall|k: int| 0 <= k < params@.len() implies -POS_LIMIT
                <= #[trigger] params@[k] <= POS_LIMIT by {
                assert(cfg.lower <= params@[k] <= cfg.upper);
            }
            assert(coords_in_limit(coords(params@)));
        }
        let fit: i64 = rastrigin(&params);
        let p = Particle {
            position: params,
            velocity: velocity,
            best_position: best,
            best_fitness: fit,
        };
        particles.push(p);
        i = i + 1;
    }
    let g_pos: Vec<i64> = copy_vec(&particles[0].best_position);
    let g_fit: i64 = particles[0].best_fitness;
    let s = Swarm { particles: particles, global_best_position: g_pos, global_best_fitness: g_fit };
    proof {
        assert(forall|k: int| 0 <= k < s@.particles.len() ==> #[trigger] s@.particles[k]
            == s.particles@[k]@);
        assert(s@.best_pos =~= s@.particles[0].best_pos);
    }
    s
}

/// Draw one coordinate vector of the configured dimensionality, each entry
/// uniform in [lower, upper).
fn draw_vec(cfg: &SwarmConfig, rng: &mut rand::rngs::StdRng) -> (v: Vec<i64>)
    requires
        config_wf(*cfg),
    ensures
        v@.len() == cfg.dim,
        forall|k: int| 0 <= k < v@.len() ==> cfg.lower <= #[trigger] v@[k] <= cfg.upper,
        seq_in_range(coords(v@), cfg.lower as int, cfg.upper as int),
{
    let mut v: Vec<i64> = Vec::new();
    let mut j: usize = 0;
    while j < cfg.dim
        invariant
            config_wf(*cfg),
            j <= cfg.dim,
            v@.len() == j,
            forall|k: int| 0 <= k < j ==> cfg.lower <= #[trigger] v@[k] <= cfg.upper,
        decreases cfg.dim - j,
    {
        let c: i64 = crate::rng::sample_in_range(rng, cfg.lower, cfg.upper);
        v.push(c);
        j = j + 1;
    }
    v
}

} // verus!
