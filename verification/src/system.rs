use vstd::prelude::*;
use crate::fixed::{Vec2, Vec2Model, vec2, mul_fp_spec, COORD_LIMIT, DELTA_LIMIT, PART_LIMIT,
    SCALE};
use crate::particle::{Particle, ParticleModel, particle_in_bounds, step_model, step_one,
    DEFAULT_RADIUS, DEFAULT_DECAY_RATE};
use crate::rng::sample_jitter;
use vstd::arithmetic::div_mod::{lemma_fundamental_div_mod, lemma_div_multiples_vanish};
use vstd::arithmetic::mul::lemma_mul_inequality;

verus! {

/// Mathematical counterpart of `ParticleSystem`, over unbounded integers.
#[verifier::ext_equal]
pub ghost struct SysModel {
    pub position: Vec2Model,
    pub gravity: Vec2Model,
    pub emit_interval: int,
    pub initial_velocity: Vec2Model,
    pub randomize: bool,
    pub rand_amount: int,
    pub particles: Seq<ParticleModel>,
    pub timer: int,
}

/// The particles of a vector, as their mathematical models, in order.
pub open spec fn models(s: Seq<Particle>) -> Seq<ParticleModel> {
    s.map_values(|p: Particle| p@)
}

/// Every particle of the sequence stepped once.
pub open spec fn stepped_models(ps: Seq<ParticleModel>, gx5: int, gy5: int, d: int) -> Seq<
    ParticleModel,
> {
    ps.map_values(|p: ParticleModel| step_model(p, gx5, gy5, d))
}

/// The particles whose radius is still positive, in order.
pub open spec fn live_models(ps: Seq<ParticleModel>) -> Seq<ParticleModel> {
    ps.filter(|p: ParticleModel| p.radius > 0)
}

/// Every particle of the sequence has a positive radius.
pub open spec fn all_live(ps: Seq<ParticleModel>) -> bool {
    forall|i: int| 0 <= i < ps.len() ==> (#[trigger] ps[i]).radius > 0
}

impl SysModel {
    /// Well-formedness: the countdown and the interval are nonnegative and
    /// every held particle is still live. Construction establishes it and
    /// every tick preserves it.
    pub open spec fn wf(self) -> bool {
        &&& self.timer >= 0
        &&& self.emit_interval >= 0
        &&& all_live(self.particles)
    }
}

/// The particle spawned by an emission: it starts at the system's emission
/// point, with the configured initial velocity plus the jitter components,
/// and with the default radius and decay rate.
pub open spec fn spawn_model(m: SysModel, jx: int, jy: int) -> ParticleModel {
    ParticleModel {
        position: m.position,
        velocity: Vec2Model { x: m.initial_velocity.x + jx, y: m.initial_velocity.y + jy },
        radius: DEFAULT_RADIUS as int,
        decay_rate: DEFAULT_DECAY_RATE as int,
    }
}

/// One tick over elapsed time `d` with jitter `(jx, jy)` offered to an
/// emission: the countdown drops by `d`; if it went below zero it is reset
/// to the interval and exactly one particle is spawned (with jitter only
/// when randomization is on); then every particle, the spawned one
/// included, takes one physics step, and those whose radius dropped to
/// zero or below are removed.
pub open spec fn tick_spec(m: SysModel, d: int, jx: int, jy: int) -> SysModel {
    let t = m.timer - d;
    let emitted = t < 0;
    let jx_eff = if m.randomize { jx } else { 0 };
    let jy_eff = if m.randomize { jy } else { 0 };
    let after_spawn = if emitted {
        m.particles.push(spawn_model(m, jx_eff, jy_eff))
    } else {
        m.particles
    };
    SysModel {
        particles: live_models(
            stepped_models(after_spawn, 5 * m.gravity.x, 5 * m.gravity.y, d),
        ),
        timer: if emitted { m.emit_interval } else { t },
        ..m
    }
}

/// Machine bounds under which a tick is computed exactly: the time step is
/// a nonnegative span of at most a thousand seconds, the configuration
/// scalars are within the coordinate limit, and every particle is within
/// the particle limit.
pub open spec fn tick_fits(m: SysModel, d: int) -> bool {
    &&& 0 <= d <= DELTA_LIMIT
    &&& m.timer - d >= i64::MIN
    &&& -COORD_LIMIT <= m.gravity.x <= COORD_LIMIT
    &&& -COORD_LIMIT <= m.gravity.y <= COORD_LIMIT
    &&& -COORD_LIMIT <= m.position.x <= COORD_LIMIT
    &&& -COORD_LIMIT <= m.position.y <= COORD_LIMIT
    &&& -COORD_LIMIT <= m.initial_velocity.x <= COORD_LIMIT
    &&& -COORD_LIMIT <= m.initial_velocity.y <= COORD_LIMIT
    &&& 0 <= m.rand_amount <= COORD_LIMIT
    &&& forall|i: int| 0 <= i < m.particles.len() ==> particle_in_bounds(#[trigger] m.particles[i])
}

/// What a tick promises: the new state is a tick over the old one for some
/// jitter within the configured amount, and with randomization off the
/// jitter plays no part at all.
pub open spec fn tick_post(pre: SysModel, post: SysModel, d: int) -> bool {
    &&& exists|jx: int, jy: int|
        -pre.rand_amount <= jx <= pre.rand_amount && -2 * pre.rand_amount <= jy <= 2
            * pre.rand_amount && post == tick_spec(pre, d, jx, jy)
    &&& !pre.randomize ==> post == tick_spec(pre, d, 0, 0)
}

/// Filtering for live particles commutes with appending one particle.
pub proof fn lemma_live_push(s: Seq<ParticleModel>, p: ParticleModel)
    ensures
        live_models(s.push(p)) == (if p.radius > 0 {
            live_models(s).push(p)
        } else {
            live_models(s)
        }),
{
    reveal(Seq::<_>::filter);
    assert(s.push(p).drop_last() =~= s);
    assert(s.push(p).last() == p);
}

/// Filtering for live particles keeps a sequence of live particles whole.
pub proof fn lemma_live_id(s: Seq<ParticleModel>)
    requires
        all_live(s),
    ensures
        live_models(s) == s,
    decreases s.len(),
{
    reveal(Seq::<_>::filter);
    if s.len() > 0 {
        assert forall|i: int| 0 <= i < s.drop_last().len() implies (#[trigger] s.drop_last()[i]).radius
            > 0 by {
            assert(s.drop_last()[i] == s[i]);
        }
        lemma_live_id(s.drop_last());
        assert(s[s.len() - 1].radius > 0);
        assert(live_models(s) =~= s);
    }
}

/// Removal correctness: whatever the starting state, a tick removes every
/// particle whose radius decayed to zero or below — each particle that
/// remains is live, so none of them ever reaches a draw pass.
pub proof fn lemma_tick_removes_dead(m: SysModel, d: int, jx: int, jy: int)
    ensures
        all_live(tick_spec(m, d, jx, jy).particles),
{
    broadcast use vstd::seq_lib::group_filter_ensures;

    let post = tick_spec(m, d, jx, jy);
    assert forall|i: int| 0 <= i < post.particles.len() implies (#[trigger] post.particles[i]).radius
        > 0 by {
    }
}

/// A tick preserves well-formedness.
pub proof fn lemma_tick_spec_wf(m: SysModel, d: int, jx: int, jy: int)
    requires
        m.wf(),
        0 <= d,
    ensures
        tick_spec(m, d, jx, jy).wf(),
{
    lemma_tick_removes_dead(m, d, jx, jy);
}

/// The system `m` ticked `n` times with time step `d` and no jitter.
pub open spec fn iter_tick(m: SysModel, d: int, n: nat) -> SysModel
    decreases n,
{
    if n == 0 {
        m
    } else {
        tick_spec(iter_tick(m, d, (n - 1) as nat), d, 0, 0)
    }
}

/// No burst emission: a single tick grows the particle count by at most
/// one, no matter how far the time step overshoots the emission interval.
pub proof fn lemma_no_burst(m: SysModel, d: int, jx: int, jy: int)
    ensures
        tick_spec(m, d, jx, jy).particles.len() <= m.particles.len() + 1,
{
    broadcast use vstd::seq_lib::group_filter_ensures;

}

/// Zero-delta idempotence: a tick over an elapsed time of zero changes
/// nothing on a well-formed system, whatever jitter is offered; repeated
/// such ticks change nothing either.
pub proof fn lemma_zero_delta_tick(m: SysModel, jx: int, jy: int)
    requires
        m.wf(),
    ensures
        tick_spec(m, 0, jx, jy) == m,
{
    let gx5 = 5 * m.gravity.x;
    let gy5 = 5 * m.gravity.y;
    let stepped = stepped_models(m.particles, gx5, gy5, 0);
    assert forall|i: int| 0 <= i < m.particles.len() implies stepped[i] == m.particles[i] by {
        let p = m.particles[i];
        assert(mul_fp_spec(gx5, 0) == 0);
        assert(mul_fp_spec(gy5, 0) == 0);
        assert(mul_fp_spec(p.decay_rate, 0) == 0);
        assert(step_model(p, gx5, gy5, 0) =~= p);
    }
    assert(stepped =~= m.particles);
    lemma_live_id(m.particles);
    assert(tick_spec(m, 0, jx, jy) =~= m);
}

/// Zero-delta idempotence, iterated: any number of zero-delta ticks
/// leaves a well-formed system exactly as it was.
pub proof fn lemma_zero_delta_iter(m: SysModel, n: nat)
    requires
        m.wf(),
    ensures
        iter_tick(m, 0, n) == m,
    decreases n,
{
    if n > 0 {
        lemma_zero_delta_iter(m, (n - 1) as nat);
        lemma_zero_delta_tick(m, 0, 0);
    }
}

/// Deterministic path without randomization: with `randomize` off the
/// offered jitter plays no part, so two systems in the same state ticked
/// with the same time step stay in the same state — in particular two
/// particles spawned from the same position with the same initial
/// velocity follow identical trajectories.
pub proof fn lemma_deterministic_no_jitter(
    m: SysModel,
    d: int,
    jx: int,
    jy: int,
    jx2: int,
    jy2: int,
)
    requires
        !m.randomize,
    ensures
        tick_spec(m, d, jx, jy) == tick_spec(m, d, jx2, jy2),
{
}

proof fn lemma_cadence_aux(m: SysModel, d: int, k: int)
    requires
        m.wf(),
        !m.randomize,
        m.particles.len() == 0,
        m.timer == m.emit_interval,
        0 < d < m.emit_interval,
        0 <= k <= m.emit_interval / d,
    ensures
        iter_tick(m, d, k as nat).timer == m.emit_interval - k * d,
        iter_tick(m, d, k as nat).particles.len() == 0,
        iter_tick(m, d, k as nat).emit_interval == m.emit_interval,
    decreases k,
{
    broadcast use vstd::seq_lib::group_filter_ensures;

    let cur = iter_tick(m, d, k as nat);
    if k == 0 {
        assert(0 * d == 0) by (nonlinear_arith);
    } else {
        lemma_cadence_aux(m, d, k - 1);
        let prev = iter_tick(m, d, (k - 1) as nat);
        assert((k - 1) * d == k * d - d) by (nonlinear_arith);
        lemma_fundamental_div_mod(m.emit_interval, d);
        lemma_mul_inequality(k, m.emit_interval / d, d);
        assert(k * d <= (m.emit_interval / d) * d);
        assert(m.emit_interval - k * d >= 0);
        assert(prev.timer - d == m.emit_interval - k * d);
        assert(cur == tick_spec(prev, d, 0, 0));
        assert(cur.timer == m.emit_interval - k * d);
        assert(stepped_models(prev.particles, 5 * prev.gravity.x, 5 * prev.gravity.y, d).len()
            == 0);
    }
}

/// Emission cadence: starting right after an emission (countdown equal to
/// the interval `I`) with randomization off and no live particles, ticking
/// repeatedly with a fixed step `0 < d < I` (shorter than a second) emits
/// nothing for the first `I / d` ticks and exactly one particle on the
/// tick after that, which also returns the countdown to the full interval
/// — so the count rises by exactly one every `I / d + 1` ticks, which is
/// every `ceil(I / d)` ticks whenever `d` does not divide `I` exactly.
pub proof fn lemma_emission_cadence(m: SysModel, d: int)
    requires
        m.wf(),
        !m.randomize,
        m.particles.len() == 0,
        m.timer == m.emit_interval,
        0 < d < m.emit_interval,
        d < SCALE,
    ensures
        forall|k: int|
            0 <= k <= m.emit_interval / d ==> #[trigger] iter_tick(m, d, k as nat).timer
                == m.emit_interval - k * d,
        forall|k: int|
            0 <= k <= m.emit_interval / d ==> #[trigger] iter_tick(m, d, k as nat).particles.len()
                == 0,
        iter_tick(m, d, (m.emit_interval / d + 1) as nat).particles.len() == 1,
        iter_tick(m, d, (m.emit_interval / d + 1) as nat).timer == m.emit_interval,
{
    broadcast use vstd::seq_lib::group_filter_ensures;

    assert forall|k: int| 0 <= k <= m.emit_interval / d implies #[trigger] iter_tick(
        m,
        d,
        k as nat,
    ).timer == m.emit_interval - k * d && iter_tick(m, d, k as nat).particles.len() == 0 by {
        lemma_cadence_aux(m, d, k);
    }
    assert forall|k: int| 0 <= k <= m.emit_interval / d implies #[trigger] iter_tick(
        m,
        d,
        k as nat,
    ).particles.len() == 0 by {
        lemma_cadence_aux(m, d, k);
    }
    let k0 = m.emit_interval / d;
    lemma_cadence_aux(m, d, k0);
    let prev = iter_tick(m, d, k0 as nat);
    let last = iter_tick(m, d, (k0 + 1) as nat);
    lemma_fundamental_div_mod(m.emit_interval, d);
    assert(prev.timer == m.emit_interval % d);
    assert(prev.timer - d < 0);
    assert(last == tick_spec(prev, d, 0, 0));
    let sp = spawn_model(prev, 0, 0);
    let gx5 = 5 * prev.gravity.x;
    let gy5 = 5 * prev.gravity.y;
    assert(prev.particles =~= Seq::<ParticleModel>::empty());
    let after_spawn = prev.particles.push(sp);
    let stepped = stepped_models(after_spawn, gx5, gy5, d);
    assert(stepped.len() == 1);
    assert(stepped[0] == step_model(sp, gx5, gy5, d));
    assert(8000 * d == 1000 * (8 * d)) by (nonlinear_arith);
    lemma_div_multiples_vanish(8 * d, 1000);
    assert(mul_fp_spec(sp.decay_rate, d) == 8 * d);
    assert(stepped[0].radius == 8000 - 8 * d);
    assert(stepped[0].radius > 0);
    assert(stepped =~= Seq::<ParticleModel>::empty().push(stepped[0]));
    lemma_live_push(Seq::<ParticleModel>::empty(), stepped[0]);
    assert(live_models(Seq::<ParticleModel>::empty()) =~= Seq::<ParticleModel>::empty());
    assert(last.particles.len() == 1);
    assert(last.timer == prev.emit_interval);
}

/// A system with the sole purpose of handling particles: it owns the live
/// particles, the emission configuration, and the countdown to the next
/// emission. The caller updates `position` every frame, calls `tick` with
/// the elapsed time, and reads `draw` for the circles to render.
pub struct ParticleSystem {
    /// Current emission point, updated externally every frame.
    pub position: Vec2,
    /// Constant acceleration applied to every particle, scaled by a fixed
    /// 5x multiplier and by the elapsed time each tick.
    pub gravity: Vec2,
    /// Target seconds between emissions, in thousandths.
    pub emit_interval: i64,
    /// Base velocity given to newly spawned particles.
    pub initial_velocity: Vec2,
    /// Whether spawned particles get random jitter added to their velocity.
    pub randomize: bool,
    /// Largest magnitude of the x-jitter; the y-jitter spans twice that.
    pub rand_amount: i64,
    /// The live particles, in spawn order.
    pub particles: Vec<Particle>,
    /// Countdown to the next emission; managed by `tick`.
    pub interval_timer: i64,
}

impl View for ParticleSystem {
    type V = SysModel;

    open spec fn view(&self) -> SysModel {
        SysModel {
            position: self.position@,
            gravity: self.gravity@,
            emit_interval: self.emit_interval as int,
            initial_velocity: self.initial_velocity@,
            randomize: self.randomize,
            rand_amount: self.rand_amount as int,
            particles: models(self.particles@),
            timer: self.interval_timer as int,
        }
    }
}

/// One circle to render: a filled disc centered at `(x, y)` with the given
/// radius, in the fixed color the renderer chooses.
#[derive(Clone, Copy, PartialEq, Eq, Structural, Debug)]
pub struct Circle {
    pub x: i64,
    pub y: i64,
    pub radius: i64,
}

impl ParticleSystem {
    /// A newly created system with the defaults: emission point at the
    /// origin, gravity pulling down at 100 units/s^2, an emission every
    /// 0.001 s, zero initial velocity, randomization on with an amount of
    /// 50 units/s, no particles, and the countdown primed at 0.001 s.
    pub fn new() -> (s: ParticleSystem)
        ensures
            s@ == (SysModel {
                position: (Vec2Model { x: 0, y: 0 }),
                gravity: (Vec2Model { x: 0, y: 100_000 }),
                emit_interval: 1,
                initial_velocity: (Vec2Model { x: 0, y: 0 }),
                randomize: true,
                rand_amount: 50_000,
                particles: Seq::<ParticleModel>::empty(),
                timer: 1,
            }),
            s@.wf(),
    {
        let s = ParticleSystem {
            position: vec2(0, 0),
            gravity: vec2(0, 100_000),
            emit_interval: 1,
            initial_velocity: vec2(0, 0),
            randomize: true,
            rand_amount: 50_000,
            particles: Vec::new(),
            interval_timer: 1,
        };
        proof {
            assert(models(s.particles@) =~= Seq::<ParticleModel>::empty());
        }
        s
    }

    /// Sets `position` to `value`.
    pub fn position(self, value: Vec2) -> (r: ParticleSystem)
        ensures
            r@ == (SysModel { position: value@, ..self@ }),
    {
        ParticleSystem { position: value, ..self }
    }

    /// Sets `emit_interval` to `value`.
    pub fn emit_interval(self, value: i64) -> (r: ParticleSystem)
        ensures
            r@ == (SysModel { emit_interval: value as int, ..self@ }),
    {
        ParticleSystem { emit_interval: value, ..self }
    }

    /// Sets `initial_velocity` to `value`.
    pub fn initial_velocity(self, value: Vec2) -> (r: ParticleSystem)
        ensures
            r@ == (SysModel { initial_velocity: value@, ..self@ }),
    {
        ParticleSystem { initial_velocity: value, ..self }
    }

    /// Sets `particles` to `value`.
    pub fn particles(self, value: Vec<Particle>) -> (r: ParticleSystem)
        ensures
            r@ == (SysModel { particles: models(value@), ..self@ }),
    {
        ParticleSystem { particles: value, ..self }
    }

    /// Advances the system by one discrete step over the nonnegative
    /// elapsed time `delta`: the emission countdown drops by `delta`; if it
    /// went below zero it is reset to `emit_interval` and exactly one
    /// particle is spawned at the current emission point (never more, no
    /// matter how far `delta` overshoots the interval); then every
    /// particle takes one physics step and the ones whose radius reached
    /// zero or below are removed.
    pub fn tick(&mut self, delta: i64)
        requires
            tick_fits(old(self)@, delta as int),
        ensures
            tick_post(old(self)@, final(self)@, delta as int),
            old(self)@.wf() ==> final(self)@.wf(),
    {
        let ghost pre: SysModel = self@;
        let ghost d = delta as int;
        self.interval_timer = self.interval_timer - delta;
        let ghost emitted = pre.timer - d < 0;
        let mut jx: i64 = 0;
        let mut jy: i64 = 0;
        if self.interval_timer < 0 {
            self.interval_timer = self.emit_interval;
            if self.randomize {
                jx = sample_jitter(self.rand_amount);
                jy = sample_jitter(2 * self.rand_amount);
            }
            let spawned = Particle::new().position(self.position).velocity(
                vec2(self.initial_velocity.x + jx, self.initial_velocity.y + jy),
            );
            proof {
                assert(spawned@ == spawn_model(pre, jx as int, jy as int));
            }
            self.particles.push(spawned);
        }
        let ghost after_spawn: Seq<ParticleModel> = if emitted {
            pre.particles.push(
                spawn_model(
                    pre,
                    if pre.randomize { jx as int } else { 0 },
                    if pre.randomize { jy as int } else { 0 },
                ),
            )
        } else {
            pre.particles
        };
        proof {
            assert(models(self.particles@) =~= after_spawn);
            assert forall|k: int|
                0 <= k < after_spawn.len() implies particle_in_bounds(
                #[trigger] after_spawn[k],
            ) by {
                if k < pre.particles.len() {
                    assert(after_spawn[k] == pre.particles[k]);
                    assert(particle_in_bounds(pre.particles[k]));
                }
            }
        }
        let gx5 = 5 * self.gravity.x;
        let gy5 = 5 * self.gravity.y;
        let mut kept: Vec<Particle> = Vec::new();
        let mut i: usize = 0;
        let n = self.particles.len();
        proof {
            assert(models(self.particles@).take(0) =~= Seq::<ParticleModel>::empty());
            assert(models(kept@) =~= Seq::<ParticleModel>::empty());
            assert(stepped_models(Seq::<ParticleModel>::empty(), gx5 as int, gy5 as int, d)
                =~= Seq::<ParticleModel>::empty());
            broadcast use vstd::seq_lib::group_filter_ensures;

            assert(live_models(Seq::<ParticleModel>::empty()) =~= Seq::<ParticleModel>::empty());
        }
        while i < n
            invariant
                i <= n,
                n == self.particles@.len(),
                0 <= delta <= DELTA_LIMIT,
                -5 * (COORD_LIMIT as int) <= gx5 as int <= 5 * (COORD_LIMIT as int),
                -5 * (COORD_LIMIT as int) <= gy5 as int <= 5 * (COORD_LIMIT as int),
                forall|k: int|
                    0 <= k < n as int ==> particle_in_bounds(
                        #[trigger] models(self.particles@)[k],
                    ),
                models(kept@) == live_models(
                    stepped_models(
                        models(self.particles@).take(i as int),
                        gx5 as int,
                        gy5 as int,
                        delta as int,
                    ),
                ),
            decreases n - i,
        {
            let p = self.particles[i];
            proof {
                assert(p@ == models(self.particles@)[i as int]);
            }
            let q = step_one(&p, gx5, gy5, delta);
            let ghost prefix = models(self.particles@).take(i as int);
            proof {
                assert(models(self.particles@).take(i as int + 1) =~= prefix.push(p@));
                assert(stepped_models(prefix.push(p@), gx5 as int, gy5 as int, delta as int)
                    =~= stepped_models(prefix, gx5 as int, gy5 as int, delta as int).push(q@));
                lemma_live_push(
                    stepped_models(prefix, gx5 as int, gy5 as int, delta as int),
                    q@,
                );
                assert(models(kept@.push(q)) =~= models(kept@).push(q@));
            }
            if q.radius > 0 {
                kept.push(q);
            }
            i += 1;
        }
        proof {
            assert(models(self.particles@).take(n as int) =~= models(self.particles@));
        }
        self.particles = kept;
        proof {
            let post = tick_spec(pre, d, jx as int, jy as int);
            assert(self@ =~= post);
            assert(-pre.rand_amount <= jx as int <= pre.rand_amount);
            assert(-2 * pre.rand_amount <= jy as int <= 2 * pre.rand_amount);
            if !pre.randomize {
                assert(self@ == tick_spec(pre, d, 0, 0));
            }
            if pre.wf() {
                lemma_tick_spec_wf(pre, d, jx as int, jy as int);
            }
        }
    }

    /// Whether a tick over `delta` stays within the machine bounds.
    fn fits_check(&self, delta: i64) -> (b: bool)
        ensures
            b == tick_fits(self@, delta as int),
    {
        if delta < 0 || delta > DELTA_LIMIT {
            return false;
        }
        if self.interval_timer < i64::MIN + delta {
            return false;
        }
        if self.gravity.x < -COORD_LIMIT || self.gravity.x > COORD_LIMIT {
            return false;
        }
        if self.gravity.y < -COORD_LIMIT || self.gravity.y > COORD_LIMIT {
            return false;
        }
        if self.position.x < -COORD_LIMIT || self.position.x > COORD_LIMIT {
            return false;
        }
        if self.position.y < -COORD_LIMIT || self.position.y > COORD_LIMIT {
            return false;
        }
        if self.initial_velocity.x < -COORD_LIMIT || self.initial_velocity.x > COORD_LIMIT {
            return false;
        }
        if self.initial_velocity.y < -COORD_LIMIT || self.initial_velocity.y > COORD_LIMIT {
            return false;
        }
        if self.rand_amount < 0 || self.rand_amount > COORD_LIMIT {
            return false;
        }
        let mut i: usize = 0;
        let n = self.particles.len();
        while i < n
            invariant
                i <= n,
                n == self.particles@.len(),
                forall|k: int|
                    0 <= k < i as int ==> particle_in_bounds(
                        #[trigger] models(self.particles@)[k],
                    ),
            decreases n - i,
        {
            let p = self.particles[i];
            proof {
                assert(p@ == models(self.particles@)[i as int]);
            }
            if p.position.x < -PART_LIMIT || p.position.x > PART_LIMIT || p.position.y
                < -PART_LIMIT || p.position.y > PART_LIMIT || p.velocity.x < -PART_LIMIT
                || p.velocity.x > PART_LIMIT || p.velocity.y < -PART_LIMIT || p.velocity.y
                > PART_LIMIT || p.radius < -PART_LIMIT || p.radius > PART_LIMIT || p.decay_rate
                < -PART_LIMIT || p.decay_rate > PART_LIMIT {
                proof {
                    assert((i as int) < self@.particles.len() && !particle_in_bounds(
                        self@.particles[i as int],
                    ));
                    assert(!tick_fits(self@, delta as int));
                }
                return false;
            }
            i += 1;
        }
        true
    }

    /// Takes a tick when the machine bounds allow one, and reports whether
    /// it did; outside the bounds the system is left untouched.
    pub fn tick_checked(&mut self, delta: i64) -> (ticked: bool)
        ensures
            ticked == tick_fits(old(self)@, delta as int),
            ticked ==> tick_post(old(self)@, final(self)@, delta as int),
            ticked && old(self)@.wf() ==> final(self)@.wf(),
            !ticked ==> final(self)@ == old(self)@,
    {
        if self.fits_check(delta) {
            self.tick(delta);
            true
        } else {
            false
        }
    }

    /// The circles to render, one per particle, in order: each particle is
    /// drawn as a filled circle at its position with its radius. Reading
    /// them changes nothing.
    pub fn draw(&self) -> (circles: Vec<Circle>)
        ensures
            circles@.len() == self.particles@.len(),
            forall|i: int|
                0 <= i < circles@.len() ==> circles@[i] == (Circle {
                    x: self.particles@[i].position.x,
                    y: self.particles@[i].position.y,
                    radius: self.particles@[i].radius,
                }),
    {
        let mut circles: Vec<Circle> = Vec::new();
        let mut i: usize = 0;
        let n = self.particles.len();
        while i < n
            invariant
                i <= n,
                n == self.particles@.len(),
                circles@.len() == i,
                forall|k: int|
                    0 <= k < i as int ==> circles@[k] == (Circle {
                        x: self.particles@[k].position.x,
                        y: self.particles@[k].position.y,
                        radius: self.particles@[k].radius,
                    }),
            decreases n - i,
        {
            let p = self.particles[i];
            circles.push(Circle { x: p.position.x, y: p.position.y, radius: p.radius });
            i += 1;
        }
        circles
    }
}

} // verus!
