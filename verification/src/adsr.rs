//! The attack-decay-sustain-release envelope.
//!
//! Time is counted in samples since the present stage began. A stage of
//! duration `d` seconds is over once `elapsed / sample_rate >= d`, which the
//! envelope tests without rounding as `elapsed * ONE >= sample_rate * d`
//! over the stored numbers. A duration of zero or less is over at the first
//! sample.

use vstd::prelude::*;
use crate::fixed::{
    clamp, floor_div, in_range, lemma_quotient_bound, saturate, scale, scaled, Fixed, ONE,
};
use crate::source::{source_models, sources_wf, NodeId, ParamId, Source};

verus! {

/// No stage lasts this many samples: the largest sample rate times the
/// longest duration.
pub const ELAPSED_LIMIT: i64 = 429_496_729_500_000_000;

/// A level below this counts as silence: one ten-thousandth.
pub const SILENCE: i64 = 100;

#[derive(Clone, Copy, Debug, PartialEq, Eq, Structural)]
pub enum EnvelopeStage {
    Idle,
    Attack,
    Decay,
    Sustain,
    Release,
}

pub struct Adsr {
    sample_rate: u32,
    target_id: NodeId,
    param_id: ParamId,
    attack: Fixed,
    decay: Fixed,
    sustain: Fixed,
    release: Fixed,
    release_start_value: Fixed,
    stage: EnvelopeStage,
    time: i64,
    param_value: Fixed,
    base_value: Option<Fixed>,
}

/// What an envelope is, as numbers.
pub struct AdsrModel {
    pub sample_rate: int,
    pub target: int,
    pub param: ParamId,
    pub attack: int,
    pub decay: int,
    pub sustain: int,
    pub release: int,
    /// The level at which the release began.
    pub release_start: int,
    pub stage: EnvelopeStage,
    /// Samples since the stage began; zero while idle or sustaining.
    pub elapsed: int,
    pub level: int,
    /// The value the target parameter had before the envelope first touched
    /// it.
    pub base: Option<int>,
}

impl AdsrModel {
    pub open spec fn wf(self) -> bool {
        &&& 0 < self.sample_rate <= u32::MAX
        &&& 0 <= self.target
        &&& in_range(self.attack)
        &&& in_range(self.decay)
        &&& in_range(self.sustain)
        &&& in_range(self.release)
        &&& in_range(self.release_start)
        &&& in_range(self.level)
        &&& 0 <= self.elapsed < ELAPSED_LIMIT
        &&& match self.base {
            Some(b) => in_range(b),
            None => true,
        }
    }

    /// A new envelope: idle, at level one, aimed at nothing in particular.
    pub open spec fn fresh(sample_rate: int) -> AdsrModel {
        AdsrModel {
            sample_rate,
            target: 0,
            param: 0,
            attack: 0,
            decay: 0,
            sustain: 0,
            release: 0,
            release_start: 0,
            stage: EnvelopeStage::Idle,
            elapsed: 0,
            level: ONE as int,
            base: None,
        }
    }

    /// The envelope with its settings changed; each is held to range.
    pub open spec fn configured(
        self,
        target: int,
        param: ParamId,
        attack: int,
        decay: int,
        sustain: int,
        release: int,
    ) -> AdsrModel {
        AdsrModel {
            target,
            param,
            attack: clamp(attack),
            decay: clamp(decay),
            sustain: clamp(sustain),
            release: clamp(release),
            ..self
        }
    }

    /// The time that this sample reaches, on the scale of `span`.
    pub open spec fn reached(self) -> int {
        (self.elapsed + 1) * (ONE as int)
    }

    /// A duration on the scale of `reached`.
    pub open spec fn span(self, duration: int) -> int {
        self.sample_rate * duration
    }

    /// The envelope one sample later.
    ///
    /// Idle, its level is zero. In the attack the level is the share of the
    /// attack that has passed; with the sample at which all of it has passed
    /// the level is one and the decay begins. In the decay the level is one
    /// less the share of the decay that has passed times the distance from
    /// one to the sustain level, also with the sample at which the decay runs
    /// out, after which the envelope sustains; a decay of zero or less goes
    /// to the sustain level at once. Sustaining, the level is the sustain
    /// level. In the release the level is the level at which the release
    /// began times the share of the release that is left; with the sample at
    /// which none is left the level is zero and the envelope is idle.
    pub open spec fn stepped(self) -> AdsrModel {
        match self.stage {
            EnvelopeStage::Idle => AdsrModel { level: 0, ..self },
            EnvelopeStage::Attack => {
                if self.reached() >= self.span(self.attack) {
                    AdsrModel {
                        level: ONE as int,
                        stage: EnvelopeStage::Decay,
                        elapsed: 0,
                        ..self
                    }
                } else {
                    AdsrModel {
                        level: self.reached() * (ONE as int) / self.span(self.attack),
                        elapsed: self.elapsed + 1,
                        ..self
                    }
                }
            },
            EnvelopeStage::Decay => {
                if self.decay <= 0 {
                    AdsrModel {
                        level: self.sustain,
                        stage: EnvelopeStage::Sustain,
                        elapsed: 0,
                        ..self
                    }
                } else {
                    let fall = self.reached() * (ONE - self.sustain) / self.span(self.decay);
                    if self.reached() >= self.span(self.decay) {
                        AdsrModel {
                            level: clamp(ONE - fall),
                            stage: EnvelopeStage::Sustain,
                            elapsed: 0,
                            ..self
                        }
                    } else {
                        AdsrModel { level: clamp(ONE - fall), elapsed: self.elapsed + 1, ..self }
                    }
                }
            },
            EnvelopeStage::Sustain => AdsrModel { level: self.sustain, ..self },
            EnvelopeStage::Release => {
                if self.reached() >= self.span(self.release) {
                    AdsrModel { level: 0, stage: EnvelopeStage::Idle, elapsed: 0, ..self }
                } else {
                    let left = self.span(self.release) - self.reached();
                    AdsrModel {
                        level: clamp(self.release_start * left / self.span(self.release)),
                        elapsed: self.elapsed + 1,
                        ..self
                    }
                }
            },
        }
    }

    /// The base value, once the target parameter has been seen to hold
    /// `seen`.
    pub open spec fn base_given(self, seen: int) -> int {
        match self.base {
            Some(b) => b,
            None => seen,
        }
    }

    /// The envelope after a tick that found the target parameter at `seen`.
    pub open spec fn ticked(self, seen: int) -> AdsrModel {
        AdsrModel { base: Some(self.base_given(seen)), ..self.stepped() }
    }

    /// What that tick writes to the target parameter: the base value times
    /// the new level.
    pub open spec fn written(self, seen: int) -> int {
        scaled(self.base_given(seen), self.stepped().level)
    }

    /// The envelope at the start of a note: at the start of its attack.
    pub open spec fn triggered(self) -> AdsrModel {
        AdsrModel { stage: EnvelopeStage::Attack, elapsed: 0, ..self }
    }

    /// The envelope at the end of a note: at the start of its release, which
    /// sets out from the present level.
    pub open spec fn let_go(self) -> AdsrModel {
        AdsrModel {
            stage: EnvelopeStage::Release,
            elapsed: 0,
            release_start: self.level,
            ..self
        }
    }

    pub open spec fn is_active(self) -> bool {
        self.stage != EnvelopeStage::Idle
    }

    pub open spec fn is_released(self) -> bool {
        self.stage == EnvelopeStage::Idle
    }

    /// Whether the envelope has run its course and holds its parameter at
    /// silence.
    pub open spec fn is_silent(self) -> bool {
        self.level < SILENCE && self.is_released()
    }
}

impl AdsrModel {
    /// The envelope `count` samples later.
    pub open spec fn stepped_times(self, count: nat) -> AdsrModel
        decreases count,
    {
        if count == 0 {
            self
        } else {
            self.stepped_times((count - 1) as nat).stepped()
        }
    }
}

/// Time changes the stage, the time within it and the level, and nothing
/// else.
pub proof fn lemma_steps_keep_settings(m: AdsrModel, count: nat)
    ensures
        m.stepped_times(count) == (AdsrModel {
            stage: m.stepped_times(count).stage,
            elapsed: m.stepped_times(count).elapsed,
            level: m.stepped_times(count).level,
            ..m
        }),
    decreases count,
{
    if count > 0 {
        lemma_steps_keep_settings(m, (count - 1) as nat);
    }
}

/// The attack climbs in a straight line. `count` samples after a note has
/// started, and while the attack has not run out before, the level is the
/// share of the attack that has passed; with the sample at which the attack
/// runs out the level is one, and the decay begins.
pub proof fn lemma_attack_ramp(m: AdsrModel, count: nat)
    requires
        count >= 1,
        (count - 1) * ONE < m.span(m.attack),
    ensures
        ({
            let after = m.triggered().stepped_times(count);
            if count * ONE < m.span(m.attack) {
                &&& after.stage == EnvelopeStage::Attack
                &&& after.elapsed == count
                &&& after.level == count * ONE * ONE / m.span(m.attack)
            } else {
                &&& after.stage == EnvelopeStage::Decay
                &&& after.elapsed == 0
                &&& after.level == ONE
            }
        }),
    decreases count,
{
    let start = m.triggered();
    if count > 1 {
        lemma_attack_ramp(m, (count - 1) as nat);
    }
    let before = start.stepped_times((count - 1) as nat);
    lemma_steps_keep_settings(start, (count - 1) as nat);
    assert(count == 1 ==> before == start);
    assert(before.stage == EnvelopeStage::Attack && before.elapsed == count - 1);
    assert(before.reached() == count * ONE);
}

/// The decay falls in a straight line from one towards the sustain level.
/// `count` samples after a decay of more than zero has begun, and while it
/// has not run out before, the level is one less the share of the decay that
/// has passed times the distance from one to the sustain level; with the
/// sample at which the decay runs out the envelope sustains.
pub proof fn lemma_decay_ramp(m: AdsrModel, count: nat)
    requires
        m.stage == EnvelopeStage::Decay,
        m.elapsed == 0,
        m.decay > 0,
        count >= 1,
        (count - 1) * ONE < m.span(m.decay),
    ensures
        ({
            let after = m.stepped_times(count);
            &&& after.level == clamp(
                ONE - count * ONE * (ONE - m.sustain) / m.span(m.decay),
            )
            &&& if count * ONE < m.span(m.decay) {
                after.stage == EnvelopeStage::Decay && after.elapsed == count
            } else {
                after.stage == EnvelopeStage::Sustain && after.elapsed == 0
            }
        }),
    decreases count,
{
    if count > 1 {
        lemma_decay_ramp(m, (count - 1) as nat);
    }
    let before = m.stepped_times((count - 1) as nat);
    lemma_steps_keep_settings(m, (count - 1) as nat);
    assert(count == 1 ==> before == m);
    assert(before.stage == EnvelopeStage::Decay && before.elapsed == count - 1);
    assert(before.reached() == count * ONE);
}

/// While it sustains, the envelope holds the sustain level.
pub proof fn lemma_sustain_holds(m: AdsrModel, count: nat)
    requires
        m.stage == EnvelopeStage::Sustain,
        count >= 1,
    ensures
        m.stepped_times(count).stage == EnvelopeStage::Sustain,
        m.stepped_times(count).level == m.sustain,
    decreases count,
{
    if count > 1 {
        lemma_sustain_holds(m, (count - 1) as nat);
    }
    lemma_steps_keep_settings(m, (count - 1) as nat);
    assert(count == 1 ==> m.stepped_times((count - 1) as nat) == m);
}

/// The release falls in a straight line from the level at which the note
/// ended to zero. `count` samples after the note has ended, and while the
/// release has not run out before, the level is that level times the share of
/// the release that is left; with the sample at which the release runs out
/// the level is zero and the envelope is idle, released and silent.
pub proof fn lemma_release_ramp(m: AdsrModel, count: nat)
    requires
        count >= 1,
        (count - 1) * ONE < m.span(m.release),
    ensures
        ({
            let after = m.let_go().stepped_times(count);
            if count * ONE < m.span(m.release) {
                &&& after.stage == EnvelopeStage::Release
                &&& after.elapsed == count
                &&& after.level == clamp(
                    m.level * (m.span(m.release) - count * ONE) / m.span(m.release),
                )
                &&& !after.is_released()
            } else {
                &&& after.stage == EnvelopeStage::Idle
                &&& after.level == 0
                &&& after.is_released()
                &&& after.is_silent()
            }
        }),
    decreases count,
{
    let start = m.let_go();
    if count > 1 {
        lemma_release_ramp(m, (count - 1) as nat);
    }
    let before = start.stepped_times((count - 1) as nat);
    lemma_steps_keep_settings(start, (count - 1) as nat);
    assert(count == 1 ==> before == start);
    assert(before.stage == EnvelopeStage::Release && before.elapsed == count - 1);
    assert(before.reached() == count * ONE);
}

/// An idle envelope stays idle, at level zero.
pub proof fn lemma_idle_stays(m: AdsrModel, count: nat)
    requires
        m.stage == EnvelopeStage::Idle,
        count >= 1,
    ensures
        m.stepped_times(count).stage == EnvelopeStage::Idle,
        m.stepped_times(count).level == 0,
        m.stepped_times(count).is_silent(),
    decreases count,
{
    if count > 1 {
        lemma_idle_stays(m, (count - 1) as nat);
    }
    assert(count == 1 ==> m.stepped_times((count - 1) as nat) == m);
}

impl View for Adsr {
    type V = AdsrModel;

    closed spec fn view(&self) -> AdsrModel {
        AdsrModel {
            sample_rate: self.sample_rate as int,
            target: self.target_id as int,
            param: self.param_id,
            attack: self.attack as int,
            decay: self.decay as int,
            sustain: self.sustain as int,
            release: self.release as int,
            release_start: self.release_start_value as int,
            stage: self.stage,
            elapsed: self.time as int,
            level: self.param_value as int,
            base: match self.base_value {
                Some(b) => Some(b as int),
                None => None,
            },
        }
    }
}

/// A step of the envelope keeps it well formed.
pub proof fn lemma_stepped_wf(m: AdsrModel)
    requires
        m.wf(),
    ensures
        m.stepped().wf(),
{
    let one = ONE as int;
    if m.stage == EnvelopeStage::Attack && m.reached() < m.span(m.attack) {
        lemma_span_bound(m.sample_rate, m.attack);
        let d = m.span(m.attack);
        assert(0 <= m.reached() * one <= d * one) by (nonlinear_arith)
            requires
                0 <= m.reached() < d,
                one == 1_000_000,
        ;
        vstd::arithmetic::div_mod::lemma_div_is_ordered(0, m.reached() * one, d);
        vstd::arithmetic::div_mod::lemma_div_is_ordered(m.reached() * one, d * one, d);
        vstd::arithmetic::div_mod::lemma_div_multiples_vanish(one, d);
        vstd::arithmetic::div_mod::lemma_div_of0(d);
    }
    if m.stage == EnvelopeStage::Decay && m.decay > 0 && m.reached() < m.span(m.decay) {
        lemma_span_bound(m.sample_rate, m.decay);
    }
    if m.stage == EnvelopeStage::Release && m.reached() < m.span(m.release) {
        lemma_span_bound(m.sample_rate, m.release);
    }
}

/// No span is longer than the largest sample rate times the longest
/// duration.
pub proof fn lemma_span_bound(sample_rate: int, duration: int)
    requires
        0 < sample_rate <= u32::MAX,
        in_range(duration),
    ensures
        -ELAPSED_LIMIT * ONE <= sample_rate * duration <= ELAPSED_LIMIT * ONE,
{
    assert(-4_294_967_295 * 100_000_000_000_000 <= sample_rate * duration <= 4_294_967_295
        * 100_000_000_000_000) by (nonlinear_arith)
        requires
            0 < sample_rate <= 4_294_967_295,
            -100_000_000_000_000 <= duration <= 100_000_000_000_000,
    ;
}

impl Adsr {
    pub open spec fn wf(&self) -> bool {
        self@.wf()
    }

    pub fn new(sample_rate: u32) -> (adsr: Self)
        requires
            sample_rate > 0,
        ensures
            adsr@ == AdsrModel::fresh(sample_rate as int),
            adsr.wf(),
    {
        Adsr {
            sample_rate,
            target_id: 0,
            param_id: 0,
            attack: 0,
            decay: 0,
            sustain: 0,
            release: 0,
            release_start_value: 0,
            stage: EnvelopeStage::Idle,
            time: 0,
            param_value: ONE,
            base_value: None,
        }
    }

    pub fn configure(
        &mut self,
        target_id: NodeId,
        param_id: ParamId,
        attack: Fixed,
        decay: Fixed,
        sustain: Fixed,
        release: Fixed,
    )
        requires
            old(self).wf(),
        ensures
            final(self)@ == old(self)@.configured(
                target_id as int,
                param_id,
                attack as int,
                decay as int,
                sustain as int,
                release as int,
            ),
            final(self).wf(),
    {
        self.target_id = target_id;
        self.param_id = param_id;
        self.attack = saturate(attack as i128);
        self.decay = saturate(decay as i128);
        self.sustain = saturate(sustain as i128);
        self.release = saturate(release as i128);
    }

    pub fn get_level(&self) -> (level: Fixed)
        ensures
            level == self@.level,
    {
        self.param_value
    }

    /// The place, among the sources, of the one this envelope shapes.
    pub fn target(&self) -> (id: NodeId)
        ensures
            id == self@.target,
    {
        self.target_id
    }

    /// `sample_rate * duration`.
    fn span(&self, duration: Fixed) -> (r: i128)
        requires
            self.wf(),
            in_range(duration as int),
        ensures
            r == self@.span(duration as int),
            -ELAPSED_LIMIT * ONE <= r <= ELAPSED_LIMIT * ONE,
    {
        proof {
            lemma_span_bound(self.sample_rate as int, duration as int);
        }
        (self.sample_rate as i128) * (duration as i128)
    }

    /// Moves the envelope on by one sample.
    fn step(&mut self)
        requires
            old(self).wf(),
        ensures
            final(self)@ == old(self)@.stepped(),
            final(self).wf(),
    {
        proof {
            lemma_stepped_wf(self@);
        }
        let reached: i128 = (self.time as i128 + 1) * (ONE as i128);
        match self.stage {
            EnvelopeStage::Idle => {
                self.param_value = 0;
            },
            EnvelopeStage::Attack => {
                let whole: i128 = self.span(self.attack);
                if reached >= whole {
                    self.param_value = ONE;
                    self.stage = EnvelopeStage::Decay;
                    self.time = 0;
                } else {
                    self.param_value = (reached * (ONE as i128) / whole) as i64;
                    self.time = self.time + 1;
                }
            },
            EnvelopeStage::Decay => {
                if self.decay <= 0 {
                    self.param_value = self.sustain;
                    self.stage = EnvelopeStage::Sustain;
                    self.time = 0;
                } else {
                    let whole: i128 = self.span(self.decay);
                    let drop: i128 = (ONE - self.sustain) as i128;
                    assert(-429_496_729_500_000_000_000_000 * 100_000_001_000_000 <= reached * drop
                        <= 429_496_729_500_000_000_000_000 * 100_000_001_000_000)
                        by (nonlinear_arith)
                        requires
                            0 <= reached <= 429_496_729_500_000_000_000_000,
                            -100_000_001_000_000 <= drop <= 100_000_001_000_000,
                    ;
                    assert(whole > 0) by (nonlinear_arith)
                        requires
                            whole == self.sample_rate * self.decay,
                            self.sample_rate > 0,
                            self.decay > 0,
                    ;
                    let fall: i128 = floor_div(reached * drop, whole);
                    proof {
                        lemma_quotient_bound(reached * drop, whole as int);
                    }
                    self.param_value = saturate(ONE as i128 - fall);
                    if reached >= whole {
                        self.stage = EnvelopeStage::Sustain;
                        self.time = 0;
                    } else {
                        self.time = self.time + 1;
                    }
                }
            },
            EnvelopeStage::Sustain => {
                self.param_value = self.sustain;
            },
            EnvelopeStage::Release => {
                let whole: i128 = self.span(self.release);
                if reached >= whole {
                    self.param_value = 0;
                    self.stage = EnvelopeStage::Idle;
                    self.time = 0;
                } else {
                    let left: i128 = whole - reached;
                    let start: i128 = self.release_start_value as i128;
                    assert(-100_000_000_000_000 * 429_496_729_500_000_000_000_000 <= start * left
                        <= 100_000_000_000_000 * 429_496_729_500_000_000_000_000)
                        by (nonlinear_arith)
                        requires
                            0 <= left <= 429_496_729_500_000_000_000_000,
                            -100_000_000_000_000 <= start <= 100_000_000_000_000,
                    ;
                    let level: i128 = floor_div(start * left, whole);
                    self.param_value = saturate(level);
                    self.time = self.time + 1;
                }
            },
        }
    }

    /// One sample of the envelope: moves it on, and writes the base value
    /// times the new level to the target parameter.
    pub fn tick(&mut self, sources: &mut Vec<Source>)
        requires
            old(self).wf(),
            old(self)@.target < old(sources).len(),
            sources_wf(source_models(old(sources)@)),
        ensures
            final(self)@ == old(self)@.ticked(
                source_models(old(sources)@)[old(self)@.target].param(old(self)@.param),
            ),
            final(self).wf(),
            source_models(final(sources)@) == source_models(old(sources)@).update(
                old(self)@.target,
                source_models(old(sources)@)[old(self)@.target].with_param(
                    old(self)@.param,
                    old(self)@.written(
                        source_models(old(sources)@)[old(self)@.target].param(old(self)@.param),
                    ),
                ),
            ),
            sources_wf(source_models(final(sources)@)),
            final(sources)@.len() == old(sources)@.len(),
    {
        let ghost before = source_models(sources@);
        assert(before[self.target_id as int].wf());
        let seen: Fixed = sources[self.target_id].get_param(self.param_id);
        let base: Fixed = match self.base_value {
            Some(b) => b,
            None => seen,
        };
        self.base_value = Some(base);
        self.step();
        let value: Fixed = scale(base, self.param_value);
        let source = &mut sources[self.target_id];
        source.set_param(self.param_id, value);
        proof {
            let after = source_models(sources@);
            let expected = before.update(
                self.target_id as int,
                before[self.target_id as int].with_param(self.param_id, value as int),
            );
            assert(after =~= expected);
            assert forall|i: int| 0 <= i < after.len() implies (#[trigger] after[i]).wf() by {
                if i != self.target_id {
                    assert(before[i].wf());
                }
            }
        }
    }

    pub fn note_on(&mut self)
        requires
            old(self).wf(),
        ensures
            final(self)@ == old(self)@.triggered(),
            final(self).wf(),
    {
        self.stage = EnvelopeStage::Attack;
        self.time = 0;
    }

    pub fn note_off(&mut self)
        requires
            old(self).wf(),
        ensures
            final(self)@ == old(self)@.let_go(),
            final(self).wf(),
    {
        self.stage = EnvelopeStage::Release;
        self.time = 0;
        self.release_start_value = self.param_value;
    }

    pub fn is_active(&self) -> (active: bool)
        ensures
            active == self@.is_active(),
    {
        !matches!(self.stage, EnvelopeStage::Idle)
    }

    pub fn is_released(&self) -> (released: bool)
        ensures
            released == self@.is_released(),
    {
        matches!(self.stage, EnvelopeStage::Idle)
    }

    pub fn is_silent(&self) -> (silent: bool)
        ensures
            silent == self@.is_silent(),
    {
        self.get_level() < SILENCE && self.is_released()
    }
}

} // verus!
