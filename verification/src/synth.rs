//! The voice manager: a pool of instruments of fixed size, all built from
//! one patch.

use vstd::prelude::*;
use crate::fixed::{floor_div, in_range, Fixed, LIMIT};
use crate::graph::instantiated;
use crate::instrument::{lemma_mean_bound, mean, Instrument, InstrumentModel};
use crate::node::{fault_of, NodeDef, Patch, PatchError};

verus! {

pub struct Voice {
    instrument: Instrument,
    note: u8,
    velocity: u8,
    is_active: bool,
}

pub struct Synth {
    patch: Patch,
    voices: Vec<Voice>,
    active_voices: usize,
    next_voice: usize,
}

/// What a voice is, as numbers.
pub struct VoiceModel {
    pub instrument: InstrumentModel,
    pub note: u8,
    pub velocity: u8,
    pub is_active: bool,
}

/// What a voice manager is, as numbers.
pub struct SynthModel {
    pub sample_rate: int,
    pub nodes: Seq<NodeDef>,
    pub voices: Seq<VoiceModel>,
    pub active_voices: int,
    /// Where the search for a free voice starts, and which voice is stolen
    /// where none is free.
    pub next_voice: int,
}

/// The number of active voices among the first `n`.
pub open spec fn active_count(voices: Seq<VoiceModel>, n: nat) -> nat
    decreases n,
{
    if n == 0 {
        0
    } else if voices[n - 1].is_active {
        active_count(voices, (n - 1) as nat) + 1
    } else {
        active_count(voices, (n - 1) as nat)
    }
}

/// The place `steps` after `start` in a ring of `len` places.
pub open spec fn ring_place(start: int, steps: int, len: int) -> int {
    if start + steps < len {
        start + steps
    } else {
        start + steps - len
    }
}

/// The first inactive voice at `from` steps or more after `start`, going
/// round the ring once; `start` itself where there is none.
pub open spec fn free_voice(voices: Seq<VoiceModel>, start: int, from: nat) -> int
    decreases voices.len() - from,
{
    if from >= voices.len() {
        start
    } else if !voices[ring_place(start, from as int, voices.len() as int)].is_active {
        ring_place(start, from as int, voices.len() as int)
    } else {
        free_voice(voices, start, from + 1)
    }
}

/// The sum of what the active voices among the first `n` sound once each
/// has rendered a sample.
pub open spec fn mix_sum(voices: Seq<VoiceModel>, n: nat) -> int
    decreases n,
{
    if n == 0 {
        0
    } else if voices[n - 1].is_active {
        mix_sum(voices, (n - 1) as nat) + voices[n - 1].instrument.rendered().sounding()
    } else {
        mix_sum(voices, (n - 1) as nat)
    }
}

impl VoiceModel {
    /// A voice at rest, with its instrument newly built.
    pub open spec fn fresh(sample_rate: int, nodes: Seq<NodeDef>) -> VoiceModel {
        VoiceModel {
            instrument: instantiated(sample_rate, nodes),
            note: 0,
            velocity: 0,
            is_active: false,
        }
    }

    /// A voice that starts a note on an instrument newly built.
    pub open spec fn struck(
        sample_rate: int,
        nodes: Seq<NodeDef>,
        note: u8,
        velocity: u8,
    ) -> VoiceModel {
        VoiceModel {
            instrument: instantiated(sample_rate, nodes).triggered(note, velocity),
            note,
            velocity,
            is_active: true,
        }
    }

    /// The voice after the note `note` has ended: it lets go if it is
    /// active and plays that note.
    pub open spec fn let_go(self, note: u8) -> VoiceModel {
        if self.is_active && self.note == note {
            VoiceModel { instrument: self.instrument.let_go(), ..self }
        } else {
            self
        }
    }

    /// The voice one sample later. An active voice renders; if its
    /// instrument is silent after that, the voice is no longer active. A voice
    /// that is not active is left as it is.
    pub open spec fn rendered(self) -> VoiceModel {
        if self.is_active {
            VoiceModel {
                instrument: self.instrument.rendered(),
                is_active: !self.instrument.rendered().is_silent(),
                ..self
            }
        } else {
            self
        }
    }
}

impl SynthModel {
    pub open spec fn wf(self) -> bool {
        &&& fault_of(self.sample_rate, self.nodes) is None
        &&& 0 < self.sample_rate <= u32::MAX
        &&& forall|i: int| 0 <= i < self.voices.len() ==> (#[trigger] self.voices[i]).instrument.wf()
        &&& self.active_voices == active_count(self.voices, self.voices.len())
        &&& 0 <= self.next_voice
        &&& self.next_voice < self.voices.len() || (self.next_voice == 0 && self.voices.len() == 0)
    }

    /// A pool of `capacity` voices at rest.
    pub open spec fn fresh(sample_rate: int, nodes: Seq<NodeDef>, capacity: nat) -> SynthModel {
        SynthModel {
            sample_rate,
            nodes,
            voices: Seq::new(capacity, |i: int| VoiceModel::fresh(sample_rate, nodes)),
            active_voices: 0,
            next_voice: 0,
        }
    }

    /// The voice that the next note is given: the first inactive one from
    /// the cursor on, going round once, or the one at the cursor where all are
    /// active.
    pub open spec fn chosen(self) -> int {
        free_voice(self.voices, self.next_voice, 0)
    }

    /// The pool after a note has started. An empty pool stays as it is.
    /// Otherwise the chosen voice starts the note on an instrument newly
    /// built, and the cursor moves to the place after it in the ring.
    pub open spec fn struck(self, note: u8, velocity: u8) -> SynthModel {
        if self.voices.len() == 0 {
            self
        } else {
            let voices = self.voices.update(
                self.chosen(),
                VoiceModel::struck(self.sample_rate, self.nodes, note, velocity),
            );
            SynthModel {
                voices,
                active_voices: active_count(voices, voices.len()) as int,
                next_voice: ring_place(self.chosen(), 1, self.voices.len() as int),
                ..self
            }
        }
    }

    /// The pool after the note `note` has ended.
    pub open spec fn let_go(self, note: u8) -> SynthModel {
        SynthModel {
            voices: Seq::new(self.voices.len(), |i: int| self.voices[i].let_go(note)),
            ..self
        }
    }

    /// The pool one sample later.
    pub open spec fn rendered(self) -> SynthModel {
        let voices = Seq::new(self.voices.len(), |i: int| self.voices[i].rendered());
        SynthModel { voices, active_voices: active_count(voices, voices.len()) as int, ..self }
    }

    /// The sample that goes with `rendered`: the mean of what the voices
    /// sound that were active before it; zero where none was.
    pub open spec fn mix(self) -> int {
        mean(
            mix_sum(self.voices, self.voices.len()),
            active_count(self.voices, self.voices.len()) as int,
        )
    }
}

impl View for Voice {
    type V = VoiceModel;

    closed spec fn view(&self) -> VoiceModel {
        VoiceModel {
            instrument: self.instrument@,
            note: self.note,
            velocity: self.velocity,
            is_active: self.is_active,
        }
    }
}

/// The voices of a list, each as numbers.
pub open spec fn voice_models(voices: Seq<Voice>) -> Seq<VoiceModel> {
    Seq::new(voices.len(), |i: int| voices[i]@)
}

impl View for Synth {
    type V = SynthModel;

    closed spec fn view(&self) -> SynthModel {
        SynthModel {
            sample_rate: self.patch.sample_rate as int,
            nodes: self.patch.nodes@,
            voices: voice_models(self.voices@),
            active_voices: self.active_voices as int,
            next_voice: self.next_voice as int,
        }
    }
}

/// No more voices are active than there are.
pub proof fn lemma_active_count_bound(voices: Seq<VoiceModel>, n: nat)
    ensures
        active_count(voices, n) <= n,
    decreases n,
{
    if n > 0 {
        lemma_active_count_bound(voices, (n - 1) as nat);
    }
}

/// The chosen voice is one of the pool.
pub proof fn lemma_free_voice_in_range(voices: Seq<VoiceModel>, start: int, from: nat)
    requires
        0 <= start < voices.len(),
    ensures
        0 <= free_voice(voices, start, from) < voices.len(),
    decreases voices.len() - from,
{
    if from < voices.len() {
        lemma_free_voice_in_range(voices, start, from + 1);
    }
}

/// Two lists of voices that agree on their first `n` voices have the same
/// number of active ones there, and those sound the same.
pub proof fn lemma_prefix_agrees(a: Seq<VoiceModel>, b: Seq<VoiceModel>, n: nat)
    requires
        n <= a.len(),
        n <= b.len(),
        forall|k: int| 0 <= k < n ==> a[k] == b[k],
    ensures
        active_count(a, n) == active_count(b, n),
        mix_sum(a, n) == mix_sum(b, n),
    decreases n,
{
    if n > 0 {
        lemma_prefix_agrees(a, b, (n - 1) as nat);
    }
}

/// Setting one voice changes the number of active voices by what that
/// voice changes.
pub proof fn lemma_active_count_update(voices: Seq<VoiceModel>, i: int, v: VoiceModel, n: nat)
    requires
        0 <= i < voices.len(),
        n <= voices.len(),
    ensures
        active_count(voices.update(i, v), n) == active_count(voices, n) + (if i < n
            && v.is_active && !voices[i].is_active {
            1int
        } else if i < n && !v.is_active && voices[i].is_active {
            -1int
        } else {
            0int
        }),
    decreases n,
{
    if n > 0 {
        lemma_active_count_update(voices, i, v, (n - 1) as nat);
    }
}

/// Where the search finds no inactive voice, every voice it passed is
/// active.
pub proof fn lemma_free_voice_none(voices: Seq<VoiceModel>, start: int, from: nat)
    requires
        0 <= start < voices.len(),
        from <= voices.len(),
        forall|k: int|
            from <= k < voices.len() ==> voices[ring_place(start, k, voices.len() as int)].is_active,
    ensures
        free_voice(voices, start, from) == start,
    decreases voices.len() - from,
{
    if from < voices.len() {
        lemma_free_voice_none(voices, start, from + 1);
    }
}

/// Where every voice is active, all of them count.
pub proof fn lemma_all_active(voices: Seq<VoiceModel>, n: nat)
    requires
        n <= voices.len(),
        forall|k: int| 0 <= k < n ==> voices[k].is_active,
    ensures
        active_count(voices, n) == n,
    decreases n,
{
    if n > 0 {
        lemma_all_active(voices, (n - 1) as nat);
    }
}

impl Voice {
    pub fn note(&self) -> (note: u8)
        ensures
            note == self@.note,
    {
        self.note
    }

    pub fn velocity(&self) -> (velocity: u8)
        ensures
            velocity == self@.velocity,
    {
        self.velocity
    }

    pub fn is_active(&self) -> (active: bool)
        ensures
            active == self@.is_active,
    {
        self.is_active
    }
}

impl Synth {
    pub open spec fn wf(&self) -> bool {
        self@.wf()
    }

    /// Builds a pool of `max_polyphony` voices from a patch, or says what is
    /// wrong with the patch.
    pub fn new(patch: Patch, max_polyphony: usize) -> (r: Result<Synth, PatchError>)
        ensures
            match r {
                Ok(synth) => {
                    &&& patch.valid()
                    &&& synth@ == SynthModel::fresh(
                        patch.sample_rate as int,
                        patch.nodes@,
                        max_polyphony as nat,
                    )
                    &&& synth.wf()
                },
                Err(e) => patch.fault() == Some(e),
            },
    {
        match patch.validate() {
            Err(e) => {
                return Err(e);
            },
            Ok(_) => {},
        }
        let mut voices: Vec<Voice> = Vec::with_capacity(max_polyphony);
        let mut i: usize = 0;
        while i < max_polyphony
            invariant
                i <= max_polyphony,
                patch.valid(),
                voices@.len() == i,
                forall|k: int|
                    0 <= k < i ==> (#[trigger] voices@[k])@ == VoiceModel::fresh(
                        patch.sample_rate as int,
                        patch.nodes@,
                    ),
                forall|k: int| 0 <= k < i ==> (#[trigger] voices@[k])@.instrument.wf(),
            decreases max_polyphony - i,
        {
            match Instrument::from_patch(&patch) {
                Ok(instrument) => {
                    voices.push(Voice { instrument, note: 0, velocity: 0, is_active: false });
                },
                Err(_) => {
                    assert(false);
                },
            }
            i = i + 1;
        }
        let synth = Synth { patch, voices, active_voices: 0, next_voice: 0 };
        proof {
            let goal = SynthModel::fresh(
                patch.sample_rate as int,
                patch.nodes@,
                max_polyphony as nat,
            );
            assert(synth@.voices =~= goal.voices);
            lemma_none_active(synth@.voices, max_polyphony as nat);
            assert forall|k: int| 0 <= k < synth@.voices.len() implies (
            #[trigger] synth@.voices[k]).instrument.wf() by {
                assert(synth.voices@[k]@.instrument.wf());
            }
        }
        Ok(synth)
    }

    /// The number of voices that sound.
    pub fn active_voices(&self) -> (count: usize)
        ensures
            count == self@.active_voices,
    {
        self.active_voices
    }

    /// The voices of the pool, in their places.
    pub fn voices(&self) -> (voices: &Vec<Voice>)
        ensures
            voice_models(voices@) == self@.voices,
    {
        &self.voices
    }
}

impl Synth {
    /// Starts a note on the first free voice from the cursor on, or, where
    /// none is free, on the voice at the cursor, whose note is cut off. A
    /// pool without voices does nothing.
    pub fn note_on(&mut self, note: u8, velocity: u8)
        requires
            old(self).wf(),
        ensures
            final(self)@ == old(self)@.struck(note, velocity),
            final(self).wf(),
    {
        let ghost start_model = self@;
        let len: usize = self.voices.len();
        if len == 0 {
            return ;
        }
        let start: usize = self.next_voice;
        let mut chosen: usize = start;
        let mut i: usize = 0;
        while i < len
            invariant_except_break
                i <= len,
                chosen == start,
                forall|k: int|
                    0 <= k < i ==> start_model.voices[ring_place(start as int, k, len as int)].is_active,
                free_voice(start_model.voices, start as int, 0) == free_voice(
                    start_model.voices,
                    start as int,
                    i as nat,
                ),
                i == len ==> forall|k: int| 0 <= k < len ==> start_model.voices[k].is_active,
            invariant
                len == self.voices.len(),
                len == start_model.voices.len(),
                start < len,
                start == start_model.next_voice,
                start_model.wf(),
                self@ == start_model,
            ensures
                chosen == start_model.chosen(),
                chosen < len,
                i < len ==> !start_model.voices[chosen as int].is_active,
                i >= len ==> forall|k: int| 0 <= k < len ==> start_model.voices[k].is_active,
            decreases len - i,
        {
            let idx: usize = if i < len - start {
                start + i
            } else {
                i - (len - start)
            };
            assert(idx == ring_place(start as int, i as int, len as int));
            assert(start_model.voices[idx as int] == self.voices@[idx as int]@);
            if !self.voices[idx].is_active {
                chosen = idx;
                break ;
            }
            i = i + 1;
            proof {
                if i == len {
                    assert forall|k: int| 0 <= k < len implies start_model.voices[k].is_active by {
                        let steps = if k >= start {
                            k - start
                        } else {
                            k + len - start
                        };
                        assert(ring_place(start as int, steps, len as int) == k);
                    }
                }
            }
        }
        match Instrument::from_patch(&self.patch) {
            Ok(mut instrument) => {
                instrument.note_on(note, velocity);
                let voice = &mut self.voices[chosen];
                voice.instrument = instrument;
                voice.note = note;
                voice.velocity = velocity;
                voice.is_active = true;
            },
            Err(_) => {
                assert(false);
            },
        }
        self.next_voice = if chosen + 1 < len {
            chosen + 1
        } else {
            0
        };
        if self.active_voices < len {
            self.active_voices = self.active_voices + 1;
        }
        proof {
            let goal = start_model.struck(note, velocity);
            let struck = VoiceModel::struck(start_model.sample_rate, start_model.nodes, note, velocity);
            assert(self@.voices =~= start_model.voices.update(chosen as int, struck));
            assert(self@.voices == goal.voices);
            lemma_active_count_update(start_model.voices, chosen as int, struck, len as nat);
            lemma_active_count_bound(start_model.voices, len as nat);
            lemma_active_count_bound(self@.voices, len as nat);
            if start_model.voices[chosen as int].is_active {
                lemma_all_active(start_model.voices, len as nat);
            }
            assert forall|k: int| 0 <= k < self@.voices.len() implies (
            #[trigger] self@.voices[k]).instrument.wf() by {
                if k != chosen {
                    assert(start_model.voices[k].instrument.wf());
                }
            }
        }
    }

    /// Ends a note on every active voice that plays it.
    pub fn note_off(&mut self, note: u8)
        requires
            old(self).wf(),
        ensures
            final(self)@ == old(self)@.let_go(note),
            final(self).wf(),
    {
        let ghost start_model = self@;
        let len: usize = self.voices.len();
        let mut i: usize = 0;
        while i < len
            invariant
                i <= len,
                len == self.voices.len(),
                len == start_model.voices.len(),
                start_model.wf(),
                self@.sample_rate == start_model.sample_rate,
                self@.nodes == start_model.nodes,
                self@.active_voices == start_model.active_voices,
                self@.next_voice == start_model.next_voice,
                forall|k: int| 0 <= k < i ==> self@.voices[k] == start_model.voices[k].let_go(note),
                forall|k: int| i <= k < len ==> self@.voices[k] == start_model.voices[k],
            decreases len - i,
        {
            let ghost before = self@;
            assert(start_model.voices[i as int].instrument.wf());
            let voice = &mut self.voices[i];
            if voice.is_active && voice.note == note {
                voice.instrument.note_off();
            }
            proof {
                assert(self@.voices =~= before.voices.update(
                    i as int,
                    before.voices[i as int].let_go(note),
                ));
            }
            i = i + 1;
        }
        proof {
            let goal = start_model.let_go(note);
            assert(self@.voices =~= goal.voices);
            lemma_same_activity(start_model.voices, self@.voices, len as nat);
            assert forall|k: int| 0 <= k < self@.voices.len() implies (
            #[trigger] self@.voices[k]).instrument.wf() by {
                assert(start_model.voices[k].instrument.wf());
                crate::instrument::lemma_let_go_wf(start_model.voices[k].instrument);
            }
        }
    }

    /// Renders one sample: every active voice renders one, and the mean of
    /// those is the sample. A voice whose instrument is silent after that
    /// still counts in this mean, and is no longer active afterwards.
    pub fn next_sample(&mut self) -> (sample: Fixed)
        requires
            old(self).wf(),
        ensures
            final(self)@ == old(self)@.rendered(),
            final(self).wf(),
            sample == old(self)@.mix(),
            in_range(sample as int),
    {
        let ghost start_model = self@;
        let len: usize = self.voices.len();
        let mut sum: i128 = 0;
        let mut active: usize = 0;
        let mut still: usize = 0;
        let mut i: usize = 0;
        while i < len
            invariant
                i <= len,
                len == self.voices.len(),
                len == start_model.voices.len(),
                start_model.wf(),
                self@.sample_rate == start_model.sample_rate,
                self@.nodes == start_model.nodes,
                self@.next_voice == start_model.next_voice,
                forall|k: int| 0 <= k < i ==> self@.voices[k] == start_model.voices[k].rendered(),
                forall|k: int| i <= k < len ==> self@.voices[k] == start_model.voices[k],
                forall|k: int| 0 <= k < len ==> (#[trigger] self@.voices[k]).instrument.wf(),
                active == active_count(start_model.voices, i as nat),
                still == active_count(self@.voices, i as nat),
                sum == mix_sum(start_model.voices, i as nat),
                active <= i,
                still <= i,
                -active * LIMIT <= sum <= active * LIMIT,
            decreases len - i,
        {
            let ghost before = self@;
            assert(before.voices[i as int].instrument.wf());
            let voice = &mut self.voices[i];
            if voice.is_active {
                let rendered: Fixed = voice.instrument.next();
                if voice.instrument.is_silent() {
                    voice.is_active = false;
                } else {
                    still = still + 1;
                }
                sum = sum + rendered as i128;
                active = active + 1;
            }
            proof {
                assert(self@.voices =~= before.voices.update(
                    i as int,
                    before.voices[i as int].rendered(),
                ));
                lemma_prefix_agrees(before.voices, self@.voices, i as nat);
                assert forall|k: int| 0 <= k < len implies (#[trigger] self@.voices[k]).instrument.wf() by {
                    if k != i {
                        assert(before.voices[k].instrument.wf());
                    }
                }
            }
            i = i + 1;
        }
        self.active_voices = still;
        proof {
            let goal = start_model.rendered();
            assert(self@.voices =~= goal.voices);
            lemma_mean_bound(sum as int, active as int, LIMIT as int);
        }
        if active > 0 {
            floor_div(sum, active as i128) as i64
        } else {
            0
        }
    }
}

/// Two lists of voices of which each is active where the other is have the
/// same number of active voices.
pub proof fn lemma_same_activity(a: Seq<VoiceModel>, b: Seq<VoiceModel>, n: nat)
    requires
        n <= a.len(),
        n <= b.len(),
        forall|k: int| 0 <= k < n ==> a[k].is_active == b[k].is_active,
    ensures
        active_count(a, n) == active_count(b, n),
    decreases n,
{
    if n > 0 {
        lemma_same_activity(a, b, (n - 1) as nat);
    }
}

/// Setting one voice changes the sum of what the active voices sound by
/// what that voice changes.
pub proof fn lemma_mix_sum_update(voices: Seq<VoiceModel>, i: int, v: VoiceModel, n: nat)
    requires
        0 <= i < voices.len(),
        n <= voices.len(),
    ensures
        mix_sum(voices.update(i, v), n) == mix_sum(voices, n) + (if i < n && v.is_active {
            v.instrument.rendered().sounding()
        } else {
            0
        }) - (if i < n && voices[i].is_active {
            voices[i].instrument.rendered().sounding()
        } else {
            0
        }),
    decreases n,
{
    if n > 0 {
        lemma_mix_sum_update(voices, i, v, (n - 1) as nat);
    }
}

/// Reclamation lags by one sample. A voice whose instrument falls silent
/// with the sample that it renders still counts in the mix of that sample:
/// without the voice the sum would lack what the voice sounds, and the count
/// would be one less. After that sample the voice is not active, and the next
/// sample leaves it as it is and counts it no more.
pub proof fn lemma_reclamation_lag(pool: SynthModel, i: int)
    requires
        0 <= i < pool.voices.len(),
        pool.voices[i].is_active,
        pool.voices[i].instrument.rendered().is_silent(),
    ensures
        ({
            let without = pool.voices.update(
                i,
                VoiceModel { is_active: false, ..pool.voices[i] },
            );
            &&& mix_sum(pool.voices, pool.voices.len()) == mix_sum(without, pool.voices.len())
                + pool.voices[i].instrument.rendered().sounding()
            &&& active_count(pool.voices, pool.voices.len()) == active_count(
                without,
                pool.voices.len(),
            ) + 1
        }),
        !pool.rendered().voices[i].is_active,
        pool.rendered().voices[i].instrument == pool.voices[i].instrument.rendered(),
        pool.rendered().rendered().voices[i] == pool.rendered().voices[i],
        ({
            let after = pool.rendered().voices;
            mix_sum(after, after.len()) == mix_sum(
                after.update(i, VoiceModel::fresh(pool.sample_rate, pool.nodes)),
                after.len(),
            )
        }),
{
    let len = pool.voices.len();
    let silenced = VoiceModel { is_active: false, ..pool.voices[i] };
    lemma_mix_sum_update(pool.voices, i, silenced, len);
    lemma_active_count_update(pool.voices, i, silenced, len);
    let after = pool.rendered().voices;
    lemma_mix_sum_update(after, i, VoiceModel::fresh(pool.sample_rate, pool.nodes), len);
}

/// Mixing keeps the level. Where every active voice sounds `x` and at
/// least one is active, the mix is `x`, however many they are.
pub proof fn lemma_mix_of_equal_voices(pool: SynthModel, x: int)
    requires
        active_count(pool.voices, pool.voices.len()) > 0,
        forall|i: int|
            0 <= i < pool.voices.len() && pool.voices[i].is_active ==> (
            #[trigger] pool.voices[i]).instrument.rendered().sounding() == x,
    ensures
        pool.mix() == x,
{
    let len = pool.voices.len();
    let count = active_count(pool.voices, len) as int;
    lemma_equal_voices_sum(pool.voices, x, len);
    vstd::arithmetic::div_mod::lemma_div_multiples_vanish(x, count);
    assert(count * x == x * count) by (nonlinear_arith);
}

/// Where every active voice sounds `x`, the active voices among the first
/// `n` sound `x` times their number.
pub proof fn lemma_equal_voices_sum(voices: Seq<VoiceModel>, x: int, n: nat)
    requires
        n <= voices.len(),
        forall|i: int|
            0 <= i < voices.len() && voices[i].is_active ==> (
            #[trigger] voices[i]).instrument.rendered().sounding() == x,
    ensures
        mix_sum(voices, n) == active_count(voices, n) * x,
    decreases n,
{
    if n > 0 {
        lemma_equal_voices_sum(voices, x, (n - 1) as nat);
        let c = active_count(voices, (n - 1) as nat) as int;
        if voices[n - 1].is_active {
            assert(voices[n - 1].instrument.rendered().sounding() == x);
            assert((c + 1) * x == c * x + x) by (nonlinear_arith);
        }
    } else {
        assert(0 * x == 0) by (nonlinear_arith);
    }
}

/// Stealing. Where every voice of a pool is active, a new note takes the
/// voice at the cursor, and as many voices are active afterwards as before.
pub proof fn lemma_steal_at_cursor(pool: SynthModel, note: u8, velocity: u8)
    requires
        pool.wf(),
        pool.voices.len() > 0,
        forall|k: int| 0 <= k < pool.voices.len() ==> pool.voices[k].is_active,
    ensures
        pool.chosen() == pool.next_voice,
        pool.struck(note, velocity).voices[pool.next_voice].note == note,
        pool.struck(note, velocity).active_voices == pool.voices.len(),
{
    let len = pool.voices.len();
    lemma_free_voice_none(pool.voices, pool.next_voice, 0);
    let after = pool.struck(note, velocity).voices;
    lemma_all_active(after, len);
}

/// The pool is of fixed size. No note that starts or ends and no sample
/// changes how many voices it has, and never are more voices active than it
/// has.
pub proof fn lemma_pool_is_fixed(pool: SynthModel, note: u8, velocity: u8)
    requires
        pool.wf(),
    ensures
        pool.struck(note, velocity).voices.len() == pool.voices.len(),
        pool.let_go(note).voices.len() == pool.voices.len(),
        pool.rendered().voices.len() == pool.voices.len(),
        0 <= pool.active_voices <= pool.voices.len(),
        0 <= pool.struck(note, velocity).active_voices <= pool.voices.len(),
        0 <= pool.let_go(note).active_voices <= pool.voices.len(),
        0 <= pool.rendered().active_voices <= pool.voices.len(),
{
    let len = pool.voices.len();
    lemma_active_count_bound(pool.voices, len);
    lemma_active_count_bound(pool.struck(note, velocity).voices, len);
    lemma_active_count_bound(pool.rendered().voices, len);
    if len > 0 {
        lemma_free_voice_in_range(pool.voices, pool.next_voice, 0);
    }
}

/// Whatever happens to a well-formed pool leaves it well formed.
pub proof fn lemma_pool_stays_wf(pool: SynthModel, note: u8, velocity: u8)
    requires
        pool.wf(),
    ensures
        pool.struck(note, velocity).wf(),
        pool.let_go(note).wf(),
        pool.rendered().wf(),
{
    let len = pool.voices.len();
    crate::graph::lemma_instantiated_wf(pool.sample_rate, pool.nodes);
    crate::instrument::lemma_triggered_wf(
        instantiated(pool.sample_rate, pool.nodes),
        note,
        velocity,
    );
    if len > 0 {
        lemma_free_voice_in_range(pool.voices, pool.next_voice, 0);
        let struck = pool.struck(note, velocity);
        assert forall|k: int| 0 <= k < len implies (#[trigger] struck.voices[k]).instrument.wf() by {
            if k != pool.chosen() {
                assert(pool.voices[k].instrument.wf());
            }
        }
    }
    let let_go = pool.let_go(note);
    assert forall|k: int| 0 <= k < len implies (#[trigger] let_go.voices[k]).instrument.wf() by {
        assert(pool.voices[k].instrument.wf());
        crate::instrument::lemma_let_go_wf(pool.voices[k].instrument);
    }
    lemma_same_activity(pool.voices, let_go.voices, len);
    let rendered = pool.rendered();
    assert forall|k: int| 0 <= k < len implies (#[trigger] rendered.voices[k]).instrument.wf() by {
        assert(pool.voices[k].instrument.wf());
        crate::instrument::lemma_rendered_wf(pool.voices[k].instrument);
    }
}

/// A free voice is preferred. The search passes active voices only: where
/// any voice at `from` steps or more after the cursor is inactive, the voice
/// that the search finds is inactive, and every voice that it passed on the
/// way is active.
pub proof fn lemma_free_voice_preferred(voices: Seq<VoiceModel>, start: int, from: nat, free: nat)
    requires
        0 <= start < voices.len(),
        from <= free < voices.len(),
        !voices[ring_place(start, free as int, voices.len() as int)].is_active,
    ensures
        !voices[free_voice(voices, start, from)].is_active,
        exists|steps: int|
            {
                &&& from <= steps <= free
                &&& free_voice(voices, start, from) == #[trigger] ring_place(
                    start,
                    steps,
                    voices.len() as int,
                )
                &&& forall|k: int|
                    from <= k < steps ==> voices[#[trigger] ring_place(
                        start,
                        k,
                        voices.len() as int,
                    )].is_active
            },
    decreases free - from,
{
    let len = voices.len() as int;
    if !voices[ring_place(start, from as int, len)].is_active {
        assert(free_voice(voices, start, from) == ring_place(start, from as int, len));
    } else {
        lemma_free_voice_preferred(voices, start, from + 1, free);
        let steps = choose|steps: int|
            {
                &&& from + 1 <= steps <= free
                &&& free_voice(voices, start, from + 1) == #[trigger] ring_place(start, steps, len)
                &&& forall|k: int|
                    from + 1 <= k < steps ==> voices[#[trigger] ring_place(start, k, len)].is_active
            };
        assert(free_voice(voices, start, from) == ring_place(start, steps, len));
    }
}

/// Where no voice is active, none counts.
pub proof fn lemma_none_active(voices: Seq<VoiceModel>, n: nat)
    requires
        n <= voices.len(),
        forall|k: int| 0 <= k < n ==> !voices[k].is_active,
    ensures
        active_count(voices, n) == 0,
    decreases n,
{
    if n > 0 {
        lemma_none_active(voices, (n - 1) as nat);
    }
}

} // verus!
