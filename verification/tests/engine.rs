use cavetracker::adsr::Adsr;
use cavetracker::fixed::{scale, Fixed, LIMIT, ONE};
use cavetracker::instrument::Instrument;
use cavetracker::instrument_manager::InstrumentManager;
use cavetracker::lfo::Lfo;
use cavetracker::modulator::Modulator;
use cavetracker::node::{AdsrDef, LfoDef, NodeDef, Patch, PatchError, SineDef};
use cavetracker::note_frequency::NoteFrequency;
use cavetracker::param::{AMPLITUDE, FREQUENCY};
use cavetracker::render::fill_frames;
use cavetracker::sine::Sine;
use cavetracker::source::Source;
use cavetracker::synth::Synth;
use cavetracker::wave::{amplitude_of_velocity, frequency_of_note, sine};

fn sine_node() -> NodeDef {
    NodeDef::Sine(SineDef {})
}

fn adsr_node(attack: Fixed, decay: Fixed, sustain: Fixed, release: Fixed, target: usize) -> NodeDef {
    NodeDef::Adsr(AdsrDef {
        attack,
        decay,
        sustain,
        release,
        target_node: target,
        target_param: AMPLITUDE,
    })
}

fn lfo_node(freq: Fixed, depth: Fixed, offset: Fixed, target: usize) -> NodeDef {
    NodeDef::Lfo(LfoDef {
        freq,
        depth,
        offset,
        target_node: target,
        target_param: FREQUENCY,
    })
}

fn patch(sample_rate: u32, nodes: Vec<NodeDef>) -> Patch {
    Patch {
        sample_rate,
        nodes,
        connections: vec![],
    }
}

/// A sine whose envelope opens at once, holds, and closes in two samples.
fn gated() -> Patch {
    patch(1000, vec![sine_node(), adsr_node(0, 0, ONE, 2000, 0)])
}

fn one_source(sample_rate: u32) -> Vec<Source> {
    vec![Source::Sine(Sine::new(sample_rate))]
}

#[test]
fn fixed_products_round_down_and_saturate() {
    assert_eq!(scale(ONE, ONE), ONE);
    assert_eq!(scale(500_000, 500_000), 250_000);
    assert_eq!(scale(3, 333_333), 0);
    assert_eq!(scale(-3, 333_333), -1);
    assert_eq!(scale(LIMIT, 2 * ONE), LIMIT);
    assert_eq!(scale(-LIMIT, 2 * ONE), -LIMIT);
    assert_eq!(scale(i64::MAX, i64::MAX), LIMIT);
}

#[test]
fn sine_wave_at_known_phases() {
    assert_eq!(sine(0, 8), 0);
    assert_eq!(sine(1, 12), 500_000);
    assert_eq!(sine(1, 8), 705_882);
    assert_eq!(sine(1, 4), ONE);
    assert_eq!(sine(1, 3), 864_864);
    assert_eq!(sine(1, 2), 0);
    assert_eq!(sine(5, 8), -705_882);
    assert_eq!(sine(3, 4), -ONE);
    assert_eq!(sine(440_000_000, 1_000_000_000), 369_101);
}

#[test]
fn notes_are_equal_tempered_about_concert_pitch() {
    assert_eq!(frequency_of_note(69), 440 * ONE);
    assert_eq!(frequency_of_note(57), 220 * ONE);
    assert_eq!(frequency_of_note(81), 880 * ONE);
    assert_eq!(frequency_of_note(60), 261_625_568);
    assert_eq!(frequency_of_note(0), 8_175_799);
    assert_eq!(frequency_of_note(127), 12_543_853_568);
    assert_eq!(frequency_of_note(255), 20_390_017_499_136);
}

#[test]
fn velocity_scales_against_full_scale() {
    assert_eq!(amplitude_of_velocity(127), ONE);
    assert_eq!(amplitude_of_velocity(100), 787_401);
    assert_eq!(amplitude_of_velocity(64), 503_937);
    assert_eq!(amplitude_of_velocity(0), 0);
}

#[test]
fn sine_source_renders_and_keeps_its_parameters() {
    let mut s = Sine::new(1000);
    assert_eq!(s.get_param(FREQUENCY), 440 * ONE);
    assert_eq!(s.get_param(AMPLITUDE), ONE);
    assert_eq!(s.get_param(7), 0);
    let rendered: Vec<Fixed> = (0..5).map(|_| s.next()).collect();
    assert_eq!(rendered, vec![369_101, -683_402, 903_883, -998_000, 950_495]);
    s.set_param(AMPLITUDE, 500_000);
    s.set_param(FREQUENCY, 250 * ONE);
    s.set_param(7, 123);
    assert_eq!(s.get_param(AMPLITUDE), 500_000);
    assert_eq!(s.get_param(FREQUENCY), 250 * ONE);
    assert_eq!(s.get_param(7), 0);
    s.set_param(FREQUENCY, i64::MAX);
    assert_eq!(s.get_param(FREQUENCY), LIMIT);
    s.set(60, 100);
    assert_eq!(s.get_param(FREQUENCY), 261_625_568);
    assert_eq!(s.get_param(AMPLITUDE), 787_401);
}

#[test]
fn sine_with_a_falling_phase_stays_in_its_turn() {
    let mut s = Sine::new(4);
    s.set_param(FREQUENCY, -ONE);
    assert_eq!(s.next(), -ONE);
    assert_eq!(s.next(), 0);
    assert_eq!(s.next(), ONE);
    assert_eq!(s.next(), 0);
}

#[test]
fn adsr_timing() {
    let mut sources = one_source(1000);
    let mut adsr = Adsr::new(1000);
    adsr.configure(0, AMPLITUDE, 100_000, 100_000, 500_000, 200_000);
    assert!(adsr.is_released());
    assert!(!adsr.is_active());
    adsr.note_on();
    assert!(adsr.is_active());
    adsr.tick(&mut sources);
    assert_eq!(adsr.get_level(), 10_000);
    assert_eq!(sources[0].get_param(AMPLITUDE), 10_000);
    for _ in 0..49 {
        adsr.tick(&mut sources);
    }
    assert_eq!(adsr.get_level(), 500_000);
    for _ in 0..50 {
        adsr.tick(&mut sources);
    }
    assert_eq!(adsr.get_level(), ONE);
    for _ in 0..50 {
        adsr.tick(&mut sources);
    }
    assert_eq!(adsr.get_level(), 750_000);
    for _ in 0..50 {
        adsr.tick(&mut sources);
    }
    assert_eq!(adsr.get_level(), 500_000);
    for _ in 0..300 {
        adsr.tick(&mut sources);
        assert_eq!(adsr.get_level(), 500_000);
    }
    assert_eq!(sources[0].get_param(AMPLITUDE), 500_000);
    assert!(!adsr.is_released());
    adsr.note_off();
    for _ in 0..100 {
        adsr.tick(&mut sources);
    }
    assert_eq!(adsr.get_level(), 250_000);
    for _ in 0..99 {
        adsr.tick(&mut sources);
    }
    assert_eq!(adsr.get_level(), 2_500);
    assert!(!adsr.is_released());
    assert!(!adsr.is_silent());
    adsr.tick(&mut sources);
    assert_eq!(adsr.get_level(), 0);
    assert!(adsr.is_released());
    assert!(adsr.is_silent());
    assert!(!adsr.is_active());
    assert_eq!(sources[0].get_param(AMPLITUDE), 0);
}

#[test]
fn adsr_scales_the_value_it_first_found() {
    let mut sources = one_source(1000);
    sources[0].set_param(AMPLITUDE, 800_000);
    let mut adsr = Adsr::new(1000);
    adsr.configure(0, AMPLITUDE, 4_000, 0, 250_000, 0);
    adsr.note_on();
    adsr.tick(&mut sources);
    assert_eq!(sources[0].get_param(AMPLITUDE), 200_000);
    adsr.tick(&mut sources);
    assert_eq!(sources[0].get_param(AMPLITUDE), 400_000);
    adsr.tick(&mut sources);
    adsr.tick(&mut sources);
    assert_eq!(adsr.get_level(), ONE);
    assert_eq!(sources[0].get_param(AMPLITUDE), 800_000);
    adsr.tick(&mut sources);
    assert_eq!(adsr.get_level(), 250_000);
    assert_eq!(sources[0].get_param(AMPLITUDE), 200_000);
    adsr.note_off();
    adsr.tick(&mut sources);
    assert_eq!(adsr.get_level(), 0);
    assert!(adsr.is_silent());
}

#[test]
fn adsr_levels_are_held_to_range() {
    let mut sources = one_source(1000);
    let mut adsr = Adsr::new(1000);
    adsr.configure(0, AMPLITUDE, 0, 0, i64::MAX, 0);
    adsr.note_on();
    adsr.tick(&mut sources);
    adsr.tick(&mut sources);
    assert_eq!(adsr.get_level(), LIMIT);
    assert_eq!(sources[0].get_param(AMPLITUDE), LIMIT);
}

#[test]
fn lfo_sways_about_the_value_it_first_found() {
    let mut sources = one_source(8);
    let mut lfo = Lfo::new(8);
    lfo.configure(0, FREQUENCY, ONE, 100 * ONE, 5 * ONE);
    assert!(lfo.is_active());
    let mut seen = Vec::new();
    for _ in 0..8 {
        lfo.tick(&mut sources);
        seen.push(sources[0].get_param(FREQUENCY));
    }
    assert_eq!(
        seen,
        vec![
            515_588_200,
            545_000_000,
            515_588_200,
            445_000_000,
            374_411_800,
            345_000_000,
            374_411_800,
            445_000_000
        ]
    );
    sources[0].set_param(FREQUENCY, 220 * ONE);
    lfo.note_off();
    lfo.tick(&mut sources);
    assert_eq!(sources[0].get_param(FREQUENCY), 515_588_200);
    sources[0].set_param(FREQUENCY, 220 * ONE);
    lfo.note_on();
    lfo.tick(&mut sources);
    assert_eq!(sources[0].get_param(FREQUENCY), 295_588_200);
}

#[test]
fn modulators_report_by_kind() {
    let lfo = Modulator::Lfo(Lfo::new(1000));
    assert!(lfo.is_active());
    assert!(lfo.is_released());
    assert!(lfo.is_silent());
    let mut adsr = Modulator::Adsr(Adsr::new(1000));
    assert!(!adsr.is_active());
    assert!(adsr.is_released());
    assert!(!adsr.is_silent());
    adsr.note_on();
    assert!(adsr.is_active());
    assert!(!adsr.is_released());
}

#[test]
fn instrument_without_nodes_sounds_nothing() {
    let mut instrument = Instrument::from_patch(&patch(1000, vec![])).unwrap();
    assert_eq!(instrument.next(), 0);
    instrument.note_on(60, 100);
    assert_eq!(instrument.next(), 0);
    assert!(instrument.is_silent());
    assert!(instrument.is_released());
    let mut empty = Instrument::new(1000);
    assert_eq!(empty.next(), 0);
}

#[test]
fn instrument_follows_its_envelope() {
    let nodes = vec![sine_node(), adsr_node(100_000, 100_000, 500_000, 200_000, 0)];
    let mut instrument = Instrument::from_patch(&patch(1000, nodes)).unwrap();
    assert_eq!(
        vec![instrument.next(), instrument.next(), instrument.next()],
        vec![0, 0, 0]
    );
    assert!(instrument.is_silent());
    instrument.note_on(69, 127);
    assert!(!instrument.is_silent());
    assert!(!instrument.is_released());
    let first: Vec<Fixed> = (0..5).map(|_| instrument.next()).collect();
    assert_eq!(first, vec![-9_980, 19_009, -23_076, 19_275, -6_339]);
    for _ in 0..245 {
        instrument.next();
    }
    instrument.note_off();
    for _ in 0..199 {
        instrument.next();
        assert!(!instrument.is_silent());
    }
    assert_eq!(instrument.next(), 0);
    assert!(instrument.is_silent());
    assert!(instrument.is_released());
}

#[test]
fn instrument_means_its_sources() {
    let mut one = Instrument::from_patch(&patch(1000, vec![sine_node()])).unwrap();
    let mut three =
        Instrument::from_patch(&patch(1000, vec![sine_node(), sine_node(), sine_node()])).unwrap();
    for _ in 0..20 {
        assert_eq!(one.next(), three.next());
    }
}

#[test]
fn modulators_may_aim_forwards_and_backwards() {
    let nodes = vec![
        lfo_node(ONE, 100 * ONE, 5 * ONE, 2),
        adsr_node(0, 0, ONE, 0, 3),
        sine_node(),
        sine_node(),
        lfo_node(2 * ONE, 0, 0, 2),
    ];
    let mut instrument = Instrument::from_patch(&patch(8, nodes)).unwrap();
    instrument.note_on(69, 127);
    for _ in 0..4 {
        instrument.next();
    }
    let mut twin = Instrument::from_patch(&patch(
        8,
        vec![
            sine_node(),
            sine_node(),
            lfo_node(ONE, 100 * ONE, 5 * ONE, 0),
            adsr_node(0, 0, ONE, 0, 1),
            lfo_node(2 * ONE, 0, 0, 0),
        ],
    ))
    .unwrap();
    twin.note_on(69, 127);
    for _ in 0..4 {
        twin.next();
    }
    for _ in 0..16 {
        assert_eq!(instrument.next(), twin.next());
    }
}

#[test]
fn configuring_a_modulator_of_the_other_kind_changes_nothing() {
    let nodes = vec![sine_node(), adsr_node(0, 0, ONE, 0, 0)];
    let mut plain = Instrument::from_patch(&patch(1000, nodes.clone())).unwrap();
    let mut touched = Instrument::from_patch(&patch(1000, nodes)).unwrap();
    touched.configure_lfo(0, 0, FREQUENCY, ONE, 100 * ONE, 0);
    plain.note_on(69, 127);
    touched.note_on(69, 127);
    for _ in 0..10 {
        assert_eq!(plain.next(), touched.next());
    }
}

#[test]
fn configuring_an_envelope_changes_what_is_heard() {
    let nodes = vec![sine_node(), adsr_node(0, 0, ONE, 0, 0)];
    let mut plain = Instrument::from_patch(&patch(1000, nodes.clone())).unwrap();
    let mut touched = Instrument::from_patch(&patch(1000, nodes)).unwrap();
    touched.configure_adsr(0, 0, AMPLITUDE, 0, 0, 500_000, 0);
    touched.note_on(69, 127);
    plain.note_on(69, 127);
    assert_eq!(plain.next(), touched.next());
    assert_eq!(plain.next(), -683_402);
    assert_eq!(touched.next(), -341_701);
    assert_eq!(plain.next(), 903_883);
    assert_eq!(touched.next(), 451_941);
}

#[test]
fn invalid_patches_are_rejected() {
    let beyond = patch(44_100, vec![sine_node(), lfo_node(ONE, ONE, 0, 2)]);
    assert_eq!(
        Instrument::from_patch(&beyond).err(),
        Some(PatchError::TargetOutOfRange { node: 1 })
    );
    assert_eq!(
        beyond.validate(),
        Err(PatchError::TargetOutOfRange { node: 1 })
    );
    assert_eq!(
        Synth::new(beyond, 4).err(),
        Some(PatchError::TargetOutOfRange { node: 1 })
    );
    let on_modulator = patch(
        44_100,
        vec![sine_node(), adsr_node(0, 0, 0, 0, 0), lfo_node(ONE, ONE, 0, 1)],
    );
    assert_eq!(
        Instrument::from_patch(&on_modulator).err(),
        Some(PatchError::TargetNotSource { node: 2 })
    );
    let on_itself = patch(44_100, vec![lfo_node(ONE, ONE, 0, 0)]);
    assert_eq!(
        Instrument::from_patch(&on_itself).err(),
        Some(PatchError::TargetNotSource { node: 0 })
    );
    let no_rate = patch(0, vec![sine_node(), lfo_node(ONE, ONE, 0, 9)]);
    assert_eq!(
        Instrument::from_patch(&no_rate).err(),
        Some(PatchError::InvalidSampleRate)
    );
    assert_eq!(
        Synth::new(no_rate, 1).err(),
        Some(PatchError::InvalidSampleRate)
    );
    let first_of_two = patch(
        1000,
        vec![lfo_node(ONE, ONE, 0, 7), sine_node(), lfo_node(ONE, ONE, 0, 0)],
    );
    assert_eq!(
        Instrument::from_patch(&first_of_two).err(),
        Some(PatchError::TargetOutOfRange { node: 0 })
    );
    assert!(patch(1000, vec![adsr_node(0, 0, 0, 0, 1), sine_node()])
        .validate()
        .is_ok());
}

#[test]
fn same_patch_same_events_same_samples() {
    let nodes = vec![
        sine_node(),
        lfo_node(200_000, 50 * ONE, 0, 0),
        adsr_node(10_000, 400_000, 0, ONE, 0),
    ];
    let mut a = Instrument::from_patch(&patch(44_100, nodes.clone())).unwrap();
    let mut b = Instrument::from_patch(&patch(44_100, nodes)).unwrap();
    let mut heard_a = Vec::new();
    let mut heard_b = Vec::new();
    for round in 0..3u8 {
        a.note_on(60 + round, 100);
        b.note_on(60 + round, 100);
        for _ in 0..500 {
            heard_a.push(a.next());
            heard_b.push(b.next());
        }
        a.note_off();
        b.note_off();
        for _ in 0..500 {
            heard_a.push(a.next());
            heard_b.push(b.next());
        }
    }
    assert_eq!(heard_a, heard_b);
    assert_eq!(heard_a[..6], [67, 269, 604, 1_071, 1_668, 2_393]);
}

#[test]
fn voice_stealing() {
    let mut synth = Synth::new(gated(), 2).unwrap();
    assert_eq!(synth.active_voices(), 0);
    synth.note_on(60, 100);
    assert_eq!(synth.active_voices(), 1);
    synth.note_on(64, 100);
    assert_eq!(synth.active_voices(), 2);
    synth.note_on(67, 100);
    assert_eq!(synth.active_voices(), 2);
    assert_eq!(synth.voices().len(), 2);
    assert!(synth.voices()[0].is_active());
    assert_eq!(synth.voices()[0].note(), 67);
    assert_eq!(synth.voices()[0].velocity(), 100);
    assert!(synth.voices()[1].is_active());
    assert_eq!(synth.voices()[1].note(), 64);
    synth.note_on(72, 90);
    assert_eq!(synth.voices()[0].note(), 67);
    assert_eq!(synth.voices()[1].note(), 72);
    assert_eq!(synth.voices()[1].velocity(), 90);
    assert_eq!(synth.active_voices(), 2);
}

#[test]
fn free_voices_are_taken_from_the_cursor_on() {
    let mut synth = Synth::new(gated(), 3).unwrap();
    synth.note_on(60, 100);
    synth.note_on(62, 100);
    synth.note_on(64, 100);
    synth.note_off(62);
    synth.next_sample();
    synth.next_sample();
    assert_eq!(synth.active_voices(), 2);
    assert!(!synth.voices()[1].is_active());
    synth.note_on(65, 100);
    assert_eq!(synth.voices()[0].note(), 60);
    assert_eq!(synth.voices()[1].note(), 65);
    assert_eq!(synth.voices()[2].note(), 64);
    assert_eq!(synth.active_voices(), 3);
    synth.note_on(67, 100);
    assert_eq!(synth.voices()[2].note(), 67);
}

#[test]
fn pool_without_voices_ignores_notes() {
    let mut synth = Synth::new(gated(), 0).unwrap();
    synth.note_on(60, 100);
    synth.note_off(60);
    assert_eq!(synth.active_voices(), 0);
    assert_eq!(synth.voices().len(), 0);
    assert_eq!(synth.next_sample(), 0);
}

#[test]
fn note_off_for_an_absent_note_changes_nothing() {
    let mut with = Synth::new(gated(), 2).unwrap();
    let mut without = Synth::new(gated(), 2).unwrap();
    with.note_on(69, 127);
    without.note_on(69, 127);
    with.note_off(70);
    for _ in 0..10 {
        assert_eq!(with.next_sample(), without.next_sample());
    }
    assert_eq!(with.active_voices(), 1);
}

#[test]
fn note_off_reaches_every_voice_on_the_note() {
    let mut synth = Synth::new(gated(), 3).unwrap();
    synth.note_on(69, 127);
    synth.note_on(69, 127);
    synth.note_on(57, 127);
    synth.next_sample();
    synth.note_off(69);
    synth.next_sample();
    assert_eq!(synth.active_voices(), 3);
    synth.next_sample();
    assert_eq!(synth.active_voices(), 1);
    assert!(!synth.voices()[0].is_active());
    assert!(!synth.voices()[1].is_active());
    assert!(synth.voices()[2].is_active());
}

#[test]
fn reclamation_lags_by_one_sample() {
    let mut synth = Synth::new(gated(), 2).unwrap();
    synth.note_on(69, 127);
    synth.note_on(57, 127);
    assert_eq!(
        vec![synth.next_sample(), synth.next_sample(), synth.next_sample()],
        vec![675_582, -157_151, 30_399]
    );
    synth.note_off(57);
    assert_eq!(synth.next_sample(), -669_851);
    assert_eq!(synth.active_voices(), 2);
    assert_eq!(synth.next_sample(), 475_247);
    assert_eq!(synth.active_voices(), 1);
    assert!(synth.voices()[0].is_active());
    assert!(!synth.voices()[1].is_active());
    assert_eq!(synth.next_sample(), -769_172);
    assert_eq!(synth.active_voices(), 1);
}

#[test]
fn mixing_keeps_the_level() {
    let mut single = Synth::new(gated(), 1).unwrap();
    single.note_on(69, 127);
    let alone: Vec<Fixed> = (0..50).map(|_| single.next_sample()).collect();
    assert_eq!(alone[..4], [369_101, -683_402, 903_883, -998_000]);
    for voices in [2usize, 3, 5, 8] {
        let mut synth = Synth::new(gated(), voices).unwrap();
        for _ in 0..voices {
            synth.note_on(69, 127);
        }
        assert_eq!(synth.active_voices(), voices);
        let together: Vec<Fixed> = (0..50).map(|_| synth.next_sample()).collect();
        assert_eq!(together, alone);
    }
}

#[test]
fn manager_adds_and_mixes_synths() {
    let mut idle = InstrumentManager::new();
    assert_eq!(idle.next(), 0);
    assert_eq!(idle.add_synth(), Ok(()));
    assert_eq!(idle.next(), 0);
    let mut manager = InstrumentManager::new();
    assert_eq!(manager.add_synth(), Ok(()));
    manager.note_on(60, 100);
    let heard: Vec<Fixed> = (0..6).map(|_| manager.next()).collect();
    assert_eq!(heard, vec![67, 269, 604, 1_071, 1_668, 2_393]);
    let mut two = InstrumentManager::new();
    two.set_sample_rate(44_100);
    assert_eq!(two.add_synth(), Ok(()));
    assert_eq!(two.add_synth(), Ok(()));
    two.note_on(60, 100);
    let both: Vec<Fixed> = (0..6).map(|_| two.next()).collect();
    assert_eq!(both, heard);
    let mut broken = InstrumentManager::new();
    broken.set_sample_rate(0);
    assert_eq!(broken.add_synth(), Err(PatchError::InvalidSampleRate));
    assert_eq!(broken.next(), 0);
}

#[test]
fn frames_are_left_and_a_fifth_of_it() {
    let mut manager = InstrumentManager::new();
    manager.add_synth().unwrap();
    manager.note_on(60, 100);
    let mut buffer = vec![0; 8];
    fill_frames(&mut manager, &mut buffer);
    assert_eq!(buffer, vec![67, 13, 269, 53, 604, 120, 1_071, 214]);
    let mut none: Vec<Fixed> = vec![];
    fill_frames(&mut manager, &mut none);
    assert_eq!(none.len(), 0);
    let mut next = vec![0; 2];
    fill_frames(&mut manager, &mut next);
    assert_eq!(next, vec![1_668, 333]);
}

#[test]
fn note_frequency_sets_its_parameter_once() {
    let mut sources = one_source(1000);
    let mut modulator = NoteFrequency::new();
    modulator.configure(0, FREQUENCY, 220 * ONE);
    assert!(modulator.is_active());
    modulator.tick(&mut sources);
    assert_eq!(sources[0].get_param(FREQUENCY), 220 * ONE);
    sources[0].set_param(FREQUENCY, 330 * ONE);
    modulator.note_on();
    modulator.tick(&mut sources);
    modulator.note_off();
    modulator.tick(&mut sources);
    assert_eq!(sources[0].get_param(FREQUENCY), 330 * ONE);
    assert_eq!(sources[0].get_param(AMPLITUDE), ONE);
}
