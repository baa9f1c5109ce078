use cavetracker::messaging::{route, toggle, update, Action, PlayTarget, Reply, Route, Transport};
use cavetracker::model::{Chain, Pattern, Phrase, Song};
use cavetracker::types::{
    Step, NUM_PHRASES_PER_CHAIN, NUM_STEPS_PER_PHRASE, NUM_TRACKS,
};
use cavetracker::Runner;

fn pattern_rows(song: &mut Song) -> Vec<Vec<Option<u8>>> {
    match update(song, &Action::GetPatternData) {
        Reply::PatternData(data) => data,
        other => panic!("unexpected reply {:?}", other),
    }
}

fn chain_rows(song: &mut Song, chain_id: u8) -> Vec<Option<u8>> {
    match update(song, &Action::GetChainData { chain_id }) {
        Reply::ChainData(data) => data,
        other => panic!("unexpected reply {:?}", other),
    }
}

fn phrase_rows(song: &mut Song, phrase_id: u8) -> Vec<Option<Step>> {
    match update(song, &Action::GetPhraseData { phrase_id }) {
        Reply::PhraseData(data) => data,
        other => panic!("unexpected reply {:?}", other),
    }
}

#[test]
fn pattern_data() {
    let mut song = Song::new();

    let pattern_id = 10;
    let chain_id = 15;
    let track_id = 5;

    let set = Action::SetPatternValue {
        pattern_id,
        track_id,
        chain_id: Some(chain_id),
    };
    assert!(set.is_in_bounds());
    assert!(matches!(update(&mut song, &set), Reply::Nothing));

    let pattern_data = pattern_rows(&mut song);

    assert!(pattern_data.len() > pattern_id as usize);
    assert_eq!(
        pattern_data[pattern_id as usize][track_id as usize],
        Some(chain_id)
    );
}

#[test]
fn chain_data() {
    let mut song = Song::new();

    let chain_ids = vec![0, 15, 1];
    let phrase_ids = vec![Some(0), Some(15), None];
    let indices = [0, 1, 3];

    for i in 0..indices.len() {
        let chain_id = chain_ids[i];
        let phrase_id = phrase_ids[i];
        let index = indices[i];

        update(
            &mut song,
            &Action::SetChainPhrase {
                chain_id,
                index,
                phrase_id,
            },
        );

        let chain = chain_rows(&mut song, chain_id);

        assert!(chain[index] == phrase_id);
    }
}

#[test]
fn phrase_data() {
    let mut song = Song::new();

    let phrase_ids = vec![0, 0, 5, 10];
    let indices = vec![0, 3, 15, 2];
    let steps = vec![
        Some(Step::new(4, 8)),
        Some(Step::new(2, 1)),
        Some(Step::new(0, 4)),
        None,
    ];

    for i in 0..steps.len() {
        let phrase_id = phrase_ids[i];
        let index = indices[i];
        let step = steps[i];

        update(
            &mut song,
            &Action::SetPhraseStep {
                phrase_id,
                index,
                step,
            },
        );
    }

    for i in 0..steps.len() {
        let phrase_id = phrase_ids[i];
        let index = indices[i];
        let step = steps[i];

        let phrase = phrase_rows(&mut song, phrase_id);

        assert!(phrase[index] == step);
    }
}

#[test]
fn steps_hold_a_note_and_a_length() {
    let step = Step::new(60, 4);
    assert_eq!(step.note(), 60);
    assert_eq!(step.len(), 4);
    assert!(step == Step::new(60, 4));
    assert!(step != Step::new(60, 5));
    assert!(step != Step::new(61, 4));
}

#[test]
fn empty_song_answers_with_empty_rows() {
    let song = Song::new();
    assert_eq!(song.get_pattern_data().len(), 0);
    assert_eq!(song.get_pattern(3), vec![None; NUM_TRACKS]);
    assert_eq!(song.get_chain_data(9), vec![None; NUM_PHRASES_PER_CHAIN]);
    assert_eq!(song.get_phrase_data(9), vec![None; NUM_STEPS_PER_PHRASE]);
    assert_eq!(Pattern::new().to_vec(), vec![None; 8]);
    assert_eq!(Chain::new().to_vec(), vec![None; 4]);
    assert_eq!(Phrase::new().to_vec(), vec![None; 16]);
}

#[test]
fn song_grows_to_hold_a_pattern() {
    let mut song = Song::new();
    song.update_pattern(2, 7, Some(9));
    let data = song.get_pattern_data();
    assert_eq!(data.len(), 3);
    assert_eq!(data[0], vec![None; 8]);
    assert_eq!(data[1], vec![None; 8]);
    assert_eq!(
        data[2],
        vec![None, None, None, None, None, None, None, Some(9)]
    );
    song.update_pattern(0, 0, Some(1));
    song.update_pattern(2, 7, None);
    song.update_pattern(2, 1, Some(4));
    assert_eq!(song.get_pattern_data().len(), 3);
    assert_eq!(song.get_pattern(0)[0], Some(1));
    assert_eq!(
        song.get_pattern(2),
        vec![None, Some(4), None, None, None, None, None, None]
    );
    assert_eq!(song.get_pattern(200), vec![None; 8]);
    song.update_pattern(255, 3, Some(255));
    assert_eq!(song.get_pattern_data().len(), 256);
    assert_eq!(song.get_pattern(255)[3], Some(255));
}

#[test]
fn chains_and_phrases_keep_what_was_set() {
    let mut song = Song::new();
    song.set_chain_phrase(7, 0, Some(1));
    song.set_chain_phrase(7, 3, Some(2));
    song.set_chain_phrase(8, 1, Some(3));
    song.set_chain_phrase(7, 0, None);
    assert_eq!(song.get_chain_data(7), vec![None, None, None, Some(2)]);
    assert_eq!(song.get_chain_data(8), vec![None, Some(3), None, None]);
    assert!(song.chains.contains_key(&7));
    assert!(!song.chains.contains_key(&9));
    song.set_phrase_step(1, 15, Some(Step::new(60, 2)));
    song.set_phrase_step(1, 0, Some(Step::new(62, 1)));
    let steps = song.get_phrase_data(1);
    assert_eq!(steps.len(), 16);
    assert!(steps[0] == Some(Step::new(62, 1)));
    assert!(steps[15] == Some(Step::new(60, 2)));
    assert!(steps[1..15].iter().all(|s| s.is_none()));
    assert!(song.phrases.contains_key(&1));
}

#[test]
fn requests_out_of_bounds_are_told_apart() {
    assert!(Action::GetPatternData.is_in_bounds());
    assert!(Action::TogglePlayPhrase(3).is_in_bounds());
    assert!(Action::SetPatternValue {
        pattern_id: 255,
        track_id: 7,
        chain_id: None
    }
    .is_in_bounds());
    assert!(!Action::SetPatternValue {
        pattern_id: 0,
        track_id: 8,
        chain_id: None
    }
    .is_in_bounds());
    assert!(Action::SetChainPhrase {
        chain_id: 0,
        index: 3,
        phrase_id: None
    }
    .is_in_bounds());
    assert!(!Action::SetChainPhrase {
        chain_id: 0,
        index: 4,
        phrase_id: None
    }
    .is_in_bounds());
    assert!(Action::SetPhraseStep {
        phrase_id: 0,
        index: 15,
        step: None
    }
    .is_in_bounds());
    assert!(!Action::SetPhraseStep {
        phrase_id: 0,
        index: 16,
        step: None
    }
    .is_in_bounds());
}

#[test]
fn requests_are_routed_by_kind() {
    assert_eq!(route(&Action::TogglePlayPhrase(1)), Route::Playback);
    assert_eq!(route(&Action::GetPatternData), Route::Update);
    assert_eq!(
        route(&Action::SetChainPhrase {
            chain_id: 1,
            index: 0,
            phrase_id: None
        }),
        Route::Update
    );
    assert_eq!(toggle(true), Transport::Stop);
    assert_eq!(toggle(false), Transport::Start);
    let mut song = Song::new();
    assert!(matches!(
        update(&mut song, &Action::TogglePlayPhrase(1)),
        Reply::Nothing
    ));
    assert_eq!(song.get_pattern_data().len(), 0);
}

#[test]
fn play_targets_and_the_runner_are_plain_values() {
    assert!(matches!(PlayTarget::Pattern(1), PlayTarget::Pattern(1)));
    assert!(matches!(PlayTarget::Chain(2), PlayTarget::Chain(2)));
    assert!(matches!(PlayTarget::Phrase(3), PlayTarget::Phrase(3)));
    assert_eq!(Runner::new(), Runner {});
}
