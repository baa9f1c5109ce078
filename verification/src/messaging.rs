//! What the parts of the tracker ask of one another, and what is done about
//! it.

use vstd::prelude::*;
use crate::model::{Song, SongModel};
use crate::types::{
    ChainId, PatternId, PhraseId, Step, TrackId, NUM_PHRASES_PER_CHAIN, NUM_STEPS_PER_PHRASE,
    NUM_TRACKS,
};

verus! {

/// What can be played.
pub enum PlayTarget {
    Pattern(u32),
    Chain(u32),
    Phrase(u32),
}

/// A request, without the place to which its answer goes.
#[derive(Clone, Copy, Debug, PartialEq, Eq, Structural)]
#[allow(inconsistent_fields)]
pub enum Action {
    TogglePlayPhrase(PhraseId),
    /// Asks for the rows of all the patterns.
    GetPatternData,
    /// Puts a chain, or nothing, on a track of a pattern.
    SetPatternValue { pattern_id: PatternId, track_id: TrackId, chain_id: Option<ChainId> },
    /// Asks for the phrases of a chain.
    GetChainData { chain_id: ChainId },
    SetChainPhrase { chain_id: ChainId, index: usize, phrase_id: Option<PhraseId> },
    /// Asks for the steps of a phrase.
    GetPhraseData { phrase_id: PhraseId },
    SetPhraseStep { phrase_id: PhraseId, index: usize, step: Option<Step> },
}

/// The answer to a request.
#[derive(Debug)]
pub enum Reply {
    /// The request asked for nothing.
    Nothing,
    PatternData(Vec<Vec<Option<ChainId>>>),
    ChainData(Vec<Option<PhraseId>>),
    PhraseData(Vec<Option<Step>>),
}

/// Where a request goes.
#[derive(Clone, Copy, Debug, PartialEq, Eq, Structural)]
pub enum Route {
    /// To the sequencer and to the audio engine.
    Playback,
    /// To the keeper of the song.
    Update,
}

/// What the audio engine is told to do.
#[derive(Clone, Copy, Debug, PartialEq, Eq, Structural)]
pub enum Transport {
    Start,
    Stop,
}

impl Action {
    /// Whether the request names a place that exists: a track of a pattern,
    /// a place in a chain, a step of a phrase.
    pub open spec fn in_bounds(self) -> bool {
        match self {
            Action::SetPatternValue { track_id, .. } => track_id < NUM_TRACKS,
            Action::SetChainPhrase { index, .. } => index < NUM_PHRASES_PER_CHAIN,
            Action::SetPhraseStep { index, .. } => index < NUM_STEPS_PER_PHRASE,
            _ => true,
        }
    }

    /// The song after the request has been met.
    pub open spec fn applied(self, song: SongModel) -> SongModel {
        match self {
            Action::SetPatternValue { pattern_id, track_id, chain_id } => song.with_pattern_value(
                pattern_id,
                track_id,
                chain_id,
            ),
            Action::SetChainPhrase { chain_id, index, phrase_id } => song.with_chain_phrase(
                chain_id,
                index as int,
                phrase_id,
            ),
            Action::SetPhraseStep { phrase_id, index, step } => song.with_phrase_step(
                phrase_id,
                index as int,
                step,
            ),
            _ => song,
        }
    }

    /// Whether `reply` answers the request when the song is `song`.
    pub open spec fn answered_by(self, song: SongModel, reply: Reply) -> bool {
        match self {
            Action::GetPatternData => {
                &&& reply matches Reply::PatternData(data)
                &&& data@.len() == song.patterns.len()
                &&& forall|i: int| 0 <= i < data@.len() ==> (#[trigger] data@[i])@ == song.patterns[i]
            },
            Action::GetChainData { chain_id } => {
                &&& reply matches Reply::ChainData(list)
                &&& list@ == song.chain(chain_id)
            },
            Action::GetPhraseData { phrase_id } => {
                &&& reply matches Reply::PhraseData(list)
                &&& list@ == song.phrase(phrase_id)
            },
            _ => reply is Nothing,
        }
    }

    pub fn is_in_bounds(&self) -> (ok: bool)
        ensures
            ok == self.in_bounds(),
    {
        match self {
            Action::SetPatternValue { track_id, .. } => (*track_id as usize) < NUM_TRACKS,
            Action::SetChainPhrase { index, .. } => *index < NUM_PHRASES_PER_CHAIN,
            Action::SetPhraseStep { index, .. } => *index < NUM_STEPS_PER_PHRASE,
            _ => true,
        }
    }
}

/// Meets a request on the song: changes the song as the request says, and
/// answers what it asks.
pub fn update(song: &mut Song, action: &Action) -> (reply: Reply)
    requires
        action.in_bounds(),
    ensures
        final(song)@ == action.applied(old(song)@),
        action.answered_by(old(song)@, reply),
{
    match action {
        Action::GetPatternData => Reply::PatternData(song.get_pattern_data()),
        Action::SetPatternValue { pattern_id, track_id, chain_id } => {
            song.update_pattern(*pattern_id, *track_id, *chain_id);
            Reply::Nothing
        },
        Action::GetChainData { chain_id } => Reply::ChainData(song.get_chain_data(*chain_id)),
        Action::SetChainPhrase { chain_id, index, phrase_id } => {
            song.set_chain_phrase(*chain_id, *index, *phrase_id);
            Reply::Nothing
        },
        Action::GetPhraseData { phrase_id } => Reply::PhraseData(song.get_phrase_data(*phrase_id)),
        Action::SetPhraseStep { phrase_id, index, step } => {
            song.set_phrase_step(*phrase_id, *index, *step);
            Reply::Nothing
        },
        Action::TogglePlayPhrase(_) => Reply::Nothing,
    }
}

/// Where a request goes: one that plays goes to playback, every other to
/// the keeper of the song.
pub fn route(action: &Action) -> (to: Route)
    ensures
        to == (if action is TogglePlayPhrase {
            Route::Playback
        } else {
            Route::Update
        }),
{
    match action {
        Action::TogglePlayPhrase(_) => Route::Playback,
        _ => Route::Update,
    }
}

/// What a request to play does to the audio engine: it stops one that
/// plays, and starts one that does not.
pub fn toggle(is_playing: bool) -> (to: Transport)
    ensures
        to == (if is_playing {
            Transport::Stop
        } else {
            Transport::Start
        }),
{
    if is_playing {
        Transport::Stop
    } else {
        Transport::Start
    }
}

} // verus!
