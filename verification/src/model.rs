//! The song: patterns of chains, chains of phrases, phrases of steps.

use std::collections::HashMap;
use vstd::prelude::*;
use crate::types::{
    ChainId, PatternId, PhraseId, Step, TrackId, NUM_PHRASES_PER_CHAIN, NUM_STEPS_PER_PHRASE,
    NUM_TRACKS,
};

verus! {

broadcast use vstd::std_specs::hash::group_hash_axioms;

/// One row of the song: for each track, a chain or nothing.
#[derive(Clone, Copy)]
pub struct Pattern {
    tracks: [Option<ChainId>; NUM_TRACKS],
}

/// A short list of phrases.
#[derive(Clone, Copy)]
pub struct Chain {
    phrases: [Option<PhraseId>; NUM_PHRASES_PER_CHAIN],
}

/// Sixteen steps.
#[derive(Clone, Copy)]
pub struct Phrase {
    steps: [Option<Step>; NUM_STEPS_PER_PHRASE],
}

/// All the patterns, chains and phrases of a song. There are as many
/// patterns as the song has needed so far.
pub struct Song {
    patterns: Vec<Pattern>,
    pub chains: HashMap<ChainId, Chain>,
    pub phrases: HashMap<PhraseId, Phrase>,
}

/// What a song holds.
pub struct SongModel {
    pub patterns: Seq<Seq<Option<ChainId>>>,
    pub chains: Map<ChainId, Seq<Option<PhraseId>>>,
    pub phrases: Map<PhraseId, Seq<Option<Step>>>,
}

/// A row without chains.
pub open spec fn empty_pattern() -> Seq<Option<ChainId>> {
    Seq::new(NUM_TRACKS as nat, |i: int| None)
}

/// A chain without phrases.
pub open spec fn empty_chain() -> Seq<Option<PhraseId>> {
    Seq::new(NUM_PHRASES_PER_CHAIN as nat, |i: int| None)
}

/// A phrase without steps.
pub open spec fn empty_phrase() -> Seq<Option<Step>> {
    Seq::new(NUM_STEPS_PER_PHRASE as nat, |i: int| None)
}

impl SongModel {
    pub open spec fn empty() -> SongModel {
        SongModel { patterns: Seq::empty(), chains: Map::empty(), phrases: Map::empty() }
    }

    /// The row of a pattern; a row without chains for a pattern that the song
    /// does not have.
    pub open spec fn pattern(self, id: int) -> Seq<Option<ChainId>> {
        if 0 <= id < self.patterns.len() {
            self.patterns[id]
        } else {
            empty_pattern()
        }
    }

    /// The phrases of a chain; none for a chain that the song does not have.
    pub open spec fn chain(self, id: ChainId) -> Seq<Option<PhraseId>> {
        if self.chains.contains_key(id) {
            self.chains[id]
        } else {
            empty_chain()
        }
    }

    /// The steps of a phrase; none for a phrase that the song does not have.
    pub open spec fn phrase(self, id: PhraseId) -> Seq<Option<Step>> {
        if self.phrases.contains_key(id) {
            self.phrases[id]
        } else {
            empty_phrase()
        }
    }

    /// The patterns, with rows without chains added until there are at
    /// least `count` of them.
    pub open spec fn grown(self, count: int) -> Seq<Seq<Option<ChainId>>> {
        Seq::new(
            if count > self.patterns.len() {
                count as nat
            } else {
                self.patterns.len()
            },
            |i: int| self.pattern(i),
        )
    }

    /// The song with a chain, or nothing, put on a track of a pattern. The
    /// song grows to hold the pattern.
    pub open spec fn with_pattern_value(
        self,
        pattern_id: PatternId,
        track_id: TrackId,
        chain_id: Option<ChainId>,
    ) -> SongModel {
        let grown = self.grown(pattern_id + 1);
        SongModel {
            patterns: grown.update(
                pattern_id as int,
                grown[pattern_id as int].update(track_id as int, chain_id),
            ),
            ..self
        }
    }

    /// The song with a phrase, or nothing, at a place of a chain. The song
    /// has the chain afterwards.
    pub open spec fn with_chain_phrase(
        self,
        chain_id: ChainId,
        index: int,
        phrase_id: Option<PhraseId>,
    ) -> SongModel {
        SongModel {
            chains: self.chains.insert(chain_id, self.chain(chain_id).update(index, phrase_id)),
            ..self
        }
    }

    /// The song with a step, or nothing, at a place of a phrase. The song
    /// has the phrase afterwards.
    pub open spec fn with_phrase_step(
        self,
        phrase_id: PhraseId,
        index: int,
        step: Option<Step>,
    ) -> SongModel {
        SongModel {
            phrases: self.phrases.insert(phrase_id, self.phrase(phrase_id).update(index, step)),
            ..self
        }
    }
}

/// What is set is what is got. A chain put on a track of a pattern is read
/// back from that track, every other track of the song is as it was, and the
/// song has the pattern afterwards.
pub proof fn lemma_pattern_set_then_get(
    song: SongModel,
    pattern_id: PatternId,
    track_id: TrackId,
    chain_id: Option<ChainId>,
    other_pattern: PatternId,
    other_track: TrackId,
)
    requires
        track_id < NUM_TRACKS,
        other_track < NUM_TRACKS,
        forall|i: int| 0 <= i < song.patterns.len() ==> (#[trigger] song.patterns[i]).len()
            == NUM_TRACKS,
    ensures
        ({
            let after = song.with_pattern_value(pattern_id, track_id, chain_id);
            &&& after.patterns.len() > pattern_id
            &&& after.pattern(pattern_id as int)[track_id as int] == chain_id
            &&& (other_pattern != pattern_id || other_track != track_id) ==> after.pattern(
                other_pattern as int,
            )[other_track as int] == song.pattern(other_pattern as int)[other_track as int]
            &&& after.chains == song.chains
            &&& after.phrases == song.phrases
        }),
{
}

/// What is set is what is got. A phrase put at a place of a chain is read
/// back from that place, and every other place of every chain is as it was.
pub proof fn lemma_chain_set_then_get(
    song: SongModel,
    chain_id: ChainId,
    index: int,
    phrase_id: Option<PhraseId>,
    other_chain: ChainId,
    other_index: int,
)
    requires
        0 <= index < NUM_PHRASES_PER_CHAIN,
        0 <= other_index < NUM_PHRASES_PER_CHAIN,
        forall|k: ChainId| song.chains.contains_key(k) ==> (#[trigger] song.chains[k]).len()
            == NUM_PHRASES_PER_CHAIN,
    ensures
        ({
            let after = song.with_chain_phrase(chain_id, index, phrase_id);
            &&& after.chain(chain_id)[index] == phrase_id
            &&& (other_chain != chain_id || other_index != index) ==> after.chain(
                other_chain,
            )[other_index] == song.chain(other_chain)[other_index]
            &&& after.patterns == song.patterns
            &&& after.phrases == song.phrases
        }),
{
}

/// What is set is what is got. A step put at a place of a phrase is read
/// back from that place, and every other place of every phrase is as it was.
pub proof fn lemma_phrase_set_then_get(
    song: SongModel,
    phrase_id: PhraseId,
    index: int,
    step: Option<Step>,
    other_phrase: PhraseId,
    other_index: int,
)
    requires
        0 <= index < NUM_STEPS_PER_PHRASE,
        0 <= other_index < NUM_STEPS_PER_PHRASE,
        forall|k: PhraseId| song.phrases.contains_key(k) ==> (#[trigger] song.phrases[k]).len()
            == NUM_STEPS_PER_PHRASE,
    ensures
        ({
            let after = song.with_phrase_step(phrase_id, index, step);
            &&& after.phrase(phrase_id)[index] == step
            &&& (other_phrase != phrase_id || other_index != index) ==> after.phrase(
                other_phrase,
            )[other_index] == song.phrase(other_phrase)[other_index]
            &&& after.patterns == song.patterns
            &&& after.chains == song.chains
        }),
{
}

impl View for Pattern {
    type V = Seq<Option<ChainId>>;

    closed spec fn view(&self) -> Seq<Option<ChainId>> {
        self.tracks@
    }
}

impl View for Chain {
    type V = Seq<Option<PhraseId>>;

    closed spec fn view(&self) -> Seq<Option<PhraseId>> {
        self.phrases@
    }
}

impl View for Phrase {
    type V = Seq<Option<Step>>;

    closed spec fn view(&self) -> Seq<Option<Step>> {
        self.steps@
    }
}

impl View for Song {
    type V = SongModel;

    closed spec fn view(&self) -> SongModel {
        SongModel {
            patterns: Seq::new(self.patterns@.len(), |i: int| self.patterns@[i]@),
            chains: Map::new(
                |k: ChainId| self.chains@.contains_key(k),
                |k: ChainId| self.chains@[k]@,
            ),
            phrases: Map::new(
                |k: PhraseId| self.phrases@.contains_key(k),
                |k: PhraseId| self.phrases@[k]@,
            ),
        }
    }
}

impl Pattern {
    pub fn new() -> (pattern: Self)
        ensures
            pattern@ == empty_pattern(),
    {
        let pattern = Pattern { tracks: [None;NUM_TRACKS] };
        assert(pattern@ =~= empty_pattern());
        pattern
    }

    /// The chains of the row, track by track.
    pub fn to_vec(&self) -> (row: Vec<Option<ChainId>>)
        ensures
            row@ == self@,
            row@.len() == NUM_TRACKS,
    {
        let mut row: Vec<Option<ChainId>> = Vec::with_capacity(NUM_TRACKS);
        let mut i: usize = 0;
        while i < NUM_TRACKS
            invariant
                i <= NUM_TRACKS,
                row@.len() == i,
                forall|k: int| 0 <= k < i ==> row@[k] == self.tracks@[k],
            decreases NUM_TRACKS - i,
        {
            row.push(self.tracks[i]);
            i = i + 1;
        }
        assert(row@ =~= self@);
        row
    }
}

impl Chain {
    pub fn new() -> (chain: Self)
        ensures
            chain@ == empty_chain(),
    {
        let chain = Chain { phrases: [None;NUM_PHRASES_PER_CHAIN] };
        assert(chain@ =~= empty_chain());
        chain
    }

    /// The phrases of the chain, place by place.
    pub fn to_vec(&self) -> (list: Vec<Option<PhraseId>>)
        ensures
            list@ == self@,
            list@.len() == NUM_PHRASES_PER_CHAIN,
    {
        let mut list: Vec<Option<PhraseId>> = Vec::with_capacity(NUM_PHRASES_PER_CHAIN);
        let mut i: usize = 0;
        while i < NUM_PHRASES_PER_CHAIN
            invariant
                i <= NUM_PHRASES_PER_CHAIN,
                list@.len() == i,
                forall|k: int| 0 <= k < i ==> list@[k] == self.phrases@[k],
            decreases NUM_PHRASES_PER_CHAIN - i,
        {
            list.push(self.phrases[i]);
            i = i + 1;
        }
        assert(list@ =~= self@);
        list
    }
}

impl Phrase {
    pub fn new() -> (phrase: Self)
        ensures
            phrase@ == empty_phrase(),
    {
        let phrase = Phrase { steps: [None;NUM_STEPS_PER_PHRASE] };
        assert(phrase@ =~= empty_phrase());
        phrase
    }

    /// The steps of the phrase, place by place.
    pub fn to_vec(&self) -> (list: Vec<Option<Step>>)
        ensures
            list@ == self@,
            list@.len() == NUM_STEPS_PER_PHRASE,
    {
        let mut list: Vec<Option<Step>> = Vec::with_capacity(NUM_STEPS_PER_PHRASE);
        let mut i: usize = 0;
        while i < NUM_STEPS_PER_PHRASE
            invariant
                i <= NUM_STEPS_PER_PHRASE,
                list@.len() == i,
                forall|k: int| 0 <= k < i ==> list@[k] == self.steps@[k],
            decreases NUM_STEPS_PER_PHRASE - i,
        {
            list.push(self.steps[i]);
            i = i + 1;
        }
        assert(list@ =~= self@);
        list
    }
}

impl Song {
    pub fn new() -> (song: Self)
        ensures
            song@ == SongModel::empty(),
    {
        let song = Song { patterns: Vec::new(), chains: HashMap::new(), phrases: HashMap::new() };
        assert(song@.patterns =~= Seq::empty());
        assert(song@.chains =~= Map::empty());
        assert(song@.phrases =~= Map::empty());
        song
    }

    /// The rows of all the patterns.
    pub fn get_pattern_data(&self) -> (data: Vec<Vec<Option<ChainId>>>)
        ensures
            data@.len() == self@.patterns.len(),
            forall|i: int| 0 <= i < data@.len() ==> (#[trigger] data@[i])@ == self@.patterns[i],
            forall|i: int| 0 <= i < data@.len() ==> (#[trigger] data@[i])@.len() == NUM_TRACKS,
    {
        let n: usize = self.patterns.len();
        let mut data: Vec<Vec<Option<ChainId>>> = Vec::with_capacity(n);
        let mut i: usize = 0;
        while i < n
            invariant
                i <= n,
                n == self.patterns@.len(),
                data@.len() == i,
                forall|k: int| 0 <= k < i ==> (#[trigger] data@[k])@ == self.patterns@[k]@,
                forall|k: int| 0 <= k < i ==> (#[trigger] data@[k])@.len() == NUM_TRACKS,
            decreases n - i,
        {
            data.push(self.patterns[i].to_vec());
            i = i + 1;
        }
        data
    }

    /// The row of one pattern.
    pub fn get_pattern(&self, pattern_id: PatternId) -> (row: Vec<Option<ChainId>>)
        ensures
            row@ == self@.pattern(pattern_id as int),
            row@.len() == NUM_TRACKS,
    {
        let index: usize = pattern_id as usize;
        if index < self.patterns.len() {
            self.patterns[index].to_vec()
        } else {
            Pattern::new().to_vec()
        }
    }

    /// Puts a chain, or nothing, on a track of a pattern.
    pub fn update_pattern(
        &mut self,
        pattern_id: PatternId,
        track_id: TrackId,
        chain_id: Option<ChainId>,
    )
        requires
            track_id < NUM_TRACKS,
        ensures
            final(self)@ == old(self)@.with_pattern_value(pattern_id, track_id, chain_id),
    {
        let ghost before = self@;
        let pattern_index: usize = pattern_id as usize;
        let track_index: usize = track_id as usize;
        while self.patterns.len() <= pattern_index
            invariant
                pattern_index == pattern_id,
                self@.chains == before.chains,
                self@.phrases == before.phrases,
                self@.patterns.len() >= before.patterns.len(),
                self@.patterns.len() <= pattern_index + 1 || self@.patterns.len()
                    == before.patterns.len(),
                forall|k: int|
                    0 <= k < self@.patterns.len() ==> self@.patterns[k] == before.pattern(k),
            decreases pattern_index + 1 - self.patterns.len(),
        {
            let ghost grown = self@;
            self.patterns.push(Pattern::new());
            assert(self@.chains =~= grown.chains);
            assert(self@.phrases =~= grown.phrases);
            assert forall|k: int| 0 <= k < self@.patterns.len() implies self@.patterns[k]
                == before.pattern(k) by {
                if k < grown.patterns.len() {
                    assert(self@.patterns[k] == grown.patterns[k]);
                }
            }
        }
        let ghost grown = self@;
        assert(grown.patterns =~= before.grown(pattern_id + 1));
        let pattern = &mut self.patterns[pattern_index];
        pattern.tracks[track_index] = chain_id;
        proof {
            let goal = before.with_pattern_value(pattern_id, track_id, chain_id);
            assert(self@.patterns =~= goal.patterns);
            assert(self@.chains =~= goal.chains);
            assert(self@.phrases =~= goal.phrases);
        }
    }

    /// The phrases of one chain.
    pub fn get_chain_data(&self, chain_id: ChainId) -> (list: Vec<Option<PhraseId>>)
        ensures
            list@ == self@.chain(chain_id),
            list@.len() == NUM_PHRASES_PER_CHAIN,
    {
        match self.chains.get(&chain_id) {
            Some(chain) => chain.to_vec(),
            None => Chain::new().to_vec(),
        }
    }

    /// Puts a phrase, or nothing, at a place of a chain.
    pub fn set_chain_phrase(&mut self, chain_id: ChainId, index: usize, phrase_id: Option<PhraseId>)
        requires
            index < NUM_PHRASES_PER_CHAIN,
        ensures
            final(self)@ == old(self)@.with_chain_phrase(chain_id, index as int, phrase_id),
    {
        let ghost before = self@;
        let mut chain: Chain = match self.chains.get(&chain_id) {
            Some(chain) => *chain,
            None => Chain::new(),
        };
        chain.phrases[index] = phrase_id;
        self.chains.insert(chain_id, chain);
        proof {
            let goal = before.with_chain_phrase(chain_id, index as int, phrase_id);
            assert(self@.chains =~= goal.chains);
            assert(self@.patterns =~= goal.patterns);
            assert(self@.phrases =~= goal.phrases);
        }
    }

    /// The steps of one phrase.
    pub fn get_phrase_data(&self, phrase_id: PhraseId) -> (list: Vec<Option<Step>>)
        ensures
            list@ == self@.phrase(phrase_id),
            list@.len() == NUM_STEPS_PER_PHRASE,
    {
        match self.phrases.get(&phrase_id) {
            Some(phrase) => phrase.to_vec(),
            None => Phrase::new().to_vec(),
        }
    }

    /// Puts a step, or nothing, at a place of a phrase.
    pub fn set_phrase_step(&mut self, phrase_id: PhraseId, index: usize, step: Option<Step>)
        requires
            index < NUM_STEPS_PER_PHRASE,
        ensures
            final(self)@ == old(self)@.with_phrase_step(phrase_id, index as int, step),
    {
        let ghost before = self@;
        let mut phrase: Phrase = match self.phrases.get(&phrase_id) {
            Some(phrase) => *phrase,
            None => Phrase::new(),
        };
        phrase.steps[index] = step;
        self.phrases.insert(phrase_id, phrase);
        proof {
            let goal = before.with_phrase_step(phrase_id, index as int, step);
            assert(self@.phrases =~= goal.phrases);
            assert(self@.patterns =~= goal.patterns);
            assert(self@.chains =~= goal.chains);
        }
    }
}

} // verus!
