//! The chain view: the phrases of one chain, in a column.

use vstd::prelude::*;
use crate::messaging::Action;
use crate::types::{ChainId, PhraseId, NUM_PHRASES_PER_CHAIN};
use crate::view::cell::{apply_delta, cell_after, cell_text, delta_for, delta_of, render_cell, Input};

verus! {

pub struct Chain {
    chain_id: ChainId,
    selected_row: usize,
    values: Vec<Option<PhraseId>>,
}

/// What the chain view holds.
pub struct ChainView {
    pub chain_id: ChainId,
    pub selected_row: int,
    pub values: Seq<Option<PhraseId>>,
}

impl ChainView {
    pub open spec fn wf(self) -> bool {
        &&& self.values.len() == NUM_PHRASES_PER_CHAIN
        &&& 0 <= self.selected_row < NUM_PHRASES_PER_CHAIN
    }

    pub open spec fn selection(self) -> Option<PhraseId> {
        self.values[self.selected_row]
    }

    /// The view after the arrows that are pressed have moved the selection:
    /// down, then up.
    pub open spec fn moved(self, input: Input) -> ChainView {
        let down = if input.down && self.selected_row + 1 < NUM_PHRASES_PER_CHAIN {
            self.selected_row + 1
        } else {
            self.selected_row
        };
        ChainView {
            selected_row: if input.up && down > 0 {
                down - 1
            } else {
                down
            },
            ..self
        }
    }

    /// The view after the arrows that are pressed have changed the selected
    /// phrase.
    pub open spec fn changed(self, input: Input) -> ChainView {
        match delta_of(input) {
            Some(d) => ChainView {
                values: self.values.update(self.selected_row, cell_after(self.selection(), d)),
                ..self
            },
            None => self,
        }
    }

    /// What a change of the selected phrase asks of the keeper of the song.
    pub open spec fn request(self, input: Input) -> Option<Action> {
        match delta_of(input) {
            Some(d) => Some(
                Action::SetChainPhrase {
                    chain_id: self.chain_id,
                    index: self.selected_row as usize,
                    phrase_id: cell_after(self.selection(), d),
                },
            ),
            None => None,
        }
    }

    pub open spec fn handled(self, input: Input) -> ChainView {
        if input.shift {
            self.changed(input)
        } else {
            self.moved(input)
        }
    }
}

impl View for Chain {
    type V = ChainView;

    closed spec fn view(&self) -> ChainView {
        ChainView {
            chain_id: self.chain_id,
            selected_row: self.selected_row as int,
            values: self.values@,
        }
    }
}

impl Chain {
    pub open spec fn wf(&self) -> bool {
        self@.wf()
    }

    /// The view of a chain with its phrases, the first of them selected.
    pub fn new(chain_id: ChainId, chain_data: Vec<Option<PhraseId>>) -> (view: Self)
        requires
            chain_data@.len() == NUM_PHRASES_PER_CHAIN,
        ensures
            view@ == (ChainView { chain_id, selected_row: 0, values: chain_data@ }),
            view.wf(),
    {
        Chain { chain_id, selected_row: 0, values: chain_data }
    }

    pub fn get_selection(&self) -> (value: Option<u8>)
        requires
            self.wf(),
        ensures
            value == self@.selection(),
    {
        self.values[self.selected_row]
    }

    pub fn chain_id(&self) -> (id: ChainId)
        ensures
            id == self@.chain_id,
    {
        self.chain_id
    }

    pub fn selected_row(&self) -> (row: usize)
        ensures
            row == self@.selected_row,
    {
        self.selected_row
    }

    /// The phrase at a row.
    pub fn value_at(&self, row: usize) -> (value: Option<PhraseId>)
        requires
            self.wf(),
            row < NUM_PHRASES_PER_CHAIN,
        ensures
            value == self@.values[row as int],
    {
        self.values[row]
    }

    pub fn move_selection(&mut self, input: &Input)
        requires
            old(self).wf(),
        ensures
            final(self)@ == old(self)@.moved(*input),
            final(self).wf(),
    {
        if input.down {
            if self.selected_row + 1 < NUM_PHRASES_PER_CHAIN {
                self.selected_row = self.selected_row + 1;
            }
        }
        if input.up {
            if self.selected_row > 0 {
                self.selected_row = self.selected_row - 1;
            }
        }
    }

    pub fn render_cell(&self, value: Option<u8>) -> (text: (char, char))
        ensures
            text == cell_text(value),
    {
        render_cell(value)
    }

    pub fn apply_delta(value: Option<u8>, delta: isize) -> (r: Option<u8>)
        ensures
            r == cell_after(value, delta as int),
    {
        apply_delta(value, delta)
    }

    /// Changes the selected phrase as the arrows say, and returns what is
    /// to be asked of the keeper of the song.
    pub fn change_selection(&mut self, input: &Input) -> (request: Option<Action>)
        requires
            old(self).wf(),
        ensures
            final(self)@ == old(self)@.changed(*input),
            final(self).wf(),
            request == old(self)@.request(*input),
    {
        match delta_for(input) {
            None => None,
            Some(d) => {
                let row: usize = self.selected_row;
                let new_value: Option<u8> = Self::apply_delta(self.values[row], d);
                self.values[row] = new_value;
                Some(
                    Action::SetChainPhrase {
                        chain_id: self.chain_id,
                        index: row,
                        phrase_id: new_value,
                    },
                )
            },
        }
    }

    pub fn handle_event(&mut self, input: &Input) -> (request: Option<Action>)
        requires
            old(self).wf(),
        ensures
            final(self)@ == old(self)@.handled(*input),
            final(self).wf(),
            request == (if input.shift {
                old(self)@.request(*input)
            } else {
                None
            }),
    {
        if input.shift {
            self.change_selection(input)
        } else {
            self.move_selection(input);
            None
        }
    }
}

} // verus!
