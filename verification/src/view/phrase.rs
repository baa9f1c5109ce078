//! The phrase view: the steps of one phrase, in a column.

use vstd::prelude::*;
use crate::messaging::Action;
use crate::types::{PhraseId, Step, NUM_STEPS_PER_PHRASE};
use crate::view::cell::{
    apply_delta, cell_after, cell_text, delta_for, delta_of, render_cell, Input,
};

verus! {

pub struct Phrase {
    phrase_id: PhraseId,
    selected_row: usize,
    values: Vec<Option<Step>>,
}

/// What the phrase view holds.
pub struct PhraseView {
    pub phrase_id: PhraseId,
    pub selected_row: int,
    pub values: Seq<Option<Step>>,
}

/// The note of a step, where there is a step.
pub open spec fn note_of(step: Option<Step>) -> Option<u8> {
    match step {
        Some(s) => Some(s@.0),
        None => None,
    }
}

/// Whether `after` is the step that `delta` makes of `before`: its note is
/// the cell that `delta` makes of the note of `before`, and its length is
/// zero.
pub open spec fn step_after(before: Option<Step>, delta: int, after: Option<Step>) -> bool {
    &&& note_of(after) == cell_after(note_of(before), delta)
    &&& match after {
        Some(s) => s@.1 == 0,
        None => true,
    }
}

impl PhraseView {
    pub open spec fn wf(self) -> bool {
        &&& self.values.len() == NUM_STEPS_PER_PHRASE
        &&& 0 <= self.selected_row < NUM_STEPS_PER_PHRASE
    }

    /// The view after the arrows that are pressed have moved the selection:
    /// down, then up.
    pub open spec fn moved(self, input: Input) -> PhraseView {
        let down = if input.down && self.selected_row + 1 < NUM_STEPS_PER_PHRASE {
            self.selected_row + 1
        } else {
            self.selected_row
        };
        PhraseView {
            selected_row: if input.up && down > 0 {
                down - 1
            } else {
                down
            },
            ..self
        }
    }

    /// Whether `after` is the view that the arrows make of this one when
    /// they change the selected step, and `request` what that asks of the
    /// keeper of the song.
    pub open spec fn changed_to(
        self,
        input: Input,
        after: PhraseView,
        request: Option<Action>,
    ) -> bool {
        match delta_of(input) {
            Some(d) => {
                &&& after.phrase_id == self.phrase_id
                &&& after.selected_row == self.selected_row
                &&& after.values == self.values.update(
                    self.selected_row,
                    after.values[self.selected_row],
                )
                &&& step_after(self.values[self.selected_row], d, after.values[self.selected_row])
                &&& request == Some(
                    Action::SetPhraseStep {
                        phrase_id: self.phrase_id,
                        index: self.selected_row as usize,
                        step: after.values[self.selected_row],
                    },
                )
            },
            None => after == self && request is None,
        }
    }
}

impl View for Phrase {
    type V = PhraseView;

    closed spec fn view(&self) -> PhraseView {
        PhraseView {
            phrase_id: self.phrase_id,
            selected_row: self.selected_row as int,
            values: self.values@,
        }
    }
}

impl Phrase {
    pub open spec fn wf(&self) -> bool {
        self@.wf()
    }

    /// The view of a phrase with its steps, the first of them selected.
    pub fn new(phrase_id: PhraseId, phrase_data: Vec<Option<Step>>) -> (view: Self)
        requires
            phrase_data@.len() == NUM_STEPS_PER_PHRASE,
        ensures
            view@ == (PhraseView { phrase_id, selected_row: 0, values: phrase_data@ }),
            view.wf(),
    {
        Phrase { phrase_id, selected_row: 0, values: phrase_data }
    }

    /// The selected row.
    pub fn get_selection(&self) -> (value: Option<u8>)
        requires
            self.wf(),
        ensures
            value == Some(self@.selected_row as u8),
    {
        Some(self.selected_row as u8)
    }

    pub fn phrase_id(&self) -> (id: PhraseId)
        ensures
            id == self@.phrase_id,
    {
        self.phrase_id
    }

    pub fn selected_row(&self) -> (row: usize)
        ensures
            row == self@.selected_row,
    {
        self.selected_row
    }

    /// The step at a row.
    pub fn value_at(&self, row: usize) -> (value: Option<Step>)
        requires
            self.wf(),
            row < NUM_STEPS_PER_PHRASE,
        ensures
            value == self@.values[row as int],
    {
        self.values[row]
    }

    pub fn move_selection(&mut self, input: &Input)
        requires
            old(self).wf(),
        ensures
            final(self)@ == old(self)@.moved(*input),
            final(self).wf(),
    {
        if input.down {
            if self.selected_row + 1 < NUM_STEPS_PER_PHRASE {
                self.selected_row = self.selected_row + 1;
            }
        }
        if input.up {
            if self.selected_row > 0 {
                self.selected_row = self.selected_row - 1;
            }
        }
    }

    /// The two characters that show a step: those of its note.
    pub fn render_cell(&self, value: Option<Step>) -> (text: (char, char))
        ensures
            text == cell_text(note_of(value)),
    {
        match value {
            Some(step) => render_cell(Some(step.note())),
            None => render_cell(None),
        }
    }

    /// The step that `delta` makes of a step.
    pub fn apply_delta(value: Option<Step>, delta: isize) -> (r: Option<Step>)
        ensures
            step_after(value, delta as int, r),
    {
        let note: Option<u8> = match value {
            Some(step) => Some(step.note()),
            None => None,
        };
        match apply_delta(note, delta) {
            Some(n) => Some(Step::new(n, 0)),
            None => None,
        }
    }

    /// Changes the selected step as the arrows say, and returns what is to
    /// be asked of the keeper of the song.
    pub fn change_selection(&mut self, input: &Input) -> (request: Option<Action>)
        requires
            old(self).wf(),
        ensures
            old(self)@.changed_to(*input, final(self)@, request),
            final(self).wf(),
    {
        match delta_for(input) {
            None => None,
            Some(d) => {
                let row: usize = self.selected_row;
                let new_value: Option<Step> = Self::apply_delta(self.values[row], d);
                self.values[row] = new_value;
                assert(self@.values =~= old(self)@.values.update(row as int, new_value));
                Some(Action::SetPhraseStep { phrase_id: self.phrase_id, index: row, step: new_value })
            },
        }
    }

    pub fn handle_event(&mut self, input: &Input) -> (request: Option<Action>)
        requires
            old(self).wf(),
        ensures
            final(self).wf(),
            input.shift ==> old(self)@.changed_to(*input, final(self)@, request),
            !input.shift ==> final(self)@ == old(self)@.moved(*input) && request is None,
    {
        if input.shift {
            self.change_selection(input)
        } else {
            self.move_selection(input);
            None
        }
    }
}

} // verus!
