//! The song view: a grid of chains, a row for each pattern and a column for
//! each track, of which a window of rows shows.

use vstd::prelude::*;
use crate::messaging::Action;
use crate::types::ChainId;
use crate::view::cell::{apply_delta, cell_after, delta_for, delta_of, render_cell, Input};

verus! {

pub const ROWS: usize = 256;

pub const COLS: usize = 8;

/// The rows that show at once.
pub const VISIBLE_ROWS: usize = 16;

pub struct Song {
    visible_rows: usize,
    selected_row: usize,
    selected_col: usize,
    /// The first row that shows.
    min_row: usize,
    values: Vec<Vec<Option<ChainId>>>,
}

/// What the song view holds.
pub struct SongView {
    pub visible_rows: int,
    pub selected_row: int,
    pub selected_col: int,
    pub min_row: int,
    pub values: Seq<Seq<Option<ChainId>>>,
}

impl SongView {
    /// The grid is whole, the selection is a cell of it, and the selected
    /// row shows.
    pub open spec fn wf(self) -> bool {
        &&& self.values.len() == ROWS
        &&& forall|i: int| 0 <= i < ROWS ==> (#[trigger] self.values[i]).len() == COLS
        &&& 0 <= self.selected_row < ROWS
        &&& 0 <= self.selected_col < COLS
        &&& 0 < self.visible_rows <= ROWS
        &&& 0 <= self.min_row <= self.selected_row < self.min_row + self.visible_rows
    }

    pub open spec fn fresh() -> SongView {
        SongView {
            visible_rows: VISIBLE_ROWS as int,
            selected_row: 0,
            selected_col: 0,
            min_row: 0,
            values: Seq::new(ROWS as nat, |i: int| Seq::new(COLS as nat, |j: int| None)),
        }
    }

    pub open spec fn selection(self) -> Option<ChainId> {
        self.values[self.selected_row][self.selected_col]
    }

    /// The view after the down arrow: the selection is a row further down,
    /// unless it was on the last, and the window follows it.
    pub open spec fn moved_down(self) -> SongView {
        let row = if self.selected_row + 1 < ROWS {
            self.selected_row + 1
        } else {
            ROWS - 1
        };
        let last = ROWS - self.visible_rows;
        SongView {
            selected_row: row,
            min_row: if row >= self.min_row + self.visible_rows {
                if self.min_row + 1 < last {
                    self.min_row + 1
                } else {
                    last
                }
            } else {
                self.min_row
            },
            ..self
        }
    }

    /// The view after the up arrow.
    pub open spec fn moved_up(self) -> SongView {
        let row = if self.selected_row > 0 {
            self.selected_row - 1
        } else {
            0
        };
        SongView {
            selected_row: row,
            min_row: if row < self.min_row {
                self.min_row - 1
            } else {
                self.min_row
            },
            ..self
        }
    }

    pub open spec fn moved_right(self) -> SongView {
        SongView {
            selected_col: if self.selected_col + 1 < COLS {
                self.selected_col + 1
            } else {
                COLS - 1
            },
            ..self
        }
    }

    pub open spec fn moved_left(self) -> SongView {
        SongView {
            selected_col: if self.selected_col > 0 {
                self.selected_col - 1
            } else {
                0
            },
            ..self
        }
    }

    /// The view after the arrows that are pressed have moved the selection:
    /// down, up, right and left, in this order.
    pub open spec fn moved(self, input: Input) -> SongView {
        let a = if input.down {
            self.moved_down()
        } else {
            self
        };
        let b = if input.up {
            a.moved_up()
        } else {
            a
        };
        let c = if input.right {
            b.moved_right()
        } else {
            b
        };
        if input.left {
            c.moved_left()
        } else {
            c
        }
    }

    /// The view after the arrows that are pressed have changed the selected
    /// cell.
    pub open spec fn changed(self, input: Input) -> SongView {
        match delta_of(input) {
            Some(d) => SongView {
                values: self.values.update(
                    self.selected_row,
                    self.values[self.selected_row].update(
                        self.selected_col,
                        cell_after(self.selection(), d),
                    ),
                ),
                ..self
            },
            None => self,
        }
    }

    /// What a change of the selected cell asks of the keeper of the song.
    pub open spec fn request(self, input: Input) -> Option<Action> {
        match delta_of(input) {
            Some(d) => Some(
                Action::SetPatternValue {
                    pattern_id: self.selected_row as u8,
                    track_id: self.selected_col as u8,
                    chain_id: cell_after(self.selection(), d),
                },
            ),
            None => None,
        }
    }

    /// The view after the keys: with shift they change the selected cell,
    /// without it they move the selection.
    pub open spec fn handled(self, input: Input) -> SongView {
        if input.shift {
            self.changed(input)
        } else {
            self.moved(input)
        }
    }
}

impl View for Song {
    type V = SongView;

    closed spec fn view(&self) -> SongView {
        SongView {
            visible_rows: self.visible_rows as int,
            selected_row: self.selected_row as int,
            selected_col: self.selected_col as int,
            min_row: self.min_row as int,
            values: Seq::new(self.values@.len(), |i: int| self.values@[i]@),
        }
    }
}

/// Moving the selection keeps the view well formed: the selected row still
/// shows.
pub proof fn lemma_moved_wf(view: SongView, input: Input)
    requires
        view.wf(),
    ensures
        view.moved(input).wf(),
{
}

impl Song {
    pub open spec fn wf(&self) -> bool {
        self@.wf()
    }

    pub fn new() -> (view: Self)
        ensures
            view@ == SongView::fresh(),
            view.wf(),
    {
        let mut values: Vec<Vec<Option<ChainId>>> = Vec::with_capacity(ROWS);
        let mut i: usize = 0;
        while i < ROWS
            invariant
                i <= ROWS,
                values@.len() == i,
                forall|k: int|
                    0 <= k < i ==> (#[trigger] values@[k])@ == Seq::new(
                        COLS as nat,
                        |j: int| None::<ChainId>,
                    ),
            decreases ROWS - i,
        {
            let mut row: Vec<Option<ChainId>> = Vec::with_capacity(COLS);
            let mut j: usize = 0;
            while j < COLS
                invariant
                    j <= COLS,
                    row@.len() == j,
                    forall|k: int| 0 <= k < j ==> row@[k] == None::<ChainId>,
                decreases COLS - j,
            {
                row.push(None);
                j = j + 1;
            }
            assert(row@ =~= Seq::new(COLS as nat, |j: int| None::<ChainId>));
            values.push(row);
            i = i + 1;
        }
        let view = Song {
            visible_rows: VISIBLE_ROWS,
            selected_row: 0,
            selected_col: 0,
            min_row: 0,
            values,
        };
        assert(view@.values =~= SongView::fresh().values);
        view
    }

    pub fn get_selection(&self) -> (value: Option<u8>)
        requires
            self.wf(),
        ensures
            value == self@.selection(),
    {
        assert(self@.values[self.selected_row as int].len() == COLS);
        self.values[self.selected_row][self.selected_col]
    }

    /// The cell at a row and a column.
    pub fn value_at(&self, row: usize, col: usize) -> (value: Option<ChainId>)
        requires
            self.wf(),
            row < ROWS,
            col < COLS,
        ensures
            value == self@.values[row as int][col as int],
    {
        assert(self@.values[row as int].len() == COLS);
        self.values[row][col]
    }

    pub fn selected_row(&self) -> (row: usize)
        ensures
            row == self@.selected_row,
    {
        self.selected_row
    }

    pub fn selected_col(&self) -> (col: usize)
        ensures
            col == self@.selected_col,
    {
        self.selected_col
    }

    /// The first row that shows.
    pub fn min_row(&self) -> (row: usize)
        ensures
            row == self@.min_row,
    {
        self.min_row
    }

    /// The row after the last that shows.
    pub fn max_row(&self) -> (row: usize)
        requires
            self.wf(),
        ensures
            row == (if self@.min_row + self@.visible_rows < ROWS {
                self@.min_row + self@.visible_rows
            } else {
                ROWS as int
            }),
    {
        if self.min_row + self.visible_rows < ROWS {
            self.min_row + self.visible_rows
        } else {
            ROWS
        }
    }

    /// Moves the selection as the arrows say.
    pub fn move_selection(&mut self, input: &Input)
        requires
            old(self).wf(),
        ensures
            final(self)@ == old(self)@.moved(*input),
            final(self).wf(),
    {
        if input.down {
            if self.selected_row + 1 < ROWS {
                self.selected_row = self.selected_row + 1;
            } else {
                self.selected_row = ROWS - 1;
            }
            if self.selected_row >= self.min_row + self.visible_rows {
                let last: usize = ROWS - self.visible_rows;
                if self.min_row + 1 < last {
                    self.min_row = self.min_row + 1;
                } else {
                    self.min_row = last;
                }
            }
        }
        if input.up {
            if self.selected_row > 0 {
                self.selected_row = self.selected_row - 1;
            }
            if self.selected_row < self.min_row {
                self.min_row = self.min_row - 1;
            }
        }
        if input.right {
            if self.selected_col + 1 < COLS {
                self.selected_col = self.selected_col + 1;
            } else {
                self.selected_col = COLS - 1;
            }
        }
        if input.left {
            if self.selected_col > 0 {
                self.selected_col = self.selected_col - 1;
            }
        }
    }

    pub fn render_cell(&self, value: Option<u8>) -> (text: (char, char))
        ensures
            text == crate::view::cell::cell_text(value),
    {
        render_cell(value)
    }

    pub fn apply_delta(value: Option<u8>, delta: isize) -> (r: Option<u8>)
        ensures
            r == cell_after(value, delta as int),
    {
        apply_delta(value, delta)
    }

    /// Changes the selected cell as the arrows say, and returns what is to
    /// be asked of the keeper of the song.
    pub fn change_selection(&mut self, input: &Input) -> (request: Option<Action>)
        requires
            old(self).wf(),
        ensures
            final(self)@ == old(self)@.changed(*input),
            final(self).wf(),
            request == old(self)@.request(*input),
    {
        let ghost before = self@;
        match delta_for(input) {
            None => None,
            Some(d) => {
                let row: usize = self.selected_row;
                let col: usize = self.selected_col;
                assert(before.values[row as int].len() == COLS);
                let new_value: Option<u8> = Self::apply_delta(self.values[row][col], d);
                let cells = &mut self.values[row];
                cells[col] = new_value;
                proof {
                    assert(self@.values =~= before.changed(*input).values);
                    assert forall|i: int| 0 <= i < ROWS implies (#[trigger] self@.values[i]).len()
                        == COLS by {
                        assert(before.values[i].len() == COLS);
                    }
                }
                Some(
                    Action::SetPatternValue {
                        pattern_id: row as u8,
                        track_id: col as u8,
                        chain_id: new_value,
                    },
                )
            },
        }
    }

    /// Handles the keys of one frame, and returns what is to be asked of
    /// the keeper of the song.
    pub fn handle_event(&mut self, input: &Input) -> (request: Option<Action>)
        requires
            old(self).wf(),
        ensures
            final(self)@ == old(self)@.handled(*input),
            final(self).wf(),
            request == (if input.shift {
                old(self)@.request(*input)
            } else {
                None
            }),
    {
        if input.shift {
            self.change_selection(input)
        } else {
            self.move_selection(input);
            None
        }
    }
}

} // verus!
