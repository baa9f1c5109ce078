//! Keys, and the cells that they edit.

use vstd::prelude::*;

verus! {

/// The largest value of a cell.
pub const MAX_CELL_VALUE: usize = 0xFF;

/// What the left and right arrows add to and take from a cell.
pub const BIG_CELL_INCREMENT: isize = 0x10;

/// The keys that the views listen to, each pressed or not.
#[derive(Clone, Copy, Debug, PartialEq, Eq, Structural)]
pub struct Input {
    pub up: bool,
    pub down: bool,
    pub left: bool,
    pub right: bool,
    pub shift: bool,
    pub enter: bool,
}

/// A cell after `delta` has been added to it. A cell that would fall below
/// zero becomes empty, and one that would rise above the largest value is
/// held there. An empty cell wakes at zero on a step of one, at the step
/// itself on a larger one, and not at all on a step down.
pub open spec fn cell_after(value: Option<u8>, delta: int) -> Option<u8> {
    match value {
        Some(v) => {
            if v + delta < 0 {
                None
            } else if v + delta > MAX_CELL_VALUE {
                Some(MAX_CELL_VALUE as u8)
            } else {
                Some((v + delta) as u8)
            }
        },
        None => {
            if delta == 1 {
                Some(0u8)
            } else if delta > MAX_CELL_VALUE {
                Some(MAX_CELL_VALUE as u8)
            } else if delta > 0 {
                Some(delta as u8)
            } else {
                None
            }
        },
    }
}

/// By how much the keys change the selected cell: up by one, down by one,
/// right and left by the big increment; the first of these that is pressed
/// counts.
pub open spec fn delta_of(input: Input) -> Option<int> {
    if input.up {
        Some(1)
    } else if input.down {
        Some(-1)
    } else if input.right {
        Some(BIG_CELL_INCREMENT as int)
    } else if input.left {
        Some(-BIG_CELL_INCREMENT as int)
    } else {
        None
    }
}

/// The digit, in capitals, of a number below sixteen.
pub open spec fn hex_digit(d: int) -> char {
    if d == 0 {
        '0'
    } else if d == 1 {
        '1'
    } else if d == 2 {
        '2'
    } else if d == 3 {
        '3'
    } else if d == 4 {
        '4'
    } else if d == 5 {
        '5'
    } else if d == 6 {
        '6'
    } else if d == 7 {
        '7'
    } else if d == 8 {
        '8'
    } else if d == 9 {
        '9'
    } else if d == 10 {
        'A'
    } else if d == 11 {
        'B'
    } else if d == 12 {
        'C'
    } else if d == 13 {
        'D'
    } else if d == 14 {
        'E'
    } else {
        'F'
    }
}

/// The two characters that show a cell: two dashes for an empty one, else
/// its value in two hexadecimal digits.
pub open spec fn cell_text(value: Option<u8>) -> (char, char) {
    match value {
        None => ('-', '-'),
        Some(v) => (hex_digit(v as int / 16), hex_digit(v as int % 16)),
    }
}

pub fn apply_delta(value: Option<u8>, delta: isize) -> (r: Option<u8>)
    ensures
        r == cell_after(value, delta as int),
{
    match value {
        Some(v) => {
            let now: isize = v as isize;
            if delta < -now {
                None
            } else if delta > MAX_CELL_VALUE as isize - now {
                Some(MAX_CELL_VALUE as u8)
            } else {
                Some((now + delta) as u8)
            }
        },
        None => {
            if delta == 1 {
                Some(0)
            } else if delta > MAX_CELL_VALUE as isize {
                Some(MAX_CELL_VALUE as u8)
            } else if delta > 0 {
                Some(delta as u8)
            } else {
                None
            }
        },
    }
}

pub fn delta_for(input: &Input) -> (r: Option<isize>)
    ensures
        match r {
            Some(d) => delta_of(*input) == Some(d as int),
            None => delta_of(*input) is None,
        },
{
    if input.up {
        Some(1)
    } else if input.down {
        Some(-1)
    } else if input.right {
        Some(BIG_CELL_INCREMENT)
    } else if input.left {
        Some(-BIG_CELL_INCREMENT)
    } else {
        None
    }
}

fn digit(d: u8) -> (c: char)
    requires
        d < 16,
    ensures
        c == hex_digit(d as int),
{
    if d == 0 {
        '0'
    } else if d == 1 {
        '1'
    } else if d == 2 {
        '2'
    } else if d == 3 {
        '3'
    } else if d == 4 {
        '4'
    } else if d == 5 {
        '5'
    } else if d == 6 {
        '6'
    } else if d == 7 {
        '7'
    } else if d == 8 {
        '8'
    } else if d == 9 {
        '9'
    } else if d == 10 {
        'A'
    } else if d == 11 {
        'B'
    } else if d == 12 {
        'C'
    } else if d == 13 {
        'D'
    } else if d == 14 {
        'E'
    } else {
        'F'
    }
}

pub fn render_cell(value: Option<u8>) -> (text: (char, char))
    ensures
        text == cell_text(value),
{
    match value {
        None => ('-', '-'),
        Some(v) => (digit(v / 16), digit(v % 16)),
    }
}

} // verus!
