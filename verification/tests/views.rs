use cavetracker::messaging::Action;
use cavetracker::types::Step;
use cavetracker::view::app::{next_mode, on_enter, Switch, ViewMode};
use cavetracker::view::cell::{apply_delta, delta_for, render_cell, Input};
use cavetracker::view::chain::Chain;
use cavetracker::view::phrase::Phrase;
use cavetracker::view::song::Song;

fn keys() -> Input {
    Input {
        up: false,
        down: false,
        left: false,
        right: false,
        shift: false,
        enter: false,
    }
}

fn down() -> Input {
    Input { down: true, ..keys() }
}

fn up() -> Input {
    Input { up: true, ..keys() }
}

fn right() -> Input {
    Input { right: true, ..keys() }
}

fn left() -> Input {
    Input { left: true, ..keys() }
}

fn shifted(input: Input) -> Input {
    Input { shift: true, ..input }
}

#[test]
fn cells_step_and_saturate() {
    assert_eq!(apply_delta(Some(5), 1), Some(6));
    assert_eq!(apply_delta(Some(5), -1), Some(4));
    assert_eq!(apply_delta(Some(0), -1), None);
    assert_eq!(apply_delta(Some(5), -16), None);
    assert_eq!(apply_delta(Some(16), -16), Some(0));
    assert_eq!(apply_delta(Some(250), 16), Some(255));
    assert_eq!(apply_delta(Some(255), 1), Some(255));
    assert_eq!(apply_delta(None, 1), Some(0));
    assert_eq!(apply_delta(None, 16), Some(16));
    assert_eq!(apply_delta(None, 300), Some(255));
    assert_eq!(apply_delta(None, -1), None);
    assert_eq!(apply_delta(None, 0), None);
    assert_eq!(apply_delta(Some(7), 0), Some(7));
    assert_eq!(apply_delta(Some(200), isize::MAX), Some(255));
    assert_eq!(apply_delta(Some(200), isize::MIN), None);
    assert_eq!(Song::apply_delta(Some(5), 16), Some(21));
    assert_eq!(Chain::apply_delta(None, 16), Some(16));
}

#[test]
fn keys_give_a_delta_by_priority() {
    assert_eq!(delta_for(&keys()), None);
    assert_eq!(delta_for(&up()), Some(1));
    assert_eq!(delta_for(&down()), Some(-1));
    assert_eq!(delta_for(&right()), Some(16));
    assert_eq!(delta_for(&left()), Some(-16));
    assert_eq!(delta_for(&Input { down: true, ..up() }), Some(1));
    assert_eq!(delta_for(&Input { left: true, ..right() }), Some(16));
    assert_eq!(delta_for(&Input { right: true, ..down() }), Some(-1));
}

#[test]
fn cells_show_as_two_characters() {
    assert_eq!(render_cell(None), ('-', '-'));
    assert_eq!(render_cell(Some(0)), ('0', '0'));
    assert_eq!(render_cell(Some(9)), ('0', '9'));
    assert_eq!(render_cell(Some(10)), ('0', 'A'));
    assert_eq!(render_cell(Some(0x1F)), ('1', 'F'));
    assert_eq!(render_cell(Some(0xC4)), ('C', '4'));
    assert_eq!(render_cell(Some(255)), ('F', 'F'));
    for v in 0..=255u8 {
        let (high, low) = render_cell(Some(v));
        assert_eq!(format!("{}{}", high, low), format!("{:02X}", v));
    }
}

#[test]
fn song_selection_moves_and_the_window_follows() {
    let mut view = Song::new();
    assert_eq!(view.get_selection(), None);
    assert_eq!((view.selected_row(), view.selected_col()), (0, 0));
    assert_eq!((view.min_row(), view.max_row()), (0, 16));
    assert_eq!(view.handle_event(&up()), None);
    assert_eq!(view.handle_event(&left()), None);
    assert_eq!((view.selected_row(), view.selected_col()), (0, 0));
    for _ in 0..15 {
        view.handle_event(&down());
    }
    assert_eq!((view.selected_row(), view.min_row()), (15, 0));
    view.handle_event(&down());
    assert_eq!((view.selected_row(), view.min_row()), (16, 1));
    assert_eq!(view.max_row(), 17);
    view.handle_event(&up());
    assert_eq!((view.selected_row(), view.min_row()), (15, 1));
    for _ in 0..14 {
        view.handle_event(&up());
    }
    assert_eq!((view.selected_row(), view.min_row()), (1, 1));
    view.handle_event(&up());
    assert_eq!((view.selected_row(), view.min_row()), (0, 0));
    for _ in 0..300 {
        view.handle_event(&down());
    }
    assert_eq!((view.selected_row(), view.min_row()), (255, 240));
    assert_eq!(view.max_row(), 256);
    for _ in 0..10 {
        view.handle_event(&right());
    }
    assert_eq!(view.selected_col(), 7);
    view.handle_event(&left());
    assert_eq!(view.selected_col(), 6);
    view.move_selection(&Input { up: true, ..down() });
    assert_eq!(view.selected_row(), 254);
    view.move_selection(&Input { left: true, ..right() });
    assert_eq!(view.selected_col(), 6);
}

#[test]
fn song_cells_change_and_ask_for_the_change() {
    let mut view = Song::new();
    view.handle_event(&down());
    view.handle_event(&right());
    view.handle_event(&right());
    let asked = view.handle_event(&shifted(up()));
    assert!(matches!(
        asked,
        Some(Action::SetPatternValue {
            pattern_id: 1,
            track_id: 2,
            chain_id: Some(0)
        })
    ));
    assert_eq!(view.get_selection(), Some(0));
    assert_eq!(view.value_at(1, 2), Some(0));
    assert_eq!(view.value_at(1, 1), None);
    let asked = view.handle_event(&shifted(right()));
    assert!(matches!(
        asked,
        Some(Action::SetPatternValue {
            pattern_id: 1,
            track_id: 2,
            chain_id: Some(16)
        })
    ));
    let asked = view.change_selection(&left());
    assert!(matches!(
        asked,
        Some(Action::SetPatternValue {
            pattern_id: 1,
            track_id: 2,
            chain_id: Some(0)
        })
    ));
    let asked = view.change_selection(&down());
    assert!(matches!(
        asked,
        Some(Action::SetPatternValue {
            pattern_id: 1,
            track_id: 2,
            chain_id: None
        })
    ));
    assert_eq!(view.get_selection(), None);
    assert!(view.handle_event(&shifted(keys())).is_none());
    assert_eq!((view.selected_row(), view.selected_col()), (1, 2));
    assert_eq!(view.render_cell(Some(0xAB)), ('A', 'B'));
}

#[test]
fn chain_view_edits_its_phrases() {
    let mut view = Chain::new(9, vec![None, Some(3), None, None]);
    assert_eq!(view.chain_id(), 9);
    assert_eq!(view.get_selection(), None);
    view.handle_event(&down());
    assert_eq!(view.selected_row(), 1);
    assert_eq!(view.get_selection(), Some(3));
    let asked = view.handle_event(&shifted(right()));
    assert!(matches!(
        asked,
        Some(Action::SetChainPhrase {
            chain_id: 9,
            index: 1,
            phrase_id: Some(19)
        })
    ));
    assert_eq!(view.value_at(1), Some(19));
    for _ in 0..5 {
        view.handle_event(&down());
    }
    assert_eq!(view.selected_row(), 3);
    view.handle_event(&right());
    view.handle_event(&left());
    assert_eq!(view.selected_row(), 3);
    for _ in 0..5 {
        view.handle_event(&up());
    }
    assert_eq!(view.selected_row(), 0);
    assert!(view.change_selection(&keys()).is_none());
    assert_eq!(view.render_cell(None), ('-', '-'));
}

#[test]
fn phrase_view_edits_its_steps() {
    let mut steps = vec![None; 16];
    steps[2] = Some(Step::new(60, 4));
    let mut view = Phrase::new(5, steps);
    assert_eq!(view.phrase_id(), 5);
    assert_eq!(view.get_selection(), Some(0));
    view.handle_event(&down());
    view.handle_event(&down());
    assert_eq!(view.get_selection(), Some(2));
    let asked = view.handle_event(&shifted(up()));
    match asked {
        Some(Action::SetPhraseStep {
            phrase_id,
            index,
            step,
        }) => {
            assert_eq!((phrase_id, index), (5, 2));
            assert!(step == Some(Step::new(61, 0)));
        }
        other => panic!("unexpected request {:?}", other),
    }
    assert!(view.value_at(2) == Some(Step::new(61, 0)));
    assert_eq!(view.render_cell(view.value_at(2)), ('3', 'D'));
    assert_eq!(view.render_cell(None), ('-', '-'));
    assert!(Phrase::apply_delta(None, 1) == Some(Step::new(0, 0)));
    assert!(Phrase::apply_delta(None, 16) == Some(Step::new(16, 0)));
    assert!(Phrase::apply_delta(None, -1).is_none());
    assert!(Phrase::apply_delta(Some(Step::new(3, 9)), -16).is_none());
    assert!(Phrase::apply_delta(Some(Step::new(250, 9)), 16) == Some(Step::new(255, 0)));
    for _ in 0..20 {
        view.handle_event(&down());
    }
    assert_eq!(view.selected_row(), 15);
    assert_eq!(view.get_selection(), Some(15));
    view.move_selection(&up());
    assert_eq!(view.selected_row(), 14);
    assert!(view.change_selection(&keys()).is_none());
}

#[test]
fn enter_goes_from_view_to_view() {
    assert_eq!(on_enter(ViewMode::Song, Some(4)), Switch::OpenChain(4));
    assert_eq!(on_enter(ViewMode::Song, None), Switch::Stay);
    assert_eq!(on_enter(ViewMode::Chain, Some(7)), Switch::OpenPhrase(7));
    assert_eq!(on_enter(ViewMode::Chain, None), Switch::Stay);
    assert_eq!(on_enter(ViewMode::Phrase, Some(1)), Switch::BackToSong);
    assert_eq!(on_enter(ViewMode::Phrase, None), Switch::BackToSong);
    assert_eq!(next_mode(ViewMode::Song, Switch::OpenChain(4)), ViewMode::Chain);
    assert_eq!(next_mode(ViewMode::Chain, Switch::OpenPhrase(4)), ViewMode::Phrase);
    assert_eq!(next_mode(ViewMode::Phrase, Switch::BackToSong), ViewMode::Song);
    assert_eq!(next_mode(ViewMode::Chain, Switch::Stay), ViewMode::Chain);
}
