use mato::{Bounds, Direction, GameState, Input, Segment, StepResult};

const BOARD: Bounds = Bounds { width: 20, height: 20 };

fn cells(points: &[(i32, i32)]) -> Vec<Segment> {
    points.iter().map(|&(x, y)| Segment::new(x, y)).collect()
}

fn worm(points: &[(i32, i32)], heading: Direction) -> GameState {
    match GameState::with_segments(cells(points), heading) {
        Some(state) => state,
        None => panic!("a worm needs at least one cell"),
    }
}

#[test]
fn new_state_is_two_cells_heading_up() {
    let state = GameState::new();
    assert_eq!(state.segments(), &cells(&[(10, 10), (10, 11)]));
    assert_eq!(state.len(), 2);
    assert_eq!(state.head(), Segment::new(10, 10));
    assert_eq!(state.heading(), Direction::Up);
    assert_eq!(state.ticks(), 0);
    assert!(!state.grow());
    assert!(!state.has_collided());
}

#[test]
fn with_segments_refuses_an_empty_worm() {
    assert!(GameState::with_segments(Vec::new(), Direction::Left).is_none());
}

#[test]
fn with_segments_keeps_cells_and_heading() {
    let state = worm(&[(1, 2), (3, 4), (5, 6)], Direction::Left);
    assert_eq!(state.segments(), &cells(&[(1, 2), (3, 4), (5, 6)]));
    assert_eq!(state.heading(), Direction::Left);
    assert_eq!(state.head(), Segment::new(1, 2));
    assert_eq!(state.ticks(), 0);
    assert!(!state.grow());
}

#[test]
fn first_tick_moves_without_growth() {
    let mut state = GameState::new();
    let result = state.advance(None, true, BOARD);
    assert_eq!(result, StepResult::Moved);
    assert_eq!(state.segments(), &cells(&[(10, 11), (10, 10)]));
    assert_eq!(state.ticks(), 1);
    assert!(!state.grow());
}

#[test]
fn second_tick_grows_by_one() {
    let mut state = GameState::new();
    state.advance(None, true, BOARD);
    let result = state.advance(None, true, BOARD);
    assert_eq!(result, StepResult::Moved);
    assert_eq!(state.segments(), &cells(&[(10, 12), (10, 11), (10, 10)]));
    assert_eq!(state.len(), 3);
    assert_eq!(state.ticks(), 2);
    assert!(state.grow());
}

#[test]
fn growth_follows_the_parity_of_the_tick_count() {
    let mut state = GameState::new();
    for tick in 1..=12u64 {
        let before = state.len();
        let result = state.advance(None, true, Bounds { width: 200, height: 200 });
        assert_eq!(result, StepResult::Moved);
        assert_eq!(state.ticks(), tick);
        assert_eq!(state.grow(), tick % 2 == 0);
        let grown = if state.grow() { 1 } else { 0 };
        assert_eq!(state.len(), before + grown);
    }
    assert_eq!(state.len(), 8);
    assert_eq!(state.head(), Segment::new(10, 22));
}

#[test]
fn key_press_moves_without_counting() {
    let mut state = GameState::new();
    let result = state.advance(Some(Input::Steer(Direction::Right)), false, BOARD);
    assert_eq!(result, StepResult::Moved);
    assert_eq!(state.heading(), Direction::Right);
    assert_eq!(state.segments(), &cells(&[(11, 10), (10, 10)]));
    assert_eq!(state.ticks(), 0);
    assert!(!state.grow());
}

#[test]
fn key_press_after_an_even_tick_still_grows() {
    let mut state = GameState::new();
    state.advance(None, true, BOARD);
    state.advance(None, true, BOARD);
    let result = state.advance(Some(Input::Steer(Direction::Left)), false, BOARD);
    assert_eq!(result, StepResult::Moved);
    assert_eq!(state.segments(), &cells(&[(9, 12), (10, 12), (10, 11), (10, 10)]));
    assert_eq!(state.ticks(), 2);
    assert!(state.grow());
}

#[test]
fn step_without_input_or_tick_crawls_on() {
    let mut state = GameState::new();
    let result = state.advance(None, false, BOARD);
    assert_eq!(result, StepResult::Moved);
    assert_eq!(state.segments(), &cells(&[(10, 11), (10, 10)]));
    assert_eq!(state.heading(), Direction::Up);
    assert_eq!(state.ticks(), 0);
    assert!(!state.grow());
}

#[test]
fn steering_and_ticking_in_one_step() {
    let mut state = GameState::new();
    state.advance(None, true, BOARD);
    let result = state.advance(Some(Input::Steer(Direction::Right)), true, BOARD);
    assert_eq!(result, StepResult::Moved);
    assert_eq!(state.segments(), &cells(&[(11, 11), (10, 11), (10, 10)]));
    assert_eq!(state.ticks(), 2);
    assert!(state.grow());
}

#[test]
fn heading_persists_until_changed() {
    let mut state = GameState::new();
    state.advance(Some(Input::Steer(Direction::Left)), false, BOARD);
    state.advance(None, true, BOARD);
    state.advance(None, true, BOARD);
    assert_eq!(state.heading(), Direction::Left);
    assert_eq!(state.segments(), &cells(&[(7, 10), (8, 10), (9, 10)]));
}

#[test]
fn quit_leaves_the_state_untouched() {
    let mut state = worm(&[(4, 4), (4, 5), (4, 6)], Direction::Down);
    state.advance(None, true, BOARD);
    state.advance(None, true, BOARD);
    let cells_before = state.segments().clone();
    for did_tick in [false, true] {
        let result = state.advance(Some(Input::Quit), did_tick, BOARD);
        assert_eq!(result, StepResult::Quit);
        assert_eq!(state.segments(), &cells_before);
        assert_eq!(state.heading(), Direction::Down);
        assert_eq!(state.ticks(), 2);
        assert!(state.grow());
    }
}

#[test]
fn advance_wraps_the_head_at_every_edge() {
    let mut state = worm(&[(19, 7), (18, 7)], Direction::Right);
    assert_eq!(state.advance(None, true, BOARD), StepResult::Moved);
    assert_eq!(state.segments(), &cells(&[(0, 7), (19, 7)]));

    let mut state = worm(&[(0, 7), (1, 7)], Direction::Left);
    assert_eq!(state.advance(None, true, BOARD), StepResult::Moved);
    assert_eq!(state.segments(), &cells(&[(19, 7), (0, 7)]));

    let mut state = worm(&[(7, 19), (7, 18)], Direction::Up);
    assert_eq!(state.advance(None, true, BOARD), StepResult::Moved);
    assert_eq!(state.segments(), &cells(&[(7, 0), (7, 19)]));

    let mut state = worm(&[(7, 0), (7, 1)], Direction::Down);
    assert_eq!(state.advance(None, true, BOARD), StepResult::Moved);
    assert_eq!(state.segments(), &cells(&[(7, 19), (7, 0)]));
}

#[test]
fn resizing_moves_the_wrap_boundary_at_once() {
    let mut state = worm(&[(15, 5), (14, 5)], Direction::Right);
    state.advance(None, true, BOARD);
    assert_eq!(state.head(), Segment::new(16, 5));
    // The terminal shrinks to ten columns: the head is beyond the edge and
    // its next step to the right brings it to column 0.
    let narrow = Bounds { width: 10, height: 20 };
    state.advance(None, false, narrow);
    assert_eq!(state.segments(), &cells(&[(0, 5), (16, 5)]));
}

#[test]
fn head_on_a_kept_cell_is_a_collision() {
    // The head at (5, 5) turns right onto (6, 5), the fourth of five cells.
    let mut state = worm(&[(5, 5), (5, 6), (6, 6), (6, 5), (6, 4)], Direction::Up);
    let result = state.advance(Some(Input::Steer(Direction::Right)), false, BOARD);
    assert_eq!(result, StepResult::Collided);
    assert_eq!(state.segments(), &cells(&[(6, 5), (5, 5), (5, 6), (6, 6), (6, 5)]));
    assert!(state.has_collided());
}

#[test]
fn head_on_the_leaving_tail_is_no_collision() {
    // The same turn, but (6, 5) is the tail and leaves in this step.
    let mut state = worm(&[(5, 5), (5, 6), (6, 6), (6, 5)], Direction::Up);
    let result = state.advance(Some(Input::Steer(Direction::Right)), false, BOARD);
    assert_eq!(result, StepResult::Moved);
    assert_eq!(state.segments(), &cells(&[(6, 5), (5, 5), (5, 6), (6, 6)]));
    assert!(!state.has_collided());
}

#[test]
fn head_on_the_staying_tail_is_a_collision() {
    // While the worm grows the tail stays, and stepping onto it ends the game.
    let mut state = worm(&[(5, 3), (5, 4), (6, 4), (6, 5)], Direction::Down);
    state.advance(None, true, BOARD);
    assert_eq!(state.segments(), &cells(&[(5, 2), (5, 3), (5, 4), (6, 4)]));
    state.advance(Some(Input::Steer(Direction::Right)), true, BOARD);
    assert_eq!(state.segments(), &cells(&[(6, 2), (5, 2), (5, 3), (5, 4), (6, 4)]));
    assert!(state.grow());
    state.advance(Some(Input::Steer(Direction::Up)), false, BOARD);
    let result = state.advance(None, false, BOARD);
    assert_eq!(result, StepResult::Collided);
    assert_eq!(
        state.segments(),
        &cells(&[(6, 4), (6, 3), (6, 2), (5, 2), (5, 3), (5, 4), (6, 4)])
    );
}

#[test]
fn collision_is_found_at_any_place_of_the_body() {
    assert!(worm(&[(1, 1), (1, 1)], Direction::Up).has_collided());
    assert!(worm(&[(1, 1), (2, 1), (1, 1)], Direction::Up).has_collided());
    assert!(worm(&[(1, 1), (2, 1), (3, 1), (4, 1), (1, 1)], Direction::Up).has_collided());
    assert!(worm(&[(1, 1), (2, 1), (1, 1), (4, 1), (5, 1)], Direction::Up).has_collided());
}

#[test]
fn repeated_body_cells_are_no_collision() {
    assert!(!worm(&[(1, 1)], Direction::Up).has_collided());
    assert!(!worm(&[(1, 1), (2, 1), (2, 1)], Direction::Up).has_collided());
    assert!(!worm(&[(1, 1), (1, 2), (2, 1)], Direction::Up).has_collided());
}

#[test]
fn two_cell_worm_survives_a_reversal() {
    let mut state = GameState::new();
    state.advance(None, true, BOARD);
    assert_eq!(state.segments(), &cells(&[(10, 11), (10, 10)]));
    let result = state.advance(Some(Input::Steer(Direction::Down)), false, BOARD);
    assert_eq!(result, StepResult::Moved);
    assert_eq!(state.segments(), &cells(&[(10, 10), (10, 11)]));
    assert_eq!(state.heading(), Direction::Down);
}

#[test]
fn two_cell_worm_survives_a_reversal_in_every_heading() {
    let cases = [
        (Direction::Up, Direction::Down, (4, 5), (4, 4), (4, 4)),
        (Direction::Down, Direction::Up, (4, 4), (4, 5), (4, 5)),
        (Direction::Left, Direction::Right, (4, 4), (5, 4), (5, 4)),
        (Direction::Right, Direction::Left, (5, 4), (4, 4), (4, 4)),
    ];
    for (heading, back, head, tail, expected) in cases {
        let mut state = worm(&[head, tail], heading);
        let result = state.advance(Some(Input::Steer(back)), false, BOARD);
        assert_eq!(result, StepResult::Moved);
        assert_eq!(state.segments(), &cells(&[expected, head]));
    }
}

#[test]
fn two_cell_worm_overlaps_only_where_a_step_stays_put() {
    let one = Bounds { width: 1, height: 1 };
    let mut state = worm(&[(0, 0), (0, 1)], Direction::Down);
    let result = state.advance(Some(Input::Steer(Direction::Up)), false, one);
    assert_eq!(result, StepResult::Collided);
    assert_eq!(state.segments(), &cells(&[(0, 0), (0, 0)]));
}

#[test]
fn three_cell_worm_dies_of_a_reversal() {
    let mut state = GameState::new();
    state.advance(None, true, BOARD);
    state.advance(None, true, BOARD);
    let result = state.advance(Some(Input::Steer(Direction::Down)), false, BOARD);
    assert_eq!(result, StepResult::Collided);
    assert_eq!(state.segments(), &cells(&[(10, 11), (10, 12), (10, 11), (10, 10)]));
}

#[test]
fn single_cell_worm_moves_and_grows() {
    let mut state = worm(&[(0, 0)], Direction::Right);
    assert_eq!(state.advance(None, true, BOARD), StepResult::Moved);
    assert_eq!(state.segments(), &cells(&[(1, 0)]));
    assert_eq!(state.advance(None, true, BOARD), StepResult::Moved);
    assert_eq!(state.segments(), &cells(&[(2, 0), (1, 0)]));
}

#[test]
fn step_result_says_whether_the_game_ends() {
    assert!(!StepResult::Moved.ends_game());
    assert!(StepResult::Collided.ends_game());
    assert!(StepResult::Quit.ends_game());
}

#[test]
fn cloned_state_goes_its_own_way() {
    let mut state = GameState::new();
    let copy = state.clone();
    state.advance(None, true, BOARD);
    assert_eq!(copy.segments(), &cells(&[(10, 10), (10, 11)]));
    assert_eq!(copy.ticks(), 0);
    assert_eq!(state.ticks(), 1);
}

#[test]
fn cloned_state_is_equal_in_every_part() {
    let mut state = GameState::new();
    state.advance(Some(Input::Steer(Direction::Left)), true, BOARD);
    state.advance(None, true, BOARD);
    let copy = state.clone();
    assert_eq!(copy.segments(), state.segments());
    assert_eq!(copy.segments(), &cells(&[(8, 10), (9, 10), (10, 10)]));
    assert_eq!(copy.heading(), Direction::Left);
    assert_eq!(copy.ticks(), 2);
    assert!(copy.grow());
}

#[test]
fn default_state_is_the_new_state() {
    let state = GameState::default();
    assert_eq!(state.segments(), &cells(&[(10, 10), (10, 11)]));
    assert_eq!(state.heading(), Direction::Up);
    assert_eq!(state.ticks(), 0);
    assert!(!state.grow());
}

#[test]
fn two_ticks_in_a_row_add_one_cell() {
    let mut state = worm(&[(3, 3), (3, 4), (3, 5)], Direction::Down);
    for round in 0..5usize {
        assert_eq!(state.len(), 3 + round);
        state.advance(Some(Input::Steer(Direction::Right)), true, BOARD);
        let grew_first = state.grow();
        state.advance(Some(Input::Steer(Direction::Down)), true, BOARD);
        assert_ne!(grew_first, state.grow());
        assert_eq!(state.len(), 4 + round);
    }
}

#[test]
fn worm_stays_inside_a_steady_viewport() {
    let small = Bounds { width: 12, height: 13 };
    let mut state = GameState::new();
    let turns = [Direction::Up, Direction::Right, Direction::Right, Direction::Down, Direction::Left];
    for round in 0..60usize {
        let input = if round % 3 == 0 { Some(Input::Steer(turns[round % 5])) } else { None };
        state.advance(input, round % 2 == 0, small);
        for cell in state.segments().iter() {
            assert!(0 <= cell.x && cell.x < 12);
            assert!(0 <= cell.y && cell.y < 13);
        }
    }
    assert_eq!(state.ticks(), 30);
}
