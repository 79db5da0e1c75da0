use snake::canvas::Canvas;
use snake::game_state::{Coord, Direction, GameState, InputEvent, InputKey};

fn press(key: InputKey) -> InputEvent {
    InputEvent { key, is_press: true }
}

fn c(x: i16, y: i16) -> Coord {
    Coord { x, y }
}

fn is_interior(g: &GameState, p: Coord) -> bool {
    let (w, h) = g.dimensions();
    1 <= p.x && p.x <= w - 2 && 1 <= p.y && p.y <= h - 2
}

/// Steers towards the food one tick at a time until it is eaten; returns the tick count.
fn eat_once(g: &mut GameState, now: &mut u64) -> usize {
    for n in 1..400 {
        let food = g.food();
        let head = g.snake()[0];
        let dir = g.direction();
        if head.x != food.x {
            if dir == Direction::Up || dir == Direction::Down {
                g.handle_input(press(InputKey::Right));
            }
        } else if dir == Direction::Left || dir == Direction::Right {
            g.handle_input(press(InputKey::Down));
        }
        let before = g.snake().len();
        *now += g.tick_delay_ms();
        g.tick_at(*now);
        assert!(!g.is_game_over());
        if g.snake().len() == before + 1 {
            return n;
        }
        assert_eq!(g.snake().len(), before);
    }
    panic!("food never reached");
}

#[test]
fn new_game_layout() {
    let g = GameState::new(10, 10, 15);
    assert_eq!(g.snake(), vec![c(2, 5), c(1, 5), c(0, 5)]);
    assert_eq!(g.direction(), Direction::Right);
    assert!(g.pending_turns().is_empty());
    assert!(!g.is_game_over());
    assert_eq!(g.tick_delay_ms(), 66);
    assert_eq!(g.dimensions(), (10, 10));
    assert!(is_interior(&g, g.food()));
    assert!(!g.snake().contains(&g.food()));
}

#[test]
fn tick_moves_right_and_pops_tail() {
    let mut g = GameState::new(10, 10, 15);
    let food = g.food();
    g.tick_at(1000);
    let body = g.snake();
    assert_eq!(body[0], c(3, 5));
    assert!(!g.is_game_over());
    if food == c(3, 5) {
        assert_eq!(body, vec![c(3, 5), c(2, 5), c(1, 5), c(0, 5)]);
    } else {
        assert_eq!(body, vec![c(3, 5), c(2, 5), c(1, 5)]);
        assert_eq!(g.food(), food);
    }
}

#[test]
fn one_queued_turn_per_tick() {
    let mut g = GameState::new(10, 10, 15);
    g.handle_input(press(InputKey::Up));
    g.handle_input(press(InputKey::Left));
    assert_eq!(g.pending_turns(), vec![Direction::Up, Direction::Left]);
    g.tick_at(1000);
    assert_eq!(g.direction(), Direction::Up);
    assert_eq!(g.pending_turns(), vec![Direction::Left]);
    assert_eq!(g.snake()[0], c(2, 4));
    g.tick_at(2000);
    assert_eq!(g.direction(), Direction::Left);
    assert!(g.pending_turns().is_empty());
    assert_eq!(g.snake()[0], c(1, 4));
}

#[test]
fn reversal_and_repeat_rejected() {
    let mut g = GameState::new(10, 10, 15);
    g.handle_input(press(InputKey::Left));
    g.handle_input(press(InputKey::Right));
    assert!(g.pending_turns().is_empty());
    g.handle_input(press(InputKey::Up));
    // checked against the queued Up, not the active Right
    g.handle_input(press(InputKey::Down));
    g.handle_input(press(InputKey::Up));
    assert_eq!(g.pending_turns(), vec![Direction::Up]);
    g.handle_input(press(InputKey::Right));
    assert_eq!(g.pending_turns(), vec![Direction::Up, Direction::Right]);
}

#[test]
fn releases_and_other_keys_ignored() {
    let mut g = GameState::new(10, 10, 15);
    g.handle_input(InputEvent { key: InputKey::Up, is_press: false });
    g.handle_input(press(InputKey::Other));
    assert!(g.pending_turns().is_empty());
}

#[test]
fn tick_gated_by_delay() {
    let mut g = GameState::new(20, 20, 10);
    assert_eq!(g.tick_delay_ms(), 100);
    g.tick_at(99);
    assert_eq!(g.snake()[0], c(5, 10));
    g.tick_at(100);
    assert_eq!(g.snake()[0], c(6, 10));
    g.tick_at(150);
    g.tick_at(199);
    assert_eq!(g.snake()[0], c(6, 10));
    // a late tick still takes one step only
    g.tick_at(5000);
    assert_eq!(g.snake()[0], c(7, 10));
}

#[test]
fn set_tps_changes_interval() {
    let mut g = GameState::new(20, 20, 10);
    g.set_tps(20);
    assert_eq!(g.tick_delay_ms(), 50);
    g.set_tps(3);
    assert_eq!(g.tick_delay_ms(), 333);
    assert_eq!(g.snake()[0], c(5, 10));
}

#[test]
fn head_wraps_inside_border() {
    let mut g = GameState::new(10, 10, 15);
    let mut now: u64 = 0;
    let mut xs = Vec::new();
    for _ in 0..8 {
        now += 1000;
        g.tick_at(now);
        let head = g.snake()[0];
        assert!(is_interior(&g, head));
        xs.push(head.x);
    }
    assert_eq!(xs, vec![3, 4, 5, 6, 7, 8, 1, 2]);
}

#[test]
fn wrap_each_side() {
    let g = GameState::new(10, 12, 15);
    assert_eq!(g.warp(c(0, 5)), c(8, 5));
    assert_eq!(g.warp(c(9, 5)), c(1, 5));
    assert_eq!(g.warp(c(4, 0)), c(4, 10));
    assert_eq!(g.warp(c(4, 11)), c(4, 1));
    assert_eq!(g.warp(c(4, 6)), c(4, 6));
}

#[test]
fn eating_grows_and_moves_food() {
    let mut g = GameState::new(20, 20, 15);
    let mut now: u64 = 0;
    let old_food = g.food();
    eat_once(&mut g, &mut now);
    let body = g.snake();
    assert_eq!(body.len(), 4);
    assert_eq!(body[0], old_food);
    assert!(is_interior(&g, g.food()));
    assert!(!body.contains(&g.food()));
}

#[test]
fn game_over_latches() {
    let mut g = GameState::new(20, 20, 15);
    let mut now: u64 = 0;
    eat_once(&mut g, &mut now);
    eat_once(&mut g, &mut now);
    assert_eq!(g.snake().len(), 5);
    for _ in 0..6 {
        now += 1000;
        g.tick_at(now);
    }
    assert!(!g.is_game_over());
    let d = g.direction();
    let (side, back, other) = match d {
        Direction::Up | Direction::Down => (InputKey::Left, if d == Direction::Up { InputKey::Down } else { InputKey::Up }, InputKey::Right),
        Direction::Left | Direction::Right => (InputKey::Up, if d == Direction::Left { InputKey::Right } else { InputKey::Left }, InputKey::Down),
    };
    let before = g.snake();
    g.handle_input(press(side));
    g.handle_input(press(back));
    g.handle_input(press(other));
    for _ in 0..3 {
        now += 1000;
        g.tick_at(now);
    }
    assert!(g.is_game_over());
    // the head stands on the cell the body held just behind it
    assert_eq!(g.snake()[0], before[1]);
    let body = g.snake();
    let food = g.food();
    for _ in 0..5 {
        now += 1000;
        g.tick_at(now);
        g.tick();
        assert_eq!(g.snake(), body);
        assert_eq!(g.food(), food);
        assert!(g.is_game_over());
    }
}

#[test]
fn draw_marks_food_body_and_crash() {
    let g = GameState::new(10, 10, 15);
    let mut canvas = Canvas::new(10, 10, '.');
    canvas.frame('#');
    g.draw_with(&mut canvas, 'F', 'S', 'X');
    let buf = canvas.get_buffer();
    assert_eq!(buf.get(2, 5), 'S');
    assert_eq!(buf.get(1, 5), 'S');
    assert_eq!(buf.get(0, 5), 'S');
    let f = g.food();
    assert_eq!(buf.get(f.x as u16, f.y as u16), 'F');
    assert_eq!(buf.get(0, 0), '#');
    let mut dots = 0;
    for y in 0..10 {
        for x in 0..10 {
            if buf.get(x, y) == '.' {
                dots += 1;
            }
        }
    }
    assert_eq!(dots, 64 - 3);
}

#[test]
fn coord_arithmetic() {
    assert_eq!(c(2, 3).add(c(-1, 4)), c(1, 7));
    assert_eq!(c(2, -3).mul(3), c(6, -9));
    assert_eq!(Direction::Up.to_speed(), c(0, -1));
    assert_eq!(Direction::Down.to_speed(), c(0, 1));
    assert_eq!(Direction::Left.to_speed(), c(-1, 0));
    assert_eq!(Direction::Right.to_speed(), c(1, 0));
}

#[test]
fn draw_crash_marker_on_head() {
    let mut g = GameState::new(20, 20, 15);
    let mut now: u64 = 0;
    eat_once(&mut g, &mut now);
    eat_once(&mut g, &mut now);
    for _ in 0..6 {
        now += 1000;
        g.tick_at(now);
    }
    let (side, back, other) = match g.direction() {
        Direction::Up => (InputKey::Left, InputKey::Down, InputKey::Right),
        Direction::Down => (InputKey::Left, InputKey::Up, InputKey::Right),
        Direction::Left => (InputKey::Up, InputKey::Right, InputKey::Down),
        Direction::Right => (InputKey::Up, InputKey::Left, InputKey::Down),
    };
    g.handle_input(press(side));
    g.handle_input(press(back));
    g.handle_input(press(other));
    for _ in 0..3 {
        now += 1000;
        g.tick_at(now);
    }
    assert!(g.is_game_over());
    let mut canvas = Canvas::new(20, 20, '.');
    g.draw_with(&mut canvas, 'F', 'S', 'X');
    let head = g.snake()[0];
    let buf = canvas.get_buffer();
    assert_eq!(buf.get(head.x as u16, head.y as u16), 'X');
    for cell in g.snake().iter().skip(1) {
        if *cell != head {
            assert_eq!(buf.get(cell.x as u16, cell.y as u16), 'S');
        }
    }
}
