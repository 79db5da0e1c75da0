use std::collections::VecDeque;
use std::time::Instant;

use crossterm::style::{StyledContent, Stylize};
use vstd::prelude::*;

use crate::canvas::Canvas;

verus! {

#[verifier::external_type_specification]
#[verifier::external_body]
pub struct ExInstant(std::time::Instant);

/// Relies on `Instant::now`: a reading of the monotonic clock; nothing is known of its value.
pub assume_specification[ std::time::Instant::now ]() -> std::time::Instant;

/// Relies on `Instant::elapsed`: the time since the reading; nothing is known of its value.
pub assume_specification[ std::time::Instant::elapsed ](i: &std::time::Instant) -> core::time::Duration;

/// Relies on `Duration::as_millis`: whole milliseconds of a duration.
pub assume_specification[ core::time::Duration::as_millis ](d: &core::time::Duration) -> u128;

/// Relies on `rand::random_range`: a draw from the half-open range `low..high`,
/// which panics on an empty range.
#[verifier::external_body]
fn random_in(low: i16, high: i16) -> (r: i16)
    requires
        low < high,
    ensures
        low <= r < high,
{
    rand::random_range(low..high)
}

#[verifier::external_type_specification]
#[verifier::external_body]
#[verifier::reject_recursive_types(D)]
pub struct ExStyledContent<D: std::fmt::Display>(crossterm::style::StyledContent<D>);

/// Relies on crossterm's `Stylize::yellow`: the character with a yellow foreground.
#[verifier::external_body]
fn yellow(c: char) -> (r: StyledContent<char>) {
    c.yellow()
}

/// Relies on crossterm's `Stylize::green`: the character with a green foreground.
#[verifier::external_body]
fn green(c: char) -> (r: StyledContent<char>) {
    c.green()
}

/// Relies on crossterm's `Stylize::red`: the character with a red foreground.
#[verifier::external_body]
fn red(c: char) -> (r: StyledContent<char>) {
    c.red()
}

/// How many random draws food placement makes before it scans the board in order.
pub const FOOD_DRAWS: u32 = 4096;

/// One of the four directions of travel.
#[derive(Clone, Copy, PartialEq, Eq, Structural, Debug)]
pub enum Direction {
    Up,
    Down,
    Left,
    Right,
}

impl Direction {
    pub open spec fn dx(self) -> int {
        match self {
            Direction::Left => -1,
            Direction::Right => 1,
            _ => 0,
        }
    }

    pub open spec fn dy(self) -> int {
        match self {
            Direction::Up => -1,
            Direction::Down => 1,
            _ => 0,
        }
    }

    pub open spec fn opposite(self) -> Direction {
        match self {
            Direction::Up => Direction::Down,
            Direction::Down => Direction::Up,
            Direction::Left => Direction::Right,
            Direction::Right => Direction::Left,
        }
    }

    /// The unit step of this direction; `y` grows downwards.
    pub fn to_speed(self) -> (r: Coord)
        ensures
            r.x == self.dx(),
            r.y == self.dy(),
    {
        match self {
            Direction::Down => Coord { x: 0, y: 1 },
            Direction::Up => Coord { x: 0, y: -1 },
            Direction::Left => Coord { x: -1, y: 0 },
            Direction::Right => Coord { x: 1, y: 0 },
        }
    }
}

/// Whether a turn from `from` to `to` may be queued: neither the same way nor back.
pub open spec fn turn_allowed(from: Direction, to: Direction) -> bool {
    to != from && to != from.opposite()
}

/// A cell of the board.
#[derive(Clone, Copy, PartialEq, Eq, Structural, Debug)]
pub struct Coord {
    pub x: i16,
    pub y: i16,
}

impl Coord {
    pub fn add(self, rhs: Coord) -> (r: Coord)
        requires
            i16::MIN <= self.x + rhs.x <= i16::MAX,
            i16::MIN <= self.y + rhs.y <= i16::MAX,
        ensures
            r.x == self.x + rhs.x,
            r.y == self.y + rhs.y,
    {
        Coord { x: self.x + rhs.x, y: self.y + rhs.y }
    }

    pub fn mul(self, k: i16) -> (r: Coord)
        requires
            i16::MIN <= self.x * k <= i16::MAX,
            i16::MIN <= self.y * k <= i16::MAX,
        ensures
            r.x == self.x * k,
            r.y == self.y * k,
    {
        Coord { x: self.x * k, y: self.y * k }
    }
}

/// One axis of the wrap: positions on or past the border re-enter on the far side of the interior.
pub open spec fn wrap_axis(v: int, size: int) -> int {
    if v <= 0 {
        size - 2
    } else if v >= size - 1 {
        1
    } else {
        v
    }
}

/// Whether some cell of the body lies at `(x, y)`.
pub open spec fn covers(body: Seq<Coord>, x: int, y: int) -> bool {
    exists|i: int| 0 <= i < body.len() && #[trigger] body[i].x == x && body[i].y == y
}

/// Input of the simulation: a key and whether it went down.
#[derive(Clone, Copy, PartialEq, Eq, Structural, Debug)]
pub enum InputKey {
    Up,
    Down,
    Left,
    Right,
    Other,
}

#[derive(Clone, Copy, PartialEq, Eq, Structural, Debug)]
pub struct InputEvent {
    pub key: InputKey,
    pub is_press: bool,
}

/// The direction that a key press asks for, if it asks for one.
pub open spec fn requested(ev: InputEvent) -> Option<Direction> {
    if !ev.is_press {
        None
    } else {
        match ev.key {
            InputKey::Up => Some(Direction::Up),
            InputKey::Down => Some(Direction::Down),
            InputKey::Left => Some(Direction::Left),
            InputKey::Right => Some(Direction::Right),
            InputKey::Other => None,
        }
    }
}

/// The state of one game of snake on a board with a one-cell border.
pub struct GameState {
    dir: Direction,
    dir_list: VecDeque<Direction>,
    size: Coord,
    food: Coord,
    snake: VecDeque<Coord>,
    speed_factor: i16,
    clock: Instant,
    last_update: u64,
    game_over: bool,
    tick_delay: u64,
}

impl GameState {
    /// The direction of travel.
    pub closed spec fn active_dir(&self) -> Direction {
        self.dir
    }

    /// Turns waiting to take effect, first to apply first.
    pub closed spec fn pending(&self) -> Seq<Direction> {
        self.dir_list@
    }

    pub closed spec fn board_w(&self) -> int {
        self.size.x as int
    }

    pub closed spec fn board_h(&self) -> int {
        self.size.y as int
    }

    pub closed spec fn food_at(&self) -> Coord {
        self.food
    }

    /// The body, head first.
    pub closed spec fn body(&self) -> Seq<Coord> {
        self.snake@
    }

    pub closed spec fn factor(&self) -> int {
        self.speed_factor as int
    }

    pub closed spec fn over(&self) -> bool {
        self.game_over
    }

    /// Milliseconds on the game's clock at the last step.
    pub closed spec fn last_tick(&self) -> int {
        self.last_update as int
    }

    /// Milliseconds between steps.
    pub closed spec fn delay(&self) -> int {
        self.tick_delay as int
    }

    /// The board, the clock, the speed and the step interval are the same in both states.
    pub open spec fn same_setup(&self, other: GameState) -> bool {
        &&& self.board_w() == other.board_w()
        &&& self.board_h() == other.board_h()
        &&& self.clock() == other.clock()
        &&& self.factor() == other.factor()
        &&& self.delay() == other.delay()
    }

    /// The clock that step times are read from.
    pub closed spec fn clock(&self) -> Instant {
        self.clock
    }

    pub open spec fn interior(&self, c: Coord) -> bool {
        1 <= c.x <= self.board_w() - 2 && 1 <= c.y <= self.board_h() - 2
    }

    pub open spec fn on_board(&self, c: Coord) -> bool {
        0 <= c.x < self.board_w() && 0 <= c.y < self.board_h()
    }

    pub open spec fn head(&self) -> Coord {
        self.body()[0]
    }

    /// The direction that a new turn is checked against: the last queued turn, else the direction of travel.
    pub open spec fn effective_dir(&self) -> Direction {
        if self.pending().len() > 0 {
            self.pending().last()
        } else {
            self.active_dir()
        }
    }

    /// Whether some interior cell is free of the given body.
    pub open spec fn has_free_cell(&self, body: Seq<Coord>) -> bool {
        exists|c: Coord| self.interior(c) && !body.contains(c)
    }

    /// What food placement guarantees: a free interior cell where there is one, else the old food.
    pub open spec fn food_placed(&self, body: Seq<Coord>, old_food: Coord, food: Coord) -> bool {
        if self.has_free_cell(body) {
            self.interior(food) && !body.contains(food)
        } else {
            food == old_food
        }
    }

    pub open spec fn wf(&self) -> bool {
        &&& 5 <= self.board_w() <= i16::MAX
        &&& 5 <= self.board_h() <= i16::MAX
        &&& self.factor() == 1
        &&& self.body().len() >= 3
        &&& self.interior(self.head())
        &&& forall|i: int| 0 <= i < self.body().len() ==> self.on_board(#[trigger] self.body()[i])
        &&& self.interior(self.food_at())
        &&& self.pending().len() > 0 ==> turn_allowed(self.active_dir(), self.pending()[0])
        &&& forall|i: int, j: int|
            0 <= i && j == i + 1 && j < self.pending().len() ==> turn_allowed(
                #[trigger] self.pending()[i],
                #[trigger] self.pending()[j],
            )
    }

    /// The direction the next step takes: the first queued turn, else the direction of travel.
    pub open spec fn next_dir(&self) -> Direction {
        if self.pending().len() > 0 {
            self.pending()[0]
        } else {
            self.active_dir()
        }
    }

    /// Where the head goes on the next step.
    pub open spec fn next_head(&self) -> Coord {
        Coord {
            x: wrap_axis(self.head().x + self.next_dir().dx(), self.board_w()) as i16,
            y: wrap_axis(self.head().y + self.next_dir().dy(), self.board_h()) as i16,
        }
    }

    /// `next` is this state after one step of the game.
    pub open spec fn advanced(&self, next: GameState) -> bool {
        let h = self.next_head();
        let ate = h == self.food_at();
        let rest = if ate {
            self.body()
        } else {
            self.body().drop_last()
        };
        &&& self.same_setup(next)
        &&& next.active_dir() == self.next_dir()
        &&& next.pending() == if self.pending().len() > 0 {
            self.pending().drop_first()
        } else {
            self.pending()
        }
        &&& next.body() == seq![h] + rest
        &&& next.over() == rest.contains(h)
        &&& if ate {
            next.food_placed(next.body(), self.food_at(), next.food_at())
        } else {
            next.food_at() == self.food_at()
        }
    }

    /// `next` is what a tick at clock reading `now` makes of this state.
    pub open spec fn ticked(&self, next: GameState, now: u64) -> bool {
        if self.over() || now - self.last_tick() < self.delay() {
            next == *self
        } else {
            self.advanced(next) && next.last_tick() == now
        }
    }

    pub fn new(size_x: i16, size_y: i16, tps: u64) -> (r: GameState)
        requires
            size_x >= 8,
            size_y >= 5,
            tps > 0,
        ensures
            r.wf(),
            !r.over(),
            r.board_w() == size_x,
            r.board_h() == size_y,
            r.active_dir() == Direction::Right,
            r.pending().len() == 0,
            r.delay() == 1000int / (tps as int),
            r.last_tick() == 0,
            r.body() == seq![
                Coord { x: (size_x / 4) as i16, y: (size_y / 2) as i16 },
                Coord { x: (size_x / 4 - 1) as i16, y: (size_y / 2) as i16 },
                Coord { x: (size_x / 4 - 2) as i16, y: (size_y / 2) as i16 },
            ],
            r.interior(r.food_at()),
            !r.body().contains(r.food_at()),
    {
        let init_y: i16 = size_y / 2;
        let init_x: i16 = size_x / 4;
        let mut snake: VecDeque<Coord> = VecDeque::new();
        snake.push_back(Coord { x: init_x, y: init_y });
        snake.push_back(Coord { x: init_x - 1, y: init_y });
        snake.push_back(Coord { x: init_x - 2, y: init_y });
        let tick_delay: u64 = 1000 / tps;
        let mut state = GameState {
            dir: Direction::Right,
            dir_list: VecDeque::new(),
            size: Coord { x: size_x, y: size_y },
            food: Coord { x: 1, y: 1 },
            snake,
            speed_factor: 1,
            clock: Instant::now(),
            last_update: 0,
            game_over: false,
            tick_delay,
        };
        proof {
            let free = Coord { x: 1, y: 1 };
            assert(!state.body().contains(free)) by {
                if state.body().contains(free) {
                    let i = choose|i: int| 0 <= i < state.body().len() && state.body()[i] == free;
                    assert(state.body()[i] == state.snake@[i]);
                }
            }
            assert(state.interior(free));
        }
        state.spawn_food();
        state
    }

    /// Whether some cell of `body` equals `c`.
    fn body_contains(body: &VecDeque<Coord>, c: Coord) -> (r: bool)
        ensures
            r == body@.contains(c),
    {
        let mut i: usize = 0;
        while i < body.len()
            invariant
                i <= body@.len(),
                forall|j: int| 0 <= j < i ==> body@[j] != c,
            decreases body@.len() - i,
        {
            if body[i] == c {
                return true;
            }
            i = i + 1;
        }
        false
    }

    /// Places the food on a random interior cell that the body does not cover.
    fn spawn_food(&mut self)
        requires
            5 <= old(self).board_w() <= i16::MAX,
            5 <= old(self).board_h() <= i16::MAX,
        ensures
            final(self).active_dir() == old(self).active_dir(),
            final(self).pending() == old(self).pending(),
            final(self).body() == old(self).body(),
            final(self).over() == old(self).over(),
            final(self).last_tick() == old(self).last_tick(),
            old(self).same_setup(*final(self)),
            final(self).food_placed(old(self).body(), old(self).food_at(), final(self).food_at()),
    {
        let w = self.size.x;
        let h = self.size.y;
        let mut draws: u32 = 0;
        while draws < FOOD_DRAWS
            invariant
                *self == *old(self),
                w == self.board_w(),
                h == self.board_h(),
                5 <= w,
                5 <= h,
            decreases FOOD_DRAWS - draws,
        {
            let x = random_in(1, w - 1);
            let y = random_in(1, h - 1);
            let c = Coord { x, y };
            if !Self::body_contains(&self.snake, c) {
                self.food = c;
                return;
            }
            draws = draws + 1;
        }
        let mut y: i16 = 1;
        while y < h - 1
            invariant
                *self == *old(self),
                w == self.board_w(),
                h == self.board_h(),
                5 <= w,
                5 <= h,
                1 <= y <= h - 1,
                forall|c: Coord| self.interior(c) && c.y < y ==> self.body().contains(c),
            decreases h - y,
        {
            let mut x: i16 = 1;
            while x < w - 1
                invariant
                    *self == *old(self),
                    w == self.board_w(),
                    h == self.board_h(),
                    5 <= w,
                    5 <= h,
                    1 <= y < h - 1,
                    1 <= x <= w - 1,
                    forall|c: Coord|
                        self.interior(c) && (c.y < y || (c.y == y && c.x < x)) ==> self.body().contains(c),
                decreases w - x,
            {
                let c = Coord { x, y };
                if !Self::body_contains(&self.snake, c) {
                    self.food = c;
                    return;
                }
                x = x + 1;
            }
            y = y + 1;
        }
    }

    /// Brings a position one step off the interior back onto it, across the border.
    pub fn warp(&self, pos: Coord) -> (r: Coord)
        requires
            5 <= self.board_w() <= i16::MAX,
            5 <= self.board_h() <= i16::MAX,
            0 <= pos.x <= self.board_w() - 1,
            0 <= pos.y <= self.board_h() - 1,
        ensures
            r.x == wrap_axis(pos.x as int, self.board_w()),
            r.y == wrap_axis(pos.y as int, self.board_h()),
            self.interior(r),
    {
        let mut p = pos;
        if p.x <= 0 {
            p.x = self.size.x - 2;
        }
        if p.y <= 0 {
            p.y = self.size.y - 2;
        }
        if p.x >= self.size.x - 1 {
            p.x = 1;
        }
        if p.y >= self.size.y - 1 {
            p.y = 1;
        }
        p
    }
}

impl GameState {
    /// Queues the turn that a key press asks for, unless it repeats or reverses the effective direction.
    pub fn handle_input(&mut self, ev: InputEvent)
        requires
            old(self).wf(),
        ensures
            final(self).wf(),
            final(self).pending() == match requested(ev) {
                Some(d) => if turn_allowed(old(self).effective_dir(), d) {
                    old(self).pending().push(d)
                } else {
                    old(self).pending()
                },
                None => old(self).pending(),
            },
            final(self).active_dir() == old(self).active_dir(),
            final(self).body() == old(self).body(),
            final(self).food_at() == old(self).food_at(),
            final(self).over() == old(self).over(),
            final(self).last_tick() == old(self).last_tick(),
            old(self).same_setup(*final(self)),
    {
        let n = self.dir_list.len();
        let dir = if n > 0 {
            self.dir_list[n - 1]
        } else {
            self.dir
        };
        let want = if !ev.is_press {
            None
        } else {
            match ev.key {
                InputKey::Up => Some(Direction::Up),
                InputKey::Down => Some(Direction::Down),
                InputKey::Left => Some(Direction::Left),
                InputKey::Right => Some(Direction::Right),
                InputKey::Other => None,
            }
        };
        if let Some(d) = want {
            let back = match dir {
                Direction::Up => Direction::Down,
                Direction::Down => Direction::Up,
                Direction::Left => Direction::Right,
                Direction::Right => Direction::Left,
            };
            if d != dir && d != back {
                self.dir_list.push_back(d);
            }
        }
    }

    /// One tick at clock reading `now`, in milliseconds: nothing happens once the game is over or
    /// while less than the step interval has passed since the last step; otherwise the game
    /// takes one step and `now` becomes the time of the last step.
    pub fn tick_at(&mut self, now: u64)
        requires
            old(self).wf(),
        ensures
            final(self).wf(),
            old(self).ticked(*final(self), now),
            final(self).interior(final(self).head()),
            final(self).body().len() == old(self).body().len() || final(self).body().len()
                == old(self).body().len() + 1,
            final(self).body().len() == old(self).body().len() + 1 ==> final(self).head() == old(self).food_at(),
    {
        if self.game_over {
            return;
        }
        if now < self.last_update || now - self.last_update < self.tick_delay {
            return;
        }
        let ghost pre = *self;
        match self.dir_list.pop_front() {
            Some(d) => {
                self.dir = d;
            },
            None => {},
        }
        let tail = match self.snake.pop_back() {
            Some(t) => t,
            None => {
                return;
            },
        };
        let head = self.snake[0];
        assert(head == pre.head());
        let step = self.dir.to_speed().mul(self.speed_factor);
        let next = self.warp(head.add(step));
        assert(next == pre.next_head());
        let ate = next == self.food;
        if ate {
            self.snake.push_back(tail);
            assert(self.snake@ =~= pre.body());
        }
        if Self::body_contains(&self.snake, next) {
            self.game_over = true;
        }
        self.snake.push_front(next);
        if ate {
            self.spawn_food();
        }
        self.last_update = now;
        proof {
            assert forall|i: int| 0 <= i < self.body().len() implies self.on_board(#[trigger] self.body()[i]) by {
                if i > 0 {
                    assert(self.body()[i] == pre.body()[i - 1]);
                }
            }
            if self.pending().len() > 0 {
                assert(self.pending()[0] == pre.pending()[1]);
            }
            assert forall|i: int, j: int|
                0 <= i && j == i + 1 && j < self.pending().len() implies turn_allowed(
                #[trigger] self.pending()[i],
                #[trigger] self.pending()[j],
            ) by {
                assert(self.pending()[i] == pre.pending()[i + 1]);
                assert(self.pending()[j] == pre.pending()[j + 1]);
            }
        }
    }

    /// One tick at the present time of the game's clock.
    pub fn tick(&mut self)
        requires
            old(self).wf(),
        ensures
            final(self).wf(),
            exists|now: u64| old(self).ticked(*final(self), now),
    {
        let ms = self.clock.elapsed().as_millis();
        let now: u64 = if ms > u64::MAX as u128 {
            u64::MAX
        } else {
            ms as u64
        };
        self.tick_at(now);
    }

    /// Sets the step interval to `1000 / tps` milliseconds; nothing else changes.
    pub fn set_tps(&mut self, tps: u64)
        requires
            old(self).wf(),
            tps > 0,
        ensures
            final(self).wf(),
            final(self).delay() == 1000int / (tps as int),
            final(self).active_dir() == old(self).active_dir(),
            final(self).pending() == old(self).pending(),
            final(self).body() == old(self).body(),
            final(self).food_at() == old(self).food_at(),
            final(self).over() == old(self).over(),
            final(self).last_tick() == old(self).last_tick(),
            final(self).board_w() == old(self).board_w(),
            final(self).board_h() == old(self).board_h(),
    {
        self.tick_delay = 1000 / tps;
    }
}

impl GameState {
    /// What drawing the game makes of a cell that held `prev`.
    pub open spec fn drawn_cell<E>(&self, prev: E, x: int, y: int, food: E, body: E, crash: E) -> E {
        if self.over() && self.head().x == x && self.head().y == y {
            crash
        } else if covers(self.body(), x, y) {
            body
        } else if self.food_at().x == x && self.food_at().y == y {
            food
        } else {
            prev
        }
    }

    /// `after` is `before` with the game drawn on it in the given markers.
    pub open spec fn painted<E>(&self, before: Canvas<E>, after: Canvas<E>, food: E, body: E, crash: E) -> bool {
        forall|x: int, y: int|
            after.in_bounds(x, y) ==> #[trigger] after.at(x, y) == self.drawn_cell(
                before.at(x, y),
                x,
                y,
                food,
                body,
                crash,
            )
    }

    /// Draws the food, then every cell of the body over it, then, once the game is over,
    /// the crash marker on the head. Cells that none of them covers keep their value.
    pub fn draw_with<E: Copy>(&self, canvas: &mut Canvas<E>, food: E, body: E, crash: E)
        requires
            self.wf(),
            old(canvas).wf(),
            old(canvas).width() == self.board_w(),
            old(canvas).height() == self.board_h(),
        ensures
            final(canvas).wf(),
            final(canvas).width() == old(canvas).width(),
            final(canvas).height() == old(canvas).height(),
            final(canvas).blank_cell() == old(canvas).blank_cell(),
            self.painted(*old(canvas), *final(canvas), food, body, crash),
    {
        canvas.draw(self.food.x as u16, self.food.y as u16, food);
        let n = self.snake.len();
        let mut i: usize = 0;
        while i < n
            invariant
                self.wf(),
                n == self.body().len(),
                i <= n,
                canvas.wf(),
                canvas.width() == old(canvas).width(),
                canvas.height() == old(canvas).height(),
                canvas.width() == self.board_w(),
                canvas.height() == self.board_h(),
                canvas.blank_cell() == old(canvas).blank_cell(),
                forall|x: int, y: int|
                    canvas.in_bounds(x, y) ==> #[trigger] canvas.at(x, y) == if covers(
                        self.body().take(i as int),
                        x,
                        y,
                    ) {
                        body
                    } else if self.food_at().x == x && self.food_at().y == y {
                        food
                    } else {
                        old(canvas).at(x, y)
                    },
            decreases n - i,
        {
            let c = self.snake[i];
            assert(c == self.body()[i as int]);
            assert(self.on_board(c));
            canvas.draw(c.x as u16, c.y as u16, body);
            proof {
                let before = self.body().take(i as int);
                let after = self.body().take(i + 1);
                assert forall|x: int, y: int| canvas.in_bounds(x, y) implies covers(after, x, y) == (
                covers(before, x, y) || (c.x == x && c.y == y)) by {
                    if covers(before, x, y) {
                        let k = choose|k: int| 0 <= k < before.len() && #[trigger] before[k].x == x && before[k].y == y;
                        assert(after[k] == before[k]);
                    }
                    if c.x == x && c.y == y {
                        assert(after[i as int] == c);
                    }
                    if covers(after, x, y) {
                        let k = choose|k: int| 0 <= k < after.len() && #[trigger] after[k].x == x && after[k].y == y;
                        if k < i {
                            assert(before[k] == after[k]);
                        }
                    }
                }
            }
            i = i + 1;
        }
        assert(self.body().take(n as int) =~= self.body());
        if self.game_over {
            let head = self.snake[0];
            canvas.draw(head.x as u16, head.y as u16, crash);
        }
    }

    /// Draws the game in the terminal's colours: food as a yellow `F`, the body as green `S`,
    /// and a crashed head as a red `X`.
    pub fn draw(&self, canvas: &mut Canvas<StyledContent<char>>)
        requires
            self.wf(),
            old(canvas).wf(),
            old(canvas).width() == self.board_w(),
            old(canvas).height() == self.board_h(),
        ensures
            final(canvas).wf(),
            final(canvas).width() == old(canvas).width(),
            final(canvas).height() == old(canvas).height(),
            final(canvas).blank_cell() == old(canvas).blank_cell(),
            exists|food: StyledContent<char>, body: StyledContent<char>, crash: StyledContent<char>|
                #[trigger] self.painted(*old(canvas), *final(canvas), food, body, crash),
    {
        let food = yellow('F');
        let body = green('S');
        let crash = red('X');
        self.draw_with(canvas, food, body, crash);
        assert(self.painted(*old(canvas), *canvas, food, body, crash));
    }

    pub fn snake(&self) -> (r: Vec<Coord>)
        ensures
            r@ == self.body(),
    {
        let mut r: Vec<Coord> = Vec::new();
        let mut i: usize = 0;
        while i < self.snake.len()
            invariant
                i <= self.snake@.len(),
                r@ == self.snake@.take(i as int),
            decreases self.snake@.len() - i,
        {
            r.push(self.snake[i]);
            i = i + 1;
            assert(r@ =~= self.snake@.take(i as int));
        }
        assert(self.snake@.take(i as int) =~= self.snake@);
        r
    }

    pub fn pending_turns(&self) -> (r: Vec<Direction>)
        ensures
            r@ == self.pending(),
    {
        let mut r: Vec<Direction> = Vec::new();
        let mut i: usize = 0;
        while i < self.dir_list.len()
            invariant
                i <= self.dir_list@.len(),
                r@ == self.dir_list@.take(i as int),
            decreases self.dir_list@.len() - i,
        {
            r.push(self.dir_list[i]);
            i = i + 1;
            assert(r@ =~= self.dir_list@.take(i as int));
        }
        assert(self.dir_list@.take(i as int) =~= self.dir_list@);
        r
    }

    pub fn food(&self) -> (r: Coord)
        ensures
            r == self.food_at(),
    {
        self.food
    }

    pub fn direction(&self) -> (r: Direction)
        ensures
            r == self.active_dir(),
    {
        self.dir
    }

    pub fn is_game_over(&self) -> (r: bool)
        ensures
            r == self.over(),
    {
        self.game_over
    }

    /// Milliseconds between steps.
    pub fn tick_delay_ms(&self) -> (r: u64)
        ensures
            r == self.delay(),
    {
        self.tick_delay
    }

    /// The board's width and height, border included.
    pub fn dimensions(&self) -> (r: (i16, i16))
        ensures
            r.0 == self.board_w(),
            r.1 == self.board_h(),
    {
        (self.size.x, self.size.y)
    }
}

/// Two ticks less than one step interval apart change the state at most once.
pub proof fn lemma_tick_gating(s0: GameState, s1: GameState, s2: GameState, t1: u64, t2: u64)
    requires
        s0.ticked(s1, t1),
        s1.ticked(s2, t2),
        t1 <= t2,
        t2 - t1 < s0.delay(),
    ensures
        s1 == s0 || s2 == s1,
{
    if s1 != s0 {
        assert(s0.advanced(s1));
        assert(s1.last_tick() == t1);
        assert(s1.delay() == s0.delay());
    }
}

/// Once the game is over, a tick changes nothing: not the body, the food, nor the game-over flag.
pub proof fn lemma_game_over_latch(s: GameState, next: GameState, now: u64)
    requires
        s.over(),
        s.ticked(next, now),
    ensures
        next == s,
        next.body() == s.body(),
        next.food_at() == s.food_at(),
        next.over(),
{
}

/// A tick keeps the length of the body, except on a step onto the food, which adds one cell.
pub proof fn lemma_length_conserved(s: GameState, next: GameState, now: u64)
    requires
        s.wf(),
        s.ticked(next, now),
    ensures
        next.body().len() == if !s.over() && now - s.last_tick() >= s.delay() && s.next_head() == s.food_at() {
            s.body().len() + 1
        } else {
            s.body().len()
        },
{
}

/// Food that a tick moves lies strictly inside the border and off every cell of the body.
pub proof fn lemma_fresh_food(s: GameState, next: GameState, now: u64)
    requires
        s.wf(),
        s.ticked(next, now),
        next.food_at() != s.food_at(),
    ensures
        next.interior(next.food_at()),
        !next.body().contains(next.food_at()),
{
    assert(s.advanced(next));
    assert(next.board_w() == s.board_w() && next.board_h() == s.board_h()) by {
        assert(s.same_setup(next));
    }
}

} // verus!
