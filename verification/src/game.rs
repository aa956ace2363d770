//! The shooter game: a shooter on the bottom rows, an alien bouncing along
//! the top row, `MAX` bullets, and a score row shown when the game ends.
//!
//! The game advances by three events: a button press, the display tick
//! (which moves the shooter and the alien, scores a bullet that reached the
//! top, and refreshes one line of the matrix), and the logic tick (which
//! moves the light on the board's LEDs, turns the alien, moves the bullet up
//! and ends the game after the last bullet). Each event is a spec function
//! from the state before to the state after; the handlers are proved to
//! compute it. Within the display tick the game draws into the frame
//! without refreshing, and the tick then shows the frame one line per call;
//! the logic tick's turning off of the bullet's old place refreshes that
//! place's line at once.
use vstd::prelude::*;
use crate::panel;
use crate::panel::{Display, DisplayModel, SIDE, refresh_next_line, set_pixel, store_pixel};
use crate::blink;
use crate::blink::{LedLight, blinker_step};

verus! {

/// Number of bullets in a game, and of entries of the score.
pub const MAX: usize = 8;

/// Row of the alien.
pub const ALIEN_Y: usize = 0;

/// Row of the shooter's base.
pub const SHOOTER_Y: usize = 7;

/// Row a fired bullet starts from.
pub const BULLET_START_Y: usize = 5;

/// Button status of the button that moves the shooter right.
pub const BUTTON_RIGHT: u32 = 0b000001;

/// Button status of the button that moves the shooter left.
pub const BUTTON_LEFT: u32 = 0b000010;

/// Button status of the fire button.
pub const BUTTON_FIRE: u32 = 0b000100;

/// The state of a game.
pub struct Game {
    /// The game is on; false once the last bullet has been used.
    pub game_continue: bool,
    /// For each bullet, 1 if it hit the alien, 0 otherwise.
    pub points: [usize; 8],
    /// Number of bullets fired.
    pub bullet_used: usize,
    /// Column of the shooter's centre.
    pub shooter_x: usize,
    /// Move of the shooter at the next display tick.
    pub shooter_dir: i8,
    /// Column of the alien.
    pub alien_x: usize,
    /// Move of the alien at the next display tick.
    pub alien_dir: i8,
    /// Direction the alien is travelling in.
    pub a_going_dir: i8,
    /// A bullet is in flight.
    pub bullet_build_b: bool,
    /// Column of the bullet.
    pub bullet_x: usize,
    /// Row of the bullet.
    pub bullet_y: usize,
    /// The last bullet has reached the top: the next one may be fired.
    pub shoot_done: bool,
}

/// The state of a game, with the score as a sequence.
#[verifier::ext_equal]
pub struct GameModel {
    pub game_continue: bool,
    pub points: Seq<usize>,
    pub bullet_used: usize,
    pub shooter_x: usize,
    pub shooter_dir: i8,
    pub alien_x: usize,
    pub alien_dir: i8,
    pub a_going_dir: i8,
    pub bullet_build_b: bool,
    pub bullet_x: usize,
    pub bullet_y: usize,
    pub shoot_done: bool,
}

impl View for Game {
    type V = GameModel;

    open spec fn view(&self) -> GameModel {
        GameModel {
            game_continue: self.game_continue,
            points: self.points@,
            bullet_used: self.bullet_used,
            shooter_x: self.shooter_x,
            shooter_dir: self.shooter_dir,
            alien_x: self.alien_x,
            alien_dir: self.alien_dir,
            a_going_dir: self.a_going_dir,
            bullet_build_b: self.bullet_build_b,
            bullet_x: self.bullet_x,
            bullet_y: self.bullet_y,
            shoot_done: self.shoot_done,
        }
    }
}

impl GameModel {
    /// The states a game passes through: the shooter whole on the board,
    /// the alien on the top row and never moving off it, a bullet in the
    /// shooter's columns below the top, a score of zeros and ones.
    pub open spec fn wf(self) -> bool {
        &&& self.points.len() == MAX
        &&& forall|i: int| 0 <= i < MAX ==> #[trigger] self.points[i] <= 1
        &&& 1 <= self.shooter_x <= 6
        &&& -1 <= self.shooter_dir <= 1
        &&& self.alien_x <= 7
        &&& -1 <= self.alien_dir <= 1
        &&& (self.alien_x == 0 ==> self.alien_dir >= 0)
        &&& (self.alien_x == 7 ==> self.alien_dir <= 0)
        &&& (self.a_going_dir == 1 || self.a_going_dir == -1)
        &&& 1 <= self.bullet_x <= 6
        &&& self.bullet_y <= BULLET_START_Y
        &&& (self.bullet_build_b ==> self.bullet_used >= 1)
    }
}

/// Where the shooter's centre goes from column `loc` by `dir`: the sum,
/// clamped to 1..=6; a negative sum, taken as a column, is beyond 6.
pub open spec fn shooter_step(loc: usize, dir: i8) -> usize {
    let v = loc + dir;
    if v < 0 || v > 6 {
        6
    } else if v < 1 {
        1
    } else {
        v as usize
    }
}

/// The shooter drawn in colour (`r`, `g`, `b`) with its centre at column
/// `loc`: three pixels of the bottom row and the one above the centre.
pub open spec fn draw_shooter(d: DisplayModel, loc: int, r: u8, g: u8, b: u8) -> DisplayModel {
    let d1 = panel::stored(d, loc - 1, 7, r, g, b);
    let d2 = panel::stored(d1, loc, 7, r, g, b);
    let d3 = panel::stored(d2, loc, 6, r, g, b);
    panel::stored(d3, loc + 1, 7, r, g, b)
}

/// The display after the shooter at `loc` is moved by `dir`: erased, then
/// drawn blue at its new place.
pub open spec fn move_shooter(d: DisplayModel, loc: usize, dir: i8) -> DisplayModel {
    draw_shooter(draw_shooter(d, loc as int, 0, 0, 0), shooter_step(loc, dir) as int, 0, 0, 255)
}

/// The display after the alien at `x` is moved by `dir`: erased, then drawn
/// red at its new place.
pub open spec fn move_alien(d: DisplayModel, x: usize, dir: i8) -> DisplayModel {
    panel::stored(panel::stored(d, x as int, 0, 0, 0, 0), x + dir, 0, 255, 0, 0)
}

/// The display after cells (`x`, 0) .. (`x`, `n` - 1) are turned off, in order.
pub open spec fn clear_column_cells(d: DisplayModel, x: int, n: nat) -> DisplayModel
    decreases n,
{
    if n == 0 {
        d
    } else {
        panel::stored(clear_column_cells(d, x, (n - 1) as nat), x, n - 1, 0, 0, 0)
    }
}

/// The display after the cells of columns 0 .. `n` - 1, rows 0..7, are
/// turned off, column by column.
pub open spec fn clear_block(d: DisplayModel, n: nat) -> DisplayModel
    decreases n,
{
    if n == 0 {
        d
    } else {
        clear_column_cells(clear_block(d, (n - 1) as nat), n - 1, 7)
    }
}

/// The colour a score entry is shown in: blue for a miss, green for a hit.
pub open spec fn score_colour(p: usize) -> (u8, u8, u8) {
    if p == 0 {
        (0, 0, 255)
    } else {
        (0, 255, 0)
    }
}

/// The display after score entries 0 .. `n` - 1 are shown on the bottom row.
pub open spec fn draw_score(d: DisplayModel, points: Seq<usize>, n: nat) -> DisplayModel
    decreases n,
{
    if n == 0 {
        d
    } else {
        let c = score_colour(points[n - 1]);
        panel::stored(draw_score(d, points, (n - 1) as nat), n - 1, 7, c.0, c.1, c.2)
    }
}

/// The alien's next move and direction of travel: away from an edge it is
/// on, else on in the direction it travels.
pub open spec fn alien_turn(x: usize, going: i8) -> (i8, i8) {
    if x == 0 {
        (1i8, 1i8)
    } else if x == 7 {
        (-1i8, -1i8)
    } else {
        (going, going)
    }
}

/// A button press with status `status`.
pub open spec fn button_step(g: GameModel, status: u32) -> GameModel {
    if status == BUTTON_RIGHT {
        GameModel { shooter_dir: 1i8, ..g }
    } else if status == BUTTON_LEFT {
        GameModel { shooter_dir: -1i8, ..g }
    } else if status == BUTTON_FIRE && g.shoot_done {
        GameModel {
            bullet_build_b: true,
            bullet_x: g.shooter_x,
            bullet_y: BULLET_START_Y,
            shoot_done: false,
            bullet_used: (g.bullet_used + 1) as usize,
            ..g
        }
    } else {
        g
    }
}

/// The display tick, on the game: the shooter and the alien make their
/// moves; a bullet at the top row is scored against the alien's column.
pub open spec fn tick_game(g: GameModel) -> GameModel {
    if g.game_continue {
        let ax = (g.alien_x + g.alien_dir) as usize;
        let moved = GameModel {
            shooter_x: shooter_step(g.shooter_x, g.shooter_dir),
            shooter_dir: 0,
            alien_x: ax,
            alien_dir: 0,
            ..g
        };
        if g.bullet_build_b && g.bullet_y == 0 {
            GameModel {
                shoot_done: true,
                points: g.points.update(
                    g.bullet_used - 1,
                    if g.bullet_x == ax {
                        1usize
                    } else {
                        0usize
                    },
                ),
                ..moved
            }
        } else {
            moved
        }
    } else {
        g
    }
}

/// The display tick, on the frame: while the game is on, the shooter and
/// the alien redrawn and a bullet in flight drawn green (and turned off
/// again at the top row); once it is over, the 7x7 block turned off and the
/// score shown on the bottom row.
pub open spec fn tick_draw(g: GameModel, d: DisplayModel) -> DisplayModel {
    if g.game_continue {
        let d1 = move_shooter(d, g.shooter_x, g.shooter_dir);
        let d2 = move_alien(d1, g.alien_x, g.alien_dir);
        if g.bullet_build_b {
            let d3 = panel::stored(d2, g.bullet_x as int, g.bullet_y as int, 0, 255, 0);
            if g.bullet_y == 0 {
                panel::stored(d3, g.bullet_x as int, g.bullet_y as int, 0, 0, 0)
            } else {
                d3
            }
        } else {
            d2
        }
    } else {
        draw_score(clear_block(d, 7), g.points, 8)
    }
}

/// The display tick, on the display: the frame drawn, then the line the
/// counter names refreshed and the counter moved on.
pub open spec fn tick_display(g: GameModel, d: DisplayModel) -> DisplayModel {
    panel::refreshed(tick_draw(g, d))
}

/// The logic tick, on the game: the alien turns; a bullet below the top
/// moves up one row, one at the top is done with, and the game ends when
/// that was the last bullet.
pub open spec fn logic_game(g: GameModel) -> GameModel {
    if g.game_continue {
        let t = alien_turn(g.alien_x, g.a_going_dir);
        let turned = GameModel { alien_dir: t.0, a_going_dir: t.1, ..g };
        if g.bullet_y != 0 {
            GameModel { bullet_y: (g.bullet_y - 1) as usize, ..turned }
        } else {
            GameModel {
                bullet_build_b: false,
                game_continue: g.bullet_used != MAX,
                ..turned
            }
        }
    } else {
        g
    }
}

/// The logic tick, on the display: the bullet's old place turned off, and
/// its line refreshed, when it moves up.
pub open spec fn logic_display(g: GameModel, d: DisplayModel) -> DisplayModel {
    if g.game_continue && g.bullet_y != 0 {
        panel::paint(d, g.bullet_x as int, g.bullet_y as int, 0, 0, 0)
    } else {
        d
    }
}

/// The states on which the display tick stays on the board: the shooter's
/// pixels, the alien's move, the bullet and the score entry it writes.
pub open spec fn tick_safe(g: GameModel) -> bool {
    &&& g.points.len() == MAX
    &&& g.game_continue ==> {
        &&& 1 <= g.shooter_x <= 6
        &&& g.shooter_x + g.shooter_dir <= 127
        &&& g.alien_x < 8
        &&& 0 <= g.alien_x + g.alien_dir < 8
        &&& g.bullet_build_b ==> g.bullet_x < 8 && g.bullet_y < 8
        &&& g.bullet_build_b && g.bullet_y == 0 ==> 1 <= g.bullet_used <= MAX
    }
}

/// The states on which the logic tick stays on the board.
pub open spec fn logic_safe(g: GameModel) -> bool {
    g.game_continue && g.bullet_y != 0 ==> g.bullet_x < 8 && g.bullet_y < 8
}

/// Drawing cells of a column leaves the bus log and the line counter.
pub proof fn lemma_clear_column_cells_keeps_bus(d: DisplayModel, x: int, n: nat)
    ensures
        clear_column_cells(d, x, n).bus == d.bus,
        clear_column_cells(d, x, n).line == d.line,
    decreases n,
{
    if n > 0 {
        lemma_clear_column_cells_keeps_bus(d, x, (n - 1) as nat);
    }
}

/// Clearing the block leaves the bus log and the line counter.
pub proof fn lemma_clear_block_keeps_bus(d: DisplayModel, n: nat)
    ensures
        clear_block(d, n).bus == d.bus,
        clear_block(d, n).line == d.line,
    decreases n,
{
    if n > 0 {
        lemma_clear_block_keeps_bus(d, (n - 1) as nat);
        lemma_clear_column_cells_keeps_bus(clear_block(d, (n - 1) as nat), n - 1, 7);
    }
}

/// Showing the score leaves the bus log and the line counter.
pub proof fn lemma_draw_score_keeps_bus(d: DisplayModel, points: Seq<usize>, n: nat)
    ensures
        draw_score(d, points, n).bus == d.bus,
        draw_score(d, points, n).line == d.line,
    decreases n,
{
    if n > 0 {
        lemma_draw_score_keeps_bus(d, points, (n - 1) as nat);
    }
}

/// The display tick's drawing changes the frame only: the refresh that
/// follows is the tick's one access of the bus.
pub proof fn lemma_tick_draw_keeps_bus(g: GameModel, d: DisplayModel)
    ensures
        tick_draw(g, d).bus == d.bus,
        tick_draw(g, d).line == d.line,
{
    lemma_clear_block_keeps_bus(d, 7);
    lemma_draw_score_keeps_bus(clear_block(d, 7), g.points, 8);
}

impl Game {
    /// A new game: the shooter at column 1, the alien at column 0 heading
    /// right, no bullet fired, the score all zeros.
    pub fn new() -> (g: Game)
        ensures
            g@.wf(),
            g@.game_continue,
            g@.points == Seq::new(8, |i: int| 0usize),
            g@.bullet_used == 0,
            g@.shooter_x == 1,
            g@.shooter_dir == 0,
            g@.alien_x == 0,
            g@.alien_dir == 0,
            g@.a_going_dir == 1,
            !g@.bullet_build_b,
            g@.bullet_x == 1,
            g@.bullet_y == BULLET_START_Y,
            g@.shoot_done,
    {
        let g = Game {
            game_continue: true,
            points: [0usize; 8],
            bullet_used: 0,
            shooter_x: 1,
            shooter_dir: 0,
            alien_x: 0,
            alien_dir: 0,
            a_going_dir: 1,
            bullet_build_b: false,
            bullet_x: 1,
            bullet_y: BULLET_START_Y,
            shoot_done: true,
        };
        assert(g@.points =~= Seq::new(8, |i: int| 0usize));
        g
    }

    /// Whether the display tick stays on the board from this state.
    pub fn tick_in_bounds(&self) -> (r: bool)
        ensures
            r == tick_safe(self@),
    {
        proof {
            vstd::array::array_len_matches_n(&self.points);
        }
        if !self.game_continue {
            return true;
        }
        let shooter_ok = 1 <= self.shooter_x && self.shooter_x <= 6 && (self.shooter_dir <= 0
            || self.shooter_x + (self.shooter_dir as usize) <= 127);
        let alien_ok = self.alien_x < 8 && (if self.alien_dir >= 0 {
            self.alien_x + (self.alien_dir as usize) < 8
        } else {
            self.alien_x >= ((-(self.alien_dir as i16)) as usize)
        });
        let bullet_ok = !self.bullet_build_b || (self.bullet_x < 8 && self.bullet_y < 8 && (
            self.bullet_y != 0 || (1 <= self.bullet_used && self.bullet_used <= MAX)));
        shooter_ok && alien_ok && bullet_ok
    }

    /// Whether the logic tick stays on the board from this state.
    pub fn logic_in_bounds(&self) -> (r: bool)
        ensures
            r == logic_safe(self@),
    {
        !(self.game_continue && self.bullet_y != 0) || (self.bullet_x < 8 && self.bullet_y < 8)
    }
}

/// Turns off the shooter's pixels around column `location`.
pub fn clear_shooter(display: &mut Display, location: usize)
    requires
        old(display).wf(),
        1 <= location <= 6,
    ensures
        final(display).wf(),
        final(display)@ == draw_shooter(old(display)@, location as int, 0, 0, 0),
{
    let y: usize = SHOOTER_Y;
    store_pixel(display, location - 1, y, 0, 0, 0);
    store_pixel(display, location, y, 0, 0, 0);
    store_pixel(display, location, y - 1, 0, 0, 0);
    store_pixel(display, location + 1, y, 0, 0, 0);
}

/// Moves the shooter at `*location` by `dir`, clamped to columns 1..=6,
/// erasing it and drawing it blue at its new place.
pub fn build_shooter(display: &mut Display, location: &mut usize, dir: i8)
    requires
        old(display).wf(),
        1 <= *old(location) <= 6,
        *old(location) + dir <= 127,
    ensures
        final(display).wf(),
        *final(location) == shooter_step(*old(location), dir),
        final(display)@ == move_shooter(old(display)@, *old(location), dir),
{
    let y: usize = SHOOTER_Y;
    clear_shooter(display, *location);
    let sum: i8 = (*location as i8) + dir;
    *location = sum as usize;
    proof {
        if sum < 0 {
            assert(sum < 0i8 ==> (sum as usize) > 6usize) by (bit_vector);
        } else {
            assert(sum >= 0i8 ==> (sum as usize) == sum) by (bit_vector);
        }
    }
    if *location > 6 {
        *location = 6;
    } else if *location < 1 {
        *location = 1;
    }
    store_pixel(display, *location - 1, y, 0, 0, 255);
    store_pixel(display, *location, y, 0, 0, 255);
    store_pixel(display, *location, y - 1, 0, 0, 255);
    store_pixel(display, *location + 1, y, 0, 0, 255);
}

/// Sets the alien's next move and direction of travel from its column `x`:
/// right from the left edge, left from the right edge, else on as it goes.
pub fn give_alien_dir(x: usize, dir: &mut i8, a_going_dir: &mut i8)
    ensures
        (*final(dir), *final(a_going_dir)) == alien_turn(x, *old(a_going_dir)),
{
    if x == 0 {
        *dir = 1;
        *a_going_dir = 1;
    } else if x == 7 {
        *dir = -1;
        *a_going_dir = -1;
    } else {
        *dir = *a_going_dir;
    }
}

/// Moves the alien at `*x` on the top row by `dir`, erasing it and drawing
/// it red at its new place.
pub fn build_alien(display: &mut Display, x: &mut usize, dir: i8)
    requires
        old(display).wf(),
        *old(x) < SIDE,
        0 <= *old(x) + dir < 8,
    ensures
        final(display).wf(),
        *final(x) == *old(x) + dir,
        final(display)@ == move_alien(old(display)@, *old(x), dir),
{
    store_pixel(display, *x, ALIEN_Y, 0, 0, 0);
    let sum: i8 = (*x as i8) + dir;
    *x = sum as usize;
    store_pixel(display, *x, ALIEN_Y, 255, 0, 0);
}

/// Turns off the pixels of columns 0 to 6 and rows 0 to 6, column by
/// column; the last column and the bottom row are left as they are.
pub fn clear_pattern(display: &mut Display)
    requires
        old(display).wf(),
    ensures
        final(display).wf(),
        final(display)@ == clear_block(old(display)@, 7),
{
    let ghost start = display@;
    let mut x: usize = 0;
    while x < 7
        invariant
            x <= 7,
            display.wf(),
            display@ == clear_block(start, x as nat),
        decreases 7 - x,
    {
        let ghost col_start = display@;
        let mut y: usize = 0;
        while y < 7
            invariant
                x < 7,
                y <= 7,
                display.wf(),
                col_start == clear_block(start, x as nat),
                display@ == clear_column_cells(col_start, x as int, y as nat),
            decreases 7 - y,
        {
            store_pixel(display, x, y, 0, 0, 0);
            y = y + 1;
        }
        x = x + 1;
    }
}

/// Shows the score on the bottom row: entry `i` at column `i`, blue for a
/// miss, green for a hit.
fn show_score(display: &mut Display, points: &[usize; 8])
    requires
        old(display).wf(),
        points.len() == MAX,
    ensures
        final(display).wf(),
        final(display)@ == draw_score(old(display)@, points@, 8),
{
    let ghost start = display@;
    let mut i: usize = 0;
    while i < MAX
        invariant
            i <= 8,
            points.len() == 8,
            display.wf(),
            display@ == draw_score(start, points@, i as nat),
        decreases 8 - i,
    {
        if points[i] == 0 {
            store_pixel(display, i, SHOOTER_Y, 0, 0, 255);
        } else {
            store_pixel(display, i, SHOOTER_Y, 0, 255, 0);
        }
        i = i + 1;
    }
}

/// Handles a button press: right and left set the shooter's next move; fire
/// launches a bullet from the shooter's column when the last one is done.
pub fn button_handler(game: &mut Game, status: u32)
    requires
        status == BUTTON_FIRE && old(game).shoot_done ==> old(game).bullet_used < usize::MAX,
    ensures
        final(game)@ == button_step(old(game)@, status),
{
    if status == BUTTON_RIGHT {
        game.shooter_dir = 1;
    } else if status == BUTTON_LEFT {
        game.shooter_dir = -1;
    } else if status == BUTTON_FIRE && game.shoot_done {
        game.bullet_build_b = true;
        game.bullet_x = game.shooter_x;
        game.bullet_y = BULLET_START_Y;
        game.shoot_done = false;
        game.bullet_used = game.bullet_used + 1;
    }
}

/// The display tick: while the game is on, moves and redraws the shooter and
/// the alien, draws a bullet in flight and scores one that reached the top;
/// once it is over, clears the 7x7 block and shows the score. Then it
/// refreshes exactly one line of the matrix, the one the counter names, and
/// moves the counter on to the next line.
pub fn tick_handler(game: &mut Game, display: &mut Display)
    requires
        old(display).wf(),
        tick_safe(old(game)@),
    ensures
        final(display).wf(),
        final(game)@ == tick_game(old(game)@),
        final(display)@ == tick_display(old(game)@, old(display)@),
        final(display)@.frame == tick_draw(old(game)@, old(display)@).frame,
        final(display)@.bus == old(display)@.bus + panel::column_ops(
            final(display)@.frame,
            old(display)@.line as int,
        ),
        final(display)@.line == (old(display)@.line + 1) % 8,
{
    if game.game_continue {
        build_shooter(display, &mut game.shooter_x, game.shooter_dir);
        game.shooter_dir = 0;
        build_alien(display, &mut game.alien_x, game.alien_dir);
        game.alien_dir = 0;
        if game.bullet_build_b {
            store_pixel(display, game.bullet_x, game.bullet_y, 0, 255, 0);
            if game.bullet_y == 0 {
                store_pixel(display, game.bullet_x, game.bullet_y, 0, 0, 0);
                game.shoot_done = true;
                if game.bullet_x == game.alien_x {
                    game.points[game.bullet_used - 1] = 1;
                } else {
                    game.points[game.bullet_used - 1] = 0;
                }
            }
        }
    } else {
        clear_pattern(display);
        show_score(display, &game.points);
    }
    proof {
        lemma_tick_draw_keeps_bus(old(game)@, old(display)@);
    }
    refresh_next_line(display);
}

/// The logic tick: moves the light on the board's LEDs; while the game is
/// on, turns the alien, moves a bullet up one row (turning off its old
/// place and refreshing that line), and at the top row is done with it, ending the game after the
/// last bullet.
pub fn tick_handler_1(game: &mut Game, display: &mut Display, light: &mut LedLight)
    requires
        old(display).wf(),
        logic_safe(old(game)@),
    ensures
        final(display).wf(),
        final(game)@ == logic_game(old(game)@),
        final(display)@ == logic_display(old(game)@, old(display)@),
        (final(light).leds, final(light).going_up) == blink::blink_next(
            old(light).leds,
            old(light).going_up,
        ),
{
    let (leds, going_up) = blinker_step(light.leds, light.going_up);
    light.leds = leds;
    light.going_up = going_up;
    if game.game_continue {
        give_alien_dir(game.alien_x, &mut game.alien_dir, &mut game.a_going_dir);
        if game.bullet_y != 0 {
            set_pixel(display, game.bullet_x, game.bullet_y, 0, 0, 0);
            game.bullet_y = game.bullet_y - 1;
        } else {
            game.bullet_build_b = false;
            if game.bullet_used == MAX {
                game.game_continue = false;
            }
        }
    }
}

} // verus!
