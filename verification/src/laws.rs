//! What holds of the game across events: the states it passes through, the
//! end of the game, the score, and what the display shows.
use vstd::prelude::*;
use crate::game;
use crate::bus;
use crate::game::{GameModel, MAX, BUTTON_FIRE, BUTTON_LEFT, BUTTON_RIGHT};
use crate::panel;
use crate::panel::{DisplayModel, FRAME_LEN};

verus! {

/// The shooter's new column is always on the board: 1 to 6. It is the
/// column the move leads to when that is on the board; a move past the
/// right edge stops at 6, one to column 0 stops at 1, and a negative sum,
/// taken as a column, is past the right edge.
pub proof fn lemma_shooter_stays_on_board(loc: usize, dir: i8)
    ensures
        1 <= game::shooter_step(loc, dir) <= 6,
        1 <= loc + dir <= 6 ==> game::shooter_step(loc, dir) == loc + dir,
        loc + dir > 6 ==> game::shooter_step(loc, dir) == 6,
        loc + dir == 0 ==> game::shooter_step(loc, dir) == 1,
        loc + dir < 0 ==> game::shooter_step(loc, dir) == 6,
{
}

/// A button press keeps a game's state well formed (as long as the count of
/// bullets fired does not overflow).
pub proof fn lemma_button_keeps_wf(g: GameModel, status: u32)
    requires
        g.wf(),
        status == BUTTON_FIRE && g.shoot_done ==> g.bullet_used < usize::MAX,
    ensures
        game::button_step(g, status).wf(),
{
}

/// On a well-formed state the logic tick stays on the board, and the
/// display tick does unless the bullet at the top row is numbered beyond
/// `MAX`.
pub proof fn lemma_wf_handlers_safe(g: GameModel)
    requires
        g.wf(),
    ensures
        game::logic_safe(g),
        game::tick_safe(g) <==> !(g.game_continue && g.bullet_build_b && g.bullet_y == 0
            && g.bullet_used > MAX),
{
}

/// The display tick keeps a game's state well formed: the shooter stays on
/// columns 1 to 6, the alien on the top row, the score zeros and ones.
pub proof fn lemma_tick_keeps_wf(g: GameModel)
    requires
        g.wf(),
        game::tick_safe(g),
    ensures
        game::tick_game(g).wf(),
{
    lemma_shooter_stays_on_board(g.shooter_x, g.shooter_dir);
    let t = game::tick_game(g);
    if g.game_continue && g.bullet_build_b && g.bullet_y == 0 {
        assert forall|i: int| 0 <= i < MAX implies #[trigger] t.points[i] <= 1 by {
            if i != g.bullet_used - 1 {
                assert(t.points[i] == g.points[i]);
            }
        }
    }
}

/// The logic tick keeps a game's state well formed: the alien turns away
/// from an edge it reaches, the bullet moves up to the top row.
pub proof fn lemma_logic_keeps_wf(g: GameModel)
    requires
        g.wf(),
    ensures
        game::logic_game(g).wf(),
{
}

/// Once the game is over it stays over: neither tick changes the game any
/// more, the logic tick leaves the display alone, and a button press
/// neither restarts the game nor touches the score.
pub proof fn lemma_game_over_is_final(g: GameModel, d: DisplayModel, status: u32)
    requires
        !g.game_continue,
    ensures
        game::tick_game(g) == g,
        game::logic_game(g) == g,
        game::logic_display(g, d) == d,
        !game::button_step(g, status).game_continue,
        game::button_step(g, status).points == g.points,
{
}

/// The game ends at the logic tick that finds the bullet at the top row and
/// `MAX` bullets fired, and at no other.
pub proof fn lemma_game_ends_after_last_bullet(g: GameModel)
    requires
        g.game_continue,
    ensures
        !game::logic_game(g).game_continue <==> (g.bullet_y == 0 && g.bullet_used == MAX),
{
}

/// A bullet is fired only when the last one is done, from the shooter's
/// column and the bullet's start row, and counts one more bullet.
pub proof fn lemma_fire(g: GameModel)
    requires
        g.bullet_used < usize::MAX,
    ensures
        g.shoot_done ==> {
            let f = game::button_step(g, BUTTON_FIRE);
            &&& f.bullet_build_b
            &&& f.bullet_x == g.shooter_x
            &&& f.bullet_y == game::BULLET_START_Y
            &&& !f.shoot_done
            &&& f.bullet_used == g.bullet_used + 1
        },
        !g.shoot_done ==> game::button_step(g, BUTTON_FIRE) == g,
{
}

/// At the display tick a bullet at the top row is scored in its own entry:
/// 1 when the alien, after its move, is in the bullet's column, else 0; the
/// other entries stay, and the next bullet may be fired. No other display
/// tick changes the score.
pub proof fn lemma_tick_scores_bullet(g: GameModel)
    requires
        game::tick_safe(g),
    ensures
        g.game_continue && g.bullet_build_b && g.bullet_y == 0 ==> {
            let t = game::tick_game(g);
            &&& t.points.len() == MAX
            &&& t.points[g.bullet_used - 1] == (if g.bullet_x == t.alien_x {
                1usize
            } else {
                0usize
            })
            &&& forall|i: int|
                0 <= i < MAX && i != g.bullet_used - 1 ==> #[trigger] t.points[i] == g.points[i]
            &&& t.shoot_done
        },
        !(g.game_continue && g.bullet_build_b && g.bullet_y == 0) ==> game::tick_game(g).points
            == g.points,
{
}

/// The count of bullets while the game is on: at most `MAX`, and at `MAX`
/// with the fire button free only while the last bullet, scored at the top
/// row, waits for the logic tick.
pub open spec fn count_in_range(g: GameModel) -> bool {
    g.game_continue ==> {
        &&& g.bullet_used <= MAX
        &&& (g.bullet_used == MAX && g.shoot_done ==> g.bullet_build_b && g.bullet_y == 0)
    }
}

/// A new game's count is in range.
pub proof fn lemma_new_game_count_in_range(g: GameModel)
    requires
        g.bullet_used == 0,
    ensures
        count_in_range(g),
{
}

/// Both ticks keep the count of bullets in range.
pub proof fn lemma_ticks_keep_count_in_range(g: GameModel)
    requires
        count_in_range(g),
    ensures
        count_in_range(game::tick_game(g)),
        count_in_range(game::logic_game(g)),
{
}

/// A button press keeps the count of bullets in range, except a fire press
/// while the game is on, the fire button is free and `MAX` bullets are
/// fired: the press that comes after the display tick has scored the last
/// bullet and before the logic tick has ended the game.
pub proof fn lemma_button_keeps_count_in_range(g: GameModel, status: u32)
    requires
        count_in_range(g),
        !(status == BUTTON_FIRE && g.game_continue && g.shoot_done && g.bullet_used == MAX),
    ensures
        count_in_range(game::button_step(g, status)),
{
}

/// With the count of bullets in range, the display tick stays on the board
/// from a well-formed state: the bullet scored is within the score.
pub proof fn lemma_count_in_range_tick_safe(g: GameModel)
    requires
        g.wf(),
        count_in_range(g),
    ensures
        game::tick_safe(g),
{
}

/// The right button sets the shooter's next move to one column right, the
/// left button to one column left, in every state; neither touches anything
/// else. A status of no button, or of two, changes nothing.
pub proof fn lemma_move_buttons(g: GameModel, status: u32)
    ensures
        game::button_step(g, BUTTON_RIGHT).shooter_dir == 1,
        game::button_step(g, BUTTON_LEFT).shooter_dir == -1,
        game::button_step(g, BUTTON_RIGHT) == (GameModel { shooter_dir: 1i8, ..g }),
        game::button_step(g, BUTTON_LEFT) == (GameModel { shooter_dir: -1i8, ..g }),
        status != BUTTON_RIGHT && status != BUTTON_LEFT && status != BUTTON_FIRE
            ==> game::button_step(g, status) == g,
{
}

/// In a game on, the display tick moves the shooter by its pending move and
/// uses the move up: the shooter goes one column in the move's direction
/// when that stays on columns 1 to 6, and stays put at an edge; the pending
/// move is 0 afterwards, so a second display tick without a press leaves
/// the shooter where it is. One press moves the shooter one column at most.
pub proof fn lemma_display_tick_moves_shooter_once(g: GameModel)
    requires
        g.game_continue,
        1 <= g.shooter_x <= 6,
        -1 <= g.shooter_dir <= 1,
    ensures
        game::tick_game(g).shooter_dir == 0,
        1 <= g.shooter_x + g.shooter_dir <= 6 ==> game::tick_game(g).shooter_x == g.shooter_x
            + g.shooter_dir,
        !(1 <= g.shooter_x + g.shooter_dir <= 6) ==> game::tick_game(g).shooter_x
            == g.shooter_x,
        -1 <= game::tick_game(g).shooter_x - g.shooter_x <= 1,
        game::tick_game(game::tick_game(g)).shooter_x == game::tick_game(g).shooter_x,
        game::tick_game(game::tick_game(g)).shooter_dir == 0,
{
}

/// In a game on, the display tick moves the alien by its pending move and
/// uses the move up; it neither moves nor launches a bullet, and changes
/// the score and the fire button only for a bullet at the top row.
pub proof fn lemma_display_tick_moves_alien_once(g: GameModel)
    requires
        g.game_continue,
        g.alien_x < 8,
        0 <= g.alien_x + g.alien_dir,
    ensures
        game::tick_game(g).alien_x == g.alien_x + g.alien_dir,
        game::tick_game(g).alien_dir == 0,
        game::tick_game(g).a_going_dir == g.a_going_dir,
        game::tick_game(g).bullet_x == g.bullet_x,
        game::tick_game(g).bullet_y == g.bullet_y,
        game::tick_game(g).bullet_build_b == g.bullet_build_b,
        game::tick_game(g).bullet_used == g.bullet_used,
        game::tick_game(g).game_continue,
        !(g.bullet_build_b && g.bullet_y == 0) ==> game::tick_game(g).shoot_done
            == g.shoot_done && game::tick_game(g).points == g.points,
{
}

/// The alien turns only at the edges: away from column 0 and from column 7,
/// and anywhere between it keeps its direction of travel; its next move is
/// always that direction.
pub proof fn lemma_alien_turns_only_at_edges(x: usize, going: i8)
    ensures
        game::alien_turn(x, going).0 == game::alien_turn(x, going).1,
        x == 0 ==> game::alien_turn(x, going).1 == 1,
        x == 7 ==> game::alien_turn(x, going).1 == -1,
        0 < x < 7 ==> game::alien_turn(x, going).1 == going,
        (going == 1 || going == -1) ==> (game::alien_turn(x, going).0 == 1
            || game::alien_turn(x, going).0 == -1),
        x <= 7 && (going == 1 || going == -1) ==> 0 <= x + game::alien_turn(x, going).0 <= 7,
{
}

/// In a game on, every logic tick turns the alien, whatever the bullet's
/// row: its next move and direction of travel are set from its column as
/// the alien's turn says, and it is not moved. The bullet moves up one row
/// when below the top, and is done with at the top, which ends the game
/// after `MAX` bullets; the shooter and the score are left alone.
pub proof fn lemma_logic_tick_turns_alien(g: GameModel)
    requires
        g.game_continue,
    ensures
        ({
            let l = game::logic_game(g);
            &&& (l.alien_dir, l.a_going_dir) == game::alien_turn(g.alien_x, g.a_going_dir)
            &&& g.alien_x == 0 ==> l.alien_dir == 1 && l.a_going_dir == 1
            &&& g.alien_x == 7 ==> l.alien_dir == -1 && l.a_going_dir == -1
            &&& 0 < g.alien_x < 7 ==> l.alien_dir == g.a_going_dir && l.a_going_dir
                == g.a_going_dir
            &&& l.alien_x == g.alien_x
            &&& l.shooter_x == g.shooter_x
            &&& l.shooter_dir == g.shooter_dir
            &&& l.points == g.points
            &&& l.bullet_x == g.bullet_x
            &&& l.bullet_used == g.bullet_used
            &&& l.shoot_done == g.shoot_done
            &&& g.bullet_y > 0 ==> l.bullet_y == g.bullet_y - 1 && l.bullet_build_b
                == g.bullet_build_b && l.game_continue
            &&& g.bullet_y == 0 ==> l.bullet_y == 0 && !l.bullet_build_b && (l.game_continue
                <==> g.bullet_used != MAX)
        }),
{
}

/// While the game is on, the logic tick that moves the bullet up turns its
/// old place off and refreshes that line at once; every other pixel stays.
/// Otherwise it leaves the display alone.
pub proof fn lemma_logic_tick_erases_bullet(g: GameModel, d: DisplayModel)
    requires
        d.frame.len() == FRAME_LEN,
        g.bullet_x < 8,
        g.bullet_y < 8,
    ensures
        ({
            let l = game::logic_display(g, d);
            let bx = g.bullet_x as int;
            let by = g.bullet_y as int;
            &&& g.game_continue && g.bullet_y != 0 ==> {
                &&& l.frame.len() == FRAME_LEN
                &&& panel::pixel_of(l.frame, bx, by) == (0u8, 0u8, 0u8)
                &&& forall|x2: int, y2: int|
                    0 <= x2 < 8 && 0 <= y2 < 8 && !(x2 == bx && y2 == by) ==> #[trigger] panel::pixel_of(
                        l.frame,
                        x2,
                        y2,
                    ) == panel::pixel_of(d.frame, x2, y2)
                &&& l.bus == d.bus + panel::column_ops(l.frame, bx)
                &&& l.line == d.line
            }
            &&& !(g.game_continue && g.bullet_y != 0) ==> l == d
        }),
{
    panel::lemma_paint_sets_one_pixel(d, g.bullet_x as int, g.bullet_y as int, 0, 0, 0);
}

/// The alien bounces along the whole top row: while the game is on, a logic
/// tick followed by a display tick moves it one column in its direction of
/// travel, from column 0 to the right and from column 7 to the left,
/// reaching both edges. (The logic tick that ends the game stops it.)
pub proof fn lemma_alien_bounces(g: GameModel)
    requires
        g.game_continue,
        g.bullet_y != 0 || g.bullet_used != MAX,
        g.alien_x <= 7,
        g.a_going_dir == 1 || g.a_going_dir == -1,
    ensures
        ({
            let n = game::tick_game(game::logic_game(g));
            &&& n.alien_x <= 7
            &&& g.alien_x == 0 ==> n.alien_x == 1 && n.a_going_dir == 1
            &&& g.alien_x == 7 ==> n.alien_x == 6 && n.a_going_dir == -1
            &&& 0 < g.alien_x < 7 ==> n.alien_x == g.alien_x + g.a_going_dir && n.a_going_dir
                == g.a_going_dir
        }),
{
    lemma_logic_tick_turns_alien(g);
    let l = game::logic_game(g);
    lemma_alien_turns_only_at_edges(g.alien_x, g.a_going_dir);
    lemma_display_tick_moves_alien_once(l);
}

proof fn lemma_clear_column_cells(d: DisplayModel, x: int, n: nat)
    requires
        d.frame.len() == FRAME_LEN,
        0 <= x < 8,
        n <= 8,
    ensures
        game::clear_column_cells(d, x, n).frame.len() == FRAME_LEN,
        forall|x2: int, y2: int|
            0 <= x2 < 8 && 0 <= y2 < 8 ==> #[trigger] panel::pixel_of(
                game::clear_column_cells(d, x, n).frame,
                x2,
                y2,
            ) == if x2 == x && y2 < n {
                (0u8, 0u8, 0u8)
            } else {
                panel::pixel_of(d.frame, x2, y2)
            },
    decreases n,
{
    if n > 0 {
        let p = game::clear_column_cells(d, x, (n - 1) as nat);
        lemma_clear_column_cells(d, x, (n - 1) as nat);
        panel::lemma_store_sets_one_pixel(p, x, n - 1, 0, 0, 0);
        assert forall|x2: int, y2: int| 0 <= x2 < 8 && 0 <= y2 < 8 implies #[trigger] panel::pixel_of(
            game::clear_column_cells(d, x, n).frame,
            x2,
            y2,
        ) == if x2 == x && y2 < n {
            (0u8, 0u8, 0u8)
        } else {
            panel::pixel_of(d.frame, x2, y2)
        } by {
            assert(panel::pixel_of(p.frame, x2, y2) == if x2 == x && y2 < n - 1 {
                (0u8, 0u8, 0u8)
            } else {
                panel::pixel_of(d.frame, x2, y2)
            });
        }
    }
}

/// The game-over pattern: the pixels of columns 0 to 6, rows 0 to 6, are
/// turned off; column 7 and row 7 are left as they are.
pub proof fn lemma_clear_block(d: DisplayModel, n: nat)
    requires
        d.frame.len() == FRAME_LEN,
        n <= 8,
    ensures
        game::clear_block(d, n).frame.len() == FRAME_LEN,
        forall|x2: int, y2: int|
            0 <= x2 < 8 && 0 <= y2 < 8 ==> #[trigger] panel::pixel_of(
                game::clear_block(d, n).frame,
                x2,
                y2,
            ) == if x2 < n && y2 < 7 {
                (0u8, 0u8, 0u8)
            } else {
                panel::pixel_of(d.frame, x2, y2)
            },
    decreases n,
{
    if n > 0 {
        let p = game::clear_block(d, (n - 1) as nat);
        lemma_clear_block(d, (n - 1) as nat);
        lemma_clear_column_cells(p, n - 1, 7);
        assert forall|x2: int, y2: int| 0 <= x2 < 8 && 0 <= y2 < 8 implies #[trigger] panel::pixel_of(
            game::clear_block(d, n).frame,
            x2,
            y2,
        ) == if x2 < n && y2 < 7 {
            (0u8, 0u8, 0u8)
        } else {
            panel::pixel_of(d.frame, x2, y2)
        } by {
            assert(panel::pixel_of(p.frame, x2, y2) == if x2 < n - 1 && y2 < 7 {
                (0u8, 0u8, 0u8)
            } else {
                panel::pixel_of(d.frame, x2, y2)
            });
        }
    }
}

/// Showing the score: entry `i` at column `i` of the bottom row, blue for a
/// miss and green for a hit; the other pixels stay.
pub proof fn lemma_draw_score(d: DisplayModel, points: Seq<usize>, n: nat)
    requires
        d.frame.len() == FRAME_LEN,
        n <= 8,
    ensures
        game::draw_score(d, points, n).frame.len() == FRAME_LEN,
        forall|x2: int, y2: int|
            0 <= x2 < 8 && 0 <= y2 < 8 ==> #[trigger] panel::pixel_of(
                game::draw_score(d, points, n).frame,
                x2,
                y2,
            ) == if y2 == 7 && x2 < n {
                game::score_colour(points[x2])
            } else {
                panel::pixel_of(d.frame, x2, y2)
            },
    decreases n,
{
    if n > 0 {
        let p = game::draw_score(d, points, (n - 1) as nat);
        let c = game::score_colour(points[n - 1]);
        lemma_draw_score(d, points, (n - 1) as nat);
        panel::lemma_store_sets_one_pixel(p, n - 1, 7, c.0, c.1, c.2);
        assert forall|x2: int, y2: int| 0 <= x2 < 8 && 0 <= y2 < 8 implies #[trigger] panel::pixel_of(
            game::draw_score(d, points, n).frame,
            x2,
            y2,
        ) == if y2 == 7 && x2 < n {
            game::score_colour(points[x2])
        } else {
            panel::pixel_of(d.frame, x2, y2)
        } by {
            assert(panel::pixel_of(p.frame, x2, y2) == if y2 == 7 && x2 < n - 1 {
                game::score_colour(points[x2])
            } else {
                panel::pixel_of(d.frame, x2, y2)
            });
        }
    }
}

/// Once the game is over, the display tick shows the score on the bottom
/// row (blue for a miss, green for a hit), with columns 0 to 6 of rows 0 to
/// 6 dark and column 7 above the bottom row as it was.
pub proof fn lemma_game_over_shows_score(g: GameModel, d: DisplayModel)
    requires
        !g.game_continue,
        d.frame.len() == FRAME_LEN,
    ensures
        game::tick_display(g, d).frame.len() == FRAME_LEN,
        forall|x: int|
            0 <= x < 8 ==> #[trigger] panel::pixel_of(game::tick_display(g, d).frame, x, 7)
                == game::score_colour(g.points[x]),
        forall|x: int, y: int|
            0 <= x < 7 && 0 <= y < 7 ==> #[trigger] panel::pixel_of(
                game::tick_display(g, d).frame,
                x,
                y,
            ) == (0u8, 0u8, 0u8),
        forall|y: int|
            0 <= y < 7 ==> #[trigger] panel::pixel_of(game::tick_display(g, d).frame, 7, y)
                == panel::pixel_of(d.frame, 7, y),
{
    let c = game::clear_block(d, 7);
    lemma_clear_block(d, 7);
    lemma_draw_score(c, g.points, 8);
    assert forall|x: int, y: int| 0 <= x < 7 && 0 <= y < 7 implies #[trigger] panel::pixel_of(
        game::tick_display(g, d).frame,
        x,
        y,
    ) == (0u8, 0u8, 0u8) by {
        assert(panel::pixel_of(c.frame, x, y) == (0u8, 0u8, 0u8));
    }
    assert forall|y: int| 0 <= y < 7 implies #[trigger] panel::pixel_of(
        game::tick_display(g, d).frame,
        7,
        y,
    ) == panel::pixel_of(d.frame, 7, y) by {
        assert(panel::pixel_of(c.frame, 7, y) == panel::pixel_of(d.frame, 7, y));
    }
}

/// While the game is on, after the display tick the shooter is shown blue
/// at its new column (three pixels of the bottom row and the one above its
/// centre), and the alien red at its new column of the top row, unless the
/// bullet reached the top row in that column, which leaves it dark; a
/// bullet in flight below the top row is shown green.
pub proof fn lemma_tick_shows_pieces(g: GameModel, d: DisplayModel)
    requires
        g.wf(),
        g.game_continue,
        d.frame.len() == FRAME_LEN,
    ensures
        ({
            let f = game::tick_display(g, d).frame;
            let sx = game::tick_game(g).shooter_x as int;
            let ax = game::tick_game(g).alien_x as int;
            let hit = g.bullet_build_b && g.bullet_y == 0 && g.bullet_x == ax;
            &&& f.len() == FRAME_LEN
            &&& panel::pixel_of(f, sx - 1, 7) == (0u8, 0u8, 255u8)
            &&& panel::pixel_of(f, sx, 7) == (0u8, 0u8, 255u8)
            &&& panel::pixel_of(f, sx, 6) == (0u8, 0u8, 255u8)
            &&& panel::pixel_of(f, sx + 1, 7) == (0u8, 0u8, 255u8)
            &&& panel::pixel_of(f, ax, 0) == (if hit {
                (0u8, 0u8, 0u8)
            } else {
                (255u8, 0u8, 0u8)
            })
            &&& g.bullet_build_b && g.bullet_y > 0 ==> panel::pixel_of(
                f,
                g.bullet_x as int,
                g.bullet_y as int,
            ) == (0u8, 255u8, 0u8)
            &&& forall|x2: int, y2: int|
                0 <= x2 < 8 && 0 <= y2 < 8 && shooter_cell(g.shooter_x as int, x2, y2)
                    && !shooter_cell(sx, x2, y2) ==> #[trigger] panel::pixel_of(f, x2, y2) == (
                    0u8,
                    0u8,
                    0u8,
                )
            &&& g.alien_x != ax ==> panel::pixel_of(f, g.alien_x as int, 0) == (0u8, 0u8, 0u8)
        }),
{
    let loc = g.shooter_x as int;
    let sx = game::shooter_step(g.shooter_x, g.shooter_dir) as int;
    let ax = g.alien_x + g.alien_dir;
    lemma_shooter_stays_on_board(g.shooter_x, g.shooter_dir);
    let e = game::draw_shooter(d, loc, 0, 0, 0);
    let s = game::draw_shooter(e, sx, 0, 0, 255);
    let a = game::move_alien(s, g.alien_x, g.alien_dir);
    lemma_draw_shooter_frame(d, loc, 0, 0, 0);
    lemma_draw_shooter_frame(e, sx, 0, 0, 255);
    lemma_move_alien_frame(s, g.alien_x, g.alien_dir);
    if g.bullet_build_b {
        let bx = g.bullet_x as int;
        let by = g.bullet_y as int;
        let b1 = panel::stored(a, bx, by, 0, 255, 0);
        panel::lemma_store_sets_one_pixel(a, bx, by, 0, 255, 0);
        if by == 0 {
            panel::lemma_store_sets_one_pixel(b1, bx, by, 0, 0, 0);
        }
    }
    let f = game::tick_display(g, d).frame;
    assert forall|x2: int, y2: int|
        0 <= x2 < 8 && 0 <= y2 < 8 && shooter_cell(loc, x2, y2) && !shooter_cell(
            sx,
            x2,
            y2,
        ) implies #[trigger] panel::pixel_of(f, x2, y2) == (0u8, 0u8, 0u8) by {
        assert(panel::pixel_of(f, x2, y2) == panel::pixel_of(a.frame, x2, y2));
        assert(panel::pixel_of(a.frame, x2, y2) == panel::pixel_of(s.frame, x2, y2));
        assert(panel::pixel_of(s.frame, x2, y2) == panel::pixel_of(e.frame, x2, y2));
    }
}

/// The display tick drives the matrix for exactly one line: it appends the
/// refresh of the line its counter names (that line's 24 colour bytes from
/// the frame as drawn, most significant bit first, the latch pulse, and
/// then its one write of the line-select register, selecting that line
/// alone), and moves the counter on to the next line.
pub proof fn lemma_display_tick_refreshes_one_line(g: GameModel, d: DisplayModel, v: u8)
    requires
        d.frame.len() == FRAME_LEN,
        d.line < 8,
        game::tick_safe(g),
    ensures
        ({
            let t = game::tick_display(g, d);
            let added = panel::column_ops(t.frame, d.line as int);
            &&& t.frame.len() == FRAME_LEN
            &&& t.bus == d.bus + added
            &&& t.line == (d.line + 1) % 8
            &&& added.last() == bus::BusOp::Channel(panel::line_select(d.line as int))
            &&& forall|i: int| 0 <= i < added.len() - 1 ==> !(#[trigger] added[i] is Channel)
            &&& bus::clocked_bits(added, v) == bus::bytes_bits(
                panel::column_bytes(t.frame, d.line as int),
            )
        }),
{
    game::lemma_tick_draw_keeps_bus(g, d);
    let t = game::tick_display(g, d);
    if !g.game_continue {
        lemma_clear_block(d, 7);
        lemma_draw_score(game::clear_block(d, 7), g.points, 8);
    } else {
        lemma_shooter_stays_on_board(g.shooter_x, g.shooter_dir);
        let d1 = game::move_shooter(d, g.shooter_x, g.shooter_dir);
        lemma_draw_shooter_frame(d, g.shooter_x as int, 0, 0, 0);
        lemma_draw_shooter_frame(
            game::draw_shooter(d, g.shooter_x as int, 0, 0, 0),
            game::shooter_step(g.shooter_x, g.shooter_dir) as int,
            0,
            0,
            255,
        );
        lemma_move_alien_frame(d1, g.alien_x, g.alien_dir);
        let d2 = game::move_alien(d1, g.alien_x, g.alien_dir);
        if g.bullet_build_b {
            panel::lemma_store_sets_one_pixel(d2, g.bullet_x as int, g.bullet_y as int, 0, 255, 0);
            let d3 = panel::stored(d2, g.bullet_x as int, g.bullet_y as int, 0, 255, 0);
            panel::lemma_store_sets_one_pixel(d3, g.bullet_x as int, g.bullet_y as int, 0, 0, 0);
        }
    }
    assert(t.frame.len() == FRAME_LEN);
    panel::lemma_refresh_clocks_column(t.frame, d.line as int, v);
}

/// The shooter's cells around column `loc`: three of the bottom row and
/// the one above its centre.
pub open spec fn shooter_cell(loc: int, x: int, y: int) -> bool {
    (y == 7 && loc - 1 <= x <= loc + 1) || (y == 6 && x == loc)
}

/// Drawing the shooter gives its four cells the colour and leaves every
/// other pixel as it was.
pub proof fn lemma_draw_shooter_frame(d: DisplayModel, loc: int, r: u8, g: u8, b: u8)
    requires
        d.frame.len() == FRAME_LEN,
        1 <= loc <= 6,
    ensures
        game::draw_shooter(d, loc, r, g, b).frame.len() == FRAME_LEN,
        forall|x2: int, y2: int|
            0 <= x2 < 8 && 0 <= y2 < 8 ==> #[trigger] panel::pixel_of(
                game::draw_shooter(d, loc, r, g, b).frame,
                x2,
                y2,
            ) == if shooter_cell(loc, x2, y2) {
                (r, g, b)
            } else {
                panel::pixel_of(d.frame, x2, y2)
            },
{
    let d1 = panel::stored(d, loc - 1, 7, r, g, b);
    let d2 = panel::stored(d1, loc, 7, r, g, b);
    let d3 = panel::stored(d2, loc, 6, r, g, b);
    panel::lemma_store_sets_one_pixel(d, loc - 1, 7, r, g, b);
    panel::lemma_store_sets_one_pixel(d1, loc, 7, r, g, b);
    panel::lemma_store_sets_one_pixel(d2, loc, 6, r, g, b);
    panel::lemma_store_sets_one_pixel(d3, loc + 1, 7, r, g, b);
}

/// Moving the alien turns its old place off and draws it red at its new
/// place on the top row; every other pixel stays.
pub proof fn lemma_move_alien_frame(d: DisplayModel, x: usize, dir: i8)
    requires
        d.frame.len() == FRAME_LEN,
        x < 8,
        0 <= x + dir < 8,
    ensures
        game::move_alien(d, x, dir).frame.len() == FRAME_LEN,
        forall|x2: int, y2: int|
            0 <= x2 < 8 && 0 <= y2 < 8 ==> #[trigger] panel::pixel_of(
                game::move_alien(d, x, dir).frame,
                x2,
                y2,
            ) == if y2 == 0 && x2 == x + dir {
                (255u8, 0u8, 0u8)
            } else if y2 == 0 && x2 == x {
                (0u8, 0u8, 0u8)
            } else {
                panel::pixel_of(d.frame, x2, y2)
            },
{
    let d1 = panel::stored(d, x as int, 0, 0, 0, 0);
    panel::lemma_store_sets_one_pixel(d, x as int, 0, 0, 0, 0);
    panel::lemma_store_sets_one_pixel(d1, x + dir, 0, 255, 0, 0);
}

/// An event of the game.
pub enum Event {
    /// A button press with this status.
    Button(u32),
    /// The display tick.
    DisplayTick,
    /// The logic tick.
    LogicTick,
}

/// The game after `e`.
pub open spec fn game_event(g: GameModel, e: Event) -> GameModel {
    match e {
        Event::Button(status) => game::button_step(g, status),
        Event::DisplayTick => game::tick_game(g),
        Event::LogicTick => game::logic_game(g),
    }
}

/// The game after `events`, in order.
pub open spec fn run_events(g: GameModel, events: Seq<Event>) -> GameModel
    decreases events.len(),
{
    if events.len() == 0 {
        g
    } else {
        run_events(game_event(g, events[0]), events.drop_first())
    }
}

/// The number of logic ticks among `events`.
pub open spec fn logic_ticks(events: Seq<Event>) -> nat
    decreases events.len(),
{
    if events.len() == 0 {
        0
    } else {
        (if events[0] is LogicTick {
            1nat
        } else {
            0nat
        }) + logic_ticks(events.drop_first())
    }
}

/// Every event of `events` is a button press.
pub open spec fn buttons_only(events: Seq<Event>) -> bool {
    forall|i: int| 0 <= i < events.len() ==> #[trigger] events[i] is Button
}

/// A bullet is in flight and not yet scored, in a game on, and it has its
/// entry in the score.
pub open spec fn in_flight(g: GameModel) -> bool {
    &&& g.game_continue
    &&& g.bullet_build_b
    &&& !g.shoot_done
    &&& 1 <= g.bullet_used <= MAX
    &&& g.points.len() == MAX
}

/// Running one event.
pub proof fn lemma_run_single(g: GameModel, e: Event)
    ensures
        run_events(g, seq![e]) == game_event(g, e),
{
    let s = seq![e];
    assert(s[0] == e);
    assert(s.drop_first() =~= Seq::<Event>::empty());
    assert(run_events(game_event(g, e), s.drop_first()) == game_event(g, e));
}

/// Running events one after the other.
pub proof fn lemma_run_events_append(g: GameModel, a: Seq<Event>, b: Seq<Event>)
    ensures
        run_events(g, a + b) == run_events(run_events(g, a), b),
    decreases a.len(),
{
    if a.len() == 0 {
        assert(a + b =~= b);
    } else {
        assert((a + b).drop_first() =~= a.drop_first() + b);
        assert((a + b)[0] == a[0]);
        lemma_run_events_append(game_event(g, a[0]), a.drop_first(), b);
    }
}

/// While a bullet is in flight, events with fewer logic ticks than its row
/// leave it in flight in its column, move it up one row per logic tick, and
/// leave the score and the bullet count alone: neither the display tick nor
/// a button press moves or scores it.
pub proof fn lemma_bullet_flies(g: GameModel, events: Seq<Event>)
    requires
        in_flight(g),
        logic_ticks(events) < g.bullet_y,
    ensures
        in_flight(run_events(g, events)),
        run_events(g, events).bullet_y == g.bullet_y - logic_ticks(events),
        run_events(g, events).bullet_x == g.bullet_x,
        run_events(g, events).bullet_used == g.bullet_used,
        run_events(g, events).points == g.points,
    decreases events.len(),
{
    if events.len() > 0 {
        lemma_bullet_flies(game_event(g, events[0]), events.drop_first());
    }
}

/// Button presses alone, while a bullet is in flight, change at most the
/// shooter's next move.
proof fn lemma_buttons_keep_bullet(g: GameModel, events: Seq<Event>)
    requires
        !g.shoot_done,
        buttons_only(events),
    ensures
        run_events(g, events) == (GameModel {
            shooter_dir: run_events(g, events).shooter_dir,
            ..g
        }),
    decreases events.len(),
{
    if events.len() > 0 {
        assert(events[0] is Button);
        assert(buttons_only(events.drop_first())) by {
            assert forall|i: int| 0 <= i < events.drop_first().len() implies #[trigger] events.drop_first()[i] is Button by {
                assert(events.drop_first()[i] == events[i + 1]);
            }
        }
        lemma_buttons_keep_bullet(game_event(g, events[0]), events.drop_first());
    }
}

/// A bullet in flight is scored at the first display tick after the logic
/// tick that brings it to the top row, whatever events come before: its
/// score entry is 1 when the alien, after its move in that tick, is in the
/// bullet's column, else 0; the other entries stay; the game goes on and
/// the fire button is free again.
pub proof fn lemma_bullet_is_scored(
    g: GameModel,
    before: Seq<Event>,
    between: Seq<Event>,
)
    requires
        in_flight(g),
        g.bullet_y >= 1,
        logic_ticks(before) == g.bullet_y - 1,
        buttons_only(between),
    ensures
        ({
            let r = run_events(
                g,
                before + seq![Event::LogicTick] + between + seq![Event::DisplayTick],
            );
            &&& r.game_continue
            &&& r.shoot_done
            &&& r.bullet_used == g.bullet_used
            &&& r.points[g.bullet_used - 1] == (if g.bullet_x == r.alien_x {
                1usize
            } else {
                0usize
            })
            &&& forall|i: int|
                0 <= i < MAX && i != g.bullet_used - 1 ==> #[trigger] r.points[i] == g.points[i]
        }),
{
    let g1 = run_events(g, before);
    lemma_bullet_flies(g, before);
    let g2 = game::logic_game(g1);
    lemma_run_single(g1, Event::LogicTick);
    let g3 = run_events(g2, between);
    lemma_buttons_keep_bullet(g2, between);
    let r = game::tick_game(g3);
    lemma_run_single(g3, Event::DisplayTick);
    lemma_run_events_append(g, before, seq![Event::LogicTick]);
    lemma_run_events_append(g, before + seq![Event::LogicTick], between);
    lemma_run_events_append(
        g,
        before + seq![Event::LogicTick] + between,
        seq![Event::DisplayTick],
    );
}

/// A shot fired while the fire button is free, in a game on with fewer
/// than `MAX` bullets fired, is scored at the first display tick after the
/// fifth logic tick that follows, whatever else comes between: in its own
/// entry of the score (the entry of the bullets fired before it), 1 when
/// the alien is then in its column, else 0; the game goes on and the next
/// shot can be fired. The score has its `MAX` entries in every game.
pub proof fn lemma_fired_bullet_is_scored(
    g: GameModel,
    before: Seq<Event>,
    between: Seq<Event>,
)
    requires
        g.points.len() == MAX,
        g.game_continue,
        g.shoot_done,
        g.bullet_used < MAX,
        logic_ticks(before) == 4,
        buttons_only(between),
    ensures
        ({
            let r = run_events(
                g,
                seq![Event::Button(BUTTON_FIRE)] + before + seq![Event::LogicTick] + between
                    + seq![Event::DisplayTick],
            );
            &&& r.game_continue
            &&& r.shoot_done
            &&& r.bullet_used == g.bullet_used + 1
            &&& r.points[g.bullet_used as int] == (if g.shooter_x == r.alien_x {
                1usize
            } else {
                0usize
            })
            &&& forall|i: int|
                0 <= i < MAX && i != g.bullet_used ==> #[trigger] r.points[i] == g.points[i]
            &&& game::button_step(r, BUTTON_FIRE).bullet_used == r.bullet_used + 1
        }),
{
    let f = game::button_step(g, BUTTON_FIRE);
    lemma_run_single(g, Event::Button(BUTTON_FIRE));
    let rest = before + seq![Event::LogicTick] + between + seq![Event::DisplayTick];
    lemma_run_events_append(g, seq![Event::Button(BUTTON_FIRE)], rest);
    assert(seq![Event::Button(BUTTON_FIRE)] + before + seq![Event::LogicTick] + between
        + seq![Event::DisplayTick] =~= seq![Event::Button(BUTTON_FIRE)] + rest);
    lemma_bullet_is_scored(f, before, between);
}

} // verus!
