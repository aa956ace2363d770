use lib::game::{
    build_alien, build_shooter, button_handler, clear_pattern, clear_shooter, give_alien_dir,
    tick_handler, tick_handler_1, Game, BUTTON_FIRE, BUTTON_LEFT, BUTTON_RIGHT, MAX,
};
use lib::blink::LedLight;
use lib::bus::BusOp;
use lib::panel::{set_pixel, store_pixel, Display};

const BLUE: (u8, u8, u8) = (0, 0, 255);
const GREEN: (u8, u8, u8) = (0, 255, 0);
const RED: (u8, u8, u8) = (255, 0, 0);
const DARK: (u8, u8, u8) = (0, 0, 0);

/// Accesses of one line refresh: 24 bytes of 8 bits, 3 accesses a bit,
/// the latch pulse, the line selection.
const REFRESH_LEN: usize = 24 * 8 * 3 + 3;

fn light() -> LedLight {
    LedLight { leds: 1, going_up: 0 }
}

fn filled(c: (u8, u8, u8)) -> Display {
    let mut d = Display::new();
    for x in 0..8 {
        for y in 0..8 {
            set_pixel(&mut d, x, y, c.0, c.1, c.2);
        }
    }
    d.take_bus();
    d
}

#[test]
fn new_game_starts_at_the_left() {
    let g = Game::new();
    assert!(g.game_continue);
    assert_eq!(g.points, [0; 8]);
    assert_eq!(g.bullet_used, 0);
    assert_eq!(g.shooter_x, 1);
    assert_eq!(g.alien_x, 0);
    assert_eq!(g.a_going_dir, 1);
    assert!(!g.bullet_build_b);
    assert!(g.shoot_done);
    assert_eq!(g.bullet_y, 5);
}

#[test]
fn buttons_set_moves_and_fire() {
    let mut g = Game::new();
    button_handler(&mut g, BUTTON_RIGHT);
    assert_eq!(g.shooter_dir, 1);
    button_handler(&mut g, BUTTON_LEFT);
    assert_eq!(g.shooter_dir, -1);
    g.shooter_x = 4;
    button_handler(&mut g, BUTTON_FIRE);
    assert!(g.bullet_build_b);
    assert_eq!(g.bullet_x, 4);
    assert_eq!(g.bullet_y, 5);
    assert_eq!(g.bullet_used, 1);
    assert!(!g.shoot_done);
    // a second press while the bullet flies does nothing
    g.bullet_y = 3;
    button_handler(&mut g, BUTTON_FIRE);
    assert_eq!(g.bullet_used, 1);
    assert_eq!(g.bullet_y, 3);
    // other statuses do nothing
    button_handler(&mut g, 0b1000);
    button_handler(&mut g, 0);
    assert_eq!(g.shooter_dir, -1);
    assert_eq!(g.bullet_used, 1);
}

#[test]
fn shooter_moves_and_is_redrawn() {
    let mut d = filled(RED);
    let mut loc: usize = 3;
    build_shooter(&mut d, &mut loc, 1);
    assert_eq!(loc, 4);
    assert_eq!(d.pixel(2, 7), DARK);
    assert_eq!(d.pixel(3, 7), BLUE);
    assert_eq!(d.pixel(4, 7), BLUE);
    assert_eq!(d.pixel(5, 7), BLUE);
    assert_eq!(d.pixel(4, 6), BLUE);
    assert_eq!(d.pixel(3, 6), DARK);
    assert_eq!(d.pixel(6, 7), RED);
}

#[test]
fn shooter_is_clamped_to_the_board() {
    let mut d = Display::new();
    let mut loc: usize = 1;
    build_shooter(&mut d, &mut loc, -1);
    assert_eq!(loc, 1);
    let mut loc: usize = 6;
    build_shooter(&mut d, &mut loc, 1);
    assert_eq!(loc, 6);
    let mut loc: usize = 6;
    build_shooter(&mut d, &mut loc, 100);
    assert_eq!(loc, 6);
    // a negative sum, taken as a column, is beyond the right edge
    let mut loc: usize = 1;
    build_shooter(&mut d, &mut loc, -2);
    assert_eq!(loc, 6);
    let mut loc: usize = 3;
    build_shooter(&mut d, &mut loc, -128);
    assert_eq!(loc, 6);
}

#[test]
fn clear_shooter_turns_off_four_pixels() {
    let mut d = filled(GREEN);
    clear_shooter(&mut d, 2);
    assert_eq!(d.pixel(1, 7), DARK);
    assert_eq!(d.pixel(2, 7), DARK);
    assert_eq!(d.pixel(2, 6), DARK);
    assert_eq!(d.pixel(3, 7), DARK);
    assert_eq!(d.pixel(1, 6), GREEN);
    assert_eq!(d.pixel(4, 7), GREEN);
}

#[test]
fn alien_turns_at_edges() {
    let mut dir: i8 = 0;
    let mut going: i8 = -1;
    give_alien_dir(0, &mut dir, &mut going);
    assert_eq!((dir, going), (1, 1));
    give_alien_dir(7, &mut dir, &mut going);
    assert_eq!((dir, going), (-1, -1));
    give_alien_dir(4, &mut dir, &mut going);
    assert_eq!((dir, going), (-1, -1));
    going = 1;
    give_alien_dir(5, &mut dir, &mut going);
    assert_eq!((dir, going), (1, 1));
}

#[test]
fn alien_moves_on_the_top_row() {
    let mut d = filled(GREEN);
    let mut x: usize = 3;
    build_alien(&mut d, &mut x, -1);
    assert_eq!(x, 2);
    assert_eq!(d.pixel(3, 0), DARK);
    assert_eq!(d.pixel(2, 0), RED);
    let mut x: usize = 5;
    build_alien(&mut d, &mut x, 0);
    assert_eq!(x, 5);
    assert_eq!(d.pixel(5, 0), RED);
}

#[test]
fn clear_pattern_leaves_last_column_and_row() {
    let mut d = filled(RED);
    clear_pattern(&mut d);
    for x in 0..8 {
        for y in 0..8 {
            let want = if x < 7 && y < 7 { DARK } else { RED };
            assert_eq!(d.pixel(x, y), want);
        }
    }
    // the frame only: no refresh
    assert!(d.take_bus().is_empty());
}

#[test]
fn bullet_at_top_scores_a_hit() {
    let mut d = Display::new();
    let mut g = Game::new();
    g.alien_x = 2;
    g.alien_dir = 0;
    g.bullet_build_b = true;
    g.bullet_x = 2;
    g.bullet_y = 0;
    g.bullet_used = 3;
    g.shoot_done = false;
    assert!(g.tick_in_bounds());
    tick_handler(&mut g, &mut d);
    assert_eq!(g.points, [0, 0, 1, 0, 0, 0, 0, 0]);
    assert!(g.shoot_done);
    // the bullet's last place is turned off, over the alien
    assert_eq!(d.pixel(2, 0), DARK);
}

#[test]
fn bullet_at_top_scores_a_miss() {
    let mut d = Display::new();
    let mut g = Game::new();
    g.points = [1; 8];
    g.alien_x = 3;
    g.alien_dir = -1;
    g.bullet_build_b = true;
    g.bullet_x = 4;
    g.bullet_y = 0;
    g.bullet_used = 8;
    tick_handler(&mut g, &mut d);
    assert_eq!(g.alien_x, 2);
    assert_eq!(g.alien_dir, 0);
    assert_eq!(g.points, [1, 1, 1, 1, 1, 1, 1, 0]);
    assert_eq!(d.pixel(2, 0), RED);
    assert_eq!(d.pixel(4, 0), DARK);
}

#[test]
fn bullet_in_flight_is_drawn_and_moves_up() {
    let mut d = Display::new();
    let mut g = Game::new();
    g.bullet_build_b = true;
    g.bullet_x = 3;
    g.bullet_y = 4;
    tick_handler(&mut g, &mut d);
    assert_eq!(d.pixel(3, 4), GREEN);
    assert!(g.logic_in_bounds());
    tick_handler_1(&mut g, &mut d, &mut light());
    assert_eq!(g.bullet_y, 3);
    assert_eq!(d.pixel(3, 4), DARK);
    assert_eq!(g.alien_dir, 1);
}

#[test]
fn last_bullet_ends_the_game() {
    let mut d = Display::new();
    let mut g = Game::new();
    g.bullet_build_b = true;
    g.bullet_y = 0;
    g.bullet_used = MAX;
    tick_handler_1(&mut g, &mut d, &mut light());
    assert!(!g.game_continue);
    assert!(!g.bullet_build_b);
    let mut g = Game::new();
    g.bullet_build_b = true;
    g.bullet_y = 0;
    g.bullet_used = 7;
    tick_handler_1(&mut g, &mut d, &mut light());
    assert!(g.game_continue);
    assert!(!g.bullet_build_b);
}

#[test]
fn game_over_shows_the_score() {
    let mut d = filled(RED);
    let mut g = Game::new();
    g.game_continue = false;
    g.points = [1, 0, 1, 0, 0, 0, 0, 1];
    tick_handler(&mut g, &mut d);
    let want = [GREEN, BLUE, GREEN, BLUE, BLUE, BLUE, BLUE, GREEN];
    for x in 0..8 {
        assert_eq!(d.pixel(x, 7), want[x]);
    }
    for x in 0..7 {
        for y in 0..7 {
            assert_eq!(d.pixel(x, y), DARK);
        }
    }
    for y in 0..7 {
        assert_eq!(d.pixel(7, y), RED);
    }
}

#[test]
fn game_over_is_final() {
    let mut d = Display::new();
    let mut g = Game::new();
    g.game_continue = false;
    g.bullet_y = 3;
    g.shooter_dir = 1;
    tick_handler_1(&mut g, &mut d, &mut light());
    assert!(d.take_bus().is_empty());
    tick_handler(&mut g, &mut d);
    tick_handler_1(&mut g, &mut d, &mut light());
    assert!(!g.game_continue);
    assert_eq!(g.bullet_y, 3);
    assert_eq!(g.shooter_x, 1);
    assert_eq!(g.shooter_dir, 1);
    button_handler(&mut g, BUTTON_FIRE);
    tick_handler(&mut g, &mut d);
    assert!(!g.game_continue);
    assert_eq!(g.points, [0; 8]);
}

#[test]
fn late_second_shot_puts_the_score_out_of_bounds() {
    let mut g = Game::new();
    g.bullet_build_b = true;
    g.bullet_y = 0;
    g.bullet_used = MAX + 1;
    assert!(!g.tick_in_bounds());
    g.bullet_used = MAX;
    assert!(g.tick_in_bounds());
}

#[test]
fn whole_game_fires_eight_bullets() {
    let mut d = Display::new();
    let mut g = Game::new();
    let mut ticks = 0;
    let mut fired_at = Vec::new();
    while g.game_continue {
        if g.shoot_done && !g.bullet_build_b {
            button_handler(&mut g, BUTTON_FIRE);
            fired_at.push(ticks);
        }
        button_handler(&mut g, if ticks % 3 == 0 { BUTTON_RIGHT } else { BUTTON_LEFT });
        assert!(g.logic_in_bounds());
        tick_handler_1(&mut g, &mut d, &mut light());
        assert!(g.tick_in_bounds());
        tick_handler(&mut g, &mut d);
        d.take_bus();
        assert!(1 <= g.shooter_x && g.shooter_x <= 6);
        assert!(g.alien_x <= 7);
        assert!(g.bullet_y <= 5);
        ticks += 1;
        assert!(ticks < 1000);
    }
    assert_eq!(g.bullet_used, MAX);
    assert!(g.points.iter().all(|p| *p <= 1));
    // five ticks up to the top row, one more until the next shot
    assert_eq!(fired_at, vec![0, 6, 12, 18, 24, 30, 36, 42]);
    assert_eq!(ticks, 48);
}

#[test]
fn firing_before_the_logic_tick_skips_the_game_end() {
    let mut d = Display::new();
    let mut g = Game::new();
    g.bullet_used = MAX;
    g.bullet_build_b = true;
    g.bullet_y = 0;
    g.shoot_done = false;
    // the display tick scores the last bullet and frees the fire button
    tick_handler(&mut g, &mut d);
    assert!(g.shoot_done);
    // a shot before the logic tick sees the bullet at the top
    button_handler(&mut g, BUTTON_FIRE);
    assert_eq!(g.bullet_used, MAX + 1);
    for _ in 0..5 {
        tick_handler_1(&mut g, &mut d, &mut light());
    }
    assert!(g.game_continue);
    assert_eq!(g.bullet_y, 0);
    // its score entry would be beyond the score
    assert!(!g.tick_in_bounds());
}

#[test]
fn game_drawing_stores_without_refresh() {
    let mut d = Display::new();
    let mut loc: usize = 3;
    build_shooter(&mut d, &mut loc, -1);
    let mut x: usize = 4;
    build_alien(&mut d, &mut x, 1);
    clear_shooter(&mut d, 2);
    store_pixel(&mut d, 6, 6, 1, 2, 3);
    assert!(d.take_bus().is_empty());
    assert_eq!(d.pixel(5, 0), RED);
    assert_eq!(d.pixel(6, 6), (1, 2, 3));
    assert_eq!(d.line(), 0);
}

#[test]
fn display_tick_refreshes_one_line_in_turn() {
    let mut d = Display::new();
    let mut g = Game::new();
    g.alien_dir = 1;
    for k in 0..10usize {
        assert_eq!(d.line(), k % 8);
        tick_handler(&mut g, &mut d);
        let ops = d.take_bus();
        assert_eq!(ops.len(), REFRESH_LEN);
        let lines: Vec<&BusOp> = ops.iter().filter(|op| matches!(op, BusOp::Channel(_))).collect();
        assert_eq!(lines, vec![&BusOp::Channel(1u8 << (k % 8))]);
        assert_eq!(*ops.last().unwrap(), BusOp::Channel(1u8 << (k % 8)));
    }
    assert_eq!(d.line(), 2);
}

#[test]
fn game_over_tick_refreshes_one_line() {
    let mut d = Display::new();
    let mut g = Game::new();
    g.game_continue = false;
    tick_handler(&mut g, &mut d);
    let ops = d.take_bus();
    assert_eq!(ops.len(), REFRESH_LEN);
    assert_eq!(*ops.last().unwrap(), BusOp::Channel(1));
    assert_eq!(d.line(), 1);
}

#[test]
fn logic_tick_moves_the_led_light() {
    let mut d = Display::new();
    let mut g = Game::new();
    let mut l = LedLight { leds: 1, going_up: 0 };
    let mut seen = Vec::new();
    for _ in 0..7 {
        tick_handler_1(&mut g, &mut d, &mut l);
        seen.push(l.leds);
    }
    assert_eq!(seen, vec![2, 4, 8, 4, 2, 1, 2]);
    // the light moves also once the game is over
    g.game_continue = false;
    tick_handler_1(&mut g, &mut d, &mut l);
    assert_eq!((l.leds, l.going_up), (4, 1));
}

#[test]
fn fired_bullet_is_scored_after_five_logic_ticks() {
    let mut d = Display::new();
    let mut g = Game::new();
    let mut l = light();
    g.alien_x = 3;
    g.a_going_dir = -1;
    button_handler(&mut g, BUTTON_FIRE);
    for k in 0..5 {
        tick_handler_1(&mut g, &mut d, &mut l);
        assert!(!g.shoot_done);
        tick_handler(&mut g, &mut d);
        if k < 4 {
            assert!(!g.shoot_done);
            tick_handler(&mut g, &mut d);
            button_handler(&mut g, BUTTON_FIRE);
            assert_eq!(g.bullet_used, 1);
        }
    }
    // alien: 3, then 2, 1, 0, 1, 2 after five turns and moves; bullet column 1
    assert!(g.shoot_done);
    assert!(g.game_continue);
    assert_eq!(g.alien_x, 2);
    assert_eq!(g.points, [0; 8]);
    button_handler(&mut g, BUTTON_FIRE);
    assert_eq!(g.bullet_used, 2);
}

#[test]
fn logic_tick_refreshes_the_bullets_old_line() {
    let mut d = filled(GREEN);
    let mut g = Game::new();
    g.bullet_build_b = true;
    g.bullet_x = 3;
    g.bullet_y = 4;
    tick_handler_1(&mut g, &mut d, &mut light());
    assert_eq!(d.pixel(3, 4), DARK);
    let ops = d.take_bus();
    assert_eq!(ops.len(), REFRESH_LEN);
    assert_eq!(*ops.last().unwrap(), BusOp::Channel(1 << 3));
    assert_eq!(d.line(), 0);
    // with the bullet at the top row nothing is drawn
    g.bullet_y = 0;
    tick_handler_1(&mut g, &mut d, &mut light());
    assert!(d.take_bus().is_empty());
}
