use lib::blink::blinker_step;

#[test]
fn light_bounces_on_four_leds() {
    let mut leds: u32 = 1;
    let mut dir: u32 = 0;
    let mut seen = Vec::new();
    for _ in 0..8 {
        let (l, d) = blinker_step(leds, dir);
        leds = l;
        dir = d;
        seen.push(leds);
    }
    assert_eq!(seen, vec![2, 4, 8, 4, 2, 1, 2, 4]);
}

#[test]
fn light_turns_at_the_ends() {
    assert_eq!(blinker_step(1, 0), (2, 1));
    assert_eq!(blinker_step(8, 1), (4, 0));
    assert_eq!(blinker_step(4, 7), (2, 7));
    assert_eq!(blinker_step(2, 1), (4, 1));
}
