use led_engine::chase::{ChaseEngine, StripFault};
use led_engine::color::{colour_wheel, set_brightness, Pixel, SCALE_HALF, SCALE_ONE};
use led_engine::cycle::WheelEngine;

fn px(r: u8, g: u8, b: u8) -> Pixel {
    Pixel { r, g, b }
}

#[test]
fn chase_starts_dark() {
    let e = ChaseEngine::new(8);
    assert_eq!(e.frame().len(), 8);
    for p in e.frame() {
        assert_eq!(*p, px(0, 0, 0));
    }
    assert_eq!(e.index, 0);
    assert_eq!(e.phase, 0);
}

#[test]
fn chase_first_tick_writes_fresh_head() {
    let mut e = ChaseEngine::new(8);
    assert!(!e.pending);
    e.tick();
    // the computed frame awaits emission
    assert!(e.pending);
    // the phase advances to 4 before the head colour is taken
    assert_eq!(e.phase, 4);
    assert_eq!(e.frame()[0], px(121, 6, 0));
    for k in 1..8 {
        assert_eq!(e.frame()[k], px(0, 0, 0));
    }
    assert_eq!(e.index, 1);
}

#[test]
fn chase_head_sequence_follows_the_wheel() {
    // strip length 8: nine ticks from a dark buffer, phase advancing by 4,
    // put half-brightness wheel colours at positions 0, 1, ..., 7, 0
    let mut e = ChaseEngine::new(8);
    for t in 1..=9u32 {
        e.tick();
        let head = ((t - 1) % 8) as usize;
        let expected = set_brightness(colour_wheel((4 * t) as u8), SCALE_HALF);
        assert_eq!(e.frame()[head], expected);
        e.confirm_emitted(Ok(())).unwrap();
    }
}

#[test]
fn chase_trail_halves_each_tick() {
    let mut e = ChaseEngine::new(8);
    e.tick();
    assert_eq!(e.frame()[0], px(121, 6, 0));
    e.confirm_emitted(Ok(())).unwrap();
    e.tick();
    assert_eq!(e.frame()[0], px(60, 3, 0));
    e.confirm_emitted(Ok(())).unwrap();
    e.tick();
    assert_eq!(e.frame()[0], px(30, 1, 0));
    e.confirm_emitted(Ok(())).unwrap();
    e.tick();
    assert_eq!(e.frame()[0], px(15, 0, 0));
}

#[test]
fn chase_surfaces_emission_faults() {
    let mut e = ChaseEngine::new(8);
    e.tick();
    let r = e.confirm_emitted(Err(StripFault {}));
    assert_eq!(r, Err(StripFault {}));
    // the failed frame is over: the engine may compute the next one
    assert!(!e.pending);
    e.tick();
    assert_eq!(e.phase, 8);
}

#[test]
fn chase_nine_tick_scenario() {
    let mut e = ChaseEngine::new(8);
    for _ in 1..=8 {
        e.tick();
        e.confirm_emitted(Ok(())).unwrap();
    }
    // after eight ticks the tick-1 head colour at position 0 has been dimmed
    // down to the tick-1 wheel colour times 2^-8, which truncates to dark
    assert_eq!(e.frame()[0], px((243u32 >> 8) as u8, (12u32 >> 8) as u8, 0));
    assert_eq!(e.frame()[0], px(0, 0, 0));
    // the freshest head sits at position 7
    assert_eq!(e.frame()[7], set_brightness(colour_wheel(32), SCALE_HALF));
    // on the ninth tick the head wraps back onto position 0
    e.tick();
    assert_eq!(e.index, 1);
    assert_eq!(e.frame()[0], px(73, 54, 0));
    assert_eq!(e.frame()[0], set_brightness(colour_wheel(36), SCALE_HALF));
}

#[test]
fn wheel_engine_single_pixel_runs_the_wheel() {
    let mut e = WheelEngine::new(1, SCALE_HALF);
    e.step();
    assert_eq!(e.counter, 1);
    // counter 0: wheel position 0 at half brightness
    assert_eq!(e.frame()[0], px(127, 0, 0));
    e.confirm_emitted(Ok(())).unwrap();
    e.step();
    assert_eq!(e.counter, 2);
    assert_eq!(e.frame()[0], px(126, 1, 0));
}

#[test]
fn wheel_engine_spreads_pixels_over_the_wheel() {
    let mut e = WheelEngine::new(4, SCALE_ONE);
    e.step();
    // pixel i takes position i * 64 at counter 0, full brightness
    for i in 0..4 {
        assert_eq!(e.frame()[i], colour_wheel((i as u8) * 64));
    }
}

#[test]
fn wheel_engine_counter_wraps_after_five_turns() {
    let mut e = WheelEngine::new(1, SCALE_ONE);
    e.counter = 1279;
    e.step();
    assert_eq!(e.counter, 0);
    // counter 1279 reduces to wheel position 255
    assert_eq!(e.frame()[0], colour_wheel(255));
}

#[test]
fn wheel_engine_clamps_brightness() {
    let mut bright = WheelEngine::new(1, 1000);
    bright.step();
    assert_eq!(bright.frame()[0], colour_wheel(0));
    let mut dark = WheelEngine::new(1, -3);
    dark.step();
    assert_eq!(dark.frame()[0], px(0, 0, 0));
}
