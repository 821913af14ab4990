//! Encoder acceleration.

use pedalboard::encoder_accel::EncoderAccel;


#[test]
fn first_detent_always_one_step() {
    let mut enc = EncoderAccel::new();
    assert_eq!(enc.steps(1000), 1);
}

#[test]
fn slow_turn_gives_one_step() {
    let mut enc = EncoderAccel::new();
    enc.steps(0);
    assert_eq!(enc.steps(200), 1);
    assert_eq!(enc.steps(500), 1);
}

#[test]
fn moderate_turn_gives_two_steps() {
    let mut enc = EncoderAccel::new();
    enc.steps(0);
    assert_eq!(enc.steps(80), 2);
    assert_eq!(enc.steps(150), 2); // 70ms since last
}

#[test]
fn fast_turn_gives_four_steps() {
    let mut enc = EncoderAccel::new();
    enc.steps(0);
    assert_eq!(enc.steps(30), 4);
}

#[test]
fn very_fast_turn_gives_eight_steps() {
    let mut enc = EncoderAccel::new();
    enc.steps(0);
    assert_eq!(enc.steps(10), 8);
    assert_eq!(enc.steps(15), 8); // 5ms since last
}

#[test]
fn reset_makes_next_return_one() {
    let mut enc = EncoderAccel::new();
    enc.steps(0);
    enc.steps(10); // 8 steps
    enc.reset();
    assert_eq!(enc.steps(20), 1); // first after reset
}

#[test]
fn acceleration_slows_down() {
    let mut enc = EncoderAccel::new();
    enc.steps(0);
    assert_eq!(enc.steps(10), 8); // fast burst
    assert_eq!(enc.steps(110), 1); // slowed down (100ms gap)
}

#[test]
fn encoder_accel_wrapping_timestamp() {
    let mut enc = EncoderAccel::new();
    enc.steps(u32::MAX - 10);
    // 20ms later (wraps)
    assert_eq!(enc.steps(9), 4); // wrapping_sub gives 20ms → but < 20 is 8...
                                 // Actually: MAX-10 to 9 = 20ms. interval < 20 → 8 steps? No, 20 is not < 20.
                                 // interval_ms = 9 - (MAX-10) wrapping = 9 + 11 = 20. 20 < 50 → 4 steps.
}
