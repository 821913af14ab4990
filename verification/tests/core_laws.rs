//! What holds of the parts by themselves, on concrete values.

use pedalboard::action::{
    action_to_midi, analog_cc, analog_cc_calibrated, encoder_cc, execute_button_press,
    EncoderDirection,
};
use pedalboard::bounded::BoundedVec;
use pedalboard::config::{
    default_adc_max, default_bpm, default_threshold, default_true, default_value_max, Action,
    AnalogConfig, ButtonConfig, ButtonMode, Color, Config, DefaultConfig, DefaultPreset,
    EncoderAction, EncoderConfig, GlobalConfig, Label, LedAnimation, LedConfig, LedRenderer,
    ListenMode, SystemCommand,
};
use pedalboard::encoder_accel::EncoderAccel;
use pedalboard::led::{LedRing, Modifier, Renderer, Rgb, RingAnimation};
use pedalboard::long_press::{Edge, Gesture, LongPressDetector};
use pedalboard::property_exchange::{
    build_set_inquiry, build_set_reply, extract_body, is_ci_message, is_set_property, request_id,
    source_muid,
};
use pedalboard::routing::{MidiOut, MidiPort};
use pedalboard::tap_tempo::TapTempo;

// --- Lists ---

#[test]
fn a_full_list_hands_the_item_back() {
    let mut list: BoundedVec<u8, 2> = BoundedVec::new();
    assert_eq!(list.push(1), Ok(()));
    assert_eq!(list.push(2), Ok(()));
    assert_eq!(list.push(3), Err(3));
    assert_eq!(list.as_slice(), &[1, 2]);
}

#[test]
fn push_all_keeps_what_fits() {
    let mut list: BoundedVec<u8, 4> = BoundedVec::new();
    list.push_all(&[1, 2]);
    list.push_all(&[3, 4, 5, 6]);
    assert_eq!(list.as_slice(), &[1, 2, 3, 4]);
    list.clear();
    assert!(list.is_empty());
}

#[test]
fn lists_compare_by_their_items() {
    let mut a: BoundedVec<u8, 4> = BoundedVec::default();
    a.push_all(&[1, 2]);
    let b = a.clone();
    assert!(a == b);
    a.push_all(&[3]);
    assert!(a != b);
}

// --- Configuration ---

#[test]
fn status_bytes_hold_kind_and_channel() {
    assert_eq!(Action::cc(7, 100, 16), Some(Action::Midi { data: [0xBF, 7, 100], len: 3 }));
    assert_eq!(Action::program_change(5, 3), Some(Action::Midi { data: [0xC2, 5, 0], len: 2 }));
    assert_eq!(Action::note_on(60, 1), Some(Action::Midi { data: [0x90, 60, 127], len: 3 }));
    assert_eq!(Action::note_off(60, 10), Some(Action::Midi { data: [0x89, 60, 0], len: 3 }));
}

#[test]
fn constructors_reject_data_bytes_over_127() {
    assert_eq!(Action::cc(128, 0, 1), None);
    assert_eq!(Action::cc(0, 128, 1), None);
    assert_eq!(Action::program_change(128, 1), None);
    assert_eq!(Action::note_on(128, 1), None);
    assert_eq!(Action::note_off(128, 1), None);
    assert_eq!(Action::note_off(60, 0), None);
    assert_eq!(Action::note_off(60, 17), None);
}

#[test]
fn system_commands_roundtrip() {
    for command in [SystemCommand::Reboot, SystemCommand::Bootloader, SystemCommand::FactoryReset] {
        assert_eq!(SystemCommand::from_byte(command.to_byte()), Some(command));
    }
    assert_eq!(SystemCommand::FactoryReset.to_byte(), 3);
    assert_eq!(SystemCommand::from_byte(0), None);
    assert_eq!(SystemCommand::from_byte(4), None);
}

#[test]
fn defaults_of_the_configuration() {
    assert!(default_true());
    assert_eq!(default_bpm(), 120);
    assert_eq!(default_adc_max(), 3750);
    assert_eq!(default_value_max(), 127);
    assert_eq!(default_threshold(), 64);
    assert_eq!(ListenMode::default(), ListenMode::Heatmap);
    assert_eq!(ButtonMode::default(), ButtonMode::Momentary);
    assert_eq!(Color::default(), Color::Off);
    assert_eq!(LedAnimation::default(), LedAnimation::Solid);
    assert_eq!(LedRenderer::default(), LedRenderer::Solid);
    assert_eq!(LedConfig::default().renderer_param, 0);
    let config: DefaultConfig = Config::default();
    assert!(config.presets.is_empty());
    assert_eq!(config.global, GlobalConfig::default());
    let preset = DefaultPreset::default();
    assert_eq!(preset.name.as_str(), "");
    assert!(preset.buttons.is_empty() && preset.triggers.is_empty());
    assert!(preset.clone() == preset);
}

#[test]
fn tick_interval_at_the_ends_of_the_range() {
    let slow = GlobalConfig { bpm: 30, ..Default::default() };
    assert_eq!(slow.tick_interval_us(), 83_333);
    let fast = GlobalConfig { bpm: 300, ..Default::default() };
    assert_eq!(fast.tick_interval_us(), 8_333);
    let fastest = GlobalConfig { bpm: u16::MAX, ..Default::default() };
    assert_eq!(fastest.tick_interval_us(), 38);
}

// --- Actions ---

fn encoder_preset(min: u8, max: u8) -> DefaultPreset {
    let mut preset = DefaultPreset::default();
    preset
        .encoders
        .push(EncoderConfig {
            label: Label::try_from("Vol").unwrap(),
            action: EncoderAction::Cc { cc: 7, channel: 1, min, max },
        })
        .ok();
    preset
        .encoders
        .push(EncoderConfig {
            label: Label::try_from("Scroll").unwrap(),
            action: EncoderAction::PresetScroll,
        })
        .ok();
    preset
}

#[test]
fn an_encoder_stays_in_its_range() {
    let preset = encoder_preset(10, 20);
    let mut value = 15u8;
    for _ in 0..30 {
        encoder_cc(&preset, 0, EncoderDirection::Clockwise, &mut value);
        assert!((10..=20).contains(&value));
    }
    assert_eq!(value, 20);
    for _ in 0..30 {
        encoder_cc(&preset, 0, EncoderDirection::CounterClockwise, &mut value);
        assert!((10..=20).contains(&value));
    }
    assert_eq!(value, 10);
}

#[test]
fn a_pulse_brings_an_encoder_into_its_range() {
    let preset = encoder_preset(10, 20);
    let mut value = 200u8;
    encoder_cc(&preset, 0, EncoderDirection::Clockwise, &mut value);
    assert_eq!(value, 20);
    value = 3;
    encoder_cc(&preset, 0, EncoderDirection::CounterClockwise, &mut value);
    assert_eq!(value, 10);
}

#[test]
fn a_scrolling_encoder_sends_nothing() {
    let preset = encoder_preset(0, 127);
    let mut value = 64u8;
    assert!(encoder_cc(&preset, 1, EncoderDirection::Clockwise, &mut value).is_none());
    assert_eq!(value, 64);
}

#[test]
fn a_long_cc_number_keeps_its_low_byte() {
    let mut preset = DefaultPreset::default();
    preset
        .encoders
        .push(EncoderConfig {
            label: Label::new(),
            action: EncoderAction::Cc { cc: 0x0107, channel: 2, min: 0, max: 127 },
        })
        .ok();
    let mut value = 0u8;
    let msg = encoder_cc(&preset, 0, EncoderDirection::Clockwise, &mut value).unwrap();
    assert_eq!(msg.data, [0xB1, 7, 1]);
}

fn pedal(min: u8, max: u8) -> DefaultPreset {
    let mut preset = DefaultPreset::default();
    preset
        .analog
        .push(AnalogConfig { label: Label::new(), cc: 11, channel: 1, min, max })
        .ok();
    preset
}

#[test]
fn a_pedal_reaches_both_ends_and_never_falls() {
    let preset = pedal(20, 100);
    let value = |raw: u16| analog_cc_calibrated(&preset, 0, raw, 200, 3700).unwrap().data[2];
    assert_eq!(value(0), 20);
    assert_eq!(value(200), 20);
    assert_eq!(value(1950), 60);
    assert_eq!(value(3700), 100);
    assert_eq!(value(u16::MAX), 100);
    let mut last = 0;
    for raw in (0..4096).step_by(16) {
        assert!(value(raw) >= last);
        last = value(raw);
    }
}

#[test]
fn a_reading_over_the_maximum_counts_as_the_maximum() {
    let preset = pedal(0, 127);
    assert_eq!(analog_cc(&preset, 0, 4095, 3750).unwrap().data, [0xB0, 11, 127]);
}

#[test]
fn a_button_press_skips_what_is_no_message() {
    let mut preset = DefaultPreset::default();
    let mut on_press = BoundedVec::new();
    on_press.push(Action::Delay(10)).ok();
    on_press.push(Action::Midi { data: [0xF8, 0, 0], len: 1 }).ok();
    on_press.push(Action::PresetNext).ok();
    on_press.push(Action::NoteOff { note: 61, channel: 2 }).ok();
    preset
        .buttons
        .push(ButtonConfig {
            label: Label::new(),
            color: LedConfig::default(),
            mode: ButtonMode::Momentary,
            on_press,
            on_release: BoundedVec::new(),
            on_long_press: BoundedVec::new(),
            cycle_values: BoundedVec::new(),
            listen_cc: None,
        })
        .ok();
    let msgs = execute_button_press(&preset, 0);
    assert_eq!(msgs.len(), 2);
    assert_eq!((msgs[0].data, msgs[0].len), ([0xF8, 0, 0], 1));
    assert_eq!((msgs[1].data, msgs[1].len), ([0x81, 61, 0], 3));
    assert!(action_to_midi(&Action::TapTempo).is_none());
    let cycle = Action::CcCycle { cc: 1, channel: 0, reverse: false };
    assert!(action_to_midi(&cycle).is_none());
}

// --- Encoder acceleration ---

#[test]
fn faster_turns_never_give_fewer_steps() {
    let mut last = u8::MAX;
    for interval in [0u32, 19, 20, 49, 50, 99, 100, 5000] {
        let mut enc = EncoderAccel::new();
        enc.steps(1000);
        let steps = enc.steps(1000 + interval);
        assert!((1..=8).contains(&steps));
        assert!(steps <= last);
        last = steps;
    }
    assert_eq!(last, 1);
}

// --- Long press ---

#[test]
fn a_release_at_the_threshold_without_a_poll_is_short() {
    let mut det = LongPressDetector::with_threshold(500);
    det.update(Some(Edge::Activate), 0);
    assert_eq!(det.update(Some(Edge::Deactivate), 500), Some(Gesture::ShortPress));
    assert!(!det.is_active());
}

#[test]
fn held_and_fired_follow_the_press() {
    let mut det = LongPressDetector::default();
    assert!(!det.is_active() && !det.has_fired());
    det.update(Some(Edge::Activate), 10);
    assert!(det.is_active() && !det.has_fired());
    det.update(None, 510);
    assert!(det.is_active() && det.has_fired());
    det.update(Some(Edge::Deactivate), 511);
    assert!(!det.is_active() && det.has_fired());
    assert_eq!(det.held_ms(600), 0);
}

// --- Tap tempo ---

#[test]
fn even_taps_give_their_tempo() {
    for (interval, bpm) in [(500u32, 120u16), (200, 300), (2000, 30), (350, 171)] {
        let mut tap = TapTempo::new();
        let start = u32::MAX - 700;
        assert_eq!(tap.tap(start), None);
        assert_eq!(tap.tap(start.wrapping_add(interval)), None);
        assert_eq!(tap.tap(start.wrapping_add(2 * interval)), None);
        assert_eq!(tap.tap(start.wrapping_add(3 * interval)), Some(bpm));
        assert_eq!(tap.tap(start.wrapping_add(4 * interval)), Some(bpm));
    }
}

#[test]
fn taps_out_of_range_give_no_tempo() {
    for interval in [0u32, 100, 3000] {
        let mut tap = TapTempo::default();
        for i in 0..8 {
            assert_eq!(tap.tap(i * interval), None);
        }
    }
}

// --- Routing ---

#[test]
fn ports_unite_and_are_found_again() {
    let both = MidiPort::din().union(MidiPort::usb());
    assert_eq!(both, MidiPort::all());
    assert!(both.contains(MidiPort::din()) && both.contains(MidiPort::usb()));
    assert!(!both.contains(MidiPort::ble()));
    assert!(!both.contains(both.union(MidiPort::ble())));
    assert!(both.contains(MidiPort::empty()));
    assert!(MidiPort::empty().is_empty() && !both.is_empty());
}

#[test]
fn a_routed_message_gives_its_bytes_back() {
    let out = MidiOut::new(&[0xB0, 7, 100], MidiPort::usb());
    assert_eq!(out.bytes(), &[0xB0, 7, 100]);
    assert_eq!(out.data, [0xB0, 7, 100, 0, 0, 0, 0, 0]);
    assert_eq!(out.dest, MidiPort::usb());
    let long = MidiOut::new(&[1, 2, 3, 4, 5, 6, 7, 8, 9], MidiPort::din());
    assert_eq!(long.bytes(), &[1, 2, 3, 4, 5, 6, 7, 8]);
    assert!(MidiOut::new(&[], MidiPort::din()).bytes().is_empty());
}

// --- Property exchange ---

#[test]
fn inquiries_roundtrip_while_the_body_fits() {
    for len in [0usize, 1, 127, 128, 232, 233] {
        let payload = vec![0x55u8; len];
        let msg = build_set_inquiry([1, 2, 3, 4], [5, 6, 7, 8], 9, &payload);
        assert!(is_set_property(&msg));
        assert_eq!(request_id(&msg), 9);
        assert_eq!(source_muid(&msg), [1, 2, 3, 4]);
        assert_eq!(extract_body(&msg), Some(payload.as_slice()));
    }
    let msg = build_set_inquiry([1, 2, 3, 4], [5, 6, 7, 8], 9, &[0x55u8; 234]);
    assert_eq!(msg.len(), 256);
    assert_eq!(extract_body(&msg), None);
}

#[test]
fn a_reply_is_no_inquiry() {
    let reply = build_set_reply([1, 2, 3, 4], [5, 6, 7, 8], 9);
    assert_eq!(
        reply.as_slice(),
        &[
            0xF0, 0x7E, 0x7F, 0x0D, 0x37, 0x02, 1, 2, 3, 4, 5, 6, 7, 8, 9, 0, 0, 1, 0, 1, 0, 0, 0,
            0xF7
        ]
    );
    assert!(is_ci_message(&reply) && !is_set_property(&reply));
    assert_eq!(extract_body(&reply), None);
}

#[test]
fn a_message_that_ends_too_soon_has_no_body() {
    let msg = build_set_inquiry([1, 2, 3, 4], [5, 6, 7, 8], 9, b"hello");
    for len in 0..28 {
        assert_eq!(extract_body(&msg[..len]), None);
    }
    assert_eq!(extract_body(&msg[..28]), Some(b"hello".as_slice()));
}

// --- LED rings ---

fn ring(renderer: Renderer, modifier: Modifier, rotation: u8, ticks: usize) -> LedRing {
    let mut ring = LedRing::new(rotation);
    ring.set(RingAnimation { renderer, modifier });
    for _ in 0..ticks {
        ring.tick();
    }
    ring
}

#[test]
fn scaling_rounds_down_and_never_brightens() {
    let c = Rgb::new(200, 100, 50);
    assert_eq!(c.scale(128), Rgb::new(100, 50, 25));
    assert_eq!(c.scale(1), Rgb::new(0, 0, 0));
    for factor in 0..255u8 {
        let (low, high) = (c.scale(factor), c.scale(factor + 1));
        assert!(low.r <= high.r && low.g <= high.g && low.b <= high.b && high.r <= c.r);
    }
    assert_eq!(Rgb::default(), Rgb::black());
}

#[test]
fn an_arc_runs_from_the_anchor_against_the_numbers() {
    let c = Rgb::new(9, 8, 7);
    let frame = ring(Renderer::Fill(c, 3), Modifier::Solid, 1, 0).render();
    for (i, px) in frame.iter().enumerate() {
        let lit = i == 1 || i == 0 || i == 11;
        assert_eq!(*px == c, lit);
        assert_eq!(*px == Rgb::black(), !lit);
    }
    let full = ring(Renderer::Fill(c, 200), Modifier::Solid, 1, 0).render();
    assert!(full.iter().all(|px| *px == c));
}

#[test]
fn a_single_led_stands_at_its_hour() {
    let c = Rgb::new(1, 2, 3);
    for (pos, led) in [(0u8, 3usize), (3, 0), (4, 11), (6, 9), (15, 0)] {
        let frame = ring(Renderer::Single(c, pos), Modifier::Solid, 8, 0).render();
        for (i, px) in frame.iter().enumerate() {
            assert_eq!(*px == c, i == led);
        }
    }
}

#[test]
fn dots_are_as_many_as_asked_for() {
    let c = Rgb::new(1, 2, 3);
    for (count, lit) in [(0u8, 1usize), (1, 1), (4, 4), (5, 5), (6, 6), (12, 12), (40, 12)] {
        let frame = ring(Renderer::Dots(c, count), Modifier::Solid, 8, 0).render();
        assert_eq!(frame.iter().filter(|px| **px == c).count(), lit);
    }
}

#[test]
fn the_heatmap_runs_from_blue_to_red() {
    let frame = ring(Renderer::Heatmap(12), Modifier::Solid, 8, 0).render();
    // 7 o'clock is LED 8, 5 o'clock is LED 10, 6 o'clock is LED 9
    assert_eq!(frame[8], Rgb::new(0, 0, 255));
    assert_eq!(frame[3], Rgb::new(0, 254, 1));
    assert_eq!(frame[10], Rgb::new(254, 1, 0));
    assert_eq!(frame[9], Rgb::black());
    let half = ring(Renderer::Heatmap(6), Modifier::Solid, 8, 0).render();
    for (low, high) in half.iter().zip(frame.iter()) {
        assert!(*low == Rgb::black() || low == high);
    }
    assert_eq!(half.iter().filter(|px| **px != Rgb::black()).count(), 5);
    for (fill, lit) in [(0u8, 0usize), (1, 0), (2, 1), (7, 6), (11, 10), (12, 11), (255, 11)] {
        let frame = ring(Renderer::Heatmap(fill), Modifier::Solid, 3, 0).render();
        let on: Vec<Rgb> = frame.iter().copied().filter(|px| *px != Rgb::black()).collect();
        assert_eq!(on.len(), lit);
        assert!(on.iter().all(|px| px.r as u16 + px.g as u16 + px.b as u16 == 255));
    }
}

#[test]
fn a_ring_that_is_off_stays_dark() {
    for modifier in [Modifier::Glow, Modifier::Pulse, Modifier::Rotate, Modifier::ColorCycle] {
        let frame = ring(Renderer::Off, modifier, 8, 30).render();
        assert!(frame.iter().all(|px| *px == Rgb::black()));
    }
}

#[test]
fn blinking_takes_24_ticks() {
    let c = Rgb::new(5, 5, 5);
    for tick in 0..50 {
        let frame = ring(Renderer::Solid(c), Modifier::Blink, 8, tick).render();
        let expected = if tick % 24 < 12 { c } else { Rgb::black() };
        assert!(frame.iter().all(|px| *px == expected));
    }
}

#[test]
fn a_pulse_rises_to_full_brightness() {
    let white = Rgb::new(255, 255, 255);
    assert_eq!(ring(Renderer::Solid(white), Modifier::Pulse, 8, 0).render()[0], Rgb::black());
    assert_eq!(
        ring(Renderer::Solid(white), Modifier::Pulse, 8, 9).render()[0],
        Rgb::new(162, 162, 162)
    );
    for tick in [18, 55, 93] {
        assert_eq!(ring(Renderer::Solid(white), Modifier::Pulse, 8, tick).render()[0], white);
    }
    for tick in 0..150 {
        let at = |t| ring(Renderer::Solid(white), Modifier::Pulse, 8, t).render();
        assert_eq!(at(tick), at(tick + 75));
    }
    for tick in [36, 37, 74, 75] {
        let frame = ring(Renderer::Solid(white), Modifier::Pulse, 8, tick).render();
        assert_eq!(frame[0], Rgb::black());
    }
}

#[test]
fn a_rotating_pattern_comes_round() {
    let c = Rgb::new(5, 6, 7);
    let at = |ticks: usize| ring(Renderer::Single(c, 0), Modifier::Rotate, 8, ticks).render();
    assert_eq!(at(0)[3], c);
    assert_eq!(at(4)[3], c);
    // LED 3 is at 12 o'clock, LED 2 at 1 o'clock
    for (i, px) in at(5).iter().enumerate() {
        assert_eq!(*px, if i == 2 { c } else { Rgb::black() });
    }
    assert_eq!(at(20)[11], c);
    assert_eq!(at(60), at(0));
}

#[test]
fn a_cycling_hue_keeps_the_pattern() {
    let c = Rgb::new(5, 6, 7);
    let frame = ring(Renderer::Dots(c, 2), Modifier::ColorCycle, 8, 10).render();
    let lit: Vec<Rgb> = frame.iter().copied().filter(|px| *px != Rgb::black()).collect();
    // hue 30: red with some green
    assert_eq!(lit, vec![Rgb::new(255, 180, 0); 2]);
}

#[test]
fn a_hue_cycles_for_as_long_as_the_ring_ticks() {
    let c = Rgb::new(5, 6, 7);
    let mut ring = ring(Renderer::Single(c, 0), Modifier::ColorCycle, 8, 0);
    for tick in 0..=u16::MAX as u32 {
        let hue = ring.render()[3];
        assert!(hue.r == 255 || hue.g == 255 || hue.b == 255);
        assert!(hue.r == 0 || hue.g == 0 || hue.b == 0);
        if tick == 21_846 {
            // 3 * 21846 is 65538: hue 2
            assert_eq!(hue, Rgb::new(255, 12, 0));
        }
        ring.tick();
    }
    assert_eq!(ring.render()[3], Rgb::new(255, 0, 0));
}

#[test]
fn setting_the_same_animation_goes_on() {
    let c = Rgb::new(5, 6, 7);
    let anim = RingAnimation { renderer: Renderer::Solid(c), modifier: Modifier::Blink };
    let mut ring = ring(anim.renderer, anim.modifier, 8, 12);
    ring.set(anim);
    assert_eq!(ring.render()[0], Rgb::black());
    ring.set(RingAnimation::solid(c));
    ring.set(anim);
    assert_eq!(ring.render()[0], c);
    assert_eq!(RingAnimation::default(), RingAnimation::off());
    assert_eq!(Modifier::default(), Modifier::Solid);
}
