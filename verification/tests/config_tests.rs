//! Configuration values and action constructors.

use pedalboard::config::{Action, GlobalConfig};


#[test]
fn global_config_default_values() {
    let gc = GlobalConfig::default();
    assert!(gc.din_enabled);
    assert!(gc.din_to_usb_thru);
    assert!(!gc.usb_to_din_thru);
    assert!(!gc.usb_to_usb_thru);
    assert!(!gc.midi_clock);
    assert_eq!(gc.bpm, 120);
}

#[test]
fn global_config_tick_interval_120bpm() {
    let gc = GlobalConfig {
        bpm: 120,
        ..Default::default()
    };
    // 120 BPM = 60_000_000 / (120 * 24) = 20833 µs
    assert_eq!(gc.tick_interval_us(), 20833);
}

#[test]
fn global_config_tick_interval_60bpm() {
    let gc = GlobalConfig {
        bpm: 60,
        ..Default::default()
    };
    // 60 BPM = 60_000_000 / (60 * 24) = 41666 µs
    assert_eq!(gc.tick_interval_us(), 41666);
}

#[test]
fn global_config_tick_interval_zero_bpm_fallback() {
    let gc = GlobalConfig {
        bpm: 0,
        ..Default::default()
    };
    assert_eq!(gc.tick_interval_us(), 20833);
}

#[test]
fn action_cc_validates_ranges() {
    assert!(Action::cc(0, 0, 1).is_some());
    assert!(Action::cc(127, 127, 16).is_some());
    // cc > 127 (impossible with u8, but value/channel can be wrong)
    assert!(Action::cc(0, 0, 0).is_none()); // channel 0
    assert!(Action::cc(0, 0, 17).is_none()); // channel 17
}

#[test]
fn action_note_on_validates_ranges() {
    assert!(Action::note_on(0, 1).is_some());
    assert!(Action::note_on(127, 16).is_some());
    assert!(Action::note_on(60, 0).is_none()); // channel 0
    assert!(Action::note_on(60, 17).is_none()); // channel 17
}

#[test]
fn action_program_change_validates_ranges() {
    assert!(Action::program_change(0, 1).is_some());
    assert!(Action::program_change(127, 16).is_some());
    assert!(Action::program_change(5, 0).is_none()); // channel 0
    assert!(Action::program_change(5, 17).is_none()); // channel 17
}
