//! Per-preset state and its persistence.

use pedalboard::bounded::BoundedVec;
use pedalboard::config::{Action, ButtonConfig, ButtonMode, DefaultPreset, EncoderAction, EncoderConfig, Label, LedConfig, MAX_ACTIONS, MAX_BUTTONS, MAX_ENCODERS, Preset};
use pedalboard::state::{PresetState, PresetStateStore, DefaultPresetStateStore};


fn make_preset() -> DefaultPreset {
    let mut buttons: BoundedVec<ButtonConfig, MAX_BUTTONS> = BoundedVec::new();
    let mut on_press: BoundedVec<Action, MAX_ACTIONS> = BoundedVec::new();
    on_press
        .push(Action::Cc {
            cc: 10,
            value: 127,
            channel: 1,
        })
        .ok();
    let mut on_release: BoundedVec<Action, MAX_ACTIONS> = BoundedVec::new();
    on_release
        .push(Action::Cc {
            cc: 10,
            value: 0,
            channel: 1,
        })
        .ok();
    buttons
        .push(ButtonConfig {
            label: Label::new(),
            color: LedConfig::default(),
            mode: ButtonMode::Toggle,
            on_press,
            on_release,
            on_long_press: BoundedVec::new(),
            cycle_values: BoundedVec::new(),
            listen_cc: None,
        })
        .ok();

    let mut encoders: BoundedVec<EncoderConfig, MAX_ENCODERS> = BoundedVec::new();
    encoders
        .push(EncoderConfig {
            label: Label::try_from("Vol").unwrap(),
            action: EncoderAction::Cc {
                cc: 7,
                channel: 1,
                min: 0,
                max: 127,
            },
        })
        .ok();

    Preset {
        name: Label::try_from("Test").unwrap(),
        buttons,
        encoders,
        analog: BoundedVec::new(),
        ..Default::default()
    }
}

#[test]
fn switch_saves_and_restores_state() {
    let preset = make_preset();
    let mut store = DefaultPresetStateStore::new();
    let mut working = PresetState::default();

    // Activate toggle in preset 0
    working.button_active[0] = true;
    working.encoder_values[0] = 80;

    // Switch to preset 1
    store.switch(1, &mut working, &preset);
    assert!(!working.button_active[0]);
    assert_eq!(working.encoder_values[0], 0);

    // Switch back to preset 0
    store.switch(0, &mut working, &preset);
    assert!(working.button_active[0]);
    assert_eq!(working.encoder_values[0], 80);
}

#[test]
fn recall_sends_active_button_on_press() {
    let preset = make_preset();
    let mut store = DefaultPresetStateStore::new();
    let mut working = PresetState::default();

    // Set button active in preset 0, switch away, switch back
    working.button_active[0] = true;
    store.switch(1, &mut working, &preset);
    let recall = store.switch(0, &mut working, &preset);

    // Should contain CC 10 = 127 (on_press of active button)
    assert!(recall.iter().any(|m| m.data == [0xB0, 10, 127]));
}

#[test]
fn recall_sends_inactive_button_on_release() {
    let preset = make_preset();
    let mut store = DefaultPresetStateStore::new();
    let mut working = PresetState::default();

    // Button inactive in preset 0 (default), switch away, switch back
    store.switch(1, &mut working, &preset);
    let recall = store.switch(0, &mut working, &preset);

    // Should contain CC 10 = 0 (on_release of inactive button)
    assert!(recall.iter().any(|m| m.data == [0xB0, 10, 0]));
}

#[test]
fn recall_sends_encoder_cc() {
    let preset = make_preset();
    let mut store = DefaultPresetStateStore::new();
    let mut working = PresetState::default();

    working.encoder_values[0] = 64;
    store.switch(1, &mut working, &preset);
    let recall = store.switch(0, &mut working, &preset);

    // Should contain CC 7 = 64
    assert!(recall.iter().any(|m| m.data == [0xB0, 7, 64]));
}

#[test]
fn eeprom_roundtrip() {
    let mut store = DefaultPresetStateStore::new();
    store.states[0].button_active[0] = true;
    store.states[0].button_active[3] = true;
    store.states[0].cycle_index[2] = 5;
    store.states[0].encoder_values[0] = 100;
    store.states[0].encoder_values[1] = 42;
    store.states[1].button_active[5] = true;
    store.active = 1;

    let mut buf = [0u8; 128];
    store.to_eeprom(&mut buf);

    let restored = PresetStateStore::from_eeprom(&buf).unwrap();
    assert_eq!(restored.active_index(), 1);
    assert!(restored.states[0].button_active[0]);
    assert!(restored.states[0].button_active[3]);
    assert_eq!(restored.states[0].cycle_index[2], 5);
    assert_eq!(restored.states[0].encoder_values[0], 100);
    assert_eq!(restored.states[0].encoder_values[1], 42);
    assert!(restored.states[1].button_active[5]);
}

#[test]
fn eeprom_invalid_magic_returns_none() {
    let buf = [0xFFu8; 128];
    assert!(PresetStateStore::from_eeprom(&buf).is_none());
}
