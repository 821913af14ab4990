//! The preset engine.

use pedalboard::bounded::BoundedVec;
use pedalboard::config::{Action, AnalogConfig, ButtonConfig, ButtonMode, DefaultPreset, EncoderAction, EncoderConfig, Label, LedConfig, ListenCc, ListenMode, MAX_ACTIONS, MAX_ANALOG, MAX_BUTTONS, MAX_CYCLE_VALUES, MAX_ENCODERS, MAX_TRIGGERS, Preset, Trigger, TriggerAction, TriggerMatch};
use pedalboard::action::EncoderDirection;
use pedalboard::state::DefaultPresetState;
use pedalboard::engine::{ActionStep, ButtonEvent, DisplayEvent, DisplaySide, ReactiveResult, SystemAction, process_analog, process_button, process_encoder, process_incoming_cc, process_triggers};


fn make_toggle_preset() -> DefaultPreset {
    let mut buttons: BoundedVec<ButtonConfig, MAX_BUTTONS> = BoundedVec::new();
    let mut on_press: BoundedVec<Action, MAX_ACTIONS> = BoundedVec::new();
    on_press.push(Action::cc(80, 127, 1).unwrap()).ok();
    let mut on_release: BoundedVec<Action, MAX_ACTIONS> = BoundedVec::new();
    on_release.push(Action::cc(80, 0, 1).unwrap()).ok();
    buttons
        .push(ButtonConfig {
            label: Label::new(),
            color: LedConfig::default(),
            mode: ButtonMode::Toggle,
            on_press,
            on_release,
            on_long_press: BoundedVec::new(),
            cycle_values: BoundedVec::new(),
            listen_cc: None,
        })
        .ok();
    Preset {
        name: Label::try_from("Test").unwrap(),
        buttons,
        encoders: BoundedVec::new(),
        analog: BoundedVec::new(),
        defaults: Default::default(),
        on_enter: BoundedVec::new(),
        on_exit: BoundedVec::new(),
        triggers: BoundedVec::new(),
    }
}

#[test]
fn toggle_press_flips_state_and_fires_on_press() {
    let preset = make_toggle_preset();
    let mut state = DefaultPresetState::default();

    let r = process_button(&mut state, &preset, 0, ButtonEvent::Press);
    assert!(state.button_active[0]);
    assert!(r.led_dirty);
    assert_eq!(r.midi.len(), 1);
    assert!(matches!(&r.midi[0], ActionStep::Send(m) if m.data == [0xB0, 80, 127]));
}

#[test]
fn toggle_second_press_deactivates_and_fires_on_release() {
    let preset = make_toggle_preset();
    let mut state = DefaultPresetState::default();

    process_button(&mut state, &preset, 0, ButtonEvent::Press);
    let r = process_button(&mut state, &preset, 0, ButtonEvent::Press);
    assert!(!state.button_active[0]);
    // Second press deactivates → fires on_release (CC#80 = 0)
    assert!(matches!(&r.midi[0], ActionStep::Send(m) if m.data == [0xB0, 80, 0]));
}

#[test]
fn momentary_press_and_release() {
    let mut buttons: BoundedVec<ButtonConfig, MAX_BUTTONS> = BoundedVec::new();
    let mut on_press: BoundedVec<Action, MAX_ACTIONS> = BoundedVec::new();
    on_press.push(Action::note_on(60, 1).unwrap()).ok();
    let mut on_release: BoundedVec<Action, MAX_ACTIONS> = BoundedVec::new();
    on_release.push(Action::note_off(60, 1).unwrap()).ok();
    buttons
        .push(ButtonConfig {
            label: Label::new(),
            color: LedConfig::default(),
            mode: ButtonMode::Momentary,
            on_press,
            on_release,
            on_long_press: BoundedVec::new(),
            cycle_values: BoundedVec::new(),
            listen_cc: None,
        })
        .ok();
    let preset: DefaultPreset = Preset {
        name: Label::new(),
        buttons,
        encoders: BoundedVec::new(),
        analog: BoundedVec::new(),
        defaults: Default::default(),
        on_enter: BoundedVec::new(),
        on_exit: BoundedVec::new(),
        triggers: BoundedVec::new(),
    };
    let mut state = DefaultPresetState::default();

    let r = process_button(&mut state, &preset, 0, ButtonEvent::Press);
    assert!(state.button_active[0]);
    assert!(matches!(&r.midi[0], ActionStep::Send(m) if m.data == [0x90, 60, 127]));

    let r = process_button(&mut state, &preset, 0, ButtonEvent::Release);
    assert!(!state.button_active[0]);
    assert!(matches!(&r.midi[0], ActionStep::Send(m) if m.data == [0x80, 60, 0]));
}

#[test]
fn engine_long_press_fires_on_long_press_actions() {
    let mut buttons: BoundedVec<ButtonConfig, MAX_BUTTONS> = BoundedVec::new();
    let mut on_long_press: BoundedVec<Action, MAX_ACTIONS> = BoundedVec::new();
    on_long_press.push(Action::PresetNext).ok();
    buttons
        .push(ButtonConfig {
            label: Label::new(),
            color: LedConfig::default(),
            mode: ButtonMode::Momentary,
            on_press: BoundedVec::new(),
            on_release: BoundedVec::new(),
            on_long_press,
            cycle_values: BoundedVec::new(),
            listen_cc: None,
        })
        .ok();
    let preset: DefaultPreset = Preset {
        name: Label::new(),
        buttons,
        encoders: BoundedVec::new(),
        analog: BoundedVec::new(),
        defaults: Default::default(),
        on_enter: BoundedVec::new(),
        on_exit: BoundedVec::new(),
        triggers: BoundedVec::new(),
    };
    let mut state = DefaultPresetState::default();

    let r = process_button(&mut state, &preset, 0, ButtonEvent::LongPress);
    assert_eq!(r.system.len(), 1);
    assert_eq!(r.system[0], SystemAction::PresetNext);
}

#[test]
fn radio_group_deactivates_others() {
    let mut buttons: BoundedVec<ButtonConfig, MAX_BUTTONS> = BoundedVec::new();
    for _ in 0..3 {
        buttons
            .push(ButtonConfig {
                label: Label::new(),
                color: LedConfig::default(),
                mode: ButtonMode::RadioGroup(1),
                on_press: BoundedVec::new(),
                on_release: BoundedVec::new(),
                on_long_press: BoundedVec::new(),
                cycle_values: BoundedVec::new(),
                listen_cc: None,
            })
            .ok();
    }
    let preset: DefaultPreset = Preset {
        name: Label::new(),
        buttons,
        encoders: BoundedVec::new(),
        analog: BoundedVec::new(),
        defaults: Default::default(),
        on_enter: BoundedVec::new(),
        on_exit: BoundedVec::new(),
        triggers: BoundedVec::new(),
    };
    let mut state = DefaultPresetState::default();

    process_button(&mut state, &preset, 0, ButtonEvent::Press);
    assert!(state.button_active[0]);

    process_button(&mut state, &preset, 1, ButtonEvent::Press);
    assert!(!state.button_active[0]);
    assert!(state.button_active[1]);
}

#[test]
fn encoder_cc_increments_and_emits_display() {
    let mut encoders: BoundedVec<EncoderConfig, MAX_ENCODERS> = BoundedVec::new();
    encoders
        .push(EncoderConfig {
            label: Label::try_from("Vol").unwrap(),
            action: EncoderAction::Cc {
                cc: 7,
                channel: 1,
                min: 0,
                max: 127,
            },
        })
        .ok();
    let preset: DefaultPreset = Preset {
        name: Label::new(),
        buttons: BoundedVec::new(),
        encoders,
        analog: BoundedVec::new(),
        defaults: Default::default(),
        on_enter: BoundedVec::new(),
        on_exit: BoundedVec::new(),
        triggers: BoundedVec::new(),
    };
    let mut state = DefaultPresetState::default();
    state.encoder_values[0] = 64;

    let r = process_encoder(&mut state, &preset, 0, EncoderDirection::Clockwise, 1);
    assert_eq!(state.encoder_values[0], 65);
    assert!(matches!(&r.midi[0], ActionStep::Send(m) if m.data == [0xB0, 7, 65]));
    assert_eq!(r.display.len(), 1);
    match &r.display[0] {
        DisplayEvent::EncoderOverlay { side, label, value } => {
            assert_eq!(*side, DisplaySide::L);
            assert_eq!(label.as_str(), "Vol");
            assert_eq!(*value, 65);
        }
        _ => panic!("expected EncoderOverlay"),
    }
}

#[test]
fn encoder_cc_counter_clockwise_decrements() {
    let mut encoders: BoundedVec<EncoderConfig, MAX_ENCODERS> = BoundedVec::new();
    encoders
        .push(EncoderConfig {
            label: Label::try_from("Vol").unwrap(),
            action: EncoderAction::Cc {
                cc: 7,
                channel: 1,
                min: 0,
                max: 127,
            },
        })
        .ok();
    let preset: DefaultPreset = Preset {
        name: Label::new(),
        buttons: BoundedVec::new(),
        encoders,
        analog: BoundedVec::new(),
        defaults: Default::default(),
        on_enter: BoundedVec::new(),
        on_exit: BoundedVec::new(),
        triggers: BoundedVec::new(),
    };
    let mut state = DefaultPresetState::default();
    state.encoder_values[0] = 64;

    let r = process_encoder(
        &mut state,
        &preset,
        0,
        EncoderDirection::CounterClockwise,
        1,
    );
    assert_eq!(state.encoder_values[0], 63);
    assert!(matches!(&r.midi[0], ActionStep::Send(m) if m.data == [0xB0, 7, 63]));
}

#[test]
fn encoder_cc_multi_step_acceleration() {
    let mut encoders: BoundedVec<EncoderConfig, MAX_ENCODERS> = BoundedVec::new();
    encoders
        .push(EncoderConfig {
            label: Label::try_from("Gain").unwrap(),
            action: EncoderAction::Cc {
                cc: 7,
                channel: 1,
                min: 0,
                max: 127,
            },
        })
        .ok();
    let preset: DefaultPreset = Preset {
        name: Label::new(),
        buttons: BoundedVec::new(),
        encoders,
        analog: BoundedVec::new(),
        defaults: Default::default(),
        on_enter: BoundedVec::new(),
        on_exit: BoundedVec::new(),
        triggers: BoundedVec::new(),
    };
    let mut state = DefaultPresetState::default();
    state.encoder_values[0] = 50;

    // 4 steps CW: 50 → 54, single MIDI message with final value
    let r = process_encoder(&mut state, &preset, 0, EncoderDirection::Clockwise, 4);
    assert_eq!(state.encoder_values[0], 54);
    assert_eq!(r.midi.len(), 1);
    assert!(matches!(&r.midi[0], ActionStep::Send(m) if m.data == [0xB0, 7, 54]));
}

#[test]
fn engine_encoder_cc_clamps_at_max() {
    let mut encoders: BoundedVec<EncoderConfig, MAX_ENCODERS> = BoundedVec::new();
    encoders
        .push(EncoderConfig {
            label: Label::new(),
            action: EncoderAction::Cc {
                cc: 7,
                channel: 1,
                min: 0,
                max: 100,
            },
        })
        .ok();
    let preset: DefaultPreset = Preset {
        name: Label::new(),
        buttons: BoundedVec::new(),
        encoders,
        analog: BoundedVec::new(),
        defaults: Default::default(),
        on_enter: BoundedVec::new(),
        on_exit: BoundedVec::new(),
        triggers: BoundedVec::new(),
    };
    let mut state = DefaultPresetState::default();
    state.encoder_values[0] = 99;

    // 5 steps CW from 99, max=100 → clamps at 100
    let r = process_encoder(&mut state, &preset, 0, EncoderDirection::Clockwise, 5);
    assert_eq!(state.encoder_values[0], 100);
    assert!(matches!(&r.midi[0], ActionStep::Send(m) if m.data[2] == 100));
}

#[test]
fn engine_encoder_cc_clamps_at_min() {
    let mut encoders: BoundedVec<EncoderConfig, MAX_ENCODERS> = BoundedVec::new();
    encoders
        .push(EncoderConfig {
            label: Label::new(),
            action: EncoderAction::Cc {
                cc: 7,
                channel: 1,
                min: 20,
                max: 127,
            },
        })
        .ok();
    let preset: DefaultPreset = Preset {
        name: Label::new(),
        buttons: BoundedVec::new(),
        encoders,
        analog: BoundedVec::new(),
        defaults: Default::default(),
        on_enter: BoundedVec::new(),
        on_exit: BoundedVec::new(),
        triggers: BoundedVec::new(),
    };
    let mut state = DefaultPresetState::default();
    state.encoder_values[0] = 21;

    // 5 steps CCW from 21, min=20 → clamps at 20
    let r = process_encoder(
        &mut state,
        &preset,
        0,
        EncoderDirection::CounterClockwise,
        5,
    );
    assert_eq!(state.encoder_values[0], 20);
    assert!(matches!(&r.midi[0], ActionStep::Send(m) if m.data[2] == 20));
}

#[test]
fn encoder_relative_sends_increment_decrement() {
    let mut encoders: BoundedVec<EncoderConfig, MAX_ENCODERS> = BoundedVec::new();
    encoders
        .push(EncoderConfig {
            label: Label::try_from("FX").unwrap(),
            action: EncoderAction::CcRelative {
                cc: 16,
                channel: 1,
                increment: 65,
                decrement: 63,
            },
        })
        .ok();
    let preset: DefaultPreset = Preset {
        name: Label::new(),
        buttons: BoundedVec::new(),
        encoders,
        analog: BoundedVec::new(),
        defaults: Default::default(),
        on_enter: BoundedVec::new(),
        on_exit: BoundedVec::new(),
        triggers: BoundedVec::new(),
    };
    let mut state = DefaultPresetState::default();

    let r = process_encoder(&mut state, &preset, 0, EncoderDirection::Clockwise, 1);
    assert_eq!(r.midi.len(), 1);
    assert!(matches!(&r.midi[0], ActionStep::Send(m) if m.data == [0xB0, 16, 65]));

    let r = process_encoder(
        &mut state,
        &preset,
        0,
        EncoderDirection::CounterClockwise,
        1,
    );
    assert!(matches!(&r.midi[0], ActionStep::Send(m) if m.data == [0xB0, 16, 63]));
}

#[test]
fn encoder_preset_scroll_emits_system_action() {
    let mut encoders: BoundedVec<EncoderConfig, MAX_ENCODERS> = BoundedVec::new();
    encoders
        .push(EncoderConfig {
            label: Label::try_from("Bank").unwrap(),
            action: EncoderAction::PresetScroll,
        })
        .ok();
    let preset: DefaultPreset = Preset {
        name: Label::new(),
        buttons: BoundedVec::new(),
        encoders,
        analog: BoundedVec::new(),
        defaults: Default::default(),
        on_enter: BoundedVec::new(),
        on_exit: BoundedVec::new(),
        triggers: BoundedVec::new(),
    };
    let mut state = DefaultPresetState::default();

    let r = process_encoder(&mut state, &preset, 0, EncoderDirection::Clockwise, 1);
    assert!(r.midi.is_empty());
    assert_eq!(r.system.len(), 1);
    assert_eq!(r.system[0], SystemAction::PresetNext);

    let r = process_encoder(
        &mut state,
        &preset,
        0,
        EncoderDirection::CounterClockwise,
        1,
    );
    assert_eq!(r.system[0], SystemAction::PresetPrev);
}

#[test]
fn encoder_invalid_index_returns_empty() {
    let preset: DefaultPreset = Preset {
        name: Label::new(),
        buttons: BoundedVec::new(),
        encoders: BoundedVec::new(),
        analog: BoundedVec::new(),
        defaults: Default::default(),
        on_enter: BoundedVec::new(),
        on_exit: BoundedVec::new(),
        triggers: BoundedVec::new(),
    };
    let mut state = DefaultPresetState::default();

    let r = process_encoder(&mut state, &preset, 0, EncoderDirection::Clockwise, 1);
    assert!(r.midi.is_empty());
    assert!(r.system.is_empty());
    assert!(r.display.is_empty());
}

#[test]
fn encoder_second_index_uses_right_display() {
    let mut encoders: BoundedVec<EncoderConfig, MAX_ENCODERS> = BoundedVec::new();
    encoders
        .push(EncoderConfig {
            label: Label::try_from("Vol").unwrap(),
            action: EncoderAction::Cc {
                cc: 7,
                channel: 1,
                min: 0,
                max: 127,
            },
        })
        .ok();
    encoders
        .push(EncoderConfig {
            label: Label::try_from("Gain").unwrap(),
            action: EncoderAction::Cc {
                cc: 8,
                channel: 1,
                min: 0,
                max: 127,
            },
        })
        .ok();
    let preset: DefaultPreset = Preset {
        name: Label::new(),
        buttons: BoundedVec::new(),
        encoders,
        analog: BoundedVec::new(),
        defaults: Default::default(),
        on_enter: BoundedVec::new(),
        on_exit: BoundedVec::new(),
        triggers: BoundedVec::new(),
    };
    let mut state = DefaultPresetState::default();
    state.encoder_values[1] = 50;

    let r = process_encoder(&mut state, &preset, 1, EncoderDirection::Clockwise, 1);
    assert!(matches!(&r.midi[0], ActionStep::Send(m) if m.data == [0xB0, 8, 51]));
    match &r.display[0] {
        DisplayEvent::EncoderOverlay { side, label, value } => {
            assert_eq!(*side, DisplaySide::R);
            assert_eq!(label.as_str(), "Gain");
            assert_eq!(*value, 51);
        }
        _ => panic!("expected EncoderOverlay"),
    }
}

#[test]
fn delay_in_action_sequence() {
    let mut buttons: BoundedVec<ButtonConfig, MAX_BUTTONS> = BoundedVec::new();
    let mut on_press: BoundedVec<Action, MAX_ACTIONS> = BoundedVec::new();
    on_press.push(Action::cc(1, 127, 1).unwrap()).ok();
    on_press.push(Action::Delay(50)).ok();
    on_press.push(Action::cc(2, 0, 1).unwrap()).ok();
    buttons
        .push(ButtonConfig {
            label: Label::new(),
            color: LedConfig::default(),
            mode: ButtonMode::Momentary,
            on_press,
            on_release: BoundedVec::new(),
            on_long_press: BoundedVec::new(),
            cycle_values: BoundedVec::new(),
            listen_cc: None,
        })
        .ok();
    let preset: DefaultPreset = Preset {
        name: Label::new(),
        buttons,
        encoders: BoundedVec::new(),
        analog: BoundedVec::new(),
        defaults: Default::default(),
        on_enter: BoundedVec::new(),
        on_exit: BoundedVec::new(),
        triggers: BoundedVec::new(),
    };
    let mut state = DefaultPresetState::default();

    let r = process_button(&mut state, &preset, 0, ButtonEvent::Press);
    assert_eq!(r.midi.len(), 3);
    assert!(matches!(&r.midi[0], ActionStep::Send(m) if m.data == [0xB0, 1, 127]));
    assert_eq!(r.midi[1], ActionStep::Delay(50));
    assert!(matches!(&r.midi[2], ActionStep::Send(m) if m.data == [0xB0, 2, 0]));
}

#[test]
fn incoming_cc_matches_listen_binding() {
    let mut buttons: BoundedVec<ButtonConfig, MAX_BUTTONS> = BoundedVec::new();
    buttons
        .push(ButtonConfig {
            label: Label::new(),
            color: LedConfig::default(),
            mode: ButtonMode::default(),
            on_press: BoundedVec::new(),
            on_release: BoundedVec::new(),
            on_long_press: BoundedVec::new(),
            cycle_values: BoundedVec::new(),
            listen_cc: Some(ListenCc {
                cc: 100,
                channel: 3,
                mode: ListenMode::default(),
                threshold: 64,
            }),
        })
        .ok();
    let preset: DefaultPreset = Preset {
        name: Label::new(),
        buttons,
        encoders: BoundedVec::new(),
        analog: BoundedVec::new(),
        defaults: Default::default(),
        on_enter: BoundedVec::new(),
        on_exit: BoundedVec::new(),
        triggers: BoundedVec::new(),
    };

    // Matching CC
    let result = process_incoming_cc(&preset, 3, 100, 127);
    assert_eq!(result, Some(ReactiveResult::Heatmap(0, 12)));

    // Half value
    let result = process_incoming_cc(&preset, 3, 100, 64);
    assert_eq!(result, Some(ReactiveResult::Heatmap(0, 6)));

    // Zero
    let result = process_incoming_cc(&preset, 3, 100, 0);
    assert_eq!(result, Some(ReactiveResult::Heatmap(0, 0)));

    // Wrong CC
    assert_eq!(process_incoming_cc(&preset, 3, 99, 127), None);

    // Wrong channel
    assert_eq!(process_incoming_cc(&preset, 1, 100, 127), None);
}

#[test]
fn incoming_cc_trigger_mode() {
    let mut buttons: BoundedVec<ButtonConfig, MAX_BUTTONS> = BoundedVec::new();
    buttons
        .push(ButtonConfig {
            label: Label::new(),
            color: LedConfig::default(),
            mode: ButtonMode::default(),
            on_press: BoundedVec::new(),
            on_release: BoundedVec::new(),
            on_long_press: BoundedVec::new(),
            cycle_values: BoundedVec::new(),
            listen_cc: Some(ListenCc {
                cc: 80,
                channel: 2,
                mode: ListenMode::Trigger,
                threshold: 64,
            }),
        })
        .ok();
    let preset: DefaultPreset = Preset {
        name: Label::new(),
        buttons,
        encoders: BoundedVec::new(),
        analog: BoundedVec::new(),
        defaults: Default::default(),
        on_enter: BoundedVec::new(),
        on_exit: BoundedVec::new(),
        triggers: BoundedVec::new(),
    };

    assert_eq!(
        process_incoming_cc(&preset, 2, 80, 127),
        Some(ReactiveResult::Trigger(0, true))
    );
    assert_eq!(
        process_incoming_cc(&preset, 2, 80, 64),
        Some(ReactiveResult::Trigger(0, true))
    );
    assert_eq!(
        process_incoming_cc(&preset, 2, 80, 63),
        Some(ReactiveResult::Trigger(0, false))
    );
    assert_eq!(
        process_incoming_cc(&preset, 2, 80, 0),
        Some(ReactiveResult::Trigger(0, false))
    );
}

#[test]
fn preset_select_emits_system_action() {
    let mut buttons: BoundedVec<ButtonConfig, MAX_BUTTONS> = BoundedVec::new();
    let mut on_press: BoundedVec<Action, MAX_ACTIONS> = BoundedVec::new();
    on_press.push(Action::PresetSelect(5)).ok();
    buttons
        .push(ButtonConfig {
            label: Label::new(),
            color: LedConfig::default(),
            mode: ButtonMode::Momentary,
            on_press,
            on_release: BoundedVec::new(),
            on_long_press: BoundedVec::new(),
            cycle_values: BoundedVec::new(),
            listen_cc: None,
        })
        .ok();
    let preset: DefaultPreset = Preset {
        name: Label::new(),
        buttons,
        encoders: BoundedVec::new(),
        analog: BoundedVec::new(),
        defaults: Default::default(),
        on_enter: BoundedVec::new(),
        on_exit: BoundedVec::new(),
        triggers: BoundedVec::new(),
    };
    let mut state = DefaultPresetState::default();

    let r = process_button(&mut state, &preset, 0, ButtonEvent::Press);
    assert_eq!(r.system.len(), 1);
    assert_eq!(r.system[0], SystemAction::PresetSelect(5));
    // No MIDI output — it's a system action only
    assert!(r.midi.is_empty());
}

#[test]
fn bank_up_down_emit_system_actions() {
    let mut buttons: BoundedVec<ButtonConfig, MAX_BUTTONS> = BoundedVec::new();
    let mut on_press_up: BoundedVec<Action, MAX_ACTIONS> = BoundedVec::new();
    on_press_up.push(Action::BankUp).ok();
    let mut on_press_down: BoundedVec<Action, MAX_ACTIONS> = BoundedVec::new();
    on_press_down.push(Action::BankDown).ok();
    buttons
        .push(ButtonConfig {
            label: Label::new(),
            color: LedConfig::default(),
            mode: ButtonMode::Momentary,
            on_press: on_press_up,
            on_release: BoundedVec::new(),
            on_long_press: BoundedVec::new(),
            cycle_values: BoundedVec::new(),
            listen_cc: None,
        })
        .ok();
    buttons
        .push(ButtonConfig {
            label: Label::new(),
            color: LedConfig::default(),
            mode: ButtonMode::Momentary,
            on_press: on_press_down,
            on_release: BoundedVec::new(),
            on_long_press: BoundedVec::new(),
            cycle_values: BoundedVec::new(),
            listen_cc: None,
        })
        .ok();
    let preset: DefaultPreset = Preset {
        name: Label::new(),
        buttons,
        encoders: BoundedVec::new(),
        analog: BoundedVec::new(),
        defaults: Default::default(),
        on_enter: BoundedVec::new(),
        on_exit: BoundedVec::new(),
        triggers: BoundedVec::new(),
    };
    let mut state = DefaultPresetState::default();

    let r = process_button(&mut state, &preset, 0, ButtonEvent::Press);
    assert_eq!(r.system.len(), 1);
    assert_eq!(r.system[0], SystemAction::PresetNext);

    let r = process_button(&mut state, &preset, 1, ButtonEvent::Press);
    assert_eq!(r.system.len(), 1);
    assert_eq!(r.system[0], SystemAction::PresetPrev);
}

// --- CcCycle tests ---

fn make_cc_cycle_preset(reverse: bool) -> DefaultPreset {
    let mut buttons: BoundedVec<ButtonConfig, MAX_BUTTONS> = BoundedVec::new();
    let mut on_press: BoundedVec<Action, MAX_ACTIONS> = BoundedVec::new();
    on_press
        .push(Action::CcCycle {
            cc: 50,
            channel: 1,
            reverse,
        })
        .ok();
    let mut cycle_values: BoundedVec<u8, MAX_CYCLE_VALUES> = BoundedVec::new();
    cycle_values.push(0).ok();
    cycle_values.push(32).ok();
    cycle_values.push(64).ok();
    cycle_values.push(127).ok();
    buttons
        .push(ButtonConfig {
            label: Label::new(),
            color: LedConfig::default(),
            mode: ButtonMode::Momentary,
            on_press,
            on_release: BoundedVec::new(),
            on_long_press: BoundedVec::new(),
            cycle_values,
            listen_cc: None,
        })
        .ok();
    Preset {
        name: Label::new(),
        buttons,
        encoders: BoundedVec::new(),
        analog: BoundedVec::new(),
        defaults: Default::default(),
        on_enter: BoundedVec::new(),
        on_exit: BoundedVec::new(),
        triggers: BoundedVec::new(),
    }
}

#[test]
fn cc_cycle_forward_iterates_values() {
    let preset = make_cc_cycle_preset(false);
    let mut state = DefaultPresetState::default();

    let r = process_button(&mut state, &preset, 0, ButtonEvent::Press);
    assert!(matches!(&r.midi[0], ActionStep::Send(m) if m.data == [0xB0, 50, 0]));

    let r = process_button(&mut state, &preset, 0, ButtonEvent::Press);
    assert!(matches!(&r.midi[0], ActionStep::Send(m) if m.data == [0xB0, 50, 32]));

    let r = process_button(&mut state, &preset, 0, ButtonEvent::Press);
    assert!(matches!(&r.midi[0], ActionStep::Send(m) if m.data == [0xB0, 50, 64]));

    let r = process_button(&mut state, &preset, 0, ButtonEvent::Press);
    assert!(matches!(&r.midi[0], ActionStep::Send(m) if m.data == [0xB0, 50, 127]));
}

#[test]
fn cc_cycle_forward_wraps_around() {
    let preset = make_cc_cycle_preset(false);
    let mut state = DefaultPresetState::default();

    // Cycle through all 4 values
    for _ in 0..4 {
        process_button(&mut state, &preset, 0, ButtonEvent::Press);
    }
    // 5th press should wrap to first value
    let r = process_button(&mut state, &preset, 0, ButtonEvent::Press);
    assert!(matches!(&r.midi[0], ActionStep::Send(m) if m.data == [0xB0, 50, 0]));
}

#[test]
fn cc_cycle_reverse_iterates_backward() {
    let preset = make_cc_cycle_preset(true);
    let mut state = DefaultPresetState::default();

    // First press at index 0: value=0, then index wraps to 3
    let r = process_button(&mut state, &preset, 0, ButtonEvent::Press);
    assert!(matches!(&r.midi[0], ActionStep::Send(m) if m.data == [0xB0, 50, 0]));

    // Second press at index 3: value=127, then index becomes 2
    let r = process_button(&mut state, &preset, 0, ButtonEvent::Press);
    assert!(matches!(&r.midi[0], ActionStep::Send(m) if m.data == [0xB0, 50, 127]));

    // Third press at index 2: value=64
    let r = process_button(&mut state, &preset, 0, ButtonEvent::Press);
    assert!(matches!(&r.midi[0], ActionStep::Send(m) if m.data == [0xB0, 50, 64]));
}

#[test]
fn cc_cycle_empty_values_no_output() {
    let mut buttons: BoundedVec<ButtonConfig, MAX_BUTTONS> = BoundedVec::new();
    let mut on_press: BoundedVec<Action, MAX_ACTIONS> = BoundedVec::new();
    on_press
        .push(Action::CcCycle {
            cc: 50,
            channel: 1,
            reverse: false,
        })
        .ok();
    buttons
        .push(ButtonConfig {
            label: Label::new(),
            color: LedConfig::default(),
            mode: ButtonMode::Momentary,
            on_press,
            on_release: BoundedVec::new(),
            on_long_press: BoundedVec::new(),
            cycle_values: BoundedVec::new(), // empty!
            listen_cc: None,
        })
        .ok();
    let preset: DefaultPreset = Preset {
        name: Label::new(),
        buttons,
        encoders: BoundedVec::new(),
        analog: BoundedVec::new(),
        defaults: Default::default(),
        on_enter: BoundedVec::new(),
        on_exit: BoundedVec::new(),
        triggers: BoundedVec::new(),
    };
    let mut state = DefaultPresetState::default();

    let r = process_button(&mut state, &preset, 0, ButtonEvent::Press);
    assert!(r.midi.is_empty());
}

// --- process_analog tests ---

fn make_analog_preset(cc: u8, channel: u8, min: u8, max: u8) -> DefaultPreset {
    let mut analog: BoundedVec<AnalogConfig, MAX_ANALOG> = BoundedVec::new();
    analog
        .push(AnalogConfig {
            label: Label::try_from("Wah").unwrap(),
            cc,
            channel,
            min,
            max,
        })
        .ok();
    Preset {
        name: Label::new(),
        buttons: BoundedVec::new(),
        encoders: BoundedVec::new(),
        analog,
        defaults: Default::default(),
        on_enter: BoundedVec::new(),
        on_exit: BoundedVec::new(),
        triggers: BoundedVec::new(),
    }
}

#[test]
fn analog_full_range_maps_to_max() {
    let preset = make_analog_preset(11, 1, 0, 127);
    let r = process_analog(&preset, 0, 3750, 0, 3750);
    assert_eq!(r.midi.len(), 1);
    assert!(matches!(&r.midi[0], ActionStep::Send(m) if m.data == [0xB0, 11, 127]));
}

#[test]
fn analog_min_maps_to_zero() {
    let preset = make_analog_preset(11, 1, 0, 127);
    let r = process_analog(&preset, 0, 0, 0, 3750);
    assert!(matches!(&r.midi[0], ActionStep::Send(m) if m.data == [0xB0, 11, 0]));
}

#[test]
fn analog_midpoint() {
    let preset = make_analog_preset(11, 1, 0, 127);
    let r = process_analog(&preset, 0, 1875, 0, 3750);
    // 1875/3750 * 127 = 63.5 → 63
    assert!(matches!(&r.midi[0], ActionStep::Send(m) if m.data[2] == 63));
}

#[test]
fn analog_custom_range() {
    let preset = make_analog_preset(11, 1, 20, 100);
    let r = process_analog(&preset, 0, 3750, 0, 3750);
    assert!(matches!(&r.midi[0], ActionStep::Send(m) if m.data == [0xB0, 11, 100]));

    let r = process_analog(&preset, 0, 0, 0, 3750);
    assert!(matches!(&r.midi[0], ActionStep::Send(m) if m.data == [0xB0, 11, 20]));
}

#[test]
fn analog_clamps_below_adc_min() {
    let preset = make_analog_preset(11, 1, 0, 127);
    // raw=100 but adc_min=200 — clamps to min
    let r = process_analog(&preset, 0, 100, 200, 3750);
    assert!(matches!(&r.midi[0], ActionStep::Send(m) if m.data[2] == 0));
}

#[test]
fn analog_clamps_above_adc_max() {
    let preset = make_analog_preset(11, 1, 0, 127);
    // raw=4000 but adc_max=3750 — clamps to max
    let r = process_analog(&preset, 0, 4000, 0, 3750);
    assert!(matches!(&r.midi[0], ActionStep::Send(m) if m.data[2] == 127));
}

#[test]
fn analog_emits_display_event() {
    let preset = make_analog_preset(11, 1, 0, 127);
    let r = process_analog(&preset, 0, 1875, 0, 3750);
    assert_eq!(r.display.len(), 1);
    match &r.display[0] {
        DisplayEvent::AnalogOverlay { side, label, value } => {
            assert_eq!(*side, DisplaySide::L);
            assert_eq!(label.as_str(), "Wah");
            assert_eq!(*value, 63);
        }
        _ => panic!("expected AnalogOverlay"),
    }
}

#[test]
fn analog_invalid_index_returns_empty() {
    let preset = make_analog_preset(11, 1, 0, 127);
    let r = process_analog(&preset, 5, 1875, 0, 3750);
    assert!(r.midi.is_empty());
    assert!(r.display.is_empty());
}

// --- Trigger tests ---

fn make_trigger_preset(triggers: BoundedVec<Trigger, MAX_TRIGGERS>) -> DefaultPreset {
    let mut buttons: BoundedVec<ButtonConfig, MAX_BUTTONS> = BoundedVec::new();
    let mut on_press: BoundedVec<Action, MAX_ACTIONS> = BoundedVec::new();
    on_press.push(Action::cc(80, 127, 1).unwrap()).ok();
    buttons
        .push(ButtonConfig {
            label: Label::new(),
            color: LedConfig::default(),
            mode: ButtonMode::Toggle,
            on_press,
            on_release: BoundedVec::new(),
            on_long_press: BoundedVec::new(),
            cycle_values: BoundedVec::new(),
            listen_cc: None,
        })
        .ok();
    Preset {
        name: Label::new(),
        buttons,
        encoders: BoundedVec::new(),
        analog: BoundedVec::new(),
        defaults: Default::default(),
        on_enter: BoundedVec::new(),
        on_exit: BoundedVec::new(),
        triggers,
    }
}

#[test]
fn trigger_cc_activates_button() {
    let mut triggers: BoundedVec<Trigger, MAX_TRIGGERS> = BoundedVec::new();
    triggers
        .push(Trigger {
            match_msg: TriggerMatch::Cc {
                cc: 100,
                channel: 1,
                value_min: 64,
                value_max: 127,
            },
            action: TriggerAction::Activate(0),
        })
        .ok();
    let preset = make_trigger_preset(triggers);
    let mut state = DefaultPresetState::default();

    let r = process_triggers(&mut state, &preset, 0xB0, 100, 127);
    assert!(state.button_active[0]);
    assert!(r.led_dirty);
}

#[test]
fn trigger_cc_below_value_min_no_match() {
    let mut triggers: BoundedVec<Trigger, MAX_TRIGGERS> = BoundedVec::new();
    triggers
        .push(Trigger {
            match_msg: TriggerMatch::Cc {
                cc: 100,
                channel: 1,
                value_min: 64,
                value_max: 127,
            },
            action: TriggerAction::Activate(0),
        })
        .ok();
    let preset = make_trigger_preset(triggers);
    let mut state = DefaultPresetState::default();

    let r = process_triggers(&mut state, &preset, 0xB0, 100, 63);
    assert!(!state.button_active[0]);
    assert!(!r.led_dirty);
}

#[test]
fn trigger_deactivate_button() {
    let mut triggers: BoundedVec<Trigger, MAX_TRIGGERS> = BoundedVec::new();
    triggers
        .push(Trigger {
            match_msg: TriggerMatch::Cc {
                cc: 100,
                channel: 1,
                value_min: 0,
                value_max: 63,
            },
            action: TriggerAction::Deactivate(0),
        })
        .ok();
    let preset = make_trigger_preset(triggers);
    let mut state = DefaultPresetState::default();
    state.button_active[0] = true;

    let r = process_triggers(&mut state, &preset, 0xB0, 100, 0);
    assert!(!state.button_active[0]);
    assert!(r.led_dirty);
}

#[test]
fn trigger_program_change_selects_preset() {
    let mut triggers: BoundedVec<Trigger, MAX_TRIGGERS> = BoundedVec::new();
    triggers
        .push(Trigger {
            match_msg: TriggerMatch::ProgramChange {
                program: 5,
                channel: 1,
            },
            action: TriggerAction::PresetSelect(3),
        })
        .ok();
    let preset = make_trigger_preset(triggers);
    let mut state = DefaultPresetState::default();

    let r = process_triggers(&mut state, &preset, 0xC0, 5, 0);
    assert_eq!(r.system.len(), 1);
    assert_eq!(r.system[0], SystemAction::PresetSelect(3));
}

#[test]
fn trigger_note_on_executes_button() {
    let mut triggers: BoundedVec<Trigger, MAX_TRIGGERS> = BoundedVec::new();
    triggers
        .push(Trigger {
            match_msg: TriggerMatch::NoteOn {
                note: 60,
                channel: 1,
            },
            action: TriggerAction::Execute(0),
        })
        .ok();
    let preset = make_trigger_preset(triggers);
    let mut state = DefaultPresetState::default();

    let r = process_triggers(&mut state, &preset, 0x90, 60, 127);
    // Execute fires button 0's on_press: CC#80=127
    assert_eq!(r.midi.len(), 1);
    assert!(matches!(&r.midi[0], ActionStep::Send(m) if m.data == [0xB0, 80, 127]));
}

#[test]
fn trigger_note_on_velocity_zero_no_match() {
    let mut triggers: BoundedVec<Trigger, MAX_TRIGGERS> = BoundedVec::new();
    triggers
        .push(Trigger {
            match_msg: TriggerMatch::NoteOn {
                note: 60,
                channel: 1,
            },
            action: TriggerAction::Activate(0),
        })
        .ok();
    let preset = make_trigger_preset(triggers);
    let mut state = DefaultPresetState::default();

    // Note On with velocity 0 = Note Off, should not match
    let r = process_triggers(&mut state, &preset, 0x90, 60, 0);
    assert!(!state.button_active[0]);
    assert!(!r.led_dirty);
}

#[test]
fn trigger_wrong_channel_no_match() {
    let mut triggers: BoundedVec<Trigger, MAX_TRIGGERS> = BoundedVec::new();
    triggers
        .push(Trigger {
            match_msg: TriggerMatch::Cc {
                cc: 100,
                channel: 2,
                value_min: 0,
                value_max: 127,
            },
            action: TriggerAction::Activate(0),
        })
        .ok();
    let preset = make_trigger_preset(triggers);
    let mut state = DefaultPresetState::default();

    // Send on channel 1 (0xB0), trigger expects channel 2
    let r = process_triggers(&mut state, &preset, 0xB0, 100, 127);
    assert!(!state.button_active[0]);
    assert!(!r.led_dirty);
}

#[test]
fn trigger_multiple_triggers_all_fire() {
    let mut triggers: BoundedVec<Trigger, MAX_TRIGGERS> = BoundedVec::new();
    triggers
        .push(Trigger {
            match_msg: TriggerMatch::Cc {
                cc: 100,
                channel: 1,
                value_min: 0,
                value_max: 127,
            },
            action: TriggerAction::Activate(0),
        })
        .ok();
    triggers
        .push(Trigger {
            match_msg: TriggerMatch::Cc {
                cc: 100,
                channel: 1,
                value_min: 64,
                value_max: 127,
            },
            action: TriggerAction::PresetSelect(2),
        })
        .ok();
    let preset = make_trigger_preset(triggers);
    let mut state = DefaultPresetState::default();

    // CC#100 = 100 on ch1: matches both triggers
    let r = process_triggers(&mut state, &preset, 0xB0, 100, 100);
    assert!(state.button_active[0]);
    assert!(r.led_dirty);
    assert_eq!(r.system.len(), 1);
    assert_eq!(r.system[0], SystemAction::PresetSelect(2));
}
