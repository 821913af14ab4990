//! What holds of presets, the engine and the controller, on concrete values.

use pedalboard::action::EncoderDirection;
use pedalboard::bounded::BoundedVec;
use pedalboard::config::{
    Action, AnalogConfig, ButtonConfig, ButtonMode, Config, DefaultConfig, DefaultPreset,
    EncoderAction, EncoderConfig, GlobalConfig, Label, LedConfig, ListenCc, ListenMode, Trigger,
    TriggerAction, TriggerMatch,
};
use pedalboard::controller::{is_sound, Controller, Event};
use pedalboard::engine::{
    process_analog, process_button, process_encoder, process_incoming_cc, process_triggers,
    ActionStep, ButtonEvent, DisplayEvent, DisplaySide, ReactiveResult, SystemAction,
};
use pedalboard::led::Rgb;
use pedalboard::long_press::Edge;
use pedalboard::routing::MidiPort;
use pedalboard::state::{PresetState, EEPROM_MAX_PRESETS};
use pedalboard::{DefaultController, DefaultPresetState, DefaultPresetStateStore};

fn actions(list: &[Action]) -> BoundedVec<Action, 8> {
    let mut v = BoundedVec::new();
    v.push_all(list);
    v
}

fn cc(number: u8, value: u8) -> Action {
    Action::cc(number, value, 1).unwrap()
}

fn button(mode: ButtonMode, on_press: &[Action], on_release: &[Action]) -> ButtonConfig {
    ButtonConfig {
        label: Label::new(),
        color: LedConfig::default(),
        mode,
        on_press: actions(on_press),
        on_release: actions(on_release),
        on_long_press: BoundedVec::new(),
        cycle_values: BoundedVec::new(),
        listen_cc: None,
    }
}

fn preset_of(buttons: Vec<ButtonConfig>) -> DefaultPreset {
    let mut preset = DefaultPreset { name: Label::try_from("P").unwrap(), ..Default::default() };
    for b in buttons {
        preset.buttons.push(b).ok();
    }
    preset
}

fn config_of(presets: Vec<DefaultPreset>) -> DefaultConfig {
    let mut config: DefaultConfig = Config::default();
    for p in presets {
        config.presets.push(p).ok();
    }
    config
}

fn edge(index: u8, edge: Edge) -> Event {
    Event::ButtonEdge { index, edge }
}

fn midi(bytes: &[u8], source: MidiPort) -> Event {
    let mut data = [0u8; 8];
    data[..bytes.len()].copy_from_slice(bytes);
    Event::Midi { data, len: bytes.len() as u8, source }
}

fn sent(steps: &[ActionStep]) -> Vec<[u8; 3]> {
    steps
        .iter()
        .filter_map(|s| match s {
            ActionStep::Send(m) => Some(m.data),
            ActionStep::Delay(_) => None,
        })
        .collect()
}

// --- State ---

#[test]
fn state_bytes_roundtrip() {
    let state = DefaultPresetState {
        button_active: [true, false, false, true, false, true],
        cycle_index: [0, 1, 2, 3, 200, 255],
        encoder_values: [127, 64],
    };
    let mut buf = [0xAAu8; 14];
    state.to_bytes(&mut buf);
    assert_eq!(buf, [1, 0, 0, 1, 0, 1, 0, 1, 2, 3, 200, 255, 127, 64]);
    assert_eq!(PresetState::from_bytes(&buf), state);
    buf[1] = 7;
    assert!(PresetState::from_bytes(&buf).button_active[1]);
}

#[test]
fn eeprom_keeps_the_presets_that_fit() {
    let mut store = DefaultPresetStateStore::new();
    for i in 0..32 {
        store.states[i].encoder_values[1] = i as u8 + 1;
    }
    store.active = 8;
    let mut buf = [0u8; 128];
    store.to_eeprom(&mut buf);
    assert_eq!((buf[0], buf[1]), (0xED, 8));
    assert_eq!(buf[127], 9);
    let back = DefaultPresetStateStore::from_eeprom(&buf).unwrap();
    assert_eq!(back.active_index(), 8);
    for i in 0..32 {
        if i < EEPROM_MAX_PRESETS {
            assert_eq!(back.states[i], store.states[i]);
        } else {
            assert_eq!(back.states[i], DefaultPresetState::default());
        }
    }
}

#[test]
fn switching_changes_only_the_two_presets() {
    let preset = preset_of(vec![]);
    let mut store = DefaultPresetStateStore::default();
    store.states[5].encoder_values[0] = 55;
    let mut working = DefaultPresetState::default();
    working.cycle_index[2] = 9;
    store.switch(3, &mut working, &preset);
    assert_eq!(working, DefaultPresetState::default());
    store.switch(0, &mut working, &preset);
    assert_eq!(working.cycle_index[2], 9);
    assert_eq!(store.states[5].encoder_values[0], 55);
    assert_eq!(store.current().cycle_index[2], 9);
    store.current_mut().cycle_index[2] = 4;
    assert_eq!(store.states[0].cycle_index[2], 4);
}

#[test]
fn a_recall_stops_at_16_messages() {
    let eight: Vec<Action> = (0..8).map(|i| cc(i, 0)).collect();
    let buttons = vec![
        button(ButtonMode::Toggle, &[], &eight),
        button(ButtonMode::Toggle, &[], &eight),
        button(ButtonMode::Toggle, &[], &eight),
    ];
    let preset = preset_of(buttons);
    let mut store = DefaultPresetStateStore::new();
    let mut working = DefaultPresetState::default();
    let recall = store.switch(1, &mut working, &preset);
    assert_eq!(recall.len(), 16);
    assert_eq!(recall[15].data, [0xB0, 7, 0]);
}

// --- Engine ---

#[test]
fn a_toggle_pressed_twice_is_as_it_was() {
    let preset = preset_of(vec![button(ButtonMode::Toggle, &[cc(1, 127)], &[cc(1, 0)])]);
    let mut state = DefaultPresetState::default();
    let r = process_button(&mut state, &preset, 0, ButtonEvent::Press);
    assert_eq!(sent(&r.midi), vec![[0xB0, 1, 127]]);
    let r = process_button(&mut state, &preset, 0, ButtonEvent::Press);
    assert_eq!(sent(&r.midi), vec![[0xB0, 1, 0]]);
    assert_eq!(state, DefaultPresetState::default());
}

#[test]
fn a_radio_button_switches_its_group_only() {
    let preset = preset_of(vec![
        button(ButtonMode::RadioGroup(1), &[], &[]),
        button(ButtonMode::RadioGroup(1), &[], &[]),
        button(ButtonMode::RadioGroup(2), &[], &[]),
        button(ButtonMode::Toggle, &[], &[]),
        button(ButtonMode::RadioGroup(1), &[], &[]),
    ]);
    let mut state = DefaultPresetState { button_active: [true; 6], ..Default::default() };
    process_button(&mut state, &preset, 1, ButtonEvent::Press);
    assert_eq!(state.button_active, [false, true, true, true, false, true]);
}

#[test]
fn a_cycle_goes_round_and_back() {
    let forward = Action::CcCycle { cc: 20, channel: 1, reverse: false };
    let back = Action::CcCycle { cc: 20, channel: 1, reverse: true };
    let mut up = button(ButtonMode::Momentary, &[forward], &[back]);
    up.cycle_values.push_all(&[10, 20, 30]);
    let preset = preset_of(vec![up]);
    let mut state = DefaultPresetState::default();
    let mut values = vec![];
    for _ in 0..7 {
        let r = process_button(&mut state, &preset, 0, ButtonEvent::Press);
        values.push(sent(&r.midi)[0][2]);
    }
    assert_eq!(values, vec![10, 20, 30, 10, 20, 30, 10]);
    assert_eq!(state.cycle_index[0], 1);
    for expected in [0, 2, 1] {
        process_button(&mut state, &preset, 0, ButtonEvent::Release);
        assert_eq!(state.cycle_index[0], expected);
    }
}

#[test]
fn a_step_back_sends_the_value_it_leaves() {
    let forward = Action::CcCycle { cc: 20, channel: 16, reverse: false };
    let back = Action::CcCycle { cc: 20, channel: 16, reverse: true };
    let mut b = button(ButtonMode::Momentary, &[forward, back], &[]);
    b.cycle_values.push_all(&[10, 20, 30]);
    let preset = preset_of(vec![b]);
    let mut state = DefaultPresetState::default();
    for (i, next) in [(0u8, 20u8), (1, 30), (2, 10)] {
        state.cycle_index[0] = i;
        let r = process_button(&mut state, &preset, 0, ButtonEvent::Press);
        assert_eq!(sent(&r.midi), vec![[0xBF, 20, 10 * (i + 1)], [0xBF, 20, next]]);
        assert_eq!(state.cycle_index[0], i);
        assert!(r.system.is_empty());
    }
}

#[test]
fn a_cycle_index_past_the_end_is_reduced() {
    let forward = Action::CcCycle { cc: 20, channel: 1, reverse: false };
    let back = Action::CcCycle { cc: 20, channel: 1, reverse: true };
    let mut b = button(ButtonMode::Momentary, &[forward], &[back]);
    b.cycle_values.push_all(&[10, 20, 30]);
    let preset = preset_of(vec![b]);
    let mut state = DefaultPresetState::default();
    state.cycle_index[0] = 10;
    let r = process_button(&mut state, &preset, 0, ButtonEvent::Press);
    assert_eq!(sent(&r.midi), vec![[0xB0, 20, 20]]);
    assert_eq!(state.cycle_index[0], 2);
    state.cycle_index[0] = 10;
    process_button(&mut state, &preset, 0, ButtonEvent::Release);
    assert_eq!(state.cycle_index[0], 9);
}

#[test]
fn a_cycle_without_values_sends_nothing() {
    let forward = Action::CcCycle { cc: 20, channel: 0, reverse: false };
    let preset = preset_of(vec![button(ButtonMode::Momentary, &[forward], &[])]);
    let mut state = DefaultPresetState::default();
    let r = process_button(&mut state, &preset, 0, ButtonEvent::Press);
    assert!(r.midi.is_empty());
    assert_eq!(state.cycle_index[0], 0);
}

#[test]
fn a_list_asks_for_two_system_actions_at_most() {
    let list = [
        Action::BankUp,
        Action::BankDown,
        Action::PresetSelect(3),
        Action::Delay(9),
        Action::SetLed { color: Default::default(), animation: Default::default() },
    ];
    let preset = preset_of(vec![button(ButtonMode::Momentary, &list, &[])]);
    let mut state = DefaultPresetState::default();
    let r = process_button(&mut state, &preset, 0, ButtonEvent::Press);
    assert_eq!(r.system.as_slice(), &[SystemAction::PresetNext, SystemAction::PresetPrev]);
    assert_eq!(r.midi.as_slice(), &[ActionStep::Delay(9)]);
}

#[test]
fn a_momentary_button_is_active_while_it_is_held() {
    let preset = preset_of(vec![button(ButtonMode::Momentary, &[cc(1, 127)], &[cc(1, 0)])]);
    let mut state = DefaultPresetState::default();
    assert!(process_button(&mut state, &preset, 0, ButtonEvent::Press).led_dirty);
    assert!(state.button_active[0]);
    let r = process_button(&mut state, &preset, 0, ButtonEvent::Release);
    assert!(r.led_dirty && !state.button_active[0]);
    assert_eq!(sent(&r.midi), vec![[0xB0, 1, 0]]);
}

#[test]
fn an_encoder_adds_its_steps_up() {
    let mut preset = preset_of(vec![]);
    preset
        .encoders
        .push(EncoderConfig {
            label: Label::try_from("Vol").unwrap(),
            action: EncoderAction::Cc { cc: 7, channel: 1, min: 0, max: 100 },
        })
        .ok();
    let mut once = DefaultPresetState::default();
    let mut twice = DefaultPresetState::default();
    process_encoder(&mut once, &preset, 0, EncoderDirection::Clockwise, 8);
    process_encoder(&mut twice, &preset, 0, EncoderDirection::Clockwise, 5);
    let r = process_encoder(&mut twice, &preset, 0, EncoderDirection::Clockwise, 3);
    assert_eq!(once, twice);
    assert_eq!(sent(&r.midi), vec![[0xB0, 7, 8]]);
    assert_eq!(
        r.display.as_slice(),
        &[DisplayEvent::EncoderOverlay {
            side: DisplaySide::L,
            label: Label::try_from("Vol").unwrap(),
            value: 8
        }]
    );
    let r = process_encoder(&mut once, &preset, 1, EncoderDirection::Clockwise, 8);
    assert!(r.midi.is_empty() && r.display.is_empty() && !r.led_dirty);
}

#[test]
fn an_analog_overlay_shows_label_and_value() {
    let mut preset = preset_of(vec![]);
    for name in ["Wah", "Exp"] {
        let label = Label::try_from(name).unwrap();
        preset.analog.push(AnalogConfig { label, cc: 4, channel: 2, min: 0, max: 127 }).ok();
    }
    let r = process_analog(&preset, 1, 500, 0, 1000);
    assert_eq!(sent(&r.midi), vec![[0xB1, 4, 63]]);
    let label = Label::try_from("Exp").unwrap();
    assert_eq!(
        r.display.as_slice(),
        &[DisplayEvent::AnalogOverlay { side: DisplaySide::R, label, value: 63 }]
    );
    assert!(process_analog(&preset, 2, 500, 0, 1000).midi.is_empty());
}

fn on_cc(number: u8, action: TriggerAction) -> Trigger {
    Trigger {
        match_msg: TriggerMatch::Cc { cc: number, channel: 1, value_min: 10, value_max: 20 },
        action,
    }
}

#[test]
fn a_fired_button_sends_what_its_press_sends() {
    let mut preset = preset_of(vec![button(ButtonMode::Toggle, &[cc(1, 127)], &[cc(1, 0)])]);
    preset.triggers.push(on_cc(50, TriggerAction::Execute(0))).ok();
    let mut state = DefaultPresetState::default();
    let t = process_triggers(&mut state, &preset, 0xB0, 50, 15);
    assert_eq!(state, DefaultPresetState::default());
    let r = process_button(&mut state, &preset, 0, ButtonEvent::Press);
    assert_eq!(t.midi.as_slice(), r.midi.as_slice());
    assert!(!t.led_dirty);
}

#[test]
fn a_fired_button_may_be_active_unless_it_is_a_toggle() {
    for mode in [ButtonMode::Momentary, ButtonMode::RadioGroup(1)] {
        let mut preset = preset_of(vec![button(mode, &[cc(1, 127)], &[cc(1, 0)])]);
        preset.triggers.push(on_cc(50, TriggerAction::Execute(0))).ok();
        let mut state = DefaultPresetState { button_active: [true; 6], ..Default::default() };
        let t = process_triggers(&mut state, &preset, 0xB0, 50, 15);
        assert_eq!(state.button_active, [true; 6]);
        let r = process_button(&mut state, &preset, 0, ButtonEvent::Press);
        assert_eq!(t.midi.as_slice(), r.midi.as_slice());
        assert_eq!(sent(&t.midi), vec![[0xB0, 1, 127]]);
    }
}

#[test]
fn triggers_that_do_not_match_break_no_silence() {
    let mut preset = preset_of(vec![button(ButtonMode::Momentary, &[cc(1, 127)], &[])]);
    preset.triggers.push(on_cc(51, TriggerAction::Execute(0))).ok();
    preset.triggers.push(on_cc(50, TriggerAction::Activate(0))).ok();
    preset.triggers.push(on_cc(52, TriggerAction::PresetSelect(1))).ok();
    let mut state = DefaultPresetState::default();
    let t = process_triggers(&mut state, &preset, 0xB0, 50, 15);
    assert!(state.button_active[0] && t.led_dirty);
    assert!(t.midi.is_empty() && t.system.is_empty());
}

#[test]
fn every_trigger_that_matches_runs_in_order() {
    let mut preset = preset_of(vec![]);
    preset.triggers.push(on_cc(50, TriggerAction::Activate(2))).ok();
    preset.triggers.push(on_cc(50, TriggerAction::Deactivate(2))).ok();
    preset.triggers.push(on_cc(50, TriggerAction::Activate(3))).ok();
    preset.triggers.push(on_cc(50, TriggerAction::Activate(6))).ok();
    preset.triggers.push(on_cc(50, TriggerAction::Execute(6))).ok();
    let mut state = DefaultPresetState::default();
    let t = process_triggers(&mut state, &preset, 0xB0, 50, 20);
    assert_eq!(state.button_active, [false, false, false, true, false, false]);
    assert!(t.led_dirty && t.midi.is_empty() && t.system.is_empty());
}

#[test]
fn messages_that_match_no_trigger_are_ignored() {
    let mut preset = preset_of(vec![]);
    preset.triggers.push(on_cc(50, TriggerAction::Activate(0))).ok();
    let note = TriggerMatch::NoteOn { note: 60, channel: 1 };
    preset.triggers.push(Trigger { match_msg: note, action: TriggerAction::Activate(1) }).ok();
    for (status, data1, data2) in
        [(0xB0, 50, 9), (0xB0, 50, 21), (0xB1, 50, 15), (0xB0, 51, 15), (0x90, 60, 0)]
    {
        let mut state = DefaultPresetState::default();
        let t = process_triggers(&mut state, &preset, status, data1, data2);
        assert_eq!(state, DefaultPresetState::default());
        assert!(!t.led_dirty && t.midi.is_empty() && t.system.is_empty());
    }
}

#[test]
fn the_first_bound_button_shows_a_cc() {
    let mut preset = preset_of(vec![
        button(ButtonMode::Toggle, &[], &[]),
        button(ButtonMode::Toggle, &[], &[]),
        button(ButtonMode::Toggle, &[], &[]),
    ]);
    let bound = |mode| Some(ListenCc { cc: 9, channel: 3, mode, threshold: 64 });
    let mut buttons: BoundedVec<ButtonConfig, 6> = BoundedVec::new();
    for (i, b) in preset.buttons.iter().enumerate() {
        let mut b = b.clone();
        if i == 1 {
            b.listen_cc = bound(ListenMode::Heatmap);
        } else if i == 2 {
            b.listen_cc = bound(ListenMode::Trigger);
        }
        buttons.push(b).ok();
    }
    preset.buttons = buttons;
    for (value, fill) in [(0, 0), (10, 0), (11, 1), (64, 6), (126, 11), (127, 12), (255, 12)] {
        assert_eq!(
            process_incoming_cc(&preset, 3, 9, value),
            Some(ReactiveResult::Heatmap(1, fill))
        );
    }
    assert_eq!(process_incoming_cc(&preset, 2, 9, 64), None);
    assert_eq!(process_incoming_cc(&preset, 3, 8, 64), None);
}

// --- Controller ---

fn long_button() -> ButtonConfig {
    let mut b = button(ButtonMode::Momentary, &[cc(1, 127)], &[cc(1, 0)]);
    b.on_long_press = actions(&[cc(2, 127)]);
    b
}

#[test]
fn a_short_press_is_a_press_and_a_release() {
    let config = config_of(vec![preset_of(vec![long_button()])]);
    let mut ctrl = DefaultController::new();
    let out = ctrl.process(edge(0, Edge::Activate), 0, &config);
    assert!(out.midi.is_empty() && out.leds_changed && out.mon_led.is_none());
    assert!(ctrl.button_held());
    let out = ctrl.process(edge(0, Edge::Deactivate), 100, &config);
    assert_eq!(sent(&out.midi), vec![[0xB0, 1, 127], [0xB0, 1, 0]]);
    assert_eq!(out.display.as_slice(), &[DisplayEvent::LongPressCancel]);
    assert_eq!(out.mon_led, Some(Rgb::new(0, 255, 0)));
    assert!(!ctrl.button_held());
}

#[test]
fn a_long_press_swallows_its_release() {
    let config = config_of(vec![preset_of(vec![long_button()])]);
    let mut ctrl = DefaultController::default();
    ctrl.process(edge(0, Edge::Activate), 0, &config);
    assert!(ctrl.process(Event::Tick, 499, &config).midi.is_empty());
    let out = ctrl.process(Event::Tick, 500, &config);
    assert_eq!(sent(&out.midi), vec![[0xB0, 2, 127]]);
    assert!(ctrl.process(Event::Tick, 501, &config).midi.is_empty());
    assert!(ctrl.process(edge(0, Edge::Deactivate), 600, &config).midi.is_empty());
}

#[test]
fn only_named_presets_are_stepped_through() {
    let next = button(ButtonMode::Momentary, &[Action::PresetNext], &[]);
    let prev = button(ButtonMode::Momentary, &[Action::PresetPrev], &[]);
    let buttons = || vec![next.clone(), prev.clone()];
    let unnamed = DefaultPreset { name: Label::new(), ..preset_of(buttons()) };
    let config = config_of(vec![preset_of(buttons()), preset_of(buttons()), unnamed]);
    let mut ctrl = DefaultController::new();
    let mut seen = vec![];
    for index in [0u8, 0, 0, 1, 1, 1] {
        let out = ctrl.process(edge(index, Edge::Activate), 0, &config);
        assert!(out.preset_changed && out.leds_changed && out.mode_led.is_some());
        seen.push(ctrl.active_preset());
    }
    assert_eq!(seen, vec![1, 0, 1, 0, 1, 0]);
}

#[test]
fn no_named_preset_means_no_step() {
    let next = button(ButtonMode::Momentary, &[Action::PresetNext], &[]);
    let unnamed = DefaultPreset { name: Label::new(), ..preset_of(vec![next]) };
    let config = config_of(vec![unnamed]);
    let mut ctrl = DefaultController::new();
    let out = ctrl.process(edge(0, Edge::Activate), 0, &config);
    assert!(!out.preset_changed && out.mode_led.is_none());
}

#[test]
fn leaving_and_coming_back_restores_a_preset() {
    let toggle = button(ButtonMode::Toggle, &[cc(1, 127)], &[cc(1, 0)]);
    let mut first = preset_of(vec![toggle.clone()]);
    first.on_exit = actions(&[cc(90, 1), Action::Delay(5)]);
    let mut second = preset_of(vec![toggle]);
    second.on_enter = actions(&[cc(91, 1)]);
    let config = config_of(vec![first, second]);
    let mut ctrl = DefaultController::new();
    ctrl.set_encoder_value(1, 77);
    ctrl.set_encoder_value(2, 1);
    ctrl.process(edge(0, Edge::Activate), 0, &config);
    let before = *ctrl.button_states();
    assert_eq!(before, [true, false, false, false, false, false]);

    let out = ctrl.select_preset(1, &config);
    assert_eq!(
        sent(&out.midi),
        vec![[0xB0, 90, 1], [0xB0, 91, 1], [0xB0, 1, 0]]
    );
    assert_eq!(out.midi[1], ActionStep::Delay(5));
    assert_eq!(out.mode_led, Some(Rgb::new(0, 255, 0)));
    assert_eq!(*ctrl.button_states(), [false; 6]);
    assert_eq!(ctrl.encoder_values(), [0, 0]);

    let out = ctrl.select_preset(0, &config);
    assert_eq!(sent(&out.midi), vec![[0xB0, 1, 127]]);
    assert_eq!(*ctrl.button_states(), before);
    assert_eq!(ctrl.encoder_values(), [0, 77]);
}

#[test]
fn a_preset_that_is_not_there_is_not_entered() {
    let mut only = preset_of(vec![]);
    only.on_exit = actions(&[cc(90, 1)]);
    let config = config_of(vec![only]);
    let mut ctrl = DefaultController::new();
    let out = ctrl.select_preset(4, &config);
    assert!(out.midi.is_empty() && out.display.is_empty());
    assert!(!out.preset_changed && !out.leds_changed && out.mode_led.is_none());
    assert_eq!(ctrl.active_preset(), 0);
    assert!(ctrl.select_preset(0, &config).preset_changed);
}

#[test]
fn a_step_back_past_the_configured_presets_is_none() {
    let many = config_of((0..8).map(|_| preset_of(vec![])).collect());
    let mut trigger = preset_of(vec![button(ButtonMode::Momentary, &[Action::PresetPrev], &[])]);
    trigger.on_exit = actions(&[cc(90, 1)]);
    let few = config_of(vec![trigger]);
    let mut ctrl = DefaultController::new();
    ctrl.select_preset(7, &many);
    let out = ctrl.process(edge(0, Edge::Activate), 0, &few);
    assert!(!out.preset_changed && out.midi.is_empty());
    assert_eq!(ctrl.active_preset(), 7);
    // From there a preset is entered without one being left
    let out = ctrl.select_preset(0, &few);
    assert!(out.preset_changed && out.midi.is_empty());
    assert_eq!(ctrl.active_preset(), 0);
}

#[test]
fn a_switch_forgets_held_buttons() {
    let config = config_of(vec![preset_of(vec![long_button()]), preset_of(vec![long_button()])]);
    let mut ctrl = DefaultController::new();
    ctrl.process(edge(0, Edge::Activate), 0, &config);
    ctrl.select_preset(1, &config);
    assert!(!ctrl.button_held());
    assert!(ctrl.process(Event::Tick, 1000, &config).midi.is_empty());
    assert!(ctrl.process(edge(0, Edge::Deactivate), 1001, &config).midi.is_empty());
}

#[test]
fn a_snapshot_restores_the_controller() {
    let toggle = button(ButtonMode::Toggle, &[cc(1, 127)], &[cc(1, 0)]);
    let config = config_of(vec![preset_of(vec![toggle.clone()]), preset_of(vec![toggle])]);
    let mut ctrl = DefaultController::new();
    ctrl.process(edge(0, Edge::Activate), 0, &config);
    ctrl.select_preset(1, &config);
    ctrl.set_encoder_value(0, 42);
    ctrl.process(edge(0, Edge::Activate), 0, &config);
    let mut buf = [0u8; 128];
    ctrl.snapshot_store().to_eeprom(&mut buf);
    let store = DefaultPresetStateStore::from_eeprom(&buf).unwrap();
    let mut again = Controller::with_state(store);
    assert_eq!(again.active_preset(), 1);
    assert_eq!(again.button_states(), ctrl.button_states());
    assert_eq!(again.encoder_values(), [42, 0]);
    again.select_preset(0, &config);
    assert!(again.button_states()[0]);
}

#[test]
fn messages_go_to_the_ports_they_are_routed_to() {
    let mut config = config_of(vec![]);
    let route = |config: &DefaultConfig, source: MidiPort| {
        let out = DefaultController::new().process(midi(&[0xF8], source), 0, config);
        assert_eq!(out.mon_led, Some(Rgb::new(0, 0, 255)));
        out.midi_out.iter().map(|m| (m.bytes().to_vec(), m.dest)).collect::<Vec<_>>()
    };
    let to = |dest: MidiPort| vec![(vec![0xF8u8], dest)];
    assert_eq!(route(&config, MidiPort::din()), to(MidiPort::usb()));
    assert_eq!(route(&config, MidiPort::usb()), vec![]);
    assert_eq!(route(&config, MidiPort::ble()), vec![]);
    config.global.usb_to_din_thru = true;
    assert_eq!(route(&config, MidiPort::usb()), to(MidiPort::din()));
    config.global.usb_to_usb_thru = true;
    assert_eq!(route(&config, MidiPort::usb()), to(MidiPort::all()));
    config.global.din_to_usb_thru = false;
    assert_eq!(route(&config, MidiPort::din()), vec![]);
    assert_eq!(route(&config, MidiPort::all()), to(MidiPort::all()));
    let out = DefaultController::new().process(midi(&[], MidiPort::usb()), 0, &config);
    assert!(out.midi_out.is_empty());
}

#[test]
fn an_idle_tick_does_nothing() {
    let config = config_of(vec![preset_of(vec![long_button()])]);
    let mut ctrl = DefaultController::new();
    let out = ctrl.process(Event::Tick, 5000, &config);
    assert!(out.midi.is_empty() && out.display.is_empty() && !out.leds_changed);
    assert!(out.mon_led.is_none() && !out.preset_changed && out.bpm.is_none());
}

#[test]
fn inputs_that_are_not_there_do_nothing() {
    let config = config_of(vec![preset_of(vec![long_button()])]);
    let mut ctrl = DefaultController::new();
    for event in [
        edge(6, Edge::Activate),
        Event::EncoderTurn { index: 2, clockwise: true },
        Event::Analog { index: 2, raw: 100 },
    ] {
        let out = ctrl.process(event, 0, &config);
        assert!(out.midi.is_empty() && out.display.is_empty() && !out.leds_changed);
    }
    assert!(!ctrl.button_held());
}

#[test]
fn without_presets_nothing_happens() {
    let config = config_of(vec![]);
    let mut ctrl = DefaultController::new();
    let out = ctrl.process(edge(0, Edge::Activate), 0, &config);
    assert!(out.midi.is_empty() && !out.leds_changed && !ctrl.button_held());
}

#[test]
fn every_pedal_has_its_own_calibration() {
    let mut preset = preset_of(vec![]);
    for _ in 0..2 {
        preset
            .analog
            .push(AnalogConfig { label: Label::new(), cc: 4, channel: 1, min: 0, max: 100 })
            .ok();
    }
    let mut config = config_of(vec![preset]);
    config.global =
        GlobalConfig { exp1_min: 0, exp1_max: 1000, exp2_min: 500, exp2_max: 1500, ..config.global };
    let mut ctrl = DefaultController::new();
    let out = ctrl.process(Event::Analog { index: 0, raw: 750 }, 0, &config);
    assert_eq!(sent(&out.midi), vec![[0xB0, 4, 75]]);
    let out = ctrl.process(Event::Analog { index: 1, raw: 750 }, 0, &config);
    assert_eq!(sent(&out.midi), vec![[0xB0, 4, 25]]);
}

#[test]
fn the_hint_names_the_first_preset_step() {
    let mut b = long_button();
    b.on_long_press = actions(&[cc(2, 1), Action::BankUp, Action::PresetPrev, Action::PresetNext]);
    let config = config_of(vec![preset_of(vec![b])]);
    let mut ctrl = DefaultController::new();
    let out = ctrl.process(edge(0, Edge::Activate), 0, &config);
    assert_eq!(
        out.display.as_slice(),
        &[DisplayEvent::LongPressHint { action: SystemAction::PresetPrev }]
    );
}

#[test]
fn a_trigger_switches_presets() {
    let mut first = preset_of(vec![]);
    first.triggers.push(on_cc(50, TriggerAction::PresetSelect(9))).ok();
    first.triggers.push(on_cc(50, TriggerAction::PresetSelect(1))).ok();
    let config = config_of(vec![first, preset_of(vec![])]);
    let mut ctrl = DefaultController::new();
    let out = ctrl.process(midi(&[0xB0, 50, 15], MidiPort::usb()), 0, &config);
    assert!(out.preset_changed);
    assert_eq!(ctrl.active_preset(), 1);
    assert_eq!(out.mode_led, Some(Rgb::new(0, 255, 0)));
}

#[test]
fn presets_less_than_eight_apart_have_their_own_color() {
    let config = config_of((0..16).map(|_| preset_of(vec![])).collect());
    let mut ctrl = DefaultController::new();
    let colors: Vec<Rgb> =
        (0..16).map(|i| ctrl.select_preset(i, &config).mode_led.unwrap()).collect();
    for i in 0..16usize {
        for j in 0..16usize {
            assert_eq!(colors[i] == colors[j], i % 8 == j % 8);
        }
    }
    assert_eq!(colors[6], Rgb::new(255, 128, 0));
}

#[test]
fn taps_set_the_tempo() {
    let tap = button(ButtonMode::Momentary, &[Action::TapTempo], &[]);
    let config = config_of(vec![preset_of(vec![tap])]);
    let mut ctrl = DefaultController::new();
    for t in [0, 400, 800] {
        assert_eq!(ctrl.process(edge(0, Edge::Activate), t, &config).bpm, None);
    }
    let out = ctrl.process(edge(0, Edge::Activate), 1200, &config);
    assert_eq!(out.bpm, Some(150));
    assert_eq!(out.display.as_slice(), &[DisplayEvent::BpmOverlay { bpm: 150 }]);
}

#[test]
fn taps_that_a_trigger_fires_set_the_tempo() {
    let tap = button(ButtonMode::Momentary, &[Action::TapTempo], &[]);
    let mut preset = preset_of(vec![tap]);
    preset.triggers.push(on_cc(50, TriggerAction::Execute(0))).ok();
    let config = config_of(vec![preset]);
    let mut ctrl = DefaultController::new();
    let fire = || midi(&[0xB0, 50, 15], MidiPort::usb());
    for t in [1000, 1500, 2000] {
        assert_eq!(ctrl.process(fire(), t, &config).bpm, None);
    }
    let out = ctrl.process(fire(), 2500, &config);
    assert_eq!(out.bpm, Some(120));
    // A pressed tap goes on from there
    let out = ctrl.process(edge(0, Edge::Activate), 3000, &config);
    assert_eq!(out.bpm, Some(120));
}

#[test]
fn sound_configurations_have_channels_and_calibrations() {
    let good = || {
        let mut preset = preset_of(vec![long_button()]);
        preset
            .analog
            .push(AnalogConfig { label: Label::new(), cc: 4, channel: 1, min: 0, max: 127 })
            .ok();
        preset
    };
    assert!(is_sound(&config_of(vec![])));
    assert!(is_sound(&config_of(vec![good(), good()])));

    let mute = Action::Cc { cc: 1, value: 1, channel: 0 };
    let mut bad = good();
    bad.on_enter = actions(&[mute]);
    assert!(!is_sound(&config_of(vec![good(), bad])));
    let mut bad = good();
    bad.on_exit = actions(&[Action::CcCycle { cc: 1, channel: 0, reverse: true }]);
    assert!(!is_sound(&config_of(vec![bad])));
    let mut bad = good();
    bad.buttons.push(button(ButtonMode::Toggle, &[], &[mute])).ok();
    assert!(!is_sound(&config_of(vec![bad])));
    let mut bad = good();
    let action = EncoderAction::CcRelative { cc: 1, channel: 0, increment: 1, decrement: 2 };
    bad.encoders.push(EncoderConfig { label: Label::new(), action }).ok();
    assert!(!is_sound(&config_of(vec![bad])));
    let mut bad = good();
    bad.analog
        .push(AnalogConfig { label: Label::new(), cc: 4, channel: 1, min: 9, max: 8 })
        .ok();
    assert!(!is_sound(&config_of(vec![bad])));
    let mut config = config_of(vec![good()]);
    config.global.exp2_max = 0;
    assert!(is_sound(&config));
    config.global.exp1_max = 0;
    assert!(!is_sound(&config));
}

#[test]
fn the_output_stops_at_32_steps() {
    let eight: Vec<Action> = (0..8).map(|i| cc(i, 0)).collect();
    let mut first = preset_of(vec![]);
    first.on_exit = actions(&eight);
    let full = button(ButtonMode::Toggle, &[], &eight);
    let mut second = preset_of(vec![full.clone(), full.clone(), full]);
    second.on_enter = actions(&eight);
    let config = config_of(vec![first, second]);
    let mut ctrl = DefaultController::new();
    let out = ctrl.select_preset(1, &config);
    assert_eq!(out.midi.len(), 32);
}

#[test]
fn a_small_board_works_the_same() {
    let mut config: Config<1, 1, 1> = Config::default();
    let mut preset = pedalboard::config::Preset::<1, 1, 1>::default();
    preset.buttons.push(button(ButtonMode::Toggle, &[cc(1, 127)], &[cc(1, 0)])).ok();
    config.presets.push(preset).ok();
    let mut ctrl: Controller<1, 1> = Controller::new();
    let out = ctrl.process(edge(0, Edge::Activate), 0, &config);
    assert_eq!(sent(&out.midi), vec![[0xB0, 1, 127]]);
    assert_eq!(ctrl.button_states(), &[true]);
    assert!(ctrl.process(edge(1, Edge::Activate), 0, &config).midi.is_empty());
}
