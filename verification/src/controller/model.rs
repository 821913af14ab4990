//! What the controller does, as functions on what it knows.
//!
//! A `Stage` is a controller on its way through an event. Each thing that an event
//! brings about, from a button's actions to a preset switch, leads from one stage to
//! the next; `settled` and `event_output` put them together. The laws at the end
//! say what holds of the whole.

use vstd::prelude::*;

use crate::action::{
    analog_convertible, encoder_sendable, sendable, EncoderDirection, MidiMessage,
};
use crate::bounded::{clip, lemma_clip_append};
use crate::config::{
    label_text, Action, ButtonConfig, ButtonMode, Config, GlobalConfig, Preset, Trigger,
    TriggerAction, MAX_PRESETS,
};
use crate::controller::Event;
use crate::encoder_accel::detent_steps;
use crate::engine::{
    action_steps, all_executable, analog_output, button_executable, button_output, encoder_output,
    matched, reactive, state_after_button, state_after_encoder, system_actions, triggered,
    triggers_executable, ActionStep, ButtonEvent, DisplayEvent, EngineModel, ReactiveResult, SystemAction, TriggerModel,
};
use crate::led::{rgb, Rgb};
use crate::long_press::{Edge, Gesture, PressModel};
use crate::routing::{byte_or_zero, MidiOut, MidiPort};
use crate::state::{
    eeprom_image, image_store, recall, recall_actions, recallable, StateModel, StoreModel,
    EEPROM_MAX_PRESETS,
};
use crate::tap_tempo::{tap_result, taps_after};

verus! {

/// What the caller is to emit.
#[verifier::ext_equal]
pub ghost struct OutputModel {
    pub midi: Seq<ActionStep>,
    pub midi_out: Seq<MidiOut>,
    pub display: Seq<DisplayEvent>,
    pub leds_changed: bool,
    pub preset_changed: bool,
    pub bpm: Option<u16>,
    pub mon_led: Option<Rgb>,
    pub mode_led: Option<Rgb>,
    pub reactive_led: Option<ReactiveResult>,
}

impl OutputModel {
    /// Nothing at all.
    pub open spec fn nothing() -> OutputModel {
        OutputModel {
            midi: Seq::empty(),
            midi_out: Seq::empty(),
            display: Seq::empty(),
            leds_changed: false,
            preset_changed: false,
            bpm: None,
            mon_led: None,
            mode_led: None,
            reactive_led: None,
        }
    }
}

/// What a controller knows: the state of every preset, what each button's detector
/// and each encoder's timer saw last, the last taps, which buttons are active, and
/// which preset is.
#[verifier::ext_equal]
pub ghost struct ControllerModel {
    pub store: StoreModel,
    pub long_press: Seq<PressModel>,
    pub accel: Seq<Option<u32>>,
    pub taps: Seq<u32>,
    pub buttons: Seq<bool>,
    pub active_preset: u8,
}

impl ControllerModel {
    /// A controller of `b` buttons and `e` encoders whose active preset is the one
    /// that is active in its store.
    pub open spec fn valid(self, b: nat, e: nat) -> bool {
        &&& self.store.valid(b, e)
        &&& self.long_press.len() == b
        &&& self.accel.len() == e
        &&& self.taps.len() <= 3
        &&& self.buttons.len() == b
        &&& self.active_preset == self.store.active
    }

    /// A controller that starts from a store.
    pub open spec fn started(store: StoreModel, b: nat, e: nat) -> ControllerModel {
        ControllerModel {
            store,
            long_press: Seq::new(b, |i: int| PressModel::spent()),
            accel: Seq::new(e, |i: int| None::<u32>),
            taps: Seq::empty(),
            buttons: store.current().button_active,
            active_preset: store.active,
        }
    }

    /// The state of the active preset as it is now.
    pub open spec fn working(self) -> StateModel {
        StateModel { button_active: self.buttons, ..self.store.current() }
    }

    /// The controller once the active preset's state is `state`.
    pub open spec fn applied(self, state: StateModel) -> ControllerModel {
        ControllerModel { buttons: state.button_active, store: self.store.saved(state), ..self }
    }

    /// The controller once an encoder of the active preset stands at `value`. An
    /// encoder that is not there changes nothing.
    pub open spec fn with_encoder(self, index: int, value: u8) -> ControllerModel {
        if index < self.accel.len() {
            let state = self.store.current();
            ControllerModel {
                store: self.store.saved(
                    StateModel {
                        encoder_values: state.encoder_values.update(index, value),
                        ..state
                    },
                ),
                ..self
            }
        } else {
            self
        }
    }

    /// Whether any button is held down.
    pub open spec fn held(self) -> bool {
        exists|i: int| 0 <= i < self.long_press.len() && (#[trigger] self.long_press[i]).active
    }
}

/// A controller on its way through an event: what it knows by now, what is to be
/// emitted by now, and the system actions that are still to be handled.
#[verifier::ext_equal]
pub ghost struct Stage {
    pub ctrl: ControllerModel,
    pub out: OutputModel,
    pub pending: Seq<SystemAction>,
}

impl Stage {
    /// Before anything happened.
    pub open spec fn start(ctrl: ControllerModel) -> Stage {
        Stage { ctrl, out: OutputModel::nothing(), pending: Seq::empty() }
    }

    /// With more steps, as far as there is room.
    pub open spec fn sending(self, steps: Seq<ActionStep>) -> Stage {
        Stage { out: OutputModel { midi: clip(self.out.midi + steps, 32), ..self.out }, ..self }
    }

    /// With one more display event, as far as there is room.
    pub open spec fn showing(self, event: DisplayEvent) -> Stage {
        Stage {
            out: OutputModel { display: clip(self.out.display.push(event), 2), ..self.out },
            ..self
        }
    }

    /// With what the engine brought about.
    pub open spec fn merged(self, r: EngineModel) -> Stage {
        Stage {
            out: OutputModel {
                midi: clip(self.out.midi + r.midi, 32),
                display: clip(self.out.display + r.display, 2),
                leds_changed: self.out.leds_changed || r.led_dirty,
                ..self.out
            },
            pending: clip(self.pending + r.system, 2),
            ..self
        }
    }

    /// After an event of button `idx`.
    pub open spec fn button(
        self,
        buttons: Seq<ButtonConfig>,
        idx: int,
        event: ButtonEvent,
    ) -> Stage {
        let working = self.ctrl.working();
        Stage {
            ctrl: self.ctrl.applied(state_after_button(buttons, working, idx, event)),
            ..self
        }.merged(button_output(buttons, working, idx, event))
    }

    /// Whether a short press of button `idx` is followed by a release.
    pub open spec fn releases(buttons: Seq<ButtonConfig>, idx: int) -> bool {
        idx < buttons.len() && (buttons[idx].mode == ButtonMode::Momentary
            || buttons[idx].on_release@.len() > 0)
    }

    /// After a gesture on button `idx`. A short press clears the hint, then is a
    /// press and, where it has one, a release.
    pub open spec fn gestured(
        self,
        buttons: Seq<ButtonConfig>,
        idx: int,
        gesture: Gesture,
    ) -> Stage {
        match gesture {
            Gesture::ShortPress => {
                let pressed = self.showing(DisplayEvent::LongPressCancel).button(
                    buttons,
                    idx,
                    ButtonEvent::Press,
                );
                if Stage::releases(buttons, idx) {
                    pressed.button(buttons, idx, ButtonEvent::Release)
                } else {
                    pressed
                }
            },
            Gesture::LongPress => self.button(buttons, idx, ButtonEvent::LongPress),
        }
    }

    /// Whether every action that a gesture runs has a channel.
    pub open spec fn gesture_executable(
        self,
        buttons: Seq<ButtonConfig>,
        idx: int,
        gesture: Gesture,
    ) -> bool {
        match gesture {
            Gesture::ShortPress => {
                let pressed = self.showing(DisplayEvent::LongPressCancel).button(
                    buttons,
                    idx,
                    ButtonEvent::Press,
                );
                &&& button_executable(buttons, self.ctrl.working(), idx, ButtonEvent::Press)
                &&& Stage::releases(buttons, idx) ==> button_executable(
                    buttons,
                    pressed.ctrl.working(),
                    idx,
                    ButtonEvent::Release,
                )
            },
            Gesture::LongPress => button_executable(
                buttons,
                self.ctrl.working(),
                idx,
                ButtonEvent::LongPress,
            ),
        }
    }
}

/// What a long press is announced as: the first step from preset to preset among
/// its actions.
pub open spec fn hint(actions: Seq<Action>) -> Option<SystemAction>
    decreases actions.len(),
{
    if actions.len() == 0 {
        None
    } else {
        match hint(actions.drop_last()) {
            Some(action) => Some(action),
            None => match actions.last() {
                Action::PresetNext => Some(SystemAction::PresetNext),
                Action::PresetPrev => Some(SystemAction::PresetPrev),
                _ => None,
            },
        }
    }
}

/// Whether button `idx` has something to do on a long press.
pub open spec fn has_long_press(buttons: Seq<ButtonConfig>, idx: int) -> bool {
    idx < buttons.len() && buttons[idx].on_long_press@.len() > 0
}

impl Stage {
    /// Once the detector of button `idx` has seen an edge of a button that has a
    /// long press: a momentary button lights up while it is held, and a press is
    /// announced.
    pub open spec fn noted(
        self,
        buttons: Seq<ButtonConfig>,
        idx: int,
        edge: Edge,
        now_ms: u32,
    ) -> Stage {
        let momentary = buttons[idx].mode == ButtonMode::Momentary;
        let lit = Stage {
            ctrl: ControllerModel {
                buttons: if momentary {
                    self.ctrl.buttons.update(idx, edge == Edge::Activate)
                } else {
                    self.ctrl.buttons
                },
                long_press: self.ctrl.long_press.update(
                    idx,
                    self.ctrl.long_press[idx].next(Some(edge), now_ms),
                ),
                ..self.ctrl
            },
            out: OutputModel { leds_changed: self.out.leds_changed || momentary, ..self.out },
            ..self
        };
        match hint(buttons[idx].on_long_press@) {
            Some(action) if edge == Edge::Activate => lit.showing(
                DisplayEvent::LongPressHint { action },
            ),
            _ => lit,
        }
    }

    /// After an edge of button `idx`. A button that has a long press goes by its
    /// detector; any other is pressed and released as its edges come.
    pub open spec fn edge(
        self,
        buttons: Seq<ButtonConfig>,
        idx: int,
        edge: Edge,
        now_ms: u32,
    ) -> Stage {
        if has_long_press(buttons, idx) {
            let noted = self.noted(buttons, idx, edge, now_ms);
            match self.ctrl.long_press[idx].gesture(Some(edge), now_ms) {
                Some(gesture) => noted.gestured(buttons, idx, gesture),
                None => noted,
            }
        } else {
            self.button(
                buttons,
                idx,
                match edge {
                    Edge::Activate => ButtonEvent::Press,
                    Edge::Deactivate => ButtonEvent::Release,
                },
            )
        }
    }

    /// Whether every action that an edge runs has a channel.
    pub open spec fn edge_executable(
        self,
        buttons: Seq<ButtonConfig>,
        idx: int,
        edge: Edge,
        now_ms: u32,
    ) -> bool {
        if has_long_press(buttons, idx) {
            self.ctrl.long_press[idx].gesture(Some(edge), now_ms) matches Some(gesture)
                ==> self.noted(buttons, idx, edge, now_ms).gesture_executable(
                buttons,
                idx,
                gesture,
            )
        } else {
            button_executable(
                buttons,
                self.ctrl.working(),
                idx,
                match edge {
                    Edge::Activate => ButtonEvent::Press,
                    Edge::Deactivate => ButtonEvent::Release,
                },
            )
        }
    }

    /// Once the detector of button `idx` was polled without an edge.
    pub open spec fn polled(self, idx: int, now_ms: u32) -> Stage {
        Stage {
            ctrl: ControllerModel {
                long_press: self.ctrl.long_press.update(
                    idx,
                    self.ctrl.long_press[idx].next(None, now_ms),
                ),
                ..self.ctrl
            },
            ..self
        }
    }

    /// Whether a poll of button `idx` fires a long press.
    pub open spec fn fires(self, buttons: Seq<ButtonConfig>, idx: int, now_ms: u32) -> bool {
        has_long_press(buttons, idx) && self.ctrl.long_press[idx].gesture(None, now_ms) is Some
    }

    /// After a tick of the first `n` buttons: each that is held for long enough, and
    /// has a long press, fires it.
    pub open spec fn ticked(self, buttons: Seq<ButtonConfig>, n: nat, now_ms: u32) -> Stage
        decreases n,
    {
        if n == 0 {
            self
        } else {
            let before = self.ticked(buttons, (n - 1) as nat, now_ms);
            if before.fires(buttons, n - 1, now_ms) {
                before.polled(n - 1, now_ms).gestured(buttons, n - 1, Gesture::LongPress)
            } else {
                before
            }
        }
    }

    /// Whether every action that a tick runs has a channel.
    pub open spec fn tick_executable(
        self,
        buttons: Seq<ButtonConfig>,
        n: nat,
        now_ms: u32,
    ) -> bool {
        forall|i: nat|
            i < n && (#[trigger] self.ticked(buttons, i, now_ms)).fires(buttons, i as int, now_ms)
                ==> self.ticked(buttons, i, now_ms).polled(i as int, now_ms).gesture_executable(
                buttons,
                i as int,
                Gesture::LongPress,
            )
    }
}

/// The active preset, where there is one at its index.
pub open spec fn current<const B: usize, const E: usize, const A: usize>(
    ctrl: ControllerModel,
    presets: Seq<Preset<B, E, A>>,
) -> Option<Preset<B, E, A>> {
    if ctrl.active_preset < presets.len() {
        Some(presets[ctrl.active_preset as int])
    } else {
        None
    }
}

/// The stage after an edge of button `index`. Without an active preset, or a
/// button of that index, nothing happens.
pub open spec fn button_stage<const B: usize, const E: usize, const A: usize>(
    ctrl: ControllerModel,
    index: int,
    edge: Edge,
    now_ms: u32,
    config: Config<B, E, A>,
) -> Stage {
    let start = Stage::start(ctrl);
    match current(ctrl, config.presets@) {
        Some(preset) if index < B => start.edge(preset.buttons@, index, edge, now_ms),
        _ => start,
    }
}

/// Whether every action that an edge of button `index` runs has a channel.
pub open spec fn button_stage_executable<const B: usize, const E: usize, const A: usize>(
    ctrl: ControllerModel,
    index: int,
    edge: Edge,
    now_ms: u32,
    config: Config<B, E, A>,
) -> bool {
    match current(ctrl, config.presets@) {
        Some(preset) if index < B => Stage::start(ctrl).edge_executable(
            preset.buttons@,
            index,
            edge,
            now_ms,
        ),
        _ => true,
    }
}

/// The stage after a tick.
pub open spec fn tick_stage<const B: usize, const E: usize, const A: usize>(
    ctrl: ControllerModel,
    now_ms: u32,
    config: Config<B, E, A>,
) -> Stage {
    match current(ctrl, config.presets@) {
        Some(preset) => Stage::start(ctrl).ticked(preset.buttons@, B as nat, now_ms),
        None => Stage::start(ctrl),
    }
}

/// Whether every action that a tick runs has a channel.
pub open spec fn tick_stage_executable<const B: usize, const E: usize, const A: usize>(
    ctrl: ControllerModel,
    now_ms: u32,
    config: Config<B, E, A>,
) -> bool {
    match current(ctrl, config.presets@) {
        Some(preset) => Stage::start(ctrl).tick_executable(preset.buttons@, B as nat, now_ms),
        None => true,
    }
}

/// While no button is held, a tick does nothing.
pub proof fn law_tick_while_idle(stage: Stage, buttons: Seq<ButtonConfig>, n: nat, now_ms: u32)
    requires
        !stage.ctrl.held(),
        n <= stage.ctrl.long_press.len(),
    ensures
        stage.ticked(buttons, n, now_ms) == stage,
    decreases n,
{
    if n > 0 {
        law_tick_while_idle(stage, buttons, (n - 1) as nat, now_ms);
        assert(!stage.ctrl.long_press[n - 1].active);
    }
}

/// The direction of a turn.
pub open spec fn turned(clockwise: bool) -> EncoderDirection {
    if clockwise {
        EncoderDirection::Clockwise
    } else {
        EncoderDirection::CounterClockwise
    }
}

/// The stage after a detent of encoder `index`: it moves by the steps that the time
/// since the last detent gives.
pub open spec fn encoder_stage<const B: usize, const E: usize, const A: usize>(
    ctrl: ControllerModel,
    index: int,
    direction: EncoderDirection,
    now_ms: u32,
    config: Config<B, E, A>,
) -> Stage {
    let start = Stage::start(ctrl);
    match current(ctrl, config.presets@) {
        Some(preset) if index < E => {
            let after = state_after_encoder(
                preset.encoders@,
                ctrl.working(),
                index,
                direction,
                detent_steps(ctrl.accel[index], now_ms),
            );
            Stage {
                ctrl: ControllerModel {
                    accel: ctrl.accel.update(index, Some(now_ms)),
                    ..ctrl.applied(after)
                },
                ..start
            }.merged(
                encoder_output(preset.encoders@, index, direction, after.encoder_values[index]),
            )
        },
        _ => start,
    }
}

/// Whether the message of encoder `index` has a channel.
pub open spec fn encoder_stage_executable<const B: usize, const E: usize, const A: usize>(
    ctrl: ControllerModel,
    index: int,
    config: Config<B, E, A>,
) -> bool {
    current(ctrl, config.presets@) matches Some(preset) ==> index < preset.encoders@.len()
        ==> encoder_sendable(preset.encoders@[index].action)
}

/// The calibration of an analog input: only two inputs have one.
pub open spec fn calibration(global: GlobalConfig, index: int) -> Option<(u16, u16)> {
    if index == 0 {
        Some((global.exp1_min, global.exp1_max))
    } else if index == 1 {
        Some((global.exp2_min, global.exp2_max))
    } else {
        None
    }
}

/// The stage after a reading of analog input `index`.
pub open spec fn analog_stage<const B: usize, const E: usize, const A: usize>(
    ctrl: ControllerModel,
    index: int,
    raw: u16,
    config: Config<B, E, A>,
) -> Stage {
    let start = Stage::start(ctrl);
    match (current(ctrl, config.presets@), calibration(config.global, index)) {
        (Some(preset), Some((min, max))) => start.merged(
            analog_output(preset, index, raw, min, max),
        ),
        _ => start,
    }
}

/// Whether a reading of analog input `index` can be converted.
pub open spec fn analog_stage_executable<const B: usize, const E: usize, const A: usize>(
    ctrl: ControllerModel,
    index: int,
    config: Config<B, E, A>,
) -> bool {
    match (current(ctrl, config.presets@), calibration(config.global, index)) {
        (Some(preset), Some((min, max))) => index < preset.analog@.len() ==> analog_convertible(
            preset.analog@[index],
            min,
            max,
        ),
        _ => true,
    }
}

// --- Preset switching ---

/// The steps that entering or leaving a preset takes: the messages and the delays
/// among its actions.
pub open spec fn transition_steps(actions: Seq<Action>) -> Seq<ActionStep> {
    action_steps(actions, Seq::empty(), 0)
}

/// Whether the message of every action of a transition has a channel.
pub open spec fn transition_executable(actions: Seq<Action>) -> bool {
    all_executable(actions, Seq::empty())
}

/// The indicator color of a preset: eight hues in turn.
pub open spec fn mode_color(index: u8) -> Rgb {
    let i = index % 8;
    if i == 0 {
        rgb(255, 0, 0)
    } else if i == 1 {
        rgb(0, 255, 0)
    } else if i == 2 {
        rgb(0, 0, 255)
    } else if i == 3 {
        rgb(255, 255, 0)
    } else if i == 4 {
        rgb(255, 0, 255)
    } else if i == 5 {
        rgb(0, 255, 255)
    } else if i == 6 {
        rgb(255, 128, 0)
    } else {
        rgb(128, 0, 255)
    }
}

/// How many presets have a name.
pub open spec fn named<const B: usize, const E: usize, const A: usize>(
    presets: Seq<Preset<B, E, A>>,
) -> nat
    decreases presets.len(),
{
    if presets.len() == 0 {
        0
    } else if label_text(presets.last().name).len() > 0 {
        named(presets.drop_last()) + 1
    } else {
        named(presets.drop_last())
    }
}

/// The preset after `active` among `n`, from the last on to the first.
pub open spec fn preset_after(active: u8, n: nat) -> u8 {
    ((active + 1) % n as int) as u8
}

/// The preset before `active` among `n`, from the first on to the last.
pub open spec fn preset_before(active: u8, n: nat) -> u8 {
    if active == 0 {
        (n - 1) as u8
    } else {
        (active - 1) as u8
    }
}

/// The controller once `new_idx` is the active preset: its state is the one that it
/// was left with, and nothing is known of how long a button was held or when an
/// encoder was turned.
pub open spec fn moved(ctrl: ControllerModel, new_idx: u8) -> ControllerModel {
    ControllerModel {
        taps: ctrl.taps,
        ..ControllerModel::started(
            ctrl.store.switched(new_idx, ctrl.working()),
            ctrl.buttons.len(),
            ctrl.accel.len(),
        )
    }
}

/// The steps that entering a preset takes with the state `state`: its on_enter
/// actions, then the messages that bring external gear to the state.
pub open spec fn entered<const B: usize, const E: usize, const A: usize>(
    stage: Stage,
    preset: Preset<B, E, A>,
    state: StateModel,
) -> Stage {
    stage.sending(transition_steps(preset.on_enter@)).sending(
        recall(preset, state).map_values(|m: MidiMessage| ActionStep::Send(m)),
    )
}

impl Stage {
    /// After the on_exit actions of the active preset.
    pub open spec fn exited<const B: usize, const E: usize, const A: usize>(
        self,
        presets: Seq<Preset<B, E, A>>,
    ) -> Stage {
        match current(self.ctrl, presets) {
            Some(old_preset) => self.sending(transition_steps(old_preset.on_exit@)),
            None => self,
        }
    }

    /// After a switch to preset `new_idx`: the active preset is left and the new one
    /// entered. Where there is no such preset, nothing happens.
    pub open spec fn switched<const B: usize, const E: usize, const A: usize>(
        self,
        new_idx: u8,
        presets: Seq<Preset<B, E, A>>,
    ) -> Stage {
        if new_idx < presets.len() {
            let left = self.exited(presets);
            let ctrl = moved(left.ctrl, new_idx);
            let arrived = entered(
                Stage { ctrl, ..left },
                presets[new_idx as int],
                ctrl.working(),
            );
            Stage {
                out: OutputModel {
                    preset_changed: true,
                    leds_changed: true,
                    mode_led: Some(mode_color(new_idx)),
                    ..arrived.out
                },
                ..arrived
            }
        } else {
            self
        }
    }

    /// Whether every message that a switch to preset `new_idx` sends has a channel.
    pub open spec fn switch_executable<const B: usize, const E: usize, const A: usize>(
        self,
        new_idx: u8,
        presets: Seq<Preset<B, E, A>>,
    ) -> bool {
        new_idx < presets.len() ==> {
            &&& current(self.ctrl, presets) matches Some(old_preset) ==> transition_executable(
                old_preset.on_exit@,
            )
            &&& transition_executable(presets[new_idx as int].on_enter@)
            &&& recallable(presets[new_idx as int], moved(self.ctrl, new_idx).working())
        }
    }

    /// With a tempo.
    pub open spec fn at_tempo(self, bpm: u16) -> Stage {
        Stage { out: OutputModel { bpm: Some(bpm), ..self.out }, ..self }.showing(
            DisplayEvent::BpmOverlay { bpm },
        )
    }

    /// The preset that a system action switches to, if it does.
    pub open spec fn target<const B: usize, const E: usize, const A: usize>(
        self,
        action: SystemAction,
        presets: Seq<Preset<B, E, A>>,
    ) -> Option<u8> {
        let n = named(presets);
        match action {
            SystemAction::PresetNext if n > 0 => Some(preset_after(self.ctrl.active_preset, n)),
            SystemAction::PresetPrev if n > 0 => Some(preset_before(self.ctrl.active_preset, n)),
            SystemAction::PresetSelect(idx) if idx < presets.len() => Some(idx),
            _ => None,
        }
    }

    /// After a system action.
    pub open spec fn system<const B: usize, const E: usize, const A: usize>(
        self,
        action: SystemAction,
        now_ms: u32,
        presets: Seq<Preset<B, E, A>>,
    ) -> Stage {
        match action {
            SystemAction::SetBpm(bpm) => self.at_tempo(bpm),
            SystemAction::TapTempo => {
                let bpm = tap_result(self.ctrl.taps, now_ms);
                let tapped = Stage {
                    ctrl: ControllerModel {
                        taps: taps_after(self.ctrl.taps, now_ms),
                        ..self.ctrl
                    },
                    out: OutputModel { bpm, ..self.out },
                    ..self
                };
                match bpm {
                    Some(tempo) => tapped.at_tempo(tempo),
                    None => tapped,
                }
            },
            _ => match self.target(action, presets) {
                Some(new_idx) => self.switched(new_idx, presets),
                None => self,
            },
        }
    }

    /// Whether every message that a system action sends has a channel.
    pub open spec fn system_executable<const B: usize, const E: usize, const A: usize>(
        self,
        action: SystemAction,
        presets: Seq<Preset<B, E, A>>,
    ) -> bool {
        self.target(action, presets) matches Some(new_idx) ==> self.switch_executable(
            new_idx,
            presets,
        )
    }

    /// After system actions, in order.
    pub open spec fn systems<const B: usize, const E: usize, const A: usize>(
        self,
        actions: Seq<SystemAction>,
        now_ms: u32,
        presets: Seq<Preset<B, E, A>>,
    ) -> Stage
        decreases actions.len(),
    {
        if actions.len() == 0 {
            self
        } else {
            self.systems(actions.drop_last(), now_ms, presets).system(
                actions.last(),
                now_ms,
                presets,
            )
        }
    }

    /// Whether every message that system actions send, in order, has a channel.
    pub open spec fn systems_executable<const B: usize, const E: usize, const A: usize>(
        self,
        actions: Seq<SystemAction>,
        now_ms: u32,
        presets: Seq<Preset<B, E, A>>,
    ) -> bool {
        forall|i: int|
            #![trigger actions[i]]
            0 <= i < actions.len() ==> self.systems(
                actions.take(i),
                now_ms,
                presets,
            ).system_executable(actions[i], presets)
    }
}

// --- Incoming MIDI ---

/// The ports that a message from `source` is passed on to.
pub open spec fn thru(source: MidiPort, global: GlobalConfig) -> MidiPort {
    let from_din = source.has(MidiPort { bits: 0x01 });
    let from_usb = source.has(MidiPort { bits: 0x02 });
    let to_din = from_usb && global.usb_to_din_thru;
    let to_usb = from_din && global.din_to_usb_thru || from_usb && global.usb_to_usb_thru;
    MidiPort {
        bits: if to_din && to_usb {
            0x03
        } else if to_usb {
            0x02
        } else if to_din {
            0x01
        } else {
            0x00
        },
    }
}

/// How the rings of a preset react to a message: only a complete CC counts.
pub open spec fn midi_reaction(buttons: Seq<ButtonConfig>, raw: Seq<u8>) -> Option<ReactiveResult> {
    if raw.len() >= 3 && raw[0] & 0xF0 == 0xB0 {
        reactive(buttons, ((raw[0] & 0x0F) + 1) as u8, raw[1], raw[2])
    } else {
        None
    }
}

/// Whether a message is tried on a preset's triggers.
pub open spec fn tried<const B: usize, const E: usize, const A: usize>(
    preset: Preset<B, E, A>,
    raw: Seq<u8>,
) -> bool {
    raw.len() >= 2 && preset.triggers@.len() > 0
}

/// What the triggers of a preset bring about for a message.
pub open spec fn midi_triggered<const B: usize, const E: usize, const A: usize>(
    ctrl: ControllerModel,
    preset: Preset<B, E, A>,
    raw: Seq<u8>,
) -> TriggerModel {
    triggered(
        preset.triggers@,
        preset.buttons@,
        ctrl.working(),
        raw[0],
        raw[1],
        byte_or_zero(raw, 2),
    )
}

/// The stage once a message from `source` was passed on.
pub open spec fn forwarded(
    ctrl: ControllerModel,
    raw: Seq<u8>,
    source: MidiPort,
    global: GlobalConfig,
) -> Stage {
    let dest = thru(source, global);
    let start = Stage::start(ctrl);
    if dest.bits != 0 && raw.len() > 0 {
        Stage {
            out: OutputModel { midi_out: seq![MidiOut::routed(raw, dest)], ..start.out },
            ..start
        }
    } else {
        start
    }
}

/// The stage once the triggers of a preset have run, before what they ask of the
/// system.
pub open spec fn after_triggers<const B: usize, const E: usize, const A: usize>(
    stage: Stage,
    preset: Preset<B, E, A>,
    raw: Seq<u8>,
) -> Stage {
    let t = midi_triggered(stage.ctrl, preset, raw);
    Stage {
        ctrl: stage.ctrl.applied(t.state),
        out: OutputModel {
            midi: clip(stage.out.midi + t.midi, 32),
            leds_changed: stage.out.leds_changed || t.led_dirty,
            ..stage.out
        },
        ..stage
    }
}

/// The stage once a message was passed on and the rings have reacted to it.
pub open spec fn reacted<const B: usize, const E: usize, const A: usize>(
    ctrl: ControllerModel,
    raw: Seq<u8>,
    source: MidiPort,
    global: GlobalConfig,
    preset: Preset<B, E, A>,
) -> Stage {
    let passed = forwarded(ctrl, raw, source, global);
    Stage {
        out: OutputModel {
            reactive_led: midi_reaction(preset.buttons@, raw),
            ..passed.out
        },
        ..passed
    }
}

/// The stage after an incoming message: it is passed on, the rings of the active
/// preset react to it, its triggers run, and what they ask of the system is done.
pub open spec fn midi_stage<const B: usize, const E: usize, const A: usize>(
    ctrl: ControllerModel,
    raw: Seq<u8>,
    source: MidiPort,
    now_ms: u32,
    config: Config<B, E, A>,
) -> Stage {
    match current(ctrl, config.presets@) {
        Some(preset) => {
            let seen = reacted(ctrl, raw, source, config.global, preset);
            if tried(preset, raw) {
                after_triggers(seen, preset, raw).systems(
                    midi_triggered(ctrl, preset, raw).system,
                    now_ms,
                    config.presets@,
                )
            } else {
                seen
            }
        },
        None => forwarded(ctrl, raw, source, config.global),
    }
}

/// Whether every message that an incoming message brings about has a channel.
pub open spec fn midi_stage_executable<const B: usize, const E: usize, const A: usize>(
    ctrl: ControllerModel,
    raw: Seq<u8>,
    source: MidiPort,
    now_ms: u32,
    config: Config<B, E, A>,
) -> bool {
    current(ctrl, config.presets@) matches Some(preset) ==> tried(preset, raw) ==> {
        &&& triggers_executable(
            preset.triggers@,
            preset.buttons@,
            raw[0],
            raw[1],
            byte_or_zero(raw, 2),
        )
        &&& after_triggers(
            reacted(ctrl, raw, source, config.global, preset),
            preset,
            raw,
        ).systems_executable(
            midi_triggered(ctrl, preset, raw).system,
            now_ms,
            config.presets@,
        )
    }
}

// --- Events ---

/// The stage after an event, before the system actions that are still to be
/// handled.
pub open spec fn event_stage<const B: usize, const E: usize, const A: usize>(
    ctrl: ControllerModel,
    event: Event,
    now_ms: u32,
    config: Config<B, E, A>,
) -> Stage {
    match event {
        Event::ButtonEdge { index, edge } => button_stage(
            ctrl,
            index as int,
            edge,
            now_ms,
            config,
        ),
        Event::EncoderTurn { index, clockwise } => encoder_stage(
            ctrl,
            index as int,
            turned(clockwise),
            now_ms,
            config,
        ),
        Event::Analog { index, raw } => analog_stage(ctrl, index as int, raw, config),
        Event::Midi { data, len, source } => midi_stage(
            ctrl,
            data@.take(len as int),
            source,
            now_ms,
            config,
        ),
        Event::Tick => tick_stage(ctrl, now_ms, config),
    }
}

/// The stage after an event and all that it asks of the system.
pub open spec fn settled<const B: usize, const E: usize, const A: usize>(
    ctrl: ControllerModel,
    event: Event,
    now_ms: u32,
    config: Config<B, E, A>,
) -> Stage {
    let stage = event_stage(ctrl, event, now_ms, config);
    Stage { pending: Seq::empty(), ..stage }.systems(stage.pending, now_ms, config.presets@)
}

/// Whether an event can be processed: every message that it brings about has a
/// channel, an analog input that it reads is calibrated, and an incoming message is
/// no longer than its bytes.
pub open spec fn processable<const B: usize, const E: usize, const A: usize>(
    ctrl: ControllerModel,
    event: Event,
    now_ms: u32,
    config: Config<B, E, A>,
) -> bool {
    let stage = event_stage(ctrl, event, now_ms, config);
    &&& match event {
        Event::ButtonEdge { index, edge } => button_stage_executable(
            ctrl,
            index as int,
            edge,
            now_ms,
            config,
        ),
        Event::EncoderTurn { index, .. } => encoder_stage_executable(ctrl, index as int, config),
        Event::Analog { index, .. } => analog_stage_executable(ctrl, index as int, config),
        Event::Midi { data, len, source } => len <= 8 && midi_stage_executable(
            ctrl,
            data@.take(len as int),
            source,
            now_ms,
            config,
        ),
        Event::Tick => tick_stage_executable(ctrl, now_ms, config),
    }
    &&& (Stage { pending: Seq::empty(), ..stage }).systems_executable(
        stage.pending,
        now_ms,
        config.presets@,
    )
}

/// The output of an event: what it brought about, and the indicator for MIDI
/// activity, which is green where there are steps to emit and otherwise blue where
/// MIDI came in.
pub open spec fn event_output<const B: usize, const E: usize, const A: usize>(
    ctrl: ControllerModel,
    event: Event,
    now_ms: u32,
    config: Config<B, E, A>,
) -> OutputModel {
    let out = settled(ctrl, event, now_ms, config).out;
    OutputModel {
        mon_led: if out.midi.len() > 0 {
            Some(rgb(0, 255, 0))
        } else if event is Midi {
            Some(rgb(0, 0, 255))
        } else {
            None
        },
        ..out
    }
}

impl Stage {
    /// What holds of every output on its way: a preset switch goes with the color
    /// of the preset that is active by now and with changed LEDs, nothing holds more
    /// than it has room for, and the indicator for MIDI activity is not set yet.
    pub open spec fn consistent(self) -> bool {
        &&& self.out.mode_led == if self.out.preset_changed {
            Some(mode_color(self.ctrl.active_preset))
        } else {
            None
        }
        &&& self.out.preset_changed ==> self.out.leds_changed
        &&& self.out.mon_led is None
        &&& self.out.midi.len() <= 32
        &&& self.out.display.len() <= 2
        &&& self.pending.len() <= 2
    }
}

/// What an event passes on: only an incoming message that has bytes is, to the
/// ports that its source is routed to, if there are any.
pub open spec fn passed_on<const B: usize, const E: usize, const A: usize>(
    event: Event,
    config: Config<B, E, A>,
) -> Seq<MidiOut> {
    match event {
        Event::Midi { data, len, source } => {
            let raw = data@.take(len as int);
            let dest = thru(source, config.global);
            if dest.bits != 0 && raw.len() > 0 {
                seq![MidiOut::routed(raw, dest)]
            } else {
                Seq::empty()
            }
        },
        _ => Seq::empty(),
    }
}

/// What the rings show of an event: only an incoming CC is shown, by the active
/// preset's buttons.
pub open spec fn shown_on_ring<const B: usize, const E: usize, const A: usize>(
    ctrl: ControllerModel,
    event: Event,
    config: Config<B, E, A>,
) -> Option<ReactiveResult> {
    match (event, current(ctrl, config.presets@)) {
        (Event::Midi { data, len, .. }, Some(preset)) => midi_reaction(
            preset.buttons@,
            data@.take(len as int),
        ),
        _ => None,
    }
}

proof fn lemma_button_consistent(
    stage: Stage,
    buttons: Seq<ButtonConfig>,
    idx: int,
    event: ButtonEvent,
)
    requires
        stage.consistent(),
    ensures
        stage.button(buttons, idx, event).consistent(),
        stage.button(buttons, idx, event).out.midi_out == stage.out.midi_out,
        stage.button(buttons, idx, event).out.reactive_led == stage.out.reactive_led,
{
}

proof fn lemma_gesture_consistent(
    stage: Stage,
    buttons: Seq<ButtonConfig>,
    idx: int,
    gesture: Gesture,
)
    requires
        stage.consistent(),
    ensures
        stage.gestured(buttons, idx, gesture).consistent(),
        stage.gestured(buttons, idx, gesture).out.midi_out == stage.out.midi_out,
        stage.gestured(buttons, idx, gesture).out.reactive_led == stage.out.reactive_led,
{
    let shown = stage.showing(DisplayEvent::LongPressCancel);
    lemma_button_consistent(shown, buttons, idx, ButtonEvent::Press);
    let pressed = shown.button(buttons, idx, ButtonEvent::Press);
    lemma_button_consistent(pressed, buttons, idx, ButtonEvent::Release);
    lemma_button_consistent(stage, buttons, idx, ButtonEvent::LongPress);
}

proof fn lemma_edge_consistent(
    stage: Stage,
    buttons: Seq<ButtonConfig>,
    idx: int,
    edge: Edge,
    now_ms: u32,
)
    requires
        stage.consistent(),
    ensures
        stage.edge(buttons, idx, edge, now_ms).consistent(),
        stage.edge(buttons, idx, edge, now_ms).out.midi_out == stage.out.midi_out,
        stage.edge(buttons, idx, edge, now_ms).out.reactive_led == stage.out.reactive_led,
{
    let noted = stage.noted(buttons, idx, edge, now_ms);
    assert(noted.consistent());
    lemma_gesture_consistent(noted, buttons, idx, Gesture::ShortPress);
    lemma_gesture_consistent(noted, buttons, idx, Gesture::LongPress);
    lemma_button_consistent(stage, buttons, idx, ButtonEvent::Press);
    lemma_button_consistent(stage, buttons, idx, ButtonEvent::Release);
}

proof fn lemma_tick_consistent(stage: Stage, buttons: Seq<ButtonConfig>, n: nat, now_ms: u32)
    requires
        stage.consistent(),
    ensures
        stage.ticked(buttons, n, now_ms).consistent(),
        stage.ticked(buttons, n, now_ms).out.midi_out == stage.out.midi_out,
        stage.ticked(buttons, n, now_ms).out.reactive_led == stage.out.reactive_led,
    decreases n,
{
    if n > 0 {
        lemma_tick_consistent(stage, buttons, (n - 1) as nat, now_ms);
        let before = stage.ticked(buttons, (n - 1) as nat, now_ms);
        lemma_gesture_consistent(
            before.polled(n - 1, now_ms),
            buttons,
            n - 1,
            Gesture::LongPress,
        );
    }
}

proof fn lemma_switch_consistent<const B: usize, const E: usize, const A: usize>(
    stage: Stage,
    new_idx: u8,
    presets: Seq<Preset<B, E, A>>,
)
    requires
        stage.consistent(),
    ensures
        stage.switched(new_idx, presets).consistent(),
        stage.switched(new_idx, presets).out.midi_out == stage.out.midi_out,
        stage.switched(new_idx, presets).out.reactive_led == stage.out.reactive_led,
{
}

proof fn lemma_systems_consistent<const B: usize, const E: usize, const A: usize>(
    stage: Stage,
    actions: Seq<SystemAction>,
    now_ms: u32,
    presets: Seq<Preset<B, E, A>>,
)
    requires
        stage.consistent(),
    ensures
        stage.systems(actions, now_ms, presets).consistent(),
        stage.systems(actions, now_ms, presets).out.midi_out == stage.out.midi_out,
        stage.systems(actions, now_ms, presets).out.reactive_led == stage.out.reactive_led,
    decreases actions.len(),
{
    if actions.len() > 0 {
        lemma_systems_consistent(stage, actions.drop_last(), now_ms, presets);
        let before = stage.systems(actions.drop_last(), now_ms, presets);
        if let Some(new_idx) = before.target(actions.last(), presets) {
            lemma_switch_consistent(before, new_idx, presets);
        }
    }
}

proof fn lemma_event_consistent<const B: usize, const E: usize, const A: usize>(
    ctrl: ControllerModel,
    event: Event,
    now_ms: u32,
    config: Config<B, E, A>,
)
    ensures
        event_stage(ctrl, event, now_ms, config).consistent(),
        event_stage(ctrl, event, now_ms, config).out.midi_out == passed_on(event, config),
        event_stage(ctrl, event, now_ms, config).out.reactive_led == shown_on_ring(
            ctrl,
            event,
            config,
        ),
{
    let start = Stage::start(ctrl);
    assert(start.consistent());
    if let Some(preset) = current(ctrl, config.presets@) {
        match event {
            Event::ButtonEdge { index, edge } => {
                lemma_edge_consistent(start, preset.buttons@, index as int, edge, now_ms);
            },
            Event::Midi { data, len, source } => {
                let raw = data@.take(len as int);
                let seen = reacted(ctrl, raw, source, config.global, preset);
                assert(seen.consistent());
                assert(after_triggers(seen, preset, raw).consistent());
                lemma_systems_consistent(
                    after_triggers(seen, preset, raw),
                    midi_triggered(ctrl, preset, raw).system,
                    now_ms,
                    config.presets@,
                );
            },
            Event::Tick => {
                lemma_tick_consistent(start, preset.buttons@, B as nat, now_ms);
            },
            _ => {},
        }
    }
}

/// Every output holds together: the mode indicator is set exactly where the preset
/// changed, to the color of the preset that is active now, and the LEDs changed with
/// it; there are no more than 32 steps and 2 display events; and the indicator for
/// MIDI activity is green exactly where there are steps to emit, and otherwise blue
/// exactly where MIDI came in.
pub proof fn law_output<const B: usize, const E: usize, const A: usize>(
    ctrl: ControllerModel,
    event: Event,
    now_ms: u32,
    config: Config<B, E, A>,
)
    ensures
        settled(ctrl, event, now_ms, config).consistent(),
        ({
            let out = event_output(ctrl, event, now_ms, config);
            let after = settled(ctrl, event, now_ms, config).ctrl;
            &&& out.mode_led is Some <==> out.preset_changed
            &&& out.mode_led matches Some(c) ==> c == mode_color(after.active_preset)
            &&& out.preset_changed ==> out.leds_changed
            &&& out.midi.len() <= 32
            &&& out.display.len() <= 2
            &&& out.mon_led == Some(rgb(0, 255, 0)) <==> out.midi.len() > 0
            &&& out.mon_led == Some(rgb(0, 0, 255)) <==> out.midi.len() == 0 && event is Midi
        }),
{
    lemma_event_consistent(ctrl, event, now_ms, config);
    let stage = event_stage(ctrl, event, now_ms, config);
    lemma_systems_consistent(
        Stage { pending: Seq::empty(), ..stage },
        stage.pending,
        now_ms,
        config.presets@,
    );
}

/// Whatever else an event brings about, it passes on and shows on the rings exactly
/// what came in: a message goes to the ports that its source is routed to, and a CC
/// to the ring that is bound to it.
pub proof fn law_thru_and_rings<const B: usize, const E: usize, const A: usize>(
    ctrl: ControllerModel,
    event: Event,
    now_ms: u32,
    config: Config<B, E, A>,
)
    ensures
        event_output(ctrl, event, now_ms, config).midi_out == passed_on(event, config),
        event_output(ctrl, event, now_ms, config).reactive_led == shown_on_ring(
            ctrl,
            event,
            config,
        ),
{
    lemma_event_consistent(ctrl, event, now_ms, config);
    let stage = event_stage(ctrl, event, now_ms, config);
    lemma_systems_consistent(
        Stage { pending: Seq::empty(), ..stage },
        stage.pending,
        now_ms,
        config.presets@,
    );
}

/// A source that is no port that MIDI is routed from passes nothing on, nor does
/// any source where all routing is off; DIN alone never comes back to DIN.
pub proof fn law_thru(source: MidiPort, global: GlobalConfig)
    ensures
        !source.has(MidiPort { bits: 0x01 }) && !source.has(MidiPort { bits: 0x02 }) ==> thru(
            source,
            global,
        ).bits == 0,
        !global.din_to_usb_thru && !global.usb_to_din_thru && !global.usb_to_usb_thru ==> thru(
            source,
            global,
        ).bits == 0,
        !source.has(MidiPort { bits: 0x02 }) ==> thru(source, global).bits == 0 || thru(
            source,
            global,
        ).bits == 0x02,
{
}

/// Going on from preset to preset and going back undo each other, in either order,
/// and lead to each of the `n` named presets and no other.
pub proof fn law_next_and_prev(active: u8, n: nat)
    requires
        active < n <= MAX_PRESETS,
    ensures
        preset_after(active, n) < n,
        preset_before(active, n) < n,
        preset_before(preset_after(active, n), n) == active,
        preset_after(preset_before(active, n), n) == active,
        preset_after(active, n) == if active + 1 < n {
            active + 1
        } else {
            0
        },
{
    if active + 1 < n {
        vstd::arithmetic::div_mod::lemma_small_mod((active + 1) as nat, n);
    } else {
        vstd::arithmetic::div_mod::lemma_mod_self_0(n as int);
    }
    if active > 0 {
        vstd::arithmetic::div_mod::lemma_small_mod(active as nat, n);
    } else {
        vstd::arithmetic::div_mod::lemma_mod_self_0(n as int);
    }
}

/// Leaving a preset, for any preset, and coming back finds its buttons, cycles and
/// encoders as they were left; the state of no other preset changes.
pub proof fn law_switch_away_and_back(ctrl: ControllerModel, other: u8, b: nat, e: nat)
    requires
        ctrl.valid(b, e),
        other < MAX_PRESETS,
    ensures
        ({
            let away = moved(ctrl, other);
            let back = moved(away, ctrl.active_preset);
            &&& away.active_preset == other
            &&& away.working() == if other == ctrl.active_preset {
                ctrl.working()
            } else {
                ctrl.store.states[other as int]
            }
            &&& away.valid(b, e)
            &&& back.working() == ctrl.working()
            &&& back.active_preset == ctrl.active_preset
            &&& back.store == ctrl.store.saved(ctrl.working())
            &&& back.valid(b, e)
        }),
{
    let away = moved(ctrl, other);
    assert(away.working() =~= away.store.current());
    crate::state::law_switch_roundtrip(ctrl.store, ctrl.working(), other, b, e);
    let back = moved(away, ctrl.active_preset);
    assert(back.working() =~= back.store.current());
}

/// No more presets have a name than there are, and all of them where each has one.
pub proof fn law_named<const B: usize, const E: usize, const A: usize>(
    presets: Seq<Preset<B, E, A>>,
)
    ensures
        named(presets) <= presets.len(),
        (forall|i: int|
            0 <= i < presets.len() ==> label_text((#[trigger] presets[i]).name).len() > 0)
            ==> named(presets) == presets.len(),
    decreases presets.len(),
{
    if presets.len() > 0 {
        let shorter = presets.drop_last();
        law_named(shorter);
        if forall|i: int|
            0 <= i < presets.len() ==> label_text((#[trigger] presets[i]).name).len() > 0 {
            assert forall|i: int| 0 <= i < shorter.len() implies label_text(
                (#[trigger] shorter[i]).name,
            ).len() > 0 by {
                assert(shorter[i] == presets[i]);
            }
            assert(presets.last() == presets[presets.len() - 1]);
        }
    }
}

/// A step on to the next preset and a step back return to the preset and its state,
/// from the last preset over the first as well; each is a switch. The presets that
/// are stepped through are the first ones, as many as have a name.
pub proof fn law_step_on_and_back<const B: usize, const E: usize, const A: usize>(
    stage: Stage,
    presets: Seq<Preset<B, E, A>>,
    on_ms: u32,
    back_ms: u32,
)
    requires
        stage.ctrl.valid(B as nat, E as nat),
        presets.len() <= MAX_PRESETS,
        stage.ctrl.active_preset < named(presets),
    ensures
        ({
            let n = named(presets);
            let p = stage.ctrl.active_preset;
            let on = stage.system(SystemAction::PresetNext, on_ms, presets);
            let back = on.system(SystemAction::PresetPrev, back_ms, presets);
            &&& on.ctrl.active_preset == (p + 1) % n as int
            &&& on.out.preset_changed
            &&& back.ctrl.active_preset == p
            &&& back.out.preset_changed
            &&& back.ctrl.working() == stage.ctrl.working()
        }),
{
    let n = named(presets);
    let p = stage.ctrl.active_preset;
    law_named(presets);
    law_next_and_prev(p, n);
    law_switch_away_and_back(stage.ctrl, preset_after(p, n), B as nat, E as nat);
    let on = stage.system(SystemAction::PresetNext, on_ms, presets);
    assert(on.ctrl == moved(stage.ctrl, preset_after(p, n)));
    let back = on.system(SystemAction::PresetPrev, back_ms, presets);
    assert(back.ctrl == moved(on.ctrl, p));
}

/// A step back to the preset before and a step on return to the preset and its
/// state, from the first preset over the last as well; each is a switch.
pub proof fn law_step_back_and_on<const B: usize, const E: usize, const A: usize>(
    stage: Stage,
    presets: Seq<Preset<B, E, A>>,
    back_ms: u32,
    on_ms: u32,
)
    requires
        stage.ctrl.valid(B as nat, E as nat),
        presets.len() <= MAX_PRESETS,
        stage.ctrl.active_preset < named(presets),
    ensures
        ({
            let n = named(presets);
            let p = stage.ctrl.active_preset;
            let back = stage.system(SystemAction::PresetPrev, back_ms, presets);
            let on = back.system(SystemAction::PresetNext, on_ms, presets);
            &&& back.ctrl.active_preset == if p == 0 {
                n - 1
            } else {
                p - 1
            }
            &&& back.out.preset_changed
            &&& on.ctrl.active_preset == p
            &&& on.out.preset_changed
            &&& on.ctrl.working() == stage.ctrl.working()
        }),
{
    let n = named(presets);
    let p = stage.ctrl.active_preset;
    law_named(presets);
    law_next_and_prev(p, n);
    law_switch_away_and_back(stage.ctrl, preset_before(p, n), B as nat, E as nat);
    let back = stage.system(SystemAction::PresetPrev, back_ms, presets);
    assert(back.ctrl == moved(stage.ctrl, preset_before(p, n)));
    let on = back.system(SystemAction::PresetNext, on_ms, presets);
    assert(on.ctrl == moved(back.ctrl, p));
}

/// To select a preset that is not there changes nothing and brings about nothing,
/// whether by a system action or directly.
pub proof fn law_no_such_preset<const B: usize, const E: usize, const A: usize>(
    stage: Stage,
    idx: u8,
    now_ms: u32,
    presets: Seq<Preset<B, E, A>>,
)
    requires
        idx >= presets.len(),
    ensures
        stage.system(SystemAction::PresetSelect(idx), now_ms, presets) == stage,
        stage.switched(idx, presets) == stage,
{
}

/// A switch sends the on_exit actions of the preset that is left, if there is one,
/// then the on_enter actions of the new one, then what brings external gear to its
/// state, as far as the output has room.
pub proof fn law_switch_order<const B: usize, const E: usize, const A: usize>(
    ctrl: ControllerModel,
    new_idx: u8,
    presets: Seq<Preset<B, E, A>>,
)
    requires
        new_idx < presets.len(),
    ensures
        ({
            let after = Stage::start(ctrl).switched(new_idx, presets);
            let new_preset = presets[new_idx as int];
            let exit = match current(ctrl, presets) {
                Some(old_preset) => transition_steps(old_preset.on_exit@),
                None => Seq::empty(),
            };
            &&& after.out.midi == clip(
                exit + transition_steps(new_preset.on_enter@) + recall(new_preset, after.ctrl.working()).map_values(
                    |m: MidiMessage| ActionStep::Send(m),
                ),
                32,
            )
            &&& after.ctrl == moved(ctrl, new_idx)
        }),
{
    let new_preset = presets[new_idx as int];
    let exit = match current(ctrl, presets) {
        Some(old_preset) => transition_steps(old_preset.on_exit@),
        None => Seq::empty(),
    };
    let enter = transition_steps(new_preset.on_enter@);
    let sync = recall(new_preset, moved(ctrl, new_idx).working()).map_values(
        |m: MidiMessage| ActionStep::Send(m),
    );
    assert(Seq::<ActionStep>::empty() + exit =~= exit);
    lemma_clip_append(exit, enter, 32);
    lemma_clip_append(exit + enter, sync, 32);
}

/// After a switch no button counts as held, and the release of a button that was
/// held down before it is no gesture.
pub proof fn law_switch_forgets_presses(ctrl: ControllerModel, new_idx: u8, idx: int, now_ms: u32)
    requires
        0 <= idx < ctrl.buttons.len(),
    ensures
        !moved(ctrl, new_idx).held(),
        moved(ctrl, new_idx).long_press[idx].gesture(Some(Edge::Deactivate), now_ms) is None,
{
}

/// A snapshot of a controller starts a controller that goes on where it stood: the
/// same preset is active, with the same buttons, cycles and encoders, and every
/// other preset is as it was.
pub proof fn law_snapshot_restores(ctrl: ControllerModel, b: nat, e: nat)
    requires
        ctrl.valid(b, e),
    ensures
        ({
            let snapshot = ctrl.store.saved(ctrl.working());
            let restored = ControllerModel::started(snapshot, b, e);
            &&& snapshot.valid(b, e)
            &&& restored.valid(b, e)
            &&& restored.active_preset == ctrl.active_preset
            &&& restored.working() == ctrl.working()
            &&& forall|i: int|
                0 <= i < MAX_PRESETS && i != ctrl.active_preset ==> #[trigger] restored.store.states[i]
                    == ctrl.store.states[i]
        }),
{
    let snapshot = ctrl.store.saved(ctrl.working());
    let restored = ControllerModel::started(snapshot, b, e);
    assert(restored.working() =~= snapshot.current());
}

/// A snapshot that went through the EEPROM does so too, where the active preset is
/// one of those that fit in it.
pub proof fn law_eeprom_restores(ctrl: ControllerModel)
    requires
        ctrl.valid(6, 2),
        ctrl.active_preset < EEPROM_MAX_PRESETS,
    ensures
        ({
            let snapshot = ctrl.store.saved(ctrl.working());
            let restored = ControllerModel::started(image_store(eeprom_image(snapshot)), 6, 2);
            &&& restored.valid(6, 2)
            &&& restored.active_preset == ctrl.active_preset
            &&& restored.working() == ctrl.working()
        }),
{
    let snapshot = ctrl.store.saved(ctrl.working());
    law_snapshot_restores(ctrl, 6, 2);
    crate::state::law_eeprom_roundtrip(snapshot, ctrl.active_preset as int);
    let restored = ControllerModel::started(image_store(eeprom_image(snapshot)), 6, 2);
    assert(restored.working() =~= snapshot.current());
}

/// The press of a button that has a long press sends nothing and asks nothing of
/// the system: what it does is decided by how long it is held.
pub proof fn law_press_is_deferred(
    stage: Stage,
    buttons: Seq<ButtonConfig>,
    idx: int,
    now_ms: u32,
)
    requires
        has_long_press(buttons, idx),
    ensures
        ({
            let after = stage.edge(buttons, idx, Edge::Activate, now_ms);
            &&& after.out.midi == stage.out.midi
            &&& after.pending == stage.pending
            &&& after.ctrl.store == stage.ctrl.store
        }),
{
}

/// Once a press has fired as a long press, its release sends nothing and asks
/// nothing of the system.
pub proof fn law_release_after_long_press(
    stage: Stage,
    buttons: Seq<ButtonConfig>,
    idx: int,
    now_ms: u32,
)
    requires
        has_long_press(buttons, idx),
        stage.ctrl.long_press[idx].fired,
    ensures
        ({
            let after = stage.edge(buttons, idx, Edge::Deactivate, now_ms);
            &&& after.out.midi == stage.out.midi
            &&& after.pending == stage.pending
            &&& after.ctrl.store == stage.ctrl.store
        }),
{
}

/// While no button is held, a tick changes nothing and brings about nothing.
pub proof fn law_idle_tick<const B: usize, const E: usize, const A: usize>(
    ctrl: ControllerModel,
    now_ms: u32,
    config: Config<B, E, A>,
)
    requires
        ctrl.valid(B as nat, E as nat),
        !ctrl.held(),
    ensures
        settled(ctrl, Event::Tick, now_ms, config).ctrl == ctrl,
        event_output(ctrl, Event::Tick, now_ms, config) == OutputModel::nothing(),
{
    if let Some(preset) = current(ctrl, config.presets@) {
        law_tick_while_idle(Stage::start(ctrl), preset.buttons@, B as nat, now_ms);
    }
}

/// An event of an input that is not there changes nothing and brings about nothing.
pub proof fn law_unknown_input<const B: usize, const E: usize, const A: usize>(
    ctrl: ControllerModel,
    event: Event,
    now_ms: u32,
    config: Config<B, E, A>,
)
    requires
        match event {
            Event::ButtonEdge { index, .. } => index >= B,
            Event::EncoderTurn { index, .. } => index >= E,
            Event::Analog { index, .. } => index >= 2,
            _ => false,
        },
    ensures
        settled(ctrl, event, now_ms, config).ctrl == ctrl,
        event_output(ctrl, event, now_ms, config) == OutputModel::nothing(),
{
}

/// A tap that a trigger fires counts as one that is pressed: it is timed at the event
/// and gives the same tempo.
pub proof fn law_fired_tap_is_a_press<const B: usize, const E: usize, const A: usize>(
    ctrl: ControllerModel,
    data: [u8; 8],
    len: u8,
    source: MidiPort,
    idx: u8,
    now_ms: u32,
    config: Config<B, E, A>,
)
    requires
        ctrl.valid(B as nat, E as nat),
        2 <= len <= 8,
        ctrl.active_preset < config.presets@.len(),
        ({
            let preset = config.presets@[ctrl.active_preset as int];
            let raw = data@.take(len as int);
            &&& preset.triggers@.len() == 1
            &&& preset.triggers@[0].action == TriggerAction::Execute(idx)
            &&& matched(preset.triggers@[0].match_msg, raw[0], raw[1], byte_or_zero(raw, 2))
            &&& idx < preset.buttons@.len() <= B
            &&& preset.buttons@[idx as int].on_press@ == seq![Action::TapTempo]
            &&& !has_long_press(preset.buttons@, idx as int)
            &&& preset.buttons@[idx as int].mode == ButtonMode::Toggle ==> !ctrl.buttons[idx as int]
        }),
    ensures
        ({
            let fired = Event::Midi { data, len, source };
            let pressed = Event::ButtonEdge { index: idx, edge: Edge::Activate };
            let by_trigger = settled(ctrl, fired, now_ms, config);
            let by_press = settled(ctrl, pressed, now_ms, config);
            &&& by_trigger.ctrl.taps == taps_after(ctrl.taps, now_ms)
            &&& by_press.ctrl.taps == taps_after(ctrl.taps, now_ms)
            &&& by_trigger.out.bpm == tap_result(ctrl.taps, now_ms)
            &&& by_press.out.bpm == tap_result(ctrl.taps, now_ms)
        }),
{
    let preset = config.presets@[ctrl.active_preset as int];
    let buttons = preset.buttons@;
    let button = buttons[idx as int];
    let raw = data@.take(len as int);
    let tap = seq![SystemAction::TapTempo];
    assert(button.on_press@.drop_last() =~= Seq::<Action>::empty());
    assert(system_actions(button.on_press@) =~= tap) by {
        reveal_with_fuel(system_actions, 2);
    }
    assert(Seq::<SystemAction>::empty() + tap =~= tap);
    assert(preset.triggers@.drop_last() =~= Seq::<Trigger>::empty());
    assert(midi_triggered(ctrl, preset, raw).system == tap) by {
        reveal_with_fuel(triggered, 2);
    }
    let start = Stage::start(ctrl);
    let seen = after_triggers(reacted(ctrl, raw, source, config.global, preset), preset, raw);
    lemma_one_system(seen, SystemAction::TapTempo, now_ms, config.presets@);
    let by_trigger = event_stage(ctrl, Event::Midi { data, len, source }, now_ms, config);
    assert(by_trigger == seen.system(SystemAction::TapTempo, now_ms, config.presets@));
    assert(by_trigger.pending =~= Seq::<SystemAction>::empty());
    let press = start.button(buttons, idx as int, ButtonEvent::Press);
    assert(press.pending =~= tap);
    lemma_one_system(
        Stage { pending: Seq::empty(), ..press },
        SystemAction::TapTempo,
        now_ms,
        config.presets@,
    );
}

proof fn lemma_one_system<const B: usize, const E: usize, const A: usize>(
    stage: Stage,
    action: SystemAction,
    now_ms: u32,
    presets: Seq<Preset<B, E, A>>,
)
    ensures
        stage.systems(seq![action], now_ms, presets) == stage.system(action, now_ms, presets),
{
    reveal_with_fuel(Stage::systems, 2);
    assert(seq![action].drop_last() =~= Seq::<SystemAction>::empty());
}

/// An analog input changes nothing that the controller knows.
pub proof fn law_analog_is_stateless<const B: usize, const E: usize, const A: usize>(
    ctrl: ControllerModel,
    index: u8,
    raw: u16,
    now_ms: u32,
    config: Config<B, E, A>,
)
    ensures
        settled(ctrl, Event::Analog { index, raw }, now_ms, config).ctrl == ctrl,
{
    let stage = event_stage(ctrl, Event::Analog { index, raw }, now_ms, config);
    assert(stage.pending =~= Seq::empty());
}

/// The mode indicator tells any two presets apart that are less than eight apart.
pub proof fn law_mode_colors_differ(i: u8, j: u8)
    requires
        i < j < i + 8,
    ensures
        mode_color(i) != mode_color(j),
{
}

// --- Sound configurations ---

/// Whether the message that an action can send has a channel.
pub open spec fn has_channel(action: Action) -> bool {
    match action {
        Action::CcCycle { channel, .. } => channel >= 1,
        _ => sendable(action),
    }
}

/// Whether that holds of every action of a list.
pub open spec fn have_channels(actions: Seq<Action>) -> bool {
    forall|k: int| 0 <= k < actions.len() ==> has_channel(#[trigger] actions[k])
}

/// Whether every message that a preset can send has a channel.
pub open spec fn sound_preset<const B: usize, const E: usize, const A: usize>(
    preset: Preset<B, E, A>,
) -> bool {
    &&& forall|i: int|
        0 <= i < preset.buttons@.len() ==> {
            &&& have_channels((#[trigger] preset.buttons@[i]).on_press@)
            &&& have_channels(preset.buttons@[i].on_release@)
            &&& have_channels(preset.buttons@[i].on_long_press@)
        }
    &&& forall|i: int|
        0 <= i < preset.encoders@.len() ==> encoder_sendable(
            (#[trigger] preset.encoders@[i]).action,
        )
    &&& have_channels(preset.on_enter@)
    &&& have_channels(preset.on_exit@)
}

/// Whether every message that a configuration can send has a channel, and every
/// analog input that it reads has a range and a calibration that are not reversed.
pub open spec fn sound<const B: usize, const E: usize, const A: usize>(
    config: Config<B, E, A>,
) -> bool {
    &&& forall|p: int| 0 <= p < config.presets@.len() ==> sound_preset(#[trigger] config.presets@[p])
    &&& forall|p: int, i: int|
        #![trigger config.presets@[p].analog@[i]]
        0 <= p < config.presets@.len() && 0 <= i < config.presets@[p].analog@.len() ==> (
        calibration(config.global, i) matches Some((min, max)) ==> analog_convertible(
            config.presets@[p].analog@[i],
            min,
            max,
        ))
}

proof fn lemma_sound_button<const B: usize, const E: usize, const A: usize>(
    preset: Preset<B, E, A>,
    state: StateModel,
    idx: int,
    event: ButtonEvent,
)
    requires
        sound_preset(preset),
        idx >= 0,
    ensures
        button_executable(preset.buttons@, state, idx, event),
{
    if idx < preset.buttons@.len() {
        let button = preset.buttons@[idx];
        assert(have_channels(button.on_press@));
        assert(have_channels(button.on_release@));
        assert(have_channels(button.on_long_press@));
    }
}

proof fn lemma_sound_gesture<const B: usize, const E: usize, const A: usize>(
    stage: Stage,
    preset: Preset<B, E, A>,
    idx: int,
    gesture: Gesture,
)
    requires
        sound_preset(preset),
        idx >= 0,
    ensures
        stage.gesture_executable(preset.buttons@, idx, gesture),
{
    let buttons = preset.buttons@;
    let pressed = stage.showing(DisplayEvent::LongPressCancel).button(
        buttons,
        idx,
        ButtonEvent::Press,
    );
    lemma_sound_button(preset, stage.ctrl.working(), idx, ButtonEvent::Press);
    lemma_sound_button(preset, stage.ctrl.working(), idx, ButtonEvent::LongPress);
    lemma_sound_button(preset, pressed.ctrl.working(), idx, ButtonEvent::Release);
}

proof fn lemma_sound_recall<const B: usize, const E: usize, const A: usize>(
    preset: Preset<B, E, A>,
    state: StateModel,
)
    requires
        sound_preset(preset),
    ensures
        recallable(preset, state),
{
    assert forall|i: int, k: int|
        #![trigger recall_actions(preset.buttons@[i], state.button_active[i])[k]]
        0 <= i < preset.buttons@.len() && 0 <= k < recall_actions(
            preset.buttons@[i],
            state.button_active[i],
        ).len() implies sendable(
        recall_actions(preset.buttons@[i], state.button_active[i])[k],
    ) by {
        let button = preset.buttons@[i];
        assert(have_channels(button.on_press@));
        assert(have_channels(button.on_release@));
        let list = recall_actions(button, state.button_active[i]);
        assert(has_channel(list[k]));
    }
}

proof fn lemma_sound_systems<const B: usize, const E: usize, const A: usize>(
    stage: Stage,
    actions: Seq<SystemAction>,
    now_ms: u32,
    config: Config<B, E, A>,
)
    requires
        sound(config),
    ensures
        stage.systems_executable(actions, now_ms, config.presets@),
{
    assert forall|i: int|
        #![trigger actions[i]]
        0 <= i < actions.len() implies stage.systems(
        actions.take(i),
        now_ms,
        config.presets@,
    ).system_executable(actions[i], config.presets@) by {
        let before = stage.systems(actions.take(i), now_ms, config.presets@);
        if let Some(new_idx) = before.target(actions[i], config.presets@) {
            law_sound_switch(before, new_idx, config);
        }
    }
}

/// In a sound configuration every preset can be switched to.
pub proof fn law_sound_switch<const B: usize, const E: usize, const A: usize>(
    stage: Stage,
    new_idx: u8,
    config: Config<B, E, A>,
)
    requires
        sound(config),
    ensures
        stage.switch_executable(new_idx, config.presets@),
{
    if let Some(old_preset) = current(stage.ctrl, config.presets@) {
        assert(sound_preset(old_preset));
    }
    if new_idx < config.presets@.len() {
        let new_preset = config.presets@[new_idx as int];
        assert(sound_preset(new_preset));
        lemma_sound_recall(new_preset, moved(stage.ctrl, new_idx).working());
    }
}

/// With a sound configuration every event can be processed, whatever the controller
/// knows, as long as an incoming message is no longer than its bytes.
pub proof fn law_sound_config<const B: usize, const E: usize, const A: usize>(
    ctrl: ControllerModel,
    event: Event,
    now_ms: u32,
    config: Config<B, E, A>,
)
    requires
        sound(config),
        event matches Event::Midi { len, .. } ==> len <= 8,
    ensures
        processable(ctrl, event, now_ms, config),
{
    let start = Stage::start(ctrl);
    let stage = event_stage(ctrl, event, now_ms, config);
    lemma_sound_systems(
        Stage { pending: Seq::empty(), ..stage },
        stage.pending,
        now_ms,
        config,
    );
    if let Some(preset) = current(ctrl, config.presets@) {
        let buttons = preset.buttons@;
        assert(sound_preset(preset));
        match event {
            Event::ButtonEdge { index, edge } => {
                let idx = index as int;
                let noted = start.noted(buttons, idx, edge, now_ms);
                lemma_sound_gesture(noted, preset, idx, Gesture::ShortPress);
                lemma_sound_gesture(noted, preset, idx, Gesture::LongPress);
                lemma_sound_button(preset, ctrl.working(), idx, ButtonEvent::Press);
                lemma_sound_button(preset, ctrl.working(), idx, ButtonEvent::Release);
            },
            Event::Midi { data, len, source } => {
                let raw = data@.take(len as int);
                let seen = reacted(ctrl, raw, source, config.global, preset);
                assert forall|i: int| 0 <= i < buttons.len() implies all_executable(
                    (#[trigger] buttons[i]).on_press@,
                    buttons[i].cycle_values@,
                ) by {
                    assert(have_channels(buttons[i].on_press@));
                }
                lemma_sound_systems(
                    after_triggers(seen, preset, raw),
                    midi_triggered(ctrl, preset, raw).system,
                    now_ms,
                    config,
                );
            },
            Event::Tick => {
                assert forall|i: nat|
                    i < B && (#[trigger] start.ticked(buttons, i, now_ms)).fires(
                        buttons,
                        i as int,
                        now_ms,
                    ) implies start.ticked(buttons, i, now_ms).polled(
                    i as int,
                    now_ms,
                ).gesture_executable(buttons, i as int, Gesture::LongPress) by {
                    lemma_sound_gesture(
                        start.ticked(buttons, i, now_ms).polled(i as int, now_ms),
                        preset,
                        i as int,
                        Gesture::LongPress,
                    );
                }
            },
            _ => {},
        }
    }
}

} // verus!
