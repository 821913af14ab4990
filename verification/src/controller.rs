//! Unified controller: single entry point for all input processing.
//!
//! Owns all timing-sensitive state (long-press detection, encoder acceleration,
//! tap tempo, preset state) and delegates pure logic to the engine.
//!
//! The Controller handles system actions (preset switching) internally,
//! including on_enter/on_exit actions and recall MIDI. Callers only need to
//! send the resulting MIDI output: no orchestration required.
//!
//! Both firmware and simulator use the same `Controller`: the only difference
//! is where `now_ms` comes from (hardware monotonic vs std::Instant).

use vstd::prelude::*;

use crate::action::{
    action_to_midi, analog_convertible, encoder_sendable, EncoderDirection, MidiMessage,
};
use crate::bounded::{clip, lemma_clip_push, BoundedVec};
use crate::config::{
    label_as_str, Action, ButtonMode, Config, EncoderAction, GlobalConfig, Preset, MAX_BUTTONS,
    MAX_ENCODERS, MAX_PRESETS,
};
use crate::controller::model::{
    after_triggers, analog_stage, analog_stage_executable, button_stage, button_stage_executable,
    calibration, current, encoder_stage, encoder_stage_executable, entered, event_output,
    event_stage, forwarded, has_channel, have_channels, hint, law_output, law_tick_while_idle,
    midi_stage, midi_stage_executable, mode_color, moved, named, processable, reacted, settled,
    sound, sound_preset, thru, tick_stage, tick_stage_executable, transition_executable,
    transition_steps, turned, ControllerModel, OutputModel, Stage,
};
use crate::encoder_accel::EncoderAccel;
use crate::engine;
use crate::engine::{
    button_executable, process_triggers, ActionStep, ButtonEvent, DisplayEvent, EngineResult,
    ReactiveResult, SystemAction,
};
use crate::led::Rgb;
use crate::long_press::{Edge, Gesture, LongPressDetector, PressModel};
use crate::routing::{MidiOut, MidiPort};
use crate::state::{recall, PresetState, PresetStateStore, StateModel, StoreModel};
use crate::tap_tempo::TapTempo;

pub mod model;

verus! {

/// Abstract input event. Hardware-agnostic: firmware maps GPIO edges to these,
/// the simulator maps keyboard/WebSocket events to these.
#[derive(Debug, Clone, Copy, PartialEq, Eq)]
pub enum Event {
    /// Button edge (index 0..5).
    ButtonEdge { index: u8, edge: Edge },
    /// Encoder detent (index 0..1).
    EncoderTurn { index: u8, clockwise: bool },
    /// Analog input (expression pedal). Raw ADC value.
    /// Calibration (min/max) is read from Config.global.
    Analog { index: u8, raw: u16 },
    /// Incoming MIDI message from any port.
    Midi { data: [u8; 8], len: u8, source: MidiPort },
    /// Periodic tick: drives long-press detection. Send every 1-10ms.
    /// No-op if no buttons are held.
    Tick,
}

/// Result of processing an input event through the Controller.
/// Contains everything the caller needs to emit: no further logic required.
pub struct Output {
    /// MIDI actions to emit (includes on_enter/on_exit/recall on preset switch).
    pub midi: BoundedVec<ActionStep, 32>,
    /// Routed MIDI messages with destination port(s).
    /// Includes thru-forwarded messages and future controller-generated output.
    pub midi_out: BoundedVec<MidiOut, 16>,
    /// Display events (overlays, hints).
    pub display: BoundedVec<DisplayEvent, 2>,
    /// Whether LED state changed and needs re-rendering.
    pub leds_changed: bool,
    /// Whether a preset switch occurred (caller may need to update display).
    pub preset_changed: bool,
    /// BPM computed from tap tempo (if any).
    pub bpm: Option<u16>,
    /// Mon indicator LED: flashes on MIDI activity.
    /// Green = MIDI output generated, Blue = incoming MIDI processed.
    pub mon_led: Option<Rgb>,
    /// Mode indicator LED: color represents the active preset/bank.
    /// Set on preset change; None means no change.
    pub mode_led: Option<Rgb>,
    /// Reactive LED updates from incoming MIDI (CC to ring heatmap/trigger).
    pub reactive_led: Option<ReactiveResult>,
}

impl View for Output {
    type V = OutputModel;

    open spec fn view(&self) -> OutputModel {
        OutputModel {
            midi: self.midi@,
            midi_out: self.midi_out@,
            display: self.display@,
            leds_changed: self.leds_changed,
            preset_changed: self.preset_changed,
            bpm: self.bpm,
            mon_led: self.mon_led,
            mode_led: self.mode_led,
            reactive_led: self.reactive_led,
        }
    }
}

/// An output in the making, with the system actions that are still to be handled.
pub(crate) struct Draft {
    pub(crate) out: Output,
    pub(crate) pending: BoundedVec<SystemAction, 2>,
}

impl Draft {
    pub(crate) fn new() -> (r: Self)
        ensures
            r.out@ == OutputModel::nothing(),
            r.pending@ == Seq::<SystemAction>::empty(),
    {
        Draft {
            out: Output {
                midi: BoundedVec::new(),
                midi_out: BoundedVec::new(),
                display: BoundedVec::new(),
                leds_changed: false,
                preset_changed: false,
                bpm: None,
                mon_led: None,
                mode_led: None,
                reactive_led: None,
            },
            pending: BoundedVec::new(),
        }
    }
}

// --- Controller ---

/// Unified timing controller. Owns all stateful input processing.
///
/// Call `process` with each input event and the time it came at, then send the
/// MIDI of the result, update the display from it and re-render the LEDs where
/// they changed. `is_sound` tells of a configuration whether every event can be
/// processed with it.
pub struct Controller<const B: usize, const E: usize> {
    state_store: PresetStateStore<B, E>,
    long_press: [LongPressDetector; B],
    encoder_accel: [EncoderAccel; E],
    tap_tempo: TapTempo,
    button_active: [bool; B],
    active_preset: u8,
}

/// The controller of the standard board (6 buttons, 2 encoders).
pub type DefaultController = Controller<MAX_BUTTONS, MAX_ENCODERS>;

impl<const B: usize, const E: usize> View for Controller<B, E> {
    type V = ControllerModel;

    closed spec fn view(&self) -> ControllerModel {
        ControllerModel {
            store: self.state_store@,
            long_press: Seq::new(B as nat, |i: int| self.long_press@[i]@),
            accel: Seq::new(E as nat, |i: int| self.encoder_accel@[i]@),
            taps: self.tap_tempo@,
            buttons: self.button_active@,
            active_preset: self.active_preset,
        }
    }
}

/// Detectors that swallow the next release.
fn spent_detectors<const B: usize>() -> (r: [LongPressDetector; B])
    ensures
        forall|i: int| 0 <= i < B ==> (#[trigger] r@[i])@ == PressModel::spent(),
{
    let one = LongPressDetector::new_fired();
    let r: [LongPressDetector; B] = [one; B];
    assert forall|i: int| 0 <= i < B implies #[trigger] r@[i] == one by {}
    r
}

/// Encoders that were not turned yet.
fn still_encoders<const E: usize>() -> (r: [EncoderAccel; E])
    ensures
        forall|i: int| 0 <= i < E ==> (#[trigger] r@[i])@ == None::<u32>,
{
    let one = EncoderAccel::new();
    let r: [EncoderAccel; E] = [one; E];
    assert forall|i: int| 0 <= i < E implies #[trigger] r@[i] == one by {}
    r
}

impl<const B: usize, const E: usize> Default for Controller<B, E> {
    fn default() -> (r: Self)
        ensures
            r@ == ControllerModel::started(StoreModel::fresh(B as nat, E as nat), B as nat, E as nat),
            r@.valid(B as nat, E as nat),
    {
        Self::new()
    }
}

impl<const B: usize, const E: usize> Controller<B, E> {
    pub fn new() -> (r: Self)
        ensures
            r@ == ControllerModel::started(StoreModel::fresh(B as nat, E as nat), B as nat, E as nat),
            r@.valid(B as nat, E as nat),
    {
        Self::with_state(PresetStateStore::new())
    }

    /// Create with a restored state store (from EEPROM/persistence).
    pub fn with_state(store: PresetStateStore<B, E>) -> (r: Self)
        requires
            store.active < MAX_PRESETS,
        ensures
            r@ == ControllerModel::started(store@, B as nat, E as nat),
            r@.valid(B as nat, E as nat),
    {
        let state: PresetState<B, E> = *store.current();
        let active: u8 = store.active_index();
        let r: Controller<B, E> = Controller {
            state_store: store,
            long_press: spent_detectors(),
            encoder_accel: still_encoders(),
            tap_tempo: TapTempo::new(),
            button_active: state.button_active,
            active_preset: active,
        };
        assert(r@ =~= ControllerModel::started(store@, B as nat, E as nat));
        r
    }

    /// Returns true if any button is currently held.
    pub fn button_held(&self) -> (r: bool)
        ensures
            r == self@.held(),
    {
        let mut i: usize = 0;
        while i < B
            invariant
                i <= B,
                forall|k: int| 0 <= k < i ==> !(#[trigger] self@.long_press[k]).active,
            decreases B - i,
        {
            if self.long_press[i].is_active() {
                assert(self@.long_press[i as int].active);
                return true;
            }
            i += 1;
        }
        false
    }

    /// Returns the current button active state (toggle ON / momentary held).
    pub fn button_states(&self) -> (r: &[bool; B])
        ensures
            r@ == self@.buttons,
    {
        &self.button_active
    }

    /// Get the active preset index.
    pub fn active_preset(&self) -> (r: u8)
        ensures
            r == self@.active_preset,
    {
        self.active_preset
    }

    /// Get the encoder values.
    pub fn encoder_values(&self) -> (r: [u8; E])
        requires
            self@.valid(B as nat, E as nat),
        ensures
            r@ == self@.store.current().encoder_values,
    {
        self.state_store.current().encoder_values
    }

    /// Get a snapshot of the state store (with current working state saved).
    /// Use this for persistence: the caller decides the serialization format.
    pub fn snapshot_store(&self) -> (r: PresetStateStore<B, E>)
        requires
            self@.valid(B as nat, E as nat),
        ensures
            r@ == self@.store.saved(self@.working()),
    {
        let mut store: PresetStateStore<B, E> = self.state_store;
        let working = self.working_state();
        store.save_working(&working);
        store
    }

    /// Set encoder value (for initial state setup from config defaults).
    pub fn set_encoder_value(&mut self, index: usize, value: u8)
        requires
            old(self)@.valid(B as nat, E as nat),
        ensures
            final(self)@.valid(B as nat, E as nat),
            final(self)@ == old(self)@.with_encoder(index as int, value),
    {
        let mut state: PresetState<B, E> = *self.state_store.current();
        if index < E {
            state.encoder_values[index] = value;
        }
        self.state_store.save_working(&state);
        assert(self@.store.states =~= old(self)@.store.saved(state@).states);
        assert(index >= E ==> self@.store.states =~= old(self)@.store.states);
    }

    fn working_state(&self) -> (r: PresetState<B, E>)
        requires
            self@.valid(B as nat, E as nat),
        ensures
            r@ == self@.working(),
    {
        let current = self.state_store.current();
        PresetState {
            button_active: self.button_active,
            cycle_index: current.cycle_index,
            encoder_values: current.encoder_values,
        }
    }

    fn apply_state(&mut self, state: &PresetState<B, E>)
        requires
            old(self)@.valid(B as nat, E as nat),
        ensures
            final(self)@ == old(self)@.applied(state@),
            final(self)@.valid(B as nat, E as nat),
    {
        self.button_active = state.button_active;
        self.state_store.save_working(state);
        assert(self@ =~= old(self)@.applied(state@));
    }
}

impl Draft {
    /// This draft and what the controller knows by now.
    pub(crate) open spec fn stage(self, ctrl: ControllerModel) -> Stage {
        Stage { ctrl, out: self.out@, pending: self.pending@ }
    }

    /// Appends steps, as far as there is room.
    fn send_all(&mut self, steps: &[ActionStep])
        ensures
            forall|c: ControllerModel|
                #[trigger] final(self).stage(c) == old(self).stage(c).sending(steps@),
    {
        self.out.midi.push_all(steps);
        assert forall|c: ControllerModel| #[trigger] self.stage(c) == old(self).stage(c).sending(
            steps@,
        ) by {
            assert(self.stage(c) =~= old(self).stage(c).sending(steps@));
        }
    }

    /// Merge engine result into controller result, intercepting system actions.
    fn merge_engine_result(&mut self, r: &EngineResult)
        ensures
            forall|c: ControllerModel|
                #[trigger] final(self).stage(c) == old(self).stage(c).merged(r@),
    {
        self.out.midi.push_all(r.midi.as_slice());
        // A list never holds more than it has room for
        let _ = self.out.display.as_slice();
        let ghost display0 = self.out.display@;
        let display = r.display.as_slice();
        assert(display0 + display@.take(0) =~= display0);
        let mut i: usize = 0;
        while i < display.len()
            invariant
                i <= display@.len(),
                self.out.display@ == clip(display0 + display@.take(i as int), 2),
                self.out@ == (OutputModel {
                    midi: self.out.midi@,
                    display: self.out.display@,
                    ..old(self).out@
                }),
                self.out.midi@ == clip(old(self).out.midi@ + r.midi@, 32),
                self.pending@ == old(self).pending@,
            decreases display@.len() - i,
        {
            proof {
                lemma_clip_push(display0 + display@.take(i as int), display@[i as int], 2);
                assert((display0 + display@.take(i as int)).push(display@[i as int]) =~= display0
                    + display@.take(i + 1));
            }
            let _ = self.out.display.push(display[i].clone());
            i += 1;
        }
        assert(display@.take(i as int) =~= display@);
        if r.led_dirty {
            self.out.leds_changed = true;
        }
        self.pending.push_all(r.system.as_slice());
        assert forall|c: ControllerModel| #[trigger] self.stage(c) == old(self).stage(c).merged(
            r@,
        ) by {
            assert(self.stage(c) =~= old(self).stage(c).merged(r@));
        }
    }
}

impl<const B: usize, const E: usize> Controller<B, E> {
    /// Runs an event of a button through the engine.
    fn run_button<const A: usize>(
        &mut self,
        index: usize,
        event: ButtonEvent,
        preset: &Preset<B, E, A>,
        draft: &mut Draft,
    )
        requires
            old(self)@.valid(B as nat, E as nat),
            button_executable(preset.buttons@, old(self)@.working(), index as int, event),
        ensures
            final(self)@.valid(B as nat, E as nat),
            final(draft).stage(final(self)@) == old(draft).stage(old(self)@).button(
                preset.buttons@,
                index as int,
                event,
            ),
    {
        let mut state = self.working_state();
        let r = engine::process_button(&mut state, preset, index, event);
        self.apply_state(&state);
        draft.merge_engine_result(&r);
        assert(draft.stage(self@) == old(draft).stage(self@).merged(r@));
    }

    fn handle_gesture<const A: usize>(
        &mut self,
        index: usize,
        gesture: Gesture,
        preset: &Preset<B, E, A>,
        draft: &mut Draft,
    )
        requires
            old(self)@.valid(B as nat, E as nat),
            old(draft).stage(old(self)@).gesture_executable(
                preset.buttons@,
                index as int,
                gesture,
            ),
        ensures
            final(self)@.valid(B as nat, E as nat),
            final(draft).stage(final(self)@) == old(draft).stage(old(self)@).gestured(
                preset.buttons@,
                index as int,
                gesture,
            ),
    {
        let ghost s0 = draft.stage(self@);
        match gesture {
            Gesture::ShortPress => {
                let _ = draft.out.display.push(DisplayEvent::LongPressCancel);
                assert(draft.stage(self@) =~= s0.showing(DisplayEvent::LongPressCancel));
                self.run_button(index, ButtonEvent::Press, preset, draft);

                let buttons = preset.buttons.as_slice();
                if index < buttons.len() {
                    let btn = &buttons[index];
                    if btn.mode == ButtonMode::Momentary || btn.on_release.as_slice().len() > 0 {
                        self.run_button(index, ButtonEvent::Release, preset, draft);
                    }
                }
            },
            Gesture::LongPress => {
                self.run_button(index, ButtonEvent::LongPress, preset, draft);
            },
        }
    }
}

/// What a long press of these actions is announced as.
fn find_hint(actions: &[Action]) -> (r: Option<SystemAction>)
    ensures
        r == hint(actions@),
{
    let mut i: usize = 0;
    let mut found: Option<SystemAction> = None;
    while i < actions.len()
        invariant
            i <= actions@.len(),
            found == hint(actions@.take(i as int)),
        decreases actions@.len() - i,
    {
        assert(actions@.take(i + 1).drop_last() =~= actions@.take(i as int));
        if found.is_none() {
            match &actions[i] {
                Action::PresetNext => {
                    found = Some(SystemAction::PresetNext);
                },
                Action::PresetPrev => {
                    found = Some(SystemAction::PresetPrev);
                },
                _ => {},
            }
        }
        i += 1;
    }
    assert(actions@.take(i as int) =~= actions@);
    found
}

impl<const B: usize, const E: usize> Controller<B, E> {
    fn current_preset<'a, const A: usize>(
        &self,
        config: &'a Config<B, E, A>,
    ) -> (r: Option<&'a Preset<B, E, A>>)
        ensures
            r matches Some(preset) ==> current(self@, config.presets@) == Some(*preset),
            r is None ==> current(self@, config.presets@) is None,
    {
        let presets = config.presets.as_slice();
        if (self.active_preset as usize) < presets.len() {
            Some(&presets[self.active_preset as usize])
        } else {
            None
        }
    }

    fn process_button<const A: usize>(
        &mut self,
        index: usize,
        edge: Edge,
        now_ms: u32,
        config: &Config<B, E, A>,
    ) -> (r: Draft)
        requires
            old(self)@.valid(B as nat, E as nat),
            button_stage_executable(old(self)@, index as int, edge, now_ms, *config),
        ensures
            final(self)@.valid(B as nat, E as nat),
            r.stage(final(self)@) == button_stage(
                old(self)@,
                index as int,
                edge,
                now_ms,
                *config,
            ),
    {
        let mut draft = Draft::new();
        let ghost s0 = Stage::start(self@);
        assert(draft.stage(self@) =~= s0);

        let preset = match self.current_preset(config) {
            Some(p) => p,
            None => {
                return draft;
            },
        };

        if index >= B {
            return draft;
        }
        let buttons = preset.buttons.as_slice();
        if index < buttons.len() && buttons[index].on_long_press.as_slice().len() > 0 {
            let btn = &buttons[index];
            if btn.mode == ButtonMode::Momentary {
                match edge {
                    Edge::Activate => {
                        self.button_active[index] = true;
                        draft.out.leds_changed = true;
                    },
                    Edge::Deactivate => {
                        self.button_active[index] = false;
                        draft.out.leds_changed = true;
                    },
                }
            }

            if edge == Edge::Activate {
                if let Some(action) = find_hint(btn.on_long_press.as_slice()) {
                    let _ = draft.out.display.push(DisplayEvent::LongPressHint { action });
                }
            }

            let gesture = self.long_press[index].update(Some(edge), now_ms);
            assert(self@.long_press =~= old(self)@.long_press.update(
                index as int,
                old(self)@.long_press[index as int].next(Some(edge), now_ms),
            ));
            assert(draft.stage(self@) =~= s0.noted(
                preset.buttons@,
                index as int,
                edge,
                now_ms,
            ));
            if let Some(g) = gesture {
                self.handle_gesture(index, g, preset, &mut draft);
            }
        } else {
            match edge {
                Edge::Activate => {
                    self.run_button(index, ButtonEvent::Press, preset, &mut draft);
                },
                Edge::Deactivate => {
                    self.run_button(index, ButtonEvent::Release, preset, &mut draft);
                },
            }
        }

        draft
    }

    fn do_tick<const A: usize>(&mut self, now_ms: u32, config: &Config<B, E, A>) -> (r: Draft)
        requires
            old(self)@.valid(B as nat, E as nat),
            tick_stage_executable(old(self)@, now_ms, *config),
        ensures
            final(self)@.valid(B as nat, E as nat),
            r.stage(final(self)@) == tick_stage(old(self)@, now_ms, *config),
    {
        let mut draft = Draft::new();
        let ghost s0 = Stage::start(self@);
        assert(draft.stage(self@) =~= s0);

        let preset = match self.current_preset(config) {
            Some(p) => p,
            None => {
                return draft;
            },
        };

        if !self.button_held() {
            proof {
                law_tick_while_idle(s0, preset.buttons@, B as nat, now_ms);
            }
            return draft;
        }

        let buttons = preset.buttons.as_slice();
        let mut i: usize = 0;
        while i < B
            invariant
                i <= B,
                self@.valid(B as nat, E as nat),
                buttons@ == preset.buttons@,
                s0.tick_executable(preset.buttons@, B as nat, now_ms),
                draft.stage(self@) == s0.ticked(preset.buttons@, i as nat, now_ms),
            decreases B - i,
        {
            let ghost before = draft.stage(self@);
            assert(s0.ticked(preset.buttons@, i as nat, now_ms) == before);
            if self.long_press[i].is_active() && !self.long_press[i].has_fired() {
                if i < buttons.len() && buttons[i].on_long_press.as_slice().len() > 0 {
                    let ghost lp0 = self@.long_press;
                    let gesture = self.long_press[i].update(None, now_ms);
                    assert(self@.long_press =~= lp0.update(
                        i as int,
                        lp0[i as int].next(None, now_ms),
                    ));
                    assert(draft.stage(self@) =~= before.polled(i as int, now_ms));
                    if let Some(g) = gesture {
                        assert(before.fires(preset.buttons@, i as int, now_ms));
                        self.handle_gesture(i, g, preset, &mut draft);
                    } else {
                        assert(self@.long_press =~= lp0);
                        assert(draft.stage(self@) =~= before);
                    }
                }
            }
            i += 1;
        }

        draft
    }
}

/// How many presets have a name.
fn count_named<const B: usize, const E: usize, const A: usize>(config: &Config<B, E, A>) -> (r: u8)
    ensures
        r == named(config.presets@),
        r <= config.presets@.len() <= MAX_PRESETS,
{
    let presets = config.presets.as_slice();
    let mut n: u8 = 0;
    let mut i: usize = 0;
    while i < presets.len()
        invariant
            n <= i <= presets@.len() <= MAX_PRESETS,
            n == named(presets@.take(i as int)),
        decreases presets@.len() - i,
    {
        assert(presets@.take(i + 1).drop_last() =~= presets@.take(i as int));
        if !label_as_str(&presets[i].name).is_empty() {
            n += 1;
        }
        i += 1;
    }
    assert(presets@.take(i as int) =~= presets@);
    n
}

impl Draft {
    /// Appends the steps of a transition.
    fn send_transition(&mut self, actions: &[Action])
        requires
            transition_executable(actions@),
        ensures
            forall|c: ControllerModel|
                #[trigger] final(self).stage(c) == old(self).stage(c).sending(
                    transition_steps(actions@),
                ),
    {
        // A list never holds more than it has room for
        let _ = self.out.midi.as_slice();
        let ghost before = *self;
        let ghost midi0 = self.out.midi@;
        let ghost none = Seq::<u8>::empty();
        assert(midi0 + transition_steps(actions@.take(0)) =~= midi0);
        let mut i: usize = 0;
        while i < actions.len()
            invariant
                i <= actions@.len(),
                none == Seq::<u8>::empty(),
                transition_executable(actions@),
                self.out.midi@ == clip(midi0 + transition_steps(actions@.take(i as int)), 32),
                self.out@ == (OutputModel { midi: self.out.midi@, ..before.out@ }),
                self.pending@ == before.pending@,
            decreases actions@.len() - i,
        {
            let ghost steps = transition_steps(actions@.take(i as int));
            proof {
                let a = actions@[i as int];
                assert(actions@.take(i + 1).drop_last() =~= actions@.take(i as int));
                assert(engine::executable(a, none));
                lemma_no_cycle(actions@.take(i as int), 0);
                if let Some(step) = engine::action_step(a, none, 0) {
                    lemma_clip_push(midi0 + steps, step, 32);
                    assert((midi0 + steps).push(step) =~= midi0 + steps.push(step));
                }
            }
            match &actions[i] {
                Action::Delay(ms) => {
                    let _ = self.out.midi.push(ActionStep::Delay(*ms));
                },
                action => {
                    if let Some(msg) = action_to_midi(action) {
                        let _ = self.out.midi.push(ActionStep::Send(msg));
                    }
                },
            }
            i += 1;
        }
        assert(actions@.take(i as int) =~= actions@);
        assert forall|c: ControllerModel| #[trigger] self.stage(c) == before.stage(c).sending(
            transition_steps(actions@),
        ) by {
            assert(self.stage(c) =~= before.stage(c).sending(transition_steps(actions@)));
        }
    }

    /// Appends messages.
    fn send_messages(&mut self, messages: &[MidiMessage])
        ensures
            forall|c: ControllerModel|
                #[trigger] final(self).stage(c) == old(self).stage(c).sending(
                    messages@.map_values(|m: MidiMessage| ActionStep::Send(m)),
                ),
    {
        // A list never holds more than it has room for
        let _ = self.out.midi.as_slice();
        let ghost before = *self;
        let ghost midi0 = self.out.midi@;
        let ghost all = messages@.map_values(|m: MidiMessage| ActionStep::Send(m));
        assert(midi0 + all.take(0) =~= midi0);
        let mut i: usize = 0;
        while i < messages.len()
            invariant
                i <= messages@.len(),
                all == messages@.map_values(|m: MidiMessage| ActionStep::Send(m)),
                self.out.midi@ == clip(midi0 + all.take(i as int), 32),
                self.out@ == (OutputModel { midi: self.out.midi@, ..before.out@ }),
                self.pending@ == before.pending@,
            decreases messages@.len() - i,
        {
            proof {
                lemma_clip_push(midi0 + all.take(i as int), all[i as int], 32);
                assert((midi0 + all.take(i as int)).push(all[i as int]) =~= midi0 + all.take(
                    i + 1,
                ));
            }
            let _ = self.out.midi.push(ActionStep::Send(messages[i]));
            i += 1;
        }
        assert(all.take(i as int) =~= all);
        assert forall|c: ControllerModel| #[trigger] self.stage(c) == before.stage(c).sending(
            all,
        ) by {
            assert(self.stage(c) =~= before.stage(c).sending(all));
        }
    }
}

/// Without cycle values no action moves a cycle.
proof fn lemma_no_cycle(actions: Seq<Action>, cycle_index: u8)
    ensures
        engine::cycle_after(actions, 0, cycle_index) == cycle_index,
    decreases actions.len(),
{
    if actions.len() > 0 {
        lemma_no_cycle(actions.drop_last(), cycle_index);
    }
}

impl<const B: usize, const E: usize> Controller<B, E> {
    fn process_encoder<const A: usize>(
        &mut self,
        index: usize,
        clockwise: bool,
        now_ms: u32,
        config: &Config<B, E, A>,
    ) -> (r: Draft)
        requires
            old(self)@.valid(B as nat, E as nat),
            encoder_stage_executable(old(self)@, index as int, *config),
        ensures
            final(self)@.valid(B as nat, E as nat),
            r.stage(final(self)@) == encoder_stage(
                old(self)@,
                index as int,
                turned(clockwise),
                now_ms,
                *config,
            ),
    {
        let mut draft = Draft::new();
        assert(draft.stage(self@) =~= Stage::start(self@));
        let preset = match self.current_preset(config) {
            Some(p) => p,
            None => {
                return draft;
            },
        };

        if index >= E {
            return draft;
        }
        let steps: u8 = self.encoder_accel[index].steps(now_ms);
        let direction = if clockwise {
            EncoderDirection::Clockwise
        } else {
            EncoderDirection::CounterClockwise
        };
        let ghost c1 = self@;
        assert(c1.accel =~= old(self)@.accel.update(index as int, Some(now_ms)));

        let mut state = self.working_state();
        let r = engine::process_encoder(&mut state, preset, index, direction, steps);
        self.apply_state(&state);
        draft.merge_engine_result(&r);
        proof {
            let after = state@;
            assert(self@ =~= ControllerModel { accel: c1.accel, ..old(self)@.applied(after) });
            assert(draft.stage(self@) == Stage {
                ctrl: self@,
                ..Stage::start(old(self)@)
            }.merged(r@));
        }
        draft
    }

    fn process_analog<const A: usize>(
        &mut self,
        index: usize,
        raw: u16,
        config: &Config<B, E, A>,
    ) -> (r: Draft)
        requires
            old(self)@.valid(B as nat, E as nat),
            analog_stage_executable(old(self)@, index as int, *config),
        ensures
            final(self)@ == old(self)@,
            r.stage(final(self)@) == analog_stage(old(self)@, index as int, raw, *config),
    {
        let mut draft = Draft::new();
        assert(draft.stage(self@) =~= Stage::start(self@));
        let preset = match self.current_preset(config) {
            Some(p) => p,
            None => {
                return draft;
            },
        };
        let min: u16;
        let max: u16;
        if index == 0 {
            min = config.global.exp1_min;
            max = config.global.exp1_max;
        } else if index == 1 {
            min = config.global.exp2_min;
            max = config.global.exp2_max;
        } else {
            return draft;
        }
        let r = engine::process_analog(preset, index, raw, min, max);
        draft.merge_engine_result(&r);
        draft
    }

    /// Map preset index to a distinct indicator color.
    /// Cycles through 8 hues so each bank/preset is visually distinct.
    fn preset_color(index: u8) -> (r: Rgb)
        ensures
            r == mode_color(index),
    {
        match index % 8 {
            0 => Rgb::new(255, 0, 0),  // red
            1 => Rgb::new(0, 255, 0),  // green
            2 => Rgb::new(0, 0, 255),  // blue
            3 => Rgb::new(255, 255, 0),  // yellow
            4 => Rgb::new(255, 0, 255),  // magenta
            5 => Rgb::new(0, 255, 255),  // cyan
            6 => Rgb::new(255, 128, 0),  // orange
            _ => Rgb::new(128, 0, 255),  // purple
        }
    }

    fn do_switch_preset<const A: usize>(
        &mut self,
        new_idx: u8,
        draft: &mut Draft,
        config: &Config<B, E, A>,
    )
        requires
            old(self)@.valid(B as nat, E as nat),
            old(draft).stage(old(self)@).switch_executable(new_idx, config.presets@),
        ensures
            final(self)@.valid(B as nat, E as nat),
            final(draft).stage(final(self)@) == old(draft).stage(old(self)@).switched(
                new_idx,
                config.presets@,
            ),
    {
        let ghost s0 = draft.stage(self@);
        let ghost c0 = self@;
        let presets = config.presets.as_slice();
        if (new_idx as usize) >= presets.len() {
            return;
        }

        // Fire on_exit for old preset
        if let Some(old_preset) = self.current_preset(config) {
            draft.send_transition(old_preset.on_exit.as_slice());
        }
        let ghost left = s0.exited(config.presets@);
        assert(draft.stage(self@) == left);

        // Switch state
        let new_p = &presets[new_idx as usize];
        let mut working = self.working_state();
        let recalled = self.state_store.switch(new_idx, &mut working, new_p);
        self.button_active = working.button_active;
        self.state_store.save_working(&working);
        self.long_press = spent_detectors();
        self.encoder_accel = still_encoders();
        self.active_preset = new_idx;
        proof {
            let store = c0.store.switched(new_idx, c0.working());
            assert(store.saved(store.current()).states =~= store.states);
            assert(self@ =~= moved(c0, new_idx));
            assert(self@.working() =~= store.current());
        }
        let ghost arriving = Stage { ctrl: self@, ..left };
        assert(draft.stage(self@) == arriving);

        // Fire on_enter for new preset
        draft.send_transition(new_p.on_enter.as_slice());
        assert(draft.stage(self@) == arriving.sending(transition_steps(new_p.on_enter@)));

        // Recall MIDI (state sync)
        draft.send_messages(recalled.as_slice());
        assert(draft.stage(self@) == entered(arriving, *new_p, self@.working()));

        draft.out.preset_changed = true;
        draft.out.leds_changed = true;
        draft.out.mode_led = Some(Self::preset_color(new_idx));
        assert(draft.stage(self@) =~= s0.switched(new_idx, config.presets@));
    }

    pub(crate) fn execute_system_action<const A: usize>(
        &mut self,
        action: SystemAction,
        draft: &mut Draft,
        now_ms: u32,
        config: &Config<B, E, A>,
    )
        requires
            old(self)@.valid(B as nat, E as nat),
            old(draft).stage(old(self)@).system_executable(action, config.presets@),
        ensures
            final(self)@.valid(B as nat, E as nat),
            final(draft).stage(final(self)@) == old(draft).stage(old(self)@).system(
                action,
                now_ms,
                config.presets@,
            ),
    {
        let ghost s0 = draft.stage(self@);
        let num_presets: u8 = count_named(config);

        match action {
            SystemAction::PresetNext => {
                if num_presets > 0 {
                    let next: u8 = (self.active_preset + 1) % num_presets;
                    self.do_switch_preset(next, draft, config);
                }
            },
            SystemAction::PresetPrev => {
                if num_presets > 0 {
                    let prev: u8 = if self.active_preset == 0 {
                        num_presets - 1
                    } else {
                        self.active_preset - 1
                    };
                    self.do_switch_preset(prev, draft, config);
                }
            },
            SystemAction::PresetSelect(idx) => {
                if (idx as usize) < config.presets.as_slice().len() {
                    self.do_switch_preset(idx, draft, config);
                }
            },
            SystemAction::SetBpm(bpm) => {
                draft.out.bpm = Some(bpm);
                let _ = draft.out.display.push(DisplayEvent::BpmOverlay { bpm });
                assert(draft.stage(self@) =~= s0.at_tempo(bpm));
            },
            SystemAction::TapTempo => {
                draft.out.bpm = self.tap_tempo.tap(now_ms);
                if let Some(bpm) = draft.out.bpm {
                    let _ = draft.out.display.push(DisplayEvent::BpmOverlay { bpm });
                }
                assert(draft.stage(self@) =~= s0.system(action, now_ms, config.presets@));
            },
        }
    }

    /// Carries out system actions in order.
    fn execute_all<const A: usize>(
        &mut self,
        actions: &[SystemAction],
        draft: &mut Draft,
        now_ms: u32,
        config: &Config<B, E, A>,
    )
        requires
            old(self)@.valid(B as nat, E as nat),
            old(draft).stage(old(self)@).systems_executable(actions@, now_ms, config.presets@),
        ensures
            final(self)@.valid(B as nat, E as nat),
            final(draft).stage(final(self)@) == old(draft).stage(old(self)@).systems(
                actions@,
                now_ms,
                config.presets@,
            ),
    {
        let ghost s0 = draft.stage(self@);
        let mut i: usize = 0;
        while i < actions.len()
            invariant
                i <= actions@.len(),
                self@.valid(B as nat, E as nat),
                s0.systems_executable(actions@, now_ms, config.presets@),
                draft.stage(self@) == s0.systems(
                    actions@.take(i as int),
                    now_ms,
                    config.presets@,
                ),
            decreases actions@.len() - i,
        {
            assert(actions@.take(i + 1).drop_last() =~= actions@.take(i as int));
            assert(actions@.take(i + 1).last() == actions@[i as int]);
            self.execute_system_action(actions[i], draft, now_ms, config);
            i += 1;
        }
        assert(actions@.take(i as int) =~= actions@);
    }

    /// Manually switch to a preset (e.g., on boot or from external command).
    /// Returns on_enter + recall MIDI in the result. Without a preset at that index
    /// nothing is switched and the result is empty.
    pub fn select_preset<const A: usize>(
        &mut self,
        preset_idx: u8,
        config: &Config<B, E, A>,
    ) -> (r: Output)
        requires
            old(self)@.valid(B as nat, E as nat),
            Stage::start(old(self)@).switch_executable(preset_idx, config.presets@),
        ensures
            final(self)@.valid(B as nat, E as nat),
            final(self)@ == Stage::start(old(self)@).switched(preset_idx, config.presets@).ctrl,
            r@ == Stage::start(old(self)@).switched(preset_idx, config.presets@).out,
    {
        let mut draft = Draft::new();
        assert(draft.stage(self@) =~= Stage::start(self@));
        self.do_switch_preset(preset_idx, &mut draft, config);
        draft.out
    }
}

impl<const B: usize, const E: usize> Controller<B, E> {
    /// Compute thru destination ports for a given source port based on global config.
    fn thru_destination<const A: usize>(
        &self,
        source: MidiPort,
        config: &Config<B, E, A>,
    ) -> (r: MidiPort)
        ensures
            r == thru(source, config.global),
    {
        proof {
            assert(0u8 | 2 == 2 && 0u8 | 1 == 1 && 2u8 | 1 == 3 && 3u8 | 2 == 3 && 1u8 | 2 == 3
                && 2u8 | 2 == 2) by (bit_vector);
        }
        let mut dest = MidiPort::empty();
        if source.contains(MidiPort::din()) && config.global.din_to_usb_thru {
            dest = dest.union(MidiPort::usb());
        }
        if source.contains(MidiPort::usb()) {
            if config.global.usb_to_din_thru {
                dest = dest.union(MidiPort::din());
            }
            if config.global.usb_to_usb_thru {
                dest = dest.union(MidiPort::usb());
            }
        }
        dest
    }

    fn do_process_incoming_midi<const A: usize>(
        &mut self,
        raw: &[u8],
        source: MidiPort,
        now_ms: u32,
        config: &Config<B, E, A>,
    ) -> (r: Draft)
        requires
            old(self)@.valid(B as nat, E as nat),
            midi_stage_executable(old(self)@, raw@, source, now_ms, *config),
        ensures
            final(self)@.valid(B as nat, E as nat),
            r.stage(final(self)@) == midi_stage(old(self)@, raw@, source, now_ms, *config),
    {
        let mut draft = Draft::new();
        let ghost c0 = self@;

        // Thru routing: forward incoming MIDI to configured destination ports
        let thru_dest = self.thru_destination(source, config);
        if !thru_dest.is_empty() && raw.len() > 0 {
            let _ = draft.out.midi_out.push(MidiOut::new(raw, thru_dest));
        }
        assert(draft.stage(c0) =~= forwarded(c0, raw@, source, config.global));

        let preset = match self.current_preset(config) {
            Some(p) => p,
            None => {
                return draft;
            },
        };

        // Reactive LEDs: check incoming CC against preset's listen_cc bindings
        if raw.len() >= 3 && (raw[0] & 0xF0) == 0xB0 {
            let status: u8 = raw[0];
            assert(status & 0x0F <= 15) by (bit_vector);
            let channel: u8 = (status & 0x0F) + 1;
            draft.out.reactive_led = engine::process_incoming_cc(preset, channel, raw[1], raw[2]);
        }
        let ghost seen = reacted(c0, raw@, source, config.global, *preset);
        assert(draft.stage(c0) =~= seen);

        if raw.len() >= 2 && preset.triggers.as_slice().len() > 0 {
            let mut state = self.working_state();
            let data2: u8 = if raw.len() >= 3 {
                raw[2]
            } else {
                0
            };
            let triggered_now = process_triggers(&mut state, preset, raw[0], raw[1], data2);
            self.apply_state(&state);

            draft.send_all(triggered_now.midi.as_slice());
            assert(draft.stage(c0) == seen.sending(triggered_now.midi@));
            if triggered_now.led_dirty {
                draft.out.leds_changed = true;
            }
            assert(draft.stage(self@) =~= after_triggers(seen, *preset, raw@));

            // Handle system actions from triggers (preset switch)
            self.execute_all(triggered_now.system.as_slice(), &mut draft, now_ms, config);
        }

        draft
    }

    fn handle_system_actions<const A: usize>(
        &mut self,
        draft: &mut Draft,
        now_ms: u32,
        config: &Config<B, E, A>,
    )
        requires
            old(self)@.valid(B as nat, E as nat),
            (Stage {
                pending: Seq::empty(),
                ..old(draft).stage(old(self)@)
            }).systems_executable(old(draft).pending@, now_ms, config.presets@),
        ensures
            final(self)@.valid(B as nat, E as nat),
            final(draft).stage(final(self)@) == (Stage {
                pending: Seq::empty(),
                ..old(draft).stage(old(self)@)
            }).systems(old(draft).pending@, now_ms, config.presets@),
    {
        let ghost s0 = draft.stage(self@);
        let mut actions: BoundedVec<SystemAction, 2> = BoundedVec::new();
        actions.push_all(draft.pending.as_slice());
        assert(actions@ =~= draft.pending@);
        draft.pending.clear();
        assert(draft.stage(self@) =~= (Stage { pending: Seq::empty(), ..s0 }));
        self.execute_all(actions.as_slice(), draft, now_ms, config);
    }

    /// Runs an event, up to the system actions that it asks for.
    fn process_event<const A: usize>(
        &mut self,
        event: Event,
        now_ms: u32,
        config: &Config<B, E, A>,
    ) -> (r: Draft)
        requires
            old(self)@.valid(B as nat, E as nat),
            processable(old(self)@, event, now_ms, *config),
        ensures
            final(self)@.valid(B as nat, E as nat),
            r.stage(final(self)@) == event_stage(old(self)@, event, now_ms, *config),
    {
        match event {
            Event::ButtonEdge { index, edge } => self.process_button(
                index as usize,
                edge,
                now_ms,
                config,
            ),
            Event::EncoderTurn { index, clockwise } => self.process_encoder(
                index as usize,
                clockwise,
                now_ms,
                config,
            ),
            Event::Analog { index, raw } => self.process_analog(index as usize, raw, config),
            Event::Midi { data, len, source } => {
                let raw = vstd::slice::slice_subrange(data.as_slice(), 0, len as usize);
                assert(raw@ =~= data@.take(len as int));
                self.do_process_incoming_midi(raw, source, now_ms, config)
            },
            Event::Tick => self.do_tick(now_ms, config),
        }
    }

    /// Process a single input event. Returns all MIDI output, display events,
    /// and flags. System actions (preset switch, tap tempo) are handled internally.
    pub fn process<const A: usize>(
        &mut self,
        event: Event,
        now_ms: u32,
        config: &Config<B, E, A>,
    ) -> (r: Output)
        requires
            old(self)@.valid(B as nat, E as nat),
            processable(old(self)@, event, now_ms, *config),
        ensures
            final(self)@.valid(B as nat, E as nat),
            final(self)@ == settled(old(self)@, event, now_ms, *config).ctrl,
            r@ == event_output(old(self)@, event, now_ms, *config),
    {
        let ghost c0 = self@;
        let mut draft = self.process_event(event, now_ms, config);

        // Handle system actions produced by event processing
        self.handle_system_actions(&mut draft, now_ms, config);
        assert(draft.stage(self@) == settled(c0, event, now_ms, *config));
        proof {
            law_output(c0, event, now_ms, *config);
        }

        // Indicator LEDs
        let mut result = draft.out;
        if result.midi.as_slice().len() > 0 {
            // Green flash: MIDI output generated
            result.mon_led = Some(Rgb::new(0, 255, 0));
        } else if matches!(event, Event::Midi { .. }) {
            // Blue flash: incoming MIDI processed (even if no output)
            result.mon_led = Some(Rgb::new(0, 0, 255));
        }
        result
    }
}

// --- Sound configurations ---

/// Whether every message that the actions of a list can send has a channel.
fn all_have_channels(actions: &[Action]) -> (r: bool)
    ensures
        r == have_channels(actions@),
{
    let mut i: usize = 0;
    while i < actions.len()
        invariant
            i <= actions@.len(),
            forall|k: int| 0 <= k < i ==> has_channel(#[trigger] actions@[k]),
        decreases actions@.len() - i,
    {
        let ok: bool = match &actions[i] {
            Action::Cc { channel, .. } => *channel >= 1,
            Action::ProgramChange { channel, .. } => *channel >= 1,
            Action::NoteOn { channel, .. } => *channel >= 1,
            Action::NoteOff { channel, .. } => *channel >= 1,
            Action::CcCycle { channel, .. } => *channel >= 1,
            _ => true,
        };
        assert(ok == has_channel(actions@[i as int]));
        if !ok {
            return false;
        }
        i += 1;
    }
    true
}

/// Whether every message that a preset can send has a channel.
fn is_sound_preset<const B: usize, const E: usize, const A: usize>(
    preset: &Preset<B, E, A>,
) -> (r: bool)
    ensures
        r == sound_preset(*preset),
{
    let buttons = preset.buttons.as_slice();
    let mut i: usize = 0;
    while i < buttons.len()
        invariant
            i <= buttons@.len(),
            buttons@ == preset.buttons@,
            forall|k: int|
                0 <= k < i ==> {
                    &&& have_channels((#[trigger] buttons@[k]).on_press@)
                    &&& have_channels(buttons@[k].on_release@)
                    &&& have_channels(buttons@[k].on_long_press@)
                },
        decreases buttons@.len() - i,
    {
        let btn = &buttons[i];
        assert(*btn == preset.buttons@[i as int]);
        if !all_have_channels(btn.on_press.as_slice()) || !all_have_channels(
            btn.on_release.as_slice(),
        ) || !all_have_channels(btn.on_long_press.as_slice()) {
            return false;
        }
        i += 1;
    }
    let encoders = preset.encoders.as_slice();
    let mut j: usize = 0;
    while j < encoders.len()
        invariant
            j <= encoders@.len(),
            encoders@ == preset.encoders@,
            forall|k: int| 0 <= k < j ==> encoder_sendable((#[trigger] encoders@[k]).action),
        decreases encoders@.len() - j,
    {
        assert(encoders@[j as int] == preset.encoders@[j as int]);
        let ok: bool = match &encoders[j].action {
            EncoderAction::Cc { channel, .. } => *channel >= 1,
            EncoderAction::CcRelative { channel, .. } => *channel >= 1,
            EncoderAction::PresetScroll => true,
        };
        if !ok {
            return false;
        }
        j += 1;
    }
    all_have_channels(preset.on_enter.as_slice()) && all_have_channels(preset.on_exit.as_slice())
}

/// Whether the analog inputs of a preset can be converted, each with its calibration.
fn is_calibrated<const B: usize, const E: usize, const A: usize>(
    preset: &Preset<B, E, A>,
    global: &GlobalConfig,
) -> (r: bool)
    ensures
        r == forall|i: int|
            0 <= i < preset.analog@.len() ==> (calibration(*global, i) matches Some((min, max))
                ==> analog_convertible(#[trigger] preset.analog@[i], min, max)),
{
    let analog = preset.analog.as_slice();
    let mut i: usize = 0;
    while i < analog.len()
        invariant
            i <= analog@.len(),
            analog@ == preset.analog@,
            forall|k: int|
                0 <= k < i ==> (calibration(*global, k) matches Some((min, max))
                    ==> analog_convertible(#[trigger] analog@[k], min, max)),
        decreases analog@.len() - i,
    {
        let cfg = &analog[i];
        assert(*cfg == preset.analog@[i as int]);
        let ok: bool = if i == 0 {
            cfg.channel >= 1 && cfg.min <= cfg.max && global.exp1_min < global.exp1_max
        } else if i == 1 {
            cfg.channel >= 1 && cfg.min <= cfg.max && global.exp2_min < global.exp2_max
        } else {
            true
        };
        if !ok {
            return false;
        }
        i += 1;
    }
    true
}

/// Whether every event can be processed with a configuration: every message that it
/// can send has a channel, and every analog input that it reads has a range and a
/// calibration that are not reversed. Ask this of a configuration that comes from
/// outside before the first event.
pub fn is_sound<const B: usize, const E: usize, const A: usize>(config: &Config<B, E, A>) -> (r:
    bool)
    ensures
        r == sound(*config),
{
    let presets = config.presets.as_slice();
    let mut i: usize = 0;
    while i < presets.len()
        invariant
            i <= presets@.len(),
            presets@ == config.presets@,
            forall|p: int| 0 <= p < i ==> sound_preset(#[trigger] presets@[p]),
            forall|p: int, k: int|
                #![trigger presets@[p].analog@[k]]
                0 <= p < i && 0 <= k < presets@[p].analog@.len() ==> (calibration(
                    config.global,
                    k,
                ) matches Some((min, max)) ==> analog_convertible(
                    presets@[p].analog@[k],
                    min,
                    max,
                )),
        decreases presets@.len() - i,
    {
        assert(presets@[i as int] == config.presets@[i as int]);
        if !is_sound_preset(&presets[i]) {
            return false;
        }
        if !is_calibrated(&presets[i], &config.global) {
            return false;
        }
        i += 1;
    }
    true
}

} // verus!
