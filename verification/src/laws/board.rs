//! Laws of the whole board: what an event of a button, an encoder, a pedal or a MIDI
//! port leads to.

use vstd::prelude::*;

use crate::action::{analog_convertible, analog_value, EncoderDirection};
use crate::bounded::clip;
use crate::config::{
    label_text, Action, ButtonConfig, Config, EncoderAction, GlobalConfig, Preset, MAX_PRESETS,
};
use crate::controller::model::{
    event_output, event_stage, has_channel, have_channels, hint, law_named, law_next_and_prev, law_thru_and_rings,
    midi_reaction, midi_triggered, mode_color, moved, named, settled, sound, sound_preset, thru, transition_steps,
    ControllerModel, Stage,
};
use crate::controller::Event;
use crate::encoder_accel::{detent_steps, law_steps_in_range};
use crate::engine::{
    button_output, reactive, state_after_button, triggered, ActionStep, ButtonEvent, DisplayEvent,
    SystemAction,
};
use crate::laws::midi::{is_message, law_analog_bytes, law_encoder_bytes, law_encoder_goes_its_way};
use crate::laws::presets::{law_lists_in_order, law_one_action};
use crate::long_press::Edge;
use crate::routing::{MidiOut, MidiPort};
use crate::state::StateModel;
use crate::tap_tempo::{tap_result, taps_after};

verus! {

// --- What a controller knows ---

/// The state that a controller works on is the one of its active preset, with the
/// buttons as they are now; to apply a state makes it that one and changes nothing else.
pub proof fn law_working(ctrl: ControllerModel, state: StateModel, b: nat, e: nat, j: int)
    requires
        ctrl.valid(b, e),
        0 <= j < ctrl.store.states.len(),
    ensures
        ctrl.working().button_active == ctrl.buttons,
        ctrl.working().cycle_index == ctrl.store.states[ctrl.active_preset as int].cycle_index,
        ctrl.working().encoder_values
            == ctrl.store.states[ctrl.active_preset as int].encoder_values,
        ({
            let after = ctrl.applied(state);
            &&& after.working() == state
            &&& after.buttons == state.button_active
            &&& after.active_preset == ctrl.active_preset
            &&& after.taps == ctrl.taps
            &&& after.accel == ctrl.accel
            &&& after.long_press == ctrl.long_press
            &&& j != ctrl.active_preset ==> after.store.states[j] == ctrl.store.states[j]
        }),
{
    assert(ctrl.applied(state).working() =~= state);
}

/// A controller that starts, or that has just moved to another preset, has the buttons
/// of its preset as they were left, holds no button down, swallows the release of one
/// that still is, and knows of no turn of an encoder; a move keeps the taps.
pub proof fn law_fresh_start(ctrl: ControllerModel, new_idx: u8, b: nat, e: nat, i: int, j: int)
    requires
        ctrl.valid(b, e),
        new_idx < ctrl.store.states.len(),
        0 <= i < b,
        0 <= j < e,
    ensures
        ({
            let began = ControllerModel::started(ctrl.store, b, e);
            &&& began.store == ctrl.store
            &&& began.active_preset == ctrl.store.active
            &&& began.buttons == ctrl.store.states[ctrl.store.active as int].button_active
            &&& began.taps.len() == 0
            &&& began.long_press.len() == b && began.accel.len() == e
            &&& !began.long_press[i].active && began.long_press[i].fired
            &&& began.accel[j] is None
        }),
        ({
            let after = moved(ctrl, new_idx);
            &&& after.active_preset == new_idx
            &&& after.taps == ctrl.taps
            &&& after.long_press.len() == b && after.accel.len() == e
            &&& !after.long_press[i].active && after.long_press[i].fired
            &&& after.accel[j] is None
            &&& new_idx != ctrl.active_preset ==> after.working()
                == ctrl.store.states[new_idx as int]
            &&& new_idx == ctrl.active_preset ==> after.working() == ctrl.working()
            &&& after.store.states[ctrl.active_preset as int] == ctrl.working()
        }),
{
    let after = moved(ctrl, new_idx);
    assert(after.working() =~= after.store.states[new_idx as int]);
}

/// An encoder that is set stands at the value it was set to. All other encoders, the
/// buttons and the other presets stay as they are, and one that is not there cannot be
/// set.
pub proof fn law_encoder_set(
    ctrl: ControllerModel,
    index: int,
    value: u8,
    b: nat,
    e: nat,
    j: int,
    p: int,
)
    requires
        ctrl.valid(b, e),
        0 <= index,
        0 <= j < e,
        0 <= p < ctrl.store.states.len(),
    ensures
        ({
            let after = ctrl.with_encoder(index, value);
            &&& after.working().encoder_values[j] == if j == index {
                value
            } else {
                ctrl.working().encoder_values[j]
            }
            &&& after.working().button_active == ctrl.working().button_active
            &&& after.working().cycle_index == ctrl.working().cycle_index
            &&& p != ctrl.active_preset ==> after.store.states[p] == ctrl.store.states[p]
            &&& after.active_preset == ctrl.active_preset
            &&& after.accel == ctrl.accel && after.long_press == ctrl.long_press && after.taps
                == ctrl.taps
            &&& index >= e ==> after == ctrl
        }),
{
}

/// A button counts as held exactly where some detector has seen its press and not its
/// release.
pub proof fn law_held(ctrl: ControllerModel, i: int)
    requires
        0 <= i < ctrl.long_press.len(),
    ensures
        ctrl.long_press[i].active ==> ctrl.held(),
        !ctrl.held() ==> !ctrl.long_press[i].active,
        ctrl.long_press.len() == 1 ==> ctrl.held() == ctrl.long_press[0].active,
{
}

// --- Encoders ---

/// An absolute encoder that is turned clockwise goes up and one that is turned the
/// other way goes down, by as many steps as the detent has, up to its maximum and down
/// to its minimum, and sends where it stands. No other encoder and no button moves.
pub proof fn law_turn_moves_the_value<const B: usize, const E: usize, const A: usize>(
    ctrl: ControllerModel,
    index: u8,
    clockwise: bool,
    now_ms: u32,
    config: Config<B, E, A>,
    j: int,
)
    requires
        ctrl.valid(B as nat, E as nat),
        ctrl.active_preset < config.presets@.len(),
        index < E,
        index < config.presets@[ctrl.active_preset as int].encoders@.len(),
        config.presets@[ctrl.active_preset as int].encoders@[index as int].action is Cc,
        0 <= j < E,
    ensures
        ({
            let event = Event::EncoderTurn { index, clockwise };
            let after = settled(ctrl, event, now_ms, config);
            let from = ctrl.working().encoder_values[index as int];
            let to = after.ctrl.working().encoder_values[index as int];
            let steps = detent_steps(ctrl.accel[index as int], now_ms);
            let action = config.presets@[ctrl.active_preset as int].encoders@[index as int].action;
            &&& action matches EncoderAction::Cc { cc, channel, min, max } ==> {
                &&& clockwise && from < max ==> to > from
                &&& !clockwise && from > min ==> to < from
                &&& clockwise ==> to == from + steps && to <= max || to == max && from + steps
                    > max
                &&& !clockwise ==> to == from - steps && to >= min || to == min && from - steps
                    < min
                &&& after.out.midi.len() == 1
                &&& 1 <= channel <= 16 ==> (after.out.midi[0] matches ActionStep::Send(m)
                    && is_message(m, 0xB0, channel, (cc % 256) as u8, to, 3))
            }
            &&& j != index ==> after.ctrl.working().encoder_values[j]
                == ctrl.working().encoder_values[j]
            &&& j != index ==> after.ctrl.accel[j] == ctrl.accel[j]
            &&& after.ctrl.accel[index as int] == Some(now_ms)
            &&& after.ctrl.buttons == ctrl.buttons
            &&& after.ctrl.active_preset == ctrl.active_preset
            &&& after.out.display.len() == 1
            &&& after.out.display[0] matches DisplayEvent::EncoderOverlay { value, .. } && value
                == to
            &&& after.out.leds_changed && !after.out.preset_changed
        }),
{
    let action = config.presets@[ctrl.active_preset as int].encoders@[index as int].action;
    let from = ctrl.working().encoder_values[index as int];
    let steps = detent_steps(ctrl.accel[index as int], now_ms);
    law_steps_in_range(ctrl.accel[index as int], now_ms);
    law_encoder_goes_its_way(action, steps as nat, from);
    let event = Event::EncoderTurn { index, clockwise };
    let stage = event_stage(ctrl, event, now_ms, config);
    assert(stage.pending.len() == 0);
    let to = stage.ctrl.working().encoder_values[index as int];
    let direction = if clockwise {
        EncoderDirection::Clockwise
    } else {
        EncoderDirection::CounterClockwise
    };
    law_encoder_bytes(action, direction, to);
}

/// A relative encoder sends its increment when it is turned clockwise and its
/// decrement when it is turned the other way, and remembers nothing but when.
pub proof fn law_turn_sends_its_step<const B: usize, const E: usize, const A: usize>(
    ctrl: ControllerModel,
    index: u8,
    clockwise: bool,
    now_ms: u32,
    config: Config<B, E, A>,
)
    requires
        ctrl.valid(B as nat, E as nat),
        ctrl.active_preset < config.presets@.len(),
        index < E,
        index < config.presets@[ctrl.active_preset as int].encoders@.len(),
        config.presets@[ctrl.active_preset as int].encoders@[index as int].action is CcRelative,
    ensures
        ({
            let event = Event::EncoderTurn { index, clockwise };
            let after = settled(ctrl, event, now_ms, config);
            let action = config.presets@[ctrl.active_preset as int].encoders@[index as int].action;
            &&& after.out.midi.len() == 1
            &&& action matches EncoderAction::CcRelative { cc, channel, increment, decrement }
                ==> 1 <= channel <= 16 ==> (after.out.midi[0] matches ActionStep::Send(m)
                && is_message(
                m,
                0xB0,
                channel,
                cc,
                if clockwise {
                    increment
                } else {
                    decrement
                },
                3,
            ))
            &&& after.ctrl.working() == ctrl.working()
            &&& after.ctrl.active_preset == ctrl.active_preset
            &&& after.ctrl.accel == ctrl.accel.update(index as int, Some(now_ms))
        }),
{
    let action = config.presets@[ctrl.active_preset as int].encoders@[index as int].action;
    let event = Event::EncoderTurn { index, clockwise };
    let stage = event_stage(ctrl, event, now_ms, config);
    assert(stage.pending.len() == 0);
    let to = stage.ctrl.working().encoder_values[index as int];
    let direction = if clockwise {
        EncoderDirection::Clockwise
    } else {
        EncoderDirection::CounterClockwise
    };
    law_encoder_bytes(action, direction, to);
    assert(stage.ctrl.working() =~= ctrl.working()) by {
        assert(stage.ctrl.working().encoder_values =~= ctrl.working().encoder_values);
    }
}

/// An encoder that scrolls leads to the next preset when it is turned clockwise and to
/// the one before when it is turned the other way, around the end either way.
pub proof fn law_turn_scrolls<const B: usize, const E: usize, const A: usize>(
    ctrl: ControllerModel,
    index: u8,
    clockwise: bool,
    now_ms: u32,
    config: Config<B, E, A>,
)
    requires
        ctrl.valid(B as nat, E as nat),
        config.presets@.len() <= MAX_PRESETS,
        ctrl.active_preset < named(config.presets@),
        index < E,
        index < config.presets@[ctrl.active_preset as int].encoders@.len(),
        config.presets@[ctrl.active_preset as int].encoders@[index as int].action is PresetScroll,
    ensures
        ({
            let event = Event::EncoderTurn { index, clockwise };
            let after = settled(ctrl, event, now_ms, config);
            let n = named(config.presets@);
            let p = ctrl.active_preset;
            &&& after.ctrl.active_preset == if clockwise {
                if p + 1 < n {
                    p + 1
                } else {
                    0
                }
            } else if p > 0 {
                p - 1
            } else {
                n - 1
            }
            &&& after.out.preset_changed
        }),
{
    law_named(config.presets@);
    law_next_and_prev(ctrl.active_preset, named(config.presets@));
    let event = Event::EncoderTurn { index, clockwise };
    let stage = event_stage(ctrl, event, now_ms, config);
    let asked = if clockwise {
        SystemAction::PresetNext
    } else {
        SystemAction::PresetPrev
    };
    assert(stage.pending =~= seq![asked]);
    let start = Stage { pending: Seq::empty(), ..stage };
    lemma_one_system(start, asked, now_ms, config.presets@);
}

proof fn lemma_one_system<const B: usize, const E: usize, const A: usize>(
    stage: Stage,
    action: SystemAction,
    now_ms: u32,
    presets: Seq<Preset<B, E, A>>,
)
    ensures
        stage.systems(seq![action], now_ms, presets) == stage.system(action, now_ms, presets),
{
    assert(seq![action].drop_last() =~= Seq::<SystemAction>::empty());
    assert(seq![action].last() == action);
    reveal_with_fuel(Stage::systems, 2);
}

// --- Buttons ---

/// What an event of a button does on the way through: the engine works on the state of
/// the active preset, and its steps, display events and requests come behind those that
/// are there.
pub proof fn law_button_on_stage(
    stage: Stage,
    buttons: Seq<ButtonConfig>,
    idx: int,
    event: ButtonEvent,
    b: nat,
    e: nat,
)
    requires
        stage.ctrl.valid(b, e),
    ensures
        ({
            let after = stage.button(buttons, idx, event);
            let done = button_output(buttons, stage.ctrl.working(), idx, event);
            &&& after.ctrl.working() == state_after_button(
                buttons,
                stage.ctrl.working(),
                idx,
                event,
            )
            &&& after.out.midi == clip(stage.out.midi + done.midi, 32)
            &&& after.out.display == clip(stage.out.display + done.display, 2)
            &&& after.pending == clip(stage.pending + done.system, 2)
            &&& after.out.leds_changed == (stage.out.leds_changed || done.led_dirty)
            &&& after.ctrl.long_press == stage.ctrl.long_press
            &&& after.ctrl.accel == stage.ctrl.accel
            &&& after.ctrl.taps == stage.ctrl.taps
            &&& after.ctrl.active_preset == stage.ctrl.active_preset
        }),
{
    law_working(
        stage.ctrl,
        state_after_button(buttons, stage.ctrl.working(), idx, event),
        b,
        e,
        stage.ctrl.store.active as int,
    );
}

/// A button without long press actions is pressed when its edge comes and released when
/// it goes: the active preset's state and the steps to emit are those of the engine, for
/// this button.
pub proof fn law_plain_edge<const B: usize, const E: usize, const A: usize>(
    ctrl: ControllerModel,
    index: u8,
    edge: Edge,
    now_ms: u32,
    config: Config<B, E, A>,
)
    requires
        ctrl.valid(B as nat, E as nat),
        ctrl.active_preset < config.presets@.len(),
        index < B,
        index < config.presets@[ctrl.active_preset as int].buttons@.len(),
        config.presets@[ctrl.active_preset as int].buttons@[index as int].on_long_press@.len()
            == 0,
    ensures
        ({
            let buttons = config.presets@[ctrl.active_preset as int].buttons@;
            let stage = event_stage(ctrl, Event::ButtonEdge { index, edge }, now_ms, config);
            let event = if edge is Activate {
                ButtonEvent::Press
            } else {
                ButtonEvent::Release
            };
            let done = button_output(buttons, ctrl.working(), index as int, event);
            &&& stage.ctrl.working() == state_after_button(
                buttons,
                ctrl.working(),
                index as int,
                event,
            )
            &&& stage.out.midi == done.midi
            &&& stage.pending == done.system
            &&& stage.out.leds_changed == done.led_dirty
            &&& stage.ctrl.long_press == ctrl.long_press
        }),
{
    let buttons = config.presets@[ctrl.active_preset as int].buttons@;
    let event = if edge is Activate {
        ButtonEvent::Press
    } else {
        ButtonEvent::Release
    };
    let done = button_output(buttons, ctrl.working(), index as int, event);
    law_button_on_stage(
        Stage::start(ctrl),
        buttons,
        index as int,
        event,
        B as nat,
        E as nat,
    );
    assert(Seq::<ActionStep>::empty() + done.midi =~= done.midi);
    assert(Seq::<SystemAction>::empty() + done.system =~= done.system);
}

/// The edges of a button with long press actions are told to its own detector; a
/// momentary one is lit exactly while it is held; and when it is pressed, and only then,
/// the step between presets that its long press would take is announced.
pub proof fn law_noted_edge(
    stage: Stage,
    buttons: Seq<ButtonConfig>,
    idx: int,
    edge: Edge,
    now_ms: u32,
    j: int,
)
    requires
        0 <= idx < buttons.len(),
        idx < stage.ctrl.long_press.len(),
        idx < stage.ctrl.buttons.len(),
        0 <= j,
        j != idx,
    ensures
        ({
            let after = stage.noted(buttons, idx, edge, now_ms);
            let momentary = buttons[idx].mode is Momentary;
            &&& after.ctrl.long_press[idx].active == (edge is Activate)
            &&& edge is Activate ==> after.ctrl.long_press[idx].press_time == now_ms
                && !after.ctrl.long_press[idx].fired
            &&& j < stage.ctrl.long_press.len() ==> after.ctrl.long_press[j]
                == stage.ctrl.long_press[j]
            &&& momentary ==> after.ctrl.buttons[idx] == (edge is Activate)
            &&& !momentary ==> after.ctrl.buttons == stage.ctrl.buttons
            &&& j < stage.ctrl.buttons.len() ==> after.ctrl.buttons[j] == stage.ctrl.buttons[j]
            &&& after.out.leds_changed == (stage.out.leds_changed || momentary)
            &&& after.out.midi == stage.out.midi
            &&& after.pending == stage.pending
            &&& after.out.display == match hint(buttons[idx].on_long_press@) {
                Some(action) if edge is Activate => clip(
                    stage.out.display.push(DisplayEvent::LongPressHint { action }),
                    2,
                ),
                _ => stage.out.display,
            }
        }),
{
}

/// A long press is announced as the first step between presets among its actions.
pub proof fn law_hint(a: Seq<Action>, action: Action, b: Seq<Action>)
    ensures
        hint(Seq::empty()) is None,
        hint(seq![action]) == match action {
            Action::PresetNext => Some(SystemAction::PresetNext),
            Action::PresetPrev => Some(SystemAction::PresetPrev),
            _ => None,
        },
        hint(a + b) == if hint(a) is Some {
            hint(a)
        } else {
            hint(b)
        },
    decreases b.len(),
{
    assert(seq![action].drop_last() =~= Seq::<Action>::empty());
    reveal_with_fuel(hint, 2);
    if b.len() == 0 {
        assert(a + b =~= a);
    } else {
        law_hint(a, action, b.drop_last());
        assert((a + b).drop_last() =~= a + b.drop_last());
        assert((a + b).last() == b.last());
    }
}

/// A button with long press actions that is let go before its long press takes back the
/// announcement and does what a press does, and a release behind it where it is
/// momentary or has something to do on a release.
pub proof fn law_short_press(
    stage: Stage,
    buttons: Seq<ButtonConfig>,
    idx: int,
    now_ms: u32,
    b: nat,
    e: nat,
)
    requires
        stage.ctrl.valid(b, e),
        0 <= idx < buttons.len(),
        idx < b,
        buttons[idx].on_long_press@.len() > 0,
        !stage.ctrl.long_press[idx].fired,
        stage.out.midi.len() == 0,
        stage.out.display.len() == 0,
    ensures
        ({
            let noted = stage.noted(buttons, idx, Edge::Deactivate, now_ms).ctrl.working();
            let pressed = state_after_button(buttons, noted, idx, ButtonEvent::Press);
            let released = state_after_button(buttons, pressed, idx, ButtonEvent::Release);
            let sent = button_output(buttons, noted, idx, ButtonEvent::Press).midi;
            let behind = button_output(buttons, pressed, idx, ButtonEvent::Release).midi;
            let after = stage.edge(buttons, idx, Edge::Deactivate, now_ms);
            let both = buttons[idx].mode is Momentary || buttons[idx].on_release@.len() > 0;
            &&& both ==> after.ctrl.working() == released && after.out.midi == sent + behind
            &&& !both ==> after.ctrl.working() == pressed && after.out.midi == sent
            &&& after.out.display == seq![DisplayEvent::LongPressCancel]
        }),
{
    let noted = stage.noted(buttons, idx, Edge::Deactivate, now_ms);
    let shown = noted.showing(DisplayEvent::LongPressCancel);
    law_button_on_stage(shown, buttons, idx, ButtonEvent::Press, b, e);
    let pressed = shown.button(buttons, idx, ButtonEvent::Press);
    let sent = button_output(buttons, noted.ctrl.working(), idx, ButtonEvent::Press);
    assert(shown.out.display =~= seq![DisplayEvent::LongPressCancel]);
    assert(shown.out.midi + sent.midi =~= sent.midi);
    assert(shown.out.display + sent.display =~= shown.out.display);
    let working = pressed.ctrl.working();
    assert(working == state_after_button(
        buttons,
        noted.ctrl.working(),
        idx,
        ButtonEvent::Press,
    ));
    let behind = button_output(buttons, working, idx, ButtonEvent::Release);
    let released = state_after_button(buttons, working, idx, ButtonEvent::Release);
    assert(pressed.ctrl.applied(released).working() =~= released);
    assert(pressed.out.display + behind.display =~= pressed.out.display);
    assert(sent.midi.len() <= 8 && behind.midi.len() <= 8);
}

/// A tick fires the long press of exactly the buttons that have one, are held, have not
/// fired it yet and have been held for as long as their threshold; it neither presses
/// nor releases a button and changes no time.
pub proof fn law_tick_fires(
    stage: Stage,
    buttons: Seq<ButtonConfig>,
    n: nat,
    now_ms: u32,
    j: int,
)
    requires
        n <= stage.ctrl.long_press.len(),
        0 <= j < stage.ctrl.long_press.len(),
    ensures
        ({
            let before = stage.ctrl.long_press[j];
            let after = stage.ticked(buttons, n, now_ms).ctrl.long_press;
            let due = j < buttons.len() && buttons[j].on_long_press@.len() > 0 && before.active
                && now_ms.wrapping_sub(before.press_time) >= before.threshold_ms;
            &&& after.len() == stage.ctrl.long_press.len()
            &&& after[j].active == before.active
            &&& after[j].press_time == before.press_time
            &&& after[j].threshold_ms == before.threshold_ms
            &&& after[j].fired == (before.fired || j < n && due)
        }),
    decreases n,
{
    if n > 0 {
        law_tick_fires(stage, buttons, (n - 1) as nat, now_ms, j);
        law_tick_fires(stage, buttons, (n - 1) as nat, now_ms, n - 1);
    }
}

/// Where only one button is held, a tick runs that button's long press actions if it is
/// due, and otherwise does nothing.
pub proof fn law_tick_of_one(
    stage: Stage,
    buttons: Seq<ButtonConfig>,
    n: nat,
    now_ms: u32,
    held: int,
)
    requires
        n <= stage.ctrl.long_press.len(),
        0 <= held < stage.ctrl.long_press.len(),
        forall|i: int|
            0 <= i < stage.ctrl.long_press.len() && i != held ==> !(
            #[trigger] stage.ctrl.long_press[i]).active,
    ensures
        ({
            let p = stage.ctrl.long_press[held];
            let due = held < buttons.len() && buttons[held].on_long_press@.len() > 0 && p.active
                && !p.fired && now_ms.wrapping_sub(p.press_time) >= p.threshold_ms;
            stage.ticked(buttons, n, now_ms) == if held < n && due {
                stage.polled(held, now_ms).button(buttons, held, ButtonEvent::LongPress)
            } else {
                stage
            }
        }),
    decreases n,
{
    if n > 0 {
        law_tick_of_one(stage, buttons, (n - 1) as nat, now_ms, held);
        law_tick_fires(stage, buttons, (n - 1) as nat, now_ms, n - 1);
        if n - 1 != held {
            assert(!stage.ctrl.long_press[n - 1].active);
        }
    }
}

// --- Pedals ---

/// The first pedal is read with the first calibration and the second with the second;
/// each sends its value, one CC of its number on its channel. No other pedal does
/// anything.
pub proof fn law_pedal_event<const B: usize, const E: usize, const A: usize>(
    ctrl: ControllerModel,
    index: u8,
    raw: u16,
    now_ms: u32,
    config: Config<B, E, A>,
    min: u16,
    max: u16,
)
    requires
        ctrl.active_preset < config.presets@.len(),
        index == 0 ==> min == config.global.exp1_min && max == config.global.exp1_max,
        index == 1 ==> min == config.global.exp2_min && max == config.global.exp2_max,
        index < config.presets@[ctrl.active_preset as int].analog@.len() ==> analog_convertible(
            config.presets@[ctrl.active_preset as int].analog@[index as int],
            min,
            max,
        ) && config.presets@[ctrl.active_preset as int].analog@[index as int].channel <= 16,
    ensures
        ({
            let pedals = config.presets@[ctrl.active_preset as int].analog@;
            let after = settled(ctrl, Event::Analog { index, raw }, now_ms, config);
            &&& after.ctrl == ctrl
            &&& index < 2 && index < pedals.len() ==> {
                let cfg = pedals[index as int];
                let value = analog_value(cfg, raw, min, max) as u8;
                &&& after.out.midi.len() == 1
                &&& after.out.midi[0] matches ActionStep::Send(m) && is_message(
                    m,
                    0xB0,
                    cfg.channel,
                    cfg.cc,
                    value,
                    3,
                )
                &&& after.out.display.len() == 1
                &&& after.out.display[0] matches DisplayEvent::AnalogOverlay { value: shown, .. }
                    && shown == value
            }
            &&& index >= 2 || index >= pedals.len() ==> after.out.midi.len() == 0
                && after.out.display.len() == 0
        }),
{
    let pedals = config.presets@[ctrl.active_preset as int].analog@;
    let stage = event_stage(ctrl, Event::Analog { index, raw }, now_ms, config);
    assert(stage.pending.len() == 0);
    if index < pedals.len() {
        law_analog_bytes(pedals[index as int], raw, min, max);
    }
}

// --- Presets ---

/// The indicator has eight colors: red, green, blue, the mixture of each two of them,
/// orange and violet, and the ninth preset has the first one again.
pub proof fn law_mode_color(index: u8)
    ensures
        index % 8 < 3 ==> mode_color(index).r == if index % 8 == 0 {
            255u8
        } else {
            0u8
        } && mode_color(index).g == if index % 8 == 1 {
            255u8
        } else {
            0u8
        } && mode_color(index).b == if index % 8 == 2 {
            255u8
        } else {
            0u8
        },
        3 <= index % 8 < 6 ==> mode_color(index).r == if index % 8 == 5 {
            0u8
        } else {
            255u8
        } && mode_color(index).g == if index % 8 == 4 {
            0u8
        } else {
            255u8
        } && mode_color(index).b == if index % 8 == 3 {
            0u8
        } else {
            255u8
        },
        index % 8 == 6 ==> mode_color(index).r == 255 && mode_color(index).g == 128 && mode_color(
            index,
        ).b == 0,
        index % 8 == 7 ==> mode_color(index).r == 128 && mode_color(index).g == 0 && mode_color(
            index,
        ).b == 255,
        index <= 247 ==> mode_color((index + 8) as u8) == mode_color(index),
{
}

/// The presets with a name are counted one by one.
pub proof fn law_named_counts<const B: usize, const E: usize, const A: usize>(
    a: Seq<Preset<B, E, A>>,
    preset: Preset<B, E, A>,
    b: Seq<Preset<B, E, A>>,
)
    ensures
        named(a + b) == named(a) + named(b),
        named(seq![preset]) == if label_text(preset.name).len() > 0 {
            1nat
        } else {
            0nat
        },
    decreases b.len(),
{
    reveal_with_fuel(named, 2);
    assert(seq![preset].drop_last() =~= Seq::<Preset<B, E, A>>::empty());
    assert(seq![preset].last() == preset);
    if b.len() == 0 {
        assert(a + b =~= a);
    } else {
        law_named_counts(a, preset, b.drop_last());
        assert((a + b).drop_last() =~= a + b.drop_last());
        assert((a + b).last() == b.last());
    }
}

/// Entering or leaving a preset sends the messages and the delays of its actions in
/// order; there are no values to cycle through, and a step between presets is left out.
pub proof fn law_transition(a: Seq<Action>, action: Action, b: Seq<Action>)
    ensures
        transition_steps(a + b) == transition_steps(a) + transition_steps(b),
        match action {
            Action::Delay(ms) => transition_steps(seq![action]) == seq![ActionStep::Delay(ms)],
            Action::CcCycle { .. }
            | Action::PresetNext
            | Action::PresetPrev
            | Action::BankUp
            | Action::BankDown
            | Action::PresetSelect(_)
            | Action::TapTempo
            | Action::SetLed { .. } => transition_steps(seq![action]).len() == 0,
            _ => (crate::action::action_message(action) matches Some(m) && transition_steps(
                seq![action],
            ) == seq![ActionStep::Send(m)]),
        },
{
    law_lists_in_order(a, b, Seq::empty(), 0);
    lemma_no_cycle(a);
    law_one_action(action, Seq::empty(), 0);
    if let Action::Delay(ms) = action {
        assert(transition_steps(seq![action]) =~= seq![ActionStep::Delay(ms)]);
    }
}

proof fn lemma_no_cycle(a: Seq<Action>)
    ensures
        crate::engine::cycle_after(a, 0, 0) == 0,
    decreases a.len(),
{
    if a.len() > 0 {
        lemma_no_cycle(a.drop_last());
        law_lists_in_order(a.drop_last(), seq![a.last()], Seq::empty(), 0);
        law_one_action(a.last(), Seq::empty(), 0);
        assert(a.drop_last() + seq![a.last()] =~= a);
    }
}

/// Requests to the system are met one after the other.
pub proof fn law_systems_in_order<const B: usize, const E: usize, const A: usize>(
    stage: Stage,
    a: Seq<SystemAction>,
    b: Seq<SystemAction>,
    now_ms: u32,
    presets: Seq<Preset<B, E, A>>,
)
    ensures
        stage.systems(a + b, now_ms, presets) == stage.systems(a, now_ms, presets).systems(
            b,
            now_ms,
            presets,
        ),
        stage.systems(Seq::empty(), now_ms, presets) == stage,
    decreases b.len(),
{
    if b.len() == 0 {
        assert(a + b =~= a);
    } else {
        law_systems_in_order(stage, a, b.drop_last(), now_ms, presets);
        assert((a + b).drop_last() =~= a + b.drop_last());
        assert((a + b).last() == b.last());
    }
}

/// What a single request brings: a preset that exists becomes the active one, one that
/// does not is not gone to; a tempo is set and shown; and a tap sets and shows the tempo
/// of the taps, if they have one, and is counted.
pub proof fn law_one_request<const B: usize, const E: usize, const A: usize>(
    stage: Stage,
    action: SystemAction,
    now_ms: u32,
    presets: Seq<Preset<B, E, A>>,
)
    requires
        stage.out.display.len() < 2,
    ensures
        ({
            let after = stage.systems(seq![action], now_ms, presets);
            match action {
                SystemAction::PresetSelect(idx) => if idx < presets.len() {
                    &&& after.ctrl.active_preset == idx
                    &&& after.out.preset_changed
                    &&& after.out.leds_changed
                    &&& after.out.mode_led == Some(mode_color(idx))
                    &&& after.ctrl.taps == stage.ctrl.taps
                } else {
                    after == stage
                },
                SystemAction::PresetNext | SystemAction::PresetPrev => named(presets) == 0
                    ==> after == stage,
                SystemAction::SetBpm(bpm) => {
                    &&& after.ctrl == stage.ctrl
                    &&& after.out.bpm == Some(bpm)
                    &&& after.out.display == stage.out.display.push(
                        DisplayEvent::BpmOverlay { bpm },
                    )
                    &&& after.out.midi == stage.out.midi
                },
                SystemAction::TapTempo => {
                    &&& after.ctrl.taps == taps_after(stage.ctrl.taps, now_ms)
                    &&& after.ctrl.store == stage.ctrl.store
                    &&& after.ctrl.buttons == stage.ctrl.buttons
                    &&& after.ctrl.active_preset == stage.ctrl.active_preset
                    &&& after.out.bpm == tap_result(stage.ctrl.taps, now_ms)
                    &&& after.out.midi == stage.out.midi
                    &&& after.out.display == match tap_result(stage.ctrl.taps, now_ms) {
                        Some(bpm) => stage.out.display.push(DisplayEvent::BpmOverlay { bpm }),
                        None => stage.out.display,
                    }
                },
            }
        }),
{
    lemma_one_system(stage, action, now_ms, presets);
}

// --- Incoming MIDI ---

/// A message from the DIN port goes to USB where that is switched on; one from USB goes
/// to DIN and back to USB, each where that is switched on; and nowhere else.
pub proof fn law_thru_exactly(source: MidiPort, global: GlobalConfig)
    ensures
        ({
            let from_din = source.has(MidiPort { bits: 0x01 });
            let from_usb = source.has(MidiPort { bits: 0x02 });
            let dest = thru(source, global).bits;
            &&& dest <= 3
            &&& dest % 2 == 1 <==> from_usb && global.usb_to_din_thru
            &&& dest >= 2 <==> from_din && global.din_to_usb_thru || from_usb
                && global.usb_to_usb_thru
        }),
{
}

/// The rings react to a complete CC, on its channel, with its number and its value, and
/// to nothing else.
pub proof fn law_ring_reaction(buttons: Seq<ButtonConfig>, raw: Seq<u8>)
    ensures
        raw.len() >= 3 && 0xB0 <= raw[0] <= 0xBF ==> midi_reaction(buttons, raw) == reactive(
            buttons,
            (raw[0] - 0xB0 + 1) as u8,
            raw[1],
            raw[2],
        ),
        raw.len() < 3 || raw[0] < 0xB0 || raw[0] > 0xBF ==> midi_reaction(buttons, raw) is None,
{
    let s = raw[0];
    assert(s & 0xF0 == 0xB0 <==> 0xB0 <= s <= 0xBF) by (bit_vector);
    assert(0xB0 <= s <= 0xBF ==> s & 0x0F == s - 0xB0) by (bit_vector);
}

/// An incoming message is tried on the triggers of the active preset with its bytes, a
/// third one that is missing being 0. Where they ask nothing of the system, the state
/// and the steps after it are what the triggers made of them; a message of fewer than
/// two bytes triggers nothing.
pub proof fn law_incoming<const B: usize, const E: usize, const A: usize>(
    ctrl: ControllerModel,
    data: [u8; 8],
    len: u8,
    source: MidiPort,
    now_ms: u32,
    config: Config<B, E, A>,
)
    requires
        ctrl.valid(B as nat, E as nat),
        ctrl.active_preset < config.presets@.len(),
        len <= 8,
    ensures
        ({
            let preset = config.presets@[ctrl.active_preset as int];
            let after = settled(ctrl, Event::Midi { data, len, source }, now_ms, config);
            let third = if len > 2 {
                data@[2]
            } else {
                0u8
            };
            let t = triggered(
                preset.triggers@,
                preset.buttons@,
                ctrl.working(),
                data@[0],
                data@[1],
                third,
            );
            &&& len < 2 ==> after.ctrl == ctrl && after.out.midi.len() == 0
            &&& len >= 2 && t.system.len() == 0 ==> {
                &&& after.ctrl.working() == t.state
                &&& after.out.midi == clip(t.midi, 32)
                &&& after.out.leds_changed == t.led_dirty
                &&& after.ctrl.active_preset == ctrl.active_preset
                &&& after.ctrl.long_press == ctrl.long_press
                &&& after.ctrl.accel == ctrl.accel
            }
            &&& len >= 2 && t.system.len() > 0 ==> {
                let stage = Stage::start(ctrl.applied(t.state));
                after.ctrl.active_preset == stage.systems(
                    t.system,
                    now_ms,
                    config.presets@,
                ).ctrl.active_preset
            }
        }),
{
    let preset = config.presets@[ctrl.active_preset as int];
    let raw = data@.take(len as int);
    if len >= 2 {
        let t = midi_triggered(ctrl, preset, raw);
        assert(raw[0] == data@[0] && raw[1] == data@[1]);
        assert(Seq::<ActionStep>::empty() + t.midi =~= t.midi);
        assert(ctrl.applied(t.state).working() =~= t.state);
        if preset.triggers@.len() == 0 {
            assert(t.state == ctrl.working());
        } else {
            let seen = crate::controller::model::reacted(
                ctrl,
                raw,
                source,
                config.global,
                preset,
            );
            let after = crate::controller::model::after_triggers(seen, preset, raw);
            lemma_systems_control(
                after,
                Stage::start(ctrl.applied(t.state)),
                t.system,
                now_ms,
                config.presets@,
            );
            lemma_systems_keep_pending(after, t.system, now_ms, config.presets@);
        }
    }
    let stage = event_stage(ctrl, Event::Midi { data, len, source }, now_ms, config);
    assert(stage.pending.len() == 0);
}

/// Where requests lead does not depend on what is already to be emitted.
proof fn lemma_systems_control<const B: usize, const E: usize, const A: usize>(
    a: Stage,
    b: Stage,
    actions: Seq<SystemAction>,
    now_ms: u32,
    presets: Seq<Preset<B, E, A>>,
)
    requires
        a.ctrl == b.ctrl,
    ensures
        a.systems(actions, now_ms, presets).ctrl == b.systems(actions, now_ms, presets).ctrl,
    decreases actions.len(),
{
    if actions.len() > 0 {
        lemma_systems_control(a, b, actions.drop_last(), now_ms, presets);
    }
}

proof fn lemma_systems_keep_pending<const B: usize, const E: usize, const A: usize>(
    stage: Stage,
    actions: Seq<SystemAction>,
    now_ms: u32,
    presets: Seq<Preset<B, E, A>>,
)
    ensures
        stage.systems(actions, now_ms, presets).pending == stage.pending,
    decreases actions.len(),
{
    if actions.len() > 0 {
        lemma_systems_keep_pending(stage, actions.drop_last(), now_ms, presets);
    }
}

/// An incoming message is passed on as it came, byte for byte: to DIN where it came from
/// USB and that is switched on, to USB where it came from DIN or USB and that is switched
/// on, and otherwise not at all. No other event passes anything on.
pub proof fn law_passed_on<const B: usize, const E: usize, const A: usize>(
    ctrl: ControllerModel,
    data: [u8; 8],
    len: u8,
    source: MidiPort,
    now_ms: u32,
    config: Config<B, E, A>,
    i: int,
    other: Event,
)
    requires
        len <= 8,
        0 <= i < 8,
    ensures
        ({
            let from_din = source.has(MidiPort { bits: 0x01 });
            let from_usb = source.has(MidiPort { bits: 0x02 });
            let to_din = from_usb && config.global.usb_to_din_thru;
            let to_usb = from_din && config.global.din_to_usb_thru || from_usb
                && config.global.usb_to_usb_thru;
            let sent = event_output(
                ctrl,
                Event::Midi { data, len, source },
                now_ms,
                config,
            ).midi_out;
            &&& len > 0 && (to_din || to_usb) ==> {
                &&& sent.len() == 1
                &&& sent[0].len == len
                &&& sent[0].data@[i] == if i < len {
                    data@[i]
                } else {
                    0u8
                }
                &&& sent[0].dest.bits <= 3
                &&& sent[0].dest.bits % 2 == 1 <==> to_din
                &&& sent[0].dest.bits >= 2 <==> to_usb
            }
            &&& len == 0 || !to_din && !to_usb ==> sent.len() == 0
        }),
        !(other is Midi) ==> event_output(ctrl, other, now_ms, config).midi_out.len() == 0,
{
    law_thru_and_rings(ctrl, Event::Midi { data, len, source }, now_ms, config);
    law_thru_and_rings(ctrl, other, now_ms, config);
    let raw = data@.take(len as int);
    let out = MidiOut::routed(raw, thru(source, config.global));
    if i < len {
        assert(raw[i] == data@[i]);
    }
    assert(out.data@[i] == crate::routing::byte_or_zero(raw, i)) by {
        assert(i == 0 || i == 1 || i == 2 || i == 3 || i == 4 || i == 5 || i == 6 || i == 7);
    }
}

/// An incoming CC of three bytes is shown on the rings of the active preset, by its
/// channel, number and value; no other event is, and nothing is without a preset.
pub proof fn law_shown_on_rings<const B: usize, const E: usize, const A: usize>(
    ctrl: ControllerModel,
    data: [u8; 8],
    len: u8,
    source: MidiPort,
    now_ms: u32,
    config: Config<B, E, A>,
    other: Event,
)
    requires
        len <= 8,
    ensures
        ({
            let shown = event_output(
                ctrl,
                Event::Midi { data, len, source },
                now_ms,
                config,
            ).reactive_led;
            if ctrl.active_preset < config.presets@.len() && len >= 3 && 0xB0 <= data@[0] <= 0xBF {
                shown == reactive(
                    config.presets@[ctrl.active_preset as int].buttons@,
                    (data@[0] - 0xB0 + 1) as u8,
                    data@[1],
                    data@[2],
                )
            } else {
                shown is None
            }
        }),
        !(other is Midi) ==> event_output(ctrl, other, now_ms, config).reactive_led is None,
{
    law_thru_and_rings(ctrl, Event::Midi { data, len, source }, now_ms, config);
    law_thru_and_rings(ctrl, other, now_ms, config);
    let raw = data@.take(len as int);
    if len >= 3 {
        assert(raw[0] == data@[0] && raw[1] == data@[1] && raw[2] == data@[2]);
    }
    if ctrl.active_preset < config.presets@.len() {
        law_ring_reaction(config.presets@[ctrl.active_preset as int].buttons@, raw);
    }
}

/// A press that asks for a preset leads there, and one that asks for two leads to the
/// second, by way of the first; a tap behind a preset is counted.
#[verifier::spinoff_prover]
pub proof fn law_press_leads_on<const B: usize, const E: usize, const A: usize>(
    ctrl: ControllerModel,
    index: u8,
    edge: Edge,
    now_ms: u32,
    config: Config<B, E, A>,
    first: u8,
    second: u8,
)
    requires
        ctrl.valid(B as nat, E as nat),
        ctrl.active_preset < config.presets@.len(),
        index < B,
        index < config.presets@[ctrl.active_preset as int].buttons@.len(),
        config.presets@[ctrl.active_preset as int].buttons@[index as int].on_long_press@.len()
            == 0,
        first < config.presets@.len(),
        second < config.presets@.len(),
    ensures
        ({
            let buttons = config.presets@[ctrl.active_preset as int].buttons@;
            let event = if edge is Activate {
                ButtonEvent::Press
            } else {
                ButtonEvent::Release
            };
            let asked = button_output(buttons, ctrl.working(), index as int, event).system;
            let after = settled(ctrl, Event::ButtonEdge { index, edge }, now_ms, config);
            &&& asked == seq![SystemAction::PresetSelect(first)] ==> after.ctrl.active_preset
                == first && after.out.preset_changed
            &&& asked == seq![
                SystemAction::PresetSelect(first),
                SystemAction::PresetSelect(second),
            ] ==> after.ctrl.active_preset == second && after.out.preset_changed
            &&& asked == seq![SystemAction::PresetSelect(first), SystemAction::TapTempo]
                ==> after.ctrl.active_preset == first && after.ctrl.taps == taps_after(
                ctrl.taps,
                now_ms,
            )
            &&& asked.len() == 0 ==> after.ctrl.active_preset == ctrl.active_preset
                && !after.out.preset_changed
        }),
{
    law_plain_edge(ctrl, index, edge, now_ms, config);
    let stage = event_stage(ctrl, Event::ButtonEdge { index, edge }, now_ms, config);
    let start = Stage { pending: Seq::empty(), ..stage };
    let presets = config.presets@;
    let one = SystemAction::PresetSelect(first);
    let two = SystemAction::PresetSelect(second);
    lemma_one_system(start, one, now_ms, presets);
    let there = start.system(one, now_ms, presets);
    lemma_one_system(there, two, now_ms, presets);
    lemma_one_system(there, SystemAction::TapTempo, now_ms, presets);
    law_systems_in_order(start, seq![one], seq![two], now_ms, presets);
    law_systems_in_order(start, seq![one], seq![SystemAction::TapTempo], now_ms, presets);
    assert(seq![one] + seq![two] =~= seq![one, two]);
    assert(seq![one] + seq![SystemAction::TapTempo] =~= seq![one, SystemAction::TapTempo]);
    assert(there.ctrl == moved(start.ctrl, first));
    assert(there.system(two, now_ms, presets).ctrl == moved(there.ctrl, second));
    let after = settled(ctrl, Event::ButtonEdge { index, edge }, now_ms, config);
    assert(after == start.systems(stage.pending, now_ms, presets));
}

// --- Sound configurations ---

/// Only an action that goes out on a channel needs one, and it needs one from 1 on.
pub proof fn law_needs_a_channel(action: Action)
    ensures
        match action {
            Action::Cc { channel, .. }
            | Action::ProgramChange { channel, .. }
            | Action::NoteOn { channel, .. }
            | Action::NoteOff { channel, .. }
            | Action::CcCycle { channel, .. } => has_channel(action) == (channel != 0),
            _ => has_channel(action),
        },
{
}

/// Nothing but a missing channel or a reversed range makes a configuration unsound.
pub proof fn law_sound_if_all_is_there<const B: usize, const E: usize, const A: usize>(
    config: Config<B, E, A>,
)
    requires
        forall|p: int, i: int, k: int|
            #![trigger config.presets@[p].buttons@[i].on_press@[k]]
            0 <= p < config.presets@.len() && 0 <= i < config.presets@[p].buttons@.len() && 0 <= k
                < config.presets@[p].buttons@[i].on_press@.len() ==> has_channel(
                config.presets@[p].buttons@[i].on_press@[k],
            ),
        forall|p: int, i: int, k: int|
            #![trigger config.presets@[p].buttons@[i].on_release@[k]]
            0 <= p < config.presets@.len() && 0 <= i < config.presets@[p].buttons@.len() && 0 <= k
                < config.presets@[p].buttons@[i].on_release@.len() ==> has_channel(
                config.presets@[p].buttons@[i].on_release@[k],
            ),
        forall|p: int, i: int, k: int|
            #![trigger config.presets@[p].buttons@[i].on_long_press@[k]]
            0 <= p < config.presets@.len() && 0 <= i < config.presets@[p].buttons@.len() && 0 <= k
                < config.presets@[p].buttons@[i].on_long_press@.len() ==> has_channel(
                config.presets@[p].buttons@[i].on_long_press@[k],
            ),
        forall|p: int, k: int|
            #![trigger config.presets@[p].on_enter@[k]]
            0 <= p < config.presets@.len() && 0 <= k < config.presets@[p].on_enter@.len()
                ==> has_channel(config.presets@[p].on_enter@[k]),
        forall|p: int, k: int|
            #![trigger config.presets@[p].on_exit@[k]]
            0 <= p < config.presets@.len() && 0 <= k < config.presets@[p].on_exit@.len()
                ==> has_channel(config.presets@[p].on_exit@[k]),
        forall|p: int, i: int|
            #![trigger config.presets@[p].encoders@[i]]
            0 <= p < config.presets@.len() && 0 <= i < config.presets@[p].encoders@.len() ==> (
            match config.presets@[p].encoders@[i].action {
                EncoderAction::Cc { channel, .. } => channel != 0,
                EncoderAction::CcRelative { channel, .. } => channel != 0,
                EncoderAction::PresetScroll => true,
            }),
        forall|p: int, i: int|
            #![trigger config.presets@[p].analog@[i]]
            0 <= p < config.presets@.len() && 0 <= i < config.presets@[p].analog@.len()
                ==> config.presets@[p].analog@[i].channel != 0 && config.presets@[p].analog@[i].min
                <= config.presets@[p].analog@[i].max,
        config.global.exp1_min < config.global.exp1_max,
        config.global.exp2_min < config.global.exp2_max,
    ensures
        sound(config),
{
    assert forall|p: int| 0 <= p < config.presets@.len() implies sound_preset(
        #[trigger] config.presets@[p],
    ) by {
        let preset = config.presets@[p];
        assert forall|i: int| 0 <= i < preset.buttons@.len() implies {
            &&& have_channels((#[trigger] preset.buttons@[i]).on_press@)
            &&& have_channels(preset.buttons@[i].on_release@)
            &&& have_channels(preset.buttons@[i].on_long_press@)
        } by {
            let button = preset.buttons@[i];
            assert forall|k: int| 0 <= k < button.on_press@.len() implies has_channel(
                #[trigger] button.on_press@[k],
            ) by {
                assert(config.presets@[p].buttons@[i].on_press@[k] == button.on_press@[k]);
            }
        }
    }
}

} // verus!
