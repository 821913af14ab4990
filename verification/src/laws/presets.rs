//! Laws of presets: what their buttons, encoders, pedals and triggers do, and what
//! they remember.

use vstd::prelude::*;

use crate::action::{
    action_message, analog_convertible, analog_value, encoder_message, encoder_sendable, messages,
    EncoderDirection,
};
use crate::bounded::{clip, lemma_clip_append, lemma_clip_push};
use crate::config::{
    law_status_byte, Action, ButtonConfig, EncoderAction, EncoderConfig, ListenMode, Preset,
    Trigger, TriggerAction, TriggerMatch,
};
use crate::engine::{
    action_steps, analog_output, button_output, cycle_after, encoder_output, law_first_listener,
    lemma_single, matched, reactive, state_after_button, state_after_encoder, system_actions,
    triggered, ActionStep, ButtonEvent, DisplayEvent, DisplaySide, ReactiveResult, SystemAction,
};
use crate::laws::midi::{is_message, law_analog_bytes, law_encoder_bytes, lemma_kinds};
use crate::state::{
    buttons_recall, eeprom_image, encoders_recall, image_store, recall, state_bytes, StateModel,
    StoreModel,
};

verus! {

// --- State ---

/// Saving the working state changes what is remembered of the active preset to it,
/// and nothing else; a switch then makes another preset the active one.
pub proof fn law_saved(store: StoreModel, working: StateModel, new_preset: u8, i: int)
    requires
        store.active < store.states.len(),
        0 <= i < store.states.len(),
    ensures
        store.saved(working).states.len() == store.states.len(),
        store.saved(working).states[i] == if i == store.active {
            working
        } else {
            store.states[i]
        },
        store.saved(working).active == store.active,
        store.switched(new_preset, working).active == new_preset,
        store.switched(new_preset, working).states == store.saved(working).states,
        store.current() == store.states[store.active as int],
{
}

/// A preset that was never used has no button on, every cycle at its start and every
/// encoder at 0, and a new store holds 32 of them, the first of which is active.
pub proof fn law_fresh(b: nat, e: nat, i: int, j: int)
    requires
        0 <= i < b,
        0 <= j < e,
    ensures
        ({
            let fresh = StateModel::fresh(b, e);
            &&& fresh.button_active.len() == b && !fresh.button_active[i]
            &&& fresh.cycle_index.len() == b && fresh.cycle_index[i] == 0
            &&& fresh.encoder_values.len() == e && fresh.encoder_values[j] == 0
        }),
        StoreModel::fresh(b, e).states == Seq::new(32, |k: int| StateModel::fresh(b, e)),
        StoreModel::fresh(b, e).active == 0,
{
}

/// The recall of a row of buttons starts with what its first button sends, its
/// on_press actions where it is active and its on_release actions where it is not, and
/// goes on with the recall of the others.
pub proof fn law_buttons_recall(
    button: ButtonConfig,
    rest: Seq<ButtonConfig>,
    on: bool,
    rest_on: Seq<bool>,
)
    requires
        rest.len() <= rest_on.len(),
    ensures
        buttons_recall(seq![button] + rest, seq![on] + rest_on) == messages(
            if on {
                button.on_press@
            } else {
                button.on_release@
            },
        ) + buttons_recall(rest, rest_on),
        buttons_recall(Seq::empty(), rest_on).len() == 0,
    decreases rest.len(),
{
    let all = seq![button] + rest;
    let all_on = seq![on] + rest_on;
    if rest.len() == 0 {
        assert(all.drop_last() =~= Seq::<ButtonConfig>::empty());
        assert(all.last() == button && all_on[0] == on);
        reveal_with_fuel(buttons_recall, 2);
        assert(buttons_recall(all, all_on) =~= messages(
            if on {
                button.on_press@
            } else {
                button.on_release@
            },
        ) + buttons_recall(rest, rest_on));
    } else {
        law_buttons_recall(button, rest.drop_last(), on, rest_on);
        assert(all.drop_last() =~= seq![button] + rest.drop_last());
        assert(all.last() == rest.last());
        assert(all_on[all.len() - 1] == rest_on[rest.len() - 1]);
        assert(buttons_recall(all, all_on) =~= messages(
            if on {
                button.on_press@
            } else {
                button.on_release@
            },
        ) + buttons_recall(rest, rest_on));
    }
}

/// How many of the encoders have a value of their own to recall.
pub open spec fn absolutes(encoders: Seq<EncoderConfig>) -> nat
    decreases encoders.len(),
{
    if encoders.len() == 0 {
        0
    } else {
        absolutes(encoders.drop_last()) + if encoders.last().action is Cc {
            1nat
        } else {
            0
        }
    }
}

/// The recall of a row of encoders has one message for each absolute encoder, in
/// order: the one that the encoder sends when it is turned to the value remembered for
/// it, which is a CC of its number and that value on its channel.
pub proof fn law_encoders_recall(
    encoders: Seq<EncoderConfig>,
    values: Seq<u8>,
    i: int,
    direction: EncoderDirection,
)
    requires
        0 <= i < encoders.len(),
        encoders[i].action is Cc,
    ensures
        encoders_recall(encoders, values).len() == absolutes(encoders),
        absolutes(encoders.take(i)) < absolutes(encoders),
        ({
            let m = encoders_recall(encoders, values)[absolutes(encoders.take(i)) as int];
            &&& encoder_message(encoders[i].action, direction, values[i]) == Some(m)
            &&& encoders[i].action matches EncoderAction::Cc { cc, channel, .. } ==> 1 <= channel
                <= 16 ==> is_message(m, 0xB0, channel, (cc % 256) as u8, values[i], 3)
        }),
    decreases encoders.len(),
{
    law_encoder_bytes(encoders[i].action, direction, values[i]);
    lemma_absolutes(encoders, values);
    lemma_absolutes(encoders.drop_last(), values);
    if i == encoders.len() - 1 {
        assert(encoders.take(i) =~= encoders.drop_last());
    } else {
        let shorter = encoders.drop_last();
        law_encoders_recall(shorter, values, i, direction);
        assert(shorter.take(i) =~= encoders.take(i));
        assert(shorter[i] == encoders[i]);
    }
}

proof fn lemma_absolutes(encoders: Seq<EncoderConfig>, values: Seq<u8>)
    ensures
        encoders_recall(encoders, values).len() == absolutes(encoders),
    decreases encoders.len(),
{
    if encoders.len() > 0 {
        lemma_absolutes(encoders.drop_last(), values);
    }
}

/// A recall that fits sends for the buttons first and for the encoders behind them;
/// one that does not is cut off after 16 messages.
pub proof fn law_recall_order<const B: usize, const E: usize, const A: usize>(
    preset: Preset<B, E, A>,
    state: StateModel,
    i: int,
)
    ensures
        ({
            let first = buttons_recall(preset.buttons@, state.button_active);
            let second = encoders_recall(preset.encoders@, state.encoder_values);
            let sent = recall(preset, state);
            &&& first.len() + second.len() <= 16 ==> sent.len() == first.len() + second.len()
            &&& first.len() + second.len() > 16 ==> sent.len() == 16
            &&& 0 <= i < first.len() && i < 16 ==> sent[i] == first[i]
            &&& 0 <= i < second.len() && first.len() + i < 16 ==> sent[first.len() + i]
                == second[i]
        }),
{
}

/// In a recall that is not cut off every absolute encoder has its message, behind those
/// of the buttons and of the absolute encoders before it: the one that it sends when it
/// is turned to the value remembered for it.
pub proof fn law_recall_of_encoder<const B: usize, const E: usize, const A: usize>(
    preset: Preset<B, E, A>,
    state: StateModel,
    i: int,
    direction: EncoderDirection,
)
    requires
        0 <= i < preset.encoders@.len(),
        preset.encoders@[i].action is Cc,
        buttons_recall(preset.buttons@, state.button_active).len() + absolutes(preset.encoders@)
            <= 16,
    ensures
        ({
            let at = buttons_recall(preset.buttons@, state.button_active).len() + absolutes(
                preset.encoders@.take(i),
            );
            let sent = recall(preset, state);
            let value = state.encoder_values[i];
            &&& at < sent.len()
            &&& encoder_message(preset.encoders@[i].action, direction, value) == Some(
                sent[at as int],
            )
            &&& preset.encoders@[i].action matches EncoderAction::Cc { cc, channel, .. } ==> 1
                <= channel <= 16 ==> is_message(
                sent[at as int],
                0xB0,
                channel,
                (cc % 256) as u8,
                value,
                3,
            )
        }),
{
    law_encoders_recall(preset.encoders@, state.encoder_values, i, direction);
    law_recall_order(preset, state, absolutes(preset.encoders@.take(i)) as int);
}

/// In the 14 bytes of a state each button has a byte that is 1 where it is active and
/// 0 where it is not, then each cycle its index, then each encoder its value.
pub proof fn law_state_layout(state: StateModel, i: int, j: int)
    requires
        state.sized(6, 2),
        0 <= i < 6,
        0 <= j < 2,
    ensures
        state_bytes(state).len() == 14,
        state_bytes(state)[i] == if state.button_active[i] {
            1u8
        } else {
            0u8
        },
        state_bytes(state)[6 + i] == state.cycle_index[i],
        state_bytes(state)[12 + j] == state.encoder_values[j],
{
}

/// The EEPROM holds the mark, the active preset, and 14 bytes for each of the first
/// nine presets.
pub proof fn law_eeprom_layout(store: StoreModel, i: int, k: int)
    requires
        0 <= i < 9,
        0 <= k < 14,
    ensures
        eeprom_image(store)[0] == 0xED,
        eeprom_image(store)[1] == store.active,
        eeprom_image(store)[2 + 14 * i + k] == state_bytes(store.states[i])[k],
{
    assert((2 + 14 * i + k - 2) / 14 == i && (2 + 14 * i + k - 2) % 14 == k);
}

/// Read back, a button is active where its byte is anything but 0, and the other bytes
/// are the cycles and the values as they stand. Presets past the ninth are fresh, and
/// the active one is the one that the second byte names.
pub proof fn law_image_layout(image: Seq<u8>, i: int, k: int, j: int, p: int)
    requires
        image.len() == 128,
        0 <= i < 9,
        0 <= k < 6,
        0 <= j < 2,
        9 <= p < 32,
    ensures
        ({
            let store = image_store(image);
            &&& store.states.len() == 32
            &&& store.active == image[1]
            &&& store.states[i].sized(6, 2)
            &&& store.states[i].button_active[k] <==> image[2 + 14 * i + k] != 0
            &&& store.states[i].cycle_index[k] == image[2 + 14 * i + 6 + k]
            &&& store.states[i].encoder_values[j] == image[2 + 14 * i + 12 + j]
            &&& store.states[p] == StateModel::fresh(6, 2)
        }),
{
}

// --- Action lists ---

/// Two lists one after the other do what they do by themselves, one after the other:
/// the second finds the cycle where the first has left it.
pub proof fn law_lists_in_order(a: Seq<Action>, b: Seq<Action>, values: Seq<u8>, cycle_index: u8)
    ensures
        action_steps(a + b, values, cycle_index) == action_steps(a, values, cycle_index)
            + action_steps(b, values, cycle_after(a, values.len(), cycle_index)),
        cycle_after(a + b, values.len(), cycle_index) == cycle_after(
            b,
            values.len(),
            cycle_after(a, values.len(), cycle_index),
        ),
        system_actions(a + b) == system_actions(a) + system_actions(b),
        action_steps(Seq::empty(), values, cycle_index).len() == 0,
        cycle_after(Seq::empty(), values.len(), cycle_index) == cycle_index,
        system_actions(Seq::empty()).len() == 0,
    decreases b.len(),
{
    if b.len() == 0 {
        assert(a + b =~= a);
        assert(action_steps(a, values, cycle_index) + action_steps(
            b,
            values,
            cycle_after(a, values.len(), cycle_index),
        ) =~= action_steps(a, values, cycle_index));
        assert(system_actions(a) + system_actions(b) =~= system_actions(a));
    } else {
        law_lists_in_order(a, b.drop_last(), values, cycle_index);
        assert((a + b).drop_last() =~= a + b.drop_last());
        assert((a + b).last() == b.last());
        assert(action_steps(a + b, values, cycle_index) =~= action_steps(a, values, cycle_index)
            + action_steps(b, values, cycle_after(a, values.len(), cycle_index)));
        assert(system_actions(a + b) =~= system_actions(a) + system_actions(b));
    }
}

/// What a single action does: a delay waits, a cycle sends the value that it stands at
/// and moves by one, a message is sent, a step between presets or a tap is asked of the
/// system, and nothing does two of these.
pub proof fn law_one_action(action: Action, values: Seq<u8>, cycle_index: u8)
    requires
        values.len() <= 12,
    ensures
        ({
            let steps = action_steps(seq![action], values, cycle_index);
            let asked = system_actions(seq![action]);
            let moved = cycle_after(seq![action], values.len(), cycle_index);
            &&& steps.len() + asked.len() <= 1
            &&& !(action is CcCycle) ==> moved == cycle_index
            &&& match action {
                Action::Delay(ms) => steps.len() == 1 && steps[0] == ActionStep::Delay(ms),
                Action::CcCycle { cc, channel, reverse } => if values.len() == 0 {
                    steps.len() == 0 && asked.len() == 0 && moved == cycle_index
                } else {
                    &&& 1 <= channel <= 16 ==> steps.len() == 1 && (steps[0] matches
                        ActionStep::Send(m) && is_message(
                        m,
                        0xB0,
                        channel,
                        cc,
                        values[cycle_index as int % values.len() as int],
                        3,
                    ))
                    &&& !reverse && cycle_index + 1 < values.len() ==> moved == cycle_index + 1
                    &&& !reverse && cycle_index + 1 == values.len() ==> moved == 0
                    &&& !reverse ==> moved < values.len()
                    &&& reverse && cycle_index > 0 ==> moved == cycle_index - 1
                    &&& reverse && cycle_index == 0 ==> moved == values.len() - 1
                },
                Action::PresetNext => asked == seq![SystemAction::PresetNext],
                Action::BankUp => asked == seq![SystemAction::PresetNext],
                Action::PresetPrev => asked == seq![SystemAction::PresetPrev],
                Action::BankDown => asked == seq![SystemAction::PresetPrev],
                Action::PresetSelect(idx) => asked == seq![SystemAction::PresetSelect(idx)],
                Action::TapTempo => asked == seq![SystemAction::TapTempo],
                Action::SetLed { .. } => steps.len() == 0 && asked.len() == 0,
                _ => (action_message(action) matches Some(m) && steps == seq![ActionStep::Send(m)]),
            }
        }),
{
    lemma_single(action, values, cycle_index);
    lemma_kinds();
    if let Action::CcCycle { channel, .. } = action {
        if 1 <= channel <= 16 {
            law_status_byte(0xB0, channel);
        }
        if values.len() > 0 {
            if cycle_index + 1 < values.len() {
                vstd::arithmetic::div_mod::lemma_small_mod(
                    (cycle_index + 1) as nat,
                    values.len(),
                );
            } else if cycle_index + 1 == values.len() {
                vstd::arithmetic::div_mod::lemma_mod_self_0(values.len() as int);
            }
            vstd::arithmetic::div_mod::lemma_mod_bound(cycle_index + 1, values.len() as int);
        }
    }
}

/// A cycle index past the end of the values sends what the index reduced by whole
/// rounds sends.
pub proof fn law_cycle_index_reduced(cc: u8, channel: u8, values: Seq<u8>, cycle_index: u8)
    requires
        0 < values.len() <= 12,
        cycle_index + values.len() <= 255,
    ensures
        ({
            let list = seq![Action::CcCycle { cc, channel, reverse: false }];
            let further = (cycle_index + values.len()) as u8;
            &&& action_steps(list, values, further) == action_steps(list, values, cycle_index)
            &&& cycle_after(list, values.len(), further) == cycle_after(
                list,
                values.len(),
                cycle_index,
            )
        }),
{
    let action = Action::CcCycle { cc, channel, reverse: false };
    let further = (cycle_index + values.len()) as u8;
    lemma_single(action, values, cycle_index);
    lemma_single(action, values, further);
    vstd::arithmetic::div_mod::lemma_mod_add_multiples_vanish(
        cycle_index as int,
        values.len() as int,
    );
    vstd::arithmetic::div_mod::lemma_mod_add_multiples_vanish(
        cycle_index + 1,
        values.len() as int,
    );
}

// --- Buttons ---

/// Only a momentary button has a release: to let go of a toggle or a radio button
/// changes nothing, sends nothing and asks for nothing. A toggle that was pressed and
/// let go is on where it was off, and off where it was on.
pub proof fn law_release_is_momentary(buttons: Seq<ButtonConfig>, state: StateModel, idx: int)
    requires
        0 <= idx < buttons.len(),
        buttons.len() <= state.button_active.len(),
        buttons.len() <= state.cycle_index.len(),
        !(buttons[idx].mode is Momentary),
    ensures
        state_after_button(buttons, state, idx, ButtonEvent::Release) == state,
        ({
            let out = button_output(buttons, state, idx, ButtonEvent::Release);
            &&& out.midi.len() == 0
            &&& out.system.len() == 0
            &&& out.display.len() == 0
            &&& !out.led_dirty
        }),
        buttons[idx].mode is Toggle ==> {
            let pressed = state_after_button(buttons, state, idx, ButtonEvent::Press);
            let released = state_after_button(buttons, pressed, idx, ButtonEvent::Release);
            released.button_active[idx] == !state.button_active[idx]
        },
{
    let after = state_after_button(buttons, state, idx, ButtonEvent::Release);
    assert(after.cycle_index =~= state.cycle_index);
    assert(after.button_active =~= state.button_active);
    let pressed = state_after_button(buttons, state, idx, ButtonEvent::Press);
    assert(state_after_button(buttons, pressed, idx, ButtonEvent::Release).button_active
        =~= pressed.button_active);
}

/// A press turns a toggle over and a momentary or a radio button on; the release of a
/// momentary button turns it off; a long press turns nothing over. Every other button
/// stays as it is, but that a radio press switches its group off.
pub proof fn law_active_flags(
    buttons: Seq<ButtonConfig>,
    state: StateModel,
    idx: int,
    event: ButtonEvent,
    j: int,
)
    requires
        0 <= idx < buttons.len(),
        buttons.len() <= state.button_active.len(),
        0 <= j < state.button_active.len(),
    ensures
        ({
            let before = state.button_active;
            let after = state_after_button(buttons, state, idx, event).button_active;
            let mode = buttons[idx].mode;
            &&& after.len() == before.len()
            &&& event is Press && mode is Toggle ==> after[idx] == !before[idx]
            &&& event is Press && !(mode is Toggle) ==> after[idx]
            &&& event is Release && mode is Momentary ==> !after[idx]
            &&& event is LongPress ==> after[idx] == before[idx]
            &&& j != idx && !(event is Press && mode is RadioGroup) ==> after[j] == before[j]
            &&& j != idx && event is Press && mode is RadioGroup ==> after[j] == (before[j] && !(j
                < buttons.len() && buttons[j].mode == mode))
        }),
{
}

/// An event of a button runs its own actions: its on_press actions when it is pressed,
/// or its on_release actions where it is a toggle that was on; its on_release actions
/// when it is momentary and let go; and its on_long_press actions on a long press. It
/// sends their steps and asks what they ask, and shows a change of LEDs where a press
/// or a release counts.
pub proof fn law_runs_its_actions(
    buttons: Seq<ButtonConfig>,
    state: StateModel,
    idx: int,
    event: ButtonEvent,
)
    requires
        0 <= idx < buttons.len(),
        idx < state.cycle_index.len(),
    ensures
        ({
            let button = buttons[idx];
            let was_on = state.button_active[idx];
            let list = if event is LongPress {
                button.on_long_press@
            } else if event is Press && !(button.mode is Toggle && was_on) {
                button.on_press@
            } else if event is Press || button.mode is Momentary {
                button.on_release@
            } else {
                Seq::empty()
            };
            let out = button_output(buttons, state, idx, event);
            let after = state_after_button(buttons, state, idx, event);
            let i = state.cycle_index[idx];
            &&& out.midi == clip(action_steps(list, button.cycle_values@, i), 8)
            &&& out.system == clip(system_actions(list), 2)
            &&& out.display.len() == 0
            &&& out.led_dirty == (event is Press || event is Release && button.mode is Momentary)
            &&& after.cycle_index[idx] == cycle_after(list, button.cycle_values@.len(), i)
        }),
{
}

/// An event of a button moves no cycle but its own and no encoder, and a button that
/// is not there does nothing at all.
pub proof fn law_button_keeps_to_itself(
    buttons: Seq<ButtonConfig>,
    state: StateModel,
    idx: int,
    event: ButtonEvent,
    j: int,
)
    requires
        0 <= idx,
        j != idx,
        0 <= j < state.cycle_index.len(),
        buttons.len() <= state.cycle_index.len(),
    ensures
        ({
            let after = state_after_button(buttons, state, idx, event);
            &&& after.cycle_index.len() == state.cycle_index.len()
            &&& after.cycle_index[j] == state.cycle_index[j]
            &&& after.encoder_values == state.encoder_values
            &&& idx >= buttons.len() ==> after == state
        }),
        idx >= buttons.len() ==> {
            let out = button_output(buttons, state, idx, event);
            out.midi.len() == 0 && out.system.len() == 0 && out.display.len() == 0 && !out.led_dirty
        },
{
}

// --- Encoders and pedals ---

/// An encoder that is turned sends one message, its own with the value that it now
/// stands at, and shows that value under its label, on the left for the first encoder
/// and on the right for the others; one that scrolls asks for the next preset clockwise
/// and for the one before the other way. The values of the others stay as they are.
pub proof fn law_encoder_turned(
    encoders: Seq<EncoderConfig>,
    state: StateModel,
    idx: int,
    direction: EncoderDirection,
    steps: u8,
    j: int,
)
    requires
        0 <= idx < encoders.len(),
        encoders.len() <= state.encoder_values.len(),
        0 <= j < state.encoder_values.len(),
        encoder_sendable(encoders[idx].action),
    ensures
        ({
            let after = state_after_encoder(encoders, state, idx, direction, steps);
            let value = after.encoder_values[idx];
            let out = encoder_output(encoders, idx, direction, value);
            &&& after.button_active == state.button_active
            &&& after.cycle_index == state.cycle_index
            &&& after.encoder_values.len() == state.encoder_values.len()
            &&& j != idx ==> after.encoder_values[j] == state.encoder_values[j]
            &&& value == crate::action::encoder_value(
                encoders[idx].action,
                direction,
                steps as nat,
                state.encoder_values[idx],
            )
            &&& out.led_dirty
            &&& out.display == seq![
                DisplayEvent::EncoderOverlay {
                    side: if idx == 0 {
                        DisplaySide::L
                    } else {
                        DisplaySide::R
                    },
                    label: encoders[idx].label,
                    value,
                },
            ]
            &&& match encoders[idx].action {
                EncoderAction::PresetScroll => out.midi.len() == 0 && out.system == seq![
                    if direction is Clockwise {
                        SystemAction::PresetNext
                    } else {
                        SystemAction::PresetPrev
                    },
                ],
                _ => out.system.len() == 0 && out.midi.len() == 1 && (out.midi[0] matches
                    ActionStep::Send(m) && encoder_message(
                    encoders[idx].action,
                    direction,
                    value,
                ) == Some(m)),
            }
        }),
{
}

/// An encoder that is not there changes and brings about nothing.
pub proof fn law_no_such_encoder(
    encoders: Seq<EncoderConfig>,
    state: StateModel,
    idx: int,
    direction: EncoderDirection,
    steps: u8,
    value: u8,
)
    requires
        idx >= encoders.len(),
    ensures
        state_after_encoder(encoders, state, idx, direction, steps) == state,
        ({
            let out = encoder_output(encoders, idx, direction, value);
            out.midi.len() == 0 && out.system.len() == 0 && out.display.len() == 0 && !out.led_dirty
        }),
{
}

/// A pedal sends its value as one CC of its number on its channel, and shows it under
/// its label, on the left for the first pedal and on the right for the others. A pedal
/// that is not there brings about nothing.
pub proof fn law_pedal_moved<const B: usize, const E: usize, const A: usize>(
    preset: Preset<B, E, A>,
    idx: int,
    raw: u16,
    adc_min: u16,
    adc_max: u16,
)
    requires
        0 <= idx,
        idx < preset.analog@.len() ==> analog_convertible(preset.analog@[idx], adc_min, adc_max)
            && preset.analog@[idx].channel <= 16,
    ensures
        ({
            let out = analog_output(preset, idx, raw, adc_min, adc_max);
            &&& out.system.len() == 0
            &&& !out.led_dirty
            &&& idx >= preset.analog@.len() ==> out.midi.len() == 0 && out.display.len() == 0
            &&& idx < preset.analog@.len() ==> {
                let cfg = preset.analog@[idx];
                let value = analog_value(cfg, raw, adc_min, adc_max) as u8;
                &&& out.midi.len() == 1
                &&& out.midi[0] matches ActionStep::Send(m) && is_message(
                    m,
                    0xB0,
                    cfg.channel,
                    cfg.cc,
                    value,
                    3,
                )
                &&& out.display == seq![
                    DisplayEvent::AnalogOverlay {
                        side: if idx == 0 {
                            DisplaySide::L
                        } else {
                            DisplaySide::R
                        },
                        label: cfg.label,
                        value,
                    },
                ]
            }
        }),
{
    if idx < preset.analog@.len() {
        law_analog_bytes(preset.analog@[idx], raw, adc_min, adc_max);
    }
}

// --- Triggers ---

/// A pattern on channel 1 to 16 matches exactly the messages that the action of the
/// same name and numbers sends on that channel, of a CC those whose value is in its
/// range, and of a note on those that have a velocity.
pub proof fn law_pattern_matches_its_message(
    pattern: TriggerMatch,
    status: u8,
    data1: u8,
    data2: u8,
)
    ensures
        match pattern {
            TriggerMatch::Cc { cc, channel, value_min, value_max } => 1 <= channel <= 16 ==> (
            matched(pattern, status, data1, data2) <==> value_min <= data2 <= value_max && (
            action_message(Action::Cc { cc, value: data2, channel }) matches Some(m) && m.data@
                == seq![status, data1, data2])),
            TriggerMatch::ProgramChange { program, channel } => 1 <= channel <= 16 ==> (matched(
                pattern,
                status,
                data1,
                data2,
            ) <==> (action_message(Action::ProgramChange { program, channel }) matches Some(m)
                && m.data@.take(2) == seq![status, data1])),
            TriggerMatch::NoteOn { note, channel } => 1 <= channel <= 16 ==> (matched(
                pattern,
                status,
                data1,
                data2,
            ) <==> data2 > 0 && (action_message(Action::NoteOn { note, channel }) matches Some(m)
                && m.data@.take(2) == seq![status, data1])),
        },
        match pattern {
            TriggerMatch::Cc { channel, .. }
            | TriggerMatch::ProgramChange { channel, .. }
            | TriggerMatch::NoteOn { channel, .. } => channel == 0 || channel > 16 ==> !matched(
                pattern,
                status,
                data1,
                data2,
            ),
        },
{
    lemma_kinds();
    assert(status & 0x0F <= 15) by (bit_vector);
    match pattern {
        TriggerMatch::Cc { cc, channel, .. } => if 1 <= channel <= 16 {
            law_status_byte(0xB0, channel);
            lemma_same_status(0xB0, channel, status);
            let m = action_message(Action::Cc { cc, value: data2, channel })->0;
            assert(m.data@[0] == status && m.data@[1] == data1 ==> m.data@ =~= seq![
                status,
                data1,
                data2,
            ]);
        },
        TriggerMatch::ProgramChange { program, channel } => if 1 <= channel <= 16 {
            law_status_byte(0xC0, channel);
            lemma_same_status(0xC0, channel, status);
            let m = action_message(Action::ProgramChange { program, channel })->0;
            assert(m.data@[0] == status && m.data@[1] == data1 ==> m.data@.take(2) =~= seq![
                status,
                data1,
            ]);
            assert(m.data@.take(2)[0] == m.data@[0] && m.data@.take(2)[1] == m.data@[1]);
        },
        TriggerMatch::NoteOn { note, channel } => if 1 <= channel <= 16 {
            law_status_byte(0x90, channel);
            lemma_same_status(0x90, channel, status);
            let m = action_message(Action::NoteOn { note, channel })->0;
            assert(m.data@[0] == status && m.data@[1] == data1 ==> m.data@.take(2) =~= seq![
                status,
                data1,
            ]);
            assert(m.data@.take(2)[0] == m.data@[0] && m.data@.take(2)[1] == m.data@[1]);
        },
    }
}

proof fn lemma_same_status(kind: u8, channel: u8, status: u8)
    requires
        1 <= channel <= 16,
        kind & 0x0F == 0,
    ensures
        status & 0xF0 == kind && (status & 0x0F) + 1 == channel <==> status
            == crate::config::status_byte(kind, channel),
{
    law_status_byte(kind, channel);
    let other = crate::config::status_byte(kind, channel);
    assert(status & 0xF0 == other & 0xF0 && status & 0x0F == other & 0x0F ==> status == other)
        by (bit_vector);
}

/// Messages that differ in their number, their channel or their kind never match the
/// same pattern, and one that matches does so whatever a program change has as a third
/// byte.
pub proof fn law_pattern_tells_apart(
    pattern: TriggerMatch,
    status: u8,
    data1: u8,
    data2: u8,
    other_status: u8,
    other_data1: u8,
    other_data2: u8,
)
    requires
        matched(pattern, status, data1, data2),
    ensures
        matched(pattern, other_status, other_data1, other_data2) ==> other_data1 == data1
            && other_status == status,
        pattern is ProgramChange ==> matched(pattern, status, data1, other_data2),
        pattern is NoteOn ==> (matched(pattern, status, data1, other_data2) <==> other_data2 > 0),
        pattern matches TriggerMatch::Cc { value_min, value_max, .. } ==> (matched(
            pattern,
            status,
            data1,
            other_data2,
        ) <==> value_min <= other_data2 <= value_max),
{
    assert(status & 0xF0 == other_status & 0xF0 && status & 0x0F == other_status & 0x0F ==> status
        == other_status) by (bit_vector);
}

/// What a single trigger that matches does: it switches its button on or off, asks for
/// its preset, or fires its button; a button that is not there is neither switched nor
/// fired.
pub proof fn law_one_trigger(
    trigger: Trigger,
    buttons: Seq<ButtonConfig>,
    state: StateModel,
    status: u8,
    data1: u8,
    data2: u8,
    j: int,
)
    requires
        matched(trigger.match_msg, status, data1, data2),
        0 <= j < state.button_active.len(),
        buttons.len() <= state.cycle_index.len(),
    ensures
        ({
            let all = triggered(seq![trigger], buttons, state, status, data1, data2);
            &&& all.state.encoder_values == state.encoder_values
            &&& all.state.button_active.len() == state.button_active.len()
            &&& match trigger.action {
                TriggerAction::Activate(idx) => {
                    &&& all.state.button_active[j] == (state.button_active[j] || j == idx)
                    &&& all.led_dirty == (idx < state.button_active.len())
                    &&& all.midi.len() == 0 && all.system.len() == 0
                    &&& all.state.cycle_index == state.cycle_index
                },
                TriggerAction::Deactivate(idx) => {
                    &&& all.state.button_active[j] == (state.button_active[j] && j != idx)
                    &&& all.led_dirty == (idx < state.button_active.len())
                    &&& all.midi.len() == 0 && all.system.len() == 0
                    &&& all.state.cycle_index == state.cycle_index
                },
                TriggerAction::PresetSelect(preset) => {
                    &&& all.state == state
                    &&& !all.led_dirty && all.midi.len() == 0
                    &&& all.system == seq![SystemAction::PresetSelect(preset)]
                },
                TriggerAction::Execute(idx) => {
                    &&& all.state.button_active == state.button_active
                    &&& !all.led_dirty
                    &&& idx >= buttons.len() ==> all.state == state && all.midi.len() == 0
                        && all.system.len() == 0
                    &&& idx < buttons.len() ==> {
                        let b = buttons[idx as int];
                        let i = state.cycle_index[idx as int];
                        &&& all.midi == clip(action_steps(b.on_press@, b.cycle_values@, i), 8)
                        &&& all.system == clip(system_actions(b.on_press@), 2)
                        &&& all.state.cycle_index == state.cycle_index.update(
                            idx as int,
                            cycle_after(b.on_press@, b.cycle_values@.len(), i),
                        )
                    }
                },
            }
        }),
{
    reveal_with_fuel(triggered, 2);
    assert(seq![trigger].drop_last() =~= Seq::<Trigger>::empty());
    assert(seq![trigger].last() == trigger);
    match trigger.action {
        TriggerAction::PresetSelect(preset) => {
            assert(Seq::<SystemAction>::empty().push(SystemAction::PresetSelect(preset)) =~= seq![
                SystemAction::PresetSelect(preset),
            ]);
        },
        TriggerAction::Execute(idx) => if idx < buttons.len() {
            let b = buttons[idx as int];
            let steps = action_steps(
                b.on_press@,
                b.cycle_values@,
                state.cycle_index[idx as int],
            );
            let asked = system_actions(b.on_press@);
            assert(Seq::<ActionStep>::empty() + steps =~= steps);
            assert(Seq::<SystemAction>::empty() + asked =~= asked);
        },
        _ => {},
    }
}

proof fn lemma_clip_inner<T>(s: Seq<T>, t: Seq<T>, n: nat)
    ensures
        clip(s + clip(t, n), n) == clip(s + t, n),
{
    if t.len() > n {
        assert((s + clip(t, n)).take(n as int) =~= (s + t).take(n as int));
        if s.len() == 0 {
            assert(s + clip(t, n) =~= clip(t, n));
            assert(s + t =~= t);
        }
    }
}

proof fn lemma_triggered_fits(
    triggers: Seq<Trigger>,
    buttons: Seq<ButtonConfig>,
    state: StateModel,
    status: u8,
    data1: u8,
    data2: u8,
)
    ensures
        triggered(triggers, buttons, state, status, data1, data2).midi.len() <= 8,
        triggered(triggers, buttons, state, status, data1, data2).system.len() <= 2,
    decreases triggers.len(),
{
    if triggers.len() > 0 {
        lemma_triggered_fits(triggers.drop_last(), buttons, state, status, data1, data2);
    }
}

/// Two rows of triggers one after the other do what they do by themselves, one after
/// the other: the second finds the state that the first has left. Every trigger that
/// matches counts.
pub proof fn law_triggers_in_order(
    a: Seq<Trigger>,
    b: Seq<Trigger>,
    buttons: Seq<ButtonConfig>,
    state: StateModel,
    status: u8,
    data1: u8,
    data2: u8,
)
    ensures
        ({
            let first = triggered(a, buttons, state, status, data1, data2);
            let second = triggered(b, buttons, first.state, status, data1, data2);
            let both = triggered(a + b, buttons, state, status, data1, data2);
            &&& both.state == second.state
            &&& both.midi == clip(first.midi + second.midi, 8)
            &&& both.system == clip(first.system + second.system, 2)
            &&& both.led_dirty == (first.led_dirty || second.led_dirty)
        }),
    decreases b.len(),
{
    let first = triggered(a, buttons, state, status, data1, data2);
    lemma_triggered_fits(a, buttons, state, status, data1, data2);
    if b.len() == 0 {
        assert(a + b =~= a);
        assert(first.midi + Seq::<ActionStep>::empty() =~= first.midi);
        assert(first.system + Seq::<SystemAction>::empty() =~= first.system);
    } else {
        let shorter = b.drop_last();
        law_triggers_in_order(a, shorter, buttons, state, status, data1, data2);
        assert((a + b).drop_last() =~= a + shorter);
        assert((a + b).last() == b.last());
        if matched(b.last().match_msg, status, data1, data2) {
            let t = triggered(shorter, buttons, first.state, status, data1, data2);
            match b.last().action {
                TriggerAction::PresetSelect(preset) => {
                    let s = SystemAction::PresetSelect(preset);
                    lemma_clip_push(first.system + t.system, s, 2);
                    lemma_clip_inner(first.system, t.system.push(s), 2);
                    assert((first.system + t.system).push(s) =~= first.system + t.system.push(s));
                },
                TriggerAction::Execute(idx) => if idx < buttons.len() {
                    let button = buttons[idx as int];
                    let steps = action_steps(
                        button.on_press@,
                        button.cycle_values@,
                        t.state.cycle_index[idx as int],
                    );
                    let asked = system_actions(button.on_press@);
                    lemma_clip_append(first.midi + t.midi, steps, 8);
                    lemma_clip_inner(first.midi, t.midi + steps, 8);
                    assert(first.midi + t.midi + steps =~= first.midi + (t.midi + steps));
                    lemma_clip_append(first.system + t.system, asked, 2);
                    lemma_clip_inner(first.system, t.system + asked, 2);
                    assert(first.system + t.system + asked =~= first.system + (t.system + asked));
                },
                _ => {},
            }
        }
    }
}

// --- Reactive LEDs ---

/// A CC is shown by the first button that is bound to its number and channel: as a fill
/// of the ring in proportion to the value, 12 for 127 and above, or as on exactly where
/// the value reaches the threshold. It is not shown only where no button is bound to it.
pub proof fn law_reaction(buttons: Seq<ButtonConfig>, channel: u8, cc: u8, value: u8, k: int)
    requires
        buttons.len() <= usize::MAX,
        0 <= k < buttons.len(),
    ensures
        ({
            let bound = buttons[k].listen_cc matches Some(l) && l.cc == cc && l.channel == channel;
            match reactive(buttons, channel, cc, value) {
                None => !bound,
                Some(ReactiveResult::Heatmap(i, fill)) => {
                    &&& i < buttons.len()
                    &&& k < i ==> !bound
                    &&& k == i ==> bound && buttons[k].listen_cc->0.mode == ListenMode::Heatmap
                    &&& value < 127 ==> 127 * fill <= 12 * value < 127 * (fill + 1)
                    &&& value >= 127 ==> fill == 12
                },
                Some(ReactiveResult::Trigger(i, on)) => {
                    &&& i < buttons.len()
                    &&& k < i ==> !bound
                    &&& k == i ==> bound && buttons[k].listen_cc->0.mode == ListenMode::Trigger
                        && on == (value >= buttons[k].listen_cc->0.threshold)
                },
            }
        }),
{
    law_first_listener(buttons, channel, cc);
}

} // verus!
