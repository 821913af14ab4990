//! Action executor: converts preset actions, encoder pulses and analog readings
//! into raw MIDI bytes.

use vstd::prelude::*;

use crate::bounded::BoundedVec;
use crate::config::{status_byte, Action, AnalogConfig, ButtonConfig, EncoderAction, Preset};

verus! {

/// A MIDI message ready to send (up to 3 bytes).
#[derive(Debug, Clone, Copy, PartialEq, Eq)]
pub struct MidiMessage {
    pub data: [u8; 3],
    pub len: usize,
}

/// The message of `len` bytes out of `a`, `b` and `c`.
pub open spec fn message(a: u8, b: u8, c: u8, len: usize) -> MidiMessage {
    MidiMessage { data: [a, b, c], len }
}

// --- Actions ---

/// Whether the message of an action that is sent as it stands has a channel
/// (channels count from 1).
pub open spec fn sendable(action: Action) -> bool {
    match action {
        Action::Cc { channel, .. } => channel >= 1,
        Action::ProgramChange { channel, .. } => channel >= 1,
        Action::NoteOn { channel, .. } => channel >= 1,
        Action::NoteOff { channel, .. } => channel >= 1,
        _ => true,
    }
}

/// The message that an action is by itself.
pub open spec fn action_message(action: Action) -> Option<MidiMessage> {
    match action {
        Action::Midi { data, len } => Some(MidiMessage { data, len: len as usize }),
        Action::Cc { cc, value, channel } => Some(
            message(status_byte(0xB0, channel), cc, value, 3),
        ),
        Action::ProgramChange { program, channel } => Some(
            message(status_byte(0xC0, channel), program, 0, 2),
        ),
        Action::NoteOn { note, channel } => Some(
            message(status_byte(0x90, channel), note, 127, 3),
        ),
        Action::NoteOff { note, channel } => Some(
            message(status_byte(0x80, channel), note, 0, 3),
        ),
        _ => None,
    }
}

/// The messages that the actions of a list are by themselves, in order.
pub open spec fn messages(actions: Seq<Action>) -> Seq<MidiMessage>
    decreases actions.len(),
{
    if actions.len() == 0 {
        Seq::empty()
    } else {
        match action_message(actions.last()) {
            Some(m) => messages(actions.drop_last()).push(m),
            None => messages(actions.drop_last()),
        }
    }
}

/// A list has at most one message for each action.
pub proof fn lemma_messages_len(actions: Seq<Action>)
    ensures
        messages(actions).len() <= actions.len(),
    decreases actions.len(),
{
    if actions.len() > 0 {
        lemma_messages_len(actions.drop_last());
    }
}

/// The messages of the on_press actions of button `idx`, where it is there.
pub open spec fn press_messages(buttons: Seq<ButtonConfig>, idx: int) -> Seq<MidiMessage> {
    if idx < buttons.len() {
        messages(buttons[idx].on_press@)
    } else {
        Seq::empty()
    }
}

/// Execute on_press actions for a button index. Returns up to 8 MIDI messages.
pub fn execute_button_press<const B: usize, const E: usize, const A: usize>(
    preset: &Preset<B, E, A>,
    btn_idx: usize,
) -> (r: BoundedVec<MidiMessage, 8>)
    requires
        btn_idx < preset.buttons@.len() ==> forall|i: int|
            0 <= i < preset.buttons@[btn_idx as int].on_press@.len() ==> sendable(
                #[trigger] preset.buttons@[btn_idx as int].on_press@[i],
            ),
    ensures
        r@ == press_messages(preset.buttons@, btn_idx as int),
{
    let mut result: BoundedVec<MidiMessage, 8> = BoundedVec::new();
    let buttons = preset.buttons.as_slice();
    if btn_idx >= buttons.len() {
        return result;
    }
    let actions = buttons[btn_idx].on_press.as_slice();
    let mut i: usize = 0;
    while i < actions.len()
        invariant
            i <= actions@.len() <= 8,
            forall|k: int| 0 <= k < actions@.len() ==> sendable(#[trigger] actions@[k]),
            result@ == messages(actions@.take(i as int)),
        decreases actions@.len() - i,
    {
        proof {
            assert(actions@.take(i + 1).drop_last() =~= actions@.take(i as int));
            lemma_messages_len(actions@.take(i as int));
        }
        if let Some(msg) = action_to_midi(&actions[i]) {
            let _ = result.push(msg);
        }
        i += 1;
    }
    assert(actions@.take(i as int) =~= actions@);
    result
}

/// Convert a single Action to a raw MIDI message.
pub fn action_to_midi(action: &Action) -> (r: Option<MidiMessage>)
    requires
        sendable(*action),
    ensures
        r == action_message(*action),
{
    match action {
        Action::Midi { data, len } => Some(MidiMessage { data: *data, len: *len as usize }),
        Action::Cc { cc, value, channel } => Some(
            MidiMessage { data: [0xB0 | (*channel - 1), *cc, *value], len: 3 },
        ),
        Action::ProgramChange { program, channel } => Some(
            MidiMessage { data: [0xC0 | (*channel - 1), *program, 0], len: 2 },
        ),
        Action::NoteOn { note, channel } => Some(
            MidiMessage { data: [0x90 | (*channel - 1), *note, 127], len: 3 },
        ),
        Action::NoteOff { note, channel } => Some(
            MidiMessage { data: [0x80 | (*channel - 1), *note, 0], len: 3 },
        ),
        _ => None,
    }
}

// --- Encoders ---

/// Direction for encoder pulses.
#[derive(Debug, Clone, Copy, PartialEq, Eq, Structural)]
pub enum EncoderDirection {
    Clockwise,
    CounterClockwise,
}

/// Whether the message of an encoder has a channel.
pub open spec fn encoder_sendable(action: EncoderAction) -> bool {
    match action {
        EncoderAction::Cc { channel, .. } => channel >= 1,
        EncoderAction::CcRelative { channel, .. } => channel >= 1,
        EncoderAction::PresetScroll => true,
    }
}

/// An encoder's value after `steps` pulses: an absolute encoder goes up to its
/// maximum or down to its minimum, the others hold no value of their own.
pub open spec fn encoder_value(
    action: EncoderAction,
    direction: EncoderDirection,
    steps: nat,
    value: u8,
) -> u8 {
    match action {
        EncoderAction::Cc { min, max, .. } => if steps == 0 {
            value
        } else {
            match direction {
                EncoderDirection::Clockwise => if value + steps <= max {
                    (value + steps) as u8
                } else {
                    max
                },
                EncoderDirection::CounterClockwise => if value - steps >= min {
                    (value - steps) as u8
                } else {
                    min
                },
            }
        },
        _ => value,
    }
}

/// The message of an encoder that was turned and now stands at `value`.
pub open spec fn encoder_message(
    action: EncoderAction,
    direction: EncoderDirection,
    value: u8,
) -> Option<MidiMessage> {
    match action {
        EncoderAction::Cc { cc, channel, .. } => Some(
            message(status_byte(0xB0, channel), #[verifier::truncate] (cc as u8), value, 3),
        ),
        EncoderAction::CcRelative { cc, channel, increment, decrement } => Some(
            message(
                status_byte(0xB0, channel),
                cc,
                match direction {
                    EncoderDirection::Clockwise => increment,
                    EncoderDirection::CounterClockwise => decrement,
                },
                3,
            ),
        ),
        EncoderAction::PresetScroll => None,
    }
}

/// Generate a CC message for an encoder pulse. `current_value` is updated in place.
/// Returns None if the encoder has no action configured or uses PresetScroll.
pub fn encoder_cc<const B: usize, const E: usize, const A: usize>(
    preset: &Preset<B, E, A>,
    encoder_idx: usize,
    direction: EncoderDirection,
    current_value: &mut u8,
) -> (r: Option<MidiMessage>)
    requires
        encoder_idx < preset.encoders@.len() ==> encoder_sendable(
            preset.encoders@[encoder_idx as int].action,
        ),
    ensures
        encoder_idx < preset.encoders@.len() ==> {
            let action = preset.encoders@[encoder_idx as int].action;
            &&& *final(current_value) == encoder_value(action, direction, 1, *old(current_value))
            &&& r == encoder_message(action, direction, *final(current_value))
        },
        encoder_idx >= preset.encoders@.len() ==> r is None && *final(current_value) == *old(
            current_value,
        ),
{
    let encoders = preset.encoders.as_slice();
    if encoder_idx >= encoders.len() {
        return None;
    }
    match &encoders[encoder_idx].action {
        EncoderAction::Cc { cc, channel, min, max } => {
            let val: u8 = match direction {
                EncoderDirection::Clockwise => {
                    let up: u8 = (*current_value).saturating_add(1);
                    if up < *max {
                        up
                    } else {
                        *max
                    }
                },
                EncoderDirection::CounterClockwise => {
                    let down: u8 = (*current_value).saturating_sub(1);
                    if down > *min {
                        down
                    } else {
                        *min
                    }
                },
            };
            *current_value = val;
            Some(
                MidiMessage {
                    data: [0xB0 | (*channel - 1), #[verifier::truncate] (*cc as u8), val],
                    len: 3,
                },
            )
        },
        EncoderAction::CcRelative { cc, channel, increment, decrement } => {
            let val: u8 = match direction {
                EncoderDirection::Clockwise => *increment,
                EncoderDirection::CounterClockwise => *decrement,
            };
            Some(MidiMessage { data: [0xB0 | (*channel - 1), *cc, val], len: 3 })
        },
        EncoderAction::PresetScroll => None,
    }
}

/// However far it is turned, an absolute encoder that stands between its minimum
/// and its maximum stays there.
pub proof fn law_encoder_stays_in_range(
    action: EncoderAction,
    direction: EncoderDirection,
    steps: nat,
    value: u8,
)
    ensures
        action matches EncoderAction::Cc { min, max, .. } ==> min <= value <= max ==> min
            <= encoder_value(action, direction, steps, value) <= max,
{
}

/// Turning by `m` and then by `n` pulses is turning by `m + n`.
pub proof fn law_encoder_pulses_add_up(
    action: EncoderAction,
    direction: EncoderDirection,
    m: nat,
    n: nat,
    value: u8,
)
    ensures
        encoder_value(action, direction, n, encoder_value(action, direction, m, value))
            == encoder_value(action, direction, m + n, value),
{
}

// --- Analog ---

/// Whether an analog input can be converted: its message has a channel, its range
/// is not reversed, and the two ends of its calibration differ in that order.
pub open spec fn analog_convertible(cfg: AnalogConfig, adc_min: u16, adc_max: u16) -> bool {
    cfg.channel >= 1 && cfg.min <= cfg.max && adc_min < adc_max
}

/// `raw` held between `adc_min` and `adc_max`.
pub open spec fn calibrated(raw: u16, adc_min: u16, adc_max: u16) -> int {
    if raw < adc_min {
        adc_min as int
    } else if raw > adc_max {
        adc_max as int
    } else {
        raw as int
    }
}

/// The value of an analog input: the place of the reading between the two ends of
/// the calibration, carried over to the range of the input and rounded down.
pub open spec fn analog_value(cfg: AnalogConfig, raw: u16, adc_min: u16, adc_max: u16) -> int {
    cfg.min + ((calibrated(raw, adc_min, adc_max) - adc_min) * (cfg.max - cfg.min)) / (adc_max
        - adc_min)
}

/// The message of an analog input at reading `raw`.
pub open spec fn analog_message(
    cfg: AnalogConfig,
    raw: u16,
    adc_min: u16,
    adc_max: u16,
) -> MidiMessage {
    message(
        status_byte(0xB0, cfg.channel),
        cfg.cc,
        analog_value(cfg, raw, adc_min, adc_max) as u8,
        3,
    )
}

proof fn lemma_scaled_bounds(part: int, range: int, whole: int)
    by (nonlinear_arith)
    requires
        0 <= part <= whole,
        0 < whole,
        0 <= range,
    ensures
        0 <= part * range <= whole * range,
        0 <= (part * range) / whole <= range,
{
}

/// The value of an analog input stays in the range of the input: it starts at the
/// minimum when the pedal is at rest or below, and reaches the maximum when it is
/// at the toe position or above.
pub proof fn law_analog_range(cfg: AnalogConfig, raw: u16, adc_min: u16, adc_max: u16)
    requires
        analog_convertible(cfg, adc_min, adc_max),
    ensures
        cfg.min <= analog_value(cfg, raw, adc_min, adc_max) <= cfg.max,
        raw <= adc_min ==> analog_value(cfg, raw, adc_min, adc_max) == cfg.min,
        raw >= adc_max ==> analog_value(cfg, raw, adc_min, adc_max) == cfg.max,
{
    let whole = adc_max - adc_min;
    let range = cfg.max - cfg.min;
    lemma_scaled_bounds(calibrated(raw, adc_min, adc_max) - adc_min, range, whole);
    assert((whole * range) / whole == range && (0 * range) / whole == 0) by (nonlinear_arith)
        requires
            whole > 0,
    ;
}

/// A higher reading never gives a lower value.
pub proof fn law_analog_monotone(
    cfg: AnalogConfig,
    low: u16,
    high: u16,
    adc_min: u16,
    adc_max: u16,
)
    requires
        analog_convertible(cfg, adc_min, adc_max),
        low <= high,
    ensures
        analog_value(cfg, low, adc_min, adc_max) <= analog_value(cfg, high, adc_min, adc_max),
{
    let whole = adc_max - adc_min;
    let range = cfg.max - cfg.min;
    let a = calibrated(low, adc_min, adc_max) - adc_min;
    let b = calibrated(high, adc_min, adc_max) - adc_min;
    assert(a * range <= b * range) by (nonlinear_arith)
        requires
            a <= b,
            range >= 0,
    ;
    vstd::arithmetic::div_mod::lemma_div_is_ordered(a * range, b * range, whole);
}

/// Generate a CC message for an analog input. `raw` is the ADC reading, which runs
/// from 0 to `adc_max`.
pub fn analog_cc<const B: usize, const E: usize, const A: usize>(
    preset: &Preset<B, E, A>,
    analog_idx: usize,
    raw: u16,
    adc_max: u16,
) -> (r: Option<MidiMessage>)
    requires
        analog_idx < preset.analog@.len() ==> analog_convertible(
            preset.analog@[analog_idx as int],
            0,
            adc_max,
        ),
    ensures
        r == if analog_idx < preset.analog@.len() {
            Some(analog_message(preset.analog@[analog_idx as int], raw, 0, adc_max))
        } else {
            None
        },
{
    analog_cc_calibrated(preset, analog_idx, raw, 0, adc_max)
}

/// Generate a CC message for an analog input whose readings run from `adc_min` to
/// `adc_max`; a reading beyond either end counts as that end.
pub fn analog_cc_calibrated<const B: usize, const E: usize, const A: usize>(
    preset: &Preset<B, E, A>,
    analog_idx: usize,
    raw: u16,
    adc_min: u16,
    adc_max: u16,
) -> (r: Option<MidiMessage>)
    requires
        analog_idx < preset.analog@.len() ==> analog_convertible(
            preset.analog@[analog_idx as int],
            adc_min,
            adc_max,
        ),
    ensures
        r == if analog_idx < preset.analog@.len() {
            Some(analog_message(preset.analog@[analog_idx as int], raw, adc_min, adc_max))
        } else {
            None
        },
{
    let analog = preset.analog.as_slice();
    if analog_idx >= analog.len() {
        return None;
    }
    let cfg = &analog[analog_idx];
    let reading: u16 = if raw < adc_min {
        adc_min
    } else if raw > adc_max {
        adc_max
    } else {
        raw
    };
    let range: u32 = (cfg.max - cfg.min) as u32;
    let part: u32 = (reading - adc_min) as u32;
    let whole: u32 = (adc_max - adc_min) as u32;
    proof {
        lemma_scaled_bounds(part as int, range as int, whole as int);
        assert(part * range <= 65535 * 255) by (nonlinear_arith)
            requires
                part <= 65535,
                range <= 255,
        ;
    }
    let value: u8 = cfg.min + ((part * range) / whole) as u8;
    Some(MidiMessage { data: [0xB0 | (cfg.channel - 1), cfg.cc, value], len: 3 })
}

} // verus!
