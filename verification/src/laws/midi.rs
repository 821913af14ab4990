//! Laws of messages: what the bytes of actions, encoders, pedals and routed and
//! framed messages are.

use vstd::prelude::*;

use crate::action::{
    action_message, analog_convertible, analog_message, analog_value, encoder_message,
    encoder_value, law_analog_range, messages, press_messages, EncoderDirection, MidiMessage,
};
use crate::bounded::{clip, BoundedVec};
use crate::config::{
    cc_action, law_status_byte, note_off_action, note_on_action, program_change_action, Action,
    AnalogConfig, ButtonConfig, EncoderAction, GlobalConfig, SystemCommand,
};
use crate::property_exchange::{
    body, ci_message, law_length14, request_of, sender_of, set_inquiry, set_property, set_reply,
};
use crate::routing::{MidiOut, MidiPort};
use vstd::std_specs::cmp::PartialEqSpec;

verus! {

// --- Lists ---

/// A list that is cut off is the beginning of the whole: it has as many items as
/// there is room for, and they are the first ones.
pub proof fn law_clip<T>(s: Seq<T>, n: nat, i: int)
    requires
        0 <= i < clip(s, n).len(),
    ensures
        clip(s, n).len() == if s.len() < n {
            s.len()
        } else {
            n
        },
        clip(s, n)[i] == s[i],
{
}

/// Two lists compare as equal exactly where they hold the same items in the same
/// order, for items that compare as equal exactly where they are.
pub proof fn law_lists_compare<T: PartialEq, const N: usize>(
    a: BoundedVec<T, N>,
    b: BoundedVec<T, N>,
)
    requires
        forall|x: T, y: T| #[trigger] x.eq_spec(&y) <==> x == y,
    ensures
        a.eq_spec(&b) <==> a@ == b@,
{
    if a.eq_spec(&b) {
        assert forall|i: int| 0 <= i < a@.len() implies a@[i] == b@[i] by {
            assert(a@[i].eq_spec(&b@[i]));
        }
        assert(a@ =~= b@);
    }
}

// --- Configuration ---

/// Every system command has the byte of its own: 1, 2 and 3.
pub proof fn law_command_bytes(command: SystemCommand)
    ensures
        command.byte() == 1 <==> command is Reboot,
        command.byte() == 2 <==> command is Bootloader,
        command.byte() == 3 <==> command is FactoryReset,
        1 <= command.byte() <= 3,
{
}

/// A device that was never configured sends on DIN, passes DIN on to USB and nothing
/// else, keeps its clock off at 120 BPM, and takes its pedals to run from 0 to 3750.
pub proof fn law_unconfigured_device()
    ensures
        ({
            let g = GlobalConfig::initial();
            &&& g.din_enabled && g.din_to_usb_thru
            &&& !g.usb_to_din_thru && !g.usb_to_usb_thru && !g.midi_clock
            &&& g.bpm == 120
            &&& g.exp1_min == 0 && g.exp2_min == 0
            &&& g.exp1_max == 3750 && g.exp2_max == 3750
        }),
{
}

/// 24 ticks of the clock to a beat fill a minute at the tempo, up to the rounding of
/// a tick; without a tempo it ticks as at 120.
pub proof fn law_tick_interval(g: GlobalConfig)
    ensures
        ({
            let bpm = if g.bpm == 0 {
                120
            } else {
                g.bpm as int
            };
            &&& g.tick_interval() * (bpm * 24) <= 60_000_000
            &&& 60_000_000 < (g.tick_interval() + 1) * (bpm * 24)
        }),
{
    if g.bpm != 0 {
        let d = g.bpm * 24;
        let q = 60_000_000int / d;
        vstd::arithmetic::div_mod::lemma_fundamental_div_mod(60_000_000, d);
        vstd::arithmetic::mul::lemma_mul_is_commutative(d, q);
        vstd::arithmetic::mul::lemma_mul_is_distributive_add_other_way(d, q, 1);
    }
}

// --- Messages ---

/// Whether a message is one of `len` bytes of which the first says `kind` and
/// `channel`, and the others are `b` and `c`.
pub open spec fn is_message(
    m: MidiMessage,
    kind: u8,
    channel: u8,
    b: u8,
    c: u8,
    len: usize,
) -> bool {
    &&& m.data@[0] & 0xF0 == kind
    &&& (m.data@[0] & 0x0F) + 1 == channel
    &&& m.data@[1] == b
    &&& m.data@[2] == c
    &&& m.len == len
}

/// The message of an action on channel 1 to 16 goes out on that channel, as the kind
/// of message that the action is, with its numbers; a raw message goes out as it is;
/// no other action is a message.
pub proof fn law_action_bytes(action: Action)
    ensures
        match action {
            Action::Midi { data, len } => action_message(action) matches Some(m) && m.data == data
                && m.len == len,
            Action::Cc { cc, value, channel } => 1 <= channel <= 16 ==> (action_message(
                action,
            ) matches Some(m) && is_message(m, 0xB0, channel, cc, value, 3)),
            Action::ProgramChange { program, channel } => 1 <= channel <= 16 ==> (action_message(
                action,
            ) matches Some(m) && is_message(m, 0xC0, channel, program, 0, 2)),
            Action::NoteOn { note, channel } => 1 <= channel <= 16 ==> (action_message(
                action,
            ) matches Some(m) && is_message(m, 0x90, channel, note, 127, 3)),
            Action::NoteOff { note, channel } => 1 <= channel <= 16 ==> (action_message(
                action,
            ) matches Some(m) && is_message(m, 0x80, channel, note, 0, 3)),
            _ => action_message(action) is None,
        },
{
    lemma_kinds();
    match action {
        Action::Cc { channel, .. } => if 1 <= channel <= 16 {
            law_status_byte(0xB0, channel);
        },
        Action::ProgramChange { channel, .. } => if 1 <= channel <= 16 {
            law_status_byte(0xC0, channel);
        },
        Action::NoteOn { channel, .. } => if 1 <= channel <= 16 {
            law_status_byte(0x90, channel);
        },
        Action::NoteOff { channel, .. } => if 1 <= channel <= 16 {
            law_status_byte(0x80, channel);
        },
        _ => {},
    }
}

/// The kinds of messages have no bits of a channel.
pub proof fn lemma_kinds()
    ensures
        0xB0u8 & 0x0F == 0,
        0xC0u8 & 0x0F == 0,
        0x90u8 & 0x0F == 0,
        0x80u8 & 0x0F == 0,
{
    assert(0xB0u8 & 0x0F == 0 && 0xC0u8 & 0x0F == 0 && 0x90u8 & 0x0F == 0 && 0x80u8 & 0x0F == 0)
        by (bit_vector);
}

/// An action that is built from valid numbers sends what the action of the same name
/// and numbers sends, and nothing can be built from others.
pub proof fn law_built_actions(number: u8, value: u8, channel: u8)
    ensures
        number <= 127 && value <= 127 && 1 <= channel <= 16 <==> cc_action(
            number,
            value,
            channel,
        ) is Some,
        cc_action(number, value, channel) matches Some(a) ==> action_message(a) == action_message(
            Action::Cc { cc: number, value, channel },
        ),
        number <= 127 && 1 <= channel <= 16 <==> program_change_action(number, channel) is Some,
        program_change_action(number, channel) matches Some(a) ==> action_message(a)
            == action_message(Action::ProgramChange { program: number, channel }),
        number <= 127 && 1 <= channel <= 16 <==> note_on_action(number, channel) is Some,
        note_on_action(number, channel) matches Some(a) ==> action_message(a) == action_message(
            Action::NoteOn { note: number, channel },
        ),
        number <= 127 && 1 <= channel <= 16 <==> note_off_action(number, channel) is Some,
        note_off_action(number, channel) matches Some(a) ==> action_message(a) == action_message(
            Action::NoteOff { note: number, channel },
        ),
{
}

/// Two lists of actions one after the other send what they send by themselves, one
/// after the other; a list of one action sends its message, if it is one.
pub proof fn law_messages_in_order(a: Seq<Action>, b: Seq<Action>, action: Action)
    ensures
        messages(a + b) == messages(a) + messages(b),
        messages(Seq::empty()).len() == 0,
        action_message(action) matches Some(m) ==> messages(seq![action]) == seq![m],
        action_message(action) is None ==> messages(seq![action]).len() == 0,
    decreases b.len(),
{
    reveal_with_fuel(messages, 2);
    assert(seq![action].drop_last() =~= Seq::<Action>::empty());
    assert(seq![action].last() == action);
    if b.len() == 0 {
        assert(a + b =~= a);
        assert(messages(a) + messages(b) =~= messages(a));
    } else {
        law_messages_in_order(a, b.drop_last(), action);
        assert((a + b).drop_last() =~= a + b.drop_last());
        assert((a + b).last() == b.last());
        assert(messages(a + b) =~= messages(a) + messages(b));
    }
}

/// A press of a button sends the messages of its own on_press actions, wherever it
/// stands; a button that is not there sends nothing.
pub proof fn law_press_is_of_the_button(
    before: Seq<ButtonConfig>,
    button: ButtonConfig,
    after: Seq<ButtonConfig>,
    idx: int,
)
    ensures
        press_messages(before.push(button) + after, before.len() as int) == messages(
            button.on_press@,
        ),
        idx >= before.len() ==> press_messages(before, idx).len() == 0,
{
    assert((before.push(button) + after)[before.len() as int] == button);
}

// --- Encoders ---

/// Turned clockwise an absolute encoder goes up by its steps, or stops at its
/// maximum; turned back it goes down, or stops at its minimum. No other encoder has a
/// value that changes.
pub proof fn law_encoder_goes_its_way(action: EncoderAction, steps: nat, value: u8)
    ensures
        action matches EncoderAction::Cc { min, max, .. } ==> steps >= 1 ==> {
            let up = encoder_value(action, EncoderDirection::Clockwise, steps, value);
            let down = encoder_value(action, EncoderDirection::CounterClockwise, steps, value);
            &&& up == value + steps && up <= max || up == max && value + steps > max
            &&& down == value - steps && down >= min || down == min && value - steps < min
            &&& value < max ==> up > value
            &&& value > min ==> down < value
        },
        !(action is Cc) ==> encoder_value(action, EncoderDirection::Clockwise, steps, value)
            == value && encoder_value(action, EncoderDirection::CounterClockwise, steps, value)
            == value,
        encoder_value(action, EncoderDirection::Clockwise, 0, value) == value,
        encoder_value(action, EncoderDirection::CounterClockwise, 0, value) == value,
{
}

/// Inside its range an encoder that is turned and turned back is where it was.
pub proof fn law_encoder_turned_back(action: EncoderAction, steps: nat, value: u8)
    requires
        action matches EncoderAction::Cc { min, max, .. } ==> min <= value - steps && value + steps
            <= max,
    ensures
        encoder_value(
            action,
            EncoderDirection::CounterClockwise,
            steps,
            encoder_value(action, EncoderDirection::Clockwise, steps, value),
        ) == value,
        encoder_value(
            action,
            EncoderDirection::Clockwise,
            steps,
            encoder_value(action, EncoderDirection::CounterClockwise, steps, value),
        ) == value,
{
}

/// An absolute encoder sends its value as a CC of its number, of which the low byte
/// counts, on its channel; a relative one sends its increment clockwise and its
/// decrement the other way; one that scrolls the presets sends nothing.
pub proof fn law_encoder_bytes(action: EncoderAction, direction: EncoderDirection, value: u8)
    ensures
        match action {
            EncoderAction::Cc { cc, channel, .. } => 1 <= channel <= 16 ==> (encoder_message(
                action,
                direction,
                value,
            ) matches Some(m) && is_message(m, 0xB0, channel, (cc % 256) as u8, value, 3)),
            EncoderAction::CcRelative { cc, channel, increment, decrement } => 1 <= channel <= 16
                ==> (encoder_message(action, direction, value) matches Some(m) && is_message(
                m,
                0xB0,
                channel,
                cc,
                if direction is Clockwise {
                    increment
                } else {
                    decrement
                },
                3,
            )),
            EncoderAction::PresetScroll => encoder_message(action, direction, value) is None,
        },
{
    lemma_kinds();
    match action {
        EncoderAction::Cc { cc, channel, .. } => {
            assert(#[verifier::truncate] (cc as u8) == cc % 256) by (bit_vector);
            if 1 <= channel <= 16 {
                law_status_byte(0xB0, channel);
            }
        },
        EncoderAction::CcRelative { channel, .. } => if 1 <= channel <= 16 {
            law_status_byte(0xB0, channel);
        },
        _ => {},
    }
}

// --- Pedals ---

/// The value of a pedal is in proportion: as far from its minimum, in its range, as
/// the reading is from the heel, between heel and toe, rounded down.
pub proof fn law_analog_in_proportion(cfg: AnalogConfig, raw: u16, adc_min: u16, adc_max: u16)
    requires
        analog_convertible(cfg, adc_min, adc_max),
        adc_min <= raw <= adc_max,
    ensures
        ({
            let v = analog_value(cfg, raw, adc_min, adc_max) - cfg.min;
            let whole = adc_max - adc_min;
            let part = (raw - adc_min) * (cfg.max - cfg.min);
            v * whole <= part < (v + 1) * whole
        }),
{
    let v = analog_value(cfg, raw, adc_min, adc_max) - cfg.min;
    let whole = adc_max - adc_min;
    let part = (raw - adc_min) * (cfg.max - cfg.min);
    vstd::arithmetic::div_mod::lemma_fundamental_div_mod(part, whole);
    vstd::arithmetic::mul::lemma_mul_is_commutative(whole, v);
    vstd::arithmetic::mul::lemma_mul_is_distributive_add_other_way(whole, v, 1);
}

/// A pedal sends its value as a CC of its number on its channel.
pub proof fn law_analog_bytes(cfg: AnalogConfig, raw: u16, adc_min: u16, adc_max: u16)
    requires
        analog_convertible(cfg, adc_min, adc_max),
        cfg.channel <= 16,
    ensures
        is_message(
            analog_message(cfg, raw, adc_min, adc_max),
            0xB0,
            cfg.channel,
            cfg.cc,
            analog_value(cfg, raw, adc_min, adc_max) as u8,
            3,
        ),
        analog_message(cfg, raw, adc_min, adc_max).data@[2] == analog_value(
            cfg,
            raw,
            adc_min,
            adc_max,
        ),
{
    lemma_kinds();
    law_status_byte(0xB0, cfg.channel);
    law_analog_range(cfg, raw, adc_min, adc_max);
}

// --- Routing ---

/// A set of ports has a union exactly where it has both its parts; it has itself and
/// the empty set; and DIN, USB and BLE are three ports, none of which has another.
pub proof fn law_ports(p: MidiPort, a: MidiPort, b: MidiPort)
    ensures
        p.has(MidiPort { bits: a.bits | b.bits }) <==> p.has(a) && p.has(b),
        p.has(p),
        p.has(MidiPort { bits: 0 }),
        p.has(MidiPort { bits: 1 }) <==> p.bits % 2 == 1,
        p.has(MidiPort { bits: 2 }) <==> p.bits / 2 % 2 == 1,
        p.has(MidiPort { bits: 4 }) <==> p.bits / 4 % 2 == 1,
{
    let x = p.bits;
    let y = a.bits;
    let z = b.bits;
    assert((x & (y | z) == (y | z) <==> (x & y == y && x & z == z)) && x & x == x && x & 0 == 0)
        by (bit_vector);
    assert((x & 1 == 1 <==> x % 2 == 1) && (x & 2 == 2 <==> x / 2 % 2 == 1) && (x & 4 == 4 <==> x
        / 4 % 2 == 1)) by (bit_vector);
}

/// A routed message is for the ports that it was routed to, and holds the first 8
/// bytes of what it was made from, with zeros behind them.
pub proof fn law_routed(data: Seq<u8>, dest: MidiPort, i: int)
    requires
        0 <= i < 8,
    ensures
        MidiOut::routed(data, dest).dest == dest,
        data.len() >= 8 ==> MidiOut::routed(data, dest).len == 8,
        data.len() < 8 ==> MidiOut::routed(data, dest).len == data.len(),
        MidiOut::routed(data, dest).data@[i] == if i < data.len() {
            data[i]
        } else {
            0
        },
{
}

// --- Property exchange ---

/// A message counts as MIDI-CI by its marks alone: not where one of them is another
/// byte or is cut off, and still where any other byte is.
pub proof fn law_ci_marks(buf: Seq<u8>, i: int, b: u8)
    requires
        ci_message(buf),
        0 <= i < buf.len(),
    ensures
        buf[0] == 0xF0 && buf[1] == 0x7E && buf[3] == 0x0D,
        i == 0 || i == 1 || i == 3 ==> (ci_message(buf.update(i, b)) <==> b == buf[i]),
        i != 0 && i != 1 && i != 3 ==> ci_message(buf.update(i, b)),
        i < 15 ==> !ci_message(buf.take(i)),
        ci_message(buf.take(15)),
        set_property(buf) <==> buf[4] == 0x36,
{
}

/// Whatever header a Set Property Inquiry has, the body that is read from it is the
/// one that its length says stands behind the header and the chunk numbers.
pub proof fn law_body_behind_header(
    start: Seq<u8>,
    header: Seq<u8>,
    chunks: Seq<u8>,
    payload: Seq<u8>,
    rest: Seq<u8>,
)
    requires
        start.len() == 15,
        set_property(start),
        header.len() < 16384,
        chunks.len() == 4,
        payload.len() < 16384,
    ensures
        body(
            start + seq![(header.len() % 128) as u8, (header.len() / 128) as u8] + header + chunks
                + seq![(payload.len() % 128) as u8, (payload.len() / 128) as u8] + payload + rest,
        ) == Some(payload),
{
    let msg = start + seq![(header.len() % 128) as u8, (header.len() / 128) as u8] + header + chunks
        + seq![(payload.len() % 128) as u8, (payload.len() / 128) as u8] + payload + rest;
    law_length14((header.len() % 128) as u8, (header.len() / 128) as u8);
    law_length14((payload.len() % 128) as u8, (payload.len() / 128) as u8);
    let at: int = 21 + header.len() as int;
    assert(msg[15] == (header.len() % 128) as u8 && msg[16] == (header.len() / 128) as u8);
    assert(msg[at] == (payload.len() % 128) as u8);
    assert(msg[at + 1] == (payload.len() / 128) as u8);
    assert(msg.subrange(at + 2, at + 2 + payload.len() as int) =~= payload);
}

/// A message that ends before its body does has none.
pub proof fn law_no_half_body(buf: Seq<u8>, n: int)
    requires
        0 <= n <= buf.len(),
    ensures
        body(buf.take(n)) matches Some(part) ==> body(buf) == Some(part),
        body(buf) is None ==> body(buf.take(n)) is None,
{
    if body(buf.take(n)) is Some {
        let cut = buf.take(n);
        let at = crate::property_exchange::body_len_at(cut);
        law_length14(cut[15], cut[16]);
        law_length14(cut[at], cut[at + 1]);
        let len = crate::property_exchange::length14(cut[at], cut[at + 1]);
        assert(cut.subrange(at + 2, at + 2 + len) =~= buf.subrange(at + 2, at + 2 + len));
    }
}

/// An inquiry names its sender, its receiver and its request where a reader looks for
/// them, holds its body between its length and the end mark, and is 24 bytes longer.
pub proof fn law_inquiry_frame(source: Seq<u8>, dest: Seq<u8>, req_id: u8, payload: Seq<u8>)
    requires
        source.len() == 4,
        dest.len() == 4,
    ensures
        ({
            let msg = set_inquiry(source, dest, req_id, payload);
            &&& msg.len() == payload.len() + 24
            &&& msg.take(6) == seq![0xF0u8, 0x7E, 0x7F, 0x0D, 0x36, 0x02]
            &&& msg.subrange(6, 10) == source
            &&& msg.subrange(10, 14) == dest
            &&& msg[14] == req_id
            &&& msg.subrange(15, 21) == seq![0u8, 0, 1, 0, 1, 0]
            &&& payload.len() < 16384 ==> msg[21] + 128 * msg[22] == payload.len()
            &&& msg.subrange(23, 23 + payload.len() as int) == payload
            &&& msg.last() == 0xF7
            &&& request_of(msg) == msg[14]
            &&& sender_of(msg) == msg.subrange(6, 10)
        }),
{
    let msg = set_inquiry(source, dest, req_id, payload);
    assert(msg.take(6) =~= seq![0xF0u8, 0x7E, 0x7F, 0x0D, 0x36, 0x02]);
    assert(msg.subrange(6, 10) =~= source);
    assert(msg.subrange(10, 14) =~= dest);
    assert(msg.subrange(15, 21) =~= seq![0u8, 0, 1, 0, 1, 0]);
    assert(msg.subrange(23, 23 + payload.len() as int) =~= payload);
}

/// A reply is the inquiry for the same request, without a body, the other way round.
pub proof fn law_reply_is_an_empty_answer(device: Seq<u8>, dest: Seq<u8>, req_id: u8)
    requires
        device.len() == 4,
        dest.len() == 4,
    ensures
        set_reply(device, dest, req_id) == set_inquiry(
            device,
            dest,
            req_id,
            Seq::empty(),
        ).update(4, 0x37),
{
    assert(set_reply(device, dest, req_id) =~= set_inquiry(
        device,
        dest,
        req_id,
        Seq::empty(),
    ).update(4, 0x37));
}

} // verus!
