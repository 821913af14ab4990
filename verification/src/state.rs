//! Per-preset runtime state: tracks toggle/cycle/encoder state per preset
//! and generates recall MIDI on preset switch.

use vstd::prelude::*;

use crate::action::{action_to_midi, message, messages, sendable, MidiMessage};
use crate::bounded::{clip, lemma_clip_append, lemma_clip_push, BoundedVec};
use crate::config::{
    status_byte, Action, ButtonConfig, EncoderAction, EncoderConfig, Preset, MAX_BUTTONS,
    MAX_ENCODERS, MAX_PRESETS,
};

verus! {

/// Runtime state for a single preset (not persisted across power cycles).
#[derive(Clone, Copy, Debug, PartialEq, Eq)]
pub struct PresetState<const B: usize, const E: usize> {
    pub button_active: [bool; B],
    pub cycle_index: [u8; B],
    pub encoder_values: [u8; E],
}

/// The runtime state of a preset on the standard board.
pub type DefaultPresetState = PresetState<MAX_BUTTONS, MAX_ENCODERS>;

/// The state of a preset as sequences.
#[verifier::ext_equal]
pub ghost struct StateModel {
    pub button_active: Seq<bool>,
    pub cycle_index: Seq<u8>,
    pub encoder_values: Seq<u8>,
}

impl StateModel {
    /// A preset that was never used.
    pub open spec fn fresh(b: nat, e: nat) -> StateModel {
        StateModel {
            button_active: Seq::new(b, |i: int| false),
            cycle_index: Seq::new(b, |i: int| 0u8),
            encoder_values: Seq::new(e, |i: int| 0u8),
        }
    }

    /// A state of `b` buttons and `e` encoders.
    pub open spec fn sized(self, b: nat, e: nat) -> bool {
        self.button_active.len() == b && self.cycle_index.len() == b && self.encoder_values.len()
            == e
    }
}

impl<const B: usize, const E: usize> View for PresetState<B, E> {
    type V = StateModel;

    open spec fn view(&self) -> StateModel {
        StateModel {
            button_active: self.button_active@,
            cycle_index: self.cycle_index@,
            encoder_values: self.encoder_values@,
        }
    }
}

impl<const B: usize, const E: usize> Default for PresetState<B, E> {
    fn default() -> (r: Self)
        ensures
            r@ == StateModel::fresh(B as nat, E as nat),
    {
        let state: PresetState<B, E> = PresetState {
            button_active: [false; B],
            cycle_index: [0u8; B],
            encoder_values: [0u8; E],
        };
        assert(state@ =~= StateModel::fresh(B as nat, E as nat));
        state
    }
}

// --- Recall ---

/// What a button sends to bring external gear to its state: its on_press actions
/// where it is active, its on_release actions where it is not.
pub open spec fn recall_actions(button: ButtonConfig, active: bool) -> Seq<Action> {
    if active {
        button.on_press@
    } else {
        button.on_release@
    }
}

/// The recall messages of the buttons, in order.
pub open spec fn buttons_recall(buttons: Seq<ButtonConfig>, active: Seq<bool>) -> Seq<MidiMessage>
    decreases buttons.len(),
{
    if buttons.len() == 0 {
        Seq::empty()
    } else {
        buttons_recall(buttons.drop_last(), active) + messages(
            recall_actions(buttons.last(), active[buttons.len() - 1]),
        )
    }
}

/// The recall messages of the encoders, in order: an absolute encoder sends its
/// value, the others have none.
pub open spec fn encoders_recall(encoders: Seq<EncoderConfig>, values: Seq<u8>) -> Seq<MidiMessage>
    decreases encoders.len(),
{
    if encoders.len() == 0 {
        Seq::empty()
    } else {
        let before = encoders_recall(encoders.drop_last(), values);
        match encoders.last().action {
            EncoderAction::Cc { cc, channel, .. } => before.push(
                message(
                    status_byte(0xB0, channel),
                    #[verifier::truncate] (cc as u8),
                    values[encoders.len() - 1],
                    3,
                ),
            ),
            _ => before,
        }
    }
}

/// The messages that bring external gear to a preset's state, at most 16.
pub open spec fn recall<const B: usize, const E: usize, const A: usize>(
    preset: Preset<B, E, A>,
    state: StateModel,
) -> Seq<MidiMessage> {
    clip(
        buttons_recall(preset.buttons@, state.button_active) + encoders_recall(
            preset.encoders@,
            state.encoder_values,
        ),
        16,
    )
}

/// Whether every message of a recall has a channel.
pub open spec fn recallable<const B: usize, const E: usize, const A: usize>(
    preset: Preset<B, E, A>,
    state: StateModel,
) -> bool {
    &&& forall|i: int, k: int|
        #![trigger recall_actions(preset.buttons@[i], state.button_active[i])[k]]
        0 <= i < preset.buttons@.len() && 0 <= k < recall_actions(
            preset.buttons@[i],
            state.button_active[i],
        ).len() ==> sendable(recall_actions(preset.buttons@[i], state.button_active[i])[k])
    &&& forall|i: int|
        #![trigger preset.encoders@[i]]
        0 <= i < preset.encoders@.len() ==> (
        preset.encoders@[i].action matches EncoderAction::Cc { channel, .. } ==> channel >= 1)
}

/// Appends the messages that the actions of a list are by themselves.
fn recall_list(actions: &[Action], out: &mut BoundedVec<MidiMessage, 16>)
    requires
        forall|k: int| 0 <= k < actions@.len() ==> sendable(#[trigger] actions@[k]),
    ensures
        final(out)@ == clip(old(out)@ + messages(actions@), 16),
{
    // A list never holds more than it has room for
    let _ = out.as_slice();
    let ghost before = out@;
    assert(before + messages(actions@.take(0)) =~= before);
    let mut i: usize = 0;
    while i < actions.len()
        invariant
            i <= actions@.len(),
            forall|k: int| 0 <= k < actions@.len() ==> sendable(#[trigger] actions@[k]),
            out@ == clip(before + messages(actions@.take(i as int)), 16),
        decreases actions@.len() - i,
    {
        let ghost sent = messages(actions@.take(i as int));
        assert(actions@.take(i + 1).drop_last() =~= actions@.take(i as int));
        if let Some(msg) = action_to_midi(&actions[i]) {
            proof {
                lemma_clip_push(before + sent, msg, 16);
                assert((before + sent).push(msg) =~= before + sent.push(msg));
            }
            let _ = out.push(msg);
        }
        i += 1;
    }
    assert(actions@.take(i as int) =~= actions@);
}

// --- Store ---

/// Manages per-preset state and generates recall MIDI on switch.
#[derive(Clone, Copy)]
pub struct PresetStateStore<const B: usize, const E: usize> {
    pub states: [PresetState<B, E>; MAX_PRESETS],
    pub active: u8,
}

/// The store of the standard board.
pub type DefaultPresetStateStore = PresetStateStore<MAX_BUTTONS, MAX_ENCODERS>;

/// The state of every preset, and which one is active.
#[verifier::ext_equal]
pub ghost struct StoreModel {
    pub states: Seq<StateModel>,
    pub active: u8,
}

impl StoreModel {
    /// A store in which no preset was used.
    pub open spec fn fresh(b: nat, e: nat) -> StoreModel {
        StoreModel {
            states: Seq::new(MAX_PRESETS as nat, |i: int| StateModel::fresh(b, e)),
            active: 0,
        }
    }

    /// A store for every preset, all of `b` buttons and `e` encoders, whose active
    /// preset is one of them.
    pub open spec fn valid(self, b: nat, e: nat) -> bool {
        &&& self.states.len() == MAX_PRESETS
        &&& self.active < MAX_PRESETS
        &&& forall|i: int| 0 <= i < self.states.len() ==> (#[trigger] self.states[i]).sized(b, e)
    }

    /// The state of the active preset.
    pub open spec fn current(self) -> StateModel {
        self.states[self.active as int]
    }

    /// The store once the active preset's state is `working`.
    pub open spec fn saved(self, working: StateModel) -> StoreModel {
        StoreModel { states: self.states.update(self.active as int, working), ..self }
    }

    /// The store once `working` is saved and `new_preset` is active.
    pub open spec fn switched(self, new_preset: u8, working: StateModel) -> StoreModel {
        StoreModel { active: new_preset, ..self.saved(working) }
    }
}

impl<const B: usize, const E: usize> View for PresetStateStore<B, E> {
    type V = StoreModel;

    open spec fn view(&self) -> StoreModel {
        StoreModel {
            states: Seq::new(MAX_PRESETS as nat, |i: int| self.states@[i]@),
            active: self.active,
        }
    }
}

/// Switching away from a preset, to any preset, and back brings its state back, and
/// leaves every other state as it was.
pub proof fn law_switch_roundtrip(
    store: StoreModel,
    working: StateModel,
    other: u8,
    b: nat,
    e: nat,
)
    requires
        store.valid(b, e),
        other < MAX_PRESETS,
    ensures
        ({
            let away = store.switched(other, working);
            let back = away.switched(store.active, away.current());
            &&& away.current() == if other == store.active {
                working
            } else {
                store.states[other as int]
            }
            &&& back.current() == working
            &&& back == store.saved(working)
        }),
{
    let away = store.switched(other, working);
    let back = away.switched(store.active, away.current());
    assert(back.states =~= store.saved(working).states);
}

impl<const B: usize, const E: usize> Default for PresetStateStore<B, E> {
    fn default() -> (r: Self)
        ensures
            r@ == StoreModel::fresh(B as nat, E as nat),
    {
        Self::new()
    }
}

impl<const B: usize, const E: usize> PresetStateStore<B, E> {
    pub fn new() -> (r: Self)
        ensures
            r@ == StoreModel::fresh(B as nat, E as nat),
    {
        let fresh: PresetState<B, E> = PresetState::default();
        let store: PresetStateStore<B, E> = PresetStateStore {
            states: [fresh; MAX_PRESETS],
            active: 0,
        };
        assert forall|i: int| 0 <= i < MAX_PRESETS implies #[trigger] store.states@[i]
            == fresh by {}
        assert(store@.states =~= StoreModel::fresh(B as nat, E as nat).states);
        store
    }

    /// Get a reference to the current active preset's state.
    pub fn current(&self) -> (r: &PresetState<B, E>)
        requires
            self.active < MAX_PRESETS,
        ensures
            r@ == self@.current(),
            *r == self.states@[self.active as int],
    {
        &self.states[self.active as usize]
    }

    /// Get a mutable reference to the current active preset's state.
    pub fn current_mut(&mut self) -> (r: &mut PresetState<B, E>)
        requires
            old(self).active < MAX_PRESETS,
        ensures
            r@ == old(self)@.current(),
            final(self)@ == old(self)@.saved(final(r)@),
    {
        let active: usize = self.active as usize;
        &mut self.states[active]
    }

    /// Current active preset index.
    pub fn active_index(&self) -> (r: u8)
        ensures
            r == self@.active,
    {
        self.active
    }

    /// Save working state into the active preset slot (for serialization without switching).
    pub fn save_working(&mut self, working: &PresetState<B, E>)
        requires
            old(self).active < MAX_PRESETS,
        ensures
            final(self)@ == old(self)@.saved(working@),
    {
        self.states[self.active as usize] = *working;
        assert(self@ =~= old(self)@.saved(working@));
    }

    /// Switch to a new preset. Saves current working state, loads new state,
    /// and returns MIDI messages to recall the new preset's state to external gear.
    pub fn switch<const A: usize>(
        &mut self,
        new_preset: u8,
        working: &mut PresetState<B, E>,
        preset: &Preset<B, E, A>,
    ) -> (r: BoundedVec<MidiMessage, 16>)
        requires
            old(self).active < MAX_PRESETS,
            new_preset < MAX_PRESETS,
            recallable(*preset, old(self)@.switched(new_preset, old(working)@).current()),
        ensures
            final(self)@ == old(self)@.switched(new_preset, old(working)@),
            final(working)@ == final(self)@.current(),
            r@ == recall(*preset, final(working)@),
    {
        let mut recall_out: BoundedVec<MidiMessage, 16> = BoundedVec::new();

        // Save current working state
        self.save_working(working);

        // Load new state into working
        self.active = new_preset;
        *working = self.states[new_preset as usize];
        assert(self@ =~= old(self)@.switched(new_preset, old(working)@));
        let ghost state = working@;

        // Recall: send MIDI state to external gear
        let buttons = preset.buttons.as_slice();
        let mut i: usize = 0;
        while i < buttons.len()
            invariant
                i <= buttons@.len() <= B,
                buttons@ == preset.buttons@,
                working@ == state,
                recallable(*preset, state),
                recall_out@ == clip(
                    buttons_recall(buttons@.take(i as int), state.button_active),
                    16,
                ),
            decreases buttons@.len() - i,
        {
            let btn = &buttons[i];
            let actions = if working.button_active[i] {
                btn.on_press.as_slice()
            } else {
                btn.on_release.as_slice()
            };
            proof {
                assert(actions@ == recall_actions(preset.buttons@[i as int], state.button_active[i as int]));
                assert(buttons@.take(i + 1).drop_last() =~= buttons@.take(i as int));
                lemma_clip_append(
                    buttons_recall(buttons@.take(i as int), state.button_active),
                    messages(actions@),
                    16,
                );
            }
            recall_list(actions, &mut recall_out);
            i += 1;
        }
        assert(buttons@.take(i as int) =~= buttons@);
        let ghost from_buttons = buttons_recall(preset.buttons@, state.button_active);

        // Recall encoder values
        let encoders = preset.encoders.as_slice();
        assert(from_buttons + encoders_recall(encoders@.take(0), state.encoder_values)
            =~= from_buttons);
        let mut j: usize = 0;
        while j < encoders.len()
            invariant
                j <= encoders@.len() <= E,
                encoders@ == preset.encoders@,
                working@ == state,
                recallable(*preset, state),
                recall_out@ == clip(
                    from_buttons + encoders_recall(encoders@.take(j as int), state.encoder_values),
                    16,
                ),
            decreases encoders@.len() - j,
        {
            assert(encoders@.take(j + 1).drop_last() =~= encoders@.take(j as int));
            let ghost sent = encoders_recall(encoders@.take(j as int), state.encoder_values);
            if let EncoderAction::Cc { cc, channel, .. } = &encoders[j].action {
                let msg = MidiMessage {
                    data: [
                        0xB0 | (*channel - 1),
                        #[verifier::truncate] (*cc as u8),
                        working.encoder_values[j],
                    ],
                    len: 3,
                };
                proof {
                    lemma_clip_push(from_buttons + sent, msg, 16);
                    assert((from_buttons + sent).push(msg) =~= from_buttons + sent.push(msg));
                }
                let _ = recall_out.push(msg);
            }
            j += 1;
        }
        assert(encoders@.take(j as int) =~= encoders@);
        recall_out
    }
}

// --- EEPROM persistence (AT24CS01: 128 bytes) ---

const EEPROM_MAGIC: u8 = 0xED;

/// Magic and active preset.
const EEPROM_HEADER_SIZE: usize = 2;

/// 6 toggle bytes, 6 cycle bytes, 2 encoder bytes.
const PRESET_STATE_SIZE: usize = 14;

/// Maximum presets that fit in 128 bytes.
pub const EEPROM_MAX_PRESETS: usize = 9;

/// The bytes of a state: for each button 1 where it is active and 0 where it is
/// not, then the cycle positions, then the encoder values.
pub open spec fn state_bytes(state: StateModel) -> Seq<u8> {
    state.button_active.map_values(
        |active: bool|
            if active {
                1u8
            } else {
                0u8
            },
    ) + state.cycle_index + state.encoder_values
}

/// The state of 6 buttons and 2 encoders that 14 bytes stand for: a button is
/// active where its byte is not 0.
pub open spec fn bytes_state(bytes: Seq<u8>) -> StateModel {
    StateModel {
        button_active: Seq::new(6, |i: int| bytes[i] != 0),
        cycle_index: bytes.subrange(6, 12),
        encoder_values: bytes.subrange(12, 14),
    }
}

/// The EEPROM image of a store: the magic, the active preset, and the bytes of the
/// states that fit, one after the other.
pub open spec fn eeprom_image(store: StoreModel) -> Seq<u8> {
    Seq::new(
        128,
        |k: int|
            if k == 0 {
                0xEDu8
            } else if k == 1 {
                store.active
            } else {
                state_bytes(store.states[(k - 2) / 14])[(k - 2) % 14]
            },
    )
}

/// The store that an EEPROM image stands for: states that do not fit in it are
/// fresh.
pub open spec fn image_store(image: Seq<u8>) -> StoreModel {
    StoreModel {
        states: Seq::new(
            MAX_PRESETS as nat,
            |i: int|
                if i < EEPROM_MAX_PRESETS {
                    bytes_state(image.subrange(2 + 14 * i, 16 + 14 * i))
                } else {
                    StateModel::fresh(6, 2)
                },
        ),
        active: image[1],
    }
}

/// The bytes of a state give the state back.
pub proof fn law_state_bytes_roundtrip(state: StateModel)
    requires
        state.sized(6, 2),
    ensures
        state_bytes(state).len() == 14,
        bytes_state(state_bytes(state)) == state,
{
    let bytes = state_bytes(state);
    assert(bytes_state(bytes).button_active =~= state.button_active);
    assert(bytes_state(bytes).cycle_index =~= state.cycle_index);
    assert(bytes_state(bytes).encoder_values =~= state.encoder_values);
}

/// The EEPROM image of a store gives back its active preset and the states of the
/// presets that fit; the others come back fresh.
pub proof fn law_eeprom_roundtrip(store: StoreModel, i: int)
    requires
        store.states.len() == MAX_PRESETS,
        forall|k: int| 0 <= k < MAX_PRESETS ==> (#[trigger] store.states[k]).sized(6, 2),
        0 <= i < MAX_PRESETS,
    ensures
        eeprom_image(store).len() == 128,
        eeprom_image(store)[0] == 0xED,
        image_store(eeprom_image(store)).active == store.active,
        image_store(eeprom_image(store)).states[i] == if i < EEPROM_MAX_PRESETS {
            store.states[i]
        } else {
            StateModel::fresh(6, 2)
        },
        store.active < MAX_PRESETS ==> image_store(eeprom_image(store)).valid(6, 2),
{
    let image = eeprom_image(store);
    if i < EEPROM_MAX_PRESETS {
        assert(store.states[i].sized(6, 2));
        assert(image.subrange(2 + 14 * i, 16 + 14 * i) =~= state_bytes(store.states[i]));
        law_state_bytes_roundtrip(store.states[i]);
    }
}

impl PresetState<MAX_BUTTONS, MAX_ENCODERS> {
    /// Serialize to a 14-byte buffer.
    pub fn to_bytes(&self, buf: &mut [u8; PRESET_STATE_SIZE])
        ensures
            final(buf)@ == state_bytes(self@),
    {
        let mut i: usize = 0;
        while i < MAX_BUTTONS
            invariant
                i <= MAX_BUTTONS,
                forall|k: int| 0 <= k < i ==> #[trigger] buf@[k] == state_bytes(self@)[k],
                forall|k: int| 6 <= k < 6 + i ==> #[trigger] buf@[k] == state_bytes(self@)[k],
            decreases MAX_BUTTONS - i,
        {
            buf[i] = if self.button_active[i] {
                1
            } else {
                0
            };
            buf[MAX_BUTTONS + i] = self.cycle_index[i];
            i += 1;
        }
        buf[12] = self.encoder_values[0];
        buf[13] = self.encoder_values[1];
        assert(buf@ =~= state_bytes(self@));
    }

    /// Deserialize from a 14-byte buffer.
    pub fn from_bytes(buf: &[u8; PRESET_STATE_SIZE]) -> (r: Self)
        ensures
            r@ == bytes_state(buf@),
    {
        let mut state: Self = Self::default();
        let mut i: usize = 0;
        while i < MAX_BUTTONS
            invariant
                i <= MAX_BUTTONS,
                forall|k: int|
                    0 <= k < i ==> #[trigger] state.button_active@[k] == (buf@[k] != 0),
                forall|k: int| 0 <= k < i ==> #[trigger] state.cycle_index@[k] == buf@[6 + k],
            decreases MAX_BUTTONS - i,
        {
            state.button_active[i] = buf[i] != 0;
            state.cycle_index[i] = buf[MAX_BUTTONS + i];
            i += 1;
        }
        state.encoder_values[0] = buf[12];
        state.encoder_values[1] = buf[13];
        assert(state@ =~= bytes_state(buf@));
        state
    }
}

impl PresetStateStore<MAX_BUTTONS, MAX_ENCODERS> {
    /// Serialize entire store to EEPROM buffer (128 bytes).
    /// Layout: [magic][active_preset][state0..stateN]
    pub fn to_eeprom(&self, buf: &mut [u8; 128])
        ensures
            final(buf)@ == eeprom_image(self@),
    {
        buf[0] = EEPROM_MAGIC;
        buf[1] = self.active;
        let mut i: usize = 0;
        while i < EEPROM_MAX_PRESETS
            invariant
                i <= EEPROM_MAX_PRESETS,
                forall|k: int|
                    0 <= k < 2 + 14 * i ==> #[trigger] buf@[k] == eeprom_image(self@)[k],
            decreases EEPROM_MAX_PRESETS - i,
        {
            let offset: usize = EEPROM_HEADER_SIZE + i * PRESET_STATE_SIZE;
            let mut state_buf: [u8; PRESET_STATE_SIZE] = [0u8; PRESET_STATE_SIZE];
            self.states[i].to_bytes(&mut state_buf);
            assert(state_buf@ == state_bytes(self@.states[i as int]));
            let mut j: usize = 0;
            while j < PRESET_STATE_SIZE
                invariant
                    i < EEPROM_MAX_PRESETS,
                    j <= PRESET_STATE_SIZE,
                    offset == 2 + 14 * i,
                    state_buf@ == state_bytes(self@.states[i as int]),
                    forall|k: int|
                        0 <= k < offset + j ==> #[trigger] buf@[k] == eeprom_image(self@)[k],
                decreases PRESET_STATE_SIZE - j,
            {
                buf[offset + j] = state_buf[j];
                assert((offset + j - 2) / 14 == i && (offset + j - 2) % 14 == j);
                j += 1;
            }
            i += 1;
        }
        assert(buf@ =~= eeprom_image(self@));
    }

    /// Deserialize from EEPROM buffer. Returns None if magic doesn't match.
    pub fn from_eeprom(buf: &[u8; 128]) -> (r: Option<Self>)
        ensures
            r is Some <==> buf@[0] == 0xED,
            r matches Some(store) ==> store@ == image_store(buf@),
    {
        if buf[0] != EEPROM_MAGIC {
            return None;
        }
        let mut store: Self = Self::new();
        store.active = buf[1];
        let ghost fresh = StateModel::fresh(6, 2);
        assert forall|k: int| 0 <= k < MAX_PRESETS implies (#[trigger] store.states@[k])@
            == fresh by {
            assert(store@.states[k] == fresh);
        }
        let mut i: usize = 0;
        while i < EEPROM_MAX_PRESETS
            invariant
                i <= EEPROM_MAX_PRESETS,
                fresh == StateModel::fresh(6, 2),
                store.active == buf@[1],
                forall|k: int|
                    0 <= k < i ==> (#[trigger] store.states@[k])@ == bytes_state(
                        buf@.subrange(2 + 14 * k, 16 + 14 * k),
                    ),
                forall|k: int| i <= k < MAX_PRESETS ==> (#[trigger] store.states@[k])@ == fresh,
            decreases EEPROM_MAX_PRESETS - i,
        {
            let offset: usize = EEPROM_HEADER_SIZE + i * PRESET_STATE_SIZE;
            let mut state_buf: [u8; PRESET_STATE_SIZE] = [0u8; PRESET_STATE_SIZE];
            let mut j: usize = 0;
            while j < PRESET_STATE_SIZE
                invariant
                    i < EEPROM_MAX_PRESETS,
                    j <= PRESET_STATE_SIZE,
                    offset == 2 + 14 * i,
                    forall|k: int| 0 <= k < j ==> #[trigger] state_buf@[k] == buf@[offset + k],
                decreases PRESET_STATE_SIZE - j,
            {
                state_buf[j] = buf[offset + j];
                j += 1;
            }
            assert(state_buf@ =~= buf@.subrange(2 + 14 * i, 16 + 14 * i));
            store.states[i] = PresetState::from_bytes(&state_buf);
            i += 1;
        }
        assert(store@ =~= image_store(buf@));
        Some(store)
    }
}

} // verus!
