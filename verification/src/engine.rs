//! Preset engine: processes abstract input events against preset config.
//! Pure business logic: no hardware dependencies.

use vstd::prelude::*;

use crate::action::{
    action_message, action_to_midi, analog_cc_calibrated, analog_convertible, analog_message,
    encoder_cc, encoder_message, encoder_sendable, encoder_value, message, sendable,
    EncoderDirection, MidiMessage,
};
use crate::bounded::{clip, lemma_clip_push, BoundedVec};
use crate::config::{
    status_byte, Action, ButtonConfig, ButtonMode, EncoderAction, EncoderConfig, Label, ListenCc,
    ListenMode, Preset, Trigger, TriggerAction, TriggerMatch, MAX_ACTIONS, MAX_CYCLE_VALUES,
};
use crate::state::{PresetState, StateModel};

verus! {

/// Abstract button event after long-press detection is resolved.
#[derive(Debug, Clone, Copy, PartialEq, Eq, Structural)]
pub enum ButtonEvent {
    /// Short press (or immediate press if no long-press configured)
    Press,
    /// Release (for momentary mode)
    Release,
    /// Long press (held past threshold)
    LongPress,
}

/// System-level actions that transcend MIDI output.
#[derive(Debug, Clone, Copy, PartialEq, Eq, Structural)]
pub enum SystemAction {
    PresetNext,
    PresetPrev,
    PresetSelect(u8),
    SetBpm(u16),
    TapTempo,
}

/// Which display to show an overlay on.
#[derive(Debug, Clone, Copy, PartialEq, Eq, Structural)]
pub enum DisplaySide {
    L,
    R,
}

/// Display events emitted directly from actions.
#[derive(Debug, PartialEq, Eq)]
pub enum DisplayEvent {
    EncoderOverlay { side: DisplaySide, label: Label, value: u8 },
    AnalogOverlay { side: DisplaySide, label: Label, value: u8 },
    /// Shown while holding a button with on_long_press (before threshold fires)
    LongPressHint { action: SystemAction },
    /// Clear the hint (button released before threshold)
    LongPressCancel,
    /// Shown when the tempo changes
    BpmOverlay { bpm: u16 },
}

impl Clone for DisplayEvent {
    fn clone(&self) -> (r: Self)
        ensures
            r == *self,
    {
        match self {
            DisplayEvent::EncoderOverlay { side, label, value } => DisplayEvent::EncoderOverlay {
                side: *side,
                label: label.clone(),
                value: *value,
            },
            DisplayEvent::AnalogOverlay { side, label, value } => DisplayEvent::AnalogOverlay {
                side: *side,
                label: label.clone(),
                value: *value,
            },
            DisplayEvent::LongPressHint { action } => DisplayEvent::LongPressHint {
                action: *action,
            },
            DisplayEvent::LongPressCancel => DisplayEvent::LongPressCancel,
            DisplayEvent::BpmOverlay { bpm } => DisplayEvent::BpmOverlay { bpm: *bpm },
        }
    }
}

/// A single step in an action sequence: either a MIDI message or a delay.
#[derive(Debug, Clone, Copy, PartialEq, Eq)]
pub enum ActionStep {
    Send(MidiMessage),
    Delay(u16),
}

/// Result of processing an input event.
pub struct EngineResult {
    pub midi: BoundedVec<ActionStep, 8>,
    pub system: BoundedVec<SystemAction, 2>,
    pub display: BoundedVec<DisplayEvent, 2>,
    pub led_dirty: bool,
}

/// What an input event brings about.
#[verifier::ext_equal]
pub ghost struct EngineModel {
    pub midi: Seq<ActionStep>,
    pub system: Seq<SystemAction>,
    pub display: Seq<DisplayEvent>,
    pub led_dirty: bool,
}

impl EngineModel {
    /// Nothing at all.
    pub open spec fn nothing() -> EngineModel {
        EngineModel {
            midi: Seq::empty(),
            system: Seq::empty(),
            display: Seq::empty(),
            led_dirty: false,
        }
    }
}

impl View for EngineResult {
    type V = EngineModel;

    open spec fn view(&self) -> EngineModel {
        EngineModel {
            midi: self.midi@,
            system: self.system@,
            display: self.display@,
            led_dirty: self.led_dirty,
        }
    }
}

impl EngineResult {
    fn new() -> (r: Self)
        ensures
            r@ == EngineModel::nothing(),
    {
        EngineResult {
            midi: BoundedVec::new(),
            system: BoundedVec::new(),
            display: BoundedVec::new(),
            led_dirty: false,
        }
    }
}

// --- Action lists ---

/// Whether the message that an action sends from a button with these cycle values
/// has a channel.
pub open spec fn executable(action: Action, cycle_values: Seq<u8>) -> bool {
    match action {
        Action::CcCycle { channel, .. } => cycle_values.len() > 0 ==> channel >= 1,
        _ => sendable(action),
    }
}

/// Whether that holds of every action of a list.
pub open spec fn all_executable(actions: Seq<Action>, cycle_values: Seq<u8>) -> bool {
    forall|k: int| 0 <= k < actions.len() ==> executable(#[trigger] actions[k], cycle_values)
}

/// What an action asks of the system. A bank is a single preset.
pub open spec fn system_action(action: Action) -> Option<SystemAction> {
    match action {
        Action::PresetNext | Action::BankUp => Some(SystemAction::PresetNext),
        Action::PresetPrev | Action::BankDown => Some(SystemAction::PresetPrev),
        Action::PresetSelect(idx) => Some(SystemAction::PresetSelect(idx)),
        Action::TapTempo => Some(SystemAction::TapTempo),
        _ => None,
    }
}

/// What a list of actions asks of the system, in order.
pub open spec fn system_actions(actions: Seq<Action>) -> Seq<SystemAction>
    decreases actions.len(),
{
    if actions.len() == 0 {
        Seq::empty()
    } else {
        match system_action(actions.last()) {
            Some(s) => system_actions(actions.drop_last()).push(s),
            None => system_actions(actions.drop_last()),
        }
    }
}

/// The step that an action is where the button's cycle stands at `cycle_index`.
pub open spec fn action_step(
    action: Action,
    cycle_values: Seq<u8>,
    cycle_index: u8,
) -> Option<ActionStep> {
    match action {
        Action::Delay(ms) => Some(ActionStep::Delay(ms)),
        Action::CcCycle { cc, channel, .. } => if cycle_values.len() == 0 {
            None
        } else {
            Some(
                ActionStep::Send(
                    message(
                        status_byte(0xB0, channel),
                        cc,
                        cycle_values[cycle_index as int % cycle_values.len() as int],
                        3,
                    ),
                ),
            )
        },
        _ => match action_message(action) {
            Some(m) => Some(ActionStep::Send(m)),
            None => None,
        },
    }
}

/// Where a cycle of `len` values stands after an action.
pub open spec fn cycle_next(action: Action, len: nat, cycle_index: u8) -> u8 {
    match action {
        Action::CcCycle { reverse, .. } => if len == 0 {
            cycle_index
        } else if !reverse {
            ((cycle_index + 1) % len as int) as u8
        } else if cycle_index == 0 {
            (len - 1) as u8
        } else {
            (cycle_index - 1) as u8
        },
        _ => cycle_index,
    }
}

/// Where a cycle of `len` values stands after a list of actions.
pub open spec fn cycle_after(actions: Seq<Action>, len: nat, cycle_index: u8) -> u8
    decreases actions.len(),
{
    if actions.len() == 0 {
        cycle_index
    } else {
        cycle_next(actions.last(), len, cycle_after(actions.drop_last(), len, cycle_index))
    }
}

/// The steps of a list of actions, in order, where the button's cycle stands at
/// `cycle_index` at first.
pub open spec fn action_steps(
    actions: Seq<Action>,
    cycle_values: Seq<u8>,
    cycle_index: u8,
) -> Seq<ActionStep>
    decreases actions.len(),
{
    if actions.len() == 0 {
        Seq::empty()
    } else {
        let before = action_steps(actions.drop_last(), cycle_values, cycle_index);
        match action_step(
            actions.last(),
            cycle_values,
            cycle_after(actions.drop_last(), cycle_values.len(), cycle_index),
        ) {
            Some(step) => before.push(step),
            None => before,
        }
    }
}

/// Runs the actions of a list: appends their steps to `midi` and what they ask of
/// the system to `system`, as far as there is room, and moves the cycle.
pub(crate) fn execute_actions(
    actions: &BoundedVec<Action, MAX_ACTIONS>,
    cycle_values: &BoundedVec<u8, MAX_CYCLE_VALUES>,
    midi: &mut BoundedVec<ActionStep, 8>,
    system: &mut BoundedVec<SystemAction, 2>,
    cycle_index: &mut u8,
)
    requires
        all_executable(actions@, cycle_values@),
    ensures
        final(midi)@ == clip(
            old(midi)@ + action_steps(actions@, cycle_values@, *old(cycle_index)),
            8,
        ),
        final(system)@ == clip(old(system)@ + system_actions(actions@), 2),
        *final(cycle_index) == cycle_after(actions@, cycle_values@.len(), *old(cycle_index)),
{
    let list = actions.as_slice();
    let values = cycle_values.as_slice();
    // A list never holds more than it has room for
    let _ = midi.as_slice();
    let _ = system.as_slice();
    let ghost midi0 = midi@;
    let ghost system0 = system@;
    let ghost index0 = *cycle_index;
    assert(midi0 + action_steps(list@.take(0), values@, index0) =~= midi0);
    assert(system0 + system_actions(list@.take(0)) =~= system0);
    let mut i: usize = 0;
    while i < list.len()
        invariant
            i <= list@.len(),
            values@.len() <= 12,
            all_executable(list@, values@),
            midi@ == clip(midi0 + action_steps(list@.take(i as int), values@, index0), 8),
            system@ == clip(system0 + system_actions(list@.take(i as int)), 2),
            *cycle_index == cycle_after(list@.take(i as int), values@.len(), index0),
        decreases list@.len() - i,
    {
        let ghost action0 = list@[i as int];
        let ghost index1 = *cycle_index;
        let ghost steps = action_steps(list@.take(i as int), values@, index0);
        let ghost asked = system_actions(list@.take(i as int));
        proof {
            assert(list@.take(i + 1).drop_last() =~= list@.take(i as int));
            assert(executable(action0, values@));
            if let Some(step) = action_step(action0, values@, index1) {
                lemma_clip_push(midi0 + steps, step, 8);
                assert((midi0 + steps).push(step) =~= midi0 + steps.push(step));
            }
            if let Some(s) = system_action(action0) {
                lemma_clip_push(system0 + asked, s, 2);
                assert((system0 + asked).push(s) =~= system0 + asked.push(s));
            }
        }
        match &list[i] {
            Action::PresetNext => {
                let _ = system.push(SystemAction::PresetNext);
            },
            Action::PresetPrev => {
                let _ = system.push(SystemAction::PresetPrev);
            },
            Action::PresetSelect(idx) => {
                let _ = system.push(SystemAction::PresetSelect(*idx));
            },
            // Bank actions are PresetSelect with page arithmetic.
            // Requires runtime context (active preset, page size) not available here.
            // Handled as PresetNext/PresetPrev until bank concept is defined.
            Action::BankUp => {
                let _ = system.push(SystemAction::PresetNext);
            },
            Action::BankDown => {
                let _ = system.push(SystemAction::PresetPrev);
            },
            Action::TapTempo => {
                let _ = system.push(SystemAction::TapTempo);
            },
            Action::Delay(ms) => {
                let _ = midi.push(ActionStep::Delay(*ms));
            },
            Action::CcCycle { cc, channel, reverse } => {
                if values.len() > 0 {
                    let idx: usize = (*cycle_index as usize) % values.len();
                    let value: u8 = values[idx];
                    let _ = midi.push(
                        ActionStep::Send(
                            MidiMessage { data: [0xB0 | (*channel - 1), *cc, value], len: 3 },
                        ),
                    );
                    if *reverse {
                        *cycle_index = if *cycle_index == 0 {
                            (values.len() - 1) as u8
                        } else {
                            *cycle_index - 1
                        };
                    } else {
                        *cycle_index = ((*cycle_index as usize + 1) % values.len()) as u8;
                    }
                }
            },
            other => {
                if let Some(msg) = action_to_midi(other) {
                    let _ = midi.push(ActionStep::Send(msg));
                }
            },
        }
        i += 1;
    }
    assert(list@.take(i as int) =~= list@);
}

// --- Buttons ---

/// Which buttons are active after a press of button `idx`: a toggle flips, a
/// momentary button is on, and a radio button is on while the others of its group
/// go off.
pub open spec fn active_after_press(
    buttons: Seq<ButtonConfig>,
    active: Seq<bool>,
    idx: int,
) -> Seq<bool> {
    match buttons[idx].mode {
        ButtonMode::Toggle => active.update(idx, !active[idx]),
        ButtonMode::Momentary => active.update(idx, true),
        ButtonMode::RadioGroup(group) => Seq::new(
            active.len(),
            |j: int|
                j == idx || active[j] && !(j < buttons.len() && buttons[j].mode
                    == ButtonMode::RadioGroup(group)),
        ),
    }
}

/// Which buttons are active after an event of button `idx`.
pub open spec fn active_after(
    buttons: Seq<ButtonConfig>,
    active: Seq<bool>,
    idx: int,
    event: ButtonEvent,
) -> Seq<bool> {
    match event {
        ButtonEvent::Press => active_after_press(buttons, active, idx),
        ButtonEvent::Release => if buttons[idx].mode == ButtonMode::Momentary {
            active.update(idx, false)
        } else {
            active
        },
        ButtonEvent::LongPress => active,
    }
}

/// The actions that an event of a button runs: a toggle that goes off runs its
/// on_release actions, and only a momentary button has a release.
pub open spec fn event_actions(button: ButtonConfig, active: bool, event: ButtonEvent) -> Seq<
    Action,
> {
    match event {
        ButtonEvent::Press => if button.mode == ButtonMode::Toggle && active {
            button.on_release@
        } else {
            button.on_press@
        },
        ButtonEvent::Release => if button.mode == ButtonMode::Momentary {
            button.on_release@
        } else {
            Seq::empty()
        },
        ButtonEvent::LongPress => button.on_long_press@,
    }
}

/// Whether every action that an event of button `idx` runs has a channel.
pub open spec fn button_executable(
    buttons: Seq<ButtonConfig>,
    state: StateModel,
    idx: int,
    event: ButtonEvent,
) -> bool {
    idx < buttons.len() ==> all_executable(
        event_actions(buttons[idx], state.button_active[idx], event),
        buttons[idx].cycle_values@,
    )
}

/// The state after an event of button `idx`. A button that is not there changes
/// nothing.
pub open spec fn state_after_button(
    buttons: Seq<ButtonConfig>,
    state: StateModel,
    idx: int,
    event: ButtonEvent,
) -> StateModel {
    if idx < buttons.len() {
        StateModel {
            button_active: active_after(buttons, state.button_active, idx, event),
            cycle_index: state.cycle_index.update(
                idx,
                cycle_after(
                    event_actions(buttons[idx], state.button_active[idx], event),
                    buttons[idx].cycle_values@.len(),
                    state.cycle_index[idx],
                ),
            ),
            ..state
        }
    } else {
        state
    }
}

/// What an event of button `idx` brings about: the steps of the actions that it
/// runs, and what they ask of the system.
pub open spec fn button_output(
    buttons: Seq<ButtonConfig>,
    state: StateModel,
    idx: int,
    event: ButtonEvent,
) -> EngineModel {
    if idx < buttons.len() {
        let actions = event_actions(buttons[idx], state.button_active[idx], event);
        EngineModel {
            midi: clip(
                action_steps(actions, buttons[idx].cycle_values@, state.cycle_index[idx]),
                8,
            ),
            system: clip(system_actions(actions), 2),
            display: Seq::empty(),
            led_dirty: event == ButtonEvent::Press || event == ButtonEvent::Release
                && buttons[idx].mode == ButtonMode::Momentary,
        }
    } else {
        EngineModel::nothing()
    }
}

/// Switches off every button of a radio group but the button `btn_idx`, which it
/// switches on.
fn select_in_group<const B: usize, const E: usize, const A: usize>(
    state: &mut PresetState<B, E>,
    preset: &Preset<B, E, A>,
    btn_idx: usize,
    group: u8,
)
    requires
        btn_idx < preset.buttons@.len() <= B,
        preset.buttons@[btn_idx as int].mode == ButtonMode::RadioGroup(group),
    ensures
        final(state)@ == (StateModel {
            button_active: active_after_press(
                preset.buttons@,
                old(state)@.button_active,
                btn_idx as int,
            ),
            ..old(state)@
        }),
{
    let buttons = preset.buttons.as_slice();
    let ghost before = state@;
    let mut j: usize = 0;
    while j < buttons.len()
        invariant
            buttons@ == preset.buttons@,
            btn_idx < buttons@.len() <= B,
            j <= buttons@.len(),
            state@.cycle_index == before.cycle_index,
            state@.encoder_values == before.encoder_values,
            before.button_active.len() == B,
            forall|k: int|
                0 <= k < B ==> #[trigger] state.button_active@[k] == (before.button_active[k]
                    && !(k < j && k != btn_idx && buttons@[k].mode == ButtonMode::RadioGroup(
                    group,
                ))),
        decreases buttons@.len() - j,
    {
        if j != btn_idx && buttons[j].mode == ButtonMode::RadioGroup(group) {
            state.button_active[j] = false;
        }
        j += 1;
    }
    state.button_active[btn_idx] = true;
    assert(state@.button_active =~= active_after_press(
        preset.buttons@,
        before.button_active,
        btn_idx as int,
    ));
}

/// Process a button event. Updates state and returns MIDI/system/display actions.
pub fn process_button<const B: usize, const E: usize, const A: usize>(
    state: &mut PresetState<B, E>,
    preset: &Preset<B, E, A>,
    btn_idx: usize,
    event: ButtonEvent,
) -> (r: EngineResult)
    requires
        button_executable(preset.buttons@, old(state)@, btn_idx as int, event),
    ensures
        final(state)@ == state_after_button(preset.buttons@, old(state)@, btn_idx as int, event),
        r@ == button_output(preset.buttons@, old(state)@, btn_idx as int, event),
{
    let mut result = EngineResult::new();
    let buttons = preset.buttons.as_slice();
    if btn_idx >= buttons.len() {
        return result;
    }
    let btn = &buttons[btn_idx];
    let ghost before = state@;
    let ghost actions = event_actions(*btn, before.button_active[btn_idx as int], event);
    let ghost cycle = cycle_after(
        actions,
        btn.cycle_values@.len(),
        before.cycle_index[btn_idx as int],
    );
    proof {
        let steps = action_steps(
            actions,
            btn.cycle_values@,
            before.cycle_index[btn_idx as int],
        );
        assert(Seq::<ActionStep>::empty() + steps =~= steps);
        assert(Seq::<SystemAction>::empty() + system_actions(actions) =~= system_actions(actions));
    }
    match event {
        ButtonEvent::Press => match btn.mode {
            ButtonMode::Toggle => {
                state.button_active[btn_idx] = !state.button_active[btn_idx];
                result.led_dirty = true;
                if state.button_active[btn_idx] {
                    execute_actions(
                        &btn.on_press,
                        &btn.cycle_values,
                        &mut result.midi,
                        &mut result.system,
                        &mut state.cycle_index[btn_idx],
                    );
                } else {
                    execute_actions(
                        &btn.on_release,
                        &btn.cycle_values,
                        &mut result.midi,
                        &mut result.system,
                        &mut state.cycle_index[btn_idx],
                    );
                }
            },
            ButtonMode::Momentary => {
                state.button_active[btn_idx] = true;
                result.led_dirty = true;
                execute_actions(
                    &btn.on_press,
                    &btn.cycle_values,
                    &mut result.midi,
                    &mut result.system,
                    &mut state.cycle_index[btn_idx],
                );
            },
            ButtonMode::RadioGroup(group) => {
                select_in_group(state, preset, btn_idx, group);
                result.led_dirty = true;
                execute_actions(
                    &btn.on_press,
                    &btn.cycle_values,
                    &mut result.midi,
                    &mut result.system,
                    &mut state.cycle_index[btn_idx],
                );
            },
        },
        ButtonEvent::Release => {
            if btn.mode == ButtonMode::Momentary {
                state.button_active[btn_idx] = false;
                result.led_dirty = true;
                execute_actions(
                    &btn.on_release,
                    &btn.cycle_values,
                    &mut result.midi,
                    &mut result.system,
                    &mut state.cycle_index[btn_idx],
                );
            }
        },
        ButtonEvent::LongPress => {
            execute_actions(
                &btn.on_long_press,
                &btn.cycle_values,
                &mut result.midi,
                &mut result.system,
                &mut state.cycle_index[btn_idx],
            );
        },
    }
    assert(state@.cycle_index =~= before.cycle_index.update(btn_idx as int, cycle));
    assert(state@ =~= state_after_button(preset.buttons@, before, btn_idx as int, event));
    result
}

/// A toggle that is pressed twice is as it was.
pub proof fn law_toggle_twice(buttons: Seq<ButtonConfig>, active: Seq<bool>, idx: int)
    requires
        0 <= idx < buttons.len() <= active.len(),
        buttons[idx].mode == ButtonMode::Toggle,
    ensures
        active_after_press(buttons, active_after_press(buttons, active, idx), idx) == active,
{
    assert(active_after_press(buttons, active_after_press(buttons, active, idx), idx) =~= active);
}

/// After a press of a radio button it is the only one of its group that is active;
/// the buttons outside the group are as they were.
pub proof fn law_radio_exclusive(
    buttons: Seq<ButtonConfig>,
    active: Seq<bool>,
    idx: int,
    group: u8,
    j: int,
)
    requires
        0 <= idx < buttons.len() <= active.len(),
        buttons[idx].mode == ButtonMode::RadioGroup(group),
        0 <= j < active.len(),
    ensures
        ({
            let after = active_after_press(buttons, active, idx);
            let in_group = j < buttons.len() && buttons[j].mode == ButtonMode::RadioGroup(group);
            &&& in_group ==> (after[j] <==> j == idx)
            &&& !in_group ==> after[j] == active[j]
        }),
{
}

/// A momentary button is active from its press to its release, and no other button
/// changes.
pub proof fn law_momentary_press_release(
    buttons: Seq<ButtonConfig>,
    active: Seq<bool>,
    idx: int,
)
    requires
        0 <= idx < buttons.len() <= active.len(),
        buttons[idx].mode == ButtonMode::Momentary,
    ensures
        ({
            let pressed = active_after(buttons, active, idx, ButtonEvent::Press);
            &&& pressed == active.update(idx, true)
            &&& active_after(buttons, pressed, idx, ButtonEvent::Release) == active.update(
                idx,
                false,
            )
        }),
{
    let pressed = active_after(buttons, active, idx, ButtonEvent::Press);
    assert(active_after(buttons, pressed, idx, ButtonEvent::Release) =~= active.update(idx, false));
}

/// A step forward in a cycle and a step back undo each other, in either order.
pub proof fn law_cycle_back_and_forth(cc: u8, channel: u8, len: nat, cycle_index: u8)
    requires
        cycle_index < len <= MAX_CYCLE_VALUES,
    ensures
        ({
            let forward = Action::CcCycle { cc, channel, reverse: false };
            let back = Action::CcCycle { cc, channel, reverse: true };
            &&& cycle_next(back, len, cycle_next(forward, len, cycle_index)) == cycle_index
            &&& cycle_next(forward, len, cycle_next(back, len, cycle_index)) == cycle_index
            &&& cycle_next(forward, len, cycle_index) < len
            &&& cycle_next(back, len, cycle_index) < len
        }),
{
    let forward = Action::CcCycle { cc, channel, reverse: false };
    if cycle_index + 1 < len {
        vstd::arithmetic::div_mod::lemma_small_mod((cycle_index + 1) as nat, len);
    } else {
        vstd::arithmetic::div_mod::lemma_mod_self_0(len as int);
    }
    if cycle_index > 0 {
        vstd::arithmetic::div_mod::lemma_small_mod(cycle_index as nat, len);
    } else {
        vstd::arithmetic::div_mod::lemma_mod_self_0(len as int);
    }
    assert(cycle_next(forward, len, cycle_index) < len);
}

/// A step forward from place `i` of a cycle sends the value there and moves to the
/// next; a step back then sends the value of that one and is at `i` again. Neither
/// asks anything of the system.
pub proof fn law_cycle_messages(
    midi: Seq<ActionStep>,
    cc: u8,
    channel: u8,
    values: Seq<u8>,
    i: u8,
)
    requires
        i < values.len() <= MAX_CYCLE_VALUES,
        midi.len() + 2 <= 8,
    ensures
        ({
            let forward = seq![Action::CcCycle { cc, channel, reverse: false }];
            let back = seq![Action::CcCycle { cc, channel, reverse: true }];
            let next = cycle_after(forward, values.len(), i);
            let one = clip(midi + action_steps(forward, values, i), 8);
            let two = clip(one + action_steps(back, values, next), 8);
            let status = status_byte(0xB0, channel);
            &&& next == (i + 1) % values.len() as int
            &&& one == midi.push(ActionStep::Send(message(status, cc, values[i as int], 3)))
            &&& two == one.push(ActionStep::Send(message(status, cc, values[next as int], 3)))
            &&& cycle_after(back, values.len(), next) == i
            &&& system_actions(forward).len() == 0
            &&& system_actions(back).len() == 0
        }),
{
    let len = values.len();
    let fwd = Action::CcCycle { cc, channel, reverse: false };
    let bwd = Action::CcCycle { cc, channel, reverse: true };
    let next = cycle_next(fwd, len, i);
    law_cycle_back_and_forth(cc, channel, len, i);
    vstd::arithmetic::div_mod::lemma_mod_bound(i + 1, len as int);
    vstd::arithmetic::div_mod::lemma_small_mod(i as nat, len);
    vstd::arithmetic::div_mod::lemma_small_mod(next as nat, len);
    lemma_single(fwd, values, i);
    lemma_single(bwd, values, next);
}

/// A list of one action is that action.
pub proof fn lemma_single(action: Action, cycle_values: Seq<u8>, cycle_index: u8)
    ensures
        action_steps(seq![action], cycle_values, cycle_index) == match action_step(
            action,
            cycle_values,
            cycle_index,
        ) {
            Some(step) => seq![step],
            None => Seq::empty(),
        },
        cycle_after(seq![action], cycle_values.len(), cycle_index) == cycle_next(
            action,
            cycle_values.len(),
            cycle_index,
        ),
        system_actions(seq![action]) == match system_action(action) {
            Some(s) => seq![s],
            None => Seq::empty(),
        },
{
    let list = seq![action];
    assert(list.drop_last() =~= Seq::<Action>::empty());
    assert(list.last() == action);
    reveal_with_fuel(action_steps, 2);
    reveal_with_fuel(cycle_after, 2);
    reveal_with_fuel(system_actions, 2);
}

/// `n` steps forward from any place of a cycle stand `n` places on, counted round the
/// cycle: the values come in order, and after the last the first comes again.
pub proof fn law_cycle_goes_round(cc: u8, channel: u8, len: nat, cycle_index: u8, n: nat)
    requires
        cycle_index < len <= MAX_CYCLE_VALUES,
    ensures
        cycle_after(
            Seq::new(n, |i: int| Action::CcCycle { cc, channel, reverse: false }),
            len,
            cycle_index,
        ) == (cycle_index + n) % len as int,
    decreases n,
{
    let forward = Action::CcCycle { cc, channel, reverse: false };
    let presses = Seq::new(n, |i: int| forward);
    if n > 0 {
        let m = (n - 1) as nat;
        let at = cycle_index + m;
        law_cycle_goes_round(cc, channel, len, cycle_index, m);
        assert(presses.drop_last() =~= Seq::new(m, |i: int| forward));
        vstd::arithmetic::div_mod::lemma_add_mod_noop(at, 1, len as int);
        vstd::arithmetic::div_mod::lemma_mod_twice(at, len as int);
        vstd::arithmetic::div_mod::lemma_add_mod_noop(at % (len as int), 1, len as int);
        vstd::arithmetic::div_mod::lemma_mod_bound(at, len as int);
        vstd::arithmetic::div_mod::lemma_mod_bound(cycle_index + n, len as int);
    } else {
        vstd::arithmetic::div_mod::lemma_small_mod(cycle_index as nat, len);
    }
}

// --- Encoders ---

/// The display that shows the overlay of an input: the left one for the first.
pub open spec fn overlay_side(idx: int) -> DisplaySide {
    if idx == 0 {
        DisplaySide::L
    } else {
        DisplaySide::R
    }
}

/// The state after encoder `idx` was turned by `steps`. An encoder that is not
/// there changes nothing.
pub open spec fn state_after_encoder(
    encoders: Seq<EncoderConfig>,
    state: StateModel,
    idx: int,
    direction: EncoderDirection,
    steps: u8,
) -> StateModel {
    if idx < encoders.len() {
        StateModel {
            encoder_values: state.encoder_values.update(
                idx,
                encoder_value(
                    encoders[idx].action,
                    direction,
                    steps as nat,
                    state.encoder_values[idx],
                ),
            ),
            ..state
        }
    } else {
        state
    }
}

/// What the turning of encoder `idx`, which now stands at `value`, brings about:
/// one message or, for one that scrolls the presets, one step from preset to
/// preset; and an overlay.
pub open spec fn encoder_output(
    encoders: Seq<EncoderConfig>,
    idx: int,
    direction: EncoderDirection,
    value: u8,
) -> EngineModel {
    if idx < encoders.len() {
        EngineModel {
            midi: match encoder_message(encoders[idx].action, direction, value) {
                Some(m) => seq![ActionStep::Send(m)],
                None => Seq::empty(),
            },
            system: if encoders[idx].action == EncoderAction::PresetScroll {
                match direction {
                    EncoderDirection::Clockwise => seq![SystemAction::PresetNext],
                    EncoderDirection::CounterClockwise => seq![SystemAction::PresetPrev],
                }
            } else {
                Seq::empty()
            },
            display: seq![
                DisplayEvent::EncoderOverlay {
                    side: overlay_side(idx),
                    label: encoders[idx].label,
                    value,
                },
            ],
            led_dirty: true,
        }
    } else {
        EngineModel::nothing()
    }
}

/// Process an encoder change. Applies steps, returns MIDI + display event.
pub fn process_encoder<const B: usize, const E: usize, const A: usize>(
    state: &mut PresetState<B, E>,
    preset: &Preset<B, E, A>,
    enc_idx: usize,
    direction: EncoderDirection,
    steps: u8,
) -> (r: EngineResult)
    requires
        enc_idx < preset.encoders@.len() ==> encoder_sendable(
            preset.encoders@[enc_idx as int].action,
        ),
    ensures
        final(state)@ == state_after_encoder(
            preset.encoders@,
            old(state)@,
            enc_idx as int,
            direction,
            steps,
        ),
        r@ == encoder_output(
            preset.encoders@,
            enc_idx as int,
            direction,
            final(state)@.encoder_values[enc_idx as int],
        ),
{
    let mut result = EngineResult::new();
    let encoders = preset.encoders.as_slice();
    if enc_idx >= encoders.len() {
        return result;
    }
    let enc = &encoders[enc_idx];
    let ghost before = state@;
    let ghost value0 = before.encoder_values[enc_idx as int];

    assert(state@.encoder_values =~= before.encoder_values.update(enc_idx as int, value0));
    let mut done: u8 = 0;
    while done < steps
        invariant
            done <= steps,
            enc_idx < encoders@.len() <= E,
            encoders@ == preset.encoders@,
            enc == encoders@[enc_idx as int],
            encoder_sendable(enc.action),
            before.encoder_values.len() == E,
            value0 == before.encoder_values[enc_idx as int],
            state@.button_active == before.button_active,
            state@.cycle_index == before.cycle_index,
            state@.encoder_values == before.encoder_values.update(
                enc_idx as int,
                encoder_value(enc.action, direction, done as nat, value0),
            ),
        decreases steps - done,
    {
        encoder_cc(preset, enc_idx, direction, &mut state.encoder_values[enc_idx]);
        proof {
            crate::action::law_encoder_pulses_add_up(enc.action, direction, done as nat, 1, value0);
            assert(state@.encoder_values =~= before.encoder_values.update(
                enc_idx as int,
                encoder_value(enc.action, direction, (done + 1) as nat, value0),
            ));
        }
        done += 1;
    }
    assert(state@ =~= state_after_encoder(
        preset.encoders@,
        before,
        enc_idx as int,
        direction,
        steps,
    ));

    match &enc.action {
        EncoderAction::Cc { cc, channel, .. } => {
            let _ = result.midi.push(
                ActionStep::Send(
                    MidiMessage {
                        data: [
                            0xB0 | (*channel - 1),
                            #[verifier::truncate] (*cc as u8),
                            state.encoder_values[enc_idx],
                        ],
                        len: 3,
                    },
                ),
            );
        },
        EncoderAction::CcRelative { cc, channel, increment, decrement } => {
            let val: u8 = match direction {
                EncoderDirection::Clockwise => *increment,
                EncoderDirection::CounterClockwise => *decrement,
            };
            let _ = result.midi.push(
                ActionStep::Send(MidiMessage { data: [0xB0 | (*channel - 1), *cc, val], len: 3 }),
            );
        },
        EncoderAction::PresetScroll => match direction {
            EncoderDirection::Clockwise => {
                let _ = result.system.push(SystemAction::PresetNext);
            },
            EncoderDirection::CounterClockwise => {
                let _ = result.system.push(SystemAction::PresetPrev);
            },
        },
    }

    let side = if enc_idx == 0 {
        DisplaySide::L
    } else {
        DisplaySide::R
    };
    let _ = result.display.push(
        DisplayEvent::EncoderOverlay {
            side,
            label: enc.label.clone(),
            value: state.encoder_values[enc_idx],
        },
    );
    result.led_dirty = true;
    assert(result@ =~= encoder_output(
        preset.encoders@,
        enc_idx as int,
        direction,
        state@.encoder_values[enc_idx as int],
    ));
    result
}

// --- Analog ---

/// What a reading of analog input `idx` brings about: one message, and an overlay
/// that shows its value.
pub open spec fn analog_output<const B: usize, const E: usize, const A: usize>(
    preset: Preset<B, E, A>,
    idx: int,
    raw: u16,
    adc_min: u16,
    adc_max: u16,
) -> EngineModel {
    if idx < preset.analog@.len() {
        let m = analog_message(preset.analog@[idx], raw, adc_min, adc_max);
        EngineModel {
            midi: seq![ActionStep::Send(m)],
            display: seq![
                DisplayEvent::AnalogOverlay {
                    side: overlay_side(idx),
                    label: preset.analog@[idx].label,
                    value: m.data[2],
                },
            ],
            ..EngineModel::nothing()
        }
    } else {
        EngineModel::nothing()
    }
}

/// Process an analog input change. Returns MIDI + display event.
pub fn process_analog<const B: usize, const E: usize, const A: usize>(
    preset: &Preset<B, E, A>,
    analog_idx: usize,
    raw: u16,
    adc_min: u16,
    adc_max: u16,
) -> (r: EngineResult)
    requires
        analog_idx < preset.analog@.len() ==> analog_convertible(
            preset.analog@[analog_idx as int],
            adc_min,
            adc_max,
        ),
    ensures
        r@ == analog_output(*preset, analog_idx as int, raw, adc_min, adc_max),
{
    let mut result = EngineResult::new();
    if let Some(msg) = analog_cc_calibrated(preset, analog_idx, raw, adc_min, adc_max) {
        let side = if analog_idx == 0 {
            DisplaySide::L
        } else {
            DisplaySide::R
        };
        let analog = preset.analog.as_slice();
        let _ = result.display.push(
            DisplayEvent::AnalogOverlay {
                side,
                label: analog[analog_idx].label.clone(),
                value: msg.data[2],
            },
        );
        let _ = result.midi.push(ActionStep::Send(msg));
        assert(result@ =~= analog_output(*preset, analog_idx as int, raw, adc_min, adc_max));
    }
    result
}

// --- Triggers ---

/// Result of processing incoming MIDI against triggers.
pub struct TriggerResult {
    /// MIDI messages to send (from Execute action).
    pub midi: BoundedVec<ActionStep, 8>,
    /// System actions (preset switch).
    pub system: BoundedVec<SystemAction, 2>,
    /// Whether LED state changed (activate/deactivate).
    pub led_dirty: bool,
}

/// What the triggers that were tried so far brought about, and the state after it.
#[verifier::ext_equal]
pub ghost struct TriggerModel {
    pub state: StateModel,
    pub midi: Seq<ActionStep>,
    pub system: Seq<SystemAction>,
    pub led_dirty: bool,
}

/// Whether a message matches a pattern. The channel is the low half of the status
/// byte, counted from 1; a note on with velocity 0 is a note off.
pub open spec fn matched(pattern: TriggerMatch, status: u8, data1: u8, data2: u8) -> bool {
    match pattern {
        TriggerMatch::Cc { cc, channel, value_min, value_max } => {
            &&& status & 0xF0 == 0xB0
            &&& (status & 0x0F) + 1 == channel
            &&& data1 == cc
            &&& value_min <= data2 <= value_max
        },
        TriggerMatch::ProgramChange { program, channel } => {
            &&& status & 0xF0 == 0xC0
            &&& (status & 0x0F) + 1 == channel
            &&& data1 == program
        },
        TriggerMatch::NoteOn { note, channel } => {
            &&& status & 0xF0 == 0x90
            &&& (status & 0x0F) + 1 == channel
            &&& data1 == note
            &&& data2 > 0
        },
    }
}

impl TriggerModel {
    /// Nothing was tried yet.
    pub open spec fn untried(state: StateModel) -> TriggerModel {
        TriggerModel { state, midi: Seq::empty(), system: Seq::empty(), led_dirty: false }
    }

    /// Once the action of a trigger has run as well.
    pub open spec fn run(self, action: TriggerAction, buttons: Seq<ButtonConfig>) -> TriggerModel {
        match action {
            TriggerAction::Activate(idx) => self.with_active(idx as int, true),
            TriggerAction::Deactivate(idx) => self.with_active(idx as int, false),
            TriggerAction::PresetSelect(preset) => TriggerModel {
                system: clip(self.system.push(SystemAction::PresetSelect(preset)), 2),
                ..self
            },
            TriggerAction::Execute(idx) => if idx < buttons.len() {
                let button = buttons[idx as int];
                TriggerModel {
                    state: StateModel {
                        cycle_index: self.state.cycle_index.update(
                            idx as int,
                            cycle_after(
                                button.on_press@,
                                button.cycle_values@.len(),
                                self.state.cycle_index[idx as int],
                            ),
                        ),
                        ..self.state
                    },
                    midi: clip(
                        self.midi + action_steps(
                            button.on_press@,
                            button.cycle_values@,
                            self.state.cycle_index[idx as int],
                        ),
                        8,
                    ),
                    system: clip(self.system + system_actions(button.on_press@), 2),
                    ..self
                }
            } else {
                self
            },
        }
    }

    /// Once a button was switched on or off; there is no such button past the end.
    pub open spec fn with_active(self, idx: int, active: bool) -> TriggerModel {
        if idx < self.state.button_active.len() {
            TriggerModel {
                state: StateModel {
                    button_active: self.state.button_active.update(idx, active),
                    ..self.state
                },
                led_dirty: true,
                ..self
            }
        } else {
            self
        }
    }
}

/// What a list of triggers brings about for a message: every trigger that matches
/// runs, in order.
pub open spec fn triggered(
    triggers: Seq<Trigger>,
    buttons: Seq<ButtonConfig>,
    state: StateModel,
    status: u8,
    data1: u8,
    data2: u8,
) -> TriggerModel
    decreases triggers.len(),
{
    if triggers.len() == 0 {
        TriggerModel::untried(state)
    } else {
        let before = triggered(triggers.drop_last(), buttons, state, status, data1, data2);
        if matched(triggers.last().match_msg, status, data1, data2) {
            before.run(triggers.last().action, buttons)
        } else {
            before
        }
    }
}

/// Whether every action that the triggers run for a message has a channel.
pub open spec fn triggers_executable(
    triggers: Seq<Trigger>,
    buttons: Seq<ButtonConfig>,
    status: u8,
    data1: u8,
    data2: u8,
) -> bool {
    forall|k: int|
        #![trigger triggers[k]]
        0 <= k < triggers.len() && matched(triggers[k].match_msg, status, data1, data2) ==> (
        triggers[k].action matches TriggerAction::Execute(idx) ==> idx < buttons.len()
            ==> all_executable(
            buttons[idx as int].on_press@,
            buttons[idx as int].cycle_values@,
        ))
}

/// Whether a message matches the pattern of a trigger.
fn matches_message(pattern: &TriggerMatch, status: u8, data1: u8, data2: u8) -> (r: bool)
    ensures
        r == matched(*pattern, status, data1, data2),
{
    assert(status & 0x0F <= 15) by (bit_vector);
    let msg_type: u8 = status & 0xF0;
    let channel: u8 = (status & 0x0F) + 1;
    match pattern {
        TriggerMatch::Cc { cc, channel: ch, value_min, value_max } => msg_type == 0xB0 && channel
            == *ch && data1 == *cc && data2 >= *value_min && data2 <= *value_max,
        TriggerMatch::ProgramChange { program, channel: ch } => msg_type == 0xC0 && channel == *ch
            && data1 == *program,
        TriggerMatch::NoteOn { note, channel: ch } => msg_type == 0x90 && channel == *ch && data1
            == *note && data2 > 0,
    }
}

/// Process incoming MIDI against preset triggers. Updates button state directly.
pub fn process_triggers<const B: usize, const E: usize, const A: usize>(
    state: &mut PresetState<B, E>,
    preset: &Preset<B, E, A>,
    status: u8,
    data1: u8,
    data2: u8,
) -> (r: TriggerResult)
    requires
        triggers_executable(preset.triggers@, preset.buttons@, status, data1, data2),
    ensures
        ({
            let all = triggered(
                preset.triggers@,
                preset.buttons@,
                old(state)@,
                status,
                data1,
                data2,
            );
            &&& final(state)@ == all.state
            &&& r.midi@ == all.midi
            &&& r.system@ == all.system
            &&& r.led_dirty == all.led_dirty
        }),
{
    let mut result = TriggerResult {
        midi: BoundedVec::new(),
        system: BoundedVec::new(),
        led_dirty: false,
    };
    let triggers = preset.triggers.as_slice();
    let buttons = preset.buttons.as_slice();
    let ghost state0 = state@;
    let mut i: usize = 0;
    while i < triggers.len()
        invariant
            i <= triggers@.len(),
            triggers@ == preset.triggers@,
            buttons@ == preset.buttons@,
            buttons@.len() <= B,
            triggers_executable(triggers@, buttons@, status, data1, data2),
            ({
                let all = triggered(
                    triggers@.take(i as int),
                    buttons@,
                    state0,
                    status,
                    data1,
                    data2,
                );
                &&& state@ == all.state
                &&& result.midi@ == all.midi
                &&& result.system@ == all.system
                &&& result.led_dirty == all.led_dirty
            }),
        decreases triggers@.len() - i,
    {
        let trigger = &triggers[i];
        let ghost all = triggered(triggers@.take(i as int), buttons@, state0, status, data1, data2);
        proof {
            assert(triggers@.take(i + 1).drop_last() =~= triggers@.take(i as int));
            assert(triggers@[i as int] == *trigger);
        }
        if matches_message(&trigger.match_msg, status, data1, data2) {
            let ghost next = all.run(trigger.action, buttons@);
            match &trigger.action {
                TriggerAction::Activate(btn_idx) => {
                    let idx: usize = *btn_idx as usize;
                    if idx < B {
                        state.button_active[idx] = true;
                        result.led_dirty = true;
                    }
                },
                TriggerAction::Deactivate(btn_idx) => {
                    let idx: usize = *btn_idx as usize;
                    if idx < B {
                        state.button_active[idx] = false;
                        result.led_dirty = true;
                    }
                },
                TriggerAction::PresetSelect(preset_idx) => {
                    let _ = result.system.push(SystemAction::PresetSelect(*preset_idx));
                },
                TriggerAction::Execute(btn_idx) => {
                    let idx: usize = *btn_idx as usize;
                    if idx < buttons.len() {
                        let btn = &buttons[idx];
                        execute_actions(
                            &btn.on_press,
                            &btn.cycle_values,
                            &mut result.midi,
                            &mut result.system,
                            &mut state.cycle_index[idx],
                        );
                    }
                },
            }
            assert(state@ =~= next.state);
        }
        i += 1;
    }
    assert(triggers@.take(i as int) =~= triggers@);
    result
}

/// A trigger that fires a button sends what a press of it sends, and asks of the
/// system what the press asks, but switches no button on. A toggle that is on is the
/// exception: its press runs its on_release actions.
pub proof fn law_execute_is_a_press(
    pattern: TriggerMatch,
    idx: u8,
    buttons: Seq<ButtonConfig>,
    state: StateModel,
    status: u8,
    data1: u8,
    data2: u8,
)
    requires
        matched(pattern, status, data1, data2),
        idx < buttons.len() <= state.button_active.len(),
        buttons[idx as int].mode == ButtonMode::Toggle ==> !state.button_active[idx as int],
    ensures
        ({
            let trigger = Trigger { match_msg: pattern, action: TriggerAction::Execute(idx) };
            let all = triggered(seq![trigger], buttons, state, status, data1, data2);
            let press = button_output(buttons, state, idx as int, ButtonEvent::Press);
            let after = state_after_button(buttons, state, idx as int, ButtonEvent::Press);
            &&& all.midi == press.midi
            &&& all.system == press.system
            &&& all.state.cycle_index == after.cycle_index
            &&& all.state.button_active == state.button_active
            &&& !all.led_dirty
        }),
{
    let trigger = Trigger { match_msg: pattern, action: TriggerAction::Execute(idx) };
    let button = buttons[idx as int];
    let steps = action_steps(
        button.on_press@,
        button.cycle_values@,
        state.cycle_index[idx as int],
    );
    let asked = system_actions(button.on_press@);
    reveal_with_fuel(triggered, 2);
    assert(seq![trigger].drop_last() =~= Seq::<Trigger>::empty());
    assert(Seq::<ActionStep>::empty() + steps =~= steps);
    assert(Seq::<SystemAction>::empty() + asked =~= asked);
}

/// A message that no trigger matches brings about nothing.
pub proof fn law_unmatched_is_ignored(
    triggers: Seq<Trigger>,
    buttons: Seq<ButtonConfig>,
    state: StateModel,
    status: u8,
    data1: u8,
    data2: u8,
)
    requires
        forall|k: int|
            0 <= k < triggers.len() ==> !matched(
                (#[trigger] triggers[k]).match_msg,
                status,
                data1,
                data2,
            ),
    ensures
        triggered(triggers, buttons, state, status, data1, data2) == TriggerModel::untried(state),
    decreases triggers.len(),
{
    if triggers.len() > 0 {
        assert forall|k: int| 0 <= k < triggers.drop_last().len() implies !matched(
            (#[trigger] triggers.drop_last()[k]).match_msg,
            status,
            data1,
            data2,
        ) by {
            assert(triggers.drop_last()[k] == triggers[k]);
        }
        law_unmatched_is_ignored(triggers.drop_last(), buttons, state, status, data1, data2);
        assert(triggers.last() == triggers[triggers.len() - 1]);
    }
}

/// A message whose triggers only switch buttons on or off has nothing sent and nothing
/// asked of the system.
pub proof fn law_activation_is_silent(
    triggers: Seq<Trigger>,
    buttons: Seq<ButtonConfig>,
    state: StateModel,
    status: u8,
    data1: u8,
    data2: u8,
)
    requires
        forall|k: int|
            0 <= k < triggers.len() && matched(
                (#[trigger] triggers[k]).match_msg,
                status,
                data1,
                data2,
            ) ==> triggers[k].action is Activate || triggers[k].action is Deactivate,
    ensures
        triggered(triggers, buttons, state, status, data1, data2).midi.len() == 0,
        triggered(triggers, buttons, state, status, data1, data2).system.len() == 0,
    decreases triggers.len(),
{
    if triggers.len() > 0 {
        let shorter = triggers.drop_last();
        assert forall|k: int|
            0 <= k < shorter.len() && matched(
                (#[trigger] shorter[k]).match_msg,
                status,
                data1,
                data2,
            ) implies shorter[k].action is Activate || shorter[k].action is Deactivate by {
            assert(shorter[k] == triggers[k]);
        }
        law_activation_is_silent(shorter, buttons, state, status, data1, data2);
        assert(triggers.last() == triggers[triggers.len() - 1]);
    }
}

// --- Reactive LEDs ---

/// Result of a reactive CC match.
#[derive(Debug, Clone, Copy, PartialEq, Eq, Structural)]
pub enum ReactiveResult {
    /// Heatmap fill level (0-12 LEDs).
    Heatmap(usize, u8),
    /// Trigger on/off (button index, active).
    Trigger(usize, bool),
}

/// Whether a button's ring reacts to a CC on a channel.
pub open spec fn listens(button: ButtonConfig, channel: u8, cc: u8) -> bool {
    button.listen_cc matches Some(listen) && listen.cc == cc && listen.channel == channel
}

/// The first button that reacts to a CC on a channel.
pub open spec fn first_listener(buttons: Seq<ButtonConfig>, channel: u8, cc: u8) -> Option<int>
    decreases buttons.len(),
{
    if buttons.len() == 0 {
        None
    } else {
        match first_listener(buttons.drop_last(), channel, cc) {
            Some(i) => Some(i),
            None => if listens(buttons.last(), channel, cc) {
                Some(buttons.len() - 1)
            } else {
                None
            },
        }
    }
}

/// The fill level for a CC value: 12 LEDs stand for 127.
pub open spec fn heatmap_fill(value: u8) -> u8 {
    if value >= 127 {
        12
    } else {
        (value * 12int / 127) as u8
    }
}

/// How button `i`, bound as `listen` says, shows a CC value.
pub open spec fn reaction(i: usize, listen: ListenCc, value: u8) -> ReactiveResult {
    match listen.mode {
        ListenMode::Heatmap => ReactiveResult::Heatmap(i, heatmap_fill(value)),
        ListenMode::Trigger => ReactiveResult::Trigger(i, value >= listen.threshold),
    }
}

/// How the rings react to a CC: the first button that is bound to it shows it.
pub open spec fn reactive(
    buttons: Seq<ButtonConfig>,
    channel: u8,
    cc: u8,
    value: u8,
) -> Option<ReactiveResult> {
    match first_listener(buttons, channel, cc) {
        Some(i) => Some(reaction(i as usize, buttons[i].listen_cc->0, value)),
        None => None,
    }
}

/// A CC is shown by a button that is bound to it, and by none before that button;
/// it is shown by none only where none is bound to it.
pub proof fn law_first_listener(buttons: Seq<ButtonConfig>, channel: u8, cc: u8)
    ensures
        match first_listener(buttons, channel, cc) {
            Some(i) => {
                &&& 0 <= i < buttons.len()
                &&& listens(buttons[i], channel, cc)
                &&& forall|k: int| 0 <= k < i ==> !listens(#[trigger] buttons[k], channel, cc)
            },
            None => forall|k: int|
                0 <= k < buttons.len() ==> !listens(#[trigger] buttons[k], channel, cc),
        },
    decreases buttons.len(),
{
    if buttons.len() > 0 {
        let shorter = buttons.drop_last();
        law_first_listener(shorter, channel, cc);
        assert forall|k: int| 0 <= k < shorter.len() implies shorter[k] == buttons[k] by {}
        match first_listener(shorter, channel, cc) {
            Some(i) => {
                assert forall|k: int| 0 <= k < i implies !listens(
                    #[trigger] buttons[k],
                    channel,
                    cc,
                ) by {
                    assert(shorter[k] == buttons[k]);
                }
            },
            None => {
                assert forall|k: int| 0 <= k < shorter.len() implies !listens(
                    #[trigger] buttons[k],
                    channel,
                    cc,
                ) by {
                    assert(shorter[k] == buttons[k]);
                }
            },
        }
    }
}

/// A ring never fills by more than its 12 LEDs, a higher value never fills it
/// less, 0 leaves it dark and 127 fills it.
pub proof fn law_heatmap_fill(low: u8, high: u8)
    requires
        low <= high,
    ensures
        heatmap_fill(high) <= 12,
        heatmap_fill(low) <= heatmap_fill(high),
        heatmap_fill(0) == 0,
        heatmap_fill(127) == 12,
{
}

/// Check incoming CC against preset's reactive LED bindings.
pub fn process_incoming_cc<const B: usize, const E: usize, const A: usize>(
    preset: &Preset<B, E, A>,
    channel: u8,
    cc: u8,
    value: u8,
) -> (r: Option<ReactiveResult>)
    ensures
        r == reactive(preset.buttons@, channel, cc, value),
{
    let buttons = preset.buttons.as_slice();
    let mut i: usize = 0;
    while i < buttons.len()
        invariant
            i <= buttons@.len(),
            buttons@ == preset.buttons@,
            forall|k: int| 0 <= k < i ==> !listens(#[trigger] buttons@[k], channel, cc),
        decreases buttons@.len() - i,
    {
        if let Some(listen) = &buttons[i].listen_cc {
            if listen.cc == cc && listen.channel == channel {
                proof {
                    law_first_listener(buttons@, channel, cc);
                    assert(listens(buttons@[i as int], channel, cc));
                }
                return Some(
                    match listen.mode {
                        ListenMode::Heatmap => {
                            let level: u16 = (value as u16 * 12) / 127;
                            let fill: u8 = if level < 12 {
                                level as u8
                            } else {
                                12
                            };
                            ReactiveResult::Heatmap(i, fill)
                        },
                        ListenMode::Trigger => ReactiveResult::Trigger(
                            i,
                            value >= listen.threshold,
                        ),
                    },
                );
            }
        }
        i += 1;
    }
    proof {
        law_first_listener(buttons@, channel, cc);
    }
    None
}

} // verus!
