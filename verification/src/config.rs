//! Pedalboard configuration: presets, what their buttons, encoders and pedals
//! do, and the settings that are independent of any preset.
//!
//! The types of a preset are stored in flash. A change to the layout of one of
//! them goes with a new `PRESET_SCHEMA_VERSION`, by which the firmware rejects
//! stale presets on boot.

use vstd::prelude::*;

use crate::bounded::BoundedVec;

verus! {

/// Layout version of the stored presets.
pub const PRESET_SCHEMA_VERSION: u8 = 5;

pub const MAX_PRESETS: usize = 32;

pub const MAX_BUTTONS: usize = 6;

pub const MAX_ENCODERS: usize = 2;

pub const MAX_ANALOG: usize = 2;

pub const MAX_LABEL_LEN: usize = 16;

pub const MAX_ACTIONS: usize = 8;

pub const MAX_CYCLE_VALUES: usize = 12;

pub const MAX_TRIGGERS: usize = 8;

/// PE resource ID for global configuration (presets use 0x00..0x1F).
pub const GLOBAL_CONFIG_RESOURCE: u8 = 0x7F;

/// PE resource ID for system commands.
pub const SYSTEM_COMMAND_RESOURCE: u8 = 0x7E;

// --- Labels ---

/// `heapless::String`, the text of a [`Label`].
#[verifier::external_type_specification]
#[verifier::external_body]
pub struct ExHeaplessString<const N: usize>(heapless::String<N>);

/// A short text, at most `MAX_LABEL_LEN` bytes.
pub type Label = heapless::String<MAX_LABEL_LEN>;

/// The characters that a label holds.
pub uninterp spec fn label_text(label: heapless::String<16>) -> Seq<char>;

/// Calls `heapless::String::new`, which gives an empty text.
#[verifier::external_body]
fn label_new() -> (r: Label)
    ensures
        label_text(r) == Seq::<char>::empty(),
{
    heapless::String::new()
}

/// `heapless::String::clone` copies the text: the copy is equal to the string it
/// was made from.
pub assume_specification<const N: usize>[ <heapless::String<N> as Clone>::clone ](
    s: &heapless::String<N>,
) -> (r: heapless::String<N>)
    ensures
        r == *s,
;

/// Calls `heapless::String::as_str`, which borrows the text.
#[verifier::external_body]
pub(crate) fn label_as_str(label: &Label) -> (r: &str)
    ensures
        r@ == label_text(*label),
{
    label.as_str()
}

// --- System ---

/// System command identifiers (body of PE Set to resource 0x7E).
#[derive(Debug, Clone, Copy, PartialEq, Eq, Structural)]
pub enum SystemCommand {
    Reboot,
    Bootloader,
    FactoryReset,
}

impl SystemCommand {
    /// The byte that stands for this command.
    pub open spec fn byte(self) -> u8 {
        match self {
            SystemCommand::Reboot => 0x01,
            SystemCommand::Bootloader => 0x02,
            SystemCommand::FactoryReset => 0x03,
        }
    }

    /// The byte that stands for this command.
    pub fn to_byte(self) -> (r: u8)
        ensures
            r == self.byte(),
    {
        match self {
            SystemCommand::Reboot => 0x01,
            SystemCommand::Bootloader => 0x02,
            SystemCommand::FactoryReset => 0x03,
        }
    }

    /// The command that `b` stands for, if there is one.
    pub fn from_byte(b: u8) -> (r: Option<Self>)
        ensures
            match r {
                Some(command) => command.byte() == b,
                None => forall|command: SystemCommand| command.byte() != b,
            },
    {
        match b {
            0x01 => Some(SystemCommand::Reboot),
            0x02 => Some(SystemCommand::Bootloader),
            0x03 => Some(SystemCommand::FactoryReset),
            _ => None,
        }
    }
}

/// System-wide configuration, independent of presets.
#[derive(Debug, Clone, PartialEq, Eq)]
pub struct GlobalConfig {
    /// Enable DIN MIDI output for locally-generated messages.
    pub din_enabled: bool,
    /// Route incoming DIN MIDI to USB MIDI out.
    pub din_to_usb_thru: bool,
    /// Route incoming USB MIDI to DIN MIDI out.
    pub usb_to_din_thru: bool,
    /// Route incoming USB MIDI to USB MIDI out (echo).
    pub usb_to_usb_thru: bool,
    /// Enable MIDI Clock (0xF8) output.
    pub midi_clock: bool,
    /// MIDI Clock tempo in BPM (30 to 300).
    pub bpm: u16,
    /// Expression pedal 1 ADC value at heel (rest) position.
    pub exp1_min: u16,
    /// Expression pedal 1 ADC value at toe (full) position.
    pub exp1_max: u16,
    /// Expression pedal 2 ADC value at heel (rest) position.
    pub exp2_min: u16,
    /// Expression pedal 2 ADC value at toe (full) position.
    pub exp2_max: u16,
}

/// What a stored flag that is on unless said otherwise starts from.
pub fn default_true() -> (r: bool)
    ensures
        r,
{
    true
}

/// The tempo of a configuration that names none.
pub fn default_bpm() -> (r: u16)
    ensures
        r == 120,
{
    120
}

/// The toe position of a pedal that was not calibrated.
pub fn default_adc_max() -> (r: u16)
    ensures
        r == 3750,
{
    3750
}

/// The upper end of a trigger's value range where none is given.
pub fn default_value_max() -> (r: u8)
    ensures
        r == 127,
{
    127
}

/// The threshold of a reactive binding where none is given.
pub fn default_threshold() -> (r: u8)
    ensures
        r == 64,
{
    64
}

impl GlobalConfig {
    /// The settings of a device that was never configured.
    pub open spec fn initial() -> GlobalConfig {
        GlobalConfig {
            din_enabled: true,
            din_to_usb_thru: true,
            usb_to_din_thru: false,
            usb_to_usb_thru: false,
            midi_clock: false,
            bpm: 120,
            exp1_min: 0,
            exp1_max: 3750,
            exp2_min: 0,
            exp2_max: 3750,
        }
    }

    /// MIDI Clock tick interval in microseconds (24 ticks per quarter note). A
    /// tempo of 0 counts as 120 BPM.
    pub open spec fn tick_interval(self) -> int {
        if self.bpm == 0 {
            20_833
        } else {
            60_000_000int / (self.bpm * 24)
        }
    }

    /// MIDI Clock tick interval in microseconds (24 PPQ).
    pub fn tick_interval_us(&self) -> (r: u32)
        ensures
            r == self.tick_interval(),
    {
        if self.bpm == 0 {
            return 20_833;
        }
        60_000_000 / (self.bpm as u32 * 24)
    }
}

impl Default for GlobalConfig {
    fn default() -> (r: Self)
        ensures
            r == GlobalConfig::initial(),
    {
        GlobalConfig {
            din_enabled: default_true(),
            din_to_usb_thru: default_true(),
            usb_to_din_thru: false,
            usb_to_usb_thru: false,
            midi_clock: false,
            bpm: default_bpm(),
            exp1_min: 0,
            exp1_max: default_adc_max(),
            exp2_min: 0,
            exp2_max: default_adc_max(),
        }
    }
}

/// Everything that is configured: the global settings and the presets. The
/// parameters are the numbers of buttons, encoders and analog inputs.
#[derive(Clone, PartialEq, Eq)]
#[verifier::reject_recursive_types(B)]
#[verifier::reject_recursive_types(E)]
#[verifier::reject_recursive_types(A)]
pub struct Config<const B: usize, const E: usize, const A: usize> {
    pub global: GlobalConfig,
    pub presets: BoundedVec<Preset<B, E, A>, MAX_PRESETS>,
}

/// A configuration for the standard board (6 buttons, 2 encoders, 2 pedals).
pub type DefaultConfig = Config<MAX_BUTTONS, MAX_ENCODERS, MAX_ANALOG>;

impl<const B: usize, const E: usize, const A: usize> Default for Config<B, E, A> {
    fn default() -> (r: Self)
        ensures
            r.global == GlobalConfig::initial(),
            r.presets@ == Seq::<Preset<B, E, A>>::empty(),
    {
        Config { global: GlobalConfig::default(), presets: BoundedVec::new() }
    }
}

#[derive(Clone, PartialEq, Eq)]
pub struct Preset<const B: usize, const E: usize, const A: usize> {
    pub name: Label,
    pub buttons: BoundedVec<ButtonConfig, B>,
    pub encoders: BoundedVec<EncoderConfig, E>,
    pub analog: BoundedVec<AnalogConfig, A>,
    /// Initial state applied on first boot / after upload (before any user interaction).
    pub defaults: InitialState<B, E>,
    /// Actions fired when this preset becomes active (on switch or boot).
    pub on_enter: BoundedVec<Action, MAX_ACTIONS>,
    /// Actions fired when leaving this preset (before switching to another).
    pub on_exit: BoundedVec<Action, MAX_ACTIONS>,
    /// Incoming MIDI triggers: react to external messages by changing state or firing actions.
    pub triggers: BoundedVec<Trigger, MAX_TRIGGERS>,
}

/// A preset for the standard board.
pub type DefaultPreset = Preset<MAX_BUTTONS, MAX_ENCODERS, MAX_ANALOG>;

impl<const B: usize, const E: usize, const A: usize> Default for Preset<B, E, A> {
    fn default() -> (r: Self)
        ensures
            label_text(r.name) == Seq::<char>::empty(),
            r.buttons@ == Seq::<ButtonConfig>::empty(),
            r.encoders@ == Seq::<EncoderConfig>::empty(),
            r.analog@ == Seq::<AnalogConfig>::empty(),
            r.defaults.button_active@ == Seq::<bool>::empty(),
            r.defaults.encoder_values@ == Seq::<u8>::empty(),
            r.on_enter@ == Seq::<Action>::empty(),
            r.on_exit@ == Seq::<Action>::empty(),
            r.triggers@ == Seq::<Trigger>::empty(),
    {
        Preset {
            name: label_new(),
            buttons: BoundedVec::new(),
            encoders: BoundedVec::new(),
            analog: BoundedVec::new(),
            defaults: InitialState::default(),
            on_enter: BoundedVec::new(),
            on_exit: BoundedVec::new(),
            triggers: BoundedVec::new(),
        }
    }
}

/// A trigger that reacts to incoming MIDI.
#[derive(Debug, Clone, Copy, PartialEq, Eq, Structural)]
pub struct Trigger {
    /// What incoming MIDI message to match.
    pub match_msg: TriggerMatch,
    /// What to do when matched.
    pub action: TriggerAction,
}

/// Incoming MIDI message pattern to match.
#[derive(Debug, Clone, Copy, PartialEq, Eq, Structural)]
pub enum TriggerMatch {
    /// Match CC on channel, with a value range.
    Cc { cc: u8, channel: u8, value_min: u8, value_max: u8 },
    /// Match Program Change on channel.
    ProgramChange { program: u8, channel: u8 },
    /// Match Note On on channel.
    NoteOn { note: u8, channel: u8 },
}

/// Action to perform when a trigger matches.
#[derive(Debug, Clone, Copy, PartialEq, Eq, Structural)]
pub enum TriggerAction {
    /// Set button active (LED on, no outgoing MIDI).
    Activate(u8),
    /// Set button inactive (LED off, no outgoing MIDI).
    Deactivate(u8),
    /// Switch to a preset by index.
    PresetSelect(u8),
    /// Fire button's on_press actions as if pressed.
    Execute(u8),
}

/// Default toggle/radio/encoder state for a preset on first activation.
#[derive(Clone, PartialEq, Eq)]
pub struct InitialState<const B: usize, const E: usize> {
    /// Which buttons start active (true = on). Length matches buttons vec.
    pub button_active: BoundedVec<bool, B>,
    /// Initial encoder values (0-127). Length matches encoders vec.
    pub encoder_values: BoundedVec<u8, E>,
}

impl<const B: usize, const E: usize> Default for InitialState<B, E> {
    fn default() -> (r: Self)
        ensures
            r.button_active@ == Seq::<bool>::empty(),
            r.encoder_values@ == Seq::<u8>::empty(),
    {
        InitialState { button_active: BoundedVec::new(), encoder_values: BoundedVec::new() }
    }
}

// --- Buttons ---

#[derive(Clone, PartialEq, Eq)]
pub struct ButtonConfig {
    pub label: Label,
    pub color: LedConfig,
    pub mode: ButtonMode,
    pub on_press: BoundedVec<Action, MAX_ACTIONS>,
    pub on_release: BoundedVec<Action, MAX_ACTIONS>,
    pub on_long_press: BoundedVec<Action, MAX_ACTIONS>,
    pub cycle_values: BoundedVec<u8, MAX_CYCLE_VALUES>,
    /// Reactive LED: the ring shows the incoming CC value.
    pub listen_cc: Option<ListenCc>,
}

/// Reactive CC binding: maps incoming MIDI CC to LED ring visualization.
#[derive(Debug, Clone, Copy, PartialEq, Eq, Structural)]
pub struct ListenCc {
    pub cc: u8,
    pub channel: u8,
    /// Visualization mode (default: Heatmap).
    pub mode: ListenMode,
    /// Threshold for trigger mode (default: 64). A value at or above it is on.
    pub threshold: u8,
}

/// How the LED ring reacts to incoming CC.
#[derive(Debug, Clone, Copy, PartialEq, Eq, Structural)]
pub enum ListenMode {
    /// Fill proportional to value (0-127 to 0-12 LEDs).
    Heatmap,
    /// On/off using button's color+animation when the value reaches the threshold.
    Trigger,
}

impl Default for ListenMode {
    fn default() -> (r: Self)
        ensures
            r == ListenMode::Heatmap,
    {
        ListenMode::Heatmap
    }
}

#[derive(Debug, Clone, Copy, PartialEq, Eq, Structural)]
pub enum ButtonMode {
    /// Fire on_press once per press
    Momentary,
    /// Alternate between on_press (pos 1) and on_release (pos 2)
    Toggle,
    /// Only one button in the group can be active (others deactivate)
    RadioGroup(u8),
}

impl Default for ButtonMode {
    fn default() -> (r: Self)
        ensures
            r == ButtonMode::Momentary,
    {
        ButtonMode::Momentary
    }
}

// --- Actions ---

#[derive(Debug, Clone, Copy, PartialEq, Eq)]
pub enum Action {
    /// Raw MIDI message (1-3 bytes, encoded ahead of time).
    Midi { data: [u8; 3], len: u8 },
    /// CC cycling through button's cycle_values list on each press (stateful)
    CcCycle { cc: u8, channel: u8, reverse: bool },
    /// Set LED state (for sequencing LED changes in action lists)
    SetLed { color: Color, animation: LedAnimation },
    /// Delay in ms between actions in a sequence
    Delay(u16),
    /// Switch to preset by index
    PresetSelect(u8),
    /// Next preset
    PresetNext,
    /// Previous preset
    PresetPrev,
    /// Bank up (scroll preset page)
    BankUp,
    /// Bank down
    BankDown,
    /// Control Change
    Cc { cc: u8, value: u8, channel: u8 },
    /// Program Change
    ProgramChange { program: u8, channel: u8 },
    /// Note On, velocity 127
    NoteOn { note: u8, channel: u8 },
    /// Note Off, velocity 0
    NoteOff { note: u8, channel: u8 },
    /// Tap tempo: four taps give a tempo
    TapTempo,
}

/// The status byte of a message of kind `kind` on `channel` (1 to 16).
pub open spec fn status_byte(kind: u8, channel: u8) -> u8 {
    kind | ((channel - 1) as u8)
}

/// On a channel from 1 to 16 the high half of a status byte is the kind of the
/// message and the low half is the channel, counted from 0.
pub proof fn law_status_byte(kind: u8, channel: u8)
    requires
        1 <= channel <= 16,
        kind & 0x0F == 0,
    ensures
        status_byte(kind, channel) & 0xF0 == kind,
        (status_byte(kind, channel) & 0x0F) + 1 == channel,
        status_byte(kind, channel) == kind + (channel - 1),
{
    let low: u8 = (channel - 1) as u8;
    assert((kind | low) & 0xF0 == kind && (kind | low) & 0x0F == low && (kind | low) == kind + low)
        by (bit_vector)
        requires
            kind & 0x0F == 0,
            low <= 15,
    ;
}

/// The raw message of a Control Change, where its bytes and its channel are valid.
pub open spec fn cc_action(cc: u8, value: u8, channel: u8) -> Option<Action> {
    if cc <= 127 && value <= 127 && 1 <= channel <= 16 {
        Some(Action::Midi { data: [status_byte(0xB0, channel), cc, value], len: 3 })
    } else {
        None
    }
}

/// The raw message of a Program Change, where its bytes and its channel are valid.
pub open spec fn program_change_action(program: u8, channel: u8) -> Option<Action> {
    if program <= 127 && 1 <= channel <= 16 {
        Some(Action::Midi { data: [status_byte(0xC0, channel), program, 0], len: 2 })
    } else {
        None
    }
}

/// The raw message of a Note On, where its bytes and its channel are valid.
pub open spec fn note_on_action(note: u8, channel: u8) -> Option<Action> {
    if note <= 127 && 1 <= channel <= 16 {
        Some(Action::Midi { data: [status_byte(0x90, channel), note, 127], len: 3 })
    } else {
        None
    }
}

/// The raw message of a Note Off, where its bytes and its channel are valid.
pub open spec fn note_off_action(note: u8, channel: u8) -> Option<Action> {
    if note <= 127 && 1 <= channel <= 16 {
        Some(Action::Midi { data: [status_byte(0x80, channel), note, 0], len: 3 })
    } else {
        None
    }
}

impl Action {
    /// Control Change (status 0xBn).
    /// Returns `None` if cc > 127, value > 127, or channel not in 1..=16.
    pub fn cc(cc: u8, value: u8, channel: u8) -> (r: Option<Self>)
        ensures
            r == cc_action(cc, value, channel),
    {
        if cc > 127 || value > 127 || channel == 0 || channel > 16 {
            return None;
        }
        Some(Action::Midi { data: [0xB0 | (channel - 1), cc, value], len: 3 })
    }

    /// Program Change (status 0xCn).
    /// Returns `None` if program > 127 or channel not in 1..=16.
    pub fn program_change(program: u8, channel: u8) -> (r: Option<Self>)
        ensures
            r == program_change_action(program, channel),
    {
        if program > 127 || channel == 0 || channel > 16 {
            return None;
        }
        Some(Action::Midi { data: [0xC0 | (channel - 1), program, 0], len: 2 })
    }

    /// Note On (status 0x9n, velocity 127).
    /// Returns `None` if note > 127 or channel not in 1..=16.
    pub fn note_on(note: u8, channel: u8) -> (r: Option<Self>)
        ensures
            r == note_on_action(note, channel),
    {
        if note > 127 || channel == 0 || channel > 16 {
            return None;
        }
        Some(Action::Midi { data: [0x90 | (channel - 1), note, 127], len: 3 })
    }

    /// Note Off (status 0x8n, velocity 0).
    /// Returns `None` if note > 127 or channel not in 1..=16.
    pub fn note_off(note: u8, channel: u8) -> (r: Option<Self>)
        ensures
            r == note_off_action(note, channel),
    {
        if note > 127 || channel == 0 || channel > 16 {
            return None;
        }
        Some(Action::Midi { data: [0x80 | (channel - 1), note, 0], len: 3 })
    }
}

// --- Encoders ---

#[derive(Debug, Clone, PartialEq, Eq)]
pub struct EncoderConfig {
    pub label: Label,
    pub action: EncoderAction,
}

#[allow(inconsistent_fields)]
#[derive(Debug, Clone, Copy, PartialEq, Eq, Structural)]
pub enum EncoderAction {
    Cc { cc: u16, channel: u8, min: u8, max: u8 },
    /// Two separate CC values for CW/CCW (e.g. relative encoding)
    CcRelative { cc: u8, channel: u8, increment: u8, decrement: u8 },
    PresetScroll,
}

// --- Analog (expression pedals) ---

#[derive(Debug, Clone, PartialEq, Eq)]
pub struct AnalogConfig {
    pub label: Label,
    pub cc: u8,
    pub channel: u8,
    pub min: u8,
    pub max: u8,
}

// --- LED ---

#[derive(Debug, Clone, Copy, PartialEq, Eq, Structural)]
pub struct LedConfig {
    /// Color when active/on
    pub on: Color,
    /// Color when inactive/off
    pub off: Color,
    /// Animation modifier when active (default: Solid)
    pub animation: LedAnimation,
    /// Spatial renderer (default: Solid, all 12 LEDs)
    pub renderer: LedRenderer,
    /// Renderer parameter (fill count, wing count, single position)
    pub renderer_param: u8,
}

#[derive(Debug, Clone, Copy, PartialEq, Eq, Structural)]
pub enum Color {
    Off,
    Red,
    Green,
    Blue,
    Yellow,
    Cyan,
    Magenta,
    White,
    Orange,
    Purple,
    /// RGB
    Custom(u8, u8, u8),
}

impl Default for Color {
    fn default() -> (r: Self)
        ensures
            r == Color::Off,
    {
        Color::Off
    }
}

#[derive(Debug, Clone, Copy, PartialEq, Eq, Structural)]
pub enum LedAnimation {
    Solid,
    Blink,
    Pulse,
    Rotate,
    ColorCycle,
}

impl Default for LedAnimation {
    fn default() -> (r: Self)
        ensures
            r == LedAnimation::Solid,
    {
        LedAnimation::Solid
    }
}

#[derive(Debug, Clone, Copy, PartialEq, Eq, Structural)]
pub enum LedRenderer {
    /// All 12 LEDs same color
    Solid,
    /// Partial arc (param = count 1-12)
    Fill,
    /// Single LED (param = clock position 0-11)
    Single,
    /// N evenly-spaced LEDs (param = count 1-6)
    Dots,
}

impl Default for LedRenderer {
    fn default() -> (r: Self)
        ensures
            r == LedRenderer::Solid,
    {
        LedRenderer::Solid
    }
}

impl Default for LedConfig {
    fn default() -> (r: Self)
        ensures
            r == (LedConfig {
                on: Color::Off,
                off: Color::Off,
                animation: LedAnimation::Solid,
                renderer: LedRenderer::Solid,
                renderer_param: 0,
            }),
    {
        LedConfig {
            on: Color::Off,
            off: Color::Off,
            animation: LedAnimation::Solid,
            renderer: LedRenderer::Solid,
            renderer_param: 0,
        }
    }
}

} // verus!
