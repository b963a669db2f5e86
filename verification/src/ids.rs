//! The enumerated identifiers of the mixer model.
//!
//! Every fixed-size collection in the status tree is indexed by one of these
//! enumerations.  Each enumeration carries an explicit cardinality constant and
//! a total, bijective mapping between its variants and the positions
//! `0 .. COUNT`; the `EnumIndex` trait packages that mapping so that array
//! accessors and the wire codec can be written once, generically.

use vstd::prelude::*;

verus! {

/// A closed identifier set with a fixed position for every variant.
///
/// `index_spec` maps each variant to a distinct position below the
/// enumeration's cardinality, and `from_index_spec` inverts it; the
/// round-trip lemma records both facts for every implementor.
pub trait EnumIndex: Sized + Copy {
    spec fn index_spec(self) -> int;

    spec fn from_index_spec(i: int) -> Option<Self>;

    fn index(self) -> (r: usize)
        ensures
            r == self.index_spec(),
        ;

    fn from_index(i: usize) -> (r: Option<Self>)
        ensures
            r == Self::from_index_spec(i as int),
        ;

    proof fn lemma_index_roundtrip(self)
        ensures
            0 <= self.index_spec() < 0x10000,
            Self::from_index_spec(self.index_spec()) == Some(self),
        ;
}

pub const CHANNEL_COUNT: usize = 11;

#[derive(Debug, Clone, Copy, PartialEq, Eq, Structural)]
pub enum ChannelName {
    Mic,
    LineIn,
    Console,
    System,
    Game,
    Chat,
    Sample,
    Music,
    Headphones,
    MicMonitor,
    LineOut,
}

impl EnumIndex for ChannelName {
    open spec fn index_spec(self) -> int {
        match self {
            ChannelName::Mic => 0,
            ChannelName::LineIn => 1,
            ChannelName::Console => 2,
            ChannelName::System => 3,
            ChannelName::Game => 4,
            ChannelName::Chat => 5,
            ChannelName::Sample => 6,
            ChannelName::Music => 7,
            ChannelName::Headphones => 8,
            ChannelName::MicMonitor => 9,
            ChannelName::LineOut => 10,
        }
    }

    open spec fn from_index_spec(i: int) -> Option<ChannelName> {
        if i == 0 {
            Some(ChannelName::Mic)
        } else if i == 1 {
            Some(ChannelName::LineIn)
        } else if i == 2 {
            Some(ChannelName::Console)
        } else if i == 3 {
            Some(ChannelName::System)
        } else if i == 4 {
            Some(ChannelName::Game)
        } else if i == 5 {
            Some(ChannelName::Chat)
        } else if i == 6 {
            Some(ChannelName::Sample)
        } else if i == 7 {
            Some(ChannelName::Music)
        } else if i == 8 {
            Some(ChannelName::Headphones)
        } else if i == 9 {
            Some(ChannelName::MicMonitor)
        } else if i == 10 {
            Some(ChannelName::LineOut)
        } else {
            None
        }
    }

    fn index(self) -> (r: usize) {
        match self {
            ChannelName::Mic => 0,
            ChannelName::LineIn => 1,
            ChannelName::Console => 2,
            ChannelName::System => 3,
            ChannelName::Game => 4,
            ChannelName::Chat => 5,
            ChannelName::Sample => 6,
            ChannelName::Music => 7,
            ChannelName::Headphones => 8,
            ChannelName::MicMonitor => 9,
            ChannelName::LineOut => 10,
        }
    }

    fn from_index(i: usize) -> (r: Option<ChannelName>) {
        if i == 0 {
            Some(ChannelName::Mic)
        } else if i == 1 {
            Some(ChannelName::LineIn)
        } else if i == 2 {
            Some(ChannelName::Console)
        } else if i == 3 {
            Some(ChannelName::System)
        } else if i == 4 {
            Some(ChannelName::Game)
        } else if i == 5 {
            Some(ChannelName::Chat)
        } else if i == 6 {
            Some(ChannelName::Sample)
        } else if i == 7 {
            Some(ChannelName::Music)
        } else if i == 8 {
            Some(ChannelName::Headphones)
        } else if i == 9 {
            Some(ChannelName::MicMonitor)
        } else if i == 10 {
            Some(ChannelName::LineOut)
        } else {
            None
        }
    }

    proof fn lemma_index_roundtrip(self) {
    }
}

pub const FADER_COUNT: usize = 4;

#[derive(Debug, Clone, Copy, PartialEq, Eq, Structural)]
pub enum FaderName {
    A,
    B,
    C,
    D,
}

impl EnumIndex for FaderName {
    open spec fn index_spec(self) -> int {
        match self {
            FaderName::A => 0,
            FaderName::B => 1,
            FaderName::C => 2,
            FaderName::D => 3,
        }
    }

    open spec fn from_index_spec(i: int) -> Option<FaderName> {
        if i == 0 {
            Some(FaderName::A)
        } else if i == 1 {
            Some(FaderName::B)
        } else if i == 2 {
            Some(FaderName::C)
        } else if i == 3 {
            Some(FaderName::D)
        } else {
            None
        }
    }

    fn index(self) -> (r: usize) {
        match self {
            FaderName::A => 0,
            FaderName::B => 1,
            FaderName::C => 2,
            FaderName::D => 3,
        }
    }

    fn from_index(i: usize) -> (r: Option<FaderName>) {
        if i == 0 {
            Some(FaderName::A)
        } else if i == 1 {
            Some(FaderName::B)
        } else if i == 2 {
            Some(FaderName::C)
        } else if i == 3 {
            Some(FaderName::D)
        } else {
            None
        }
    }

    proof fn lemma_index_roundtrip(self) {
    }
}

pub const INPUT_COUNT: usize = 8;

#[derive(Debug, Clone, Copy, PartialEq, Eq, Structural)]
pub enum InputDevice {
    Microphone,
    Chat,
    Music,
    Game,
    Console,
    LineIn,
    System,
    Samples,
}

impl EnumIndex for InputDevice {
    open spec fn index_spec(self) -> int {
        match self {
            InputDevice::Microphone => 0,
            InputDevice::Chat => 1,
            InputDevice::Music => 2,
            InputDevice::Game => 3,
            InputDevice::Console => 4,
            InputDevice::LineIn => 5,
            InputDevice::System => 6,
            InputDevice::Samples => 7,
        }
    }

    open spec fn from_index_spec(i: int) -> Option<InputDevice> {
        if i == 0 {
            Some(InputDevice::Microphone)
        } else if i == 1 {
            Some(InputDevice::Chat)
        } else if i == 2 {
            Some(InputDevice::Music)
        } else if i == 3 {
            Some(InputDevice::Game)
        } else if i == 4 {
            Some(InputDevice::Console)
        } else if i == 5 {
            Some(InputDevice::LineIn)
        } else if i == 6 {
            Some(InputDevice::System)
        } else if i == 7 {
            Some(InputDevice::Samples)
        } else {
            None
        }
    }

    fn index(self) -> (r: usize) {
        match self {
            InputDevice::Microphone => 0,
            InputDevice::Chat => 1,
            InputDevice::Music => 2,
            InputDevice::Game => 3,
            InputDevice::Console => 4,
            InputDevice::LineIn => 5,
            InputDevice::System => 6,
            InputDevice::Samples => 7,
        }
    }

    fn from_index(i: usize) -> (r: Option<InputDevice>) {
        if i == 0 {
            Some(InputDevice::Microphone)
        } else if i == 1 {
            Some(InputDevice::Chat)
        } else if i == 2 {
            Some(InputDevice::Music)
        } else if i == 3 {
            Some(InputDevice::Game)
        } else if i == 4 {
            Some(InputDevice::Console)
        } else if i == 5 {
            Some(InputDevice::LineIn)
        } else if i == 6 {
            Some(InputDevice::System)
        } else if i == 7 {
            Some(InputDevice::Samples)
        } else {
            None
        }
    }

    proof fn lemma_index_roundtrip(self) {
    }
}

pub const OUTPUT_COUNT: usize = 5;

#[derive(Debug, Clone, Copy, PartialEq, Eq, Structural)]
pub enum OutputDevice {
    Headphones,
    BroadcastMix,
    ChatMic,
    Sampler,
    LineOut,
}

impl EnumIndex for OutputDevice {
    open spec fn index_spec(self) -> int {
        match self {
            OutputDevice::Headphones => 0,
            OutputDevice::BroadcastMix => 1,
            OutputDevice::ChatMic => 2,
            OutputDevice::Sampler => 3,
            OutputDevice::LineOut => 4,
        }
    }

    open spec fn from_index_spec(i: int) -> Option<OutputDevice> {
        if i == 0 {
            Some(OutputDevice::Headphones)
        } else if i == 1 {
            Some(OutputDevice::BroadcastMix)
        } else if i == 2 {
            Some(OutputDevice::ChatMic)
        } else if i == 3 {
            Some(OutputDevice::Sampler)
        } else if i == 4 {
            Some(OutputDevice::LineOut)
        } else {
            None
        }
    }

    fn index(self) -> (r: usize) {
        match self {
            OutputDevice::Headphones => 0,
            OutputDevice::BroadcastMix => 1,
            OutputDevice::ChatMic => 2,
            OutputDevice::Sampler => 3,
            OutputDevice::LineOut => 4,
        }
    }

    fn from_index(i: usize) -> (r: Option<OutputDevice>) {
        if i == 0 {
            Some(OutputDevice::Headphones)
        } else if i == 1 {
            Some(OutputDevice::BroadcastMix)
        } else if i == 2 {
            Some(OutputDevice::ChatMic)
        } else if i == 3 {
            Some(OutputDevice::Sampler)
        } else if i == 4 {
            Some(OutputDevice::LineOut)
        } else {
            None
        }
    }

    proof fn lemma_index_roundtrip(self) {
    }
}

pub const MUTE_FUNCTION_COUNT: usize = 5;

#[derive(Debug, Clone, Copy, PartialEq, Eq, Structural)]
pub enum MuteFunction {
    All,
    ToStream,
    ToVoiceChat,
    ToPhones,
    ToLineOut,
}

impl EnumIndex for MuteFunction {
    open spec fn index_spec(self) -> int {
        match self {
            MuteFunction::All => 0,
            MuteFunction::ToStream => 1,
            MuteFunction::ToVoiceChat => 2,
            MuteFunction::ToPhones => 3,
            MuteFunction::ToLineOut => 4,
        }
    }

    open spec fn from_index_spec(i: int) -> Option<MuteFunction> {
        if i == 0 {
            Some(MuteFunction::All)
        } else if i == 1 {
            Some(MuteFunction::ToStream)
        } else if i == 2 {
            Some(MuteFunction::ToVoiceChat)
        } else if i == 3 {
            Some(MuteFunction::ToPhones)
        } else if i == 4 {
            Some(MuteFunction::ToLineOut)
        } else {
            None
        }
    }

    fn index(self) -> (r: usize) {
        match self {
            MuteFunction::All => 0,
            MuteFunction::ToStream => 1,
            MuteFunction::ToVoiceChat => 2,
            MuteFunction::ToPhones => 3,
            MuteFunction::ToLineOut => 4,
        }
    }

    fn from_index(i: usize) -> (r: Option<MuteFunction>) {
        if i == 0 {
            Some(MuteFunction::All)
        } else if i == 1 {
            Some(MuteFunction::ToStream)
        } else if i == 2 {
            Some(MuteFunction::ToVoiceChat)
        } else if i == 3 {
            Some(MuteFunction::ToPhones)
        } else if i == 4 {
            Some(MuteFunction::ToLineOut)
        } else {
            None
        }
    }

    proof fn lemma_index_roundtrip(self) {
    }
}

pub const MICROPHONE_TYPE_COUNT: usize = 3;

#[derive(Debug, Clone, Copy, PartialEq, Eq, Structural)]
pub enum MicrophoneType {
    Dynamic,
    Condenser,
    Jack,
}

impl EnumIndex for MicrophoneType {
    open spec fn index_spec(self) -> int {
        match self {
            MicrophoneType::Dynamic => 0,
            MicrophoneType::Condenser => 1,
            MicrophoneType::Jack => 2,
        }
    }

    open spec fn from_index_spec(i: int) -> Option<MicrophoneType> {
        if i == 0 {
            Some(MicrophoneType::Dynamic)
        } else if i == 1 {
            Some(MicrophoneType::Condenser)
        } else if i == 2 {
            Some(MicrophoneType::Jack)
        } else {
            None
        }
    }

    fn index(self) -> (r: usize) {
        match self {
            MicrophoneType::Dynamic => 0,
            MicrophoneType::Condenser => 1,
            MicrophoneType::Jack => 2,
        }
    }

    fn from_index(i: usize) -> (r: Option<MicrophoneType>) {
        if i == 0 {
            Some(MicrophoneType::Dynamic)
        } else if i == 1 {
            Some(MicrophoneType::Condenser)
        } else if i == 2 {
            Some(MicrophoneType::Jack)
        } else {
            None
        }
    }

    proof fn lemma_index_roundtrip(self) {
    }
}

pub const EQ_FREQUENCY_COUNT: usize = 10;

#[derive(Debug, Clone, Copy, PartialEq, Eq, Structural)]
pub enum EqFrequencies {
    Eq31Hz,
    Eq63Hz,
    Eq125Hz,
    Eq250Hz,
    Eq500Hz,
    Eq1KHz,
    Eq2KHz,
    Eq4KHz,
    Eq8KHz,
    Eq16KHz,
}

impl EnumIndex for EqFrequencies {
    open spec fn index_spec(self) -> int {
        match self {
            EqFrequencies::Eq31Hz => 0,
            EqFrequencies::Eq63Hz => 1,
            EqFrequencies::Eq125Hz => 2,
            EqFrequencies::Eq250Hz => 3,
            EqFrequencies::Eq500Hz => 4,
            EqFrequencies::Eq1KHz => 5,
            EqFrequencies::Eq2KHz => 6,
            EqFrequencies::Eq4KHz => 7,
            EqFrequencies::Eq8KHz => 8,
            EqFrequencies::Eq16KHz => 9,
        }
    }

    open spec fn from_index_spec(i: int) -> Option<EqFrequencies> {
        if i == 0 {
            Some(EqFrequencies::Eq31Hz)
        } else if i == 1 {
            Some(EqFrequencies::Eq63Hz)
        } else if i == 2 {
            Some(EqFrequencies::Eq125Hz)
        } else if i == 3 {
            Some(EqFrequencies::Eq250Hz)
        } else if i == 4 {
            Some(EqFrequencies::Eq500Hz)
        } else if i == 5 {
            Some(EqFrequencies::Eq1KHz)
        } else if i == 6 {
            Some(EqFrequencies::Eq2KHz)
        } else if i == 7 {
            Some(EqFrequencies::Eq4KHz)
        } else if i == 8 {
            Some(EqFrequencies::Eq8KHz)
        } else if i == 9 {
            Some(EqFrequencies::Eq16KHz)
        } else {
            None
        }
    }

    fn index(self) -> (r: usize) {
        match self {
            EqFrequencies::Eq31Hz => 0,
            EqFrequencies::Eq63Hz => 1,
            EqFrequencies::Eq125Hz => 2,
            EqFrequencies::Eq250Hz => 3,
            EqFrequencies::Eq500Hz => 4,
            EqFrequencies::Eq1KHz => 5,
            EqFrequencies::Eq2KHz => 6,
            EqFrequencies::Eq4KHz => 7,
            EqFrequencies::Eq8KHz => 8,
            EqFrequencies::Eq16KHz => 9,
        }
    }

    fn from_index(i: usize) -> (r: Option<EqFrequencies>) {
        if i == 0 {
            Some(EqFrequencies::Eq31Hz)
        } else if i == 1 {
            Some(EqFrequencies::Eq63Hz)
        } else if i == 2 {
            Some(EqFrequencies::Eq125Hz)
        } else if i == 3 {
            Some(EqFrequencies::Eq250Hz)
        } else if i == 4 {
            Some(EqFrequencies::Eq500Hz)
        } else if i == 5 {
            Some(EqFrequencies::Eq1KHz)
        } else if i == 6 {
            Some(EqFrequencies::Eq2KHz)
        } else if i == 7 {
            Some(EqFrequencies::Eq4KHz)
        } else if i == 8 {
            Some(EqFrequencies::Eq8KHz)
        } else if i == 9 {
            Some(EqFrequencies::Eq16KHz)
        } else {
            None
        }
    }

    proof fn lemma_index_roundtrip(self) {
    }
}

pub const MINI_EQ_FREQUENCY_COUNT: usize = 6;

#[derive(Debug, Clone, Copy, PartialEq, Eq, Structural)]
pub enum MiniEqFrequencies {
    Eq90Hz,
    Eq250Hz,
    Eq500Hz,
    Eq1KHz,
    Eq3KHz,
    Eq8KHz,
}

impl EnumIndex for MiniEqFrequencies {
    open spec fn index_spec(self) -> int {
        match self {
            MiniEqFrequencies::Eq90Hz => 0,
            MiniEqFrequencies::Eq250Hz => 1,
            MiniEqFrequencies::Eq500Hz => 2,
            MiniEqFrequencies::Eq1KHz => 3,
            MiniEqFrequencies::Eq3KHz => 4,
            MiniEqFrequencies::Eq8KHz => 5,
        }
    }

    open spec fn from_index_spec(i: int) -> Option<MiniEqFrequencies> {
        if i == 0 {
            Some(MiniEqFrequencies::Eq90Hz)
        } else if i == 1 {
            Some(MiniEqFrequencies::Eq250Hz)
        } else if i == 2 {
            Some(MiniEqFrequencies::Eq500Hz)
        } else if i == 3 {
            Some(MiniEqFrequencies::Eq1KHz)
        } else if i == 4 {
            Some(MiniEqFrequencies::Eq3KHz)
        } else if i == 5 {
            Some(MiniEqFrequencies::Eq8KHz)
        } else {
            None
        }
    }

    fn index(self) -> (r: usize) {
        match self {
            MiniEqFrequencies::Eq90Hz => 0,
            MiniEqFrequencies::Eq250Hz => 1,
            MiniEqFrequencies::Eq500Hz => 2,
            MiniEqFrequencies::Eq1KHz => 3,
            MiniEqFrequencies::Eq3KHz => 4,
            MiniEqFrequencies::Eq8KHz => 5,
        }
    }

    fn from_index(i: usize) -> (r: Option<MiniEqFrequencies>) {
        if i == 0 {
            Some(MiniEqFrequencies::Eq90Hz)
        } else if i == 1 {
            Some(MiniEqFrequencies::Eq250Hz)
        } else if i == 2 {
            Some(MiniEqFrequencies::Eq500Hz)
        } else if i == 3 {
            Some(MiniEqFrequencies::Eq1KHz)
        } else if i == 4 {
            Some(MiniEqFrequencies::Eq3KHz)
        } else if i == 5 {
            Some(MiniEqFrequencies::Eq8KHz)
        } else {
            None
        }
    }

    proof fn lemma_index_roundtrip(self) {
    }
}

pub const GATE_TIME_COUNT: usize = 8;

#[derive(Debug, Clone, Copy, PartialEq, Eq, Structural)]
pub enum GateTimes {
    Gate10ms,
    Gate20ms,
    Gate30ms,
    Gate40ms,
    Gate50ms,
    Gate100ms,
    Gate200ms,
    Gate500ms,
}

impl EnumIndex for GateTimes {
    open spec fn index_spec(self) -> int {
        match self {
            GateTimes::Gate10ms => 0,
            GateTimes::Gate20ms => 1,
            GateTimes::Gate30ms => 2,
            GateTimes::Gate40ms => 3,
            GateTimes::Gate50ms => 4,
            GateTimes::Gate100ms => 5,
            GateTimes::Gate200ms => 6,
            GateTimes::Gate500ms => 7,
        }
    }

    open spec fn from_index_spec(i: int) -> Option<GateTimes> {
        if i == 0 {
            Some(GateTimes::Gate10ms)
        } else if i == 1 {
            Some(GateTimes::Gate20ms)
        } else if i == 2 {
            Some(GateTimes::Gate30ms)
        } else if i == 3 {
            Some(GateTimes::Gate40ms)
        } else if i == 4 {
            Some(GateTimes::Gate50ms)
        } else if i == 5 {
            Some(GateTimes::Gate100ms)
        } else if i == 6 {
            Some(GateTimes::Gate200ms)
        } else if i == 7 {
            Some(GateTimes::Gate500ms)
        } else {
            None
        }
    }

    fn index(self) -> (r: usize) {
        match self {
            GateTimes::Gate10ms => 0,
            GateTimes::Gate20ms => 1,
            GateTimes::Gate30ms => 2,
            GateTimes::Gate40ms => 3,
            GateTimes::Gate50ms => 4,
            GateTimes::Gate100ms => 5,
            GateTimes::Gate200ms => 6,
            GateTimes::Gate500ms => 7,
        }
    }

    fn from_index(i: usize) -> (r: Option<GateTimes>) {
        if i == 0 {
            Some(GateTimes::Gate10ms)
        } else if i == 1 {
            Some(GateTimes::Gate20ms)
        } else if i == 2 {
            Some(GateTimes::Gate30ms)
        } else if i == 3 {
            Some(GateTimes::Gate40ms)
        } else if i == 4 {
            Some(GateTimes::Gate50ms)
        } else if i == 5 {
            Some(GateTimes::Gate100ms)
        } else if i == 6 {
            Some(GateTimes::Gate200ms)
        } else if i == 7 {
            Some(GateTimes::Gate500ms)
        } else {
            None
        }
    }

    proof fn lemma_index_roundtrip(self) {
    }
}

pub const COMPRESSOR_RATIO_COUNT: usize = 15;

#[derive(Debug, Clone, Copy, PartialEq, Eq, Structural)]
pub enum CompressorRatio {
    Ratio1_0,
    Ratio1_1,
    Ratio1_2,
    Ratio1_4,
    Ratio1_6,
    Ratio1_8,
    Ratio2_0,
    Ratio2_5,
    Ratio3_2,
    Ratio4_0,
    Ratio5_6,
    Ratio8_0,
    Ratio16_0,
    Ratio32_0,
    Ratio64_0,
}

impl EnumIndex for CompressorRatio {
    open spec fn index_spec(self) -> int {
        match self {
            CompressorRatio::Ratio1_0 => 0,
            CompressorRatio::Ratio1_1 => 1,
            CompressorRatio::Ratio1_2 => 2,
            CompressorRatio::Ratio1_4 => 3,
            CompressorRatio::Ratio1_6 => 4,
            CompressorRatio::Ratio1_8 => 5,
            CompressorRatio::Ratio2_0 => 6,
            CompressorRatio::Ratio2_5 => 7,
            CompressorRatio::Ratio3_2 => 8,
            CompressorRatio::Ratio4_0 => 9,
            CompressorRatio::Ratio5_6 => 10,
            CompressorRatio::Ratio8_0 => 11,
            CompressorRatio::Ratio16_0 => 12,
            CompressorRatio::Ratio32_0 => 13,
            CompressorRatio::Ratio64_0 => 14,
        }
    }

    open spec fn from_index_spec(i: int) -> Option<CompressorRatio> {
        if i == 0 {
            Some(CompressorRatio::Ratio1_0)
        } else if i == 1 {
            Some(CompressorRatio::Ratio1_1)
        } else if i == 2 {
            Some(CompressorRatio::Ratio1_2)
        } else if i == 3 {
            Some(CompressorRatio::Ratio1_4)
        } else if i == 4 {
            Some(CompressorRatio::Ratio1_6)
        } else if i == 5 {
            Some(CompressorRatio::Ratio1_8)
        } else if i == 6 {
            Some(CompressorRatio::Ratio2_0)
        } else if i == 7 {
            Some(CompressorRatio::Ratio2_5)
        } else if i == 8 {
            Some(CompressorRatio::Ratio3_2)
        } else if i == 9 {
            Some(CompressorRatio::Ratio4_0)
        } else if i == 10 {
            Some(CompressorRatio::Ratio5_6)
        } else if i == 11 {
            Some(CompressorRatio::Ratio8_0)
        } else if i == 12 {
            Some(CompressorRatio::Ratio16_0)
        } else if i == 13 {
            Some(CompressorRatio::Ratio32_0)
        } else if i == 14 {
            Some(CompressorRatio::Ratio64_0)
        } else {
            None
        }
    }

    fn index(self) -> (r: usize) {
        match self {
            CompressorRatio::Ratio1_0 => 0,
            CompressorRatio::Ratio1_1 => 1,
            CompressorRatio::Ratio1_2 => 2,
            CompressorRatio::Ratio1_4 => 3,
            CompressorRatio::Ratio1_6 => 4,
            CompressorRatio::Ratio1_8 => 5,
            CompressorRatio::Ratio2_0 => 6,
            CompressorRatio::Ratio2_5 => 7,
            CompressorRatio::Ratio3_2 => 8,
            CompressorRatio::Ratio4_0 => 9,
            CompressorRatio::Ratio5_6 => 10,
            CompressorRatio::Ratio8_0 => 11,
            CompressorRatio::Ratio16_0 => 12,
            CompressorRatio::Ratio32_0 => 13,
            CompressorRatio::Ratio64_0 => 14,
        }
    }

    fn from_index(i: usize) -> (r: Option<CompressorRatio>) {
        if i == 0 {
            Some(CompressorRatio::Ratio1_0)
        } else if i == 1 {
            Some(CompressorRatio::Ratio1_1)
        } else if i == 2 {
            Some(CompressorRatio::Ratio1_2)
        } else if i == 3 {
            Some(CompressorRatio::Ratio1_4)
        } else if i == 4 {
            Some(CompressorRatio::Ratio1_6)
        } else if i == 5 {
            Some(CompressorRatio::Ratio1_8)
        } else if i == 6 {
            Some(CompressorRatio::Ratio2_0)
        } else if i == 7 {
            Some(CompressorRatio::Ratio2_5)
        } else if i == 8 {
            Some(CompressorRatio::Ratio3_2)
        } else if i == 9 {
            Some(CompressorRatio::Ratio4_0)
        } else if i == 10 {
            Some(CompressorRatio::Ratio5_6)
        } else if i == 11 {
            Some(CompressorRatio::Ratio8_0)
        } else if i == 12 {
            Some(CompressorRatio::Ratio16_0)
        } else if i == 13 {
            Some(CompressorRatio::Ratio32_0)
        } else if i == 14 {
            Some(CompressorRatio::Ratio64_0)
        } else {
            None
        }
    }

    proof fn lemma_index_roundtrip(self) {
    }
}

pub const COMPRESSOR_ATTACK_COUNT: usize = 8;

#[derive(Debug, Clone, Copy, PartialEq, Eq, Structural)]
pub enum CompressorAttackTime {
    Comp0ms,
    Comp2ms,
    Comp3ms,
    Comp5ms,
    Comp10ms,
    Comp25ms,
    Comp50ms,
    Comp100ms,
}

impl EnumIndex for CompressorAttackTime {
    open spec fn index_spec(self) -> int {
        match self {
            CompressorAttackTime::Comp0ms => 0,
            CompressorAttackTime::Comp2ms => 1,
            CompressorAttackTime::Comp3ms => 2,
            CompressorAttackTime::Comp5ms => 3,
            CompressorAttackTime::Comp10ms => 4,
            CompressorAttackTime::Comp25ms => 5,
            CompressorAttackTime::Comp50ms => 6,
            CompressorAttackTime::Comp100ms => 7,
        }
    }

    open spec fn from_index_spec(i: int) -> Option<CompressorAttackTime> {
        if i == 0 {
            Some(CompressorAttackTime::Comp0ms)
        } else if i == 1 {
            Some(CompressorAttackTime::Comp2ms)
        } else if i == 2 {
            Some(CompressorAttackTime::Comp3ms)
        } else if i == 3 {
            Some(CompressorAttackTime::Comp5ms)
        } else if i == 4 {
            Some(CompressorAttackTime::Comp10ms)
        } else if i == 5 {
            Some(CompressorAttackTime::Comp25ms)
        } else if i == 6 {
            Some(CompressorAttackTime::Comp50ms)
        } else if i == 7 {
            Some(CompressorAttackTime::Comp100ms)
        } else {
            None
        }
    }

    fn index(self) -> (r: usize) {
        match self {
            CompressorAttackTime::Comp0ms => 0,
            CompressorAttackTime::Comp2ms => 1,
            CompressorAttackTime::Comp3ms => 2,
            CompressorAttackTime::Comp5ms => 3,
            CompressorAttackTime::Comp10ms => 4,
            CompressorAttackTime::Comp25ms => 5,
            CompressorAttackTime::Comp50ms => 6,
            CompressorAttackTime::Comp100ms => 7,
        }
    }

    fn from_index(i: usize) -> (r: Option<CompressorAttackTime>) {
        if i == 0 {
            Some(CompressorAttackTime::Comp0ms)
        } else if i == 1 {
            Some(CompressorAttackTime::Comp2ms)
        } else if i == 2 {
            Some(CompressorAttackTime::Comp3ms)
        } else if i == 3 {
            Some(CompressorAttackTime::Comp5ms)
        } else if i == 4 {
            Some(CompressorAttackTime::Comp10ms)
        } else if i == 5 {
            Some(CompressorAttackTime::Comp25ms)
        } else if i == 6 {
            Some(CompressorAttackTime::Comp50ms)
        } else if i == 7 {
            Some(CompressorAttackTime::Comp100ms)
        } else {
            None
        }
    }

    proof fn lemma_index_roundtrip(self) {
    }
}

pub const COMPRESSOR_RELEASE_COUNT: usize = 8;

#[derive(Debug, Clone, Copy, PartialEq, Eq, Structural)]
pub enum CompressorReleaseTime {
    Comp0ms,
    Comp15ms,
    Comp25ms,
    Comp50ms,
    Comp100ms,
    Comp500ms,
    Comp1000ms,
    Comp3000ms,
}

impl EnumIndex for CompressorReleaseTime {
    open spec fn index_spec(self) -> int {
        match self {
            CompressorReleaseTime::Comp0ms => 0,
            CompressorReleaseTime::Comp15ms => 1,
            CompressorReleaseTime::Comp25ms => 2,
            CompressorReleaseTime::Comp50ms => 3,
            CompressorReleaseTime::Comp100ms => 4,
            CompressorReleaseTime::Comp500ms => 5,
            CompressorReleaseTime::Comp1000ms => 6,
            CompressorReleaseTime::Comp3000ms => 7,
        }
    }

    open spec fn from_index_spec(i: int) -> Option<CompressorReleaseTime> {
        if i == 0 {
            Some(CompressorReleaseTime::Comp0ms)
        } else if i == 1 {
            Some(CompressorReleaseTime::Comp15ms)
        } else if i == 2 {
            Some(CompressorReleaseTime::Comp25ms)
        } else if i == 3 {
            Some(CompressorReleaseTime::Comp50ms)
        } else if i == 4 {
            Some(CompressorReleaseTime::Comp100ms)
        } else if i == 5 {
            Some(CompressorReleaseTime::Comp500ms)
        } else if i == 6 {
            Some(CompressorReleaseTime::Comp1000ms)
        } else if i == 7 {
            Some(CompressorReleaseTime::Comp3000ms)
        } else {
            None
        }
    }

    fn index(self) -> (r: usize) {
        match self {
            CompressorReleaseTime::Comp0ms => 0,
            CompressorReleaseTime::Comp15ms => 1,
            CompressorReleaseTime::Comp25ms => 2,
            CompressorReleaseTime::Comp50ms => 3,
            CompressorReleaseTime::Comp100ms => 4,
            CompressorReleaseTime::Comp500ms => 5,
            CompressorReleaseTime::Comp1000ms => 6,
            CompressorReleaseTime::Comp3000ms => 7,
        }
    }

    fn from_index(i: usize) -> (r: Option<CompressorReleaseTime>) {
        if i == 0 {
            Some(CompressorReleaseTime::Comp0ms)
        } else if i == 1 {
            Some(CompressorReleaseTime::Comp15ms)
        } else if i == 2 {
            Some(CompressorReleaseTime::Comp25ms)
        } else if i == 3 {
            Some(CompressorReleaseTime::Comp50ms)
        } else if i == 4 {
            Some(CompressorReleaseTime::Comp100ms)
        } else if i == 5 {
            Some(CompressorReleaseTime::Comp500ms)
        } else if i == 6 {
            Some(CompressorReleaseTime::Comp1000ms)
        } else if i == 7 {
            Some(CompressorReleaseTime::Comp3000ms)
        } else {
            None
        }
    }

    proof fn lemma_index_roundtrip(self) {
    }
}

pub const FADER_DISPLAY_STYLE_COUNT: usize = 4;

#[derive(Debug, Clone, Copy, PartialEq, Eq, Structural)]
pub enum FaderDisplayStyle {
    TwoColour,
    Gradient,
    Meter,
    GradientMeter,
}

impl EnumIndex for FaderDisplayStyle {
    open spec fn index_spec(self) -> int {
        match self {
            FaderDisplayStyle::TwoColour => 0,
            FaderDisplayStyle::Gradient => 1,
            FaderDisplayStyle::Meter => 2,
            FaderDisplayStyle::GradientMeter => 3,
        }
    }

    open spec fn from_index_spec(i: int) -> Option<FaderDisplayStyle> {
        if i == 0 {
            Some(FaderDisplayStyle::TwoColour)
        } else if i == 1 {
            Some(FaderDisplayStyle::Gradient)
        } else if i == 2 {
            Some(FaderDisplayStyle::Meter)
        } else if i == 3 {
            Some(FaderDisplayStyle::GradientMeter)
        } else {
            None
        }
    }

    fn index(self) -> (r: usize) {
        match self {
            FaderDisplayStyle::TwoColour => 0,
            FaderDisplayStyle::Gradient => 1,
            FaderDisplayStyle::Meter => 2,
            FaderDisplayStyle::GradientMeter => 3,
        }
    }

    fn from_index(i: usize) -> (r: Option<FaderDisplayStyle>) {
        if i == 0 {
            Some(FaderDisplayStyle::TwoColour)
        } else if i == 1 {
            Some(FaderDisplayStyle::Gradient)
        } else if i == 2 {
            Some(FaderDisplayStyle::Meter)
        } else if i == 3 {
            Some(FaderDisplayStyle::GradientMeter)
        } else {
            None
        }
    }

    proof fn lemma_index_roundtrip(self) {
    }
}

pub const BUTTON_OFF_STYLE_COUNT: usize = 3;

#[derive(Debug, Clone, Copy, PartialEq, Eq, Structural)]
pub enum ButtonColourOffStyle {
    Dimmed,
    Colour2,
    DimmedColour2,
}

impl EnumIndex for ButtonColourOffStyle {
    open spec fn index_spec(self) -> int {
        match self {
            ButtonColourOffStyle::Dimmed => 0,
            ButtonColourOffStyle::Colour2 => 1,
            ButtonColourOffStyle::DimmedColour2 => 2,
        }
    }

    open spec fn from_index_spec(i: int) -> Option<ButtonColourOffStyle> {
        if i == 0 {
            Some(ButtonColourOffStyle::Dimmed)
        } else if i == 1 {
            Some(ButtonColourOffStyle::Colour2)
        } else if i == 2 {
            Some(ButtonColourOffStyle::DimmedColour2)
        } else {
            None
        }
    }

    fn index(self) -> (r: usize) {
        match self {
            ButtonColourOffStyle::Dimmed => 0,
            ButtonColourOffStyle::Colour2 => 1,
            ButtonColourOffStyle::DimmedColour2 => 2,
        }
    }

    fn from_index(i: usize) -> (r: Option<ButtonColourOffStyle>) {
        if i == 0 {
            Some(ButtonColourOffStyle::Dimmed)
        } else if i == 1 {
            Some(ButtonColourOffStyle::Colour2)
        } else if i == 2 {
            Some(ButtonColourOffStyle::DimmedColour2)
        } else {
            None
        }
    }

    proof fn lemma_index_roundtrip(self) {
    }
}

pub const BUTTON_TARGET_COUNT: usize = 24;

#[derive(Debug, Clone, Copy, PartialEq, Eq, Structural)]
pub enum ButtonColourTargets {
    Fader1Mute,
    Fader2Mute,
    Fader3Mute,
    Fader4Mute,
    Bleep,
    Cough,
    EffectSelect1,
    EffectSelect2,
    EffectSelect3,
    EffectSelect4,
    EffectSelect5,
    EffectSelect6,
    EffectFx,
    EffectMegaphone,
    EffectRobot,
    EffectHardTune,
    SamplerSelectA,
    SamplerSelectB,
    SamplerSelectC,
    SamplerTopLeft,
    SamplerTopRight,
    SamplerBottomLeft,
    SamplerBottomRight,
    SamplerClear,
}

impl EnumIndex for ButtonColourTargets {
    open spec fn index_spec(self) -> int {
        match self {
            ButtonColourTargets::Fader1Mute => 0,
            ButtonColourTargets::Fader2Mute => 1,
            ButtonColourTargets::Fader3Mute => 2,
            ButtonColourTargets::Fader4Mute => 3,
            ButtonColourTargets::Bleep => 4,
            ButtonColourTargets::Cough => 5,
            ButtonColourTargets::EffectSelect1 => 6,
            ButtonColourTargets::EffectSelect2 => 7,
            ButtonColourTargets::EffectSelect3 => 8,
            ButtonColourTargets::EffectSelect4 => 9,
            ButtonColourTargets::EffectSelect5 => 10,
            ButtonColourTargets::EffectSelect6 => 11,
            ButtonColourTargets::EffectFx => 12,
            ButtonColourTargets::EffectMegaphone => 13,
            ButtonColourTargets::EffectRobot => 14,
            ButtonColourTargets::EffectHardTune => 15,
            ButtonColourTargets::SamplerSelectA => 16,
            ButtonColourTargets::SamplerSelectB => 17,
            ButtonColourTargets::SamplerSelectC => 18,
            ButtonColourTargets::SamplerTopLeft => 19,
            ButtonColourTargets::SamplerTopRight => 20,
            ButtonColourTargets::SamplerBottomLeft => 21,
            ButtonColourTargets::SamplerBottomRight => 22,
            ButtonColourTargets::SamplerClear => 23,
        }
    }

    open spec fn from_index_spec(i: int) -> Option<ButtonColourTargets> {
        if i == 0 {
            Some(ButtonColourTargets::Fader1Mute)
        } else if i == 1 {
            Some(ButtonColourTargets::Fader2Mute)
        } else if i == 2 {
            Some(ButtonColourTargets::Fader3Mute)
        } else if i == 3 {
            Some(ButtonColourTargets::Fader4Mute)
        } else if i == 4 {
            Some(ButtonColourTargets::Bleep)
        } else if i == 5 {
            Some(ButtonColourTargets::Cough)
        } else if i == 6 {
            Some(ButtonColourTargets::EffectSelect1)
        } else if i == 7 {
            Some(ButtonColourTargets::EffectSelect2)
        } else if i == 8 {
            Some(ButtonColourTargets::EffectSelect3)
        } else if i == 9 {
            Some(ButtonColourTargets::EffectSelect4)
        } else if i == 10 {
            Some(ButtonColourTargets::EffectSelect5)
        } else if i == 11 {
            Some(ButtonColourTargets::EffectSelect6)
        } else if i == 12 {
            Some(ButtonColourTargets::EffectFx)
        } else if i == 13 {
            Some(ButtonColourTargets::EffectMegaphone)
        } else if i == 14 {
            Some(ButtonColourTargets::EffectRobot)
        } else if i == 15 {
            Some(ButtonColourTargets::EffectHardTune)
        } else if i == 16 {
            Some(ButtonColourTargets::SamplerSelectA)
        } else if i == 17 {
            Some(ButtonColourTargets::SamplerSelectB)
        } else if i == 18 {
            Some(ButtonColourTargets::SamplerSelectC)
        } else if i == 19 {
            Some(ButtonColourTargets::SamplerTopLeft)
        } else if i == 20 {
            Some(ButtonColourTargets::SamplerTopRight)
        } else if i == 21 {
            Some(ButtonColourTargets::SamplerBottomLeft)
        } else if i == 22 {
            Some(ButtonColourTargets::SamplerBottomRight)
        } else if i == 23 {
            Some(ButtonColourTargets::SamplerClear)
        } else {
            None
        }
    }

    fn index(self) -> (r: usize) {
        match self {
            ButtonColourTargets::Fader1Mute => 0,
            ButtonColourTargets::Fader2Mute => 1,
            ButtonColourTargets::Fader3Mute => 2,
            ButtonColourTargets::Fader4Mute => 3,
            ButtonColourTargets::Bleep => 4,
            ButtonColourTargets::Cough => 5,
            ButtonColourTargets::EffectSelect1 => 6,
            ButtonColourTargets::EffectSelect2 => 7,
            ButtonColourTargets::EffectSelect3 => 8,
            ButtonColourTargets::EffectSelect4 => 9,
            ButtonColourTargets::EffectSelect5 => 10,
            ButtonColourTargets::EffectSelect6 => 11,
            ButtonColourTargets::EffectFx => 12,
            ButtonColourTargets::EffectMegaphone => 13,
            ButtonColourTargets::EffectRobot => 14,
            ButtonColourTargets::EffectHardTune => 15,
            ButtonColourTargets::SamplerSelectA => 16,
            ButtonColourTargets::SamplerSelectB => 17,
            ButtonColourTargets::SamplerSelectC => 18,
            ButtonColourTargets::SamplerTopLeft => 19,
            ButtonColourTargets::SamplerTopRight => 20,
            ButtonColourTargets::SamplerBottomLeft => 21,
            ButtonColourTargets::SamplerBottomRight => 22,
            ButtonColourTargets::SamplerClear => 23,
        }
    }

    fn from_index(i: usize) -> (r: Option<ButtonColourTargets>) {
        if i == 0 {
            Some(ButtonColourTargets::Fader1Mute)
        } else if i == 1 {
            Some(ButtonColourTargets::Fader2Mute)
        } else if i == 2 {
            Some(ButtonColourTargets::Fader3Mute)
        } else if i == 3 {
            Some(ButtonColourTargets::Fader4Mute)
        } else if i == 4 {
            Some(ButtonColourTargets::Bleep)
        } else if i == 5 {
            Some(ButtonColourTargets::Cough)
        } else if i == 6 {
            Some(ButtonColourTargets::EffectSelect1)
        } else if i == 7 {
            Some(ButtonColourTargets::EffectSelect2)
        } else if i == 8 {
            Some(ButtonColourTargets::EffectSelect3)
        } else if i == 9 {
            Some(ButtonColourTargets::EffectSelect4)
        } else if i == 10 {
            Some(ButtonColourTargets::EffectSelect5)
        } else if i == 11 {
            Some(ButtonColourTargets::EffectSelect6)
        } else if i == 12 {
            Some(ButtonColourTargets::EffectFx)
        } else if i == 13 {
            Some(ButtonColourTargets::EffectMegaphone)
        } else if i == 14 {
            Some(ButtonColourTargets::EffectRobot)
        } else if i == 15 {
            Some(ButtonColourTargets::EffectHardTune)
        } else if i == 16 {
            Some(ButtonColourTargets::SamplerSelectA)
        } else if i == 17 {
            Some(ButtonColourTargets::SamplerSelectB)
        } else if i == 18 {
            Some(ButtonColourTargets::SamplerSelectC)
        } else if i == 19 {
            Some(ButtonColourTargets::SamplerTopLeft)
        } else if i == 20 {
            Some(ButtonColourTargets::SamplerTopRight)
        } else if i == 21 {
            Some(ButtonColourTargets::SamplerBottomLeft)
        } else if i == 22 {
            Some(ButtonColourTargets::SamplerBottomRight)
        } else if i == 23 {
            Some(ButtonColourTargets::SamplerClear)
        } else {
            None
        }
    }

    proof fn lemma_index_roundtrip(self) {
    }
}

pub const SIMPLE_TARGET_COUNT: usize = 7;

#[derive(Debug, Clone, Copy, PartialEq, Eq, Structural)]
pub enum SimpleColourTargets {
    Global,
    Accent,
    Scribble1,
    Scribble2,
    Scribble3,
    Scribble4,
    Visualiser,
}

impl EnumIndex for SimpleColourTargets {
    open spec fn index_spec(self) -> int {
        match self {
            SimpleColourTargets::Global => 0,
            SimpleColourTargets::Accent => 1,
            SimpleColourTargets::Scribble1 => 2,
            SimpleColourTargets::Scribble2 => 3,
            SimpleColourTargets::Scribble3 => 4,
            SimpleColourTargets::Scribble4 => 5,
            SimpleColourTargets::Visualiser => 6,
        }
    }

    open spec fn from_index_spec(i: int) -> Option<SimpleColourTargets> {
        if i == 0 {
            Some(SimpleColourTargets::Global)
        } else if i == 1 {
            Some(SimpleColourTargets::Accent)
        } else if i == 2 {
            Some(SimpleColourTargets::Scribble1)
        } else if i == 3 {
            Some(SimpleColourTargets::Scribble2)
        } else if i == 4 {
            Some(SimpleColourTargets::Scribble3)
        } else if i == 5 {
            Some(SimpleColourTargets::Scribble4)
        } else if i == 6 {
            Some(SimpleColourTargets::Visualiser)
        } else {
            None
        }
    }

    fn index(self) -> (r: usize) {
        match self {
            SimpleColourTargets::Global => 0,
            SimpleColourTargets::Accent => 1,
            SimpleColourTargets::Scribble1 => 2,
            SimpleColourTargets::Scribble2 => 3,
            SimpleColourTargets::Scribble3 => 4,
            SimpleColourTargets::Scribble4 => 5,
            SimpleColourTargets::Visualiser => 6,
        }
    }

    fn from_index(i: usize) -> (r: Option<SimpleColourTargets>) {
        if i == 0 {
            Some(SimpleColourTargets::Global)
        } else if i == 1 {
            Some(SimpleColourTargets::Accent)
        } else if i == 2 {
            Some(SimpleColourTargets::Scribble1)
        } else if i == 3 {
            Some(SimpleColourTargets::Scribble2)
        } else if i == 4 {
            Some(SimpleColourTargets::Scribble3)
        } else if i == 5 {
            Some(SimpleColourTargets::Scribble4)
        } else if i == 6 {
            Some(SimpleColourTargets::Visualiser)
        } else {
            None
        }
    }

    proof fn lemma_index_roundtrip(self) {
    }
}

pub const SAMPLER_TARGET_COUNT: usize = 3;

#[derive(Debug, Clone, Copy, PartialEq, Eq, Structural)]
pub enum SamplerColourTargets {
    SamplerSelectA,
    SamplerSelectB,
    SamplerSelectC,
}

impl EnumIndex for SamplerColourTargets {
    open spec fn index_spec(self) -> int {
        match self {
            SamplerColourTargets::SamplerSelectA => 0,
            SamplerColourTargets::SamplerSelectB => 1,
            SamplerColourTargets::SamplerSelectC => 2,
        }
    }

    open spec fn from_index_spec(i: int) -> Option<SamplerColourTargets> {
        if i == 0 {
            Some(SamplerColourTargets::SamplerSelectA)
        } else if i == 1 {
            Some(SamplerColourTargets::SamplerSelectB)
        } else if i == 2 {
            Some(SamplerColourTargets::SamplerSelectC)
        } else {
            None
        }
    }

    fn index(self) -> (r: usize) {
        match self {
            SamplerColourTargets::SamplerSelectA => 0,
            SamplerColourTargets::SamplerSelectB => 1,
            SamplerColourTargets::SamplerSelectC => 2,
        }
    }

    fn from_index(i: usize) -> (r: Option<SamplerColourTargets>) {
        if i == 0 {
            Some(SamplerColourTargets::SamplerSelectA)
        } else if i == 1 {
            Some(SamplerColourTargets::SamplerSelectB)
        } else if i == 2 {
            Some(SamplerColourTargets::SamplerSelectC)
        } else {
            None
        }
    }

    proof fn lemma_index_roundtrip(self) {
    }
}

pub const ENCODER_TARGET_COUNT: usize = 4;

#[derive(Debug, Clone, Copy, PartialEq, Eq, Structural)]
pub enum EncoderColourTargets {
    Reverb,
    Pitch,
    Echo,
    Gender,
}

impl EnumIndex for EncoderColourTargets {
    open spec fn index_spec(self) -> int {
        match self {
            EncoderColourTargets::Reverb => 0,
            EncoderColourTargets::Pitch => 1,
            EncoderColourTargets::Echo => 2,
            EncoderColourTargets::Gender => 3,
        }
    }

    open spec fn from_index_spec(i: int) -> Option<EncoderColourTargets> {
        if i == 0 {
            Some(EncoderColourTargets::Reverb)
        } else if i == 1 {
            Some(EncoderColourTargets::Pitch)
        } else if i == 2 {
            Some(EncoderColourTargets::Echo)
        } else if i == 3 {
            Some(EncoderColourTargets::Gender)
        } else {
            None
        }
    }

    fn index(self) -> (r: usize) {
        match self {
            EncoderColourTargets::Reverb => 0,
            EncoderColourTargets::Pitch => 1,
            EncoderColourTargets::Echo => 2,
            EncoderColourTargets::Gender => 3,
        }
    }

    fn from_index(i: usize) -> (r: Option<EncoderColourTargets>) {
        if i == 0 {
            Some(EncoderColourTargets::Reverb)
        } else if i == 1 {
            Some(EncoderColourTargets::Pitch)
        } else if i == 2 {
            Some(EncoderColourTargets::Echo)
        } else if i == 3 {
            Some(EncoderColourTargets::Gender)
        } else {
            None
        }
    }

    proof fn lemma_index_roundtrip(self) {
    }
}

pub const EFFECT_PRESET_COUNT: usize = 6;

#[derive(Debug, Clone, Copy, PartialEq, Eq, Structural)]
pub enum EffectBankPresets {
    Preset1,
    Preset2,
    Preset3,
    Preset4,
    Preset5,
    Preset6,
}

impl EnumIndex for EffectBankPresets {
    open spec fn index_spec(self) -> int {
        match self {
            EffectBankPresets::Preset1 => 0,
            EffectBankPresets::Preset2 => 1,
            EffectBankPresets::Preset3 => 2,
            EffectBankPresets::Preset4 => 3,
            EffectBankPresets::Preset5 => 4,
            EffectBankPresets::Preset6 => 5,
        }
    }

    open spec fn from_index_spec(i: int) -> Option<EffectBankPresets> {
        if i == 0 {
            Some(EffectBankPresets::Preset1)
        } else if i == 1 {
            Some(EffectBankPresets::Preset2)
        } else if i == 2 {
            Some(EffectBankPresets::Preset3)
        } else if i == 3 {
            Some(EffectBankPresets::Preset4)
        } else if i == 4 {
            Some(EffectBankPresets::Preset5)
        } else if i == 5 {
            Some(EffectBankPresets::Preset6)
        } else {
            None
        }
    }

    fn index(self) -> (r: usize) {
        match self {
            EffectBankPresets::Preset1 => 0,
            EffectBankPresets::Preset2 => 1,
            EffectBankPresets::Preset3 => 2,
            EffectBankPresets::Preset4 => 3,
            EffectBankPresets::Preset5 => 4,
            EffectBankPresets::Preset6 => 5,
        }
    }

    fn from_index(i: usize) -> (r: Option<EffectBankPresets>) {
        if i == 0 {
            Some(EffectBankPresets::Preset1)
        } else if i == 1 {
            Some(EffectBankPresets::Preset2)
        } else if i == 2 {
            Some(EffectBankPresets::Preset3)
        } else if i == 3 {
            Some(EffectBankPresets::Preset4)
        } else if i == 4 {
            Some(EffectBankPresets::Preset5)
        } else if i == 5 {
            Some(EffectBankPresets::Preset6)
        } else {
            None
        }
    }

    proof fn lemma_index_roundtrip(self) {
    }
}

pub const REVERB_STYLE_COUNT: usize = 6;

#[derive(Debug, Clone, Copy, PartialEq, Eq, Structural)]
pub enum ReverbStyle {
    Library,
    DarkBloom,
    MusicClub,
    RealPlate,
    Chapel,
    HockeyArena,
}

impl EnumIndex for ReverbStyle {
    open spec fn index_spec(self) -> int {
        match self {
            ReverbStyle::Library => 0,
            ReverbStyle::DarkBloom => 1,
            ReverbStyle::MusicClub => 2,
            ReverbStyle::RealPlate => 3,
            ReverbStyle::Chapel => 4,
            ReverbStyle::HockeyArena => 5,
        }
    }

    open spec fn from_index_spec(i: int) -> Option<ReverbStyle> {
        if i == 0 {
            Some(ReverbStyle::Library)
        } else if i == 1 {
            Some(ReverbStyle::DarkBloom)
        } else if i == 2 {
            Some(ReverbStyle::MusicClub)
        } else if i == 3 {
            Some(ReverbStyle::RealPlate)
        } else if i == 4 {
            Some(ReverbStyle::Chapel)
        } else if i == 5 {
            Some(ReverbStyle::HockeyArena)
        } else {
            None
        }
    }

    fn index(self) -> (r: usize) {
        match self {
            ReverbStyle::Library => 0,
            ReverbStyle::DarkBloom => 1,
            ReverbStyle::MusicClub => 2,
            ReverbStyle::RealPlate => 3,
            ReverbStyle::Chapel => 4,
            ReverbStyle::HockeyArena => 5,
        }
    }

    fn from_index(i: usize) -> (r: Option<ReverbStyle>) {
        if i == 0 {
            Some(ReverbStyle::Library)
        } else if i == 1 {
            Some(ReverbStyle::DarkBloom)
        } else if i == 2 {
            Some(ReverbStyle::MusicClub)
        } else if i == 3 {
            Some(ReverbStyle::RealPlate)
        } else if i == 4 {
            Some(ReverbStyle::Chapel)
        } else if i == 5 {
            Some(ReverbStyle::HockeyArena)
        } else {
            None
        }
    }

    proof fn lemma_index_roundtrip(self) {
    }
}

pub const ECHO_STYLE_COUNT: usize = 6;

#[derive(Debug, Clone, Copy, PartialEq, Eq, Structural)]
pub enum EchoStyle {
    Quarter,
    Eighth,
    Triplet,
    PingPong,
    ClassicSlap,
    MultiTap,
}

impl EnumIndex for EchoStyle {
    open spec fn index_spec(self) -> int {
        match self {
            EchoStyle::Quarter => 0,
            EchoStyle::Eighth => 1,
            EchoStyle::Triplet => 2,
            EchoStyle::PingPong => 3,
            EchoStyle::ClassicSlap => 4,
            EchoStyle::MultiTap => 5,
        }
    }

    open spec fn from_index_spec(i: int) -> Option<EchoStyle> {
        if i == 0 {
            Some(EchoStyle::Quarter)
        } else if i == 1 {
            Some(EchoStyle::Eighth)
        } else if i == 2 {
            Some(EchoStyle::Triplet)
        } else if i == 3 {
            Some(EchoStyle::PingPong)
        } else if i == 4 {
            Some(EchoStyle::ClassicSlap)
        } else if i == 5 {
            Some(EchoStyle::MultiTap)
        } else {
            None
        }
    }

    fn index(self) -> (r: usize) {
        match self {
            EchoStyle::Quarter => 0,
            EchoStyle::Eighth => 1,
            EchoStyle::Triplet => 2,
            EchoStyle::PingPong => 3,
            EchoStyle::ClassicSlap => 4,
            EchoStyle::MultiTap => 5,
        }
    }

    fn from_index(i: usize) -> (r: Option<EchoStyle>) {
        if i == 0 {
            Some(EchoStyle::Quarter)
        } else if i == 1 {
            Some(EchoStyle::Eighth)
        } else if i == 2 {
            Some(EchoStyle::Triplet)
        } else if i == 3 {
            Some(EchoStyle::PingPong)
        } else if i == 4 {
            Some(EchoStyle::ClassicSlap)
        } else if i == 5 {
            Some(EchoStyle::MultiTap)
        } else {
            None
        }
    }

    proof fn lemma_index_roundtrip(self) {
    }
}

pub const PITCH_STYLE_COUNT: usize = 2;

#[derive(Debug, Clone, Copy, PartialEq, Eq, Structural)]
pub enum PitchStyle {
    Narrow,
    Wide,
}

impl EnumIndex for PitchStyle {
    open spec fn index_spec(self) -> int {
        match self {
            PitchStyle::Narrow => 0,
            PitchStyle::Wide => 1,
        }
    }

    open spec fn from_index_spec(i: int) -> Option<PitchStyle> {
        if i == 0 {
            Some(PitchStyle::Narrow)
        } else if i == 1 {
            Some(PitchStyle::Wide)
        } else {
            None
        }
    }

    fn index(self) -> (r: usize) {
        match self {
            PitchStyle::Narrow => 0,
            PitchStyle::Wide => 1,
        }
    }

    fn from_index(i: usize) -> (r: Option<PitchStyle>) {
        if i == 0 {
            Some(PitchStyle::Narrow)
        } else if i == 1 {
            Some(PitchStyle::Wide)
        } else {
            None
        }
    }

    proof fn lemma_index_roundtrip(self) {
    }
}

pub const GENDER_STYLE_COUNT: usize = 3;

#[derive(Debug, Clone, Copy, PartialEq, Eq, Structural)]
pub enum GenderStyle {
    Narrow,
    Medium,
    Wide,
}

impl EnumIndex for GenderStyle {
    open spec fn index_spec(self) -> int {
        match self {
            GenderStyle::Narrow => 0,
            GenderStyle::Medium => 1,
            GenderStyle::Wide => 2,
        }
    }

    open spec fn from_index_spec(i: int) -> Option<GenderStyle> {
        if i == 0 {
            Some(GenderStyle::Narrow)
        } else if i == 1 {
            Some(GenderStyle::Medium)
        } else if i == 2 {
            Some(GenderStyle::Wide)
        } else {
            None
        }
    }

    fn index(self) -> (r: usize) {
        match self {
            GenderStyle::Narrow => 0,
            GenderStyle::Medium => 1,
            GenderStyle::Wide => 2,
        }
    }

    fn from_index(i: usize) -> (r: Option<GenderStyle>) {
        if i == 0 {
            Some(GenderStyle::Narrow)
        } else if i == 1 {
            Some(GenderStyle::Medium)
        } else if i == 2 {
            Some(GenderStyle::Wide)
        } else {
            None
        }
    }

    proof fn lemma_index_roundtrip(self) {
    }
}

pub const MEGAPHONE_STYLE_COUNT: usize = 6;

#[derive(Debug, Clone, Copy, PartialEq, Eq, Structural)]
pub enum MegaphoneStyle {
    Megaphone,
    Radio,
    OnThePhone,
    Overdrive,
    BuzzCutt,
    Tweed,
}

impl EnumIndex for MegaphoneStyle {
    open spec fn index_spec(self) -> int {
        match self {
            MegaphoneStyle::Megaphone => 0,
            MegaphoneStyle::Radio => 1,
            MegaphoneStyle::OnThePhone => 2,
            MegaphoneStyle::Overdrive => 3,
            MegaphoneStyle::BuzzCutt => 4,
            MegaphoneStyle::Tweed => 5,
        }
    }

    open spec fn from_index_spec(i: int) -> Option<MegaphoneStyle> {
        if i == 0 {
            Some(MegaphoneStyle::Megaphone)
        } else if i == 1 {
            Some(MegaphoneStyle::Radio)
        } else if i == 2 {
            Some(MegaphoneStyle::OnThePhone)
        } else if i == 3 {
            Some(MegaphoneStyle::Overdrive)
        } else if i == 4 {
            Some(MegaphoneStyle::BuzzCutt)
        } else if i == 5 {
            Some(MegaphoneStyle::Tweed)
        } else {
            None
        }
    }

    fn index(self) -> (r: usize) {
        match self {
            MegaphoneStyle::Megaphone => 0,
            MegaphoneStyle::Radio => 1,
            MegaphoneStyle::OnThePhone => 2,
            MegaphoneStyle::Overdrive => 3,
            MegaphoneStyle::BuzzCutt => 4,
            MegaphoneStyle::Tweed => 5,
        }
    }

    fn from_index(i: usize) -> (r: Option<MegaphoneStyle>) {
        if i == 0 {
            Some(MegaphoneStyle::Megaphone)
        } else if i == 1 {
            Some(MegaphoneStyle::Radio)
        } else if i == 2 {
            Some(MegaphoneStyle::OnThePhone)
        } else if i == 3 {
            Some(MegaphoneStyle::Overdrive)
        } else if i == 4 {
            Some(MegaphoneStyle::BuzzCutt)
        } else if i == 5 {
            Some(MegaphoneStyle::Tweed)
        } else {
            None
        }
    }

    proof fn lemma_index_roundtrip(self) {
    }
}

pub const ROBOT_STYLE_COUNT: usize = 3;

#[derive(Debug, Clone, Copy, PartialEq, Eq, Structural)]
pub enum RobotStyle {
    Robot1,
    Robot2,
    Robot3,
}

impl EnumIndex for RobotStyle {
    open spec fn index_spec(self) -> int {
        match self {
            RobotStyle::Robot1 => 0,
            RobotStyle::Robot2 => 1,
            RobotStyle::Robot3 => 2,
        }
    }

    open spec fn from_index_spec(i: int) -> Option<RobotStyle> {
        if i == 0 {
            Some(RobotStyle::Robot1)
        } else if i == 1 {
            Some(RobotStyle::Robot2)
        } else if i == 2 {
            Some(RobotStyle::Robot3)
        } else {
            None
        }
    }

    fn index(self) -> (r: usize) {
        match self {
            RobotStyle::Robot1 => 0,
            RobotStyle::Robot2 => 1,
            RobotStyle::Robot3 => 2,
        }
    }

    fn from_index(i: usize) -> (r: Option<RobotStyle>) {
        if i == 0 {
            Some(RobotStyle::Robot1)
        } else if i == 1 {
            Some(RobotStyle::Robot2)
        } else if i == 2 {
            Some(RobotStyle::Robot3)
        } else {
            None
        }
    }

    proof fn lemma_index_roundtrip(self) {
    }
}

pub const HARD_TUNE_STYLE_COUNT: usize = 3;

#[derive(Debug, Clone, Copy, PartialEq, Eq, Structural)]
pub enum HardTuneStyle {
    Natural,
    Medium,
    Hard,
}

impl EnumIndex for HardTuneStyle {
    open spec fn index_spec(self) -> int {
        match self {
            HardTuneStyle::Natural => 0,
            HardTuneStyle::Medium => 1,
            HardTuneStyle::Hard => 2,
        }
    }

    open spec fn from_index_spec(i: int) -> Option<HardTuneStyle> {
        if i == 0 {
            Some(HardTuneStyle::Natural)
        } else if i == 1 {
            Some(HardTuneStyle::Medium)
        } else if i == 2 {
            Some(HardTuneStyle::Hard)
        } else {
            None
        }
    }

    fn index(self) -> (r: usize) {
        match self {
            HardTuneStyle::Natural => 0,
            HardTuneStyle::Medium => 1,
            HardTuneStyle::Hard => 2,
        }
    }

    fn from_index(i: usize) -> (r: Option<HardTuneStyle>) {
        if i == 0 {
            Some(HardTuneStyle::Natural)
        } else if i == 1 {
            Some(HardTuneStyle::Medium)
        } else if i == 2 {
            Some(HardTuneStyle::Hard)
        } else {
            None
        }
    }

    proof fn lemma_index_roundtrip(self) {
    }
}

pub const HARD_TUNE_SOURCE_COUNT: usize = 5;

#[derive(Debug, Clone, Copy, PartialEq, Eq, Structural)]
pub enum HardTuneSource {
    All,
    Music,
    Game,
    LineIn,
    System,
}

impl EnumIndex for HardTuneSource {
    open spec fn index_spec(self) -> int {
        match self {
            HardTuneSource::All => 0,
            HardTuneSource::Music => 1,
            HardTuneSource::Game => 2,
            HardTuneSource::LineIn => 3,
            HardTuneSource::System => 4,
        }
    }

    open spec fn from_index_spec(i: int) -> Option<HardTuneSource> {
        if i == 0 {
            Some(HardTuneSource::All)
        } else if i == 1 {
            Some(HardTuneSource::Music)
        } else if i == 2 {
            Some(HardTuneSource::Game)
        } else if i == 3 {
            Some(HardTuneSource::LineIn)
        } else if i == 4 {
            Some(HardTuneSource::System)
        } else {
            None
        }
    }

    fn index(self) -> (r: usize) {
        match self {
            HardTuneSource::All => 0,
            HardTuneSource::Music => 1,
            HardTuneSource::Game => 2,
            HardTuneSource::LineIn => 3,
            HardTuneSource::System => 4,
        }
    }

    fn from_index(i: usize) -> (r: Option<HardTuneSource>) {
        if i == 0 {
            Some(HardTuneSource::All)
        } else if i == 1 {
            Some(HardTuneSource::Music)
        } else if i == 2 {
            Some(HardTuneSource::Game)
        } else if i == 3 {
            Some(HardTuneSource::LineIn)
        } else if i == 4 {
            Some(HardTuneSource::System)
        } else {
            None
        }
    }

    proof fn lemma_index_roundtrip(self) {
    }
}

pub const SAMPLE_BANK_COUNT: usize = 3;

#[derive(Debug, Clone, Copy, PartialEq, Eq, Structural)]
pub enum SampleBank {
    A,
    B,
    C,
}

impl EnumIndex for SampleBank {
    open spec fn index_spec(self) -> int {
        match self {
            SampleBank::A => 0,
            SampleBank::B => 1,
            SampleBank::C => 2,
        }
    }

    open spec fn from_index_spec(i: int) -> Option<SampleBank> {
        if i == 0 {
            Some(SampleBank::A)
        } else if i == 1 {
            Some(SampleBank::B)
        } else if i == 2 {
            Some(SampleBank::C)
        } else {
            None
        }
    }

    fn index(self) -> (r: usize) {
        match self {
            SampleBank::A => 0,
            SampleBank::B => 1,
            SampleBank::C => 2,
        }
    }

    fn from_index(i: usize) -> (r: Option<SampleBank>) {
        if i == 0 {
            Some(SampleBank::A)
        } else if i == 1 {
            Some(SampleBank::B)
        } else if i == 2 {
            Some(SampleBank::C)
        } else {
            None
        }
    }

    proof fn lemma_index_roundtrip(self) {
    }
}

pub const SAMPLE_BUTTON_COUNT: usize = 4;

#[derive(Debug, Clone, Copy, PartialEq, Eq, Structural)]
pub enum SampleButtons {
    TopLeft,
    TopRight,
    BottomLeft,
    BottomRight,
}

impl EnumIndex for SampleButtons {
    open spec fn index_spec(self) -> int {
        match self {
            SampleButtons::TopLeft => 0,
            SampleButtons::TopRight => 1,
            SampleButtons::BottomLeft => 2,
            SampleButtons::BottomRight => 3,
        }
    }

    open spec fn from_index_spec(i: int) -> Option<SampleButtons> {
        if i == 0 {
            Some(SampleButtons::TopLeft)
        } else if i == 1 {
            Some(SampleButtons::TopRight)
        } else if i == 2 {
            Some(SampleButtons::BottomLeft)
        } else if i == 3 {
            Some(SampleButtons::BottomRight)
        } else {
            None
        }
    }

    fn index(self) -> (r: usize) {
        match self {
            SampleButtons::TopLeft => 0,
            SampleButtons::TopRight => 1,
            SampleButtons::BottomLeft => 2,
            SampleButtons::BottomRight => 3,
        }
    }

    fn from_index(i: usize) -> (r: Option<SampleButtons>) {
        if i == 0 {
            Some(SampleButtons::TopLeft)
        } else if i == 1 {
            Some(SampleButtons::TopRight)
        } else if i == 2 {
            Some(SampleButtons::BottomLeft)
        } else if i == 3 {
            Some(SampleButtons::BottomRight)
        } else {
            None
        }
    }

    proof fn lemma_index_roundtrip(self) {
    }
}

pub const PLAYBACK_MODE_COUNT: usize = 6;

#[derive(Debug, Clone, Copy, PartialEq, Eq, Structural)]
pub enum SamplePlaybackMode {
    PlayNext,
    PlayStop,
    PlayFade,
    StopOnRelease,
    FadeOnRelease,
    Loop,
}

impl EnumIndex for SamplePlaybackMode {
    open spec fn index_spec(self) -> int {
        match self {
            SamplePlaybackMode::PlayNext => 0,
            SamplePlaybackMode::PlayStop => 1,
            SamplePlaybackMode::PlayFade => 2,
            SamplePlaybackMode::StopOnRelease => 3,
            SamplePlaybackMode::FadeOnRelease => 4,
            SamplePlaybackMode::Loop => 5,
        }
    }

    open spec fn from_index_spec(i: int) -> Option<SamplePlaybackMode> {
        if i == 0 {
            Some(SamplePlaybackMode::PlayNext)
        } else if i == 1 {
            Some(SamplePlaybackMode::PlayStop)
        } else if i == 2 {
            Some(SamplePlaybackMode::PlayFade)
        } else if i == 3 {
            Some(SamplePlaybackMode::StopOnRelease)
        } else if i == 4 {
            Some(SamplePlaybackMode::FadeOnRelease)
        } else if i == 5 {
            Some(SamplePlaybackMode::Loop)
        } else {
            None
        }
    }

    fn index(self) -> (r: usize) {
        match self {
            SamplePlaybackMode::PlayNext => 0,
            SamplePlaybackMode::PlayStop => 1,
            SamplePlaybackMode::PlayFade => 2,
            SamplePlaybackMode::StopOnRelease => 3,
            SamplePlaybackMode::FadeOnRelease => 4,
            SamplePlaybackMode::Loop => 5,
        }
    }

    fn from_index(i: usize) -> (r: Option<SamplePlaybackMode>) {
        if i == 0 {
            Some(SamplePlaybackMode::PlayNext)
        } else if i == 1 {
            Some(SamplePlaybackMode::PlayStop)
        } else if i == 2 {
            Some(SamplePlaybackMode::PlayFade)
        } else if i == 3 {
            Some(SamplePlaybackMode::StopOnRelease)
        } else if i == 4 {
            Some(SamplePlaybackMode::FadeOnRelease)
        } else if i == 5 {
            Some(SamplePlaybackMode::Loop)
        } else {
            None
        }
    }

    proof fn lemma_index_roundtrip(self) {
    }
}

pub const PLAY_ORDER_COUNT: usize = 2;

#[derive(Debug, Clone, Copy, PartialEq, Eq, Structural)]
pub enum SamplePlayOrder {
    Sequential,
    Random,
}

impl EnumIndex for SamplePlayOrder {
    open spec fn index_spec(self) -> int {
        match self {
            SamplePlayOrder::Sequential => 0,
            SamplePlayOrder::Random => 1,
        }
    }

    open spec fn from_index_spec(i: int) -> Option<SamplePlayOrder> {
        if i == 0 {
            Some(SamplePlayOrder::Sequential)
        } else if i == 1 {
            Some(SamplePlayOrder::Random)
        } else {
            None
        }
    }

    fn index(self) -> (r: usize) {
        match self {
            SamplePlayOrder::Sequential => 0,
            SamplePlayOrder::Random => 1,
        }
    }

    fn from_index(i: usize) -> (r: Option<SamplePlayOrder>) {
        if i == 0 {
            Some(SamplePlayOrder::Sequential)
        } else if i == 1 {
            Some(SamplePlayOrder::Random)
        } else {
            None
        }
    }

    proof fn lemma_index_roundtrip(self) {
    }
}


/// The hardware capability tier of an attached device.
///
/// The tier gates which optional substructures of a mixer's status are
/// meaningful: only the full-size device carries effects and a sampler.
#[derive(Debug, Clone, Copy, PartialEq, Eq, Structural)]
pub enum DeviceType {
    Unknown,
    Full,
    Mini,
}

impl Default for DeviceType {
    fn default() -> (r: DeviceType)
        ensures
            r == DeviceType::Unknown,
    {
        DeviceType::Unknown
    }
}

impl DeviceType {
    /// The capability table for the effects substructure: only the full-size
    /// device has an effects engine.
    pub open spec fn spec_has_effects(self) -> bool {
        self == DeviceType::Full
    }

    /// The capability table for the sampler substructure: only the full-size
    /// device has sample banks.
    pub open spec fn spec_has_sampler(self) -> bool {
        self == DeviceType::Full
    }

    pub fn has_effects(self) -> (r: bool)
        ensures
            r == self.spec_has_effects(),
    {
        match self {
            DeviceType::Full => true,
            _ => false,
        }
    }

    pub fn has_sampler(self) -> (r: bool)
        ensures
            r == self.spec_has_sampler(),
    {
        match self {
            DeviceType::Full => true,
            _ => false,
        }
    }
}

impl EnumIndex for DeviceType {
    open spec fn index_spec(self) -> int {
        match self {
            DeviceType::Unknown => 0,
            DeviceType::Full => 1,
            DeviceType::Mini => 2,
        }
    }

    open spec fn from_index_spec(i: int) -> Option<DeviceType> {
        if i == 0 {
            Some(DeviceType::Unknown)
        } else if i == 1 {
            Some(DeviceType::Full)
        } else if i == 2 {
            Some(DeviceType::Mini)
        } else {
            None
        }
    }

    fn index(self) -> (r: usize) {
        match self {
            DeviceType::Unknown => 0,
            DeviceType::Full => 1,
            DeviceType::Mini => 2,
        }
    }

    fn from_index(i: usize) -> (r: Option<DeviceType>) {
        if i == 0 {
            Some(DeviceType::Unknown)
        } else if i == 1 {
            Some(DeviceType::Full)
        } else if i == 2 {
            Some(DeviceType::Mini)
        } else {
            None
        }
    }

    proof fn lemma_index_roundtrip(self) {
    }
}

} // verus!
