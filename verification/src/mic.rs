//! The microphone processing chain: equalisers, noise gate and compressor.
//!
//! The two equalisers are fixed-cardinality tables indexed by their band
//! enumerations; gains are in decibel steps and band frequencies are kept in
//! tenths of a hertz so that fractional band centres stay exact integers.

use vstd::prelude::*;

use crate::ids::{
    CompressorAttackTime, CompressorRatio, CompressorReleaseTime, EnumIndex, EqFrequencies,
    GateTimes, MicrophoneType, MiniEqFrequencies, EQ_FREQUENCY_COUNT, MICROPHONE_TYPE_COUNT,
    MINI_EQ_FREQUENCY_COUNT,
};
use crate::wire;
use crate::wire::Token;

verus! {

/// The noise gate of the microphone chain.
#[derive(Debug, Clone, PartialEq)]
pub struct NoiseGate {
    pub threshold: i8,
    pub attack: GateTimes,
    pub release: GateTimes,
    pub enabled: bool,
    pub attenuation: u8,
}

/// The compressor of the microphone chain.
#[derive(Debug, Clone, PartialEq)]
pub struct Compressor {
    pub threshold: i8,
    pub ratio: CompressorRatio,
    pub attack: CompressorAttackTime,
    pub release: CompressorReleaseTime,
    pub makeup_gain: u8,
}

/// The full equaliser, one gain and one band centre per band.
///
/// `frequency` holds each band's centre in tenths of a hertz.
#[derive(Debug, Clone, PartialEq)]
pub struct Equaliser {
    pub gain: Vec<i8>,
    pub frequency: Vec<u32>,
}

/// The mathematical model of an `Equaliser`.
pub struct EqualiserV {
    pub gain: Seq<i8>,
    pub frequency: Seq<u32>,
}

impl View for Equaliser {
    type V = EqualiserV;

    open spec fn view(&self) -> EqualiserV {
        EqualiserV { gain: self.gain@, frequency: self.frequency@ }
    }
}

impl EqualiserV {
    /// One slot per band of the full band enumeration.
    pub open spec fn wf(self) -> bool {
        &&& self.gain.len() == EQ_FREQUENCY_COUNT
        &&& self.frequency.len() == EQ_FREQUENCY_COUNT
    }
}

impl Equaliser {
    pub open spec fn wf(self) -> bool {
        self@.wf()
    }

    /// A flat response: zero gain on every band, band centres at their
    /// nominal positions.
    pub fn neutral() -> (r: Equaliser)
        ensures
            r.wf(),
            forall|i: int| 0 <= i < EQ_FREQUENCY_COUNT ==> r@.gain[i] == 0,
    {
        let gain = crate::util::vec_of_i8(EQ_FREQUENCY_COUNT, 0);
        let mut frequency: Vec<u32> = Vec::new();
        frequency.push(315);
        frequency.push(630);
        frequency.push(1250);
        frequency.push(2500);
        frequency.push(5000);
        frequency.push(10000);
        frequency.push(20000);
        frequency.push(40000);
        frequency.push(80000);
        frequency.push(160000);
        Equaliser { gain, frequency }
    }

    /// One band's gain.
    pub fn get_gain(&self, band: EqFrequencies) -> (r: i8)
        requires
            self.wf(),
        ensures
            r == self@.gain[band.index_spec()],
    {
        proof {
            band.lemma_index_roundtrip();
        }
        let i = band.index();
        self.gain[i]
    }

    /// Set one band's gain; the band centres are untouched.
    pub fn set_gain(&mut self, band: EqFrequencies, value: i8)
        requires
            old(self).wf(),
        ensures
            final(self).wf(),
            final(self)@.gain == old(self)@.gain.update(band.index_spec(), value),
            final(self)@.frequency == old(self)@.frequency,
    {
        proof {
            band.lemma_index_roundtrip();
        }
        let i = band.index();
        self.gain[i] = value;
    }
}

/// The reduced equaliser of the compact device.
///
/// `frequency` holds each band's centre in tenths of a hertz.
#[derive(Debug, Clone, PartialEq)]
pub struct EqualiserMini {
    pub gain: Vec<i8>,
    pub frequency: Vec<u32>,
}

/// The mathematical model of an `EqualiserMini`.
pub struct EqualiserMiniV {
    pub gain: Seq<i8>,
    pub frequency: Seq<u32>,
}

impl View for EqualiserMini {
    type V = EqualiserMiniV;

    open spec fn view(&self) -> EqualiserMiniV {
        EqualiserMiniV { gain: self.gain@, frequency: self.frequency@ }
    }
}

impl EqualiserMiniV {
    /// One slot per band of the reduced band enumeration.
    pub open spec fn wf(self) -> bool {
        &&& self.gain.len() == MINI_EQ_FREQUENCY_COUNT
        &&& self.frequency.len() == MINI_EQ_FREQUENCY_COUNT
    }
}

impl EqualiserMini {
    pub open spec fn wf(self) -> bool {
        self@.wf()
    }

    /// A flat response on the reduced band set.
    pub fn neutral() -> (r: EqualiserMini)
        ensures
            r.wf(),
            forall|i: int| 0 <= i < MINI_EQ_FREQUENCY_COUNT ==> r@.gain[i] == 0,
    {
        let gain = crate::util::vec_of_i8(MINI_EQ_FREQUENCY_COUNT, 0);
        let mut frequency: Vec<u32> = Vec::new();
        frequency.push(900);
        frequency.push(2500);
        frequency.push(5000);
        frequency.push(10000);
        frequency.push(30000);
        frequency.push(80000);
        EqualiserMini { gain, frequency }
    }

    /// One band's gain.
    pub fn get_gain(&self, band: MiniEqFrequencies) -> (r: i8)
        requires
            self.wf(),
        ensures
            r == self@.gain[band.index_spec()],
    {
        proof {
            band.lemma_index_roundtrip();
        }
        let i = band.index();
        self.gain[i]
    }

    /// Set one band's gain; the band centres are untouched.
    pub fn set_gain(&mut self, band: MiniEqFrequencies, value: i8)
        requires
            old(self).wf(),
        ensures
            final(self).wf(),
            final(self)@.gain == old(self)@.gain.update(band.index_spec(), value),
            final(self)@.frequency == old(self)@.frequency,
    {
        proof {
            band.lemma_index_roundtrip();
        }
        let i = band.index();
        self.gain[i] = value;
    }
}

/// Microphone selection, per-type gains, and the processing chain.
#[derive(Debug, Clone, PartialEq)]
pub struct MicSettings {
    pub mic_type: MicrophoneType,
    pub mic_gains: Vec<u16>,
    pub equaliser: Equaliser,
    pub equaliser_mini: EqualiserMini,
    pub noise_gate: NoiseGate,
    pub compressor: Compressor,
}

/// The mathematical model of a `MicSettings`.
pub struct MicSettingsV {
    pub mic_type: MicrophoneType,
    pub mic_gains: Seq<u16>,
    pub equaliser: EqualiserV,
    pub equaliser_mini: EqualiserMiniV,
    pub noise_gate: NoiseGate,
    pub compressor: Compressor,
}

impl View for MicSettings {
    type V = MicSettingsV;

    open spec fn view(&self) -> MicSettingsV {
        MicSettingsV {
            mic_type: self.mic_type,
            mic_gains: self.mic_gains@,
            equaliser: self.equaliser@,
            equaliser_mini: self.equaliser_mini@,
            noise_gate: self.noise_gate,
            compressor: self.compressor,
        }
    }
}

impl MicSettingsV {
    /// One gain slot per microphone type; both equalisers well-formed.
    pub open spec fn wf(self) -> bool {
        &&& self.mic_gains.len() == MICROPHONE_TYPE_COUNT
        &&& self.equaliser.wf()
        &&& self.equaliser_mini.wf()
    }
}

impl MicSettings {
    pub open spec fn wf(self) -> bool {
        self@.wf()
    }

    /// The chain as a freshly attached device reports it: dynamic
    /// microphone, zero gains, flat equalisers, gate and compressor at rest.
    pub fn defaulted() -> (r: MicSettings)
        ensures
            r.wf(),
            r@.mic_type == MicrophoneType::Dynamic,
            forall|i: int| 0 <= i < MICROPHONE_TYPE_COUNT ==> r@.mic_gains[i] == 0,
    {
        MicSettings {
            mic_type: MicrophoneType::Dynamic,
            mic_gains: crate::util::vec_of_u16(MICROPHONE_TYPE_COUNT, 0),
            equaliser: Equaliser::neutral(),
            equaliser_mini: EqualiserMini::neutral(),
            noise_gate: NoiseGate {
                threshold: 0,
                attack: GateTimes::Gate10ms,
                release: GateTimes::Gate10ms,
                enabled: false,
                attenuation: 0,
            },
            compressor: Compressor {
                threshold: 0,
                ratio: CompressorRatio::Ratio1_0,
                attack: CompressorAttackTime::Comp0ms,
                release: CompressorReleaseTime::Comp0ms,
                makeup_gain: 0,
            },
        }
    }

    /// One microphone type's gain.
    pub fn get_mic_gain(&self, mic_type: MicrophoneType) -> (r: u16)
        requires
            self.wf(),
        ensures
            r == self@.mic_gains[mic_type.index_spec()],
    {
        proof {
            mic_type.lemma_index_roundtrip();
        }
        let i = mic_type.index();
        self.mic_gains[i]
    }

    /// Set one microphone type's gain; the rest of the chain is
    /// untouched.
    pub fn set_mic_gain(&mut self, mic_type: MicrophoneType, value: u16)
        requires
            old(self).wf(),
        ensures
            final(self).wf(),
            final(self)@.mic_gains == old(self)@.mic_gains.update(mic_type.index_spec(), value),
            final(self).mic_type == old(self).mic_type,
            final(self).equaliser == old(self).equaliser,
            final(self).equaliser_mini == old(self).equaliser_mini,
            final(self).noise_gate == old(self).noise_gate,
            final(self).compressor == old(self).compressor,
    {
        proof {
            mic_type.lemma_index_roundtrip();
        }
        let i = mic_type.index();
        self.mic_gains[i] = value;
    }
}

pub open spec fn enc_noise_gate(v: NoiseGate) -> Seq<Token> {
    wire::enc_i8(v.threshold) + wire::enc_id(v.attack) + wire::enc_id(v.release) + wire::enc_bool(v.enabled) + wire::enc_u8(v.attenuation)
}

pub open spec fn dec_noise_gate(s: Seq<Token>) -> Option<(NoiseGate, Seq<Token>)> {
    match wire::dec_i8(s) {
        Some(p0) => 
        match wire::dec_id(p0.1) {
            Some(p1) => 
            match wire::dec_id(p1.1) {
                Some(p2) => 
                match wire::dec_bool(p2.1) {
                    Some(p3) => 
                    match wire::dec_u8(p3.1) {
                        Some(p4) => 
                        Some((NoiseGate { threshold: p0.0, attack: p1.0, release: p2.0, enabled: p3.0, attenuation: p4.0 }, p4.1)),
                        None => None,
                    },
                    None => None,
                },
                None => None,
            },
            None => None,
        },
        None => None,
    }
}

pub proof fn lemma_rt_noise_gate(v: NoiseGate, rest: Seq<Token>)
    ensures
        dec_noise_gate(enc_noise_gate(v) + rest) == Some((v, rest)),
{
    let t5 = rest;
    let t4 = wire::enc_u8(v.attenuation) + t5;
    let t3 = wire::enc_bool(v.enabled) + t4;
    let t2 = wire::enc_id(v.release) + t3;
    let t1 = wire::enc_id(v.attack) + t2;
    let t0 = wire::enc_i8(v.threshold) + t1;
    assert(enc_noise_gate(v) + rest =~= t0);
    wire::lemma_rt_i8(v.threshold, t1);
    wire::lemma_rt_id(v.attack, t2);
    wire::lemma_rt_id(v.release, t3);
    wire::lemma_rt_bool(v.enabled, t4);
    wire::lemma_rt_u8(v.attenuation, t5);
}

pub fn write_noise_gate(v: &NoiseGate, out: &mut Vec<Token>)
    ensures
        final(out)@ == old(out)@ + enc_noise_gate(*v),
{
    wire::write_i8(v.threshold, out);
    wire::write_id(v.attack, out);
    wire::write_id(v.release, out);
    wire::write_bool(v.enabled, out);
    wire::write_u8(v.attenuation, out);
    assert(out@ =~= old(out)@ + enc_noise_gate(*v));
}

pub fn read_noise_gate(toks: &Vec<Token>, pos: &mut usize) -> (r: Option<NoiseGate>)
    requires
        *old(pos) <= toks@.len(),
    ensures
        match dec_noise_gate(toks@.skip(*old(pos) as int)) {
            Some(p) => {
                &&& r == Some(p.0)
                &&& *old(pos) <= *final(pos) <= toks@.len()
                &&& toks@.skip(*final(pos) as int) == p.1
            },
            None => r is None,
        },
{
    let threshold: i8 = match wire::read_i8(toks, pos) {
        Some(x) => x,
        None => {
            return None;
        },
    };
    let attack: GateTimes = match wire::read_id(toks, pos) {
        Some(x) => x,
        None => {
            return None;
        },
    };
    let release: GateTimes = match wire::read_id(toks, pos) {
        Some(x) => x,
        None => {
            return None;
        },
    };
    let enabled: bool = match wire::read_bool(toks, pos) {
        Some(x) => x,
        None => {
            return None;
        },
    };
    let attenuation: u8 = match wire::read_u8(toks, pos) {
        Some(x) => x,
        None => {
            return None;
        },
    };
    Some(NoiseGate { threshold, attack, release, enabled, attenuation })
}

pub open spec fn enc_compressor(v: Compressor) -> Seq<Token> {
    wire::enc_i8(v.threshold) + wire::enc_id(v.ratio) + wire::enc_id(v.attack) + wire::enc_id(v.release) + wire::enc_u8(v.makeup_gain)
}

pub open spec fn dec_compressor(s: Seq<Token>) -> Option<(Compressor, Seq<Token>)> {
    match wire::dec_i8(s) {
        Some(p0) => 
        match wire::dec_id(p0.1) {
            Some(p1) => 
            match wire::dec_id(p1.1) {
                Some(p2) => 
                match wire::dec_id(p2.1) {
                    Some(p3) => 
                    match wire::dec_u8(p3.1) {
                        Some(p4) => 
                        Some((Compressor { threshold: p0.0, ratio: p1.0, attack: p2.0, release: p3.0, makeup_gain: p4.0 }, p4.1)),
                        None => None,
                    },
                    None => None,
                },
                None => None,
            },
            None => None,
        },
        None => None,
    }
}

pub proof fn lemma_rt_compressor(v: Compressor, rest: Seq<Token>)
    ensures
        dec_compressor(enc_compressor(v) + rest) == Some((v, rest)),
{
    let t5 = rest;
    let t4 = wire::enc_u8(v.makeup_gain) + t5;
    let t3 = wire::enc_id(v.release) + t4;
    let t2 = wire::enc_id(v.attack) + t3;
    let t1 = wire::enc_id(v.ratio) + t2;
    let t0 = wire::enc_i8(v.threshold) + t1;
    assert(enc_compressor(v) + rest =~= t0);
    wire::lemma_rt_i8(v.threshold, t1);
    wire::lemma_rt_id(v.ratio, t2);
    wire::lemma_rt_id(v.attack, t3);
    wire::lemma_rt_id(v.release, t4);
    wire::lemma_rt_u8(v.makeup_gain, t5);
}

pub fn write_compressor(v: &Compressor, out: &mut Vec<Token>)
    ensures
        final(out)@ == old(out)@ + enc_compressor(*v),
{
    wire::write_i8(v.threshold, out);
    wire::write_id(v.ratio, out);
    wire::write_id(v.attack, out);
    wire::write_id(v.release, out);
    wire::write_u8(v.makeup_gain, out);
    assert(out@ =~= old(out)@ + enc_compressor(*v));
}

pub fn read_compressor(toks: &Vec<Token>, pos: &mut usize) -> (r: Option<Compressor>)
    requires
        *old(pos) <= toks@.len(),
    ensures
        match dec_compressor(toks@.skip(*old(pos) as int)) {
            Some(p) => {
                &&& r == Some(p.0)
                &&& *old(pos) <= *final(pos) <= toks@.len()
                &&& toks@.skip(*final(pos) as int) == p.1
            },
            None => r is None,
        },
{
    let threshold: i8 = match wire::read_i8(toks, pos) {
        Some(x) => x,
        None => {
            return None;
        },
    };
    let ratio: CompressorRatio = match wire::read_id(toks, pos) {
        Some(x) => x,
        None => {
            return None;
        },
    };
    let attack: CompressorAttackTime = match wire::read_id(toks, pos) {
        Some(x) => x,
        None => {
            return None;
        },
    };
    let release: CompressorReleaseTime = match wire::read_id(toks, pos) {
        Some(x) => x,
        None => {
            return None;
        },
    };
    let makeup_gain: u8 = match wire::read_u8(toks, pos) {
        Some(x) => x,
        None => {
            return None;
        },
    };
    Some(Compressor { threshold, ratio, attack, release, makeup_gain })
}

pub open spec fn enc_equaliser(m: EqualiserV) -> Seq<Token> {
    wire::enc_i8s(m.gain) + wire::enc_u32s(m.frequency)
}

pub open spec fn dec_equaliser(s: Seq<Token>) -> Option<(EqualiserV, Seq<Token>)> {
    match wire::dec_i8s(s, EQ_FREQUENCY_COUNT as int) {
        Some(p0) => match wire::dec_u32s(p0.1, EQ_FREQUENCY_COUNT as int) {
            Some(p1) => Some((EqualiserV { gain: p0.0, frequency: p1.0 }, p1.1)),
            None => None,
        },
        None => None,
    }
}

pub proof fn lemma_rt_equaliser(m: EqualiserV, rest: Seq<Token>)
    requires
        m.wf(),
    ensures
        dec_equaliser(enc_equaliser(m) + rest) == Some((m, rest)),
{
    let t1 = wire::enc_u32s(m.frequency) + rest;
    assert(enc_equaliser(m) + rest =~= wire::enc_i8s(m.gain) + t1);
    wire::lemma_rt_i8s(m.gain, t1);
    wire::lemma_rt_u32s(m.frequency, rest);
}

pub fn write_equaliser(v: &Equaliser, out: &mut Vec<Token>)
    ensures
        final(out)@ == old(out)@ + enc_equaliser(v@),
{
    wire::write_i8s(&v.gain, out);
    wire::write_u32s(&v.frequency, out);
    assert(out@ =~= old(out)@ + enc_equaliser(v@));
}

pub fn read_equaliser(toks: &Vec<Token>, pos: &mut usize) -> (r: Option<Equaliser>)
    requires
        *old(pos) <= toks@.len(),
    ensures
        match dec_equaliser(toks@.skip(*old(pos) as int)) {
            Some(p) => {
                &&& r matches Some(v) && v@ == p.0 && v.wf()
                &&& *old(pos) <= *final(pos) <= toks@.len()
                &&& toks@.skip(*final(pos) as int) == p.1
            },
            None => r is None,
        },
{
    let gain = match wire::read_i8s(toks, pos, EQ_FREQUENCY_COUNT) {
        Some(x) => x,
        None => {
            return None;
        },
    };
    let frequency = match wire::read_u32s(toks, pos, EQ_FREQUENCY_COUNT) {
        Some(x) => x,
        None => {
            return None;
        },
    };
    Some(Equaliser { gain, frequency })
}

pub open spec fn enc_equaliser_mini(m: EqualiserMiniV) -> Seq<Token> {
    wire::enc_i8s(m.gain) + wire::enc_u32s(m.frequency)
}

pub open spec fn dec_equaliser_mini(s: Seq<Token>) -> Option<(EqualiserMiniV, Seq<Token>)> {
    match wire::dec_i8s(s, MINI_EQ_FREQUENCY_COUNT as int) {
        Some(p0) => match wire::dec_u32s(p0.1, MINI_EQ_FREQUENCY_COUNT as int) {
            Some(p1) => Some((EqualiserMiniV { gain: p0.0, frequency: p1.0 }, p1.1)),
            None => None,
        },
        None => None,
    }
}

pub proof fn lemma_rt_equaliser_mini(m: EqualiserMiniV, rest: Seq<Token>)
    requires
        m.wf(),
    ensures
        dec_equaliser_mini(enc_equaliser_mini(m) + rest) == Some((m, rest)),
{
    let t1 = wire::enc_u32s(m.frequency) + rest;
    assert(enc_equaliser_mini(m) + rest =~= wire::enc_i8s(m.gain) + t1);
    wire::lemma_rt_i8s(m.gain, t1);
    wire::lemma_rt_u32s(m.frequency, rest);
}

pub fn write_equaliser_mini(v: &EqualiserMini, out: &mut Vec<Token>)
    ensures
        final(out)@ == old(out)@ + enc_equaliser_mini(v@),
{
    wire::write_i8s(&v.gain, out);
    wire::write_u32s(&v.frequency, out);
    assert(out@ =~= old(out)@ + enc_equaliser_mini(v@));
}

pub fn read_equaliser_mini(toks: &Vec<Token>, pos: &mut usize) -> (r: Option<EqualiserMini>)
    requires
        *old(pos) <= toks@.len(),
    ensures
        match dec_equaliser_mini(toks@.skip(*old(pos) as int)) {
            Some(p) => {
                &&& r matches Some(v) && v@ == p.0 && v.wf()
                &&& *old(pos) <= *final(pos) <= toks@.len()
                &&& toks@.skip(*final(pos) as int) == p.1
            },
            None => r is None,
        },
{
    let gain = match wire::read_i8s(toks, pos, MINI_EQ_FREQUENCY_COUNT) {
        Some(x) => x,
        None => {
            return None;
        },
    };
    let frequency = match wire::read_u32s(toks, pos, MINI_EQ_FREQUENCY_COUNT) {
        Some(x) => x,
        None => {
            return None;
        },
    };
    Some(EqualiserMini { gain, frequency })
}

pub open spec fn enc_mic_settings(m: MicSettingsV) -> Seq<Token> {
    wire::enc_id(m.mic_type) + wire::enc_u16s(m.mic_gains) + enc_equaliser(m.equaliser)
        + enc_equaliser_mini(m.equaliser_mini) + enc_noise_gate(m.noise_gate)
        + enc_compressor(m.compressor)
}

pub open spec fn dec_mic_settings(s: Seq<Token>) -> Option<(MicSettingsV, Seq<Token>)> {
    match wire::dec_id::<MicrophoneType>(s) {
        Some(p0) => match wire::dec_u16s(p0.1, MICROPHONE_TYPE_COUNT as int) {
            Some(p1) => match dec_equaliser(p1.1) {
                Some(p2) => match dec_equaliser_mini(p2.1) {
                    Some(p3) => match dec_noise_gate(p3.1) {
                        Some(p4) => match dec_compressor(p4.1) {
                            Some(p5) => Some((
                                MicSettingsV {
                                    mic_type: p0.0,
                                    mic_gains: p1.0,
                                    equaliser: p2.0,
                                    equaliser_mini: p3.0,
                                    noise_gate: p4.0,
                                    compressor: p5.0,
                                },
                                p5.1,
                            )),
                            None => None,
                        },
                        None => None,
                    },
                    None => None,
                },
                None => None,
            },
            None => None,
        },
        None => None,
    }
}

pub proof fn lemma_rt_mic_settings(m: MicSettingsV, rest: Seq<Token>)
    requires
        m.wf(),
    ensures
        dec_mic_settings(enc_mic_settings(m) + rest) == Some((m, rest)),
{
    let t6 = rest;
    let t5 = enc_compressor(m.compressor) + t6;
    let t4 = enc_noise_gate(m.noise_gate) + t5;
    let t3 = enc_equaliser_mini(m.equaliser_mini) + t4;
    let t2 = enc_equaliser(m.equaliser) + t3;
    let t1 = wire::enc_u16s(m.mic_gains) + t2;
    let t0 = wire::enc_id(m.mic_type) + t1;
    assert(enc_mic_settings(m) + rest =~= t0);
    wire::lemma_rt_id(m.mic_type, t1);
    wire::lemma_rt_u16s(m.mic_gains, t2);
    lemma_rt_equaliser(m.equaliser, t3);
    lemma_rt_equaliser_mini(m.equaliser_mini, t4);
    lemma_rt_noise_gate(m.noise_gate, t5);
    lemma_rt_compressor(m.compressor, t6);
}

pub fn write_mic_settings(v: &MicSettings, out: &mut Vec<Token>)
    ensures
        final(out)@ == old(out)@ + enc_mic_settings(v@),
{
    wire::write_id(v.mic_type, out);
    wire::write_u16s(&v.mic_gains, out);
    write_equaliser(&v.equaliser, out);
    write_equaliser_mini(&v.equaliser_mini, out);
    write_noise_gate(&v.noise_gate, out);
    write_compressor(&v.compressor, out);
    assert(out@ =~= old(out)@ + enc_mic_settings(v@));
}

pub fn read_mic_settings(toks: &Vec<Token>, pos: &mut usize) -> (r: Option<MicSettings>)
    requires
        *old(pos) <= toks@.len(),
    ensures
        match dec_mic_settings(toks@.skip(*old(pos) as int)) {
            Some(p) => {
                &&& r matches Some(v) && v@ == p.0 && v.wf()
                &&& *old(pos) <= *final(pos) <= toks@.len()
                &&& toks@.skip(*final(pos) as int) == p.1
            },
            None => r is None,
        },
{
    let mic_type: MicrophoneType = match wire::read_id(toks, pos) {
        Some(x) => x,
        None => {
            return None;
        },
    };
    let mic_gains = match wire::read_u16s(toks, pos, MICROPHONE_TYPE_COUNT) {
        Some(x) => x,
        None => {
            return None;
        },
    };
    let equaliser = match read_equaliser(toks, pos) {
        Some(x) => x,
        None => {
            return None;
        },
    };
    let equaliser_mini = match read_equaliser_mini(toks, pos) {
        Some(x) => x,
        None => {
            return None;
        },
    };
    let noise_gate = match read_noise_gate(toks, pos) {
        Some(x) => x,
        None => {
            return None;
        },
    };
    let compressor = match read_compressor(toks, pos) {
        Some(x) => x,
        None => {
            return None;
        },
    };
    Some(MicSettings { mic_type, mic_gains, equaliser, equaliser_mini, noise_gate, compressor })
}

} // verus!
