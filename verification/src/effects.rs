//! The effects engine: seven independent voice effects and a preset bank.
//!
//! Present only on devices whose variant carries an effects engine; the
//! whole record is an optional substructure of a mixer's status.

use vstd::prelude::*;

use crate::ids::{
    EchoStyle, EffectBankPresets, GenderStyle, HardTuneSource, HardTuneStyle, MegaphoneStyle,
    PitchStyle, ReverbStyle, RobotStyle, EFFECT_PRESET_COUNT,
};
use crate::wire;
use crate::wire::Token;

verus! {

/// Reverberation: decay spans a wider unsigned range than the other levels.
#[derive(Debug, Clone, PartialEq)]
pub struct Reverb {
    pub style: ReverbStyle,
    pub amount: u8,
    pub decay: u16,
    pub early_level: i8,
    pub tail_level: i8,
    pub pre_delay: u8,
    pub lo_colour: i8,
    pub hi_colour: i8,
    pub hi_factor: i8,
    pub diffuse: i8,
    pub mod_speed: i8,
    pub mod_depth: i8,
}

impl Reverb {
    /// The effect at rest, as a defaulted status reports it.
    pub open spec fn neutral_spec() -> Reverb {
        Reverb { style: ReverbStyle::Library, amount: 0, decay: 0, early_level: 0, tail_level: 0, pre_delay: 0, lo_colour: 0, hi_colour: 0, hi_factor: 0, diffuse: 0, mod_speed: 0, mod_depth: 0 }
    }
    pub fn neutral() -> (r: Reverb)
        ensures
            r == Reverb::neutral_spec(),
    {
        Reverb { style: ReverbStyle::Library, amount: 0, decay: 0, early_level: 0, tail_level: 0, pre_delay: 0, lo_colour: 0, hi_colour: 0, hi_factor: 0, diffuse: 0, mod_speed: 0, mod_depth: 0 }
    }
}

/// Echo: per-channel delays and feedback routing.
#[derive(Debug, Clone, PartialEq)]
pub struct Echo {
    pub style: EchoStyle,
    pub amount: u8,
    pub feedback: u8,
    pub tempo: u16,
    pub delay_left: u16,
    pub delay_right: u16,
    pub feedback_left: u8,
    pub feedback_right: u8,
    pub feedback_xfb_l_to_r: u8,
    pub feedback_xfb_r_to_l: u8,
}

impl Echo {
    /// The effect at rest, as a defaulted status reports it.
    pub open spec fn neutral_spec() -> Echo {
        Echo { style: EchoStyle::Quarter, amount: 0, feedback: 0, tempo: 0, delay_left: 0, delay_right: 0, feedback_left: 0, feedback_right: 0, feedback_xfb_l_to_r: 0, feedback_xfb_r_to_l: 0 }
    }
    pub fn neutral() -> (r: Echo)
        ensures
            r == Echo::neutral_spec(),
    {
        Echo { style: EchoStyle::Quarter, amount: 0, feedback: 0, tempo: 0, delay_left: 0, delay_right: 0, feedback_left: 0, feedback_right: 0, feedback_xfb_l_to_r: 0, feedback_xfb_r_to_l: 0 }
    }
}

/// Pitch shift.
#[derive(Debug, Clone, PartialEq)]
pub struct Pitch {
    pub style: PitchStyle,
    pub amount: i8,
    pub character: u8,
}

impl Pitch {
    /// The effect at rest, as a defaulted status reports it.
    pub open spec fn neutral_spec() -> Pitch {
        Pitch { style: PitchStyle::Narrow, amount: 0, character: 0 }
    }
    pub fn neutral() -> (r: Pitch)
        ensures
            r == Pitch::neutral_spec(),
    {
        Pitch { style: PitchStyle::Narrow, amount: 0, character: 0 }
    }
}

/// Formant shift.
#[derive(Debug, Clone, PartialEq)]
pub struct Gender {
    pub style: GenderStyle,
    pub amount: i8,
}

impl Gender {
    /// The effect at rest, as a defaulted status reports it.
    pub open spec fn neutral_spec() -> Gender {
        Gender { style: GenderStyle::Narrow, amount: 0 }
    }
    pub fn neutral() -> (r: Gender)
        ensures
            r == Gender::neutral_spec(),
    {
        Gender { style: GenderStyle::Narrow, amount: 0 }
    }
}

/// Megaphone voice effect.
#[derive(Debug, Clone, PartialEq)]
pub struct Megaphone {
    pub is_enabled: bool,
    pub style: MegaphoneStyle,
    pub amount: u8,
    pub post_gain: i8,
}

impl Megaphone {
    /// The effect at rest, as a defaulted status reports it.
    pub open spec fn neutral_spec() -> Megaphone {
        Megaphone { is_enabled: false, style: MegaphoneStyle::Megaphone, amount: 0, post_gain: 0 }
    }
    pub fn neutral() -> (r: Megaphone)
        ensures
            r == Megaphone::neutral_spec(),
    {
        Megaphone { is_enabled: false, style: MegaphoneStyle::Megaphone, amount: 0, post_gain: 0 }
    }
}

/// Robot voice effect: three formant bands and a waveform shaper.
#[derive(Debug, Clone, PartialEq)]
pub struct Robot {
    pub is_enabled: bool,
    pub style: RobotStyle,
    pub low_gain: i8,
    pub low_freq: u8,
    pub low_width: u8,
    pub mid_gain: i8,
    pub mid_freq: u8,
    pub mid_width: u8,
    pub high_gain: i8,
    pub high_freq: u8,
    pub high_width: u8,
    pub waveform: u8,
    pub pulse_width: u8,
    pub threshold: i8,
    pub dry_mix: i8,
}

impl Robot {
    /// The effect at rest, as a defaulted status reports it.
    pub open spec fn neutral_spec() -> Robot {
        Robot { is_enabled: false, style: RobotStyle::Robot1, low_gain: 0, low_freq: 0, low_width: 0, mid_gain: 0, mid_freq: 0, mid_width: 0, high_gain: 0, high_freq: 0, high_width: 0, waveform: 0, pulse_width: 0, threshold: 0, dry_mix: 0 }
    }
    pub fn neutral() -> (r: Robot)
        ensures
            r == Robot::neutral_spec(),
    {
        Robot { is_enabled: false, style: RobotStyle::Robot1, low_gain: 0, low_freq: 0, low_width: 0, mid_gain: 0, mid_freq: 0, mid_width: 0, high_gain: 0, high_freq: 0, high_width: 0, waveform: 0, pulse_width: 0, threshold: 0, dry_mix: 0 }
    }
}

/// Hard-tune pitch correction, fed from a selectable source.
#[derive(Debug, Clone, PartialEq)]
pub struct HardTune {
    pub is_enabled: bool,
    pub style: HardTuneStyle,
    pub amount: u8,
    pub rate: u8,
    pub window: u16,
    pub source: HardTuneSource,
}

impl HardTune {
    /// The effect at rest, as a defaulted status reports it.
    pub open spec fn neutral_spec() -> HardTune {
        HardTune { is_enabled: false, style: HardTuneStyle::Natural, amount: 0, rate: 0, window: 0, source: HardTuneSource::All }
    }

    pub fn neutral() -> (r: HardTune)
        ensures
            r == HardTune::neutral_spec(),
    {
        HardTune { is_enabled: false, style: HardTuneStyle::Natural, amount: 0, rate: 0, window: 0, source: HardTuneSource::All }
    }
}

/// The currently active parameter set of all seven effects.
#[derive(Debug, Clone, PartialEq)]
pub struct ActiveEffects {
    pub reverb: Reverb,
    pub echo: Echo,
    pub pitch: Pitch,
    pub gender: Gender,
    pub megaphone: Megaphone,
    pub robot: Robot,
    pub hard_tune: HardTune,
}

impl ActiveEffects {
    /// Every effect at rest.
    pub open spec fn neutral_spec() -> ActiveEffects {
        ActiveEffects {
            reverb: Reverb::neutral_spec(),
            echo: Echo::neutral_spec(),
            pitch: Pitch::neutral_spec(),
            gender: Gender::neutral_spec(),
            megaphone: Megaphone::neutral_spec(),
            robot: Robot::neutral_spec(),
            hard_tune: HardTune::neutral_spec(),
        }
    }

    pub fn neutral() -> (r: ActiveEffects)
        ensures
            r == ActiveEffects::neutral_spec(),
    {
        ActiveEffects {
            reverb: Reverb::neutral(),
            echo: Echo::neutral(),
            pitch: Pitch::neutral(),
            gender: Gender::neutral(),
            megaphone: Megaphone::neutral(),
            robot: Robot::neutral(),
            hard_tune: HardTune::neutral(),
        }
    }
}

pub open spec fn enc_reverb(v: Reverb) -> Seq<Token> {
    wire::enc_id(v.style) + wire::enc_u8(v.amount) + wire::enc_u16(v.decay) + wire::enc_i8(v.early_level) + wire::enc_i8(v.tail_level) + wire::enc_u8(v.pre_delay) + wire::enc_i8(v.lo_colour) + wire::enc_i8(v.hi_colour) + wire::enc_i8(v.hi_factor) + wire::enc_i8(v.diffuse) + wire::enc_i8(v.mod_speed) + wire::enc_i8(v.mod_depth)
}

pub open spec fn dec_reverb(s: Seq<Token>) -> Option<(Reverb, Seq<Token>)> {
    match wire::dec_id(s) {
        Some(p0) => 
        match wire::dec_u8(p0.1) {
            Some(p1) => 
            match wire::dec_u16(p1.1) {
                Some(p2) => 
                match wire::dec_i8(p2.1) {
                    Some(p3) => 
                    match wire::dec_i8(p3.1) {
                        Some(p4) => 
                        match wire::dec_u8(p4.1) {
                            Some(p5) => 
                            match wire::dec_i8(p5.1) {
                                Some(p6) => 
                                match wire::dec_i8(p6.1) {
                                    Some(p7) => 
                                    match wire::dec_i8(p7.1) {
                                        Some(p8) => 
                                        match wire::dec_i8(p8.1) {
                                            Some(p9) => 
                                            match wire::dec_i8(p9.1) {
                                                Some(p10) => 
                                                match wire::dec_i8(p10.1) {
                                                    Some(p11) => 
                                                    Some((Reverb { style: p0.0, amount: p1.0, decay: p2.0, early_level: p3.0, tail_level: p4.0, pre_delay: p5.0, lo_colour: p6.0, hi_colour: p7.0, hi_factor: p8.0, diffuse: p9.0, mod_speed: p10.0, mod_depth: p11.0 }, p11.1)),
                                                    None => None,
                                                },
                                                None => None,
                                            },
                                            None => None,
                                        },
                                        None => None,
                                    },
                                    None => None,
                                },
                                None => None,
                            },
                            None => None,
                        },
                        None => None,
                    },
                    None => None,
                },
                None => None,
            },
            None => None,
        },
        None => None,
    }
}

pub proof fn lemma_rt_reverb(v: Reverb, rest: Seq<Token>)
    ensures
        dec_reverb(enc_reverb(v) + rest) == Some((v, rest)),
{
    let t12 = rest;
    let t11 = wire::enc_i8(v.mod_depth) + t12;
    let t10 = wire::enc_i8(v.mod_speed) + t11;
    let t9 = wire::enc_i8(v.diffuse) + t10;
    let t8 = wire::enc_i8(v.hi_factor) + t9;
    let t7 = wire::enc_i8(v.hi_colour) + t8;
    let t6 = wire::enc_i8(v.lo_colour) + t7;
    let t5 = wire::enc_u8(v.pre_delay) + t6;
    let t4 = wire::enc_i8(v.tail_level) + t5;
    let t3 = wire::enc_i8(v.early_level) + t4;
    let t2 = wire::enc_u16(v.decay) + t3;
    let t1 = wire::enc_u8(v.amount) + t2;
    let t0 = wire::enc_id(v.style) + t1;
    assert(enc_reverb(v) + rest =~= t0);
    wire::lemma_rt_id(v.style, t1);
    wire::lemma_rt_u8(v.amount, t2);
    wire::lemma_rt_u16(v.decay, t3);
    wire::lemma_rt_i8(v.early_level, t4);
    wire::lemma_rt_i8(v.tail_level, t5);
    wire::lemma_rt_u8(v.pre_delay, t6);
    wire::lemma_rt_i8(v.lo_colour, t7);
    wire::lemma_rt_i8(v.hi_colour, t8);
    wire::lemma_rt_i8(v.hi_factor, t9);
    wire::lemma_rt_i8(v.diffuse, t10);
    wire::lemma_rt_i8(v.mod_speed, t11);
    wire::lemma_rt_i8(v.mod_depth, t12);
}

pub fn write_reverb(v: &Reverb, out: &mut Vec<Token>)
    ensures
        final(out)@ == old(out)@ + enc_reverb(*v),
{
    wire::write_id(v.style, out);
    wire::write_u8(v.amount, out);
    wire::write_u16(v.decay, out);
    wire::write_i8(v.early_level, out);
    wire::write_i8(v.tail_level, out);
    wire::write_u8(v.pre_delay, out);
    wire::write_i8(v.lo_colour, out);
    wire::write_i8(v.hi_colour, out);
    wire::write_i8(v.hi_factor, out);
    wire::write_i8(v.diffuse, out);
    wire::write_i8(v.mod_speed, out);
    wire::write_i8(v.mod_depth, out);
    assert(out@ =~= old(out)@ + enc_reverb(*v));
}

pub fn read_reverb(toks: &Vec<Token>, pos: &mut usize) -> (r: Option<Reverb>)
    requires
        *old(pos) <= toks@.len(),
    ensures
        match dec_reverb(toks@.skip(*old(pos) as int)) {
            Some(p) => {
                &&& r == Some(p.0)
                &&& *old(pos) <= *final(pos) <= toks@.len()
                &&& toks@.skip(*final(pos) as int) == p.1
            },
            None => r is None,
        },
{
    let style: ReverbStyle = match wire::read_id(toks, pos) {
        Some(x) => x,
        None => {
            return None;
        },
    };
    let amount: u8 = match wire::read_u8(toks, pos) {
        Some(x) => x,
        None => {
            return None;
        },
    };
    let decay: u16 = match wire::read_u16(toks, pos) {
        Some(x) => x,
        None => {
            return None;
        },
    };
    let early_level: i8 = match wire::read_i8(toks, pos) {
        Some(x) => x,
        None => {
            return None;
        },
    };
    let tail_level: i8 = match wire::read_i8(toks, pos) {
        Some(x) => x,
        None => {
            return None;
        },
    };
    let pre_delay: u8 = match wire::read_u8(toks, pos) {
        Some(x) => x,
        None => {
            return None;
        },
    };
    let lo_colour: i8 = match wire::read_i8(toks, pos) {
        Some(x) => x,
        None => {
            return None;
        },
    };
    let hi_colour: i8 = match wire::read_i8(toks, pos) {
        Some(x) => x,
        None => {
            return None;
        },
    };
    let hi_factor: i8 = match wire::read_i8(toks, pos) {
        Some(x) => x,
        None => {
            return None;
        },
    };
    let diffuse: i8 = match wire::read_i8(toks, pos) {
        Some(x) => x,
        None => {
            return None;
        },
    };
    let mod_speed: i8 = match wire::read_i8(toks, pos) {
        Some(x) => x,
        None => {
            return None;
        },
    };
    let mod_depth: i8 = match wire::read_i8(toks, pos) {
        Some(x) => x,
        None => {
            return None;
        },
    };
    Some(Reverb { style, amount, decay, early_level, tail_level, pre_delay, lo_colour, hi_colour, hi_factor, diffuse, mod_speed, mod_depth })
}

pub open spec fn enc_echo(v: Echo) -> Seq<Token> {
    wire::enc_id(v.style) + wire::enc_u8(v.amount) + wire::enc_u8(v.feedback) + wire::enc_u16(v.tempo) + wire::enc_u16(v.delay_left) + wire::enc_u16(v.delay_right) + wire::enc_u8(v.feedback_left) + wire::enc_u8(v.feedback_right) + wire::enc_u8(v.feedback_xfb_l_to_r) + wire::enc_u8(v.feedback_xfb_r_to_l)
}

pub open spec fn dec_echo(s: Seq<Token>) -> Option<(Echo, Seq<Token>)> {
    match wire::dec_id(s) {
        Some(p0) => 
        match wire::dec_u8(p0.1) {
            Some(p1) => 
            match wire::dec_u8(p1.1) {
                Some(p2) => 
                match wire::dec_u16(p2.1) {
                    Some(p3) => 
                    match wire::dec_u16(p3.1) {
                        Some(p4) => 
                        match wire::dec_u16(p4.1) {
                            Some(p5) => 
                            match wire::dec_u8(p5.1) {
                                Some(p6) => 
                                match wire::dec_u8(p6.1) {
                                    Some(p7) => 
                                    match wire::dec_u8(p7.1) {
                                        Some(p8) => 
                                        match wire::dec_u8(p8.1) {
                                            Some(p9) => 
                                            Some((Echo { style: p0.0, amount: p1.0, feedback: p2.0, tempo: p3.0, delay_left: p4.0, delay_right: p5.0, feedback_left: p6.0, feedback_right: p7.0, feedback_xfb_l_to_r: p8.0, feedback_xfb_r_to_l: p9.0 }, p9.1)),
                                            None => None,
                                        },
                                        None => None,
                                    },
                                    None => None,
                                },
                                None => None,
                            },
                            None => None,
                        },
                        None => None,
                    },
                    None => None,
                },
                None => None,
            },
            None => None,
        },
        None => None,
    }
}

pub proof fn lemma_rt_echo(v: Echo, rest: Seq<Token>)
    ensures
        dec_echo(enc_echo(v) + rest) == Some((v, rest)),
{
    let t10 = rest;
    let t9 = wire::enc_u8(v.feedback_xfb_r_to_l) + t10;
    let t8 = wire::enc_u8(v.feedback_xfb_l_to_r) + t9;
    let t7 = wire::enc_u8(v.feedback_right) + t8;
    let t6 = wire::enc_u8(v.feedback_left) + t7;
    let t5 = wire::enc_u16(v.delay_right) + t6;
    let t4 = wire::enc_u16(v.delay_left) + t5;
    let t3 = wire::enc_u16(v.tempo) + t4;
    let t2 = wire::enc_u8(v.feedback) + t3;
    let t1 = wire::enc_u8(v.amount) + t2;
    let t0 = wire::enc_id(v.style) + t1;
    assert(enc_echo(v) + rest =~= t0);
    wire::lemma_rt_id(v.style, t1);
    wire::lemma_rt_u8(v.amount, t2);
    wire::lemma_rt_u8(v.feedback, t3);
    wire::lemma_rt_u16(v.tempo, t4);
    wire::lemma_rt_u16(v.delay_left, t5);
    wire::lemma_rt_u16(v.delay_right, t6);
    wire::lemma_rt_u8(v.feedback_left, t7);
    wire::lemma_rt_u8(v.feedback_right, t8);
    wire::lemma_rt_u8(v.feedback_xfb_l_to_r, t9);
    wire::lemma_rt_u8(v.feedback_xfb_r_to_l, t10);
}

pub fn write_echo(v: &Echo, out: &mut Vec<Token>)
    ensures
        final(out)@ == old(out)@ + enc_echo(*v),
{
    wire::write_id(v.style, out);
    wire::write_u8(v.amount, out);
    wire::write_u8(v.feedback, out);
    wire::write_u16(v.tempo, out);
    wire::write_u16(v.delay_left, out);
    wire::write_u16(v.delay_right, out);
    wire::write_u8(v.feedback_left, out);
    wire::write_u8(v.feedback_right, out);
    wire::write_u8(v.feedback_xfb_l_to_r, out);
    wire::write_u8(v.feedback_xfb_r_to_l, out);
    assert(out@ =~= old(out)@ + enc_echo(*v));
}

pub fn read_echo(toks: &Vec<Token>, pos: &mut usize) -> (r: Option<Echo>)
    requires
        *old(pos) <= toks@.len(),
    ensures
        match dec_echo(toks@.skip(*old(pos) as int)) {
            Some(p) => {
                &&& r == Some(p.0)
                &&& *old(pos) <= *final(pos) <= toks@.len()
                &&& toks@.skip(*final(pos) as int) == p.1
            },
            None => r is None,
        },
{
    let style: EchoStyle = match wire::read_id(toks, pos) {
        Some(x) => x,
        None => {
            return None;
        },
    };
    let amount: u8 = match wire::read_u8(toks, pos) {
        Some(x) => x,
        None => {
            return None;
        },
    };
    let feedback: u8 = match wire::read_u8(toks, pos) {
        Some(x) => x,
        None => {
            return None;
        },
    };
    let tempo: u16 = match wire::read_u16(toks, pos) {
        Some(x) => x,
        None => {
            return None;
        },
    };
    let delay_left: u16 = match wire::read_u16(toks, pos) {
        Some(x) => x,
        None => {
            return None;
        },
    };
    let delay_right: u16 = match wire::read_u16(toks, pos) {
        Some(x) => x,
        None => {
            return None;
        },
    };
    let feedback_left: u8 = match wire::read_u8(toks, pos) {
        Some(x) => x,
        None => {
            return None;
        },
    };
    let feedback_right: u8 = match wire::read_u8(toks, pos) {
        Some(x) => x,
        None => {
            return None;
        },
    };
    let feedback_xfb_l_to_r: u8 = match wire::read_u8(toks, pos) {
        Some(x) => x,
        None => {
            return None;
        },
    };
    let feedback_xfb_r_to_l: u8 = match wire::read_u8(toks, pos) {
        Some(x) => x,
        None => {
            return None;
        },
    };
    Some(Echo { style, amount, feedback, tempo, delay_left, delay_right, feedback_left, feedback_right, feedback_xfb_l_to_r, feedback_xfb_r_to_l })
}

pub open spec fn enc_pitch(v: Pitch) -> Seq<Token> {
    wire::enc_id(v.style) + wire::enc_i8(v.amount) + wire::enc_u8(v.character)
}

pub open spec fn dec_pitch(s: Seq<Token>) -> Option<(Pitch, Seq<Token>)> {
    match wire::dec_id(s) {
        Some(p0) => 
        match wire::dec_i8(p0.1) {
            Some(p1) => 
            match wire::dec_u8(p1.1) {
                Some(p2) => 
                Some((Pitch { style: p0.0, amount: p1.0, character: p2.0 }, p2.1)),
                None => None,
            },
            None => None,
        },
        None => None,
    }
}

pub proof fn lemma_rt_pitch(v: Pitch, rest: Seq<Token>)
    ensures
        dec_pitch(enc_pitch(v) + rest) == Some((v, rest)),
{
    let t3 = rest;
    let t2 = wire::enc_u8(v.character) + t3;
    let t1 = wire::enc_i8(v.amount) + t2;
    let t0 = wire::enc_id(v.style) + t1;
    assert(enc_pitch(v) + rest =~= t0);
    wire::lemma_rt_id(v.style, t1);
    wire::lemma_rt_i8(v.amount, t2);
    wire::lemma_rt_u8(v.character, t3);
}

pub fn write_pitch(v: &Pitch, out: &mut Vec<Token>)
    ensures
        final(out)@ == old(out)@ + enc_pitch(*v),
{
    wire::write_id(v.style, out);
    wire::write_i8(v.amount, out);
    wire::write_u8(v.character, out);
    assert(out@ =~= old(out)@ + enc_pitch(*v));
}

pub fn read_pitch(toks: &Vec<Token>, pos: &mut usize) -> (r: Option<Pitch>)
    requires
        *old(pos) <= toks@.len(),
    ensures
        match dec_pitch(toks@.skip(*old(pos) as int)) {
            Some(p) => {
                &&& r == Some(p.0)
                &&& *old(pos) <= *final(pos) <= toks@.len()
                &&& toks@.skip(*final(pos) as int) == p.1
            },
            None => r is None,
        },
{
    let style: PitchStyle = match wire::read_id(toks, pos) {
        Some(x) => x,
        None => {
            return None;
        },
    };
    let amount: i8 = match wire::read_i8(toks, pos) {
        Some(x) => x,
        None => {
            return None;
        },
    };
    let character: u8 = match wire::read_u8(toks, pos) {
        Some(x) => x,
        None => {
            return None;
        },
    };
    Some(Pitch { style, amount, character })
}

pub open spec fn enc_gender(v: Gender) -> Seq<Token> {
    wire::enc_id(v.style) + wire::enc_i8(v.amount)
}

pub open spec fn dec_gender(s: Seq<Token>) -> Option<(Gender, Seq<Token>)> {
    match wire::dec_id(s) {
        Some(p0) => 
        match wire::dec_i8(p0.1) {
            Some(p1) => 
            Some((Gender { style: p0.0, amount: p1.0 }, p1.1)),
            None => None,
        },
        None => None,
    }
}

pub proof fn lemma_rt_gender(v: Gender, rest: Seq<Token>)
    ensures
        dec_gender(enc_gender(v) + rest) == Some((v, rest)),
{
    let t2 = rest;
    let t1 = wire::enc_i8(v.amount) + t2;
    let t0 = wire::enc_id(v.style) + t1;
    assert(enc_gender(v) + rest =~= t0);
    wire::lemma_rt_id(v.style, t1);
    wire::lemma_rt_i8(v.amount, t2);
}

pub fn write_gender(v: &Gender, out: &mut Vec<Token>)
    ensures
        final(out)@ == old(out)@ + enc_gender(*v),
{
    wire::write_id(v.style, out);
    wire::write_i8(v.amount, out);
    assert(out@ =~= old(out)@ + enc_gender(*v));
}

pub fn read_gender(toks: &Vec<Token>, pos: &mut usize) -> (r: Option<Gender>)
    requires
        *old(pos) <= toks@.len(),
    ensures
        match dec_gender(toks@.skip(*old(pos) as int)) {
            Some(p) => {
                &&& r == Some(p.0)
                &&& *old(pos) <= *final(pos) <= toks@.len()
                &&& toks@.skip(*final(pos) as int) == p.1
            },
            None => r is None,
        },
{
    let style: GenderStyle = match wire::read_id(toks, pos) {
        Some(x) => x,
        None => {
            return None;
        },
    };
    let amount: i8 = match wire::read_i8(toks, pos) {
        Some(x) => x,
        None => {
            return None;
        },
    };
    Some(Gender { style, amount })
}

pub open spec fn enc_megaphone(v: Megaphone) -> Seq<Token> {
    wire::enc_bool(v.is_enabled) + wire::enc_id(v.style) + wire::enc_u8(v.amount) + wire::enc_i8(v.post_gain)
}

pub open spec fn dec_megaphone(s: Seq<Token>) -> Option<(Megaphone, Seq<Token>)> {
    match wire::dec_bool(s) {
        Some(p0) => 
        match wire::dec_id(p0.1) {
            Some(p1) => 
            match wire::dec_u8(p1.1) {
                Some(p2) => 
                match wire::dec_i8(p2.1) {
                    Some(p3) => 
                    Some((Megaphone { is_enabled: p0.0, style: p1.0, amount: p2.0, post_gain: p3.0 }, p3.1)),
                    None => None,
                },
                None => None,
            },
            None => None,
        },
        None => None,
    }
}

pub proof fn lemma_rt_megaphone(v: Megaphone, rest: Seq<Token>)
    ensures
        dec_megaphone(enc_megaphone(v) + rest) == Some((v, rest)),
{
    let t4 = rest;
    let t3 = wire::enc_i8(v.post_gain) + t4;
    let t2 = wire::enc_u8(v.amount) + t3;
    let t1 = wire::enc_id(v.style) + t2;
    let t0 = wire::enc_bool(v.is_enabled) + t1;
    assert(enc_megaphone(v) + rest =~= t0);
    wire::lemma_rt_bool(v.is_enabled, t1);
    wire::lemma_rt_id(v.style, t2);
    wire::lemma_rt_u8(v.amount, t3);
    wire::lemma_rt_i8(v.post_gain, t4);
}

pub fn write_megaphone(v: &Megaphone, out: &mut Vec<Token>)
    ensures
        final(out)@ == old(out)@ + enc_megaphone(*v),
{
    wire::write_bool(v.is_enabled, out);
    wire::write_id(v.style, out);
    wire::write_u8(v.amount, out);
    wire::write_i8(v.post_gain, out);
    assert(out@ =~= old(out)@ + enc_megaphone(*v));
}

pub fn read_megaphone(toks: &Vec<Token>, pos: &mut usize) -> (r: Option<Megaphone>)
    requires
        *old(pos) <= toks@.len(),
    ensures
        match dec_megaphone(toks@.skip(*old(pos) as int)) {
            Some(p) => {
                &&& r == Some(p.0)
                &&& *old(pos) <= *final(pos) <= toks@.len()
                &&& toks@.skip(*final(pos) as int) == p.1
            },
            None => r is None,
        },
{
    let is_enabled: bool = match wire::read_bool(toks, pos) {
        Some(x) => x,
        None => {
            return None;
        },
    };
    let style: MegaphoneStyle = match wire::read_id(toks, pos) {
        Some(x) => x,
        None => {
            return None;
        },
    };
    let amount: u8 = match wire::read_u8(toks, pos) {
        Some(x) => x,
        None => {
            return None;
        },
    };
    let post_gain: i8 = match wire::read_i8(toks, pos) {
        Some(x) => x,
        None => {
            return None;
        },
    };
    Some(Megaphone { is_enabled, style, amount, post_gain })
}

pub open spec fn enc_robot(v: Robot) -> Seq<Token> {
    wire::enc_bool(v.is_enabled) + wire::enc_id(v.style) + wire::enc_i8(v.low_gain) + wire::enc_u8(v.low_freq) + wire::enc_u8(v.low_width) + wire::enc_i8(v.mid_gain) + wire::enc_u8(v.mid_freq) + wire::enc_u8(v.mid_width) + wire::enc_i8(v.high_gain) + wire::enc_u8(v.high_freq) + wire::enc_u8(v.high_width) + wire::enc_u8(v.waveform) + wire::enc_u8(v.pulse_width) + wire::enc_i8(v.threshold) + wire::enc_i8(v.dry_mix)
}

pub open spec fn dec_robot(s: Seq<Token>) -> Option<(Robot, Seq<Token>)> {
    match wire::dec_bool(s) {
        Some(p0) => 
        match wire::dec_id(p0.1) {
            Some(p1) => 
            match wire::dec_i8(p1.1) {
                Some(p2) => 
                match wire::dec_u8(p2.1) {
                    Some(p3) => 
                    match wire::dec_u8(p3.1) {
                        Some(p4) => 
                        match wire::dec_i8(p4.1) {
                            Some(p5) => 
                            match wire::dec_u8(p5.1) {
                                Some(p6) => 
                                match wire::dec_u8(p6.1) {
                                    Some(p7) => 
                                    match wire::dec_i8(p7.1) {
                                        Some(p8) => 
                                        match wire::dec_u8(p8.1) {
                                            Some(p9) => 
                                            match wire::dec_u8(p9.1) {
                                                Some(p10) => 
                                                match wire::dec_u8(p10.1) {
                                                    Some(p11) => 
                                                    match wire::dec_u8(p11.1) {
                                                        Some(p12) => 
                                                        match wire::dec_i8(p12.1) {
                                                            Some(p13) => 
                                                            match wire::dec_i8(p13.1) {
                                                                Some(p14) => 
                                                                Some((Robot { is_enabled: p0.0, style: p1.0, low_gain: p2.0, low_freq: p3.0, low_width: p4.0, mid_gain: p5.0, mid_freq: p6.0, mid_width: p7.0, high_gain: p8.0, high_freq: p9.0, high_width: p10.0, waveform: p11.0, pulse_width: p12.0, threshold: p13.0, dry_mix: p14.0 }, p14.1)),
                                                                None => None,
                                                            },
                                                            None => None,
                                                        },
                                                        None => None,
                                                    },
                                                    None => None,
                                                },
                                                None => None,
                                            },
                                            None => None,
                                        },
                                        None => None,
                                    },
                                    None => None,
                                },
                                None => None,
                            },
                            None => None,
                        },
                        None => None,
                    },
                    None => None,
                },
                None => None,
            },
            None => None,
        },
        None => None,
    }
}

pub proof fn lemma_rt_robot(v: Robot, rest: Seq<Token>)
    ensures
        dec_robot(enc_robot(v) + rest) == Some((v, rest)),
{
    let t15 = rest;
    let t14 = wire::enc_i8(v.dry_mix) + t15;
    let t13 = wire::enc_i8(v.threshold) + t14;
    let t12 = wire::enc_u8(v.pulse_width) + t13;
    let t11 = wire::enc_u8(v.waveform) + t12;
    let t10 = wire::enc_u8(v.high_width) + t11;
    let t9 = wire::enc_u8(v.high_freq) + t10;
    let t8 = wire::enc_i8(v.high_gain) + t9;
    let t7 = wire::enc_u8(v.mid_width) + t8;
    let t6 = wire::enc_u8(v.mid_freq) + t7;
    let t5 = wire::enc_i8(v.mid_gain) + t6;
    let t4 = wire::enc_u8(v.low_width) + t5;
    let t3 = wire::enc_u8(v.low_freq) + t4;
    let t2 = wire::enc_i8(v.low_gain) + t3;
    let t1 = wire::enc_id(v.style) + t2;
    let t0 = wire::enc_bool(v.is_enabled) + t1;
    assert(enc_robot(v) + rest =~= t0);
    wire::lemma_rt_bool(v.is_enabled, t1);
    wire::lemma_rt_id(v.style, t2);
    wire::lemma_rt_i8(v.low_gain, t3);
    wire::lemma_rt_u8(v.low_freq, t4);
    wire::lemma_rt_u8(v.low_width, t5);
    wire::lemma_rt_i8(v.mid_gain, t6);
    wire::lemma_rt_u8(v.mid_freq, t7);
    wire::lemma_rt_u8(v.mid_width, t8);
    wire::lemma_rt_i8(v.high_gain, t9);
    wire::lemma_rt_u8(v.high_freq, t10);
    wire::lemma_rt_u8(v.high_width, t11);
    wire::lemma_rt_u8(v.waveform, t12);
    wire::lemma_rt_u8(v.pulse_width, t13);
    wire::lemma_rt_i8(v.threshold, t14);
    wire::lemma_rt_i8(v.dry_mix, t15);
}

pub fn write_robot(v: &Robot, out: &mut Vec<Token>)
    ensures
        final(out)@ == old(out)@ + enc_robot(*v),
{
    wire::write_bool(v.is_enabled, out);
    wire::write_id(v.style, out);
    wire::write_i8(v.low_gain, out);
    wire::write_u8(v.low_freq, out);
    wire::write_u8(v.low_width, out);
    wire::write_i8(v.mid_gain, out);
    wire::write_u8(v.mid_freq, out);
    wire::write_u8(v.mid_width, out);
    wire::write_i8(v.high_gain, out);
    wire::write_u8(v.high_freq, out);
    wire::write_u8(v.high_width, out);
    wire::write_u8(v.waveform, out);
    wire::write_u8(v.pulse_width, out);
    wire::write_i8(v.threshold, out);
    wire::write_i8(v.dry_mix, out);
    assert(out@ =~= old(out)@ + enc_robot(*v));
}

pub fn read_robot(toks: &Vec<Token>, pos: &mut usize) -> (r: Option<Robot>)
    requires
        *old(pos) <= toks@.len(),
    ensures
        match dec_robot(toks@.skip(*old(pos) as int)) {
            Some(p) => {
                &&& r == Some(p.0)
                &&& *old(pos) <= *final(pos) <= toks@.len()
                &&& toks@.skip(*final(pos) as int) == p.1
            },
            None => r is None,
        },
{
    let is_enabled: bool = match wire::read_bool(toks, pos) {
        Some(x) => x,
        None => {
            return None;
        },
    };
    let style: RobotStyle = match wire::read_id(toks, pos) {
        Some(x) => x,
        None => {
            return None;
        },
    };
    let low_gain: i8 = match wire::read_i8(toks, pos) {
        Some(x) => x,
        None => {
            return None;
        },
    };
    let low_freq: u8 = match wire::read_u8(toks, pos) {
        Some(x) => x,
        None => {
            return None;
        },
    };
    let low_width: u8 = match wire::read_u8(toks, pos) {
        Some(x) => x,
        None => {
            return None;
        },
    };
    let mid_gain: i8 = match wire::read_i8(toks, pos) {
        Some(x) => x,
        None => {
            return None;
        },
    };
    let mid_freq: u8 = match wire::read_u8(toks, pos) {
        Some(x) => x,
        None => {
            return None;
        },
    };
    let mid_width: u8 = match wire::read_u8(toks, pos) {
        Some(x) => x,
        None => {
            return None;
        },
    };
    let high_gain: i8 = match wire::read_i8(toks, pos) {
        Some(x) => x,
        None => {
            return None;
        },
    };
    let high_freq: u8 = match wire::read_u8(toks, pos) {
        Some(x) => x,
        None => {
            return None;
        },
    };
    let high_width: u8 = match wire::read_u8(toks, pos) {
        Some(x) => x,
        None => {
            return None;
        },
    };
    let waveform: u8 = match wire::read_u8(toks, pos) {
        Some(x) => x,
        None => {
            return None;
        },
    };
    let pulse_width: u8 = match wire::read_u8(toks, pos) {
        Some(x) => x,
        None => {
            return None;
        },
    };
    let threshold: i8 = match wire::read_i8(toks, pos) {
        Some(x) => x,
        None => {
            return None;
        },
    };
    let dry_mix: i8 = match wire::read_i8(toks, pos) {
        Some(x) => x,
        None => {
            return None;
        },
    };
    Some(Robot { is_enabled, style, low_gain, low_freq, low_width, mid_gain, mid_freq, mid_width, high_gain, high_freq, high_width, waveform, pulse_width, threshold, dry_mix })
}

pub open spec fn enc_hard_tune(v: HardTune) -> Seq<Token> {
    wire::enc_bool(v.is_enabled) + wire::enc_id(v.style) + wire::enc_u8(v.amount) + wire::enc_u8(v.rate) + wire::enc_u16(v.window) + wire::enc_id(v.source)
}

pub open spec fn dec_hard_tune(s: Seq<Token>) -> Option<(HardTune, Seq<Token>)> {
    match wire::dec_bool(s) {
        Some(p0) => 
        match wire::dec_id(p0.1) {
            Some(p1) => 
            match wire::dec_u8(p1.1) {
                Some(p2) => 
                match wire::dec_u8(p2.1) {
                    Some(p3) => 
                    match wire::dec_u16(p3.1) {
                        Some(p4) => 
                        match wire::dec_id(p4.1) {
                            Some(p5) => 
                            Some((HardTune { is_enabled: p0.0, style: p1.0, amount: p2.0, rate: p3.0, window: p4.0, source: p5.0 }, p5.1)),
                            None => None,
                        },
                        None => None,
                    },
                    None => None,
                },
                None => None,
            },
            None => None,
        },
        None => None,
    }
}

pub proof fn lemma_rt_hard_tune(v: HardTune, rest: Seq<Token>)
    ensures
        dec_hard_tune(enc_hard_tune(v) + rest) == Some((v, rest)),
{
    let t6 = rest;
    let t5 = wire::enc_id(v.source) + t6;
    let t4 = wire::enc_u16(v.window) + t5;
    let t3 = wire::enc_u8(v.rate) + t4;
    let t2 = wire::enc_u8(v.amount) + t3;
    let t1 = wire::enc_id(v.style) + t2;
    let t0 = wire::enc_bool(v.is_enabled) + t1;
    assert(enc_hard_tune(v) + rest =~= t0);
    wire::lemma_rt_bool(v.is_enabled, t1);
    wire::lemma_rt_id(v.style, t2);
    wire::lemma_rt_u8(v.amount, t3);
    wire::lemma_rt_u8(v.rate, t4);
    wire::lemma_rt_u16(v.window, t5);
    wire::lemma_rt_id(v.source, t6);
}

pub fn write_hard_tune(v: &HardTune, out: &mut Vec<Token>)
    ensures
        final(out)@ == old(out)@ + enc_hard_tune(*v),
{
    wire::write_bool(v.is_enabled, out);
    wire::write_id(v.style, out);
    wire::write_u8(v.amount, out);
    wire::write_u8(v.rate, out);
    wire::write_u16(v.window, out);
    wire::write_id(v.source, out);
    assert(out@ =~= old(out)@ + enc_hard_tune(*v));
}

pub fn read_hard_tune(toks: &Vec<Token>, pos: &mut usize) -> (r: Option<HardTune>)
    requires
        *old(pos) <= toks@.len(),
    ensures
        match dec_hard_tune(toks@.skip(*old(pos) as int)) {
            Some(p) => {
                &&& r == Some(p.0)
                &&& *old(pos) <= *final(pos) <= toks@.len()
                &&& toks@.skip(*final(pos) as int) == p.1
            },
            None => r is None,
        },
{
    let is_enabled: bool = match wire::read_bool(toks, pos) {
        Some(x) => x,
        None => {
            return None;
        },
    };
    let style: HardTuneStyle = match wire::read_id(toks, pos) {
        Some(x) => x,
        None => {
            return None;
        },
    };
    let amount: u8 = match wire::read_u8(toks, pos) {
        Some(x) => x,
        None => {
            return None;
        },
    };
    let rate: u8 = match wire::read_u8(toks, pos) {
        Some(x) => x,
        None => {
            return None;
        },
    };
    let window: u16 = match wire::read_u16(toks, pos) {
        Some(x) => x,
        None => {
            return None;
        },
    };
    let source: HardTuneSource = match wire::read_id(toks, pos) {
        Some(x) => x,
        None => {
            return None;
        },
    };
    Some(HardTune { is_enabled, style, amount, rate, window, source })
}

pub open spec fn enc_active_effects(v: ActiveEffects) -> Seq<Token> {
    enc_reverb(v.reverb) + enc_echo(v.echo) + enc_pitch(v.pitch) + enc_gender(v.gender) + enc_megaphone(v.megaphone) + enc_robot(v.robot) + enc_hard_tune(v.hard_tune)
}

pub open spec fn dec_active_effects(s: Seq<Token>) -> Option<(ActiveEffects, Seq<Token>)> {
    match dec_reverb(s) {
        Some(p0) => 
        match dec_echo(p0.1) {
            Some(p1) => 
            match dec_pitch(p1.1) {
                Some(p2) => 
                match dec_gender(p2.1) {
                    Some(p3) => 
                    match dec_megaphone(p3.1) {
                        Some(p4) => 
                        match dec_robot(p4.1) {
                            Some(p5) => 
                            match dec_hard_tune(p5.1) {
                                Some(p6) => 
                                Some((ActiveEffects { reverb: p0.0, echo: p1.0, pitch: p2.0, gender: p3.0, megaphone: p4.0, robot: p5.0, hard_tune: p6.0 }, p6.1)),
                                None => None,
                            },
                            None => None,
                        },
                        None => None,
                    },
                    None => None,
                },
                None => None,
            },
            None => None,
        },
        None => None,
    }
}

pub proof fn lemma_rt_active_effects(v: ActiveEffects, rest: Seq<Token>)
    ensures
        dec_active_effects(enc_active_effects(v) + rest) == Some((v, rest)),
{
    let e1 = enc_reverb(v.reverb);
    let e2 = enc_echo(v.echo);
    let e3 = enc_pitch(v.pitch);
    let e4 = enc_gender(v.gender);
    let e5 = enc_megaphone(v.megaphone);
    let e6 = enc_robot(v.robot);
    let e7 = enc_hard_tune(v.hard_tune);
    let t8 = rest;
    let t7 = e7 + t8;
    let t6 = e6 + t7;
    let t5 = e5 + t6;
    let t4 = e4 + t5;
    let t3 = e3 + t4;
    let t2 = e2 + t3;
    let t1 = e1 + t2;
    wire::lemma_assoc(e1 + e2 + e3 + e4 + e5 + e6, e7, t8);
    wire::lemma_assoc(e1 + e2 + e3 + e4 + e5, e6, t7);
    wire::lemma_assoc(e1 + e2 + e3 + e4, e5, t6);
    wire::lemma_assoc(e1 + e2 + e3, e4, t5);
    wire::lemma_assoc(e1 + e2, e3, t4);
    wire::lemma_assoc(e1, e2, t3);
    assert(enc_active_effects(v) + rest == t1);
    lemma_rt_reverb(v.reverb, t2);
    lemma_rt_echo(v.echo, t3);
    lemma_rt_pitch(v.pitch, t4);
    lemma_rt_gender(v.gender, t5);
    lemma_rt_megaphone(v.megaphone, t6);
    lemma_rt_robot(v.robot, t7);
    lemma_rt_hard_tune(v.hard_tune, t8);
}

pub fn write_active_effects(v: &ActiveEffects, out: &mut Vec<Token>)
    ensures
        final(out)@ == old(out)@ + enc_active_effects(*v),
{
    write_reverb(&v.reverb, out);
    write_echo(&v.echo, out);
    write_pitch(&v.pitch, out);
    write_gender(&v.gender, out);
    write_megaphone(&v.megaphone, out);
    write_robot(&v.robot, out);
    write_hard_tune(&v.hard_tune, out);
    assert(out@ =~= old(out)@ + enc_active_effects(*v));
}

pub fn read_active_effects(toks: &Vec<Token>, pos: &mut usize) -> (r: Option<ActiveEffects>)
    requires
        *old(pos) <= toks@.len(),
    ensures
        match dec_active_effects(toks@.skip(*old(pos) as int)) {
            Some(p) => {
                &&& r == Some(p.0)
                &&& *old(pos) <= *final(pos) <= toks@.len()
                &&& toks@.skip(*final(pos) as int) == p.1
            },
            None => r is None,
        },
{
    let reverb: Reverb = match read_reverb(toks, pos) {
        Some(x) => x,
        None => {
            return None;
        },
    };
    let echo: Echo = match read_echo(toks, pos) {
        Some(x) => x,
        None => {
            return None;
        },
    };
    let pitch: Pitch = match read_pitch(toks, pos) {
        Some(x) => x,
        None => {
            return None;
        },
    };
    let gender: Gender = match read_gender(toks, pos) {
        Some(x) => x,
        None => {
            return None;
        },
    };
    let megaphone: Megaphone = match read_megaphone(toks, pos) {
        Some(x) => x,
        None => {
            return None;
        },
    };
    let robot: Robot = match read_robot(toks, pos) {
        Some(x) => x,
        None => {
            return None;
        },
    };
    let hard_tune: HardTune = match read_hard_tune(toks, pos) {
        Some(x) => x,
        None => {
            return None;
        },
    };
    Some(ActiveEffects { reverb, echo, pitch, gender, megaphone, robot, hard_tune })
}

/// Preset bank, preset names, and the active effect parameters.
#[derive(Debug, Clone, PartialEq)]
pub struct Effects {
    pub active_preset: EffectBankPresets,
    pub preset_names: Vec<String>,
    pub current: ActiveEffects,
}

/// The mathematical model of an `Effects` value.
pub struct EffectsV {
    pub active_preset: EffectBankPresets,
    pub preset_names: Seq<String>,
    pub current: ActiveEffects,
}

impl View for Effects {
    type V = EffectsV;

    open spec fn view(&self) -> EffectsV {
        EffectsV {
            active_preset: self.active_preset,
            preset_names: self.preset_names@,
            current: self.current,
        }
    }
}

impl EffectsV {
    /// One name slot per preset of the bank enumeration.
    pub open spec fn wf(self) -> bool {
        self.preset_names.len() == EFFECT_PRESET_COUNT
    }
}

impl Effects {
    pub open spec fn wf(self) -> bool {
        self@.wf()
    }

    /// A defaulted effects engine: first preset active, unnamed presets,
    /// every effect at rest.
    pub fn defaulted() -> (r: Effects)
        ensures
            r.wf(),
            r@.active_preset == EffectBankPresets::Preset1,
            r@.current == ActiveEffects::neutral_spec(),
            forall|i: int| 0 <= i < EFFECT_PRESET_COUNT ==> (#[trigger] r@.preset_names[i])@
                == Seq::<char>::empty(),
    {
        let mut preset_names: Vec<String> = Vec::new();
        let mut k: usize = 0;
        while k < EFFECT_PRESET_COUNT
            invariant
                k <= EFFECT_PRESET_COUNT,
                preset_names@.len() == k,
                forall|i: int| 0 <= i < k ==> (#[trigger] preset_names@[i])@ == Seq::<
                    char,
                >::empty(),
            decreases EFFECT_PRESET_COUNT - k,
        {
            preset_names.push(String::new());
            k += 1;
        }
        Effects {
            active_preset: EffectBankPresets::Preset1,
            preset_names,
            current: ActiveEffects::neutral(),
        }
    }
}

pub open spec fn enc_effects(m: EffectsV) -> Seq<Token> {
    wire::enc_id(m.active_preset) + wire::enc_texts(m.preset_names) + enc_active_effects(m.current)
}

pub open spec fn dec_effects(s: Seq<Token>) -> Option<(EffectsV, Seq<Token>)> {
    match wire::dec_id::<EffectBankPresets>(s) {
        Some(p0) => match wire::dec_texts(p0.1, EFFECT_PRESET_COUNT as int) {
            Some(p1) => match dec_active_effects(p1.1) {
                Some(p2) => Some((
                    EffectsV { active_preset: p0.0, preset_names: p1.0, current: p2.0 },
                    p2.1,
                )),
                None => None,
            },
            None => None,
        },
        None => None,
    }
}

pub proof fn lemma_rt_effects(m: EffectsV, rest: Seq<Token>)
    requires
        m.wf(),
    ensures
        dec_effects(enc_effects(m) + rest) == Some((m, rest)),
{
    let t2 = enc_active_effects(m.current) + rest;
    let t1 = wire::enc_texts(m.preset_names) + t2;
    let t0 = wire::enc_id(m.active_preset) + t1;
    assert(enc_effects(m) + rest =~= t0);
    wire::lemma_rt_id(m.active_preset, t1);
    wire::lemma_rt_texts(m.preset_names, t2);
    lemma_rt_active_effects(m.current, rest);
}

pub fn write_effects(v: &Effects, out: &mut Vec<Token>)
    ensures
        final(out)@ == old(out)@ + enc_effects(v@),
{
    wire::write_id(v.active_preset, out);
    wire::write_texts(&v.preset_names, out);
    write_active_effects(&v.current, out);
    assert(out@ =~= old(out)@ + enc_effects(v@));
}

pub fn read_effects(toks: &Vec<Token>, pos: &mut usize) -> (r: Option<Effects>)
    requires
        *old(pos) <= toks@.len(),
    ensures
        match dec_effects(toks@.skip(*old(pos) as int)) {
            Some(p) => {
                &&& r matches Some(v) && v@ == p.0 && v.wf()
                &&& *old(pos) <= *final(pos) <= toks@.len()
                &&& toks@.skip(*final(pos) as int) == p.1
            },
            None => r is None,
        },
{
    let active_preset: EffectBankPresets = match wire::read_id(toks, pos) {
        Some(x) => x,
        None => {
            return None;
        },
    };
    let preset_names = match wire::read_texts(toks, pos, EFFECT_PRESET_COUNT) {
        Some(x) => x,
        None => {
            return None;
        },
    };
    let current = match read_active_effects(toks, pos) {
        Some(x) => x,
        None => {
            return None;
        },
    };
    Some(Effects { active_preset, preset_names, current })
}

pub open spec fn enc_opt_effects(v: Option<EffectsV>) -> Seq<Token> {
    match v {
        None => seq![Token::Absent],
        Some(x) => seq![Token::Present] + enc_effects(x),
    }
}

pub open spec fn dec_opt_effects(s: Seq<Token>) -> Option<(Option<EffectsV>, Seq<Token>)> {
    if s.len() >= 1 {
        match s[0] {
            Token::Absent => Some((None, s.skip(1))),
            Token::Present => match dec_effects(s.skip(1)) {
                Some(p) => Some((Some(p.0), p.1)),
                None => None,
            },
            _ => None,
        }
    } else {
        None
    }
}

pub proof fn lemma_rt_opt_effects(v: Option<EffectsV>, rest: Seq<Token>)
    requires
        v matches Some(x) ==> x.wf(),
    ensures
        dec_opt_effects(enc_opt_effects(v) + rest) == Some((v, rest)),
{
    match v {
        None => {
            assert((enc_opt_effects(v) + rest).skip(1) =~= rest);
        },
        Some(x) => {
            assert((enc_opt_effects(v) + rest).skip(1) =~= enc_effects(x) + rest);
            lemma_rt_effects(x, rest);
        },
    }
}

pub fn write_opt_effects(v: &Option<Effects>, out: &mut Vec<Token>)
    ensures
        final(out)@ == old(out)@ + enc_opt_effects(match *v { Some(x) => Some(x@), None => None::<EffectsV> }),
{
    match v {
        None => {
            out.push(Token::Absent);
            assert(out@ =~= old(out)@ + enc_opt_effects(match *v { Some(x) => Some(x@), None => None::<EffectsV> }));
        },
        Some(x) => {
            out.push(Token::Present);
            write_effects(x, out);
            assert(out@ =~= old(out)@ + enc_opt_effects(match *v { Some(x) => Some(x@), None => None::<EffectsV> }));
        },
    }
}

pub fn read_opt_effects(toks: &Vec<Token>, pos: &mut usize) -> (r: Option<Option<Effects>>)
    requires
        *old(pos) <= toks@.len(),
    ensures
        match dec_opt_effects(toks@.skip(*old(pos) as int)) {
            Some(p) => {
                &&& r matches Some(q) && (match q { Some(x) => p.0 matches Some(y) && x@ == y && x.wf(), None => p.0 is None })
                &&& *old(pos) <= *final(pos) <= toks@.len()
                &&& toks@.skip(*final(pos) as int) == p.1
            },
            None => r is None,
        },
{
    if *pos < toks.len() {
        let tag_is_absent: bool = match &toks[*pos] {
            Token::Absent => true,
            _ => false,
        };
        let tag_is_present: bool = match &toks[*pos] {
            Token::Present => true,
            _ => false,
        };
        if tag_is_absent {
            *pos += 1;
            assert(toks@.skip(*old(pos) as int).skip(1) =~= toks@.skip(*pos as int));
            Some(None)
        } else if tag_is_present {
            *pos += 1;
            assert(toks@.skip(*old(pos) as int).skip(1) =~= toks@.skip(*pos as int));
            match read_effects(toks, pos) {
                Some(x) => Some(Some(x)),
                None => None,
            }
        } else {
            None
        }
    } else {
        None
    }
}

} // verus!
