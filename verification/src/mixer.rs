//! One attached mixer's complete status: identity, faders, levels, the
//! microphone chain, lighting, routing, and the variant-gated effects and
//! sampler substructures.
//!
//! The status is a pure value tree with a single writer.  Every mutator
//! takes the whole tree by exclusive reference and re-establishes
//! well-formedness, so a snapshot taken between any two calls is always a
//! consistent state; the exclusive borrow is the serialization point for
//! concurrent readers.

use vstd::prelude::*;

use crate::effects::{
    dec_opt_effects, enc_opt_effects, lemma_rt_opt_effects, read_opt_effects, write_opt_effects,
    Effects, EffectsV,
};
use crate::ids::{
    ChannelName, DeviceType, EnumIndex, FaderName, InputDevice, MuteFunction, OutputDevice,
    SampleBank, SampleButtons, CHANNEL_COUNT, FADER_COUNT,
};
use crate::lighting::{
    dec_lighting, enc_lighting, lemma_rt_lighting, read_lighting, write_lighting, Lighting,
    LightingV,
};
use crate::mic::{
    dec_mic_settings, enc_mic_settings, lemma_rt_mic_settings, read_mic_settings,
    write_mic_settings, MicSettings, MicSettingsV,
};
use crate::router::{
    dec_router, enc_router, lemma_rt_router, read_router, write_router, Router, RouterV,
};
use crate::sampler::{
    bank_slot_spec, dec_opt_sampler, enc_opt_sampler, lemma_rt_opt_sampler, read_opt_sampler,
    write_opt_sampler, Sampler, SamplerButton, SamplerButtonV, SamplerV,
};
use crate::wire;
use crate::wire::Token;

verus! {

/// The failures this layer can signal.
#[derive(Debug, Clone, Copy, PartialEq, Eq, Structural)]
pub enum StatusError {
    /// A read or mutation of a substructure the device variant does not
    /// carry.
    UnsupportedCapability,
}

/// A firmware component version.
#[derive(Debug, Clone, PartialEq)]
pub struct VersionNumber {
    pub major: u32,
    pub minor: u32,
    pub patch: u32,
    pub build: u32,
}

/// The firmware versions an attached device reports.
#[derive(Debug, Clone, PartialEq)]
pub struct FirmwareVersions {
    pub firmware: VersionNumber,
    pub fpga_count: u32,
    pub dice: VersionNumber,
}

/// A semantic version triple from a USB descriptor.
#[derive(Debug, Clone, Copy, PartialEq, Eq, Structural)]
pub struct UsbVersion {
    pub major: u8,
    pub minor: u8,
    pub patch: u8,
}

/// The USB descriptor of an attached device.
#[derive(Debug, Clone, PartialEq)]
pub struct UsbProductInformation {
    pub manufacturer_name: String,
    pub product_name: String,
    pub version: UsbVersion,
    pub bus_number: u8,
    pub address: u8,
    pub identifier: Option<String>,
}

/// Hardware identity of an attached device.
#[derive(Debug, Clone, PartialEq)]
pub struct HardwareStatus {
    pub versions: FirmwareVersions,
    pub serial_number: String,
    pub manufactured_date: String,
    pub device_type: DeviceType,
    pub usb_device: UsbProductInformation,
}

/// A fader's display annotation.  All four fields are independently
/// optional or defaultable; a record with nothing set is the valid
/// "no annotation" state, and an absent file name means no image overlay
/// regardless of the text fields.
#[derive(Debug, Clone, PartialEq)]
pub struct Scribble {
    pub file_name: Option<String>,
    pub bottom_text: Option<String>,
    pub left_text: Option<String>,
    pub inverted: bool,
}

impl Default for Scribble {
    /// The "no annotation" record.
    fn default() -> (r: Scribble)
        ensures
            r == (Scribble {
                file_name: None::<String>,
                bottom_text: None::<String>,
                left_text: None::<String>,
                inverted: false,
            }),
    {
        Scribble { file_name: None, bottom_text: None, left_text: None, inverted: false }
    }
}

/// One physical fader slot: the channel it drives, its mute behaviour,
/// and an optional scribble annotation.
#[derive(Debug, Clone, PartialEq)]
pub struct FaderStatus {
    pub channel: ChannelName,
    pub mute_type: MuteFunction,
    pub scribble: Option<Scribble>,
}

impl Default for FaderStatus {
    fn default() -> (r: FaderStatus)
        ensures
            r == (FaderStatus {
                channel: ChannelName::Mic,
                mute_type: MuteFunction::All,
                scribble: None::<Scribble>,
            }),
    {
        FaderStatus { channel: ChannelName::Mic, mute_type: MuteFunction::All, scribble: None }
    }
}

/// The cough button's behaviour.
#[derive(Debug, Clone, Copy, PartialEq, Eq, Structural)]
pub struct CoughButton {
    pub is_toggle: bool,
    pub mute_type: MuteFunction,
}

/// Per-channel volumes plus the two device-wide level scalars.
#[derive(Debug, Clone, PartialEq)]
pub struct Levels {
    pub volumes: Vec<u8>,
    pub bleep: i8,
    pub deess: u8,
}

/// The mathematical model of a `Levels`.
pub struct LevelsV {
    pub volumes: Seq<u8>,
    pub bleep: i8,
    pub deess: u8,
}

impl View for Levels {
    type V = LevelsV;

    open spec fn view(&self) -> LevelsV {
        LevelsV { volumes: self.volumes@, bleep: self.bleep, deess: self.deess }
    }
}

impl LevelsV {
    /// One volume slot per channel of the channel enumeration.
    pub open spec fn wf(self) -> bool {
        self.volumes.len() == CHANNEL_COUNT
    }
}

impl Levels {
    pub open spec fn wf(self) -> bool {
        self@.wf()
    }
}

pub open spec fn enc_version_number(v: VersionNumber) -> Seq<Token> {
    wire::enc_u32(v.major) + wire::enc_u32(v.minor) + wire::enc_u32(v.patch) + wire::enc_u32(v.build)
}

pub open spec fn dec_version_number(s: Seq<Token>) -> Option<(VersionNumber, Seq<Token>)> {
    match wire::dec_u32(s) {
        Some(p0) => 
        match wire::dec_u32(p0.1) {
            Some(p1) => 
            match wire::dec_u32(p1.1) {
                Some(p2) => 
                match wire::dec_u32(p2.1) {
                    Some(p3) => 
                    Some((VersionNumber { major: p0.0, minor: p1.0, patch: p2.0, build: p3.0 }, p3.1)),
                    None => None,
                },
                None => None,
            },
            None => None,
        },
        None => None,
    }
}

pub proof fn lemma_rt_version_number(v: VersionNumber, rest: Seq<Token>)
    ensures
        dec_version_number(enc_version_number(v) + rest) == Some((v, rest)),
{
    let e0 = wire::enc_u32(v.major);
    let e1 = wire::enc_u32(v.minor);
    let e2 = wire::enc_u32(v.patch);
    let e3 = wire::enc_u32(v.build);
    let t4 = rest;
    let t3 = e3 + t4;
    let t2 = e2 + t3;
    let t1 = e1 + t2;
    let t0 = e0 + t1;
    wire::lemma_assoc(e0 + e1 + e2, e3, t4);
    wire::lemma_assoc(e0 + e1, e2, t3);
    wire::lemma_assoc(e0, e1, t2);
    assert(enc_version_number(v) + rest == t0);
    wire::lemma_rt_u32(v.major, t1);
    wire::lemma_rt_u32(v.minor, t2);
    wire::lemma_rt_u32(v.patch, t3);
    wire::lemma_rt_u32(v.build, t4);
}

pub fn write_version_number(v: &VersionNumber, out: &mut Vec<Token>)
    ensures
        final(out)@ == old(out)@ + enc_version_number(*v),
{
    wire::write_u32(v.major, out);
    wire::write_u32(v.minor, out);
    wire::write_u32(v.patch, out);
    wire::write_u32(v.build, out);
    assert(out@ =~= old(out)@ + enc_version_number(*v));
}

pub fn read_version_number(toks: &Vec<Token>, pos: &mut usize) -> (r: Option<VersionNumber>)
    requires
        *old(pos) <= toks@.len(),
    ensures
        match dec_version_number(toks@.skip(*old(pos) as int)) {
            Some(p) => {
                &&& r == Some(p.0)
                &&& *old(pos) <= *final(pos) <= toks@.len()
                &&& toks@.skip(*final(pos) as int) == p.1
            },
            None => r is None,
        },
{
    let major: u32 = match wire::read_u32(toks, pos) {
        Some(x) => x,
        None => {
            return None;
        },
    };
    let minor: u32 = match wire::read_u32(toks, pos) {
        Some(x) => x,
        None => {
            return None;
        },
    };
    let patch: u32 = match wire::read_u32(toks, pos) {
        Some(x) => x,
        None => {
            return None;
        },
    };
    let build: u32 = match wire::read_u32(toks, pos) {
        Some(x) => x,
        None => {
            return None;
        },
    };
    Some(VersionNumber { major, minor, patch, build })
}

pub open spec fn enc_firmware_versions(v: FirmwareVersions) -> Seq<Token> {
    enc_version_number(v.firmware) + wire::enc_u32(v.fpga_count) + enc_version_number(v.dice)
}

pub open spec fn dec_firmware_versions(s: Seq<Token>) -> Option<(FirmwareVersions, Seq<Token>)> {
    match dec_version_number(s) {
        Some(p0) => 
        match wire::dec_u32(p0.1) {
            Some(p1) => 
            match dec_version_number(p1.1) {
                Some(p2) => 
                Some((FirmwareVersions { firmware: p0.0, fpga_count: p1.0, dice: p2.0 }, p2.1)),
                None => None,
            },
            None => None,
        },
        None => None,
    }
}

pub proof fn lemma_rt_firmware_versions(v: FirmwareVersions, rest: Seq<Token>)
    ensures
        dec_firmware_versions(enc_firmware_versions(v) + rest) == Some((v, rest)),
{
    let e0 = enc_version_number(v.firmware);
    let e1 = wire::enc_u32(v.fpga_count);
    let e2 = enc_version_number(v.dice);
    let t3 = rest;
    let t2 = e2 + t3;
    let t1 = e1 + t2;
    let t0 = e0 + t1;
    wire::lemma_assoc(e0 + e1, e2, t3);
    wire::lemma_assoc(e0, e1, t2);
    assert(enc_firmware_versions(v) + rest == t0);
    lemma_rt_version_number(v.firmware, t1);
    wire::lemma_rt_u32(v.fpga_count, t2);
    lemma_rt_version_number(v.dice, t3);
}

pub fn write_firmware_versions(v: &FirmwareVersions, out: &mut Vec<Token>)
    ensures
        final(out)@ == old(out)@ + enc_firmware_versions(*v),
{
    write_version_number(&v.firmware, out);
    wire::write_u32(v.fpga_count, out);
    write_version_number(&v.dice, out);
    assert(out@ =~= old(out)@ + enc_firmware_versions(*v));
}

pub fn read_firmware_versions(toks: &Vec<Token>, pos: &mut usize) -> (r: Option<FirmwareVersions>)
    requires
        *old(pos) <= toks@.len(),
    ensures
        match dec_firmware_versions(toks@.skip(*old(pos) as int)) {
            Some(p) => {
                &&& r == Some(p.0)
                &&& *old(pos) <= *final(pos) <= toks@.len()
                &&& toks@.skip(*final(pos) as int) == p.1
            },
            None => r is None,
        },
{
    let firmware: VersionNumber = match read_version_number(toks, pos) {
        Some(x) => x,
        None => {
            return None;
        },
    };
    let fpga_count: u32 = match wire::read_u32(toks, pos) {
        Some(x) => x,
        None => {
            return None;
        },
    };
    let dice: VersionNumber = match read_version_number(toks, pos) {
        Some(x) => x,
        None => {
            return None;
        },
    };
    Some(FirmwareVersions { firmware, fpga_count, dice })
}

pub open spec fn enc_scribble(v: Scribble) -> Seq<Token> {
    wire::enc_opt_text(v.file_name) + wire::enc_opt_text(v.bottom_text) + wire::enc_opt_text(v.left_text) + wire::enc_bool(v.inverted)
}

pub open spec fn dec_scribble(s: Seq<Token>) -> Option<(Scribble, Seq<Token>)> {
    match wire::dec_opt_text(s) {
        Some(p0) => 
        match wire::dec_opt_text(p0.1) {
            Some(p1) => 
            match wire::dec_opt_text(p1.1) {
                Some(p2) => 
                match wire::dec_bool(p2.1) {
                    Some(p3) => 
                    Some((Scribble { file_name: p0.0, bottom_text: p1.0, left_text: p2.0, inverted: p3.0 }, p3.1)),
                    None => None,
                },
                None => None,
            },
            None => None,
        },
        None => None,
    }
}

pub proof fn lemma_rt_scribble(v: Scribble, rest: Seq<Token>)
    ensures
        dec_scribble(enc_scribble(v) + rest) == Some((v, rest)),
{
    let e0 = wire::enc_opt_text(v.file_name);
    let e1 = wire::enc_opt_text(v.bottom_text);
    let e2 = wire::enc_opt_text(v.left_text);
    let e3 = wire::enc_bool(v.inverted);
    let t4 = rest;
    let t3 = e3 + t4;
    let t2 = e2 + t3;
    let t1 = e1 + t2;
    let t0 = e0 + t1;
    wire::lemma_assoc(e0 + e1 + e2, e3, t4);
    wire::lemma_assoc(e0 + e1, e2, t3);
    wire::lemma_assoc(e0, e1, t2);
    assert(enc_scribble(v) + rest == t0);
    wire::lemma_rt_opt_text(v.file_name, t1);
    wire::lemma_rt_opt_text(v.bottom_text, t2);
    wire::lemma_rt_opt_text(v.left_text, t3);
    wire::lemma_rt_bool(v.inverted, t4);
}

pub fn write_scribble(v: &Scribble, out: &mut Vec<Token>)
    ensures
        final(out)@ == old(out)@ + enc_scribble(*v),
{
    wire::write_opt_text(&v.file_name, out);
    wire::write_opt_text(&v.bottom_text, out);
    wire::write_opt_text(&v.left_text, out);
    wire::write_bool(v.inverted, out);
    assert(out@ =~= old(out)@ + enc_scribble(*v));
}

pub fn read_scribble(toks: &Vec<Token>, pos: &mut usize) -> (r: Option<Scribble>)
    requires
        *old(pos) <= toks@.len(),
    ensures
        match dec_scribble(toks@.skip(*old(pos) as int)) {
            Some(p) => {
                &&& r == Some(p.0)
                &&& *old(pos) <= *final(pos) <= toks@.len()
                &&& toks@.skip(*final(pos) as int) == p.1
            },
            None => r is None,
        },
{
    let file_name: Option<String> = match wire::read_opt_text(toks, pos) {
        Some(x) => x,
        None => {
            return None;
        },
    };
    let bottom_text: Option<String> = match wire::read_opt_text(toks, pos) {
        Some(x) => x,
        None => {
            return None;
        },
    };
    let left_text: Option<String> = match wire::read_opt_text(toks, pos) {
        Some(x) => x,
        None => {
            return None;
        },
    };
    let inverted: bool = match wire::read_bool(toks, pos) {
        Some(x) => x,
        None => {
            return None;
        },
    };
    Some(Scribble { file_name, bottom_text, left_text, inverted })
}

pub open spec fn enc_opt_scribble(v: Option<Scribble>) -> Seq<Token> {
    match v {
        None => seq![Token::Absent],
        Some(x) => seq![Token::Present] + enc_scribble(x),
    }
}

pub open spec fn dec_opt_scribble(s: Seq<Token>) -> Option<(Option<Scribble>, Seq<Token>)> {
    if s.len() >= 1 {
        match s[0] {
            Token::Absent => Some((None, s.skip(1))),
            Token::Present => match dec_scribble(s.skip(1)) {
                Some(p) => Some((Some(p.0), p.1)),
                None => None,
            },
            _ => None,
        }
    } else {
        None
    }
}

pub proof fn lemma_rt_opt_scribble(v: Option<Scribble>, rest: Seq<Token>)
    ensures
        dec_opt_scribble(enc_opt_scribble(v) + rest) == Some((v, rest)),
{
    match v {
        None => {
            assert((enc_opt_scribble(v) + rest).skip(1) =~= rest);
        },
        Some(x) => {
            assert((enc_opt_scribble(v) + rest).skip(1) =~= enc_scribble(x) + rest);
            lemma_rt_scribble(x, rest);
        },
    }
}

pub fn write_opt_scribble(v: &Option<Scribble>, out: &mut Vec<Token>)
    ensures
        final(out)@ == old(out)@ + enc_opt_scribble(*v),
{
    match v {
        None => {
            out.push(Token::Absent);
            assert(out@ =~= old(out)@ + enc_opt_scribble(*v));
        },
        Some(x) => {
            out.push(Token::Present);
            write_scribble(x, out);
            assert(out@ =~= old(out)@ + enc_opt_scribble(*v));
        },
    }
}

pub fn read_opt_scribble(toks: &Vec<Token>, pos: &mut usize) -> (r: Option<Option<Scribble>>)
    requires
        *old(pos) <= toks@.len(),
    ensures
        match dec_opt_scribble(toks@.skip(*old(pos) as int)) {
            Some(p) => {
                &&& r == Some(p.0)
                &&& *old(pos) <= *final(pos) <= toks@.len()
                &&& toks@.skip(*final(pos) as int) == p.1
            },
            None => r is None,
        },
{
    if *pos < toks.len() {
        let tag_is_absent: bool = match &toks[*pos] {
            Token::Absent => true,
            _ => false,
        };
        let tag_is_present: bool = match &toks[*pos] {
            Token::Present => true,
            _ => false,
        };
        if tag_is_absent {
            *pos += 1;
            assert(toks@.skip(*old(pos) as int).skip(1) =~= toks@.skip(*pos as int));
            Some(None)
        } else if tag_is_present {
            *pos += 1;
            assert(toks@.skip(*old(pos) as int).skip(1) =~= toks@.skip(*pos as int));
            match read_scribble(toks, pos) {
                Some(x) => Some(Some(x)),
                None => None,
            }
        } else {
            None
        }
    } else {
        None
    }
}

pub open spec fn enc_fader_status(v: FaderStatus) -> Seq<Token> {
    wire::enc_id(v.channel) + wire::enc_id(v.mute_type) + enc_opt_scribble(v.scribble)
}

pub open spec fn dec_fader_status(s: Seq<Token>) -> Option<(FaderStatus, Seq<Token>)> {
    match wire::dec_id(s) {
        Some(p0) => 
        match wire::dec_id(p0.1) {
            Some(p1) => 
            match dec_opt_scribble(p1.1) {
                Some(p2) => 
                Some((FaderStatus { channel: p0.0, mute_type: p1.0, scribble: p2.0 }, p2.1)),
                None => None,
            },
            None => None,
        },
        None => None,
    }
}

pub proof fn lemma_rt_fader_status(v: FaderStatus, rest: Seq<Token>)
    ensures
        dec_fader_status(enc_fader_status(v) + rest) == Some((v, rest)),
{
    let e0 = wire::enc_id(v.channel);
    let e1 = wire::enc_id(v.mute_type);
    let e2 = enc_opt_scribble(v.scribble);
    let t3 = rest;
    let t2 = e2 + t3;
    let t1 = e1 + t2;
    let t0 = e0 + t1;
    wire::lemma_assoc(e0 + e1, e2, t3);
    wire::lemma_assoc(e0, e1, t2);
    assert(enc_fader_status(v) + rest == t0);
    wire::lemma_rt_id(v.channel, t1);
    wire::lemma_rt_id(v.mute_type, t2);
    lemma_rt_opt_scribble(v.scribble, t3);
}

pub fn write_fader_status(v: &FaderStatus, out: &mut Vec<Token>)
    ensures
        final(out)@ == old(out)@ + enc_fader_status(*v),
{
    wire::write_id(v.channel, out);
    wire::write_id(v.mute_type, out);
    write_opt_scribble(&v.scribble, out);
    assert(out@ =~= old(out)@ + enc_fader_status(*v));
}

pub fn read_fader_status(toks: &Vec<Token>, pos: &mut usize) -> (r: Option<FaderStatus>)
    requires
        *old(pos) <= toks@.len(),
    ensures
        match dec_fader_status(toks@.skip(*old(pos) as int)) {
            Some(p) => {
                &&& r == Some(p.0)
                &&& *old(pos) <= *final(pos) <= toks@.len()
                &&& toks@.skip(*final(pos) as int) == p.1
            },
            None => r is None,
        },
{
    let channel: ChannelName = match wire::read_id(toks, pos) {
        Some(x) => x,
        None => {
            return None;
        },
    };
    let mute_type: MuteFunction = match wire::read_id(toks, pos) {
        Some(x) => x,
        None => {
            return None;
        },
    };
    let scribble: Option<Scribble> = match read_opt_scribble(toks, pos) {
        Some(x) => x,
        None => {
            return None;
        },
    };
    Some(FaderStatus { channel, mute_type, scribble })
}

pub open spec fn enc_fader_statuses(s: Seq<FaderStatus>) -> Seq<Token>
    decreases s.len(),
{
    if s.len() == 0 {
        Seq::empty()
    } else {
        enc_fader_status(s[0]) + enc_fader_statuses(s.skip(1))
    }
}

pub open spec fn dec_fader_statuses(s: Seq<Token>, n: int) -> Option<(Seq<FaderStatus>, Seq<Token>)>
    decreases n,
{
    if n <= 0 {
        Some((Seq::empty(), s))
    } else {
        match dec_fader_status(s) {
            Some(p) => match dec_fader_statuses(p.1, n - 1) {
                Some(q) => Some((seq![p.0] + q.0, q.1)),
                None => None,
            },
            None => None,
        }
    }
}

pub proof fn lemma_rt_fader_statuses(s: Seq<FaderStatus>, rest: Seq<Token>)
    ensures
        dec_fader_statuses(enc_fader_statuses(s) + rest, s.len() as int) == Some((s, rest)),
    decreases s.len(),
{
    if s.len() == 0 {
        assert(enc_fader_statuses(s) + rest =~= rest);
    } else {
        let tail = s.skip(1);
        assert(enc_fader_statuses(s) + rest =~= enc_fader_status(s[0]) + (enc_fader_statuses(tail) + rest));
        lemma_rt_fader_status(s[0], enc_fader_statuses(tail) + rest);
        lemma_rt_fader_statuses(tail, rest);
        assert(seq![s[0]] + tail =~= s);
    }
}

pub fn write_fader_statuses(v: &Vec<FaderStatus>, out: &mut Vec<Token>)
    ensures
        final(out)@ == old(out)@ + enc_fader_statuses(v@),
{
    let ghost base = out@;
    let ghost m = v@;
    let mut k: usize = 0;
    proof {
        assert(m.skip(0) =~= m);
    }
    while k < v.len()
        invariant
            k <= v@.len(),
            m == v@,
            m.len() == v@.len(),
            out@ + enc_fader_statuses(m.skip(k as int)) == base + enc_fader_statuses(m),
        decreases v@.len() - k,
    {
        let ghost out0 = out@;
        write_fader_status(&v[k], out);
        proof {
            assert(m.skip(k as int).skip(1) =~= m.skip(k as int + 1));
            assert(m.skip(k as int)[0] == m[k as int]);
            assert(out0 + enc_fader_status(m[k as int]) + enc_fader_statuses(m.skip(k as int + 1)) =~= out0 + (enc_fader_status(m[k as int]) + enc_fader_statuses(m.skip(k as int + 1))));
        }
        k += 1;
    }
    proof {
        assert(enc_fader_statuses(m.skip(v@.len() as int)) =~= Seq::empty());
        assert(out@ + Seq::<Token>::empty() =~= out@);
    }
}

#[verifier::loop_isolation(false)]
pub fn read_fader_statuses(toks: &Vec<Token>, pos: &mut usize, n: usize) -> (r: Option<Vec<FaderStatus>>)
    requires
        *old(pos) <= toks@.len(),
    ensures
        match dec_fader_statuses(toks@.skip(*old(pos) as int), n as int) {
            Some(p) => {
                &&& r matches Some(v) && v@ == p.0
                &&& p.0.len() == n
                &&& *old(pos) <= *final(pos) <= toks@.len()
                &&& toks@.skip(*final(pos) as int) == p.1
            },
            None => r is None,
        },
{
    let ghost p0 = *pos as int;
    let mut acc: Vec<FaderStatus> = Vec::new();
    let mut k: usize = 0;
    while k < n
        invariant
            k <= n,
            p0 <= *pos as int,
            *pos <= toks@.len(),
            acc@.len() == k,
            dec_fader_statuses(toks@.skip(p0), n as int) == (match dec_fader_statuses(
                toks@.skip(*pos as int),
                n as int - k as int,
            ) {
                Some(q) => Some::<(Seq<FaderStatus>, Seq<Token>)>((acc@ + q.0, q.1)),
                None => None::<(Seq<FaderStatus>, Seq<Token>)>,
            }),
        decreases n - k,
    {
        let ghost before = toks@.skip(*pos as int);
        match read_fader_status(toks, pos) {
            Some(x) => {
                proof {
                    if dec_fader_statuses(before, n as int - k as int) matches Some(q) {
                        let qq = dec_fader_statuses(toks@.skip(*pos as int), n as int - k as int - 1);
                        assert(acc@ + (seq![x] + qq->Some_0.0) =~= acc@.push(x) + qq->Some_0.0);
                    }
                    assert(acc@.push(x) =~= acc@.push(x));
                }
                acc.push(x);
                k += 1;
            },
            None => {
                return None;
            },
        }
    }
    proof {
        assert(dec_fader_statuses(toks@.skip(*pos as int), 0) == Some::<(Seq<FaderStatus>, Seq<Token>)>((
            Seq::empty(),
            toks@.skip(*pos as int),
        )));
        assert(acc@ + Seq::<FaderStatus>::empty() =~= acc@);
    }
    Some(acc)
}

pub open spec fn enc_cough_button(v: CoughButton) -> Seq<Token> {
    wire::enc_bool(v.is_toggle) + wire::enc_id(v.mute_type)
}

pub open spec fn dec_cough_button(s: Seq<Token>) -> Option<(CoughButton, Seq<Token>)> {
    match wire::dec_bool(s) {
        Some(p0) => 
        match wire::dec_id(p0.1) {
            Some(p1) => 
            Some((CoughButton { is_toggle: p0.0, mute_type: p1.0 }, p1.1)),
            None => None,
        },
        None => None,
    }
}

pub proof fn lemma_rt_cough_button(v: CoughButton, rest: Seq<Token>)
    ensures
        dec_cough_button(enc_cough_button(v) + rest) == Some((v, rest)),
{
    let e0 = wire::enc_bool(v.is_toggle);
    let e1 = wire::enc_id(v.mute_type);
    let t2 = rest;
    let t1 = e1 + t2;
    let t0 = e0 + t1;
    wire::lemma_assoc(e0, e1, t2);
    assert(enc_cough_button(v) + rest == t0);
    wire::lemma_rt_bool(v.is_toggle, t1);
    wire::lemma_rt_id(v.mute_type, t2);
}

pub fn write_cough_button(v: &CoughButton, out: &mut Vec<Token>)
    ensures
        final(out)@ == old(out)@ + enc_cough_button(*v),
{
    wire::write_bool(v.is_toggle, out);
    wire::write_id(v.mute_type, out);
    assert(out@ =~= old(out)@ + enc_cough_button(*v));
}

pub fn read_cough_button(toks: &Vec<Token>, pos: &mut usize) -> (r: Option<CoughButton>)
    requires
        *old(pos) <= toks@.len(),
    ensures
        match dec_cough_button(toks@.skip(*old(pos) as int)) {
            Some(p) => {
                &&& r == Some(p.0)
                &&& *old(pos) <= *final(pos) <= toks@.len()
                &&& toks@.skip(*final(pos) as int) == p.1
            },
            None => r is None,
        },
{
    let is_toggle: bool = match wire::read_bool(toks, pos) {
        Some(x) => x,
        None => {
            return None;
        },
    };
    let mute_type: MuteFunction = match wire::read_id(toks, pos) {
        Some(x) => x,
        None => {
            return None;
        },
    };
    Some(CoughButton { is_toggle, mute_type })
}

pub open spec fn enc_usb_product_information(v: UsbProductInformation) -> Seq<Token> {
    wire::enc_text(v.manufacturer_name) + wire::enc_text(v.product_name) + wire::enc_u8(v.version.major)
        + wire::enc_u8(v.version.minor) + wire::enc_u8(v.version.patch) + wire::enc_u8(v.bus_number)
        + wire::enc_u8(v.address) + wire::enc_opt_text(v.identifier)
}

pub open spec fn dec_usb_product_information(s: Seq<Token>) -> Option<
    (UsbProductInformation, Seq<Token>),
> {
    match wire::dec_text(s) {
        Some(p0) => match wire::dec_text(p0.1) {
            Some(p1) => match wire::dec_u8(p1.1) {
                Some(p2) => match wire::dec_u8(p2.1) {
                    Some(p3) => match wire::dec_u8(p3.1) {
                        Some(p4) => match wire::dec_u8(p4.1) {
                            Some(p5) => match wire::dec_u8(p5.1) {
                                Some(p6) => match wire::dec_opt_text(p6.1) {
                                    Some(p7) => Some((
                                        UsbProductInformation {
                                            manufacturer_name: p0.0,
                                            product_name: p1.0,
                                            version: UsbVersion { major: p2.0, minor: p3.0, patch: p4.0 },
                                            bus_number: p5.0,
                                            address: p6.0,
                                            identifier: p7.0,
                                        },
                                        p7.1,
                                    )),
                                    None => None,
                                },
                                None => None,
                            },
                            None => None,
                        },
                        None => None,
                    },
                    None => None,
                },
                None => None,
            },
            None => None,
        },
        None => None,
    }
}

pub proof fn lemma_rt_usb_product_information(v: UsbProductInformation, rest: Seq<Token>)
    ensures
        dec_usb_product_information(enc_usb_product_information(v) + rest) == Some((v, rest)),
{
    let e0 = wire::enc_text(v.manufacturer_name);
    let e1 = wire::enc_text(v.product_name);
    let e2 = wire::enc_u8(v.version.major);
    let e3 = wire::enc_u8(v.version.minor);
    let e4 = wire::enc_u8(v.version.patch);
    let e5 = wire::enc_u8(v.bus_number);
    let e6 = wire::enc_u8(v.address);
    let e7 = wire::enc_opt_text(v.identifier);
    let t8 = rest;
    let t7 = e7 + t8;
    let t6 = e6 + t7;
    let t5 = e5 + t6;
    let t4 = e4 + t5;
    let t3 = e3 + t4;
    let t2 = e2 + t3;
    let t1 = e1 + t2;
    let t0 = e0 + t1;
    wire::lemma_assoc(e0 + e1 + e2 + e3 + e4 + e5 + e6, e7, t8);
    wire::lemma_assoc(e0 + e1 + e2 + e3 + e4 + e5, e6, t7);
    wire::lemma_assoc(e0 + e1 + e2 + e3 + e4, e5, t6);
    wire::lemma_assoc(e0 + e1 + e2 + e3, e4, t5);
    wire::lemma_assoc(e0 + e1 + e2, e3, t4);
    wire::lemma_assoc(e0 + e1, e2, t3);
    wire::lemma_assoc(e0, e1, t2);
    assert(enc_usb_product_information(v) + rest == t0);
    wire::lemma_rt_text(v.manufacturer_name, t1);
    wire::lemma_rt_text(v.product_name, t2);
    wire::lemma_rt_u8(v.version.major, t3);
    wire::lemma_rt_u8(v.version.minor, t4);
    wire::lemma_rt_u8(v.version.patch, t5);
    wire::lemma_rt_u8(v.bus_number, t6);
    wire::lemma_rt_u8(v.address, t7);
    wire::lemma_rt_opt_text(v.identifier, t8);
    assert(dec_usb_product_information(t0) matches Some(p) && p.0 == v && p.1 == rest);
}

pub fn write_usb_product_information(v: &UsbProductInformation, out: &mut Vec<Token>)
    ensures
        final(out)@ == old(out)@ + enc_usb_product_information(*v),
{
    wire::write_text(&v.manufacturer_name, out);
    wire::write_text(&v.product_name, out);
    wire::write_u8(v.version.major, out);
    wire::write_u8(v.version.minor, out);
    wire::write_u8(v.version.patch, out);
    wire::write_u8(v.bus_number, out);
    wire::write_u8(v.address, out);
    wire::write_opt_text(&v.identifier, out);
    assert(out@ =~= old(out)@ + enc_usb_product_information(*v));
}

pub fn read_usb_product_information(toks: &Vec<Token>, pos: &mut usize) -> (r: Option<
    UsbProductInformation,
>)
    requires
        *old(pos) <= toks@.len(),
    ensures
        match dec_usb_product_information(toks@.skip(*old(pos) as int)) {
            Some(p) => {
                &&& r == Some(p.0)
                &&& *old(pos) <= *final(pos) <= toks@.len()
                &&& toks@.skip(*final(pos) as int) == p.1
            },
            None => r is None,
        },
{
    let manufacturer_name = match wire::read_text(toks, pos) {
        Some(x) => x,
        None => {
            return None;
        },
    };
    let product_name = match wire::read_text(toks, pos) {
        Some(x) => x,
        None => {
            return None;
        },
    };
    let v0 = match wire::read_u8(toks, pos) {
        Some(x) => x,
        None => {
            return None;
        },
    };
    let v1 = match wire::read_u8(toks, pos) {
        Some(x) => x,
        None => {
            return None;
        },
    };
    let v2 = match wire::read_u8(toks, pos) {
        Some(x) => x,
        None => {
            return None;
        },
    };
    let bus_number = match wire::read_u8(toks, pos) {
        Some(x) => x,
        None => {
            return None;
        },
    };
    let address = match wire::read_u8(toks, pos) {
        Some(x) => x,
        None => {
            return None;
        },
    };
    let identifier = match wire::read_opt_text(toks, pos) {
        Some(x) => x,
        None => {
            return None;
        },
    };
    Some(
        UsbProductInformation {
            manufacturer_name,
            product_name,
            version: UsbVersion { major: v0, minor: v1, patch: v2 },
            bus_number,
            address,
            identifier,
        },
    )
}

pub open spec fn enc_hardware_status(v: HardwareStatus) -> Seq<Token> {
    enc_firmware_versions(v.versions) + wire::enc_text(v.serial_number) + wire::enc_text(v.manufactured_date) + wire::enc_id(v.device_type) + enc_usb_product_information(v.usb_device)
}

pub open spec fn dec_hardware_status(s: Seq<Token>) -> Option<(HardwareStatus, Seq<Token>)> {
    match dec_firmware_versions(s) {
        Some(p0) => 
        match wire::dec_text(p0.1) {
            Some(p1) => 
            match wire::dec_text(p1.1) {
                Some(p2) => 
                match wire::dec_id(p2.1) {
                    Some(p3) => 
                    match dec_usb_product_information(p3.1) {
                        Some(p4) => 
                        Some((HardwareStatus { versions: p0.0, serial_number: p1.0, manufactured_date: p2.0, device_type: p3.0, usb_device: p4.0 }, p4.1)),
                        None => None,
                    },
                    None => None,
                },
                None => None,
            },
            None => None,
        },
        None => None,
    }
}

pub proof fn lemma_rt_hardware_status(v: HardwareStatus, rest: Seq<Token>)
    ensures
        dec_hardware_status(enc_hardware_status(v) + rest) == Some((v, rest)),
{
    let e0 = enc_firmware_versions(v.versions);
    let e1 = wire::enc_text(v.serial_number);
    let e2 = wire::enc_text(v.manufactured_date);
    let e3 = wire::enc_id(v.device_type);
    let e4 = enc_usb_product_information(v.usb_device);
    let t5 = rest;
    let t4 = e4 + t5;
    let t3 = e3 + t4;
    let t2 = e2 + t3;
    let t1 = e1 + t2;
    let t0 = e0 + t1;
    wire::lemma_assoc(e0 + e1 + e2 + e3, e4, t5);
    wire::lemma_assoc(e0 + e1 + e2, e3, t4);
    wire::lemma_assoc(e0 + e1, e2, t3);
    wire::lemma_assoc(e0, e1, t2);
    assert(enc_hardware_status(v) + rest == t0);
    lemma_rt_firmware_versions(v.versions, t1);
    wire::lemma_rt_text(v.serial_number, t2);
    wire::lemma_rt_text(v.manufactured_date, t3);
    wire::lemma_rt_id(v.device_type, t4);
    lemma_rt_usb_product_information(v.usb_device, t5);
}

pub fn write_hardware_status(v: &HardwareStatus, out: &mut Vec<Token>)
    ensures
        final(out)@ == old(out)@ + enc_hardware_status(*v),
{
    write_firmware_versions(&v.versions, out);
    wire::write_text(&v.serial_number, out);
    wire::write_text(&v.manufactured_date, out);
    wire::write_id(v.device_type, out);
    write_usb_product_information(&v.usb_device, out);
    assert(out@ =~= old(out)@ + enc_hardware_status(*v));
}

pub fn read_hardware_status(toks: &Vec<Token>, pos: &mut usize) -> (r: Option<HardwareStatus>)
    requires
        *old(pos) <= toks@.len(),
    ensures
        match dec_hardware_status(toks@.skip(*old(pos) as int)) {
            Some(p) => {
                &&& r == Some(p.0)
                &&& *old(pos) <= *final(pos) <= toks@.len()
                &&& toks@.skip(*final(pos) as int) == p.1
            },
            None => r is None,
        },
{
    let versions: FirmwareVersions = match read_firmware_versions(toks, pos) {
        Some(x) => x,
        None => {
            return None;
        },
    };
    let serial_number: String = match wire::read_text(toks, pos) {
        Some(x) => x,
        None => {
            return None;
        },
    };
    let manufactured_date: String = match wire::read_text(toks, pos) {
        Some(x) => x,
        None => {
            return None;
        },
    };
    let device_type: DeviceType = match wire::read_id(toks, pos) {
        Some(x) => x,
        None => {
            return None;
        },
    };
    let usb_device: UsbProductInformation = match read_usb_product_information(toks, pos) {
        Some(x) => x,
        None => {
            return None;
        },
    };
    Some(HardwareStatus { versions, serial_number, manufactured_date, device_type, usb_device })
}

pub open spec fn enc_levels(m: LevelsV) -> Seq<Token> {
    wire::enc_u8s(m.volumes) + wire::enc_i8(m.bleep) + wire::enc_u8(m.deess)
}

pub open spec fn dec_levels(s: Seq<Token>) -> Option<(LevelsV, Seq<Token>)> {
    match wire::dec_u8s(s, CHANNEL_COUNT as int) {
        Some(p0) => match wire::dec_i8(p0.1) {
            Some(p1) => match wire::dec_u8(p1.1) {
                Some(p2) => Some((LevelsV { volumes: p0.0, bleep: p1.0, deess: p2.0 }, p2.1)),
                None => None,
            },
            None => None,
        },
        None => None,
    }
}

pub proof fn lemma_rt_levels(m: LevelsV, rest: Seq<Token>)
    requires
        m.wf(),
    ensures
        dec_levels(enc_levels(m) + rest) == Some((m, rest)),
{
    let e0 = wire::enc_u8s(m.volumes);
    let e1 = wire::enc_i8(m.bleep);
    let e2 = wire::enc_u8(m.deess);
    let t3 = rest;
    let t2 = e2 + t3;
    let t1 = e1 + t2;
    let t0 = e0 + t1;
    wire::lemma_assoc(e0 + e1, e2, t3);
    wire::lemma_assoc(e0, e1, t2);
    assert(enc_levels(m) + rest == t0);
    wire::lemma_rt_u8s(m.volumes, t1);
    wire::lemma_rt_i8(m.bleep, t2);
    wire::lemma_rt_u8(m.deess, t3);
}

pub fn write_levels(v: &Levels, out: &mut Vec<Token>)
    ensures
        final(out)@ == old(out)@ + enc_levels(v@),
{
    wire::write_u8s(&v.volumes, out);
    wire::write_i8(v.bleep, out);
    wire::write_u8(v.deess, out);
    assert(out@ =~= old(out)@ + enc_levels(v@));
}

pub fn read_levels(toks: &Vec<Token>, pos: &mut usize) -> (r: Option<Levels>)
    requires
        *old(pos) <= toks@.len(),
    ensures
        match dec_levels(toks@.skip(*old(pos) as int)) {
            Some(p) => {
                &&& r matches Some(v) && v@ == p.0 && v.wf()
                &&& *old(pos) <= *final(pos) <= toks@.len()
                &&& toks@.skip(*final(pos) as int) == p.1
            },
            None => r is None,
        },
{
    let volumes = match wire::read_u8s(toks, pos, CHANNEL_COUNT) {
        Some(x) => x,
        None => {
            return None;
        },
    };
    let bleep = match wire::read_i8(toks, pos) {
        Some(x) => x,
        None => {
            return None;
        },
    };
    let deess = match wire::read_u8(toks, pos) {
        Some(x) => x,
        None => {
            return None;
        },
    };
    Some(Levels { volumes, bleep, deess })
}


/// The complete status of one attached mixer.
#[derive(Debug, Clone, PartialEq)]
pub struct MixerStatus {
    pub hardware: HardwareStatus,
    pub fader_status: Vec<FaderStatus>,
    pub mic_status: MicSettings,
    pub levels: Levels,
    pub router: Router,
    pub cough_button: CoughButton,
    pub lighting: Lighting,
    pub effects: Option<Effects>,
    pub sampler: Option<Sampler>,
    pub profile_name: String,
    pub mic_profile_name: String,
}

/// The mathematical model of a `MixerStatus`.
pub struct MixerStatusV {
    pub hardware: HardwareStatus,
    pub fader_status: Seq<FaderStatus>,
    pub mic_status: MicSettingsV,
    pub levels: LevelsV,
    pub router: RouterV,
    pub cough_button: CoughButton,
    pub lighting: LightingV,
    pub effects: Option<EffectsV>,
    pub sampler: Option<SamplerV>,
    pub profile_name: String,
    pub mic_profile_name: String,
}

impl View for MixerStatus {
    type V = MixerStatusV;

    open spec fn view(&self) -> MixerStatusV {
        MixerStatusV {
            hardware: self.hardware,
            fader_status: self.fader_status@,
            mic_status: self.mic_status@,
            levels: self.levels@,
            router: self.router@,
            cough_button: self.cough_button,
            lighting: self.lighting@,
            effects: match self.effects {
                Some(e) => Some(e@),
                None => None,
            },
            sampler: match self.sampler {
                Some(s) => Some(s@),
                None => None,
            },
            profile_name: self.profile_name,
            mic_profile_name: self.mic_profile_name,
        }
    }
}

impl MixerStatusV {
    /// Every fixed table has its enumeration's cardinality, the routing
    /// representations agree, and each variant-gated substructure is
    /// present exactly when the device variant carries the capability.
    pub open spec fn wf(self) -> bool {
        &&& self.fader_status.len() == FADER_COUNT
        &&& self.mic_status.wf()
        &&& self.levels.wf()
        &&& self.router.wf()
        &&& self.lighting.wf()
        &&& (self.effects is Some) == self.hardware.device_type.spec_has_effects()
        &&& (self.effects matches Some(e) ==> e.wf())
        &&& (self.sampler is Some) == self.hardware.device_type.spec_has_sampler()
        &&& (self.sampler matches Some(s) ==> s.wf())
    }
}

impl MixerStatus {
    pub open spec fn wf(self) -> bool {
        self@.wf()
    }

    /// The status of a freshly attached device: identity as reported,
    /// every other field defaulted for the device's variant, and the
    /// variant-gated substructures present exactly when the variant
    /// carries them.
    pub fn new(hardware: HardwareStatus) -> (r: MixerStatus)
        ensures
            r.wf(),
            r@.hardware == hardware,
            r@.effects is Some <==> hardware.device_type.spec_has_effects(),
            r@.sampler is Some <==> hardware.device_type.spec_has_sampler(),
            forall|c: int| 0 <= c < CHANNEL_COUNT ==> r@.levels.volumes[c] == 0,
            forall|i: InputDevice, o: OutputDevice| !(#[trigger] r@.router.routed(i, o)),
            forall|f: int|
                0 <= f < FADER_COUNT ==> (#[trigger] r@.fader_status[f]) == (FaderStatus {
                    channel: ChannelName::Mic,
                    mute_type: MuteFunction::All,
                    scribble: None::<Scribble>,
                }),
            r@.profile_name@ == Seq::<char>::empty(),
            r@.mic_profile_name@ == Seq::<char>::empty(),
    {
        let mut fader_status: Vec<FaderStatus> = Vec::new();
        let mut f: usize = 0;
        while f < FADER_COUNT
            invariant
                f <= FADER_COUNT,
                fader_status@.len() == f,
                forall|k: int|
                    0 <= k < f ==> (#[trigger] fader_status@[k]) == (FaderStatus {
                        channel: ChannelName::Mic,
                        mute_type: MuteFunction::All,
                        scribble: None::<Scribble>,
                    }),
            decreases FADER_COUNT - f,
        {
            fader_status.push(FaderStatus::default());
            f += 1;
        }
        let effects: Option<Effects> = if hardware.device_type.has_effects() {
            Some(Effects::defaulted())
        } else {
            None
        };
        let sampler: Option<Sampler> = if hardware.device_type.has_sampler() {
            Some(crate::sampler::Sampler::unassigned())
        } else {
            None
        };
        MixerStatus {
            hardware,
            fader_status,
            mic_status: MicSettings::defaulted(),
            levels: Levels {
                volumes: crate::util::vec_of_u8(CHANNEL_COUNT, 0),
                bleep: 0,
                deess: 0,
            },
            router: Router::new(),
            cough_button: CoughButton { is_toggle: false, mute_type: MuteFunction::All },
            lighting: Lighting::unconfigured(),
            effects,
            sampler,
            profile_name: String::new(),
            mic_profile_name: String::new(),
        }
    }

    /// The fader slot assigned to a physical fader.  Total: every fader
    /// identifier addresses exactly one slot.
    pub fn get_fader_status(&self, fader: FaderName) -> (r: &FaderStatus)
        requires
            self.wf(),
        ensures
            *r == self@.fader_status[fader.index_spec()],
    {
        proof {
            fader.lemma_index_roundtrip();
        }
        let i = fader.index();
        &self.fader_status[i]
    }

    /// One channel's volume.  Total: every channel identifier addresses
    /// exactly one slot.
    pub fn get_channel_volume(&self, channel: ChannelName) -> (r: u8)
        requires
            self.wf(),
        ensures
            r == self@.levels.volumes[channel.index_spec()],
    {
        proof {
            channel.lemma_index_roundtrip();
        }
        let i = channel.index();
        self.levels.volumes[i]
    }

    /// Set one channel's volume; every other field of the status is
    /// untouched.
    pub fn set_channel_volume(&mut self, channel: ChannelName, volume: u8)
        requires
            old(self).wf(),
        ensures
            final(self).wf(),
            final(self)@.levels.volumes == old(self)@.levels.volumes.update(
                channel.index_spec(),
                volume,
            ),
            final(self)@.levels.bleep == old(self)@.levels.bleep,
            final(self)@.levels.deess == old(self)@.levels.deess,
            final(self).hardware == old(self).hardware,
            final(self).fader_status == old(self).fader_status,
            final(self).mic_status == old(self).mic_status,
            final(self).router == old(self).router,
            final(self).cough_button == old(self).cough_button,
            final(self).lighting == old(self).lighting,
            final(self).effects == old(self).effects,
            final(self).sampler == old(self).sampler,
            final(self).profile_name == old(self).profile_name,
            final(self).mic_profile_name == old(self).mic_profile_name,
    {
        proof {
            channel.lemma_index_roundtrip();
        }
        let i = channel.index();
        self.levels.volumes[i] = volume;
    }

    /// Set or clear one routing edge, in both representations at once;
    /// every other field of the status is untouched.
    pub fn route(&mut self, input: InputDevice, output: OutputDevice, enabled: bool)
        requires
            old(self).wf(),
        ensures
            final(self).wf(),
            forall|i: InputDevice, o: OutputDevice| #[trigger]
                final(self)@.router.routed(i, o) == (if i == input && o == output {
                    enabled
                } else {
                    old(self)@.router.routed(i, o)
                }),
            final(self).hardware == old(self).hardware,
            final(self).fader_status == old(self).fader_status,
            final(self).mic_status == old(self).mic_status,
            final(self).levels == old(self).levels,
            final(self).cough_button == old(self).cough_button,
            final(self).lighting == old(self).lighting,
            final(self).effects == old(self).effects,
            final(self).sampler == old(self).sampler,
            final(self).profile_name == old(self).profile_name,
            final(self).mic_profile_name == old(self).mic_profile_name,
    {
        self.router.route(input, output, enabled);
    }

    /// A routing change and a volume change applied as one update.  A
    /// reader holding a snapshot taken before this call sees neither
    /// change; one taken after sees both: the exclusive borrow admits no
    /// point between them.
    pub fn route_and_set_volume(
        &mut self,
        input: InputDevice,
        output: OutputDevice,
        enabled: bool,
        channel: ChannelName,
        volume: u8,
    )
        requires
            old(self).wf(),
        ensures
            final(self).wf(),
            forall|i: InputDevice, o: OutputDevice| #[trigger]
                final(self)@.router.routed(i, o) == (if i == input && o == output {
                    enabled
                } else {
                    old(self)@.router.routed(i, o)
                }),
            final(self)@.levels.volumes == old(self)@.levels.volumes.update(
                channel.index_spec(),
                volume,
            ),
    {
        self.router.route(input, output, enabled);
        self.set_channel_volume(channel, volume);
    }

    /// The effects substructure, or the capability error on a variant
    /// that does not carry one.
    pub fn get_effects(&self) -> (r: Result<&Effects, StatusError>)
        requires
            self.wf(),
        ensures
            self.hardware.device_type.spec_has_effects() ==> (r matches Ok(e) && Some(e@)
                == self@.effects),
            !self.hardware.device_type.spec_has_effects() ==> r == Err::<
                &Effects,
                StatusError,
            >(StatusError::UnsupportedCapability),
    {
        match &self.effects {
            Some(e) => Ok(e),
            None => Err(StatusError::UnsupportedCapability),
        }
    }

    /// The sampler substructure, or the capability error on a variant
    /// that does not carry one.
    pub fn get_sampler(&self) -> (r: Result<&Sampler, StatusError>)
        requires
            self.wf(),
        ensures
            self.hardware.device_type.spec_has_sampler() ==> (r matches Ok(s) && Some(s@)
                == self@.sampler),
            !self.hardware.device_type.spec_has_sampler() ==> r == Err::<
                &Sampler,
                StatusError,
            >(StatusError::UnsupportedCapability),
    {
        match &self.sampler {
            Some(s) => Ok(s),
            None => Err(StatusError::UnsupportedCapability),
        }
    }

    /// Select the active effect preset bank.  On a variant without an
    /// effects engine this signals the capability error and changes
    /// nothing.
    pub fn set_active_effect_preset(&mut self, preset: crate::ids::EffectBankPresets) -> (r:
        Result<(), StatusError>)
        requires
            old(self).wf(),
        ensures
            final(self).wf(),
            old(self).hardware.device_type.spec_has_effects() ==> {
                &&& r is Ok
                &&& final(self)@.effects matches Some(e) && old(self)@.effects matches Some(oe)
                    && e.active_preset == preset && e.preset_names == oe.preset_names && e.current
                    == oe.current
                &&& final(self).levels == old(self).levels
                &&& final(self).hardware == old(self).hardware
                &&& final(self).router == old(self).router
            },
            !old(self).hardware.device_type.spec_has_effects() ==> r == Err::<
                (),
                StatusError,
            >(StatusError::UnsupportedCapability) && *final(self) == *old(self),
    {
        let taken = self.effects.take();
        match taken {
            Some(mut e) => {
                e.active_preset = preset;
                self.effects = Some(e);
                Ok(())
            },
            None => {
                self.effects = None;
                proof {
                    assert(*final(self) == *old(self));
                }
                Err(StatusError::UnsupportedCapability)
            },
        }
    }

    /// Assign or clear one sampler button.  On a variant without a
    /// sampler this signals the capability error and changes nothing.
    pub fn set_sampler_button(
        &mut self,
        bank: SampleBank,
        button: SampleButtons,
        value: Option<SamplerButton>,
    ) -> (r: Result<(), StatusError>)
        requires
            old(self).wf(),
            value matches Some(b) ==> b.wf(),
        ensures
            final(self).wf(),
            old(self).hardware.device_type.spec_has_sampler() ==> {
                &&& r is Ok
                &&& final(self)@.sampler matches Some(s) && old(self)@.sampler matches Some(os)
                    && s.banks == os.banks.update(
                    bank_slot_spec(bank, button),
                    match value {
                        Some(b) => Some(b@),
                        None => None::<SamplerButtonV>,
                    },
                )
            },
            !old(self).hardware.device_type.spec_has_sampler() ==> r == Err::<
                (),
                StatusError,
            >(StatusError::UnsupportedCapability) && *final(self) == *old(self),
    {
        let taken = self.sampler.take();
        match taken {
            Some(mut s) => {
                s.set_button(bank, button, value);
                self.sampler = Some(s);
                Ok(())
            },
            None => {
                self.sampler = None;
                proof {
                    assert(*final(self) == *old(self));
                }
                Err(StatusError::UnsupportedCapability)
            },
        }
    }
}

/// Every enumerated-identifier-indexed table of a well-formed status has
/// exactly its enumeration's cardinality of slots.
pub proof fn lemma_fixed_cardinalities(m: MixerStatusV)
    requires
        m.wf(),
    ensures
        m.fader_status.len() == FADER_COUNT,
        m.levels.volumes.len() == CHANNEL_COUNT,
        m.mic_status.mic_gains.len() == crate::ids::MICROPHONE_TYPE_COUNT,
        m.router.router.len() == crate::ids::INPUT_COUNT,
        m.router.router_table.len() == crate::ids::INPUT_COUNT,
        forall|i: int|
            0 <= i < crate::ids::INPUT_COUNT ==> (#[trigger] m.router.router_table[i]).len()
                == crate::ids::OUTPUT_COUNT,
        m.mic_status.equaliser.gain.len() == crate::ids::EQ_FREQUENCY_COUNT,
        m.mic_status.equaliser.frequency.len() == crate::ids::EQ_FREQUENCY_COUNT,
        m.mic_status.equaliser_mini.gain.len() == crate::ids::MINI_EQ_FREQUENCY_COUNT,
        m.mic_status.equaliser_mini.frequency.len() == crate::ids::MINI_EQ_FREQUENCY_COUNT,
        m.lighting.faders.len() == FADER_COUNT,
        m.lighting.buttons.len() == crate::ids::BUTTON_TARGET_COUNT,
        m.lighting.simple.len() == crate::ids::SIMPLE_TARGET_COUNT,
        m.lighting.sampler.len() == crate::ids::SAMPLER_TARGET_COUNT,
        m.lighting.encoders.len() == crate::ids::ENCODER_TARGET_COUNT,
        m.effects matches Some(e) ==> e.preset_names.len() == crate::ids::EFFECT_PRESET_COUNT,
        m.sampler matches Some(s) ==> s.banks.len() == crate::sampler::BANK_SLOT_COUNT,
{
}

/// An absent scribble annotation is distinguishable on the wire from any
/// present one, a record of empty strings included.
pub proof fn lemma_scribble_absence_distinct(s: Scribble)
    ensures
        enc_opt_scribble(None::<Scribble>) != enc_opt_scribble(Some(s)),
{
    assert(enc_opt_scribble(None::<Scribble>)[0] is Absent);
    assert(enc_opt_scribble(Some(s))[0] is Present);
}

// ---------------------------------------------------------------------------
// wire form
// ---------------------------------------------------------------------------

pub open spec fn enc_mixer_status(m: MixerStatusV) -> Seq<Token> {
    enc_hardware_status(m.hardware) + enc_fader_statuses(m.fader_status) + enc_mic_settings(
        m.mic_status,
    ) + enc_levels(m.levels) + enc_router(m.router) + enc_cough_button(m.cough_button)
        + enc_lighting(m.lighting) + enc_opt_effects(m.effects) + enc_opt_sampler(m.sampler)
        + wire::enc_text(m.profile_name) + wire::enc_text(m.mic_profile_name)
}

pub open spec fn dec_mixer_status(s: Seq<Token>) -> Option<(MixerStatusV, Seq<Token>)> {
    match dec_hardware_status(s) {
        Some(p0) => match dec_fader_statuses(p0.1, FADER_COUNT as int) {
            Some(p1) => match dec_mic_settings(p1.1) {
                Some(p2) => match dec_levels(p2.1) {
                    Some(p3) => match dec_router(p3.1) {
                        Some(p4) => match dec_cough_button(p4.1) {
                            Some(p5) => match dec_lighting(p5.1) {
                                Some(p6) => match dec_opt_effects(p6.1) {
                                    Some(p7) => match dec_opt_sampler(p7.1) {
                                        Some(p8) => match wire::dec_text(p8.1) {
                                            Some(p9) => match wire::dec_text(p9.1) {
                                                Some(p10) => {
                                                    let m = MixerStatusV {
                                                        hardware: p0.0,
                                                        fader_status: p1.0,
                                                        mic_status: p2.0,
                                                        levels: p3.0,
                                                        router: p4.0,
                                                        cough_button: p5.0,
                                                        lighting: p6.0,
                                                        effects: p7.0,
                                                        sampler: p8.0,
                                                        profile_name: p9.0,
                                                        mic_profile_name: p10.0,
                                                    };
                                                    if (m.effects is Some)
                                                        == m.hardware.device_type.spec_has_effects()
                                                        && (m.sampler is Some)
                                                        == m.hardware.device_type.spec_has_sampler() {
                                                        Some((m, p10.1))
                                                    } else {
                                                        None
                                                    }
                                                },
                                                None => None,
                                            },
                                            None => None,
                                        },
                                        None => None,
                                    },
                                    None => None,
                                },
                                None => None,
                            },
                            None => None,
                        },
                        None => None,
                    },
                    None => None,
                },
                None => None,
            },
            None => None,
        },
        None => None,
    }
}

pub proof fn lemma_rt_mixer_status(m: MixerStatusV, rest: Seq<Token>)
    requires
        m.wf(),
    ensures
        dec_mixer_status(enc_mixer_status(m) + rest) == Some((m, rest)),
{
    let e0 = enc_hardware_status(m.hardware);
    let e1 = enc_fader_statuses(m.fader_status);
    let e2 = enc_mic_settings(m.mic_status);
    let e3 = enc_levels(m.levels);
    let e4 = enc_router(m.router);
    let e5 = enc_cough_button(m.cough_button);
    let e6 = enc_lighting(m.lighting);
    let e7 = enc_opt_effects(m.effects);
    let e8 = enc_opt_sampler(m.sampler);
    let e9 = wire::enc_text(m.profile_name);
    let e10 = wire::enc_text(m.mic_profile_name);
    let t11 = rest;
    let t10 = e10 + t11;
    let t9 = e9 + t10;
    let t8 = e8 + t9;
    let t7 = e7 + t8;
    let t6 = e6 + t7;
    let t5 = e5 + t6;
    let t4 = e4 + t5;
    let t3 = e3 + t4;
    let t2 = e2 + t3;
    let t1 = e1 + t2;
    let t0 = e0 + t1;
    wire::lemma_assoc(e0 + e1 + e2 + e3 + e4 + e5 + e6 + e7 + e8 + e9, e10, t11);
    wire::lemma_assoc(e0 + e1 + e2 + e3 + e4 + e5 + e6 + e7 + e8, e9, t10);
    wire::lemma_assoc(e0 + e1 + e2 + e3 + e4 + e5 + e6 + e7, e8, t9);
    wire::lemma_assoc(e0 + e1 + e2 + e3 + e4 + e5 + e6, e7, t8);
    wire::lemma_assoc(e0 + e1 + e2 + e3 + e4 + e5, e6, t7);
    wire::lemma_assoc(e0 + e1 + e2 + e3 + e4, e5, t6);
    wire::lemma_assoc(e0 + e1 + e2 + e3, e4, t5);
    wire::lemma_assoc(e0 + e1 + e2, e3, t4);
    wire::lemma_assoc(e0 + e1, e2, t3);
    wire::lemma_assoc(e0, e1, t2);
    assert(enc_mixer_status(m) + rest == t0);
    lemma_rt_hardware_status(m.hardware, t1);
    lemma_rt_fader_statuses(m.fader_status, t2);
    lemma_rt_mic_settings(m.mic_status, t3);
    lemma_rt_levels(m.levels, t4);
    lemma_rt_router(m.router, t5);
    lemma_rt_cough_button(m.cough_button, t6);
    lemma_rt_lighting(m.lighting, t7);
    lemma_rt_opt_effects(m.effects, t8);
    lemma_rt_opt_sampler(m.sampler, t9);
    wire::lemma_rt_text(m.profile_name, t10);
    wire::lemma_rt_text(m.mic_profile_name, t11);
}

/// Round-trip law: decoding the serialization of any well-formed status
/// model yields exactly that model, with nothing left over.  This covers
/// every reachable state, the variant-gated substructures present or
/// absent.
pub proof fn lemma_mixer_status_round_trip(m: MixerStatusV)
    requires
        m.wf(),
    ensures
        dec_mixer_status(enc_mixer_status(m)) == Some((m, Seq::<Token>::empty())),
{
    lemma_rt_mixer_status(m, Seq::empty());
    assert(enc_mixer_status(m) + Seq::<Token>::empty() =~= enc_mixer_status(m));
}

pub fn write_mixer_status(v: &MixerStatus, out: &mut Vec<Token>)
    ensures
        final(out)@ == old(out)@ + enc_mixer_status(v@),
{
    write_hardware_status(&v.hardware, out);
    write_fader_statuses(&v.fader_status, out);
    write_mic_settings(&v.mic_status, out);
    write_levels(&v.levels, out);
    write_router(&v.router, out);
    write_cough_button(&v.cough_button, out);
    write_lighting(&v.lighting, out);
    write_opt_effects(&v.effects, out);
    write_opt_sampler(&v.sampler, out);
    wire::write_text(&v.profile_name, out);
    wire::write_text(&v.mic_profile_name, out);
    proof {
        let b = old(out)@;
        let e0 = enc_hardware_status(v@.hardware);
        let e1 = enc_fader_statuses(v@.fader_status);
        let e2 = enc_mic_settings(v@.mic_status);
        let e3 = enc_levels(v@.levels);
        let e4 = enc_router(v@.router);
        let e5 = enc_cough_button(v@.cough_button);
        let e6 = enc_lighting(v@.lighting);
        let e7 = enc_opt_effects(v@.effects);
        let e8 = enc_opt_sampler(v@.sampler);
        let e9 = wire::enc_text(v@.profile_name);
        let e10 = wire::enc_text(v@.mic_profile_name);
        wire::lemma_assoc(b, e0, e1);
        wire::lemma_assoc(b, e0 + e1, e2);
        wire::lemma_assoc(b, e0 + e1 + e2, e3);
        wire::lemma_assoc(b, e0 + e1 + e2 + e3, e4);
        wire::lemma_assoc(b, e0 + e1 + e2 + e3 + e4, e5);
        wire::lemma_assoc(b, e0 + e1 + e2 + e3 + e4 + e5, e6);
        wire::lemma_assoc(b, e0 + e1 + e2 + e3 + e4 + e5 + e6, e7);
        wire::lemma_assoc(b, e0 + e1 + e2 + e3 + e4 + e5 + e6 + e7, e8);
        wire::lemma_assoc(b, e0 + e1 + e2 + e3 + e4 + e5 + e6 + e7 + e8, e9);
        wire::lemma_assoc(b, e0 + e1 + e2 + e3 + e4 + e5 + e6 + e7 + e8 + e9, e10);
        assert(out@ == b + enc_mixer_status(v@));
    }
}

pub fn read_mixer_status(toks: &Vec<Token>, pos: &mut usize) -> (r: Option<MixerStatus>)
    requires
        *old(pos) <= toks@.len(),
    ensures
        match dec_mixer_status(toks@.skip(*old(pos) as int)) {
            Some(p) => {
                &&& r matches Some(v) && v@ == p.0
                &&& *old(pos) <= *final(pos) <= toks@.len()
                &&& toks@.skip(*final(pos) as int) == p.1
            },
            None => r is None,
        },
{
    let hardware = match read_hardware_status(toks, pos) {
        Some(x) => x,
        None => {
            return None;
        },
    };
    let fader_status = match read_fader_statuses(toks, pos, FADER_COUNT) {
        Some(x) => x,
        None => {
            return None;
        },
    };
    let mic_status = match read_mic_settings(toks, pos) {
        Some(x) => x,
        None => {
            return None;
        },
    };
    let levels = match read_levels(toks, pos) {
        Some(x) => x,
        None => {
            return None;
        },
    };
    let router = match read_router(toks, pos) {
        Some(x) => x,
        None => {
            return None;
        },
    };
    let cough_button = match read_cough_button(toks, pos) {
        Some(x) => x,
        None => {
            return None;
        },
    };
    let lighting = match read_lighting(toks, pos) {
        Some(x) => x,
        None => {
            return None;
        },
    };
    let effects = match read_opt_effects(toks, pos) {
        Some(x) => x,
        None => {
            return None;
        },
    };
    let sampler = match read_opt_sampler(toks, pos) {
        Some(x) => x,
        None => {
            return None;
        },
    };
    let profile_name = match wire::read_text(toks, pos) {
        Some(x) => x,
        None => {
            return None;
        },
    };
    let mic_profile_name = match wire::read_text(toks, pos) {
        Some(x) => x,
        None => {
            return None;
        },
    };
    let gate_effects = effects.is_some() == hardware.device_type.has_effects();
    let gate_sampler = sampler.is_some() == hardware.device_type.has_sampler();
    if gate_effects && gate_sampler {
        Some(
            MixerStatus {
                hardware,
                fader_status,
                mic_status,
                levels,
                router,
                cough_button,
                lighting,
                effects,
                sampler,
                profile_name,
                mic_profile_name,
            },
        )
    } else {
        None
    }
}

impl MixerStatus {
    /// Serialize this status as a token stream.
    pub fn encode(&self) -> (r: Vec<Token>)
        ensures
            r@ == enc_mixer_status(self@),
    {
        let mut out: Vec<Token> = Vec::new();
        write_mixer_status(self, &mut out);
        assert(out@ =~= enc_mixer_status(self@));
        out
    }

    /// Deserialize a status from a token stream.  A stream with a missing
    /// field, a wrong fixed-table length, an unknown identifier position,
    /// inconsistent routing representations, a substructure that
    /// contradicts the device variant, or trailing content fails as a
    /// whole.
    pub fn decode(toks: &Vec<Token>) -> (r: Option<MixerStatus>)
        ensures
            match dec_mixer_status(toks@) {
                Some(p) => if p.1.len() == 0 {
                    r matches Some(v) && v@ == p.0
                } else {
                    r is None
                },
                None => r is None,
            },
    {
        let mut pos: usize = 0;
        proof {
            assert(toks@.skip(0) =~= toks@);
        }
        let v = match read_mixer_status(toks, &mut pos) {
            Some(x) => x,
            None => {
                return None;
            },
        };
        if pos == toks.len() {
            proof {
                assert(toks@.skip(pos as int) =~= Seq::<Token>::empty());
            }
            Some(v)
        } else {
            None
        }
    }
}


} // verus!
