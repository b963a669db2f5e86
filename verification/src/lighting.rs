//! Lighting state: per-target colour assignments.
//!
//! Each lighting family is a fixed-cardinality table indexed by its own
//! target enumeration.  A slot holds `None` when the target is not
//! applicable to the attached device variant; an absent slot is therefore
//! meaningful and is preserved by the wire codec, distinct from any present
//! colour assignment.

use vstd::prelude::*;

use crate::ids::{
    ButtonColourOffStyle, ButtonColourTargets, EncoderColourTargets, EnumIndex,
    FaderDisplayStyle, FaderName, SamplerColourTargets, SimpleColourTargets,
    BUTTON_TARGET_COUNT, ENCODER_TARGET_COUNT, FADER_COUNT, SAMPLER_TARGET_COUNT,
    SIMPLE_TARGET_COUNT,
};
use crate::wire;
use crate::wire::Token;

verus! {

/// A single colour, an opaque hex-like code.
#[derive(Debug, Clone, PartialEq)]
pub struct OneColour {
    pub colour_one: String,
}

/// A primary and secondary colour.
#[derive(Debug, Clone, PartialEq)]
pub struct TwoColours {
    pub colour_one: String,
    pub colour_two: String,
}

/// A primary, secondary and tertiary colour.
#[derive(Debug, Clone, PartialEq)]
pub struct ThreeColours {
    pub colour_one: String,
    pub colour_two: String,
    pub colour_three: String,
}

/// Colour scheme of one fader strip.
#[derive(Debug, Clone, PartialEq)]
pub struct FaderLighting {
    pub style: FaderDisplayStyle,
    pub colours: TwoColours,
}

/// Colour scheme of one lit button.
#[derive(Debug, Clone, PartialEq)]
pub struct ButtonLighting {
    pub off_style: ButtonColourOffStyle,
    pub colours: TwoColours,
}

/// Colour scheme of one sampler button group.
#[derive(Debug, Clone, PartialEq)]
pub struct SamplerLighting {
    pub off_style: ButtonColourOffStyle,
    pub colours: ThreeColours,
}

/// The five per-target lighting tables of one mixer.
#[derive(Debug, Clone, PartialEq)]
pub struct Lighting {
    pub faders: Vec<Option<FaderLighting>>,
    pub buttons: Vec<Option<ButtonLighting>>,
    pub simple: Vec<Option<OneColour>>,
    pub sampler: Vec<Option<SamplerLighting>>,
    pub encoders: Vec<Option<ThreeColours>>,
}

/// The mathematical model of a `Lighting` value.
pub struct LightingV {
    pub faders: Seq<Option<FaderLighting>>,
    pub buttons: Seq<Option<ButtonLighting>>,
    pub simple: Seq<Option<OneColour>>,
    pub sampler: Seq<Option<SamplerLighting>>,
    pub encoders: Seq<Option<ThreeColours>>,
}

impl View for Lighting {
    type V = LightingV;

    open spec fn view(&self) -> LightingV {
        LightingV {
            faders: self.faders@,
            buttons: self.buttons@,
            simple: self.simple@,
            sampler: self.sampler@,
            encoders: self.encoders@,
        }
    }
}

impl LightingV {
    /// Every lighting table has exactly one slot per target of its
    /// enumeration.
    pub open spec fn wf(self) -> bool {
        &&& self.faders.len() == FADER_COUNT
        &&& self.buttons.len() == BUTTON_TARGET_COUNT
        &&& self.simple.len() == SIMPLE_TARGET_COUNT
        &&& self.sampler.len() == SAMPLER_TARGET_COUNT
        &&& self.encoders.len() == ENCODER_TARGET_COUNT
    }
}

impl Lighting {
    pub open spec fn wf(self) -> bool {
        self@.wf()
    }

    /// A lighting state with every slot unassigned, as a freshly attached
    /// device reports before any colour is configured.
    pub fn unconfigured() -> (r: Lighting)
        ensures
            r.wf(),
            forall|i: int| 0 <= i < FADER_COUNT ==> r@.faders[i] is None,
            forall|i: int| 0 <= i < BUTTON_TARGET_COUNT ==> r@.buttons[i] is None,
            forall|i: int| 0 <= i < SIMPLE_TARGET_COUNT ==> r@.simple[i] is None,
            forall|i: int| 0 <= i < SAMPLER_TARGET_COUNT ==> r@.sampler[i] is None,
            forall|i: int| 0 <= i < ENCODER_TARGET_COUNT ==> r@.encoders[i] is None,
    {
        Lighting {
            faders: crate::util::vec_of_none(FADER_COUNT),
            buttons: crate::util::vec_of_none(BUTTON_TARGET_COUNT),
            simple: crate::util::vec_of_none(SIMPLE_TARGET_COUNT),
            sampler: crate::util::vec_of_none(SAMPLER_TARGET_COUNT),
            encoders: crate::util::vec_of_none(ENCODER_TARGET_COUNT),
        }
    }
}

impl Lighting {
    /// The colour scheme of one fader strip; `None` when the target is not
    /// applicable to the attached device variant.
    pub fn get_fader(&self, target: FaderName) -> (r: &Option<FaderLighting>)
        requires
            self.wf(),
        ensures
            *r == self@.faders[target.index_spec()],
    {
        proof {
            target.lemma_index_roundtrip();
        }
        let i = target.index();
        &self.faders[i]
    }

    /// Assign or clear the colour scheme of one fader strip; every other
    /// table is untouched.
    pub fn set_fader(&mut self, target: FaderName, value: Option<FaderLighting>)
        requires
            old(self).wf(),
        ensures
            final(self).wf(),
            final(self)@.faders == old(self)@.faders.update(target.index_spec(), value),
            final(self)@.buttons == old(self)@.buttons,
            final(self)@.simple == old(self)@.simple,
            final(self)@.sampler == old(self)@.sampler,
            final(self)@.encoders == old(self)@.encoders,
    {
        proof {
            target.lemma_index_roundtrip();
        }
        let i = target.index();
        self.faders[i] = value;
    }

    /// The colour scheme of one lit button; `None` when the target is not
    /// applicable to the attached device variant.
    pub fn get_button(&self, target: ButtonColourTargets) -> (r: &Option<ButtonLighting>)
        requires
            self.wf(),
        ensures
            *r == self@.buttons[target.index_spec()],
    {
        proof {
            target.lemma_index_roundtrip();
        }
        let i = target.index();
        &self.buttons[i]
    }

    /// Assign or clear the colour scheme of one lit button; every other
    /// table is untouched.
    pub fn set_button(&mut self, target: ButtonColourTargets, value: Option<ButtonLighting>)
        requires
            old(self).wf(),
        ensures
            final(self).wf(),
            final(self)@.buttons == old(self)@.buttons.update(target.index_spec(), value),
            final(self)@.faders == old(self)@.faders,
            final(self)@.simple == old(self)@.simple,
            final(self)@.sampler == old(self)@.sampler,
            final(self)@.encoders == old(self)@.encoders,
    {
        proof {
            target.lemma_index_roundtrip();
        }
        let i = target.index();
        self.buttons[i] = value;
    }

    /// The colour scheme of one single-colour target; `None` when the target is not
    /// applicable to the attached device variant.
    pub fn get_simple(&self, target: SimpleColourTargets) -> (r: &Option<OneColour>)
        requires
            self.wf(),
        ensures
            *r == self@.simple[target.index_spec()],
    {
        proof {
            target.lemma_index_roundtrip();
        }
        let i = target.index();
        &self.simple[i]
    }

    /// Assign or clear the colour scheme of one single-colour target; every other
    /// table is untouched.
    pub fn set_simple(&mut self, target: SimpleColourTargets, value: Option<OneColour>)
        requires
            old(self).wf(),
        ensures
            final(self).wf(),
            final(self)@.simple == old(self)@.simple.update(target.index_spec(), value),
            final(self)@.faders == old(self)@.faders,
            final(self)@.buttons == old(self)@.buttons,
            final(self)@.sampler == old(self)@.sampler,
            final(self)@.encoders == old(self)@.encoders,
    {
        proof {
            target.lemma_index_roundtrip();
        }
        let i = target.index();
        self.simple[i] = value;
    }

    /// The colour scheme of one sampler button group; `None` when the target is not
    /// applicable to the attached device variant.
    pub fn get_sampler(&self, target: SamplerColourTargets) -> (r: &Option<SamplerLighting>)
        requires
            self.wf(),
        ensures
            *r == self@.sampler[target.index_spec()],
    {
        proof {
            target.lemma_index_roundtrip();
        }
        let i = target.index();
        &self.sampler[i]
    }

    /// Assign or clear the colour scheme of one sampler button group; every other
    /// table is untouched.
    pub fn set_sampler(&mut self, target: SamplerColourTargets, value: Option<SamplerLighting>)
        requires
            old(self).wf(),
        ensures
            final(self).wf(),
            final(self)@.sampler == old(self)@.sampler.update(target.index_spec(), value),
            final(self)@.faders == old(self)@.faders,
            final(self)@.buttons == old(self)@.buttons,
            final(self)@.simple == old(self)@.simple,
            final(self)@.encoders == old(self)@.encoders,
    {
        proof {
            target.lemma_index_roundtrip();
        }
        let i = target.index();
        self.sampler[i] = value;
    }

    /// The colour scheme of one encoder; `None` when the target is not
    /// applicable to the attached device variant.
    pub fn get_encoder(&self, target: EncoderColourTargets) -> (r: &Option<ThreeColours>)
        requires
            self.wf(),
        ensures
            *r == self@.encoders[target.index_spec()],
    {
        proof {
            target.lemma_index_roundtrip();
        }
        let i = target.index();
        &self.encoders[i]
    }

    /// Assign or clear the colour scheme of one encoder; every other
    /// table is untouched.
    pub fn set_encoder(&mut self, target: EncoderColourTargets, value: Option<ThreeColours>)
        requires
            old(self).wf(),
        ensures
            final(self).wf(),
            final(self)@.encoders == old(self)@.encoders.update(target.index_spec(), value),
            final(self)@.faders == old(self)@.faders,
            final(self)@.buttons == old(self)@.buttons,
            final(self)@.simple == old(self)@.simple,
            final(self)@.sampler == old(self)@.sampler,
    {
        proof {
            target.lemma_index_roundtrip();
        }
        let i = target.index();
        self.encoders[i] = value;
    }

}

pub open spec fn enc_one_colour(v: OneColour) -> Seq<Token> {
    wire::enc_text(v.colour_one)
}

pub open spec fn dec_one_colour(s: Seq<Token>) -> Option<(OneColour, Seq<Token>)> {
    match wire::dec_text(s) {
        Some(p0) => 
        Some((OneColour { colour_one: p0.0 }, p0.1)),
        None => None,
    }
}

pub proof fn lemma_rt_one_colour(v: OneColour, rest: Seq<Token>)
    ensures
        dec_one_colour(enc_one_colour(v) + rest) == Some((v, rest)),
{
    let t1 = rest;
    let t0 = wire::enc_text(v.colour_one) + t1;
    assert(enc_one_colour(v) + rest =~= t0);
    wire::lemma_rt_text(v.colour_one, t1);
}

pub fn write_one_colour(v: &OneColour, out: &mut Vec<Token>)
    ensures
        final(out)@ == old(out)@ + enc_one_colour(*v),
{
    wire::write_text(&v.colour_one, out);
    assert(out@ =~= old(out)@ + enc_one_colour(*v));
}

pub fn read_one_colour(toks: &Vec<Token>, pos: &mut usize) -> (r: Option<OneColour>)
    requires
        *old(pos) <= toks@.len(),
    ensures
        match dec_one_colour(toks@.skip(*old(pos) as int)) {
            Some(p) => {
                &&& r == Some(p.0)
                &&& *old(pos) <= *final(pos) <= toks@.len()
                &&& toks@.skip(*final(pos) as int) == p.1
            },
            None => r is None,
        },
{
    let colour_one: String = match wire::read_text(toks, pos) {
        Some(x) => x,
        None => {
            return None;
        },
    };
    Some(OneColour { colour_one })
}

pub open spec fn enc_two_colours(v: TwoColours) -> Seq<Token> {
    wire::enc_text(v.colour_one) + wire::enc_text(v.colour_two)
}

pub open spec fn dec_two_colours(s: Seq<Token>) -> Option<(TwoColours, Seq<Token>)> {
    match wire::dec_text(s) {
        Some(p0) => 
        match wire::dec_text(p0.1) {
            Some(p1) => 
            Some((TwoColours { colour_one: p0.0, colour_two: p1.0 }, p1.1)),
            None => None,
        },
        None => None,
    }
}

pub proof fn lemma_rt_two_colours(v: TwoColours, rest: Seq<Token>)
    ensures
        dec_two_colours(enc_two_colours(v) + rest) == Some((v, rest)),
{
    let t2 = rest;
    let t1 = wire::enc_text(v.colour_two) + t2;
    let t0 = wire::enc_text(v.colour_one) + t1;
    assert(enc_two_colours(v) + rest =~= t0);
    wire::lemma_rt_text(v.colour_one, t1);
    wire::lemma_rt_text(v.colour_two, t2);
}

pub fn write_two_colours(v: &TwoColours, out: &mut Vec<Token>)
    ensures
        final(out)@ == old(out)@ + enc_two_colours(*v),
{
    wire::write_text(&v.colour_one, out);
    wire::write_text(&v.colour_two, out);
    assert(out@ =~= old(out)@ + enc_two_colours(*v));
}

pub fn read_two_colours(toks: &Vec<Token>, pos: &mut usize) -> (r: Option<TwoColours>)
    requires
        *old(pos) <= toks@.len(),
    ensures
        match dec_two_colours(toks@.skip(*old(pos) as int)) {
            Some(p) => {
                &&& r == Some(p.0)
                &&& *old(pos) <= *final(pos) <= toks@.len()
                &&& toks@.skip(*final(pos) as int) == p.1
            },
            None => r is None,
        },
{
    let colour_one: String = match wire::read_text(toks, pos) {
        Some(x) => x,
        None => {
            return None;
        },
    };
    let colour_two: String = match wire::read_text(toks, pos) {
        Some(x) => x,
        None => {
            return None;
        },
    };
    Some(TwoColours { colour_one, colour_two })
}

pub open spec fn enc_three_colours(v: ThreeColours) -> Seq<Token> {
    wire::enc_text(v.colour_one) + wire::enc_text(v.colour_two) + wire::enc_text(v.colour_three)
}

pub open spec fn dec_three_colours(s: Seq<Token>) -> Option<(ThreeColours, Seq<Token>)> {
    match wire::dec_text(s) {
        Some(p0) => 
        match wire::dec_text(p0.1) {
            Some(p1) => 
            match wire::dec_text(p1.1) {
                Some(p2) => 
                Some((ThreeColours { colour_one: p0.0, colour_two: p1.0, colour_three: p2.0 }, p2.1)),
                None => None,
            },
            None => None,
        },
        None => None,
    }
}

pub proof fn lemma_rt_three_colours(v: ThreeColours, rest: Seq<Token>)
    ensures
        dec_three_colours(enc_three_colours(v) + rest) == Some((v, rest)),
{
    let t3 = rest;
    let t2 = wire::enc_text(v.colour_three) + t3;
    let t1 = wire::enc_text(v.colour_two) + t2;
    let t0 = wire::enc_text(v.colour_one) + t1;
    assert(enc_three_colours(v) + rest =~= t0);
    wire::lemma_rt_text(v.colour_one, t1);
    wire::lemma_rt_text(v.colour_two, t2);
    wire::lemma_rt_text(v.colour_three, t3);
}

pub fn write_three_colours(v: &ThreeColours, out: &mut Vec<Token>)
    ensures
        final(out)@ == old(out)@ + enc_three_colours(*v),
{
    wire::write_text(&v.colour_one, out);
    wire::write_text(&v.colour_two, out);
    wire::write_text(&v.colour_three, out);
    assert(out@ =~= old(out)@ + enc_three_colours(*v));
}

pub fn read_three_colours(toks: &Vec<Token>, pos: &mut usize) -> (r: Option<ThreeColours>)
    requires
        *old(pos) <= toks@.len(),
    ensures
        match dec_three_colours(toks@.skip(*old(pos) as int)) {
            Some(p) => {
                &&& r == Some(p.0)
                &&& *old(pos) <= *final(pos) <= toks@.len()
                &&& toks@.skip(*final(pos) as int) == p.1
            },
            None => r is None,
        },
{
    let colour_one: String = match wire::read_text(toks, pos) {
        Some(x) => x,
        None => {
            return None;
        },
    };
    let colour_two: String = match wire::read_text(toks, pos) {
        Some(x) => x,
        None => {
            return None;
        },
    };
    let colour_three: String = match wire::read_text(toks, pos) {
        Some(x) => x,
        None => {
            return None;
        },
    };
    Some(ThreeColours { colour_one, colour_two, colour_three })
}

pub open spec fn enc_fader_lighting(v: FaderLighting) -> Seq<Token> {
    wire::enc_id(v.style) + enc_two_colours(v.colours)
}

pub open spec fn dec_fader_lighting(s: Seq<Token>) -> Option<(FaderLighting, Seq<Token>)> {
    match wire::dec_id(s) {
        Some(p0) => 
        match dec_two_colours(p0.1) {
            Some(p1) => 
            Some((FaderLighting { style: p0.0, colours: p1.0 }, p1.1)),
            None => None,
        },
        None => None,
    }
}

pub proof fn lemma_rt_fader_lighting(v: FaderLighting, rest: Seq<Token>)
    ensures
        dec_fader_lighting(enc_fader_lighting(v) + rest) == Some((v, rest)),
{
    let t2 = rest;
    let t1 = enc_two_colours(v.colours) + t2;
    let t0 = wire::enc_id(v.style) + t1;
    assert(enc_fader_lighting(v) + rest =~= t0);
    wire::lemma_rt_id(v.style, t1);
    lemma_rt_two_colours(v.colours, t2);
}

pub fn write_fader_lighting(v: &FaderLighting, out: &mut Vec<Token>)
    ensures
        final(out)@ == old(out)@ + enc_fader_lighting(*v),
{
    wire::write_id(v.style, out);
    write_two_colours(&v.colours, out);
    assert(out@ =~= old(out)@ + enc_fader_lighting(*v));
}

pub fn read_fader_lighting(toks: &Vec<Token>, pos: &mut usize) -> (r: Option<FaderLighting>)
    requires
        *old(pos) <= toks@.len(),
    ensures
        match dec_fader_lighting(toks@.skip(*old(pos) as int)) {
            Some(p) => {
                &&& r == Some(p.0)
                &&& *old(pos) <= *final(pos) <= toks@.len()
                &&& toks@.skip(*final(pos) as int) == p.1
            },
            None => r is None,
        },
{
    let style: FaderDisplayStyle = match wire::read_id(toks, pos) {
        Some(x) => x,
        None => {
            return None;
        },
    };
    let colours: TwoColours = match read_two_colours(toks, pos) {
        Some(x) => x,
        None => {
            return None;
        },
    };
    Some(FaderLighting { style, colours })
}

pub open spec fn enc_button_lighting(v: ButtonLighting) -> Seq<Token> {
    wire::enc_id(v.off_style) + enc_two_colours(v.colours)
}

pub open spec fn dec_button_lighting(s: Seq<Token>) -> Option<(ButtonLighting, Seq<Token>)> {
    match wire::dec_id(s) {
        Some(p0) => 
        match dec_two_colours(p0.1) {
            Some(p1) => 
            Some((ButtonLighting { off_style: p0.0, colours: p1.0 }, p1.1)),
            None => None,
        },
        None => None,
    }
}

pub proof fn lemma_rt_button_lighting(v: ButtonLighting, rest: Seq<Token>)
    ensures
        dec_button_lighting(enc_button_lighting(v) + rest) == Some((v, rest)),
{
    let t2 = rest;
    let t1 = enc_two_colours(v.colours) + t2;
    let t0 = wire::enc_id(v.off_style) + t1;
    assert(enc_button_lighting(v) + rest =~= t0);
    wire::lemma_rt_id(v.off_style, t1);
    lemma_rt_two_colours(v.colours, t2);
}

pub fn write_button_lighting(v: &ButtonLighting, out: &mut Vec<Token>)
    ensures
        final(out)@ == old(out)@ + enc_button_lighting(*v),
{
    wire::write_id(v.off_style, out);
    write_two_colours(&v.colours, out);
    assert(out@ =~= old(out)@ + enc_button_lighting(*v));
}

pub fn read_button_lighting(toks: &Vec<Token>, pos: &mut usize) -> (r: Option<ButtonLighting>)
    requires
        *old(pos) <= toks@.len(),
    ensures
        match dec_button_lighting(toks@.skip(*old(pos) as int)) {
            Some(p) => {
                &&& r == Some(p.0)
                &&& *old(pos) <= *final(pos) <= toks@.len()
                &&& toks@.skip(*final(pos) as int) == p.1
            },
            None => r is None,
        },
{
    let off_style: ButtonColourOffStyle = match wire::read_id(toks, pos) {
        Some(x) => x,
        None => {
            return None;
        },
    };
    let colours: TwoColours = match read_two_colours(toks, pos) {
        Some(x) => x,
        None => {
            return None;
        },
    };
    Some(ButtonLighting { off_style, colours })
}

pub open spec fn enc_sampler_lighting(v: SamplerLighting) -> Seq<Token> {
    wire::enc_id(v.off_style) + enc_three_colours(v.colours)
}

pub open spec fn dec_sampler_lighting(s: Seq<Token>) -> Option<(SamplerLighting, Seq<Token>)> {
    match wire::dec_id(s) {
        Some(p0) => 
        match dec_three_colours(p0.1) {
            Some(p1) => 
            Some((SamplerLighting { off_style: p0.0, colours: p1.0 }, p1.1)),
            None => None,
        },
        None => None,
    }
}

pub proof fn lemma_rt_sampler_lighting(v: SamplerLighting, rest: Seq<Token>)
    ensures
        dec_sampler_lighting(enc_sampler_lighting(v) + rest) == Some((v, rest)),
{
    let t2 = rest;
    let t1 = enc_three_colours(v.colours) + t2;
    let t0 = wire::enc_id(v.off_style) + t1;
    assert(enc_sampler_lighting(v) + rest =~= t0);
    wire::lemma_rt_id(v.off_style, t1);
    lemma_rt_three_colours(v.colours, t2);
}

pub fn write_sampler_lighting(v: &SamplerLighting, out: &mut Vec<Token>)
    ensures
        final(out)@ == old(out)@ + enc_sampler_lighting(*v),
{
    wire::write_id(v.off_style, out);
    write_three_colours(&v.colours, out);
    assert(out@ =~= old(out)@ + enc_sampler_lighting(*v));
}

pub fn read_sampler_lighting(toks: &Vec<Token>, pos: &mut usize) -> (r: Option<SamplerLighting>)
    requires
        *old(pos) <= toks@.len(),
    ensures
        match dec_sampler_lighting(toks@.skip(*old(pos) as int)) {
            Some(p) => {
                &&& r == Some(p.0)
                &&& *old(pos) <= *final(pos) <= toks@.len()
                &&& toks@.skip(*final(pos) as int) == p.1
            },
            None => r is None,
        },
{
    let off_style: ButtonColourOffStyle = match wire::read_id(toks, pos) {
        Some(x) => x,
        None => {
            return None;
        },
    };
    let colours: ThreeColours = match read_three_colours(toks, pos) {
        Some(x) => x,
        None => {
            return None;
        },
    };
    Some(SamplerLighting { off_style, colours })
}

pub open spec fn enc_opt_fader_lighting(v: Option<FaderLighting>) -> Seq<Token> {
    match v {
        None => seq![Token::Absent],
        Some(x) => seq![Token::Present] + enc_fader_lighting(x),
    }
}

pub open spec fn dec_opt_fader_lighting(s: Seq<Token>) -> Option<(Option<FaderLighting>, Seq<Token>)> {
    if s.len() >= 1 {
        match s[0] {
            Token::Absent => Some((None, s.skip(1))),
            Token::Present => match dec_fader_lighting(s.skip(1)) {
                Some(p) => Some((Some(p.0), p.1)),
                None => None,
            },
            _ => None,
        }
    } else {
        None
    }
}

pub proof fn lemma_rt_opt_fader_lighting(v: Option<FaderLighting>, rest: Seq<Token>)
    ensures
        dec_opt_fader_lighting(enc_opt_fader_lighting(v) + rest) == Some((v, rest)),
{
    match v {
        None => {
            assert((enc_opt_fader_lighting(v) + rest).skip(1) =~= rest);
        },
        Some(x) => {
            assert((enc_opt_fader_lighting(v) + rest).skip(1) =~= enc_fader_lighting(x) + rest);
            lemma_rt_fader_lighting(x, rest);
        },
    }
}

pub fn write_opt_fader_lighting(v: &Option<FaderLighting>, out: &mut Vec<Token>)
    ensures
        final(out)@ == old(out)@ + enc_opt_fader_lighting(*v),
{
    match v {
        None => {
            out.push(Token::Absent);
            assert(out@ =~= old(out)@ + enc_opt_fader_lighting(*v));
        },
        Some(x) => {
            out.push(Token::Present);
            write_fader_lighting(x, out);
            assert(out@ =~= old(out)@ + enc_opt_fader_lighting(*v));
        },
    }
}

pub fn read_opt_fader_lighting(toks: &Vec<Token>, pos: &mut usize) -> (r: Option<Option<FaderLighting>>)
    requires
        *old(pos) <= toks@.len(),
    ensures
        match dec_opt_fader_lighting(toks@.skip(*old(pos) as int)) {
            Some(p) => {
                &&& r == Some(p.0)
                &&& *old(pos) <= *final(pos) <= toks@.len()
                &&& toks@.skip(*final(pos) as int) == p.1
            },
            None => r is None,
        },
{
    if *pos < toks.len() {
        let tag_is_absent: bool = match &toks[*pos] {
            Token::Absent => true,
            _ => false,
        };
        let tag_is_present: bool = match &toks[*pos] {
            Token::Present => true,
            _ => false,
        };
        if tag_is_absent {
            *pos += 1;
            assert(toks@.skip(*old(pos) as int).skip(1) =~= toks@.skip(*pos as int));
            Some(None)
        } else if tag_is_present {
            *pos += 1;
            assert(toks@.skip(*old(pos) as int).skip(1) =~= toks@.skip(*pos as int));
            match read_fader_lighting(toks, pos) {
                Some(x) => Some(Some(x)),
                None => None,
            }
        } else {
            None
        }
    } else {
        None
    }
}

pub open spec fn enc_opt_button_lighting(v: Option<ButtonLighting>) -> Seq<Token> {
    match v {
        None => seq![Token::Absent],
        Some(x) => seq![Token::Present] + enc_button_lighting(x),
    }
}

pub open spec fn dec_opt_button_lighting(s: Seq<Token>) -> Option<(Option<ButtonLighting>, Seq<Token>)> {
    if s.len() >= 1 {
        match s[0] {
            Token::Absent => Some((None, s.skip(1))),
            Token::Present => match dec_button_lighting(s.skip(1)) {
                Some(p) => Some((Some(p.0), p.1)),
                None => None,
            },
            _ => None,
        }
    } else {
        None
    }
}

pub proof fn lemma_rt_opt_button_lighting(v: Option<ButtonLighting>, rest: Seq<Token>)
    ensures
        dec_opt_button_lighting(enc_opt_button_lighting(v) + rest) == Some((v, rest)),
{
    match v {
        None => {
            assert((enc_opt_button_lighting(v) + rest).skip(1) =~= rest);
        },
        Some(x) => {
            assert((enc_opt_button_lighting(v) + rest).skip(1) =~= enc_button_lighting(x) + rest);
            lemma_rt_button_lighting(x, rest);
        },
    }
}

pub fn write_opt_button_lighting(v: &Option<ButtonLighting>, out: &mut Vec<Token>)
    ensures
        final(out)@ == old(out)@ + enc_opt_button_lighting(*v),
{
    match v {
        None => {
            out.push(Token::Absent);
            assert(out@ =~= old(out)@ + enc_opt_button_lighting(*v));
        },
        Some(x) => {
            out.push(Token::Present);
            write_button_lighting(x, out);
            assert(out@ =~= old(out)@ + enc_opt_button_lighting(*v));
        },
    }
}

pub fn read_opt_button_lighting(toks: &Vec<Token>, pos: &mut usize) -> (r: Option<Option<ButtonLighting>>)
    requires
        *old(pos) <= toks@.len(),
    ensures
        match dec_opt_button_lighting(toks@.skip(*old(pos) as int)) {
            Some(p) => {
                &&& r == Some(p.0)
                &&& *old(pos) <= *final(pos) <= toks@.len()
                &&& toks@.skip(*final(pos) as int) == p.1
            },
            None => r is None,
        },
{
    if *pos < toks.len() {
        let tag_is_absent: bool = match &toks[*pos] {
            Token::Absent => true,
            _ => false,
        };
        let tag_is_present: bool = match &toks[*pos] {
            Token::Present => true,
            _ => false,
        };
        if tag_is_absent {
            *pos += 1;
            assert(toks@.skip(*old(pos) as int).skip(1) =~= toks@.skip(*pos as int));
            Some(None)
        } else if tag_is_present {
            *pos += 1;
            assert(toks@.skip(*old(pos) as int).skip(1) =~= toks@.skip(*pos as int));
            match read_button_lighting(toks, pos) {
                Some(x) => Some(Some(x)),
                None => None,
            }
        } else {
            None
        }
    } else {
        None
    }
}

pub open spec fn enc_opt_one_colour(v: Option<OneColour>) -> Seq<Token> {
    match v {
        None => seq![Token::Absent],
        Some(x) => seq![Token::Present] + enc_one_colour(x),
    }
}

pub open spec fn dec_opt_one_colour(s: Seq<Token>) -> Option<(Option<OneColour>, Seq<Token>)> {
    if s.len() >= 1 {
        match s[0] {
            Token::Absent => Some((None, s.skip(1))),
            Token::Present => match dec_one_colour(s.skip(1)) {
                Some(p) => Some((Some(p.0), p.1)),
                None => None,
            },
            _ => None,
        }
    } else {
        None
    }
}

pub proof fn lemma_rt_opt_one_colour(v: Option<OneColour>, rest: Seq<Token>)
    ensures
        dec_opt_one_colour(enc_opt_one_colour(v) + rest) == Some((v, rest)),
{
    match v {
        None => {
            assert((enc_opt_one_colour(v) + rest).skip(1) =~= rest);
        },
        Some(x) => {
            assert((enc_opt_one_colour(v) + rest).skip(1) =~= enc_one_colour(x) + rest);
            lemma_rt_one_colour(x, rest);
        },
    }
}

pub fn write_opt_one_colour(v: &Option<OneColour>, out: &mut Vec<Token>)
    ensures
        final(out)@ == old(out)@ + enc_opt_one_colour(*v),
{
    match v {
        None => {
            out.push(Token::Absent);
            assert(out@ =~= old(out)@ + enc_opt_one_colour(*v));
        },
        Some(x) => {
            out.push(Token::Present);
            write_one_colour(x, out);
            assert(out@ =~= old(out)@ + enc_opt_one_colour(*v));
        },
    }
}

pub fn read_opt_one_colour(toks: &Vec<Token>, pos: &mut usize) -> (r: Option<Option<OneColour>>)
    requires
        *old(pos) <= toks@.len(),
    ensures
        match dec_opt_one_colour(toks@.skip(*old(pos) as int)) {
            Some(p) => {
                &&& r == Some(p.0)
                &&& *old(pos) <= *final(pos) <= toks@.len()
                &&& toks@.skip(*final(pos) as int) == p.1
            },
            None => r is None,
        },
{
    if *pos < toks.len() {
        let tag_is_absent: bool = match &toks[*pos] {
            Token::Absent => true,
            _ => false,
        };
        let tag_is_present: bool = match &toks[*pos] {
            Token::Present => true,
            _ => false,
        };
        if tag_is_absent {
            *pos += 1;
            assert(toks@.skip(*old(pos) as int).skip(1) =~= toks@.skip(*pos as int));
            Some(None)
        } else if tag_is_present {
            *pos += 1;
            assert(toks@.skip(*old(pos) as int).skip(1) =~= toks@.skip(*pos as int));
            match read_one_colour(toks, pos) {
                Some(x) => Some(Some(x)),
                None => None,
            }
        } else {
            None
        }
    } else {
        None
    }
}

pub open spec fn enc_opt_sampler_lighting(v: Option<SamplerLighting>) -> Seq<Token> {
    match v {
        None => seq![Token::Absent],
        Some(x) => seq![Token::Present] + enc_sampler_lighting(x),
    }
}

pub open spec fn dec_opt_sampler_lighting(s: Seq<Token>) -> Option<(Option<SamplerLighting>, Seq<Token>)> {
    if s.len() >= 1 {
        match s[0] {
            Token::Absent => Some((None, s.skip(1))),
            Token::Present => match dec_sampler_lighting(s.skip(1)) {
                Some(p) => Some((Some(p.0), p.1)),
                None => None,
            },
            _ => None,
        }
    } else {
        None
    }
}

pub proof fn lemma_rt_opt_sampler_lighting(v: Option<SamplerLighting>, rest: Seq<Token>)
    ensures
        dec_opt_sampler_lighting(enc_opt_sampler_lighting(v) + rest) == Some((v, rest)),
{
    match v {
        None => {
            assert((enc_opt_sampler_lighting(v) + rest).skip(1) =~= rest);
        },
        Some(x) => {
            assert((enc_opt_sampler_lighting(v) + rest).skip(1) =~= enc_sampler_lighting(x) + rest);
            lemma_rt_sampler_lighting(x, rest);
        },
    }
}

pub fn write_opt_sampler_lighting(v: &Option<SamplerLighting>, out: &mut Vec<Token>)
    ensures
        final(out)@ == old(out)@ + enc_opt_sampler_lighting(*v),
{
    match v {
        None => {
            out.push(Token::Absent);
            assert(out@ =~= old(out)@ + enc_opt_sampler_lighting(*v));
        },
        Some(x) => {
            out.push(Token::Present);
            write_sampler_lighting(x, out);
            assert(out@ =~= old(out)@ + enc_opt_sampler_lighting(*v));
        },
    }
}

pub fn read_opt_sampler_lighting(toks: &Vec<Token>, pos: &mut usize) -> (r: Option<Option<SamplerLighting>>)
    requires
        *old(pos) <= toks@.len(),
    ensures
        match dec_opt_sampler_lighting(toks@.skip(*old(pos) as int)) {
            Some(p) => {
                &&& r == Some(p.0)
                &&& *old(pos) <= *final(pos) <= toks@.len()
                &&& toks@.skip(*final(pos) as int) == p.1
            },
            None => r is None,
        },
{
    if *pos < toks.len() {
        let tag_is_absent: bool = match &toks[*pos] {
            Token::Absent => true,
            _ => false,
        };
        let tag_is_present: bool = match &toks[*pos] {
            Token::Present => true,
            _ => false,
        };
        if tag_is_absent {
            *pos += 1;
            assert(toks@.skip(*old(pos) as int).skip(1) =~= toks@.skip(*pos as int));
            Some(None)
        } else if tag_is_present {
            *pos += 1;
            assert(toks@.skip(*old(pos) as int).skip(1) =~= toks@.skip(*pos as int));
            match read_sampler_lighting(toks, pos) {
                Some(x) => Some(Some(x)),
                None => None,
            }
        } else {
            None
        }
    } else {
        None
    }
}

pub open spec fn enc_opt_three_colours(v: Option<ThreeColours>) -> Seq<Token> {
    match v {
        None => seq![Token::Absent],
        Some(x) => seq![Token::Present] + enc_three_colours(x),
    }
}

pub open spec fn dec_opt_three_colours(s: Seq<Token>) -> Option<(Option<ThreeColours>, Seq<Token>)> {
    if s.len() >= 1 {
        match s[0] {
            Token::Absent => Some((None, s.skip(1))),
            Token::Present => match dec_three_colours(s.skip(1)) {
                Some(p) => Some((Some(p.0), p.1)),
                None => None,
            },
            _ => None,
        }
    } else {
        None
    }
}

pub proof fn lemma_rt_opt_three_colours(v: Option<ThreeColours>, rest: Seq<Token>)
    ensures
        dec_opt_three_colours(enc_opt_three_colours(v) + rest) == Some((v, rest)),
{
    match v {
        None => {
            assert((enc_opt_three_colours(v) + rest).skip(1) =~= rest);
        },
        Some(x) => {
            assert((enc_opt_three_colours(v) + rest).skip(1) =~= enc_three_colours(x) + rest);
            lemma_rt_three_colours(x, rest);
        },
    }
}

pub fn write_opt_three_colours(v: &Option<ThreeColours>, out: &mut Vec<Token>)
    ensures
        final(out)@ == old(out)@ + enc_opt_three_colours(*v),
{
    match v {
        None => {
            out.push(Token::Absent);
            assert(out@ =~= old(out)@ + enc_opt_three_colours(*v));
        },
        Some(x) => {
            out.push(Token::Present);
            write_three_colours(x, out);
            assert(out@ =~= old(out)@ + enc_opt_three_colours(*v));
        },
    }
}

pub fn read_opt_three_colours(toks: &Vec<Token>, pos: &mut usize) -> (r: Option<Option<ThreeColours>>)
    requires
        *old(pos) <= toks@.len(),
    ensures
        match dec_opt_three_colours(toks@.skip(*old(pos) as int)) {
            Some(p) => {
                &&& r == Some(p.0)
                &&& *old(pos) <= *final(pos) <= toks@.len()
                &&& toks@.skip(*final(pos) as int) == p.1
            },
            None => r is None,
        },
{
    if *pos < toks.len() {
        let tag_is_absent: bool = match &toks[*pos] {
            Token::Absent => true,
            _ => false,
        };
        let tag_is_present: bool = match &toks[*pos] {
            Token::Present => true,
            _ => false,
        };
        if tag_is_absent {
            *pos += 1;
            assert(toks@.skip(*old(pos) as int).skip(1) =~= toks@.skip(*pos as int));
            Some(None)
        } else if tag_is_present {
            *pos += 1;
            assert(toks@.skip(*old(pos) as int).skip(1) =~= toks@.skip(*pos as int));
            match read_three_colours(toks, pos) {
                Some(x) => Some(Some(x)),
                None => None,
            }
        } else {
            None
        }
    } else {
        None
    }
}

pub open spec fn enc_opt_fader_lighting_slots(s: Seq<Option<FaderLighting>>) -> Seq<Token>
    decreases s.len(),
{
    if s.len() == 0 {
        Seq::empty()
    } else {
        enc_opt_fader_lighting(s[0]) + enc_opt_fader_lighting_slots(s.skip(1))
    }
}

pub open spec fn dec_opt_fader_lighting_slots(s: Seq<Token>, n: int) -> Option<(Seq<Option<FaderLighting>>, Seq<Token>)>
    decreases n,
{
    if n <= 0 {
        Some((Seq::empty(), s))
    } else {
        match dec_opt_fader_lighting(s) {
            Some(p) => match dec_opt_fader_lighting_slots(p.1, n - 1) {
                Some(q) => Some((seq![p.0] + q.0, q.1)),
                None => None,
            },
            None => None,
        }
    }
}

pub proof fn lemma_rt_opt_fader_lighting_slots(s: Seq<Option<FaderLighting>>, rest: Seq<Token>)
    ensures
        dec_opt_fader_lighting_slots(enc_opt_fader_lighting_slots(s) + rest, s.len() as int) == Some((s, rest)),
    decreases s.len(),
{
    if s.len() == 0 {
        assert(enc_opt_fader_lighting_slots(s) + rest =~= rest);
    } else {
        let tail = s.skip(1);
        assert(enc_opt_fader_lighting_slots(s) + rest =~= enc_opt_fader_lighting(s[0]) + (enc_opt_fader_lighting_slots(tail) + rest));
        lemma_rt_opt_fader_lighting(s[0], enc_opt_fader_lighting_slots(tail) + rest);
        lemma_rt_opt_fader_lighting_slots(tail, rest);
        assert(seq![s[0]] + tail =~= s);
    }
}

pub fn write_opt_fader_lighting_slots(v: &Vec<Option<FaderLighting>>, out: &mut Vec<Token>)
    ensures
        final(out)@ == old(out)@ + enc_opt_fader_lighting_slots(v@),
{
    let ghost base = out@;
    let ghost m = v@;
    let mut k: usize = 0;
    proof {
        assert(m.skip(0) =~= m);
    }
    while k < v.len()
        invariant
            k <= v@.len(),
            m == v@,
            m.len() == v@.len(),
            out@ + enc_opt_fader_lighting_slots(m.skip(k as int)) == base + enc_opt_fader_lighting_slots(m),
        decreases v@.len() - k,
    {
        let ghost out0 = out@;
        write_opt_fader_lighting(&v[k], out);
        proof {
            assert(m.skip(k as int).skip(1) =~= m.skip(k as int + 1));
            assert(m.skip(k as int)[0] == m[k as int]);
            assert(out0 + enc_opt_fader_lighting(m[k as int]) + enc_opt_fader_lighting_slots(m.skip(k as int + 1)) =~= out0 + (enc_opt_fader_lighting(m[k as int]) + enc_opt_fader_lighting_slots(m.skip(k as int + 1))));
        }
        k += 1;
    }
    proof {
        assert(enc_opt_fader_lighting_slots(m.skip(v@.len() as int)) =~= Seq::empty());
        assert(out@ + Seq::<Token>::empty() =~= out@);
    }
}

#[verifier::loop_isolation(false)]
pub fn read_opt_fader_lighting_slots(toks: &Vec<Token>, pos: &mut usize, n: usize) -> (r: Option<Vec<Option<FaderLighting>>>)
    requires
        *old(pos) <= toks@.len(),
    ensures
        match dec_opt_fader_lighting_slots(toks@.skip(*old(pos) as int), n as int) {
            Some(p) => {
                &&& r matches Some(v) && v@ == p.0
                &&& p.0.len() == n
                &&& *old(pos) <= *final(pos) <= toks@.len()
                &&& toks@.skip(*final(pos) as int) == p.1
            },
            None => r is None,
        },
{
    let ghost p0 = *pos as int;
    let mut acc: Vec<Option<FaderLighting>> = Vec::new();
    let mut k: usize = 0;
    while k < n
        invariant
            k <= n,
            p0 <= *pos as int,
            *pos <= toks@.len(),
            acc@.len() == k,
            dec_opt_fader_lighting_slots(toks@.skip(p0), n as int) == (match dec_opt_fader_lighting_slots(
                toks@.skip(*pos as int),
                n as int - k as int,
            ) {
                Some(q) => Some::<(Seq<Option<FaderLighting>>, Seq<Token>)>((acc@ + q.0, q.1)),
                None => None::<(Seq<Option<FaderLighting>>, Seq<Token>)>,
            }),
        decreases n - k,
    {
        let ghost before = toks@.skip(*pos as int);
        match read_opt_fader_lighting(toks, pos) {
            Some(x) => {
                proof {
                    if dec_opt_fader_lighting_slots(before, n as int - k as int) matches Some(q) {
                        let qq = dec_opt_fader_lighting_slots(toks@.skip(*pos as int), n as int - k as int - 1);
                        assert(acc@ + (seq![x] + qq->Some_0.0) =~= acc@.push(x) + qq->Some_0.0);
                    }
                    assert(acc@.push(x) =~= acc@.push(x));
                }
                acc.push(x);
                k += 1;
            },
            None => {
                return None;
            },
        }
    }
    proof {
        assert(dec_opt_fader_lighting_slots(toks@.skip(*pos as int), 0) == Some::<(Seq<Option<FaderLighting>>, Seq<Token>)>((
            Seq::empty(),
            toks@.skip(*pos as int),
        )));
        assert(acc@ + Seq::<Option<FaderLighting>>::empty() =~= acc@);
    }
    Some(acc)
}

pub open spec fn enc_opt_button_lighting_slots(s: Seq<Option<ButtonLighting>>) -> Seq<Token>
    decreases s.len(),
{
    if s.len() == 0 {
        Seq::empty()
    } else {
        enc_opt_button_lighting(s[0]) + enc_opt_button_lighting_slots(s.skip(1))
    }
}

pub open spec fn dec_opt_button_lighting_slots(s: Seq<Token>, n: int) -> Option<(Seq<Option<ButtonLighting>>, Seq<Token>)>
    decreases n,
{
    if n <= 0 {
        Some((Seq::empty(), s))
    } else {
        match dec_opt_button_lighting(s) {
            Some(p) => match dec_opt_button_lighting_slots(p.1, n - 1) {
                Some(q) => Some((seq![p.0] + q.0, q.1)),
                None => None,
            },
            None => None,
        }
    }
}

pub proof fn lemma_rt_opt_button_lighting_slots(s: Seq<Option<ButtonLighting>>, rest: Seq<Token>)
    ensures
        dec_opt_button_lighting_slots(enc_opt_button_lighting_slots(s) + rest, s.len() as int) == Some((s, rest)),
    decreases s.len(),
{
    if s.len() == 0 {
        assert(enc_opt_button_lighting_slots(s) + rest =~= rest);
    } else {
        let tail = s.skip(1);
        assert(enc_opt_button_lighting_slots(s) + rest =~= enc_opt_button_lighting(s[0]) + (enc_opt_button_lighting_slots(tail) + rest));
        lemma_rt_opt_button_lighting(s[0], enc_opt_button_lighting_slots(tail) + rest);
        lemma_rt_opt_button_lighting_slots(tail, rest);
        assert(seq![s[0]] + tail =~= s);
    }
}

pub fn write_opt_button_lighting_slots(v: &Vec<Option<ButtonLighting>>, out: &mut Vec<Token>)
    ensures
        final(out)@ == old(out)@ + enc_opt_button_lighting_slots(v@),
{
    let ghost base = out@;
    let ghost m = v@;
    let mut k: usize = 0;
    proof {
        assert(m.skip(0) =~= m);
    }
    while k < v.len()
        invariant
            k <= v@.len(),
            m == v@,
            m.len() == v@.len(),
            out@ + enc_opt_button_lighting_slots(m.skip(k as int)) == base + enc_opt_button_lighting_slots(m),
        decreases v@.len() - k,
    {
        let ghost out0 = out@;
        write_opt_button_lighting(&v[k], out);
        proof {
            assert(m.skip(k as int).skip(1) =~= m.skip(k as int + 1));
            assert(m.skip(k as int)[0] == m[k as int]);
            assert(out0 + enc_opt_button_lighting(m[k as int]) + enc_opt_button_lighting_slots(m.skip(k as int + 1)) =~= out0 + (enc_opt_button_lighting(m[k as int]) + enc_opt_button_lighting_slots(m.skip(k as int + 1))));
        }
        k += 1;
    }
    proof {
        assert(enc_opt_button_lighting_slots(m.skip(v@.len() as int)) =~= Seq::empty());
        assert(out@ + Seq::<Token>::empty() =~= out@);
    }
}

#[verifier::loop_isolation(false)]
pub fn read_opt_button_lighting_slots(toks: &Vec<Token>, pos: &mut usize, n: usize) -> (r: Option<Vec<Option<ButtonLighting>>>)
    requires
        *old(pos) <= toks@.len(),
    ensures
        match dec_opt_button_lighting_slots(toks@.skip(*old(pos) as int), n as int) {
            Some(p) => {
                &&& r matches Some(v) && v@ == p.0
                &&& p.0.len() == n
                &&& *old(pos) <= *final(pos) <= toks@.len()
                &&& toks@.skip(*final(pos) as int) == p.1
            },
            None => r is None,
        },
{
    let ghost p0 = *pos as int;
    let mut acc: Vec<Option<ButtonLighting>> = Vec::new();
    let mut k: usize = 0;
    while k < n
        invariant
            k <= n,
            p0 <= *pos as int,
            *pos <= toks@.len(),
            acc@.len() == k,
            dec_opt_button_lighting_slots(toks@.skip(p0), n as int) == (match dec_opt_button_lighting_slots(
                toks@.skip(*pos as int),
                n as int - k as int,
            ) {
                Some(q) => Some::<(Seq<Option<ButtonLighting>>, Seq<Token>)>((acc@ + q.0, q.1)),
                None => None::<(Seq<Option<ButtonLighting>>, Seq<Token>)>,
            }),
        decreases n - k,
    {
        let ghost before = toks@.skip(*pos as int);
        match read_opt_button_lighting(toks, pos) {
            Some(x) => {
                proof {
                    if dec_opt_button_lighting_slots(before, n as int - k as int) matches Some(q) {
                        let qq = dec_opt_button_lighting_slots(toks@.skip(*pos as int), n as int - k as int - 1);
                        assert(acc@ + (seq![x] + qq->Some_0.0) =~= acc@.push(x) + qq->Some_0.0);
                    }
                    assert(acc@.push(x) =~= acc@.push(x));
                }
                acc.push(x);
                k += 1;
            },
            None => {
                return None;
            },
        }
    }
    proof {
        assert(dec_opt_button_lighting_slots(toks@.skip(*pos as int), 0) == Some::<(Seq<Option<ButtonLighting>>, Seq<Token>)>((
            Seq::empty(),
            toks@.skip(*pos as int),
        )));
        assert(acc@ + Seq::<Option<ButtonLighting>>::empty() =~= acc@);
    }
    Some(acc)
}

pub open spec fn enc_opt_one_colour_slots(s: Seq<Option<OneColour>>) -> Seq<Token>
    decreases s.len(),
{
    if s.len() == 0 {
        Seq::empty()
    } else {
        enc_opt_one_colour(s[0]) + enc_opt_one_colour_slots(s.skip(1))
    }
}

pub open spec fn dec_opt_one_colour_slots(s: Seq<Token>, n: int) -> Option<(Seq<Option<OneColour>>, Seq<Token>)>
    decreases n,
{
    if n <= 0 {
        Some((Seq::empty(), s))
    } else {
        match dec_opt_one_colour(s) {
            Some(p) => match dec_opt_one_colour_slots(p.1, n - 1) {
                Some(q) => Some((seq![p.0] + q.0, q.1)),
                None => None,
            },
            None => None,
        }
    }
}

pub proof fn lemma_rt_opt_one_colour_slots(s: Seq<Option<OneColour>>, rest: Seq<Token>)
    ensures
        dec_opt_one_colour_slots(enc_opt_one_colour_slots(s) + rest, s.len() as int) == Some((s, rest)),
    decreases s.len(),
{
    if s.len() == 0 {
        assert(enc_opt_one_colour_slots(s) + rest =~= rest);
    } else {
        let tail = s.skip(1);
        assert(enc_opt_one_colour_slots(s) + rest =~= enc_opt_one_colour(s[0]) + (enc_opt_one_colour_slots(tail) + rest));
        lemma_rt_opt_one_colour(s[0], enc_opt_one_colour_slots(tail) + rest);
        lemma_rt_opt_one_colour_slots(tail, rest);
        assert(seq![s[0]] + tail =~= s);
    }
}

pub fn write_opt_one_colour_slots(v: &Vec<Option<OneColour>>, out: &mut Vec<Token>)
    ensures
        final(out)@ == old(out)@ + enc_opt_one_colour_slots(v@),
{
    let ghost base = out@;
    let ghost m = v@;
    let mut k: usize = 0;
    proof {
        assert(m.skip(0) =~= m);
    }
    while k < v.len()
        invariant
            k <= v@.len(),
            m == v@,
            m.len() == v@.len(),
            out@ + enc_opt_one_colour_slots(m.skip(k as int)) == base + enc_opt_one_colour_slots(m),
        decreases v@.len() - k,
    {
        let ghost out0 = out@;
        write_opt_one_colour(&v[k], out);
        proof {
            assert(m.skip(k as int).skip(1) =~= m.skip(k as int + 1));
            assert(m.skip(k as int)[0] == m[k as int]);
            assert(out0 + enc_opt_one_colour(m[k as int]) + enc_opt_one_colour_slots(m.skip(k as int + 1)) =~= out0 + (enc_opt_one_colour(m[k as int]) + enc_opt_one_colour_slots(m.skip(k as int + 1))));
        }
        k += 1;
    }
    proof {
        assert(enc_opt_one_colour_slots(m.skip(v@.len() as int)) =~= Seq::empty());
        assert(out@ + Seq::<Token>::empty() =~= out@);
    }
}

#[verifier::loop_isolation(false)]
pub fn read_opt_one_colour_slots(toks: &Vec<Token>, pos: &mut usize, n: usize) -> (r: Option<Vec<Option<OneColour>>>)
    requires
        *old(pos) <= toks@.len(),
    ensures
        match dec_opt_one_colour_slots(toks@.skip(*old(pos) as int), n as int) {
            Some(p) => {
                &&& r matches Some(v) && v@ == p.0
                &&& p.0.len() == n
                &&& *old(pos) <= *final(pos) <= toks@.len()
                &&& toks@.skip(*final(pos) as int) == p.1
            },
            None => r is None,
        },
{
    let ghost p0 = *pos as int;
    let mut acc: Vec<Option<OneColour>> = Vec::new();
    let mut k: usize = 0;
    while k < n
        invariant
            k <= n,
            p0 <= *pos as int,
            *pos <= toks@.len(),
            acc@.len() == k,
            dec_opt_one_colour_slots(toks@.skip(p0), n as int) == (match dec_opt_one_colour_slots(
                toks@.skip(*pos as int),
                n as int - k as int,
            ) {
                Some(q) => Some::<(Seq<Option<OneColour>>, Seq<Token>)>((acc@ + q.0, q.1)),
                None => None::<(Seq<Option<OneColour>>, Seq<Token>)>,
            }),
        decreases n - k,
    {
        let ghost before = toks@.skip(*pos as int);
        match read_opt_one_colour(toks, pos) {
            Some(x) => {
                proof {
                    if dec_opt_one_colour_slots(before, n as int - k as int) matches Some(q) {
                        let qq = dec_opt_one_colour_slots(toks@.skip(*pos as int), n as int - k as int - 1);
                        assert(acc@ + (seq![x] + qq->Some_0.0) =~= acc@.push(x) + qq->Some_0.0);
                    }
                    assert(acc@.push(x) =~= acc@.push(x));
                }
                acc.push(x);
                k += 1;
            },
            None => {
                return None;
            },
        }
    }
    proof {
        assert(dec_opt_one_colour_slots(toks@.skip(*pos as int), 0) == Some::<(Seq<Option<OneColour>>, Seq<Token>)>((
            Seq::empty(),
            toks@.skip(*pos as int),
        )));
        assert(acc@ + Seq::<Option<OneColour>>::empty() =~= acc@);
    }
    Some(acc)
}

pub open spec fn enc_opt_sampler_lighting_slots(s: Seq<Option<SamplerLighting>>) -> Seq<Token>
    decreases s.len(),
{
    if s.len() == 0 {
        Seq::empty()
    } else {
        enc_opt_sampler_lighting(s[0]) + enc_opt_sampler_lighting_slots(s.skip(1))
    }
}

pub open spec fn dec_opt_sampler_lighting_slots(s: Seq<Token>, n: int) -> Option<(Seq<Option<SamplerLighting>>, Seq<Token>)>
    decreases n,
{
    if n <= 0 {
        Some((Seq::empty(), s))
    } else {
        match dec_opt_sampler_lighting(s) {
            Some(p) => match dec_opt_sampler_lighting_slots(p.1, n - 1) {
                Some(q) => Some((seq![p.0] + q.0, q.1)),
                None => None,
            },
            None => None,
        }
    }
}

pub proof fn lemma_rt_opt_sampler_lighting_slots(s: Seq<Option<SamplerLighting>>, rest: Seq<Token>)
    ensures
        dec_opt_sampler_lighting_slots(enc_opt_sampler_lighting_slots(s) + rest, s.len() as int) == Some((s, rest)),
    decreases s.len(),
{
    if s.len() == 0 {
        assert(enc_opt_sampler_lighting_slots(s) + rest =~= rest);
    } else {
        let tail = s.skip(1);
        assert(enc_opt_sampler_lighting_slots(s) + rest =~= enc_opt_sampler_lighting(s[0]) + (enc_opt_sampler_lighting_slots(tail) + rest));
        lemma_rt_opt_sampler_lighting(s[0], enc_opt_sampler_lighting_slots(tail) + rest);
        lemma_rt_opt_sampler_lighting_slots(tail, rest);
        assert(seq![s[0]] + tail =~= s);
    }
}

pub fn write_opt_sampler_lighting_slots(v: &Vec<Option<SamplerLighting>>, out: &mut Vec<Token>)
    ensures
        final(out)@ == old(out)@ + enc_opt_sampler_lighting_slots(v@),
{
    let ghost base = out@;
    let ghost m = v@;
    let mut k: usize = 0;
    proof {
        assert(m.skip(0) =~= m);
    }
    while k < v.len()
        invariant
            k <= v@.len(),
            m == v@,
            m.len() == v@.len(),
            out@ + enc_opt_sampler_lighting_slots(m.skip(k as int)) == base + enc_opt_sampler_lighting_slots(m),
        decreases v@.len() - k,
    {
        let ghost out0 = out@;
        write_opt_sampler_lighting(&v[k], out);
        proof {
            assert(m.skip(k as int).skip(1) =~= m.skip(k as int + 1));
            assert(m.skip(k as int)[0] == m[k as int]);
            assert(out0 + enc_opt_sampler_lighting(m[k as int]) + enc_opt_sampler_lighting_slots(m.skip(k as int + 1)) =~= out0 + (enc_opt_sampler_lighting(m[k as int]) + enc_opt_sampler_lighting_slots(m.skip(k as int + 1))));
        }
        k += 1;
    }
    proof {
        assert(enc_opt_sampler_lighting_slots(m.skip(v@.len() as int)) =~= Seq::empty());
        assert(out@ + Seq::<Token>::empty() =~= out@);
    }
}

#[verifier::loop_isolation(false)]
pub fn read_opt_sampler_lighting_slots(toks: &Vec<Token>, pos: &mut usize, n: usize) -> (r: Option<Vec<Option<SamplerLighting>>>)
    requires
        *old(pos) <= toks@.len(),
    ensures
        match dec_opt_sampler_lighting_slots(toks@.skip(*old(pos) as int), n as int) {
            Some(p) => {
                &&& r matches Some(v) && v@ == p.0
                &&& p.0.len() == n
                &&& *old(pos) <= *final(pos) <= toks@.len()
                &&& toks@.skip(*final(pos) as int) == p.1
            },
            None => r is None,
        },
{
    let ghost p0 = *pos as int;
    let mut acc: Vec<Option<SamplerLighting>> = Vec::new();
    let mut k: usize = 0;
    while k < n
        invariant
            k <= n,
            p0 <= *pos as int,
            *pos <= toks@.len(),
            acc@.len() == k,
            dec_opt_sampler_lighting_slots(toks@.skip(p0), n as int) == (match dec_opt_sampler_lighting_slots(
                toks@.skip(*pos as int),
                n as int - k as int,
            ) {
                Some(q) => Some::<(Seq<Option<SamplerLighting>>, Seq<Token>)>((acc@ + q.0, q.1)),
                None => None::<(Seq<Option<SamplerLighting>>, Seq<Token>)>,
            }),
        decreases n - k,
    {
        let ghost before = toks@.skip(*pos as int);
        match read_opt_sampler_lighting(toks, pos) {
            Some(x) => {
                proof {
                    if dec_opt_sampler_lighting_slots(before, n as int - k as int) matches Some(q) {
                        let qq = dec_opt_sampler_lighting_slots(toks@.skip(*pos as int), n as int - k as int - 1);
                        assert(acc@ + (seq![x] + qq->Some_0.0) =~= acc@.push(x) + qq->Some_0.0);
                    }
                    assert(acc@.push(x) =~= acc@.push(x));
                }
                acc.push(x);
                k += 1;
            },
            None => {
                return None;
            },
        }
    }
    proof {
        assert(dec_opt_sampler_lighting_slots(toks@.skip(*pos as int), 0) == Some::<(Seq<Option<SamplerLighting>>, Seq<Token>)>((
            Seq::empty(),
            toks@.skip(*pos as int),
        )));
        assert(acc@ + Seq::<Option<SamplerLighting>>::empty() =~= acc@);
    }
    Some(acc)
}

pub open spec fn enc_opt_three_colours_slots(s: Seq<Option<ThreeColours>>) -> Seq<Token>
    decreases s.len(),
{
    if s.len() == 0 {
        Seq::empty()
    } else {
        enc_opt_three_colours(s[0]) + enc_opt_three_colours_slots(s.skip(1))
    }
}

pub open spec fn dec_opt_three_colours_slots(s: Seq<Token>, n: int) -> Option<(Seq<Option<ThreeColours>>, Seq<Token>)>
    decreases n,
{
    if n <= 0 {
        Some((Seq::empty(), s))
    } else {
        match dec_opt_three_colours(s) {
            Some(p) => match dec_opt_three_colours_slots(p.1, n - 1) {
                Some(q) => Some((seq![p.0] + q.0, q.1)),
                None => None,
            },
            None => None,
        }
    }
}

pub proof fn lemma_rt_opt_three_colours_slots(s: Seq<Option<ThreeColours>>, rest: Seq<Token>)
    ensures
        dec_opt_three_colours_slots(enc_opt_three_colours_slots(s) + rest, s.len() as int) == Some((s, rest)),
    decreases s.len(),
{
    if s.len() == 0 {
        assert(enc_opt_three_colours_slots(s) + rest =~= rest);
    } else {
        let tail = s.skip(1);
        assert(enc_opt_three_colours_slots(s) + rest =~= enc_opt_three_colours(s[0]) + (enc_opt_three_colours_slots(tail) + rest));
        lemma_rt_opt_three_colours(s[0], enc_opt_three_colours_slots(tail) + rest);
        lemma_rt_opt_three_colours_slots(tail, rest);
        assert(seq![s[0]] + tail =~= s);
    }
}

pub fn write_opt_three_colours_slots(v: &Vec<Option<ThreeColours>>, out: &mut Vec<Token>)
    ensures
        final(out)@ == old(out)@ + enc_opt_three_colours_slots(v@),
{
    let ghost base = out@;
    let ghost m = v@;
    let mut k: usize = 0;
    proof {
        assert(m.skip(0) =~= m);
    }
    while k < v.len()
        invariant
            k <= v@.len(),
            m == v@,
            m.len() == v@.len(),
            out@ + enc_opt_three_colours_slots(m.skip(k as int)) == base + enc_opt_three_colours_slots(m),
        decreases v@.len() - k,
    {
        let ghost out0 = out@;
        write_opt_three_colours(&v[k], out);
        proof {
            assert(m.skip(k as int).skip(1) =~= m.skip(k as int + 1));
            assert(m.skip(k as int)[0] == m[k as int]);
            assert(out0 + enc_opt_three_colours(m[k as int]) + enc_opt_three_colours_slots(m.skip(k as int + 1)) =~= out0 + (enc_opt_three_colours(m[k as int]) + enc_opt_three_colours_slots(m.skip(k as int + 1))));
        }
        k += 1;
    }
    proof {
        assert(enc_opt_three_colours_slots(m.skip(v@.len() as int)) =~= Seq::empty());
        assert(out@ + Seq::<Token>::empty() =~= out@);
    }
}

#[verifier::loop_isolation(false)]
pub fn read_opt_three_colours_slots(toks: &Vec<Token>, pos: &mut usize, n: usize) -> (r: Option<Vec<Option<ThreeColours>>>)
    requires
        *old(pos) <= toks@.len(),
    ensures
        match dec_opt_three_colours_slots(toks@.skip(*old(pos) as int), n as int) {
            Some(p) => {
                &&& r matches Some(v) && v@ == p.0
                &&& p.0.len() == n
                &&& *old(pos) <= *final(pos) <= toks@.len()
                &&& toks@.skip(*final(pos) as int) == p.1
            },
            None => r is None,
        },
{
    let ghost p0 = *pos as int;
    let mut acc: Vec<Option<ThreeColours>> = Vec::new();
    let mut k: usize = 0;
    while k < n
        invariant
            k <= n,
            p0 <= *pos as int,
            *pos <= toks@.len(),
            acc@.len() == k,
            dec_opt_three_colours_slots(toks@.skip(p0), n as int) == (match dec_opt_three_colours_slots(
                toks@.skip(*pos as int),
                n as int - k as int,
            ) {
                Some(q) => Some::<(Seq<Option<ThreeColours>>, Seq<Token>)>((acc@ + q.0, q.1)),
                None => None::<(Seq<Option<ThreeColours>>, Seq<Token>)>,
            }),
        decreases n - k,
    {
        let ghost before = toks@.skip(*pos as int);
        match read_opt_three_colours(toks, pos) {
            Some(x) => {
                proof {
                    if dec_opt_three_colours_slots(before, n as int - k as int) matches Some(q) {
                        let qq = dec_opt_three_colours_slots(toks@.skip(*pos as int), n as int - k as int - 1);
                        assert(acc@ + (seq![x] + qq->Some_0.0) =~= acc@.push(x) + qq->Some_0.0);
                    }
                    assert(acc@.push(x) =~= acc@.push(x));
                }
                acc.push(x);
                k += 1;
            },
            None => {
                return None;
            },
        }
    }
    proof {
        assert(dec_opt_three_colours_slots(toks@.skip(*pos as int), 0) == Some::<(Seq<Option<ThreeColours>>, Seq<Token>)>((
            Seq::empty(),
            toks@.skip(*pos as int),
        )));
        assert(acc@ + Seq::<Option<ThreeColours>>::empty() =~= acc@);
    }
    Some(acc)
}

pub open spec fn enc_lighting(m: LightingV) -> Seq<Token> {
    enc_opt_fader_lighting_slots(m.faders) + enc_opt_button_lighting_slots(m.buttons)
        + enc_opt_one_colour_slots(m.simple) + enc_opt_sampler_lighting_slots(m.sampler)
        + enc_opt_three_colours_slots(m.encoders)
}

pub open spec fn dec_lighting(s: Seq<Token>) -> Option<(LightingV, Seq<Token>)> {
    match dec_opt_fader_lighting_slots(s, FADER_COUNT as int) {
        Some(p0) => match dec_opt_button_lighting_slots(p0.1, BUTTON_TARGET_COUNT as int) {
            Some(p1) => match dec_opt_one_colour_slots(p1.1, SIMPLE_TARGET_COUNT as int) {
                Some(p2) => match dec_opt_sampler_lighting_slots(p2.1, SAMPLER_TARGET_COUNT as int) {
                    Some(p3) => match dec_opt_three_colours_slots(p3.1, ENCODER_TARGET_COUNT as int) {
                        Some(p4) => Some((
                            LightingV {
                                faders: p0.0,
                                buttons: p1.0,
                                simple: p2.0,
                                sampler: p3.0,
                                encoders: p4.0,
                            },
                            p4.1,
                        )),
                        None => None,
                    },
                    None => None,
                },
                None => None,
            },
            None => None,
        },
        None => None,
    }
}

pub proof fn lemma_rt_lighting(m: LightingV, rest: Seq<Token>)
    requires
        m.wf(),
    ensures
        dec_lighting(enc_lighting(m) + rest) == Some((m, rest)),
{
    let t5 = rest;
    let t4 = enc_opt_three_colours_slots(m.encoders) + t5;
    let t3 = enc_opt_sampler_lighting_slots(m.sampler) + t4;
    let t2 = enc_opt_one_colour_slots(m.simple) + t3;
    let t1 = enc_opt_button_lighting_slots(m.buttons) + t2;
    let t0 = enc_opt_fader_lighting_slots(m.faders) + t1;
    assert(enc_lighting(m) + rest =~= t0);
    lemma_rt_opt_fader_lighting_slots(m.faders, t1);
    lemma_rt_opt_button_lighting_slots(m.buttons, t2);
    lemma_rt_opt_one_colour_slots(m.simple, t3);
    lemma_rt_opt_sampler_lighting_slots(m.sampler, t4);
    lemma_rt_opt_three_colours_slots(m.encoders, t5);
}

pub fn write_lighting(v: &Lighting, out: &mut Vec<Token>)
    ensures
        final(out)@ == old(out)@ + enc_lighting(v@),
{
    write_opt_fader_lighting_slots(&v.faders, out);
    write_opt_button_lighting_slots(&v.buttons, out);
    write_opt_one_colour_slots(&v.simple, out);
    write_opt_sampler_lighting_slots(&v.sampler, out);
    write_opt_three_colours_slots(&v.encoders, out);
    assert(out@ =~= old(out)@ + enc_lighting(v@));
}

pub fn read_lighting(toks: &Vec<Token>, pos: &mut usize) -> (r: Option<Lighting>)
    requires
        *old(pos) <= toks@.len(),
    ensures
        match dec_lighting(toks@.skip(*old(pos) as int)) {
            Some(p) => {
                &&& r matches Some(v) && v@ == p.0 && v.wf()
                &&& *old(pos) <= *final(pos) <= toks@.len()
                &&& toks@.skip(*final(pos) as int) == p.1
            },
            None => r is None,
        },
{
    let faders = match read_opt_fader_lighting_slots(toks, pos, FADER_COUNT) {
        Some(x) => x,
        None => {
            return None;
        },
    };
    let buttons = match read_opt_button_lighting_slots(toks, pos, BUTTON_TARGET_COUNT) {
        Some(x) => x,
        None => {
            return None;
        },
    };
    let simple = match read_opt_one_colour_slots(toks, pos, SIMPLE_TARGET_COUNT) {
        Some(x) => x,
        None => {
            return None;
        },
    };
    let sampler = match read_opt_sampler_lighting_slots(toks, pos, SAMPLER_TARGET_COUNT) {
        Some(x) => x,
        None => {
            return None;
        },
    };
    let encoders = match read_opt_three_colours_slots(toks, pos, ENCODER_TARGET_COUNT) {
        Some(x) => x,
        None => {
            return None;
        },
    };
    Some(Lighting { faders, buttons, simple, sampler, encoders })
}

} // verus!
