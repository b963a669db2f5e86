//! The sampler: banks of user-assignable sample buttons.
//!
//! Present only on devices whose variant carries a sampler; the whole record
//! is an optional substructure of a mixer's status.  Bank and button
//! identifiers address a single fixed table with one slot per pair; an empty
//! slot means the button has not been assigned.

use vstd::prelude::*;

use crate::ids::{
    EnumIndex, SampleBank, SampleButtons, SamplePlayOrder, SamplePlaybackMode, SAMPLE_BANK_COUNT,
    SAMPLE_BUTTON_COUNT,
};
use crate::wire;
use crate::wire::Token;

verus! {

/// One slot per (bank, button) pair.
pub const BANK_SLOT_COUNT: usize = 12;

/// The position of a (bank, button) pair in the sampler table.
pub open spec fn bank_slot_spec(bank: SampleBank, button: SampleButtons) -> int {
    bank.index_spec() * SAMPLE_BUTTON_COUNT + button.index_spec()
}

/// Every (bank, button) pair addresses a slot inside the table.
pub proof fn lemma_bank_slot_in_range(bank: SampleBank, button: SampleButtons)
    ensures
        0 <= bank_slot_spec(bank, button) < BANK_SLOT_COUNT,
{
    bank.lemma_index_roundtrip();
    button.lemma_index_roundtrip();
}

pub fn bank_slot(bank: SampleBank, button: SampleButtons) -> (r: usize)
    ensures
        r == bank_slot_spec(bank, button),
        r < BANK_SLOT_COUNT,
{
    proof {
        lemma_bank_slot_in_range(bank, button);
    }
    bank.index() * SAMPLE_BUTTON_COUNT + button.index()
}

/// One clip assigned to a button: a name and start/stop markers into the
/// source audio, in hundredths of a percent.
#[derive(Debug, Clone, PartialEq)]
pub struct Sample {
    pub name: String,
    pub start_pct: u16,
    pub stop_pct: u16,
}

/// One assigned sampler button.
#[derive(Debug, Clone, PartialEq)]
pub struct SamplerButton {
    pub function: SamplePlaybackMode,
    pub order: SamplePlayOrder,
    pub samples: Vec<Sample>,
    pub is_playing: bool,
}

/// The mathematical model of a `SamplerButton`.
pub struct SamplerButtonV {
    pub function: SamplePlaybackMode,
    pub order: SamplePlayOrder,
    pub samples: Seq<Sample>,
    pub is_playing: bool,
}

impl View for SamplerButton {
    type V = SamplerButtonV;

    open spec fn view(&self) -> SamplerButtonV {
        SamplerButtonV {
            function: self.function,
            order: self.order,
            samples: self.samples@,
            is_playing: self.is_playing,
        }
    }
}

impl SamplerButtonV {
    /// The clip list is addressable: its length fits the machine.
    pub open spec fn wf(self) -> bool {
        self.samples.len() <= usize::MAX
    }
}

impl SamplerButton {
    pub open spec fn wf(self) -> bool {
        self@.wf()
    }
}

/// The sampler: a fixed table of optional button assignments.
#[derive(Debug, Clone, PartialEq)]
pub struct Sampler {
    pub banks: Vec<Option<SamplerButton>>,
}

/// The mathematical model of a `Sampler`.
pub struct SamplerV {
    pub banks: Seq<Option<SamplerButtonV>>,
}

impl View for Sampler {
    type V = SamplerV;

    open spec fn view(&self) -> SamplerV {
        SamplerV { banks: sampler_button_slot_views(self.banks@) }
    }
}

impl SamplerV {
    /// One slot per (bank, button) pair, each assigned button well-formed.
    pub open spec fn wf(self) -> bool {
        &&& self.banks.len() == BANK_SLOT_COUNT
        &&& forall|i: int|
            0 <= i < BANK_SLOT_COUNT ==> (match #[trigger] self.banks[i] {
                Some(b) => b.wf(),
                None => true,
            })
    }
}

impl Sampler {
    pub open spec fn wf(self) -> bool {
        self@.wf()
    }

    /// A sampler with every button unassigned.
    pub fn unassigned() -> (r: Sampler)
        ensures
            r.wf(),
            forall|i: int| 0 <= i < BANK_SLOT_COUNT ==> r@.banks[i] is None,
    {
        let banks = crate::util::vec_of_none(BANK_SLOT_COUNT);
        let r = Sampler { banks };
        proof {
            assert(forall|i: int| 0 <= i < BANK_SLOT_COUNT ==> r@.banks[i] is None);
        }
        r
    }

    /// The assignment of one button, if any.
    pub fn get_button(&self, bank: SampleBank, button: SampleButtons) -> (r: &Option<
        SamplerButton,
    >)
        requires
            self.wf(),
        ensures
            (match *r {
                Some(b) => self@.banks[bank_slot_spec(bank, button)] matches Some(m) && m == b@,
                None => self@.banks[bank_slot_spec(bank, button)] is None,
            }),
    {
        let i = bank_slot(bank, button);
        &self.banks[i]
    }

    /// Assign or clear one button.
    pub fn set_button(
        &mut self,
        bank: SampleBank,
        button: SampleButtons,
        value: Option<SamplerButton>,
    )
        requires
            old(self).wf(),
            value matches Some(b) ==> b.wf(),
        ensures
            final(self).wf(),
            final(self)@.banks == old(self)@.banks.update(
                bank_slot_spec(bank, button),
                match value {
                    Some(b) => Some(b@),
                    None => None,
                },
            ),
    {
        let i = bank_slot(bank, button);
        let ghost mv: Option<SamplerButtonV> = match &value {
            Some(b) => Some(b@),
            None => None,
        };
        self.banks[i] = value;
        proof {
            assert(final(self)@.banks =~= old(self)@.banks.update(
                bank_slot_spec(bank, button),
                mv,
            ));
        }
    }
}

pub open spec fn enc_sample(v: Sample) -> Seq<Token> {
    wire::enc_text(v.name) + wire::enc_u16(v.start_pct) + wire::enc_u16(v.stop_pct)
}

pub open spec fn dec_sample(s: Seq<Token>) -> Option<(Sample, Seq<Token>)> {
    match wire::dec_text(s) {
        Some(p0) => 
        match wire::dec_u16(p0.1) {
            Some(p1) => 
            match wire::dec_u16(p1.1) {
                Some(p2) => 
                Some((Sample { name: p0.0, start_pct: p1.0, stop_pct: p2.0 }, p2.1)),
                None => None,
            },
            None => None,
        },
        None => None,
    }
}

pub proof fn lemma_rt_sample(v: Sample, rest: Seq<Token>)
    ensures
        dec_sample(enc_sample(v) + rest) == Some((v, rest)),
{
    let e0 = wire::enc_text(v.name);
    let e1 = wire::enc_u16(v.start_pct);
    let e2 = wire::enc_u16(v.stop_pct);
    let t3 = rest;
    let t2 = e2 + t3;
    let t1 = e1 + t2;
    let t0 = e0 + t1;
    wire::lemma_assoc(e0 + e1, e2, t3);
    wire::lemma_assoc(e0, e1, t2);
    assert(enc_sample(v) + rest == t0);
    wire::lemma_rt_text(v.name, t1);
    wire::lemma_rt_u16(v.start_pct, t2);
    wire::lemma_rt_u16(v.stop_pct, t3);
}

pub fn write_sample(v: &Sample, out: &mut Vec<Token>)
    ensures
        final(out)@ == old(out)@ + enc_sample(*v),
{
    wire::write_text(&v.name, out);
    wire::write_u16(v.start_pct, out);
    wire::write_u16(v.stop_pct, out);
    assert(out@ =~= old(out)@ + enc_sample(*v));
}

pub fn read_sample(toks: &Vec<Token>, pos: &mut usize) -> (r: Option<Sample>)
    requires
        *old(pos) <= toks@.len(),
    ensures
        match dec_sample(toks@.skip(*old(pos) as int)) {
            Some(p) => {
                &&& r == Some(p.0)
                &&& *old(pos) <= *final(pos) <= toks@.len()
                &&& toks@.skip(*final(pos) as int) == p.1
            },
            None => r is None,
        },
{
    let name: String = match wire::read_text(toks, pos) {
        Some(x) => x,
        None => {
            return None;
        },
    };
    let start_pct: u16 = match wire::read_u16(toks, pos) {
        Some(x) => x,
        None => {
            return None;
        },
    };
    let stop_pct: u16 = match wire::read_u16(toks, pos) {
        Some(x) => x,
        None => {
            return None;
        },
    };
    Some(Sample { name, start_pct, stop_pct })
}

pub open spec fn enc_samples(s: Seq<Sample>) -> Seq<Token>
    decreases s.len(),
{
    if s.len() == 0 {
        Seq::empty()
    } else {
        enc_sample(s[0]) + enc_samples(s.skip(1))
    }
}

pub open spec fn dec_samples(s: Seq<Token>, n: int) -> Option<(Seq<Sample>, Seq<Token>)>
    decreases n,
{
    if n <= 0 {
        Some((Seq::empty(), s))
    } else {
        match dec_sample(s) {
            Some(p) => match dec_samples(p.1, n - 1) {
                Some(q) => Some((seq![p.0] + q.0, q.1)),
                None => None,
            },
            None => None,
        }
    }
}

pub proof fn lemma_rt_samples(s: Seq<Sample>, rest: Seq<Token>)
    ensures
        dec_samples(enc_samples(s) + rest, s.len() as int) == Some((s, rest)),
    decreases s.len(),
{
    if s.len() == 0 {
        assert(enc_samples(s) + rest =~= rest);
    } else {
        let tail = s.skip(1);
        assert(enc_samples(s) + rest =~= enc_sample(s[0]) + (enc_samples(tail) + rest));
        lemma_rt_sample(s[0], enc_samples(tail) + rest);
        lemma_rt_samples(tail, rest);
        assert(seq![s[0]] + tail =~= s);
    }
}

pub fn write_samples(v: &Vec<Sample>, out: &mut Vec<Token>)
    ensures
        final(out)@ == old(out)@ + enc_samples(v@),
{
    let ghost base = out@;
    let ghost m = v@;
    let mut k: usize = 0;
    proof {
        assert(m.skip(0) =~= m);
    }
    while k < v.len()
        invariant
            k <= v@.len(),
            m == v@,
            m.len() == v@.len(),
            out@ + enc_samples(m.skip(k as int)) == base + enc_samples(m),
        decreases v@.len() - k,
    {
        let ghost out0 = out@;
        write_sample(&v[k], out);
        proof {
            assert(m.skip(k as int).skip(1) =~= m.skip(k as int + 1));
            assert(m.skip(k as int)[0] == m[k as int]);
            assert(out0 + enc_sample(m[k as int]) + enc_samples(m.skip(k as int + 1)) =~= out0 + (enc_sample(m[k as int]) + enc_samples(m.skip(k as int + 1))));
        }
        k += 1;
    }
    proof {
        assert(enc_samples(m.skip(v@.len() as int)) =~= Seq::empty());
        assert(out@ + Seq::<Token>::empty() =~= out@);
    }
}

#[verifier::loop_isolation(false)]
pub fn read_samples(toks: &Vec<Token>, pos: &mut usize, n: usize) -> (r: Option<Vec<Sample>>)
    requires
        *old(pos) <= toks@.len(),
    ensures
        match dec_samples(toks@.skip(*old(pos) as int), n as int) {
            Some(p) => {
                &&& r matches Some(v) && v@ == p.0
                &&& p.0.len() == n
                &&& *old(pos) <= *final(pos) <= toks@.len()
                &&& toks@.skip(*final(pos) as int) == p.1
            },
            None => r is None,
        },
{
    let ghost p0 = *pos as int;
    let mut acc: Vec<Sample> = Vec::new();
    let mut k: usize = 0;
    while k < n
        invariant
            k <= n,
            p0 <= *pos as int,
            *pos <= toks@.len(),
            acc@.len() == k,
            dec_samples(toks@.skip(p0), n as int) == (match dec_samples(
                toks@.skip(*pos as int),
                n as int - k as int,
            ) {
                Some(q) => Some::<(Seq<Sample>, Seq<Token>)>((acc@ + q.0, q.1)),
                None => None::<(Seq<Sample>, Seq<Token>)>,
            }),
        decreases n - k,
    {
        let ghost before = toks@.skip(*pos as int);
        match read_sample(toks, pos) {
            Some(x) => {
                proof {
                    if dec_samples(before, n as int - k as int) matches Some(q) {
                        let qq = dec_samples(toks@.skip(*pos as int), n as int - k as int - 1);
                        assert(acc@ + (seq![x] + qq->Some_0.0) =~= acc@.push(x) + qq->Some_0.0);
                    }
                    assert(acc@.push(x) =~= acc@.push(x));
                }
                acc.push(x);
                k += 1;
            },
            None => {
                return None;
            },
        }
    }
    proof {
        assert(dec_samples(toks@.skip(*pos as int), 0) == Some::<(Seq<Sample>, Seq<Token>)>((
            Seq::empty(),
            toks@.skip(*pos as int),
        )));
        assert(acc@ + Seq::<Sample>::empty() =~= acc@);
    }
    Some(acc)
}

pub open spec fn enc_sampler_button(m: SamplerButtonV) -> Seq<Token> {
    wire::enc_id(m.function) + wire::enc_id(m.order) + wire::enc_u64(m.samples.len() as u64)
        + enc_samples(m.samples) + wire::enc_bool(m.is_playing)
}

pub open spec fn dec_sampler_button(s: Seq<Token>) -> Option<(SamplerButtonV, Seq<Token>)> {
    match wire::dec_id::<SamplePlaybackMode>(s) {
        Some(p0) => match wire::dec_id::<SamplePlayOrder>(p0.1) {
            Some(p1) => match wire::dec_u64(p1.1) {
                Some(p2) => if p2.0 <= usize::MAX as u64 {
                    match dec_samples(p2.1, p2.0 as int) {
                        Some(p3) => match wire::dec_bool(p3.1) {
                            Some(p4) => Some((
                                SamplerButtonV {
                                    function: p0.0,
                                    order: p1.0,
                                    samples: p3.0,
                                    is_playing: p4.0,
                                },
                                p4.1,
                            )),
                            None => None,
                        },
                        None => None,
                    }
                } else {
                    None
                },
                None => None,
            },
            None => None,
        },
        None => None,
    }
}

pub proof fn lemma_rt_sampler_button(m: SamplerButtonV, rest: Seq<Token>)
    requires
        m.wf(),
    ensures
        dec_sampler_button(enc_sampler_button(m) + rest) == Some((m, rest)),
{
    let e0 = wire::enc_id(m.function);
    let e1 = wire::enc_id(m.order);
    let e2 = wire::enc_u64(m.samples.len() as u64);
    let e3 = enc_samples(m.samples);
    let e4 = wire::enc_bool(m.is_playing);
    let t5 = rest;
    let t4 = e4 + t5;
    let t3 = e3 + t4;
    let t2 = e2 + t3;
    let t1 = e1 + t2;
    let t0 = e0 + t1;
    wire::lemma_assoc(e0 + e1 + e2 + e3, e4, t5);
    wire::lemma_assoc(e0 + e1 + e2, e3, t4);
    wire::lemma_assoc(e0 + e1, e2, t3);
    wire::lemma_assoc(e0, e1, t2);
    assert(enc_sampler_button(m) + rest == t0);
    wire::lemma_rt_id(m.function, t1);
    wire::lemma_rt_id(m.order, t2);
    wire::lemma_rt_u64(m.samples.len() as u64, t3);
    lemma_rt_samples(m.samples, t4);
    wire::lemma_rt_bool(m.is_playing, t5);
}

pub fn write_sampler_button(v: &SamplerButton, out: &mut Vec<Token>)
    ensures
        final(out)@ == old(out)@ + enc_sampler_button(v@),
{
    wire::write_id(v.function, out);
    wire::write_id(v.order, out);
    wire::write_u64(v.samples.len() as u64, out);
    write_samples(&v.samples, out);
    wire::write_bool(v.is_playing, out);
    assert(out@ =~= old(out)@ + enc_sampler_button(v@));
}

pub fn read_sampler_button(toks: &Vec<Token>, pos: &mut usize) -> (r: Option<SamplerButton>)
    requires
        *old(pos) <= toks@.len(),
    ensures
        match dec_sampler_button(toks@.skip(*old(pos) as int)) {
            Some(p) => {
                &&& r matches Some(v) && v@ == p.0 && v.wf()
                &&& *old(pos) <= *final(pos) <= toks@.len()
                &&& toks@.skip(*final(pos) as int) == p.1
            },
            None => r is None,
        },
{
    let function: SamplePlaybackMode = match wire::read_id(toks, pos) {
        Some(x) => x,
        None => {
            return None;
        },
    };
    let order: SamplePlayOrder = match wire::read_id(toks, pos) {
        Some(x) => x,
        None => {
            return None;
        },
    };
    let count = match wire::read_u64(toks, pos) {
        Some(x) => x,
        None => {
            return None;
        },
    };
    if count > usize::MAX as u64 {
        return None;
    }
    let samples = match read_samples(toks, pos, count as usize) {
        Some(x) => x,
        None => {
            return None;
        },
    };
    let is_playing = match wire::read_bool(toks, pos) {
        Some(x) => x,
        None => {
            return None;
        },
    };
    Some(SamplerButton { function, order, samples, is_playing })
}

pub open spec fn enc_opt_sampler_button(v: Option<SamplerButtonV>) -> Seq<Token> {
    match v {
        None => seq![Token::Absent],
        Some(x) => seq![Token::Present] + enc_sampler_button(x),
    }
}

pub open spec fn dec_opt_sampler_button(s: Seq<Token>) -> Option<(Option<SamplerButtonV>, Seq<Token>)> {
    if s.len() >= 1 {
        match s[0] {
            Token::Absent => Some((None, s.skip(1))),
            Token::Present => match dec_sampler_button(s.skip(1)) {
                Some(p) => Some((Some(p.0), p.1)),
                None => None,
            },
            _ => None,
        }
    } else {
        None
    }
}

pub proof fn lemma_rt_opt_sampler_button(v: Option<SamplerButtonV>, rest: Seq<Token>)
    requires
        v matches Some(x) ==> x.wf(),
    ensures
        dec_opt_sampler_button(enc_opt_sampler_button(v) + rest) == Some((v, rest)),
{
    match v {
        None => {
            assert((enc_opt_sampler_button(v) + rest).skip(1) =~= rest);
        },
        Some(x) => {
            assert((enc_opt_sampler_button(v) + rest).skip(1) =~= enc_sampler_button(x) + rest);
            lemma_rt_sampler_button(x, rest);
        },
    }
}

pub fn write_opt_sampler_button(v: &Option<SamplerButton>, out: &mut Vec<Token>)
    ensures
        final(out)@ == old(out)@ + enc_opt_sampler_button(match *v { Some(x) => Some(x@), None => None::<SamplerButtonV> }),
{
    match v {
        None => {
            out.push(Token::Absent);
            assert(out@ =~= old(out)@ + enc_opt_sampler_button(match *v { Some(x) => Some(x@), None => None::<SamplerButtonV> }));
        },
        Some(x) => {
            out.push(Token::Present);
            write_sampler_button(x, out);
            assert(out@ =~= old(out)@ + enc_opt_sampler_button(match *v { Some(x) => Some(x@), None => None::<SamplerButtonV> }));
        },
    }
}

pub fn read_opt_sampler_button(toks: &Vec<Token>, pos: &mut usize) -> (r: Option<Option<SamplerButton>>)
    requires
        *old(pos) <= toks@.len(),
    ensures
        match dec_opt_sampler_button(toks@.skip(*old(pos) as int)) {
            Some(p) => {
                &&& r matches Some(q) && (match q { Some(x) => p.0 matches Some(y) && x@ == y && x.wf(), None => p.0 is None })
                &&& *old(pos) <= *final(pos) <= toks@.len()
                &&& toks@.skip(*final(pos) as int) == p.1
            },
            None => r is None,
        },
{
    if *pos < toks.len() {
        let tag_is_absent: bool = match &toks[*pos] {
            Token::Absent => true,
            _ => false,
        };
        let tag_is_present: bool = match &toks[*pos] {
            Token::Present => true,
            _ => false,
        };
        if tag_is_absent {
            *pos += 1;
            assert(toks@.skip(*old(pos) as int).skip(1) =~= toks@.skip(*pos as int));
            Some(None)
        } else if tag_is_present {
            *pos += 1;
            assert(toks@.skip(*old(pos) as int).skip(1) =~= toks@.skip(*pos as int));
            match read_sampler_button(toks, pos) {
                Some(x) => Some(Some(x)),
                None => None,
            }
        } else {
            None
        }
    } else {
        None
    }
}

pub open spec fn sampler_button_slot_views(s: Seq<Option<SamplerButton>>) -> Seq<Option<SamplerButtonV>> {
    Seq::new(s.len(), |i: int| match s[i] { Some(x) => Some(x@), None => None })
}

pub open spec fn enc_sampler_button_slots(s: Seq<Option<SamplerButtonV>>) -> Seq<Token>
    decreases s.len(),
{
    if s.len() == 0 {
        Seq::empty()
    } else {
        enc_opt_sampler_button(s[0]) + enc_sampler_button_slots(s.skip(1))
    }
}

pub open spec fn dec_sampler_button_slots(s: Seq<Token>, n: int) -> Option<(Seq<Option<SamplerButtonV>>, Seq<Token>)>
    decreases n,
{
    if n <= 0 {
        Some((Seq::empty(), s))
    } else {
        match dec_opt_sampler_button(s) {
            Some(p) => match dec_sampler_button_slots(p.1, n - 1) {
                Some(q) => Some((seq![p.0] + q.0, q.1)),
                None => None,
            },
            None => None,
        }
    }
}

pub proof fn lemma_rt_sampler_button_slots(s: Seq<Option<SamplerButtonV>>, rest: Seq<Token>)
    requires
        forall|i: int| 0 <= i < s.len() ==> (match #[trigger] s[i] { Some(b) => b.wf(), None => true }),
    ensures
        dec_sampler_button_slots(enc_sampler_button_slots(s) + rest, s.len() as int) == Some((s, rest)),
    decreases s.len(),
{
    if s.len() == 0 {
        assert(enc_sampler_button_slots(s) + rest =~= rest);
    } else {
        let tail = s.skip(1);
        assert(forall|i: int| 0 <= i < tail.len() ==> (match #[trigger] tail[i] { Some(b) => b.wf(), None => true })) by {
            assert(forall|i: int| 0 <= i < tail.len() ==> tail[i] == s[i + 1]);
        }
        assert((match s[0] { Some(b) => b.wf(), None => true }));
        assert(enc_sampler_button_slots(s) + rest =~= enc_opt_sampler_button(s[0]) + (enc_sampler_button_slots(tail) + rest));
        lemma_rt_opt_sampler_button(s[0], enc_sampler_button_slots(tail) + rest);
        lemma_rt_sampler_button_slots(tail, rest);
        assert(seq![s[0]] + tail =~= s);
    }
}

pub fn write_sampler_button_slots(v: &Vec<Option<SamplerButton>>, out: &mut Vec<Token>)
    ensures
        final(out)@ == old(out)@ + enc_sampler_button_slots(sampler_button_slot_views(v@)),
{
    let ghost base = out@;
    let ghost m = sampler_button_slot_views(v@);
    let mut k: usize = 0;
    proof {
        assert(m.skip(0) =~= m);
    }
    while k < v.len()
        invariant
            k <= v@.len(),
            m == sampler_button_slot_views(v@),
            m.len() == v@.len(),
            out@ + enc_sampler_button_slots(m.skip(k as int)) == base + enc_sampler_button_slots(m),
        decreases v@.len() - k,
    {
        let ghost out0 = out@;
        write_opt_sampler_button(&v[k], out);
        proof {
            assert(m.skip(k as int).skip(1) =~= m.skip(k as int + 1));
            assert(m.skip(k as int)[0] == m[k as int]);
            assert(out0 + enc_opt_sampler_button(m[k as int]) + enc_sampler_button_slots(m.skip(k as int + 1)) =~= out0 + (enc_opt_sampler_button(m[k as int]) + enc_sampler_button_slots(m.skip(k as int + 1))));
        }
        k += 1;
    }
    proof {
        assert(enc_sampler_button_slots(m.skip(v@.len() as int)) =~= Seq::empty());
        assert(out@ + Seq::<Token>::empty() =~= out@);
    }
}

#[verifier::loop_isolation(false)]
pub fn read_sampler_button_slots(toks: &Vec<Token>, pos: &mut usize, n: usize) -> (r: Option<Vec<Option<SamplerButton>>>)
    requires
        *old(pos) <= toks@.len(),
    ensures
        match dec_sampler_button_slots(toks@.skip(*old(pos) as int), n as int) {
            Some(p) => {
                &&& r matches Some(v) && sampler_button_slot_views(v@) == p.0
                &&& p.0.len() == n
                &&& *old(pos) <= *final(pos) <= toks@.len()
                &&& toks@.skip(*final(pos) as int) == p.1
            },
            None => r is None,
        },
{
    let ghost p0 = *pos as int;
    let mut acc: Vec<Option<SamplerButton>> = Vec::new();
    let mut k: usize = 0;
    while k < n
        invariant
            k <= n,
            p0 <= *pos as int,
            *pos <= toks@.len(),
            acc@.len() == k,
            dec_sampler_button_slots(toks@.skip(p0), n as int) == (match dec_sampler_button_slots(
                toks@.skip(*pos as int),
                n as int - k as int,
            ) {
                Some(q) => Some::<(Seq<Option<SamplerButtonV>>, Seq<Token>)>((sampler_button_slot_views(acc@) + q.0, q.1)),
                None => None::<(Seq<Option<SamplerButtonV>>, Seq<Token>)>,
            }),
        decreases n - k,
    {
        let ghost before = toks@.skip(*pos as int);
        match read_opt_sampler_button(toks, pos) {
            Some(x) => {
                proof {
                    if dec_sampler_button_slots(before, n as int - k as int) matches Some(q) {
                        let qq = dec_sampler_button_slots(toks@.skip(*pos as int), n as int - k as int - 1);
                        assert(sampler_button_slot_views(acc@) + (seq![(match x { Some(b) => Some(b@), None => None::<SamplerButtonV> })] + qq->Some_0.0) =~= sampler_button_slot_views(acc@).push((match x { Some(b) => Some(b@), None => None::<SamplerButtonV> })) + qq->Some_0.0);
                    }
                    assert(sampler_button_slot_views(acc@.push(x)) =~= sampler_button_slot_views(acc@).push((match x { Some(b) => Some(b@), None => None::<SamplerButtonV> })));
                }
                acc.push(x);
                k += 1;
            },
            None => {
                return None;
            },
        }
    }
    proof {
        assert(dec_sampler_button_slots(toks@.skip(*pos as int), 0) == Some::<(Seq<Option<SamplerButtonV>>, Seq<Token>)>((
            Seq::empty(),
            toks@.skip(*pos as int),
        )));
        assert(sampler_button_slot_views(acc@) + Seq::<Option<SamplerButtonV>>::empty() =~= sampler_button_slot_views(acc@));
    }
    Some(acc)
}

pub open spec fn enc_sampler(m: SamplerV) -> Seq<Token> {
    enc_sampler_button_slots(m.banks)
}

pub open spec fn dec_sampler(s: Seq<Token>) -> Option<(SamplerV, Seq<Token>)> {
    match dec_sampler_button_slots(s, BANK_SLOT_COUNT as int) {
        Some(p) => Some((SamplerV { banks: p.0 }, p.1)),
        None => None,
    }
}

pub proof fn lemma_rt_sampler(m: SamplerV, rest: Seq<Token>)
    requires
        m.wf(),
    ensures
        dec_sampler(enc_sampler(m) + rest) == Some((m, rest)),
{
    lemma_rt_sampler_button_slots(m.banks, rest);
}

pub fn write_sampler(v: &Sampler, out: &mut Vec<Token>)
    ensures
        final(out)@ == old(out)@ + enc_sampler(v@),
{
    write_sampler_button_slots(&v.banks, out);
}

pub fn read_sampler(toks: &Vec<Token>, pos: &mut usize) -> (r: Option<Sampler>)
    requires
        *old(pos) <= toks@.len(),
    ensures
        match dec_sampler(toks@.skip(*old(pos) as int)) {
            Some(p) => {
                &&& r matches Some(v) && v@ == p.0
                &&& *old(pos) <= *final(pos) <= toks@.len()
                &&& toks@.skip(*final(pos) as int) == p.1
            },
            None => r is None,
        },
{
    let banks = match read_sampler_button_slots(toks, pos, BANK_SLOT_COUNT) {
        Some(x) => x,
        None => {
            return None;
        },
    };
    Some(Sampler { banks })
}

pub open spec fn enc_opt_sampler(v: Option<SamplerV>) -> Seq<Token> {
    match v {
        None => seq![Token::Absent],
        Some(x) => seq![Token::Present] + enc_sampler(x),
    }
}

pub open spec fn dec_opt_sampler(s: Seq<Token>) -> Option<(Option<SamplerV>, Seq<Token>)> {
    if s.len() >= 1 {
        match s[0] {
            Token::Absent => Some((None, s.skip(1))),
            Token::Present => match dec_sampler(s.skip(1)) {
                Some(p) => Some((Some(p.0), p.1)),
                None => None,
            },
            _ => None,
        }
    } else {
        None
    }
}

pub proof fn lemma_rt_opt_sampler(v: Option<SamplerV>, rest: Seq<Token>)
    requires
        v matches Some(x) ==> x.wf(),
    ensures
        dec_opt_sampler(enc_opt_sampler(v) + rest) == Some((v, rest)),
{
    match v {
        None => {
            assert((enc_opt_sampler(v) + rest).skip(1) =~= rest);
        },
        Some(x) => {
            assert((enc_opt_sampler(v) + rest).skip(1) =~= enc_sampler(x) + rest);
            lemma_rt_sampler(x, rest);
        },
    }
}

pub fn write_opt_sampler(v: &Option<Sampler>, out: &mut Vec<Token>)
    ensures
        final(out)@ == old(out)@ + enc_opt_sampler(match *v { Some(x) => Some(x@), None => None::<SamplerV> }),
{
    match v {
        None => {
            out.push(Token::Absent);
            assert(out@ =~= old(out)@ + enc_opt_sampler(match *v { Some(x) => Some(x@), None => None::<SamplerV> }));
        },
        Some(x) => {
            out.push(Token::Present);
            write_sampler(x, out);
            assert(out@ =~= old(out)@ + enc_opt_sampler(match *v { Some(x) => Some(x@), None => None::<SamplerV> }));
        },
    }
}

pub fn read_opt_sampler(toks: &Vec<Token>, pos: &mut usize) -> (r: Option<Option<Sampler>>)
    requires
        *old(pos) <= toks@.len(),
    ensures
        match dec_opt_sampler(toks@.skip(*old(pos) as int)) {
            Some(p) => {
                &&& r matches Some(q) && (match q { Some(x) => p.0 matches Some(y) && x@ == y, None => p.0 is None })
                &&& *old(pos) <= *final(pos) <= toks@.len()
                &&& toks@.skip(*final(pos) as int) == p.1
            },
            None => r is None,
        },
{
    if *pos < toks.len() {
        let tag_is_absent: bool = match &toks[*pos] {
            Token::Absent => true,
            _ => false,
        };
        let tag_is_present: bool = match &toks[*pos] {
            Token::Present => true,
            _ => false,
        };
        if tag_is_absent {
            *pos += 1;
            assert(toks@.skip(*old(pos) as int).skip(1) =~= toks@.skip(*pos as int));
            Some(None)
        } else if tag_is_present {
            *pos += 1;
            assert(toks@.skip(*old(pos) as int).skip(1) =~= toks@.skip(*pos as int));
            match read_sampler(toks, pos) {
                Some(x) => Some(Some(x)),
                None => None,
            }
        } else {
            None
        }
    } else {
        None
    }
}

} // verus!
