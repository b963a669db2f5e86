//! The token stream that carries a status tree across the process boundary.
//!
//! A serialized value is a sequence of self-describing tokens: tagged
//! integers, booleans, text, and presence markers for optional substructures.
//! Every record of the model contributes a `spec` encoder and decoder over
//! `Seq<Token>`, an executable writer and reader proved against them, and a
//! round-trip lemma; this module holds the primitives those are built from.
//!
//! Fixed-cardinality arrays are written positionally, without a length, in
//! enumeration order; variable-length collections carry an explicit count.
//! Optional substructures are written as a presence marker, so an absent
//! substructure is distinguishable on the wire from a present, defaulted one.

use vstd::prelude::*;

use crate::ids::EnumIndex;

verus! {

/// One element of the serialized form.
#[derive(Debug, Clone, PartialEq)]
pub enum Token {
    /// An unsigned quantity: a level, a count, or an identifier's position.
    Uint(u64),
    /// A signed quantity.
    Int(i64),
    /// A boolean flag.
    Flag(bool),
    /// A name, a colour code, or a path.
    Text(String),
    /// An optional value that is absent.
    Absent,
    /// Marks that an optional value follows.
    Present,
}

/// Concatenation of token runs is associative.
pub proof fn lemma_assoc(a: Seq<Token>, b: Seq<Token>, c: Seq<Token>)
    ensures
        (a + b) + c == a + (b + c),
{
    assert((a + b) + c =~= a + (b + c));
}

// ---------------------------------------------------------------------------
// u64
// ---------------------------------------------------------------------------

pub open spec fn enc_u64(v: u64) -> Seq<Token> {
    seq![Token::Uint(v)]
}

pub open spec fn dec_u64(s: Seq<Token>) -> Option<(u64, Seq<Token>)> {
    if s.len() >= 1 {
        match s[0] {
            Token::Uint(v) => Some((v, s.skip(1))),
            _ => None,
        }
    } else {
        None
    }
}

pub proof fn lemma_rt_u64(v: u64, rest: Seq<Token>)
    ensures
        dec_u64(enc_u64(v) + rest) == Some((v, rest)),
{
    assert((enc_u64(v) + rest).skip(1) =~= rest);
}

pub fn write_u64(v: u64, out: &mut Vec<Token>)
    ensures
        final(out)@ == old(out)@ + enc_u64(v),
{
    out.push(Token::Uint(v));
    assert(out@ =~= old(out)@ + enc_u64(v));
}

pub fn read_u64(toks: &Vec<Token>, pos: &mut usize) -> (r: Option<u64>)
    requires
        *old(pos) <= toks@.len(),
    ensures
        match dec_u64(toks@.skip(*old(pos) as int)) {
            Some(p) => {
                &&& r == Some(p.0)
                &&& *old(pos) <= *final(pos) <= toks@.len()
                &&& toks@.skip(*final(pos) as int) == p.1
            },
            None => r is None && *final(pos) == *old(pos),
        },
{
    if *pos < toks.len() {
        let t = &toks[*pos];
        match t {
            Token::Uint(v) => {
                let r = *v;
                *pos += 1;
                assert(toks@.skip(*old(pos) as int).skip(1) =~= toks@.skip(*pos as int));
                Some(r)
            },
            _ => None,
        }
    } else {
        None
    }
}

// ---------------------------------------------------------------------------
// u8, u16, u32: unsigned quantities carried as bounded u64 tokens
// ---------------------------------------------------------------------------

pub open spec fn enc_u8(v: u8) -> Seq<Token> {
    seq![Token::Uint(v as u64)]
}

pub open spec fn dec_u8(s: Seq<Token>) -> Option<(u8, Seq<Token>)> {
    if s.len() >= 1 {
        match s[0] {
            Token::Uint(v) => if v <= u8::MAX as u64 {
                Some(((v as u8), s.skip(1)))
            } else {
                None
            },
            _ => None,
        }
    } else {
        None
    }
}

pub proof fn lemma_rt_u8(v: u8, rest: Seq<Token>)
    ensures
        dec_u8(enc_u8(v) + rest) == Some((v, rest)),
{
    assert((enc_u8(v) + rest).skip(1) =~= rest);
}

pub fn write_u8(v: u8, out: &mut Vec<Token>)
    ensures
        final(out)@ == old(out)@ + enc_u8(v),
{
    out.push(Token::Uint(v as u64));
    assert(out@ =~= old(out)@ + enc_u8(v));
}

pub fn read_u8(toks: &Vec<Token>, pos: &mut usize) -> (r: Option<u8>)
    requires
        *old(pos) <= toks@.len(),
    ensures
        match dec_u8(toks@.skip(*old(pos) as int)) {
            Some(p) => {
                &&& r == Some(p.0)
                &&& *old(pos) <= *final(pos) <= toks@.len()
                &&& toks@.skip(*final(pos) as int) == p.1
            },
            None => r is None && *final(pos) == *old(pos),
        },
{
    if *pos < toks.len() {
        let t = &toks[*pos];
        match t {
            Token::Uint(v) => {
                if *v <= u8::MAX as u64 {
                    let r = *v as u8;
                    *pos += 1;
                    assert(toks@.skip(*old(pos) as int).skip(1) =~= toks@.skip(*pos as int));
                    Some(r)
                } else {
                    None
                }
            },
            _ => None,
        }
    } else {
        None
    }
}

pub open spec fn enc_u16(v: u16) -> Seq<Token> {
    seq![Token::Uint(v as u64)]
}

pub open spec fn dec_u16(s: Seq<Token>) -> Option<(u16, Seq<Token>)> {
    if s.len() >= 1 {
        match s[0] {
            Token::Uint(v) => if v <= u16::MAX as u64 {
                Some(((v as u16), s.skip(1)))
            } else {
                None
            },
            _ => None,
        }
    } else {
        None
    }
}

pub proof fn lemma_rt_u16(v: u16, rest: Seq<Token>)
    ensures
        dec_u16(enc_u16(v) + rest) == Some((v, rest)),
{
    assert((enc_u16(v) + rest).skip(1) =~= rest);
}

pub fn write_u16(v: u16, out: &mut Vec<Token>)
    ensures
        final(out)@ == old(out)@ + enc_u16(v),
{
    out.push(Token::Uint(v as u64));
    assert(out@ =~= old(out)@ + enc_u16(v));
}

pub fn read_u16(toks: &Vec<Token>, pos: &mut usize) -> (r: Option<u16>)
    requires
        *old(pos) <= toks@.len(),
    ensures
        match dec_u16(toks@.skip(*old(pos) as int)) {
            Some(p) => {
                &&& r == Some(p.0)
                &&& *old(pos) <= *final(pos) <= toks@.len()
                &&& toks@.skip(*final(pos) as int) == p.1
            },
            None => r is None && *final(pos) == *old(pos),
        },
{
    if *pos < toks.len() {
        let t = &toks[*pos];
        match t {
            Token::Uint(v) => {
                if *v <= u16::MAX as u64 {
                    let r = *v as u16;
                    *pos += 1;
                    assert(toks@.skip(*old(pos) as int).skip(1) =~= toks@.skip(*pos as int));
                    Some(r)
                } else {
                    None
                }
            },
            _ => None,
        }
    } else {
        None
    }
}

pub open spec fn enc_u32(v: u32) -> Seq<Token> {
    seq![Token::Uint(v as u64)]
}

pub open spec fn dec_u32(s: Seq<Token>) -> Option<(u32, Seq<Token>)> {
    if s.len() >= 1 {
        match s[0] {
            Token::Uint(v) => if v <= u32::MAX as u64 {
                Some(((v as u32), s.skip(1)))
            } else {
                None
            },
            _ => None,
        }
    } else {
        None
    }
}

pub proof fn lemma_rt_u32(v: u32, rest: Seq<Token>)
    ensures
        dec_u32(enc_u32(v) + rest) == Some((v, rest)),
{
    assert((enc_u32(v) + rest).skip(1) =~= rest);
}

pub fn write_u32(v: u32, out: &mut Vec<Token>)
    ensures
        final(out)@ == old(out)@ + enc_u32(v),
{
    out.push(Token::Uint(v as u64));
    assert(out@ =~= old(out)@ + enc_u32(v));
}

pub fn read_u32(toks: &Vec<Token>, pos: &mut usize) -> (r: Option<u32>)
    requires
        *old(pos) <= toks@.len(),
    ensures
        match dec_u32(toks@.skip(*old(pos) as int)) {
            Some(p) => {
                &&& r == Some(p.0)
                &&& *old(pos) <= *final(pos) <= toks@.len()
                &&& toks@.skip(*final(pos) as int) == p.1
            },
            None => r is None && *final(pos) == *old(pos),
        },
{
    if *pos < toks.len() {
        let t = &toks[*pos];
        match t {
            Token::Uint(v) => {
                if *v <= u32::MAX as u64 {
                    let r = *v as u32;
                    *pos += 1;
                    assert(toks@.skip(*old(pos) as int).skip(1) =~= toks@.skip(*pos as int));
                    Some(r)
                } else {
                    None
                }
            },
            _ => None,
        }
    } else {
        None
    }
}

// ---------------------------------------------------------------------------
// i8: signed quantities carried as bounded i64 tokens
// ---------------------------------------------------------------------------

pub open spec fn enc_i8(v: i8) -> Seq<Token> {
    seq![Token::Int(v as i64)]
}

pub open spec fn dec_i8(s: Seq<Token>) -> Option<(i8, Seq<Token>)> {
    if s.len() >= 1 {
        match s[0] {
            Token::Int(v) => if i8::MIN as i64 <= v <= i8::MAX as i64 {
                Some(((v as i8), s.skip(1)))
            } else {
                None
            },
            _ => None,
        }
    } else {
        None
    }
}

pub proof fn lemma_rt_i8(v: i8, rest: Seq<Token>)
    ensures
        dec_i8(enc_i8(v) + rest) == Some((v, rest)),
{
    assert((enc_i8(v) + rest).skip(1) =~= rest);
}

pub fn write_i8(v: i8, out: &mut Vec<Token>)
    ensures
        final(out)@ == old(out)@ + enc_i8(v),
{
    out.push(Token::Int(v as i64));
    assert(out@ =~= old(out)@ + enc_i8(v));
}

pub fn read_i8(toks: &Vec<Token>, pos: &mut usize) -> (r: Option<i8>)
    requires
        *old(pos) <= toks@.len(),
    ensures
        match dec_i8(toks@.skip(*old(pos) as int)) {
            Some(p) => {
                &&& r == Some(p.0)
                &&& *old(pos) <= *final(pos) <= toks@.len()
                &&& toks@.skip(*final(pos) as int) == p.1
            },
            None => r is None && *final(pos) == *old(pos),
        },
{
    if *pos < toks.len() {
        let t = &toks[*pos];
        match t {
            Token::Int(v) => {
                if i8::MIN as i64 <= *v && *v <= i8::MAX as i64 {
                    let r = *v as i8;
                    *pos += 1;
                    assert(toks@.skip(*old(pos) as int).skip(1) =~= toks@.skip(*pos as int));
                    Some(r)
                } else {
                    None
                }
            },
            _ => None,
        }
    } else {
        None
    }
}

// ---------------------------------------------------------------------------
// bool
// ---------------------------------------------------------------------------

pub open spec fn enc_bool(v: bool) -> Seq<Token> {
    seq![Token::Flag(v)]
}

pub open spec fn dec_bool(s: Seq<Token>) -> Option<(bool, Seq<Token>)> {
    if s.len() >= 1 {
        match s[0] {
            Token::Flag(v) => Some((v, s.skip(1))),
            _ => None,
        }
    } else {
        None
    }
}

pub proof fn lemma_rt_bool(v: bool, rest: Seq<Token>)
    ensures
        dec_bool(enc_bool(v) + rest) == Some((v, rest)),
{
    assert((enc_bool(v) + rest).skip(1) =~= rest);
}

pub fn write_bool(v: bool, out: &mut Vec<Token>)
    ensures
        final(out)@ == old(out)@ + enc_bool(v),
{
    out.push(Token::Flag(v));
    assert(out@ =~= old(out)@ + enc_bool(v));
}

pub fn read_bool(toks: &Vec<Token>, pos: &mut usize) -> (r: Option<bool>)
    requires
        *old(pos) <= toks@.len(),
    ensures
        match dec_bool(toks@.skip(*old(pos) as int)) {
            Some(p) => {
                &&& r == Some(p.0)
                &&& *old(pos) <= *final(pos) <= toks@.len()
                &&& toks@.skip(*final(pos) as int) == p.1
            },
            None => r is None && *final(pos) == *old(pos),
        },
{
    if *pos < toks.len() {
        let t = &toks[*pos];
        match t {
            Token::Flag(v) => {
                let r = *v;
                *pos += 1;
                assert(toks@.skip(*old(pos) as int).skip(1) =~= toks@.skip(*pos as int));
                Some(r)
            },
            _ => None,
        }
    } else {
        None
    }
}

// ---------------------------------------------------------------------------
// text
// ---------------------------------------------------------------------------

pub open spec fn enc_text(v: String) -> Seq<Token> {
    seq![Token::Text(v)]
}

pub open spec fn dec_text(s: Seq<Token>) -> Option<(String, Seq<Token>)> {
    if s.len() >= 1 {
        match s[0] {
            Token::Text(v) => Some((v, s.skip(1))),
            _ => None,
        }
    } else {
        None
    }
}

pub proof fn lemma_rt_text(v: String, rest: Seq<Token>)
    ensures
        dec_text(enc_text(v) + rest) == Some((v, rest)),
{
    assert((enc_text(v) + rest).skip(1) =~= rest);
}

pub fn write_text(v: &String, out: &mut Vec<Token>)
    ensures
        final(out)@ == old(out)@ + enc_text(*v),
{
    out.push(Token::Text(v.clone()));
    assert(out@ =~= old(out)@ + enc_text(*v));
}

pub fn read_text(toks: &Vec<Token>, pos: &mut usize) -> (r: Option<String>)
    requires
        *old(pos) <= toks@.len(),
    ensures
        match dec_text(toks@.skip(*old(pos) as int)) {
            Some(p) => {
                &&& r == Some(p.0)
                &&& *old(pos) <= *final(pos) <= toks@.len()
                &&& toks@.skip(*final(pos) as int) == p.1
            },
            None => r is None && *final(pos) == *old(pos),
        },
{
    if *pos < toks.len() {
        let t = &toks[*pos];
        match t {
            Token::Text(v) => {
                let r = v.clone();
                *pos += 1;
                assert(toks@.skip(*old(pos) as int).skip(1) =~= toks@.skip(*pos as int));
                Some(r)
            },
            _ => None,
        }
    } else {
        None
    }
}

// ---------------------------------------------------------------------------
// optional text
// ---------------------------------------------------------------------------

pub open spec fn enc_opt_text(v: Option<String>) -> Seq<Token> {
    match v {
        None => seq![Token::Absent],
        Some(t) => seq![Token::Present] + enc_text(t),
    }
}

pub open spec fn dec_opt_text(s: Seq<Token>) -> Option<(Option<String>, Seq<Token>)> {
    if s.len() >= 1 {
        match s[0] {
            Token::Absent => Some((None, s.skip(1))),
            Token::Present => match dec_text(s.skip(1)) {
                Some(p) => Some((Some(p.0), p.1)),
                None => None,
            },
            _ => None,
        }
    } else {
        None
    }
}

pub proof fn lemma_rt_opt_text(v: Option<String>, rest: Seq<Token>)
    ensures
        dec_opt_text(enc_opt_text(v) + rest) == Some((v, rest)),
{
    match v {
        None => {
            assert((enc_opt_text(v) + rest).skip(1) =~= rest);
        },
        Some(t) => {
            assert((enc_opt_text(v) + rest).skip(1) =~= enc_text(t) + rest);
            lemma_rt_text(t, rest);
        },
    }
}

pub fn write_opt_text(v: &Option<String>, out: &mut Vec<Token>)
    ensures
        final(out)@ == old(out)@ + enc_opt_text(*v),
{
    match v {
        None => {
            out.push(Token::Absent);
            assert(out@ =~= old(out)@ + enc_opt_text(*v));
        },
        Some(t) => {
            out.push(Token::Present);
            write_text(t, out);
            assert(out@ =~= old(out)@ + enc_opt_text(*v));
        },
    }
}

pub fn read_opt_text(toks: &Vec<Token>, pos: &mut usize) -> (r: Option<Option<String>>)
    requires
        *old(pos) <= toks@.len(),
    ensures
        match dec_opt_text(toks@.skip(*old(pos) as int)) {
            Some(p) => {
                &&& r == Some(p.0)
                &&& *old(pos) <= *final(pos) <= toks@.len()
                &&& toks@.skip(*final(pos) as int) == p.1
            },
            None => r is None,
        },
{
    if *pos < toks.len() {
        let tag_is_absent: bool = match &toks[*pos] {
            Token::Absent => true,
            _ => false,
        };
        let tag_is_present: bool = match &toks[*pos] {
            Token::Present => true,
            _ => false,
        };
        if tag_is_absent {
            *pos += 1;
            assert(toks@.skip(*old(pos) as int).skip(1) =~= toks@.skip(*pos as int));
            Some(None)
        } else if tag_is_present {
            *pos += 1;
            assert(toks@.skip(*old(pos) as int).skip(1) =~= toks@.skip(*pos as int));
            match read_text(toks, pos) {
                Some(t) => Some(Some(t)),
                None => None,
            }
        } else {
            None
        }
    } else {
        None
    }
}

// ---------------------------------------------------------------------------
// enumerated identifiers, by position
// ---------------------------------------------------------------------------

pub open spec fn enc_id<T: EnumIndex>(v: T) -> Seq<Token> {
    seq![Token::Uint(v.index_spec() as u64)]
}

pub open spec fn dec_id<T: EnumIndex>(s: Seq<Token>) -> Option<(T, Seq<Token>)> {
    if s.len() >= 1 {
        match s[0] {
            Token::Uint(v) => if v < 0x10000 {
                match T::from_index_spec(v as int) {
                    Some(x) => Some((x, s.skip(1))),
                    None => None,
                }
            } else {
                None
            },
            _ => None,
        }
    } else {
        None
    }
}

pub proof fn lemma_rt_id<T: EnumIndex>(v: T, rest: Seq<Token>)
    ensures
        dec_id::<T>(enc_id(v) + rest) == Some((v, rest)),
{
    v.lemma_index_roundtrip();
    assert((enc_id(v) + rest).skip(1) =~= rest);
}

pub fn write_id<T: EnumIndex>(v: T, out: &mut Vec<Token>)
    ensures
        final(out)@ == old(out)@ + enc_id(v),
{
    proof {
        v.lemma_index_roundtrip();
    }
    let i = v.index();
    out.push(Token::Uint(i as u64));
    assert(out@ =~= old(out)@ + enc_id(v));
}

pub fn read_id<T: EnumIndex>(toks: &Vec<Token>, pos: &mut usize) -> (r: Option<T>)
    requires
        *old(pos) <= toks@.len(),
    ensures
        match dec_id::<T>(toks@.skip(*old(pos) as int)) {
            Some(p) => {
                &&& r == Some(p.0)
                &&& *old(pos) <= *final(pos) <= toks@.len()
                &&& toks@.skip(*final(pos) as int) == p.1
            },
            None => r is None && *final(pos) == *old(pos),
        },
{
    if *pos < toks.len() {
        let t = &toks[*pos];
        match t {
            Token::Uint(v) => {
                if *v < 0x10000 {
                    match T::from_index(*v as usize) {
                        Some(x) => {
                            *pos += 1;
                            assert(toks@.skip(*old(pos) as int).skip(1) =~= toks@.skip(
                                *pos as int,
                            ));
                            Some(x)
                        },
                        None => None,
                    }
                } else {
                    None
                }
            },
            _ => None,
        }
    } else {
        None
    }
}


// ---------------------------------------------------------------------------
// fixed runs of unsigned bytes, written positionally
// ---------------------------------------------------------------------------

pub open spec fn enc_u8s(s: Seq<u8>) -> Seq<Token> {
    Seq::new(s.len(), |i: int| enc_u8(s[i])[0])
}

pub open spec fn dec_u8s(s: Seq<Token>, n: int) -> Option<(Seq<u8>, Seq<Token>)>
    decreases n,
{
    if n <= 0 {
        Some((Seq::empty(), s))
    } else {
        match dec_u8(s) {
            Some(p) => match dec_u8s(p.1, n - 1) {
                Some(q) => Some((seq![p.0] + q.0, q.1)),
                None => None,
            },
            None => None,
        }
    }
}

pub proof fn lemma_rt_u8s(s: Seq<u8>, rest: Seq<Token>)
    ensures
        dec_u8s(enc_u8s(s) + rest, s.len() as int) == Some((s, rest)),
    decreases s.len(),
{
    if s.len() == 0 {
        assert(enc_u8s(s) + rest =~= rest);
    } else {
        let tail = s.skip(1);
        assert(enc_u8s(s) + rest =~= enc_u8(s[0]) + (enc_u8s(tail) + rest));
        lemma_rt_u8(s[0], enc_u8s(tail) + rest);
        lemma_rt_u8s(tail, rest);
        assert(seq![s[0]] + tail =~= s);
    }
}

pub fn write_u8s(v: &Vec<u8>, out: &mut Vec<Token>)
    ensures
        final(out)@ == old(out)@ + enc_u8s(v@),
{
    let ghost base = out@;
    let mut k: usize = 0;
    while k < v.len()
        invariant
            k <= v@.len(),
            out@ == base + enc_u8s(v@.take(k as int)),
        decreases v@.len() - k,
    {
        write_u8(v[k], out);
        proof {
            assert(base + enc_u8s(v@.take(k as int)) + enc_u8(v@[k as int]) =~= base
                + enc_u8s(v@.take(k as int + 1)));
        }
        k += 1;
    }
    proof {
        assert(v@.take(v@.len() as int) =~= v@);
    }
}

#[verifier::loop_isolation(false)]
pub fn read_u8s(toks: &Vec<Token>, pos: &mut usize, n: usize) -> (r: Option<Vec<u8>>)
    requires
        *old(pos) <= toks@.len(),
    ensures
        match dec_u8s(toks@.skip(*old(pos) as int), n as int) {
            Some(p) => {
                &&& r matches Some(v) && v@ == p.0
                &&& p.0.len() == n
                &&& *old(pos) <= *final(pos) <= toks@.len()
                &&& toks@.skip(*final(pos) as int) == p.1
            },
            None => r is None,
        },
{
    let ghost p0 = *pos as int;
    let mut acc: Vec<u8> = Vec::new();
    let mut k: usize = 0;
    while k < n
        invariant
            k <= n,
            p0 <= *pos as int,
            *pos <= toks@.len(),
            acc@.len() == k,
            dec_u8s(toks@.skip(p0), n as int) == (match dec_u8s(
                toks@.skip(*pos as int),
                n as int - k as int,
            ) {
                Some(q) => Some::<(Seq<u8>, Seq<Token>)>((acc@ + q.0, q.1)),
                None => None::<(Seq<u8>, Seq<Token>)>,
            }),
        decreases n - k,
    {
        let ghost before = toks@.skip(*pos as int);
        match read_u8(toks, pos) {
            Some(x) => {
                proof {
                    if dec_u8s(before, n as int - k as int) matches Some(q) {
                        assert(acc@ + (seq![x] + dec_u8s(
                            toks@.skip(*pos as int),
                            n as int - k as int - 1,
                        )->Some_0.0) =~= acc@.push(x) + dec_u8s(
                            toks@.skip(*pos as int),
                            n as int - k as int - 1,
                        )->Some_0.0);
                    }
                }
                acc.push(x);
                k += 1;
            },
            None => {
                proof {
                    assert(dec_u8s(before, n as int - k as int) is None);
                }
                return None;
            },
        }
    }
    proof {
        assert(dec_u8s(toks@.skip(*pos as int), 0) == Some::<(Seq<u8>, Seq<Token>)>((
            Seq::empty(),
            toks@.skip(*pos as int),
        )));
        assert(acc@ + Seq::<u8>::empty() =~= acc@);
    }
    Some(acc)
}

// ---------------------------------------------------------------------------
// fixed runs of 16-bit quantities, written positionally
// ---------------------------------------------------------------------------

pub open spec fn enc_u16s(s: Seq<u16>) -> Seq<Token> {
    Seq::new(s.len(), |i: int| enc_u16(s[i])[0])
}

pub open spec fn dec_u16s(s: Seq<Token>, n: int) -> Option<(Seq<u16>, Seq<Token>)>
    decreases n,
{
    if n <= 0 {
        Some((Seq::empty(), s))
    } else {
        match dec_u16(s) {
            Some(p) => match dec_u16s(p.1, n - 1) {
                Some(q) => Some((seq![p.0] + q.0, q.1)),
                None => None,
            },
            None => None,
        }
    }
}

pub proof fn lemma_rt_u16s(s: Seq<u16>, rest: Seq<Token>)
    ensures
        dec_u16s(enc_u16s(s) + rest, s.len() as int) == Some((s, rest)),
    decreases s.len(),
{
    if s.len() == 0 {
        assert(enc_u16s(s) + rest =~= rest);
    } else {
        let tail = s.skip(1);
        assert(enc_u16s(s) + rest =~= enc_u16(s[0]) + (enc_u16s(tail) + rest));
        lemma_rt_u16(s[0], enc_u16s(tail) + rest);
        lemma_rt_u16s(tail, rest);
        assert(seq![s[0]] + tail =~= s);
    }
}

pub fn write_u16s(v: &Vec<u16>, out: &mut Vec<Token>)
    ensures
        final(out)@ == old(out)@ + enc_u16s(v@),
{
    let ghost base = out@;
    let mut k: usize = 0;
    while k < v.len()
        invariant
            k <= v@.len(),
            out@ == base + enc_u16s(v@.take(k as int)),
        decreases v@.len() - k,
    {
        write_u16(v[k], out);
        proof {
            assert(base + enc_u16s(v@.take(k as int)) + enc_u16(v@[k as int]) =~= base
                + enc_u16s(v@.take(k as int + 1)));
        }
        k += 1;
    }
    proof {
        assert(v@.take(v@.len() as int) =~= v@);
    }
}

#[verifier::loop_isolation(false)]
pub fn read_u16s(toks: &Vec<Token>, pos: &mut usize, n: usize) -> (r: Option<Vec<u16>>)
    requires
        *old(pos) <= toks@.len(),
    ensures
        match dec_u16s(toks@.skip(*old(pos) as int), n as int) {
            Some(p) => {
                &&& r matches Some(v) && v@ == p.0
                &&& p.0.len() == n
                &&& *old(pos) <= *final(pos) <= toks@.len()
                &&& toks@.skip(*final(pos) as int) == p.1
            },
            None => r is None,
        },
{
    let ghost p0 = *pos as int;
    let mut acc: Vec<u16> = Vec::new();
    let mut k: usize = 0;
    while k < n
        invariant
            k <= n,
            p0 <= *pos as int,
            *pos <= toks@.len(),
            acc@.len() == k,
            dec_u16s(toks@.skip(p0), n as int) == (match dec_u16s(
                toks@.skip(*pos as int),
                n as int - k as int,
            ) {
                Some(q) => Some::<(Seq<u16>, Seq<Token>)>((acc@ + q.0, q.1)),
                None => None::<(Seq<u16>, Seq<Token>)>,
            }),
        decreases n - k,
    {
        let ghost before = toks@.skip(*pos as int);
        match read_u16(toks, pos) {
            Some(x) => {
                proof {
                    if dec_u16s(before, n as int - k as int) matches Some(q) {
                        assert(acc@ + (seq![x] + dec_u16s(
                            toks@.skip(*pos as int),
                            n as int - k as int - 1,
                        )->Some_0.0) =~= acc@.push(x) + dec_u16s(
                            toks@.skip(*pos as int),
                            n as int - k as int - 1,
                        )->Some_0.0);
                    }
                }
                acc.push(x);
                k += 1;
            },
            None => {
                proof {
                    assert(dec_u16s(before, n as int - k as int) is None);
                }
                return None;
            },
        }
    }
    proof {
        assert(dec_u16s(toks@.skip(*pos as int), 0) == Some::<(Seq<u16>, Seq<Token>)>((
            Seq::empty(),
            toks@.skip(*pos as int),
        )));
        assert(acc@ + Seq::<u16>::empty() =~= acc@);
    }
    Some(acc)
}

// ---------------------------------------------------------------------------
// fixed runs of 32-bit quantities, written positionally
// ---------------------------------------------------------------------------

pub open spec fn enc_u32s(s: Seq<u32>) -> Seq<Token> {
    Seq::new(s.len(), |i: int| enc_u32(s[i])[0])
}

pub open spec fn dec_u32s(s: Seq<Token>, n: int) -> Option<(Seq<u32>, Seq<Token>)>
    decreases n,
{
    if n <= 0 {
        Some((Seq::empty(), s))
    } else {
        match dec_u32(s) {
            Some(p) => match dec_u32s(p.1, n - 1) {
                Some(q) => Some((seq![p.0] + q.0, q.1)),
                None => None,
            },
            None => None,
        }
    }
}

pub proof fn lemma_rt_u32s(s: Seq<u32>, rest: Seq<Token>)
    ensures
        dec_u32s(enc_u32s(s) + rest, s.len() as int) == Some((s, rest)),
    decreases s.len(),
{
    if s.len() == 0 {
        assert(enc_u32s(s) + rest =~= rest);
    } else {
        let tail = s.skip(1);
        assert(enc_u32s(s) + rest =~= enc_u32(s[0]) + (enc_u32s(tail) + rest));
        lemma_rt_u32(s[0], enc_u32s(tail) + rest);
        lemma_rt_u32s(tail, rest);
        assert(seq![s[0]] + tail =~= s);
    }
}

pub fn write_u32s(v: &Vec<u32>, out: &mut Vec<Token>)
    ensures
        final(out)@ == old(out)@ + enc_u32s(v@),
{
    let ghost base = out@;
    let mut k: usize = 0;
    while k < v.len()
        invariant
            k <= v@.len(),
            out@ == base + enc_u32s(v@.take(k as int)),
        decreases v@.len() - k,
    {
        write_u32(v[k], out);
        proof {
            assert(base + enc_u32s(v@.take(k as int)) + enc_u32(v@[k as int]) =~= base
                + enc_u32s(v@.take(k as int + 1)));
        }
        k += 1;
    }
    proof {
        assert(v@.take(v@.len() as int) =~= v@);
    }
}

#[verifier::loop_isolation(false)]
pub fn read_u32s(toks: &Vec<Token>, pos: &mut usize, n: usize) -> (r: Option<Vec<u32>>)
    requires
        *old(pos) <= toks@.len(),
    ensures
        match dec_u32s(toks@.skip(*old(pos) as int), n as int) {
            Some(p) => {
                &&& r matches Some(v) && v@ == p.0
                &&& p.0.len() == n
                &&& *old(pos) <= *final(pos) <= toks@.len()
                &&& toks@.skip(*final(pos) as int) == p.1
            },
            None => r is None,
        },
{
    let ghost p0 = *pos as int;
    let mut acc: Vec<u32> = Vec::new();
    let mut k: usize = 0;
    while k < n
        invariant
            k <= n,
            p0 <= *pos as int,
            *pos <= toks@.len(),
            acc@.len() == k,
            dec_u32s(toks@.skip(p0), n as int) == (match dec_u32s(
                toks@.skip(*pos as int),
                n as int - k as int,
            ) {
                Some(q) => Some::<(Seq<u32>, Seq<Token>)>((acc@ + q.0, q.1)),
                None => None::<(Seq<u32>, Seq<Token>)>,
            }),
        decreases n - k,
    {
        let ghost before = toks@.skip(*pos as int);
        match read_u32(toks, pos) {
            Some(x) => {
                proof {
                    if dec_u32s(before, n as int - k as int) matches Some(q) {
                        assert(acc@ + (seq![x] + dec_u32s(
                            toks@.skip(*pos as int),
                            n as int - k as int - 1,
                        )->Some_0.0) =~= acc@.push(x) + dec_u32s(
                            toks@.skip(*pos as int),
                            n as int - k as int - 1,
                        )->Some_0.0);
                    }
                }
                acc.push(x);
                k += 1;
            },
            None => {
                proof {
                    assert(dec_u32s(before, n as int - k as int) is None);
                }
                return None;
            },
        }
    }
    proof {
        assert(dec_u32s(toks@.skip(*pos as int), 0) == Some::<(Seq<u32>, Seq<Token>)>((
            Seq::empty(),
            toks@.skip(*pos as int),
        )));
        assert(acc@ + Seq::<u32>::empty() =~= acc@);
    }
    Some(acc)
}

// ---------------------------------------------------------------------------
// fixed runs of signed bytes, written positionally
// ---------------------------------------------------------------------------

pub open spec fn enc_i8s(s: Seq<i8>) -> Seq<Token> {
    Seq::new(s.len(), |i: int| enc_i8(s[i])[0])
}

pub open spec fn dec_i8s(s: Seq<Token>, n: int) -> Option<(Seq<i8>, Seq<Token>)>
    decreases n,
{
    if n <= 0 {
        Some((Seq::empty(), s))
    } else {
        match dec_i8(s) {
            Some(p) => match dec_i8s(p.1, n - 1) {
                Some(q) => Some((seq![p.0] + q.0, q.1)),
                None => None,
            },
            None => None,
        }
    }
}

pub proof fn lemma_rt_i8s(s: Seq<i8>, rest: Seq<Token>)
    ensures
        dec_i8s(enc_i8s(s) + rest, s.len() as int) == Some((s, rest)),
    decreases s.len(),
{
    if s.len() == 0 {
        assert(enc_i8s(s) + rest =~= rest);
    } else {
        let tail = s.skip(1);
        assert(enc_i8s(s) + rest =~= enc_i8(s[0]) + (enc_i8s(tail) + rest));
        lemma_rt_i8(s[0], enc_i8s(tail) + rest);
        lemma_rt_i8s(tail, rest);
        assert(seq![s[0]] + tail =~= s);
    }
}

pub fn write_i8s(v: &Vec<i8>, out: &mut Vec<Token>)
    ensures
        final(out)@ == old(out)@ + enc_i8s(v@),
{
    let ghost base = out@;
    let mut k: usize = 0;
    while k < v.len()
        invariant
            k <= v@.len(),
            out@ == base + enc_i8s(v@.take(k as int)),
        decreases v@.len() - k,
    {
        write_i8(v[k], out);
        proof {
            assert(base + enc_i8s(v@.take(k as int)) + enc_i8(v@[k as int]) =~= base
                + enc_i8s(v@.take(k as int + 1)));
        }
        k += 1;
    }
    proof {
        assert(v@.take(v@.len() as int) =~= v@);
    }
}

#[verifier::loop_isolation(false)]
pub fn read_i8s(toks: &Vec<Token>, pos: &mut usize, n: usize) -> (r: Option<Vec<i8>>)
    requires
        *old(pos) <= toks@.len(),
    ensures
        match dec_i8s(toks@.skip(*old(pos) as int), n as int) {
            Some(p) => {
                &&& r matches Some(v) && v@ == p.0
                &&& p.0.len() == n
                &&& *old(pos) <= *final(pos) <= toks@.len()
                &&& toks@.skip(*final(pos) as int) == p.1
            },
            None => r is None,
        },
{
    let ghost p0 = *pos as int;
    let mut acc: Vec<i8> = Vec::new();
    let mut k: usize = 0;
    while k < n
        invariant
            k <= n,
            p0 <= *pos as int,
            *pos <= toks@.len(),
            acc@.len() == k,
            dec_i8s(toks@.skip(p0), n as int) == (match dec_i8s(
                toks@.skip(*pos as int),
                n as int - k as int,
            ) {
                Some(q) => Some::<(Seq<i8>, Seq<Token>)>((acc@ + q.0, q.1)),
                None => None::<(Seq<i8>, Seq<Token>)>,
            }),
        decreases n - k,
    {
        let ghost before = toks@.skip(*pos as int);
        match read_i8(toks, pos) {
            Some(x) => {
                proof {
                    if dec_i8s(before, n as int - k as int) matches Some(q) {
                        assert(acc@ + (seq![x] + dec_i8s(
                            toks@.skip(*pos as int),
                            n as int - k as int - 1,
                        )->Some_0.0) =~= acc@.push(x) + dec_i8s(
                            toks@.skip(*pos as int),
                            n as int - k as int - 1,
                        )->Some_0.0);
                    }
                }
                acc.push(x);
                k += 1;
            },
            None => {
                proof {
                    assert(dec_i8s(before, n as int - k as int) is None);
                }
                return None;
            },
        }
    }
    proof {
        assert(dec_i8s(toks@.skip(*pos as int), 0) == Some::<(Seq<i8>, Seq<Token>)>((
            Seq::empty(),
            toks@.skip(*pos as int),
        )));
        assert(acc@ + Seq::<i8>::empty() =~= acc@);
    }
    Some(acc)
}

// ---------------------------------------------------------------------------
// fixed runs of flags, written positionally
// ---------------------------------------------------------------------------

pub open spec fn enc_bools(s: Seq<bool>) -> Seq<Token> {
    Seq::new(s.len(), |i: int| enc_bool(s[i])[0])
}

pub open spec fn dec_bools(s: Seq<Token>, n: int) -> Option<(Seq<bool>, Seq<Token>)>
    decreases n,
{
    if n <= 0 {
        Some((Seq::empty(), s))
    } else {
        match dec_bool(s) {
            Some(p) => match dec_bools(p.1, n - 1) {
                Some(q) => Some((seq![p.0] + q.0, q.1)),
                None => None,
            },
            None => None,
        }
    }
}

pub proof fn lemma_rt_bools(s: Seq<bool>, rest: Seq<Token>)
    ensures
        dec_bools(enc_bools(s) + rest, s.len() as int) == Some((s, rest)),
    decreases s.len(),
{
    if s.len() == 0 {
        assert(enc_bools(s) + rest =~= rest);
    } else {
        let tail = s.skip(1);
        assert(enc_bools(s) + rest =~= enc_bool(s[0]) + (enc_bools(tail) + rest));
        lemma_rt_bool(s[0], enc_bools(tail) + rest);
        lemma_rt_bools(tail, rest);
        assert(seq![s[0]] + tail =~= s);
    }
}

pub fn write_bools(v: &Vec<bool>, out: &mut Vec<Token>)
    ensures
        final(out)@ == old(out)@ + enc_bools(v@),
{
    let ghost base = out@;
    let mut k: usize = 0;
    while k < v.len()
        invariant
            k <= v@.len(),
            out@ == base + enc_bools(v@.take(k as int)),
        decreases v@.len() - k,
    {
        write_bool(v[k], out);
        proof {
            assert(base + enc_bools(v@.take(k as int)) + enc_bool(v@[k as int]) =~= base
                + enc_bools(v@.take(k as int + 1)));
        }
        k += 1;
    }
    proof {
        assert(v@.take(v@.len() as int) =~= v@);
    }
}

#[verifier::loop_isolation(false)]
pub fn read_bools(toks: &Vec<Token>, pos: &mut usize, n: usize) -> (r: Option<Vec<bool>>)
    requires
        *old(pos) <= toks@.len(),
    ensures
        match dec_bools(toks@.skip(*old(pos) as int), n as int) {
            Some(p) => {
                &&& r matches Some(v) && v@ == p.0
                &&& p.0.len() == n
                &&& *old(pos) <= *final(pos) <= toks@.len()
                &&& toks@.skip(*final(pos) as int) == p.1
            },
            None => r is None,
        },
{
    let ghost p0 = *pos as int;
    let mut acc: Vec<bool> = Vec::new();
    let mut k: usize = 0;
    while k < n
        invariant
            k <= n,
            p0 <= *pos as int,
            *pos <= toks@.len(),
            acc@.len() == k,
            dec_bools(toks@.skip(p0), n as int) == (match dec_bools(
                toks@.skip(*pos as int),
                n as int - k as int,
            ) {
                Some(q) => Some::<(Seq<bool>, Seq<Token>)>((acc@ + q.0, q.1)),
                None => None::<(Seq<bool>, Seq<Token>)>,
            }),
        decreases n - k,
    {
        let ghost before = toks@.skip(*pos as int);
        match read_bool(toks, pos) {
            Some(x) => {
                proof {
                    if dec_bools(before, n as int - k as int) matches Some(q) {
                        assert(acc@ + (seq![x] + dec_bools(
                            toks@.skip(*pos as int),
                            n as int - k as int - 1,
                        )->Some_0.0) =~= acc@.push(x) + dec_bools(
                            toks@.skip(*pos as int),
                            n as int - k as int - 1,
                        )->Some_0.0);
                    }
                }
                acc.push(x);
                k += 1;
            },
            None => {
                proof {
                    assert(dec_bools(before, n as int - k as int) is None);
                }
                return None;
            },
        }
    }
    proof {
        assert(dec_bools(toks@.skip(*pos as int), 0) == Some::<(Seq<bool>, Seq<Token>)>((
            Seq::empty(),
            toks@.skip(*pos as int),
        )));
        assert(acc@ + Seq::<bool>::empty() =~= acc@);
    }
    Some(acc)
}

// ---------------------------------------------------------------------------
// fixed runs of text values, written positionally
// ---------------------------------------------------------------------------

pub open spec fn enc_texts(s: Seq<String>) -> Seq<Token> {
    Seq::new(s.len(), |i: int| enc_text(s[i])[0])
}

pub open spec fn dec_texts(s: Seq<Token>, n: int) -> Option<(Seq<String>, Seq<Token>)>
    decreases n,
{
    if n <= 0 {
        Some((Seq::empty(), s))
    } else {
        match dec_text(s) {
            Some(p) => match dec_texts(p.1, n - 1) {
                Some(q) => Some((seq![p.0] + q.0, q.1)),
                None => None,
            },
            None => None,
        }
    }
}

pub proof fn lemma_rt_texts(s: Seq<String>, rest: Seq<Token>)
    ensures
        dec_texts(enc_texts(s) + rest, s.len() as int) == Some((s, rest)),
    decreases s.len(),
{
    if s.len() == 0 {
        assert(enc_texts(s) + rest =~= rest);
    } else {
        let tail = s.skip(1);
        assert(enc_texts(s) + rest =~= enc_text(s[0]) + (enc_texts(tail) + rest));
        lemma_rt_text(s[0], enc_texts(tail) + rest);
        lemma_rt_texts(tail, rest);
        assert(seq![s[0]] + tail =~= s);
    }
}

pub fn write_texts(v: &Vec<String>, out: &mut Vec<Token>)
    ensures
        final(out)@ == old(out)@ + enc_texts(v@),
{
    let ghost base = out@;
    let mut k: usize = 0;
    while k < v.len()
        invariant
            k <= v@.len(),
            out@ == base + enc_texts(v@.take(k as int)),
        decreases v@.len() - k,
    {
        write_text(&v[k], out);
        proof {
            assert(base + enc_texts(v@.take(k as int)) + enc_text(v@[k as int]) =~= base
                + enc_texts(v@.take(k as int + 1)));
        }
        k += 1;
    }
    proof {
        assert(v@.take(v@.len() as int) =~= v@);
    }
}

#[verifier::loop_isolation(false)]
pub fn read_texts(toks: &Vec<Token>, pos: &mut usize, n: usize) -> (r: Option<Vec<String>>)
    requires
        *old(pos) <= toks@.len(),
    ensures
        match dec_texts(toks@.skip(*old(pos) as int), n as int) {
            Some(p) => {
                &&& r matches Some(v) && v@ == p.0
                &&& p.0.len() == n
                &&& *old(pos) <= *final(pos) <= toks@.len()
                &&& toks@.skip(*final(pos) as int) == p.1
            },
            None => r is None,
        },
{
    let ghost p0 = *pos as int;
    let mut acc: Vec<String> = Vec::new();
    let mut k: usize = 0;
    while k < n
        invariant
            k <= n,
            p0 <= *pos as int,
            *pos <= toks@.len(),
            acc@.len() == k,
            dec_texts(toks@.skip(p0), n as int) == (match dec_texts(
                toks@.skip(*pos as int),
                n as int - k as int,
            ) {
                Some(q) => Some::<(Seq<String>, Seq<Token>)>((acc@ + q.0, q.1)),
                None => None::<(Seq<String>, Seq<Token>)>,
            }),
        decreases n - k,
    {
        let ghost before = toks@.skip(*pos as int);
        match read_text(toks, pos) {
            Some(x) => {
                proof {
                    if dec_texts(before, n as int - k as int) matches Some(q) {
                        assert(acc@ + (seq![x] + dec_texts(
                            toks@.skip(*pos as int),
                            n as int - k as int - 1,
                        )->Some_0.0) =~= acc@.push(x) + dec_texts(
                            toks@.skip(*pos as int),
                            n as int - k as int - 1,
                        )->Some_0.0);
                    }
                }
                acc.push(x);
                k += 1;
            },
            None => {
                proof {
                    assert(dec_texts(before, n as int - k as int) is None);
                }
                return None;
            },
        }
    }
    proof {
        assert(dec_texts(toks@.skip(*pos as int), 0) == Some::<(Seq<String>, Seq<Token>)>((
            Seq::empty(),
            toks@.skip(*pos as int),
        )));
        assert(acc@ + Seq::<String>::empty() =~= acc@);
    }
    Some(acc)
}


// ---------------------------------------------------------------------------
// counted runs of text values
// ---------------------------------------------------------------------------

pub open spec fn enc_text_list(s: Seq<String>) -> Seq<Token> {
    enc_u64(s.len() as u64) + enc_texts(s)
}

pub open spec fn dec_text_list(s: Seq<Token>) -> Option<(Seq<String>, Seq<Token>)> {
    match dec_u64(s) {
        Some(p) => if p.0 <= usize::MAX as u64 {
            dec_texts(p.1, p.0 as int)
        } else {
            None
        },
        None => None,
    }
}

pub proof fn lemma_rt_text_list(s: Seq<String>, rest: Seq<Token>)
    requires
        s.len() <= usize::MAX,
    ensures
        dec_text_list(enc_text_list(s) + rest) == Some((s, rest)),
{
    let t1 = enc_texts(s) + rest;
    lemma_assoc(enc_u64(s.len() as u64), enc_texts(s), rest);
    lemma_rt_u64(s.len() as u64, t1);
    lemma_rt_texts(s, rest);
}

pub fn write_text_list(v: &Vec<String>, out: &mut Vec<Token>)
    ensures
        final(out)@ == old(out)@ + enc_text_list(v@),
{
    write_u64(v.len() as u64, out);
    write_texts(v, out);
    assert(out@ =~= old(out)@ + enc_text_list(v@));
}

pub fn read_text_list(toks: &Vec<Token>, pos: &mut usize) -> (r: Option<Vec<String>>)
    requires
        *old(pos) <= toks@.len(),
    ensures
        match dec_text_list(toks@.skip(*old(pos) as int)) {
            Some(p) => {
                &&& r matches Some(v) && v@ == p.0
                &&& *old(pos) <= *final(pos) <= toks@.len()
                &&& toks@.skip(*final(pos) as int) == p.1
            },
            None => r is None,
        },
{
    let n = match read_u64(toks, pos) {
        Some(x) => x,
        None => {
            return None;
        },
    };
    if n > usize::MAX as u64 {
        return None;
    }
    read_texts(toks, pos, n as usize)
}

} // verus!
