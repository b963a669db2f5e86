//! The audio routing relation: which outputs each input feeds.
//!
//! The relation is kept in two synchronized representations.  The set form
//! is one bitmask per input, one bit per output — the natural form for
//! point mutation.  The matrix form is a dense boolean table, rows indexed
//! by input, columns by output — the natural form for bulk transfer.  Both
//! live behind this type; `route` is the only mutation and keeps them in
//! step, so a reader can never observe one representation updated and the
//! other stale.

use vstd::prelude::*;

use crate::ids::{EnumIndex, InputDevice, OutputDevice, INPUT_COUNT, OUTPUT_COUNT};
use crate::wire;
use crate::wire::Token;

verus! {

/// Whether bit `o` of a routing mask is set.
pub open spec fn mask_bit(m: u32, o: int) -> bool {
    (m >> (o as u32)) & 1u32 == 1u32
}

/// The routing relation in both its representations.
#[derive(Debug, Clone, PartialEq)]
pub struct Router {
    router: Vec<u32>,
    router_table: Vec<Vec<bool>>,
}

/// The mathematical model of a `Router`.
pub struct RouterV {
    pub router: Seq<u32>,
    pub router_table: Seq<Seq<bool>>,
}

impl View for Router {
    type V = RouterV;

    closed spec fn view(&self) -> RouterV {
        RouterV {
            router: self.router@,
            router_table: Seq::new(self.router_table@.len(), |i: int| self.router_table@[i]@),
        }
    }
}

impl RouterV {
    /// One mask and one matrix row per input; one matrix column and one
    /// mask bit per output, with spare mask bits clear; and, for every
    /// input and output, the matrix cell agrees with the mask bit.
    pub open spec fn wf(self) -> bool {
        &&& self.router.len() == INPUT_COUNT
        &&& self.router_table.len() == INPUT_COUNT
        &&& forall|i: int|
            0 <= i < INPUT_COUNT ==> (#[trigger] self.router_table[i]).len() == OUTPUT_COUNT
        &&& forall|i: int| 0 <= i < INPUT_COUNT ==> (#[trigger] self.router[i]) < 32
        &&& forall|i: int, o: int|
            0 <= i < INPUT_COUNT && 0 <= o < OUTPUT_COUNT ==> ((#[trigger] self.router_table[i][o])
                == mask_bit(self.router[i], o))
    }

    /// The relation itself: does `input` feed `output`?
    pub open spec fn routed(self, input: InputDevice, output: OutputDevice) -> bool {
        self.router_table[input.index_spec()][output.index_spec()]
    }

    /// The set of outputs fed by `input`.
    pub open spec fn output_set(self, input: InputDevice) -> Set<OutputDevice> {
        Set::new(|o: OutputDevice| self.routed(input, o))
    }
}

/// The dual-representation law: for every input and output, the matrix
/// cell holds exactly when the output is a member of the input's output
/// set.  `route` preserves well-formedness, so this holds after any
/// sequence of `route` calls.
pub proof fn lemma_routing_consistent(m: RouterV, input: InputDevice, output: OutputDevice)
    requires
        m.wf(),
    ensures
        m.router_table[input.index_spec()][output.index_spec()] == m.output_set(input).contains(
            output,
        ),
{
    input.lemma_index_roundtrip();
    output.lemma_index_roundtrip();
}

impl Router {
    pub open spec fn wf(self) -> bool {
        self@.wf()
    }

    /// A router with no input feeding any output.
    pub fn new() -> (r: Router)
        ensures
            r.wf(),
            forall|i: InputDevice, o: OutputDevice| !(#[trigger] r@.routed(i, o)),
    {
        let mut router: Vec<u32> = Vec::new();
        let mut i: usize = 0;
        while i < INPUT_COUNT
            invariant
                i <= INPUT_COUNT,
                router@.len() == i,
                forall|k: int| 0 <= k < i ==> (#[trigger] router@[k]) == 0u32,
            decreases INPUT_COUNT - i,
        {
            router.push(0u32);
            i += 1;
        }
        let mut router_table: Vec<Vec<bool>> = Vec::new();
        let mut j: usize = 0;
        while j < INPUT_COUNT
            invariant
                j <= INPUT_COUNT,
                router_table@.len() == j,
                forall|k: int| 0 <= k < j ==> (#[trigger] router_table@[k])@.len() == OUTPUT_COUNT,
                forall|k: int, o: int|
                    0 <= k < j && 0 <= o < OUTPUT_COUNT ==> !(#[trigger] router_table@[k]@[o]),
            decreases INPUT_COUNT - j,
        {
            let mut row: Vec<bool> = Vec::new();
            let mut o: usize = 0;
            while o < OUTPUT_COUNT
                invariant
                    o <= OUTPUT_COUNT,
                    row@.len() == o,
                    forall|k: int| 0 <= k < o ==> !(#[trigger] row@[k]),
                decreases OUTPUT_COUNT - o,
            {
                row.push(false);
                o += 1;
            }
            router_table.push(row);
            j += 1;
        }
        let r = Router { router, router_table };
        proof {
            assert forall|oi: int| 0 <= oi < 32 implies !mask_bit(0u32, oi) by {
                let kk = oi as u32;
                assert((0u32 >> kk) & 1u32 == 0u32) by (bit_vector);
            }
            assert forall|i2: InputDevice, o2: OutputDevice| !(#[trigger] r@.routed(i2, o2)) by {
                i2.lemma_index_roundtrip();
                o2.lemma_index_roundtrip();
            }
        }
        r
    }

    /// Is `output` fed by `input`?
    pub fn is_routed(&self, input: InputDevice, output: OutputDevice) -> (r: bool)
        requires
            self.wf(),
        ensures
            r == self@.routed(input, output),
    {
        proof {
            input.lemma_index_roundtrip();
            output.lemma_index_roundtrip();
            assert(0 <= input.index_spec() < INPUT_COUNT);
            assert(self.router_table@.len() == INPUT_COUNT);
            assert(self@.router_table[input.index_spec()] == self.router_table@[input.index_spec()]@);
            assert(self.router_table@[input.index_spec()]@.len() == OUTPUT_COUNT);
        }
        let i = input.index();
        let o = output.index();
        self.router_table[i][o]
    }

    /// The bitmask of outputs fed by `input`, one bit per output position.
    pub fn output_mask(&self, input: InputDevice) -> (r: u32)
        requires
            self.wf(),
        ensures
            r == self@.router[input.index_spec()],
            forall|o: OutputDevice| #[trigger]
                self@.output_set(input).contains(o) == mask_bit(r, o.index_spec()),
    {
        proof {
            input.lemma_index_roundtrip();
            assert forall|o: OutputDevice| #[trigger]
                self@.output_set(input).contains(o) == mask_bit(
                    self@.router[input.index_spec()],
                    o.index_spec(),
                ) by {
                o.lemma_index_roundtrip();
            }
        }
        let i = input.index();
        self.router[i]
    }

    /// Set or clear one edge of the relation, in both representations at
    /// once.  Every other edge is untouched.
    pub fn route(&mut self, input: InputDevice, output: OutputDevice, enabled: bool)
        requires
            old(self).wf(),
        ensures
            final(self).wf(),
            final(self)@.routed(input, output) == enabled,
            forall|i: InputDevice, o: OutputDevice| #[trigger]
                final(self)@.routed(i, o) == (if i == input && o == output {
                    enabled
                } else {
                    old(self)@.routed(i, o)
                }),
    {
        proof {
            input.lemma_index_roundtrip();
            output.lemma_index_roundtrip();
        }
        let i = input.index();
        let o = output.index();
        let om: u32 = self.router[i];
        let ob: u32 = o as u32;
        let nm: u32 = if enabled {
            om | (1u32 << ob)
        } else {
            om & !(1u32 << ob)
        };
        proof {
            assert(om < 32u32 ==> (om | (1u32 << ob)) < 32u32 && (om & !(1u32 << ob)) < 32u32)
                by (bit_vector)
                requires
                    ob < 5u32,
            ;
            assert forall|k: int| 0 <= k < OUTPUT_COUNT implies mask_bit(nm, k) == (if k == o as int {
                enabled
            } else {
                mask_bit(om, k)
            }) by {
                let kk = k as u32;
                if enabled {
                    assert(((om | (1u32 << ob)) >> kk) & 1u32 == (if kk == ob {
                        1u32
                    } else {
                        (om >> kk) & 1u32
                    })) by (bit_vector)
                        requires
                            ob < 5u32,
                            kk < 5u32,
                    ;
                } else {
                    assert(((om & !(1u32 << ob)) >> kk) & 1u32 == (if kk == ob {
                        0u32
                    } else {
                        (om >> kk) & 1u32
                    })) by (bit_vector)
                        requires
                            ob < 5u32,
                            kk < 5u32,
                    ;
                }
            }
        }
        self.router[i] = nm;
        let mut row: Vec<bool> = self.router_table[i].clone();
        proof {
            assert(row@ =~= old(self)@.router_table[i as int]);
        }
        row[o] = enabled;
        self.router_table[i] = row;
        proof {
            assert(final(self)@.router_table =~= old(self)@.router_table.update(
                i as int,
                old(self)@.router_table[i as int].update(o as int, enabled),
            ));
            assert forall|i2: InputDevice, o2: OutputDevice| #[trigger]
                final(self)@.routed(i2, o2) == (if i2 == input && o2 == output {
                    enabled
                } else {
                    old(self)@.routed(i2, o2)
                }) by {
                i2.lemma_index_roundtrip();
                o2.lemma_index_roundtrip();
                input.lemma_index_roundtrip();
                output.lemma_index_roundtrip();
            }
        }
    }
}

// ---------------------------------------------------------------------------
// wire form
// ---------------------------------------------------------------------------

pub open spec fn enc_bool_rows(s: Seq<Seq<bool>>) -> Seq<Token>
    decreases s.len(),
{
    if s.len() == 0 {
        Seq::empty()
    } else {
        wire::enc_bools(s[0]) + enc_bool_rows(s.skip(1))
    }
}

pub open spec fn dec_bool_rows(s: Seq<Token>, nrows: int, ncols: int) -> Option<
    (Seq<Seq<bool>>, Seq<Token>),
>
    decreases nrows,
{
    if nrows <= 0 {
        Some((Seq::empty(), s))
    } else {
        match wire::dec_bools(s, ncols) {
            Some(p) => match dec_bool_rows(p.1, nrows - 1, ncols) {
                Some(q) => Some((seq![p.0] + q.0, q.1)),
                None => None,
            },
            None => None,
        }
    }
}

pub proof fn lemma_rt_bool_rows(s: Seq<Seq<bool>>, rest: Seq<Token>, ncols: int)
    requires
        forall|i: int| 0 <= i < s.len() ==> (#[trigger] s[i]).len() == ncols,
    ensures
        dec_bool_rows(enc_bool_rows(s) + rest, s.len() as int, ncols) == Some((s, rest)),
    decreases s.len(),
{
    if s.len() == 0 {
        assert(enc_bool_rows(s) + rest =~= rest);
    } else {
        let tail = s.skip(1);
        assert(forall|i: int| 0 <= i < tail.len() ==> tail[i] == s[i + 1]);
        assert(enc_bool_rows(s) + rest =~= wire::enc_bools(s[0]) + (enc_bool_rows(tail) + rest));
        wire::lemma_rt_bools(s[0], enc_bool_rows(tail) + rest);
        lemma_rt_bool_rows(tail, rest, ncols);
        assert(seq![s[0]] + tail =~= s);
    }
}

pub open spec fn enc_router(m: RouterV) -> Seq<Token> {
    wire::enc_u32s(m.router) + enc_bool_rows(m.router_table)
}

pub open spec fn dec_router(s: Seq<Token>) -> Option<(RouterV, Seq<Token>)> {
    match wire::dec_u32s(s, INPUT_COUNT as int) {
        Some(p0) => match dec_bool_rows(p0.1, INPUT_COUNT as int, OUTPUT_COUNT as int) {
            Some(p1) => {
                let m = RouterV { router: p0.0, router_table: p1.0 };
                if m.wf() {
                    Some((m, p1.1))
                } else {
                    None
                }
            },
            None => None,
        },
        None => None,
    }
}

pub proof fn lemma_rt_router(m: RouterV, rest: Seq<Token>)
    requires
        m.wf(),
    ensures
        dec_router(enc_router(m) + rest) == Some((m, rest)),
{
    let t1 = enc_bool_rows(m.router_table) + rest;
    assert(enc_router(m) + rest =~= wire::enc_u32s(m.router) + t1);
    wire::lemma_rt_u32s(m.router, t1);
    lemma_rt_bool_rows(m.router_table, rest, OUTPUT_COUNT as int);
}

pub fn write_router(v: &Router, out: &mut Vec<Token>)
    ensures
        final(out)@ == old(out)@ + enc_router(v@),
{
    wire::write_u32s(&v.router, out);
    let ghost m = v@.router_table;
    let ghost base = out@;
    let mut k: usize = 0;
    proof {
        assert(m.skip(0) =~= m);
        assert(m.len() == v.router_table@.len());
    }
    while k < v.router_table.len()
        invariant
            k <= v.router_table@.len(),
            m == v@.router_table,
            m.len() == v.router_table@.len(),
            out@ + enc_bool_rows(m.skip(k as int)) == base + enc_bool_rows(m),
        decreases v.router_table@.len() - k,
    {
        let ghost out0 = out@;
        wire::write_bools(&v.router_table[k], out);
        proof {
            assert(m.skip(k as int).skip(1) =~= m.skip(k as int + 1));
            assert(m.skip(k as int)[0] == m[k as int]);
            assert(out0 + wire::enc_bools(m[k as int]) + enc_bool_rows(m.skip(k as int + 1)) =~= out0
                + (wire::enc_bools(m[k as int]) + enc_bool_rows(m.skip(k as int + 1))));
        }
        k += 1;
    }
    proof {
        assert(enc_bool_rows(m.skip(v.router_table@.len() as int)) =~= Seq::empty());
        assert(out@ + Seq::<Token>::empty() =~= out@);
        assert(out@ =~= old(out)@ + enc_router(v@));
    }
}

/// Whether a decoded mask/matrix pair is a consistent routing state.
fn router_consistent(router: &Vec<u32>, router_table: &Vec<Vec<bool>>) -> (r: bool)
    requires
        router@.len() == INPUT_COUNT,
        router_table@.len() == INPUT_COUNT,
        forall|i: int|
            0 <= i < INPUT_COUNT ==> (#[trigger] router_table@[i])@.len() == OUTPUT_COUNT,
    ensures
        r == (RouterV {
            router: router@,
            router_table: Seq::new(router_table@.len(), |i: int| router_table@[i]@),
        }).wf(),
{
    let ghost m = RouterV {
        router: router@,
        router_table: Seq::new(router_table@.len(), |i: int| router_table@[i]@),
    };
    let mut i: usize = 0;
    while i < INPUT_COUNT
        invariant
            i <= INPUT_COUNT,
            router@.len() == INPUT_COUNT,
            router_table@.len() == INPUT_COUNT,
            forall|k: int|
                0 <= k < INPUT_COUNT ==> (#[trigger] router_table@[k])@.len() == OUTPUT_COUNT,
            m == (RouterV {
                router: router@,
                router_table: Seq::new(router_table@.len(), |k: int| router_table@[k]@),
            }),
            forall|k: int| 0 <= k < i ==> (#[trigger] m.router[k]) < 32,
            forall|k: int, o: int|
                0 <= k < i && 0 <= o < OUTPUT_COUNT ==> ((#[trigger] m.router_table[k][o])
                    == mask_bit(m.router[k], o)),
        decreases INPUT_COUNT - i,
    {
        if router[i] >= 32 {
            proof {
                assert(!(m.router[i as int] < 32));
            }
            return false;
        }
        let mut o: usize = 0;
        while o < OUTPUT_COUNT
            invariant
                0 <= i < INPUT_COUNT,
                o <= OUTPUT_COUNT,
                router@.len() == INPUT_COUNT,
                router_table@.len() == INPUT_COUNT,
                forall|k: int|
                    0 <= k < INPUT_COUNT ==> (#[trigger] router_table@[k])@.len() == OUTPUT_COUNT,
                m == (RouterV {
                    router: router@,
                    router_table: Seq::new(router_table@.len(), |k: int| router_table@[k]@),
                }),
                forall|q: int|
                    0 <= q < o ==> ((#[trigger] m.router_table[i as int][q]) == mask_bit(
                        m.router[i as int],
                        q,
                    )),
            decreases OUTPUT_COUNT - o,
        {
            let cell = router_table[i][o];
            let bit = (router[i] >> (o as u32)) & 1u32 == 1u32;
            if cell != bit {
                proof {
                    assert(m.router_table[i as int][o as int] == cell);
                    assert(mask_bit(m.router[i as int], o as int) == bit);
                }
                return false;
            }
            o += 1;
        }
        i += 1;
    }
    true
}

pub fn read_router(toks: &Vec<Token>, pos: &mut usize) -> (r: Option<Router>)
    requires
        *old(pos) <= toks@.len(),
    ensures
        match dec_router(toks@.skip(*old(pos) as int)) {
            Some(p) => {
                &&& r matches Some(v) && v@ == p.0 && v.wf()
                &&& *old(pos) <= *final(pos) <= toks@.len()
                &&& toks@.skip(*final(pos) as int) == p.1
            },
            None => r is None,
        },
{
    let router = match wire::read_u32s(toks, pos, INPUT_COUNT) {
        Some(x) => x,
        None => {
            return None;
        },
    };
    let ghost p1 = toks@.skip(*pos as int);
    let mut router_table: Vec<Vec<bool>> = Vec::new();
    let mut k: usize = 0;
    let ghost rows_start = *pos as int;
    proof {
        assert(router_table@.len() == 0);
    }
    #[verifier::loop_isolation(false)]
    while k < INPUT_COUNT
        invariant
            k <= INPUT_COUNT,
            rows_start <= *pos as int,
            *pos <= toks@.len(),
            router_table@.len() == k,
            forall|q: int|
                0 <= q < k ==> (#[trigger] router_table@[q])@.len() == OUTPUT_COUNT,
            dec_bool_rows(toks@.skip(rows_start), INPUT_COUNT as int, OUTPUT_COUNT as int) == (
            match dec_bool_rows(
                toks@.skip(*pos as int),
                INPUT_COUNT as int - k as int,
                OUTPUT_COUNT as int,
            ) {
                Some(q) => Some::<(Seq<Seq<bool>>, Seq<Token>)>((
                    Seq::new(router_table@.len(), |j: int| router_table@[j]@) + q.0,
                    q.1,
                )),
                None => None::<(Seq<Seq<bool>>, Seq<Token>)>,
            }),
        decreases INPUT_COUNT - k,
    {
        let ghost before = toks@.skip(*pos as int);
        let ghost acc0 = Seq::new(router_table@.len(), |j: int| router_table@[j]@);
        match wire::read_bools(toks, pos, OUTPUT_COUNT) {
            Some(row) => {
                proof {
                    if dec_bool_rows(before, INPUT_COUNT as int - k as int, OUTPUT_COUNT as int)
                        matches Some(q) {
                        let qq = dec_bool_rows(
                            toks@.skip(*pos as int),
                            INPUT_COUNT as int - k as int - 1,
                            OUTPUT_COUNT as int,
                        );
                        assert(acc0 + (seq![row@] + qq->Some_0.0) =~= acc0.push(row@)
                            + qq->Some_0.0);
                    }
                }
                router_table.push(row);
                proof {
                    assert(Seq::new(router_table@.len(), |j: int| router_table@[j]@) =~= acc0.push(
                        router_table@[router_table@.len() - 1]@,
                    ));
                }
                k += 1;
            },
            None => {
                return None;
            },
        }
    }
    proof {
        assert(dec_bool_rows(toks@.skip(*pos as int), 0, OUTPUT_COUNT as int) == Some::<
            (Seq<Seq<bool>>, Seq<Token>),
        >((Seq::empty(), toks@.skip(*pos as int))));
        let acc = Seq::new(router_table@.len(), |j: int| router_table@[j]@);
        assert(acc + Seq::<Seq<bool>>::empty() =~= acc);
    }
    if router_consistent(&router, &router_table) {
        let r = Router { router, router_table };
        proof {
            assert(r@.router_table =~= Seq::new(router_table@.len(), |j: int| router_table@[j]@));
        }
        Some(r)
    } else {
        None
    }
}

} // verus!
