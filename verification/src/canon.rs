//! Value-level semantics of the marshalling the generated glue performs.
//!
//! The interpreter emits text; this module states what that text computes:
//! how richly-typed values flatten into core-convention slots and linear
//! memory, and that lifting the flattened form rebuilds the original
//! value. Flags pack bit-by-bit into 32-bit words, exactly `ceil(n / 32)`
//! of them; lists and strings move through allocations addressed by an
//! abstract pointer.

use crate::layout::spec_flag_words;
use vstd::prelude::*;

verus! {

/// Whether flag `i` is set in the packed words.
pub open spec fn spec_flag_set(words: Seq<u32>, i: int) -> bool {
    (words[i / 32] >> ((i % 32) as u32)) & 1 == 1
}

/// Packs `bits` into exactly `ceil(n / 32)` 32-bit words, bit `i` of the
/// value landing in bit `i % 32` of word `i / 32`.
pub fn pack_flags(bits: &Vec<bool>) -> (words: Vec<u32>)
    requires
        bits@.len() <= 0x0100_0000,
    ensures
        words@.len() == spec_flag_words(bits@.len()),
        forall|i: int| 0 <= i < bits@.len() ==> spec_flag_set(words@, i) == bits@[i],
{
    let n: usize = bits.len();
    let nw: usize = (n + 31) / 32;
    let mut words: Vec<u32> = Vec::new();
    let mut w: usize = 0;
    while w < nw
        invariant
            w <= nw,
            words@.len() == w,
            forall|q: int| 0 <= q < w ==> (#[trigger] words@[q]) == 0,
        decreases nw - w,
    {
        words.push(0);
        w = w + 1;
    }
    proof {
        assert forall|i: int| 0 <= i < bits@.len() implies !spec_flag_set(words@, i) by {
            let wq = i / 32;
            let sh = (i % 32) as u32;
            assert(0 <= wq < nw);
            assert(words@[wq] == 0);
            assert((0u32 >> sh) & 1 == 0) by (bit_vector);
        }
    }
    let mut i: usize = 0;
    while i < n
        invariant
            n == bits@.len(),
            n <= 0x0100_0000,
            i <= n,
            nw == spec_flag_words(n as nat),
            words@.len() == nw,
            forall|q: int| 0 <= q < i ==> spec_flag_set(words@, q) == bits@[q],
            forall|q: int| i <= q < n ==> !spec_flag_set(words@, q),
        decreases n - i,
    {
        if bits[i] {
            let wq: usize = i / 32;
            let sh: u32 = (i % 32) as u32;
            proof {
                assert(wq < nw);
            }
            let ghost oldwords = words@;
            let cur: u32 = words[wq];
            words.set(wq, cur | (1u32 << sh));
            proof {
                assert forall|q: int| 0 <= q < n implies (q < i + 1 ==> spec_flag_set(words@, q)
                    == bits@[q]) && (i + 1 <= q ==> !spec_flag_set(words@, q)) by {
                    let qw = q / 32;
                    let qs = q % 32;
                    assert(wq == i as int / 32);
                    assert(sh == (i as int % 32) as u32);
                    if q < i {
                        assert(spec_flag_set(oldwords, q) == bits@[q]);
                    } else if q > i {
                        assert(!spec_flag_set(oldwords, q));
                    }
                    if qw == wq {
                        let c = oldwords[qw];
                        let qsu = qs as u32;
                        assert(words@[qw] == c | (1u32 << sh));
                        assert(qsu < 32 && sh < 32 ==> (((c | (1u32 << sh)) >> qsu) & 1 == (
                        if qsu == sh {
                            1u32
                        } else {
                            (c >> qsu) & 1
                        }))) by (bit_vector);
                        assert(qsu < 32 && sh < 32);
                        if q != i {
                            assert(qs != i as int % 32);
                            assert(qsu != sh);
                        } else {
                            assert(qsu == sh);
                        }
                    } else {
                        assert(words@[qw] == oldwords[qw]);
                    }
                }
            }
        } else {
            proof {
                assert(!spec_flag_set(words@, i as int));
            }
        }
        i = i + 1;
    }
    words
}

/// Unpacks `n` flag bits back out of their packed words.
pub fn unpack_flags(words: &Vec<u32>, n: usize) -> (bits: Vec<bool>)
    requires
        n <= 0x0100_0000,
        words@.len() == spec_flag_words(n as nat),
    ensures
        bits@.len() == n,
        forall|i: int| 0 <= i < n ==> bits@[i] == spec_flag_set(words@, i),
{
    let mut bits: Vec<bool> = Vec::new();
    let mut i: usize = 0;
    while i < n
        invariant
            n <= 0x0100_0000,
            words@.len() == spec_flag_words(n as nat),
            i <= n,
            bits@.len() == i,
            forall|q: int| 0 <= q < i ==> (#[trigger] bits@[q]) == spec_flag_set(words@, q),
        decreases n - i,
    {
        let wq: usize = i / 32;
        let sh: u32 = (i % 32) as u32;
        proof {
            assert(wq < words@.len());
        }
        let b: bool = ((words[wq] >> sh) & 1) == 1;
        bits.push(b);
        i = i + 1;
    }
    bits
}

/// Packing then unpacking a flags value reproduces exactly the set that
/// was packed, and the packed form uses exactly `ceil(n / 32)` words.
pub proof fn lemma_flags_round_trip(bits: Seq<bool>, words: Seq<u32>, back: Seq<bool>)
    requires
        bits.len() <= 0x0100_0000,
        words.len() == spec_flag_words(bits.len()),
        forall|i: int| 0 <= i < bits.len() ==> spec_flag_set(words, i) == bits[i],
        back.len() == bits.len(),
        forall|i: int| 0 <= i < bits.len() ==> back[i] == spec_flag_set(words, i),
    ensures
        back =~= bits,
{
}

} // verus!

verus! {

/// One flattened calling-convention slot: a 32-bit or 64-bit pattern.
pub enum Flat {
    W32(u32),
    W64(u64),
}

/// The shape of a directly flattenable type: every kind except lists and
/// strings, whose payloads travel through linear memory rather than slots.
pub enum Shape {
    BoolS,
    U8S,
    U16S,
    U32S,
    U64S,
    S8S,
    S16S,
    S32S,
    S64S,
    F32S,
    F64S,
    CharS,
    RecordS(Seq<Shape>),
    VariantS(Seq<Option<Shape>>),
    UnionS(Seq<Shape>),
    OptionS(Box<Shape>),
    ResultS(Option<Box<Shape>>, Option<Box<Shape>>),
    EnumS(int),
}

/// A richly-typed value of a directly flattenable type.
pub enum Val {
    BoolV(bool),
    U8V(u8),
    U16V(u16),
    U32V(u32),
    U64V(u64),
    S8V(i8),
    S16V(i16),
    S32V(i32),
    S64V(i64),
    F32V(u32),
    F64V(u64),
    CharV(u32),
    RecordV(Seq<Val>),
    VariantV(int, Option<Box<Val>>),
    UnionV(int, Box<Val>),
    SomeV(Box<Val>),
    NoneV,
    OkV(Option<Box<Val>>),
    ErrV(Option<Box<Val>>),
    EnumV(int),
}

/// Whether a value inhabits a shape.
pub open spec fn has_shape(v: Val, s: Shape) -> bool
    decreases v, 0int, 0int,
{
    match (v, s) {
        (Val::BoolV(_), Shape::BoolS) => true,
        (Val::U8V(_), Shape::U8S) => true,
        (Val::U16V(_), Shape::U16S) => true,
        (Val::U32V(_), Shape::U32S) => true,
        (Val::U64V(_), Shape::U64S) => true,
        (Val::S8V(_), Shape::S8S) => true,
        (Val::S16V(_), Shape::S16S) => true,
        (Val::S32V(_), Shape::S32S) => true,
        (Val::S64V(_), Shape::S64S) => true,
        (Val::F32V(_), Shape::F32S) => true,
        (Val::F64V(_), Shape::F64S) => true,
        (Val::CharV(c), Shape::CharS) => c < 0x11_0000,
        (Val::RecordV(vs), Shape::RecordS(ss)) => vs.len() == ss.len() && shapes_match(vs, ss),
        (Val::VariantV(i, payload), Shape::VariantS(cases)) => {
            &&& 0 <= i < cases.len()
            &&& cases.len() < 0x1_0000_0000
            &&& match (payload, cases[i]) {
                (Some(p), Some(ps)) => has_shape(*p, ps),
                (None, None) => true,
                _ => false,
            }
        },
        (Val::UnionV(i, p), Shape::UnionS(cases)) => 0 <= i < cases.len() && cases.len()
            < 0x1_0000_0000 && has_shape(*p, cases[i]),
        (Val::SomeV(p), Shape::OptionS(inner)) => has_shape(*p, *inner),
        (Val::NoneV, Shape::OptionS(_)) => true,
        (Val::OkV(p), Shape::ResultS(ok, _)) => match (p, ok) {
            (Some(pv), Some(os)) => has_shape(*pv, *os),
            (None, None) => true,
            _ => false,
        },
        (Val::ErrV(p), Shape::ResultS(_, err)) => match (p, err) {
            (Some(pv), Some(es)) => has_shape(*pv, *es),
            (None, None) => true,
            _ => false,
        },
        (Val::EnumV(i), Shape::EnumS(n)) => 0 <= i < n && n < 0x1_0000_0000,
        _ => false,
    }
}

/// Whether each element of a record inhabits the matching field shape.
pub open spec fn shapes_match(vs: Seq<Val>, ss: Seq<Shape>) -> bool
    decreases vs, 1int, vs.len(),
{
    if vs.len() == 0 {
        true
    } else {
        has_shape(vs[0], ss[0]) && shapes_match(
            vs.subrange(1, vs.len() as int),
            ss.subrange(1, ss.len() as int),
        )
    }
}

/// Lowers a value into its flattened slot sequence: scalars widen into one
/// slot, records flatten field by field in declaration order, and tagged
/// values put their zero-based discriminant ahead of the active payload.
pub open spec fn lower_val(v: Val) -> Seq<Flat>
    decreases v, 0int, 0int,
{
    match v {
        Val::BoolV(b) => seq![Flat::W32(if b { 1u32 } else { 0u32 })],
        Val::U8V(x) => seq![Flat::W32(x as u32)],
        Val::U16V(x) => seq![Flat::W32(x as u32)],
        Val::U32V(x) => seq![Flat::W32(x)],
        Val::U64V(x) => seq![Flat::W64(x)],
        Val::S8V(x) => seq![Flat::W32((x as i32) as u32)],
        Val::S16V(x) => seq![Flat::W32((x as i32) as u32)],
        Val::S32V(x) => seq![Flat::W32(x as u32)],
        Val::S64V(x) => seq![Flat::W64(x as u64)],
        Val::F32V(b) => seq![Flat::W32(b)],
        Val::F64V(b) => seq![Flat::W64(b)],
        Val::CharV(c) => seq![Flat::W32(c)],
        Val::RecordV(vs) => lower_vals(vs),
        Val::VariantV(i, payload) => seq![Flat::W32(i as u32)] + (match payload {
            Some(p) => lower_val(*p),
            None => Seq::<Flat>::empty(),
        }),
        Val::UnionV(i, p) => seq![Flat::W32(i as u32)] + lower_val(*p),
        Val::SomeV(p) => seq![Flat::W32(1u32)] + lower_val(*p),
        Val::NoneV => seq![Flat::W32(0u32)],
        Val::OkV(p) => seq![Flat::W32(0u32)] + (match p {
            Some(pv) => lower_val(*pv),
            None => Seq::<Flat>::empty(),
        }),
        Val::ErrV(p) => seq![Flat::W32(1u32)] + (match p {
            Some(pv) => lower_val(*pv),
            None => Seq::<Flat>::empty(),
        }),
        Val::EnumV(i) => seq![Flat::W32(i as u32)],
    }
}

/// Lowers record fields in order.
pub open spec fn lower_vals(vs: Seq<Val>) -> Seq<Flat>
    decreases vs, 1int, vs.len(),
{
    if vs.len() == 0 {
        Seq::<Flat>::empty()
    } else {
        lower_val(vs[0]) + lower_vals(vs.subrange(1, vs.len() as int))
    }
}

/// Lifts one value of shape `s` from the slot stream starting at `pos`.
/// Under checked validation an out-of-range discriminant or encoding makes
/// the whole conversion fail rather than produce a value.
pub open spec fn lift_val(s: Shape, flats: Seq<Flat>, pos: int) -> Option<(Val, int)>
    decreases s, 0int, 0int,
{
    match s {
        Shape::BoolS => match read32(flats, pos) {
            Some(w) => if w == 0 {
                Some((Val::BoolV(false), pos + 1))
            } else if w == 1 {
                Some((Val::BoolV(true), pos + 1))
            } else {
                None
            },
            None => None,
        },
        Shape::U8S => match read32(flats, pos) {
            Some(w) => Some((Val::U8V(w as u8), pos + 1)),
            None => None,
        },
        Shape::U16S => match read32(flats, pos) {
            Some(w) => Some((Val::U16V(w as u16), pos + 1)),
            None => None,
        },
        Shape::U32S => match read32(flats, pos) {
            Some(w) => Some((Val::U32V(w), pos + 1)),
            None => None,
        },
        Shape::U64S => match read64(flats, pos) {
            Some(w) => Some((Val::U64V(w), pos + 1)),
            None => None,
        },
        Shape::S8S => match read32(flats, pos) {
            Some(w) => Some((Val::S8V(((w as i32) as i8)), pos + 1)),
            None => None,
        },
        Shape::S16S => match read32(flats, pos) {
            Some(w) => Some((Val::S16V(((w as i32) as i16)), pos + 1)),
            None => None,
        },
        Shape::S32S => match read32(flats, pos) {
            Some(w) => Some((Val::S32V(w as i32), pos + 1)),
            None => None,
        },
        Shape::S64S => match read64(flats, pos) {
            Some(w) => Some((Val::S64V(w as i64), pos + 1)),
            None => None,
        },
        Shape::F32S => match read32(flats, pos) {
            Some(w) => Some((Val::F32V(w), pos + 1)),
            None => None,
        },
        Shape::F64S => match read64(flats, pos) {
            Some(w) => Some((Val::F64V(w), pos + 1)),
            None => None,
        },
        Shape::CharS => match read32(flats, pos) {
            Some(w) => if w < 0x11_0000 {
                Some((Val::CharV(w), pos + 1))
            } else {
                None
            },
            None => None,
        },
        Shape::RecordS(ss) => match lift_vals(ss, flats, pos) {
            Some((vs, p2)) => Some((Val::RecordV(vs), p2)),
            None => None,
        },
        Shape::VariantS(cases) => match read32(flats, pos) {
            Some(w) => {
                let i = w as int;
                if i < cases.len() {
                    match cases[i] {
                        Some(ps) => match lift_val(ps, flats, pos + 1) {
                            Some((p, p2)) => Some((Val::VariantV(i, Some(Box::new(p))), p2)),
                            None => None,
                        },
                        None => Some((Val::VariantV(i, None), pos + 1)),
                    }
                } else {
                    None
                }
            },
            None => None,
        },
        Shape::UnionS(cases) => match read32(flats, pos) {
            Some(w) => {
                let i = w as int;
                if i < cases.len() {
                    match lift_val(cases[i], flats, pos + 1) {
                        Some((p, p2)) => Some((Val::UnionV(i, Box::new(p)), p2)),
                        None => None,
                    }
                } else {
                    None
                }
            },
            None => None,
        },
        Shape::OptionS(inner) => match read32(flats, pos) {
            Some(w) => if w == 0 {
                Some((Val::NoneV, pos + 1))
            } else if w == 1 {
                match lift_val(*inner, flats, pos + 1) {
                    Some((p, p2)) => Some((Val::SomeV(Box::new(p)), p2)),
                    None => None,
                }
            } else {
                None
            },
            None => None,
        },
        Shape::ResultS(ok, err) => match read32(flats, pos) {
            Some(w) => if w == 0 {
                match ok {
                    Some(os) => match lift_val(*os, flats, pos + 1) {
                        Some((p, p2)) => Some((Val::OkV(Some(Box::new(p))), p2)),
                        None => None,
                    },
                    None => Some((Val::OkV(None), pos + 1)),
                }
            } else if w == 1 {
                match err {
                    Some(es) => match lift_val(*es, flats, pos + 1) {
                        Some((p, p2)) => Some((Val::ErrV(Some(Box::new(p))), p2)),
                        None => None,
                    },
                    None => Some((Val::ErrV(None), pos + 1)),
                }
            } else {
                None
            },
            None => None,
        },
        Shape::EnumS(n) => match read32(flats, pos) {
            Some(w) => if (w as int) < n {
                Some((Val::EnumV(w as int), pos + 1))
            } else {
                None
            },
            None => None,
        },
    }
}

/// Lifts a record's fields in order.
pub open spec fn lift_vals(ss: Seq<Shape>, flats: Seq<Flat>, pos: int) -> Option<(Seq<Val>, int)>
    decreases ss, 1int, ss.len(),
{
    if ss.len() == 0 {
        Some((Seq::<Val>::empty(), pos))
    } else {
        match lift_val(ss[0], flats, pos) {
            Some((v, p1)) => match lift_vals(ss.subrange(1, ss.len() as int), flats, p1) {
                Some((vs, p2)) => Some((seq![v] + vs, p2)),
                None => None,
            },
            None => None,
        }
    }
}

pub open spec fn read32(flats: Seq<Flat>, pos: int) -> Option<u32> {
    if 0 <= pos < flats.len() {
        match flats[pos] {
            Flat::W32(w) => Some(w),
            Flat::W64(_) => None,
        }
    } else {
        None
    }
}

pub open spec fn read64(flats: Seq<Flat>, pos: int) -> Option<u64> {
    if 0 <= pos < flats.len() {
        match flats[pos] {
            Flat::W64(w) => Some(w),
            Flat::W32(_) => None,
        }
    } else {
        None
    }
}

/// Pointwise view of an embedded slot run.
pub proof fn lemma_sub_eq(flats: Seq<Flat>, pos: int, f: Seq<Flat>)
    requires
        0 <= pos,
        pos + f.len() <= flats.len(),
        flats.subrange(pos, pos + f.len() as int) == f,
    ensures
        forall|q: int| 0 <= q < f.len() ==> flats[pos + q] == #[trigger] f[q],
{
    assert forall|q: int| 0 <= q < f.len() implies flats[pos + q] == #[trigger] f[q] by {
        assert(f[q] == flats.subrange(pos, pos + f.len() as int)[q]);
    }
}

/// An embedded payload run is itself an embedded run, one slot further in.
pub proof fn lemma_payload_sub(flats: Seq<Flat>, pos: int, f: Seq<Flat>, fp: Seq<Flat>)
    requires
        0 <= pos,
        pos + f.len() <= flats.len(),
        flats.subrange(pos, pos + f.len() as int) == f,
        f.len() == 1 + fp.len(),
        forall|q: int| 0 <= q < fp.len() ==> #[trigger] fp[q] == f[q + 1],
    ensures
        flats.subrange(pos + 1, pos + 1 + fp.len() as int) == fp,
{
    lemma_sub_eq(flats, pos, f);
    assert forall|k: int| 0 <= k < fp.len() implies flats.subrange(
        pos + 1,
        pos + 1 + fp.len() as int,
    )[k] == fp[k] by {
        assert(fp[k] == f[k + 1]);
        assert(flats[pos + (k + 1)] == f[k + 1]);
    }
    assert(flats.subrange(pos + 1, pos + 1 + fp.len() as int) =~= fp);
}

/// Round trip: lowering a well-shaped value and lifting the result yields
/// a value structurally equal to the original, wherever in a larger slot
/// stream the lowered form sits.
pub proof fn lemma_round_trip(v: Val, s: Shape, flats: Seq<Flat>, pos: int)
    requires
        has_shape(v, s),
        0 <= pos,
        pos + lower_val(v).len() <= flats.len(),
        flats.subrange(pos, pos + lower_val(v).len() as int) == lower_val(v),
    ensures
        lift_val(s, flats, pos) == Some((v, pos + lower_val(v).len() as int)),
    decreases v, 0int, 0int,
{
    let f = lower_val(v);
    lemma_sub_eq(flats, pos, f);
    match v {
        Val::RecordV(vs) => {
            let ss = (match s {
                Shape::RecordS(ss) => ss,
                _ => Seq::<Shape>::empty(),
            });
            lemma_round_trip_vals(vs, ss, flats, pos);
        },
        Val::VariantV(i, payload) => {
            assert(flats[pos + 0] == f[0]);
            match payload {
                Some(p) => {
                    let cases = (match s {
                        Shape::VariantS(cases) => cases,
                        _ => Seq::<Option<Shape>>::empty(),
                    });
                    let ps = cases[i]->Some_0;
                    let fp = lower_val(*p);
                    assert(forall|q: int| 0 <= q < fp.len() ==> #[trigger] fp[q] == f[q + 1]);
                    lemma_payload_sub(flats, pos, f, fp);
                    lemma_round_trip(*p, ps, flats, pos + 1);
                },
                None => {},
            }
        },
        Val::UnionV(i, p) => {
            assert(flats[pos + 0] == f[0]);
            let cases = (match s {
                Shape::UnionS(cases) => cases,
                _ => Seq::<Shape>::empty(),
            });
            let fp = lower_val(*p);
            assert(forall|q: int| 0 <= q < fp.len() ==> #[trigger] fp[q] == f[q + 1]);
            lemma_payload_sub(flats, pos, f, fp);
            lemma_round_trip(*p, cases[i], flats, pos + 1);
        },
        Val::SomeV(p) => {
            assert(flats[pos + 0] == f[0]);
            let inner = (match s {
                Shape::OptionS(inner) => *inner,
                _ => Shape::BoolS,
            });
            let fp = lower_val(*p);
            assert(forall|q: int| 0 <= q < fp.len() ==> #[trigger] fp[q] == f[q + 1]);
            lemma_payload_sub(flats, pos, f, fp);
            lemma_round_trip(*p, inner, flats, pos + 1);
        },
        Val::OkV(payload) => {
            assert(flats[pos + 0] == f[0]);
            match payload {
                Some(p) => {
                    let os = (match s {
                        Shape::ResultS(ok, _) => *ok->Some_0,
                        _ => Shape::BoolS,
                    });
                    let fp = lower_val(*p);
                    assert(forall|q: int| 0 <= q < fp.len() ==> #[trigger] fp[q] == f[q + 1]);
                    lemma_payload_sub(flats, pos, f, fp);
                    lemma_round_trip(*p, os, flats, pos + 1);
                },
                None => {},
            }
        },
        Val::ErrV(payload) => {
            assert(flats[pos + 0] == f[0]);
            match payload {
                Some(p) => {
                    let es = (match s {
                        Shape::ResultS(_, err) => *err->Some_0,
                        _ => Shape::BoolS,
                    });
                    let fp = lower_val(*p);
                    assert(forall|q: int| 0 <= q < fp.len() ==> #[trigger] fp[q] == f[q + 1]);
                    lemma_payload_sub(flats, pos, f, fp);
                    lemma_round_trip(*p, es, flats, pos + 1);
                },
                None => {},
            }
        },
        _ => {
            assert(f.len() == 1);
            assert(flats[pos + 0] == f[0]);
            match v {
                Val::S8V(x) => {
                    assert((((x as i32) as u32) as i32) as i8 == x) by (bit_vector);
                },
                Val::S16V(x) => {
                    assert((((x as i32) as u32) as i32) as i16 == x) by (bit_vector);
                },
                Val::S32V(x) => {
                    assert(((x as u32) as i32) == x) by (bit_vector);
                },
                Val::S64V(x) => {
                    assert(((x as u64) as i64) == x) by (bit_vector);
                },
                _ => {},
            }
        },
    }
}

/// Round trip for a record's field list.
pub proof fn lemma_round_trip_vals(vs: Seq<Val>, ss: Seq<Shape>, flats: Seq<Flat>, pos: int)
    requires
        vs.len() == ss.len(),
        shapes_match(vs, ss),
        0 <= pos,
        pos + lower_vals(vs).len() <= flats.len(),
        flats.subrange(pos, pos + lower_vals(vs).len() as int) == lower_vals(vs),
    ensures
        lift_vals(ss, flats, pos) == Some((vs, pos + lower_vals(vs).len() as int)),
    decreases vs, 1int, vs.len(),
{
    lemma_sub_eq(flats, pos, lower_vals(vs));
    if vs.len() == 0 {
        assert(lower_vals(vs).len() == 0);
        assert(vs =~= Seq::<Val>::empty());
    } else {
        let v0 = vs[0];
        let f0 = lower_val(v0);
        let rest = vs.subrange(1, vs.len() as int);
        let frest = lower_vals(rest);
        assert(lower_vals(vs) == f0 + frest);
        assert forall|k: int| 0 <= k < f0.len() implies flats.subrange(
            pos,
            pos + f0.len() as int,
        )[k] == f0[k] by {
            assert(flats[pos + k] == lower_vals(vs)[k]);
            assert(lower_vals(vs)[k] == f0[k]);
        }
        assert(flats.subrange(pos, pos + f0.len() as int) =~= f0);
        lemma_round_trip(v0, ss[0], flats, pos);
        assert forall|k: int| 0 <= k < frest.len() implies flats.subrange(
            pos + f0.len() as int,
            pos + f0.len() + frest.len() as int,
        )[k] == frest[k] by {
            assert(flats[pos + (f0.len() + k)] == lower_vals(vs)[f0.len() + k]);
            assert(lower_vals(vs)[f0.len() + k] == frest[k]);
        }
        assert(flats.subrange(pos + f0.len() as int, pos + f0.len() + frest.len() as int)
            =~= frest);
        lemma_round_trip_vals(rest, ss.subrange(1, ss.len() as int), flats, pos + f0.len() as int);
        assert(vs =~= seq![v0] + rest);
        assert(lift_vals(ss, flats, pos) == Some((vs, pos + lower_vals(vs).len() as int)));
    }
}

} // verus!
