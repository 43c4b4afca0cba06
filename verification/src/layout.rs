//! Size and alignment oracle for the flattened memory representation.
//!
//! Every type of the graph is given the byte size and alignment its values
//! occupy in linear memory under the canonical calling convention: scalars
//! at their natural size, strings and lists as a pointer/length pair,
//! handles as a single word, records field by field with padding, tagged
//! types as a discriminant followed by the aligned payload, and flags as
//! one machine word per 32 bits.
//!
//! The spec functions recurse through the type table guarded by the table's
//! topological order; on a well-formed graph the guards never cut anything
//! off.

use crate::model::{kind_below, lemma_tuple_ty_below, lemma_union_ty_below, opt_ty_below, ty_below, Case, Field, Graph, Ty, TypeDefKind};
use vstd::prelude::*;

verus! {

/// Rounds `n` up to the next multiple of the alignment `a`.
pub open spec fn spec_align_to(n: nat, a: nat) -> nat
    recommends
        a > 0,
{
    if a == 0 {
        n
    } else {
        (((n + a - 1) / (a as int)) * (a as int)) as nat
    }
}

/// Aligns a byte offset up to an alignment that is a power of two at most 8.
pub fn align_to(n: u32, a: u32) -> (r: u32)
    requires
        1 <= a <= 8,
        n <= 0xff00_0000,
    ensures
        r == spec_align_to(n as nat, a as nat),
        r >= n,
        r % a == 0,
        r < n + a,
{
    let m: u32 = n + a - 1;
    let q: u32 = m / a;
    proof {
        let qi = q as int;
        let ai = a as int;
        let mi = m as int;
        let ni = n as int;
        assert(qi * ai <= mi && qi * ai >= ni && qi * ai < ni + ai && (qi * ai) % ai == 0)
            by (nonlinear_arith)
            requires
                ai >= 1,
                ni >= 0,
                mi == ni + ai - 1,
                qi == mi / ai,
        ;
    }
    let r: u32 = q * a;
    r
}

/// The number of bytes a discriminant takes for `n` cases.
pub open spec fn spec_tag_size(n: nat) -> nat {
    if n <= 0x100 {
        1
    } else if n <= 0x10000 {
        2
    } else {
        4
    }
}

/// The byte size of a case discriminant, by case count.
pub fn tag_size(n: usize) -> (r: usize)
    ensures
        r == spec_tag_size(n as nat),
        1 <= r <= 4,
{
    if n <= 0x100 {
        1
    } else if n <= 0x10000 {
        2
    } else {
        4
    }
}

/// The Rust integer type backing a discriminant of `n` cases.
pub open spec fn spec_int_repr(n: nat) -> Seq<char> {
    if n <= 0x100 {
        "u8"@
    } else if n <= 0x10000 {
        "u16"@
    } else {
        "u32"@
    }
}

/// Names the Rust integer type backing a discriminant of `n` cases.
pub fn int_repr(n: usize) -> (r: &'static str)
    ensures
        r@ == spec_int_repr(n as nat),
{
    if n <= 0x100 {
        "u8"
    } else if n <= 0x10000 {
        "u16"
    } else {
        "u32"
    }
}

/// Number of 32-bit words needed to carry `n` flag bits across the
/// calling-convention boundary: exactly `ceil(n / 32)`.
pub open spec fn spec_flag_words(n: nat) -> nat {
    (n + 31) / 32
}

/// Computes how many 32-bit words back a flags type of `n` bits.
pub fn flag_words(n: u32) -> (r: u32)
    requires
        n <= 0xffff_ffe0,
    ensures
        r == spec_flag_words(n as nat),
        32 * r >= n,
        n > 0 ==> 32 * (r - 1) < n,
{
    (n + 31) / 32
}

/// The Rust integer type backing a flags type of `n` bits.
pub open spec fn spec_flags_repr(n: nat) -> Seq<char> {
    if n <= 8 {
        "u8"@
    } else if n <= 16 {
        "u16"@
    } else if n <= 32 {
        "u32"@
    } else if n <= 64 {
        "u64"@
    } else {
        "u128"@
    }
}

/// Names the Rust integer type backing a flags type of `n` bits.
pub fn flags_repr(n: usize) -> (r: &'static str)
    ensures
        r@ == spec_flags_repr(n as nat),
{
    if n <= 8 {
        "u8"
    } else if n <= 16 {
        "u16"
    } else if n <= 32 {
        "u32"
    } else if n <= 64 {
        "u64"
    } else {
        "u128"
    }
}

/// The memory footprint of a flags type of `n` bits.
pub open spec fn spec_flags_size(n: nat) -> nat {
    if n <= 8 {
        1
    } else if n <= 16 {
        2
    } else {
        4 * spec_flag_words(n)
    }
}

pub open spec fn spec_flags_align(n: nat) -> nat {
    if n <= 8 {
        1
    } else if n <= 16 {
        2
    } else {
        4
    }
}

/// Guarded size of a type reference: table entries are only followed when
/// they lie strictly below `bound`.
pub open spec fn size_guarded(g: &Graph, t: Ty, bound: int) -> nat
    decreases bound, 0int, 0int,
{
    match t {
        Ty::Bool => 1,
        Ty::U8 => 1,
        Ty::S8 => 1,
        Ty::U16 => 2,
        Ty::S16 => 2,
        Ty::U32 => 4,
        Ty::S32 => 4,
        Ty::Float32 => 4,
        Ty::Char => 4,
        Ty::U64 => 8,
        Ty::S64 => 8,
        Ty::Float64 => 8,
        Ty::Str => 8,
        Ty::Id(j) => {
            if 0 <= j && j + 1 < bound && j < g.types@.len() {
                size_def(g, j as int)
            } else {
                0
            }
        },
    }
}

/// Guarded alignment of a type reference.
pub open spec fn align_guarded(g: &Graph, t: Ty, bound: int) -> nat
    decreases bound, 0int, 0int,
{
    match t {
        Ty::Bool => 1,
        Ty::U8 => 1,
        Ty::S8 => 1,
        Ty::U16 => 2,
        Ty::S16 => 2,
        Ty::U32 => 4,
        Ty::S32 => 4,
        Ty::Float32 => 4,
        Ty::Char => 4,
        Ty::U64 => 8,
        Ty::S64 => 8,
        Ty::Float64 => 8,
        Ty::Str => 4,
        Ty::Id(j) => {
            if 0 <= j && j + 1 < bound && j < g.types@.len() {
                align_def(g, j as int)
            } else {
                1
            }
        },
    }
}

pub open spec fn opt_size_guarded(g: &Graph, t: Option<Ty>, bound: int) -> nat
    decreases bound, 1int, 0int,
{
    match t {
        Some(ty) => size_guarded(g, ty, bound),
        None => 0,
    }
}

pub open spec fn opt_align_guarded(g: &Graph, t: Option<Ty>, bound: int) -> nat
    decreases bound, 1int, 0int,
{
    match t {
        Some(ty) => align_guarded(g, ty, bound),
        None => 1,
    }
}

/// Byte offset just past field `k` of a record laid out field by field,
/// padding each field to its own alignment.
pub open spec fn fields_end(g: &Graph, fields: Seq<Ty>, k: int, bound: int) -> nat
    decreases bound, 2int, k,
{
    if k <= 0 {
        0
    } else {
        spec_align_to(fields_end(g, fields, k - 1, bound), align_guarded(g, fields[k - 1], bound))
            + size_guarded(g, fields[k - 1], bound)
    }
}

/// The largest alignment among the first `k` fields (at least 1).
pub open spec fn fields_align(g: &Graph, fields: Seq<Ty>, k: int, bound: int) -> nat
    decreases bound, 2int, k,
{
    if k <= 0 {
        1
    } else {
        let rest = fields_align(g, fields, k - 1, bound);
        let a = align_guarded(g, fields[k - 1], bound);
        if a > rest {
            a
        } else {
            rest
        }
    }
}

/// The largest payload size among the first `k` cases.
pub open spec fn cases_size(g: &Graph, cases: Seq<Option<Ty>>, k: int, bound: int) -> nat
    decreases bound, 2int, k,
{
    if k <= 0 {
        0
    } else {
        let rest = cases_size(g, cases, k - 1, bound);
        let s = opt_size_guarded(g, cases[k - 1], bound);
        if s > rest {
            s
        } else {
            rest
        }
    }
}

/// The largest payload alignment among the first `k` cases (at least 1).
pub open spec fn cases_align(g: &Graph, cases: Seq<Option<Ty>>, k: int, bound: int) -> nat
    decreases bound, 2int, k,
{
    if k <= 0 {
        1
    } else {
        let rest = cases_align(g, cases, k - 1, bound);
        let a = opt_align_guarded(g, cases[k - 1], bound);
        if a > rest {
            a
        } else {
            rest
        }
    }
}

/// Size of a tagged type: the discriminant, then the payload at its
/// alignment, the whole padded to the overall alignment.
pub open spec fn tagged_size(tag: nat, payload_size: nat, payload_align: nat) -> nat {
    let a = if payload_align > tag {
        payload_align
    } else {
        tag
    };
    spec_align_to(spec_align_to(tag, payload_align) + payload_size, a)
}

pub open spec fn tagged_align(tag: nat, payload_align: nat) -> nat {
    if payload_align > tag {
        payload_align
    } else {
        tag
    }
}

/// The field types of a record, as plain type references.
pub open spec fn field_tys(fields: Seq<Field>) -> Seq<Ty> {
    fields.map_values(|f: Field| f.ty)
}

/// The payload types of a variant's cases.
pub open spec fn case_tys(cases: Seq<Case>) -> Seq<Option<Ty>> {
    cases.map_values(|c: Case| c.ty)
}

pub open spec fn union_tys(tys: Seq<Ty>) -> Seq<Option<Ty>> {
    tys.map_values(|t: Ty| Some(t))
}

/// The memory size of table entry `j`.
pub open spec fn size_def(g: &Graph, j: int) -> nat
    decreases j + 1, 3int, 0int,
{
    if 0 <= j < g.types@.len() {
        match g.types@[j].kind {
            TypeDefKind::Record(fields) => {
                let tys = field_tys(fields@);
                spec_align_to(
                    fields_end(g, tys, tys.len() as int, j + 1),
                    fields_align(g, tys, tys.len() as int, j + 1),
                )
            },
            TypeDefKind::Tuple(tys) => spec_align_to(
                fields_end(g, tys@, tys@.len() as int, j + 1),
                fields_align(g, tys@, tys@.len() as int, j + 1),
            ),
            TypeDefKind::Flags(names) => spec_flags_size(names@.len()),
            TypeDefKind::Variant(cases) => tagged_size(
                spec_tag_size(cases@.len()),
                cases_size(g, case_tys(cases@), cases@.len() as int, j + 1),
                cases_align(g, case_tys(cases@), cases@.len() as int, j + 1),
            ),
            TypeDefKind::Union(tys) => tagged_size(
                1,
                cases_size(g, union_tys(tys@), tys@.len() as int, j + 1),
                cases_align(g, union_tys(tys@), tys@.len() as int, j + 1),
            ),
            TypeDefKind::OptionOf(t) => tagged_size(
                1,
                size_guarded(g, t, j + 1),
                align_guarded(g, t, j + 1),
            ),
            TypeDefKind::ResultOf(ok, err) => tagged_size(
                1,
                cases_size(g, seq![ok, err], 2, j + 1),
                cases_align(g, seq![ok, err], 2, j + 1),
            ),
            TypeDefKind::EnumOf(cases) => spec_tag_size(cases@.len()),
            TypeDefKind::List(_) => 8,
            TypeDefKind::Alias(t) => size_guarded(g, t, j + 1),
            TypeDefKind::Resource => 4,
            TypeDefKind::Own(_) => 4,
            TypeDefKind::Borrow(_) => 4,
        }
    } else {
        0
    }
}

/// The memory alignment of table entry `j`.
pub open spec fn align_def(g: &Graph, j: int) -> nat
    decreases j + 1, 3int, 0int,
{
    if 0 <= j < g.types@.len() {
        match g.types@[j].kind {
            TypeDefKind::Record(fields) => {
                let tys = field_tys(fields@);
                fields_align(g, tys, tys.len() as int, j + 1)
            },
            TypeDefKind::Tuple(tys) => fields_align(g, tys@, tys@.len() as int, j + 1),
            TypeDefKind::Flags(names) => spec_flags_align(names@.len()),
            TypeDefKind::Variant(cases) => tagged_align(
                spec_tag_size(cases@.len()),
                cases_align(g, case_tys(cases@), cases@.len() as int, j + 1),
            ),
            TypeDefKind::Union(tys) => tagged_align(
                1,
                cases_align(g, union_tys(tys@), tys@.len() as int, j + 1),
            ),
            TypeDefKind::OptionOf(t) => tagged_align(1, align_guarded(g, t, j + 1)),
            TypeDefKind::ResultOf(ok, err) => tagged_align(
                1,
                cases_align(g, seq![ok, err], 2, j + 1),
            ),
            TypeDefKind::EnumOf(cases) => spec_tag_size(cases@.len()),
            TypeDefKind::List(_) => 4,
            TypeDefKind::Alias(t) => align_guarded(g, t, j + 1),
            TypeDefKind::Resource => 4,
            TypeDefKind::Own(_) => 4,
            TypeDefKind::Borrow(_) => 4,
        }
    } else {
        1
    }
}

/// The size of a type on a well-formed graph.
pub open spec fn spec_size_of(g: &Graph, t: Ty) -> nat {
    size_guarded(g, t, g.types@.len() as int + 1)
}

/// The alignment of a type on a well-formed graph.
pub open spec fn spec_align_of(g: &Graph, t: Ty) -> nat {
    align_guarded(g, t, g.types@.len() as int + 1)
}

} // verus!

verus! {

/// All table entries fit comfortably in memory; the oracle computes within
/// this budget without overflow.
pub open spec fn sizes_bounded(g: &Graph) -> bool {
    forall|j: int| 0 <= j < g.types@.len() ==> size_def(g, j) <= 0x0100_0000
}

pub proof fn lemma_align_to_ge(n: nat, a: nat)
    requires
        a >= 1,
    ensures
        spec_align_to(n, a) >= n,
        spec_align_to(n, a) < n + a,
{
    let ni = n as int;
    let ai = a as int;
    let r = ((ni + ai - 1) / ai) * ai;
    assert(r >= ni && r < ni + ai) by (nonlinear_arith)
        requires
            ai >= 1,
            ni >= 0,
            r == ((ni + ai - 1) / ai) * ai,
    ;
}

pub proof fn lemma_align_guarded_range(g: &Graph, t: Ty, bound: int)
    ensures
        1 <= align_guarded(g, t, bound) <= 8,
    decreases bound, 0int, 0int,
{
    match t {
        Ty::Id(j) => {
            if 0 <= j && j + 1 < bound && j < g.types@.len() {
                lemma_align_def_range(g, j as int);
            }
        },
        _ => {},
    }
}

pub proof fn lemma_opt_align_guarded_range(g: &Graph, t: Option<Ty>, bound: int)
    ensures
        1 <= opt_align_guarded(g, t, bound) <= 8,
    decreases bound, 1int, 0int,
{
    match t {
        Some(ty) => lemma_align_guarded_range(g, ty, bound),
        None => {},
    }
}

pub proof fn lemma_fields_align_range(g: &Graph, tys: Seq<Ty>, k: int, bound: int)
    ensures
        1 <= fields_align(g, tys, k, bound) <= 8,
    decreases bound, 2int, k,
{
    if k > 0 {
        lemma_fields_align_range(g, tys, k - 1, bound);
        lemma_align_guarded_range(g, tys[k - 1], bound);
    }
}

pub proof fn lemma_cases_align_range(g: &Graph, cases: Seq<Option<Ty>>, k: int, bound: int)
    ensures
        1 <= cases_align(g, cases, k, bound) <= 8,
    decreases bound, 2int, k,
{
    if k > 0 {
        lemma_cases_align_range(g, cases, k - 1, bound);
        lemma_opt_align_guarded_range(g, cases[k - 1], bound);
    }
}

pub proof fn lemma_align_def_range(g: &Graph, j: int)
    ensures
        1 <= align_def(g, j) <= 8,
    decreases j + 1, 3int, 0int,
{
    if 0 <= j < g.types@.len() {
        match g.types@[j].kind {
            TypeDefKind::Record(fields) => {
                lemma_fields_align_range(g, field_tys(fields@), fields@.len() as int, j + 1);
            },
            TypeDefKind::Tuple(tys) => {
                lemma_fields_align_range(g, tys@, tys@.len() as int, j + 1);
            },
            TypeDefKind::Variant(cases) => {
                lemma_cases_align_range(g, case_tys(cases@), cases@.len() as int, j + 1);
            },
            TypeDefKind::Union(tys) => {
                lemma_cases_align_range(g, union_tys(tys@), tys@.len() as int, j + 1);
            },
            TypeDefKind::OptionOf(t) => {
                lemma_align_guarded_range(g, t, j + 1);
            },
            TypeDefKind::ResultOf(ok, err) => {
                lemma_cases_align_range(g, seq![ok, err], 2, j + 1);
            },
            TypeDefKind::Alias(t) => {
                lemma_align_guarded_range(g, t, j + 1);
            },
            _ => {},
        }
    }
}

/// Offsets only grow as fields are added.
pub proof fn lemma_fields_end_mono(g: &Graph, tys: Seq<Ty>, k1: int, k2: int, bound: int)
    requires
        k1 <= k2,
    ensures
        fields_end(g, tys, k1, bound) <= fields_end(g, tys, k2, bound),
    decreases bound, 2int, k2,
{
    if k2 > 0 && k1 < k2 {
        lemma_fields_end_mono(g, tys, k1, k2 - 1, bound);
        lemma_align_guarded_range(g, tys[k2 - 1], bound);
        lemma_align_to_ge(fields_end(g, tys, k2 - 1, bound), align_guarded(g, tys[k2 - 1], bound));
    }
}

/// The running maximum of case payload sizes only grows.
pub proof fn lemma_cases_size_mono(g: &Graph, cases: Seq<Option<Ty>>, k1: int, k2: int, bound: int)
    requires
        k1 <= k2,
    ensures
        cases_size(g, cases, k1, bound) <= cases_size(g, cases, k2, bound),
    decreases bound, 2int, k2,
{
    if k2 > 0 && k1 < k2 {
        lemma_cases_size_mono(g, cases, k1, k2 - 1, bound);
    }
}

} // verus!

verus! {

/// The size of a type, as the canonical layout gives it.
pub fn size_of(g: &Graph, t: &Ty) -> (r: usize)
    requires
        g.wf(),
        sizes_bounded(g),
    ensures
        r == spec_size_of(g, *t),
        r <= 0x0100_0000,
    decreases (match *t {
        Ty::Id(j) => j + 1,
        _ => 0,
    }), 0int,
{
    match *t {
        Ty::Bool => 1,
        Ty::U8 => 1,
        Ty::S8 => 1,
        Ty::U16 => 2,
        Ty::S16 => 2,
        Ty::U32 => 4,
        Ty::S32 => 4,
        Ty::Float32 => 4,
        Ty::Char => 4,
        Ty::U64 => 8,
        Ty::S64 => 8,
        Ty::Float64 => 8,
        Ty::Str => 8,
        Ty::Id(j) => {
            if j < g.types.len() {
                size_def_exec(g, j)
            } else {
                0
            }
        },
    }
}

/// The alignment of a type, as the canonical layout gives it.
pub fn align_of(g: &Graph, t: &Ty) -> (r: usize)
    requires
        g.wf(),
    ensures
        r == spec_align_of(g, *t),
        1 <= r <= 8,
    decreases (match *t {
        Ty::Id(j) => j + 1,
        _ => 0,
    }), 0int,
{
    match *t {
        Ty::Bool => 1,
        Ty::U8 => 1,
        Ty::S8 => 1,
        Ty::U16 => 2,
        Ty::S16 => 2,
        Ty::U32 => 4,
        Ty::S32 => 4,
        Ty::Float32 => 4,
        Ty::Char => 4,
        Ty::U64 => 8,
        Ty::S64 => 8,
        Ty::Float64 => 8,
        Ty::Str => 4,
        Ty::Id(j) => {
            if j < g.types.len() {
                align_def_exec(g, j)
            } else {
                1
            }
        },
    }
}

fn align_def_exec(g: &Graph, j: usize) -> (r: usize)
    requires
        g.wf(),
        j < g.types@.len(),
    ensures
        r == align_def(g, j as int),
        1 <= r <= 8,
    decreases j, 1int,
{
    proof {
        assert(kind_below(g.types@[j as int].kind, j as int));
    }
    match &g.types[j].kind {
        TypeDefKind::Record(fields) => {
            let ghost tys = field_tys(fields@);
            let mut m: usize = 1;
            let mut k: usize = 0;
            while k < fields.len()
                invariant
                    g.wf(),
                    j < g.types@.len(),
                    kind_below(g.types@[j as int].kind, j as int),
                    g.types@[j as int].kind == TypeDefKind::Record(*fields),
                    k <= fields@.len(),
                    tys == field_tys(fields@),
                    m == fields_align(g, tys, k as int, j + 1),
                    1 <= m <= 8,
                decreases fields@.len() - k,
            {
                proof {
                    assert(tys[k as int] == fields@[k as int].ty);
                    assert(ty_below(fields@[k as int].ty, j as int));
                }
                let a: usize = align_of(g, &fields[k].ty);
                proof {
                    assert(align_guarded(g, tys[k as int], j + 1) == spec_align_of(
                        g,
                        fields@[k as int].ty,
                    ));
                }
                if a > m {
                    m = a;
                }
                k = k + 1;
            }
            m
        },
        TypeDefKind::Tuple(tys) => {
            let mut m: usize = 1;
            let mut k: usize = 0;
            while k < tys.len()
                invariant
                    g.wf(),
                    j < g.types@.len(),
                    kind_below(g.types@[j as int].kind, j as int),
                    g.types@[j as int].kind == TypeDefKind::Tuple(*tys),
                    k <= tys@.len(),
                    m == fields_align(g, tys@, k as int, j + 1),
                    1 <= m <= 8,
                decreases tys@.len() - k,
            {
                proof {
                    lemma_tuple_ty_below(g.types@[j as int].kind, j as int, k as int);
                    assert(ty_below(tys@[k as int], j as int));
                }
                let a: usize = align_of(g, &tys[k]);
                proof {
                    assert(align_guarded(g, tys@[k as int], j + 1) == spec_align_of(
                        g,
                        tys@[k as int],
                    ));
                }
                if a > m {
                    m = a;
                }
                k = k + 1;
            }
            m
        },
        TypeDefKind::Flags(names) => {
            if names.len() <= 8 {
                1
            } else if names.len() <= 16 {
                2
            } else {
                4
            }
        },
        TypeDefKind::Variant(cases) => {
            let tag: usize = tag_size(cases.len());
            let ghost ctys = case_tys(cases@);
            let mut m: usize = 1;
            let mut k: usize = 0;
            while k < cases.len()
                invariant
                    g.wf(),
                    j < g.types@.len(),
                    kind_below(g.types@[j as int].kind, j as int),
                    g.types@[j as int].kind == TypeDefKind::Variant(*cases),
                    k <= cases@.len(),
                    ctys == case_tys(cases@),
                    m == cases_align(g, ctys, k as int, j + 1),
                    1 <= m <= 8,
                decreases cases@.len() - k,
            {
                proof {
                    assert(ctys[k as int] == cases@[k as int].ty);
                    assert(opt_ty_below(cases@[k as int].ty, j as int));
                }
                let a: usize = match &cases[k].ty {
                    Some(ty) => align_of(g, ty),
                    None => 1,
                };
                proof {
                    assert(opt_align_guarded(g, ctys[k as int], j + 1) == a);
                }
                if a > m {
                    m = a;
                }
                k = k + 1;
            }
            if m > tag {
                m
            } else {
                tag
            }
        },
        TypeDefKind::Union(tys) => {
            let ghost ctys = union_tys(tys@);
            let mut m: usize = 1;
            let mut k: usize = 0;
            while k < tys.len()
                invariant
                    g.wf(),
                    j < g.types@.len(),
                    kind_below(g.types@[j as int].kind, j as int),
                    g.types@[j as int].kind == TypeDefKind::Union(*tys),
                    k <= tys@.len(),
                    ctys == union_tys(tys@),
                    m == cases_align(g, ctys, k as int, j + 1),
                    1 <= m <= 8,
                decreases tys@.len() - k,
            {
                proof {
                    lemma_union_ty_below(g.types@[j as int].kind, j as int, k as int);
                    assert(ctys[k as int] == Some(tys@[k as int]));
                    assert(ty_below(tys@[k as int], j as int));
                }
                let a: usize = align_of(g, &tys[k]);
                proof {
                    assert(opt_align_guarded(g, ctys[k as int], j + 1) == a);
                }
                if a > m {
                    m = a;
                }
                k = k + 1;
            }
            m
        },
        TypeDefKind::OptionOf(t) => {
            proof {
                assert(ty_below(*t, j as int));
            }
            let a: usize = align_of(g, t);
            proof {
                assert(align_guarded(g, *t, j + 1) == a);
            }
            a
        },
        TypeDefKind::ResultOf(ok, err) => {
            let a_ok: usize = match ok {
                Some(ty) => {
                    proof {
                        assert(ty_below(*ty, j as int));
                    }
                    align_of(g, ty)
                },
                None => 1,
            };
            let a_err: usize = match err {
                Some(ty) => {
                    proof {
                        assert(ty_below(*ty, j as int));
                    }
                    align_of(g, ty)
                },
                None => 1,
            };
            let m: usize = if a_ok > a_err {
                a_ok
            } else {
                a_err
            };
            proof {
                let ghost cs = seq![*ok, *err];
                assert(cs[0] == *ok && cs[1] == *err);
                assert(opt_align_guarded(g, cs[0], j + 1) == a_ok);
                assert(opt_align_guarded(g, cs[1], j + 1) == a_err);
                assert(cases_align(g, cs, 0, j + 1) == 1);
                assert(cases_align(g, cs, 1, j + 1) == a_ok);
                assert(cases_align(g, cs, 2, j + 1) == if a_ok > a_err {
                    a_ok as nat
                } else {
                    a_err as nat
                });
            }
            m
        },
        TypeDefKind::EnumOf(cases) => tag_size(cases.len()),
        TypeDefKind::List(_) => 4,
        TypeDefKind::Alias(t) => {
            proof {
                assert(ty_below(*t, j as int));
            }
            let a: usize = align_of(g, t);
            proof {
                assert(align_guarded(g, *t, j + 1) == a);
            }
            a
        },
        TypeDefKind::Resource => 4,
        TypeDefKind::Own(_) => 4,
        TypeDefKind::Borrow(_) => 4,
    }
}

} // verus!


verus! {

/// A tagged type's size from its parts.
fn tagged_size_exec(tag: usize, ps: u32, pa: usize) -> (r: usize)
    requires
        1 <= tag <= 4,
        1 <= pa <= 8,
        ps <= 0x0100_0000,
    ensures
        r == tagged_size(tag as nat, ps as nat, pa as nat),
        r <= 0x0100_0000 + 32,
{
    let a: u32 = if pa > tag {
        pa as u32
    } else {
        tag as u32
    };
    let start: u32 = align_to(tag as u32, pa as u32);
    let end: u32 = align_to(start + ps, a);
    end as usize
}

/// The memory size of table entry `j`, computed field by field.
fn size_def_exec(g: &Graph, j: usize) -> (r: usize)
    requires
        g.wf(),
        sizes_bounded(g),
        j < g.types@.len(),
    ensures
        r == size_def(g, j as int),
        r <= 0x0100_0000,
    decreases j, 1int,
{
    proof {
        assert(kind_below(g.types@[j as int].kind, j as int));
        assert(size_def(g, j as int) <= 0x0100_0000);
    }
    let r: usize = match &g.types[j].kind {
        TypeDefKind::Record(fields) => {
            let ghost tys = field_tys(fields@);
            let ghost n = fields@.len() as int;
            let mut off: u32 = 0;
            let mut ma: usize = 1;
            let mut k: usize = 0;
            while k < fields.len()
                invariant
                    g.wf(),
                    sizes_bounded(g),
                    j < g.types@.len(),
                    kind_below(g.types@[j as int].kind, j as int),
                    g.types@[j as int].kind == TypeDefKind::Record(*fields),
                    k <= fields@.len(),
                    n == fields@.len() as int,
                    tys == field_tys(fields@),
                    off == fields_end(g, tys, k as int, j + 1),
                    ma == fields_align(g, tys, k as int, j + 1),
                    1 <= ma <= 8,
                    size_def(g, j as int) <= 0x0100_0000,
                decreases fields@.len() - k,
            {
                proof {
                    assert(tys[k as int] == fields@[k as int].ty);
                    assert(ty_below(fields@[k as int].ty, j as int));
                    lemma_fields_end_mono(g, tys, k as int, n, j + 1);
                    lemma_fields_align_range(g, tys, n, j + 1);
                    lemma_align_to_ge(fields_end(g, tys, n, j + 1), fields_align(g, tys, n, j + 1));
                    assert(fields_end(g, tys, k as int, j + 1) <= size_def(g, j as int));
                }
                let a: usize = align_of(g, &fields[k].ty);
                let sz: usize = size_of(g, &fields[k].ty);
                proof {
                    assert(align_guarded(g, tys[k as int], j + 1) == spec_align_of(
                        g,
                        fields@[k as int].ty,
                    ));
                    assert(size_guarded(g, tys[k as int], j + 1) == spec_size_of(
                        g,
                        fields@[k as int].ty,
                    ));
                    lemma_fields_end_mono(g, tys, k + 1 as int, n, j + 1);
                    lemma_align_to_ge(
                        fields_end(g, tys, k as int, j + 1),
                        align_guarded(g, tys[k as int], j + 1),
                    );
                }
                off = align_to(off, a as u32) + (sz as u32);
                if a > ma {
                    ma = a;
                }
                k = k + 1;
            }
            proof {
                lemma_align_to_ge(fields_end(g, tys, n, j + 1), fields_align(g, tys, n, j + 1));
            }
            align_to(off, ma as u32) as usize
        },
        TypeDefKind::Tuple(tys) => {
            let ghost n = tys@.len() as int;
            let mut off: u32 = 0;
            let mut ma: usize = 1;
            let mut k: usize = 0;
            while k < tys.len()
                invariant
                    g.wf(),
                    sizes_bounded(g),
                    j < g.types@.len(),
                    kind_below(g.types@[j as int].kind, j as int),
                    g.types@[j as int].kind == TypeDefKind::Tuple(*tys),
                    k <= tys@.len(),
                    n == tys@.len() as int,
                    off == fields_end(g, tys@, k as int, j + 1),
                    ma == fields_align(g, tys@, k as int, j + 1),
                    1 <= ma <= 8,
                    size_def(g, j as int) <= 0x0100_0000,
                decreases tys@.len() - k,
            {
                proof {
                    lemma_tuple_ty_below(g.types@[j as int].kind, j as int, k as int);
                    assert(ty_below(tys@[k as int], j as int));
                    lemma_fields_end_mono(g, tys@, k as int, n, j + 1);
                    lemma_fields_align_range(g, tys@, n, j + 1);
                    lemma_align_to_ge(fields_end(g, tys@, n, j + 1), fields_align(g, tys@, n, j + 1));
                    assert(fields_end(g, tys@, k as int, j + 1) <= size_def(g, j as int));
                }
                let a: usize = align_of(g, &tys[k]);
                let sz: usize = size_of(g, &tys[k]);
                proof {
                    assert(align_guarded(g, tys@[k as int], j + 1) == spec_align_of(
                        g,
                        tys@[k as int],
                    ));
                    assert(size_guarded(g, tys@[k as int], j + 1) == spec_size_of(
                        g,
                        tys@[k as int],
                    ));
                    lemma_fields_end_mono(g, tys@, k + 1 as int, n, j + 1);
                    lemma_align_to_ge(
                        fields_end(g, tys@, k as int, j + 1),
                        align_guarded(g, tys@[k as int], j + 1),
                    );
                }
                off = align_to(off, a as u32) + (sz as u32);
                if a > ma {
                    ma = a;
                }
                k = k + 1;
            }
            proof {
                lemma_align_to_ge(fields_end(g, tys@, n, j + 1), fields_align(g, tys@, n, j + 1));
            }
            align_to(off, ma as u32) as usize
        },
        TypeDefKind::Flags(names) => {
            proof {
                if names@.len() > 16 {
                    let nn = names@.len();
                    assert(spec_flags_size(nn) == 4 * spec_flag_words(nn));
                    assert(32 * spec_flag_words(nn) >= nn) by (nonlinear_arith);
                    assert(nn <= 0x0800_0000);
                }
            }
            if names.len() <= 8 {
                1
            } else if names.len() <= 16 {
                2
            } else {
                (4 * flag_words(names.len() as u32)) as usize
            }
        },
        TypeDefKind::Variant(cases) => {
            let ghost ctys = case_tys(cases@);
            let ghost n = cases@.len() as int;
            let tag: usize = tag_size(cases.len());
            let mut ms: u32 = 0;
            let mut ma: usize = 1;
            let mut k: usize = 0;
            while k < cases.len()
                invariant
                    g.wf(),
                    sizes_bounded(g),
                    j < g.types@.len(),
                    kind_below(g.types@[j as int].kind, j as int),
                    g.types@[j as int].kind == TypeDefKind::Variant(*cases),
                    k <= cases@.len(),
                    n == cases@.len() as int,
                    ctys == case_tys(cases@),
                    ms == cases_size(g, ctys, k as int, j + 1),
                    ma == cases_align(g, ctys, k as int, j + 1),
                    1 <= ma <= 8,
                    ms <= 0x0100_0000,
                decreases cases@.len() - k,
            {
                proof {
                    assert(ctys[k as int] == cases@[k as int].ty);
                    assert(opt_ty_below(cases@[k as int].ty, j as int));
                    lemma_cases_size_mono(g, ctys, k + 1 as int, n, j + 1);
                    lemma_cases_align_range(g, ctys, n, j + 1);
                    lemma_align_to_ge(1, cases_align(g, ctys, n, j + 1));
                    lemma_align_to_ge(
                        spec_align_to(spec_tag_size(n as nat), cases_align(g, ctys, n, j + 1))
                            + cases_size(g, ctys, n, j + 1),
                        tagged_align(spec_tag_size(n as nat), cases_align(g, ctys, n, j + 1)),
                    );
                    lemma_align_to_ge(spec_tag_size(n as nat), cases_align(g, ctys, n, j + 1));
                    assert(cases_size(g, ctys, n, j + 1) <= size_def(g, j as int));
                }
                let s: usize = match &cases[k].ty {
                    Some(ty) => size_of(g, ty),
                    None => 0,
                };
                let a: usize = match &cases[k].ty {
                    Some(ty) => align_of(g, ty),
                    None => 1,
                };
                proof {
                    assert(opt_size_guarded(g, ctys[k as int], j + 1) == s);
                    assert(opt_align_guarded(g, ctys[k as int], j + 1) == a);
                }
                if (s as u32) > ms {
                    ms = s as u32;
                }
                if a > ma {
                    ma = a;
                }
                k = k + 1;
            }
            tagged_size_exec(tag, ms, ma)
        },
        TypeDefKind::Union(tys) => {
            let ghost ctys = union_tys(tys@);
            let ghost n = tys@.len() as int;
            let mut ms: u32 = 0;
            let mut ma: usize = 1;
            let mut k: usize = 0;
            while k < tys.len()
                invariant
                    g.wf(),
                    sizes_bounded(g),
                    j < g.types@.len(),
                    kind_below(g.types@[j as int].kind, j as int),
                    g.types@[j as int].kind == TypeDefKind::Union(*tys),
                    k <= tys@.len(),
                    n == tys@.len() as int,
                    ctys == union_tys(tys@),
                    ms == cases_size(g, ctys, k as int, j + 1),
                    ma == cases_align(g, ctys, k as int, j + 1),
                    1 <= ma <= 8,
                    ms <= 0x0100_0000,
                decreases tys@.len() - k,
            {
                proof {
                    lemma_union_ty_below(g.types@[j as int].kind, j as int, k as int);
                    assert(ctys[k as int] == Some(tys@[k as int]));
                    assert(ty_below(tys@[k as int], j as int));
                    lemma_cases_size_mono(g, ctys, k + 1 as int, n, j + 1);
                    lemma_cases_align_range(g, ctys, n, j + 1);
                    lemma_align_to_ge(1, cases_align(g, ctys, n, j + 1));
                    lemma_align_to_ge(
                        spec_align_to(1, cases_align(g, ctys, n, j + 1)) + cases_size(
                            g,
                            ctys,
                            n,
                            j + 1,
                        ),
                        tagged_align(1, cases_align(g, ctys, n, j + 1)),
                    );
                    assert(cases_size(g, ctys, n, j + 1) <= size_def(g, j as int));
                }
                let s: usize = size_of(g, &tys[k]);
                let a: usize = align_of(g, &tys[k]);
                proof {
                    assert(opt_size_guarded(g, ctys[k as int], j + 1) == s);
                    assert(opt_align_guarded(g, ctys[k as int], j + 1) == a);
                }
                if (s as u32) > ms {
                    ms = s as u32;
                }
                if a > ma {
                    ma = a;
                }
                k = k + 1;
            }
            tagged_size_exec(1, ms, ma)
        },
        TypeDefKind::OptionOf(t) => {
            proof {
                assert(ty_below(*t, j as int));
            }
            let s: usize = size_of(g, t);
            let a: usize = align_of(g, t);
            proof {
                assert(size_guarded(g, *t, j + 1) == s);
                assert(align_guarded(g, *t, j + 1) == a);
            }
            tagged_size_exec(1, s as u32, a)
        },
        TypeDefKind::ResultOf(ok, err) => {
            let s_ok: usize = match ok {
                Some(ty) => {
                    proof {
                        assert(ty_below(*ty, j as int));
                    }
                    size_of(g, ty)
                },
                None => 0,
            };
            let a_ok: usize = match ok {
                Some(ty) => align_of(g, ty),
                None => 1,
            };
            let s_err: usize = match err {
                Some(ty) => {
                    proof {
                        assert(ty_below(*ty, j as int));
                    }
                    size_of(g, ty)
                },
                None => 0,
            };
            let a_err: usize = match err {
                Some(ty) => align_of(g, ty),
                None => 1,
            };
            let ms: usize = if s_ok > s_err {
                s_ok
            } else {
                s_err
            };
            let ma: usize = if a_ok > a_err {
                a_ok
            } else {
                a_err
            };
            proof {
                let ghost cs = seq![*ok, *err];
                assert(cs[0] == *ok && cs[1] == *err);
                assert(opt_size_guarded(g, cs[0], j + 1) == s_ok);
                assert(opt_size_guarded(g, cs[1], j + 1) == s_err);
                assert(opt_align_guarded(g, cs[0], j + 1) == a_ok);
                assert(opt_align_guarded(g, cs[1], j + 1) == a_err);
                assert(cases_size(g, cs, 0, j + 1) == 0);
                assert(cases_size(g, cs, 1, j + 1) == s_ok);
                assert(cases_size(g, cs, 2, j + 1) == ms);
                assert(cases_align(g, cs, 0, j + 1) == 1);
                assert(cases_align(g, cs, 1, j + 1) == a_ok);
                assert(cases_align(g, cs, 2, j + 1) == ma);
            }
            tagged_size_exec(1, ms as u32, ma)
        },
        TypeDefKind::EnumOf(cases) => tag_size(cases.len()),
        TypeDefKind::List(_) => 8,
        TypeDefKind::Alias(t) => {
            proof {
                assert(ty_below(*t, j as int));
            }
            let s: usize = size_of(g, t);
            proof {
                assert(size_guarded(g, *t, j + 1) == s);
            }
            s
        },
        TypeDefKind::Resource => 4,
        TypeDefKind::Own(_) => 4,
        TypeDefKind::Borrow(_) => 4,
    };
    r
}

} // verus!
