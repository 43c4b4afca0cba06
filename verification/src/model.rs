//! The resolved interface description that generation runs over.
//!
//! The generator never owns type definitions in the sense of resolving them;
//! it consumes an already-resolved graph handed over by the embedding front
//! end as plain data: types, interfaces, packages and worlds, each referred
//! to by its index. Type-to-type references always point at earlier entries
//! of the type table, which both mirrors the resolver's topological order
//! and grounds every structural recursion in the generator.

use vstd::prelude::*;

verus! {

/// A reference to a type: either a primitive or an entry of the type table.
#[derive(Clone, Copy, PartialEq, Eq, Structural, Debug)]
pub enum Ty {
    Bool,
    U8,
    U16,
    U32,
    U64,
    S8,
    S16,
    S32,
    S64,
    Float32,
    Float64,
    Char,
    Str,
    Id(usize),
}

/// A named field of a record, or a named function parameter.
pub struct Field {
    pub name: String,
    pub ty: Ty,
}

/// One case of a variant, with an optional payload type.
pub struct Case {
    pub name: String,
    pub ty: Option<Ty>,
}

/// The shape of one entry of the type table.
pub enum TypeDefKind {
    Record(Vec<Field>),
    Tuple(Vec<Ty>),
    Flags(Vec<String>),
    Variant(Vec<Case>),
    Union(Vec<Ty>),
    OptionOf(Ty),
    ResultOf(Option<Ty>, Option<Ty>),
    EnumOf(Vec<String>),
    List(Ty),
    Alias(Ty),
    Resource,
    Own(usize),
    Borrow(usize),
}

/// One entry of the type table.
pub struct TypeDef {
    pub name: Option<String>,
    pub kind: TypeDefKind,
}

/// How a function is attached to a resource, if at all.
#[derive(Clone, Copy, PartialEq, Eq, Structural, Debug)]
pub enum FnKind {
    Freestanding,
    Method(usize),
    Static(usize),
    Constructor(usize),
}

/// A declared function of an interface or world.
pub struct Function {
    pub name: String,
    pub kind: FnKind,
    pub params: Vec<Field>,
    pub results: Vec<Ty>,
}

/// A named collection of types and functions.
pub struct Interface {
    pub name: Option<String>,
    pub package: Option<usize>,
    pub functions: Vec<Function>,
    /// Types declared or used by the interface, in declaration order.
    pub types: Vec<(String, usize)>,
}

/// The two-level package identity a submodule is filed under.
pub struct PackageName {
    pub namespace: String,
    pub name: String,
}

/// How a world names one of its imports or exports.
pub enum WorldKey {
    Name(String),
    Interface(usize),
}

/// One import or export of a world.
pub enum WorldItem {
    Interface(usize),
    Function(Function),
    Type(usize),
}

/// A world: the unit one generation run covers.
pub struct World {
    pub name: String,
    pub imports: Vec<(WorldKey, WorldItem)>,
    pub exports: Vec<(WorldKey, WorldItem)>,
}

/// The fully resolved graph the generator consumes.
pub struct Graph {
    pub types: Vec<TypeDef>,
    pub interfaces: Vec<Interface>,
    pub packages: Vec<PackageName>,
    pub worlds: Vec<World>,
}

/// Whether a type reference stays strictly below index `n` of the table.
pub open spec fn ty_below(t: Ty, n: int) -> bool {
    match t {
        Ty::Id(j) => j < n,
        _ => true,
    }
}

/// Whether an optional type reference stays strictly below `n`.
pub open spec fn opt_ty_below(t: Option<Ty>, n: int) -> bool {
    match t {
        Some(ty) => ty_below(ty, n),
        None => true,
    }
}

/// Whether every type reference inside a definition stays strictly below `n`.
pub open spec fn kind_below(k: TypeDefKind, n: int) -> bool {
    match k {
        TypeDefKind::Record(fields) => forall|i: int|
            0 <= i < fields@.len() ==> ty_below((#[trigger] fields@[i]).ty, n),
        TypeDefKind::Tuple(tys) => forall|i: int|
            0 <= i < tys@.len() ==> ty_below(#[trigger] tys@[i], n),
        TypeDefKind::Flags(_) => true,
        TypeDefKind::Variant(cases) => forall|i: int|
            0 <= i < cases@.len() ==> opt_ty_below((#[trigger] cases@[i]).ty, n),
        TypeDefKind::Union(tys) => forall|i: int|
            0 <= i < tys@.len() ==> ty_below(#[trigger] tys@[i], n),
        TypeDefKind::OptionOf(t) => ty_below(t, n),
        TypeDefKind::ResultOf(ok, err) => opt_ty_below(ok, n) && opt_ty_below(err, n),
        TypeDefKind::EnumOf(_) => true,
        TypeDefKind::List(t) => ty_below(t, n),
        TypeDefKind::Alias(t) => ty_below(t, n),
        TypeDefKind::Resource => true,
        TypeDefKind::Own(j) => j < n,
        TypeDefKind::Borrow(j) => j < n,
    }
}

impl Graph {
    /// The type table is topologically ordered: every reference inside entry
    /// `i` points strictly below `i`. Interfaces, worlds and functions refer
    /// only to entries that exist.
    pub open spec fn wf(&self) -> bool {
        &&& forall|i: int|
            0 <= i < self.types@.len() ==> kind_below(
                (#[trigger] self.types@[i]).kind,
                i,
            )
        &&& forall|i: int|
            0 <= i < self.interfaces@.len() ==> (#[trigger] self.interfaces@[i]).wf(
                self.types@.len() as int,
                self.packages@.len() as int,
            )
        &&& forall|w: int|
            0 <= w < self.worlds@.len() ==> (#[trigger] self.worlds@[w]).wf(
                self.types@.len() as int,
                self.interfaces@.len() as int,
            )
    }
}

impl Function {
    /// Every type the signature mentions exists, and a resource-attached
    /// function points at an existing table entry.
    pub open spec fn wf(&self, n_types: int) -> bool {
        &&& forall|i: int|
            0 <= i < self.params@.len() ==> ty_below((#[trigger] self.params@[i]).ty, n_types)
        &&& forall|i: int|
            0 <= i < self.results@.len() ==> ty_below(#[trigger] self.results@[i], n_types)
        &&& match self.kind {
            FnKind::Freestanding => true,
            FnKind::Method(t) => t < n_types,
            FnKind::Static(t) => t < n_types,
            FnKind::Constructor(t) => t < n_types,
        }
    }

    /// The resource a function is grouped under, if any.
    pub open spec fn spec_resource(&self) -> Option<usize> {
        match self.kind {
            FnKind::Freestanding => None,
            FnKind::Method(t) => Some(t),
            FnKind::Static(t) => Some(t),
            FnKind::Constructor(t) => Some(t),
        }
    }

    /// The resource a function is grouped under, if any.
    pub fn resource(&self) -> (r: Option<usize>)
        ensures
            r == self.spec_resource(),
    {
        match self.kind {
            FnKind::Freestanding => None,
            FnKind::Method(t) => Some(t),
            FnKind::Static(t) => Some(t),
            FnKind::Constructor(t) => Some(t),
        }
    }
}

impl Interface {
    pub open spec fn wf(&self, n_types: int, n_packages: int) -> bool {
        &&& match self.package {
            Some(p) => p < n_packages,
            None => true,
        }
        &&& forall|i: int|
            0 <= i < self.functions@.len() ==> (#[trigger] self.functions@[i]).wf(n_types)
        &&& forall|i: int|
            0 <= i < self.types@.len() ==> (#[trigger] self.types@[i]).1 < n_types
    }
}

impl World {
    pub open spec fn wf(&self, n_types: int, n_interfaces: int) -> bool {
        &&& forall|i: int|
            0 <= i < self.imports@.len() ==> item_wf(
                (#[trigger] self.imports@[i]).1,
                n_types,
                n_interfaces,
            ) && key_wf(self.imports@[i].0, n_interfaces)
        &&& forall|i: int|
            0 <= i < self.exports@.len() ==> item_wf(
                (#[trigger] self.exports@[i]).1,
                n_types,
                n_interfaces,
            ) && key_wf(self.exports@[i].0, n_interfaces)
    }
}

pub open spec fn item_wf(item: WorldItem, n_types: int, n_interfaces: int) -> bool {
    match item {
        WorldItem::Interface(i) => i < n_interfaces,
        WorldItem::Function(f) => f.wf(n_types),
        WorldItem::Type(t) => t < n_types,
    }
}

pub open spec fn key_wf(key: WorldKey, n_interfaces: int) -> bool {
    match key {
        WorldKey::Name(_) => true,
        WorldKey::Interface(i) => i < n_interfaces,
    }
}

/// On a definition known to keep its references below `n`, a tuple's
/// element reference does so too.
pub proof fn lemma_tuple_ty_below(kd: TypeDefKind, n: int, i: int)
    requires
        kind_below(kd, n),
    ensures
        match kd {
            TypeDefKind::Tuple(v) => 0 <= i < v@.len() ==> ty_below(v@[i], n),
            _ => true,
        },
{
}

/// On a definition known to keep its references below `n`, a union's
/// case reference does so too.
pub proof fn lemma_union_ty_below(kd: TypeDefKind, n: int, i: int)
    requires
        kind_below(kd, n),
    ensures
        match kd {
            TypeDefKind::Union(v) => 0 <= i < v@.len() ==> ty_below(v@[i], n),
            _ => true,
        },
{
}

/// Follows alias entries down to the type they ultimately stand for.
pub open spec fn spec_dealias(g: &Graph, id: int) -> int
    decreases id,
{
    if 0 <= id < g.types@.len() {
        match g.types@[id].kind {
            TypeDefKind::Alias(Ty::Id(j)) => {
                if j < id {
                    spec_dealias(g, j as int)
                } else {
                    id
                }
            },
            _ => id,
        }
    } else {
        id
    }
}

/// Resolves a chain of alias definitions to the defining entry.
pub fn dealias(g: &Graph, id: usize) -> (r: usize)
    requires
        g.wf(),
        id < g.types@.len(),
    ensures
        r == spec_dealias(g, id as int),
        r < g.types@.len(),
    decreases id,
{
    match &g.types[id].kind {
        TypeDefKind::Alias(Ty::Id(j)) => dealias(g, *j),
        _ => id,
    }
}

} // verus!

verus! {

/// Strict order on group keys: ungrouped functions come first, then
/// resources by table index.
pub open spec fn key_lt(a: Option<usize>, b: Option<usize>) -> bool {
    match (a, b) {
        (None, Some(_)) => true,
        (Some(x), Some(y)) => x < y,
        _ => false,
    }
}

/// The indices below `n` of functions grouped under `k`, in order.
pub open spec fn idxs_with_key(funcs: Seq<Function>, k: Option<usize>, n: int) -> Seq<usize>
    decreases n,
{
    if n <= 0 {
        Seq::<usize>::empty()
    } else if funcs[n - 1].spec_resource() == k {
        idxs_with_key(funcs, k, n - 1).push((n - 1) as usize)
    } else {
        idxs_with_key(funcs, k, n - 1)
    }
}

fn key_eq(a: &Option<usize>, b: &Option<usize>) -> (r: bool)
    ensures
        r == (*a == *b),
{
    match (a, b) {
        (None, None) => true,
        (Some(x), Some(y)) => *x == *y,
        _ => false,
    }
}

fn key_lt_exec(a: &Option<usize>, b: &Option<usize>) -> (r: bool)
    ensures
        r == key_lt(*a, *b),
{
    match (a, b) {
        (None, Some(_)) => true,
        (Some(x), Some(y)) => *x < *y,
        _ => false,
    }
}

/// Partitions a function list by the resource each function belongs to.
/// Groups come out with their keys in ascending order -- free functions
/// first -- and each group lists the indices of its functions in their
/// original order, so the grouping is stable and reproducible.
pub fn group_by_resource(funcs: &Vec<Function>) -> (groups: Vec<(Option<usize>, Vec<usize>)>)
    ensures
        forall|g1: int, g2: int|
            0 <= g1 < g2 < groups@.len() ==> key_lt(
                (#[trigger] groups@[g1]).0,
                (#[trigger] groups@[g2]).0,
            ),
        forall|g: int|
            0 <= g < groups@.len() ==> (#[trigger] groups@[g]).1@ == idxs_with_key(
                funcs@,
                groups@[g].0,
                funcs@.len() as int,
            ),
        forall|i: int|
            0 <= i < funcs@.len() ==> exists|g: int|
                0 <= g < groups@.len() && (#[trigger] groups@[g]).0 == (
                #[trigger] funcs@[i]).spec_resource(),
{
    let mut keys: Vec<Option<usize>> = Vec::new();
    let mut i: usize = 0;
    while i < funcs.len()
        invariant
            i <= funcs@.len(),
            forall|g1: int, g2: int|
                0 <= g1 < g2 < keys@.len() ==> key_lt(#[trigger] keys@[g1], #[trigger] keys@[g2]),
            forall|q: int|
                0 <= q < i ==> exists|g: int|
                    0 <= g < keys@.len() && #[trigger] keys@[g] == (
                    #[trigger] funcs@[q]).spec_resource(),
        decreases funcs@.len() - i,
    {
        let k: Option<usize> = funcs[i].resource();
        let mut p: usize = 0;
        while p < keys.len() && key_lt_exec(&keys[p], &k)
            invariant
                p <= keys@.len(),
                forall|q: int| 0 <= q < p ==> key_lt(#[trigger] keys@[q], k),
            decreases keys@.len() - p,
        {
            p = p + 1;
        }
        let present: bool = p < keys.len() && key_eq(&keys[p], &k);
        if !present {
            let ghost old_keys = keys@;
            keys.insert(p, k);
            proof {
                assert(forall|q: int| 0 <= q < p ==> keys@[q] == old_keys[q]);
                assert(keys@[p as int] == k);
                assert(forall|q: int| p < q < keys@.len() ==> keys@[q] == old_keys[q - 1]);
                if (p as int) < old_keys.len() {
                    assert(!key_lt(old_keys[p as int], k));
                    assert(old_keys[p as int] != k);
                    assert(key_lt(k, old_keys[p as int]));
                }
                assert forall|g1: int, g2: int| 0 <= g1 < g2 < keys@.len() implies key_lt(
                    #[trigger] keys@[g1],
                    #[trigger] keys@[g2],
                ) by {
                    if g1 == p && g2 > p {
                        assert(keys@[g2] == old_keys[g2 - 1]);
                        if g2 - 1 > p {
                            assert(key_lt(old_keys[p as int], old_keys[g2 - 1]));
                        }
                    }
                }
                assert forall|q: int| 0 <= q < i + 1 implies exists|g: int|
                    0 <= g < keys@.len() && #[trigger] keys@[g] == (
                    #[trigger] funcs@[q]).spec_resource() by {
                    let k0 = funcs@[q].spec_resource();
                    if q < i {
                        let g0 = choose|g: int| 0 <= g < old_keys.len() && #[trigger] old_keys[g]
                            == k0;
                        if g0 < p {
                            assert(keys@[g0] == k0);
                        } else {
                            assert(keys@[g0 + 1] == k0);
                        }
                    } else {
                        assert(keys@[p as int] == k0);
                    }
                }
            }
        } else {
            proof {
                assert(keys@[p as int] == k);
            }
        }
        i = i + 1;
    }
    proof {
        assert(i == funcs@.len());
        assert forall|q: int|
            0 <= q < funcs@.len() implies exists|g2: int|
                0 <= g2 < keys@.len() && #[trigger] keys@[g2] == (
                #[trigger] funcs@[q]).spec_resource() by {
            assert(0 <= q < i);
            assert(exists|g: int|
                0 <= g < keys@.len() && #[trigger] keys@[g] == (
                funcs@[q]).spec_resource());
        }
    }
    let mut groups: Vec<(Option<usize>, Vec<usize>)> = Vec::new();
    let mut g: usize = 0;
    while g < keys.len()
        invariant
            g <= keys@.len(),
            groups@.len() == g,
            forall|q: int| 0 <= q < g ==> (#[trigger] groups@[q]).0 == keys@[q],
            forall|q: int|
                0 <= q < g ==> (#[trigger] groups@[q]).1@ == idxs_with_key(
                    funcs@,
                    keys@[q],
                    funcs@.len() as int,
                ),
            forall|g1: int, g2: int|
                0 <= g1 < g2 < keys@.len() ==> key_lt(#[trigger] keys@[g1], #[trigger] keys@[g2]),
            forall|q: int|
                0 <= q < funcs@.len() ==> exists|kk: int|
                    0 <= kk < keys@.len() && #[trigger] keys@[kk] == (
                    #[trigger] funcs@[q]).spec_resource(),
        decreases keys@.len() - g,
    {
        let k: Option<usize> = keys[g];
        let mut v: Vec<usize> = Vec::new();
        let mut i2: usize = 0;
        while i2 < funcs.len()
            invariant
                i2 <= funcs@.len(),
                v@ == idxs_with_key(funcs@, k, i2 as int),
            decreases funcs@.len() - i2,
        {
            let fk: Option<usize> = funcs[i2].resource();
            if key_eq(&fk, &k) {
                v.push(i2);
            }
            i2 = i2 + 1;
        }
        groups.push((k, v));
        g = g + 1;
    }
    proof {
        assert forall|q: int| 0 <= q < funcs@.len() implies exists|gg: int|
            0 <= gg < groups@.len() && (#[trigger] groups@[gg]).0 == (
            #[trigger] funcs@[q]).spec_resource() by {
            let k0 = funcs@[q].spec_resource();
            let kk = choose|kk: int| 0 <= kk < keys@.len() && #[trigger] keys@[kk] == k0;
            assert(groups@[kk].0 == k0);
        }
    }
    groups
}

} // verus!

verus! {

fn ty_below_exec(t: &Ty, n: usize) -> (r: bool)
    ensures
        r == ty_below(*t, n as int),
{
    match t {
        Ty::Id(j) => *j < n,
        _ => true,
    }
}

fn opt_ty_below_exec(t: &Option<Ty>, n: usize) -> (r: bool)
    ensures
        r == opt_ty_below(*t, n as int),
{
    match t {
        Some(ty) => ty_below_exec(ty, n),
        None => true,
    }
}

fn kind_below_exec(k: &TypeDefKind, n: usize) -> (r: bool)
    ensures
        r == kind_below(*k, n as int),
{
    match k {
        TypeDefKind::Record(fields) => {
            proof {
                assert(fields@ == (*k)->Record_0@);
            }
            let mut i: usize = 0;
            while i < fields.len()
                invariant
                    (*k) is Record,
                    fields@ == (*k)->Record_0@,
                    i <= fields@.len(),
                    forall|q: int|
                        0 <= q < i ==> ty_below(((#[trigger] (*k)->Record_0@[q])).ty, n as int),
                decreases fields@.len() - i,
            {
                if !ty_below_exec(&fields[i].ty, n) {
                    proof {
                        assert(!ty_below((*k)->Record_0@[i as int].ty, n as int));
                        assert(!kind_below(*k, n as int));
                    }
                    return false;
                }
                i = i + 1;
            }
            proof {
                assert(forall|q: int|
                    0 <= q < (*k)->Record_0@.len() ==> ty_below(
                        ((#[trigger] (*k)->Record_0@[q])).ty,
                        n as int,
                    ));
                assert(kind_below(*k, n as int));
            }
            true
        },
        TypeDefKind::Tuple(tys) => {
            proof {
                assert(tys@ == (*k)->Tuple_0@);
            }
            let mut i: usize = 0;
            while i < tys.len()
                invariant
                    (*k) is Tuple,
                    tys@ == (*k)->Tuple_0@,
                    i <= tys@.len(),
                    forall|q: int| 0 <= q < i ==> ty_below(#[trigger] (*k)->Tuple_0@[q], n as int),
                decreases tys@.len() - i,
            {
                if !ty_below_exec(&tys[i], n) {
                    proof {
                        assert(!ty_below((*k)->Tuple_0@[i as int], n as int));
                        assert(!kind_below(*k, n as int));
                    }
                    return false;
                }
                i = i + 1;
            }
            proof {
                assert(forall|q: int|
                    0 <= q < (*k)->Tuple_0@.len() ==> ty_below(
                        #[trigger] (*k)->Tuple_0@[q],
                        n as int,
                    ));
                assert(kind_below(*k, n as int));
            }
            true
        },
        TypeDefKind::Flags(_) => true,
        TypeDefKind::Variant(cases) => {
            proof {
                assert(cases@ == (*k)->Variant_0@);
            }
            let mut i: usize = 0;
            while i < cases.len()
                invariant
                    (*k) is Variant,
                    cases@ == (*k)->Variant_0@,
                    i <= cases@.len(),
                    forall|q: int|
                        0 <= q < i ==> opt_ty_below(
                            ((#[trigger] (*k)->Variant_0@[q])).ty,
                            n as int,
                        ),
                decreases cases@.len() - i,
            {
                if !opt_ty_below_exec(&cases[i].ty, n) {
                    proof {
                        assert(!opt_ty_below((*k)->Variant_0@[i as int].ty, n as int));
                        assert(!kind_below(*k, n as int));
                    }
                    return false;
                }
                i = i + 1;
            }
            proof {
                assert(forall|q: int|
                    0 <= q < (*k)->Variant_0@.len() ==> opt_ty_below(
                        ((#[trigger] (*k)->Variant_0@[q])).ty,
                        n as int,
                    ));
                assert(kind_below(*k, n as int));
            }
            true
        },
        TypeDefKind::Union(tys) => {
            proof {
                assert(tys@ == (*k)->Union_0@);
            }
            let mut i: usize = 0;
            while i < tys.len()
                invariant
                    (*k) is Union,
                    tys@ == (*k)->Union_0@,
                    i <= tys@.len(),
                    forall|q: int| 0 <= q < i ==> ty_below(#[trigger] (*k)->Union_0@[q], n as int),
                decreases tys@.len() - i,
            {
                if !ty_below_exec(&tys[i], n) {
                    proof {
                        assert(!ty_below((*k)->Union_0@[i as int], n as int));
                        assert(!kind_below(*k, n as int));
                    }
                    return false;
                }
                i = i + 1;
            }
            proof {
                assert(forall|q: int|
                    0 <= q < (*k)->Union_0@.len() ==> ty_below(
                        #[trigger] (*k)->Union_0@[q],
                        n as int,
                    ));
                assert(kind_below(*k, n as int));
            }
            true
        },
        TypeDefKind::OptionOf(t) => ty_below_exec(t, n),
        TypeDefKind::ResultOf(ok, err) => opt_ty_below_exec(ok, n) && opt_ty_below_exec(err, n),
        TypeDefKind::EnumOf(_) => true,
        TypeDefKind::List(t) => ty_below_exec(t, n),
        TypeDefKind::Alias(t) => ty_below_exec(t, n),
        TypeDefKind::Resource => true,
        TypeDefKind::Own(j) => *j < n,
        TypeDefKind::Borrow(j) => *j < n,
    }
}

fn function_wf_exec(f: &Function, n_types: usize) -> (r: bool)
    ensures
        r == f.wf(n_types as int),
{
    let mut i: usize = 0;
    while i < f.params.len()
        invariant
            i <= f.params@.len(),
            forall|q: int| 0 <= q < i ==> ty_below((#[trigger] f.params@[q]).ty, n_types as int),
        decreases f.params@.len() - i,
    {
        if !ty_below_exec(&f.params[i].ty, n_types) {
            proof {
                assert(!ty_below(f.params@[i as int].ty, n_types as int));
            }
            return false;
        }
        i = i + 1;
    }
    let mut j: usize = 0;
    while j < f.results.len()
        invariant
            forall|q: int| 0 <= q < f.params@.len() ==> ty_below((#[trigger] f.params@[q]).ty, n_types as int),
            j <= f.results@.len(),
            forall|q: int| 0 <= q < j ==> ty_below(#[trigger] f.results@[q], n_types as int),
        decreases f.results@.len() - j,
    {
        if !ty_below_exec(&f.results[j], n_types) {
            proof {
                assert(!ty_below(f.results@[j as int], n_types as int));
            }
            return false;
        }
        j = j + 1;
    }
    match f.kind {
        FnKind::Freestanding => true,
        FnKind::Method(t) => t < n_types,
        FnKind::Static(t) => t < n_types,
        FnKind::Constructor(t) => t < n_types,
    }
}

/// Checks the graph's well-formedness: the topological order of the type
/// table and the index ranges of everything else. An embedder converting
/// from a foreign resolver tests its graph with this before generating.
pub fn check_wf(g: &Graph) -> (r: bool)
    ensures
        r == g.wf(),
{
    let n_types: usize = g.types.len();
    let mut i: usize = 0;
    while i < g.types.len()
        invariant
            n_types == g.types@.len(),
            i <= g.types@.len(),
            forall|q: int| 0 <= q < i ==> kind_below((#[trigger] g.types@[q]).kind, q),
        decreases g.types@.len() - i,
    {
        if !kind_below_exec(&g.types[i].kind, i) {
            proof {
                assert(!kind_below(g.types@[i as int].kind, i as int));
            }
            return false;
        }
        i = i + 1;
    }
    let mut j: usize = 0;
    while j < g.interfaces.len()
        invariant
            n_types == g.types@.len(),
            forall|q: int| 0 <= q < g.types@.len() ==> kind_below((#[trigger] g.types@[q]).kind, q),
            j <= g.interfaces@.len(),
            forall|q: int|
                0 <= q < j ==> (#[trigger] g.interfaces@[q]).wf(
                    g.types@.len() as int,
                    g.packages@.len() as int,
                ),
        decreases g.interfaces@.len() - j,
    {
        let iface = &g.interfaces[j];
        let pkg_ok: bool = match iface.package {
            Some(p) => p < g.packages.len(),
            None => true,
        };
        if !pkg_ok {
            proof {
                assert(!g.interfaces@[j as int].wf(
                    g.types@.len() as int,
                    g.packages@.len() as int,
                ));
            }
            return false;
        }
        let mut f: usize = 0;
        while f < iface.functions.len()
            invariant
                n_types == g.types@.len(),
                j < g.interfaces@.len(),
                *iface == g.interfaces@[j as int],
                f <= iface.functions@.len(),
                forall|q: int|
                    0 <= q < f ==> (#[trigger] iface.functions@[q]).wf(g.types@.len() as int),
            decreases iface.functions@.len() - f,
        {
            if !function_wf_exec(&iface.functions[f], n_types) {
                proof {
                    assert(!g.interfaces@[j as int].functions@[f as int].wf(
                        g.types@.len() as int,
                    ));
                    assert(!g.interfaces@[j as int].wf(
                        g.types@.len() as int,
                        g.packages@.len() as int,
                    ));
                }
                return false;
            }
            f = f + 1;
        }
        let mut t: usize = 0;
        while t < iface.types.len()
            invariant
                n_types == g.types@.len(),
                j < g.interfaces@.len(),
                *iface == g.interfaces@[j as int],
                t <= iface.types@.len(),
                forall|q: int| 0 <= q < t ==> (#[trigger] iface.types@[q]).1 < g.types@.len(),
            decreases iface.types@.len() - t,
        {
            if !(iface.types[t].1 < n_types) {
                proof {
                    assert(!g.interfaces@[j as int].wf(
                        g.types@.len() as int,
                        g.packages@.len() as int,
                    ));
                }
                return false;
            }
            t = t + 1;
        }
        j = j + 1;
    }
    let mut w: usize = 0;
    while w < g.worlds.len()
        invariant
            n_types == g.types@.len(),
            forall|q: int| 0 <= q < g.types@.len() ==> kind_below((#[trigger] g.types@[q]).kind, q),
            forall|q: int|
                0 <= q < g.interfaces@.len() ==> (#[trigger] g.interfaces@[q]).wf(
                    g.types@.len() as int,
                    g.packages@.len() as int,
                ),
            w <= g.worlds@.len(),
            forall|q: int|
                0 <= q < w ==> (#[trigger] g.worlds@[q]).wf(
                    g.types@.len() as int,
                    g.interfaces@.len() as int,
                ),
        decreases g.worlds@.len() - w,
    {
        let world = &g.worlds[w];
        if !check_world_items(g, &world.imports) {
            proof {
                assert(!g.worlds@[w as int].wf(g.types@.len() as int, g.interfaces@.len() as int));
            }
            return false;
        }
        if !check_world_items(g, &world.exports) {
            proof {
                assert(!g.worlds@[w as int].wf(g.types@.len() as int, g.interfaces@.len() as int));
            }
            return false;
        }
        w = w + 1;
    }
    true
}

fn check_world_items(g: &Graph, items: &Vec<(WorldKey, WorldItem)>) -> (r: bool)
    ensures
        r == forall|q: int|
            0 <= q < items@.len() ==> item_wf(
                (#[trigger] items@[q]).1,
                g.types@.len() as int,
                g.interfaces@.len() as int,
            ) && key_wf(items@[q].0, g.interfaces@.len() as int),
{
    let mut i: usize = 0;
    while i < items.len()
        invariant
            i <= items@.len(),
            forall|q: int|
                0 <= q < i ==> item_wf(
                    (#[trigger] items@[q]).1,
                    g.types@.len() as int,
                    g.interfaces@.len() as int,
                ) && key_wf(items@[q].0, g.interfaces@.len() as int),
        decreases items@.len() - i,
    {
        let key_ok: bool = match &items[i].0 {
            WorldKey::Name(_) => true,
            WorldKey::Interface(ifc) => *ifc < g.interfaces.len(),
        };
        let item_ok: bool = match &items[i].1 {
            WorldItem::Interface(ifc) => *ifc < g.interfaces.len(),
            WorldItem::Function(f) => function_wf_exec(f, g.types.len()),
            WorldItem::Type(t) => *t < g.types.len(),
        };
        if !(key_ok && item_ok) {
            proof {
                assert(!(item_wf(
                    items@[i as int].1,
                    g.types@.len() as int,
                    g.interfaces@.len() as int,
                ) && key_wf(items@[i as int].0, g.interfaces@.len() as int)));
            }
            return false;
        }
        i = i + 1;
    }
    true
}

} // verus!
