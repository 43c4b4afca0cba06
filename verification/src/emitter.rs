//! Per-interface emission and whole-world assembly.
//!
//! One emitter instance covers one interface or world slice: it prints
//! type declarations and function signatures, hands each body to the ABI
//! interpreter, and packages the result as a submodule tagged with its
//! package identity. The world generator then aggregates submodules into
//! the import and export trees, embeds the serialized world descriptor,
//! and produces the final named buffer.

use crate::bindgen::{
    run_fold, seq_rpa_align, seq_rpa_size, start_state, FunctionBindgen, RunState,
};
use crate::instr::Instruction;
use crate::layout::{spec_flags_repr, flags_repr};
use crate::model::{Field, Function, Graph, PackageName, Ty, TypeDefKind};
use crate::names::{
    snake_of, spec_rust_ident, to_rust_ident, to_snake_case, to_upper_camel_case, upper_camel_of,
    to_shouty_snake_case, shouty_snake_of,
};
use crate::registry::{spec_is_exported, ResourceRegistry};
use crate::text::{dec_str, Src};
use vstd::prelude::*;

verus! {

/// The owned Rust spelling of a type reference, guarded by the table
/// order exactly like the layout oracle.
pub open spec fn ty_text_guarded(g: &Graph, t: Ty, bound: int) -> Seq<char>
    decreases bound, 0int, 0int,
{
    match t {
        Ty::Bool => "bool"@,
        Ty::U8 => "u8"@,
        Ty::U16 => "u16"@,
        Ty::U32 => "u32"@,
        Ty::U64 => "u64"@,
        Ty::S8 => "i8"@,
        Ty::S16 => "i16"@,
        Ty::S32 => "i32"@,
        Ty::S64 => "i64"@,
        Ty::Float32 => "f32"@,
        Ty::Float64 => "f64"@,
        Ty::Char => "char"@,
        Ty::Str => "String"@,
        Ty::Id(j) => {
            if 0 <= j && j + 1 < bound && j < g.types@.len() {
                def_text(g, j as int)
            } else {
                Seq::<char>::empty()
            }
        },
    }
}

/// Tuple element texts, each followed by a separating comma.
pub open spec fn tuple_text(g: &Graph, tys: Seq<Ty>, k: int, bound: int) -> Seq<char>
    decreases bound, 2int, k,
{
    if k <= 0 {
        Seq::<char>::empty()
    } else {
        tuple_text(g, tys, k - 1, bound) + ty_text_guarded(g, tys[k - 1], bound) + ", "@
    }
}

/// The name a table entry is referred to by: its upper-camel-cased
/// declared name, or its structural spelling when anonymous.
pub open spec fn def_text(g: &Graph, j: int) -> Seq<char>
    decreases j + 1, 3int, 0int,
{
    if 0 <= j < g.types@.len() {
        match g.types@[j].name {
            Some(n) => upper_camel_of(n@),
            None => match g.types@[j].kind {
                TypeDefKind::Tuple(tys) => "("@ + tuple_text(g, tys@, tys@.len() as int, j + 1)
                    + ")"@,
                TypeDefKind::OptionOf(t) => "Option<"@ + ty_text_guarded(g, t, j + 1) + ">"@,
                TypeDefKind::ResultOf(ok, err) => "Result<"@ + (match ok {
                    Some(t) => ty_text_guarded(g, t, j + 1),
                    None => "()"@,
                }) + ", "@ + (match err {
                    Some(t) => ty_text_guarded(g, t, j + 1),
                    None => "()"@,
                }) + ">"@,
                TypeDefKind::List(t) => "Vec<"@ + ty_text_guarded(g, t, j + 1) + ">"@,
                TypeDefKind::Alias(t) => ty_text_guarded(g, t, j + 1),
                _ => Seq::<char>::empty(),
            },
        }
    } else {
        Seq::<char>::empty()
    }
}

/// The owned Rust spelling of a type on a well-formed graph.
pub open spec fn spec_ty_text(g: &Graph, t: Ty) -> Seq<char> {
    ty_text_guarded(g, t, g.types@.len() as int + 1)
}

/// Prints the owned Rust spelling of a type.
pub fn ty_text(g: &Graph, t: &Ty) -> (r: String)
    requires
        g.wf(),
    ensures
        r@ == spec_ty_text(g, *t),
    decreases (match *t {
        Ty::Id(j) => j + 1,
        _ => 0,
    }), 0int,
{
    match *t {
        Ty::Bool => crate::text::s("bool"),
        Ty::U8 => crate::text::s("u8"),
        Ty::U16 => crate::text::s("u16"),
        Ty::U32 => crate::text::s("u32"),
        Ty::U64 => crate::text::s("u64"),
        Ty::S8 => crate::text::s("i8"),
        Ty::S16 => crate::text::s("i16"),
        Ty::S32 => crate::text::s("i32"),
        Ty::S64 => crate::text::s("i64"),
        Ty::Float32 => crate::text::s("f32"),
        Ty::Float64 => crate::text::s("f64"),
        Ty::Char => crate::text::s("char"),
        Ty::Str => crate::text::s("String"),
        Ty::Id(j) => {
            if j < g.types.len() {
                def_text_exec(g, j)
            } else {
                String::new()
            }
        },
    }
}

fn def_text_exec(g: &Graph, j: usize) -> (r: String)
    requires
        g.wf(),
        j < g.types@.len(),
    ensures
        r@ == def_text(g, j as int),
    decreases j, 1int,
{
    proof {
        assert(crate::model::kind_below(g.types@[j as int].kind, j as int));
    }
    match &g.types[j].name {
        Some(n) => to_upper_camel_case(n.as_str()),
        None => match &g.types[j].kind {
            TypeDefKind::Tuple(tys) => {
                let mut b: Src = Src::new();
                b.push("(");
                let ghost base = b@;
                let mut k: usize = 0;
                while k < tys.len()
                    invariant
                        g.wf(),
                        j < g.types@.len(),
                        kind_below_tuple(g, j as int, *tys),
                        k <= tys@.len(),
                        b@ == base + tuple_text(g, tys@, k as int, j + 1),
                    decreases tys@.len() - k,
                {
                    proof {
                        crate::model::lemma_tuple_ty_below(
                            g.types@[j as int].kind,
                            j as int,
                            k as int,
                        );
                    }
                    let t: String = ty_text(g, &tys[k]);
                    proof {
                        assert(ty_text_guarded(g, tys@[k as int], j + 1) == t@);
                    }
                    b.push_string(&t);
                    b.push(", ");
                    proof {
                        assert(b@ =~= base + tuple_text(g, tys@, k + 1 as int, j + 1));
                    }
                    k = k + 1;
                }
                b.push(")");
                b.into_string()
            },
            TypeDefKind::OptionOf(t) => {
                proof {
                    assert(crate::model::ty_below(*t, j as int));
                }
                let inner: String = ty_text(g, t);
                proof {
                    assert(ty_text_guarded(g, *t, j + 1) == inner@);
                }
                let mut b: Src = Src::new();
                b.push("Option<");
                b.push_string(&inner);
                b.push(">");
                b.into_string()
            },
            TypeDefKind::ResultOf(ok, err) => {
                let ok_t: String = match ok {
                    Some(t) => {
                        proof {
                            assert(crate::model::ty_below(*t, j as int));
                        }
                        let x = ty_text(g, t);
                        proof {
                            assert(ty_text_guarded(g, *t, j + 1) == x@);
                        }
                        x
                    },
                    None => crate::text::s("()"),
                };
                let err_t: String = match err {
                    Some(t) => {
                        proof {
                            assert(crate::model::ty_below(*t, j as int));
                        }
                        let x = ty_text(g, t);
                        proof {
                            assert(ty_text_guarded(g, *t, j + 1) == x@);
                        }
                        x
                    },
                    None => crate::text::s("()"),
                };
                let mut b: Src = Src::new();
                b.push("Result<");
                b.push_string(&ok_t);
                b.push(", ");
                b.push_string(&err_t);
                b.push(">");
                b.into_string()
            },
            TypeDefKind::List(t) => {
                proof {
                    assert(crate::model::ty_below(*t, j as int));
                }
                let inner: String = ty_text(g, t);
                proof {
                    assert(ty_text_guarded(g, *t, j + 1) == inner@);
                }
                let mut b: Src = Src::new();
                b.push("Vec<");
                b.push_string(&inner);
                b.push(">");
                b.into_string()
            },
            TypeDefKind::Alias(t) => {
                proof {
                    assert(crate::model::ty_below(*t, j as int));
                }
                let inner: String = ty_text(g, t);
                proof {
                    assert(ty_text_guarded(g, *t, j + 1) == inner@);
                }
                inner
            },
            _ => String::new(),
        },
    }
}

/// Helper naming the tuple payload of entry `j`, for loop invariants.
pub open spec fn kind_below_tuple(g: &Graph, j: int, tys: Vec<Ty>) -> bool {
    g.types@[j].kind == TypeDefKind::Tuple(tys) && crate::model::kind_below(g.types@[j].kind, j)
}

/// The parameter list of a generated signature.
pub open spec fn params_text(g: &Graph, params: Seq<Field>, k: int) -> Seq<char>
    decreases k,
{
    if k <= 0 {
        Seq::<char>::empty()
    } else {
        params_text(g, params, k - 1) + spec_rust_ident(params[k - 1].name@) + ": "@
            + spec_ty_text(g, params[k - 1].ty) + ", "@
    }
}

/// The return annotation of a generated signature.
pub open spec fn results_text(g: &Graph, results: Seq<Ty>) -> Seq<char> {
    if results.len() == 0 {
        Seq::<char>::empty()
    } else if results.len() == 1 {
        " -> "@ + spec_ty_text(g, results[0])
    } else {
        " -> ("@ + tuple_text(g, results, results.len() as int, g.types@.len() as int + 1) + ")"@
    }
}

/// The full signature of a generated binding for `func`.
pub open spec fn spec_fn_sig(g: &Graph, func: &Function, qualifier: Seq<char>) -> Seq<char> {
    qualifier + "fn "@ + spec_rust_ident(func.name@) + "("@ + params_text(
        g,
        func.params@,
        func.params@.len() as int,
    ) + ")"@ + results_text(g, func.results@)
}

/// Prints the signature of a generated binding: qualifier, snake-cased
/// name, owned parameter list and return type.
pub fn fn_sig(g: &Graph, func: &Function, qualifier: &str) -> (r: String)
    requires
        g.wf(),
        func.wf(g.types@.len() as int),
    ensures
        r@ == spec_fn_sig(g, func, qualifier@),
{
    let mut b: Src = Src::new();
    b.push(qualifier);
    b.push("fn ");
    let name: String = to_rust_ident(func.name.as_str());
    b.push_string(&name);
    b.push("(");
    let ghost base = b@;
    let mut k: usize = 0;
    while k < func.params.len()
        invariant
            g.wf(),
            func.wf(g.types@.len() as int),
            k <= func.params@.len(),
            b@ == base + params_text(g, func.params@, k as int),
        decreases func.params@.len() - k,
    {
        let pname: String = to_rust_ident(func.params[k].name.as_str());
        let pty: String = ty_text(g, &func.params[k].ty);
        b.push_string(&pname);
        b.push(": ");
        b.push_string(&pty);
        b.push(", ");
        proof {
            assert(b@ =~= base + params_text(g, func.params@, k + 1 as int));
        }
        k = k + 1;
    }
    b.push(")");
    if func.results.len() == 1 {
        b.push(" -> ");
        let rt: String = ty_text(g, &func.results[0]);
        b.push_string(&rt);
    } else if func.results.len() > 1 {
        b.push(" -> (");
        let ghost base2 = b@;
        let mut k2: usize = 0;
        while k2 < func.results.len()
            invariant
                g.wf(),
                func.wf(g.types@.len() as int),
                k2 <= func.results@.len(),
                b@ == base2 + tuple_text(
                    g,
                    func.results@,
                    k2 as int,
                    g.types@.len() as int + 1,
                ),
            decreases func.results@.len() - k2,
        {
            let rt: String = ty_text(g, &func.results[k2]);
            proof {
                assert(ty_text_guarded(
                    g,
                    func.results@[k2 as int],
                    g.types@.len() as int + 1,
                ) == rt@);
            }
            b.push_string(&rt);
            b.push(", ");
            proof {
                assert(b@ =~= base2 + tuple_text(
                    g,
                    func.results@,
                    k2 + 1 as int,
                    g.types@.len() as int + 1,
                ));
            }
            k2 = k2 + 1;
        }
        b.push(")");
    }
    b.into_string()
}

} // verus!

verus! {

/// Generation options, as the front end hands them over.
pub struct Opts {
    /// Whether the finished buffer is piped through an external formatter.
    pub rustfmt: bool,
    /// Qualify std-dependent features with a feature gate.
    pub std_feature: bool,
    /// Pass borrowed strings as raw byte slices.
    pub raw_strings: bool,
    /// Names of functions to skip generating bindings for.
    pub skip: Vec<String>,
    /// Implementation name for world-level exports.
    pub world_exports: Option<String>,
    /// Implementation names for exported interfaces, keyed by path.
    pub interface_exports: Vec<(String, String)>,
    /// Implementation names for exported resources, keyed by path.
    pub resource_exports: Vec<(String, String)>,
    /// Generate placeholder implementations for unbound exports.
    pub stubs: bool,
    /// Prefix prepended to every export symbol.
    pub export_prefix: Option<String>,
    /// Owning or borrowing type definitions.
    pub ownership: Ownership,
}

/// Whether generated types own their contents or borrow them.
#[derive(Clone, Copy, PartialEq, Eq, Structural, Debug)]
pub enum Ownership {
    Owning,
    Borrowing { duplicate_if_necessary: bool },
}

impl Opts {
    /// Builds a world generator configured with these options.
    pub fn build(self, n_types: usize, n_interfaces: usize) -> (r: WorldGen)
        ensures
            r.opts == self,
            r.src@ == Seq::<char>::empty(),
            r.reg.entries@.len() == n_types,
            forall|i: int| 0 <= i < n_types ==> (#[trigger] r.reg.entries@[i]) is None,
            r.interface_names@.len() == n_interfaces,
            r.import_modules@.len() == 0,
            r.export_modules@.len() == 0,
            r.stub_impls@.len() == 0,
    {
        let reg: ResourceRegistry = ResourceRegistry::new(n_types);
        let mut names: Vec<Option<String>> = Vec::new();
        let mut k: usize = 0;
        while k < n_interfaces
            invariant
                k <= n_interfaces,
                names@.len() == k,
            decreases n_interfaces - k,
        {
            names.push(None);
            k = k + 1;
        }
        WorldGen {
            src: Src::new(),
            opts: self,
            import_modules: Vec::new(),
            export_modules: Vec::new(),
            interface_names: names,
            stub_impls: Vec::new(),
            reg,
        }
    }
}

/// One generation run: accumulated output, submodule trees and the
/// resource registry, all scoped to a single world.
pub struct WorldGen {
    pub src: Src,
    pub opts: Opts,
    /// Import-side submodules, one entry per interface, keyed by package.
    pub import_modules: Vec<(Option<usize>, String)>,
    /// Export-side submodules.
    pub export_modules: Vec<(Option<usize>, String)>,
    /// The canonical module path of each interface, once emitted.
    pub interface_names: Vec<Option<String>>,
    /// Placeholder trait implementations collected for the final buffer.
    pub stub_impls: Vec<String>,
    /// The resource registry of this run.
    pub reg: ResourceRegistry,
}

/// Submodule texts without a package, in order, each on its own line.
pub open spec fn none_mods(entries: Seq<(Option<usize>, String)>, k: int) -> Seq<char>
    decreases k,
{
    if k <= 0 {
        Seq::<char>::empty()
    } else {
        none_mods(entries, k - 1) + (match entries[k - 1].0 {
            None => entries[k - 1].1@ + "\n"@,
            Some(_) => Seq::<char>::empty(),
        })
    }
}

/// Submodule texts filed under package `p`, in order.
pub open spec fn pkg_mods(entries: Seq<(Option<usize>, String)>, p: usize, k: int) -> Seq<char>
    decreases k,
{
    if k <= 0 {
        Seq::<char>::empty()
    } else {
        pkg_mods(entries, p, k - 1) + (if entries[k - 1].0 == Some(p) {
            entries[k - 1].1@ + "\n"@
        } else {
            Seq::<char>::empty()
        })
    }
}

/// The namespace view of a package.
pub open spec fn ns_of(packages: Seq<PackageName>, p: usize) -> Seq<char> {
    packages[p as int].namespace@
}

/// The distinct namespaces of the packaged entries, in first-seen order.
pub open spec fn distinct_ns(
    entries: Seq<(Option<usize>, String)>,
    packages: Seq<PackageName>,
    k: int,
) -> Seq<Seq<char>>
    decreases k,
{
    if k <= 0 {
        Seq::<Seq<char>>::empty()
    } else {
        let rest = distinct_ns(entries, packages, k - 1);
        match entries[k - 1].0 {
            Some(p) => if rest.contains(ns_of(packages, p)) {
                rest
            } else {
                rest.push(ns_of(packages, p))
            },
            None => rest,
        }
    }
}

/// The distinct packages under one namespace, in first-seen order.
pub open spec fn pkgs_in_ns(
    entries: Seq<(Option<usize>, String)>,
    packages: Seq<PackageName>,
    ns: Seq<char>,
    k: int,
) -> Seq<usize>
    decreases k,
{
    if k <= 0 {
        Seq::<usize>::empty()
    } else {
        let rest = pkgs_in_ns(entries, packages, ns, k - 1);
        match entries[k - 1].0 {
            Some(p) => if ns_of(packages, p) == ns && !rest.contains(p) {
                rest.push(p)
            } else {
                rest
            },
            None => rest,
        }
    }
}

/// One package's inner module block.
pub open spec fn pkg_inner(
    entries: Seq<(Option<usize>, String)>,
    packages: Seq<PackageName>,
    p: usize,
) -> Seq<char> {
    "pub mod "@ + snake_of(packages[p as int].name@) + " {\n"@ + pkg_mods(
        entries,
        p,
        entries.len() as int,
    ) + "}\n"@
}

/// The inner blocks of the given packages, in order.
pub open spec fn pkg_inners(
    entries: Seq<(Option<usize>, String)>,
    packages: Seq<PackageName>,
    pkgs: Seq<usize>,
    k: int,
) -> Seq<char>
    decreases k,
{
    if k <= 0 {
        Seq::<char>::empty()
    } else {
        pkg_inners(entries, packages, pkgs, k - 1) + pkg_inner(entries, packages, pkgs[k - 1])
    }
}

/// One namespace's block: every one of its packages merged inside it.
pub open spec fn ns_block(
    entries: Seq<(Option<usize>, String)>,
    packages: Seq<PackageName>,
    ns: Seq<char>,
) -> Seq<char> {
    "pub mod "@ + snake_of(ns) + " {\n"@ + pkg_inners(
        entries,
        packages,
        pkgs_in_ns(entries, packages, ns, entries.len() as int),
        pkgs_in_ns(entries, packages, ns, entries.len() as int).len() as int,
    ) + "}\n"@
}

/// The blocks of all namespaces, in first-seen order.
pub open spec fn ns_blocks(
    entries: Seq<(Option<usize>, String)>,
    packages: Seq<PackageName>,
    nss: Seq<Seq<char>>,
    k: int,
) -> Seq<char>
    decreases k,
{
    if k <= 0 {
        Seq::<char>::empty()
    } else {
        ns_blocks(entries, packages, nss, k - 1) + ns_block(entries, packages, nss[k - 1])
    }
}

/// The whole two-level module tree of one side: unpackaged modules first,
/// then one block per namespace holding all of that namespace's packages.
pub open spec fn spec_emit_modules(
    entries: Seq<(Option<usize>, String)>,
    packages: Seq<PackageName>,
) -> Seq<char> {
    none_mods(entries, entries.len() as int) + ns_blocks(
        entries,
        packages,
        distinct_ns(entries, packages, entries.len() as int),
        distinct_ns(entries, packages, entries.len() as int).len() as int,
    )
}

/// Every package a per-namespace list mentions appears in an entry.
pub proof fn lemma_pkgs_in_ns_range(
    entries: Seq<(Option<usize>, String)>,
    packages: Seq<PackageName>,
    ns: Seq<char>,
    k: int,
    b: int,
)
    requires
        0 <= b < pkgs_in_ns(entries, packages, ns, k).len(),
        k <= entries.len(),
    ensures
        exists|i: int|
            0 <= i < k && (#[trigger] entries[i]).0 == Some(
                pkgs_in_ns(entries, packages, ns, k)[b],
            ),
        ns_of(packages, pkgs_in_ns(entries, packages, ns, k)[b]) == ns,
    decreases k,
{
    if k > 0 {
        let rest = pkgs_in_ns(entries, packages, ns, k - 1);
        match entries[k - 1].0 {
            Some(p) => {
                if ns_of(packages, p) == ns && !rest.contains(p) {
                    if b < rest.len() {
                        lemma_pkgs_in_ns_range(entries, packages, ns, k - 1, b);
                    } else {
                        assert(entries[k - 1].0 == Some(pkgs_in_ns(entries, packages, ns, k)[b]));
                    }
                } else {
                    lemma_pkgs_in_ns_range(entries, packages, ns, k - 1, b);
                }
            },
            None => {
                lemma_pkgs_in_ns_range(entries, packages, ns, k - 1, b);
            },
        }
    }
}

impl WorldGen {
    /// Appends one side's submodules as a two-level namespace -> package
    /// tree: unpackaged modules first, then one namespace/package block
    /// per distinct package, in first-seen order.
    pub fn emit_modules(&mut self, g: &Graph, import: bool)
        requires
            g.wf(),
            import ==> forall|i: int|
                0 <= i < old(self).import_modules@.len() ==> (match (#[trigger] old(self).import_modules@[i]).0 {
                    Some(p) => p < g.packages@.len(),
                    None => true,
                }),
            !import ==> forall|i: int|
                0 <= i < old(self).export_modules@.len() ==> (match (#[trigger] old(self).export_modules@[i]).0 {
                    Some(p) => p < g.packages@.len(),
                    None => true,
                }),
        ensures
            *final(self) == (WorldGen { src: final(self).src, ..*old(self) }),
            final(self).src@ == old(self).src@ + spec_emit_modules(
                (if import {
                    old(self).import_modules@
                } else {
                    old(self).export_modules@
                }),
                g.packages@,
            ),
    {
        let ghost entries = if import {
            self.import_modules@
        } else {
            self.export_modules@
        };
        let n: usize = if import {
            self.import_modules.len()
        } else {
            self.export_modules.len()
        };
        let mut k: usize = 0;
        while k < n
            invariant
                g.wf(),
                n == entries.len(),
                entries == (if import {
                    self.import_modules@
                } else {
                    self.export_modules@
                }),
                k <= n,
                *self == (WorldGen { src: self.src, ..*old(self) }),
                entries == (if import {
                    old(self).import_modules@
                } else {
                    old(self).export_modules@
                }),
                self.src@ == old(self).src@ + none_mods(entries, k as int),
            decreases n - k,
        {
            let is_none: bool = if import {
                match &self.import_modules[k].0 {
                    None => true,
                    Some(_) => false,
                }
            } else {
                match &self.export_modules[k].0 {
                    None => true,
                    Some(_) => false,
                }
            };
            if is_none {
                let text: String = if import {
                    self.import_modules[k].1.clone()
                } else {
                    self.export_modules[k].1.clone()
                };
                self.src.push_string(&text);
                self.src.push("\n");
            }
            proof {
                assert(self.src@ =~= old(self).src@ + none_mods(entries, k + 1 as int));
            }
            k = k + 1;
        }
        let mut reps: Vec<usize> = Vec::new();
        let mut k2: usize = 0;
        while k2 < n
            invariant
                g.wf(),
                n == entries.len(),
                entries == (if import {
                    self.import_modules@
                } else {
                    self.export_modules@
                }),
                forall|i: int|
                    0 <= i < entries.len() ==> (match (#[trigger] entries[i]).0 {
                        Some(p) => p < g.packages@.len(),
                        None => true,
                    }),
                k2 <= n,
                *self == (WorldGen { src: self.src, ..*old(self) }),
                reps@.len() == distinct_ns(entries, g.packages@, k2 as int).len(),
                forall|z: int|
                    0 <= z < reps@.len() ==> #[trigger] reps@[z] < g.packages@.len() && ns_of(
                        g.packages@,
                        reps@[z],
                    ) == distinct_ns(entries, g.packages@, k2 as int)[z],
            decreases n - k2,
        {
            let cur: Option<usize> = if import {
                self.import_modules[k2].0
            } else {
                self.export_modules[k2].0
            };
            match cur {
                Some(p) => {
                    proof {
                        assert(entries[k2 as int].0 == Some(p));
                    }
                    let mut found: bool = false;
                    let mut q: usize = 0;
                    while q < reps.len()
                        invariant
                            g.wf(),
                            p < g.packages@.len(),
                            forall|z: int|
                                0 <= z < reps@.len() ==> #[trigger] reps@[z]
                                    < g.packages@.len(),
                            q <= reps@.len(),
                            found == exists|z: int|
                                0 <= z < q && ns_of(g.packages@, #[trigger] reps@[z]) == ns_of(
                                    g.packages@,
                                    p,
                                ),
                        decreases reps@.len() - q,
                    {
                        if crate::text::str_eq(
                            g.packages[reps[q]].namespace.as_str(),
                            g.packages[p].namespace.as_str(),
                        ) {
                            found = true;
                            proof {
                                assert(ns_of(g.packages@, reps@[q as int]) == ns_of(
                                    g.packages@,
                                    p,
                                ));
                                assert(exists|z: int|
                                    0 <= z < q + 1 && ns_of(g.packages@, #[trigger] reps@[z])
                                        == ns_of(g.packages@, p));
                            }
                        }
                        q = q + 1;
                    }
                    proof {
                        let dist = distinct_ns(entries, g.packages@, k2 as int);
                        if found {
                            let z = choose|z: int|
                                0 <= z < reps@.len() && ns_of(g.packages@, #[trigger] reps@[z])
                                    == ns_of(g.packages@, p);
                            assert(dist[z] == ns_of(g.packages@, p));
                            assert(dist.contains(ns_of(g.packages@, p)));
                        } else {
                            if dist.contains(ns_of(g.packages@, p)) {
                                let w = choose|w: int|
                                    0 <= w < dist.len() && dist[w] == ns_of(g.packages@, p);
                                assert(ns_of(g.packages@, reps@[w]) == ns_of(g.packages@, p));
                                assert(false);
                            }
                        }
                    }
                    if !found {
                        reps.push(p);
                    }
                },
                None => {},
            }
            k2 = k2 + 1;
        }
        proof {
            assert(reps@.len() == distinct_ns(entries, g.packages@, entries.len() as int).len());
        }
        let ghost allns = distinct_ns(entries, g.packages@, entries.len() as int);
        let mut b: usize = 0;
        while b < reps.len()
            invariant
                g.wf(),
                n == entries.len(),
                entries == (if import {
                    self.import_modules@
                } else {
                    self.export_modules@
                }),
                forall|i: int|
                    0 <= i < entries.len() ==> (match (#[trigger] entries[i]).0 {
                        Some(p) => p < g.packages@.len(),
                        None => true,
                    }),
                allns == distinct_ns(entries, g.packages@, entries.len() as int),
                reps@.len() == allns.len(),
                forall|z: int|
                    0 <= z < reps@.len() ==> #[trigger] reps@[z] < g.packages@.len() && ns_of(
                        g.packages@,
                        reps@[z],
                    ) == allns[z],
                b <= allns.len(),
                *self == (WorldGen { src: self.src, ..*old(self) }),
                self.src@ == old(self).src@ + none_mods(entries, entries.len() as int)
                    + ns_blocks(entries, g.packages@, allns, b as int),
            decreases allns.len() - b,
        {
            let rep: usize = reps[b];
            let ghost ns = allns[b as int];
            proof {
                assert(ns_of(g.packages@, rep) == ns);
            }
            let nss: String = to_snake_case(g.packages[rep].namespace.as_str());
            self.src.push("pub mod ");
            self.src.push_string(&nss);
            self.src.push(" {\n");
            let ghost nsbase = self.src@;
            let mut pkgs: Vec<usize> = Vec::new();
            let mut k4: usize = 0;
            while k4 < n
                invariant
                    g.wf(),
                    n == entries.len(),
                    entries == (if import {
                        self.import_modules@
                    } else {
                        self.export_modules@
                    }),
                    forall|i: int|
                        0 <= i < entries.len() ==> (match (#[trigger] entries[i]).0 {
                            Some(p) => p < g.packages@.len(),
                            None => true,
                        }),
                    rep < g.packages@.len(),
                    ns == ns_of(g.packages@, rep),
                    k4 <= n,
                    *self == (WorldGen { src: self.src, ..*old(self) }),
                    pkgs@ == pkgs_in_ns(entries, g.packages@, ns, k4 as int),
                decreases n - k4,
            {
                let cur: Option<usize> = if import {
                    self.import_modules[k4].0
                } else {
                    self.export_modules[k4].0
                };
                match cur {
                    Some(p) => {
                        proof {
                            assert(entries[k4 as int].0 == Some(p));
                        }
                        let same_ns: bool = crate::text::str_eq(
                            g.packages[p].namespace.as_str(),
                            g.packages[rep].namespace.as_str(),
                        );
                        let mut present: bool = false;
                        let mut q2: usize = 0;
                        while q2 < pkgs.len()
                            invariant
                                q2 <= pkgs@.len(),
                                present == exists|z: int|
                                    0 <= z < q2 && #[trigger] pkgs@[z] == p,
                            decreases pkgs@.len() - q2,
                        {
                            if pkgs[q2] == p {
                                present = true;
                                proof {
                                    assert(exists|z: int|
                                        0 <= z < q2 + 1 && #[trigger] pkgs@[z] == p);
                                }
                            }
                            q2 = q2 + 1;
                        }
                        proof {
                            assert(present == pkgs@.contains(p));
                        }
                        if same_ns && !present {
                            pkgs.push(p);
                        }
                    },
                    None => {},
                }
                k4 = k4 + 1;
            }
            let ghost nspkgs = pkgs_in_ns(entries, g.packages@, ns, entries.len() as int);
            proof {
                assert(pkgs@ == nspkgs);
            }
            let mut c: usize = 0;
            while c < pkgs.len()
                invariant
                    g.wf(),
                    n == entries.len(),
                    entries == (if import {
                        self.import_modules@
                    } else {
                        self.export_modules@
                    }),
                    nspkgs == pkgs_in_ns(entries, g.packages@, ns, entries.len() as int),
                    pkgs@ == nspkgs,
                    forall|i: int|
                        0 <= i < entries.len() ==> (match (#[trigger] entries[i]).0 {
                            Some(p) => p < g.packages@.len(),
                            None => true,
                        }),
                    c <= nspkgs.len(),
                    *self == (WorldGen { src: self.src, ..*old(self) }),
                    self.src@ == nsbase + pkg_inners(entries, g.packages@, nspkgs, c as int),
                decreases nspkgs.len() - c,
            {
                let p: usize = pkgs[c];
                proof {
                    lemma_pkgs_in_ns_range(entries, g.packages@, ns, entries.len() as int, c as int);
                }
                let pn: String = to_snake_case(g.packages[p].name.as_str());
                self.src.push("pub mod ");
                self.src.push_string(&pn);
                self.src.push(" {\n");
                let ghost base = self.src@;
                let mut k3: usize = 0;
                while k3 < n
                    invariant
                        n == entries.len(),
                        entries == (if import {
                            self.import_modules@
                        } else {
                            self.export_modules@
                        }),
                        k3 <= n,
                        *self == (WorldGen { src: self.src, ..*old(self) }),
                        self.src@ == base + pkg_mods(entries, p, k3 as int),
                    decreases n - k3,
                {
                    let matches_p: bool = if import {
                        match &self.import_modules[k3].0 {
                            Some(pp) => *pp == p,
                            None => false,
                        }
                    } else {
                        match &self.export_modules[k3].0 {
                            Some(pp) => *pp == p,
                            None => false,
                        }
                    };
                    if matches_p {
                        let text: String = if import {
                            self.import_modules[k3].1.clone()
                        } else {
                            self.export_modules[k3].1.clone()
                        };
                        self.src.push_string(&text);
                        self.src.push("\n");
                    }
                    proof {
                        assert(self.src@ =~= base + pkg_mods(entries, p, k3 + 1 as int));
                    }
                    k3 = k3 + 1;
                }
                self.src.push("}\n");
                proof {
                    assert(self.src@ =~= nsbase + pkg_inners(
                        entries,
                        g.packages@,
                        nspkgs,
                        c + 1 as int,
                    ));
                }
                c = c + 1;
            }
            self.src.push("}\n");
            proof {
                assert(self.src@ =~= old(self).src@ + none_mods(entries, entries.len() as int)
                    + ns_blocks(entries, g.packages@, allns, b + 1 as int));
            }
            b = b + 1;
        }
    }
}


} // verus!

verus! {

/// Argument names for a core-convention signature: `arg0, arg1, ...`.
fn core_param_names(n: usize) -> (r: Vec<String>)
    requires
        n < 0x1000_0000,
    ensures
        r@.len() == n,
        forall|i: int| 0 <= i < n ==> (#[trigger] r@[i])@ == "arg"@ + dec_str(i as nat),
{
    let mut r: Vec<String> = Vec::new();
    let mut i: usize = 0;
    while i < n
        invariant
            i <= n,
            n < 0x1000_0000,
            r@.len() == i,
            forall|q: int| 0 <= q < i ==> (#[trigger] r@[q])@ == "arg"@ + dec_str(q as nat),
        decreases n - i,
    {
        r.push(crate::bindgen::dec_name("arg", i));
        i = i + 1;
    }
    r
}

/// The abstract state a glue generator's fresh interpreter starts in.
pub open spec fn fresh_state() -> RunState {
    RunState {
        ok: true,
        stack: 0nat,
        blocks: 0nat,
        frames: Seq::<nat>::empty(),
        cleanup: 0nat,
        deferred: false,
    }
}

/// The complete import-glue text for a function, given the interpreter's
/// body text and whether a runtime cleanup list is in play.
pub open spec fn import_glue_text(
    g: &Graph,
    func: &Function,
    instrs: Seq<Instruction>,
    body: Seq<char>,
    needs_cleanup: bool,
) -> Seq<char> {
    "#[allow(clippy::all)]\n"@ + spec_fn_sig(g, func, "pub "@) + " {\nunsafe {\n"@ + (
    if needs_cleanup {
        "let mut cleanup_list = Vec::new();\n"@
    } else {
        Seq::<char>::empty()
    }) + (if seq_rpa_size(instrs, 0) > 0 {
        "#[repr(align("@ + dec_str(seq_rpa_align(instrs, 0) as nat)
            + "))]\nstruct RetArea([u8; "@ + dec_str(seq_rpa_size(instrs, 0) as nat)
            + "]);\nlet mut ret_area = ::core::mem::MaybeUninit::<RetArea>::uninit();\n"@
    } else {
        Seq::<char>::empty()
    }) + body + "}\n}\n"@
}

/// Import glue for one function: the public binding lowers the arguments,
/// calls the declared external symbol and lifts the results. The per-call
/// return area, when one is needed, is exactly the pointwise maximum the
/// instruction sequence demanded.
pub fn generate_guest_import(
    g: &Graph,
    reg: &ResourceRegistry,
    func: &Function,
    instrs: &Vec<Instruction>,
    wasm_import_module: &String,
    raw_strings: bool,
    checked: bool,
) -> (r: Option<String>)
    requires
        g.wf(),
        func.wf(g.types@.len() as int),
        instrs@.len() < 0x1000_0000,
    ensures
        r is Some <==> run_fold(instrs@, fresh_state(), func.params@.len(), true, false).ok,
        r is Some ==> exists|body: Seq<char>|
            r->Some_0@ == #[trigger] import_glue_text(
                g,
                func,
                instrs@,
                body,
                run_fold(instrs@, fresh_state(), func.params@.len(), true, false).deferred,
            ),
{
    let mut params: Vec<String> = Vec::new();
    let mut i: usize = 0;
    while i < func.params.len()
        invariant
            i <= func.params@.len(),
            params@.len() == i,
        decreases func.params@.len() - i,
    {
        params.push(to_rust_ident(func.params[i].name.as_str()));
        i = i + 1;
    }
    let mut fb: FunctionBindgen = FunctionBindgen::new(
        params,
        None,
        true,
        Some(wasm_import_module.clone()),
        raw_strings,
        checked,
    );
    let ghost fbpre = fb;
    proof {
        assert(start_state(fbpre).frames =~= fresh_state().frames);
        assert(start_state(fbpre) == fresh_state());
    }
    match fb.run(reg, instrs) {
        None => None,
        Some(_results) => {
            let sig: String = fn_sig(g, func, "pub ");
            let mut b: Src = Src::new();
            b.push("#[allow(clippy::all)]\n");
            b.push_string(&sig);
            b.push(" {\nunsafe {\n");
            if fb.needs_cleanup_list {
                b.push("let mut cleanup_list = Vec::new();\n");
            }
            if fb.import_rpa_size > 0 {
                b.push("#[repr(align(");
                b.push_dec(fb.import_rpa_align as u64);
                b.push("))]\nstruct RetArea([u8; ");
                b.push_dec(fb.import_rpa_size as u64);
                b.push("]);\nlet mut ret_area = ::core::mem::MaybeUninit::<RetArea>::uninit();\n");
            }
            let body: String = fb.src.take();
            b.push_string(&body);
            b.push("}\n}\n");
            let out: String = b.into_string();
            proof {
                lemma_rpa_nonneg(instrs@, 0);
                assert(fb.needs_cleanup_list == run_fold(
                    instrs@,
                    fresh_state(),
                    func.params@.len(),
                    true,
                    false,
                ).deferred);
                assert(out@ =~= import_glue_text(
                    g,
                    func,
                    instrs@,
                    body@,
                    fb.needs_cleanup_list,
                ));
            }
            Some(out)
        },
    }
}

/// A sequence fold from a non-negative start stays non-negative.
pub proof fn lemma_rpa_nonneg(instrs: Seq<Instruction>, init: int)
    requires
        init >= 0,
    ensures
        seq_rpa_size(instrs, init) >= 0,
        seq_rpa_align(instrs, init) >= 0,
    decreases instrs.len(),
{
    if instrs.len() > 0 {
        lemma_rpa_nonneg(instrs.drop_last(), init);
    }
}

/// The parameter list of a core-convention entry point.
pub open spec fn spec_core_params(params: Seq<crate::instr::WasmType>, k: int) -> Seq<char>
    decreases k,
{
    if k <= 0 {
        Seq::<char>::empty()
    } else {
        spec_core_params(params, k - 1) + "arg"@ + dec_str((k - 1) as nat) + ": "@
            + crate::instr::spec_wasm_type_name(params[k - 1]) + ", "@
    }
}

/// The rendered core signature tail of an entry point: parameters, the
/// closing parenthesis, and the single result type when there is one.
pub open spec fn spec_core_sig(
    params: Seq<crate::instr::WasmType>,
    results: Seq<crate::instr::WasmType>,
) -> Seq<char> {
    spec_core_params(params, params.len() as int) + ")"@ + (if results.len() == 1 {
        " -> "@ + crate::instr::spec_wasm_type_name(results[0])
    } else {
        Seq::<char>::empty()
    })
}

/// The complete export-glue text for a function, given its rendered core
/// signature tail and the interpreter's body text.
pub open spec fn export_glue_text(
    func: &Function,
    export_prefix: Seq<char>,
    export_name: Seq<char>,
    sigtext: Seq<char>,
    body: Seq<char>,
) -> Seq<char> {
    "#[doc(hidden)]\n#[export_name = \""@ + export_prefix + export_name
        + "\"]\n#[allow(non_snake_case)]\nunsafe extern \"C\" fn __export_"@ + snake_of(
        func.name@,
    ) + "("@ + sigtext + " {\n"@ + body + "}\n"@
}

/// Export glue for one function: a core-convention entry point under the
/// prefixed export symbol that lifts the arguments, dispatches into the
/// bound implementation and lowers the results. The export-side return
/// area accumulator takes the pointwise maximum across the module's
/// functions.
pub fn generate_guest_export(
    g: &Graph,
    reg: &ResourceRegistry,
    func: &Function,
    instrs: &Vec<Instruction>,
    trait_name: &String,
    export_name: &String,
    export_prefix: &String,
    core_params: &Vec<crate::instr::WasmType>,
    core_results: &Vec<crate::instr::WasmType>,
    raw_strings: bool,
    checked: bool,
    area: &mut (usize, usize),
) -> (r: Option<String>)
    requires
        g.wf(),
        func.wf(g.types@.len() as int),
        instrs@.len() < 0x1000_0000,
        core_params@.len() < 0x1000_0000,
        core_results@.len() <= 1,
    ensures
        r is Some <==> {
            let st = run_fold(instrs@, fresh_state(), core_params@.len(), false, true);
            st.ok && !st.deferred
        },
        r is Some ==> {
            &&& final(area).0 == (if seq_rpa_size(instrs@, old(area).0 as int) >= 0 {
                seq_rpa_size(instrs@, old(area).0 as int)
            } else {
                0
            })
            &&& final(area).1 == (if seq_rpa_align(instrs@, old(area).1 as int) >= 0 {
                seq_rpa_align(instrs@, old(area).1 as int)
            } else {
                0
            })
            &&& exists|body: Seq<char>|
                r->Some_0@ == #[trigger] export_glue_text(
                    func,
                    export_prefix@,
                    export_name@,
                    spec_core_sig(core_params@, core_results@),
                    body,
                )
        },
        r is None ==> *final(area) == *old(area),
{
    let params: Vec<String> = core_param_names(core_params.len());
    let mut fb: FunctionBindgen = FunctionBindgen::new(
        params,
        Some(trait_name.clone()),
        false,
        None,
        raw_strings,
        checked,
    );
    fb.export_rpa_size = area.0;
    fb.export_rpa_align = area.1;
    let ghost fbpre = fb;
    proof {
        assert(fb.accounted());
        assert(fb.tmp == 0);
        assert(start_state(fbpre).frames =~= fresh_state().frames);
        assert(start_state(fbpre) == fresh_state());
    }
    match fb.run(reg, instrs) {
        None => None,
        Some(_results) => {
            if fb.needs_cleanup_list {
                // export-side emission never defers cleanup to a runtime
                // list: such a sequence is rejected whole
                return None;
            }
            let mut b: Src = Src::new();
            b.push("#[doc(hidden)]\n#[export_name = \"");
            b.push_string(export_prefix);
            b.push_string(export_name);
            b.push("\"]\n#[allow(non_snake_case)]\nunsafe extern \"C\" fn __export_");
            let snake: String = to_snake_case(func.name.as_str());
            b.push_string(&snake);
            b.push("(");
            let mut sig: Src = Src::new();
            let mut i: usize = 0;
            while i < core_params.len()
                invariant
                    i <= core_params@.len(),
                    sig@ == spec_core_params(core_params@, i as int),
                decreases core_params@.len() - i,
            {
                sig.push_string(&crate::bindgen::dec_name("arg", i));
                sig.push(": ");
                sig.push(crate::instr::wasm_type_name(core_params[i]));
                sig.push(", ");
                proof {
                    assert(sig@ =~= spec_core_params(core_params@, i + 1 as int));
                }
                i = i + 1;
            }
            sig.push(")");
            if core_results.len() == 1 {
                sig.push(" -> ");
                sig.push(crate::instr::wasm_type_name(core_results[0]));
            }
            let sigtext: String = sig.into_string();
            proof {
                assert(sigtext@ =~= spec_core_sig(core_params@, core_results@));
            }
            b.push_string(&sigtext);
            b.push(" {\n");
            let body: String = fb.src.take();
            b.push_string(&body);
            b.push("}\n");
            area.0 = fb.export_rpa_size;
            area.1 = fb.export_rpa_align;
            let out: String = b.into_string();
            proof {
                lemma_rpa_nonneg(instrs@, old(area).0 as int);
                lemma_rpa_nonneg(instrs@, old(area).1 as int);
                assert(out@ =~= export_glue_text(
                    func,
                    export_prefix@,
                    export_name@,
                    sigtext@,
                    body@,
                ));
            }
            Some(out)
        },
    }
}

/// The post-return companion of an export: the symbol the host calls
/// after the return value has been read, so the glue can tear the lowered
/// results down.
pub open spec fn post_return_glue_text(
    func: &Function,
    export_prefix: Seq<char>,
    export_name: Seq<char>,
    sigtext: Seq<char>,
    body: Seq<char>,
) -> Seq<char> {
    "const _: () = {\n#[doc(hidden)]\n#[export_name = \""@ + export_prefix + "cabi_post_"@
        + export_name
        + "\"]\n#[allow(non_snake_case)]\nunsafe extern \"C\" fn __post_return_"@ + snake_of(
        func.name@,
    ) + "("@ + sigtext + " {\n"@ + body + "}\n};\n"@
}

/// Post-call teardown glue for one export whose result needs it: a paired
/// symbol under the `cabi_post_` prefix taking the core results as
/// arguments. The teardown path never defers cleanup either.
pub fn generate_post_return(
    g: &Graph,
    reg: &ResourceRegistry,
    func: &Function,
    instrs: &Vec<Instruction>,
    export_name: &String,
    export_prefix: &String,
    core_results: &Vec<crate::instr::WasmType>,
    raw_strings: bool,
    checked: bool,
) -> (r: Option<String>)
    requires
        g.wf(),
        func.wf(g.types@.len() as int),
        instrs@.len() < 0x1000_0000,
        core_results@.len() < 0x1000_0000,
    ensures
        r is Some <==> {
            let st = run_fold(instrs@, fresh_state(), core_results@.len(), false, true);
            st.ok && !st.deferred
        },
        r is Some ==> exists|body: Seq<char>|
            r->Some_0@ == #[trigger] post_return_glue_text(
                func,
                export_prefix@,
                export_name@,
                spec_core_sig(core_results@, Seq::<crate::instr::WasmType>::empty()),
                body,
            ),
{
    let params: Vec<String> = core_param_names(core_results.len());
    let mut fb: FunctionBindgen = FunctionBindgen::new(
        params,
        Some(String::new()),
        false,
        None,
        raw_strings,
        checked,
    );
    let ghost fbpre = fb;
    proof {
        assert(start_state(fbpre).frames =~= fresh_state().frames);
        assert(start_state(fbpre) == fresh_state());
    }
    match fb.run(reg, instrs) {
        None => None,
        Some(_results) => {
            if fb.needs_cleanup_list {
                return None;
            }
            let mut b: Src = Src::new();
            b.push("const _: () = {\n#[doc(hidden)]\n#[export_name = \"");
            b.push_string(export_prefix);
            b.push("cabi_post_");
            b.push_string(export_name);
            b.push("\"]\n#[allow(non_snake_case)]\nunsafe extern \"C\" fn __post_return_");
            let snake: String = to_snake_case(func.name.as_str());
            b.push_string(&snake);
            b.push("(");
            let mut sig: Src = Src::new();
            let mut i: usize = 0;
            while i < core_results.len()
                invariant
                    i <= core_results@.len(),
                    sig@ == spec_core_params(core_results@, i as int),
                decreases core_results@.len() - i,
            {
                sig.push_string(&crate::bindgen::dec_name("arg", i));
                sig.push(": ");
                sig.push(crate::instr::wasm_type_name(core_results[i]));
                sig.push(", ");
                proof {
                    assert(sig@ =~= spec_core_params(core_results@, i + 1 as int));
                }
                i = i + 1;
            }
            sig.push(")");
            let sigtext: String = sig.into_string();
            proof {
                assert(sigtext@ =~= spec_core_sig(
                    core_results@,
                    Seq::<crate::instr::WasmType>::empty(),
                ));
            }
            b.push_string(&sigtext);
            b.push(" {\n");
            let body: String = fb.src.take();
            b.push_string(&body);
            b.push("}\n};\n");
            let out: String = b.into_string();
            proof {
                assert(out@ =~= post_return_glue_text(
                    func,
                    export_prefix@,
                    export_name@,
                    sigtext@,
                    body@,
                ));
            }
            Some(out)
        },
    }
}

/// The wrapper filing one interface's text as a submodule.
pub open spec fn spec_submodule(snake: Seq<char>, path_to_root: Seq<char>, inner: Seq<char>) -> Seq<
    char,
> {
    "#[allow(clippy::all)]\npub mod "@ + snake
        + " {\n#[used]\n#[doc(hidden)]\n#[cfg(target_arch = \"wasm32\")]\nstatic __FORCE_SECTION_REF: fn() = "@
        + path_to_root + "__link_section;\n"@ + inner + "}\n"@
}

impl WorldGen {
    /// Wraps an emitted interface as a submodule, files it under its
    /// package on the right side, and records the canonical path other
    /// interfaces refer to it by.
    pub fn finish_append_submodule(
        &mut self,
        g: &Graph,
        import: bool,
        pkg: Option<usize>,
        iface: Option<usize>,
        name: &String,
        inner: &String,
    )
        requires
            (match pkg {
                Some(p) => p < g.packages@.len(),
                None => true,
            }),
            (match iface {
                Some(ifc) => ifc < old(self).interface_names@.len(),
                None => true,
            }),
        ensures
            *final(self) == (WorldGen {
                import_modules: final(self).import_modules,
                export_modules: final(self).export_modules,
                interface_names: final(self).interface_names,
                ..*old(self)
            }),
            import ==> final(self).import_modules@.len() == old(self).import_modules@.len() + 1
                && final(self).import_modules@.drop_last() == old(self).import_modules@ && final(self).import_modules@.last().0 == pkg && final(self).export_modules == old(self).export_modules,
            !import ==> final(self).export_modules@.len() == old(self).export_modules@.len() + 1
                && final(self).export_modules@.drop_last() == old(self).export_modules@ && final(self).export_modules@.last().0 == pkg && final(self).import_modules == old(self).import_modules,
            (if import {
                final(self).import_modules@.last().1@
            } else {
                final(self).export_modules@.last().1@
            }) == spec_submodule(
                spec_rust_ident(name@),
                spec_path_to_root(import, pkg is Some),
                inner@,
            ),
            iface is None ==> final(self).interface_names == old(self).interface_names,
            iface is Some ==> {
                &&& final(self).interface_names@.len() == old(self).interface_names@.len()
                &&& forall|q: int|
                    0 <= q < old(self).interface_names@.len() && q != iface->Some_0 ==> final(self).interface_names@[q] == old(self).interface_names@[q]
                &&& final(self).interface_names@[iface->Some_0 as int] is Some
                &&& final(self).interface_names@[iface->Some_0 as int]->Some_0@
                    == spec_canonical_path(g, import, pkg, name@)
            },
    {
        let snake: String = to_rust_ident(name.as_str());
        let mut root: Src = Src::new();
        root.push("super::");
        if !import {
            root.push("super::");
        }
        if pkg.is_some() {
            root.push("super::super::");
        }
        let roots: String = root.into_string();
        let mut b: Src = Src::new();
        b.push("#[allow(clippy::all)]\npub mod ");
        b.push_string(&snake);
        b.push(
            " {\n#[used]\n#[doc(hidden)]\n#[cfg(target_arch = \"wasm32\")]\nstatic __FORCE_SECTION_REF: fn() = ",
        );
        b.push_string(&roots);
        b.push("__link_section;\n");
        b.push_string(inner);
        b.push("}\n");
        let module: String = b.into_string();
        match iface {
            Some(ifc) => {
                let mut path: Src = Src::new();
                if !import {
                    path.push("exports::");
                }
                match pkg {
                    Some(p) => {
                        let ns: String = to_snake_case(g.packages[p].namespace.as_str());
                        let pn: String = to_snake_case(g.packages[p].name.as_str());
                        path.push_string(&ns);
                        path.push("::");
                        path.push_string(&pn);
                        path.push("::");
                    },
                    None => {},
                }
                path.push_string(&snake);
                let ptext: String = path.into_string();
                proof {
                    assert(ptext@ =~= spec_canonical_path(g, import, pkg, name@));
                }
                self.interface_names.set(ifc, Some(ptext));
            },
            None => {},
        }
        if import {
            self.import_modules.push((pkg, module));
            proof {
                assert(self.import_modules@.drop_last() =~= old(self).import_modules@);
            }
        } else {
            self.export_modules.push((pkg, module));
            proof {
                assert(self.export_modules@.drop_last() =~= old(self).export_modules@);
            }
        }
    }
}

/// The canonical module path an emitted interface is referred to by:
/// under `exports` on the export side, under its namespace and package
/// when it has one, ending in its own snake-cased name.
pub open spec fn spec_canonical_path(
    g: &Graph,
    import: bool,
    pkg: Option<usize>,
    name: Seq<char>,
) -> Seq<char> {
    (if !import {
        "exports::"@
    } else {
        Seq::<char>::empty()
    }) + (match pkg {
        Some(p) => snake_of(g.packages@[p as int].namespace@) + "::"@ + snake_of(
            g.packages@[p as int].name@,
        ) + "::"@,
        None => Seq::<char>::empty(),
    }) + spec_rust_ident(name)
}

/// The path from inside a submodule back to the crate root.
pub open spec fn spec_path_to_root(import: bool, packaged: bool) -> Seq<char> {
    "super::"@ + (if !import {
        "super::"@
    } else {
        Seq::<char>::empty()
    }) + (if packaged {
        "super::super::"@
    } else {
        Seq::<char>::empty()
    })
}

/// The serialized world descriptor rendered as a byte-array literal.
pub open spec fn bytes_text(bs: Seq<u8>, k: int) -> Seq<char>
    decreases k,
{
    if k <= 0 {
        Seq::<char>::empty()
    } else {
        bytes_text(bs, k - 1) + dec_str(bs[k - 1] as nat) + ", "@
    }
}

/// The collected placeholder implementations, concatenated in order.
pub open spec fn stub_texts(stubs: Seq<String>, k: int) -> Seq<char>
    decreases k,
{
    if k <= 0 {
        Seq::<char>::empty()
    } else {
        stub_texts(stubs, k - 1) + stubs[k - 1]@
    }
}

impl WorldGen {
    /// Assembles the final buffer: the import tree, the export tree under
    /// `exports`, the tagged descriptor section -- its name starts with
    /// `component-type` and ends with the world's name so downstream
    /// linkers never concatenate two worlds' sections -- and the section
    /// anchor. Returns the output file name and its contents.
    pub fn finish(&mut self, g: &Graph, world_name: &String, descriptor: &Vec<u8>) -> (r: (
        String,
        String,
    ))
        requires
            g.wf(),
            forall|i: int|
                0 <= i < old(self).import_modules@.len() ==> (match (#[trigger] old(self).import_modules@[i]).0 {
                    Some(p) => p < g.packages@.len(),
                    None => true,
                }),
            forall|i: int|
                0 <= i < old(self).export_modules@.len() ==> (match (#[trigger] old(self).export_modules@[i]).0 {
                    Some(p) => p < g.packages@.len(),
                    None => true,
                }),
        ensures
            r.0@ == spec_rust_ident(world_name@) + ".rs"@,
            r.1@ == old(self).src@ + spec_emit_modules(old(self).import_modules@, g.packages@) + (
            if old(self).export_modules@.len() > 0 {
                "pub mod exports {\n"@ + spec_emit_modules(old(self).export_modules@, g.packages@)
                    + "}\n"@
            } else {
                Seq::<char>::empty()
            }) + "\n#[cfg(target_arch = \"wasm32\")]\n#[link_section = \"component-type:"@
                + world_name@ + "\"]\n#[doc(hidden)]\npub static __WIT_BINDGEN_COMPONENT_TYPE: [u8; "@
                + dec_str(descriptor@.len()) + "] = ["@ + bytes_text(
                descriptor@,
                descriptor@.len() as int,
            )
                + "];\n\n#[inline(never)]\n#[doc(hidden)]\n#[cfg(target_arch = \"wasm32\")]\npub fn __link_section() {}\n"@
                + (if old(self).opts.stubs {
                "\npub struct Stub;\n"@ + stub_texts(
                    old(self).stub_impls@,
                    old(self).stub_impls@.len() as int,
                )
            } else {
                Seq::<char>::empty()
            }),
            final(self).src@ == Seq::<char>::empty(),
    {
        self.emit_modules(g, true);
        if self.export_modules.len() > 0 {
            self.src.push("pub mod exports {\n");
            self.emit_modules(g, false);
            self.src.push("}\n");
        }
        self.src.push("\n#[cfg(target_arch = \"wasm32\")]\n#[link_section = \"component-type:");
        self.src.push_string(world_name);
        self.src.push("\"]\n#[doc(hidden)]\npub static __WIT_BINDGEN_COMPONENT_TYPE: [u8; ");
        self.src.push_dec(descriptor.len() as u64);
        self.src.push("] = [");
        let ghost base = self.src@;
        let mut i: usize = 0;
        while i < descriptor.len()
            invariant
                i <= descriptor@.len(),
                self.src@ == base + bytes_text(descriptor@, i as int),
                *self == (WorldGen { src: self.src, ..*old(self) }),
            decreases descriptor@.len() - i,
        {
            self.src.push_dec(descriptor[i] as u64);
            self.src.push(", ");
            proof {
                assert(self.src@ =~= base + bytes_text(descriptor@, i + 1 as int));
            }
            i = i + 1;
        }
        self.src.push(
            "];\n\n#[inline(never)]\n#[doc(hidden)]\n#[cfg(target_arch = \"wasm32\")]\npub fn __link_section() {}\n",
        );
        if self.opts.stubs {
            self.src.push("\npub struct Stub;\n");
            let ghost sbase = self.src@;
            let ns: usize = self.stub_impls.len();
            let mut si: usize = 0;
            while si < ns
                invariant
                    ns == self.stub_impls@.len(),
                    si <= ns,
                    self.src@ == sbase + stub_texts(self.stub_impls@, si as int),
                    *self == (WorldGen { src: self.src, ..*old(self) }),
                decreases ns - si,
            {
                let t: String = self.stub_impls[si].clone();
                self.src.push_string(&t);
                proof {
                    assert(self.src@ =~= sbase + stub_texts(self.stub_impls@, si + 1 as int));
                }
                si = si + 1;
            }
        }
        let contents: String = self.src.take();
        let mut fname: Src = Src::new();
        let ident: String = to_rust_ident(world_name.as_str());
        fname.push_string(&ident);
        fname.push(".rs");
        (fname.into_string(), contents)
    }
}

/// The trait-implementation block of placeholder bodies for one group of
/// exports lacking a configured implementation.
pub open spec fn stub_sigs(g: &Graph, funcs: Seq<Function>, skip: Seq<String>, k: int) -> Seq<
    char,
>
    decreases k,
{
    if k <= 0 {
        Seq::<char>::empty()
    } else {
        stub_sigs(g, funcs, skip, k - 1) + (if in_skip(skip, funcs[k - 1].name@) {
            Seq::<char>::empty()
        } else {
            spec_fn_sig(g, &funcs[k - 1], Seq::<char>::empty()) + " { unreachable!() }\n"@
        })
    }
}

/// Placeholder implementations: one `impl` of the export trait for the
/// `Stub` type, every method failing unconditionally when invoked.
pub fn generate_stub(
    g: &Graph,
    qualified_name: &String,
    funcs: &Vec<Function>,
    skip: &Vec<String>,
) -> (r: String)
    requires
        g.wf(),
        forall|i: int| 0 <= i < funcs@.len() ==> (#[trigger] funcs@[i]).wf(g.types@.len() as int),
    ensures
        r@ == "impl "@ + qualified_name@ + " for Stub {\n"@ + stub_sigs(
            g,
            funcs@,
            skip@,
            funcs@.len() as int,
        ) + "}\n"@,
{
    let mut b: Src = Src::new();
    b.push("impl ");
    b.push_string(qualified_name);
    b.push(" for Stub {\n");
    let ghost base = b@;
    let mut i: usize = 0;
    while i < funcs.len()
        invariant
            g.wf(),
            forall|q: int|
                0 <= q < funcs@.len() ==> (#[trigger] funcs@[q]).wf(g.types@.len() as int),
            i <= funcs@.len(),
            b@ == base + stub_sigs(g, funcs@, skip@, i as int),
        decreases funcs@.len() - i,
    {
        let skipped: bool = is_skipped(skip, funcs[i].name.as_str());
        if !skipped {
            let sig: String = fn_sig(g, &funcs[i], "");
            b.push_string(&sig);
            b.push(" { unreachable!() }\n");
        }
        proof {
            reveal_strlit("");
            assert(""@ =~= Seq::<char>::empty());
            assert(skipped == in_skip(skip@, funcs@[i as int].name@));
            assert(b@ =~= base + stub_sigs(g, funcs@, skip@, i + 1 as int));
        }
        i = i + 1;
    }
    b.push("}\n");
    b.into_string()
}

} // verus!

verus! {

/// One flag constant per bit, in declaration order.
pub open spec fn flags_consts(names: Seq<String>, k: int) -> Seq<char>
    decreases k,
{
    if k <= 0 {
        Seq::<char>::empty()
    } else {
        flags_consts(names, k - 1) + "const "@ + shouty_snake_of(names[k - 1]@) + " = 1 << "@
            + dec_str((k - 1) as nat) + ";\n"@
    }
}

/// The declaration of a flags type: a bit-set struct backed by the
/// smallest integer wide enough for its bit count, one shouty constant
/// per flag.
pub open spec fn spec_type_flags(name: Seq<char>, names: Seq<String>) -> Seq<char> {
    "wit_bindgen::bitflags::bitflags! {\n#[derive(PartialEq, Eq, PartialOrd, Ord, Hash, Debug, Clone, Copy)]\npub struct "@
        + upper_camel_of(name) + ": "@ + spec_flags_repr(names.len()) + " {\n"@ + flags_consts(
        names,
        names.len() as int,
    ) + "}\n}\n"@
}

/// Prints the declaration of a flags type.
pub fn type_flags(name: &str, flags: &Vec<String>) -> (r: String)
    requires
        flags@.len() < 0x1000_0000,
    ensures
        r@ == spec_type_flags(name@, flags@),
{
    let mut b: Src = Src::new();
    b.push(
        "wit_bindgen::bitflags::bitflags! {\n#[derive(PartialEq, Eq, PartialOrd, Ord, Hash, Debug, Clone, Copy)]\npub struct ",
    );
    let camel: String = to_upper_camel_case(name);
    b.push_string(&camel);
    b.push(": ");
    b.push(flags_repr(flags.len()));
    b.push(" {\n");
    let ghost base = b@;
    let mut i: usize = 0;
    while i < flags.len()
        invariant
            i <= flags@.len(),
            flags@.len() < 0x1000_0000,
            b@ == base + flags_consts(flags@, i as int),
        decreases flags@.len() - i,
    {
        let shouty: String = to_shouty_snake_case(flags[i].as_str());
        b.push("const ");
        b.push_string(&shouty);
        b.push(" = 1 << ");
        b.push_dec(i as u64);
        b.push(";\n");
        proof {
            assert(b@ =~= base + flags_consts(flags@, i + 1 as int));
        }
        i = i + 1;
    }
    b.push("}\n}\n");
    b.into_string()
}

} // verus!

verus! {

/// The module-wide static return area on the export side: one region
/// shared by every exported function of the module, sized and aligned to
/// their pointwise maximum.
pub open spec fn spec_ret_area_decl(size: nat, align: nat) -> Seq<char> {
    "#[repr(align("@ + dec_str(align) + "))]\nstruct _RetArea([u8; "@ + dec_str(size)
        + "]);\nstatic mut _RET_AREA: _RetArea = _RetArea([0; "@ + dec_str(size) + "]);\n"@
}

/// Declares the shared export-side return area, or nothing when no
/// exported function spills through memory.
pub fn ret_area_decl(size: usize, align: usize) -> (r: String)
    ensures
        align > 0 ==> r@ == spec_ret_area_decl(size as nat, align as nat),
        align == 0 ==> r@ == Seq::<char>::empty(),
{
    if align == 0 {
        return String::new();
    }
    let mut b: Src = Src::new();
    b.push("#[repr(align(");
    b.push_dec(align as u64);
    b.push("))]\nstruct _RetArea([u8; ");
    b.push_dec(size as u64);
    b.push("]);\nstatic mut _RET_AREA: _RetArea = _RetArea([0; ");
    b.push_dec(size as u64);
    b.push("]);\n");
    b.into_string()
}

/// The glue synthesized for one exported resource: the destructor thunk
/// the host invokes on release and, when an own-handle companion is
/// registered, the owning handle type whose construction boxes the
/// representation and exchanges it for a raw handle.
pub open spec fn spec_resource_glue(
    name: Seq<char>,
    camel: Seq<char>,
    snake: Seq<char>,
    prefix: Seq<char>,
    has_own: bool,
) -> Seq<char> {
    "const _: () = {\n#[doc(hidden)]\n#[export_name = \""@ + prefix + "exports#[dtor]"@ + name
        + "\"]\n#[allow(non_snake_case)]\nunsafe extern \"C\" fn __export_dtor_"@ + snake
        + "(arg0: i32) {\nuse wit_bindgen::rt::boxed::Box;\ndrop(Box::from_raw(core::mem::transmute::<isize, *mut Rep"@
        + camel + ">(\narg0.try_into().unwrap(),\n)))\n}\n};\n"@ + (if has_own {
        "pub struct Own"@ + camel + " {\nhandle: i32,\n}\nimpl Own"@ + camel
            + " {\n#[doc(hidden)]\npub unsafe fn from_handle(handle: i32) -> Self {\nSelf { handle }\n}\n#[doc(hidden)]\npub fn into_handle(self) -> i32 {\ncore::mem::ManuallyDrop::new(self).handle\n}\npub fn new(rep: Rep"@
            + camel + ") -> Own"@ + camel
            + " {\nuse wit_bindgen::rt::boxed::Box;\nunsafe {\n#[link(wasm_import_module = \"[export]exports\")]\nextern \"C\" {\n#[link_name = \"[resource-new]"@
            + name + "\"]\nfn wit_import(_: i32) -> i32;\n}\nOwn"@ + camel
            + " {\nhandle: wit_import(\ncore::mem::transmute::<*mut Rep"@ + camel
            + ", isize>(\nBox::into_raw(Box::new(rep))\n)\n.try_into()\n.unwrap(),\n),\n}\n}\n}\n}\nimpl core::ops::Deref for Own"@
            + camel + " {\ntype Target = Rep"@ + camel + ";\nfn deref(&self) -> &Rep"@ + camel
            + " {\nunsafe {\n#[link(wasm_import_module = \"[export]exports\")]\nextern \"C\" {\n#[link_name = \"[resource-rep]"@
            + name + "\"]\nfn wit_import(_: i32) -> i32;\n}\ncore::mem::transmute::<isize, &Rep"@
            + camel + ">(\nwit_import(self.handle).try_into().unwrap()\n)\n}\n}\n}\nimpl Drop for Own"@
            + camel
            + " {\nfn drop(&mut self) {\nunsafe {\n#[link(wasm_import_module = \"[export]exports\")]\nextern \"C\" {\n#[link_name = \"[resource-drop-own]"@
            + name + "\"]\nfn wit_import(_: i32);\n}\nwit_import(self.handle)\n}\n}\n}\n"@
    } else {
        Seq::<char>::empty()
    })
}

/// Prints the export glue for one resource.
#[verifier::rlimit(100)]
pub fn resource_glue(name: &str, export_prefix: &String, has_own: bool) -> (r: String)
    ensures
        r@ == spec_resource_glue(
            name@,
            upper_camel_of(name@),
            spec_rust_ident(name@),
            export_prefix@,
            has_own,
        ),
{
    let camel: String = to_upper_camel_case(name);
    let snake: String = to_rust_ident(name);
    let mut b: Src = Src::new();
    b.push("const _: () = {\n#[doc(hidden)]\n#[export_name = \"");
    b.push_string(export_prefix);
    b.push("exports#[dtor]");
    b.push(name);
    b.push("\"]\n#[allow(non_snake_case)]\nunsafe extern \"C\" fn __export_dtor_");
    b.push_string(&snake);
    b.push(
        "(arg0: i32) {\nuse wit_bindgen::rt::boxed::Box;\ndrop(Box::from_raw(core::mem::transmute::<isize, *mut Rep",
    );
    b.push_string(&camel);
    b.push(">(\narg0.try_into().unwrap(),\n)))\n}\n};\n");
    if has_own {
        b.push("pub struct Own");
        b.push_string(&camel);
        b.push(" {\nhandle: i32,\n}\nimpl Own");
        b.push_string(&camel);
        b.push(
            " {\n#[doc(hidden)]\npub unsafe fn from_handle(handle: i32) -> Self {\nSelf { handle }\n}\n#[doc(hidden)]\npub fn into_handle(self) -> i32 {\ncore::mem::ManuallyDrop::new(self).handle\n}\npub fn new(rep: Rep",
        );
        b.push_string(&camel);
        b.push(") -> Own");
        b.push_string(&camel);
        b.push(
            " {\nuse wit_bindgen::rt::boxed::Box;\nunsafe {\n#[link(wasm_import_module = \"[export]exports\")]\nextern \"C\" {\n#[link_name = \"[resource-new]",
        );
        b.push(name);
        b.push("\"]\nfn wit_import(_: i32) -> i32;\n}\nOwn");
        b.push_string(&camel);
        b.push(" {\nhandle: wit_import(\ncore::mem::transmute::<*mut Rep");
        b.push_string(&camel);
        b.push(
            ", isize>(\nBox::into_raw(Box::new(rep))\n)\n.try_into()\n.unwrap(),\n),\n}\n}\n}\n}\nimpl core::ops::Deref for Own",
        );
        b.push_string(&camel);
        b.push(" {\ntype Target = Rep");
        b.push_string(&camel);
        b.push(";\nfn deref(&self) -> &Rep");
        b.push_string(&camel);
        b.push(
            " {\nunsafe {\n#[link(wasm_import_module = \"[export]exports\")]\nextern \"C\" {\n#[link_name = \"[resource-rep]",
        );
        b.push(name);
        b.push("\"]\nfn wit_import(_: i32) -> i32;\n}\ncore::mem::transmute::<isize, &Rep");
        b.push_string(&camel);
        b.push(
            ">(\nwit_import(self.handle).try_into().unwrap()\n)\n}\n}\n}\nimpl Drop for Own",
        );
        b.push_string(&camel);
        b.push(
            " {\nfn drop(&mut self) {\nunsafe {\n#[link(wasm_import_module = \"[export]exports\")]\nextern \"C\" {\n#[link_name = \"[resource-drop-own]",
        );
        b.push(name);
        b.push("\"]\nfn wit_import(_: i32);\n}\nwit_import(self.handle)\n}\n}\n}\n");
    }
    b.into_string()
}

} // verus!

verus! {

/// Whether a function name stands in the skip set.
pub open spec fn in_skip(skip: Seq<String>, name: Seq<char>) -> bool {
    exists|i: int| 0 <= i < skip.len() && (#[trigger] skip[i])@ == name
}

/// Tests a function name against the skip set.
pub fn is_skipped(skip: &Vec<String>, name: &str) -> (r: bool)
    ensures
        r == in_skip(skip@, name@),
{
    let mut i: usize = 0;
    let mut found: bool = false;
    while i < skip.len()
        invariant
            i <= skip@.len(),
            found == exists|q: int| 0 <= q < i && (#[trigger] skip@[q])@ == name@,
        decreases skip@.len() - i,
    {
        if crate::text::str_eq(skip[i].as_str(), name) {
            found = true;
            proof {
                assert(exists|q: int| 0 <= q < i + 1 && (#[trigger] skip@[q])@ == name@);
            }
        }
        i = i + 1;
    }
    found
}

/// Whether any function of the group survives the skip set.
pub open spec fn spec_has_unskipped(funcs: Seq<Function>, skip: Seq<String>) -> bool
    decreases funcs.len(),
{
    if funcs.len() == 0 {
        false
    } else {
        spec_has_unskipped(funcs.drop_last(), skip) || !in_skip(skip, funcs.last().name@)
    }
}

/// The declared methods of a capability trait, skipped names left out.
pub open spec fn trait_sigs(g: &Graph, funcs: Seq<Function>, skip: Seq<String>, k: int) -> Seq<
    char,
>
    decreases k,
{
    if k <= 0 {
        Seq::<char>::empty()
    } else {
        trait_sigs(g, funcs, skip, k - 1) + (if in_skip(skip, funcs[k - 1].name@) {
            Seq::<char>::empty()
        } else {
            spec_fn_sig(g, &funcs[k - 1], Seq::<char>::empty()) + ";\n"@
        })
    }
}

/// Whether one export-side sequence conforms and never defers cleanup.
pub open spec fn export_seq_ok(instrs: Seq<Instruction>, params_len: nat) -> bool {
    let st = run_fold(instrs, fresh_state(), params_len, false, true);
    st.ok && !st.deferred
}

/// Whether every non-skipped function of an export group has conforming
/// sequences, for the main body and the optional teardown body.
pub open spec fn exports_admissible(
    funcs: Seq<Function>,
    skip: Seq<String>,
    instrs: Seq<Vec<Instruction>>,
    posts: Seq<Option<Vec<Instruction>>>,
    sigs: Seq<(Vec<crate::instr::WasmType>, Vec<crate::instr::WasmType>)>,
) -> bool {
    forall|i: int|
        0 <= i < funcs.len() && !in_skip(skip, (#[trigger] funcs[i]).name@) ==> export_seq_ok(
            instrs[i]@,
            sigs[i].0@.len(),
        ) && (match posts[i] {
            Some(pi) => export_seq_ok(pi@, sigs[i].1@.len()),
            None => true,
        })
}

/// The configuration error for an export group without an implementation.
pub open spec fn spec_missing_impl_msg(head: Seq<char>, path: Seq<char>) -> Seq<char> {
    head + path + "`"@
}

/// The capability contract around one export group: the trait a concrete
/// implementation must satisfy, the binding of the configured (or stub)
/// implementation, and one dispatch thunk per non-skipped function, with
/// its teardown companion where one is needed. An export group with
/// neither a configured implementation nor stub generation is the
/// configuration error the run aborts with.
#[verifier::rlimit(100)]
pub fn generate_exports(
    g: &Graph,
    reg: &ResourceRegistry,
    trait_name: &String,
    path: &String,
    msg_head: &str,
    impl_name: &Option<String>,
    stubs: bool,
    skip: &Vec<String>,
    path_to_impl: &String,
    funcs: &Vec<Function>,
    instrs: &Vec<Vec<Instruction>>,
    export_names: &Vec<String>,
    post_instrs: &Vec<Option<Vec<Instruction>>>,
    core_sigs: &Vec<(Vec<crate::instr::WasmType>, Vec<crate::instr::WasmType>)>,
    export_prefix: &String,
    raw_strings: bool,
    checked: bool,
    area: &mut (usize, usize),
) -> (r: Result<String, String>)
    requires
        g.wf(),
        forall|i: int| 0 <= i < funcs@.len() ==> (#[trigger] funcs@[i]).wf(g.types@.len() as int),
        instrs@.len() == funcs@.len(),
        export_names@.len() == funcs@.len(),
        post_instrs@.len() == funcs@.len(),
        core_sigs@.len() == funcs@.len(),
        forall|i: int| 0 <= i < funcs@.len() ==> (#[trigger] instrs@[i])@.len() < 0x1000_0000,
        forall|i: int|
            0 <= i < funcs@.len() ==> (match #[trigger] post_instrs@[i] {
                Some(pi) => pi@.len() < 0x1000_0000,
                None => true,
            }),
        forall|i: int|
            0 <= i < funcs@.len() ==> (#[trigger] core_sigs@[i]).0@.len() < 0x1000_0000
                && core_sigs@[i].1@.len() <= 1,
    ensures
        r is Ok <==> (spec_has_unskipped(funcs@, skip@) ==> ((impl_name is Some || stubs)
            && exports_admissible(funcs@, skip@, instrs@, post_instrs@, core_sigs@))),
        (r is Err && impl_name is None && !stubs) ==> r->Err_0@ == spec_missing_impl_msg(
            msg_head@,
            path@,
        ),
        r is Ok ==> exists|tail: Seq<char>|
            r->Ok_0@ == #[trigger] spec_export_group_text(
                g,
                funcs@,
                skip@,
                trait_name@,
                path_to_impl@,
                *impl_name,
                tail,
            ),
{
    let mut any: bool = false;
    let mut b: Src = Src::new();
    b.push("pub trait ");
    b.push_string(trait_name);
    b.push(" {\n");
    let ghost tbase = b@;
    let mut i: usize = 0;
    while i < funcs.len()
        invariant
            g.wf(),
            forall|q: int|
                0 <= q < funcs@.len() ==> (#[trigger] funcs@[q]).wf(g.types@.len() as int),
            i <= funcs@.len(),
            b@ == tbase + trait_sigs(g, funcs@, skip@, i as int),
            any == spec_has_unskipped(funcs@.take(i as int), skip@),
        decreases funcs@.len() - i,
    {
        let skipped: bool = is_skipped(skip, funcs[i].name.as_str());
        if !skipped {
            let sig: String = fn_sig(g, &funcs[i], "");
            b.push_string(&sig);
            b.push(";\n");
            any = true;
        }
        proof {
            reveal_strlit("");
            assert(""@ =~= Seq::<char>::empty());
            assert(funcs@.take(i + 1 as int).drop_last() =~= funcs@.take(i as int));
            assert(funcs@.take(i + 1 as int).last() == funcs@[i as int]);
            assert(skipped == in_skip(skip@, funcs@[i as int].name@));
            assert(b@ =~= tbase + trait_sigs(g, funcs@, skip@, i + 1 as int));
        }
        i = i + 1;
    }
    b.push("}\n");
    proof {
        assert(funcs@.take(funcs@.len() as int) =~= funcs@);
    }
    if !any {
        let out: String = b.into_string();
        proof {
            assert(out@ =~= spec_export_group_text(
                g,
                funcs@,
                skip@,
                trait_name@,
                path_to_impl@,
                *impl_name,
                Seq::<char>::empty(),
            ));
        }
        return Ok(out);
    }
    let impl_to_use: String = match impl_name {
        Some(n) => n.clone(),
        None => {
            if stubs {
                crate::text::s("Stub")
            } else {
                let mut m: Src = Src::new();
                m.push(msg_head);
                m.push_string(path);
                m.push("`");
                return Err(m.into_string());
            }
        },
    };
    b.push("use ");
    b.push_string(path_to_impl);
    b.push_string(&impl_to_use);
    b.push(" as ");
    b.push_string(trait_name);
    b.push("Impl;\nconst _: () = {\n");
    let ghost thbase = b@;
    let mut j: usize = 0;
    while j < funcs.len()
        invariant
            g.wf(),
            forall|q: int|
                0 <= q < funcs@.len() ==> (#[trigger] funcs@[q]).wf(g.types@.len() as int),
            instrs@.len() == funcs@.len(),
            export_names@.len() == funcs@.len(),
            post_instrs@.len() == funcs@.len(),
            core_sigs@.len() == funcs@.len(),
            forall|q: int| 0 <= q < funcs@.len() ==> (#[trigger] instrs@[q])@.len() < 0x1000_0000,
            forall|q: int|
                0 <= q < funcs@.len() ==> (match #[trigger] post_instrs@[q] {
                    Some(pi) => pi@.len() < 0x1000_0000,
                    None => true,
                }),
            forall|q: int|
                0 <= q < funcs@.len() ==> (#[trigger] core_sigs@[q]).0@.len() < 0x1000_0000
                    && core_sigs@[q].1@.len() <= 1,
            j <= funcs@.len(),
            b@.len() >= thbase.len(),
            b@.subrange(0, thbase.len() as int) == thbase,
            spec_has_unskipped(funcs@, skip@),
            impl_name is Some || stubs,
            forall|q: int|
                0 <= q < j && !in_skip(skip@, (#[trigger] funcs@[q]).name@) ==> export_seq_ok(
                    instrs@[q]@,
                    core_sigs@[q].0@.len(),
                ) && (match post_instrs@[q] {
                    Some(pi) => export_seq_ok(pi@, core_sigs@[q].1@.len()),
                    None => true,
                }),
        decreases funcs@.len() - j,
    {
        let skipped: bool = is_skipped(skip, funcs[j].name.as_str());
        proof {
            assert(skipped == in_skip(skip@, funcs@[j as int].name@));
        }
        if !skipped {
            match generate_guest_export(
                g,
                reg,
                &funcs[j],
                &instrs[j],
                trait_name,
                &export_names[j],
                export_prefix,
                &core_sigs[j].0,
                &core_sigs[j].1,
                raw_strings,
                checked,
                area,
            ) {
                Some(t) => {
                    b.push_string(&t);
                },
                None => {
                    proof {
                        assert(!export_seq_ok(instrs@[j as int]@, core_sigs@[j as int].0@.len()));
                        assert(!exports_admissible(
                            funcs@,
                            skip@,
                            instrs@,
                            post_instrs@,
                            core_sigs@,
                        ));
                        assert(spec_has_unskipped(funcs@, skip@));
                    }
                    return Err(crate::text::s(
                        "ill-formed instruction sequence for an exported function",
                    ));
                },
            }
            match &post_instrs[j] {
                Some(pi) => {
                    match generate_post_return(
                        g,
                        reg,
                        &funcs[j],
                        pi,
                        &export_names[j],
                        export_prefix,
                        &core_sigs[j].1,
                        raw_strings,
                        checked,
                    ) {
                        Some(t) => {
                            b.push_string(&t);
                        },
                        None => {
                            proof {
                                assert(!exports_admissible(
                                    funcs@,
                                    skip@,
                                    instrs@,
                                    post_instrs@,
                                    core_sigs@,
                                ));
                                assert(spec_has_unskipped(funcs@, skip@));
                            }
                            return Err(crate::text::s(
                                "ill-formed teardown sequence for an exported function",
                            ));
                        },
                    }
                },
                None => {},
            }
        }
        proof {
            assert(b@.subrange(0, thbase.len() as int) =~= thbase);
        }
        j = j + 1;
    }
    let ghost tail = b@.subrange(thbase.len() as int, b@.len() as int);
    proof {
        assert(b@ =~= thbase + tail);
    }
    b.push("};\n");
    let out: String = b.into_string();
    proof {
        assert(exports_admissible(funcs@, skip@, instrs@, post_instrs@, core_sigs@));
        assert(out@ =~= spec_export_group_text(
            g,
            funcs@,
            skip@,
            trait_name@,
            path_to_impl@,
            *impl_name,
            tail,
        ));
    }
    Ok(out)
}

/// The whole text of one export group: the trait, then -- when any
/// function survives the skip set -- the implementation binding (the
/// configured name, or `Stub`) and the thunks.
pub open spec fn spec_export_group_text(
    g: &Graph,
    funcs: Seq<Function>,
    skip: Seq<String>,
    trait_name: Seq<char>,
    path_to_impl: Seq<char>,
    impl_name: Option<String>,
    thunks: Seq<char>,
) -> Seq<char> {
    "pub trait "@ + trait_name + " {\n"@ + trait_sigs(g, funcs, skip, funcs.len() as int)
        + "}\n"@ + spec_group_tail(
        spec_has_unskipped(funcs, skip),
        path_to_impl,
        (match impl_name {
            Some(n) => n@,
            None => "Stub"@,
        }),
        trait_name,
        thunks,
    )
}

/// What follows the trait when the group has surviving functions: the
/// implementation binding and the thunks inside an anonymous block.
pub open spec fn spec_group_tail(
    any: bool,
    path_to_impl: Seq<char>,
    impl_name: Seq<char>,
    trait_name: Seq<char>,
    thunks: Seq<char>,
) -> Seq<char> {
    if any {
        "use "@ + path_to_impl + impl_name + " as "@ + trait_name + "Impl;\nconst _: () = {\n"@
            + thunks + "};\n"@
    } else {
        Seq::<char>::empty()
    }
}

} // verus!

verus! {

/// The import-side wrapper for one resource: a thin handle-and-ownership
/// pair whose drop releases the borrow or the ownership.
pub open spec fn spec_import_resource_decl(name: Seq<char>, camel: Seq<char>) -> Seq<char> {
    "pub struct "@ + camel + " {\nhandle: i32,\nowned: bool,\n}\nimpl Drop for "@ + camel
        + " {\nfn drop(&mut self) {\nunsafe {\nif self.owned {\n#[link(wasm_import_module = \"imports\")]\nextern \"C\" {\n#[link_name = \"[resource-drop-own]"@
        + name
        + "\"]\nfn wit_import(_: i32);\n}\nwit_import(self.handle)\n} else {\n#[link(wasm_import_module = \"imports\")]\nextern \"C\" {\n#[link_name = \"[resource-drop-borrow]"@
        + name + "\"]\nfn wit_import(_: i32);\n}\nwit_import(self.handle)\n}\n}\n}\n}\nimpl "@
        + camel
        + " {\n#[doc(hidden)]\npub unsafe fn from_handle(handle: i32, owned: bool) -> Self {\nSelf { handle, owned }\n}\n#[doc(hidden)]\npub fn into_handle(self) -> i32 {\ncore::mem::ManuallyDrop::new(self).handle\n}\n}\n"@
}

/// Prints the import-side wrapper for one resource.
#[verifier::rlimit(100)]
pub fn import_resource_decl(name: &str) -> (r: String)
    ensures
        r@ == spec_import_resource_decl(name@, upper_camel_of(name@)),
{
    let camel: String = to_upper_camel_case(name);
    let mut b: Src = Src::new();
    b.push("pub struct ");
    b.push_string(&camel);
    b.push(" {\nhandle: i32,\nowned: bool,\n}\nimpl Drop for ");
    b.push_string(&camel);
    b.push(
        " {\nfn drop(&mut self) {\nunsafe {\nif self.owned {\n#[link(wasm_import_module = \"imports\")]\nextern \"C\" {\n#[link_name = \"[resource-drop-own]",
    );
    b.push(name);
    b.push(
        "\"]\nfn wit_import(_: i32);\n}\nwit_import(self.handle)\n} else {\n#[link(wasm_import_module = \"imports\")]\nextern \"C\" {\n#[link_name = \"[resource-drop-borrow]",
    );
    b.push(name);
    b.push("\"]\nfn wit_import(_: i32);\n}\nwit_import(self.handle)\n}\n}\n}\n}\nimpl ");
    b.push_string(&camel);
    b.push(
        " {\n#[doc(hidden)]\npub unsafe fn from_handle(handle: i32, owned: bool) -> Self {\nSelf { handle, owned }\n}\n#[doc(hidden)]\npub fn into_handle(self) -> i32 {\ncore::mem::ManuallyDrop::new(self).handle\n}\n}\n",
    );
    b.into_string()
}

/// Whether every non-skipped import binding has a conforming sequence.
pub open spec fn imports_admissible(
    funcs: Seq<Function>,
    skip: Seq<String>,
    instrs: Seq<Vec<Instruction>>,
) -> bool {
    forall|i: int|
        0 <= i < funcs.len() && !in_skip(skip, (#[trigger] funcs[i]).name@) ==> run_fold(
            instrs[i]@,
            fresh_state(),
            funcs[i].params@.len(),
            true,
            false,
        ).ok
}

/// Every type of the interface whose definition resolves to a resource is
/// classified Export in the given registry contents.
pub open spec fn iface_resources_exported(
    g: &Graph,
    iface: int,
    entries: Seq<Option<crate::registry::ResourceInfo>>,
) -> bool {
    forall|q: int|
        0 <= q < g.interfaces@[iface].types@.len() ==> ((g.types@[crate::model::spec_dealias(
            g,
            (#[trigger] g.interfaces@[iface].types@[q]).1 as int,
        )].kind is Resource) ==> spec_is_exported(
            entries,
            crate::model::spec_dealias(g, g.interfaces@[iface].types@[q].1 as int),
        ))
}

impl WorldGen {
    /// Walks the types of one interface and classifies every resource
    /// among them for the given direction. Export sightings promote; no
    /// sighting ever demotes an Export entry.
    fn classify_interface(&mut self, g: &Graph, iface: usize, export_ctx: bool)
        requires
            g.wf(),
            iface < g.interfaces@.len(),
            old(self).reg.entries@.len() == g.types@.len(),
        ensures
            *final(self) == (WorldGen { reg: final(self).reg, ..*old(self) }),
            final(self).reg.entries@.len() == g.types@.len(),
            forall|t: int|
                spec_is_exported(old(self).reg.entries@, t) ==> spec_is_exported(
                    final(self).reg.entries@,
                    t,
                ),
            export_ctx ==> iface_resources_exported(g, iface as int, final(self).reg.entries@),
    {
        let n_t: usize = g.interfaces[iface].types.len();
        let mut q: usize = 0;
        while q < n_t
            invariant
                g.wf(),
                iface < g.interfaces@.len(),
                n_t == g.interfaces@[iface as int].types@.len(),
                q <= n_t,
                *self == (WorldGen { reg: self.reg, ..*old(self) }),
                self.reg.entries@.len() == g.types@.len(),
                forall|t: int|
                    spec_is_exported(old(self).reg.entries@, t) ==> spec_is_exported(
                        self.reg.entries@,
                        t,
                    ),
                export_ctx ==> forall|z: int|
                    0 <= z < q ==> ((g.types@[crate::model::spec_dealias(
                        g,
                        (#[trigger] g.interfaces@[iface as int].types@[z]).1 as int,
                    )].kind is Resource) ==> spec_is_exported(
                        self.reg.entries@,
                        crate::model::spec_dealias(
                            g,
                            g.interfaces@[iface as int].types@[z].1 as int,
                        ),
                    )),
            decreases n_t - q,
        {
            proof {
                assert(g.interfaces@[iface as int].wf(
                    g.types@.len() as int,
                    g.packages@.len() as int,
                ));
                assert(g.interfaces@[iface as int].types@[q as int].1 < g.types@.len());
            }
            let tid: usize = g.interfaces[iface].types[q].1;
            let d: usize = crate::model::dealias(g, tid);
            let is_res: bool = match &g.types[d].kind {
                TypeDefKind::Resource => true,
                _ => false,
            };
            let ghost before = self.reg.entries@;
            if is_res {
                self.reg.classify(d, export_ctx, None);
                proof {
                    assert(self.reg.entries@.len() == before.len());
                    assert forall|t: int|
                        spec_is_exported(before, t) implies spec_is_exported(
                        self.reg.entries@,
                        t,
                    ) by {
                        crate::registry::lemma_export_direction_stable(
                            before,
                            t,
                            d as int,
                            export_ctx,
                            None,
                        );
                    }
                    if export_ctx {
                        assert(spec_is_exported(self.reg.entries@, d as int));
                    }
                }
            }
            q = q + 1;
        }
    }

    /// One imported interface: its resources classified (Import default),
    /// its flags and resource wrappers declared, one binding per
    /// non-skipped function, and the whole filed as an import submodule.
    pub fn import_interface(
        &mut self,
        g: &Graph,
        iface: usize,
        name: &String,
        pkg: Option<usize>,
        wasm_import_module: &String,
        instrs: &Vec<Vec<Instruction>>,
        checked: bool,
    ) -> (r: Result<(), String>)
        requires
            g.wf(),
            iface < g.interfaces@.len(),
            old(self).reg.entries@.len() == g.types@.len(),
            iface < old(self).interface_names@.len(),
            (match pkg {
                Some(p) => p < g.packages@.len(),
                None => true,
            }),
            instrs@.len() == g.interfaces@[iface as int].functions@.len(),
            forall|i: int|
                0 <= i < instrs@.len() ==> (#[trigger] instrs@[i])@.len() < 0x1000_0000,
            forall|q: int|
                0 <= q < g.types@.len() ==> (match (#[trigger] g.types@[q]).kind {
                    TypeDefKind::Flags(names) => names@.len() < 0x1000_0000,
                    _ => true,
                }),
        ensures
            final(self).reg.entries@.len() == g.types@.len(),
            forall|t: int|
                spec_is_exported(old(self).reg.entries@, t) ==> spec_is_exported(
                    final(self).reg.entries@,
                    t,
                ),
            r is Ok <==> imports_admissible(
                g.interfaces@[iface as int].functions@,
                old(self).opts.skip@,
                instrs@,
            ),
            r is Ok ==> final(self).import_modules@.len() == old(self).import_modules@.len() + 1
                && final(self).import_modules@.drop_last() == old(self).import_modules@ && final(self).import_modules@.last().0 == pkg && final(self).export_modules == old(self).export_modules,
            r is Err ==> final(self).import_modules == old(self).import_modules && final(self).export_modules == old(self).export_modules,
    {
        self.classify_interface(g, iface, false);
        let ghost mid = *self;
        let mut inner: Src = Src::new();
        let n_t: usize = g.interfaces[iface].types.len();
        let mut q: usize = 0;
        while q < n_t
            invariant
                g.wf(),
                iface < g.interfaces@.len(),
                n_t == g.interfaces@[iface as int].types@.len(),
                q <= n_t,
                *self == mid,
                self.import_modules == old(self).import_modules,
                self.export_modules == old(self).export_modules,
                self.interface_names == old(self).interface_names,
                self.opts == old(self).opts,
                self.reg.entries@.len() == g.types@.len(),
                forall|t: int|
                    spec_is_exported(old(self).reg.entries@, t) ==> spec_is_exported(
                        self.reg.entries@,
                        t,
                    ),
                forall|z: int|
                    0 <= z < g.types@.len() ==> (match (#[trigger] g.types@[z]).kind {
                        TypeDefKind::Flags(names) => names@.len() < 0x1000_0000,
                        _ => true,
                    }),
            decreases n_t - q,
        {
            proof {
                assert(g.interfaces@[iface as int].wf(
                    g.types@.len() as int,
                    g.packages@.len() as int,
                ));
                assert(g.interfaces@[iface as int].types@[q as int].1 < g.types@.len());
            }
            let tid: usize = g.interfaces[iface].types[q].1;
            match &g.types[tid].kind {
                TypeDefKind::Flags(names) => {
                    let decl: String = type_flags(g.interfaces[iface].types[q].0.as_str(), names);
                    inner.push_string(&decl);
                },
                TypeDefKind::Resource => {
                    let decl: String = import_resource_decl(
                        g.interfaces[iface].types[q].0.as_str(),
                    );
                    inner.push_string(&decl);
                },
                _ => {},
            }
            q = q + 1;
        }
        let n_f: usize = g.interfaces[iface].functions.len();
        let mut i: usize = 0;
        while i < n_f
            invariant
                g.wf(),
                iface < g.interfaces@.len(),
                n_f == g.interfaces@[iface as int].functions@.len(),
                instrs@.len() == n_f,
                forall|z: int|
                    0 <= z < instrs@.len() ==> (#[trigger] instrs@[z])@.len() < 0x1000_0000,
                i <= n_f,
                *self == mid,
                self.import_modules == old(self).import_modules,
                self.export_modules == old(self).export_modules,
                self.interface_names == old(self).interface_names,
                self.opts == old(self).opts,
                self.reg.entries@.len() == g.types@.len(),
                forall|t: int|
                    spec_is_exported(old(self).reg.entries@, t) ==> spec_is_exported(
                        self.reg.entries@,
                        t,
                    ),
                iface < old(self).interface_names@.len(),
                (match pkg {
                    Some(p) => p < g.packages@.len(),
                    None => true,
                }),
                forall|z: int|
                    0 <= z < i && !in_skip(
                        mid.opts.skip@,
                        (#[trigger] g.interfaces@[iface as int].functions@[z]).name@,
                    ) ==> run_fold(
                        instrs@[z]@,
                        fresh_state(),
                        g.interfaces@[iface as int].functions@[z].params@.len(),
                        true,
                        false,
                    ).ok,
            decreases n_f - i,
        {
            proof {
                assert(g.interfaces@[iface as int].wf(
                    g.types@.len() as int,
                    g.packages@.len() as int,
                ));
                assert(g.interfaces@[iface as int].functions@[i as int].wf(
                    g.types@.len() as int,
                ));
            }
            let skipped: bool = is_skipped(
                &self.opts.skip,
                g.interfaces[iface].functions[i].name.as_str(),
            );
            proof {
                assert(skipped == in_skip(
                    mid.opts.skip@,
                    g.interfaces@[iface as int].functions@[i as int].name@,
                ));
            }
            if !skipped {
                match generate_guest_import(
                    g,
                    &self.reg,
                    &g.interfaces[iface].functions[i],
                    &instrs[i],
                    wasm_import_module,
                    self.opts.raw_strings,
                    checked,
                ) {
                    Some(t) => {
                        inner.push_string(&t);
                    },
                    None => {
                        proof {
                            assert(!imports_admissible(
                                g.interfaces@[iface as int].functions@,
                                mid.opts.skip@,
                                instrs@,
                            ));
                        }
                        return Err(crate::text::s(
                            "ill-formed instruction sequence for an imported function",
                        ));
                    },
                }
            }
            i = i + 1;
        }
        proof {
            assert(imports_admissible(
                g.interfaces@[iface as int].functions@,
                mid.opts.skip@,
                instrs@,
            ));
        }
        let inner_text: String = inner.into_string();
        self.finish_append_submodule(g, true, pkg, Some(iface), name, &inner_text);
        Ok(())
    }
}

} // verus!

verus! {

impl WorldGen {
    /// One exported interface: its resources classified Export, its flags
    /// declared and resource glue synthesized, the capability contract and
    /// dispatch thunks emitted around the bound implementation, the shared
    /// return area declared at the module's pointwise maximum, a stub
    /// implementation collected when stub generation is on, and the whole
    /// filed as an export submodule.
    pub fn export_interface(
        &mut self,
        g: &Graph,
        iface: usize,
        name: &String,
        pkg: Option<usize>,
        impl_name: &Option<String>,
        path: &String,
        path_to_impl: &String,
        instrs: &Vec<Vec<Instruction>>,
        export_names: &Vec<String>,
        post_instrs: &Vec<Option<Vec<Instruction>>>,
        core_sigs: &Vec<(Vec<crate::instr::WasmType>, Vec<crate::instr::WasmType>)>,
        checked: bool,
    ) -> (r: Result<(), String>)
        requires
            g.wf(),
            iface < g.interfaces@.len(),
            old(self).reg.entries@.len() == g.types@.len(),
            iface < old(self).interface_names@.len(),
            (match pkg {
                Some(p) => p < g.packages@.len(),
                None => true,
            }),
            instrs@.len() == g.interfaces@[iface as int].functions@.len(),
            export_names@.len() == g.interfaces@[iface as int].functions@.len(),
            post_instrs@.len() == g.interfaces@[iface as int].functions@.len(),
            core_sigs@.len() == g.interfaces@[iface as int].functions@.len(),
            forall|i: int|
                0 <= i < instrs@.len() ==> (#[trigger] instrs@[i])@.len() < 0x1000_0000,
            forall|i: int|
                0 <= i < post_instrs@.len() ==> (match #[trigger] post_instrs@[i] {
                    Some(pi) => pi@.len() < 0x1000_0000,
                    None => true,
                }),
            forall|i: int|
                0 <= i < core_sigs@.len() ==> (#[trigger] core_sigs@[i]).0@.len() < 0x1000_0000
                    && core_sigs@[i].1@.len() <= 1,
            forall|q: int|
                0 <= q < g.types@.len() ==> (match (#[trigger] g.types@[q]).kind {
                    TypeDefKind::Flags(names) => names@.len() < 0x1000_0000,
                    _ => true,
                }),
        ensures
            final(self).reg.entries@.len() == g.types@.len(),
            forall|t: int|
                spec_is_exported(old(self).reg.entries@, t) ==> spec_is_exported(
                    final(self).reg.entries@,
                    t,
                ),
            iface_resources_exported(g, iface as int, final(self).reg.entries@),
            r is Ok <==> (spec_has_unskipped(
                g.interfaces@[iface as int].functions@,
                old(self).opts.skip@,
            ) ==> ((impl_name is Some || old(self).opts.stubs) && exports_admissible(
                g.interfaces@[iface as int].functions@,
                old(self).opts.skip@,
                instrs@,
                post_instrs@,
                core_sigs@,
            ))),
            r is Ok ==> final(self).export_modules@.len() == old(self).export_modules@.len() + 1
                && final(self).export_modules@.drop_last() == old(self).export_modules@ && final(self).export_modules@.last().0 == pkg && final(self).import_modules == old(self).import_modules,
            r is Err ==> final(self).export_modules == old(self).export_modules && final(self).import_modules == old(self).import_modules && final(self).stub_impls == old(self).stub_impls,
            (r is Ok && old(self).opts.stubs) ==> final(self).stub_impls@.len() == old(self).stub_impls@.len() + 1 && final(self).stub_impls@.drop_last() == old(self).stub_impls@,
            (r is Ok && !old(self).opts.stubs) ==> final(self).stub_impls == old(self).stub_impls,
    {
        self.classify_interface(g, iface, true);
        let ghost mid = *self;
        let ep: String = match &self.opts.export_prefix {
            Some(p) => p.clone(),
            None => String::new(),
        };
        let mut inner: Src = Src::new();
        let n_t: usize = g.interfaces[iface].types.len();
        let mut q: usize = 0;
        while q < n_t
            invariant
                g.wf(),
                iface < g.interfaces@.len(),
                n_t == g.interfaces@[iface as int].types@.len(),
                q <= n_t,
                *self == mid,
                self.import_modules == old(self).import_modules,
                self.export_modules == old(self).export_modules,
                self.interface_names == old(self).interface_names,
                self.stub_impls == old(self).stub_impls,
                self.opts == old(self).opts,
                self.reg.entries@.len() == g.types@.len(),
                forall|t: int|
                    spec_is_exported(old(self).reg.entries@, t) ==> spec_is_exported(
                        self.reg.entries@,
                        t,
                    ),
                iface_resources_exported(g, iface as int, self.reg.entries@),
                forall|z: int|
                    0 <= z < g.types@.len() ==> (match (#[trigger] g.types@[z]).kind {
                        TypeDefKind::Flags(names) => names@.len() < 0x1000_0000,
                        _ => true,
                    }),
            decreases n_t - q,
        {
            proof {
                assert(g.interfaces@[iface as int].wf(
                    g.types@.len() as int,
                    g.packages@.len() as int,
                ));
                assert(g.interfaces@[iface as int].types@[q as int].1 < g.types@.len());
            }
            let tid: usize = g.interfaces[iface].types[q].1;
            match &g.types[tid].kind {
                TypeDefKind::Flags(names) => {
                    let decl: String = type_flags(g.interfaces[iface].types[q].0.as_str(), names);
                    inner.push_string(&decl);
                },
                TypeDefKind::Resource => {
                    let has_own: bool = match self.reg.own_handle(tid) {
                        Some(_) => true,
                        None => false,
                    };
                    let decl: String = resource_glue(
                        g.interfaces[iface].types[q].0.as_str(),
                        &ep,
                        has_own,
                    );
                    inner.push_string(&decl);
                },
                _ => {},
            }
            q = q + 1;
        }
        let trait_name: String = to_upper_camel_case(name.as_str());
        let mut area: (usize, usize) = (0, 0);
        match generate_exports(
            g,
            &self.reg,
            &trait_name,
            path,
            "export implementation required for `",
            impl_name,
            self.opts.stubs,
            &self.opts.skip,
            path_to_impl,
            &g.interfaces[iface].functions,
            instrs,
            export_names,
            post_instrs,
            core_sigs,
            &ep,
            self.opts.raw_strings,
            checked,
            &mut area,
        ) {
            Err(e) => Err(e),
            Ok(t) => {
                inner.push_string(&t);
                let ra: String = ret_area_decl(area.0, area.1);
                inner.push_string(&ra);
                if self.opts.stubs {
                    let mut qp: Src = Src::new();
                    qp.push("exports::");
                    match pkg {
                        Some(p) => {
                            let ns: String = to_snake_case(g.packages[p].namespace.as_str());
                            let pn: String = to_snake_case(g.packages[p].name.as_str());
                            qp.push_string(&ns);
                            qp.push("::");
                            qp.push_string(&pn);
                            qp.push("::");
                        },
                        None => {},
                    }
                    let snake: String = to_rust_ident(name.as_str());
                    qp.push_string(&snake);
                    qp.push("::");
                    qp.push_string(&trait_name);
                    let qn: String = qp.into_string();
                    let st: String = generate_stub(
                        g,
                        &qn,
                        &g.interfaces[iface].functions,
                        &self.opts.skip,
                    );
                    self.stub_impls.push(st);
                    proof {
                        assert(self.stub_impls@.drop_last() =~= old(self).stub_impls@);
                    }
                }
                let inner_text: String = inner.into_string();
                self.finish_append_submodule(g, false, pkg, Some(iface), name, &inner_text);
                Ok(())
            },
        }
    }
}

} // verus!
