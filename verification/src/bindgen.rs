//! The ABI interpreter: a stack machine that turns one instruction
//! sequence into the body of one generated function.
//!
//! Source expressions travel on an operand stack; nested bodies (variant
//! cases, list elements) are emitted inside block frames that save and
//! restore the output buffer and the pending-cleanup list; allocations made
//! while lowering are recorded as cleanup obligations and discharged at
//! every return, either directly or through a runtime cleanup list when a
//! block executes conditionally.

use crate::instr::{
    spec_wasm_type_name, wasm_type_name, Bitcast, CallKind, Instruction, WasmType,
};
use crate::registry::{spec_is_exported, ResourceRegistry};
use crate::text::{dec_str, Src};
use vstd::prelude::*;

verus! {

/// A saved emission context: the buffer and the cleanup obligations of the
/// enclosing scope.
pub struct BlockFrame {
    pub src: String,
    pub cleanup: Vec<(String, String)>,
}

/// Per-function interpreter state.
pub struct FunctionBindgen {
    /// Source expressions for the generated function's parameters.
    pub params: Vec<String>,
    /// The trait generated export thunks dispatch through, when lifting.
    pub trait_name: Option<String>,
    /// Whether this function is import glue (lower args, lift results).
    pub in_import: bool,
    /// The module external symbols are imported from.
    pub wasm_import_module: Option<String>,
    /// Raw-string mode: strings lift to byte vectors.
    pub raw_strings: bool,
    /// Validation mode, chosen once per run: checked conversions fail
    /// loudly on invalid encodings, unchecked ones assume validity.
    pub checked: bool,
    /// The output buffer of the innermost open block.
    pub src: Src,
    /// Compiled blocks waiting to be absorbed.
    pub blocks: Vec<String>,
    /// Saved contexts of the enclosing blocks.
    pub frames: Vec<BlockFrame>,
    /// Monotonically increasing temporary-name counter.
    pub tmp: usize,
    /// Whether any obligation was deferred to the runtime cleanup list.
    pub needs_cleanup_list: bool,
    /// Pending (pointer, layout) deallocation obligations of the innermost
    /// open block.
    pub cleanup: Vec<(String, String)>,
    /// Import-side return-pointer area accumulator, per function.
    pub import_rpa_size: usize,
    pub import_rpa_align: usize,
    /// Export-side return-pointer area accumulator, merged into the
    /// module-wide maximum by the emitter.
    pub export_rpa_size: usize,
    pub export_rpa_align: usize,
    /// Obligations ever recorded.
    pub recorded: Ghost<nat>,
    /// Obligations discharged by a directly emitted deallocation.
    pub discharged: Ghost<nat>,
    /// Obligations handed to the runtime cleanup list.
    pub deferred: Ghost<nat>,
}

/// Cleanup obligations still pending in saved frames.
pub open spec fn frames_cleanup_sum(frames: Seq<BlockFrame>) -> nat
    decreases frames.len(),
{
    if frames.len() == 0 {
        0
    } else {
        frames_cleanup_sum(frames.drop_last()) + frames.last().cleanup@.len()
    }
}

impl FunctionBindgen {
    /// Obligation bookkeeping is balanced: everything recorded is pending
    /// somewhere or already discharged, and the runtime cleanup list is in
    /// play exactly when something was deferred to it.
    pub open spec fn accounted(&self) -> bool {
        &&& self.recorded@ == self.discharged@ + self.deferred@ + self.cleanup@.len()
            + frames_cleanup_sum(self.frames@)
        &&& self.needs_cleanup_list == (self.deferred@ > 0)
    }

    /// A fresh interpreter for one function.
    pub fn new(
        params: Vec<String>,
        trait_name: Option<String>,
        in_import: bool,
        wasm_import_module: Option<String>,
        raw_strings: bool,
        checked: bool,
    ) -> (r: FunctionBindgen)
        ensures
            r.params == params,
            r.trait_name == trait_name,
            r.in_import == in_import,
            r.wasm_import_module == wasm_import_module,
            r.raw_strings == raw_strings,
            r.checked == checked,
            r.src@ == Seq::<char>::empty(),
            r.blocks@.len() == 0,
            r.frames@.len() == 0,
            r.tmp == 0,
            !r.needs_cleanup_list,
            r.cleanup@.len() == 0,
            r.import_rpa_size == 0,
            r.import_rpa_align == 0,
            r.export_rpa_size == 0,
            r.export_rpa_align == 0,
            r.recorded@ == 0,
            r.discharged@ == 0,
            r.deferred@ == 0,
            r.accounted(),
    {
        FunctionBindgen {
            params,
            trait_name,
            in_import,
            wasm_import_module,
            raw_strings,
            checked,
            src: Src::new(),
            blocks: Vec::new(),
            frames: Vec::new(),
            tmp: 0,
            needs_cleanup_list: false,
            cleanup: Vec::new(),
            import_rpa_size: 0,
            import_rpa_align: 0,
            export_rpa_size: 0,
            export_rpa_align: 0,
            recorded: Ghost(0),
            discharged: Ghost(0),
            deferred: Ghost(0),
        }
    }

    /// Takes the next temporary index.
    fn take_tmp(&mut self) -> (r: usize)
        requires
            old(self).tmp < 0x1000_0000,
        ensures
            r == old(self).tmp,
            *final(self) == (FunctionBindgen { tmp: (old(self).tmp + 1) as usize, ..*old(self) }),
    {
        let t: usize = self.tmp;
        self.tmp = self.tmp + 1;
        t
    }

    /// Opens a nested emission block, saving the buffer and the pending
    /// cleanup obligations of the enclosing scope.
    pub fn push_block(&mut self)
        ensures
            *final(self) == (FunctionBindgen {
                src: final(self).src,
                frames: final(self).frames,
                cleanup: final(self).cleanup,
                ..*old(self)
            }),
            final(self).src@ == Seq::<char>::empty(),
            final(self).cleanup@.len() == 0,
            final(self).frames@.len() == old(self).frames@.len() + 1,
            final(self).frames@.drop_last() == old(self).frames@,
            final(self).frames@.last().src@ == old(self).src@,
            final(self).frames@.last().cleanup@ == old(self).cleanup@,
            old(self).accounted() ==> final(self).accounted(),
    {
        let prev_src: String = self.src.take();
        let mut prev_cleanup: Vec<(String, String)> = Vec::new();
        core::mem::swap(&mut prev_cleanup, &mut self.cleanup);
        self.frames.push(BlockFrame { src: prev_src, cleanup: prev_cleanup });
        proof {
            assert(final(self).frames@.drop_last() =~= old(self).frames@);
            assert(frames_cleanup_sum(self.frames@) == frames_cleanup_sum(old(self).frames@)
                + old(self).cleanup@.len());
        }
    }
}

} // verus!

verus! {

/// Operand expressions joined by a separator.
pub open spec fn spec_join(ops: Seq<String>, sep: Seq<char>) -> Seq<char>
    decreases ops.len(),
{
    if ops.len() == 0 {
        Seq::<char>::empty()
    } else if ops.len() == 1 {
        ops[0]@
    } else {
        spec_join(ops.drop_last(), sep) + sep + ops.last()@
    }
}

/// Joins operand expressions with a separator.
pub fn join(ops: &Vec<String>, sep: &str) -> (r: String)
    ensures
        r@ == spec_join(ops@, sep@),
{
    let mut out: Src = Src::new();
    let mut i: usize = 0;
    while i < ops.len()
        invariant
            i <= ops@.len(),
            out@ == spec_join(ops@.take(i as int), sep@),
        decreases ops@.len() - i,
    {
        if i > 0 {
            out.push(sep);
        }
        out.push_string(&ops[i]);
        proof {
            let pre = ops@.take(i as int);
            let now = ops@.take(i + 1 as int);
            assert(now.drop_last() =~= pre);
            assert(now.last() == ops@[i as int]);
            if i == 0 {
                assert(out@ =~= spec_join(now, sep@));
            } else {
                assert(out@ =~= spec_join(now, sep@));
            }
        }
        i = i + 1;
    }
    proof {
        assert(ops@.take(ops@.len() as int) =~= ops@);
    }
    out.into_string()
}

/// A name built from a prefix and a decimal index.
pub fn dec_name(prefix: &str, n: usize) -> (r: String)
    ensures
        r@ == prefix@ + dec_str(n as nat),
{
    let mut out: Src = Src::new();
    out.push(prefix);
    out.push_dec(n as u64);
    out.into_string()
}

/// The expression a finished block evaluates to.
pub open spec fn spec_block_expr(ops: Seq<String>) -> Seq<char> {
    if ops.len() == 0 {
        "()"@
    } else if ops.len() == 1 {
        ops[0]@
    } else {
        "("@ + spec_join(ops, ", "@) + ")"@
    }
}

/// The full text of a finished block with body `body`.
pub open spec fn spec_block_text(body: Seq<char>, ops: Seq<String>) -> Seq<char> {
    if body.len() == 0 {
        spec_block_expr(ops)
    } else if ops.len() == 0 {
        "{\n"@ + body + "\n}"@
    } else {
        "{\n"@ + body + "\n"@ + spec_block_expr(ops) + "\n}"@
    }
}

/// The entries appended to the runtime cleanup list, rendered as tuples.
pub open spec fn spec_cleanup_pairs(cl: Seq<(String, String)>) -> Seq<char>
    decreases cl.len(),
{
    if cl.len() == 0 {
        Seq::<char>::empty()
    } else {
        spec_cleanup_pairs(cl.drop_last()) + "("@ + cl.last().0@ + ", "@ + cl.last().1@ + "),"@
    }
}

/// The statement deferring pending obligations to the runtime list.
pub open spec fn spec_cleanup_extend(cl: Seq<(String, String)>) -> Seq<char> {
    if cl.len() == 0 {
        Seq::<char>::empty()
    } else {
        "cleanup_list.extend_from_slice(&["@ + spec_cleanup_pairs(cl) + "]);\n"@
    }
}

/// One guarded deallocation statement per recorded obligation.
pub open spec fn spec_dealloc_stmts(cl: Seq<(String, String)>) -> Seq<char>
    decreases cl.len(),
{
    if cl.len() == 0 {
        Seq::<char>::empty()
    } else {
        spec_dealloc_stmts(cl.drop_last()) + "if "@ + cl.last().1@ + ".size() != 0 {\nalloc::dealloc("@
            + cl.last().0@ + ", "@ + cl.last().1@ + ");\n}\n"@
    }
}

/// The loop draining the runtime cleanup list.
pub open spec fn spec_cleanup_loop() -> Seq<char> {
    "for (ptr, layout) in cleanup_list {\nif layout.size() != 0 {\nalloc::dealloc(ptr, layout);\n}\n}\n"@
}

impl FunctionBindgen {
    /// Closes the innermost block: pending obligations are deferred to the
    /// runtime cleanup list (they discharge on paths that execute the
    /// block), the enclosing buffer and obligations are restored, and the
    /// block's text is published.
    pub fn finish_block(&mut self, operands: Vec<String>) -> (blk: Ghost<Seq<char>>)
        requires
            old(self).frames@.len() > 0,
        ensures
            *final(self) == (FunctionBindgen {
                src: final(self).src,
                blocks: final(self).blocks,
                frames: final(self).frames,
                cleanup: final(self).cleanup,
                needs_cleanup_list: final(self).needs_cleanup_list,
                deferred: final(self).deferred,
                ..*old(self)
            }),
            final(self).frames@ == old(self).frames@.drop_last(),
            final(self).src@ == old(self).frames@.last().src@,
            final(self).cleanup@ == old(self).frames@.last().cleanup@,
            final(self).deferred@ == old(self).deferred@ + old(self).cleanup@.len(),
            final(self).needs_cleanup_list == (old(self).needs_cleanup_list || old(
                self,
            ).cleanup@.len() > 0),
            final(self).blocks@ == old(self).blocks@.push(final(self).blocks@.last()),
            final(self).blocks@.last()@ == blk@,
            blk@ == spec_block_text(
                old(self).src@ + spec_cleanup_extend(old(self).cleanup@),
                operands@,
            ),
            old(self).accounted() ==> final(self).accounted(),
    {
        if self.cleanup.len() > 0 {
            self.needs_cleanup_list = true;
            self.src.push("cleanup_list.extend_from_slice(&[");
            let mut i: usize = 0;
            while i < self.cleanup.len()
                invariant
                    i <= self.cleanup@.len(),
                    self.src@ == old(self).src@ + "cleanup_list.extend_from_slice(&["@
                        + spec_cleanup_pairs(self.cleanup@.take(i as int)),
                    *self == (FunctionBindgen {
                        src: self.src,
                        needs_cleanup_list: true,
                        ..*old(self)
                    }),
                decreases self.cleanup@.len() - i,
            {
                let p: String = self.cleanup[i].0.clone();
                let l: String = self.cleanup[i].1.clone();
                self.src.push("(");
                self.src.push_string(&p);
                self.src.push(", ");
                self.src.push_string(&l);
                self.src.push("),");
                proof {
                    let pre = self.cleanup@.take(i as int);
                    let now = self.cleanup@.take(i + 1 as int);
                    assert(now.drop_last() =~= pre);
                    assert(now.last() == self.cleanup@[i as int]);
                    assert(self.src@ =~= old(self).src@ + "cleanup_list.extend_from_slice(&["@
                        + spec_cleanup_pairs(now));
                }
                i = i + 1;
            }
            self.src.push("]);\n");
            proof {
                assert(self.cleanup@.take(self.cleanup@.len() as int) =~= self.cleanup@);
                assert(self.src@ =~= old(self).src@ + spec_cleanup_extend(self.cleanup@));
            }
        }
        let ghost deferred_now = old(self).cleanup@.len();
        proof {
            self.deferred@ = self.deferred@ + deferred_now;
        }
        let frame: BlockFrame = match self.frames.pop() {
            Some(f) => f,
            None => {
                proof {
                    assert(false);
                }
                BlockFrame { src: String::new(), cleanup: Vec::new() }
            },
        };
        let body: String = self.src.take();
        self.src = Src { buf: frame.src };
        self.cleanup = frame.cleanup;
        let expr_src: String = if operands.len() == 0 {
            crate::text::s("()")
        } else if operands.len() == 1 {
            operands[0].clone()
        } else {
            let mut b: Src = Src::new();
            b.push("(");
            let j: String = join(&operands, ", ");
            b.push_string(&j);
            b.push(")");
            b.into_string()
        };
        let blk: String = if body.as_str().is_empty() {
            expr_src
        } else if operands.len() == 0 {
            let mut b: Src = Src::new();
            b.push("{\n");
            b.push_string(&body);
            b.push("\n}");
            b.into_string()
        } else {
            let mut b: Src = Src::new();
            b.push("{\n");
            b.push_string(&body);
            b.push("\n");
            b.push_string(&expr_src);
            b.push("\n}");
            b.into_string()
        };
        let ghost blktext = blk@;
        self.blocks.push(blk);
        proof {
            assert(final(self).blocks@.drop_last() =~= old(self).blocks@);
            assert(blktext == spec_block_text(
                old(self).src@ + spec_cleanup_extend(old(self).cleanup@),
                operands@,
            ));
        }
        Ghost(blktext)
    }

    /// Discharges every pending obligation: one guarded deallocation per
    /// recorded allocation, then the runtime cleanup list drain when one is
    /// in play.
    pub fn emit_cleanup(&mut self)
        ensures
            *final(self) == (FunctionBindgen {
                src: final(self).src,
                cleanup: final(self).cleanup,
                discharged: final(self).discharged,
                ..*old(self)
            }),
            final(self).src@ == old(self).src@ + spec_dealloc_stmts(old(self).cleanup@) + (
            if old(self).needs_cleanup_list {
                spec_cleanup_loop()
            } else {
                Seq::<char>::empty()
            }),
            final(self).cleanup@.len() == 0,
            final(self).discharged@ == old(self).discharged@ + old(self).cleanup@.len(),
            old(self).accounted() ==> final(self).accounted(),
    {
        let mut i: usize = 0;
        while i < self.cleanup.len()
            invariant
                i <= self.cleanup@.len(),
                self.src@ == old(self).src@ + spec_dealloc_stmts(self.cleanup@.take(i as int)),
                *self == (FunctionBindgen { src: self.src, ..*old(self) }),
            decreases self.cleanup@.len() - i,
        {
            let p: String = self.cleanup[i].0.clone();
            let l: String = self.cleanup[i].1.clone();
            self.src.push("if ");
            self.src.push_string(&l);
            self.src.push(".size() != 0 {\nalloc::dealloc(");
            self.src.push_string(&p);
            self.src.push(", ");
            self.src.push_string(&l);
            self.src.push(");\n}\n");
            proof {
                let pre = self.cleanup@.take(i as int);
                let now = self.cleanup@.take(i + 1 as int);
                assert(now.drop_last() =~= pre);
                assert(now.last() == self.cleanup@[i as int]);
                assert(self.src@ =~= old(self).src@ + spec_dealloc_stmts(now));
            }
            i = i + 1;
        }
        proof {
            assert(self.cleanup@.take(self.cleanup@.len() as int) =~= self.cleanup@);
        }
        if self.needs_cleanup_list {
            self.src.push(
                "for (ptr, layout) in cleanup_list {\nif layout.size() != 0 {\nalloc::dealloc(ptr, layout);\n}\n}\n",
            );
        }
        proof {
            self.discharged@ = self.discharged@ + self.cleanup@.len();
        }
        self.cleanup.clear();
    }

    /// Reserves return-pointer space and pushes the area's address: the
    /// import side accumulates a per-call area on the stack, the export
    /// side a run-scoped static area shared by the whole module; both keep
    /// the pointwise maximum of size and alignment.
    pub fn return_pointer(&mut self, size: usize, align: usize) -> (r: String)
        requires
            old(self).tmp < 0x1000_0000,
        ensures
            *final(self) == (FunctionBindgen {
                src: final(self).src,
                tmp: (old(self).tmp + 1) as usize,
                import_rpa_size: final(self).import_rpa_size,
                import_rpa_align: final(self).import_rpa_align,
                export_rpa_size: final(self).export_rpa_size,
                export_rpa_align: final(self).export_rpa_align,
                ..*old(self)
            }),
            r@ == "ptr"@ + dec_str(old(self).tmp as nat),
            old(self).in_import ==> {
                &&& final(self).import_rpa_size == (if size > old(self).import_rpa_size {
                    size as int
                } else {
                    old(self).import_rpa_size as int
                })
                &&& final(self).import_rpa_align == (if align > old(self).import_rpa_align {
                    align as int
                } else {
                    old(self).import_rpa_align as int
                })
                &&& final(self).export_rpa_size == old(self).export_rpa_size
                &&& final(self).export_rpa_align == old(self).export_rpa_align
                &&& final(self).src@ == old(self).src@ + "let "@ + r@
                    + " = ret_area.as_mut_ptr() as i32;\n"@
            },
            !old(self).in_import ==> {
                &&& final(self).export_rpa_size == (if size > old(self).export_rpa_size {
                    size as int
                } else {
                    old(self).export_rpa_size as int
                })
                &&& final(self).export_rpa_align == (if align > old(self).export_rpa_align {
                    align as int
                } else {
                    old(self).export_rpa_align as int
                })
                &&& final(self).import_rpa_size == old(self).import_rpa_size
                &&& final(self).import_rpa_align == old(self).import_rpa_align
                &&& final(self).src@ == old(self).src@ + "let "@ + r@
                    + " = _RET_AREA.0.as_mut_ptr() as i32;\n"@
            },
            old(self).accounted() ==> final(self).accounted(),
    {
        let t: usize = self.take_tmp();
        let name: String = dec_name("ptr", t);
        if self.in_import {
            if size > self.import_rpa_size {
                self.import_rpa_size = size;
            }
            if align > self.import_rpa_align {
                self.import_rpa_align = align;
            }
            self.src.push("let ");
            self.src.push_string(&name);
            self.src.push(" = ret_area.as_mut_ptr() as i32;\n");
        } else {
            if size > self.export_rpa_size {
                self.export_rpa_size = size;
            }
            if align > self.export_rpa_align {
                self.export_rpa_align = align;
            }
            self.src.push("let ");
            self.src.push_string(&name);
            self.src.push(" = _RET_AREA.0.as_mut_ptr() as i32;\n");
        }
        name
    }
}

} // verus!

verus! {

/// The zero literal of a core value type.
pub open spec fn spec_zero_text(t: WasmType) -> Seq<char> {
    match t {
        WasmType::I32 => "0i32"@,
        WasmType::I64 => "0i64"@,
        WasmType::F32 => "0.0f32"@,
        WasmType::F64 => "0.0f64"@,
    }
}

/// The Rust expression reinterpreting `op` under a slot bitcast.
pub open spec fn spec_bitcast_text(c: Bitcast, op: Seq<char>) -> Seq<char> {
    match c {
        Bitcast::NoCast => op,
        Bitcast::F32ToI32 => "("@ + op + ").to_bits() as i32"@,
        Bitcast::F64ToI64 => "("@ + op + ").to_bits() as i64"@,
        Bitcast::I32ToF32 => "f32::from_bits("@ + op + " as u32)"@,
        Bitcast::I64ToF64 => "f64::from_bits("@ + op + " as u64)"@,
        Bitcast::F32ToF64 => "f64::from("@ + op + ")"@,
        Bitcast::F64ToF32 => "("@ + op + ") as f32"@,
        Bitcast::I32ToI64 => "i64::from("@ + op + ")"@,
        Bitcast::I64ToI32 => "("@ + op + ") as i32"@,
        Bitcast::F32ToI64 => "i64::from(("@ + op + ").to_bits())"@,
        Bitcast::I64ToF32 => "f32::from_bits("@ + op + " as u32)"@,
    }
}

/// The parameter list of a declared external symbol.
pub open spec fn spec_params_decl(params: Seq<WasmType>, k: int) -> Seq<char>
    decreases k,
{
    if k <= 0 {
        Seq::<char>::empty()
    } else {
        spec_params_decl(params, k - 1) + "_: "@ + spec_wasm_type_name(params[k - 1]) + ", "@
    }
}

/// The tail of a flags-lift expression: one word folded in per operand.
pub open spec fn spec_flags_lift_tail(
    path: Seq<char>,
    repr: Seq<char>,
    ops: Seq<String>,
    k: int,
) -> Seq<char>
    decreases k,
{
    if k <= 0 {
        Seq::<char>::empty()
    } else {
        spec_flags_lift_tail(path, repr, ops, k - 1) + " | "@ + path + "::from_bits_retain((("@
            + ops[k - 1]@ + " as "@ + repr + ") << "@ + dec_str((32 * (k - 1)) as nat)
            + ") as _)"@
    }
}

/// The field patterns of a record destructuring.
pub open spec fn spec_record_pat(fields: Seq<String>, t: nat, k: int) -> Seq<char>
    decreases k,
{
    if k <= 0 {
        Seq::<char>::empty()
    } else {
        spec_record_pat(fields, t, k - 1) + fields[k - 1]@ + ": "@ + fields[k - 1]@ + dec_str(t)
            + ", "@
    }
}

/// The field initializers of a record construction.
pub open spec fn spec_record_init(fields: Seq<String>, ops: Seq<String>, k: int) -> Seq<char>
    decreases k,
{
    if k <= 0 {
        Seq::<char>::empty()
    } else {
        spec_record_init(fields, ops, k - 1) + fields[k - 1]@ + ": "@ + ops[k - 1]@ + ", "@
    }
}

/// The match arms dispatching a variant lowering over its cases.
pub open spec fn spec_variant_lower_arms(
    cases: Seq<(String, bool)>,
    path: Seq<char>,
    blks: Seq<String>,
    k: int,
) -> Seq<char>
    decreases k,
{
    if k <= 0 {
        Seq::<char>::empty()
    } else {
        spec_variant_lower_arms(cases, path, blks, k - 1) + path + "::"@ + cases[k - 1].0@ + (
        if cases[k - 1].1 {
            "(e) => "@ + blks[k - 1]@ + ",\n"@
        } else {
            " => {\n"@ + blks[k - 1]@ + "\n}\n"@
        })
    }
}

/// The match arms rebuilding a variant from its discriminant. In unchecked
/// mode the last case's pattern is the catch-all.
pub open spec fn spec_variant_lift_arms(
    cases: Seq<(String, bool)>,
    path: Seq<char>,
    blks: Seq<String>,
    k: int,
    checked: bool,
) -> Seq<char>
    decreases k,
{
    if k <= 0 {
        Seq::<char>::empty()
    } else {
        spec_variant_lift_arms(cases, path, blks, k - 1, checked) + (
        if !checked && k == cases.len() {
            "_"@
        } else {
            dec_str((k - 1) as nat)
        }) + " => "@ + path + "::"@ + cases[k - 1].0@ + (
        if cases[k - 1].1 {
            "("@ + blks[k - 1]@ + ")"@
        } else {
            Seq::<char>::empty()
        }) + ",\n"@
    }
}

/// The match arms dispatching a union lowering over its cases.
pub open spec fn spec_union_lower_arms(
    cases: Seq<String>,
    path: Seq<char>,
    blks: Seq<String>,
    k: int,
) -> Seq<char>
    decreases k,
{
    if k <= 0 {
        Seq::<char>::empty()
    } else {
        spec_union_lower_arms(cases, path, blks, k - 1) + path + "::"@ + cases[k - 1]@
            + "(e) => "@ + blks[k - 1]@ + ",\n"@
    }
}

/// The match arms rebuilding a union from its discriminant.
pub open spec fn spec_union_lift_arms(
    cases: Seq<String>,
    path: Seq<char>,
    blks: Seq<String>,
    k: int,
    checked: bool,
) -> Seq<char>
    decreases k,
{
    if k <= 0 {
        Seq::<char>::empty()
    } else {
        spec_union_lift_arms(cases, path, blks, k - 1, checked) + (
        if !checked && k == cases.len() {
            "_"@
        } else {
            dec_str((k - 1) as nat)
        }) + " => "@ + path + "::"@ + cases[k - 1]@ + "("@ + blks[k - 1]@ + "),\n"@
    }
}

/// The match arms lowering an enum to its zero-based case index.
pub open spec fn spec_enum_lower_arms(cases: Seq<String>, path: Seq<char>, k: int) -> Seq<char>
    decreases k,
{
    if k <= 0 {
        Seq::<char>::empty()
    } else {
        spec_enum_lower_arms(cases, path, k - 1) + path + "::"@ + cases[k - 1]@ + " => "@
            + dec_str((k - 1) as nat) + ",\n"@
    }
}

/// The match arms rebuilding an enum from its case index.
pub open spec fn spec_enum_lift_arms(cases: Seq<String>, path: Seq<char>, k: int) -> Seq<char>
    decreases k,
{
    if k <= 0 {
        Seq::<char>::empty()
    } else {
        spec_enum_lift_arms(cases, path, k - 1) + dec_str((k - 1) as nat) + " => "@ + path
            + "::"@ + cases[k - 1]@ + ",\n"@
    }
}

/// The match arms of a variant deallocation dispatch; the final case takes
/// the catch-all pattern.
pub open spec fn spec_gdv_arms(blks: Seq<String>, k: int) -> Seq<char>
    decreases k,
{
    if k <= 0 {
        Seq::<char>::empty()
    } else {
        spec_gdv_arms(blks, k - 1) + (
        if k == blks.len() {
            "_"@
        } else {
            dec_str((k - 1) as nat)
        }) + " => "@ + blks[k - 1]@ + ",\n"@
    }
}

/// The callee expression of a lifted call into the local implementation.
pub open spec fn spec_call_target(kind: CallKind, trait_name: Seq<char>, fname: Seq<char>) -> Seq<
    char,
> {
    match kind {
        CallKind::Freestanding => "<"@ + trait_name + "Impl as "@ + trait_name + ">::"@ + fname,
        CallKind::Method(r) => "<Rep"@ + r@ + " as "@ + r@ + ">::"@ + fname,
        CallKind::Static(r) => "<Rep"@ + r@ + " as "@ + r@ + ">::"@ + fname,
        CallKind::Constructor(r) => "Own"@ + r@ + "::new(<Rep"@ + r@ + " as "@ + r@ + ">::new"@,
    }
}

/// The binding prefix introduced for an instruction's results.
pub open spec fn spec_let_prefix(amt: nat, rs: Seq<String>) -> Seq<char> {
    if amt == 0 {
        Seq::<char>::empty()
    } else if amt == 1 {
        "let "@ + rs[0]@ + " = "@
    } else {
        "let ("@ + spec_join(rs, ", "@) + ") = "@
    }
}

/// A name of the shape `prefix{t}_{i}`.
pub fn dec_name2(prefix: &str, t: usize, i: usize) -> (r: String)
    ensures
        r@ == prefix@ + dec_str(t as nat) + "_"@ + dec_str(i as nat),
{
    let mut out: Src = Src::new();
    out.push(prefix);
    out.push_dec(t as u64);
    out.push("_");
    out.push_dec(i as u64);
    out.into_string()
}

impl FunctionBindgen {
    /// Introduces bindings for an instruction's `amt` results and returns
    /// their names.
    fn let_results(&mut self, amt: usize) -> (rs: Vec<String>)
        requires
            old(self).tmp < 0x1000_0000,
        ensures
            *final(self) == (FunctionBindgen {
                src: final(self).src,
                tmp: final(self).tmp,
                ..*old(self)
            }),
            rs@.len() == amt,
            final(self).src@ == old(self).src@ + spec_let_prefix(amt as nat, rs@),
            amt == 0 ==> *final(self) == *old(self),
            amt > 0 ==> final(self).tmp == old(self).tmp + 1,
            amt == 1 ==> rs@[0]@ == "result"@ + dec_str(old(self).tmp as nat),
            amt > 1 ==> forall|i: int|
                0 <= i < amt ==> (#[trigger] rs@[i])@ == "result"@ + dec_str(old(self).tmp as nat)
                    + "_"@ + dec_str(i as nat),
            old(self).accounted() ==> final(self).accounted(),
    {
        if amt == 0 {
            Vec::new()
        } else if amt == 1 {
            let t: usize = self.take_tmp();
            let name: String = dec_name("result", t);
            self.src.push("let ");
            self.src.push_string(&name);
            self.src.push(" = ");
            let mut rs: Vec<String> = Vec::new();
            rs.push(name);
            rs
        } else {
            let t: usize = self.take_tmp();
            let mut rs: Vec<String> = Vec::new();
            let mut i: usize = 0;
            while i < amt
                invariant
                    i <= amt,
                    rs@.len() == i,
                    forall|q: int|
                        0 <= q < i ==> (#[trigger] rs@[q])@ == "result"@ + dec_str(t as nat) + "_"@
                            + dec_str(q as nat),
                decreases amt - i,
            {
                rs.push(dec_name2("result", t, i));
                i = i + 1;
            }
            self.src.push("let (");
            let j: String = join(&rs, ", ");
            self.src.push_string(&j);
            self.src.push(") = ");
            rs
        }
    }

    /// Declares the external symbol `name` inline and returns the local
    /// name it is callable under.
    fn declare_import(
        &mut self,
        name: &String,
        params: &Vec<WasmType>,
        results: &Vec<WasmType>,
    ) -> (r: String)
        requires
            old(self).wasm_import_module is Some,
            results@.len() <= 1,
        ensures
            *final(self) == (FunctionBindgen { src: final(self).src, ..*old(self) }),
            r@ == "wit_import"@,
            final(self).src@ == old(self).src@ + spec_declare_import(
                old(self).wasm_import_module->Some_0@,
                name@,
                params@,
                results@,
            ),
            old(self).accounted() ==> final(self).accounted(),
    {
        let module: String = match &self.wasm_import_module {
            Some(m) => m.clone(),
            None => String::new(),
        };
        self.src.push("#[link(wasm_import_module = \"");
        self.src.push_string(&module);
        self.src.push("\")]\nextern \"C\" {\n#[cfg_attr(target_arch = \"wasm32\", link_name = \"");
        self.src.push_string(name);
        self.src.push("\")]\n#[cfg_attr(not(target_arch = \"wasm32\"), link_name = \"");
        self.src.push_string(&module);
        self.src.push("_");
        self.src.push_string(name);
        self.src.push("\")]\nfn wit_import(");
        let ghost base = self.src@;
        let mut i: usize = 0;
        while i < params.len()
            invariant
                i <= params@.len(),
                self.src@ == base + spec_params_decl(params@, i as int),
                *self == (FunctionBindgen { src: self.src, ..*old(self) }),
            decreases params@.len() - i,
        {
            self.src.push("_: ");
            self.src.push(wasm_type_name(params[i]));
            self.src.push(", ");
            proof {
                assert(self.src@ =~= base + spec_params_decl(params@, i + 1 as int));
            }
            i = i + 1;
        }
        self.src.push(")");
        if results.len() == 1 {
            self.src.push(" -> ");
            self.src.push(wasm_type_name(results[0]));
        }
        self.src.push(";\n}\n");
        proof {
            assert(final(self).src@ =~= old(self).src@ + spec_declare_import(
                old(self).wasm_import_module->Some_0@,
                name@,
                params@,
                results@,
            ));
        }
        crate::text::s("wit_import")
    }
}

/// The inline declaration of an external symbol.
pub open spec fn spec_declare_import(
    module: Seq<char>,
    name: Seq<char>,
    params: Seq<WasmType>,
    results: Seq<WasmType>,
) -> Seq<char> {
    "#[link(wasm_import_module = \""@ + module
        + "\")]\nextern \"C\" {\n#[cfg_attr(target_arch = \"wasm32\", link_name = \""@ + name
        + "\")]\n#[cfg_attr(not(target_arch = \"wasm32\"), link_name = \""@ + module + "_"@ + name
        + "\")]\nfn wit_import("@ + spec_params_decl(params, params.len() as int) + ")"@ + (
    if results.len() == 1 {
        " -> "@ + spec_wasm_type_name(results[0])
    } else {
        Seq::<char>::empty()
    }) + ";\n}\n"@
}

} // verus!

verus! {

/// The cast target of a narrowing coercion.
pub open spec fn spec_as_target(inst: Instruction) -> Seq<char> {
    match inst {
        Instruction::S8FromI32 => "i8"@,
        Instruction::U8FromI32 => "u8"@,
        Instruction::S16FromI32 => "i16"@,
        Instruction::U16FromI32 => "u16"@,
        Instruction::U32FromI32 => "u32"@,
        _ => "u64"@,
    }
}

/// Instruction-specific preconditions on the interpreter state.
pub open spec fn inst_ok(pre: &FunctionBindgen, inst: &Instruction) -> bool {
    match *inst {
        Instruction::GetArg { nth } => nth < pre.params@.len(),
        Instruction::FlagsLower { words } => words <= 0x0100_0000,
        Instruction::FlagsLift { words, .. } => words <= 0x0100_0000,
        Instruction::CallWasm { results, .. } => pre.wasm_import_module is Some && results@.len()
            <= 1,
        Instruction::CallInterface { kind, .. } => match kind {
            CallKind::Freestanding => pre.trait_name is Some,
            _ => true,
        },
        Instruction::FinishBlock { .. } => pre.frames@.len() > 0,
        _ => true,
    }
}

impl FunctionBindgen {
    /// Executes one instruction: pops its declared operands, emits source
    /// text, and pushes its declared results. Checked/unchecked validation
    /// follows the run-wide mode; handle representation follows the
    /// resource registry.
    #[verifier::rlimit(100)]
    pub fn emit(&mut self, reg: &ResourceRegistry, inst: &Instruction, operands: Vec<String>) -> (rs: Vec<String>)
        requires
            old(self).tmp < 0x1000_0000,
            operands@.len() == inst.num_operands(),
            old(self).blocks@.len() >= inst.blocks_needed(),
            inst_ok(old(self), inst),
            old(self).accounted(),
        ensures
            rs@.len() == inst.num_results(),
            final(self).accounted(),
            final(self).tmp <= old(self).tmp + 1,
            emit_post(*old(self), *final(self), reg.entries@, *inst, operands@, rs@),
    {
        let ghost po = *old(self);
        let ghost ops = operands@;
        match inst {
            Instruction::GetArg { nth } => {
                let mut rs: Vec<String> = Vec::new();
                rs.push(self.params[*nth].clone());
                rs
            },
            Instruction::I32Const { val } => {
                let mut b: Src = Src::new();
                b.push_dec_i32(*val);
                b.push("i32");
                let mut rs: Vec<String> = Vec::new();
                rs.push(b.into_string());
                rs
            },
            Instruction::ConstZero { tys } => {
                let mut rs: Vec<String> = Vec::new();
                let mut i: usize = 0;
                while i < tys.len()
                    invariant
                        i <= tys@.len(),
                        rs@.len() == i,
                        forall|q: int|
                            0 <= q < i ==> (#[trigger] rs@[q])@ == spec_zero_text(tys@[q]),
                    decreases tys@.len() - i,
                {
                    let z: &'static str = match tys[i] {
                        WasmType::I32 => "0i32",
                        WasmType::I64 => "0i64",
                        WasmType::F32 => "0.0f32",
                        WasmType::F64 => "0.0f64",
                    };
                    rs.push(crate::text::s(z));
                    i = i + 1;
                }
                rs
            },
            Instruction::I64FromU64 | Instruction::I64FromS64 => {
                let mut b: Src = Src::new();
                b.push("wit_bindgen::rt::as_i64(");
                b.push_string(&operands[0]);
                b.push(")");
                let mut rs: Vec<String> = Vec::new();
                rs.push(b.into_string());
                rs
            },
            Instruction::I32FromChar
            | Instruction::I32FromU8
            | Instruction::I32FromS8
            | Instruction::I32FromU16
            | Instruction::I32FromS16
            | Instruction::I32FromU32
            | Instruction::I32FromS32 => {
                let mut b: Src = Src::new();
                b.push("wit_bindgen::rt::as_i32(");
                b.push_string(&operands[0]);
                b.push(")");
                let mut rs: Vec<String> = Vec::new();
                rs.push(b.into_string());
                rs
            },
            Instruction::F32FromFloat32 => {
                let mut b: Src = Src::new();
                b.push("wit_bindgen::rt::as_f32(");
                b.push_string(&operands[0]);
                b.push(")");
                let mut rs: Vec<String> = Vec::new();
                rs.push(b.into_string());
                rs
            },
            Instruction::F64FromFloat64 => {
                let mut b: Src = Src::new();
                b.push("wit_bindgen::rt::as_f64(");
                b.push_string(&operands[0]);
                b.push(")");
                let mut rs: Vec<String> = Vec::new();
                rs.push(b.into_string());
                rs
            },
            Instruction::Float32FromF32
            | Instruction::Float64FromF64
            | Instruction::S32FromI32
            | Instruction::S64FromI64 => {
                let mut rs: Vec<String> = Vec::new();
                rs.push(operands[0].clone());
                rs
            },
            Instruction::S8FromI32
            | Instruction::U8FromI32
            | Instruction::S16FromI32
            | Instruction::U16FromI32
            | Instruction::U32FromI32
            | Instruction::U64FromI64 => {
                let target: &'static str = match inst {
                    Instruction::S8FromI32 => "i8",
                    Instruction::U8FromI32 => "u8",
                    Instruction::S16FromI32 => "i16",
                    Instruction::U16FromI32 => "u16",
                    Instruction::U32FromI32 => "u32",
                    _ => "u64",
                };
                let mut s0: String = operands[0].clone();
                s0.append(" as ");
                s0.append(target);
                let mut rs: Vec<String> = Vec::new();
                rs.push(s0);
                rs
            },
            Instruction::CharFromI32 => {
                let mut b: Src = Src::new();
                if self.checked {
                    b.push("::core::char::from_u32(");
                    b.push_string(&operands[0]);
                    b.push(" as u32).unwrap()");
                } else {
                    b.push("::core::char::from_u32_unchecked(");
                    b.push_string(&operands[0]);
                    b.push(" as u32)");
                }
                let mut rs: Vec<String> = Vec::new();
                rs.push(b.into_string());
                rs
            },
            Instruction::Bitcasts { casts } => {
                let mut rs: Vec<String> = Vec::new();
                let mut i: usize = 0;
                while i < casts.len()
                    invariant
                        i <= casts@.len(),
                        casts@.len() == ops.len(),
                        ops == operands@,
                        rs@.len() == i,
                        forall|q: int|
                            0 <= q < i ==> (#[trigger] rs@[q])@ == spec_bitcast_text(
                                casts@[q],
                                ops[q]@,
                            ),
                    decreases casts@.len() - i,
                {
                    let op: &String = &operands[i];
                    let mut b: Src = Src::new();
                    match casts[i] {
                        Bitcast::NoCast => {
                            b.push_string(op);
                        },
                        Bitcast::F32ToI32 => {
                            b.push("(");
                            b.push_string(op);
                            b.push(").to_bits() as i32");
                        },
                        Bitcast::F64ToI64 => {
                            b.push("(");
                            b.push_string(op);
                            b.push(").to_bits() as i64");
                        },
                        Bitcast::I32ToF32 => {
                            b.push("f32::from_bits(");
                            b.push_string(op);
                            b.push(" as u32)");
                        },
                        Bitcast::I64ToF64 => {
                            b.push("f64::from_bits(");
                            b.push_string(op);
                            b.push(" as u64)");
                        },
                        Bitcast::F32ToF64 => {
                            b.push("f64::from(");
                            b.push_string(op);
                            b.push(")");
                        },
                        Bitcast::F64ToF32 => {
                            b.push("(");
                            b.push_string(op);
                            b.push(") as f32");
                        },
                        Bitcast::I32ToI64 => {
                            b.push("i64::from(");
                            b.push_string(op);
                            b.push(")");
                        },
                        Bitcast::I64ToI32 => {
                            b.push("(");
                            b.push_string(op);
                            b.push(") as i32");
                        },
                        Bitcast::F32ToI64 => {
                            b.push("i64::from((");
                            b.push_string(op);
                            b.push(").to_bits())");
                        },
                        Bitcast::I64ToF32 => {
                            b.push("f32::from_bits(");
                            b.push_string(op);
                            b.push(" as u32)");
                        },
                    }
                    rs.push(b.into_string());
                    i = i + 1;
                }
                rs
            },
            Instruction::I32FromBool => {
                let mut b: Src = Src::new();
                b.push("match ");
                b.push_string(&operands[0]);
                b.push(" { true => 1, false => 0 }");
                let mut rs: Vec<String> = Vec::new();
                rs.push(b.into_string());
                rs
            },
            Instruction::BoolFromI32 => {
                let mut b: Src = Src::new();
                if self.checked {
                    b.push("match ");
                    b.push_string(&operands[0]);
                    b.push(" { 0 => false, 1 => true, _ => panic!(\"invalid bool discriminant\") }");
                } else {
                    b.push("::core::mem::transmute::<u8, bool>(");
                    b.push_string(&operands[0]);
                    b.push(" as u8)");
                }
                let mut rs: Vec<String> = Vec::new();
                rs.push(b.into_string());
                rs
            },
            Instruction::FlagsLower { words } => {
                let t: usize = self.take_tmp();
                let fname: String = dec_name("flags", t);
                self.src.push("let ");
                self.src.push_string(&fname);
                self.src.push(" = ");
                self.src.push_string(&operands[0]);
                self.src.push(";\n");
                let mut rs: Vec<String> = Vec::new();
                let mut i: usize = 0;
                while i < *words
                    invariant
                        i <= *words,
                        *words <= 0x0100_0000,
                        fname@ == flags_name(po.tmp as nat),
                        rs@.len() == i,
                        forall|q: int|
                            0 <= q < i ==> (#[trigger] rs@[q])@ == "("@ + flags_name(po.tmp as nat)
                                + ".bits() >> "@ + dec_str((32 * q) as nat) + ") as i32"@,
                    decreases *words - i,
                {
                    let mut b: Src = Src::new();
                    b.push("(");
                    b.push_string(&fname);
                    b.push(".bits() >> ");
                    b.push_dec((32 * i) as u64);
                    b.push(") as i32");
                    rs.push(b.into_string());
                    i = i + 1;
                }
                rs
            },
            Instruction::FlagsLift { words, path, repr } => {
                let mut b: Src = Src::new();
                b.push_string(path);
                b.push("::empty()");
                let mut i: usize = 0;
                while i < *words
                    invariant
                        i <= *words,
                        *words <= 0x0100_0000,
                        *words == ops.len(),
                        operands@ == ops,
                        b@ == path@ + "::empty()"@ + spec_flags_lift_tail(
                            path@,
                            repr@,
                            ops,
                            i as int,
                        ),
                    decreases *words - i,
                {
                    b.push(" | ");
                    b.push_string(path);
                    b.push("::from_bits_retain(((");
                    b.push_string(&operands[i]);
                    b.push(" as ");
                    b.push_string(repr);
                    b.push(") << ");
                    b.push_dec((32 * i) as u64);
                    b.push(") as _)");
                    proof {
                        assert(b@ =~= path@ + "::empty()"@ + spec_flags_lift_tail(
                            path@,
                            repr@,
                            ops,
                            i + 1 as int,
                        ));
                    }
                    i = i + 1;
                }
                let mut rs: Vec<String> = Vec::new();
                rs.push(b.into_string());
                rs
            },
            Instruction::HandleLowerOwn => {
                let mut b: Src = Src::new();
                b.push("(");
                b.push_string(&operands[0]);
                b.push(").into_handle()");
                let mut rs: Vec<String> = Vec::new();
                rs.push(b.into_string());
                rs
            },
            Instruction::HandleLowerBorrow => {
                let mut b: Src = Src::new();
                b.push("(");
                b.push_string(&operands[0]);
                b.push(").handle");
                let mut rs: Vec<String> = Vec::new();
                rs.push(b.into_string());
                rs
            },
            Instruction::HandleLift { own, resource, path } => {
                let mut b: Src = Src::new();
                if reg.is_exported(*resource) {
                    if *own {
                        b.push("Own");
                        b.push_string(path);
                        b.push("::from_handle(");
                        b.push_string(&operands[0]);
                        b.push(")");
                    } else {
                        b.push("core::mem::transmute::<isize, &Rep");
                        b.push_string(path);
                        b.push(">(");
                        b.push_string(&operands[0]);
                        b.push(".try_into().unwrap())");
                    }
                } else {
                    if *own {
                        b.push_string(path);
                        b.push("::from_handle(");
                        b.push_string(&operands[0]);
                        b.push(", true)");
                    } else {
                        b.push("&");
                        b.push_string(path);
                        b.push("::from_handle(");
                        b.push_string(&operands[0]);
                        b.push(", false)");
                    }
                }
                let mut rs: Vec<String> = Vec::new();
                rs.push(b.into_string());
                rs
            },
            _ => {
                self.emit_rest(reg, inst, operands)
            },
        }
    }
}

} // verus!

verus! {

/// The temporary names the interpreter hands out, by counter value.
pub open spec fn vec_name(t: nat) -> Seq<char> {
    "vec"@ + dec_str(t)
}

pub open spec fn ptr_name(t: nat) -> Seq<char> {
    "ptr"@ + dec_str(t)
}

pub open spec fn len_name(t: nat) -> Seq<char> {
    "len"@ + dec_str(t)
}

pub open spec fn result_name(t: nat) -> Seq<char> {
    "result"@ + dec_str(t)
}

pub open spec fn layout_name(t: nat) -> Seq<char> {
    "layout"@ + dec_str(t)
}

pub open spec fn base_name(t: nat) -> Seq<char> {
    "base"@ + dec_str(t)
}

pub open spec fn flags_name(t: nat) -> Seq<char> {
    "flags"@ + dec_str(t)
}

/// Everything one instruction does to the interpreter state: the text it
/// appends, the results it pushes, the blocks it absorbs, and the
/// bookkeeping it advances. `pre`/`post` are the states around the step.
pub open spec fn emit_post(
    pre: FunctionBindgen,
    post: FunctionBindgen,
    reg: Seq<Option<crate::registry::ResourceInfo>>,
    inst: Instruction,
    ops: Seq<String>,
    rs: Seq<String>,
) -> bool {
    match inst {
        Instruction::GetArg { nth } => {
            &&& post == pre
            &&& rs.len() == 1
            &&& rs[0]@ == pre.params@[nth as int]@
        },
        Instruction::I32Const { val } => {
            &&& post == pre
            &&& rs.len() == 1
            &&& rs[0]@ == crate::text::dec_int(val as int) + "i32"@
        },
        Instruction::ConstZero { tys } => {
            &&& post == pre
            &&& rs.len() == tys@.len()
            &&& forall|q: int| 0 <= q < tys@.len() ==> (#[trigger] rs[q])@ == spec_zero_text(tys@[q])
        },
        Instruction::I64FromU64 | Instruction::I64FromS64 => {
            &&& post == pre
            &&& rs.len() == 1
            &&& rs[0]@ == "wit_bindgen::rt::as_i64("@ + ops[0]@ + ")"@
        },
        Instruction::I32FromChar
        | Instruction::I32FromU8
        | Instruction::I32FromS8
        | Instruction::I32FromU16
        | Instruction::I32FromS16
        | Instruction::I32FromU32
        | Instruction::I32FromS32 => {
            &&& post == pre
            &&& rs.len() == 1
            &&& rs[0]@ == "wit_bindgen::rt::as_i32("@ + ops[0]@ + ")"@
        },
        Instruction::F32FromFloat32 => {
            &&& post == pre
            &&& rs.len() == 1
            &&& rs[0]@ == "wit_bindgen::rt::as_f32("@ + ops[0]@ + ")"@
        },
        Instruction::F64FromFloat64 => {
            &&& post == pre
            &&& rs.len() == 1
            &&& rs[0]@ == "wit_bindgen::rt::as_f64("@ + ops[0]@ + ")"@
        },
        Instruction::Float32FromF32
        | Instruction::Float64FromF64
        | Instruction::S32FromI32
        | Instruction::S64FromI64 => {
            &&& post == pre
            &&& rs.len() == 1
            &&& rs[0] == ops[0]
        },
        Instruction::S8FromI32
        | Instruction::U8FromI32
        | Instruction::S16FromI32
        | Instruction::U16FromI32
        | Instruction::U32FromI32
        | Instruction::U64FromI64 => {
            &&& post == pre
            &&& rs.len() == 1
            &&& rs[0]@ == ops[0]@ + " as "@ + spec_as_target(inst)
        },
        Instruction::CharFromI32 => {
            &&& post == pre
            &&& rs.len() == 1
            &&& rs[0]@ == (if pre.checked {
                "::core::char::from_u32("@ + ops[0]@ + " as u32).unwrap()"@
            } else {
                "::core::char::from_u32_unchecked("@ + ops[0]@ + " as u32)"@
            })
        },
        Instruction::Bitcasts { casts } => {
            &&& post == pre
            &&& rs.len() == casts@.len()
            &&& forall|q: int|
                0 <= q < casts@.len() ==> (#[trigger] rs[q])@ == spec_bitcast_text(
                    casts@[q],
                    ops[q]@,
                )
        },
        Instruction::I32FromBool => {
            &&& post == pre
            &&& rs.len() == 1
            &&& rs[0]@ == "match "@ + ops[0]@ + " { true => 1, false => 0 }"@
        },
        Instruction::BoolFromI32 => {
            &&& post == pre
            &&& rs.len() == 1
            &&& rs[0]@ == (if pre.checked {
                "match "@ + ops[0]@
                    + " { 0 => false, 1 => true, _ => panic!(\"invalid bool discriminant\") }"@
            } else {
                "::core::mem::transmute::<u8, bool>("@ + ops[0]@ + " as u8)"@
            })
        },
        Instruction::FlagsLower { words } => {
            &&& post == (FunctionBindgen { src: post.src, tmp: post.tmp, ..pre })
            &&& post.tmp == pre.tmp + 1
            &&& post.src@ == pre.src@ + "let "@ + flags_name(pre.tmp as nat) + " = "@ + ops[0]@
                + ";\n"@
            &&& rs.len() == words
            &&& forall|q: int|
                0 <= q < words ==> (#[trigger] rs[q])@ == "("@ + flags_name(pre.tmp as nat)
                    + ".bits() >> "@ + dec_str((32 * q) as nat) + ") as i32"@
        },
        Instruction::FlagsLift { words, path, repr } => {
            &&& post == pre
            &&& rs.len() == 1
            &&& rs[0]@ == path@ + "::empty()"@ + spec_flags_lift_tail(
                path@,
                repr@,
                ops,
                words as int,
            )
        },
        Instruction::HandleLowerOwn => {
            &&& post == pre
            &&& rs.len() == 1
            &&& rs[0]@ == "("@ + ops[0]@ + ").into_handle()"@
        },
        Instruction::HandleLowerBorrow => {
            &&& post == pre
            &&& rs.len() == 1
            &&& rs[0]@ == "("@ + ops[0]@ + ").handle"@
        },
        Instruction::HandleLift { own, resource, path } => {
            &&& post == pre
            &&& rs.len() == 1
            &&& rs[0]@ == (if spec_is_exported(reg, resource as int) {
                if own {
                    "Own"@ + path@ + "::from_handle("@ + ops[0]@ + ")"@
                } else {
                    "core::mem::transmute::<isize, &Rep"@ + path@ + ">("@ + ops[0]@
                        + ".try_into().unwrap())"@
                }
            } else {
                if own {
                    path@ + "::from_handle("@ + ops[0]@ + ", true)"@
                } else {
                    "&"@ + path@ + "::from_handle("@ + ops[0]@ + ", false)"@
                }
            })
        },
        Instruction::RecordLower { fields, path } => {
            &&& post == (FunctionBindgen { src: post.src, tmp: post.tmp, ..pre })
            &&& post.tmp == pre.tmp + 1
            &&& post.src@ == pre.src@ + "let "@ + path@ + "{ "@ + spec_record_pat(
                fields@,
                pre.tmp as nat,
                fields@.len() as int,
            ) + "} = "@ + ops[0]@ + ";\n"@
            &&& rs.len() == fields@.len()
            &&& forall|q: int|
                0 <= q < fields@.len() ==> (#[trigger] rs[q])@ == fields@[q]@ + dec_str(
                    pre.tmp as nat,
                )
        },
        Instruction::RecordLift { fields, path } => {
            &&& post == pre
            &&& rs.len() == 1
            &&& rs[0]@ == path@ + "{ "@ + spec_record_init(fields@, ops, fields@.len() as int)
                + "}"@
        },
        Instruction::TupleLower { len } => {
            &&& post == (FunctionBindgen { src: post.src, tmp: post.tmp, ..pre })
            &&& post.tmp == pre.tmp + 1
            &&& rs.len() == len
            &&& forall|q: int|
                0 <= q < len ==> (#[trigger] rs[q])@ == "t"@ + dec_str(pre.tmp as nat) + "_"@
                    + dec_str(q as nat)
            &&& post.src@ == pre.src@ + "let ("@ + spec_join(rs, ", "@) + ") = "@ + ops[0]@
                + ";\n"@
        },
        Instruction::TupleLift { len } => {
            &&& post == pre
            &&& rs.len() == 1
            &&& rs[0]@ == (if len == 1 {
                "("@ + spec_join(ops, ", "@) + ",)"@
            } else {
                "("@ + spec_join(ops, ", "@) + ")"@
            })
        },
        Instruction::VariantPayloadName => {
            &&& post == pre
            &&& rs.len() == 1
            &&& rs[0]@ == "e"@
        },
        Instruction::VariantLower { cases, path, result_len } => {
            let n = cases@.len() as int;
            let blks = pre.blocks@.subrange(pre.blocks@.len() - n, pre.blocks@.len() as int);
            &&& post == (FunctionBindgen {
                src: post.src,
                tmp: post.tmp,
                blocks: post.blocks,
                ..pre
            })
            &&& post.blocks@ == pre.blocks@.take(pre.blocks@.len() - n)
            &&& post.tmp <= pre.tmp + 1
            &&& rs.len() == result_len
            &&& post.src@ == pre.src@ + spec_let_prefix(result_len as nat, rs) + "match "@
                + ops[0]@ + " {\n"@ + spec_variant_lower_arms(cases@, path@, blks, n) + "};\n"@
        },
        Instruction::VariantLift { cases, path } => {
            let n = cases@.len() as int;
            let blks = pre.blocks@.subrange(pre.blocks@.len() - n, pre.blocks@.len() as int);
            &&& post == (FunctionBindgen { blocks: post.blocks, ..pre })
            &&& post.blocks@ == pre.blocks@.take(pre.blocks@.len() - n)
            &&& rs.len() == 1
            &&& rs[0]@ == "match "@ + ops[0]@ + " {\n"@ + spec_variant_lift_arms(
                cases@,
                path@,
                blks,
                n,
                pre.checked,
            ) + (if pre.checked {
                "_ => panic!(\"invalid enum discriminant\"),\n"@
            } else {
                Seq::<char>::empty()
            }) + "}"@
        },
        Instruction::UnionLower { cases, path, result_len } => {
            let n = cases@.len() as int;
            let blks = pre.blocks@.subrange(pre.blocks@.len() - n, pre.blocks@.len() as int);
            &&& post == (FunctionBindgen {
                src: post.src,
                tmp: post.tmp,
                blocks: post.blocks,
                ..pre
            })
            &&& post.blocks@ == pre.blocks@.take(pre.blocks@.len() - n)
            &&& post.tmp <= pre.tmp + 1
            &&& rs.len() == result_len
            &&& post.src@ == pre.src@ + spec_let_prefix(result_len as nat, rs) + "match "@
                + ops[0]@ + " {\n"@ + spec_union_lower_arms(cases@, path@, blks, n) + "};\n"@
        },
        Instruction::UnionLift { cases, path } => {
            let n = cases@.len() as int;
            let blks = pre.blocks@.subrange(pre.blocks@.len() - n, pre.blocks@.len() as int);
            &&& post == (FunctionBindgen { blocks: post.blocks, ..pre })
            &&& post.blocks@ == pre.blocks@.take(pre.blocks@.len() - n)
            &&& rs.len() == 1
            &&& rs[0]@ == "match "@ + ops[0]@ + " {\n"@ + spec_union_lift_arms(
                cases@,
                path@,
                blks,
                n,
                pre.checked,
            ) + (if pre.checked {
                "_ => panic!(\"invalid union discriminant\"),\n"@
            } else {
                Seq::<char>::empty()
            }) + "}"@
        },
        Instruction::OptionLower { result_len } => {
            let some = pre.blocks@.last();
            let none = pre.blocks@[pre.blocks@.len() - 2];
            &&& post == (FunctionBindgen {
                src: post.src,
                tmp: post.tmp,
                blocks: post.blocks,
                ..pre
            })
            &&& post.blocks@ == pre.blocks@.take(pre.blocks@.len() - 2)
            &&& post.tmp <= pre.tmp + 1
            &&& rs.len() == result_len
            &&& post.src@ == pre.src@ + spec_let_prefix(result_len as nat, rs) + "match "@
                + ops[0]@ + " {\nSome(e) => "@ + some@ + ",\nNone => {\n"@ + none@ + "\n}\n};\n"@
        },
        Instruction::OptionLift => {
            let some = pre.blocks@.last();
            &&& post == (FunctionBindgen { blocks: post.blocks, ..pre })
            &&& post.blocks@ == pre.blocks@.take(pre.blocks@.len() - 2)
            &&& rs.len() == 1
            &&& rs[0]@ == "match "@ + ops[0]@ + " {\n0 => None,\n1 => Some("@ + some@ + "),\n"@ + (
            if pre.checked {
                "_ => panic!(\"invalid enum discriminant\"),\n"@
            } else {
                "_ => ::core::hint::unreachable_unchecked(),\n"@
            }) + "}"@
        },
        Instruction::ResultLower { result_len, has_ok, has_err } => {
            let err = pre.blocks@.last();
            let ok = pre.blocks@[pre.blocks@.len() - 2];
            &&& post == (FunctionBindgen {
                src: post.src,
                tmp: post.tmp,
                blocks: post.blocks,
                ..pre
            })
            &&& post.blocks@ == pre.blocks@.take(pre.blocks@.len() - 2)
            &&& post.tmp <= pre.tmp + 1
            &&& rs.len() == result_len
            &&& post.src@ == pre.src@ + spec_let_prefix(result_len as nat, rs) + "match "@
                + ops[0]@ + " {\nOk("@ + (if has_ok {
                "e"@
            } else {
                "_"@
            }) + ") => { "@ + ok@ + " },\nErr("@ + (if has_err {
                "e"@
            } else {
                "_"@
            }) + ") => { "@ + err@ + " },\n};\n"@
        },
        Instruction::ResultLift => {
            let err = pre.blocks@.last();
            let ok = pre.blocks@[pre.blocks@.len() - 2];
            &&& post == (FunctionBindgen { blocks: post.blocks, ..pre })
            &&& post.blocks@ == pre.blocks@.take(pre.blocks@.len() - 2)
            &&& rs.len() == 1
            &&& rs[0]@ == "match "@ + ops[0]@ + " {\n0 => Ok("@ + ok@ + "),\n1 => Err("@ + err@
                + "),\n"@ + (if pre.checked {
                "_ => panic!(\"invalid enum discriminant\"),\n"@
            } else {
                "_ => ::core::hint::unreachable_unchecked(),\n"@
            }) + "}"@
        },
        Instruction::EnumLower { cases, path } => {
            &&& post == pre
            &&& rs.len() == 1
            &&& rs[0]@ == "match "@ + ops[0]@ + " {\n"@ + spec_enum_lower_arms(
                cases@,
                path@,
                cases@.len() as int,
            ) + "}"@
        },
        Instruction::EnumLift { cases, path, repr } => {
            &&& post == pre
            &&& rs.len() == 1
            &&& rs[0]@ == (if pre.checked {
                "match "@ + ops[0]@ + " {\n"@ + spec_enum_lift_arms(
                    cases@,
                    path@,
                    cases@.len() as int,
                ) + "_ => panic!(\"invalid enum discriminant\"),\n}"@
            } else {
                "::core::mem::transmute::<_, "@ + path@ + ">("@ + ops[0]@ + " as "@ + repr@ + ")"@
            })
        },
        Instruction::ListCanonLower { realloc } => {
            let t = pre.tmp as nat;
            &&& post == (FunctionBindgen { src: post.src, tmp: post.tmp, ..pre })
            &&& post.tmp == pre.tmp + 1
            &&& rs.len() == 2
            &&& rs[0]@ == ptr_name(t)
            &&& rs[1]@ == len_name(t)
            &&& post.src@ == pre.src@ + (if realloc {
                "let "@ + vec_name(t) + " = ("@ + ops[0]@ + ").into_boxed_slice();\n"@
            } else {
                "let "@ + vec_name(t) + " = "@ + ops[0]@ + ";\n"@
            }) + "let "@ + ptr_name(t) + " = "@ + vec_name(t) + ".as_ptr() as i32;\n"@ + "let "@
                + len_name(t) + " = "@ + vec_name(t) + ".len() as i32;\n"@ + (if realloc {
                "::core::mem::forget("@ + vec_name(t) + ");\n"@
            } else {
                Seq::<char>::empty()
            })
        },
        Instruction::ListCanonLift => {
            let t = pre.tmp as nat;
            &&& post == (FunctionBindgen { src: post.src, tmp: post.tmp, ..pre })
            &&& post.tmp == pre.tmp + 1
            &&& rs.len() == 1
            &&& post.src@ == pre.src@ + "let "@ + len_name(t) + " = "@ + ops[1]@
                + " as usize;\n"@
            &&& rs[0]@ == "Vec::from_raw_parts("@ + ops[0]@ + " as *mut _, "@ + len_name(t)
                + ", "@ + len_name(t) + ")"@
        },
        Instruction::StringLower { realloc } => {
            let t = pre.tmp as nat;
            &&& post == (FunctionBindgen { src: post.src, tmp: post.tmp, ..pre })
            &&& post.tmp == pre.tmp + 1
            &&& rs.len() == 2
            &&& rs[0]@ == ptr_name(t)
            &&& rs[1]@ == len_name(t)
            &&& post.src@ == pre.src@ + (if realloc {
                "let "@ + vec_name(t) + " = ("@ + ops[0]@ + ".into_bytes()).into_boxed_slice();\n"@
            } else {
                "let "@ + vec_name(t) + " = "@ + ops[0]@ + ";\n"@
            }) + "let "@ + ptr_name(t) + " = "@ + vec_name(t) + ".as_ptr() as i32;\n"@ + "let "@
                + len_name(t) + " = "@ + vec_name(t) + ".len() as i32;\n"@ + (if realloc {
                "::core::mem::forget("@ + vec_name(t) + ");\n"@
            } else {
                Seq::<char>::empty()
            })
        },
        Instruction::StringLift => {
            let t = pre.tmp as nat;
            let raw = "Vec::from_raw_parts("@ + ops[0]@ + " as *mut _, "@ + len_name(t) + ", "@
                + len_name(t) + ")"@;
            &&& post == (FunctionBindgen { src: post.src, tmp: post.tmp, ..pre })
            &&& post.tmp == pre.tmp + 1
            &&& rs.len() == 1
            &&& post.src@ == pre.src@ + "let "@ + len_name(t) + " = "@ + ops[1]@
                + " as usize;\n"@
            &&& rs[0]@ == (if pre.raw_strings {
                raw
            } else if pre.checked {
                "String::from_utf8("@ + raw + ").unwrap()"@
            } else {
                "String::from_utf8_unchecked("@ + raw + ")"@
            })
        },
        Instruction::ListLower { size, align, realloc } => {
            let t = pre.tmp as nat;
            let body = pre.blocks@.last();
            &&& post == (FunctionBindgen {
                src: post.src,
                tmp: post.tmp,
                blocks: post.blocks,
                cleanup: post.cleanup,
                recorded: post.recorded,
                ..pre
            })
            &&& post.tmp == pre.tmp + 1
            &&& post.blocks@ == pre.blocks@.drop_last()
            &&& rs.len() == 2
            &&& rs[0]@ == result_name(t) + " as i32"@
            &&& rs[1]@ == len_name(t)
            &&& post.src@ == pre.src@ + "let "@ + vec_name(t) + " = "@ + ops[0]@ + ";\n"@
                + "let "@ + len_name(t) + " = "@ + vec_name(t) + ".len() as i32;\n"@ + "let "@
                + layout_name(t) + " = alloc::Layout::from_size_align_unchecked("@ + vec_name(t)
                + ".len() * "@ + dec_str(size as nat) + ", "@ + dec_str(align as nat) + ");\n"@
                + "let "@ + result_name(t) + " = if "@ + layout_name(t)
                + ".size() != 0 {\nlet ptr = alloc::alloc("@ + layout_name(t)
                + ");\nif ptr.is_null() {\nalloc::handle_alloc_error("@ + layout_name(t)
                + ");\n}\nptr\n} else {\n::core::ptr::null_mut()\n};\n"@ + "for (i, e) in "@
                + vec_name(t) + ".into_iter().enumerate() {\nlet base = "@ + result_name(t)
                + " as i32 + (i as i32) * "@ + dec_str(size as nat) + ";\n"@ + body@ + "}\n"@
            &&& (if realloc {
                post.cleanup@ == pre.cleanup@ && post.recorded@ == pre.recorded@
            } else {
                post.cleanup@.len() == pre.cleanup@.len() + 1 && post.cleanup@.drop_last()
                    == pre.cleanup@ && post.cleanup@.last().0@ == result_name(t)
                    && post.cleanup@.last().1@ == layout_name(t) && post.recorded@
                    == pre.recorded@ + 1
            })
        },
        Instruction::ListLift { size, align } => {
            let t = pre.tmp as nat;
            let body = pre.blocks@.last();
            &&& post == (FunctionBindgen {
                src: post.src,
                tmp: post.tmp,
                blocks: post.blocks,
                ..pre
            })
            &&& post.tmp == pre.tmp + 1
            &&& post.blocks@ == pre.blocks@.drop_last()
            &&& rs.len() == 1
            &&& rs[0]@ == result_name(t)
            &&& post.src@ == pre.src@ + "let "@ + base_name(t) + " = "@ + ops[0]@ + ";\n"@
                + "let "@ + len_name(t) + " = "@ + ops[1]@ + ";\n"@ + "let mut "@
                + result_name(t) + " = Vec::with_capacity("@ + len_name(t) + " as usize);\n"@
                + "for i in 0.."@ + len_name(t) + " {\nlet base = "@ + base_name(t) + " + i * "@
                + dec_str(size as nat) + ";\n"@ + result_name(t) + ".push("@ + body@
                + ");\n}\n"@ + "wit_bindgen::rt::dealloc("@ + base_name(t) + ", ("@
                + len_name(t) + " as usize) * "@ + dec_str(size as nat) + ", "@
                + dec_str(align as nat) + ");\n"@
        },
        Instruction::IterElem => {
            &&& post == pre
            &&& rs.len() == 1
            &&& rs[0]@ == "e"@
        },
        Instruction::IterBasePointer => {
            &&& post == pre
            &&& rs.len() == 1
            &&& rs[0]@ == "base"@
        },
        Instruction::CallWasm { name, params, results } => {
            &&& post == (FunctionBindgen { src: post.src, ..pre })
            &&& rs.len() == results@.len()
            &&& (results@.len() == 1 ==> rs[0]@ == "ret"@)
            &&& post.src@ == pre.src@ + spec_declare_import(
                pre.wasm_import_module->Some_0@,
                name@,
                params@,
                results@,
            ) + (if results@.len() == 1 {
                "let ret = "@
            } else {
                Seq::<char>::empty()
            }) + "wit_import"@ + "("@ + spec_join(ops, ", "@) + ");\n"@
        },
        Instruction::CallInterface { kind, name, operand_count, result_count } => {
            &&& post == (FunctionBindgen { src: post.src, tmp: post.tmp, ..pre })
            &&& post.tmp <= pre.tmp + 1
            &&& rs.len() == result_count
            &&& post.src@ == pre.src@ + spec_let_prefix(result_count as nat, rs)
                + spec_call_target(
                kind,
                (match pre.trait_name {
                    Some(t) => t@,
                    None => Seq::<char>::empty(),
                }),
                name@,
            ) + "("@ + spec_join(ops, ", "@) + ")"@ + (match kind {
                CallKind::Constructor(_) => ")"@,
                _ => Seq::<char>::empty(),
            }) + ";\n"@
        },
        Instruction::Return { amt } => {
            &&& post == (FunctionBindgen {
                src: post.src,
                cleanup: post.cleanup,
                discharged: post.discharged,
                ..pre
            })
            &&& post.cleanup@.len() == 0
            &&& post.discharged@ == pre.discharged@ + pre.cleanup@.len()
            &&& rs.len() == 0
            &&& post.src@ == pre.src@ + spec_dealloc_stmts(pre.cleanup@) + (
            if pre.needs_cleanup_list {
                spec_cleanup_loop()
            } else {
                Seq::<char>::empty()
            }) + (if amt == 0 {
                Seq::<char>::empty()
            } else if amt == 1 {
                ops[0]@ + "\n"@
            } else {
                "("@ + spec_join(ops, ", "@) + ")\n"@
            })
        },
        Instruction::I32Load { offset } => load_post(pre, post, rs, ops, "i32"@, offset as nat),
        Instruction::I32Load8U { offset } => {
            &&& post == pre
            &&& rs.len() == 1
            &&& rs[0]@ == "i32::from(*(("@ + ops[0]@ + " + "@ + dec_str(offset as nat)
                + ") as *const u8))"@
        },
        Instruction::I32Load8S { offset } => {
            &&& post == pre
            &&& rs.len() == 1
            &&& rs[0]@ == "i32::from(*(("@ + ops[0]@ + " + "@ + dec_str(offset as nat)
                + ") as *const i8))"@
        },
        Instruction::I32Load16U { offset } => {
            &&& post == pre
            &&& rs.len() == 1
            &&& rs[0]@ == "i32::from(*(("@ + ops[0]@ + " + "@ + dec_str(offset as nat)
                + ") as *const u16))"@
        },
        Instruction::I32Load16S { offset } => {
            &&& post == pre
            &&& rs.len() == 1
            &&& rs[0]@ == "i32::from(*(("@ + ops[0]@ + " + "@ + dec_str(offset as nat)
                + ") as *const i16))"@
        },
        Instruction::I64Load { offset } => load_post(pre, post, rs, ops, "i64"@, offset as nat),
        Instruction::F32Load { offset } => load_post(pre, post, rs, ops, "f32"@, offset as nat),
        Instruction::F64Load { offset } => load_post(pre, post, rs, ops, "f64"@, offset as nat),
        Instruction::I32Store { offset } => store_post(pre, post, rs, ops, "i32"@, offset as nat),
        Instruction::I32Store8 { offset } => {
            &&& post == (FunctionBindgen { src: post.src, ..pre })
            &&& rs.len() == 0
            &&& post.src@ == pre.src@ + "*(("@ + ops[1]@ + " + "@ + dec_str(offset as nat)
                + ") as *mut u8) = ("@ + ops[0]@ + ") as u8;\n"@
        },
        Instruction::I32Store16 { offset } => {
            &&& post == (FunctionBindgen { src: post.src, ..pre })
            &&& rs.len() == 0
            &&& post.src@ == pre.src@ + "*(("@ + ops[1]@ + " + "@ + dec_str(offset as nat)
                + ") as *mut u16) = ("@ + ops[0]@ + ") as u16;\n"@
        },
        Instruction::I64Store { offset } => store_post(pre, post, rs, ops, "i64"@, offset as nat),
        Instruction::F32Store { offset } => store_post(pre, post, rs, ops, "f32"@, offset as nat),
        Instruction::F64Store { offset } => store_post(pre, post, rs, ops, "f64"@, offset as nat),
        Instruction::GuestDeallocate { size, align } => {
            &&& post == (FunctionBindgen { src: post.src, ..pre })
            &&& rs.len() == 0
            &&& post.src@ == pre.src@ + "wit_bindgen::rt::dealloc("@ + ops[0]@ + ", "@ + dec_str(
                size as nat,
            ) + ", "@ + dec_str(align as nat) + ");\n"@
        },
        Instruction::GuestDeallocateString => {
            &&& post == (FunctionBindgen { src: post.src, ..pre })
            &&& rs.len() == 0
            &&& post.src@ == pre.src@ + "wit_bindgen::rt::dealloc("@ + ops[0]@ + ", ("@ + ops[1]@
                + ") as usize, 1);\n"@
        },
        Instruction::GuestDeallocateVariant { blocks } => {
            let n = blocks as int;
            let blks = pre.blocks@.subrange(pre.blocks@.len() - n, pre.blocks@.len() as int);
            &&& post == (FunctionBindgen { src: post.src, blocks: post.blocks, ..pre })
            &&& post.blocks@ == pre.blocks@.take(pre.blocks@.len() - n)
            &&& rs.len() == 0
            &&& post.src@ == pre.src@ + "match "@ + ops[0]@ + " {\n"@ + spec_gdv_arms(blks, n)
                + "}\n"@
        },
        Instruction::GuestDeallocateList { size, align } => {
            let t = pre.tmp as nat;
            let body = pre.blocks@.last();
            &&& post == (FunctionBindgen {
                src: post.src,
                tmp: post.tmp,
                blocks: post.blocks,
                ..pre
            })
            &&& post.tmp == pre.tmp + 1
            &&& post.blocks@ == pre.blocks@.drop_last()
            &&& rs.len() == 0
            &&& post.src@ == pre.src@ + "let "@ + base_name(t) + " = "@ + ops[0]@ + ";\n"@
                + "let "@ + len_name(t) + " = "@ + ops[1]@ + ";\n"@ + (if body@ == "()"@ {
                Seq::<char>::empty()
            } else {
                "for i in 0.."@ + len_name(t) + " {\nlet base = "@ + base_name(t) + " + i * "@
                    + dec_str(size as nat) + ";\n"@ + body@ + "\n}\n"@
            }) + "wit_bindgen::rt::dealloc("@ + base_name(t) + ", ("@ + len_name(t)
                + " as usize) * "@ + dec_str(size as nat) + ", "@ + dec_str(align as nat)
                + ");\n"@
        },
        Instruction::ReturnPointer { size, align } => {
            &&& post == (FunctionBindgen {
                src: post.src,
                tmp: post.tmp,
                import_rpa_size: post.import_rpa_size,
                import_rpa_align: post.import_rpa_align,
                export_rpa_size: post.export_rpa_size,
                export_rpa_align: post.export_rpa_align,
                ..pre
            })
            &&& post.tmp == pre.tmp + 1
            &&& rs.len() == 1
            &&& rs[0]@ == "ptr"@ + dec_str(pre.tmp as nat)
            &&& (if pre.in_import {
                post.import_rpa_size == (if size > pre.import_rpa_size {
                    size as int
                } else {
                    pre.import_rpa_size as int
                }) && post.import_rpa_align == (if align > pre.import_rpa_align {
                    align as int
                } else {
                    pre.import_rpa_align as int
                }) && post.export_rpa_size == pre.export_rpa_size && post.export_rpa_align
                    == pre.export_rpa_align && post.src@ == pre.src@ + "let "@ + rs[0]@
                    + " = ret_area.as_mut_ptr() as i32;\n"@
            } else {
                post.export_rpa_size == (if size > pre.export_rpa_size {
                    size as int
                } else {
                    pre.export_rpa_size as int
                }) && post.export_rpa_align == (if align > pre.export_rpa_align {
                    align as int
                } else {
                    pre.export_rpa_align as int
                }) && post.import_rpa_size == pre.import_rpa_size && post.import_rpa_align
                    == pre.import_rpa_align && post.src@ == pre.src@ + "let "@ + rs[0]@
                    + " = _RET_AREA.0.as_mut_ptr() as i32;\n"@
            })
        },
        Instruction::PushBlock => {
            &&& post == (FunctionBindgen {
                src: post.src,
                frames: post.frames,
                cleanup: post.cleanup,
                ..pre
            })
            &&& post.src@ == Seq::<char>::empty()
            &&& post.cleanup@.len() == 0
            &&& post.frames@.len() == pre.frames@.len() + 1
            &&& post.frames@.drop_last() == pre.frames@
            &&& post.frames@.last().src@ == pre.src@
            &&& post.frames@.last().cleanup@ == pre.cleanup@
            &&& rs.len() == 0
        },
        Instruction::FinishBlock { result_len } => {
            &&& post == (FunctionBindgen {
                src: post.src,
                blocks: post.blocks,
                frames: post.frames,
                cleanup: post.cleanup,
                needs_cleanup_list: post.needs_cleanup_list,
                deferred: post.deferred,
                ..pre
            })
            &&& post.frames@ == pre.frames@.drop_last()
            &&& post.src@ == pre.frames@.last().src@
            &&& post.cleanup@ == pre.frames@.last().cleanup@
            &&& post.deferred@ == pre.deferred@ + pre.cleanup@.len()
            &&& post.needs_cleanup_list == (pre.needs_cleanup_list || pre.cleanup@.len() > 0)
            &&& post.blocks@.len() == pre.blocks@.len() + 1
            &&& post.blocks@.drop_last() == pre.blocks@
            &&& post.blocks@.last()@ == spec_block_text(
                pre.src@ + spec_cleanup_extend(pre.cleanup@),
                ops,
            )
            &&& rs.len() == 0
        },
    }
}

/// A plain fixed-width load expression.
pub open spec fn load_post(
    pre: FunctionBindgen,
    post: FunctionBindgen,
    rs: Seq<String>,
    ops: Seq<String>,
    ty: Seq<char>,
    offset: nat,
) -> bool {
    &&& post == pre
    &&& rs.len() == 1
    &&& rs[0]@ == "*(("@ + ops[0]@ + " + "@ + dec_str(offset) + ") as *const "@ + ty + ")"@
}

/// A plain fixed-width store statement.
pub open spec fn store_post(
    pre: FunctionBindgen,
    post: FunctionBindgen,
    rs: Seq<String>,
    ops: Seq<String>,
    ty: Seq<char>,
    offset: nat,
) -> bool {
    &&& post == (FunctionBindgen { src: post.src, ..pre })
    &&& rs.len() == 0
    &&& post.src@ == pre.src@ + "*(("@ + ops[1]@ + " + "@ + dec_str(offset) + ") as *mut "@ + ty
        + ") = "@ + ops[0]@ + ";\n"@
}

} // verus!

verus! {

/// The instructions `emit` handles before delegating.
pub open spec fn emit_head(inst: Instruction) -> bool {
    match inst {
        Instruction::GetArg { .. } => true,
        Instruction::I32Const { .. } => true,
        Instruction::ConstZero { .. } => true,
        Instruction::I64FromU64 => true,
        Instruction::I64FromS64 => true,
        Instruction::I32FromChar => true,
        Instruction::I32FromU8 => true,
        Instruction::I32FromS8 => true,
        Instruction::I32FromU16 => true,
        Instruction::I32FromS16 => true,
        Instruction::I32FromU32 => true,
        Instruction::I32FromS32 => true,
        Instruction::F32FromFloat32 => true,
        Instruction::F64FromFloat64 => true,
        Instruction::Float32FromF32 => true,
        Instruction::Float64FromF64 => true,
        Instruction::S32FromI32 => true,
        Instruction::S64FromI64 => true,
        Instruction::S8FromI32 => true,
        Instruction::U8FromI32 => true,
        Instruction::S16FromI32 => true,
        Instruction::U16FromI32 => true,
        Instruction::U32FromI32 => true,
        Instruction::U64FromI64 => true,
        Instruction::CharFromI32 => true,
        Instruction::Bitcasts { .. } => true,
        Instruction::I32FromBool => true,
        Instruction::BoolFromI32 => true,
        Instruction::FlagsLower { .. } => true,
        Instruction::FlagsLift { .. } => true,
        Instruction::HandleLowerOwn => true,
        Instruction::HandleLowerBorrow => true,
        Instruction::HandleLift { .. } => true,
        _ => false,
    }
}

/// The aggregate instructions handled in the second stage.
pub open spec fn emit_agg(inst: Instruction) -> bool {
    match inst {
        Instruction::RecordLower { .. } => true,
        Instruction::RecordLift { .. } => true,
        Instruction::TupleLower { .. } => true,
        Instruction::TupleLift { .. } => true,
        Instruction::VariantPayloadName => true,
        Instruction::VariantLower { .. } => true,
        Instruction::VariantLift { .. } => true,
        Instruction::UnionLower { .. } => true,
        Instruction::UnionLift { .. } => true,
        Instruction::OptionLower { .. } => true,
        Instruction::OptionLift => true,
        Instruction::ResultLower { .. } => true,
        Instruction::ResultLift => true,
        Instruction::EnumLower { .. } => true,
        Instruction::EnumLift { .. } => true,
        Instruction::IterElem => true,
        Instruction::IterBasePointer => true,
        _ => false,
    }
}

impl FunctionBindgen {
    /// Aggregate lowering and lifting: records and tuples flatten field by
    /// field; tagged types dispatch over their compiled case blocks.
    #[verifier::rlimit(100)]
    fn emit_rest(&mut self, reg: &ResourceRegistry, inst: &Instruction, operands: Vec<String>) -> (rs: Vec<String>)
        requires
            old(self).tmp < 0x1000_0000,
            operands@.len() == inst.num_operands(),
            old(self).blocks@.len() >= inst.blocks_needed(),
            inst_ok(old(self), inst),
            old(self).accounted(),
            !emit_head(*inst),
        ensures
            rs@.len() == inst.num_results(),
            final(self).accounted(),
            final(self).tmp <= old(self).tmp + 1,
            emit_post(*old(self), *final(self), reg.entries@, *inst, operands@, rs@),
    {
        let ghost po = *old(self);
        let ghost ops = operands@;
        match inst {
            Instruction::RecordLower { fields, path } => {
                let t: usize = self.take_tmp();
                self.src.push("let ");
                self.src.push_string(path);
                self.src.push("{ ");
                let ghost base = self.src@;
                let mut rs: Vec<String> = Vec::new();
                let mut i: usize = 0;
                while i < fields.len()
                    invariant
                        i <= fields@.len(),
                        t == po.tmp,
                        self.src@ == base + spec_record_pat(fields@, t as nat, i as int),
                        base == po.src@ + "let "@ + path@ + "{ "@,
                        rs@.len() == i,
                        forall|q: int|
                            0 <= q < i ==> (#[trigger] rs@[q])@ == fields@[q]@ + dec_str(t as nat),
                        *self == (FunctionBindgen { src: self.src, tmp: self.tmp, ..po }),
                        self.tmp == po.tmp + 1,
                    decreases fields@.len() - i,
                {
                    let fname: &String = &fields[i];
                    let mut nm: Src = Src::new();
                    nm.push_string(fname);
                    nm.push_dec(t as u64);
                    let bound: String = nm.into_string();
                    self.src.push_string(fname);
                    self.src.push(": ");
                    self.src.push_string(&bound);
                    self.src.push(", ");
                    rs.push(bound);
                    proof {
                        assert(self.src@ =~= base + spec_record_pat(
                            fields@,
                            t as nat,
                            i + 1 as int,
                        ));
                    }
                    i = i + 1;
                }
                self.src.push("} = ");
                self.src.push_string(&operands[0]);
                self.src.push(";\n");
                proof {
                    assert(self.src@ =~= po.src@ + "let "@ + path@ + "{ "@ + spec_record_pat(
                        fields@,
                        t as nat,
                        fields@.len() as int,
                    ) + "} = "@ + ops[0]@ + ";\n"@);
                }
                rs
            },
            Instruction::RecordLift { fields, path } => {
                let mut b: Src = Src::new();
                b.push_string(path);
                b.push("{ ");
                let ghost base = b@;
                let mut i: usize = 0;
                while i < fields.len()
                    invariant
                        i <= fields@.len(),
                        fields@.len() == ops.len(),
                        operands@ == ops,
                        b@ == base + spec_record_init(fields@, ops, i as int),
                        base == path@ + "{ "@,
                    decreases fields@.len() - i,
                {
                    b.push_string(&fields[i]);
                    b.push(": ");
                    b.push_string(&operands[i]);
                    b.push(", ");
                    proof {
                        assert(b@ =~= base + spec_record_init(fields@, ops, i + 1 as int));
                    }
                    i = i + 1;
                }
                b.push("}");
                let mut rs: Vec<String> = Vec::new();
                rs.push(b.into_string());
                rs
            },
            Instruction::TupleLower { len } => {
                let t: usize = self.take_tmp();
                let mut rs: Vec<String> = Vec::new();
                let mut i: usize = 0;
                while i < *len
                    invariant
                        i <= *len,
                        t == po.tmp,
                        rs@.len() == i,
                        forall|q: int|
                            0 <= q < i ==> (#[trigger] rs@[q])@ == "t"@ + dec_str(t as nat) + "_"@
                                + dec_str(q as nat),
                    decreases *len - i,
                {
                    rs.push(dec_name2("t", t, i));
                    i = i + 1;
                }
                self.src.push("let (");
                let j: String = join(&rs, ", ");
                self.src.push_string(&j);
                self.src.push(") = ");
                self.src.push_string(&operands[0]);
                self.src.push(";\n");
                rs
            },
            Instruction::TupleLift { len } => {
                let mut b: Src = Src::new();
                b.push("(");
                let j: String = join(&operands, ", ");
                b.push_string(&j);
                if *len == 1 {
                    b.push(",)");
                } else {
                    b.push(")");
                }
                let mut rs: Vec<String> = Vec::new();
                rs.push(b.into_string());
                rs
            },
            Instruction::VariantPayloadName => {
                let mut rs: Vec<String> = Vec::new();
                rs.push(crate::text::s("e"));
                rs
            },
            Instruction::IterElem => {
                let mut rs: Vec<String> = Vec::new();
                rs.push(crate::text::s("e"));
                rs
            },
            Instruction::IterBasePointer => {
                let mut rs: Vec<String> = Vec::new();
                rs.push(crate::text::s("base"));
                rs
            },
            Instruction::VariantLower { cases, path, result_len } => {
                let at: usize = self.blocks.len() - cases.len();
                let blks: Vec<String> = self.blocks.split_off(at);
                let rs: Vec<String> = self.let_results(*result_len);
                let ghost lp = spec_let_prefix(*result_len as nat, rs@);
                self.src.push("match ");
                self.src.push_string(&operands[0]);
                self.src.push(" {\n");
                let ghost base = self.src@;
                let mut i: usize = 0;
                while i < cases.len()
                    invariant
                        i <= cases@.len(),
                        cases@.len() == blks@.len(),
                        self.src@ == base + spec_variant_lower_arms(cases@, path@, blks@, i as int),
                        *self == (FunctionBindgen {
                            src: self.src,
                            tmp: self.tmp,
                            blocks: self.blocks,
                            ..po
                        }),
                        self.tmp <= po.tmp + 1,
                        self.blocks@ == po.blocks@.take(po.blocks@.len() - cases@.len()),
                    decreases cases@.len() - i,
                {
                    self.src.push_string(path);
                    self.src.push("::");
                    self.src.push_string(&cases[i].0);
                    if cases[i].1 {
                        self.src.push("(e) => ");
                        self.src.push_string(&blks[i]);
                        self.src.push(",\n");
                    } else {
                        self.src.push(" => {\n");
                        self.src.push_string(&blks[i]);
                        self.src.push("\n}\n");
                    }
                    proof {
                        assert(self.src@ =~= base + spec_variant_lower_arms(
                            cases@,
                            path@,
                            blks@,
                            i + 1 as int,
                        ));
                    }
                    i = i + 1;
                }
                self.src.push("};\n");
                proof {
                    assert(self.src@ =~= po.src@ + lp + "match "@ + ops[0]@ + " {\n"@
                        + spec_variant_lower_arms(
                        cases@,
                        path@,
                        po.blocks@.subrange(
                            po.blocks@.len() - cases@.len(),
                            po.blocks@.len() as int,
                        ),
                        cases@.len() as int,
                    ) + "};\n"@);
                }
                rs
            },
            Instruction::VariantLift { cases, path } => {
                let at: usize = self.blocks.len() - cases.len();
                let blks: Vec<String> = self.blocks.split_off(at);
                let mut b: Src = Src::new();
                b.push("match ");
                b.push_string(&operands[0]);
                b.push(" {\n");
                let ghost base = b@;
                let mut i: usize = 0;
                while i < cases.len()
                    invariant
                        i <= cases@.len(),
                        cases@.len() == blks@.len(),
                        self.checked == po.checked,
                        b@ == base + spec_variant_lift_arms(
                            cases@,
                            path@,
                            blks@,
                            i as int,
                            po.checked,
                        ),
                    decreases cases@.len() - i,
                {
                    if !self.checked && i == cases.len() - 1 {
                        b.push("_");
                    } else {
                        b.push_dec(i as u64);
                    }
                    b.push(" => ");
                    b.push_string(path);
                    b.push("::");
                    b.push_string(&cases[i].0);
                    if cases[i].1 {
                        b.push("(");
                        b.push_string(&blks[i]);
                        b.push(")");
                    }
                    b.push(",\n");
                    proof {
                        assert(b@ =~= base + spec_variant_lift_arms(
                            cases@,
                            path@,
                            blks@,
                            i + 1 as int,
                            po.checked,
                        ));
                    }
                    i = i + 1;
                }
                if self.checked {
                    b.push("_ => panic!(\"invalid enum discriminant\"),\n");
                }
                b.push("}");
                let mut rs: Vec<String> = Vec::new();
                rs.push(b.into_string());
                rs
            },
            Instruction::UnionLower { cases, path, result_len } => {
                let at: usize = self.blocks.len() - cases.len();
                let blks: Vec<String> = self.blocks.split_off(at);
                let rs: Vec<String> = self.let_results(*result_len);
                let ghost lp = spec_let_prefix(*result_len as nat, rs@);
                self.src.push("match ");
                self.src.push_string(&operands[0]);
                self.src.push(" {\n");
                let ghost base = self.src@;
                let mut i: usize = 0;
                while i < cases.len()
                    invariant
                        i <= cases@.len(),
                        cases@.len() == blks@.len(),
                        self.src@ == base + spec_union_lower_arms(cases@, path@, blks@, i as int),
                        *self == (FunctionBindgen {
                            src: self.src,
                            tmp: self.tmp,
                            blocks: self.blocks,
                            ..po
                        }),
                        self.tmp <= po.tmp + 1,
                        self.blocks@ == po.blocks@.take(po.blocks@.len() - cases@.len()),
                    decreases cases@.len() - i,
                {
                    self.src.push_string(path);
                    self.src.push("::");
                    self.src.push_string(&cases[i]);
                    self.src.push("(e) => ");
                    self.src.push_string(&blks[i]);
                    self.src.push(",\n");
                    proof {
                        assert(self.src@ =~= base + spec_union_lower_arms(
                            cases@,
                            path@,
                            blks@,
                            i + 1 as int,
                        ));
                    }
                    i = i + 1;
                }
                self.src.push("};\n");
                rs
            },
            Instruction::UnionLift { cases, path } => {
                let at: usize = self.blocks.len() - cases.len();
                let blks: Vec<String> = self.blocks.split_off(at);
                let mut b: Src = Src::new();
                b.push("match ");
                b.push_string(&operands[0]);
                b.push(" {\n");
                let ghost base = b@;
                let mut i: usize = 0;
                while i < cases.len()
                    invariant
                        i <= cases@.len(),
                        cases@.len() == blks@.len(),
                        self.checked == po.checked,
                        b@ == base + spec_union_lift_arms(
                            cases@,
                            path@,
                            blks@,
                            i as int,
                            po.checked,
                        ),
                    decreases cases@.len() - i,
                {
                    if !self.checked && i == cases.len() - 1 {
                        b.push("_");
                    } else {
                        b.push_dec(i as u64);
                    }
                    b.push(" => ");
                    b.push_string(path);
                    b.push("::");
                    b.push_string(&cases[i]);
                    b.push("(");
                    b.push_string(&blks[i]);
                    b.push("),\n");
                    proof {
                        assert(b@ =~= base + spec_union_lift_arms(
                            cases@,
                            path@,
                            blks@,
                            i + 1 as int,
                            po.checked,
                        ));
                    }
                    i = i + 1;
                }
                if self.checked {
                    b.push("_ => panic!(\"invalid union discriminant\"),\n");
                }
                b.push("}");
                let mut rs: Vec<String> = Vec::new();
                rs.push(b.into_string());
                rs
            },
            Instruction::OptionLower { result_len } => {
                let some: String = match self.blocks.pop() {
                    Some(x) => x,
                    None => String::new(),
                };
                let none: String = match self.blocks.pop() {
                    Some(x) => x,
                    None => String::new(),
                };
                let rs: Vec<String> = self.let_results(*result_len);
                self.src.push("match ");
                self.src.push_string(&operands[0]);
                self.src.push(" {\nSome(e) => ");
                self.src.push_string(&some);
                self.src.push(",\nNone => {\n");
                self.src.push_string(&none);
                self.src.push("\n}\n};\n");
                proof {
                    assert(self.blocks@ =~= po.blocks@.take(po.blocks@.len() - 2));
                }
                rs
            },
            Instruction::OptionLift => {
                let some: String = match self.blocks.pop() {
                    Some(x) => x,
                    None => String::new(),
                };
                let none: String = match self.blocks.pop() {
                    Some(x) => x,
                    None => String::new(),
                };
                let mut b: Src = Src::new();
                b.push("match ");
                b.push_string(&operands[0]);
                b.push(" {\n0 => None,\n1 => Some(");
                b.push_string(&some);
                b.push("),\n");
                if self.checked {
                    b.push("_ => panic!(\"invalid enum discriminant\"),\n");
                } else {
                    b.push("_ => ::core::hint::unreachable_unchecked(),\n");
                }
                b.push("}");
                let mut rs: Vec<String> = Vec::new();
                rs.push(b.into_string());
                proof {
                    assert(self.blocks@ =~= po.blocks@.take(po.blocks@.len() - 2));
                }
                rs
            },
            Instruction::ResultLower { result_len, has_ok, has_err } => {
                let err: String = match self.blocks.pop() {
                    Some(x) => x,
                    None => String::new(),
                };
                let ok: String = match self.blocks.pop() {
                    Some(x) => x,
                    None => String::new(),
                };
                let rs: Vec<String> = self.let_results(*result_len);
                self.src.push("match ");
                self.src.push_string(&operands[0]);
                self.src.push(" {\nOk(");
                if *has_ok {
                    self.src.push("e");
                } else {
                    self.src.push("_");
                }
                self.src.push(") => { ");
                self.src.push_string(&ok);
                self.src.push(" },\nErr(");
                if *has_err {
                    self.src.push("e");
                } else {
                    self.src.push("_");
                }
                self.src.push(") => { ");
                self.src.push_string(&err);
                self.src.push(" },\n};\n");
                proof {
                    assert(self.blocks@ =~= po.blocks@.take(po.blocks@.len() - 2));
                }
                rs
            },
            Instruction::ResultLift => {
                let err: String = match self.blocks.pop() {
                    Some(x) => x,
                    None => String::new(),
                };
                let ok: String = match self.blocks.pop() {
                    Some(x) => x,
                    None => String::new(),
                };
                let mut b: Src = Src::new();
                b.push("match ");
                b.push_string(&operands[0]);
                b.push(" {\n0 => Ok(");
                b.push_string(&ok);
                b.push("),\n1 => Err(");
                b.push_string(&err);
                b.push("),\n");
                if self.checked {
                    b.push("_ => panic!(\"invalid enum discriminant\"),\n");
                } else {
                    b.push("_ => ::core::hint::unreachable_unchecked(),\n");
                }
                b.push("}");
                let mut rs: Vec<String> = Vec::new();
                rs.push(b.into_string());
                proof {
                    assert(self.blocks@ =~= po.blocks@.take(po.blocks@.len() - 2));
                }
                rs
            },
            Instruction::EnumLower { cases, path } => {
                let mut b: Src = Src::new();
                b.push("match ");
                b.push_string(&operands[0]);
                b.push(" {\n");
                let ghost base = b@;
                let mut i: usize = 0;
                while i < cases.len()
                    invariant
                        i <= cases@.len(),
                        b@ == base + spec_enum_lower_arms(cases@, path@, i as int),
                    decreases cases@.len() - i,
                {
                    b.push_string(path);
                    b.push("::");
                    b.push_string(&cases[i]);
                    b.push(" => ");
                    b.push_dec(i as u64);
                    b.push(",\n");
                    proof {
                        assert(b@ =~= base + spec_enum_lower_arms(cases@, path@, i + 1 as int));
                    }
                    i = i + 1;
                }
                b.push("}");
                let mut rs: Vec<String> = Vec::new();
                rs.push(b.into_string());
                rs
            },
            Instruction::EnumLift { cases, path, repr } => {
                let mut b: Src = Src::new();
                if self.checked {
                    b.push("match ");
                    b.push_string(&operands[0]);
                    b.push(" {\n");
                    let ghost base = b@;
                    let mut i: usize = 0;
                    while i < cases.len()
                        invariant
                            i <= cases@.len(),
                            b@ == base + spec_enum_lift_arms(cases@, path@, i as int),
                        decreases cases@.len() - i,
                    {
                        b.push_dec(i as u64);
                        b.push(" => ");
                        b.push_string(path);
                        b.push("::");
                        b.push_string(&cases[i]);
                        b.push(",\n");
                        proof {
                            assert(b@ =~= base + spec_enum_lift_arms(cases@, path@, i + 1 as int));
                        }
                        i = i + 1;
                    }
                    b.push("_ => panic!(\"invalid enum discriminant\"),\n}");
                } else {
                    b.push("::core::mem::transmute::<_, ");
                    b.push_string(path);
                    b.push(">(");
                    b.push_string(&operands[0]);
                    b.push(" as ");
                    b.push_string(repr);
                    b.push(")");
                }
                let mut rs: Vec<String> = Vec::new();
                rs.push(b.into_string());
                rs
            },
            _ => {
                self.emit_mem(reg, inst, operands)
            },
        }
    }
}

} // verus!

verus! {

/// The list and string instructions, handled in the third stage.
pub open spec fn emit_list_arm(inst: Instruction) -> bool {
    match inst {
        Instruction::ListCanonLower { .. } => true,
        Instruction::ListCanonLift => true,
        Instruction::StringLower { .. } => true,
        Instruction::StringLift => true,
        Instruction::ListLower { .. } => true,
        Instruction::ListLift { .. } => true,
        _ => false,
    }
}

/// The canonical list and string instructions.
pub open spec fn emit_canon_arm(inst: Instruction) -> bool {
    match inst {
        Instruction::ListCanonLower { .. } => true,
        Instruction::ListCanonLift => true,
        Instruction::StringLower { .. } => true,
        Instruction::StringLift => true,
        _ => false,
    }
}

/// The invocation and return instructions, handled in the fourth stage.
pub open spec fn emit_call_arm(inst: Instruction) -> bool {
    match inst {
        Instruction::CallWasm { .. } => true,
        Instruction::CallInterface { .. } => true,
        Instruction::Return { .. } => true,
        _ => false,
    }
}

impl FunctionBindgen {
    /// List, string, memory, call, return and block instructions.
    #[verifier::rlimit(100)]
    fn emit_mem(&mut self, reg: &ResourceRegistry, inst: &Instruction, operands: Vec<String>) -> (rs: Vec<String>)
        requires
            old(self).tmp < 0x1000_0000,
            operands@.len() == inst.num_operands(),
            old(self).blocks@.len() >= inst.blocks_needed(),
            inst_ok(old(self), inst),
            old(self).accounted(),
            !emit_head(*inst),
            !emit_agg(*inst),
        ensures
            rs@.len() == inst.num_results(),
            final(self).accounted(),
            final(self).tmp <= old(self).tmp + 1,
            emit_post(*old(self), *final(self), reg.entries@, *inst, operands@, rs@),
    {
        let ghost po = *old(self);
        let ghost ops = operands@;
        match inst {
            Instruction::ListCanonLower { realloc } => {
                let t: usize = self.take_tmp();
                let vec: String = dec_name("vec", t);
                let ptr: String = dec_name("ptr", t);
                let len: String = dec_name("len", t);
                if *realloc {
                    self.src.push("let ");
                    self.src.push_string(&vec);
                    self.src.push(" = (");
                    self.src.push_string(&operands[0]);
                    self.src.push(").into_boxed_slice();\n");
                } else {
                    self.src.push("let ");
                    self.src.push_string(&vec);
                    self.src.push(" = ");
                    self.src.push_string(&operands[0]);
                    self.src.push(";\n");
                }
                self.src.push("let ");
                self.src.push_string(&ptr);
                self.src.push(" = ");
                self.src.push_string(&vec);
                self.src.push(".as_ptr() as i32;\n");
                self.src.push("let ");
                self.src.push_string(&len);
                self.src.push(" = ");
                self.src.push_string(&vec);
                self.src.push(".len() as i32;\n");
                if *realloc {
                    self.src.push("::core::mem::forget(");
                    self.src.push_string(&vec);
                    self.src.push(");\n");
                }
                let mut rs: Vec<String> = Vec::new();
                rs.push(ptr);
                rs.push(len);
                proof {
                    let t = po.tmp as nat;
                    assert(self.src@ =~= po.src@ + (if *realloc {
                        "let "@ + vec_name(t) + " = ("@ + ops[0]@ + ").into_boxed_slice();\n"@
                    } else {
                        "let "@ + vec_name(t) + " = "@ + ops[0]@ + ";\n"@
                    }) + "let "@ + ptr_name(t) + " = "@ + vec_name(t) + ".as_ptr() as i32;\n"@
                        + "let "@ + len_name(t) + " = "@ + vec_name(t) + ".len() as i32;\n"@ + (
                    if *realloc {
                        "::core::mem::forget("@ + vec_name(t) + ");\n"@
                    } else {
                        Seq::<char>::empty()
                    }));
                }
                rs
            },
            Instruction::StringLower { realloc } => {
                let t: usize = self.take_tmp();
                let vec: String = dec_name("vec", t);
                let ptr: String = dec_name("ptr", t);
                let len: String = dec_name("len", t);
                if *realloc {
                    self.src.push("let ");
                    self.src.push_string(&vec);
                    self.src.push(" = (");
                    self.src.push_string(&operands[0]);
                    self.src.push(".into_bytes()).into_boxed_slice();\n");
                } else {
                    self.src.push("let ");
                    self.src.push_string(&vec);
                    self.src.push(" = ");
                    self.src.push_string(&operands[0]);
                    self.src.push(";\n");
                }
                self.src.push("let ");
                self.src.push_string(&ptr);
                self.src.push(" = ");
                self.src.push_string(&vec);
                self.src.push(".as_ptr() as i32;\n");
                self.src.push("let ");
                self.src.push_string(&len);
                self.src.push(" = ");
                self.src.push_string(&vec);
                self.src.push(".len() as i32;\n");
                if *realloc {
                    self.src.push("::core::mem::forget(");
                    self.src.push_string(&vec);
                    self.src.push(");\n");
                }
                let mut rs: Vec<String> = Vec::new();
                rs.push(ptr);
                rs.push(len);
                proof {
                    let t = po.tmp as nat;
                    assert(self.src@ =~= po.src@ + (if *realloc {
                        "let "@ + vec_name(t) + " = ("@ + ops[0]@
                            + ".into_bytes()).into_boxed_slice();\n"@
                    } else {
                        "let "@ + vec_name(t) + " = "@ + ops[0]@ + ";\n"@
                    }) + "let "@ + ptr_name(t) + " = "@ + vec_name(t) + ".as_ptr() as i32;\n"@
                        + "let "@ + len_name(t) + " = "@ + vec_name(t) + ".len() as i32;\n"@ + (
                    if *realloc {
                        "::core::mem::forget("@ + vec_name(t) + ");\n"@
                    } else {
                        Seq::<char>::empty()
                    }));
                }
                rs
            },
            Instruction::ListCanonLift => {
                let t: usize = self.take_tmp();
                let len: String = dec_name("len", t);
                self.src.push("let ");
                self.src.push_string(&len);
                self.src.push(" = ");
                self.src.push_string(&operands[1]);
                self.src.push(" as usize;\n");
                let mut b: Src = Src::new();
                b.push("Vec::from_raw_parts(");
                b.push_string(&operands[0]);
                b.push(" as *mut _, ");
                b.push_string(&len);
                b.push(", ");
                b.push_string(&len);
                b.push(")");
                let mut rs: Vec<String> = Vec::new();
                rs.push(b.into_string());
                proof {
                    let t = po.tmp as nat;
                    assert(self.src@ =~= po.src@ + "let "@ + len_name(t) + " = "@ + ops[1]@
                        + " as usize;\n"@);
                    assert(rs@[0]@ =~= "Vec::from_raw_parts("@ + ops[0]@ + " as *mut _, "@
                        + len_name(t) + ", "@ + len_name(t) + ")"@);
                }
                rs
            },
            Instruction::StringLift => {
                let t: usize = self.take_tmp();
                let len: String = dec_name("len", t);
                self.src.push("let ");
                self.src.push_string(&len);
                self.src.push(" = ");
                self.src.push_string(&operands[1]);
                self.src.push(" as usize;\n");
                let mut raw: Src = Src::new();
                raw.push("Vec::from_raw_parts(");
                raw.push_string(&operands[0]);
                raw.push(" as *mut _, ");
                raw.push_string(&len);
                raw.push(", ");
                raw.push_string(&len);
                raw.push(")");
                let raws: String = raw.into_string();
                let mut rs: Vec<String> = Vec::new();
                if self.raw_strings {
                    rs.push(raws);
                } else if self.checked {
                    let mut b: Src = Src::new();
                    b.push("String::from_utf8(");
                    b.push_string(&raws);
                    b.push(").unwrap()");
                    rs.push(b.into_string());
                } else {
                    let mut b: Src = Src::new();
                    b.push("String::from_utf8_unchecked(");
                    b.push_string(&raws);
                    b.push(")");
                    rs.push(b.into_string());
                }
                proof {
                    let t = po.tmp as nat;
                    assert(self.src@ =~= po.src@ + "let "@ + len_name(t) + " = "@ + ops[1]@
                        + " as usize;\n"@);
                    assert(raws@ =~= "Vec::from_raw_parts("@ + ops[0]@ + " as *mut _, "@
                        + len_name(t) + ", "@ + len_name(t) + ")"@);
                }
                rs
            },
            _ => {
                self.emit_list_loops(reg, inst, operands)
            },
        }
    }

    /// Element-by-element list lowering and lifting.
    #[verifier::rlimit(100)]
    fn emit_list_loops(&mut self, reg: &ResourceRegistry, inst: &Instruction, operands: Vec<String>) -> (rs: Vec<String>)
        requires
            old(self).tmp < 0x1000_0000,
            operands@.len() == inst.num_operands(),
            old(self).blocks@.len() >= inst.blocks_needed(),
            inst_ok(old(self), inst),
            old(self).accounted(),
            !emit_head(*inst),
            !emit_agg(*inst),
            !emit_canon_arm(*inst),
        ensures
            rs@.len() == inst.num_results(),
            final(self).accounted(),
            final(self).tmp <= old(self).tmp + 1,
            emit_post(*old(self), *final(self), reg.entries@, *inst, operands@, rs@),
    {
        let ghost po = *old(self);
        let ghost ops = operands@;
        match inst {
            Instruction::ListLower { size, align, realloc } => {
                let body: String = match self.blocks.pop() {
                    Some(x) => x,
                    None => String::new(),
                };
                let t: usize = self.take_tmp();
                let vec: String = dec_name("vec", t);
                let result: String = dec_name("result", t);
                let layout: String = dec_name("layout", t);
                let len: String = dec_name("len", t);
                self.src.push("let ");
                self.src.push_string(&vec);
                self.src.push(" = ");
                self.src.push_string(&operands[0]);
                self.src.push(";\n");
                self.src.push("let ");
                self.src.push_string(&len);
                self.src.push(" = ");
                self.src.push_string(&vec);
                self.src.push(".len() as i32;\n");
                self.src.push("let ");
                self.src.push_string(&layout);
                self.src.push(" = alloc::Layout::from_size_align_unchecked(");
                self.src.push_string(&vec);
                self.src.push(".len() * ");
                self.src.push_dec(*size as u64);
                self.src.push(", ");
                self.src.push_dec(*align as u64);
                self.src.push(");\n");
                self.src.push("let ");
                self.src.push_string(&result);
                self.src.push(" = if ");
                self.src.push_string(&layout);
                self.src.push(".size() != 0 {\nlet ptr = alloc::alloc(");
                self.src.push_string(&layout);
                self.src.push(");\nif ptr.is_null() {\nalloc::handle_alloc_error(");
                self.src.push_string(&layout);
                self.src.push(");\n}\nptr\n} else {\n::core::ptr::null_mut()\n};\n");
                self.src.push("for (i, e) in ");
                self.src.push_string(&vec);
                self.src.push(".into_iter().enumerate() {\nlet base = ");
                self.src.push_string(&result);
                self.src.push(" as i32 + (i as i32) * ");
                self.src.push_dec(*size as u64);
                self.src.push(";\n");
                self.src.push_string(&body);
                self.src.push("}\n");
                let mut res_expr: String = result.clone();
                res_expr.append(" as i32");
                let mut rs: Vec<String> = Vec::new();
                rs.push(res_expr);
                rs.push(len);
                if !*realloc {
                    self.cleanup.push((result, layout));
                    proof {
                        self.recorded@ = self.recorded@ + 1;
                        assert(self.cleanup@.drop_last() =~= po.cleanup@);
                    }
                }
                proof {
                    let t = po.tmp as nat;
                    assert(self.src@ =~= po.src@ + "let "@ + vec_name(t) + " = "@ + ops[0]@
                        + ";\n"@ + "let "@ + len_name(t) + " = "@ + vec_name(t)
                        + ".len() as i32;\n"@ + "let "@ + layout_name(t)
                        + " = alloc::Layout::from_size_align_unchecked("@ + vec_name(t)
                        + ".len() * "@ + dec_str(*size as nat) + ", "@ + dec_str(*align as nat)
                        + ");\n"@ + "let "@ + result_name(t) + " = if "@ + layout_name(t)
                        + ".size() != 0 {\nlet ptr = alloc::alloc("@ + layout_name(t)
                        + ");\nif ptr.is_null() {\nalloc::handle_alloc_error("@ + layout_name(t)
                        + ");\n}\nptr\n} else {\n::core::ptr::null_mut()\n};\n"@
                        + "for (i, e) in "@ + vec_name(t) + ".into_iter().enumerate() {\nlet base = "@
                        + result_name(t) + " as i32 + (i as i32) * "@ + dec_str(*size as nat)
                        + ";\n"@ + po.blocks@.last()@ + "}\n"@);
                    assert(rs@[0]@ =~= result_name(t) + " as i32"@);
                }
                rs
            },
            Instruction::ListLift { size, align } => {
                let body: String = match self.blocks.pop() {
                    Some(x) => x,
                    None => String::new(),
                };
                let t: usize = self.take_tmp();
                let base: String = dec_name("base", t);
                let len: String = dec_name("len", t);
                let result: String = dec_name("result", t);
                self.src.push("let ");
                self.src.push_string(&base);
                self.src.push(" = ");
                self.src.push_string(&operands[0]);
                self.src.push(";\n");
                self.src.push("let ");
                self.src.push_string(&len);
                self.src.push(" = ");
                self.src.push_string(&operands[1]);
                self.src.push(";\n");
                self.src.push("let mut ");
                self.src.push_string(&result);
                self.src.push(" = Vec::with_capacity(");
                self.src.push_string(&len);
                self.src.push(" as usize);\n");
                self.src.push("for i in 0..");
                self.src.push_string(&len);
                self.src.push(" {\nlet base = ");
                self.src.push_string(&base);
                self.src.push(" + i * ");
                self.src.push_dec(*size as u64);
                self.src.push(";\n");
                self.src.push_string(&result);
                self.src.push(".push(");
                self.src.push_string(&body);
                self.src.push(");\n}\n");
                self.src.push("wit_bindgen::rt::dealloc(");
                self.src.push_string(&base);
                self.src.push(", (");
                self.src.push_string(&len);
                self.src.push(" as usize) * ");
                self.src.push_dec(*size as u64);
                self.src.push(", ");
                self.src.push_dec(*align as u64);
                self.src.push(");\n");
                let mut rs: Vec<String> = Vec::new();
                rs.push(result);
                proof {
                    let t = po.tmp as nat;
                    assert(self.src@ =~= po.src@ + "let "@ + base_name(t) + " = "@ + ops[0]@
                        + ";\n"@ + "let "@ + len_name(t) + " = "@ + ops[1]@ + ";\n"@ + "let mut "@
                        + result_name(t) + " = Vec::with_capacity("@ + len_name(t)
                        + " as usize);\n"@ + "for i in 0.."@ + len_name(t) + " {\nlet base = "@
                        + base_name(t) + " + i * "@ + dec_str(*size as nat) + ";\n"@
                        + result_name(t) + ".push("@ + po.blocks@.last()@ + ");\n}\n"@
                        + "wit_bindgen::rt::dealloc("@ + base_name(t) + ", ("@ + len_name(t)
                        + " as usize) * "@ + dec_str(*size as nat) + ", "@ + dec_str(*align as nat)
                        + ");\n"@);
                }
                rs
            },
            _ => {
                self.emit_call(reg, inst, operands)
            },
        }
    }

    /// Invocation and return instructions.
    #[verifier::rlimit(100)]
    fn emit_call(&mut self, reg: &ResourceRegistry, inst: &Instruction, operands: Vec<String>) -> (rs: Vec<String>)
        requires
            old(self).tmp < 0x1000_0000,
            operands@.len() == inst.num_operands(),
            old(self).blocks@.len() >= inst.blocks_needed(),
            inst_ok(old(self), inst),
            old(self).accounted(),
            !emit_head(*inst),
            !emit_agg(*inst),
            !emit_list_arm(*inst),
        ensures
            rs@.len() == inst.num_results(),
            final(self).accounted(),
            final(self).tmp <= old(self).tmp + 1,
            emit_post(*old(self), *final(self), reg.entries@, *inst, operands@, rs@),
    {
        let ghost po = *old(self);
        let ghost ops = operands@;
        match inst {
            Instruction::CallWasm { name, params, results } => {
                let func: String = self.declare_import(name, params, results);
                if results.len() == 1 {
                    self.src.push("let ret = ");
                }
                self.src.push_string(&func);
                self.src.push("(");
                let j: String = join(&operands, ", ");
                self.src.push_string(&j);
                self.src.push(");\n");
                let mut rs: Vec<String> = Vec::new();
                if results.len() == 1 {
                    rs.push(crate::text::s("ret"));
                }
                proof {
                    assert(self.src@ =~= po.src@ + spec_declare_import(
                        po.wasm_import_module->Some_0@,
                        name@,
                        params@,
                        results@,
                    ) + (if results@.len() == 1 {
                        "let ret = "@
                    } else {
                        Seq::<char>::empty()
                    }) + "wit_import"@ + "("@ + spec_join(ops, ", "@) + ");\n"@);
                }
                rs
            },
            Instruction::CallInterface { kind, name, operand_count, result_count } => {
                let rs: Vec<String> = self.let_results(*result_count);
                match kind {
                    CallKind::Freestanding => {
                        let t: String = match &self.trait_name {
                            Some(t) => t.clone(),
                            None => String::new(),
                        };
                        self.src.push("<");
                        self.src.push_string(&t);
                        self.src.push("Impl as ");
                        self.src.push_string(&t);
                        self.src.push(">::");
                        self.src.push_string(name);
                    },
                    CallKind::Method(r) | CallKind::Static(r) => {
                        self.src.push("<Rep");
                        self.src.push_string(r);
                        self.src.push(" as ");
                        self.src.push_string(r);
                        self.src.push(">::");
                        self.src.push_string(name);
                    },
                    CallKind::Constructor(r) => {
                        self.src.push("Own");
                        self.src.push_string(r);
                        self.src.push("::new(<Rep");
                        self.src.push_string(r);
                        self.src.push(" as ");
                        self.src.push_string(r);
                        self.src.push(">::new");
                    },
                }
                self.src.push("(");
                let j: String = join(&operands, ", ");
                self.src.push_string(&j);
                self.src.push(")");
                match kind {
                    CallKind::Constructor(_) => {
                        self.src.push(")");
                    },
                    _ => {},
                }
                self.src.push(";\n");
                proof {
                    assert(self.src@ =~= po.src@ + spec_let_prefix(*result_count as nat, rs@)
                        + spec_call_target(
                        *kind,
                        (match po.trait_name {
                            Some(t) => t@,
                            None => Seq::<char>::empty(),
                        }),
                        name@,
                    ) + "("@ + spec_join(ops, ", "@) + ")"@ + (match *kind {
                        CallKind::Constructor(_) => ")"@,
                        _ => Seq::<char>::empty(),
                    }) + ";\n"@);
                }
                rs
            },
            Instruction::Return { amt } => {
                self.emit_cleanup();
                if *amt == 1 {
                    self.src.push_string(&operands[0]);
                    self.src.push("\n");
                } else if *amt > 1 {
                    self.src.push("(");
                    let j: String = join(&operands, ", ");
                    self.src.push_string(&j);
                    self.src.push(")\n");
                }
                proof {
                    assert(self.src@ =~= po.src@ + spec_dealloc_stmts(po.cleanup@) + (
                    if po.needs_cleanup_list {
                        spec_cleanup_loop()
                    } else {
                        Seq::<char>::empty()
                    }) + (if *amt == 0 {
                        Seq::<char>::empty()
                    } else if *amt == 1 {
                        ops[0]@ + "\n"@
                    } else {
                        "("@ + spec_join(ops, ", "@) + ")\n"@
                    }));
                }
                Vec::new()
            },
            _ => {
                self.emit_memops(reg, inst, operands)
            },
        }
    }

    /// Raw memory access, deallocation and block instructions.
    #[verifier::rlimit(100)]
    fn emit_memops(&mut self, reg: &ResourceRegistry, inst: &Instruction, operands: Vec<String>) -> (rs: Vec<String>)
        requires
            old(self).tmp < 0x1000_0000,
            operands@.len() == inst.num_operands(),
            old(self).blocks@.len() >= inst.blocks_needed(),
            inst_ok(old(self), inst),
            old(self).accounted(),
            !emit_head(*inst),
            !emit_agg(*inst),
            !emit_list_arm(*inst),
            !emit_call_arm(*inst),
        ensures
            rs@.len() == inst.num_results(),
            final(self).accounted(),
            final(self).tmp <= old(self).tmp + 1,
            emit_post(*old(self), *final(self), reg.entries@, *inst, operands@, rs@),
    {
        let ghost po = *old(self);
        let ghost ops = operands@;
        match inst {
            Instruction::I32Load { offset } => {
                let mut b: Src = Src::new();
                b.push("*((");
                b.push_string(&operands[0]);
                b.push(" + ");
                b.push_dec(*offset as u64);
                b.push(") as *const ");
                b.push("i32");
                b.push(")");
                let mut rs: Vec<String> = Vec::new();
                rs.push(b.into_string());
                rs
            },
            Instruction::I32Load8U { offset } => {
                let mut b: Src = Src::new();
                b.push("i32::from(*((");
                b.push_string(&operands[0]);
                b.push(" + ");
                b.push_dec(*offset as u64);
                b.push(") as *const u8))");
                let mut rs: Vec<String> = Vec::new();
                rs.push(b.into_string());
                rs
            },
            Instruction::I32Load8S { offset } => {
                let mut b: Src = Src::new();
                b.push("i32::from(*((");
                b.push_string(&operands[0]);
                b.push(" + ");
                b.push_dec(*offset as u64);
                b.push(") as *const i8))");
                let mut rs: Vec<String> = Vec::new();
                rs.push(b.into_string());
                rs
            },
            Instruction::I32Load16U { offset } => {
                let mut b: Src = Src::new();
                b.push("i32::from(*((");
                b.push_string(&operands[0]);
                b.push(" + ");
                b.push_dec(*offset as u64);
                b.push(") as *const u16))");
                let mut rs: Vec<String> = Vec::new();
                rs.push(b.into_string());
                rs
            },
            Instruction::I32Load16S { offset } => {
                let mut b: Src = Src::new();
                b.push("i32::from(*((");
                b.push_string(&operands[0]);
                b.push(" + ");
                b.push_dec(*offset as u64);
                b.push(") as *const i16))");
                let mut rs: Vec<String> = Vec::new();
                rs.push(b.into_string());
                rs
            },
            Instruction::I64Load { offset } => {
                let mut b: Src = Src::new();
                b.push("*((");
                b.push_string(&operands[0]);
                b.push(" + ");
                b.push_dec(*offset as u64);
                b.push(") as *const ");
                b.push("i64");
                b.push(")");
                let mut rs: Vec<String> = Vec::new();
                rs.push(b.into_string());
                rs
            },
            Instruction::F32Load { offset } => {
                let mut b: Src = Src::new();
                b.push("*((");
                b.push_string(&operands[0]);
                b.push(" + ");
                b.push_dec(*offset as u64);
                b.push(") as *const ");
                b.push("f32");
                b.push(")");
                let mut rs: Vec<String> = Vec::new();
                rs.push(b.into_string());
                rs
            },
            Instruction::F64Load { offset } => {
                let mut b: Src = Src::new();
                b.push("*((");
                b.push_string(&operands[0]);
                b.push(" + ");
                b.push_dec(*offset as u64);
                b.push(") as *const ");
                b.push("f64");
                b.push(")");
                let mut rs: Vec<String> = Vec::new();
                rs.push(b.into_string());
                rs
            },
            Instruction::I32Store { offset } => {
                self.src.push("*((");
                self.src.push_string(&operands[1]);
                self.src.push(" + ");
                self.src.push_dec(*offset as u64);
                self.src.push(") as *mut ");
                self.src.push("i32");
                self.src.push(") = ");
                self.src.push_string(&operands[0]);
                self.src.push(";\n");
                Vec::new()
            },
            Instruction::I32Store8 { offset } => {
                self.src.push("*((");
                self.src.push_string(&operands[1]);
                self.src.push(" + ");
                self.src.push_dec(*offset as u64);
                self.src.push(") as *mut u8) = (");
                self.src.push_string(&operands[0]);
                self.src.push(") as u8;\n");
                Vec::new()
            },
            Instruction::I32Store16 { offset } => {
                self.src.push("*((");
                self.src.push_string(&operands[1]);
                self.src.push(" + ");
                self.src.push_dec(*offset as u64);
                self.src.push(") as *mut u16) = (");
                self.src.push_string(&operands[0]);
                self.src.push(") as u16;\n");
                Vec::new()
            },
            Instruction::I64Store { offset } => {
                self.src.push("*((");
                self.src.push_string(&operands[1]);
                self.src.push(" + ");
                self.src.push_dec(*offset as u64);
                self.src.push(") as *mut ");
                self.src.push("i64");
                self.src.push(") = ");
                self.src.push_string(&operands[0]);
                self.src.push(";\n");
                Vec::new()
            },
            Instruction::F32Store { offset } => {
                self.src.push("*((");
                self.src.push_string(&operands[1]);
                self.src.push(" + ");
                self.src.push_dec(*offset as u64);
                self.src.push(") as *mut ");
                self.src.push("f32");
                self.src.push(") = ");
                self.src.push_string(&operands[0]);
                self.src.push(";\n");
                Vec::new()
            },
            Instruction::F64Store { offset } => {
                self.src.push("*((");
                self.src.push_string(&operands[1]);
                self.src.push(" + ");
                self.src.push_dec(*offset as u64);
                self.src.push(") as *mut ");
                self.src.push("f64");
                self.src.push(") = ");
                self.src.push_string(&operands[0]);
                self.src.push(";\n");
                Vec::new()
            },
            Instruction::GuestDeallocate { size, align } => {
                self.src.push("wit_bindgen::rt::dealloc(");
                self.src.push_string(&operands[0]);
                self.src.push(", ");
                self.src.push_dec(*size as u64);
                self.src.push(", ");
                self.src.push_dec(*align as u64);
                self.src.push(");\n");
                Vec::new()
            },
            Instruction::GuestDeallocateString => {
                self.src.push("wit_bindgen::rt::dealloc(");
                self.src.push_string(&operands[0]);
                self.src.push(", (");
                self.src.push_string(&operands[1]);
                self.src.push(") as usize, 1);\n");
                Vec::new()
            },
            Instruction::GuestDeallocateVariant { blocks } => {
                let at: usize = self.blocks.len() - *blocks;
                let blks: Vec<String> = self.blocks.split_off(at);
                self.src.push("match ");
                self.src.push_string(&operands[0]);
                self.src.push(" {\n");
                let ghost base = self.src@;
                let mut i: usize = 0;
                while i < blks.len()
                    invariant
                        i <= blks@.len(),
                        self.src@ == base + spec_gdv_arms(blks@, i as int),
                        *self == (FunctionBindgen { src: self.src, blocks: self.blocks, ..po }),
                        self.blocks@ == po.blocks@.take(po.blocks@.len() - blks@.len()),
                    decreases blks@.len() - i,
                {
                    if i == blks.len() - 1 {
                        self.src.push("_");
                    } else {
                        self.src.push_dec(i as u64);
                    }
                    self.src.push(" => ");
                    self.src.push_string(&blks[i]);
                    self.src.push(",\n");
                    proof {
                        assert(self.src@ =~= base + spec_gdv_arms(blks@, i + 1 as int));
                    }
                    i = i + 1;
                }
                self.src.push("}\n");
                Vec::new()
            },
            Instruction::GuestDeallocateList { size, align } => {
                let body: String = match self.blocks.pop() {
                    Some(x) => x,
                    None => String::new(),
                };
                let t: usize = self.take_tmp();
                let base: String = dec_name("base", t);
                let len: String = dec_name("len", t);
                self.src.push("let ");
                self.src.push_string(&base);
                self.src.push(" = ");
                self.src.push_string(&operands[0]);
                self.src.push(";\n");
                self.src.push("let ");
                self.src.push_string(&len);
                self.src.push(" = ");
                self.src.push_string(&operands[1]);
                self.src.push(";\n");
                if !crate::text::str_eq(body.as_str(), "()") {
                    self.src.push("for i in 0..");
                    self.src.push_string(&len);
                    self.src.push(" {\nlet base = ");
                    self.src.push_string(&base);
                    self.src.push(" + i * ");
                    self.src.push_dec(*size as u64);
                    self.src.push(";\n");
                    self.src.push_string(&body);
                    self.src.push("\n}\n");
                }
                self.src.push("wit_bindgen::rt::dealloc(");
                self.src.push_string(&base);
                self.src.push(", (");
                self.src.push_string(&len);
                self.src.push(" as usize) * ");
                self.src.push_dec(*size as u64);
                self.src.push(", ");
                self.src.push_dec(*align as u64);
                self.src.push(");\n");
                proof {
                    let t = po.tmp as nat;
                    let body = po.blocks@.last();
                    assert(self.src@ =~= po.src@ + "let "@ + base_name(t) + " = "@ + ops[0]@
                        + ";\n"@ + "let "@ + len_name(t) + " = "@ + ops[1]@ + ";\n"@ + (
                    if body@ == "()"@ {
                        Seq::<char>::empty()
                    } else {
                        "for i in 0.."@ + len_name(t) + " {\nlet base = "@ + base_name(t)
                            + " + i * "@ + dec_str(*size as nat) + ";\n"@ + body@ + "\n}\n"@
                    }) + "wit_bindgen::rt::dealloc("@ + base_name(t) + ", ("@ + len_name(t)
                        + " as usize) * "@ + dec_str(*size as nat) + ", "@ + dec_str(*align as nat)
                        + ");\n"@);
                }
                Vec::new()
            },
            Instruction::ReturnPointer { size, align } => {
                let name: String = self.return_pointer(*size, *align);
                let mut rs: Vec<String> = Vec::new();
                rs.push(name);
                rs
            },
            Instruction::PushBlock => {
                self.push_block();
                Vec::new()
            },
            Instruction::FinishBlock { result_len } => {
                let _blk: Ghost<Seq<char>> = self.finish_block(operands);
                proof {
                    assert(self.blocks@.drop_last() =~= po.blocks@);
                }
                Vec::new()
            },
            _ => {
                proof {
                    assert(false);
                }
                Vec::new()
            },
        }
    }
}

} // verus!
verus! {

/// How one step moves the return-pointer-area accumulators: only a
/// return-pointer reservation changes them, and only on its own side,
/// where it takes the pointwise maximum.
pub open spec fn rpa_post(pre: FunctionBindgen, post: FunctionBindgen, inst: Instruction) -> bool {
    match inst {
        Instruction::ReturnPointer { size, align } => {
            if pre.in_import {
                &&& post.import_rpa_size == (if size > pre.import_rpa_size {
                    size as int
                } else {
                    pre.import_rpa_size as int
                })
                &&& post.import_rpa_align == (if align > pre.import_rpa_align {
                    align as int
                } else {
                    pre.import_rpa_align as int
                })
                &&& post.export_rpa_size == pre.export_rpa_size
                &&& post.export_rpa_align == pre.export_rpa_align
            } else {
                &&& post.export_rpa_size == (if size > pre.export_rpa_size {
                    size as int
                } else {
                    pre.export_rpa_size as int
                })
                &&& post.export_rpa_align == (if align > pre.export_rpa_align {
                    align as int
                } else {
                    pre.export_rpa_align as int
                })
                &&& post.import_rpa_size == pre.import_rpa_size
                &&& post.import_rpa_align == pre.import_rpa_align
            }
        },
        _ => {
            &&& post.import_rpa_size == pre.import_rpa_size
            &&& post.import_rpa_align == pre.import_rpa_align
            &&& post.export_rpa_size == pre.export_rpa_size
            &&& post.export_rpa_align == pre.export_rpa_align
        },
    }
}

/// How one step moves the block and frame stacks, and the run's
/// configuration fields, which never change.
pub open spec fn stack_post(pre: FunctionBindgen, post: FunctionBindgen, inst: Instruction) -> bool {
    &&& post.blocks@.len() == pre.blocks@.len() - inst.blocks_needed() + (match inst {
        Instruction::FinishBlock { .. } => 1nat,
        _ => 0nat,
    })
    &&& post.frames@.len() == pre.frames@.len() + (match inst {
        Instruction::PushBlock => 1nat,
        _ => 0nat,
    }) - (match inst {
        Instruction::FinishBlock { .. } => 1nat,
        _ => 0nat,
    })
    &&& post.params == pre.params
    &&& post.trait_name == pre.trait_name
    &&& post.in_import == pre.in_import
    &&& post.wasm_import_module == pre.wasm_import_module
    &&& post.raw_strings == pre.raw_strings
    &&& post.checked == pre.checked
}

/// How one step moves the cleanup bookkeeping: obligations recorded by a
/// reallocator-less list lowering, zeroed at a return, saved and restored
/// around blocks, and the runtime-list flag raised exactly when a block
/// closes over pending obligations.
pub open spec fn cleanup_step_post(
    pre: FunctionBindgen,
    post: FunctionBindgen,
    inst: Instruction,
) -> bool {
    &&& post.cleanup@.len() == (match inst {
        Instruction::ListLower { realloc, .. } => if realloc {
            pre.cleanup@.len()
        } else {
            pre.cleanup@.len() + 1
        },
        Instruction::Return { .. } => 0nat,
        Instruction::PushBlock => 0nat,
        Instruction::FinishBlock { .. } => pre.frames@.last().cleanup@.len(),
        _ => pre.cleanup@.len(),
    })
    &&& post.needs_cleanup_list == (pre.needs_cleanup_list || (match inst {
        Instruction::FinishBlock { .. } => pre.cleanup@.len() > 0,
        _ => false,
    }))
    &&& (match inst {
        Instruction::PushBlock => post.frames@.len() == pre.frames@.len() + 1
            && post.frames@.drop_last() == pre.frames@ && post.frames@.last().cleanup@.len()
            == pre.cleanup@.len(),
        Instruction::FinishBlock { .. } => post.frames@ == pre.frames@.drop_last(),
        _ => post.frames@ == pre.frames@,
    })
}

/// The aggregate effects follow from the per-instruction contract.
pub proof fn lemma_emit_steps(
    pre: FunctionBindgen,
    post: FunctionBindgen,
    reg: Seq<Option<crate::registry::ResourceInfo>>,
    inst: Instruction,
    ops: Seq<String>,
    rs: Seq<String>,
)
    requires
        pre.blocks@.len() >= inst.blocks_needed(),
        inst_ok(&pre, &inst),
        emit_post(pre, post, reg, inst, ops, rs),
    ensures
        rpa_post(pre, post, inst),
        stack_post(pre, post, inst),
        cleanup_step_post(pre, post, inst),
{
}

/// The import-side return-pointer area size demanded by a sequence: the
/// maximum reservation, folded left over the instructions.
pub open spec fn seq_rpa_size(instrs: Seq<Instruction>, init: int) -> int
    decreases instrs.len(),
{
    if instrs.len() == 0 {
        init
    } else {
        let rest = seq_rpa_size(instrs.drop_last(), init);
        match instrs.last() {
            Instruction::ReturnPointer { size, .. } => if size > rest {
                size as int
            } else {
                rest
            },
            _ => rest,
        }
    }
}

/// The matching alignment fold.
pub open spec fn seq_rpa_align(instrs: Seq<Instruction>, init: int) -> int
    decreases instrs.len(),
{
    if instrs.len() == 0 {
        init
    } else {
        let rest = seq_rpa_align(instrs.drop_last(), init);
        match instrs.last() {
            Instruction::ReturnPointer { align, .. } => if align > rest {
                align as int
            } else {
                rest
            },
            _ => rest,
        }
    }
}

/// The abstract state a sequence drives the interpreter through: operand
/// stack depth, compiled blocks, saved frames (by their pending-cleanup
/// counts), current pending cleanup, whether anything was deferred to the
/// runtime list, and whether every step so far kept its declared arities.
pub ghost struct RunState {
    pub ok: bool,
    pub stack: nat,
    pub blocks: nat,
    pub frames: Seq<nat>,
    pub cleanup: nat,
    pub deferred: bool,
}

/// Whether one instruction keeps its declared arities and configuration
/// demands in the given abstract state.
pub open spec fn admissible_in_state(
    st: RunState,
    inst: Instruction,
    params_len: nat,
    has_module: bool,
    has_trait: bool,
) -> bool {
    &&& st.stack >= inst.num_operands()
    &&& st.blocks >= inst.blocks_needed()
    &&& (match inst {
        Instruction::GetArg { nth } => nth < params_len,
        Instruction::FlagsLower { words } => words <= 0x0100_0000,
        Instruction::FlagsLift { words, .. } => words <= 0x0100_0000,
        Instruction::CallWasm { results, .. } => has_module && results@.len() <= 1,
        Instruction::CallInterface { kind, .. } => match kind {
            CallKind::Freestanding => has_trait,
            _ => true,
        },
        Instruction::FinishBlock { .. } => st.frames.len() > 0,
        _ => true,
    })
}

/// One step of the abstract run.
pub open spec fn run_step(
    st: RunState,
    inst: Instruction,
    params_len: nat,
    has_module: bool,
    has_trait: bool,
) -> RunState {
    if !st.ok || !admissible_in_state(st, inst, params_len, has_module, has_trait) {
        RunState { ok: false, ..st }
    } else {
        let stack2 = (st.stack - inst.num_operands() + inst.num_results()) as nat;
        let blocks2 = (st.blocks - inst.blocks_needed() + (match inst {
            Instruction::FinishBlock { .. } => 1int,
            _ => 0int,
        })) as nat;
        match inst {
            Instruction::PushBlock => RunState {
                stack: stack2,
                blocks: blocks2,
                frames: st.frames.push(st.cleanup),
                cleanup: 0,
                ..st
            },
            Instruction::FinishBlock { .. } => RunState {
                stack: stack2,
                blocks: blocks2,
                frames: st.frames.drop_last(),
                cleanup: st.frames.last(),
                deferred: st.deferred || st.cleanup > 0,
                ..st
            },
            Instruction::ListLower { realloc, .. } => RunState {
                stack: stack2,
                blocks: blocks2,
                cleanup: if realloc {
                    st.cleanup
                } else {
                    (st.cleanup + 1) as nat
                },
                ..st
            },
            Instruction::Return { .. } => RunState {
                stack: stack2,
                blocks: blocks2,
                cleanup: 0,
                ..st
            },
            _ => RunState { stack: stack2, blocks: blocks2, ..st },
        }
    }
}

/// The abstract run of a whole sequence, folded left.
pub open spec fn run_fold(
    instrs: Seq<Instruction>,
    st: RunState,
    params_len: nat,
    has_module: bool,
    has_trait: bool,
) -> RunState
    decreases instrs.len(),
{
    if instrs.len() == 0 {
        st
    } else {
        run_step(
            run_fold(instrs.drop_last(), st, params_len, has_module, has_trait),
            instrs.last(),
            params_len,
            has_module,
            has_trait,
        )
    }
}

/// The abstract state a run begins in.
pub open spec fn start_state(fb: FunctionBindgen) -> RunState {
    RunState {
        ok: true,
        stack: 0,
        blocks: fb.blocks@.len(),
        frames: Seq::new(fb.frames@.len() as nat, |q: int| fb.frames@[q].cleanup@.len()),
        cleanup: fb.cleanup@.len(),
        deferred: false,
    }
}

/// Whether a sequence conforms to the stack-machine contract when started
/// on the given interpreter: every step keeps its declared operand, block
/// and frame arities, and its configuration demands.
pub open spec fn seq_admissible(fb: FunctionBindgen, instrs: Seq<Instruction>) -> bool {
    run_fold(
        instrs,
        start_state(fb),
        fb.params@.len(),
        fb.wasm_import_module is Some,
        fb.trait_name is Some,
    ).ok
}

/// A run that ends well was well at every prefix.
pub proof fn lemma_fold_ok_prefix(
    instrs: Seq<Instruction>,
    st: RunState,
    params_len: nat,
    has_module: bool,
    has_trait: bool,
    k: int,
)
    requires
        0 <= k <= instrs.len(),
        run_fold(instrs, st, params_len, has_module, has_trait).ok,
    ensures
        run_fold(instrs.take(k), st, params_len, has_module, has_trait).ok,
    decreases instrs.len(),
{
    if k < instrs.len() && instrs.len() > 0 {
        assert(instrs.drop_last().take(k) =~= instrs.take(k));
        lemma_fold_ok_prefix(instrs.drop_last(), st, params_len, has_module, has_trait, k);
    } else {
        assert(instrs.take(k) =~= instrs);
    }
}

impl FunctionBindgen {
    /// Executes a whole instruction sequence against the operand stack.
    /// The run succeeds exactly when the sequence conforms to the
    /// stack-machine contract from this interpreter's state; a sequence
    /// that breaks it is rejected with `None`. On success the stack and
    /// bookkeeping match the abstract run, and each side's return-pointer
    /// accumulator holds exactly the pointwise maximum the sequence
    /// demanded.
    pub fn run(&mut self, reg: &ResourceRegistry, instrs: &Vec<Instruction>) -> (r: Option<
        Vec<String>,
    >)
        requires
            old(self).tmp + instrs@.len() < 0x1000_0000,
            old(self).accounted(),
        ensures
            final(self).accounted(),
            final(self).params == old(self).params,
            final(self).trait_name == old(self).trait_name,
            final(self).in_import == old(self).in_import,
            final(self).wasm_import_module == old(self).wasm_import_module,
            final(self).raw_strings == old(self).raw_strings,
            final(self).checked == old(self).checked,
            r is Some <==> seq_admissible(*old(self), instrs@),
            r is Some ==> {
                let st = run_fold(
                    instrs@,
                    start_state(*old(self)),
                    old(self).params@.len(),
                    old(self).wasm_import_module is Some,
                    old(self).trait_name is Some,
                );
                &&& r->Some_0@.len() == st.stack
                &&& final(self).blocks@.len() == st.blocks
                &&& final(self).cleanup@.len() == st.cleanup
                &&& final(self).frames@.len() == st.frames.len()
                &&& final(self).needs_cleanup_list == (old(self).needs_cleanup_list
                    || st.deferred)
                &&& (old(self).in_import ==> final(self).import_rpa_size == seq_rpa_size(
                    instrs@,
                    old(self).import_rpa_size as int,
                ) && final(self).import_rpa_align == seq_rpa_align(
                    instrs@,
                    old(self).import_rpa_align as int,
                ))
                &&& (!old(self).in_import ==> final(self).export_rpa_size == seq_rpa_size(
                    instrs@,
                    old(self).export_rpa_size as int,
                ) && final(self).export_rpa_align == seq_rpa_align(
                    instrs@,
                    old(self).export_rpa_align as int,
                ))
            },
    {
        let ghost pl = old(self).params@.len();
        let ghost hm = old(self).wasm_import_module is Some;
        let ghost ht = old(self).trait_name is Some;
        let ghost st0 = start_state(*old(self));
        let mut stack: Vec<String> = Vec::new();
        let mut i: usize = 0;
        proof {
            assert(st0.frames =~= Seq::new(
                old(self).frames@.len() as nat,
                |q: int| old(self).frames@[q].cleanup@.len(),
            ));
        }
        while i < instrs.len()
            invariant
                i <= instrs@.len(),
                self.tmp <= old(self).tmp + i,
                old(self).tmp + instrs@.len() < 0x1000_0000,
                self.accounted(),
                self.params == old(self).params,
                self.trait_name == old(self).trait_name,
                self.in_import == old(self).in_import,
                self.wasm_import_module == old(self).wasm_import_module,
                self.raw_strings == old(self).raw_strings,
                self.checked == old(self).checked,
                pl == old(self).params@.len(),
                hm == (old(self).wasm_import_module is Some),
                ht == (old(self).trait_name is Some),
                st0 == start_state(*old(self)),
                run_fold(instrs@.take(i as int), st0, pl, hm, ht).ok,
                stack@.len() == run_fold(instrs@.take(i as int), st0, pl, hm, ht).stack,
                self.blocks@.len() == run_fold(instrs@.take(i as int), st0, pl, hm, ht).blocks,
                self.cleanup@.len() == run_fold(instrs@.take(i as int), st0, pl, hm, ht).cleanup,
                self.frames@.len() == run_fold(
                    instrs@.take(i as int),
                    st0,
                    pl,
                    hm,
                    ht,
                ).frames.len(),
                forall|q: int|
                    0 <= q < self.frames@.len() ==> (#[trigger] self.frames@[q]).cleanup@.len()
                        == run_fold(instrs@.take(i as int), st0, pl, hm, ht).frames[q],
                self.needs_cleanup_list == (old(self).needs_cleanup_list || run_fold(
                    instrs@.take(i as int),
                    st0,
                    pl,
                    hm,
                    ht,
                ).deferred),
                old(self).in_import ==> self.import_rpa_size == seq_rpa_size(
                    instrs@.take(i as int),
                    old(self).import_rpa_size as int,
                ) && self.import_rpa_align == seq_rpa_align(
                    instrs@.take(i as int),
                    old(self).import_rpa_align as int,
                ),
                !old(self).in_import ==> self.export_rpa_size == seq_rpa_size(
                    instrs@.take(i as int),
                    old(self).export_rpa_size as int,
                ) && self.export_rpa_align == seq_rpa_align(
                    instrs@.take(i as int),
                    old(self).export_rpa_align as int,
                ),
            decreases instrs@.len() - i,
        {
            let ghost sti = run_fold(instrs@.take(i as int), st0, pl, hm, ht);
            let inst: &Instruction = &instrs[i];
            proof {
                assert(instrs@.take(i + 1 as int).drop_last() =~= instrs@.take(i as int));
                assert(instrs@.take(i + 1 as int).last() == instrs@[i as int]);
            }
            let needed: usize = inst.operands();
            let blocks_needed: usize = match inst {
                Instruction::VariantLower { cases, .. } => cases.len(),
                Instruction::VariantLift { cases, .. } => cases.len(),
                Instruction::UnionLower { cases, .. } => cases.len(),
                Instruction::UnionLift { cases, .. } => cases.len(),
                Instruction::OptionLower { .. } => 2,
                Instruction::OptionLift => 2,
                Instruction::ResultLower { .. } => 2,
                Instruction::ResultLift => 2,
                Instruction::ListLower { .. } => 1,
                Instruction::ListLift { .. } => 1,
                Instruction::GuestDeallocateVariant { blocks } => *blocks,
                Instruction::GuestDeallocateList { .. } => 1,
                _ => 0,
            };
            proof {
                assert(blocks_needed == inst.blocks_needed());
            }
            let config_ok: bool = match inst {
                Instruction::GetArg { nth } => *nth < self.params.len(),
                Instruction::FlagsLower { words } => *words <= 0x0100_0000,
                Instruction::FlagsLift { words, .. } => *words <= 0x0100_0000,
                Instruction::CallWasm { results, .. } => match &self.wasm_import_module {
                    Some(_) => results.len() <= 1,
                    None => false,
                },
                Instruction::CallInterface { kind, .. } => match kind {
                    CallKind::Freestanding => match &self.trait_name {
                        Some(_) => true,
                        None => false,
                    },
                    _ => true,
                },
                Instruction::FinishBlock { .. } => self.frames.len() > 0,
                _ => true,
            };
            if stack.len() < needed || self.blocks.len() < blocks_needed || !config_ok {
                proof {
                    assert(!admissible_in_state(sti, instrs@[i as int], pl, hm, ht));
                    assert(!run_fold(instrs@.take(i + 1 as int), st0, pl, hm, ht).ok);
                    if seq_admissible(*old(self), instrs@) {
                        lemma_fold_ok_prefix(instrs@, st0, pl, hm, ht, i + 1 as int);
                    }
                }
                return None;
            }
            let at: usize = stack.len() - needed;
            let operands: Vec<String> = stack.split_off(at);
            let ghost pre = *self;
            let rs: Vec<String> = self.emit(reg, inst, operands);
            proof {
                lemma_emit_steps(pre, *self, reg.entries@, *inst, operands@, rs@);
                let stn = run_fold(instrs@.take(i + 1 as int), st0, pl, hm, ht);
                assert(stn == run_step(sti, instrs@[i as int], pl, hm, ht));
                assert forall|q: int| 0 <= q < self.frames@.len() implies (
                #[trigger] self.frames@[q]).cleanup@.len() == stn.frames[q] by {
                    match instrs@[i as int] {
                        Instruction::PushBlock => {
                            if q < pre.frames@.len() {
                                assert(self.frames@[q] == pre.frames@[q]);
                            }
                        },
                        Instruction::FinishBlock { .. } => {
                            assert(self.frames@[q] == pre.frames@[q]);
                        },
                        _ => {},
                    }
                }
            }
            let mut rsm: Vec<String> = rs;
            stack.append(&mut rsm);
            i = i + 1;
        }
        proof {
            assert(instrs@.take(instrs@.len() as int) =~= instrs@);
        }
        Some(stack)
    }
}

} // verus!
