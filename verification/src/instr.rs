//! The abstract instruction set the ABI interpreter executes.
//!
//! A collaborating resolver compiles each function (and each type needing
//! (de)serialization glue) into one flat sequence of these instructions,
//! already annotated with the names, layouts and calling-convention facts
//! the interpreter needs: the interpreter itself never walks the type
//! graph. Every instruction declares exactly how many operands it consumes,
//! how many results it pushes, and how many previously compiled blocks it
//! absorbs; a well-formed sequence keeps the operand stack balanced.

use vstd::prelude::*;

verus! {

/// The four value types of the flattened core calling convention.
#[derive(Clone, Copy, PartialEq, Eq, Structural, Debug)]
pub enum WasmType {
    I32,
    I64,
    F32,
    F64,
}

/// The Rust spelling of a core value type.
pub open spec fn spec_wasm_type_name(t: WasmType) -> Seq<char> {
    match t {
        WasmType::I32 => "i32"@,
        WasmType::I64 => "i64"@,
        WasmType::F32 => "f32"@,
        WasmType::F64 => "f64"@,
    }
}

/// Names a core value type in Rust.
pub fn wasm_type_name(t: WasmType) -> (r: &'static str)
    ensures
        r@ == spec_wasm_type_name(t),
{
    match t {
        WasmType::I32 => "i32",
        WasmType::I64 => "i64",
        WasmType::F32 => "f32",
        WasmType::F64 => "f64",
    }
}

/// Reinterpretations between core value types, used when one flattened slot
/// carries differently typed payloads across variant cases.
#[derive(Clone, Copy, PartialEq, Eq, Structural, Debug)]
pub enum Bitcast {
    F32ToI32,
    F64ToI64,
    I32ToI64,
    F32ToI64,
    F32ToF64,
    F64ToF32,
    I32ToF32,
    I64ToF64,
    I64ToI32,
    I64ToF32,
    NoCast,
}

/// The shape of the local implementation a lifted call dispatches to.
pub enum CallKind {
    /// A free function of the implementing type.
    Freestanding,
    /// An instance method: the receiver is the resource representation.
    Method(String),
    /// A static function of the resource's trait.
    Static(String),
    /// A constructor: the result is wrapped in the owning handle type.
    Constructor(String),
}

/// One step of the marshalling stack machine.
pub enum Instruction {
    /// Pushes the `nth` argument of the generated function.
    GetArg { nth: usize },
    /// Pushes a 32-bit integer literal.
    I32Const { val: i32 },
    /// Pushes one zero literal per listed core type.
    ConstZero { tys: Vec<WasmType> },
    /// 64-bit integers widen through the runtime helper.
    I64FromU64,
    I64FromS64,
    /// Small scalars widen to `i32` through the runtime helper.
    I32FromChar,
    I32FromU8,
    I32FromS8,
    I32FromU16,
    I32FromS16,
    I32FromU32,
    I32FromS32,
    F32FromFloat32,
    F64FromFloat64,
    /// Identity coercions.
    Float32FromF32,
    Float64FromF64,
    S32FromI32,
    S64FromI64,
    /// Narrowing casts written with `as`.
    S8FromI32,
    U8FromI32,
    S16FromI32,
    U16FromI32,
    U32FromI32,
    U64FromI64,
    /// Character decoding; checked mode validates the scalar value.
    CharFromI32,
    /// Slot-by-slot reinterpretations.
    Bitcasts { casts: Vec<Bitcast> },
    I32FromBool,
    /// Boolean decoding; checked mode rejects values other than 0 and 1.
    BoolFromI32,
    /// Spreads a flags value over `words` 32-bit result slots.
    FlagsLower { words: usize },
    /// Rebuilds a flags value of type `path` (backed by `repr`) from
    /// `words` operand slots.
    FlagsLift { words: usize, path: String, repr: String },
    /// Relinquishes ownership of an owned handle, yielding the raw index.
    HandleLowerOwn,
    /// Reads a borrowed handle's raw index without affecting ownership.
    HandleLowerBorrow,
    /// Rebuilds a handle of resource `resource` (named `path`); the
    /// representation depends on the resource's registered direction.
    HandleLift { own: bool, resource: usize, path: String },
    /// Destructures a record into one result per field.
    RecordLower { fields: Vec<String>, path: String },
    /// Rebuilds a record from one operand per field.
    RecordLift { fields: Vec<String>, path: String },
    TupleLower { len: usize },
    TupleLift { len: usize },
    /// The name a compiled case body refers to its payload by.
    VariantPayloadName,
    /// Dispatches over a variant's cases; each case consumed one block.
    VariantLower { cases: Vec<(String, bool)>, path: String, result_len: usize },
    /// Rebuilds a variant from its discriminant; checked mode rejects
    /// discriminants outside the case range.
    VariantLift { cases: Vec<(String, bool)>, path: String },
    UnionLower { cases: Vec<String>, path: String, result_len: usize },
    UnionLift { cases: Vec<String>, path: String },
    OptionLower { result_len: usize },
    OptionLift,
    ResultLower { result_len: usize, has_ok: bool, has_err: bool },
    ResultLift,
    EnumLower { cases: Vec<String>, path: String },
    EnumLift { cases: Vec<String>, path: String, repr: String },
    /// Lowers a list whose elements transfer bit-identically: pointer and
    /// length, no per-element work.
    ListCanonLower { realloc: bool },
    ListCanonLift,
    StringLower { realloc: bool },
    StringLift,
    /// Lowers a list element by element into a fresh allocation; the one
    /// absorbed block is the element's lower body. `size` and `align` are
    /// the element layout as the oracle gives it. Without an external
    /// reallocator the allocation becomes a cleanup obligation.
    ListLower { size: usize, align: usize, realloc: bool },
    /// Lifts a list element by element, then frees the source buffer.
    ListLift { size: usize, align: usize },
    IterElem,
    IterBasePointer,
    /// Declares and calls the external symbol `name` with the given core
    /// signature.
    CallWasm { name: String, params: Vec<WasmType>, results: Vec<WasmType> },
    /// Calls into the bound local implementation, consuming the lifted
    /// arguments.
    CallInterface { kind: CallKind, name: String, operand_count: usize, result_count: usize },
    /// Discharges outstanding cleanup, then returns `amt` values.
    Return { amt: usize },
    I32Load { offset: usize },
    I32Load8U { offset: usize },
    I32Load8S { offset: usize },
    I32Load16U { offset: usize },
    I32Load16S { offset: usize },
    I64Load { offset: usize },
    F32Load { offset: usize },
    F64Load { offset: usize },
    I32Store { offset: usize },
    I32Store8 { offset: usize },
    I32Store16 { offset: usize },
    I64Store { offset: usize },
    F32Store { offset: usize },
    F64Store { offset: usize },
    /// Frees `size`/`align` bytes at the operand pointer.
    GuestDeallocate { size: usize, align: usize },
    GuestDeallocateString,
    /// Dispatches deallocation over `blocks` absorbed case bodies.
    GuestDeallocateVariant { blocks: usize },
    GuestDeallocateList { size: usize, align: usize },
    /// Reserves a return-pointer area of the given layout and pushes its
    /// address; import and export sides accumulate separately.
    ReturnPointer { size: usize, align: usize },
    /// Opens a nested emission block (a case body, a list element body).
    PushBlock,
    /// Closes the innermost block, publishing it as a compiled block.
    FinishBlock { result_len: usize },
}

impl Instruction {
    /// How many operands the instruction pops.
    pub open spec fn num_operands(&self) -> nat {
        match *self {
            Instruction::GetArg { .. } => 0,
            Instruction::I32Const { .. } => 0,
            Instruction::ConstZero { .. } => 0,
            Instruction::Bitcasts { casts } => casts@.len(),
            Instruction::FlagsLift { words, .. } => words as nat,
            Instruction::RecordLift { fields, .. } => fields@.len(),
            Instruction::TupleLift { len } => len as nat,
            Instruction::VariantPayloadName => 0,
            Instruction::ListCanonLift => 2,
            Instruction::StringLift => 2,
            Instruction::ListLift { .. } => 2,
            Instruction::IterElem => 0,
            Instruction::IterBasePointer => 0,
            Instruction::CallWasm { params, .. } => params@.len(),
            Instruction::CallInterface { operand_count, .. } => operand_count as nat,
            Instruction::Return { amt } => amt as nat,
            Instruction::I32Store { .. } => 2,
            Instruction::I32Store8 { .. } => 2,
            Instruction::I32Store16 { .. } => 2,
            Instruction::I64Store { .. } => 2,
            Instruction::F32Store { .. } => 2,
            Instruction::F64Store { .. } => 2,
            Instruction::GuestDeallocate { .. } => 1,
            Instruction::GuestDeallocateString => 2,
            Instruction::GuestDeallocateVariant { .. } => 1,
            Instruction::GuestDeallocateList { .. } => 2,
            Instruction::ReturnPointer { .. } => 0,
            Instruction::PushBlock => 0,
            Instruction::FinishBlock { result_len } => result_len as nat,
            _ => 1,
        }
    }

    /// How many results the instruction pushes.
    pub open spec fn num_results(&self) -> nat {
        match *self {
            Instruction::ConstZero { tys } => tys@.len(),
            Instruction::Bitcasts { casts } => casts@.len(),
            Instruction::FlagsLower { words } => words as nat,
            Instruction::RecordLower { fields, .. } => fields@.len(),
            Instruction::TupleLower { len } => len as nat,
            Instruction::VariantLower { result_len, .. } => result_len as nat,
            Instruction::UnionLower { result_len, .. } => result_len as nat,
            Instruction::OptionLower { result_len } => result_len as nat,
            Instruction::ResultLower { result_len, .. } => result_len as nat,
            Instruction::ListCanonLower { .. } => 2,
            Instruction::StringLower { .. } => 2,
            Instruction::ListLower { .. } => 2,
            Instruction::CallWasm { results, .. } => results@.len(),
            Instruction::CallInterface { result_count, .. } => result_count as nat,
            Instruction::Return { .. } => 0,
            Instruction::I32Store { .. } => 0,
            Instruction::I32Store8 { .. } => 0,
            Instruction::I32Store16 { .. } => 0,
            Instruction::I64Store { .. } => 0,
            Instruction::F32Store { .. } => 0,
            Instruction::F64Store { .. } => 0,
            Instruction::GuestDeallocate { .. } => 0,
            Instruction::GuestDeallocateString => 0,
            Instruction::GuestDeallocateVariant { .. } => 0,
            Instruction::GuestDeallocateList { .. } => 0,
            Instruction::PushBlock => 0,
            Instruction::FinishBlock { .. } => 0,
            _ => 1,
        }
    }

    /// How many compiled blocks the instruction absorbs.
    pub open spec fn blocks_needed(&self) -> nat {
        match *self {
            Instruction::VariantLower { cases, .. } => cases@.len(),
            Instruction::VariantLift { cases, .. } => cases@.len(),
            Instruction::UnionLower { cases, .. } => cases@.len(),
            Instruction::UnionLift { cases, .. } => cases@.len(),
            Instruction::OptionLower { .. } => 2,
            Instruction::OptionLift => 2,
            Instruction::ResultLower { .. } => 2,
            Instruction::ResultLift => 2,
            Instruction::ListLower { .. } => 1,
            Instruction::ListLift { .. } => 1,
            Instruction::GuestDeallocateVariant { blocks } => blocks as nat,
            Instruction::GuestDeallocateList { .. } => 1,
            _ => 0,
        }
    }

    /// The operand count, computed.
    pub fn operands(&self) -> (r: usize)
        ensures
            r == self.num_operands(),
    {
        match self {
            Instruction::GetArg { .. } => 0,
            Instruction::I32Const { .. } => 0,
            Instruction::ConstZero { .. } => 0,
            Instruction::Bitcasts { casts } => casts.len(),
            Instruction::FlagsLift { words, .. } => *words,
            Instruction::RecordLift { fields, .. } => fields.len(),
            Instruction::TupleLift { len } => *len,
            Instruction::VariantPayloadName => 0,
            Instruction::ListCanonLift => 2,
            Instruction::StringLift => 2,
            Instruction::ListLift { .. } => 2,
            Instruction::IterElem => 0,
            Instruction::IterBasePointer => 0,
            Instruction::CallWasm { params, .. } => params.len(),
            Instruction::CallInterface { operand_count, .. } => *operand_count,
            Instruction::Return { amt } => *amt,
            Instruction::I32Store { .. } => 2,
            Instruction::I32Store8 { .. } => 2,
            Instruction::I32Store16 { .. } => 2,
            Instruction::I64Store { .. } => 2,
            Instruction::F32Store { .. } => 2,
            Instruction::F64Store { .. } => 2,
            Instruction::GuestDeallocate { .. } => 1,
            Instruction::GuestDeallocateString => 2,
            Instruction::GuestDeallocateVariant { .. } => 1,
            Instruction::GuestDeallocateList { .. } => 2,
            Instruction::ReturnPointer { .. } => 0,
            Instruction::PushBlock => 0,
            Instruction::FinishBlock { result_len } => *result_len,
            _ => 1,
        }
    }

    /// The result count, computed.
    pub fn results(&self) -> (r: usize)
        ensures
            r == self.num_results(),
    {
        match self {
            Instruction::ConstZero { tys } => tys.len(),
            Instruction::Bitcasts { casts } => casts.len(),
            Instruction::FlagsLower { words } => *words,
            Instruction::RecordLower { fields, .. } => fields.len(),
            Instruction::TupleLower { len } => *len,
            Instruction::VariantLower { result_len, .. } => *result_len,
            Instruction::UnionLower { result_len, .. } => *result_len,
            Instruction::OptionLower { result_len } => *result_len,
            Instruction::ResultLower { result_len, .. } => *result_len,
            Instruction::ListCanonLower { .. } => 2,
            Instruction::StringLower { .. } => 2,
            Instruction::ListLower { .. } => 2,
            Instruction::CallWasm { results, .. } => results.len(),
            Instruction::CallInterface { result_count, .. } => *result_count,
            Instruction::Return { .. } => 0,
            Instruction::I32Store { .. } => 0,
            Instruction::I32Store8 { .. } => 0,
            Instruction::I32Store16 { .. } => 0,
            Instruction::I64Store { .. } => 0,
            Instruction::F32Store { .. } => 0,
            Instruction::F64Store { .. } => 0,
            Instruction::GuestDeallocate { .. } => 0,
            Instruction::GuestDeallocateString => 0,
            Instruction::GuestDeallocateVariant { .. } => 0,
            Instruction::GuestDeallocateList { .. } => 0,
            Instruction::PushBlock => 0,
            Instruction::FinishBlock { .. } => 0,
            _ => 1,
        }
    }
}

} // verus!
