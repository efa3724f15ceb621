use vstd::prelude::*;

use crate::errors::DecodeError;
use crate::utils::{spec_uleb128_u32, uleb128_decode_u32};

verus! {

// ---------------------------------------------------------------------------
// The type system of the binary format: value types, function types, limits,
// table types and global types, each decoded from its fixed byte encoding.
// ---------------------------------------------------------------------------

/// The four number types, one byte each: 0x7F, 0x7E, 0x7D, 0x7C.
#[derive(Debug, Clone, Copy, PartialEq, Eq)]
pub enum NumberType {
    I32,
    I64,
    F32,
    F64,
}

/// The two reference types, one byte each: 0x70, 0x6F.
#[derive(Debug, Clone, Copy, PartialEq, Eq)]
pub enum ReferenceType {
    FuncRef,
    ExternRef,
}

/// A value type byte.  The vector type (0x7B) is reserved and never decoded.
#[derive(Debug, Clone, Copy, PartialEq, Eq)]
pub enum ValueType {
    NumType(NumberType),
    VectorType,
    RefType(ReferenceType),
}

/// The limits tag byte: 0 means no declared maximum, 1 means a maximum
/// follows the minimum.
#[derive(Debug, Clone, Copy, PartialEq, Eq)]
pub enum Tag {
    Zero,
    One,
}

/// A minimum and optional maximum size bound, used by tables and memories.
#[derive(Debug, Clone, Copy, PartialEq, Eq)]
pub struct Limits {
    pub tag: Tag,
    pub min: u32,
    pub max: Option<u32>,
}

/// Mutability byte of a global: 0 immutable, 1 mutable.
#[derive(Debug, Clone, Copy, PartialEq, Eq)]
pub enum Mutable {
    No,
    Yes,
}

/// The type of a global: a value type plus its mutability.
#[derive(Debug, Clone, Copy, PartialEq, Eq)]
pub struct GlobalType {
    pub val_type: ValueType,
    pub mutable: Mutable,
}

/// The type of a table: the reference type of its elements plus limits.
#[derive(Debug, Clone, Copy, PartialEq, Eq)]
pub struct TableType {
    pub ref_type: ReferenceType,
    pub limits: Limits,
}

/// A function type: parameter types and result types, in order.
#[derive(Debug, Clone, PartialEq, Eq)]
pub struct FunctionType {
    pub param_types: Vec<ValueType>,
    pub return_types: Vec<ValueType>,
}

/// Mathematical shape of a `FunctionType`.
pub struct FunctionTypeV {
    pub param_types: Seq<ValueType>,
    pub return_types: Seq<ValueType>,
}

impl View for FunctionType {
    type V = FunctionTypeV;

    open spec fn view(&self) -> FunctionTypeV {
        FunctionTypeV { param_types: self.param_types@, return_types: self.return_types@ }
    }
}

// ---------------------------------------------------------------------------
// Ground truth
// ---------------------------------------------------------------------------

/// What a single value-type byte decodes to.
pub open spec fn spec_value_type(b: u8) -> Result<ValueType, DecodeError> {
    if b == 0x7F {
        Ok(ValueType::NumType(NumberType::I32))
    } else if b == 0x7E {
        Ok(ValueType::NumType(NumberType::I64))
    } else if b == 0x7D {
        Ok(ValueType::NumType(NumberType::F32))
    } else if b == 0x7C {
        Ok(ValueType::NumType(NumberType::F64))
    } else if b == 0x70 {
        Ok(ValueType::RefType(ReferenceType::FuncRef))
    } else if b == 0x6F {
        Ok(ValueType::RefType(ReferenceType::ExternRef))
    } else {
        Err(DecodeError::InvalidValueType)
    }
}

/// What a reference-type byte decodes to.
pub open spec fn spec_reference_type(b: u8) -> Result<ReferenceType, DecodeError> {
    if b == 0x70 {
        Ok(ReferenceType::FuncRef)
    } else if b == 0x6F {
        Ok(ReferenceType::ExternRef)
    } else {
        Err(DecodeError::InvalidValueType)
    }
}

/// `count` value-type bytes in a row starting at `off`.
pub open spec fn spec_value_types(s: Seq<u8>, off: nat, count: nat) -> Result<(Seq<ValueType>, nat), DecodeError>
    decreases count,
{
    if count == 0 {
        Ok((Seq::empty(), off))
    } else if off >= s.len() {
        Err(DecodeError::UnexpectedEof)
    } else {
        match spec_value_type(s[off as int]) {
            Err(e) => Err(e),
            Ok(vt) => match spec_value_types(s, off + 1, (count - 1) as nat) {
                Err(e) => Err(e),
                Ok((rest, end)) => Ok((seq![vt] + rest, end)),
            },
        }
    }
}

/// A function type at `off`: the 0x60 tag, a parameter count and that many
/// value types, then a result count and that many value types.
pub open spec fn spec_function_type(s: Seq<u8>, off: nat) -> Result<(FunctionTypeV, nat), DecodeError> {
    if off >= s.len() {
        Err(DecodeError::UnexpectedEof)
    } else if s[off as int] != 0x60 {
        Err(DecodeError::InvalidFunctionTypeTag)
    } else {
        match spec_uleb128_u32(s, off + 1) {
            Err(e) => Err(e),
            Ok((pcount, o1)) => match spec_value_types(s, o1, pcount as nat) {
                Err(e) => Err(e),
                Ok((params, o2)) => match spec_uleb128_u32(s, o2) {
                    Err(e) => Err(e),
                    Ok((rcount, o3)) => match spec_value_types(s, o3, rcount as nat) {
                        Err(e) => Err(e),
                        Ok((results, o4)) => Ok(
                            (FunctionTypeV { param_types: params, return_types: results }, o4),
                        ),
                    },
                },
            },
        }
    }
}

/// Limits at `off`: a tag byte (0 or 1), a minimum, and, under tag 1, a
/// maximum.
pub open spec fn spec_limits(s: Seq<u8>, off: nat) -> Result<(Limits, nat), DecodeError> {
    if off >= s.len() {
        Err(DecodeError::UnexpectedEof)
    } else if s[off as int] == 0 {
        match spec_uleb128_u32(s, off + 1) {
            Err(e) => Err(e),
            Ok((min, end)) => Ok((Limits { tag: Tag::Zero, min, max: None }, end)),
        }
    } else if s[off as int] == 1 {
        match spec_uleb128_u32(s, off + 1) {
            Err(e) => Err(e),
            Ok((min, o1)) => match spec_uleb128_u32(s, o1) {
                Err(e) => Err(e),
                Ok((max, end)) => Ok((Limits { tag: Tag::One, min, max: Some(max) }, end)),
            },
        }
    } else {
        Err(DecodeError::InvalidLimitsTag)
    }
}

/// A table type at `off`: a reference-type byte followed by limits.
pub open spec fn spec_table_type(s: Seq<u8>, off: nat) -> Result<(TableType, nat), DecodeError> {
    if off >= s.len() {
        Err(DecodeError::UnexpectedEof)
    } else {
        match spec_reference_type(s[off as int]) {
            Err(e) => Err(e),
            Ok(rt) => match spec_limits(s, off + 1) {
                Err(e) => Err(e),
                Ok((limits, end)) => Ok((TableType { ref_type: rt, limits }, end)),
            },
        }
    }
}

/// A global type at `off`: a value-type byte followed by a mutability byte.
pub open spec fn spec_global_type(s: Seq<u8>, off: nat) -> Result<(GlobalType, nat), DecodeError> {
    if off >= s.len() {
        Err(DecodeError::UnexpectedEof)
    } else {
        match spec_value_type(s[off as int]) {
            Err(e) => Err(e),
            Ok(vt) => if off + 1 >= s.len() {
                Err(DecodeError::UnexpectedEof)
            } else if s[off as int + 1] == 0 {
                Ok((GlobalType { val_type: vt, mutable: Mutable::No }, off + 2))
            } else if s[off as int + 1] == 1 {
                Ok((GlobalType { val_type: vt, mutable: Mutable::Yes }, off + 2))
            } else {
                Err(DecodeError::InvalidMutabilityTag)
            },
        }
    }
}

// ---------------------------------------------------------------------------
// Executable decoders
// ---------------------------------------------------------------------------

/// Decode one value-type byte.
pub fn value_type_from_byte(b: u8) -> (r: Result<ValueType, DecodeError>)
    ensures
        r == spec_value_type(b),
{
    if b == 0x7F {
        Ok(ValueType::NumType(NumberType::I32))
    } else if b == 0x7E {
        Ok(ValueType::NumType(NumberType::I64))
    } else if b == 0x7D {
        Ok(ValueType::NumType(NumberType::F32))
    } else if b == 0x7C {
        Ok(ValueType::NumType(NumberType::F64))
    } else if b == 0x70 {
        Ok(ValueType::RefType(ReferenceType::FuncRef))
    } else if b == 0x6F {
        Ok(ValueType::RefType(ReferenceType::ExternRef))
    } else {
        Err(DecodeError::InvalidValueType)
    }
}

/// Decode one reference-type byte.
pub fn reference_type_from_byte(b: u8) -> (r: Result<ReferenceType, DecodeError>)
    ensures
        r == spec_reference_type(b),
{
    if b == 0x70 {
        Ok(ReferenceType::FuncRef)
    } else if b == 0x6F {
        Ok(ReferenceType::ExternRef)
    } else {
        Err(DecodeError::InvalidValueType)
    }
}

/// Decode `count` consecutive value-type bytes.
pub fn decode_value_types(bytes: &[u8], offset: usize, count: u32) -> (r: Result<
    (Vec<ValueType>, usize),
    DecodeError,
>)
    ensures
        ({
            let sr = spec_value_types(bytes@, offset as nat, count as nat);
            match r {
                Ok((v, end)) => sr == Ok::<(Seq<ValueType>, nat), DecodeError>((v@, end as nat))
                    && offset <= end && (end <= bytes@.len() || end == offset),
                Err(e) => sr == Err::<(Seq<ValueType>, nat), DecodeError>(e),
            }
        }),
{
    let mut acc: Vec<ValueType> = Vec::new();
    let mut cur = offset;
    let mut i: u32 = 0;
    while i < count
        invariant
            i <= count,
            offset <= cur && (cur <= bytes@.len() || cur == offset),
            acc@.len() == i as nat,
            ({
                let whole = spec_value_types(bytes@, offset as nat, count as nat);
                match spec_value_types(bytes@, cur as nat, (count - i) as nat) {
                    Ok((rest, end)) => whole == Ok::<(Seq<ValueType>, nat), DecodeError>(
                        (acc@ + rest, end),
                    ),
                    Err(e) => whole == Err::<(Seq<ValueType>, nat), DecodeError>(e),
                }
            }),
        decreases count - i,
    {
        if cur >= bytes.len() {
            return Err(DecodeError::UnexpectedEof);
        }
        let b = bytes[cur];
        match value_type_from_byte(b) {
            Err(e) => {
                return Err(e);
            },
            Ok(vt) => {
                proof {
                    match spec_value_types(bytes@, cur as nat + 1, (count - i - 1) as nat) {
                        Ok((rest, end)) => {
                            assert(acc@ + (seq![vt] + rest) =~= acc@.push(vt) + rest);
                        },
                        Err(_) => {},
                    }
                }
                acc.push(vt);
                cur = cur + 1;
                i = i + 1;
            },
        }
    }
    proof {
        assert(acc@ + Seq::<ValueType>::empty() =~= acc@);
    }
    Ok((acc, cur))
}

/// Decode limits at `offset`.
impl Limits {
    pub fn from_bytes(bytes: &[u8], offset: usize) -> (r: Result<(Limits, usize), DecodeError>)
        ensures
            ({
                let sr = spec_limits(bytes@, offset as nat);
                match r {
                    Ok((l, end)) => sr == Ok::<(Limits, nat), DecodeError>((l, end as nat))
                        && offset < end <= bytes@.len(),
                    Err(e) => sr == Err::<(Limits, nat), DecodeError>(e),
                }
            }),
    {
        if offset >= bytes.len() {
            return Err(DecodeError::UnexpectedEof);
        }
        let tag = bytes[offset];
        if tag == 0 {
            match uleb128_decode_u32(bytes, offset + 1) {
                Err(e) => Err(e),
                Ok((min, end)) => Ok((Limits { tag: Tag::Zero, min, max: None }, end)),
            }
        } else if tag == 1 {
            match uleb128_decode_u32(bytes, offset + 1) {
                Err(e) => Err(e),
                Ok((min, o1)) => match uleb128_decode_u32(bytes, o1) {
                    Err(e) => Err(e),
                    Ok((max, end)) => Ok((Limits { tag: Tag::One, min, max: Some(max) }, end)),
                },
            }
        } else {
            Err(DecodeError::InvalidLimitsTag)
        }
    }
}

/// Decode a table type at `offset`.
impl TableType {
    pub fn from_bytes(bytes: &[u8], offset: usize) -> (r: Result<(TableType, usize), DecodeError>)
        ensures
            ({
                let sr = spec_table_type(bytes@, offset as nat);
                match r {
                    Ok((t, end)) => sr == Ok::<(TableType, nat), DecodeError>((t, end as nat))
                        && offset < end <= bytes@.len(),
                    Err(e) => sr == Err::<(TableType, nat), DecodeError>(e),
                }
            }),
    {
        if offset >= bytes.len() {
            return Err(DecodeError::UnexpectedEof);
        }
        match reference_type_from_byte(bytes[offset]) {
            Err(e) => Err(e),
            Ok(rt) => match Limits::from_bytes(bytes, offset + 1) {
                Err(e) => Err(e),
                Ok((limits, end)) => Ok((TableType { ref_type: rt, limits }, end)),
            },
        }
    }
}

/// Decode a global type at `offset`.
impl GlobalType {
    pub fn from_bytes(bytes: &[u8], offset: usize) -> (r: Result<(GlobalType, usize), DecodeError>)
        ensures
            ({
                let sr = spec_global_type(bytes@, offset as nat);
                match r {
                    Ok((g, end)) => sr == Ok::<(GlobalType, nat), DecodeError>((g, end as nat))
                        && offset < end <= bytes@.len(),
                    Err(e) => sr == Err::<(GlobalType, nat), DecodeError>(e),
                }
            }),
    {
        if offset >= bytes.len() {
            return Err(DecodeError::UnexpectedEof);
        }
        match value_type_from_byte(bytes[offset]) {
            Err(e) => Err(e),
            Ok(vt) => {
                if offset + 1 >= bytes.len() {
                    return Err(DecodeError::UnexpectedEof);
                }
                let m = bytes[offset + 1];
                if m == 0 {
                    Ok((GlobalType { val_type: vt, mutable: Mutable::No }, offset + 2))
                } else if m == 1 {
                    Ok((GlobalType { val_type: vt, mutable: Mutable::Yes }, offset + 2))
                } else {
                    Err(DecodeError::InvalidMutabilityTag)
                }
            },
        }
    }
}

impl FunctionType {
    /// The tag byte that begins every encoded function type.
    pub fn id() -> (r: u32)
        ensures
            r == 0x60,
    {
        0x60
    }

    /// Decode a function type at `offset`.
    pub fn from_bytes(bytes: &[u8], offset: usize) -> (r: Result<(FunctionType, usize), DecodeError>)
        ensures
            ({
                let sr = spec_function_type(bytes@, offset as nat);
                match r {
                    Ok((f, end)) => sr == Ok::<(FunctionTypeV, nat), DecodeError>((f@, end as nat))
                        && offset < end <= bytes@.len(),
                    Err(e) => sr == Err::<(FunctionTypeV, nat), DecodeError>(e),
                }
            }),
    {
        if offset >= bytes.len() {
            return Err(DecodeError::UnexpectedEof);
        }
        if bytes[offset] != 0x60 {
            return Err(DecodeError::InvalidFunctionTypeTag);
        }
        match uleb128_decode_u32(bytes, offset + 1) {
            Err(e) => Err(e),
            Ok((pcount, o1)) => match decode_value_types(bytes, o1, pcount) {
                Err(e) => Err(e),
                Ok((params, o2)) => match uleb128_decode_u32(bytes, o2) {
                    Err(e) => Err(e),
                    Ok((rcount, o3)) => match decode_value_types(bytes, o3, rcount) {
                        Err(e) => Err(e),
                        Ok((results, o4)) => Ok(
                            (FunctionType { param_types: params, return_types: results }, o4),
                        ),
                    },
                },
            },
        }
    }
}

} // verus!
