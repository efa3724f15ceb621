use vstd::prelude::*;

use crate::errors::DecodeError;
use crate::sections::types::{
    decode_value_types, reference_type_from_byte, spec_reference_type, spec_value_type,
    spec_value_types, value_type_from_byte, ReferenceType, ValueType,
};
use crate::utils::{
    signed_leb128_decode, spec_signed_leb128, spec_uleb128_u32, uleb128_decode_u32,
};

verus! {

broadcast use {vstd::std_specs::vec::group_vec_axioms, vstd::seq::group_seq_axioms};

// ---------------------------------------------------------------------------
// Instruction families.  Each variant corresponds one-to-one to an opcode
// byte; immediates are carried in the variant, and block-introducing
// instructions carry their decoded nested sequences.
// ---------------------------------------------------------------------------

/// The result annotation of a block, loop or if: empty (0x40) or a single
/// value type.
#[derive(Debug, Clone, Copy, PartialEq, Eq)]
pub enum BlockType {
    Empty,
    Value(ValueType),
}

/// Static memory immediate of a load or store: alignment exponent and offset.
#[derive(Debug, Clone, Copy, PartialEq, Eq)]
pub struct MemArg {
    pub align: u32,
    pub offset: u32,
}

/// Control instructions, opcodes 0x00..=0x11.
#[derive(Debug)]
pub enum ControlInstructions {
    Unreachable,
    Nop,
    Block(BlockType, Expression),
    Loop(BlockType, Expression),
    If(BlockType, Expression, Option<Expression>),
    Br(u32),
    BrIf(u32),
    BrTable(Vec<u32>, u32),
    Return,
    Call(u32),
    CallIndirect(u32, u32),
}

/// Reference instructions, opcodes 0xD0..=0xD2.
#[derive(Debug, Clone, Copy, PartialEq, Eq)]
pub enum ReferenceInstructions {
    RefNull(ReferenceType),
    RefIsNull,
    RefFunc(u32),
}

/// Parametric instructions, opcodes 0x1A..=0x1C.
#[derive(Debug)]
pub enum ParametricInstructions {
    Drop,
    Select,
    SelectV(Vec<ValueType>),
}

/// Variable instructions, opcodes 0x20..=0x24, each with one index.
#[derive(Debug, Clone, Copy, PartialEq, Eq)]
pub enum VariableInstructions {
    LocalGet(u32),
    LocalSet(u32),
    LocalTee(u32),
    GlobalGet(u32),
    GlobalSet(u32),
}

/// Table instructions, opcodes 0x25..=0x26, each with one table index.
#[derive(Debug, Clone, Copy, PartialEq, Eq)]
pub enum TableInstructions {
    TableGet(u32),
    TableSet(u32),
}

/// Memory instructions, opcodes 0x28..=0x40.  Loads and stores carry their
/// align/offset immediate; size and grow carry none.
#[derive(Debug, Clone, Copy, PartialEq, Eq)]
pub enum MemoryInstructions {
    I32Load(MemArg),
    I64Load(MemArg),
    F32Load(MemArg),
    F64Load(MemArg),
    I32Load8Signed(MemArg),
    I32Load8Unsigned(MemArg),
    I32Load16Signed(MemArg),
    I32Load16Unsigned(MemArg),
    I64Load8Signed(MemArg),
    I64Load8Unsigned(MemArg),
    I64Load16Signed(MemArg),
    I64Load16Unsigned(MemArg),
    I64Load32Signed(MemArg),
    I64Load32Unsigned(MemArg),
    I32Store(MemArg),
    I64Store(MemArg),
    F32Store(MemArg),
    F64Store(MemArg),
    I32Store8(MemArg),
    I32Store16(MemArg),
    I64Store8(MemArg),
    I64Store16(MemArg),
    I64Store32(MemArg),
    Size,
    Grow,
}

/// Numeric instructions, opcodes 0x41..=0xC4.  The four constant opcodes
/// carry their value as a separate `Primitives` immediate.
#[derive(Debug, Clone, Copy, PartialEq, Eq)]
pub enum NumericInstructions {
    I32Const,
    I64Const,
    F32Const,
    F64Const,
    I32Eqz,
    I32Eq,
    I32Ne,
    I32LtSigned,
    I32LtUnsigned,
    I32GtSigned,
    I32GtUnsigned,
    I32LeSigned,
    I32LeUnsigned,
    I32GeSigned,
    I32GeUnsigned,
    I64Eqz,
    I64Eq,
    I64Ne,
    I64LtSigned,
    I64LtUnsigned,
    I64GtSigned,
    I64GtUnsigned,
    I64LeSigned,
    I64LeUnsigned,
    I64GeSigned,
    I64GeUnsigned,
    F32Eq,
    F32Ne,
    F32Lt,
    F32Gt,
    F32Le,
    F32Ge,
    F64Eq,
    F64Ne,
    F64Lt,
    F64Gt,
    F64Le,
    F64Ge,
    I32Clz,
    I32Ctz,
    I32PopCnt,
    I32Add,
    I32Sub,
    I32Mul,
    I32DivSigned,
    I32DivUnsigned,
    I32RemSigned,
    I32RemUnsigned,
    I32And,
    I32Or,
    I32Xor,
    I32Shl,
    I32ShrSigned,
    I32ShrUnsigned,
    I32Rotl,
    I32Rotr,
    I64Clz,
    I64Ctz,
    I64PopCnt,
    I64Add,
    I64Sub,
    I64Mul,
    I64DivSigned,
    I64DivUnsigned,
    I64RemSigned,
    I64RemUnsigned,
    I64And,
    I64Or,
    I64Xor,
    I64Shl,
    I64ShrSigned,
    I64ShrUnsigned,
    I64Rotl,
    I64Rotr,
    F32Abs,
    F32Neg,
    F32Ceil,
    F32Floor,
    F32Trunc,
    F32Nearest,
    F32Sqrt,
    F32Add,
    F32Sub,
    F32Mul,
    F32Div,
    F32Min,
    F32Max,
    F32CopySign,
    F64Abs,
    F64Neg,
    F64Ceil,
    F64Floor,
    F64Trunc,
    F64Nearest,
    F64Sqrt,
    F64Add,
    F64Sub,
    F64Mul,
    F64Div,
    F64Min,
    F64Max,
    F64CopySign,
    I32WrapI64,
    I32TruncF32Signed,
    I32TruncF32Unsigned,
    I32TruncF64Signed,
    I32TruncF64Unsigned,
    I64ExtendI32Signed,
    I64ExtendI32Unsigned,
    I64TruncF32Signed,
    I64TruncF32Unsigned,
    I64TruncF64Signed,
    I64TruncF64Unsigned,
    F32ConvertI32Signed,
    F32ConvertI32Unsigned,
    F32ConvertI64Signed,
    F32ConvertI64Unsigned,
    F32DemoteF64,
    F64ConvertI32Signed,
    F64ConvertI32Unsigned,
    F64ConvertI64Signed,
    F64ConvertI64Unsigned,
    F64PromoteF32,
    I32ReinterpretF32,
    I64ReinterpretF64,
    F32ReinterpretI32,
    F64ReinterpretI64,
    I32Extend8Signed,
    I32Extend16Signed,
    I64Extend8Signed,
    I64Extend16Signed,
    I64Extend32Signed,
}

/// Vector instructions are outside the decoded scope; the decoder never
/// produces this family.
#[derive(Debug, Clone, Copy, PartialEq, Eq)]
pub enum VectorInstructions {
    Reserved,
}

/// The immediate of a constant instruction.  Float constants keep their raw
/// IEEE-754 bit pattern, read little-endian from the stream.
#[derive(Debug, Clone, Copy, PartialEq, Eq)]
pub enum Primitives {
    I32(i32),
    I64(i64),
    F32(u32),
    F64(u64),
}

/// One decoded instruction: a family tag plus the family's payload.  The
/// constant immediate is present exactly on the four constant opcodes.
#[derive(Debug)]
pub enum Instructions {
    ControlInstructions(ControlInstructions),
    ReferenceInstructions(ReferenceInstructions),
    ParametricInstructions(ParametricInstructions),
    VariableInstructions(VariableInstructions),
    TableInstructions(TableInstructions),
    MemoryInstructions(MemoryInstructions),
    NumericInstructions(NumericInstructions, Option<Primitives>),
    VectorInstructions(VectorInstructions),
}

/// An ordered instruction sequence terminated in the stream by 0x0B: a
/// function body or an initializer.
#[derive(Debug)]
pub struct Expression {
    pub instructions: Vec<Instructions>,
}

// ---------------------------------------------------------------------------
// Mathematical mirror of the instruction tree.
// ---------------------------------------------------------------------------

/// Mirror of `ControlInstructions` with nested sequences as `Seq`.
pub enum ControlInstructionsV {
    Unreachable,
    Nop,
    Block(BlockType, Seq<InstructionsV>),
    Loop(BlockType, Seq<InstructionsV>),
    If(BlockType, Seq<InstructionsV>, Option<Seq<InstructionsV>>),
    Br(u32),
    BrIf(u32),
    BrTable(Seq<u32>, u32),
    Return,
    Call(u32),
    CallIndirect(u32, u32),
}

/// Mirror of `ParametricInstructions`.
pub enum ParametricInstructionsV {
    Drop,
    Select,
    SelectV(Seq<ValueType>),
}

/// Mirror of `Instructions`.
pub enum InstructionsV {
    ControlInstructions(ControlInstructionsV),
    ReferenceInstructions(ReferenceInstructions),
    ParametricInstructions(ParametricInstructionsV),
    VariableInstructions(VariableInstructions),
    TableInstructions(TableInstructions),
    MemoryInstructions(MemoryInstructions),
    NumericInstructions(NumericInstructions, Option<Primitives>),
    VectorInstructions(VectorInstructions),
}

pub open spec fn control_view(c: ControlInstructions) -> ControlInstructionsV
    decreases c,
{
    match c {
        ControlInstructions::Unreachable => ControlInstructionsV::Unreachable,
        ControlInstructions::Nop => ControlInstructionsV::Nop,
        ControlInstructions::Block(bt, e) => ControlInstructionsV::Block(
            bt,
            instr_seq_view(e.instructions@),
        ),
        ControlInstructions::Loop(bt, e) => ControlInstructionsV::Loop(
            bt,
            instr_seq_view(e.instructions@),
        ),
        ControlInstructions::If(bt, thn, els) => ControlInstructionsV::If(
            bt,
            instr_seq_view(thn.instructions@),
            match els {
                Some(e) => Some(instr_seq_view(e.instructions@)),
                None => None,
            },
        ),
        ControlInstructions::Br(l) => ControlInstructionsV::Br(l),
        ControlInstructions::BrIf(l) => ControlInstructionsV::BrIf(l),
        ControlInstructions::BrTable(ls, d) => ControlInstructionsV::BrTable(ls@, d),
        ControlInstructions::Return => ControlInstructionsV::Return,
        ControlInstructions::Call(f) => ControlInstructionsV::Call(f),
        ControlInstructions::CallIndirect(t, tb) => ControlInstructionsV::CallIndirect(t, tb),
    }
}

pub open spec fn parametric_view(p: ParametricInstructions) -> ParametricInstructionsV {
    match p {
        ParametricInstructions::Drop => ParametricInstructionsV::Drop,
        ParametricInstructions::Select => ParametricInstructionsV::Select,
        ParametricInstructions::SelectV(v) => ParametricInstructionsV::SelectV(v@),
    }
}

pub open spec fn instr_view(i: Instructions) -> InstructionsV
    decreases i,
{
    match i {
        Instructions::ControlInstructions(c) => InstructionsV::ControlInstructions(control_view(c)),
        Instructions::ReferenceInstructions(x) => InstructionsV::ReferenceInstructions(x),
        Instructions::ParametricInstructions(p) => InstructionsV::ParametricInstructions(
            parametric_view(p),
        ),
        Instructions::VariableInstructions(x) => InstructionsV::VariableInstructions(x),
        Instructions::TableInstructions(x) => InstructionsV::TableInstructions(x),
        Instructions::MemoryInstructions(x) => InstructionsV::MemoryInstructions(x),
        Instructions::NumericInstructions(n, p) => InstructionsV::NumericInstructions(n, p),
        Instructions::VectorInstructions(x) => InstructionsV::VectorInstructions(x),
    }
}

pub open spec fn instr_seq_view(s: Seq<Instructions>) -> Seq<InstructionsV>
    decreases s,
{
    if s.len() == 0 {
        Seq::empty()
    } else {
        seq![instr_view(s[0])] + instr_seq_view(s.drop_first())
    }
}

impl View for Instructions {
    type V = InstructionsV;

    open spec fn view(&self) -> InstructionsV {
        instr_view(*self)
    }
}

impl View for Expression {
    type V = Seq<InstructionsV>;

    open spec fn view(&self) -> Seq<InstructionsV> {
        instr_seq_view(self.instructions@)
    }
}

/// `instr_seq_view` maps the sequence pointwise.
pub broadcast proof fn lemma_instr_seq_view(s: Seq<Instructions>)
    ensures
        (#[trigger] instr_seq_view(s)).len() == s.len(),
        forall|i: int| 0 <= i < s.len() ==> instr_seq_view(s)[i] == instr_view(s[i]),
    decreases s,
{
    if s.len() > 0 {
        lemma_instr_seq_view(s.drop_first());
    }
}

impl NumericInstructions {
    /// Whether this is the i32 constant opcode.
    pub fn is_i32(&self) -> (r: bool)
        ensures
            r == (*self matches NumericInstructions::I32Const),
    {
        match self {
            NumericInstructions::I32Const => true,
            _ => false,
        }
    }

    /// Whether this is the f32 constant opcode.
    pub fn is_f32(&self) -> (r: bool)
        ensures
            r == (*self matches NumericInstructions::F32Const),
    {
        match self {
            NumericInstructions::F32Const => true,
            _ => false,
        }
    }

    /// Whether this is the i64 constant opcode.
    pub fn is_i64(&self) -> (r: bool)
        ensures
            r == (*self matches NumericInstructions::I64Const),
    {
        match self {
            NumericInstructions::I64Const => true,
            _ => false,
        }
    }

    /// Whether this is the f64 constant opcode.
    pub fn is_f64(&self) -> (r: bool)
        ensures
            r == (*self matches NumericInstructions::F64Const),
    {
        match self {
            NumericInstructions::F64Const => true,
            _ => false,
        }
    }
}

// ---------------------------------------------------------------------------
// Opcode tables
// ---------------------------------------------------------------------------

/// The numeric instruction, if any, selected by an opcode byte in
/// 0x45..=0xC4 (the constant opcodes 0x41..=0x44 are handled separately).
#[verifier::opaque]
pub open spec fn spec_numeric_op(b: u8) -> Option<NumericInstructions> {
    if b == 0x45 {
        Some(NumericInstructions::I32Eqz)
    } else if b == 0x46 {
        Some(NumericInstructions::I32Eq)
    } else if b == 0x47 {
        Some(NumericInstructions::I32Ne)
    } else if b == 0x48 {
        Some(NumericInstructions::I32LtSigned)
    } else if b == 0x49 {
        Some(NumericInstructions::I32LtUnsigned)
    } else if b == 0x4A {
        Some(NumericInstructions::I32GtSigned)
    } else if b == 0x4B {
        Some(NumericInstructions::I32GtUnsigned)
    } else if b == 0x4C {
        Some(NumericInstructions::I32LeSigned)
    } else if b == 0x4D {
        Some(NumericInstructions::I32LeUnsigned)
    } else if b == 0x4E {
        Some(NumericInstructions::I32GeSigned)
    } else if b == 0x4F {
        Some(NumericInstructions::I32GeUnsigned)
    } else if b == 0x50 {
        Some(NumericInstructions::I64Eqz)
    } else if b == 0x51 {
        Some(NumericInstructions::I64Eq)
    } else if b == 0x52 {
        Some(NumericInstructions::I64Ne)
    } else if b == 0x53 {
        Some(NumericInstructions::I64LtSigned)
    } else if b == 0x54 {
        Some(NumericInstructions::I64LtUnsigned)
    } else if b == 0x55 {
        Some(NumericInstructions::I64GtSigned)
    } else if b == 0x56 {
        Some(NumericInstructions::I64GtUnsigned)
    } else if b == 0x57 {
        Some(NumericInstructions::I64LeSigned)
    } else if b == 0x58 {
        Some(NumericInstructions::I64LeUnsigned)
    } else if b == 0x59 {
        Some(NumericInstructions::I64GeSigned)
    } else if b == 0x5A {
        Some(NumericInstructions::I64GeUnsigned)
    } else if b == 0x5B {
        Some(NumericInstructions::F32Eq)
    } else if b == 0x5C {
        Some(NumericInstructions::F32Ne)
    } else if b == 0x5D {
        Some(NumericInstructions::F32Lt)
    } else if b == 0x5E {
        Some(NumericInstructions::F32Gt)
    } else if b == 0x5F {
        Some(NumericInstructions::F32Le)
    } else if b == 0x60 {
        Some(NumericInstructions::F32Ge)
    } else if b == 0x61 {
        Some(NumericInstructions::F64Eq)
    } else if b == 0x62 {
        Some(NumericInstructions::F64Ne)
    } else if b == 0x63 {
        Some(NumericInstructions::F64Lt)
    } else if b == 0x64 {
        Some(NumericInstructions::F64Gt)
    } else if b == 0x65 {
        Some(NumericInstructions::F64Le)
    } else if b == 0x66 {
        Some(NumericInstructions::F64Ge)
    } else if b == 0x67 {
        Some(NumericInstructions::I32Clz)
    } else if b == 0x68 {
        Some(NumericInstructions::I32Ctz)
    } else if b == 0x69 {
        Some(NumericInstructions::I32PopCnt)
    } else if b == 0x6A {
        Some(NumericInstructions::I32Add)
    } else if b == 0x6B {
        Some(NumericInstructions::I32Sub)
    } else if b == 0x6C {
        Some(NumericInstructions::I32Mul)
    } else if b == 0x6D {
        Some(NumericInstructions::I32DivSigned)
    } else if b == 0x6E {
        Some(NumericInstructions::I32DivUnsigned)
    } else if b == 0x6F {
        Some(NumericInstructions::I32RemSigned)
    } else if b == 0x70 {
        Some(NumericInstructions::I32RemUnsigned)
    } else if b == 0x71 {
        Some(NumericInstructions::I32And)
    } else if b == 0x72 {
        Some(NumericInstructions::I32Or)
    } else if b == 0x73 {
        Some(NumericInstructions::I32Xor)
    } else if b == 0x74 {
        Some(NumericInstructions::I32Shl)
    } else if b == 0x75 {
        Some(NumericInstructions::I32ShrSigned)
    } else if b == 0x76 {
        Some(NumericInstructions::I32ShrUnsigned)
    } else if b == 0x77 {
        Some(NumericInstructions::I32Rotl)
    } else if b == 0x78 {
        Some(NumericInstructions::I32Rotr)
    } else if b == 0x79 {
        Some(NumericInstructions::I64Clz)
    } else if b == 0x7A {
        Some(NumericInstructions::I64Ctz)
    } else if b == 0x7B {
        Some(NumericInstructions::I64PopCnt)
    } else if b == 0x7C {
        Some(NumericInstructions::I64Add)
    } else if b == 0x7D {
        Some(NumericInstructions::I64Sub)
    } else if b == 0x7E {
        Some(NumericInstructions::I64Mul)
    } else if b == 0x7F {
        Some(NumericInstructions::I64DivSigned)
    } else if b == 0x80 {
        Some(NumericInstructions::I64DivUnsigned)
    } else if b == 0x81 {
        Some(NumericInstructions::I64RemSigned)
    } else if b == 0x82 {
        Some(NumericInstructions::I64RemUnsigned)
    } else if b == 0x83 {
        Some(NumericInstructions::I64And)
    } else if b == 0x84 {
        Some(NumericInstructions::I64Or)
    } else if b == 0x85 {
        Some(NumericInstructions::I64Xor)
    } else if b == 0x86 {
        Some(NumericInstructions::I64Shl)
    } else if b == 0x87 {
        Some(NumericInstructions::I64ShrSigned)
    } else if b == 0x88 {
        Some(NumericInstructions::I64ShrUnsigned)
    } else if b == 0x89 {
        Some(NumericInstructions::I64Rotl)
    } else if b == 0x8A {
        Some(NumericInstructions::I64Rotr)
    } else if b == 0x8B {
        Some(NumericInstructions::F32Abs)
    } else if b == 0x8C {
        Some(NumericInstructions::F32Neg)
    } else if b == 0x8D {
        Some(NumericInstructions::F32Ceil)
    } else if b == 0x8E {
        Some(NumericInstructions::F32Floor)
    } else if b == 0x8F {
        Some(NumericInstructions::F32Trunc)
    } else if b == 0x90 {
        Some(NumericInstructions::F32Nearest)
    } else if b == 0x91 {
        Some(NumericInstructions::F32Sqrt)
    } else if b == 0x92 {
        Some(NumericInstructions::F32Add)
    } else if b == 0x93 {
        Some(NumericInstructions::F32Sub)
    } else if b == 0x94 {
        Some(NumericInstructions::F32Mul)
    } else if b == 0x95 {
        Some(NumericInstructions::F32Div)
    } else if b == 0x96 {
        Some(NumericInstructions::F32Min)
    } else if b == 0x97 {
        Some(NumericInstructions::F32Max)
    } else if b == 0x98 {
        Some(NumericInstructions::F32CopySign)
    } else if b == 0x99 {
        Some(NumericInstructions::F64Abs)
    } else if b == 0x9A {
        Some(NumericInstructions::F64Neg)
    } else if b == 0x9B {
        Some(NumericInstructions::F64Ceil)
    } else if b == 0x9C {
        Some(NumericInstructions::F64Floor)
    } else if b == 0x9D {
        Some(NumericInstructions::F64Trunc)
    } else if b == 0x9E {
        Some(NumericInstructions::F64Nearest)
    } else if b == 0x9F {
        Some(NumericInstructions::F64Sqrt)
    } else if b == 0xA0 {
        Some(NumericInstructions::F64Add)
    } else if b == 0xA1 {
        Some(NumericInstructions::F64Sub)
    } else if b == 0xA2 {
        Some(NumericInstructions::F64Mul)
    } else if b == 0xA3 {
        Some(NumericInstructions::F64Div)
    } else if b == 0xA4 {
        Some(NumericInstructions::F64Min)
    } else if b == 0xA5 {
        Some(NumericInstructions::F64Max)
    } else if b == 0xA6 {
        Some(NumericInstructions::F64CopySign)
    } else if b == 0xA7 {
        Some(NumericInstructions::I32WrapI64)
    } else if b == 0xA8 {
        Some(NumericInstructions::I32TruncF32Signed)
    } else if b == 0xA9 {
        Some(NumericInstructions::I32TruncF32Unsigned)
    } else if b == 0xAA {
        Some(NumericInstructions::I32TruncF64Signed)
    } else if b == 0xAB {
        Some(NumericInstructions::I32TruncF64Unsigned)
    } else if b == 0xAC {
        Some(NumericInstructions::I64ExtendI32Signed)
    } else if b == 0xAD {
        Some(NumericInstructions::I64ExtendI32Unsigned)
    } else if b == 0xAE {
        Some(NumericInstructions::I64TruncF32Signed)
    } else if b == 0xAF {
        Some(NumericInstructions::I64TruncF32Unsigned)
    } else if b == 0xB0 {
        Some(NumericInstructions::I64TruncF64Signed)
    } else if b == 0xB1 {
        Some(NumericInstructions::I64TruncF64Unsigned)
    } else if b == 0xB2 {
        Some(NumericInstructions::F32ConvertI32Signed)
    } else if b == 0xB3 {
        Some(NumericInstructions::F32ConvertI32Unsigned)
    } else if b == 0xB4 {
        Some(NumericInstructions::F32ConvertI64Signed)
    } else if b == 0xB5 {
        Some(NumericInstructions::F32ConvertI64Unsigned)
    } else if b == 0xB6 {
        Some(NumericInstructions::F32DemoteF64)
    } else if b == 0xB7 {
        Some(NumericInstructions::F64ConvertI32Signed)
    } else if b == 0xB8 {
        Some(NumericInstructions::F64ConvertI32Unsigned)
    } else if b == 0xB9 {
        Some(NumericInstructions::F64ConvertI64Signed)
    } else if b == 0xBA {
        Some(NumericInstructions::F64ConvertI64Unsigned)
    } else if b == 0xBB {
        Some(NumericInstructions::F64PromoteF32)
    } else if b == 0xBC {
        Some(NumericInstructions::I32ReinterpretF32)
    } else if b == 0xBD {
        Some(NumericInstructions::I64ReinterpretF64)
    } else if b == 0xBE {
        Some(NumericInstructions::F32ReinterpretI32)
    } else if b == 0xBF {
        Some(NumericInstructions::F64ReinterpretI64)
    } else if b == 0xC0 {
        Some(NumericInstructions::I32Extend8Signed)
    } else if b == 0xC1 {
        Some(NumericInstructions::I32Extend16Signed)
    } else if b == 0xC2 {
        Some(NumericInstructions::I64Extend8Signed)
    } else if b == 0xC3 {
        Some(NumericInstructions::I64Extend16Signed)
    } else if b == 0xC4 {
        Some(NumericInstructions::I64Extend32Signed)
    } else {
        None
    }
}

/// Decode one plain numeric opcode byte.
pub fn numeric_op_from_byte(b: u8) -> (r: Option<NumericInstructions>)
    ensures
        r == spec_numeric_op(b),
{
    proof {
        reveal(spec_numeric_op);
    }
    if b == 0x45 {
        Some(NumericInstructions::I32Eqz)
    } else if b == 0x46 {
        Some(NumericInstructions::I32Eq)
    } else if b == 0x47 {
        Some(NumericInstructions::I32Ne)
    } else if b == 0x48 {
        Some(NumericInstructions::I32LtSigned)
    } else if b == 0x49 {
        Some(NumericInstructions::I32LtUnsigned)
    } else if b == 0x4A {
        Some(NumericInstructions::I32GtSigned)
    } else if b == 0x4B {
        Some(NumericInstructions::I32GtUnsigned)
    } else if b == 0x4C {
        Some(NumericInstructions::I32LeSigned)
    } else if b == 0x4D {
        Some(NumericInstructions::I32LeUnsigned)
    } else if b == 0x4E {
        Some(NumericInstructions::I32GeSigned)
    } else if b == 0x4F {
        Some(NumericInstructions::I32GeUnsigned)
    } else if b == 0x50 {
        Some(NumericInstructions::I64Eqz)
    } else if b == 0x51 {
        Some(NumericInstructions::I64Eq)
    } else if b == 0x52 {
        Some(NumericInstructions::I64Ne)
    } else if b == 0x53 {
        Some(NumericInstructions::I64LtSigned)
    } else if b == 0x54 {
        Some(NumericInstructions::I64LtUnsigned)
    } else if b == 0x55 {
        Some(NumericInstructions::I64GtSigned)
    } else if b == 0x56 {
        Some(NumericInstructions::I64GtUnsigned)
    } else if b == 0x57 {
        Some(NumericInstructions::I64LeSigned)
    } else if b == 0x58 {
        Some(NumericInstructions::I64LeUnsigned)
    } else if b == 0x59 {
        Some(NumericInstructions::I64GeSigned)
    } else if b == 0x5A {
        Some(NumericInstructions::I64GeUnsigned)
    } else if b == 0x5B {
        Some(NumericInstructions::F32Eq)
    } else if b == 0x5C {
        Some(NumericInstructions::F32Ne)
    } else if b == 0x5D {
        Some(NumericInstructions::F32Lt)
    } else if b == 0x5E {
        Some(NumericInstructions::F32Gt)
    } else if b == 0x5F {
        Some(NumericInstructions::F32Le)
    } else if b == 0x60 {
        Some(NumericInstructions::F32Ge)
    } else if b == 0x61 {
        Some(NumericInstructions::F64Eq)
    } else if b == 0x62 {
        Some(NumericInstructions::F64Ne)
    } else if b == 0x63 {
        Some(NumericInstructions::F64Lt)
    } else if b == 0x64 {
        Some(NumericInstructions::F64Gt)
    } else if b == 0x65 {
        Some(NumericInstructions::F64Le)
    } else if b == 0x66 {
        Some(NumericInstructions::F64Ge)
    } else if b == 0x67 {
        Some(NumericInstructions::I32Clz)
    } else if b == 0x68 {
        Some(NumericInstructions::I32Ctz)
    } else if b == 0x69 {
        Some(NumericInstructions::I32PopCnt)
    } else if b == 0x6A {
        Some(NumericInstructions::I32Add)
    } else if b == 0x6B {
        Some(NumericInstructions::I32Sub)
    } else if b == 0x6C {
        Some(NumericInstructions::I32Mul)
    } else if b == 0x6D {
        Some(NumericInstructions::I32DivSigned)
    } else if b == 0x6E {
        Some(NumericInstructions::I32DivUnsigned)
    } else if b == 0x6F {
        Some(NumericInstructions::I32RemSigned)
    } else if b == 0x70 {
        Some(NumericInstructions::I32RemUnsigned)
    } else if b == 0x71 {
        Some(NumericInstructions::I32And)
    } else if b == 0x72 {
        Some(NumericInstructions::I32Or)
    } else if b == 0x73 {
        Some(NumericInstructions::I32Xor)
    } else if b == 0x74 {
        Some(NumericInstructions::I32Shl)
    } else if b == 0x75 {
        Some(NumericInstructions::I32ShrSigned)
    } else if b == 0x76 {
        Some(NumericInstructions::I32ShrUnsigned)
    } else if b == 0x77 {
        Some(NumericInstructions::I32Rotl)
    } else if b == 0x78 {
        Some(NumericInstructions::I32Rotr)
    } else if b == 0x79 {
        Some(NumericInstructions::I64Clz)
    } else if b == 0x7A {
        Some(NumericInstructions::I64Ctz)
    } else if b == 0x7B {
        Some(NumericInstructions::I64PopCnt)
    } else if b == 0x7C {
        Some(NumericInstructions::I64Add)
    } else if b == 0x7D {
        Some(NumericInstructions::I64Sub)
    } else if b == 0x7E {
        Some(NumericInstructions::I64Mul)
    } else if b == 0x7F {
        Some(NumericInstructions::I64DivSigned)
    } else if b == 0x80 {
        Some(NumericInstructions::I64DivUnsigned)
    } else if b == 0x81 {
        Some(NumericInstructions::I64RemSigned)
    } else if b == 0x82 {
        Some(NumericInstructions::I64RemUnsigned)
    } else if b == 0x83 {
        Some(NumericInstructions::I64And)
    } else if b == 0x84 {
        Some(NumericInstructions::I64Or)
    } else if b == 0x85 {
        Some(NumericInstructions::I64Xor)
    } else if b == 0x86 {
        Some(NumericInstructions::I64Shl)
    } else if b == 0x87 {
        Some(NumericInstructions::I64ShrSigned)
    } else if b == 0x88 {
        Some(NumericInstructions::I64ShrUnsigned)
    } else if b == 0x89 {
        Some(NumericInstructions::I64Rotl)
    } else if b == 0x8A {
        Some(NumericInstructions::I64Rotr)
    } else if b == 0x8B {
        Some(NumericInstructions::F32Abs)
    } else if b == 0x8C {
        Some(NumericInstructions::F32Neg)
    } else if b == 0x8D {
        Some(NumericInstructions::F32Ceil)
    } else if b == 0x8E {
        Some(NumericInstructions::F32Floor)
    } else if b == 0x8F {
        Some(NumericInstructions::F32Trunc)
    } else if b == 0x90 {
        Some(NumericInstructions::F32Nearest)
    } else if b == 0x91 {
        Some(NumericInstructions::F32Sqrt)
    } else if b == 0x92 {
        Some(NumericInstructions::F32Add)
    } else if b == 0x93 {
        Some(NumericInstructions::F32Sub)
    } else if b == 0x94 {
        Some(NumericInstructions::F32Mul)
    } else if b == 0x95 {
        Some(NumericInstructions::F32Div)
    } else if b == 0x96 {
        Some(NumericInstructions::F32Min)
    } else if b == 0x97 {
        Some(NumericInstructions::F32Max)
    } else if b == 0x98 {
        Some(NumericInstructions::F32CopySign)
    } else if b == 0x99 {
        Some(NumericInstructions::F64Abs)
    } else if b == 0x9A {
        Some(NumericInstructions::F64Neg)
    } else if b == 0x9B {
        Some(NumericInstructions::F64Ceil)
    } else if b == 0x9C {
        Some(NumericInstructions::F64Floor)
    } else if b == 0x9D {
        Some(NumericInstructions::F64Trunc)
    } else if b == 0x9E {
        Some(NumericInstructions::F64Nearest)
    } else if b == 0x9F {
        Some(NumericInstructions::F64Sqrt)
    } else if b == 0xA0 {
        Some(NumericInstructions::F64Add)
    } else if b == 0xA1 {
        Some(NumericInstructions::F64Sub)
    } else if b == 0xA2 {
        Some(NumericInstructions::F64Mul)
    } else if b == 0xA3 {
        Some(NumericInstructions::F64Div)
    } else if b == 0xA4 {
        Some(NumericInstructions::F64Min)
    } else if b == 0xA5 {
        Some(NumericInstructions::F64Max)
    } else if b == 0xA6 {
        Some(NumericInstructions::F64CopySign)
    } else if b == 0xA7 {
        Some(NumericInstructions::I32WrapI64)
    } else if b == 0xA8 {
        Some(NumericInstructions::I32TruncF32Signed)
    } else if b == 0xA9 {
        Some(NumericInstructions::I32TruncF32Unsigned)
    } else if b == 0xAA {
        Some(NumericInstructions::I32TruncF64Signed)
    } else if b == 0xAB {
        Some(NumericInstructions::I32TruncF64Unsigned)
    } else if b == 0xAC {
        Some(NumericInstructions::I64ExtendI32Signed)
    } else if b == 0xAD {
        Some(NumericInstructions::I64ExtendI32Unsigned)
    } else if b == 0xAE {
        Some(NumericInstructions::I64TruncF32Signed)
    } else if b == 0xAF {
        Some(NumericInstructions::I64TruncF32Unsigned)
    } else if b == 0xB0 {
        Some(NumericInstructions::I64TruncF64Signed)
    } else if b == 0xB1 {
        Some(NumericInstructions::I64TruncF64Unsigned)
    } else if b == 0xB2 {
        Some(NumericInstructions::F32ConvertI32Signed)
    } else if b == 0xB3 {
        Some(NumericInstructions::F32ConvertI32Unsigned)
    } else if b == 0xB4 {
        Some(NumericInstructions::F32ConvertI64Signed)
    } else if b == 0xB5 {
        Some(NumericInstructions::F32ConvertI64Unsigned)
    } else if b == 0xB6 {
        Some(NumericInstructions::F32DemoteF64)
    } else if b == 0xB7 {
        Some(NumericInstructions::F64ConvertI32Signed)
    } else if b == 0xB8 {
        Some(NumericInstructions::F64ConvertI32Unsigned)
    } else if b == 0xB9 {
        Some(NumericInstructions::F64ConvertI64Signed)
    } else if b == 0xBA {
        Some(NumericInstructions::F64ConvertI64Unsigned)
    } else if b == 0xBB {
        Some(NumericInstructions::F64PromoteF32)
    } else if b == 0xBC {
        Some(NumericInstructions::I32ReinterpretF32)
    } else if b == 0xBD {
        Some(NumericInstructions::I64ReinterpretF64)
    } else if b == 0xBE {
        Some(NumericInstructions::F32ReinterpretI32)
    } else if b == 0xBF {
        Some(NumericInstructions::F64ReinterpretI64)
    } else if b == 0xC0 {
        Some(NumericInstructions::I32Extend8Signed)
    } else if b == 0xC1 {
        Some(NumericInstructions::I32Extend16Signed)
    } else if b == 0xC2 {
        Some(NumericInstructions::I64Extend8Signed)
    } else if b == 0xC3 {
        Some(NumericInstructions::I64Extend16Signed)
    } else if b == 0xC4 {
        Some(NumericInstructions::I64Extend32Signed)
    } else {
        None
    }
}

/// The memory load or store, if any, selected by an opcode byte in
/// 0x28..=0x3E, carrying the immediate `m`.
#[verifier::opaque]
pub open spec fn spec_memory_op(b: u8, m: MemArg) -> Option<MemoryInstructions> {
    if b == 0x28 {
        Some(MemoryInstructions::I32Load(m))
    } else if b == 0x29 {
        Some(MemoryInstructions::I64Load(m))
    } else if b == 0x2A {
        Some(MemoryInstructions::F32Load(m))
    } else if b == 0x2B {
        Some(MemoryInstructions::F64Load(m))
    } else if b == 0x2C {
        Some(MemoryInstructions::I32Load8Signed(m))
    } else if b == 0x2D {
        Some(MemoryInstructions::I32Load8Unsigned(m))
    } else if b == 0x2E {
        Some(MemoryInstructions::I32Load16Signed(m))
    } else if b == 0x2F {
        Some(MemoryInstructions::I32Load16Unsigned(m))
    } else if b == 0x30 {
        Some(MemoryInstructions::I64Load8Signed(m))
    } else if b == 0x31 {
        Some(MemoryInstructions::I64Load8Unsigned(m))
    } else if b == 0x32 {
        Some(MemoryInstructions::I64Load16Signed(m))
    } else if b == 0x33 {
        Some(MemoryInstructions::I64Load16Unsigned(m))
    } else if b == 0x34 {
        Some(MemoryInstructions::I64Load32Signed(m))
    } else if b == 0x35 {
        Some(MemoryInstructions::I64Load32Unsigned(m))
    } else if b == 0x36 {
        Some(MemoryInstructions::I32Store(m))
    } else if b == 0x37 {
        Some(MemoryInstructions::I64Store(m))
    } else if b == 0x38 {
        Some(MemoryInstructions::F32Store(m))
    } else if b == 0x39 {
        Some(MemoryInstructions::F64Store(m))
    } else if b == 0x3A {
        Some(MemoryInstructions::I32Store8(m))
    } else if b == 0x3B {
        Some(MemoryInstructions::I32Store16(m))
    } else if b == 0x3C {
        Some(MemoryInstructions::I64Store8(m))
    } else if b == 0x3D {
        Some(MemoryInstructions::I64Store16(m))
    } else if b == 0x3E {
        Some(MemoryInstructions::I64Store32(m))
    } else {
        None
    }
}

/// Decode one load or store opcode byte with its immediate.
pub fn memory_op_from_byte(b: u8, m: MemArg) -> (r: Option<MemoryInstructions>)
    ensures
        r == spec_memory_op(b, m),
{
    proof {
        reveal(spec_memory_op);
    }
    if b == 0x28 {
        Some(MemoryInstructions::I32Load(m))
    } else if b == 0x29 {
        Some(MemoryInstructions::I64Load(m))
    } else if b == 0x2A {
        Some(MemoryInstructions::F32Load(m))
    } else if b == 0x2B {
        Some(MemoryInstructions::F64Load(m))
    } else if b == 0x2C {
        Some(MemoryInstructions::I32Load8Signed(m))
    } else if b == 0x2D {
        Some(MemoryInstructions::I32Load8Unsigned(m))
    } else if b == 0x2E {
        Some(MemoryInstructions::I32Load16Signed(m))
    } else if b == 0x2F {
        Some(MemoryInstructions::I32Load16Unsigned(m))
    } else if b == 0x30 {
        Some(MemoryInstructions::I64Load8Signed(m))
    } else if b == 0x31 {
        Some(MemoryInstructions::I64Load8Unsigned(m))
    } else if b == 0x32 {
        Some(MemoryInstructions::I64Load16Signed(m))
    } else if b == 0x33 {
        Some(MemoryInstructions::I64Load16Unsigned(m))
    } else if b == 0x34 {
        Some(MemoryInstructions::I64Load32Signed(m))
    } else if b == 0x35 {
        Some(MemoryInstructions::I64Load32Unsigned(m))
    } else if b == 0x36 {
        Some(MemoryInstructions::I32Store(m))
    } else if b == 0x37 {
        Some(MemoryInstructions::I64Store(m))
    } else if b == 0x38 {
        Some(MemoryInstructions::F32Store(m))
    } else if b == 0x39 {
        Some(MemoryInstructions::F64Store(m))
    } else if b == 0x3A {
        Some(MemoryInstructions::I32Store8(m))
    } else if b == 0x3B {
        Some(MemoryInstructions::I32Store16(m))
    } else if b == 0x3C {
        Some(MemoryInstructions::I64Store8(m))
    } else if b == 0x3D {
        Some(MemoryInstructions::I64Store16(m))
    } else if b == 0x3E {
        Some(MemoryInstructions::I64Store32(m))
    } else {
        None
    }
}

// ---------------------------------------------------------------------------
// Immediates
// ---------------------------------------------------------------------------

/// A block-type byte: 0x40 for the empty annotation, else a value type.
pub open spec fn spec_block_type(b: u8) -> Result<BlockType, DecodeError> {
    if b == 0x40 {
        Ok(BlockType::Empty)
    } else {
        match spec_value_type(b) {
            Ok(vt) => Ok(BlockType::Value(vt)),
            Err(e) => Err(e),
        }
    }
}

/// Decode one block-type byte.
pub fn block_type_from_byte(b: u8) -> (r: Result<BlockType, DecodeError>)
    ensures
        r == spec_block_type(b),
{
    if b == 0x40 {
        Ok(BlockType::Empty)
    } else {
        match value_type_from_byte(b) {
            Ok(vt) => Ok(BlockType::Value(vt)),
            Err(e) => Err(e),
        }
    }
}

/// `count` consecutive LEB128 32-bit indices.
pub open spec fn spec_u32_list(s: Seq<u8>, off: nat, count: nat) -> Result<(Seq<u32>, nat), DecodeError>
    decreases count,
{
    if count == 0 {
        Ok((Seq::empty(), off))
    } else {
        match spec_uleb128_u32(s, off) {
            Err(e) => Err(e),
            Ok((v, o1)) => match spec_u32_list(s, o1, (count - 1) as nat) {
                Err(e) => Err(e),
                Ok((rest, end)) => Ok((seq![v] + rest, end)),
            },
        }
    }
}

/// Decode `count` consecutive LEB128 32-bit indices.
pub fn decode_u32_list(bytes: &[u8], offset: usize, count: u32) -> (r: Result<
    (Vec<u32>, usize),
    DecodeError,
>)
    ensures
        ({
            let sr = spec_u32_list(bytes@, offset as nat, count as nat);
            match r {
                Ok((v, end)) => sr == Ok::<(Seq<u32>, nat), DecodeError>((v@, end as nat))
                    && offset <= end && (end <= bytes@.len() || end == offset),
                Err(e) => sr == Err::<(Seq<u32>, nat), DecodeError>(e),
            }
        }),
{
    let mut acc: Vec<u32> = Vec::new();
    let mut cur = offset;
    let mut i: u32 = 0;
    while i < count
        invariant
            i <= count,
            offset <= cur && (cur <= bytes@.len() || cur == offset),
            acc@.len() == i as nat,
            ({
                let whole = spec_u32_list(bytes@, offset as nat, count as nat);
                match spec_u32_list(bytes@, cur as nat, (count - i) as nat) {
                    Ok((rest, end)) => whole == Ok::<(Seq<u32>, nat), DecodeError>(
                        (acc@ + rest, end),
                    ),
                    Err(e) => whole == Err::<(Seq<u32>, nat), DecodeError>(e),
                }
            }),
        decreases count - i,
    {
        match uleb128_decode_u32(bytes, cur) {
            Err(e) => {
                return Err(e);
            },
            Ok((v, end)) => {
                proof {
                    match spec_u32_list(bytes@, end as nat, (count - i - 1) as nat) {
                        Ok((rest, e2)) => {
                            assert(acc@ + (seq![v] + rest) =~= acc@.push(v) + rest);
                        },
                        Err(_) => {},
                    }
                }
                acc.push(v);
                cur = end;
                i = i + 1;
            },
        }
    }
    proof {
        assert(acc@ + Seq::<u32>::empty() =~= acc@);
    }
    Ok((acc, cur))
}

/// Four little-endian bytes as the bit pattern of an f32 constant.
pub open spec fn spec_f32_bits(s: Seq<u8>, off: nat) -> Result<(u32, nat), DecodeError> {
    if off + 4 > s.len() {
        Err(DecodeError::UnexpectedEof)
    } else {
        Ok(
            (
                ((s[off as int] as int) + 0x100 * (s[off as int + 1] as int) + 0x10000 * (
                s[off as int + 2] as int) + 0x1000000 * (s[off as int + 3] as int)) as u32,
                off + 4,
            ),
        )
    }
}

/// Eight little-endian bytes as the bit pattern of an f64 constant.
pub open spec fn spec_f64_bits(s: Seq<u8>, off: nat) -> Result<(u64, nat), DecodeError> {
    if off + 8 > s.len() {
        Err(DecodeError::UnexpectedEof)
    } else {
        Ok(
            (
                ((s[off as int] as int) + 0x100 * (s[off as int + 1] as int) + 0x10000 * (
                s[off as int + 2] as int) + 0x1000000 * (s[off as int + 3] as int) + 0x100000000 * (
                s[off as int + 4] as int) + 0x10000000000 * (s[off as int + 5] as int)
                    + 0x1000000000000 * (s[off as int + 6] as int) + 0x100000000000000 * (
                s[off as int + 7] as int)) as u64,
                off + 8,
            ),
        )
    }
}

fn decode_f32_bits(bytes: &[u8], offset: usize) -> (r: Result<(u32, usize), DecodeError>)
    ensures
        ({
            let sr = spec_f32_bits(bytes@, offset as nat);
            match r {
                Ok((v, end)) => sr == Ok::<(u32, nat), DecodeError>((v, end as nat))
                    && offset < end <= bytes@.len(),
                Err(e) => sr == Err::<(u32, nat), DecodeError>(e),
            }
        }),
{
    if offset >= bytes.len() || bytes.len() - offset < 4 {
        return Err(DecodeError::UnexpectedEof);
    }
    let b0 = bytes[offset] as u32;
    let b1 = bytes[offset + 1] as u32;
    let b2 = bytes[offset + 2] as u32;
    let b3 = bytes[offset + 3] as u32;
    Ok((b0 + 0x100 * b1 + 0x10000 * b2 + 0x1000000 * b3, offset + 4))
}

fn decode_f64_bits(bytes: &[u8], offset: usize) -> (r: Result<(u64, usize), DecodeError>)
    ensures
        ({
            let sr = spec_f64_bits(bytes@, offset as nat);
            match r {
                Ok((v, end)) => sr == Ok::<(u64, nat), DecodeError>((v, end as nat))
                    && offset < end <= bytes@.len(),
                Err(e) => sr == Err::<(u64, nat), DecodeError>(e),
            }
        }),
{
    if offset >= bytes.len() || bytes.len() - offset < 8 {
        return Err(DecodeError::UnexpectedEof);
    }
    let b0 = bytes[offset] as u64;
    let b1 = bytes[offset + 1] as u64;
    let b2 = bytes[offset + 2] as u64;
    let b3 = bytes[offset + 3] as u64;
    let b4 = bytes[offset + 4] as u64;
    let b5 = bytes[offset + 5] as u64;
    let b6 = bytes[offset + 6] as u64;
    let b7 = bytes[offset + 7] as u64;
    Ok(
        (
            b0 + 0x100 * b1 + 0x10000 * b2 + 0x1000000 * b3 + 0x100000000 * b4 + 0x10000000000 * b5
                + 0x1000000000000 * b6 + 0x100000000000000 * b7,
            offset + 8,
        ),
    )
}

/// A signed LEB128 immediate narrowed to i32.
pub open spec fn spec_i32_const(s: Seq<u8>, off: nat) -> Result<(i32, nat), DecodeError> {
    match spec_signed_leb128(s, off) {
        Ok((v, end)) => if i32::MIN <= v <= i32::MAX {
            Ok((v as i32, end))
        } else {
            Err(DecodeError::InvalidLeb128Encoding)
        },
        Err(e) => Err(e),
    }
}

fn decode_i32_const(bytes: &[u8], offset: usize) -> (r: Result<(i32, usize), DecodeError>)
    ensures
        ({
            let sr = spec_i32_const(bytes@, offset as nat);
            match r {
                Ok((v, end)) => sr == Ok::<(i32, nat), DecodeError>((v, end as nat))
                    && offset < end <= bytes@.len(),
                Err(e) => sr == Err::<(i32, nat), DecodeError>(e),
            }
        }),
{
    match signed_leb128_decode(bytes, offset) {
        Ok((v, end)) => if i32::MIN as i64 <= v && v <= i32::MAX as i64 {
            Ok((v as i32, end))
        } else {
            Err(DecodeError::InvalidLeb128Encoding)
        },
        Err(e) => Err(e),
    }
}

// ---------------------------------------------------------------------------
// Ground truth of the instruction decoder
// ---------------------------------------------------------------------------

/// Hard bound on block nesting, so adversarial input cannot grow the native
/// call stack without limit.
pub const MAX_NESTING_DEPTH: u32 = 1024;

/// One instruction at `off`: the opcode byte, dispatched to its family by
/// numeric range, followed by that opcode's immediates.  Block-introducing
/// opcodes recursively hold the nested sequence up to their matching
/// terminator; `depth` bounds that nesting.
pub open spec fn spec_instr(s: Seq<u8>, off: nat, depth: nat) -> Result<(InstructionsV, nat), DecodeError>
    decreases depth, s.len() - off, 0nat,
{
    if off >= s.len() {
        Err(DecodeError::UnexpectedEof)
    } else {
        let op = s[off as int];
        if op == 0x00 {
            Ok((InstructionsV::ControlInstructions(ControlInstructionsV::Unreachable), off + 1))
        } else if op == 0x01 {
            Ok((InstructionsV::ControlInstructions(ControlInstructionsV::Nop), off + 1))
        } else if op == 0x02 || op == 0x03 {
            if depth == 0 {
                Err(DecodeError::NestingTooDeep)
            } else if off + 1 >= s.len() {
                Err(DecodeError::UnexpectedEof)
            } else {
                match spec_block_type(s[off as int + 1]) {
                    Err(e) => Err(e),
                    Ok(bt) => match spec_instr_seq(s, off + 2, (depth - 1) as nat) {
                        Err(e) => Err(e),
                        Ok((body, term, end)) => if term == 0x0B {
                            if op == 0x02 {
                                Ok(
                                    (
                                        InstructionsV::ControlInstructions(
                                            ControlInstructionsV::Block(bt, body),
                                        ),
                                        end,
                                    ),
                                )
                            } else {
                                Ok(
                                    (
                                        InstructionsV::ControlInstructions(
                                            ControlInstructionsV::Loop(bt, body),
                                        ),
                                        end,
                                    ),
                                )
                            }
                        } else {
                            // An `else` byte may terminate only the first arm
                            // of an `if`.
                            Err(DecodeError::InvalidOpcode)
                        },
                    },
                }
            }
        } else if op == 0x04 {
            if depth == 0 {
                Err(DecodeError::NestingTooDeep)
            } else if off + 1 >= s.len() {
                Err(DecodeError::UnexpectedEof)
            } else {
                match spec_block_type(s[off as int + 1]) {
                    Err(e) => Err(e),
                    Ok(bt) => match spec_instr_seq(s, off + 2, (depth - 1) as nat) {
                        Err(e) => Err(e),
                        Ok((thn, term, end)) => if term == 0x0B {
                            Ok(
                                (
                                    InstructionsV::ControlInstructions(
                                        ControlInstructionsV::If(bt, thn, None),
                                    ),
                                    end,
                                ),
                            )
                        } else {
                            match spec_instr_seq(s, end, (depth - 1) as nat) {
                                Err(e) => Err(e),
                                Ok((els, term2, end2)) => if term2 == 0x0B {
                                    Ok(
                                        (
                                            InstructionsV::ControlInstructions(
                                                ControlInstructionsV::If(bt, thn, Some(els)),
                                            ),
                                            end2,
                                        ),
                                    )
                                } else {
                                    Err(DecodeError::InvalidOpcode)
                                },
                            }
                        },
                    },
                }
            }
        } else if op == 0x0C || op == 0x0D {
            match spec_uleb128_u32(s, off + 1) {
                Err(e) => Err(e),
                Ok((l, end)) => if op == 0x0C {
                    Ok((InstructionsV::ControlInstructions(ControlInstructionsV::Br(l)), end))
                } else {
                    Ok((InstructionsV::ControlInstructions(ControlInstructionsV::BrIf(l)), end))
                },
            }
        } else if op == 0x0E {
            match spec_uleb128_u32(s, off + 1) {
                Err(e) => Err(e),
                Ok((n, o1)) => match spec_u32_list(s, o1, n as nat) {
                    Err(e) => Err(e),
                    Ok((labels, o2)) => match spec_uleb128_u32(s, o2) {
                        Err(e) => Err(e),
                        Ok((dflt, end)) => Ok(
                            (
                                InstructionsV::ControlInstructions(
                                    ControlInstructionsV::BrTable(labels, dflt),
                                ),
                                end,
                            ),
                        ),
                    },
                },
            }
        } else if op == 0x0F {
            Ok((InstructionsV::ControlInstructions(ControlInstructionsV::Return), off + 1))
        } else if op == 0x10 {
            match spec_uleb128_u32(s, off + 1) {
                Err(e) => Err(e),
                Ok((f, end)) => Ok(
                    (InstructionsV::ControlInstructions(ControlInstructionsV::Call(f)), end),
                ),
            }
        } else if op == 0x11 {
            match spec_uleb128_u32(s, off + 1) {
                Err(e) => Err(e),
                Ok((ty, o1)) => match spec_uleb128_u32(s, o1) {
                    Err(e) => Err(e),
                    Ok((tb, end)) => Ok(
                        (
                            InstructionsV::ControlInstructions(
                                ControlInstructionsV::CallIndirect(ty, tb),
                            ),
                            end,
                        ),
                    ),
                },
            }
        } else if op == 0x1A {
            Ok((InstructionsV::ParametricInstructions(ParametricInstructionsV::Drop), off + 1))
        } else if op == 0x1B {
            Ok((InstructionsV::ParametricInstructions(ParametricInstructionsV::Select), off + 1))
        } else if op == 0x1C {
            match spec_uleb128_u32(s, off + 1) {
                Err(e) => Err(e),
                Ok((n, o1)) => match spec_value_types(s, o1, n as nat) {
                    Err(e) => Err(e),
                    Ok((tys, end)) => Ok(
                        (
                            InstructionsV::ParametricInstructions(
                                ParametricInstructionsV::SelectV(tys),
                            ),
                            end,
                        ),
                    ),
                },
            }
        } else if 0x20 <= op <= 0x24 {
            match spec_uleb128_u32(s, off + 1) {
                Err(e) => Err(e),
                Ok((x, end)) => {
                    let vi = if op == 0x20 {
                        VariableInstructions::LocalGet(x)
                    } else if op == 0x21 {
                        VariableInstructions::LocalSet(x)
                    } else if op == 0x22 {
                        VariableInstructions::LocalTee(x)
                    } else if op == 0x23 {
                        VariableInstructions::GlobalGet(x)
                    } else {
                        VariableInstructions::GlobalSet(x)
                    };
                    Ok((InstructionsV::VariableInstructions(vi), end))
                },
            }
        } else if op == 0x25 || op == 0x26 {
            match spec_uleb128_u32(s, off + 1) {
                Err(e) => Err(e),
                Ok((x, end)) => if op == 0x25 {
                    Ok((InstructionsV::TableInstructions(TableInstructions::TableGet(x)), end))
                } else {
                    Ok((InstructionsV::TableInstructions(TableInstructions::TableSet(x)), end))
                },
            }
        } else if 0x28 <= op <= 0x3E {
            match spec_uleb128_u32(s, off + 1) {
                Err(e) => Err(e),
                Ok((align, o1)) => match spec_uleb128_u32(s, o1) {
                    Err(e) => Err(e),
                    Ok((moff, end)) => match spec_memory_op(op, MemArg { align, offset: moff }) {
                        Some(mi) => Ok((InstructionsV::MemoryInstructions(mi), end)),
                        None => Err(DecodeError::InvalidOpcode),
                    },
                },
            }
        } else if op == 0x3F {
            Ok((InstructionsV::MemoryInstructions(MemoryInstructions::Size), off + 1))
        } else if op == 0x40 {
            Ok((InstructionsV::MemoryInstructions(MemoryInstructions::Grow), off + 1))
        } else if op == 0x41 {
            match spec_i32_const(s, off + 1) {
                Err(e) => Err(e),
                Ok((v, end)) => Ok(
                    (
                        InstructionsV::NumericInstructions(
                            NumericInstructions::I32Const,
                            Some(Primitives::I32(v)),
                        ),
                        end,
                    ),
                ),
            }
        } else if op == 0x42 {
            match spec_signed_leb128(s, off + 1) {
                Err(e) => Err(e),
                Ok((v, end)) => Ok(
                    (
                        InstructionsV::NumericInstructions(
                            NumericInstructions::I64Const,
                            Some(Primitives::I64(v)),
                        ),
                        end,
                    ),
                ),
            }
        } else if op == 0x43 {
            match spec_f32_bits(s, off + 1) {
                Err(e) => Err(e),
                Ok((v, end)) => Ok(
                    (
                        InstructionsV::NumericInstructions(
                            NumericInstructions::F32Const,
                            Some(Primitives::F32(v)),
                        ),
                        end,
                    ),
                ),
            }
        } else if op == 0x44 {
            match spec_f64_bits(s, off + 1) {
                Err(e) => Err(e),
                Ok((v, end)) => Ok(
                    (
                        InstructionsV::NumericInstructions(
                            NumericInstructions::F64Const,
                            Some(Primitives::F64(v)),
                        ),
                        end,
                    ),
                ),
            }
        } else if 0x45 <= op <= 0xC4 {
            match spec_numeric_op(op) {
                Some(n) => Ok((InstructionsV::NumericInstructions(n, None), off + 1)),
                None => Err(DecodeError::InvalidOpcode),
            }
        } else if op == 0xD0 {
            if off + 1 >= s.len() {
                Err(DecodeError::UnexpectedEof)
            } else {
                match spec_reference_type(s[off as int + 1]) {
                    Err(e) => Err(e),
                    Ok(rt) => Ok(
                        (
                            InstructionsV::ReferenceInstructions(
                                ReferenceInstructions::RefNull(rt),
                            ),
                            off + 2,
                        ),
                    ),
                }
            }
        } else if op == 0xD1 {
            Ok(
                (
                    InstructionsV::ReferenceInstructions(ReferenceInstructions::RefIsNull),
                    off + 1,
                ),
            )
        } else if op == 0xD2 {
            match spec_uleb128_u32(s, off + 1) {
                Err(e) => Err(e),
                Ok((f, end)) => Ok(
                    (InstructionsV::ReferenceInstructions(ReferenceInstructions::RefFunc(f)), end),
                ),
            }
        } else {
            Err(DecodeError::InvalidOpcode)
        }
    }
}

/// An instruction run starting at `off`, up to and including the first
/// terminator byte at this nesting level: 0x0B (end) or 0x05 (else).  Returns
/// the decoded run, the terminator, and the offset just past it.
pub open spec fn spec_instr_seq(s: Seq<u8>, off: nat, depth: nat) -> Result<(Seq<InstructionsV>, u8, nat), DecodeError>
    decreases depth, s.len() - off, 1nat,
{
    if off >= s.len() {
        Err(DecodeError::UnterminatedExpression)
    } else if s[off as int] == 0x0B || s[off as int] == 0x05 {
        Ok((Seq::empty(), s[off as int], off + 1))
    } else {
        match spec_instr(s, off, depth) {
            Err(e) => Err(e),
            Ok((i, end)) => if end <= off || end > s.len() {
                // Unreachable: a decoded instruction always advances the
                // cursor and stays inside the buffer.
                Err(DecodeError::UnterminatedExpression)
            } else {
                match spec_instr_seq(s, end, depth) {
                    Err(e) => Err(e),
                    Ok((rest, term, e2)) => Ok((seq![i] + rest, term, e2)),
                }
            },
        }
    }
}

/// A whole expression at `off`: an instruction run closed by 0x0B.  An
/// `else` byte at this level is no instruction and is rejected.
pub open spec fn spec_expression(s: Seq<u8>, off: nat) -> Result<(Seq<InstructionsV>, nat), DecodeError> {
    match spec_instr_seq(s, off, MAX_NESTING_DEPTH as nat) {
        Err(e) => Err(e),
        Ok((body, term, end)) => if term == 0x0B {
            Ok((body, end))
        } else {
            Err(DecodeError::InvalidOpcode)
        },
    }
}

/// A constant expression: exactly one constant instruction, then 0x0B.
pub open spec fn spec_const_expression(s: Seq<u8>, off: nat) -> Result<(Seq<InstructionsV>, nat), DecodeError> {
    if off >= s.len() {
        Err(DecodeError::UnexpectedEof)
    } else {
        let op = s[off as int];
        if op == 0x41 || op == 0x42 || op == 0x43 || op == 0x44 {
            match spec_instr(s, off, 0) {
                Err(e) => Err(e),
                Ok((i, end)) => if end >= s.len() {
                    Err(DecodeError::UnterminatedExpression)
                } else if s[end as int] != 0x0B {
                    Err(DecodeError::InvalidOpcode)
                } else {
                    Ok((seq![i], end + 1))
                },
            }
        } else {
            Err(DecodeError::InvalidOpcode)
        }
    }
}

// ---------------------------------------------------------------------------
// Executable instruction decoder
// ---------------------------------------------------------------------------

/// Block-introducing control instructions, opcodes 0x02..=0x04, which
/// recursively decode their nested sequences.
#[verifier::rlimit(100)]
#[verifier::spinoff_prover]
fn decode_block_instr(bytes: &[u8], offset: usize, depth: u32) -> (r: Result<
    (Instructions, usize),
    DecodeError,
>)
    requires
        offset < bytes@.len(),
        0x02 <= bytes@[offset as int] <= 0x04,
    ensures
        ({
            let sr = spec_instr(bytes@, offset as nat, depth as nat);
            match r {
                Ok((i, end)) => sr == Ok::<(InstructionsV, nat), DecodeError>(
                    (instr_view(i), end as nat),
                ) && offset < end <= bytes@.len(),
                Err(e) => sr == Err::<(InstructionsV, nat), DecodeError>(e),
            }
        }),
    decreases depth as nat, 0nat,
{
    let op = bytes[offset];
    if op == 0x02 || op == 0x03 {
        if depth == 0 {
            return Err(DecodeError::NestingTooDeep);
        }
        if offset + 1 >= bytes.len() {
            return Err(DecodeError::UnexpectedEof);
        }
        match block_type_from_byte(bytes[offset + 1]) {
            Err(e) => Err(e),
            Ok(bt) => match decode_instr_seq(bytes, offset + 2, depth - 1) {
                Err(e) => Err(e),
                Ok((body, term, end)) => if term == 0x0B {
                    let e = Expression { instructions: body };
                    if op == 0x02 {
                        Ok(
                            (
                                Instructions::ControlInstructions(
                                    ControlInstructions::Block(bt, e),
                                ),
                                end,
                            ),
                        )
                    } else {
                        Ok(
                            (
                                Instructions::ControlInstructions(ControlInstructions::Loop(bt, e)),
                                end,
                            ),
                        )
                    }
                } else {
                    Err(DecodeError::InvalidOpcode)
                },
            },
        }
    } else {
        if depth == 0 {
            return Err(DecodeError::NestingTooDeep);
        }
        if offset + 1 >= bytes.len() {
            return Err(DecodeError::UnexpectedEof);
        }
        match block_type_from_byte(bytes[offset + 1]) {
            Err(e) => Err(e),
            Ok(bt) => match decode_instr_seq(bytes, offset + 2, depth - 1) {
                Err(e) => Err(e),
                Ok((thn, term, end)) => if term == 0x0B {
                    Ok(
                        (
                            Instructions::ControlInstructions(
                                ControlInstructions::If(bt, Expression { instructions: thn }, None),
                            ),
                            end,
                        ),
                    )
                } else {
                    match decode_instr_seq(bytes, end, depth - 1) {
                        Err(e) => Err(e),
                        Ok((els, term2, end2)) => if term2 == 0x0B {
                            Ok(
                                (
                                    Instructions::ControlInstructions(
                                        ControlInstructions::If(
                                            bt,
                                            Expression { instructions: thn },
                                            Some(Expression { instructions: els }),
                                        ),
                                    ),
                                    end2,
                                ),
                            )
                        } else {
                            Err(DecodeError::InvalidOpcode)
                        },
                    }
                },
            },
        }
    }
}

/// Control instructions, opcodes 0x00..=0x11.
#[verifier::spinoff_prover]
fn decode_control_instr(bytes: &[u8], offset: usize, depth: u32) -> (r: Result<
    (Instructions, usize),
    DecodeError,
>)
    requires
        offset < bytes@.len(),
        bytes@[offset as int] <= 0x11,
    ensures
        ({
            let sr = spec_instr(bytes@, offset as nat, depth as nat);
            match r {
                Ok((i, end)) => sr == Ok::<(InstructionsV, nat), DecodeError>(
                    (instr_view(i), end as nat),
                ) && offset < end <= bytes@.len(),
                Err(e) => sr == Err::<(InstructionsV, nat), DecodeError>(e),
            }
        }),
    decreases depth as nat, 1nat,
{
    let op = bytes[offset];
    if op == 0x00 {
        Ok((Instructions::ControlInstructions(ControlInstructions::Unreachable), offset + 1))
    } else if op == 0x01 {
        Ok((Instructions::ControlInstructions(ControlInstructions::Nop), offset + 1))
    } else if op == 0x02 || op == 0x03 || op == 0x04 {
        decode_block_instr(bytes, offset, depth)
    } else if op == 0x0C || op == 0x0D {
        match uleb128_decode_u32(bytes, offset + 1) {
            Err(e) => Err(e),
            Ok((l, end)) => if op == 0x0C {
                Ok((Instructions::ControlInstructions(ControlInstructions::Br(l)), end))
            } else {
                Ok((Instructions::ControlInstructions(ControlInstructions::BrIf(l)), end))
            },
        }
    } else if op == 0x0E {
        match uleb128_decode_u32(bytes, offset + 1) {
            Err(e) => Err(e),
            Ok((n, o1)) => match decode_u32_list(bytes, o1, n) {
                Err(e) => Err(e),
                Ok((labels, o2)) => match uleb128_decode_u32(bytes, o2) {
                    Err(e) => Err(e),
                    Ok((dflt, end)) => Ok(
                        (
                            Instructions::ControlInstructions(
                                ControlInstructions::BrTable(labels, dflt),
                            ),
                            end,
                        ),
                    ),
                },
            },
        }
    } else if op == 0x0F {
        Ok((Instructions::ControlInstructions(ControlInstructions::Return), offset + 1))
    } else if op == 0x10 {
        match uleb128_decode_u32(bytes, offset + 1) {
            Err(e) => Err(e),
            Ok((f, end)) => Ok(
                (Instructions::ControlInstructions(ControlInstructions::Call(f)), end),
            ),
        }
    } else if op == 0x11 {
        match uleb128_decode_u32(bytes, offset + 1) {
            Err(e) => Err(e),
            Ok((ty, o1)) => match uleb128_decode_u32(bytes, o1) {
                Err(e) => Err(e),
                Ok((tb, end)) => Ok(
                    (
                        Instructions::ControlInstructions(ControlInstructions::CallIndirect(ty, tb)),
                        end,
                    ),
                ),
            },
        }
    } else {
        Err(DecodeError::InvalidOpcode)
    }
}

/// Parametric instructions, opcodes 0x1A..=0x1C.
#[verifier::spinoff_prover]
fn decode_parametric_instr(bytes: &[u8], offset: usize, depth: u32) -> (r: Result<
    (Instructions, usize),
    DecodeError,
>)
    requires
        offset < bytes@.len(),
        0x1A <= bytes@[offset as int] <= 0x1C,
    ensures
        ({
            let sr = spec_instr(bytes@, offset as nat, depth as nat);
            match r {
                Ok((i, end)) => sr == Ok::<(InstructionsV, nat), DecodeError>(
                    (instr_view(i), end as nat),
                ) && offset < end <= bytes@.len(),
                Err(e) => sr == Err::<(InstructionsV, nat), DecodeError>(e),
            }
        }),
{
    let op = bytes[offset];
    if op == 0x1A {
        Ok((Instructions::ParametricInstructions(ParametricInstructions::Drop), offset + 1))
    } else if op == 0x1B {
        Ok((Instructions::ParametricInstructions(ParametricInstructions::Select), offset + 1))
    } else {
        match uleb128_decode_u32(bytes, offset + 1) {
            Err(e) => Err(e),
            Ok((n, o1)) => match decode_value_types(bytes, o1, n) {
                Err(e) => Err(e),
                Ok((tys, end)) => Ok(
                    (
                        Instructions::ParametricInstructions(ParametricInstructions::SelectV(tys)),
                        end,
                    ),
                ),
            },
        }
    }
}

/// Variable and table instructions, opcodes 0x20..=0x26.
#[verifier::spinoff_prover]
fn decode_variable_table_instr(bytes: &[u8], offset: usize, depth: u32) -> (r: Result<
    (Instructions, usize),
    DecodeError,
>)
    requires
        offset < bytes@.len(),
        0x20 <= bytes@[offset as int] <= 0x26,
        bytes@[offset as int] != 0x27,
    ensures
        ({
            let sr = spec_instr(bytes@, offset as nat, depth as nat);
            match r {
                Ok((i, end)) => sr == Ok::<(InstructionsV, nat), DecodeError>(
                    (instr_view(i), end as nat),
                ) && offset < end <= bytes@.len(),
                Err(e) => sr == Err::<(InstructionsV, nat), DecodeError>(e),
            }
        }),
{
    let op = bytes[offset];
    match uleb128_decode_u32(bytes, offset + 1) {
        Err(e) => Err(e),
        Ok((x, end)) => {
            if op <= 0x24 {
                let vi = if op == 0x20 {
                    VariableInstructions::LocalGet(x)
                } else if op == 0x21 {
                    VariableInstructions::LocalSet(x)
                } else if op == 0x22 {
                    VariableInstructions::LocalTee(x)
                } else if op == 0x23 {
                    VariableInstructions::GlobalGet(x)
                } else {
                    VariableInstructions::GlobalSet(x)
                };
                Ok((Instructions::VariableInstructions(vi), end))
            } else if op == 0x25 {
                Ok((Instructions::TableInstructions(TableInstructions::TableGet(x)), end))
            } else {
                Ok((Instructions::TableInstructions(TableInstructions::TableSet(x)), end))
            }
        },
    }
}

/// Memory instructions, opcodes 0x28..=0x40.
#[verifier::spinoff_prover]
fn decode_memory_instr(bytes: &[u8], offset: usize, depth: u32) -> (r: Result<
    (Instructions, usize),
    DecodeError,
>)
    requires
        offset < bytes@.len(),
        0x28 <= bytes@[offset as int] <= 0x40,
    ensures
        ({
            let sr = spec_instr(bytes@, offset as nat, depth as nat);
            match r {
                Ok((i, end)) => sr == Ok::<(InstructionsV, nat), DecodeError>(
                    (instr_view(i), end as nat),
                ) && offset < end <= bytes@.len(),
                Err(e) => sr == Err::<(InstructionsV, nat), DecodeError>(e),
            }
        }),
{
    let op = bytes[offset];
    if op == 0x3F {
        Ok((Instructions::MemoryInstructions(MemoryInstructions::Size), offset + 1))
    } else if op == 0x40 {
        Ok((Instructions::MemoryInstructions(MemoryInstructions::Grow), offset + 1))
    } else {
        match uleb128_decode_u32(bytes, offset + 1) {
            Err(e) => Err(e),
            Ok((align, o1)) => match uleb128_decode_u32(bytes, o1) {
                Err(e) => Err(e),
                Ok((moff, end)) => match memory_op_from_byte(op, MemArg { align, offset: moff }) {
                    Some(mi) => Ok((Instructions::MemoryInstructions(mi), end)),
                    None => Err(DecodeError::InvalidOpcode),
                },
            },
        }
    }
}

/// Numeric instructions, opcodes 0x41..=0xC4.
#[verifier::spinoff_prover]
fn decode_numeric_instr(bytes: &[u8], offset: usize, depth: u32) -> (r: Result<
    (Instructions, usize),
    DecodeError,
>)
    requires
        offset < bytes@.len(),
        0x41 <= bytes@[offset as int] <= 0xC4,
    ensures
        ({
            let sr = spec_instr(bytes@, offset as nat, depth as nat);
            match r {
                Ok((i, end)) => sr == Ok::<(InstructionsV, nat), DecodeError>(
                    (instr_view(i), end as nat),
                ) && offset < end <= bytes@.len(),
                Err(e) => sr == Err::<(InstructionsV, nat), DecodeError>(e),
            }
        }),
{
    let op = bytes[offset];
    if op == 0x41 {
        match decode_i32_const(bytes, offset + 1) {
            Err(e) => Err(e),
            Ok((v, end)) => Ok(
                (
                    Instructions::NumericInstructions(
                        NumericInstructions::I32Const,
                        Some(Primitives::I32(v)),
                    ),
                    end,
                ),
            ),
        }
    } else if op == 0x42 {
        match signed_leb128_decode(bytes, offset + 1) {
            Err(e) => Err(e),
            Ok((v, end)) => Ok(
                (
                    Instructions::NumericInstructions(
                        NumericInstructions::I64Const,
                        Some(Primitives::I64(v)),
                    ),
                    end,
                ),
            ),
        }
    } else if op == 0x43 {
        match decode_f32_bits(bytes, offset + 1) {
            Err(e) => Err(e),
            Ok((v, end)) => Ok(
                (
                    Instructions::NumericInstructions(
                        NumericInstructions::F32Const,
                        Some(Primitives::F32(v)),
                    ),
                    end,
                ),
            ),
        }
    } else if op == 0x44 {
        match decode_f64_bits(bytes, offset + 1) {
            Err(e) => Err(e),
            Ok((v, end)) => Ok(
                (
                    Instructions::NumericInstructions(
                        NumericInstructions::F64Const,
                        Some(Primitives::F64(v)),
                    ),
                    end,
                ),
            ),
        }
    } else {
        match numeric_op_from_byte(op) {
            Some(n) => Ok((Instructions::NumericInstructions(n, None), offset + 1)),
            None => Err(DecodeError::InvalidOpcode),
        }
    }
}

/// Reference instructions, opcodes 0xD0..=0xD2.
#[verifier::spinoff_prover]
fn decode_reference_instr(bytes: &[u8], offset: usize, depth: u32) -> (r: Result<
    (Instructions, usize),
    DecodeError,
>)
    requires
        offset < bytes@.len(),
        0xD0 <= bytes@[offset as int] <= 0xD2,
    ensures
        ({
            let sr = spec_instr(bytes@, offset as nat, depth as nat);
            match r {
                Ok((i, end)) => sr == Ok::<(InstructionsV, nat), DecodeError>(
                    (instr_view(i), end as nat),
                ) && offset < end <= bytes@.len(),
                Err(e) => sr == Err::<(InstructionsV, nat), DecodeError>(e),
            }
        }),
{
    let op = bytes[offset];
    if op == 0xD0 {
        if offset + 1 >= bytes.len() {
            return Err(DecodeError::UnexpectedEof);
        }
        match reference_type_from_byte(bytes[offset + 1]) {
            Err(e) => Err(e),
            Ok(rt) => Ok(
                (
                    Instructions::ReferenceInstructions(ReferenceInstructions::RefNull(rt)),
                    offset + 2,
                ),
            ),
        }
    } else if op == 0xD1 {
        Ok((Instructions::ReferenceInstructions(ReferenceInstructions::RefIsNull), offset + 1))
    } else {
        match uleb128_decode_u32(bytes, offset + 1) {
            Err(e) => Err(e),
            Ok((f, end)) => Ok(
                (Instructions::ReferenceInstructions(ReferenceInstructions::RefFunc(f)), end),
            ),
        }
    }
}

/// Decode one instruction at `offset`: dispatch the opcode byte to its
/// family by numeric range.
#[verifier::spinoff_prover]
pub fn decode_instr(bytes: &[u8], offset: usize, depth: u32) -> (r: Result<
    (Instructions, usize),
    DecodeError,
>)
    ensures
        ({
            let sr = spec_instr(bytes@, offset as nat, depth as nat);
            match r {
                Ok((i, end)) => sr == Ok::<(InstructionsV, nat), DecodeError>(
                    (instr_view(i), end as nat),
                ) && offset < end <= bytes@.len(),
                Err(e) => sr == Err::<(InstructionsV, nat), DecodeError>(e),
            }
        }),
    decreases depth as nat, 2nat,
{
    if offset >= bytes.len() {
        return Err(DecodeError::UnexpectedEof);
    }
    let op = bytes[offset];
    if op <= 0x11 {
        decode_control_instr(bytes, offset, depth)
    } else if 0x1A <= op && op <= 0x1C {
        decode_parametric_instr(bytes, offset, depth)
    } else if 0x20 <= op && op <= 0x26 {
        decode_variable_table_instr(bytes, offset, depth)
    } else if 0x28 <= op && op <= 0x40 {
        decode_memory_instr(bytes, offset, depth)
    } else if 0x41 <= op && op <= 0xC4 {
        decode_numeric_instr(bytes, offset, depth)
    } else if 0xD0 <= op && op <= 0xD2 {
        decode_reference_instr(bytes, offset, depth)
    } else {
        Err(DecodeError::InvalidOpcode)
    }
}

/// Decode an instruction run up to and including its terminator at this
/// nesting level.
pub fn decode_instr_seq(bytes: &[u8], offset: usize, depth: u32) -> (r: Result<
    (Vec<Instructions>, u8, usize),
    DecodeError,
>)
    ensures
        ({
            let sr = spec_instr_seq(bytes@, offset as nat, depth as nat);
            match r {
                Ok((v, term, end)) => sr == Ok::<(Seq<InstructionsV>, u8, nat), DecodeError>(
                    (instr_seq_view(v@), term, end as nat),
                ) && offset < end <= bytes@.len(),
                Err(e) => sr == Err::<(Seq<InstructionsV>, u8, nat), DecodeError>(e),
            }
        }),
    decreases depth as nat, 3nat,
{
    let mut acc: Vec<Instructions> = Vec::new();
    let mut cur = offset;
    loop
        invariant
            offset <= cur && (cur <= bytes@.len() || cur == offset),
            ({
                let whole = spec_instr_seq(bytes@, offset as nat, depth as nat);
                match spec_instr_seq(bytes@, cur as nat, depth as nat) {
                    Ok((rest, term, end)) => whole == Ok::<
                        (Seq<InstructionsV>, u8, nat),
                        DecodeError,
                    >((instr_seq_view(acc@) + rest, term, end)),
                    Err(e) => whole == Err::<(Seq<InstructionsV>, u8, nat), DecodeError>(e),
                }
            }),
        decreases bytes@.len() - cur,
    {
        if cur >= bytes.len() {
            return Err(DecodeError::UnterminatedExpression);
        }
        let op = bytes[cur];
        if op == 0x0B || op == 0x05 {
            proof {
                broadcast use lemma_instr_seq_view;

                assert(instr_seq_view(acc@) + Seq::<InstructionsV>::empty() =~= instr_seq_view(
                    acc@,
                ));
            }
            return Ok((acc, op, cur + 1));
        }
        match decode_instr(bytes, cur, depth) {
            Err(e) => {
                return Err(e);
            },
            Ok((i, end)) => {
                proof {
                    broadcast use lemma_instr_seq_view;

                    assert(instr_seq_view(acc@.push(i)) =~= instr_seq_view(acc@).push(
                        instr_view(i),
                    ));
                    match spec_instr_seq(bytes@, end as nat, depth as nat) {
                        Ok((rest, term, e2)) => {
                            assert(instr_seq_view(acc@) + (seq![instr_view(i)] + rest)
                                =~= instr_seq_view(acc@).push(instr_view(i)) + rest);
                        },
                        Err(_) => {},
                    }
                }
                acc.push(i);
                cur = end;
            },
        }
    }
}

impl Expression {
    /// Decode a whole expression at `offset`: instructions up to the first
    /// unmatched 0x0B.
    pub fn from_bytes(bytes: &[u8], offset: usize) -> (r: Result<(Expression, usize), DecodeError>)
        ensures
            ({
                let sr = spec_expression(bytes@, offset as nat);
                match r {
                    Ok((e, end)) => sr == Ok::<(Seq<InstructionsV>, nat), DecodeError>(
                        (e@, end as nat),
                    ) && offset < end <= bytes@.len(),
                    Err(e) => sr == Err::<(Seq<InstructionsV>, nat), DecodeError>(e),
                }
            }),
    {
        match decode_instr_seq(bytes, offset, MAX_NESTING_DEPTH) {
            Err(e) => Err(e),
            Ok((v, term, end)) => if term == 0x0B {
                Ok((Expression { instructions: v }, end))
            } else {
                Err(DecodeError::InvalidOpcode)
            },
        }
    }

    /// Decode a constant expression at `offset`: one constant instruction
    /// closed by 0x0B.
    pub fn const_from_bytes(bytes: &[u8], offset: usize) -> (r: Result<
        (Expression, usize),
        DecodeError,
    >)
        ensures
            ({
                let sr = spec_const_expression(bytes@, offset as nat);
                match r {
                    Ok((e, end)) => sr == Ok::<(Seq<InstructionsV>, nat), DecodeError>(
                        (e@, end as nat),
                    ) && offset < end <= bytes@.len(),
                    Err(e) => sr == Err::<(Seq<InstructionsV>, nat), DecodeError>(e),
                }
            }),
    {
        if offset >= bytes.len() {
            return Err(DecodeError::UnexpectedEof);
        }
        let op = bytes[offset];
        if !(op == 0x41 || op == 0x42 || op == 0x43 || op == 0x44) {
            return Err(DecodeError::InvalidOpcode);
        }
        match decode_instr(bytes, offset, 0) {
            Err(e) => Err(e),
            Ok((i, end)) => {
                if end >= bytes.len() {
                    return Err(DecodeError::UnterminatedExpression);
                }
                if bytes[end] != 0x0B {
                    return Err(DecodeError::InvalidOpcode);
                }
                let mut v: Vec<Instructions> = Vec::new();
                v.push(i);
                proof {
                    broadcast use lemma_instr_seq_view;

                    assert(instr_seq_view(v@) =~= seq![instr_view(i)]);
                }
                Ok((Expression { instructions: v }, end + 1))
            },
        }
    }
}

} // verus!
