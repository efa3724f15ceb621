use vstd::prelude::*;

use crate::errors::DecodeError;
pub use crate::instructions::Expression;
use crate::instructions::{spec_expression, InstructionsV};
use crate::sections::spec_section_frame;
use crate::sections::section_frame;
use crate::sections::types::{spec_value_type, value_type_from_byte, ValueType};
use crate::utils::{spec_uleb128_u32, uleb128_decode_u32};

verus! {

/// One run of identical locals in a body's declaration list: how many, and
/// of which value type.
#[derive(Debug, Clone, Copy, PartialEq, Eq)]
pub struct Locals {
    pub count: u32,
    pub value_type: ValueType,
}

/// One function body: its local declarations and its code, matched by
/// position to the function section's type indices.
#[derive(Debug)]
pub struct Code {
    pub locals: Vec<Locals>,
    pub body: Expression,
}

/// Mathematical shape of a `Code`.
pub struct CodeV {
    pub locals: Seq<Locals>,
    pub body: Seq<InstructionsV>,
}

impl View for Code {
    type V = CodeV;

    open spec fn view(&self) -> CodeV {
        CodeV { locals: self.locals@, body: self.body@ }
    }
}

/// The code section, id 10: one body per function defined in the module.
#[derive(Debug)]
pub struct CodeSection {
    /// Total framed length of the section: id byte, length field, content.
    pub data_len: usize,
    pub codes: Vec<Code>,
}

/// Mathematical shape of a `CodeSection`.
pub struct CodeSectionV {
    pub data_len: nat,
    pub codes: Seq<CodeV>,
}

/// Pointwise view of a sequence of function bodies.
pub open spec fn codes_view(v: Seq<Code>) -> Seq<CodeV> {
    Seq::new(v.len(), |i: int| v[i]@)
}

impl View for CodeSection {
    type V = CodeSectionV;

    open spec fn view(&self) -> CodeSectionV {
        CodeSectionV { data_len: self.data_len as nat, codes: codes_view(self.codes@) }
    }
}

/// One local-declaration run at `off`: a count, then a value-type byte.
pub open spec fn spec_local(s: Seq<u8>, off: nat) -> Result<(Locals, nat), DecodeError> {
    match spec_uleb128_u32(s, off) {
        Err(e) => Err(e),
        Ok((n, o1)) => if o1 >= s.len() {
            Err(DecodeError::UnexpectedEof)
        } else {
            match spec_value_type(s[o1 as int]) {
                Err(e) => Err(e),
                Ok(vt) => Ok((Locals { count: n, value_type: vt }, o1 + 1)),
            }
        },
    }
}

/// `count` local-declaration runs in a row starting at `off`.
pub open spec fn spec_locals_list(s: Seq<u8>, off: nat, count: nat) -> Result<(Seq<Locals>, nat), DecodeError>
    decreases count,
{
    if count == 0 {
        Ok((Seq::empty(), off))
    } else {
        match spec_local(s, off) {
            Err(e) => Err(e),
            Ok((l, o1)) => match spec_locals_list(s, o1, (count - 1) as nat) {
                Err(e) => Err(e),
                Ok((rest, end)) => Ok((seq![l] + rest, end)),
            },
        }
    }
}

/// One function body at `off`: its declared byte size, the local
/// declarations, and the expression; everything after the size field must
/// fill exactly that many bytes.
pub open spec fn spec_code(s: Seq<u8>, off: nat) -> Result<(CodeV, nat), DecodeError> {
    match spec_uleb128_u32(s, off) {
        Err(e) => Err(e),
        Ok((size, o1)) => match spec_uleb128_u32(s, o1) {
            Err(e) => Err(e),
            Ok((lcount, o2)) => match spec_locals_list(s, o2, lcount as nat) {
                Err(e) => Err(e),
                Ok((locals, o3)) => match spec_expression(s, o3) {
                    Err(e) => Err(e),
                    Ok((body, end)) => if end - o1 != size {
                        Err(DecodeError::SectionLengthMismatch)
                    } else {
                        Ok((CodeV { locals, body }, end))
                    },
                },
            },
        },
    }
}

/// Decode `count` consecutive local-declaration runs.
fn decode_locals_list(bytes: &[u8], offset: usize, count: u32) -> (r: Result<
    (Vec<Locals>, usize),
    DecodeError,
>)
    ensures
        ({
            let sr = spec_locals_list(bytes@, offset as nat, count as nat);
            match r {
                Ok((v, end)) => sr == Ok::<(Seq<Locals>, nat), DecodeError>((v@, end as nat))
                    && offset <= end && (end <= bytes@.len() || end == offset),
                Err(e) => sr == Err::<(Seq<Locals>, nat), DecodeError>(e),
            }
        }),
{
    let mut acc: Vec<Locals> = Vec::new();
    let mut cur = offset;
    let mut i: u32 = 0;
    while i < count
        invariant
            i <= count,
            offset <= cur && (cur <= bytes@.len() || cur == offset),
            acc@.len() == i as nat,
            ({
                let whole = spec_locals_list(bytes@, offset as nat, count as nat);
                match spec_locals_list(bytes@, cur as nat, (count - i) as nat) {
                    Ok((rest, end)) => whole == Ok::<(Seq<Locals>, nat), DecodeError>(
                        (acc@ + rest, end),
                    ),
                    Err(e) => whole == Err::<(Seq<Locals>, nat), DecodeError>(e),
                }
            }),
        decreases count - i,
    {
        match uleb128_decode_u32(bytes, cur) {
            Err(e) => {
                return Err(e);
            },
            Ok((n, o1)) => {
                if o1 >= bytes.len() {
                    return Err(DecodeError::UnexpectedEof);
                }
                match value_type_from_byte(bytes[o1]) {
                    Err(e) => {
                        return Err(e);
                    },
                    Ok(vt) => {
                        let l = Locals { count: n, value_type: vt };
                        proof {
                            match spec_locals_list(bytes@, o1 as nat + 1, (count - i - 1) as nat) {
                                Ok((rest, e2)) => {
                                    assert(acc@ + (seq![l] + rest) =~= acc@.push(l) + rest);
                                },
                                Err(_) => {},
                            }
                        }
                        acc.push(l);
                        cur = o1 + 1;
                        i = i + 1;
                    },
                }
            },
        }
    }
    proof {
        assert(acc@ + Seq::<Locals>::empty() =~= acc@);
    }
    Ok((acc, cur))
}

/// Decode one function body at `offset`.
fn decode_code(bytes: &[u8], offset: usize) -> (r: Result<(Code, usize), DecodeError>)
    ensures
        ({
            let sr = spec_code(bytes@, offset as nat);
            match r {
                Ok((c, end)) => sr == Ok::<(CodeV, nat), DecodeError>((c@, end as nat))
                    && offset < end <= bytes@.len(),
                Err(e) => sr == Err::<(CodeV, nat), DecodeError>(e),
            }
        }),
{
    match uleb128_decode_u32(bytes, offset) {
        Err(e) => Err(e),
        Ok((size, o1)) => match uleb128_decode_u32(bytes, o1) {
            Err(e) => Err(e),
            Ok((lcount, o2)) => match decode_locals_list(bytes, o2, lcount) {
                Err(e) => Err(e),
                Ok((locals, o3)) => match Expression::from_bytes(bytes, o3) {
                    Err(e) => Err(e),
                    Ok((body, end)) => if (end - o1) as u64 != size as u64 {
                        Err(DecodeError::SectionLengthMismatch)
                    } else {
                        Ok((Code { locals, body }, end))
                    },
                },
            },
        },
    }
}

/// `count` function bodies in a row starting at `off`.
pub open spec fn spec_codes(s: Seq<u8>, off: nat, count: nat) -> Result<(Seq<CodeV>, nat), DecodeError>
    decreases count,
{
    if count == 0 {
        Ok((Seq::empty(), off))
    } else {
        match spec_code(s, off) {
            Err(e) => Err(e),
            Ok((x, o1)) => match spec_codes(s, o1, (count - 1) as nat) {
                Err(e) => Err(e),
                Ok((rest, end)) => Ok((seq![x] + rest, end)),
            },
        }
    }
}

/// The code section at `off`: its frame, an entry count, then that many
/// entries filling the content exactly.
pub open spec fn spec_code_section(s: Seq<u8>, off: nat) -> Result<(CodeSectionV, nat), DecodeError> {
    match spec_section_frame(s, off, 10) {
        Err(e) => Err(e),
        Ok((body, end)) => match spec_uleb128_u32(s, body) {
            Err(e) => Err(e),
            Ok((count, o1)) => match spec_codes(s, o1, count as nat) {
                Err(e) => Err(e),
                Ok((codes, consumed)) => if consumed != end {
                    Err(DecodeError::SectionLengthMismatch)
                } else {
                    Ok((CodeSectionV { data_len: (end - off) as nat, codes }, end))
                },
            },
        },
    }
}

impl CodeSection {
    /// The id byte of every code section.
    pub fn id() -> (r: u8)
        ensures
            r == 10,
    {
        10
    }


    /// Decode the code section at `offset`.
    pub fn from_bytes(bytes: &[u8], offset: usize) -> (r: Result<CodeSection, DecodeError>)
        ensures
            ({
                let sr = spec_code_section(bytes@, offset as nat);
                match r {
                    Ok(sec) => sr matches Ok(p) && p.0 == sec@ && offset + sec.data_len == p.1,
                    Err(e) => sr == Err::<(CodeSectionV, nat), DecodeError>(e),
                }
            }),
    {
        match section_frame(bytes, offset, 10) {
            Err(e) => Err(e),
            Ok((body, end)) => match uleb128_decode_u32(bytes, body) {
                Err(e) => Err(e),
                Ok((count, o1)) => match decode_codes(bytes, o1, count) {
                    Err(e) => Err(e),
                    Ok((codes, consumed)) => if consumed != end {
                        Err(DecodeError::SectionLengthMismatch)
                    } else {
                        Ok(CodeSection { data_len: end - offset, codes })
                    },
                },
            },
        }
    }
}

/// Decode `count` consecutive function bodies.
fn decode_codes(bytes: &[u8], offset: usize, count: u32) -> (r: Result<
    (Vec<Code>, usize),
    DecodeError,
>)
    ensures
        ({
            let sr = spec_codes(bytes@, offset as nat, count as nat);
            match r {
                Ok((v, end)) => sr == Ok::<(Seq<CodeV>, nat), DecodeError>(
                    (codes_view(v@), end as nat),
                ) && offset <= end && (end <= bytes@.len() || end == offset),
                Err(e) => sr == Err::<(Seq<CodeV>, nat), DecodeError>(e),
            }
        }),
{
    let mut acc: Vec<Code> = Vec::new();
    let mut cur = offset;
    let mut i: u32 = 0;
    while i < count
        invariant
            i <= count,
            offset <= cur && (cur <= bytes@.len() || cur == offset),
            acc@.len() == i as nat,
            ({
                let whole = spec_codes(bytes@, offset as nat, count as nat);
                match spec_codes(bytes@, cur as nat, (count - i) as nat) {
                    Ok((rest, end)) => whole == Ok::<(Seq<CodeV>, nat), DecodeError>(
                        (codes_view(acc@) + rest, end),
                    ),
                    Err(e) => whole == Err::<(Seq<CodeV>, nat), DecodeError>(e),
                }
            }),
        decreases count - i,
    {
        match decode_code(bytes, cur) {
            Err(e) => {
                return Err(e);
            },
            Ok((x, end)) => {
                proof {
                    assert(codes_view(acc@.push(x)) =~= codes_view(acc@).push(x@));
                    match spec_codes(bytes@, end as nat, (count - i - 1) as nat) {
                        Ok((rest, e2)) => {
                            assert(codes_view(acc@) + (seq![x@] + rest) =~= codes_view(
                                acc@,
                            ).push(x@) + rest);
                        },
                        Err(_) => {},
                    }
                }
                acc.push(x);
                cur = end;
                i = i + 1;
            },
        }
    }
    proof {
        assert(codes_view(acc@) + Seq::<CodeV>::empty() =~= codes_view(acc@));
    }
    Ok((acc, cur))
}

} // verus!
