use vstd::prelude::*;

use crate::errors::DecodeError;
use crate::instructions::{spec_const_expression, Expression, InstructionsV};
use crate::sections::spec_section_frame;
use crate::sections::section_frame;
pub use crate::sections::types::GlobalType;
use crate::sections::types::spec_global_type;
use crate::utils::{spec_uleb128_u32, uleb128_decode_u32};

verus! {

/// One global: its type and its constant initializer, which is a single
/// constant instruction closed by the end byte.
#[derive(Debug)]
pub struct Global {
    pub global_type: GlobalType,
    pub init_expr: Expression,
}

/// Mathematical shape of a `Global`.
pub struct GlobalV {
    pub global_type: GlobalType,
    pub init_expr: Seq<InstructionsV>,
}

impl View for Global {
    type V = GlobalV;

    open spec fn view(&self) -> GlobalV {
        GlobalV { global_type: self.global_type, init_expr: self.init_expr@ }
    }
}

/// The global section, id 6: the module's globals, in order.
#[derive(Debug)]
pub struct GlobalSection {
    /// Total framed length of the section: id byte, length field, content.
    pub data_len: usize,
    pub globals: Vec<Global>,
}

/// Mathematical shape of a `GlobalSection`.
pub struct GlobalSectionV {
    pub data_len: nat,
    pub globals: Seq<GlobalV>,
}

/// Pointwise view of a sequence of globals.
pub open spec fn globals_view(v: Seq<Global>) -> Seq<GlobalV> {
    Seq::new(v.len(), |i: int| v[i]@)
}

impl View for GlobalSection {
    type V = GlobalSectionV;

    open spec fn view(&self) -> GlobalSectionV {
        GlobalSectionV { data_len: self.data_len as nat, globals: globals_view(self.globals@) }
    }
}

/// One global at `off`: a global type, then its constant initializer.
pub open spec fn spec_global(s: Seq<u8>, off: nat) -> Result<(GlobalV, nat), DecodeError> {
    match spec_global_type(s, off) {
        Err(e) => Err(e),
        Ok((gt, o1)) => match spec_const_expression(s, o1) {
            Err(e) => Err(e),
            Ok((init, end)) => Ok((GlobalV { global_type: gt, init_expr: init }, end)),
        },
    }
}

/// Decode one global at `offset`.
fn decode_global(bytes: &[u8], offset: usize) -> (r: Result<(Global, usize), DecodeError>)
    ensures
        ({
            let sr = spec_global(bytes@, offset as nat);
            match r {
                Ok((g, end)) => sr == Ok::<(GlobalV, nat), DecodeError>((g@, end as nat))
                    && offset < end <= bytes@.len(),
                Err(e) => sr == Err::<(GlobalV, nat), DecodeError>(e),
            }
        }),
{
    match GlobalType::from_bytes(bytes, offset) {
        Err(e) => Err(e),
        Ok((gt, o1)) => match Expression::const_from_bytes(bytes, o1) {
            Err(e) => Err(e),
            Ok((init, end)) => Ok((Global { global_type: gt, init_expr: init }, end)),
        },
    }
}

/// `count` globals in a row starting at `off`.
pub open spec fn spec_globals(s: Seq<u8>, off: nat, count: nat) -> Result<(Seq<GlobalV>, nat), DecodeError>
    decreases count,
{
    if count == 0 {
        Ok((Seq::empty(), off))
    } else {
        match spec_global(s, off) {
            Err(e) => Err(e),
            Ok((x, o1)) => match spec_globals(s, o1, (count - 1) as nat) {
                Err(e) => Err(e),
                Ok((rest, end)) => Ok((seq![x] + rest, end)),
            },
        }
    }
}

/// The global section at `off`: its frame, an entry count, then that many
/// entries filling the content exactly.
pub open spec fn spec_global_section(s: Seq<u8>, off: nat) -> Result<(GlobalSectionV, nat), DecodeError> {
    match spec_section_frame(s, off, 6) {
        Err(e) => Err(e),
        Ok((body, end)) => match spec_uleb128_u32(s, body) {
            Err(e) => Err(e),
            Ok((count, o1)) => match spec_globals(s, o1, count as nat) {
                Err(e) => Err(e),
                Ok((globals, consumed)) => if consumed != end {
                    Err(DecodeError::SectionLengthMismatch)
                } else {
                    Ok((GlobalSectionV { data_len: (end - off) as nat, globals }, end))
                },
            },
        },
    }
}

impl GlobalSection {
    /// The id byte of every global section.
    pub fn id() -> (r: u8)
        ensures
            r == 6,
    {
        6
    }


    /// Decode the global section at `offset`.
    pub fn from_bytes(bytes: &[u8], offset: usize) -> (r: Result<GlobalSection, DecodeError>)
        ensures
            ({
                let sr = spec_global_section(bytes@, offset as nat);
                match r {
                    Ok(sec) => sr matches Ok(p) && p.0 == sec@ && offset + sec.data_len == p.1,
                    Err(e) => sr == Err::<(GlobalSectionV, nat), DecodeError>(e),
                }
            }),
    {
        match section_frame(bytes, offset, 6) {
            Err(e) => Err(e),
            Ok((body, end)) => match uleb128_decode_u32(bytes, body) {
                Err(e) => Err(e),
                Ok((count, o1)) => match decode_globals(bytes, o1, count) {
                    Err(e) => Err(e),
                    Ok((globals, consumed)) => if consumed != end {
                        Err(DecodeError::SectionLengthMismatch)
                    } else {
                        Ok(GlobalSection { data_len: end - offset, globals })
                    },
                },
            },
        }
    }
}

/// Decode `count` consecutive globals.
fn decode_globals(bytes: &[u8], offset: usize, count: u32) -> (r: Result<
    (Vec<Global>, usize),
    DecodeError,
>)
    ensures
        ({
            let sr = spec_globals(bytes@, offset as nat, count as nat);
            match r {
                Ok((v, end)) => sr == Ok::<(Seq<GlobalV>, nat), DecodeError>(
                    (globals_view(v@), end as nat),
                ) && offset <= end && (end <= bytes@.len() || end == offset),
                Err(e) => sr == Err::<(Seq<GlobalV>, nat), DecodeError>(e),
            }
        }),
{
    let mut acc: Vec<Global> = Vec::new();
    let mut cur = offset;
    let mut i: u32 = 0;
    while i < count
        invariant
            i <= count,
            offset <= cur && (cur <= bytes@.len() || cur == offset),
            acc@.len() == i as nat,
            ({
                let whole = spec_globals(bytes@, offset as nat, count as nat);
                match spec_globals(bytes@, cur as nat, (count - i) as nat) {
                    Ok((rest, end)) => whole == Ok::<(Seq<GlobalV>, nat), DecodeError>(
                        (globals_view(acc@) + rest, end),
                    ),
                    Err(e) => whole == Err::<(Seq<GlobalV>, nat), DecodeError>(e),
                }
            }),
        decreases count - i,
    {
        match decode_global(bytes, cur) {
            Err(e) => {
                return Err(e);
            },
            Ok((x, end)) => {
                proof {
                    assert(globals_view(acc@.push(x)) =~= globals_view(acc@).push(x@));
                    match spec_globals(bytes@, end as nat, (count - i - 1) as nat) {
                        Ok((rest, e2)) => {
                            assert(globals_view(acc@) + (seq![x@] + rest) =~= globals_view(
                                acc@,
                            ).push(x@) + rest);
                        },
                        Err(_) => {},
                    }
                }
                acc.push(x);
                cur = end;
                i = i + 1;
            },
        }
    }
    proof {
        assert(globals_view(acc@) + Seq::<GlobalV>::empty() =~= globals_view(acc@));
    }
    Ok((acc, cur))
}

} // verus!
