use vstd::prelude::*;

use crate::errors::DecodeError;
use crate::sections::spec_section_frame;
use crate::sections::section_frame;
use crate::utils::{decode_name, slice_range_to_vec, spec_name};

verus! {

/// A custom section, id 0: a name and an opaque payload, never interpreted,
/// preserved as decoded.  Custom sections may repeat and may sit between any
/// two other sections.
#[derive(Debug, Clone, PartialEq, Eq)]
pub struct CustomSection {
    /// Total framed length of the section: id byte, length field, content.
    pub data_len: usize,
    pub name: String,
    pub payload: Vec<u8>,
}

/// Mathematical shape of a `CustomSection`.
pub struct CustomSectionV {
    pub data_len: nat,
    pub name: Seq<char>,
    pub payload: Seq<u8>,
}

impl View for CustomSection {
    type V = CustomSectionV;

    open spec fn view(&self) -> CustomSectionV {
        CustomSectionV {
            data_len: self.data_len as nat,
            name: self.name@,
            payload: self.payload@,
        }
    }
}

/// The custom section at `off`: its frame, a name, then the rest of the
/// content as the opaque payload.
pub open spec fn spec_custom_section(s: Seq<u8>, off: nat) -> Result<(CustomSectionV, nat), DecodeError> {
    match spec_section_frame(s, off, 0) {
        Err(e) => Err(e),
        Ok((body, end)) => match spec_name(s, body) {
            Err(e) => Err(e),
            Ok((name, n_end)) => if n_end > end {
                Err(DecodeError::SectionLengthMismatch)
            } else {
                Ok(
                    (
                        CustomSectionV {
                            data_len: (end - off) as nat,
                            name,
                            payload: s.subrange(n_end as int, end as int),
                        },
                        end,
                    ),
                )
            },
        },
    }
}

impl CustomSection {
    /// The id byte of every custom section.
    pub fn id() -> (r: u8)
        ensures
            r == 0,
    {
        0
    }

    /// Total framed length of this section in the original buffer.
    pub fn byte_count(&self) -> (r: usize)
        ensures
            r == self.data_len,
    {
        self.data_len
    }

    /// Decode the custom section at `offset`.
    pub fn from_bytes(bytes: &[u8], offset: usize) -> (r: Result<CustomSection, DecodeError>)
        ensures
            ({
                let sr = spec_custom_section(bytes@, offset as nat);
                match r {
                    Ok(sec) => sr matches Ok(p) && p.0 == sec@ && offset + sec.data_len == p.1,
                    Err(e) => sr == Err::<(CustomSectionV, nat), DecodeError>(e),
                }
            }),
    {
        match section_frame(bytes, offset, 0) {
            Err(e) => Err(e),
            Ok((body, end)) => match decode_name(bytes, body) {
                Err(e) => Err(e),
                Ok((name, n_end)) => if n_end > end {
                    Err(DecodeError::SectionLengthMismatch)
                } else {
                    let payload = slice_range_to_vec(bytes, n_end, end);
                    Ok(CustomSection { data_len: end - offset, name, payload })
                },
            },
        }
    }
}

} // verus!
