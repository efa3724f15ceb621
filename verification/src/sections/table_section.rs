use vstd::prelude::*;

use crate::errors::DecodeError;
use crate::sections::spec_section_frame;
use crate::sections::section_frame;
pub use crate::sections::types::{ReferenceType, TableType};
use crate::sections::types::spec_table_type;
use crate::utils::{spec_uleb128_u32, uleb128_decode_u32};

verus! {

/// The table section, id 4: exactly one table type — multiple tables are
/// outside the decoded scope, so any other table count is rejected as a
/// framing mismatch.
#[derive(Debug, Clone, PartialEq, Eq)]
pub struct TableSection {
    /// Total framed length of the section: id byte, length field, content.
    pub data_len: usize,
    pub table_types: Vec<TableType>,
}

/// Mathematical shape of a `TableSection`.
pub struct TableSectionV {
    pub data_len: nat,
    pub table_types: Seq<TableType>,
}

impl View for TableSection {
    type V = TableSectionV;

    open spec fn view(&self) -> TableSectionV {
        TableSectionV { data_len: self.data_len as nat, table_types: self.table_types@ }
    }
}

/// The table section at `off`: its frame, a table count that must be one,
/// then that table's type filling the content exactly.
pub open spec fn spec_table_section(s: Seq<u8>, off: nat) -> Result<(TableSectionV, nat), DecodeError> {
    match spec_section_frame(s, off, 4) {
        Err(e) => Err(e),
        Ok((body, end)) => match spec_uleb128_u32(s, body) {
            Err(e) => Err(e),
            Ok((count, o1)) => if count != 1 {
                Err(DecodeError::SectionLengthMismatch)
            } else {
                match spec_table_type(s, o1) {
                    Err(e) => Err(e),
                    Ok((tt, consumed)) => if consumed != end {
                        Err(DecodeError::SectionLengthMismatch)
                    } else {
                        Ok((TableSectionV { data_len: (end - off) as nat, table_types: seq![tt] }, end))
                    },
                }
            },
        },
    }
}

impl TableSection {
    /// The id byte of every table section.
    pub fn id() -> (r: u8)
        ensures
            r == 4,
    {
        4
    }

    /// Decode the table section at `offset`.
    pub fn from_bytes(bytes: &[u8], offset: usize) -> (r: Result<TableSection, DecodeError>)
        ensures
            ({
                let sr = spec_table_section(bytes@, offset as nat);
                match r {
                    Ok(sec) => sr matches Ok(p) && p.0 == sec@ && offset + sec.data_len == p.1,
                    Err(e) => sr == Err::<(TableSectionV, nat), DecodeError>(e),
                }
            }),
    {
        match section_frame(bytes, offset, 4) {
            Err(e) => Err(e),
            Ok((body, end)) => match uleb128_decode_u32(bytes, body) {
                Err(e) => Err(e),
                Ok((count, o1)) => {
                    if count != 1 {
                        return Err(DecodeError::SectionLengthMismatch);
                    }
                    match TableType::from_bytes(bytes, o1) {
                        Err(e) => Err(e),
                        Ok((tt, consumed)) => if consumed != end {
                            Err(DecodeError::SectionLengthMismatch)
                        } else {
                            let mut table_types: Vec<TableType> = Vec::new();
                            table_types.push(tt);
                            proof {
                                assert(table_types@ =~= seq![tt]);
                            }
                            Ok(TableSection { data_len: end - offset, table_types })
                        },
                    }
                },
            },
        }
    }
}

} // verus!
