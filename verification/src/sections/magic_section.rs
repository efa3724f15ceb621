use vstd::prelude::*;

use crate::errors::DecodeError;

verus! {

/// The fixed eight-byte preamble of a module: the magic bytes `\0asm`
/// followed by the format version, little-endian, of which only version 1 is
/// accepted.  A decoded value therefore always carries version 1.
#[derive(Debug, Clone, Copy, PartialEq, Eq)]
pub struct MagicSection {
    pub version_number: u32,
}

/// The preamble at the start of `s`: the first four bytes must be
/// 0x00 0x61 0x73 0x6D, the next four must encode version 1.
pub open spec fn spec_magic_section(s: Seq<u8>) -> Result<MagicSection, DecodeError> {
    if s.len() < 8 {
        Err(DecodeError::UnexpectedEof)
    } else if !(s[0] == 0x00 && s[1] == 0x61 && s[2] == 0x73 && s[3] == 0x6D) {
        Err(DecodeError::InvalidMagicNumber)
    } else if !(s[4] == 0x01 && s[5] == 0x00 && s[6] == 0x00 && s[7] == 0x00) {
        Err(DecodeError::UnsupportedVersion)
    } else {
        Ok(MagicSection { version_number: 1 })
    }
}

impl MagicSection {
    /// The decoded format version.
    pub open spec fn spec_version(&self) -> u32 {
        self.version_number
    }

    /// Decode and check the preamble: magic bytes, then version 1.
    pub fn from_bytes(bytes: &[u8]) -> (r: Result<MagicSection, DecodeError>)
        ensures
            r == spec_magic_section(bytes@),
            r matches Ok(m) ==> m.spec_version() == 1,
    {
        if bytes.len() < 8 {
            return Err(DecodeError::UnexpectedEof);
        }
        if !(bytes[0] == 0x00 && bytes[1] == 0x61 && bytes[2] == 0x73 && bytes[3] == 0x6D) {
            return Err(DecodeError::InvalidMagicNumber);
        }
        if !(bytes[4] == 0x01 && bytes[5] == 0x00 && bytes[6] == 0x00 && bytes[7] == 0x00) {
            return Err(DecodeError::UnsupportedVersion);
        }
        Ok(MagicSection { version_number: 1 })
    }

    /// The magic bytes, read as text.
    pub fn magic_number(&self) -> (r: &'static str)
        ensures
            r@ == seq!['\u{0}', 'a', 's', 'm'],
    {
        let r = "\u{0}asm";
        proof {
            reveal_strlit("\u{0}asm");
            assert(r@ =~= seq!['\u{0}', 'a', 's', 'm']);
        }
        r
    }

    /// The decoded format version; a constructed value always holds 1.
    pub fn version(&self) -> (r: u32)
        ensures
            r == self.spec_version(),
    {
        self.version_number
    }

    /// The preamble's byte length: four magic bytes plus four version bytes.
    pub fn length(&self) -> (r: usize)
        ensures
            r == 8,
    {
        8
    }
}

} // verus!
