use vstd::prelude::*;

verus! {

/// The four bytes every Penguin binary starts with: `peng`.
pub const PENG_BINARY_MAGIC: [u8; 4] = [112u8, 101u8, 110u8, 103u8];

/// The version of the format that this library writes and reads.
pub const PENG_BINARY_FORMAT_VERSION: u16 = 1u16;

/// The byte order a binary was written in.
#[derive(Debug, Clone, Copy, PartialEq, Eq, Structural)]
pub enum PengBinaryEndian {
    Little,
    Big,
}

/// The fixed part at the start of a binary.
#[derive(Debug, Clone, Copy, PartialEq, Eq)]
pub struct PengBinaryHeader {
    pub magic: [u8; 4],
    pub format_version: u16,
    pub arch_bits: u8,
    pub endian: PengBinaryEndian,
    pub flags: u32,
}

impl PengBinaryHeader {
    /// The header this library writes: magic, current version, the pointer width of
    /// this machine, little endian, no flags.
    pub open spec fn current() -> Self {
        PengBinaryHeader {
            magic: PENG_BINARY_MAGIC,
            format_version: PENG_BINARY_FORMAT_VERSION,
            arch_bits: usize::BITS as u8,
            endian: PengBinaryEndian::Little,
            flags: 0u32,
        }
    }

    pub fn new() -> (res: Self)
        ensures
            res == Self::current(),
    {
        Self {
            magic: PENG_BINARY_MAGIC,
            format_version: PENG_BINARY_FORMAT_VERSION,
            arch_bits: usize::BITS as u8,
            endian: PengBinaryEndian::Little,
            flags: 0,
        }
    }

    pub fn default() -> (res: Self)
        ensures
            res == Self::current(),
    {
        Self::new()
    }
}

} // verus!
