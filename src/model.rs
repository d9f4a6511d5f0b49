//! The data model of a parsed object: sections, their kinds and flags.
use vstd::prelude::*;

verus! {

/// A target container format.
#[derive(Clone, Copy, Debug, PartialEq, Eq, Structural)]
pub enum BinaryFormat {
    Coff,
    Elf,
    MachO,
    Pe,
    Wasm,
    Xcoff,
}

/// The semantic category of a section.
#[derive(Clone, Copy, Debug, PartialEq, Eq, Structural)]
pub enum SectionKind {
    Unknown,
    Text,
    Data,
    ReadOnlyData,
    ReadOnlyDataWithRel,
    ReadOnlyString,
    UninitializedData,
    Common,
    Tls,
    UninitializedTls,
    TlsVariables,
    OtherString,
    Other,
    Debug,
    Linker,
    Note,
    Metadata,
    Elf(u32),
}

/// Container-specific section flags (`Unset` where the container has none).
#[derive(Clone, Copy, Debug, PartialEq, Eq, Structural)]
pub enum SectionFlags {
    Unset,
    Elf { sh_flags: u64 },
    MachO { flags: u32 },
    Coff { characteristics: u32 },
    Xcoff { s_flags: u32 },
}

/// One section of a parsed object.
///
/// `data` is `None` when the section's bytes could not be retrieved from the
/// underlying file (no backing data, or malformed).
#[derive(Debug)]
pub struct Section {
    pub index: usize,
    pub name: String,
    pub address: u64,
    pub size: u64,
    pub data: Option<Vec<u8>>,
    pub flags: SectionFlags,
    pub kind: SectionKind,
}

/// A parsed object: the container it was read from and its section table, in
/// the order the parser produced it.
#[derive(Debug)]
pub struct ObjectFile {
    pub format: BinaryFormat,
    pub sections: Vec<Section>,
}

/// What can go wrong while producing an output image.
#[derive(Clone, Copy, Debug, PartialEq, Eq, Structural)]
pub enum CopyError {
    /// The object's container cannot be written in the requested format
    /// (`None` stands for the flat image).
    Unsupported(Option<BinaryFormat>),
    /// The bytes of the section with this index could not be retrieved.
    Data(usize),
}

/// Decides which sections go into an output image.
pub trait SectionFilter {
    /// Whether the section `s` is included.
    spec fn keeps(&self, s: Section) -> bool;

    fn keep(&self, s: &Section) -> (r: bool)
        ensures
            r == self.keeps(*s),
    ;
}

/// The filter that accepts every section.
pub struct KeepAll;

impl SectionFilter for KeepAll {
    open spec fn keeps(&self, s: Section) -> bool {
        true
    }

    fn keep(&self, s: &Section) -> (r: bool) {
        true
    }
}

} // verus!
