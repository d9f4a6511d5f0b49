//! Flat-image extraction and selective stripping of parsed object files.
//!
//! An object is modelled as its container format and its section table. The
//! layout engine picks the sections a filter accepts, orders them by
//! `(address, size)`, and writes their bytes with zero fill between them.
use vstd::prelude::*;

pub mod model;
pub mod layout;
pub mod copy;
pub mod elf;
pub mod laws;
pub mod util;

use crate::copy::SectionTable;
use crate::layout::{flat_image, flat_result, write_flat_image};
use crate::model::{CopyError, ObjectFile, Section, SectionFilter, SectionKind};

verus! {

/// Writing the flat image of any object, whatever its container.
pub trait ObjectExt: SectionTable {
    /// Writes the sections that `filter` accepts as a flat memory image:
    /// ordered by `(address, size)`, zero-filled between sections, nothing
    /// after the last one. Stops with `Data` at the first included section
    /// whose bytes cannot be retrieved, after what came before it.
    fn write_binary<F: SectionFilter>(&self, out: &mut Vec<u8>, filter: &F) -> (r: Result<usize, CopyError>)
        ensures
            final(out)@ == old(out)@ + flat_image(*filter, self.section_table()),
            r == flat_result(*filter, self.section_table()),
    ;
}

impl ObjectExt for ObjectFile {
    fn write_binary<F: SectionFilter>(&self, out: &mut Vec<u8>, filter: &F) -> (r: Result<usize, CopyError>) {
        write_flat_image(&self.sections, filter, out)
    }
}

/// Section kinds that are loaded into memory: code, thread-local data,
/// initialized data, read-only data and strings.
pub open spec fn loadable_kind(kind: SectionKind) -> bool {
    match kind {
        SectionKind::Text | SectionKind::Tls | SectionKind::Data | SectionKind::ReadOnlyString
        | SectionKind::ReadOnlyData => true,
        _ => false,
    }
}

/// Whether a section of this kind is part of the loadable image.
pub fn is_elf_section_alloc(kind: SectionKind) -> (r: bool)
    ensures
        r == loadable_kind(kind),
{
    match kind {
        SectionKind::Text | SectionKind::Tls | SectionKind::Data | SectionKind::ReadOnlyString
        | SectionKind::ReadOnlyData => true,
        _ => false,
    }
}

/// The filter that keeps the sections of a loadable kind.
pub struct Loadable;

impl SectionFilter for Loadable {
    open spec fn keeps(&self, s: Section) -> bool {
        loadable_kind(s.kind)
    }

    fn keep(&self, s: &Section) -> (r: bool) {
        is_elf_section_alloc(s.kind)
    }
}

/// The loadable image of an object: the flat image of its sections of a
/// loadable kind.
pub fn elf_to_bin(elf: &ObjectFile, out: &mut Vec<u8>) -> (r: Result<usize, CopyError>)
    ensures
        final(out)@ == old(out)@ + flat_image(Loadable, elf.sections@),
        r == flat_result(Loadable, elf.sections@),
{
    elf.write_binary(out, &Loadable)
}

} // verus!
