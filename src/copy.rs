//! Output-format dispatch: which input containers can be written in which
//! formats, and the stripping policy that picks sections for a stripped copy.
use vstd::prelude::*;
use crate::layout::{flat_image, flat_result};
use crate::model::{BinaryFormat, CopyError, Section, SectionFilter};
use crate::elf::elf_alloc;

verus! {

/// An object with a section table, read from a container of some format.
pub trait SectionTable {
    /// The container format the object was read from.
    spec fn container(&self) -> BinaryFormat;

    /// The object's sections, in table order.
    spec fn section_table(&self) -> Seq<Section>;
}

/// Whether an object read from `input` can be written in `format` (`None`:
/// the flat image). Only ELF input has a writer, and only for the flat image.
pub open spec fn supports(input: BinaryFormat, format: Option<BinaryFormat>) -> bool {
    input == BinaryFormat::Elf && format is None
}

/// The bytes written when an object from `input` with sections `table` is
/// written in `format`, keeping the sections that `f` accepts.
pub open spec fn copy_image<F: SectionFilter>(
    input: BinaryFormat,
    format: Option<BinaryFormat>,
    f: F,
    table: Seq<Section>,
) -> Seq<u8> {
    if supports(input, format) {
        flat_image(f, table)
    } else {
        seq![]
    }
}

/// What writing such an object in `format` returns.
pub open spec fn copy_result<F: SectionFilter>(
    input: BinaryFormat,
    format: Option<BinaryFormat>,
    f: F,
    table: Seq<Section>,
) -> Result<usize, CopyError> {
    if supports(input, format) {
        flat_result(f, table)
    } else {
        Err(CopyError::Unsupported(format))
    }
}

/// Whether a stripped copy of an object from `input` drops the section `s`:
/// ELF drops every section without the allocatable flag; other containers
/// keep everything.
pub open spec fn strips(input: BinaryFormat, s: Section) -> bool {
    input == BinaryFormat::Elf && !elf_alloc(s.flags)
}

/// The registry of writers: whether `input` can be written in `format`.
pub fn supports_format(input: BinaryFormat, format: Option<BinaryFormat>) -> (r: bool)
    ensures
        r == supports(input, format),
{
    match (input, format) {
        (BinaryFormat::Elf, None) => true,
        _ => false,
    }
}

/// The error for a format that the object's container cannot be written in.
pub fn unsupported_format<T>(format: Option<BinaryFormat>) -> (r: Result<T, CopyError>)
    ensures
        r == Err::<T, CopyError>(CopyError::Unsupported(format)),
{
    Err(CopyError::Unsupported(format))
}

/// Whether a stripped copy of an object from `input` drops `s`.
pub fn strip_policy(input: BinaryFormat, s: &Section) -> (r: bool)
    ensures
        r == strips(input, *s),
{
    match input {
        BinaryFormat::Elf => !crate::elf::is_alloc(&s.flags),
        _ => false,
    }
}

/// The filter of a stripped copy: it keeps what the policy of `container`
/// does not strip.
pub struct Unstripped {
    pub container: BinaryFormat,
}

impl SectionFilter for Unstripped {
    open spec fn keeps(&self, s: Section) -> bool {
        !strips(self.container, s)
    }

    fn keep(&self, s: &Section) -> (r: bool) {
        !strip_policy(self.container, s)
    }
}

/// Writing an object in a chosen output format.
pub trait ObjCopy: SectionTable {
    /// Writes the sections that `filter` accepts in `format` (`None`: the
    /// flat image). A format the container cannot be written in fails with
    /// `Unsupported` and writes nothing.
    fn write_excluding<F: SectionFilter>(
        &self,
        format: Option<BinaryFormat>,
        out: &mut Vec<u8>,
        filter: &F,
    ) -> (r: Result<usize, CopyError>)
        ensures
            final(out)@ == old(out)@ + copy_image(self.container(), format, *filter, self.section_table()),
            r == copy_result(self.container(), format, *filter, self.section_table()),
    ;

    /// Writes the flat image of the accepted sections.
    fn write_raw<F: SectionFilter>(&self, out: &mut Vec<u8>, filter: &F) -> (r: Result<usize, CopyError>)
        ensures
            final(out)@ == old(out)@ + copy_image(self.container(), None, *filter, self.section_table()),
            r == copy_result(self.container(), None, *filter, self.section_table()),
    ;

    /// Writes a COFF file of the accepted sections.
    fn write_coff<F: SectionFilter>(&self, out: &mut Vec<u8>, filter: &F) -> (r: Result<usize, CopyError>)
        ensures
            final(out)@ == old(out)@ + copy_image(self.container(), Some(BinaryFormat::Coff), *filter, self.section_table()),
            r == copy_result(self.container(), Some(BinaryFormat::Coff), *filter, self.section_table()),
    ;

    /// Writes an ELF file of the accepted sections.
    fn write_elf<F: SectionFilter>(&self, out: &mut Vec<u8>, filter: &F) -> (r: Result<usize, CopyError>)
        ensures
            final(out)@ == old(out)@ + copy_image(self.container(), Some(BinaryFormat::Elf), *filter, self.section_table()),
            r == copy_result(self.container(), Some(BinaryFormat::Elf), *filter, self.section_table()),
    ;

    /// Writes a Mach-O file of the accepted sections.
    fn write_macho<F: SectionFilter>(&self, out: &mut Vec<u8>, filter: &F) -> (r: Result<usize, CopyError>)
        ensures
            final(out)@ == old(out)@ + copy_image(self.container(), Some(BinaryFormat::MachO), *filter, self.section_table()),
            r == copy_result(self.container(), Some(BinaryFormat::MachO), *filter, self.section_table()),
    ;

    /// Writes a PE file of the accepted sections.
    fn write_pe<F: SectionFilter>(&self, out: &mut Vec<u8>, filter: &F) -> (r: Result<usize, CopyError>)
        ensures
            final(out)@ == old(out)@ + copy_image(self.container(), Some(BinaryFormat::Pe), *filter, self.section_table()),
            r == copy_result(self.container(), Some(BinaryFormat::Pe), *filter, self.section_table()),
    ;

    /// Writes a Wasm module of the accepted sections.
    fn write_wasm<F: SectionFilter>(&self, out: &mut Vec<u8>, filter: &F) -> (r: Result<usize, CopyError>)
        ensures
            final(out)@ == old(out)@ + copy_image(self.container(), Some(BinaryFormat::Wasm), *filter, self.section_table()),
            r == copy_result(self.container(), Some(BinaryFormat::Wasm), *filter, self.section_table()),
    ;

    /// Writes an XCOFF file of the accepted sections.
    fn write_xcoff<F: SectionFilter>(&self, out: &mut Vec<u8>, filter: &F) -> (r: Result<usize, CopyError>)
        ensures
            final(out)@ == old(out)@ + copy_image(self.container(), Some(BinaryFormat::Xcoff), *filter, self.section_table()),
            r == copy_result(self.container(), Some(BinaryFormat::Xcoff), *filter, self.section_table()),
    ;

    /// Writes a stripped copy in `format`: the sections that `will_strip`
    /// drops are left out.
    fn write_stripped(&self, format: Option<BinaryFormat>, out: &mut Vec<u8>) -> (r: Result<usize, CopyError>)
        ensures
            final(out)@ == old(out)@ + copy_image(
                self.container(),
                format,
                (Unstripped { container: self.container() }),
                self.section_table(),
            ),
            r == copy_result(
                self.container(),
                format,
                (Unstripped { container: self.container() }),
                self.section_table(),
            ),
    ;

    /// Whether a stripped copy drops `s`.
    fn will_strip(&self, s: &Section) -> (r: bool)
        ensures
            r == strips(self.container(), *s),
    ;
}

} // verus!
