//! ELF objects: the allocatable flag, and writing an object in the formats
//! its container supports.
use vstd::prelude::*;
use crate::copy::{
    strip_policy, supports_format, unsupported_format, ObjCopy,
    SectionTable, Unstripped,
};
use crate::layout::write_flat_image;
use crate::model::{BinaryFormat, CopyError, ObjectFile, Section, SectionFilter, SectionFlags};

verus! {

/// Relies on `object::elf::SHF_ALLOC`: the ELF section flag bit that marks a
/// section as occupying memory at run time, `1 << 1`.
#[verifier::external_body]
fn shf_alloc() -> (r: u64)
    ensures
        r == 2,
{
    object::elf::SHF_ALLOC as u64
}

/// The section flags carry ELF's allocatable bit.
pub open spec fn elf_alloc(flags: SectionFlags) -> bool {
    match flags {
        SectionFlags::Elf { sh_flags } => sh_flags & 2 == 2,
        _ => false,
    }
}

/// Whether the section flags carry ELF's allocatable bit.
pub fn is_alloc(flags: &SectionFlags) -> (r: bool)
    ensures
        r == elf_alloc(*flags),
{
    match flags {
        SectionFlags::Elf { sh_flags } => {
            let bit = shf_alloc();
            *sh_flags & bit == bit
        },
        _ => false,
    }
}

impl SectionTable for ObjectFile {
    open spec fn container(&self) -> BinaryFormat {
        self.format
    }

    open spec fn section_table(&self) -> Seq<Section> {
        self.sections@
    }
}

impl ObjCopy for ObjectFile {
    fn write_excluding<F: SectionFilter>(
        &self,
        format: Option<BinaryFormat>,
        out: &mut Vec<u8>,
        filter: &F,
    ) -> (r: Result<usize, CopyError>) {
        match format {
            Some(BinaryFormat::Coff) => self.write_coff(out, filter),
            Some(BinaryFormat::Elf) => self.write_elf(out, filter),
            Some(BinaryFormat::MachO) => self.write_macho(out, filter),
            Some(BinaryFormat::Pe) => self.write_pe(out, filter),
            Some(BinaryFormat::Wasm) => self.write_wasm(out, filter),
            Some(BinaryFormat::Xcoff) => self.write_xcoff(out, filter),
            None => self.write_raw(out, filter),
        }
    }

    fn write_raw<F: SectionFilter>(&self, out: &mut Vec<u8>, filter: &F) -> (r: Result<usize, CopyError>) {
        if supports_format(self.format, None) {
            write_flat_image(&self.sections, filter, out)
        } else {
            proof {
                assert(old(out)@ + seq![] =~= old(out)@);
            }
            unsupported_format(None)
        }
    }

    fn write_coff<F: SectionFilter>(&self, out: &mut Vec<u8>, filter: &F) -> (r: Result<usize, CopyError>) {
        assert(old(out)@ + seq![] =~= old(out)@);
        unsupported_format(Some(BinaryFormat::Coff))
    }

    fn write_elf<F: SectionFilter>(&self, out: &mut Vec<u8>, filter: &F) -> (r: Result<usize, CopyError>) {
        assert(old(out)@ + seq![] =~= old(out)@);
        unsupported_format(Some(BinaryFormat::Elf))
    }

    fn write_macho<F: SectionFilter>(&self, out: &mut Vec<u8>, filter: &F) -> (r: Result<usize, CopyError>) {
        assert(old(out)@ + seq![] =~= old(out)@);
        unsupported_format(Some(BinaryFormat::MachO))
    }

    fn write_pe<F: SectionFilter>(&self, out: &mut Vec<u8>, filter: &F) -> (r: Result<usize, CopyError>) {
        assert(old(out)@ + seq![] =~= old(out)@);
        unsupported_format(Some(BinaryFormat::Pe))
    }

    fn write_wasm<F: SectionFilter>(&self, out: &mut Vec<u8>, filter: &F) -> (r: Result<usize, CopyError>) {
        assert(old(out)@ + seq![] =~= old(out)@);
        unsupported_format(Some(BinaryFormat::Wasm))
    }

    fn write_xcoff<F: SectionFilter>(&self, out: &mut Vec<u8>, filter: &F) -> (r: Result<usize, CopyError>) {
        assert(old(out)@ + seq![] =~= old(out)@);
        unsupported_format(Some(BinaryFormat::Xcoff))
    }

    fn write_stripped(&self, format: Option<BinaryFormat>, out: &mut Vec<u8>) -> (r: Result<usize, CopyError>) {
        let filter = Unstripped { container: self.format };
        self.write_excluding(format, out, &filter)
    }

    fn will_strip(&self, s: &Section) -> (r: bool) {
        strip_policy(self.format, s)
    }
}

} // verus!
