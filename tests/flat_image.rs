use objectify::copy::{supports_format, unsupported_format, ObjCopy};
use objectify::model::{
    BinaryFormat, CopyError, KeepAll, ObjectFile, Section, SectionFlags, SectionKind,
};
use objectify::util::try_filter;
use objectify::{elf_to_bin, is_elf_section_alloc, Loadable, ObjectExt};

fn section(index: usize, address: u64, size: u64, data: Option<Vec<u8>>) -> Section {
    Section {
        index,
        name: format!("s{index}"),
        address,
        size,
        data,
        flags: SectionFlags::Elf { sh_flags: 0x2 },
        kind: SectionKind::Data,
    }
}

fn elf(sections: Vec<Section>) -> ObjectFile {
    ObjectFile { format: BinaryFormat::Elf, sections }
}

#[test]
fn gap_between_sections_is_zero_filled() {
    let obj = elf(vec![
        section(2, 0x1020, 0x10, Some(vec![0xBB; 16])),
        section(1, 0x1000, 0x10, Some(vec![0xAA; 16])),
    ]);
    let mut out = Vec::new();
    let r = obj.write_binary(&mut out, &KeepAll);
    let mut expected = vec![0xAA; 16];
    expected.extend(vec![0u8; 16]);
    expected.extend(vec![0xBB; 16]);
    assert_eq!(r, Ok(48));
    assert_eq!(out, expected);
}

#[test]
fn touching_sections_are_concatenated() {
    let obj = elf(vec![
        section(1, 0x1000, 0x4, Some(vec![1, 2, 3, 4])),
        section(2, 0x1004, 0x2, Some(vec![5, 6])),
    ]);
    let mut out = Vec::new();
    assert_eq!(obj.write_binary(&mut out, &KeepAll), Ok(6));
    assert_eq!(out, vec![1, 2, 3, 4, 5, 6]);
}

#[test]
fn overlapping_sections_pass_through() {
    let obj = elf(vec![
        section(1, 0x1000, 0x8, Some(vec![1, 1, 1, 1, 1, 1, 1, 1])),
        section(2, 0x1004, 0x2, Some(vec![2, 2])),
    ]);
    let mut out = Vec::new();
    assert_eq!(obj.write_binary(&mut out, &KeepAll), Ok(10));
    assert_eq!(out, vec![1, 1, 1, 1, 1, 1, 1, 1, 2, 2]);
}

#[test]
fn equal_addresses_order_by_size_then_table_order() {
    let obj = elf(vec![
        section(1, 0x10, 0x8, Some(vec![1])),
        section(2, 0x10, 0x4, Some(vec![2])),
        section(3, 0x10, 0x4, Some(vec![3])),
    ]);
    let mut out = Vec::new();
    assert_eq!(obj.write_binary(&mut out, &KeepAll), Ok(3));
    assert_eq!(out, vec![2, 3, 1]);
}

#[test]
fn writing_twice_gives_identical_bytes() {
    let obj = elf(vec![
        section(1, 0x30, 0x2, Some(vec![7, 7])),
        section(2, 0x10, 0x4, Some(vec![1, 2, 3, 4])),
        section(3, 0x20, 0x1, Some(vec![9])),
    ]);
    let mut first = Vec::new();
    let mut second = Vec::new();
    let a = obj.write_binary(&mut first, &KeepAll);
    let b = obj.write_binary(&mut second, &KeepAll);
    assert_eq!(a, b);
    assert_eq!(first, second);
    assert_eq!(a, Ok(0x22));
}

#[test]
fn bytes_are_data_plus_gaps_and_excluded_sections_are_absent() {
    let mut debug = section(4, 0x0, 0x40, Some(vec![0xEE; 0x40]));
    debug.kind = SectionKind::Debug;
    let obj = elf(vec![
        section(1, 0x100, 0x4, Some(vec![1, 2, 3, 4])),
        debug,
        section(2, 0x108, 0x2, Some(vec![5, 6])),
        section(3, 0x10C, 0x1, Some(vec![7])),
    ]);
    let mut out = Vec::new();
    let r = elf_to_bin(&obj, &mut out);
    // data 4 + 2 + 1, gaps 4 + 2
    assert_eq!(r, Ok(13));
    assert_eq!(out, vec![1, 2, 3, 4, 0, 0, 0, 0, 5, 6, 0, 0, 7]);
    assert!(!out.contains(&0xEE));
}

#[test]
fn nothing_is_appended_after_the_last_section() {
    let obj = elf(vec![
        section(1, 0x0, 0x2, Some(vec![1, 2])),
        section(2, 0x4, 0x100, Some(vec![3, 4, 5])),
    ]);
    let mut out = Vec::new();
    assert_eq!(obj.write_binary(&mut out, &KeepAll), Ok(7));
    assert_eq!(out, vec![1, 2, 0, 0, 3, 4, 5]);
}

#[test]
fn address_end_past_u64_does_not_fill() {
    let obj = elf(vec![
        section(1, u64::MAX - 1, 0x10, Some(vec![1])),
        section(2, u64::MAX, 0x1, Some(vec![2])),
    ]);
    let mut out = Vec::new();
    assert_eq!(obj.write_binary(&mut out, &KeepAll), Ok(2));
    assert_eq!(out, vec![1, 2]);
}

#[test]
fn unsupported_formats_fail_without_writing() {
    let obj = elf(vec![section(1, 0x0, 0x2, Some(vec![1, 2]))]);
    let formats = [
        BinaryFormat::Coff,
        BinaryFormat::Elf,
        BinaryFormat::MachO,
        BinaryFormat::Pe,
        BinaryFormat::Wasm,
        BinaryFormat::Xcoff,
    ];
    for f in formats {
        let mut out = vec![9u8, 9];
        let r = obj.write_excluding(Some(f), &mut out, &KeepAll);
        assert_eq!(r, Err(CopyError::Unsupported(Some(f))));
        assert_eq!(out, vec![9, 9]);
        let mut out = Vec::new();
        assert_eq!(obj.write_stripped(Some(f), &mut out), Err(CopyError::Unsupported(Some(f))));
        assert!(out.is_empty());
    }
}

#[test]
fn flat_image_of_non_elf_container_is_unsupported() {
    let obj = ObjectFile {
        format: BinaryFormat::Coff,
        sections: vec![section(1, 0x0, 0x2, Some(vec![1, 2]))],
    };
    let mut out = Vec::new();
    assert_eq!(obj.write_raw(&mut out, &KeepAll), Err(CopyError::Unsupported(None)));
    assert!(out.is_empty());
    assert!(!obj.will_strip(&obj.sections[0]));
    // the generic flat image works for any container
    assert_eq!(obj.write_binary(&mut out, &KeepAll), Ok(2));
}

#[test]
fn registry_knows_only_elf_flat_image() {
    assert!(supports_format(BinaryFormat::Elf, None));
    assert!(!supports_format(BinaryFormat::Elf, Some(BinaryFormat::Elf)));
    assert!(!supports_format(BinaryFormat::Pe, None));
    let r: Result<u8, CopyError> = unsupported_format(Some(BinaryFormat::Wasm));
    assert_eq!(r, Err(CopyError::Unsupported(Some(BinaryFormat::Wasm))));
}

#[test]
fn stripped_copy_keeps_allocatable_sections() {
    let mut text = section(1, 0x1000, 0x4, Some(vec![0x11, 0x22, 0x33, 0x44]));
    text.name = ".text".to_string();
    text.flags = SectionFlags::Elf { sh_flags: 0x6 };
    text.kind = SectionKind::Text;
    let mut debug = section(2, 0x0, 0x3, Some(vec![0xDE, 0xAD, 0x00]));
    debug.name = ".debug_info".to_string();
    debug.flags = SectionFlags::Elf { sh_flags: 0x0 };
    debug.kind = SectionKind::Debug;
    let mut tbss = section(3, 0x1004, 0x2, Some(vec![0x55, 0x66]));
    tbss.name = ".tbss".to_string();
    tbss.flags = SectionFlags::Elf { sh_flags: 0x403 };
    tbss.kind = SectionKind::UninitializedTls;
    let obj = elf(vec![text, debug, tbss]);
    assert!(!obj.will_strip(&obj.sections[0]));
    assert!(obj.will_strip(&obj.sections[1]));
    assert!(!obj.will_strip(&obj.sections[2]));
    let mut out = Vec::new();
    assert_eq!(obj.write_stripped(None, &mut out), Ok(6));
    assert_eq!(out, vec![0x11, 0x22, 0x33, 0x44, 0x55, 0x66]);
}

#[test]
fn sections_without_elf_flags_are_stripped_from_elf() {
    let mut s = section(1, 0x0, 0x1, Some(vec![1]));
    s.flags = SectionFlags::Unset;
    let obj = elf(vec![s]);
    assert!(obj.will_strip(&obj.sections[0]));
    let mut out = Vec::new();
    assert_eq!(obj.write_stripped(None, &mut out), Ok(0));
}

#[test]
fn empty_object_writes_nothing() {
    let obj = elf(vec![]);
    let mut out = Vec::new();
    assert_eq!(obj.write_binary(&mut out, &KeepAll), Ok(0));
    assert_eq!(obj.write_raw(&mut out, &KeepAll), Ok(0));
    assert!(out.is_empty());
}

#[test]
fn everything_filtered_out_writes_nothing() {
    let mut a = section(1, 0x0, 0x1, Some(vec![1]));
    a.kind = SectionKind::Metadata;
    let mut b = section(2, 0x8, 0x1, Some(vec![2]));
    b.kind = SectionKind::Debug;
    let obj = elf(vec![a, b]);
    let mut out = Vec::new();
    assert_eq!(elf_to_bin(&obj, &mut out), Ok(0));
    assert!(out.is_empty());
}

#[test]
fn missing_data_fails_after_the_prefix() {
    let obj = elf(vec![
        section(1, 0x0, 0x2, Some(vec![1, 2])),
        section(7, 0x4, 0x2, None),
        section(3, 0x8, 0x2, Some(vec![3, 4])),
    ]);
    let mut out = Vec::new();
    assert_eq!(obj.write_binary(&mut out, &KeepAll), Err(CopyError::Data(7)));
    // the fill before the failing section was already written
    assert_eq!(out, vec![1, 2, 0, 0]);
}

#[test]
fn missing_data_of_excluded_section_is_ignored() {
    let mut bad = section(5, 0x0, 0x2, None);
    bad.kind = SectionKind::Debug;
    let obj = elf(vec![bad, section(1, 0x10, 0x1, Some(vec![8]))]);
    let mut out = Vec::new();
    assert_eq!(elf_to_bin(&obj, &mut out), Ok(1));
    assert_eq!(out, vec![8]);
}

#[test]
fn loadable_kinds() {
    for k in [
        SectionKind::Text,
        SectionKind::Tls,
        SectionKind::Data,
        SectionKind::ReadOnlyString,
        SectionKind::ReadOnlyData,
    ] {
        assert!(is_elf_section_alloc(k));
    }
    for k in [
        SectionKind::Unknown,
        SectionKind::ReadOnlyDataWithRel,
        SectionKind::UninitializedData,
        SectionKind::Common,
        SectionKind::UninitializedTls,
        SectionKind::TlsVariables,
        SectionKind::OtherString,
        SectionKind::Other,
        SectionKind::Debug,
        SectionKind::Linker,
        SectionKind::Note,
        SectionKind::Metadata,
        SectionKind::Elf(0x70000001),
    ] {
        assert!(!is_elf_section_alloc(k));
    }
    let mut out = Vec::new();
    let obj = elf(vec![section(1, 0, 1, Some(vec![4]))]);
    assert_eq!(obj.write_binary(&mut out, &Loadable), Ok(1));
}

#[test]
fn try_filter_keeps_errors_in_place() {
    let items = vec![1u32, 2, 3, 4, 5, 6];
    let r = try_filter(items, |x: &u32| {
        if *x == 4 {
            Err("four")
        } else {
            Ok(*x % 2 == 0)
        }
    });
    assert_eq!(r, vec![Ok(2), Err("four"), Ok(6)]);
    let empty: Vec<Result<u32, ()>> = try_filter(Vec::new(), |_: &u32| Ok(true));
    assert!(empty.is_empty());
}
