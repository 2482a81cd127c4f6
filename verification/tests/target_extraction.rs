use ariane::functions_utils::containers::UnwindEntry;
use ariane::functions_utils::images::{
    is_safe_image, read_image_exports, read_image_sections, read_image_unwind_entries,
};
use ariane::functions_utils::input::{InputFunction, InputFunctions};
use ariane::functions_utils::search::{
    functions_from_unwind_entries, get_functions_from_bin, retain_min_size, Function,
    FunctionType,
};
use ariane::functions_utils::sections::Section;
use ariane::utils::export::{find_exported_name, find_fn_name};
use ariane::functions_utils::containers::ExportEntry;
use ariane::pipeline::match_functions;
use ariane::ArianeError;

fn put_u16(bytes: &mut Vec<u8>, at: usize, value: u16) {
    bytes[at..at + 2].copy_from_slice(&value.to_le_bytes());
}

fn put_u32(bytes: &mut Vec<u8>, at: usize, value: u32) {
    bytes[at..at + 4].copy_from_slice(&value.to_le_bytes());
}

fn put_u64(bytes: &mut Vec<u8>, at: usize, value: u64) {
    bytes[at..at + 8].copy_from_slice(&value.to_le_bytes());
}

/// A 64-bit image of 0x1000 bytes with one section (addresses 0x1000 to
/// 0x1200, file offsets 0x400 to 0x600) and an exception directory at
/// address 0x1100 that holds the given entries.
fn image(entries: &[(u32, u32)]) -> Vec<u8> {
    let mut bytes = vec![0u8; 0x1000];
    bytes[0] = b'M';
    bytes[1] = b'Z';
    put_u32(&mut bytes, 0x3c, 0x80);
    bytes[0x80..0x84].copy_from_slice(b"PE\0\0");
    let coff = 0x84;
    put_u16(&mut bytes, coff, 0x8664);
    put_u16(&mut bytes, coff + 2, 1);
    put_u16(&mut bytes, coff + 16, 240);
    put_u16(&mut bytes, coff + 18, 0x22);
    let optional = coff + 20;
    put_u16(&mut bytes, optional, 0x20b);
    put_u32(&mut bytes, optional + 16, 0x1000);
    put_u32(&mut bytes, optional + 20, 0x1000);
    put_u64(&mut bytes, optional + 24, 0x1_4000_0000);
    put_u32(&mut bytes, optional + 32, 0x1000);
    put_u32(&mut bytes, optional + 36, 0x200);
    put_u32(&mut bytes, optional + 56, 0x2000);
    put_u32(&mut bytes, optional + 60, 0x400);
    put_u16(&mut bytes, optional + 68, 3);
    put_u32(&mut bytes, optional + 108, 16);
    let directories = optional + 112;
    put_u32(&mut bytes, directories + 3 * 8, 0x1100);
    put_u32(&mut bytes, directories + 3 * 8 + 4, 12 * entries.len() as u32);
    let section = optional + 240;
    bytes[section..section + 5].copy_from_slice(b".text");
    put_u32(&mut bytes, section + 8, 0x200);
    put_u32(&mut bytes, section + 12, 0x1000);
    put_u32(&mut bytes, section + 16, 0x200);
    put_u32(&mut bytes, section + 20, 0x400);
    put_u32(&mut bytes, section + 36, 0x6000_0020);
    for (index, (begin, end)) in entries.iter().enumerate() {
        put_u32(&mut bytes, 0x500 + 12 * index, *begin);
        put_u32(&mut bytes, 0x500 + 12 * index + 4, *end);
        put_u32(&mut bytes, 0x500 + 12 * index + 8, 0x1180);
    }
    for offset in 0x400..0x500 {
        bytes[offset] = (offset - 0x400) as u8;
    }
    bytes
}

fn sections() -> Vec<Section> {
    vec![Section {
        virtual_address: 0x1000,
        virtual_size: 0x200,
        pointer_to_raw_data: 0x400,
        size_of_raw_data: 0x200,
        characteristics: 0x6000_0020,
    }]
}

#[test]
fn unwind_entry_gives_the_bytes_between_its_ends() {
    let file: Vec<u8> = (0..0x1000u32).map(|i| i as u8).collect();
    let entries = vec![UnwindEntry { begin_address: 0x1010, end_address: 0x1030 }];
    let functions = functions_from_unwind_entries(&file, &sections(), &entries);
    assert_eq!(functions.len(), 1);
    assert_eq!(functions[0].rva, 0x1010);
    assert_eq!(functions[0].data, &file[0x410..0x430]);
    assert_eq!(functions[0].name, None);
    assert_eq!(functions[0].fn_type, FunctionType::Exe);
}

#[test]
fn unwind_entry_outside_the_sections_is_passed_over() {
    let file = vec![0u8; 0x1000];
    let entries = vec![
        UnwindEntry { begin_address: 0x10, end_address: 0x1030 },
        UnwindEntry { begin_address: 0x1010, end_address: 0x3000 },
        UnwindEntry { begin_address: 0x1040, end_address: 0x1050 },
    ];
    let functions = functions_from_unwind_entries(&file, &sections(), &entries);
    assert_eq!(functions.len(), 1);
    assert_eq!(functions[0].rva, 0x1040);
}

#[test]
fn unwind_entry_is_kept_only_below_the_sum_bound() {
    let entries = vec![UnwindEntry { begin_address: 0x1000, end_address: 0x1020 }];
    // The two offsets are 0x400 and 0x420: their sum is 0x820.
    let short = vec![0u8; 0x820];
    assert_eq!(functions_from_unwind_entries(&short, &sections(), &entries).len(), 0);
    let long = vec![0u8; 0x821];
    assert_eq!(functions_from_unwind_entries(&long, &sections(), &entries).len(), 1);
}

#[test]
fn inverted_unwind_entry_is_passed_over() {
    let file = vec![0u8; 0x1000];
    let entries = vec![UnwindEntry { begin_address: 0x1020, end_address: 0x1010 }];
    assert_eq!(functions_from_unwind_entries(&file, &sections(), &entries).len(), 0);
}

#[test]
fn small_functions_are_dropped() {
    let file = vec![0u8; 0x1000];
    let entries = vec![
        UnwindEntry { begin_address: 0x1000, end_address: 0x100a },
        UnwindEntry { begin_address: 0x1010, end_address: 0x1024 },
        UnwindEntry { begin_address: 0x1030, end_address: 0x1043 },
    ];
    let functions = functions_from_unwind_entries(&file, &sections(), &entries);
    assert_eq!(functions.len(), 3);
    let kept = retain_min_size(&functions, 20);
    assert_eq!(kept.len(), 1);
    assert_eq!(kept[0].rva, 0x1010);
    assert_eq!(kept[0].data.len(), 20);
}

#[test]
fn functions_of_an_image_come_from_its_exception_directory() {
    let bytes = image(&[(0x1000, 0x1020), (0x1020, 0x1028), (0x1040, 0x1080)]);
    let functions = get_functions_from_bin(&bytes, 20).unwrap();
    assert_eq!(functions.len(), 2);
    assert_eq!(functions[0].rva, 0x1000);
    assert_eq!(functions[0].data, &bytes[0x400..0x420]);
    assert_eq!(functions[1].rva, 0x1040);
    assert_eq!(functions[1].data, &bytes[0x440..0x480]);
    let all = get_functions_from_bin(&bytes, 0).unwrap();
    assert_eq!(all.len(), 3);
    assert_eq!(all[1].data, &bytes[0x420..0x428]);
}

#[test]
fn image_without_exception_directory_has_no_functions() {
    let bytes = image(&[]);
    assert_eq!(get_functions_from_bin(&bytes, 20).unwrap().len(), 0);
}

#[test]
fn unreadable_image_is_invalid_input() {
    assert_eq!(get_functions_from_bin(&[], 20), Err(ArianeError::InvalidInput));
    assert_eq!(get_functions_from_bin(b"not an image", 20), Err(ArianeError::InvalidInput));
    let mut broken = image(&[(0x1000, 0x1020)]);
    broken[0x80] = b'Q';
    assert_eq!(get_functions_from_bin(&broken, 20), Err(ArianeError::InvalidInput));
}

#[test]
fn described_functions_are_cut_out_of_the_image() {
    let bytes = image(&[]);
    let described = InputFunctions {
        functions: vec![
            InputFunction { name: "sub_140001000".to_string(), start: 0x1000, end: 0x1010 },
            InputFunction { name: "outside".to_string(), start: 0x10, end: 0x20 },
            InputFunction { name: "inverted".to_string(), start: 0x1010, end: 0x1000 },
            InputFunction { name: "sub_140001040".to_string(), start: 0x1040, end: 0x1044 },
        ],
    };
    let functions = described.to_functions(&bytes).unwrap();
    assert_eq!(functions.len(), 2);
    assert_eq!(functions[0].name.as_deref(), Some("sub_140001000"));
    assert_eq!(functions[0].rva, 0x1000);
    assert_eq!(functions[0].data, &bytes[0x400..0x410]);
    assert_eq!(functions[0].fn_type, FunctionType::Exe);
    assert_eq!(functions[1].name.as_deref(), Some("sub_140001040"));
    assert_eq!(functions[1].data, &bytes[0x440..0x444]);
    assert_eq!(described.to_functions(b"garbage"), Err(ArianeError::InvalidInput));
}

#[test]
fn duplicate_of_a_function_is_equal() {
    let data = [1u8, 2, 3];
    let function = Function {
        data: &data,
        name: Some("f".to_string()),
        rva: 7,
        fn_type: FunctionType::Lib,
    };
    assert_eq!(function.duplicate(), function);
}

#[test]
fn exported_name_is_that_of_the_first_export_at_the_offset() {
    let exports = vec![
        ExportEntry { rva: 0x1010, name: Some("first".to_string()) },
        ExportEntry { rva: 0x1020, name: Some("second".to_string()) },
        ExportEntry { rva: 0x1020, name: Some("third".to_string()) },
        ExportEntry { rva: 0x1030, name: None },
        ExportEntry { rva: 0x1_0000_1040, name: Some("far".to_string()) },
    ];
    assert_eq!(find_exported_name(&sections(), &exports, 0x410).as_deref(), Some("first"));
    assert_eq!(find_exported_name(&sections(), &exports, 0x420).as_deref(), Some("second"));
    assert_eq!(find_exported_name(&sections(), &exports, 0x430), None);
    assert_eq!(find_exported_name(&sections(), &exports, 0x440), None);
}

/// The image above with an export table at address 0x1180 that exports the
/// address 0x1010 under the name `exported`.
fn image_with_export() -> Vec<u8> {
    let mut bytes = image(&[(0x1000, 0x1020)]);
    let directories = 0x84 + 20 + 112;
    put_u32(&mut bytes, directories, 0x1180);
    put_u32(&mut bytes, directories + 4, 0x80);
    let table = 0x580;
    put_u32(&mut bytes, table + 12, 0x11c0);
    put_u32(&mut bytes, table + 16, 1);
    put_u32(&mut bytes, table + 20, 1);
    put_u32(&mut bytes, table + 24, 1);
    put_u32(&mut bytes, table + 28, 0x11d0);
    put_u32(&mut bytes, table + 32, 0x11d8);
    put_u32(&mut bytes, table + 36, 0x11dc);
    bytes[0x5c0..0x5c9].copy_from_slice(b"test.dll\0");
    put_u32(&mut bytes, 0x5d0, 0x1010);
    put_u32(&mut bytes, 0x5d8, 0x11e0);
    put_u16(&mut bytes, 0x5dc, 0);
    bytes[0x5e0..0x5e9].copy_from_slice(b"exported\0");
    bytes
}

#[test]
fn exported_function_is_named_by_the_image() {
    let bytes = image_with_export();
    assert_eq!(find_fn_name(0x410, &bytes).as_deref(), Some("exported"));
    assert_eq!(find_fn_name(0x411, &bytes), None);
    assert_eq!(find_fn_name(0x1010, &bytes), None);
}

#[test]
fn recovered_addresses_lie_in_executable_sections() {
    let bytes = image(&[(0x1000, 0x1040), (0x1040, 0x1100), (0x10, 0x50)]);
    let functions = get_functions_from_bin(&bytes, 20).unwrap();
    assert_eq!(functions.len(), 2);
    let library = vec![Function {
        data: &bytes[0x440..0x500],
        name: Some("library_function".to_string()),
        rva: 0,
        fn_type: FunctionType::Lib,
    }];
    let symbols = match_functions(&functions, &library);
    assert_eq!(symbols.len(), 1);
    assert_eq!(symbols[0].name, "library_function");
    assert_eq!(symbols[0].rva, 0x1040);
    assert_eq!(symbols[0].score, 100);
    let table = sections();
    for symbol in &symbols {
        let holder = table.iter().find(|section| section.holds_rva(symbol.rva)).unwrap();
        assert!(holder.is_executable());
    }
}

#[test]
fn image_without_exports_names_nothing() {
    let bytes = image(&[(0x1000, 0x1020)]);
    assert_eq!(find_fn_name(0x400, &bytes), None);
    assert_eq!(find_fn_name(0x400, b"garbage"), None);
}

#[test]
fn image_whose_sections_end_within_the_address_space_can_be_read() {
    let bytes = image(&[(0x1000, 0x1020)]);
    assert!(is_safe_image(&bytes));
    assert_eq!(read_image_sections(&bytes), Some(sections()));
    assert_eq!(
        read_image_unwind_entries(&bytes),
        Some(vec![UnwindEntry { begin_address: 0x1000, end_address: 0x1020 }])
    );
    assert_eq!(read_image_exports(&bytes), Some(vec![]));
}

#[test]
fn image_with_a_section_that_wraps_the_address_space_is_not_read() {
    let mut bytes = image(&[(0x1000, 0x1020)]);
    let section = 0x84 + 20 + 240;
    put_u32(&mut bytes, section + 8, 0xFFFF_F001);
    assert!(!is_safe_image(&bytes));
    assert_eq!(read_image_sections(&bytes), None);
    assert_eq!(read_image_unwind_entries(&bytes), None);
    assert_eq!(read_image_exports(&bytes), None);
    assert_eq!(get_functions_from_bin(&bytes, 20), Err(ArianeError::InvalidInput));
    let described = InputFunctions { functions: vec![] };
    assert_eq!(described.to_functions(&bytes), Err(ArianeError::InvalidInput));
    assert_eq!(find_fn_name(0x400, &bytes), None);
}

#[test]
fn section_that_ends_with_the_address_space_is_read() {
    let mut bytes = image(&[]);
    let section = 0x84 + 20 + 240;
    put_u32(&mut bytes, section + 8, 0xFFFF_EFFF);
    assert!(is_safe_image(&bytes));
    let table = read_image_sections(&bytes).unwrap();
    assert_eq!(table[0].virtual_size, 0xFFFF_EFFF);
}

#[test]
fn bytes_too_short_for_a_section_table_are_left_to_the_reader() {
    assert!(is_safe_image(&[]));
    assert!(is_safe_image(b"MZ"));
    let bytes = image(&[]);
    assert!(is_safe_image(&bytes[..0x100]));
    assert_eq!(read_image_sections(&bytes[..0x100]), None);
    let mut far = image(&[]);
    put_u32(&mut far, 0x3c, 0xFFFF_FFF0);
    assert!(is_safe_image(&far));
    assert_eq!(read_image_sections(&far), None);
}
