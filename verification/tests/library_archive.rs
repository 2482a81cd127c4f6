use ariane::functions_utils::archive::find_archive_members;
use ariane::functions_utils::containers::{MemberRange, ObjectSymbol};
use ariane::functions_utils::objects::is_safe_object;
use ariane::functions_utils::search::{
    functions_from_members, functions_from_symbols, get_functions_from_lib, FunctionType,
};
use ariane::functions_utils::sections::Section;

fn put_u16(bytes: &mut Vec<u8>, at: usize, value: u16) {
    bytes[at..at + 2].copy_from_slice(&value.to_le_bytes());
}

fn put_u32(bytes: &mut Vec<u8>, at: usize, value: u32) {
    bytes[at..at + 4].copy_from_slice(&value.to_le_bytes());
}

/// An object file with one section that holds `code`, and one symbol for
/// each name: a function definition in that section.
fn object(code: &[u8], names: &[&str]) -> Vec<u8> {
    let symbols_at = 60 + code.len();
    let mut bytes = vec![0u8; symbols_at + 18 * names.len() + 4];
    put_u16(&mut bytes, 0, 0x8664);
    put_u16(&mut bytes, 2, 1);
    put_u32(&mut bytes, 8, symbols_at as u32);
    put_u32(&mut bytes, 12, names.len() as u32);
    bytes[20..25].copy_from_slice(b".text");
    put_u32(&mut bytes, 20 + 16, code.len() as u32);
    put_u32(&mut bytes, 20 + 20, 60);
    put_u32(&mut bytes, 20 + 36, 0x6050_0020);
    bytes[60..60 + code.len()].copy_from_slice(code);
    for (index, name) in names.iter().enumerate() {
        let at = symbols_at + 18 * index;
        bytes[at..at + name.len()].copy_from_slice(name.as_bytes());
        put_u16(&mut bytes, at + 12, 1);
        put_u16(&mut bytes, at + 14, 0x20);
        bytes[at + 16] = 2;
    }
    let strings_at = symbols_at + 18 * names.len();
    put_u32(&mut bytes, strings_at, 4);
    bytes
}

fn member_header(name: &str, size: usize) -> Vec<u8> {
    let text = format!("{:<16}{:<12}{:<6}{:<6}{:<8}{:<10}`\n", name, "0", "0", "0", "644", size);
    assert_eq!(text.len(), 60);
    text.into_bytes()
}

fn archive(members: &[(&str, Vec<u8>)]) -> Vec<u8> {
    let mut bytes = b"!<arch>\n".to_vec();
    for (name, content) in members {
        bytes.extend(member_header(name, content.len()));
        bytes.extend(content);
        if bytes.len() % 2 == 1 {
            bytes.push(b'\n');
        }
    }
    bytes
}

fn text_section(pointer_to_raw_data: u32, size_of_raw_data: u32) -> Section {
    Section {
        virtual_address: 0,
        virtual_size: 0,
        pointer_to_raw_data,
        size_of_raw_data,
        characteristics: 0x6050_0020,
    }
}

fn function_symbol(name: &str, section_number: i16) -> ObjectSymbol {
    ObjectSymbol { name: Some(name.to_string()), section_number, is_function_definition: true }
}

#[test]
fn function_symbol_gives_the_bytes_of_its_section() {
    let member: Vec<u8> = (0..100u8).collect();
    let sections = vec![text_section(10, 20), text_section(40, 5)];
    let symbols = vec![
        function_symbol("first", 1),
        ObjectSymbol { name: Some("data".to_string()), section_number: 1, is_function_definition: false },
        function_symbol("second", 2),
    ];
    let functions = functions_from_symbols(&member, &sections, &symbols);
    assert_eq!(functions.len(), 2);
    assert_eq!(functions[0].name.as_deref(), Some("first"));
    assert_eq!(functions[0].data, &member[10..30]);
    assert_eq!(functions[0].rva, 0);
    assert_eq!(functions[0].fn_type, FunctionType::Lib);
    assert_eq!(functions[1].name.as_deref(), Some("second"));
    assert_eq!(functions[1].data, &member[40..45]);
}

#[test]
fn function_symbol_without_a_body_is_passed_over() {
    let member = vec![0u8; 100];
    let sections = vec![text_section(10, 20), text_section(90, 20)];
    let symbols = vec![
        function_symbol("no_section", 0),
        function_symbol("negative_section", -1),
        function_symbol("unknown_section", 3),
        function_symbol("beyond_the_member", 2),
        ObjectSymbol { name: None, section_number: 1, is_function_definition: true },
    ];
    assert_eq!(functions_from_symbols(&member, &sections, &symbols).len(), 0);
}

#[test]
fn functions_of_an_archive_come_from_its_object_files() {
    let first_code = [0x55u8, 0x48, 0x89, 0xE5, 0x5D, 0xC3];
    let second_code = [0x31u8, 0xC0, 0xC3];
    let bytes = archive(&[
        ("first.o/", object(&first_code, &["alpha", "beta"])),
        ("notes.txt/", b"not an object file".to_vec()),
        ("second.o/", object(&second_code, &["gamma"])),
    ]);
    let functions = get_functions_from_lib(&bytes);
    let names: Vec<Option<&str>> = functions.iter().map(|f| f.name.as_deref()).collect();
    assert_eq!(names, vec![Some("alpha"), Some("beta"), Some("gamma")]);
    assert_eq!(functions[0].data, &first_code);
    assert_eq!(functions[1].data, &first_code);
    assert_eq!(functions[2].data, &second_code);
    for function in &functions {
        assert_eq!(function.rva, 0);
        assert_eq!(function.fn_type, FunctionType::Lib);
    }
}

#[test]
fn unreadable_archive_has_no_functions() {
    assert_eq!(get_functions_from_lib(b"not an archive").len(), 0);
    assert_eq!(get_functions_from_lib(&[]).len(), 0);
    assert_eq!(get_functions_from_lib(b"!<arch>\n").len(), 0);
}

#[test]
fn member_beyond_the_archive_is_passed_over() {
    let code = [0x31u8, 0xC0, 0xC3];
    let content = object(&code, &["gamma"]);
    let mut bytes = vec![0u8; 8];
    bytes.extend(&content);
    let members = vec![
        MemberRange { offset: 8, size: content.len() + 1 },
        MemberRange { offset: usize::MAX, size: 2 },
        MemberRange { offset: 8, size: content.len() },
    ];
    let functions = functions_from_members(&bytes, &members);
    assert_eq!(functions.len(), 1);
    assert_eq!(functions[0].name.as_deref(), Some("gamma"));
    assert_eq!(functions[0].data, &code);
}

#[test]
fn members_that_hold_files_are_found() {
    let first = object(&[0xC3], &["f"]);
    let bytes = archive(&[
        ("/", vec![0, 0, 0, 0]),
        ("//", b"a_very_long_member_name.o/\n".to_vec()),
        ("first.o/", first.clone()),
        ("odd", vec![1, 2, 3]),
        ("last", vec![4, 5]),
    ]);
    let first_at = 8 + 60 + 4 + 60 + 28 + 60;
    let odd_at = first_at + first.len() + first.len() % 2 + 60;
    assert_eq!(
        find_archive_members(&bytes),
        Some(vec![
            MemberRange { offset: first_at, size: first.len() },
            MemberRange { offset: odd_at, size: 3 },
            MemberRange { offset: odd_at + 4 + 60, size: 2 },
        ])
    );
    assert_eq!(find_archive_members(b"!<arch>\n"), Some(Vec::new()));
    assert_eq!(find_archive_members(b"!<arch>\nx"), Some(Vec::new()));
    assert_eq!(find_archive_members(b"!<arch>"), None);
    assert_eq!(find_archive_members(b"?<arch>\n"), None);
    assert_eq!(find_archive_members(b"!<arch>\nnot a member header"), None);
}

#[test]
fn archive_with_an_empty_name_table_is_read() {
    let mut bytes = b"!<arch>\n".to_vec();
    bytes.extend(member_header("//", 0));
    assert_eq!(bytes.len(), 68);
    assert_eq!(find_archive_members(&bytes), Some(Vec::new()));
    assert_eq!(get_functions_from_lib(&bytes).len(), 0);
    let with_object = archive(&[("//", Vec::new()), ("only.o/", object(&[0xC3], &["kept"]))]);
    let functions = get_functions_from_lib(&with_object);
    assert_eq!(functions.len(), 1);
    assert_eq!(functions[0].name.as_deref(), Some("kept"));
}

#[test]
fn archive_with_a_symbol_index_that_names_no_member_is_read() {
    // A second symbol index with one symbol whose member index is zero.
    let mut second = Vec::new();
    second.extend(0u32.to_le_bytes());
    second.extend(1u32.to_le_bytes());
    second.extend(0u16.to_le_bytes());
    second.extend(b"symbol\0");
    let bytes = archive(&[
        ("/", vec![0, 0, 0, 0]),
        ("/", second),
        ("only.o/", object(&[0x90, 0xC3], &["kept"])),
    ]);
    let functions = get_functions_from_lib(&bytes);
    assert_eq!(functions.len(), 1);
    assert_eq!(functions[0].name.as_deref(), Some("kept"));
    assert_eq!(functions[0].data, &[0x90, 0xC3]);
}

#[test]
fn object_with_a_short_string_table_is_passed_over() {
    let sound = object(&[0xC3], &["f"]);
    assert!(is_safe_object(&sound));
    for length in 0..4u32 {
        let mut broken = sound.clone();
        let at = broken.len() - 4;
        put_u32(&mut broken, at, length);
        assert!(!is_safe_object(&broken));
        let bytes = archive(&[("broken.o/", broken), ("sound.o/", sound.clone())]);
        let functions = get_functions_from_lib(&bytes);
        assert_eq!(functions.len(), 1);
        assert_eq!(functions[0].name.as_deref(), Some("f"));
    }
}

#[test]
fn object_with_a_symbol_named_before_the_string_table_is_passed_over() {
    let sound = object(&[0xC3], &["first", "second"]);
    let second_symbol = 60 + 1 + 18;
    for offset in 0..4u32 {
        let mut broken = sound.clone();
        broken[second_symbol..second_symbol + 8].copy_from_slice(&[0; 8]);
        put_u32(&mut broken, second_symbol + 4, offset);
        assert!(!is_safe_object(&broken));
        let bytes = archive(&[("broken.o/", broken)]);
        assert_eq!(get_functions_from_lib(&bytes).len(), 0);
    }
}

#[test]
fn symbol_named_in_the_string_table_is_read() {
    let mut bytes = object(&[0x90, 0xC3], &["inline"]);
    let symbol = 60 + 2;
    bytes[symbol..symbol + 8].copy_from_slice(&[0; 8]);
    put_u32(&mut bytes, symbol + 4, 4);
    let strings = bytes.len() - 4;
    let name = b"a_function_with_a_long_name\0";
    put_u32(&mut bytes, strings, 4 + name.len() as u32);
    bytes.extend(name);
    assert!(is_safe_object(&bytes));
    let library = archive(&[("long.o/", bytes)]);
    let functions = get_functions_from_lib(&library);
    assert_eq!(functions.len(), 1);
    assert_eq!(functions[0].name.as_deref(), Some("a_function_with_a_long_name"));
}

#[test]
fn auxiliary_records_are_not_taken_for_symbols() {
    // One symbol with one auxiliary record of zero bytes, then one symbol.
    let code = [0xC3u8];
    let symbols_at = 60 + code.len();
    let mut bytes = vec![0u8; symbols_at + 18 * 3 + 4];
    put_u16(&mut bytes, 0, 0x8664);
    put_u16(&mut bytes, 2, 1);
    put_u32(&mut bytes, 8, symbols_at as u32);
    put_u32(&mut bytes, 12, 3);
    bytes[20..25].copy_from_slice(b".text");
    put_u32(&mut bytes, 20 + 16, code.len() as u32);
    put_u32(&mut bytes, 20 + 20, 60);
    bytes[60] = code[0];
    for (index, name) in [(0usize, "first"), (2usize, "second")] {
        let at = symbols_at + 18 * index;
        bytes[at..at + name.len()].copy_from_slice(name.as_bytes());
        put_u16(&mut bytes, at + 12, 1);
        put_u16(&mut bytes, at + 14, 0x20);
        bytes[at + 16] = 2;
    }
    bytes[symbols_at + 17] = 1;
    let strings_at = symbols_at + 18 * 3;
    put_u32(&mut bytes, strings_at, 4);
    assert!(is_safe_object(&bytes));
    let library = archive(&[("aux.o/", bytes)]);
    let functions = get_functions_from_lib(&library);
    let names: Vec<Option<&str>> = functions.iter().map(|f| f.name.as_deref()).collect();
    assert_eq!(names, vec![Some("first"), Some("second")]);
}

#[test]
fn bytes_that_hold_no_symbol_table_are_safe_to_read() {
    assert!(is_safe_object(&[]));
    assert!(is_safe_object(b"not an object file"));
    assert!(is_safe_object(&[0u8; 20]));
    // A symbol table that lies outside the file.
    let mut outside = vec![0u8; 40];
    put_u32(&mut outside, 8, 1000);
    put_u32(&mut outside, 12, 5);
    assert!(is_safe_object(&outside));
}
