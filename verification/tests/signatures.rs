use ariane::functions_utils::search::{Function, FunctionType};
use ariane::sig::comparaison::{
    compare, hash_score, is_comparable_hash, sort_symbols, IndexEntry, NameIndex, Symbol,
    MATCH_THRESHOLD,
};
use ariane::sig::sig_generation::{
    hash_functions, hash_single_func, FuzzyFunc, HashFn, MIN_FUNC_SZ,
};

const FIRST: &str = "96:U57GjXnLt9co6pZwvLhJluvrszNgMFwO6MFG8SvkpjTWf:Hj3BeoEcNJ0TspgIG8SvkpjTg";
const SECOND: &str = "96:U57GjXnLt9co6pZwvLhJluvrs1eRTxYARdEallia:Hj3BeoEcNJ0TsI9xYeia3R";

fn signature(rva: u32, hash: &str, name: Option<&str>) -> FuzzyFunc {
    FuzzyFunc {
        rva,
        hash: ariane::sig::sig_generation::Hash { hash: hash.to_string() },
        name: name.map(|text| text.to_string()),
    }
}

fn distinct_bytes(count: usize, seed: u32) -> Vec<u8> {
    let mut state = seed;
    let mut bytes = Vec::new();
    for _ in 0..count {
        state = state.wrapping_mul(1_103_515_245).wrapping_add(12_345);
        // Bytes from 0x50 to 0x57 are one-byte `push` instructions.
        bytes.push(0x50 + ((state >> 16) & 7) as u8);
    }
    bytes
}

#[test]
fn call_is_reduced_to_its_opcode() {
    let mut body = vec![0xE8, 0x00, 0x00, 0x00, 0x00];
    body.extend(std::iter::repeat(0x90).take(59));
    assert_eq!(body.len(), 64);
    let mut expected = vec![0xE8];
    expected.extend(std::iter::repeat(0x90).take(59));
    assert_eq!(hash_single_func(&body), expected);
}

#[test]
fn jump_is_reduced_to_its_opcode() {
    // jmp rel32, then jmp rel8, then ret.
    let body = [0x90, 0xE9, 0x10, 0x20, 0x30, 0x40, 0xEB, 0x05, 0xC3];
    assert_eq!(hash_single_func(&body), vec![0x90, 0xE9, 0xE9, 0xC3]);
}

#[test]
fn address_reference_is_left_out() {
    // lea rax, [rip + 0x10]; mov eax, [rbx + 0x20]; mov eax, [rbx]; ret
    let body = [
        0x48, 0x8D, 0x05, 0x10, 0x00, 0x00, 0x00, 0x8B, 0x43, 0x20, 0x8B, 0x03, 0xC3,
    ];
    assert_eq!(hash_single_func(&body), vec![0x8B, 0x43, 0x20, 0x8B, 0x03, 0xC3]);
    // mov [rip + 0x10], eax; ret: the reference is the first operand.
    assert_eq!(hash_single_func(&[0x89, 0x05, 0x10, 0x00, 0x00, 0x00, 0xC3]), vec![0xC3]);
}

#[test]
fn memory_operand_with_another_base_is_kept() {
    // mov eax, [rbx + 8]; mov [rsp + 0x10], rax; ret
    let body = [0x8B, 0x43, 0x08, 0x48, 0x89, 0x44, 0x24, 0x10, 0xC3];
    assert_eq!(hash_single_func(&body), body.to_vec());
}

#[test]
fn reference_to_address_zero_is_kept() {
    // lea rax, [rip - 7] at address zero computes the address zero.
    let lea = [0x48u8, 0x8D, 0x05, 0xF9, 0xFF, 0xFF, 0xFF];
    assert_eq!(hash_single_func(&lea), lea.to_vec());
    // One byte further the same bytes compute the address one.
    let mut shifted = vec![0x90u8];
    shifted.extend(lea);
    assert_eq!(hash_single_func(&shifted), vec![0x90]);
}

#[test]
fn second_trap_in_a_row_ends_the_body() {
    // nop; ud2; ud2; nop
    assert_eq!(hash_single_func(&[0x90, 0x0F, 0x0B, 0x0F, 0x0B, 0x90]), vec![0x90, 0x0F, 0x0B]);
    // nop; int3; int3; nop
    assert_eq!(hash_single_func(&[0x90, 0xCC, 0xCC, 0x90]), vec![0x90, 0xCC]);
    // int3; ud2; nop
    assert_eq!(hash_single_func(&[0xCC, 0x0F, 0x0B, 0x90]), vec![0xCC]);
    // int3; nop; int3; nop: the traps are not in a row.
    assert_eq!(hash_single_func(&[0xCC, 0x90, 0xCC, 0x90]), vec![0xCC, 0x90, 0xCC, 0x90]);
}

#[test]
fn traps_parted_by_another_instruction_are_not_in_a_row() {
    // int3; call; int3; nop
    assert_eq!(
        hash_single_func(&[0xCC, 0xE8, 0x00, 0x00, 0x00, 0x00, 0xCC, 0x90]),
        vec![0xCC, 0xE8, 0xCC, 0x90]
    );
    // int3; jmp; int3; nop
    assert_eq!(hash_single_func(&[0xCC, 0xEB, 0x00, 0xCC, 0x90]), vec![0xCC, 0xE9, 0xCC, 0x90]);
    // int3; lea rax, [rip + 0x10]; int3; nop
    assert_eq!(
        hash_single_func(&[0xCC, 0x48, 0x8D, 0x05, 0x10, 0x00, 0x00, 0x00, 0xCC, 0x90]),
        vec![0xCC, 0xCC, 0x90]
    );
}

#[test]
fn call_displacement_does_not_show_in_the_result() {
    let rest = [0x55u8, 0x48, 0x89, 0xE5, 0x31, 0xC0, 0x5D, 0xC3];
    let mut near = vec![0xE8u8, 0x00, 0x00, 0x00, 0x00];
    near.extend(rest);
    let mut far = vec![0xE8u8, 0x78, 0x56, 0x34, 0x12];
    far.extend(rest);
    let mut expected = vec![0xE8u8];
    expected.extend(rest);
    assert_eq!(hash_single_func(&near), expected);
    assert_eq!(hash_single_func(&far), expected);
}

#[test]
fn plain_body_is_unchanged() {
    // push rbp; mov rbp, rsp; xor eax, eax; pop rbp; ret
    let body = [0x55, 0x48, 0x89, 0xE5, 0x31, 0xC0, 0x5D, 0xC3];
    assert_eq!(hash_single_func(&body), body.to_vec());
    assert_eq!(hash_single_func(&[]), Vec::<u8>::new());
}

#[test]
fn normalizing_a_plain_output_again_changes_nothing() {
    let body = [0x55, 0x48, 0x8D, 0x05, 0x10, 0x00, 0x00, 0x00, 0x31, 0xC0, 0x5D, 0xC3];
    let once = hash_single_func(&body);
    assert_eq!(once, vec![0x55, 0x31, 0xC0, 0x5D, 0xC3]);
    assert_eq!(hash_single_func(&once), once);
}

#[test]
fn truncated_instruction_is_copied() {
    // A `mov eax, imm32` that lacks its last bytes.
    assert_eq!(hash_single_func(&[0x90, 0xB8, 0x01]), vec![0x90, 0xB8, 0x01]);
}

#[test]
fn hash_is_the_fuzzy_hash_of_the_data() {
    let data = b"this is our test data!".to_vec();
    assert_eq!(<FuzzyFunc as HashFn<String>>::hash(&data), "3:YKKGhR0tn:YRGRmn");
    assert_ne!(<FuzzyFunc as HashFn<String>>::hash(&data).as_bytes(), data.as_slice());
}

#[test]
fn functions_are_given_signatures() {
    let large = distinct_bytes(200, 1);
    let small = vec![0x90u8; 10];
    let functions = vec![
        Function { data: &large, name: Some("large".to_string()), rva: 0x1000, fn_type: FunctionType::Exe },
        Function { data: &small, name: Some("small".to_string()), rva: 0x2000, fn_type: FunctionType::Exe },
        Function { data: &large, name: None, rva: 0x3000, fn_type: FunctionType::Lib },
    ];
    let signatures = hash_functions(&functions);
    assert_eq!(signatures.len(), 2);
    assert_eq!(signatures[0].rva, 0x1000);
    assert_eq!(signatures[0].name.as_deref(), Some("large"));
    assert_eq!(signatures[1].rva, 0x3000);
    assert_eq!(signatures[1].name, None);
    assert_eq!(signatures[0].hash.hash, <FuzzyFunc as HashFn<String>>::hash(&large));
    assert_eq!(signatures[0].hash, signatures[1].hash);
}

#[test]
fn function_below_the_minimum_after_normalization_is_dropped() {
    assert_eq!(MIN_FUNC_SZ, 20);
    // Four calls of five bytes: twenty bytes that normalize to four.
    let calls: Vec<u8> = [0xE8u8, 0, 0, 0, 0].repeat(4);
    let nineteen = vec![0x90u8; 19];
    let twenty = vec![0x90u8; 20];
    let ten = vec![0x90u8; 10];
    let functions = vec![
        Function { data: &calls, name: None, rva: 1, fn_type: FunctionType::Exe },
        Function { data: &nineteen, name: None, rva: 2, fn_type: FunctionType::Exe },
        Function { data: &twenty, name: None, rva: 3, fn_type: FunctionType::Exe },
        Function { data: &ten, name: None, rva: 4, fn_type: FunctionType::Exe },
    ];
    let signatures = hash_functions(&functions);
    assert_eq!(signatures.len(), 1);
    assert_eq!(signatures[0].rva, 3);
}

#[test]
fn comparable_hashes_have_a_block_size_and_two_more_fields() {
    assert!(is_comparable_hash("3:abc:def"));
    assert!(is_comparable_hash(FIRST));
    assert!(is_comparable_hash("12345678:a:b"));
    assert!(is_comparable_hash("3::"));
    assert!(is_comparable_hash("3:a:b:c"));
    assert!(!is_comparable_hash(""));
    assert!(!is_comparable_hash("3"));
    assert!(!is_comparable_hash("3:abc"));
    assert!(!is_comparable_hash(":abc:def"));
    assert!(!is_comparable_hash("x3:abc:def"));
    assert!(!is_comparable_hash("3x:abc:def"));
    assert!(!is_comparable_hash("123456789:a:b"));
    assert!(!is_comparable_hash("+3:a:b"));
}

#[test]
fn score_is_the_similarity_of_the_hashes() {
    assert_eq!(hash_score(FIRST, SECOND), Some(63));
    assert_eq!(hash_score(FIRST, FIRST), Some(100));
    assert_eq!(hash_score(FIRST, "3"), None);
    assert_eq!(hash_score("", FIRST), None);
    assert_eq!(hash_score("3:abcdefgh:abcd", "96:abcdefgh:abcd"), None);
}

#[test]
fn signature_scores_against_another() {
    let first = signature(0, FIRST, None);
    let second = signature(0, SECOND, None);
    assert_eq!(first.similarity(&second), Some(63));
    assert_eq!(first.compare_hash(second.get_hash()), 63);
    assert_eq!(first.try_compare_hash(&second), Some(63));
    assert_eq!(first.try_compare_hash(&signature(0, "junk", None)), None);
    assert_eq!(first.get_hash(), FIRST);
    assert_eq!(first.similarity(&signature(0, "junk", None)), None);
}

#[test]
fn candidate_needs_a_score_above_the_threshold() {
    assert_eq!(MATCH_THRESHOLD, 25);
    assert_eq!(Symbol::from_score("f", 7, None), None);
    assert_eq!(Symbol::from_score("f", 7, Some(0)), None);
    assert_eq!(Symbol::from_score("f", 7, Some(25)), None);
    assert_eq!(
        Symbol::from_score("f", 7, Some(26)),
        Some(Symbol { name: "f".to_string(), rva: 7, score: 26 })
    );
    assert_eq!(
        Symbol::from_score("f", 7, Some(100)),
        Some(Symbol { name: "f".to_string(), rva: 7, score: 100 })
    );
}

#[test]
fn first_hash_under_a_name_stays_in_the_index() {
    let mut index = NameIndex::new();
    assert_eq!(index.len(), 0);
    assert!(index.insert("alpha", "3:a:b"));
    assert!(index.insert("beta", "3:c:d"));
    assert!(!index.insert("alpha", "3:e:f"));
    assert_eq!(index.len(), 2);
    assert_eq!(index.get("alpha").as_deref(), Some("3:a:b"));
    assert_eq!(index.get("beta").as_deref(), Some("3:c:d"));
    assert_eq!(index.get("gamma"), None);
    assert!(index.contains_name("beta"));
    assert!(!index.contains_name("bet"));
    assert_eq!(
        index.entries(),
        &vec![
            IndexEntry { name: "alpha".to_string(), hash: "3:a:b".to_string() },
            IndexEntry { name: "beta".to_string(), hash: "3:c:d".to_string() },
        ]
    );
}

#[test]
fn index_of_signatures_passes_over_the_unnamed() {
    let signatures = vec![
        signature(0, "3:a:b", Some("alpha")),
        signature(0, "3:c:d", None),
        signature(0, "3:e:f", Some("alpha")),
        signature(0, "3:g:h", Some("beta")),
    ];
    let index = NameIndex::from_functions(&signatures);
    assert_eq!(index.len(), 2);
    assert_eq!(index.get("alpha").as_deref(), Some("3:a:b"));
    assert_eq!(index.get("beta").as_deref(), Some("3:g:h"));
}

#[test]
fn symbols_are_sorted_by_address_then_name_then_score() {
    let symbol = |name: &str, rva: u32, score: u32| Symbol { name: name.to_string(), rva, score };
    let unsorted = vec![
        symbol("zeta", 0x2000, 60),
        symbol("beta", 0x1000, 60),
        symbol("alpha", 0x2000, 60),
        symbol("alpha", 0x1000, 60),
        symbol("alpha", 0x1000, 30),
        symbol("alp", 0x1000, 99),
        symbol("Beta", 0x1000, 60),
    ];
    let sorted = sort_symbols(&unsorted);
    assert_eq!(
        sorted,
        vec![
            symbol("Beta", 0x1000, 60),
            symbol("alp", 0x1000, 99),
            symbol("alpha", 0x1000, 30),
            symbol("alpha", 0x1000, 60),
            symbol("beta", 0x1000, 60),
            symbol("alpha", 0x2000, 60),
            symbol("zeta", 0x2000, 60),
        ]
    );
    assert_eq!(sort_symbols(&Vec::new()), Vec::new());
}

#[test]
fn equal_library_hashes_both_match_in_the_order_of_their_names() {
    let mut index = NameIndex::new();
    index.insert("zlib_inflate", FIRST);
    index.insert("adler32", FIRST);
    index.insert("unrelated", "3:abcdefgh:abcd");
    index.insert("malformed", "junk");
    let targets = vec![signature(0x2000, SECOND, None), signature(0x1000, SECOND, None)];
    let symbols = compare(&targets, &index);
    let symbol = |name: &str, rva: u32, score: u32| Symbol { name: name.to_string(), rva, score };
    assert_eq!(
        symbols,
        vec![
            symbol("adler32", 0x1000, 63),
            symbol("zlib_inflate", 0x1000, 63),
            symbol("adler32", 0x2000, 63),
            symbol("zlib_inflate", 0x2000, 63),
        ]
    );
    for found in &symbols {
        assert!(found.score > 25 && found.score <= 100);
    }
}

#[test]
fn nothing_matches_an_empty_index() {
    let targets = vec![signature(0x1000, FIRST, None)];
    assert_eq!(compare(&targets, &NameIndex::new()), Vec::new());
    let mut index = NameIndex::new();
    index.insert("f", FIRST);
    assert_eq!(compare(&Vec::new(), &index), Vec::new());
}

#[test]
fn hashes_made_here_can_be_compared() {
    assert!(is_comparable_hash(&<FuzzyFunc as HashFn<String>>::hash(&Vec::new())));
    assert!(is_comparable_hash(&<FuzzyFunc as HashFn<String>>::hash(&vec![0x41u8; 7])));
    assert!(is_comparable_hash(&<FuzzyFunc as HashFn<String>>::hash(&distinct_bytes(5000, 3))));
    let body = distinct_bytes(300, 5);
    let functions = vec![
        Function { data: &body, name: Some("one".to_string()), rva: 0x1000, fn_type: FunctionType::Lib },
        Function { data: &body[..150], name: Some("two".to_string()), rva: 0x2000, fn_type: FunctionType::Lib },
    ];
    let signatures = hash_functions(&functions);
    assert!(!signatures.is_empty());
    for signature in &signatures {
        assert!(is_comparable_hash(signature.get_hash()));
        assert!(signature.try_compare_hash(signature).is_some());
    }
}

#[test]
fn what_follows_a_call_is_normalised_as_it_is_alone() {
    // push rbx; mov eax, [rbx + 8]; int3; nop; jmp +0; ret
    let rest = [0x53u8, 0x8B, 0x43, 0x08, 0xCC, 0x90, 0xE9, 0x00, 0x00, 0x00, 0x00, 0xC3];
    let alone = hash_single_func(&rest);
    assert_eq!(alone, vec![0x53, 0x8B, 0x43, 0x08, 0xCC, 0x90, 0xE9, 0xC3]);
    for displacement in [[0u8, 0, 0, 0], [0xFF, 0xFF, 0xFF, 0xFF], [0x10, 0x20, 0x30, 0x40]] {
        let mut body = vec![0xE8u8];
        body.extend(displacement);
        body.extend(rest);
        let mut expected = vec![0xE8u8];
        expected.extend(&alone);
        assert_eq!(hash_single_func(&body), expected);
    }
}

#[test]
fn reference_to_address_zero_is_read_otherwise_behind_a_call() {
    // lea rax, [rip - 7] computes the address zero where it stands alone,
    // and the address five behind a call of five bytes.
    let lea = [0x48u8, 0x8D, 0x05, 0xF9, 0xFF, 0xFF, 0xFF];
    assert_eq!(hash_single_func(&lea), lea.to_vec());
    let mut body = vec![0xE8u8, 0, 0, 0, 0];
    body.extend(lea);
    assert_eq!(hash_single_func(&body), vec![0xE8]);
}
