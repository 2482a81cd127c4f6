use ariane::functions_utils::search::guess_function_size;

#[test]
fn padding_run_ends_the_body() {
    assert_eq!(guess_function_size(&[0x90, 0x90, 0xCC, 0xCC, 0xCC, 0x90]), 2);
}

#[test]
fn padding_only_body_is_empty() {
    assert_eq!(guess_function_size(&[0xCC, 0xCC, 0xCC, 0xCC]), 0);
    assert_eq!(guess_function_size(&[0xCC]), 0);
    assert_eq!(guess_function_size(&[]), 0);
}

#[test]
fn trailing_padding_is_trimmed() {
    assert_eq!(guess_function_size(&[0x90, 0xCC, 0x90, 0xCC, 0xCC]), 3);
    assert_eq!(guess_function_size(&[0x90, 0x91, 0x92]), 3);
}
