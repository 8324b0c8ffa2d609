use code_evolution::backup::{
    backup_file_name, generate_hash, get_extension, hex_prefix, next_backup_name,
};

#[test]
fn hash_is_the_start_of_the_sha256_digest() {
    assert_eq!(generate_hash(""), "e3b0c442");
    assert_eq!(generate_hash("abc"), "ba7816bf");
    assert_eq!(generate_hash("hello world"), "b94d27b9");
}

#[test]
fn hex_prefix_shows_four_bytes_in_lower_case() {
    assert_eq!(hex_prefix(&vec![0x00, 0x9a, 0xff, 0x10, 0x77]), "009aff10");
    assert_eq!(hex_prefix(&vec![0xAB]), "ab");
    assert_eq!(hex_prefix(&Vec::new()), "");
}

#[test]
fn extensions_by_language() {
    assert_eq!(get_extension("python"), "py");
    assert_eq!(get_extension("javascript"), "js");
    assert_eq!(get_extension("typescript"), "ts");
    assert_eq!(get_extension("rust"), "rs");
    assert_eq!(get_extension("go"), "go");
    assert_eq!(get_extension("java"), "java");
    assert_eq!(get_extension("cobol"), "txt");
    assert_eq!(get_extension(""), "txt");
}

#[test]
fn backup_name_is_stamp_hash_and_extension() {
    assert_eq!(
        backup_file_name("20240102_030405", "abc", "python"),
        "backup_20240102_030405_ba7816bf.py"
    );
    assert_eq!(backup_file_name("t", "", "basic"), "backup_t_e3b0c442.txt");
}

#[test]
fn name_taken_now_has_the_same_frame() {
    let name = next_backup_name("abc", "rust");
    assert!(name.starts_with("backup_"));
    assert!(name.ends_with("_ba7816bf.rs"));
    assert_eq!(name.len(), "backup_20240102_030405_ba7816bf.rs".len());
}
