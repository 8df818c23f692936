use sha_file_hashing::ascii::str_eq_ignore_ascii_case;
use sha_file_hashing::hex::to_hex;
use sha_file_hashing::{hash_bytes, validate_bytes, DigestEngine, SHAError, Step};

#[test]
fn test_sha_error_display() {
    let error = SHAError::FailedValidation("test.txt".to_string());
    assert_eq!(error.to_string(), "SHA validation failed for file: test.txt");
}

#[test]
fn io_error_text_names_its_cause() {
    let cause = std::io::Error::new(std::io::ErrorKind::NotFound, "File not found");
    let expected = format!("IO error: {}", cause);
    assert_eq!(SHAError::IO(cause).to_string(), expected);
    assert_eq!(expected, "IO error: File not found");
}

#[test]
fn empty_content_digest() {
    assert_eq!(hash_bytes(b""), "da39a3ee5e6b4b0d3255bfef95601890afd80709");
}

#[test]
fn hello_world_digest() {
    assert_eq!(hash_bytes(b"Hello, World!"), "0a0a9f2a6772942557ab5355d76af442f8f65e01");
}

#[test]
fn test_data_digest() {
    assert_eq!(hash_bytes(b"test data"), "f48dd853820860816c75d54d0f584dc863327a7c");
}

#[test]
fn multi_chunk_digest() {
    assert_eq!(hash_bytes(&vec![b'A'; 20000]), "b9624c14586d4668cba0b2759229a49f1ea355b6");
    assert_eq!(hash_bytes(&vec![b'A'; 8192]), "35b6795ca20d6dc0aff8c7c110c96cd1070b8c38");
}

#[test]
fn digest_is_forty_lowercase_hex_digits() {
    for content in [&b""[..], b"x", b"Hello, World!", &[0xffu8; 300][..]] {
        let hash = hash_bytes(content);
        assert_eq!(hash.len(), 40);
        assert!(hash.chars().all(|c| c.is_ascii_digit() || ('a'..='f').contains(&c)));
        assert_eq!(hash, hash_bytes(content));
    }
}

#[test]
fn own_digest_validates_in_any_case() {
    let content = b"Hello, World!";
    let hash = hash_bytes(content);
    assert!(validate_bytes(content, &hash));
    assert!(validate_bytes(content, &hash.to_uppercase()));
    assert!(validate_bytes(content, "0A0A9F2A6772942557AB5355D76AF442F8F65E01"));
    assert!(validate_bytes(content, "0a0A9f2A6772942557aB5355d76AF442f8f65E01"));
}

#[test]
fn other_strings_do_not_validate() {
    let content = b"Hello, World!";
    assert!(!validate_bytes(content, "0000000000000000000000000000000000000000"));
    assert!(!validate_bytes(content, "abc123"));
    assert!(!validate_bytes(content, ""));
    assert!(!validate_bytes(content, "0a0a9f2a6772942557ab5355d76af442f8f65e0"));
    assert!(!validate_bytes(content, "0a0a9f2a6772942557ab5355d76af442f8f65e011"));
    assert!(!validate_bytes(content, "0a0a9f2a6772942557ab5355d76af442f8f65e0g"));
}

#[test]
fn distinct_contents_have_distinct_digests() {
    assert_ne!(hash_bytes(b"Content 1"), hash_bytes(b"Content 2"));
    assert_eq!(hash_bytes(b"Content 1"), "ab8366d7206c431e6e15a625a04d0fbe5510984d");
    assert_eq!(hash_bytes(b"Content 2"), "0db0e5fa1ecf3e7659504f2e4048434cd9f20d2d");
}

#[test]
fn engine_fed_in_pieces_matches_whole() {
    let engine = DigestEngine::new().absorb(b"Hello, ").absorb(b"World!");
    assert_eq!(engine.hex_digest(), "0a0a9f2a6772942557ab5355d76af442f8f65e01");
    let engine = DigestEngine::new().absorb(b"test ").absorb(b"").absorb(b"data");
    assert!(engine.matches("F48DD853820860816C75D54D0F584DC863327A7C"));
}

#[test]
fn hash_step_continues_then_finishes() {
    let engine = match DigestEngine::new().hash_step(Ok(&b"test data"[..])) {
        Step::Continue(next) => next,
        Step::Done(_) => panic!("a non-empty chunk must not end the content"),
    };
    match engine.hash_step(Ok(&[][..])) {
        Step::Done(Ok(hash)) => assert_eq!(hash, "f48dd853820860816c75d54d0f584dc863327a7c"),
        _ => panic!("an empty chunk must end the content with its digest"),
    }
}

#[test]
fn hash_step_passes_read_error_through() {
    let error = std::io::Error::new(std::io::ErrorKind::PermissionDenied, "denied");
    match DigestEngine::new().hash_step(Err(error)) {
        Step::Done(Err(SHAError::IO(e))) => {
            assert_eq!(e.kind(), std::io::ErrorKind::PermissionDenied)
        },
        _ => panic!("a read error must end hashing with that error"),
    }
}

#[test]
fn validate_step_turns_read_error_into_false() {
    let error = std::io::Error::new(std::io::ErrorKind::Other, "broken");
    let step = DigestEngine::new().validate_step(Err(error), "da39a3ee5e6b4b0d3255bfef95601890afd80709");
    assert!(matches!(step, Step::Done(false)));
    let step = DigestEngine::new().validate_step(Ok(&[][..]), "DA39A3EE5E6B4B0D3255BFEF95601890AFD80709");
    assert!(matches!(step, Step::Done(true)));
}

#[test]
fn hex_rendering() {
    assert_eq!(to_hex(&[]), "");
    assert_eq!(to_hex(&[0x00, 0x0f, 0x10, 0xab, 0xff]), "000f10abff");
}

#[test]
fn ascii_case_comparison() {
    assert!(str_eq_ignore_ascii_case("", ""));
    assert!(str_eq_ignore_ascii_case("AbC", "aBc"));
    assert!(!str_eq_ignore_ascii_case("abc", "abd"));
    assert!(!str_eq_ignore_ascii_case("abc", "ab"));
    assert!(str_eq_ignore_ascii_case("Straße", "STRAße"));
    assert!(!str_eq_ignore_ascii_case("ß", "SS"));
    assert!(!str_eq_ignore_ascii_case("é", "É"));
    assert!(!str_eq_ignore_ascii_case("[", "{"));
    assert!(!str_eq_ignore_ascii_case("@", "`"));
}
