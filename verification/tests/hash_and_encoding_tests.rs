use imgstore::hashing::compute_hash;

#[test]
fn digest_is_deterministic() {
    let a = compute_hash(b"ABC");
    let b = compute_hash(b"ABC");
    assert_eq!(a, b);
}

#[test]
fn digest_is_lowercase_hex_of_fixed_width() {
    let h = compute_hash(b"ABC");
    assert_eq!(h.len(), 64);
    assert!(h.chars().all(|c| c.is_ascii_hexdigit() && !c.is_ascii_uppercase()));
}

#[test]
fn digest_differs_for_different_bytes() {
    assert_ne!(compute_hash(b"ABC"), compute_hash(b"ABD"));
    assert_ne!(compute_hash(b""), compute_hash(b"\0"));
}

#[test]
fn digest_matches_reference_vector() {
    // The well-known BLAKE3 digest of the empty input.
    assert_eq!(
        compute_hash(b""),
        "af1349b9f5f9a1a6a0404dea36dcc9499bcb25c9adc112b7cc9a93cae41f3262"
    );
}

#[test]
fn digest_agrees_with_the_library_it_relies_on() {
    assert_eq!(
        compute_hash(b"some image bytes"),
        blake3::hash(b"some image bytes").to_hex().to_string()
    );
}

#[test]
fn digest_of_text_and_of_its_base64_differ() {
    // The upload path hashes decoded bytes, never the base64 text.
    assert_ne!(compute_hash(b"ABC"), compute_hash(b"QUJD"));
}
