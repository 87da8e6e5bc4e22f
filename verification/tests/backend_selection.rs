use provekit_hash::hash::{active_backend, backend_banner, HashBackend};

#[test]
fn sha2_takes_precedence() {
    assert_eq!(active_backend(true, true, true, true), Some(HashBackend::Sha2));
    assert_eq!(active_backend(false, true, true, true), Some(HashBackend::Sha3));
    assert_eq!(active_backend(false, false, true, true), Some(HashBackend::Blake3));
}

#[test]
fn skyscraper_only_when_alone() {
    assert_eq!(active_backend(false, false, false, true), Some(HashBackend::Skyscraper));
    assert_eq!(active_backend(false, false, false, false), None);
}

#[test]
fn banners() {
    assert_eq!(backend_banner(HashBackend::Sha2), ">>> USING SHA2 <<<");
    assert_eq!(backend_banner(HashBackend::Sha3), ">>> USING SHA3 <<<");
    assert_eq!(backend_banner(HashBackend::Blake3), ">>> USING BLAKE3 <<<");
    assert_eq!(backend_banner(HashBackend::Skyscraper), ">>> USING SKYSCRAPER <<<");
}
