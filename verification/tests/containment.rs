use reposeiri::fs::containment::{
    decode_hex, normalize_repository_path, percent_decode, RepositoryPathRejectReason,
};

#[test]
fn lexical_normalization_rejects_repository_escape() {
    assert_eq!(
        normalize_repository_path("../SECURITY.md"),
        Err(RepositoryPathRejectReason::EscapesRepository)
    );
    assert_eq!(
        normalize_repository_path("%2e%2e/SECURITY.md"),
        Err(RepositoryPathRejectReason::EscapesRepository)
    );
    assert_eq!(
        normalize_repository_path("docs/../SECURITY.md"),
        Ok("SECURITY.md".to_string())
    );
}

#[test]
fn normalization_rejects_each_refused_shape() {
    assert_eq!(normalize_repository_path("   "), Err(RepositoryPathRejectReason::Absolute));
    assert_eq!(normalize_repository_path("/etc/passwd"), Err(RepositoryPathRejectReason::Absolute));
    assert_eq!(
        normalize_repository_path("docs\\guide.md"),
        Err(RepositoryPathRejectReason::NonPortableSeparator)
    );
    assert_eq!(
        normalize_repository_path("%2Fetc"),
        Err(RepositoryPathRejectReason::NonPortableSeparator)
    );
    assert_eq!(
        normalize_repository_path("C:/x"),
        Err(RepositoryPathRejectReason::NonPortablePrefix)
    );
    assert_eq!(
        normalize_repository_path("a%00b"),
        Err(RepositoryPathRejectReason::NonPortablePrefix)
    );
    assert_eq!(
        normalize_repository_path("a%zz"),
        Err(RepositoryPathRejectReason::InvalidPercentEncoding)
    );
    assert_eq!(
        normalize_repository_path("a%2"),
        Err(RepositoryPathRejectReason::InvalidPercentEncoding)
    );
    assert_eq!(
        normalize_repository_path("a%ff"),
        Err(RepositoryPathRejectReason::InvalidUtf8)
    );
}

#[test]
fn normalization_resolves_dots_and_decodes() {
    assert_eq!(normalize_repository_path(" ./docs//x/./y/.. "), Ok("docs/x".to_string()));
    assert_eq!(normalize_repository_path("docs/.."), Ok(".".to_string()));
    assert_eq!(normalize_repository_path("caf%C3%A9.md"), Ok("café.md".to_string()));
    assert_eq!(percent_decode("a%41%62"), Ok("aAb".to_string()));
    assert_eq!(decode_hex(b'f'), Ok(15));
    assert_eq!(decode_hex(b'G'), Err(RepositoryPathRejectReason::InvalidPercentEncoding));
}
