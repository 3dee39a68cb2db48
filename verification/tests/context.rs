use reposeiri::markdown::context::mask_hidden_contexts;

#[test]
fn masking_preserves_bytes_and_newlines() {
    let source = "# Visible\n```md\n## Security\n[Security](SECURITY.md)\n```\n";
    let masked = mask_hidden_contexts(source);
    assert_eq!(masked.len(), source.len());
    assert_eq!(masked.matches('\n').count(), source.matches('\n').count());
    assert!(masked.contains("# Visible"));
    assert!(!masked.contains("Security"));
}

#[test]
fn masking_hides_comments_code_spans_and_escapes() {
    assert_eq!(mask_hidden_contexts("a <!-- b --> c"), "a            c");
    assert_eq!(mask_hidden_contexts("x `code` y"), "x        y");
    assert_eq!(mask_hidden_contexts("x \\* y"), "x \\  y");
    assert_eq!(mask_hidden_contexts("keep `é` it"), "keep      it");
    assert_eq!(mask_hidden_contexts(""), "");
    assert_eq!(mask_hidden_contexts("~~~\né\r\n~~~\nz"), "   \n  \r\n   \nz");
}

#[test]
fn masking_leaves_unclosed_spans_and_keeps_multibyte_length() {
    let source = "`open and é <!-- never closed";
    let masked = mask_hidden_contexts(source);
    assert_eq!(masked.len(), source.len());
    assert!(masked.starts_with("`open and é "));
}

#[test]
fn short_texts_are_masked_without_a_comment() {
    assert_eq!(mask_hidden_contexts(""), "");
    assert_eq!(mask_hidden_contexts("a"), "a");
    assert_eq!(mask_hidden_contexts("<!-"), "<!-");
    assert_eq!(mask_hidden_contexts("`x`"), "   ");
}
