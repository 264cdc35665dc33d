use amplitude_content::frontmatter::reassemble;
use amplitude_content::frontmatter::split_frontmatter;
use amplitude_content::error::CompileError;

#[test]
fn splits_header_and_body() {
    let text = "---\ntitle = \"Intro\"\n---\n# Hello\n\nbody text\n";
    let (header, body) = split_frontmatter(text).unwrap();
    assert_eq!(header, "title = \"Intro\"\n");
    assert_eq!(body, "# Hello\n\nbody text\n");
}

#[test]
fn skips_blank_lines_before_header() {
    let text = "\n  \n---\na = 1\n---\nbody";
    let (header, body) = split_frontmatter(text).unwrap();
    assert_eq!(header, "a = 1\n");
    assert_eq!(body, "body");
}

#[test]
fn missing_header_is_format_error() {
    let text = "# Just markdown\n";
    let err = split_frontmatter(text).unwrap_err();
    assert!(matches!(err, CompileError::FrontmatterFormatError(_)));
}

#[test]
fn unterminated_header_is_format_error() {
    let text = "---\ntitle = \"x\"\nno closing marker\n";
    let err = split_frontmatter(text).unwrap_err();
    assert!(matches!(err, CompileError::FrontmatterFormatError(_)));
}

#[test]
fn empty_input_is_format_error() {
    let err = split_frontmatter("").unwrap_err();
    assert!(matches!(err, CompileError::FrontmatterFormatError(_)));
}

#[test]
fn round_trip_preserves_header_and_body() {
    let header = "title = \"Round Trip\"\n";
    let body = "some **markdown** body\n";
    let joined = reassemble(header, body);
    let (h2, b2) = split_frontmatter(&joined).unwrap();
    assert_eq!(h2, header);
    assert_eq!(b2, body);
}

#[test]
fn round_trip_with_empty_header_and_body() {
    let joined = reassemble("", "");
    let (h2, b2) = split_frontmatter(&joined).unwrap();
    assert_eq!(h2, "");
    assert_eq!(b2, "");
}

#[test]
fn split_then_reassemble_splits_the_same_way() {
    let text = "\n---\ntitle = \"Doc\"\nextra = 3\n---\nbody line one\nbody line two";
    let (h1, b1) = split_frontmatter(text).unwrap();
    let joined = reassemble(&h1, &b1);
    let (h2, b2) = split_frontmatter(&joined).unwrap();
    assert_eq!(h1, h2);
    assert_eq!(b1, b2);
}

#[test]
fn body_may_hold_marker_like_text() {
    let text = "---\na = 1\n---\nfirst\n---\nsecond\n";
    let (header, body) = split_frontmatter(text).unwrap();
    assert_eq!(header, "a = 1\n");
    assert_eq!(body, "first\n---\nsecond\n");
}
