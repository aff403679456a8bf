use sermonizer::config::LineEnding;

#[test]
fn line_ending_bytes() {
    assert_eq!(LineEnding::NoEnding.bytes(), &[] as &[u8]);
    assert_eq!(LineEnding::Nl.bytes(), &[b'\n']);
    assert_eq!(LineEnding::Cr.bytes(), &[b'\r']);
    assert_eq!(LineEnding::Crlf.bytes(), &[b'\r', b'\n']);
}

#[test]
fn line_ending_names() {
    assert_eq!(LineEnding::NoEnding.describe(), "none");
    assert_eq!(LineEnding::Nl.describe(), "LF (\\n)");
    assert_eq!(LineEnding::Cr.describe(), "CR (\\r)");
    assert_eq!(LineEnding::Crlf.describe(), "CRLF (\\r\\n)");
}
