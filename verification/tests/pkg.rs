//! Packages: their parts, their class and the references into them.

use odf_preview::notes::Notes;
use odf_preview::odf::pkg::{
    class_from_mimetype, manifest_encrypts_content, open, Class, Entries, Package, Parts,
    ENCRYPTED, MAX_HREF_BYTES, NOTE_STYLES,
};

/// The fixed parts of a package with these entries.
fn parts(_tag: &str, entries: &[(&str, Vec<u8>)]) -> Parts {
    let part = |name: &str| match entries.iter().find(|e| e.0 == name) {
        None => Ok(None),
        Some(e) => String::from_utf8(e.1.clone()).map(Some).map_err(|e| e.to_string()),
    };
    Parts {
        entries: Entries(entries.iter().map(|e| e.0.to_string()).collect()),
        manifest: part("META-INF/manifest.xml"),
        mimetype: part("mimetype"),
        content: part("content.xml"),
        styles: part("styles.xml"),
        meta: part("meta.xml"),
        settings: part("settings.xml"),
    }
}

fn content_xml(body_child: &str) -> Vec<u8> {
    format!(
        r#"<?xml version="1.0" encoding="UTF-8"?>
<office:document-content
  xmlns:office="urn:oasis:names:tc:opendocument:xmlns:office:1.0"
  xmlns:text="urn:oasis:names:tc:opendocument:xmlns:text:1.0">
 <office:automatic-styles/>
 <office:body><office:{body_child}><text:p>café</text:p></office:{body_child}></office:body>
</office:document-content>"#
    )
    .into_bytes()
}

fn mimetype(kind: &str) -> Vec<u8> {
    format!("application/vnd.oasis.opendocument.{kind}").into_bytes()
}

fn manifest(extra: &str) -> Vec<u8> {
    format!(
        r#"<?xml version="1.0" encoding="UTF-8"?>
<manifest:manifest xmlns:manifest="urn:oasis:names:tc:opendocument:xmlns:manifest:1.0">
 <manifest:file-entry manifest:full-path="/" manifest:media-type="application/vnd.oasis.opendocument.text"/>
{extra}
</manifest:manifest>"#
    )
    .into_bytes()
}

/// The `manifest:encryption-data` child that marks `path` as ciphertext.
fn encrypted_entry(path: &str) -> String {
    format!(
        r#" <manifest:file-entry manifest:full-path="{path}" manifest:media-type="text/xml">
  <manifest:encryption-data manifest:checksum-type="SHA1/1K" manifest:checksum="Y2Fmw6k=">
   <manifest:algorithm manifest:algorithm-name="http://www.w3.org/2001/04/xmlenc#aes256-cbc"
 manifest:initialisation-vector="bmFpdmU="/>
  </manifest:encryption-data>
 </manifest:file-entry>"#
    )
}

fn open_ok(pkg: Parts) -> (Package, Vec<String>) {
    let mut notes = Notes::new();
    let p = open(pkg, &mut notes).expect("package opens");
    (p, notes.into_vec())
}

fn open_err(pkg: Parts) -> String {
    let mut notes = Notes::new();
    open(pkg, &mut notes)
        .err()
        .expect("package must not open")
}

#[test]
fn exposes_the_fixed_parts_and_the_media_listing() {
    let pkg = parts(
        "odf-parts",
        &[
            ("mimetype", mimetype("text")),
            ("META-INF/manifest.xml", manifest("")),
            ("styles.xml", b"<s xmlns:s='x'/>".to_vec()),
            ("meta.xml", b"<m/>".to_vec()),
            ("settings.xml", b"<c/>".to_vec()),
            ("Pictures/", Vec::new()),
            ("Pictures/1000.png", b"\x89PNG".to_vec()),
            ("Pictures/naive.jpg", b"\xff\xd8\xff".to_vec()),
            ("Thumbnails/thumbnail.png", b"\x89PNG".to_vec()),
            ("content.xml", content_xml("text")),
        ],
    );
    let (p, notes) = open_ok(pkg);
    assert_eq!(p.class, Class::Text);
    assert!(p.content.contains("café"));
    assert_eq!(p.styles.as_deref(), Some("<s xmlns:s='x'/>"));
    assert_eq!(p.meta.as_deref(), Some("<m/>"));
    assert_eq!(p.settings.as_deref(), Some("<c/>"));
    assert!(notes.is_empty(), "{notes:?}");
    // Archive order, media only: no directory entry and no thumbnail.
    assert_eq!(
        p.entries.pictures(),
        ["Pictures/1000.png", "Pictures/naive.jpg"]
    );
}

#[test]
fn missing_content_is_fatal() {
    let pkg = parts(
        "odf-nocontent",
        &[
            ("mimetype", mimetype("text")),
            ("styles.xml", b"<s/>".to_vec()),
        ],
    );
    let err = open_err(pkg);
    assert!(err.contains("content.xml"), "{err}");
}

#[test]
fn malformed_content_is_fatal() {
    let pkg = parts(
        "odf-badcontent",
        &[
            ("mimetype", mimetype("text")),
            ("content.xml", b"<office:body>".to_vec()),
        ],
    );
    let mut notes = Notes::new();
    assert!(open(pkg, &mut notes).is_err());
}

#[test]
fn missing_optional_parts_degrade_and_only_the_visible_one_is_noted() {
    let pkg = parts(
        "odf-nostyles",
        &[
            ("mimetype", mimetype("text")),
            ("content.xml", content_xml("text")),
        ],
    );
    let (p, notes) = open_ok(pkg);
    assert_eq!(p.class, Class::Text);
    assert!(p.styles.is_none() && p.meta.is_none() && p.settings.is_none());
    // One note, not three: the stylesheet is what the reader can see the loss
    // of. Document properties and view state are not drawn at all.
    assert_eq!(notes, vec![NOTE_STYLES.to_string()], "{notes:?}");
}

#[test]
fn encrypted_content_is_reported_and_never_parsed() {
    // Ciphertext, not XML: reaching the parser at all would surface a UTF-8
    // error instead of the honest reason.
    let pkg = parts(
        "odf-encrypted",
        &[
            ("mimetype", mimetype("text")),
            (
                "META-INF/manifest.xml",
                manifest(&encrypted_entry("content.xml")),
            ),
            ("content.xml", vec![0x00, 0xff, 0xfe, 0x9c, 0x01]),
        ],
    );
    assert_eq!(open_err(pkg), ENCRYPTED);
}

#[test]
fn encryption_on_another_part_is_not_the_body() {
    let pkg = parts(
        "odf-encrypted-other",
        &[
            ("mimetype", mimetype("text")),
            (
                "META-INF/manifest.xml",
                manifest(&encrypted_entry("Pictures/1000.png")),
            ),
            ("content.xml", content_xml("text")),
        ],
    );
    let (p, _) = open_ok(pkg);
    assert_eq!(p.class, Class::Text);
    // A leading slash on the full-path is still the body.
    assert!(manifest_encrypts_content(&String::from_utf8(manifest(
        &encrypted_entry("/content.xml")
    ))
    .unwrap()));
    // An unparseable manifest cannot claim anything.
    assert!(!manifest_encrypts_content("<manifest:manifest"));
}

#[test]
fn body_child_decides_the_class_over_a_mismatched_extension() {
    for (body, mime, want) in [
        ("text", "text", Class::Text),
        ("spreadsheet", "spreadsheet", Class::Spreadsheet),
        ("presentation", "presentation", Class::Presentation),
        // A `.odt` whose body is a spreadsheet renders as what it is, and the
        // stale mimetype beside it does not get a vote.
        ("spreadsheet", "text", Class::Spreadsheet),
        ("presentation", "text", Class::Presentation),
    ] {
        let pkg = parts(
            "odf-class",
            &[
                ("mimetype", mimetype(mime)),
                ("content.xml", content_xml(body)),
            ],
        );
        let (p, _) = open_ok(pkg);
        assert_eq!(p.class, want, "body {body}, mimetype {mime}");
    }
}

#[test]
fn mimetype_answers_when_the_body_is_unrecognized() {
    // `office:drawing` has no renderer here, so the label breaks the tie.
    let pkg = parts(
        "odf-drawingbody",
        &[
            ("mimetype", mimetype("presentation")),
            ("content.xml", content_xml("drawing")),
        ],
    );
    let (p, _) = open_ok(pkg);
    assert_eq!(p.class, Class::Presentation);

    // Templates render as their document counterparts.
    assert_eq!(
        class_from_mimetype("application/vnd.oasis.opendocument.spreadsheet-template"),
        Some(Class::Spreadsheet)
    );
    assert_eq!(class_from_mimetype("text/plain"), None);
    assert_eq!(class_from_mimetype(""), None);
}

#[test]
fn an_unrecognizable_class_is_an_error() {
    let pkg = parts(
        "odf-noclass",
        &[
            ("mimetype", b"application/octet-stream".to_vec()),
            ("content.xml", content_xml("drawing")),
        ],
    );
    let err = open_err(pkg);
    assert!(err.contains("body"), "{err}");
}

// ── href resolution ──────────────────────────────────────────────────────

fn entries() -> Entries {
    Entries(
        [
            "mimetype",
            "Pictures/",
            "Pictures/1000.png",
            "Pictures/café.png",
            "Object 1/content.xml",
            "ObjectReplacements/Object 1",
            "content.xml",
        ]
        .iter()
        .map(|s| s.to_string())
        .collect(),
    )
}

#[test]
fn resolves_package_relative_hrefs() {
    let e = entries();
    assert_eq!(e.resolve_href("Pictures/1000.png"), Some("Pictures/1000.png"));
    // The `./` prefix real producers emit.
    assert_eq!(
        e.resolve_href("./ObjectReplacements/Object 1"),
        Some("ObjectReplacements/Object 1")
    );
    // Percent escapes are decoded before the archive is consulted, because
    // producers encode spaces and non-ASCII names either way.
    assert_eq!(
        e.resolve_href("./Object%201/content.xml"),
        Some("Object 1/content.xml")
    );
    assert_eq!(
        e.resolve_href("Pictures/caf%C3%A9.png"),
        Some("Pictures/café.png")
    );
    assert_eq!(e.resolve_href("  Pictures/1000.png  "), Some("Pictures/1000.png"));
}

#[test]
fn rejects_traversal_absolute_and_external_hrefs() {
    let e = entries();
    for href in [
        // Traversal, plain and encoded (single and mixed).
        "../secret",
        "../../etc/passwd",
        "..%2Fsecret",
        "%2e%2e/secret",
        "%2E%2E%2Fsecret",
        "Pictures/../Pictures/1000.png",
        "Pictures/%2e%2e/%2e%2e/etc/passwd",
        // Absolute, POSIX and Windows.
        "/etc/passwd",
        "/Pictures/1000.png",
        "%2Fetc%2Fpasswd",
        "\\Pictures\\1000.png",
        "Pictures\\1000.png",
        "C:/Pictures/1000.png",
        // External schemes.
        "http://example.org/1000.png",
        "https://example.org/1000.png",
        "file:///etc/passwd",
        "data:image/png;base64,iVBORw0K",
        "mailto:nobody@example.org",
        // Nothing at all, or a directory rather than a part.
        "",
        "   ",
        "#anchor",
        "Pictures/",
        "Pictures",
        ".",
        "./",
        // Present in the href, absent from the archive.
        "Pictures/missing.png",
        "Pictures/1000.PNG",
        // Malformed escapes and control characters.
        "Pictures/%zz.png",
        "Pictures/1000.png%",
        "Pictures/%00.png",
    ] {
        assert_eq!(e.resolve_href(href), None, "{href:?} must be rejected");
    }
    // Double-encoding is decoded once, so it cannot become a traversal.
    assert_eq!(e.resolve_href("%252e%252e/secret"), None);
    // Over the length cap before anything is decoded.
    let long = format!("Pictures/{}.png", "a".repeat(MAX_HREF_BYTES));
    assert_eq!(e.resolve_href(&long), None);
}
