use semantic_release::SemanticError;
use semantic_release::languages;
use semantic_release::languages::{MetadataFile, python, rust};
use semantic_release::version::{Version, parse_tag, parse_version, u64_string};

#[test]
fn python_test_get() {
    assert_eq!(
        python::get("[tool.poetry]\nversion=\"0.1.0\""),
        Some(Version::new(0, 1, 0))
    );
}

#[test]
fn get_put() {
    let text = "[tool.poetry]\nversion=\"0.1.0\"";
    let written = python::put(text, &Version::new(1, 0, 0)).unwrap();
    assert_eq!(python::get(&written), Some(Version::new(1, 0, 0)));
}

#[test]
fn rust_test_get() {
    assert_eq!(
        rust::get("[package]\nversion = \"0.1.0\""),
        Some(Version::new(0, 1, 0))
    );
}

#[test]
fn test_get_missing_or_malformed() {
    assert_eq!(rust::get(""), None);
    assert_eq!(rust::get("not toml at ["), None);
    assert_eq!(rust::get("[package]\nname = \"x\""), None);
    assert_eq!(rust::get("[package]\nversion = \"abc\""), None);
    assert_eq!(python::get("[tool.poetry]\nversion = 3"), None);
}

#[test]
fn test_put_keeps_other_content() {
    let text = "[package]\nname = \"thing\"\nversion = \"0.1.0\"\nedition = \"2021\"\n";
    let written = rust::put(text, &Version::new(0, 2, 0)).unwrap();
    assert!(written.contains("name = \"thing\""));
    assert!(written.contains("edition = \"2021\""));
    assert_eq!(rust::get(&written), Some(Version::new(0, 2, 0)));
    assert_ne!(written, text);
}

#[test]
fn test_put_rejects_missing_key() {
    assert!(rust::put("[package]\nname = \"x\"", &Version::new(1, 0, 0)).is_none());
}

#[test]
fn test_probe_order() {
    let py = "[tool.poetry]\nversion=\"0.3.0\"";
    let rs = "[package]\nversion=\"0.1.0\"";
    // Python first, then rust, else nothing.
    assert_eq!(languages::get(Some(py), Some(rs)), Some(Version::new(0, 3, 0)));
    assert_eq!(languages::get(None, Some(rs)), Some(Version::new(0, 1, 0)));
    assert_eq!(languages::get(Some("junk ["), Some(rs)), Some(Version::new(0, 1, 0)));
    assert_eq!(languages::get(None, None), None);
}

#[test]
fn test_put_and_add_errors() {
    // Neither format provides a version: the write and the staging
    // decision both surface the I/O error.
    match languages::put(None, None, &Version::new(1, 0, 0)) {
        Err(SemanticError::IOError) => {}
        _ => panic!("expected IOError"),
    }
    match languages::add(None, None) {
        Err(SemanticError::IOError) => {}
        _ => panic!("expected IOError"),
    }
}

#[test]
fn test_put_and_add_pick_a_file() {
    let py = "[tool.poetry]\nversion=\"0.3.0\"";
    let rs = "[package]\nversion=\"0.1.0\"";
    let w = languages::put(Some(py), Some(rs), &Version::new(0, 4, 0)).unwrap();
    assert_eq!(w.file, MetadataFile::Python);
    assert_eq!(python::get(&w.content), Some(Version::new(0, 4, 0)));
    let w = languages::put(None, Some(rs), &Version::new(0, 2, 0)).unwrap();
    assert_eq!(w.file, MetadataFile::Rust);
    assert_eq!(languages::add(Some(py), Some(rs)).unwrap(), "pyproject.toml");
    assert_eq!(languages::add(None, Some(rs)).unwrap(), "Cargo.toml");
}

#[test]
fn test_parse_version() {
    assert_eq!(parse_version("1.2.3"), Some(Version::new(1, 2, 3)));
    assert_eq!(parse_version("0.0.0"), Some(Version::new(0, 0, 0)));
    assert_eq!(
        parse_version("18446744073709551615.0.0"),
        Some(Version::new(u64::MAX, 0, 0))
    );
    // Overflow, leading zeros, missing or extra parts, stray characters.
    assert_eq!(parse_version("18446744073709551616.0.0"), None);
    assert_eq!(parse_version("01.2.3"), None);
    assert_eq!(parse_version("1.2"), None);
    assert_eq!(parse_version("1.2.3.4"), None);
    assert_eq!(parse_version("1.2.x"), None);
    assert_eq!(parse_version(""), None);
    assert_eq!(parse_version("1..3"), None);
    assert_eq!(parse_version("1.2.3-rc1"), None);
}

#[test]
fn test_parse_tag() {
    assert_eq!(parse_tag("v0.1.0"), Some(Version::new(0, 1, 0)));
    assert_eq!(parse_tag("v10.20.30"), Some(Version::new(10, 20, 30)));
    assert_eq!(parse_tag("0.1.0"), None);
    assert_eq!(parse_tag("w0.1.0"), None);
    assert_eq!(parse_tag("v"), None);
    assert_eq!(parse_tag(""), None);
}

#[test]
fn test_version_text_forms() {
    assert_eq!(Version::new(1, 22, 333).to_text(), "1.22.333");
    assert_eq!(Version::new(1, 22, 333).to_tag(), "v1.22.333");
    assert_eq!(u64_string(0), "0");
    assert_eq!(u64_string(907), "907");
    assert_eq!(u64_string(u64::MAX), "18446744073709551615");
}

#[test]
fn test_version_order() {
    assert!(Version::new(0, 1, 0).lt(&Version::new(0, 1, 1)));
    assert!(Version::new(0, 9, 9).lt(&Version::new(1, 0, 0)));
    assert!(!Version::new(1, 0, 0).lt(&Version::new(1, 0, 0)));
}
