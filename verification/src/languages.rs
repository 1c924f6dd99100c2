//! The version-metadata providers: the project's current version read
//! from and written into a project-metadata file, in one of two formats —
//! a `tool.poetry` table (python) and a generic `package` table (rust) —
//! probed in that fixed priority order. File texts come in and go out as
//! plain strings; the caller does the file I/O.
use vstd::prelude::*;

pub mod python;
pub mod rust;

use crate::SemanticError;
use crate::version::Version;
use crate::version::version_str;

verus! {

/// The string value at `path` in the TOML document parsed from `text`:
/// `None` when the text does not parse, the path is missing, or the value
/// there is not a string.
pub uninterp spec fn toml_str_value(text: Seq<char>, path: Seq<Seq<char>>) -> Option<Seq<char>>;

/// The document `text` re-rendered with the string value at `path`
/// replaced by `value`; meaningful only where `toml_str_value` finds a
/// string at `path`.
pub uninterp spec fn toml_set_str(text: Seq<char>, path: Seq<Seq<char>>, value: Seq<char>) -> Seq<
    char,
>;

/// Relies on toml_edit (`DocumentMut::from_str`, `Item::get`,
/// `Item::as_str`): reads the string value at `path` of the parsed
/// document; `None` when the text does not parse, the path is missing,
/// or the value is not a string.
#[verifier::external_body]
pub(crate) fn toml_get(text: &str, path: &Vec<&str>) -> (r: Option<String>)
    ensures
        r.deep_view() == toml_str_value(text@, path.deep_view()),
{
    let doc: toml_edit::DocumentMut = match text.parse() {
        Ok(d) => d,
        Err(_) => return None,
    };
    let mut item: &toml_edit::Item = doc.as_item();
    for key in path {
        match item.get(*key) {
            Some(next) => item = next,
            None => return None,
        }
    }
    item.as_str().map(|s| s.to_owned())
}

/// Relies on toml_edit (`DocumentMut::from_str`, `Item::get_mut`,
/// `Item::as_str`, `toml_edit::value`, `DocumentMut::to_string`):
/// replaces the string value at `path` and re-renders the document;
/// `None` exactly when reading the same path finds no string value.
#[verifier::external_body]
pub(crate) fn toml_set(text: &str, path: &Vec<&str>, value: &str) -> (r: Option<String>)
    ensures
        r is Some <==> toml_str_value(text@, path.deep_view()) is Some,
        r matches Some(u) ==> u@ == toml_set_str(text@, path.deep_view(), value@),
{
    let mut doc: toml_edit::DocumentMut = match text.parse() {
        Ok(d) => d,
        Err(_) => return None,
    };
    let mut item: &mut toml_edit::Item = doc.as_item_mut();
    for key in path {
        match item.get_mut(*key) {
            Some(next) => item = next,
            None => return None,
        }
    }
    item.as_str()?;
    *item = toml_edit::value(value);
    Some(doc.to_string())
}

/// The text of a metadata file that may be absent.
pub open spec fn opt_text(o: Option<&str>) -> Option<Seq<char>> {
    match o {
        Some(t) => Some(t@),
        None => None,
    }
}

/// The version the python format provides, if its file is present.
pub open spec fn py_version(py: Option<Seq<char>>) -> Option<Version> {
    match py {
        Some(t) => python::stored_version(t),
        None => None,
    }
}

/// The version the rust format provides, if its file is present.
pub open spec fn rs_version(rs: Option<Seq<char>>) -> Option<Version> {
    match rs {
        Some(t) => rust::stored_version(t),
        None => None,
    }
}

/// The version the metadata provides: the python format probed first,
/// then the rust one.
pub open spec fn meta_version(py: Option<Seq<char>>, rs: Option<Seq<char>>) -> Option<Version> {
    if py_version(py) is Some {
        py_version(py)
    } else {
        rs_version(rs)
    }
}

/// Read the current version, probing each format in priority order. `py`
/// and `rs` are the texts of `pyproject.toml` and `Cargo.toml`, where
/// those files exist.
pub fn get(py: Option<&str>, rs: Option<&str>) -> (r: Option<Version>)
    ensures
        r == meta_version(opt_text(py), opt_text(rs)),
{
    if let Some(t) = py {
        let v = python::get(t);
        if v.is_some() {
            return v;
        }
    }
    match rs {
        Some(t) => rust::get(t),
        None => None,
    }
}

/// Which metadata format received a write.
#[derive(Clone, Copy, Debug, PartialEq, Eq, Structural)]
pub enum MetadataFile {
    Python,
    Rust,
}

/// A pending metadata write: which file to overwrite, and its new text.
pub struct MetadataWrite {
    pub file: MetadataFile,
    pub content: String,
}

/// Write the version into the format that currently provides one, python
/// probed first; the caller persists the returned text. `IOError` exactly
/// when neither format provides a version.
pub fn put(py: Option<&str>, rs: Option<&str>, version: &Version) -> (r: Result<
    MetadataWrite,
    SemanticError,
>)
    ensures
        match r {
            Ok(w) => {
                &&& py_version(opt_text(py)) is Some ==> w.file == MetadataFile::Python && (
                py matches Some(t) && w.content@ == toml_set_str(
                    t@,
                    python::poetry_path(),
                    version_str(*version),
                ))
                &&& py_version(opt_text(py)) is None ==> rs_version(opt_text(rs)) is Some
                    && w.file == MetadataFile::Rust && (rs matches Some(t) && w.content@
                    == toml_set_str(t@, rust::package_path(), version_str(*version)))
            },
            Err(e) => e == SemanticError::IOError && py_version(opt_text(py)) is None && rs_version(
                opt_text(rs),
            ) is None,
        },
{
    if let Some(t) = py {
        let v = python::get(t);
        if v.is_some() {
            match python::put(t, version) {
                Option::Some(content) => {
                    return Ok(MetadataWrite { file: MetadataFile::Python, content });
                },
                Option::None => {
                    proof {
                        assert(false);
                    }
                    return Err(SemanticError::IOError);
                },
            }
        }
    }
    if let Some(t) = rs {
        let v = rust::get(t);
        if v.is_some() {
            match rust::put(t, version) {
                Option::Some(content) => {
                    return Ok(MetadataWrite { file: MetadataFile::Rust, content });
                },
                Option::None => {
                    proof {
                        assert(false);
                    }
                    return Err(SemanticError::IOError);
                },
            }
        }
    }
    Err(SemanticError::IOError)
}

/// The path to stage after a version write: the metadata file that
/// provides the version, python probed first. `IOError` exactly when
/// neither format provides a version.
pub fn add(py: Option<&str>, rs: Option<&str>) -> (r: Result<String, SemanticError>)
    ensures
        match r {
            Ok(p) => {
                &&& py_version(opt_text(py)) is Some ==> p@ == "pyproject.toml"@
                &&& py_version(opt_text(py)) is None ==> rs_version(opt_text(rs)) is Some && p@
                    == "Cargo.toml"@
            },
            Err(e) => e == SemanticError::IOError && py_version(opt_text(py)) is None && rs_version(
                opt_text(rs),
            ) is None,
        },
{
    if let Some(t) = py {
        let v = python::get(t);
        if v.is_some() {
            return Ok(String::from_str("pyproject.toml"));
        }
    }
    if let Some(t) = rs {
        let v = rust::get(t);
        if v.is_some() {
            return Ok(String::from_str("Cargo.toml"));
        }
    }
    Err(SemanticError::IOError)
}

} // verus!
