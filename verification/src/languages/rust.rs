//! The rust metadata format: the version under the generic `package`
//! table of a Cargo manifest text.
use vstd::prelude::*;

use crate::languages::toml_get;
use crate::languages::toml_set;
use crate::languages::toml_set_str;
use crate::languages::toml_str_value;
use crate::version::Version;
use crate::version::parse_version;
use crate::version::parse_version_spec;
use crate::version::version_str;

verus! {

/// The key path of the version in a package manifest document.
pub open spec fn package_path() -> Seq<Seq<char>> {
    seq!["package"@, "version"@]
}

/// The version a manifest text stores: the string at `package.version`,
/// parsed.
pub open spec fn stored_version(text: Seq<char>) -> Option<Version> {
    match toml_str_value(text, package_path()) {
        Some(s) => parse_version_spec(s),
        None => None,
    }
}

/// Read the project version from manifest text.
pub fn get(text: &str) -> (r: Option<Version>)
    ensures
        r == stored_version(text@),
{
    let mut path: Vec<&str> = Vec::new();
    path.push("package");
    path.push("version");
    proof {
        assert(path.deep_view() =~= package_path());
    }
    match toml_get(text, &path) {
        Option::Some(s) => parse_version(s.as_str()),
        Option::None => None,
    }
}

/// Render manifest text with the version replaced; `None` exactly when
/// the text holds no string at the version key.
pub fn put(text: &str, version: &Version) -> (r: Option<String>)
    ensures
        r is Some <==> toml_str_value(text@, package_path()) is Some,
        r matches Some(u) ==> u@ == toml_set_str(text@, package_path(), version_str(*version)),
{
    let mut path: Vec<&str> = Vec::new();
    path.push("package");
    path.push("version");
    proof {
        assert(path.deep_view() =~= package_path());
    }
    let vtext = version.to_text();
    toml_set(text, &path, vtext.as_str())
}

} // verus!
