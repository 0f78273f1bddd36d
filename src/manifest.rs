//! The three kinds of build manifest, and how to read and edit the version
//! each of them declares.

use vstd::prelude::*;
use crate::error::VersionError;
use crate::text::{chars_of, push_str, string_from};
use crate::toml_edit::{replace_section_version, toml_updated};
use crate::version::{parse_spec, Version};

verus! {

/// Represents different types of build system files that can contain version information
#[derive(Clone, Copy, Debug, PartialEq, Eq, Structural)]
pub enum BuildSystem {
    /// Cargo.toml file for Rust projects
    Cargo,
    /// pyproject.toml file for Python projects
    PyProject,
    /// package.json file for Node.js/TypeScript projects
    PackageJson,
}

/// The string at `[table].version` of the TOML document `doc`, as read by
/// `toml::from_str` into a `toml::Value`: `None` where `doc` is not TOML,
/// `Some(None)` where no string stands there.
pub uninterp spec fn toml_table_version(doc: Seq<char>, table: Seq<char>) -> Option<Option<Seq<char>>>;

/// The string at the top-level key `"version"` of the JSON document `doc`, as
/// read by `serde_json::from_str`: `None` where `doc` is not JSON, `Some(None)`
/// where no string stands there.
pub uninterp spec fn json_top_version(doc: Seq<char>) -> Option<Option<Seq<char>>>;

/// The JSON document `doc` with its top-level `"version"` set to the string
/// `version`, pretty-printed by `serde_json::to_string_pretty`: `None` where
/// `doc` is not JSON, `Some(None)` where its root is not an object.
pub uninterp spec fn json_with_version(doc: Seq<char>, version: Seq<char>) -> Option<Option<Seq<char>>>;

pub open spec fn nested_view(r: Option<Option<String>>) -> Option<Option<Seq<char>>> {
    match r {
        None => None,
        Some(None) => Some(None),
        Some(Some(s)) => Some(Some(s@)),
    }
}

/// Relies on `toml::from_str` (into `toml::Value`), `Value::get` and
/// `Value::as_str`: the string at `[table].version`, as `toml_table_version`.
#[verifier::external_body]
fn toml_version_field(doc: &str, table: &str) -> (r: Option<Option<String>>)
    ensures
        nested_view(r) == toml_table_version(doc@, table@),
{
    match toml::from_str::<toml::Value>(doc) {
        Ok(v) => Some(v.get(table).and_then(|t| t.get("version")).and_then(|x| x.as_str()).map(
            |x| x.to_string(),
        )),
        Err(_) => None,
    }
}

/// Relies on `serde_json::from_str` (into `serde_json::Value`), `Value::get`
/// and `Value::as_str`: the string at the key `"version"`, as `json_top_version`.
#[verifier::external_body]
fn json_version_field(doc: &str) -> (r: Option<Option<String>>)
    ensures
        nested_view(r) == json_top_version(doc@),
{
    match serde_json::from_str::<serde_json::Value>(doc) {
        Ok(v) => Some(v.get("version").and_then(|x| x.as_str()).map(|x| x.to_string())),
        Err(_) => None,
    }
}

/// Relies on `serde_json::from_str`, `Map::insert` on the root object and
/// `serde_json::to_string_pretty`: the edited document, as `json_with_version`.
#[verifier::external_body]
fn json_set_version(doc: &str, version: &str) -> (r: Option<Option<String>>)
    ensures
        nested_view(r) == json_with_version(doc@, version@),
{
    match serde_json::from_str::<serde_json::Value>(doc) {
        Ok(mut v) => match v.as_object_mut() {
            Some(obj) => {
                obj.insert("version".to_string(), serde_json::Value::String(version.to_string()));
                serde_json::to_string_pretty(&v).ok().map(Some)
            },
            None => Some(None),
        },
        Err(_) => None,
    }
}

impl BuildSystem {
    pub open spec fn file_name_spec(self) -> Seq<char> {
        match self {
            BuildSystem::Cargo => "Cargo.toml"@,
            BuildSystem::PyProject => "pyproject.toml"@,
            BuildSystem::PackageJson => "package.json"@,
        }
    }

    /// The TOML section that holds the version; none for package.json.
    pub open spec fn section_spec(self) -> Seq<char> {
        match self {
            BuildSystem::Cargo => "package"@,
            BuildSystem::PyProject => "project"@,
            BuildSystem::PackageJson => ""@,
        }
    }

    /// The fixed file name of this kind of manifest.
    pub fn file_name(&self) -> (r: &'static str)
        ensures
            r@ == self.file_name_spec(),
    {
        match self {
            BuildSystem::Cargo => "Cargo.toml",
            BuildSystem::PyProject => "pyproject.toml",
            BuildSystem::PackageJson => "package.json",
        }
    }

    pub open spec fn name_spec(self) -> Seq<char> {
        match self {
            BuildSystem::Cargo => "Cargo"@,
            BuildSystem::PyProject => "PyProject"@,
            BuildSystem::PackageJson => "PackageJson"@,
        }
    }

    /// The name of this kind of manifest, as `Debug` shows it.
    pub fn name(&self) -> (r: &'static str)
        ensures
            r@ == self.name_spec(),
    {
        match self {
            BuildSystem::Cargo => "Cargo",
            BuildSystem::PyProject => "PyProject",
            BuildSystem::PackageJson => "PackageJson",
        }
    }

    /// The TOML section that holds the version (empty for package.json).
    pub fn section(&self) -> (r: &'static str)
        ensures
            r@ == self.section_spec(),
    {
        match self {
            BuildSystem::Cargo => "package",
            BuildSystem::PyProject => "project",
            BuildSystem::PackageJson => "",
        }
    }

    /// The version field as found in `content`: `None` where the document is
    /// malformed, `Some(None)` where the field is missing.
    pub open spec fn field(self, content: Seq<char>) -> Option<Option<Seq<char>>> {
        match self {
            BuildSystem::PackageJson => json_top_version(content),
            _ => toml_table_version(content, self.section_spec()),
        }
    }

    /// The manifest after its version is set to the rendered version `value`,
    /// or `None` where it cannot be edited.
    pub open spec fn updated(self, content: Seq<char>, value: Seq<char>) -> Option<Seq<char>> {
        match self {
            BuildSystem::PackageJson => match json_with_version(content, value) {
                Some(Some(t)) => Some(t + seq!['\n']),
                _ => None,
            },
            _ => toml_updated(content, self.section_spec(), value),
        }
    }

    /// Reads the declared version from the manifest text `content`.
    pub fn read_version(&self, content: &str) -> (r: Result<Version, VersionError>)
        ensures
            match self.field(content@) {
                None => r == Err::<Version, VersionError>(VersionError::ManifestParseError(*self)),
                Some(None) => r == Err::<Version, VersionError>(
                    VersionError::VersionFieldMissing(*self),
                ),
                Some(Some(t)) => match parse_spec(t) {
                    Some(p) => r matches Ok(v) && v.parts() == p && v.wf(),
                    None => r matches Err(VersionError::InvalidVersionInFile(f, _))
                        && f@ == self.file_name_spec(),
                },
            },
    {
        let field = match self {
            BuildSystem::PackageJson => json_version_field(content),
            _ => toml_version_field(content, self.section()),
        };
        match field {
            None => Err(VersionError::ManifestParseError(*self)),
            Some(None) => Err(VersionError::VersionFieldMissing(*self)),
            Some(Some(t)) => match Version::parse(t.as_str()) {
                Ok(v) => Ok(v),
                Err(_) => {
                    let mut f: Vec<char> = Vec::new();
                    push_str(&mut f, self.file_name());
                    Err(VersionError::InvalidVersionInFile(string_from(f.as_slice()), t))
                },
            },
        }
    }

    /// The manifest text `content` with its version set to `version`; every
    /// other character of a TOML manifest is kept, package.json is
    /// pretty-printed with a trailing newline.
    pub fn update_version(&self, content: &str, version: &Version) -> (r: Result<String, VersionError>)
        ensures
            match self.updated(content@, version.render()) {
                Some(t) => r matches Ok(s) && s@ == t,
                None => r is Err,
            },
            *self == BuildSystem::PackageJson ==> match json_with_version(content@, version.render()) {
                None => r == Err::<String, VersionError>(VersionError::ManifestParseError(*self)),
                Some(None) => r == Err::<String, VersionError>(VersionError::NotAnObject),
                Some(Some(_)) => r is Ok,
            },
            *self != BuildSystem::PackageJson && r is Err ==> (r matches Err(
                VersionError::SectionVersionMissing(s),
            ) && s@ == self.section_spec()),
    {
        let value = version.to_string();
        match self {
            BuildSystem::PackageJson => match json_set_version(content, value.as_str()) {
                None => Err(VersionError::ManifestParseError(*self)),
                Some(None) => Err(VersionError::NotAnObject),
                Some(Some(t)) => {
                    let mut c = chars_of(t.as_str());
                    c.push('\n');
                    Ok(string_from(c.as_slice()))
                },
            },
            _ => update_toml_version(content, version, self.section()),
        }
    }
}

/// `content` with the quoted version value of `[section]` set to `version`,
/// all else kept character for character.
pub fn update_toml_version(content: &str, version: &Version, section: &str) -> (r: Result<
    String,
    VersionError,
>)
    ensures
        match toml_updated(content@, section@, version.render()) {
            Some(t) => r matches Ok(s) && s@ == t,
            None => r matches Err(VersionError::SectionVersionMissing(s)) && s@ == section@,
        },
{
    let c = chars_of(content);
    let sec = chars_of(section);
    let value = chars_of(version.to_string().as_str());
    match replace_section_version(&c, &sec, &value) {
        Some(t) => Ok(string_from(t.as_slice())),
        None => Err(VersionError::SectionVersionMissing(string_from(sec.as_slice()))),
    }
}

} // verus!
