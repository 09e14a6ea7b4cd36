//! Version pins: the embedded defaults and the order in which pin files
//! are consulted (an explicit `--version-file`, the project's
//! `versions.toml`, the user's `~/.config/vectis/versions.toml`, then the
//! embedded defaults; the first one found wins, whole).

use vstd::prelude::*;

use crate::error::VectisError;
use crate::paths::{join_path, path_join};
use crate::text::owned;

verus! {

/// The pinned version document.
#[derive(Debug, Clone, PartialEq, Eq)]
pub struct Versions {
    pub crux: Crux,
    pub android: Android,
    pub ios: Ios,
    pub tooling: Tooling,
}

/// Crux and the Rust pins that move with it.
#[derive(Debug, Clone, PartialEq, Eq)]
pub struct Crux {
    pub crux_core: String,
    pub crux_http: String,
    pub crux_kv: String,
    pub crux_time: String,
    pub crux_platform: String,
    pub facet: String,
    pub facet_generate: String,
    pub serde: String,
    pub serde_json: String,
    pub uniffi: String,
    pub cargo_swift: String,
}

/// Android toolchain pins; without an `ndk` pin the installed NDK is
/// used.
#[derive(Debug, Clone, PartialEq, Eq)]
pub struct Android {
    pub compose_bom: String,
    pub koin: String,
    pub ktor: String,
    pub kotlin: String,
    pub agp: String,
    pub gradle: String,
    pub ndk: Option<String>,
}

/// iOS pins (none yet).
#[derive(Debug, Clone, PartialEq, Eq, Default)]
pub struct Ios {}

/// Pins of separately installed tools.
#[derive(Debug, Clone, PartialEq, Eq)]
pub struct Tooling {
    pub cargo_deny: String,
    pub cargo_vet: String,
    pub xcodegen: String,
}

/// The embedded default pins.
pub open spec fn is_embedded(v: Versions) -> bool {
    &&& v.crux.crux_core@ == "0.17.0"@
    &&& v.crux.crux_http@ == "0.16.0"@
    &&& v.crux.crux_kv@ == "0.11.0"@
    &&& v.crux.crux_time@ == "0.15.0"@
    &&& v.crux.crux_platform@ == "0.8.0"@
    &&& v.crux.facet@ == "=0.31"@
    &&& v.crux.facet_generate@ == "=0.15"@
    &&& v.crux.serde@ == "1.0"@
    &&& v.crux.serde_json@ == "1.0"@
    &&& v.crux.uniffi@ == "=0.29.4"@
    &&& v.crux.cargo_swift@ == "0.9"@
    &&& v.android.compose_bom@ == "2026.01.01"@
    &&& v.android.koin@ == "4.1.1"@
    &&& v.android.ktor@ == "3.4.0"@
    &&& v.android.kotlin@ == "2.3.0"@
    &&& v.android.agp@ == "8.13.2"@
    &&& v.android.gradle@ == "8.13"@
    &&& v.android.ndk is None
    &&& v.tooling.cargo_deny@ == "0.19.4"@
    &&& v.tooling.cargo_vet@ == "0.10.2"@
    &&& v.tooling.xcodegen@ == "2.42.0"@
}

impl Versions {
    /// The embedded default pins.
    pub fn embedded() -> (r: Result<Versions, VectisError>)
        ensures
            r is Ok && is_embedded(r->Ok_0),
    {
        load_embedded()
    }
}

/// The pins the tool ships with.
pub fn load_embedded() -> (r: Result<Versions, VectisError>)
    ensures
        r is Ok && is_embedded(r->Ok_0),
{
    Ok(
            Versions {
                crux: Crux {
                    crux_core: owned("0.17.0"),
                    crux_http: owned("0.16.0"),
                    crux_kv: owned("0.11.0"),
                    crux_time: owned("0.15.0"),
                    crux_platform: owned("0.8.0"),
                    facet: owned("=0.31"),
                    facet_generate: owned("=0.15"),
                    serde: owned("1.0"),
                    serde_json: owned("1.0"),
                    uniffi: owned("=0.29.4"),
                    cargo_swift: owned("0.9"),
                },
                android: Android {
                    compose_bom: owned("2026.01.01"),
                    koin: owned("4.1.1"),
                    ktor: owned("3.4.0"),
                    kotlin: owned("2.3.0"),
                    agp: owned("8.13.2"),
                    gradle: owned("8.13"),
                    ndk: None,
                },
                ios: Ios {  },
                tooling: Tooling {
                    cargo_deny: owned("0.19.4"),
                    cargo_vet: owned("0.10.2"),
                    xcodegen: owned("2.42.0"),
                },
            },
        )
}

/// Where the pins come from.
#[derive(Debug, Clone, PartialEq, Eq)]
pub enum VersionSource {
    /// A file that must exist and parse.
    File(String),
    /// The embedded defaults.
    Embedded,
}

/// The project's pin file.
pub open spec fn project_file(project_dir: Seq<char>) -> Seq<char> {
    path_join(project_dir, "versions.toml"@)
}

/// The user's pin file under a home directory.
pub open spec fn user_file(home: Seq<char>) -> Seq<char> {
    path_join(path_join(path_join(home, ".config"@), "vectis"@), "versions.toml"@)
}

/// The source the pins are read from: the override when given; else the
/// project file when it is a file; else the user file when there is a
/// home directory and it is a file; else the embedded defaults.
pub open spec fn source_of(
    override_path: Option<Seq<char>>,
    project_dir: Seq<char>,
    project_is_file: bool,
    home: Option<Seq<char>>,
    user_is_file: bool,
) -> Option<Seq<char>> {
    match override_path {
        Some(p) => Some(p),
        None => if project_is_file {
            Some(project_file(project_dir))
        } else {
            match home {
                Some(h) => if user_is_file {
                    Some(user_file(h))
                } else {
                    None
                },
                None => None,
            }
        },
    }
}

/// Executable `project_file`.
pub fn project_version_file(project_dir: &str) -> (r: String)
    ensures
        r@ == project_file(project_dir@),
{
    join_path(project_dir, "versions.toml")
}

/// Executable `user_file`.
pub fn user_version_file(home: &str) -> (r: String)
    ensures
        r@ == user_file(home@),
{
    let a = join_path(home, ".config");
    let b = join_path(a.as_str(), "vectis");
    join_path(b.as_str(), "versions.toml")
}

/// Decide where the pins come from (see `source_of`); `project_is_file`
/// and `user_is_file` answer for `project_file` and `user_file`.
pub fn resolve_source(
    override_path: Option<&str>,
    project_dir: &str,
    project_is_file: bool,
    home: Option<&str>,
    user_is_file: bool,
) -> (r: VersionSource)
    ensures
        match r {
            VersionSource::File(p) => source_of(
                match override_path {
                    Some(o) => Some(o@),
                    None => None,
                },
                project_dir@,
                project_is_file,
                match home {
                    Some(h) => Some(h@),
                    None => None,
                },
                user_is_file,
            ) == Some(p@),
            VersionSource::Embedded => source_of(
                match override_path {
                    Some(o) => Some(o@),
                    None => None,
                },
                project_dir@,
                project_is_file,
                match home {
                    Some(h) => Some(h@),
                    None => None,
                },
                user_is_file,
            ) is None,
        },
{
    match override_path {
        Some(p) => VersionSource::File(owned(p)),
        None => {
            if project_is_file {
                VersionSource::File(project_version_file(project_dir))
            } else {
                match home {
                    Some(h) => if user_is_file {
                        VersionSource::File(user_version_file(h))
                    } else {
                        VersionSource::Embedded
                    },
                    None => VersionSource::Embedded,
                }
            }
        },
    }
}

/// What loading a pin file gave: it does not exist; it could not be read
/// (the I/O message); or its parse (the pins, or the parser's message).
pub enum PinFile {
    Missing,
    Unreadable(String),
    Parsed(Result<Versions, String>),
}

/// The outcome of loading a required pin file at `path`.
pub open spec fn load_outcome(path: Seq<char>, f: PinFile, r: Result<Versions, VectisError>) -> bool {
    match f {
        PinFile::Missing => r is Err && r->Err_0 is InvalidProject && crate::error::error_message(
            r->Err_0,
        ) == "version file not found: "@ + path,
        PinFile::Unreadable(e) => r is Err && r->Err_0 is Io && crate::error::error_message(r->Err_0)
            == e@,
        PinFile::Parsed(Ok(v)) => r == Ok::<Versions, VectisError>(v),
        PinFile::Parsed(Err(e)) => r is Err && r->Err_0 is InvalidProject
            && crate::error::error_message(r->Err_0) == "failed to parse "@ + path + ": "@ + e@,
    }
}

/// Load a required pin file (see `load_outcome`).
pub fn load_required(path: &str, f: PinFile) -> (r: Result<Versions, VectisError>)
    ensures
        load_outcome(path@, f, r),
{
    match f {
        PinFile::Missing => Err(
            VectisError::InvalidProject { message: crate::text::cat("version file not found: ", path) },
        ),
        PinFile::Unreadable(e) => Err(VectisError::Io(e)),
        PinFile::Parsed(Ok(v)) => Ok(v),
        PinFile::Parsed(Err(e)) => {
            let mut msg = crate::text::cat("failed to parse ", path);
            msg.append(": ");
            msg.append(e.as_str());
            Err(VectisError::InvalidProject { message: msg })
        },
    }
}

} // verus!
