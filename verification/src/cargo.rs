//! Build options and build artifacts: the data handed to and received
//! from the external build tool. Invoking that tool and reading its
//! report belong to the unverified outer layer; the option encoding and
//! the artifact classification are verified here.

use vstd::prelude::*;
use vstd::string::*;
use crate::strutil::str_eq;

verus! {

#[verifier::external_type_specification]
#[verifier::external_body]
pub struct ExPathBuf(std::path::PathBuf);

/// The command-line arguments a set of build options encodes to:
/// `build`, then `--profile <p>` when a profile is set, then
/// `--message-format=<f>` when a message format is set.
pub open spec fn spec_build_args(profile: Seq<char>, mf: Seq<char>) -> Seq<Seq<char>> {
    let base = seq!["build"@];
    let withp = if profile.len() > 0 {
        base + seq!["--profile"@, profile]
    } else {
        base
    };
    if mf.len() > 0 {
        withp + seq!["--message-format="@ + mf]
    } else {
        withp
    }
}

/// Build options passed to the build tool.
pub struct BuildOptions {
    /// Build profile
    pub profile: String,
    /// Message format for target-artifact parsing
    pub message_format: String,
}

impl Clone for BuildOptions {
    fn clone(&self) -> (r: Self)
        ensures
            r.profile@ == self.profile@,
            r.message_format@ == self.message_format@,
    {
        BuildOptions { profile: self.profile.clone(), message_format: self.message_format.clone() }
    }
}

impl BuildOptions {
    /// Creates new build options.
    pub fn new(profile: String, message_format: String) -> (r: Self)
        ensures
            r.profile == profile,
            r.message_format == message_format,
    {
        Self { profile, message_format }
    }

    /// Overrides the profile, consuming the options and returning new ones.
    pub fn profile(self, profile: &str) -> (r: Self)
        ensures
            r.profile@ == profile@,
            r.message_format == self.message_format,
    {
        Self { profile: String::from_str(profile), message_format: self.message_format }
    }

    /// Overrides the message format, consuming the options and returning
    /// new ones.
    pub fn message_format(self, message_format: &str) -> (r: Self)
        ensures
            r.profile == self.profile,
            r.message_format@ == message_format@,
    {
        Self { profile: self.profile, message_format: String::from_str(message_format) }
    }

    /// Encodes the options as command-line arguments for the build tool.
    pub fn args(&self) -> (r: Vec<String>)
        ensures
            r.deep_view() == spec_build_args(self.profile@, self.message_format@),
    {
        let mut args: Vec<String> = Vec::new();
        args.push(String::from_str("build"));
        if !self.profile.as_str().is_empty() {
            args.push(String::from_str("--profile"));
            args.push(self.profile.clone());
        }
        if !self.message_format.as_str().is_empty() {
            args.push(String::from_str("--message-format=").concat(self.message_format.as_str()));
        }
        proof {
            assert(args.deep_view() =~= spec_build_args(self.profile@, self.message_format@));
        }
        args
    }
}

impl Default for BuildOptions {
    /// The default profile is always `dev`.
    fn default() -> (r: Self)
        ensures
            r.profile@ == "dev"@,
            r.message_format@ == Seq::<char>::empty(),
    {
        proof {
            reveal_strlit("");
        }
        Self::new(String::from_str("dev"), String::from_str(""))
    }
}

/// Kind of build artifact.
#[derive(PartialEq, Eq, Structural, Debug, Clone, Copy)]
pub enum BuildArtifactKind {
    Binary,
    Library,
    DynamicLibrary,
}

impl BuildArtifactKind {
    /// The artifact kind a crate-type string of the build report denotes.
    pub open spec fn spec_try_from(s: Seq<char>) -> Option<BuildArtifactKind> {
        if s == "bin"@ {
            Some(BuildArtifactKind::Binary)
        } else if s == "lib"@ || s == "rlib"@ {
            Some(BuildArtifactKind::Library)
        } else if s == "dylib"@ || s == "cdylib"@ {
            Some(BuildArtifactKind::DynamicLibrary)
        } else {
            None
        }
    }

    /// Converts from a crate-type value in the build tool's report.
    pub fn try_from(s: &str) -> (r: Result<Self, ()>)
        ensures
            r is Ok <==> Self::spec_try_from(s@) is Some,
            r is Ok ==> r->Ok_0 == Self::spec_try_from(s@)->Some_0,
    {
        if str_eq(s, "bin") {
            Ok(Self::Binary)
        } else if str_eq(s, "lib") || str_eq(s, "rlib") {
            Ok(Self::Library)
        } else if str_eq(s, "dylib") || str_eq(s, "cdylib") {
            Ok(Self::DynamicLibrary)
        } else {
            Err(())
        }
    }
}

/// Information about one build artifact.
pub struct BuildArtifact {
    pub kind: BuildArtifactKind,
    pub name: String,
    pub path: std::path::PathBuf,
}

impl BuildArtifact {
    /// Creates a new `BuildArtifact`.
    pub fn new(kind: BuildArtifactKind, name: String, path: std::path::PathBuf) -> (r: Self)
        ensures
            r.kind == kind,
            r.name == name,
            r.path == path,
    {
        Self { kind, name, path }
    }
}

} // verus!
