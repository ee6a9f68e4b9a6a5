//! What can stop a build.

use crate::preprocessor::TemplateError;
use crate::text::concat2;
use crate::text::concat3;
use crate::text::decimal;
use crate::text::decimal_of;
use crate::text::join_strings;
use crate::text::joined_with;
use crate::text::string_of;
use crate::text::texts;
use vstd::prelude::*;

verus! {

/// What follows the path in the message about a temporary source file that
/// could not be written: the way to mend it.
pub const TEMPORARY_SOURCE_HINT: &'static str =
    "`. Source directory must be writable. Cargo-apk creates temporary source files as part of the build process. ";

/// The part of a message that names the platform versions tried.
pub open spec fn version_range_text(lowest: u32, highest: u32) -> Seq<char> {
    " for a platform version from "@ + decimal(lowest as nat) + " to "@ + decimal(highest as nat)
}

/// The part of a message that names the directory searched and the pattern
/// of the file names looked for.
pub open spec fn searched_text(directory: Seq<char>, pattern: Seq<char>) -> Seq<char> {
    ": no `"@ + pattern + "` in `"@ + directory + "`"@
}

/// Builds the part of a message that names the platform versions tried.
fn version_range(lowest: u32, highest: u32) -> (res: String)
    ensures
        res@ == version_range_text(lowest, highest),
{
    let mut res = " for a platform version from ".to_owned();
    res.append(string_of(&decimal_of(lowest as u64)).as_str());
    res.append(" to ");
    res.append(string_of(&decimal_of(highest as u64)).as_str());
    res
}

/// Builds the part of a message that names the directory searched and the
/// pattern of the file names looked for.
fn searched(directory: &str, pattern: &str) -> (res: String)
    ensures
        res@ == searched_text(directory@, pattern@),
{
    let mut res = concat3(": no `", pattern, "` in `");
    res.append(directory);
    res.append("`");
    res
}

/// A failure that ends the build of the current unit.
#[derive(Clone, Debug)]
pub enum BuildError {
    /// No toolchain file exists for any platform version tried, from
    /// `lowest` to `highest`; `first` is the path tried for the version
    /// asked for.
    NdkFileNotFound { first: String, lowest: u32, highest: u32 },
    /// No C compiler driver exists for any platform version tried: no file
    /// with a name of `pattern` is in `directory` for a version from
    /// `lowest` to `highest`.
    ClangNotFound { directory: String, pattern: String, lowest: u32, highest: u32 },
    /// No C++ compiler driver exists for any platform version tried: no
    /// file with a name of `pattern` is in `directory` for a version from
    /// `lowest` to `highest`.
    ClangCppNotFound { directory: String, pattern: String, lowest: u32, highest: u32 },
    /// The archiver is not at `path`.
    ArNotFound { path: String },
    /// The binary introspection tool is not at `path`.
    ReadelfNotFound { path: String },
    /// The unwind library is not under `path`.
    LibunwindNotFound { path: String },
    /// No argument of the compile command names the source file of `unit`.
    SourceArgumentMissing { unit: String },
    /// The compiler reported no file name for the library of `unit`.
    ArtifactNameMissing { unit: String },
    /// The executable `name` is neither on the search path nor under the
    /// Java home; `searched` are the directories looked into.
    JavaExecutableNotFound { name: String, searched: Vec<String> },
    /// The extra source `path` does not lie under the `java` directory of
    /// its package.
    JavaFileOutsideRoot { path: String },
    /// An injection fragment is malformed.
    TemplateMalformed { error: TemplateError },
    /// The temporary source file `path` could not be written.
    TemporarySourceNotCreated { path: String, reason: String },
    /// The package left by an earlier build could not be removed.
    PackageNotDeleted { reason: String },
    /// The auxiliary settings under `path` could not be read.
    SettingsMalformed { path: String, reason: String },
    /// An external tool ended with a failure; `output` is what it reported.
    ToolFailed { output: String },
}

impl BuildError {
    /// The text of the message that reports this failure.
    pub open spec fn message_text(self) -> Seq<char> {
        match self {
            BuildError::NdkFileNotFound { first, lowest, highest } =>
                "Unable to find NDK file: neither `"@ + first@ + "` nor its like"@
                    + version_range_text(lowest, highest),
            BuildError::ClangNotFound { directory, pattern, lowest, highest } =>
                "Unable to find NDK clang"@ + searched_text(directory@, pattern@)
                    + version_range_text(lowest, highest),
            BuildError::ClangCppNotFound { directory, pattern, lowest, highest } =>
                "Unable to find NDK clang++"@ + searched_text(directory@, pattern@)
                    + version_range_text(lowest, highest),
            BuildError::ArNotFound { path } => "Unable to find ar at `"@ + path@ + "`"@,
            BuildError::ReadelfNotFound { path } => "Unable to find readelf at `"@ + path@ + "`"@,
            BuildError::LibunwindNotFound { path } => "Unable to find libunwind.a at `"@ + path@
                + "`"@,
            BuildError::SourceArgumentMissing { unit } =>
                "Unable to replace source argument when building target '"@ + unit@ + "'"@,
            BuildError::ArtifactNameMissing { unit } =>
                "Unable to determine the library file name of target '"@ + unit@ + "'"@,
            BuildError::JavaExecutableNotFound { name, searched } =>
                "Unable to find executable: '"@ + name@
                    + "'. Configure PATH or JAVA_HOME with the path to the JRE or JDK."@
                    + " Searched: "@ + joined_with(texts(searched@), ", "@),
            BuildError::JavaFileOutsideRoot { path } => "Java file `"@ + path@
                + "` is not under the `java` directory"@,
            BuildError::TemplateMalformed { error } => match error {
                TemplateError::SectionAlreadyOpen =>
                    "Injection template opens a section inside another section"@,
                TemplateError::NoSectionOpen =>
                    "Injection template closes a section where none is open"@,
            },
            BuildError::TemporarySourceNotCreated { path, reason } =>
                "Unable to create temporary source file `"@ + path@ + TEMPORARY_SOURCE_HINT@
                    + reason@ + "."@,
            BuildError::PackageNotDeleted { reason } => "Unable to delete APK file. "@ + reason@,
            BuildError::SettingsMalformed { path, reason } => "\""@ + path@
                + "\" toml file malformed, "@ + reason@,
            BuildError::ToolFailed { output } => output@,
        }
    }

    /// The message that reports this failure.
    pub fn message(&self) -> (res: String)
        ensures
            res@ == self.message_text(),
    {
        match self {
            BuildError::NdkFileNotFound { first, lowest, highest } => {
                let mut res = concat3(
                    "Unable to find NDK file: neither `",
                    first.as_str(),
                    "` nor its like",
                );
                res.append(version_range(*lowest, *highest).as_str());
                res
            },
            BuildError::ClangNotFound { directory, pattern, lowest, highest } => concat3(
                "Unable to find NDK clang",
                searched(directory.as_str(), pattern.as_str()).as_str(),
                version_range(*lowest, *highest).as_str(),
            ),
            BuildError::ClangCppNotFound { directory, pattern, lowest, highest } => concat3(
                "Unable to find NDK clang++",
                searched(directory.as_str(), pattern.as_str()).as_str(),
                version_range(*lowest, *highest).as_str(),
            ),
            BuildError::ArNotFound { path } => concat3("Unable to find ar at `", path.as_str(), "`"),
            BuildError::ReadelfNotFound { path } => concat3(
                "Unable to find readelf at `",
                path.as_str(),
                "`",
            ),
            BuildError::LibunwindNotFound { path } => concat3(
                "Unable to find libunwind.a at `",
                path.as_str(),
                "`",
            ),
            BuildError::SourceArgumentMissing { unit } => concat3(
                "Unable to replace source argument when building target '",
                unit.as_str(),
                "'",
            ),
            BuildError::ArtifactNameMissing { unit } => concat3(
                "Unable to determine the library file name of target '",
                unit.as_str(),
                "'",
            ),
            BuildError::JavaExecutableNotFound { name, searched } => {
                let mut res = concat3(
                    "Unable to find executable: '",
                    name.as_str(),
                    "'. Configure PATH or JAVA_HOME with the path to the JRE or JDK.",
                );
                res.append(" Searched: ");
                res.append(join_strings(searched, ", ").as_str());
                res
            },
            BuildError::JavaFileOutsideRoot { path } => concat3(
                "Java file `",
                path.as_str(),
                "` is not under the `java` directory",
            ),
            BuildError::TemplateMalformed { error } => match error {
                TemplateError::SectionAlreadyOpen =>
                    "Injection template opens a section inside another section".to_owned(),
                TemplateError::NoSectionOpen =>
                    "Injection template closes a section where none is open".to_owned(),
            },
            BuildError::TemporarySourceNotCreated { path, reason } => {
                let mut res = concat3(
                    "Unable to create temporary source file `",
                    path.as_str(),
                    TEMPORARY_SOURCE_HINT,
                );
                res.append(reason.as_str());
                res.append(".");
                res
            },
            BuildError::PackageNotDeleted { reason } => concat2(
                "Unable to delete APK file. ",
                reason.as_str(),
            ),
            BuildError::SettingsMalformed { path, reason } => {
                let mut res = concat3("\"", path.as_str(), "\" toml file malformed, ");
                res.append(reason.as_str());
                res
            },
            BuildError::ToolFailed { output } => output.clone(),
        }
    }
}

} // verus!
