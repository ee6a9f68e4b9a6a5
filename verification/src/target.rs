//! Build architectures, unit kinds and compile modes.

use vstd::prelude::*;

verus! {

/// A target ABI that a unit is compiled for.
#[derive(Clone, Copy, Debug, PartialEq, Eq, Hash, Structural)]
pub enum AndroidBuildTarget {
    ArmV7a,
    Arm64V8a,
    X86,
    X86_64,
}

impl AndroidBuildTarget {
    /// The tag under which the platform files libraries of this ABI.
    pub open spec fn abi_text(self) -> Seq<char> {
        match self {
            AndroidBuildTarget::ArmV7a => "armeabi-v7a"@,
            AndroidBuildTarget::Arm64V8a => "arm64-v8a"@,
            AndroidBuildTarget::X86 => "x86"@,
            AndroidBuildTarget::X86_64 => "x86_64"@,
        }
    }

    /// The triple by which the compiler knows this ABI.
    pub open spec fn rust_triple_text(self) -> Seq<char> {
        match self {
            AndroidBuildTarget::ArmV7a => "armv7-linux-androideabi"@,
            AndroidBuildTarget::Arm64V8a => "aarch64-linux-android"@,
            AndroidBuildTarget::X86 => "i686-linux-android"@,
            AndroidBuildTarget::X86_64 => "x86_64-linux-android"@,
        }
    }

    /// The triple that prefixes the toolchain's compiler drivers.
    pub open spec fn ndk_llvm_triple_text(self) -> Seq<char> {
        match self {
            AndroidBuildTarget::ArmV7a => "armv7a-linux-androideabi"@,
            AndroidBuildTarget::Arm64V8a => "aarch64-linux-android"@,
            AndroidBuildTarget::X86 => "i686-linux-android"@,
            AndroidBuildTarget::X86_64 => "x86_64-linux-android"@,
        }
    }

    /// The triple that names the system-root library directory.
    pub open spec fn ndk_triple_text(self) -> Seq<char> {
        match self {
            AndroidBuildTarget::ArmV7a => "arm-linux-androideabi"@,
            AndroidBuildTarget::Arm64V8a => "aarch64-linux-android"@,
            AndroidBuildTarget::X86 => "i686-linux-android"@,
            AndroidBuildTarget::X86_64 => "x86_64-linux-android"@,
        }
    }

    /// The architecture directory of the compiler's runtime libraries.
    pub open spec fn clang_arch_text(self) -> Seq<char> {
        match self {
            AndroidBuildTarget::ArmV7a => "arm"@,
            AndroidBuildTarget::Arm64V8a => "aarch64"@,
            AndroidBuildTarget::X86 => "i386"@,
            AndroidBuildTarget::X86_64 => "x86_64"@,
        }
    }

    pub fn android_abi(self) -> (res: &'static str)
        ensures
            res@ == self.abi_text(),
    {
        match self {
            AndroidBuildTarget::ArmV7a => "armeabi-v7a",
            AndroidBuildTarget::Arm64V8a => "arm64-v8a",
            AndroidBuildTarget::X86 => "x86",
            AndroidBuildTarget::X86_64 => "x86_64",
        }
    }

    pub fn rust_triple(self) -> (res: &'static str)
        ensures
            res@ == self.rust_triple_text(),
    {
        match self {
            AndroidBuildTarget::ArmV7a => "armv7-linux-androideabi",
            AndroidBuildTarget::Arm64V8a => "aarch64-linux-android",
            AndroidBuildTarget::X86 => "i686-linux-android",
            AndroidBuildTarget::X86_64 => "x86_64-linux-android",
        }
    }

    pub fn ndk_llvm_triple(self) -> (res: &'static str)
        ensures
            res@ == self.ndk_llvm_triple_text(),
    {
        match self {
            AndroidBuildTarget::ArmV7a => "armv7a-linux-androideabi",
            AndroidBuildTarget::Arm64V8a => "aarch64-linux-android",
            AndroidBuildTarget::X86 => "i686-linux-android",
            AndroidBuildTarget::X86_64 => "x86_64-linux-android",
        }
    }

    pub fn ndk_triple(self) -> (res: &'static str)
        ensures
            res@ == self.ndk_triple_text(),
    {
        match self {
            AndroidBuildTarget::ArmV7a => "arm-linux-androideabi",
            AndroidBuildTarget::Arm64V8a => "aarch64-linux-android",
            AndroidBuildTarget::X86 => "i686-linux-android",
            AndroidBuildTarget::X86_64 => "x86_64-linux-android",
        }
    }

    pub fn clang_arch(self) -> (res: &'static str)
        ensures
            res@ == self.clang_arch_text(),
    {
        match self {
            AndroidBuildTarget::ArmV7a => "arm",
            AndroidBuildTarget::Arm64V8a => "aarch64",
            AndroidBuildTarget::X86 => "i386",
            AndroidBuildTarget::X86_64 => "x86_64",
        }
    }
}

/// The platform on which the build tools run.
#[derive(Clone, Copy, Debug, PartialEq, Eq, Hash, Structural)]
pub enum HostPlatform {
    Linux,
    MacOs,
    Windows64,
    Windows32,
}

impl HostPlatform {
    /// Whether the host is some version of Windows.
    pub open spec fn is_windows(self) -> bool {
        self == HostPlatform::Windows64 || self == HostPlatform::Windows32
    }

    /// The directory name under which the toolchain files its host binaries.
    pub open spec fn tag_text(self) -> Seq<char> {
        match self {
            HostPlatform::Linux => "linux-x86_64"@,
            HostPlatform::MacOs => "darwin-x86_64"@,
            HostPlatform::Windows64 => "windows-x86_64"@,
            HostPlatform::Windows32 => "windows"@,
        }
    }

    /// The ending of executable files.
    pub open spec fn exe_suffix_text(self) -> Seq<char> {
        if self.is_windows() {
            ".exe"@
        } else {
            ""@
        }
    }

    /// The ending of command scripts.
    pub open spec fn cmd_suffix_text(self) -> Seq<char> {
        if self.is_windows() {
            ".cmd"@
        } else {
            ""@
        }
    }

    /// The ending of batch scripts.
    pub open spec fn bat_suffix_text(self) -> Seq<char> {
        if self.is_windows() {
            ".bat"@
        } else {
            ""@
        }
    }

    pub fn windows(self) -> (res: bool)
        ensures
            res == self.is_windows(),
    {
        match self {
            HostPlatform::Windows64 => true,
            HostPlatform::Windows32 => true,
            _ => false,
        }
    }

    pub fn tag(self) -> (res: &'static str)
        ensures
            res@ == self.tag_text(),
    {
        match self {
            HostPlatform::Linux => "linux-x86_64",
            HostPlatform::MacOs => "darwin-x86_64",
            HostPlatform::Windows64 => "windows-x86_64",
            HostPlatform::Windows32 => "windows",
        }
    }

    pub fn exe_suffix(self) -> (res: &'static str)
        ensures
            res@ == self.exe_suffix_text(),
    {
        if self.windows() {
            ".exe"
        } else {
            ""
        }
    }

    pub fn cmd_suffix(self) -> (res: &'static str)
        ensures
            res@ == self.cmd_suffix_text(),
    {
        if self.windows() {
            ".cmd"
        } else {
            ""
        }
    }

    pub fn bat_suffix(self) -> (res: &'static str)
        ensures
            res@ == self.bat_suffix_text(),
    {
        if self.windows() {
            ".bat"
        } else {
            ""
        }
    }
}

/// What kind of artifact a compilation unit is.
#[derive(Clone, Copy, Debug, PartialEq, Eq, Hash, Structural)]
pub enum UnitKind {
    /// An application entry point.
    Bin,
    /// An example entry point.
    ExampleBin,
    /// Anything else: a library, a test, a build script.
    Other,
}

impl UnitKind {
    /// Whether units of this kind become packages.
    pub open spec fn is_entry(self) -> bool {
        self == UnitKind::Bin || self == UnitKind::ExampleBin
    }
}

/// The mode in which the compilation driver compiles a unit.
#[derive(Clone, Copy, Debug, PartialEq, Eq, Hash, Structural)]
pub enum CompileMode {
    /// A normal build.
    Build,
    /// A build of the unit's tests.
    Test,
    /// Checking, documenting and the like.
    Other,
}

/// One buildable artifact.
#[derive(Clone, Debug)]
pub struct CompilationUnit {
    pub kind: UnitKind,
    pub name: String,
    pub src_path: String,
}

impl CompilationUnit {
    /// Two units are the same artifact when kind and name agree.
    pub open spec fn same_unit(self, other: CompilationUnit) -> bool {
        self.kind == other.kind && self.name@ == other.name@
    }

    pub fn is_same_unit(&self, other: &CompilationUnit) -> (res: bool)
        ensures
            res == self.same_unit(*other),
    {
        self.kind == other.kind && self.name == other.name
    }
}

} // verus!
