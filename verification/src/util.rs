//! Where the toolchain's files are and where the build puts its own.

use crate::config::AndroidConfig;
use crate::error::BuildError;
use crate::paths::join;
use crate::paths::join_all;
use crate::paths::joined_all;
use crate::paths::joined_path;
use crate::target::AndroidBuildTarget;
use crate::target::CompilationUnit;
use crate::target::UnitKind;
use crate::text::chars_of;
use crate::text::concat2;
use crate::text::concat3;
use crate::text::decimal;
use crate::text::decimal_of;
use crate::text::lemma_texts_add;
use crate::text::lemma_texts_push;
use crate::text::push_all;
use crate::text::push_str;
use crate::text::push_strings;
use crate::text::split_on;
use crate::text::split_text;
use crate::text::string_of;
use crate::text::texts;
use vstd::prelude::*;

verus! {

/// The directory that holds what the build produces, for the debug or the
/// release configuration, under the driver's target directory.
pub open spec fn root_build_directory(target_dir: Seq<char>, release: bool) -> Seq<char> {
    joined_path(
        joined_path(target_dir, "android-artifacts"@),
        if release {
            "release"@
        } else {
            "debug"@
        },
    )
}

/// Returns the directory in which all artifacts of the current debug or
/// release configuration are produced.
pub fn get_root_build_directory(target_dir: &str, config: &AndroidConfig) -> (res: String)
    ensures
        res@ == root_build_directory(target_dir@, config.release),
{
    let artifacts = join(target_dir, "android-artifacts");
    if config.release {
        join(artifacts.as_str(), "release")
    } else {
        join(artifacts.as_str(), "debug")
    }
}

/// The directory of a unit under the root build directory: entry units under
/// `bin`, example units under `examples`.
pub open spec fn target_directory(root_build_dir: Seq<char>, unit: CompilationUnit) -> Option<
    Seq<char>,
> {
    match unit.kind {
        UnitKind::Bin => Some(joined_path(joined_path(root_build_dir, "bin"@), unit.name@)),
        UnitKind::ExampleBin => Some(
            joined_path(joined_path(root_build_dir, "examples"@), unit.name@),
        ),
        UnitKind::Other => None,
    }
}

/// Returns the sub directory within the root build directory for the unit.
/// Only entry units have one.
pub fn get_target_directory(root_build_dir: &str, unit: &CompilationUnit) -> (res: Option<String>)
    ensures
        match res {
            Some(dir) => target_directory(root_build_dir@, *unit) == Some(dir@),
            None => target_directory(root_build_dir@, *unit) is None,
        },
{
    match unit.kind {
        UnitKind::Bin => {
            let base = join(root_build_dir, "bin");
            Some(join(base.as_str(), unit.name.as_str()))
        },
        UnitKind::ExampleBin => {
            let base = join(root_build_dir, "examples");
            Some(join(base.as_str(), unit.name.as_str()))
        },
        UnitKind::Other => None,
    }
}

/// The path of the `make` that the toolchain provides.
pub open spec fn make_path_text(config: AndroidConfig) -> Seq<char> {
    joined_path(
        joined_path(joined_path(config.ndk_path@, "prebuild"@), config.host.tag_text()),
        "make"@,
    )
}

/// Returns the path to the `make` provided by the toolchain.
pub fn make_path(config: &AndroidConfig) -> (res: String)
    ensures
        res@ == make_path_text(*config),
{
    let prebuild = join(config.ndk_path.as_str(), "prebuild");
    let host = join(prebuild.as_str(), config.host.tag());
    join(host.as_str(), "make")
}

/// The root of the LLVM toolchain.
pub open spec fn llvm_toolchain_root_text(config: AndroidConfig) -> Seq<char> {
    joined_path(
        joined_path(
            joined_path(joined_path(config.ndk_path@, "toolchains"@), "llvm"@),
            "prebuilt"@,
        ),
        config.host.tag_text(),
    )
}

/// Returns the path to the LLVM toolchain provided by the NDK.
pub fn llvm_toolchain_root(config: &AndroidConfig) -> (res: String)
    ensures
        res@ == llvm_toolchain_root_text(*config),
{
    let toolchains = join(config.ndk_path.as_str(), "toolchains");
    let llvm = join(toolchains.as_str(), "llvm");
    let prebuilt = join(llvm.as_str(), "prebuilt");
    join(prebuilt.as_str(), config.host.tag())
}

/// The highest platform version that the search tries, exclusive.
pub const PLATFORM_CEILING: u32 = 100;

/// How many versions the search tries going down from `platform`.
pub open spec fn descending_tries(platform: u32) -> nat {
    platform as nat
}

/// How many versions the search tries going up from `platform`.
pub open spec fn ascending_tries(platform: u32) -> nat {
    if platform < PLATFORM_CEILING {
        (PLATFORM_CEILING - platform) as nat
    } else {
        0
    }
}

/// The platform versions in the order in which the search tries them: from
/// `platform` down to 1, then from `platform` up to one below the ceiling.
pub open spec fn ndk_search_order(platform: u32) -> Seq<int> {
    Seq::new(descending_tries(platform), |i: int| platform - i) + Seq::new(
        ascending_tries(platform),
        |i: int| platform + i,
    )
}

/// The lowest platform version that the search tries.
pub open spec fn lowest_tried(platform: u32) -> u32 {
    if platform < 1 {
        platform
    } else {
        1
    }
}

/// The highest platform version that the search tries.
pub open spec fn highest_tried(platform: u32) -> u32 {
    if platform < PLATFORM_CEILING {
        (PLATFORM_CEILING - 1) as u32
    } else {
        platform
    }
}

/// The search tries every version from the lowest to the highest one that
/// it names in its failure, and no other.
pub proof fn lemma_search_order_range(platform: u32)
    ensures
        forall|k: int|
            0 <= k < ndk_search_order(platform).len() ==> lowest_tried(platform)
                <= #[trigger] ndk_search_order(platform)[k] <= highest_tried(platform),
        forall|version: int|
            lowest_tried(platform) <= version <= highest_tried(platform) ==> ndk_search_order(
                platform,
            ).contains(version),
{
    let order = ndk_search_order(platform);
    let down = descending_tries(platform) as int;
    assert forall|version: int|
        lowest_tried(platform) <= version <= highest_tried(platform) implies order.contains(
        version,
    ) by {
        if version <= platform {
            if platform >= 1 {
                assert(order[platform - version] == version);
            } else {
                assert(order[0] == version);
            }
        } else {
            assert(order[down + (version - platform)] == version);
        }
    }
}

/// The search built a path for `version` and found that it does not exist.
pub open spec fn tried_and_absent<F: Fn(u32) -> String, P: Fn(&String) -> bool>(
    path_builder: F,
    probe: P,
    version: int,
) -> bool {
    exists|path: String|
        0 <= version <= u32::MAX && path_builder.ensures((version as u32,), path)
            && #[trigger] probe.ensures((&path,), false)
}

/// Looks for a file of the toolchain by platform version: first the version
/// asked for, then lower ones, then higher ones. `path_builder` gives the
/// path to try for a version and `probe` tells whether a path exists. The
/// result is the first path found to exist.
pub fn find_ndk_path<F: Fn(u32) -> String, P: Fn(&String) -> bool>(
    platform: u32,
    path_builder: F,
    probe: P,
) -> (res: Result<String, BuildError>)
    requires
        forall|version: u32| path_builder.requires((version,)),
        forall|path: &String| probe.requires((path,)),
    ensures
        match res {
            Ok(path) => exists|k: int|
                0 <= k < ndk_search_order(platform).len() && 0 <= #[trigger] ndk_search_order(
                    platform,
                )[k] <= u32::MAX && path_builder.ensures(
                    (ndk_search_order(platform)[k] as u32,),
                    path,
                ) && probe.ensures((&path,), true) && forall|j: int|
                    0 <= j < k ==> tried_and_absent(
                        path_builder,
                        probe,
                        #[trigger] ndk_search_order(platform)[j],
                    ),
            Err(BuildError::NdkFileNotFound { first, lowest, highest }) => path_builder.ensures(
                (platform,),
                first,
            ) && lowest == lowest_tried(platform) && highest == highest_tried(platform)
                && forall|j: int|
                0 <= j < ndk_search_order(platform).len() ==> tried_and_absent(
                    path_builder,
                    probe,
                    #[trigger] ndk_search_order(platform)[j],
                ),
            Err(_) => false,
        },
{
    let ghost order = ndk_search_order(platform);
    let mut first: Option<String> = None;
    let mut tmp_platform: u32 = platform;
    while tmp_platform >= 1
        invariant
            tmp_platform <= platform,
            tmp_platform < platform ==> first is Some,
            first matches Some(tried) ==> path_builder.ensures((platform,), tried),
            order == ndk_search_order(platform),
            forall|version: u32| path_builder.requires((version,)),
            forall|path: &String| probe.requires((path,)),
            forall|j: int|
                0 <= j < platform - tmp_platform ==> tried_and_absent(
                    path_builder,
                    probe,
                    #[trigger] order[j],
                ),
        decreases tmp_platform,
    {
        let path = path_builder(tmp_platform);
        let ghost k = platform - tmp_platform;
        assert(order[k] == tmp_platform);
        if probe(&path) {
            return Ok(path);
        }
        assert(tried_and_absent(path_builder, probe, order[k]));
        if first.is_none() {
            first = Some(path);
        }
        tmp_platform -= 1;
    }
    let ghost down = descending_tries(platform) as int;
    assert(down == platform - tmp_platform);
    tmp_platform = platform;
    while tmp_platform < PLATFORM_CEILING
        invariant
            platform <= tmp_platform,
            platform < PLATFORM_CEILING ==> tmp_platform <= PLATFORM_CEILING,
            platform >= 1 || tmp_platform > platform ==> first is Some,
            first matches Some(tried) ==> path_builder.ensures((platform,), tried),
            order == ndk_search_order(platform),
            down == descending_tries(platform),
            forall|version: u32| path_builder.requires((version,)),
            forall|path: &String| probe.requires((path,)),
            forall|j: int|
                0 <= j < down + (tmp_platform - platform) ==> tried_and_absent(
                    path_builder,
                    probe,
                    #[trigger] order[j],
                ),
        decreases PLATFORM_CEILING - tmp_platform,
    {
        let path = path_builder(tmp_platform);
        let ghost k = down + (tmp_platform - platform);
        assert(order[k] == tmp_platform);
        if probe(&path) {
            return Ok(path);
        }
        assert(tried_and_absent(path_builder, probe, order[k]));
        if first.is_none() {
            first = Some(path);
        }
        tmp_platform += 1;
    }
    let first = match first {
        Some(tried) => tried,
        None => vstd::pervasive::unreached(),
    };
    Err(
        BuildError::NdkFileNotFound {
            first,
            lowest: if platform < 1 {
                platform
            } else {
                1
            },
            highest: if platform < PLATFORM_CEILING {
                PLATFORM_CEILING - 1
            } else {
                platform
            },
        },
    )
}

/// The probe found that nothing is at `path`.
pub open spec fn probed_absent<P: Fn(&String) -> bool>(probe: P, path: Seq<char>) -> bool {
    exists|candidate: String| candidate@ == path && #[trigger] probe.ensures((&candidate,), false)
}

/// The directory of the toolchain's executables.
pub open spec fn toolchain_bin(config: AndroidConfig) -> Seq<char> {
    joined_path(llvm_toolchain_root_text(config), "bin"@)
}

/// The compiler driver `driver` for an architecture and a platform version.
pub open spec fn clang_path(
    config: AndroidConfig,
    build_target: AndroidBuildTarget,
    version: int,
    driver: Seq<char>,
) -> Seq<char> {
    joined_path(
        toolchain_bin(config),
        build_target.ndk_llvm_triple_text() + decimal(version as nat) + "-"@ + driver
            + config.host.cmd_suffix_text(),
    )
}

/// The name of the C++ compiler driver if `cpp`, else of the C one.
pub open spec fn driver_name(cpp: bool) -> Seq<char> {
    if cpp {
        "clang++"@
    } else {
        "clang"@
    }
}

/// The pattern of the file names of a compiler driver, with a mark where
/// the platform version stands.
pub open spec fn driver_pattern(
    config: AndroidConfig,
    build_target: AndroidBuildTarget,
    driver: Seq<char>,
) -> Seq<char> {
    build_target.ndk_llvm_triple_text() + "<version>"@ + "-"@ + driver
        + config.host.cmd_suffix_text()
}

/// The failure tells where the search for a compiler driver looked: in the
/// directory of the toolchain's executables, for the driver's file name with
/// every platform version that the search tries.
pub open spec fn describes_search(
    config: AndroidConfig,
    build_target: AndroidBuildTarget,
    cpp: bool,
    directory: Seq<char>,
    pattern: Seq<char>,
    lowest: u32,
    highest: u32,
) -> bool {
    &&& directory == toolchain_bin(config)
    &&& pattern == driver_pattern(config, build_target, driver_name(cpp))
    &&& lowest == lowest_tried(config.min_sdk_version)
    &&& highest == highest_tried(config.min_sdk_version)
}

/// The probe found no compiler driver for any platform version tried.
pub open spec fn no_driver<P: Fn(&String) -> bool>(
    config: AndroidConfig,
    build_target: AndroidBuildTarget,
    cpp: bool,
    probe: P,
) -> bool {
    forall|j: int|
        0 <= j < ndk_search_order(config.min_sdk_version).len() ==> probed_absent(
            probe,
            clang_path(
                config,
                build_target,
                #[trigger] ndk_search_order(config.min_sdk_version)[j],
                driver_name(cpp),
            ),
        )
}

/// What the search for a compiler driver may return: the driver for the
/// first platform version, in search order, that the probe found to exist;
/// or, when the probe found none, the failure for the driver, which tells
/// where the search looked.
pub open spec fn driver_found<P: Fn(&String) -> bool>(
    config: AndroidConfig,
    build_target: AndroidBuildTarget,
    cpp: bool,
    probe: P,
    res: Result<String, BuildError>,
) -> bool {
    let order = ndk_search_order(config.min_sdk_version);
    match res {
        Ok(path) => exists|k: int|
            0 <= k < order.len() && path@ == clang_path(
                config,
                build_target,
                #[trigger] order[k],
                driver_name(cpp),
            ) && probe.ensures((&path,), true) && forall|j: int|
                0 <= j < k ==> probed_absent(
                    probe,
                    clang_path(config, build_target, #[trigger] order[j], driver_name(cpp)),
                ),
        Err(BuildError::ClangNotFound { directory, pattern, lowest, highest }) => !cpp
            && describes_search(config, build_target, cpp, directory@, pattern@, lowest, highest)
            && no_driver(config, build_target, cpp, probe),
        Err(BuildError::ClangCppNotFound { directory, pattern, lowest, highest }) => cpp
            && describes_search(config, build_target, cpp, directory@, pattern@, lowest, highest)
            && no_driver(config, build_target, cpp, probe),
        Err(_) => false,
    }
}

/// Looks for a compiler driver by platform version.
fn find_driver<P: Fn(&String) -> bool>(
    config: &AndroidConfig,
    build_target: AndroidBuildTarget,
    cpp: bool,
    probe: P,
) -> (res: Result<String, BuildError>)
    requires
        forall|path: &String| probe.requires((path,)),
    ensures
        driver_found(*config, build_target, cpp, probe, res),
{
    let driver = if cpp {
        "clang++"
    } else {
        "clang"
    };
    let bin_folder = join(llvm_toolchain_root(config).as_str(), "bin");
    let path_builder = |platform: u32| -> (path: String)
        ensures
            path@ == clang_path(*config, build_target, platform as int, driver@),
        {
            let mut name: Vec<char> = Vec::new();
            push_str(&mut name, build_target.ndk_llvm_triple());
            push_all(&mut name, &decimal_of(platform as u64));
            push_str(&mut name, "-");
            push_str(&mut name, driver);
            push_str(&mut name, config.host.cmd_suffix());
            join(bin_folder.as_str(), string_of(&name).as_str())
        };
    let ghost order = ndk_search_order(config.min_sdk_version);
    match find_ndk_path(config.min_sdk_version, path_builder, probe) {
        Ok(path) => {
            proof {
                let k = choose|k: int|
                    0 <= k < order.len() && 0 <= #[trigger] order[k] <= u32::MAX
                        && path_builder.ensures((order[k] as u32,), path) && probe.ensures(
                        (&path,),
                        true,
                    ) && forall|j: int|
                        0 <= j < k ==> tried_and_absent(path_builder, probe, #[trigger] order[j]);
                assert forall|j: int| 0 <= j < k implies probed_absent(
                    probe,
                    clang_path(*config, build_target, #[trigger] order[j], driver@),
                ) by {
                    assert(tried_and_absent(path_builder, probe, order[j]));
                }
                assert(path@ == clang_path(*config, build_target, order[k], driver@));
            }
            Ok(path)
        },
        Err(error) => {
            proof {
                assert forall|j: int| 0 <= j < order.len() implies probed_absent(
                    probe,
                    clang_path(*config, build_target, #[trigger] order[j], driver@),
                ) by {
                    assert(tried_and_absent(path_builder, probe, order[j]));
                }
            }
            let (lowest, highest) = match error {
                BuildError::NdkFileNotFound { first, lowest, highest } => (lowest, highest),
                _ => (0, 0),
            };
            let mut pattern = concat3(build_target.ndk_llvm_triple(), "<version>", "-");
            pattern.append(driver);
            pattern.append(config.host.cmd_suffix());
            if cpp {
                Err(
                    BuildError::ClangCppNotFound {
                        directory: bin_folder,
                        pattern,
                        lowest,
                        highest,
                    },
                )
            } else {
                Err(BuildError::ClangNotFound { directory: bin_folder, pattern, lowest, highest })
            }
        },
    }
}

/// Returns the path to the C compiler driver that builds for the target:
/// the one for the first platform version, in search order, that exists.
/// The failure names the directory searched, the pattern of the driver's
/// file name and the platform versions tried.
pub fn find_clang<P: Fn(&String) -> bool>(
    config: &AndroidConfig,
    build_target: AndroidBuildTarget,
    probe: P,
) -> (res: Result<String, BuildError>)
    requires
        forall|path: &String| probe.requires((path,)),
    ensures
        driver_found(*config, build_target, false, probe, res),
{
    find_driver(config, build_target, false, probe)
}

/// Returns the path to the C++ compiler driver that builds for the target.
/// The failure names the directory searched, the pattern of the driver's
/// file name and the platform versions tried.
pub fn find_clang_cpp<P: Fn(&String) -> bool>(
    config: &AndroidConfig,
    build_target: AndroidBuildTarget,
    probe: P,
) -> (res: Result<String, BuildError>)
    requires
        forall|path: &String| probe.requires((path,)),
    ensures
        driver_found(*config, build_target, true, probe, res),
{
    find_driver(config, build_target, true, probe)
}

/// The path of a tool of the toolchain that has one name for every
/// architecture.
pub open spec fn llvm_tool_path(config: AndroidConfig, tool: Seq<char>) -> Seq<char> {
    joined_path(toolchain_bin(config), tool + config.host.exe_suffix_text())
}

/// Builds the path of a tool of the toolchain.
fn llvm_tool(config: &AndroidConfig, tool: &str) -> (res: String)
    ensures
        res@ == llvm_tool_path(*config, tool@),
{
    let bin = join(llvm_toolchain_root(config).as_str(), "bin");
    join(bin.as_str(), concat2(tool, config.host.exe_suffix()).as_str())
}

/// Returns the path to the archiver, if the probe finds it there.
pub fn find_ar<P: Fn(&String) -> bool>(config: &AndroidConfig, probe: P) -> (res: Result<
    String,
    BuildError,
>)
    requires
        forall|path: &String| probe.requires((path,)),
    ensures
        match res {
            Ok(path) => path@ == llvm_tool_path(*config, "llvm-ar"@) && probe.ensures(
                (&path,),
                true,
            ),
            Err(BuildError::ArNotFound { path }) => path@ == llvm_tool_path(*config, "llvm-ar"@)
                && probe.ensures((&path,), false),
            Err(_) => false,
        },
{
    let ar_path = llvm_tool(config, "llvm-ar");
    if probe(&ar_path) {
        Ok(ar_path)
    } else {
        Err(BuildError::ArNotFound { path: ar_path })
    }
}

/// Returns the path to the binary introspection tool, if the probe finds it
/// there.
pub fn find_readelf<P: Fn(&String) -> bool>(config: &AndroidConfig, probe: P) -> (res: Result<
    String,
    BuildError,
>)
    requires
        forall|path: &String| probe.requires((path,)),
    ensures
        match res {
            Ok(path) => path@ == llvm_tool_path(*config, "llvm-readelf"@) && probe.ensures(
                (&path,),
                true,
            ),
            Err(BuildError::ReadelfNotFound { path }) => path@ == llvm_tool_path(
                *config,
                "llvm-readelf"@,
            ) && probe.ensures((&path,), false),
            Err(_) => false,
        },
{
    let readelf_path = llvm_tool(config, "llvm-readelf");
    if probe(&readelf_path) {
        Ok(readelf_path)
    } else {
        Err(BuildError::ReadelfNotFound { path: readelf_path })
    }
}

/// The directory that holds one directory per version of the compiler.
pub open spec fn clang_versions_dir_text(config: AndroidConfig) -> Seq<char> {
    joined_path(joined_path(llvm_toolchain_root_text(config), "lib"@), "clang"@)
}

/// Returns the directory whose entries are the versions of the compiler.
pub fn clang_versions_dir(config: &AndroidConfig) -> (res: String)
    ensures
        res@ == clang_versions_dir_text(*config),
{
    let lib = join(llvm_toolchain_root(config).as_str(), "lib");
    join(lib.as_str(), "clang")
}

/// The directory of the unwind library for an architecture, under the
/// compiler version `clang_version`.
pub open spec fn libunwind_dir_text(
    config: AndroidConfig,
    build_target: AndroidBuildTarget,
    clang_version: Seq<char>,
) -> Seq<char> {
    joined_path(
        joined_path(
            joined_path(joined_path(clang_versions_dir_text(config), clang_version), "lib"@),
            "linux"@,
        ),
        build_target.clang_arch_text(),
    )
}

/// Returns the directory of the unwind library for the architecture, if
/// the probe finds the library there. `clang_version` is the name of the
/// compiler version's directory.
pub fn find_libunwind_dir<P: Fn(&String) -> bool>(
    config: &AndroidConfig,
    build_target: AndroidBuildTarget,
    clang_version: &str,
    probe: P,
) -> (res: Result<String, BuildError>)
    requires
        forall|path: &String| probe.requires((path,)),
    ensures
        match res {
            Ok(dir) => dir@ == libunwind_dir_text(*config, build_target, clang_version@) && exists|
                library: String,
            |
                library@ == joined_path(dir@, "libunwind.a"@) && #[trigger] probe.ensures(
                    (&library,),
                    true,
                ),
            Err(BuildError::LibunwindNotFound { path }) => path@ == libunwind_dir_text(
                *config,
                build_target,
                clang_version@,
            ) && probed_absent(probe, joined_path(path@, "libunwind.a"@)),
            Err(_) => false,
        },
{
    let versions = clang_versions_dir(config);
    let version = join(versions.as_str(), clang_version);
    let lib = join(version.as_str(), "lib");
    let linux = join(lib.as_str(), "linux");
    let libunwind_dir = join(linux.as_str(), build_target.clang_arch());
    let library = join(libunwind_dir.as_str(), "libunwind.a");
    if probe(&library) {
        Ok(libunwind_dir)
    } else {
        Err(BuildError::LibunwindNotFound { path: libunwind_dir })
    }
}

/// The auxiliary files and services that the packages of the build add.
#[derive(Clone, Debug)]
pub struct JavaFiles {
    /// Fragments to be injected into the main activity.
    pub main_activity_injects: Vec<String>,
    /// Extra sources to compile alongside the main activity: where each one
    /// is, and its path inside its package.
    pub java_files: Vec<(String, String)>,
    /// Extra archives for the compiler's class path.
    pub comptime_jar_files: Vec<(String, String)>,
    /// Extra archives that are merged into the bytecode.
    pub runtime_jar_files: Vec<(String, String)>,
    /// Services that the manifest declares, each enabled.
    pub java_services: Vec<String>,
}

/// The auxiliary settings that a package of the build declares.
#[derive(Clone, Debug)]
pub struct QuadToml {
    pub main_activity_inject: Option<String>,
    pub java_files: Option<Vec<String>>,
    pub comptime_jar_files: Option<Vec<String>>,
    pub runtime_jar_files: Option<Vec<String>>,
    pub java_services: Option<Vec<String>>,
    /// The root of the package that declares these settings.
    pub package_root: String,
}

/// What a `JavaFiles` holds, as text.
pub struct JavaFilesText {
    pub main_activity_injects: Seq<Seq<char>>,
    pub java_files: Seq<(Seq<char>, Seq<char>)>,
    pub comptime_jar_files: Seq<(Seq<char>, Seq<char>)>,
    pub runtime_jar_files: Seq<(Seq<char>, Seq<char>)>,
    pub java_services: Seq<Seq<char>>,
}

/// The texts of a list of pairs.
pub open spec fn pair_texts(pairs: Seq<(String, String)>) -> Seq<(Seq<char>, Seq<char>)> {
    pairs.map_values(|pair: (String, String)| (pair.0@, pair.1@))
}

/// The place of `path` under `root`: `root` extended by every piece of
/// `path` between its slashes.
pub open spec fn absolute_path(root: Seq<char>, path: Seq<char>) -> Seq<char> {
    joined_all(root, split_on(path, "/"@))
}

/// Each of `files` with its place under `root` in front.
pub open spec fn absolute_pairs(root: Seq<char>, files: Seq<Seq<char>>) -> Seq<
    (Seq<char>, Seq<char>),
> {
    files.map_values(|file: Seq<char>| (absolute_path(root, file), file))
}

/// The texts of an optional list; none for a list that is not there.
pub open spec fn optional_texts(list: Option<Vec<String>>) -> Seq<Seq<char>> {
    match list {
        Some(items) => texts(items@),
        None => seq![],
    }
}

impl JavaFilesText {
    /// Nothing at all.
    pub open spec fn empty() -> JavaFilesText {
        JavaFilesText {
            main_activity_injects: seq![],
            java_files: seq![],
            comptime_jar_files: seq![],
            runtime_jar_files: seq![],
            java_services: seq![],
        }
    }

    /// These files and services followed by what `toml` declares.
    pub open spec fn extended(self, toml: QuadToml) -> JavaFilesText {
        let root = toml.package_root@;
        JavaFilesText {
            main_activity_injects: self.main_activity_injects + (match toml.main_activity_inject {
                Some(file) => seq![absolute_path(root, file@)],
                None => seq![],
            }),
            java_files: self.java_files + absolute_pairs(root, optional_texts(toml.java_files)),
            comptime_jar_files: self.comptime_jar_files + absolute_pairs(
                root,
                optional_texts(toml.comptime_jar_files),
            ),
            runtime_jar_files: self.runtime_jar_files + absolute_pairs(
                root,
                optional_texts(toml.runtime_jar_files),
            ),
            java_services: self.java_services + optional_texts(toml.java_services),
        }
    }
}

/// What the settings of all `tomls` declare, in their order.
pub open spec fn collected(tomls: Seq<QuadToml>) -> JavaFilesText
    decreases tomls.len(),
{
    if tomls.len() == 0 {
        JavaFilesText::empty()
    } else {
        collected(tomls.drop_last()).extended(tomls.last())
    }
}

impl View for JavaFiles {
    type V = JavaFilesText;

    open spec fn view(&self) -> JavaFilesText {
        JavaFilesText {
            main_activity_injects: texts(self.main_activity_injects@),
            java_files: pair_texts(self.java_files@),
            comptime_jar_files: pair_texts(self.comptime_jar_files@),
            runtime_jar_files: pair_texts(self.runtime_jar_files@),
            java_services: texts(self.java_services@),
        }
    }
}

/// The file in which a package declares its auxiliary settings.
pub fn quad_toml_path(package_root: &str) -> (res: String)
    ensures
        res@ == joined_path(package_root@, "quad.toml"@),
{
    join(package_root, "quad.toml")
}

/// Builds the place of `path` under `root`.
pub fn to_absolute_path(root: &str, path: &str) -> (res: String)
    ensures
        res@ == absolute_path(root@, path@),
{
    let pieces = split_text(&chars_of(path), &chars_of("/"));
    join_all(root, &pieces)
}

/// Appends each of `files`, with its place under `root` in front, to
/// `pairs`.
fn push_absolute(pairs: &mut Vec<(String, String)>, root: &str, files: &Option<Vec<String>>)
    ensures
        pair_texts(final(pairs)@) == pair_texts(old(pairs)@) + absolute_pairs(
            root@,
            optional_texts(*files),
        ),
{
    match files {
        Some(items) => {
            proof {
                assert(pair_texts(pairs@) =~= pair_texts(old(pairs)@) + absolute_pairs(
                    root@,
                    texts(items@),
                ).take(0));
            }
            let mut i: usize = 0;
            while i < items.len()
                invariant
                    i <= items@.len(),
                    pair_texts(pairs@) == pair_texts(old(pairs)@) + absolute_pairs(
                        root@,
                        texts(items@),
                    ).take(i as int),
                decreases items@.len() - i,
            {
                let pair = (to_absolute_path(root, items[i].as_str()), items[i].clone());
                proof {
                    assert(pair_texts(pairs@.push(pair)) =~= pair_texts(pairs@).push(
                        (pair.0@, pair.1@),
                    ));
                    assert(pair_texts(pairs@).push((pair.0@, pair.1@)) =~= pair_texts(
                        old(pairs)@,
                    ) + absolute_pairs(root@, texts(items@)).take(i + 1));
                }
                pairs.push(pair);
                i += 1;
            }
            proof {
                assert(absolute_pairs(root@, texts(items@)).take(items@.len() as int)
                    =~= absolute_pairs(root@, texts(items@)));
            }
        },
        None => {
            proof {
                assert(pair_texts(pairs@) =~= pair_texts(old(pairs)@) + absolute_pairs(
                    root@,
                    seq![],
                ));
            }
        },
    }
}

impl JavaFiles {
    /// No files and no services.
    pub fn new() -> (res: JavaFiles)
        ensures
            res@ == JavaFilesText::empty(),
    {
        let res = JavaFiles {
            main_activity_injects: Vec::new(),
            java_files: Vec::new(),
            comptime_jar_files: Vec::new(),
            runtime_jar_files: Vec::new(),
            java_services: Vec::new(),
        };
        proof {
            assert(texts(res.main_activity_injects@) =~= seq![]);
            assert(pair_texts(res.java_files@) =~= seq![]);
            assert(pair_texts(res.comptime_jar_files@) =~= seq![]);
            assert(pair_texts(res.runtime_jar_files@) =~= seq![]);
            assert(texts(res.java_services@) =~= seq![]);
        }
        res
    }

    /// Adds what the settings of one package declare.
    pub fn add_package(&mut self, toml: &QuadToml)
        ensures
            final(self)@ == old(self)@.extended(*toml),
    {
        let root = toml.package_root.as_str();
        match &toml.main_activity_inject {
            Some(file) => {
                let place = to_absolute_path(root, file.as_str());
                proof {
                    lemma_texts_push(self.main_activity_injects@, place);
                    assert(texts(self.main_activity_injects@).push(place@) =~= texts(
                        self.main_activity_injects@,
                    ) + seq![place@]);
                }
                self.main_activity_injects.push(place);
            },
            None => {
                proof {
                    assert(texts(self.main_activity_injects@) =~= texts(
                        self.main_activity_injects@,
                    ) + Seq::<Seq<char>>::empty());
                }
            },
        }
        push_absolute(&mut self.java_files, root, &toml.java_files);
        push_absolute(&mut self.comptime_jar_files, root, &toml.comptime_jar_files);
        push_absolute(&mut self.runtime_jar_files, root, &toml.runtime_jar_files);
        match &toml.java_services {
            Some(services) => {
                proof {
                    lemma_texts_add(self.java_services@, services@);
                }
                push_strings(&mut self.java_services, services);
            },
            None => {
                proof {
                    assert(texts(self.java_services@) =~= texts(self.java_services@) + Seq::<
                        Seq<char>,
                    >::empty());
                }
            },
        }
    }
}

/// Gathers the auxiliary files and services that the packages of the build
/// declare, in the order of the packages.
pub fn collect_java_files(tomls: &Vec<QuadToml>) -> (res: JavaFiles)
    ensures
        res@ == collected(tomls@),
{
    let mut res = JavaFiles::new();
    proof {
        assert(tomls@.take(0) =~= seq![]);
    }
    let mut i: usize = 0;
    while i < tomls.len()
        invariant
            i <= tomls@.len(),
            res@ == collected(tomls@.take(i as int)),
        decreases tomls@.len() - i,
    {
        proof {
            assert(tomls@.take(i + 1).drop_last() =~= tomls@.take(i as int));
            assert(tomls@.take(i + 1).last() == tomls@[i as int]);
        }
        res.add_package(&tomls[i]);
        i += 1;
    }
    proof {
        assert(tomls@.take(tomls@.len() as int) =~= tomls@);
    }
    res
}

} // verus!
