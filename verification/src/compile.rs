//! The hook on compile invocations: what to do with the command that the
//! compilation driver is about to run for one unit.

use crate::config::AndroidConfig;
use crate::error::BuildError;
use crate::libraries::SharedLibrary;
use crate::paths::join;
use crate::paths::joined_path;
use crate::paths::path_file_name;
use crate::paths::path_with_file_name;
use crate::paths;
use crate::target::AndroidBuildTarget;
use crate::target::CompileMode;
use crate::target::UnitKind;
use crate::text::after_last;
use crate::text::before_first;
use crate::text::chars_of;
use crate::text::concat2;
use crate::text::concat3;
use crate::text::contains;
use crate::text::contains_text;
use crate::text::decimal;
use crate::text::decimal_of;
use crate::text::ends_with;
use crate::text::has_prefix;
use crate::text::has_suffix;
use crate::text::lemma_texts_add;
use crate::text::lemma_texts_push;
use crate::text::lines;
use crate::text::push_strings;
use crate::text::replace;
use crate::text::replace_all;
use crate::text::rows;
use crate::text::same_str;
use crate::text::split_lines;
use crate::text::starts_with;
use crate::text::string_of;
use crate::text::text_after_last;
use crate::text::text_before_first;
use crate::text::texts;
use crate::util::llvm_toolchain_root;
use crate::util::llvm_toolchain_root_text;
use crate::util::make_path;
use crate::util::make_path_text;
use crate::util::pair_texts;
use crate::util::probed_absent;
use vstd::prelude::*;

verus! {

/// What the hook does with a compile command.
#[derive(Clone, Copy, Debug, PartialEq, Eq, Structural)]
pub enum HookAction {
    /// Build the unit as the shared library of a package.
    BuildSharedLibrary,
    /// Do not run the command: test binaries of entry units are not packaged.
    Skip,
    /// Run the command, with shared-library output turned into static-library
    /// output.
    BuildDependency,
}

/// The action for a unit of `kind` compiled in `mode`.
pub open spec fn action_for(kind: UnitKind, mode: CompileMode) -> HookAction {
    if kind.is_entry() && mode == CompileMode::Build {
        HookAction::BuildSharedLibrary
    } else if kind.is_entry() && mode == CompileMode::Test {
        HookAction::Skip
    } else {
        HookAction::BuildDependency
    }
}

/// Decides what to do with the compile command of a unit.
pub fn classify(kind: UnitKind, mode: CompileMode) -> (res: HookAction)
    ensures
        res == action_for(kind, mode),
{
    let entry = kind == UnitKind::Bin || kind == UnitKind::ExampleBin;
    if entry && mode == CompileMode::Build {
        HookAction::BuildSharedLibrary
    } else if entry && mode == CompileMode::Test {
        HookAction::Skip
    } else {
        HookAction::BuildDependency
    }
}

/// The note that tells of a skipped command.
pub fn skip_note(unit_name: &str) -> (res: String)
    ensures
        res@ == "Ignoring CompileMode::Test for target: "@ + unit_name@,
{
    concat2("Ignoring CompileMode::Test for target: ", unit_name)
}

/// Argument `i` follows the flag `flag`.
pub open spec fn follows_flag(args: Seq<Seq<char>>, i: int, flag: Seq<char>) -> bool {
    1 <= i < args.len() && args[i - 1] == flag
}

/// Argument `i` of a dependency's command after the rewrite: a shared-library
/// output kind becomes a static-library one.
pub open spec fn demoted_arg(args: Seq<Seq<char>>, i: int) -> Seq<char> {
    if follows_flag(args, i, "--crate-type"@) && args[i] == "cdylib"@ {
        "rlib"@
    } else {
        args[i]
    }
}

/// The command of a dependency after the rewrite.
pub open spec fn demoted(args: Seq<Seq<char>>) -> Seq<Seq<char>> {
    Seq::new(args.len(), |i: int| demoted_arg(args, i))
}

/// Argument `i` of an entry unit's command after the rewrite: an executable
/// output kind becomes a shared-library one, and the output directory
/// becomes `build_path`.
pub open spec fn promoted_arg(args: Seq<Seq<char>>, i: int, build_path: Seq<char>) -> Seq<char> {
    if follows_flag(args, i, "--crate-type"@) && args[i] == "bin"@ {
        "cdylib"@
    } else if follows_flag(args, i, "--out-dir"@) {
        build_path
    } else {
        args[i]
    }
}

/// The command of an entry unit after the rewrite of output kind and output
/// directory.
pub open spec fn promoted(args: Seq<Seq<char>>, build_path: Seq<char>) -> Seq<Seq<char>> {
    Seq::new(args.len(), |i: int| promoted_arg(args, i, build_path))
}

/// The first position at or after `from` whose argument, read as a path, has
/// the file name `file_name`; the number of arguments if there is none.
pub open spec fn source_position(args: Seq<Seq<char>>, file_name: Seq<char>, from: int) -> int
    decreases args.len() - from,
{
    if from < 0 || from >= args.len() {
        args.len() as int
    } else if path_file_name(args[from]) == Some(file_name) {
        from
    } else {
        source_position(args, file_name, from + 1)
    }
}

/// The command with the file name of its source argument replaced by
/// `temp_name`, if it has a source argument.
pub open spec fn source_replaced(
    args: Seq<Seq<char>>,
    file_name: Seq<char>,
    temp_name: Seq<char>,
) -> Option<Seq<Seq<char>>> {
    let at = source_position(args, file_name, 0);
    if 0 <= at < args.len() {
        Some(args.update(at, path_with_file_name(args[at], temp_name)))
    } else {
        None
    }
}

/// A copy of a list of strings.
pub fn copy_strings(v: &Vec<String>) -> (res: Vec<String>)
    ensures
        res@ == v@,
{
    let mut res: Vec<String> = Vec::new();
    let mut i: usize = 0;
    while i < v.len()
        invariant
            i <= v@.len(),
            res@ == v@.take(i as int),
        decreases v@.len() - i,
    {
        res.push(v[i].clone());
        i += 1;
    }
    assert(v@.take(v@.len() as int) == v@);
    res
}

/// Rewrites the command of a dependency: after `--crate-type`, `cdylib`
/// becomes `rlib`. Every other argument stays as it is.
pub fn demote_crate_type(args: &Vec<String>) -> (res: Vec<String>)
    ensures
        texts(res@) == demoted(texts(args@)),
{
    let mut res: Vec<String> = Vec::new();
    let mut i: usize = 0;
    while i < args.len()
        invariant
            i <= args@.len(),
            texts(res@) == demoted(texts(args@)).take(i as int),
        decreases args@.len() - i,
    {
        let arg = if i >= 1 && same_str(args[i - 1].as_str(), "--crate-type") && same_str(
            args[i].as_str(),
            "cdylib",
        ) {
            "rlib".to_owned()
        } else {
            args[i].clone()
        };
        proof {
            lemma_texts_push(res@, arg);
            assert(texts(res@).push(arg@) =~= demoted(texts(args@)).take(i + 1));
        }
        res.push(arg);
        i += 1;
    }
    assert(demoted(texts(args@)).take(args@.len() as int) =~= demoted(texts(args@)));
    res
}

/// Rewrites output kind and output directory in the command of an entry
/// unit: after `--crate-type`, `bin` becomes `cdylib`; what follows
/// `--out-dir` becomes `build_path`.
pub fn promote_crate_type(args: &Vec<String>, build_path: &str) -> (res: Vec<String>)
    ensures
        texts(res@) == promoted(texts(args@), build_path@),
{
    let mut res: Vec<String> = Vec::new();
    let mut i: usize = 0;
    while i < args.len()
        invariant
            i <= args@.len(),
            texts(res@) == promoted(texts(args@), build_path@).take(i as int),
        decreases args@.len() - i,
    {
        let arg = if i >= 1 && same_str(args[i - 1].as_str(), "--crate-type") && same_str(
            args[i].as_str(),
            "bin",
        ) {
            "cdylib".to_owned()
        } else if i >= 1 && same_str(args[i - 1].as_str(), "--out-dir") {
            build_path.to_owned()
        } else {
            args[i].clone()
        };
        proof {
            lemma_texts_push(res@, arg);
            assert(texts(res@).push(arg@) =~= promoted(texts(args@), build_path@).take(i + 1));
        }
        res.push(arg);
        i += 1;
    }
    assert(promoted(texts(args@), build_path@).take(args@.len() as int) =~= promoted(
        texts(args@),
        build_path@,
    ));
    res
}

/// Points the source argument of the command at the temporary source file:
/// the first argument whose file name is `file_name` gets the file name
/// `temp_name`, in the directory it named before. Fails when no argument
/// has that file name.
pub fn replace_source_argument(
    args: &Vec<String>,
    file_name: &str,
    temp_name: &str,
    unit_name: &str,
) -> (res: Result<Vec<String>, BuildError>)
    ensures
        match res {
            Ok(rewritten) => source_replaced(texts(args@), file_name@, temp_name@) == Some(
                texts(rewritten@),
            ),
            Err(BuildError::SourceArgumentMissing { unit }) => unit@ == unit_name@
                && source_replaced(texts(args@), file_name@, temp_name@) is None,
            Err(_) => false,
        },
{
    let mut i: usize = 0;
    while i < args.len()
        invariant
            i <= args@.len(),
            source_position(texts(args@), file_name@, 0) == source_position(
                texts(args@),
                file_name@,
                i as int,
            ),
        decreases args@.len() - i,
    {
        let found = match paths::file_name(args[i].as_str()) {
            Some(name) => same_str(name.as_str(), file_name),
            None => false,
        };
        if found {
            let mut rewritten = copy_strings(args);
            let replacement = paths::with_file_name(args[i].as_str(), temp_name);
            rewritten.set(i, replacement);
            proof {
                assert(texts(rewritten@) =~= texts(args@).update(i as int, replacement@));
            }
            return Ok(rewritten);
        }
        i += 1;
    }
    Err(BuildError::SourceArgumentMissing { unit: unit_name.to_owned() })
}

/// The package identifier as it stands in the names of native methods:
/// `_` and `-` become `_1`, and `.` becomes `_`.
pub open spec fn jni_package(package_name: Seq<char>) -> Seq<char> {
    replace_all(replace_all(replace_all(package_name, "_"@, "_1"@), "-"@, "_1"@), "."@, "_"@)
}

/// The glue module for a package: `inject_source` wrapped in a module, with
/// the class-path token replaced by the class path of the package.
pub open spec fn glue_module(inject_source: Seq<char>, package_name: Seq<char>) -> Seq<char> {
    replace_all(
        "mod cargo_apk_glue_code { "@ + inject_source + " }"@,
        "JAVA_CLASS_PATH"@,
        "Java_"@ + jni_package(package_name),
    )
}

/// Builds the glue module that is appended to the source of an entry unit.
pub fn glue_code(inject_source: &str, package_name: &str) -> (res: String)
    ensures
        res@ == glue_module(inject_source@, package_name@),
{
    let wrapped = concat3("mod cargo_apk_glue_code { ", inject_source, " }");
    let step1 = replace(package_name, "_", "_1");
    let step2 = replace(step1.as_str(), "-", "_1");
    let step3 = replace(step2.as_str(), ".", "_");
    let class_path = concat2("Java_", step3.as_str());
    replace(wrapped.as_str(), "JAVA_CLASS_PATH", class_path.as_str())
}

/// The temporary source file of an entry unit: its own source, a line break,
/// the glue module, a line break.
pub fn temporary_source(source: &str, glue: &str) -> (res: String)
    ensures
        res@ == source@ + "\n"@ + glue@ + "\n"@,
{
    let mut res = concat3(source, "\n", glue);
    res.append("\n");
    res
}

/// The name of the temporary source file for a source file with the stem
/// `stem`.
pub fn temporary_source_name(stem: &str) -> (res: String)
    ensures
        res@ == "__cargo_apk_"@ + stem@ + ".tmp"@,
{
    concat3("__cargo_apk_", stem, ".tmp")
}

/// The paths that the build of an entry unit for one architecture uses.
#[derive(Debug)]
pub struct HookPaths {
    /// Where the compiler puts the shared library.
    pub build_path: String,
    /// The linker.
    pub linker_path: String,
    /// The system root.
    pub sysroot: String,
    /// The system libraries that are the same for every platform version.
    pub version_independent_libraries_path: String,
    /// The directory of the compatibility shim.
    pub libgcc_dir: String,
    /// The compatibility shim: a linker script under the name of the legacy
    /// runtime library.
    pub libgcc_file: String,
    /// Where the compilation driver puts the libraries of dependencies.
    pub deps_dir: String,
}

impl HookPaths {
    /// The paths for `config` and `build_target` under `build_target_dir`.
    pub open spec fn matches(
        self,
        config: AndroidConfig,
        build_target: AndroidBuildTarget,
        build_target_dir: Seq<char>,
    ) -> bool {
        let root = llvm_toolchain_root_text(config);
        &&& self.build_path@ == joined_path(build_target_dir, "build"@)
        &&& self.linker_path@ == joined_path(joined_path(root, "bin"@), "ld"@)
        &&& self.sysroot@ == joined_path(root, "sysroot"@)
        &&& self.version_independent_libraries_path@ == joined_path(
            joined_path(joined_path(self.sysroot@, "usr"@), "lib"@),
            build_target.ndk_triple_text(),
        )
        &&& self.libgcc_dir@ == joined_path(self.build_path@, "_libgcc_"@)
        &&& self.libgcc_file@ == joined_path(self.libgcc_dir@, "libgcc.a"@)
        &&& self.deps_dir@ == joined_path(build_target_dir, "deps"@)
    }
}

/// Lays out the paths for the build of an entry unit.
pub fn hook_paths(
    config: &AndroidConfig,
    build_target: AndroidBuildTarget,
    build_target_dir: &str,
) -> (res: HookPaths)
    ensures
        res.matches(*config, build_target, build_target_dir@),
{
    let tool_root = llvm_toolchain_root(config);
    let bin = join(tool_root.as_str(), "bin");
    let linker_path = join(bin.as_str(), "ld");
    let sysroot = join(tool_root.as_str(), "sysroot");
    let usr = join(sysroot.as_str(), "usr");
    let lib = join(usr.as_str(), "lib");
    let version_independent_libraries_path = join(lib.as_str(), build_target.ndk_triple());
    let build_path = join(build_target_dir, "build");
    let libgcc_dir = join(build_path.as_str(), "_libgcc_");
    let libgcc_file = join(libgcc_dir.as_str(), "libgcc.a");
    let deps_dir = join(build_target_dir, "deps");
    HookPaths {
        build_path,
        linker_path,
        sysroot,
        version_independent_libraries_path,
        libgcc_dir,
        libgcc_file,
        deps_dir,
    }
}

/// What the compatibility shim holds: a linker script that sends the legacy
/// runtime library's name on to the unwind library.
pub fn libgcc_shim() -> (res: &'static str)
    ensures
        res@ == "INPUT(-lunwind)"@,
{
    "INPUT(-lunwind)"
}

/// The directory of the system libraries for one platform version.
pub fn platform_libraries_path(version_independent: &str, platform: u32) -> (res: String)
    ensures
        res@ == joined_path(version_independent@, decimal(platform as nat)),
{
    let version = string_of(&decimal_of(platform as u64));
    join(version_independent, version.as_str())
}

/// Whether symbols are stripped: in release builds, unless switched off.
pub fn strips_symbols(nostrip: bool, release: bool) -> (res: bool)
    ensures
        res == (!nostrip && release),
{
    !nostrip && release
}

/// The arguments that the hook appends to the command of an entry unit:
/// linker and linker flavor, system root, the library search paths, the
/// strip flag if `strip`, and the demand for position-independent code.
pub open spec fn linker_arguments(
    paths: HookPaths,
    version_specific: Seq<char>,
    libunwind_dir: Seq<char>,
    strip: bool,
) -> Seq<Seq<char>> {
    seq![
        "-Clinker="@ + paths.linker_path@,
        "-Clinker-flavor=ld"@,
        "-Clink-arg=--sysroot="@ + paths.sysroot@,
        "-Clink-arg=-L"@ + version_specific,
        "-Clink-arg=-L"@ + paths.version_independent_libraries_path@,
        "-Clink-arg=-L"@ + paths.libgcc_dir@,
        "-Clink-arg=-L"@ + libunwind_dir,
    ] + (if strip {
        seq!["-Clink-arg=-strip-all"@]
    } else {
        seq![]
    }) + seq!["-Crelocation-model=pic"@]
}

/// Builds the arguments that the hook appends to the command of an entry
/// unit.
pub fn linker_args(
    paths: &HookPaths,
    version_specific: &str,
    libunwind_dir: &str,
    strip: bool,
) -> (res: Vec<String>)
    ensures
        texts(res@) == linker_arguments(*paths, version_specific@, libunwind_dir@, strip),
{
    let mut res: Vec<String> = Vec::new();
    res.push(concat2("-Clinker=", paths.linker_path.as_str()));
    res.push("-Clinker-flavor=ld".to_owned());
    res.push(concat2("-Clink-arg=--sysroot=", paths.sysroot.as_str()));
    res.push(concat2("-Clink-arg=-L", version_specific));
    res.push(concat2("-Clink-arg=-L", paths.version_independent_libraries_path.as_str()));
    res.push(concat2("-Clink-arg=-L", paths.libgcc_dir.as_str()));
    res.push(concat2("-Clink-arg=-L", libunwind_dir));
    if strip {
        res.push("-Clink-arg=-strip-all".to_owned());
    }
    res.push("-Crelocation-model=pic".to_owned());
    proof {
        assert(texts(res@) =~= linker_arguments(*paths, version_specific@, libunwind_dir@, strip));
    }
    res
}

/// The whole command of an entry unit after the hook: the source argument
/// points at the temporary source, output kind and output directory are
/// rewritten, and the linker arguments follow. There is none when the
/// command has no source argument.
pub open spec fn primary_arguments(
    args: Seq<Seq<char>>,
    file_name: Seq<char>,
    temp_name: Seq<char>,
    paths: HookPaths,
    version_specific: Seq<char>,
    libunwind_dir: Seq<char>,
    strip: bool,
) -> Option<Seq<Seq<char>>> {
    match source_replaced(args, file_name, temp_name) {
        Some(replaced) => Some(
            promoted(replaced, paths.build_path@) + linker_arguments(
                paths,
                version_specific,
                libunwind_dir,
                strip,
            ),
        ),
        None => None,
    }
}

/// Rewrites the command of an entry unit so that it builds the shared
/// library of a package. Fails when no argument names the unit's source
/// file.
pub fn primary_command(
    args: &Vec<String>,
    file_name: &str,
    temp_name: &str,
    unit_name: &str,
    paths: &HookPaths,
    version_specific: &str,
    libunwind_dir: &str,
    strip: bool,
) -> (res: Result<Vec<String>, BuildError>)
    ensures
        match res {
            Ok(command) => primary_arguments(
                texts(args@),
                file_name@,
                temp_name@,
                *paths,
                version_specific@,
                libunwind_dir@,
                strip,
            ) == Some(texts(command@)),
            Err(BuildError::SourceArgumentMissing { unit }) => unit@ == unit_name@
                && primary_arguments(
                texts(args@),
                file_name@,
                temp_name@,
                *paths,
                version_specific@,
                libunwind_dir@,
                strip,
            ) is None,
            Err(_) => false,
        },
{
    match replace_source_argument(args, file_name, temp_name, unit_name) {
        Ok(replaced) => {
            let mut command = promote_crate_type(&replaced, paths.build_path.as_str());
            let link = linker_args(paths, version_specific, libunwind_dir, strip);
            proof {
                lemma_texts_add(command@, link@);
            }
            push_strings(&mut command, &link);
            Ok(command)
        },
        Err(error) => Err(error),
    }
}

/// The command that asks the compiler for the names of the files that
/// `command` produces.
pub fn file_names_query(command: &Vec<String>) -> (res: Vec<String>)
    ensures
        texts(res@) == texts(command@) + seq!["--print"@, "file-names"@],
{
    let mut res = copy_strings(command);
    res.push("--print".to_owned());
    res.push("file-names".to_owned());
    proof {
        assert(texts(res@) =~= texts(command@) + seq!["--print"@, "file-names"@]);
    }
    res
}

/// The file name of the shared library that packages hold for a unit.
pub open spec fn library_file_name(unit_name: Seq<char>) -> Seq<char> {
    "lib"@ + unit_name + ".so"@
}

/// The record of the shared library that the compiler built for an entry
/// unit. `file_names_output` is what the compiler printed when asked for
/// the names of the files it produces; its first line names the library.
pub fn primary_library(
    abi: AndroidBuildTarget,
    build_path: &str,
    unit_name: &str,
    file_names_output: &str,
) -> (res: Result<SharedLibrary, BuildError>)
    ensures
        match res {
            Ok(library) => lines(file_names_output@).len() > 0 && library.abi == abi
                && library.path@ == joined_path(build_path@, lines(file_names_output@)[0])
                && library.filename@ == library_file_name(unit_name@),
            Err(BuildError::ArtifactNameMissing { unit }) => unit@ == unit_name@ && lines(
                file_names_output@,
            ).len() == 0,
            Err(_) => false,
        },
{
    let all = split_lines(&chars_of(file_names_output));
    if all.len() == 0 {
        return Err(BuildError::ArtifactNameMissing { unit: unit_name.to_owned() });
    }
    assert(rows(all@)[0] == all@[0]@);
    let first = string_of(&all[0]);
    Ok(
        SharedLibrary {
            abi,
            path: join(build_path, first.as_str()),
            filename: concat3("lib", unit_name, ".so"),
        },
    )
}

/// The library that a line of the introspection tool's output names as
/// needed, if it names one: what stands between the last `Shared library: [`
/// and the next `]`.
pub open spec fn needed_name(line: Seq<char>) -> Option<Seq<char>> {
    if contains(line, "(NEEDED)"@) {
        Some(before_first(after_last(line, "Shared library: ["@), "]"@))
    } else {
        None
    }
}

/// The libraries that `lines` name as needed, in the order of the lines.
pub open spec fn needed_in(lines: Seq<Seq<char>>) -> Seq<Seq<char>>
    decreases lines.len(),
{
    if lines.len() == 0 {
        seq![]
    } else {
        needed_in(lines.drop_last()) + match needed_name(lines.last()) {
            Some(name) => seq![name],
            None => seq![],
        }
    }
}

/// Reads the needed libraries from the dynamic section that the
/// introspection tool printed.
pub fn parse_needed_dylibs(readelf_output: &str) -> (res: Vec<String>)
    ensures
        texts(res@) == needed_in(lines(readelf_output@)),
{
    let all = split_lines(&chars_of(readelf_output));
    let tag = chars_of("(NEEDED)");
    let opening = chars_of("Shared library: [");
    let closing = chars_of("]");
    let mut res: Vec<String> = Vec::new();
    proof {
        assert(rows(all@).take(0) =~= seq![]);
        assert(texts(res@) =~= seq![]);
    }
    let mut i: usize = 0;
    while i < all.len()
        invariant
            i <= all@.len(),
            tag@ == "(NEEDED)"@,
            opening@ == "Shared library: ["@,
            closing@ == "]"@,
            texts(res@) == needed_in(rows(all@).take(i as int)),
        decreases all@.len() - i,
    {
        proof {
            assert(rows(all@).take(i + 1).drop_last() =~= rows(all@).take(i as int));
            assert(rows(all@).take(i + 1).last() == all@[i as int]@);
        }
        if contains_text(&all[i], &tag) {
            let tail = text_after_last(&all[i], &opening);
            let name = string_of(&text_before_first(&tail, &closing));
            proof {
                lemma_texts_push(res@, name);
                assert(texts(res@).push(name@) =~= texts(res@) + seq![name@]);
            }
            res.push(name);
        } else {
            proof {
                assert(texts(res@) + Seq::<Seq<char>>::empty() =~= texts(res@));
            }
        }
        i += 1;
    }
    proof {
        assert(rows(all@).take(all@.len() as int) =~= rows(all@));
    }
    res
}

/// The file names among `names` that end in `.so`, in their order.
pub open spec fn dylibs_in(names: Seq<Seq<char>>) -> Seq<Seq<char>>
    decreases names.len(),
{
    if names.len() == 0 {
        seq![]
    } else {
        dylibs_in(names.drop_last()) + if ends_with(names.last(), ".so"@) {
            seq![names.last()]
        } else {
            seq![]
        }
    }
}

/// Picks the shared libraries among the file names of the platform's
/// library directory.
pub fn select_dylibs(file_names: &Vec<String>) -> (res: Vec<String>)
    ensures
        texts(res@) == dylibs_in(texts(file_names@)),
{
    let mut res: Vec<String> = Vec::new();
    proof {
        assert(texts(file_names@).take(0) =~= seq![]);
        assert(texts(res@) =~= seq![]);
    }
    let mut i: usize = 0;
    while i < file_names.len()
        invariant
            i <= file_names@.len(),
            texts(res@) == dylibs_in(texts(file_names@).take(i as int)),
        decreases file_names@.len() - i,
    {
        proof {
            assert(texts(file_names@).take(i + 1).drop_last() =~= texts(file_names@).take(
                i as int,
            ));
            assert(texts(file_names@).take(i + 1).last() == file_names@[i as int]@);
        }
        if has_suffix(file_names[i].as_str(), ".so") {
            let name = file_names[i].clone();
            proof {
                lemma_texts_push(res@, name);
                assert(texts(res@).push(name@) =~= texts(res@) + seq![name@]);
            }
            res.push(name);
        } else {
            proof {
                assert(texts(res@) + Seq::<Seq<char>>::empty() =~= texts(res@));
            }
        }
        i += 1;
    }
    proof {
        assert(texts(file_names@).take(file_names@.len() as int) =~= texts(file_names@));
    }
    res
}

/// Argument `i` is the value of a `-L` flag: the argument before it is `-L`
/// and is not itself the value of one.
pub open spec fn follows_search_flag(args: Seq<Seq<char>>, i: int) -> bool
    decreases i,
{
    if i <= 0 || i > args.len() {
        false
    } else {
        !follows_search_flag(args, i - 1) && args[i - 1] == "-L"@
    }
}

/// The search path that argument `i` gives, if it gives one: the value of a
/// `-L` flag that starts with `native=` or `dependency=`, without what
/// stands up to its last `=`.
pub open spec fn search_path_at(args: Seq<Seq<char>>, i: int) -> Option<Seq<char>> {
    if follows_search_flag(args, i) && (starts_with(args[i], "native="@) || starts_with(
        args[i],
        "dependency="@,
    )) {
        Some(after_last(args[i], "="@))
    } else {
        None
    }
}

/// The search paths that the first `n` arguments give, in their order.
pub open spec fn search_paths_in(args: Seq<Seq<char>>, n: int) -> Seq<Seq<char>>
    decreases n,
{
    if n <= 0 {
        seq![]
    } else {
        search_paths_in(args, n - 1) + match search_path_at(args, n - 1) {
            Some(path) => seq![path],
            None => seq![],
        }
    }
}

/// Get native library search paths from the arguments of a compile command.
pub fn libs_search_paths_from_args(args: &Vec<String>) -> (res: Vec<String>)
    ensures
        texts(res@) == search_paths_in(texts(args@), args@.len() as int),
{
    let separator = chars_of("=");
    let mut res: Vec<String> = Vec::new();
    let mut is_search_path = false;
    proof {
        assert(texts(res@) =~= seq![]);
    }
    let mut i: usize = 0;
    while i < args.len()
        invariant
            i <= args@.len(),
            separator@ == "="@,
            is_search_path == follows_search_flag(texts(args@), i as int),
            texts(res@) == search_paths_in(texts(args@), i as int),
        decreases args@.len() - i,
    {
        let ghost before = texts(res@);
        assert(texts(args@)[i as int] == args@[i as int]@);
        if is_search_path {
            is_search_path = false;
            if has_prefix(args[i].as_str(), "native=") || has_prefix(
                args[i].as_str(),
                "dependency=",
            ) {
                let path = string_of(&text_after_last(&chars_of(args[i].as_str()), &separator));
                proof {
                    lemma_texts_push(res@, path);
                    assert(texts(res@).push(path@) =~= texts(res@) + seq![path@]);
                }
                res.push(path);
            } else {
                proof {
                    assert(before + Seq::<Seq<char>>::empty() =~= before);
                }
            }
        } else {
            if same_str(args[i].as_str(), "-L") {
                is_search_path = true;
            }
            proof {
                assert(before + Seq::<Seq<char>>::empty() =~= before);
            }
        }
        i += 1;
    }
    res
}

/// Where the resolver looks for libraries, in order: the search paths of
/// the compile command, the system libraries that are the same for every
/// platform version, the driver's directory of dependencies, and the
/// ambient search paths.
pub fn library_search_paths(
    command: &Vec<String>,
    paths: &HookPaths,
    ambient: &Vec<String>,
) -> (res: Vec<String>)
    ensures
        texts(res@) == search_paths_in(texts(command@), command@.len() as int) + seq![
            paths.version_independent_libraries_path@,
            paths.deps_dir@,
        ] + texts(ambient@),
{
    let mut res = libs_search_paths_from_args(command);
    let ghost from_command = res@;
    res.push(paths.version_independent_libraries_path.clone());
    res.push(paths.deps_dir.clone());
    let ghost fixed = res@;
    push_strings(&mut res, ambient);
    proof {
        lemma_texts_add(fixed, ambient@);
        assert(texts(fixed) =~= texts(from_command) + seq![
            paths.version_independent_libraries_path@,
            paths.deps_dir@,
        ]);
    }
    res
}

/// Resolves a native library using search paths: the result is the library's
/// place under the first search path where `is_file` finds a file.
pub fn find_library_path<P: Fn(&String) -> bool>(
    paths: &Vec<String>,
    library: &str,
    is_file: P,
) -> (res: Option<String>)
    requires
        forall|path: &String| is_file.requires((path,)),
    ensures
        match res {
            Some(found) => exists|k: int|
                0 <= k < paths@.len() && found@ == joined_path(
                    (#[trigger] paths@[k])@,
                    library@,
                ) && is_file.ensures((&found,), true) && forall|j: int|
                    0 <= j < k ==> probed_absent(
                        is_file,
                        joined_path((#[trigger] paths@[j])@, library@),
                    ),
            None => forall|j: int|
                0 <= j < paths@.len() ==> probed_absent(
                    is_file,
                    joined_path((#[trigger] paths@[j])@, library@),
                ),
        },
{
    let mut i: usize = 0;
    while i < paths.len()
        invariant
            i <= paths@.len(),
            forall|path: &String| is_file.requires((path,)),
            forall|j: int|
                0 <= j < i ==> probed_absent(
                    is_file,
                    joined_path((#[trigger] paths@[j])@, library@),
                ),
        decreases paths@.len() - i,
    {
        let candidate = join(paths[i].as_str(), library);
        if is_file(&candidate) {
            return Some(candidate);
        }
        assert(probed_absent(is_file, joined_path(paths@[i as int]@, library@)));
        i += 1;
    }
    None
}

/// The directory that holds what the build for one architecture produces.
pub fn build_target_directory(root_build_dir: &str, build_target: AndroidBuildTarget) -> (res:
    String)
    ensures
        res@ == joined_path(root_build_dir@, build_target.abi_text()),
{
    join(root_build_dir, build_target.android_abi())
}

/// The path of the generated toolchain file for the generator of build
/// files.
pub fn cmake_toolchain_path(build_target_dir: &str) -> (res: String)
    ensures
        res@ == joined_path(build_target_dir@, "cargo-apk.toolchain.cmake"@),
{
    join(build_target_dir, "cargo-apk.toolchain.cmake")
}

pub const CMAKE_PLATFORM: &'static str = "set(ANDROID_PLATFORM android-";

pub const CMAKE_ABI: &'static str = ")\nset(ANDROID_ABI ";

pub const CMAKE_C_TARGET: &'static str = ")\nstring(REPLACE \"--target=";

pub const CMAKE_C_FLAGS: &'static str =
    "\" \"\" CMAKE_C_FLAGS \"${CMAKE_C_FLAGS}\")\nstring(REPLACE \"--target=";

pub const CMAKE_CXX_FLAGS: &'static str =
    "\" \"\" CMAKE_CXX_FLAGS \"${CMAKE_CXX_FLAGS}\")\nunset(CMAKE_C_COMPILER CACHE)\nunset(CMAKE_CXX_COMPILER CACHE)\ninclude(\"";

pub const CMAKE_INCLUDE: &'static str = "/build/cmake/android.toolchain.cmake\")\n";

/// The generated toolchain file: it sets platform and ABI, removes the
/// compiler's own target from the flags, and includes the toolchain file
/// that the NDK provides. The NDK's path stands with forward slashes.
pub open spec fn cmake_toolchain_text(config: AndroidConfig, build_target: AndroidBuildTarget) -> Seq<
    char,
> {
    CMAKE_PLATFORM@ + decimal(config.min_sdk_version as nat) + CMAKE_ABI@
        + build_target.abi_text() + CMAKE_C_TARGET@ + build_target.rust_triple_text()
        + CMAKE_C_FLAGS@ + build_target.rust_triple_text() + CMAKE_CXX_FLAGS@ + replace_all(
        config.ndk_path@,
        "\\"@,
        "/"@,
    ) + CMAKE_INCLUDE@
}

/// Builds the contents of the generated toolchain file.
pub fn cmake_toolchain(config: &AndroidConfig, build_target: AndroidBuildTarget) -> (res: String)
    ensures
        res@ == cmake_toolchain_text(*config, build_target),
{
    let mut res = CMAKE_PLATFORM.to_owned();
    res.append(string_of(&decimal_of(config.min_sdk_version as u64)).as_str());
    res.append(CMAKE_ABI);
    res.append(build_target.android_abi());
    res.append(CMAKE_C_TARGET);
    res.append(build_target.rust_triple());
    res.append(CMAKE_C_FLAGS);
    res.append(build_target.rust_triple());
    res.append(CMAKE_CXX_FLAGS);
    res.append(replace(config.ndk_path.as_str(), "\\", "/").as_str());
    res.append(CMAKE_INCLUDE);
    res
}

/// The toolchain selection for one architecture, as variables of the
/// environment and their values.
pub open spec fn toolchain_variables(
    config: AndroidConfig,
    cmake_toolchain_path: Seq<char>,
    cc: Seq<char>,
    cxx: Seq<char>,
    ar: Seq<char>,
) -> Seq<(Seq<char>, Seq<char>)> {
    seq![
        ("CC"@, cc),
        ("CXX"@, cxx),
        ("AR"@, ar),
        ("CXXSTDLIB"@, "c++"@),
        ("CMAKE_TOOLCHAIN_FILE"@, cmake_toolchain_path),
        ("CMAKE_GENERATOR"@, "Unix Makefiles"@),
        ("CMAKE_MAKE_PROGRAM"@, make_path_text(config)),
    ]
}

/// Builds the toolchain selection for one architecture. Every architecture
/// gets all of these variables, so none is left over from the one before.
pub fn toolchain_environment(
    config: &AndroidConfig,
    cmake_toolchain_path: &str,
    cc: &str,
    cxx: &str,
    ar: &str,
) -> (res: Vec<(String, String)>)
    ensures
        pair_texts(res@) == toolchain_variables(*config, cmake_toolchain_path@, cc@, cxx@, ar@),
{
    let mut res: Vec<(String, String)> = Vec::new();
    res.push(("CC".to_owned(), cc.to_owned()));
    res.push(("CXX".to_owned(), cxx.to_owned()));
    res.push(("AR".to_owned(), ar.to_owned()));
    res.push(("CXXSTDLIB".to_owned(), "c++".to_owned()));
    res.push(("CMAKE_TOOLCHAIN_FILE".to_owned(), cmake_toolchain_path.to_owned()));
    res.push(("CMAKE_GENERATOR".to_owned(), "Unix Makefiles".to_owned()));
    res.push(("CMAKE_MAKE_PROGRAM".to_owned(), make_path(config)));
    proof {
        assert(pair_texts(res@) =~= toolchain_variables(
            *config,
            cmake_toolchain_path@,
            cc@,
            cxx@,
            ar@,
        ));
    }
    res
}

/// The command names the output kind `kind` at position `i`: the argument
/// there follows `--crate-type` and is `kind`.
pub open spec fn names_output_kind(args: Seq<Seq<char>>, i: int, kind: Seq<char>) -> bool {
    follows_flag(args, i, "--crate-type"@) && args[i] == kind
}

/// What the hook does to the output kind of a command that it runs. For an
/// entry unit in a normal build, every executable output kind becomes a
/// shared-library one. For every other unit and mode, every shared-library
/// output kind becomes a static-library one, every other argument stays as
/// it is, and a command without shared-library output stays as it is
/// altogether.
pub proof fn lemma_hook_rewrites_output_kind(
    kind: UnitKind,
    mode: CompileMode,
    args: Seq<Seq<char>>,
    build_path: Seq<char>,
)
    requires
        action_for(kind, mode) != HookAction::Skip,
    ensures
        kind.is_entry() && mode == CompileMode::Build ==> action_for(kind, mode)
            == HookAction::BuildSharedLibrary && promoted(args, build_path).len() == args.len()
            && forall|i: int|
            names_output_kind(args, i, "bin"@) ==> #[trigger] promoted(args, build_path)[i]
                == "cdylib"@,
        !(kind.is_entry() && mode == CompileMode::Build) ==> action_for(kind, mode)
            == HookAction::BuildDependency && demoted(args).len() == args.len() && (forall|i: int|
            names_output_kind(args, i, "cdylib"@) ==> #[trigger] demoted(args)[i] == "rlib"@)
            && (forall|i: int|
            0 <= i < args.len() && !names_output_kind(args, i, "cdylib"@) ==> #[trigger] demoted(
                args,
            )[i] == args[i]) && ((forall|i: int| !names_output_kind(args, i, "cdylib"@))
            ==> demoted(args) == args),
{
    if forall|i: int| !names_output_kind(args, i, "cdylib"@) {
        assert forall|i: int| 0 <= i < args.len() implies demoted(args)[i] == args[i] by {
            assert(!names_output_kind(args, i, "cdylib"@));
        }
        assert(demoted(args) =~= args);
    }
}

/// The whole command of an entry unit asks for a shared library wherever the
/// command with the temporary source asked for an executable, and what the
/// hook adds stands behind all arguments of that command.
pub proof fn lemma_primary_command_builds_shared_library(
    args: Seq<Seq<char>>,
    file_name: Seq<char>,
    temp_name: Seq<char>,
    paths: HookPaths,
    version_specific: Seq<char>,
    libunwind_dir: Seq<char>,
    strip: bool,
)
    requires
        primary_arguments(
            args,
            file_name,
            temp_name,
            paths,
            version_specific,
            libunwind_dir,
            strip,
        ) is Some,
    ensures
        ({
            let replaced = source_replaced(args, file_name, temp_name)->0;
            let command = primary_arguments(
                args,
                file_name,
                temp_name,
                paths,
                version_specific,
                libunwind_dir,
                strip,
            )->0;
            &&& replaced.len() == args.len()
            &&& command.len() == args.len() + linker_arguments(
                paths,
                version_specific,
                libunwind_dir,
                strip,
            ).len()
            &&& forall|i: int|
                names_output_kind(replaced, i, "bin"@) ==> #[trigger] command[i] == "cdylib"@
            &&& forall|i: int|
                0 <= i < linker_arguments(paths, version_specific, libunwind_dir, strip).len()
                    ==> #[trigger] command[args.len() + i] == linker_arguments(
                    paths,
                    version_specific,
                    libunwind_dir,
                    strip,
                )[i]
        }),
{
}

} // verus!
