//! The package assembler: the files, directories and tool invocations that
//! turn the shared libraries of a unit into an aligned, signed package.
//!
//! The assembler reads and runs nothing itself. It lays out the paths and
//! lists, stage by stage, the steps that its caller carries out in order.

use crate::config::AndroidConfig;
use crate::config::AndroidTargetConfig;
use crate::error::BuildError;
use crate::libraries::SharedLibrary;
use crate::manifest::build_manifest;
use crate::manifest::manifest_text;
use crate::paths::join;
use crate::paths::join_all;
use crate::paths::joined_all;
use crate::paths::joined_path;
use crate::paths::path_strip_prefix;
use crate::paths::strip_prefix;
use crate::preprocessor::TemplateError;
use crate::preprocessor::merged_templates;
use crate::preprocessor::preprocess_main_activity;
use crate::preprocessor::preprocessed;
use crate::target::CompilationUnit;
use crate::target::HostPlatform;
use crate::target::UnitKind;
use crate::text::after_last;
use crate::text::chars_of;
use crate::text::concat2;
use crate::text::concat3;
use crate::text::lemma_text_order_total;
use crate::text::lemma_text_order_transitive;
use crate::text::lemma_texts_push;
use crate::text::replace;
use crate::text::replace_all;
use crate::text::same_str;
use crate::text::split_on;
use crate::text::split_text;
use crate::text::stands_before;
use crate::text::string_of;
use crate::text::text_after_last;
use crate::text::text_before;
use crate::text::texts;
use crate::util::JavaFiles;
use crate::util::get_target_directory;
use crate::util::target_directory;
use vstd::prelude::*;

verus! {

/// The layout resource that every package holds.
pub const MAIN_LAYOUT: &'static str =
    "<?xml version=\"1.0\" encoding=\"utf-8\"?>\n        <LinearLayout xmlns:android=\"http://schemas.android.com/apk/res/android\"\n            android:orientation=\"vertical\"\n            android:layout_width=\"fill_parent\"\n            android:layout_height=\"fill_parent\"\n            >\n        </LinearLayout>\n        \n";

/// The lowest platform level that the merged bytecode runs on.
pub const DEX_MIN_API: &'static str = "26";

/// The password of the debug key store and of its key.
pub const DEBUG_KEY_PASSWORD: &'static str = "android";

/// The alias of the debug key.
pub const DEBUG_KEY_ALIAS: &'static str = "androidebugkey";

/// The invocation of an external tool.
#[derive(Debug)]
pub struct ToolCommand {
    pub program: String,
    pub args: Vec<String>,
    pub cwd: Option<String>,
}

/// The invocation of an external tool, as text.
pub struct CommandText {
    pub program: Seq<char>,
    pub args: Seq<Seq<char>>,
    pub cwd: Option<Seq<char>>,
}

impl View for ToolCommand {
    type V = CommandText;

    open spec fn view(&self) -> CommandText {
        CommandText {
            program: self.program@,
            args: texts(self.args@),
            cwd: match self.cwd {
                Some(dir) => Some(dir@),
                None => None,
            },
        }
    }
}

/// One step of the assembly of a package.
#[derive(Debug)]
pub enum Step {
    /// Create a directory and the directories above it.
    CreateDir { path: String },
    /// Remove a file, if it exists.
    RemoveFile { path: String },
    /// Write a file, after creating its directory.
    WriteFile { path: String, contents: String },
    /// Copy a file, after creating the directory of the copy.
    CopyFile { from: String, to: String },
    /// Run a tool and stop the assembly if it fails.
    Run { command: ToolCommand },
}

/// One step of the assembly of a package, as text.
pub enum StepText {
    CreateDir { path: Seq<char> },
    RemoveFile { path: Seq<char> },
    WriteFile { path: Seq<char>, contents: Seq<char> },
    CopyFile { from: Seq<char>, to: Seq<char> },
    Run { command: CommandText },
}

impl View for Step {
    type V = StepText;

    open spec fn view(&self) -> StepText {
        match *self {
            Step::CreateDir { path } => StepText::CreateDir { path: path@ },
            Step::RemoveFile { path } => StepText::RemoveFile { path: path@ },
            Step::WriteFile { path, contents } => StepText::WriteFile {
                path: path@,
                contents: contents@,
            },
            Step::CopyFile { from, to } => StepText::CopyFile { from: from@, to: to@ },
            Step::Run { command } => StepText::Run { command: command@ },
        }
    }
}

/// The steps of a list, as text.
pub open spec fn step_texts(steps: Seq<Step>) -> Seq<StepText> {
    steps.map_values(|s: Step| s@)
}

/// What the build of one package starts from.
#[derive(Debug)]
pub struct PackageContext {
    /// The unit that is packaged.
    pub unit: CompilationUnit,
    /// The directory that holds what the build produces.
    pub root_build_dir: String,
    /// The root of the package that provides the main activity.
    pub miniquad_root_path: String,
    /// The user's home directory, where the debug key store is kept.
    pub home_dir: String,
}

/// The paths and names that the assembly of one package uses.
#[derive(Debug)]
pub struct PackagePaths {
    pub target_directory: String,
    pub manifest_path: String,
    pub build_tools_path: String,
    pub aapt_path: String,
    pub d8_path: String,
    pub zipalign_path: String,
    pub apksigner_path: String,
    pub unaligned_apk_name: String,
    pub unaligned_apk_path: String,
    pub obj_dir: String,
    pub gen_dir: String,
    pub package_name: String,
    pub library_name: String,
    pub r_java_path: String,
    pub java_dir: String,
    pub main_activity_path: String,
    pub target_activity_path: String,
    pub quad_native_path: String,
    pub target_quad_native_path: String,
    pub res_dir: String,
    pub res_file: String,
    pub final_apk_dir: String,
    pub target_apk_directory: String,
    pub final_apk_path: String,
    pub android_directory: String,
    pub keystore_path: String,
}

/// The directory of the finished package of a unit: entry units directly in
/// `final_apk_dir`, example units under `examples`.
pub open spec fn apk_directory(final_apk_dir: Seq<char>, kind: UnitKind) -> Seq<char> {
    if kind == UnitKind::ExampleBin {
        joined_path(final_apk_dir, "examples"@)
    } else {
        final_apk_dir
    }
}

impl PackagePaths {
    /// These are the paths for the package of `context.unit`.
    pub open spec fn matches(
        self,
        config: AndroidConfig,
        target: AndroidTargetConfig,
        context: PackageContext,
    ) -> bool {
        let unit = context.unit;
        let java_root = joined_path(context.miniquad_root_path@, "java"@);
        &&& target_directory(context.root_build_dir@, unit) == Some(self.target_directory@)
        &&& self.manifest_path@ == joined_path(self.target_directory@, "AndroidManifest.xml"@)
        &&& self.build_tools_path@ == joined_path(
            joined_path(config.sdk_path@, "build-tools"@),
            config.build_tools_version@,
        )
        &&& self.aapt_path@ == joined_path(self.build_tools_path@, "aapt"@)
        &&& self.d8_path@ == joined_path(self.build_tools_path@, "d8"@)
        &&& self.zipalign_path@ == joined_path(self.build_tools_path@, "zipalign"@)
        &&& self.apksigner_path@ == joined_path(
            self.build_tools_path@,
            "apksigner"@ + config.host.bat_suffix_text(),
        )
        &&& self.unaligned_apk_name@ == unit.name@ + "_unaligned.apk"@
        &&& self.unaligned_apk_path@ == joined_path(
            self.target_directory@,
            self.unaligned_apk_name@,
        )
        &&& self.obj_dir@ == joined_path(joined_path(self.target_directory@, "build"@), "obj"@)
        &&& self.gen_dir@ == joined_path(joined_path(self.target_directory@, "build"@), "gen"@)
        &&& self.package_name@ == replace_all(target.package_name@, "-"@, "_"@)
        &&& self.library_name@ == after_last(target.package_name@, "."@)
        &&& self.r_java_path@ == joined_all(self.gen_dir@, split_on(self.package_name@, "."@))
        &&& self.java_dir@ == joined_all(
            self.target_directory@,
            split_on(self.package_name@, "."@),
        )
        &&& self.main_activity_path@ == joined_path(java_root, "MainActivity.java"@)
        &&& self.target_activity_path@ == joined_path(self.java_dir@, "MainActivity.java"@)
        &&& self.quad_native_path@ == joined_path(java_root, "QuadNative.java"@)
        &&& self.target_quad_native_path@ == joined_path(
            joined_path(self.target_directory@, "quad_native"@),
            "QuadNative.java"@,
        )
        &&& self.res_dir@ == joined_path(joined_path(self.target_directory@, "res"@), "layout"@)
        &&& self.res_file@ == joined_path(self.res_dir@, "main.xml"@)
        &&& self.final_apk_dir@ == joined_path(context.root_build_dir@, "apk"@)
        &&& self.target_apk_directory@ == apk_directory(self.final_apk_dir@, unit.kind)
        &&& self.final_apk_path@ == joined_path(
            self.target_apk_directory@,
            unit.name@ + ".apk"@,
        )
        &&& self.android_directory@ == joined_path(context.home_dir@, ".android"@)
        &&& self.keystore_path@ == joined_path(self.android_directory@, "debug.keystore"@)
    }
}

/// Lays out the paths for the package of a unit. Only entry units have a
/// package.
pub fn package_paths(
    config: &AndroidConfig,
    target_config: &AndroidTargetConfig,
    context: &PackageContext,
) -> (res: Option<PackagePaths>)
    ensures
        match res {
            Some(paths) => context.unit.kind.is_entry() && paths.matches(
                *config,
                *target_config,
                *context,
            ),
            None => !context.unit.kind.is_entry(),
        },
{
    let target_directory = match get_target_directory(
        context.root_build_dir.as_str(),
        &context.unit,
    ) {
        Some(dir) => dir,
        None => {
            return None;
        },
    };
    let name = context.unit.name.as_str();
    let dot = chars_of(".");
    let manifest_path = join(target_directory.as_str(), "AndroidManifest.xml");
    let build_tools = join(config.sdk_path.as_str(), "build-tools");
    let build_tools_path = join(build_tools.as_str(), config.build_tools_version.as_str());
    let aapt_path = join(build_tools_path.as_str(), "aapt");
    let d8_path = join(build_tools_path.as_str(), "d8");
    let zipalign_path = join(build_tools_path.as_str(), "zipalign");
    let apksigner_path = join(
        build_tools_path.as_str(),
        concat2("apksigner", config.host.bat_suffix()).as_str(),
    );
    let unaligned_apk_name = concat2(name, "_unaligned.apk");
    let unaligned_apk_path = join(target_directory.as_str(), unaligned_apk_name.as_str());
    let build = join(target_directory.as_str(), "build");
    let obj_dir = join(build.as_str(), "obj");
    let gen_dir = join(build.as_str(), "gen");
    let package_name = replace(target_config.package_name.as_str(), "-", "_");
    let library_name = string_of(
        &text_after_last(&chars_of(target_config.package_name.as_str()), &dot),
    );
    let parts = split_text(&chars_of(package_name.as_str()), &dot);
    let r_java_path = join_all(gen_dir.as_str(), &parts);
    let java_dir = join_all(target_directory.as_str(), &parts);
    let java_root = join(context.miniquad_root_path.as_str(), "java");
    let main_activity_path = join(java_root.as_str(), "MainActivity.java");
    let target_activity_path = join(java_dir.as_str(), "MainActivity.java");
    let quad_native_path = join(java_root.as_str(), "QuadNative.java");
    let quad_native = join(target_directory.as_str(), "quad_native");
    let target_quad_native_path = join(quad_native.as_str(), "QuadNative.java");
    let res = join(target_directory.as_str(), "res");
    let res_dir = join(res.as_str(), "layout");
    let res_file = join(res_dir.as_str(), "main.xml");
    let final_apk_dir = join(context.root_build_dir.as_str(), "apk");
    let target_apk_directory = match context.unit.kind {
        UnitKind::ExampleBin => join(final_apk_dir.as_str(), "examples"),
        _ => final_apk_dir.clone(),
    };
    let final_apk_path = join(target_apk_directory.as_str(), concat2(name, ".apk").as_str());
    let android_directory = join(context.home_dir.as_str(), ".android");
    let keystore_path = join(android_directory.as_str(), "debug.keystore");
    Some(
        PackagePaths {
            target_directory,
            manifest_path,
            build_tools_path,
            aapt_path,
            d8_path,
            zipalign_path,
            apksigner_path,
            unaligned_apk_name,
            unaligned_apk_path,
            obj_dir,
            gen_dir,
            package_name,
            library_name,
            r_java_path,
            java_dir,
            main_activity_path,
            target_activity_path,
            quad_native_path,
            target_quad_native_path,
            res_dir,
            res_file,
            final_apk_dir,
            target_apk_directory,
            final_apk_path,
            android_directory,
            keystore_path,
        },
    )
}

/// Appends the text `s` to the list `v`.
fn push_text(v: &mut Vec<String>, s: &str)
    ensures
        texts(final(v)@) == texts(old(v)@).push(s@),
{
    let text = s.to_owned();
    proof {
        lemma_texts_push(v@, text);
    }
    v.push(text);
}

/// Appends `step` to the list `steps`.
fn push_step(steps: &mut Vec<Step>, step: Step)
    ensures
        step_texts(final(steps)@) == step_texts(old(steps)@).push(step@),
{
    proof {
        assert(step_texts(steps@.push(step)) =~= step_texts(steps@).push(step@));
    }
    steps.push(step);
}

fn create_dir(path: &str) -> (res: Step)
    ensures
        res@ == (StepText::CreateDir { path: path@ }),
{
    Step::CreateDir { path: path.to_owned() }
}

fn remove_file(path: &str) -> (res: Step)
    ensures
        res@ == (StepText::RemoveFile { path: path@ }),
{
    Step::RemoveFile { path: path.to_owned() }
}

fn write_file(path: &str, contents: &str) -> (res: Step)
    ensures
        res@ == (StepText::WriteFile { path: path@, contents: contents@ }),
{
    Step::WriteFile { path: path.to_owned(), contents: contents.to_owned() }
}

fn copy_file(from: &str, to: &str) -> (res: Step)
    ensures
        res@ == (StepText::CopyFile { from: from@, to: to@ }),
{
    Step::CopyFile { from: from.to_owned(), to: to.to_owned() }
}

fn run(program: &str, args: Vec<String>, cwd: &str) -> (res: Step)
    ensures
        res@ == (StepText::Run {
            command: CommandText { program: program@, args: texts(args@), cwd: Some(cwd@) },
        }),
{
    Step::Run {
        command: ToolCommand { program: program.to_owned(), args, cwd: Some(cwd.to_owned()) },
    }
}

/// An extra source with the names of the package and of its library in
/// place of their tokens.
pub open spec fn renamed_source(
    source: Seq<char>,
    package_name: Seq<char>,
    library_name: Seq<char>,
) -> Seq<char> {
    replace_all(
        replace_all(source, "TARGET_PACKAGE_NAME"@, package_name),
        "LIBRARY_NAME"@,
        library_name,
    )
}

/// The step that puts an extra source into the package's directory: the
/// source's path inside its package, without the leading `java` directory,
/// is its place there. There is none for a source outside that directory.
pub open spec fn java_file_step(
    paths: PackagePaths,
    local_path: Seq<char>,
    contents: Seq<char>,
) -> Option<StepText> {
    match path_strip_prefix(local_path, "java/"@) {
        Some(rest) => Some(
            StepText::WriteFile {
                path: joined_path(paths.target_directory@, rest),
                contents: renamed_source(contents, paths.package_name@, paths.library_name@),
            },
        ),
        None => None,
    }
}

/// The steps for all extra sources, each given by its path inside its
/// package and its contents; none if one of them has no step.
pub open spec fn java_file_steps(paths: PackagePaths, sources: Seq<(String, String)>) -> Option<
    Seq<StepText>,
>
    decreases sources.len(),
{
    if sources.len() == 0 {
        Some(seq![])
    } else {
        match java_file_steps(paths, sources.drop_last()) {
            Some(before) => match java_file_step(paths, sources.last().0@, sources.last().1@) {
                Some(step) => Some(before.push(step)),
                None => None,
            },
            None => None,
        }
    }
}

/// The arguments of the resource tool's packaging run.
pub open spec fn aapt_package_arguments(
    config: AndroidConfig,
    target: AndroidTargetConfig,
    paths: PackagePaths,
) -> Seq<Seq<char>> {
    seq![
        "package"@,
        "-F"@,
        paths.unaligned_apk_name@,
        "-m"@,
        "-J"@,
        "build/gen"@,
        "-M"@,
        "AndroidManifest.xml"@,
        "-S"@,
        "res"@,
        "-I"@,
        config.android_jar_path@,
    ] + (match target.res_path {
        Some(res_path) => seq!["-S"@, res_path@],
        None => seq![],
    }) + (match target.assets_path {
        Some(assets_path) => seq!["-A"@, assets_path@],
        None => seq![],
    })
}

/// The first stage of the assembly: directories, manifest, the main
/// activity, the native bridge, the extra sources, the layout resource, and
/// the resource tool's packaging run.
pub open spec fn resource_plan(
    paths: PackagePaths,
    manifest: Seq<char>,
    main_activity: Seq<char>,
    java_steps: Seq<StepText>,
    aapt_arguments: Seq<Seq<char>>,
) -> Seq<StepText> {
    seq![
        StepText::CreateDir { path: paths.target_directory@ },
        StepText::WriteFile { path: paths.manifest_path@, contents: manifest },
        StepText::RemoveFile { path: paths.unaligned_apk_path@ },
        StepText::CreateDir { path: paths.obj_dir@ },
        StepText::CreateDir { path: paths.gen_dir@ },
        StepText::CreateDir { path: paths.java_dir@ },
        StepText::WriteFile { path: paths.target_activity_path@, contents: main_activity },
        StepText::CopyFile { from: paths.quad_native_path@, to: paths.target_quad_native_path@ },
    ] + java_steps + seq![
        StepText::CreateDir { path: paths.res_dir@ },
        StepText::WriteFile { path: paths.res_file@, contents: MAIN_LAYOUT@ },
        StepText::Run {
            command: CommandText {
                program: paths.aapt_path@,
                args: aapt_arguments,
                cwd: Some(paths.target_directory@),
            },
        },
    ]
}

/// Builds the steps that put the extra sources into the package's
/// directory. Fails on the first source that does not lie under the `java`
/// directory of its package.
pub fn plan_java_files(paths: &PackagePaths, sources: &Vec<(String, String)>) -> (res: Result<
    Vec<Step>,
    BuildError,
>)
    ensures
        match res {
            Ok(steps) => java_file_steps(*paths, sources@) == Some(step_texts(steps@)),
            Err(BuildError::JavaFileOutsideRoot { path }) => java_file_steps(*paths, sources@)
                is None && exists|i: int|
                0 <= i < sources@.len() && path@ == (#[trigger] sources@[i]).0@ && java_file_steps(
                    *paths,
                    sources@.take(i),
                ) is Some && java_file_step(*paths, sources@[i].0@, sources@[i].1@) is None,
            Err(_) => false,
        },
{
    let mut steps: Vec<Step> = Vec::new();
    proof {
        assert(sources@.take(0) =~= seq![]);
        assert(step_texts(steps@) =~= seq![]);
    }
    let mut i: usize = 0;
    while i < sources.len()
        invariant
            i <= sources@.len(),
            java_file_steps(*paths, sources@.take(i as int)) == Some(step_texts(steps@)),
        decreases sources@.len() - i,
    {
        proof {
            assert(sources@.take(i + 1).drop_last() =~= sources@.take(i as int));
            assert(sources@.take(i + 1).last() == sources@[i as int]);
        }
        match strip_prefix(sources[i].0.as_str(), "java/") {
            Some(rest) => {
                let target = join(paths.target_directory.as_str(), rest.as_str());
                let renamed = replace(
                    sources[i].1.as_str(),
                    "TARGET_PACKAGE_NAME",
                    paths.package_name.as_str(),
                );
                let renamed = replace(
                    renamed.as_str(),
                    "LIBRARY_NAME",
                    paths.library_name.as_str(),
                );
                push_step(&mut steps, write_file(target.as_str(), renamed.as_str()));
            },
            None => {
                proof {
                    lemma_java_steps_none_stays(*paths, sources@, i + 1);
                }
                return Err(BuildError::JavaFileOutsideRoot { path: sources[i].0.clone() });
            },
        }
        i += 1;
    }
    proof {
        assert(sources@.take(sources@.len() as int) =~= sources@);
    }
    Ok(steps)
}

/// Once a front part of the sources has no steps, all of them have none.
proof fn lemma_java_steps_none_stays(paths: PackagePaths, sources: Seq<(String, String)>, n: int)
    requires
        0 <= n <= sources.len(),
        java_file_steps(paths, sources.take(n)) is None,
    ensures
        java_file_steps(paths, sources) is None,
    decreases sources.len() - n,
{
    if n < sources.len() {
        assert(sources.take(n + 1).drop_last() =~= sources.take(n));
        lemma_java_steps_none_stays(paths, sources, n + 1);
    } else {
        assert(sources.take(n) =~= sources);
    }
}

/// Builds the arguments of the resource tool's packaging run.
pub fn aapt_package_args(
    config: &AndroidConfig,
    target_config: &AndroidTargetConfig,
    paths: &PackagePaths,
) -> (res: Vec<String>)
    ensures
        texts(res@) == aapt_package_arguments(*config, *target_config, *paths),
{
    let mut res: Vec<String> = Vec::new();
    proof {
        assert(texts(res@) =~= seq![]);
    }
    push_text(&mut res, "package");
    push_text(&mut res, "-F");
    push_text(&mut res, paths.unaligned_apk_name.as_str());
    push_text(&mut res, "-m");
    push_text(&mut res, "-J");
    push_text(&mut res, "build/gen");
    push_text(&mut res, "-M");
    push_text(&mut res, "AndroidManifest.xml");
    push_text(&mut res, "-S");
    push_text(&mut res, "res");
    push_text(&mut res, "-I");
    push_text(&mut res, config.android_jar_path.as_str());
    let ghost fixed = texts(res@);
    match &target_config.res_path {
        Some(res_path) => {
            push_text(&mut res, "-S");
            push_text(&mut res, res_path.as_str());
            assert(texts(res@) =~= fixed + seq!["-S"@, res_path@]);
        },
        None => {
            assert(texts(res@) =~= fixed + Seq::<Seq<char>>::empty());
        },
    }
    let ghost with_resources = texts(res@);
    match &target_config.assets_path {
        Some(assets_path) => {
            push_text(&mut res, "-A");
            push_text(&mut res, assets_path.as_str());
            assert(texts(res@) =~= with_resources + seq!["-A"@, assets_path@]);
        },
        None => {
            assert(texts(res@) =~= with_resources + Seq::<Seq<char>>::empty());
        },
    }
    proof {
        assert(fixed =~= seq![
            "package"@,
            "-F"@,
            paths.unaligned_apk_name@,
            "-m"@,
            "-J"@,
            "build/gen"@,
            "-M"@,
            "AndroidManifest.xml"@,
            "-S"@,
            "res"@,
            "-I"@,
            config.android_jar_path@,
        ]);
    }
    res
}

/// Lists the first stage of the assembly of a package. `main_activity_source`
/// is the main activity as its package provides it, `inject_sources` are the
/// fragments to inject, and `java_sources` are the extra sources, each with
/// its path inside its package and its contents. Fails on a malformed
/// fragment, else on an extra source outside the `java` directory.
pub fn resource_steps(
    config: &AndroidConfig,
    target_config: &AndroidTargetConfig,
    context: &PackageContext,
    java_files: &JavaFiles,
    paths: &PackagePaths,
    main_activity_source: &str,
    inject_sources: &Vec<String>,
    java_sources: &Vec<(String, String)>,
) -> (res: Result<Vec<Step>, BuildError>)
    ensures
        match res {
            Ok(steps) => merged_templates(texts(inject_sources@)) is Ok && java_file_steps(
                *paths,
                java_sources@,
            ) is Some && step_texts(steps@) == resource_plan(
                *paths,
                manifest_text(
                    *config,
                    *target_config,
                    context.unit.name@,
                    texts(java_files.java_services@),
                ),
                preprocessed(
                    main_activity_source@,
                    paths.package_name@,
                    paths.library_name@,
                    merged_templates(texts(inject_sources@))->Ok_0,
                ),
                java_file_steps(*paths, java_sources@)->0,
                aapt_package_arguments(*config, *target_config, *paths),
            ),
            Err(BuildError::TemplateMalformed { error }) => merged_templates(
                texts(inject_sources@),
            ) == Err::<crate::preprocessor::InjectText, TemplateError>(error),
            Err(BuildError::JavaFileOutsideRoot { path }) => merged_templates(
                texts(inject_sources@),
            ) is Ok && java_file_steps(*paths, java_sources@) is None,
            Err(_) => false,
        },
{
    let manifest = build_manifest(config, target_config, context.unit.name.as_str(), java_files);
    let main_activity = match preprocess_main_activity(
        main_activity_source,
        paths.package_name.as_str(),
        paths.library_name.as_str(),
        inject_sources,
    ) {
        Ok(source) => source,
        Err(error) => {
            return Err(BuildError::TemplateMalformed { error });
        },
    };
    let java_steps = match plan_java_files(paths, java_sources) {
        Ok(steps) => steps,
        Err(error) => {
            return Err(error);
        },
    };
    let mut steps: Vec<Step> = Vec::new();
    proof {
        assert(step_texts(steps@) =~= seq![]);
    }
    push_step(&mut steps, create_dir(paths.target_directory.as_str()));
    push_step(&mut steps, write_file(paths.manifest_path.as_str(), manifest.as_str()));
    push_step(&mut steps, remove_file(paths.unaligned_apk_path.as_str()));
    push_step(&mut steps, create_dir(paths.obj_dir.as_str()));
    push_step(&mut steps, create_dir(paths.gen_dir.as_str()));
    push_step(&mut steps, create_dir(paths.java_dir.as_str()));
    push_step(
        &mut steps,
        write_file(paths.target_activity_path.as_str(), main_activity.as_str()),
    );
    push_step(
        &mut steps,
        copy_file(paths.quad_native_path.as_str(), paths.target_quad_native_path.as_str()),
    );
    append_steps(&mut steps, java_steps);
    push_step(&mut steps, create_dir(paths.res_dir.as_str()));
    push_step(&mut steps, write_file(paths.res_file.as_str(), MAIN_LAYOUT));
    push_step(
        &mut steps,
        run(
            paths.aapt_path.as_str(),
            aapt_package_args(config, target_config, paths),
            paths.target_directory.as_str(),
        ),
    );
    proof {
        let plan = resource_plan(
            *paths,
            manifest@,
            main_activity@,
            java_file_steps(*paths, java_sources@)->0,
            aapt_package_arguments(*config, *target_config, *paths),
        );
        assert(step_texts(steps@) =~= plan);
    }
    Ok(steps)
}

/// Appends the steps of `more` to `steps`.
fn append_steps(steps: &mut Vec<Step>, more: Vec<Step>)
    ensures
        step_texts(final(steps)@) == step_texts(old(steps)@) + step_texts(more@),
{
    let mut more = more;
    let ghost all = more@;
    let ghost start = steps@;
    steps.append(&mut more);
    proof {
        assert(step_texts(start + all) =~= step_texts(start) + step_texts(all));
    }
}

/// The class path of the compiler: the platform's stub archive, then every
/// compile-time archive, with colons in between.
pub open spec fn classpath_text(android_jar_path: Seq<char>, jars: Seq<(String, String)>) -> Seq<
    char,
>
    decreases jars.len(),
{
    if jars.len() == 0 {
        android_jar_path
    } else {
        classpath_text(android_jar_path, jars.drop_last()) + ":"@ + jars.last().0@
    }
}

/// Builds the class path of the compiler.
pub fn classpath(config: &AndroidConfig, java_files: &JavaFiles) -> (res: String)
    ensures
        res@ == classpath_text(config.android_jar_path@, java_files.comptime_jar_files@),
{
    let jars = &java_files.comptime_jar_files;
    let mut res = config.android_jar_path.clone();
    proof {
        assert(jars@.take(0) =~= seq![]);
    }
    let mut i: usize = 0;
    while i < jars.len()
        invariant
            i <= jars@.len(),
            res@ == classpath_text(config.android_jar_path@, jars@.take(i as int)),
        decreases jars@.len() - i,
    {
        proof {
            assert(jars@.take(i + 1).drop_last() =~= jars@.take(i as int));
            assert(jars@.take(i + 1).last() == jars@[i as int]);
        }
        res.append(":");
        res.append(jars[i].0.as_str());
        i += 1;
    }
    proof {
        assert(jars@.take(jars@.len() as int) =~= jars@);
    }
    res
}

/// The paths of the extra sources as the compiler gets them: each without
/// the leading `java` directory; none if one lies outside it.
pub open spec fn compiled_sources(files: Seq<(String, String)>) -> Option<Seq<Seq<char>>>
    decreases files.len(),
{
    if files.len() == 0 {
        Some(seq![])
    } else {
        match compiled_sources(files.drop_last()) {
            Some(before) => match path_strip_prefix(files.last().1@, "java/"@) {
                Some(rest) => Some(before.push(rest)),
                None => None,
            },
            None => None,
        }
    }
}

/// The arguments of the compiler of the managed-language sources.
pub open spec fn javac_arguments(
    paths: PackagePaths,
    classpath: Seq<char>,
    rt_jar_path: Seq<char>,
    sources: Seq<Seq<char>>,
) -> Seq<Seq<char>> {
    seq![
        "-source"@,
        "1.7"@,
        "-target"@,
        "1.7"@,
        "-Xlint:deprecation"@,
        "-bootclasspath"@,
        rt_jar_path,
        "-classpath"@,
        classpath,
        "-d"@,
        "build/obj"@,
        "quad_native/QuadNative.java"@,
    ] + sources + seq![joined_path(paths.r_java_path@, "R.java"@), paths.target_activity_path@]
}

/// Lists the second stage of the assembly: the compilation of the main
/// activity, the native bridge, the generated resource class and the extra
/// sources. Fails on an extra source outside the `java` directory.
pub fn compile_steps(
    config: &AndroidConfig,
    java_files: &JavaFiles,
    paths: &PackagePaths,
    javac_path: &str,
    rt_jar_path: &str,
) -> (res: Result<Vec<Step>, BuildError>)
    ensures
        match res {
            Ok(steps) => compiled_sources(java_files.java_files@) is Some && step_texts(steps@)
                == seq![
                StepText::Run {
                    command: CommandText {
                        program: javac_path@,
                        args: javac_arguments(
                            *paths,
                            classpath_text(
                                config.android_jar_path@,
                                java_files.comptime_jar_files@,
                            ),
                            rt_jar_path@,
                            compiled_sources(java_files.java_files@)->0,
                        ),
                        cwd: Some(paths.target_directory@),
                    },
                },
            ],
            Err(BuildError::JavaFileOutsideRoot { path }) => compiled_sources(
                java_files.java_files@,
            ) is None,
            Err(_) => false,
        },
{
    let files = &java_files.java_files;
    let mut args: Vec<String> = Vec::new();
    proof {
        assert(texts(args@) =~= seq![]);
    }
    push_text(&mut args, "-source");
    push_text(&mut args, "1.7");
    push_text(&mut args, "-target");
    push_text(&mut args, "1.7");
    push_text(&mut args, "-Xlint:deprecation");
    push_text(&mut args, "-bootclasspath");
    push_text(&mut args, rt_jar_path);
    push_text(&mut args, "-classpath");
    push_text(&mut args, classpath(config, java_files).as_str());
    push_text(&mut args, "-d");
    push_text(&mut args, "build/obj");
    push_text(&mut args, "quad_native/QuadNative.java");
    let ghost head = texts(args@);
    let ghost mut sources: Seq<Seq<char>> = seq![];
    proof {
        assert(files@.take(0) =~= seq![]);
        assert(head + sources =~= head);
    }
    let mut i: usize = 0;
    while i < files.len()
        invariant
            i <= files@.len(),
            files@ == java_files.java_files@,
            compiled_sources(files@.take(i as int)) == Some(sources),
            texts(args@) == head + sources,
        decreases files@.len() - i,
    {
        proof {
            assert(files@.take(i + 1).drop_last() =~= files@.take(i as int));
            assert(files@.take(i + 1).last() == files@[i as int]);
        }
        match strip_prefix(files[i].1.as_str(), "java/") {
            Some(rest) => {
                push_text(&mut args, rest.as_str());
                proof {
                    assert(head + sources.push(rest@) =~= (head + sources).push(rest@));
                    sources = sources.push(rest@);
                }
            },
            None => {
                proof {
                    lemma_compiled_none_stays(files@, i + 1);
                }
                return Err(BuildError::JavaFileOutsideRoot { path: files[i].1.clone() });
            },
        }
        i += 1;
    }
    proof {
        assert(files@.take(files@.len() as int) =~= files@);
    }
    push_text(&mut args, join(paths.r_java_path.as_str(), "R.java").as_str());
    push_text(&mut args, paths.target_activity_path.as_str());
    proof {
        assert(texts(args@) =~= javac_arguments(
            *paths,
            classpath_text(config.android_jar_path@, java_files.comptime_jar_files@),
            rt_jar_path@,
            sources,
        ));
    }
    let mut steps: Vec<Step> = Vec::new();
    proof {
        assert(step_texts(steps@) =~= seq![]);
    }
    let step = run(javac_path, args, paths.target_directory.as_str());
    let ghost expected = step@;
    push_step(&mut steps, step);
    proof {
        assert(step_texts(steps@) =~= seq![expected]);
    }
    Ok(steps)
}

/// Once a front part of the sources has a source outside the `java`
/// directory, so has the whole list.
proof fn lemma_compiled_none_stays(files: Seq<(String, String)>, n: int)
    requires
        0 <= n <= files.len(),
        compiled_sources(files.take(n)) is None,
    ensures
        compiled_sources(files) is None,
    decreases files.len() - n,
{
    if n < files.len() {
        assert(files.take(n + 1).drop_last() =~= files.take(n));
        lemma_compiled_none_stays(files, n + 1);
    } else {
        assert(files.take(n) =~= files);
    }
}

/// The first texts of a list of pairs.
pub open spec fn first_texts(pairs: Seq<(String, String)>) -> Seq<Seq<char>> {
    pairs.map_values(|pair: (String, String)| pair.0@)
}

/// The arguments of the bytecode merge: the class files, the runtime
/// archives, no desugaring, and the lowest platform level.
pub open spec fn d8_arguments(class_files: Seq<Seq<char>>, runtime_jars: Seq<(String, String)>) -> Seq<
    Seq<char>,
> {
    class_files + first_texts(runtime_jars) + seq![
        "--no-desugaring"@,
        "--min-api"@,
        DEX_MIN_API@,
    ]
}

/// Where a shared library stands inside the package: under `lib`, then the
/// architecture's tag, with forward slashes on every host.
pub open spec fn library_entry(library: SharedLibrary) -> Seq<char> {
    "lib/"@ + library.abi.abi_text() + "/"@ + library.filename@
}

/// The steps that put one shared library into the package.
pub open spec fn library_steps(paths: PackagePaths, library: SharedLibrary) -> Seq<StepText> {
    seq![
        StepText::CopyFile {
            from: library.path@,
            to: joined_path(paths.target_directory@, library_entry(library)),
        },
        StepText::Run {
            command: CommandText {
                program: paths.aapt_path@,
                args: seq!["add"@, paths.unaligned_apk_name@, library_entry(library)],
                cwd: Some(paths.target_directory@),
            },
        },
    ]
}

/// The steps that put all of `libraries` into the package, in their order.
pub open spec fn all_library_steps(paths: PackagePaths, libraries: Seq<SharedLibrary>) -> Seq<
    StepText,
>
    decreases libraries.len(),
{
    if libraries.len() == 0 {
        seq![]
    } else {
        all_library_steps(paths, libraries.drop_last()) + library_steps(paths, libraries.last())
    }
}

/// The third stage of the assembly: the bytecode merge, the merged bytecode
/// and every shared library added to the package, and the alignment of the
/// package into its final place.
pub open spec fn assembly_plan(
    paths: PackagePaths,
    class_files: Seq<Seq<char>>,
    runtime_jars: Seq<(String, String)>,
    libraries: Seq<SharedLibrary>,
) -> Seq<StepText> {
    seq![
        StepText::Run {
            command: CommandText {
                program: paths.d8_path@,
                args: d8_arguments(class_files, runtime_jars),
                cwd: Some(paths.target_directory@),
            },
        },
        StepText::Run {
            command: CommandText {
                program: paths.aapt_path@,
                args: seq!["add"@, paths.unaligned_apk_name@, "classes.dex"@],
                cwd: Some(paths.target_directory@),
            },
        },
    ] + all_library_steps(paths, libraries) + seq![
        StepText::CreateDir { path: paths.target_apk_directory@ },
        StepText::Run {
            command: CommandText {
                program: paths.zipalign_path@,
                args: seq![
                    "-f"@,
                    "-v"@,
                    "4"@,
                    paths.unaligned_apk_name@,
                    paths.final_apk_path@,
                ],
                cwd: Some(paths.target_directory@),
            },
        },
        StepText::CreateDir { path: paths.android_directory@ },
    ]
}

/// Builds the place of a shared library inside the package.
pub fn library_entry_path(library: &SharedLibrary) -> (res: String)
    ensures
        res@ == library_entry(*library),
{
    let mut res = concat3("lib/", library.abi.android_abi(), "/");
    res.append(library.filename.as_str());
    res
}

/// Lists the third stage of the assembly. `class_files` are the class files
/// that the compilation left in the package's directory.
pub fn assemble_steps(
    java_files: &JavaFiles,
    paths: &PackagePaths,
    libraries: &Vec<SharedLibrary>,
    class_files: &Vec<String>,
) -> (res: Vec<Step>)
    ensures
        step_texts(res@) == assembly_plan(
            *paths,
            texts(class_files@),
            java_files.runtime_jar_files@,
            libraries@,
        ),
{
    let cwd = paths.target_directory.as_str();
    let jars = &java_files.runtime_jar_files;
    let mut d8_args: Vec<String> = Vec::new();
    proof {
        assert(texts(d8_args@) =~= seq![]);
    }
    let mut i: usize = 0;
    while i < class_files.len()
        invariant
            i <= class_files@.len(),
            texts(d8_args@) == texts(class_files@).take(i as int),
        decreases class_files@.len() - i,
    {
        push_text(&mut d8_args, class_files[i].as_str());
        proof {
            assert(texts(class_files@).take(i as int).push(class_files@[i as int]@) =~= texts(
                class_files@,
            ).take(i + 1));
        }
        i += 1;
    }
    proof {
        assert(texts(class_files@).take(class_files@.len() as int) =~= texts(class_files@));
    }
    let mut k: usize = 0;
    while k < jars.len()
        invariant
            k <= jars@.len(),
            texts(d8_args@) == texts(class_files@) + first_texts(jars@).take(k as int),
        decreases jars@.len() - k,
    {
        push_text(&mut d8_args, jars[k].0.as_str());
        proof {
            assert((texts(class_files@) + first_texts(jars@).take(k as int)).push(
                jars@[k as int].0@,
            ) =~= texts(class_files@) + first_texts(jars@).take(k + 1));
        }
        k += 1;
    }
    proof {
        assert(first_texts(jars@).take(jars@.len() as int) =~= first_texts(jars@));
    }
    push_text(&mut d8_args, "--no-desugaring");
    push_text(&mut d8_args, "--min-api");
    push_text(&mut d8_args, DEX_MIN_API);
    proof {
        assert(texts(d8_args@) =~= d8_arguments(texts(class_files@), jars@));
    }
    let mut add_dex: Vec<String> = Vec::new();
    push_text(&mut add_dex, "add");
    push_text(&mut add_dex, paths.unaligned_apk_name.as_str());
    push_text(&mut add_dex, "classes.dex");
    proof {
        assert(texts(add_dex@) =~= seq!["add"@, paths.unaligned_apk_name@, "classes.dex"@]);
    }
    let mut steps: Vec<Step> = Vec::new();
    push_step(&mut steps, run(paths.d8_path.as_str(), d8_args, cwd));
    push_step(&mut steps, run(paths.aapt_path.as_str(), add_dex, cwd));
    let ghost head = step_texts(steps@);
    proof {
        assert(libraries@.take(0) =~= seq![]);
        assert(head + all_library_steps(*paths, libraries@.take(0)) =~= head);
    }
    let mut n: usize = 0;
    while n < libraries.len()
        invariant
            n <= libraries@.len(),
            cwd@ == paths.target_directory@,
            step_texts(steps@) == head + all_library_steps(*paths, libraries@.take(n as int)),
        decreases libraries@.len() - n,
    {
        proof {
            assert(libraries@.take(n + 1).drop_last() =~= libraries@.take(n as int));
            assert(libraries@.take(n + 1).last() == libraries@[n as int]);
        }
        let ghost before = step_texts(steps@);
        let entry = library_entry_path(&libraries[n]);
        let place = join(cwd, entry.as_str());
        let mut add: Vec<String> = Vec::new();
        push_text(&mut add, "add");
        push_text(&mut add, paths.unaligned_apk_name.as_str());
        push_text(&mut add, entry.as_str());
        proof {
            assert(texts(add@) =~= seq!["add"@, paths.unaligned_apk_name@, entry@]);
        }
        push_step(&mut steps, copy_file(libraries[n].path.as_str(), place.as_str()));
        push_step(&mut steps, run(paths.aapt_path.as_str(), add, cwd));
        proof {
            assert(step_texts(steps@) =~= before + library_steps(*paths, libraries@[n as int]));
            assert(step_texts(steps@) =~= head + all_library_steps(
                *paths,
                libraries@.take(n + 1),
            ));
        }
        n += 1;
    }
    proof {
        assert(libraries@.take(libraries@.len() as int) =~= libraries@);
    }
    let mut align: Vec<String> = Vec::new();
    push_text(&mut align, "-f");
    push_text(&mut align, "-v");
    push_text(&mut align, "4");
    push_text(&mut align, paths.unaligned_apk_name.as_str());
    push_text(&mut align, paths.final_apk_path.as_str());
    proof {
        assert(texts(align@) =~= seq![
            "-f"@,
            "-v"@,
            "4"@,
            paths.unaligned_apk_name@,
            paths.final_apk_path@,
        ]);
    }
    push_step(&mut steps, create_dir(paths.target_apk_directory.as_str()));
    push_step(&mut steps, run(paths.zipalign_path.as_str(), align, cwd));
    push_step(&mut steps, create_dir(paths.android_directory.as_str()));
    proof {
        assert(step_texts(steps@) =~= assembly_plan(
            *paths,
            texts(class_files@),
            jars@,
            libraries@,
        ));
    }
    steps
}

/// The invocation of a script: on Windows through the command interpreter,
/// elsewhere directly.
pub open spec fn script_command(host: HostPlatform, script: Seq<char>, args: Seq<Seq<char>>) -> (
    Seq<char>,
    Seq<Seq<char>>,
) {
    if host.is_windows() {
        ("cmd"@, seq!["/C"@, script] + args)
    } else {
        (script, args)
    }
}

/// Returns the command that runs the script `cmd`. Uses the command
/// interpreter on Windows in order to allow execution of batch files.
pub fn script_process(host: HostPlatform, cmd: &str) -> (res: ToolCommand)
    ensures
        res@.program == script_command(host, cmd@, seq![]).0,
        res@.args == script_command(host, cmd@, seq![]).1,
        res@.cwd is None,
{
    let mut args: Vec<String> = Vec::new();
    proof {
        assert(texts(args@) =~= seq![]);
    }
    if host.windows() {
        push_text(&mut args, "/C");
        push_text(&mut args, cmd);
        proof {
            assert(texts(args@) =~= seq!["/C"@, cmd@] + Seq::<Seq<char>>::empty());
        }
        ToolCommand { program: "cmd".to_owned(), args, cwd: None }
    } else {
        ToolCommand { program: cmd.to_owned(), args, cwd: None }
    }
}

/// The arguments that make the key-generation tool write the debug key
/// store.
pub open spec fn keytool_arguments(keystore_path: Seq<char>) -> Seq<Seq<char>> {
    seq![
        "-genkey"@,
        "-v"@,
        "-keystore"@,
        keystore_path,
        "-storepass"@,
        DEBUG_KEY_PASSWORD@,
        "-alias"@,
        DEBUG_KEY_ALIAS@,
        "-keypass"@,
        DEBUG_KEY_PASSWORD@,
        "-dname"@,
        "CN=Android Debug,O=Android,C=US"@,
        "-keyalg"@,
        "RSA"@,
        "-keysize"@,
        "2048"@,
        "-validity"@,
        "10000"@,
    ]
}

/// The arguments that make the signing tool sign the package with the debug
/// key.
pub open spec fn apksigner_arguments(paths: PackagePaths) -> Seq<Seq<char>> {
    seq![
        "sign"@,
        "--ks"@,
        paths.keystore_path@,
        "--ks-pass"@,
        "pass:"@ + DEBUG_KEY_PASSWORD@,
        paths.final_apk_path@,
    ]
}

/// The last stage of the assembly: the debug key store is generated if
/// `keytool` names the tool to do so, and the package is signed if `sign`.
pub open spec fn signing_plan(
    host: HostPlatform,
    paths: PackagePaths,
    root_build_dir: Seq<char>,
    keytool: Option<Seq<char>>,
    sign: bool,
) -> Seq<StepText> {
    (match keytool {
        Some(program) => seq![
            StepText::Run {
                command: CommandText {
                    program,
                    args: keytool_arguments(paths.keystore_path@),
                    cwd: Some(root_build_dir),
                },
            },
        ],
        None => seq![],
    }) + (if sign {
        seq![
            StepText::Run {
                command: CommandText {
                    program: script_command(
                        host,
                        paths.apksigner_path@,
                        apksigner_arguments(paths),
                    ).0,
                    args: script_command(host, paths.apksigner_path@, apksigner_arguments(paths)).1,
                    cwd: Some(paths.target_directory@),
                },
            },
        ]
    } else {
        seq![]
    })
}

/// Lists the last stage of the assembly. The caller passes the path of the
/// key-generation tool when the debug key store does not exist yet, and
/// nothing when it does.
pub fn sign_steps(
    host: HostPlatform,
    paths: &PackagePaths,
    root_build_dir: &str,
    keytool: Option<&str>,
    sign: bool,
) -> (res: Vec<Step>)
    ensures
        step_texts(res@) == signing_plan(
            host,
            *paths,
            root_build_dir@,
            match keytool {
                Some(program) => Some(program@),
                None => None,
            },
            sign,
        ),
{
    let mut steps: Vec<Step> = Vec::new();
    proof {
        assert(step_texts(steps@) =~= seq![]);
    }
    match keytool {
        Some(program) => {
            let mut args: Vec<String> = Vec::new();
            proof {
                assert(texts(args@) =~= seq![]);
            }
            push_text(&mut args, "-genkey");
            push_text(&mut args, "-v");
            push_text(&mut args, "-keystore");
            push_text(&mut args, paths.keystore_path.as_str());
            push_text(&mut args, "-storepass");
            push_text(&mut args, DEBUG_KEY_PASSWORD);
            push_text(&mut args, "-alias");
            push_text(&mut args, DEBUG_KEY_ALIAS);
            push_text(&mut args, "-keypass");
            push_text(&mut args, DEBUG_KEY_PASSWORD);
            push_text(&mut args, "-dname");
            push_text(&mut args, "CN=Android Debug,O=Android,C=US");
            push_text(&mut args, "-keyalg");
            push_text(&mut args, "RSA");
            push_text(&mut args, "-keysize");
            push_text(&mut args, "2048");
            push_text(&mut args, "-validity");
            push_text(&mut args, "10000");
            proof {
                assert(texts(args@) =~= keytool_arguments(paths.keystore_path@));
            }
            push_step(&mut steps, run(program, args, root_build_dir));
        },
        None => {},
    }
    if sign {
        let mut command = script_process(host, paths.apksigner_path.as_str());
        let ghost lead = texts(command.args@);
        push_text(&mut command.args, "sign");
        push_text(&mut command.args, "--ks");
        push_text(&mut command.args, paths.keystore_path.as_str());
        push_text(&mut command.args, "--ks-pass");
        push_text(&mut command.args, concat2("pass:", DEBUG_KEY_PASSWORD).as_str());
        push_text(&mut command.args, paths.final_apk_path.as_str());
        proof {
            assert(texts(command.args@) =~= lead + apksigner_arguments(*paths));
            assert(texts(command.args@) =~= script_command(
                host,
                paths.apksigner_path@,
                apksigner_arguments(*paths),
            ).1);
        }
        command.cwd = Some(paths.target_directory.clone());
        push_step(&mut steps, Step::Run { command });
    }
    proof {
        assert(step_texts(steps@) =~= signing_plan(
            host,
            *paths,
            root_build_dir@,
            match keytool {
                Some(program) => Some(program@),
                None => None,
            },
            sign,
        ));
    }
    steps
}

/// The finished package of one unit.
#[derive(Debug)]
pub struct ApkEntry {
    pub kind: UnitKind,
    pub name: String,
    pub path: String,
}

/// Mapping from unit kind and unit name to the built package. The entries
/// stand in the order of the units: by kind, then by name.
#[derive(Debug)]
pub struct BuildResult {
    pub target_to_apk_map: Vec<ApkEntry>,
}

/// The place of a kind in the order of packages: application entries
/// first, then example entries, then every other unit.
pub open spec fn kind_rank(kind: UnitKind) -> int {
    match kind {
        UnitKind::Bin => 0,
        UnitKind::ExampleBin => 1,
        UnitKind::Other => 2,
    }
}

/// The unit of `kind` and `name` stands before the unit of `other_kind` and
/// `other_name`: the kind decides, and between units of one kind the name,
/// in the order of strings.
pub open spec fn unit_before(
    kind: UnitKind,
    name: Seq<char>,
    other_kind: UnitKind,
    other_name: Seq<char>,
) -> bool {
    kind_rank(kind) < kind_rank(other_kind) || (kind == other_kind && text_before(
        name,
        other_name,
    ))
}

impl ApkEntry {
    /// The unit of this entry stands before the unit of `other`.
    pub open spec fn before(self, other: ApkEntry) -> bool {
        unit_before(self.kind, self.name@, other.kind, other.name@)
    }

    /// Both entries are for the same unit.
    pub open spec fn same_unit(self, other: ApkEntry) -> bool {
        self.kind == other.kind && self.name@ == other.name@
    }

    /// Whether the unit of this entry stands before the unit of `other`.
    pub fn is_before(&self, other: &ApkEntry) -> (res: bool)
        ensures
            res == self.before(*other),
    {
        let rank = rank_of(self.kind);
        let other_rank = rank_of(other.kind);
        if rank != other_rank {
            rank < other_rank
        } else {
            stands_before(self.name.as_str(), other.name.as_str())
        }
    }
}

/// The place of a kind in the order of packages.
fn rank_of(kind: UnitKind) -> (res: u8)
    ensures
        res == kind_rank(kind),
{
    match kind {
        UnitKind::Bin => 0,
        UnitKind::ExampleBin => 1,
        UnitKind::Other => 2,
    }
}

/// The mapping that a list of entries stands for: a later entry for a unit
/// replaces an earlier one.
pub open spec fn apk_map(entries: Seq<ApkEntry>) -> Map<(UnitKind, Seq<char>), Seq<char>>
    decreases entries.len(),
{
    if entries.len() == 0 {
        Map::empty()
    } else {
        apk_map(entries.drop_last()).insert(
            (entries.last().kind, entries.last().name@),
            entries.last().path@,
        )
    }
}

/// No two entries are for the same unit.
pub open spec fn distinct_entries(entries: Seq<ApkEntry>) -> bool {
    forall|i: int, j: int|
        0 <= i < j < entries.len() ==> !(#[trigger] entries[i]).same_unit(#[trigger] entries[j])
}

/// The entries stand in the order of their units, each before all that
/// follow it.
pub open spec fn ordered_entries(entries: Seq<ApkEntry>) -> bool {
    forall|i: int, j: int|
        0 <= i < j < entries.len() ==> (#[trigger] entries[i]).before(#[trigger] entries[j])
}

/// How many of `entries` stand before `entry`.
pub open spec fn entries_before(entries: Seq<ApkEntry>, entry: ApkEntry) -> int
    decreases entries.len(),
{
    if entries.len() == 0 {
        0
    } else {
        entries_before(entries.drop_last(), entry) + if entries.last().before(entry) {
            1int
        } else {
            0int
        }
    }
}

/// `entries` with `entry` in its place: behind the entries that stand before
/// it, in place of the entry for its unit if there is one.
pub open spec fn placed(entries: Seq<ApkEntry>, entry: ApkEntry) -> Seq<ApkEntry> {
    let at = entries_before(entries, entry);
    if 0 <= at < entries.len() && entries[at].same_unit(entry) {
        entries.update(at, entry)
    } else {
        entries.insert(at, entry)
    }
}

impl View for BuildResult {
    type V = Map<(UnitKind, Seq<char>), Seq<char>>;

    open spec fn view(&self) -> Map<(UnitKind, Seq<char>), Seq<char>> {
        apk_map(self.target_to_apk_map@)
    }
}

impl BuildResult {
    /// The entries stand in the order of their units, so that every unit
    /// has at most one entry.
    pub open spec fn wf(self) -> bool {
        ordered_entries(self.target_to_apk_map@)
    }

    /// A result without packages.
    pub fn new() -> (res: BuildResult)
        ensures
            res.wf(),
            res.target_to_apk_map@.len() == 0,
            res@ == Map::<(UnitKind, Seq<char>), Seq<char>>::empty(),
    {
        BuildResult { target_to_apk_map: Vec::new() }
    }

    /// The position of the entry for a unit, if it has one.
    pub fn index_of(&self, kind: UnitKind, name: &str) -> (res: Option<usize>)
        ensures
            match res {
                Some(at) => at < self.target_to_apk_map@.len() && self.target_to_apk_map@[at as int].kind
                    == kind && self.target_to_apk_map@[at as int].name@ == name@,
                None => forall|i: int|
                    0 <= i < self.target_to_apk_map@.len() ==> !((
                    #[trigger] self.target_to_apk_map@[i]).kind == kind
                        && self.target_to_apk_map@[i].name@ == name@),
            },
    {
        let mut i: usize = 0;
        while i < self.target_to_apk_map.len()
            invariant
                i <= self.target_to_apk_map@.len(),
                forall|k: int|
                    0 <= k < i ==> !((#[trigger] self.target_to_apk_map@[k]).kind == kind
                        && self.target_to_apk_map@[k].name@ == name@),
            decreases self.target_to_apk_map@.len() - i,
        {
            if self.target_to_apk_map[i].kind == kind && same_str(
                self.target_to_apk_map[i].name.as_str(),
                name,
            ) {
                return Some(i);
            }
            i += 1;
        }
        None
    }

    /// The package of a unit, if it has one.
    pub fn get(&self, kind: UnitKind, name: &str) -> (res: Option<&String>)
        requires
            self.wf(),
        ensures
            match res {
                Some(path) => self@.dom().contains((kind, name@)) && self@[(kind, name@)] == path@,
                None => !self@.dom().contains((kind, name@)),
            },
    {
        proof {
            lemma_ordered_is_distinct(self.target_to_apk_map@);
        }
        match self.index_of(kind, name) {
            Some(at) => {
                proof {
                    lemma_apk_map_holds(self.target_to_apk_map@, at as int);
                }
                Some(&self.target_to_apk_map[at].path)
            },
            None => {
                proof {
                    lemma_apk_map_lacks(self.target_to_apk_map@, kind, name@);
                }
                None
            },
        }
    }

    /// Records the package of a unit. The entry goes where the order of the
    /// units puts it: by kind, then by name. The entry of a unit that has one
    /// already is replaced.
    pub fn insert(&mut self, kind: UnitKind, name: String, path: String)
        requires
            old(self).wf(),
        ensures
            final(self).wf(),
            final(self).target_to_apk_map@ == placed(
                old(self).target_to_apk_map@,
                ApkEntry { kind, name, path },
            ),
            final(self)@ == old(self)@.insert((kind, name@), path@),
    {
        let entry = ApkEntry { kind, name, path };
        let ghost before = self.target_to_apk_map@;
        let mut at: usize = 0;
        while at < self.target_to_apk_map.len() && self.target_to_apk_map[at].is_before(&entry)
            invariant
                at <= self.target_to_apk_map@.len(),
                self.target_to_apk_map@ == before,
                forall|i: int| 0 <= i < at ==> (#[trigger] before[i]).before(entry),
            decreases self.target_to_apk_map@.len() - at,
        {
            at += 1;
        }
        proof {
            lemma_entries_before(before, entry, at as int);
            lemma_placed(before, entry, at as int);
        }
        if at < self.target_to_apk_map.len() && self.target_to_apk_map[at].kind == entry.kind
            && same_str(self.target_to_apk_map[at].name.as_str(), entry.name.as_str()) {
            self.target_to_apk_map.set(at, entry);
        } else {
            self.target_to_apk_map.insert(at, entry);
        }
    }
}

/// Of two entries exactly one holds: the first stands before the second,
/// the second before the first, or they are for the same unit.
pub proof fn lemma_unit_order_total(a: ApkEntry, b: ApkEntry)
    ensures
        a.before(b) || b.before(a) || a.same_unit(b),
        !(a.before(b) && b.before(a)),
        a.same_unit(b) ==> !a.before(b) && !b.before(a),
{
    lemma_text_order_total(a.name@, b.name@);
    lemma_text_order_total(b.name@, a.name@);
}

/// An entry that stands before one that stands before a third stands
/// before the third.
pub proof fn lemma_unit_order_transitive(a: ApkEntry, b: ApkEntry, c: ApkEntry)
    requires
        a.before(b),
        b.before(c),
    ensures
        a.before(c),
{
    if a.kind == b.kind && b.kind == c.kind {
        lemma_text_order_transitive(a.name@, b.name@, c.name@);
    }
}

/// Entries that stand in order hold no unit twice.
pub proof fn lemma_ordered_is_distinct(entries: Seq<ApkEntry>)
    requires
        ordered_entries(entries),
    ensures
        distinct_entries(entries),
{
    assert forall|i: int, j: int| 0 <= i < j < entries.len() implies !(
    #[trigger] entries[i]).same_unit(#[trigger] entries[j]) by {
        assert(entries[i].before(entries[j]));
        lemma_unit_order_total(entries[i], entries[j]);
    }
}

/// In a list that stands in order, the entries before `entry` are those at
/// the front, up to the first one that does not stand before it.
pub proof fn lemma_entries_before(entries: Seq<ApkEntry>, entry: ApkEntry, at: int)
    requires
        ordered_entries(entries),
        0 <= at <= entries.len(),
        forall|i: int| 0 <= i < at ==> (#[trigger] entries[i]).before(entry),
        at < entries.len() ==> !entries[at].before(entry),
    ensures
        entries_before(entries, entry) == at,
        forall|i: int| at <= i < entries.len() ==> !(#[trigger] entries[i]).before(entry),
    decreases entries.len(),
{
    if entries.len() > 0 {
        let front = entries.drop_last();
        let last = entries.len() - 1;
        assert(ordered_entries(front)) by {
            assert forall|i: int, j: int| 0 <= i < j < front.len() implies (#[trigger] front[i]).before(
                #[trigger] front[j],
            ) by {
                assert(entries[i].before(entries[j]));
            }
        }
        assert forall|i: int| 0 <= i < front.len() implies front[i] == entries[i] by {}
        if at == entries.len() {
            lemma_entries_before(front, entry, last);
            assert(entries[last].before(entry));
        } else {
            if at < last {
                assert(entries[at].before(entries[last]));
                if entries[last].before(entry) {
                    lemma_unit_order_transitive(entries[at], entries[last], entry);
                }
            }
            lemma_entries_before(front, entry, at);
            assert forall|i: int| at <= i < entries.len() implies !(#[trigger] entries[i]).before(
                entry,
            ) by {
                if i < last {
                    assert(!front[i].before(entry));
                }
            }
        }
    }
}

/// Putting an entry in its place keeps the list in order, and changes the
/// mapping as an insertion under the entry's unit does.
pub proof fn lemma_placed(entries: Seq<ApkEntry>, entry: ApkEntry, at: int)
    requires
        ordered_entries(entries),
        0 <= at <= entries.len(),
        entries_before(entries, entry) == at,
        forall|i: int| 0 <= i < at ==> (#[trigger] entries[i]).before(entry),
        forall|i: int| at <= i < entries.len() ==> !(#[trigger] entries[i]).before(entry),
    ensures
        ordered_entries(placed(entries, entry)),
        apk_map(placed(entries, entry)) == apk_map(entries).insert(
            (entry.kind, entry.name@),
            entry.path@,
        ),
{
    lemma_ordered_is_distinct(entries);
    if at < entries.len() && entries[at].same_unit(entry) {
        let updated = entries.update(at, entry);
        assert forall|i: int, j: int| 0 <= i < j < updated.len() implies (
        #[trigger] updated[i]).before(#[trigger] updated[j]) by {
            assert(entries[i].before(entries[j]));
        }
        lemma_apk_map_update(entries, at, entry);
    } else {
        let grown = entries.insert(at, entry);
        assert forall|i: int| at <= i < entries.len() implies entry.before(
            #[trigger] entries[i],
        ) by {
            lemma_unit_order_total(entries[at], entry);
            assert(!entries[at].before(entry));
            if i > at {
                assert(entries[at].before(entries[i]));
                lemma_unit_order_transitive(entry, entries[at], entries[i]);
            }
        }
        assert forall|i: int, j: int| 0 <= i < j < grown.len() implies (#[trigger] grown[i]).before(
            #[trigger] grown[j],
        ) by {
            if j < at {
                assert(entries[i].before(entries[j]));
            } else if j == at {
                assert(entries[i].before(entry));
            } else if i < at {
                assert(entries[i].before(entries[j - 1]));
            } else if i == at {
                assert(entry.before(entries[j - 1]));
            } else {
                assert(entries[i - 1].before(entries[j - 1]));
            }
        }
        assert forall|i: int| 0 <= i < entries.len() implies !(#[trigger] entries[i]).same_unit(
            entry,
        ) by {
            lemma_unit_order_total(entries[i], entry);
            if i < at {
                assert(entries[i].before(entry));
            } else if i > at {
                assert(entry.before(entries[i]));
            } else {
                assert(entry.before(entries[i]));
            }
        }
        lemma_apk_map_insert(entries, at, entry);
    }
}

/// Putting an entry for a new unit into a list adds its unit to the
/// mapping, wherever the entry stands.
pub proof fn lemma_apk_map_insert(entries: Seq<ApkEntry>, at: int, entry: ApkEntry)
    requires
        0 <= at <= entries.len(),
        forall|i: int| 0 <= i < entries.len() ==> !(#[trigger] entries[i]).same_unit(entry),
    ensures
        apk_map(entries.insert(at, entry)) == apk_map(entries).insert(
            (entry.kind, entry.name@),
            entry.path@,
        ),
    decreases entries.len(),
{
    let grown = entries.insert(at, entry);
    if at == entries.len() {
        assert(grown.drop_last() =~= entries);
        assert(grown.last() == entry);
    } else {
        let front = entries.drop_last();
        let last = entries.len() - 1;
        assert forall|i: int| 0 <= i < front.len() implies !(#[trigger] front[i]).same_unit(
            entry,
        ) by {
            assert(front[i] == entries[i]);
        }
        lemma_apk_map_insert(front, at, entry);
        assert(grown.drop_last() =~= front.insert(at, entry));
        assert(grown.last() == entries.last());
        assert(!entries[last].same_unit(entry));
        assert(apk_map(grown) =~= apk_map(entries).insert(
            (entry.kind, entry.name@),
            entry.path@,
        ));
    }
}

/// An entry of a list without repeated units is what the mapping holds for
/// its unit.
pub proof fn lemma_apk_map_holds(entries: Seq<ApkEntry>, at: int)
    requires
        distinct_entries(entries),
        0 <= at < entries.len(),
    ensures
        apk_map(entries).dom().contains((entries[at].kind, entries[at].name@)),
        apk_map(entries)[(entries[at].kind, entries[at].name@)] == entries[at].path@,
    decreases entries.len(),
{
    if at < entries.len() - 1 {
        assert(distinct_entries(entries.drop_last())) by {
            assert forall|i: int, j: int| 0 <= i < j < entries.drop_last().len() implies !(
            #[trigger] entries.drop_last()[i]).same_unit(#[trigger] entries.drop_last()[j]) by {
                assert(entries.drop_last()[i] == entries[i]);
                assert(entries.drop_last()[j] == entries[j]);
                assert(!entries[i].same_unit(entries[j]));
            }
        }
        lemma_apk_map_holds(entries.drop_last(), at);
        assert(entries.drop_last()[at] == entries[at]);
        assert(!entries[at].same_unit(entries[entries.len() - 1]));
    }
}

/// A unit without entry is not in the mapping.
pub proof fn lemma_apk_map_lacks(entries: Seq<ApkEntry>, kind: UnitKind, name: Seq<char>)
    requires
        forall|i: int|
            0 <= i < entries.len() ==> !((#[trigger] entries[i]).kind == kind && entries[i].name@
                == name),
    ensures
        !apk_map(entries).dom().contains((kind, name)),
    decreases entries.len(),
{
    if entries.len() > 0 {
        assert forall|i: int| 0 <= i < entries.drop_last().len() implies !((
        #[trigger] entries.drop_last()[i]).kind == kind && entries.drop_last()[i].name@
            == name) by {
            assert(entries.drop_last()[i] == entries[i]);
        }
        lemma_apk_map_lacks(entries.drop_last(), kind, name);
        assert(!(entries[entries.len() - 1].kind == kind && entries[entries.len() - 1].name@
            == name));
    }
}

/// Replacing the entry of a unit by another entry for the same unit
/// replaces what the mapping holds for that unit.
pub proof fn lemma_apk_map_update(entries: Seq<ApkEntry>, at: int, entry: ApkEntry)
    requires
        distinct_entries(entries),
        0 <= at < entries.len(),
        entries[at].same_unit(entry),
    ensures
        apk_map(entries.update(at, entry)) == apk_map(entries).insert(
            (entry.kind, entry.name@),
            entry.path@,
        ),
    decreases entries.len(),
{
    let updated = entries.update(at, entry);
    let last = entries.len() - 1;
    if at == last {
        assert(updated.drop_last() =~= entries.drop_last());
        assert(apk_map(updated) =~= apk_map(entries).insert(
            (entry.kind, entry.name@),
            entry.path@,
        ));
    } else {
        assert(distinct_entries(entries.drop_last())) by {
            assert forall|i: int, j: int| 0 <= i < j < entries.drop_last().len() implies !(
            #[trigger] entries.drop_last()[i]).same_unit(#[trigger] entries.drop_last()[j]) by {
                assert(entries.drop_last()[i] == entries[i]);
                assert(entries.drop_last()[j] == entries[j]);
                assert(!entries[i].same_unit(entries[j]));
            }
        }
        assert(entries.drop_last()[at] == entries[at]);
        lemma_apk_map_update(entries.drop_last(), at, entry);
        assert(updated.drop_last() =~= entries.drop_last().update(at, entry));
        assert(updated.last() == entries.last());
        assert(!entries[at].same_unit(entries[last]));
        assert(apk_map(updated) =~= apk_map(entries).insert(
            (entry.kind, entry.name@),
            entry.path@,
        ));
    }
}

} // verus!
