use cargo_quad_apk::config::AndroidConfig;
use cargo_quad_apk::config::AndroidTargetConfig;
use cargo_quad_apk::error::BuildError;
use cargo_quad_apk::install::install;
use cargo_quad_apk::install::install_message;
use cargo_quad_apk::install::logcat;
use cargo_quad_apk::java::find_java_executable;
use cargo_quad_apk::java::find_rt_jar;
use cargo_quad_apk::java::java_executable_name;
use cargo_quad_apk::libraries::SharedLibraries;
use cargo_quad_apk::libraries::SharedLibrary;
use cargo_quad_apk::manifest::build_manifest;
use cargo_quad_apk::package::aapt_package_args;
use cargo_quad_apk::package::assemble_steps;
use cargo_quad_apk::package::classpath;
use cargo_quad_apk::package::compile_steps;
use cargo_quad_apk::package::library_entry_path;
use cargo_quad_apk::package::package_paths;
use cargo_quad_apk::package::plan_java_files;
use cargo_quad_apk::package::resource_steps;
use cargo_quad_apk::package::script_process;
use cargo_quad_apk::package::sign_steps;
use cargo_quad_apk::package::BuildResult;
use cargo_quad_apk::package::PackageContext;
use cargo_quad_apk::package::PackagePaths;
use cargo_quad_apk::package::Step;
use cargo_quad_apk::package::ToolCommand;
use cargo_quad_apk::package::MAIN_LAYOUT;
use cargo_quad_apk::target::AndroidBuildTarget;
use cargo_quad_apk::target::CompilationUnit;
use cargo_quad_apk::target::HostPlatform;
use cargo_quad_apk::target::UnitKind;
use cargo_quad_apk::util::JavaFiles;

fn strings(items: &[&str]) -> Vec<String> {
    items.iter().map(|s| s.to_string()).collect()
}

fn config(host: HostPlatform) -> AndroidConfig {
    AndroidConfig {
        host,
        sdk_path: "/sdk".to_string(),
        ndk_path: "/ndk".to_string(),
        android_jar_path: "/sdk/android.jar".to_string(),
        build_tools_version: "31.0.0".to_string(),
        build_targets: vec![AndroidBuildTarget::ArmV7a, AndroidBuildTarget::Arm64V8a],
        target_sdk_version: 31,
        min_sdk_version: 21,
        release: false,
    }
}

fn target() -> AndroidTargetConfig {
    AndroidTargetConfig {
        package_name: "com.example.my-app".to_string(),
        package_label: "My App".to_string(),
        version_code: 1,
        version_name: "1.0".to_string(),
        package_icon: None,
        assets_path: None,
        res_path: None,
        fullscreen: false,
        application_attributes: None,
        activity_attributes: None,
        opengles_version_major: 2,
        opengles_version_minor: 0,
        features: vec![],
        permissions: vec![],
    }
}

fn context(kind: UnitKind, name: &str) -> PackageContext {
    PackageContext {
        unit: CompilationUnit { kind, name: name.to_string(), src_path: "src/main.rs".to_string() },
        root_build_dir: "/out".to_string(),
        miniquad_root_path: "/mq".to_string(),
        home_dir: "/home/u".to_string(),
    }
}

fn paths(kind: UnitKind, name: &str) -> PackagePaths {
    package_paths(&config(HostPlatform::Linux), &target(), &context(kind, name)).unwrap()
}

fn run(step: &Step) -> &ToolCommand {
    match step {
        Step::Run { command } => command,
        other => panic!("not a tool run: {:?}", other),
    }
}

fn describe(step: &Step) -> String {
    match step {
        Step::CreateDir { path } => format!("mkdir {}", path),
        Step::RemoveFile { path } => format!("rm {}", path),
        Step::WriteFile { path, .. } => format!("write {}", path),
        Step::CopyFile { from, to } => format!("copy {} {}", from, to),
        Step::Run { command } => format!(
            "run[{}] {} {}",
            command.cwd.clone().unwrap_or_default(),
            command.program,
            command.args.join(" ")
        ),
    }
}

#[test]
fn paths_of_an_entry_unit() {
    let p = paths(UnitKind::Bin, "app");
    assert_eq!(p.target_directory, "/out/bin/app");
    assert_eq!(p.manifest_path, "/out/bin/app/AndroidManifest.xml");
    assert_eq!(p.build_tools_path, "/sdk/build-tools/31.0.0");
    assert_eq!(p.aapt_path, "/sdk/build-tools/31.0.0/aapt");
    assert_eq!(p.d8_path, "/sdk/build-tools/31.0.0/d8");
    assert_eq!(p.zipalign_path, "/sdk/build-tools/31.0.0/zipalign");
    assert_eq!(p.apksigner_path, "/sdk/build-tools/31.0.0/apksigner");
    assert_eq!(p.unaligned_apk_name, "app_unaligned.apk");
    assert_eq!(p.unaligned_apk_path, "/out/bin/app/app_unaligned.apk");
    assert_eq!(p.obj_dir, "/out/bin/app/build/obj");
    assert_eq!(p.gen_dir, "/out/bin/app/build/gen");
    assert_eq!(p.package_name, "com.example.my_app");
    assert_eq!(p.library_name, "my-app");
    assert_eq!(p.r_java_path, "/out/bin/app/build/gen/com/example/my_app");
    assert_eq!(p.java_dir, "/out/bin/app/com/example/my_app");
    assert_eq!(p.main_activity_path, "/mq/java/MainActivity.java");
    assert_eq!(p.target_activity_path, "/out/bin/app/com/example/my_app/MainActivity.java");
    assert_eq!(p.quad_native_path, "/mq/java/QuadNative.java");
    assert_eq!(p.target_quad_native_path, "/out/bin/app/quad_native/QuadNative.java");
    assert_eq!(p.res_dir, "/out/bin/app/res/layout");
    assert_eq!(p.res_file, "/out/bin/app/res/layout/main.xml");
    assert_eq!(p.final_apk_dir, "/out/apk");
    assert_eq!(p.target_apk_directory, "/out/apk");
    assert_eq!(p.final_apk_path, "/out/apk/app.apk");
    assert_eq!(p.android_directory, "/home/u/.android");
    assert_eq!(p.keystore_path, "/home/u/.android/debug.keystore");
}

#[test]
fn paths_of_an_example_unit_and_of_other_units() {
    let p = paths(UnitKind::ExampleBin, "demo");
    assert_eq!(p.target_directory, "/out/examples/demo");
    assert_eq!(p.target_apk_directory, "/out/apk/examples");
    assert_eq!(p.final_apk_path, "/out/apk/examples/demo.apk");
    assert!(package_paths(&config(HostPlatform::Linux), &target(), &context(UnitKind::Other, "lib")).is_none());
    let windows = package_paths(&config(HostPlatform::Windows64), &target(), &context(UnitKind::Bin, "app")).unwrap();
    assert!(windows.apksigner_path.ends_with("apksigner.bat"));
}

#[test]
fn resource_tool_arguments() {
    let p = paths(UnitKind::Bin, "app");
    let mut target = target();
    assert_eq!(
        aapt_package_args(&config(HostPlatform::Linux), &target, &p),
        strings(&["package", "-F", "app_unaligned.apk", "-m", "-J", "build/gen", "-M", "AndroidManifest.xml", "-S", "res", "-I", "/sdk/android.jar"])
    );
    target.res_path = Some("/my/res".to_string());
    target.assets_path = Some("/my/assets".to_string());
    let args = aapt_package_args(&config(HostPlatform::Linux), &target, &p);
    assert_eq!(args[12..], strings(&["-S", "/my/res", "-A", "/my/assets"])[..]);
    target.res_path = None;
    let args = aapt_package_args(&config(HostPlatform::Linux), &target, &p);
    assert_eq!(args[12..], strings(&["-A", "/my/assets"])[..]);
}

#[test]
fn first_stage_in_order() {
    let p = paths(UnitKind::Bin, "app");
    let config = config(HostPlatform::Linux);
    let ctx = context(UnitKind::Bin, "app");
    let java_files = JavaFiles::new();
    let sources = vec![("java/x/Extra.java".to_string(), "package TARGET_PACKAGE_NAME; // LIBRARY_NAME".to_string())];
    let steps = resource_steps(
        &config,
        &target(),
        &ctx,
        &java_files,
        &p,
        "package TARGET_PACKAGE_NAME;\n//% IMPORTS\n",
        &vec!["//% IMPORTS\nimport a.B;\n//% END\n".to_string()],
        &sources,
    )
    .unwrap();
    let told: Vec<String> = steps.iter().map(describe).collect();
    assert_eq!(
        told,
        strings(&[
            "mkdir /out/bin/app",
            "write /out/bin/app/AndroidManifest.xml",
            "rm /out/bin/app/app_unaligned.apk",
            "mkdir /out/bin/app/build/obj",
            "mkdir /out/bin/app/build/gen",
            "mkdir /out/bin/app/com/example/my_app",
            "write /out/bin/app/com/example/my_app/MainActivity.java",
            "copy /mq/java/QuadNative.java /out/bin/app/quad_native/QuadNative.java",
            "write /out/bin/app/x/Extra.java",
            "mkdir /out/bin/app/res/layout",
            "write /out/bin/app/res/layout/main.xml",
            "run[/out/bin/app] /sdk/build-tools/31.0.0/aapt package -F app_unaligned.apk -m -J build/gen -M AndroidManifest.xml -S res -I /sdk/android.jar",
        ])
    );
    match &steps[1] {
        Step::WriteFile { contents, .. } => {
            assert_eq!(*contents, build_manifest(&config, &target(), "app", &java_files))
        }
        other => panic!("unexpected {:?}", other),
    }
    match &steps[6] {
        Step::WriteFile { contents, .. } => assert_eq!(contents, "package com.example.my_app;\nimport a.B;\n\n"),
        other => panic!("unexpected {:?}", other),
    }
    match &steps[8] {
        Step::WriteFile { contents, .. } => assert_eq!(contents, "package com.example.my_app; // my-app"),
        other => panic!("unexpected {:?}", other),
    }
    match &steps[10] {
        Step::WriteFile { contents, .. } => {
            assert_eq!(contents, MAIN_LAYOUT);
            assert!(contents.starts_with("<?xml version=\"1.0\" encoding=\"utf-8\"?>\n        <LinearLayout"));
            assert!(contents.ends_with("</LinearLayout>\n        \n"));
        }
        other => panic!("unexpected {:?}", other),
    }
}

#[test]
fn first_stage_failures() {
    let p = paths(UnitKind::Bin, "app");
    let config = config(HostPlatform::Linux);
    let ctx = context(UnitKind::Bin, "app");
    let outside = vec![("java/ok.java".to_string(), "".to_string()), ("src/Bad.java".to_string(), "".to_string())];
    let malformed = vec!["//% END".to_string()];
    // the fragments are read before the extra sources
    match resource_steps(&config, &target(), &ctx, &JavaFiles::new(), &p, "", &malformed, &outside) {
        Err(BuildError::TemplateMalformed { .. }) => {}
        other => panic!("unexpected {:?}", other),
    }
    match resource_steps(&config, &target(), &ctx, &JavaFiles::new(), &p, "", &vec![], &outside) {
        Err(BuildError::JavaFileOutsideRoot { path }) => assert_eq!(path, "src/Bad.java"),
        other => panic!("unexpected {:?}", other),
    }
    match plan_java_files(&p, &outside) {
        Err(error) => assert_eq!(error.message(), "Java file `src/Bad.java` is not under the `java` directory"),
        other => panic!("unexpected {:?}", other),
    }
    assert!(plan_java_files(&p, &vec![]).unwrap().is_empty());
}

#[test]
fn second_stage_compiles_all_sources() {
    let p = paths(UnitKind::Bin, "app");
    let mut java_files = JavaFiles::new();
    java_files.java_files = vec![
        ("/pkg/java/x/Extra.java".to_string(), "java/x/Extra.java".to_string()),
        ("/pkg/java/Y.java".to_string(), "java/Y.java".to_string()),
    ];
    java_files.comptime_jar_files = vec![
        ("/pkg/a.jar".to_string(), "a.jar".to_string()),
        ("/pkg/b.jar".to_string(), "b.jar".to_string()),
    ];
    let config = config(HostPlatform::Linux);
    assert_eq!(classpath(&config, &java_files), "/sdk/android.jar:/pkg/a.jar:/pkg/b.jar");
    assert_eq!(classpath(&config, &JavaFiles::new()), "/sdk/android.jar");
    let steps = compile_steps(&config, &java_files, &p, "/jdk/bin/javac", "/jre/lib/rt.jar").unwrap();
    assert_eq!(steps.len(), 1);
    let command = run(&steps[0]);
    assert_eq!(command.program, "/jdk/bin/javac");
    assert_eq!(command.cwd, Some("/out/bin/app".to_string()));
    assert_eq!(
        command.args,
        strings(&[
            "-source", "1.7", "-target", "1.7", "-Xlint:deprecation", "-bootclasspath", "/jre/lib/rt.jar",
            "-classpath", "/sdk/android.jar:/pkg/a.jar:/pkg/b.jar", "-d", "build/obj",
            "quad_native/QuadNative.java", "x/Extra.java", "Y.java",
            "/out/bin/app/build/gen/com/example/my_app/R.java",
            "/out/bin/app/com/example/my_app/MainActivity.java",
        ])
    );
    java_files.java_files.push(("/pkg/Z.java".to_string(), "Z.java".to_string()));
    match compile_steps(&config, &java_files, &p, "javac", "rt.jar") {
        Err(BuildError::JavaFileOutsideRoot { path }) => assert_eq!(path, "Z.java"),
        other => panic!("unexpected {:?}", other),
    }
}

#[test]
fn one_unit_two_architectures() {
    let unit = CompilationUnit { kind: UnitKind::Bin, name: "app".to_string(), src_path: "src/main.rs".to_string() };
    let mut libraries = SharedLibraries::new();
    for abi in [AndroidBuildTarget::ArmV7a, AndroidBuildTarget::Arm64V8a] {
        let primary = SharedLibrary {
            abi,
            path: format!("/out/{}/build/libapp.so", abi.android_abi()),
            filename: "libapp.so".to_string(),
        };
        libraries.record_libraries(&unit, primary, &vec![]);
    }
    assert_eq!(libraries.len(), 1);
    let p = paths(UnitKind::Bin, "app");
    let mut java_files = JavaFiles::new();
    java_files.runtime_jar_files = vec![("/pkg/rt-dep.jar".to_string(), "rt-dep.jar".to_string())];
    let class_files = strings(&["/out/bin/app/build/obj/A.class", "/out/bin/app/build/obj/B.class"]);
    let steps = assemble_steps(&java_files, &p, libraries.libraries(0).unwrap(), &class_files);
    let told: Vec<String> = steps.iter().map(describe).collect();
    assert_eq!(
        told,
        strings(&[
            "run[/out/bin/app] /sdk/build-tools/31.0.0/d8 /out/bin/app/build/obj/A.class /out/bin/app/build/obj/B.class /pkg/rt-dep.jar --no-desugaring --min-api 26",
            "run[/out/bin/app] /sdk/build-tools/31.0.0/aapt add app_unaligned.apk classes.dex",
            "copy /out/armeabi-v7a/build/libapp.so /out/bin/app/lib/armeabi-v7a/libapp.so",
            "run[/out/bin/app] /sdk/build-tools/31.0.0/aapt add app_unaligned.apk lib/armeabi-v7a/libapp.so",
            "copy /out/arm64-v8a/build/libapp.so /out/bin/app/lib/arm64-v8a/libapp.so",
            "run[/out/bin/app] /sdk/build-tools/31.0.0/aapt add app_unaligned.apk lib/arm64-v8a/libapp.so",
            "mkdir /out/apk",
            "run[/out/bin/app] /sdk/build-tools/31.0.0/zipalign -f -v 4 app_unaligned.apk /out/apk/app.apk",
            "mkdir /home/u/.android",
        ])
    );
    let library_adds = told.iter().filter(|s| s.contains(" add app_unaligned.apk lib/")).count();
    assert_eq!(library_adds, 2);

    let signing = sign_steps(HostPlatform::Linux, &p, "/out", None, true);
    let told: Vec<String> = signing.iter().map(describe).collect();
    assert_eq!(
        told,
        strings(&["run[/out/bin/app] /sdk/build-tools/31.0.0/apksigner sign --ks /home/u/.android/debug.keystore --ks-pass pass:android /out/apk/app.apk"])
    );

    let mut result = BuildResult::new();
    result.insert(unit.kind, unit.name.clone(), p.final_apk_path.clone());
    assert_eq!(result.target_to_apk_map.len(), 1);
    assert_eq!(result.get(UnitKind::Bin, "app"), Some(&"/out/apk/app.apk".to_string()));
    assert_eq!(result.get(UnitKind::ExampleBin, "app"), None);
}

#[test]
fn library_entries_use_forward_slashes() {
    let library = SharedLibrary { abi: AndroidBuildTarget::X86_64, path: "C:\\out\\libz.so".to_string(), filename: "libz.so".to_string() };
    assert_eq!(library_entry_path(&library), "lib/x86_64/libz.so");
}

#[test]
fn signing_stage() {
    let p = paths(UnitKind::Bin, "app");
    assert!(sign_steps(HostPlatform::Linux, &p, "/out", None, false).is_empty());
    let steps = sign_steps(HostPlatform::Linux, &p, "/out", Some("/jdk/bin/keytool"), false);
    assert_eq!(steps.len(), 1);
    let keytool = run(&steps[0]);
    assert_eq!(keytool.program, "/jdk/bin/keytool");
    assert_eq!(keytool.cwd, Some("/out".to_string()));
    assert_eq!(
        keytool.args,
        strings(&[
            "-genkey", "-v", "-keystore", "/home/u/.android/debug.keystore", "-storepass", "android",
            "-alias", "androidebugkey", "-keypass", "android", "-dname", "CN=Android Debug,O=Android,C=US",
            "-keyalg", "RSA", "-keysize", "2048", "-validity", "10000",
        ])
    );
    let steps = sign_steps(HostPlatform::Linux, &p, "/out", Some("/jdk/bin/keytool"), true);
    assert_eq!(steps.len(), 2);
    assert_eq!(run(&steps[0]).program, "/jdk/bin/keytool");
    assert_eq!(run(&steps[1]).program, "/sdk/build-tools/31.0.0/apksigner");

    let windows = package_paths(&config(HostPlatform::Windows64), &target(), &context(UnitKind::Bin, "app")).unwrap();
    let steps = sign_steps(HostPlatform::Windows64, &windows, "/out", None, true);
    let signer = run(&steps[0]);
    assert_eq!(signer.program, "cmd");
    assert_eq!(signer.args[0], "/C");
    assert!(signer.args[1].ends_with("apksigner.bat"));
    assert_eq!(signer.args[2..5], strings(&["sign", "--ks", "/home/u/.android/debug.keystore"])[..]);
    assert_eq!(signer.cwd, Some("/out/bin/app".to_string()));
}

#[test]
fn scripts_run_through_the_interpreter_on_windows() {
    let command = script_process(HostPlatform::Linux, "/t/script");
    assert_eq!(command.program, "/t/script");
    assert!(command.args.is_empty());
    assert_eq!(command.cwd, None);
    let command = script_process(HostPlatform::Windows32, "C:\\t\\s.bat");
    assert_eq!(command.program, "cmd");
    assert_eq!(command.args, strings(&["/C", "C:\\t\\s.bat"]));
}

#[test]
fn build_result_maps_units_to_packages() {
    let mut result = BuildResult::new();
    assert_eq!(result.get(UnitKind::Bin, "a"), None);
    result.insert(UnitKind::Bin, "a".to_string(), "/1".to_string());
    result.insert(UnitKind::ExampleBin, "a".to_string(), "/2".to_string());
    result.insert(UnitKind::Bin, "b".to_string(), "/3".to_string());
    result.insert(UnitKind::Bin, "a".to_string(), "/4".to_string());
    assert_eq!(result.target_to_apk_map.len(), 3);
    assert_eq!(result.get(UnitKind::Bin, "a"), Some(&"/4".to_string()));
    assert_eq!(result.get(UnitKind::ExampleBin, "a"), Some(&"/2".to_string()));
    assert_eq!(result.get(UnitKind::Bin, "b"), Some(&"/3".to_string()));
    assert_eq!(result.index_of(UnitKind::Bin, "b"), Some(1));
    assert_eq!(result.index_of(UnitKind::ExampleBin, "a"), Some(2));
    assert_eq!(result.index_of(UnitKind::Other, "b"), None);
}

fn keys(result: &BuildResult) -> Vec<(UnitKind, String)> {
    result.target_to_apk_map.iter().map(|e| (e.kind, e.name.clone())).collect()
}

#[test]
fn build_result_keeps_its_entries_in_the_order_of_the_units() {
    let mut result = BuildResult::new();
    for (kind, name) in [
        (UnitKind::ExampleBin, "b"),
        (UnitKind::Bin, "zeta"),
        (UnitKind::Bin, "b"),
        (UnitKind::ExampleBin, "a"),
        (UnitKind::Bin, "a"),
        (UnitKind::Bin, "ab"),
        (UnitKind::Bin, "B"),
        (UnitKind::Bin, ""),
        (UnitKind::Bin, "é"),
        (UnitKind::Bin, "b"),
    ] {
        result.insert(kind, name.to_string(), format!("/{:?}/{}", kind, name));
    }
    let mut expected: Vec<(u8, String)> = vec![
        (0, "".to_string()),
        (0, "B".to_string()),
        (0, "a".to_string()),
        (0, "ab".to_string()),
        (0, "b".to_string()),
        (0, "zeta".to_string()),
        (0, "é".to_string()),
        (1, "a".to_string()),
        (1, "b".to_string()),
    ];
    expected.sort();
    let got: Vec<(u8, String)> = keys(&result)
        .into_iter()
        .map(|(kind, name)| (if kind == UnitKind::Bin { 0 } else { 1 }, name))
        .collect();
    assert_eq!(got, expected);
    assert_eq!(result.get(UnitKind::Bin, "b"), Some(&"/Bin/b".to_string()));
}

#[test]
fn packages_are_installed_in_the_order_of_the_units() {
    let config = config(HostPlatform::Linux);
    let mut result = BuildResult::new();
    result.insert(UnitKind::ExampleBin, "a".to_string(), "/out/apk/examples/a.apk".to_string());
    result.insert(UnitKind::Bin, "b".to_string(), "/out/apk/b.apk".to_string());
    result.insert(UnitKind::Bin, "a".to_string(), "/out/apk/a.apk".to_string());
    let commands = install(&config, &result);
    let paths: Vec<String> = commands.iter().map(|c| c.args[2].clone()).collect();
    assert_eq!(paths, strings(&["/out/apk/a.apk", "/out/apk/b.apk", "/out/apk/examples/a.apk"]));
}

#[test]
fn java_tools_are_found_on_the_search_path_then_under_java_home() {
    let dirs = strings(&["/usr/bin", "/opt/jdk/bin"]);
    let found = find_java_executable("javac", &dirs, Some("/home/java"), |p: &String| p == "/opt/jdk/bin/javac" || p == "/home/java/bin/javac");
    assert_eq!(found.unwrap(), "/opt/jdk/bin/javac");
    let found = find_java_executable("javac", &dirs, Some("/home/java"), |p: &String| p == "/home/java/bin/javac");
    assert_eq!(found.unwrap(), "/home/java/bin/javac");
    let found = find_java_executable("javac", &vec![], Some("/home/java"), |_: &String| true);
    assert_eq!(found.unwrap(), "/home/java/bin/javac");
    let missing = find_java_executable("keytool", &dirs, None, |_: &String| false).unwrap_err();
    assert_eq!(
        missing.message(),
        "Unable to find executable: 'keytool'. Configure PATH or JAVA_HOME with the path to the JRE or JDK. Searched: /usr/bin, /opt/jdk/bin"
    );
    match find_java_executable("java", &dirs, Some("/h"), |_: &String| false) {
        Err(BuildError::JavaExecutableNotFound { name, searched }) => {
            assert_eq!(name, "java");
            assert_eq!(searched, strings(&["/usr/bin", "/opt/jdk/bin", "/h/bin"]));
        }
        other => panic!("unexpected {:?}", other),
    }
    let missing = find_java_executable("java", &vec![], None, |_: &String| true).unwrap_err();
    assert_eq!(
        missing.message(),
        "Unable to find executable: 'java'. Configure PATH or JAVA_HOME with the path to the JRE or JDK. Searched: "
    );
    assert_eq!(java_executable_name(HostPlatform::Linux, "javac"), "javac");
    assert_eq!(java_executable_name(HostPlatform::Windows64, "keytool"), "keytool.exe");
}

#[test]
fn runtime_archive_is_read_from_verbose_output() {
    let lines = strings(&[
        "[Opened /usr/lib/jvm/java-8/jre/lib/rt.jar]",
        "[Loaded java.lang.Object from /usr/lib/jvm/java-8/jre/lib/rt.jar]",
        "[Opened /usr/lib/jvm/java-8/jre/lib/jsse.jar]",
    ]);
    assert_eq!(find_rt_jar(&lines), Some("/usr/lib/jvm/java-8/jre/lib/rt.jar".to_string()));
    let twice = strings(&["[Opened /a/rt.jar]", "x", "[Opened /b/rt.jar]"]);
    assert_eq!(find_rt_jar(&twice), Some("/b/rt.jar".to_string()));
    assert_eq!(find_rt_jar(&strings(&["[Loaded x from rt.jar]"])), None);
    assert_eq!(find_rt_jar(&vec![]), None);
    assert_eq!(find_rt_jar(&strings(&["rt.jarOpened"])), Some("ene".to_string()));
}

#[test]
fn device_bridge_commands() {
    let config = config(HostPlatform::Linux);
    let mut result = BuildResult::new();
    result.insert(UnitKind::Bin, "a".to_string(), "/out/apk/a.apk".to_string());
    result.insert(UnitKind::ExampleBin, "b".to_string(), "/out/apk/examples/b.apk".to_string());
    let commands = install(&config, &result);
    assert_eq!(commands.len(), 2);
    assert_eq!(commands[0].program, "/sdk/platform-tools/adb");
    assert_eq!(commands[0].args, strings(&["install", "-r", "/out/apk/a.apk"]));
    assert_eq!(commands[0].cwd, None);
    assert_eq!(commands[1].args, strings(&["install", "-r", "/out/apk/examples/b.apk"]));
    assert!(install(&config, &BuildResult::new()).is_empty());
    assert_eq!(install_message("a.apk"), "Installing apk 'a.apk' to the device");
    let log = logcat(&config);
    assert_eq!(log.program, "/sdk/platform-tools/adb");
    assert_eq!(log.args, strings(&["logcat"]));
}

#[test]
fn every_failure_has_its_message() {
    let path = || "/p".to_string();
    assert_eq!(
        BuildError::NdkFileNotFound { first: "/l/21".to_string(), lowest: 1, highest: 99 }.message(),
        "Unable to find NDK file: neither `/l/21` nor its like for a platform version from 1 to 99"
    );
    assert_eq!(
        BuildError::ClangNotFound { directory: "/bin".to_string(), pattern: "t<version>-clang".to_string(), lowest: 1, highest: 99 }.message(),
        "Unable to find NDK clang: no `t<version>-clang` in `/bin` for a platform version from 1 to 99"
    );
    assert_eq!(
        BuildError::ClangCppNotFound { directory: "/b".to_string(), pattern: "t<version>-clang++".to_string(), lowest: 0, highest: 120 }.message(),
        "Unable to find NDK clang++: no `t<version>-clang++` in `/b` for a platform version from 0 to 120"
    );
    assert_eq!(BuildError::ArNotFound { path: path() }.message(), "Unable to find ar at `/p`");
    assert_eq!(BuildError::ReadelfNotFound { path: path() }.message(), "Unable to find readelf at `/p`");
    assert_eq!(BuildError::LibunwindNotFound { path: path() }.message(), "Unable to find libunwind.a at `/p`");
    assert_eq!(
        BuildError::SourceArgumentMissing { unit: "u".to_string() }.message(),
        "Unable to replace source argument when building target 'u'"
    );
    assert_eq!(
        BuildError::ArtifactNameMissing { unit: "u".to_string() }.message(),
        "Unable to determine the library file name of target 'u'"
    );
    assert_eq!(
        BuildError::TemporarySourceNotCreated { path: "/s/t.tmp".to_string(), reason: "denied".to_string() }.message(),
        "Unable to create temporary source file `/s/t.tmp`. Source directory must be writable. Cargo-apk creates temporary source files as part of the build process. denied."
    );
    assert_eq!(BuildError::PackageNotDeleted { reason: "busy".to_string() }.message(), "Unable to delete APK file. busy");
    assert_eq!(
        BuildError::SettingsMalformed { path: "/pkg".to_string(), reason: "bad".to_string() }.message(),
        "\"/pkg\" toml file malformed, bad"
    );
    assert_eq!(BuildError::ToolFailed { output: "exit 1".to_string() }.message(), "exit 1");
    assert_eq!(
        BuildError::JavaExecutableNotFound { name: "javac".to_string(), searched: strings(&["/a", "/b"]) }.message(),
        "Unable to find executable: 'javac'. Configure PATH or JAVA_HOME with the path to the JRE or JDK. Searched: /a, /b"
    );
    assert_eq!(
        BuildError::TemplateMalformed { error: cargo_quad_apk::preprocessor::TemplateError::NoSectionOpen }.message(),
        "Injection template closes a section where none is open"
    );
    assert_eq!(
        BuildError::TemplateMalformed { error: cargo_quad_apk::preprocessor::TemplateError::SectionAlreadyOpen }.message(),
        "Injection template opens a section inside another section"
    );
}
