use cargo_quad_apk::config::AndroidConfig;
use cargo_quad_apk::error::BuildError;
use cargo_quad_apk::target::AndroidBuildTarget;
use cargo_quad_apk::target::CompilationUnit;
use cargo_quad_apk::target::HostPlatform;
use cargo_quad_apk::target::UnitKind;
use cargo_quad_apk::util::clang_versions_dir;
use cargo_quad_apk::util::collect_java_files;
use cargo_quad_apk::util::find_ar;
use cargo_quad_apk::util::find_clang;
use cargo_quad_apk::util::find_clang_cpp;
use cargo_quad_apk::util::find_libunwind_dir;
use cargo_quad_apk::util::find_ndk_path;
use cargo_quad_apk::util::find_readelf;
use cargo_quad_apk::util::get_root_build_directory;
use cargo_quad_apk::util::get_target_directory;
use cargo_quad_apk::util::llvm_toolchain_root;
use cargo_quad_apk::util::make_path;
use cargo_quad_apk::util::quad_toml_path;
use cargo_quad_apk::util::to_absolute_path;
use cargo_quad_apk::util::JavaFiles;
use cargo_quad_apk::util::QuadToml;
use std::cell::RefCell;

fn config(host: HostPlatform) -> AndroidConfig {
    AndroidConfig {
        host,
        sdk_path: "/sdk".to_string(),
        ndk_path: "/ndk".to_string(),
        android_jar_path: "/sdk/platforms/android-31/android.jar".to_string(),
        build_tools_version: "31.0.0".to_string(),
        build_targets: vec![AndroidBuildTarget::ArmV7a],
        target_sdk_version: 31,
        min_sdk_version: 21,
        release: false,
    }
}

fn unit(kind: UnitKind, name: &str) -> CompilationUnit {
    CompilationUnit { kind, name: name.to_string(), src_path: "src/main.rs".to_string() }
}

#[test]
fn architecture_names() {
    let all = [
        (AndroidBuildTarget::ArmV7a, "armeabi-v7a", "armv7-linux-androideabi", "armv7a-linux-androideabi", "arm-linux-androideabi", "arm"),
        (AndroidBuildTarget::Arm64V8a, "arm64-v8a", "aarch64-linux-android", "aarch64-linux-android", "aarch64-linux-android", "aarch64"),
        (AndroidBuildTarget::X86, "x86", "i686-linux-android", "i686-linux-android", "i686-linux-android", "i386"),
        (AndroidBuildTarget::X86_64, "x86_64", "x86_64-linux-android", "x86_64-linux-android", "x86_64-linux-android", "x86_64"),
    ];
    for (target, abi, rust, llvm, ndk, arch) in all {
        assert_eq!(target.android_abi(), abi);
        assert_eq!(target.rust_triple(), rust);
        assert_eq!(target.ndk_llvm_triple(), llvm);
        assert_eq!(target.ndk_triple(), ndk);
        assert_eq!(target.clang_arch(), arch);
    }
}

#[test]
fn host_names() {
    assert_eq!(HostPlatform::Linux.tag(), "linux-x86_64");
    assert_eq!(HostPlatform::MacOs.tag(), "darwin-x86_64");
    assert_eq!(HostPlatform::Windows64.tag(), "windows-x86_64");
    assert_eq!(HostPlatform::Windows32.tag(), "windows");
    assert_eq!(HostPlatform::Linux.exe_suffix(), "");
    assert_eq!(HostPlatform::Windows64.exe_suffix(), ".exe");
    assert_eq!(HostPlatform::Windows32.cmd_suffix(), ".cmd");
    assert_eq!(HostPlatform::MacOs.cmd_suffix(), "");
    assert_eq!(HostPlatform::Windows64.bat_suffix(), ".bat");
    assert_eq!(HostPlatform::Linux.bat_suffix(), "");
    assert!(HostPlatform::Windows32.windows());
    assert!(!HostPlatform::MacOs.windows());
}

#[test]
fn units_are_the_same_by_kind_and_name() {
    let a = unit(UnitKind::Bin, "app");
    let mut b = unit(UnitKind::Bin, "app");
    b.src_path = "elsewhere.rs".to_string();
    assert!(a.is_same_unit(&b));
    assert!(!a.is_same_unit(&unit(UnitKind::ExampleBin, "app")));
    assert!(!a.is_same_unit(&unit(UnitKind::Bin, "app2")));
}

#[test]
fn build_directories() {
    let mut config = config(HostPlatform::Linux);
    assert_eq!(get_root_build_directory("/p/target", &config), "/p/target/android-artifacts/debug");
    config.release = true;
    assert_eq!(get_root_build_directory("/p/target", &config), "/p/target/android-artifacts/release");
    assert_eq!(get_target_directory("/root", &unit(UnitKind::Bin, "app")), Some("/root/bin/app".to_string()));
    assert_eq!(
        get_target_directory("/root", &unit(UnitKind::ExampleBin, "demo")),
        Some("/root/examples/demo".to_string())
    );
    assert_eq!(get_target_directory("/root", &unit(UnitKind::Other, "lib")), None);
}

#[test]
fn toolchain_paths() {
    assert_eq!(make_path(&config(HostPlatform::Linux)), "/ndk/prebuild/linux-x86_64/make");
    assert_eq!(make_path(&config(HostPlatform::MacOs)), "/ndk/prebuild/darwin-x86_64/make");
    assert_eq!(
        llvm_toolchain_root(&config(HostPlatform::Linux)),
        "/ndk/toolchains/llvm/prebuilt/linux-x86_64"
    );
    assert_eq!(
        llvm_toolchain_root(&config(HostPlatform::Windows32)),
        "/ndk/toolchains/llvm/prebuilt/windows"
    );
    assert_eq!(
        clang_versions_dir(&config(HostPlatform::Linux)),
        "/ndk/toolchains/llvm/prebuilt/linux-x86_64/lib/clang"
    );
}

fn tried(platform: u32) -> Vec<u32> {
    let seen = RefCell::new(Vec::new());
    let result = find_ndk_path(
        platform,
        |v: u32| {
            seen.borrow_mut().push(v);
            format!("/p/{}", v)
        },
        |_: &String| false,
    );
    assert!(matches!(result, Err(BuildError::NdkFileNotFound { .. })));
    seen.into_inner()
}

#[test]
fn platform_search_goes_down_then_up() {
    let mut expected: Vec<u32> = vec![5, 4, 3, 2, 1];
    expected.extend(5..100);
    assert_eq!(tried(5), expected);
    assert_eq!(tried(1), { let mut v = vec![1]; v.extend(1..100); v });
    assert_eq!(tried(0), (0..100).collect::<Vec<u32>>());
    assert_eq!(tried(2), { let mut v = vec![2, 1]; v.extend(2..100); v });
    assert_eq!(tried(99), { let mut v: Vec<u32> = (1..=99).rev().collect(); v.push(99); v });
    assert_eq!(tried(100), (1..=100).rev().collect::<Vec<u32>>());
    assert_eq!(tried(101).len(), 101);
}

#[test]
fn platform_search_returns_first_existing() {
    let found = find_ndk_path(21, |v: u32| format!("/p/{}", v), |p: &String| p == "/p/19" || p == "/p/23");
    assert_eq!(found.unwrap(), "/p/19");
    let found = find_ndk_path(21, |v: u32| format!("/p/{}", v), |p: &String| p == "/p/0" || p == "/p/23");
    assert_eq!(found.unwrap(), "/p/23");
    let found = find_ndk_path(21, |v: u32| format!("/p/{}", v), |p: &String| p == "/p/1" || p == "/p/23");
    assert_eq!(found.unwrap(), "/p/1");
    let found = find_ndk_path(21, |v: u32| format!("/p/{}", v), |p: &String| p == "/p/21");
    assert_eq!(found.unwrap(), "/p/21");
    let found = find_ndk_path(21, |v: u32| format!("/p/{}", v), |p: &String| p == "/p/0" || p == "/p/100");
    assert_eq!(
        found.unwrap_err().message(),
        "Unable to find NDK file: neither `/p/21` nor its like for a platform version from 1 to 99"
    );
}

#[test]
fn compiler_drivers_are_searched_by_platform() {
    let bin = "/ndk/toolchains/llvm/prebuilt/linux-x86_64/bin";
    let config = config(HostPlatform::Linux);
    let only19 = format!("{}/armv7a-linux-androideabi19-clang", bin);
    let found = find_clang(&config, AndroidBuildTarget::ArmV7a, |p: &String| *p == only19);
    assert_eq!(found.unwrap(), only19);
    let only24 = format!("{}/aarch64-linux-android24-clang++", bin);
    let found = find_clang_cpp(&config, AndroidBuildTarget::Arm64V8a, |p: &String| *p == only24);
    assert_eq!(found.unwrap(), only24);
    let missing = find_clang(&config, AndroidBuildTarget::X86, |_: &String| false).unwrap_err();
    match &missing {
        BuildError::ClangNotFound { directory, pattern, lowest, highest } => {
            assert_eq!(directory, bin);
            assert_eq!(pattern, "i686-linux-android<version>-clang");
            assert_eq!((*lowest, *highest), (1, 99));
        }
        other => panic!("unexpected {:?}", other),
    }
    assert_eq!(
        missing.message(),
        "Unable to find NDK clang: no `i686-linux-android<version>-clang` in `/ndk/toolchains/llvm/prebuilt/linux-x86_64/bin` for a platform version from 1 to 99"
    );
    let missing = find_clang_cpp(&config, AndroidBuildTarget::X86, |_: &String| false).unwrap_err();
    match &missing {
        BuildError::ClangCppNotFound { directory, pattern, lowest, highest } => {
            assert_eq!(directory, bin);
            assert_eq!(pattern, "i686-linux-android<version>-clang++");
            assert_eq!((*lowest, *highest), (1, 99));
        }
        other => panic!("unexpected {:?}", other),
    }
    assert_eq!(
        missing.message(),
        "Unable to find NDK clang++: no `i686-linux-android<version>-clang++` in `/ndk/toolchains/llvm/prebuilt/linux-x86_64/bin` for a platform version from 1 to 99"
    );
}

#[test]
fn missing_compiler_names_the_place_and_the_versions_searched() {
    let mut settings = config(HostPlatform::Windows64);
    settings.ndk_path = "/other".to_string();
    settings.min_sdk_version = 120;
    let missing = find_clang(&settings, AndroidBuildTarget::ArmV7a, |_: &String| false).unwrap_err();
    assert_eq!(
        missing.message(),
        "Unable to find NDK clang: no `armv7a-linux-androideabi<version>-clang.cmd` in `/other/toolchains/llvm/prebuilt/windows-x86_64/bin` for a platform version from 1 to 120"
    );
    settings.min_sdk_version = 0;
    let missing = find_clang_cpp(&settings, AndroidBuildTarget::ArmV7a, |_: &String| false).unwrap_err();
    match missing {
        BuildError::ClangCppNotFound { lowest, highest, .. } => assert_eq!((lowest, highest), (0, 99)),
        other => panic!("unexpected {:?}", other),
    }
    let missing = find_ndk_path(0, |v: u32| format!("/p/{}", v), |_: &String| false).unwrap_err();
    assert_eq!(
        missing.message(),
        "Unable to find NDK file: neither `/p/0` nor its like for a platform version from 0 to 99"
    );
    let missing = find_ndk_path(150, |v: u32| format!("/p/{}", v), |_: &String| false).unwrap_err();
    assert_eq!(
        missing.message(),
        "Unable to find NDK file: neither `/p/150` nor its like for a platform version from 1 to 150"
    );
}

#[test]
fn compiler_driver_is_a_script_on_windows() {
    let config = config(HostPlatform::Windows64);
    let probed = RefCell::new(Vec::<String>::new());
    let _ = find_clang(&config, AndroidBuildTarget::X86_64, |p: &String| {
        probed.borrow_mut().push(p.clone());
        true
    });
    assert_eq!(probed.borrow().len(), 1);
    assert!(probed.borrow()[0].ends_with("x86_64-linux-android21-clang.cmd"));
}

#[test]
fn archiver_and_introspection_tool() {
    let bin = "/ndk/toolchains/llvm/prebuilt/linux-x86_64/bin";
    let config = config(HostPlatform::Linux);
    assert_eq!(find_ar(&config, |_: &String| true).unwrap(), format!("{}/llvm-ar", bin));
    assert_eq!(find_readelf(&config, |_: &String| true).unwrap(), format!("{}/llvm-readelf", bin));
    let error = find_ar(&config, |_: &String| false).unwrap_err();
    assert_eq!(error.message(), format!("Unable to find ar at `{}/llvm-ar`", bin));
    let error = find_readelf(&config, |_: &String| false).unwrap_err();
    assert_eq!(error.message(), format!("Unable to find readelf at `{}/llvm-readelf`", bin));
    let windows = cargo_quad_apk::util::find_ar(&self::config(HostPlatform::Windows64), |_: &String| true).unwrap();
    assert!(windows.ends_with("llvm-ar.exe"));
}

#[test]
fn unwind_library_directory() {
    let config = config(HostPlatform::Linux);
    let dir = "/ndk/toolchains/llvm/prebuilt/linux-x86_64/lib/clang/14.0.6/lib/linux/i386";
    let library = format!("{}/libunwind.a", dir);
    let found = find_libunwind_dir(&config, AndroidBuildTarget::X86, "14.0.6", |p: &String| *p == library);
    assert_eq!(found.unwrap(), dir);
    let error = find_libunwind_dir(&config, AndroidBuildTarget::X86, "14.0.6", |_: &String| false).unwrap_err();
    assert_eq!(error.message(), format!("Unable to find libunwind.a at `{}`", dir));
}

#[test]
fn auxiliary_settings_are_collected_in_package_order() {
    let first = QuadToml {
        main_activity_inject: Some("java/Inject.java".to_string()),
        java_files: Some(vec!["java/a/A.java".to_string(), "java/B.java".to_string()]),
        comptime_jar_files: None,
        runtime_jar_files: Some(vec!["jars/rt.jar".to_string()]),
        java_services: Some(vec!["a.Service".to_string()]),
        package_root: "/pkg/one".to_string(),
    };
    let second = QuadToml {
        main_activity_inject: None,
        java_files: None,
        comptime_jar_files: Some(vec!["c.jar".to_string()]),
        runtime_jar_files: None,
        java_services: None,
        package_root: "/pkg/two".to_string(),
    };
    let third = QuadToml {
        main_activity_inject: Some("inject.java".to_string()),
        java_files: Some(vec![]),
        comptime_jar_files: None,
        runtime_jar_files: None,
        java_services: Some(vec!["b.Service".to_string(), "c.Service".to_string()]),
        package_root: "/pkg/three".to_string(),
    };
    let files = collect_java_files(&vec![first, second, third]);
    let pair = |a: &str, b: &str| (a.to_string(), b.to_string());
    assert_eq!(files.main_activity_injects, vec!["/pkg/one/java/Inject.java".to_string(), "/pkg/three/inject.java".to_string()]);
    assert_eq!(files.java_files, vec![pair("/pkg/one/java/a/A.java", "java/a/A.java"), pair("/pkg/one/java/B.java", "java/B.java")]);
    assert_eq!(files.comptime_jar_files, vec![pair("/pkg/two/c.jar", "c.jar")]);
    assert_eq!(files.runtime_jar_files, vec![pair("/pkg/one/jars/rt.jar", "jars/rt.jar")]);
    assert_eq!(files.java_services, vec!["a.Service".to_string(), "b.Service".to_string(), "c.Service".to_string()]);
    let none = collect_java_files(&vec![]);
    assert!(none.java_files.is_empty() && none.java_services.is_empty());
    let empty = JavaFiles::new();
    assert!(empty.main_activity_injects.is_empty());
}

#[test]
fn absolute_paths_join_piece_by_piece() {
    assert_eq!(to_absolute_path("/root", "a/b/c.java"), "/root/a/b/c.java");
    assert_eq!(to_absolute_path("/root", "file"), "/root/file");
    assert_eq!(to_absolute_path("/root", "a//b"), "/root/a/b");
    assert_eq!(quad_toml_path("/pkg"), "/pkg/quad.toml");
}
