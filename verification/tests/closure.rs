use cargo_quad_apk::closure::DylibClosure;
use cargo_quad_apk::closure::Lookup;
use cargo_quad_apk::libraries::SharedLibraries;
use cargo_quad_apk::libraries::SharedLibrary;
use cargo_quad_apk::target::AndroidBuildTarget;
use cargo_quad_apk::target::CompilationUnit;
use cargo_quad_apk::target::UnitKind;

fn names(items: &[&str]) -> Vec<String> {
    items.iter().map(|s| s.to_string()).collect()
}

fn unit(kind: UnitKind, name: &str) -> CompilationUnit {
    CompilationUnit { kind, name: name.to_string(), src_path: format!("src/{}.rs", name) }
}

fn library(abi: AndroidBuildTarget, name: &str) -> SharedLibrary {
    SharedLibrary { abi, path: format!("/libs/{}", name), filename: name.to_string() }
}

#[test]
fn platform_libraries_are_never_looked_up() {
    let mut closure = DylibClosure::new(AndroidBuildTarget::ArmV7a, &names(&["libc.so", "libm.so", "libc.so"]));
    assert_eq!(closure.names, names(&["libc.so", "libm.so"]));
    assert_eq!(closure.processed, vec![true, true]);
    assert_eq!(closure.next_unprocessed(), None);
    closure.add_needed(&names(&["libc.so", "libm.so"]));
    assert_eq!(closure.next_unprocessed(), None);
    assert!(closure.knows("libm.so"));
    assert!(!closure.knows("libz.so"));
}

#[test]
fn closure_follows_needed_libraries() {
    let mut closure = DylibClosure::new(AndroidBuildTarget::Arm64V8a, &names(&["libc.so"]));
    closure.add_needed(&names(&["libc.so", "libfoo.so", "libbar.so", "libfoo.so"]));
    assert_eq!(closure.names, names(&["libc.so", "libfoo.so", "libbar.so"]));
    assert_eq!(closure.processed, vec![true, false, false]);

    assert_eq!(closure.next_unprocessed(), Some("libfoo.so".to_string()));
    let warning = closure.resolve(Lookup::Found {
        path: "/deps/libfoo.so".to_string(),
        needed: names(&["libbar.so", "libbaz.so", "libc.so"]),
    });
    assert_eq!(warning, None);
    assert_eq!(closure.names, names(&["libc.so", "libfoo.so", "libbar.so", "libbaz.so"]));
    assert_eq!(closure.processed, vec![true, true, false, false]);

    assert_eq!(closure.next_unprocessed(), Some("libbar.so".to_string()));
    let warning = closure.resolve(Lookup::Missing);
    assert_eq!(warning, Some("Warning: Shared library \"libbar.so\" not found.".to_string()));
    assert_eq!(closure.processed, vec![true, true, true, false]);

    assert_eq!(closure.next_unprocessed(), Some("libbaz.so".to_string()));
    // a cycle back to a processed name is not followed again
    let warning = closure.resolve(Lookup::Found {
        path: "/deps/libbaz.so".to_string(),
        needed: names(&["libfoo.so", "libbar.so"]),
    });
    assert_eq!(warning, None);
    assert_eq!(closure.next_unprocessed(), None);
    assert_eq!(closure.pending_index(), 4);

    let found = closure.into_libraries();
    assert_eq!(found.len(), 2);
    assert_eq!(found[0].filename, "libfoo.so");
    assert_eq!(found[0].path, "/deps/libfoo.so");
    assert_eq!(found[0].abi, AndroidBuildTarget::Arm64V8a);
    assert_eq!(found[1].filename, "libbaz.so");
    assert_eq!(found[1].path, "/deps/libbaz.so");
}

#[test]
fn resolving_with_nothing_pending_changes_nothing() {
    let mut closure = DylibClosure::new(AndroidBuildTarget::X86, &names(&["libc.so"]));
    let warning = closure.resolve(Lookup::Found { path: "/x".to_string(), needed: names(&["liby.so"]) });
    assert_eq!(warning, None);
    assert_eq!(closure.names, names(&["libc.so"]));
    assert_eq!(closure.processed, vec![true]);
    assert!(closure.found.is_empty());
    assert_eq!(closure.resolve(Lookup::Missing), None);
}

#[test]
fn closure_never_finds_a_library_twice() {
    let mut closure = DylibClosure::new(AndroidBuildTarget::X86, &vec![]);
    closure.add_needed(&names(&["a.so", "b.so"]));
    let mut rounds = 0;
    while let Some(name) = closure.next_unprocessed() {
        // every library needs every other one, and itself
        closure.resolve(Lookup::Found {
            path: format!("/p/{}", name),
            needed: names(&["a.so", "b.so", "c.so"]),
        });
        rounds += 1;
        assert!(rounds <= 3);
    }
    assert_eq!(rounds, 3);
    let found = closure.into_libraries();
    let mut file_names: Vec<String> = found.iter().map(|l| l.filename.clone()).collect();
    assert_eq!(file_names, names(&["a.so", "b.so", "c.so"]));
    file_names.dedup();
    assert_eq!(file_names.len(), 3);
}

#[test]
fn shared_libraries_keep_one_record_per_architecture_and_file_name() {
    let mut map = SharedLibraries::new();
    assert_eq!(map.len(), 0);
    let app = unit(UnitKind::Bin, "app");
    assert!(map.insert(unit(UnitKind::Bin, "app"), library(AndroidBuildTarget::ArmV7a, "libapp.so")));
    assert!(map.insert(unit(UnitKind::Bin, "app"), library(AndroidBuildTarget::Arm64V8a, "libapp.so")));
    assert!(!map.insert(unit(UnitKind::Bin, "app"), library(AndroidBuildTarget::ArmV7a, "libapp.so")));
    assert!(map.insert(unit(UnitKind::Bin, "app"), library(AndroidBuildTarget::ArmV7a, "libc++_shared.so")));
    assert!(map.insert(unit(UnitKind::ExampleBin, "app"), library(AndroidBuildTarget::ArmV7a, "libapp.so")));
    assert_eq!(map.len(), 2);
    let index = map.unit_index(&app).unwrap();
    assert_eq!(index, 0);
    let libs = map.libraries(index).unwrap();
    let seen: Vec<(AndroidBuildTarget, String)> = libs.iter().map(|l| (l.abi, l.filename.clone())).collect();
    assert_eq!(
        seen,
        vec![
            (AndroidBuildTarget::ArmV7a, "libapp.so".to_string()),
            (AndroidBuildTarget::Arm64V8a, "libapp.so".to_string()),
            (AndroidBuildTarget::ArmV7a, "libc++_shared.so".to_string()),
        ]
    );
    assert_eq!(map.unit_index(&unit(UnitKind::ExampleBin, "app")), Some(1));
    assert_eq!(map.libraries(1).unwrap().len(), 1);
    assert_eq!(map.unit_index(&unit(UnitKind::Bin, "other")), None);
    assert!(map.libraries(2).is_none());
    assert!(map.has_slot(0, &library(AndroidBuildTarget::Arm64V8a, "libapp.so")));
    assert!(!map.has_slot(1, &library(AndroidBuildTarget::Arm64V8a, "libapp.so")));
}

#[test]
fn duplicate_keeps_the_first_record() {
    let mut map = SharedLibraries::new();
    let first = SharedLibrary { abi: AndroidBuildTarget::X86, path: "/first".to_string(), filename: "l.so".to_string() };
    let second = SharedLibrary { abi: AndroidBuildTarget::X86, path: "/second".to_string(), filename: "l.so".to_string() };
    assert!(map.insert(unit(UnitKind::Bin, "u"), first));
    assert!(!map.insert(unit(UnitKind::Bin, "u"), second));
    assert_eq!(map.libraries(0).unwrap().len(), 1);
    assert_eq!(map.libraries(0).unwrap()[0].path, "/first");
}

#[test]
fn insert_all_counts_new_records() {
    let mut map = SharedLibraries::new();
    let u = unit(UnitKind::Bin, "u");
    let added = map.insert_all(
        &u,
        &vec![
            library(AndroidBuildTarget::X86, "a.so"),
            library(AndroidBuildTarget::X86, "a.so"),
            library(AndroidBuildTarget::X86, "b.so"),
        ],
    );
    assert_eq!(added, 2);
    assert_eq!(map.insert_all(&u, &vec![]), 0);
    assert_eq!(map.insert_all(&unit(UnitKind::Bin, "v"), &vec![]), 0);
    assert_eq!(map.len(), 1);
    assert_eq!(map.libraries(0).unwrap().len(), 2);
}

#[test]
fn missing_dependency_leaves_the_unit_with_its_library() {
    let app = unit(UnitKind::Bin, "app");
    let mut closure = DylibClosure::new(AndroidBuildTarget::ArmV7a, &names(&["libc.so"]));
    closure.add_needed(&names(&["libc.so", "libgone.so"]));
    assert_eq!(closure.next_unprocessed(), Some("libgone.so".to_string()));
    let warning = closure.resolve(Lookup::Missing);
    assert!(warning.is_some());
    assert_eq!(closure.next_unprocessed(), None);
    let found = closure.into_libraries();
    assert!(found.is_empty());

    let mut map = SharedLibraries::new();
    map.record_libraries(&app, library(AndroidBuildTarget::ArmV7a, "libapp.so"), &found);
    assert_eq!(map.unit_index(&app), Some(0));
    assert_eq!(map.libraries(0).unwrap().len(), 1);
    assert_eq!(map.libraries(0).unwrap()[0].filename, "libapp.so");
}

#[test]
fn recording_skips_a_found_library_named_like_the_primary_one() {
    let app = unit(UnitKind::Bin, "app");
    let mut map = SharedLibraries::new();
    map.record_libraries(
        &app,
        library(AndroidBuildTarget::X86, "libapp.so"),
        &vec![library(AndroidBuildTarget::X86, "libapp.so"), library(AndroidBuildTarget::X86, "libdep.so")],
    );
    let file_names: Vec<String> = map.libraries(0).unwrap().iter().map(|l| l.filename.clone()).collect();
    assert_eq!(file_names, names(&["libapp.so", "libdep.so"]));
}
