use artifact_sync::descriptor::{resources_directory, DLLData, Layout, ResourceCategory};
use artifact_sync::disk::DiskSnapshot;
use artifact_sync::paths::{file_name, join};
use artifact_sync::probe::{dependency_probe_paths, resource_probe_paths};
use artifact_sync::registry::{BuildConfiguration, BuildDirectories};

#[test]
fn join_and_file_name() {
    assert_eq!(join("build/bin", "Debug"), "build/bin/Debug");
    assert_eq!(join("", "x"), "/x");
    assert_eq!(file_name("SDL2", "dll"), "SDL2.dll");
    assert_eq!(file_name("assets", "pak"), "assets.pak");
}

#[test]
fn new_descriptor_is_a_dll() {
    let descriptor = DLLData::new("SDL2", "dep/SDL2-2.0.20/lib", Layout::Flat);
    assert_eq!(descriptor.name, "SDL2");
    assert_eq!(descriptor.source_location, "dep/SDL2-2.0.20/lib");
    assert_eq!(descriptor.extension, "dll");
    assert_eq!(descriptor.layout, Layout::Flat);
    assert_eq!(descriptor.file_name(), "SDL2.dll");
}

#[test]
fn flat_source_is_the_same_for_every_configuration() {
    let descriptor = DLLData::new("SDL2", "dep/SDL2-2.0.20/lib", Layout::Flat);
    assert_eq!(descriptor.source_path(BuildConfiguration::Debug), "dep/SDL2-2.0.20/lib/SDL2.dll");
    assert_eq!(descriptor.source_path(BuildConfiguration::Release), "dep/SDL2-2.0.20/lib/SDL2.dll");
    assert_eq!(descriptor.source_directory(BuildConfiguration::Debug), "dep/SDL2-2.0.20/lib");
}

#[test]
fn split_source_has_one_file_per_configuration() {
    let descriptor = DLLData::new("libEGL", "dep/ANGLE-1.0/lib", Layout::SplitByConfiguration);
    assert_eq!(
        descriptor.source_path(BuildConfiguration::Debug),
        "dep/ANGLE-1.0/lib/Debug/libEGL.dll"
    );
    assert_eq!(
        descriptor.source_path(BuildConfiguration::Release),
        "dep/ANGLE-1.0/lib/Release/libEGL.dll"
    );
    assert_ne!(
        descriptor.source_path(BuildConfiguration::Debug),
        descriptor.source_path(BuildConfiguration::Release)
    );
}

#[test]
fn destination_path_does_not_depend_on_the_layout() {
    let flat = DLLData::with_extension("foo", "dep/libfoo/lib", "so", Layout::Flat);
    let split = DLLData::with_extension("foo", "dep/libfoo/lib", "so", Layout::SplitByConfiguration);
    assert_eq!(flat.destination_path("build/bin/Debug"), "build/bin/Debug/foo.so");
    assert_eq!(split.destination_path("build/bin/Debug"), "build/bin/Debug/foo.so");
}

#[test]
fn flat_descriptor_exists_with_its_location() {
    let descriptor = DLLData::new("SDL2", "dep/SDL2/lib", Layout::Flat);
    let mut disk = DiskSnapshot::new();
    assert!(!descriptor.does_exist(&disk));
    disk.mark_present("dep/SDL2/lib/Debug");
    assert!(!descriptor.does_exist(&disk));
    disk.mark_present("dep/SDL2/lib");
    assert!(descriptor.does_exist(&disk));
}

#[test]
fn split_descriptor_exists_with_both_subdirectories() {
    let descriptor = DLLData::new("libEGL", "dep/ANGLE/lib", Layout::SplitByConfiguration);
    let mut disk = DiskSnapshot::new();
    disk.mark_present("dep/ANGLE/lib");
    assert!(!descriptor.does_exist(&disk));
    disk.mark_present("dep/ANGLE/lib/Debug");
    assert!(!descriptor.does_exist(&disk));
    disk.mark_present("dep/ANGLE/lib/Release");
    assert!(descriptor.does_exist(&disk));
}

#[test]
fn category_paths() {
    let category = ResourceCategory::new("assets", "resources");
    assert_eq!(category.name, "assets");
    assert_eq!(category.source_root, "resources");
    assert_eq!(category.source_directory(), "resources/assets");
    assert_eq!(category.archive_path("build/bin/Release"), "build/bin/Release/resources/assets.pak");
    assert_eq!(resources_directory("build/bin/Release"), "build/bin/Release/resources");
}

#[test]
fn dependency_probe_paths_list_directories_and_sources() {
    let directories = BuildDirectories { debug: "out/Debug", release: "out/Release" };
    let dlls = vec![
        DLLData::new("SDL2", "dep/SDL2/lib", Layout::Flat),
        DLLData::new("libEGL", "dep/ANGLE/lib", Layout::SplitByConfiguration),
    ];
    let mut paths = dependency_probe_paths(&directories, &dlls);
    paths.sort();
    paths.dedup();
    assert_eq!(
        paths,
        vec![
            "dep/ANGLE/lib/Debug/libEGL.dll",
            "dep/ANGLE/lib/Release/libEGL.dll",
            "dep/SDL2/lib/SDL2.dll",
            "out/Debug",
            "out/Release",
        ]
    );
}

#[test]
fn resource_probe_paths_list_directories_and_sources() {
    let directories = BuildDirectories { debug: "out/Debug", release: "out/Release" };
    let categories =
        vec![ResourceCategory::new("assets", "resources"), ResourceCategory::new("locales", "resources")];
    let mut paths = resource_probe_paths(&directories, &categories);
    paths.sort();
    paths.dedup();
    assert_eq!(
        paths,
        vec![
            "out/Debug",
            "out/Debug/resources",
            "out/Release",
            "out/Release/resources",
            "resources/assets",
            "resources/locales",
        ]
    );
}

#[test]
fn declared_dependencies() {
    let dlls = artifact_sync::catalog::dependencies("2.0.20", "2.1.0");
    assert_eq!(
        dlls,
        vec![
            DLLData::new("SDL2", "dep/SDL2-2.0.20/lib", Layout::Flat),
            DLLData::new("libEGL", "dep/ANGLE-2.1.0/lib", Layout::SplitByConfiguration),
            DLLData::new("libGLESv2", "dep/ANGLE-2.1.0/lib", Layout::SplitByConfiguration),
        ]
    );
    assert_eq!(artifact_sync::catalog::library_directory("SDL2", ""), "dep/SDL2-/lib");
}

#[test]
fn declared_resource_categories() {
    assert_eq!(
        artifact_sync::catalog::resource_categories(),
        vec![
            ResourceCategory::new("assets", "resources"),
            ResourceCategory::new("locales", "resources"),
            ResourceCategory::new("scripts", "resources"),
        ]
    );
}
