use artifact_sync::disk::DiskSnapshot;
use artifact_sync::registry::{
    destination_for, get_build_directories, BuildConfiguration, BuildDirectories, SyncPurpose,
};

#[test]
fn destination_for_covers_every_pair() {
    assert_eq!(destination_for(SyncPurpose::Project, BuildConfiguration::Debug), "build/bin/Debug");
    assert_eq!(destination_for(SyncPurpose::Project, BuildConfiguration::Release), "build/bin/Release");
    assert_eq!(
        destination_for(SyncPurpose::ManualTest, BuildConfiguration::Debug),
        "build/bin/tests/Debug/manual"
    );
    assert_eq!(
        destination_for(SyncPurpose::ManualTest, BuildConfiguration::Release),
        "build/bin/tests/Release/manual"
    );
    assert_eq!(
        destination_for(SyncPurpose::UnitTest, BuildConfiguration::Debug),
        "build/bin/tests/Debug/unit"
    );
    assert_eq!(
        destination_for(SyncPurpose::UnitTest, BuildConfiguration::Release),
        "build/bin/tests/Release/unit"
    );
}

#[test]
fn destinations_are_pairwise_distinct() {
    let mut seen: Vec<&str> = Vec::new();
    for purpose in SyncPurpose::all() {
        for configuration in BuildConfiguration::all() {
            let path = destination_for(purpose, configuration);
            assert!(!seen.contains(&path));
            seen.push(path);
        }
    }
    assert_eq!(seen.len(), 6);
}

#[test]
fn get_build_directories_gives_the_project_pair() {
    assert_eq!(get_build_directories(), ("build/bin/Debug", "build/bin/Release"));
}

#[test]
fn configurations_come_in_fixed_order() {
    assert_eq!(
        BuildConfiguration::all(),
        vec![BuildConfiguration::Debug, BuildConfiguration::Release]
    );
    assert_eq!(
        SyncPurpose::all(),
        vec![SyncPurpose::Project, SyncPurpose::ManualTest, SyncPurpose::UnitTest]
    );
}

#[test]
fn names_and_labels() {
    assert_eq!(BuildConfiguration::Debug.name(), "Debug");
    assert_eq!(BuildConfiguration::Release.name(), "Release");
    assert_eq!(SyncPurpose::Project.label(), "project");
    assert_eq!(SyncPurpose::ManualTest.label(), "manual test");
    assert_eq!(SyncPurpose::UnitTest.label(), "unit test");
}

#[test]
fn from_name_ignores_letter_case() {
    assert_eq!(BuildConfiguration::from_name("debug"), Some(BuildConfiguration::Debug));
    assert_eq!(BuildConfiguration::from_name("Debug"), Some(BuildConfiguration::Debug));
    assert_eq!(BuildConfiguration::from_name("DEBUG"), Some(BuildConfiguration::Debug));
    assert_eq!(BuildConfiguration::from_name("release"), Some(BuildConfiguration::Release));
    assert_eq!(BuildConfiguration::from_name("ReLeAsE"), Some(BuildConfiguration::Release));
}

#[test]
fn from_name_rejects_other_text() {
    assert_eq!(BuildConfiguration::from_name(""), None);
    assert_eq!(BuildConfiguration::from_name("debu"), None);
    assert_eq!(BuildConfiguration::from_name("debugg"), None);
    assert_eq!(BuildConfiguration::from_name("profile"), None);
    assert_eq!(BuildConfiguration::from_name("relea\u{17f}e"), None);
    assert_eq!(BuildConfiguration::from_name(" release"), None);
}

#[test]
fn for_purpose_follows_the_registry() {
    for purpose in SyncPurpose::all() {
        let directories = BuildDirectories::for_purpose(purpose);
        assert_eq!(directories.debug, destination_for(purpose, BuildConfiguration::Debug));
        assert_eq!(directories.release, destination_for(purpose, BuildConfiguration::Release));
        for configuration in BuildConfiguration::all() {
            assert_eq!(directories.directory(configuration), destination_for(purpose, configuration));
        }
    }
}

#[test]
fn directory_existence_is_read_from_the_snapshot() {
    let directories = BuildDirectories { debug: "out/d", release: "out/r" };
    let mut disk = DiskSnapshot::new();
    assert!(!directories.does_debug_directory_exist(&disk));
    assert!(!directories.does_release_directory_exist(&disk));
    disk.mark_present("out/r");
    assert!(!directories.does_debug_directory_exist(&disk));
    assert!(directories.does_release_directory_exist(&disk));
    disk.mark_present("out/d");
    assert!(directories.does_debug_directory_exist(&disk));
    assert!(directories.does_release_directory_exist(&disk));
}

#[test]
fn snapshot_holds_what_was_marked() {
    let mut disk = DiskSnapshot::new();
    assert!(!disk.is_present("a/b"));
    disk.mark_present("a/b");
    disk.mark_present("a/b");
    disk.mark_present("c");
    assert!(disk.is_present("a/b"));
    assert!(disk.is_present("c"));
    assert!(!disk.is_present("a"));
    assert!(!disk.is_present("a/b/"));
    assert!(!disk.is_present(""));
}
