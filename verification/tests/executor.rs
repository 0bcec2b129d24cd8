use std::collections::{HashMap, HashSet};

use artifact_sync::descriptor::{DLLData, Layout, ResourceCategory};
use artifact_sync::disk::DiskSnapshot;
use artifact_sync::executor::{
    can_sync, create_asset_archive, place_dependency, sync_dependency, sync_resource_category,
};
use artifact_sync::plan::{compress_and_copy_resources, copy_dlls_to_directories};
use artifact_sync::outcome::{FatalReason, Operation, Step, SyncOutcome};
use artifact_sync::registry::{BuildConfiguration, BuildDirectories, SyncPurpose};
use artifact_sync::report::RunReport;

/// A disk in memory, on which the operations of a plan are carried out.
struct Disk {
    files: HashMap<String, Vec<u8>>,
    directories: HashSet<String>,
    created: Vec<String>,
}

impl Disk {
    fn new() -> Disk {
        Disk { files: HashMap::new(), directories: HashSet::new(), created: Vec::new() }
    }

    fn snapshot(&self) -> DiskSnapshot {
        let mut snapshot = DiskSnapshot::new();
        for path in self.files.keys() {
            snapshot.mark_present(path);
        }
        for path in &self.directories {
            snapshot.mark_present(path);
        }
        snapshot
    }

    fn perform(&mut self, operation: &Operation) -> bool {
        match operation {
            Operation::CopyFile { source, destination } => match self.files.get(source).cloned() {
                Some(bytes) => {
                    self.files.insert(destination.clone(), bytes);
                    true
                }
                None => false,
            },
            Operation::CreateDirectory { path } => {
                self.created.push(path.clone());
                self.directories.insert(path.clone())
            }
            Operation::PackArchive { source_directory, archive, label } => {
                if !self.directories.contains(source_directory) {
                    return false;
                }
                self.files.insert(archive.clone(), label.as_bytes().to_vec());
                true
            }
        }
    }

    fn carry_out(&mut self, step: &Step) -> SyncOutcome {
        let mut succeeded = 0;
        if let Step::Place { operations, .. } = step {
            for operation in operations {
                if !self.perform(operation) {
                    break;
                }
                succeeded += 1;
            }
        }
        step.conclude(succeeded)
    }
}

fn completed(path: &str) -> SyncOutcome {
    SyncOutcome::Completed { destination_path: path.to_string() }
}

fn copy(source: &str, destination: &str) -> Step {
    Step::Place {
        operations: vec![Operation::CopyFile {
            source: source.to_string(),
            destination: destination.to_string(),
        }],
        source_path: source.to_string(),
        destination_path: destination.to_string(),
    }
}

fn halt(source: &str, destination: &str) -> Step {
    Step::Halt { source_path: source.to_string(), destination_path: destination.to_string() }
}

fn pack(source: &str, archive: &str, label: &str) -> Operation {
    Operation::PackArchive {
        source_directory: source.to_string(),
        archive: archive.to_string(),
        label: label.to_string(),
    }
}

#[test]
fn can_sync_needs_the_directory() {
    let mut disk = DiskSnapshot::new();
    assert!(!can_sync("build/bin/Debug", &disk));
    disk.mark_present("build/bin/Debug");
    assert!(can_sync("build/bin/Debug", &disk));
    assert!(!can_sync("build/bin/Release", &disk));
}

#[test]
fn flat_dependency_is_copied_byte_for_byte() {
    let mut real = Disk::new();
    real.files.insert("dep/libfoo/lib/foo.so".to_string(), vec![0x7f, b'E', b'L', b'F', 0, 255]);
    real.directories.insert("build/bin/Debug".to_string());
    let mut disk = real.snapshot();
    let descriptor = DLLData::with_extension("foo", "dep/libfoo/lib", "so", Layout::Flat);

    let step = place_dependency(
        &descriptor,
        BuildConfiguration::Debug,
        SyncPurpose::Project,
        "build/bin/Debug",
        &mut disk,
    );
    assert_eq!(step, copy("dep/libfoo/lib/foo.so", "build/bin/Debug/foo.so"));
    assert!(disk.is_present("build/bin/Debug/foo.so"));

    let outcome = real.carry_out(&step);
    assert_eq!(outcome, completed("build/bin/Debug/foo.so"));
    assert_eq!(real.files["build/bin/Debug/foo.so"], real.files["dep/libfoo/lib/foo.so"]);
    assert_eq!(real.files["build/bin/Debug/foo.so"], vec![0x7f, b'E', b'L', b'F', 0, 255]);
}

#[test]
fn missing_destination_is_skipped_and_nothing_is_written() {
    let mut disk = DiskSnapshot::new();
    disk.mark_present("dep/libfoo/lib/foo.so");
    disk.mark_present("resources/assets");
    let descriptor = DLLData::with_extension("foo", "dep/libfoo/lib", "so", Layout::Flat);
    let category = ResourceCategory::new("assets", "resources");
    for configuration in BuildConfiguration::all() {
        for purpose in SyncPurpose::all() {
            let skip = Step::Skip { configuration, purpose };
            let step = place_dependency(&descriptor, configuration, purpose, "build/bin/X", &mut disk);
            assert_eq!(step, skip);
            let step = create_asset_archive(&category, configuration, purpose, "build/bin/X", &mut disk);
            assert_eq!(step, skip);
            assert_eq!(
                step.conclude(0),
                SyncOutcome::SkippedMissingDestination { configuration, purpose }
            );
        }
    }
    assert!(!disk.is_present("build/bin/X/foo.so"));
    assert!(!disk.is_present("build/bin/X/resources"));
    assert!(!disk.is_present("build/bin/X/resources/assets.pak"));
}

#[test]
fn missing_source_is_fatal() {
    let mut disk = DiskSnapshot::new();
    disk.mark_present("build/bin/Debug");
    disk.mark_present("dep/ANGLE/lib/Release/libEGL.dll");
    let descriptor = DLLData::new("libEGL", "dep/ANGLE/lib", Layout::SplitByConfiguration);
    let step = sync_dependency(&descriptor, BuildConfiguration::Debug, "build/bin/Debug", &mut disk);
    assert_eq!(step, halt("dep/ANGLE/lib/Debug/libEGL.dll", "build/bin/Debug/libEGL.dll"));
    assert!(!disk.is_present("build/bin/Debug/libEGL.dll"));
    assert_eq!(
        step.conclude(0),
        SyncOutcome::Fatal {
            reason: FatalReason::MissingRequiredSource,
            source_path: "dep/ANGLE/lib/Debug/libEGL.dll".to_string(),
            destination_path: "build/bin/Debug/libEGL.dll".to_string(),
        }
    );
}

#[test]
fn split_dependency_takes_the_source_of_its_configuration() {
    let mut disk = DiskSnapshot::new();
    disk.mark_present("dep/ANGLE/lib/Debug/libEGL.dll");
    disk.mark_present("dep/ANGLE/lib/Release/libEGL.dll");
    let descriptor = DLLData::new("libEGL", "dep/ANGLE/lib", Layout::SplitByConfiguration);
    assert_eq!(
        sync_dependency(&descriptor, BuildConfiguration::Debug, "out/d", &mut disk),
        copy("dep/ANGLE/lib/Debug/libEGL.dll", "out/d/libEGL.dll")
    );
    assert_eq!(
        sync_dependency(&descriptor, BuildConfiguration::Release, "out/r", &mut disk),
        copy("dep/ANGLE/lib/Release/libEGL.dll", "out/r/libEGL.dll")
    );
}

#[test]
fn syncing_twice_is_the_same_as_syncing_once() {
    let mut real = Disk::new();
    real.files.insert("dep/SDL2/lib/SDL2.dll".to_string(), vec![1, 2, 3, 4]);
    real.files.insert("build/bin/Debug/SDL2.dll".to_string(), vec![9, 9]);
    real.directories.insert("build/bin/Debug".to_string());
    let descriptor = DLLData::new("SDL2", "dep/SDL2/lib", Layout::Flat);

    let mut disk = real.snapshot();
    let first = sync_dependency(&descriptor, BuildConfiguration::Debug, "build/bin/Debug", &mut disk);
    assert_eq!(real.carry_out(&first), completed("build/bin/Debug/SDL2.dll"));
    let after_one = real.files.clone();

    let second = sync_dependency(&descriptor, BuildConfiguration::Debug, "build/bin/Debug", &mut disk);
    assert_eq!(second, first);
    assert_eq!(real.carry_out(&second), completed("build/bin/Debug/SDL2.dll"));
    assert_eq!(real.files, after_one);
    assert_eq!(real.files["build/bin/Debug/SDL2.dll"], vec![1, 2, 3, 4]);
}

#[test]
fn missing_source_halts_before_the_next_configuration() {
    let directories = BuildDirectories { debug: "build/bin/Debug", release: "build/bin/Release" };
    let dlls = vec![DLLData::new("SDL2", "dep/SDL2/lib", Layout::Flat)];
    let mut disk = DiskSnapshot::new();
    disk.mark_present("build/bin/Debug");
    let steps = copy_dlls_to_directories(&directories, &dlls, SyncPurpose::Project, &mut disk);
    assert_eq!(steps, vec![halt("dep/SDL2/lib/SDL2.dll", "build/bin/Debug/SDL2.dll")]);
    assert!(steps[0].conclude(0).is_fatal());
}

#[test]
fn skipped_configuration_does_not_stop_the_next() {
    let directories = BuildDirectories { debug: "build/bin/Debug", release: "build/bin/Release" };
    let dlls = vec![DLLData::new("SDL2", "dep/SDL2/lib", Layout::Flat)];

    let mut disk = DiskSnapshot::new();
    disk.mark_present("build/bin/Release");
    let steps = copy_dlls_to_directories(&directories, &dlls, SyncPurpose::UnitTest, &mut disk);
    assert_eq!(
        steps,
        vec![
            Step::Skip { configuration: BuildConfiguration::Debug, purpose: SyncPurpose::UnitTest },
            halt("dep/SDL2/lib/SDL2.dll", "build/bin/Release/SDL2.dll"),
        ]
    );
    assert!(!steps[0].conclude(0).is_fatal());

    disk.mark_present("dep/SDL2/lib/SDL2.dll");
    let steps = copy_dlls_to_directories(&directories, &dlls, SyncPurpose::UnitTest, &mut disk);
    assert_eq!(
        steps,
        vec![
            Step::Skip { configuration: BuildConfiguration::Debug, purpose: SyncPurpose::UnitTest },
            copy("dep/SDL2/lib/SDL2.dll", "build/bin/Release/SDL2.dll"),
        ]
    );
}

#[test]
fn dependency_run_visits_configurations_first_and_dependencies_second() {
    let directories = BuildDirectories::for_purpose(SyncPurpose::ManualTest);
    let dlls = vec![
        DLLData::new("SDL2", "dep/SDL2-2.0.20/lib", Layout::Flat),
        DLLData::new("libEGL", "dep/ANGLE-1.0/lib", Layout::SplitByConfiguration),
        DLLData::new("libGLESv2", "dep/ANGLE-1.0/lib", Layout::SplitByConfiguration),
    ];
    let mut real = Disk::new();
    for path in [
        "dep/SDL2-2.0.20/lib/SDL2.dll",
        "dep/ANGLE-1.0/lib/Debug/libEGL.dll",
        "dep/ANGLE-1.0/lib/Release/libEGL.dll",
        "dep/ANGLE-1.0/lib/Debug/libGLESv2.dll",
        "dep/ANGLE-1.0/lib/Release/libGLESv2.dll",
    ] {
        real.files.insert(path.to_string(), path.as_bytes().to_vec());
    }
    real.directories.insert("build/bin/tests/Debug/manual".to_string());
    real.directories.insert("build/bin/tests/Release/manual".to_string());
    let mut disk = real.snapshot();

    let steps = copy_dlls_to_directories(&directories, &dlls, SyncPurpose::ManualTest, &mut disk);
    assert_eq!(
        steps,
        vec![
            copy("dep/SDL2-2.0.20/lib/SDL2.dll", "build/bin/tests/Debug/manual/SDL2.dll"),
            copy("dep/ANGLE-1.0/lib/Debug/libEGL.dll", "build/bin/tests/Debug/manual/libEGL.dll"),
            copy("dep/ANGLE-1.0/lib/Debug/libGLESv2.dll", "build/bin/tests/Debug/manual/libGLESv2.dll"),
            copy("dep/SDL2-2.0.20/lib/SDL2.dll", "build/bin/tests/Release/manual/SDL2.dll"),
            copy("dep/ANGLE-1.0/lib/Release/libEGL.dll", "build/bin/tests/Release/manual/libEGL.dll"),
            copy(
                "dep/ANGLE-1.0/lib/Release/libGLESv2.dll",
                "build/bin/tests/Release/manual/libGLESv2.dll"
            ),
        ]
    );

    let mut report = RunReport::new();
    for step in &steps {
        assert!(report.record(real.carry_out(step)));
    }
    assert!(report.succeeded());
    assert_eq!(report.completed_count(), 6);
    assert_eq!(
        real.files["build/bin/tests/Release/manual/libEGL.dll"],
        b"dep/ANGLE-1.0/lib/Release/libEGL.dll".to_vec()
    );
    for descriptor in &dlls {
        for configuration in BuildConfiguration::all() {
            let placed = descriptor.destination_path(directories.directory(configuration));
            assert!(disk.is_present(&placed));
            assert!(real.files.contains_key(&placed));
        }
    }
}

#[test]
fn halt_in_the_middle_ends_the_plan() {
    let directories = BuildDirectories { debug: "out/d", release: "out/r" };
    let dlls = vec![
        DLLData::new("a", "dep", Layout::Flat),
        DLLData::new("b", "dep", Layout::SplitByConfiguration),
        DLLData::new("c", "dep", Layout::Flat),
    ];
    let mut disk = DiskSnapshot::new();
    for path in ["out/d", "out/r", "dep/a.dll", "dep/c.dll", "dep/Debug/b.dll"] {
        disk.mark_present(path);
    }
    let steps = copy_dlls_to_directories(&directories, &dlls, SyncPurpose::Project, &mut disk);
    assert_eq!(
        steps,
        vec![
            copy("dep/a.dll", "out/d/a.dll"),
            copy("dep/Debug/b.dll", "out/d/b.dll"),
            copy("dep/c.dll", "out/d/c.dll"),
            copy("dep/a.dll", "out/r/a.dll"),
            halt("dep/Release/b.dll", "out/r/b.dll"),
        ]
    );
    assert!(!disk.is_present("out/r/c.dll"));
}

#[test]
fn empty_dependency_list_gives_an_empty_plan() {
    let directories = BuildDirectories { debug: "out/d", release: "out/r" };
    let mut disk = DiskSnapshot::new();
    disk.mark_present("out/d");
    assert_eq!(copy_dlls_to_directories(&directories, &[], SyncPurpose::Project, &mut disk), vec![]);
}

#[test]
fn missing_resource_directory_is_fatal_and_creates_nothing() {
    let mut real = Disk::new();
    real.directories.insert("build/bin/Release".to_string());
    let mut disk = real.snapshot();
    let category = ResourceCategory::new("assets", "resources");

    let step = create_asset_archive(
        &category,
        BuildConfiguration::Release,
        SyncPurpose::Project,
        "build/bin/Release",
        &mut disk,
    );
    assert_eq!(step, halt("resources/assets", "build/bin/Release/resources/assets.pak"));
    let outcome = real.carry_out(&step);
    assert_eq!(
        outcome,
        SyncOutcome::Fatal {
            reason: FatalReason::MissingRequiredSource,
            source_path: "resources/assets".to_string(),
            destination_path: "build/bin/Release/resources/assets.pak".to_string(),
        }
    );
    assert!(real.files.is_empty());
    assert!(real.created.is_empty());
    assert!(!disk.is_present("build/bin/Release/resources"));
    assert!(!disk.is_present("build/bin/Release/resources/assets.pak"));
}

#[test]
fn resources_directory_created_earlier_stays_after_a_fatal_category() {
    let directories = BuildDirectories { debug: "build/bin/Debug", release: "build/bin/Release" };
    let categories =
        vec![ResourceCategory::new("locales", "resources"), ResourceCategory::new("assets", "resources")];
    let mut real = Disk::new();
    real.directories.insert("build/bin/Release".to_string());
    real.directories.insert("resources/locales".to_string());
    let mut disk = real.snapshot();

    let steps = compress_and_copy_resources(&directories, &categories, SyncPurpose::Project, &mut disk);
    assert_eq!(steps.len(), 4);
    assert_eq!(steps[3], halt("resources/assets", "build/bin/Release/resources/assets.pak"));
    let mut report = RunReport::new();
    for step in &steps {
        assert!(report.record(real.carry_out(step)));
    }
    assert!(report.is_halted());
    assert_eq!(report.completed_count(), 1);
    assert_eq!(report.skipped_count(), 2);
    assert!(real.directories.contains("build/bin/Release/resources"));
    assert!(real.files.contains_key("build/bin/Release/resources/locales.pak"));
    assert!(!real.files.contains_key("build/bin/Release/resources/assets.pak"));
}

#[test]
fn two_categories_create_the_resources_directory_once() {
    let directories = BuildDirectories { debug: "build/bin/Debug", release: "build/bin/Release" };
    let categories =
        vec![ResourceCategory::new("assets", "resources"), ResourceCategory::new("locales", "resources")];
    let mut real = Disk::new();
    real.directories.insert("build/bin/Release".to_string());
    real.directories.insert("resources/assets".to_string());
    real.directories.insert("resources/locales".to_string());
    let mut disk = real.snapshot();

    let steps = compress_and_copy_resources(&directories, &categories, SyncPurpose::Project, &mut disk);
    let skip = Step::Skip { configuration: BuildConfiguration::Debug, purpose: SyncPurpose::Project };
    assert_eq!(
        steps,
        vec![
            skip.clone(),
            skip,
            Step::Place {
                operations: vec![
                    Operation::CreateDirectory { path: "build/bin/Release/resources".to_string() },
                    pack("resources/assets", "build/bin/Release/resources/assets.pak", "assets"),
                ],
                source_path: "resources/assets".to_string(),
                destination_path: "build/bin/Release/resources/assets.pak".to_string(),
            },
            Step::Place {
                operations: vec![pack(
                    "resources/locales",
                    "build/bin/Release/resources/locales.pak",
                    "locales"
                )],
                source_path: "resources/locales".to_string(),
                destination_path: "build/bin/Release/resources/locales.pak".to_string(),
            },
        ]
    );

    let outcomes: Vec<SyncOutcome> = steps.iter().map(|step| real.carry_out(step)).collect();
    assert_eq!(
        outcomes[2..],
        [
            completed("build/bin/Release/resources/assets.pak"),
            completed("build/bin/Release/resources/locales.pak"),
        ]
    );
    assert_eq!(real.created, vec!["build/bin/Release/resources".to_string()]);
    assert_eq!(real.files.len(), 2);
    assert!(real.files.contains_key("build/bin/Release/resources/assets.pak"));
    assert!(real.files.contains_key("build/bin/Release/resources/locales.pak"));
}

#[test]
fn existing_resources_directory_is_not_created_again() {
    let mut disk = DiskSnapshot::new();
    for path in ["out", "out/resources", "resources/scripts"] {
        disk.mark_present(path);
    }
    let category = ResourceCategory::new("scripts", "resources");
    let step = sync_resource_category(&category, "out", &mut disk);
    assert_eq!(
        step,
        Step::Place {
            operations: vec![pack("resources/scripts", "out/resources/scripts.pak", "scripts")],
            source_path: "resources/scripts".to_string(),
            destination_path: "out/resources/scripts.pak".to_string(),
        }
    );
    assert!(disk.is_present("out/resources/scripts.pak"));
}

#[test]
fn failed_packer_is_fatal_for_the_category() {
    let mut real = Disk::new();
    real.directories.insert("out".to_string());
    let mut disk = DiskSnapshot::new();
    disk.mark_present("out");
    disk.mark_present("resources/assets");
    let category = ResourceCategory::new("assets", "resources");
    let step =
        create_asset_archive(&category, BuildConfiguration::Debug, SyncPurpose::Project, "out", &mut disk);
    assert_eq!(
        real.carry_out(&step),
        SyncOutcome::Fatal {
            reason: FatalReason::ExternalToolFailure,
            source_path: "resources/assets".to_string(),
            destination_path: "out/resources/assets.pak".to_string(),
        }
    );
    assert_eq!(real.created, vec!["out/resources".to_string()]);
}

#[test]
fn failed_copy_is_fatal_for_the_dependency() {
    let mut real = Disk::new();
    let mut disk = DiskSnapshot::new();
    disk.mark_present("dep/a.dll");
    let descriptor = DLLData::new("a", "dep", Layout::Flat);
    let step = sync_dependency(&descriptor, BuildConfiguration::Debug, "out", &mut disk);
    assert_eq!(
        real.carry_out(&step),
        SyncOutcome::Fatal {
            reason: FatalReason::FilesystemWriteFailure,
            source_path: "dep/a.dll".to_string(),
            destination_path: "out/a.dll".to_string(),
        }
    );
}

#[test]
fn plan_is_the_same_for_snapshots_that_agree_on_the_probed_paths() {
    let directories = BuildDirectories { debug: "out/d", release: "out/r" };
    let dlls = vec![DLLData::new("a", "dep", Layout::Flat)];
    let mut first = DiskSnapshot::new();
    let mut second = DiskSnapshot::new();
    for path in ["out/r", "dep/a.dll"] {
        first.mark_present(path);
        second.mark_present(path);
    }
    second.mark_present("elsewhere");
    second.mark_present("out");
    assert_eq!(
        copy_dlls_to_directories(&directories, &dlls, SyncPurpose::Project, &mut first),
        copy_dlls_to_directories(&directories, &dlls, SyncPurpose::Project, &mut second)
    );
}
