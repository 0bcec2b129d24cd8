//! Planning one pair: which artifact goes where for one configuration, and
//! whether it can be placed.
//!
//! Every function here reads the disk through a [`DiskSnapshot`] and writes
//! nothing. What has to be written is returned as the operations of a
//! [`Step`], and the snapshot is brought up to date as if they had
//! succeeded: a later step is only attempted when every earlier one did.

use crate::descriptor::{
    resources_directory, spec_resources_directory, CategoryView, DLLData, DescriptorView,
    ResourceCategory,
};
use crate::disk::DiskSnapshot;
use crate::outcome::{operation_views, Operation, OperationView, Step, StepView};
use crate::registry::{BuildConfiguration, SyncPurpose};
use vstd::prelude::*;

verus! {

/// Tells whether anything may be placed in the directory `path`: it has to
/// exist already.
pub fn can_sync(path: &str, disk: &DiskSnapshot) -> (possible: bool)
    ensures
        possible == disk@.contains(path@),
{
    disk.is_present(path)
}

/// The step and the snapshot that `sync_dependency` gives.
pub open spec fn spec_sync_dependency(
    descriptor: DescriptorView,
    configuration: BuildConfiguration,
    destination_dir: Seq<char>,
    disk: Set<Seq<char>>,
) -> (StepView, Set<Seq<char>>) {
    let source_path = descriptor.source_path(configuration);
    let destination_path = descriptor.destination_path(destination_dir);
    if disk.contains(source_path) {
        (
            StepView::Place {
                operations: seq![
                    OperationView::CopyFile { source: source_path, destination: destination_path },
                ],
                source_path,
                destination_path,
            },
            disk.insert(destination_path),
        )
    } else {
        (StepView::Halt { source_path, destination_path }, disk)
    }
}

/// Plans the copy of one dependency into `destination_dir`.
///
/// The source is resolved by the descriptor's layout. Where it is absent the
/// run has to halt. Otherwise the file is to be copied over whatever stands
/// at the destination, and the snapshot takes that file up.
pub fn sync_dependency(
    descriptor: &DLLData,
    configuration: BuildConfiguration,
    destination_dir: &str,
    disk: &mut DiskSnapshot,
) -> (step: Step)
    ensures
        step@ == spec_sync_dependency(
            descriptor@,
            configuration,
            destination_dir@,
            old(disk)@,
        ).0,
        final(disk)@ == spec_sync_dependency(
            descriptor@,
            configuration,
            destination_dir@,
            old(disk)@,
        ).1,
{
    let source_path = descriptor.source_path(configuration);
    let destination_path = descriptor.destination_path(destination_dir);
    if disk.is_present(source_path.as_str()) {
        disk.mark_present(destination_path.as_str());
        let mut operations = Vec::new();
        operations.push(
            Operation::CopyFile {
                source: source_path.clone(),
                destination: destination_path.clone(),
            },
        );
        assert(operation_views(operations@) =~= seq![
            OperationView::CopyFile { source: source_path@, destination: destination_path@ },
        ]);
        Step::Place { operations, source_path, destination_path }
    } else {
        Step::Halt { source_path, destination_path }
    }
}

/// The step and the snapshot that `sync_resource_category` gives.
pub open spec fn spec_sync_resource_category(
    category: CategoryView,
    destination_root: Seq<char>,
    disk: Set<Seq<char>>,
) -> (StepView, Set<Seq<char>>) {
    let source_path = category.source_directory();
    let resources = spec_resources_directory(destination_root);
    let destination_path = category.archive_path(destination_root);
    let pack = OperationView::PackArchive {
        source_directory: source_path,
        archive: destination_path,
        label: category.name,
    };
    if !disk.contains(source_path) {
        (StepView::Halt { source_path, destination_path }, disk)
    } else if disk.contains(resources) {
        (
            StepView::Place { operations: seq![pack], source_path, destination_path },
            disk.insert(destination_path),
        )
    } else {
        (
            StepView::Place {
                operations: seq![OperationView::CreateDirectory { path: resources }, pack],
                source_path,
                destination_path,
            },
            disk.insert(resources).insert(destination_path),
        )
    }
}

/// Plans the packing of one resource category below `destination_root`.
///
/// Where the category's source directory is absent the run has to halt and
/// nothing is created. Otherwise the `resources` directory is to be created
/// unless it exists, and the packer is to bundle the source directory into
/// the category's archive.
pub fn sync_resource_category(
    category: &ResourceCategory,
    destination_root: &str,
    disk: &mut DiskSnapshot,
) -> (step: Step)
    ensures
        step@ == spec_sync_resource_category(category@, destination_root@, old(disk)@).0,
        final(disk)@ == spec_sync_resource_category(category@, destination_root@, old(disk)@).1,
{
    let source_path = category.source_directory();
    let destination_path = category.archive_path(destination_root);
    if !disk.is_present(source_path.as_str()) {
        return Step::Halt { source_path, destination_path };
    }
    let resources = resources_directory(destination_root);
    let mut operations = Vec::new();
    if !disk.is_present(resources.as_str()) {
        disk.mark_present(resources.as_str());
        operations.push(Operation::CreateDirectory { path: resources });
    }
    disk.mark_present(destination_path.as_str());
    operations.push(
        Operation::PackArchive {
            source_directory: source_path.clone(),
            archive: destination_path.clone(),
            label: category.name.clone(),
        },
    );
    assert(operation_views(operations@) =~= spec_sync_resource_category(
        category@,
        destination_root@,
        old(disk)@,
    ).0.operations());
    Step::Place { operations, source_path, destination_path }
}

/// The step and the snapshot that `place_dependency` gives.
pub open spec fn spec_place_dependency(
    descriptor: DescriptorView,
    configuration: BuildConfiguration,
    purpose: SyncPurpose,
    destination_dir: Seq<char>,
    disk: Set<Seq<char>>,
) -> (StepView, Set<Seq<char>>) {
    if disk.contains(destination_dir) {
        spec_sync_dependency(descriptor, configuration, destination_dir, disk)
    } else {
        (StepView::Skip { configuration, purpose }, disk)
    }
}

/// Plans one dependency for one configuration: skipped where the
/// destination directory is absent, synchronized otherwise. The presence of
/// the destination is tested before anything else.
pub fn place_dependency(
    descriptor: &DLLData,
    configuration: BuildConfiguration,
    purpose: SyncPurpose,
    destination_dir: &str,
    disk: &mut DiskSnapshot,
) -> (step: Step)
    ensures
        step@ == spec_place_dependency(
            descriptor@,
            configuration,
            purpose,
            destination_dir@,
            old(disk)@,
        ).0,
        final(disk)@ == spec_place_dependency(
            descriptor@,
            configuration,
            purpose,
            destination_dir@,
            old(disk)@,
        ).1,
{
    if can_sync(destination_dir, disk) {
        sync_dependency(descriptor, configuration, destination_dir, disk)
    } else {
        Step::Skip { configuration, purpose }
    }
}

/// The step and the snapshot that `create_asset_archive` gives.
pub open spec fn spec_create_asset_archive(
    category: CategoryView,
    configuration: BuildConfiguration,
    purpose: SyncPurpose,
    destination_directory: Seq<char>,
    disk: Set<Seq<char>>,
) -> (StepView, Set<Seq<char>>) {
    if disk.contains(destination_directory) {
        spec_sync_resource_category(category, destination_directory, disk)
    } else {
        (StepView::Skip { configuration, purpose }, disk)
    }
}

/// Plans one resource category for one configuration: skipped where the
/// destination directory is absent, packed otherwise. The presence of the
/// destination is tested before anything else.
pub fn create_asset_archive(
    category: &ResourceCategory,
    configuration: BuildConfiguration,
    purpose: SyncPurpose,
    destination_directory: &str,
    disk: &mut DiskSnapshot,
) -> (step: Step)
    ensures
        step@ == spec_create_asset_archive(
            category@,
            configuration,
            purpose,
            destination_directory@,
            old(disk)@,
        ).0,
        final(disk)@ == spec_create_asset_archive(
            category@,
            configuration,
            purpose,
            destination_directory@,
            old(disk)@,
        ).1,
{
    if can_sync(destination_directory, disk) {
        sync_resource_category(category, destination_directory, disk)
    } else {
        Step::Skip { configuration, purpose }
    }
}

} // verus!
