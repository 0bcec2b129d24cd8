//! What holds of every single pair of an artifact and a configuration.

use crate::descriptor::{spec_resources_directory, CategoryView, DescriptorView, Layout};
use crate::executor::{
    spec_create_asset_archive, spec_place_dependency, spec_sync_dependency,
    spec_sync_resource_category,
};
use crate::outcome::{OperationView, OutcomeView, StepView};
use crate::paths::{lemma_join_same_base, separator, spec_join};
use crate::registry::{spec_destination_for, BuildConfiguration, SyncPurpose};
use vstd::prelude::*;

verus! {

/// A pair whose destination directory is absent is skipped, whatever the
/// artifact: the step asks for no write, the snapshot stays as it is, and
/// the outcome is a skip, never a fatal one.
pub proof fn law_missing_destination_is_skipped(
    descriptor: DescriptorView,
    category: CategoryView,
    configuration: BuildConfiguration,
    purpose: SyncPurpose,
    destination: Seq<char>,
    disk: Set<Seq<char>>,
    succeeded: nat,
)
    requires
        !disk.contains(destination),
    ensures
        spec_place_dependency(descriptor, configuration, purpose, destination, disk) == (
            StepView::Skip { configuration, purpose },
            disk,
        ),
        spec_create_asset_archive(category, configuration, purpose, destination, disk) == (
            StepView::Skip { configuration, purpose },
            disk,
        ),
        (StepView::Skip { configuration, purpose }).operations().len() == 0,
        (StepView::Skip { configuration, purpose }).conclude(succeeded)
            == (OutcomeView::SkippedMissingDestination { configuration, purpose }),
{
}

/// The names of two distinct configurations begin with different letters.
proof fn lemma_configuration_names_differ(first: BuildConfiguration, second: BuildConfiguration)
    requires
        first != second,
    ensures
        first.spec_name().len() > 0,
        second.spec_name().len() > 0,
        first.spec_name()[0] != second.spec_name()[0],
{
    reveal_strlit("Debug");
    reveal_strlit("Release");
}

/// A flat dependency has one source, whatever the configuration.
pub proof fn law_flat_source_is_shared(
    descriptor: DescriptorView,
    first: BuildConfiguration,
    second: BuildConfiguration,
)
    requires
        descriptor.layout == Layout::Flat,
    ensures
        descriptor.source_path(first) == descriptor.source_path(second),
{
}

/// A split dependency has a source of its own for each configuration.
pub proof fn law_split_sources_differ(
    descriptor: DescriptorView,
    first: BuildConfiguration,
    second: BuildConfiguration,
)
    requires
        descriptor.layout == Layout::SplitByConfiguration,
        first != second,
    ensures
        descriptor.source_path(first) != descriptor.source_path(second),
{
    lemma_configuration_names_differ(first, second);
    let base = descriptor.source_location;
    let file = descriptor.file_name();
    let one = first.spec_name() + separator() + file;
    let other = second.spec_name() + separator() + file;
    assert(descriptor.source_path(first) =~= spec_join(base, one));
    assert(descriptor.source_path(second) =~= spec_join(base, other));
    assert(one[0] != other[0]);
    lemma_join_same_base(base, one, other);
}

/// Planning a dependency a second time, on the snapshot that the first
/// plan left, gives the same step and leaves the snapshot as it is.
pub proof fn law_sync_dependency_is_idempotent(
    descriptor: DescriptorView,
    configuration: BuildConfiguration,
    destination: Seq<char>,
    disk: Set<Seq<char>>,
)
    ensures
        ({
            let once = spec_sync_dependency(descriptor, configuration, destination, disk);
            spec_sync_dependency(descriptor, configuration, destination, once.1) == once
        }),
{
    let once = spec_sync_dependency(descriptor, configuration, destination, disk);
    let twice = spec_sync_dependency(descriptor, configuration, destination, once.1);
    assert(twice.1 =~= once.1);
}

/// What the files hold once `source` has been copied to `destination` byte
/// for byte, over whatever stood there.
pub open spec fn after_copy(
    files: Map<Seq<char>, Seq<u8>>,
    source: Seq<char>,
    destination: Seq<char>,
) -> Map<Seq<char>, Seq<u8>> {
    files.insert(destination, files[source])
}

/// Synchronizing a dependency twice against an unchanged source asks for
/// the same copy both times, and the second copy changes no byte: the
/// destination holds the bytes of the source after one run and after two.
pub proof fn law_repeated_sync_leaves_the_same_bytes(
    descriptor: DescriptorView,
    configuration: BuildConfiguration,
    destination: Seq<char>,
    disk: Set<Seq<char>>,
    files: Map<Seq<char>, Seq<u8>>,
)
    requires
        disk.contains(descriptor.source_path(configuration)),
    ensures
        ({
            let source = descriptor.source_path(configuration);
            let target = descriptor.destination_path(destination);
            let copy = OperationView::CopyFile { source, destination: target };
            let once = spec_sync_dependency(descriptor, configuration, destination, disk);
            let twice = spec_sync_dependency(descriptor, configuration, destination, once.1);
            let files_once = after_copy(files, source, target);
            &&& once.0.operations() == seq![copy]
            &&& twice.0.operations() == seq![copy]
            &&& files_once[target] == files[source]
            &&& after_copy(files_once, source, target) == files_once
        }),
{
    let source = descriptor.source_path(configuration);
    let target = descriptor.destination_path(destination);
    let files_once = after_copy(files, source, target);
    assert(after_copy(files_once, source, target) =~= files_once);
}

/// The same holds with the test for the destination directory in front.
pub proof fn law_place_dependency_is_idempotent(
    descriptor: DescriptorView,
    configuration: BuildConfiguration,
    purpose: SyncPurpose,
    destination: Seq<char>,
    disk: Set<Seq<char>>,
)
    ensures
        ({
            let once = spec_place_dependency(descriptor, configuration, purpose, destination, disk);
            spec_place_dependency(descriptor, configuration, purpose, destination, once.1) == once
        }),
{
    let once = spec_place_dependency(descriptor, configuration, purpose, destination, disk);
    let twice = spec_place_dependency(descriptor, configuration, purpose, destination, once.1);
    assert(twice.1 =~= once.1);
}

/// Packing a category a second time leaves the snapshot as the first plan
/// left it, and asks for the packer alone: the `resources` directory is
/// not created again.
pub proof fn law_sync_resource_category_settles(
    category: CategoryView,
    destination_root: Seq<char>,
    disk: Set<Seq<char>>,
)
    requires
        disk.contains(category.source_directory()),
    ensures
        ({
            let once = spec_sync_resource_category(category, destination_root, disk);
            let twice = spec_sync_resource_category(category, destination_root, once.1);
            &&& twice.1 == once.1
            &&& twice.0.operations() == seq![once.0.operations().last()]
            &&& twice.0.operations()[0] is PackArchive
        }),
{
    let once = spec_sync_resource_category(category, destination_root, disk);
    let twice = spec_sync_resource_category(category, destination_root, once.1);
    assert(twice.1 =~= once.1);
    assert(twice.0.operations() =~= seq![once.0.operations().last()]);
}

/// Once one category has been planned below a destination root, no other
/// category creates the `resources` directory there again.
pub proof fn law_resources_directory_is_created_once(
    first: CategoryView,
    second: CategoryView,
    destination_root: Seq<char>,
    disk: Set<Seq<char>>,
)
    requires
        spec_sync_resource_category(first, destination_root, disk).0 is Place,
    ensures
        ({
            let after = spec_sync_resource_category(first, destination_root, disk).1;
            let next = spec_sync_resource_category(second, destination_root, after).0;
            forall|i: int|
                0 <= i < next.operations().len() ==> !(
                #[trigger] next.operations()[i] is CreateDirectory)
        }),
{
}

/// The paths that exist once every one of `operations` has succeeded.
pub open spec fn products(operations: Seq<OperationView>) -> Set<Seq<char>> {
    Set::new(
        |path: Seq<char>|
            exists|i: int| 0 <= i < operations.len() && #[trigger] operations[i].product() == path,
    )
}

/// Planning a pair adds to the snapshot what the operations of its step
/// produce, and nothing else. A step without operations leaves the
/// snapshot as it is.
pub proof fn law_snapshot_takes_up_what_a_step_produces(
    descriptor: DescriptorView,
    category: CategoryView,
    configuration: BuildConfiguration,
    purpose: SyncPurpose,
    destination: Seq<char>,
    disk: Set<Seq<char>>,
)
    ensures
        ({
            let planned = spec_place_dependency(
                descriptor,
                configuration,
                purpose,
                destination,
                disk,
            );
            planned.1 == disk + products(planned.0.operations())
        }),
        ({
            let planned = spec_create_asset_archive(
                category,
                configuration,
                purpose,
                destination,
                disk,
            );
            planned.1 == disk + products(planned.0.operations())
        }),
{
    let copied = spec_place_dependency(descriptor, configuration, purpose, destination, disk);
    let operations = copied.0.operations();
    assert forall|path: Seq<char>| copied.1.contains(path) <==> (disk + products(
        operations,
    )).contains(path) by {
        if copied.0 is Place {
            assert(operations[0].product() == descriptor.destination_path(destination));
        }
    }
    assert(copied.1 =~= disk + products(operations));
    let packed = spec_create_asset_archive(category, configuration, purpose, destination, disk);
    let operations = packed.0.operations();
    assert forall|path: Seq<char>| packed.1.contains(path) <==> (disk + products(
        operations,
    )).contains(path) by {
        if packed.0 is Place {
            assert(operations.last().product() == category.archive_path(destination));
            assert(operations.len() == 2 ==> operations[0].product() == spec_resources_directory(
                destination,
            ));
        }
    }
    assert(packed.1 =~= disk + products(operations));
}

/// No two pairs of a purpose and a configuration share a destination
/// directory.
pub proof fn law_destinations_are_distinct(
    first_purpose: SyncPurpose,
    first: BuildConfiguration,
    second_purpose: SyncPurpose,
    second: BuildConfiguration,
)
    requires
        first_purpose != second_purpose || first != second,
    ensures
        spec_destination_for(first_purpose, first) != spec_destination_for(second_purpose, second),
{
    reveal_strlit("build/bin");
    reveal_strlit("tests");
    reveal_strlit("manual");
    reveal_strlit("unit");
    reveal_strlit("Debug");
    reveal_strlit("Release");
    let one = spec_destination_for(first_purpose, first);
    let other = spec_destination_for(second_purpose, second);
    if one.len() == other.len() {
        assert(one[16] != other[16]);
    }
}

} // verus!
