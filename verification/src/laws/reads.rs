//! A plan depends on the disk through the probed paths alone.

use crate::descriptor::{spec_resources_directory, CategoryView, DescriptorView};
use crate::plan::{
    spec_compress_and_copy_resources, spec_copy_dlls, spec_copy_dlls_for_purposes,
    spec_copy_dlls_run, spec_copy_dlls_through, spec_copy_dlls_to_directories,
    spec_pack_categories, spec_pack_categories_through, PlanView,
};
use crate::probe::{
    dependency_reads, dependency_reads_for_purposes, dependency_run_reads, resource_reads,
    resource_run_reads,
};
use crate::registry::{spec_directories_for, BuildConfiguration, DirectoriesView, SyncPurpose};
use vstd::prelude::*;

verus! {

/// The two snapshots hold the same of the paths in `watched`.
pub open spec fn agree_on(
    watched: Set<Seq<char>>,
    first: Set<Seq<char>>,
    second: Set<Seq<char>>,
) -> bool {
    forall|path: Seq<char>| #[trigger]
        watched.contains(path) ==> (first.contains(path) <==> second.contains(path))
}

proof fn lemma_copy_dlls_reads_only_watched(
    first: PlanView,
    second: PlanView,
    build_directories: DirectoriesView,
    dlls: Seq<DescriptorView>,
    configuration: BuildConfiguration,
    purpose: SyncPurpose,
    count: nat,
    watched: Set<Seq<char>>,
)
    requires
        count <= dlls.len(),
        first.steps == second.steps,
        dependency_reads(build_directories, dlls).subset_of(watched),
        agree_on(watched, first.disk, second.disk),
    ensures
        ({
            let destination = build_directories.directory(configuration);
            let one = spec_copy_dlls(first, dlls, configuration, purpose, destination, count);
            let other = spec_copy_dlls(second, dlls, configuration, purpose, destination, count);
            &&& one.steps == other.steps
            &&& agree_on(watched, one.disk, other.disk)
        }),
    decreases count,
{
    if count > 0 {
        let destination = build_directories.directory(configuration);
        let before = (count - 1) as nat;
        lemma_copy_dlls_reads_only_watched(
            first,
            second,
            build_directories,
            dlls,
            configuration,
            purpose,
            before,
            watched,
        );
        let source = dlls[count - 1].source_path(configuration);
        assert(dependency_run_reads(build_directories, dlls, destination));
        assert(dependency_run_reads(build_directories, dlls, source));
        assert(dependency_reads(build_directories, dlls).contains(destination));
        assert(dependency_reads(build_directories, dlls).contains(source));
        assert(watched.contains(destination));
        assert(watched.contains(source));
    }
}

proof fn lemma_copy_dlls_through_reads_only_watched(
    first: PlanView,
    second: PlanView,
    build_directories: DirectoriesView,
    dlls: Seq<DescriptorView>,
    purpose: SyncPurpose,
    configurations: Seq<BuildConfiguration>,
    count: nat,
    watched: Set<Seq<char>>,
)
    requires
        count <= configurations.len(),
        first.steps == second.steps,
        dependency_reads(build_directories, dlls).subset_of(watched),
        agree_on(watched, first.disk, second.disk),
    ensures
        ({
            let one = spec_copy_dlls_through(
                first,
                build_directories,
                dlls,
                purpose,
                configurations,
                count,
            );
            let other = spec_copy_dlls_through(
                second,
                build_directories,
                dlls,
                purpose,
                configurations,
                count,
            );
            &&& one.steps == other.steps
            &&& agree_on(watched, one.disk, other.disk)
        }),
    decreases count,
{
    if count > 0 {
        let before = (count - 1) as nat;
        lemma_copy_dlls_through_reads_only_watched(
            first,
            second,
            build_directories,
            dlls,
            purpose,
            configurations,
            before,
            watched,
        );
        lemma_copy_dlls_reads_only_watched(
            spec_copy_dlls_through(first, build_directories, dlls, purpose, configurations, before),
            spec_copy_dlls_through(
                second,
                build_directories,
                dlls,
                purpose,
                configurations,
                before,
            ),
            build_directories,
            dlls,
            configurations[count - 1],
            purpose,
            dlls.len(),
            watched,
        );
    }
}

/// The plan of a dependency run for one purpose depends on the disk
/// through the probed paths alone: two snapshots that hold the same of
/// them give the same steps.
pub proof fn law_dependency_plan_reads_only_probed_paths(
    build_directories: DirectoriesView,
    dlls: Seq<DescriptorView>,
    purpose: SyncPurpose,
    first: Set<Seq<char>>,
    second: Set<Seq<char>>,
)
    requires
        agree_on(dependency_reads(build_directories, dlls), first, second),
    ensures
        spec_copy_dlls_to_directories(build_directories, dlls, purpose, first).steps
            == spec_copy_dlls_to_directories(build_directories, dlls, purpose, second).steps,
{
    lemma_copy_dlls_through_reads_only_watched(
        PlanView::start(first),
        PlanView::start(second),
        build_directories,
        dlls,
        purpose,
        BuildConfiguration::spec_all(),
        BuildConfiguration::spec_all().len(),
        dependency_reads(build_directories, dlls),
    );
}

proof fn lemma_copy_dlls_for_purposes_reads_only_watched(
    first: PlanView,
    second: PlanView,
    dlls: Seq<DescriptorView>,
    purposes: Seq<SyncPurpose>,
    count: nat,
)
    requires
        count <= purposes.len(),
        first.steps == second.steps,
        agree_on(dependency_reads_for_purposes(dlls, purposes), first.disk, second.disk),
    ensures
        ({
            let one = spec_copy_dlls_for_purposes(first, dlls, purposes, count);
            let other = spec_copy_dlls_for_purposes(second, dlls, purposes, count);
            &&& one.steps == other.steps
            &&& agree_on(dependency_reads_for_purposes(dlls, purposes), one.disk, other.disk)
        }),
    decreases count,
{
    if count > 0 {
        let before = (count - 1) as nat;
        let watched = dependency_reads_for_purposes(dlls, purposes);
        let purpose = purposes[count - 1];
        let build_directories = spec_directories_for(purpose);
        lemma_copy_dlls_for_purposes_reads_only_watched(first, second, dlls, purposes, before);
        assert(dependency_reads(build_directories, dlls).subset_of(watched)) by {
            assert forall|path: Seq<char>|
                dependency_reads(build_directories, dlls).contains(path) implies watched.contains(
                path,
            ) by {
                assert(dependency_run_reads(spec_directories_for(purposes[count - 1]), dlls, path));
            }
        }
        lemma_copy_dlls_through_reads_only_watched(
            spec_copy_dlls_for_purposes(first, dlls, purposes, before),
            spec_copy_dlls_for_purposes(second, dlls, purposes, before),
            build_directories,
            dlls,
            purpose,
            BuildConfiguration::spec_all(),
            BuildConfiguration::spec_all().len(),
            watched,
        );
    }
}

/// The plan of a whole dependency run depends on the disk through the
/// probed paths of its purposes alone.
pub proof fn law_dependency_run_reads_only_probed_paths(
    dlls: Seq<DescriptorView>,
    purposes: Seq<SyncPurpose>,
    first: Set<Seq<char>>,
    second: Set<Seq<char>>,
)
    requires
        agree_on(dependency_reads_for_purposes(dlls, purposes), first, second),
    ensures
        spec_copy_dlls_run(dlls, purposes, first).steps == spec_copy_dlls_run(
            dlls,
            purposes,
            second,
        ).steps,
{
    lemma_copy_dlls_for_purposes_reads_only_watched(
        PlanView::start(first),
        PlanView::start(second),
        dlls,
        purposes,
        purposes.len(),
    );
}

proof fn lemma_pack_categories_reads_only_watched(
    first: PlanView,
    second: PlanView,
    build_directories: DirectoriesView,
    categories: Seq<CategoryView>,
    configuration: BuildConfiguration,
    purpose: SyncPurpose,
    count: nat,
)
    requires
        count <= categories.len(),
        first.steps == second.steps,
        agree_on(resource_reads(build_directories, categories), first.disk, second.disk),
    ensures
        ({
            let destination = build_directories.directory(configuration);
            let one = spec_pack_categories(
                first,
                categories,
                configuration,
                purpose,
                destination,
                count,
            );
            let other = spec_pack_categories(
                second,
                categories,
                configuration,
                purpose,
                destination,
                count,
            );
            &&& one.steps == other.steps
            &&& agree_on(resource_reads(build_directories, categories), one.disk, other.disk)
        }),
    decreases count,
{
    if count > 0 {
        let destination = build_directories.directory(configuration);
        let before = (count - 1) as nat;
        lemma_pack_categories_reads_only_watched(
            first,
            second,
            build_directories,
            categories,
            configuration,
            purpose,
            before,
        );
        let watched = resource_reads(build_directories, categories);
        let source = categories[count - 1].source_directory();
        let resources = spec_resources_directory(destination);
        assert(resource_run_reads(build_directories, categories, destination));
        assert(resource_run_reads(build_directories, categories, resources));
        assert(resource_run_reads(build_directories, categories, source));
        assert(watched.contains(destination));
        assert(watched.contains(resources));
        assert(watched.contains(source));
    }
}

proof fn lemma_pack_categories_through_reads_only_watched(
    first: PlanView,
    second: PlanView,
    build_directories: DirectoriesView,
    categories: Seq<CategoryView>,
    purpose: SyncPurpose,
    configurations: Seq<BuildConfiguration>,
    count: nat,
)
    requires
        count <= configurations.len(),
        first.steps == second.steps,
        agree_on(resource_reads(build_directories, categories), first.disk, second.disk),
    ensures
        ({
            let one = spec_pack_categories_through(
                first,
                build_directories,
                categories,
                purpose,
                configurations,
                count,
            );
            let other = spec_pack_categories_through(
                second,
                build_directories,
                categories,
                purpose,
                configurations,
                count,
            );
            &&& one.steps == other.steps
            &&& agree_on(resource_reads(build_directories, categories), one.disk, other.disk)
        }),
    decreases count,
{
    if count > 0 {
        let before = (count - 1) as nat;
        lemma_pack_categories_through_reads_only_watched(
            first,
            second,
            build_directories,
            categories,
            purpose,
            configurations,
            before,
        );
        lemma_pack_categories_reads_only_watched(
            spec_pack_categories_through(
                first,
                build_directories,
                categories,
                purpose,
                configurations,
                before,
            ),
            spec_pack_categories_through(
                second,
                build_directories,
                categories,
                purpose,
                configurations,
                before,
            ),
            build_directories,
            categories,
            configurations[count - 1],
            purpose,
            categories.len(),
        );
    }
}

/// The plan of a resource run depends on the disk through the probed paths
/// alone: two snapshots that hold the same of them give the same steps.
pub proof fn law_resource_plan_reads_only_probed_paths(
    build_directories: DirectoriesView,
    categories: Seq<CategoryView>,
    purpose: SyncPurpose,
    first: Set<Seq<char>>,
    second: Set<Seq<char>>,
)
    requires
        agree_on(resource_reads(build_directories, categories), first, second),
    ensures
        spec_compress_and_copy_resources(build_directories, categories, purpose, first).steps
            == spec_compress_and_copy_resources(
            build_directories,
            categories,
            purpose,
            second,
        ).steps,
{
    lemma_pack_categories_through_reads_only_watched(
        PlanView::start(first),
        PlanView::start(second),
        build_directories,
        categories,
        purpose,
        BuildConfiguration::spec_all(),
        BuildConfiguration::spec_all().len(),
    );
}

} // verus!
