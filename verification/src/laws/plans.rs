//! What holds of every planned run.

use crate::descriptor::{CategoryView, DescriptorView};
use crate::outcome::StepView;
use crate::plan::{
    spec_compress_and_copy_resources, spec_copy_dlls, spec_copy_dlls_for_purposes,
    spec_copy_dlls_run, spec_copy_dlls_through, spec_copy_dlls_to_directories,
    spec_pack_categories, spec_pack_categories_through, PlanView,
};
use crate::registry::{spec_directories_for, BuildConfiguration, DirectoriesView, SyncPurpose};
use vstd::prelude::*;

verus! {

/// No step of `plan` but the last is a halt.
pub open spec fn halts_at_most_once(plan: PlanView) -> bool {
    forall|i: int| 0 <= i < plan.steps.len() - 1 ==> !(#[trigger] plan.steps[i] is Halt)
}

/// Every path of `before` is a path of `after`.
pub open spec fn grows(before: PlanView, after: PlanView) -> bool {
    before.disk.subset_of(after.disk)
}

proof fn lemma_copy_dlls_halts_at_most_once(
    plan: PlanView,
    dlls: Seq<DescriptorView>,
    configuration: BuildConfiguration,
    purpose: SyncPurpose,
    destination: Seq<char>,
    count: nat,
)
    requires
        halts_at_most_once(plan),
    ensures
        halts_at_most_once(spec_copy_dlls(plan, dlls, configuration, purpose, destination, count)),
    decreases count,
{
    if count > 0 {
        lemma_copy_dlls_halts_at_most_once(
            plan,
            dlls,
            configuration,
            purpose,
            destination,
            (count - 1) as nat,
        );
    }
}

proof fn lemma_copy_dlls_through_halts_at_most_once(
    plan: PlanView,
    build_directories: DirectoriesView,
    dlls: Seq<DescriptorView>,
    purpose: SyncPurpose,
    configurations: Seq<BuildConfiguration>,
    count: nat,
)
    requires
        halts_at_most_once(plan),
    ensures
        halts_at_most_once(
            spec_copy_dlls_through(plan, build_directories, dlls, purpose, configurations, count),
        ),
    decreases count,
{
    if count > 0 {
        lemma_copy_dlls_through_halts_at_most_once(
            plan,
            build_directories,
            dlls,
            purpose,
            configurations,
            (count - 1) as nat,
        );
        lemma_copy_dlls_halts_at_most_once(
            spec_copy_dlls_through(
                plan,
                build_directories,
                dlls,
                purpose,
                configurations,
                (count - 1) as nat,
            ),
            dlls,
            configurations[count - 1],
            purpose,
            build_directories.directory(configurations[count - 1]),
            dlls.len(),
        );
    }
}

/// A missing source ends the plan: in the plan of a dependency run for one
/// purpose no step follows a halt.
pub proof fn law_dependency_plan_stops_at_missing_source(
    build_directories: DirectoriesView,
    dlls: Seq<DescriptorView>,
    purpose: SyncPurpose,
    disk: Set<Seq<char>>,
)
    ensures
        halts_at_most_once(spec_copy_dlls_to_directories(build_directories, dlls, purpose, disk)),
{
    lemma_copy_dlls_through_halts_at_most_once(
        PlanView::start(disk),
        build_directories,
        dlls,
        purpose,
        BuildConfiguration::spec_all(),
        BuildConfiguration::spec_all().len(),
    );
}

proof fn lemma_copy_dlls_for_purposes_halts_at_most_once(
    plan: PlanView,
    dlls: Seq<DescriptorView>,
    purposes: Seq<SyncPurpose>,
    count: nat,
)
    requires
        halts_at_most_once(plan),
    ensures
        halts_at_most_once(spec_copy_dlls_for_purposes(plan, dlls, purposes, count)),
    decreases count,
{
    if count > 0 {
        lemma_copy_dlls_for_purposes_halts_at_most_once(plan, dlls, purposes, (count - 1) as nat);
        lemma_copy_dlls_through_halts_at_most_once(
            spec_copy_dlls_for_purposes(plan, dlls, purposes, (count - 1) as nat),
            spec_directories_for(purposes[count - 1]),
            dlls,
            purposes[count - 1],
            BuildConfiguration::spec_all(),
            BuildConfiguration::spec_all().len(),
        );
    }
}

/// A missing source ends the whole run: in the plan of a dependency run
/// for any purposes no step follows a halt.
pub proof fn law_dependency_run_stops_at_missing_source(
    dlls: Seq<DescriptorView>,
    purposes: Seq<SyncPurpose>,
    disk: Set<Seq<char>>,
)
    ensures
        halts_at_most_once(spec_copy_dlls_run(dlls, purposes, disk)),
{
    lemma_copy_dlls_for_purposes_halts_at_most_once(
        PlanView::start(disk),
        dlls,
        purposes,
        purposes.len(),
    );
}

proof fn lemma_pack_categories_halts_at_most_once(
    plan: PlanView,
    categories: Seq<CategoryView>,
    configuration: BuildConfiguration,
    purpose: SyncPurpose,
    destination: Seq<char>,
    count: nat,
)
    requires
        halts_at_most_once(plan),
    ensures
        halts_at_most_once(
            spec_pack_categories(plan, categories, configuration, purpose, destination, count),
        ),
    decreases count,
{
    if count > 0 {
        lemma_pack_categories_halts_at_most_once(
            plan,
            categories,
            configuration,
            purpose,
            destination,
            (count - 1) as nat,
        );
    }
}

proof fn lemma_pack_categories_through_halts_at_most_once(
    plan: PlanView,
    build_directories: DirectoriesView,
    categories: Seq<CategoryView>,
    purpose: SyncPurpose,
    configurations: Seq<BuildConfiguration>,
    count: nat,
)
    requires
        halts_at_most_once(plan),
    ensures
        halts_at_most_once(
            spec_pack_categories_through(
                plan,
                build_directories,
                categories,
                purpose,
                configurations,
                count,
            ),
        ),
    decreases count,
{
    if count > 0 {
        lemma_pack_categories_through_halts_at_most_once(
            plan,
            build_directories,
            categories,
            purpose,
            configurations,
            (count - 1) as nat,
        );
        lemma_pack_categories_halts_at_most_once(
            spec_pack_categories_through(
                plan,
                build_directories,
                categories,
                purpose,
                configurations,
                (count - 1) as nat,
            ),
            categories,
            configurations[count - 1],
            purpose,
            build_directories.directory(configurations[count - 1]),
            categories.len(),
        );
    }
}

/// A missing source directory ends the plan: in the plan of a resource run
/// no step follows a halt.
pub proof fn law_resource_plan_stops_at_missing_source(
    build_directories: DirectoriesView,
    categories: Seq<CategoryView>,
    purpose: SyncPurpose,
    disk: Set<Seq<char>>,
)
    ensures
        halts_at_most_once(
            spec_compress_and_copy_resources(build_directories, categories, purpose, disk),
        ),
{
    lemma_pack_categories_through_halts_at_most_once(
        PlanView::start(disk),
        build_directories,
        categories,
        purpose,
        BuildConfiguration::spec_all(),
        BuildConfiguration::spec_all().len(),
    );
}

/// A configuration whose destination directory is absent adds one skip for
/// each dependency and nothing else: the snapshot stays as it is and the
/// plan does not end.
pub proof fn law_absent_configuration_only_skips(
    plan: PlanView,
    dlls: Seq<DescriptorView>,
    configuration: BuildConfiguration,
    purpose: SyncPurpose,
    destination: Seq<char>,
    count: nat,
)
    requires
        !plan.halted(),
        !plan.disk.contains(destination),
    ensures
        ({
            let after = spec_copy_dlls(plan, dlls, configuration, purpose, destination, count);
            &&& !after.halted()
            &&& after.disk == plan.disk
            &&& after.steps == plan.steps + Seq::new(
                count,
                |i: int| StepView::Skip { configuration, purpose },
            )
        }),
    decreases count,
{
    let after = spec_copy_dlls(plan, dlls, configuration, purpose, destination, count);
    let skips = Seq::new(count, |i: int| StepView::Skip { configuration, purpose });
    if count > 0 {
        law_absent_configuration_only_skips(
            plan,
            dlls,
            configuration,
            purpose,
            destination,
            (count - 1) as nat,
        );
    }
    assert(after.steps =~= plan.steps + skips);
}

/// The same for resource categories.
pub proof fn law_absent_configuration_packs_nothing(
    plan: PlanView,
    categories: Seq<CategoryView>,
    configuration: BuildConfiguration,
    purpose: SyncPurpose,
    destination: Seq<char>,
    count: nat,
)
    requires
        !plan.halted(),
        !plan.disk.contains(destination),
    ensures
        ({
            let after = spec_pack_categories(
                plan,
                categories,
                configuration,
                purpose,
                destination,
                count,
            );
            &&& !after.halted()
            &&& after.disk == plan.disk
            &&& after.steps == plan.steps + Seq::new(
                count,
                |i: int| StepView::Skip { configuration, purpose },
            )
        }),
    decreases count,
{
    let after = spec_pack_categories(plan, categories, configuration, purpose, destination, count);
    let skips = Seq::new(count, |i: int| StepView::Skip { configuration, purpose });
    if count > 0 {
        law_absent_configuration_packs_nothing(
            plan,
            categories,
            configuration,
            purpose,
            destination,
            (count - 1) as nat,
        );
    }
    assert(after.steps =~= plan.steps + skips);
}

/// When the dependencies of one configuration have been planned without a
/// halt and the destination directory exists, the snapshot holds every one
/// of them at its destination: once each step has been carried out, all
/// declared dependencies stand next to the executables.
pub proof fn law_unhalted_run_places_every_dependency(
    plan: PlanView,
    dlls: Seq<DescriptorView>,
    configuration: BuildConfiguration,
    purpose: SyncPurpose,
    destination: Seq<char>,
    count: nat,
)
    requires
        count <= dlls.len(),
        plan.disk.contains(destination),
        !spec_copy_dlls(plan, dlls, configuration, purpose, destination, count).halted(),
    ensures
        ({
            let after = spec_copy_dlls(plan, dlls, configuration, purpose, destination, count);
            &&& grows(plan, after)
            &&& forall|i: int|
                0 <= i < count ==> after.disk.contains(
                    #[trigger] dlls[i].destination_path(destination),
                )
        }),
    decreases count,
{
    if count > 0 {
        let before = spec_copy_dlls(
            plan,
            dlls,
            configuration,
            purpose,
            destination,
            (count - 1) as nat,
        );
        law_unhalted_run_places_every_dependency(
            plan,
            dlls,
            configuration,
            purpose,
            destination,
            (count - 1) as nat,
        );
    }
}

} // verus!
