//! Planning a run: every pair in its fixed order, up to the first whose
//! source is missing.

use crate::descriptor::{CategoryView, DLLData, DescriptorView, ResourceCategory};
use crate::disk::DiskSnapshot;
use crate::executor::{
    create_asset_archive, place_dependency, spec_create_asset_archive, spec_place_dependency,
};
use crate::outcome::{Step, StepView};
use crate::registry::{
    spec_directories_for, BuildConfiguration, BuildDirectories, DirectoriesView, SyncPurpose,
};
use vstd::prelude::*;

verus! {

/// The views of a list of steps, in the same order.
pub open spec fn step_views(steps: Seq<Step>) -> Seq<StepView> {
    steps.map_values(|step: Step| step@)
}

/// The views of a list of dependencies, in the same order.
pub open spec fn descriptor_views(dlls: Seq<DLLData>) -> Seq<DescriptorView> {
    dlls.map_values(|descriptor: DLLData| descriptor@)
}

/// The views of a list of resource categories, in the same order.
pub open spec fn category_views(categories: Seq<ResourceCategory>) -> Seq<CategoryView> {
    categories.map_values(|category: ResourceCategory| category@)
}

/// The last of `steps` is a halt.
pub open spec fn spec_ends_in_halt(steps: Seq<StepView>) -> bool {
    steps.len() > 0 && steps.last() is Halt
}

/// A run as far as it is planned: the steps in the order of their pairs,
/// and the snapshot that holds once they have been carried out.
pub struct PlanView {
    pub steps: Seq<StepView>,
    pub disk: Set<Seq<char>>,
}

impl PlanView {
    /// The plan of a run that has not begun.
    pub open spec fn start(disk: Set<Seq<char>>) -> PlanView {
        PlanView { steps: Seq::empty(), disk }
    }

    /// The run ends with the last step: its source is missing.
    pub open spec fn halted(self) -> bool {
        spec_ends_in_halt(self.steps)
    }

    /// The plan with one more pair, unless the run has ended already.
    pub open spec fn followed_by(self, next: (StepView, Set<Seq<char>>)) -> PlanView {
        if self.halted() {
            self
        } else {
            PlanView { steps: self.steps.push(next.0), disk: next.1 }
        }
    }
}

/// `plan`, continued with the first `count` of `dlls` for one configuration.
pub open spec fn spec_copy_dlls(
    plan: PlanView,
    dlls: Seq<DescriptorView>,
    configuration: BuildConfiguration,
    purpose: SyncPurpose,
    destination_dir: Seq<char>,
    count: nat,
) -> PlanView
    decreases count,
{
    if count == 0 {
        plan
    } else {
        let before = spec_copy_dlls(
            plan,
            dlls,
            configuration,
            purpose,
            destination_dir,
            (count - 1) as nat,
        );
        before.followed_by(
            spec_place_dependency(
                dlls[count - 1],
                configuration,
                purpose,
                destination_dir,
                before.disk,
            ),
        )
    }
}

/// `plan`, continued with every one of `dlls` for each of the first `count`
/// of `configurations`.
pub open spec fn spec_copy_dlls_through(
    plan: PlanView,
    build_directories: DirectoriesView,
    dlls: Seq<DescriptorView>,
    purpose: SyncPurpose,
    configurations: Seq<BuildConfiguration>,
    count: nat,
) -> PlanView
    decreases count,
{
    if count == 0 {
        plan
    } else {
        spec_copy_dlls(
            spec_copy_dlls_through(
                plan,
                build_directories,
                dlls,
                purpose,
                configurations,
                (count - 1) as nat,
            ),
            dlls,
            configurations[count - 1],
            purpose,
            build_directories.directory(configurations[count - 1]),
            dlls.len(),
        )
    }
}

/// The plan that `copy_dlls_to_directories` gives: every configuration in
/// turn, and within it every dependency in the order of `dlls`.
pub open spec fn spec_copy_dlls_to_directories(
    build_directories: DirectoriesView,
    dlls: Seq<DescriptorView>,
    purpose: SyncPurpose,
    disk: Set<Seq<char>>,
) -> PlanView {
    spec_copy_dlls_through(
        PlanView::start(disk),
        build_directories,
        dlls,
        purpose,
        BuildConfiguration::spec_all(),
        BuildConfiguration::spec_all().len(),
    )
}

/// Once a plan has halted, further dependencies add nothing to it.
pub proof fn lemma_copy_dlls_halted(
    plan: PlanView,
    dlls: Seq<DescriptorView>,
    configuration: BuildConfiguration,
    purpose: SyncPurpose,
    destination_dir: Seq<char>,
    reached: nat,
    count: nat,
)
    requires
        reached <= count,
        spec_copy_dlls(plan, dlls, configuration, purpose, destination_dir, reached).halted(),
    ensures
        spec_copy_dlls(plan, dlls, configuration, purpose, destination_dir, count)
            == spec_copy_dlls(plan, dlls, configuration, purpose, destination_dir, reached),
    decreases count,
{
    if reached < count {
        lemma_copy_dlls_halted(
            plan,
            dlls,
            configuration,
            purpose,
            destination_dir,
            reached,
            (count - 1) as nat,
        );
    }
}

/// Tells whether the last of `steps` ends the run.
fn ends_in_halt(steps: &Vec<Step>) -> (halted: bool)
    ensures
        halted == spec_ends_in_halt(step_views(steps@)),
{
    steps.len() > 0 && steps[steps.len() - 1].is_halt()
}

/// Continues `steps` with every one of `dlls` for one configuration.
fn copy_dlls_to_directory(
    steps: &mut Vec<Step>,
    dlls: &[DLLData],
    configuration: BuildConfiguration,
    purpose: SyncPurpose,
    destination_dir: &str,
    disk: &mut DiskSnapshot,
)
    ensures
        (PlanView { steps: step_views(final(steps)@), disk: final(disk)@ }) == spec_copy_dlls(
            PlanView { steps: step_views(old(steps)@), disk: old(disk)@ },
            descriptor_views(dlls@),
            configuration,
            purpose,
            destination_dir@,
            dlls@.len(),
        ),
{
    let ghost start = PlanView { steps: step_views(steps@), disk: disk@ };
    let ghost views = descriptor_views(dlls@);
    let mut halted = ends_in_halt(steps);
    let mut i: usize = 0;
    while i < dlls.len() && !halted
        invariant
            i <= dlls.len(),
            views == descriptor_views(dlls@),
            (PlanView { steps: step_views(steps@), disk: disk@ }) == spec_copy_dlls(
                start,
                views,
                configuration,
                purpose,
                destination_dir@,
                i as nat,
            ),
            halted == (PlanView { steps: step_views(steps@), disk: disk@ }).halted(),
        decreases dlls.len() - i,
    {
        let ghost before = PlanView { steps: step_views(steps@), disk: disk@ };
        let step = place_dependency(&dlls[i], configuration, purpose, destination_dir, disk);
        halted = step.is_halt();
        steps.push(step);
        i += 1;
        assert(step_views(steps@) =~= before.steps.push(step@));
        assert(views[i - 1] == dlls@[i - 1]@);
    }
    proof {
        if i < dlls.len() {
            lemma_copy_dlls_halted(
                start,
                views,
                configuration,
                purpose,
                destination_dir@,
                i as nat,
                dlls@.len(),
            );
        }
    }
}

/// Continues `steps` with every one of `dlls` for each configuration of one
/// purpose.
fn copy_dlls_for_purpose(
    steps: &mut Vec<Step>,
    build_directories: &BuildDirectories,
    dlls: &[DLLData],
    purpose: SyncPurpose,
    disk: &mut DiskSnapshot,
)
    ensures
        (PlanView { steps: step_views(final(steps)@), disk: final(disk)@ })
            == spec_copy_dlls_through(
            PlanView { steps: step_views(old(steps)@), disk: old(disk)@ },
            build_directories@,
            descriptor_views(dlls@),
            purpose,
            BuildConfiguration::spec_all(),
            BuildConfiguration::spec_all().len(),
        ),
{
    let configurations = BuildConfiguration::all();
    let mut i: usize = 0;
    while i < configurations.len()
        invariant
            i <= configurations.len(),
            configurations@ == BuildConfiguration::spec_all(),
            (PlanView { steps: step_views(steps@), disk: disk@ }) == spec_copy_dlls_through(
                PlanView { steps: step_views(old(steps)@), disk: old(disk)@ },
                build_directories@,
                descriptor_views(dlls@),
                purpose,
                configurations@,
                i as nat,
            ),
        decreases configurations.len() - i,
    {
        let configuration = configurations[i];
        copy_dlls_to_directory(
            steps,
            dlls,
            configuration,
            purpose,
            build_directories.directory(configuration),
            disk,
        );
        i += 1;
    }
}

/// Plans the copies of every dependency into the directories of one purpose.
///
/// The configurations are visited in their fixed order, and within each the
/// dependencies in the order of `dlls`. A pair whose destination directory
/// is absent is skipped and the run goes on. The plan ends with the first
/// pair whose source is missing.
pub fn copy_dlls_to_directories(
    build_directories: &BuildDirectories,
    dlls: &[DLLData],
    purpose: SyncPurpose,
    disk: &mut DiskSnapshot,
) -> (steps: Vec<Step>)
    ensures
        (PlanView { steps: step_views(steps@), disk: final(disk)@ })
            == spec_copy_dlls_to_directories(
            build_directories@,
            descriptor_views(dlls@),
            purpose,
            old(disk)@,
        ),
{
    let mut steps: Vec<Step> = Vec::new();
    assert(step_views(steps@) =~= Seq::empty());
    copy_dlls_for_purpose(&mut steps, build_directories, dlls, purpose, disk);
    steps
}

/// `plan`, continued with every one of `dlls` for each of the first `count`
/// of `purposes`, into the directories that the registry assigns to them.
pub open spec fn spec_copy_dlls_for_purposes(
    plan: PlanView,
    dlls: Seq<DescriptorView>,
    purposes: Seq<SyncPurpose>,
    count: nat,
) -> PlanView
    decreases count,
{
    if count == 0 {
        plan
    } else {
        spec_copy_dlls_through(
            spec_copy_dlls_for_purposes(plan, dlls, purposes, (count - 1) as nat),
            spec_directories_for(purposes[count - 1]),
            dlls,
            purposes[count - 1],
            BuildConfiguration::spec_all(),
            BuildConfiguration::spec_all().len(),
        )
    }
}

/// The plan that `copy_dlls` gives: every purpose in turn, within it every
/// configuration, and within that every dependency.
pub open spec fn spec_copy_dlls_run(
    dlls: Seq<DescriptorView>,
    purposes: Seq<SyncPurpose>,
    disk: Set<Seq<char>>,
) -> PlanView {
    spec_copy_dlls_for_purposes(PlanView::start(disk), dlls, purposes, purposes.len())
}

/// Plans a whole dependency run: the copies of every dependency into the
/// registered directories of each of `purposes`.
///
/// The pairs come in the order of purpose, configuration and dependency.
/// A pair whose destination directory is absent is skipped and the run
/// goes on, with the next purpose too. The plan ends with the first pair
/// whose source is missing.
pub fn copy_dlls(dlls: &[DLLData], purposes: &[SyncPurpose], disk: &mut DiskSnapshot) -> (steps:
    Vec<Step>)
    ensures
        (PlanView { steps: step_views(steps@), disk: final(disk)@ }) == spec_copy_dlls_run(
            descriptor_views(dlls@),
            purposes@,
            old(disk)@,
        ),
{
    let mut steps: Vec<Step> = Vec::new();
    assert(step_views(steps@) =~= Seq::empty());
    let mut i: usize = 0;
    while i < purposes.len()
        invariant
            i <= purposes.len(),
            (PlanView { steps: step_views(steps@), disk: disk@ }) == spec_copy_dlls_for_purposes(
                PlanView::start(old(disk)@),
                descriptor_views(dlls@),
                purposes@,
                i as nat,
            ),
        decreases purposes.len() - i,
    {
        let purpose = purposes[i];
        let build_directories = BuildDirectories::for_purpose(purpose);
        copy_dlls_for_purpose(&mut steps, &build_directories, dlls, purpose, disk);
        i += 1;
    }
    steps
}

/// `plan`, continued with the first `count` of `categories` for one configuration.
pub open spec fn spec_pack_categories(
    plan: PlanView,
    categories: Seq<CategoryView>,
    configuration: BuildConfiguration,
    purpose: SyncPurpose,
    destination_directory: Seq<char>,
    count: nat,
) -> PlanView
    decreases count,
{
    if count == 0 {
        plan
    } else {
        let before = spec_pack_categories(
            plan,
            categories,
            configuration,
            purpose,
            destination_directory,
            (count - 1) as nat,
        );
        before.followed_by(
            spec_create_asset_archive(
                categories[count - 1],
                configuration,
                purpose,
                destination_directory,
                before.disk,
            ),
        )
    }
}

/// `plan`, continued with every one of `categories` for each of the first `count`
/// of `configurations`.
pub open spec fn spec_pack_categories_through(
    plan: PlanView,
    build_directories: DirectoriesView,
    categories: Seq<CategoryView>,
    purpose: SyncPurpose,
    configurations: Seq<BuildConfiguration>,
    count: nat,
) -> PlanView
    decreases count,
{
    if count == 0 {
        plan
    } else {
        spec_pack_categories(
            spec_pack_categories_through(
                plan,
                build_directories,
                categories,
                purpose,
                configurations,
                (count - 1) as nat,
            ),
            categories,
            configurations[count - 1],
            purpose,
            build_directories.directory(configurations[count - 1]),
            categories.len(),
        )
    }
}

/// The plan that `compress_and_copy_resources` gives: every configuration in
/// turn, and within it every category in the order of `categories`.
pub open spec fn spec_compress_and_copy_resources(
    build_directories: DirectoriesView,
    categories: Seq<CategoryView>,
    purpose: SyncPurpose,
    disk: Set<Seq<char>>,
) -> PlanView {
    spec_pack_categories_through(
        PlanView::start(disk),
        build_directories,
        categories,
        purpose,
        BuildConfiguration::spec_all(),
        BuildConfiguration::spec_all().len(),
    )
}

/// Once a plan has halted, further categories add nothing to it.
pub proof fn lemma_pack_categories_halted(
    plan: PlanView,
    categories: Seq<CategoryView>,
    configuration: BuildConfiguration,
    purpose: SyncPurpose,
    destination_directory: Seq<char>,
    reached: nat,
    count: nat,
)
    requires
        reached <= count,
        spec_pack_categories(plan, categories, configuration, purpose, destination_directory, reached).halted(),
    ensures
        spec_pack_categories(plan, categories, configuration, purpose, destination_directory, count)
            == spec_pack_categories(plan, categories, configuration, purpose, destination_directory, reached),
    decreases count,
{
    if reached < count {
        lemma_pack_categories_halted(
            plan,
            categories,
            configuration,
            purpose,
            destination_directory,
            reached,
            (count - 1) as nat,
        );
    }
}

/// Continues `steps` with every one of `categories` for one configuration.
fn pack_categories_to_directory(
    steps: &mut Vec<Step>,
    categories: &[ResourceCategory],
    configuration: BuildConfiguration,
    purpose: SyncPurpose,
    destination_directory: &str,
    disk: &mut DiskSnapshot,
)
    ensures
        (PlanView { steps: step_views(final(steps)@), disk: final(disk)@ }) == spec_pack_categories(
            PlanView { steps: step_views(old(steps)@), disk: old(disk)@ },
            category_views(categories@),
            configuration,
            purpose,
            destination_directory@,
            categories@.len(),
        ),
{
    let ghost start = PlanView { steps: step_views(steps@), disk: disk@ };
    let ghost views = category_views(categories@);
    let mut halted = ends_in_halt(steps);
    let mut i: usize = 0;
    while i < categories.len() && !halted
        invariant
            i <= categories.len(),
            views == category_views(categories@),
            (PlanView { steps: step_views(steps@), disk: disk@ }) == spec_pack_categories(
                start,
                views,
                configuration,
                purpose,
                destination_directory@,
                i as nat,
            ),
            halted == (PlanView { steps: step_views(steps@), disk: disk@ }).halted(),
        decreases categories.len() - i,
    {
        let ghost before = PlanView { steps: step_views(steps@), disk: disk@ };
        let step = create_asset_archive(&categories[i], configuration, purpose, destination_directory, disk);
        halted = step.is_halt();
        steps.push(step);
        i += 1;
        assert(step_views(steps@) =~= before.steps.push(step@));
        assert(views[i - 1] == categories@[i - 1]@);
    }
    proof {
        if i < categories.len() {
            lemma_pack_categories_halted(
                start,
                views,
                configuration,
                purpose,
                destination_directory@,
                i as nat,
                categories@.len(),
            );
        }
    }
}

/// Plans the archives of every resource category below the directories of one
/// purpose.
///
/// The configurations are visited in their fixed order, and within each the
/// categories in the order given. A pair whose destination directory
/// is absent is skipped and the run goes on. The plan ends with the first
/// pair whose source is missing.
pub fn compress_and_copy_resources(
    build_directories: &BuildDirectories,
    categories: &[ResourceCategory],
    purpose: SyncPurpose,
    disk: &mut DiskSnapshot,
) -> (steps: Vec<Step>)
    ensures
        (PlanView { steps: step_views(steps@), disk: final(disk)@ })
            == spec_compress_and_copy_resources(
            build_directories@,
            category_views(categories@),
            purpose,
            old(disk)@,
        ),
{
    let configurations = BuildConfiguration::all();
    let mut steps: Vec<Step> = Vec::new();
    assert(step_views(steps@) =~= Seq::empty());
    let mut i: usize = 0;
    while i < configurations.len()
        invariant
            i <= configurations.len(),
            configurations@ == BuildConfiguration::spec_all(),
            (PlanView { steps: step_views(steps@), disk: disk@ }) == spec_pack_categories_through(
                PlanView::start(old(disk)@),
                build_directories@,
                category_views(categories@),
                purpose,
                configurations@,
                i as nat,
            ),
        decreases configurations.len() - i,
    {
        let configuration = configurations[i];
        pack_categories_to_directory(
            &mut steps,
            categories,
            configuration,
            purpose,
            build_directories.directory(configuration),
            disk,
        );
        i += 1;
    }
    steps
}

} // verus!
