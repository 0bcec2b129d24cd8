//! Which paths a run reads: what the caller has to look up on disk before
//! the run is planned.

use crate::descriptor::{
    resources_directory, spec_resources_directory, CategoryView, DLLData, DescriptorView,
    ResourceCategory,
};
use crate::plan::{category_views, descriptor_views};
use crate::registry::{
    spec_directories_for, BuildConfiguration, BuildDirectories, DirectoriesView, SyncPurpose,
};
use vstd::prelude::*;

verus! {

/// `path` is one of `paths`.
pub open spec fn listed(paths: Seq<String>, path: Seq<char>) -> bool {
    exists|j: int| 0 <= j < paths.len() && #[trigger] paths[j]@ == path
}

/// A dependency run reads `path`: it is a destination directory or the
/// source of a dependency for some configuration.
pub open spec fn dependency_run_reads(
    build_directories: DirectoriesView,
    dlls: Seq<DescriptorView>,
    path: Seq<char>,
) -> bool {
    exists|configuration: BuildConfiguration|
        {
            ||| path == #[trigger] build_directories.directory(configuration)
            ||| exists|i: int|
                0 <= i < dlls.len() && path == #[trigger] dlls[i].source_path(configuration)
        }
}

/// A resource run reads `path`: it is a destination directory, the
/// `resources` directory below one, or the source directory of a category.
pub open spec fn resource_run_reads(
    build_directories: DirectoriesView,
    categories: Seq<CategoryView>,
    path: Seq<char>,
) -> bool {
    ||| exists|configuration: BuildConfiguration|
        {
            ||| path == #[trigger] build_directories.directory(configuration)
            ||| path == spec_resources_directory(
                #[trigger] build_directories.directory(configuration),
            )
        }
    ||| exists|i: int| 0 <= i < categories.len() && path == #[trigger] categories[i].source_directory()
}

/// The paths that a dependency run for one purpose reads.
pub open spec fn dependency_reads(
    build_directories: DirectoriesView,
    dlls: Seq<DescriptorView>,
) -> Set<Seq<char>> {
    Set::new(|path: Seq<char>| dependency_run_reads(build_directories, dlls, path))
}

/// The paths that a dependency run for all of `purposes` reads.
pub open spec fn dependency_reads_for_purposes(
    dlls: Seq<DescriptorView>,
    purposes: Seq<SyncPurpose>,
) -> Set<Seq<char>> {
    Set::new(
        |path: Seq<char>|
            exists|i: int|
                0 <= i < purposes.len() && dependency_run_reads(
                    spec_directories_for(#[trigger] purposes[i]),
                    dlls,
                    path,
                ),
    )
}

/// The paths that a resource run for one purpose reads.
pub open spec fn resource_reads(
    build_directories: DirectoriesView,
    categories: Seq<CategoryView>,
) -> Set<Seq<char>> {
    Set::new(|path: Seq<char>| resource_run_reads(build_directories, categories, path))
}

/// Lists the paths that a dependency run reads, each at least once and no
/// other.
pub fn dependency_probe_paths(build_directories: &BuildDirectories, dlls: &[DLLData]) -> (paths:
    Vec<String>)
    ensures
        forall|path: Seq<char>|
            listed(paths@, path) <==> dependency_run_reads(
                build_directories@,
                descriptor_views(dlls@),
                path,
            ),
{
    let ghost views = descriptor_views(dlls@);
    let configurations = BuildConfiguration::all();
    let mut paths: Vec<String> = Vec::new();
    let mut k: usize = 0;
    while k < configurations.len()
        invariant
            k <= configurations.len(),
            configurations@ == BuildConfiguration::spec_all(),
            views == descriptor_views(dlls@),
            forall|j: int|
                0 <= j < paths.len() ==> dependency_run_reads(
                    build_directories@,
                    views,
                    #[trigger] paths[j]@,
                ),
            forall|a: int|
                0 <= a < k ==> listed(
                    paths@,
                    #[trigger] build_directories@.directory(configurations[a]),
                ),
            forall|a: int, i: int|
                0 <= a < k && 0 <= i < views.len() ==> listed(
                    paths@,
                    #[trigger] views[i].source_path(configurations[a]),
                ),
        decreases configurations.len() - k,
    {
        let configuration = configurations[k];
        let ghost before = paths@;
        paths.push(String::from_str(build_directories.directory(configuration)));
        proof {
            assert(paths[before.len() as int]@ == build_directories@.directory(configuration));
            assert forall|p: Seq<char>| listed(before, p) implies listed(paths@, p) by {
                let j = choose|j: int| 0 <= j < before.len() && #[trigger] before[j]@ == p;
                assert(paths[j]@ == p);
            }
        }
        let mut i: usize = 0;
        while i < dlls.len()
            invariant
                i <= dlls.len(),
                k < configurations.len(),
                configuration == configurations[k as int],
                views == descriptor_views(dlls@),
                forall|j: int|
                    0 <= j < paths.len() ==> dependency_run_reads(
                        build_directories@,
                        views,
                        #[trigger] paths[j]@,
                    ),
                forall|a: int|
                    0 <= a <= k ==> listed(
                        paths@,
                        #[trigger] build_directories@.directory(configurations[a]),
                    ),
                forall|a: int, b: int|
                    0 <= a < k && 0 <= b < views.len() ==> listed(
                        paths@,
                        #[trigger] views[b].source_path(configurations[a]),
                    ),
                forall|b: int|
                    0 <= b < i ==> listed(paths@, #[trigger] views[b].source_path(configuration)),
            decreases dlls.len() - i,
        {
            let ghost inner = paths@;
            paths.push(dlls[i].source_path(configuration));
            proof {
                assert(views[i as int] == dlls@[i as int]@);
                let added = views[i as int].source_path(configuration);
                assert(paths[inner.len() as int]@ == added);
                assert(dependency_run_reads(build_directories@, views, added)) by {
                    let directory = build_directories@.directory(configuration);
                    assert(added == views[i as int].source_path(configuration));
                }
                assert forall|p: Seq<char>| listed(inner, p) implies listed(paths@, p) by {
                    let j = choose|j: int| 0 <= j < inner.len() && #[trigger] inner[j]@ == p;
                    assert(paths[j]@ == p);
                }
            }
            i += 1;
        }
        k += 1;
    }
    proof {
        assert forall|path: Seq<char>|
            dependency_run_reads(build_directories@, views, path) implies listed(
            paths@,
            path,
        ) by {
            let configuration = choose|configuration: BuildConfiguration|
                {
                    ||| path == #[trigger] build_directories@.directory(configuration)
                    ||| exists|i: int|
                        0 <= i < views.len() && path == #[trigger] views[i].source_path(
                            configuration,
                        )
                };
            let a: int = match configuration {
                BuildConfiguration::Debug => 0,
                BuildConfiguration::Release => 1,
            };
            assert(configurations[a] == configuration);
        }
    }
    paths
}

/// Lists the paths that a resource run reads, each at least once and no
/// other.
pub fn resource_probe_paths(
    build_directories: &BuildDirectories,
    categories: &[ResourceCategory],
) -> (paths: Vec<String>)
    ensures
        forall|path: Seq<char>|
            listed(paths@, path) <==> resource_run_reads(
                build_directories@,
                category_views(categories@),
                path,
            ),
{
    let ghost views = category_views(categories@);
    let configurations = BuildConfiguration::all();
    let mut paths: Vec<String> = Vec::new();
    let mut k: usize = 0;
    while k < configurations.len()
        invariant
            k <= configurations.len(),
            configurations@ == BuildConfiguration::spec_all(),
            forall|j: int|
                0 <= j < paths.len() ==> resource_run_reads(
                    build_directories@,
                    views,
                    #[trigger] paths[j]@,
                ),
            forall|a: int|
                0 <= a < k ==> listed(
                    paths@,
                    #[trigger] build_directories@.directory(configurations[a]),
                ),
            forall|a: int|
                0 <= a < k ==> listed(
                    paths@,
                    spec_resources_directory(
                        #[trigger] build_directories@.directory(configurations[a]),
                    ),
                ),
        decreases configurations.len() - k,
    {
        let directory = build_directories.directory(configurations[k]);
        let ghost before = paths@;
        paths.push(String::from_str(directory));
        paths.push(resources_directory(directory));
        proof {
            assert(paths[before.len() as int]@ == directory@);
            assert(paths[before.len() as int + 1]@ == spec_resources_directory(directory@));
            assert forall|p: Seq<char>| listed(before, p) implies listed(paths@, p) by {
                let j = choose|j: int| 0 <= j < before.len() && #[trigger] before[j]@ == p;
                assert(paths[j]@ == p);
            }
        }
        k += 1;
    }
    let mut i: usize = 0;
    while i < categories.len()
        invariant
            i <= categories.len(),
            configurations@ == BuildConfiguration::spec_all(),
            views == category_views(categories@),
            forall|j: int|
                0 <= j < paths.len() ==> resource_run_reads(
                    build_directories@,
                    views,
                    #[trigger] paths[j]@,
                ),
            forall|a: int|
                0 <= a < configurations.len() ==> listed(
                    paths@,
                    #[trigger] build_directories@.directory(configurations[a]),
                ),
            forall|a: int|
                0 <= a < configurations.len() ==> listed(
                    paths@,
                    spec_resources_directory(
                        #[trigger] build_directories@.directory(configurations[a]),
                    ),
                ),
            forall|b: int| 0 <= b < i ==> listed(paths@, #[trigger] views[b].source_directory()),
        decreases categories.len() - i,
    {
        let ghost before = paths@;
        paths.push(categories[i].source_directory());
        proof {
            assert(views[i as int] == categories@[i as int]@);
            assert(paths[before.len() as int]@ == views[i as int].source_directory());
            assert forall|p: Seq<char>| listed(before, p) implies listed(paths@, p) by {
                let j = choose|j: int| 0 <= j < before.len() && #[trigger] before[j]@ == p;
                assert(paths[j]@ == p);
            }
        }
        i += 1;
    }
    proof {
        assert forall|path: Seq<char>|
            resource_run_reads(build_directories@, views, path) implies listed(paths@, path) by {
            if exists|configuration: BuildConfiguration|
                {
                    ||| path == #[trigger] build_directories@.directory(configuration)
                    ||| path == spec_resources_directory(
                        #[trigger] build_directories@.directory(configuration),
                    )
                } {
                let configuration = choose|configuration: BuildConfiguration|
                    {
                        ||| path == #[trigger] build_directories@.directory(configuration)
                        ||| path == spec_resources_directory(
                            #[trigger] build_directories@.directory(configuration),
                        )
                    };
                let a: int = match configuration {
                    BuildConfiguration::Debug => 0,
                    BuildConfiguration::Release => 1,
                };
                assert(configurations[a] == configuration);
            }
        }
    }
    paths
}

/// A path is listed in two lists put together when it is listed in one of
/// them.
proof fn lemma_listed_in_either(first: Seq<String>, second: Seq<String>, path: Seq<char>)
    ensures
        listed(first + second, path) <==> listed(first, path) || listed(second, path),
{
    let both = first + second;
    if listed(first, path) {
        let j = choose|j: int| 0 <= j < first.len() && #[trigger] first[j]@ == path;
        assert(both[j]@ == path);
    }
    if listed(second, path) {
        let j = choose|j: int| 0 <= j < second.len() && #[trigger] second[j]@ == path;
        assert(both[first.len() + j]@ == path);
    }
    if listed(both, path) {
        let j = choose|j: int| 0 <= j < both.len() && #[trigger] both[j]@ == path;
        if j < first.len() {
            assert(first[j]@ == path);
        } else {
            assert(second[j - first.len()]@ == path);
        }
    }
}

/// Lists the paths that a whole dependency run for `purposes` reads, each
/// at least once and no other.
pub fn dependency_run_probe_paths(dlls: &[DLLData], purposes: &[SyncPurpose]) -> (paths: Vec<
    String,
>)
    ensures
        forall|path: Seq<char>|
            listed(paths@, path) <==> dependency_reads_for_purposes(
                descriptor_views(dlls@),
                purposes@,
            ).contains(path),
{
    let ghost views = descriptor_views(dlls@);
    let mut paths: Vec<String> = Vec::new();
    let mut k: usize = 0;
    while k < purposes.len()
        invariant
            k <= purposes.len(),
            views == descriptor_views(dlls@),
            forall|path: Seq<char>|
                listed(paths@, path) <==> dependency_reads_for_purposes(
                    views,
                    purposes@.take(k as int),
                ).contains(path),
        decreases purposes.len() - k,
    {
        let directories = BuildDirectories::for_purpose(purposes[k]);
        let mut more = dependency_probe_paths(&directories, dlls);
        let ghost before = paths@;
        let ghost added = more@;
        paths.append(&mut more);
        proof {
            let shorter = purposes@.take(k as int);
            let longer = purposes@.take(k + 1);
            assert forall|path: Seq<char>|
                listed(paths@, path) <==> dependency_reads_for_purposes(views, longer).contains(
                    path,
                ) by {
                lemma_listed_in_either(before, added, path);
                if dependency_reads_for_purposes(views, shorter).contains(path) {
                    let i = choose|i: int|
                        0 <= i < shorter.len() && dependency_run_reads(
                            spec_directories_for(#[trigger] shorter[i]),
                            views,
                            path,
                        );
                    assert(longer[i] == shorter[i]);
                }
                if listed(added, path) {
                    assert(longer[k as int] == purposes@[k as int]);
                }
                if dependency_reads_for_purposes(views, longer).contains(path) {
                    let i = choose|i: int|
                        0 <= i < longer.len() && dependency_run_reads(
                            spec_directories_for(#[trigger] longer[i]),
                            views,
                            path,
                        );
                    if i < k {
                        assert(shorter[i] == longer[i]);
                    }
                }
            }
        }
        k += 1;
    }
    assert(purposes@.take(k as int) =~= purposes@);
    paths
}

} // verus!
