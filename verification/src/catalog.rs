//! The artifacts that the project declares: its dependency libraries and
//! its resource categories.

use crate::descriptor::{CategoryView, DLLData, DescriptorView, Layout, ResourceCategory};
use crate::plan::{category_views, descriptor_views};
use vstd::prelude::*;

verus! {

/// The directory that holds the libraries of `package` in `version`.
pub open spec fn spec_library_directory(package: Seq<char>, version: Seq<char>) -> Seq<char> {
    "dep/"@ + package + "-"@ + version + "/lib"@
}

/// Builds the directory that holds the libraries of `package` in `version`.
pub fn library_directory(package: &str, version: &str) -> (path: String)
    ensures
        path@ == spec_library_directory(package@, version@),
{
    let mut path = String::from_str("dep/");
    path.append(package);
    path.append("-");
    path.append(version);
    path.append("/lib");
    path
}

/// The declared dependencies, in the order in which a run visits them.
pub open spec fn spec_dependencies(
    sdl2_version: Seq<char>,
    angle_version: Seq<char>,
) -> Seq<DescriptorView> {
    seq![
        DescriptorView {
            name: "SDL2"@,
            source_location: spec_library_directory("SDL2"@, sdl2_version),
            extension: "dll"@,
            layout: Layout::Flat,
        },
        DescriptorView {
            name: "libEGL"@,
            source_location: spec_library_directory("ANGLE"@, angle_version),
            extension: "dll"@,
            layout: Layout::SplitByConfiguration,
        },
        DescriptorView {
            name: "libGLESv2"@,
            source_location: spec_library_directory("ANGLE"@, angle_version),
            extension: "dll"@,
            layout: Layout::SplitByConfiguration,
        },
    ]
}

/// Declares the dependency libraries for the given versions of their
/// packages: one flat library of SDL2 and two of ANGLE that are split by
/// configuration.
pub fn dependencies(sdl2_version: &str, angle_version: &str) -> (dlls: Vec<DLLData>)
    ensures
        descriptor_views(dlls@) == spec_dependencies(sdl2_version@, angle_version@),
{
    let sdl2 = library_directory("SDL2", sdl2_version);
    let angle = library_directory("ANGLE", angle_version);
    let mut dlls = Vec::new();
    dlls.push(DLLData::new("SDL2", sdl2.as_str(), Layout::Flat));
    dlls.push(DLLData::new("libEGL", angle.as_str(), Layout::SplitByConfiguration));
    dlls.push(DLLData::new("libGLESv2", angle.as_str(), Layout::SplitByConfiguration));
    assert(descriptor_views(dlls@) =~= spec_dependencies(sdl2_version@, angle_version@));
    dlls
}

/// The declared resource categories, in the order in which a run visits
/// them.
pub open spec fn spec_resource_categories() -> Seq<CategoryView> {
    seq![
        CategoryView { name: "assets"@, source_root: "resources"@ },
        CategoryView { name: "locales"@, source_root: "resources"@ },
        CategoryView { name: "scripts"@, source_root: "resources"@ },
    ]
}

/// Declares the resource categories of the project.
pub fn resource_categories() -> (categories: Vec<ResourceCategory>)
    ensures
        category_views(categories@) == spec_resource_categories(),
{
    let mut categories = Vec::new();
    categories.push(ResourceCategory::new("assets", "resources"));
    categories.push(ResourceCategory::new("locales", "resources"));
    categories.push(ResourceCategory::new("scripts", "resources"));
    assert(category_views(categories@) =~= spec_resource_categories());
    categories
}

} // verus!
