//! What is to be synchronized: dependency files and resource categories.

use crate::disk::DiskSnapshot;
use crate::paths::{file_name, join, spec_file_name, spec_join};
use crate::registry::BuildConfiguration;
use vstd::prelude::*;

verus! {

/// The on-disk shape of a dependency's source.
#[derive(Clone, Copy, Debug, PartialEq, Eq, Structural)]
pub enum Layout {
    /// One file below the source location, shared by every configuration.
    Flat,
    /// One file per configuration, each in a subdirectory that carries the
    /// configuration's name.
    SplitByConfiguration,
}

/// A dependency library that has to stand next to each executable.
#[derive(Debug, PartialEq, Eq)]
pub struct DLLData {
    /// The file's stem, also used in diagnostics.
    pub name: String,
    /// The base directory of the source.
    pub source_location: String,
    /// The file's extension, without the dot.
    pub extension: String,
    pub layout: Layout,
}

/// A dependency as the contracts see it.
pub struct DescriptorView {
    pub name: Seq<char>,
    pub source_location: Seq<char>,
    pub extension: Seq<char>,
    pub layout: Layout,
}

impl DescriptorView {
    /// The name of the file, at the source and at every destination.
    pub open spec fn file_name(self) -> Seq<char> {
        spec_file_name(self.name, self.extension)
    }

    /// The directory that holds the source file for `configuration`.
    pub open spec fn source_directory(self, configuration: BuildConfiguration) -> Seq<char> {
        match self.layout {
            Layout::Flat => self.source_location,
            Layout::SplitByConfiguration => spec_join(
                self.source_location,
                configuration.spec_name(),
            ),
        }
    }

    /// The source file for `configuration`.
    pub open spec fn source_path(self, configuration: BuildConfiguration) -> Seq<char> {
        spec_join(self.source_directory(configuration), self.file_name())
    }

    /// The file's place in `destination_dir`.
    pub open spec fn destination_path(self, destination_dir: Seq<char>) -> Seq<char> {
        spec_join(destination_dir, self.file_name())
    }

    /// Every directory that may hold a source file is in `disk`.
    pub open spec fn exists_on(self, disk: Set<Seq<char>>) -> bool {
        forall|configuration: BuildConfiguration|
            disk.contains(#[trigger] self.source_directory(configuration))
    }
}

impl View for DLLData {
    type V = DescriptorView;

    open spec fn view(&self) -> DescriptorView {
        DescriptorView {
            name: self.name@,
            source_location: self.source_location@,
            extension: self.extension@,
            layout: self.layout,
        }
    }
}

impl Clone for DLLData {
    fn clone(&self) -> (copy: DLLData)
        ensures
            copy@ == self@,
    {
        DLLData {
            name: self.name.clone(),
            source_location: self.source_location.clone(),
            extension: self.extension.clone(),
            layout: self.layout,
        }
    }
}

impl DLLData {
    /// A dynamic library `name.dll` below `source_location`.
    pub fn new(name: &str, source_location: &str, layout: Layout) -> (descriptor: DLLData)
        ensures
            descriptor@ == (DescriptorView {
                name: name@,
                source_location: source_location@,
                extension: "dll"@,
                layout,
            }),
    {
        DLLData {
            name: String::from_str(name),
            source_location: String::from_str(source_location),
            extension: String::from_str("dll"),
            layout,
        }
    }

    /// A file `name.extension` below `source_location`.
    pub fn with_extension(
        name: &str,
        source_location: &str,
        extension: &str,
        layout: Layout,
    ) -> (descriptor: DLLData)
        ensures
            descriptor@ == (DescriptorView {
                name: name@,
                source_location: source_location@,
                extension: extension@,
                layout,
            }),
    {
        DLLData {
            name: String::from_str(name),
            source_location: String::from_str(source_location),
            extension: String::from_str(extension),
            layout,
        }
    }

    /// The name of the file, at the source and at every destination.
    pub fn file_name(&self) -> (name: String)
        ensures
            name@ == self@.file_name(),
    {
        file_name(self.name.as_str(), self.extension.as_str())
    }

    /// The directory that holds the source file for `configuration`.
    pub fn source_directory(&self, configuration: BuildConfiguration) -> (path: String)
        ensures
            path@ == self@.source_directory(configuration),
    {
        match self.layout {
            Layout::Flat => self.source_location.clone(),
            Layout::SplitByConfiguration => join(
                self.source_location.as_str(),
                configuration.name(),
            ),
        }
    }

    /// The source file for `configuration`.
    pub fn source_path(&self, configuration: BuildConfiguration) -> (path: String)
        ensures
            path@ == self@.source_path(configuration),
    {
        let directory = self.source_directory(configuration);
        let file = self.file_name();
        join(directory.as_str(), file.as_str())
    }

    /// The file's place in `destination_dir`.
    pub fn destination_path(&self, destination_dir: &str) -> (path: String)
        ensures
            path@ == self@.destination_path(destination_dir@),
    {
        let file = self.file_name();
        join(destination_dir, file.as_str())
    }

    /// Tells whether every directory that may hold a source file is present
    /// in `disk`: the source location itself for a flat layout, one
    /// subdirectory per configuration for a split one.
    pub fn does_exist(&self, disk: &DiskSnapshot) -> (present: bool)
        ensures
            present == self@.exists_on(disk@),
    {
        let configurations = BuildConfiguration::all();
        let mut i: usize = 0;
        while i < configurations.len()
            invariant
                i <= configurations.len(),
                configurations@ == BuildConfiguration::spec_all(),
                forall|j: int|
                    0 <= j < i ==> disk@.contains(
                        #[trigger] self@.source_directory(configurations[j]),
                    ),
            decreases configurations.len() - i,
        {
            let directory = self.source_directory(configurations[i]);
            if !disk.is_present(directory.as_str()) {
                return false;
            }
            i += 1;
        }
        assert forall|configuration: BuildConfiguration|
            disk@.contains(#[trigger] self@.source_directory(configuration)) by {
            match configuration {
                BuildConfiguration::Debug => assert(configurations[0] == configuration),
                BuildConfiguration::Release => assert(configurations[1] == configuration),
            }
        }
        true
    }
}

/// A named group of loose files that is packed into one archive.
#[derive(Debug, PartialEq, Eq)]
pub struct ResourceCategory {
    /// The category's label, also the stem of its archive.
    pub name: String,
    /// The directory that holds one subdirectory per category.
    pub source_root: String,
}

/// A resource category as the contracts see it.
pub struct CategoryView {
    pub name: Seq<char>,
    pub source_root: Seq<char>,
}

/// The directory below a destination root that receives the archives.
pub open spec fn spec_resources_directory(destination_root: Seq<char>) -> Seq<char> {
    spec_join(destination_root, "resources"@)
}

/// Builds the directory below `destination_root` that receives the archives.
pub fn resources_directory(destination_root: &str) -> (path: String)
    ensures
        path@ == spec_resources_directory(destination_root@),
{
    join(destination_root, "resources")
}

impl CategoryView {
    /// The directory that holds the category's loose files.
    pub open spec fn source_directory(self) -> Seq<char> {
        spec_join(self.source_root, self.name)
    }

    /// The category's archive below `destination_root`.
    pub open spec fn archive_path(self, destination_root: Seq<char>) -> Seq<char> {
        spec_join(spec_resources_directory(destination_root), spec_file_name(self.name, "pak"@))
    }
}

impl View for ResourceCategory {
    type V = CategoryView;

    open spec fn view(&self) -> CategoryView {
        CategoryView { name: self.name@, source_root: self.source_root@ }
    }
}

impl Clone for ResourceCategory {
    fn clone(&self) -> (copy: ResourceCategory)
        ensures
            copy@ == self@,
    {
        ResourceCategory { name: self.name.clone(), source_root: self.source_root.clone() }
    }
}

impl ResourceCategory {
    /// The category `name` below `source_root`.
    pub fn new(name: &str, source_root: &str) -> (category: ResourceCategory)
        ensures
            category@ == (CategoryView { name: name@, source_root: source_root@ }),
    {
        ResourceCategory {
            name: String::from_str(name),
            source_root: String::from_str(source_root),
        }
    }

    /// The directory that holds the category's loose files.
    pub fn source_directory(&self) -> (path: String)
        ensures
            path@ == self@.source_directory(),
    {
        join(self.source_root.as_str(), self.name.as_str())
    }

    /// The category's archive below `destination_root`.
    pub fn archive_path(&self, destination_root: &str) -> (path: String)
        ensures
            path@ == self@.archive_path(destination_root@),
    {
        let directory = resources_directory(destination_root);
        let file = file_name(self.name.as_str(), "pak");
        join(directory.as_str(), file.as_str())
    }
}

} // verus!
