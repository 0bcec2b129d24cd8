//! The closed set of build configurations and sync purposes, and the
//! destination directory that belongs to each pair of them.

use crate::disk::DiskSnapshot;
use crate::paths::spec_join;
use vstd::prelude::*;

verus! {

/// A named build variant with an output directory tree of its own.
#[derive(Clone, Copy, Debug, PartialEq, Eq, Structural)]
pub enum BuildConfiguration {
    Debug,
    Release,
}

/// The destination family that a run targets.
#[derive(Clone, Copy, Debug, PartialEq, Eq, Structural)]
pub enum SyncPurpose {
    Project,
    ManualTest,
    UnitTest,
}

/// `text` is `lower` or `upper`, or mixes the two letter by letter.
pub open spec fn spec_matches_ignoring_case(
    text: Seq<char>,
    lower: Seq<char>,
    upper: Seq<char>,
) -> bool {
    &&& text.len() == lower.len()
    &&& forall|i: int| 0 <= i < text.len() ==> text[i] == lower[i] || text[i] == upper[i]
}

/// Tells whether `text` spells the word that `lower` gives in small letters
/// and `upper` in capitals, in whatever mixture of the two.
fn matches_ignoring_case(text: &str, lower: &str, upper: &str) -> (matches: bool)
    requires
        lower@.len() == upper@.len(),
    ensures
        matches == spec_matches_ignoring_case(text@, lower@, upper@),
{
    let n = lower.unicode_len();
    if text.unicode_len() != n {
        return false;
    }
    let mut i: usize = 0;
    while i < n
        invariant
            i <= n,
            n == text@.len(),
            n == lower@.len(),
            n == upper@.len(),
            forall|j: int| 0 <= j < i ==> text@[j] == lower@[j] || text@[j] == upper@[j],
        decreases n - i,
    {
        let c = text.get_char(i);
        if c != lower.get_char(i) && c != upper.get_char(i) {
            return false;
        }
        i += 1;
    }
    true
}

impl BuildConfiguration {
    /// The configuration that `text` names, in whatever letter case.
    pub open spec fn spec_from_name(text: Seq<char>) -> Option<BuildConfiguration> {
        if spec_matches_ignoring_case(text, "debug"@, "DEBUG"@) {
            Some(BuildConfiguration::Debug)
        } else if spec_matches_ignoring_case(text, "release"@, "RELEASE"@) {
            Some(BuildConfiguration::Release)
        } else {
            None
        }
    }

    /// Validates the name of a configuration as a user wrote it. The letter
    /// case does not count; any other text names no configuration.
    pub fn from_name(text: &str) -> (configuration: Option<BuildConfiguration>)
        ensures
            configuration == Self::spec_from_name(text@),
    {
        proof {
            reveal_strlit("debug");
            reveal_strlit("DEBUG");
            reveal_strlit("release");
            reveal_strlit("RELEASE");
        }
        if matches_ignoring_case(text, "debug", "DEBUG") {
            Some(BuildConfiguration::Debug)
        } else if matches_ignoring_case(text, "release", "RELEASE") {
            Some(BuildConfiguration::Release)
        } else {
            None
        }
    }

    /// The directory name of the configuration.
    pub open spec fn spec_name(self) -> Seq<char> {
        match self {
            BuildConfiguration::Debug => "Debug"@,
            BuildConfiguration::Release => "Release"@,
        }
    }

    /// Every configuration, in the order in which a run visits them.
    pub open spec fn spec_all() -> Seq<BuildConfiguration> {
        seq![BuildConfiguration::Debug, BuildConfiguration::Release]
    }

    /// Every configuration, in the order in which a run visits them.
    pub fn all() -> (configurations: Vec<BuildConfiguration>)
        ensures
            configurations@ == Self::spec_all(),
    {
        let mut configurations = Vec::new();
        configurations.push(BuildConfiguration::Debug);
        configurations.push(BuildConfiguration::Release);
        assert(configurations@ =~= Self::spec_all());
        configurations
    }

    /// The directory name of the configuration.
    pub fn name(self) -> (text: &'static str)
        ensures
            text@ == self.spec_name(),
    {
        match self {
            BuildConfiguration::Debug => "Debug",
            BuildConfiguration::Release => "Release",
        }
    }
}

impl SyncPurpose {
    /// Every purpose, in the order in which a run visits them.
    pub open spec fn spec_all() -> Seq<SyncPurpose> {
        seq![SyncPurpose::Project, SyncPurpose::ManualTest, SyncPurpose::UnitTest]
    }

    /// Every purpose, in the order in which a run visits them.
    pub fn all() -> (purposes: Vec<SyncPurpose>)
        ensures
            purposes@ == Self::spec_all(),
    {
        let mut purposes = Vec::new();
        purposes.push(SyncPurpose::Project);
        purposes.push(SyncPurpose::ManualTest);
        purposes.push(SyncPurpose::UnitTest);
        assert(purposes@ =~= Self::spec_all());
        purposes
    }

    /// The words that name the purpose in messages.
    pub open spec fn spec_label(self) -> Seq<char> {
        match self {
            SyncPurpose::Project => "project"@,
            SyncPurpose::ManualTest => "manual test"@,
            SyncPurpose::UnitTest => "unit test"@,
        }
    }

    /// The words that name the purpose in messages.
    pub fn label(self) -> (text: &'static str)
        ensures
            text@ == self.spec_label(),
    {
        match self {
            SyncPurpose::Project => "project",
            SyncPurpose::ManualTest => "manual test",
            SyncPurpose::UnitTest => "unit test",
        }
    }
}

/// The directory below which every destination lies.
pub open spec fn spec_output_root() -> Seq<char> {
    "build/bin"@
}

/// The destination directory of `purpose` for `configuration`: the
/// project's binaries lie in a directory named after the configuration, the
/// test binaries one level deeper, by kind.
pub open spec fn spec_destination_for(
    purpose: SyncPurpose,
    configuration: BuildConfiguration,
) -> Seq<char> {
    let tests = spec_join(spec_join(spec_output_root(), "tests"@), configuration.spec_name());
    match purpose {
        SyncPurpose::Project => spec_join(spec_output_root(), configuration.spec_name()),
        SyncPurpose::ManualTest => spec_join(tests, "manual"@),
        SyncPurpose::UnitTest => spec_join(tests, "unit"@),
    }
}

/// Looks up the destination directory of `purpose` for `configuration`.
pub fn destination_for(purpose: SyncPurpose, configuration: BuildConfiguration) -> (path:
    &'static str)
    ensures
        path@ == spec_destination_for(purpose, configuration),
{
    let path = match (purpose, configuration) {
        (SyncPurpose::Project, BuildConfiguration::Debug) => "build/bin/Debug",
        (SyncPurpose::Project, BuildConfiguration::Release) => "build/bin/Release",
        (SyncPurpose::ManualTest, BuildConfiguration::Debug) => "build/bin/tests/Debug/manual",
        (SyncPurpose::ManualTest, BuildConfiguration::Release) => "build/bin/tests/Release/manual",
        (SyncPurpose::UnitTest, BuildConfiguration::Debug) => "build/bin/tests/Debug/unit",
        (SyncPurpose::UnitTest, BuildConfiguration::Release) => "build/bin/tests/Release/unit",
    };
    proof {
        reveal_strlit("build/bin");
        reveal_strlit("tests");
        reveal_strlit("manual");
        reveal_strlit("unit");
        reveal_strlit("Debug");
        reveal_strlit("Release");
        reveal_strlit("build/bin/Debug");
        reveal_strlit("build/bin/Release");
        reveal_strlit("build/bin/tests/Debug/manual");
        reveal_strlit("build/bin/tests/Release/manual");
        reveal_strlit("build/bin/tests/Debug/unit");
        reveal_strlit("build/bin/tests/Release/unit");
        assert(path@ =~= spec_destination_for(purpose, configuration));
    }
    path
}

/// The two destination directories of the project's own binaries, the one
/// for `Debug` first.
pub fn get_build_directories() -> (directories: (&'static str, &'static str))
    ensures
        directories.0@ == spec_destination_for(SyncPurpose::Project, BuildConfiguration::Debug),
        directories.1@ == spec_destination_for(SyncPurpose::Project, BuildConfiguration::Release),
{
    (
        destination_for(SyncPurpose::Project, BuildConfiguration::Debug),
        destination_for(SyncPurpose::Project, BuildConfiguration::Release),
    )
}

/// The destination directories of one purpose, one for each configuration.
#[derive(Clone, Copy, Debug)]
pub struct BuildDirectories<'a> {
    pub debug: &'a str,
    pub release: &'a str,
}

/// The destination directories of one purpose as the contracts see them.
pub struct DirectoriesView {
    pub debug: Seq<char>,
    pub release: Seq<char>,
}

impl DirectoriesView {
    /// The directory that belongs to `configuration`.
    pub open spec fn directory(self, configuration: BuildConfiguration) -> Seq<char> {
        match configuration {
            BuildConfiguration::Debug => self.debug,
            BuildConfiguration::Release => self.release,
        }
    }
}

/// The directories that the registry assigns to `purpose`.
pub open spec fn spec_directories_for(purpose: SyncPurpose) -> DirectoriesView {
    DirectoriesView {
        debug: spec_destination_for(purpose, BuildConfiguration::Debug),
        release: spec_destination_for(purpose, BuildConfiguration::Release),
    }
}

impl<'a> View for BuildDirectories<'a> {
    type V = DirectoriesView;

    open spec fn view(&self) -> DirectoriesView {
        DirectoriesView { debug: self.debug@, release: self.release@ }
    }
}

impl<'a> BuildDirectories<'a> {
    /// The directories that the registry assigns to `purpose`.
    pub fn for_purpose(purpose: SyncPurpose) -> (directories: BuildDirectories<'static>)
        ensures
            directories@ == spec_directories_for(purpose),
    {
        BuildDirectories {
            debug: destination_for(purpose, BuildConfiguration::Debug),
            release: destination_for(purpose, BuildConfiguration::Release),
        }
    }

    /// The directory that belongs to `configuration`.
    pub fn directory(&self, configuration: BuildConfiguration) -> (path: &'a str)
        ensures
            path@ == self@.directory(configuration),
    {
        match configuration {
            BuildConfiguration::Debug => self.debug,
            BuildConfiguration::Release => self.release,
        }
    }

    /// Tells whether the `Debug` directory is present in `disk`.
    pub fn does_debug_directory_exist(&self, disk: &DiskSnapshot) -> (present: bool)
        ensures
            present == disk@.contains(self@.directory(BuildConfiguration::Debug)),
    {
        disk.is_present(self.debug)
    }

    /// Tells whether the `Release` directory is present in `disk`.
    pub fn does_release_directory_exist(&self, disk: &DiskSnapshot) -> (present: bool)
        ensures
            present == disk@.contains(self@.directory(BuildConfiguration::Release)),
    {
        disk.is_present(self.release)
    }
}

} // verus!
