//! What the caller has observed on disk before a run.

use vstd::prelude::*;

verus! {

/// The paths that are known to exist.
///
/// The caller probes the disk and records each path that it found. While a
/// run is planned the snapshot also takes up the paths that the planned
/// operations create: the run is the only writer to its destinations.
pub struct DiskSnapshot {
    present: Vec<String>,
}

impl View for DiskSnapshot {
    type V = Set<Seq<char>>;

    /// The set of the recorded paths.
    closed spec fn view(&self) -> Set<Seq<char>> {
        Set::new(
            |path: Seq<char>|
                exists|i: int| 0 <= i < self.present.len() && #[trigger] self.present[i]@ == path,
        )
    }
}

impl DiskSnapshot {
    /// A snapshot in which no path exists.
    pub fn new() -> (disk: DiskSnapshot)
        ensures
            disk@ == Set::<Seq<char>>::empty(),
    {
        let disk = DiskSnapshot { present: Vec::new() };
        assert(disk@ =~= Set::<Seq<char>>::empty());
        disk
    }

    /// Tells whether `path` is recorded as existing.
    pub fn is_present(&self, path: &str) -> (present: bool)
        ensures
            present == self@.contains(path@),
    {
        let needle = String::from_str(path);
        let mut i: usize = 0;
        while i < self.present.len()
            invariant
                i <= self.present.len(),
                needle@ == path@,
                forall|j: int| 0 <= j < i ==> #[trigger] self.present[j]@ != path@,
            decreases self.present.len() - i,
        {
            if self.present[i] == needle {
                return true;
            }
            i += 1;
        }
        false
    }

    /// Records that `path` exists.
    pub fn mark_present(&mut self, path: &str)
        ensures
            final(self)@ == old(self)@.insert(path@),
    {
        if !self.is_present(path) {
            self.present.push(String::from_str(path));
            assert forall|p: Seq<char>| self@.contains(p) <==> old(self)@.insert(path@).contains(
                p,
            ) by {
                if old(self)@.contains(p) {
                    let i = choose|i: int|
                        0 <= i < old(self).present.len() && #[trigger] old(self).present[i]@ == p;
                    assert(self.present[i]@ == p);
                }
                if p == path@ {
                    assert(self.present[old(self).present.len() as int]@ == p);
                }
            }
            assert(self@ =~= old(self)@.insert(path@));
        } else {
            assert(old(self)@.insert(path@) =~= old(self)@);
        }
    }
}

} // verus!
