//! Assembling a project from its parsed parts.
//!
//! A project either holds its levels inline or names one file per level.  In
//! the second case the caller reads the named files and hands over what it
//! found; here it is decided whether the load succeeds and what the project
//! then holds.

use crate::model::{Level, Project};
use vstd::prelude::*;

verus! {

/// A level that the project stores in a separate file could not be had: its
/// stub names no file, or the file was absent or unreadable.
#[derive(Clone, Copy, Debug, PartialEq, Eq, Structural)]
pub struct MissingExternalLevelError {
    /// Position of the level in the project's list.
    pub level: usize,
}

/// Whether the level stored outside for stub number `i` is at hand: the stub
/// names a file and `files` holds what was read from it.
pub open spec fn external_level_present(
    stubs: Seq<Level>,
    files: Seq<Option<Level>>,
    i: int,
) -> bool {
    &&& 0 <= i < stubs.len()
    &&& stubs[i].external_rel_path is Some
    &&& i < files.len()
    &&& files[i] is Some
}

/// Whether every stub has its level at hand.
pub open spec fn external_levels_complete(stubs: Seq<Level>, files: Seq<Option<Level>>) -> bool {
    forall|i: int| 0 <= i < stubs.len() ==> external_level_present(stubs, files, i)
}

/// Whether `i` is the first stub whose level is not at hand.
pub open spec fn first_missing_level(stubs: Seq<Level>, files: Seq<Option<Level>>, i: int) -> bool {
    &&& 0 <= i < stubs.len()
    &&& !external_level_present(stubs, files, i)
    &&& forall|j: int| 0 <= j < i ==> external_level_present(stubs, files, j)
}

/// The levels of a project once the external files are taken into account.
pub open spec fn loaded_levels(
    inline: Seq<Level>,
    external: bool,
    files: Seq<Option<Level>>,
) -> Seq<Level> {
    if external {
        Seq::new(inline.len(), |i: int| files[i].unwrap())
    } else {
        inline
    }
}

/// A project that holds its levels inline keeps exactly those levels; a
/// project that stores them in separate files gets one level for each stub,
/// the one read from the file of that stub.
pub proof fn lemma_loaded_levels(inline: Seq<Level>, files: Seq<Option<Level>>)
    ensures
        loaded_levels(inline, false, files) == inline,
        loaded_levels(inline, true, files).len() == inline.len(),
        forall|i: int|
            0 <= i < inline.len() ==> #[trigger] loaded_levels(inline, true, files)[i]
                == files[i].unwrap(),
{
}

impl Project {
    /// Completes a parsed project.  `files[i]` is the level read from the file
    /// that stub `i` names, or `None` if that file could not be read; it is
    /// looked at only when the project stores its levels in separate files.
    pub fn new(parsed: Project, files: Vec<Option<Level>>) -> (r: Result<Project, MissingExternalLevelError>)
        ensures
            r is Ok <==> (parsed.external_levels ==> external_levels_complete(
                parsed.levels@,
                files@,
            )),
            r matches Ok(p) ==> {
                &&& p.defs == parsed.defs
                &&& p.external_levels == parsed.external_levels
                &&& p.levels@ == loaded_levels(parsed.levels@, parsed.external_levels, files@)
            },
            r matches Err(e) ==> first_missing_level(parsed.levels@, files@, e.level as int),
    {
        let mut project = parsed;
        match project.load_external_levels(files) {
            Ok(()) => Ok(project),
            Err(e) => Err(e),
        }
    }

    /// Drops every level.
    pub fn clear_levels(&mut self)
        ensures
            final(self).levels@ == Seq::<Level>::empty(),
            final(self).defs == old(self).defs,
            final(self).external_levels == old(self).external_levels,
    {
        self.levels = Vec::new();
    }

    /// The files to read before `load_external_levels`: for each stub, in
    /// order, the path it names, relative to the directory of the project
    /// file.  Empty when the levels are stored inline.
    pub fn external_level_paths(&self) -> (paths: Vec<Option<String>>)
        ensures
            !self.external_levels ==> paths@.len() == 0,
            self.external_levels ==> paths@.len() == self.levels@.len(),
            self.external_levels ==> forall|i: int|
                0 <= i < paths@.len() ==> #[trigger] paths@[i]
                    == self.levels@[i].external_rel_path,
    {
        let mut paths: Vec<Option<String>> = Vec::new();
        if self.external_levels {
            let n = self.levels.len();
            let mut i: usize = 0;
            while i < n
                invariant
                    n == self.levels@.len(),
                    i <= n,
                    paths@.len() == i,
                    forall|k: int|
                        0 <= k < i ==> #[trigger] paths@[k] == self.levels@[k].external_rel_path,
                decreases n - i,
            {
                let path = match &self.levels[i].external_rel_path {
                    Some(p) => Some(p.clone()),
                    None => None,
                };
                paths.push(path);
                i += 1;
            }
        }
        paths
    }

    /// Replaces the stubs by the levels read from their files, when the
    /// project stores its levels in separate files; otherwise leaves the
    /// project as it is.  Nothing is changed when a level is missing.
    pub fn load_external_levels(&mut self, files: Vec<Option<Level>>) -> (r: Result<
        (),
        MissingExternalLevelError,
    >)
        ensures
            final(self).defs == old(self).defs,
            final(self).external_levels == old(self).external_levels,
            r is Ok <==> (old(self).external_levels ==> external_levels_complete(
                old(self).levels@,
                files@,
            )),
            r is Ok ==> final(self).levels@ == loaded_levels(
                old(self).levels@,
                old(self).external_levels,
                files@,
            ),
            r matches Err(e) ==> {
                &&& first_missing_level(old(self).levels@, files@, e.level as int)
                &&& final(self).levels == old(self).levels
            },
    {
        if !self.external_levels {
            return Ok(());
        }
        let n = self.levels.len();
        let mut i: usize = 0;
        while i < n
            invariant
                n == self.levels@.len(),
                i <= n,
                *self == *old(self),
                self.external_levels,
                forall|j: int| 0 <= j < i ==> external_level_present(self.levels@, files@, j),
            decreases n - i,
        {
            let named = self.levels[i].external_rel_path.is_some();
            if !named || i >= files.len() || files[i].is_none() {
                assert(!external_level_present(old(self).levels@, files@, i as int));
                return Err(MissingExternalLevelError { level: i });
            }
            i += 1;
        }
        let ghost wanted = loaded_levels(old(self).levels@, true, files@);
        assert(n <= files@.len()) by {
            if n > 0 {
                assert(external_level_present(self.levels@, files@, n - 1));
            }
        }
        assert forall|j: int| 0 <= j < n implies (#[trigger] files@[j]) is Some by {
            assert(external_level_present(self.levels@, files@, j));
        }
        let mut rest = files;
        rest.truncate(n);
        let mut backwards: Vec<Level> = Vec::new();
        while rest.len() > 0
            invariant
                rest@.len() + backwards@.len() == n,
                wanted.len() == n,
                forall|j: int| 0 <= j < rest@.len() ==> (#[trigger] rest@[j]) is Some,
                forall|j: int| 0 <= j < rest@.len() ==> (#[trigger] rest@[j]).unwrap() == wanted[j],
                forall|k: int|
                    0 <= k < backwards@.len() ==> #[trigger] backwards@[k] == wanted[n - 1 - k],
            decreases rest@.len(),
        {
            let last = rest.pop().unwrap();
            backwards.push(last.unwrap());
        }
        self.clear_levels();
        while backwards.len() > 0
            invariant
                self.levels@.len() + backwards@.len() == n,
                wanted.len() == n,
                self.defs == old(self).defs,
                self.external_levels == old(self).external_levels,
                forall|k: int|
                    0 <= k < backwards@.len() ==> #[trigger] backwards@[k] == wanted[n - 1 - k],
                forall|j: int| 0 <= j < self.levels@.len() ==> #[trigger] self.levels@[j] == wanted[j],
            decreases backwards@.len(),
        {
            let level = backwards.pop().unwrap();
            self.levels.push(level);
        }
        assert(self.levels@ =~= wanted);
        Ok(())
    }

    /// The first level with identifier `uid`, if there is one.
    pub fn get_level(&self, uid: i64) -> (found: Option<&Level>)
        ensures
            found is Some <==> exists|i: int|
                0 <= i < self.levels@.len() && (#[trigger] self.levels@[i]).uid == uid,
            found matches Some(level) ==> exists|i: int|
                {
                    &&& 0 <= i < self.levels@.len()
                    &&& #[trigger] self.levels@[i] == *level
                    &&& level.uid == uid
                    &&& forall|j: int| 0 <= j < i ==> (#[trigger] self.levels@[j]).uid != uid
                },
    {
        let n = self.levels.len();
        let mut i: usize = 0;
        while i < n
            invariant
                n == self.levels@.len(),
                i <= n,
                forall|j: int| 0 <= j < i ==> (#[trigger] self.levels@[j]).uid != uid,
            decreases n - i,
        {
            if self.levels[i].uid == uid {
                return Some(&self.levels[i]);
            }
            i += 1;
        }
        None
    }
}

} // verus!
