//! A workspace: the parsed files of a project, to be built into entities and
//! schemas.

use vstd::prelude::*;
use crate::parser::parsed_source::ParsedSource;
use crate::text::str_equal;

pub mod builder;
pub mod workspace_errors;

pub use builder::WorkspaceBuild;
pub use workspace_errors::WorkspaceError;

verus! {

/// A parsed file of the workspace.
#[derive(Debug)]
pub struct WorkspaceFile {
    pub parsed: ParsedSource,
}

impl WorkspaceFile {
    /// A file of the workspace with its parsed source.
    pub fn new(parsed: ParsedSource) -> (r: Self)
        ensures
            r.parsed == parsed,
    {
        WorkspaceFile { parsed }
    }
}

/// The files of a project, by path, in the order in which they were added.
#[derive(Debug)]
pub struct Workspace {
    files: Vec<(String, WorkspaceFile)>,
}

/// The position of the first file at a path, or the number of files.
pub open spec fn file_position(files: Seq<(String, WorkspaceFile)>, path: Seq<char>) -> int
    decreases files.len(),
{
    if files.len() == 0 {
        0
    } else if files[0].0@ == path {
        0
    } else {
        1 + file_position(files.drop_first(), path)
    }
}

/// A file at the path with no earlier one at the path is at `file_position`.
proof fn lemma_file_position_is(files: Seq<(String, WorkspaceFile)>, path: Seq<char>, k: int)
    requires
        0 <= k <= files.len(),
        forall|i: int| 0 <= i < k ==> (#[trigger] files[i]).0@ != path,
        k < files.len() ==> files[k].0@ == path,
    ensures
        file_position(files, path) == k,
    decreases files.len(),
{
    if files.len() > 0 && k > 0 {
        let rest = files.drop_first();
        assert(files[0].0@ != path);
        assert forall|i: int| 0 <= i < k - 1 implies (#[trigger] rest[i]).0@ != path by {
            assert(rest[i] == files[i + 1]);
        }
        if k < files.len() {
            assert(rest[k - 1] == files[k]);
        }
        lemma_file_position_is(rest, path, k - 1);
    }
}

impl Workspace {
    /// The files with their paths, in the order in which they were added.
    pub closed spec fn files(self) -> Seq<(String, WorkspaceFile)> {
        self.files@
    }

    /// A workspace without files.
    pub fn new() -> (r: Self)
        ensures
            r.files().len() == 0,
    {
        Workspace { files: Vec::new() }
    }

    /// The number of files in the workspace.
    pub fn num_files(&self) -> (r: usize)
        ensures
            r == self.files().len(),
    {
        self.files.len()
    }

    /// Puts a file into the workspace. A file at the same path is replaced
    /// and keeps its place; a new one goes to the end.
    pub fn add_file(&mut self, path: String, file: WorkspaceFile)
        ensures
            ({
                let at = file_position(old(self).files(), path@);
                if at < old(self).files().len() {
                    final(self).files() == old(self).files().update(at, (path, file))
                } else {
                    final(self).files() == old(self).files().push((path, file))
                }
            }),
    {
        let mut i: usize = 0;
        while i < self.files.len() && !str_equal(self.files[i].0.as_str(), path.as_str())
            invariant
                i <= self.files.len(),
                self.files@ == old(self).files@,
                forall|j: int| 0 <= j < i ==> (#[trigger] self.files@[j]).0@ != path@,
            decreases self.files.len() - i,
        {
            i += 1;
        }
        proof {
            lemma_file_position_is(self.files@, path@, i as int);
        }
        let ghost before = self.files@;
        if i < self.files.len() {
            self.files.remove(i);
            self.files.insert(i, (path, file));
            assert(self.files@ =~= before.update(i as int, (path, file)));
        } else {
            self.files.push((path, file));
        }
    }

    /// The path of the file at a place.
    pub fn path_at(&self, index: usize) -> (r: &str)
        requires
            index < self.files().len(),
        ensures
            r@ == self.files()[index as int].0@,
    {
        self.files[index].0.as_str()
    }

    /// The file at a place.
    pub fn file_at(&self, index: usize) -> (r: &WorkspaceFile)
        requires
            index < self.files().len(),
        ensures
            *r == self.files()[index as int].1,
    {
        &self.files[index].1
    }
}

} // verus!
