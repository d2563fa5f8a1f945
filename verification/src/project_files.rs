//! The in-memory image of the projects directory.
//!
//! The service keeps one subdirectory per project under a configured root;
//! the download variant of the engine creates and populates these, and the
//! file routes list and read them. This module models that tree as data: a
//! store of uniquely named projects, each holding uniquely named text files.

use vstd::prelude::*;

verus! {

/// The error type of the platform's I/O operations, carried through opaquely.
/// Relies on `std::io::Error` only as a value; nothing of it is inspected.
#[verifier::external_type_specification]
#[verifier::external_body]
pub struct ExIoError(std::io::Error);

/// Why listing a project's files failed.
#[derive(Debug)]
pub enum ListFilesError {
    /// The project does not exist.
    NotFound,
    /// Reading the directory failed on the platform side.
    IoError(std::io::Error),
}

/// Why reading one file of a project failed.
#[derive(Debug)]
pub enum GetFileError {
    /// The project or the file does not exist.
    NotFound,
    /// Reading the file failed on the platform side.
    IoError(std::io::Error),
}

/// One file of a project: a name and its text content.
pub struct NamedFile {
    /// The file's name inside its project.
    pub name: String,
    /// The file's text content.
    pub content: String,
}

/// One project: a named directory holding files.
pub struct Project {
    /// The project's name under the configured root.
    pub name: String,
    /// The project's files, in creation order.
    pub files: Vec<NamedFile>,
}

/// Index of the project with the given name, if present.
pub open spec fn find_project(projects: Seq<Project>, name: Seq<char>) -> Option<int> {
    if exists|k: int| 0 <= k < projects.len() && (#[trigger] projects[k]).name@ == name {
        Some(choose|k: int| 0 <= k < projects.len() && (#[trigger] projects[k]).name@ == name)
    } else {
        None
    }
}

/// Index of the file with the given name, if present.
pub open spec fn find_file(files: Seq<NamedFile>, name: Seq<char>) -> Option<int> {
    if exists|k: int| 0 <= k < files.len() && (#[trigger] files[k]).name@ == name {
        Some(choose|k: int| 0 <= k < files.len() && (#[trigger] files[k]).name@ == name)
    } else {
        None
    }
}

/// The in-memory image of the configured projects root: one entry per
/// project subdirectory.
pub struct ProjectStore {
    /// The projects, in creation order.
    pub projects: Vec<Project>,
}

impl ProjectStore {
    /// Well-formedness: project names are unique, and file names are unique
    /// within each project.
    pub open spec fn wf(self) -> bool {
        &&& forall|i: int, j: int|
            0 <= i < j < self.projects@.len() ==> (#[trigger] self.projects@[i]).name@ != (
            #[trigger] self.projects@[j]).name@
        &&& forall|p: int, i: int, j: int|
            0 <= p < self.projects@.len() && 0 <= i < j
                < (#[trigger] self.projects@[p]).files@.len() ==> (
            #[trigger] self.projects@[p].files@[i]).name@ != (
            #[trigger] self.projects@[p].files@[j]).name@
    }

    /// An empty root with no projects.
    pub fn new() -> (r: ProjectStore)
        ensures
            r.wf(),
            r.projects@.len() == 0,
    {
        ProjectStore { projects: Vec::new() }
    }

    /// Makes sure a project of the given name exists, creating it empty if it
    /// is absent — the image of creating the project's directory. Every
    /// existing project is untouched.
    pub fn ensure_project(&mut self, name: String)
        requires
            old(self).wf(),
        ensures
            final(self).wf(),
            find_project(old(self).projects@, name@) is Some ==> *final(self) == *old(self),
            find_project(old(self).projects@, name@) is None ==> {
                &&& final(self).projects@.len() == old(self).projects@.len() + 1
                &&& final(self).projects@.subrange(0, old(self).projects@.len() as int) == old(
                    self,
                ).projects@
                &&& final(self).projects@.last().name == name
                &&& final(self).projects@.last().files@.len() == 0
            },
            find_project(final(self).projects@, name@) is Some,
    {
        let n = self.projects.len();
        let mut i: usize = 0;
        while i < n
            invariant
                old(self).wf(),
                n == self.projects@.len(),
                *self == *old(self),
                0 <= i <= n,
                forall|j: int| 0 <= j < i ==> (#[trigger] self.projects@[j]).name@ != name@,
            decreases n - i,
        {
            if self.projects[i].name == name {
                proof {
                    assert(find_project(self.projects@, name@) is Some);
                }
                return ;
            }
            i = i + 1;
        }
        proof {
            assert(find_project(old(self).projects@, name@) is None);
        }
        let fresh = Project { name, files: Vec::new() };
        let ghost fresh_name = fresh.name@;
        self.projects.push(fresh);
        proof {
            assert(final(self).projects@.last().name@ == fresh_name);
            assert(find_project(final(self).projects@, fresh_name) is Some);
        }
    }

    /// Writes one file into an existing project — the image of the engine
    /// extracting one archive entry. A file of the same name is overwritten;
    /// otherwise the file is appended. A missing project leaves the store
    /// unchanged and reports false.
    pub fn add_file(&mut self, project_name: &String, file_name: String, content: String) -> (r:
        bool)
        requires
            old(self).wf(),
        ensures
            final(self).wf(),
            r == (find_project(old(self).projects@, project_name@) is Some),
            find_project(old(self).projects@, project_name@) is None ==> *final(self) == *old(
                self,
            ),
            find_project(old(self).projects@, project_name@) matches Some(p) ==> {
                let before = old(self).projects@[p];
                let after = final(self).projects@[p];
                &&& final(self).projects@.len() == old(self).projects@.len()
                &&& (forall|q: int|
                    0 <= q < old(self).projects@.len() && q != p
                        ==> final(self).projects@[q] == old(self).projects@[q])
                &&& after.name == before.name
                &&& (match find_file(before.files@, file_name@) {
                    Some(f) => {
                        &&& after.files@.len() == before.files@.len()
                        &&& (forall|g: int|
                            0 <= g < before.files@.len() && g != f
                                ==> after.files@[g] == before.files@[g])
                        &&& after.files@[f].name@ == file_name@
                        &&& after.files@[f].content == content
                    },
                    None => after.files@ == before.files@.push(
                        (NamedFile { name: file_name, content }),
                    ),
                })
            },
    {
        let n = self.projects.len();
        let mut i: usize = 0;
        while i < n
            invariant
                old(self).wf(),
                n == self.projects@.len(),
                *self == *old(self),
                0 <= i <= n,
                forall|j: int|
                    0 <= j < i ==> (#[trigger] self.projects@[j]).name@ != project_name@,
            decreases n - i,
        {
            if self.projects[i].name == *project_name {
                proof {
                    lemma_project_index_unique(old(self).projects@, project_name@, i as int);
                }
                let m = self.projects[i].files.len();
                let mut k: usize = 0;
                while k < m
                    invariant
                        old(self).wf(),
                        0 <= i < self.projects@.len(),
                        m == self.projects@[i as int].files@.len(),
                        *self == *old(self),
                        self.projects@[i as int].name@ == project_name@,
                        0 <= k <= m,
                        forall|g: int|
                            0 <= g < k ==> (#[trigger] self.projects@[i as int].files@[g]).name@
                                != file_name@,
                    decreases m - k,
                {
                    if self.projects[i].files[k].name == file_name {
                        proof {
                            lemma_file_index_unique(
                                old(self).projects@[i as int].files@,
                                file_name@,
                                k as int,
                            );
                        }
                        self.projects[i].files[k].content = content;
                        return true;
                    }
                    k = k + 1;
                }
                proof {
                    assert(find_file(old(self).projects@[i as int].files@, file_name@) is None);
                }
                self.projects[i].files.push(NamedFile { name: file_name, content });
                return true;
            }
            i = i + 1;
        }
        proof {
            assert(find_project(old(self).projects@, project_name@) is None);
        }
        false
    }

    /// Lists the file names of a project, in creation order; a missing
    /// project reports not found.
    pub fn list_files(&self, project_name: &String) -> (r: Result<Vec<String>, ListFilesError>)
        requires
            self.wf(),
        ensures
            (match find_project(self.projects@, project_name@) {
                Some(p) => {
                    &&& r matches Ok(names)
                    &&& names@.len() == self.projects@[p].files@.len()
                    &&& (forall|i: int|
                        0 <= i < names@.len() ==> #[trigger] names@[i]
                            == self.projects@[p].files@[i].name)
                },
                None => r matches Err(e) && e is NotFound,
            }),
    {
        let n = self.projects.len();
        let mut i: usize = 0;
        while i < n
            invariant
                self.wf(),
                n == self.projects@.len(),
                0 <= i <= n,
                forall|j: int|
                    0 <= j < i ==> (#[trigger] self.projects@[j]).name@ != project_name@,
            decreases n - i,
        {
            if self.projects[i].name == *project_name {
                proof {
                    lemma_project_index_unique(self.projects@, project_name@, i as int);
                }
                let m = self.projects[i].files.len();
                let mut names: Vec<String> = Vec::new();
                let mut k: usize = 0;
                while k < m
                    invariant
                        0 <= i < self.projects@.len(),
                        m == self.projects@[i as int].files@.len(),
                        0 <= k <= m,
                        names@.len() == k,
                        forall|g: int|
                            0 <= g < k ==> #[trigger] names@[g] == self.projects@[i as int].files@[g].name,
                    decreases m - k,
                {
                    names.push(self.projects[i].files[k].name.clone());
                    k = k + 1;
                }
                return Ok(names);
            }
            i = i + 1;
        }
        proof {
            assert(find_project(self.projects@, project_name@) is None);
        }
        Err(ListFilesError::NotFound)
    }

    /// Reads the text of one file of a project; a missing project or file
    /// reports not found.
    pub fn get_file(&self, project_name: &String, file_name: &String) -> (r: Result<
        String,
        GetFileError,
    >)
        requires
            self.wf(),
        ensures
            (match find_project(self.projects@, project_name@) {
                Some(p) => match find_file(self.projects@[p].files@, file_name@) {
                    Some(f) => r matches Ok(text) && text
                        == self.projects@[p].files@[f].content,
                    None => r matches Err(e) && e is NotFound,
                },
                None => r matches Err(e) && e is NotFound,
            }),
    {
        let n = self.projects.len();
        let mut i: usize = 0;
        while i < n
            invariant
                self.wf(),
                n == self.projects@.len(),
                0 <= i <= n,
                forall|j: int|
                    0 <= j < i ==> (#[trigger] self.projects@[j]).name@ != project_name@,
            decreases n - i,
        {
            if self.projects[i].name == *project_name {
                proof {
                    lemma_project_index_unique(self.projects@, project_name@, i as int);
                }
                let m = self.projects[i].files.len();
                let mut k: usize = 0;
                while k < m
                    invariant
                        self.wf(),
                        0 <= i < self.projects@.len(),
                        m == self.projects@[i as int].files@.len(),
                        self.projects@[i as int].name@ == project_name@,
                        0 <= k <= m,
                        forall|g: int|
                            0 <= g < k ==> (#[trigger] self.projects@[i as int].files@[g]).name@
                                != file_name@,
                    decreases m - k,
                {
                    if self.projects[i].files[k].name == *file_name {
                        proof {
                            lemma_file_index_unique(
                                self.projects@[i as int].files@,
                                file_name@,
                                k as int,
                            );
                        }
                        return Ok(self.projects[i].files[k].content.clone());
                    }
                    k = k + 1;
                }
                proof {
                    assert(find_file(self.projects@[i as int].files@, file_name@) is None);
                }
                return Err(GetFileError::NotFound);
            }
            i = i + 1;
        }
        proof {
            assert(find_project(self.projects@, project_name@) is None);
        }
        Err(GetFileError::NotFound)
    }
}

/// In a store with unique project names, the index holding a given name is
/// the only one, and `find_project` returns it.
proof fn lemma_project_index_unique(projects: Seq<Project>, name: Seq<char>, i: int)
    requires
        forall|p: int, q: int|
            0 <= p < q < projects.len() ==> (#[trigger] projects[p]).name@ != (
            #[trigger] projects[q]).name@,
        0 <= i < projects.len(),
        projects[i].name@ == name,
    ensures
        forall|j: int| 0 <= j < projects.len() && (#[trigger] projects[j]).name@ == name ==> j == i,
        find_project(projects, name) == Some(i),
{
    assert forall|j: int|
        0 <= j < projects.len() && (#[trigger] projects[j]).name@ == name implies j == i by {
        if j < i {
            assert(projects[j].name@ != projects[i].name@);
        } else if j > i {
            assert(projects[i].name@ != projects[j].name@);
        }
    }
}

/// In a project with unique file names, the index holding a given name is
/// the only one, and `find_file` returns it.
proof fn lemma_file_index_unique(files: Seq<NamedFile>, name: Seq<char>, i: int)
    requires
        forall|p: int, q: int|
            0 <= p < q < files.len() ==> (#[trigger] files[p]).name@ != (
            #[trigger] files[q]).name@,
        0 <= i < files.len(),
        files[i].name@ == name,
    ensures
        forall|j: int| 0 <= j < files.len() && (#[trigger] files[j]).name@ == name ==> j == i,
        find_file(files, name) == Some(i),
{
    assert forall|j: int|
        0 <= j < files.len() && (#[trigger] files[j]).name@ == name implies j == i by {
        if j < i {
            assert(files[j].name@ != files[i].name@);
        } else if j > i {
            assert(files[i].name@ != files[j].name@);
        }
    }
}

} // verus!
