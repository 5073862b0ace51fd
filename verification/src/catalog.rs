//! The camera's media listing: directories in the order listed, each with
//! its files in the order listed.
//!
//! Every field of a file entry is kept as the text the camera sent. A stored
//! file is identified by the pair of its directory and its own name.

use vstd::prelude::*;

verus! {

/// One stored file as the camera lists it.
#[derive(Clone, Debug, PartialEq, Eq)]
pub struct FileEntry {
    pub name: String,
    pub created: String,
    pub modified: String,
    pub last_viewed: String,
    pub size: String,
}

/// One storage folder of the camera and the files it holds.
#[derive(Clone, Debug, PartialEq, Eq)]
pub struct Directory {
    pub name: String,
    pub files: Vec<FileEntry>,
}

/// The whole listing of one run.
#[derive(Clone, Debug, PartialEq, Eq)]
pub struct Catalog {
    pub id: String,
    pub directories: Vec<Directory>,
}

/// Identity of a stored file: its directory and its name.
#[derive(Clone, Debug, PartialEq, Eq)]
pub struct RemoteFile {
    pub directory: String,
    pub name: String,
}

/// A file entry as the contracts see it.
pub struct FileEntryView {
    pub name: Seq<char>,
    pub created: Seq<char>,
    pub modified: Seq<char>,
    pub last_viewed: Seq<char>,
    pub size: Seq<char>,
}

/// A directory as the contracts see it.
pub struct DirectoryView {
    pub name: Seq<char>,
    pub files: Seq<FileEntryView>,
}

/// A catalog as the contracts see it.
pub struct CatalogView {
    pub id: Seq<char>,
    pub directories: Seq<DirectoryView>,
}

/// The identity of a stored file as the contracts see it.
pub struct RemoteFileView {
    pub directory: Seq<char>,
    pub name: Seq<char>,
}

impl View for FileEntry {
    type V = FileEntryView;

    open spec fn view(&self) -> FileEntryView {
        FileEntryView {
            name: self.name@,
            created: self.created@,
            modified: self.modified@,
            last_viewed: self.last_viewed@,
            size: self.size@,
        }
    }
}

impl View for Directory {
    type V = DirectoryView;

    open spec fn view(&self) -> DirectoryView {
        DirectoryView { name: self.name@, files: self.files@.map_values(|f: FileEntry| f@) }
    }
}

impl View for Catalog {
    type V = CatalogView;

    open spec fn view(&self) -> CatalogView {
        CatalogView { id: self.id@, directories: self.directories@.map_values(|d: Directory| d@) }
    }
}

impl View for RemoteFile {
    type V = RemoteFileView;

    open spec fn view(&self) -> RemoteFileView {
        RemoteFileView { directory: self.directory@, name: self.name@ }
    }
}

/// The views of a list of file identities, in the same order.
pub open spec fn remote_views(files: Seq<RemoteFile>) -> Seq<RemoteFileView> {
    files.map_values(|f: RemoteFile| f@)
}

impl DirectoryView {
    /// The files of this directory, in the order listed.
    pub open spec fn remote_files(self) -> Seq<RemoteFileView> {
        Seq::new(
            self.files.len(),
            |j: int| RemoteFileView { directory: self.name, name: self.files[j].name },
        )
    }
}

/// The files of `directories`: those of the first directory in their order,
/// then those of the second, and so on.
pub open spec fn files_of(directories: Seq<DirectoryView>) -> Seq<RemoteFileView>
    decreases directories.len(),
{
    if directories.len() == 0 {
        Seq::empty()
    } else {
        files_of(directories.drop_last()) + directories.last().remote_files()
    }
}

/// How many files `directories` hold together.
pub open spec fn count_files(directories: Seq<DirectoryView>) -> nat
    decreases directories.len(),
{
    if directories.len() == 0 {
        0
    } else {
        count_files(directories.drop_last()) + directories.last().files.len()
    }
}

impl CatalogView {
    /// Every file of the catalog, in catalog order.
    pub open spec fn remote_files(self) -> Seq<RemoteFileView> {
        files_of(self.directories)
    }

    /// The number of files over all directories.
    pub open spec fn file_count(self) -> nat {
        count_files(self.directories)
    }
}

/// The walk order lists each file once: it is as long as the catalog has files.
pub proof fn lemma_files_of_len(directories: Seq<DirectoryView>)
    ensures
        files_of(directories).len() == count_files(directories),
    decreases directories.len(),
{
    if directories.len() > 0 {
        lemma_files_of_len(directories.drop_last());
    }
}

/// File `j` of directory `i` stands in the walk order after all files of the
/// directories before `i` and after the `j` files before it in its own.
pub proof fn law_files_in_catalog_order(directories: Seq<DirectoryView>, i: int, j: int)
    requires
        0 <= i < directories.len(),
        0 <= j < directories[i].files.len(),
    ensures
        count_files(directories.take(i)) + j < files_of(directories).len(),
        files_of(directories)[count_files(directories.take(i)) + j] == (RemoteFileView {
            directory: directories[i].name,
            name: directories[i].files[j].name,
        }),
    decreases directories.len(),
{
    let front = directories.drop_last();
    lemma_files_of_len(front);
    lemma_files_of_len(directories);
    if i == directories.len() - 1 {
        assert(directories.take(i) == front);
    } else {
        law_files_in_catalog_order(front, i, j);
        assert(front.take(i) == directories.take(i));
    }
}

impl RemoteFile {
    /// A second value for the same stored file.
    pub fn duplicate(&self) -> (copy: RemoteFile)
        ensures
            copy@ == self@,
    {
        RemoteFile { directory: self.directory.clone(), name: self.name.clone() }
    }
}

impl Catalog {
    /// Lists every file of the catalog in the order of the walk: directory by
    /// directory, and within a directory file by file.
    pub fn remote_files(&self) -> (files: Vec<RemoteFile>)
        ensures
            remote_views(files@) == self@.remote_files(),
            files@.len() == self@.file_count(),
    {
        let ghost directories = self@.directories;
        let mut files: Vec<RemoteFile> = Vec::new();
        let mut i: usize = 0;
        while i < self.directories.len()
            invariant
                i <= self.directories.len(),
                directories == self@.directories,
                remote_views(files@) == files_of(directories.take(i as int)),
            decreases self.directories.len() - i,
        {
            let directory = &self.directories[i];
            let ghost before = remote_views(files@);
            let mut j: usize = 0;
            while j < directory.files.len()
                invariant
                    j <= directory.files.len(),
                    remote_views(files@) == before + directory@.remote_files().take(j as int),
                decreases directory.files.len() - j,
            {
                let file = RemoteFile {
                    directory: directory.name.clone(),
                    name: directory.files[j].name.clone(),
                };
                let ghost listed = directory@.remote_files();
                let ghost earlier = files@;
                assert(file@ == listed[j as int]);
                files.push(file);
                assert(remote_views(files@) == remote_views(earlier).push(listed[j as int]));
                assert(listed.take(j + 1) == listed.take(j as int).push(listed[j as int]));
                j = j + 1;
            }
            assert(directory@.remote_files().take(j as int) == directory@.remote_files());
            assert(directories.take(i + 1).drop_last() == directories.take(i as int));
            assert(directories.take(i + 1).last() == directory@);
            i = i + 1;
        }
        assert(directories.take(i as int) == directories);
        proof {
            lemma_files_of_len(directories);
        }
        files
    }
}

} // verus!
