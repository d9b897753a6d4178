//! The file list: the open files with their names and texts, and the path
//! and name of the file that is shown.

use vstd::prelude::*;
use std::path::PathBuf;
use crate::file_store::{files_after_close, files_after_insert, FileDataView};
use crate::keyed::{distinct_keys, lemma_first_place, lemma_no_place, lemma_position_of, position_of};
use crate::paths::{
    file_name, file_name_of_text, file_name_text, file_path, has_readable_name, path_of, path_text,
};

verus! {

/// What the list shows of a file: its path and its name.
#[derive(Debug, Clone)]
pub struct FileMetaData {
    pub path: String,
    pub name: String,
}

/// The list as mathematics: the path and name of the file that is shown,
/// and the open files under their paths, in the order in which they were
/// opened.
pub struct FileListView {
    pub active_file_path: Seq<char>,
    pub active_file_name: Seq<char>,
    pub files: Seq<(Seq<char>, FileDataView)>,
}

/// The open files of the editor. No path is held twice.
pub struct FileList {
    active_file_path: String,
    active_file_name: String,
    files: Vec<(FileMetaData, String)>,
}

/// The files of a list as mathematics.
pub open spec fn listed_view(files: Seq<(FileMetaData, String)>) -> Seq<(Seq<char>, FileDataView)> {
    files.map_values(
        |file: (FileMetaData, String)|
            (file.0.path@, FileDataView { name: file.0.name@, content: file.1@ }),
    )
}

/// The path that is shown once a file was closed and `files` are left: that
/// of the first file, or none.
pub open spec fn active_path_after_close(files: Seq<(Seq<char>, FileDataView)>) -> Seq<char> {
    if files.len() > 0 {
        files[0].0
    } else {
        Seq::empty()
    }
}

/// The name that is shown once a file was closed and `files` are left.
pub open spec fn active_name_after_close(files: Seq<(Seq<char>, FileDataView)>) -> Seq<char> {
    if files.len() > 0 {
        file_name_text(path_of(files[0].0))
    } else {
        Seq::empty()
    }
}

/// Replacing the text at place `i` changes only that text in the view and
/// keeps the paths distinct.
proof fn lemma_edit_text(files: Seq<(FileMetaData, String)>, i: int, edited: (FileMetaData, String))
    requires
        0 <= i < files.len(),
        edited.0 == files[i].0,
    ensures
        listed_view(files.update(i, edited)) == listed_view(files).update(
            i,
            (files[i].0.path@, FileDataView { name: files[i].0.name@, content: edited.1@ }),
        ),
        distinct_keys(listed_view(files)) ==> distinct_keys(listed_view(files.update(i, edited))),
{
    let before = listed_view(files);
    let after = listed_view(files.update(i, edited));
    assert(after =~= before.update(
        i,
        (files[i].0.path@, FileDataView { name: files[i].0.name@, content: edited.1@ }),
    ));
    if distinct_keys(before) {
        assert forall|a: int, b: int| 0 <= a < b < after.len() implies (#[trigger] after[a]).0 != (
        #[trigger] after[b]).0 by {
            assert(after[a].0 == before[a].0);
            assert(after[b].0 == before[b].0);
        }
    }
}

/// The place of `path` among `files`.
fn find(files: &Vec<(FileMetaData, String)>, path: &String) -> (found: Option<usize>)
    ensures
        match position_of(listed_view(files@), path@) {
            Some(i) => found == Some(i as usize),
            None => found is None,
        },
        found matches Some(i) ==> i < files@.len() && position_of(listed_view(files@), path@)
            == Some(i as int),
{
    let mut i: usize = 0;
    while i < files.len()
        invariant
            i <= files.len(),
            forall|k: int| 0 <= k < i ==> (#[trigger] listed_view(files@)[k]).0 != path@,
        decreases files.len() - i,
    {
        if files[i].0.path == *path {
            proof {
                lemma_first_place(listed_view(files@), path@, i as int);
            }
            return Some(i);
        }
        i += 1;
    }
    proof {
        lemma_no_place(listed_view(files@), path@);
    }
    None
}

impl View for FileList {
    type V = FileListView;

    closed spec fn view(&self) -> FileListView {
        FileListView {
            active_file_path: self.active_file_path@,
            active_file_name: self.active_file_name@,
            files: listed_view(self.files@),
        }
    }
}

impl Default for FileList {
    /// A list with no file open and none shown.
    fn default() -> (list: FileList)
        ensures
            list.wf(),
            list@.files == Seq::<(Seq<char>, FileDataView)>::empty(),
            list@.active_file_path == Seq::<char>::empty(),
            list@.active_file_name == Seq::<char>::empty(),
    {
        let list = FileList {
            active_file_path: String::new(),
            active_file_name: String::new(),
            files: Vec::new(),
        };
        assert(list@.files =~= Seq::<(Seq<char>, FileDataView)>::empty());
        list
    }
}

impl FileList {
    /// The list's invariant: no path is open twice.
    pub closed spec fn wf(&self) -> bool {
        distinct_keys(listed_view(self.files@))
    }

    /// What `wf` says of the files.
    pub proof fn lemma_wf_files(&self)
        requires
            self.wf(),
        ensures
            distinct_keys(self@.files),
    {
    }

    /// A list with no file open and none shown.
    pub fn new() -> (list: FileList)
        ensures
            list.wf(),
            list@.files == Seq::<(Seq<char>, FileDataView)>::empty(),
            list@.active_file_path == Seq::<char>::empty(),
            list@.active_file_name == Seq::<char>::empty(),
    {
        FileList::default()
    }

    /// Opens `content` under `file_path`, and shows it if `set_active` is
    /// set. A path that is open already keeps its text, and `content` is
    /// dropped.
    pub fn insert(&mut self, file_path: &String, content: String, set_active: bool)
        requires
            old(self).wf(),
        ensures
            final(self).wf(),
            final(self)@.files == files_after_insert(old(self)@.files, file_path@, content@),
            set_active ==> final(self)@.active_file_path == file_path@
                && final(self)@.active_file_name == file_name_text(path_of(file_path@)),
            !set_active ==> final(self)@.active_file_path == old(self)@.active_file_path
                && final(self)@.active_file_name == old(self)@.active_file_name,
    {
        let name = file_name_of_text(file_path);
        proof {
            lemma_position_of(listed_view(self.files@), file_path@);
        }
        match find(&self.files, file_path) {
            Some(i) => {
                let ghost before = listed_view(self.files@);
                self.files[i].0.name = name;
                proof {
                    let after = listed_view(self.files@);
                    assert(after =~= before.update(
                        i as int,
                        (file_path@, FileDataView { name: name@, content: before[i as int].1.content }),
                    ));
                    assert forall|a: int, b: int| 0 <= a < b < after.len() implies (
                    #[trigger] after[a]).0 != (#[trigger] after[b]).0 by {
                        assert(after[a].0 == before[a].0);
                        assert(after[b].0 == before[b].0);
                    }
                }
            },
            None => {
                let ghost before = listed_view(self.files@);
                self.files.push((FileMetaData { path: file_path.clone(), name }, content));
                proof {
                    let after = listed_view(self.files@);
                    assert(after =~= before.push(
                        (file_path@, FileDataView { name: name@, content: content@ }),
                    ));
                    assert forall|a: int, b: int| 0 <= a < b < after.len() implies (
                    #[trigger] after[a]).0 != (#[trigger] after[b]).0 by {
                        assert(after[a] == before[a]);
                        if b < before.len() {
                            assert(after[b] == before[b]);
                        }
                    }
                }
            },
        }
        if set_active {
            self.set_active_file(file_path);
        }
    }

    /// The path as text.
    pub fn get_file_path(path_buf: &PathBuf) -> (text: String)
        requires
            path_text(*path_buf) is Some,
        ensures
            Some(text@) == path_text(*path_buf),
    {
        file_path(path_buf)
    }

    /// The name of the file that `path_buf` leads to; empty where the path
    /// has no last component.
    pub fn get_file_name(path_buf: &PathBuf) -> (name: String)
        requires
            has_readable_name(*path_buf),
        ensures
            name@ == file_name_text(*path_buf),
    {
        file_name(path_buf)
    }

    /// Shows the file under `file_path`, under the name of its last
    /// component.
    pub fn set_active_file(&mut self, file_path: &String)
        requires
            old(self).wf(),
        ensures
            final(self).wf(),
            final(self)@.active_file_path == file_path@,
            final(self)@.active_file_name == file_name_text(path_of(file_path@)),
            final(self)@.files == old(self)@.files,
    {
        self.active_file_path = file_path.clone();
        self.active_file_name = file_name_of_text(file_path);
    }

    /// The path of the file that is shown, and its text where the file is
    /// open, to be edited in place.
    pub fn get_active_content(&mut self) -> (active: (String, Option<&mut String>))
        requires
            old(self).wf(),
        ensures
            final(self).wf(),
            active.0@ == old(self)@.active_file_path,
            final(self)@.active_file_path == old(self)@.active_file_path,
            final(self)@.active_file_name == old(self)@.active_file_name,
            match position_of(old(self)@.files, old(self)@.active_file_path) {
                Some(i) => active.1 matches Some(text) && text@ == old(self)@.files[i].1.content
                    && final(self)@.files == old(self)@.files.update(
                    i,
                    (
                        old(self)@.active_file_path,
                        FileDataView { name: old(self)@.files[i].1.name, content: final(text)@ },
                    ),
                ),
                None => active.1 is None && final(self)@.files == old(self)@.files,
            },
    {
        let path = self.active_file_path.clone();
        match find(&self.files, &self.active_file_path) {
            Some(i) => {
                proof {
                    let files = self.files@;
                    lemma_position_of(listed_view(files), self.active_file_path@);
                    assert forall|edited: (FileMetaData, String)|
                        edited.0 == files[i as int].0 implies {
                        &&& listed_view(#[trigger] files.update(i as int, edited)) == listed_view(
                            files,
                        ).update(
                            i as int,
                            (
                                files[i as int].0.path@,
                                FileDataView { name: files[i as int].0.name@, content: edited.1@ },
                            ),
                        )
                        &&& distinct_keys(listed_view(files.update(i as int, edited)))
                    } by {
                        lemma_edit_text(files, i as int, edited);
                    }
                }
                (path, Some(&mut self.files[i].1))
            },
            None => (path, None),
        }
    }

    /// Whether a file is open under `file_path`.
    pub fn contains(&self, file_path: &String) -> (open: bool)
        ensures
            open == position_of(self@.files, file_path@).is_some(),
    {
        find(&self.files, file_path).is_some()
    }

    /// How many files are open.
    pub fn len(&self) -> (n: usize)
        ensures
            n == self@.files.len(),
    {
        self.files.len()
    }

    /// The path of the file that is shown.
    pub fn active_file_path(&self) -> (path: &String)
        ensures
            path@ == self@.active_file_path,
    {
        &self.active_file_path
    }

    /// The name of the file that is shown.
    pub fn active_file_name(&self) -> (name: &String)
        ensures
            name@ == self@.active_file_name,
    {
        &self.active_file_name
    }

    /// The path and name of every open file, in the order in which they
    /// were opened.
    pub fn meta_data(&self) -> (meta: Vec<FileMetaData>)
        ensures
            meta@.len() == self@.files.len(),
            forall|i: int|
                0 <= i < meta@.len() ==> (#[trigger] meta@[i]).path@ == self@.files[i].0
                    && meta@[i].name@ == self@.files[i].1.name,
    {
        let mut meta: Vec<FileMetaData> = Vec::new();
        let mut i: usize = 0;
        while i < self.files.len()
            invariant
                i <= self.files.len(),
                meta@.len() == i,
                forall|k: int|
                    0 <= k < i ==> (#[trigger] meta@[k]).path@ == self.files@[k].0.path@
                        && meta@[k].name@ == self.files@[k].0.name@,
            decreases self.files.len() - i,
        {
            meta.push(
                FileMetaData {
                    path: self.files[i].0.path.clone(),
                    name: self.files[i].0.name.clone(),
                },
            );
            i += 1;
        }
        meta
    }

    /// Closes the file under `file_path`, where one is open, and shows the
    /// first of the files that are left, or none.
    pub fn close_file(&mut self, file_path: &String)
        requires
            old(self).wf(),
        ensures
            final(self).wf(),
            final(self)@.files == files_after_close(old(self)@.files, file_path@),
            final(self)@.active_file_path == active_path_after_close(final(self)@.files),
            final(self)@.active_file_name == active_name_after_close(final(self)@.files),
    {
        match find(&self.files, file_path) {
            Some(i) => {
                let ghost before = listed_view(self.files@);
                self.files.remove(i);
                proof {
                    let after = listed_view(self.files@);
                    assert(after =~= before.remove(i as int));
                    assert forall|a: int, b: int| 0 <= a < b < after.len() implies (
                    #[trigger] after[a]).0 != (#[trigger] after[b]).0 by {
                        let sa = if a < i { a } else { a + 1 };
                        let sb = if b < i { b } else { b + 1 };
                        assert(after[a] == before[sa]);
                        assert(after[b] == before[sb]);
                    }
                }
            },
            None => {},
        }
        if self.files.len() > 0 {
            let first = self.files[0].0.path.clone();
            self.set_active_file(&first);
        } else {
            self.active_file_path = String::new();
            self.active_file_name = String::new();
        }
    }
}

} // verus!
