//! The file store: the files that the editor has open, each under its path,
//! and which of them is shown.

use vstd::prelude::*;
use std::path::PathBuf;
use crate::keyed::{distinct_keys, lemma_first_place, lemma_no_place, lemma_position_of, position_of};
use crate::paths::{
    file_name, file_name_of_text, file_name_text, file_path, has_readable_name, path_of, path_text,
};

verus! {

/// An open file: its name and its text.
#[derive(Debug, Clone)]
pub struct FileData {
    pub name: String,
    pub content: String,
}

/// An open file as mathematics.
pub struct FileDataView {
    pub name: Seq<char>,
    pub content: Seq<char>,
}

impl View for FileData {
    type V = FileDataView;

    open spec fn view(&self) -> FileDataView {
        FileDataView { name: self.name@, content: self.content@ }
    }
}

/// The store as mathematics: the open files under their paths, in the order
/// in which they were opened; the path of the file that is shown; and the
/// components of that path, each with its name and its text.
pub struct FileStoreView {
    pub files: Seq<(Seq<char>, FileDataView)>,
    pub active_file: Seq<char>,
    pub components: Seq<(Seq<char>, Seq<char>)>,
}

/// The open files of the editor. No path is held twice.
pub struct FileStore {
    files: Vec<(String, FileData)>,
    active_file: String,
    components: Vec<(String, String)>,
}

/// The files of a store as mathematics.
pub open spec fn files_view(files: Seq<(String, FileData)>) -> Seq<(Seq<char>, FileDataView)> {
    files.map_values(|file: (String, FileData)| (file.0@, file.1@))
}

/// The components of a path as mathematics.
pub open spec fn components_view(components: Seq<(String, String)>) -> Seq<(Seq<char>, Seq<char>)> {
    components.map_values(|c: (String, String)| (c.0@, c.1@))
}

/// The files after `content` was opened under `path`: a path that is open
/// keeps its place and its text; a new path comes last. Either way the file
/// is named after the last component of the path.
pub open spec fn files_after_insert(
    files: Seq<(Seq<char>, FileDataView)>,
    path: Seq<char>,
    content: Seq<char>,
) -> Seq<(Seq<char>, FileDataView)> {
    let name = file_name_text(path_of(path));
    match position_of(files, path) {
        Some(i) => files.update(i, (path, FileDataView { name, content: files[i].1.content })),
        None => files.push((path, FileDataView { name, content })),
    }
}

/// The files after `path` was closed.
pub open spec fn files_after_close(files: Seq<(Seq<char>, FileDataView)>, path: Seq<char>) -> Seq<
    (Seq<char>, FileDataView),
> {
    match position_of(files, path) {
        Some(i) => files.remove(i),
        None => files,
    }
}

/// Replacing the file at place `i`, under the same path, changes only that
/// file in the view and keeps the paths distinct.
proof fn lemma_edit_in_place(files: Seq<(String, FileData)>, i: int, edited: (String, FileData))
    requires
        0 <= i < files.len(),
        edited.0 == files[i].0,
    ensures
        files_view(files.update(i, edited)) == files_view(files).update(
            i,
            (files[i].0@, edited.1@),
        ),
        distinct_keys(files_view(files)) ==> distinct_keys(files_view(files.update(i, edited))),
{
    let before = files_view(files);
    let after = files_view(files.update(i, edited));
    assert(after =~= before.update(i, (files[i].0@, edited.1@)));
    if distinct_keys(before) {
        assert forall|a: int, b: int| 0 <= a < b < after.len() implies (#[trigger] after[a]).0 != (
        #[trigger] after[b]).0 by {
            assert(after[a].0 == before[a].0);
            assert(after[b].0 == before[b].0);
        }
    }
}

/// The same of every file that could take the place `i`: what an edit
/// through a reference to the file there leaves behind.
proof fn lemma_edits_in_place(files: Seq<(String, FileData)>, i: int)
    requires
        0 <= i < files.len(),
        distinct_keys(files_view(files)),
    ensures
        forall|edited: (String, FileData)|
            edited.0 == files[i].0 ==> {
                &&& files_view(#[trigger] files.update(i, edited)) == files_view(files).update(
                    i,
                    (files[i].0@, edited.1@),
                )
                &&& distinct_keys(files_view(files.update(i, edited)))
            },
{
    assert forall|edited: (String, FileData)| edited.0 == files[i].0 implies {
        &&& files_view(#[trigger] files.update(i, edited)) == files_view(files).update(
            i,
            (files[i].0@, edited.1@),
        )
        &&& distinct_keys(files_view(files.update(i, edited)))
    } by {
        lemma_edit_in_place(files, i, edited);
    }
}

/// A component of a path with the name that it is shown under: its own
/// text, but for `.`, which is shown under the name of the directory that it
/// stands for.
pub open spec fn named_component(part: Seq<char>, here: Seq<char>) -> (Seq<char>, Seq<char>) {
    if part == "."@ {
        (here, part)
    } else {
        (part, part)
    }
}

/// The place of `path` among `files`.
fn find(files: &Vec<(String, FileData)>, path: &String) -> (found: Option<usize>)
    ensures
        match position_of(files_view(files@), path@) {
            Some(i) => found == Some(i as usize),
            None => found is None,
        },
        found matches Some(i) ==> i < files@.len() && position_of(files_view(files@), path@)
            == Some(i as int),
{
    let mut i: usize = 0;
    while i < files.len()
        invariant
            i <= files.len(),
            forall|k: int| 0 <= k < i ==> (#[trigger] files_view(files@)[k]).0 != path@,
        decreases files.len() - i,
    {
        if files[i].0 == *path {
            proof {
                lemma_first_place(files_view(files@), path@, i as int);
            }
            return Some(i);
        }
        i += 1;
    }
    proof {
        lemma_no_place(files_view(files@), path@);
    }
    None
}

/// A copy of `components`.
fn copy_components(components: &Vec<(String, String)>) -> (copy: Vec<(String, String)>)
    ensures
        components_view(copy@) == components_view(components@),
{
    let mut copy: Vec<(String, String)> = Vec::new();
    let mut i: usize = 0;
    while i < components.len()
        invariant
            i <= components.len(),
            copy@.len() == i,
            forall|k: int|
                0 <= k < i ==> (#[trigger] copy@[k]).0@ == components@[k].0@ && copy@[k].1@
                    == components@[k].1@,
        decreases components.len() - i,
    {
        copy.push((components[i].0.clone(), components[i].1.clone()));
        i += 1;
    }
    assert(components_view(copy@) =~= components_view(components@));
    copy
}

impl View for FileStore {
    type V = FileStoreView;

    closed spec fn view(&self) -> FileStoreView {
        FileStoreView {
            files: files_view(self.files@),
            active_file: self.active_file@,
            components: components_view(self.components@),
        }
    }
}

impl Default for FileStore {
    /// A store with no file open.
    fn default() -> (store: FileStore)
        ensures
            store.wf(),
            store@.files == Seq::<(Seq<char>, FileDataView)>::empty(),
            store@.active_file == Seq::<char>::empty(),
            store@.components == Seq::<(Seq<char>, Seq<char>)>::empty(),
    {
        let store = FileStore { files: Vec::new(), active_file: String::new(), components: Vec::new() };
        assert(store@.files =~= Seq::<(Seq<char>, FileDataView)>::empty());
        assert(store@.components =~= Seq::<(Seq<char>, Seq<char>)>::empty());
        store
    }
}

impl FileStore {
    /// The store's invariant: no path is open twice.
    pub closed spec fn wf(&self) -> bool {
        distinct_keys(files_view(self.files@))
    }

    /// What `wf` says of the files.
    pub proof fn lemma_wf_files(&self)
        requires
            self.wf(),
        ensures
            distinct_keys(self@.files),
    {
    }

    /// A store with no file open.
    pub fn new() -> (store: FileStore)
        ensures
            store.wf(),
            store@.files == Seq::<(Seq<char>, FileDataView)>::empty(),
            store@.active_file == Seq::<char>::empty(),
            store@.components == Seq::<(Seq<char>, Seq<char>)>::empty(),
    {
        FileStore::default()
    }

    /// Opens `content` under `file_path`, and shows it if `active` is set;
    /// `components` are then the components of the path. A path that is
    /// open already keeps its text, and `content` is dropped.
    pub fn insert(
        &mut self,
        file_path: &String,
        content: String,
        active: bool,
        components: Vec<(String, String)>,
    )
        requires
            old(self).wf(),
        ensures
            final(self).wf(),
            final(self)@.files == files_after_insert(old(self)@.files, file_path@, content@),
            active ==> final(self)@.active_file == file_path@ && final(self)@.components
                == components_view(components@),
            !active ==> final(self)@.active_file == old(self)@.active_file
                && final(self)@.components == old(self)@.components,
    {
        let name = file_name_of_text(file_path);
        proof {
            lemma_position_of(files_view(self.files@), file_path@);
        }
        match find(&self.files, file_path) {
            Some(i) => {
                proof {
                    lemma_edits_in_place(self.files@, i as int);
                }
                self.files[i].1.name = name;
            },
            None => {
                let ghost before = files_view(self.files@);
                self.files.push((file_path.clone(), FileData { name, content }));
                proof {
                    let after = files_view(self.files@);
                    assert(after =~= before.push(
                        (file_path@, FileDataView { name: name@, content: content@ }),
                    ));
                    assert forall|a: int, b: int| 0 <= a < b < after.len() implies (
                    #[trigger] after[a]).0 != (#[trigger] after[b]).0 by {
                        assert(after[a] == before[a]);
                        if b < before.len() {
                            assert(after[b] == before[b]);
                        }
                    }
                }
            },
        }
        if active {
            self.active_file = file_path.clone();
            self.components = components;
        }
    }

    /// Names the components of a path. `parts` are the texts of the
    /// components in order, `here` the name of the current directory.
    pub fn name_components(parts: &Vec<String>, here: &String) -> (components: Vec<
        (String, String),
    >)
        ensures
            components_view(components@) == parts@.map_values(
                |part: String| named_component(part@, here@),
            ),
    {
        let dot = ".".to_owned();
        let mut components: Vec<(String, String)> = Vec::new();
        let mut i: usize = 0;
        while i < parts.len()
            invariant
                i <= parts.len(),
                dot@ == "."@,
                components@.len() == i,
                forall|k: int|
                    0 <= k < i ==> (#[trigger] components@[k].0@, components@[k].1@)
                        == named_component(parts@[k]@, here@),
            decreases parts.len() - i,
        {
            let name = if parts[i] == dot {
                here.clone()
            } else {
                parts[i].clone()
            };
            components.push((name, parts[i].clone()));
            i += 1;
        }
        assert(components_view(components@) =~= parts@.map_values(
            |part: String| named_component(part@, here@),
        ));
        components
    }

    /// The path as text.
    pub fn get_file_path(path: &PathBuf) -> (text: String)
        requires
            path_text(*path) is Some,
        ensures
            Some(text@) == path_text(*path),
    {
        file_path(path)
    }

    /// The name of the file that `path` leads to; empty where the path has
    /// no last component.
    pub fn get_file_name(path: &PathBuf) -> (name: String)
        requires
            has_readable_name(*path),
        ensures
            name@ == file_name_text(*path),
    {
        file_name(path)
    }

    /// The path of the file that is shown.
    pub fn get_active_file_id(&self) -> (id: String)
        ensures
            id@ == self@.active_file,
    {
        self.active_file.clone()
    }

    /// The components of the path of the file that is shown.
    pub fn get_active_file_components(&self) -> (components: Vec<(String, String)>)
        ensures
            components_view(components@) == self@.components,
    {
        copy_components(&self.components)
    }

    /// Shows the file under `file_path`.
    pub fn set_active_file(&mut self, file_path: &String)
        requires
            old(self).wf(),
        ensures
            final(self).wf(),
            final(self)@.active_file == file_path@,
            final(self)@.files == old(self)@.files,
            final(self)@.components == old(self)@.components,
    {
        self.active_file = file_path.clone();
    }

    /// The file that is shown, where it is open.
    pub fn get_active_file(&self) -> (file: Option<&FileData>)
        ensures
            match position_of(self@.files, self@.active_file) {
                Some(i) => file matches Some(f) && f@ == self@.files[i].1,
                None => file is None,
            },
    {
        match find(&self.files, &self.active_file) {
            Some(i) => Some(&self.files[i].1),
            None => None,
        }
    }

    /// The file that is shown, where it is open, to be edited in place.
    pub fn get_active_file_as_mut(&mut self) -> (file: Option<&mut FileData>)
        requires
            old(self).wf(),
        ensures
            final(self).wf(),
            final(self)@.active_file == old(self)@.active_file,
            final(self)@.components == old(self)@.components,
            match position_of(old(self)@.files, old(self)@.active_file) {
                Some(i) => file matches Some(f) && f@ == old(self)@.files[i].1 && final(self)@.files
                    == old(self)@.files.update(i, (old(self)@.active_file, final(f)@)),
                None => file is None && final(self)@.files == old(self)@.files,
            },
    {
        match find(&self.files, &self.active_file) {
            Some(i) => {
                proof {
                    lemma_position_of(files_view(self.files@), self.active_file@);
                    lemma_edits_in_place(self.files@, i as int);
                }
                Some(&mut self.files[i].1)
            },
            None => None,
        }
    }

    /// The path and name of every open file, in the order in which they
    /// were opened.
    pub fn file_names(&self) -> (names: Vec<(String, String)>)
        ensures
            names@.len() == self@.files.len(),
            forall|i: int|
                0 <= i < names@.len() ==> (#[trigger] names@[i]).0@ == self@.files[i].0
                    && names@[i].1@ == self@.files[i].1.name,
    {
        let mut names: Vec<(String, String)> = Vec::new();
        let mut i: usize = 0;
        while i < self.files.len()
            invariant
                i <= self.files.len(),
                names@.len() == i,
                forall|k: int|
                    0 <= k < i ==> (#[trigger] names@[k]).0@ == self.files@[k].0@ && names@[k].1@
                        == self.files@[k].1.name@,
            decreases self.files.len() - i,
        {
            names.push((self.files[i].0.clone(), self.files[i].1.name.clone()));
            i += 1;
        }
        names
    }

    /// Whether no file is open.
    pub fn is_empty(&self) -> (empty: bool)
        ensures
            empty == (self@.files.len() == 0),
    {
        self.files.len() == 0
    }

    /// How many files are open.
    pub fn len(&self) -> (n: usize)
        ensures
            n == self@.files.len(),
    {
        self.files.len()
    }

    /// Whether a file is open under `file_path`.
    pub fn contains(&self, file_path: &String) -> (open: bool)
        ensures
            open == position_of(self@.files, file_path@).is_some(),
    {
        find(&self.files, file_path).is_some()
    }

    /// Closes the file under `file_path`, where one is open.
    pub fn close_file(&mut self, file_path: &String)
        requires
            old(self).wf(),
        ensures
            final(self).wf(),
            final(self)@.files == files_after_close(old(self)@.files, file_path@),
            final(self)@.active_file == old(self)@.active_file,
            final(self)@.components == old(self)@.components,
    {
        match find(&self.files, file_path) {
            Some(i) => {
                let ghost before = files_view(self.files@);
                self.files.remove(i);
                proof {
                    let after = files_view(self.files@);
                    assert(after =~= before.remove(i as int));
                    assert forall|a: int, b: int| 0 <= a < b < after.len() implies (
                    #[trigger] after[a]).0 != (#[trigger] after[b]).0 by {
                        let sa = if a < i { a } else { a + 1 };
                        let sb = if b < i { b } else { b + 1 };
                        assert(after[a] == before[sa]);
                        assert(after[b] == before[sb]);
                    }
                }
            },
            None => {},
        }
    }
}

} // verus!
