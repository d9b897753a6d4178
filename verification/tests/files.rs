use std::path::PathBuf;

use code_editor::file_list::FileList;
use code_editor::file_store::FileStore;
use code_editor::paths::{file_name, file_name_of_text, file_path, try_file_name, try_file_path};

fn text(s: &str) -> String {
    s.to_string()
}

#[test]
fn path_text_and_file_name() {
    let path = PathBuf::from("/home/me/notes/list.txt");
    assert_eq!(file_path(&path), "/home/me/notes/list.txt");
    assert_eq!(try_file_path(&path), Some(text("/home/me/notes/list.txt")));
    assert_eq!(file_name(&path), "list.txt");
    assert_eq!(try_file_name(&path), Some(text("list.txt")));
    assert_eq!(FileStore::get_file_path(&path), "/home/me/notes/list.txt");
    assert_eq!(FileStore::get_file_name(&path), "list.txt");
    assert_eq!(FileList::get_file_path(&path), "/home/me/notes/list.txt");
    assert_eq!(FileList::get_file_name(&path), "list.txt");
}

#[test]
fn a_path_without_last_component_has_an_empty_name() {
    for p in ["", "/", "..", "a/.."] {
        assert_eq!(file_name(&PathBuf::from(p)), "", "{p:?}");
        assert_eq!(file_name_of_text(&text(p)), "", "{p:?}");
    }
    assert_eq!(file_name(&PathBuf::from("dir/")), "dir");
    assert_eq!(file_name_of_text(&text("a/b.rs")), "b.rs");
    assert_eq!(file_name_of_text(&text("b.rs")), "b.rs");
}

#[test]
fn new_store_is_empty() {
    let store = FileStore::new();
    assert!(store.is_empty());
    assert_eq!(store.len(), 0);
    assert_eq!(store.get_active_file_id(), "");
    assert!(store.get_active_file_components().is_empty());
    assert!(store.get_active_file().is_none());
}

#[test]
fn store_insert_opens_and_shows() {
    let mut store = FileStore::new();
    let parts = vec![(text("src"), text("src")), (text("a.js"), text("a.js"))];
    store.insert(&text("src/a.js"), text("let a;"), true, parts.clone());
    assert_eq!(store.len(), 1);
    assert!(store.contains(&text("src/a.js")));
    assert_eq!(store.get_active_file_id(), "src/a.js");
    assert_eq!(store.get_active_file_components(), parts);
    let file = store.get_active_file().unwrap();
    assert_eq!(file.name, "a.js");
    assert_eq!(file.content, "let a;");
}

#[test]
fn store_insert_without_showing_keeps_the_active_file() {
    let mut store = FileStore::new();
    let parts = vec![(text("a.js"), text("a.js"))];
    store.insert(&text("a.js"), text("1"), true, parts.clone());
    store.insert(&text("b.js"), text("2"), false, vec![(text("b.js"), text("b.js"))]);
    assert_eq!(store.len(), 2);
    assert_eq!(store.get_active_file_id(), "a.js");
    assert_eq!(store.get_active_file_components(), parts);
    assert_eq!(store.get_active_file().unwrap().content, "1");
}

#[test]
fn store_insert_of_an_open_path_keeps_its_text() {
    let mut store = FileStore::new();
    store.insert(&text("a.js"), text("edited"), true, Vec::new());
    store.insert(&text("a.js"), text("from disk"), true, Vec::new());
    assert_eq!(store.len(), 1);
    assert_eq!(store.get_active_file().unwrap().content, "edited");
    assert_eq!(store.get_active_file().unwrap().name, "a.js");
}

#[test]
fn store_active_file_can_be_edited_in_place() {
    let mut store = FileStore::new();
    store.insert(&text("a.js"), text("old"), true, Vec::new());
    store.insert(&text("b.js"), text("other"), false, Vec::new());
    store.get_active_file_as_mut().unwrap().content.push_str(" and new");
    assert_eq!(store.get_active_file().unwrap().content, "old and new");
    store.set_active_file(&text("b.js"));
    assert_eq!(store.get_active_file().unwrap().content, "other");
    store.set_active_file(&text("missing.js"));
    assert_eq!(store.get_active_file_id(), "missing.js");
    assert!(store.get_active_file().is_none());
    assert!(store.get_active_file_as_mut().is_none());
}

#[test]
fn store_close_removes_only_that_file() {
    let mut store = FileStore::new();
    store.insert(&text("a.js"), text("1"), true, Vec::new());
    store.insert(&text("b.js"), text("2"), false, Vec::new());
    store.close_file(&text("missing.js"));
    assert_eq!(store.len(), 2);
    store.close_file(&text("a.js"));
    assert_eq!(store.len(), 1);
    assert!(!store.contains(&text("a.js")));
    assert!(store.contains(&text("b.js")));
    // Closing does not change which path is shown.
    assert_eq!(store.get_active_file_id(), "a.js");
    assert!(store.get_active_file().is_none());
    store.close_file(&text("b.js"));
    assert!(store.is_empty());
}

#[test]
fn components_are_named_after_themselves_but_for_the_dot() {
    let parts = vec![text("."), text("src"), text("main.rs")];
    let named = FileStore::name_components(&parts, &text("project"));
    assert_eq!(
        named,
        vec![
            (text("project"), text(".")),
            (text("src"), text("src")),
            (text("main.rs"), text("main.rs")),
        ]
    );
    assert!(FileStore::name_components(&Vec::new(), &text("x")).is_empty());
    assert_eq!(
        FileStore::name_components(&vec![text("..")], &text("x")),
        vec![(text(".."), text(".."))]
    );
}

#[test]
fn new_list_is_empty() {
    let mut list = FileList::new();
    assert_eq!(list.len(), 0);
    assert_eq!(list.active_file_path(), "");
    assert_eq!(list.active_file_name(), "");
    assert!(list.meta_data().is_empty());
    let (path, content) = list.get_active_content();
    assert_eq!(path, "");
    assert!(content.is_none());
}

#[test]
fn list_insert_opens_and_shows() {
    let mut list = FileList::new();
    list.insert(&text("/p/a.js"), text("let a;"), true);
    list.insert(&text("/p/b.js"), text("let b;"), false);
    assert_eq!(list.len(), 2);
    assert_eq!(list.active_file_path(), "/p/a.js");
    assert_eq!(list.active_file_name(), "a.js");
    let meta = list.meta_data();
    assert_eq!(meta.len(), 2);
    assert_eq!((meta[0].path.as_str(), meta[0].name.as_str()), ("/p/a.js", "a.js"));
    assert_eq!((meta[1].path.as_str(), meta[1].name.as_str()), ("/p/b.js", "b.js"));
    let (path, content) = list.get_active_content();
    assert_eq!(path, "/p/a.js");
    assert_eq!(content.unwrap(), "let a;");
}

#[test]
fn list_insert_of_an_open_path_keeps_its_text() {
    let mut list = FileList::new();
    list.insert(&text("a.js"), text("edited"), true);
    list.insert(&text("a.js"), text("from disk"), false);
    assert_eq!(list.len(), 1);
    assert_eq!(list.get_active_content().1.unwrap(), "edited");
}

#[test]
fn list_active_content_can_be_edited_in_place() {
    let mut list = FileList::new();
    list.insert(&text("a.js"), text("one"), true);
    list.insert(&text("b.js"), text("two"), false);
    {
        let (_, content) = list.get_active_content();
        content.unwrap().push_str(" more");
    }
    assert_eq!(list.get_active_content().1.unwrap(), "one more");
    list.set_active_file(&text("b.js"));
    assert_eq!(list.active_file_name(), "b.js");
    assert_eq!(list.get_active_content().1.unwrap(), "two");
    list.set_active_file(&text("dir/none.js"));
    assert_eq!(list.active_file_path(), "dir/none.js");
    assert_eq!(list.active_file_name(), "none.js");
    assert!(list.get_active_content().1.is_none());
}

#[test]
fn list_close_shows_the_first_file_that_is_left() {
    let mut list = FileList::new();
    list.insert(&text("/p/a.js"), text("1"), false);
    list.insert(&text("/p/b.js"), text("2"), false);
    list.insert(&text("/p/c.js"), text("3"), true);
    list.close_file(&text("/p/a.js"));
    assert_eq!(list.len(), 2);
    assert!(!list.contains(&text("/p/a.js")));
    assert_eq!(list.active_file_path(), "/p/b.js");
    assert_eq!(list.active_file_name(), "b.js");
    list.close_file(&text("/p/missing.js"));
    assert_eq!(list.len(), 2);
    assert_eq!(list.active_file_path(), "/p/b.js");
    list.close_file(&text("/p/b.js"));
    assert_eq!(list.active_file_path(), "/p/c.js");
    list.close_file(&text("/p/c.js"));
    assert_eq!(list.len(), 0);
    assert_eq!(list.active_file_path(), "");
    assert_eq!(list.active_file_name(), "");
}

#[test]
fn default_stores_are_empty() {
    let store = FileStore::default();
    assert!(store.is_empty());
    assert_eq!(store.get_active_file_id(), "");
    let list = FileList::default();
    assert_eq!(list.len(), 0);
    assert_eq!(list.active_file_path(), "");
}

#[test]
fn store_lists_paths_and_names_in_opening_order() {
    let mut store = FileStore::new();
    store.insert(&text("z/b.js"), text("2"), false, Vec::new());
    store.insert(&text("a.js"), text("1"), false, Vec::new());
    assert_eq!(
        store.file_names(),
        vec![(text("z/b.js"), text("b.js")), (text("a.js"), text("a.js"))]
    );
}
