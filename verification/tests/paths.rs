use update_store_dump::dump::dump_update_file;
use update_store_dump::error::DumpError;
use update_store_dump::paths::{check_bare, data_file_path, update_files_path, updates_path};

#[test]
fn content_goes_by_its_file_name() {
    let moved = dump_update_file("/tmp/x/content-abc123", "/bundle/updates/update_files").unwrap();
    assert_eq!(moved.name, "content-abc123");
    assert_eq!(moved.copy.from, "/tmp/x/content-abc123");
    assert_eq!(moved.copy.to, "/bundle/updates/update_files/content-abc123");
}

#[test]
fn directories_before_the_name_are_dropped() {
    let moved = dump_update_file("a/b/c/d.bin", "files").unwrap();
    assert_eq!(moved.name, "d.bin");
    assert_eq!(moved.copy.to, "files/d.bin");
}

#[test]
fn a_name_alone_stays() {
    let moved = dump_update_file("abc", "/bundle/updates/update_files/").unwrap();
    assert_eq!(moved.name, "abc");
    assert_eq!(moved.copy.from, "abc");
    assert_eq!(moved.copy.to, "/bundle/updates/update_files/abc");
}

#[test]
fn a_bare_root_has_no_file_name() {
    assert_eq!(dump_update_file("/", "/bundle"), Err(DumpError::InvalidUpdateFileName));
}

#[test]
fn an_empty_path_has_no_file_name() {
    assert_eq!(dump_update_file("", "/bundle"), Err(DumpError::InvalidUpdateFileName));
}

#[test]
fn a_path_that_ends_in_its_parent_has_no_file_name() {
    assert_eq!(dump_update_file("/tmp/x/..", "/bundle"), Err(DumpError::InvalidUpdateFileName));
    assert_eq!(dump_update_file("..", "/bundle"), Err(DumpError::InvalidUpdateFileName));
}

#[test]
fn bundle_layout() {
    let updates = updates_path("/bundle");
    assert_eq!(updates, "/bundle/updates");
    assert_eq!(data_file_path(&updates), "/bundle/updates/data.jsonl");
    assert_eq!(update_files_path(&updates), "/bundle/updates/update_files");
}

#[test]
fn bundle_layout_under_a_relative_root() {
    let updates = updates_path("out/");
    assert_eq!(updates, "out/updates");
    assert_eq!(update_files_path(&updates), "out/updates/update_files");
}

#[test]
fn bare_names() {
    assert!(check_bare("content-abc123"));
    assert!(check_bare("a"));
    assert!(check_bare("caf\u{e9}.bin"));
    assert!(!check_bare(""));
    assert!(!check_bare("a/b"));
    assert!(!check_bare("/"));
    assert!(!check_bare("abc/"));
}
